//! The merged year model: one record per day row.

use crate::text::decimal;
use crate::text::push_decimal;
use vstd::prelude::*;

verus! {

/// A date of the processed year with its 1-based position in the year.
#[derive(Debug, Clone, Copy, PartialEq, Eq, Structural)]
pub struct GregorianDate {
    pub index: u16,
    pub day: u16,
    pub month: u8,
    pub year: u16,
}

/// The six prayer times of a day, kept as given.
#[derive(Debug, PartialEq, Eq)]
pub struct PrayerTimes {
    pub fajr: String,
    pub sunrise: String,
    pub dhuhr: String,
    pub asr: String,
    pub maghrib: String,
    pub ishaa: String,
}

/// A calendar event attached to one day.
#[derive(Debug, PartialEq, Eq)]
pub struct Event {
    pub ar: String,
    pub en: Option<String>,
}

/// The hadith of one week of the year.
#[derive(Debug, PartialEq, Eq)]
pub struct Hadith {
    pub hadith: String,
    pub note: Option<String>,
}

/// One day of the year with its annotations.
#[derive(Debug, PartialEq, Eq)]
pub struct DailyPrayerTime {
    pub gregorian_date: GregorianDate,
    pub hijri_date: String,
    pub prayer_times: PrayerTimes,
    pub week_id: Option<u64>,
    pub event: Option<Event>,
}

pub fn clone_text(s: &Option<String>) -> (r: Option<String>)
    ensures
        r == *s,
{
    match s {
        None => None,
        Some(t) => Some(t.clone()),
    }
}

impl Clone for PrayerTimes {
    fn clone(&self) -> (r: Self)
        ensures
            r == *self,
    {
        PrayerTimes {
            fajr: self.fajr.clone(),
            sunrise: self.sunrise.clone(),
            dhuhr: self.dhuhr.clone(),
            asr: self.asr.clone(),
            maghrib: self.maghrib.clone(),
            ishaa: self.ishaa.clone(),
        }
    }
}

impl Clone for Event {
    fn clone(&self) -> (r: Self)
        ensures
            r == *self,
    {
        Event { ar: self.ar.clone(), en: clone_text(&self.en) }
    }
}

impl Clone for Hadith {
    fn clone(&self) -> (r: Self)
        ensures
            r == *self,
    {
        Hadith { hadith: self.hadith.clone(), note: clone_text(&self.note) }
    }
}

impl Clone for DailyPrayerTime {
    fn clone(&self) -> (r: Self)
        ensures
            r == *self,
    {
        let event = match &self.event {
            None => None,
            Some(e) => Some(e.clone()),
        };
        DailyPrayerTime {
            gregorian_date: self.gregorian_date,
            hijri_date: self.hijri_date.clone(),
            prayer_times: self.prayer_times.clone(),
            week_id: self.week_id,
            event,
        }
    }
}

/// Dates are ordered by their position in the year alone.
pub open spec fn index_order(a: u16, b: u16) -> Option<core::cmp::Ordering> {
    if a < b {
        Some(core::cmp::Ordering::Less)
    } else if a > b {
        Some(core::cmp::Ordering::Greater)
    } else {
        Some(core::cmp::Ordering::Equal)
    }
}

impl PartialOrd for GregorianDate {
    fn partial_cmp(&self, other: &Self) -> (r: Option<core::cmp::Ordering>) {
        if self.index < other.index {
            Some(core::cmp::Ordering::Less)
        } else if self.index > other.index {
            Some(core::cmp::Ordering::Greater)
        } else {
            Some(core::cmp::Ordering::Equal)
        }
    }
}

impl vstd::std_specs::cmp::PartialOrdSpecImpl for GregorianDate {
    open spec fn obeys_partial_cmp_spec() -> bool {
        true
    }

    open spec fn partial_cmp_spec(&self, other: &Self) -> Option<core::cmp::Ordering> {
        index_order(self.index, other.index)
    }
}

impl PartialOrd for DailyPrayerTime {
    fn partial_cmp(&self, other: &Self) -> (r: Option<core::cmp::Ordering>) {
        self.gregorian_date.partial_cmp(&other.gregorian_date)
    }
}

impl vstd::std_specs::cmp::PartialOrdSpecImpl for DailyPrayerTime {
    open spec fn obeys_partial_cmp_spec() -> bool {
        true
    }

    open spec fn partial_cmp_spec(&self, other: &Self) -> Option<core::cmp::Ordering> {
        index_order(self.gregorian_date.index, other.gregorian_date.index)
    }
}

/// The date written `year/month/day` without padding.
pub open spec fn date_text(d: GregorianDate) -> Seq<char> {
    decimal(d.year as nat) + seq!['/'] + decimal(d.month as nat) + seq!['/'] + decimal(
        d.day as nat,
    )
}

impl GregorianDate {
    /// The date written `year/month/day` without padding.
    pub fn to_string(&self) -> (r: String)
        ensures
            r@ == date_text(*self),
    {
        let mut s = String::new();
        push_decimal(&mut s, self.year as u64);
        s.append("/");
        push_decimal(&mut s, self.month as u64);
        s.append("/");
        push_decimal(&mut s, self.day as u64);
        proof {
            reveal_strlit("/");
        }
        s
    }
}

} // verus!
