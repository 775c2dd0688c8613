//! The rows handed over by the loader.

use crate::domain::DailyPrayerTime;
use vstd::prelude::*;

verus! {

/// One row of a month table.
#[derive(Debug)]
pub struct DayInputDto {
    pub day: u16,
    pub hijri: String,
    pub fajr: String,
    pub sunrise: String,
    pub dhuhr: String,
    pub asr: String,
    pub maghrib: String,
    pub ishaa: String,
}

/// One row of the event table; `date` is written `day/month`.
#[derive(Debug)]
pub struct EventInputDto {
    pub date: String,
    pub ar: String,
    pub en: Option<String>,
}

/// One row of the weekly hadith table.
#[derive(Debug)]
pub struct WeeklyHadithInputDto {
    pub week: u16,
    pub hadith: String,
    pub note: Option<String>,
}

impl From<DailyPrayerTime> for DayInputDto {
    fn from(day: DailyPrayerTime) -> (r: Self) {
        DayInputDto {
            day: day.gregorian_date.day,
            hijri: day.hijri_date,
            fajr: day.prayer_times.fajr,
            sunrise: day.prayer_times.sunrise,
            dhuhr: day.prayer_times.dhuhr,
            asr: day.prayer_times.asr,
            maghrib: day.prayer_times.maghrib,
            ishaa: day.prayer_times.ishaa,
        }
    }
}

impl vstd::std_specs::convert::FromSpecImpl<DailyPrayerTime> for DayInputDto {
    open spec fn obeys_from_spec() -> bool {
        true
    }

    open spec fn from_spec(day: DailyPrayerTime) -> DayInputDto {
        DayInputDto {
            day: day.gregorian_date.day,
            hijri: day.hijri_date,
            fajr: day.prayer_times.fajr,
            sunrise: day.prayer_times.sunrise,
            dhuhr: day.prayer_times.dhuhr,
            asr: day.prayer_times.asr,
            maghrib: day.prayer_times.maghrib,
            ishaa: day.prayer_times.ishaa,
        }
    }
}

} // verus!
