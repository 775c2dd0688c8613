//! The documents handed to the writer: day, week and year views.

use crate::domain::DailyPrayerTime;
use crate::domain::Event;
use crate::domain::GregorianDate;
use crate::domain::Hadith;
use crate::domain::clone_text;
use crate::text::date_id;
use crate::text::date_id_of;
use crate::text::decimal;
use crate::text::hijri_text;
use crate::text::padded2;
use crate::text::push_decimal;
use crate::text::push_padded2;
use crate::text::reformat_hijri;
use vstd::prelude::*;

verus! {

#[derive(Debug)]
pub struct YearOutputDto {
    pub year: Vec<DayOutputDto>,
    pub sha1: String,
}

#[derive(Debug)]
pub struct YearWeeksOutputDto {
    pub weeks: Vec<WeekOutputDto>,
    pub sha1: String,
}

#[derive(Debug)]
pub struct HadithOutputDto {
    pub hadith: String,
    pub note: Option<String>,
}

#[derive(Debug)]
pub struct WeekOutputDto {
    pub id: u64,
    pub mon: Option<DayOutputDto>,
    pub tue: Option<DayOutputDto>,
    pub wed: Option<DayOutputDto>,
    pub thu: Option<DayOutputDto>,
    pub fri: Option<DayOutputDto>,
    pub sat: Option<DayOutputDto>,
    pub sun: Option<DayOutputDto>,
    pub hadith: Option<HadithOutputDto>,
}

#[derive(Debug)]
pub struct DayOutputDto {
    pub id: u64,
    pub gregorian: String,
    pub hijri: String,
    pub prayer_times: PrayerTimesOutputDto,
    pub week_id: Option<u64>,
    pub event: Option<EventOutputDto>,
}

#[derive(Debug)]
pub struct PrayerTimesOutputDto {
    pub fajr: String,
    pub sunrise: String,
    pub dhuhr: String,
    pub asr: String,
    pub maghrib: String,
    pub ishaa: String,
}

#[derive(Debug)]
pub struct EventOutputDto {
    pub ar: String,
    pub en: Option<String>,
}

/// The Gregorian date written `DD/MM/YYYY`.
pub open spec fn gregorian_text(d: GregorianDate) -> Seq<char> {
    padded2(d.day as nat) + seq!['/'] + padded2(d.month as nat) + seq!['/'] + decimal(
        d.year as nat,
    )
}

pub open spec fn is_event_view(v: Option<EventOutputDto>, e: Option<Event>) -> bool {
    match (v, e) {
        (None, None) => true,
        (Some(v), Some(e)) => v.ar == e.ar && v.en == e.en,
        _ => false,
    }
}

/// `v` is the day view of `d`.
pub open spec fn is_day_view(v: DayOutputDto, d: DailyPrayerTime) -> bool {
    &&& v.id == date_id(
        d.gregorian_date.year as nat,
        d.gregorian_date.month as nat,
        d.gregorian_date.day as nat,
    )
    &&& v.gregorian@ == gregorian_text(d.gregorian_date)
    &&& v.hijri@ == hijri_text(d.hijri_date@)
    &&& v.prayer_times.fajr == d.prayer_times.fajr
    &&& v.prayer_times.sunrise == d.prayer_times.sunrise
    &&& v.prayer_times.dhuhr == d.prayer_times.dhuhr
    &&& v.prayer_times.asr == d.prayer_times.asr
    &&& v.prayer_times.maghrib == d.prayer_times.maghrib
    &&& v.prayer_times.ishaa == d.prayer_times.ishaa
    &&& v.week_id == d.week_id
    &&& is_event_view(v.event, d.event)
}

pub open spec fn is_hadith_view(v: Option<HadithOutputDto>, h: Option<Hadith>) -> bool {
    match (v, h) {
        (None, None) => true,
        (Some(v), Some(h)) => v.hadith == h.hadith && v.note == h.note,
        _ => false,
    }
}

/// `vs` are the day views of `ds`, one for one.
pub open spec fn are_day_views(vs: Seq<DayOutputDto>, ds: Seq<DailyPrayerTime>) -> bool {
    &&& vs.len() == ds.len()
    &&& forall|i: int| 0 <= i < vs.len() ==> is_day_view(#[trigger] vs[i], ds[i])
}

impl DayOutputDto {
    /// The day view of a day: its id, its dates as text, its times, its week
    /// and its event.
    pub fn from(day: DailyPrayerTime) -> (r: DayOutputDto)
        ensures
            is_day_view(r, day),
    {
        let hijri = reformat_hijri(&day.hijri_date);
        let id = date_id_of(
            day.gregorian_date.year,
            day.gregorian_date.month,
            day.gregorian_date.day,
        );
        let event = match day.event {
            None => None,
            Some(e) => Some(EventOutputDto { ar: e.ar, en: e.en }),
        };
        let mut gregorian = String::new();
        push_padded2(&mut gregorian, day.gregorian_date.day as u64);
        gregorian.append("/");
        push_padded2(&mut gregorian, day.gregorian_date.month as u64);
        gregorian.append("/");
        push_decimal(&mut gregorian, day.gregorian_date.year as u64);
        proof {
            reveal_strlit("/");
        }
        assert(gregorian@ == gregorian_text(day.gregorian_date));
        assert(is_event_view(event, day.event));
        DayOutputDto {
            id,
            gregorian,
            hijri,
            week_id: day.week_id,
            prayer_times: PrayerTimesOutputDto {
                fajr: day.prayer_times.fajr,
                sunrise: day.prayer_times.sunrise,
                dhuhr: day.prayer_times.dhuhr,
                asr: day.prayer_times.asr,
                maghrib: day.prayer_times.maghrib,
                ishaa: day.prayer_times.ishaa,
            },
            event,
        }
    }
}

impl HadithOutputDto {
    /// The hadith view of a hadith.
    pub fn from_hadith(h: &Hadith) -> (r: HadithOutputDto)
        ensures
            r.hadith == h.hadith,
            r.note == h.note,
    {
        HadithOutputDto { hadith: h.hadith.clone(), note: clone_text(&h.note) }
    }
}

/// The day views of `days`, in their order.
pub fn day_views(days: &Vec<DailyPrayerTime>) -> (r: Vec<DayOutputDto>)
    ensures
        are_day_views(r@, days@),
{
    let mut r: Vec<DayOutputDto> = Vec::new();
    let mut i: usize = 0;
    while i < days.len()
        invariant
            i <= days@.len(),
            are_day_views(r@, days@.subrange(0, i as int)),
        decreases days@.len() - i,
    {
        r.push(DayOutputDto::from(days[i].clone()));
        i = i + 1;
    }
    assert(days@.subrange(0, i as int) =~= days@);
    r
}

} // verus!
