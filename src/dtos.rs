//! The first shape of the month tables and of the day index.

use vstd::prelude::*;

verus! {

#[derive(Debug)]
pub struct PrayerTimes {
    pub fajer: String,
    pub sunrise: String,
    pub dhuhr: String,
    pub asr: String,
    pub maghrib: String,
    pub ishaa: String,
}

/// One row of a month table.
#[derive(Debug)]
pub struct Day {
    pub day: u8,
    pub hijri: String,
    pub fajer: String,
    pub sunrise: String,
    pub dhuhr: String,
    pub asr: String,
    pub maghrib: String,
    pub ishaa: String,
}

/// The index entry of one day: its hijri date and its times.
#[derive(Debug)]
pub struct DayIndex {
    pub hijri: String,
    pub prayer_times: PrayerTimes,
}

/// The rows of one month.
#[derive(Debug)]
pub struct Month {
    pub month_num: u8,
    pub days: Vec<Day>,
}

impl From<Day> for DayIndex {
    fn from(day: Day) -> (r: Self) {
        Self {
            hijri: day.hijri,
            prayer_times: PrayerTimes {
                fajer: day.fajer,
                sunrise: day.sunrise,
                dhuhr: day.dhuhr,
                asr: day.asr,
                maghrib: day.maghrib,
                ishaa: day.ishaa,
            },
        }
    }
}

impl vstd::std_specs::convert::FromSpecImpl<Day> for DayIndex {
    open spec fn obeys_from_spec() -> bool {
        true
    }

    open spec fn from_spec(day: Day) -> DayIndex {
        DayIndex {
            hijri: day.hijri,
            prayer_times: PrayerTimes {
                fajer: day.fajer,
                sunrise: day.sunrise,
                dhuhr: day.dhuhr,
                asr: day.asr,
                maghrib: day.maghrib,
                ishaa: day.ishaa,
            },
        }
    }
}

} // verus!
