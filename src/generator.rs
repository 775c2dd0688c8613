//! The orchestrator: one merged year, projected into every document.

use crate::calendar::WeekDay;
use crate::digest::digest_days;
use crate::digest::year_digest;
use crate::domain::DailyPrayerTime;
use crate::domain::Hadith;
use crate::input_dtos::DayInputDto;
use crate::input_dtos::EventInputDto;
use crate::input_dtos::WeeklyHadithInputDto;
use crate::merge::event_table;
use crate::merge::hadith_map;
use crate::merge::make_events;
use crate::merge::make_weekly_hadiths;
use crate::merge::make_yearly_prayer_times;
use crate::merge::total_rows;
use crate::merge::year_records;
use crate::output_dtos::DayOutputDto;
use crate::output_dtos::HadithOutputDto;
use crate::output_dtos::WeekOutputDto;
use crate::output_dtos::YearOutputDto;
use crate::output_dtos::YearWeeksOutputDto;
use crate::output_dtos::are_day_views;
use crate::output_dtos::day_views;
use crate::output_dtos::is_day_view;
use crate::output_dtos::is_hadith_view;
use crate::week::PartitionError;
use crate::week::WEEKS;
use crate::week::WeekBucket;
use crate::week::WeekPartition;
use crate::week::is_partition;
use crate::week::lemma_buckets_hold_distinct_weekdays;
use crate::week::partition_weeks;
use std::collections::HashMap;
use vstd::prelude::*;

verus! {

/// The merged year and the weekly hadith table.
pub struct Generator {
    pub yearly_prayer_times: Vec<DailyPrayerTime>,
    pub weekly_hadith: HashMap<u16, Hadith>,
}

/// The document of one day, with the date that places it.
#[derive(Debug)]
pub struct DayDocument {
    pub year: u16,
    pub month: u8,
    pub day: u16,
    pub view: DayOutputDto,
}

pub open spec fn is_day_document(doc: DayDocument, d: DailyPrayerTime) -> bool {
    &&& doc.year == d.gregorian_date.year
    &&& doc.month == d.gregorian_date.month
    &&& doc.day == d.gregorian_date.day
    &&& is_day_view(doc.view, d)
}

/// The days of `month`, in their order.
pub open spec fn month_days(days: Seq<DailyPrayerTime>, month: int) -> Seq<DailyPrayerTime>
    decreases days.len(),
{
    if days.len() == 0 {
        Seq::empty()
    } else if days.last().gregorian_date.month == month {
        month_days(days.drop_last(), month).push(days.last())
    } else {
        month_days(days.drop_last(), month)
    }
}

/// `new` is `old` with the week id `ids[i]` written on each day `i`.
pub open spec fn backfilled(
    new: Seq<DailyPrayerTime>,
    old: Seq<DailyPrayerTime>,
    ids: Seq<Option<u64>>,
) -> bool {
    &&& new.len() == old.len() == ids.len()
    &&& forall|i: int|
        0 <= i < new.len() ==> {
            &&& (#[trigger] new[i]).gregorian_date == old[i].gregorian_date
            &&& new[i].hijri_date == old[i].hijri_date
            &&& new[i].prayer_times == old[i].prayer_times
            &&& new[i].event == old[i].event
            &&& new[i].week_id == ids[i]
        }
}

pub open spec fn is_slot_view(
    v: Option<DayOutputDto>,
    slot: Option<usize>,
    days: Seq<DailyPrayerTime>,
) -> bool {
    match (v, slot) {
        (None, None) => true,
        (Some(v), Some(i)) => i < days.len() && is_day_view(v, days[i as int]),
        _ => false,
    }
}

/// `v` is the week view of bucket `b`, its slots showing the days of `days`.
pub open spec fn is_week_view(v: WeekOutputDto, b: WeekBucket, days: Seq<DailyPrayerTime>) -> bool {
    &&& v.id == b.id
    &&& b.slots@.len() == 7
    &&& is_slot_view(v.mon, b.slots@[0], days)
    &&& is_slot_view(v.tue, b.slots@[1], days)
    &&& is_slot_view(v.wed, b.slots@[2], days)
    &&& is_slot_view(v.thu, b.slots@[3], days)
    &&& is_slot_view(v.fri, b.slots@[4], days)
    &&& is_slot_view(v.sat, b.slots@[5], days)
    &&& is_slot_view(v.sun, b.slots@[6], days)
    &&& is_hadith_view(v.hadith, b.hadith)
}

/// `r` holds, for each month 1 to 12, the views of the days of the month.
pub open spec fn are_month_views(r: Seq<Vec<DayOutputDto>>, days: Seq<DailyPrayerTime>) -> bool {
    &&& r.len() == 12
    &&& forall|m: int|
        0 <= m < 12 ==> are_day_views((#[trigger] r[m])@, month_days(days, m + 1))
}

/// `r` holds, for each month 1 to 12, the documents of the days of the month.
pub open spec fn are_day_documents(r: Seq<Vec<DayDocument>>, days: Seq<DailyPrayerTime>) -> bool {
    &&& r.len() == 12
    &&& forall|m: int|
        0 <= m < 12 ==> {
            let ds = month_days(days, m + 1);
            &&& (#[trigger] r[m])@.len() == ds.len()
            &&& forall|i: int| 0 <= i < ds.len() ==> is_day_document(#[trigger] r[m]@[i], ds[i])
        }
}

/// The days of `month`, in their order.
pub fn days_of_month(days: &Vec<DailyPrayerTime>, month: u8) -> (r: Vec<DailyPrayerTime>)
    ensures
        r@ == month_days(days@, month as int),
{
    let mut r: Vec<DailyPrayerTime> = Vec::new();
    let mut i: usize = 0;
    while i < days.len()
        invariant
            i <= days@.len(),
            r@ == month_days(days@.subrange(0, i as int), month as int),
        decreases days@.len() - i,
    {
        assert(days@.subrange(0, i + 1).drop_last() =~= days@.subrange(0, i as int));
        if days[i].gregorian_date.month == month {
            r.push(days[i].clone());
        }
        i = i + 1;
    }
    assert(days@.subrange(0, i as int) =~= days@);
    r
}

fn slot_view(slot: Option<usize>, days: &Vec<DailyPrayerTime>) -> (r: Option<DayOutputDto>)
    requires
        slot matches Some(i) ==> i < days@.len(),
    ensures
        is_slot_view(r, slot, days@),
{
    match slot {
        None => None,
        Some(i) => Some(DayOutputDto::from(days[i].clone())),
    }
}

/// The week view of a bucket.
pub fn week_view(b: &WeekBucket, days: &Vec<DailyPrayerTime>) -> (r: WeekOutputDto)
    requires
        b.slots@.len() == 7,
        forall|x: int| 0 <= x < 7 ==> (#[trigger] b.slots@[x] matches Some(i) ==> i < days@.len()),
    ensures
        is_week_view(r, *b, days@),
{
    let hadith = match &b.hadith {
        None => None,
        Some(h) => Some(HadithOutputDto::from_hadith(h)),
    };
    let mon = slot_view(b.slots[0], days);
    let tue = slot_view(b.slots[1], days);
    let wed = slot_view(b.slots[2], days);
    let thu = slot_view(b.slots[3], days);
    let fri = slot_view(b.slots[4], days);
    let sat = slot_view(b.slots[5], days);
    let sun = slot_view(b.slots[6], days);
    WeekOutputDto { id: b.id, mon, tue, wed, thu, fri, sat, sun, hadith }
}

impl Generator {
    /// Merges the rows of months 1 to 12 (`months[m - 1]`) with the event
    /// table, and builds the weekly hadith table.
    pub fn new(
        year: u16,
        months: &Vec<Vec<DayInputDto>>,
        events: &Vec<EventInputDto>,
        hadiths: &Vec<WeeklyHadithInputDto>,
    ) -> (r: Generator)
        requires
            total_rows(months@) <= 65535,
        ensures
            r.yearly_prayer_times@ == year_records(year, months@, event_table(events@)),
            r.weekly_hadith@ == hadith_map(hadiths@),
    {
        let table = make_events(events);
        let weekly_hadith = make_weekly_hadiths(hadiths);
        let yearly_prayer_times = make_yearly_prayer_times(year, months, &table);
        Generator { yearly_prayer_times, weekly_hadith }
    }

    /// The digest of the year view.
    pub fn make_sha1(&self) -> (r: String)
        ensures
            exists|vs: Seq<DayOutputDto>|
                are_day_views(vs, self.yearly_prayer_times@) && r@ == year_digest(vs),
    {
        digest_days(&self.yearly_prayer_times)
    }

    /// The digest document's value; none for a year without days.
    pub fn generate_sha1(&self) -> (r: Option<String>)
        ensures
            r is None <==> self.yearly_prayer_times@.len() == 0,
            r matches Some(s) ==> exists|vs: Seq<DayOutputDto>|
                are_day_views(vs, self.yearly_prayer_times@) && s@ == year_digest(vs),
    {
        if self.yearly_prayer_times.len() == 0 {
            None
        } else {
            Some(self.make_sha1())
        }
    }

    /// Partitions the year into weeks starting on `starting_at` (the year of
    /// the first day giving the week ids) and writes each day's week id back
    /// onto it. `None`, and nothing changed, for a year without days.
    pub fn assign_weeks(&mut self, starting_at: WeekDay) -> (r: Result<
        Option<WeekPartition>,
        PartitionError,
    >)
        ensures
            old(self).yearly_prayer_times@.len() == 0 ==> r == Ok::<
                Option<WeekPartition>,
                PartitionError,
            >(None) && *final(self) == *old(self),
            final(self).weekly_hadith@ == old(self).weekly_hadith@,
            match r {
                Ok(Some(p)) => old(self).yearly_prayer_times@.len() > 0 && (forall|i: int|
                    0 <= i < old(self).yearly_prayer_times@.len() ==> crate::week::day_is_valid(
                        #[trigger] old(self).yearly_prayer_times@[i],
                    )) && is_partition(
                    p,
                    old(self).yearly_prayer_times@,
                    old(self).yearly_prayer_times@[0].gregorian_date.year,
                    starting_at,
                    old(self).weekly_hadith@,
                ) && backfilled(
                    final(self).yearly_prayer_times@,
                    old(self).yearly_prayer_times@,
                    p.week_ids@,
                ),
                Ok(None) => old(self).yearly_prayer_times@.len() == 0,
                Err(PartitionError::InvalidDate { position }) => *final(self) == *old(self)
                    && position < old(self).yearly_prayer_times@.len() && !crate::week::day_is_valid(
                    old(self).yearly_prayer_times@[position as int],
                ) && forall|i: int|
                    0 <= i < position ==> crate::week::day_is_valid(
                        #[trigger] old(self).yearly_prayer_times@[i],
                    ),
            },
    {
        if self.yearly_prayer_times.len() == 0 {
            return Ok(None);
        }
        let year = self.yearly_prayer_times[0].gregorian_date.year;
        let part = match partition_weeks(
            &self.yearly_prayer_times,
            year,
            starting_at,
            &self.weekly_hadith,
        ) {
            Err(e) => {
                return Err(e);
            },
            Ok(p) => p,
        };
        let ghost before = self.yearly_prayer_times@;
        let ghost hadiths = self.weekly_hadith@;
        let mut i: usize = 0;
        while i < self.yearly_prayer_times.len()
            invariant
                self.weekly_hadith@ == hadiths,
                i <= self.yearly_prayer_times@.len() == before.len() == part.week_ids@.len(),
                forall|j: int|
                    0 <= j < before.len() ==> {
                        &&& (#[trigger] self.yearly_prayer_times@[j]).gregorian_date
                            == before[j].gregorian_date
                        &&& self.yearly_prayer_times@[j].hijri_date == before[j].hijri_date
                        &&& self.yearly_prayer_times@[j].prayer_times == before[j].prayer_times
                        &&& self.yearly_prayer_times@[j].event == before[j].event
                        &&& self.yearly_prayer_times@[j].week_id == (if j < i {
                            part.week_ids@[j]
                        } else {
                            before[j].week_id
                        })
                    },
            decreases before.len() - i,
        {
            let mut d = self.yearly_prayer_times[i].clone();
            d.week_id = part.week_ids[i];
            self.yearly_prayer_times.set(i, d);
            i = i + 1;
        }
        Ok(Some(part))
    }

    /// The week views of a partition of this year.
    pub fn week_views(&self, part: &WeekPartition) -> (r: Vec<WeekOutputDto>)
        requires
            exists|days: Seq<DailyPrayerTime>, year: u16, start: WeekDay, h: Map<u16, Hadith>|
                days.len() == self.yearly_prayer_times@.len() && is_partition(
                    *part,
                    days,
                    year,
                    start,
                    h,
                ),
        ensures
            r@.len() == WEEKS,
            forall|b: int|
                0 <= b < WEEKS ==> is_week_view(
                    #[trigger] r@[b],
                    part.buckets@[b],
                    self.yearly_prayer_times@,
                ),
    {
        let ghost (days, year, start, h) = choose|
            days: Seq<DailyPrayerTime>,
            year: u16,
            start: WeekDay,
            h: Map<u16, Hadith>,
        |
            days.len() == self.yearly_prayer_times@.len() && is_partition(
                *part,
                days,
                year,
                start,
                h,
            );
        let n = self.yearly_prayer_times.len();
        let mut r: Vec<WeekOutputDto> = Vec::new();
        let mut b: usize = 0;
        while b < WEEKS
            invariant
                b <= WEEKS,
                days.len() == self.yearly_prayer_times@.len(),
                days.len() <= usize::MAX,
                is_partition(*part, days, year, start, h),
                r@.len() == b,
                forall|c: int|
                    0 <= c < b ==> is_week_view(
                        #[trigger] r@[c],
                        part.buckets@[c],
                        self.yearly_prayer_times@,
                    ),
            decreases WEEKS - b,
        {
            let bucket = &part.buckets[b];
            assert forall|x: int| 0 <= x < 7 implies (#[trigger] bucket.slots@[x] matches Some(
                i,
            ) ==> i < self.yearly_prayer_times@.len()) by {
                lemma_buckets_hold_distinct_weekdays(*part, days, year, start, h, b as int, x, x);
            }
            r.push(week_view(bucket, &self.yearly_prayer_times));
            b = b + 1;
        }
        r
    }

    /// The year document with the given digest; none for a year without days.
    pub fn year_document(&self, sha1: String) -> (r: Option<YearOutputDto>)
        ensures
            r is None <==> self.yearly_prayer_times@.len() == 0,
            r matches Some(doc) ==> are_day_views(doc.year@, self.yearly_prayer_times@)
                && doc.sha1 == sha1,
    {
        if self.yearly_prayer_times.len() == 0 {
            return None;
        }
        Some(YearOutputDto { year: day_views(&self.yearly_prayer_times), sha1 })
    }

    /// The year document: every day view, in order, and the year's digest.
    pub fn generate_yearly_prayer_times(&self) -> (r: Option<YearOutputDto>)
        ensures
            r is None <==> self.yearly_prayer_times@.len() == 0,
            r matches Some(doc) ==> are_day_views(doc.year@, self.yearly_prayer_times@) && exists|
                vs: Seq<DayOutputDto>,
            | are_day_views(vs, self.yearly_prayer_times@) && doc.sha1@ == year_digest(vs),
    {
        let sha1 = self.make_sha1();
        self.year_document(sha1)
    }

    /// Partitions the year into weeks starting on `starting_at`, writes the
    /// week ids back onto the days, and gives the weeks document: the 53
    /// week views over the updated days and the digest of the updated year.
    /// `None` for a year without days.
    pub fn generate_weekly_prayer_times(&mut self, starting_at: WeekDay) -> (r: Result<
        Option<YearWeeksOutputDto>,
        PartitionError,
    >)
        ensures
            final(self).weekly_hadith@ == old(self).weekly_hadith@,
            match r {
                Ok(None) => old(self).yearly_prayer_times@.len() == 0,
                Ok(Some(doc)) => old(self).yearly_prayer_times@.len() > 0 && exists|
                    p: WeekPartition,
                |
                    {
                        &&& is_partition(
                            p,
                            old(self).yearly_prayer_times@,
                            old(self).yearly_prayer_times@[0].gregorian_date.year,
                            starting_at,
                            old(self).weekly_hadith@,
                        )
                        &&& backfilled(
                            final(self).yearly_prayer_times@,
                            old(self).yearly_prayer_times@,
                            p.week_ids@,
                        )
                        &&& doc.weeks@.len() == WEEKS
                        &&& forall|b: int|
                            0 <= b < WEEKS ==> is_week_view(
                                #[trigger] doc.weeks@[b],
                                p.buckets@[b],
                                final(self).yearly_prayer_times@,
                            )
                    } && exists|vs: Seq<DayOutputDto>|
                        are_day_views(vs, final(self).yearly_prayer_times@) && doc.sha1@
                            == year_digest(vs),
                Err(PartitionError::InvalidDate { position }) => *final(self) == *old(self)
                    && position < old(self).yearly_prayer_times@.len() && !crate::week::day_is_valid(
                    old(self).yearly_prayer_times@[position as int],
                ),
            },
    {
        match self.assign_weeks(starting_at) {
            Err(e) => Err(e),
            Ok(None) => Ok(None),
            Ok(Some(part)) => {
                let weeks = self.week_views(&part);
                let sha1 = self.make_sha1();
                Ok(Some(YearWeeksOutputDto { weeks, sha1 }))
            },
        }
    }

    /// The month documents: for each month 1 to 12, the views of its days in
    /// order; nothing for a year without days.
    pub fn generate_monthly_prayer_times(&self) -> (r: Vec<Vec<DayOutputDto>>)
        ensures
            self.yearly_prayer_times@.len() == 0 ==> r@.len() == 0,
            self.yearly_prayer_times@.len() > 0 ==> are_month_views(r@, self.yearly_prayer_times@),
    {
        let mut r: Vec<Vec<DayOutputDto>> = Vec::new();
        if self.yearly_prayer_times.len() == 0 {
            return r;
        }
        let mut m: u8 = 1;
        while m <= 12
            invariant
                1 <= m <= 13,
                r@.len() == m - 1,
                forall|k: int|
                    0 <= k < r@.len() ==> are_day_views(
                        (#[trigger] r@[k])@,
                        month_days(self.yearly_prayer_times@, k + 1),
                    ),
            decreases 13 - m,
        {
            let days = days_of_month(&self.yearly_prayer_times, m);
            r.push(day_views(&days));
            m = m + 1;
        }
        r
    }

    /// The day documents: for each month 1 to 12, one document per day of
    /// the month, in order.
    pub fn generate_daily_prayer_times(&self) -> (r: Vec<Vec<DayDocument>>)
        ensures
            are_day_documents(r@, self.yearly_prayer_times@),
    {
        let mut r: Vec<Vec<DayDocument>> = Vec::new();
        let mut m: u8 = 1;
        while m <= 12
            invariant
                1 <= m <= 13,
                r@.len() == m - 1,
                forall|k: int|
                    0 <= k < r@.len() ==> {
                        let ds = month_days(self.yearly_prayer_times@, k + 1);
                        &&& (#[trigger] r@[k])@.len() == ds.len()
                        &&& forall|i: int|
                            0 <= i < ds.len() ==> is_day_document(#[trigger] r@[k]@[i], ds[i])
                    },
            decreases 13 - m,
        {
            let days = days_of_month(&self.yearly_prayer_times, m);
            let mut docs: Vec<DayDocument> = Vec::new();
            let mut i: usize = 0;
            while i < days.len()
                invariant
                    i <= days@.len(),
                    docs@.len() == i,
                    forall|j: int| 0 <= j < i ==> is_day_document(#[trigger] docs@[j], days@[j]),
                decreases days@.len() - i,
            {
                let date = days[i].gregorian_date;
                let view = DayOutputDto::from(days[i].clone());
                docs.push(DayDocument { year: date.year, month: date.month, day: date.day, view });
                i = i + 1;
            }
            r.push(docs);
            m = m + 1;
        }
        r
    }
}

} // verus!
