//! The week partitioner: the ordered year into 53 week buckets.

use crate::calendar::WeekDay;
use crate::calendar::previous_day;
use crate::calendar::resolve_weekday;
use crate::calendar::slot_of;
use crate::calendar::valid_date;
use crate::calendar::weekday_of;
use crate::domain::DailyPrayerTime;
use crate::domain::Hadith;
use std::collections::HashMap;
use vstd::prelude::*;

verus! {

broadcast use vstd::std_specs::hash::group_hash_axioms;

/// Number of week buckets in a year.
pub const WEEKS: usize = 53;

/// Why a year cannot be partitioned.
#[derive(Debug, Clone, Copy, PartialEq, Eq, Structural)]
pub enum PartitionError {
    /// The day at `position` of the year does not exist in the calendar.
    InvalidDate { position: usize },
}

/// One week of the year: the day (by its position in the year) in each
/// weekday slot, Monday first, and the week's hadith.
#[derive(Debug)]
pub struct WeekBucket {
    pub id: u64,
    pub slots: Vec<Option<usize>>,
    pub hadith: Option<Hadith>,
}

/// The buckets of a year and the week id given to each day.
#[derive(Debug)]
pub struct WeekPartition {
    pub buckets: Vec<WeekBucket>,
    pub week_ids: Vec<Option<u64>>,
}

pub open spec fn day_is_valid(d: DailyPrayerTime) -> bool {
    valid_date(
        d.gregorian_date.year as int,
        d.gregorian_date.month as int,
        d.gregorian_date.day as int,
    )
}

pub open spec fn day_weekday(d: DailyPrayerTime) -> WeekDay {
    weekday_of(
        d.gregorian_date.year as int,
        d.gregorian_date.month as int,
        d.gregorian_date.day as int,
    )
}

/// The weekday of each day.
pub open spec fn weekdays(days: Seq<DailyPrayerTime>) -> Seq<WeekDay> {
    Seq::new(days.len(), |i: int| day_weekday(days[i]))
}

/// The open week (from 1) and how many days it holds, after the first `n`
/// days: a week closes after the day before `start`, or once it holds seven
/// days.
pub open spec fn week_state(wds: Seq<WeekDay>, start: WeekDay, n: int) -> (int, int)
    decreases n,
{
    if n <= 0 {
        (1, 0)
    } else {
        let (w, c) = week_state(wds, start, n - 1);
        if wds[n - 1] == previous_day(start) || c + 1 == 7 {
            (w + 1, 0)
        } else {
            (w, c + 1)
        }
    }
}

/// The week (from 1) that the day at position `i` falls in.
pub open spec fn week_of(wds: Seq<WeekDay>, start: WeekDay, i: int) -> int {
    week_state(wds, start, i).0
}

/// The last of the first `n` days that falls in week `w` with weekday slot
/// `x`: the one that the slot keeps.
pub open spec fn slot_day(wds: Seq<WeekDay>, start: WeekDay, n: int, w: int, x: int) -> Option<
    usize,
>
    decreases n,
{
    if n <= 0 {
        None
    } else if week_of(wds, start, n - 1) == w && slot_of(wds[n - 1]) == x {
        Some((n - 1) as usize)
    } else {
        slot_day(wds, start, n - 1, w, x)
    }
}

/// The week id of week `w` of `year`.
pub open spec fn week_id(year: u16, w: int) -> int {
    year * 100 + w
}

/// `p` partitions `days` of `year` into weeks starting on `start`, each
/// bucket carrying its hadith from `hadiths`.
pub open spec fn is_partition(
    p: WeekPartition,
    days: Seq<DailyPrayerTime>,
    year: u16,
    start: WeekDay,
    hadiths: Map<u16, Hadith>,
) -> bool {
    let wds = weekdays(days);
    &&& p.buckets@.len() == WEEKS
    &&& forall|b: int|
        0 <= b < WEEKS ==> {
            let bucket = #[trigger] p.buckets@[b];
            &&& bucket.id == week_id(year, b + 1)
            &&& bucket.slots@.len() == 7
            &&& forall|x: int|
                0 <= x < 7 ==> #[trigger] bucket.slots@[x] == slot_day(
                    wds,
                    start,
                    days.len() as int,
                    b + 1,
                    x,
                )
            &&& bucket.hadith == (if hadiths.contains_key((b + 1) as u16) {
                Some(hadiths[(b + 1) as u16])
            } else {
                None
            })
        }
    &&& p.week_ids@.len() == days.len()
    &&& forall|i: int|
        0 <= i < days.len() ==> #[trigger] p.week_ids@[i] == (if week_of(wds, start, i) <= WEEKS {
            Some(week_id(year, week_of(wds, start, i)) as u64)
        } else {
            None
        })
}

/// The weekday of each day, or the position of the first day that does not
/// exist.
fn resolve_weekdays(days: &Vec<DailyPrayerTime>) -> (r: Result<Vec<WeekDay>, PartitionError>)
    ensures
        match r {
            Ok(wds) => (forall|i: int| 0 <= i < days@.len() ==> day_is_valid(#[trigger] days@[i]))
                && wds@ == weekdays(days@),
            Err(PartitionError::InvalidDate { position }) => position < days@.len()
                && !day_is_valid(days@[position as int]) && forall|i: int|
                0 <= i < position ==> day_is_valid(#[trigger] days@[i]),
        },
{
    let mut wds: Vec<WeekDay> = Vec::new();
    let mut i: usize = 0;
    while i < days.len()
        invariant
            i <= days@.len(),
            forall|k: int| 0 <= k < i ==> day_is_valid(#[trigger] days@[k]),
            wds@ == weekdays(days@).subrange(0, i as int),
        decreases days@.len() - i,
    {
        let date = days[i].gregorian_date;
        match resolve_weekday(date.year, date.month, date.day) {
            None => {
                return Err(PartitionError::InvalidDate { position: i });
            },
            Some(w) => {
                wds.push(w);
                assert(wds@ =~= weekdays(days@).subrange(0, i + 1));
            },
        }
        i = i + 1;
    }
    assert(weekdays(days@).subrange(0, i as int) =~= weekdays(days@));
    Ok(wds)
}

/// Walks the days once: the week id of each day and, for each of the 53
/// weeks and 7 slots (cell `7 * (w - 1) + x`), the day that the slot keeps.
fn assign_weeks(wds: &Vec<WeekDay>, year: u16, start: WeekDay) -> (r: (
    Vec<Option<u64>>,
    Vec<Option<usize>>,
))
    ensures
        r.0@.len() == wds@.len(),
        forall|i: int|
            0 <= i < wds@.len() ==> #[trigger] r.0@[i] == (if week_of(wds@, start, i) <= WEEKS {
                Some(week_id(year, week_of(wds@, start, i)) as u64)
            } else {
                None
            }),
        r.1@.len() == 7 * WEEKS,
        forall|w: int, x: int|
            1 <= w <= WEEKS && 0 <= x < 7 ==> #[trigger] r.1@[7 * (w - 1) + x] == slot_day(
                wds@,
                start,
                wds@.len() as int,
                w,
                x,
            ),
{
    let last = start.previous();
    let mut cells: Vec<Option<usize>> = Vec::new();
    let mut k: usize = 0;
    while k < 7 * WEEKS
        invariant
            k <= 7 * WEEKS,
            cells@.len() == k,
            forall|j: int| 0 <= j < k ==> #[trigger] cells@[j] == None::<usize>,
        decreases 7 * WEEKS - k,
    {
        cells.push(None);
        k = k + 1;
    }
    let mut ids: Vec<Option<u64>> = Vec::new();
    let mut week: usize = 1;
    let mut count: usize = 0;
    let mut i: usize = 0;
    while i < wds.len()
        invariant
            i <= wds@.len(),
            last == previous_day(start),
            count as int == week_state(wds@, start, i as int).1,
            week as int == (if week_state(wds@, start, i as int).0 <= WEEKS + 1 {
                week_state(wds@, start, i as int).0
            } else {
                WEEKS + 1
            }),
            1 <= week_state(wds@, start, i as int).0,
            count < 7,
            ids@.len() == i,
            forall|j: int|
                0 <= j < i ==> #[trigger] ids@[j] == (if week_of(wds@, start, j) <= WEEKS {
                    Some(week_id(year, week_of(wds@, start, j)) as u64)
                } else {
                    None
                }),
            cells@.len() == 7 * WEEKS,
            forall|w: int, x: int|
                1 <= w <= WEEKS && 0 <= x < 7 ==> #[trigger] cells@[7 * (w - 1) + x] == slot_day(
                    wds@,
                    start,
                    i as int,
                    w,
                    x,
                ),
        decreases wds@.len() - i,
    {
        let wd = wds[i];
        let x = wd.slot();
        if week <= WEEKS {
            ids.push(Some((year as u64) * 100 + week as u64));
            cells.set(7 * (week - 1) + x, Some(i));
        } else {
            ids.push(None);
        }
        assert forall|w: int, y: int|
            1 <= w <= WEEKS && 0 <= y < 7 implies #[trigger] cells@[7 * (w - 1) + y] == slot_day(
                wds@,
                start,
                i + 1,
                w,
                y,
            ) by {
            if w == week && y == x {
            } else {
                assert(7 * (w - 1) + y != 7 * (week - 1) + x);
            }
        }
        count = count + 1;
        if wd == last || count == 7 {
            if week <= WEEKS {
                week = week + 1;
            }
            count = 0;
        }
        i = i + 1;
    }
    (ids, cells)
}

/// Partitions the ordered days of `year` into exactly 53 weeks that start on
/// `start`. Walking the days in order, each day takes the slot of its
/// weekday in the open week (a later day replacing an earlier one in the
/// same slot) and gets the week's id `year * 100 + week`; the week closes
/// after the day before `start`, or once seven days went in. Days past the
/// 53rd week are in no bucket and get no week id. Each bucket carries the
/// hadith of its week number. Fails on the first day that does not exist.
pub fn partition_weeks(
    days: &Vec<DailyPrayerTime>,
    year: u16,
    start: WeekDay,
    hadiths: &HashMap<u16, Hadith>,
) -> (r: Result<WeekPartition, PartitionError>)
    ensures
        match r {
            Ok(p) => (forall|i: int| 0 <= i < days@.len() ==> day_is_valid(#[trigger] days@[i]))
                && is_partition(p, days@, year, start, hadiths@),
            Err(PartitionError::InvalidDate { position }) => position < days@.len()
                && !day_is_valid(days@[position as int]) && forall|i: int|
                0 <= i < position ==> day_is_valid(#[trigger] days@[i]),
        },
{
    let wds = match resolve_weekdays(days) {
        Err(e) => {
            return Err(e);
        },
        Ok(wds) => wds,
    };
    let (week_ids, cells) = assign_weeks(&wds, year, start);
    let mut buckets: Vec<WeekBucket> = Vec::new();
    let mut b: usize = 0;
    while b < WEEKS
        invariant
            b <= WEEKS,
            wds@ == weekdays(days@),
            cells@.len() == 7 * WEEKS,
            forall|w: int, x: int|
                1 <= w <= WEEKS && 0 <= x < 7 ==> #[trigger] cells@[7 * (w - 1) + x] == slot_day(
                    wds@,
                    start,
                    wds@.len() as int,
                    w,
                    x,
                ),
            buckets@.len() == b,
            forall|c: int|
                0 <= c < b ==> {
                    let bucket = #[trigger] buckets@[c];
                    &&& bucket.id == week_id(year, c + 1)
                    &&& bucket.slots@.len() == 7
                    &&& forall|x: int|
                        0 <= x < 7 ==> #[trigger] bucket.slots@[x] == slot_day(
                            weekdays(days@),
                            start,
                            days@.len() as int,
                            c + 1,
                            x,
                        )
                    &&& bucket.hadith == (if hadiths@.contains_key((c + 1) as u16) {
                        Some(hadiths@[(c + 1) as u16])
                    } else {
                        None
                    })
                },
        decreases WEEKS - b,
    {
        let mut slots: Vec<Option<usize>> = Vec::new();
        let mut x: usize = 0;
        while x < 7
            invariant
                b < WEEKS,
                x <= 7,
                cells@.len() == 7 * WEEKS,
                slots@.len() == x,
                forall|y: int| 0 <= y < x ==> #[trigger] slots@[y] == cells@[7 * b + y],
            decreases 7 - x,
        {
            slots.push(cells[7 * b + x]);
            x = x + 1;
        }
        assert forall|y: int| 0 <= y < 7 implies #[trigger] slots@[y] == slot_day(
            weekdays(days@),
            start,
            days@.len() as int,
            b + 1,
            y,
        ) by {
            assert(cells@[7 * ((b + 1) - 1) + y] == slot_day(
                wds@,
                start,
                wds@.len() as int,
                b + 1,
                y,
            ));
        }
        let week_number = (b + 1) as u16;
        let hadith = match hadiths.get(&week_number) {
            None => None,
            Some(h) => Some(h.clone()),
        };
        buckets.push(
            WeekBucket { id: (year as u64) * 100 + (b as u64) + 1, slots, hadith },
        );
        b = b + 1;
    }
    Ok(WeekPartition { buckets, week_ids })
}


/// A slot keeps one of the days walked so far, of its own week and its own
/// weekday.
pub proof fn lemma_slot_day(wds: Seq<WeekDay>, start: WeekDay, n: int, w: int, x: int)
    requires
        n <= wds.len() <= usize::MAX,
    ensures
        slot_day(wds, start, n, w, x) matches Some(i) ==> 0 <= i < n && week_of(wds, start, i as int)
            == w && slot_of(wds[i as int]) == x,
    decreases n,
{
    if n > 0 {
        lemma_slot_day(wds, start, n - 1, w, x);
    }
}

/// A partition has exactly 53 buckets; each filled slot of a bucket holds a
/// day of that slot's weekday, so the filled slots of a bucket hold days of
/// distinct weekdays.
pub proof fn lemma_buckets_hold_distinct_weekdays(
    p: WeekPartition,
    days: Seq<DailyPrayerTime>,
    year: u16,
    start: WeekDay,
    hadiths: Map<u16, Hadith>,
    b: int,
    x: int,
    y: int,
)
    requires
        is_partition(p, days, year, start, hadiths),
        days.len() <= usize::MAX,
        0 <= b < WEEKS,
        0 <= x < 7,
        0 <= y < 7,
    ensures
        p.buckets@.len() == WEEKS,
        p.buckets@[b].slots@[x] matches Some(i) ==> i < days.len() && slot_of(
            day_weekday(days[i as int]),
        ) == x,
        x != y && p.buckets@[b].slots@[x] is Some && p.buckets@[b].slots@[y] is Some ==> day_weekday(
            days[p.buckets@[b].slots@[x].unwrap() as int],
        ) != day_weekday(days[p.buckets@[b].slots@[y].unwrap() as int]),
{
    let wds = weekdays(days);
    let bucket = p.buckets@[b];
    assert(bucket.slots@[x] == slot_day(wds, start, days.len() as int, b + 1, x));
    assert(bucket.slots@[y] == slot_day(wds, start, days.len() as int, b + 1, y));
    lemma_slot_day(wds, start, days.len() as int, b + 1, x);
    lemma_slot_day(wds, start, days.len() as int, b + 1, y);
}

/// The weekday of a day does not depend on the day that weeks start on:
/// whatever the start, a day sits in the slot of its own weekday; only its
/// bucket changes.
pub proof fn lemma_weekday_independent_of_start(
    p1: WeekPartition,
    p2: WeekPartition,
    days: Seq<DailyPrayerTime>,
    year: u16,
    start1: WeekDay,
    start2: WeekDay,
    hadiths: Map<u16, Hadith>,
    b1: int,
    b2: int,
    x1: int,
    x2: int,
    i: usize,
)
    requires
        is_partition(p1, days, year, start1, hadiths),
        is_partition(p2, days, year, start2, hadiths),
        days.len() <= usize::MAX,
        0 <= b1 < WEEKS,
        0 <= b2 < WEEKS,
        0 <= x1 < 7,
        0 <= x2 < 7,
        p1.buckets@[b1].slots@[x1] == Some(i),
        p2.buckets@[b2].slots@[x2] == Some(i),
    ensures
        x1 == x2,
        x1 == slot_of(day_weekday(days[i as int])),
{
    lemma_buckets_hold_distinct_weekdays(p1, days, year, start1, hadiths, b1, x1, x1);
    lemma_buckets_hold_distinct_weekdays(p2, days, year, start2, hadiths, b2, x2, x2);
}

} // verus!
