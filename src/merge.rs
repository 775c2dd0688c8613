//! The record merger: month rows and side tables into one ordered year.

use crate::domain::DailyPrayerTime;
use crate::domain::Event;
use crate::domain::GregorianDate;
use crate::domain::Hadith;
use crate::domain::PrayerTimes;
use crate::domain::clone_text;
use crate::input_dtos::DayInputDto;
use crate::input_dtos::EventInputDto;
use crate::input_dtos::WeeklyHadithInputDto;
use crate::calendar::valid_date;
use crate::text::date_id;
use crate::text::decimal;
use crate::text::lemma_date_id_value;
use crate::text::push_decimal;
use std::collections::HashMap;
use vstd::prelude::*;

verus! {

broadcast use vstd::std_specs::hash::group_hash_axioms;

/// The event of `key` in a table filled in order, a later entry replacing an
/// earlier one with the same key.
pub open spec fn event_lookup(entries: Seq<(String, Event)>, key: Seq<char>) -> Option<Event>
    decreases entries.len(),
{
    if entries.len() == 0 {
        None
    } else if entries.last().0@ == key {
        Some(entries.last().1)
    } else {
        event_lookup(entries.drop_last(), key)
    }
}

/// The hadith of each week, a later row replacing an earlier one for the
/// same week.
pub open spec fn hadith_map(rows: Seq<WeeklyHadithInputDto>) -> Map<u16, Hadith>
    decreases rows.len(),
{
    if rows.len() == 0 {
        Map::empty()
    } else {
        hadith_map(rows.drop_last()).insert(
            rows.last().week,
            Hadith { hadith: rows.last().hadith, note: rows.last().note },
        )
    }
}

/// The key under which the event of a day is looked up: `day/month`,
/// without padding.
pub open spec fn event_key(day: nat, month: nat) -> Seq<char> {
    decimal(day) + seq!['/'] + decimal(month)
}

/// The rows of `month` (1 to 12); none where the input has no such month.
pub open spec fn month_rows(months: Seq<Vec<DayInputDto>>, month: int) -> Seq<DayInputDto> {
    if 1 <= month <= months.len() {
        months[month - 1]@
    } else {
        Seq::empty()
    }
}

/// How many rows the months before `month` hold.
pub open spec fn rows_before(months: Seq<Vec<DayInputDto>>, month: int) -> nat
    decreases month,
{
    if month <= 1 {
        0
    } else {
        rows_before(months, month - 1) + month_rows(months, month - 1).len()
    }
}

/// How many rows the twelve months hold.
pub open spec fn total_rows(months: Seq<Vec<DayInputDto>>) -> nat {
    rows_before(months, 13)
}

/// The record made of one row of `month`, at position `index` of the year.
pub open spec fn day_record(
    year: u16,
    month: int,
    index: int,
    row: DayInputDto,
    events: Seq<(String, Event)>,
) -> DailyPrayerTime {
    DailyPrayerTime {
        gregorian_date: GregorianDate {
            index: index as u16,
            day: row.day,
            month: month as u8,
            year,
        },
        hijri_date: row.hijri,
        prayer_times: PrayerTimes {
            fajr: row.fajr,
            sunrise: row.sunrise,
            dhuhr: row.dhuhr,
            asr: row.asr,
            maghrib: row.maghrib,
            ishaa: row.ishaa,
        },
        week_id: None,
        event: event_lookup(events, event_key(row.day as nat, month as nat)),
    }
}

/// The records of `month`, numbered on from the months before it.
pub open spec fn month_records(
    year: u16,
    months: Seq<Vec<DayInputDto>>,
    events: Seq<(String, Event)>,
    month: int,
) -> Seq<DailyPrayerTime> {
    Seq::new(
        month_rows(months, month).len(),
        |i: int|
            day_record(
                year,
                month,
                rows_before(months, month) + i + 1,
                month_rows(months, month)[i],
                events,
            ),
    )
}

/// The records of months 1 to `month`, month after month, rows in file order.
pub open spec fn records_through(
    year: u16,
    months: Seq<Vec<DayInputDto>>,
    events: Seq<(String, Event)>,
    month: int,
) -> Seq<DailyPrayerTime>
    decreases month,
{
    if month <= 0 {
        Seq::empty()
    } else {
        records_through(year, months, events, month - 1) + month_records(
            year,
            months,
            events,
            month,
        )
    }
}

/// The merged year.
pub open spec fn year_records(
    year: u16,
    months: Seq<Vec<DayInputDto>>,
    events: Seq<(String, Event)>,
) -> Seq<DailyPrayerTime> {
    records_through(year, months, events, 12)
}

pub proof fn lemma_rows_before_monotone(months: Seq<Vec<DayInputDto>>, a: int, b: int)
    requires
        a <= b,
    ensures
        rows_before(months, a) <= rows_before(months, b),
    decreases b - a,
{
    if a < b {
        lemma_rows_before_monotone(months, a, b - 1);
    }
}

/// The event table of the event rows: one entry per row, in row order.
pub open spec fn event_table(rows: Seq<EventInputDto>) -> Seq<(String, Event)> {
    Seq::new(rows.len(), |i: int| (rows[i].date, Event { ar: rows[i].ar, en: rows[i].en }))
}

/// The event table: one entry per row, in row order.
pub fn make_events(rows: &Vec<EventInputDto>) -> (r: Vec<(String, Event)>)
    ensures
        r@ == event_table(rows@),
{
    let mut r: Vec<(String, Event)> = Vec::new();
    let mut i: usize = 0;
    while i < rows.len()
        invariant
            i <= rows@.len(),
            r@.len() == i,
            forall|k: int|
                0 <= k < i ==> (#[trigger] r@[k]).0 == rows@[k].date && r@[k].1 == (Event {
                    ar: rows@[k].ar,
                    en: rows@[k].en,
                }),
        decreases rows@.len() - i,
    {
        let row = &rows[i];
        r.push((row.date.clone(), Event { ar: row.ar.clone(), en: clone_text(&row.en) }));
        i = i + 1;
    }
    assert(r@ =~= event_table(rows@));
    r
}

/// The event stored under `key`, the last entry with that key winning.
pub fn find_event(entries: &Vec<(String, Event)>, key: &String) -> (r: Option<Event>)
    ensures
        r == event_lookup(entries@, key@),
{
    let mut i = entries.len();
    assert(entries@.subrange(0, i as int) =~= entries@);
    while i > 0
        invariant
            i <= entries@.len(),
            event_lookup(entries@, key@) == event_lookup(entries@.subrange(0, i as int), key@),
        decreases i,
    {
        assert(entries@.subrange(0, i as int).drop_last() =~= entries@.subrange(0, i - 1));
        if entries[i - 1].0 == *key {
            return Some(entries[i - 1].1.clone());
        }
        i = i - 1;
    }
    None
}

/// The weekly hadith table.
pub fn make_weekly_hadiths(rows: &Vec<WeeklyHadithInputDto>) -> (r: HashMap<u16, Hadith>)
    ensures
        r@ == hadith_map(rows@),
{
    let mut r: HashMap<u16, Hadith> = HashMap::new();
    let mut i: usize = 0;
    while i < rows.len()
        invariant
            i <= rows@.len(),
            r@ == hadith_map(rows@.subrange(0, i as int)),
        decreases rows@.len() - i,
    {
        let row = &rows[i];
        r.insert(row.week, Hadith { hadith: row.hadith.clone(), note: clone_text(&row.note) });
        assert(rows@.subrange(0, i + 1).drop_last() =~= rows@.subrange(0, i as int));
        i = i + 1;
    }
    assert(rows@.subrange(0, i as int) =~= rows@);
    r
}

/// The lookup key of a day: `day/month`.
pub fn make_event_key(day: u16, month: u8) -> (r: String)
    ensures
        r@ == event_key(day as nat, month as nat),
{
    let mut s = String::new();
    push_decimal(&mut s, day as u64);
    s.append("/");
    push_decimal(&mut s, month as u64);
    proof {
        reveal_strlit("/");
    }
    s
}

/// Merges the rows of months 1 to 12 (`months[m - 1]` holds month `m`; a
/// missing month holds nothing) into one year: month after month, rows in
/// the order given, numbered from 1 on, each with the event of its day.
pub fn make_yearly_prayer_times(
    year: u16,
    months: &Vec<Vec<DayInputDto>>,
    events: &Vec<(String, Event)>,
) -> (r: Vec<DailyPrayerTime>)
    requires
        total_rows(months@) <= 65535,
    ensures
        r@ == year_records(year, months@, events@),
        r@.len() == total_rows(months@),
        forall|i: int| 0 <= i < r@.len() ==> (#[trigger] r@[i]).gregorian_date.index == i + 1,
{
    let mut all_year: Vec<DailyPrayerTime> = Vec::new();
    let mut m: u8 = 1;
    while m <= 12
        invariant
            1 <= m <= 13,
            total_rows(months@) <= 65535,
            all_year@ == records_through(year, months@, events@, m - 1),
            all_year@.len() == rows_before(months@, m as int),
            forall|i: int|
                0 <= i < all_year@.len() ==> (#[trigger] all_year@[i]).gregorian_date.index == i
                    + 1,
        decreases 13 - m,
    {
        let ghost before = all_year@;
        let ghost rows = month_rows(months@, m as int);
        proof {
            lemma_rows_before_monotone(months@, m as int + 1, 13);
        }
        if ((m - 1) as usize) < months.len() {
            let month_days = &months[(m - 1) as usize];
            assert(month_days@ == rows);
            let mut j: usize = 0;
            while j < month_days.len()
                invariant
                    1 <= m <= 12,
                    j <= month_days@.len(),
                    month_days@ == rows,
                    before.len() == rows_before(months@, m as int),
                    rows_before(months@, m as int) + rows.len() <= 65535,
                    all_year@ == before + Seq::new(
                        j as nat,
                        |i: int|
                            day_record(
                                year,
                                m as int,
                                rows_before(months@, m as int) + i + 1,
                                rows[i],
                                events@,
                            ),
                    ),
                    forall|i: int|
                        0 <= i < all_year@.len() ==> (#[trigger] all_year@[i]).gregorian_date.index
                            == i + 1,
                decreases month_days@.len() - j,
            {
                let row = &month_days[j];
                let key = make_event_key(row.day, m);
                let event = find_event(events, &key);
                let index = (all_year.len() + 1) as u16;
                let record = DailyPrayerTime {
                    gregorian_date: GregorianDate { index, day: row.day, month: m, year },
                    hijri_date: row.hijri.clone(),
                    prayer_times: PrayerTimes {
                        fajr: row.fajr.clone(),
                        sunrise: row.sunrise.clone(),
                        dhuhr: row.dhuhr.clone(),
                        asr: row.asr.clone(),
                        maghrib: row.maghrib.clone(),
                        ishaa: row.ishaa.clone(),
                    },
                    week_id: None,
                    event,
                };
                all_year.push(record);
                assert(all_year@ =~= before + Seq::new(
                    (j + 1) as nat,
                    |i: int|
                        day_record(
                            year,
                            m as int,
                            rows_before(months@, m as int) + i + 1,
                            rows[i],
                            events@,
                        ),
                ));
                j = j + 1;
            }
            assert(all_year@ =~= records_through(year, months@, events@, m as int));
        } else {
            assert(rows.len() == 0);
            assert(all_year@ =~= records_through(year, months@, events@, m as int));
        }
        m = m + 1;
    }
    all_year
}


proof fn lemma_records_len(
    year: u16,
    months: Seq<Vec<DayInputDto>>,
    events: Seq<(String, Event)>,
    mm: int,
)
    requires
        0 <= mm,
    ensures
        records_through(year, months, events, mm).len() == rows_before(months, mm + 1),
    decreases mm,
{
    if mm > 0 {
        lemma_records_len(year, months, events, mm - 1);
    }
}

/// The record at position `p` of months 1 to `mm` is row `p - rows_before(m)`
/// of the month `m` whose rows hold position `p`.
proof fn lemma_record_at(
    year: u16,
    months: Seq<Vec<DayInputDto>>,
    events: Seq<(String, Event)>,
    mm: int,
    p: int,
) -> (m: int)
    requires
        0 <= mm,
        0 <= p < records_through(year, months, events, mm).len(),
    ensures
        1 <= m <= mm,
        rows_before(months, m) <= p < rows_before(months, m + 1),
        records_through(year, months, events, mm)[p] == day_record(
            year,
            m,
            p + 1,
            month_rows(months, m)[p - rows_before(months, m)],
            events,
        ),
    decreases mm,
{
    lemma_records_len(year, months, events, mm - 1);
    if p < rows_before(months, mm) {
        lemma_record_at(year, months, events, mm - 1, p)
    } else {
        mm
    }
}

/// Where each month's rows are dates of the year in increasing order of
/// day, the ids of the days (`YYYYMMDD`) increase with their position in the
/// year.
pub proof fn lemma_day_ids_increase(
    year: u16,
    months: Seq<Vec<DayInputDto>>,
    events: Seq<(String, Event)>,
    i: int,
    j: int,
)
    requires
        forall|m: int, a: int, b: int|
            1 <= m <= 12 && 0 <= a < b < month_rows(months, m).len() ==> (#[trigger] month_rows(
                months,
                m,
            )[a]).day < (#[trigger] month_rows(months, m)[b]).day,
        forall|m: int, a: int|
            1 <= m <= 12 && 0 <= a < month_rows(months, m).len() ==> valid_date(
                year as int,
                m,
                (#[trigger] month_rows(months, m)[a]).day as int,
            ),
        0 <= i < j < year_records(year, months, events).len(),
    ensures
        ({
            let di = year_records(year, months, events)[i].gregorian_date;
            let dj = year_records(year, months, events)[j].gregorian_date;
            date_id(di.year as nat, di.month as nat, di.day as nat) < date_id(
                dj.year as nat,
                dj.month as nat,
                dj.day as nat,
            )
        }),
{
    let mi = lemma_record_at(year, months, events, 12, i);
    let mj = lemma_record_at(year, months, events, 12, j);
    let ri = month_rows(months, mi)[i - rows_before(months, mi)];
    let rj = month_rows(months, mj)[j - rows_before(months, mj)];
    if mi > mj {
        lemma_rows_before_monotone(months, mj + 1, mi);
    }
    assert(valid_date(year as int, mi, ri.day as int));
    assert(valid_date(year as int, mj, rj.day as int));
    lemma_date_id_value(year as nat, mi as nat, ri.day as nat);
    lemma_date_id_value(year as nat, mj as nat, rj.day as nat);
    if mi == mj {
        assert(ri.day < rj.day);
    }
}

} // verus!
