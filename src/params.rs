//! Run parameters and the whole generation run.

use crate::calendar::WeekDay;
use crate::digest::year_digest;
use crate::domain::DailyPrayerTime;
use crate::generator::DayDocument;
use crate::generator::Generator;
use crate::generator::are_day_documents;
use crate::generator::are_month_views;
use crate::generator::backfilled;
use crate::generator::is_week_view;
use crate::input_dtos::DayInputDto;
use crate::input_dtos::EventInputDto;
use crate::input_dtos::WeeklyHadithInputDto;
use crate::merge::event_table;
use crate::merge::hadith_map;
use crate::merge::total_rows;
use crate::merge::year_records;
use crate::output_dtos::DayOutputDto;
use crate::output_dtos::YearOutputDto;
use crate::output_dtos::YearWeeksOutputDto;
use crate::output_dtos::are_day_views;
use crate::week::PartitionError;
use crate::week::WEEKS;
use crate::week::WeekPartition;
use crate::week::day_is_valid;
use crate::week::is_partition;
use vstd::prelude::*;

verus! {

/// The format of the month tables.
#[derive(Debug, Clone, Copy, PartialEq, Eq, Structural)]
pub enum InputFormat {
    Json,
    Csv,
}

/// The parameters of a run.
#[derive(Debug)]
pub struct V1Params {
    /// The year to generate the prayer times for.
    pub year: u16,
    /// Directory of the twelve month tables and the side tables.
    pub year_dir: String,
    /// Where the documents go.
    pub output_dir_path: String,
    pub input_format: InputFormat,
    /// The day of the week that each week starts on.
    pub week_start_day: WeekDay,
}

/// The commands of the program.
#[derive(Debug)]
pub enum CliParams {
    V1(V1Params),
}

/// What the loader read: the rows of months 1 to 12 (`months[m - 1]`), the
/// event rows and the weekly hadith rows.
#[derive(Debug)]
pub struct YearInput {
    pub months: Vec<Vec<DayInputDto>>,
    pub events: Vec<EventInputDto>,
    pub hadiths: Vec<WeeklyHadithInputDto>,
}

/// Every document of a run.
#[derive(Debug)]
pub struct GeneratedOutput {
    pub days: Vec<Vec<DayDocument>>,
    pub weeks: Option<YearWeeksOutputDto>,
    pub year: Option<YearOutputDto>,
    pub months: Vec<Vec<DayOutputDto>>,
    pub sha1: Option<String>,
}

pub open spec fn is_empty_output(out: GeneratedOutput) -> bool {
    &&& out.weeks is None
    &&& out.year is None
    &&& out.sha1 is None
    &&& out.months@.len() == 0
    &&& forall|m: int| 0 <= m < out.days@.len() ==> (#[trigger] out.days@[m])@.len() == 0
}

/// `out` holds the documents of the year `days`, partitioned by `p`: one
/// digest, of the year view, shared by the weeks and the year documents.
pub open spec fn is_output_of(
    out: GeneratedOutput,
    days: Seq<DailyPrayerTime>,
    p: WeekPartition,
) -> bool {
    &&& out.sha1 matches Some(s) && exists|vs: Seq<DayOutputDto>|
        are_day_views(vs, days) && s@ == year_digest(vs)
    &&& out.weeks matches Some(w) && Some(w.sha1) == out.sha1 && w.weeks@.len() == WEEKS && forall|
        b: int,
    | 0 <= b < WEEKS ==> is_week_view(#[trigger] w.weeks@[b], p.buckets@[b], days)
    &&& out.year matches Some(y) && Some(y.sha1) == out.sha1 && are_day_views(y.year@, days)
    &&& are_month_views(out.months@, days)
    &&& are_day_documents(out.days@, days)
}

impl GeneratedOutput {
    fn empty() -> (r: GeneratedOutput)
        ensures
            is_empty_output(r),
            r.days@.len() == 0,
    {
        GeneratedOutput {
            days: Vec::new(),
            weeks: None,
            year: None,
            months: Vec::new(),
            sha1: None,
        }
    }
}

impl V1Params {
    /// The whole run on what the loader read. Month tables in JSON give no
    /// documents. From CSV tables: the merged year is partitioned into weeks
    /// first, so that every view carries its week id; then the digest of the
    /// year view is computed once, and the day, week, month and year
    /// documents are built. Fails on the first day that does not exist.
    pub fn generate(&self, input: &YearInput) -> (r: Result<GeneratedOutput, PartitionError>)
        requires
            total_rows(input.months@) <= 65535,
        ensures
            ({
                let days = year_records(self.year, input.months@, event_table(input.events@));
                let start = self.week_start_day;
                let hadiths = hadith_map(input.hadiths@);
                &&& self.input_format == InputFormat::Json ==> (r matches Ok(out)
                    && is_empty_output(out))
                &&& self.input_format == InputFormat::Csv ==> {
                    &&& r is Ok <==> forall|i: int|
                        0 <= i < days.len() ==> day_is_valid(#[trigger] days[i])
                    &&& r matches Err(PartitionError::InvalidDate { position }) ==> position
                        < days.len() && !day_is_valid(days[position as int]) && forall|i: int|
                        0 <= i < position ==> day_is_valid(#[trigger] days[i])
                    &&& days.len() == 0 ==> (r matches Ok(out) && is_empty_output(out))
                    &&& days.len() > 0 ==> (r matches Ok(out) ==> exists|
                        p: WeekPartition,
                        filled: Seq<DailyPrayerTime>,
                    |
                        is_partition(p, days, days[0].gregorian_date.year, start, hadiths)
                            && backfilled(filled, days, p.week_ids@) && is_output_of(
                            out,
                            filled,
                            p,
                        ))
                }
            }),
    {
        match self.input_format {
            InputFormat::Json => Ok(GeneratedOutput::empty()),
            InputFormat::Csv => {
                let mut generator = Generator::new(
                    self.year,
                    &input.months,
                    &input.events,
                    &input.hadiths,
                );
                let part = match generator.assign_weeks(self.week_start_day) {
                    Err(e) => {
                        return Err(e);
                    },
                    Ok(part) => part,
                };
                let sha1 = generator.generate_sha1();
                let weeks = match (&part, &sha1) {
                    (Some(p), Some(s)) => {
                        Some(YearWeeksOutputDto { weeks: generator.week_views(p), sha1: s.clone() })
                    },
                    _ => None,
                };
                let year = match &sha1 {
                    Some(s) => generator.year_document(s.clone()),
                    None => None,
                };
                let months = generator.generate_monthly_prayer_times();
                let days = generator.generate_daily_prayer_times();
                let out = GeneratedOutput { days, weeks, year, months, sha1 };
                proof {
                    let filled = generator.yearly_prayer_times@;
                    if filled.len() == 0 {
                        assert forall|m: int| 0 <= m < out.days@.len() implies (
                        #[trigger] out.days@[m])@.len() == 0 by {
                            assert(crate::generator::month_days(filled, m + 1).len() == 0);
                        }
                        assert(is_empty_output(out));
                    } else {
                        let p = part.unwrap();
                        assert(is_output_of(out, filled, p));
                    }
                }
                Ok(out)
            },
        }
    }
}

} // verus!
