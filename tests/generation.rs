use prayer_times::calendar::resolve_weekday;
use prayer_times::calendar::WeekDay;
use prayer_times::digest::days_json_text;
use prayer_times::digest::digest_views;
use prayer_times::generator::Generator;
use prayer_times::input_dtos::DayInputDto;
use prayer_times::input_dtos::EventInputDto;
use prayer_times::input_dtos::WeeklyHadithInputDto;
use prayer_times::merge::make_yearly_prayer_times;
use prayer_times::output_dtos::day_views;
use prayer_times::output_dtos::DayOutputDto;
use prayer_times::params::InputFormat;
use prayer_times::params::V1Params;
use prayer_times::params::YearInput;
use prayer_times::week::partition_weeks;
use prayer_times::week::PartitionError;
use sha1::Digest;
use std::collections::HashMap;

fn row(day: u16, hijri: &str) -> DayInputDto {
    DayInputDto {
        day,
        hijri: hijri.to_string(),
        fajr: format!("05:{:02}", day % 60),
        sunrise: "06:30".to_string(),
        dhuhr: "12:10".to_string(),
        asr: "15:20".to_string(),
        maghrib: "17:45".to_string(),
        ishaa: "19:05".to_string(),
    }
}

fn empty_months() -> Vec<Vec<DayInputDto>> {
    (0..12).map(|_| Vec::new()).collect()
}

fn full_year(year: u16) -> Vec<Vec<DayInputDto>> {
    let leap = year % 4 == 0 && (year % 100 != 0 || year % 400 == 0);
    let lengths = [31, if leap { 29 } else { 28 }, 31, 30, 31, 30, 31, 31, 30, 31, 30, 31];
    lengths.iter().map(|&n| (1..=n).map(|d| row(d, "1/1/1445")).collect()).collect()
}

fn params(format: InputFormat, start: WeekDay) -> V1Params {
    V1Params {
        year: 2024,
        year_dir: "in".to_string(),
        output_dir_path: "out".to_string(),
        input_format: format,
        week_start_day: start,
    }
}

fn sha1_hex(text: &str) -> String {
    let mut h = sha1::Sha1::new();
    h.update(text.as_bytes());
    format!("{:x}", h.finalize())
}

#[test]
fn first_week_of_2024_starting_saturday() {
    let mut months = empty_months();
    months[0] = vec![row(1, "19/6/1445"), row(2, "20/6/1445")];
    let mut g = Generator::new(2024, &months, &Vec::new(), &Vec::new());
    let doc = g.generate_weekly_prayer_times(WeekDay::Sat).unwrap().unwrap();
    assert_eq!(doc.weeks.len(), 53);
    let w = &doc.weeks[0];
    assert_eq!(w.id, 202401);
    assert_eq!(w.mon.as_ref().unwrap().id, 20240101);
    assert_eq!(w.tue.as_ref().unwrap().id, 20240102);
    assert!(w.wed.is_none() && w.thu.is_none() && w.fri.is_none());
    assert!(w.sat.is_none() && w.sun.is_none() && w.hadith.is_none());
    assert_eq!(w.mon.as_ref().unwrap().week_id, Some(202401));
    for (b, week) in doc.weeks.iter().enumerate().skip(1) {
        assert_eq!(week.id, 202401 + b as u64);
        assert!(week.mon.is_none() && week.tue.is_none() && week.sun.is_none());
    }
    assert_eq!(g.yearly_prayer_times[0].week_id, Some(202401));
    assert_eq!(g.yearly_prayer_times[1].week_id, Some(202401));
    assert_eq!(doc.sha1, g.make_sha1());
}

#[test]
fn week_closes_on_the_day_before_the_start() {
    let mut months = empty_months();
    months[0] = (1..=9).map(|d| row(d, "x")).collect();
    let days = make_yearly_prayer_times(2024, &months, &Vec::new());
    let p = partition_weeks(&days, 2024, WeekDay::Sat, &HashMap::new()).unwrap();
    // 2024-01-05 is a Friday: the first week holds Monday to Friday.
    assert_eq!(p.buckets[0].slots, vec![Some(0), Some(1), Some(2), Some(3), Some(4), None, None]);
    assert_eq!(
        p.buckets[1].slots,
        vec![Some(7), Some(8), None, None, None, Some(5), Some(6)]
    );
    let ids: Vec<Option<u64>> = p.week_ids.clone();
    assert_eq!(ids[4], Some(202401));
    assert_eq!(ids[5], Some(202402));
}

#[test]
fn weekday_slot_does_not_depend_on_week_start() {
    let days = make_yearly_prayer_times(2024, &full_year(2024), &Vec::new());
    let starts = [WeekDay::Sat, WeekDay::Mon, WeekDay::Sun, WeekDay::Wed];
    for start in starts {
        let p = partition_weeks(&days, 2024, start, &HashMap::new()).unwrap();
        for b in &p.buckets {
            for (x, slot) in b.slots.iter().enumerate() {
                if let Some(i) = slot {
                    let d = days[*i].gregorian_date;
                    let w = resolve_weekday(d.year, d.month, d.day).unwrap();
                    assert_eq!(w.slot(), x);
                }
            }
        }
    }
}

#[test]
fn always_fifty_three_buckets_of_distinct_weekdays() {
    let days = make_yearly_prayer_times(2024, &full_year(2024), &Vec::new());
    let p = partition_weeks(&days, 2024, WeekDay::Sat, &HashMap::new()).unwrap();
    assert_eq!(p.buckets.len(), 53);
    let placed: usize =
        p.buckets.iter().map(|b| b.slots.iter().filter(|s| s.is_some()).count()).sum();
    assert_eq!(placed, 366);
    let empty = partition_weeks(&Vec::new(), 2024, WeekDay::Sat, &HashMap::new()).unwrap();
    assert_eq!(empty.buckets.len(), 53);
    assert!(empty.buckets.iter().all(|b| b.slots.iter().all(|s| s.is_none())));
    assert_eq!(empty.buckets[52].id, 202453);
}

#[test]
fn days_past_week_fifty_three_get_no_week() {
    let days = make_yearly_prayer_times(2016, &full_year(2016), &Vec::new());
    let p = partition_weeks(&days, 2016, WeekDay::Sat, &HashMap::new()).unwrap();
    assert_eq!(p.week_ids[0], Some(201601));
    assert_eq!(p.week_ids[364], Some(201653));
    assert_eq!(p.week_ids[365], None);
    assert!(p.buckets.iter().all(|b| !b.slots.contains(&Some(365))));
}

#[test]
fn hadith_attached_by_week_number() {
    let mut months = empty_months();
    months[0] = vec![row(1, "x")];
    let hadiths = vec![
        WeeklyHadithInputDto { week: 2, hadith: "h2".to_string(), note: Some("n".to_string()) },
        WeeklyHadithInputDto { week: 54, hadith: "h54".to_string(), note: None },
    ];
    let mut g = Generator::new(2024, &months, &Vec::new(), &hadiths);
    let doc = g.generate_weekly_prayer_times(WeekDay::Sat).unwrap().unwrap();
    assert!(doc.weeks[0].hadith.is_none());
    let h = doc.weeks[1].hadith.as_ref().unwrap();
    assert_eq!((h.hadith.as_str(), h.note.as_deref()), ("h2", Some("n")));
    assert!(doc.weeks[52].hadith.is_none());
}

#[test]
fn invalid_date_is_reported() {
    let mut months = empty_months();
    months[1] = vec![row(28, "x"), row(29, "x"), row(30, "x")];
    let days = make_yearly_prayer_times(2023, &months, &Vec::new());
    let r = partition_weeks(&days, 2023, WeekDay::Sat, &HashMap::new());
    assert_eq!(r.err(), Some(PartitionError::InvalidDate { position: 1 }));
    let mut g = Generator::new(2023, &months, &Vec::new(), &Vec::new());
    assert!(g.generate_weekly_prayer_times(WeekDay::Sat).is_err());
    assert!(g.yearly_prayer_times.iter().all(|d| d.week_id.is_none()));
}

#[test]
fn event_view_without_secondary_text() {
    let mut months = empty_months();
    months[2] = vec![row(7, "26/8/1445")];
    let events = vec![EventInputDto {
        date: "7/3".to_string(),
        ar: "Laylat al-Qadr".to_string(),
        en: None,
    }];
    let g = Generator::new(2024, &months, &events, &Vec::new());
    let views = day_views(&g.yearly_prayer_times);
    let e = views[0].event.as_ref().unwrap();
    assert_eq!(e.ar, "Laylat al-Qadr");
    assert_eq!(e.en, None);
    let text = days_json_text(&views);
    let expected = "[{\"id\":20240307,\"gregorian\":\"07/03/2024\",\"hijri\":\"26/08/1445\",\
        \"prayerTimes\":{\"fajr\":\"05:07\",\"sunrise\":\"06:30\",\"dhuhr\":\"12:10\",\
        \"asr\":\"15:20\",\"maghrib\":\"17:45\",\"ishaa\":\"19:05\"},\
        \"event\":{\"ar\":\"Laylat al-Qadr\"}}]";
    assert_eq!(text, expected);
    assert_eq!(digest_views(&views), sha1_hex(expected));
}

#[test]
fn day_view_fields() {
    let mut months = empty_months();
    months[2] = vec![row(7, "invalid")];
    let events = vec![EventInputDto {
        date: "7/3".to_string(),
        ar: "a".to_string(),
        en: Some("b".to_string()),
    }];
    let days = make_yearly_prayer_times(2024, &months, &prayer_times::merge::make_events(&events));
    let v = DayOutputDto::from(days[0].clone());
    assert_eq!(v.id, 20240307);
    assert_eq!(v.gregorian, "07/03/2024");
    assert_eq!(v.hijri, "invalid");
    assert_eq!(v.prayer_times.fajr, "05:07");
    assert_eq!(v.week_id, None);
    assert_eq!(v.event.as_ref().unwrap().en, Some("b".to_string()));
}

#[test]
fn json_text_escapes_and_week_ids() {
    let mut months = empty_months();
    let mut r = row(1, "a\"b\\c");
    r.ishaa = "\n".to_string();
    months[0] = vec![r, row(2, "2/1/1445")];
    let mut g = Generator::new(2024, &months, &Vec::new(), &Vec::new());
    g.generate_weekly_prayer_times(WeekDay::Sat).unwrap();
    let views = day_views(&g.yearly_prayer_times);
    let text = days_json_text(&views);
    assert!(text.contains("\"hijri\":\"a\\\"b\\\\c\""));
    assert!(text.contains("\"ishaa\":\"\\n\""));
    assert!(text.contains("\"weekId\":202401}"));
    assert!(text.starts_with("[{\"id\":20240101,"));
    assert!(text.contains("},{\"id\":20240102,"));
    assert_eq!(days_json_text(&Vec::new()), "[]");
}

#[test]
fn digest_is_deterministic() {
    let g = Generator::new(2024, &full_year(2024), &Vec::new(), &Vec::new());
    let a = g.make_sha1();
    let b = g.make_sha1();
    assert_eq!(a, b);
    assert_eq!(a.len(), 40);
    let views = day_views(&g.yearly_prayer_times);
    assert_eq!(digest_views(&views), a);
    assert_eq!(a, sha1_hex(&days_json_text(&views)));
}

#[test]
fn digest_changes_with_one_prayer_time() {
    let g = Generator::new(2024, &full_year(2024), &Vec::new(), &Vec::new());
    let views = day_views(&g.yearly_prayer_times);
    let before = digest_views(&views);
    let mut changed = day_views(&g.yearly_prayer_times);
    changed[100].prayer_times.asr = "15:21".to_string();
    assert_ne!(digest_views(&changed), before);
    let mut changed = day_views(&g.yearly_prayer_times);
    changed[0].prayer_times.fajr = "05:02".to_string();
    assert_ne!(digest_views(&changed), before);
}

#[test]
fn run_on_csv_tables_shares_one_digest() {
    let mut months = full_year(2024);
    months[3].truncate(0);
    let input = YearInput { months, events: Vec::new(), hadiths: Vec::new() };
    let out = params(InputFormat::Csv, WeekDay::Sat).generate(&input).unwrap();
    let sha1 = out.sha1.clone().unwrap();
    assert_eq!(out.weeks.as_ref().unwrap().sha1, sha1);
    assert_eq!(out.year.as_ref().unwrap().sha1, sha1);
    let year = &out.year.as_ref().unwrap().year;
    assert_eq!(year.len(), 366 - 30);
    assert!(year.iter().all(|v| v.week_id.is_some()));
    assert_eq!(sha1, digest_views(year));
    assert_eq!(out.months.len(), 12);
    assert_eq!(out.months[0].len(), 31);
    assert_eq!(out.months[3].len(), 0);
    assert_eq!(out.days.len(), 12);
    assert_eq!(out.days[1].len(), 29);
    let d = &out.days[1][28];
    assert_eq!((d.year, d.month, d.day), (2024, 2, 29));
    assert_eq!(d.view.gregorian, "29/02/2024");
    assert_eq!(out.weeks.as_ref().unwrap().weeks.len(), 53);
}

#[test]
fn run_on_json_tables_gives_nothing() {
    let input = YearInput { months: full_year(2024), events: Vec::new(), hadiths: Vec::new() };
    let out = params(InputFormat::Json, WeekDay::Sat).generate(&input).unwrap();
    assert!(out.sha1.is_none() && out.weeks.is_none() && out.year.is_none());
    assert!(out.months.is_empty() && out.days.is_empty());
}

#[test]
fn run_without_rows_gives_no_documents() {
    let input = YearInput { months: Vec::new(), events: Vec::new(), hadiths: Vec::new() };
    let out = params(InputFormat::Csv, WeekDay::Sat).generate(&input).unwrap();
    assert!(out.sha1.is_none() && out.weeks.is_none() && out.year.is_none());
    assert!(out.months.is_empty());
    assert!(out.days.iter().all(|m| m.is_empty()));
}

#[test]
fn run_stops_on_invalid_date() {
    let mut months = empty_months();
    months[3] = vec![row(30, "x"), row(31, "x")];
    let input = YearInput { months, events: Vec::new(), hadiths: Vec::new() };
    let r = params(InputFormat::Csv, WeekDay::Sat).generate(&input);
    assert_eq!(r.err(), Some(PartitionError::InvalidDate { position: 1 }));
}

#[test]
fn monthly_and_daily_documents() {
    let mut months = empty_months();
    months[0] = vec![row(2, "x"), row(1, "y")];
    months[4] = vec![row(9, "z")];
    let g = Generator::new(2024, &months, &Vec::new(), &Vec::new());
    let monthly = g.generate_monthly_prayer_times();
    assert_eq!(monthly.len(), 12);
    assert_eq!(monthly[0].iter().map(|v| v.id).collect::<Vec<_>>(), vec![20240102, 20240101]);
    assert_eq!(monthly[4][0].id, 20240509);
    let daily = g.generate_daily_prayer_times();
    assert_eq!(daily[0].len(), 2);
    assert_eq!(daily[0][1].day, 1);
    assert_eq!(daily[4][0].view.hijri, "z");
    assert!(g.generate_sha1().is_some());
    let empty = Generator::new(2024, &Vec::new(), &Vec::new(), &Vec::new());
    assert!(empty.generate_monthly_prayer_times().is_empty());
    assert!(empty.generate_yearly_prayer_times().is_none());
    assert!(empty.generate_sha1().is_none());
}
