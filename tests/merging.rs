use prayer_times::domain::DailyPrayerTime;
use prayer_times::domain::Event;
use prayer_times::domain::GregorianDate;
use prayer_times::domain::PrayerTimes;
use prayer_times::dtos::Day;
use prayer_times::dtos::DayIndex;
use prayer_times::input_dtos::DayInputDto;
use prayer_times::input_dtos::EventInputDto;
use prayer_times::input_dtos::WeeklyHadithInputDto;
use prayer_times::merge::find_event;
use prayer_times::merge::make_event_key;
use prayer_times::merge::make_events;
use prayer_times::merge::make_weekly_hadiths;
use prayer_times::merge::make_yearly_prayer_times;

fn row(day: u16, hijri: &str) -> DayInputDto {
    DayInputDto {
        day,
        hijri: hijri.to_string(),
        fajr: format!("05:{:02}", day % 60),
        sunrise: "06:30".to_string(),
        dhuhr: "12:10".to_string(),
        asr: "15:20".to_string(),
        maghrib: "17:45".to_string(),
        ishaa: "19:05".to_string(),
    }
}

fn event(date: &str, ar: &str, en: Option<&str>) -> EventInputDto {
    EventInputDto { date: date.to_string(), ar: ar.to_string(), en: en.map(|s| s.to_string()) }
}

#[test]
fn global_index_runs_from_one_without_gaps() {
    let mut months: Vec<Vec<DayInputDto>> = (0..12).map(|_| Vec::new()).collect();
    months[0] = vec![row(1, "19/6/1445"), row(2, "20/6/1445")];
    months[2] = vec![row(5, "23/8/1445"), row(3, "21/8/1445"), row(4, "22/8/1445")];
    months[11] = vec![row(31, "29/6/1446")];
    let days = make_yearly_prayer_times(2024, &months, &Vec::new());
    assert_eq!(days.len(), 6);
    let idx: Vec<u16> = days.iter().map(|d| d.gregorian_date.index).collect();
    assert_eq!(idx, vec![1, 2, 3, 4, 5, 6]);
    let md: Vec<(u8, u16)> =
        days.iter().map(|d| (d.gregorian_date.month, d.gregorian_date.day)).collect();
    assert_eq!(md, vec![(1, 1), (1, 2), (3, 5), (3, 3), (3, 4), (12, 31)]);
    assert!(days.iter().all(|d| d.week_id.is_none() && d.gregorian_date.year == 2024));
    assert_eq!(days[2].hijri_date, "23/8/1445");
    assert_eq!(days[0].prayer_times.fajr, "05:01");
}

#[test]
fn no_months_give_no_days() {
    let days = make_yearly_prayer_times(2024, &Vec::new(), &Vec::new());
    assert!(days.is_empty());
}

#[test]
fn event_attached_by_exact_key() {
    let mut months: Vec<Vec<DayInputDto>> = (0..12).map(|_| Vec::new()).collect();
    months[2] = vec![row(7, "26/8/1445"), row(8, "27/8/1445")];
    let events = make_events(&vec![
        event("7/3", "Laylat al-Qadr", None),
        event("08/3", "padded", None),
    ]);
    let days = make_yearly_prayer_times(2024, &months, &events);
    assert_eq!(days[0].event, Some(Event { ar: "Laylat al-Qadr".to_string(), en: None }));
    assert_eq!(days[1].event, None);
}

#[test]
fn later_event_row_wins() {
    let events = make_events(&vec![
        event("1/1", "first", Some("one")),
        event("2/1", "other", None),
        event("1/1", "second", None),
    ]);
    assert_eq!(events.len(), 3);
    let key = make_event_key(1, 1);
    assert_eq!(key, "1/1");
    assert_eq!(find_event(&events, &key), Some(Event { ar: "second".to_string(), en: None }));
    assert_eq!(find_event(&events, &"3/1".to_string()), None);
    assert_eq!(make_event_key(31, 12), "31/12");
}

#[test]
fn later_hadith_row_wins() {
    let rows = vec![
        WeeklyHadithInputDto { week: 1, hadith: "a".to_string(), note: None },
        WeeklyHadithInputDto { week: 2, hadith: "b".to_string(), note: Some("n".to_string()) },
        WeeklyHadithInputDto { week: 1, hadith: "c".to_string(), note: None },
    ];
    let map = make_weekly_hadiths(&rows);
    assert_eq!(map.len(), 2);
    assert_eq!(map[&1].hadith, "c");
    assert_eq!(map[&2].note, Some("n".to_string()));
}

#[test]
fn input_row_from_day() {
    let d = DailyPrayerTime {
        gregorian_date: GregorianDate { index: 1, day: 9, month: 4, year: 2024 },
        hijri_date: "30/9/1445".to_string(),
        prayer_times: PrayerTimes {
            fajr: "a".to_string(),
            sunrise: "b".to_string(),
            dhuhr: "c".to_string(),
            asr: "d".to_string(),
            maghrib: "e".to_string(),
            ishaa: "f".to_string(),
        },
        week_id: Some(202415),
        event: None,
    };
    let r: DayInputDto = d.into();
    assert_eq!(r.day, 9);
    assert_eq!(r.hijri, "30/9/1445");
    assert_eq!((r.fajr.as_str(), r.ishaa.as_str()), ("a", "f"));
}

#[test]
fn day_index_from_day() {
    let day = Day {
        day: 3,
        hijri: "h".to_string(),
        fajer: "1".to_string(),
        sunrise: "2".to_string(),
        dhuhr: "3".to_string(),
        asr: "4".to_string(),
        maghrib: "5".to_string(),
        ishaa: "6".to_string(),
    };
    let idx: DayIndex = day.into();
    assert_eq!(idx.hijri, "h");
    assert_eq!(idx.prayer_times.fajer, "1");
    assert_eq!(idx.prayer_times.ishaa, "6");
}

#[test]
fn dates_order_by_position_alone() {
    let a = GregorianDate { index: 3, day: 31, month: 12, year: 2024 };
    let b = GregorianDate { index: 4, day: 1, month: 1, year: 2024 };
    let c = GregorianDate { index: 3, day: 1, month: 1, year: 2024 };
    assert!(a < b);
    assert_eq!(a.partial_cmp(&c), Some(std::cmp::Ordering::Equal));
    let mut months: Vec<Vec<DayInputDto>> = (0..12).map(|_| Vec::new()).collect();
    months[0] = vec![row(2, "x"), row(1, "y")];
    let days = make_yearly_prayer_times(2024, &months, &Vec::new());
    assert!(days[0] < days[1]);
    assert_eq!(days[1].partial_cmp(&days[0]), Some(std::cmp::Ordering::Greater));
}
