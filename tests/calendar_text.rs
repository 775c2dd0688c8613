use prayer_times::calendar::resolve_weekday;
use prayer_times::calendar::WeekDay;
use prayer_times::domain::GregorianDate;
use prayer_times::text::date_id_of;
use prayer_times::text::parse_u16_range;
use prayer_times::text::push_decimal;
use prayer_times::text::push_padded2;
use prayer_times::text::reformat_hijri;

#[test]
fn weekday_of_known_dates() {
    assert_eq!(resolve_weekday(2024, 1, 1), Some(WeekDay::Mon));
    assert_eq!(resolve_weekday(2024, 1, 2), Some(WeekDay::Tue));
    assert_eq!(resolve_weekday(2024, 2, 29), Some(WeekDay::Thu));
    assert_eq!(resolve_weekday(2000, 1, 1), Some(WeekDay::Sat));
    assert_eq!(resolve_weekday(1, 1, 1), Some(WeekDay::Mon));
    assert_eq!(resolve_weekday(2016, 1, 1), Some(WeekDay::Fri));
    assert_eq!(resolve_weekday(65535, 12, 31), Some(WeekDay::Tue));
}

#[test]
fn weekday_of_missing_dates() {
    assert_eq!(resolve_weekday(2023, 2, 29), None);
    assert_eq!(resolve_weekday(1900, 2, 29), None);
    assert_eq!(resolve_weekday(2024, 4, 31), None);
    assert_eq!(resolve_weekday(2024, 13, 1), None);
    assert_eq!(resolve_weekday(2024, 0, 1), None);
    assert_eq!(resolve_weekday(2024, 1, 0), None);
    assert_eq!(resolve_weekday(2000, 2, 29), Some(WeekDay::Tue));
}

#[test]
fn previous_day_closes_the_week() {
    assert_eq!(WeekDay::Sat.previous(), WeekDay::Fri);
    assert_eq!(WeekDay::Sun.previous(), WeekDay::Sat);
    assert_eq!(WeekDay::Mon.previous(), WeekDay::Sun);
    assert_eq!(WeekDay::Mon.slot(), 0);
    assert_eq!(WeekDay::Sun.slot(), 6);
}

#[test]
fn hijri_of_three_numbers_is_padded() {
    assert_eq!(reformat_hijri(&"3/9/1445".to_string()), "03/09/1445");
    assert_eq!(reformat_hijri(&"12/10/1445".to_string()), "12/10/1445");
    assert_eq!(reformat_hijri(&"+3/009/01445".to_string()), "03/09/1445");
}

#[test]
fn hijri_of_other_text_is_kept() {
    assert_eq!(reformat_hijri(&"invalid".to_string()), "invalid");
    assert_eq!(reformat_hijri(&"3/9".to_string()), "3/9");
    assert_eq!(reformat_hijri(&"3/9/1445/2".to_string()), "3/9/1445/2");
    assert_eq!(reformat_hijri(&"70000/9/1445".to_string()), "70000/9/1445");
    assert_eq!(reformat_hijri(&"3//1445".to_string()), "3//1445");
    assert_eq!(reformat_hijri(&"-3/9/1445".to_string()), "-3/9/1445");
    assert_eq!(reformat_hijri(&"".to_string()), "");
}

#[test]
fn parse_follows_u16_from_str() {
    let s = "x+65535y65536z+";
    assert_eq!(parse_u16_range(s, 1, 7), Some(65535));
    assert_eq!(parse_u16_range(s, 8, 13), None);
    assert_eq!(parse_u16_range(s, 14, 15), None);
    assert_eq!(parse_u16_range(s, 1, 1), None);
    assert_eq!(parse_u16_range("0007", 0, 4), Some(7));
}

#[test]
fn date_id_is_year_month_day() {
    assert_eq!(date_id_of(2024, 3, 7), 20240307);
    assert_eq!(date_id_of(2024, 12, 31), 20241231);
    assert_eq!(date_id_of(5, 1, 1), 50101);
    assert_eq!(date_id_of(2024, 1, 100), 202401100);
    assert_eq!(date_id_of(65535, 255, 65535), 6553525565535);
}

#[test]
fn decimal_text() {
    let mut s = String::new();
    push_decimal(&mut s, 0);
    push_decimal(&mut s, 1445);
    push_padded2(&mut s, 7);
    push_padded2(&mut s, 12);
    push_padded2(&mut s, 123);
    push_decimal(&mut s, u64::MAX);
    assert_eq!(s, "014450712123".to_string() + &u64::MAX.to_string());
}

#[test]
fn gregorian_date_text() {
    let d = GregorianDate { index: 67, day: 7, month: 3, year: 2024 };
    assert_eq!(d.to_string(), "2024/3/7");
}
