use mt::error::ScheduleError;
use mt::time::{Time, AMPM};

fn minutes(s: &str) -> u32 {
    Time::from(String::from(s)).unwrap().to_int()
}

#[test]
fn time_test_1() {
    assert_eq!(
        Time::from(String::from("9 : 30 AM")).unwrap().to_int(),
        Time { hour: 9, minute: 30, ampm: AMPM::AM }.to_int()
    );
}

#[test]
fn test_2() {
    assert_eq!(
        Time::from(String::from("11:15 AM")).unwrap().to_int(),
        Time { hour: 11, minute: 15, ampm: AMPM::AM }.to_int()
    );
}

#[test]
fn test_3() {
    assert_eq!(
        Time::from(String::from(" 12 PM ")).unwrap().to_int(),
        Time { hour: 12, minute: 0, ampm: AMPM::PM }.to_int()
    );
}

#[test]
fn minute_of_day_values() {
    assert_eq!(minutes("9:30 AM"), 570);
    assert_eq!(minutes("11:15 AM"), 675);
    assert_eq!(minutes("12 PM"), 720);
    assert_eq!(minutes("12 AM"), 0);
    assert_eq!(minutes("0 AM"), 0);
    assert_eq!(minutes("11:59 PM"), 1439);
    assert_eq!(minutes("2:00 PM"), 840);
}

#[test]
fn twelve_and_zero_meet() {
    assert_eq!(minutes("12:45 PM"), minutes("0:45 PM"));
    assert_ne!(minutes("12:45 PM"), minutes("12:45 AM"));
}

#[test]
fn whitespace_is_ignored() {
    assert_eq!(Time::from(String::from(" 12 PM ")), Time::from(String::from("12PM")));
    assert_eq!(
        Time::from(String::from("\t1 0 : 0 5\nPM")),
        Ok(Time { hour: 10, minute: 5, ampm: AMPM::PM })
    );
}

#[test]
fn hour_only_form_has_minute_zero() {
    assert_eq!(Time::from(String::from("9 AM")), Ok(Time { hour: 9, minute: 0, ampm: AMPM::AM }));
    assert_eq!(Time::from(String::from("12PM")), Ok(Time { hour: 12, minute: 0, ampm: AMPM::PM }));
    assert_eq!(
        Time::from(String::from("10:05PM")),
        Ok(Time { hour: 10, minute: 5, ampm: AMPM::PM })
    );
}

#[test]
fn bad_meridiem_is_unparsable() {
    assert_eq!(
        Time::from(String::from("9:30 XM")),
        Err(ScheduleError::UnparsableTime(String::from("9:30 XM")))
    );
    assert!(Time::from(String::from("9:30 am")).is_err());
}

#[test]
fn out_of_range_is_unparsable() {
    assert!(Time::from(String::from("13:00 PM")).is_err());
    assert!(Time::from(String::from("9:60 AM")).is_err());
    assert!(Time::from(String::from("")).is_err());
    assert!(Time::from(String::from("9:30")).is_err());
}

#[test]
fn clock_reads_a_minute_of_the_day() {
    assert!(Time::now() < 1440);
}
