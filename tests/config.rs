use mt::config::{config_exists, Config, Meeting, Schedule, Settings};
use mt::error::ScheduleError;
use mt::time::Weekday;
use std::path::PathBuf;

fn slots(v: &[(&str, &str)]) -> Option<Vec<(String, String)>> {
    Some(v.iter().map(|(t, m)| (t.to_string(), m.to_string())).collect())
}

fn meeting(name: &str, url: &str, aliases: &[&str]) -> Meeting {
    Meeting {
        name: name.to_string(),
        url: url.to_string(),
        aliases: Some(aliases.iter().map(|a| a.to_string()).collect()),
        monday: None,
        tuesday: None,
        wednesday: None,
        thursday: None,
        friday: None,
        saturday: None,
        sunday: None,
    }
}

fn config(monday: Option<Vec<(String, String)>>, meetings: Vec<Meeting>) -> Config {
    Config {
        settings: Settings { time: 5, browser: "firefox".to_string() },
        schedule: Schedule {
            monday,
            tuesday: None,
            wednesday: None,
            thursday: None,
            friday: None,
            saturday: None,
            sunday: None,
        },
        meetings: Some(meetings),
    }
}

fn two_meetings() -> Config {
    config(
        slots(&[("9:00 AM", "standup"), ("2:00 PM", "review")]),
        vec![meeting("standup", "https://s", &["su"]), meeting("review", "https://r", &[])],
    )
}

#[test]
fn config_test_1() {
    let c = Config::default();
    println!("{:?}", c);
    assert_eq!(c.time_threshold(), 5);
    assert_eq!(c.browser(), "firefox");
    assert_eq!(c.check_syntax(), Ok(()));
}

#[test]
fn resolve_picks_latest_started() {
    let c = two_meetings();
    assert_eq!(c.resolve_now(Weekday::Mon, 543, 5), Ok(Some("https://s".to_string())));
    assert_eq!(c.resolve_now(Weekday::Mon, 842, 5), Ok(Some("https://r".to_string())));
    assert_eq!(c.resolve_now(Weekday::Mon, 835, 5), Ok(Some("https://r".to_string())));
    assert_eq!(c.resolve_now(Weekday::Mon, 834, 5), Ok(Some("https://s".to_string())));
    assert_eq!(c.resolve_now(Weekday::Mon, 550, 5), Ok(Some("https://s".to_string())));
}

#[test]
fn resolve_before_first_slot_selects_nothing() {
    let c = two_meetings();
    assert_eq!(c.resolve_now(Weekday::Mon, 500, 5), Ok(None));
    assert_eq!(c.resolve_now(Weekday::Mon, 535, 5), Ok(Some("https://s".to_string())));
}

#[test]
fn empty_day_selects_nothing() {
    let c = two_meetings();
    assert_eq!(c.resolve_now(Weekday::Tue, 600, 5), Ok(None));
    let d = config(Some(vec![]), vec![]);
    assert_eq!(d.resolve_now(Weekday::Mon, 600, 5), Ok(None));
}

#[test]
fn equal_start_later_slot_wins() {
    let c = config(
        slots(&[("9 AM", "standup"), ("9:00 AM", "review")]),
        vec![meeting("standup", "https://s", &[]), meeting("review", "https://r", &[])],
    );
    assert_eq!(c.resolve_now(Weekday::Mon, 540, 0), Ok(Some("https://r".to_string())));
}

#[test]
fn resolve_reports_dangling_and_unparsable() {
    let c = config(slots(&[("9:00 AM", "ghost")]), vec![meeting("standup", "https://s", &[])]);
    assert_eq!(
        c.resolve_now(Weekday::Mon, 600, 5),
        Err(ScheduleError::DanglingReference("ghost".to_string()))
    );
    let d = config(slots(&[("9:00 AM", "standup"), ("noon", "standup")]), vec![]);
    assert_eq!(
        d.resolve_now(Weekday::Mon, 600, 5),
        Err(ScheduleError::UnparsableTime("noon".to_string()))
    );
    assert_eq!(d.meetings_today(Weekday::Mon), Err(ScheduleError::UnparsableTime("noon".to_string())));
}

#[test]
fn meetings_today_lists_minutes() {
    let c = two_meetings();
    assert_eq!(
        c.meetings_today(Weekday::Mon),
        Ok(vec![(540, "standup".to_string()), (840, "review".to_string())])
    );
}

#[test]
fn validator_reports_unknown_reference() {
    let c = config(slots(&[("9:00 AM", "standy")]), vec![meeting("standup", "https://s", &[])]);
    assert_eq!(
        c.check_syntax(),
        Err(ScheduleError::UnknownMeetingReference(Weekday::Mon, "standy".to_string()))
    );
}

#[test]
fn validator_reports_duplicate_alias_either_order() {
    let a = config(None, vec![meeting("one", "https://1", &["x"]), meeting("two", "https://2", &["x"])]);
    let b = config(None, vec![meeting("two", "https://2", &["x"]), meeting("one", "https://1", &["x"])]);
    assert_eq!(a.check_syntax(), Err(ScheduleError::DuplicateAlias("x".to_string())));
    assert_eq!(b.check_syntax(), Err(ScheduleError::DuplicateAlias("x".to_string())));
    let c = config(None, vec![meeting("one", "https://1", &[]), meeting("two", "https://2", &["one"])]);
    assert_eq!(c.check_aliases(), Err(ScheduleError::DuplicateAlias("one".to_string())));
}

#[test]
fn validator_reports_bad_time_string() {
    let c = config(slots(&[("9:00 AM", "standup"), ("25:00", "standup")]), vec![meeting("standup", "https://s", &[])]);
    assert_eq!(
        c.check_syntax(),
        Err(ScheduleError::InvalidTimeString(Weekday::Mon, "25:00".to_string()))
    );
    assert_eq!(two_meetings().check_syntax(), Ok(()));
}

#[test]
fn weekday_override() {
    let mut m = meeting("standup", "https://x", &[]);
    m.tuesday = Some("https://y".to_string());
    assert_eq!(m.get_url(&Weekday::Tue), "https://y");
    assert_eq!(m.get_url(&Weekday::Mon), "https://x");
    assert_eq!(m.get_url(&Weekday::Sun), "https://x");
    let c = config(None, vec![m]);
    assert_eq!(c.resolve_alias(&"standup".to_string(), Weekday::Tue), Ok("https://y".to_string()));
    assert_eq!(c.resolve_alias(&"standup".to_string(), Weekday::Wed), Ok("https://x".to_string()));
}

#[test]
fn resolve_by_alias() {
    let c = two_meetings();
    assert_eq!(c.resolve_alias(&"su".to_string(), Weekday::Mon), Ok("https://s".to_string()));
    assert_eq!(
        c.resolve_alias(&"SU".to_string(), Weekday::Mon),
        Err(ScheduleError::UnknownAlias("SU".to_string()))
    );
}

#[test]
fn alias_table_lists_every_key() {
    let c = two_meetings();
    assert_eq!(
        c.aliases_to_hashmap(Weekday::Mon),
        vec![
            ("standup".to_string(), "https://s".to_string()),
            ("su".to_string(), "https://s".to_string()),
            ("review".to_string(), "https://r".to_string()),
        ]
    );
}

#[test]
fn default_has_sample_meeting() {
    let c = Config::default();
    let ms = c.meetings().as_ref().unwrap();
    assert_eq!(ms.len(), 1);
    assert_eq!(ms[0].name, "sample");
    assert_eq!(c.resolve_alias(&"sp".to_string(), Weekday::Fri), Ok("https://www.youtube.com/watch?v=dQw4w9WgXcQ".to_string()));
    assert_eq!(c.schedule().monday, Some(vec![]));
}

#[test]
fn current_resolution_runs() {
    let c = config(None, vec![]);
    assert_eq!(c.resolve_current(), Ok(None));
}

#[test]
fn missing_config_file() {
    assert!(!config_exists(&PathBuf::from("/nonexistent/mt/config_v2.toml")));
}
