use work::clock::{Clock, ClockReading};
use work::error::ErrorKind;
use work::grammar::TimeExpr;
use work::interval::{parse_time_input, Interval, Search};
use work::resolve::{
    resolve, resolve_day_of_month, resolve_month_year, resolve_time_of_day, Day, YearMonth,
};

const MIDNIGHT: i64 = 1_710_460_800;
const NOW: i64 = 1_710_500_000;

/// Friday 15 March 2024, 12:30:45 on the wall.
fn clock() -> Clock {
    clock_at(2024, 3, 15, 12, 30, 45)
}

fn clock_at(year: i32, month: u32, day: u32, hour: u32, minute: u32, second: u32) -> Clock {
    Clock::new(ClockReading { timestamp: NOW, year, month, day, hour, minute, second }).unwrap()
}

fn moment(text: &str, search: Search) -> i64 {
    parse_time_input(text, &search, &clock()).unwrap()
}

#[test]
fn clock_knows_its_midnight() {
    let c = clock();
    assert_eq!(c.midnight(), MIDNIGHT);
    assert_eq!(c.timestamp(), NOW);
    assert_eq!((c.year(), c.month(), c.day()), (2024, 3, 15));
    assert_eq!((c.hour(), c.minute(), c.second()), (12, 30, 45));
    assert_eq!(c.seconds_of_day(), 12 * 3600 + 30 * 60 + 45);
    assert_eq!(c.local_seconds(), MIDNIGHT + 45_045);
    assert_eq!(clock_at(1970, 1, 1, 0, 0, 0).midnight(), 0);
    assert_eq!(clock_at(1969, 12, 31, 0, 0, 0).midnight(), -86_400);
    assert_eq!(clock_at(2000, 2, 29, 0, 0, 0).midnight(), 951_782_400);
}

#[test]
fn clock_refuses_what_is_no_date_or_time() {
    let reading = |year, month, day, hour, minute, second| ClockReading {
        timestamp: 0,
        year,
        month,
        day,
        hour,
        minute,
        second,
    };
    assert!(Clock::new(reading(2024, 2, 30, 0, 0, 0)).is_none());
    assert!(Clock::new(reading(2023, 2, 29, 0, 0, 0)).is_none());
    assert!(Clock::new(reading(2024, 13, 1, 0, 0, 0)).is_none());
    assert!(Clock::new(reading(2024, 0, 1, 0, 0, 0)).is_none());
    assert!(Clock::new(reading(2024, 1, 0, 0, 0, 0)).is_none());
    assert!(Clock::new(reading(2024, 1, 1, 24, 0, 0)).is_none());
    assert!(Clock::new(reading(2024, 1, 1, 0, 60, 0)).is_none());
    assert!(Clock::new(reading(2024, 1, 1, 0, 0, 60)).is_none());
    assert!(Clock::new(reading(i32::MAX, 1, 1, 0, 0, 0)).is_none());
    assert!(Clock::new(reading(i32::MIN, 1, 1, 0, 0, 0)).is_none());
    assert!(Clock::new(reading(400_000, 1, 1, 0, 0, 0)).is_none());
    assert!(Clock::new(reading(2024, 2, 29, 23, 59, 59)).is_some());
}

#[test]
fn clock_tells_the_moment_and_the_midnight() {
    let c = clock();
    assert_eq!(work::time::now(&c), NOW);
    assert_eq!(work::time::today_date_time(&c), MIDNIGHT);
}

#[test]
fn time_of_day_backward_is_yesterday_when_still_to_come() {
    assert_eq!(resolve_time_of_day(100, 50, Search::Backward), Day::Yesterday);
    assert_eq!(resolve_time_of_day(50, 50, Search::Backward), Day::Today);
    assert_eq!(resolve_time_of_day(10, 50, Search::Backward), Day::Today);
}

#[test]
fn time_of_day_forward_is_tomorrow_when_not_to_come() {
    assert_eq!(resolve_time_of_day(100, 50, Search::Forward), Day::Today);
    assert_eq!(resolve_time_of_day(50, 50, Search::Forward), Day::Tomorrow);
    assert_eq!(resolve_time_of_day(10, 50, Search::Forward), Day::Tomorrow);
}

#[test]
fn day_of_month_picks_the_month() {
    let c = clock();
    assert_eq!(
        resolve_day_of_month(20, &c, Search::Backward),
        YearMonth { year: 2024, month: 2 }
    );
    assert_eq!(resolve_day_of_month(20, &c, Search::Forward), YearMonth { year: 2024, month: 3 });
    assert_eq!(
        resolve_day_of_month(10, &c, Search::Backward),
        YearMonth { year: 2024, month: 3 }
    );
    assert_eq!(resolve_day_of_month(10, &c, Search::Forward), YearMonth { year: 2024, month: 4 });
    assert_eq!(
        resolve_day_of_month(15, &c, Search::Backward),
        YearMonth { year: 2024, month: 3 }
    );
    assert_eq!(resolve_day_of_month(15, &c, Search::Forward), YearMonth { year: 2024, month: 3 });
}

#[test]
fn day_of_month_crosses_the_year() {
    let january = clock_at(2024, 1, 5, 8, 0, 0);
    assert_eq!(
        resolve_day_of_month(31, &january, Search::Backward),
        YearMonth { year: 2023, month: 12 }
    );
    let december = clock_at(2024, 12, 31, 8, 0, 0);
    assert_eq!(
        resolve_day_of_month(1, &december, Search::Forward),
        YearMonth { year: 2025, month: 1 }
    );
}

#[test]
fn month_picks_the_year() {
    let c = clock();
    assert_eq!(resolve_month_year(12, &c, Search::Backward), 2023);
    assert_eq!(resolve_month_year(12, &c, Search::Forward), 2025);
    assert_eq!(resolve_month_year(3, &c, Search::Backward), 2024);
    assert_eq!(resolve_month_year(3, &c, Search::Forward), 2024);
    assert_eq!(resolve_month_year(1, &c, Search::Backward), 2024);
    assert_eq!(resolve_month_year(1, &c, Search::Forward), 2024);
}

#[test]
fn hour_alone() {
    assert_eq!(moment("9", Search::Backward), MIDNIGHT + 9 * 3600);
    assert_eq!(moment("12", Search::Backward), MIDNIGHT + 12 * 3600);
    assert_eq!(moment("13", Search::Backward), MIDNIGHT - 86_400 + 13 * 3600);
    assert_eq!(moment("9", Search::Forward), MIDNIGHT + 86_400 + 9 * 3600);
    assert_eq!(moment("13", Search::Forward), MIDNIGHT + 13 * 3600);
}

#[test]
fn hour_and_minutes() {
    assert_eq!(moment("12:30", Search::Backward), MIDNIGHT + 12 * 3600 + 30 * 60);
    assert_eq!(moment("12:31", Search::Backward), MIDNIGHT - 86_400 + 12 * 3600 + 31 * 60);
    assert_eq!(moment("12:30", Search::Forward), MIDNIGHT + 86_400 + 12 * 3600 + 30 * 60);
    assert_eq!(moment("12:31", Search::Forward), MIDNIGHT + 12 * 3600 + 31 * 60);
    assert_eq!(moment("0:0", Search::Backward), MIDNIGHT);
}

#[test]
fn day_hour_and_minutes() {
    assert_eq!(moment("20 10:00", Search::Backward), 1_708_387_200 + 10 * 3600);
    assert_eq!(moment("20 10:00", Search::Forward), 1_710_892_800 + 10 * 3600);
    assert_eq!(moment("10 10:00", Search::Backward), 1_710_028_800 + 10 * 3600);
    assert_eq!(moment("10 10:00", Search::Forward), 1_712_707_200 + 10 * 3600);
}

#[test]
fn the_present_day_falls_back_on_the_time_of_day() {
    assert_eq!(moment("15 10:00", Search::Backward), MIDNIGHT + 10 * 3600);
    assert_eq!(moment("15 13:00", Search::Backward), MIDNIGHT - 86_400 + 13 * 3600);
    assert_eq!(moment("15 10:00", Search::Forward), MIDNIGHT + 86_400 + 10 * 3600);
    assert_eq!(moment("15 13:00", Search::Forward), MIDNIGHT + 13 * 3600);
    assert_eq!(moment("15-3 10:00", Search::Backward), MIDNIGHT + 10 * 3600);
    assert_eq!(moment("15-03 13:00", Search::Backward), MIDNIGHT - 86_400 + 13 * 3600);
    assert_eq!(moment("15-3 13:00", Search::Forward), MIDNIGHT + 13 * 3600);
}

#[test]
fn day_month_hour_and_minutes() {
    assert_eq!(moment("25-12 8:05", Search::Backward), 1_703_462_400 + 8 * 3600 + 5 * 60);
    assert_eq!(moment("25-12 8:05", Search::Forward), 1_766_620_800 + 8 * 3600 + 5 * 60);
    assert_eq!(moment("5-1 8:05", Search::Backward), 1_704_412_800 + 8 * 3600 + 5 * 60);
    assert_eq!(moment("5-1 8:05", Search::Forward), 1_704_412_800 + 8 * 3600 + 5 * 60);
    assert_eq!(moment("29-2 0:00", Search::Backward), 1_709_164_800);
}

#[test]
fn a_day_that_the_month_does_not_have_is_refused() {
    let c = clock();
    for text in ["30 10:00", "31 10:00"] {
        let e = parse_time_input(text, &Search::Backward, &c).unwrap_err();
        match e.kind() {
            ErrorKind::User(message) => {
                assert_eq!(message, &format!("Invalid time specifier: {}", text))
            }
            _ => panic!("a user error was expected"),
        }
    }
    assert_eq!(moment("29 10:00", Search::Backward), 1_709_164_800 + 10 * 3600);
    assert!(parse_time_input("31-4 10:00", &Search::Backward, &c).is_err());
    assert!(parse_time_input("30-2 10:00", &Search::Forward, &c).is_err());
    assert!(parse_time_input("31 10:00", &Search::Forward, &c).is_ok());
}

#[test]
fn hours_and_minutes_from_now() {
    let local = MIDNIGHT + 45_045;
    assert_eq!(moment("2h", Search::Backward), local - 7200);
    assert_eq!(moment("2h", Search::Forward), local + 7200);
    assert_eq!(moment("23h", Search::Backward), local - 23 * 3600);
    assert_eq!(moment("45m", Search::Backward), local - 45 * 60);
    assert_eq!(moment("45m", Search::Forward), local + 45 * 60);
    assert_eq!(moment("1:30h", Search::Backward), local - 5400);
    assert_eq!(moment("1:30h", Search::Forward), local + 5400);
    assert_eq!(moment("0:0h", Search::Forward), local);
}

#[test]
fn today_and_yesterday_ignore_the_direction() {
    assert_eq!(moment("today", Search::Backward), MIDNIGHT);
    assert_eq!(moment("today", Search::Forward), MIDNIGHT);
    assert_eq!(moment("yesterday", Search::Backward), MIDNIGHT - 86_400);
    assert_eq!(moment("yesterday", Search::Forward), MIDNIGHT - 86_400);
    let c = clock();
    for search in [Search::Backward, Search::Forward] {
        assert_eq!(
            Interval::try_parse("today", &search, &c).unwrap(),
            Interval { start: MIDNIGHT, end: NOW }
        );
        assert_eq!(
            Interval::try_parse("yesterday", &search, &c).unwrap(),
            Interval { start: MIDNIGHT - 86_400, end: NOW }
        );
    }
}

#[test]
fn resolve_takes_an_expression() {
    let c = clock();
    assert_eq!(resolve(&TimeExpr::Today, &c, Search::Forward), Some(MIDNIGHT));
    assert_eq!(
        resolve(&TimeExpr::AtDayHourMinutes { day: 31, hour: 1, minute: 2 }, &c, Search::Backward),
        None
    );
    assert_eq!(
        resolve(&TimeExpr::AtHour { hour: 23 }, &c, Search::Backward),
        Some(MIDNIGHT - 3600)
    );
}
