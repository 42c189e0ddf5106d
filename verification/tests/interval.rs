use work::clock::{Clock, ClockReading};
use work::error::ErrorKind;
use work::interval::{Interval, Search};

const MIDNIGHT: i64 = 1_710_460_800;
const NOW: i64 = 1_710_500_000;

fn clock() -> Clock {
    Clock::new(ClockReading {
        timestamp: NOW,
        year: 2024,
        month: 3,
        day: 15,
        hour: 12,
        minute: 30,
        second: 45,
    })
    .unwrap()
}

fn user_message(text: &str, search: Search) -> String {
    match Interval::try_parse(text, &search, &clock()).unwrap_err().kind() {
        ErrorKind::User(message) => message.clone(),
        _ => panic!("a user error was expected"),
    }
}

#[test]
fn new_swaps_a_start_that_is_after_the_end() {
    let interval = Interval::new(100, Some(50), NOW);
    assert!(interval.end > interval.start);
    assert_eq!(interval, Interval { start: 50, end: 100 });

    let interval = Interval::new(0, None, NOW);
    assert!(interval.end > 0);
    assert_eq!(interval, Interval { start: 0, end: NOW });

    let interval = Interval::new(NOW + 5, None, NOW);
    assert_eq!(interval, Interval { start: NOW, end: NOW + 5 });
}

#[test]
fn start_is_never_after_end() {
    let moments = [i64::MIN, -5, 0, 1, 7, 200, i64::MAX];
    for a in moments {
        for b in moments {
            let interval = Interval::new(a, Some(b), 3);
            assert!(interval.start <= interval.end);
            assert_eq!(interval, Interval::between(a, b));
            assert_eq!(interval.start, a.min(b));
            assert_eq!(interval.end, a.max(b));
        }
    }
}

#[test]
fn interval_holds_both_its_ends() {
    let interval = Interval::between(50, 250);
    assert!(interval.contains(50));
    assert!(interval.contains(250));
    assert!(interval.contains(100));
    assert!(!interval.contains(49));
    assert!(!interval.contains(251));
}

#[test]
fn one_expression_runs_to_now() {
    let interval = Interval::try_parse("9:15", &Search::Backward, &clock()).unwrap();
    assert_eq!(interval, Interval { start: MIDNIGHT + 9 * 3600 + 15 * 60, end: NOW });
}

#[test]
fn one_expression_after_now_is_swapped() {
    let interval = Interval::try_parse("23h", &Search::Forward, &clock()).unwrap();
    assert_eq!(interval, Interval { start: NOW, end: MIDNIGHT + 45_045 + 23 * 3600 });
}

#[test]
fn two_expressions_name_a_range() {
    let interval = Interval::try_parse("9:00 - 10:30", &Search::Backward, &clock()).unwrap();
    assert_eq!(
        interval,
        Interval { start: MIDNIGHT + 9 * 3600, end: MIDNIGHT + 10 * 3600 + 30 * 60 }
    );
    let interval = Interval::try_parse("yesterday - today", &Search::Backward, &clock());
    assert_eq!(interval.unwrap(), Interval { start: MIDNIGHT - 86_400, end: MIDNIGHT });
    let interval = Interval::try_parse("10 9:00 - 2h", &Search::Backward, &clock()).unwrap();
    assert_eq!(
        interval,
        Interval { start: 1_710_028_800 + 9 * 3600, end: MIDNIGHT + 45_045 - 7200 }
    );
}

#[test]
fn a_range_out_of_order_is_swapped() {
    let interval = Interval::try_parse("10:30 - 9:00", &Search::Backward, &clock()).unwrap();
    assert_eq!(
        interval,
        Interval { start: MIDNIGHT + 9 * 3600, end: MIDNIGHT + 10 * 3600 + 30 * 60 }
    );
}

#[test]
fn any_failure_names_the_whole_text() {
    assert_eq!(user_message("soon", Search::Backward), "Invalid time specifier: soon");
    assert_eq!(
        user_message("9:00 - soon", Search::Backward),
        "Invalid time specifier: 9:00 - soon"
    );
    assert_eq!(
        user_message("soon - 9:00", Search::Backward),
        "Invalid time specifier: soon - 9:00"
    );
    assert_eq!(
        user_message("9:00 - 10:00 - 11:00", Search::Backward),
        "Invalid time specifier: 9:00 - 10:00 - 11:00"
    );
    assert_eq!(user_message("9:00-10:00", Search::Backward), "Invalid time specifier: 9:00-10:00");
    assert_eq!(user_message(" - 9:00", Search::Backward), "Invalid time specifier:  - 9:00");
    assert_eq!(user_message("", Search::Backward), "Invalid time specifier: ");
    assert_eq!(
        user_message("31 9:00 - 10:00", Search::Backward),
        "Invalid time specifier: 31 9:00 - 10:00"
    );
}

#[test]
fn is_interval_tells_expressions_and_ranges() {
    assert!(Interval::is_interval("9"));
    assert!(Interval::is_interval("today - 2h"));
    assert!(Interval::is_interval("31 9:00"));
    assert!(!Interval::is_interval("9 - "));
    assert!(!Interval::is_interval("a - b"));
    assert!(!Interval::is_interval("9 - 10 - 11"));
}
