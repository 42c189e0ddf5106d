use work::arguments::TimeFormat;
use work::error::{AppError, ErrorKind, IoFailure};
use work::time::{
    approximate_half_hours, approximate_minutes, format_human_readable, format_time,
    get_human_readable_form, get_minutes,
};

#[test]
fn minutes_are_whole() {
    assert_eq!(get_minutes(0), 0);
    assert_eq!(get_minutes(59), 0);
    assert_eq!(get_minutes(60), 1);
    assert_eq!(get_minutes(119), 1);
    assert_eq!(get_minutes(-59), 0);
    assert_eq!(get_minutes(-60), -1);
    assert_eq!(get_minutes(-119), -1);
    assert_eq!(get_minutes(i64::MAX), 153_722_867_280_912_930);
    assert_eq!(get_minutes(i64::MIN), -153_722_867_280_912_930);
}

#[test]
fn minutes_go_up_to_a_quarter() {
    assert_eq!(approximate_minutes(16 * 60), 30);
    assert_eq!(approximate_minutes(15 * 60), 15);
    assert_eq!(approximate_minutes(31 * 60), 45);
    assert_eq!(approximate_minutes(14 * 60), 15);
    assert_eq!(approximate_minutes(0), 0);
    assert_eq!(approximate_minutes(59), 0);
    assert_eq!(approximate_minutes(60), 15);
    assert_eq!(approximate_minutes(-7 * 60), 15);
    assert_eq!(approximate_minutes(-15 * 60), -15);
    assert_eq!(approximate_minutes(-16 * 60), 0);
}

#[test]
fn hours_go_by_halves() {
    assert_eq!(approximate_half_hours((2 * 60 * 60) + (25 * 60)), 5);
    assert_eq!(approximate_half_hours(31 * 60), 2);
    assert_eq!(approximate_half_hours(16 * 60), 1);
    assert_eq!(approximate_half_hours(14 * 60), 0);
    assert_eq!(approximate_half_hours(15 * 60), 0);
    assert_eq!(approximate_half_hours(30 * 60), 1);
    assert_eq!(approximate_half_hours(3600), 2);
    assert_eq!(approximate_half_hours(-31 * 60), 0);
    assert_eq!(approximate_half_hours(-2 * 3600 - 31 * 60), -4);
}

#[test]
fn durations_in_words() {
    assert_eq!(get_human_readable_form(15), "Less than a minute");
    assert_eq!(get_human_readable_form(30), "Less than a minute");
    assert_eq!(get_human_readable_form(60), "1 minute");
    assert_eq!(get_human_readable_form(120), "2 minutes");
    assert_eq!(get_human_readable_form(3600), "1 hour");
    assert_eq!(get_human_readable_form(7200), "2 hours");
    assert_eq!(get_human_readable_form(3660), "1 hour and 1 minute");
    assert_eq!(get_human_readable_form(3720), "1 hour and 2 minutes");
    assert_eq!(get_human_readable_form(7320), "2 hours and 2 minutes");
    assert_eq!(get_human_readable_form(7260), "2 hours and 1 minute");
    assert_eq!(get_human_readable_form(360_000), "100 hours");
    assert_eq!(get_human_readable_form(-120), "-2 minutes");
    assert_eq!(get_human_readable_form(-7320), "-2 hours and -2 minutes");
}

#[test]
fn hours_and_minutes_in_words() {
    assert_eq!(format_human_readable(0, 0), "Less than a minute");
    assert_eq!(format_human_readable(0, 59), "59 minutes");
    assert_eq!(format_human_readable(1, 0), "1 hour");
    assert_eq!(format_human_readable(1, 1), "1 hour and 1 minute");
    assert_eq!(format_human_readable(23, 1), "23 hours and 1 minute");
    assert_eq!(format_human_readable(1, 30), "1 hour and 30 minutes");
}

#[test]
fn each_format_shows_a_duration() {
    let duration = 2 * 3600 + 25 * 60 + 10;
    assert_eq!(format_time(&TimeFormat::Minutes, duration), "145");
    assert_eq!(format_time(&TimeFormat::MinutesApprox, duration), "150");
    assert_eq!(format_time(&TimeFormat::HoursApprox, duration), "2.5");
    assert_eq!(format_time(&TimeFormat::HumanReadable, duration), "2 hours and 25 minutes");
    assert_eq!(format_time(&TimeFormat::HoursApprox, 31 * 60), "1");
    assert_eq!(format_time(&TimeFormat::HoursApprox, 0), "0");
    assert_eq!(format_time(&TimeFormat::HoursApprox, 16 * 60), "0.5");
    assert_eq!(format_time(&TimeFormat::HoursApprox, -2 * 3600), "-2");
    assert_eq!(format_time(&TimeFormat::Minutes, -61), "-1");
}

#[test]
fn formats_have_two_names_each() {
    assert_eq!(TimeFormat::from_str("m").unwrap(), TimeFormat::Minutes);
    assert_eq!(TimeFormat::from_str("minutes").unwrap(), TimeFormat::Minutes);
    assert_eq!(TimeFormat::from_str("h").unwrap(), TimeFormat::HoursApprox);
    assert_eq!(TimeFormat::from_str("hours").unwrap(), TimeFormat::HoursApprox);
    assert_eq!(TimeFormat::from_str("ma").unwrap(), TimeFormat::MinutesApprox);
    assert_eq!(TimeFormat::from_str("minutes-approx").unwrap(), TimeFormat::MinutesApprox);
    assert_eq!(TimeFormat::from_str("hr").unwrap(), TimeFormat::HumanReadable);
    assert_eq!(TimeFormat::from_str("human-readable").unwrap(), TimeFormat::HumanReadable);
    for text in ["", "M", "minute", " m", "seconds"] {
        match TimeFormat::from_str(text).unwrap_err().kind() {
            ErrorKind::User(message) => assert_eq!(
                message,
                "Valid values are [m, minutes, ma, minutes-approx, h, hours, hr, human-readable]"
            ),
            _ => panic!("a user error was expected"),
        }
    }
}

#[test]
fn errors_carry_kind_and_message() {
    let user = AppError::new(ErrorKind::User("no".to_string()));
    assert!(matches!(user.kind(), ErrorKind::User(message) if message == "no"));
    assert_eq!(user.description(), "user error");
    assert_eq!(user.to_string(), "no");
    assert_eq!(user.exit_code(), 2);
    let log = AppError::log_file("gone");
    assert!(matches!(log.kind(), ErrorKind::LogFile(message) if message == "gone"));
    assert_eq!(log.description(), "log file error");
    assert_eq!(log.exit_code(), 3);
    let system = AppError::system("down");
    assert!(matches!(system.kind(), ErrorKind::System(message) if message == "down"));
    assert_eq!(system.description(), "system error");
    assert_eq!(system.to_string(), "down");
    assert_eq!(system.exit_code(), 4);
    assert_eq!(AppError::user("x").to_string(), "x");
}

#[test]
fn failures_of_the_file_have_their_messages() {
    assert_eq!(AppError::from_io(IoFailure::NotFound).to_string(), "Work log does not exist!");
    assert_eq!(
        AppError::from_io(IoFailure::PermissionDenied).to_string(),
        "Invalid permissions for work log!"
    );
    assert_eq!(
        AppError::from_io(IoFailure::Other).to_string(),
        "Unable to write/read to/from work log!"
    );
    assert_eq!(AppError::from_io(IoFailure::Other).exit_code(), 3);
}

#[test]
fn interval_and_event_are_at_hand_where_they_are_used() {
    let interval = work::time::Interval::new(100, Some(50), 0);
    assert!(interval.end > interval.start);
    let search = work::time::Search::Backward;
    assert_eq!(search, work::interval::Search::Backward);
    let event = work::log_file::Event::Stop(None, None);
    assert_eq!(event, work::event::Event::Stop(None, None));
}
