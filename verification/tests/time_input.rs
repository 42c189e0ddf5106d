use chrono::{Datelike, Local, NaiveDateTime, NaiveTime, Timelike};
use work::clock::{Clock, ClockReading};
use work::interval::{parse_time_input, Search};

fn now_date_time() -> NaiveDateTime {
    Local::now().naive_local()
}

fn clock_at(now: NaiveDateTime) -> Clock {
    Clock::new(ClockReading {
        timestamp: now.and_utc().timestamp(),
        year: now.year(),
        month: now.month(),
        day: now.day(),
        hour: now.hour(),
        minute: now.minute(),
        second: now.second(),
    })
    .unwrap()
}

fn from_hms(hour: u32, minute: u32, second: u32) -> NaiveTime {
    NaiveTime::from_hms_opt(hour, minute, second).unwrap()
}

#[test]
fn test_parse_time_input_at_hour() {
    let now = now_date_time();
    let curr_hour = now.hour();
    let today = now.date();
    let yesterday = today.pred_opt().unwrap();

    for hour in 0..=23 {
        let test_time;
        if hour > curr_hour {
            test_time = NaiveDateTime::new(yesterday, from_hms(hour, 0, 0));
        } else {
            test_time = NaiveDateTime::new(today, from_hms(hour, 0, 0));
        }
        assert_eq!(
            parse_time_input(&hour.to_string(), &Search::Backward, &clock_at(now)).unwrap(),
            test_time.and_utc().timestamp()
        );
    }
}

#[test]
fn test_parse_time_input_at_hour_minutes() {
    let now = now_date_time();
    let curr_time = now.time();
    let today = now.date();
    let yesterday = today.pred_opt().unwrap();

    for hour in 0..=23 {
        for minute in 0..=59 {
            let test_time;
            let fake_time = from_hms(hour, minute, 0);
            if fake_time > curr_time {
                test_time = NaiveDateTime::new(yesterday, from_hms(hour, minute, 0));
            } else {
                test_time = NaiveDateTime::new(today, from_hms(hour, minute, 0));
            }
            println!("{}:{}", fake_time.hour(), fake_time.minute());
            assert_eq!(
                parse_time_input(
                    &format!("{}:{}", fake_time.hour(), fake_time.minute()),
                    &Search::Backward,
                    &clock_at(now)
                )
                .unwrap(),
                test_time.and_utc().timestamp()
            );
        }
    }
}

#[test]
fn test_parse_time_input_at_day_hour_minutes() {}

#[test]
fn test_parse_time_input_at_day_month_hour_minutes() {}

#[test]
fn test_parse_time_input_hours_ago() {}

#[test]
fn test_parse_time_input_minutes_ago() {}

#[test]
fn test_parse_time_input_hours_and_minutes_ago() {}

#[test]
fn test_interval_try_from_str() {}
