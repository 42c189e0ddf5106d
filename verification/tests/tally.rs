use work::clock::{Clock, ClockReading};
use work::error::ErrorKind;
use work::event::{Event, LogRecord};
use work::interval::Interval;
use work::log_file::LogFile;
use work::project_map::ProjectMap;
use work::tally::{shape, tally, Shape};

fn some(text: &str) -> Option<String> {
    Some(text.to_string())
}

fn start(timestamp: i64, project: &str) -> LogRecord {
    LogRecord { timestamp, event: Event::Start(some(project), None) }
}

fn stop(timestamp: i64, project: &str) -> LogRecord {
    LogRecord { timestamp, event: Event::Stop(some(project), None) }
}

fn totals(map: &ProjectMap) -> Vec<(Option<String>, Option<String>, i64)> {
    (0..map.len())
        .map(|i| {
            let row = map.row(i);
            (row.project.clone(), row.description.clone(), row.seconds)
        })
        .collect()
}

fn tallied(records: &[LogRecord], from: i64, to: i64) -> Vec<(Option<String>, Option<String>, i64)> {
    let map = tally(records, &Interval { start: from, end: to }).unwrap().unwrap();
    totals(&map)
}

fn log(lines: &[&str]) -> LogFile {
    LogFile::new(lines.iter().map(|line| line.to_string()).collect())
}

#[test]
fn one_session_in_the_interval() {
    let records = [start(100, "A"), stop(200, "A")];
    assert_eq!(tallied(&records, 0, 300), vec![(some("A"), None, 100)]);
    let map = tally(&records, &Interval { start: 0, end: 300 }).unwrap().unwrap();
    assert_eq!(map.get(&some("A"), &None), Some(100));
    assert_eq!(map.get(&some("A"), &some("x")), None);
    assert_eq!(map.len(), 1);
}

#[test]
fn a_dangling_start_runs_to_the_end_of_the_interval() {
    let records = [start(50, "A")];
    assert_eq!(tallied(&records, 0, 1000), vec![(some("A"), None, 950)]);
}

#[test]
fn a_dangling_stop_runs_from_the_start_of_the_interval() {
    let records = [stop(50, "A")];
    assert_eq!(tallied(&records, 20, 1000), vec![(some("A"), None, 30)]);
}

#[test]
fn no_records_are_no_events() {
    let result = tally(&[], &Interval { start: 0, end: 1000 });
    assert!(matches!(result, Ok(None)));
}

#[test]
fn work_of_no_duration_is_not_no_events() {
    let records = [start(100, "A"), stop(100, "A")];
    assert_eq!(tallied(&records, 0, 300), vec![(some("A"), None, 0)]);
}

#[test]
fn shapes_are_told_by_first_and_last() {
    assert_eq!(shape(&[]), Shape::Empty);
    assert_eq!(shape(&[stop(1, "A")]), Shape::SingleStop);
    assert_eq!(shape(&[start(1, "A")]), Shape::SingleStart);
    assert_eq!(shape(&[start(1, "A"), stop(2, "A")]), Shape::StartToStop);
    assert_eq!(shape(&[start(1, "A"), start(2, "A")]), Shape::StartToStart);
    assert_eq!(shape(&[stop(1, "A"), stop(2, "A")]), Shape::StopToStop);
    assert_eq!(shape(&[stop(1, "A"), start(2, "A")]), Shape::StopToStart);
    assert_eq!(shape(&[stop(1, "A"), start(2, "A"), stop(3, "A"), start(4, "B")]), Shape::StopToStart);
}

#[test]
fn start_to_stop_pairs_all() {
    let records = [start(10, "A"), stop(20, "A"), start(30, "B"), stop(70, "B"), start(80, "A"),
        stop(85, "A")];
    assert_eq!(tallied(&records, 0, 100), vec![(some("A"), None, 15), (some("B"), None, 40)]);
}

#[test]
fn start_to_start_adds_the_last_start() {
    let records = [start(10, "A"), stop(20, "A"), start(30, "B")];
    assert_eq!(tallied(&records, 0, 100), vec![(some("A"), None, 10), (some("B"), None, 70)]);
    let records = [start(10, "A"), stop(20, "A"), start(30, "A")];
    assert_eq!(tallied(&records, 0, 100), vec![(some("A"), None, 80)]);
}

#[test]
fn stop_to_stop_adds_the_first_stop() {
    let records = [stop(10, "A"), start(20, "B"), stop(50, "B")];
    assert_eq!(tallied(&records, 4, 100), vec![(some("B"), None, 30), (some("A"), None, 6)]);
}

#[test]
fn stop_to_start_adds_both() {
    let records = [stop(10, "A"), start(20, "B"), stop(50, "B"), start(60, "A")];
    assert_eq!(tallied(&records, 4, 100), vec![(some("B"), None, 30), (some("A"), None, 46)]);
    let records = [stop(10, "A"), start(60, "C")];
    assert_eq!(tallied(&records, 4, 100), vec![(some("A"), None, 6), (some("C"), None, 40)]);
}

#[test]
fn a_record_without_a_partner_gives_nothing() {
    let records = [start(10, "A"), start(20, "B"), stop(50, "B")];
    assert_eq!(tallied(&records, 0, 100), vec![(some("A"), None, 10)]);
    let records = [stop(10, "A"), start(20, "B"), stop(50, "B"), stop(60, "C")];
    assert_eq!(tallied(&records, 0, 100), vec![(some("B"), None, 30), (some("A"), None, 10)]);
}

#[test]
fn a_session_goes_to_the_key_of_its_first_record() {
    let records = [
        LogRecord { timestamp: 10, event: Event::Start(some("A"), some("x")) },
        LogRecord { timestamp: 30, event: Event::Stop(some("B"), some("y")) },
    ];
    assert_eq!(tallied(&records, 0, 100), vec![(some("A"), some("x"), 20)]);
}

#[test]
fn missing_labels_are_keys_of_their_own() {
    let records = [
        LogRecord { timestamp: 10, event: Event::Start(None, None) },
        LogRecord { timestamp: 30, event: Event::Stop(None, None) },
        LogRecord { timestamp: 40, event: Event::Start(None, None) },
        LogRecord { timestamp: 45, event: Event::Stop(None, None) },
        LogRecord { timestamp: 50, event: Event::Start(some("Unnamed project"), None) },
        LogRecord { timestamp: 51, event: Event::Stop(some("Unnamed project"), None) },
        LogRecord { timestamp: 60, event: Event::Start(None, some("d")) },
        LogRecord { timestamp: 63, event: Event::Stop(None, some("d")) },
    ];
    assert_eq!(
        tallied(&records, 0, 100),
        vec![(None, None, 25), (some("Unnamed project"), None, 1), (None, some("d"), 3)]
    );
}

#[test]
fn a_log_out_of_order_gives_negative_time() {
    let records = [start(50, "A"), stop(20, "A")];
    assert_eq!(tallied(&records, 0, 100), vec![(some("A"), None, -30)]);
}

#[test]
fn times_too_far_apart_are_an_error() {
    let records = [start(i64::MIN, "A"), stop(i64::MAX, "A")];
    let e = tally(&records, &Interval { start: i64::MIN, end: i64::MAX }).unwrap_err();
    match e.kind() {
        ErrorKind::LogFile(message) => {
            assert_eq!(message, "Work log holds times too far apart to add up!")
        }
        _ => panic!("a log file error was expected"),
    }
    let records = [start(0, "A"), stop(i64::MAX, "A"), start(0, "A"), stop(1, "A")];
    assert!(tally(&records, &Interval { start: 0, end: i64::MAX }).is_err());
    let records = [start(i64::MIN, "A")];
    assert!(tally(&records, &Interval { start: i64::MIN, end: 0 }).is_err());
    let records = [start(0, "A"), stop(i64::MAX, "A"), start(0, "B"), stop(1, "B")];
    assert_eq!(
        tallied(&records, 0, i64::MAX),
        vec![(some("A"), None, i64::MAX), (some("B"), None, 1)]
    );
}

#[test]
fn log_is_filtered_then_tallied() {
    let log = log(&["100,Start,Proj,Desc", "200,Stop,Proj,Desc", "300,Start,Proj2,"]);
    let interval = Interval { start: 50, end: 250 };
    let records = log.filter_events(&interval).unwrap();
    assert_eq!(
        records,
        vec![
            LogRecord { timestamp: 100, event: Event::Start(some("Proj"), some("Desc")) },
            LogRecord { timestamp: 200, event: Event::Stop(some("Proj"), some("Desc")) },
        ]
    );
    let map = log.tally_time(&interval).unwrap().unwrap();
    assert_eq!(totals(&map), vec![(some("Proj"), some("Desc"), 100)]);

    let early = Interval { start: 0, end: 50 };
    assert_eq!(log.filter_events(&early).unwrap(), vec![]);
    assert!(matches!(log.tally_time(&early), Ok(None)));
}

#[test]
fn filter_keeps_both_ends_and_the_order() {
    let log = log(&["100,Start,A,", "200,Stop,A,", "300,Start,B,", "400,Stop,B,"]);
    let stamps = |from: i64, to: i64| -> Vec<i64> {
        log.filter_events(&Interval { start: from, end: to })
            .unwrap()
            .iter()
            .map(|record| record.timestamp)
            .collect()
    };
    assert_eq!(stamps(100, 400), vec![100, 200, 300, 400]);
    assert_eq!(stamps(101, 399), vec![200, 300]);
    assert_eq!(stamps(200, 200), vec![200]);
    assert_eq!(stamps(401, 500), Vec::<i64>::new());
    assert_eq!(stamps(300, 100), Vec::<i64>::new());
}

#[test]
fn a_line_that_holds_no_record_is_named() {
    let log = log(&["100,Start,A,", "oops,Stop,A,", "also bad", "400,Stop,B,"]);
    for interval in [Interval { start: 0, end: 150 }, Interval { start: 350, end: 500 }] {
        let e = log.filter_events(&interval).unwrap_err();
        match e.kind() {
            ErrorKind::Corrupt(line) => assert_eq!(line, "oops,Stop,A,"),
            _ => panic!("a corrupt line was expected"),
        }
        assert_eq!(e.to_string(), "Corrupt record in work log: oops,Stop,A,");
        assert_eq!(e.exit_code(), 3);
        assert_eq!(e.description(), "log file error");
        assert!(log.tally_time(&interval).is_err());
    }
}

#[test]
fn latest_event_is_that_of_the_last_line() {
    assert_eq!(log(&[]).get_latest_event().unwrap(), Event::Stop(None, None));
    let two = log(&["100,Start,A,", "200,Stop,A,x"]);
    assert_eq!(two.get_latest_event().unwrap(), Event::Stop(some("A"), some("x")));
    let open = log(&["bad line", "soon,Start,A,"]);
    assert_eq!(open.get_latest_event().unwrap(), Event::Start(some("A"), None));
    let broken = log(&["100,Start,A,", "what"]);
    match broken.get_latest_event().unwrap_err().kind() {
        ErrorKind::Corrupt(line) => assert_eq!(line, "what"),
        _ => panic!("a corrupt line was expected"),
    }
}

#[test]
fn log_grows_by_the_line_of_the_event() {
    let mut file = log(&["100,Start,A,"]);
    file.append_event(&Event::Stop(some("A"), None), 250);
    assert_eq!(file.lines, vec!["100,Start,A,".to_string(), "250,Stop,A,".to_string()]);
    assert_eq!(file.len(), 2);
    let clock = Clock::new(ClockReading {
        timestamp: 1_710_500_000,
        year: 2024,
        month: 3,
        day: 15,
        hour: 12,
        minute: 30,
        second: 45,
    })
    .unwrap();
    file.append_event_now(&Event::Start(None, some("d")), &clock);
    assert_eq!(file.len(), 3);
    assert_eq!(file.lines[2], "1710500000,Start,,d");
}

#[test]
fn time_of_a_log_in_order_fits_the_interval() {
    let logs: Vec<Vec<LogRecord>> = vec![
        vec![start(10, "A"), stop(20, "A"), start(30, "B"), stop(70, "B")],
        vec![stop(10, "A"), start(20, "B"), stop(50, "B"), start(60, "A")],
        vec![start(10, "A"), stop(20, "A"), start(30, "A")],
        vec![stop(10, "A"), start(20, "B"), stop(100, "B")],
        vec![start(0, "A"), start(0, "B"), stop(100, "C")],
        vec![stop(0, "A")],
        vec![start(100, "A")],
    ];
    for records in logs {
        let map = tally(&records, &Interval { start: 0, end: 100 }).unwrap().unwrap();
        let sum: i64 = totals(&map).iter().map(|row| row.2).sum();
        assert!(0 <= sum && sum <= 100);
    }
}
