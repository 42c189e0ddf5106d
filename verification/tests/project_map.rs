use work::arguments::TimeFormat;
use work::event::{Event, LogRecord};
use work::project_map::{ProjectMap, ProjectMapMethods};

fn some(text: &str) -> Option<String> {
    Some(text.to_string())
}

fn event(project: &str, description: &str) -> Event {
    Event::Start(some(project), some(description))
}

fn totals(map: &ProjectMap) -> Vec<(Option<String>, Option<String>, i64)> {
    (0..map.len())
        .map(|i| {
            let row = map.row(i);
            (row.project.clone(), row.description.clone(), row.seconds)
        })
        .collect()
}

#[test]
fn a_new_map_is_empty() {
    let map = ProjectMap::new();
    assert_eq!(map.len(), 0);
    assert_eq!(map.get(&None, &None), None);
}

#[test]
fn add_event_inserts_or_adds() {
    let mut map = ProjectMap::new();
    map.add_event(&10, &event("A", "x"));
    map.add_event(&5, &event("A", "y"));
    map.add_event(&7, &event("A", "x"));
    map.add_event(&-2, &Event::Stop(some("A"), some("y")));
    map.add_event(&1, &Event::Stop(None, None));
    assert_eq!(
        totals(&map),
        vec![(some("A"), some("x"), 17), (some("A"), some("y"), 3), (None, None, 1)]
    );
    assert_eq!(map.get(&some("A"), &some("x")), Some(17));
    assert_eq!(map.get(&some("A"), &None), None);
    assert_eq!(map.find(&some("A"), &some("y")), Some(1));
    assert_eq!(map.find(&some("B"), &some("y")), None);
}

#[test]
fn try_add_event_leaves_the_map_when_the_total_does_not_fit() {
    let mut map = ProjectMap::new();
    assert!(map.try_add_event(i64::MAX, &event("A", "x")));
    assert!(!map.try_add_event(1, &event("A", "x")));
    assert_eq!(map.get(&some("A"), &some("x")), Some(i64::MAX));
    assert!(map.try_add_event(-1, &event("A", "x")));
    assert_eq!(map.get(&some("A"), &some("x")), Some(i64::MAX - 1));
    assert!(map.try_add_event(1, &event("A", "z")));
}

#[test]
fn add_events_takes_them_two_by_two() {
    let record = |timestamp: i64, event: Event| LogRecord { timestamp, event };
    let mut map = ProjectMap::new();
    map.add_events(&[
        record(10, event("A", "x")),
        record(25, Event::Stop(some("A"), some("x"))),
        record(30, event("B", "y")),
        record(31, Event::Stop(some("B"), some("y"))),
        record(40, event("A", "x")),
        record(45, Event::Stop(some("A"), some("x"))),
        record(50, event("C", "z")),
    ]);
    assert_eq!(totals(&map), vec![(some("A"), some("x"), 20), (some("B"), some("y"), 1)]);
    map.add_events(&[]);
    map.add_events(&[record(1, event("D", "w"))]);
    assert_eq!(map.len(), 2);
}

#[test]
fn add_clean_event_replaces_the_project() {
    let mut map = ProjectMap::new();
    map.add_event(&10, &event("A", "x"));
    map.add_event(&5, &event("B", "y"));
    map.add_event(&7, &event("A", "z"));
    map.add_clean_event(&3, &event("A", "w"));
    assert_eq!(totals(&map), vec![(some("B"), some("y"), 5), (some("A"), some("w"), 3)]);
    map.add_clean_event(&4, &event("C", "v"));
    assert_eq!(map.len(), 3);
    assert_eq!(map.get(&some("C"), &some("v")), Some(4));
    map.add_clean_event(&9, &event("B", "y"));
    assert_eq!(map.get(&some("B"), &some("y")), Some(9));
    assert_eq!(map.len(), 3);
}

#[test]
fn csv_has_a_line_for_each_total() {
    let mut map = ProjectMap::new();
    assert_eq!(map.as_csv(&TimeFormat::Minutes), "Project,Description,Time Spent\n");
    map.add_event(&3600, &event("A", "x"));
    map.add_event(&119, &Event::Start(None, None));
    map.add_event(&60, &Event::Start(some("B"), None));
    assert_eq!(
        map.as_csv(&TimeFormat::Minutes),
        "Project,Description,Time Spent\nA,x,60\nUnnamed project,No description,1\nB,No description,1\n"
    );
    assert_eq!(
        map.as_csv(&TimeFormat::HumanReadable),
        "Project,Description,Time Spent\nA,x,1 hour\nUnnamed project,No description,1 minute\nB,No description,1 minute\n"
    );
}

#[test]
fn totals_per_project_ignore_the_description() {
    let mut map = ProjectMap::new();
    map.add_event(&10, &event("A", "x"));
    map.add_event(&5, &event("B", "y"));
    map.add_event(&7, &event("A", "z"));
    map.add_event(&2, &Event::Start(None, some("x")));
    map.add_event(&3, &Event::Start(None, None));
    let projects = map.by_project().unwrap();
    assert_eq!(
        totals(&projects),
        vec![(some("A"), None, 17), (some("B"), None, 5), (None, None, 5)]
    );
    assert_eq!(totals(&ProjectMap::new().by_project().unwrap()), vec![]);
}

#[test]
fn totals_per_project_that_do_not_fit_are_none() {
    let mut map = ProjectMap::new();
    map.add_event(&i64::MAX, &event("A", "x"));
    map.add_event(&1, &event("A", "y"));
    assert!(map.by_project().is_none());
    let mut map = ProjectMap::new();
    map.add_event(&i64::MAX, &event("A", "x"));
    map.add_event(&1, &event("B", "y"));
    assert!(map.by_project().is_some());
}

#[test]
fn totals_by_label_add_up_what_is_shown_alike() {
    let mut map = ProjectMap::new();
    map.add_event(&10, &Event::Start(None, None));
    map.add_event(&5, &Event::Start(some("Unnamed project"), None));
    map.add_event(&7, &Event::Start(some("Unnamed project"), some("No description")));
    map.add_event(&2, &event("A", "x"));
    map.add_event(&1, &Event::Start(some("A"), None));
    let shown = map.by_label().unwrap();
    assert_eq!(
        totals(&shown),
        vec![
            (some("Unnamed project"), some("No description"), 22),
            (some("A"), some("x"), 2),
            (some("A"), some("No description"), 1)
        ]
    );
    let mut map = ProjectMap::new();
    map.add_event(&i64::MAX, &Event::Start(None, None));
    map.add_event(&1, &Event::Start(some("Unnamed project"), None));
    assert!(map.by_label().is_none());
}
