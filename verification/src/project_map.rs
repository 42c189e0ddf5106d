//! The time spent, per project and description.
//!
//! A `ProjectMap` holds one total of seconds for each pair of a project and a
//! description that was credited. The pairs are kept as the events have them:
//! a missing project is a key of its own and stays apart from any named one.
//!
//! In contracts a `ProjectMap` is two things: the map from keys to totals
//! (its view), and the order in which the keys were first credited, which is
//! the order in which the totals are listed.

use vstd::prelude::*;
use vstd::string::StringExecFns;
use crate::arguments::TimeFormat;
use crate::event::{
    clone_label, description_name, label_view, project_name, same_label, views, Event, EventView,
    Label, LogRecord, RecordView,
};
use crate::time::{format_time, formatted};

verus! {

broadcast use vstd::string::group_string_axioms;

/// What a total is kept for: a project and a description, each of which may
/// be missing.
pub type Key = (Label, Label);

/// The key under which an event is credited.
pub open spec fn key_of(event: EventView) -> Key {
    (event.project, event.description)
}

/// An amount of seconds for a key.
pub struct Credit {
    pub key: Key,
    pub seconds: int,
}

/// One total of a `ProjectMap`.
#[derive(Debug)]
pub struct Row {
    pub project: Option<String>,
    pub description: Option<String>,
    pub seconds: i64,
}

impl Row {
    /// The key of the total.
    pub open spec fn key(self) -> Key {
        (label_view(self.project), label_view(self.description))
    }
}

/// The total that `totals` holds for `key`: 0 where it holds none.
pub open spec fn total_of(totals: Map<Key, int>, key: Key) -> int {
    if totals.dom().contains(key) {
        totals[key]
    } else {
        0
    }
}

/// `totals` after `seconds` are added to what it holds for `key`.
pub open spec fn credited(totals: Map<Key, int>, key: Key, seconds: int) -> Map<Key, int> {
    totals.insert(key, total_of(totals, key) + seconds)
}

/// Whether `n` is the value of some `i64`.
pub open spec fn fits_i64(n: int) -> bool {
    i64::MIN <= n <= i64::MAX
}

/// `totals` after the credit `c`, where both the credit and the new total
/// fit an `i64`.
pub open spec fn credit_checked(totals: Map<Key, int>, c: Credit) -> Option<Map<Key, int>> {
    if fits_i64(c.seconds) && fits_i64(total_of(totals, c.key) + c.seconds) {
        Some(credited(totals, c.key, c.seconds))
    } else {
        None
    }
}

/// `totals` after the credits of `credits`, one after the other; nothing as
/// soon as one of them does not fit.
pub open spec fn credit_all(totals: Map<Key, int>, credits: Seq<Credit>) -> Option<Map<Key, int>>
    decreases credits.len(),
{
    if credits.len() == 0 {
        Some(totals)
    } else {
        match credit_all(totals, credits.drop_last()) {
            Some(before) => credit_checked(before, credits.last()),
            None => None,
        }
    }
}

/// `keys` with `key` behind them, unless it is among them.
pub open spec fn ordered(keys: Seq<Key>, key: Key) -> Seq<Key> {
    if keys.contains(key) {
        keys
    } else {
        keys.push(key)
    }
}

/// `keys`, and behind them the keys of `credits` that are not among them,
/// each once, in the order in which they first come.
pub open spec fn keys_after(keys: Seq<Key>, credits: Seq<Credit>) -> Seq<Key>
    decreases credits.len(),
{
    if credits.len() == 0 {
        keys
    } else {
        ordered(keys_after(keys, credits.drop_last()), credits.last().key)
    }
}

/// The keys of `keys` that are not of the project `project`, in their
/// order.
pub open spec fn without_project(keys: Seq<Key>, project: Label) -> Seq<Key>
    decreases keys.len(),
{
    if keys.len() == 0 {
        keys
    } else if keys.last().0 == project {
        without_project(keys.drop_last(), project)
    } else {
        without_project(keys.drop_last(), project).push(keys.last())
    }
}

/// The credits of a run of sessions. The records are taken two by two: the
/// time from the first of a pair to the second goes to the key of the first.
/// A last record without a partner gives nothing.
pub open spec fn pair_credits(records: Seq<RecordView>) -> Seq<Credit> {
    Seq::new(
        records.len() / 2,
        |k: int|
            Credit {
                key: key_of(records[2 * k].event),
                seconds: records[2 * k + 1].timestamp - records[2 * k].timestamp,
            },
    )
}

/// Once a credit does not fit, no longer run of credits does.
pub proof fn lemma_credit_all_prefix(totals: Map<Key, int>, credits: Seq<Credit>, n: int)
    requires
        0 <= n <= credits.len(),
        credit_all(totals, credits) is Some,
    ensures
        credit_all(totals, credits.take(n)) is Some,
    decreases credits.len() - n,
{
    if n < credits.len() {
        lemma_credit_all_prefix(totals, credits, n + 1);
        assert(credits.take(n + 1).drop_last() == credits.take(n));
    } else {
        assert(credits.take(n) == credits);
    }
}

/// The total of each key that was credited.
#[derive(Debug)]
pub struct ProjectMap {
    rows: Vec<Row>,
}

/// The keys of `rows`, in their order.
spec fn keys_of(rows: Seq<Row>) -> Seq<Key> {
    Seq::new(rows.len(), |i: int| rows[i].key())
}

/// No key stands twice among `rows`.
spec fn distinct_keys(rows: Seq<Row>) -> bool {
    forall|i: int, j: int|
        0 <= i < rows.len() && 0 <= j < rows.len() && i != j ==> (#[trigger] rows[i]).key() != (
        #[trigger] rows[j]).key()
}

/// Whether `rows` has a total for `key`.
spec fn has_key(rows: Seq<Row>, key: Key) -> bool {
    exists|i: int| 0 <= i < rows.len() && (#[trigger] rows[i]).key() == key
}

/// Where `rows` has the total for `key`.
spec fn position(rows: Seq<Row>, key: Key) -> int {
    choose|i: int| 0 <= i < rows.len() && (#[trigger] rows[i]).key() == key
}

/// The totals of `rows` by key.
spec fn totals_of(rows: Seq<Row>) -> Map<Key, int> {
    Map::new(|key: Key| has_key(rows, key), |key: Key| rows[position(rows, key)].seconds as int)
}

/// A key is among the keys of `rows` where `rows` has a total for it.
proof fn lemma_keys_contain(rows: Seq<Row>, key: Key)
    ensures
        keys_of(rows).contains(key) <==> has_key(rows, key),
{
    let keys = keys_of(rows);
    if keys.contains(key) {
        let i = choose|i: int| 0 <= i < keys.len() && keys[i] == key;
        assert(rows[i].key() == key);
    }
    if has_key(rows, key) {
        let i = position(rows, key);
        assert(keys[i] == key);
    }
}

/// A new row for a key that `rows` does not have is a new total.
proof fn lemma_totals_push(rows: Seq<Row>, row: Row)
    requires
        distinct_keys(rows),
        !has_key(rows, row.key()),
    ensures
        distinct_keys(rows.push(row)),
        totals_of(rows.push(row)) == totals_of(rows).insert(row.key(), row.seconds as int),
        keys_of(rows.push(row)) == keys_of(rows).push(row.key()),
{
    let after = rows.push(row);
    assert forall|i: int, j: int|
        0 <= i < after.len() && 0 <= j < after.len() && i != j implies (#[trigger] after[i]).key()
        != (#[trigger] after[j]).key() by {
        if i < rows.len() && j < rows.len() {
            assert(after[i] == rows[i] && after[j] == rows[j]);
        } else if i < rows.len() {
            assert(after[i] == rows[i]);
        } else {
            assert(after[j] == rows[j]);
        }
    }
    assert forall|key: Key| has_key(after, key) <==> (has_key(rows, key) || key == row.key()) by {
        if has_key(rows, key) {
            let i = position(rows, key);
            assert(after[i].key() == key);
        }
        if key == row.key() {
            assert(after[rows.len() as int].key() == key);
        }
        if has_key(after, key) {
            let i = position(after, key);
            if i < rows.len() {
                assert(rows[i].key() == key);
            }
        }
    }
    assert forall|key: Key| has_key(after, key) implies after[position(after, key)].seconds
        == totals_of(rows).insert(row.key(), row.seconds as int)[key] by {
        let i = position(after, key);
        if key != row.key() {
            assert(rows[i].key() == key);
            let j = position(rows, key);
            assert(after[j].key() == key);
            assert(i == j);
        }
    }
    assert(totals_of(after) =~= totals_of(rows).insert(row.key(), row.seconds as int));
    assert(keys_of(after) =~= keys_of(rows).push(row.key()));
}

/// Another amount in a row is another total for its key.
proof fn lemma_totals_update(rows: Seq<Row>, at: int, row: Row)
    requires
        distinct_keys(rows),
        0 <= at < rows.len(),
        rows[at].key() == row.key(),
    ensures
        distinct_keys(rows.update(at, row)),
        totals_of(rows.update(at, row)) == totals_of(rows).insert(row.key(), row.seconds as int),
        keys_of(rows.update(at, row)) == keys_of(rows),
{
    let after = rows.update(at, row);
    assert forall|i: int| 0 <= i < rows.len() implies (#[trigger] after[i]).key() == rows[i].key() by {}
    assert forall|i: int, j: int|
        0 <= i < after.len() && 0 <= j < after.len() && i != j implies (#[trigger] after[i]).key()
        != (#[trigger] after[j]).key() by {
        assert(rows[i].key() != rows[j].key());
    }
    assert forall|key: Key| has_key(after, key) <==> has_key(rows, key) by {
        if has_key(rows, key) {
            let i = position(rows, key);
            assert(after[i].key() == key);
        }
        if has_key(after, key) {
            let i = position(after, key);
            assert(rows[i].key() == key);
        }
    }
    assert(has_key(rows, row.key())) by {
        assert(rows[at].key() == row.key());
    }
    assert forall|key: Key| has_key(after, key) implies after[position(after, key)].seconds
        == totals_of(rows).insert(row.key(), row.seconds as int)[key] by {
        let i = position(after, key);
        assert(rows[i].key() == key);
        let j = position(rows, key);
        assert(i == j);
        if key == row.key() {
            assert(i == at);
        }
    }
    assert(totals_of(after) =~= totals_of(rows).insert(row.key(), row.seconds as int));
    assert(keys_of(after) =~= keys_of(rows));
}

impl View for ProjectMap {
    type V = Map<Key, int>;

    /// The total of each key.
    closed spec fn view(&self) -> Map<Key, int> {
        totals_of(self.rows@)
    }
}

impl ProjectMap {
    /// The keys in the order in which they were first credited.
    pub closed spec fn order(&self) -> Seq<Key> {
        keys_of(self.rows@)
    }

    /// No key stands twice.
    pub closed spec fn wf(&self) -> bool {
        distinct_keys(self.rows@)
    }

    /// The keys of the order are the keys that have a total, each once.
    pub proof fn lemma_order(&self)
        requires
            self.wf(),
        ensures
            self.order().no_duplicates(),
            forall|key: Key| self.order().contains(key) <==> self@.dom().contains(key),
    {
        let keys = self.order();
        assert forall|i: int, j: int| 0 <= i < keys.len() && 0 <= j < keys.len() && i != j implies keys[i]
            != keys[j] by {
            assert(self.rows@[i].key() != self.rows@[j].key());
        }
        assert forall|key: Key| keys.contains(key) <==> self@.dom().contains(key) by {
            lemma_keys_contain(self.rows@, key);
        }
    }

    /// A map without totals.
    pub fn new() -> (r: ProjectMap)
        ensures
            r.wf(),
            r.order() == Seq::<Key>::empty(),
            r@ == Map::<Key, int>::empty(),
    {
        let r = ProjectMap { rows: Vec::new() };
        assert(r@ =~= Map::<Key, int>::empty());
        assert(r.order() =~= Seq::<Key>::empty());
        r
    }

    /// The number of totals.
    pub fn len(&self) -> (n: usize)
        ensures
            n == self.order().len(),
    {
        self.rows.len()
    }

    /// The total at place `i`.
    pub fn row(&self, i: usize) -> (r: &Row)
        requires
            self.wf(),
            i < self.order().len(),
        ensures
            r.key() == self.order()[i as int],
            self@.dom().contains(r.key()),
            self@[r.key()] == r.seconds,
    {
        proof {
            let key = self.rows@[i as int].key();
            assert(has_key(self.rows@, key));
            assert(position(self.rows@, key) == i);
        }
        &self.rows[i]
    }

    /// The place of the total for a project and a description, if there is
    /// one.
    pub fn find(&self, project: &Option<String>, description: &Option<String>) -> (r: Option<usize>)
        ensures
            match r {
                Some(i) => i < self.order().len() && self.order()[i as int] == (
                    label_view(*project),
                    label_view(*description),
                ) && !self.order().take(i as int).contains(
                    (label_view(*project), label_view(*description)),
                ),
                None => !self.order().contains((label_view(*project), label_view(*description))),
            },
    {
        let ghost key = (label_view(*project), label_view(*description));
        let mut i: usize = 0;
        while i < self.rows.len()
            invariant
                i <= self.rows.len(),
                key == (label_view(*project), label_view(*description)),
                forall|j: int| 0 <= j < i ==> (#[trigger] self.rows@[j]).key() != key,
            decreases self.rows.len() - i,
        {
            if same_label(&self.rows[i].project, project) && same_label(
                &self.rows[i].description,
                description,
            ) {
                proof {
                    let before = self.order().take(i as int);
                    if before.contains(key) {
                        let j = choose|j: int| 0 <= j < before.len() && before[j] == key;
                        assert(self.rows@[j].key() == key);
                    }
                }
                return Some(i);
            }
            i = i + 1;
        }
        proof {
            lemma_keys_contain(self.rows@, key);
        }
        None
    }

    /// The total for a project and a description, if they were credited.
    pub fn get(&self, project: &Option<String>, description: &Option<String>) -> (r: Option<i64>)
        requires
            self.wf(),
        ensures
            match r {
                Some(seconds) => self@.dom().contains((label_view(*project), label_view(*description)))
                    && self@[(label_view(*project), label_view(*description))] == seconds,
                None => !self@.dom().contains((label_view(*project), label_view(*description))),
            },
    {
        proof {
            lemma_keys_contain(self.rows@, (label_view(*project), label_view(*description)));
        }
        match self.find(project, description) {
            Some(i) => {
                proof {
                    let key = (label_view(*project), label_view(*description));
                    assert(self.rows@[i as int].key() == key);
                    assert(has_key(self.rows@, key));
                    assert(position(self.rows@, key) == i);
                }
                Some(self.rows[i].seconds)
            },
            None => None,
        }
    }

    /// Adds `seconds` to the total of the key of `event`, if the new total
    /// fits; else the map stays as it is. A key without a total gets
    /// `seconds` as its first, and the last place in the order.
    pub fn try_add_event(&mut self, seconds: i64, event: &Event) -> (done: bool)
        requires
            old(self).wf(),
        ensures
            final(self).wf(),
            done == fits_i64(total_of(old(self)@, key_of(event@)) + seconds),
            done ==> final(self)@ == credited(old(self)@, key_of(event@), seconds as int),
            done ==> final(self).order() == ordered(old(self).order(), key_of(event@)),
            !done ==> *final(self) == *old(self),
    {
        let ghost key = key_of(event@);
        proof {
            lemma_keys_contain(self.rows@, key);
        }
        match self.find(event.project(), event.description()) {
            Some(i) => {
                proof {
                    assert(self.rows@[i as int].key() == key);
                    assert(has_key(self.rows@, key));
                    assert(position(self.rows@, key) == i);
                }
                match self.rows[i].seconds.checked_add(seconds) {
                    Some(total) => {
                        let row = Row {
                            project: clone_label(event.project()),
                            description: clone_label(event.description()),
                            seconds: total,
                        };
                        proof {
                            lemma_totals_update(self.rows@, i as int, row);
                        }
                        self.rows.set(i, row);
                        true
                    },
                    None => false,
                }
            },
            None => {
                let row = Row {
                    project: clone_label(event.project()),
                    description: clone_label(event.description()),
                    seconds,
                };
                proof {
                    lemma_totals_push(self.rows@, row);
                }
                self.rows.push(row);
                true
            },
        }
    }
}

/// A credit for each key of `keys`, of its total in `totals`, to its project
/// alone.
pub open spec fn project_credits(keys: Seq<Key>, totals: Map<Key, int>) -> Seq<Credit> {
    Seq::new(keys.len(), |i: int| Credit { key: (keys[i].0, None), seconds: totals[keys[i]] })
}

impl ProjectMap {
    /// The time spent per project, whatever the description: a map with one
    /// total for each project, under the project without a description.
    /// `None` if the totals of a project do not fit an `i64` on the way.
    pub fn by_project(&self) -> (r: Option<ProjectMap>)
        requires
            self.wf(),
        ensures
            match credit_all(Map::empty(), project_credits(self.order(), self@)) {
                Some(totals) => r matches Some(map) && map.wf() && map@ == totals && map.order()
                    == keys_after(Seq::empty(), project_credits(self.order(), self@)),
                None => r is None,
            },
    {
        let ghost credits = project_credits(self.order(), self@);
        let mut sums = ProjectMap::new();
        let mut i: usize = 0;
        while i < self.rows.len()
            invariant
                i <= self.rows.len(),
                self.wf(),
                sums.wf(),
                credits == project_credits(self.order(), self@),
                credit_all(Map::empty(), credits.take(i as int)) == Some(sums@),
                sums.order() == keys_after(Seq::empty(), credits.take(i as int)),
            decreases self.rows.len() - i,
        {
            proof {
                assert(credits.take(i + 1).drop_last() == credits.take(i as int));
                assert(credits.take(i + 1).last() == credits[i as int]);
            }
            let row = self.row(i);
            let project = Event::Stop(clone_label(&row.project), None);
            if !sums.try_add_event(row.seconds, &project) {
                proof {
                    if credit_all(Map::empty(), credits) is Some {
                        lemma_credit_all_prefix(Map::empty(), credits, i + 1);
                    }
                }
                return None;
            }
            i = i + 1;
        }
        assert(credits.take(i as int) == credits);
        Some(sums)
    }
}

/// A credit for each key of `keys`, of its total in `totals`, to the names
/// under which its project and its description are shown.
pub open spec fn label_credits(keys: Seq<Key>, totals: Map<Key, int>) -> Seq<Credit> {
    Seq::new(
        keys.len(),
        |i: int|
            Credit {
                key: (Some(project_name(keys[i].0)), Some(description_name(keys[i].1))),
                seconds: totals[keys[i]],
            },
    )
}

impl ProjectMap {
    /// The time spent per project and description as they are shown: a
    /// missing project or description goes by its name, and what then goes
    /// by the same names is added up. `None` if such a sum does not fit an
    /// `i64` on the way.
    pub fn by_label(&self) -> (r: Option<ProjectMap>)
        requires
            self.wf(),
        ensures
            match credit_all(Map::empty(), label_credits(self.order(), self@)) {
                Some(totals) => r matches Some(map) && map.wf() && map@ == totals && map.order()
                    == keys_after(Seq::empty(), label_credits(self.order(), self@)),
                None => r is None,
            },
    {
        let ghost credits = label_credits(self.order(), self@);
        let mut sums = ProjectMap::new();
        let mut i: usize = 0;
        while i < self.rows.len()
            invariant
                i <= self.rows.len(),
                self.wf(),
                sums.wf(),
                credits == label_credits(self.order(), self@),
                credit_all(Map::empty(), credits.take(i as int)) == Some(sums@),
                sums.order() == keys_after(Seq::empty(), credits.take(i as int)),
            decreases self.rows.len() - i,
        {
            proof {
                assert(credits.take(i + 1).drop_last() == credits.take(i as int));
                assert(credits.take(i + 1).last() == credits[i as int]);
            }
            let row = self.row(i);
            let project = match &row.project {
                Some(text) => text.clone(),
                None => "Unnamed project".to_string(),
            };
            let description = match &row.description {
                Some(text) => text.clone(),
                None => "No description".to_string(),
            };
            let shown = Event::Stop(Some(project), Some(description));
            if !sums.try_add_event(row.seconds, &shown) {
                proof {
                    if credit_all(Map::empty(), credits) is Some {
                        lemma_credit_all_prefix(Map::empty(), credits, i + 1);
                    }
                }
                return None;
            }
            i = i + 1;
        }
        assert(credits.take(i as int) == credits);
        Some(sums)
    }
}

/// `totals` once every total of the project of `key` has made way for the
/// one total `seconds` under `key`.
pub open spec fn replaced(totals: Map<Key, int>, key: Key, seconds: int) -> Map<Key, int> {
    Map::new(
        |k: Key| k == key || (totals.dom().contains(k) && k.0 != key.0),
        |k: Key|
            if k == key {
                seconds
            } else {
                totals[k]
            },
    )
}

/// The line of a table for one total: the project, the description and the
/// time, with commas between; what is missing is named as such.
pub open spec fn csv_line(key: Key, seconds: int, format: TimeFormat) -> Seq<char> {
    project_name(key.0) + ","@ + description_name(key.1) + ","@ + formatted(format, seconds)
        + "\n"@
}

/// The lines of a table for the totals of `keys`, in their order.
pub open spec fn csv_lines(keys: Seq<Key>, totals: Map<Key, int>, format: TimeFormat) -> Seq<char>
    decreases keys.len(),
{
    if keys.len() == 0 {
        Seq::empty()
    } else {
        csv_lines(keys.drop_last(), totals, format) + csv_line(
            keys.last(),
            totals[keys.last()],
            format,
        )
    }
}

/// The table for the totals of `keys`: a line of headings, then a line for
/// each total.
pub open spec fn csv(keys: Seq<Key>, totals: Map<Key, int>, format: TimeFormat) -> Seq<char> {
    "Project,Description,Time Spent\n"@ + csv_lines(keys, totals, format)
}

/// What can be done to the totals of a `ProjectMap`.
pub trait ProjectMapMethods: Sized {
    /// The totals by key.
    spec fn totals(&self) -> Map<Key, int>;

    /// The keys in the order in which they were first credited.
    spec fn listing(&self) -> Seq<Key>;

    /// Every key has one total.
    spec fn valid(&self) -> bool;

    /// Adds `time` seconds to the total of the key of `event`; a key without
    /// a total gets `time` as its first.
    fn add_event(&mut self, time: &i64, event: &Event)
        requires
            old(self).valid(),
            fits_i64(total_of(old(self).totals(), key_of(event@)) + *time),
        ensures
            final(self).valid(),
            final(self).totals() == credited(old(self).totals(), key_of(event@), *time as int),
            final(self).listing() == ordered(old(self).listing(), key_of(event@)),
    ;

    /// Credits a run of sessions: `events` holds a start, its stop, the next
    /// start, its stop, and so on.
    fn add_events(&mut self, events: &[LogRecord])
        requires
            old(self).valid(),
            credit_all(old(self).totals(), pair_credits(views(events@))) is Some,
        ensures
            final(self).valid(),
            Some(final(self).totals()) == credit_all(
                old(self).totals(),
                pair_credits(views(events@)),
            ),
            final(self).listing() == keys_after(old(self).listing(), pair_credits(views(events@))),
    ;

    /// Gives the project of `event` the one total `time`, under the key of
    /// `event`: whatever the project had before is gone.
    fn add_clean_event(&mut self, time: &i64, event: &Event)
        requires
            old(self).valid(),
        ensures
            final(self).valid(),
            final(self).totals() == replaced(old(self).totals(), key_of(event@), *time as int),
            final(self).listing() == without_project(old(self).listing(), event@.project).push(
                key_of(event@),
            ),
    ;

    /// The totals as a table of comma-separated values, the times shown in
    /// the format `time_format`.
    fn as_csv(&self, time_format: &TimeFormat) -> (r: String)
        requires
            self.valid(),
        ensures
            r@ == csv(self.listing(), self.totals(), *time_format),
    ;
}

impl ProjectMapMethods for ProjectMap {
    open spec fn totals(&self) -> Map<Key, int> {
        self@
    }

    open spec fn listing(&self) -> Seq<Key> {
        self.order()
    }

    open spec fn valid(&self) -> bool {
        self.wf()
    }

    fn add_event(&mut self, time: &i64, event: &Event) {
        let _ = self.try_add_event(*time, event);
    }

    fn add_events(&mut self, events: &[LogRecord]) {
        let ghost credits = pair_credits(views(events@));
        let mut i: usize = 0;
        while i + 1 < events.len()
            invariant
                i % 2 == 0,
                i <= events.len(),
                self.wf(),
                credits == pair_credits(views(events@)),
                credit_all(old(self)@, credits) is Some,
                credit_all(old(self)@, credits.take(i as int / 2)) == Some(self@),
                self.order() == keys_after(old(self).order(), credits.take(i as int / 2)),
            decreases events.len() - i,
        {
            let ghost k = i as int / 2;
            proof {
                lemma_credit_all_prefix(old(self)@, credits, k + 1);
                assert(credits.take(k + 1).drop_last() == credits.take(k));
                assert(credits.take(k + 1).last() == credits[k]);
                assert(views(events@)[2 * k] == events@[2 * k]@);
                assert(views(events@)[2 * k + 1] == events@[2 * k + 1]@);
            }
            let time: i64 = events[i + 1].timestamp - events[i].timestamp;
            self.add_event(&time, &events[i].event);
            i = i + 2;
        }
        assert(credits.take(i as int / 2) == credits);
    }

    fn add_clean_event(&mut self, time: &i64, event: &Event) {
        let ghost before = self.rows@;
        let ghost key = key_of(event@);
        let mut rows: Vec<Row> = Vec::new();
        let mut i: usize = 0;
        while i < self.rows.len()
            invariant
                i <= self.rows.len(),
                self.rows@ == before,
                key == key_of(event@),
                distinct_keys(before),
                distinct_keys(rows@),
                keys_of(rows@) == without_project(keys_of(before).take(i as int), key.0),
                forall|k: Key|
                    has_key(rows@, k) <==> (k.0 != key.0 && has_key(before.take(i as int), k)),
                forall|j: int|
                    0 <= j < rows.len() ==> has_key(before, (#[trigger] rows@[j]).key())
                        && before[position(before, rows@[j].key())].seconds == rows@[j].seconds,
            decreases self.rows.len() - i,
        {
            let ghost kept = rows@;
            let ghost seen = before.take(i as int);
            let ghost next = before.take(i + 1);
            let ghost current = before[i as int];
            assert(next == seen.push(current));
            proof {
                let keys = keys_of(before);
                assert(keys.take(i + 1).drop_last() == keys.take(i as int));
                assert(keys.take(i + 1).last() == current.key());
            }
            assert forall|k: Key| has_key(next, k) <==> (has_key(seen, k) || k == current.key()) by {
                if has_key(seen, k) {
                    let j = position(seen, k);
                    assert(next[j].key() == k);
                }
                if k == current.key() {
                    assert(next[i as int].key() == k);
                }
                if has_key(next, k) {
                    let j = position(next, k);
                    if j < i {
                        assert(seen[j].key() == k);
                    }
                }
            }
            if !same_label(&self.rows[i].project, event.project()) {
                let row = Row {
                    project: clone_label(&self.rows[i].project),
                    description: clone_label(&self.rows[i].description),
                    seconds: self.rows[i].seconds,
                };
                proof {
                    assert(row.key() == current.key());
                    if has_key(kept, row.key()) {
                        let j = position(seen, row.key());
                        assert(before[j].key() == before[i as int].key());
                    }
                    lemma_totals_push(kept, row);
                    assert forall|k: Key| has_key(kept.push(row), k) <==> (has_key(kept, k) || k
                        == row.key()) by {
                        if has_key(kept, k) {
                            let j = position(kept, k);
                            assert(kept.push(row)[j].key() == k);
                        }
                        if k == row.key() {
                            assert(kept.push(row)[kept.len() as int].key() == k);
                        }
                        if has_key(kept.push(row), k) {
                            let j = position(kept.push(row), k);
                            if j < kept.len() {
                                assert(kept[j].key() == k);
                            }
                        }
                    }
                    assert(has_key(before, row.key())) by {
                        assert(before[i as int].key() == row.key());
                    }
                    assert(position(before, row.key()) == i);
                    assert forall|k: Key| #[trigger]
                        has_key(kept.push(row), k) <==> (k.0 != key.0 && has_key(next, k)) by {
                        assert(has_key(kept, k) <==> (k.0 != key.0 && has_key(seen, k)));
                        assert(has_key(next, k) <==> (has_key(seen, k) || k == current.key()));
                    }
                }
                rows.push(row);
            } else {
                proof {
                    assert(current.key().0 == key.0);
                    assert forall|k: Key| #[trigger]
                        has_key(kept, k) <==> (k.0 != key.0 && has_key(next, k)) by {
                        assert(has_key(kept, k) <==> (k.0 != key.0 && has_key(seen, k)));
                        assert(has_key(next, k) <==> (has_key(seen, k) || k == current.key()));
                    }
                }
            }
            i = i + 1;
            assert(before.take(i as int) == next);
        }
        assert(before.take(i as int) == before);
        assert(keys_of(before).take(i as int) == keys_of(before));
        let row = Row {
            project: clone_label(event.project()),
            description: clone_label(event.description()),
            seconds: *time,
        };
        proof {
            assert(row.key() == key);
            lemma_totals_push(rows@, row);
            let target = replaced(totals_of(before), key, *time as int);
            let got = totals_of(rows@).insert(key, *time as int);
            assert forall|k: Key| got.dom().contains(k) implies #[trigger] got[k] == target[k] by {
                if k != key {
                    let j = position(rows@, k);
                    assert(rows@[j].key() == k);
                }
            }
            assert(got =~= target);
        }
        rows.push(row);
        self.rows = rows;
    }

    fn as_csv(&self, time_format: &TimeFormat) -> (r: String) {
        let mut out = String::new();
        out.append("Project,Description,Time Spent\n");
        let mut i: usize = 0;
        while i < self.rows.len()
            invariant
                i <= self.rows.len(),
                self.wf(),
                out@ == csv(self.order().take(i as int), self@, *time_format),
            decreases self.rows.len() - i,
        {
            let ghost before = out@;
            let row = self.row(i);
            match &row.project {
                Some(text) => out.append(text.as_str()),
                None => out.append("Unnamed project"),
            }
            out.append(",");
            match &row.description {
                Some(text) => out.append(text.as_str()),
                None => out.append("No description"),
            }
            out.append(",");
            let time = format_time(time_format, row.seconds);
            out.append(time.as_str());
            out.append("\n");
            proof {
                let keys = self.order();
                assert(out@ =~= before + csv_line(row.key(), row.seconds as int, *time_format));
                assert(keys.take(i + 1).drop_last() == keys.take(i as int));
                assert(keys.take(i + 1).last() == row.key());
                assert(out@ =~= csv(keys.take(i + 1), self@, *time_format));
            }
            i = i + 1;
        }
        assert(self.order().take(i as int) == self.order());
        out
    }
}

} // verus!
