//! The events of the work log and the line that records one.
//!
//! A record is one line of four fields with commas between them:
//! the time in seconds since the epoch, `Start` or `Stop`, the project and the
//! description. A project or description that is missing is written as
//! nothing at all.

use vstd::prelude::*;
use vstd::string::StringExecFns;
use crate::decimal::{
    decimal, decimal_digits, lemma_decimal_digits, lemma_decimal_round_trip, parse_i64,
    push_decimal, read_i64,
};
use crate::text::{
    chars_of, copy_range, find_char, find_from, is_space, is_text, lemma_find_from,
    lemma_trim_keeps, push_char, string_of, trim, trim_range,
};

verus! {

broadcast use vstd::string::group_string_axioms;

/// A project or a description: missing, or some text.
pub type Label = Option<Seq<char>>;

/// What a `Label` is in executable code.
pub open spec fn label_view(label: Option<String>) -> Label {
    match label {
        Some(text) => Some(text@),
        None => None,
    }
}

/// Work begins or ends, on a project and with a description where the user
/// gave them.
#[derive(PartialEq, Eq, Hash, Debug)]
pub enum Event {
    Start(Option<String>, Option<String>),
    Stop(Option<String>, Option<String>),
}

/// An `Event` with its texts as sequences of characters.
pub struct EventView {
    pub start: bool,
    pub project: Label,
    pub description: Label,
}

impl View for Event {
    type V = EventView;

    open spec fn view(&self) -> EventView {
        match self {
            Event::Start(project, description) => EventView {
                start: true,
                project: label_view(*project),
                description: label_view(*description),
            },
            Event::Stop(project, description) => EventView {
                start: false,
                project: label_view(*project),
                description: label_view(*description),
            },
        }
    }
}

/// A copy of `label`.
pub fn clone_label(label: &Option<String>) -> (r: Option<String>)
    ensures
        label_view(r) == label_view(*label),
{
    match label {
        Some(text) => Some(text.clone()),
        None => None,
    }
}

/// Whether two labels are both missing or hold the same text.
pub fn same_label(a: &Option<String>, b: &Option<String>) -> (r: bool)
    ensures
        r == (label_view(*a) == label_view(*b)),
{
    match (a, b) {
        (Some(x), Some(y)) => {
            proof {
                if x@ == y@ {
                } else {
                    assert(label_view(*a)->0 != label_view(*b)->0);
                }
            }
            *x == *y
        },
        (None, None) => true,
        _ => false,
    }
}

impl Clone for Event {
    fn clone(&self) -> (r: Event)
        ensures
            r@ == self@,
    {
        match self {
            Event::Start(project, description) => Event::Start(
                clone_label(project),
                clone_label(description),
            ),
            Event::Stop(project, description) => Event::Stop(
                clone_label(project),
                clone_label(description),
            ),
        }
    }
}

/// The text of a label on a line of the log: nothing for a missing one.
pub open spec fn label_text(label: Label) -> Seq<char> {
    match label {
        Some(text) => text,
        None => Seq::empty(),
    }
}

/// The label that a field of a line stands for: an empty field is a missing
/// label.
pub open spec fn text_label(text: Seq<char>) -> Label {
    if text.len() == 0 {
        None
    } else {
        Some(text)
    }
}

/// The word that a line of the log has for the kind of its event.
pub open spec fn kind_word(start: bool) -> Seq<char> {
    if start {
        "Start"@
    } else {
        "Stop"@
    }
}

/// The name under which a project is shown.
pub open spec fn project_name(label: Label) -> Seq<char> {
    match label {
        Some(text) => text,
        None => "Unnamed project"@,
    }
}

/// The words under which a description is shown.
pub open spec fn description_name(label: Label) -> Seq<char> {
    match label {
        Some(text) => text,
        None => "No description"@,
    }
}

/// An event in one line for the user.
pub open spec fn title(event: EventView) -> Seq<char> {
    match event.description {
        Some(text) => project_name(event.project) + " - "@ + text,
        None => project_name(event.project),
    }
}

/// The four fields of a record, each without the white space around it.
pub struct Fields {
    pub timestamp: Seq<char>,
    pub kind: Seq<char>,
    pub project: Seq<char>,
    pub description: Seq<char>,
}

/// The fields of `line`, if it has exactly three commas.
pub open spec fn fields(line: Seq<char>) -> Option<Fields> {
    let a = find_from(line, ',', 0);
    let b = find_from(line, ',', a + 1);
    let c = find_from(line, ',', b + 1);
    let d = find_from(line, ',', c + 1);
    if c < line.len() && d >= line.len() {
        Some(
            Fields {
                timestamp: trim(line.subrange(0, a)),
                kind: trim(line.subrange(a + 1, b)),
                project: trim(line.subrange(b + 1, c)),
                description: trim(line.subrange(c + 1, line.len() as int)),
            },
        )
    } else {
        None
    }
}

/// The event that `line` records, whatever stands in its first field.
/// A line that does not have four fields, or whose second field is neither
/// `Start` nor `Stop`, records none.
pub open spec fn decode_event(line: Seq<char>) -> Option<EventView> {
    match fields(line) {
        Some(f) => if f.kind == kind_word(true) || f.kind == kind_word(false) {
            Some(
                EventView {
                    start: f.kind == kind_word(true),
                    project: text_label(f.project),
                    description: text_label(f.description),
                },
            )
        } else {
            None
        },
        None => None,
    }
}

/// The line that records `event`, at the time that `timestamp` writes.
pub open spec fn encode_event(timestamp: Seq<char>, event: EventView) -> Seq<char> {
    timestamp + seq![','] + kind_word(event.start) + seq![','] + label_text(event.project)
        + seq![','] + label_text(event.description)
}

/// Where the four fields of a line begin and end, white space left out.
struct FieldBounds {
    timestamp: (usize, usize),
    kind: (usize, usize),
    project: (usize, usize),
    description: (usize, usize),
}

impl FieldBounds {
    /// The bounds lie in `v`, and the text between them is `fields(v)`.
    spec fn marks(self, v: Seq<char>) -> bool {
        &&& self.timestamp.0 <= self.timestamp.1 <= v.len()
        &&& self.kind.0 <= self.kind.1 <= v.len()
        &&& self.project.0 <= self.project.1 <= v.len()
        &&& self.description.0 <= self.description.1 <= v.len()
        &&& fields(v) == Some(
            Fields {
                timestamp: v.subrange(self.timestamp.0 as int, self.timestamp.1 as int),
                kind: v.subrange(self.kind.0 as int, self.kind.1 as int),
                project: v.subrange(self.project.0 as int, self.project.1 as int),
                description: v.subrange(self.description.0 as int, self.description.1 as int),
            },
        )
    }
}

/// Finds the four fields of the line `v`.
fn split_fields(v: &Vec<char>) -> (r: Option<FieldBounds>)
    ensures
        match r {
            Some(bounds) => bounds.marks(v@),
            None => fields(v@) is None,
        },
{
    let n = v.len();
    assert(v@.take(n as int) == v@);
    let a = find_char(v, ',', 0, n);
    if a >= n {
        return None;
    }
    let b = find_char(v, ',', a + 1, n);
    if b >= n {
        return None;
    }
    let c = find_char(v, ',', b + 1, n);
    if c >= n {
        return None;
    }
    let d = find_char(v, ',', c + 1, n);
    if d < n {
        return None;
    }
    Some(
        FieldBounds {
            timestamp: trim_range(v, 0, a),
            kind: trim_range(v, a + 1, b),
            project: trim_range(v, b + 1, c),
            description: trim_range(v, c + 1, n),
        },
    )
}

/// Whether `v[from..to]` is the word for a start (`start`) or for a stop.
fn is_kind_word(v: &Vec<char>, from: usize, to: usize, start: bool) -> (r: bool)
    requires
        from <= to <= v.len(),
    ensures
        r == (v@.subrange(from as int, to as int) == kind_word(start)),
{
    let word = copy_range(v, from, to);
    if start {
        is_text(&word, "Start")
    } else {
        is_text(&word, "Stop")
    }
}

/// The label that `v[from..to]` stands for.
fn label_of(v: &Vec<char>, from: usize, to: usize) -> (r: Option<String>)
    requires
        from <= to <= v.len(),
    ensures
        label_view(r) == text_label(v@.subrange(from as int, to as int)),
{
    if from == to {
        None
    } else {
        Some(string_of(v, from, to))
    }
}

impl Event {
    /// Whether work begins with this event.
    pub fn is_start(&self) -> (r: bool)
        ensures
            r == self@.start,
    {
        match self {
            Event::Start(_, _) => true,
            Event::Stop(_, _) => false,
        }
    }

    /// The project, if the event names one.
    pub fn project(&self) -> (r: &Option<String>)
        ensures
            label_view(*r) == self@.project,
    {
        match self {
            Event::Start(project, _) => project,
            Event::Stop(project, _) => project,
        }
    }

    /// The description, if the event has one.
    pub fn description(&self) -> (r: &Option<String>)
        ensures
            label_view(*r) == self@.description,
    {
        match self {
            Event::Start(_, description) => description,
            Event::Stop(_, description) => description,
        }
    }

    /// The event with the fields that `bounds` marks in the line `v`.
    fn from_fields(v: &Vec<char>, bounds: &FieldBounds) -> (r: Option<Event>)
        requires
            bounds.marks(v@),
        ensures
            match r {
                Some(event) => decode_event(v@) == Some(event@),
                None => decode_event(v@) is None,
            },
    {
        let project = label_of(v, bounds.project.0, bounds.project.1);
        let description = label_of(v, bounds.description.0, bounds.description.1);
        if is_kind_word(v, bounds.kind.0, bounds.kind.1, true) {
            Some(Event::Start(project, description))
        } else if is_kind_word(v, bounds.kind.0, bounds.kind.1, false) {
            proof {
                reveal_strlit("Start");
                reveal_strlit("Stop");
                assert("Start"@.len() != "Stop"@.len());
            }
            Some(Event::Stop(project, description))
        } else {
            None
        }
    }

    /// Reads the event of one line of the log. The first field, the time, is
    /// not looked at.
    pub fn from_line(line: &str) -> (r: Option<Event>)
        ensures
            match r {
                Some(event) => decode_event(line@) == Some(event@),
                None => decode_event(line@) is None,
            },
    {
        let v = chars_of(line);
        match split_fields(&v) {
            Some(bounds) => Event::from_fields(&v, &bounds),
            None => None,
        }
    }

    /// The project by name: a missing one is the unnamed project.
    pub fn to_project(&self) -> (r: String)
        ensures
            r@ == project_name(self@.project),
    {
        match self.project() {
            Some(text) => text.clone(),
            None => "Unnamed project".to_string(),
        }
    }

    /// The description in words, also where there is none.
    pub fn to_description(&self) -> (r: String)
        ensures
            r@ == description_name(self@.description),
    {
        match self.description() {
            Some(text) => text.clone(),
            None => "No description".to_string(),
        }
    }

    /// The event for the user to read: the project, then the description
    /// if there is one.
    pub fn to_string(&self) -> (r: String)
        ensures
            r@ == title(self@),
    {
        let mut out = self.to_project();
        match self.description() {
            Some(text) => {
                out.append(" - ");
                out.append(text.as_str());
            },
            None => {},
        }
        out
    }

    /// Appends to `out` what a line of the log holds after the time: the
    /// kind, the project and the description, a comma before each.
    fn push_fields(&self, out: &mut String)
        ensures
            final(out)@ == encode_event(old(out)@, self@),
    {
        push_char(out, ',');
        if self.is_start() {
            out.append("Start");
        } else {
            out.append("Stop");
        }
        push_char(out, ',');
        match self.project() {
            Some(text) => {
                out.append(text.as_str());
            },
            None => {},
        }
        push_char(out, ',');
        match self.description() {
            Some(text) => {
                out.append(text.as_str());
            },
            None => {},
        }
        assert(out@ =~= encode_event(old(out)@, self@));
    }
}

/// One record of the log: an event and the time at which it happened, in
/// seconds since the epoch.
#[derive(PartialEq, Eq, Debug)]
pub struct LogRecord {
    pub timestamp: i64,
    pub event: Event,
}

/// A `LogRecord` with its texts as sequences of characters.
pub struct RecordView {
    pub timestamp: int,
    pub event: EventView,
}

impl View for LogRecord {
    type V = RecordView;

    open spec fn view(&self) -> RecordView {
        RecordView { timestamp: self.timestamp as int, event: self.event@ }
    }
}

/// The records of `records` with their texts as sequences of characters.
pub open spec fn views(records: Seq<LogRecord>) -> Seq<RecordView> {
    Seq::new(records.len(), |i: int| records[i]@)
}

/// The record that `line` holds: its event, at the time that its first field
/// writes as an `i64`. Any other line holds none.
pub open spec fn decode(line: Seq<char>) -> Option<RecordView> {
    match (fields(line), decode_event(line)) {
        (Some(f), Some(event)) => match parse_i64(f.timestamp) {
            Some(timestamp) => Some(RecordView { timestamp: timestamp as int, event }),
            None => None,
        },
        _ => None,
    }
}

/// The line that holds `record`.
pub open spec fn encode(record: RecordView) -> Seq<char> {
    encode_event(decimal(record.timestamp), record.event)
}

impl Clone for LogRecord {
    fn clone(&self) -> (r: LogRecord)
        ensures
            r@ == self@,
    {
        LogRecord { timestamp: self.timestamp, event: self.event.clone() }
    }
}

impl LogRecord {
    /// Reads one line of the log.
    pub fn from_line(line: &str) -> (r: Option<LogRecord>)
        ensures
            match r {
                Some(record) => decode(line@) == Some(record@),
                None => decode(line@) is None,
            },
    {
        let v = chars_of(line);
        match split_fields(&v) {
            Some(bounds) => {
                let timestamp = read_i64(&v, bounds.timestamp.0, bounds.timestamp.1);
                let event = Event::from_fields(&v, &bounds);
                match (timestamp, event) {
                    (Some(timestamp), Some(event)) => Some(LogRecord { timestamp, event }),
                    _ => None,
                }
            },
            None => None,
        }
    }

    /// The line of the log that holds this record.
    pub fn to_line(&self) -> (r: String)
        ensures
            r@ == encode(self@),
    {
        let mut out = String::new();
        push_decimal(&mut out, self.timestamp);
        self.event.push_fields(&mut out);
        out
    }
}

/// A text that can stand in a field of a record and be read back: it has no
/// comma, and no white space at either end.
pub open spec fn plain(text: Seq<char>) -> bool {
    &&& forall|i: int| 0 <= i < text.len() ==> text[i] != ','
    &&& text.len() == 0 || (!is_space(text.first()) && !is_space(text.last()))
}

/// A label that can be written to the log and read back: missing, or a
/// plain text that is not empty.
pub open spec fn plain_label(label: Label) -> bool {
    match label {
        Some(text) => text.len() > 0 && plain(text),
        None => true,
    }
}

/// The line of an event holds the four fields that went into it.
pub proof fn lemma_fields_of_encoded(timestamp: Seq<char>, event: EventView)
    requires
        plain(timestamp),
        plain_label(event.project),
        plain_label(event.description),
    ensures
        fields(encode_event(timestamp, event)) == Some(
            Fields {
                timestamp,
                kind: kind_word(event.start),
                project: label_text(event.project),
                description: label_text(event.description),
            },
        ),
{
    reveal_strlit("Start");
    reveal_strlit("Stop");
    let word = kind_word(event.start);
    let project = label_text(event.project);
    let description = label_text(event.description);
    let line = encode_event(timestamp, event);
    let a = timestamp.len() as int;
    let b = a + 1 + word.len();
    let c = b + 1 + project.len();
    let n = line.len() as int;
    assert(n == c + 1 + description.len());
    assert(line[a] == ',' && line[b] == ',' && line[c] == ',');
    assert forall|j: int| 0 <= j < a implies line[j] != ',' by {
        assert(line[j] == timestamp[j]);
    }
    assert forall|j: int| a + 1 <= j < b implies line[j] != ',' by {
        assert(line[j] == word[j - a - 1]);
    }
    assert forall|j: int| b + 1 <= j < c implies line[j] != ',' by {
        assert(line[j] == project[j - b - 1]);
    }
    assert forall|j: int| c + 1 <= j < n implies line[j] != ',' by {
        assert(line[j] == description[j - c - 1]);
    }
    lemma_find_from(line, ',', 0, a);
    lemma_find_from(line, ',', a + 1, b);
    lemma_find_from(line, ',', b + 1, c);
    lemma_find_from(line, ',', c + 1, n);
    assert(line.subrange(0, a) == timestamp);
    assert(line.subrange(a + 1, b) == word);
    assert(line.subrange(b + 1, c) == project);
    assert(line.subrange(c + 1, n) == description);
    lemma_trim_keeps(timestamp);
    lemma_trim_keeps(word);
    lemma_trim_keeps(project);
    lemma_trim_keeps(description);
}

/// An event that is written to a line and read back is the same event:
/// whether it is a start or a stop, with or without a project, with or
/// without a description, as long as the texts are plain.
pub proof fn lemma_event_round_trip(timestamp: Seq<char>, event: EventView)
    requires
        plain(timestamp),
        plain_label(event.project),
        plain_label(event.description),
    ensures
        decode_event(encode_event(timestamp, event)) == Some(event),
{
    reveal_strlit("Start");
    reveal_strlit("Stop");
    lemma_fields_of_encoded(timestamp, event);
    assert("Start"@.len() != "Stop"@.len());
}

/// A record that is written to a line and read back is the same record, for
/// every time that an `i64` holds and all plain texts.
pub proof fn lemma_record_round_trip(record: RecordView)
    requires
        i64::MIN <= record.timestamp <= i64::MAX,
        plain_label(record.event.project),
        plain_label(record.event.description),
    ensures
        decode(encode(record)) == Some(record),
{
    let timestamp = decimal(record.timestamp);
    lemma_decimal_round_trip(record.timestamp);
    assert(plain(timestamp)) by {
        if record.timestamp < 0 {
            let digits = decimal_digits((-record.timestamp) as nat);
            lemma_decimal_digits((-record.timestamp) as nat);
            assert forall|i: int| 0 <= i < timestamp.len() implies timestamp[i] != ',' by {
                if i > 0 {
                    assert(timestamp[i] == digits[i - 1]);
                }
            }
            assert(timestamp.last() == digits.last());
        } else {
            lemma_decimal_digits(record.timestamp as nat);
        }
    }
    lemma_fields_of_encoded(timestamp, record.event);
    lemma_event_round_trip(timestamp, record.event);
}

} // verus!
