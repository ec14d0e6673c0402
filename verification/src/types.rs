//! Identifiers and value types shared across the controller, and the small
//! conversions on them: timestamps as plain nanoseconds since the Unix epoch,
//! dataflow signals, user-facing errors, change-capture records, task
//! descriptors, and the hash-range assignment of keys to servers.

use crate::find_first;
use vstd::prelude::*;
use vstd::string::StrSliceExecFns;

verus! {

broadcast use vstd::std_specs::hash::group_hash_axioms;

/// Opaque identifier of one worker process.
#[derive(Debug, Hash, Eq, PartialEq, Copy, Clone, Structural)]
pub struct WorkerId(pub u64);

/// Opaque identifier of one machine.
#[derive(Debug, Hash, Eq, PartialEq, Clone)]
pub struct MachineId(pub std::sync::Arc<String>);

/// An instant as nanoseconds since the Unix epoch. The controller never
/// reads a clock itself; its callers pass instants in.
#[derive(Debug, Hash, Eq, PartialEq, Copy, Clone, Structural, PartialOrd, Ord)]
pub struct UnixNanos {
    pub nanos: u128,
}

/// Milliseconds since the epoch, truncated to 64 bits.
pub fn to_millis(time: UnixNanos) -> (r: u64)
    ensures
        r == (time.nanos / 1_000_000) % 0x1_0000_0000_0000_0000,
{
    ((time.nanos / 1_000_000) % 0x1_0000_0000_0000_0000) as u64
}

/// Microseconds since the epoch, truncated to 64 bits.
pub fn to_micros(time: UnixNanos) -> (r: u64)
    ensures
        r == (time.nanos / 1_000) % 0x1_0000_0000_0000_0000,
{
    ((time.nanos / 1_000) % 0x1_0000_0000_0000_0000) as u64
}

/// The instant a count of milliseconds since the epoch denotes.
pub fn from_millis(ts: u64) -> (r: UnixNanos)
    ensures
        r.nanos == ts * 1_000_000,
{
    UnixNanos { nanos: (ts as u128) * 1_000_000 }
}

/// The instant a count of microseconds since the epoch denotes.
pub fn from_micros(ts: u64) -> (r: UnixNanos)
    ensures
        r.nanos == ts * 1_000,
{
    UnixNanos { nanos: (ts as u128) * 1_000 }
}

/// Nanoseconds since the epoch.
pub fn to_nanos(time: UnixNanos) -> (r: u128)
    ensures
        r == time.nanos,
{
    time.nanos
}

/// The instant a count of nanoseconds since the epoch denotes. The whole
/// seconds are truncated to 64 bits, mirroring how such an instant is
/// rebuilt from a seconds-and-remainder pair.
pub fn from_nanos(ts: u128) -> (r: UnixNanos)
    ensures
        r.nanos == ((ts / 1_000_000_000) % 0x1_0000_0000_0000_0000) * 1_000_000_000 + ts
            % 1_000_000_000,
{
    let secs = ((ts / 1_000_000_000) % 0x1_0000_0000_0000_0000) as u64;
    proof {
        assert((secs as u128) * 1_000_000_000 + ts % 1_000_000_000 <= u128::MAX) by (nonlinear_arith)
            requires
                secs < 0x1_0000_0000_0000_0000,
        ;
    }
    UnixNanos { nanos: (secs as u128) * 1_000_000_000 + ts % 1_000_000_000 }
}

/// Whole days since the epoch, as the store's signed 32-bit day count; the
/// seconds are truncated to 64 bits first and the day count to 32.
pub fn days_since_epoch(time: UnixNanos) -> (r: i32)
    ensures
        ({
            let days = ((time.nanos / 1_000_000_000) % 0x1_0000_0000_0000_0000) / 86400
                % 0x1_0000_0000;
            r == if days < 0x8000_0000 {
                days as int
            } else {
                days - 0x1_0000_0000
            }
        }),
{
    let secs = ((time.nanos / 1_000_000_000) % 0x1_0000_0000_0000_0000) as u64;
    let days = (secs / 86400) % 0x1_0000_0000;
    if days < 0x8000_0000 {
        days as i32
    } else {
        ((days as i128) - 0x1_0000_0000) as i32
    }
}

/// The text chrono renders for an instant: a function of the instant alone.
pub uninterp spec fn time_display(nanos: u128) -> Seq<char>;

/// The latest instant the text rendering is defined for: the last
/// nanosecond of the last calendar year the formatter can represent.
pub const MAX_PRINTABLE_NANOS: u128 = 8_210_266_876_799_999_999_999;

/// Relies on chrono's UTC calendar formatting of a timestamp: the rendered
/// text depends on the instant alone.
#[verifier::external_body]
pub fn print_time(time: UnixNanos) -> (r: String)
    requires
        time.nanos <= MAX_PRINTABLE_NANOS,
    ensures
        r@ == time_display(time.nanos),
{
    let secs = (time.nanos / 1_000_000_000) as u64;
    let sub = (time.nanos % 1_000_000_000) as u32;
    let st = std::time::UNIX_EPOCH + std::time::Duration::new(secs, sub);
    chrono::DateTime::<chrono::Utc>::from(st).format("%Y-%m-%d %H:%M:%S%.3f").to_string()
}

/// Relies on `Arc::as_ref` of std: a borrow of the shared string.
#[verifier::external_body]
fn arc_str_value(v: &std::sync::Arc<String>) -> (r: &String)
    ensures
        r@ == (**v)@,
{
    v.as_ref()
}

/// Relies on the standard clone of an inclusive range.
pub assume_specification<Idx: Clone>[ <std::ops::RangeInclusive<Idx> as Clone>::clone ](
    r: &std::ops::RangeInclusive<Idx>,
) -> (res: std::ops::RangeInclusive<Idx>);

impl MachineId {
    /// The identifier as text.
    pub fn to_string(&self) -> (r: String)
        ensures
            r@ == (*self.0)@,
    {
        arc_str_value(&self.0).clone()
    }
}

/// A map holding exactly the one given entry.
pub fn single_item_hash_map<I: Into<K>, K: core::hash::Hash + Eq, V>(key: I, value: V) -> (m:
    std::collections::HashMap<K, V>)
    ensures
        (<I as vstd::std_specs::convert::IntoSpec<K>>::obeys_into_spec()
            && vstd::std_specs::hash::obeys_key_model::<K>()) ==> m@ == Map::<K, V>::empty()
            .insert(<I as vstd::std_specs::convert::IntoSpec<K>>::into_spec(key), value),
{
    let mut map = std::collections::HashMap::new();
    map.insert(key.into(), value);
    map
}

/// Keys of the dataflow: hashable owned values.
pub trait Key: core::fmt::Debug + Clone + core::hash::Hash + PartialEq + Eq + Send + 'static {

}

impl<T: core::fmt::Debug + Clone + core::hash::Hash + PartialEq + Eq + Send + 'static> Key for T {

}

/// Records of the dataflow: owned values.
pub trait Data: core::fmt::Debug + Clone + Send + 'static {

}

impl<T: core::fmt::Debug + Clone + Send + 'static> Data for T {

}

/// A watermark carried through the dataflow.
#[derive(Debug, Copy, Clone, PartialEq, Eq, Structural)]
pub enum Watermark {
    EventTime(UnixNanos),
    Idle,
}

/// A checkpoint barrier as it flows through the dataflow.
#[derive(Debug, Copy, Clone, PartialEq, Eq, Structural)]
pub struct CheckpointBarrier {
    pub epoch: u32,
    pub min_epoch: u32,
    pub timestamp: UnixNanos,
    pub then_stop: bool,
}

/// An in-band control signal.
#[derive(Debug, Clone, Copy, PartialEq, Eq, Structural)]
pub enum SignalMessage {
    Barrier(CheckpointBarrier),
    Watermark(Watermark),
    Stop,
    EndOfData,
}

impl SignalMessage {
    /// Whether the signal ends the stream.
    pub fn is_end(&self) -> (r: bool)
        ensures
            r == (self is Stop || self is EndOfData),
    {
        match self {
            SignalMessage::Stop => true,
            SignalMessage::EndOfData => true,
            _ => false,
        }
    }
}

/// An error surfaced to the job's owner.
#[derive(Debug, Clone, PartialEq, Eq)]
pub struct UserError {
    pub name: String,
    pub details: String,
}

impl UserError {
    /// An error with the given headline and details.
    pub fn new<N: Into<String>, D: Into<String>>(name: N, details: D) -> (r: UserError)
        ensures
            <N as vstd::std_specs::convert::IntoSpec<String>>::obeys_into_spec() ==> r.name
                == <N as vstd::std_specs::convert::IntoSpec<String>>::into_spec(name),
            <D as vstd::std_specs::convert::IntoSpec<String>>::obeys_into_spec() ==> r.details
                == <D as vstd::std_specs::convert::IntoSpec<String>>::into_spec(details),
    {
        UserError { name: name.into(), details: details.into() }
    }
}

/// An error a source reports: bad input data, or anything else.
#[derive(Debug, Clone, PartialEq, Eq)]
pub enum SourceError {
    BadData { details: String },
    Other { name: String, details: String },
}

impl SourceError {
    /// A bad-data error with the given details.
    pub fn bad_data<D: Into<String>>(details: D) -> (r: SourceError)
        ensures
            r is BadData,
            <D as vstd::std_specs::convert::IntoSpec<String>>::obeys_into_spec() ==> (r matches
                SourceError::BadData { details: d } && d == <D as vstd::std_specs::convert::IntoSpec<
                String,
            >>::into_spec(details)),
    {
        SourceError::BadData { details: details.into() }
    }

    /// Any other source error.
    pub fn other<N: Into<String>, D: Into<String>>(name: N, details: D) -> (r: SourceError)
        ensures
            r is Other,
            (<N as vstd::std_specs::convert::IntoSpec<String>>::obeys_into_spec()
                && <D as vstd::std_specs::convert::IntoSpec<String>>::obeys_into_spec()) ==> (r
                matches SourceError::Other { name: n, details: d } && n == <N as vstd::std_specs::convert::IntoSpec<
                String,
            >>::into_spec(name) && d == <D as vstd::std_specs::convert::IntoSpec<
                String,
            >>::into_spec(details)),
    {
        SourceError::Other { name: name.into(), details: details.into() }
    }

    /// The error's details, whichever kind it is.
    pub fn details(&self) -> (r: &String)
        ensures
            r@ == (match self {
                SourceError::BadData { details } => details@,
                SourceError::Other { details, .. } => details@,
            }),
    {
        match self {
            SourceError::BadData { details } => details,
            SourceError::Other { details, .. } => details,
        }
    }
}

/// A change-capture record: a retraction, an update, or an append.
#[derive(Debug, Clone, PartialEq)]
pub enum UpdatingData<T: Data> {
    Retract(T),
    Update { before: T, after: T },
    Append(T),
}

impl<T: Data> UpdatingData<T> {
    /// The plain record an update or append carries. Retractions carry no
    /// such record.
    pub fn lower(&self) -> (r: T)
        requires
            !(self is Retract),
        ensures
            match self {
                UpdatingData::Update { after, .. } => vstd::pervasive::cloned(*after, r),
                UpdatingData::Append(t) => vstd::pervasive::cloned(*t, r),
                UpdatingData::Retract(_) => false,
            },
    {
        match self {
            UpdatingData::Retract(_) => unreached(),
            UpdatingData::Update { after, .. } => after.clone(),
            UpdatingData::Append(t) => t.clone(),
        }
    }

    /// The appended record; only appends carry one.
    pub fn unwrap_append(&self) -> (r: &T)
        requires
            self is Append,
        ensures
            self matches UpdatingData::Append(t) && r == t,
    {
        match self {
            UpdatingData::Append(t) => t,
            _ => unreached(),
        }
    }
}

/// How a change-capture source describes one row change.
#[derive(Copy, Clone, Debug, PartialEq, Eq, Structural)]
pub enum DebeziumOp {
    Create,
    Update,
    Delete,
}

impl DebeziumOp {
    /// The single-character code each operation serializes to.
    pub open spec fn spec_code(self) -> Seq<char> {
        match self {
            DebeziumOp::Create => "c"@,
            DebeziumOp::Update => "u"@,
            DebeziumOp::Delete => "d"@,
        }
    }

    /// The operation's single-character code.
    pub fn to_string(&self) -> (r: String)
        ensures
            r@ == self.spec_code(),
    {
        match self {
            DebeziumOp::Create => String::from_str("c"),
            DebeziumOp::Update => String::from_str("u"),
            DebeziumOp::Delete => String::from_str("d"),
        }
    }

    /// The operation a stored code denotes, if any. A snapshot-read code is
    /// treated as a creation.
    pub open spec fn spec_parse(code: Seq<char>) -> Option<DebeziumOp> {
        if code == "c"@ || code == "r"@ {
            Some(DebeziumOp::Create)
        } else if code == "u"@ {
            Some(DebeziumOp::Update)
        } else if code == "d"@ {
            Some(DebeziumOp::Delete)
        } else {
            None
        }
    }

    /// Parse a stored operation code.
    pub fn parse(code: &String) -> (r: Option<DebeziumOp>)
        ensures
            r == Self::spec_parse(code@),
    {
        if code.eq(&String::from_str("c")) || code.eq(&String::from_str("r")) {
            Some(DebeziumOp::Create)
        } else if code.eq(&String::from_str("u")) {
            Some(DebeziumOp::Update)
        } else if code.eq(&String::from_str("d")) {
            Some(DebeziumOp::Delete)
        } else {
            None
        }
    }
}

/// A change-capture envelope whose field shape has been validated.
#[derive(Clone, Debug, PartialEq)]
pub struct Debezium<T: Data> {
    pub before: Option<T>,
    pub after: Option<T>,
    pub op: DebeziumOp,
}

/// A change-capture envelope as decoded, before validation.
#[derive(Clone, Debug, PartialEq)]
pub struct DebeziumShadow<T: Data> {
    pub before: Option<T>,
    pub after: Option<T>,
    pub op: DebeziumOp,
}

impl<T: Data> Debezium<T> {
    /// Validate a decoded envelope: a creation must carry `after`, an update
    /// must carry both sides, and a deletion must carry `before`.
    pub fn try_from(value: DebeziumShadow<T>) -> (r: Result<Debezium<T>, &'static str>)
        ensures
            match r {
                Ok(d) => {
                    &&& d.before == value.before
                    &&& d.after == value.after
                    &&& d.op == value.op
                    &&& value.op is Create ==> value.after is Some
                    &&& value.op is Update ==> value.before is Some && value.after is Some
                    &&& value.op is Delete ==> value.before is Some
                },
                Err(m) => {
                    ||| value.op is Create && value.after is None
                    ||| value.op is Update && (value.before is None || value.after is None)
                    ||| value.op is Delete && value.before is None
                },
            },
    {
        match (value.op, &value.before, &value.after) {
            (DebeziumOp::Create, _, None) => Err(
                "`after` must be set for Debezium create messages",
            ),
            (DebeziumOp::Update, None, _) => Err(
                "`before` must be set for Debezium update messages; for Postgres you may need to set REPLICA IDENTIFY FULL on your database",
            ),
            (DebeziumOp::Update, _, None) => Err(
                "`after` must be set for Debezium update messages",
            ),
            (DebeziumOp::Delete, None, _) => Err(
                "`before` must be set for Debezium delete messages",
            ),
            _ => Ok(Debezium { before: value.before, after: value.after, op: value.op }),
        }
    }
}

/// How two streams are joined.
#[derive(Copy, Clone, Debug, PartialEq, Eq, Structural)]
pub enum JoinType {
    /// Inner Join
    Inner,
    /// Left Join
    Left,
    /// Right Join
    Right,
    /// Full Join
    Full,
}

/// What one subtask needs to know about itself.
#[derive(Eq, PartialEq, Hash, Debug, Clone)]
pub struct TaskInfo {
    pub job_id: String,
    pub node_id: u32,
    pub operator_name: String,
    pub operator_id: String,
    pub task_index: u32,
    pub parallelism: u32,
    pub key_range: std::ops::RangeInclusive<u64>,
}

impl TaskInfo {
    /// A single-subtask descriptor for tests.
    pub fn for_test(job_id: &str, operator_id: &str) -> (r: Self)
        ensures
            r.job_id@ == job_id@,
            r.node_id == 1,
            r.operator_name@ == "op"@,
            r.operator_id@ == operator_id@,
            r.task_index == 0,
            r.parallelism == 1,
            r.key_range@.start == 0 && r.key_range@.end == u64::MAX,
    {
        TaskInfo {
            job_id: job_id.to_owned(),
            node_id: 1,
            operator_name: String::from_str("op"),
            operator_id: operator_id.to_owned(),
            task_index: 0,
            parallelism: 1,
            key_range: std::ops::RangeInclusive::new(0, u64::MAX),
        }
    }
}

/// A fixed descriptor for tests.
pub fn get_test_task_info() -> (r: TaskInfo)
    ensures
        r.job_id@ == "instance-1"@,
        r.node_id == 1,
        r.operator_name@ == "test-operator"@,
        r.operator_id@ == "test-operator-1"@,
        r.task_index == 0,
        r.parallelism == 1,
        r.key_range@.start == 0 && r.key_range@.end == u64::MAX,
{
    TaskInfo {
        job_id: String::from_str("instance-1"),
        node_id: 1,
        operator_name: String::from_str("test-operator"),
        operator_id: String::from_str("test-operator-1"),
        task_index: 0,
        parallelism: 1,
        key_range: std::ops::RangeInclusive::new(0, u64::MAX),
    }
}

/// What one chained task needs to know about itself.
#[derive(Eq, PartialEq, Hash, Debug, Clone)]
pub struct ChainInfo {
    pub job_id: String,
    pub node_id: u32,
    pub description: String,
    pub task_index: u32,
}

impl ChainInfo {
    /// The metric labels identifying this chain: its node, its subtask index
    /// and its description.
    pub fn metric_label_map(&self) -> (m: std::collections::HashMap<String, String>)
        ensures
            vstd::std_specs::hash::obeys_key_model::<String>() ==> {
                &&& m@.len() <= 3
                &&& exists|k: String| #[trigger] m@.contains_key(k) && k@ == "node_id"@
                &&& exists|k: String| #[trigger] m@.contains_key(k) && k@ == "subtask_idx"@
                &&& exists|k: String|
                    #[trigger] m@.contains_key(k) && k@ == "node_description"@ && m@[k]@
                        == self.description@
            },
    {
        let mut labels = std::collections::HashMap::new();
        let node_key = String::from_str("node_id");
        let ghost nk = node_key;
        labels.insert(node_key, self.node_id.to_string());
        let subtask_key = String::from_str("subtask_idx");
        let ghost sk = subtask_key;
        labels.insert(subtask_key, self.task_index.to_string());
        let description_key = String::from_str("node_description");
        let ghost dk = description_key;
        labels.insert(description_key, self.description.clone());
        proof {
            if vstd::std_specs::hash::obeys_key_model::<String>() {
                reveal_strlit("node_id");
                reveal_strlit("subtask_idx");
                reveal_strlit("node_description");
                assert(nk@ != sk@ && nk@ != dk@ && sk@ != dk@) by {
                    assert(nk@.len() != sk@.len() && nk@.len() != dk@.len() && sk@.len()
                        != dk@.len());
                }
                assert(labels@.contains_key(nk) && nk@ == "node_id"@);
                assert(labels@.contains_key(sk) && sk@ == "subtask_idx"@);
                assert(labels@.contains_key(dk) && labels@[dk]@ == self.description@);
            }
        }
        labels
    }
}

/// The key type of globally keyed state.
#[derive(Copy, Clone, Debug, Hash, PartialEq, Eq, Structural)]
pub struct GlobalKey {}

/// One tick of the impulse source.
#[derive(Debug, Copy, Clone, Eq, PartialEq, Structural)]
pub struct ImpulseEvent {
    pub counter: u64,
    pub subtask_index: u64,
}

/// A record that is carried as raw serialized text.
#[derive(Debug, Clone, Eq, PartialEq)]
pub struct RawJson {
    pub value: String,
}

/// The lower-cased form of a text, as the standard library computes it: a
/// function of the characters alone.
pub uninterp spec fn lower_of(s: Seq<char>) -> Seq<char>;

/// Relies on `str::to_lowercase`: the result depends on the characters
/// alone, and an empty text stays empty.
#[verifier::external_body]
fn lowercase(s: &str) -> (r: String)
    ensures
        r@ == lower_of(s@),
        s@.len() == 0 ==> r@.len() == 0,
{
    s.to_lowercase()
}

/// A component of a date, as named in queries.
#[allow(missing_docs)]
#[derive(Debug, Clone, Copy, Eq, PartialEq, Hash, Structural)]
pub enum DatePart {
    Year,
    Month,
    Week,
    Day,
    Hour,
    Minute,
    Second,
    Millisecond,
    Microsecond,
    Nanosecond,
    DayOfWeek,
    DayOfYear,
}

impl DatePart {
    /// The date part a name denotes, compared without regard to case.
    pub open spec fn spec_parse(name: Seq<char>) -> Option<DatePart> {
        let lowered = lower_of(name);
        if lowered == "year"@ {
            Some(DatePart::Year)
        } else if lowered == "month"@ {
            Some(DatePart::Month)
        } else if lowered == "week"@ {
            Some(DatePart::Week)
        } else if lowered == "day"@ {
            Some(DatePart::Day)
        } else if lowered == "hour"@ {
            Some(DatePart::Hour)
        } else if lowered == "minute"@ {
            Some(DatePart::Minute)
        } else if lowered == "second"@ {
            Some(DatePart::Second)
        } else if lowered == "millisecond"@ {
            Some(DatePart::Millisecond)
        } else if lowered == "microsecond"@ {
            Some(DatePart::Microsecond)
        } else if lowered == "nanosecond"@ {
            Some(DatePart::Nanosecond)
        } else if lowered == "dow"@ {
            Some(DatePart::DayOfWeek)
        } else if lowered == "doy"@ {
            Some(DatePart::DayOfYear)
        } else {
            None
        }
    }

    /// Parse a date-part name, without regard to case. An unknown name is
    /// rejected, quoted in the error.
    pub fn try_from(value: &str) -> (r: Result<DatePart, String>)
        ensures
            match Self::spec_parse(value@) {
                Some(p) => r == Ok::<DatePart, String>(p),
                None => r matches Err(m) && m@ == "'"@ + value@ + "' is not a valid DatePart"@,
            },
    {
        let value_lower = lowercase(value);
        if value_lower.eq(&String::from_str("year")) {
            Ok(DatePart::Year)
        } else if value_lower.eq(&String::from_str("month")) {
            Ok(DatePart::Month)
        } else if value_lower.eq(&String::from_str("week")) {
            Ok(DatePart::Week)
        } else if value_lower.eq(&String::from_str("day")) {
            Ok(DatePart::Day)
        } else if value_lower.eq(&String::from_str("hour")) {
            Ok(DatePart::Hour)
        } else if value_lower.eq(&String::from_str("minute")) {
            Ok(DatePart::Minute)
        } else if value_lower.eq(&String::from_str("second")) {
            Ok(DatePart::Second)
        } else if value_lower.eq(&String::from_str("millisecond")) {
            Ok(DatePart::Millisecond)
        } else if value_lower.eq(&String::from_str("microsecond")) {
            Ok(DatePart::Microsecond)
        } else if value_lower.eq(&String::from_str("nanosecond")) {
            Ok(DatePart::Nanosecond)
        } else if value_lower.eq(&String::from_str("dow")) {
            Ok(DatePart::DayOfWeek)
        } else if value_lower.eq(&String::from_str("doy")) {
            Ok(DatePart::DayOfYear)
        } else {
            let mut message = String::from_str("'");
            message.append(value);
            message.append("' is not a valid DatePart");
            Err(message)
        }
    }
}

/// A precision dates are truncated to, as named in queries.
#[allow(missing_docs)]
#[derive(Clone, Copy, Debug, Eq, PartialEq, Hash, Structural)]
pub enum DateTruncPrecision {
    Year,
    Quarter,
    Month,
    Week,
    Day,
    Hour,
    Minute,
    Second,
}

impl DateTruncPrecision {
    /// The truncation precision a name denotes, compared without regard to
    /// case.
    pub open spec fn spec_parse(name: Seq<char>) -> Option<DateTruncPrecision> {
        let lowered = lower_of(name);
        if lowered == "year"@ {
            Some(DateTruncPrecision::Year)
        } else if lowered == "quarter"@ {
            Some(DateTruncPrecision::Quarter)
        } else if lowered == "month"@ {
            Some(DateTruncPrecision::Month)
        } else if lowered == "week"@ {
            Some(DateTruncPrecision::Week)
        } else if lowered == "day"@ {
            Some(DateTruncPrecision::Day)
        } else if lowered == "hour"@ {
            Some(DateTruncPrecision::Hour)
        } else if lowered == "minute"@ {
            Some(DateTruncPrecision::Minute)
        } else if lowered == "second"@ {
            Some(DateTruncPrecision::Second)
        } else {
            None
        }
    }

    /// Parse a truncation-precision name, without regard to case. An unknown
    /// name is rejected, quoted in the error.
    pub fn try_from(value: &str) -> (r: Result<DateTruncPrecision, String>)
        ensures
            match Self::spec_parse(value@) {
                Some(p) => r == Ok::<DateTruncPrecision, String>(p),
                None => r matches Err(m) && m@ == "'"@ + value@
                    + "' is not a valid DateTruncPrecision"@,
            },
    {
        let value_lower = lowercase(value);
        if value_lower.eq(&String::from_str("year")) {
            Ok(DateTruncPrecision::Year)
        } else if value_lower.eq(&String::from_str("quarter")) {
            Ok(DateTruncPrecision::Quarter)
        } else if value_lower.eq(&String::from_str("month")) {
            Ok(DateTruncPrecision::Month)
        } else if value_lower.eq(&String::from_str("week")) {
            Ok(DateTruncPrecision::Week)
        } else if value_lower.eq(&String::from_str("day")) {
            Ok(DateTruncPrecision::Day)
        } else if value_lower.eq(&String::from_str("hour")) {
            Ok(DateTruncPrecision::Hour)
        } else if value_lower.eq(&String::from_str("minute")) {
            Ok(DateTruncPrecision::Minute)
        } else if value_lower.eq(&String::from_str("second")) {
            Ok(DateTruncPrecision::Second)
        } else {
            let mut message = String::from_str("'");
            message.append(value);
            message.append("' is not a valid DateTruncPrecision");
            Err(message)
        }
    }
}

/// The marker under which a field's extension type is recorded in its
/// metadata.
#[derive(Copy, Clone, Eq, PartialEq, Debug, Structural)]
pub enum ArroyoExtensionType {
    JSON,
}

/// Distinct string values always render distinct character sequences. This
/// holds of every string the program can build, but the verifier's model of
/// `String` leaves it open, so contracts that need it take it as a guard,
/// like the hash table's key-model guard.
pub open spec fn string_views_injective() -> bool {
    forall|a: String, b: String| #[trigger] a@ == #[trigger] b@ ==> a == b
}

/// Under the guard, the deep view of a string-keyed map tracks membership
/// and values exactly.
proof fn lemma_string_map_deep_view(m: std::collections::HashMap<String, String>)
    requires
        string_views_injective(),
    ensures
        forall|k: String| #[trigger]
            m@.contains_key(k) ==> m.deep_view().contains_key(k@) && m.deep_view()[k@] == m@[k]@,
        forall|dk: Seq<char>| #[trigger]
            m.deep_view().contains_key(dk) ==> exists|k: String|
                k@ == dk && #[trigger] m@.contains_key(k),
{
    assert(vstd::relations::injective(|k: String| k.deep_view()));
    vstd::std_specs::hash::lemma_hashmap_deepview_properties(m);
    assert forall|k: String| #[trigger] m@.contains_key(k) implies m.deep_view().contains_key(k@)
        && m.deep_view()[k@] == m@[k]@ by {
        assert(k.deep_view() == k@ && m@[k].deep_view() == m@[k]@);
    }
}

/// Under the guard, inserting one entry inserts its views into the deep view.
proof fn lemma_string_map_insert_deep_view(
    prev: std::collections::HashMap<String, String>,
    cur: std::collections::HashMap<String, String>,
    key: String,
    value: String,
)
    requires
        string_views_injective(),
        cur@ == prev@.insert(key, value),
    ensures
        cur.deep_view() == prev.deep_view().insert(key@, value@),
{
    lemma_string_map_deep_view(prev);
    lemma_string_map_deep_view(cur);
    let target = prev.deep_view().insert(key@, value@);
    assert forall|dk: Seq<char>| #[trigger] cur.deep_view().contains_key(dk) implies
        target.contains_key(dk) && cur.deep_view()[dk] == target[dk] by {
        let k = choose|k: String| k@ == dk && #[trigger] cur@.contains_key(k);
        if k == key {
            assert(cur.deep_view()[dk] == value@);
        } else {
            assert(prev@.contains_key(k));
            assert(k@ != key@);
            assert(cur.deep_view()[dk] == cur@[k]@ && prev.deep_view()[dk] == prev@[k]@);
        }
    }
    assert forall|dk: Seq<char>| #[trigger] target.contains_key(dk) implies cur.deep_view()
        .contains_key(dk) by {
        if dk == key@ {
            assert(cur@.contains_key(key));
        } else {
            assert(prev.deep_view().contains_key(dk));
            let k = choose|k: String| k@ == dk && #[trigger] prev@.contains_key(k);
            assert(k != key);
            assert(cur@.contains_key(k));
        }
    }
    assert(cur.deep_view() =~= target);
}

/// Under the guard, a fresh map has the empty deep view.
proof fn lemma_string_map_empty_deep_view(m: std::collections::HashMap<String, String>)
    requires
        string_views_injective(),
        m@ == Map::<String, String>::empty(),
    ensures
        m.deep_view() == Map::<Seq<char>, Seq<char>>::empty(),
{
    lemma_string_map_deep_view(m);
    assert forall|dk: Seq<char>| !(#[trigger] m.deep_view().contains_key(dk)) by {
        if m.deep_view().contains_key(dk) {
            let k = choose|k: String| k@ == dk && #[trigger] m@.contains_key(k);
        }
    }
    assert(m.deep_view() =~= Map::<Seq<char>, Seq<char>>::empty());
}

impl ArroyoExtensionType {
    /// The extension type a field's metadata declares, if any: the value
    /// stored under the extension-name key must name the JSON type.
    pub fn from_map(map: &std::collections::HashMap<String, String>) -> (r: Option<Self>)
        ensures
            (vstd::std_specs::hash::obeys_key_model::<String>() && r is Some) ==> exists|
                k: String,
            |
                #[trigger] map@.contains_key(k) && k@ == "ARROW:extension:name"@ && map@[k]@
                    == "arroyo.json"@,
            (vstd::std_specs::hash::obeys_key_model::<String>() && string_views_injective()) ==> r
                == (if map.deep_view().contains_key("ARROW:extension:name"@) && map.deep_view()[
                "ARROW:extension:name"@
            ] == "arroyo.json"@ {
                Some(ArroyoExtensionType::JSON)
            } else {
                None::<ArroyoExtensionType>
            }),
    {
        let key = String::from_str("ARROW:extension:name");
        match map.get(&key) {
            Some(name) => {
                if name.eq(&String::from_str("arroyo.json")) {
                    proof {
                        if vstd::std_specs::hash::obeys_key_model::<String>() {
                            assert(map@.contains_key(key) && map@[key]@ == "arroyo.json"@);
                            if string_views_injective() {
                                lemma_string_map_deep_view(*map);
                                assert(map.deep_view().contains_key(key@));
                                assert(map.deep_view()[key@] == "arroyo.json"@);
                            }
                        }
                    }
                    Some(ArroyoExtensionType::JSON)
                } else {
                    proof {
                        if vstd::std_specs::hash::obeys_key_model::<String>()
                            && string_views_injective() {
                            lemma_string_map_deep_view(*map);
                            assert(map@.contains_key(key));
                            assert(map.deep_view()[key@] == map@[key]@);
                            assert(map.deep_view()[key@] != "arroyo.json"@);
                        }
                    }
                    None
                }
            },
            None => {
                proof {
                    if vstd::std_specs::hash::obeys_key_model::<String>()
                        && string_views_injective() {
                        lemma_string_map_deep_view(*map);
                        assert(!map@.contains_key(key));
                        if map.deep_view().contains_key(key@) {
                            let k = choose|k: String|
                                k@ == key@ && #[trigger] map@.contains_key(k);
                            assert(k == key);
                        }
                        assert(!map.deep_view().contains_key(key@));
                    }
                }
                None
            },
        }
    }

    /// The metadata entries that declare the given extension type: exactly
    /// the extension-name key mapped to the JSON marker, so reading them
    /// back with `from_map` gives the type back.
    pub fn extension_metadata(v: Self) -> (m: std::collections::HashMap<String, String>)
        ensures
            vstd::std_specs::hash::obeys_key_model::<String>() ==> m@.len() == 1 && exists|
                k: String,
            |
                #[trigger] m@.contains_key(k) && k@ == "ARROW:extension:name"@ && m@[k]@
                    == "arroyo.json"@,
            (vstd::std_specs::hash::obeys_key_model::<String>() && string_views_injective())
                ==> m.deep_view() == Map::<Seq<char>, Seq<char>>::empty().insert(
                "ARROW:extension:name"@,
                "arroyo.json"@,
            ),
    {
        let mut m = std::collections::HashMap::new();
        let ghost fresh = m;
        match v {
            ArroyoExtensionType::JSON => {
                let key = String::from_str("ARROW:extension:name");
                let value = String::from_str("arroyo.json");
                let ghost kv = key;
                let ghost vv = value;
                m.insert(key, value);
                proof {
                    if vstd::std_specs::hash::obeys_key_model::<String>() {
                        assert(m@.contains_key(kv) && m@[kv]@ == "arroyo.json"@);
                        if string_views_injective() {
                            lemma_string_map_empty_deep_view(fresh);
                            lemma_string_map_insert_deep_view(fresh, m, kv, vv);
                        }
                    }
                }
            },
        }
        m
    }

    /// Record the given extension type, if any, on a field's metadata.
    pub fn add_metadata(v: Option<Self>, field: arrow::datatypes::Field) -> (r:
        arrow::datatypes::Field) {
        if let Some(v) = v {
            let m = Self::extension_metadata(v);
            field_with_metadata(field, m)
        } else {
            field
        }
    }
}

#[verifier::external_type_specification]
#[verifier::external_body]
/// The schema field type of the columnar library.
pub struct ExField(arrow::datatypes::Field);

#[verifier::external_type_specification]
#[verifier::external_body]
/// The schema type of the columnar library.
pub struct ExSchema(arrow::datatypes::Schema);

/// Relies on `arrow::datatypes::Field::with_metadata`: the field with the
/// given metadata attached.
#[verifier::external_body]
fn field_with_metadata(
    field: arrow::datatypes::Field,
    metadata: std::collections::HashMap<String, String>,
) -> arrow::datatypes::Field {
    field.with_metadata(metadata)
}

/// Relies on `arrow::datatypes::Field::new`: a non-nullable text field with
/// the given name.
#[verifier::external_body]
fn text_field(name: &str) -> arrow::datatypes::Field {
    arrow::datatypes::Field::new(name.to_owned(), arrow::datatypes::DataType::Utf8, false)
}

/// Relies on `arrow::datatypes::Schema::new`: a schema of the given single
/// field.
#[verifier::external_body]
fn single_field_schema(field: arrow::datatypes::Field) -> arrow::datatypes::Schema {
    arrow::datatypes::Schema::new(vec![field])
}

/// The schema under which raw serialized text is carried: one non-nullable
/// text column marked with the JSON extension type.
pub fn raw_schema() -> arrow::datatypes::Schema {
    single_field_schema(
        ArroyoExtensionType::add_metadata(Some(ArroyoExtensionType::JSON), text_field("value")),
    )
}

/// The server index a key hash is assigned to, with the hash space divided
/// evenly among `n` servers.
pub fn server_for_hash(x: u64, n: usize) -> (r: usize)
    requires
        n >= 1,
    ensures
        n == 1 ==> r == 0,
        n > 1 ==> r == x as int / (u64::MAX as int / n as int + 1),
        r < n,
{
    if n == 1 {
        0
    } else {
        proof {
            let ghost nn = n as int;
            let ghost q = u64::MAX as int / nn;
            let ghost rem = u64::MAX as int % nn;
            vstd::arithmetic::div_mod::lemma_fundamental_div_mod(u64::MAX as int, nn);
            vstd::arithmetic::div_mod::lemma_remainder_upper(u64::MAX as int, nn);
            vstd::arithmetic::div_mod::lemma_remainder_lower(u64::MAX as int, nn);
            assert(q >= 1) by (nonlinear_arith)
                requires
                    u64::MAX as int == q * nn + rem,
                    0 <= rem < nn,
                    2 <= nn <= usize::MAX,
            ;
            assert(q + 1 <= u64::MAX) by (nonlinear_arith)
                requires
                    u64::MAX as int == q * nn + rem,
                    0 <= rem < nn,
                    nn >= 2,
                    q >= 1,
            ;
        }
        let range_size = (u64::MAX / (n as u64)) + 1;
        proof {
            let ghost nn = n as int;
            let ghost q = u64::MAX as int / nn;
            let ghost rem = u64::MAX as int % nn;
            vstd::arithmetic::div_mod::lemma_fundamental_div_mod(x as int, q + 1);
            assert((u64::MAX as int) < (q + 1) * nn) by (nonlinear_arith)
                requires
                    u64::MAX as int == q * nn + rem,
                    0 <= rem < nn,
                    nn >= 2,
            ;
            assert(x as int / (q + 1) < nn) by (nonlinear_arith)
                requires
                    x as int == (q + 1) * (x as int / (q + 1)) + (x as int) % (q + 1),
                    0 <= (x as int) % (q + 1),
                    x <= u64::MAX,
                    (u64::MAX as int) < (q + 1) * nn,
                    q >= 1,
            ;
            assert(0 <= x as int / (q + 1));
        }
        (x / range_size) as usize
    }
}

/// For server counts the hash space can accommodate/// For server counts the hash space can accommodate, the per-server range
/// size neither overflows nor lets any server's range start past the top.
proof fn lemma_range_size_bounds(n: int)
    requires
        2 <= n <= 0x1_0000_0000,
    ensures
        ({
            let q = u64::MAX as int / n;
            &&& q + 1 <= u64::MAX
            &&& (q + 1) * (n - 1) <= u64::MAX < (q + 1) * n
        }),
{
    let q = u64::MAX as int / n;
    vstd::arithmetic::div_mod::lemma_fundamental_div_mod(u64::MAX as int, n);
    vstd::arithmetic::div_mod::lemma_remainder_upper(u64::MAX as int, n);
    vstd::arithmetic::div_mod::lemma_remainder_lower(u64::MAX as int, n);
    let r = u64::MAX as int % n;
    assert(u64::MAX as int == q * n + r);
    assert(n * (n - 1) <= u64::MAX) by (nonlinear_arith)
        requires
            2 <= n <= 0x1_0000_0000,
    ;
    assert(q >= 0) by (nonlinear_arith)
        requires
            u64::MAX as int == q * n + r,
            0 <= r < n,
            n >= 2,
    ;
    assert(q + 1 <= u64::MAX) by (nonlinear_arith)
        requires
            u64::MAX as int == q * n + r,
            0 <= r < n,
            n >= 2,
            q >= 0,
    ;
    assert(q >= n - 1) by (nonlinear_arith)
        requires
            u64::MAX as int == q * n + r,
            0 <= r < n,
            n * (n - 1) <= u64::MAX,
            n >= 2,
    ;
    assert((q + 1) * (n - 1) <= u64::MAX && u64::MAX < (q + 1) * n) by (nonlinear_arith)
        requires
            u64::MAX as int == q * n + r,
            0 <= r < n,
            q >= n - 1,
            n >= 2,
    ;
}

/// The inclusive key-hash range served by server `i` of `n`: the ranges of
/// consecutive servers are adjacent, and the last range ends at the top of
/// the hash space. Beyond four billion servers the start of the last range
/// no longer fits 64 bits, so such counts are left out.
pub fn range_for_server(i: usize, n: usize) -> (r: std::ops::RangeInclusive<u64>)
    requires
        1 <= n <= 0x1_0000_0000,
        i < n,
    ensures
        n == 1 ==> r@.start == 0 && r@.end == u64::MAX,
        n > 1 ==> ({
            let range_size = u64::MAX as int / n as int + 1;
            &&& r@.start == range_size * i
            &&& r@.end == if i + 1 == n {
                u64::MAX as int
            } else {
                range_size * i + range_size - 1
            }
        }),
        r@.start <= r@.end,
{
    if n == 1 {
        return std::ops::RangeInclusive::new(0, u64::MAX);
    }
    proof {
        lemma_range_size_bounds(n as int);
        let q = u64::MAX as int / n as int;
        assert((q + 1) * i <= (q + 1) * (n - 1) && (q + 1) * i >= 0) by (nonlinear_arith)
            requires
                0 <= i <= n - 1,
                q >= 0,
        ;
    }
    let range_size = (u64::MAX / (n as u64)) + 1;
    let start = range_size * (i as u64);
    let end = if i + 1 == n {
        u64::MAX
    } else {
        proof {
            let q = u64::MAX as int / n as int;
            assert((q + 1) * i + (q + 1) == (q + 1) * (i + 1) && (q + 1) * (i + 1) <= (q + 1) * (
            n - 1)) by (nonlinear_arith)
                requires
                    0 <= i,
                    i + 1 <= n - 1,
                    q >= 0,
            ;
        }
        start + range_size - 1
    };
    proof {
        let q = u64::MAX as int / n as int;
        if i + 1 == n {
            assert(start <= u64::MAX);
        } else {
            assert((q + 1) * i <= (q + 1) * i + q);
        }
    }
    std::ops::RangeInclusive::new(start, end)
}

/// Whether a character has the Unicode white-space property, as the standard
/// library determines it.
pub uninterp spec fn unicode_whitespace(c: char) -> bool;

/// Relies on `char::is_whitespace` of std: whether the character has the
/// Unicode white-space property.
pub assume_specification[ char::is_whitespace ](c: char) -> (r: bool)
    ensures
        r == unicode_whitespace(c),
;

/// The text with its leading white space removed.
pub open spec fn spec_trim_start(s: Seq<char>) -> Seq<char>
    decreases s.len(),
{
    if s.len() > 0 && unicode_whitespace(s[0]) {
        spec_trim_start(s.drop_first())
    } else {
        s
    }
}

/// The text with its trailing white space removed.
pub open spec fn spec_trim_end(s: Seq<char>) -> Seq<char>
    decreases s.len(),
{
    if s.len() > 0 && unicode_whitespace(s.last()) {
        spec_trim_end(s.drop_last())
    } else {
        s
    }
}

/// The text with white space removed from both ends.
pub open spec fn spec_trim(s: Seq<char>) -> Seq<char> {
    spec_trim_end(spec_trim_start(s))
}

/// Trimming the start keeps exactly the suffix from the first non-space.
proof fn lemma_trim_start_at(s: Seq<char>, k: int)
    requires
        0 <= k <= s.len(),
        forall|j: int| 0 <= j < k ==> unicode_whitespace(s[j]),
        k < s.len() ==> !unicode_whitespace(s[k]),
    ensures
        spec_trim_start(s) == s.subrange(k, s.len() as int),
    decreases k,
{
    if k == 0 {
        if s.len() > 0 && unicode_whitespace(s[0]) {
            assert(false);
        }
        assert(s.subrange(0, s.len() as int) =~= s);
    } else {
        assert(unicode_whitespace(s[0]));
        let d = s.drop_first();
        assert(forall|j: int| 0 <= j < k - 1 ==> unicode_whitespace(#[trigger] d[j]));
        lemma_trim_start_at(d, k - 1);
        assert(d.subrange(k - 1, d.len() as int) =~= s.subrange(k, s.len() as int));
    }
}

/// Trimming the end keeps exactly the prefix up to the last non-space.
proof fn lemma_trim_end_at(s: Seq<char>, k: int)
    requires
        0 <= k <= s.len(),
        forall|j: int| k <= j < s.len() ==> unicode_whitespace(s[j]),
        k > 0 ==> !unicode_whitespace(s[k - 1]),
    ensures
        spec_trim_end(s) == s.take(k),
    decreases s.len() - k,
{
    if k == s.len() {
        if s.len() > 0 && unicode_whitespace(s.last()) {
            assert(false);
        }
        assert(s.take(k) =~= s);
    } else {
        assert(unicode_whitespace(s.last()));
        let d = s.drop_last();
        lemma_trim_end_at(d, k);
        assert(d.take(k) =~= s.take(k));
    }
}

/// The characters of a text, in order.
fn collect_chars(s: &str) -> (r: Vec<char>)
    ensures
        r@ == s@,
{
    let n = s.unicode_len();
    let mut r: Vec<char> = Vec::new();
    let mut i: usize = 0;
    while i < n
        invariant
            n == s@.len(),
            i <= n,
            r@ =~= s@.take(i as int),
        decreases n - i,
    {
        r.push(s.get_char(i));
        i = i + 1;
        proof {
            assert(r@ =~= s@.take(i as int));
        }
    }
    proof {
        assert(s@.take(n as int) =~= s@);
    }
    r
}

/// The trimmed window of `[lo, hi)` within the character table.
fn trim_bounds(cs: &Vec<char>, lo: usize, hi: usize) -> (r: (usize, usize))
    requires
        lo <= hi <= cs@.len(),
    ensures
        lo <= r.0 <= r.1 <= hi,
        spec_trim(cs@.subrange(lo as int, hi as int)) == cs@.subrange(r.0 as int, r.1 as int),
{
    let ghost piece = cs@.subrange(lo as int, hi as int);
    let mut a = lo;
    while a < hi && cs[a].is_whitespace()
        invariant
            lo <= a <= hi <= cs@.len(),
            forall|j: int| lo <= j < a ==> unicode_whitespace(#[trigger] cs@[j]),
        decreases hi - a,
    {
        a = a + 1;
    }
    proof {
        assert(forall|j: int| 0 <= j < a - lo ==> unicode_whitespace(#[trigger] piece[j]));
        lemma_trim_start_at(piece, a - lo);
        assert(spec_trim_start(piece) =~= cs@.subrange(a as int, hi as int));
    }
    let mut b = hi;
    while b > a && cs[b - 1].is_whitespace()
        invariant
            a <= b <= hi <= cs@.len(),
            lo <= a,
            forall|j: int| b <= j < hi ==> unicode_whitespace(#[trigger] cs@[j]),
        decreases b,
    {
        b = b - 1;
    }
    proof {
        let started = cs@.subrange(a as int, hi as int);
        assert(forall|j: int|
            b - a <= j < started.len() ==> unicode_whitespace(#[trigger] started[j]));
        lemma_trim_end_at(started, b - a);
        assert(started.take(b - a) =~= cs@.subrange(a as int, b as int));
        assert(spec_trim(piece) == spec_trim_end(spec_trim_start(piece)));
        assert(spec_trim_end(started) == cs@.subrange(a as int, b as int));
    }
    (a, b)
}

/// The first position of `d` in the window `[lo, hi)`, if any, relative to
/// the window.
fn find_char(cs: &Vec<char>, lo: usize, hi: usize, d: char) -> (r: Option<usize>)
    requires
        lo <= hi <= cs@.len(),
    ensures
        match r {
            Some(c) => lo <= c < hi && spec_find_char(
                cs@.subrange(lo as int, hi as int),
                d,
            ) == Some(c - lo),
            None => spec_find_char(cs@.subrange(lo as int, hi as int), d) is None,
        },
{
    let ghost piece = cs@.subrange(lo as int, hi as int);
    let mut i = lo;
    while i < hi
        invariant
            lo <= i <= hi <= cs@.len(),
            piece == cs@.subrange(lo as int, hi as int),
            forall|j: int| lo <= j < i ==> (#[trigger] cs@[j]) != d,
        decreases hi - i,
    {
        if cs[i] == d {
            proof {
                assert forall|j: int| 0 <= j < i - lo implies (#[trigger] piece[j]) != d by {
                    assert(piece[j] == cs@[j + lo]);
                }
                assert(piece[i - lo] == cs@[i as int]);
                lemma_spec_find_char_at(piece, d, i - lo);
            }
            return Some(i);
        }
        i = i + 1;
    }
    proof {
        assert forall|j: int| 0 <= j < piece.len() implies (#[trigger] piece[j]) != d by {
            assert(piece[j] == cs@[j + lo]);
        }
        lemma_spec_find_char_none(piece, d);
    }
    None
}

/// The text of the window `[lo, hi)`.
fn make_string(cs: &Vec<char>, lo: usize, hi: usize) -> (r: String)
    requires
        lo <= hi <= cs@.len(),
    ensures
        r@ == cs@.subrange(lo as int, hi as int),
{
    let mut r = String::new();
    let mut i = lo;
    while i < hi
        invariant
            lo <= i <= hi <= cs@.len(),
            r@ =~= cs@.subrange(lo as int, i as int),
        decreases hi - i,
    {
        r.push(cs[i]);
        i = i + 1;
        proof {
            assert(r@ =~= cs@.subrange(lo as int, i as int));
        }
    }
    r
}

/// Position of the first occurrence of `d` in `s`, if any.
pub open spec fn spec_find_char(s: Seq<char>, d: char) -> Option<int>
    decreases s.len(),
{
    if s.len() == 0 {
        None
    } else if s[0] == d {
        Some(0)
    } else {
        match spec_find_char(s.drop_first(), d) {
            None => None,
            Some(i) => Some(i + 1),
        }
    }
}

/// `spec_find_char` finds exactly the first occurrence.
proof fn lemma_spec_find_char_at(s: Seq<char>, d: char, i: int)
    requires
        0 <= i < s.len(),
        forall|j: int| 0 <= j < i ==> s[j] != d,
        s[i] == d,
    ensures
        spec_find_char(s, d) == Some(i),
    decreases i,
{
    if i > 0 {
        assert(forall|j: int| 0 <= j < i - 1 ==> s.drop_first()[j] == s[j + 1]);
        lemma_spec_find_char_at(s.drop_first(), d, i - 1);
    }
}

/// `spec_find_char` finds nothing exactly when the character is absent.
proof fn lemma_spec_find_char_none(s: Seq<char>, d: char)
    requires
        forall|j: int| 0 <= j < s.len() ==> s[j] != d,
    ensures
        spec_find_char(s, d) is None,
    decreases s.len(),
{
    if s.len() > 0 {
        assert(forall|j: int| 0 <= j < s.len() - 1 ==> s.drop_first()[j] == s[j + 1]);
        lemma_spec_find_char_none(s.drop_first(), d);
    }
}

/// A found position names an occurrence with none before it.
proof fn lemma_spec_find_char_some(s: Seq<char>, d: char)
    ensures
        match spec_find_char(s, d) {
            Some(i) => 0 <= i < s.len() && s[i] == d && forall|j: int| 0 <= j < i ==> s[j] != d,
            None => forall|j: int| 0 <= j < s.len() ==> s[j] != d,
        },
    decreases s.len(),
{
    if s.len() > 0 {
        lemma_spec_find_char_some(s.drop_first(), d);
        assert(forall|j: int| 0 <= j < s.len() - 1 ==> s.drop_first()[j] == s[j + 1]);
        if s[0] != d {
            match spec_find_char(s.drop_first(), d) {
                Some(i) => {
                    assert(s[i + 1] == s.drop_first()[i]);
                    assert forall|j: int| 1 <= j < i + 1 implies s[j] != d by {
                        assert(s[j] == s.drop_first()[j - 1]);
                    }
                },
                None => {
                    assert forall|j: int| 1 <= j < s.len() implies s[j] != d by {
                        assert(s[j] == s.drop_first()[j - 1]);
                    }
                },
            }
        }
    }
}

/// The key-value pair one comma-separated piece denotes: the piece is
/// trimmed, split at the pair delimiter, and both sides are trimmed; a piece
/// without the delimiter denotes nothing.
pub open spec fn spec_kv_of_piece(piece: Seq<char>, d: char) -> Option<(Seq<char>, Seq<char>)> {
    let t = spec_trim(piece);
    match spec_find_char(t, d) {
        None => None,
        Some(i) => {
            let key = spec_trim(t.take(i));
            let rest = t.subrange(i + 1, t.len() as int);
            let value_piece = match spec_find_char(rest, d) {
                Some(j) => rest.take(j),
                None => rest,
            };
            Some((key, spec_trim(value_piece)))
        },
    }
}

/// The key-value pairs of a comma-separated list, or nothing if any piece is
/// malformed.
pub open spec fn spec_pairs_from(s: Seq<char>, d: char) -> Option<Seq<(Seq<char>, Seq<char>)>>
    decreases s.len(),
    via spec_pairs_from_decreases
{
    match spec_find_char(s, ',') {
        None => match spec_kv_of_piece(s, d) {
            Some(p) => Some(seq![p]),
            None => None,
        },
        Some(i) => {
            let head = spec_kv_of_piece(s.take(i), d);
            let rest = spec_pairs_from(s.subrange(i + 1, s.len() as int), d);
            match (head, rest) {
                (Some(p), Some(ps)) => Some(seq![p] + ps),
                _ => None,
            }
        },
    }
}

#[via_fn]
proof fn spec_pairs_from_decreases(s: Seq<char>, d: char) {
    lemma_spec_find_char_some(s, ',');
}

/// What a configuration text denotes: nothing but white space denotes the
/// empty list, and otherwise every comma-separated piece must hold a
/// delimited pair.
pub open spec fn spec_string_to_pairs(s: Seq<char>, d: char) -> Option<
    Seq<(Seq<char>, Seq<char>)>,
> {
    if spec_trim(s).len() == 0 {
        Some(Seq::empty())
    } else {
        spec_pairs_from(s, d)
    }
}

/// Parse one comma-separated piece.
fn parse_piece(cs: &Vec<char>, lo: usize, hi: usize, d: char) -> (r: Option<(String, String)>)
    requires
        lo <= hi <= cs@.len(),
    ensures
        r.deep_view() == spec_kv_of_piece(cs@.subrange(lo as int, hi as int), d),
{
    let ghost piece = cs@.subrange(lo as int, hi as int);
    let (a, b) = trim_bounds(cs, lo, hi);
    let ghost t = spec_trim(piece);
    match find_char(cs, a, b, d) {
        None => None,
        Some(c1) => {
            proof {
                assert(t.take(c1 - a) =~= cs@.subrange(a as int, c1 as int));
            }
            let (ka, kb) = trim_bounds(cs, a, c1);
            let key = make_string(cs, ka, kb);
            let found2 = find_char(cs, c1 + 1, b, d);
            proof {
                assert(t.subrange(c1 - a + 1, t.len() as int) =~= cs@.subrange(
                    c1 + 1,
                    b as int,
                ));
            }
            let vend = match found2 {
                Some(c2) => c2,
                None => b,
            };
            proof {
                let rest = t.subrange(c1 - a + 1, t.len() as int);
                match found2 {
                    Some(c2) => {
                        assert(rest.take(c2 - (c1 + 1)) =~= cs@.subrange(c1 + 1, c2 as int));
                    },
                    None => {},
                }
            }
            let (va, vb) = trim_bounds(cs, c1 + 1, vend);
            let value = make_string(cs, va, vb);
            proof {
                let i = c1 - a;
                let rest = t.subrange(i + 1, t.len() as int);
                assert(spec_find_char(t, d) == Some(i));
                assert(t.take(i) == cs@.subrange(a as int, c1 as int));
                assert(key@ == spec_trim(t.take(i)));
                match found2 {
                    Some(c2) => {
                        assert(spec_find_char(rest, d) == Some(c2 - (c1 + 1)));
                        assert(rest.take(c2 - (c1 + 1)) == cs@.subrange(c1 + 1, vend as int));
                    },
                    None => {
                        assert(spec_find_char(rest, d) is None);
                        assert(rest == cs@.subrange(c1 + 1, vend as int));
                    },
                }
                assert(value@ == spec_trim(cs@.subrange(c1 + 1, vend as int)));
                assert(spec_kv_of_piece(piece, d) == Some((key@, value@)));
            }
            Some((key, value))
        },
    }
}

/// Parse a comma-separated list of delimited pairs, in order. Nothing but
/// white space is the empty list; any malformed piece makes the whole text
/// malformed.
pub fn string_to_pairs(s: &str, pair_delimeter: char) -> (r: Option<Vec<(String, String)>>)
    ensures
        r.deep_view() == spec_string_to_pairs(s@, pair_delimeter),
{
    let cs = collect_chars(s);
    let n = cs.len();
    let (t0, t1) = trim_bounds(&cs, 0, n);
    proof {
        assert(cs@.subrange(0, n as int) =~= s@);
    }
    if t0 == t1 {
        let r: Vec<(String, String)> = Vec::new();
        proof {
            assert(r.deep_view() =~= Seq::<(Seq<char>, Seq<char>)>::empty());
        }
        return Some(r);
    }
    let mut acc: Vec<(String, String)> = Vec::new();
    let mut pos: usize = 0;
    loop
        invariant
            pos <= n,
            n == cs@.len(),
            cs@ == s@,
            spec_trim(s@).len() != 0,
            ({
                let full = spec_pairs_from(s@, pair_delimeter);
                let suffix = spec_pairs_from(
                    cs@.subrange(pos as int, n as int),
                    pair_delimeter,
                );
                full == match suffix {
                    Some(ps) => Some(acc.deep_view() + ps),
                    None => None::<Seq<(Seq<char>, Seq<char>)>>,
                }
            }),
        decreases n - pos,
    {
        let ghost suffix_seq = cs@.subrange(pos as int, n as int);
        match find_char(&cs, pos, n, ',') {
            Some(c) => {
                proof {
                    assert(suffix_seq.take(c - pos) =~= cs@.subrange(pos as int, c as int));
                    assert(suffix_seq.subrange(c - pos + 1, suffix_seq.len() as int)
                        =~= cs@.subrange(c + 1, n as int));
                }
                match parse_piece(&cs, pos, c, pair_delimeter) {
                    Some(p) => {
                        let ghost prev = acc@;
                        let ghost prev_deep = acc.deep_view();
                        let ghost pv = p.deep_view();
                        acc.push(p);
                        proof {
                            crate::lemma_vec_deep_view_push(prev, prev_deep, acc, acc@[
                                prev.len() as int
                            ]);
                            assert(acc.deep_view() =~= prev_deep.push(pv));
                        }
                        pos = c + 1;
                        proof {
                            match spec_pairs_from(
                                cs@.subrange(pos as int, n as int),
                                pair_delimeter,
                            ) {
                                Some(ps) => {
                                    assert(prev_deep.push(pv) + ps =~= prev_deep + (seq![pv]
                                        + ps));
                                },
                                None => {},
                            }
                        }
                    },
                    None => {
                        return None;
                    },
                }
            },
            None => {
                match parse_piece(&cs, pos, n, pair_delimeter) {
                    Some(p) => {
                        let ghost prev = acc@;
                        let ghost prev_deep = acc.deep_view();
                        let ghost pv = p.deep_view();
                        acc.push(p);
                        proof {
                            crate::lemma_vec_deep_view_push(prev, prev_deep, acc, acc@[
                                prev.len() as int
                            ]);
                            assert(acc.deep_view() =~= prev_deep.push(pv));
                            assert(prev_deep.push(pv) =~= prev_deep + seq![pv]);
                        }
                        return Some(acc);
                    },
                    None => {
                        return None;
                    },
                }
            },
        }
    }
}

/// The map a pair list builds: the pairs inserted in order, so a repeated
/// key keeps its last value.
pub open spec fn spec_pairs_to_map(pairs: Seq<(Seq<char>, Seq<char>)>) -> Map<
    Seq<char>,
    Seq<char>,
>
    decreases pairs.len(),
{
    if pairs.len() == 0 {
        Map::empty()
    } else {
        spec_pairs_to_map(pairs.drop_last()).insert(pairs.last().0, pairs.last().1)
    }
}

/// Parse a comma-separated list of delimited pairs into a map. Nothing but
/// white space is the empty map; any malformed piece makes the whole text
/// malformed; a repeated key keeps its last value.
pub fn string_to_map(s: &str, pair_delimeter: char) -> (r: Option<
    std::collections::HashMap<String, String>,
>)
    ensures
        (r is Some) == (spec_string_to_pairs(s@, pair_delimeter) is Some),
        (vstd::std_specs::hash::obeys_key_model::<String>() && r is Some) ==> r.unwrap()@.len()
            <= spec_string_to_pairs(s@, pair_delimeter).unwrap().len(),
        (vstd::std_specs::hash::obeys_key_model::<String>() && string_views_injective()) ==> match r {
            Some(m) => m.deep_view() == spec_pairs_to_map(
                spec_string_to_pairs(s@, pair_delimeter).unwrap(),
            ),
            None => true,
        },
{
    let ghost target_pairs = spec_string_to_pairs(s@, pair_delimeter);
    match string_to_pairs(s, pair_delimeter) {
        Some(pairs) => {
            let mut m: std::collections::HashMap<String, String> = std::collections::HashMap::new();
            proof {
                if vstd::std_specs::hash::obeys_key_model::<String>()
                    && string_views_injective() {
                    lemma_string_map_empty_deep_view(m);
                    assert(spec_pairs_to_map(pairs.deep_view().take(0)) =~= Map::<
                        Seq<char>,
                        Seq<char>,
                    >::empty());
                }
            }
            let k = pairs.len();
            let mut i: usize = 0;
            while i < k
                invariant
                    i <= k,
                    k == pairs@.len(),
                    pairs.deep_view() == target_pairs.unwrap(),
                    vstd::std_specs::hash::obeys_key_model::<String>() ==> m@.len() <= i,
                    (vstd::std_specs::hash::obeys_key_model::<String>()
                        && string_views_injective()) ==> m.deep_view() == spec_pairs_to_map(
                        pairs.deep_view().take(i as int),
                    ),
                decreases k - i,
            {
                let key = pairs[i].0.clone();
                let value = pairs[i].1.clone();
                let ghost prev = m;
                m.insert(key, value);
                proof {
                    if vstd::std_specs::hash::obeys_key_model::<String>()
                        && string_views_injective() {
                        lemma_string_map_insert_deep_view(prev, m, key, value);
                        let taken = pairs.deep_view().take(i + 1);
                        assert(taken.drop_last() =~= pairs.deep_view().take(i as int));
                        assert(taken.last() == pairs.deep_view()[i as int]);
                        assert(pairs.deep_view()[i as int] == pairs@[i as int].deep_view());
                        assert(key@ == pairs.deep_view()[i as int].0 && value@ == pairs.deep_view()[
                            i as int
                        ].1);
                        assert(m.deep_view() =~= spec_pairs_to_map(taken));
                    }
                }
                i = i + 1;
            }
            proof {
                assert(pairs.deep_view().len() == pairs@.len());
                assert(pairs.deep_view().take(k as int) =~= pairs.deep_view());
            }
            Some(m)
        },
        None => None,
    }
}

} // verus!
