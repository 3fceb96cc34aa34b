//! The structured task record and how it becomes an entry's text.
use vstd::prelude::*;
use vstd::string::StringExecFns;
use crate::logger::{EventFacility, EventLogger, WriteError, EVENT_TYPE_WARNING};

verus! {

/// Text written in place of a record that could not be serialized.
pub const SERIALIZATION_PLACEHOLDER: &'static str = "Failed to serialize TaskExecutionLog";

/// Severity at which task records are written unless the caller picks another.
pub const DEFAULT_RECORD_LEVEL: u16 = EVENT_TYPE_WARNING;

/// A leap year of the proleptic Gregorian calendar.
pub open spec fn is_leap_year(year: int) -> bool {
    year % 4 == 0 && (year % 100 != 0 || year % 400 == 0)
}

/// Number of days in `month` (1 to 12) of `year`.
pub open spec fn days_in_month(year: int, month: int) -> int {
    if month == 2 {
        if is_leap_year(year) { 29 } else { 28 }
    } else if month == 4 || month == 6 || month == 9 || month == 11 {
        30
    } else {
        31
    }
}

/// A UTC instant as calendar date and time of day.
#[derive(Clone, Copy, Debug, PartialEq, Eq, Structural)]
pub struct Timestamp {
    pub year: i32,
    pub month: u8,
    pub day: u8,
    pub hour: u8,
    pub minute: u8,
    pub second: u8,
    pub nanosecond: u32,
}

impl Timestamp {
    /// A real date, within years -9999 to 9999, and a real time of day.
    pub open spec fn wf(&self) -> bool {
        &&& -9999 <= self.year <= 9999
        &&& 1 <= self.month <= 12
        &&& 1 <= self.day <= days_in_month(self.year as int, self.month as int)
        &&& self.hour < 24
        &&& self.minute < 60
        &&& self.second < 60
        &&& self.nanosecond < 1_000_000_000
    }
}

/// Relies on time::OffsetDateTime::now_utc and its calendar accessors: the
/// current instant in UTC as a valid date (years -9999 to 9999 without the
/// crate's large-dates feature) and time of day. It panics only when the
/// system clock lies outside those years.
#[verifier::external_body]
fn now_utc() -> (r: Timestamp)
    ensures
        r.wf(),
{
    let t = time::OffsetDateTime::now_utc();
    Timestamp {
        year: t.year(),
        month: u8::from(t.month()),
        day: t.day(),
        hour: t.hour(),
        minute: t.minute(),
        second: t.second(),
        nanosecond: t.nanosecond(),
    }
}

/// The outcome of one task, with extra metadata, stamped when it was made.
pub struct TaskExecutionLog {
    pub task_id: String,
    pub command: String,
    pub status: String,
    pub message: String,
    pub metadata: Vec<(String, i64)>,
    pub created_at: Timestamp,
}

/// Metadata as key text and value.
pub open spec fn metadata_view(m: Seq<(String, i64)>) -> Seq<(Seq<char>, i64)> {
    m.map_values(|e: (String, i64)| (e.0@, e.1))
}

/// No key occurs twice.
pub open spec fn keys_distinct(m: Seq<(Seq<char>, i64)>) -> bool {
    forall|i: int, j: int| 0 <= i < m.len() && 0 <= j < m.len() && i != j ==> #[trigger] m[i].0 != #[trigger] m[j].0
}

/// Some entry has key `k`.
pub open spec fn has_key(m: Seq<(Seq<char>, i64)>, k: Seq<char>) -> bool {
    exists|i: int| 0 <= i < m.len() && #[trigger] m[i].0 == k
}

/// The metadata after setting key `k` to `v`: an entry with that key takes
/// the new value in place, otherwise the pair is appended.
pub open spec fn metadata_set(m: Seq<(Seq<char>, i64)>, k: Seq<char>, v: i64) -> Seq<
    (Seq<char>, i64),
> {
    if has_key(m, k) {
        m.map_values(|e: (Seq<char>, i64)| if e.0 == k { (k, v) } else { e })
    } else {
        m.push((k, v))
    }
}

impl TaskExecutionLog {
    /// A record of the given fields with no metadata, stamped with the current UTC time.
    pub fn new(task_id: &str, command: &str, status: &str, message: &str) -> (r: Self)
        ensures
            r.task_id@ == task_id@,
            r.command@ == command@,
            r.status@ == status@,
            r.message@ == message@,
            r.metadata@.len() == 0,
            r.created_at.wf(),
    {
        TaskExecutionLog {
            task_id: String::from_str(task_id),
            command: String::from_str(command),
            status: String::from_str(status),
            message: String::from_str(message),
            metadata: Vec::new(),
            created_at: now_utc(),
        }
    }

    /// Sets metadata key `key` to `value`.
    pub fn set_metadata(&mut self, key: &str, value: i64)
        ensures
            metadata_view(final(self).metadata@) == metadata_set(
                metadata_view(old(self).metadata@),
                key@,
                value,
            ),
            keys_distinct(metadata_view(old(self).metadata@)) ==> keys_distinct(
                metadata_view(final(self).metadata@),
            ),
            final(self).task_id == old(self).task_id,
            final(self).command == old(self).command,
            final(self).status == old(self).status,
            final(self).message == old(self).message,
            final(self).created_at == old(self).created_at,
    {
        let ghost m0 = metadata_view(old(self).metadata@);
        let ghost target = metadata_set(m0, key@, value);
        let k = String::from_str(key);
        let n = self.metadata.len();
        let mut found = false;
        assert(metadata_view(self.metadata@) == m0);
        let mut i: usize = 0;
        while i < n
            invariant
                n == self.metadata@.len(),
                n == m0.len(),
                i <= n,
                k@ == key@,
                self.task_id == old(self).task_id,
                self.command == old(self).command,
                self.status == old(self).status,
                self.message == old(self).message,
                self.created_at == old(self).created_at,
                found == (exists|j: int| 0 <= j < i && #[trigger] m0[j].0 == key@),
                forall|j: int|
                    0 <= j < i ==> #[trigger] metadata_view(self.metadata@)[j] == (if m0[j].0
                        == key@ {
                        (key@, value)
                    } else {
                        m0[j]
                    }),
                forall|j: int| i <= j < n ==> #[trigger] metadata_view(self.metadata@)[j] == m0[j],
            decreases n - i,
        {
            assert(metadata_view(self.metadata@)[i as int] == m0[i as int]);
            assert(metadata_view(self.metadata@)[i as int].0 == self.metadata@[i as int].0@);
            let same = self.metadata[i].0.eq(&k);
            assert(same == (self.metadata@[i as int].0@ == k@));
            assert(k@ == key@);
            if same {
                assert(m0[i as int].0 == key@);
                let ghost before = self.metadata@;
                self.metadata.set(i, (k.clone(), value));
                assert(metadata_view(self.metadata@) =~= metadata_view(before).update(
                    i as int,
                    (key@, value),
                ));
                found = true;
            } else {
                assert(m0[i as int].0 != key@);
            }
            i = i + 1;
        }
        if found {
            assert(has_key(m0, key@));
            assert(metadata_view(self.metadata@) =~= target);
        } else {
            assert(!has_key(m0, key@));
            assert forall|j: int| 0 <= j < n implies #[trigger] metadata_view(self.metadata@)[j]
                == m0[j] by {
                assert(m0[j].0 != key@);
            }
            assert(metadata_view(self.metadata@) =~= m0);
            let ghost before = self.metadata@;
            self.metadata.push((k, value));
            assert(metadata_view(self.metadata@) =~= metadata_view(before).push((key@, value)));
            assert(metadata_view(self.metadata@) =~= target);
        }
    }
}

/// The record of one task run with its source number as metadata `srcId`.
pub fn task_record(task_id: &str, command: &str, status: &str, message: &str, src_id: i32) -> (r:
    TaskExecutionLog)
    ensures
        r.task_id@ == task_id@,
        r.command@ == command@,
        r.status@ == status@,
        r.message@ == message@,
        metadata_view(r.metadata@) == seq![("srcId"@, src_id as i64)],
        r.created_at.wf(),
{
    let mut r = TaskExecutionLog::new(task_id, command, status, message);
    r.set_metadata("srcId", src_id as i64);
    proof {
        assert(!has_key(metadata_view(Seq::<(String, i64)>::empty()), "srcId"@));
    }
    assert(metadata_view(r.metadata@) =~= seq![("srcId"@, src_id as i64)]);
    r
}

/// The entry text of a record: its serialized form, or the placeholder when
/// serialization failed.
pub fn entry_text(serialized: Option<String>) -> (r: String)
    ensures
        r@ == (match serialized {
            Some(s) => s@,
            None => SERIALIZATION_PLACEHOLDER@,
        }),
{
    match serialized {
        Some(s) => s,
        None => String::from_str(SERIALIZATION_PLACEHOLDER),
    }
}

/// Writes a serialized record (or the placeholder) at severity `level`
/// through `logger`.
pub fn emit_record(logger: &EventLogger, facility: &mut EventFacility, serialized: Option<String>, level: u16) -> (r:
    Result<(), WriteError>)
    requires
        old(facility).wf(),
    ensures
        final(facility).wf(),
        final(facility).live_handles() == old(facility).live_handles(),
        final(facility).registered() == old(facility).registered(),
        final(facility).released() == old(facility).released(),
        r is Ok <==> !logger.is_released() && old(facility).live_handles().contains(
            logger.handle(),
        ),
        final(facility).log() == (if r is Ok {
            old(facility).log().push(
                (
                    logger.source_path(),
                    level,
                    match serialized {
                        Some(s) => s@,
                        None => SERIALIZATION_PLACEHOLDER@,
                    },
                ),
            )
        } else {
            old(facility).log()
        }),
{
    let text = entry_text(serialized);
    logger.write_entry(facility, text.as_str(), level)
}

} // verus!
