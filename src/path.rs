//! Where a source's record lives in the configuration store.
use vstd::prelude::*;
use vstd::string::StringExecFns;

verus! {

/// Key under which the event-log facility keeps one subkey per log group.
pub const EVENT_LOG_ROOT: &'static str = "SYSTEM\\CurrentControlSet\\Services\\EventLog";

/// Separator between the levels of a configuration-store path.
pub const PATH_SEPARATOR: char = '\\';

/// `base`, a separator, then `leaf`.
pub open spec fn join(base: Seq<char>, leaf: Seq<char>) -> Seq<char> {
    base + seq![PATH_SEPARATOR] + leaf
}

/// The store path of the record for source `source` in log group `log`.
pub open spec fn source_path(log: Seq<char>, source: Seq<char>) -> Seq<char> {
    join(join(EVENT_LOG_ROOT@, log), source)
}

/// A group or source name that can stand as a single path level.
pub open spec fn is_identifier(s: Seq<char>) -> bool {
    forall|i: int| 0 <= i < s.len() ==> s[i] != PATH_SEPARATOR
}

/// Builds `<root>\<log_name>\<source_name>`.
pub fn build_source_registry_path(log_name: &str, source_name: &str) -> (r: String)
    ensures
        r@ == source_path(log_name@, source_name@),
{
    let mut p = String::from_str(EVENT_LOG_ROOT);
    p.append("\\");
    p.append(log_name);
    p.append("\\");
    p.append(source_name);
    proof {
        reveal_strlit("\\");
    }
    assert(p@ =~= source_path(log_name@, source_name@));
    p
}

/// Whether `name` holds no path separator, so that it names exactly one level.
pub fn is_valid_identifier(name: &str) -> (r: bool)
    ensures
        r == is_identifier(name@),
{
    let n = name.unicode_len();
    let mut i: usize = 0;
    while i < n
        invariant
            n == name@.len(),
            i <= n,
            forall|j: int| 0 <= j < i ==> name@[j] != PATH_SEPARATOR,
        decreases n - i,
    {
        if name.get_char(i) == PATH_SEPARATOR {
            return false;
        }
        i = i + 1;
    }
    true
}

} // verus!
