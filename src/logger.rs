//! Source handles: registration against the event-log facility, writing one
//! leveled entry through a handle, and releasing the handle exactly once.
use vstd::prelude::*;
use crate::path::{build_source_registry_path, source_path};

verus! {

/// Severity code of an error entry.
pub const EVENT_TYPE_ERROR: u16 = 1;

/// Severity code of a warning entry.
pub const EVENT_TYPE_WARNING: u16 = 2;

/// Severity code of an information entry.
pub const EVENT_TYPE_INFORMATION: u16 = 4;

/// One entry as the facility received it.
pub struct LogEntry {
    /// Store path of the source the entry was written through.
    pub source: String,
    /// Severity code.
    pub level: u16,
    /// The entry's text.
    pub message: String,
}

impl View for LogEntry {
    type V = (Seq<char>, u16, Seq<char>);

    open spec fn view(&self) -> (Seq<char>, u16, Seq<char>) {
        (self.source@, self.level, self.message@)
    }
}

/// Why an entry was not written.
#[derive(Clone, Copy, Debug, PartialEq, Eq, Structural)]
pub enum WriteError {
    /// The handle had already been released.
    Released,
    /// The facility did not accept the handle.
    Rejected,
}

/// An in-memory event-log facility: it hands out handles, takes entries
/// through live handles and counts registrations and releases.
pub struct EventFacility {
    next_handle: u64,
    live: Vec<u64>,
    entries: Vec<LogEntry>,
    registrations: u64,
    releases: u64,
}

impl EventFacility {
    /// Handles registered and not yet released.
    pub closed spec fn live_handles(&self) -> Set<u64> {
        Set::new(|h: u64| exists|i: int| 0 <= i < self.live@.len() && #[trigger] self.live@[i] == h)
    }

    /// Entries received so far, oldest first.
    pub closed spec fn log(&self) -> Seq<(Seq<char>, u16, Seq<char>)> {
        self.entries@.map_values(|e: LogEntry| e@)
    }

    /// Number of handles handed out.
    pub closed spec fn registered(&self) -> nat {
        self.registrations as nat
    }

    /// Number of handles released.
    pub closed spec fn released(&self) -> nat {
        self.releases as nat
    }

    /// The handle the next registration hands out.
    pub closed spec fn next(&self) -> u64 {
        self.next_handle
    }

    /// Handles are distinct and issued in order, and every handle handed
    /// out is either live or released, once.
    pub closed spec fn wf(&self) -> bool {
        &&& self.registrations as int + 1 == self.next_handle as int
        &&& self.releases as int + self.live@.len() == self.registrations as int
        &&& forall|i: int| 0 <= i < self.live@.len() ==> 1 <= #[trigger] self.live@[i] < self.next_handle
        &&& forall|i: int, j: int|
            0 <= i < self.live@.len() && 0 <= j < self.live@.len() && i != j
                ==> #[trigger] self.live@[i] != #[trigger] self.live@[j]
    }

    /// A facility with no handles and no entries.
    pub fn new() -> (r: Self)
        ensures
            r.wf(),
            r.live_handles() == Set::<u64>::empty(),
            r.log() == Seq::<(Seq<char>, u16, Seq<char>)>::empty(),
            r.registered() == 0,
            r.released() == 0,
            r.next() == 1,
    {
        let r = EventFacility {
            next_handle: 1,
            live: Vec::new(),
            entries: Vec::new(),
            registrations: 0,
            releases: 0,
        };
        assert(r.live_handles() =~= Set::<u64>::empty());
        assert(r.log() =~= Seq::<(Seq<char>, u16, Seq<char>)>::empty());
        r
    }

    /// Position of live handle `h`, if any.
    fn find_live(&self, h: u64) -> (r: Option<usize>)
        ensures
            match r {
                Some(i) => i < self.live@.len() && self.live@[i as int] == h,
                None => !self.live_handles().contains(h),
            },
    {
        let mut i: usize = 0;
        while i < self.live.len()
            invariant
                i <= self.live@.len(),
                forall|j: int| 0 <= j < i ==> self.live@[j] != h,
            decreases self.live@.len() - i,
        {
            if self.live[i] == h {
                return Some(i);
            }
            i = i + 1;
        }
        None
    }

    /// Whether `h` is live.
    pub fn is_live(&self, h: u64) -> (r: bool)
        ensures
            r == self.live_handles().contains(h),
    {
        match self.find_live(h) {
            Some(i) => {
                assert(self.live_handles().contains(self.live@[i as int]));
                true
            },
            None => false,
        }
    }

    /// Hands out a new handle for the source at `path`; fails only when the
    /// handle numbers are used up.
    pub fn register_source(&mut self, path: &String) -> (r: Option<u64>)
        requires
            old(self).wf(),
        ensures
            final(self).wf(),
            final(self).log() == old(self).log(),
            final(self).released() == old(self).released(),
            old(self).next() == u64::MAX ==> r is None && *final(self) == *old(self),
            old(self).next() < u64::MAX ==> {
                &&& r == Some(old(self).next())
                &&& !old(self).live_handles().contains(old(self).next())
                &&& final(self).live_handles() == old(self).live_handles().insert(old(self).next())
                &&& final(self).registered() == old(self).registered() + 1
                &&& final(self).next() == old(self).next() + 1
            },
    {
        if self.next_handle == u64::MAX {
            return None;
        }
        let h = self.next_handle;
        let ghost before = self.live@;
        self.live.push(h);
        self.next_handle = h + 1;
        self.registrations = self.registrations + 1;
        assert(self.live@[before.len() as int] == h);
        assert forall|q: u64| #[trigger] self.live_handles().contains(q) == old(self).live_handles().insert(h).contains(q) by {
            if q != h && self.live_handles().contains(q) {
                let j = choose|j: int| 0 <= j < self.live@.len() && #[trigger] self.live@[j] == q;
                assert(before[j] == q);
            }
            if old(self).live_handles().contains(q) {
                let j = choose|j: int| 0 <= j < before.len() && #[trigger] before[j] == q;
                assert(self.live@[j] == q);
            }
        }
        assert(self.live_handles() =~= old(self).live_handles().insert(h));
        Some(h)
    }

    /// Takes one entry through handle `h`, which must be live.
    pub fn report(&mut self, h: u64, source: &String, level: u16, message: &str) -> (r: bool)
        requires
            old(self).wf(),
        ensures
            final(self).wf(),
            r == old(self).live_handles().contains(h),
            final(self).live_handles() == old(self).live_handles(),
            final(self).registered() == old(self).registered(),
            final(self).released() == old(self).released(),
            final(self).next() == old(self).next(),
            final(self).log() == (if r {
                old(self).log().push((source@, level, message@))
            } else {
                old(self).log()
            }),
    {
        if !self.is_live(h) {
            return false;
        }
        let e = LogEntry { source: source.clone(), level, message: String::from_str(message) };
        self.entries.push(e);
        assert(self.log() =~= old(self).log().push((source@, level, message@)));
        true
    }

    /// Releases handle `h`; a handle that is not live is left alone.
    pub fn deregister(&mut self, h: u64) -> (r: bool)
        requires
            old(self).wf(),
        ensures
            final(self).wf(),
            r == old(self).live_handles().contains(h),
            final(self).live_handles() == old(self).live_handles().remove(h),
            final(self).log() == old(self).log(),
            final(self).registered() == old(self).registered(),
            final(self).next() == old(self).next(),
            final(self).released() == old(self).released() + (if r { 1nat } else { 0nat }),
    {
        match self.find_live(h) {
            None => {
                assert(self.live_handles() =~= old(self).live_handles().remove(h));
                false
            },
            Some(i) => {
                assert(self.live_handles().contains(self.live@[i as int]));
                let ghost before = self.live@;
                self.live.remove(i);
                self.releases = self.releases + 1;
                assert forall|q: u64| #[trigger] self.live_handles().contains(q) == old(self).live_handles().remove(h).contains(q) by {
                    if self.live_handles().contains(q) {
                        let j = choose|j: int| 0 <= j < self.live@.len() && #[trigger] self.live@[j] == q;
                        if j < i {
                            assert(before[j] == q);
                        } else {
                            assert(before[j + 1] == q);
                        }
                    }
                    if old(self).live_handles().contains(q) && q != h {
                        let j = choose|j: int| 0 <= j < before.len() && #[trigger] before[j] == q;
                        if j < i {
                            assert(self.live@[j] == q);
                        } else {
                            assert(j != i);
                            assert(self.live@[j - 1] == q);
                        }
                    }
                }
                assert(self.live_handles() =~= old(self).live_handles().remove(h));
                true
            },
        }
    }

    /// Number of live handles.
    pub fn live_count(&self) -> (r: usize)
        requires
            self.wf(),
        ensures
            r == self.registered() - self.released(),
    {
        self.live.len()
    }

    /// Number of handles handed out.
    pub fn registration_count(&self) -> (r: u64)
        ensures
            r == self.registered(),
    {
        self.registrations
    }

    /// Number of handles released.
    pub fn release_count(&self) -> (r: u64)
        ensures
            r == self.released(),
    {
        self.releases
    }

    /// Entries received so far, oldest first.
    pub fn entries(&self) -> (r: &Vec<LogEntry>)
        ensures
            r@.map_values(|e: LogEntry| e@) == self.log(),
    {
        &self.entries
    }
}

/// The facility's live handles after `release` on a logger with handle `h`
/// that was already released (`released`) or not.
pub open spec fn live_after_release(live: Set<u64>, h: u64, released: bool) -> Set<u64> {
    if released {
        live
    } else {
        live.remove(h)
    }
}

/// Releasing a handle a second time changes nothing: the live handles are
/// those the first release left, and the second call reports no release.
pub proof fn lemma_second_release_is_noop(live: Set<u64>, h: u64)
    ensures
        live_after_release(live_after_release(live, h, false), h, true) == live_after_release(
            live,
            h,
            false,
        ),
        !live_after_release(live, h, false).contains(h),
{
}

/// A handle bound to one source, owned by whoever registered it.
/// It is registered until `release`, which gives it back to the facility once.
pub struct EventLogger {
    source_handle: u64,
    source: String,
    released: bool,
}

impl EventLogger {
    /// The facility's number for this handle.
    pub closed spec fn handle(&self) -> u64 {
        self.source_handle
    }

    /// Store path of the source the handle is bound to.
    pub closed spec fn source_path(&self) -> Seq<char> {
        self.source@
    }

    /// The handle has been given back.
    pub closed spec fn is_released(&self) -> bool {
        self.released
    }

    /// Registers source `source` of group `log` with the facility. Fails,
    /// with no handle, only when the facility has no handle left to give.
    pub fn register(facility: &mut EventFacility, source: &str, log: &str) -> (r: Option<Self>)
        requires
            old(facility).wf(),
        ensures
            final(facility).wf(),
            final(facility).log() == old(facility).log(),
            final(facility).released() == old(facility).released(),
            old(facility).next() == u64::MAX ==> r is None && *final(facility) == *old(facility),
            old(facility).next() < u64::MAX ==> {
                &&& r is Some
                &&& r->0.handle() == old(facility).next()
                &&& r->0.source_path() == source_path(log@, source@)
                &&& !r->0.is_released()
                &&& !old(facility).live_handles().contains(r->0.handle())
                &&& final(facility).live_handles() == old(facility).live_handles().insert(
                    r->0.handle(),
                )
                &&& final(facility).registered() == old(facility).registered() + 1
            },
    {
        let path = build_source_registry_path(log, source);
        match facility.register_source(&path) {
            Some(h) => Some(EventLogger { source_handle: h, source: path, released: false }),
            None => None,
        }
    }

    /// Writes one entry of severity `event_type` through this handle.
    /// Nothing is written through a released handle or one the facility does
    /// not hold.
    pub fn write_entry(&self, facility: &mut EventFacility, message: &str, event_type: u16) -> (r:
        Result<(), WriteError>)
        requires
            old(facility).wf(),
        ensures
            final(facility).wf(),
            final(facility).live_handles() == old(facility).live_handles(),
            final(facility).registered() == old(facility).registered(),
            final(facility).released() == old(facility).released(),
            final(facility).next() == old(facility).next(),
            self.is_released() ==> r == Err::<(), WriteError>(WriteError::Released),
            !self.is_released() && !old(facility).live_handles().contains(self.handle()) ==> r
                == Err::<(), WriteError>(WriteError::Rejected),
            r is Ok <==> !self.is_released() && old(facility).live_handles().contains(
                self.handle(),
            ),
            final(facility).log() == (if r is Ok {
                old(facility).log().push((self.source_path(), event_type, message@))
            } else {
                old(facility).log()
            }),
    {
        if self.released {
            return Err(WriteError::Released);
        }
        if facility.report(self.source_handle, &self.source, event_type, message) {
            Ok(())
        } else {
            Err(WriteError::Rejected)
        }
    }

    /// Gives the handle back. Only the first call does so; a later one
    /// changes nothing and returns `false`.
    pub fn release(&mut self, facility: &mut EventFacility) -> (r: bool)
        requires
            old(facility).wf(),
        ensures
            final(facility).wf(),
            final(self).is_released(),
            final(self).handle() == old(self).handle(),
            final(self).source_path() == old(self).source_path(),
            final(facility).log() == old(facility).log(),
            final(facility).registered() == old(facility).registered(),
            final(facility).next() == old(facility).next(),
            old(self).is_released() ==> !r && *final(facility) == *old(facility),
            !old(self).is_released() ==> r == old(facility).live_handles().contains(
                old(self).handle(),
            ),
            final(facility).live_handles() == live_after_release(
                old(facility).live_handles(),
                old(self).handle(),
                old(self).is_released(),
            ),
            final(facility).released() == old(facility).released() + (if r { 1nat } else { 0nat }),
    {
        if self.released {
            return false;
        }
        self.released = true;
        facility.deregister(self.source_handle)
    }
}

/// Why one emission did not reach the facility.
#[derive(Clone, Copy, Debug, PartialEq, Eq, Structural)]
pub enum EmitError {
    /// No handle could be had for the source.
    Registration,
    /// The handle was had, and the write failed.
    Write(WriteError),
}

/// Registers source `source` of group `log`, writes `message` at severity
/// `event_type` through the handle and releases it. Whatever happens, every
/// handle registered here is released before return.
pub fn write_event(facility: &mut EventFacility, source: &str, log: &str, message: &str, event_type: u16) -> (r:
    Result<(), EmitError>)
    requires
        old(facility).wf(),
    ensures
        final(facility).wf(),
        final(facility).live_handles() == old(facility).live_handles(),
        final(facility).registered() - old(facility).registered() == final(facility).released()
            - old(facility).released(),
        old(facility).next() == u64::MAX ==> r == Err::<(), EmitError>(EmitError::Registration)
            && *final(facility) == *old(facility),
        old(facility).next() < u64::MAX ==> {
            &&& r is Ok
            &&& final(facility).registered() == old(facility).registered() + 1
            &&& final(facility).log() == old(facility).log().push(
                (source_path(log@, source@), event_type, message@),
            )
        },
{
    match EventLogger::register(facility, source, log) {
        None => Err(EmitError::Registration),
        Some(mut logger) => {
            let w = logger.write_entry(facility, message, event_type);
            let released = logger.release(facility);
            assert(released);
            assert(facility.live_handles() =~= old(facility).live_handles());
            match w {
                Ok(()) => Ok(()),
                Err(e) => Err(EmitError::Write(e)),
            }
        },
    }
}

} // verus!
