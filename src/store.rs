//! The configuration store that holds one key per registered source, and the
//! source lifecycle (exists / create / delete) on top of it.
use vstd::prelude::*;
use crate::error::{
    check_status, open_status_exists, status_result, StoreError, StoreOp, ERROR_ACCESS_DENIED,
    ERROR_FILE_NOT_FOUND, ERROR_SUCCESS,
};
use crate::path::{build_source_registry_path, source_path, PATH_SEPARATOR};

verus! {

/// Key `k` lies strictly below key `p` in the hierarchy.
pub open spec fn is_below(k: Seq<char>, p: Seq<char>) -> bool {
    &&& k.len() > p.len()
    &&& k.subrange(0, p.len() as int) == p
    &&& k[p.len() as int] == PATH_SEPARATOR
}

/// Some key of `keys` lies below `p`.
pub open spec fn has_subkey(keys: Set<Seq<char>>, p: Seq<char>) -> bool {
    exists|k: Seq<char>| keys.contains(k) && #[trigger] is_below(k, p)
}

/// The status with which the store answers a request to delete `p`.
pub open spec fn delete_status(keys: Set<Seq<char>>, p: Seq<char>) -> u32 {
    if !keys.contains(p) {
        ERROR_FILE_NOT_FOUND
    } else if has_subkey(keys, p) {
        ERROR_ACCESS_DENIED
    } else {
        ERROR_SUCCESS
    }
}

/// The keys after a request to delete `p`: a leaf that exists goes, nothing else changes.
pub open spec fn after_delete(keys: Set<Seq<char>>, p: Seq<char>) -> Set<Seq<char>> {
    if delete_status(keys, p) == ERROR_SUCCESS {
        keys.remove(p)
    } else {
        keys
    }
}

/// An in-memory configuration store with the same answers as the host's:
/// a key is present once created, creating a present key succeeds and changes
/// nothing, deleting an absent key or a key with subkeys fails.
/// Keys are recorded as created; ancestors are not added implicitly.
pub struct ConfigStore {
    keys: Vec<String>,
}

impl View for ConfigStore {
    type V = Set<Seq<char>>;

    closed spec fn view(&self) -> Set<Seq<char>> {
        Set::new(|p: Seq<char>| exists|i: int| 0 <= i < self.keys@.len() && #[trigger] self.keys@[i]@ == p)
    }
}

/// Whether key `k` lies strictly below key `p`.
fn key_is_below(k: &String, p: &String) -> (r: bool)
    ensures
        r == is_below(k@, p@),
{
    let kn = k.as_str().unicode_len();
    let pn = p.as_str().unicode_len();
    if kn <= pn {
        return false;
    }
    let mut i: usize = 0;
    while i < pn
        invariant
            kn == k@.len(),
            pn == p@.len(),
            pn < kn,
            i <= pn,
            forall|j: int| 0 <= j < i ==> k@[j] == p@[j],
        decreases pn - i,
    {
        if k.as_str().get_char(i) != p.as_str().get_char(i) {
            assert(k@.subrange(0, pn as int)[i as int] != p@[i as int]);
            return false;
        }
        i = i + 1;
    }
    assert(k@.subrange(0, pn as int) =~= p@);
    k.as_str().get_char(pn) == PATH_SEPARATOR
}

impl ConfigStore {
    /// Every key is recorded once.
    pub closed spec fn wf(&self) -> bool {
        forall|i: int, j: int|
            0 <= i < self.keys@.len() && 0 <= j < self.keys@.len() && i != j
                ==> #[trigger] self.keys@[i]@ != #[trigger] self.keys@[j]@
    }

    /// Number of records held for key `p`.
    pub closed spec fn record_count(&self, p: Seq<char>) -> nat {
        self.record_positions(p).len()
    }

    /// Positions at which key `p` is recorded.
    closed spec fn record_positions(&self, p: Seq<char>) -> Set<int> {
        Set::new(|i: int| 0 <= i < self.keys@.len() && self.keys@[i]@ == p)
    }

    /// A well-formed store holds one record of each key it has and none of others.
    pub proof fn lemma_record_count(&self, p: Seq<char>)
        requires
            self.wf(),
        ensures
            self.record_count(p) == (if self@.contains(p) { 1nat } else { 0nat }),
    {
        let idx = self.record_positions(p);
        if self@.contains(p) {
            let i = choose|i: int| 0 <= i < self.keys@.len() && #[trigger] self.keys@[i]@ == p;
            assert(idx =~= set![i]);
            assert(set![i].len() == 1);
        } else {
            assert(idx =~= Set::<int>::empty());
        }
    }

    /// An empty store.
    pub fn new() -> (r: Self)
        ensures
            r.wf(),
            r@ == Set::<Seq<char>>::empty(),
    {
        let r = ConfigStore { keys: Vec::new() };
        assert(r@ =~= Set::<Seq<char>>::empty());
        r
    }

    /// Position of key `p`, if present.
    fn find(&self, p: &String) -> (r: Option<usize>)
        ensures
            match r {
                Some(i) => i < self.keys@.len() && self.keys@[i as int]@ == p@,
                None => !self@.contains(p@),
            },
    {
        let mut i: usize = 0;
        while i < self.keys.len()
            invariant
                i <= self.keys@.len(),
                forall|j: int| 0 <= j < i ==> self.keys@[j]@ != p@,
            decreases self.keys@.len() - i,
        {
            if self.keys[i] == *p {
                return Some(i);
            }
            i = i + 1;
        }
        None
    }

    /// Whether some key lies below `p`.
    fn any_below(&self, p: &String) -> (r: bool)
        ensures
            r == has_subkey(self@, p@),
    {
        let mut i: usize = 0;
        while i < self.keys.len()
            invariant
                i <= self.keys@.len(),
                forall|j: int| 0 <= j < i ==> !is_below(self.keys@[j]@, p@),
            decreases self.keys@.len() - i,
        {
            if key_is_below(&self.keys[i], p) {
                assert(self@.contains(self.keys@[i as int]@));
                return true;
            }
            i = i + 1;
        }
        assert forall|k: Seq<char>| self@.contains(k) implies !is_below(k, p@) by {
            let j = choose|j: int| 0 <= j < self.keys@.len() && #[trigger] self.keys@[j]@ == k;
        }
        false
    }

    /// Opens key `p` for reading: success when present, not-found otherwise.
    pub fn open_key(&self, p: &String) -> (status: u32)
        ensures
            status == (if self@.contains(p@) { ERROR_SUCCESS } else { ERROR_FILE_NOT_FOUND }),
    {
        match self.find(p) {
            Some(i) => {
                assert(self@.contains(self.keys@[i as int]@));
                ERROR_SUCCESS
            },
            None => ERROR_FILE_NOT_FOUND,
        }
    }

    /// Opens key `p`, creating it when absent. Always succeeds.
    pub fn create_key(&mut self, p: &String) -> (status: u32)
        requires
            old(self).wf(),
        ensures
            final(self).wf(),
            status == ERROR_SUCCESS,
            final(self)@ == old(self)@.insert(p@),
    {
        match self.find(p) {
            Some(i) => {
                assert(self@.contains(self.keys@[i as int]@));
                assert(self@ =~= self@.insert(p@));
            },
            None => {
                let ghost before = self.keys@;
                self.keys.push(p.clone());
                assert(self.keys@[before.len() as int]@ == p@);
                assert forall|q: Seq<char>| #[trigger] self@.contains(q) == old(self)@.insert(p@).contains(q) by {
                    if q != p@ && self@.contains(q) {
                        let j = choose|j: int| 0 <= j < self.keys@.len() && #[trigger] self.keys@[j]@ == q;
                        assert(before[j]@ == q);
                    }
                    if old(self)@.contains(q) {
                        let j = choose|j: int| 0 <= j < before.len() && #[trigger] before[j]@ == q;
                        assert(self.keys@[j]@ == q);
                    }
                }
                assert(self@ =~= old(self)@.insert(p@));
            },
        }
        ERROR_SUCCESS
    }

    /// Deletes key `p` when it is present and has no subkeys.
    pub fn delete_key(&mut self, p: &String) -> (status: u32)
        requires
            old(self).wf(),
        ensures
            final(self).wf(),
            status == delete_status(old(self)@, p@),
            final(self)@ == after_delete(old(self)@, p@),
    {
        match self.find(p) {
            None => ERROR_FILE_NOT_FOUND,
            Some(i) => {
                assert(self@.contains(p@));
                if self.any_below(p) {
                    ERROR_ACCESS_DENIED
                } else {
                    let ghost before = self.keys@;
                    self.keys.remove(i);
                    assert forall|q: Seq<char>| #[trigger] self@.contains(q) == old(self)@.remove(p@).contains(q) by {
                        if self@.contains(q) {
                            let j = choose|j: int| 0 <= j < self.keys@.len() && #[trigger] self.keys@[j]@ == q;
                            if j < i {
                                assert(before[j]@ == q);
                            } else {
                                assert(before[j + 1]@ == q);
                            }
                        }
                        if old(self)@.contains(q) && q != p@ {
                            let j = choose|j: int| 0 <= j < before.len() && #[trigger] before[j]@ == q;
                            if j < i {
                                assert(self.keys@[j]@ == q);
                            } else {
                                assert(j != i);
                                assert(self.keys@[j - 1]@ == q);
                            }
                        }
                    }
                    assert(self@ =~= old(self)@.remove(p@));
                    ERROR_SUCCESS
                }
            },
        }
    }
}

/// Whether the record of source `source_name` in group `log_name` is present.
/// Any failure to open the key reads as absence.
pub fn source_exists(store: &ConfigStore, log_name: &str, source_name: &str) -> (r: bool)
    ensures
        r == store@.contains(source_path(log_name@, source_name@)),
{
    let path = build_source_registry_path(log_name, source_name);
    open_status_exists(store.open_key(&path))
}

/// Creates the record of source `source_name` in group `log_name`, or keeps
/// the one that is there.
pub fn create_event_source(store: &mut ConfigStore, log_name: &str, source_name: &str) -> (r:
    Result<(), StoreError>)
    requires
        old(store).wf(),
    ensures
        final(store).wf(),
        r == status_result(StoreOp::CreateKey, ERROR_SUCCESS),
        r is Ok,
        final(store)@ == old(store)@.insert(source_path(log_name@, source_name@)),
        final(store).record_count(source_path(log_name@, source_name@)) == 1,
{
    let path = build_source_registry_path(log_name, source_name);
    let status = store.create_key(&path);
    proof {
        store.lemma_record_count(path@);
    }
    check_status(StoreOp::CreateKey, status)
}

/// Deletes the record of source `source_name` in group `log_name`. Fails with
/// not-found when it is absent and with access-denied when keys lie below it.
pub fn delete_event_source(store: &mut ConfigStore, log_name: &str, source_name: &str) -> (r:
    Result<(), StoreError>)
    requires
        old(store).wf(),
    ensures
        final(store).wf(),
        r == status_result(
            StoreOp::DeleteKey,
            delete_status(old(store)@, source_path(log_name@, source_name@)),
        ),
        final(store)@ == after_delete(old(store)@, source_path(log_name@, source_name@)),
        r is Ok ==> final(store).record_count(source_path(log_name@, source_name@)) == 0,
{
    let path = build_source_registry_path(log_name, source_name);
    let status = store.delete_key(&path);
    proof {
        store.lemma_record_count(path@);
    }
    check_status(StoreOp::DeleteKey, status)
}

/// Once a source has been created, it exists.
pub proof fn lemma_create_then_exists(keys: Set<Seq<char>>, log: Seq<char>, source: Seq<char>)
    ensures
        keys.insert(source_path(log, source)).contains(source_path(log, source)),
{
}

/// Creating a source twice succeeds both times and leaves the store as one
/// creation does, so the record is held once.
pub proof fn lemma_create_idempotent(keys: Set<Seq<char>>, log: Seq<char>, source: Seq<char>)
    ensures
        keys.insert(source_path(log, source)).insert(source_path(log, source)) == keys.insert(
            source_path(log, source),
        ),
        status_result(StoreOp::CreateKey, ERROR_SUCCESS) is Ok,
{
    let p = source_path(log, source);
    assert(keys.insert(p).insert(p) =~= keys.insert(p));
}

/// After a source is deleted it no longer exists, unless keys lie below its
/// record, in which case the delete is refused.
pub proof fn lemma_delete_then_absent(keys: Set<Seq<char>>, log: Seq<char>, source: Seq<char>)
    requires
        !has_subkey(keys, source_path(log, source)),
    ensures
        !after_delete(keys, source_path(log, source)).contains(source_path(log, source)),
{
}

/// Deleting a source that does not exist reports a not-found `StoreError`.
pub proof fn lemma_delete_missing_fails(keys: Set<Seq<char>>, log: Seq<char>, source: Seq<char>)
    requires
        !keys.contains(source_path(log, source)),
    ensures
        status_result(StoreOp::DeleteKey, delete_status(keys, source_path(log, source)))
            == Err::<(), StoreError>(
            StoreError { operation: StoreOp::DeleteKey, code: ERROR_FILE_NOT_FOUND },
        ),
        after_delete(keys, source_path(log, source)) == keys,
{
}

} // verus!
