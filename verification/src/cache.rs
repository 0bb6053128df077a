//! A deduplicating cache of remote resources, keyed by URL.
//!
//! Each key's entry runs through the lifecycle `Pending -> Ready | Failed`
//! exactly once.  `ensure` inserts the `Pending` placeholder and reports
//! whether a population task must be scheduled; `complete` is the write-back
//! of such a task, a no-op when the entry is gone (after `clear`) or already
//! terminal; `get` is the non-blocking read that a polling consumer makes
//! every frame.
//!
//! The caller that shares one `Cache` among threads must make each call an
//! atomic step (a lock around the whole cache suffices); every operation here
//! is a single such step and never blocks on anything.

use vstd::prelude::*;
use vstd::seq_lib::*;

verus! {

/// Why a fetch attempt failed.
#[derive(Clone, Copy, PartialEq, Eq, Structural, Debug)]
pub enum FetchError {
    /// Transport or connection failure.
    Network,
    /// Bytes were retrieved but could not be decoded as a resource.
    Decode,
}

/// Lifecycle state of one cached resource.
pub enum EntryState<R> {
    /// Requested; its population task has not completed.
    Pending,
    /// The population task delivered a resource.
    Ready(R),
    /// The population task failed; the failure is terminal for this entry.
    Failed,
}

/// `Ready` and `Failed` are terminal: no later transition leaves them.
pub open spec fn is_terminal<R>(s: EntryState<R>) -> bool {
    s is Ready || s is Failed
}

/// The entry state that a fetch outcome writes back.
pub open spec fn outcome_state<R>(outcome: Result<R, FetchError>) -> EntryState<R> {
    match outcome {
        Ok(r) => EntryState::Ready(r),
        Err(_) => EntryState::Failed,
    }
}

/// What `ensure` does to the cache contents: insert a `Pending` placeholder
/// and schedule a population task only when the key was absent.
pub open spec fn spec_ensure<R>(m: Map<Seq<char>, EntryState<R>>, k: Seq<char>) -> (
    Map<Seq<char>, EntryState<R>>,
    bool,
) {
    if m.contains_key(k) {
        (m, false)
    } else {
        (m.insert(k, EntryState::Pending), true)
    }
}

/// What `get` returns: the entry's current state, or `None` for a key never
/// requested.
pub open spec fn spec_get<R>(m: Map<Seq<char>, EntryState<R>>, k: Seq<char>) -> Option<
    EntryState<R>,
> {
    if m.contains_key(k) {
        Some(m[k])
    } else {
        None
    }
}

/// What a population task's write-back does: record the outcome while the
/// entry is still `Pending`, and otherwise discard the result (the key was
/// cleared, or the entry already reached a terminal state).
pub open spec fn spec_complete<R>(
    m: Map<Seq<char>, EntryState<R>>,
    k: Seq<char>,
    outcome: Result<R, FetchError>,
) -> (Map<Seq<char>, EntryState<R>>, bool) {
    if m.contains_key(k) && m[k] is Pending {
        (m.insert(k, outcome_state(outcome)), true)
    } else {
        (m, false)
    }
}

/// The key->entry store.  Its abstract value (the view) is a map from key
/// characters to entry state.
pub struct Cache<R> {
    entries: Vec<(String, EntryState<R>)>,
}

impl<R> View for Cache<R> {
    type V = Map<Seq<char>, EntryState<R>>;

    closed spec fn view(&self) -> Map<Seq<char>, EntryState<R>> {
        Map::new(
            |k: Seq<char>|
                exists|i: int|
                    0 <= i < self.entries@.len() && #[trigger] self.entries@[i].0@ == k,
            |k: Seq<char>|
                {
                    let i = choose|i: int|
                        0 <= i < self.entries@.len() && #[trigger] self.entries@[i].0@ == k;
                    self.entries@[i].1
                },
        )
    }
}

impl<R> Cache<R> {
    /// Well-formedness: no key occurs twice in the store.
    pub closed spec fn wf(&self) -> bool {
        forall|i: int, j: int|
            0 <= i < j < self.entries@.len() ==> #[trigger] self.entries@[i].0@
                != #[trigger] self.entries@[j].0@
    }

    proof fn lemma_view_index(&self, i: int)
        requires
            self.wf(),
            0 <= i < self.entries@.len(),
        ensures
            self@.contains_key(self.entries@[i].0@),
            self@[self.entries@[i].0@] == self.entries@[i].1,
    {
        let k = self.entries@[i].0@;
        assert(0 <= i < self.entries@.len() && self.entries@[i].0@ == k);
        let j = choose|j: int|
            0 <= j < self.entries@.len() && #[trigger] self.entries@[j].0@ == k;
        if j != i {
            assert(self.entries@[i].0@ != self.entries@[j].0@);
        }
    }

    proof fn lemma_view_absent(&self, k: Seq<char>)
        requires
            forall|i: int|
                0 <= i < self.entries@.len() ==> #[trigger] self.entries@[i].0@ != k,
        ensures
            !self@.contains_key(k),
    {
    }

    /// An empty cache: created once at application start.
    pub fn new() -> (c: Cache<R>)
        ensures
            c.wf(),
            c@ == Map::<Seq<char>, EntryState<R>>::empty(),
    {
        let c = Cache { entries: Vec::new() };
        proof {
            assert(c@ =~= Map::<Seq<char>, EntryState<R>>::empty());
        }
        c
    }

    fn find_index(&self, key: &String) -> (r: Option<usize>)
        ensures
            match r {
                Some(i) => 0 <= i < self.entries@.len() && self.entries@[i as int].0@ == key@,
                None => forall|i: int|
                    0 <= i < self.entries@.len() ==> #[trigger] self.entries@[i].0@ != key@,
            },
    {
        let n = self.entries.len();
        let mut idx: usize = 0;
        while idx < n
            invariant
                n == self.entries@.len(),
                idx <= n,
                forall|i: int| 0 <= i < idx ==> #[trigger] self.entries@[i].0@ != key@,
            decreases n - idx,
        {
            if self.entries[idx].0 == *key {
                return Some(idx);
            }
            idx = idx + 1;
        }
        None
    }

    /// Request the resource under `key`.  When the key is new, a `Pending`
    /// placeholder is inserted (before any network activity) and the result
    /// is `true`: the caller must schedule exactly one population task, whose
    /// write-back is `complete`.  When the key is already present, in any
    /// state, nothing changes and no task is owed: at most one fetch is ever
    /// in flight per key.
    pub fn ensure(&mut self, key: String) -> (scheduled: bool)
        requires
            old(self).wf(),
        ensures
            final(self).wf(),
            (final(self)@, scheduled) == spec_ensure(old(self)@, key@),
            scheduled == !old(self)@.contains_key(key@),
            final(self)@.contains_key(key@),
    {
        match self.find_index(&key) {
            Some(i) => {
                proof {
                    self.lemma_view_index(i as int);
                }
                false
            },
            None => {
                proof {
                    self.lemma_view_absent(key@);
                }
                let ghost old_self = *self;
                self.entries.push((key, EntryState::Pending));
                proof {
                    let n = old_self.entries@.len();
                    assert forall|i: int, j: int|
                        0 <= i < j < self.entries@.len() implies #[trigger] self.entries@[i].0@
                        != #[trigger] self.entries@[j].0@ by {
                        if j < n {
                            assert(old_self.entries@[i].0@ != old_self.entries@[j].0@);
                        } else {
                            assert(old_self.entries@[i].0@ != key@);
                        }
                    }
                    self.lemma_push_view(old_self, key@);
                }
                true
            },
        }
    }

    proof fn lemma_push_view(&self, old_self: Cache<R>, k: Seq<char>)
        requires
            old_self.wf(),
            self.wf(),
            self.entries@.len() == old_self.entries@.len() + 1,
            forall|i: int|
                0 <= i < old_self.entries@.len() ==> self.entries@[i] == old_self.entries@[i],
            self.entries@.last().0@ == k,
            self.entries@.last().1 is Pending,
            !old_self@.contains_key(k),
        ensures
            self@ == old_self@.insert(k, EntryState::<R>::Pending),
    {
        let n = old_self.entries@.len();
        assert forall|k2: Seq<char>| #[trigger]
            self@.contains_key(k2) implies old_self@.insert(k, EntryState::<R>::Pending).contains_key(
            k2,
        ) && self@[k2] == old_self@.insert(k, EntryState::<R>::Pending)[k2] by {
            let i = choose|i: int|
                0 <= i < self.entries@.len() && #[trigger] self.entries@[i].0@ == k2;
            self.lemma_view_index(i);
            if i == n {
                assert(k2 == k);
                assert(self@[k2] == self.entries@[i].1);
            } else {
                assert(old_self.entries@[i].0@ == k2);
                old_self.lemma_view_index(i);
                if k2 == k {
                    assert(old_self@.contains_key(k));
                }
            }
        }
        assert forall|k2: Seq<char>| #[trigger]
            old_self@.insert(k, EntryState::<R>::Pending).contains_key(k2) implies self@.contains_key(
            k2,
        ) by {
            if k2 == k {
                assert(self.entries@[n as int].0@ == k2);
            } else {
                let i = choose|i: int|
                    0 <= i < old_self.entries@.len() && #[trigger] old_self.entries@[i].0@ == k2;
                assert(self.entries@[i].0@ == k2);
            }
        }
        assert(self@ =~= old_self@.insert(k, EntryState::<R>::Pending));
    }

    /// Non-blocking read of whatever is known of `key` right now: `None` for
    /// a key never requested, otherwise the entry's current state, possibly
    /// still `Pending`.  Never waits for a fetch.
    pub fn get(&self, key: &String) -> (r: Option<&EntryState<R>>)
        requires
            self.wf(),
        ensures
            match r {
                Some(state) => self@.contains_key(key@) && *state == self@[key@],
                None => !self@.contains_key(key@),
            },
            (match r {
                Some(state) => Some(*state),
                None => None,
            }) == spec_get(self@, key@),
    {
        match self.find_index(key) {
            Some(i) => {
                proof {
                    self.lemma_view_index(i as int);
                }
                Some(&self.entries[i].1)
            },
            None => {
                proof {
                    self.lemma_view_absent(key@);
                }
                None
            },
        }
    }

    /// Write-back of a population task's outcome.  It lands only while the
    /// entry is still `Pending`; a result addressed to a cleared key, or to
    /// an entry that already reached `Ready` or `Failed`, is discarded as a
    /// harmless no-op.  Returns whether the outcome was recorded.
    pub fn complete(&mut self, key: &String, outcome: Result<R, FetchError>) -> (applied: bool)
        requires
            old(self).wf(),
        ensures
            final(self).wf(),
            (final(self)@, applied) == spec_complete(old(self)@, key@, outcome),
    {
        match self.find_index(key) {
            None => {
                proof {
                    self.lemma_view_absent(key@);
                }
                false
            },
            Some(i) => {
                proof {
                    self.lemma_view_index(i as int);
                }
                let pending = match &self.entries[i].1 {
                    EntryState::Pending => true,
                    _ => false,
                };
                if !pending {
                    return false;
                }
                let ghost old_self = *self;
                let pair = self.entries.remove(i);
                let state = match outcome {
                    Ok(r) => EntryState::Ready(r),
                    Err(_) => EntryState::Failed,
                };
                self.entries.insert(i, (pair.0, state));
                proof {
                    assert(self.entries@ =~= old_self.entries@.update(
                        i as int,
                        (old_self.entries@[i as int].0, outcome_state(outcome)),
                    ));
                    assert forall|a: int, b: int|
                        0 <= a < b < self.entries@.len() implies #[trigger] self.entries@[a].0@
                        != #[trigger] self.entries@[b].0@ by {
                        assert(self.entries@[a].0@ == old_self.entries@[a].0@);
                        assert(self.entries@[b].0@ == old_self.entries@[b].0@);
                        assert(old_self.entries@[a].0@ != old_self.entries@[b].0@);
                    }
                    self.lemma_update_view(old_self, i as int, key@, outcome_state(outcome));
                }
                true
            },
        }
    }

    proof fn lemma_update_view(&self, old_self: Cache<R>, i: int, k: Seq<char>, s: EntryState<R>)
        requires
            old_self.wf(),
            self.wf(),
            0 <= i < old_self.entries@.len(),
            old_self.entries@[i].0@ == k,
            self.entries@ == old_self.entries@.update(i, (old_self.entries@[i].0, s)),
        ensures
            self@ == old_self@.insert(k, s),
    {
        assert forall|k2: Seq<char>| #[trigger]
            self@.contains_key(k2) implies old_self@.insert(k, s).contains_key(k2) && self@[k2]
            == old_self@.insert(k, s)[k2] by {
            let a = choose|a: int|
                0 <= a < self.entries@.len() && #[trigger] self.entries@[a].0@ == k2;
            self.lemma_view_index(a);
            assert(old_self.entries@[a].0@ == k2);
            old_self.lemma_view_index(a);
            if k2 == k {
                if a != i {
                    assert(old_self.entries@[a].0@ != old_self.entries@[i].0@);
                }
                assert(self@[k2] == s);
            } else {
                assert(a != i);
                assert(self@[k2] == old_self@[k2]);
            }
        }
        assert forall|k2: Seq<char>| #[trigger]
            old_self@.insert(k, s).contains_key(k2) implies self@.contains_key(k2) by {
            if k2 == k {
                assert(self.entries@[i].0@ == k2);
            } else {
                let a = choose|a: int|
                    0 <= a < old_self.entries@.len() && #[trigger] old_self.entries@[a].0@ == k2;
                assert(a != i);
                assert(self.entries@[a].0@ == k2);
            }
        }
        assert(self@ =~= old_self@.insert(k, s));
    }

    /// Drop every entry, as on logout or reset.  Population tasks already in
    /// flight are not cancelled; their later write-backs find no entry and
    /// are discarded by `complete`.
    pub fn clear(&mut self)
        ensures
            final(self).wf(),
            final(self)@ == Map::<Seq<char>, EntryState<R>>::empty(),
    {
        self.entries.clear();
        proof {
            assert(self@ =~= Map::<Seq<char>, EntryState<R>>::empty());
        }
    }

    /// How many keys have ever been requested since the last `clear`.
    pub fn len(&self) -> (n: usize)
        requires
            self.wf(),
        ensures
            n == self@.dom().len(),
    {
        let n = self.entries.len();
        proof {
            self.lemma_len();
        }
        n
    }

    proof fn lemma_len(&self)
        requires
            self.wf(),
        ensures
            self@.dom().len() == self.entries@.len(),
            self@.dom().finite(),
    {
        let keys = self.entries@.map_values(|p: (String, EntryState<R>)| p.0@);
        assert(keys.no_duplicates()) by {
            assert forall|i: int, j: int|
                0 <= i < keys.len() && 0 <= j < keys.len() && i != j implies keys[i] != keys[j] by {
                if i < j {
                    assert(self.entries@[i].0@ != self.entries@[j].0@);
                } else {
                    assert(self.entries@[j].0@ != self.entries@[i].0@);
                }
            }
        }
        assert(self@.dom() =~= keys.to_set()) by {
            assert forall|k: Seq<char>| #[trigger] self@.dom().contains(k) implies keys.to_set().contains(
                k,
            ) by {
                let i = choose|i: int|
                    0 <= i < self.entries@.len() && #[trigger] self.entries@[i].0@ == k;
                assert(keys[i] == k);
            }
            assert forall|k: Seq<char>| #[trigger] keys.to_set().contains(k) implies self@.dom().contains(
                k,
            ) by {
                let i = choose|i: int| 0 <= i < keys.len() && keys[i] == k;
                assert(self.entries@[i].0@ == k);
            }
        }
        keys.unique_seq_to_set();
    }
}

/// Law: however many times a key is `ensure`d, exactly one population task is
/// scheduled for it — the first call on an absent key schedules one, and every
/// later call finds the key present, changes nothing and schedules nothing.
pub proof fn lemma_ensure_schedules_once<R>(m: Map<Seq<char>, EntryState<R>>, k: Seq<char>)
    ensures
        ({
            let (m1, s1) = spec_ensure(m, k);
            let (m2, s2) = spec_ensure(m1, k);
            &&& s1 == !m.contains_key(k)
            &&& m2 == m1
            &&& !s2
        }),
{
}

/// Law: a key never requested reads as unknown (`None`, not `Pending`), and
/// immediately after `ensure` — before its population task completes — it
/// reads as `Pending`.
pub proof fn lemma_unknown_then_pending<R>(m: Map<Seq<char>, EntryState<R>>, k: Seq<char>)
    requires
        !m.contains_key(k),
    ensures
        spec_get(m, k) is None,
        spec_get(spec_ensure(m, k).0, k) == Some(EntryState::<R>::Pending),
{
}

/// Law: a terminal entry (`Ready` or `Failed`) never changes again.  Whatever
/// key another `ensure` or write-back touches, a read of `k` keeps returning
/// the same terminal state, and a write-back addressed to `k` itself is
/// discarded.
pub proof fn lemma_terminal_is_stable<R>(
    m: Map<Seq<char>, EntryState<R>>,
    k: Seq<char>,
    k2: Seq<char>,
    outcome: Result<R, FetchError>,
)
    requires
        m.contains_key(k),
        is_terminal(m[k]),
    ensures
        spec_get(spec_ensure(m, k2).0, k) == Some(m[k]),
        spec_get(spec_complete(m, k2, outcome).0, k) == Some(m[k]),
        spec_complete(m, k, outcome) == (m, false),
{
}

/// Law: after `clear`, a previously `Ready` (or any) key is absent again, so
/// `ensure` schedules exactly one fresh population task for it; a stale task
/// from before the clear that writes back first finds no entry and is
/// discarded, leaving the cache empty.
pub proof fn lemma_clear_then_ensure_refetches<R>(k: Seq<char>, outcome: Result<R, FetchError>)
    ensures
        ({
            let empty = Map::<Seq<char>, EntryState<R>>::empty();
            &&& spec_complete(empty, k, outcome) == (empty, false)
            &&& spec_ensure(empty, k).1 == true
            &&& spec_get(spec_ensure(empty, k).0, k) == Some(EntryState::<R>::Pending)
        }),
{
}

} // verus!
