//! The connection registry: the process-wide mapping from a registered
//! identifier to the peer handle other connections use to reach it.
//!
//! The registry is modelled as a [`Map`] from character sequences to handle
//! views. Keys are unique; upserting under an existing key overwrites the
//! previous handle; removal is idempotent. The callers hold the single
//! mutual-exclusion guard around a value of this type.

use vstd::prelude::*;

use crate::parse::str_eq;

verus! {

/// The handle stored for a registered identifier: which connection to reach,
/// and the free-form role the peer supplied at registration.
#[derive(Debug)]
pub struct PeerHandle {
    /// Identifies the connection whose outbound queue receives relayed frames.
    pub conn: usize,
    /// Role tag from the register frame, e.g. `"sender"` or `"receiver"`.
    pub role: String,
}

/// Mathematical image of a [`PeerHandle`].
pub struct PeerHandleView {
    pub conn: usize,
    pub role: Seq<char>,
}

impl View for PeerHandle {
    type V = PeerHandleView;

    open spec fn view(&self) -> PeerHandleView {
        PeerHandleView { conn: self.conn, role: self.role@ }
    }
}

/// The map described by a sequence of key–handle entries; a later entry for
/// the same key overrides an earlier one.
pub closed spec fn map_of(s: Seq<(String, PeerHandle)>) -> Map<Seq<char>, PeerHandleView>
    decreases s.len(),
{
    if s.len() == 0 {
        Map::empty()
    } else {
        map_of(s.drop_last()).insert(s.last().0@, s.last().1@)
    }
}

/// No two entries share a key.
pub closed spec fn unique_keys(s: Seq<(String, PeerHandle)>) -> bool {
    forall|i: int, j: int| 0 <= i < j < s.len() ==> s[i].0@ != s[j].0@
}

proof fn lemma_map_of_contains(s: Seq<(String, PeerHandle)>, k: Seq<char>)
    ensures
        map_of(s).contains_key(k) <==> exists|i: int| 0 <= i < s.len() && s[i].0@ == k,
    decreases s.len(),
{
    if s.len() == 0 {
    } else {
        let pre = s.drop_last();
        lemma_map_of_contains(pre, k);
        if s.last().0@ == k {
            assert(s[s.len() - 1].0@ == k);
        } else {
            if map_of(s).contains_key(k) {
                let i = choose|i: int| 0 <= i < pre.len() && pre[i].0@ == k;
                assert(s[i].0@ == k);
            }
            if exists|i: int| 0 <= i < s.len() && s[i].0@ == k {
                let i = choose|i: int| 0 <= i < s.len() && s[i].0@ == k;
                assert(i < s.len() - 1);
                assert(pre[i].0@ == k);
            }
        }
    }
}

proof fn lemma_map_of_index(s: Seq<(String, PeerHandle)>, i: int)
    requires
        unique_keys(s),
        0 <= i < s.len(),
    ensures
        map_of(s).contains_key(s[i].0@),
        map_of(s)[s[i].0@] == s[i].1@,
    decreases s.len(),
{
    let pre = s.drop_last();
    if i == s.len() - 1 {
    } else {
        assert(unique_keys(pre)) by {
            assert(forall|a: int, b: int|
                0 <= a < b < pre.len() ==> pre[a].0@ == s[a].0@ && pre[b].0@ == s[b].0@);
        }
        lemma_map_of_index(pre, i);
        assert(s[i].0@ != s.last().0@);
    }
}

proof fn lemma_map_of_update(s: Seq<(String, PeerHandle)>, i: int, e: (String, PeerHandle))
    requires
        unique_keys(s),
        0 <= i < s.len(),
        e.0@ == s[i].0@,
    ensures
        map_of(s.update(i, e)) == map_of(s).insert(e.0@, e.1@),
        unique_keys(s.update(i, e)),
    decreases s.len(),
{
    let s2 = s.update(i, e);
    let pre = s.drop_last();
    let k = e.0@;
    assert(unique_keys(s2)) by {
        assert(forall|a: int, b: int| 0 <= a < b < s2.len() ==> s2[a].0@ != s2[b].0@) by {
            assert(forall|a: int| 0 <= a < s2.len() && a != i ==> s2[a].0@ == s[a].0@);
            assert(s2[i].0@ == s[i].0@);
        }
    }
    if i == s.len() - 1 {
        assert(s2.drop_last() =~= pre);
        assert(map_of(s2) == map_of(pre).insert(k, e.1@));
        assert(map_of(s).insert(k, e.1@) == map_of(pre).insert(s.last().0@, s.last().1@).insert(
            k,
            e.1@,
        ));
        assert(map_of(pre).insert(k, s.last().1@).insert(k, e.1@) =~= map_of(pre).insert(
            k,
            e.1@,
        ));
    } else {
        assert(unique_keys(pre)) by {
            assert(forall|a: int, b: int|
                0 <= a < b < pre.len() ==> pre[a].0@ == s[a].0@ && pre[b].0@ == s[b].0@);
        }
        assert(pre[i].0@ == s[i].0@);
        lemma_map_of_update(pre, i, e);
        assert(s2.drop_last() =~= pre.update(i, e));
        assert(s2.last() == s.last());
        let lk = s.last().0@;
        let lv = s.last().1@;
        assert(k != lk);
        assert(map_of(s2) == map_of(pre).insert(k, e.1@).insert(lk, lv));
        assert(map_of(pre).insert(k, e.1@).insert(lk, lv) =~= map_of(pre).insert(lk, lv).insert(
            k,
            e.1@,
        ));
        assert(map_of(s).insert(k, e.1@) == map_of(pre).insert(lk, lv).insert(k, e.1@));
    }
}

proof fn lemma_map_of_push(s: Seq<(String, PeerHandle)>, e: (String, PeerHandle))
    requires
        unique_keys(s),
        forall|i: int| 0 <= i < s.len() ==> s[i].0@ != e.0@,
    ensures
        map_of(s.push(e)) == map_of(s).insert(e.0@, e.1@),
        unique_keys(s.push(e)),
{
    let s2 = s.push(e);
    assert(s2.drop_last() =~= s);
    assert(s2.last() == e);
    assert(unique_keys(s2)) by {
        assert(forall|a: int| 0 <= a < s.len() ==> s2[a].0@ == s[a].0@);
        assert(s2[s2.len() - 1].0@ == e.0@);
    }
}

proof fn lemma_map_of_remove(s: Seq<(String, PeerHandle)>, i: int)
    requires
        unique_keys(s),
        0 <= i < s.len(),
    ensures
        map_of(s.remove(i)) == map_of(s).remove(s[i].0@),
        unique_keys(s.remove(i)),
    decreases s.len(),
{
    let s2 = s.remove(i);
    let pre = s.drop_last();
    let k = s[i].0@;
    assert(unique_keys(s2)) by {
        assert(forall|a: int| 0 <= a < s2.len() ==> s2[a].0@ == (if a < i {
            s[a].0@
        } else {
            s[a + 1].0@
        }));
    }
    assert(unique_keys(pre)) by {
        assert(forall|a: int, b: int|
            0 <= a < b < pre.len() ==> pre[a].0@ == s[a].0@ && pre[b].0@ == s[b].0@);
    }
    if i == s.len() - 1 {
        assert(s2 =~= pre);
        lemma_map_of_contains(pre, k);
        assert(!map_of(pre).contains_key(k)) by {
            assert(forall|a: int| 0 <= a < pre.len() ==> pre[a].0@ == s[a].0@ && s[a].0@ != k);
        }
        assert(map_of(s).remove(k) == map_of(pre).insert(k, s.last().1@).remove(k));
        assert(map_of(pre).insert(k, s.last().1@).remove(k) =~= map_of(pre));
    } else {
        assert(pre[i].0@ == s[i].0@);
        lemma_map_of_remove(pre, i);
        assert(s2.drop_last() =~= pre.remove(i));
        assert(s2.last() == s.last());
        let lk = s.last().0@;
        let lv = s.last().1@;
        assert(k != lk);
        assert(map_of(s2) == map_of(pre).remove(k).insert(lk, lv));
        assert(map_of(pre).remove(k).insert(lk, lv) =~= map_of(pre).insert(lk, lv).remove(k));
        assert(map_of(s).remove(k) == map_of(pre).insert(lk, lv).remove(k));
    }
}

/// The shared connection registry. Operations mirror the three the hub
/// needs: upsert, lookup, remove.
pub struct Registry {
    entries: Vec<(String, PeerHandle)>,
}

impl View for Registry {
    type V = Map<Seq<char>, PeerHandleView>;

    closed spec fn view(&self) -> Map<Seq<char>, PeerHandleView> {
        map_of(self.entries@)
    }
}

impl Registry {
    /// Internal well-formedness: entry keys are unique, so each key resolves
    /// to exactly one handle.
    pub closed spec fn wf(&self) -> bool {
        unique_keys(self.entries@)
    }

    /// An empty registry.
    pub fn new() -> (r: Registry)
        ensures
            r.wf(),
            r@ == Map::<Seq<char>, PeerHandleView>::empty(),
    {
        let r = Registry { entries: Vec::new() };
        proof {
            assert(r.entries@ =~= Seq::<(String, PeerHandle)>::empty());
        }
        r
    }

    /// Inserts or overwrites the handle for `id`; always succeeds, and the
    /// last writer wins.
    #[verifier::loop_isolation(false)]
    pub fn upsert(&mut self, id: String, handle: PeerHandle)
        requires
            old(self).wf(),
        ensures
            final(self).wf(),
            final(self)@ == old(self)@.insert(id@, handle@),
    {
        let ghost s0 = self.entries@;
        let n = self.entries.len();
        let mut i: usize = 0;
        while i < n
            invariant
                n == self.entries.len(),
                self.entries@ == s0,
                unique_keys(s0),
                i <= n,
                forall|j: int| 0 <= j < i ==> s0[j].0@ != id@,
            decreases n - i,
        {
            if str_eq(self.entries[i].0.as_str(), id.as_str()) {
                self.entries[i] = (id, handle);
                proof {
                    let e = self.entries@[i as int];
                    assert(self.entries@ == s0.update(i as int, e));
                    lemma_map_of_update(s0, i as int, e);
                }
                return ;
            }
            i += 1;
        }
        self.entries.push((id, handle));
        proof {
            assert(self.entries@ == s0.push(self.entries@.last()));
            lemma_map_of_push(s0, self.entries@.last());
        }
    }

    /// Non-blocking read: the handle registered under `id`, if any.
    #[verifier::loop_isolation(false)]
    pub fn lookup(&self, id: &str) -> (r: Option<&PeerHandle>)
        requires
            self.wf(),
        ensures
            match r {
                Some(h) => self@.contains_key(id@) && h@ == self@[id@],
                None => !self@.contains_key(id@),
            },
    {
        let n = self.entries.len();
        let mut i: usize = 0;
        while i < n
            invariant
                n == self.entries.len(),
                self.wf(),
                i <= n,
                forall|j: int| 0 <= j < i ==> self.entries@[j].0@ != id@,
            decreases n - i,
        {
            if str_eq(self.entries[i].0.as_str(), id) {
                proof {
                    lemma_map_of_index(self.entries@, i as int);
                }
                return Some(&self.entries[i].1);
            }
            i += 1;
        }
        proof {
            lemma_map_of_contains(self.entries@, id@);
        }
        None
    }

    /// Removes the entry for `id`; removing an absent id is a no-op.
    #[verifier::loop_isolation(false)]
    pub fn remove(&mut self, id: &str)
        requires
            old(self).wf(),
        ensures
            final(self).wf(),
            final(self)@ == old(self)@.remove(id@),
    {
        let ghost s0 = self.entries@;
        let n = self.entries.len();
        let mut i: usize = 0;
        while i < n
            invariant
                n == self.entries.len(),
                self.entries@ == s0,
                unique_keys(s0),
                i <= n,
                forall|j: int| 0 <= j < i ==> s0[j].0@ != id@,
            decreases n - i,
        {
            if str_eq(self.entries[i].0.as_str(), id) {
                self.entries.remove(i);
                proof {
                    assert(self.entries@ == s0.remove(i as int));
                    lemma_map_of_remove(s0, i as int);
                }
                return ;
            }
            i += 1;
        }
        proof {
            lemma_map_of_contains(s0, id@);
            assert(!map_of(s0).contains_key(id@)) by {
                assert(forall|j: int| 0 <= j < s0.len() ==> s0[j].0@ != id@);
            }
            assert(map_of(s0).remove(id@) =~= map_of(s0));
        }
    }
}

} // verus!
