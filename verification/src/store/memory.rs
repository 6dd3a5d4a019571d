//! The in-memory session store.
//!
//! A primary association list maps session ids to records; a secondary
//! index, ordered by expiry instant, makes the oldest unswept expiry cheap
//! to find. Every `insert`, `get` and `mark_last_used` first sweeps all
//! entries whose `valid_till` has been reached. `remove` drops only the
//! primary entry; the index entry stays behind as a tombstone and is
//! collected when the sweep reaches its instant — an intentional
//! amortization.

use vstd::prelude::*;

use crate::model::data::{spec_sweep, SessionData, SessionDataView};
use crate::model::store::Error;
use crate::utils::text::str_eq;
use crate::SessionStore;

verus! {

/// The map an association list stands for; later entries win.
spec fn assoc_map(s: Seq<(String, SessionData)>) -> Map<Seq<char>, SessionDataView>
    decreases s.len(),
{
    if s.len() == 0 {
        Map::<Seq<char>, SessionDataView>::empty()
    } else {
        assoc_map(s.drop_last()).insert(s.last().0@, s.last().1@)
    }
}

spec fn keys_unique(s: Seq<(String, SessionData)>) -> bool {
    forall|i: int, j: int| 0 <= i < j < s.len() ==> s[i].0@ != s[j].0@
}

spec fn exp_keys_unique(e: Seq<(i64, String)>) -> bool {
    forall|i: int, j: int| 0 <= i < j < e.len() ==> e[i].1@ != e[j].1@
}

spec fn exp_sorted(e: Seq<(i64, String)>) -> bool {
    forall|i: int, j: int| 0 <= i < j < e.len() ==> e[i].0 <= e[j].0
}

/// The index holds an entry binding instant `t` to id `k`.
spec fn has_entry(e: Seq<(i64, String)>, t: i64, k: Seq<char>) -> bool {
    exists|j: int| 0 <= j < e.len() && (#[trigger] e[j]).0 == t && e[j].1@ == k
}

/// Every record is listed in the index under its own `valid_till`.
spec fn linked(s: Seq<(String, SessionData)>, e: Seq<(i64, String)>) -> bool {
    forall|i: int| #![trigger s[i]]
        0 <= i < s.len() ==> has_entry(e, s[i].1.valid_till, s[i].0@)
}

/// The set of `(instant, id)` entries an index sequence holds.
spec fn exp_set(e: Seq<(i64, String)>) -> Set<(i64, Seq<char>)>
    decreases e.len(),
{
    if e.len() == 0 {
        Set::<(i64, Seq<char>)>::empty()
    } else {
        exp_set(e.drop_last()).insert((e.last().0, e.last().1@))
    }
}

/// The index entries still live at `now`: those whose instant lies beyond it.
pub open spec fn spec_live_index(s: Set<(i64, Seq<char>)>, now: int) -> Set<(i64, Seq<char>)> {
    s.filter(|p: (i64, Seq<char>)| p.0 > now)
}

/// The index without any entry carrying the given id.
pub open spec fn spec_drop_id(s: Set<(i64, Seq<char>)>, id: Seq<char>) -> Set<(i64, Seq<char>)> {
    s.filter(|p: (i64, Seq<char>)| p.1 != id)
}

proof fn lemma_exp_set_contains(e: Seq<(i64, String)>, p: (i64, Seq<char>))
    ensures
        exp_set(e).contains(p) <==> exists|j: int|
            0 <= j < e.len() && (#[trigger] e[j]).0 == p.0 && e[j].1@ == p.1,
    decreases e.len(),
{
    if e.len() > 0 {
        let pre = e.drop_last();
        lemma_exp_set_contains(pre, p);
        if p == (e.last().0, e.last().1@) {
            assert(e[e.len() - 1].0 == p.0 && e[e.len() - 1].1@ == p.1);
        } else {
            if exp_set(e).contains(p) {
                let j = choose|j: int|
                    0 <= j < pre.len() && (#[trigger] pre[j]).0 == p.0 && pre[j].1@ == p.1;
                assert(e[j].0 == p.0 && e[j].1@ == p.1);
            }
            if exists|j: int| 0 <= j < e.len() && (#[trigger] e[j]).0 == p.0 && e[j].1@ == p.1 {
                let j = choose|j: int|
                    0 <= j < e.len() && (#[trigger] e[j]).0 == p.0 && e[j].1@ == p.1;
                assert(j < e.len() - 1);
                assert(pre[j].0 == p.0 && pre[j].1@ == p.1);
            }
        }
    }
}

proof fn lemma_exp_set_len(e: Seq<(i64, String)>)
    requires
        exp_keys_unique(e),
    ensures
        exp_set(e).finite(),
        exp_set(e).len() == e.len(),
    decreases e.len(),
{
    broadcast use vstd::set::axiom_set_insert_len;
    broadcast use vstd::set::axiom_set_insert_finite;
    broadcast use vstd::set::axiom_set_empty_finite;
    broadcast use vstd::set::axiom_set_empty_len;

    if e.len() > 0 {
        let pre = e.drop_last();
        assert(exp_keys_unique(pre));
        lemma_exp_set_len(pre);
        let lastv = (e.last().0, e.last().1@);
        assert(!exp_set(pre).contains(lastv)) by {
            lemma_exp_set_contains(pre, lastv);
            if exists|j: int|
                0 <= j < pre.len() && (#[trigger] pre[j]).0 == lastv.0 && pre[j].1@ == lastv.1 {
                let j = choose|j: int|
                    0 <= j < pre.len() && (#[trigger] pre[j]).0 == lastv.0 && pre[j].1@
                        == lastv.1;
                assert(e[j].1@ == e[e.len() - 1].1@);
            }
        }
    }
}

proof fn lemma_exp_set_insert_at(e: Seq<(i64, String)>, pos: int, p: (i64, String))
    requires
        0 <= pos <= e.len(),
    ensures
        exp_set(e.insert(pos, p)) == exp_set(e).insert((p.0, p.1@)),
    decreases e.len(),
{
    let t = e.insert(pos, p);
    if pos == e.len() {
        assert(t.drop_last() =~= e);
        assert(t.last() == p);
    } else {
        let pre = e.drop_last();
        lemma_exp_set_insert_at(pre, pos, p);
        assert(t.drop_last() =~= pre.insert(pos, p));
        assert(t.last() == e.last());
        assert(exp_set(pre).insert((p.0, p.1@)).insert((e.last().0, e.last().1@)) =~= exp_set(
            pre,
        ).insert((e.last().0, e.last().1@)).insert((p.0, p.1@)));
    }
}

proof fn lemma_exp_set_remove_at(e: Seq<(i64, String)>, j: int)
    requires
        exp_keys_unique(e),
        0 <= j < e.len(),
    ensures
        exp_set(e.remove(j)) == exp_set(e).remove((e[j].0, e[j].1@)),
    decreases e.len(),
{
    let pre = e.drop_last();
    let t = e.remove(j);
    if j == e.len() - 1 {
        assert(t =~= pre);
        let lastv = (e.last().0, e.last().1@);
        assert(!exp_set(pre).contains(lastv)) by {
            lemma_exp_set_contains(pre, lastv);
            if exists|k: int|
                0 <= k < pre.len() && (#[trigger] pre[k]).0 == lastv.0 && pre[k].1@ == lastv.1 {
                let k = choose|k: int|
                    0 <= k < pre.len() && (#[trigger] pre[k]).0 == lastv.0 && pre[k].1@
                        == lastv.1;
                assert(e[k].1@ == e[e.len() - 1].1@);
            }
        }
        assert(exp_set(pre).insert(lastv).remove(lastv) =~= exp_set(pre));
    } else {
        assert(exp_keys_unique(pre));
        lemma_exp_set_remove_at(pre, j);
        assert(t.drop_last() =~= pre.remove(j));
        assert(t.last() == e.last());
        let jv = (e[j].0, e[j].1@);
        let lastv = (e.last().0, e.last().1@);
        assert(e[j].1@ != e[e.len() - 1].1@);
        assert(exp_set(pre).remove(jv).insert(lastv) =~= exp_set(pre).insert(lastv).remove(jv));
    }
}

proof fn lemma_assoc_contains(s: Seq<(String, SessionData)>, k: Seq<char>)
    ensures
        assoc_map(s).dom().contains(k) <==> exists|i: int| 0 <= i < s.len() && s[i].0@ == k,
    decreases s.len(),
{
    if s.len() > 0 {
        let pre = s.drop_last();
        lemma_assoc_contains(pre, k);
        if k == s.last().0@ {
            assert(s[s.len() - 1].0@ == k);
        } else {
            if assoc_map(s).dom().contains(k) {
                let i = choose|i: int| 0 <= i < pre.len() && pre[i].0@ == k;
                assert(s[i].0@ == k);
            }
            if exists|i: int| 0 <= i < s.len() && s[i].0@ == k {
                let i = choose|i: int| 0 <= i < s.len() && s[i].0@ == k;
                assert(i < s.len() - 1);
                assert(pre[i].0@ == k);
            }
        }
    }
}

proof fn lemma_assoc_value(s: Seq<(String, SessionData)>, i: int)
    requires
        keys_unique(s),
        0 <= i < s.len(),
    ensures
        assoc_map(s).dom().contains(s[i].0@),
        assoc_map(s)[s[i].0@] == s[i].1@,
    decreases s.len(),
{
    let pre = s.drop_last();
    if i == s.len() - 1 {
    } else {
        assert(keys_unique(pre));
        assert(pre[i] == s[i]);
        lemma_assoc_value(pre, i);
        assert(s[i].0@ != s.last().0@);
    }
}

proof fn lemma_assoc_update(s: Seq<(String, SessionData)>, i: int, p: (String, SessionData))
    requires
        keys_unique(s),
        0 <= i < s.len(),
        p.0@ == s[i].0@,
    ensures
        assoc_map(s.update(i, p)) == assoc_map(s).insert(p.0@, p.1@),
        keys_unique(s.update(i, p)),
    decreases s.len(),
{
    let pre = s.drop_last();
    let t = s.update(i, p);
    assert(keys_unique(t));
    if i == s.len() - 1 {
        assert(t.drop_last() =~= pre);
        assert(t.last() == p);
        assert(assoc_map(t) == assoc_map(pre).insert(p.0@, p.1@));
        assert(assoc_map(pre).insert(s.last().0@, s.last().1@).insert(p.0@, p.1@)
            =~= assoc_map(pre).insert(p.0@, p.1@));
    } else {
        assert(keys_unique(pre));
        assert(pre[i] == s[i]);
        lemma_assoc_update(pre, i, p);
        assert(t.drop_last() =~= pre.update(i, p));
        assert(t.last() == s.last());
        assert(assoc_map(t) == assoc_map(pre.update(i, p)).insert(s.last().0@, s.last().1@));
        assert(p.0@ != s.last().0@);
        assert(assoc_map(pre).insert(p.0@, p.1@).insert(s.last().0@, s.last().1@)
            =~= assoc_map(pre).insert(s.last().0@, s.last().1@).insert(p.0@, p.1@));
    }
}

proof fn lemma_assoc_push(s: Seq<(String, SessionData)>, p: (String, SessionData))
    requires
        keys_unique(s),
        forall|i: int| 0 <= i < s.len() ==> (#[trigger] s[i]).0@ != p.0@,
    ensures
        assoc_map(s.push(p)) == assoc_map(s).insert(p.0@, p.1@),
        keys_unique(s.push(p)),
{
    assert(s.push(p).drop_last() =~= s);
    assert(s.push(p).last() == p);
}

proof fn lemma_assoc_remove(s: Seq<(String, SessionData)>, i: int)
    requires
        keys_unique(s),
        0 <= i < s.len(),
    ensures
        assoc_map(s.remove(i)) == assoc_map(s).remove(s[i].0@),
        keys_unique(s.remove(i)),
    decreases s.len(),
{
    let pre = s.drop_last();
    let t = s.remove(i);
    assert(keys_unique(t)) by {
        assert forall|a: int, b: int| 0 <= a < b < t.len() implies t[a].0@ != t[b].0@ by {
            if b < i {
                assert(t[a] == s[a] && t[b] == s[b]);
            } else if a < i {
                assert(t[a] == s[a] && t[b] == s[b + 1]);
            } else {
                assert(t[a] == s[a + 1] && t[b] == s[b + 1]);
            }
        }
    }
    if i == s.len() - 1 {
        assert(t =~= pre);
        lemma_assoc_contains(pre, s[i].0@);
        assert(!assoc_map(pre).dom().contains(s[i].0@)) by {
            if exists|j: int| 0 <= j < pre.len() && pre[j].0@ == s[i].0@ {
                let j = choose|j: int| 0 <= j < pre.len() && pre[j].0@ == s[i].0@;
                assert(s[j].0@ == s[i].0@);
            }
        }
        assert(assoc_map(pre).insert(s.last().0@, s.last().1@).remove(s[i].0@)
            =~= assoc_map(pre));
    } else {
        assert(keys_unique(pre));
        lemma_assoc_remove(pre, i);
        assert(t.drop_last() =~= pre.remove(i));
        assert(t.last() == s.last());
        assert(assoc_map(t) == assoc_map(pre.remove(i)).insert(s.last().0@, s.last().1@));
        assert(s[i].0@ != s.last().0@);
        assert(assoc_map(pre).remove(s[i].0@).insert(s.last().0@, s.last().1@)
            =~= assoc_map(pre).insert(s.last().0@, s.last().1@).remove(s[i].0@));
    }
}

/// With unique ids, the map holds exactly one record per list entry.
proof fn lemma_assoc_dom_len(s: Seq<(String, SessionData)>)
    requires
        keys_unique(s),
    ensures
        assoc_map(s).dom().finite(),
        assoc_map(s).dom().len() == s.len(),
    decreases s.len(),
{
    if s.len() == 0 {
        assert(assoc_map(s).dom() =~= Set::<Seq<char>>::empty());
    } else {
        let pre = s.drop_last();
        assert(keys_unique(pre));
        lemma_assoc_dom_len(pre);
        lemma_assoc_contains(pre, s.last().0@);
        assert(!assoc_map(pre).dom().contains(s.last().0@)) by {
            if exists|j: int| 0 <= j < pre.len() && pre[j].0@ == s.last().0@ {
                let j = choose|j: int| 0 <= j < pre.len() && pre[j].0@ == s.last().0@;
                assert(s[j].0@ == s[s.len() - 1].0@);
            }
        }
        assert(assoc_map(s).dom() =~= assoc_map(pre).dom().insert(s.last().0@));
    }
}

proof fn lemma_exp_remove_props(e: Seq<(i64, String)>, j: int)
    requires
        exp_sorted(e),
        exp_keys_unique(e),
        0 <= j < e.len(),
    ensures
        exp_sorted(e.remove(j)),
        exp_keys_unique(e.remove(j)),
{
    let t = e.remove(j);
    assert forall|a: int, b: int| 0 <= a < b < t.len() implies t[a].0 <= t[b].0 && t[a].1@
        != t[b].1@ by {
        if b < j {
            assert(t[a] == e[a] && t[b] == e[b]);
        } else if a < j {
            assert(t[a] == e[a] && t[b] == e[b + 1]);
        } else {
            assert(t[a] == e[a + 1] && t[b] == e[b + 1]);
        }
    }
}

proof fn lemma_exp_remove_keeps(e: Seq<(i64, String)>, j: int, t: i64, k: Seq<char>)
    requires
        has_entry(e, t, k),
        0 <= j < e.len(),
        e[j].1@ != k,
    ensures
        has_entry(e.remove(j), t, k),
{
    let b = choose|b: int| 0 <= b < e.len() && (#[trigger] e[b]).0 == t && e[b].1@ == k;
    if b < j {
        assert(e.remove(j)[b] == e[b]);
    } else {
        assert(e.remove(j)[b - 1] == e[b]);
    }
}

proof fn lemma_exp_insert_keeps(
    e: Seq<(i64, String)>,
    pos: int,
    p: (i64, String),
    t: i64,
    k: Seq<char>,
)
    requires
        has_entry(e, t, k),
        0 <= pos <= e.len(),
    ensures
        has_entry(e.insert(pos, p), t, k),
{
    let b = choose|b: int| 0 <= b < e.len() && (#[trigger] e[b]).0 == t && e[b].1@ == k;
    if b < pos {
        assert(e.insert(pos, p)[b] == e[b]);
    } else {
        assert(e.insert(pos, p)[b + 1] == e[b]);
    }
}

proof fn lemma_exp_insert_props(e: Seq<(i64, String)>, pos: int, p: (i64, String))
    requires
        exp_sorted(e),
        exp_keys_unique(e),
        0 <= pos <= e.len(),
        forall|q: int| 0 <= q < pos ==> (#[trigger] e[q]).0 <= p.0,
        pos < e.len() ==> e[pos].0 > p.0,
        forall|q: int| 0 <= q < e.len() ==> (#[trigger] e[q]).1@ != p.1@,
    ensures
        exp_sorted(e.insert(pos, p)),
        exp_keys_unique(e.insert(pos, p)),
{
    let t = e.insert(pos, p);
    assert forall|a: int, b: int| 0 <= a < b < t.len() implies t[a].0 <= t[b].0 && t[a].1@
        != t[b].1@ by {
        if a == pos {
            assert(t[b] == e[b - 1]);
            assert(pos <= b - 1);
        } else if b == pos {
            assert(t[a] == e[a]);
        } else if b < pos {
            assert(t[a] == e[a] && t[b] == e[b]);
        } else if a > pos {
            assert(t[a] == e[a - 1] && t[b] == e[b - 1]);
        } else {
            assert(t[a] == e[a] && t[b] == e[b - 1]);
            if b - 1 >= pos && pos < e.len() {
                assert(pos == b - 1 || e[pos].0 <= e[b - 1].0);
            }
        }
    }
}

/// The two structures of the store: the id-to-record list and the expiry
/// index, ordered by instant, at most one index entry per id.
pub struct DB {
    store: Vec<(String, SessionData)>,
    expirations: Vec<(i64, String)>,
}

impl DB {
    /// The records currently held.
    pub closed spec fn sessions(&self) -> Map<Seq<char>, SessionDataView> {
        assoc_map(self.store@)
    }

    /// The expiry-index entries currently held, tombstones included.
    pub closed spec fn expiry_index(&self) -> Set<(i64, Seq<char>)> {
        exp_set(self.expirations@)
    }

    /// Well-formedness: unique ids on both structures, the index ordered by
    /// instant, and every live record listed in the index under its own
    /// `valid_till`. Index entries for absent ids — tombstones — may remain.
    pub closed spec fn wf(&self) -> bool {
        &&& keys_unique(self.store@)
        &&& exp_keys_unique(self.expirations@)
        &&& exp_sorted(self.expirations@)
        &&& linked(self.store@, self.expirations@)
    }

    /// An empty store.
    pub fn new() -> (r: DB)
        ensures
            r.wf(),
            r.sessions() == Map::<Seq<char>, SessionDataView>::empty(),
            r.expiry_index() == Set::<(i64, Seq<char>)>::empty(),
    {
        DB { store: Vec::new(), expirations: Vec::new() }
    }

    /// The index of the record with this id, if one is held.
    fn find_store_idx(&self, session_id: &str) -> (r: Option<usize>)
        ensures
            r matches Some(i) ==> i < self.store@.len() && self.store@[i as int].0@
                == session_id@,
            r is None ==> forall|i: int|
                0 <= i < self.store@.len() ==> (#[trigger] self.store@[i]).0@ != session_id@,
    {
        let mut m: usize = 0;
        let n = self.store.len();
        while m < n
            invariant
                m <= n,
                n == self.store@.len(),
                forall|i: int| 0 <= i < m ==> (#[trigger] self.store@[i]).0@ != session_id@,
            decreases n - m,
        {
            if str_eq(self.store[m].0.as_str(), session_id) {
                return Some(m);
            }
            m = m + 1;
        }
        None
    }

    /// The index entry carrying this id, if any.
    fn find_exp_idx(&self, session_id: &str) -> (r: Option<usize>)
        ensures
            r matches Some(i) ==> i < self.expirations@.len() && self.expirations@[i as int].1@
                == session_id@,
            r is None ==> forall|i: int|
                0 <= i < self.expirations@.len() ==> (#[trigger] self.expirations@[i]).1@
                    != session_id@,
    {
        let mut m: usize = 0;
        let n = self.expirations.len();
        while m < n
            invariant
                m <= n,
                n == self.expirations@.len(),
                forall|i: int|
                    0 <= i < m ==> (#[trigger] self.expirations@[i]).1@ != session_id@,
            decreases n - m,
        {
            if str_eq(self.expirations[m].1.as_str(), session_id) {
                return Some(m);
            }
            m = m + 1;
        }
        None
    }

    /// Sweeps every entry whose instant has been reached: the map loses
    /// exactly the records with `valid_till <= now`, and tombstones up to
    /// `now` are collected.
    pub fn remove_expired_int(&mut self, now: i64)
        requires
            old(self).wf(),
        ensures
            final(self).wf(),
            final(self).sessions() == spec_sweep(old(self).sessions(), now as int),
            final(self).expiry_index() == spec_live_index(old(self).expiry_index(), now as int),
    {
        let ghost orig = self.sessions();
        let ghost orig_idx = self.expiry_index();
        while !self.expirations.is_empty() && self.expirations[0].0 <= now
            invariant
                self.wf(),
                spec_sweep(self.sessions(), now as int) == spec_sweep(orig, now as int),
                spec_live_index(self.expiry_index(), now as int) == spec_live_index(
                    orig_idx,
                    now as int,
                ),
            decreases self.expirations@.len(),
        {
            let ghost exp0 = self.expirations@;
            let ghost st0 = self.store@;
            let pair = self.expirations.remove(0);
            proof {
                assert(self.expirations@ =~= exp0.remove(0));
                lemma_exp_remove_props(exp0, 0);
                // the collected entry's instant has been reached, so the
                // live part of the index is untouched
                lemma_exp_set_remove_at(exp0, 0);
                let p0 = (exp0[0].0, exp0[0].1@);
                assert(p0.0 <= now);
                assert(spec_live_index(exp_set(exp0).remove(p0), now as int) =~= spec_live_index(
                    exp_set(exp0),
                    now as int,
                ));
            }
            let key = pair.1;
            match self.find_store_idx(key.as_str()) {
                Some(i) => {
                    proof {
                        // the record's own index entry is the one being
                        // collected, so its valid_till has been reached
                        assert(has_entry(exp0, st0[i as int].1.valid_till, st0[i as int].0@));
                        let j = choose|j: int|
                            0 <= j < exp0.len() && (#[trigger] exp0[j]).0
                                == st0[i as int].1.valid_till && exp0[j].1@ == st0[i as int].0@;
                        assert(j == 0);
                        assert(st0[i as int].1.valid_till <= now);
                        lemma_assoc_value(st0, i as int);
                        lemma_assoc_remove(st0, i as int);
                    }
                    self.store.remove(i);
                    proof {
                        assert(self.store@ =~= st0.remove(i as int));
                        assert(self.sessions() =~= assoc_map(st0).remove(st0[i as int].0@));
                        assert(spec_sweep(self.sessions(), now as int) =~= spec_sweep(
                            assoc_map(st0),
                            now as int,
                        ));
                        assert forall|a: int| #![trigger self.store@[a]]
                            0 <= a < self.store@.len() implies has_entry(
                            self.expirations@,
                            self.store@[a].1.valid_till,
                            self.store@[a].0@,
                        ) by {
                            let a0: int = if a < i as int {
                                a
                            } else {
                                a + 1
                            };
                            assert(self.store@[a] == st0[a0]);
                            assert(has_entry(exp0, st0[a0].1.valid_till, st0[a0].0@));
                            assert(st0[a0].0@ != st0[i as int].0@);
                            lemma_exp_remove_keeps(exp0, 0, st0[a0].1.valid_till, st0[a0].0@);
                        }
                        assert(linked(self.store@, self.expirations@));
                    }
                },
                None => {
                    proof {
                        assert forall|a: int| #![trigger self.store@[a]]
                            0 <= a < self.store@.len() implies has_entry(
                            self.expirations@,
                            self.store@[a].1.valid_till,
                            self.store@[a].0@,
                        ) by {
                            assert(self.store@[a] == st0[a]);
                            assert(has_entry(exp0, st0[a].1.valid_till, st0[a].0@));
                            assert(st0[a].0@ != exp0[0].1@);
                            lemma_exp_remove_keeps(exp0, 0, st0[a].1.valid_till, st0[a].0@);
                        }
                        assert(linked(self.store@, self.expirations@));
                    }
                },
            }
        }
        proof {
            assert forall|p: (i64, Seq<char>)| self.expiry_index().contains(p) implies p.0
                > now by {
                lemma_exp_set_contains(self.expirations@, p);
                let j = choose|j: int|
                    0 <= j < self.expirations@.len() && (#[trigger] self.expirations@[j]).0
                        == p.0 && self.expirations@[j].1@ == p.1;
                assert(self.expirations@[0].0 <= self.expirations@[j].0 || j == 0);
            }
            assert(self.expiry_index() =~= spec_live_index(self.expiry_index(), now as int));
            assert forall|k: Seq<char>| self.sessions().dom().contains(k)
                implies self.sessions()[k].valid_till > now by {
                lemma_assoc_contains(self.store@, k);
                let i = choose|i: int| 0 <= i < self.store@.len() && self.store@[i].0@ == k;
                lemma_assoc_value(self.store@, i);
                assert(has_entry(self.expirations@, self.store@[i].1.valid_till,
                    self.store@[i].0@));
                let j = choose|j: int|
                    0 <= j < self.expirations@.len() && (#[trigger] self.expirations@[j]).0
                        == self.store@[i].1.valid_till && self.expirations@[j].1@
                        == self.store@[i].0@;
                assert(self.expirations@[0].0 <= self.expirations@[j].0 || j == 0);
            }
            assert(self.sessions() =~= spec_sweep(self.sessions(), now as int));
        }
    }

    /// Inserts, overwriting any record under the same id, then sweeps.
    pub fn insert(&mut self, session_id: &str, data: SessionData, now: i64)
        requires
            old(self).wf(),
        ensures
            final(self).wf(),
            final(self).sessions() == spec_sweep(
                old(self).sessions().insert(session_id@, data@),
                now as int,
            ),
            final(self).expiry_index() == spec_live_index(
                spec_drop_id(old(self).expiry_index(), session_id@).insert(
                    (data.valid_till, session_id@),
                ),
                now as int,
            ),
    {
        let valid_till = data.valid_till;
        let ghost dv = data@;
        // collect the index entry this id may already carry
        let ghost exp0 = self.expirations@;
        match self.find_exp_idx(session_id) {
            Some(j) => {
                self.expirations.remove(j);
                proof {
                    assert(self.expirations@ =~= exp0.remove(j as int));
                    lemma_exp_remove_props(exp0, j as int);
                    lemma_exp_set_remove_at(exp0, j as int);
                    let pj = (exp0[j as int].0, exp0[j as int].1@);
                    assert(exp_set(self.expirations@) =~= spec_drop_id(
                        exp_set(exp0),
                        session_id@,
                    )) by {
                        assert forall|q: (i64, Seq<char>)|
                            exp_set(exp0).contains(q) && q != pj implies q.1
                            != session_id@ by {
                            if q.1 == session_id@ {
                                lemma_exp_set_contains(exp0, q);
                                let k = choose|k: int|
                                    0 <= k < exp0.len() && (#[trigger] exp0[k]).0 == q.0
                                        && exp0[k].1@ == q.1;
                                assert(k == j);
                            }
                        }
                    }
                    assert forall|b: int| 0 <= b < self.expirations@.len() implies (
                    #[trigger] self.expirations@[b]).1@ != session_id@ by {
                        if b < j as int {
                            assert(self.expirations@[b] == exp0[b]);
                        } else {
                            assert(self.expirations@[b] == exp0[b + 1]);
                        }
                    }
                    assert forall|i: int| #![trigger self.store@[i]]
                        0 <= i < self.store@.len() && self.store@[i].0@ != session_id@
                        implies has_entry(
                        self.expirations@,
                        self.store@[i].1.valid_till,
                        self.store@[i].0@,
                    ) by {
                        assert(has_entry(exp0, self.store@[i].1.valid_till, self.store@[i].0@));
                        lemma_exp_remove_keeps(
                            exp0,
                            j as int,
                            self.store@[i].1.valid_till,
                            self.store@[i].0@,
                        );
                    }
                }
            },
            None => {
                proof {
                    assert(exp_set(self.expirations@) =~= spec_drop_id(
                        exp_set(exp0),
                        session_id@,
                    )) by {
                        assert forall|q: (i64, Seq<char>)|
                            exp_set(exp0).contains(q) implies q.1 != session_id@ by {
                            lemma_exp_set_contains(exp0, q);
                        }
                    }
                }
            },
        }
        let ghost exp1 = self.expirations@;
        let ghost st0 = self.store@;
        // place the record
        match self.find_store_idx(session_id) {
            Some(i) => {
                let key = self.store[i].0.clone();
                self.store.set(i, (key, data));
                proof {
                    assert(self.store@ =~= st0.update(i as int, self.store@[i as int]));
                    lemma_assoc_update(st0, i as int, self.store@[i as int]);
                }
            },
            None => {
                self.store.push((session_id.to_owned(), data));
                proof {
                    assert(self.store@ =~= st0.push(self.store@[st0.len() as int]));
                    lemma_assoc_push(st0, self.store@[st0.len() as int]);
                }
            },
        }
        let ghost st1 = self.store@;
        proof {
            assert(assoc_map(st1) == assoc_map(st0).insert(session_id@, dv));
            assert(forall|a: int| #![trigger st1[a]]
                0 <= a < st1.len() ==> st1[a].0@ == session_id@ || (0 <= a < st0.len()
                    && st1[a] == st0[a]));
            assert(forall|a: int| #![trigger st1[a]]
                0 <= a < st1.len() && st1[a].0@ == session_id@ ==> st1[a].1.valid_till
                    == valid_till);
        }
        // file the new index entry at its ordered position
        let mut p: usize = 0;
        let n = self.expirations.len();
        while p < n && self.expirations[p].0 <= valid_till
            invariant
                p <= n,
                n == self.expirations@.len(),
                forall|q: int| 0 <= q < p ==> (#[trigger] self.expirations@[q]).0 <= valid_till,
            decreases n - p,
        {
            p = p + 1;
        }
        let ghost exp2 = self.expirations@;
        self.expirations.insert(p, (valid_till, session_id.to_owned()));
        proof {
            assert(exp2 == exp1);
            assert(self.expirations@ =~= exp2.insert(p as int, self.expirations@[p as int]));
            let np = self.expirations@[p as int];
            assert(np.0 == valid_till && np.1@ == session_id@);
            lemma_exp_insert_props(exp2, p as int, np);
            lemma_exp_set_insert_at(exp2, p as int, np);
            assert(exp_set(self.expirations@) =~= spec_drop_id(exp_set(exp0), session_id@)
                .insert((valid_till, session_id@)));
            assert forall|a: int| #![trigger st1[a]]
                0 <= a < st1.len() implies has_entry(
                self.expirations@,
                st1[a].1.valid_till,
                st1[a].0@,
            ) by {
                if st1[a].0@ == session_id@ {
                    assert(self.expirations@[p as int].0 == valid_till
                        && self.expirations@[p as int].1@ == session_id@);
                } else {
                    assert(st1[a] == st0[a]);
                    assert(has_entry(exp1, st1[a].1.valid_till, st1[a].0@));
                    lemma_exp_insert_keeps(exp1, p as int, np, st1[a].1.valid_till, st1[a].0@);
                }
            }
            assert(linked(self.store@, self.expirations@));
        }
        self.remove_expired_int(now);
        proof {
            assert(spec_sweep(assoc_map(st0).insert(session_id@, dv), now as int)
                =~= spec_sweep(old(self).sessions().insert(session_id@, dv), now as int));
            assert(spec_live_index(
                spec_drop_id(exp_set(exp0), session_id@).insert((valid_till, session_id@)),
                now as int,
            ) =~= spec_live_index(
                spec_drop_id(old(self).expiry_index(), session_id@).insert(
                    (data.valid_till, session_id@),
                ),
                now as int,
            ));
        }
    }

    /// Sweeps, then hands out a reference to the record, if one survives.
    pub fn get(&mut self, session_id: &str, now: i64) -> (r: Option<&SessionData>)
        requires
            old(self).wf(),
        ensures
            final(self).wf(),
            final(self).sessions() == spec_sweep(old(self).sessions(), now as int),
            final(self).expiry_index() == spec_live_index(old(self).expiry_index(), now as int),
            r matches Some(d) ==> final(self).sessions().dom().contains(session_id@) && d@
                == final(self).sessions()[session_id@],
            r is None ==> !final(self).sessions().dom().contains(session_id@),
    {
        self.remove_expired_int(now);
        match self.find_store_idx(session_id) {
            Some(i) => {
                proof {
                    lemma_assoc_value(self.store@, i as int);
                }
                Some(&self.store[i].1)
            },
            None => {
                proof {
                    lemma_assoc_contains(self.store@, session_id@);
                }
                None
            },
        }
    }

    /// Removes the record; its index entry stays behind as a tombstone.
    pub fn remove(&mut self, session_id: &str) -> (r: Option<SessionData>)
        requires
            old(self).wf(),
        ensures
            final(self).wf(),
            final(self).expiry_index() == old(self).expiry_index(),
            r matches Some(d) ==> old(self).sessions().dom().contains(session_id@)
                && final(self).sessions() == old(self).sessions().remove(session_id@)
                && d@ == old(self).sessions()[session_id@],
            r is None ==> !old(self).sessions().dom().contains(session_id@)
                && final(self).sessions() == old(self).sessions(),
    {
        match self.find_store_idx(session_id) {
            Some(i) => {
                proof {
                    lemma_assoc_value(self.store@, i as int);
                    lemma_assoc_remove(self.store@, i as int);
                }
                let ghost st0 = self.store@;
                let pair = self.store.remove(i);
                proof {
                    assert(self.store@ =~= st0.remove(i as int));
                    assert forall|a: int| #![trigger self.store@[a]]
                        0 <= a < self.store@.len() implies has_entry(
                        self.expirations@,
                        self.store@[a].1.valid_till,
                        self.store@[a].0@,
                    ) by {
                        let a0: int = if a < i as int {
                            a
                        } else {
                            a + 1
                        };
                        assert(self.store@[a] == st0[a0]);
                        assert(has_entry(self.expirations@, st0[a0].1.valid_till, st0[a0].0@));
                    }
                    assert(linked(self.store@, self.expirations@));
                }
                Some(pair.1)
            },
            None => {
                proof {
                    lemma_assoc_contains(self.store@, session_id@);
                }
                None
            },
        }
    }

    /// Sweeps, then refreshes `last_access` of the surviving record.
    /// Returns whether a record was found.
    pub fn mark_last_used(&mut self, session_id: &str, now: i64) -> (r: bool)
        requires
            old(self).wf(),
        ensures
            final(self).wf(),
            final(self).expiry_index() == spec_live_index(old(self).expiry_index(), now as int),
            ({
                let swept = spec_sweep(old(self).sessions(), now as int);
                &&& r ==> swept.dom().contains(session_id@) && final(self).sessions()
                    == swept.insert(session_id@, swept[session_id@].with_last_access(now as int))
                &&& !r ==> !swept.dom().contains(session_id@) && final(self).sessions() == swept
            }),
    {
        self.remove_expired_int(now);
        match self.find_store_idx(session_id) {
            Some(i) => {
                let ghost st0 = self.store@;
                proof {
                    assert(linked(st0, self.expirations@));
                    lemma_assoc_value(st0, i as int);
                }
                let key = self.store[i].0.clone();
                let cur = &self.store[i].1;
                let updated = SessionData {
                    user: cur.user.clone(),
                    ip: cur.ip.clone(),
                    valid_till: cur.valid_till,
                    last_access: now,
                };
                self.store.set(i, (key, updated));
                proof {
                    assert(self.store@ =~= st0.update(i as int, self.store@[i as int]));
                    lemma_assoc_update(st0, i as int, self.store@[i as int]);
                    assert(self.store@[i as int].1@ == st0[i as int].1@.with_last_access(
                        now as int,
                    ));
                    assert forall|a: int| #![trigger self.store@[a]]
                        0 <= a < self.store@.len() implies has_entry(
                        self.expirations@,
                        self.store@[a].1.valid_till,
                        self.store@[a].0@,
                    ) by {
                        assert(self.store@[a].0@ == st0[a].0@ && self.store@[a].1.valid_till
                            == st0[a].1.valid_till);
                        assert(has_entry(self.expirations@, st0[a].1.valid_till, st0[a].0@));
                    }
                    assert(linked(self.store@, self.expirations@));
                }
                true
            },
            None => {
                proof {
                    lemma_assoc_contains(self.store@, session_id@);
                }
                false
            },
        }
    }

    /// How many records are held: one per id in the model.
    pub fn store_len(&self) -> (r: usize)
        ensures
            self.wf() ==> r as nat == self.sessions().dom().len(),
    {
        proof {
            if self.wf() {
                lemma_assoc_dom_len(self.store@);
            }
        }
        self.store.len()
    }

    /// How many index entries are held, tombstones included: one per
    /// element of the index model.
    pub fn expirations_len(&self) -> (r: usize)
        ensures
            self.wf() ==> r as nat == self.expiry_index().len(),
    {
        proof {
            if self.wf() {
                lemma_exp_set_len(self.expirations@);
            }
        }
        self.expirations.len()
    }
}

/// The [`SessionStore`] backend holding everything in process memory.
pub struct InMemorySessionStore {
    db: DB,
}

impl InMemorySessionStore {
    #[verifier::type_invariant]
    spec fn inv(&self) -> bool {
        self.db.wf()
    }

    /// An empty store; it never reports a backend fault.
    pub fn new() -> (r: InMemorySessionStore)
        ensures
            r.sessions() == Map::<Seq<char>, SessionDataView>::empty(),
            !r.may_fail(),
    {
        InMemorySessionStore { db: DB::new() }
    }
}

impl Default for InMemorySessionStore {
    fn default() -> (r: InMemorySessionStore)
        ensures
            r.sessions() == Map::<Seq<char>, SessionDataView>::empty(),
            !r.may_fail(),
    {
        InMemorySessionStore::new()
    }
}

impl SessionStore for InMemorySessionStore {
    closed spec fn sessions(&self) -> Map<Seq<char>, SessionDataView> {
        self.db.sessions()
    }

    /// The in-memory store has no backend to lose: it never faults.
    closed spec fn may_fail(&self) -> bool {
        false
    }

    /// In memory, adding never fails.
    fn add(&mut self, session_id: &str, data: SessionData, now: i64) -> (r: Result<(), Error>)
        ensures
            r is Ok,
    {
        proof {
            use_type_invariant(&*self);
        }
        let mut db = DB::new();
        core::mem::swap(&mut db, &mut self.db);
        db.insert(session_id, data, now);
        core::mem::swap(&mut db, &mut self.db);
        Ok(())
    }

    /// In memory, lookup fails only with `NoSession`.
    fn get(&mut self, session_id: &str, now: i64) -> (r: Result<SessionData, Error>)
        ensures
            r matches Err(e) ==> e@ is NoSession,
    {
        proof {
            use_type_invariant(&*self);
        }
        let mut db = DB::new();
        core::mem::swap(&mut db, &mut self.db);
        let r = match db.get(session_id, now) {
            Some(data) => Ok(data.clone()),
            None => Err(Error::NoSession()),
        };
        core::mem::swap(&mut db, &mut self.db);
        r
    }

    /// In memory, removal fails only with `NoSession`.
    fn remove(&mut self, session_id: &str) -> (r: Result<(), Error>)
        ensures
            r matches Err(e) ==> e@ is NoSession,
    {
        proof {
            use_type_invariant(&*self);
        }
        let mut db = DB::new();
        core::mem::swap(&mut db, &mut self.db);
        let r = match db.remove(session_id) {
            Some(_) => Ok(()),
            None => Err(Error::NoSession()),
        };
        core::mem::swap(&mut db, &mut self.db);
        r
    }

    /// In memory, marking fails only with `NoSession`.
    fn mark_last_used(&mut self, session_id: &str, now: i64) -> (r: Result<(), Error>)
        ensures
            r matches Err(e) ==> e@ is NoSession,
    {
        proof {
            use_type_invariant(&*self);
        }
        let mut db = DB::new();
        core::mem::swap(&mut db, &mut self.db);
        let r = if db.mark_last_used(session_id, now) {
            Ok(())
        } else {
            Err(Error::NoSession())
        };
        core::mem::swap(&mut db, &mut self.db);
        r
    }
}

/// A surviving lookup never hands out an expired record: everything the
/// sweep keeps is valid strictly beyond `now`.
pub proof fn lemma_get_never_expired(
    m: Map<Seq<char>, SessionDataView>,
    id: Seq<char>,
    now: int,
)
    ensures
        spec_sweep(m, now).dom().contains(id) ==> !spec_sweep(m, now)[id].spec_expired(now),
{
}

/// Adding a record and then removing its id leaves the id unreachable, at
/// any later lookup instant.
pub proof fn lemma_add_remove_unreachable(
    m: Map<Seq<char>, SessionDataView>,
    id: Seq<char>,
    d: SessionDataView,
    t_add: int,
    t_get: int,
)
    ensures
        !spec_sweep(spec_sweep(m.insert(id, d), t_add).remove(id), t_get).dom().contains(id),
{
}

/// A record whose `valid_till` has already been reached at `add` time is
/// immediately unreachable, now and at every later instant.
pub proof fn lemma_add_expired_unreachable(
    m: Map<Seq<char>, SessionDataView>,
    id: Seq<char>,
    d: SessionDataView,
    now: int,
    later: int,
)
    requires
        d.valid_till <= now,
        now <= later,
    ensures
        !spec_sweep(spec_sweep(m.insert(id, d), now), later).dom().contains(id),
{
}

} // verus!
