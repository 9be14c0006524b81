//! The journal: an append-only record of every change made to a machine,
//! with the undo data needed to reverse it exactly. `thaw` replays it in
//! reverse; nothing is off the books. Reading and writing the JSONL file is
//! done by the program around this library; the bookkeeping is here.

use crate::action::{Action, ActionView, Undo, UndoView, undo_matches};
use vstd::prelude::*;

verus! {

#[derive(Debug, PartialEq)]
pub struct Entry {
    pub ts_unix: u64,
    pub session: String,
    pub op: Op,
    pub recipe_id: String,
    pub action: Action,
    pub undo: Undo,
    /// False means the action failed and changed nothing; kept for honesty.
    pub applied: bool,
    pub note: String,
}

#[derive(Debug, Clone, Copy, PartialEq, Eq, Structural)]
pub enum Op {
    Apply,
    Revert,
}

pub struct EntryView {
    pub ts_unix: u64,
    pub session: Seq<char>,
    pub op: Op,
    pub recipe_id: Seq<char>,
    pub action: ActionView,
    pub undo: UndoView,
    pub applied: bool,
    pub note: Seq<char>,
}

impl View for Entry {
    type V = EntryView;

    open spec fn view(&self) -> EntryView {
        EntryView {
            ts_unix: self.ts_unix,
            session: self.session@,
            op: self.op,
            recipe_id: self.recipe_id@,
            action: self.action@,
            undo: self.undo@,
            applied: self.applied,
            note: self.note@,
        }
    }
}

impl Clone for Entry {
    fn clone(&self) -> (r: Entry)
        ensures
            r == *self,
    {
        Entry {
            ts_unix: self.ts_unix,
            session: self.session.clone(),
            op: self.op,
            recipe_id: self.recipe_id.clone(),
            action: self.action.clone(),
            undo: self.undo.clone(),
            applied: self.applied,
            note: self.note.clone(),
        }
    }
}

/// The views of a run of entries.
pub open spec fn entry_views(s: Seq<Entry>) -> Seq<EntryView> {
    s.map_values(|e: Entry| e@)
}

/// An entry that records a change still to be reversed on its own.
pub open spec fn records_change(e: EntryView) -> bool {
    e.op == Op::Apply && e.applied && !(e.undo is Nothing)
}

/// Index of the most recent entry in `s` whose undo matches `u` (as
/// `Undo`'s `==` compares them).
pub open spec fn last_with_undo(s: Seq<EntryView>, u: UndoView) -> Option<int>
    decreases s.len(),
{
    if s.len() == 0 {
        None
    } else if undo_matches(s.last().undo, u) {
        Some(s.len() - 1)
    } else {
        last_with_undo(s.drop_last(), u)
    }
}

/// The entries of `es` whose change is still in effect, oldest first: each
/// applied change is added, and a revert cancels the most recent live entry
/// with the same undo.
pub open spec fn live_of(es: Seq<EntryView>) -> Seq<EntryView>
    decreases es.len(),
{
    if es.len() == 0 {
        Seq::empty()
    } else {
        let prev = live_of(es.drop_last());
        let e = es.last();
        match e.op {
            Op::Apply => if records_change(e) {
                prev.push(e)
            } else {
                prev
            },
            Op::Revert => match last_with_undo(prev, e.undo) {
                Some(p) => prev.remove(p),
                None => prev,
            },
        }
    }
}

/// `s` in reverse order.
pub open spec fn reversed<A>(s: Seq<A>) -> Seq<A> {
    Seq::new(s.len(), |i: int| s[s.len() - 1 - i])
}

/// Undos still outstanding in `es`, newest first (the order thaw replays).
pub open spec fn outstanding_spec(es: Seq<EntryView>) -> Seq<EntryView> {
    reversed(live_of(es))
}

proof fn lemma_last_with_undo(s: Seq<EntryView>, u: UndoView)
    ensures
        match last_with_undo(s, u) {
            Some(p) => 0 <= p < s.len() && undo_matches(s[p].undo, u) && forall|k: int|
                p < k < s.len() ==> !undo_matches(s[k].undo, u),
            None => forall|k: int| 0 <= k < s.len() ==> !undo_matches(s[k].undo, u),
        },
    decreases s.len(),
{
    if s.len() > 0 && !undo_matches(s.last().undo, u) {
        let t = s.drop_last();
        lemma_last_with_undo(t, u);
        assert forall|k: int| 0 <= k < t.len() implies t[k] == s[k] by {}
        assert(s[s.len() - 1] == s.last());
    }
}

proof fn lemma_last_with_undo_at(s: Seq<EntryView>, u: UndoView, p: int)
    requires
        0 <= p < s.len(),
        undo_matches(s[p].undo, u),
        forall|k: int| p < k < s.len() ==> !undo_matches(s[k].undo, u),
    ensures
        last_with_undo(s, u) == Some(p),
{
    lemma_last_with_undo(s, u);
    match last_with_undo(s, u) {
        Some(q) => {
            if q < p {
                assert(!undo_matches(s[p].undo, u));
            } else if q > p {
                assert(!undo_matches(s[q].undo, u));
            }
        },
        None => assert(!undo_matches(s[p].undo, u)),
    }
}

proof fn lemma_last_with_undo_none(s: Seq<EntryView>, u: UndoView)
    requires
        forall|k: int| 0 <= k < s.len() ==> !undo_matches(s[k].undo, u),
    ensures
        last_with_undo(s, u) is None,
{
    lemma_last_with_undo(s, u);
    if let Some(q) = last_with_undo(s, u) {
        assert(!undo_matches(s[q].undo, u));
    }
}

/// Every live entry comes from the journal and records a change.
pub proof fn lemma_live_entries(es: Seq<EntryView>)
    ensures
        forall|i: int| 0 <= i < live_of(es).len() ==> records_change(#[trigger] live_of(es)[i])
            && es.contains(live_of(es)[i]),
    decreases es.len(),
{
    if es.len() > 0 {
        let prev_es = es.drop_last();
        lemma_live_entries(prev_es);
        let prev = live_of(prev_es);
        assert forall|i: int| 0 <= i < prev.len() implies es.contains(prev[i]) by {
            let j = choose|j: int| 0 <= j < prev_es.len() && prev_es[j] == prev[i];
            assert(es[j] == prev[i]);
        }
        let e = es.last();
        assert(es[es.len() - 1] == e);
        if e.op == Op::Revert {
            lemma_last_with_undo(prev, e.undo);
        }
    }
}

fn last_live_with(live: &Vec<Entry>, u: &Undo) -> (r: Option<usize>)
    ensures
        match r {
            Some(p) => p < live.len() && last_with_undo(entry_views(live@), u@) == Some(p as int),
            None => last_with_undo(entry_views(live@), u@) is None,
        },
{
    let ghost s = entry_views(live@);
    let mut j = live.len();
    while j > 0
        invariant
            j <= live.len(),
            s == entry_views(live@),
            forall|k: int| j <= k < live.len() ==> !undo_matches(s[k].undo, u@),
        decreases j,
    {
        j = j - 1;
        if live[j].undo.same_as(u) {
            proof {
                lemma_last_with_undo_at(s, u@, j as int);
            }
            return Some(j);
        }
    }
    proof {
        lemma_last_with_undo_none(s, u@);
    }
    None
}

/// Undos that are still outstanding: applied entries whose undo has not been
/// reverted by a later entry, newest first (the order `thaw` must replay).
pub fn outstanding(entries: &[Entry]) -> (r: Vec<Entry>)
    ensures
        entry_views(r@) == outstanding_spec(entry_views(entries@)),
{
    let ghost all = entry_views(entries@);
    let mut live: Vec<Entry> = Vec::new();
    let mut i: usize = 0;
    while i < entries.len()
        invariant
            i <= entries.len(),
            all == entry_views(entries@),
            entry_views(live@) == live_of(all.take(i as int)),
        decreases entries.len() - i,
    {
        let e = &entries[i];
        assert(all.take(i + 1).drop_last() == all.take(i as int));
        assert(all.take(i + 1).last() == e@);
        let ghost prev = entry_views(live@);
        match e.op {
            Op::Apply => {
                if e.applied && !e.undo.is_nothing() {
                    live.push(e.clone());
                    assert(entry_views(live@) == prev.push(e@));
                }
            },
            Op::Revert => {
                match last_live_with(&live, &e.undo) {
                    Some(pos) => {
                        live.remove(pos);
                        assert(entry_views(live@) == prev.remove(pos as int));
                    },
                    None => {},
                }
            },
        }
        i = i + 1;
    }
    assert(all.take(entries.len() as int) == all);
    let mut out: Vec<Entry> = Vec::new();
    let mut k = live.len();
    while k > 0
        invariant
            k <= live.len(),
            entry_views(live@) == live_of(all),
            out.len() == live.len() - k,
            forall|t: int| 0 <= t < out.len() ==> #[trigger] out@[t]@ == live@[live.len() - 1 - t]@,
        decreases k,
    {
        k = k - 1;
        out.push(live[k].clone());
    }
    assert(entry_views(out@) == reversed(live_of(all)));
    out
}

/// A revert entry placed right after the apply entry it cancels leaves the
/// outstanding set as it was before both.
pub proof fn law_revert_cancels_apply(es: Seq<EntryView>, a: EntryView, r: EntryView)
    requires
        records_change(a),
        r.op == Op::Revert,
        r.undo == a.undo,
    ensures
        live_of(es.push(a).push(r)) == live_of(es),
        outstanding_spec(es.push(a).push(r)) == outstanding_spec(es),
{
    let prev = live_of(es);
    assert(es.push(a).push(r).drop_last() == es.push(a));
    assert(es.push(a).drop_last() == es);
    assert(live_of(es.push(a)) == prev.push(a));
    lemma_last_with_undo_at(prev.push(a), a.undo, prev.len() as int);
    assert(prev.push(a).remove(prev.len() as int) == prev);
}

/// The revert entries that a complete thaw of `out` appends: one per
/// outstanding entry, in the order given, each naming that entry's undo.
pub open spec fn reverts_for(out: Seq<EntryView>, rs: Seq<EntryView>) -> bool {
    &&& rs.len() == out.len()
    &&& forall|i: int| 0 <= i < rs.len() ==> (#[trigger] rs[i]).op == Op::Revert && rs[i].undo == out[i].undo
}

proof fn lemma_thaw_prefix(es: Seq<EntryView>, rs: Seq<EntryView>, k: int)
    requires
        reverts_for(outstanding_spec(es), rs),
        0 <= k <= rs.len(),
    ensures
        live_of(es + rs.take(k)) == live_of(es).take(live_of(es).len() - k),
    decreases k,
{
    let live = live_of(es);
    let n = live.len() as int;
    if k == 0 {
        assert(es + rs.take(0) == es);
        assert(live.take(n) == live);
    } else {
        lemma_thaw_prefix(es, rs, k - 1);
        let s = es + rs.take(k);
        assert(s.drop_last() == es + rs.take(k - 1));
        assert(s.last() == rs[k - 1]);
        let prev = live.take(n - (k - 1));
        assert(rs[k - 1].undo == live[n - 1 - (k - 1)].undo);
        assert(prev[n - k] == live[n - k]);
        lemma_last_with_undo_at(prev, rs[k - 1].undo, n - k);
        assert(prev.remove(n - k) == live.take(n - k));
    }
}

/// Thaw is complete: appending, newest first, one revert for every
/// outstanding change leaves nothing outstanding.
pub proof fn law_thaw_clears_outstanding(es: Seq<EntryView>, rs: Seq<EntryView>)
    requires
        reverts_for(outstanding_spec(es), rs),
    ensures
        outstanding_spec(es + rs).len() == 0,
{
    lemma_thaw_prefix(es, rs, rs.len() as int);
    assert(rs.take(rs.len() as int) == rs);
}

/// Only applied entries that carry undo data are ever outstanding, and each
/// of them is an entry of the journal.
pub proof fn law_outstanding_are_journaled_changes(es: Seq<EntryView>)
    ensures
        forall|i: int|
            0 <= i < outstanding_spec(es).len() ==> records_change(
                #[trigger] outstanding_spec(es)[i],
            ) && es.contains(outstanding_spec(es)[i]),
{
    lemma_live_entries(es);
    let live = live_of(es);
    assert forall|i: int| 0 <= i < outstanding_spec(es).len() implies records_change(
        #[trigger] outstanding_spec(es)[i],
    ) && es.contains(outstanding_spec(es)[i]) by {
        assert(outstanding_spec(es)[i] == live[live.len() - 1 - i]);
    }
}

/// No entry of `s` has an undo that matches a later entry's undo.
pub open spec fn distinct_undos(s: Seq<EntryView>) -> bool {
    forall|i: int, j: int| 0 <= i < j < s.len() ==> !undo_matches((#[trigger] s[i]).undo, (#[trigger] s[j]).undo)
}

/// The entries of `out` whose flag in `chosen` is unset, order kept.
pub open spec fn thaw_kept(out: Seq<EntryView>, chosen: Seq<bool>) -> Seq<EntryView>
    decreases out.len(),
{
    if out.len() == 0 {
        Seq::empty()
    } else if chosen[0] {
        thaw_kept(out.skip(1), chosen.skip(1))
    } else {
        seq![out[0]] + thaw_kept(out.skip(1), chosen.skip(1))
    }
}

/// The entries of `out` whose flag in `chosen` is set, order kept.
pub open spec fn thaw_chosen(out: Seq<EntryView>, chosen: Seq<bool>) -> Seq<EntryView>
    decreases out.len(),
{
    if out.len() == 0 {
        Seq::empty()
    } else if chosen[0] {
        seq![out[0]] + thaw_chosen(out.skip(1), chosen.skip(1))
    } else {
        thaw_chosen(out.skip(1), chosen.skip(1))
    }
}

proof fn lemma_revert_one(e: Seq<EntryView>, kd: Seq<EntryView>, out: Seq<EntryView>, r: EntryView)
    requires
        outstanding_spec(e) == kd + out,
        distinct_undos(kd + out),
        out.len() > 0,
        r.op == Op::Revert,
        r.undo == out[0].undo,
    ensures
        outstanding_spec(e.push(r)) == kd + out.skip(1),
{
    let all = kd + out;
    let live = live_of(e);
    assert(live =~= reversed(all));
    let n = live.len() as int;
    let p = n - 1 - kd.len();
    assert(live[p] == all[kd.len() as int]);
    assert forall|k: int| p < k < n implies !undo_matches(live[k].undo, r.undo) by {
        assert(live[k] == all[n - 1 - k]);
        assert(all[kd.len() as int] == out[0]);
    }
    lemma_last_with_undo_at(live, r.undo, p);
    assert(e.push(r).drop_last() == e);
    assert(e.push(r).last() == r);
    assert(live_of(e.push(r)) == live.remove(p));
    assert(reversed(live.remove(p)) =~= kd + out.skip(1));
}

proof fn lemma_partial_thaw(
    e: Seq<EntryView>,
    kd: Seq<EntryView>,
    out: Seq<EntryView>,
    chosen: Seq<bool>,
    rs: Seq<EntryView>,
)
    requires
        outstanding_spec(e) == kd + out,
        distinct_undos(kd + out),
        chosen.len() == out.len(),
        reverts_for(thaw_chosen(out, chosen), rs),
    ensures
        outstanding_spec(e + rs) == kd + thaw_kept(out, chosen),
    decreases out.len(),
{
    if out.len() == 0 {
        assert(rs.len() == 0);
        assert(e + rs == e);
        assert(kd + out == kd);
        assert(kd + thaw_kept(out, chosen) == kd);
    } else {
        let out1 = out.skip(1);
        let ch1 = chosen.skip(1);
        if chosen[0] {
            let r = rs[0];
            assert(thaw_chosen(out, chosen)[0] == out[0]);
            lemma_revert_one(e, kd, out, r);
            let rest = rs.skip(1);
            assert forall|i: int| 0 <= i < rest.len() implies (#[trigger] rest[i]).op == Op::Revert && rest[i].undo
                == thaw_chosen(out1, ch1)[i].undo by {
                assert(rest[i] == rs[i + 1]);
                assert(thaw_chosen(out, chosen)[i + 1] == thaw_chosen(out1, ch1)[i]);
            }
            assert forall|i: int, j: int| 0 <= i < j < (kd + out1).len() implies !undo_matches(
                (#[trigger] (kd + out1)[i]).undo,
                (#[trigger] (kd + out1)[j]).undo,
            ) by {
                let a = kd + out;
                let ii = if i < kd.len() { i } else { i + 1 };
                let jj = if j < kd.len() { j } else { j + 1 };
                assert((kd + out1)[i] == a[ii]);
                assert((kd + out1)[j] == a[jj]);
                assert(!undo_matches(a[ii].undo, a[jj].undo));
            }
            lemma_partial_thaw(e.push(r), kd, out1, ch1, rest);
            assert(e + rs == e.push(r) + rest);
        } else {
            let kd1 = kd.push(out[0]);
            assert(kd1 + out1 == kd + out);
            lemma_partial_thaw(e, kd1, out1, ch1, rs);
            assert(kd1 + thaw_kept(out1, ch1) == kd + thaw_kept(out, chosen));
        }
    }
}

/// A partial thaw keeps the rest: where the outstanding changes carry
/// distinct undos, appending, in their order, one revert for each change
/// picked by `chosen` leaves outstanding exactly the changes not picked,
/// order kept.
pub proof fn law_partial_thaw_keeps_the_rest(es: Seq<EntryView>, chosen: Seq<bool>, rs: Seq<EntryView>)
    requires
        distinct_undos(outstanding_spec(es)),
        chosen.len() == outstanding_spec(es).len(),
        reverts_for(thaw_chosen(outstanding_spec(es), chosen), rs),
    ensures
        outstanding_spec(es + rs) == thaw_kept(outstanding_spec(es), chosen),
{
    let out = outstanding_spec(es);
    assert(Seq::<EntryView>::empty() + out == out);
    lemma_partial_thaw(es, Seq::empty(), out, chosen, rs);
    assert(Seq::<EntryView>::empty() + thaw_kept(out, chosen) == thaw_kept(out, chosen));
}

} // verus!
