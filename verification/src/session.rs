//! Freeze and thaw sessions. The program around this library performs each
//! action or revert and writes the journal; what each outcome is journaled
//! and reported as, and how the session ends, is decided here.

use crate::action::{ActionView, describe_spec};
use crate::engine::{Applied, AppliedView, PlannedAction, PlannedView};
use crate::journal::{
    Entry, EntryView, Op, distinct_undos, law_partial_thaw_keeps_the_rest, law_thaw_clears_outstanding,
    outstanding_spec, reverts_for, thaw_chosen, thaw_kept,
};
use crate::recipe::RecipeFile;
use crate::text::{decimal, decimal_string};
use vstd::prelude::*;

verus! {

/// The notice shown for a recipe that carries no signature yet.
pub open spec fn unsigned_notice_spec(id: Seq<char>, signature: Seq<char>) -> Option<Seq<char>> {
    if signature == "unsigned"@ {
        Some("note: recipe `"@ + id + "` is unsigned (signing lands in M4; dev builds accept this)"@)
    } else {
        None
    }
}

/// The notice to show before applying a recipe, if any.
pub fn unsigned_notice(r: &RecipeFile) -> (n: Option<String>)
    ensures
        n.deep_view() == unsigned_notice_spec(r@.recipe.id, r@.recipe.signature),
{
    if crate::text::same_text(r.recipe.signature.as_str(), "unsigned") {
        let mut msg = String::from_str("note: recipe `");
        msg.append(r.recipe.id.as_str());
        msg.append("` is unsigned (signing lands in M4; dev builds accept this)");
        Some(msg)
    } else {
        None
    }
}

/// The first line of a freeze: how much the plan holds.
pub open spec fn plan_header_spec(actions: nat, recipes: nat, dry_run: bool) -> Seq<char> {
    "Plan: "@ + decimal(actions) + " action(s) across "@ + decimal(recipes) + " recipe(s)"@ + if dry_run {
        " \u{2014} DRY RUN, nothing will change"@
    } else {
        ""@
    }
}

pub fn plan_header(actions: usize, recipes: usize, dry_run: bool) -> (s: String)
    ensures
        s@ == plan_header_spec(actions as nat, recipes as nat, dry_run),
{
    let mut s = String::from_str("Plan: ");
    let a = decimal_string(actions as u64);
    s.append(a.as_str());
    s.append(" action(s) across ");
    let r = decimal_string(recipes as u64);
    s.append(r.as_str());
    s.append(" recipe(s)");
    if dry_run {
        s.append(" \u{2014} DRY RUN, nothing will change");
    } else {
        s.append("");
    }
    s
}

/// How a planned action is listed: its recipe, then what it does.
pub open spec fn plan_line_spec(recipe_id: Seq<char>, action: ActionView) -> Seq<char> {
    "  ["@ + recipe_id + "] "@ + describe_spec(action)
}

pub fn plan_line(pa: &PlannedAction) -> (s: String)
    ensures
        s@ == plan_line_spec(pa@.recipe_id, pa@.action),
{
    let mut s = String::from_str("  [");
    s.append(pa.recipe_id.as_str());
    s.append("] ");
    let d = pa.action.describe();
    s.append(d.as_str());
    s
}

/// A freeze session's running tally.
pub struct FreezeRun {
    pub session: String,
    pub ok: usize,
    pub failed: usize,
}

/// The journal entry for an action that applied, with its undo record.
pub open spec fn applied_entry(ts: u64, session: Seq<char>, pa: PlannedView, a: AppliedView) -> EntryView {
    EntryView {
        ts_unix: ts,
        session,
        op: Op::Apply,
        recipe_id: pa.recipe_id,
        action: pa.action,
        undo: a.undo,
        applied: true,
        note: a.note,
    }
}

/// How an applied action is reported: with `=` and its note when there is
/// one (nothing needed doing), else with a check mark.
pub open spec fn applied_line(pa: PlannedView, a: AppliedView) -> Seq<char> {
    if a.note.len() > 0 {
        "  = ["@ + pa.recipe_id + "] "@ + describe_spec(pa.action) + " ("@ + a.note + ")"@
    } else {
        "  \u{2713} ["@ + pa.recipe_id + "] "@ + describe_spec(pa.action)
    }
}

/// The journal entry for an action that failed: it changed nothing.
pub open spec fn failed_entry(ts: u64, session: Seq<char>, pa: PlannedView, error: Seq<char>) -> EntryView {
    EntryView {
        ts_unix: ts,
        session,
        op: Op::Apply,
        recipe_id: pa.recipe_id,
        action: pa.action,
        undo: crate::action::UndoView::Nothing,
        applied: false,
        note: error,
    }
}

pub open spec fn failed_line(pa: PlannedView, error: Seq<char>) -> Seq<char> {
    "  \u{2717} ["@ + pa.recipe_id + "] "@ + describe_spec(pa.action) + " \u{2014} "@ + error
}

pub open spec fn applied_views(v: Seq<Applied>) -> Seq<AppliedView> {
    v.map_values(|a: Applied| a@)
}

impl FreezeRun {
    /// A freeze session named after its start time.
    pub fn start(ts: u64) -> (r: FreezeRun)
        ensures
            r.session@ == "freeze-"@ + decimal(ts as nat),
            r.ok == 0,
            r.failed == 0,
    {
        let mut session = String::from_str("freeze-");
        let d = decimal_string(ts);
        session.append(d.as_str());
        FreezeRun { session, ok: 0, failed: 0 }
    }

    /// An action applied, yielding these records: the line to show and the
    /// entry to journal for each.
    pub fn record_applied(&mut self, pa: &PlannedAction, applied: Vec<Applied>, ts: u64) -> (r: Vec<(String, Entry)>)
        requires
            old(self).ok + applied@.len() <= usize::MAX,
        ensures
            final(self).ok == old(self).ok + applied@.len(),
            final(self).failed == old(self).failed,
            final(self).session == old(self).session,
            r@.len() == applied@.len(),
            forall|i: int|
                0 <= i < r@.len() ==> (#[trigger] r@[i]).0@ == applied_line(pa@, applied@[i]@) && r@[i].1@
                    == applied_entry(ts, old(self).session@, pa@, applied@[i]@),
    {
        let ghost av = applied@;
        let mut out: Vec<(String, Entry)> = Vec::new();
        let mut rest = applied;
        let ghost mut k: int = 0;
        while rest.len() > 0
            invariant
                0 <= k <= av.len(),
                rest@ == av.skip(k),
                out@.len() == k,
                self.ok == old(self).ok + k,
                self.failed == old(self).failed,
                self.session == old(self).session,
                old(self).ok + av.len() <= usize::MAX,
                forall|i: int|
                    0 <= i < k ==> (#[trigger] out@[i]).0@ == applied_line(pa@, av[i]@) && out@[i].1@
                        == applied_entry(ts, old(self).session@, pa@, av[i]@),
            decreases rest.len(),
        {
            let a = rest.remove(0);
            assert(a == av[k]);
            assert(rest@ == av.skip(k + 1));
            let d = pa.action.describe();
            let line = if !a.note.as_str().is_empty() {
                let mut l = String::from_str("  = [");
                l.append(pa.recipe_id.as_str());
                l.append("] ");
                l.append(d.as_str());
                l.append(" (");
                l.append(a.note.as_str());
                l.append(")");
                l
            } else {
                let mut l = String::from_str("  \u{2713} [");
                l.append(pa.recipe_id.as_str());
                l.append("] ");
                l.append(d.as_str());
                l
            };
            let entry = Entry {
                ts_unix: ts,
                session: self.session.clone(),
                op: Op::Apply,
                recipe_id: pa.recipe_id.clone(),
                action: pa.action.clone(),
                undo: a.undo,
                applied: true,
                note: a.note,
            };
            out.push((line, entry));
            self.ok = self.ok + 1;
            proof {
                k = k + 1;
            }
        }
        out
    }

    /// An action failed with `error`: the line to show and the entry to
    /// journal, which records that nothing changed.
    pub fn record_failed(&mut self, pa: &PlannedAction, error: String, ts: u64) -> (r: (String, Entry))
        requires
            old(self).failed < usize::MAX,
        ensures
            final(self).failed == old(self).failed + 1,
            final(self).ok == old(self).ok,
            final(self).session == old(self).session,
            r.0@ == failed_line(pa@, error@),
            r.1@ == failed_entry(ts, old(self).session@, pa@, error@),
    {
        let d = pa.action.describe();
        let mut line = String::from_str("  \u{2717} [");
        line.append(pa.recipe_id.as_str());
        line.append("] ");
        line.append(d.as_str());
        line.append(" \u{2014} ");
        line.append(error.as_str());
        let entry = Entry {
            ts_unix: ts,
            session: self.session.clone(),
            op: Op::Apply,
            recipe_id: pa.recipe_id.clone(),
            action: pa.action.clone(),
            undo: crate::action::Undo::Nothing,
            applied: false,
            note: error,
        };
        self.failed = self.failed + 1;
        (line, entry)
    }

    /// The closing line of a freeze.
    pub fn summary(&self, journal: &str) -> (s: String)
        ensures
            s@ == "Frozen: "@ + decimal(self.ok as nat) + " action(s) applied, "@ + decimal(self.failed as nat)
                + " failed. Journal: "@ + journal@,
    {
        let mut s = String::from_str("Frozen: ");
        let a = decimal_string(self.ok as u64);
        s.append(a.as_str());
        s.append(" action(s) applied, ");
        let f = decimal_string(self.failed as u64);
        s.append(f.as_str());
        s.append(" failed. Journal: ");
        s.append(journal);
        s
    }

    /// How a freeze ends: an error when any action failed.
    pub fn outcome(&self) -> (r: Result<(), String>)
        ensures
            r is Ok <==> self.failed == 0,
            r matches Err(e) ==> e@ == "some actions failed \u{2014} the report above is the honest state"@,
    {
        if self.failed > 0 {
            Err("some actions failed \u{2014} the report above is the honest state".to_owned())
        } else {
            Ok(())
        }
    }
}

/// What thaw says when nothing is outstanding.
pub const NOTHING_TO_THAW: &'static str = "Nothing to thaw \u{2014} no outstanding changes in the journal.";

/// The first line of a thaw.
pub fn thaw_header(outstanding: usize, dry_run: bool) -> (s: String)
    ensures
        s@ == "Thaw: "@ + decimal(outstanding as nat) + " outstanding change(s)"@ + if dry_run {
            " \u{2014} DRY RUN"@
        } else {
            ""@
        },
{
    let mut s = String::from_str("Thaw: ");
    let n = decimal_string(outstanding as u64);
    s.append(n.as_str());
    s.append(" outstanding change(s)");
    if dry_run {
        s.append(" \u{2014} DRY RUN");
    } else {
        s.append("");
    }
    s
}

/// How an outstanding change is listed before thawing.
pub fn thaw_line(e: &Entry) -> (s: String)
    ensures
        s@ == "  ["@ + e@.recipe_id + "] undo: "@ + describe_spec(e@.action),
{
    let mut s = String::from_str("  [");
    s.append(e.recipe_id.as_str());
    s.append("] undo: ");
    let d = e.action.describe();
    s.append(d.as_str());
    s
}

/// A thaw session's running tally.
pub struct ThawRun {
    pub session: String,
    pub failed: usize,
}

/// The journal entry for a change that was reverted.
pub open spec fn revert_entry(ts: u64, session: Seq<char>, e: EntryView) -> EntryView {
    EntryView {
        ts_unix: ts,
        session,
        op: Op::Revert,
        recipe_id: e.recipe_id,
        action: e.action,
        undo: e.undo,
        applied: true,
        note: Seq::empty(),
    }
}

impl ThawRun {
    /// A thaw session named after its start time.
    pub fn start(ts: u64) -> (r: ThawRun)
        ensures
            r.session@ == "thaw-"@ + decimal(ts as nat),
            r.failed == 0,
    {
        let mut session = String::from_str("thaw-");
        let d = decimal_string(ts);
        session.append(d.as_str());
        ThawRun { session, failed: 0 }
    }

    /// A change was reverted: the line to show and the entry to journal.
    pub fn reverted(&self, e: &Entry, ts: u64) -> (r: (String, Entry))
        ensures
            r.0@ == "  \u{2713} reverted: "@ + describe_spec(e@.action),
            r.1@ == revert_entry(ts, self.session@, e@),
    {
        let mut line = String::from_str("  \u{2713} reverted: ");
        let d = e.action.describe();
        line.append(d.as_str());
        let entry = Entry {
            ts_unix: ts,
            session: self.session.clone(),
            op: Op::Revert,
            recipe_id: e.recipe_id.clone(),
            action: e.action.clone(),
            undo: e.undo.clone(),
            applied: true,
            note: String::new(),
        };
        (line, entry)
    }

    /// A change could not be reverted: the line to show; it stays outstanding.
    pub fn could_not(&mut self, e: &Entry, error: &str) -> (s: String)
        requires
            old(self).failed < usize::MAX,
        ensures
            final(self).failed == old(self).failed + 1,
            final(self).session == old(self).session,
            s@ == "  \u{2717} could not revert "@ + describe_spec(e@.action) + " \u{2014} "@ + error@,
    {
        let mut line = String::from_str("  \u{2717} could not revert ");
        let d = e.action.describe();
        line.append(d.as_str());
        line.append(" \u{2014} ");
        line.append(error);
        self.failed = self.failed + 1;
        line
    }

    /// How a thaw ends: the closing line, or the error when some change
    /// could not be reverted.
    pub fn outcome(&self) -> (r: Result<String, String>)
        ensures
            match r {
                Ok(s) => self.failed == 0 && s@ == "Machine restored to its pre-Stasis state."@,
                Err(e) => self.failed > 0 && e@ == decimal(self.failed as nat)
                    + " change(s) could not be reverted; journal keeps them outstanding"@,
            },
    {
        if self.failed > 0 {
            let mut msg = decimal_string(self.failed as u64);
            msg.append(" change(s) could not be reverted; journal keeps them outstanding");
            Err(msg)
        } else {
            Ok("Machine restored to its pre-Stasis state.".to_owned())
        }
    }
}

/// A thaw in which every outstanding change reverts leaves the journal with
/// nothing outstanding: journaling, newest first, the revert entry of each
/// outstanding change (at any times) clears the outstanding set.
pub proof fn law_thaw_session_clears_journal(es: Seq<EntryView>, times: Seq<u64>, session: Seq<char>)
    requires
        times.len() == outstanding_spec(es).len(),
    ensures
        outstanding_spec(
            es + Seq::new(
                outstanding_spec(es).len(),
                |i: int| revert_entry(times[i], session, outstanding_spec(es)[i]),
            ),
        ).len() == 0,
{
    let out = outstanding_spec(es);
    let rs = Seq::new(out.len(), |i: int| revert_entry(times[i], session, out[i]));
    assert(reverts_for(out, rs));
    law_thaw_clears_outstanding(es, rs);
}

/// A thaw in which only some changes revert keeps the others outstanding:
/// where the outstanding changes carry distinct undos, journaling, newest
/// first, the revert entry of each change picked by `chosen` (at any times)
/// leaves outstanding exactly the changes not picked, order kept.
pub proof fn law_partial_thaw_session(
    es: Seq<EntryView>,
    chosen: Seq<bool>,
    times: Seq<u64>,
    session: Seq<char>,
)
    requires
        distinct_undos(outstanding_spec(es)),
        chosen.len() == outstanding_spec(es).len(),
        times.len() == thaw_chosen(outstanding_spec(es), chosen).len(),
    ensures
        outstanding_spec(
            es + Seq::new(
                times.len(),
                |i: int| revert_entry(times[i], session, thaw_chosen(outstanding_spec(es), chosen)[i]),
            ),
        ) == thaw_kept(outstanding_spec(es), chosen),
{
    let c = thaw_chosen(outstanding_spec(es), chosen);
    let rs = Seq::new(times.len(), |i: int| revert_entry(times[i], session, c[i]));
    assert(reverts_for(c, rs));
    law_partial_thaw_keeps_the_rest(es, chosen, rs);
}

} // verus!
