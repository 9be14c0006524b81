use stasis::action::{Action, Undo};
use stasis::engine::{Applied, PlannedAction};
use stasis::journal::{outstanding, Op};
use stasis::recipe::{Detect, Meta, RecipeFile};
use stasis::session::{plan_header, plan_line, thaw_header, thaw_line, unsigned_notice, FreezeRun, ThawRun, NOTHING_TO_THAW};

fn pa() -> PlannedAction {
    PlannedAction { recipe_id: "chrome".into(), action: Action::DisableService { service: "gupdate".into() } }
}

#[test]
fn freeze_journals_applied_and_failed_actions() {
    let mut run = FreezeRun::start(1752600000);
    assert_eq!(run.session, "freeze-1752600000");
    let records = run.record_applied(
        &pa(),
        vec![
            Applied { undo: Undo::ServiceStart { service: "gupdate".into(), prior_start: 2 }, note: String::new() },
            Applied { undo: Undo::Nothing, note: "already".into() },
        ],
        7,
    );
    assert_eq!(records.len(), 2);
    assert_eq!(records[0].0, "  \u{2713} [chrome] disable service `gupdate`");
    assert_eq!(records[1].0, "  = [chrome] disable service `gupdate` (already)");
    assert_eq!(records[0].1.op, Op::Apply);
    assert!(records[0].1.applied);
    assert_eq!(records[0].1.session, "freeze-1752600000");
    assert_eq!(records[0].1.ts_unix, 7);
    let (line, entry) = run.record_failed(&pa(), "boom".into(), 8);
    assert_eq!(line, "  \u{2717} [chrome] disable service `gupdate` \u{2014} boom");
    assert!(!entry.applied);
    assert_eq!(entry.undo, Undo::Nothing);
    assert_eq!(entry.note, "boom");
    assert_eq!((run.ok, run.failed), (2, 1));
    assert_eq!(run.summary("j.jsonl"), "Frozen: 2 action(s) applied, 1 failed. Journal: j.jsonl");
    assert_eq!(run.outcome().unwrap_err(), "some actions failed \u{2014} the report above is the honest state");
    assert!(FreezeRun::start(0).outcome().is_ok());
}

#[test]
fn thaw_with_no_journal_is_a_noop() {
    let live = outstanding(&[]);
    assert!(live.is_empty());
    assert!(NOTHING_TO_THAW.contains("Nothing to thaw"));
}

#[test]
fn thaw_reverts_and_clears_the_journal() {
    let mut run = FreezeRun::start(1);
    let mut journal: Vec<_> = run
        .record_applied(
            &pa(),
            vec![Applied { undo: Undo::ServiceStart { service: "gupdate".into(), prior_start: 2 }, note: String::new() }],
            1,
        )
        .into_iter()
        .map(|(_, e)| e)
        .collect();
    let live = outstanding(&journal);
    assert_eq!(live.len(), 1);
    assert_eq!(thaw_header(live.len(), true), "Thaw: 1 outstanding change(s) \u{2014} DRY RUN");
    assert_eq!(thaw_line(&live[0]), "  [chrome] undo: disable service `gupdate`");
    let mut thaw = ThawRun::start(2);
    assert_eq!(thaw.session, "thaw-2");
    let (line, entry) = thaw.reverted(&live[0], 3);
    assert_eq!(line, "  \u{2713} reverted: disable service `gupdate`");
    assert_eq!(entry.op, Op::Revert);
    journal.push(entry);
    assert!(outstanding(&journal).is_empty());
    assert_eq!(thaw.outcome().unwrap(), "Machine restored to its pre-Stasis state.");
    let msg = thaw.could_not(&live[0], "denied");
    assert_eq!(msg, "  \u{2717} could not revert disable service `gupdate` \u{2014} denied");
    assert_eq!(
        thaw.outcome().unwrap_err(),
        "1 change(s) could not be reverted; journal keeps them outstanding"
    );
}

#[test]
fn plan_lines_and_notices() {
    assert_eq!(plan_header(3, 2, false), "Plan: 3 action(s) across 2 recipe(s)");
    assert_eq!(plan_header(0, 0, true), "Plan: 0 action(s) across 0 recipe(s) \u{2014} DRY RUN, nothing will change");
    assert_eq!(plan_line(&pa()), "  [chrome] disable service `gupdate`");
    let mut r = RecipeFile {
        recipe: Meta {
            id: "chrome".into(),
            name: "Chrome".into(),
            vendor: String::new(),
            format: 1,
            revision: 1,
            signature: "unsigned".into(),
            notes: String::new(),
        },
        detect: Detect::default(),
        actions: vec![],
    };
    assert_eq!(
        unsigned_notice(&r).unwrap(),
        "note: recipe `chrome` is unsigned (signing lands in M4; dev builds accept this)"
    );
    r.recipe.signature = "c2lnbmVk".into();
    assert!(unsigned_notice(&r).is_none());
}
