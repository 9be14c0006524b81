use stasis::action::{Action, Undo};
use stasis::journal::{outstanding, Entry, Op};

fn entry(op: Op, undo: Undo) -> Entry {
    Entry {
        ts_unix: 1,
        session: "s".into(),
        op,
        recipe_id: "chrome".into(),
        action: Action::DisableService { service: "gupdate".into() },
        undo,
        applied: true,
        note: String::new(),
    }
}

#[test]
fn outstanding_after_revert_keeps_the_other_change() {
    let u1 = Undo::ServiceStart { service: "gupdate".into(), prior_start: 2 };
    let u2 = Undo::ServiceStart { service: "gupdatem".into(), prior_start: 3 };
    let all = vec![
        entry(Op::Apply, u1.clone()),
        entry(Op::Apply, u2.clone()),
        entry(Op::Revert, u2),
    ];
    assert_eq!(all.len(), 3);
    let live = outstanding(&all);
    assert_eq!(live.len(), 1);
    assert_eq!(live[0].undo, u1);
}

#[test]
fn outstanding_is_newest_first() {
    let u1 = Undo::TaskWasEnabled { task: "a".into() };
    let u2 = Undo::TaskWasEnabled { task: "b".into() };
    let u3 = Undo::CreatedBlocker { path: "c".into() };
    let all = vec![entry(Op::Apply, u1.clone()), entry(Op::Apply, u2.clone()), entry(Op::Apply, u3.clone())];
    let live = outstanding(&all);
    assert_eq!(live.iter().map(|e| e.undo.clone()).collect::<Vec<_>>(), vec![u3, u2, u1]);
}

#[test]
fn failed_and_empty_undos_are_never_outstanding() {
    let mut failed = entry(Op::Apply, Undo::FirewallRule { rule: "r".into() });
    failed.applied = false;
    let all = vec![failed, entry(Op::Apply, Undo::Nothing)];
    assert!(outstanding(&all).is_empty());
    assert!(outstanding(&[]).is_empty());
}

#[test]
fn revert_cancels_only_the_most_recent_match() {
    let u = Undo::CreatedBlocker { path: "p".into() };
    let mut first = entry(Op::Apply, u.clone());
    first.session = "first".into();
    let mut second = entry(Op::Apply, u.clone());
    second.session = "second".into();
    let all = vec![first, second, entry(Op::Revert, u)];
    let live = outstanding(&all);
    assert_eq!(live.len(), 1);
    assert_eq!(live[0].session, "first");
}

#[test]
fn revert_without_a_live_match_changes_nothing() {
    let u1 = Undo::CreatedBlocker { path: "p".into() };
    let all = vec![
        entry(Op::Apply, u1.clone()),
        entry(Op::Revert, Undo::CreatedBlocker { path: "q".into() }),
    ];
    let live = outstanding(&all);
    assert_eq!(live.len(), 1);
    assert_eq!(live[0].undo, u1);
}

#[test]
fn thawing_everything_outstanding_leaves_nothing() {
    let u1 = Undo::JsonValue { file: "f".into(), pointer: "/K".into(), prior: Some(serde_json::Value::from(1)), file_existed: true };
    let u2 = Undo::MovedExecutable { original: "a".into(), moved_to: "a.stasis-original".into() };
    let mut all = vec![entry(Op::Apply, u1.clone()), entry(Op::Apply, u2), entry(Op::Apply, u1)];
    let live = outstanding(&all);
    assert_eq!(live.len(), 3);
    for e in live {
        all.push(entry(Op::Revert, e.undo));
    }
    assert!(outstanding(&all).is_empty());
}

#[test]
fn same_as_compares_undo_records() {
    let a = Undo::RegistryValue {
        hive: stasis::action::Hive::HKLM,
        key: "K".into(),
        value: "V".into(),
        prior: Some(stasis::action::RegData::Dword(0)),
        key_existed: true,
    };
    let mut b = a.clone();
    assert!(a.same_as(&b));
    if let Undo::RegistryValue { prior, .. } = &mut b {
        *prior = Some(stasis::action::RegData::Dword(1));
    }
    assert!(!a.same_as(&b));
    assert!(Undo::Nothing.is_nothing());
    assert!(!a.is_nothing());
}

#[test]
fn partial_thaw_keeps_the_changes_not_reverted_in_order() {
    let u1 = Undo::TaskWasEnabled { task: "a".into() };
    let u2 = Undo::TaskWasEnabled { task: "b".into() };
    let u3 = Undo::TaskWasEnabled { task: "c".into() };
    let u4 = Undo::TaskWasEnabled { task: "d".into() };
    let mut all = vec![
        entry(Op::Apply, u1.clone()),
        entry(Op::Apply, u2.clone()),
        entry(Op::Apply, u3.clone()),
        entry(Op::Apply, u4.clone()),
    ];
    // Outstanding is u4, u3, u2, u1; the thaw reverts u4 and u2 only.
    all.push(entry(Op::Revert, u4));
    all.push(entry(Op::Revert, u2));
    let live = outstanding(&all);
    assert_eq!(live.iter().map(|e| e.undo.clone()).collect::<Vec<_>>(), vec![u3, u1]);
}

#[test]
fn revert_matches_json_priors_by_value() {
    let zero = |v: f64| Undo::JsonValue {
        file: "f".into(),
        pointer: "/K".into(),
        prior: Some(serde_json::Value::from(v)),
        file_existed: true,
    };
    let all = vec![entry(Op::Apply, zero(0.0)), entry(Op::Revert, zero(-0.0))];
    assert!(outstanding(&all).is_empty());
}
