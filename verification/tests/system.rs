use stasis::action::{Action, Hive, RegData, RegType, Undo};
use stasis::system::{
    firewall_block_plan, no_task_matched, parse_task_list, registry_undo, service_disable_plan, system_revert_plan,
    task_disable_command, task_targets, RegistryRestore, SystemRevert,
};

fn strings(v: &[&str]) -> Vec<String> {
    v.iter().map(|s| s.to_string()).collect()
}

#[test]
fn service_disable_runs_sc_and_records_start_type() {
    let (cmds, applied) = service_disable_plan("gupdate", 2);
    assert_eq!(cmds.len(), 2);
    assert_eq!(cmds[0].program, "sc.exe");
    assert_eq!(cmds[0].args, strings(&["config", "gupdate", "start=", "disabled"]));
    assert!(cmds[0].must_succeed);
    assert_eq!(cmds[1].args, strings(&["stop", "gupdate"]));
    assert!(!cmds[1].must_succeed);
    assert_eq!(applied.undo, Undo::ServiceStart { service: "gupdate".into(), prior_start: 2 });
}

#[test]
fn service_already_disabled_does_nothing() {
    let (cmds, applied) = service_disable_plan("gupdate", 4);
    assert!(cmds.is_empty());
    assert_eq!(applied.undo, Undo::Nothing);
    assert_eq!(applied.note, "service `gupdate` already disabled");
}

#[test]
fn task_prefix_matching_ignores_leading_backslashes() {
    let listed = strings(&[
        "\\GoogleUpdateTaskMachineCore{A}",
        "\\GoogleUpdateTaskMachineUA{B}",
        "\\Microsoft\\Windows\\Defrag",
        "GoogleUpdateTaskMachineCore",
    ]);
    let hits = task_targets("GoogleUpdateTaskMachine", true, &listed);
    assert_eq!(
        hits,
        strings(&["\\GoogleUpdateTaskMachineCore{A}", "\\GoogleUpdateTaskMachineUA{B}", "GoogleUpdateTaskMachineCore"])
    );
    assert_eq!(task_targets("\\\\Defrag", true, &listed), Vec::<String>::new());
    assert_eq!(task_targets("\\Exact", false, &listed), strings(&["\\Exact"]));
    let c = task_disable_command("\\T");
    assert_eq!(c.args, strings(&["/change", "/tn", "\\T", "/disable"]));
    assert_eq!(no_task_matched("X").note, "no scheduled tasks match `X`");
}

#[test]
fn firewall_rule_is_named_after_program() {
    let (cmd, applied) = firewall_block_plan("C:\\u.exe");
    assert_eq!(cmd.program, "netsh.exe");
    assert_eq!(
        cmd.args,
        strings(&[
            "advfirewall",
            "firewall",
            "add",
            "rule",
            "name=Stasis: block updater (C:\\u.exe)",
            "dir=out",
            "action=block",
            "program=C:\\u.exe",
            "enable=yes",
        ])
    );
    assert_eq!(applied.undo, Undo::FirewallRule { rule: "Stasis: block updater (C:\\u.exe)".into() });
}

#[test]
fn registry_undo_records_prior_value() {
    let a = Action::SetRegistryValue {
        hive: Hive::HKLM,
        key: "K".into(),
        value: "V".into(),
        value_type: RegType::Dword,
        data: RegData::Dword(0),
    };
    let applied = registry_undo(&a, Some(RegData::Dword(1)), true).unwrap();
    assert_eq!(
        applied.undo,
        Undo::RegistryValue { hive: Hive::HKLM, key: "K".into(), value: "V".into(), prior: Some(RegData::Dword(1)), key_existed: true }
    );
    assert_eq!(
        registry_undo(&Action::BlockPath { path: "p".into() }, None, false).unwrap_err(),
        "internal: wrong action for set_registry_value"
    );
}

#[test]
fn system_revert_restores_start_types() {
    for (prior, start) in [(2u32, "auto"), (3, "demand"), (4, "disabled"), (7, "demand")] {
        match system_revert_plan(&Undo::ServiceStart { service: "s".into(), prior_start: prior }).unwrap() {
            SystemRevert::Run(c) => assert_eq!(c.args, strings(&["config", "s", "start=", start])),
            other => panic!("unexpected {other:?}"),
        }
    }
    for prior in [0u32, 1] {
        assert_eq!(
            system_revert_plan(&Undo::ServiceStart { service: "s".into(), prior_start: prior }).unwrap_err(),
            "service `s`: refusing to touch a boot/system driver"
        );
    }
    assert_eq!(system_revert_plan(&Undo::Nothing).unwrap_err(), "internal: not a system undo");
}

#[test]
fn system_revert_of_tasks_rules_and_registry() {
    match system_revert_plan(&Undo::TaskWasEnabled { task: "\\T".into() }).unwrap() {
        SystemRevert::Run(c) => assert_eq!(c.args, strings(&["/change", "/tn", "\\T", "/enable"])),
        other => panic!("unexpected {other:?}"),
    }
    match system_revert_plan(&Undo::FirewallRule { rule: "R".into() }).unwrap() {
        SystemRevert::Run(c) => assert_eq!(c.args, strings(&["advfirewall", "firewall", "delete", "rule", "name=R"])),
        other => panic!("unexpected {other:?}"),
    }
    let reg = |prior: Option<RegData>, key_existed: bool| {
        match system_revert_plan(&Undo::RegistryValue {
            hive: Hive::HKCU,
            key: "K".into(),
            value: "V".into(),
            prior,
            key_existed,
        })
        .unwrap()
        {
            SystemRevert::Registry { restore, .. } => restore,
            other => panic!("unexpected {other:?}"),
        }
    };
    assert!(matches!(reg(Some(RegData::String("x".into())), true), RegistryRestore::Write(RegData::String(_))));
    assert!(matches!(reg(None, true), RegistryRestore::DeleteValue));
    assert!(matches!(reg(None, false), RegistryRestore::DeleteKey));
}

#[test]
fn task_list_csv_first_fields() {
    let csv = "\"\\GoogleUpdateTaskMachineCore{A}\",\"N/A\",\"Ready\"\r\n\"\\Defrag\",\"x\"\nno quotes\n\"open only\n";
    assert_eq!(
        parse_task_list(csv),
        strings(&["\\GoogleUpdateTaskMachineCore{A}", "\\Defrag", "open only"])
    );
    assert!(parse_task_list("").is_empty());
}
