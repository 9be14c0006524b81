use stasis::action::{Action, Hive, MatchMode, RegData, RegType, Undo};

#[test]
fn describe_each_action_kind() {
    assert_eq!(Action::DisableService { service: "gupdate".into() }.describe(), "disable service `gupdate`");
    assert_eq!(
        Action::DisableScheduledTask { task: "T".into(), match_mode: MatchMode::Exact }.describe(),
        "disable scheduled task `T`"
    );
    assert_eq!(
        Action::DisableScheduledTask { task: "T".into(), match_mode: MatchMode::Prefix }.describe(),
        "disable scheduled tasks starting with `T`"
    );
    assert_eq!(
        Action::SetRegistryValue {
            hive: Hive::HKLM,
            key: "SOFTWARE\\Policies\\Google\\Update".into(),
            value: "UpdateDefault".into(),
            value_type: RegType::Dword,
            data: RegData::Dword(0),
        }
        .describe(),
        "set registry HKLM\\SOFTWARE\\Policies\\Google\\Update\\UpdateDefault = 0"
    );
    assert_eq!(
        Action::SetRegistryValue {
            hive: Hive::HKCU,
            key: "K".into(),
            value: "V".into(),
            value_type: RegType::String,
            data: RegData::String("x".into()),
        }
        .describe(),
        "set registry HKCU\\K\\V = \"x\""
    );
    assert_eq!(
        Action::SetJsonValue { file: "f.json".into(), pointer: "/SKIP_HOST_UPDATE".into(), value: serde_json::Value::Bool(true) }
            .describe(),
        "set JSON f.json /SKIP_HOST_UPDATE = true"
    );
    assert_eq!(Action::StubExecutable { path: "u.exe".into() }.describe(), "stub executable u.exe");
    assert_eq!(Action::BlockPath { path: "p".into() }.describe(), "block path p");
    assert_eq!(
        Action::FirewallBlockProgram { program: "x.exe".into() }.describe(),
        "firewall: block outbound for x.exe"
    );
}

#[test]
fn describe_prints_large_dword_in_decimal() {
    let a = Action::SetRegistryValue {
        hive: Hive::HKLM,
        key: "K".into(),
        value: "V".into(),
        value_type: RegType::Dword,
        data: RegData::Dword(4294967295),
    };
    assert_eq!(a.describe(), "set registry HKLM\\K\\V = 4294967295");
}

#[test]
fn validate_rejects_blank_names() {
    assert_eq!(
        Action::DisableService { service: " \t".into() }.validate(),
        Err("disable_service: empty service name".to_string())
    );
    assert_eq!(
        Action::DisableScheduledTask { task: "".into(), match_mode: MatchMode::Prefix }.validate(),
        Err("disable_scheduled_task: empty task name".to_string())
    );
    assert_eq!(
        Action::StubExecutable { path: "  ".into() }.validate(),
        Err("stub_executable/block_path: empty path".to_string())
    );
    assert_eq!(
        Action::BlockPath { path: "\n".into() }.validate(),
        Err("stub_executable/block_path: empty path".to_string())
    );
    assert_eq!(
        Action::FirewallBlockProgram { program: "".into() }.validate(),
        Err("firewall_block_program: empty program".to_string())
    );
    assert_eq!(
        Action::SetJsonValue { file: " ".into(), pointer: "/K".into(), value: serde_json::Value::from(1) }.validate(),
        Err("set_json_value: empty file".to_string())
    );
}

#[test]
fn validate_registry_type_must_match_data() {
    let bad = Action::SetRegistryValue {
        hive: Hive::HKLM,
        key: "K".into(),
        value: "V".into(),
        value_type: RegType::Dword,
        data: RegData::String("1".into()),
    };
    assert_eq!(bad.validate(), Err("set_registry_value: `type` does not match `data`".to_string()));
    let blank = Action::SetRegistryValue {
        hive: Hive::HKLM,
        key: "K".into(),
        value: " ".into(),
        value_type: RegType::Dword,
        data: RegData::Dword(1),
    };
    assert_eq!(blank.validate(), Err("set_registry_value: empty key or value name".to_string()));
    let good = Action::SetRegistryValue {
        hive: Hive::HKCU,
        key: "K".into(),
        value: "V".into(),
        value_type: RegType::String,
        data: RegData::String("1".into()),
    };
    assert_eq!(good.validate(), Ok(()));
}

#[test]
fn validate_json_pointer_is_single_level() {
    for p in ["KEY", "/", "/a/b", ""] {
        let a = Action::SetJsonValue { file: "f".into(), pointer: p.into(), value: serde_json::Value::from(1) };
        assert_eq!(
            a.validate(),
            Err(format!("set_json_value: pointer `{p}` must be a single-level JSON pointer like /KEY"))
        );
    }
    let ok = Action::SetJsonValue { file: "f".into(), pointer: "/SKIP_HOST_UPDATE".into(), value: serde_json::Value::Bool(true) };
    assert_eq!(ok.validate(), Ok(()));
}

#[test]
fn match_mode_defaults_to_exact() {
    assert_eq!(MatchMode::default(), MatchMode::Exact);
}

#[test]
fn same_as_compares_json_priors_by_value() {
    let u = |v: serde_json::Value| Undo::JsonValue { file: "f".into(), pointer: "/K".into(), prior: Some(v), file_existed: true };
    assert!(u(serde_json::Value::from(0.0)).same_as(&u(serde_json::Value::from(-0.0))));
    assert!(!u(serde_json::Value::from(1)).same_as(&u(serde_json::Value::from(1.0))));
}
