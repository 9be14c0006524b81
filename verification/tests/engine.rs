use stasis::action::{Action, Hive, MatchMode, RegData, RegType, Undo};
use stasis::engine::{plan, SystemBackend, UnsupportedBackend};
use stasis::recipe::{Detect, Meta, RecipeFile};
use std::collections::HashMap;

fn recipe(id: &str, actions: Vec<Action>) -> RecipeFile {
    RecipeFile {
        recipe: Meta {
            id: id.into(),
            name: id.into(),
            vendor: String::new(),
            format: 1,
            revision: 1,
            signature: "unsigned".into(),
            notes: String::new(),
        },
        detect: Detect::default(),
        actions,
    }
}

fn env() -> HashMap<String, String> {
    [("LOCALAPPDATA", "C:\\Users\\dev\\AppData\\Local"), ("APPDATA", "C:\\Users\\dev\\AppData\\Roaming")]
        .iter()
        .map(|(k, v)| (k.to_string(), v.to_string()))
        .collect()
}

#[test]
fn plan_resolves_variables_in_order() {
    let m = env();
    let lookup = |n: &str| m.get(n).cloned();
    let chrome = recipe(
        "chrome",
        vec![
            Action::DisableService { service: "gupdate".into() },
            Action::SetRegistryValue {
                hive: Hive::HKLM,
                key: "SOFTWARE\\Policies\\Google\\Update".into(),
                value: "UpdateDefault".into(),
                value_type: RegType::Dword,
                data: RegData::Dword(0),
            },
        ],
    );
    let slack = recipe("slack", vec![Action::StubExecutable { path: "%LOCALAPPDATA%\\slack\\Update.exe".into() }]);
    let discord = recipe(
        "discord",
        vec![Action::SetJsonValue {
            file: "%APPDATA%\\discord\\settings.json".into(),
            pointer: "/SKIP_HOST_UPDATE".into(),
            value: serde_json::Value::Bool(true),
        }],
    );
    let p = plan(&[&chrome, &slack, &discord], &lookup).unwrap();
    assert_eq!(p.len(), 4);
    assert_eq!(p[0].recipe_id, "chrome");
    assert_eq!(p[0].action, Action::DisableService { service: "gupdate".into() });
    assert_eq!(p[2].action, Action::StubExecutable { path: "C:\\Users\\dev\\AppData\\Local\\slack\\Update.exe".into() });
    assert_eq!(
        p[3].action,
        Action::SetJsonValue {
            file: "C:\\Users\\dev\\AppData\\Roaming\\discord\\settings.json".into(),
            pointer: "/SKIP_HOST_UPDATE".into(),
            value: serde_json::Value::Bool(true),
        }
    );
    assert_eq!(p[3].recipe_id, "discord");
}

#[test]
fn plan_fails_on_first_unresolved_variable() {
    let lookup = |_: &str| None;
    let ok = recipe("chrome", vec![Action::DisableScheduledTask { task: "%X%".into(), match_mode: MatchMode::Prefix }]);
    let bad = recipe("spotify", vec![Action::BlockPath { path: "%LOCALAPPDATA%\\Spotify\\Update".into() }]);
    let worse = recipe("zoom", vec![Action::FirewallBlockProgram { program: "%Q".into() }]);
    assert_eq!(
        plan(&[&ok, &bad, &worse], &lookup).unwrap_err(),
        "recipe `spotify`: undefined variable %LOCALAPPDATA%"
    );
    assert_eq!(plan(&[&ok], &lookup).unwrap().len(), 1);
}

#[test]
fn unsupported_backend_refuses_system_actions() {
    let mut b = UnsupportedBackend;
    assert_eq!(
        b.disable_service("gupdate").unwrap_err(),
        "services are a Windows mechanism; not available on this platform"
    );
    assert!(b.disable_scheduled_task("t", true).is_err());
    assert!(b.firewall_block_program("p").is_err());
    assert!(b.set_registry_value(&Action::BlockPath { path: "p".into() }).is_err());
    assert_eq!(b.revert_system(&Undo::Nothing).unwrap_err(), "system undo is not available on this platform");
}
