use stasis::action::Undo;
use stasis::files::{
    block_plan, json_restore_plan, json_set_plan, stub_plan, unblock_plan, unstub_plan, FsOp, BLOCKER_TEXT,
    STUB_MARKER,
};

#[test]
fn stub_moves_executable_aside_and_leaves_marker() {
    let p = stub_plan("C:\\a\\Update.exe", true, false);
    assert_eq!(p.steps.len(), 2);
    match &p.steps[0].op {
        FsOp::Rename { from, to } => {
            assert_eq!(from, "C:\\a\\Update.exe");
            assert_eq!(to, "C:\\a\\Update.exe.stasis-original");
        }
        other => panic!("unexpected {other:?}"),
    }
    assert_eq!(p.steps[0].context.as_deref(), Some("move C:\\a\\Update.exe"));
    match &p.steps[1].op {
        FsOp::Write { path, bytes } => {
            assert_eq!(path, "C:\\a\\Update.exe");
            assert_eq!(bytes.as_slice(), STUB_MARKER.as_bytes());
        }
        other => panic!("unexpected {other:?}"),
    }
    assert_eq!(
        p.applied.undo,
        Undo::MovedExecutable {
            original: "C:\\a\\Update.exe".into(),
            moved_to: "C:\\a\\Update.exe.stasis-original".into()
        }
    );
}

#[test]
fn stub_of_missing_or_stubbed_executable_does_nothing() {
    let p = stub_plan("x.exe", false, false);
    assert!(p.steps.is_empty());
    assert_eq!(p.applied.undo, Undo::Nothing);
    assert_eq!(p.applied.note, "x.exe not present; nothing to stub");
    let q = stub_plan("x.exe", true, true);
    assert!(q.steps.is_empty());
    assert_eq!(q.applied.note, "x.exe appears already stubbed");
}

#[test]
fn unstub_checks_the_marker() {
    let steps = unstub_plan("x.exe", "x.exe.stasis-original", Some(Ok(STUB_MARKER.as_bytes().to_vec()))).unwrap();
    assert_eq!(steps.len(), 2);
    assert_eq!(steps[0].context.as_deref(), Some("remove marker x.exe"));
    assert_eq!(steps[1].context.as_deref(), Some("restore x.exe"));
    let replaced = unstub_plan("x.exe", "x.exe.stasis-original", Some(Ok(b"MZ".to_vec()))).unwrap_err();
    assert_eq!(
        replaced,
        "x.exe is not the Stasis marker (the app may have replaced it); original preserved at x.exe.stasis-original \u{2014} restore manually"
    );
    let gone = unstub_plan("x.exe", "m", None).unwrap();
    assert_eq!(gone.len(), 1);
    assert_eq!(unstub_plan("x.exe", "m", Some(Err("denied".into()))).unwrap_err(), "read x.exe: denied");
}

#[test]
fn block_creates_read_only_file() {
    let p = block_plan("C:\\l\\Spotify\\Update", false, false, Some("C:\\l\\Spotify".into())).unwrap();
    assert_eq!(p.steps.len(), 3);
    assert_eq!(p.steps[0].context.as_deref(), Some("create C:\\l\\Spotify"));
    match &p.steps[1].op {
        FsOp::Write { bytes, .. } => assert_eq!(bytes.as_slice(), BLOCKER_TEXT.as_bytes()),
        other => panic!("unexpected {other:?}"),
    }
    match &p.steps[2].op {
        FsOp::SetReadonly { readonly, .. } => assert!(*readonly),
        other => panic!("unexpected {other:?}"),
    }
    assert_eq!(p.applied.undo, Undo::CreatedBlocker { path: "C:\\l\\Spotify\\Update".into() });
    let un = unblock_plan("C:\\l\\Spotify\\Update", true);
    assert_eq!(un.len(), 2);
    assert!(un[0].context.is_none());
    assert!(unblock_plan("p", false).is_empty());
}

#[test]
fn block_refuses_directory_and_skips_occupied_path() {
    assert_eq!(
        block_plan("d", true, true, None).unwrap_err(),
        "d exists as a directory; refusing to block (freeze the app's updater or remove the directory first)"
    );
    let p = block_plan("f", false, true, None).unwrap();
    assert!(p.steps.is_empty());
    assert_eq!(p.applied.note, "f already occupied");
}

fn written(steps: &[stasis::files::FsStep]) -> serde_json::Value {
    match &steps.last().unwrap().op {
        FsOp::Write { bytes, .. } => serde_json::from_slice(bytes).unwrap(),
        other => panic!("unexpected {other:?}"),
    }
}

fn value(text: &str) -> serde_json::Value {
    serde_json::from_str(text).unwrap()
}

#[test]
fn json_set_updates_key_and_records_prior() {
    let p = json_set_plan(
        "s.json",
        "/SKIP_HOST_UPDATE",
        &value("true"),
        Some(Ok("{\"a\": 1, \"SKIP_HOST_UPDATE\": false}".into())),
        None,
    )
    .unwrap();
    assert_eq!(p.steps.len(), 1);
    assert_eq!(p.steps[0].context.as_deref(), Some("write s.json"));
    assert_eq!(written(&p.steps), value("{\"a\":1,\"SKIP_HOST_UPDATE\":true}"));
    assert_eq!(
        p.applied.undo,
        Undo::JsonValue {
            file: "s.json".into(),
            pointer: "/SKIP_HOST_UPDATE".into(),
            prior: Some(value("false")),
            file_existed: true
        }
    );
}

#[test]
fn json_set_creates_missing_file() {
    let p = json_set_plan("d\\s.json", "/K", &value("{\"x\":[1,2]}"), None, Some("d".into())).unwrap();
    assert_eq!(p.steps.len(), 2);
    assert_eq!(p.steps[0].context.as_deref(), Some("create d"));
    assert_eq!(written(&p.steps), value("{\"K\":{\"x\":[1,2]}}"));
    assert_eq!(
        p.applied.undo,
        Undo::JsonValue { file: "d\\s.json".into(), pointer: "/K".into(), prior: None, file_existed: false }
    );
}

#[test]
fn json_set_already_set_does_nothing() {
    let p = json_set_plan("s.json", "/K", &value("true"), Some(Ok("{ \"K\" : true }".into())), None).unwrap();
    assert!(p.steps.is_empty());
    assert_eq!(p.applied.undo, Undo::Nothing);
    assert_eq!(p.applied.note, "s.json /K already set");
}

#[test]
fn json_set_compares_values_not_texts() {
    let p = json_set_plan("s.json", "/K", &value("0.0"), Some(Ok("{\"K\": -0.0}".into())), None).unwrap();
    assert!(p.steps.is_empty());
    assert_eq!(p.applied.undo, Undo::Nothing);
    let q = json_set_plan("s.json", "/K", &value("1"), Some(Ok("{\"K\": 1.0}".into())), None).unwrap();
    assert_eq!(q.steps.len(), 1);
}

#[test]
fn json_set_errors() {
    let not_json = json_set_plan("s.json", "/K", &value("1"), Some(Ok("{oops".into())), None).unwrap_err();
    assert!(not_json.starts_with("s.json is not valid JSON: "), "{not_json}");
    assert_eq!(
        json_set_plan("s.json", "/K", &value("1"), Some(Ok("[1]".into())), None).unwrap_err(),
        "s.json: top level is not a JSON object"
    );
    assert_eq!(
        json_set_plan("s.json", "/K", &value("1"), Some(Err("denied".into())), None).unwrap_err(),
        "read s.json: denied"
    );
}

#[test]
fn json_restore_puts_prior_back_or_removes_key() {
    let current = "{\n  \"K\": true,\n  \"a\": 1\n}".to_string();
    let back = json_restore_plan("s.json", "/K", Some(value("false")), true, true, Ok(current.clone())).unwrap();
    assert_eq!(written(&back), value("{\"K\":false,\"a\":1}"));
    let gone = json_restore_plan("s.json", "/K", None, true, true, Ok(current)).unwrap();
    assert_eq!(written(&gone), value("{\"a\":1}"));
}

#[test]
fn json_restore_removes_created_file() {
    let steps = json_restore_plan("s.json", "/K", None, false, true, Err("unread".into())).unwrap();
    assert_eq!(steps.len(), 1);
    match &steps[0].op {
        FsOp::RemoveFile { path } => assert_eq!(path, "s.json"),
        other => panic!("unexpected {other:?}"),
    }
    assert!(json_restore_plan("s.json", "/K", None, false, false, Err("unread".into())).unwrap().is_empty());
    assert_eq!(
        json_restore_plan("s.json", "/K", Some(value("1")), false, true, Err("gone".into())).unwrap_err(),
        "read s.json: gone"
    );
    let bad = json_restore_plan("s.json", "/K", Some(value("1")), true, true, Ok("nope".into())).unwrap_err();
    assert!(bad.starts_with("s.json: "), "{bad}");
}

#[test]
fn json_set_writes_what_serde_json_prints_for_the_edited_object() {
    let text = "{\"f\": 0.30000000000000004, \"g\": 1e300, \"h\": -0.0}";
    let p = json_set_plan("s.json", "/K", &value("true"), Some(Ok(text.into())), None).unwrap();
    let mut doc: serde_json::Value = serde_json::from_str(text).unwrap();
    doc.as_object_mut().unwrap().insert("K".into(), serde_json::Value::Bool(true));
    let expected = serde_json::to_string_pretty(&doc).unwrap();
    match &p.steps[0].op {
        FsOp::Write { bytes, .. } => assert_eq!(bytes.as_slice(), expected.as_bytes()),
        other => panic!("unexpected {other:?}"),
    }
}
