use stasis::util::{expand_vars, now_unix, secs_or_zero};
use std::collections::HashMap;

fn map(pairs: &[(&str, &str)]) -> HashMap<String, String> {
    pairs.iter().map(|(k, v)| (k.to_string(), v.to_string())).collect()
}

#[test]
fn expands_known_vars() {
    let m = map(&[("LOCALAPPDATA", "C:\\Users\\x\\AppData\\Local")]);
    let f = |n: &str| m.get(n).cloned();
    assert_eq!(
        expand_vars("%LOCALAPPDATA%\\slack\\Update.exe", &f).unwrap(),
        "C:\\Users\\x\\AppData\\Local\\slack\\Update.exe"
    );
}

#[test]
fn unknown_var_is_error() {
    let f = |_: &str| None;
    assert!(expand_vars("%NOPE%\\x", &f).is_err());
}

#[test]
fn double_percent_is_literal() {
    let f = |_: &str| None;
    assert_eq!(expand_vars("100%%", &f).unwrap(), "100%");
}

#[test]
fn expand_reports_undefined_variable_by_name() {
    let f = |_: &str| None;
    assert_eq!(expand_vars("a%NOPE%b", &f), Err("undefined variable %NOPE%".to_string()));
}

#[test]
fn expand_reports_unterminated_reference() {
    let m = map(&[("A", "x")]);
    let f = |n: &str| m.get(n).cloned();
    assert_eq!(
        expand_vars("%A%\\%B", &f),
        Err("unterminated %VAR% in `%A%\\%B`".to_string())
    );
}

#[test]
fn expand_undefined_wins_over_later_unterminated() {
    let f = |_: &str| None;
    assert_eq!(expand_vars("%X%%", &f), Err("undefined variable %X%".to_string()));
}

#[test]
fn expand_keeps_text_without_references() {
    let f = |_: &str| None;
    assert_eq!(expand_vars("C:\\plain\\path", &f).unwrap(), "C:\\plain\\path");
    assert_eq!(expand_vars("", &f).unwrap(), "");
}

#[test]
fn expand_resolves_several_references_in_order() {
    let m = map(&[("A", "1"), ("B", "22")]);
    let f = |n: &str| m.get(n).cloned();
    assert_eq!(expand_vars("%A%-%B%-%%-%A%", &f).unwrap(), "1-22-%-1");
}

#[test]
fn clock_reads_after_the_epoch() {
    assert!(now_unix() > 1_600_000_000);
}

#[test]
fn elapsed_time_gives_its_whole_seconds() {
    let d = std::time::Duration::from_millis(5_999);
    assert_eq!(secs_or_zero(Ok(d)), 5);
}

#[test]
fn clock_before_the_epoch_gives_zero() {
    let early = std::time::UNIX_EPOCH - std::time::Duration::from_secs(10);
    let r = early.duration_since(std::time::UNIX_EPOCH);
    assert!(r.is_err());
    assert_eq!(secs_or_zero(r), 0);
}

#[test]
fn each_reference_is_looked_up_by_its_own_call() {
    let calls = std::cell::Cell::new(0u32);
    let lookup = |_: &str| {
        calls.set(calls.get() + 1);
        Some(calls.get().to_string())
    };
    assert_eq!(expand_vars("%A%-%A%", &lookup), Ok("1-2".to_string()));
}
