//! The sealed action allowlist — recipe format v1.
//!
//! Recipes are data, not code: every recipe compiles down to a list of these
//! seven declarative actions and nothing else. A malicious or buggy recipe
//! cannot do anything this enum cannot express. Adding a variant is a format
//! revision and a product decision, not a convenience.
//!
//! JSON values are `serde_json::Value`s: an action carries the value to
//! store, an undo the value it replaced.

use crate::json::{json_text, json_value_text, json_values_equal, json_values_match};
use crate::text::{blank, decimal, decimal_string, is_blank};
use vstd::prelude::*;

verus! {

#[allow(inconsistent_fields)]
#[derive(Debug, PartialEq)]
pub enum Action {
    /// Set a Windows service's start type to Disabled.
    DisableService { service: String },
    /// Disable a scheduled task. Google/Edge updater tasks carry
    /// machine-specific suffixes, hence prefix matching.
    DisableScheduledTask { task: String, match_mode: MatchMode },
    /// Set a registry value (vendor-documented update policies live here).
    SetRegistryValue { hive: Hive, key: String, value: String, value_type: RegType, data: RegData },
    /// Set one top-level key in a JSON config file (e.g. Discord's
    /// SKIP_HOST_UPDATE). Format v1 supports single-level pointers only.
    SetJsonValue { file: String, pointer: String, value: serde_json::Value },
    /// Move an updater executable aside and leave an inert marker in its
    /// place. Exactly reversible via the journal.
    StubExecutable { path: String },
    /// Occupy a path with a read-only file so an updater cannot recreate its
    /// working directory there (the Spotify technique).
    BlockPath { path: String },
    /// Windows Firewall outbound block for one program.
    FirewallBlockProgram { program: String },
}

#[derive(Debug, Clone, Copy, PartialEq, Eq, Structural)]
pub enum MatchMode {
    Exact,
    Prefix,
}

impl Default for MatchMode {
    fn default() -> (m: MatchMode)
        ensures
            m == MatchMode::Exact,
    {
        MatchMode::Exact
    }
}

#[allow(non_camel_case_types)]
#[derive(Debug, Clone, Copy, PartialEq, Eq, Structural)]
pub enum Hive {
    HKLM,
    HKCU,
}

#[derive(Debug, Clone, Copy, PartialEq, Eq, Structural)]
pub enum RegType {
    Dword,
    String,
}

#[derive(Debug, PartialEq)]
pub enum RegData {
    Dword(u32),
    String(String),
}

/// The undo record captured when an action is applied. Every apply MUST
/// produce one; `thaw` replays them in reverse. This is covenant material:
/// everything done to a machine is exactly reversible.
#[allow(inconsistent_fields)]
#[derive(Debug, PartialEq)]
pub enum Undo {
    ServiceStart { service: String, prior_start: u32 },
    TaskWasEnabled { task: String },
    RegistryValue { hive: Hive, key: String, value: String, prior: Option<RegData>, key_existed: bool },
    JsonValue { file: String, pointer: String, prior: Option<serde_json::Value>, file_existed: bool },
    MovedExecutable { original: String, moved_to: String },
    CreatedBlocker { path: String },
    FirewallRule { rule: String },
    /// Dry runs and no-ops (e.g. task already disabled) record this.
    Nothing,
}

pub enum RegDataView {
    Dword(u32),
    Text(Seq<char>),
}

#[allow(inconsistent_fields)]
pub enum ActionView {
    DisableService { service: Seq<char> },
    DisableScheduledTask { task: Seq<char>, match_mode: MatchMode },
    SetRegistryValue {
        hive: Hive,
        key: Seq<char>,
        value: Seq<char>,
        value_type: RegType,
        data: RegDataView,
    },
    SetJsonValue { file: Seq<char>, pointer: Seq<char>, value: serde_json::Value },
    StubExecutable { path: Seq<char> },
    BlockPath { path: Seq<char> },
    FirewallBlockProgram { program: Seq<char> },
}

#[allow(inconsistent_fields)]
pub enum UndoView {
    ServiceStart { service: Seq<char>, prior_start: u32 },
    TaskWasEnabled { task: Seq<char> },
    RegistryValue {
        hive: Hive,
        key: Seq<char>,
        value: Seq<char>,
        prior: Option<RegDataView>,
        key_existed: bool,
    },
    JsonValue { file: Seq<char>, pointer: Seq<char>, prior: Option<serde_json::Value>, file_existed: bool },
    MovedExecutable { original: Seq<char>, moved_to: Seq<char> },
    CreatedBlocker { path: Seq<char> },
    FirewallRule { rule: Seq<char> },
    Nothing,
}

impl View for RegData {
    type V = RegDataView;

    open spec fn view(&self) -> RegDataView {
        match self {
            RegData::Dword(n) => RegDataView::Dword(*n),
            RegData::String(s) => RegDataView::Text(s@),
        }
    }
}

pub open spec fn reg_data_opt_view(o: Option<RegData>) -> Option<RegDataView> {
    match o {
        Some(d) => Some(d@),
        None => None,
    }
}

impl View for Action {
    type V = ActionView;

    open spec fn view(&self) -> ActionView {
        match self {
            Action::DisableService { service } => ActionView::DisableService { service: service@ },
            Action::DisableScheduledTask { task, match_mode } => ActionView::DisableScheduledTask {
                task: task@,
                match_mode: *match_mode,
            },
            Action::SetRegistryValue { hive, key, value, value_type, data } =>
                ActionView::SetRegistryValue {
                hive: *hive,
                key: key@,
                value: value@,
                value_type: *value_type,
                data: data@,
            },
            Action::SetJsonValue { file, pointer, value } => ActionView::SetJsonValue {
                file: file@,
                pointer: pointer@,
                value: *value,
            },
            Action::StubExecutable { path } => ActionView::StubExecutable { path: path@ },
            Action::BlockPath { path } => ActionView::BlockPath { path: path@ },
            Action::FirewallBlockProgram { program } => ActionView::FirewallBlockProgram {
                program: program@,
            },
        }
    }
}

impl View for Undo {
    type V = UndoView;

    open spec fn view(&self) -> UndoView {
        match self {
            Undo::ServiceStart { service, prior_start } => UndoView::ServiceStart {
                service: service@,
                prior_start: *prior_start,
            },
            Undo::TaskWasEnabled { task } => UndoView::TaskWasEnabled { task: task@ },
            Undo::RegistryValue { hive, key, value, prior, key_existed } => UndoView::RegistryValue {
                hive: *hive,
                key: key@,
                value: value@,
                prior: reg_data_opt_view(*prior),
                key_existed: *key_existed,
            },
            Undo::JsonValue { file, pointer, prior, file_existed } => UndoView::JsonValue {
                file: file@,
                pointer: pointer@,
                prior: *prior,
                file_existed: *file_existed,
            },
            Undo::MovedExecutable { original, moved_to } => UndoView::MovedExecutable {
                original: original@,
                moved_to: moved_to@,
            },
            Undo::CreatedBlocker { path } => UndoView::CreatedBlocker { path: path@ },
            Undo::FirewallRule { rule } => UndoView::FirewallRule { rule: rule@ },
            Undo::Nothing => UndoView::Nothing,
        }
    }
}

impl Clone for RegData {
    fn clone(&self) -> (r: RegData)
        ensures
            r == *self,
    {
        match self {
            RegData::Dword(n) => RegData::Dword(*n),
            RegData::String(s) => RegData::String(s.clone()),
        }
    }
}

fn clone_reg_data_opt(o: &Option<RegData>) -> (r: Option<RegData>)
    ensures
        r == *o,
{
    match o {
        Some(d) => Some(d.clone()),
        None => None,
    }
}

fn clone_value_opt(o: &Option<serde_json::Value>) -> (r: Option<serde_json::Value>)
    ensures
        r == *o,
{
    match o {
        Some(v) => Some(v.clone()),
        None => None,
    }
}

impl Clone for Action {
    fn clone(&self) -> (r: Action)
        ensures
            r == *self,
    {
        match self {
            Action::DisableService { service } => Action::DisableService { service: service.clone() },
            Action::DisableScheduledTask { task, match_mode } => Action::DisableScheduledTask {
                task: task.clone(),
                match_mode: *match_mode,
            },
            Action::SetRegistryValue { hive, key, value, value_type, data } =>
                Action::SetRegistryValue {
                hive: *hive,
                key: key.clone(),
                value: value.clone(),
                value_type: *value_type,
                data: data.clone(),
            },
            Action::SetJsonValue { file, pointer, value } => Action::SetJsonValue {
                file: file.clone(),
                pointer: pointer.clone(),
                value: value.clone(),
            },
            Action::StubExecutable { path } => Action::StubExecutable { path: path.clone() },
            Action::BlockPath { path } => Action::BlockPath { path: path.clone() },
            Action::FirewallBlockProgram { program } => Action::FirewallBlockProgram {
                program: program.clone(),
            },
        }
    }
}

impl Clone for Undo {
    fn clone(&self) -> (r: Undo)
        ensures
            r == *self,
    {
        match self {
            Undo::ServiceStart { service, prior_start } => Undo::ServiceStart {
                service: service.clone(),
                prior_start: *prior_start,
            },
            Undo::TaskWasEnabled { task } => Undo::TaskWasEnabled { task: task.clone() },
            Undo::RegistryValue { hive, key, value, prior, key_existed } => Undo::RegistryValue {
                hive: *hive,
                key: key.clone(),
                value: value.clone(),
                prior: clone_reg_data_opt(prior),
                key_existed: *key_existed,
            },
            Undo::JsonValue { file, pointer, prior, file_existed } => Undo::JsonValue {
                file: file.clone(),
                pointer: pointer.clone(),
                prior: clone_value_opt(prior),
                file_existed: *file_existed,
            },
            Undo::MovedExecutable { original, moved_to } => Undo::MovedExecutable {
                original: original.clone(),
                moved_to: moved_to.clone(),
            },
            Undo::CreatedBlocker { path } => Undo::CreatedBlocker { path: path.clone() },
            Undo::FirewallRule { rule } => Undo::FirewallRule { rule: rule.clone() },
            Undo::Nothing => Undo::Nothing,
        }
    }
}

/// How `{:?}` shows a hive.
pub open spec fn hive_name(h: Hive) -> Seq<char> {
    match h {
        Hive::HKLM => "HKLM"@,
        Hive::HKCU => "HKCU"@,
    }
}

/// How a description shows registry data: a DWORD in decimal, a string quoted.
pub open spec fn reg_data_text(d: RegDataView) -> Seq<char> {
    match d {
        RegDataView::Dword(n) => decimal(n as nat),
        RegDataView::Text(s) => "\""@ + s + "\""@,
    }
}

/// The one-line human description of an action.
pub open spec fn describe_spec(a: ActionView) -> Seq<char> {
    match a {
        ActionView::DisableService { service } => "disable service `"@ + service + "`"@,
        ActionView::DisableScheduledTask { task, match_mode } => match match_mode {
            MatchMode::Exact => "disable scheduled task `"@ + task + "`"@,
            MatchMode::Prefix => "disable scheduled tasks starting with `"@ + task + "`"@,
        },
        ActionView::SetRegistryValue { hive, key, value, data, .. } => "set registry "@ + hive_name(
            hive,
        ) + "\\"@ + key + "\\"@ + value + " = "@ + reg_data_text(data),
        ActionView::SetJsonValue { file, pointer, value } => "set JSON "@ + file + " "@ + pointer
            + " = "@ + json_text(value),
        ActionView::StubExecutable { path } => "stub executable "@ + path,
        ActionView::BlockPath { path } => "block path "@ + path,
        ActionView::FirewallBlockProgram { program } => "firewall: block outbound for "@ + program,
    }
}

/// Whether registry data has the declared type.
pub open spec fn type_matches(t: RegType, d: RegDataView) -> bool {
    match (t, d) {
        (RegType::Dword, RegDataView::Dword(_)) => true,
        (RegType::String, RegDataView::Text(_)) => true,
        _ => false,
    }
}

/// A JSON pointer naming one top-level key: `/` followed by at least one
/// character, none of them `/`.
pub open spec fn single_level_pointer(p: Seq<char>) -> bool {
    &&& p.len() >= 2
    &&& p[0] == '/'
    &&& forall|i: int| 1 <= i < p.len() ==> p[i] != '/'
}

/// Structural validation of an action beyond what parsing enforces.
pub open spec fn validate_spec(a: ActionView) -> Result<(), Seq<char>> {
    match a {
        ActionView::DisableService { service } => if blank(service) {
            Err("disable_service: empty service name"@)
        } else {
            Ok(())
        },
        ActionView::DisableScheduledTask { task, .. } => if blank(task) {
            Err("disable_scheduled_task: empty task name"@)
        } else {
            Ok(())
        },
        ActionView::SetRegistryValue { key, value, value_type, data, .. } => if blank(key) || blank(
            value,
        ) {
            Err("set_registry_value: empty key or value name"@)
        } else if type_matches(value_type, data) {
            Ok(())
        } else {
            Err("set_registry_value: `type` does not match `data`"@)
        },
        ActionView::SetJsonValue { file, pointer, .. } => if blank(file) {
            Err("set_json_value: empty file"@)
        } else if !single_level_pointer(pointer) {
            Err(
                "set_json_value: pointer `"@ + pointer
                    + "` must be a single-level JSON pointer like /KEY"@,
            )
        } else {
            Ok(())
        },
        ActionView::StubExecutable { path } => if blank(path) {
            Err("stub_executable/block_path: empty path"@)
        } else {
            Ok(())
        },
        ActionView::BlockPath { path } => if blank(path) {
            Err("stub_executable/block_path: empty path"@)
        } else {
            Ok(())
        },
        ActionView::FirewallBlockProgram { program } => if blank(program) {
            Err("firewall_block_program: empty program"@)
        } else {
            Ok(())
        },
    }
}

/// A registry action validates only when both its key and its value name
/// have something besides white space — an empty key or value name is an
/// error — and its data has the declared type: a DWORD for `Dword`, text
/// for `String`.
pub proof fn law_registry_action_needs_names_and_matching_data(
    hive: Hive,
    key: Seq<char>,
    value: Seq<char>,
    value_type: RegType,
    data: RegDataView,
)
    ensures
        ({
            let a = ActionView::SetRegistryValue { hive, key, value, value_type, data };
            &&& (blank(key) || blank(value)) ==> validate_spec(a) == Err::<(), Seq<char>>(
                "set_registry_value: empty key or value name"@,
            )
            &&& (key.len() == 0 || value.len() == 0) ==> validate_spec(a) is Err
            &&& validate_spec(a) is Ok <==> !blank(key) && !blank(value) && (
            (value_type == RegType::Dword && data is Dword) || (value_type == RegType::String && data is Text))
        }),
{
}

/// Which actions validate: each names its target with something besides
/// white space, and a JSON edit names one top-level key, `/` followed by at
/// least one character with no further `/`.
pub proof fn law_action_validation(a: ActionView)
    ensures
        match a {
            ActionView::DisableService { service } => validate_spec(a) is Ok <==> !blank(service),
            ActionView::DisableScheduledTask { task, .. } => validate_spec(a) is Ok <==> !blank(task),
            ActionView::SetJsonValue { file, pointer, .. } => validate_spec(a) is Ok <==> !blank(file) && pointer.len()
                >= 2 && pointer[0] == '/' && forall|i: int| 1 <= i < pointer.len() ==> #[trigger] pointer[i] != '/',
            ActionView::StubExecutable { path } => validate_spec(a) is Ok <==> !blank(path),
            ActionView::BlockPath { path } => validate_spec(a) is Ok <==> !blank(path),
            ActionView::FirewallBlockProgram { program } => validate_spec(a) is Ok <==> !blank(program),
            ActionView::SetRegistryValue { .. } => true,
        },
        match a {
            ActionView::DisableService { service } => service.len() == 0 ==> validate_spec(a) is Err,
            ActionView::DisableScheduledTask { task, .. } => task.len() == 0 ==> validate_spec(a) is Err,
            ActionView::SetJsonValue { file, .. } => file.len() == 0 ==> validate_spec(a) is Err,
            ActionView::StubExecutable { path } => path.len() == 0 ==> validate_spec(a) is Err,
            ActionView::BlockPath { path } => path.len() == 0 ==> validate_spec(a) is Err,
            ActionView::FirewallBlockProgram { program } => program.len() == 0 ==> validate_spec(a) is Err,
            ActionView::SetRegistryValue { .. } => true,
        },
{
}

pub open spec fn unit_result_view(r: Result<(), String>) -> Result<(), Seq<char>> {
    match r {
        Ok(()) => Ok(()),
        Err(e) => Err(e@),
    }
}

fn is_single_level_pointer(p: &str) -> (r: bool)
    ensures
        r == single_level_pointer(p@),
{
    let v = crate::text::chars_of(p);
    if v.len() < 2 || v[0] != '/' {
        return false;
    }
    let mut i: usize = 1;
    while i < v.len()
        invariant
            1 <= i <= v.len(),
            v@ == p@,
            forall|k: int| 1 <= k < i ==> v@[k] != '/',
        decreases v.len() - i,
    {
        if v[i] == '/' {
            return false;
        }
        i = i + 1;
    }
    true
}

fn error(msg: &str) -> (r: Result<(), String>)
    ensures
        unit_result_view(r) == Err::<(), Seq<char>>(msg@),
{
    Err(msg.to_owned())
}

impl Action {
    /// One-line human description, used by dry-run output and the journal.
    pub fn describe(&self) -> (s: String)
        ensures
            s@ == describe_spec(self@),
    {
        match self {
            Action::DisableService { service } => {
                let mut s = String::from_str("disable service `");
                s.append(service.as_str());
                s.append("`");
                s
            },
            Action::DisableScheduledTask { task, match_mode } => match match_mode {
                MatchMode::Exact => {
                    let mut s = String::from_str("disable scheduled task `");
                    s.append(task.as_str());
                    s.append("`");
                    s
                },
                MatchMode::Prefix => {
                    let mut s = String::from_str("disable scheduled tasks starting with `");
                    s.append(task.as_str());
                    s.append("`");
                    s
                },
            },
            Action::SetRegistryValue { hive, key, value, data, .. } => {
                let mut s = String::from_str("set registry ");
                match hive {
                    Hive::HKLM => s.append("HKLM"),
                    Hive::HKCU => s.append("HKCU"),
                }
                s.append("\\");
                s.append(key.as_str());
                s.append("\\");
                s.append(value.as_str());
                s.append(" = ");
                match data {
                    RegData::Dword(n) => {
                        let d = decimal_string(*n as u64);
                        s.append(d.as_str());
                    },
                    RegData::String(t) => {
                        s.append("\"");
                        s.append(t.as_str());
                        s.append("\"");
                    },
                }
                s
            },
            Action::SetJsonValue { file, pointer, value } => {
                let mut s = String::from_str("set JSON ");
                s.append(file.as_str());
                s.append(" ");
                s.append(pointer.as_str());
                s.append(" = ");
                let t = json_value_text(value);
                s.append(t.as_str());
                s
            },
            Action::StubExecutable { path } => {
                let mut s = String::from_str("stub executable ");
                s.append(path.as_str());
                s
            },
            Action::BlockPath { path } => {
                let mut s = String::from_str("block path ");
                s.append(path.as_str());
                s
            },
            Action::FirewallBlockProgram { program } => {
                let mut s = String::from_str("firewall: block outbound for ");
                s.append(program.as_str());
                s
            },
        }
    }

    /// Structural validation beyond what parsing enforces.
    pub fn validate(&self) -> (r: Result<(), String>)
        ensures
            unit_result_view(r) == validate_spec(self@),
    {
        match self {
            Action::DisableService { service } => if is_blank(service.as_str()) {
                error("disable_service: empty service name")
            } else {
                Ok(())
            },
            Action::DisableScheduledTask { task, .. } => if is_blank(task.as_str()) {
                error("disable_scheduled_task: empty task name")
            } else {
                Ok(())
            },
            Action::SetRegistryValue { key, value, value_type, data, .. } => {
                if is_blank(key.as_str()) || is_blank(value.as_str()) {
                    return error("set_registry_value: empty key or value name");
                }
                match (value_type, data) {
                    (RegType::Dword, RegData::Dword(_)) => Ok(()),
                    (RegType::String, RegData::String(_)) => Ok(()),
                    _ => error("set_registry_value: `type` does not match `data`"),
                }
            },
            Action::SetJsonValue { file, pointer, .. } => {
                if is_blank(file.as_str()) {
                    return error("set_json_value: empty file");
                }
                if !is_single_level_pointer(pointer.as_str()) {
                    let mut msg = String::from_str("set_json_value: pointer `");
                    msg.append(pointer.as_str());
                    msg.append("` must be a single-level JSON pointer like /KEY");
                    return Err(msg);
                }
                Ok(())
            },
            Action::StubExecutable { path } => if is_blank(path.as_str()) {
                error("stub_executable/block_path: empty path")
            } else {
                Ok(())
            },
            Action::BlockPath { path } => if is_blank(path.as_str()) {
                error("stub_executable/block_path: empty path")
            } else {
                Ok(())
            },
            Action::FirewallBlockProgram { program } => if is_blank(program.as_str()) {
                error("firewall_block_program: empty program")
            } else {
                Ok(())
            },
        }
    }
}

fn same_reg_data(a: &RegData, b: &RegData) -> (r: bool)
    ensures
        r == (a@ == b@),
{
    match (a, b) {
        (RegData::Dword(x), RegData::Dword(y)) => *x == *y,
        (RegData::String(x), RegData::String(y)) => *x == *y,
        _ => false,
    }
}

fn same_reg_data_opt(a: &Option<RegData>, b: &Option<RegData>) -> (r: bool)
    ensures
        r == (reg_data_opt_view(*a) == reg_data_opt_view(*b)),
{
    match (a, b) {
        (Some(x), Some(y)) => same_reg_data(x, y),
        (None, None) => true,
        _ => false,
    }
}

/// Two optional JSON values match: both absent, or both present and
/// matching.
pub open spec fn json_opt_match(a: Option<serde_json::Value>, b: Option<serde_json::Value>) -> bool {
    match (a, b) {
        (Some(x), Some(y)) => json_values_match(x, y),
        (None, None) => true,
        _ => false,
    }
}

fn same_value_opt(a: &Option<serde_json::Value>, b: &Option<serde_json::Value>) -> (r: bool)
    ensures
        r == json_opt_match(*a, *b),
{
    match (a, b) {
        (Some(x), Some(y)) => json_values_equal(x, y),
        (None, None) => true,
        _ => false,
    }
}

/// Whether undo `a` matches undo `b` as `Undo`'s `==` does: the same
/// record, where JSON values are compared by `Value`'s `==`.
pub open spec fn undo_matches(a: UndoView, b: UndoView) -> bool {
    match (a, b) {
        (
            UndoView::JsonValue { file: f1, pointer: q1, prior: p1, file_existed: e1 },
            UndoView::JsonValue { file: f2, pointer: q2, prior: p2, file_existed: e2 },
        ) => f1 == f2 && q1 == q2 && json_opt_match(p1, p2) && e1 == e2,
        _ => a == b,
    }
}

impl Undo {
    /// Whether two undo records describe the same change (`Undo`'s `==`).
    pub fn same_as(&self, other: &Undo) -> (r: bool)
        ensures
            r == undo_matches(self@, other@),
    {
        match (self, other) {
            (
                Undo::ServiceStart { service: s1, prior_start: p1 },
                Undo::ServiceStart { service: s2, prior_start: p2 },
            ) => *s1 == *s2 && *p1 == *p2,
            (Undo::TaskWasEnabled { task: t1 }, Undo::TaskWasEnabled { task: t2 }) => *t1 == *t2,
            (
                Undo::RegistryValue { hive: h1, key: k1, value: v1, prior: p1, key_existed: e1 },
                Undo::RegistryValue { hive: h2, key: k2, value: v2, prior: p2, key_existed: e2 },
            ) => *h1 == *h2 && *k1 == *k2 && *v1 == *v2 && same_reg_data_opt(p1, p2) && *e1 == *e2,
            (
                Undo::JsonValue { file: f1, pointer: q1, prior: p1, file_existed: e1 },
                Undo::JsonValue { file: f2, pointer: q2, prior: p2, file_existed: e2 },
            ) => *f1 == *f2 && *q1 == *q2 && same_value_opt(p1, p2) && *e1 == *e2,
            (
                Undo::MovedExecutable { original: o1, moved_to: m1 },
                Undo::MovedExecutable { original: o2, moved_to: m2 },
            ) => *o1 == *o2 && *m1 == *m2,
            (Undo::CreatedBlocker { path: p1 }, Undo::CreatedBlocker { path: p2 }) => *p1 == *p2,
            (Undo::FirewallRule { rule: r1 }, Undo::FirewallRule { rule: r2 }) => *r1 == *r2,
            (Undo::Nothing, Undo::Nothing) => true,
            _ => false,
        }
    }

    /// Whether this undo record has nothing to reverse.
    pub fn is_nothing(&self) -> (r: bool)
        ensures
            r == (self@ is Nothing),
    {
        match self {
            Undo::Nothing => true,
            _ => false,
        }
    }
}

} // verus!
