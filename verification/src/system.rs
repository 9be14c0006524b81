//! The decisions of the Windows backend. The backend talks to the registry
//! and runs the OS's own administration tools (sc, schtasks, netsh); what
//! it runs, and what it records for undo, is decided here.

use crate::action::{Action, ActionView, Hive, RegData, RegDataView, Undo, UndoView, reg_data_opt_view};
use crate::engine::{Applied, AppliedView};
use crate::text::{starts_with, strip_leading};
use vstd::prelude::*;

verus! {

/// An administration tool to run, with its arguments.
#[derive(Debug)]
pub struct Command {
    pub program: String,
    pub args: Vec<String>,
    /// When false, a failure of the command is ignored.
    pub must_succeed: bool,
}

pub struct CommandView {
    pub program: Seq<char>,
    pub args: Seq<Seq<char>>,
    pub must_succeed: bool,
}

pub open spec fn arg_views(v: Seq<String>) -> Seq<Seq<char>> {
    v.map_values(|s: String| s@)
}

impl View for Command {
    type V = CommandView;

    open spec fn view(&self) -> CommandView {
        CommandView { program: self.program@, args: arg_views(self.args@), must_succeed: self.must_succeed }
    }
}

pub open spec fn command_views(v: Seq<Command>) -> Seq<CommandView> {
    v.map_values(|c: Command| c@)
}

fn strings(items: &[&str]) -> (v: Vec<String>)
    ensures
        arg_views(v@) == items@.map_values(|s: &str| s@),
{
    let mut v: Vec<String> = Vec::new();
    let mut i: usize = 0;
    while i < items.len()
        invariant
            i <= items.len(),
            arg_views(v@) == items@.map_values(|s: &str| s@).take(i as int),
        decreases items.len() - i,
    {
        v.push(items[i].to_owned());
        assert(items@.map_values(|s: &str| s@).take(i + 1) == items@.map_values(|s: &str| s@).take(i as int).push(
            items@[i as int]@,
        ));
        i = i + 1;
    }
    assert(items@.map_values(|s: &str| s@).take(items.len() as int) == items@.map_values(|s: &str| s@));
    v
}

fn command(program: &str, items: &[&str], must_succeed: bool) -> (c: Command)
    ensures
        c@ == (CommandView { program: program@, args: items@.map_values(|s: &str| s@), must_succeed }),
{
    Command { program: program.to_owned(), args: strings(items), must_succeed }
}

/// Disabling a service whose recorded start type is `prior_start`: nothing
/// to do when it is already disabled (4), else set it to disabled and stop
/// it (the stop may fail: the service need not be running).
pub open spec fn service_disable_spec(service: Seq<char>, prior_start: u32) -> (Seq<CommandView>, AppliedView) {
    if prior_start == 4 {
        (
            Seq::empty(),
            AppliedView { undo: UndoView::Nothing, note: "service `"@ + service + "` already disabled"@ },
        )
    } else {
        (
            seq![
                CommandView {
                    program: "sc.exe"@,
                    args: seq!["config"@, service, "start="@, "disabled"@],
                    must_succeed: true,
                },
                CommandView { program: "sc.exe"@, args: seq!["stop"@, service], must_succeed: false },
            ],
            AppliedView { undo: UndoView::ServiceStart { service, prior_start }, note: Seq::empty() },
        )
    }
}

/// Decides how to disable a service.
pub fn service_disable_plan(service: &str, prior_start: u32) -> (r: (Vec<Command>, Applied))
    ensures
        (command_views(r.0@), r.1@) == service_disable_spec(service@, prior_start),
{
    let mut cmds: Vec<Command> = Vec::new();
    if prior_start == 4 {
        let mut note = String::from_str("service `");
        note.append(service);
        note.append("` already disabled");
        assert(command_views(cmds@) =~= Seq::<CommandView>::empty());
        return (cmds, Applied { undo: Undo::Nothing, note });
    }
    let c1 = command("sc.exe", &["config", service, "start=", "disabled"], true);
    assert(c1@.args =~= seq!["config"@, service@, "start="@, "disabled"@]);
    cmds.push(c1);
    let c2 = command("sc.exe", &["stop", service], false);
    assert(c2@.args =~= seq!["stop"@, service@]);
    cmds.push(c2);
    assert(command_views(cmds@) =~= service_disable_spec(service@, prior_start).0);
    (cmds, Applied { undo: Undo::ServiceStart { service: service.to_owned(), prior_start }, note: String::new() })
}

/// The tasks a prefix match selects: those whose name, without leading
/// backslashes, begins with the pattern without leading backslashes.
pub open spec fn prefix_selects(name: Seq<char>, task: Seq<char>) -> bool {
    starts_with(strip_leading(name, '\\'), strip_leading(task, '\\'))
}

/// The scheduled tasks a `disable_scheduled_task` action targets: the named
/// task itself, or, for a prefix match, every listed task it selects, in
/// listing order.
pub open spec fn task_targets_spec(task: Seq<char>, prefix: bool, listed: Seq<Seq<char>>) -> Seq<Seq<char>> {
    if prefix {
        listed.filter(|t: Seq<char>| prefix_selects(t, task))
    } else {
        seq![task]
    }
}

proof fn lemma_strip_leading_at(s: Seq<char>, c: char, n: int)
    requires
        0 <= n <= s.len(),
        forall|m: int| 0 <= m < n ==> s[m] == c,
        n < s.len() ==> s[n] != c,
    ensures
        strip_leading(s, c) == s.skip(n),
    decreases n,
{
    if n == 0 {
        assert(s.skip(0) == s);
    } else {
        let t = s.drop_first();
        assert forall|m: int| 0 <= m < n - 1 implies t[m] == c by {
            assert(t[m] == s[m + 1]);
        }
        if n - 1 < t.len() {
            assert(t[n - 1] == s[n]);
        }
        lemma_strip_leading_at(t, c, n - 1);
        assert(t.skip(n - 1) == s.skip(n));
    }
}

/// A prefix match compares names with their leading backslashes set
/// aside: where `name` begins with `i` backslashes and `task` with `j`,
/// the task is selected exactly when the rest of `name` begins with the rest
/// of `task`.
pub proof fn law_prefix_match_sets_leading_backslashes_aside(name: Seq<char>, task: Seq<char>, i: int, j: int)
    requires
        0 <= i <= name.len(),
        0 <= j <= task.len(),
        forall|m: int| 0 <= m < i ==> name[m] == '\\',
        i < name.len() ==> name[i] != '\\',
        forall|m: int| 0 <= m < j ==> task[m] == '\\',
        j < task.len() ==> task[j] != '\\',
    ensures
        prefix_selects(name, task) <==> (task.len() - j <= name.len() - i && name.subrange(i, i + task.len() - j)
            == task.subrange(j, task.len() as int)),
{
    lemma_strip_leading_at(name, '\\', i);
    lemma_strip_leading_at(task, '\\', j);
    let n2 = name.skip(i);
    let t2 = task.skip(j);
    if t2.len() <= n2.len() {
        assert(n2.take(t2.len() as int) == name.subrange(i, i + task.len() - j));
        assert(t2 == task.subrange(j, task.len() as int));
    }
}

/// Leading backslashes on the pattern do not change which tasks a prefix
/// match selects.
pub proof fn law_prefix_targets_ignore_leading_backslash(task: Seq<char>, listed: Seq<Seq<char>>)
    ensures
        task_targets_spec(seq!['\\'] + task, true, listed) == task_targets_spec(task, true, listed),
{
    let t1 = seq!['\\'] + task;
    assert(t1.drop_first() == task);
    assert(strip_leading(t1, '\\') == strip_leading(task, '\\'));
    let p1 = |t: Seq<char>| prefix_selects(t, t1);
    let p2 = |t: Seq<char>| prefix_selects(t, task);
    assert(p1 =~= p2);
}

/// Decides which scheduled tasks to disable.
pub fn task_targets(task: &str, prefix: bool, listed: &Vec<String>) -> (r: Vec<String>)
    ensures
        arg_views(r@) == task_targets_spec(task@, prefix, arg_views(listed@)),
{
    let mut out: Vec<String> = Vec::new();
    if !prefix {
        out.push(task.to_owned());
        assert(arg_views(out@) =~= seq![task@]);
        return out;
    }
    let ghost lv = arg_views(listed@);
    let want = crate::text::without_leading(task, '\\');
    let mut i: usize = 0;
    assert(lv.take(0) =~= Seq::<Seq<char>>::empty());
    while i < listed.len()
        invariant
            i <= listed.len(),
            lv == arg_views(listed@),
            want@ == strip_leading(task@, '\\'),
            arg_views(out@) == lv.take(i as int).filter(|t: Seq<char>| prefix_selects(t, task@)),
        decreases listed.len() - i,
    {
        let name = crate::text::without_leading(listed[i].as_str(), '\\');
        let ghost before = arg_views(out@);
        assert(lv.take(i + 1).drop_last() == lv.take(i as int));
        assert(lv.take(i + 1).last() == listed@[i as int]@);
        proof {
            reveal_with_fuel(Seq::<_>::filter, 1);
        }
        if crate::text::has_prefix(name.as_str(), want.as_str()) {
            out.push(listed[i].clone());
            assert(arg_views(out@) == before.push(listed@[i as int]@));
        }
        i = i + 1;
    }
    assert(lv.take(i as int) == lv);
    out
}

/// What disabling one scheduled task runs.
pub fn task_disable_command(task: &str) -> (c: Command)
    ensures
        c@ == (CommandView {
            program: "schtasks.exe"@,
            args: seq!["/change"@, "/tn"@, task@, "/disable"@],
            must_succeed: true,
        }),
{
    let c = command("schtasks.exe", &["/change", "/tn", task, "/disable"], true);
    assert(c@.args =~= seq!["/change"@, "/tn"@, task@, "/disable"@]);
    c
}

/// The record when no scheduled task matched.
pub fn no_task_matched(task: &str) -> (a: Applied)
    ensures
        a@ == (AppliedView { undo: UndoView::Nothing, note: "no scheduled tasks match `"@ + task@ + "`"@ }),
{
    let mut note = String::from_str("no scheduled tasks match `");
    note.append(task);
    note.append("`");
    Applied { undo: Undo::Nothing, note }
}

/// The name of the firewall rule that blocks `program`.
pub open spec fn firewall_rule_spec(program: Seq<char>) -> Seq<char> {
    "Stasis: block updater ("@ + program + ")"@
}

/// Decides how to block a program's outbound traffic.
pub fn firewall_block_plan(program: &str) -> (r: (Command, Applied))
    ensures
        r.0@ == (CommandView {
            program: "netsh.exe"@,
            args: seq![
                "advfirewall"@,
                "firewall"@,
                "add"@,
                "rule"@,
                "name="@ + firewall_rule_spec(program@),
                "dir=out"@,
                "action=block"@,
                "program="@ + program@,
                "enable=yes"@,
            ],
            must_succeed: true,
        }),
        r.1@ == (AppliedView { undo: UndoView::FirewallRule { rule: firewall_rule_spec(program@) }, note: Seq::empty() }),
{
    let mut rule = String::from_str("Stasis: block updater (");
    rule.append(program);
    rule.append(")");
    let mut name_arg = String::from_str("name=");
    name_arg.append(rule.as_str());
    let mut program_arg = String::from_str("program=");
    program_arg.append(program);
    let c = command(
        "netsh.exe",
        &[
            "advfirewall",
            "firewall",
            "add",
            "rule",
            name_arg.as_str(),
            "dir=out",
            "action=block",
            program_arg.as_str(),
            "enable=yes",
        ],
        true,
    );
    assert(c@.args =~= seq![
        "advfirewall"@,
        "firewall"@,
        "add"@,
        "rule"@,
        "name="@ + firewall_rule_spec(program@),
        "dir=out"@,
        "action=block"@,
        "program="@ + program@,
        "enable=yes"@,
    ]);
    (c, Applied { undo: Undo::FirewallRule { rule }, note: String::new() })
}

/// The undo record of setting a registry value, given the value found there
/// before (read with the action's type) and whether the key existed.
pub open spec fn registry_undo_spec(a: ActionView, prior: Option<RegDataView>, key_existed: bool) -> Result<
    AppliedView,
    Seq<char>,
> {
    match a {
        ActionView::SetRegistryValue { hive, key, value, .. } => Ok(
            AppliedView {
                undo: UndoView::RegistryValue { hive, key, value, prior, key_existed },
                note: Seq::empty(),
            },
        ),
        _ => Err("internal: wrong action for set_registry_value"@),
    }
}

pub open spec fn applied_result_view(r: Result<Applied, String>) -> Result<AppliedView, Seq<char>> {
    match r {
        Ok(a) => Ok(a@),
        Err(e) => Err(e@),
    }
}

/// Decides what setting a registry value records for undo.
pub fn registry_undo(a: &Action, prior: Option<RegData>, key_existed: bool) -> (r: Result<Applied, String>)
    ensures
        applied_result_view(r) == registry_undo_spec(a@, reg_data_opt_view(prior), key_existed),
{
    match a {
        Action::SetRegistryValue { hive, key, value, .. } => Ok(
            Applied {
                undo: Undo::RegistryValue { hive: *hive, key: key.clone(), value: value.clone(), prior, key_existed },
                note: String::new(),
            },
        ),
        _ => Err("internal: wrong action for set_registry_value".to_owned()),
    }
}

/// How a registry undo puts the value back.
#[derive(Debug)]
pub enum RegistryRestore {
    /// Write this value back.
    Write(RegData),
    /// The key existed but the value did not: delete the value.
    DeleteValue,
    /// The whole key was created for this policy: delete the key tree.
    DeleteKey,
}

pub enum RegistryRestoreView {
    Write(RegDataView),
    DeleteValue,
    DeleteKey,
}

impl View for RegistryRestore {
    type V = RegistryRestoreView;

    open spec fn view(&self) -> RegistryRestoreView {
        match self {
            RegistryRestore::Write(d) => RegistryRestoreView::Write(d@),
            RegistryRestore::DeleteValue => RegistryRestoreView::DeleteValue,
            RegistryRestore::DeleteKey => RegistryRestoreView::DeleteKey,
        }
    }
}

/// What reverting a system undo does.
#[derive(Debug)]
pub enum SystemRevert {
    /// Run an administration tool.
    Run(Command),
    /// Restore a registry value.
    Registry { hive: Hive, key: String, value: String, restore: RegistryRestore },
}

pub enum SystemRevertView {
    Run(CommandView),
    Registry { hive: Hive, key: Seq<char>, value: Seq<char>, restore: RegistryRestoreView },
}

impl View for SystemRevert {
    type V = SystemRevertView;

    open spec fn view(&self) -> SystemRevertView {
        match self {
            SystemRevert::Run(c) => SystemRevertView::Run(c@),
            SystemRevert::Registry { hive, key, value, restore } => SystemRevertView::Registry {
                hive: *hive,
                key: key@,
                value: value@,
                restore: restore@,
            },
        }
    }
}

/// The `sc.exe` start type that restores a recorded start value.
pub open spec fn start_type_spec(prior_start: u32) -> Option<Seq<char>> {
    if prior_start == 2 {
        Some("auto"@)
    } else if prior_start == 3 {
        Some("demand"@)
    } else if prior_start == 4 {
        Some("disabled"@)
    } else if prior_start == 0 || prior_start == 1 {
        None
    } else {
        Some("demand"@)
    }
}

/// What reverting a system undo does; boot and system drivers (start 0
/// or 1) are never touched.
pub open spec fn system_revert_spec(u: UndoView) -> Result<SystemRevertView, Seq<char>> {
    match u {
        UndoView::ServiceStart { service, prior_start } => match start_type_spec(prior_start) {
            None => Err("service `"@ + service + "`: refusing to touch a boot/system driver"@),
            Some(start) => Ok(
                SystemRevertView::Run(
                    CommandView {
                        program: "sc.exe"@,
                        args: seq!["config"@, service, "start="@, start],
                        must_succeed: true,
                    },
                ),
            ),
        },
        UndoView::TaskWasEnabled { task } => Ok(
            SystemRevertView::Run(
                CommandView {
                    program: "schtasks.exe"@,
                    args: seq!["/change"@, "/tn"@, task, "/enable"@],
                    must_succeed: true,
                },
            ),
        ),
        UndoView::RegistryValue { hive, key, value, prior, key_existed } => Ok(
            SystemRevertView::Registry {
                hive,
                key,
                value,
                restore: match prior {
                    Some(d) => RegistryRestoreView::Write(d),
                    None => if key_existed {
                        RegistryRestoreView::DeleteValue
                    } else {
                        RegistryRestoreView::DeleteKey
                    },
                },
            },
        ),
        UndoView::FirewallRule { rule } => Ok(
            SystemRevertView::Run(
                CommandView {
                    program: "netsh.exe"@,
                    args: seq!["advfirewall"@, "firewall"@, "delete"@, "rule"@, "name="@ + rule],
                    must_succeed: true,
                },
            ),
        ),
        _ => Err("internal: not a system undo"@),
    }
}

pub open spec fn revert_result_view(r: Result<SystemRevert, String>) -> Result<SystemRevertView, Seq<char>> {
    match r {
        Ok(x) => Ok(x@),
        Err(e) => Err(e@),
    }
}

/// Decides how to revert a system undo.
pub fn system_revert_plan(u: &Undo) -> (r: Result<SystemRevert, String>)
    ensures
        revert_result_view(r) == system_revert_spec(u@),
{
    match u {
        Undo::ServiceStart { service, prior_start } => {
            let start = if *prior_start == 2 {
                "auto"
            } else if *prior_start == 3 {
                "demand"
            } else if *prior_start == 4 {
                "disabled"
            } else if *prior_start == 0 || *prior_start == 1 {
                let mut msg = String::from_str("service `");
                msg.append(service.as_str());
                msg.append("`: refusing to touch a boot/system driver");
                return Err(msg);
            } else {
                "demand"
            };
            let c = command("sc.exe", &["config", service.as_str(), "start=", start], true);
            assert(c@.args =~= seq!["config"@, service@, "start="@, start@]);
            Ok(SystemRevert::Run(c))
        },
        Undo::TaskWasEnabled { task } => {
            let c = command("schtasks.exe", &["/change", "/tn", task.as_str(), "/enable"], true);
            assert(c@.args =~= seq!["/change"@, "/tn"@, task@, "/enable"@]);
            Ok(SystemRevert::Run(c))
        },
        Undo::RegistryValue { hive, key, value, prior, key_existed } => {
            let restore = match prior {
                Some(d) => RegistryRestore::Write(d.clone()),
                None => if *key_existed {
                    RegistryRestore::DeleteValue
                } else {
                    RegistryRestore::DeleteKey
                },
            };
            Ok(SystemRevert::Registry { hive: *hive, key: key.clone(), value: value.clone(), restore })
        },
        Undo::FirewallRule { rule } => {
            let mut name_arg = String::from_str("name=");
            name_arg.append(rule.as_str());
            let c = command("netsh.exe", &["advfirewall", "firewall", "delete", "rule", name_arg.as_str()], true);
            assert(c@.args =~= seq!["advfirewall"@, "firewall"@, "delete"@, "rule"@, "name="@ + rule@]);
            Ok(SystemRevert::Run(c))
        },
        _ => Err("internal: not a system undo".to_owned()),
    }
}

/// Disabling a service then reverting with its undo restores its recorded
/// start type (for every start type that is not a boot or system driver's).
pub proof fn law_service_revert_restores_start(service: Seq<char>, prior_start: u32)
    requires
        prior_start != 0 && prior_start != 1 && prior_start != 4,
    ensures
        system_revert_spec(service_disable_spec(service, prior_start).1.undo) == Ok::<SystemRevertView, Seq<char>>(
            SystemRevertView::Run(
                CommandView {
                    program: "sc.exe"@,
                    args: seq!["config"@, service, "start="@, start_type_spec(prior_start)->0],
                    must_succeed: true,
                },
            ),
        ),
{
}

/// Setting a registry value and reverting with its undo puts back what was
/// there: the prior value, or no value in a key that existed, or no key.
pub proof fn law_registry_revert_restores_prior(a: ActionView, prior: Option<RegDataView>, key_existed: bool)
    requires
        a is SetRegistryValue,
    ensures
        registry_undo_spec(a, prior, key_existed) matches Ok(applied) && system_revert_spec(applied.undo)
            == Ok::<SystemRevertView, Seq<char>>(
            SystemRevertView::Registry {
                hive: a->SetRegistryValue_hive,
                key: a->SetRegistryValue_key,
                value: a->SetRegistryValue_value,
                restore: match prior {
                    Some(d) => RegistryRestoreView::Write(d),
                    None => if key_existed {
                        RegistryRestoreView::DeleteValue
                    } else {
                        RegistryRestoreView::DeleteKey
                    },
                },
            },
        ),
{
}

/// Blocking a program and reverting with its undo deletes the very rule
/// that was added.
pub proof fn law_firewall_revert_deletes_added_rule(program: Seq<char>)
    ensures
        system_revert_spec(UndoView::FirewallRule { rule: firewall_rule_spec(program) }) == Ok::<
            SystemRevertView,
            Seq<char>,
        >(
            SystemRevertView::Run(
                CommandView {
                    program: "netsh.exe"@,
                    args: seq![
                        "advfirewall"@,
                        "firewall"@,
                        "delete"@,
                        "rule"@,
                        "name="@ + firewall_rule_spec(program),
                    ],
                    must_succeed: true,
                },
            ),
        ),
{
}

/// Disabling a scheduled task and reverting with its undo re-enables the
/// same task.
pub proof fn law_task_revert_reenables(task: Seq<char>)
    ensures
        system_revert_spec(UndoView::TaskWasEnabled { task }) == Ok::<SystemRevertView, Seq<char>>(
            SystemRevertView::Run(
                CommandView {
                    program: "schtasks.exe"@,
                    args: seq!["/change"@, "/tn"@, task, "/enable"@],
                    must_succeed: true,
                },
            ),
        ),
{
}

/// The task name in one line of `schtasks /query /fo csv /nh` output: the
/// text after the line's first `"`, up to the next `"` or the line's end.
pub open spec fn csv_first_field(line: Seq<char>) -> Option<Seq<char>> {
    match crate::text::find_char(line, '"') {
        None => None,
        Some(q) => {
            let rest = line.skip(q + 1);
            match crate::text::find_char(rest, '"') {
                Some(e) => Some(rest.take(e)),
                None => Some(rest),
            }
        },
    }
}

pub open spec fn opt_seq(o: Option<Seq<char>>) -> Seq<Seq<char>> {
    match o {
        Some(x) => seq![x],
        None => Seq::empty(),
    }
}

/// A line of text without the `\r` of a `\r\n` line ending.
pub open spec fn without_cr(line: Seq<char>) -> Seq<char> {
    if line.len() > 0 && line.last() == '\r' {
        line.drop_last()
    } else {
        line
    }
}

/// The task names in `schtasks /query /fo csv /nh` output, in order: the
/// first field of each line (as `str::lines` splits the text: at `\n`,
/// dropping a `\r` right before it) that has one.
pub open spec fn task_names_spec(csv: Seq<char>) -> Seq<Seq<char>>
    decreases csv.len(),
{
    if csv.len() == 0 {
        Seq::empty()
    } else {
        match crate::text::find_char(csv, '\n') {
            None => opt_seq(csv_first_field(csv)),
            Some(k) => {
                proof {
                    crate::text::lemma_find_char(csv, '\n');
                }
                opt_seq(csv_first_field(without_cr(csv.take(k)))) + task_names_spec(csv.skip(k + 1))
            },
        }
    }
}

/// The task name of a listing line is the text between its first two
/// quotes (after the first quote to the line's end, if there is no
/// second); a line without a quote names no task.
pub proof fn law_task_name_is_first_quoted_field(head: Seq<char>, name: Seq<char>, rest: Seq<char>)
    requires
        forall|i: int| 0 <= i < head.len() ==> head[i] != '"',
        forall|i: int| 0 <= i < name.len() ==> name[i] != '"',
    ensures
        csv_first_field(head + seq!['"'] + name + seq!['"'] + rest) == Some(name),
        csv_first_field(head + seq!['"'] + name) == Some(name),
        csv_first_field(head) is None,
{
    let l1 = head + seq!['"'] + name + seq!['"'] + rest;
    let l2 = head + seq!['"'] + name;
    assert forall|m: int| 0 <= m < head.len() implies l1[m] != '"' && l2[m] != '"' by {
        assert(l1[m] == head[m]);
        assert(l2[m] == head[m]);
    }
    assert(l1[head.len() as int] == '"');
    assert(l2[head.len() as int] == '"');
    crate::text::lemma_find_char_at(l1, '"', head.len() as int);
    crate::text::lemma_find_char_at(l2, '"', head.len() as int);
    let r1 = l1.skip(head.len() as int + 1);
    let r2 = l2.skip(head.len() as int + 1);
    assert(r1 =~= name + seq!['"'] + rest);
    assert(r2 =~= name);
    assert forall|m: int| 0 <= m < name.len() implies r1[m] != '"' by {
        assert(r1[m] == name[m]);
    }
    assert(r1[name.len() as int] == '"');
    crate::text::lemma_find_char_at(r1, '"', name.len() as int);
    assert(r1.take(name.len() as int) =~= name);
    crate::text::lemma_find_char_none(r2, '"');
    crate::text::lemma_find_char_none(head, '"');
}

/// The listing is read line by line: the names of a line ended by `\n`
/// (its `\r` before the `\n` set aside) come first, then those of the rest.
pub proof fn law_task_list_reads_line_by_line(line: Seq<char>, more: Seq<char>)
    requires
        forall|i: int| 0 <= i < line.len() ==> line[i] != '\n',
    ensures
        task_names_spec(line + seq!['\n'] + more) == opt_seq(csv_first_field(without_cr(line))) + task_names_spec(
            more,
        ),
{
    let csv = line + seq!['\n'] + more;
    assert forall|m: int| 0 <= m < line.len() implies csv[m] != '\n' by {
        assert(csv[m] == line[m]);
    }
    assert(csv[line.len() as int] == '\n');
    crate::text::lemma_find_char_at(csv, '\n', line.len() as int);
    assert(csv.take(line.len() as int) =~= line);
    assert(csv.skip(line.len() as int + 1) =~= more);
}

fn first_field(line: &Vec<char>) -> (r: Option<String>)
    ensures
        r.deep_view() == csv_first_field(line@),
{
    match crate::text::find_char_from(line, '"', 0) {
        None => {
            assert(line@.skip(0) == line@);
            None
        },
        Some(q) => {
            assert(line@.skip(0) == line@);
            match crate::text::find_char_from(line, '"', q + 1) {
                Some(e) => {
                    assert(line@.skip(q + 1).take(e - q - 1) == line@.subrange(q + 1, e as int));
                    Some(crate::text::string_of_range(line, q + 1, e))
                },
                None => {
                    assert(line@.skip(q + 1) == line@.subrange(q + 1, line.len() as int));
                    Some(crate::text::string_of_range(line, q + 1, line.len()))
                },
            }
        },
    }
}

fn chars_range(v: &Vec<char>, from: usize, to: usize) -> (r: Vec<char>)
    requires
        from <= to <= v.len(),
    ensures
        r@ == v@.subrange(from as int, to as int),
{
    let mut r: Vec<char> = Vec::new();
    let mut i = from;
    while i < to
        invariant
            from <= i <= to <= v.len(),
            r@ == v@.subrange(from as int, i as int),
        decreases to - i,
    {
        r.push(v[i]);
        assert(v@.subrange(from as int, i + 1) == v@.subrange(from as int, i as int).push(v@[i as int]));
        i = i + 1;
    }
    r
}

/// The task names listed in `schtasks /query /fo csv /nh` output.
pub fn parse_task_list(csv: &str) -> (r: Vec<String>)
    ensures
        arg_views(r@) == task_names_spec(csv@),
{
    let v = crate::text::chars_of(csv);
    let mut out: Vec<String> = Vec::new();
    let mut i: usize = 0;
    assert(v@.skip(0) == v@);
    assert(arg_views(out@) + task_names_spec(v@.skip(0)) == task_names_spec(csv@));
    while i < v.len()
        invariant
            i <= v.len(),
            v@ == csv@,
            arg_views(out@) + task_names_spec(v@.skip(i as int)) == task_names_spec(csv@),
        decreases v.len() - i,
    {
        let ghost rest = v@.skip(i as int);
        let ghost before = arg_views(out@);
        match crate::text::find_char_from(&v, '\n', i) {
            None => {
                let line = chars_range(&v, i, v.len());
                assert(line@ == rest);
                match first_field(&line) {
                    Some(f) => out.push(f),
                    None => {},
                }
                assert(arg_views(out@) == before + opt_seq(csv_first_field(rest)));
                assert(v@.skip(v.len() as int).len() == 0);
                i = v.len();
            },
            Some(k) => {
                let end = if k > i && v[k - 1] == '\r' {
                    k - 1
                } else {
                    k
                };
                let line = chars_range(&v, i, end);
                assert(line@ == without_cr(rest.take(k - i)));
                match first_field(&line) {
                    Some(f) => out.push(f),
                    None => {},
                }
                assert(arg_views(out@) == before + opt_seq(csv_first_field(without_cr(rest.take(k - i)))));
                assert(rest.skip(k - i + 1) == v@.skip(k + 1));
                i = k + 1;
            },
        }
    }
    assert(v@.skip(i as int).len() == 0);
    assert(arg_views(out@) + Seq::<Seq<char>>::empty() == arg_views(out@));
    out
}

} // verus!
