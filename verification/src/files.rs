//! The portable, file-based actions: stubbing an executable, blocking a
//! path, and setting a key in a JSON config file. Each apply and each revert
//! is decided here, from facts the caller gathered about the file system, as
//! a list of steps for the caller to perform in order (stopping at the first
//! that fails) together with the undo record that reverses them.
//!
//! A step that fails is reported as `context: error`, or as the bare error
//! when the step has no context. `SetReadonly` first reads the file's
//! permissions; an error there is always reported bare.

use crate::action::{Undo, UndoView};
use crate::engine::{Applied, AppliedView};
use crate::json::{
    distinct_keys, get_member, json_object_of, json_pretty_object, json_equal, json_values_equal, member_get, member_remove, member_set,
    law_member_restore, member_views, members_result_view, parse_json_object, remove_member, render_json_object, set_member,
};
use vstd::prelude::*;
use vstd::string::StringSliceAdditionalSpecFns;

verus! {

pub const STUB_SUFFIX: &'static str = ".stasis-original";

pub const STUB_MARKER: &'static str = "This executable was set aside by Stasis, the update firewall.\nThe original is next to this file with the extension `.stasis-original`.\nRun `stasis thaw` to restore it exactly.\n";

pub const BLOCKER_TEXT: &'static str = "blocked by Stasis; run `stasis thaw` to remove\n";

/// One file-system operation.
#[derive(Debug)]
pub enum FsOp {
    /// Move `from` to `to`, replacing what is at `to`.
    Rename { from: String, to: String },
    /// Write `bytes` as the whole content of the file at `path`.
    Write { path: String, bytes: Vec<u8> },
    /// Remove the file at `path`.
    RemoveFile { path: String },
    /// Create the directory `path` and its missing ancestors.
    CreateDirAll { path: String },
    /// Set or clear the read-only permission of the file at `path`.
    SetReadonly { path: String, readonly: bool },
}

/// An operation and how a failure of it is reported.
#[derive(Debug)]
pub struct FsStep {
    pub op: FsOp,
    pub context: Option<String>,
}

/// What applying a file action does: the steps, then the undo record and
/// note to journal once they all succeed.
#[derive(Debug)]
pub struct FilePlan {
    pub steps: Vec<FsStep>,
    pub applied: Applied,
}

pub enum FsOpView {
    Rename { from: Seq<char>, to: Seq<char> },
    Write { path: Seq<char>, bytes: Seq<u8> },
    RemoveFile { path: Seq<char> },
    CreateDirAll { path: Seq<char> },
    SetReadonly { path: Seq<char>, readonly: bool },
}

pub struct StepView {
    pub op: FsOpView,
    pub context: Option<Seq<char>>,
}

pub struct FilePlanView {
    pub steps: Seq<StepView>,
    pub applied: AppliedView,
}

impl View for FsOp {
    type V = FsOpView;

    open spec fn view(&self) -> FsOpView {
        match self {
            FsOp::Rename { from, to } => FsOpView::Rename { from: from@, to: to@ },
            FsOp::Write { path, bytes } => FsOpView::Write { path: path@, bytes: bytes@ },
            FsOp::RemoveFile { path } => FsOpView::RemoveFile { path: path@ },
            FsOp::CreateDirAll { path } => FsOpView::CreateDirAll { path: path@ },
            FsOp::SetReadonly { path, readonly } => FsOpView::SetReadonly { path: path@, readonly: *readonly },
        }
    }
}

impl View for FsStep {
    type V = StepView;

    open spec fn view(&self) -> StepView {
        StepView { op: self.op@, context: self.context.deep_view() }
    }
}

pub open spec fn step_views(v: Seq<FsStep>) -> Seq<StepView> {
    v.map_values(|s: FsStep| s@)
}

impl View for FilePlan {
    type V = FilePlanView;

    open spec fn view(&self) -> FilePlanView {
        FilePlanView { steps: step_views(self.steps@), applied: self.applied@ }
    }
}

pub open spec fn step(op: FsOpView, context: Seq<char>) -> StepView {
    StepView { op, context: Some(context) }
}

pub open spec fn nothing_done(note: Seq<char>) -> AppliedView {
    AppliedView { undo: UndoView::Nothing, note }
}

/// Where a stubbed executable's original is kept.
pub open spec fn stub_target(path: Seq<char>) -> Seq<char> {
    path + STUB_SUFFIX@
}

/// The bytes of the marker left in a stubbed executable's place.
pub open spec fn marker_bytes() -> Seq<u8> {
    STUB_MARKER.spec_bytes()
}

/// Stubbing `path`, given whether it exists and whether its stub target
/// already exists.
pub open spec fn stub_spec(path: Seq<char>, exists: bool, target_exists: bool) -> FilePlanView {
    if !exists {
        FilePlanView { steps: Seq::empty(), applied: nothing_done(path + " not present; nothing to stub"@) }
    } else if target_exists {
        FilePlanView { steps: Seq::empty(), applied: nothing_done(path + " appears already stubbed"@) }
    } else {
        FilePlanView {
            steps: seq![
                step(FsOpView::Rename { from: path, to: stub_target(path) }, "move "@ + path),
                step(FsOpView::Write { path, bytes: marker_bytes() }, "write marker "@ + path),
            ],
            applied: AppliedView {
                undo: UndoView::MovedExecutable { original: path, moved_to: stub_target(path) },
                note: Seq::empty(),
            },
        }
    }
}

/// Restoring a stubbed executable, given what is now at `original`: nothing
/// (`None`), its bytes, or the error reading it.
pub open spec fn unstub_spec(
    original: Seq<char>,
    moved_to: Seq<char>,
    current: Option<Result<Seq<u8>, Seq<char>>>,
) -> Result<Seq<StepView>, Seq<char>> {
    let restore = step(FsOpView::Rename { from: moved_to, to: original }, "restore "@ + original);
    match current {
        None => Ok(seq![restore]),
        Some(Err(e)) => Err("read "@ + original + ": "@ + e),
        Some(Ok(bytes)) => if bytes != marker_bytes() {
            Err(
                original + " is not the Stasis marker (the app may have replaced it); original preserved at "@
                    + moved_to + " \u{2014} restore manually"@,
            )
        } else {
            Ok(
                seq![
                    step(FsOpView::RemoveFile { path: original }, "remove marker "@ + original),
                    restore,
                ],
            )
        },
    }
}

/// Blocking `path`, given whether it is a directory, whether it exists, and
/// its parent directory.
pub open spec fn block_spec(path: Seq<char>, is_dir: bool, exists: bool, parent: Option<Seq<char>>) -> Result<
    FilePlanView,
    Seq<char>,
> {
    if is_dir {
        Err(
            path
                + " exists as a directory; refusing to block (freeze the app's updater or remove the directory first)"@,
        )
    } else if exists {
        Ok(FilePlanView { steps: Seq::empty(), applied: nothing_done(path + " already occupied"@) })
    } else {
        let make = seq![
            step(FsOpView::Write { path, bytes: BLOCKER_TEXT.spec_bytes() }, "write "@ + path),
            step(FsOpView::SetReadonly { path, readonly: true }, "set read-only "@ + path),
        ];
        Ok(
            FilePlanView {
                steps: match parent {
                    Some(p) => seq![step(FsOpView::CreateDirAll { path: p }, "create "@ + p)] + make,
                    None => make,
                },
                applied: AppliedView { undo: UndoView::CreatedBlocker { path }, note: Seq::empty() },
            },
        )
    }
}

/// Removing a blocker at `path`, given whether something is there.
pub open spec fn unblock_spec(path: Seq<char>, exists: bool) -> Seq<StepView> {
    if exists {
        seq![
            StepView { op: FsOpView::SetReadonly { path, readonly: false }, context: None },
            step(FsOpView::RemoveFile { path }, "remove "@ + path),
        ]
    } else {
        Seq::empty()
    }
}

fn new_step(op: FsOp, context: String) -> (s: FsStep)
    ensures
        s@ == step(op@, context@),
{
    FsStep { op, context: Some(context) }
}

fn prefixed(prefix: &str, text: &str) -> (s: String)
    ensures
        s@ == prefix@ + text@,
{
    let mut s = prefix.to_owned();
    s.append(text);
    s
}

fn suffixed(text: &str, suffix: &str) -> (s: String)
    ensures
        s@ == text@ + suffix@,
{
    let mut s = text.to_owned();
    s.append(suffix);
    s
}

fn str_bytes(s: &str) -> (v: Vec<u8>)
    ensures
        v@ == s.spec_bytes(),
{
    let b = s.as_bytes();
    let mut v: Vec<u8> = Vec::new();
    let mut i: usize = 0;
    while i < b.len()
        invariant
            i <= b@.len(),
            b@ == s.spec_bytes(),
            v@ == b@.take(i as int),
        decreases b@.len() - i,
    {
        v.push(b[i]);
        assert(b@.take(i + 1) == b@.take(i as int).push(b@[i as int]));
        i = i + 1;
    }
    assert(b@.take(b@.len() as int) == b@);
    v
}

fn same_bytes(a: &Vec<u8>, b: &[u8]) -> (r: bool)
    ensures
        r == (a@ == b@),
{
    if a.len() != b.len() {
        return false;
    }
    let mut i: usize = 0;
    while i < a.len()
        invariant
            i <= a.len(),
            a@.len() == b@.len(),
            forall|k: int| 0 <= k < i ==> a@[k] == b@[k],
        decreases a.len() - i,
    {
        if a[i] != b[i] {
            return false;
        }
        i = i + 1;
    }
    assert(a@ == b@);
    true
}

fn nothing_plan(note: String) -> (p: FilePlan)
    ensures
        p@ == (FilePlanView { steps: Seq::empty(), applied: nothing_done(note@) }),
{
    let p = FilePlan { steps: Vec::new(), applied: Applied { undo: Undo::Nothing, note } };
    assert(p@.steps =~= Seq::<StepView>::empty());
    p
}

/// Decides how to stub the executable at `path`.
pub fn stub_plan(path: &str, exists: bool, target_exists: bool) -> (p: FilePlan)
    ensures
        p@ == stub_spec(path@, exists, target_exists),
{
    if !exists {
        return nothing_plan(suffixed(path, " not present; nothing to stub"));
    }
    if target_exists {
        return nothing_plan(suffixed(path, " appears already stubbed"));
    }
    let moved_to = suffixed(path, STUB_SUFFIX);
    let mut steps: Vec<FsStep> = Vec::new();
    steps.push(new_step(FsOp::Rename { from: path.to_owned(), to: moved_to.clone() }, prefixed("move ", path)));
    steps.push(
        new_step(FsOp::Write { path: path.to_owned(), bytes: str_bytes(STUB_MARKER) }, prefixed("write marker ", path)),
    );
    let p = FilePlan {
        steps,
        applied: Applied { undo: Undo::MovedExecutable { original: path.to_owned(), moved_to }, note: String::new() },
    };
    assert(p@.steps =~= stub_spec(path@, exists, target_exists).steps);
    p
}

pub open spec fn bytes_read_view(c: Option<Result<Vec<u8>, String>>) -> Option<Result<Seq<u8>, Seq<char>>> {
    match c {
        None => None,
        Some(Ok(b)) => Some(Ok(b@)),
        Some(Err(e)) => Some(Err(e@)),
    }
}

pub open spec fn steps_result_view(r: Result<Vec<FsStep>, String>) -> Result<Seq<StepView>, Seq<char>> {
    match r {
        Ok(v) => Ok(step_views(v@)),
        Err(e) => Err(e@),
    }
}

/// Decides how to put a stubbed executable back.
pub fn unstub_plan(original: &str, moved_to: &str, current: Option<Result<Vec<u8>, String>>) -> (r: Result<
    Vec<FsStep>,
    String,
>)
    ensures
        steps_result_view(r) == unstub_spec(original@, moved_to@, bytes_read_view(current)),
{
    let mut steps: Vec<FsStep> = Vec::new();
    match current {
        None => {},
        Some(Err(e)) => {
            let mut msg = prefixed("read ", original);
            msg.append(": ");
            msg.append(e.as_str());
            return Err(msg);
        },
        Some(Ok(bytes)) => {
            if !same_bytes(&bytes, STUB_MARKER.as_bytes()) {
                let mut msg = original.to_owned();
                msg.append(" is not the Stasis marker (the app may have replaced it); original preserved at ");
                msg.append(moved_to);
                msg.append(" \u{2014} restore manually");
                return Err(msg);
            }
            steps.push(new_step(FsOp::RemoveFile { path: original.to_owned() }, prefixed("remove marker ", original)));
        },
    }
    steps.push(
        new_step(FsOp::Rename { from: moved_to.to_owned(), to: original.to_owned() }, prefixed("restore ", original)),
    );
    assert(step_views(steps@) =~= unstub_spec(original@, moved_to@, bytes_read_view(current))->Ok_0);
    Ok(steps)
}

pub open spec fn plan_result_view(r: Result<FilePlan, String>) -> Result<FilePlanView, Seq<char>> {
    match r {
        Ok(p) => Ok(p@),
        Err(e) => Err(e@),
    }
}

/// Decides how to block `path` with a read-only file.
pub fn block_plan(path: &str, is_dir: bool, exists: bool, parent: Option<String>) -> (r: Result<FilePlan, String>)
    ensures
        plan_result_view(r) == block_spec(path@, is_dir, exists, parent.deep_view()),
{
    if is_dir {
        return Err(
            suffixed(
                path,
                " exists as a directory; refusing to block (freeze the app's updater or remove the directory first)",
            ),
        );
    }
    if exists {
        return Ok(nothing_plan(suffixed(path, " already occupied")));
    }
    let mut steps: Vec<FsStep> = Vec::new();
    match &parent {
        Some(p) => {
            steps.push(new_step(FsOp::CreateDirAll { path: p.clone() }, prefixed("create ", p.as_str())));
        },
        None => {},
    }
    steps.push(new_step(FsOp::Write { path: path.to_owned(), bytes: str_bytes(BLOCKER_TEXT) }, prefixed("write ", path)));
    steps.push(
        new_step(FsOp::SetReadonly { path: path.to_owned(), readonly: true }, prefixed("set read-only ", path)),
    );
    let p = FilePlan {
        steps,
        applied: Applied { undo: Undo::CreatedBlocker { path: path.to_owned() }, note: String::new() },
    };
    assert(p@.steps =~= block_spec(path@, is_dir, exists, parent.deep_view())->Ok_0.steps);
    Ok(p)
}

/// Decides how to remove a blocker from `path`.
pub fn unblock_plan(path: &str, exists: bool) -> (r: Vec<FsStep>)
    ensures
        step_views(r@) == unblock_spec(path@, exists),
{
    let mut steps: Vec<FsStep> = Vec::new();
    if exists {
        steps.push(FsStep { op: FsOp::SetReadonly { path: path.to_owned(), readonly: false }, context: None });
        steps.push(new_step(FsOp::RemoveFile { path: path.to_owned() }, prefixed("remove ", path)));
    }
    assert(step_views(steps@) =~= unblock_spec(path@, exists));
    steps
}

// ---- a model of the file system, to state what a revert undoes ----------

/// What is at a path.
pub enum FsNode {
    File { bytes: Seq<u8>, readonly: bool },
    Dir,
}

/// One operation on a file system mapping paths to what is there; `None`
/// when the operation fails (renaming or removing what is not a file,
/// writing over a directory or a read-only file, removing a read-only file).
pub open spec fn fs_apply(s: Map<Seq<char>, FsNode>, op: FsOpView) -> Option<Map<Seq<char>, FsNode>> {
    match op {
        FsOpView::Rename { from, to } => if s.contains_key(from) && s[from] is File {
            Some(s.remove(from).insert(to, s[from]))
        } else {
            None
        },
        FsOpView::Write { path, bytes } => if !s.contains_key(path) || (s[path] matches FsNode::File {
            readonly,
            ..
        } && !readonly) {
            Some(s.insert(path, FsNode::File { bytes, readonly: false }))
        } else {
            None
        },
        FsOpView::RemoveFile { path } => if s.contains_key(path) && (s[path] matches FsNode::File {
            readonly,
            ..
        } && !readonly) {
            Some(s.remove(path))
        } else {
            None
        },
        FsOpView::CreateDirAll { path } => if !s.contains_key(path) || s[path] is Dir {
            Some(s.insert(path, FsNode::Dir))
        } else {
            None
        },
        FsOpView::SetReadonly { path, readonly } => if s.contains_key(path) && s[path] is File {
            Some(s.insert(path, FsNode::File { bytes: s[path]->bytes, readonly }))
        } else {
            None
        },
    }
}

/// The file system after performing `steps` in order; `None` if one fails.
pub open spec fn fs_run(s: Map<Seq<char>, FsNode>, steps: Seq<StepView>) -> Option<Map<Seq<char>, FsNode>>
    decreases steps.len(),
{
    if steps.len() == 0 {
        Some(s)
    } else {
        match fs_apply(s, steps[0].op) {
            None => None,
            Some(t) => fs_run(t, steps.drop_first()),
        }
    }
}

proof fn lemma_run_one(s: Map<Seq<char>, FsNode>, steps: Seq<StepView>)
    requires
        steps.len() == 1,
    ensures
        fs_run(s, steps) == fs_apply(s, steps[0].op),
{
    reveal_with_fuel(fs_run, 2);
    assert(steps.drop_first().len() == 0);
}

proof fn lemma_run_two(s: Map<Seq<char>, FsNode>, steps: Seq<StepView>)
    requires
        steps.len() == 2,
    ensures
        fs_run(s, steps) == match fs_apply(s, steps[0].op) {
            None => None,
            Some(t) => fs_apply(t, steps[1].op),
        },
{
    reveal_with_fuel(fs_run, 3);
    assert(steps.drop_first()[0] == steps[1]);
    assert(steps.drop_first().drop_first().len() == 0);
}

/// Stubbing is exactly reversible: on a file system where `path` is a file
/// and its stub target is free, the stub steps succeed, and reverting with
/// what is then at `path` succeeds and gives back the same file system.
pub proof fn law_unstub_reverses_stub(s: Map<Seq<char>, FsNode>, path: Seq<char>)
    requires
        s.contains_key(path),
        s[path] is File,
        !s.contains_key(stub_target(path)),
    ensures
        ({
            let p = stub_spec(path, true, false);
            &&& p.applied.undo == UndoView::MovedExecutable { original: path, moved_to: stub_target(path) }
            &&& fs_run(s, p.steps) matches Some(s1) && unstub_spec(
                path,
                stub_target(path),
                Some(Ok(s1[path]->bytes)),
            ) matches Ok(back) && fs_run(s1, back) == Some(s)
        }),
{
    let t = stub_target(path);
    assert(t.len() > path.len());
    let p = stub_spec(path, true, false);
    let s0 = s.remove(path).insert(t, s[path]);
    let s1 = s0.insert(path, FsNode::File { bytes: marker_bytes(), readonly: false });
    assert(fs_apply(s, p.steps[0].op) == Some(s0));
    assert(fs_apply(s0, p.steps[1].op) == Some(s1));
    lemma_run_two(s, p.steps);
    let back = unstub_spec(path, t, Some(Ok(s1[path]->bytes)))->Ok_0;
    let s2 = s1.remove(path);
    let s3 = s2.remove(t).insert(path, s2[t]);
    assert(fs_apply(s1, back[0].op) == Some(s2));
    assert(fs_apply(s2, back[1].op) == Some(s3));
    lemma_run_two(s1, back);
    assert(s3 =~= s);
}

/// Blocking is exactly reversible: where nothing is at `path` and its parent
/// directory (if it has one) already exists, the blocker steps succeed, and
/// removing the blocker gives back the same file system.
pub proof fn law_unblock_reverses_block(s: Map<Seq<char>, FsNode>, path: Seq<char>, parent: Option<Seq<char>>)
    requires
        !s.contains_key(path),
        parent matches Some(p) ==> p != path && s.contains_key(p) && s[p] is Dir,
    ensures
        ({
            let p = block_spec(path, false, false, parent)->Ok_0;
            &&& block_spec(path, false, false, parent) is Ok
            &&& p.applied.undo == UndoView::CreatedBlocker { path }
            &&& fs_run(s, p.steps) matches Some(s1) && fs_run(s1, unblock_spec(path, true)) == Some(s)
        }),
{
    let p = block_spec(path, false, false, parent)->Ok_0;
    let blk = BLOCKER_TEXT.spec_bytes();
    let w = s.insert(path, FsNode::File { bytes: blk, readonly: false });
    let ro = w.insert(path, FsNode::File { bytes: blk, readonly: true });
    let make = seq![
        step(FsOpView::Write { path, bytes: blk }, "write "@ + path),
        step(FsOpView::SetReadonly { path, readonly: true }, "set read-only "@ + path),
    ];
    assert(fs_apply(s, make[0].op) == Some(w));
    assert(fs_apply(w, make[1].op) == Some(ro));
    lemma_run_two(s, make);
    match parent {
        Some(q) => {
            assert(s.insert(q, FsNode::Dir) =~= s);
            assert(fs_apply(s, p.steps[0].op) == Some(s));
            assert(p.steps.drop_first() == make);
            assert(fs_run(s, p.steps) == fs_run(s, make));
        },
        None => {
            assert(p.steps == make);
        },
    }
    assert(fs_run(s, p.steps) == Some(ro));
    let un = unblock_spec(path, true);
    let rw = ro.insert(path, FsNode::File { bytes: blk, readonly: false });
    assert(fs_apply(ro, un[0].op) == Some(rw));
    assert(fs_apply(rw, un[1].op) == Some(rw.remove(path)));
    lemma_run_two(ro, un);
    assert(rw.remove(path) =~= s);
}

/// The object key a single-level JSON pointer `/KEY` names.
pub open spec fn pointer_key(pointer: Seq<char>) -> Seq<char> {
    pointer.drop_first()
}

pub open spec fn text_read_view(c: Option<Result<String, String>>) -> Option<Result<Seq<char>, Seq<char>>> {
    match c {
        None => None,
        Some(Ok(t)) => Some(Ok(t@)),
        Some(Err(e)) => Some(Err(e@)),
    }
}

pub open spec fn text_result_view(c: Result<String, String>) -> Result<Seq<char>, Seq<char>> {
    match c {
        Ok(t) => Ok(t@),
        Err(e) => Err(e@),
    }
}

/// The members of the JSON config file about to be edited, given its text
/// (`None` when the file does not exist, which counts as an empty object).
pub open spec fn json_doc_spec(file: Seq<char>, existing: Option<Result<Seq<char>, Seq<char>>>) -> Result<
    Seq<(Seq<char>, serde_json::Value)>,
    Seq<char>,
> {
    match existing {
        None => Ok(Seq::empty()),
        Some(Err(e)) => Err("read "@ + file + ": "@ + e),
        Some(Ok(text)) => match json_object_of(text) {
            Err(e) => Err(file + " is not valid JSON: "@ + e),
            Ok(None) => Err(file + ": top level is not a JSON object"@),
            Ok(Some(m)) => Ok(m),
        },
    }
}

/// Setting key `/KEY` of the JSON config `file` to `value`, given the
/// file's text (`None` when absent) and its parent directory.
pub open spec fn json_set_spec(
    file: Seq<char>,
    pointer: Seq<char>,
    value: serde_json::Value,
    existing: Option<Result<Seq<char>, Seq<char>>>,
    parent: Option<Seq<char>>,
) -> Result<FilePlanView, Seq<char>> {
    match json_doc_spec(file, existing) {
        Err(e) => Err(e),
        Ok(m) => {
            let prior = member_get(m, pointer_key(pointer));
            if prior matches Some(p) && json_equal(p, value) {
                Ok(FilePlanView { steps: Seq::empty(), applied: nothing_done(file + " "@ + pointer + " already set"@) })
            } else {
                let doc = json_pretty_object(member_set(m, pointer_key(pointer), value));
                let write = seq![
                    step(FsOpView::Write { path: file, bytes: vstd::utf8::encode_utf8(doc) }, "write "@ + file),
                ];
                Ok(
                    FilePlanView {
                        steps: match parent {
                            Some(p) => seq![step(FsOpView::CreateDirAll { path: p }, "create "@ + p)] + write,
                            None => write,
                        },
                        applied: AppliedView {
                            undo: UndoView::JsonValue { file, pointer, prior, file_existed: existing is Some },
                            note: Seq::empty(),
                        },
                    },
                )
            }
        },
    }
}

/// Putting back key `/KEY` of the JSON config `file`: removing the file if
/// it was created just for this key, else restoring the key's prior value
/// (or removing the key) in the file's current text.
pub open spec fn json_restore_spec(
    file: Seq<char>,
    pointer: Seq<char>,
    prior: Option<serde_json::Value>,
    file_existed: bool,
    exists_now: bool,
    current: Result<Seq<char>, Seq<char>>,
) -> Result<Seq<StepView>, Seq<char>> {
    if !file_existed && prior is None {
        if exists_now {
            Ok(seq![step(FsOpView::RemoveFile { path: file }, "remove "@ + file)])
        } else {
            Ok(Seq::empty())
        }
    } else {
        match current {
            Err(e) => Err("read "@ + file + ": "@ + e),
            Ok(text) => match json_object_of(text) {
                Err(e) => Err(file + ": "@ + e),
                Ok(None) => Err(file + ": top level is not a JSON object"@),
                Ok(Some(m)) => {
                    let back = match prior {
                        Some(v) => member_set(m, pointer_key(pointer), v),
                        None => member_remove(m, pointer_key(pointer)),
                    };
                    let doc = json_pretty_object(back);
                    Ok(seq![step(FsOpView::Write { path: file, bytes: vstd::utf8::encode_utf8(doc) }, "write "@ + file)])
                },
            },
        }
    }
}

fn key_of_pointer(pointer: &str) -> (k: String)
    requires
        pointer@.len() > 0,
    ensures
        k@ == pointer_key(pointer@),
{
    let v = crate::text::chars_of(pointer);
    crate::text::string_of_range(&v, 1, v.len())
}

fn write_step(file: &str, doc: &String) -> (s: FsStep)
    ensures
        s@ == step(FsOpView::Write { path: file@, bytes: vstd::utf8::encode_utf8(doc@) }, "write "@ + file@),
{
    new_step(FsOp::Write { path: file.to_owned(), bytes: str_bytes(doc.as_str()) }, prefixed("write ", file))
}

fn json_doc(file: &str, existing: &Option<Result<String, String>>) -> (r: Result<Vec<(String, serde_json::Value)>, String>)
    ensures
        match r {
            Ok(m) => json_doc_spec(file@, text_read_view(*existing)) == Ok::<Seq<(Seq<char>, serde_json::Value)>, Seq<char>>(
                member_views(m@),
            ) && distinct_keys(member_views(m@)),
            Err(e) => json_doc_spec(file@, text_read_view(*existing)) == Err::<Seq<(Seq<char>, serde_json::Value)>, Seq<char>>(e@),
        },
{
    match existing {
        None => {
            let m: Vec<(String, serde_json::Value)> = Vec::new();
            assert(member_views(m@) =~= Seq::<(Seq<char>, serde_json::Value)>::empty());
            Ok(m)
        },
        Some(Err(e)) => {
            let mut msg = prefixed("read ", file);
            msg.append(": ");
            msg.append(e.as_str());
            Err(msg)
        },
        Some(Ok(text)) => {
            let parsed = parse_json_object(text.as_str());
            assert(members_result_view(parsed) == json_object_of(text@));
            match parsed {
                Err(e) => {
                    let mut msg = suffixed(file, " is not valid JSON: ");
                    msg.append(e.as_str());
                    Err(msg)
                },
                Ok(None) => Err(suffixed(file, ": top level is not a JSON object")),
                Ok(Some(m)) => Ok(m),
            }
        },
    }
}

/// Decides how to set key `/KEY` of a JSON config file to `value`.
pub fn json_set_plan(
    file: &str,
    pointer: &str,
    value: &serde_json::Value,
    existing: Option<Result<String, String>>,
    parent: Option<String>,
) -> (r: Result<FilePlan, String>)
    requires
        pointer@.len() > 0,
    ensures
        plan_result_view(r) == json_set_spec(file@, pointer@, *value, text_read_view(existing), parent.deep_view()),
{
    let mut members = json_doc(file, &existing)?;
    let key = key_of_pointer(pointer);
    let prior = get_member(&members, key.as_str());
    let already = match &prior {
        Some(p) => json_values_equal(p, value),
        None => false,
    };
    if already {
        let mut note = suffixed(file, " ");
        note.append(pointer);
        note.append(" already set");
        return Ok(nothing_plan(note));
    }
    set_member(&mut members, key.as_str(), value);
    let doc = render_json_object(&members);
    let mut steps: Vec<FsStep> = Vec::new();
    match &parent {
        Some(p) => {
            steps.push(new_step(FsOp::CreateDirAll { path: p.clone() }, prefixed("create ", p.as_str())));
        },
        None => {},
    }
    steps.push(write_step(file, &doc));
    let p = FilePlan {
        steps,
        applied: Applied {
            undo: Undo::JsonValue {
                file: file.to_owned(),
                pointer: pointer.to_owned(),
                prior,
                file_existed: existing.is_some(),
            },
            note: String::new(),
        },
    };
    assert(p@.steps =~= json_set_spec(file@, pointer@, *value, text_read_view(existing), parent.deep_view())->Ok_0.steps);
    Ok(p)
}

/// Decides how to put key `/KEY` of a JSON config file back, given whether
/// the file exists now and its current text (or the error reading it).
pub fn json_restore_plan(
    file: &str,
    pointer: &str,
    prior: Option<serde_json::Value>,
    file_existed: bool,
    exists_now: bool,
    current: Result<String, String>,
) -> (r: Result<Vec<FsStep>, String>)
    requires
        pointer@.len() > 0,
    ensures
        steps_result_view(r) == json_restore_spec(
            file@,
            pointer@,
            prior,
            file_existed,
            exists_now,
            text_result_view(current),
        ),
{
    let mut steps: Vec<FsStep> = Vec::new();
    if !file_existed && prior.is_none() {
        if exists_now {
            steps.push(new_step(FsOp::RemoveFile { path: file.to_owned() }, prefixed("remove ", file)));
        }
        assert(step_views(steps@) =~= json_restore_spec(
            file@,
            pointer@,
            prior,
            file_existed,
            exists_now,
            text_result_view(current),
        )->Ok_0);
        return Ok(steps);
    }
    let text = match current {
        Ok(t) => t,
        Err(e) => {
            let mut msg = prefixed("read ", file);
            msg.append(": ");
            msg.append(e.as_str());
            return Err(msg);
        },
    };
    let parsed = parse_json_object(text.as_str());
    assert(members_result_view(parsed) == json_object_of(text@));
    let mut members = match parsed {
        Err(e) => {
            let mut msg = suffixed(file, ": ");
            msg.append(e.as_str());
            return Err(msg);
        },
        Ok(None) => {
            return Err(suffixed(file, ": top level is not a JSON object"));
        },
        Ok(Some(m)) => m,
    };
    let key = key_of_pointer(pointer);
    match &prior {
        Some(v) => set_member(&mut members, key.as_str(), v),
        None => remove_member(&mut members, key.as_str()),
    }
    let doc = render_json_object(&members);
    steps.push(write_step(file, &doc));
    assert(step_views(steps@) =~= json_restore_spec(
        file@,
        pointer@,
        prior,
        file_existed,
        exists_now,
        text_result_view(current),
    )->Ok_0);
    Ok(steps)
}

/// A JSON config created just to hold one key is removed again: where the
/// file is absent and its parent directory (if any) exists, the plan
/// succeeds, its steps succeed, it records that the file did not exist, and
/// reverting gives back the same file system.
pub proof fn law_json_restore_removes_created_file(
    s: Map<Seq<char>, FsNode>,
    file: Seq<char>,
    pointer: Seq<char>,
    value: serde_json::Value,
    parent: Option<Seq<char>>,
    current: Result<Seq<char>, Seq<char>>,
)
    requires
        !s.contains_key(file),
        parent matches Some(p) ==> p != file && s.contains_key(p) && s[p] is Dir,
    ensures
        json_set_spec(file, pointer, value, None, parent) matches Ok(plan) && {
            &&& plan.applied.undo == UndoView::JsonValue { file, pointer, prior: None, file_existed: false }
            &&& fs_run(s, plan.steps) matches Some(s1) && json_restore_spec(
                file,
                pointer,
                None,
                false,
                true,
                current,
            ) matches Ok(back) && fs_run(s1, back) == Some(s)
        },
{
    let plan = json_set_spec(file, pointer, value, None, parent)->Ok_0;
    let m = Seq::<(Seq<char>, serde_json::Value)>::empty();
    assert(member_get(m, pointer_key(pointer)) is None);
    let doc = json_pretty_object(member_set(m, pointer_key(pointer), value));
    let w = seq![step(FsOpView::Write { path: file, bytes: vstd::utf8::encode_utf8(doc) }, "write "@ + file)];
    let s1 = s.insert(file, FsNode::File { bytes: vstd::utf8::encode_utf8(doc), readonly: false });
    lemma_run_one(s, w);
    match parent {
        Some(q) => {
            assert(s.insert(q, FsNode::Dir) =~= s);
            assert(fs_apply(s, plan.steps[0].op) == Some(s));
            assert(plan.steps.drop_first() == w);
            assert(fs_run(s, plan.steps) == fs_run(s, w));
        },
        None => {},
    }
    assert(fs_run(s, plan.steps) == Some(s1));
    let back = json_restore_spec(file, pointer, None, false, true, current)->Ok_0;
    lemma_run_one(s1, back);
    assert(fs_apply(s1, back[0].op) == Some(s1.remove(file)));
    assert(s1.remove(file) =~= s);
}

/// Reverting an edit of an existing JSON config puts its object back: where
/// the file's text held the object with members `m`, and the edit changed
/// key `/KEY`, reverting — when the file then reads back as the object the
/// edit wrote — writes what `serde_json` prints for the object `m` itself,
/// the earlier value restored or the added key removed.
pub proof fn law_json_restore_puts_object_back(
    file: Seq<char>,
    pointer: Seq<char>,
    value: serde_json::Value,
    text: Seq<char>,
    m: Seq<(Seq<char>, serde_json::Value)>,
    parent: Option<Seq<char>>,
    written: Seq<char>,
)
    requires
        json_object_of(text) == Ok::<Option<Seq<(Seq<char>, serde_json::Value)>>, Seq<char>>(Some(m)),
        distinct_keys(m),
        json_set_spec(file, pointer, value, Some(Ok(text)), parent) matches Ok(plan)
            && plan.applied.undo is JsonValue,
        json_object_of(written) == Ok::<Option<Seq<(Seq<char>, serde_json::Value)>>, Seq<char>>(
            Some(member_set(m, pointer_key(pointer), value)),
        ),
    ensures
        json_set_spec(file, pointer, value, Some(Ok(text)), parent) matches Ok(plan) && plan.applied.undo matches UndoView::JsonValue { prior, file_existed, .. }
            && file_existed && json_restore_spec(file, pointer, prior, true, true, Ok(written)) == Ok::<
            Seq<StepView>,
            Seq<char>,
        >(seq![step(FsOpView::Write { path: file, bytes: vstd::utf8::encode_utf8(json_pretty_object(m)) }, "write "@ + file)]),
{
    law_member_restore(m, pointer_key(pointer), value);
}

} // verus!
