//! Inventory: the Change Surface Report.
//!
//! The probe answers "what is on this machine"; the report answers "what can
//! change by itself, and do we know how to stop it". Anything that cannot be
//! mapped to a recipe is reported as unknown — the report is honest before it
//! is pretty.

use crate::recipe::{RecipeFile, RecipeView, recipe_views};
use crate::text::{contains_sub, decimal, decimal_string, has_sub, lowercase, to_lower};
use vstd::prelude::*;

verus! {

#[derive(Debug)]
pub struct MachineFacts {
    /// Installed applications: (display name, version).
    pub apps: Vec<(String, String)>,
    /// Windows services: (service name, display name).
    pub services: Vec<(String, String)>,
    /// Scheduled task names (full paths, e.g. "\\GoogleUpdateTaskMachineCore{...}").
    pub tasks: Vec<String>,
    /// Directories under %LOCALAPPDATA% that contain a Squirrel `Update.exe`.
    pub squirrel_dirs: Vec<String>,
}

pub struct FactsView {
    pub apps: Seq<(Seq<char>, Seq<char>)>,
    pub services: Seq<(Seq<char>, Seq<char>)>,
    pub tasks: Seq<Seq<char>>,
    pub squirrel_dirs: Seq<Seq<char>>,
}

pub open spec fn pair_views(v: Seq<(String, String)>) -> Seq<(Seq<char>, Seq<char>)> {
    v.map_values(|p: (String, String)| (p.0@, p.1@))
}

pub open spec fn text_views(v: Seq<String>) -> Seq<Seq<char>> {
    v.map_values(|s: String| s@)
}

impl View for MachineFacts {
    type V = FactsView;

    open spec fn view(&self) -> FactsView {
        FactsView {
            apps: pair_views(self.apps@),
            services: pair_views(self.services@),
            tasks: text_views(self.tasks@),
            squirrel_dirs: text_views(self.squirrel_dirs@),
        }
    }
}

fn copy_pairs(v: &Vec<(String, String)>) -> (r: Vec<(String, String)>)
    ensures
        pair_views(r@) == pair_views(v@),
{
    let mut r: Vec<(String, String)> = Vec::new();
    let mut i: usize = 0;
    while i < v.len()
        invariant
            i <= v.len(),
            pair_views(r@) == pair_views(v@).take(i as int),
        decreases v.len() - i,
    {
        let p = (v[i].0.clone(), v[i].1.clone());
        r.push(p);
        assert(pair_views(v@).take(i + 1) == pair_views(v@).take(i as int).push((v@[i as int].0@, v@[i as int].1@)));
        i = i + 1;
    }
    assert(pair_views(v@).take(v.len() as int) == pair_views(v@));
    r
}

fn copy_texts(v: &Vec<String>) -> (r: Vec<String>)
    ensures
        text_views(r@) == text_views(v@),
{
    let mut r: Vec<String> = Vec::new();
    let mut i: usize = 0;
    while i < v.len()
        invariant
            i <= v.len(),
            text_views(r@) == text_views(v@).take(i as int),
        decreases v.len() - i,
    {
        r.push(v[i].clone());
        assert(text_views(v@).take(i + 1) == text_views(v@).take(i as int).push(v@[i as int]@));
        i = i + 1;
    }
    assert(text_views(v@).take(v.len() as int) == text_views(v@));
    r
}

impl MachineFacts {
    /// An independent copy of these facts.
    pub fn duplicate(&self) -> (r: MachineFacts)
        ensures
            r@ == self@,
    {
        MachineFacts {
            apps: copy_pairs(&self.apps),
            services: copy_pairs(&self.services),
            tasks: copy_texts(&self.tasks),
            squirrel_dirs: copy_texts(&self.squirrel_dirs),
        }
    }
}

/// A source of machine facts: the live Windows probe, or a fixture.
pub trait SystemProbe {
    fn facts(&self) -> Result<MachineFacts, String>;
}

/// Probe from fixture facts — the test/dev probe on every platform, and a
/// support tool ("send me your scan fixture").
pub struct FixtureProbe {
    pub facts: MachineFacts,
}

impl FixtureProbe {
    /// The facts this probe reports.
    pub fn recorded(&self) -> (r: MachineFacts)
        ensures
            r@ == self.facts@,
    {
        self.facts.duplicate()
    }
}

impl SystemProbe for FixtureProbe {
    fn facts(&self) -> (r: Result<MachineFacts, String>)
        ensures
            r matches Ok(f) && f@ == self.facts@,
    {
        Ok(self.recorded())
    }
}

#[derive(Debug)]
pub struct Finding {
    pub mechanism: String,
    pub detail: String,
    /// Recipe that silences it, if the catalog has one.
    pub recipe: Option<String>,
}

#[derive(Debug)]
pub struct Report {
    pub apps_total: usize,
    pub findings: Vec<Finding>,
    /// Update mechanisms seen but not mapped to any recipe. Honesty section.
    pub unknown: Vec<Finding>,
}

pub struct FindingView {
    pub mechanism: Seq<char>,
    pub detail: Seq<char>,
    pub recipe: Option<Seq<char>>,
}

pub struct ReportView {
    pub apps_total: nat,
    pub findings: Seq<FindingView>,
    pub unknown: Seq<FindingView>,
}

impl View for Finding {
    type V = FindingView;

    open spec fn view(&self) -> FindingView {
        FindingView { mechanism: self.mechanism@, detail: self.detail@, recipe: self.recipe.deep_view() }
    }
}

pub open spec fn finding_views(v: Seq<Finding>) -> Seq<FindingView> {
    v.map_values(|f: Finding| f@)
}

impl View for Report {
    type V = ReportView;

    open spec fn view(&self) -> ReportView {
        ReportView {
            apps_total: self.apps_total as nat,
            findings: finding_views(self.findings@),
            unknown: finding_views(self.unknown@),
        }
    }
}

/// Updater services the scanner recognizes: (name substring, recipe id).
pub open spec fn service_fingerprints() -> Seq<(Seq<char>, Seq<char>)> {
    seq![
        ("gupdate"@, "chrome"@),
        ("gupdatem"@, "chrome"@),
        ("edgeupdate"@, "edge"@),
        ("edgeupdatem"@, "edge"@),
        ("MozillaMaintenance"@, "firefox"@),
    ]
}

/// Updater scheduled tasks the scanner recognizes: (name substring, recipe id).
pub open spec fn task_fingerprints() -> Seq<(Seq<char>, Seq<char>)> {
    seq![("GoogleUpdateTaskMachine"@, "chrome"@), ("MicrosoftEdgeUpdateTask"@, "edge"@)]
}

/// Squirrel apps the scanner recognizes: (directory substring, recipe id).
pub open spec fn squirrel_fingerprints() -> Seq<(Seq<char>, Seq<char>)> {
    seq![("slack"@, "slack"@), ("Discord"@, "discord"@), ("GitHubDesktop"@, "github-desktop"@)]
}

fn fingerprint_table(which: u8) -> (r: Vec<(&'static str, &'static str)>)
    requires
        which < 3,
    ensures
        r@.map_values(|p: (&str, &str)| (p.0@, p.1@)) == if which == 0 {
            service_fingerprints()
        } else if which == 1 {
            task_fingerprints()
        } else {
            squirrel_fingerprints()
        },
{
    let r = if which == 0 {
        vec![
            ("gupdate", "chrome"),
            ("gupdatem", "chrome"),
            ("edgeupdate", "edge"),
            ("edgeupdatem", "edge"),
            ("MozillaMaintenance", "firefox"),
        ]
    } else if which == 1 {
        vec![("GoogleUpdateTaskMachine", "chrome"), ("MicrosoftEdgeUpdateTask", "edge")]
    } else {
        vec![("slack", "slack"), ("Discord", "discord"), ("GitHubDesktop", "github-desktop")]
    };
    assert(r@.map_values(|p: (&str, &str)| (p.0@, p.1@)) =~= if which == 0 {
        service_fingerprints()
    } else if which == 1 {
        task_fingerprints()
    } else {
        squirrel_fingerprints()
    });
    r
}

/// `pat` occurs in `text`, ignoring case when `fold` is set.
pub open spec fn matches_pattern(text: Seq<char>, pat: Seq<char>, fold: bool) -> bool {
    if fold {
        has_sub(lowercase(text), lowercase(pat))
    } else {
        has_sub(text, pat)
    }
}

/// The recipe id of the first fingerprint, in table order, matching `text`.
pub open spec fn fingerprint_match(
    table: Seq<(Seq<char>, Seq<char>)>,
    text: Seq<char>,
    fold: bool,
) -> Option<Seq<char>>
    decreases table.len(),
{
    if table.len() == 0 {
        None
    } else if matches_pattern(text, table[0].0, fold) {
        Some(table[0].1)
    } else {
        fingerprint_match(table.drop_first(), text, fold)
    }
}

/// The catalog has a recipe with this id.
pub open spec fn catalog_has(catalog: Seq<RecipeView>, id: Seq<char>) -> bool {
    exists|i: int| 0 <= i < catalog.len() && (#[trigger] catalog[i]).recipe.id == id
}

/// A recognized mechanism: it names a recipe when the catalog has one.
pub open spec fn recognized(mechanism: Seq<char>, detail: Seq<char>, rid: Seq<char>, catalog: Seq<RecipeView>) -> FindingView {
    FindingView {
        mechanism,
        detail,
        recipe: if catalog_has(catalog, rid) {
            Some(rid)
        } else {
            None
        },
    }
}

/// What the scan makes of one service, if anything.
pub open spec fn classify_service(svc: (Seq<char>, Seq<char>), catalog: Seq<RecipeView>) -> Option<FindingView> {
    let detail = svc.0 + " ("@ + svc.1 + ")"@;
    match fingerprint_match(service_fingerprints(), svc.0, true) {
        Some(rid) => Some(recognized("updater service"@, detail, rid, catalog)),
        None => if has_sub(lowercase(svc.0), "update"@) {
            Some(FindingView { mechanism: "updater service (unrecognized)"@, detail, recipe: None })
        } else {
            None
        },
    }
}

/// What the scan makes of one scheduled task, if anything.
pub open spec fn classify_task(task: Seq<char>, catalog: Seq<RecipeView>) -> Option<FindingView> {
    match fingerprint_match(task_fingerprints(), task, false) {
        Some(rid) => Some(recognized("updater scheduled task"@, task, rid, catalog)),
        None => if has_sub(lowercase(task), "update"@) {
            Some(FindingView { mechanism: "updater scheduled task (unrecognized)"@, detail: task, recipe: None })
        } else {
            None
        },
    }
}

/// What the scan makes of one Squirrel directory: always a finding.
pub open spec fn classify_squirrel(dir: Seq<char>, catalog: Seq<RecipeView>) -> Option<FindingView> {
    let detail = dir + "\\Update.exe"@;
    match fingerprint_match(squirrel_fingerprints(), dir, true) {
        Some(rid) => Some(recognized("Squirrel self-updater"@, detail, rid, catalog)),
        None => Some(
            FindingView { mechanism: "Squirrel self-updater (unrecognized app)"@, detail, recipe: None },
        ),
    }
}

/// Appends a classified item to the findings or the unknown list.
pub open spec fn sort_finding(acc: (Seq<FindingView>, Seq<FindingView>), f: Option<FindingView>) -> (
    Seq<FindingView>,
    Seq<FindingView>,
) {
    match f {
        Some(x) => if x.recipe is Some {
            (acc.0.push(x), acc.1)
        } else {
            (acc.0, acc.1.push(x))
        },
        None => acc,
    }
}

pub open spec fn scan_services(
    acc: (Seq<FindingView>, Seq<FindingView>),
    svcs: Seq<(Seq<char>, Seq<char>)>,
    catalog: Seq<RecipeView>,
) -> (Seq<FindingView>, Seq<FindingView>)
    decreases svcs.len(),
{
    if svcs.len() == 0 {
        acc
    } else {
        sort_finding(scan_services(acc, svcs.drop_last(), catalog), classify_service(svcs.last(), catalog))
    }
}

pub open spec fn scan_tasks(
    acc: (Seq<FindingView>, Seq<FindingView>),
    tasks: Seq<Seq<char>>,
    catalog: Seq<RecipeView>,
) -> (Seq<FindingView>, Seq<FindingView>)
    decreases tasks.len(),
{
    if tasks.len() == 0 {
        acc
    } else {
        sort_finding(scan_tasks(acc, tasks.drop_last(), catalog), classify_task(tasks.last(), catalog))
    }
}

pub open spec fn scan_squirrel(
    acc: (Seq<FindingView>, Seq<FindingView>),
    dirs: Seq<Seq<char>>,
    catalog: Seq<RecipeView>,
) -> (Seq<FindingView>, Seq<FindingView>)
    decreases dirs.len(),
{
    if dirs.len() == 0 {
        acc
    } else {
        sort_finding(scan_squirrel(acc, dirs.drop_last(), catalog), classify_squirrel(dirs.last(), catalog))
    }
}

/// Some finding already names this recipe.
pub open spec fn already_found(findings: Seq<FindingView>, id: Seq<char>) -> bool {
    exists|i: int| 0 <= i < findings.len() && (#[trigger] findings[i]).recipe == Some(id)
}

/// Some installed app's name contains one of the recipe's uninstall names,
/// ignoring case.
pub open spec fn installed(apps: Seq<(Seq<char>, Seq<char>)>, r: RecipeView) -> bool {
    exists|a: int, k: int|
        0 <= a < apps.len() && 0 <= k < r.uninstall_names.len() && matches_pattern(
            #[trigger] apps[a].0,
            #[trigger] r.uninstall_names[k],
            true,
        )
}

/// Recipes whose app is installed but whose machinery the probe did not
/// surface still get a finding: the recipe knows in-app updaters.
pub open spec fn with_in_app(
    base: Seq<FindingView>,
    apps: Seq<(Seq<char>, Seq<char>)>,
    catalog: Seq<RecipeView>,
) -> Seq<FindingView>
    decreases catalog.len(),
{
    if catalog.len() == 0 {
        base
    } else {
        let f = with_in_app(base, apps, catalog.drop_last());
        let r = catalog.last();
        if !already_found(f, r.recipe.id) && installed(apps, r) {
            f.push(
                FindingView { mechanism: "in-app updater"@, detail: r.recipe.name, recipe: Some(r.recipe.id) },
            )
        } else {
            f
        }
    }
}

/// An app counts as installed for a recipe exactly when some installed
/// app's display name contains one of the recipe's uninstall names,
/// ignoring case (both lowercased).
pub proof fn law_installed_ignores_case(apps: Seq<(Seq<char>, Seq<char>)>, r: RecipeView)
    ensures
        installed(apps, r) <==> exists|a: int, k: int|
            0 <= a < apps.len() && 0 <= k < r.uninstall_names.len() && has_sub(
                lowercase(#[trigger] apps[a].0),
                lowercase(#[trigger] r.uninstall_names[k]),
            ),
{
}

proof fn lemma_with_in_app_reports_installed(
    base: Seq<FindingView>,
    apps: Seq<(Seq<char>, Seq<char>)>,
    catalog: Seq<RecipeView>,
    i: int,
)
    requires
        0 <= i < catalog.len(),
        installed(apps, catalog[i]),
    ensures
        already_found(with_in_app(base, apps, catalog), catalog[i].recipe.id),
    decreases catalog.len(),
{
    let f = with_in_app(base, apps, catalog.drop_last());
    let r = catalog.last();
    let id = catalog[i].recipe.id;
    if i < catalog.len() - 1 {
        assert(catalog.drop_last()[i] == catalog[i]);
        lemma_with_in_app_reports_installed(base, apps, catalog.drop_last(), i);
        let j = choose|j: int| 0 <= j < f.len() && (#[trigger] f[j]).recipe == Some(id);
        if !already_found(f, r.recipe.id) && installed(apps, r) {
            let g = f.push(
                FindingView { mechanism: "in-app updater"@, detail: r.recipe.name, recipe: Some(r.recipe.id) },
            );
            assert(g[j] == f[j]);
        }
    } else {
        assert(r == catalog[i]);
        if !already_found(f, id) {
            let g = f.push(FindingView { mechanism: "in-app updater"@, detail: r.recipe.name, recipe: Some(id) });
            assert(g[f.len() as int].recipe == Some(id));
        }
    }
}

/// Every recipe whose app is installed (some app's display name contains
/// one of its uninstall names, ignoring case) is named by a finding of the
/// report: by what the scan surfaced, or by an in-app updater finding.
pub proof fn law_installed_apps_are_reported(facts: FactsView, catalog: Seq<RecipeView>, i: int)
    requires
        0 <= i < catalog.len(),
        exists|a: int, k: int|
            0 <= a < facts.apps.len() && 0 <= k < catalog[i].uninstall_names.len() && has_sub(
                lowercase(#[trigger] facts.apps[a].0),
                lowercase(#[trigger] catalog[i].uninstall_names[k]),
            ),
    ensures
        exists|j: int|
            0 <= j < report_spec(facts, catalog).findings.len() && (#[trigger] report_spec(
                facts,
                catalog,
            ).findings[j]).recipe == Some(catalog[i].recipe.id),
{
    law_installed_ignores_case(facts.apps, catalog[i]);
    let s = scan_services((Seq::empty(), Seq::empty()), facts.services, catalog);
    let t = scan_tasks(s, facts.tasks, catalog);
    let q = scan_squirrel(t, facts.squirrel_dirs, catalog);
    lemma_with_in_app_reports_installed(q.0, facts.apps, catalog, i);
    let fs = with_in_app(q.0, facts.apps, catalog);
    assert(report_spec(facts, catalog).findings == fs);
    let j = choose|j: int| 0 <= j < fs.len() && (#[trigger] fs[j]).recipe == Some(catalog[i].recipe.id);
    assert(report_spec(facts, catalog).findings[j].recipe == Some(catalog[i].recipe.id));
}

/// The Change Surface Report for `facts` against `catalog`.
pub open spec fn report_spec(facts: FactsView, catalog: Seq<RecipeView>) -> ReportView {
    let s = scan_services((Seq::empty(), Seq::empty()), facts.services, catalog);
    let t = scan_tasks(s, facts.tasks, catalog);
    let q = scan_squirrel(t, facts.squirrel_dirs, catalog);
    ReportView { apps_total: facts.apps.len(), findings: with_in_app(q.0, facts.apps, catalog), unknown: q.1 }
}

fn has_recipe(catalog: &[RecipeFile], id: &str) -> (r: bool)
    ensures
        r == catalog_has(recipe_views(catalog@), id@),
{
    let ghost cv = recipe_views(catalog@);
    let mut i: usize = 0;
    while i < catalog.len()
        invariant
            i <= catalog.len(),
            cv == recipe_views(catalog@),
            forall|k: int| 0 <= k < i ==> (#[trigger] cv[k]).recipe.id != id@,
        decreases catalog.len() - i,
    {
        if crate::text::same_text(catalog[i].recipe.id.as_str(), id) {
            assert(cv[i as int].recipe.id == id@);
            return true;
        }
        i = i + 1;
    }
    false
}

fn text_matches(text: &str, pat: &str, fold: bool) -> (r: bool)
    ensures
        r == matches_pattern(text@, pat@, fold),
{
    if fold {
        let t = to_lower(text);
        let p = to_lower(pat);
        contains_sub(t.as_str(), p.as_str())
    } else {
        contains_sub(text, pat)
    }
}

fn match_fingerprint(which: u8, text: &str, fold: bool) -> (r: Option<&'static str>)
    requires
        which < 3,
    ensures
        match r {
            Some(x) => Some(x@),
            None => None,
        } == fingerprint_match(
            if which == 0 {
                service_fingerprints()
            } else if which == 1 {
                task_fingerprints()
            } else {
                squirrel_fingerprints()
            },
            text@,
            fold,
        ),
{
    let table = fingerprint_table(which);
    let ghost tv = table@.map_values(|p: (&str, &str)| (p.0@, p.1@));
    let ghost want = if which == 0 {
        service_fingerprints()
    } else if which == 1 {
        task_fingerprints()
    } else {
        squirrel_fingerprints()
    };
    let mut i: usize = 0;
    assert(tv.skip(0) == tv);
    while i < table.len()
        invariant
            i <= table.len(),
            tv == want,
            want == if which == 0 {
                service_fingerprints()
            } else if which == 1 {
                task_fingerprints()
            } else {
                squirrel_fingerprints()
            },
            tv == table@.map_values(|p: (&str, &str)| (p.0@, p.1@)),
            fingerprint_match(tv, text@, fold) == fingerprint_match(tv.skip(i as int), text@, fold),
        decreases table.len() - i,
    {
        assert(tv.skip(i as int)[0] == tv[i as int]);
        assert(tv.skip(i as int).drop_first() == tv.skip(i + 1));
        let (pat, rid) = table[i];
        assert(tv[i as int] == (pat@, rid@));
        if text_matches(text, pat, fold) {
            assert(tv.skip(i as int).len() > 0);
            assert(matches_pattern(text@, tv.skip(i as int)[0].0, fold));
            assert(fingerprint_match(tv.skip(i as int), text@, fold) == Some(rid@));
            return Some(rid);
        }
        i = i + 1;
    }
    None
}

fn new_finding(mechanism: &str, detail: String, recipe: Option<String>) -> (f: Finding)
    ensures
        f@ == (FindingView { mechanism: mechanism@, detail: detail@, recipe: recipe.deep_view() }),
{
    Finding { mechanism: mechanism.to_owned(), detail, recipe }
}

fn recognized_finding(mechanism: &str, detail: String, rid: &str, catalog: &[RecipeFile]) -> (f: Finding)
    ensures
        f@ == recognized(mechanism@, detail@, rid@, recipe_views(catalog@)),
{
    let recipe = if has_recipe(catalog, rid) {
        Some(rid.to_owned())
    } else {
        None
    };
    new_finding(mechanism, detail, recipe)
}

fn file_finding(findings: &mut Vec<Finding>, unknown: &mut Vec<Finding>, f: Option<Finding>)
    ensures
        (finding_views(final(findings)@), finding_views(final(unknown)@)) == sort_finding(
            (finding_views(old(findings)@), finding_views(old(unknown)@)),
            match f {
                Some(x) => Some(x@),
                None => None,
            },
        ),
{
    match f {
        Some(x) => {
            let ghost xv = x@;
            if x.recipe.is_some() {
                findings.push(x);
                assert(finding_views(findings@) == finding_views(old(findings)@).push(xv));
            } else {
                unknown.push(x);
                assert(finding_views(unknown@) == finding_views(old(unknown)@).push(xv));
            }
        },
        None => {},
    }
}

fn service_detail(name: &str, display: &str) -> (s: String)
    ensures
        s@ == name@ + " ("@ + display@ + ")"@,
{
    let mut s = name.to_owned();
    s.append(" (");
    s.append(display);
    s.append(")");
    s
}

fn classify_service_exec(name: &str, display: &str, catalog: &[RecipeFile]) -> (r: Option<Finding>)
    ensures
        match r {
            Some(x) => Some(x@),
            None => None,
        } == classify_service((name@, display@), recipe_views(catalog@)),
{
    match match_fingerprint(0, name, true) {
        Some(rid) => Some(recognized_finding("updater service", service_detail(name, display), rid, catalog)),
        None => {
            let lname = to_lower(name);
            if contains_sub(lname.as_str(), "update") {
                Some(new_finding("updater service (unrecognized)", service_detail(name, display), None))
            } else {
                None
            }
        },
    }
}

fn classify_task_exec(task: &str, catalog: &[RecipeFile]) -> (r: Option<Finding>)
    ensures
        match r {
            Some(x) => Some(x@),
            None => None,
        } == classify_task(task@, recipe_views(catalog@)),
{
    match match_fingerprint(1, task, false) {
        Some(rid) => Some(recognized_finding("updater scheduled task", task.to_owned(), rid, catalog)),
        None => {
            let lname = to_lower(task);
            if contains_sub(lname.as_str(), "update") {
                Some(new_finding("updater scheduled task (unrecognized)", task.to_owned(), None))
            } else {
                None
            }
        },
    }
}

fn classify_squirrel_exec(dir: &str, catalog: &[RecipeFile]) -> (r: Option<Finding>)
    ensures
        match r {
            Some(x) => Some(x@),
            None => None,
        } == classify_squirrel(dir@, recipe_views(catalog@)),
{
    let mut detail = dir.to_owned();
    detail.append("\\Update.exe");
    match match_fingerprint(2, dir, true) {
        Some(rid) => Some(recognized_finding("Squirrel self-updater", detail, rid, catalog)),
        None => Some(new_finding("Squirrel self-updater (unrecognized app)", detail, None)),
    }
}

fn names_recipe(findings: &Vec<Finding>, id: &str) -> (r: bool)
    ensures
        r == already_found(finding_views(findings@), id@),
{
    let ghost fv = finding_views(findings@);
    let mut i: usize = 0;
    while i < findings.len()
        invariant
            i <= findings.len(),
            fv == finding_views(findings@),
            forall|k: int| 0 <= k < i ==> (#[trigger] fv[k]).recipe != Some(id@),
        decreases findings.len() - i,
    {
        match &findings[i].recipe {
            Some(rid) => {
                if crate::text::same_text(rid.as_str(), id) {
                    assert(fv[i as int].recipe == Some(id@));
                    return true;
                }
            },
            None => {},
        }
        i = i + 1;
    }
    false
}

fn is_installed(apps: &Vec<(String, String)>, r: &RecipeFile) -> (res: bool)
    ensures
        res == installed(pair_views(apps@), r@),
{
    let ghost av = pair_views(apps@);
    let ghost names = r@.uninstall_names;
    let mut a: usize = 0;
    while a < apps.len()
        invariant
            a <= apps.len(),
            av == pair_views(apps@),
            names == r@.uninstall_names,
            forall|x: int, k: int|
                0 <= x < a && 0 <= k < names.len() ==> !matches_pattern(#[trigger] av[x].0, #[trigger] names[k], true),
        decreases apps.len() - a,
    {
        let mut k: usize = 0;
        while k < r.detect.uninstall_names.len()
            invariant
                a < apps.len(),
                k <= names.len(),
                av == pair_views(apps@),
                names == r@.uninstall_names,
                names.len() == r.detect.uninstall_names@.len(),
                forall|x: int, j: int|
                    0 <= x < a && 0 <= j < names.len() ==> !matches_pattern(#[trigger] av[x].0, #[trigger] names[j], true),
                forall|j: int| 0 <= j < k ==> !matches_pattern(av[a as int].0, #[trigger] names[j], true),
            decreases names.len() - k,
        {
            if text_matches(apps[a].0.as_str(), r.detect.uninstall_names[k].as_str(), true) {
                assert(matches_pattern(av[a as int].0, names[k as int], true));
                return true;
            }
            k = k + 1;
        }
        a = a + 1;
    }
    false
}

/// The Change Surface Report for the given facts.
pub fn report_from_facts(facts: &MachineFacts, catalog: &[RecipeFile]) -> (rep: Report)
    ensures
        rep@ == report_spec(facts@, recipe_views(catalog@)),
{
    let ghost cv = recipe_views(catalog@);
    let ghost fv = facts@;
    let mut findings: Vec<Finding> = Vec::new();
    let mut unknown: Vec<Finding> = Vec::new();
    let ghost empty = (Seq::<FindingView>::empty(), Seq::<FindingView>::empty());

    let mut i: usize = 0;
    assert(fv.services.take(0) == Seq::<(Seq<char>, Seq<char>)>::empty());
    while i < facts.services.len()
        invariant
            i <= facts.services.len(),
            fv == facts@,
            cv == recipe_views(catalog@),
            (finding_views(findings@), finding_views(unknown@)) == scan_services(empty, fv.services.take(i as int), cv),
        decreases facts.services.len() - i,
    {
        let f = classify_service_exec(facts.services[i].0.as_str(), facts.services[i].1.as_str(), catalog);
        file_finding(&mut findings, &mut unknown, f);
        assert(fv.services.take(i + 1).drop_last() == fv.services.take(i as int));
        assert(fv.services.take(i + 1).last() == fv.services[i as int]);
        i = i + 1;
    }
    assert(fv.services.take(i as int) == fv.services);
    let ghost s = scan_services(empty, fv.services, cv);

    let mut i: usize = 0;
    assert(fv.tasks.take(0) == Seq::<Seq<char>>::empty());
    while i < facts.tasks.len()
        invariant
            i <= facts.tasks.len(),
            fv == facts@,
            cv == recipe_views(catalog@),
            (finding_views(findings@), finding_views(unknown@)) == scan_tasks(s, fv.tasks.take(i as int), cv),
        decreases facts.tasks.len() - i,
    {
        let f = classify_task_exec(facts.tasks[i].as_str(), catalog);
        file_finding(&mut findings, &mut unknown, f);
        assert(fv.tasks.take(i + 1).drop_last() == fv.tasks.take(i as int));
        assert(fv.tasks.take(i + 1).last() == fv.tasks[i as int]);
        i = i + 1;
    }
    assert(fv.tasks.take(i as int) == fv.tasks);
    let ghost t = scan_tasks(s, fv.tasks, cv);

    let mut i: usize = 0;
    assert(fv.squirrel_dirs.take(0) == Seq::<Seq<char>>::empty());
    while i < facts.squirrel_dirs.len()
        invariant
            i <= facts.squirrel_dirs.len(),
            fv == facts@,
            cv == recipe_views(catalog@),
            (finding_views(findings@), finding_views(unknown@)) == scan_squirrel(t, fv.squirrel_dirs.take(i as int), cv),
        decreases facts.squirrel_dirs.len() - i,
    {
        let f = classify_squirrel_exec(facts.squirrel_dirs[i].as_str(), catalog);
        file_finding(&mut findings, &mut unknown, f);
        assert(fv.squirrel_dirs.take(i + 1).drop_last() == fv.squirrel_dirs.take(i as int));
        assert(fv.squirrel_dirs.take(i + 1).last() == fv.squirrel_dirs[i as int]);
        i = i + 1;
    }
    assert(fv.squirrel_dirs.take(i as int) == fv.squirrel_dirs);
    let ghost q = scan_squirrel(t, fv.squirrel_dirs, cv);

    let mut k: usize = 0;
    assert(cv.take(0) == Seq::<RecipeView>::empty());
    while k < catalog.len()
        invariant
            k <= catalog.len(),
            fv == facts@,
            cv == recipe_views(catalog@),
            finding_views(unknown@) == q.1,
            finding_views(findings@) == with_in_app(q.0, fv.apps, cv.take(k as int)),
        decreases catalog.len() - k,
    {
        let r = &catalog[k];
        assert(cv.take(k + 1).drop_last() == cv.take(k as int));
        assert(cv.take(k + 1).last() == r@);
        if !names_recipe(&findings, r.recipe.id.as_str()) && is_installed(&facts.apps, r) {
            let f = new_finding("in-app updater", r.recipe.name.clone(), Some(r.recipe.id.clone()));
            let ghost old_f = finding_views(findings@);
            findings.push(f);
            assert(finding_views(findings@) == old_f.push(
                FindingView { mechanism: "in-app updater"@, detail: r@.recipe.name, recipe: Some(r@.recipe.id) },
            ));
        }
        k = k + 1;
    }
    assert(cv.take(k as int) == cv);
    Report { apps_total: facts.apps.len(), findings, unknown }
}

/// Builds the Change Surface Report from what the probe reports. Errors of
/// the probe are passed on unchanged.
pub fn build_report<P: SystemProbe>(probe: &P, catalog: &[RecipeFile]) -> (r: Result<Report, String>)
    ensures
        exists|res: Result<MachineFacts, String>|
            #[trigger] call_ensures(P::facts, (probe,), res) && match res {
                Ok(f) => r matches Ok(rep) && rep@ == report_spec(f@, recipe_views(catalog@)),
                Err(e) => r matches Err(e2) && e2@ == e@,
            },
{
    let res = probe.facts();
    match res {
        Ok(facts) => {
            let rep = report_from_facts(&facts, catalog);
            assert(rep@ == report_spec(facts@, recipe_views(catalog@)));
            Ok(rep)
        },
        Err(e) => Err(e),
    }
}

/// Findings name a recipe of the catalog; unknown entries name none.
pub open spec fn well_sorted(acc: (Seq<FindingView>, Seq<FindingView>), catalog: Seq<RecipeView>) -> bool {
    &&& forall|i: int|
        0 <= i < acc.0.len() ==> (#[trigger] acc.0[i]).recipe is Some && catalog_has(
            catalog,
            acc.0[i].recipe->0,
        )
    &&& forall|i: int| 0 <= i < acc.1.len() ==> (#[trigger] acc.1[i]).recipe is None
}

/// `f` is listed among the findings or the unknown entries.
pub open spec fn listed(acc: (Seq<FindingView>, Seq<FindingView>), f: FindingView) -> bool {
    acc.0.contains(f) || acc.1.contains(f)
}

/// Everything listed in `a` is still listed in `b`.
pub open spec fn keeps(a: (Seq<FindingView>, Seq<FindingView>), b: (Seq<FindingView>, Seq<FindingView>)) -> bool {
    forall|f: FindingView| listed(a, f) ==> #[trigger] listed(b, f)
}

proof fn lemma_classified_sorted(f: Option<FindingView>, catalog: Seq<RecipeView>, acc: (Seq<FindingView>, Seq<FindingView>))
    requires
        well_sorted(acc, catalog),
        f matches Some(x) ==> (x.recipe matches Some(id) ==> catalog_has(catalog, id)),
    ensures
        well_sorted(sort_finding(acc, f), catalog),
        keeps(acc, sort_finding(acc, f)),
        f matches Some(x) ==> listed(sort_finding(acc, f), x),
{
    let r = sort_finding(acc, f);
    assert forall|g: FindingView| listed(acc, g) implies #[trigger] listed(r, g) by {
        if acc.0.contains(g) {
            let k = choose|k: int| 0 <= k < acc.0.len() && acc.0[k] == g;
            assert(r.0[k] == g);
        } else {
            let k = choose|k: int| 0 <= k < acc.1.len() && acc.1[k] == g;
            assert(r.1[k] == g);
        }
    }
    if let Some(x) = f {
        if x.recipe is Some {
            assert(r.0[r.0.len() - 1] == x);
        } else {
            assert(r.1[r.1.len() - 1] == x);
        }
    }
}

proof fn lemma_scan_services(acc: (Seq<FindingView>, Seq<FindingView>), svcs: Seq<(Seq<char>, Seq<char>)>, catalog: Seq<RecipeView>)
    requires
        well_sorted(acc, catalog),
    ensures
        well_sorted(scan_services(acc, svcs, catalog), catalog),
        keeps(acc, scan_services(acc, svcs, catalog)),
        forall|i: int|
            0 <= i < svcs.len() ==> (#[trigger] classify_service(svcs[i], catalog) matches Some(x) ==> listed(
                scan_services(acc, svcs, catalog),
                x,
            )),
    decreases svcs.len(),
{
    if svcs.len() > 0 {
        let prev = svcs.drop_last();
        lemma_scan_services(acc, prev, catalog);
        let mid = scan_services(acc, prev, catalog);
        lemma_classified_sorted(classify_service(svcs.last(), catalog), catalog, mid);
        assert forall|i: int|
            0 <= i < svcs.len() implies (#[trigger] classify_service(svcs[i], catalog) matches Some(x) ==> listed(
            scan_services(acc, svcs, catalog),
            x,
        )) by {
            if i < svcs.len() - 1 {
                assert(svcs[i] == prev[i]);
            }
        }
    }
}

proof fn lemma_scan_tasks(acc: (Seq<FindingView>, Seq<FindingView>), tasks: Seq<Seq<char>>, catalog: Seq<RecipeView>)
    requires
        well_sorted(acc, catalog),
    ensures
        well_sorted(scan_tasks(acc, tasks, catalog), catalog),
        keeps(acc, scan_tasks(acc, tasks, catalog)),
        forall|i: int|
            0 <= i < tasks.len() ==> (#[trigger] classify_task(tasks[i], catalog) matches Some(x) ==> listed(
                scan_tasks(acc, tasks, catalog),
                x,
            )),
    decreases tasks.len(),
{
    if tasks.len() > 0 {
        let prev = tasks.drop_last();
        lemma_scan_tasks(acc, prev, catalog);
        let mid = scan_tasks(acc, prev, catalog);
        lemma_classified_sorted(classify_task(tasks.last(), catalog), catalog, mid);
        assert forall|i: int|
            0 <= i < tasks.len() implies (#[trigger] classify_task(tasks[i], catalog) matches Some(x) ==> listed(
            scan_tasks(acc, tasks, catalog),
            x,
        )) by {
            if i < tasks.len() - 1 {
                assert(tasks[i] == prev[i]);
            }
        }
    }
}

proof fn lemma_scan_squirrel(acc: (Seq<FindingView>, Seq<FindingView>), dirs: Seq<Seq<char>>, catalog: Seq<RecipeView>)
    requires
        well_sorted(acc, catalog),
    ensures
        well_sorted(scan_squirrel(acc, dirs, catalog), catalog),
        keeps(acc, scan_squirrel(acc, dirs, catalog)),
        forall|i: int|
            0 <= i < dirs.len() ==> (#[trigger] classify_squirrel(dirs[i], catalog) matches Some(x) ==> listed(
                scan_squirrel(acc, dirs, catalog),
                x,
            )),
    decreases dirs.len(),
{
    if dirs.len() > 0 {
        let prev = dirs.drop_last();
        lemma_scan_squirrel(acc, prev, catalog);
        let mid = scan_squirrel(acc, prev, catalog);
        lemma_classified_sorted(classify_squirrel(dirs.last(), catalog), catalog, mid);
        assert forall|i: int|
            0 <= i < dirs.len() implies (#[trigger] classify_squirrel(dirs[i], catalog) matches Some(x) ==> listed(
            scan_squirrel(acc, dirs, catalog),
            x,
        )) by {
            if i < dirs.len() - 1 {
                assert(dirs[i] == prev[i]);
            }
        }
    }
}

proof fn lemma_with_in_app(base: Seq<FindingView>, apps: Seq<(Seq<char>, Seq<char>)>, catalog: Seq<RecipeView>, all: Seq<RecipeView>)
    requires
        forall|i: int| 0 <= i < catalog.len() ==> all.contains(#[trigger] catalog[i]),
        forall|i: int|
            0 <= i < base.len() ==> (#[trigger] base[i]).recipe is Some && catalog_has(all, base[i].recipe->0),
    ensures
        forall|f: FindingView| base.contains(f) ==> #[trigger] with_in_app(base, apps, catalog).contains(f),
        forall|i: int|
            0 <= i < with_in_app(base, apps, catalog).len() ==> (#[trigger] with_in_app(base, apps, catalog)[i]).recipe is Some
                && catalog_has(all, with_in_app(base, apps, catalog)[i].recipe->0),
    decreases catalog.len(),
{
    if catalog.len() > 0 {
        let prev = catalog.drop_last();
        assert forall|i: int| 0 <= i < prev.len() implies all.contains(#[trigger] prev[i]) by {
            assert(prev[i] == catalog[i]);
        }
        lemma_with_in_app(base, apps, prev, all);
        let f = with_in_app(base, apps, prev);
        let r = catalog.last();
        assert(all.contains(catalog[catalog.len() - 1]));
        let j = choose|j: int| 0 <= j < all.len() && all[j] == r;
        assert(all[j].recipe.id == r.recipe.id);
        let w = with_in_app(base, apps, catalog);
        assert forall|g: FindingView| base.contains(g) implies #[trigger] w.contains(g) by {
            assert(f.contains(g));
            let k = choose|k: int| 0 <= k < f.len() && f[k] == g;
            assert(w[k] == g);
        }
        assert forall|i: int| 0 <= i < w.len() implies (#[trigger] w[i]).recipe is Some && catalog_has(all, w[i].recipe->0) by {
            if i < f.len() {
                assert(w[i] == f[i]);
            }
        }
    }
}

/// The report is honest: every finding names a recipe the catalog holds,
/// no unknown entry names one, and every Squirrel updater, every service
/// or task whose name mentions "update" (ignoring case), and every
/// fingerprinted service or task shows up in one of the two lists.
pub proof fn law_report_is_honest(facts: FactsView, catalog: Seq<RecipeView>)
    ensures
        ({
            let rep = report_spec(facts, catalog);
            &&& forall|i: int|
                0 <= i < rep.findings.len() ==> (#[trigger] rep.findings[i]).recipe is Some && catalog_has(
                    catalog,
                    rep.findings[i].recipe->0,
                )
            &&& forall|i: int| 0 <= i < rep.unknown.len() ==> (#[trigger] rep.unknown[i]).recipe is None
            &&& forall|i: int|
                0 <= i < facts.squirrel_dirs.len() ==> exists|f: FindingView|
                    (rep.findings.contains(f) || rep.unknown.contains(f)) && f.detail
                        == #[trigger] facts.squirrel_dirs[i] + "\\Update.exe"@
            &&& forall|i: int|
                0 <= i < facts.services.len() && (has_sub(lowercase(facts.services[i].0), "update"@)
                    || fingerprint_match(service_fingerprints(), facts.services[i].0, true) is Some)
                    ==> exists|f: FindingView|
                    (rep.findings.contains(f) || rep.unknown.contains(f)) && f.detail == #[trigger] facts.services[i].0
                        + " ("@ + facts.services[i].1 + ")"@
            &&& forall|i: int|
                0 <= i < facts.tasks.len() && (has_sub(lowercase(facts.tasks[i]), "update"@)
                    || fingerprint_match(task_fingerprints(), facts.tasks[i], false) is Some)
                    ==> exists|f: FindingView|
                    (rep.findings.contains(f) || rep.unknown.contains(f)) && f.detail == #[trigger] facts.tasks[i]
        }),
{
    let empty = (Seq::<FindingView>::empty(), Seq::<FindingView>::empty());
    lemma_scan_services(empty, facts.services, catalog);
    let s = scan_services(empty, facts.services, catalog);
    lemma_scan_tasks(s, facts.tasks, catalog);
    let t = scan_tasks(s, facts.tasks, catalog);
    lemma_scan_squirrel(t, facts.squirrel_dirs, catalog);
    let q = scan_squirrel(t, facts.squirrel_dirs, catalog);
    lemma_with_in_app(q.0, facts.apps, catalog, catalog);
    let rep = report_spec(facts, catalog);
    assert forall|f: FindingView| listed(q, f) implies rep.findings.contains(f) || rep.unknown.contains(f) by {}
    assert forall|i: int| 0 <= i < facts.squirrel_dirs.len() implies exists|f: FindingView|
        (rep.findings.contains(f) || rep.unknown.contains(f)) && f.detail
            == #[trigger] facts.squirrel_dirs[i] + "\\Update.exe"@ by {
        let x = classify_squirrel(facts.squirrel_dirs[i], catalog)->0;
        assert(listed(q, x));
    }
    assert forall|i: int|
        0 <= i < facts.services.len() && (has_sub(lowercase(facts.services[i].0), "update"@)
            || fingerprint_match(service_fingerprints(), facts.services[i].0, true) is Some) implies exists|f: FindingView|
        (rep.findings.contains(f) || rep.unknown.contains(f)) && f.detail == #[trigger] facts.services[i].0 + " ("@
            + facts.services[i].1 + ")"@ by {
        let x = classify_service(facts.services[i], catalog)->0;
        assert(listed(s, x));
        assert(listed(t, x));
        assert(listed(q, x));
    }
    assert forall|i: int|
        0 <= i < facts.tasks.len() && (has_sub(lowercase(facts.tasks[i]), "update"@)
            || fingerprint_match(task_fingerprints(), facts.tasks[i], false) is Some) implies exists|f: FindingView|
        (rep.findings.contains(f) || rep.unknown.contains(f)) && f.detail == #[trigger] facts.tasks[i] by {
        let x = classify_task(facts.tasks[i], catalog)->0;
        assert(listed(t, x));
        assert(listed(q, x));
    }
}

/// How the report lists a finding: the recipe that silences it (or `-`),
/// the mechanism, and what was seen.
pub open spec fn finding_line(f: FindingView) -> Seq<char> {
    "  ["@ + match f.recipe {
        Some(r) => r,
        None => "-"@,
    } + "]  "@ + f.mechanism + " \u{2014} "@ + f.detail
}

/// How the report lists a mechanism no recipe covers.
pub open spec fn unknown_line(f: FindingView) -> Seq<char> {
    "  [??]  "@ + f.mechanism + " \u{2014} "@ + f.detail
}

/// The text of the Change Surface Report, line by line: the count of
/// installed applications, the mechanisms the catalog can silence, the
/// honesty section when something has no recipe, and how to freeze.
pub open spec fn report_text_spec(r: ReportView) -> Seq<Seq<char>> {
    seq!["Change Surface Report"@, "====================="@, "Installed applications: "@ + decimal(r.apps_total), ""@]
        + if r.findings.len() == 0 {
        seq!["No known update mechanisms found."@]
    } else {
        seq!["Update mechanisms the catalog can silence:"@] + r.findings.map_values(|f: FindingView| finding_line(f))
    } + if r.unknown.len() == 0 {
        Seq::empty()
    } else {
        seq![
            ""@,
            "Honesty section \u{2014} mechanisms with NO recipe (these can still change your machine):"@,
        ] + r.unknown.map_values(|f: FindingView| unknown_line(f))
    } + seq![""@, "Freeze with: stasis freeze <recipe-id>...   (or --all)"@]
}

pub open spec fn line_views(v: Seq<String>) -> Seq<Seq<char>> {
    v.map_values(|s: String| s@)
}

fn push_line(lines: &mut Vec<String>, s: String)
    ensures
        line_views(final(lines)@) == line_views(old(lines)@).push(s@),
{
    lines.push(s);
    assert(line_views(lines@) =~= line_views(old(lines)@).push(s@));
}

fn push_finding_lines(lines: &mut Vec<String>, fs: &Vec<Finding>, known: bool)
    ensures
        line_views(final(lines)@) == line_views(old(lines)@) + finding_views(fs@).map_values(
            |f: FindingView|
                if known {
                    finding_line(f)
                } else {
                    unknown_line(f)
                },
        ),
{
    let ghost fv = finding_views(fs@).map_values(
        |f: FindingView|
            if known {
                finding_line(f)
            } else {
                unknown_line(f)
            },
    );
    let mut i: usize = 0;
    while i < fs.len()
        invariant
            i <= fs.len(),
            fv == finding_views(fs@).map_values(
                |f: FindingView|
                    if known {
                        finding_line(f)
                    } else {
                        unknown_line(f)
                    },
            ),
            line_views(lines@) == line_views(old(lines)@) + fv.take(i as int),
        decreases fs.len() - i,
    {
        let f = &fs[i];
        let mut s = String::from_str("  [");
        if known {
            match &f.recipe {
                Some(r) => s.append(r.as_str()),
                None => s.append("-"),
            }
            s.append("]  ");
        } else {
            s.append("??]  ");
        }
        s.append(f.mechanism.as_str());
        s.append(" \u{2014} ");
        s.append(f.detail.as_str());
        proof {
            if !known {
                assert("  ["@ + "??]  "@ == "  [??]  "@) by {
                    reveal_strlit("  [");
                    reveal_strlit("??]  ");
                    reveal_strlit("  [??]  ");
                }
            }
        }
        push_line(lines, s);
        assert(fv.take(i + 1) == fv.take(i as int).push(fv[i as int]));
        i = i + 1;
    }
    assert(fv.take(i as int) == fv);
}

/// The report's text, line by line.
pub fn report_lines(report: &Report) -> (lines: Vec<String>)
    ensures
        line_views(lines@) == report_text_spec(report@),
{
    let mut lines: Vec<String> = Vec::new();
    push_line(&mut lines, "Change Surface Report".to_owned());
    push_line(&mut lines, "=====================".to_owned());
    let mut count = String::from_str("Installed applications: ");
    let n = decimal_string(report.apps_total as u64);
    count.append(n.as_str());
    push_line(&mut lines, count);
    push_line(&mut lines, "".to_owned());
    let ghost head = line_views(lines@);
    if report.findings.len() == 0 {
        push_line(&mut lines, "No known update mechanisms found.".to_owned());
    } else {
        push_line(&mut lines, "Update mechanisms the catalog can silence:".to_owned());
        push_finding_lines(&mut lines, &report.findings, true);
    }
    let ghost mid = line_views(lines@);
    if report.unknown.len() > 0 {
        push_line(&mut lines, "".to_owned());
        push_line(
            &mut lines,
            "Honesty section \u{2014} mechanisms with NO recipe (these can still change your machine):".to_owned(),
        );
        push_finding_lines(&mut lines, &report.unknown, false);
    }
    let ghost tail = line_views(lines@);
    push_line(&mut lines, "".to_owned());
    push_line(&mut lines, "Freeze with: stasis freeze <recipe-id>...   (or --all)".to_owned());
    proof {
        let r = report@;
        let known_lines = finding_views(report.findings@).map_values(
            |f: FindingView|
                if true {
                    finding_line(f)
                } else {
                    unknown_line(f)
                },
        );
        assert(known_lines =~= r.findings.map_values(|f: FindingView| finding_line(f)));
        let unknown_lines = finding_views(report.unknown@).map_values(
            |f: FindingView|
                if false {
                    finding_line(f)
                } else {
                    unknown_line(f)
                },
        );
        assert(unknown_lines =~= r.unknown.map_values(|f: FindingView| unknown_line(f)));
        assert(head =~= seq![
            "Change Surface Report"@,
            "====================="@,
            "Installed applications: "@ + decimal(r.apps_total),
            ""@,
        ]);
        assert(line_views(lines@) =~= report_text_spec(r));
    }
    lines
}

} // verus!
