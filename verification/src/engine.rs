//! Planning and execution.
//!
//! `plan()` turns recipes into resolved, human-auditable planned actions.
//! System actions (services, tasks, registry, firewall) go through the
//! `SystemBackend` trait, whose real implementation is Windows. File-based
//! actions (stub, block, JSON) are decided here, from facts the caller
//! gathered, as a list of file-system steps together with the undo record
//! that reverses them; the program around this library performs the steps.

use crate::action::{Action, ActionView, Undo, UndoView};
use crate::recipe::{RecipeFile, RecipeView};
use crate::util::{expand_result, expand_vars, expands_to, lookup_is, text_result};
use vstd::prelude::*;

verus! {

#[derive(Debug)]
pub struct PlannedAction {
    pub recipe_id: String,
    /// The action with %VAR%s resolved — exactly what will be done.
    pub action: Action,
}

pub struct PlannedView {
    pub recipe_id: Seq<char>,
    pub action: ActionView,
}

impl View for PlannedAction {
    type V = PlannedView;

    open spec fn view(&self) -> PlannedView {
        PlannedView { recipe_id: self.recipe_id@, action: self.action@ }
    }
}

pub open spec fn planned_views(v: Seq<PlannedAction>) -> Seq<PlannedView> {
    v.map_values(|p: PlannedAction| p@)
}

/// Resolves `%VAR%`s in one text field of an action.
pub open spec fn resolve_field(
    s: Seq<char>,
    env: spec_fn(Seq<char>) -> Option<Seq<char>>,
) -> Result<Seq<char>, Seq<char>> {
    expand_result(s, env)
}

/// An action with its path-like fields resolved: JSON files, stubbed and
/// blocked paths, and firewalled programs. Other actions are unchanged.
pub open spec fn resolve_spec(a: ActionView, env: spec_fn(Seq<char>) -> Option<Seq<char>>) -> Result<
    ActionView,
    Seq<char>,
> {
    match a {
        ActionView::SetJsonValue { file, pointer, value } => match resolve_field(file, env) {
            Ok(f) => Ok(ActionView::SetJsonValue { file: f, pointer, value }),
            Err(e) => Err(e),
        },
        ActionView::StubExecutable { path } => match resolve_field(path, env) {
            Ok(p) => Ok(ActionView::StubExecutable { path: p }),
            Err(e) => Err(e),
        },
        ActionView::BlockPath { path } => match resolve_field(path, env) {
            Ok(p) => Ok(ActionView::BlockPath { path: p }),
            Err(e) => Err(e),
        },
        ActionView::FirewallBlockProgram { program } => match resolve_field(program, env) {
            Ok(p) => Ok(ActionView::FirewallBlockProgram { program: p }),
            Err(e) => Err(e),
        },
        _ => Ok(a),
    }
}

/// The planned actions of one recipe, or the first resolution error, which
/// names the recipe.
pub open spec fn plan_recipe(
    id: Seq<char>,
    actions: Seq<ActionView>,
    env: spec_fn(Seq<char>) -> Option<Seq<char>>,
) -> Result<Seq<PlannedView>, Seq<char>>
    decreases actions.len(),
{
    if actions.len() == 0 {
        Ok(Seq::empty())
    } else {
        match plan_recipe(id, actions.drop_last(), env) {
            Err(e) => Err(e),
            Ok(done) => match resolve_spec(actions.last(), env) {
                Err(e) => Err("recipe `"@ + id + "`: "@ + e),
                Ok(a) => Ok(done.push(PlannedView { recipe_id: id, action: a })),
            },
        }
    }
}

/// The whole plan: every action of every recipe, in order, resolved.
pub open spec fn plan_spec(recipes: Seq<RecipeView>, env: spec_fn(Seq<char>) -> Option<Seq<char>>) -> Result<
    Seq<PlannedView>,
    Seq<char>,
>
    decreases recipes.len(),
{
    if recipes.len() == 0 {
        Ok(Seq::empty())
    } else {
        match plan_spec(recipes.drop_last(), env) {
            Err(e) => Err(e),
            Ok(done) => match plan_recipe(recipes.last().recipe.id, recipes.last().actions, env) {
                Err(e) => Err(e),
                Ok(more) => Ok(done + more),
            },
        }
    }
}

pub open spec fn action_result_view(r: Result<Action, String>) -> Result<ActionView, Seq<char>> {
    match r {
        Ok(a) => Ok(a@),
        Err(e) => Err(e@),
    }
}

pub open spec fn plan_result_view(r: Result<Vec<PlannedAction>, String>) -> Result<Seq<PlannedView>, Seq<char>> {
    match r {
        Ok(v) => Ok(planned_views(v@)),
        Err(e) => Err(e@),
    }
}

pub open spec fn ref_recipe_views(v: Seq<&RecipeFile>) -> Seq<RecipeView> {
    v.map_values(|r: &RecipeFile| r@)
}

/// The text field of an action that `plan` resolves, if it has one.
pub open spec fn field_to_resolve(a: ActionView) -> Option<Seq<char>> {
    match a {
        ActionView::SetJsonValue { file, .. } => Some(file),
        ActionView::StubExecutable { path } => Some(path),
        ActionView::BlockPath { path } => Some(path),
        ActionView::FirewallBlockProgram { program } => Some(program),
        _ => None,
    }
}

/// The action with its resolvable field replaced by the expansion `t`, or
/// the expansion's error.
pub open spec fn with_field(a: ActionView, t: Result<Seq<char>, Seq<char>>) -> Result<ActionView, Seq<char>> {
    match t {
        Err(e) => Err(e),
        Ok(v) => Ok(
            match a {
                ActionView::SetJsonValue { pointer, value, .. } => ActionView::SetJsonValue {
                    file: v,
                    pointer,
                    value,
                },
                ActionView::StubExecutable { .. } => ActionView::StubExecutable { path: v },
                ActionView::BlockPath { .. } => ActionView::BlockPath { path: v },
                ActionView::FirewallBlockProgram { .. } => ActionView::FirewallBlockProgram { program: v },
                _ => a,
            },
        ),
    }
}

/// `res` is a possible resolution of `a` with lookup `f`, each `%VAR%`
/// looked up by its own call.
pub open spec fn resolve_by<F: Fn(&str) -> Option<String>>(
    a: ActionView,
    f: F,
    res: Result<ActionView, Seq<char>>,
) -> bool {
    match field_to_resolve(a) {
        None => res == Ok::<ActionView, Seq<char>>(a),
        Some(fld) => exists|t: Result<Seq<char>, Seq<char>>| expands_to(fld, f, t) && res == #[trigger] with_field(a, t),
    }
}

/// One more action of recipe `id` after the planned actions `done`: its
/// possible resolution joins them, or its error (naming the recipe) ends
/// the plan; an earlier error stands.
pub open spec fn recipe_then<F: Fn(&str) -> Option<String>>(
    id: Seq<char>,
    done: Result<Seq<PlannedView>, Seq<char>>,
    a: ActionView,
    f: F,
    res: Result<Seq<PlannedView>, Seq<char>>,
) -> bool {
    match done {
        Err(e) => res == Err::<Seq<PlannedView>, Seq<char>>(e),
        Ok(d) => exists|one: Result<ActionView, Seq<char>>|
            #[trigger] resolve_by(a, f, one) && res == match one {
                Err(e) => Err("recipe `"@ + id + "`: "@ + e),
                Ok(x) => Ok(d.push(PlannedView { recipe_id: id, action: x })),
            },
    }
}

/// `res` is a possible plan of the actions of recipe `id` with lookup `f`.
pub open spec fn plan_recipe_by<F: Fn(&str) -> Option<String>>(
    id: Seq<char>,
    actions: Seq<ActionView>,
    f: F,
    res: Result<Seq<PlannedView>, Seq<char>>,
) -> bool
    decreases actions.len(),
{
    if actions.len() == 0 {
        res == Ok::<Seq<PlannedView>, Seq<char>>(Seq::empty())
    } else {
        exists|done: Result<Seq<PlannedView>, Seq<char>>|
            plan_recipe_by(id, actions.drop_last(), f, done) && #[trigger] recipe_then(id, done, actions.last(), f, res)
    }
}

/// One more recipe after the planned actions `done`.
pub open spec fn plan_then<F: Fn(&str) -> Option<String>>(
    done: Result<Seq<PlannedView>, Seq<char>>,
    r: RecipeView,
    f: F,
    res: Result<Seq<PlannedView>, Seq<char>>,
) -> bool {
    match done {
        Err(e) => res == Err::<Seq<PlannedView>, Seq<char>>(e),
        Ok(d) => exists|more: Result<Seq<PlannedView>, Seq<char>>|
            #[trigger] plan_recipe_by(r.recipe.id, r.actions, f, more) && res == match more {
                Err(e) => Err(e),
                Ok(m) => Ok(d + m),
            },
    }
}

/// `res` is a possible plan of `recipes` with lookup `f`: `plan_spec`, with
/// each `%VAR%` looked up by its own call of `f`.
pub open spec fn plan_by<F: Fn(&str) -> Option<String>>(
    recipes: Seq<RecipeView>,
    f: F,
    res: Result<Seq<PlannedView>, Seq<char>>,
) -> bool
    decreases recipes.len(),
{
    if recipes.len() == 0 {
        res == Ok::<Seq<PlannedView>, Seq<char>>(Seq::empty())
    } else {
        exists|done: Result<Seq<PlannedView>, Seq<char>>|
            plan_by(recipes.drop_last(), f, done) && #[trigger] plan_then(done, recipes.last(), f, res)
    }
}

proof fn lemma_plan_recipe_by_error<F: Fn(&str) -> Option<String>>(
    id: Seq<char>,
    actions: Seq<ActionView>,
    f: F,
    e: Seq<char>,
    j: int,
    k: int,
)
    requires
        0 <= j <= k <= actions.len(),
        plan_recipe_by(id, actions.take(j), f, Err(e)),
    ensures
        plan_recipe_by(id, actions.take(k), f, Err(e)),
    decreases k,
{
    if k > j {
        lemma_plan_recipe_by_error(id, actions, f, e, j, k - 1);
        assert(actions.take(k).drop_last() == actions.take(k - 1));
        assert(recipe_then(id, Err(e), actions.take(k).last(), f, Err(e)));
    }
}

proof fn lemma_plan_by_error<F: Fn(&str) -> Option<String>>(
    rv: Seq<RecipeView>,
    f: F,
    e: Seq<char>,
    i: int,
    k: int,
)
    requires
        0 <= i <= k <= rv.len(),
        plan_by(rv.take(i), f, Err(e)),
    ensures
        plan_by(rv.take(k), f, Err(e)),
    decreases k,
{
    if k > i {
        lemma_plan_by_error(rv, f, e, i, k - 1);
        assert(rv.take(k).drop_last() == rv.take(k - 1));
        assert(plan_then(Err(e), rv.take(k).last(), f, Err(e)));
    }
}

/// Planning resolves `%VAR%`s in every path-like field: the JSON file of a
/// JSON edit, the path of a stub or a blocker, and the program of a
/// firewall rule are replaced by their expansion (the other fields kept),
/// and a failed expansion fails the action; every other action is planned
/// as written.
pub proof fn law_plan_resolves_path_fields(a: ActionView, env: spec_fn(Seq<char>) -> Option<Seq<char>>)
    ensures
        match a {
            ActionView::SetJsonValue { file, pointer, value } => resolve_spec(a, env) == match expand_result(
                file,
                env,
            ) {
                Ok(f) => Ok(ActionView::SetJsonValue { file: f, pointer, value }),
                Err(e) => Err::<ActionView, Seq<char>>(e),
            },
            ActionView::StubExecutable { path } => resolve_spec(a, env) == match expand_result(path, env) {
                Ok(p) => Ok(ActionView::StubExecutable { path: p }),
                Err(e) => Err::<ActionView, Seq<char>>(e),
            },
            ActionView::BlockPath { path } => resolve_spec(a, env) == match expand_result(path, env) {
                Ok(p) => Ok(ActionView::BlockPath { path: p }),
                Err(e) => Err::<ActionView, Seq<char>>(e),
            },
            ActionView::FirewallBlockProgram { program } => resolve_spec(a, env) == match expand_result(
                program,
                env,
            ) {
                Ok(p) => Ok(ActionView::FirewallBlockProgram { program: p }),
                Err(e) => Err::<ActionView, Seq<char>>(e),
            },
            _ => resolve_spec(a, env) == Ok::<ActionView, Seq<char>>(a),
        },
{
}

/// The same for a lookup whose answers may vary from call to call: a
/// possible resolution of a path-like field is its possible expansion put
/// in place (or that expansion's error), and other actions resolve to
/// themselves.
pub proof fn law_plan_resolves_path_fields_by_lookup<F: Fn(&str) -> Option<String>>(
    a: ActionView,
    f: F,
    res: Result<ActionView, Seq<char>>,
)
    ensures
        match a {
            ActionView::SetJsonValue { file, pointer, value } => resolve_by(a, f, res) <==> exists|
                t: Result<Seq<char>, Seq<char>>,
            |
                #![trigger expands_to(file, f, t)]
                expands_to(file, f, t) && res == match t {
                    Ok(x) => Ok(ActionView::SetJsonValue { file: x, pointer, value }),
                    Err(e) => Err::<ActionView, Seq<char>>(e),
                },
            ActionView::StubExecutable { path } => resolve_by(a, f, res) <==> exists|t: Result<Seq<char>, Seq<char>>|
                #![trigger expands_to(path, f, t)]
                expands_to(path, f, t) && res == match t {
                    Ok(x) => Ok(ActionView::StubExecutable { path: x }),
                    Err(e) => Err::<ActionView, Seq<char>>(e),
                },
            ActionView::BlockPath { path } => resolve_by(a, f, res) <==> exists|t: Result<Seq<char>, Seq<char>>|
                #![trigger expands_to(path, f, t)]
                expands_to(path, f, t) && res == match t {
                    Ok(x) => Ok(ActionView::BlockPath { path: x }),
                    Err(e) => Err::<ActionView, Seq<char>>(e),
                },
            ActionView::FirewallBlockProgram { program } => resolve_by(a, f, res) <==> exists|
                t: Result<Seq<char>, Seq<char>>,
            |
                #![trigger expands_to(program, f, t)]
                expands_to(program, f, t) && res == match t {
                    Ok(x) => Ok(ActionView::FirewallBlockProgram { program: x }),
                    Err(e) => Err::<ActionView, Seq<char>>(e),
                },
            _ => resolve_by(a, f, res) <==> res == Ok::<ActionView, Seq<char>>(a),
        },
{
    match a {
        ActionView::SetJsonValue { file, pointer, value } => {
            lemma_resolve_by_explicit(a, f, res, file, |t: Result<Seq<char>, Seq<char>>| match t {
                Ok(x) => Ok(ActionView::SetJsonValue { file: x, pointer, value }),
                Err(e) => Err::<ActionView, Seq<char>>(e),
            });
        },
        ActionView::StubExecutable { path } => {
            lemma_resolve_by_explicit(a, f, res, path, |t: Result<Seq<char>, Seq<char>>| match t {
                Ok(x) => Ok(ActionView::StubExecutable { path: x }),
                Err(e) => Err::<ActionView, Seq<char>>(e),
            });
        },
        ActionView::BlockPath { path } => {
            lemma_resolve_by_explicit(a, f, res, path, |t: Result<Seq<char>, Seq<char>>| match t {
                Ok(x) => Ok(ActionView::BlockPath { path: x }),
                Err(e) => Err::<ActionView, Seq<char>>(e),
            });
        },
        ActionView::FirewallBlockProgram { program } => {
            lemma_resolve_by_explicit(a, f, res, program, |t: Result<Seq<char>, Seq<char>>| match t {
                Ok(x) => Ok(ActionView::FirewallBlockProgram { program: x }),
                Err(e) => Err::<ActionView, Seq<char>>(e),
            });
        },
        _ => {},
    }
}

proof fn lemma_resolve_by_explicit<F: Fn(&str) -> Option<String>>(
    a: ActionView,
    f: F,
    res: Result<ActionView, Seq<char>>,
    fld: Seq<char>,
    m: spec_fn(Result<Seq<char>, Seq<char>>) -> Result<ActionView, Seq<char>>,
)
    requires
        field_to_resolve(a) == Some(fld),
        forall|t: Result<Seq<char>, Seq<char>>| #[trigger] with_field(a, t) == m(t),
    ensures
        resolve_by(a, f, res) <==> exists|t: Result<Seq<char>, Seq<char>>|
            #![trigger expands_to(fld, f, t)]
            expands_to(fld, f, t) && res == m(t),
{
    if resolve_by(a, f, res) {
        let t = choose|t: Result<Seq<char>, Seq<char>>| expands_to(fld, f, t) && res == #[trigger] with_field(a, t);
        assert(expands_to(fld, f, t) && res == m(t));
    }
    if exists|t: Result<Seq<char>, Seq<char>>| #![trigger expands_to(fld, f, t)] expands_to(fld, f, t) && res == m(t) {
        let t = choose|t: Result<Seq<char>, Seq<char>>| #![trigger expands_to(fld, f, t)] expands_to(fld, f, t) && res == m(t);
        assert(res == with_field(a, t));
    }
}

fn resolve_action<F: Fn(&str) -> Option<String>>(a: &Action, lookup: &F) -> (r: Result<Action, String>)
    requires
        forall|n: &str| call_requires(*lookup, (n,)),
    ensures
        resolve_by(a@, *lookup, action_result_view(r)),
        forall|env: spec_fn(Seq<char>) -> Option<Seq<char>>|
            #![trigger lookup_is(*lookup, env)]
            lookup_is(*lookup, env) ==> action_result_view(r) == resolve_spec(a@, env),
{
    match a {
        Action::SetJsonValue { file, pointer, value } => {
            let t = expand_vars(file.as_str(), lookup);
            let r = match t {
                Err(e) => Err(e),
                Ok(f) => Ok(Action::SetJsonValue { file: f, pointer: pointer.clone(), value: value.clone() }),
            };
            assert(action_result_view(r) == with_field(a@, text_result(t)));
            r
        },
        Action::StubExecutable { path } => {
            let t = expand_vars(path.as_str(), lookup);
            let r = match t {
                Err(e) => Err(e),
                Ok(p) => Ok(Action::StubExecutable { path: p }),
            };
            assert(action_result_view(r) == with_field(a@, text_result(t)));
            r
        },
        Action::BlockPath { path } => {
            let t = expand_vars(path.as_str(), lookup);
            let r = match t {
                Err(e) => Err(e),
                Ok(p) => Ok(Action::BlockPath { path: p }),
            };
            assert(action_result_view(r) == with_field(a@, text_result(t)));
            r
        },
        Action::FirewallBlockProgram { program } => {
            let t = expand_vars(program.as_str(), lookup);
            let r = match t {
                Err(e) => Err(e),
                Ok(p) => Ok(Action::FirewallBlockProgram { program: p }),
            };
            assert(action_result_view(r) == with_field(a@, text_result(t)));
            r
        },
        _ => Ok(a.clone()),
    }
}

/// Resolve every %VAR% up front so the whole plan is auditable before
/// anything runs. A recipe whose variables don't resolve fails at plan time,
/// not halfway through an apply.
pub fn plan<F: Fn(&str) -> Option<String>>(recipes: &[&RecipeFile], lookup: &F) -> (r: Result<Vec<PlannedAction>, String>)
    requires
        forall|n: &str| call_requires(*lookup, (n,)),
    ensures
        plan_by(ref_recipe_views(recipes@), *lookup, plan_result_view(r)),
        forall|env: spec_fn(Seq<char>) -> Option<Seq<char>>|
            #![trigger lookup_is(*lookup, env)]
            lookup_is(*lookup, env) ==> plan_result_view(r) == plan_spec(ref_recipe_views(recipes@), env),
{
    let ghost rv = ref_recipe_views(recipes@);
    let mut out: Vec<PlannedAction> = Vec::new();
    let mut i: usize = 0;
    assert(rv.take(0) == Seq::<RecipeView>::empty());
    assert(planned_views(out@) == Seq::<PlannedView>::empty());
    while i < recipes.len()
        invariant
            i <= recipes.len(),
            rv == ref_recipe_views(recipes@),
            forall|n: &str| call_requires(*lookup, (n,)),
            forall|env: spec_fn(Seq<char>) -> Option<Seq<char>>|
                #![trigger lookup_is(*lookup, env)]
                lookup_is(*lookup, env) ==> plan_spec(rv.take(i as int), env) == Ok::<
                    Seq<PlannedView>,
                    Seq<char>,
                >(planned_views(out@)),
            plan_by(rv.take(i as int), *lookup, Ok(planned_views(out@))),
        decreases recipes.len() - i,
    {
        let r = recipes[i];
        let ghost before = planned_views(out@);
        let ghost av = r@.actions;
        let ghost mut done: Seq<PlannedView> = Seq::empty();
        let mut j: usize = 0;
        assert(av.take(0) == Seq::<ActionView>::empty());
        assert(before + Seq::<PlannedView>::empty() == before);
        while j < r.actions.len()
            invariant
                i < recipes.len(),
                j <= r.actions.len(),
                r == recipes@[i as int],
                rv == ref_recipe_views(recipes@),
                rv[i as int] == r@,
                forall|env: spec_fn(Seq<char>) -> Option<Seq<char>>|
                    #![trigger lookup_is(*lookup, env)]
                    lookup_is(*lookup, env) ==> plan_spec(rv.take(i as int), env) == Ok::<
                        Seq<PlannedView>,
                        Seq<char>,
                    >(before),
                av == r@.actions,
                av.len() == r.actions@.len(),
                forall|n: &str| call_requires(*lookup, (n,)),
                forall|env: spec_fn(Seq<char>) -> Option<Seq<char>>|
                    #![trigger lookup_is(*lookup, env)]
                    lookup_is(*lookup, env) ==> exists|done: Seq<PlannedView>|
                        plan_recipe(r@.recipe.id, av.take(j as int), env) == Ok::<
                            Seq<PlannedView>,
                            Seq<char>,
                        >(done) && planned_views(out@) == before + done,
                plan_by(rv.take(i as int), *lookup, Ok(before)),
                planned_views(out@) == before + done,
                plan_recipe_by(r@.recipe.id, av.take(j as int), *lookup, Ok(done)),
            decreases r.actions.len() - j,
        {
            assert(av.take(j + 1).drop_last() == av.take(j as int));
            assert(av.take(j + 1).last() == r.actions@[j as int]@);
            let resolved = resolve_action(&r.actions[j], lookup);
            match resolved {
                Err(e) => {
                    let mut msg = String::from_str("recipe `");
                    msg.append(r.recipe.id.as_str());
                    msg.append("`: ");
                    msg.append(e.as_str());
                    proof {
                        assert forall|env: spec_fn(Seq<char>) -> Option<Seq<char>>|
                            #![trigger lookup_is(*lookup, env)]
                            lookup_is(*lookup, env) implies plan_result_view(
                            Err::<Vec<PlannedAction>, String>(msg),
                        ) == plan_spec(rv, env) by {
                            lemma_plan_error(rv, i as int, j as int, env);
                        }
                        let id = r@.recipe.id;
                        let one = Err::<ActionView, Seq<char>>(e@);
                        assert(resolve_by(av[j as int], *lookup, one));
                        assert(recipe_then(id, Ok(done), av.take(j + 1).last(), *lookup, Err(msg@)));
                        assert(plan_recipe_by(id, av.take(j + 1), *lookup, Err(msg@)));
                        lemma_plan_recipe_by_error(id, av, *lookup, msg@, j + 1, av.len() as int);
                        assert(av.take(av.len() as int) == av);
                        assert(rv.take(i + 1).drop_last() == rv.take(i as int));
                        assert(rv.take(i + 1).last() == r@);
                        assert(plan_then(Ok(before), rv.take(i + 1).last(), *lookup, Err(msg@)));
                        assert(plan_by(rv.take(i + 1), *lookup, Err(msg@)));
                        lemma_plan_by_error(rv, *lookup, msg@, i + 1, rv.len() as int);
                        assert(rv.take(rv.len() as int) == rv);
                    }
                    return Err(msg);
                },
                Ok(a) => {
                    let ghost prev_out = planned_views(out@);
                    out.push(PlannedAction { recipe_id: r.recipe.id.clone(), action: a });
                    proof {
                        assert forall|env: spec_fn(Seq<char>) -> Option<Seq<char>>|
                            #![trigger lookup_is(*lookup, env)]
                            lookup_is(*lookup, env) implies exists|done: Seq<PlannedView>|
                                plan_recipe(r@.recipe.id, av.take(j + 1), env) == Ok::<
                                    Seq<PlannedView>,
                                    Seq<char>,
                                >(done) && planned_views(out@) == before + done by {
                            let done = choose|done: Seq<PlannedView>|
                                plan_recipe(r@.recipe.id, av.take(j as int), env) == Ok::<
                                    Seq<PlannedView>,
                                    Seq<char>,
                                >(done) && prev_out == before + done;
                            let nd = done.push(PlannedView { recipe_id: r@.recipe.id, action: a@ });
                            assert(planned_views(out@) == prev_out.push(
                                PlannedView { recipe_id: r@.recipe.id, action: a@ },
                            ));
                            assert(planned_views(out@) == before + nd);
                        }
                        let id = r@.recipe.id;
                        let one = Ok::<ActionView, Seq<char>>(a@);
                        assert(resolve_by(av[j as int], *lookup, one));
                        let nd = done.push(PlannedView { recipe_id: id, action: a@ });
                        assert(recipe_then(id, Ok(done), av.take(j + 1).last(), *lookup, Ok(nd)));
                        assert(plan_recipe_by(id, av.take(j + 1), *lookup, Ok(nd)));
                        assert(planned_views(out@) == prev_out.push(PlannedView { recipe_id: id, action: a@ }));
                        assert(planned_views(out@) == before + nd);
                        done = nd;
                    }
                },
            }
            j = j + 1;
        }
        proof {
            assert(av.take(j as int) == av);
            assert(rv.take(i + 1).drop_last() == rv.take(i as int));
            assert(rv.take(i + 1).last() == r@);
            assert(plan_recipe_by(r@.recipe.id, r@.actions, *lookup, Ok(done)));
            assert(plan_then(Ok(before), r@, *lookup, Ok(planned_views(out@))));
            assert(plan_by(rv.take(i + 1), *lookup, Ok(planned_views(out@))));
        }
        i = i + 1;
    }
    assert(rv.take(i as int) == rv);
    assert(plan_by(rv, *lookup, Ok(planned_views(out@))));
    Ok(out)
}

proof fn lemma_plan_error(
    rv: Seq<RecipeView>,
    i: int,
    j: int,
    env: spec_fn(Seq<char>) -> Option<Seq<char>>,
)
    requires
        0 <= i < rv.len(),
        0 <= j < rv[i].actions.len(),
        plan_spec(rv.take(i), env) is Ok,
        plan_recipe(rv[i].recipe.id, rv[i].actions.take(j), env) is Ok,
        resolve_spec(rv[i].actions[j], env) is Err,
    ensures
        plan_spec(rv, env) == Err::<Seq<PlannedView>, Seq<char>>(
            "recipe `"@ + rv[i].recipe.id + "`: "@ + resolve_spec(rv[i].actions[j], env)->Err_0,
        ),
{
    let e = "recipe `"@ + rv[i].recipe.id + "`: "@ + resolve_spec(rv[i].actions[j], env)->Err_0;
    assert(rv[i].actions.take(rv[i].actions.len() as int) == rv[i].actions);
    lemma_plan_recipe_error(rv[i].recipe.id, rv[i].actions, j, env, rv[i].actions.len() as int);
    lemma_plan_spec_error(rv, i, env, e, rv.len() as int);
    assert(rv.take(rv.len() as int) == rv);
}

proof fn lemma_plan_recipe_error(
    id: Seq<char>,
    actions: Seq<ActionView>,
    j: int,
    env: spec_fn(Seq<char>) -> Option<Seq<char>>,
    k: int,
)
    requires
        0 <= j < k <= actions.len(),
        plan_recipe(id, actions.take(j), env) is Ok,
        resolve_spec(actions[j], env) is Err,
    ensures
        plan_recipe(id, actions.take(k), env) == Err::<Seq<PlannedView>, Seq<char>>(
            "recipe `"@ + id + "`: "@ + resolve_spec(actions[j], env)->Err_0,
        ),
    decreases k,
{
    assert(actions.take(k).drop_last() == actions.take(k - 1));
    assert(actions.take(k).last() == actions[k - 1]);
    if k > j + 1 {
        lemma_plan_recipe_error(id, actions, j, env, k - 1);
    }
}

proof fn lemma_plan_spec_error(
    rv: Seq<RecipeView>,
    i: int,
    env: spec_fn(Seq<char>) -> Option<Seq<char>>,
    e: Seq<char>,
    k: int,
)
    requires
        0 <= i < k <= rv.len(),
        plan_spec(rv.take(i), env) is Ok,
        plan_recipe(rv[i].recipe.id, rv[i].actions, env) == Err::<Seq<PlannedView>, Seq<char>>(e),
    ensures
        plan_spec(rv.take(k), env) == Err::<Seq<PlannedView>, Seq<char>>(e),
    decreases k,
{
    assert(rv.take(k).drop_last() == rv.take(k - 1));
    assert(rv.take(k).last() == rv[k - 1]);
    if k > i + 1 {
        lemma_plan_spec_error(rv, i, env, e, k - 1);
    }
}

} // verus!

verus! {

/// Result of applying one planned action.
#[derive(Debug)]
pub struct Applied {
    pub undo: Undo,
    pub note: String,
}

pub struct AppliedView {
    pub undo: UndoView,
    pub note: Seq<char>,
}

impl View for Applied {
    type V = AppliedView;

    open spec fn view(&self) -> AppliedView {
        AppliedView { undo: self.undo@, note: self.note@ }
    }
}

/// Windows-only machinery, abstracted so the engine compiles and tests everywhere.
pub trait SystemBackend {
    fn disable_service(&mut self, service: &str) -> Result<Applied, String>;

    fn disable_scheduled_task(&mut self, task: &str, prefix: bool) -> Result<Vec<Applied>, String>;

    fn set_registry_value(&mut self, action: &Action) -> Result<Applied, String>;

    fn firewall_block_program(&mut self, program: &str) -> Result<Applied, String>;

    fn revert_system(&mut self, undo: &Undo) -> Result<(), String>;
}

/// Backend for platforms without the Windows machinery. File-based actions
/// still work (they're portable); system actions refuse honestly.
pub struct UnsupportedBackend;

impl SystemBackend for UnsupportedBackend {
    fn disable_service(&mut self, service: &str) -> (r: Result<Applied, String>)
        ensures
            r matches Err(e) && e@ == "services are a Windows mechanism; not available on this platform"@,
    {
        Err("services are a Windows mechanism; not available on this platform".to_owned())
    }

    fn disable_scheduled_task(&mut self, task: &str, prefix: bool) -> (r: Result<Vec<Applied>, String>)
        ensures
            r matches Err(e) && e@
                == "scheduled tasks are a Windows mechanism; not available on this platform"@,
    {
        Err("scheduled tasks are a Windows mechanism; not available on this platform".to_owned())
    }

    fn set_registry_value(&mut self, action: &Action) -> (r: Result<Applied, String>)
        ensures
            r matches Err(e) && e@ == "the registry is a Windows mechanism; not available on this platform"@,
    {
        Err("the registry is a Windows mechanism; not available on this platform".to_owned())
    }

    fn firewall_block_program(&mut self, program: &str) -> (r: Result<Applied, String>)
        ensures
            r matches Err(e) && e@ == "Windows Firewall is not available on this platform"@,
    {
        Err("Windows Firewall is not available on this platform".to_owned())
    }

    fn revert_system(&mut self, undo: &Undo) -> (r: Result<(), String>)
        ensures
            r matches Err(e) && e@ == "system undo is not available on this platform"@,
    {
        Err("system undo is not available on this platform".to_owned())
    }
}

} // verus!
