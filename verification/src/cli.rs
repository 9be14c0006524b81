//! Command-line decisions: flags, option values, and which recipes a
//! `freeze` names.

use crate::recipe::{RecipeFile, RecipeView, recipe_views};
use crate::text::starts_with;
use vstd::prelude::*;

verus! {

pub open spec fn arg_texts(v: Seq<String>) -> Seq<Seq<char>> {
    v.map_values(|s: String| s@)
}

/// Some argument is exactly `name`.
pub open spec fn has_flag(args: Seq<Seq<char>>, name: Seq<char>) -> bool {
    exists|i: int| 0 <= i < args.len() && args[i] == name
}

/// Index of the first argument that is exactly `name`.
pub open spec fn first_arg(args: Seq<Seq<char>>, name: Seq<char>) -> Option<int>
    decreases args.len(),
{
    if args.len() == 0 {
        None
    } else if args[0] == name {
        Some(0)
    } else {
        match first_arg(args.drop_first(), name) {
            Some(k) => Some(k + 1),
            None => None,
        }
    }
}

/// The argument right after the first `name`, if both are there.
pub open spec fn opt_value_spec(args: Seq<Seq<char>>, name: Seq<char>) -> Option<Seq<char>> {
    match first_arg(args, name) {
        Some(p) => if p + 1 < args.len() {
            Some(args[p + 1])
        } else {
            None
        },
        None => None,
    }
}

proof fn lemma_first_arg(args: Seq<Seq<char>>, name: Seq<char>)
    ensures
        match first_arg(args, name) {
            Some(p) => 0 <= p < args.len() && args[p] == name && forall|k: int| 0 <= k < p ==> args[k] != name,
            None => forall|k: int| 0 <= k < args.len() ==> args[k] != name,
        },
    decreases args.len(),
{
    if args.len() > 0 && args[0] != name {
        lemma_first_arg(args.drop_first(), name);
        assert forall|k: int| 1 <= k < args.len() implies args[k] == args.drop_first()[k - 1] by {}
    }
}

proof fn lemma_first_arg_at(args: Seq<Seq<char>>, name: Seq<char>, p: int)
    requires
        0 <= p < args.len(),
        args[p] == name,
        forall|k: int| 0 <= k < p ==> args[k] != name,
    ensures
        first_arg(args, name) == Some(p),
{
    lemma_first_arg(args, name);
    match first_arg(args, name) {
        Some(q) => {
            if q < p {
                assert(args[q] != name);
            } else if q > p {
                assert(args[p] != name);
            }
        },
        None => assert(args[p] != name),
    }
}

/// Whether `name` is among the arguments.
pub fn flag(args: &[String], name: &str) -> (r: bool)
    ensures
        r == has_flag(arg_texts(args@), name@),
{
    let ghost av = arg_texts(args@);
    let mut i: usize = 0;
    while i < args.len()
        invariant
            i <= args.len(),
            av == arg_texts(args@),
            forall|k: int| 0 <= k < i ==> av[k] != name@,
        decreases args.len() - i,
    {
        if crate::text::same_text(args[i].as_str(), name) {
            assert(av[i as int] == name@);
            return true;
        }
        i = i + 1;
    }
    false
}

/// The value given after option `name`.
pub fn opt_value(args: &[String], name: &str) -> (r: Option<String>)
    ensures
        r.deep_view() == opt_value_spec(arg_texts(args@), name@),
{
    let ghost av = arg_texts(args@);
    let mut i: usize = 0;
    while i < args.len()
        invariant
            i <= args.len(),
            av == arg_texts(args@),
            forall|k: int| 0 <= k < i ==> av[k] != name@,
        decreases args.len() - i,
    {
        if crate::text::same_text(args[i].as_str(), name) {
            proof {
                lemma_first_arg_at(av, name@, i as int);
            }
            if i + 1 < args.len() {
                return Some(args[i + 1].clone());
            } else {
                return None;
            }
        }
        i = i + 1;
    }
    proof {
        lemma_first_arg(av, name@);
    }
    None
}

/// The recipe ids a `freeze` names: its arguments that are not options.
pub open spec fn named_ids(args: Seq<Seq<char>>) -> Seq<Seq<char>> {
    args.filter(|a: Seq<char>| !starts_with(a, "--"@))
}

/// Index of the first recipe with id `id`.
pub open spec fn recipe_index(catalog: Seq<RecipeView>, id: Seq<char>) -> Option<int>
    decreases catalog.len(),
{
    if catalog.len() == 0 {
        None
    } else {
        match recipe_index(catalog.drop_last(), id) {
            Some(i) => Some(i),
            None => if catalog.last().recipe.id == id {
                Some(catalog.len() - 1)
            } else {
                None
            },
        }
    }
}

/// The recipes (by index) that `ids` name, in order; the first unknown id
/// is an error.
pub open spec fn select_ids(catalog: Seq<RecipeView>, ids: Seq<Seq<char>>) -> Result<Seq<int>, Seq<char>>
    decreases ids.len(),
{
    if ids.len() == 0 {
        Ok(Seq::empty())
    } else {
        match select_ids(catalog, ids.drop_last()) {
            Err(e) => Err(e),
            Ok(done) => match recipe_index(catalog, ids.last()) {
                None => Err("no recipe with id `"@ + ids.last() + "` (see: stasis recipes)"@),
                Some(i) => Ok(done.push(i)),
            },
        }
    }
}

/// Which recipes a `freeze` with these arguments applies: all with
/// `--all`, else those its ids name.
pub open spec fn select_spec(catalog: Seq<RecipeView>, args: Seq<Seq<char>>) -> Result<Seq<int>, Seq<char>> {
    if has_flag(args, "--all"@) {
        Ok(Seq::new(catalog.len(), |i: int| i))
    } else if named_ids(args).len() == 0 {
        Err("say which apps to freeze: stasis freeze <recipe-id>... (or --all)\nknown ids: stasis recipes"@)
    } else {
        select_ids(catalog, named_ids(args))
    }
}

pub open spec fn index_result_view(r: Result<Vec<usize>, String>) -> Result<Seq<int>, Seq<char>> {
    match r {
        Ok(v) => Ok(v@.map_values(|i: usize| i as int)),
        Err(e) => Err(e@),
    }
}

fn find_recipe(catalog: &[RecipeFile], id: &str) -> (r: Option<usize>)
    ensures
        match r {
            Some(i) => recipe_index(recipe_views(catalog@), id@) == Some(i as int),
            None => recipe_index(recipe_views(catalog@), id@) is None,
        },
{
    let ghost cv = recipe_views(catalog@);
    let mut i: usize = 0;
    assert(cv.take(0) =~= Seq::<RecipeView>::empty());
    while i < catalog.len()
        invariant
            i <= catalog.len(),
            cv == recipe_views(catalog@),
            recipe_index(cv.take(i as int), id@) is None,
        decreases catalog.len() - i,
    {
        assert(cv.take(i + 1).drop_last() == cv.take(i as int));
        assert(cv.take(i + 1).last() == cv[i as int]);
        if crate::text::same_text(catalog[i].recipe.id.as_str(), id) {
            proof {
                lemma_recipe_index_prefix(cv, id@, i as int + 1);
            }
            return Some(i);
        }
        i = i + 1;
    }
    assert(cv.take(i as int) == cv);
    None
}

proof fn lemma_recipe_index_prefix(cv: Seq<RecipeView>, id: Seq<char>, k: int)
    requires
        0 < k <= cv.len(),
        recipe_index(cv.take(k), id) is Some,
    ensures
        recipe_index(cv, id) == recipe_index(cv.take(k), id),
    decreases cv.len() - k,
{
    if k < cv.len() {
        assert(cv.take(k + 1).drop_last() == cv.take(k));
        lemma_recipe_index_prefix(cv, id, k + 1);
    } else {
        assert(cv.take(k) == cv);
    }
}

/// Decides which recipes a `freeze` applies, as indices into the catalog.
pub fn select_recipes(catalog: &[RecipeFile], args: &[String]) -> (r: Result<Vec<usize>, String>)
    ensures
        index_result_view(r) == select_spec(recipe_views(catalog@), arg_texts(args@)),
{
    let ghost cv = recipe_views(catalog@);
    let ghost av = arg_texts(args@);
    if flag(args, "--all") {
        let mut all: Vec<usize> = Vec::new();
        let mut i: usize = 0;
        while i < catalog.len()
            invariant
                i <= catalog.len(),
                all@.len() == i,
                forall|k: int| 0 <= k < i ==> all@[k] == k,
            decreases catalog.len() - i,
        {
            all.push(i);
            i = i + 1;
        }
        assert(all@.map_values(|i: usize| i as int) =~= Seq::new(cv.len(), |i: int| i));
        return Ok(all);
    }
    let mut picked: Vec<usize> = Vec::new();
    let mut named: usize = 0;
    let mut i: usize = 0;
    assert(av.take(0) =~= Seq::<Seq<char>>::empty());
    proof {
        reveal_with_fuel(Seq::<_>::filter, 1);
        assert(named_ids(av.take(0)) =~= Seq::<Seq<char>>::empty());
        assert(picked@.map_values(|k: usize| k as int) =~= Seq::<int>::empty());
    }
    while i < args.len()
        invariant
            i <= args.len(),
            !has_flag(av, "--all"@),
            cv == recipe_views(catalog@),
            av == arg_texts(args@),
            named == named_ids(av.take(i as int)).len(),
            select_ids(cv, named_ids(av.take(i as int))) == Ok::<Seq<int>, Seq<char>>(
                picked@.map_values(|k: usize| k as int),
            ),
        decreases args.len() - i,
    {
        let ghost before = picked@.map_values(|k: usize| k as int);
        assert(av.take(i + 1).drop_last() == av.take(i as int));
        assert(av.take(i + 1).last() == av[i as int]);
        proof {
            reveal_with_fuel(Seq::<_>::filter, 1);
        }
        if !crate::text::has_prefix(args[i].as_str(), "--") {
            assert(named_ids(av.take(i + 1)) == named_ids(av.take(i as int)).push(av[i as int]));
            assert(named_ids(av.take(i + 1)).drop_last() == named_ids(av.take(i as int)));
            assert(named_ids(av.take(i + 1)).last() == av[i as int]);
            match find_recipe(catalog, args[i].as_str()) {
                None => {
                    let mut msg = String::from_str("no recipe with id `");
                    msg.append(args[i].as_str());
                    msg.append("` (see: stasis recipes)");
                    proof {
                        lemma_select_error(cv, av, i as int + 1);
                    }
                    return Err(msg);
                },
                Some(k) => {
                    picked.push(k);
                    assert(picked@.map_values(|k: usize| k as int) == before.push(k as int));
                },
            }
            named = named + 1;
        } else {
            assert(named_ids(av.take(i + 1)) == named_ids(av.take(i as int)));
        }
        i = i + 1;
    }
    assert(av.take(i as int) == av);
    if named == 0 {
        return Err(
            "say which apps to freeze: stasis freeze <recipe-id>... (or --all)\nknown ids: stasis recipes".to_owned(),
        );
    }
    Ok(picked)
}

proof fn lemma_select_error(cv: Seq<RecipeView>, av: Seq<Seq<char>>, k: int)
    requires
        0 < k <= av.len(),
        select_ids(cv, named_ids(av.take(k))) is Err,
    ensures
        !has_flag(av, "--all"@) ==> select_spec(cv, av) == select_ids(cv, named_ids(av.take(k))),
    decreases av.len() - k,
{
    if k < av.len() {
        assert(av.take(k + 1).drop_last() == av.take(k));
        assert(av.take(k + 1).last() == av[k]);
        reveal_with_fuel(Seq::<_>::filter, 1);
        if !starts_with(av[k], "--"@) {
            assert(named_ids(av.take(k + 1)) == named_ids(av.take(k)).push(av[k]));
            assert(named_ids(av.take(k + 1)).drop_last() == named_ids(av.take(k)));
        } else {
            assert(named_ids(av.take(k + 1)) == named_ids(av.take(k)));
        }
        lemma_select_error(cv, av, k + 1);
    } else {
        assert(av.take(k) == av);
        assert(named_ids(av).len() > 0) by {
            if named_ids(av).len() == 0 {
                assert(named_ids(av) =~= Seq::<Seq<char>>::empty());
            }
        }
    }
}

proof fn lemma_recipe_index_spec(catalog: Seq<RecipeView>, id: Seq<char>)
    ensures
        match recipe_index(catalog, id) {
            Some(i) => 0 <= i < catalog.len() && catalog[i].recipe.id == id,
            None => forall|j: int| 0 <= j < catalog.len() ==> (#[trigger] catalog[j]).recipe.id != id,
        },
    decreases catalog.len(),
{
    if catalog.len() > 0 {
        lemma_recipe_index_spec(catalog.drop_last(), id);
        assert forall|j: int| 0 <= j < catalog.len() - 1 implies catalog.drop_last()[j] == catalog[j] by {}
        assert(catalog.last() == catalog[catalog.len() - 1]);
    }
}

proof fn lemma_select_ids_spec(catalog: Seq<RecipeView>, ids: Seq<Seq<char>>)
    ensures
        match select_ids(catalog, ids) {
            Ok(ix) => ix.len() == ids.len() && forall|k: int|
                0 <= k < ix.len() ==> 0 <= #[trigger] ix[k] < catalog.len() && catalog[ix[k]].recipe.id == ids[k],
            Err(_) => exists|k: int|
                0 <= k < ids.len() && forall|j: int|
                    0 <= j < catalog.len() ==> (#[trigger] catalog[j]).recipe.id != #[trigger] ids[k],
        },
    decreases ids.len(),
{
    if ids.len() > 0 {
        let front = ids.drop_last();
        lemma_select_ids_spec(catalog, front);
        lemma_recipe_index_spec(catalog, ids.last());
        let n = ids.len() - 1;
        assert(ids.last() == ids[n]);
        assert forall|k: int| 0 <= k < front.len() implies front[k] == ids[k] by {}
        match select_ids(catalog, front) {
            Ok(done) => {
                match recipe_index(catalog, ids.last()) {
                    Some(i) => {
                        let ix = done.push(i);
                        assert forall|k: int| 0 <= k < ix.len() implies 0 <= #[trigger] ix[k] < catalog.len()
                            && catalog[ix[k]].recipe.id == ids[k] by {
                            if k < n {
                                assert(ix[k] == done[k]);
                            }
                        }
                    },
                    None => {
                        assert(forall|j: int| 0 <= j < catalog.len() ==> (#[trigger] catalog[j]).recipe.id != ids[n]);
                    },
                }
            },
            Err(_) => {
                let k = choose|k: int|
                    0 <= k < front.len() && forall|j: int|
                        0 <= j < catalog.len() ==> (#[trigger] catalog[j]).recipe.id != #[trigger] front[k];
                assert(front[k] == ids[k]);
                assert forall|j: int| 0 <= j < catalog.len() implies (#[trigger] catalog[j]).recipe.id != ids[k] by {
                    assert(catalog[j].recipe.id != front[k]);
                }
            },
        }
    }
}

/// A `freeze` selects what it is asked for: with `--all`, every recipe of
/// the catalog in order; otherwise, one recipe per id it names, in the
/// order named, each with that id — and it fails only when some named id
/// belongs to no recipe of the catalog (or none is named).
pub proof fn law_freeze_selects_named_recipes(catalog: Seq<RecipeView>, args: Seq<Seq<char>>)
    ensures
        has_flag(args, "--all"@) ==> select_spec(catalog, args) == Ok::<Seq<int>, Seq<char>>(
            Seq::new(catalog.len(), |i: int| i),
        ),
        !has_flag(args, "--all"@) ==> match select_spec(catalog, args) {
            Ok(ix) => ix.len() == named_ids(args).len() && forall|k: int|
                0 <= k < ix.len() ==> 0 <= #[trigger] ix[k] < catalog.len() && catalog[ix[k]].recipe.id
                    == named_ids(args)[k],
            Err(_) => named_ids(args).len() == 0 || exists|k: int|
                0 <= k < named_ids(args).len() && forall|j: int|
                    0 <= j < catalog.len() ==> (#[trigger] catalog[j]).recipe.id != #[trigger] named_ids(args)[k],
        },
        !has_flag(args, "--all"@) && named_ids(args).len() > 0 && (forall|k: int|
            0 <= k < named_ids(args).len() ==> exists|j: int|
                0 <= j < catalog.len() && (#[trigger] catalog[j]).recipe.id == #[trigger] named_ids(args)[k])
            ==> select_spec(catalog, args) is Ok,
{
    lemma_select_ids_spec(catalog, named_ids(args));
    if !has_flag(args, "--all"@) && named_ids(args).len() > 0 {
        if select_spec(catalog, args) is Err {
            let ids = named_ids(args);
            let k = choose|k: int|
                0 <= k < ids.len() && forall|j: int|
                    0 <= j < catalog.len() ==> (#[trigger] catalog[j]).recipe.id != #[trigger] ids[k];
            if forall|k2: int| 0 <= k2 < ids.len() ==> exists|j: int|
                0 <= j < catalog.len() && (#[trigger] catalog[j]).recipe.id == #[trigger] ids[k2] {
                let j = choose|j: int| 0 <= j < catalog.len() && (#[trigger] catalog[j]).recipe.id == #[trigger] ids[k];
                assert(catalog[j].recipe.id != ids[k]);
            }
        }
    }
}

} // verus!
