//! Recipes: one app's update machinery and how to silence it. Reading the
//! TOML is done by the program around this library; here the parsed recipe
//! is validated and catalogs are put together. Format v1 is sealed —
//! validation is strict.

use crate::action::{Action, ActionView, unit_result_view, validate_spec};
use crate::text::{decimal, decimal_string, pad_left, pad_right, push_padded_left, push_padded_right};
use vstd::prelude::*;

verus! {

broadcast use vstd::seq_lib::group_to_multiset_ensures;

pub const FORMAT_VERSION: u32 = 1;

#[derive(Debug)]
pub struct RecipeFile {
    pub recipe: Meta,
    pub detect: Detect,
    pub actions: Vec<Action>,
}

#[derive(Debug)]
pub struct Meta {
    pub id: String,
    pub name: String,
    pub vendor: String,
    pub format: u32,
    pub revision: u32,
    /// Ed25519 over the canonical body; the literal "unsigned" until signing lands.
    pub signature: String,
    pub notes: String,
}

#[derive(Debug)]
pub struct Detect {
    /// Substring matches against installed-app display names.
    pub uninstall_names: Vec<String>,
    /// Existence checks, %VAR%-expandable.
    pub paths: Vec<String>,
}

impl Default for Detect {
    fn default() -> (d: Detect)
        ensures
            d.uninstall_names@.len() == 0,
            d.paths@.len() == 0,
    {
        Detect { uninstall_names: Vec::new(), paths: Vec::new() }
    }
}

pub struct MetaView {
    pub id: Seq<char>,
    pub name: Seq<char>,
    pub vendor: Seq<char>,
    pub format: u32,
    pub revision: u32,
    pub signature: Seq<char>,
    pub notes: Seq<char>,
}

pub struct RecipeView {
    pub recipe: MetaView,
    pub uninstall_names: Seq<Seq<char>>,
    pub paths: Seq<Seq<char>>,
    pub actions: Seq<ActionView>,
}

pub open spec fn texts(v: Seq<String>) -> Seq<Seq<char>> {
    v.map_values(|s: String| s@)
}

pub open spec fn action_views(v: Seq<Action>) -> Seq<ActionView> {
    v.map_values(|a: Action| a@)
}

impl View for Meta {
    type V = MetaView;

    open spec fn view(&self) -> MetaView {
        MetaView {
            id: self.id@,
            name: self.name@,
            vendor: self.vendor@,
            format: self.format,
            revision: self.revision,
            signature: self.signature@,
            notes: self.notes@,
        }
    }
}

impl View for RecipeFile {
    type V = RecipeView;

    open spec fn view(&self) -> RecipeView {
        RecipeView {
            recipe: self.recipe@,
            uninstall_names: texts(self.detect.uninstall_names@),
            paths: texts(self.detect.paths@),
            actions: action_views(self.actions@),
        }
    }
}

pub open spec fn recipe_views(v: Seq<RecipeFile>) -> Seq<RecipeView> {
    v.map_values(|r: RecipeFile| r@)
}

/// A character allowed in a recipe id.
pub open spec fn id_char(c: char) -> bool {
    ('a' <= c && c <= 'z') || ('0' <= c && c <= '9') || c == '-'
}

/// Recipe ids are non-empty lowercase-kebab ASCII.
pub open spec fn valid_id(id: Seq<char>) -> bool {
    id.len() > 0 && forall|i: int| 0 <= i < id.len() ==> id_char(#[trigger] id[i])
}

/// The error of the first action, in order, that fails validation.
pub open spec fn first_action_error(actions: Seq<ActionView>) -> Option<Seq<char>>
    decreases actions.len(),
{
    if actions.len() == 0 {
        None
    } else {
        match validate_spec(actions[0]) {
            Err(e) => Some(e),
            Ok(()) => first_action_error(actions.drop_first()),
        }
    }
}

/// What `validate` decides for a recipe.
pub open spec fn validate_recipe_spec(r: RecipeView) -> Result<(), Seq<char>> {
    let id = r.recipe.id;
    if r.recipe.format != FORMAT_VERSION {
        Err(
            "recipe format "@ + decimal(r.recipe.format as nat)
                + " is not supported (this build understands format 1)"@,
        )
    } else if !valid_id(id) {
        Err("recipe id `"@ + id + "` must be lowercase-kebab ascii"@)
    } else if r.actions.len() == 0 {
        Err("recipe `"@ + id + "` has no actions"@)
    } else {
        match first_action_error(r.actions) {
            Some(e) => Err("recipe `"@ + id + "`: "@ + e),
            None => Ok(()),
        }
    }
}

/// A recipe of the supported format is refused for its id exactly when the
/// id is empty or has a character other than an ASCII lowercase letter, an
/// ASCII digit or `-`; with such an id, actions present and all valid, it
/// is accepted.
pub proof fn law_recipe_id_is_lowercase_kebab(r: RecipeView)
    requires
        r.recipe.format == FORMAT_VERSION,
    ensures
        !(r.recipe.id.len() > 0 && forall|i: int|
            0 <= i < r.recipe.id.len() ==> ('a' <= #[trigger] r.recipe.id[i] && r.recipe.id[i] <= 'z') || (
            '0' <= r.recipe.id[i] && r.recipe.id[i] <= '9') || r.recipe.id[i] == '-') ==> validate_recipe_spec(r)
            == Err::<(), Seq<char>>("recipe id `"@ + r.recipe.id + "` must be lowercase-kebab ascii"@),
        (r.recipe.id.len() > 0 && forall|i: int|
            0 <= i < r.recipe.id.len() ==> ('a' <= #[trigger] r.recipe.id[i] && r.recipe.id[i] <= 'z') || (
            '0' <= r.recipe.id[i] && r.recipe.id[i] <= '9') || r.recipe.id[i] == '-') && r.actions.len() > 0
            && first_action_error(r.actions) is None ==> validate_recipe_spec(r) == Ok::<(), Seq<char>>(()),
{
}

fn is_id_char(c: char) -> (r: bool)
    ensures
        r == id_char(c),
{
    ('a' <= c && c <= 'z') || ('0' <= c && c <= '9') || c == '-'
}

fn is_valid_id(id: &str) -> (r: bool)
    ensures
        r == valid_id(id@),
{
    let v = crate::text::chars_of(id);
    if v.len() == 0 {
        return false;
    }
    let mut i: usize = 0;
    while i < v.len()
        invariant
            i <= v.len(),
            v@ == id@,
            forall|k: int| 0 <= k < i ==> id_char(#[trigger] v@[k]),
        decreases v.len() - i,
    {
        if !is_id_char(v[i]) {
            return false;
        }
        i = i + 1;
    }
    true
}

fn first_failure(actions: &Vec<Action>) -> (r: Option<String>)
    ensures
        r.deep_view() == first_action_error(action_views(actions@)),
{
    let ghost all = action_views(actions@);
    let mut i: usize = 0;
    assert(all.skip(0) == all);
    while i < actions.len()
        invariant
            i <= actions.len(),
            all == action_views(actions@),
            first_action_error(all) == first_action_error(all.skip(i as int)),
        decreases actions.len() - i,
    {
        assert(all.skip(i as int)[0] == actions@[i as int]@);
        assert(all.skip(i as int).drop_first() == all.skip(i + 1));
        match actions[i].validate() {
            Err(e) => {
                return Some(e);
            },
            Ok(()) => {},
        }
        i = i + 1;
    }
    None
}

/// Validate a parsed recipe against format v1.
pub fn validate(r: &RecipeFile) -> (res: Result<(), String>)
    ensures
        unit_result_view(res) == validate_recipe_spec(r@),
{
    if r.recipe.format != FORMAT_VERSION {
        let mut msg = String::from_str("recipe format ");
        let n = decimal_string(r.recipe.format as u64);
        msg.append(n.as_str());
        msg.append(" is not supported (this build understands format 1)");
        return Err(msg);
    }
    let id = &r.recipe.id;
    if !is_valid_id(id.as_str()) {
        let mut msg = String::from_str("recipe id `");
        msg.append(id.as_str());
        msg.append("` must be lowercase-kebab ascii");
        return Err(msg);
    }
    if r.actions.len() == 0 {
        let mut msg = String::from_str("recipe `");
        msg.append(id.as_str());
        msg.append("` has no actions");
        return Err(msg);
    }
    match first_failure(&r.actions) {
        Some(e) => {
            let mut msg = String::from_str("recipe `");
            msg.append(id.as_str());
            msg.append("`: ");
            msg.append(e.as_str());
            Err(msg)
        },
        None => Ok(()),
    }
}

/// What `accept` returns: the recipe when valid, else the error prefixed
/// with where the recipe came from.
pub open spec fn accept_spec(r: RecipeView, origin: Seq<char>) -> Result<RecipeView, Seq<char>> {
    match validate_recipe_spec(r) {
        Ok(()) => Ok(r),
        Err(e) => Err(origin + ": "@ + e),
    }
}

pub open spec fn recipe_result_view(r: Result<RecipeFile, String>) -> Result<RecipeView, Seq<char>> {
    match r {
        Ok(x) => Ok(x@),
        Err(e) => Err(e@),
    }
}

/// The second half of recipe parsing: a recipe read from `origin` is kept
/// only if it validates.
pub fn accept(r: RecipeFile, origin: &str) -> (res: Result<RecipeFile, String>)
    ensures
        recipe_result_view(res) == accept_spec(r@, origin@),
{
    match validate(&r) {
        Ok(()) => Ok(r),
        Err(e) => {
            let mut msg = origin.to_owned();
            msg.append(": ");
            msg.append(e.as_str());
            Err(msg)
        },
    }
}

/// An embedded recipe must declare the id it is filed under.
pub fn check_embedded(name: &str, r: RecipeFile) -> (res: Result<RecipeFile, String>)
    ensures
        recipe_result_view(res) == if r@.recipe.id == name@ {
            Ok::<RecipeView, Seq<char>>(r@)
        } else {
            Err("embedded recipe `"@ + name@ + "` declares mismatched id `"@ + r@.recipe.id + "`"@)
        },
{
    if crate::text::same_text(r.recipe.id.as_str(), name) {
        Ok(r)
    } else {
        let mut msg = String::from_str("embedded recipe `");
        msg.append(name);
        msg.append("` declares mismatched id `");
        msg.append(r.recipe.id.as_str());
        msg.append("`");
        Err(msg)
    }
}

/// `a` sorts strictly before `b` (the order of `String`: by characters,
/// a proper prefix first).
pub open spec fn text_before(a: Seq<char>, b: Seq<char>) -> bool
    decreases a.len(),
{
    if b.len() == 0 {
        false
    } else if a.len() == 0 {
        true
    } else if a[0] != b[0] {
        (a[0] as u32) < (b[0] as u32)
    } else {
        text_before(a.drop_first(), b.drop_first())
    }
}

/// Catalog order is the lexicographic order of ids by character code: `a`
/// comes before `b` exactly when, at the first position where they differ,
/// `a` has the smaller character, or `a` is a proper prefix of `b`.
pub proof fn law_id_order_is_lexicographic(a: Seq<char>, b: Seq<char>)
    ensures
        text_before(a, b) <==> (exists|i: int|
            0 <= i < a.len() && i < b.len() && a.take(i) == b.take(i) && (#[trigger] a[i] as u32) < (b[i] as u32))
            || (a.len() < b.len() && b.take(a.len() as int) == a),
    decreases a.len(),
{
    if b.len() == 0 {
    } else if a.len() == 0 {
        assert(b.take(0) =~= a);
    } else if a[0] != b[0] {
        if (a[0] as u32) < (b[0] as u32) {
            assert(a.take(0) =~= b.take(0));
        } else {
            assert forall|i: int|
                0 <= i < a.len() && i < b.len() && a.take(i) == b.take(i) implies !((#[trigger] a[i] as u32) < (
            b[i] as u32)) by {
                if i > 0 {
                    assert(a.take(i)[0] == b.take(i)[0]);
                }
            }
            if a.len() < b.len() && b.take(a.len() as int) == a {
                assert(b.take(a.len() as int)[0] == a[0]);
            }
        }
    } else {
        let a1 = a.drop_first();
        let b1 = b.drop_first();
        law_id_order_is_lexicographic(a1, b1);
        if exists|i: int|
            0 <= i < a1.len() && i < b1.len() && a1.take(i) == b1.take(i) && (#[trigger] a1[i] as u32) < (b1[i] as u32) {
            let i = choose|i: int|
                0 <= i < a1.len() && i < b1.len() && a1.take(i) == b1.take(i) && (#[trigger] a1[i] as u32) < (b1[i] as u32);
            assert(a.take(i + 1) =~= seq![a[0]] + a1.take(i));
            assert(b.take(i + 1) =~= seq![b[0]] + b1.take(i));
            assert(a[i + 1] == a1[i]);
        }
        if exists|i: int|
            0 <= i < a.len() && i < b.len() && a.take(i) == b.take(i) && (#[trigger] a[i] as u32) < (b[i] as u32) {
            let i = choose|i: int|
                0 <= i < a.len() && i < b.len() && a.take(i) == b.take(i) && (#[trigger] a[i] as u32) < (b[i] as u32);
            assert(i > 0);
            assert(a1.take(i - 1) =~= a.take(i).drop_first());
            assert(b1.take(i - 1) =~= b.take(i).drop_first());
            assert(a1[i - 1] == a[i]);
        }
        if a1.len() < b1.len() && b1.take(a1.len() as int) == a1 {
            assert(b.take(a.len() as int) =~= seq![b[0]] + b1.take(a1.len() as int));
            assert(a =~= seq![a[0]] + a1);
        }
        if a.len() < b.len() && b.take(a.len() as int) == a {
            assert(b1.take(a1.len() as int) =~= b.take(a.len() as int).drop_first());
        }
    }
}

pub proof fn lemma_text_before_irreflexive(a: Seq<char>)
    ensures
        !text_before(a, a),
    decreases a.len(),
{
    if a.len() > 0 {
        lemma_text_before_irreflexive(a.drop_first());
    }
}

pub proof fn lemma_text_before_asymmetric(a: Seq<char>, b: Seq<char>)
    ensures
        text_before(a, b) ==> !text_before(b, a),
    decreases a.len(),
{
    if a.len() > 0 && b.len() > 0 && a[0] == b[0] {
        lemma_text_before_asymmetric(a.drop_first(), b.drop_first());
    }
}

pub proof fn lemma_text_before_transitive(a: Seq<char>, b: Seq<char>, c: Seq<char>)
    ensures
        text_before(a, b) && text_before(b, c) ==> text_before(a, c),
    decreases a.len(),
{
    if a.len() > 0 && b.len() > 0 && c.len() > 0 && a[0] == b[0] && b[0] == c[0] {
        lemma_text_before_transitive(a.drop_first(), b.drop_first(), c.drop_first());
    }
}

/// Whether `a` sorts strictly before `b`.
pub fn is_before(a: &str, b: &str) -> (r: bool)
    ensures
        r == text_before(a@, b@),
{
    let av = crate::text::chars_of(a);
    let bv = crate::text::chars_of(b);
    let mut i: usize = 0;
    assert(av@.skip(0) == av@);
    assert(bv@.skip(0) == bv@);
    loop
        invariant
            i <= av.len(),
            i <= bv.len(),
            av@ == a@,
            bv@ == b@,
            text_before(a@, b@) == text_before(av@.skip(i as int), bv@.skip(i as int)),
        decreases av.len() - i,
    {
        if i == bv.len() {
            return false;
        }
        if i == av.len() {
            return true;
        }
        if av[i] != bv[i] {
            return (av[i] as u32) < (bv[i] as u32);
        }
        assert(av@.skip(i as int).drop_first() == av@.skip(i + 1));
        assert(bv@.skip(i as int).drop_first() == bv@.skip(i + 1));
        i = i + 1;
    }
}

/// `s` without the recipes whose id is `id`, order kept.
pub open spec fn without_id(s: Seq<RecipeView>, id: Seq<char>) -> Seq<RecipeView>
    decreases s.len(),
{
    if s.len() == 0 {
        s
    } else {
        let rest = without_id(s.drop_first(), id);
        if s[0].recipe.id == id {
            rest
        } else {
            seq![s[0]] + rest
        }
    }
}

/// `base` overridden by each recipe of `extra` in turn: a recipe replaces
/// every earlier one with the same id and joins at the end.
pub open spec fn merged(base: Seq<RecipeView>, extra: Seq<RecipeView>) -> Seq<RecipeView>
    decreases extra.len(),
{
    if extra.len() == 0 {
        base
    } else {
        without_id(merged(base, extra.drop_last()), extra.last().recipe.id).push(extra.last())
    }
}

/// Recipes in order of id, equal ids allowed next to each other.
pub open spec fn sorted_by_id(s: Seq<RecipeView>) -> bool {
    forall|i: int, j: int|
        0 <= i < j < s.len() ==> !text_before(#[trigger] s[j].recipe.id, #[trigger] s[i].recipe.id)
}

fn drop_id(v: Vec<RecipeFile>, id: &str) -> (r: Vec<RecipeFile>)
    ensures
        recipe_views(r@) == without_id(recipe_views(v@), id@),
{
    let ghost orig = recipe_views(v@);
    let mut v = v;
    let mut out: Vec<RecipeFile> = Vec::new();
    assert(recipe_views(out@) + without_id(recipe_views(v@), id@) == without_id(orig, id@));
    while v.len() > 0
        invariant
            recipe_views(out@) + without_id(recipe_views(v@), id@) == without_id(orig, id@),
        decreases v.len(),
    {
        let ghost before = recipe_views(v@);
        let x = v.remove(0);
        assert(recipe_views(v@) == before.drop_first());
        if !crate::text::same_text(x.recipe.id.as_str(), id) {
            let ghost o = recipe_views(out@);
            out.push(x);
            assert(recipe_views(out@) == o.push(before[0]));
            assert(o.push(before[0]) + without_id(before.drop_first(), id@) == o + (seq![before[0]]
                + without_id(before.drop_first(), id@)));
        }
    }
    assert(without_id(recipe_views(v@), id@) == recipe_views(v@));
    assert(recipe_views(out@) + Seq::<RecipeView>::empty() == recipe_views(out@));
    out
}

/// The recipes of `s` whose id is `id`, order kept.
pub open spec fn with_id(s: Seq<RecipeView>, id: Seq<char>) -> Seq<RecipeView>
    decreases s.len(),
{
    if s.len() == 0 {
        Seq::empty()
    } else {
        let rest = with_id(s.drop_last(), id);
        if s.last().recipe.id == id {
            rest.push(s.last())
        } else {
            rest
        }
    }
}

proof fn lemma_with_id_add(a: Seq<RecipeView>, b: Seq<RecipeView>, id: Seq<char>)
    ensures
        with_id(a + b, id) == with_id(a, id) + with_id(b, id),
    decreases b.len(),
{
    if b.len() == 0 {
        assert(a + b == a);
        assert(with_id(a, id) + Seq::<RecipeView>::empty() == with_id(a, id));
    } else {
        lemma_with_id_add(a, b.drop_last(), id);
        assert((a + b).drop_last() == a + b.drop_last());
        assert((a + b).last() == b.last());
        assert(with_id(a, id) + with_id(b.drop_last(), id).push(b.last()) == (with_id(a, id) + with_id(
            b.drop_last(),
            id,
        )).push(b.last()));
    }
}

proof fn lemma_with_id_none(s: Seq<RecipeView>, id: Seq<char>)
    requires
        forall|k: int| 0 <= k < s.len() ==> (#[trigger] s[k]).recipe.id != id,
    ensures
        with_id(s, id) == Seq::<RecipeView>::empty(),
    decreases s.len(),
{
    if s.len() > 0 {
        assert(s[s.len() - 1] == s.last());
        assert forall|k: int| 0 <= k < s.drop_last().len() implies (#[trigger] s.drop_last()[k]).recipe.id != id by {
            assert(s.drop_last()[k] == s[k]);
        }
        lemma_with_id_none(s.drop_last(), id);
    }
}

proof fn lemma_with_id_one(x: RecipeView, id: Seq<char>)
    ensures
        with_id(seq![x], id) == (if x.recipe.id == id { seq![x] } else { Seq::<RecipeView>::empty() }),
{
    reveal_with_fuel(with_id, 2);
    assert(seq![x].drop_last() == Seq::<RecipeView>::empty());
    assert(seq![x].last() == x);
    assert(Seq::<RecipeView>::empty().push(x) == seq![x]);
}

fn insertion_point(sorted: &Vec<RecipeFile>, id: &str) -> (p: usize)
    ensures
        p <= sorted.len(),
        forall|k: int| 0 <= k < p ==> !text_before(id@, #[trigger] sorted@[k]@.recipe.id),
        p < sorted.len() ==> text_before(id@, sorted@[p as int]@.recipe.id),
{
    let mut p: usize = 0;
    while p < sorted.len()
        invariant
            p <= sorted.len(),
            forall|k: int| 0 <= k < p ==> !text_before(id@, #[trigger] sorted@[k]@.recipe.id),
        decreases sorted.len() - p,
    {
        if is_before(id, sorted[p].recipe.id.as_str()) {
            return p;
        }
        p = p + 1;
    }
    p
}

fn sort_by_id(v: Vec<RecipeFile>) -> (r: Vec<RecipeFile>)
    ensures
        sorted_by_id(recipe_views(r@)),
        recipe_views(r@).to_multiset() == recipe_views(v@).to_multiset(),
        forall|id: Seq<char>| #[trigger] with_id(recipe_views(r@), id) == with_id(recipe_views(v@), id),
{
    let ghost orig = recipe_views(v@);
    let mut rest = v;
    let mut sorted: Vec<RecipeFile> = Vec::new();
    assert(recipe_views(sorted@).to_multiset().add(recipe_views(rest@).to_multiset()) =~= orig.to_multiset());
    assert forall|id: Seq<char>| #[trigger] with_id(orig, id) == with_id(recipe_views(sorted@), id) + with_id(
        recipe_views(rest@),
        id,
    ) by {
        assert(recipe_views(sorted@) == Seq::<RecipeView>::empty());
        assert(Seq::<RecipeView>::empty() + with_id(orig, id) == with_id(orig, id));
    }
    while rest.len() > 0
        invariant
            sorted_by_id(recipe_views(sorted@)),
            recipe_views(sorted@).to_multiset().add(recipe_views(rest@).to_multiset()) == orig.to_multiset(),
            forall|id: Seq<char>| #[trigger] with_id(orig, id) == with_id(recipe_views(sorted@), id) + with_id(
                recipe_views(rest@),
                id,
            ),
        decreases rest.len(),
    {
        let ghost rv = recipe_views(rest@);
        let ghost sv = recipe_views(sorted@);
        let x = rest.remove(0);
        assert(recipe_views(rest@) == rv.remove(0));
        proof {
            vstd::seq_lib::to_multiset_remove(rv, 0);
        }
        let p = insertion_point(&sorted, x.recipe.id.as_str());
        let ghost xv = x@;
        sorted.insert(p, x);
        assert(recipe_views(sorted@) == sv.insert(p as int, xv));
        proof {
            vstd::seq_lib::to_multiset_insert(sv, p as int, xv);
            assert(recipe_views(sorted@).to_multiset().add(recipe_views(rest@).to_multiset()) =~= orig.to_multiset());
            let nv = recipe_views(sorted@);
            let rv1 = recipe_views(rest@);
            assert(rv == seq![xv] + rv1);
            assert(nv == sv.take(p as int) + seq![xv] + sv.skip(p as int));
            assert(sv == sv.take(p as int) + sv.skip(p as int));
            assert forall|id: Seq<char>| #[trigger] with_id(orig, id) == with_id(nv, id) + with_id(rv1, id) by {
                lemma_with_id_add(seq![xv], rv1, id);
                lemma_with_id_one(xv, id);
                lemma_with_id_add(sv.take(p as int) + seq![xv], sv.skip(p as int), id);
                lemma_with_id_add(sv.take(p as int), seq![xv], id);
                lemma_with_id_add(sv.take(p as int), sv.skip(p as int), id);
                if xv.recipe.id == id {
                    let tail = sv.skip(p as int);
                    assert forall|k: int| 0 <= k < tail.len() implies (#[trigger] tail[k]).recipe.id != id by {
                        assert(tail[k] == sv[p + k]);
                        assert(text_before(xv.recipe.id, sv[p as int].recipe.id));
                        lemma_text_before_irreflexive(xv.recipe.id);
                        if k > 0 {
                            assert(!text_before(sv[p + k].recipe.id, sv[p as int].recipe.id));
                        }
                    }
                    lemma_with_id_none(tail, id);
                    assert(with_id(sv.take(p as int), id) + seq![xv] + Seq::<RecipeView>::empty()
                        == with_id(sv.take(p as int), id) + seq![xv]);
                    assert(with_id(sv.take(p as int), id) + Seq::<RecipeView>::empty() == with_id(sv.take(p as int), id));
                    assert(with_id(sv.take(p as int), id) + seq![xv] + with_id(rv1, id) == with_id(
                        sv.take(p as int),
                        id,
                    ) + (seq![xv] + with_id(rv1, id)));
                } else {
                    assert(with_id(sv.take(p as int), id) + Seq::<RecipeView>::empty() == with_id(sv.take(p as int), id));
                    assert(Seq::<RecipeView>::empty() + with_id(rv1, id) == with_id(rv1, id));
                }
            }
            assert forall|i: int, j: int| 0 <= i < j < nv.len() implies !text_before(
                #[trigger] nv[j].recipe.id,
                #[trigger] nv[i].recipe.id,
            ) by {
                if j < p {
                    assert(nv[i] == sv[i] && nv[j] == sv[j]);
                } else if j == p {
                    assert(nv[j] == xv);
                    assert(nv[i] == sv[i]);
                } else if i == p {
                    assert(nv[i] == xv);
                    assert(nv[j] == sv[j - 1]);
                    assert(text_before(xv.recipe.id, sv[p as int].recipe.id));
                    if j - 1 > p {
                        assert(!text_before(sv[j - 1].recipe.id, sv[p as int].recipe.id));
                    }
                    lemma_text_before_asymmetric(xv.recipe.id, sv[p as int].recipe.id);
                    lemma_text_before_transitive(sv[j - 1].recipe.id, xv.recipe.id, sv[p as int].recipe.id);
                } else if i < p {
                    assert(nv[i] == sv[i] && nv[j] == sv[j - 1]);
                } else {
                    assert(nv[i] == sv[i - 1] && nv[j] == sv[j - 1]);
                }
            }
        }
    }
    assert(recipe_views(rest@).to_multiset() =~= vstd::multiset::Multiset::empty());
    assert(recipe_views(sorted@).to_multiset() =~= orig.to_multiset());
    assert forall|id: Seq<char>| #[trigger] with_id(recipe_views(sorted@), id) == with_id(orig, id) by {
        assert(recipe_views(rest@) == Seq::<RecipeView>::empty());
        assert(with_id(recipe_views(sorted@), id) + Seq::<RecipeView>::empty() == with_id(recipe_views(sorted@), id));
    }
    sorted
}

/// The catalog: `base` overridden by each recipe of `extra` in turn (a
/// recipe with an id already present replaces it), then ordered by id.
/// This is how catalog updates supersede burned-in knowledge.
pub fn merge_catalog(base: Vec<RecipeFile>, extra: Vec<RecipeFile>) -> (r: Vec<RecipeFile>)
    ensures
        sorted_by_id(recipe_views(r@)),
        recipe_views(r@).to_multiset() == merged(recipe_views(base@), recipe_views(extra@)).to_multiset(),
        forall|id: Seq<char>|
            #[trigger] with_id(recipe_views(r@), id) == with_id(merged(recipe_views(base@), recipe_views(extra@)), id),
{
    let ghost bv = recipe_views(base@);
    let ghost ev = recipe_views(extra@);
    let mut recipes = base;
    let mut extra = extra;
    let ghost mut done: int = 0;
    assert(ev.take(0) =~= Seq::<RecipeView>::empty());
    while extra.len() > 0
        invariant
            0 <= done <= ev.len(),
            recipe_views(extra@) == ev.skip(done),
            recipe_views(recipes@) == merged(bv, ev.take(done)),
        decreases extra.len(),
    {
        let ghost xs = recipe_views(extra@);
        let x = extra.remove(0);
        assert(recipe_views(extra@) == xs.drop_first());
        assert(xs[0] == ev[done]);
        let id = x.recipe.id.clone();
        recipes = drop_id(recipes, id.as_str());
        let ghost m = recipe_views(recipes@);
        recipes.push(x);
        proof {
            assert(recipe_views(recipes@) == m.push(ev[done]));
            assert(ev.take(done + 1).drop_last() == ev.take(done));
            assert(ev.take(done + 1).last() == ev[done]);
            assert(ev.skip(done).drop_first() == ev.skip(done + 1));
            done = done + 1;
        }
    }
    assert(ev.take(done) == ev);
    sort_by_id(recipes)
}

/// A recipe from `extra` overrides: after merging, the last recipe of
/// `extra` is present and no other recipe has its id.
pub proof fn law_later_recipe_overrides(base: Seq<RecipeView>, extra: Seq<RecipeView>)
    requires
        extra.len() > 0,
    ensures
        merged(base, extra).contains(extra.last()),
        forall|i: int|
            0 <= i < merged(base, extra).len() && (#[trigger] merged(base, extra)[i]).recipe.id
                == extra.last().recipe.id ==> merged(base, extra)[i] == extra.last(),
{
    let m = merged(base, extra.drop_last());
    let id = extra.last().recipe.id;
    lemma_without_id(m, id);
    let w = without_id(m, id);
    assert(merged(base, extra)[w.len() as int] == extra.last());
}

proof fn lemma_without_id(s: Seq<RecipeView>, id: Seq<char>)
    ensures
        forall|i: int| 0 <= i < without_id(s, id).len() ==> (#[trigger] without_id(s, id)[i]).recipe.id != id,
    decreases s.len(),
{
    if s.len() > 0 {
        lemma_without_id(s.drop_first(), id);
        let rest = without_id(s.drop_first(), id);
        if s[0].recipe.id != id {
            assert forall|i: int| 0 <= i < without_id(s, id).len() implies (
            #[trigger] without_id(s, id)[i]).recipe.id != id by {
                if i > 0 {
                    assert(without_id(s, id)[i] == rest[i - 1]);
                }
            }
        }
    }
}

/// How the catalog listing shows one recipe: id, name, revision, number
/// of actions, and whether it is signed.
pub open spec fn catalog_line_spec(r: RecipeView) -> Seq<char> {
    "  "@ + pad_right(r.recipe.id, 20) + " "@ + pad_right(r.recipe.name, 28) + " rev "@ + pad_right(
        decimal(r.recipe.revision as nat),
        3,
    ) + " "@ + pad_left(decimal(r.actions.len()), 2) + " action(s)  ["@ + if r.recipe.signature == "unsigned"@ {
        "unsigned"@
    } else {
        "signed"@
    } + "]"@
}

/// The catalog listing's line for one recipe.
pub fn catalog_line(r: &RecipeFile) -> (s: String)
    ensures
        s@ == catalog_line_spec(r@),
{
    let mut s = String::from_str("  ");
    push_padded_right(&mut s, r.recipe.id.as_str(), 20);
    s.append(" ");
    push_padded_right(&mut s, r.recipe.name.as_str(), 28);
    s.append(" rev ");
    let rev = decimal_string(r.recipe.revision as u64);
    push_padded_right(&mut s, rev.as_str(), 3);
    s.append(" ");
    let n = decimal_string(r.actions.len() as u64);
    push_padded_left(&mut s, n.as_str(), 2);
    s.append(" action(s)  [");
    if crate::text::same_text(r.recipe.signature.as_str(), "unsigned") {
        s.append("unsigned");
    } else {
        s.append("signed");
    }
    s.append("]");
    s
}

/// The catalog listing's heading.
pub fn catalog_heading(count: usize) -> (s: String)
    ensures
        s@ == "Recipe catalog \u{2014} format v1, "@ + decimal(count as nat) + " recipe(s):"@,
{
    let mut s = String::from_str("Recipe catalog \u{2014} format v1, ");
    let n = decimal_string(count as u64);
    s.append(n.as_str());
    s.append(" recipe(s):");
    s
}

} // verus!
