use stasis::action::{Action, MatchMode};
use stasis::recipe::{accept, catalog_heading, catalog_line, check_embedded, merge_catalog, validate, Detect, Meta, RecipeFile};

fn recipe(id: &str, name: &str, actions: Vec<Action>) -> RecipeFile {
    RecipeFile {
        recipe: Meta {
            id: id.into(),
            name: name.into(),
            vendor: String::new(),
            format: 1,
            revision: 1,
            signature: "unsigned".into(),
            notes: String::new(),
        },
        detect: Detect::default(),
        actions,
    }
}

fn svc(name: &str) -> Action {
    Action::DisableService { service: name.into() }
}

#[test]
fn valid_recipe_passes() {
    assert_eq!(validate(&recipe("notepad-plus-plus", "Notepad++", vec![svc("x")])), Ok(()));
}

#[test]
fn recipe_format_must_be_one() {
    let mut r = recipe("chrome", "Google Chrome", vec![svc("gupdate")]);
    r.recipe.format = 2;
    assert_eq!(
        validate(&r),
        Err("recipe format 2 is not supported (this build understands format 1)".to_string())
    );
}

#[test]
fn recipe_id_must_be_lowercase_kebab() {
    for id in ["", "Chrome", "my_app", "edge!"] {
        let r = recipe(id, "x", vec![svc("s")]);
        assert_eq!(validate(&r), Err(format!("recipe id `{id}` must be lowercase-kebab ascii")));
    }
}

#[test]
fn recipe_needs_actions_and_valid_ones() {
    assert_eq!(validate(&recipe("zoom", "Zoom", vec![])), Err("recipe `zoom` has no actions".to_string()));
    let r = recipe(
        "zoom",
        "Zoom",
        vec![svc("ok"), Action::DisableScheduledTask { task: " ".into(), match_mode: MatchMode::Exact }, svc("")],
    );
    assert_eq!(validate(&r), Err("recipe `zoom`: disable_scheduled_task: empty task name".to_string()));
}

#[test]
fn accept_names_the_origin() {
    let r = recipe("zoom", "Zoom", vec![]);
    assert_eq!(accept(r, "embedded:zoom").unwrap_err(), "embedded:zoom: recipe `zoom` has no actions");
    let ok = accept(recipe("zoom", "Zoom", vec![svc("z")]), "x").unwrap();
    assert_eq!(ok.recipe.id, "zoom");
}

#[test]
fn embedded_recipe_id_must_match_its_name() {
    let r = recipe("edge", "Edge", vec![svc("e")]);
    assert_eq!(
        check_embedded("chrome", r).unwrap_err(),
        "embedded recipe `chrome` declares mismatched id `edge`"
    );
    assert!(check_embedded("edge", recipe("edge", "Edge", vec![svc("e")])).is_ok());
}

#[test]
fn directory_recipe_overrides_embedded_one_and_catalog_is_sorted() {
    let base = vec![
        recipe("zoom", "Zoom", vec![svc("z")]),
        recipe("chrome", "Chrome old", vec![svc("a")]),
        recipe("edge", "Edge", vec![svc("e")]),
    ];
    let extra = vec![recipe("chrome", "Chrome new", vec![svc("b")]), recipe("slack", "Slack", vec![svc("s")])];
    let merged = merge_catalog(base, extra);
    let ids: Vec<&str> = merged.iter().map(|r| r.recipe.id.as_str()).collect();
    assert_eq!(ids, vec!["chrome", "edge", "slack", "zoom"]);
    assert_eq!(merged[0].recipe.name, "Chrome new");
}

#[test]
fn catalog_sort_puts_prefix_first() {
    let merged = merge_catalog(
        vec![recipe("github-desktop", "G", vec![svc("g")]), recipe("git", "g", vec![svc("g")])],
        vec![],
    );
    let ids: Vec<&str> = merged.iter().map(|r| r.recipe.id.as_str()).collect();
    assert_eq!(ids, vec!["git", "github-desktop"]);
}

#[test]
fn catalog_listing_lines() {
    let r = recipe("chrome", "Google Chrome", vec![svc("gupdate"), svc("gupdatem")]);
    assert_eq!(
        catalog_line(&r),
        format!("  {:<20} {:<28} rev {:<3} {:>2} action(s)  [{}]", "chrome", "Google Chrome", 1, 2, "unsigned")
    );
    let mut s = recipe("a-very-long-recipe-identifier", "n", vec![svc("x")]);
    s.recipe.signature = "c2ln".into();
    s.recipe.revision = 1234;
    assert_eq!(
        catalog_line(&s),
        format!("  {:<20} {:<28} rev {:<3} {:>2} action(s)  [{}]", "a-very-long-recipe-identifier", "n", 1234, 1, "signed")
    );
    assert_eq!(catalog_heading(10), "Recipe catalog \u{2014} format v1, 10 recipe(s):");
}

#[test]
fn catalog_sort_keeps_equal_ids_in_merge_order() {
    let merged = merge_catalog(
        vec![
            recipe("zoom", "Z first", vec![svc("a")]),
            recipe("chrome", "C", vec![svc("c")]),
            recipe("zoom", "Z second", vec![svc("b")]),
        ],
        vec![],
    );
    let names: Vec<&str> = merged.iter().map(|r| r.recipe.name.as_str()).collect();
    assert_eq!(names, vec!["C", "Z first", "Z second"]);
}
