use stasis::action::Action;
use stasis::cli::{flag, opt_value, select_recipes};
use stasis::recipe::{Detect, Meta, RecipeFile};

fn args(v: &[&str]) -> Vec<String> {
    v.iter().map(|s| s.to_string()).collect()
}

fn recipe(id: &str) -> RecipeFile {
    RecipeFile {
        recipe: Meta {
            id: id.into(),
            name: id.into(),
            vendor: String::new(),
            format: 1,
            revision: 1,
            signature: "unsigned".into(),
            notes: String::new(),
        },
        detect: Detect::default(),
        actions: vec![Action::DisableService { service: "s".into() }],
    }
}

fn catalog() -> Vec<RecipeFile> {
    ["chrome", "discord", "slack", "spotify", "vscode"].iter().map(|id| recipe(id)).collect()
}

#[test]
fn flags_and_option_values() {
    let a = args(&["--fixture", "f.json", "--json"]);
    assert!(flag(&a, "--json"));
    assert!(!flag(&a, "--dry-run"));
    assert_eq!(opt_value(&a, "--fixture"), Some("f.json".to_string()));
    assert_eq!(opt_value(&args(&["--dir"]), "--dir"), None);
    assert_eq!(opt_value(&a, "--dir"), None);
}

#[test]
fn freeze_unknown_recipe_fails_clearly() {
    let err = select_recipes(&catalog(), &args(&["definitely-not-real", "--dry-run"])).unwrap_err();
    assert!(err.contains("no recipe with id"));
    assert_eq!(err, "no recipe with id `definitely-not-real` (see: stasis recipes)");
}

#[test]
fn freeze_selects_named_recipes_in_order() {
    let picked = select_recipes(&catalog(), &args(&["vscode", "chrome", "--dry-run", "slack"])).unwrap();
    assert_eq!(picked, vec![4, 0, 2]);
    let all = select_recipes(&catalog(), &args(&["--all", "nope"])).unwrap();
    assert_eq!(all, vec![0, 1, 2, 3, 4]);
    let none = select_recipes(&catalog(), &args(&["--dry-run"])).unwrap_err();
    assert_eq!(none, "say which apps to freeze: stasis freeze <recipe-id>... (or --all)\nknown ids: stasis recipes");
}
