use stasis::action::Action;
use stasis::inventory::{build_report, report_from_facts, report_lines, FixtureProbe, MachineFacts, SystemProbe};
use stasis::recipe::{Detect, Meta, RecipeFile};

fn recipe(id: &str, name: &str, uninstall: &[&str]) -> RecipeFile {
    RecipeFile {
        recipe: Meta {
            id: id.into(),
            name: name.into(),
            vendor: String::new(),
            format: 1,
            revision: 1,
            signature: "unsigned".into(),
            notes: String::new(),
        },
        detect: Detect { uninstall_names: uninstall.iter().map(|s| s.to_string()).collect(), paths: vec![] },
        actions: vec![Action::DisableService { service: "x".into() }],
    }
}

fn catalog() -> Vec<RecipeFile> {
    vec![
        recipe("chrome", "Google Chrome", &["Google Chrome"]),
        recipe("discord", "Discord", &["Discord"]),
        recipe("slack", "Slack", &["Slack"]),
        recipe("spotify", "Spotify", &["Spotify"]),
        recipe("vscode", "Visual Studio Code", &["Microsoft Visual Studio Code"]),
    ]
}

fn pair(a: &str, b: &str) -> (String, String) {
    (a.to_string(), b.to_string())
}

fn dev_machine() -> MachineFacts {
    MachineFacts {
        apps: vec![
            pair("Google Chrome", "126.0.6478.127"),
            pair("Microsoft Visual Studio Code (User)", "1.90.2"),
            pair("Spotify", "1.2.40"),
            pair("Slack", "4.38"),
        ],
        services: vec![
            pair("gupdate", "Google Update Service (gupdate)"),
            pair("gupdatem", "Google Update Service (gupdatem)"),
            pair("WidgetStudioUpdateSvc", "Widget Studio Updater"),
            pair("Spooler", "Print Spooler"),
        ],
        tasks: vec![
            "\\GoogleUpdateTaskMachineCore{1234}".to_string(),
            "\\OtherVendorUpdateTask".to_string(),
            "\\Defrag".to_string(),
        ],
        squirrel_dirs: vec![
            "C:\\Users\\dev\\AppData\\Local\\slack".to_string(),
            "C:\\Users\\dev\\AppData\\Local\\Discord".to_string(),
            "C:\\Users\\dev\\AppData\\Local\\SomeRandomApp".to_string(),
        ],
    }
}

#[test]
fn scan_json_output_parses() {
    let report = report_from_facts(&dev_machine(), &catalog());
    assert!(report.findings.len() >= 5);
    assert!(!report.unknown.is_empty());
}

#[test]
fn scan_report_is_complete_and_honest() {
    let probe = FixtureProbe { facts: dev_machine() };
    let report = build_report(&probe, &catalog()).unwrap();
    let stdout = report_lines(&report).join("\n");
    for needle in ["gupdate", "GoogleUpdateTaskMachineCore", "[chrome]", "[slack]", "[discord]"] {
        assert!(stdout.contains(needle), "scan missing `{needle}`:\n{stdout}");
    }
    assert!(stdout.contains("[vscode]"), "vscode in-app updater not reported:\n{stdout}");
    assert!(stdout.contains("[spotify]"), "spotify in-app updater not reported:\n{stdout}");
    assert!(stdout.contains("Honesty section"), "no honesty section:\n{stdout}");
    assert!(stdout.contains("WidgetStudioUpdateSvc"), "unknown service not flagged:\n{stdout}");
    assert!(stdout.contains("SomeRandomApp"), "unknown Squirrel app not flagged:\n{stdout}");
}

#[test]
fn report_sorts_findings_exactly() {
    let report = report_from_facts(&dev_machine(), &catalog());
    assert_eq!(report.apps_total, 4);
    let found: Vec<(String, String, Option<String>)> =
        report.findings.iter().map(|f| (f.mechanism.clone(), f.detail.clone(), f.recipe.clone())).collect();
    assert_eq!(
        found,
        vec![
            ("updater service".into(), "gupdate (Google Update Service (gupdate))".into(), Some("chrome".into())),
            ("updater service".into(), "gupdatem (Google Update Service (gupdatem))".into(), Some("chrome".into())),
            ("updater scheduled task".into(), "\\GoogleUpdateTaskMachineCore{1234}".into(), Some("chrome".into())),
            ("Squirrel self-updater".into(), "C:\\Users\\dev\\AppData\\Local\\slack\\Update.exe".into(), Some("slack".into())),
            (
                "Squirrel self-updater".into(),
                "C:\\Users\\dev\\AppData\\Local\\Discord\\Update.exe".into(),
                Some("discord".into())
            ),
            ("in-app updater".into(), "Spotify".into(), Some("spotify".into())),
            ("in-app updater".into(), "Visual Studio Code".into(), Some("vscode".into())),
        ]
    );
    let unknown: Vec<(String, String)> = report.unknown.iter().map(|f| (f.mechanism.clone(), f.detail.clone())).collect();
    assert_eq!(
        unknown,
        vec![
            ("updater service (unrecognized)".into(), "WidgetStudioUpdateSvc (Widget Studio Updater)".into()),
            ("updater scheduled task (unrecognized)".into(), "\\OtherVendorUpdateTask".into()),
            (
                "Squirrel self-updater (unrecognized app)".into(),
                "C:\\Users\\dev\\AppData\\Local\\SomeRandomApp\\Update.exe".into()
            ),
        ]
    );
    assert!(report.unknown.iter().all(|f| f.recipe.is_none()));
}

#[test]
fn fingerprint_without_recipe_is_unknown() {
    let facts = MachineFacts {
        apps: vec![],
        services: vec![pair("EDGEUPDATE", "Microsoft Edge Update")],
        tasks: vec!["\\MicrosoftEdgeUpdateTaskMachineUA".to_string(), "\\microsoftedgeupdatetaskx".to_string()],
        squirrel_dirs: vec![],
    };
    let report = report_from_facts(&facts, &catalog());
    assert!(report.findings.is_empty());
    let mech: Vec<&str> = report.unknown.iter().map(|f| f.mechanism.as_str()).collect();
    assert_eq!(
        mech,
        vec!["updater service", "updater scheduled task", "updater scheduled task (unrecognized)"]
    );
    let lines = report_lines(&report);
    assert!(lines.contains(&"No known update mechanisms found.".to_string()));
    assert!(lines.contains(&"  [??]  updater service \u{2014} EDGEUPDATE (Microsoft Edge Update)".to_string()));
}

#[test]
fn report_text_without_unknowns_has_no_honesty_section() {
    let facts = MachineFacts { apps: vec![pair("Slack", "1")], services: vec![], tasks: vec![], squirrel_dirs: vec![] };
    let report = report_from_facts(&facts, &catalog());
    let lines = report_lines(&report);
    assert_eq!(
        lines,
        vec![
            "Change Surface Report",
            "=====================",
            "Installed applications: 1",
            "",
            "Update mechanisms the catalog can silence:",
            "  [slack]  in-app updater \u{2014} Slack",
            "",
            "Freeze with: stasis freeze <recipe-id>...   (or --all)",
        ]
    );
}

#[test]
fn fixture_probe_reports_its_facts() {
    let probe = FixtureProbe { facts: dev_machine() };
    let f = probe.facts().unwrap();
    assert_eq!(f.services.len(), 4);
    assert_eq!(f.squirrel_dirs[2], "C:\\Users\\dev\\AppData\\Local\\SomeRandomApp");
}
