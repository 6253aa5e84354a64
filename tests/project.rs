use tmux_op::config::Config;
use tmux_op::project::{
    is_ignored_dir, is_manifest_name, resolve_project, resolve_projects, walk_reports_path,
    FoundManifest, ProjectConfig,
};
use tmux_op::text::{base_name, str_equal, text_contains};

fn config(name: Option<&str>, language: Option<&str>) -> ProjectConfig {
    ProjectConfig {
        name: name.map(|s| s.to_string()),
        language: language.map(|s| s.to_string()),
    }
}

fn components(path: &str) -> Vec<String> {
    path.split('/').filter(|s| !s.is_empty()).map(|s| s.to_string()).collect()
}

#[test]
fn default_name_is_directory_base_name() {
    let p = resolve_project(&config(None, None), "/a/b/myproj");
    assert_eq!(p.name, "myproj");
    assert_eq!(p.directory, "/a/b/myproj");
}

#[test]
fn declared_name_wins() {
    let p = resolve_project(&config(Some("Named"), None), "/a/b/myproj");
    assert_eq!(p.name, "Named");
}

#[test]
fn language_is_upper_cased() {
    for l in ["rust", "Rust", "RUST"] {
        let p = resolve_project(&config(None, Some(l)), "/p");
        assert_eq!(p.language, "RUST");
    }
}

#[test]
fn missing_language_is_unknown() {
    let p = resolve_project(&config(Some("x"), None), "/p");
    assert_eq!(p.language, "UNKNOWN");
}

#[test]
fn ignored_names() {
    for n in ["node_modules", "build", "target", "dist", "out"] {
        assert!(is_ignored_dir(n));
    }
    assert!(!is_ignored_dir("src"));
    assert!(!is_ignored_dir(".git"));
    assert!(!is_ignored_dir("outputs"));
}

#[test]
fn manifest_name_is_exact() {
    assert!(is_manifest_name(".dexproject"));
    assert!(!is_manifest_name("dexproject"));
    assert!(!is_manifest_name(".dexproject.bak"));
}

#[test]
fn node_modules_subtree_is_never_reported() {
    assert!(walk_reports_path(&components("home/u/code/app2/.dexproject")));
    assert!(!walk_reports_path(&components("home/u/code/app2/node_modules/x/.dexproject")));
    assert!(!walk_reports_path(&components("home/u/code/node_modules/.dexproject")));
    assert!(walk_reports_path(&components("home/u/code/.hidden/.dexproject")));
    assert!(!walk_reports_path(&components("home/u/code/app2/readme")));
    assert!(!walk_reports_path(&Vec::new()));
}

#[test]
fn scan_scenario_yields_two_projects() {
    let found = vec![
        FoundManifest {
            directory: "/home/u/code/app1".to_string(),
            config: Some(config(Some("App One"), Some("go"))),
        },
        FoundManifest { directory: "/home/u/code/app2".to_string(), config: Some(config(None, None)) },
    ];
    let nested = components("home/u/code/app2/node_modules/x/.dexproject");
    assert!(!walk_reports_path(&nested));
    let projects = resolve_projects(&found);
    assert_eq!(projects.len(), 2);
    assert_eq!(projects[0].name, "App One");
    assert_eq!(projects[0].language, "GO");
    assert_eq!(projects[0].directory, "/home/u/code/app1");
    assert_eq!(projects[1].name, "app2");
    assert_eq!(projects[1].language, "UNKNOWN");
    assert_eq!(projects[1].directory, "/home/u/code/app2");
}

#[test]
fn unparsed_manifest_is_dropped() {
    let found = vec![
        FoundManifest { directory: "/r/bad".to_string(), config: None },
        FoundManifest { directory: "/r/good".to_string(), config: Some(config(None, Some("c"))) },
    ];
    let projects = resolve_projects(&found);
    assert_eq!(projects.len(), 1);
    assert_eq!(projects[0].name, "good");
    assert_eq!(projects[0].language, "C");
}

#[test]
fn resolving_twice_gives_same_directories() {
    let found = vec![
        FoundManifest { directory: "/r/a".to_string(), config: Some(config(None, None)) },
        FoundManifest { directory: "/r/b".to_string(), config: Some(config(None, None)) },
    ];
    let first: Vec<String> = resolve_projects(&found).into_iter().map(|p| p.directory).collect();
    let second: Vec<String> = resolve_projects(&found).into_iter().map(|p| p.directory).collect();
    assert_eq!(first, second);
}

#[test]
fn base_name_of_paths() {
    assert_eq!(base_name("/a/b/myproj"), "myproj");
    assert_eq!(base_name("myproj"), "myproj");
    assert_eq!(base_name("/"), "");
    assert_eq!(base_name(""), "");
}

#[test]
fn string_helpers() {
    assert!(str_equal("abc", "abc"));
    assert!(!str_equal("abc", "abd"));
    assert!(!str_equal("abc", "ab"));
    assert!(text_contains("typescript", "pes"));
    assert!(text_contains("go", ""));
    assert!(!text_contains("go", "gol"));
    assert!(!text_contains("rust", "rt"));
}

#[test]
fn default_config_prefers_documents() {
    let c = Config::default_for("/home/u".to_string(), Some("/home/u/Documents".to_string()));
    assert_eq!(c.search_paths, vec!["/home/u/Documents".to_string()]);
    let c = Config::default_for("/home/u".to_string(), None);
    assert_eq!(c.search_paths, vec!["/home/u".to_string()]);
}
