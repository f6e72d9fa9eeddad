use ubuntu_config_scripts::deps_manager::{
    dependencies_from_toml, duplicate_dependency_name, extract_version, install_command,
    is_problematic_license, licenses_from_json,
    outdated_from_json, Dependency, PackageManager, UpdateResult,
};

#[test]
fn install_commands() {
    assert_eq!(install_command(PackageManager::Apt, "git"), vec!["sudo", "apt", "install", "-y", "git"]);
    assert_eq!(install_command(PackageManager::Dnf, "make"), vec!["sudo", "dnf", "install", "-y", "make"]);
    assert_eq!(install_command(PackageManager::Yum, "make"), vec!["sudo", "yum", "install", "-y", "make"]);
    assert_eq!(
        install_command(PackageManager::Pacman, "rustc"),
        vec!["sudo", "pacman", "-S", "--noconfirm", "rustc"]
    );
}

#[test]
fn duplicate_lines() {
    assert_eq!(duplicate_dependency_name("syn v1.0.109"), Some("syn".to_string()));
    assert_eq!(duplicate_dependency_name("│   └── syn v2.0.0"), Some("│".to_string()));
    assert_eq!(duplicate_dependency_name(" syn v2.0.0"), None);
    assert_eq!(duplicate_dependency_name("[build-dependencies]"), None);
    assert_eq!(duplicate_dependency_name(""), None);
}

#[test]
fn license_families() {
    assert!(is_problematic_license("GPL-3.0"));
    assert!(is_problematic_license("MIT OR LGPL-2.1"));
    assert!(!is_problematic_license("MIT OR Apache-2.0"));
}

#[test]
fn records() {
    let d = Dependency { name: "serde".to_string(), version: "1".to_string(), source: "dependencies".to_string(), required: true };
    assert!(d.clone().required);
    let u = UpdateResult { name: "serde".to_string(), updated: false, from_version: "1".to_string(), to_version: None, error: None };
    assert!(!u.updated);
}

#[test]
fn test_dependency_struct() {
    let dep = Dependency {
        name: "test-dep".to_string(),
        version: "1.0.0".to_string(),
        source: "dependencies".to_string(),
        required: true,
    };

    assert_eq!(dep.name, "test-dep");
    assert_eq!(dep.version, "1.0.0");
    assert_eq!(dep.source, "dependencies");
    assert!(dep.required);
}

#[test]
fn test_update_result_struct() {
    let result = UpdateResult {
        name: "test-dep".to_string(),
        updated: true,
        from_version: "1.0.0".to_string(),
        to_version: Some("2.0.0".to_string()),
        error: None,
    };

    assert_eq!(result.name, "test-dep");
    assert!(result.updated);
    assert_eq!(result.from_version, "1.0.0");
    assert_eq!(result.to_version, Some("2.0.0".to_string()));
    assert!(result.error.is_none());
}

#[test]
fn outdated_report_reading() {
    let text = r#"{"dependencies": [
        {"name": "serde", "project": "1.0.100", "latest": "1.0.200"},
        {"name": "half", "project": "1.0.0"},
        {"name": "log", "project": "0.4.1", "latest": "0.4.20"}
    ]}"#;
    let deps = outdated_from_json(text).unwrap();
    assert_eq!(deps.len(), 2);
    assert_eq!(deps[0].name, "serde");
    assert_eq!(deps[0].version, "1.0.100 -> 1.0.200");
    assert_eq!(deps[1].version, "0.4.1 -> 0.4.20");
    assert!(deps.iter().all(|d| d.required && d.source == "outdated"));
    assert_eq!(outdated_from_json("{}").unwrap().len(), 0);
    assert!(outdated_from_json("not json").is_none());
}

#[test]
fn license_report_reading() {
    let text = r#"[{"name": "a", "license": "MIT"}, {"name": "b"}, {"name": "c", "license": "GPL-3.0"}]"#;
    let pairs = licenses_from_json(text).unwrap();
    assert_eq!(pairs, vec![("a".to_string(), "MIT".to_string()), ("c".to_string(), "GPL-3.0".to_string())]);
    assert!(licenses_from_json("{}").is_none());
    assert!(licenses_from_json("[").is_none());
}

#[test]
fn manifest_reading() {
    let manifest = r#"
[package]
name = "demo"

[dependencies]
serde = { version = "1.0", features = ["derive"] }
anyhow = "1"
local = { path = "../local" }

[dev-dependencies]
tempfile = "3"
"#;
    let deps = dependencies_from_toml(manifest).unwrap();
    let seen: Vec<(&str, &str, &str, bool)> = deps
        .iter()
        .map(|d| (d.name.as_str(), d.version.as_str(), d.source.as_str(), d.required))
        .collect();
    assert_eq!(
        seen,
        vec![
            ("anyhow", "1", "dependencies", true),
            ("local", "*", "dependencies", true),
            ("serde", "1.0", "dependencies", true),
            ("tempfile", "3", "dev-dependencies", false),
        ]
    );
    assert!(dependencies_from_toml("[package]\nname = \"x\"\n").unwrap().is_empty());
    assert!(dependencies_from_toml("not = [toml").is_err());
    let value: toml::Value = toml::from_str("v = 3").unwrap();
    assert_eq!(extract_version(&value["v"]), "*");
}
