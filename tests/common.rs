use ubuntu_config_scripts::common::{
    file_exists, is_directory, is_file, is_root, parse_args_from_vec, require_root, ArgMap,
};

#[test]
fn test_parse_args_empty() {
    let args: Vec<String> = vec![];
    let result = parse_args_from_vec(&args);
    assert!(result.is_empty());
}

#[test]
fn test_parse_args_single_flag() {
    let args = vec!["--verbose".to_string()];
    let result = parse_args_from_vec(&args);
    assert_eq!(result.get("verbose"), Some(&"true".to_string()));
}

#[test]
fn test_parse_args_key_value() {
    let args = vec!["--output".to_string(), "/tmp/test".to_string()];
    let result = parse_args_from_vec(&args);
    assert_eq!(result.get("output"), Some(&"/tmp/test".to_string()));
}

#[test]
fn test_parse_args_key_equals_value() {
    let args = vec!["--config=/etc/test.conf".to_string()];
    let result = parse_args_from_vec(&args);
    assert_eq!(result.get("config"), Some(&"/etc/test.conf".to_string()));
}

#[test]
fn test_parse_args_short_flag() {
    let args = vec!["-v".to_string()];
    let result = parse_args_from_vec(&args);
    assert_eq!(result.get("v"), Some(&"true".to_string()));
}

#[test]
fn test_parse_args_mixed() {
    let args = vec![
        "--verbose".to_string(),
        "--output".to_string(),
        "/tmp/test".to_string(),
        "-f".to_string(),
        "--config=test.conf".to_string(),
    ];
    let result = parse_args_from_vec(&args);

    assert_eq!(result.get("verbose"), Some(&"true".to_string()));
    assert_eq!(result.get("output"), Some(&"/tmp/test".to_string()));
    assert_eq!(result.get("f"), Some(&"true".to_string()));
    assert_eq!(result.get("config"), Some(&"test.conf".to_string()));
}

#[test]
fn test_parse_args_contract_output_keys_match_input() {
    let test_cases = vec![
        (vec!["--foo".to_string()], vec!["foo"]),
        (vec!["--bar=baz".to_string()], vec!["bar"]),
        (vec!["-x".to_string()], vec!["x"]),
        (
            vec!["--a".to_string(), "b".to_string(), "--c=d".to_string()],
            vec!["a", "c"],
        ),
    ];

    for (input, expected_keys) in test_cases {
        let result = parse_args_from_vec(&input);
        for key in expected_keys {
            assert!(result.contains_key(key), "Missing key: {}", key);
        }
    }
}

fn strings(args: &[&str]) -> Vec<String> {
    args.iter().map(|a| a.to_string()).collect()
}

#[test]
fn parse_args_edge_cases() {
    let result = parse_args_from_vec(&strings(&["--name=a=b", "-xy", "plain", "-é", "-n", "-v"]));
    assert_eq!(result.get("name"), Some(&"a=b".to_string()));
    assert_eq!(result.get("n"), Some(&"true".to_string()));
    assert_eq!(result.get("v"), Some(&"true".to_string()));
    assert!(!result.contains_key("xy"));
    assert!(!result.contains_key("é"));
    assert_eq!(result.len(), 3);
    let later = parse_args_from_vec(&strings(&["--k", "1", "--k=2"]));
    assert_eq!(later.get("k"), Some(&"2".to_string()));
    assert_eq!(later.len(), 1);
    let dashed = parse_args_from_vec(&strings(&["--out", "-"]));
    assert_eq!(dashed.get("out"), Some(&"true".to_string()));
}

#[test]
fn arg_map_operations() {
    let mut map = ArgMap::new();
    assert!(map.is_empty());
    map.insert("a".to_string(), "1".to_string());
    map.insert("b".to_string(), "2".to_string());
    map.insert("a".to_string(), "3".to_string());
    assert_eq!(map.len(), 2);
    assert_eq!(map.get("a"), Some(&"3".to_string()));
    assert_eq!(map.get("b"), Some(&"2".to_string()));
    assert_eq!(map.get("c"), None);
    assert!(!map.is_empty());
}

#[test]
fn test_is_directory_and_is_file() {
    assert!(is_directory("/tmp"));
    assert!(!is_file("/tmp"));
    assert!(is_file("/etc/passwd"));
    assert!(!is_directory("/etc/passwd"));
}

#[test]
fn test_file_exists() {
    assert!(file_exists("/etc/passwd"));
    assert!(!file_exists("/nonexistent/file/path"));
}

#[test]
fn root_checks() {
    assert!(is_root(Some("root")));
    assert!(!is_root(Some("alice")));
    assert!(!is_root(None));
    assert!(require_root(Some("root")).is_ok());
    let err = require_root(Some("alice")).unwrap_err();
    assert_eq!(err.to_string(), "This script must be run as root (use sudo)");
    assert!(require_root(None).is_err());
}
