use ttest::config::{
    config_file_names, config_paths, find_project_file, join_path, AdapterConfig, Config,
};
use ttest::environment::Environment;

#[test]
fn test_find_project_file() {
    let mut env = Environment::new();
    env.write_file("project/ttest.toml", "");
    let path = find_project_file(&env, "project", &["ttest.toml"]);
    assert!(path.is_some());
    assert_eq!(path.unwrap(), "project/ttest.toml");
}

#[test]
fn test_find_project_file_not_found() {
    let mut env = Environment::new();
    env.write_file("project/ttest.toml", "");
    let path = find_project_file(&env, "project", &["foo.toml"]);
    assert!(path.is_none());
}

#[test]
fn test_from_dir() {
    let config = Config::default();

    assert_eq!(
        config.ruby_minitest().file_patterns,
        vec![r"(.*(^|/)(spec|test)/(test_.+|.+_test|.+_spec))\.rb$"]
    );

    assert_eq!(
        config.ruby_minitest().test_patterns[0],
        "\\s*(test|it)(\\(| )(\"|')(?P<name>.*)(\"|')"
    );

    assert_eq!(config.cargo_test().file_patterns, Vec::<String>::new());
}

#[test]
fn find_project_file_takes_the_first_name_that_exists() {
    let mut env = Environment::new();
    env.write_file("p/.ttest.toml", "");
    env.write_file("p/_ttest.toml", "");
    env.write_file("ttest.toml", "");
    assert_eq!(
        Config::find_in_dir(&env, "p"),
        Some("p/_ttest.toml".to_string())
    );
    assert_eq!(
        Config::find_in_dir(&env, "p/"),
        Some("p/_ttest.toml".to_string())
    );
    assert_eq!(Config::find_in_dir(&env, ""), Some("ttest.toml".to_string()));
    assert_eq!(Config::find_in_dir(&env, "q"), None);
    assert_eq!(find_project_file(&env, "p", &[]), None);
    assert_eq!(
        config_file_names(),
        vec!["ttest.toml", "_ttest.toml", ".ttest.toml"]
    );
    assert_eq!(
        config_paths("p"),
        vec!["p/ttest.toml", "p/_ttest.toml", "p/.ttest.toml"]
    );
    assert_eq!(
        config_paths(""),
        vec!["ttest.toml", "_ttest.toml", ".ttest.toml"]
    );
}

#[test]
fn join_path_puts_one_slash_between_directory_and_name() {
    assert_eq!(join_path("a", "b"), "a/b");
    assert_eq!(join_path("a/", "b"), "a/b");
    assert_eq!(join_path("", "b"), "b");
    assert_eq!(join_path("/", "b"), "/b");
    assert_eq!(join_path("a/b", ""), "a/b/");
}

#[test]
fn an_empty_adapter_config_has_no_patterns() {
    let empty = AdapterConfig::empty();
    assert!(empty.file_patterns.is_empty());
    assert!(empty.test_patterns.is_empty());
    assert!(empty.namespace_patterns.is_empty());
    assert_eq!(AdapterConfig::default(), empty);
    let config = Config::new(empty.clone(), empty.clone(), empty.clone());
    assert_eq!(config.ruby_rspec(), &empty);
    assert_eq!(Config::default().ruby_rspec(), &empty);
    assert_eq!(Config::default().cargo_test(), &empty);
    assert!(Config::default().ruby_minitest().namespace_patterns.is_empty());
    assert_eq!(Config::default().ruby_minitest().test_patterns.len(), 1);
}
