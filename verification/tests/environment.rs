use ttest::environment::Environment;
use ttest::utils::{file_exists, is_in_file};

#[test]
fn nothing_exists_in_a_new_environment() {
    let env = Environment::new();
    assert!(!env.file_exists("Gemfile"));
    assert!(!env.file_exists(""));
    assert_eq!(env.read("Gemfile"), None);
    assert!(!file_exists(&env, "Gemfile"));
    assert!(!is_in_file(&env, "Gemfile", "rspec"));
    assert!(!is_in_file(&env, "Gemfile", ""));
}

#[test]
fn a_written_file_exists_and_can_be_read() {
    let mut env = Environment::new();
    env.write_file("Gemfile", "gem 'rspec'");
    env.write_bytes("data", vec![0, 159, 255]);
    assert!(env.file_exists("Gemfile"));
    assert!(file_exists(&env, "data"));
    assert!(!env.file_exists("gemfile"));
    assert!(!env.file_exists("Gemfile "));
    assert_eq!(env.read("Gemfile"), Some(&b"gem 'rspec'".to_vec()));
    assert_eq!(env.read("data"), Some(&vec![0, 159, 255]));
    assert_eq!(env.read("other"), None);
}

#[test]
fn an_unreadable_entry_exists_and_cannot_be_read() {
    let mut env = Environment::new();
    env.add_unreadable("spec");
    assert!(env.file_exists("spec"));
    assert_eq!(env.read("spec"), None);
    assert!(!is_in_file(&env, "spec", ""));
}

#[test]
fn a_later_record_replaces_an_earlier_one() {
    let mut env = Environment::new();
    env.write_file("a", "one");
    env.write_file("b", "other");
    env.write_file("a", "two");
    assert_eq!(env.read("a"), Some(&b"two".to_vec()));
    assert_eq!(env.read("b"), Some(&b"other".to_vec()));
    env.add_unreadable("a");
    assert_eq!(env.read("a"), None);
    assert!(env.file_exists("a"));
    env.write_bytes("a", Vec::new());
    assert_eq!(env.read("a"), Some(&Vec::new()));
}

#[test]
fn is_in_file_finds_a_name_on_any_line() {
    let mut env = Environment::new();
    env.write_file(
        "Gemfile",
        "source 'https://rubygems.org'\n\ngem 'rspec-rails'\r\ngem 'minitest'",
    );
    assert!(is_in_file(&env, "Gemfile", "rspec"));
    assert!(is_in_file(&env, "Gemfile", "minitest"));
    assert!(is_in_file(&env, "Gemfile", "gem 'minitest'"));
    assert!(is_in_file(&env, "Gemfile", ""));
    assert!(!is_in_file(&env, "Gemfile", "cucumber"));
    assert!(!is_in_file(&env, "Gemfile", "Rspec"));
    assert!(!is_in_file(&env, "gemfile", "rspec"));
}

#[test]
fn is_in_file_looks_at_each_line_without_its_ending() {
    let mut env = Environment::new();
    env.write_file("f", "ab\ncd\r\nef\r");
    assert!(!is_in_file(&env, "f", "b\n"));
    assert!(!is_in_file(&env, "f", "b\nc"));
    assert!(!is_in_file(&env, "f", "d\r"));
    assert!(is_in_file(&env, "f", "f\r"));
    assert!(is_in_file(&env, "f", "cd"));
    env.write_file("empty", "");
    assert!(!is_in_file(&env, "empty", ""));
    env.write_file("blank", "\n");
    assert!(is_in_file(&env, "blank", ""));
    assert!(!is_in_file(&env, "blank", "\n"));
}

#[test]
fn is_in_file_reads_a_line_that_is_not_text_as_empty() {
    let mut env = Environment::new();
    env.write_bytes("f", b"rspec \xff\nminitest\n".to_vec());
    assert!(!is_in_file(&env, "f", "rspec"));
    assert!(is_in_file(&env, "f", "minitest"));
    env.write_bytes("g", b"\xff\n".to_vec());
    assert!(is_in_file(&env, "g", ""));
    assert!(!is_in_file(&env, "g", "x"));
}
