use ttest::environment::Environment;
use ttest::test_selector::{parse_selectors, ParseError, TestSelector};

#[test]
fn matches_path_with_line_number() {
    let mut env = Environment::new();
    env.write_file("foo.rb", "puts 'hello'");

    let selector = TestSelector::parse(&env, "foo.rb:1").unwrap();

    assert_eq!(
        selector,
        TestSelector::PathWithLineNumber {
            path: "foo.rb".into(),
            line: 1
        }
    );
}

#[test]
fn matches_path_only() {
    let mut env = Environment::new();
    env.write_file("foo.rb", "puts 'hello'");

    let selector = TestSelector::parse(&env, "foo.rb").unwrap();

    assert_eq!(
        selector,
        TestSelector::PathOnly {
            path: "foo.rb".into()
        }
    );
}

#[test]
fn matches_name_only() {
    let env = Environment::new();
    let name = "some_test_name".to_string();
    let selector = TestSelector::parse(&env, &name).unwrap();

    assert_eq!(selector, TestSelector::NameOnly { name });
}

#[test]
fn parse_fails_when_the_file_before_the_colon_is_missing() {
    let env = Environment::new();
    let error = TestSelector::parse(&env, "f:3").unwrap_err();
    assert_eq!(
        error,
        ParseError::FileNotFound {
            path: "f".to_string()
        }
    );
    assert_eq!(error.message(), "File does not exist: f");
}

#[test]
fn parse_reads_the_same_text_with_and_without_the_file() {
    let mut env = Environment::new();
    assert!(TestSelector::parse(&env, "f:3").is_err());
    env.write_file("f", "");
    assert_eq!(
        TestSelector::parse(&env, "f:3"),
        Ok(TestSelector::PathWithLineNumber {
            path: "f".into(),
            line: 3
        })
    );
    assert_eq!(
        TestSelector::parse(&env, "f:3"),
        TestSelector::parse(&env, "f:3")
    );
}

#[test]
fn parse_fails_on_a_line_that_is_no_number() {
    let mut env = Environment::new();
    env.write_file("foo.rb", "");
    for text in ["", "x", "1x", "-1", "+", " 1", "1 ", "4294967296", "1:2", "1.5"] {
        let raw = format!("foo.rb:{}", text);
        assert_eq!(
            TestSelector::parse(&env, &raw),
            Err(ParseError::InvalidLineNumber {
                text: text.to_string()
            })
        );
    }
    let error = TestSelector::parse(&env, "foo.rb:abc").unwrap_err();
    assert_eq!(error.message(), "Invalid line number: abc");
}

#[test]
fn parse_reads_line_numbers_as_unsigned_integers() {
    let mut env = Environment::new();
    env.write_file("foo.rb", "");
    for (text, line) in [
        ("0", 0u32),
        ("7", 7),
        ("+7", 7),
        ("007", 7),
        ("10", 10),
        ("4294967295", u32::MAX),
        ("0004294967295", u32::MAX),
    ] {
        let raw = format!("foo.rb:{}", text);
        assert_eq!(
            TestSelector::parse(&env, &raw),
            Ok(TestSelector::PathWithLineNumber {
                path: "foo.rb".into(),
                line
            })
        );
    }
}

#[test]
fn parse_splits_at_the_first_colon() {
    let mut env = Environment::new();
    env.write_file("a", "");
    env.write_file("a:b", "");
    assert_eq!(
        TestSelector::parse(&env, "a:b:3"),
        Err(ParseError::InvalidLineNumber {
            text: "b:3".to_string()
        })
    );
    assert_eq!(
        TestSelector::parse(&env, ":3"),
        Err(ParseError::FileNotFound {
            path: String::new()
        })
    );
}

#[test]
fn parse_takes_a_directory_for_a_path() {
    let mut env = Environment::new();
    env.add_unreadable("spec");
    assert_eq!(
        TestSelector::parse(&env, "spec"),
        Ok(TestSelector::PathOnly {
            path: "spec".into()
        })
    );
    assert_eq!(
        TestSelector::parse(&env, "spec:2"),
        Ok(TestSelector::PathWithLineNumber {
            path: "spec".into(),
            line: 2
        })
    );
}

#[test]
fn parse_selectors_reads_every_argument_in_order() {
    let mut env = Environment::new();
    env.write_file("foo.rb", "");
    let args = vec![
        "foo.rb:12".to_string(),
        "foo.rb".to_string(),
        "bar".to_string(),
    ];
    assert_eq!(
        parse_selectors(&env, &args),
        Ok(vec![
            TestSelector::PathWithLineNumber {
                path: "foo.rb".into(),
                line: 12
            },
            TestSelector::PathOnly {
                path: "foo.rb".into()
            },
            TestSelector::NameOnly {
                name: "bar".to_string()
            },
        ])
    );
    assert_eq!(parse_selectors(&env, &Vec::new()), Ok(Vec::new()));
}

#[test]
fn parse_selectors_stops_at_the_first_error() {
    let mut env = Environment::new();
    env.write_file("foo.rb", "");
    let args = vec![
        "foo.rb".to_string(),
        "missing.rb:1".to_string(),
        "foo.rb:x".to_string(),
    ];
    assert_eq!(
        parse_selectors(&env, &args),
        Err(ParseError::FileNotFound {
            path: "missing.rb".to_string()
        })
    );
}

#[test]
fn a_cloned_selector_equals_the_one_it_was_made_of() {
    let selectors = vec![
        TestSelector::PathWithLineNumber {
            path: "foo.rb".into(),
            line: 12,
        },
        TestSelector::PathOnly {
            path: "foo.rb".into(),
        },
        TestSelector::NameOnly {
            name: "bar".to_string(),
        },
    ];
    for selector in &selectors {
        assert_eq!(&selector.clone(), selector);
    }
}
