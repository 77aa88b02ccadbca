use ttest::adapter::ruby_minitest::{
    file_command, filtered_file_command, find_test_pattern, format_line_match, minitest_command,
    name_command, test_patterns,
};
use ttest::adapter::{RubyMinitest, TestAdapter};
use ttest::environment::Environment;
use ttest::selector_match::SelectorMatch;
use ttest::test_selector::TestSelector;

const DEF_SYNTAX: &str = r#"
              class MyTest < Minitest::Test
                def test_something
                  assert true
                end

                def test_something_else
                  assert true
                end
              end
            "#;

const SPEC_SYNTAX: &str = r#"
              describe "MyTest" do
                it "does something" do
                  assert true
                end

                it "does something else" do
                  assert true
                end
              end
            "#;

fn commands_for(content: &str, raw: &str) -> Vec<String> {
    let mut env = Environment::new();
    env.write_file("my_test.rb", content);
    let selector = TestSelector::parse(&env, raw).unwrap();
    let adapter = RubyMinitest::new();
    adapter.collect_commands(&env, &[&selector]).unwrap()
}

#[test]
fn generates_commands_for_path_with_line_number_using_def_syntax() {
    assert_eq!(
        commands_for(DEF_SYNTAX, "my_test.rb:4"),
        vec!["ruby -rminitest/autorun -Ilib:test my_test.rb --name='test_something'"]
    );
    assert_eq!(
        commands_for(DEF_SYNTAX, "my_test.rb:8"),
        vec!["ruby -rminitest/autorun -Ilib:test my_test.rb --name='test_something_else'"]
    );
}

#[test]
fn generates_commands_for_path_with_line_number_using_spec_syntax() {
    assert_eq!(
        commands_for(SPEC_SYNTAX, "my_test.rb:4"),
        vec!["ruby -rminitest/autorun -Ilib:test my_test.rb --name='/_does something$/'"]
    );
    assert_eq!(
        commands_for(SPEC_SYNTAX, "my_test.rb:8"),
        vec!["ruby -rminitest/autorun -Ilib:test my_test.rb --name='/_does something else$/'"]
    );
}

#[test]
fn a_line_midway_between_two_tests_picks_the_earlier_one() {
    assert_eq!(
        commands_for(DEF_SYNTAX, "my_test.rb:5"),
        vec!["ruby -rminitest/autorun -Ilib:test my_test.rb --name='test_something'"]
    );
    assert_eq!(
        commands_for(DEF_SYNTAX, "my_test.rb:6"),
        vec!["ruby -rminitest/autorun -Ilib:test my_test.rb --name='test_something_else'"]
    );
}

#[test]
fn minitest_command_goes_through_bundler_when_the_gemfile_names_it() {
    let mut env = Environment::new();
    assert_eq!(minitest_command(&env), "ruby -rminitest/autorun -Ilib:test");
    env.write_file("Gemfile", "gem 'rspec'");
    assert_eq!(minitest_command(&env), "ruby -rminitest/autorun -Ilib:test");
    env.write_file("Gemfile", "gem 'rspec'\ngem 'minitest'");
    assert_eq!(
        minitest_command(&env),
        "bundle exec ruby -rminitest/autorun -Ilib:test"
    );
}

#[test]
fn minitest_claims_nothing_without_the_gemfile() {
    let env = Environment::new();
    let adapter = RubyMinitest::new();
    let selectors = [
        TestSelector::PathWithLineNumber {
            path: "my_test.rb".into(),
            line: 1,
        },
        TestSelector::PathOnly {
            path: "my_test.rb".into(),
        },
        TestSelector::NameOnly { name: "foo".into() },
    ];
    for selector in &selectors {
        assert_eq!(
            adapter.selector_matches(&env, selector),
            SelectorMatch::NoMatch
        );
    }
}

#[test]
fn minitest_claims_ruby_files_and_shares_names() {
    let mut env = Environment::new();
    env.write_file("Gemfile", "gem 'minitest'");
    let adapter = RubyMinitest::new();
    let line = TestSelector::PathWithLineNumber {
        path: "my_test.rb".into(),
        line: 1,
    };
    let file = TestSelector::PathOnly {
        path: "test/my_test.rb".into(),
    };
    let name = TestSelector::NameOnly { name: "foo".into() };
    assert_eq!(
        adapter.selector_matches(&env, &line),
        SelectorMatch::Exclusive
    );
    assert_eq!(
        adapter.selector_matches(&env, &file),
        SelectorMatch::Exclusive
    );
    assert_eq!(adapter.selector_matches(&env, &name), SelectorMatch::Shared);
    for path in ["my_test.py", "my_test.rb.orig", "rb", ""] {
        let other = TestSelector::PathOnly { path: path.into() };
        assert_eq!(
            adapter.selector_matches(&env, &other),
            SelectorMatch::NoMatch
        );
    }
}

#[test]
fn minitest_gives_one_command_for_each_selector() {
    let mut env = Environment::new();
    env.write_file("Gemfile", "gem 'minitest'");
    env.write_file("my_test.rb", DEF_SYNTAX);
    let adapter = RubyMinitest::new();
    let name = TestSelector::NameOnly { name: "foo".into() };
    let file = TestSelector::PathOnly {
        path: "my_test.rb".into(),
    };
    let line = TestSelector::PathWithLineNumber {
        path: "my_test.rb".into(),
        line: 3,
    };
    let commands = adapter
        .collect_commands(&env, &[&name, &file, &line])
        .unwrap();
    assert_eq!(
        commands,
        vec![
            "bundle exec ruby -rminitest/autorun -Ilib:test --name=/foo/",
            "bundle exec ruby -rminitest/autorun -Ilib:test my_test.rb",
            "bundle exec ruby -rminitest/autorun -Ilib:test my_test.rb --name='test_something'",
        ]
    );
}

#[test]
fn minitest_leaves_out_a_line_whose_test_cannot_be_found() {
    let mut env = Environment::new();
    env.write_file("empty_test.rb", "puts 'nothing here'\n");
    env.add_unreadable("dir_test.rb");
    let adapter = RubyMinitest::new();
    let missing = TestSelector::PathWithLineNumber {
        path: "missing_test.rb".into(),
        line: 3,
    };
    let empty = TestSelector::PathWithLineNumber {
        path: "empty_test.rb".into(),
        line: 1,
    };
    let unreadable = TestSelector::PathWithLineNumber {
        path: "dir_test.rb".into(),
        line: 1,
    };
    assert_eq!(
        adapter.collect_commands(&env, &[&missing, &empty, &unreadable]),
        None
    );
    assert_eq!(adapter.collect_commands(&env, &[]), None);
    let file = TestSelector::PathOnly {
        path: "missing_test.rb".into(),
    };
    assert_eq!(
        adapter.collect_commands(&env, &[&missing, &file, &empty]),
        Some(vec![
            "ruby -rminitest/autorun -Ilib:test missing_test.rb".to_string()
        ])
    );
}

#[test]
fn find_test_pattern_reads_the_nearest_definition() {
    let mut env = Environment::new();
    env.write_file("my_test.rb", SPEC_SYNTAX);
    assert_eq!(
        find_test_pattern(&env, &"my_test.rb".into(), 1),
        Some("/_does something$/".to_string())
    );
    assert_eq!(
        find_test_pattern(&env, &"my_test.rb".into(), 100),
        Some("/_does something else$/".to_string())
    );
    assert_eq!(find_test_pattern(&env, &"other_test.rb".into(), 1), None);
}

#[test]
fn format_line_match_gives_the_name_of_a_method() {
    assert_eq!(format_line_match("  def test_something\n"), "test_something");
    assert_eq!(format_line_match("def test_a"), "test_a");
    assert_eq!(
        format_line_match("\t def test_x(arg)  \r\n"),
        "test_x(arg)"
    );
    assert_eq!(format_line_match("def test_def test_"), "test_def test_");
    assert_eq!(format_line_match("def def test_x"), "/_def def test_x$/");
}

#[test]
fn format_line_match_gives_a_pattern_for_a_description() {
    assert_eq!(
        format_line_match("    it \"does something else\" do\n"),
        "/_does something else$/"
    );
    assert_eq!(format_line_match("  it 'works' do"), "/_works' do$/");
    assert_eq!(format_line_match("  test \"adds\" do"), "/_adds$/");
    assert_eq!(format_line_match("test 'adds'"), "/_adds'$/");
    assert_eq!(
        format_line_match("it \"it \"test \"x\" do\" do\" do"),
        "/_x$/"
    );
    assert_eq!(format_line_match("test \"it \"x"), "/_it \"x$/");
    assert_eq!(format_line_match(""), "/_$/");
    assert_eq!(format_line_match("   \n"), "/_$/");
    assert_eq!(format_line_match("describe Foo"), "/_describe Foo$/");
    assert_eq!(format_line_match("\u{3000}it \"a\" do\u{a0}"), "/_a$/");
}

#[test]
fn minitest_quotes_paths_and_filters_for_the_shell() {
    let mut env = Environment::new();
    env.write_file("my tests/it's_test.rb", "  it \"isn't broken\" do\n");
    let adapter = RubyMinitest::new();
    let line = TestSelector::PathWithLineNumber {
        path: "my tests/it's_test.rb".into(),
        line: 1,
    };
    let file = TestSelector::PathOnly {
        path: "my tests/it's_test.rb".into(),
    };
    let commands = adapter.collect_commands(&env, &[&line, &file]).unwrap();
    assert_eq!(commands.len(), 2);
    assert_eq!(
        shell_words::split(&commands[0]).unwrap(),
        vec![
            "ruby",
            "-rminitest/autorun",
            "-Ilib:test",
            "my tests/it's_test.rb",
            "--name=/_isn't broken$/"
        ]
    );
    assert_eq!(
        shell_words::split(&commands[1]).unwrap(),
        vec![
            "ruby",
            "-rminitest/autorun",
            "-Ilib:test",
            "my tests/it's_test.rb"
        ]
    );
}

#[test]
fn test_patterns_are_the_five_markers() {
    assert_eq!(
        test_patterns(),
        vec!["  def test_", "  it \"", "  it '", "  test \"", "  test '"]
    );
}

#[test]
fn minitest_command_parts_are_put_together() {
    assert_eq!(file_command("ruby", "a.rb"), "ruby a.rb");
    assert_eq!(name_command("ruby", "foo"), "ruby --name=/foo/");
    assert_eq!(
        filtered_file_command("ruby", "a.rb", "/_x$/"),
        "ruby a.rb --name='/_x$/'"
    );
    assert_eq!(filtered_file_command("", "", ""), "  --name=''");
    assert_eq!(
        filtered_file_command("ruby", "a.rb", "/_isn't$/"),
        "ruby a.rb --name='/_isn'\\''t$/'"
    );
}
