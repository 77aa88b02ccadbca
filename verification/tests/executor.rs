use ttest::executor::{launch_of, Event, Launch, Run, RunError, Step};
use ttest::probe::probe_paths;
use ttest::shell::quote_word;
use ttest::test_selector::path_to_probe;

fn words(list: &[&str]) -> Vec<String> {
    list.iter().map(|word| word.to_string()).collect()
}

fn execute(command: &str, program: &str, args: &[&str]) -> Step {
    Step::Execute {
        command: command.to_string(),
        program: program.to_string(),
        args: words(args),
    }
}

#[test]
fn a_run_starts_each_command_in_order() {
    let mut run = Run::new(words(&["rspec a_spec.rb:1", "ruby -Ilib:test 'my test.rb'"]));
    assert_eq!(
        run.next_step(),
        execute("rspec a_spec.rb:1", "rspec", &["a_spec.rb:1"])
    );
    run.report(Event::Exited { success: true });
    assert_eq!(
        run.next_step(),
        execute(
            "ruby -Ilib:test 'my test.rb'",
            "ruby",
            &["-Ilib:test", "my test.rb"]
        )
    );
    run.report(Event::Exited { success: true });
    assert_eq!(run.next_step(), Step::Finished { result: Ok(()) });
    assert_eq!(run.next_step(), Step::Finished { result: Ok(()) });
}

#[test]
fn a_run_without_commands_ends_well_at_once() {
    let mut run = Run::new(Vec::new());
    assert_eq!(run.next_step(), Step::Finished { result: Ok(()) });
    run.report(Event::SpawnFailed);
    assert_eq!(run.next_step(), Step::Finished { result: Ok(()) });
}

#[test]
fn a_failed_command_ends_the_run() {
    let mut run = Run::new(words(&["false", "true"]));
    assert_eq!(run.next_step(), execute("false", "false", &[]));
    run.report(Event::Exited { success: false });
    let failed = RunError::Failed {
        command: "false".to_string(),
    };
    assert_eq!(
        run.next_step(),
        Step::Finished {
            result: Err(failed.clone())
        }
    );
    run.report(Event::Exited { success: true });
    assert_eq!(run.next_step(), Step::Finished { result: Err(failed) });
}

#[test]
fn a_command_that_cannot_be_started_ends_the_run() {
    let mut run = Run::new(words(&["true", "missing --flag", "true"]));
    assert_eq!(run.next_step(), execute("true", "true", &[]));
    run.report(Event::Exited { success: true });
    assert_eq!(
        run.next_step(),
        execute("missing --flag", "missing", &["--flag"])
    );
    run.report(Event::SpawnFailed);
    let error = RunError::NotStarted {
        command: "missing --flag".to_string(),
    };
    assert_eq!(error.message(), "Command could not be started: missing --flag");
    assert_eq!(run.next_step(), Step::Finished { result: Err(error) });
}

#[test]
fn a_malformed_command_ends_the_run() {
    let mut run = Run::new(words(&["echo 'open", "true"]));
    let error = RunError::Malformed {
        command: "echo 'open".to_string(),
    };
    assert_eq!(
        run.next_step(),
        Step::Finished {
            result: Err(error.clone())
        }
    );
    assert_eq!(
        run.next_step(),
        Step::Finished {
            result: Err(error.clone())
        }
    );
    assert_eq!(error.message(), "Malformed command: echo 'open");
    assert_eq!(
        RunError::Failed {
            command: "x".to_string()
        }
        .message(),
        "Command failed: x"
    );
}

#[test]
fn a_command_without_words_is_passed_over() {
    let mut run = Run::new(words(&["", "   ", "true", "''"]));
    assert_eq!(run.next_step(), execute("true", "true", &[]));
    run.report(Event::Exited { success: true });
    assert_eq!(run.next_step(), execute("''", "", &[]));
    run.report(Event::Exited { success: false });
    assert_eq!(
        run.next_step(),
        Step::Finished {
            result: Err(RunError::Failed {
                command: "''".to_string()
            })
        }
    );
}

#[test]
fn the_first_failure_stands() {
    let mut run = Run::new(words(&["a", "b"]));
    run.report(Event::Exited { success: false });
    assert_eq!(run.next_step(), execute("a", "a", &[]));
    run.report(Event::SpawnFailed);
    run.report(Event::Exited { success: false });
    assert_eq!(
        run.next_step(),
        Step::Finished {
            result: Err(RunError::NotStarted {
                command: "a".to_string()
            })
        }
    );
}

#[test]
fn launch_of_takes_the_first_word_for_the_program() {
    assert!(matches!(launch_of(Vec::new()), Launch::Skip));
    match launch_of(words(&["ruby", "-Ilib", "a b"])) {
        Launch::Start { program, args } => {
            assert_eq!(program, "ruby");
            assert_eq!(args, words(&["-Ilib", "a b"]));
        }
        Launch::Skip => panic!("a command with words is started"),
    }
    match launch_of(words(&["ruby"])) {
        Launch::Start { program, args } => {
            assert_eq!(program, "ruby");
            assert!(args.is_empty());
        }
        Launch::Skip => panic!("a command with words is started"),
    }
}

#[test]
fn quote_word_gives_a_word_that_the_shell_reads_back() {
    assert_eq!(quote_word("my_test.rb"), "my_test.rb");
    assert_ne!(quote_word("my test.rb"), "my test.rb");
    for word in ["", "a b", "it's", "$HOME", "a\nb", "\"", "*"] {
        assert_eq!(shell_words::split(&quote_word(word)).unwrap(), vec![word]);
    }
}

#[test]
fn probe_paths_lists_the_fixed_paths_and_one_for_each_argument() {
    assert_eq!(probe_paths(&Vec::new()), words(&["Gemfile", "bin/rspec"]));
    assert_eq!(
        probe_paths(&words(&["spec/a_spec.rb:12", "foo", "a:b:c", ":1", ""])),
        words(&["Gemfile", "bin/rspec", "spec/a_spec.rb", "foo", "a", "", ""])
    );
    assert_eq!(path_to_probe("spec/a_spec.rb:12"), "spec/a_spec.rb");
    assert_eq!(path_to_probe("spec/a_spec.rb"), "spec/a_spec.rb");
}
