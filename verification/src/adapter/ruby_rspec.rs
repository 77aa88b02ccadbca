//! The adapter for RSpec.
use super::{none_if_empty, TestAdapter};
use crate::environment::{Environment, EnvironmentView};
use crate::selector_match::{exclusive_or_none, shared_or_none, SelectorMatch};
use crate::shell::{shell_join, shell_joined};
use crate::test_selector::{SelectorView, TestSelector};
use crate::text::{decimal, ends_with, push_decimal};
use crate::utils::{file_exists, is_in_file, is_in_file_spec};
use vstd::prelude::*;

verus! {

/// The adapter for RSpec.
#[derive(Debug, PartialEq, Eq, Clone, Copy, Structural)]
pub struct RubyRspec {}

impl RubyRspec {
    /// Creates a new RubyRspec adapter.
    pub fn new() -> (r: Self)
        ensures
            r == (RubyRspec {  }),
    {
        Self {  }
    }
}

/// RSpec is in the project's gem list.
pub open spec fn rspec_in_gemfile(env: EnvironmentView) -> bool {
    is_in_file_spec(env, "Gemfile"@, "rspec"@)
}

/// How RSpec is started in `env`: by the project's own stub where there is
/// one, else through Bundler where the gem list names RSpec, else directly.
pub open spec fn rspec_command_spec(env: EnvironmentView) -> Seq<char> {
    if env.contains_key("bin/rspec"@) {
        "bin/rspec"@
    } else if rspec_in_gemfile(env) {
        "bundle exec rspec"@
    } else {
        "rspec"@
    }
}

/// The verdict of RSpec: spec files are its own, and names are shared where
/// the gem list names RSpec.
pub open spec fn rspec_verdict(env: EnvironmentView, selector: SelectorView) -> SelectorMatch {
    match selector {
        SelectorView::PathWithLineNumber { path, .. } => if ends_with(path, "_spec.rb"@) {
            SelectorMatch::Exclusive
        } else {
            SelectorMatch::NoMatch
        },
        SelectorView::PathOnly { path } => if ends_with(path, "_spec.rb"@) {
            SelectorMatch::Exclusive
        } else {
            SelectorMatch::NoMatch
        },
        SelectorView::NameOnly { .. } => if rspec_in_gemfile(env) {
            SelectorMatch::Shared
        } else {
            SelectorMatch::NoMatch
        },
    }
}

/// The arguments that stand for the files among `selectors`, in order: a path,
/// or a path and a line number with a colon between them.
pub open spec fn rspec_args(selectors: Seq<SelectorView>) -> Seq<Seq<char>>
    decreases selectors.len(),
{
    if selectors.len() == 0 {
        Seq::empty()
    } else {
        let before = rspec_args(selectors.drop_last());
        match selectors.last() {
            SelectorView::PathWithLineNumber { path, line } => before.push(
                path + ":"@ + decimal(line as nat),
            ),
            SelectorView::PathOnly { path } => before.push(path),
            SelectorView::NameOnly { .. } => before,
        }
    }
}

/// One command for each name among `selectors`, in order.
pub open spec fn rspec_example_commands(command: Seq<char>, selectors: Seq<SelectorView>) -> Seq<
    Seq<char>,
>
    decreases selectors.len(),
{
    if selectors.len() == 0 {
        Seq::empty()
    } else {
        let before = rspec_example_commands(command, selectors.drop_last());
        match selectors.last() {
            SelectorView::NameOnly { name } => before.push(command + " --example "@ + name),
            _ => before,
        }
    }
}

/// The command that runs the files given by `joined`.
pub open spec fn rspec_paths_command(command: Seq<char>, joined: Seq<char>) -> Seq<char> {
    command + " "@ + joined
}

/// The commands of RSpec: one for each name, then one for all files together
/// where there is any file.
pub open spec fn rspec_commands(env: EnvironmentView, selectors: Seq<SelectorView>) -> Seq<
    Seq<char>,
> {
    let command = rspec_command_spec(env);
    let args = rspec_args(selectors);
    let named = rspec_example_commands(command, selectors);
    if args.len() > 0 {
        named.push(rspec_paths_command(command, shell_joined(args)))
    } else {
        named
    }
}

/// How RSpec is started in `env`.
pub fn rspec_command(env: &Environment) -> (r: String)
    ensures
        r@ == rspec_command_spec(env@),
{
    if file_exists(env, "bin/rspec") {
        "bin/rspec".to_owned()
    } else if is_in_file(env, "Gemfile", "rspec") {
        "bundle exec rspec".to_owned()
    } else {
        "rspec".to_owned()
    }
}

/// The command that runs one example by name.
pub fn example_command(command: &str, name: &str) -> (r: String)
    ensures
        r@ == command@ + " --example "@ + name@,
{
    let mut out = command.to_owned();
    out.append(" --example ");
    out.append(name);
    out
}

/// The command that runs the files named in `joined`, a command line made of
/// their arguments.
pub fn paths_command(command: &str, joined: &str) -> (r: String)
    ensures
        r@ == rspec_paths_command(command@, joined@),
{
    let mut out = command.to_owned();
    out.append(" ");
    out.append(joined);
    out
}

/// The argument for a line of a file.
pub fn line_argument(path: &str, line: u32) -> (r: String)
    ensures
        r@ == path@ + ":"@ + decimal(line as nat),
{
    let mut out = path.to_owned();
    out.append(":");
    push_decimal(&mut out, line);
    out
}

impl TestAdapter for RubyRspec {
    open spec fn verdict(&self, env: EnvironmentView, selector: SelectorView) -> SelectorMatch {
        rspec_verdict(env, selector)
    }

    open spec fn commands(&self, env: EnvironmentView, selectors: Seq<SelectorView>) -> Seq<
        Seq<char>,
    > {
        rspec_commands(env, selectors)
    }

    proof fn lemma_nothing_taken_nothing_run(&self, env: EnvironmentView) {
    }

    fn selector_matches(&self, env: &Environment, selector: &TestSelector) -> (r: SelectorMatch) {
        match selector {
            TestSelector::PathWithLineNumber { path, .. } => exclusive_or_none(
                path.has_suffix("_spec.rb"),
            ),
            TestSelector::PathOnly { path } => exclusive_or_none(path.has_suffix("_spec.rb")),
            TestSelector::NameOnly { .. } => shared_or_none(is_in_file(env, "Gemfile", "rspec")),
        }
    }

    fn collect_commands(&self, env: &Environment, selectors: &[&TestSelector]) -> (r: Option<
        Vec<String>,
    >) {
        let command = rspec_command(env);
        let mut args: Vec<String> = Vec::new();
        let mut commands: Vec<String> = Vec::new();
        let ghost all = selectors.deep_view();
        let mut i: usize = 0;
        proof {
            assert(all.subrange(0, 0) =~= Seq::<SelectorView>::empty());
            assert(args.deep_view() =~= Seq::<Seq<char>>::empty());
            assert(commands.deep_view() =~= Seq::<Seq<char>>::empty());
        }
        while i < selectors.len()
            invariant
                i <= selectors.len(),
                all == selectors.deep_view(),
                command@ == rspec_command_spec(env@),
                args.deep_view() == rspec_args(all.subrange(0, i as int)),
                commands.deep_view() == rspec_example_commands(
                    command@,
                    all.subrange(0, i as int),
                ),
            decreases selectors.len() - i,
        {
            let ghost args_before = args.deep_view();
            let ghost commands_before = commands.deep_view();
            proof {
                let upto = all.subrange(0, i + 1);
                assert(upto.drop_last() =~= all.subrange(0, i as int));
                assert(upto.last() == selectors@[i as int]@);
            }
            match selectors[i] {
                TestSelector::PathWithLineNumber { path, line } => {
                    let arg = line_argument(path.as_str(), *line);
                    args.push(arg);
                    proof {
                        assert(args.deep_view() =~= args_before.push(arg@));
                    }
                },
                TestSelector::PathOnly { path } => {
                    let arg = path.to_string_lossy();
                    args.push(arg);
                    proof {
                        assert(args.deep_view() =~= args_before.push(arg@));
                    }
                },
                TestSelector::NameOnly { name } => {
                    let line = example_command(command.as_str(), name.as_str());
                    commands.push(line);
                    proof {
                        assert(commands.deep_view() =~= commands_before.push(line@));
                    }
                },
            }
            i += 1;
        }
        proof {
            assert(all.subrange(0, i as int) =~= all);
        }
        if args.len() > 0 {
            let ghost commands_before = commands.deep_view();
            let joined = shell_join(&args);
            let line = paths_command(command.as_str(), joined.as_str());
            commands.push(line);
            proof {
                assert(commands.deep_view() =~= commands_before.push(line@));
            }
        }
        none_if_empty(commands)
    }
}

} // verus!
