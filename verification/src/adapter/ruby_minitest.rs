//! The adapter for Minitest.
use super::{none_if_empty, TestAdapter};
use crate::environment::{Environment, EnvironmentView};
use crate::selector_match::{exclusive_or_none, shared_or_none, SelectorMatch};
use crate::shell::{quote_word, shell_joined};
use crate::test_file::TestFile;
use crate::test_index::{build_spec, closest_entry, TestIndex};
use crate::test_selector::{SelectorView, TestSelector};
use crate::text::{
    chars_of, ends_with, push_chars, push_single_quoted, single_quoted, skip_prefixes,
    skip_suffixes, starts_with, starts_with_at, string_of, strip_prefixes, strip_suffixes,
    sub_chars, trim, trim_bounds,
};
use crate::utils::{is_in_file, is_in_file_spec};
use vstd::prelude::*;

verus! {

/// The adapter for Minitest.
#[derive(Debug, PartialEq, Eq, Clone, Copy, Structural)]
pub struct RubyMinitest {}

impl RubyMinitest {
    /// Creates a new RubyMinitest adapter.
    pub fn new() -> (r: Self)
        ensures
            r == (RubyMinitest {  }),
    {
        Self {  }
    }
}

/// The markers that begin the definition of a test.
pub open spec fn test_patterns_spec() -> Seq<Seq<char>> {
    seq!["  def test_"@, "  it \""@, "  it '"@, "  test \""@, "  test '"@]
}

/// The markers that begin the definition of a test.
pub fn test_patterns() -> (r: Vec<&'static str>)
    ensures
        r.deep_view() == test_patterns_spec(),
{
    let r = vec!["  def test_", "  it \"", "  it '", "  test \"", "  test '"];
    proof {
        assert(r.deep_view() =~= test_patterns_spec());
    }
    r
}

/// `line` after each of `patterns`, trimmed, has been taken from its front as
/// often as it stands there, one pattern after the other.
pub open spec fn strip_each(line: Seq<char>, patterns: Seq<Seq<char>>) -> Seq<char>
    decreases patterns.len(),
{
    if patterns.len() == 0 {
        line
    } else {
        strip_prefixes(strip_each(line, patterns.drop_last()), trim(patterns.last()))
    }
}

/// The name filter for the test that `line` defines. A method definition gives
/// the method's name. Any other definition gives a pattern that matches the
/// names ending in its description.
pub open spec fn format_line_match_spec(line: Seq<char>) -> Seq<char> {
    let line = trim(line);
    if starts_with(line, "def test_"@) {
        strip_prefixes(line, "def "@)
    } else {
        "/_"@ + strip_suffixes(strip_each(line, test_patterns_spec()), "\" do"@) + "$/"@
    }
}

/// The name filter for the test that `line` defines.
pub fn format_line_match(line: &str) -> (r: String)
    ensures
        r@ == format_line_match_spec(line@),
{
    let chars = chars_of(line);
    let (start, end) = trim_bounds(&chars);
    let method = chars_of("def test_");
    if starts_with_at(&chars, start, end, &method) {
        let keyword = chars_of("def ");
        let from = skip_prefixes(&chars, start, end, &keyword);
        return string_of(&chars, from, end);
    }
    let patterns = test_patterns();
    let ghost trimmed = chars@.subrange(start as int, end as int);
    let ghost all = patterns.deep_view();
    let mut from: usize = start;
    let mut k: usize = 0;
    proof {
        assert(all.subrange(0, 0) =~= Seq::<Seq<char>>::empty());
    }
    while k < patterns.len()
        invariant
            k <= patterns.len(),
            start <= from <= end <= chars.len(),
            all == patterns.deep_view(),
            trimmed == chars@.subrange(start as int, end as int),
            chars@.subrange(from as int, end as int) == strip_each(
                trimmed,
                all.subrange(0, k as int),
            ),
        decreases patterns.len() - k,
    {
        let pattern = chars_of(patterns[k]);
        let (low, high) = trim_bounds(&pattern);
        let prefix = sub_chars(&pattern, low, high);
        proof {
            let upto = all.subrange(0, k + 1);
            assert(upto.drop_last() =~= all.subrange(0, k as int));
            assert(upto.last() == pattern@);
        }
        from = skip_prefixes(&chars, from, end, &prefix);
        k += 1;
    }
    proof {
        assert(all.subrange(0, k as int) =~= all);
    }
    let block = chars_of("\" do");
    let to = skip_suffixes(&chars, from, end, &block);
    let mut out = "/_".to_owned();
    push_chars(&mut out, &chars, from, to);
    out.append("$/");
    out
}

/// The name filter for the test nearest to `line` in the file at `path`, where
/// the file can be read and defines a test.
pub open spec fn find_test_pattern_spec(env: EnvironmentView, path: Seq<char>, line: u32) -> Option<
    Seq<char>,
> {
    match build_spec(env, path, test_patterns_spec()) {
        Err(_) => None,
        Ok(entries) => match closest_entry(entries, line) {
            None => None,
            Some(entry) => Some(format_line_match_spec(entry.content)),
        },
    }
}

/// The name filter for the test nearest to `input_line_no` in the file at
/// `path`.
pub fn find_test_pattern(env: &Environment, path: &TestFile, input_line_no: u32) -> (r: Option<
    String,
>)
    ensures
        match r {
            Some(pattern) => find_test_pattern_spec(env@, path@, input_line_no) == Some(pattern@),
            None => find_test_pattern_spec(env@, path@, input_line_no) is None,
        },
{
    let patterns = test_patterns();
    match TestIndex::build(env, path, patterns.as_slice()) {
        Err(_) => None,
        Ok(index) => match index.closest_to_line_number(input_line_no) {
            None => None,
            Some(entry) => Some(format_line_match(entry.content())),
        },
    }
}

/// Minitest is in the project's gem list.
pub open spec fn minitest_in_gemfile(env: EnvironmentView) -> bool {
    is_in_file_spec(env, "Gemfile"@, "minitest"@)
}

/// How Minitest is started in `env`: through Bundler where the gem list names
/// Minitest, else directly.
pub open spec fn minitest_command_spec(env: EnvironmentView) -> Seq<char> {
    if minitest_in_gemfile(env) {
        "bundle exec ruby -rminitest/autorun -Ilib:test"@
    } else {
        "ruby -rminitest/autorun -Ilib:test"@
    }
}

/// How Minitest is started in `env`.
pub fn minitest_command(env: &Environment) -> (r: String)
    ensures
        r@ == minitest_command_spec(env@),
{
    if is_in_file(env, "Gemfile", "minitest") {
        "bundle exec ruby -rminitest/autorun -Ilib:test".to_owned()
    } else {
        "ruby -rminitest/autorun -Ilib:test".to_owned()
    }
}

/// The verdict of Minitest, which claims nothing unless the gem list names it:
/// Ruby files are its own, and names are shared.
pub open spec fn minitest_verdict(env: EnvironmentView, selector: SelectorView) -> SelectorMatch {
    match selector {
        SelectorView::PathWithLineNumber { path, .. } => if minitest_in_gemfile(env) && ends_with(
            path,
            ".rb"@,
        ) {
            SelectorMatch::Exclusive
        } else {
            SelectorMatch::NoMatch
        },
        SelectorView::PathOnly { path } => if minitest_in_gemfile(env) && ends_with(path, ".rb"@) {
            SelectorMatch::Exclusive
        } else {
            SelectorMatch::NoMatch
        },
        SelectorView::NameOnly { .. } => if minitest_in_gemfile(env) {
            SelectorMatch::Shared
        } else {
            SelectorMatch::NoMatch
        },
    }
}

/// The command that runs the test of a file that a name filter picks. The
/// path stands as the shell word `file`, and the filter in single quotes.
pub open spec fn filtered_file_command_spec(
    command: Seq<char>,
    file: Seq<char>,
    pattern: Seq<char>,
) -> Seq<char> {
    command + " "@ + file + " --name="@ + single_quoted(pattern)
}

/// The command that runs a whole file, whose path stands as the shell word
/// `file`.
pub open spec fn file_command_spec(command: Seq<char>, file: Seq<char>) -> Seq<char> {
    command + " "@ + file
}

/// The command that runs the tests whose names match `name`.
pub open spec fn name_command_spec(command: Seq<char>, name: Seq<char>) -> Seq<char> {
    command + " --name=/"@ + name + "/"@
}

/// The commands of Minitest, one for each selector in order. A line of a file
/// in which no test can be found gives no command.
pub open spec fn minitest_commands(env: EnvironmentView, selectors: Seq<SelectorView>) -> Seq<
    Seq<char>,
>
    decreases selectors.len(),
{
    if selectors.len() == 0 {
        Seq::empty()
    } else {
        let before = minitest_commands(env, selectors.drop_last());
        let command = minitest_command_spec(env);
        match selectors.last() {
            SelectorView::PathWithLineNumber { path, line } => match find_test_pattern_spec(
                env,
                path,
                line,
            ) {
                Some(pattern) => before.push(
                    filtered_file_command_spec(command, shell_joined(seq![path]), pattern),
                ),
                None => before,
            },
            SelectorView::PathOnly { path } => before.push(
                file_command_spec(command, shell_joined(seq![path])),
            ),
            SelectorView::NameOnly { name } => before.push(name_command_spec(command, name)),
        }
    }
}

/// The command that runs the test of a file that a name filter picks. `file`
/// is the path as a shell word.
pub fn filtered_file_command(command: &str, file: &str, pattern: &str) -> (r: String)
    ensures
        r@ == filtered_file_command_spec(command@, file@, pattern@),
{
    let mut out = command.to_owned();
    out.append(" ");
    out.append(file);
    out.append(" --name=");
    push_single_quoted(&mut out, pattern);
    out
}

/// The command that runs a whole file. `file` is the path as a shell word.
pub fn file_command(command: &str, file: &str) -> (r: String)
    ensures
        r@ == file_command_spec(command@, file@),
{
    let mut out = command.to_owned();
    out.append(" ");
    out.append(file);
    out
}

/// The command that runs the tests whose names match `name`.
pub fn name_command(command: &str, name: &str) -> (r: String)
    ensures
        r@ == name_command_spec(command@, name@),
{
    let mut out = command.to_owned();
    out.append(" --name=/");
    out.append(name);
    out.append("/");
    out
}

impl TestAdapter for RubyMinitest {
    open spec fn verdict(&self, env: EnvironmentView, selector: SelectorView) -> SelectorMatch {
        minitest_verdict(env, selector)
    }

    open spec fn commands(&self, env: EnvironmentView, selectors: Seq<SelectorView>) -> Seq<
        Seq<char>,
    > {
        minitest_commands(env, selectors)
    }

    proof fn lemma_nothing_taken_nothing_run(&self, env: EnvironmentView) {
    }

    fn selector_matches(&self, env: &Environment, selector: &TestSelector) -> (r: SelectorMatch) {
        match selector {
            TestSelector::PathWithLineNumber { path, .. } => exclusive_or_none(
                is_in_file(env, "Gemfile", "minitest") && path.has_suffix(".rb"),
            ),
            TestSelector::PathOnly { path } => exclusive_or_none(
                is_in_file(env, "Gemfile", "minitest") && path.has_suffix(".rb"),
            ),
            TestSelector::NameOnly { .. } => shared_or_none(is_in_file(env, "Gemfile", "minitest")),
        }
    }

    fn collect_commands(&self, env: &Environment, selectors: &[&TestSelector]) -> (r: Option<
        Vec<String>,
    >) {
        let command = minitest_command(env);
        let mut commands: Vec<String> = Vec::new();
        let ghost all = selectors.deep_view();
        let mut i: usize = 0;
        proof {
            assert(all.subrange(0, 0) =~= Seq::<SelectorView>::empty());
            assert(commands.deep_view() =~= Seq::<Seq<char>>::empty());
        }
        while i < selectors.len()
            invariant
                i <= selectors.len(),
                all == selectors.deep_view(),
                command@ == minitest_command_spec(env@),
                commands.deep_view() == minitest_commands(env@, all.subrange(0, i as int)),
            decreases selectors.len() - i,
        {
            let ghost before = commands.deep_view();
            proof {
                let upto = all.subrange(0, i + 1);
                assert(upto.drop_last() =~= all.subrange(0, i as int));
                assert(upto.last() == selectors@[i as int]@);
            }
            match selectors[i] {
                TestSelector::PathWithLineNumber { path, line } => {
                    match find_test_pattern(env, path, *line) {
                        Some(pattern) => {
                            let file = quote_word(path.as_str());
                            let line = filtered_file_command(
                                command.as_str(),
                                file.as_str(),
                                pattern.as_str(),
                            );
                            commands.push(line);
                            proof {
                                assert(commands.deep_view() =~= before.push(line@));
                            }
                        },
                        None => {},
                    }
                },
                TestSelector::PathOnly { path } => {
                    let file = quote_word(path.as_str());
                    let line = file_command(command.as_str(), file.as_str());
                    commands.push(line);
                    proof {
                        assert(commands.deep_view() =~= before.push(line@));
                    }
                },
                TestSelector::NameOnly { name } => {
                    let line = name_command(command.as_str(), name.as_str());
                    commands.push(line);
                    proof {
                        assert(commands.deep_view() =~= before.push(line@));
                    }
                },
            }
            i += 1;
        }
        proof {
            assert(all.subrange(0, i as int) =~= all);
        }
        none_if_empty(commands)
    }
}

} // verus!
