//! Selectors: what the user names to be tested, and how it is read from text.
use crate::environment::{Environment, EnvironmentView};
use crate::test_file::TestFile;
use crate::text::{
    chars_of, decimal, find_char, lemma_decimal_parses, lemma_position_of, parse_u32,
    parse_u32_spec, position_of, string_of, sub_chars,
};
use vstd::prelude::*;

verus! {

/// A reference to what should be tested.
#[derive(Debug, PartialEq)]
pub enum TestSelector {
    /// A file and a line in it, counted from one.
    PathWithLineNumber { path: TestFile, line: u32 },
    /// A file as a whole.
    PathOnly { path: TestFile },
    /// The name of a test, or a pattern for names.
    NameOnly { name: String },
}

/// A selector as a mathematical value.
pub enum SelectorView {
    PathWithLineNumber { path: Seq<char>, line: u32 },
    PathOnly { path: Seq<char> },
    NameOnly { name: Seq<char> },
}

impl View for TestSelector {
    type V = SelectorView;

    open spec fn view(&self) -> SelectorView {
        match *self {
            TestSelector::PathWithLineNumber { path, line } => SelectorView::PathWithLineNumber {
                path: path@,
                line,
            },
            TestSelector::PathOnly { path } => SelectorView::PathOnly { path: path@ },
            TestSelector::NameOnly { name } => SelectorView::NameOnly { name: name@ },
        }
    }
}

impl DeepView for TestSelector {
    type V = SelectorView;

    open spec fn deep_view(&self) -> SelectorView {
        self@
    }
}

impl Clone for TestSelector {
    fn clone(&self) -> (r: Self)
        ensures
            r@ == self@,
    {
        match self {
            TestSelector::PathWithLineNumber { path, line } => TestSelector::PathWithLineNumber {
                path: path.clone(),
                line: *line,
            },
            TestSelector::PathOnly { path } => TestSelector::PathOnly { path: path.clone() },
            TestSelector::NameOnly { name } => TestSelector::NameOnly { name: name.clone() },
        }
    }
}

/// Why a text could not be read as a selector.
#[derive(Debug, PartialEq)]
pub enum ParseError {
    /// The text has a colon, and nothing exists at the path before it.
    FileNotFound { path: String },
    /// The text has a colon, and what follows it is no line number.
    InvalidLineNumber { text: String },
}

/// A parse error as a mathematical value.
pub enum ParseErrorView {
    FileNotFound { path: Seq<char> },
    InvalidLineNumber { text: Seq<char> },
}

impl View for ParseError {
    type V = ParseErrorView;

    open spec fn view(&self) -> ParseErrorView {
        match *self {
            ParseError::FileNotFound { path } => ParseErrorView::FileNotFound { path: path@ },
            ParseError::InvalidLineNumber { text } => ParseErrorView::InvalidLineNumber {
                text: text@,
            },
        }
    }
}

impl ParseError {
    /// A sentence that names the error.
    pub fn message(&self) -> (r: String)
        ensures
            r@ == match self@ {
                ParseErrorView::FileNotFound { path } => "File does not exist: "@ + path,
                ParseErrorView::InvalidLineNumber { text } => "Invalid line number: "@ + text,
            },
    {
        match self {
            ParseError::FileNotFound { path } => {
                let mut out = "File does not exist: ".to_owned();
                out.append(path.as_str());
                out
            },
            ParseError::InvalidLineNumber { text } => {
                let mut out = "Invalid line number: ".to_owned();
                out.append(text.as_str());
                out
            },
        }
    }
}

/// What a text selects in a given environment.
///
/// A text with a colon is split at its first colon into a path and a line
/// number: the path must exist and the number must parse. A text without a
/// colon is a path if it exists, and a name otherwise.
pub open spec fn parse_spec(env: EnvironmentView, raw: Seq<char>) -> Result<
    SelectorView,
    ParseErrorView,
> {
    match position_of(raw, ':') {
        Some(i) => {
            let path = raw.subrange(0, i);
            let text = raw.subrange(i + 1, raw.len() as int);
            if !env.contains_key(path) {
                Err(ParseErrorView::FileNotFound { path })
            } else {
                match parse_u32_spec(text) {
                    Some(line) => Ok(SelectorView::PathWithLineNumber { path, line }),
                    None => Err(ParseErrorView::InvalidLineNumber { text }),
                }
            }
        },
        None => {
            if env.contains_key(raw) {
                Ok(SelectorView::PathOnly { path: raw })
            } else {
                Ok(SelectorView::NameOnly { name: raw })
            }
        },
    }
}

/// The outcome of a parse as a mathematical value.
pub open spec fn parsed_view(r: Result<TestSelector, ParseError>) -> Result<
    SelectorView,
    ParseErrorView,
> {
    match r {
        Ok(selector) => Ok(selector@),
        Err(error) => Err(error@),
    }
}

impl TestSelector {
    /// Reads `raw` as a selector, with `env` deciding which paths exist.
    pub fn parse(env: &Environment, raw: &str) -> (r: Result<TestSelector, ParseError>)
        ensures
            parsed_view(r) == parse_spec(env@, raw@),
    {
        let chars = chars_of(raw);
        match find_char(&chars, ':') {
            Some(i) => {
                let path = string_of(&chars, 0, i);
                if !env.file_exists(path.as_str()) {
                    return Err(ParseError::FileNotFound { path });
                }
                let digits = sub_chars(&chars, i + 1, chars.len());
                match parse_u32(&digits) {
                    Some(line) => Ok(
                        TestSelector::PathWithLineNumber { path: TestFile::new(path), line },
                    ),
                    None => Err(
                        ParseError::InvalidLineNumber {
                            text: string_of(&chars, i + 1, chars.len()),
                        },
                    ),
                }
            },
            None => {
                if env.file_exists(raw) {
                    Ok(TestSelector::PathOnly { path: TestFile::new(raw.to_owned()) })
                } else {
                    Ok(TestSelector::NameOnly { name: raw.to_owned() })
                }
            },
        }
    }
}

/// Reads each of `args` as a selector, in order, and stops at the first that
/// cannot be read.
pub open spec fn parse_all_spec(env: EnvironmentView, args: Seq<Seq<char>>) -> Result<
    Seq<SelectorView>,
    ParseErrorView,
>
    decreases args.len(),
{
    if args.len() == 0 {
        Ok(Seq::empty())
    } else {
        match parse_all_spec(env, args.drop_last()) {
            Err(error) => Err(error),
            Ok(selectors) => match parse_spec(env, args.last()) {
                Err(error) => Err(error),
                Ok(selector) => Ok(selectors.push(selector)),
            },
        }
    }
}

/// The outcome of parsing a list as a mathematical value.
pub open spec fn parsed_all_view(r: Result<Vec<TestSelector>, ParseError>) -> Result<
    Seq<SelectorView>,
    ParseErrorView,
> {
    match r {
        Ok(selectors) => Ok(selectors.deep_view()),
        Err(error) => Err(error@),
    }
}

/// Reads every argument as a selector. The first argument that cannot be read
/// decides the error.
pub fn parse_selectors(env: &Environment, args: &Vec<String>) -> (r: Result<
    Vec<TestSelector>,
    ParseError,
>)
    ensures
        parsed_all_view(r) == parse_all_spec(env@, args.deep_view()),
{
    let mut selectors: Vec<TestSelector> = Vec::new();
    let mut i: usize = 0;
    proof {
        assert(args.deep_view().subrange(0, 0) =~= Seq::<Seq<char>>::empty());
        assert(selectors.deep_view() =~= Seq::<SelectorView>::empty());
    }
    while i < args.len()
        invariant
            i <= args.len(),
            parse_all_spec(env@, args.deep_view().subrange(0, i as int)) == Ok::<
                Seq<SelectorView>,
                ParseErrorView,
            >(selectors.deep_view()),
        decreases args.len() - i,
    {
        proof {
            let upto = args.deep_view().subrange(0, i + 1);
            assert(upto.drop_last() =~= args.deep_view().subrange(0, i as int));
            assert(upto.last() == args@[i as int]@);
        }
        match TestSelector::parse(env, args[i].as_str()) {
            Err(error) => {
                proof {
                    lemma_parse_all_stops(env@, args.deep_view(), i + 1);
                }
                return Err(error);
            },
            Ok(selector) => {
                let ghost before = selectors.deep_view();
                selectors.push(selector);
                proof {
                    assert(selectors.deep_view() =~= before.push(selector@));
                }
            },
        }
        i += 1;
    }
    proof {
        assert(args.deep_view().subrange(0, i as int) =~= args.deep_view());
    }
    Ok(selectors)
}

/// An error among the first `k` arguments is the error of the whole list.
pub proof fn lemma_parse_all_stops(
    env: EnvironmentView,
    args: Seq<Seq<char>>,
    k: int,
)
    requires
        0 <= k <= args.len(),
        parse_all_spec(env, args.subrange(0, k)) is Err,
    ensures
        parse_all_spec(env, args) == parse_all_spec(env, args.subrange(0, k)),
    decreases args.len() - k,
{
    if k == args.len() {
        assert(args.subrange(0, k) =~= args);
    } else {
        assert(args.drop_last().subrange(0, k) =~= args.subrange(0, k));
        lemma_parse_all_stops(env, args.drop_last(), k);
    }
}

/// Parsing a path, a colon and a line number: where the path has no colon of
/// its own, the text reads as that line of that path if the path exists, and
/// fails for want of the file if it does not.
pub proof fn lemma_parse_path_and_line(env: EnvironmentView, path: Seq<char>, line: u32)
    requires
        position_of(path, ':') is None,
    ensures
        parse_spec(env, path.push(':') + decimal(line as nat)) == (if env.contains_key(path) {
            Ok::<SelectorView, ParseErrorView>(SelectorView::PathWithLineNumber { path, line })
        } else {
            Err::<SelectorView, ParseErrorView>(ParseErrorView::FileNotFound { path })
        }),
{
    let raw = path.push(':') + decimal(line as nat);
    lemma_position_of(path, ':');
    lemma_position_of(raw, ':');
    assert(raw[path.len() as int] == ':');
    assert forall|j: int| 0 <= j < path.len() implies raw[j] != ':' by {
        assert(raw[j] == path[j]);
    }
    assert(position_of(raw, ':') == Some(path.len() as int));
    assert(raw.subrange(0, path.len() as int) =~= path);
    assert(raw.subrange(path.len() as int + 1, raw.len() as int) =~= decimal(line as nat));
    lemma_decimal_parses(line);
}

/// Parsing a text without a colon never fails: the text is a path if it
/// exists, and a name otherwise.
pub proof fn lemma_parse_without_colon(env: EnvironmentView, raw: Seq<char>)
    requires
        position_of(raw, ':') is None,
    ensures
        parse_spec(env, raw) == (if env.contains_key(raw) {
            Ok::<SelectorView, ParseErrorView>(SelectorView::PathOnly { path: raw })
        } else {
            Ok::<SelectorView, ParseErrorView>(SelectorView::NameOnly { name: raw })
        }),
{
}

/// The path whose existence decides how `raw` is read: what stands before the
/// first colon, or all of `raw` where it has no colon.
pub open spec fn probed_path(raw: Seq<char>) -> Seq<char> {
    match position_of(raw, ':') {
        Some(i) => raw.subrange(0, i),
        None => raw,
    }
}

/// The path whose existence decides how `raw` is read.
pub fn path_to_probe(raw: &str) -> (r: String)
    ensures
        r@ == probed_path(raw@),
{
    let chars = chars_of(raw);
    match find_char(&chars, ':') {
        Some(i) => string_of(&chars, 0, i),
        None => raw.to_owned(),
    }
}

/// Parsing asks the environment one question only: two environments that
/// agree on whether the probed path exists read the text alike.
pub proof fn lemma_parse_reads_one_path(
    first: EnvironmentView,
    second: EnvironmentView,
    raw: Seq<char>,
)
    requires
        first.contains_key(probed_path(raw)) == second.contains_key(probed_path(raw)),
    ensures
        parse_spec(first, raw) == parse_spec(second, raw),
{
}

} // verus!
