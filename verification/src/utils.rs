//! Questions put to the environment: whether a file exists, and whether a
//! file mentions a name.
use crate::bytes::{ends_line, find, lines_with_terminator, split_lines, to_str};
use crate::environment::{Environment, EnvironmentView};
use crate::text::has_substring;
use vstd::prelude::*;
use vstd::slice::slice_subrange;
use vstd::utf8::{encode_utf8, valid_utf8};

verus! {

/// The byte that precedes the line feed in a two-byte line ending.
pub const CARRIAGE_RETURN: u8 = 13;

/// `line` without its ending: without a final line feed, and without the
/// carriage return before that line feed where there is one.
pub open spec fn line_body(line: Seq<u8>) -> Seq<u8> {
    if ends_line(line) {
        let cut = line.drop_last();
        if cut.len() > 0 && cut.last() == CARRIAGE_RETURN {
            cut.drop_last()
        } else {
            cut
        }
    } else {
        line
    }
}

/// `name` stands in the body of `line`. A line that is not valid UTF-8 counts
/// as empty text, in which only the empty name stands.
pub open spec fn line_mentions(line: Seq<u8>, name: Seq<u8>) -> bool {
    if valid_utf8(line) {
        has_substring(line_body(line), name)
    } else {
        name.len() == 0
    }
}

/// Some line of `content` mentions `name`.
pub open spec fn mentions(content: Seq<u8>, name: Seq<char>) -> bool {
    exists|i: int|
        0 <= i < split_lines(content).len() && line_mentions(
            #[trigger] split_lines(content)[i],
            encode_utf8(name),
        )
}

/// A readable file stands at `file` in `env`, and one of its lines mentions
/// `name`.
pub open spec fn is_in_file_spec(
    env: EnvironmentView,
    file: Seq<char>,
    name: Seq<char>,
) -> bool {
    env.contains_key(file) && env[file] is Some && mentions(env[file]->0, name)
}

fn line_mentions_name(line: &[u8], name: &str) -> (r: bool)
    ensures
        r == line_mentions(line@, encode_utf8(name@)),
{
    let wanted = name.as_bytes();
    match to_str(line) {
        Err(_) => wanted.len() == 0,
        Ok(_) => {
            let n: usize = line.len();
            let mut end: usize = n;
            if n > 0 && line[n - 1] == 10 {
                end = n - 1;
                if end > 0 && line[end - 1] == 13 {
                    end = end - 1;
                }
            }
            let body = slice_subrange(line, 0, end);
            proof {
                assert(body@ =~= line_body(line@));
            }
            find(body, wanted).is_some()
        },
    }
}

/// Test if the name is in a file: whether a readable file stands at `file` and
/// one of its lines holds `name`.
pub fn is_in_file(env: &Environment, file: &str, name: &str) -> (r: bool)
    ensures
        r == is_in_file_spec(env@, file@, name@),
{
    match env.read(file) {
        None => false,
        Some(content) => {
            let lines = lines_with_terminator(content.as_slice());
            let ghost all = split_lines(content@);
            let mut i: usize = 0;
            while i < lines.len()
                invariant
                    i <= lines.len(),
                    lines@.len() == all.len(),
                    all == split_lines(content@),
                    env@.contains_key(file@),
                    env@[file@] == Some(content@),
                    forall|j: int| 0 <= j < lines@.len() ==> (#[trigger] lines@[j])@ == all[j],
                    forall|j: int|
                        0 <= j < i ==> !line_mentions(#[trigger] all[j], encode_utf8(name@)),
                decreases lines.len() - i,
            {
                if line_mentions_name(lines[i], name) {
                    assert(line_mentions(all[i as int], encode_utf8(name@)));
                    return true;
                }
                i += 1;
            }
            false
        },
    }
}

/// Check to see if the given file exists.
pub fn file_exists(env: &Environment, path: &str) -> (r: bool)
    ensures
        r == env@.contains_key(path@),
{
    env.file_exists(path)
}

} // verus!
