//! Command lines for a Unix shell: joining words into a line, and parting a
//! line into words.
use vstd::prelude::*;

verus! {

/// The command line that `shell_words::join` makes of `words`: each word
/// quoted for a Unix shell, with single spaces between them.
pub uninterp spec fn shell_joined(words: Seq<Seq<char>>) -> Seq<char>;

/// The words into which `shell_words::split` parts a command line, or `None`
/// where the line cannot be parted.
pub uninterp spec fn shell_split_words(line: Seq<char>) -> Option<Seq<Seq<char>>>;

/// `shell_words::join`: joins the words into one command line, quoting each so
/// that a Unix shell reads it back as the same word. The result depends on the
/// words alone.
#[verifier::external_body]
pub(crate) fn shell_join(words: &Vec<String>) -> (r: String)
    ensures
        r@ == shell_joined(words.deep_view()),
{
    shell_words::join(words)
}

/// `shell_words::split`: parts a command line into words as a Unix shell
/// does, and gives none where a quote is left open. The result depends on the
/// line alone.
#[verifier::external_body]
pub(crate) fn shell_split(line: &str) -> (r: Option<Vec<String>>)
    ensures
        match r {
            Some(words) => shell_split_words(line@) == Some(words.deep_view()),
            None => shell_split_words(line@) is None,
        },
{
    shell_words::split(line).ok()
}

/// `word` as it stands in a command line, quoted where a shell needs it.
pub fn quote_word(word: &str) -> (r: String)
    ensures
        r@ == shell_joined(seq![word@]),
{
    let words = vec![word.to_owned()];
    proof {
        assert(words.deep_view() =~= seq![word@]);
    }
    shell_join(&words)
}

} // verus!
