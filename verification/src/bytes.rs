//! Byte strings: splitting into lines, searching, and decoding as text.
use crate::text::{has_substring, occurs_at};
use bstr::ByteSlice;
use vstd::prelude::*;
use vstd::utf8::{decode_utf8, valid_utf8};

verus! {

/// The byte that ends a line.
pub const LINE_FEED: u8 = 10;

/// The lines of `data`, terminators included: a line runs up to and including
/// the next line feed, and the last line to the end of `data`. Read from the
/// end, each byte joins the line before it unless that line is complete.
pub open spec fn split_lines(data: Seq<u8>) -> Seq<Seq<u8>>
    decreases data.len(),
{
    if data.len() == 0 {
        Seq::empty()
    } else {
        let before = split_lines(data.drop_last());
        if before.len() > 0 && !ends_line(before.last()) {
            before.drop_last().push(before.last().push(data.last()))
        } else {
            before.push(seq![data.last()])
        }
    }
}

/// `line` is complete: its last byte is a line feed.
pub open spec fn ends_line(line: Seq<u8>) -> bool {
    line.len() > 0 && line.last() == LINE_FEED
}

/// The lines put end to end.
pub open spec fn joined_lines(lines: Seq<Seq<u8>>) -> Seq<u8>
    decreases lines.len(),
{
    if lines.len() == 0 {
        Seq::empty()
    } else {
        joined_lines(lines.drop_last()) + lines.last()
    }
}

/// `line` has no line feed but, at most, at its end.
pub open spec fn is_one_line(line: Seq<u8>) -> bool {
    line.len() > 0 && forall|j: int| 0 <= j < line.len() - 1 ==> line[j] != LINE_FEED
}

/// The shape of `split_lines`: put end to end the lines give `data` again,
/// each is one line and not empty, and each but the last is complete.
pub proof fn lemma_split_lines_shape(data: Seq<u8>)
    ensures
        joined_lines(split_lines(data)) == data,
        forall|i: int|
            0 <= i < split_lines(data).len() ==> is_one_line(#[trigger] split_lines(data)[i]),
        forall|i: int|
            0 <= i < split_lines(data).len() - 1 ==> ends_line(#[trigger] split_lines(data)[i]),
    decreases data.len(),
{
    if data.len() == 0 {
        assert(joined_lines(split_lines(data)) =~= data);
    } else {
        let before = split_lines(data.drop_last());
        let lines = split_lines(data);
        lemma_split_lines_shape(data.drop_last());
        if before.len() > 0 && !ends_line(before.last()) {
            let longer = before.last().push(data.last());
            assert(lines.drop_last() =~= before.drop_last());
            assert(lines.last() == longer);
            assert(joined_lines(lines) =~= joined_lines(before).push(data.last()));
            assert forall|i: int| 0 <= i < lines.len() implies is_one_line(#[trigger] lines[i]) by {
                if i < lines.len() - 1 {
                    assert(lines[i] == before[i]);
                } else {
                    assert(is_one_line(before[i]));
                    assert forall|j: int| 0 <= j < longer.len() - 1 implies longer[j]
                        != LINE_FEED by {
                        assert(longer[j] == before[i][j]);
                    }
                }
            }
            assert forall|i: int| 0 <= i < lines.len() - 1 implies ends_line(
                #[trigger] lines[i],
            ) by {
                assert(lines[i] == before[i]);
            }
        } else {
            assert(lines.drop_last() =~= before);
            assert(joined_lines(lines) =~= joined_lines(before).push(data.last()));
            assert forall|i: int| 0 <= i < lines.len() implies is_one_line(#[trigger] lines[i]) by {
                if i < lines.len() - 1 {
                    assert(lines[i] == before[i]);
                }
            }
            assert forall|i: int| 0 <= i < lines.len() - 1 implies ends_line(
                #[trigger] lines[i],
            ) by {
                assert(lines[i] == before[i]);
            }
        }
        assert(data.drop_last().push(data.last()) =~= data);
    }
}

/// The error of bstr for bytes that are not valid UTF-8.
#[verifier::external_type_specification]
#[verifier::external_body]
pub struct ExUtf8Error(bstr::Utf8Error);

/// `ByteSlice::lines_with_terminator` of bstr, collected: the lines of `data`
/// in order, each a slice of `data` that runs up to and including the next
/// line feed, the last one to the end of `data` where no line feed follows.
/// Put end to end the lines give `data` again, and none is empty: that is
/// `split_lines`, as `lemma_split_lines_shape` shows.
#[verifier::external_body]
pub(crate) fn lines_with_terminator<'a>(data: &'a [u8]) -> (lines: Vec<&'a [u8]>)
    ensures
        lines@.len() == split_lines(data@).len(),
        forall|i: int| 0 <= i < lines@.len() ==> (#[trigger] lines@[i])@ == split_lines(data@)[i],
{
    data.lines_with_terminator().collect()
}

/// `ByteSlice::find` of bstr: the index of the first place in `haystack` at
/// which `needle` stands, or `None` where it stands nowhere.
#[verifier::external_body]
pub(crate) fn find(haystack: &[u8], needle: &[u8]) -> (r: Option<usize>)
    ensures
        match r {
            Some(i) => occurs_at(haystack@, needle@, i as int) && forall|j: int|
                0 <= j < i ==> !occurs_at(haystack@, needle@, j),
            None => !has_substring(haystack@, needle@),
        },
{
    haystack.find(needle)
}

/// `ByteSlice::to_str` of bstr: the text that `bytes` encode where they are
/// valid UTF-8, and an error where they are not.
#[verifier::external_body]
pub(crate) fn to_str<'a>(bytes: &'a [u8]) -> (r: Result<&'a str, bstr::Utf8Error>)
    ensures
        r is Ok <==> valid_utf8(bytes@),
        r matches Ok(text) ==> text@ == decode_utf8(bytes@),
{
    bytes.to_str()
}

} // verus!
