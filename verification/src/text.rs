//! Character-level helpers on strings: conversion between strings and
//! character vectors, substring search, trimming, and decimal numbers.
use vstd::prelude::*;

verus! {

/// `pat` stands in `text` at position `i`.
pub open spec fn occurs_at<T>(text: Seq<T>, pat: Seq<T>, i: int) -> bool {
    0 <= i && i + pat.len() <= text.len() && text.subrange(i, i + pat.len()) == pat
}

/// `pat` stands somewhere in `text` as a contiguous run.
pub open spec fn has_substring<T>(text: Seq<T>, pat: Seq<T>) -> bool {
    exists|i: int| occurs_at(text, pat, i)
}

/// `text` begins with `pat`.
pub open spec fn starts_with<T>(text: Seq<T>, pat: Seq<T>) -> bool {
    occurs_at(text, pat, 0)
}

/// `text` ends with `pat`.
pub open spec fn ends_with<T>(text: Seq<T>, pat: Seq<T>) -> bool {
    occurs_at(text, pat, text.len() - pat.len())
}

/// The characters that carry the Unicode property `White_Space`.
pub open spec fn is_white_space(c: char) -> bool {
    let n = c as u32;
    ||| 0x09 <= n <= 0x0D
    ||| n == 0x20
    ||| n == 0x85
    ||| n == 0xA0
    ||| n == 0x1680
    ||| 0x2000 <= n <= 0x200A
    ||| n == 0x2028
    ||| n == 0x2029
    ||| n == 0x202F
    ||| n == 0x205F
    ||| n == 0x3000
}

/// `char::is_whitespace` of std: true exactly for the characters with the
/// Unicode property `White_Space`, which `is_white_space` lists.
pub assume_specification[ char::is_whitespace ](c: char) -> (r: bool)
    ensures
        r == is_white_space(c),
;

/// `String::push` of std: appends one character to the end of the string.
pub assume_specification[ String::push ](s: &mut String, ch: char)
    ensures
        final(s)@ == old(s)@.push(ch),
;

/// `s` without its leading white space.
pub open spec fn trim_start(s: Seq<char>) -> Seq<char>
    decreases s.len(),
{
    if s.len() > 0 && is_white_space(s.first()) {
        trim_start(s.drop_first())
    } else {
        s
    }
}

/// `s` without its trailing white space.
pub open spec fn trim_end(s: Seq<char>) -> Seq<char>
    decreases s.len(),
{
    if s.len() > 0 && is_white_space(s.last()) {
        trim_end(s.drop_last())
    } else {
        s
    }
}

/// `s` without leading and trailing white space.
pub open spec fn trim(s: Seq<char>) -> Seq<char> {
    trim_end(trim_start(s))
}

/// `s` after `pat` has been taken from its front as often as it stands there.
/// An empty `pat` takes nothing.
pub open spec fn strip_prefixes(s: Seq<char>, pat: Seq<char>) -> Seq<char>
    decreases s.len(),
{
    if pat.len() > 0 && starts_with(s, pat) {
        strip_prefixes(s.subrange(pat.len() as int, s.len() as int), pat)
    } else {
        s
    }
}

/// `s` after `pat` has been taken from its end as often as it stands there.
/// An empty `pat` takes nothing.
pub open spec fn strip_suffixes(s: Seq<char>, pat: Seq<char>) -> Seq<char>
    decreases s.len(),
{
    if pat.len() > 0 && ends_with(s, pat) {
        strip_suffixes(s.subrange(0, s.len() - pat.len()), pat)
    } else {
        s
    }
}

/// The characters of `s`, in order.
pub fn chars_of(s: &str) -> (v: Vec<char>)
    ensures
        v@ == s@,
{
    let mut v: Vec<char> = Vec::new();
    for c in it: s.chars()
        invariant
            it.seq() == s@,
            v@ == s@.subrange(0, it.index() as int),
    {
        v.push(c);
    }
    v
}

/// Appends the characters `text[from..to]` to `out`.
pub fn push_chars(out: &mut String, text: &Vec<char>, from: usize, to: usize)
    requires
        from <= to <= text.len(),
    ensures
        final(out)@ == old(out)@ + text@.subrange(from as int, to as int),
{
    let mut i: usize = from;
    while i < to
        invariant
            from <= i <= to <= text.len(),
            out@ == old(out)@ + text@.subrange(from as int, i as int),
        decreases to - i,
    {
        out.push(text[i]);
        i += 1;
    }
}

/// The string that holds the characters `text[from..to]`.
pub fn string_of(text: &Vec<char>, from: usize, to: usize) -> (r: String)
    requires
        from <= to <= text.len(),
    ensures
        r@ == text@.subrange(from as int, to as int),
{
    let mut out = String::new();
    push_chars(&mut out, text, from, to);
    out
}

/// Whether `pat` stands in `text[from..to]` at its very start.
pub fn starts_with_at(text: &Vec<char>, from: usize, to: usize, pat: &Vec<char>) -> (r: bool)
    requires
        from <= to <= text.len(),
    ensures
        r == starts_with(text@.subrange(from as int, to as int), pat@),
{
    if pat.len() > to - from {
        return false;
    }
    let ghost window = text@.subrange(from as int, to as int);
    let mut k: usize = 0;
    while k < pat.len()
        invariant
            from <= to <= text.len(),
            pat.len() <= to - from,
            k <= pat.len(),
            window == text@.subrange(from as int, to as int),
            window.subrange(0, k as int) == pat@.subrange(0, k as int),
        decreases pat.len() - k,
    {
        if text[from + k] != pat[k] {
            proof {
                assert(window.subrange(0, pat.len() as int)[k as int] == window[k as int]);
            }
            return false;
        }
        proof {
            assert(window.subrange(0, k + 1) =~= window.subrange(0, k as int).push(
                window[k as int],
            ));
            assert(pat@.subrange(0, k + 1) =~= pat@.subrange(0, k as int).push(pat@[k as int]));
        }
        k += 1;
    }
    proof {
        assert(pat@.subrange(0, pat.len() as int) =~= pat@);
    }
    true
}

/// Whether `pat` stands somewhere in `text`.
pub fn contains(text: &Vec<char>, pat: &Vec<char>) -> (r: bool)
    ensures
        r == has_substring(text@, pat@),
{
    if pat.len() > text.len() {
        return false;
    }
    let last: usize = text.len() - pat.len();
    let mut i: usize = 0;
    loop
        invariant
            pat.len() <= text.len(),
            last == text.len() - pat.len(),
            i <= last,
            forall|j: int| 0 <= j < i ==> !occurs_at(text@, pat@, j),
        ensures
            !has_substring(text@, pat@),
        decreases last - i,
    {
        proof {
            let tail = text@.subrange(i as int, text.len() as int);
            assert(tail.subrange(0, pat.len() as int) =~= text@.subrange(
                i as int,
                i + pat.len(),
            ));
        }
        if starts_with_at(text, i, text.len(), pat) {
            assert(occurs_at(text@, pat@, i as int));
            return true;
        }
        if i == last {
            break;
        }
        i += 1;
    }
    false
}

/// Whether `pat` stands in `text[from..to]` at its very end.
pub fn ends_with_at(text: &Vec<char>, from: usize, to: usize, pat: &Vec<char>) -> (r: bool)
    requires
        from <= to <= text.len(),
    ensures
        r == ends_with(text@.subrange(from as int, to as int), pat@),
{
    if pat.len() > to - from {
        return false;
    }
    let at: usize = to - pat.len();
    proof {
        let window = text@.subrange(from as int, to as int);
        let tail = text@.subrange(at as int, to as int);
        assert(tail.subrange(0, pat.len() as int) =~= window.subrange(
            window.len() - pat.len(),
            window.len() as int,
        ));
    }
    starts_with_at(text, at, to, pat)
}

/// The bounds of `text` without its leading and trailing white space.
pub fn trim_bounds(text: &Vec<char>) -> (r: (usize, usize))
    ensures
        r.0 <= r.1 <= text.len(),
        text@.subrange(r.0 as int, r.1 as int) == trim(text@),
{
    let n: usize = text.len();
    let mut from: usize = 0;
    proof {
        assert(text@.subrange(0, n as int) =~= text@);
    }
    while from < n && text[from].is_whitespace()
        invariant
            from <= n == text.len(),
            trim_start(text@) == trim_start(text@.subrange(from as int, n as int)),
        decreases n - from,
    {
        proof {
            let rest = text@.subrange(from as int, n as int);
            assert(rest.drop_first() =~= text@.subrange(from + 1, n as int));
        }
        from += 1;
    }
    let mut to: usize = n;
    while from < to && text[to - 1].is_whitespace()
        invariant
            from <= to <= n == text.len(),
            trim_start(text@) == text@.subrange(from as int, n as int),
            trim(text@) == trim_end(text@.subrange(from as int, to as int)),
        decreases to - from,
    {
        proof {
            let rest = text@.subrange(from as int, to as int);
            assert(rest.drop_last() =~= text@.subrange(from as int, to - 1));
        }
        to -= 1;
    }
    (from, to)
}

/// Where `text[from..to]` begins once `pat` has been taken from its front as
/// often as it stands there.
pub fn skip_prefixes(text: &Vec<char>, from: usize, to: usize, pat: &Vec<char>) -> (r: usize)
    requires
        from <= to <= text.len(),
    ensures
        from <= r <= to,
        text@.subrange(r as int, to as int) == strip_prefixes(
            text@.subrange(from as int, to as int),
            pat@,
        ),
{
    let mut at: usize = from;
    if pat.len() == 0 {
        return at;
    }
    while starts_with_at(text, at, to, pat)
        invariant
            from <= at <= to <= text.len(),
            pat.len() > 0,
            strip_prefixes(text@.subrange(from as int, to as int), pat@) == strip_prefixes(
                text@.subrange(at as int, to as int),
                pat@,
            ),
        decreases to - at,
    {
        proof {
            let rest = text@.subrange(at as int, to as int);
            assert(rest.subrange(pat.len() as int, rest.len() as int) =~= text@.subrange(
                at + pat.len(),
                to as int,
            ));
        }
        at += pat.len();
    }
    at
}

/// Where `text[from..to]` ends once `pat` has been taken from its end as often
/// as it stands there.
pub fn skip_suffixes(text: &Vec<char>, from: usize, to: usize, pat: &Vec<char>) -> (r: usize)
    requires
        from <= to <= text.len(),
    ensures
        from <= r <= to,
        text@.subrange(from as int, r as int) == strip_suffixes(
            text@.subrange(from as int, to as int),
            pat@,
        ),
{
    let mut end: usize = to;
    if pat.len() == 0 {
        return end;
    }
    while ends_with_at(text, from, end, pat)
        invariant
            from <= end <= to <= text.len(),
            pat.len() > 0,
            strip_suffixes(text@.subrange(from as int, to as int), pat@) == strip_suffixes(
                text@.subrange(from as int, end as int),
                pat@,
            ),
        decreases end - from,
    {
        proof {
            let rest = text@.subrange(from as int, end as int);
            assert(rest.subrange(0, rest.len() - pat.len()) =~= text@.subrange(
                from as int,
                end - pat.len(),
            ));
        }
        end -= pat.len();
    }
    end
}

/// The decimal digit that stands for `d`, for `d` below ten.
pub open spec fn digit_char(d: nat) -> char {
    if d == 0 {
        '0'
    } else if d == 1 {
        '1'
    } else if d == 2 {
        '2'
    } else if d == 3 {
        '3'
    } else if d == 4 {
        '4'
    } else if d == 5 {
        '5'
    } else if d == 6 {
        '6'
    } else if d == 7 {
        '7'
    } else if d == 8 {
        '8'
    } else {
        '9'
    }
}

/// `n` written in decimal, without sign or leading zeros.
pub open spec fn decimal(n: nat) -> Seq<char>
    decreases n,
{
    if n < 10 {
        seq![digit_char(n)]
    } else {
        decimal(n / 10).push(digit_char(n % 10))
    }
}

/// `c` is one of the ten decimal digits.
pub open spec fn is_digit(c: char) -> bool {
    '0' <= c <= '9'
}

/// The value of the decimal digit `c`.
pub open spec fn digit_value(c: char) -> nat {
    (c as u32 - '0' as u32) as nat
}

/// Every character of `s` is a decimal digit.
pub open spec fn all_digits(s: Seq<char>) -> bool {
    forall|i: int| 0 <= i < s.len() ==> is_digit(#[trigger] s[i])
}

/// The number that the digits `s` write, most significant digit first.
pub open spec fn digits_value(s: Seq<char>) -> nat
    decreases s.len(),
{
    if s.len() == 0 {
        0
    } else {
        digits_value(s.drop_last()) * 10 + digit_value(s.last())
    }
}

/// `s` without a leading plus sign.
pub open spec fn unsigned_body(s: Seq<char>) -> Seq<char> {
    if s.len() > 0 && s[0] == '+' {
        s.drop_first()
    } else {
        s
    }
}

/// The number that `s` writes: an optional plus sign, then one or more decimal
/// digits whose value fits in 32 bits. Anything else writes no number.
pub open spec fn parse_u32_spec(s: Seq<char>) -> Option<u32> {
    let body = unsigned_body(s);
    if body.len() > 0 && all_digits(body) && digits_value(body) <= u32::MAX {
        Some(digits_value(body) as u32)
    } else {
        None
    }
}

/// The value of a run of digits never falls when more digits follow.
pub proof fn lemma_digits_value_grows(s: Seq<char>, k: int)
    requires
        0 <= k <= s.len(),
    ensures
        digits_value(s.subrange(0, k)) <= digits_value(s),
    decreases s.len() - k,
{
    if k == s.len() {
        assert(s.subrange(0, k) =~= s);
    } else {
        lemma_digits_value_grows(s.drop_last(), k);
        assert(s.drop_last().subrange(0, k) =~= s.subrange(0, k));
    }
}

fn digit_of(d: u32) -> (c: char)
    requires
        d < 10,
    ensures
        c == digit_char(d as nat),
{
    if d == 0 {
        '0'
    } else if d == 1 {
        '1'
    } else if d == 2 {
        '2'
    } else if d == 3 {
        '3'
    } else if d == 4 {
        '4'
    } else if d == 5 {
        '5'
    } else if d == 6 {
        '6'
    } else if d == 7 {
        '7'
    } else if d == 8 {
        '8'
    } else {
        '9'
    }
}

/// Appends `n` in decimal to `out`.
pub fn push_decimal(out: &mut String, n: u32)
    ensures
        final(out)@ == old(out)@ + decimal(n as nat),
    decreases n,
{
    if n >= 10 {
        push_decimal(out, n / 10);
    }
    out.push(digit_of(n % 10));
}

/// Reads `text` as an unsigned number of 32 bits.
pub fn parse_u32(text: &Vec<char>) -> (r: Option<u32>)
    ensures
        r == parse_u32_spec(text@),
{
    let n: usize = text.len();
    let start: usize = if n > 0 && text[0] == '+' {
        1
    } else {
        0
    };
    let ghost body = unsigned_body(text@);
    proof {
        assert(body =~= text@.subrange(start as int, n as int));
    }
    if start == n {
        return None;
    }
    let mut acc: u64 = 0;
    let mut i: usize = start;
    while i < n
        invariant
            start <= i <= n == text.len(),
            body == text@.subrange(start as int, n as int),
            body == unsigned_body(text@),
            all_digits(body.subrange(0, i - start)),
            acc == digits_value(body.subrange(0, i - start)),
            acc <= u32::MAX,
        decreases n - i,
    {
        let c: char = text[i];
        if !('0' <= c && c <= '9') {
            proof {
                assert(body[i - start] == c);
                assert(!is_digit(body[i - start]));
            }
            return None;
        }
        let d: u64 = (c as u32 - '0' as u32) as u64;
        proof {
            let next = body.subrange(0, i - start + 1);
            assert(next.drop_last() =~= body.subrange(0, i - start));
            assert(next.last() == c);
        }
        acc = acc * 10 + d;
        proof {
            let next = body.subrange(0, i - start + 1);
            assert(acc == digits_value(next));
            assert forall|j: int| 0 <= j < next.len() implies is_digit(#[trigger] next[j]) by {
                if j < i - start {
                    assert(next[j] == body.subrange(0, i - start)[j]);
                }
            }
        }
        if acc > 0xFFFF_FFFF {
            proof {
                lemma_digits_value_grows(body, i - start + 1);
            }
            return None;
        }
        i += 1;
    }
    proof {
        assert(body.subrange(0, n - start) =~= body);
    }
    Some(acc as u32)
}

/// The position of the first `c` in `s`, if `c` occurs there.
pub open spec fn position_of(s: Seq<char>, c: char) -> Option<int>
    decreases s.len(),
{
    if s.len() == 0 {
        None
    } else if s[0] == c {
        Some(0)
    } else {
        match position_of(s.drop_first(), c) {
            Some(i) => Some(i + 1),
            None => None,
        }
    }
}

/// `position_of` gives the first position that holds `c`, and gives none
/// exactly when no position holds it.
pub proof fn lemma_position_of(s: Seq<char>, c: char)
    ensures
        match position_of(s, c) {
            Some(i) => 0 <= i < s.len() && s[i] == c && forall|j: int| 0 <= j < i ==> s[j] != c,
            None => forall|j: int| 0 <= j < s.len() ==> s[j] != c,
        },
    decreases s.len(),
{
    if s.len() > 0 && s[0] != c {
        let rest = s.drop_first();
        lemma_position_of(rest, c);
        match position_of(rest, c) {
            Some(i) => {
                assert forall|j: int| 0 <= j < i + 1 implies s[j] != c by {
                    if j > 0 {
                        assert(s[j] == rest[j - 1]);
                    }
                }
            },
            None => {
                assert forall|j: int| 0 <= j < s.len() implies s[j] != c by {
                    if j > 0 {
                        assert(s[j] == rest[j - 1]);
                    }
                }
            },
        }
    }
}

/// The position of the first `c` in `text`, if `c` occurs there.
pub fn find_char(text: &Vec<char>, c: char) -> (r: Option<usize>)
    ensures
        match r {
            Some(i) => i < text.len() && position_of(text@, c) == Some(i as int),
            None => position_of(text@, c) is None,
        },
{
    let mut i: usize = 0;
    while i < text.len()
        invariant
            i <= text.len(),
            forall|j: int| 0 <= j < i ==> text@[j] != c,
        decreases text.len() - i,
    {
        if text[i] == c {
            proof {
                lemma_position_of(text@, c);
            }
            return Some(i);
        }
        i += 1;
    }
    proof {
        lemma_position_of(text@, c);
    }
    None
}

/// A copy of the characters `text[from..to]`.
pub fn sub_chars(text: &Vec<char>, from: usize, to: usize) -> (r: Vec<char>)
    requires
        from <= to <= text.len(),
    ensures
        r@ == text@.subrange(from as int, to as int),
{
    let mut out: Vec<char> = Vec::new();
    let mut i: usize = from;
    while i < to
        invariant
            from <= i <= to <= text.len(),
            out@ == text@.subrange(from as int, i as int),
        decreases to - i,
    {
        out.push(text[i]);
        i += 1;
    }
    out
}

/// A number written in decimal reads back as itself: `decimal` gives one or
/// more digits, without a sign, whose value is the number.
pub proof fn lemma_decimal_reads_back(n: nat)
    ensures
        decimal(n).len() > 0,
        all_digits(decimal(n)),
        digits_value(decimal(n)) == n,
        unsigned_body(decimal(n)) == decimal(n),
    decreases n,
{
    let d = digit_char(n % 10);
    assert(is_digit(d) && digit_value(d) == n % 10);
    if n < 10 {
        assert(decimal(n).drop_last() =~= Seq::<char>::empty());
        assert(digits_value(decimal(n).drop_last()) == 0);
    } else {
        lemma_decimal_reads_back(n / 10);
        assert(decimal(n).drop_last() =~= decimal(n / 10));
        assert(decimal(n)[0] == decimal(n / 10)[0]);
    }
    assert(is_digit(decimal(n)[0]));
}

/// What `push_decimal` writes for a number of 32 bits, `parse_u32` reads as
/// that number.
pub proof fn lemma_decimal_parses(n: u32)
    ensures
        parse_u32_spec(decimal(n as nat)) == Some(n),
{
    lemma_decimal_reads_back(n as nat);
}

/// `s` with each single quote written so that it can stand inside a word in
/// single quotes: the quote ends the word, an escaped quote follows, and the
/// word begins again.
pub open spec fn escaped_quotes(s: Seq<char>) -> Seq<char>
    decreases s.len(),
{
    if s.len() == 0 {
        Seq::empty()
    } else if s.last() == '\'' {
        escaped_quotes(s.drop_last()) + "'\\''"@
    } else {
        escaped_quotes(s.drop_last()).push(s.last())
    }
}

/// `s` as one word of a Unix shell, in single quotes.
pub open spec fn single_quoted(s: Seq<char>) -> Seq<char> {
    "'"@ + escaped_quotes(s) + "'"@
}

/// Text without a single quote is quoted as it stands.
pub proof fn lemma_plain_text_is_quoted_unchanged(s: Seq<char>)
    requires
        forall|i: int| 0 <= i < s.len() ==> s[i] != '\'',
    ensures
        escaped_quotes(s) == s,
        single_quoted(s) == "'"@ + s + "'"@,
    decreases s.len(),
{
    if s.len() > 0 {
        lemma_plain_text_is_quoted_unchanged(s.drop_last());
        assert(s.drop_last().push(s.last()) =~= s);
    } else {
        assert(s =~= Seq::<char>::empty());
    }
}

/// Appends `text` to `out` as one word of a Unix shell, in single quotes.
pub fn push_single_quoted(out: &mut String, text: &str)
    ensures
        final(out)@ == old(out)@ + single_quoted(text@),
{
    let chars = chars_of(text);
    out.append("'");
    let ghost opened = out@;
    let mut i: usize = 0;
    proof {
        assert(chars@.subrange(0, 0) =~= Seq::<char>::empty());
        assert(opened + Seq::<char>::empty() =~= opened);
    }
    while i < chars.len()
        invariant
            i <= chars.len(),
            chars@ == text@,
            opened == old(out)@ + "'"@,
            out@ == opened + escaped_quotes(chars@.subrange(0, i as int)),
        decreases chars.len() - i,
    {
        let ghost done = escaped_quotes(chars@.subrange(0, i as int));
        proof {
            let upto = chars@.subrange(0, i + 1);
            assert(upto.drop_last() =~= chars@.subrange(0, i as int));
            assert(upto.last() == chars@[i as int]);
        }
        if chars[i] == '\'' {
            out.append("'\\''");
            proof {
                assert(opened + done + "'\\''"@ =~= opened + (done + "'\\''"@));
            }
        } else {
            out.push(chars[i]);
            proof {
                assert((opened + done).push(chars@[i as int]) =~= opened + done.push(
                    chars@[i as int],
                ));
            }
        }
        i += 1;
    }
    proof {
        assert(chars@.subrange(0, i as int) =~= chars@);
    }
    out.append("'");
    proof {
        assert(opened + escaped_quotes(text@) + "'"@ =~= old(out)@ + single_quoted(text@));
    }
}

} // verus!
