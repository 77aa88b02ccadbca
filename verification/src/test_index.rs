//! An index of the lines of a file that hold a marker, and the search for the
//! entry nearest to a line.
use crate::bytes::{find, lines_with_terminator, split_lines, to_str};
use crate::environment::{Environment, EnvironmentView};
use crate::test_file::TestFile;
use crate::text::has_substring;
use vstd::prelude::*;
use vstd::utf8::{decode_utf8, encode_utf8, valid_utf8};

verus! {

/// An indexed test.
#[derive(Debug, PartialEq)]
pub struct IndexEntry {
    line_number: u32,
    content: String,
}

/// An entry as a mathematical value: the number of a line, counted from one,
/// and the text of that line.
pub struct EntryView {
    pub line_number: u32,
    pub content: Seq<char>,
}

impl View for IndexEntry {
    type V = EntryView;

    closed spec fn view(&self) -> EntryView {
        EntryView { line_number: self.line_number, content: self.content@ }
    }
}

impl DeepView for IndexEntry {
    type V = EntryView;

    open spec fn deep_view(&self) -> EntryView {
        self@
    }
}

impl IndexEntry {
    /// Creates a new [`IndexEntry`] from a line number and content.
    pub fn new(line_number: u32, content: String) -> (r: Self)
        ensures
            r@ == (EntryView { line_number, content: content@ }),
    {
        Self { line_number, content }
    }

    /// Returns the content of the test.
    pub fn content(&self) -> (r: &str)
        ensures
            r@ == self@.content,
    {
        self.content.as_str()
    }

    /// Returns the number of the line the entry stands for.
    pub fn line_number(&self) -> (r: u32)
        ensures
            r == self@.line_number,
    {
        self.line_number
    }
}

impl Clone for IndexEntry {
    fn clone(&self) -> (r: Self)
        ensures
            r@ == self@,
    {
        Self { line_number: self.line_number, content: self.content.clone() }
    }
}

/// Why no index could be built.
#[derive(Debug, PartialEq, Eq, Clone, Copy, Structural)]
pub enum IndexError {
    /// No readable file stands at the path.
    IoError,
    /// The file has more lines than a line number can count.
    TooManyLines,
}

/// Searches and indexes a test file.
#[derive(Debug, PartialEq)]
pub struct TestIndex {
    entries: Vec<IndexEntry>,
}

impl View for TestIndex {
    type V = Seq<EntryView>;

    /// The entries, in the order of their lines.
    closed spec fn view(&self) -> Seq<EntryView> {
        self.entries.deep_view()
    }
}

/// Some pattern stands in `line`.
pub open spec fn line_is_marked(line: Seq<u8>, patterns: Seq<Seq<u8>>) -> bool {
    exists|k: int| 0 <= k < patterns.len() && has_substring(line, #[trigger] patterns[k])
}

/// The entries for `lines`: one for each line that holds a pattern and is
/// valid UTF-8, numbered by the line's place, counted from one.
pub open spec fn entries_of(lines: Seq<Seq<u8>>, patterns: Seq<Seq<u8>>) -> Seq<EntryView>
    decreases lines.len(),
{
    if lines.len() == 0 {
        Seq::empty()
    } else {
        let before = entries_of(lines.drop_last(), patterns);
        let line = lines.last();
        if line_is_marked(line, patterns) && valid_utf8(line) {
            before.push(EntryView { line_number: lines.len() as u32, content: decode_utf8(line) })
        } else {
            before
        }
    }
}

/// The patterns as the bytes that encode them.
pub open spec fn encoded(patterns: Seq<Seq<char>>) -> Seq<Seq<u8>> {
    Seq::new(patterns.len(), |k: int| encode_utf8(patterns[k]))
}

/// The index of a file that holds `data`.
pub open spec fn scan_spec(data: Seq<u8>, patterns: Seq<Seq<char>>) -> Result<
    Seq<EntryView>,
    IndexError,
> {
    let lines = split_lines(data);
    if lines.len() > u32::MAX {
        Err(IndexError::TooManyLines)
    } else {
        Ok(entries_of(lines, encoded(patterns)))
    }
}

/// The index of the file at `path` in `env`.
pub open spec fn build_spec(
    env: EnvironmentView,
    path: Seq<char>,
    patterns: Seq<Seq<char>>,
) -> Result<Seq<EntryView>, IndexError> {
    if env.contains_key(path) && env[path] is Some {
        scan_spec(env[path]->0, patterns)
    } else {
        Err(IndexError::IoError)
    }
}

/// The outcome of a build as a mathematical value.
pub open spec fn built_view(r: Result<TestIndex, IndexError>) -> Result<
    Seq<EntryView>,
    IndexError,
> {
    match r {
        Ok(index) => Ok(index@),
        Err(error) => Err(error),
    }
}

/// How far apart two line numbers are.
pub open spec fn distance(a: u32, b: u32) -> nat {
    if a >= b {
        (a - b) as nat
    } else {
        (b - a) as nat
    }
}

/// The entry at `k` is the closest to `line`: none is nearer, and every
/// entry before it is farther.
pub open spec fn is_closest(entries: Seq<EntryView>, line: u32, k: int) -> bool {
    &&& 0 <= k < entries.len()
    &&& forall|j: int|
        0 <= j < entries.len() ==> distance(entries[k].line_number, line) <= distance(
            (#[trigger] entries[j]).line_number,
            line,
        )
    &&& forall|j: int|
        0 <= j < k ==> distance(entries[k].line_number, line) < distance(
            (#[trigger] entries[j]).line_number,
            line,
        )
}

/// The entry of `entries` that is the closest to `line`, where there is any
/// entry at all.
pub open spec fn closest_entry(entries: Seq<EntryView>, line: u32) -> Option<EntryView> {
    if entries.len() == 0 {
        None
    } else {
        Some(entries[choose|k: int| is_closest(entries, line, k)])
    }
}

/// Where there is an entry, one of them is the closest to a line.
pub proof fn lemma_closest_exists(entries: Seq<EntryView>, line: u32)
    requires
        entries.len() > 0,
    ensures
        exists|k: int| is_closest(entries, line, k),
    decreases entries.len(),
{
    if entries.len() == 1 {
        assert(is_closest(entries, line, 0));
    } else {
        let before = entries.drop_last();
        let last = entries.len() - 1;
        lemma_closest_exists(before, line);
        let k = choose|k: int| is_closest(before, line, k);
        assert(forall|j: int| 0 <= j < last ==> entries[j] == before[j]);
        if distance(entries[last].line_number, line) < distance(before[k].line_number, line) {
            assert(is_closest(entries, line, last));
        } else {
            assert(is_closest(entries, line, k));
        }
    }
}

/// At most one entry is the closest to a line.
pub proof fn lemma_closest_is_unique(entries: Seq<EntryView>, line: u32, a: int, b: int)
    requires
        is_closest(entries, line, a),
        is_closest(entries, line, b),
    ensures
        a == b,
{
    if a < b {
        assert(distance(entries[b].line_number, line) < distance(entries[a].line_number, line));
    } else if b < a {
        assert(distance(entries[a].line_number, line) < distance(entries[b].line_number, line));
    }
}

fn abs_diff(a: u32, b: u32) -> (r: u32)
    ensures
        r == distance(a, b),
{
    if a >= b {
        a - b
    } else {
        b - a
    }
}

/// Whether one of `patterns` stands in `line`.
fn any_pattern_in(line: &[u8], patterns: &[&str]) -> (r: bool)
    ensures
        r == line_is_marked(line@, encoded(patterns.deep_view())),
{
    let ghost wanted = encoded(patterns.deep_view());
    let mut k: usize = 0;
    while k < patterns.len()
        invariant
            k <= patterns.len(),
            wanted == encoded(patterns.deep_view()),
            wanted.len() == patterns.len(),
            forall|j: int| 0 <= j < k ==> !has_substring(line@, #[trigger] wanted[j]),
        decreases patterns.len() - k,
    {
        let pattern: &str = patterns[k];
        assert(wanted[k as int] == encode_utf8(pattern@));
        if find(line, pattern.as_bytes()).is_some() {
            return true;
        }
        k += 1;
    }
    false
}

impl TestIndex {
    /// Creates a new [`TestIndex`] of the file at `test_file` from a list of
    /// patterns.
    pub fn build(env: &Environment, test_file: &TestFile, patterns: &[&str]) -> (r: Result<
        Self,
        IndexError,
    >)
        ensures
            built_view(r) == build_spec(env@, test_file@, patterns.deep_view()),
    {
        match env.read(test_file.as_str()) {
            Some(data) => Self::scan(data.as_slice(), patterns),
            None => Err(IndexError::IoError),
        }
    }

    /// Creates a new [`TestIndex`] of a file that holds `data`.
    pub fn scan(data: &[u8], patterns: &[&str]) -> (r: Result<Self, IndexError>)
        ensures
            built_view(r) == scan_spec(data@, patterns.deep_view()),
    {
        let lines = lines_with_terminator(data);
        if lines.len() > 0xFFFF_FFFF {
            return Err(IndexError::TooManyLines);
        }
        let ghost all = split_lines(data@);
        let ghost wanted = encoded(patterns.deep_view());
        let mut entries: Vec<IndexEntry> = Vec::new();
        let mut i: usize = 0;
        proof {
            assert(all.subrange(0, 0) =~= Seq::<Seq<u8>>::empty());
            assert(entries.deep_view() =~= Seq::<EntryView>::empty());
        }
        while i < lines.len()
            invariant
                i <= lines.len() <= u32::MAX,
                lines@.len() == all.len(),
                forall|j: int| 0 <= j < lines@.len() ==> (#[trigger] lines@[j])@ == all[j],
                wanted == encoded(patterns.deep_view()),
                entries.deep_view() == entries_of(all.subrange(0, i as int), wanted),
            decreases lines.len() - i,
        {
            let line: &[u8] = lines[i];
            proof {
                let upto = all.subrange(0, i + 1);
                assert(upto.drop_last() =~= all.subrange(0, i as int));
                assert(upto.last() == line@);
            }
            if any_pattern_in(line, patterns) {
                match to_str(line) {
                    Ok(content) => {
                        let ghost before = entries.deep_view();
                        let entry = IndexEntry::new((i + 1) as u32, content.to_owned());
                        entries.push(entry);
                        proof {
                            assert(entries.deep_view() =~= before.push(entry@));
                        }
                    },
                    Err(_) => {},
                }
            }
            i += 1;
        }
        proof {
            assert(all.subrange(0, i as int) =~= all);
        }
        Ok(TestIndex { entries })
    }

    /// Returns the closest [`IndexEntry`] to the given line number: the entry
    /// whose line is nearest, and of several equally near ones the first.
    pub fn closest_to_line_number(&self, line: u32) -> (r: Option<IndexEntry>)
        ensures
            match r {
                Some(entry) => exists|k: int| is_closest(self@, line, k) && entry@ == self@[k],
                None => self@.len() == 0,
            },
            match r {
                Some(entry) => closest_entry(self@, line) == Some(entry@),
                None => closest_entry(self@, line) is None,
            },
    {
        if self.entries.len() == 0 {
            return None;
        }
        let mut best: usize = 0;
        let mut i: usize = 1;
        while i < self.entries.len()
            invariant
                best < i <= self.entries.len(),
                is_closest(self@.subrange(0, i as int), line, best as int),
            decreases self.entries.len() - i,
        {
            let ghost upto = self@.subrange(0, i as int);
            let ghost next = self@.subrange(0, i + 1);
            let here = abs_diff(self.entries[i].line_number, line);
            let so_far = abs_diff(self.entries[best].line_number, line);
            proof {
                assert(forall|j: int| 0 <= j < i ==> next[j] == upto[j]);
                assert(next[i as int] == self@[i as int]);
                assert(upto[best as int] == self@[best as int]);
            }
            if here < so_far {
                best = i;
            }
            i += 1;
        }
        let entry = self.entries[best].clone();
        proof {
            assert(self@.subrange(0, i as int) =~= self@);
            assert(is_closest(self@, line, best as int));
            assert(entry@ == self@[best as int]);
            let chosen = choose|k: int| is_closest(self@, line, k);
            lemma_closest_is_unique(self@, line, chosen, best as int);
        }
        Some(entry)
    }

    /// The entries, in the order of their lines.
    pub fn entries(&self) -> (r: Vec<IndexEntry>)
        ensures
            r.deep_view() == self@,
    {
        let mut out: Vec<IndexEntry> = Vec::new();
        let mut i: usize = 0;
        while i < self.entries.len()
            invariant
                i <= self.entries.len(),
                out.deep_view() == self@.subrange(0, i as int),
            decreases self.entries.len() - i,
        {
            let ghost before = out.deep_view();
            let entry = self.entries[i].clone();
            out.push(entry);
            proof {
                assert(out.deep_view() =~= before.push(entry@));
                assert(self@.subrange(0, i + 1) =~= self@.subrange(0, i as int).push(
                    self@[i as int],
                ));
            }
            i += 1;
        }
        proof {
            assert(self@.subrange(0, i as int) =~= self@);
        }
        out
    }
}

/// Building is repeatable: two indexes built of the same file, unchanged, with
/// the same patterns hold the same entries.
pub proof fn lemma_build_is_repeatable(
    env: EnvironmentView,
    path: Seq<char>,
    patterns: Seq<Seq<char>>,
    first: Result<TestIndex, IndexError>,
    second: Result<TestIndex, IndexError>,
)
    requires
        built_view(first) == build_spec(env, path, patterns),
        built_view(second) == build_spec(env, path, patterns),
    ensures
        built_view(first) == built_view(second),
        first matches Ok(a) ==> second matches Ok(b) && a@ == b@,
{
}

/// Every entry stands for a line of the file: its number is that of a line
/// that holds a pattern, and numbers rise from entry to entry.
pub proof fn lemma_entries_follow_the_lines(lines: Seq<Seq<u8>>, patterns: Seq<Seq<u8>>)
    requires
        lines.len() <= u32::MAX,
    ensures
        entries_of(lines, patterns).len() <= lines.len(),
        forall|k: int|
            0 <= k < entries_of(lines, patterns).len() ==> {
                let n = (#[trigger] entries_of(lines, patterns)[k]).line_number;
                &&& 1 <= n <= lines.len()
                &&& line_is_marked(lines[n - 1], patterns)
                &&& valid_utf8(lines[n - 1])
                &&& entries_of(lines, patterns)[k].content == decode_utf8(lines[n - 1])
            },
        forall|j: int, k: int|
            0 <= j < k < entries_of(lines, patterns).len() ==> (#[trigger] entries_of(
                lines,
                patterns,
            )[j]).line_number < (#[trigger] entries_of(lines, patterns)[k]).line_number,
    decreases lines.len(),
{
    if lines.len() > 0 {
        let before = entries_of(lines.drop_last(), patterns);
        lemma_entries_follow_the_lines(lines.drop_last(), patterns);
        assert forall|k: int| 0 <= k < before.len() implies {
            let n = (#[trigger] before[k]).line_number;
            lines[n - 1] == lines.drop_last()[n - 1]
        } by {}
    }
}

} // verus!
