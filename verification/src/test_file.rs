//! The path of a test file, as text.
use crate::text::{chars_of, contains, ends_with, ends_with_at, has_substring};
use vstd::prelude::*;
use vstd::std_specs::convert::FromSpecImpl;

verus! {

/// The path of a file, held as the text in which it was given.
#[derive(Debug, PartialEq)]
pub struct TestFile(String);

impl View for TestFile {
    type V = Seq<char>;

    /// The characters of the path.
    closed spec fn view(&self) -> Seq<char> {
        self.0@
    }
}

impl DeepView for TestFile {
    type V = Seq<char>;

    open spec fn deep_view(&self) -> Seq<char> {
        self@
    }
}

impl TestFile {
    /// Creates a new [`TestFile`] from the text of a path.
    pub fn new(path: String) -> (r: Self)
        ensures
            r@ == path@,
    {
        TestFile(path)
    }

    /// Tests if the path matches a pattern: whether the pattern stands
    /// somewhere in it.
    pub fn matches(&self, pattern: &str) -> (r: bool)
        ensures
            r == has_substring(self@, pattern@),
    {
        let path = chars_of(self.0.as_str());
        let wanted = chars_of(pattern);
        contains(&path, &wanted)
    }

    /// Tests if the path ends with a suffix.
    pub fn has_suffix(&self, suffix: &str) -> (r: bool)
        ensures
            r == ends_with(self@, suffix@),
    {
        let path = chars_of(self.0.as_str());
        let wanted = chars_of(suffix);
        proof {
            assert(path@.subrange(0, path@.len() as int) =~= path@);
        }
        ends_with_at(&path, 0, path.len(), &wanted)
    }

    /// Returns the path as a string.
    pub fn to_string_lossy(&self) -> (r: String)
        ensures
            r@ == self@,
    {
        self.0.clone()
    }

    /// The path as a string slice.
    pub fn as_str(&self) -> (r: &str)
        ensures
            r@ == self@,
    {
        self.0.as_str()
    }
}

impl Clone for TestFile {
    fn clone(&self) -> (r: Self)
        ensures
            r@ == self@,
    {
        TestFile(self.0.clone())
    }
}

impl From<String> for TestFile {
    fn from(path: String) -> (r: Self)
        ensures
            r@ == path@,
    {
        TestFile::new(path)
    }
}

impl FromSpecImpl<String> for TestFile {
    open spec fn obeys_from_spec() -> bool {
        false
    }

    open spec fn from_spec(path: String) -> Self {
        arbitrary()
    }
}

impl From<&str> for TestFile {
    fn from(path: &str) -> (r: Self)
        ensures
            r@ == path@,
    {
        TestFile::new(path.to_owned())
    }
}

impl FromSpecImpl<&str> for TestFile {
    open spec fn obeys_from_spec() -> bool {
        false
    }

    open spec fn from_spec(path: &str) -> Self {
        arbitrary()
    }
}

} // verus!
