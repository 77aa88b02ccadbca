//! A record of what the project's directory held when it was probed: which
//! paths exist, and what the readable files among them contain.
use vstd::prelude::*;
use vstd::utf8::encode_utf8;

verus! {

/// An environment as a mathematical value: the paths that exist, each with
/// the bytes of the file there, or with `None` where it cannot be read.
pub type EnvironmentView = Map<Seq<char>, Option<Seq<u8>>>;

/// One probed path. `content` is `None` for an entry that exists but cannot be
/// read as a file, such as a directory.
struct FileRecord {
    path: String,
    content: Option<Vec<u8>>,
}

/// The probed paths, each with what was found there.
pub struct Environment {
    records: Vec<FileRecord>,
}

/// What a run of records says of each path: a later record replaces an
/// earlier one for the same path.
spec fn records_map(records: Seq<FileRecord>) -> Map<Seq<char>, Option<Seq<u8>>>
    decreases records.len(),
{
    if records.len() == 0 {
        Map::empty()
    } else {
        records_map(records.drop_last()).insert(
            records.last().path@,
            match records.last().content {
                Some(bytes) => Some(bytes@),
                None => None,
            },
        )
    }
}

impl View for Environment {
    type V = Map<Seq<char>, Option<Seq<u8>>>;

    /// The paths that exist, each with the bytes of the file there, or with
    /// `None` where it cannot be read.
    closed spec fn view(&self) -> Map<Seq<char>, Option<Seq<u8>>> {
        records_map(self.records@)
    }
}

impl Environment {
    /// An environment in which no path exists.
    pub fn new() -> (r: Self)
        ensures
            r@ == Map::<Seq<char>, Option<Seq<u8>>>::empty(),
    {
        Environment { records: Vec::new() }
    }

    fn record(&mut self, path: &str, content: Option<Vec<u8>>)
        ensures
            final(self)@ == old(self)@.insert(
                path@,
                match content {
                    Some(bytes) => Some(bytes@),
                    None => None,
                },
            ),
    {
        let record = FileRecord { path: path.to_owned(), content };
        self.records.push(record);
        proof {
            assert(self.records@.drop_last() =~= old(self).records@);
        }
    }

    /// Records a readable file at `path` that holds the text `contents`.
    pub fn write_file(&mut self, path: &str, contents: &str)
        ensures
            final(self)@ == old(self)@.insert(path@, Some(encode_utf8(contents@))),
    {
        self.record(path, Some(contents.as_bytes_vec()));
    }

    /// Records a readable file at `path` that holds the bytes `contents`.
    pub fn write_bytes(&mut self, path: &str, contents: Vec<u8>)
        ensures
            final(self)@ == old(self)@.insert(path@, Some(contents@)),
    {
        self.record(path, Some(contents));
    }

    /// Records that `path` exists but cannot be read as a file.
    pub fn add_unreadable(&mut self, path: &str)
        ensures
            final(self)@ == old(self)@.insert(path@, None),
    {
        self.record(path, None);
    }

    /// The position of the record that speaks for `path`, if there is one.
    fn position(&self, path: &str) -> (r: Option<usize>)
        ensures
            r is Some <==> self@.contains_key(path@),
            r matches Some(i) ==> i < self.records@.len() && self@[path@] == (
            match self.records@[i as int].content {
                Some(bytes) => Some(bytes@),
                None => None,
            }),
    {
        let wanted: String = path.to_owned();
        let mut i: usize = self.records.len();
        proof {
            assert(self.records@.subrange(0, i as int) =~= self.records@);
        }
        while i > 0
            invariant
                i <= self.records@.len(),
                wanted@ == path@,
                self@.contains_key(path@) <==> records_map(
                    self.records@.subrange(0, i as int),
                ).contains_key(path@),
                self@.contains_key(path@) ==> self@[path@] == records_map(
                    self.records@.subrange(0, i as int),
                )[path@],
            decreases i,
        {
            proof {
                let upto = self.records@.subrange(0, i as int);
                assert(upto.drop_last() =~= self.records@.subrange(0, i - 1));
                assert(upto.last() == self.records@[i - 1]);
            }
            if self.records[i - 1].path == wanted {
                return Some(i - 1);
            }
            i -= 1;
        }
        None
    }

    /// Whether `path` exists.
    pub fn file_exists(&self, path: &str) -> (r: bool)
        ensures
            r == self@.contains_key(path@),
    {
        self.position(path).is_some()
    }

    /// The bytes of the file at `path`, where there is a readable one.
    pub fn read(&self, path: &str) -> (r: Option<&Vec<u8>>)
        ensures
            r is Some <==> self@.contains_key(path@) && self@[path@] is Some,
            r matches Some(bytes) ==> bytes@ == self@[path@]->0,
    {
        match self.position(path) {
            Some(i) => self.records[i].content.as_ref(),
            None => None,
        }
    }
}

} // verus!
