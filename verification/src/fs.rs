use vstd::prelude::*;

use crate::text::str_eq;

verus! {

/// What a caller found at one path: a file it could read, a file that
/// exists but could not be read, or nothing at all.
#[derive(Debug)]
pub enum FileState {
    Readable(String),
    Unreadable,
    Absent,
}

/// Mathematical image of a `FileState`.
pub enum FileStateV {
    Readable(Seq<char>),
    Unreadable,
    Absent,
}

impl View for FileState {
    type V = FileStateV;

    open spec fn view(&self) -> FileStateV {
        match self {
            FileState::Readable(s) => FileStateV::Readable(s@),
            FileState::Unreadable => FileStateV::Unreadable,
            FileState::Absent => FileStateV::Absent,
        }
    }
}

impl DeepView for FileState {
    type V = FileStateV;

    open spec fn deep_view(&self) -> FileStateV {
        self@
    }
}

/// The last entry of `fs` recorded for path `p`, if any: a later entry for
/// the same path shadows an earlier one.
pub open spec fn fs_find(fs: Seq<(Seq<char>, FileStateV)>, p: Seq<char>) -> Option<FileStateV>
    decreases fs.len(),
{
    if fs.len() == 0 {
        Option::None
    } else if fs.last().0 == p {
        Option::Some(fs.last().1)
    } else {
        fs_find(fs.drop_last(), p)
    }
}

/// Whether `fs` records something on disk at `p`: a readable or an
/// unreadable file both exist; an absent or unrecorded path does not.
pub open spec fn fs_exists(fs: Seq<(Seq<char>, FileStateV)>, p: Seq<char>) -> bool {
    fs_find(fs, p) matches Some(st) && !(st is Absent)
}

/// Whether `fs` records a readable file at `p`.
pub open spec fn fs_is_readable(fs: Seq<(Seq<char>, FileStateV)>, p: Seq<char>) -> bool {
    fs_find(fs, p) matches Some(st) && st is Readable
}

/// What a run has learned about the filesystem: each consulted path with
/// what was found there. The walk consults it instead of the disk, and
/// reports which path it still needs; the caller performs the one probe or
/// read and records the answer here.
pub struct FileMap {
    entries: Vec<(String, FileState)>,
}

impl View for FileMap {
    type V = Seq<(Seq<char>, FileStateV)>;

    closed spec fn view(&self) -> Seq<(Seq<char>, FileStateV)> {
        self.entries.deep_view()
    }
}

impl FileMap {
    /// A record with nothing in it.
    pub fn new() -> (r: FileMap)
        ensures
            r@ == Seq::<(Seq<char>, FileStateV)>::empty(),
    {
        let r = FileMap { entries: Vec::new() };
        proof {
            assert(r@ =~= Seq::<(Seq<char>, FileStateV)>::empty());
        }
        r
    }

    /// Records what was found at one path.
    pub fn insert(&mut self, path: String, state: FileState)
        ensures
            final(self)@ == old(self)@.push((path@, state@)),
    {
        let ghost before = self@;
        self.entries.push((path, state));
        proof {
            assert(self@ =~= before.push((self.entries@.last().0@, self.entries@.last().1@)));
        }
    }

    /// Looks a path up, yielding the last state recorded for it.
    pub fn get(&self, path: &str) -> (r: Option<FileState>)
        ensures
            r.deep_view() == fs_find(self@, path@),
    {
        let mut j: usize = self.entries.len();
        proof {
            assert(self@.take(j as int) =~= self@);
        }
        while j > 0
            invariant
                j <= self.entries@.len(),
                self@.len() == self.entries@.len(),
                fs_find(self@, path@) == fs_find(self@.take(j as int), path@),
            decreases j,
        {
            proof {
                assert(self@.take(j as int).last() == self@[j - 1]);
                assert(self@.take(j as int).drop_last() =~= self@.take(j - 1));
            }
            let entry = &self.entries[j - 1];
            if str_eq(entry.0.as_str(), path) {
                let found = match &entry.1 {
                    FileState::Readable(s) => FileState::Readable(s.clone()),
                    FileState::Unreadable => FileState::Unreadable,
                    FileState::Absent => FileState::Absent,
                };
                return Option::Some(found);
            }
            j = j - 1;
        }
        proof {
            assert(self@.take(0) =~= Seq::<(Seq<char>, FileStateV)>::empty());
        }
        Option::None
    }
}

} // verus!
