//! What was seen of the file system: for each path looked at, what kind of
//! thing was found there and how the file starts. The library decides from
//! such a record alone; taking it is left to the caller.

use vstd::prelude::*;
use crate::text::same_text;

verus! {

/// What was found at a path, symbolic links followed.
#[derive(Debug, Clone, Copy, PartialEq, Eq, Structural)]
pub enum FileKind {
    /// Nothing, or nothing that could be reached.
    Missing,
    /// A regular file.
    File,
    /// A directory.
    Directory,
    /// Something else: a device, a socket, a pipe.
    Other,
}

/// What a record says of each path in it: the kind of thing found, and the
/// first bytes of the file as far as they could be read.
pub type Files = Map<Seq<char>, (FileKind, Seq<u8>)>;

/// The kind of thing at `path`. A path that was not looked at counts as
/// missing.
pub open spec fn kind_at(fs: Files, path: Seq<char>) -> FileKind {
    if fs.contains_key(path) {
        fs[path].0
    } else {
        FileKind::Missing
    }
}

/// The first bytes of the file at `path`; none where nothing could be read.
pub open spec fn head_at(fs: Files, path: Seq<char>) -> Seq<u8> {
    if fs.contains_key(path) {
        fs[path].1
    } else {
        Seq::<u8>::empty()
    }
}

/// Whether anything exists at `path`.
pub open spec fn present(fs: Files, path: Seq<char>) -> bool {
    kind_at(fs, path) != FileKind::Missing
}

struct Probe {
    path: String,
    kind: FileKind,
    head: Vec<u8>,
}

/// A record of what was seen of the file system.
pub struct Snapshot {
    probes: Vec<Probe>,
}

/// What a list of probes says; a later probe of a path replaces an earlier.
spec fn recorded(probes: Seq<Probe>) -> Files
    decreases probes.len(),
{
    if probes.len() == 0 {
        Map::empty()
    } else {
        recorded(probes.drop_last()).insert(
            probes.last().path@,
            (probes.last().kind, probes.last().head@),
        )
    }
}

/// Probes of other paths say nothing of `path`.
proof fn lemma_recorded_tail(probes: Seq<Probe>, path: Seq<char>, i: int)
    requires
        0 <= i <= probes.len(),
        forall|k: int| i <= k < probes.len() ==> probes[k].path@ != path,
    ensures
        recorded(probes).contains_key(path) == recorded(probes.take(i)).contains_key(path),
        recorded(probes).contains_key(path) ==> recorded(probes)[path] == recorded(
            probes.take(i),
        )[path],
    decreases probes.len() - i,
{
    if i == probes.len() {
        assert(probes.take(i) =~= probes);
    } else {
        let shorter = probes.drop_last();
        assert(shorter.take(i) =~= probes.take(i));
        lemma_recorded_tail(shorter, path, i);
    }
}

impl View for Snapshot {
    type V = Files;

    closed spec fn view(&self) -> Files {
        recorded(self.probes@)
    }
}

impl Snapshot {
    /// A record in which nothing was looked at.
    pub fn new() -> (s: Self)
        ensures
            s@ == Map::<Seq<char>, (FileKind, Seq<u8>)>::empty(),
    {
        Snapshot { probes: Vec::new() }
    }

    /// Notes what was found at `path`: its kind, and in `head` the first
    /// bytes of the file as far as they could be read. An earlier note on
    /// the same path is replaced.
    pub fn record(&mut self, path: &str, kind: FileKind, head: Vec<u8>)
        ensures
            final(self)@ == old(self)@.insert(path@, (kind, head@)),
    {
        let probe = Probe { path: path.to_owned(), kind, head };
        let ghost before = self.probes@;
        self.probes.push(probe);
        proof {
            assert(self.probes@.drop_last() =~= before);
        }
    }

    /// Where the last probe of `path` stands in the list.
    fn position(&self, path: &str) -> (r: Option<usize>)
        ensures
            match r {
                Some(i) => i < self.probes.len() && self@.contains_key(path@) && self@[path@] == (
                    self.probes[i as int].kind,
                    self.probes[i as int].head@,
                ),
                None => !self@.contains_key(path@),
            },
    {
        let mut i: usize = self.probes.len();
        while i > 0
            invariant
                i <= self.probes.len(),
                forall|k: int| i <= k < self.probes.len() ==> self.probes[k].path@ != path@,
            decreases i,
        {
            if same_text(self.probes[i - 1].path.as_str(), path) {
                proof {
                    lemma_recorded_tail(self.probes@, path@, i as int);
                    assert(self.probes@.take(i as int).drop_last() =~= self.probes@.take(i - 1));
                }
                return Some(i - 1);
            }
            i -= 1;
        }
        proof {
            lemma_recorded_tail(self.probes@, path@, 0);
        }
        None
    }

    /// The kind of thing that was found at `path`.
    pub fn kind(&self, path: &str) -> (k: FileKind)
        ensures
            k == kind_at(self@, path@),
    {
        match self.position(path) {
            Some(i) => self.probes[i].kind,
            None => FileKind::Missing,
        }
    }

    /// The first bytes that were read of the file at `path`.
    pub fn head(&self, path: &str) -> (h: Vec<u8>)
        ensures
            h@ == head_at(self@, path@),
    {
        match self.position(path) {
            Some(i) => self.probes[i].head.clone(),
            None => Vec::new(),
        }
    }

    /// Whether anything was found at `path`.
    pub fn is_present(&self, path: &str) -> (b: bool)
        ensures
            b == present(self@, path@),
    {
        self.kind(path) != FileKind::Missing
    }
}

} // verus!
