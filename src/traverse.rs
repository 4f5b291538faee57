use vstd::prelude::*;
use vstd::string::StrSliceExecFns;
use vstd::string::StringExecFns;

use crate::error::Error;
use crate::url::join_segments;

verus! {

/// A local filesystem path as its list of components. An absolute path lists
/// its components from the filesystem root; a relative one from the working
/// directory.
#[derive(Debug)]
pub struct LocalPath {
    pub parts: Vec<String>,
}

impl View for LocalPath {
    type V = Seq<Seq<char>>;

    open spec fn view(&self) -> Seq<Seq<char>> {
        self.parts@.map_values(|p: String| p@)
    }
}

/// `prefix` is a leading run of components of `path`.
pub open spec fn has_prefix(path: Seq<Seq<char>>, prefix: Seq<Seq<char>>) -> bool {
    prefix.len() <= path.len() && path.take(prefix.len() as int) == prefix
}

/// What remains of `path` below `cwd`, or `None` where `path` lies outside it.
pub open spec fn relative_to(cwd: Seq<Seq<char>>, path: Seq<Seq<char>>) -> Option<Seq<Seq<char>>> {
    if has_prefix(path, cwd) {
        Some(path.skip(cwd.len() as int))
    } else {
        None
    }
}

/// The slash separated text of a component list.
pub open spec fn path_text(parts: Seq<Seq<char>>) -> Seq<char> {
    join_segments(parts)
}

impl LocalPath {
    /// A path made of the given components.
    pub fn new(parts: Vec<String>) -> (r: LocalPath)
        ensures
            r.parts@ == parts@,
    {
        LocalPath { parts }
    }

    /// Copies the path, component by component.
    pub fn copy(&self) -> (r: LocalPath)
        ensures
            r@ == self@,
    {
        let mut parts: Vec<String> = Vec::new();
        let mut i: usize = 0;
        while i < self.parts.len()
            invariant
                i <= self.parts.len(),
                parts@.len() == i,
                forall|j: int| 0 <= j < i ==> (#[trigger] parts@[j])@ == self.parts@[j]@,
            decreases self.parts.len() - i,
        {
            parts.push(self.parts[i].clone());
            i = i + 1;
        }
        let r = LocalPath { parts };
        assert(r@ =~= self@);
        r
    }

    /// The components joined by `/`, as the path would be written relative to
    /// where it starts.
    pub fn to_text(&self) -> (r: String)
        ensures
            r@ == path_text(self@),
    {
        let mut out = String::new();
        let mut i: usize = 0;
        proof {
            reveal_strlit("/");
            assert(self@.take(0) =~= Seq::<Seq<char>>::empty());
        }
        while i < self.parts.len()
            invariant
                i <= self.parts.len(),
                out@ == join_segments(self@.take(i as int)),
            decreases self.parts.len() - i,
        {
            proof {
                reveal_strlit("/");
                assert(self@.take(i + 1).drop_last() =~= self@.take(i as int));
            }
            if i > 0 {
                out.append("/");
            }
            out.append(self.parts[i].as_str());
            i = i + 1;
        }
        proof {
            assert(self@.take(self@.len() as int) =~= self@);
        }
        out
    }

    /// The last component, if any.
    pub fn last_part(&self) -> (r: Option<&String>)
        ensures
            match r {
                Some(p) => self@.len() > 0 && p@ == self@.last(),
                None => self@.len() == 0,
            },
    {
        if self.parts.len() == 0 {
            None
        } else {
            Some(&self.parts[self.parts.len() - 1])
        }
    }
}

/// Strips the working directory `cwd` off the front of the absolute path
/// `canonical`, failing where `canonical` lies outside `cwd`.
pub fn relative_path(cwd: &LocalPath, canonical: &LocalPath) -> (r: Result<LocalPath, Error>)
    ensures
        match r {
            Ok(p) => relative_to(cwd@, canonical@) == Some(p@),
            Err(e) => relative_to(cwd@, canonical@) is None && e is FileTraverse,
        },
{
    let n = cwd.parts.len();
    if n > canonical.parts.len() {
        return Err(Error::FileTraverse(canonical.to_text()));
    }
    let mut i: usize = 0;
    while i < n
        invariant
            n == cwd@.len(),
            n <= canonical@.len(),
            i <= n,
            forall|j: int| 0 <= j < i ==> cwd@[j] == canonical@[j],
        decreases n - i,
    {
        if cwd.parts[i] != canonical.parts[i] {
            proof {
                assert(canonical@.take(n as int)[i as int] != cwd@[i as int]);
            }
            return Err(Error::FileTraverse(canonical.to_text()));
        }
        i = i + 1;
    }
    proof {
        assert(canonical@.take(n as int) =~= cwd@);
    }
    let mut parts: Vec<String> = Vec::new();
    let mut k: usize = n;
    while k < canonical.parts.len()
        invariant
            n <= k <= canonical@.len(),
            parts@.len() == k - n,
            forall|j: int| 0 <= j < k - n ==> (#[trigger] parts@[j])@ == canonical@[n + j],
        decreases canonical.parts.len() - k,
    {
        parts.push(canonical.parts[k].clone());
        k = k + 1;
    }
    let r = LocalPath { parts };
    assert(r@ =~= canonical@.skip(n as int));
    Ok(r)
}

/// What a filesystem entry turned out to be when it was inspected.
#[derive(Debug, Clone, Copy, PartialEq, Eq)]
pub enum EntryKind {
    File,
    Directory,
}

/// The files that a walk below `cwd` keeps from the entries it accepted, in the
/// order they were reported, each relative to `cwd`.
pub open spec fn files_of(cwd: Seq<Seq<char>>, visits: Seq<(Seq<Seq<char>>, EntryKind)>) -> Seq<
    Seq<Seq<char>>,
>
    decreases visits.len(),
{
    if visits.len() == 0 {
        Seq::empty()
    } else {
        let prev = files_of(cwd, visits.drop_last());
        let (path, kind) = visits.last();
        if kind == EntryKind::File {
            prev.push(path.skip(cwd.len() as int))
        } else {
            prev
        }
    }
}

/// A walk over a local directory tree. The caller inspects the filesystem and
/// reports each entry with [`Traverse::visit`]; directories it reports are handed
/// back by [`Traverse::next_directory`] to be listed in turn. Every file that is
/// kept is recorded relative to the working directory.
pub struct Traverse {
    cwd: LocalPath,
    files: Vec<LocalPath>,
    pending: Vec<LocalPath>,
    visited: Ghost<Seq<(Seq<Seq<char>>, EntryKind)>>,
}

impl Traverse {
    pub closed spec fn spec_cwd(&self) -> Seq<Seq<char>> {
        self.cwd@
    }

    /// The files found so far, relative to the working directory.
    pub closed spec fn spec_files(&self) -> Seq<Seq<Seq<char>>> {
        self.files@.map_values(|p: LocalPath| p@)
    }

    /// The directories reported and not yet handed back, as absolute paths.
    pub closed spec fn spec_pending(&self) -> Seq<Seq<Seq<char>>> {
        self.pending@.map_values(|p: LocalPath| p@)
    }

    /// The entries accepted so far, with their kinds, in the order they were reported.
    pub closed spec fn spec_visited(&self) -> Seq<(Seq<Seq<char>>, EntryKind)> {
        self.visited@
    }

    /// Every directory waiting to be listed lies inside the working directory,
    /// and the files found are those of the entries accepted.
    pub closed spec fn wf(&self) -> bool {
        &&& forall|i: int|
            0 <= i < self.pending@.len() ==> has_prefix(
                (#[trigger] self.pending@[i])@,
                self.cwd@,
            )
        &&& self.spec_files() == files_of(self.cwd@, self.visited@)
    }

    /// A walk that has found nothing yet, below the working directory `cwd`.
    pub fn from(cwd: LocalPath) -> (r: Traverse)
        ensures
            r.wf(),
            r.spec_cwd() == cwd@,
            r.spec_files().len() == 0,
            r.spec_pending().len() == 0,
            r.spec_visited().len() == 0,
    {
        let r = Traverse { cwd, files: Vec::new(), pending: Vec::new(), visited: Ghost(Seq::empty()) };
        assert(r.spec_files() =~= Seq::empty());
        r
    }

    /// Strips the working directory off the absolute path `canonical_path`.
    pub fn strip_prefix(&self, canonical_path: &LocalPath) -> (r: Result<LocalPath, Error>)
        ensures
            match r {
                Ok(p) => relative_to(self.spec_cwd(), canonical_path@) == Some(p@),
                Err(e) => relative_to(self.spec_cwd(), canonical_path@) is None
                    && e is FileTraverse,
            },
    {
        relative_path(&self.cwd, canonical_path)
    }

    /// Records the entry at the absolute path `path`. An entry outside the
    /// working directory fails the walk. A file is added to the result; a
    /// directory is queued to be listed.
    pub fn visit(&mut self, path: LocalPath, kind: EntryKind) -> (r: Result<(), Error>)
        requires
            old(self).wf(),
        ensures
            final(self).wf(),
            final(self).spec_cwd() == old(self).spec_cwd(),
            r is Err <==> relative_to(old(self).spec_cwd(), path@) is None,
            r matches Err(e) ==> e is FileTraverse,
            r is Err ==> final(self).spec_files() == old(self).spec_files()
                && final(self).spec_pending() == old(self).spec_pending()
                && final(self).spec_visited() == old(self).spec_visited(),
            r is Ok ==> final(self).spec_visited() == old(self).spec_visited().push((path@, kind)),
            r is Ok && kind == EntryKind::File ==> final(self).spec_files() == old(
                self,
            ).spec_files().push(relative_to(old(self).spec_cwd(), path@).unwrap())
                && final(self).spec_pending() == old(self).spec_pending(),
            r is Ok && kind == EntryKind::Directory ==> final(self).spec_files() == old(
                self,
            ).spec_files() && final(self).spec_pending() == old(self).spec_pending().push(path@),
    {
        let rel = self.strip_prefix(&path);
        match rel {
            Err(e) => Err(e),
            Ok(rel) => {
                let ghost prev = self.visited@;
                proof {
                    self.visited = Ghost(prev.push((path@, kind)));
                    assert(self.visited@.drop_last() =~= prev);
                }
                match kind {
                    EntryKind::File => {
                        self.files.push(rel);
                        proof {
                            assert(self.spec_files() =~= old(self).spec_files().push(rel@));
                            assert(self.spec_pending() =~= old(self).spec_pending());
                        }
                    },
                    EntryKind::Directory => {
                        self.pending.push(path);
                        proof {
                            assert(self.spec_files() =~= old(self).spec_files());
                            assert(self.spec_pending() =~= old(self).spec_pending().push(path@));
                            assert(forall|i: int|
                                0 <= i < old(self).pending@.len() ==> self.pending@[i]
                                    == old(self).pending@[i]);
                        }
                    },
                }
                Ok(())
            },
        }
    }

    /// Hands back a queued directory to be listed, or `None` when the walk is over.
    pub fn next_directory(&mut self) -> (r: Option<LocalPath>)
        requires
            old(self).wf(),
        ensures
            final(self).wf(),
            final(self).spec_cwd() == old(self).spec_cwd(),
            final(self).spec_files() == old(self).spec_files(),
            final(self).spec_visited() == old(self).spec_visited(),
            match r {
                Some(d) => old(self).spec_pending().len() > 0 && d@ == old(
                    self,
                ).spec_pending().last() && final(self).spec_pending() == old(
                    self,
                ).spec_pending().drop_last() && has_prefix(d@, old(self).spec_cwd()),
                None => old(self).spec_pending().len() == 0 && final(self).spec_pending().len()
                    == 0,
            },
    {
        let r = self.pending.pop();
        proof {
            if r is Some {
                assert(self.spec_pending() =~= old(self).spec_pending().drop_last());
                assert(old(self).pending@[old(self).pending@.len() - 1] == r.unwrap());
            }
        }
        r
    }

    /// The files found, relative to the working directory.
    pub fn files(self) -> (r: Vec<LocalPath>)
        requires
            self.wf(),
        ensures
            r@.map_values(|p: LocalPath| p@) == self.spec_files(),
            r@.map_values(|p: LocalPath| p@) == files_of(self.spec_cwd(), self.spec_visited()),
    {
        self.files
    }
}

/// A walk that accepted exactly one file, among any number of directories at
/// any depth, finds exactly that file, relative to the working directory.
pub proof fn single_file_found(
    cwd: Seq<Seq<char>>,
    visits: Seq<(Seq<Seq<char>>, EntryKind)>,
    k: int,
)
    requires
        0 <= k < visits.len(),
        visits[k].1 == EntryKind::File,
        forall|j: int| 0 <= j < visits.len() && j != k ==> (#[trigger] visits[j]).1
            == EntryKind::Directory,
    ensures
        files_of(cwd, visits) == seq![visits[k].0.skip(cwd.len() as int)],
    decreases visits.len(),
{
    let init = visits.drop_last();
    if k == visits.len() - 1 {
        no_file_found(cwd, init);
    } else {
        assert(visits[visits.len() - 1].1 == EntryKind::Directory);
        assert forall|j: int| 0 <= j < init.len() && j != k implies (#[trigger] init[j]).1
            == EntryKind::Directory by {
            assert(init[j] == visits[j]);
        }
        single_file_found(cwd, init, k);
    }
}

/// A walk that accepted only directories finds no file.
pub proof fn no_file_found(cwd: Seq<Seq<char>>, visits: Seq<(Seq<Seq<char>>, EntryKind)>)
    requires
        forall|j: int| 0 <= j < visits.len() ==> (#[trigger] visits[j]).1 == EntryKind::Directory,
    ensures
        files_of(cwd, visits).len() == 0,
    decreases visits.len(),
{
    if visits.len() > 0 {
        let init = visits.drop_last();
        assert(visits[visits.len() - 1].1 == EntryKind::Directory);
        assert forall|j: int| 0 <= j < init.len() implies (#[trigger] init[j]).1
            == EntryKind::Directory by {
            assert(init[j] == visits[j]);
        }
        no_file_found(cwd, init);
    }
}

} // verus!
