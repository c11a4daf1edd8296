//! Persistence status: whether a document has ever been saved, to which
//! path(s), and whether it now differs from that save.

use vstd::prelude::*;
use vstd::string::{StrSliceExecFns, StringExecFns};

use crate::resource::EditId;

verus! {

impl Error {
    /// A human-readable description of the failure.
    pub fn text(&self) -> (s: String)
        ensures
            s@ == self.text_spec(),
    {
        match self {
            Error::AlreadyExists(path) => {
                let mut out = String::from_str("\"");
                out.append(path.as_str());
                out.append("\" already exists");
                out
            },
            Error::UnsupportedRange => String::from_str(
                "range storage is not supported for more than one layer",
            ),
            Error::Io(reason) => reason.clone(),
        }
    }

    /// The textual form built by `text`.
    pub open spec fn text_spec(self) -> Seq<char> {
        match self {
            Error::AlreadyExists(path) => "\""@ + path@ + "\" already exists"@,
            Error::UnsupportedRange => "range storage is not supported for more than one layer"@,
            Error::Io(reason) => reason@,
        }
    }
}

/// The file name of a path: what follows the last separator.
pub open spec fn path_name(s: Seq<char>) -> Seq<char>
    decreases s.len(),
{
    if s.len() == 0 {
        s
    } else if s.last() == '/' {
        Seq::empty()
    } else {
        path_name(s.drop_last()).push(s.last())
    }
}

/// The parent of a path: what precedes the last separator, empty when there
/// is none.
pub open spec fn path_parent(s: Seq<char>) -> Seq<char>
    decreases s.len(),
{
    if s.len() == 0 {
        s
    } else if s.last() == '/' {
        s.drop_last()
    } else {
        path_parent(s.drop_last())
    }
}

/// Whether a name holds a dot anywhere after its first character.
pub open spec fn has_dot(s: Seq<char>) -> bool
    decreases s.len(),
{
    if s.len() <= 1 {
        false
    } else {
        s.last() == '.' || has_dot(s.drop_last())
    }
}

/// A name without its extension: cut at the last dot, unless the only dot
/// leads the name.
pub open spec fn name_stem(s: Seq<char>) -> Seq<char>
    decreases s.len(),
{
    if !has_dot(s) {
        s
    } else if s.last() == '.' {
        s.drop_last()
    } else {
        name_stem(s.drop_last())
    }
}

/// With `k` the position of the last separator, the name is what follows it
/// and the parent what precedes it.
proof fn lemma_path_split(s: Seq<char>, k: int)
    requires
        0 <= k < s.len(),
        s[k] == '/',
        forall|j: int| k < j < s.len() ==> s[j] != '/',
    ensures
        path_name(s) =~= s.subrange(k + 1, s.len() as int),
        path_parent(s) =~= s.take(k),
    decreases s.len(),
{
    if k == s.len() - 1 {
    } else {
        lemma_path_split(s.drop_last(), k);
        assert(path_name(s.drop_last()) =~= s.subrange(k + 1, s.len() - 1));
        assert(path_parent(s.drop_last()) =~= s.take(k));
    }
}

/// A path without a separator is all name and has no parent.
proof fn lemma_path_no_sep(s: Seq<char>)
    requires
        forall|j: int| 0 <= j < s.len() ==> s[j] != '/',
    ensures
        path_name(s) =~= s,
        path_parent(s) =~= Seq::<char>::empty(),
    decreases s.len(),
{
    if s.len() > 0 {
        lemma_path_no_sep(s.drop_last());
    }
}

/// With `k` the position of the last dot, and not a leading one, the stem
/// is what precedes it.
proof fn lemma_stem_split(s: Seq<char>, k: int)
    requires
        1 <= k < s.len(),
        s[k] == '.',
        forall|j: int| k < j < s.len() ==> s[j] != '.',
    ensures
        has_dot(s),
        name_stem(s) =~= s.take(k),
    decreases s.len(),
{
    if k == s.len() - 1 {
    } else {
        lemma_stem_split(s.drop_last(), k);
        assert(name_stem(s.drop_last()) =~= s.take(k));
    }
}

/// A name whose only possible dot leads it keeps its full form.
proof fn lemma_stem_no_dot(s: Seq<char>)
    requires
        forall|j: int| 1 <= j < s.len() ==> s[j] != '.',
    ensures
        !has_dot(s),
        name_stem(s) == s,
    decreases s.len(),
{
    if s.len() > 1 {
        lemma_stem_no_dot(s.drop_last());
    }
}

/// The file name of a path, as executable code.
fn file_name(p: &str) -> (r: String)
    ensures
        r@ == path_name(p@),
{
    let n = p.unicode_len();
    let mut k: usize = n;
    while k > 0
        invariant
            k <= n,
            n == p@.len(),
            forall|j: int| k <= j < n ==> p@[j] != '/',
        decreases k,
    {
        if p.get_char(k - 1) == '/' {
            proof {
                lemma_path_split(p@, k as int - 1);
            }
            let sub = p.substring_char(k, n);
            return sub.to_owned();
        }
        k = k - 1;
    }
    proof {
        lemma_path_no_sep(p@);
    }
    p.to_owned()
}

/// The parent of a path, as executable code.
fn parent_name(p: &str) -> (r: String)
    ensures
        r@ == path_parent(p@),
{
    let n = p.unicode_len();
    let mut k: usize = n;
    while k > 0
        invariant
            k <= n,
            n == p@.len(),
            forall|j: int| k <= j < n ==> p@[j] != '/',
        decreases k,
    {
        if p.get_char(k - 1) == '/' {
            proof {
                lemma_path_split(p@, k as int - 1);
            }
            let sub = p.substring_char(0, k - 1);
            return sub.to_owned();
        }
        k = k - 1;
    }
    proof {
        lemma_path_no_sep(p@);
    }
    String::new()
}

/// A file name without its extension, as executable code.
fn file_stem(name: &str) -> (r: String)
    ensures
        r@ == name_stem(name@),
{
    let n = name.unicode_len();
    let mut k: usize = n;
    while k > 1
        invariant
            k <= n,
            n == name@.len(),
            forall|j: int| k <= j < n ==> name@[j] != '.',
        decreases k,
    {
        if name.get_char(k - 1) == '.' {
            proof {
                lemma_stem_split(name@, k as int - 1);
            }
            let sub = name.substring_char(0, k - 1);
            return sub.to_owned();
        }
        k = k - 1;
    }
    proof {
        lemma_stem_no_dot(name@);
    }
    name.to_owned()
}

/// A failure surfaced by a save operation.
#[derive(Debug, Clone, PartialEq, Eq)]
pub enum Error {
    /// Overwrite protection: the path already exists on disk and is not
    /// part of the current document's own storage.
    AlreadyExists(String),
    /// Range storage was requested for a document with more than one layer.
    UnsupportedRange,
    /// An underlying I/O failure, with a description.
    Io(String),
}

/// Representation of the view data on disk.
#[derive(Debug, Clone, PartialEq, Eq)]
pub enum FileStorage {
    /// Stored as a range of files, one path per frame.
    Range(Vec<String>),
    /// Stored as a single file.
    Single(String),
}

impl FileStorage {
    /// A range storage holds at least one path.
    pub open spec fn wf(self) -> bool {
        match self {
            FileStorage::Range(paths) => paths.len() >= 1,
            FileStorage::Single(_) => true,
        }
    }

    /// The stored paths, in order.
    pub open spec fn paths_spec(self) -> Seq<Seq<char>> {
        match self {
            FileStorage::Range(paths) => paths@.map_values(|p: String| p@),
            FileStorage::Single(path) => seq![path@],
        }
    }

    /// Whether the given path is one of the stored paths.
    pub open spec fn contains_spec(self, p: Seq<char>) -> bool {
        self.paths_spec().contains(p)
    }

    /// Whether the given path is one of the stored paths.
    pub fn contains(&self, p: &String) -> (r: bool)
        ensures
            r == self.contains_spec(p@),
    {
        match self {
            FileStorage::Single(buf) => {
                let eq = *buf == *p;
                proof {
                    if eq {
                        assert(self.paths_spec()[0] == p@);
                    }
                }
                eq
            },
            FileStorage::Range(bufs) => {
                let mut i: usize = 0;
                while i < bufs.len()
                    invariant
                        i <= bufs.len(),
                        *self == FileStorage::Range(*bufs),
                        forall|j: int| 0 <= j < i ==> bufs@[j]@ != p@,
                    decreases bufs.len() - i,
                {
                    if bufs[i] == *p {
                        proof {
                            assert(self.paths_spec()[i as int] == p@);
                            assert(self.contains_spec(p@));
                        }
                        return true;
                    }
                    i = i + 1;
                }
                proof {
                    assert forall|j: int| 0 <= j < self.paths_spec().len() implies self.paths_spec()[j]
                        != p@ by {
                        assert(self.paths_spec()[j] == bufs@[j]@);
                    }
                }
                false
            },
        }
    }

    /// A structural copy of the storage.
    pub fn duplicate(&self) -> (r: Self)
        ensures
            same_storage(r, *self),
            r is Single <==> self is Single,
            self.wf() ==> r.wf(),
    {
        match self {
            FileStorage::Single(path) => FileStorage::Single(path.clone()),
            FileStorage::Range(paths) => {
                let mut copied: Vec<String> = Vec::new();
                let mut i: usize = 0;
                while i < paths.len()
                    invariant
                        i <= paths.len(),
                        copied@.len() == i,
                        forall|j: int| 0 <= j < i ==> copied@[j] == paths@[j],
                    decreases paths.len() - i,
                {
                    copied.push(paths[i].clone());
                    i = i + 1;
                }
                proof {
                    assert(copied@ =~= paths@);
                }
                FileStorage::Range(copied)
            },
        }
    }

    /// A short textual form of the storage: the single path, or — when all
    /// paths of a range sit in one directory — the first path without its
    /// extension and the last path's file name; a scattered range shows as
    /// an asterisk.
    pub fn text(&self) -> (s: String)
        requires
            self.wf(),
        ensures
            s@ == self.text_spec(),
    {
        match self {
            FileStorage::Single(path) => path.clone(),
            FileStorage::Range(paths) => {
                let parent = parent_name(paths[0].as_str());
                let mut all_same = true;
                let mut i: usize = 1;
                while i < paths.len()
                    invariant
                        1 <= i <= paths.len() || paths.len() == 0,
                        parent@ == path_parent(paths@[0]@),
                        all_same <==> (forall|j: int|
                            0 <= j < i ==> path_parent(#[trigger] paths@[j]@) == path_parent(
                                paths@[0]@,
                            )),
                    decreases paths.len() - i,
                {
                    let pi = parent_name(paths[i].as_str());
                    if !(pi == parent) {
                        all_same = false;
                    }
                    i = i + 1;
                }
                if all_same {
                    let name0 = file_name(paths[0].as_str());
                    let stem0 = file_stem(name0.as_str());
                    let mut out: String;
                    if parent.as_str().unicode_len() > 0 {
                        out = parent;
                        out.append("/");
                        out.append(stem0.as_str());
                    } else {
                        out = stem0;
                    }
                    out.append(" .. ");
                    let last_name = file_name(paths[paths.len() - 1].as_str());
                    out.append(last_name.as_str());
                    proof {
                        assert(out@ =~= self.text_spec());
                    }
                    out
                } else {
                    String::from_str("*")
                }
            },
        }
    }

    /// The textual form built by `text`.
    pub open spec fn text_spec(self) -> Seq<char> {
        match self {
            FileStorage::Single(path) => path@,
            FileStorage::Range(paths) => {
                let first = paths[0]@;
                let last_path = paths[paths.len() - 1]@;
                if forall|j: int|
                    0 <= j < paths.len() ==> path_parent(#[trigger] paths[j]@) == path_parent(
                        first,
                    ) {
                    let head = if path_parent(first).len() > 0 {
                        path_parent(first) + "/"@ + name_stem(path_name(first))
                    } else {
                        name_stem(path_name(first))
                    };
                    head + " .. "@ + path_name(last_path)
                } else {
                    "*"@
                }
            },
        }
    }
}

impl From<String> for FileStorage {
    /// A single path is a single-file storage.
    fn from(path: String) -> (r: Self)
        ensures
            r == FileStorage::Single(path),
    {
        FileStorage::Single(path)
    }
}

impl vstd::std_specs::convert::FromSpecImpl<String> for FileStorage {
    open spec fn obeys_from_spec() -> bool {
        true
    }

    open spec fn from_spec(path: String) -> Self {
        FileStorage::Single(path)
    }
}

/// Whether two storages name the same paths in the same representation.
pub open spec fn same_storage(a: FileStorage, b: FileStorage) -> bool {
    &&& (a is Single <==> b is Single)
    &&& a.paths_spec() =~= b.paths_spec()
}

/// Whether two storages name the same paths, as executable code.
pub fn storage_eq(a: &FileStorage, b: &FileStorage) -> (r: bool)
    ensures
        r == same_storage(*a, *b),
{
    match (a, b) {
        (FileStorage::Single(p), FileStorage::Single(q)) => {
            let eq = *p == *q;
            proof {
                assert(a.paths_spec()[0] == p@);
                assert(b.paths_spec()[0] == q@);
                if eq {
                    assert(a.paths_spec() =~= b.paths_spec());
                }
            }
            eq
        },
        (FileStorage::Range(ps), FileStorage::Range(qs)) => {
            if ps.len() != qs.len() {
                proof {
                    assert(a.paths_spec().len() != b.paths_spec().len());
                }
                return false;
            }
            let mut i: usize = 0;
            while i < ps.len()
                invariant
                    i <= ps.len(),
                    ps.len() == qs.len(),
                    *a == FileStorage::Range(*ps),
                    *b == FileStorage::Range(*qs),
                    forall|j: int| 0 <= j < i ==> ps@[j]@ == qs@[j]@,
                decreases ps.len() - i,
            {
                let pi = &ps[i];
                let qi = &qs[i];
                if !(*pi == *qi) {
                    proof {
                        assert(a.paths_spec()[i as int] == ps@[i as int]@);
                        assert(b.paths_spec()[i as int] == qs@[i as int]@);
                    }
                    return false;
                }
                i = i + 1;
            }
            proof {
                assert(a.paths_spec() =~= b.paths_spec());
            }
            true
        },
        _ => false,
    }
}

/// Status of the underlying file displayed by a view.
#[derive(Debug, Clone, PartialEq, Eq)]
pub enum FileStatus {
    /// There is no file being displayed.
    NoFile,
    /// The file is new and unsaved.
    New(FileStorage),
    /// The file is saved and unmodified.
    Saved(FileStorage),
    /// The file has been modified since the last save.
    Modified(FileStorage),
}

impl FileStatus {
    /// The storage the status carries, if any.
    pub open spec fn storage_spec(self) -> Option<FileStorage> {
        match self {
            FileStatus::NoFile => None,
            FileStatus::New(f) => Some(f),
            FileStatus::Saved(f) => Some(f),
            FileStatus::Modified(f) => Some(f),
        }
    }

    /// Whether the stored storages are well formed.
    pub open spec fn wf(self) -> bool {
        match self.storage_spec() {
            Some(f) => f.wf(),
            None => true,
        }
    }

    /// The status after the document content changed: a saved document
    /// becomes modified, every other status is unaffected.
    pub open spec fn touched(self) -> FileStatus {
        match self {
            FileStatus::Saved(f) => FileStatus::Modified(f),
            other => other,
        }
    }

    /// The status after the document was restored to the edit `eid`, given
    /// which edit id (if any) is known to be on disk: arriving exactly at
    /// the saved edit restores `Saved`; leaving a saved state yields
    /// `Modified`; a document that was never saved is unaffected.
    pub open spec fn refreshed(self, saved: Option<EditId>, eid: EditId) -> FileStatus {
        match self {
            FileStatus::Modified(f) => if saved == Some(eid) {
                FileStatus::Saved(f)
            } else {
                FileStatus::Modified(f)
            },
            FileStatus::Saved(f) => FileStatus::Modified(f),
            other => other,
        }
    }

    /// The file status as text: the storage, tagged as new or modified.
    pub fn text(&self) -> (s: String)
        requires
            self.wf(),
        ensures
            s@ == self.text_spec(),
    {
        match self {
            FileStatus::NoFile => String::new(),
            FileStatus::Saved(storage) => storage.text(),
            FileStatus::New(storage) => {
                let mut s = storage.text();
                s.append(" [new]");
                s
            },
            FileStatus::Modified(storage) => {
                let mut s = storage.text();
                s.append(" [modified]");
                s
            },
        }
    }

    /// The textual form built by `text`.
    pub open spec fn text_spec(self) -> Seq<char> {
        match self {
            FileStatus::NoFile => Seq::<char>::empty(),
            FileStatus::Saved(storage) => storage.text_spec(),
            FileStatus::New(storage) => storage.text_spec() + " [new]"@,
            FileStatus::Modified(storage) => storage.text_spec() + " [modified]"@,
        }
    }
}

/// Whether two statuses agree on the variant and name the same storage.
pub open spec fn same_status(a: FileStatus, b: FileStatus) -> bool {
    match (a, b) {
        (FileStatus::NoFile, FileStatus::NoFile) => true,
        (FileStatus::New(f), FileStatus::New(g)) => same_storage(f, g),
        (FileStatus::Saved(f), FileStatus::Saved(g)) => same_storage(f, g),
        (FileStatus::Modified(f), FileStatus::Modified(g)) => same_storage(f, g),
        _ => false,
    }
}

/// Undoing or redoing to the edit id recorded as saved restores `Saved`;
/// arriving anywhere else from a modified state keeps `Modified`; leaving a
/// saved state always yields `Modified`.
pub proof fn lemma_refresh_against_saved_snapshot(f: FileStorage, saved: Option<EditId>, eid: EditId)
    ensures
        saved == Some(eid) ==> FileStatus::Modified(f).refreshed(saved, eid) == FileStatus::Saved(f),
        saved != Some(eid) ==> FileStatus::Modified(f).refreshed(saved, eid) == FileStatus::Modified(f),
        FileStatus::Saved(f).refreshed(saved, eid) == FileStatus::Modified(f),
{
}

/// Touching a document that was just saved marks it modified against the
/// same storage.
pub proof fn lemma_touch_after_save(f: FileStorage)
    ensures
        FileStatus::Saved(f).touched() == FileStatus::Modified(f),
{
}

} // verus!
