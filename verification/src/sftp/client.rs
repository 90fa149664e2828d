//! SFTP client lifecycle and the in-memory backend.
use vstd::prelude::*;

use crate::sftp::error::{SftpError, SftpErrorKind, SftpErrorView, SftpResult};
use crate::sftp::fs_entry::{
    base_name, base_name_of, DirectoryListing, FsEntry, FsEntryKind, FsEntryView,
};
use crate::text::{
    chars_of, contains_char, has_char, lemma_seq_lt_irreflexive, lemma_seq_lt_total,
    lemma_seq_lt_transitive, occurs_in, push_all, push_str, seq_lt, starts_with, str_eq, text_lt,
};

verus! {

/// Operations a remote filesystem offers to the client. Each backend states
/// what its operations do through the relations below.
pub trait SftpBackend: Sized {
    /// `r` is what listing `path` gives.
    spec fn listed(&self, path: Seq<char>, r: Result<DirectoryListingView, SftpErrorView>) -> bool;

    /// `after` and `r` are what changing the permissions of `path` gives.
    spec fn chmodded(&self, after: Self, path: Seq<char>, permissions: u32, r: Result<(), SftpErrorView>) -> bool;

    /// `after` and `r` are what deleting `path` gives.
    spec fn deleted(&self, after: Self, path: Seq<char>, r: Result<(), SftpErrorView>) -> bool;

    /// `after` and `r` are what renaming `from` to `to` gives.
    spec fn renamed(&self, after: Self, from: Seq<char>, to: Seq<char>, r: Result<(), SftpErrorView>) -> bool;

    /// `after` and `r` are what creating directory `path` gives.
    spec fn made_dir(&self, after: Self, path: Seq<char>, r: Result<(), SftpErrorView>) -> bool;

    fn list_dir(&self, path: &str) -> (r: SftpResult<DirectoryListing>)
        ensures
            self.listed(path@, listing_view(r)),
    ;

    fn chmod(&mut self, path: &str, permissions: u32) -> (r: SftpResult<()>)
        ensures
            old(self).chmodded(*final(self), path@, permissions, unit_view(r)),
    ;

    fn delete(&mut self, path: &str) -> (r: SftpResult<()>)
        ensures
            old(self).deleted(*final(self), path@, unit_view(r)),
    ;

    fn rename(&mut self, from: &str, to: &str) -> (r: SftpResult<()>)
        ensures
            old(self).renamed(*final(self), from@, to@, unit_view(r)),
    ;

    fn mkdir(&mut self, path: &str) -> (r: SftpResult<()>)
        ensures
            old(self).made_dir(*final(self), path@, unit_view(r)),
    ;
}

/// The model of a listing result.
pub open spec fn listing_view(r: SftpResult<DirectoryListing>) -> Result<DirectoryListingView, SftpErrorView> {
    match r {
        Ok(l) => Ok(l@),
        Err(e) => Err(e@),
    }
}

/// The model of a result without a value.
pub open spec fn unit_view(r: SftpResult<()>) -> Result<(), SftpErrorView> {
    match r {
        Ok(()) => Ok(()),
        Err(e) => Err(e@),
    }
}

/// A client over a backend (the in-memory one unless another is given).
#[derive(Debug)]
pub struct SftpClient<B = FakeSftpBackend> {
    backend: B,
}

impl<B> SftpClient<B> {
    /// The backend the client drives.
    pub closed spec fn spec_backend(&self) -> B {
        self.backend
    }

    /// The backend the client drives.
    pub fn backend(&self) -> (b: &B)
        ensures
            *b == self.spec_backend(),
    {
        &self.backend
    }
}

impl SftpClient<FakeSftpBackend> {
    /// A client over a fresh in-memory backend holding only `/`.
    pub fn new() -> (c: Self)
        ensures
            c.spec_backend()@ == initial_entries(),
    {
        SftpClient { backend: FakeSftpBackend::default() }
    }
}

impl Default for SftpClient<FakeSftpBackend> {
    fn default() -> (c: Self)
        ensures
            c.spec_backend()@ == initial_entries(),
    {
        SftpClient::new()
    }
}

impl<B: SftpBackend> SftpClient<B> {
    /// A client over `backend`.
    pub fn with_backend(backend: B) -> (c: Self)
        ensures
            c.spec_backend() == backend,
    {
        SftpClient { backend }
    }

    /// Lists a directory through the backend.
    pub fn list_dir(&self, path: &str) -> (r: SftpResult<DirectoryListing>)
        ensures
            self.spec_backend().listed(path@, listing_view(r)),
    {
        self.backend.list_dir(path)
    }

    /// Changes permission bits through the backend.
    pub fn chmod(&mut self, path: &str, permissions: u32) -> (r: SftpResult<()>)
        ensures
            old(self).spec_backend().chmodded(final(self).spec_backend(), path@, permissions, unit_view(r)),
    {
        self.backend.chmod(path, permissions)
    }

    /// Deletes an entry through the backend.
    pub fn delete(&mut self, path: &str) -> (r: SftpResult<()>)
        ensures
            old(self).spec_backend().deleted(final(self).spec_backend(), path@, unit_view(r)),
    {
        self.backend.delete(path)
    }

    /// Renames an entry through the backend.
    pub fn rename(&mut self, from: &str, to: &str) -> (r: SftpResult<()>)
        ensures
            old(self).spec_backend().renamed(final(self).spec_backend(), from@, to@, unit_view(r)),
    {
        self.backend.rename(from, to)
    }

    /// Creates a directory through the backend.
    pub fn mkdir(&mut self, path: &str) -> (r: SftpResult<()>)
        ensures
            old(self).spec_backend().made_dir(final(self).spec_backend(), path@, unit_view(r)),
    {
        self.backend.mkdir(path)
    }
}

pub open spec fn entry_views(v: Seq<FsEntry>) -> Seq<FsEntryView> {
    v.map_values(|e: FsEntry| e@)
}

/// Entries in strictly increasing path order (so no path occurs twice).
pub open spec fn sorted_by_path(s: Seq<FsEntryView>) -> bool {
    forall|i: int, j: int| 0 <= i < j < s.len() ==> seq_lt(#[trigger] s[i].path, #[trigger] s[j].path)
}

pub open spec fn has_path(s: Seq<FsEntryView>, p: Seq<char>) -> bool {
    exists|i: int| 0 <= i < s.len() && s[i].path == p
}

/// The entries keyed by path.
pub open spec fn entries_map(s: Seq<FsEntryView>) -> Map<Seq<char>, FsEntryView> {
    Map::new(
        |p: Seq<char>| has_path(s, p),
        |p: Seq<char>| s[choose|i: int| 0 <= i < s.len() && s[i].path == p],
    )
}

/// `/` as an empty directory.
pub open spec fn root_entry() -> FsEntryView {
    FsEntryView {
        path: "/"@,
        name: base_name("/"@),
        kind: FsEntryKind::Directory,
        size_bytes: 0,
        permissions: crate::sftp::fs_entry::DEFAULT_DIRECTORY_PERMISSIONS,
    }
}

/// A fresh backend: only the root directory.
pub open spec fn initial_entries() -> Map<Seq<char>, FsEntryView> {
    Map::empty().insert("/"@, root_entry())
}

/// `s` without its trailing `c` characters.
pub open spec fn trim_end_char(s: Seq<char>, c: char) -> Seq<char>
    decreases s.len(),
{
    if s.len() > 0 && s.last() == c {
        trim_end_char(s.drop_last(), c)
    } else {
        s
    }
}

/// What a child's path of `dir` starts with: `dir` without trailing slashes,
/// then one slash (`/` itself for the root).
pub open spec fn child_prefix(dir: Seq<char>) -> Seq<char> {
    if dir == "/"@ {
        "/"@
    } else {
        trim_end_char(dir, '/').push('/')
    }
}

/// Whether `p` names an entry directly inside `dir`.
pub open spec fn is_child(dir: Seq<char>, p: Seq<char>) -> bool {
    let prefix = child_prefix(dir);
    &&& p != dir
    &&& starts_with(p, prefix)
    &&& !has_char(p.skip(prefix.len() as int), '/')
}

/// Model of a listing.
pub struct DirectoryListingView {
    pub path: Seq<char>,
    pub entries: Seq<FsEntryView>,
}

impl View for DirectoryListing {
    type V = DirectoryListingView;

    open spec fn view(&self) -> DirectoryListingView {
        DirectoryListingView { path: self.path@, entries: entry_views(self.entries@) }
    }
}

/// `l` lists exactly the children of `dir` in `m`, in path order.
pub open spec fn lists_children(
    m: Map<Seq<char>, FsEntryView>,
    dir: Seq<char>,
    l: DirectoryListingView,
) -> bool {
    &&& l.path == dir
    &&& sorted_by_path(l.entries)
    &&& forall|k: int|
        0 <= k < l.entries.len() ==> is_child(dir, #[trigger] l.entries[k].path) && m.contains_key(
            l.entries[k].path,
        ) && m[l.entries[k].path] == l.entries[k]
    &&& forall|p: Seq<char>|
        m.contains_key(p) && is_child(dir, p) ==> exists|k: int|
            0 <= k < l.entries.len() && #[trigger] l.entries[k].path == p
}

pub open spec fn missing_directory(p: Seq<char>) -> SftpErrorView {
    SftpErrorView { kind: SftpErrorKind::NotFound, message: "directory "@ + p + " not found"@ }
}

pub open spec fn not_a_directory(p: Seq<char>) -> SftpErrorView {
    SftpErrorView { kind: SftpErrorKind::InvalidPath, message: p + " is not a directory"@ }
}

pub open spec fn not_found(p: Seq<char>) -> SftpErrorView {
    SftpErrorView { kind: SftpErrorKind::NotFound, message: p + " not found"@ }
}

pub open spec fn already_exists(p: Seq<char>) -> SftpErrorView {
    SftpErrorView { kind: SftpErrorKind::AlreadyExists, message: p + " already exists"@ }
}

pub open spec fn cannot_delete_root() -> SftpErrorView {
    SftpErrorView { kind: SftpErrorKind::InvalidPath, message: "cannot delete root"@ }
}

/// An entry moved to `to`: new path and name, everything else kept.
/// A fresh directory entry at `path`.
pub open spec fn new_directory(path: Seq<char>) -> FsEntryView {
    FsEntryView {
        path,
        name: base_name(path),
        kind: FsEntryKind::Directory,
        size_bytes: 0,
        permissions: crate::sftp::fs_entry::DEFAULT_DIRECTORY_PERMISSIONS,
    }
}

pub open spec fn moved(e: FsEntryView, to: Seq<char>) -> FsEntryView {
    FsEntryView { path: to, name: base_name(to), ..e }
}

proof fn lemma_sorted_unique(s: Seq<FsEntryView>, i: int, j: int)
    requires
        sorted_by_path(s),
        0 <= i < s.len(),
        0 <= j < s.len(),
        i != j,
    ensures
        s[i].path != s[j].path,
{
    lemma_seq_lt_irreflexive(s[i].path);
    if i < j {
        assert(seq_lt(s[i].path, s[j].path));
    } else {
        assert(seq_lt(s[j].path, s[i].path));
    }
}

proof fn lemma_map_at(s: Seq<FsEntryView>, i: int)
    requires
        sorted_by_path(s),
        0 <= i < s.len(),
    ensures
        entries_map(s).contains_key(s[i].path),
        entries_map(s)[s[i].path] == s[i],
{
    let p = s[i].path;
    assert(has_path(s, p));
    let j = choose|j: int| 0 <= j < s.len() && s[j].path == p;
    if j != i {
        lemma_sorted_unique(s, i, j);
    }
}

proof fn lemma_map_insert(s: Seq<FsEntryView>, k: int, e: FsEntryView)
    requires
        sorted_by_path(s),
        0 <= k <= s.len(),
        forall|j: int| 0 <= j < k ==> seq_lt(#[trigger] s[j].path, e.path),
        forall|j: int| k <= j < s.len() ==> seq_lt(e.path, #[trigger] s[j].path),
    ensures
        sorted_by_path(s.insert(k, e)),
        entries_map(s.insert(k, e)) == entries_map(s).insert(e.path, e),
{
    let t = s.insert(k, e);
    assert forall|i: int, j: int| 0 <= i < j < t.len() implies seq_lt(
        #[trigger] t[i].path,
        #[trigger] t[j].path,
    ) by {
        if j < k {
            assert(t[i] == s[i] && t[j] == s[j]);
        } else if j == k {
            assert(t[i] == s[i]);
        } else if i < k {
            assert(t[i] == s[i] && t[j] == s[j - 1]);
            lemma_seq_lt_transitive(s[i].path, e.path, s[j - 1].path);
        } else if i == k {
            assert(t[j] == s[j - 1]);
        } else {
            assert(t[i] == s[i - 1] && t[j] == s[j - 1]);
        }
    }
    let m = entries_map(s).insert(e.path, e);
    assert forall|p: Seq<char>| #[trigger] entries_map(t).contains_key(p) == m.contains_key(p) by {
        if has_path(t, p) {
            let i = choose|i: int| 0 <= i < t.len() && t[i].path == p;
            if i < k {
                assert(s[i].path == p);
            } else if i > k {
                assert(s[i - 1].path == p);
            }
        }
        if has_path(s, p) {
            let i = choose|i: int| 0 <= i < s.len() && s[i].path == p;
            if i < k {
                assert(t[i].path == p);
            } else {
                assert(t[i + 1].path == p);
            }
        }
        if p == e.path {
            assert(t[k].path == p);
        }
    }
    assert forall|p: Seq<char>| #[trigger] entries_map(t).contains_key(p) implies entries_map(t)[p]
        == m[p] by {
        let i = choose|i: int| 0 <= i < t.len() && t[i].path == p;
        lemma_map_at(t, i);
        if i < k {
            assert(t[i] == s[i]);
            lemma_map_at(s, i);
            lemma_seq_lt_irreflexive(p);
        } else if i > k {
            assert(t[i] == s[i - 1]);
            lemma_map_at(s, i - 1);
            lemma_seq_lt_irreflexive(p);
        }
    }
    assert(entries_map(t) =~= m);
}

proof fn lemma_map_update(s: Seq<FsEntryView>, k: int, e: FsEntryView)
    requires
        sorted_by_path(s),
        0 <= k < s.len(),
        s[k].path == e.path,
    ensures
        sorted_by_path(s.update(k, e)),
        entries_map(s.update(k, e)) == entries_map(s).insert(e.path, e),
{
    let t = s.update(k, e);
    assert forall|i: int, j: int| 0 <= i < j < t.len() implies seq_lt(
        #[trigger] t[i].path,
        #[trigger] t[j].path,
    ) by {
        assert(t[i].path == s[i].path && t[j].path == s[j].path);
    }
    let m = entries_map(s).insert(e.path, e);
    assert forall|p: Seq<char>| #[trigger] entries_map(t).contains_key(p) == m.contains_key(p) by {
        if has_path(t, p) {
            let i = choose|i: int| 0 <= i < t.len() && t[i].path == p;
            assert(s[i].path == p);
        }
        if has_path(s, p) {
            let i = choose|i: int| 0 <= i < s.len() && s[i].path == p;
            assert(t[i].path == p);
        }
        if p == e.path {
            assert(t[k].path == p);
        }
    }
    assert forall|p: Seq<char>| #[trigger] entries_map(t).contains_key(p) implies entries_map(t)[p]
        == m[p] by {
        let i = choose|i: int| 0 <= i < t.len() && t[i].path == p;
        lemma_map_at(t, i);
        if i != k {
            lemma_map_at(s, i);
            lemma_sorted_unique(s, i, k);
        }
    }
    assert(entries_map(t) =~= m);
}

proof fn lemma_map_remove(s: Seq<FsEntryView>, k: int)
    requires
        sorted_by_path(s),
        0 <= k < s.len(),
    ensures
        sorted_by_path(s.remove(k)),
        entries_map(s.remove(k)) == entries_map(s).remove(s[k].path),
{
    let t = s.remove(k);
    assert forall|i: int, j: int| 0 <= i < j < t.len() implies seq_lt(
        #[trigger] t[i].path,
        #[trigger] t[j].path,
    ) by {
        let a = if i < k { i } else { i + 1 };
        let b = if j < k { j } else { j + 1 };
        assert(t[i] == s[a] && t[j] == s[b]);
    }
    let m = entries_map(s).remove(s[k].path);
    assert forall|p: Seq<char>| #[trigger] entries_map(t).contains_key(p) == m.contains_key(p) by {
        if has_path(t, p) {
            let i = choose|i: int| 0 <= i < t.len() && t[i].path == p;
            let a = if i < k { i } else { i + 1 };
            assert(s[a].path == p);
            lemma_sorted_unique(s, a, k);
        }
        if has_path(s, p) && p != s[k].path {
            let i = choose|i: int| 0 <= i < s.len() && s[i].path == p;
            if i < k {
                assert(t[i].path == p);
            } else {
                assert(t[i - 1].path == p);
            }
        }
    }
    assert forall|p: Seq<char>| #[trigger] entries_map(t).contains_key(p) implies entries_map(t)[p]
        == m[p] by {
        let i = choose|i: int| 0 <= i < t.len() && t[i].path == p;
        lemma_map_at(t, i);
        let a = if i < k { i } else { i + 1 };
        assert(t[i] == s[a]);
        lemma_map_at(s, a);
    }
    assert(entries_map(t) =~= m);
}

/// Position of the entry with path `path`.
fn find_entry(v: &Vec<FsEntry>, path: &str) -> (r: Option<usize>)
    ensures
        match r {
            Some(i) => i < v@.len() && v@[i as int].path@ == path@,
            None => !has_path(entry_views(v@), path@),
        },
{
    let mut i: usize = 0;
    while i < v.len()
        invariant
            i <= v@.len(),
            forall|j: int| 0 <= j < i ==> v@[j].path@ != path@,
        decreases v.len() - i,
    {
        if str_eq(v[i].path.as_str(), path) {
            return Some(i);
        }
        i = i + 1;
    }
    assert forall|j: int| 0 <= j < v@.len() implies entry_views(v@)[j].path != path@ by {
        assert(entry_views(v@)[j] == v@[j]@);
    }
    None
}

/// Number of entries whose path comes before `key`.
fn lower_bound(v: &Vec<FsEntry>, key: &Vec<char>) -> (k: usize)
    requires
        sorted_by_path(entry_views(v@)),
    ensures
        k <= v@.len(),
        forall|j: int| 0 <= j < k ==> seq_lt(#[trigger] entry_views(v@)[j].path, key@),
        forall|j: int|
            k <= j < v@.len() ==> !seq_lt(#[trigger] entry_views(v@)[j].path, key@),
{
    let ghost s = entry_views(v@);
    let mut i: usize = 0;
    while i < v.len()
        invariant
            i <= v@.len(),
            s == entry_views(v@),
            sorted_by_path(s),
            forall|j: int| 0 <= j < i ==> seq_lt(#[trigger] s[j].path, key@),
        decreases v.len() - i,
    {
        let p = chars_of(v[i].path.as_str());
        if !text_lt(&p, key) {
            assert forall|j: int| i <= j < v@.len() implies !seq_lt(#[trigger] s[j].path, key@) by {
                if j > i {
                    assert(seq_lt(s[i as int].path, s[j].path));
                    if seq_lt(s[j].path, key@) {
                        lemma_seq_lt_transitive(s[i as int].path, s[j].path, key@);
                    }
                }
            }
            return i;
        }
        i = i + 1;
    }
    i
}

/// The in-memory backend: entries keyed by path, kept in path order.
#[derive(Debug, PartialEq, Eq)]
pub struct FakeSftpBackend {
    entries: Vec<FsEntry>,
}

impl View for FakeSftpBackend {
    type V = Map<Seq<char>, FsEntryView>;

    closed spec fn view(&self) -> Map<Seq<char>, FsEntryView> {
        entries_map(entry_views(self.entries@))
    }
}

impl FakeSftpBackend {
    #[verifier::type_invariant]
    spec fn sorted(&self) -> bool {
        sorted_by_path(entry_views(self.entries@))
    }

    /// Adds `entry`, replacing any entry with the same path.
    pub fn insert(&mut self, entry: FsEntry)
        ensures
            final(self)@ == old(self)@.insert(entry.path@, entry@),
    {
        proof {
            use_type_invariant(&*self);
        }
        let ghost ev = entry@;
        let mut v: Vec<FsEntry> = Vec::new();
        std::mem::swap(&mut v, &mut self.entries);
        let ghost s = entry_views(v@);
        let key = chars_of(entry.path.as_str());
        let k = lower_bound(&v, &key);
        if k < v.len() && str_eq(v[k].path.as_str(), entry.path.as_str()) {
            proof {
                assert(s[k as int] == v@[k as int]@);
                lemma_map_update(s, k as int, ev);
            }
            v.set(k, entry);
            assert(entry_views(v@) =~= s.update(k as int, ev));
        } else {
            proof {
                assert forall|j: int| k <= j < s.len() implies seq_lt(ev.path, #[trigger] s[j].path) by {
                    lemma_seq_lt_total(ev.path, s[j].path);
                    if j > k {
                        assert(seq_lt(s[k as int].path, s[j].path));
                        lemma_seq_lt_total(ev.path, s[k as int].path);
                        assert(s[k as int] == v@[k as int]@);
                        lemma_seq_lt_transitive(ev.path, s[k as int].path, s[j].path);
                    } else {
                        assert(s[k as int] == v@[k as int]@);
                    }
                }
                lemma_map_insert(s, k as int, ev);
            }
            v.insert(k, entry);
            assert(entry_views(v@) =~= s.insert(k as int, ev));
        }
        self.entries = v;
    }

    fn entry_index(&self, path: &str) -> (r: Option<usize>)
        ensures
            match r {
                Some(i) => i < self.entries@.len() && self@.contains_key(path@) && self@[path@]
                    == self.entries@[i as int]@,
                None => !self@.contains_key(path@),
            },
    {
        proof {
            use_type_invariant(self);
        }
        let r = find_entry(&self.entries, path);
        match r {
            Some(i) => {
                proof {
                    assert(entry_views(self.entries@)[i as int] == self.entries@[i as int]@);
                    lemma_map_at(entry_views(self.entries@), i as int);
                }
            },
            None => {},
        }
        r
    }

    /// Removes the entry at `k`.
    fn remove_at(&mut self, k: usize) -> (e: FsEntry)
        requires
            k < old(self).entries@.len(),
        ensures
            e@ == old(self).entries@[k as int]@,
            final(self)@ == old(self)@.remove(e.path@),
    {
        proof {
            use_type_invariant(&*self);
        }
        let mut v: Vec<FsEntry> = Vec::new();
        std::mem::swap(&mut v, &mut self.entries);
        let ghost s = entry_views(v@);
        proof {
            lemma_map_remove(s, k as int);
        }
        let e = v.remove(k);
        assert(entry_views(v@) =~= s.remove(k as int));
        self.entries = v;
        e
    }

    fn error_after(kind: SftpErrorKind, subject: &str, after: &str) -> (e: SftpError)
        ensures
            e@ == (SftpErrorView { kind, message: subject@ + after@ }),
    {
        let mut message = String::new();
        push_str(&mut message, subject);
        push_str(&mut message, after);
        SftpError::with_message(kind, message)
    }

    fn error(kind: SftpErrorKind, before: &str, subject: &str, after: &str) -> (e: SftpError)
        ensures
            e@ == (SftpErrorView { kind, message: before@ + subject@ + after@ }),
    {
        let mut message = String::new();
        push_str(&mut message, before);
        push_str(&mut message, subject);
        push_str(&mut message, after);
        SftpError::with_message(kind, message)
    }
}

impl Default for FakeSftpBackend {
    fn default() -> (b: FakeSftpBackend)
        ensures
            b@ == initial_entries(),
    {
        let root = FsEntry::directory("/");
        let ghost rv = root@;
        let mut entries: Vec<FsEntry> = Vec::new();
        entries.push(root);
        let b = FakeSftpBackend { entries };
        proof {
            assert(entry_views(b.entries@) =~= seq![rv]);
            lemma_map_at(seq![rv], 0);
            assert(entries_map(seq![rv]) =~= initial_entries());
        }
        b
    }
}

/// Bounds of `v` without its trailing `c` characters.
fn trimmed_end(v: &Vec<char>, c: char) -> (end: usize)
    ensures
        end <= v@.len(),
        v@.take(end as int) == trim_end_char(v@, c),
{
    let mut end = v.len();
    assert(v@.take(end as int) =~= v@);
    while end > 0 && v[end - 1] == c
        invariant
            end <= v@.len(),
            trim_end_char(v@, c) == trim_end_char(v@.take(end as int), c),
        decreases end,
    {
        assert(v@.take(end as int).drop_last() =~= v@.take(end - 1));
        end = end - 1;
    }
    end
}

/// The characters every child path of `dir` starts with.
fn child_prefix_of(dir: &str) -> (p: Vec<char>)
    ensures
        p@ == child_prefix(dir@),
{
    if str_eq(dir, "/") {
        chars_of("/")
    } else {
        let chars = chars_of(dir);
        let end = trimmed_end(&chars, '/');
        let mut p = crate::text::slice_chars(&chars, 0, end);
        assert(p@ =~= chars@.take(end as int));
        p.push('/');
        p
    }
}

impl SftpBackend for FakeSftpBackend {
    open spec fn listed(&self, path: Seq<char>, r: Result<DirectoryListingView, SftpErrorView>) -> bool {
        if !self@.contains_key(path) {
            r == Err::<DirectoryListingView, SftpErrorView>(missing_directory(path))
        } else if self@[path].kind != FsEntryKind::Directory {
            r == Err::<DirectoryListingView, SftpErrorView>(not_a_directory(path))
        } else {
            r matches Ok(l) && lists_children(self@, path, l)
        }
    }

    open spec fn chmodded(&self, after: Self, path: Seq<char>, permissions: u32, r: Result<(), SftpErrorView>) -> bool {
        if self@.contains_key(path) {
            r == Ok::<(), SftpErrorView>(()) && after@ == self@.insert(path, FsEntryView { permissions, ..self@[path] })
        } else {
            r == Err::<(), SftpErrorView>(not_found(path)) && after@ == self@
        }
    }

    open spec fn deleted(&self, after: Self, path: Seq<char>, r: Result<(), SftpErrorView>) -> bool {
        if path == "/"@ {
            r == Err::<(), SftpErrorView>(cannot_delete_root()) && after@ == self@
        } else if !self@.contains_key(path) {
            r == Err::<(), SftpErrorView>(not_found(path)) && after@ == self@
        } else {
            r == Ok::<(), SftpErrorView>(()) && after@ == self@.remove(path)
        }
    }

    open spec fn renamed(&self, after: Self, from: Seq<char>, to: Seq<char>, r: Result<(), SftpErrorView>) -> bool {
        if self@.contains_key(to) {
            r == Err::<(), SftpErrorView>(already_exists(to)) && after@ == self@
        } else if !self@.contains_key(from) {
            r == Err::<(), SftpErrorView>(not_found(from)) && after@ == self@
        } else {
            r == Ok::<(), SftpErrorView>(()) && after@ == self@.remove(from).insert(to, moved(self@[from], to))
        }
    }

    open spec fn made_dir(&self, after: Self, path: Seq<char>, r: Result<(), SftpErrorView>) -> bool {
        if self@.contains_key(path) {
            r == Err::<(), SftpErrorView>(already_exists(path)) && after@ == self@
        } else {
            r == Ok::<(), SftpErrorView>(()) && after@ == self@.insert(path, new_directory(path))
        }
    }

    /// The entries directly inside directory `path`, in path order.
    fn list_dir(&self, path: &str) -> (r: SftpResult<DirectoryListing>)
        ensures
            !self@.contains_key(path@) ==> (r matches Err(e) && e@ == missing_directory(path@)),
            self@.contains_key(path@) && self@[path@].kind != FsEntryKind::Directory ==> (r matches Err(
                e,
            ) && e@ == not_a_directory(path@)),
            self@.contains_key(path@) && self@[path@].kind == FsEntryKind::Directory ==> (r matches Ok(
                l,
            ) && lists_children(self@, path@, l@)),
    {
        proof {
            use_type_invariant(self);
        }
        let d = match self.entry_index(path) {
            Some(d) => d,
            None => {
                return Err(Self::error(SftpErrorKind::NotFound, "directory ", path, " not found"));
            },
        };
        if self.entries[d].kind != FsEntryKind::Directory {
            return Err(Self::error_after(SftpErrorKind::InvalidPath, path, " is not a directory"));
        }
        let prefix = child_prefix_of(path);
        let ghost s = entry_views(self.entries@);
        let ghost m = self@;
        let mut out: Vec<FsEntry> = Vec::new();
        let ghost mut idx: Seq<int> = Seq::empty();
        let mut i: usize = 0;
        while i < self.entries.len()
            invariant
                i <= self.entries@.len(),
                s == entry_views(self.entries@),
                sorted_by_path(s),
                m == entries_map(s),
                prefix@ == child_prefix(path@),
                idx.len() == out@.len(),
                forall|k: int| 0 <= k < out@.len() ==> 0 <= #[trigger] idx[k] < i && out@[k]@ == s[idx[k]]
                    && is_child(path@, s[idx[k]].path),
                forall|a: int, b: int| 0 <= a < b < idx.len() ==> #[trigger] idx[a] < #[trigger] idx[b],
                forall|j: int|
                    0 <= j < i && is_child(path@, #[trigger] s[j].path) ==> exists|k: int|
                        0 <= k < idx.len() && idx[k] == j,
            decreases self.entries.len() - i,
        {
            let p = chars_of(self.entries[i].path.as_str());
            let ghost ps = p@;
            assert(s[i as int] == self.entries@[i as int]@);
            let same = str_eq(self.entries[i].path.as_str(), path);
            let under = occurs_in(&p, 0, p.len(), &prefix, 0);
            assert(ps.subrange(0, ps.len() as int) =~= ps);
            let mut listed = false;
            if !same && under {
                let nested = contains_char(&p, prefix.len(), p.len(), '/');
                assert(ps.subrange(prefix@.len() as int, ps.len() as int) =~= ps.skip(
                    prefix@.len() as int,
                ));
                listed = !nested;
            }
            assert(listed == is_child(path@, s[i as int].path));
            let ghost before = idx;
            if listed {
                out.push(self.entries[i].clone());
                proof {
                    idx = idx.push(i as int);
                    assert(idx[before.len() as int] == i);
                }
            }
            assert forall|j: int|
                0 <= j < i + 1 && is_child(path@, #[trigger] s[j].path) implies exists|k: int|
                0 <= k < idx.len() && idx[k] == j by {
                if j < i {
                    let k = choose|k: int| 0 <= k < before.len() && before[k] == j;
                    assert(idx[k] == j);
                } else {
                    assert(idx[before.len() as int] == j);
                }
            }
            i = i + 1;
        }
        let listing = DirectoryListing { path: path.to_owned(), entries: out };
        proof {
            let lv = listing@;
            assert forall|k: int| 0 <= k < lv.entries.len() implies #[trigger] lv.entries[k] == s[idx[k]] by {
                assert(lv.entries[k] == out@[k]@);
            }
            assert forall|a: int, b: int| 0 <= a < b < lv.entries.len() implies seq_lt(
                #[trigger] lv.entries[a].path,
                #[trigger] lv.entries[b].path,
            ) by {
                assert(lv.entries[a] == s[idx[a]]);
                assert(lv.entries[b] == s[idx[b]]);
                assert(idx[a] < idx[b]);
            }
            assert forall|k: int| 0 <= k < lv.entries.len() implies is_child(
                path@,
                #[trigger] lv.entries[k].path,
            ) && m.contains_key(lv.entries[k].path) && m[lv.entries[k].path] == lv.entries[k] by {
                assert(lv.entries[k] == s[idx[k]]);
                lemma_map_at(s, idx[k]);
            }
            assert forall|p: Seq<char>| m.contains_key(p) && is_child(path@, p) implies exists|k: int|
                0 <= k < lv.entries.len() && #[trigger] lv.entries[k].path == p by {
                let j = choose|j: int| 0 <= j < s.len() && s[j].path == p;
                assert(is_child(path@, s[j].path));
                let k = choose|k: int| 0 <= k < idx.len() && idx[k] == j;
                assert(lv.entries[k] == s[idx[k]]);
            }
        }
        Ok(listing)
    }

    /// Sets an entry's permission bits.
    fn chmod(&mut self, path: &str, permissions: u32) -> (r: SftpResult<()>)
        ensures
            old(self)@.contains_key(path@) ==> r is Ok && final(self)@ == old(self)@.insert(
                path@,
                FsEntryView { permissions, ..old(self)@[path@] },
            ),
            !old(self)@.contains_key(path@) ==> (r matches Err(e) && e@ == not_found(path@))
                && final(self)@ == old(self)@,
    {
        let k = match self.entry_index(path) {
            Some(k) => k,
            None => {
                return Err(Self::error_after(SftpErrorKind::NotFound, path, " not found"));
            },
        };
        let mut entry = self.entries[k].clone();
        entry.permissions = permissions;
        self.insert(entry);
        Ok(())
    }

    /// Removes an entry; the root cannot be removed.
    fn delete(&mut self, path: &str) -> (r: SftpResult<()>)
        ensures
            path@ == "/"@ ==> (r matches Err(e) && e@ == cannot_delete_root()) && final(self)@
                == old(self)@,
            path@ != "/"@ && !old(self)@.contains_key(path@) ==> (r matches Err(e) && e@
                == not_found(path@)) && final(self)@ == old(self)@,
            path@ != "/"@ && old(self)@.contains_key(path@) ==> r is Ok && final(self)@ == old(self)@.remove(path@),
    {
        if str_eq(path, "/") {
            return Err(SftpError::new(SftpErrorKind::InvalidPath, "cannot delete root"));
        }
        let k = match self.entry_index(path) {
            Some(k) => k,
            None => {
                return Err(Self::error_after(SftpErrorKind::NotFound, path, " not found"));
            },
        };
        self.remove_at(k);
        Ok(())
    }

    /// Moves an entry to a new path, updating its name; the target must not exist.
    fn rename(&mut self, from: &str, to: &str) -> (r: SftpResult<()>)
        ensures
            old(self)@.contains_key(to@) ==> (r matches Err(e) && e@ == already_exists(to@))
                && final(self)@ == old(self)@,
            !old(self)@.contains_key(to@) && !old(self)@.contains_key(from@) ==> (r matches Err(e)
                && e@ == not_found(from@)) && final(self)@ == old(self)@,
            !old(self)@.contains_key(to@) && old(self)@.contains_key(from@) ==> r is Ok && final(self)@ == old(self)@.remove(from@).insert(to@, moved(old(self)@[from@], to@)),
    {
        match self.entry_index(to) {
            Some(_) => {
                return Err(Self::error_after(SftpErrorKind::AlreadyExists, to, " already exists"));
            },
            None => {},
        }
        let k = match self.entry_index(from) {
            Some(k) => k,
            None => {
                return Err(Self::error_after(SftpErrorKind::NotFound, from, " not found"));
            },
        };
        let mut entry = self.remove_at(k);
        entry.path = to.to_owned();
        entry.name = base_name_of(to);
        self.insert(entry);
        Ok(())
    }

    /// Creates an empty directory; the path must not exist.
    fn mkdir(&mut self, path: &str) -> (r: SftpResult<()>)
        ensures
            old(self)@.contains_key(path@) ==> (r matches Err(e) && e@ == already_exists(path@))
                && final(self)@ == old(self)@,
            !old(self)@.contains_key(path@) ==> r is Ok && final(self)@ == old(self)@.insert(
                path@,
                FsEntryView {
                    path: path@,
                    name: base_name(path@),
                    kind: FsEntryKind::Directory,
                    size_bytes: 0,
                    permissions: crate::sftp::fs_entry::DEFAULT_DIRECTORY_PERMISSIONS,
                },
            ),
    {
        match self.entry_index(path) {
            Some(_) => {
                return Err(Self::error_after(SftpErrorKind::AlreadyExists, path, " already exists"));
            },
            None => {},
        }
        self.insert(FsEntry::directory(path));
        Ok(())
    }
}

/// A directory just created shows up when its parent directory is listed.
pub proof fn law_mkdir_then_listed(
    before: FakeSftpBackend,
    after: FakeSftpBackend,
    path: Seq<char>,
    dir: Seq<char>,
    listing: DirectoryListingView,
)
    requires
        before.made_dir(after, path, Ok(())),
        is_child(dir, path),
        after.listed(dir, Ok(listing)),
    ensures
        exists|k: int| 0 <= k < listing.entries.len() && #[trigger] listing.entries[k].path == path,
{
    assert(after@.contains_key(path));
}

/// A deleted entry is gone, and no listing shows it any more.
pub proof fn law_delete_then_absent(
    before: FakeSftpBackend,
    after: FakeSftpBackend,
    path: Seq<char>,
    dir: Seq<char>,
    listing: DirectoryListingView,
)
    requires
        before.deleted(after, path, Ok(())),
        after.listed(dir, Ok(listing)),
    ensures
        !after@.contains_key(path),
        forall|k: int| 0 <= k < listing.entries.len() ==> #[trigger] listing.entries[k].path != path,
{
}

} // verus!
