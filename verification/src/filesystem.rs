//! The filesystem: a cache of embedded files, looked up first, and a root
//! directory for everything else.

use vstd::prelude::*;
use vstd::string::StringExecFns;

use crate::error::{GameError, GameResult};

verus! {

/// Whether two strings name the same path, compared component by component
/// (`std::path::Path` equality).
pub uninterp spec fn paths_equal(a: Seq<char>, b: Seq<char>) -> bool;

/// `path` with its leading root (`/`) taken off, or `None` if it has none
/// (`std::path::Path::strip_prefix("/")`).
pub uninterp spec fn root_stripped(path: Seq<char>) -> Option<Seq<char>>;

/// The entries of a tar archive in order, each as its path (as text, or
/// `None` where it is not valid UTF-8) and its contents, or `None` if the
/// archive is malformed.
pub uninterp spec fn tar_entries(archive: Seq<u8>) -> Option<Seq<(Option<Seq<char>>, Seq<u8>)>>;

/// The parts of a path between its `/` separators, in order, empty parts
/// included: `"a//b/"` has the parts `a`, ``, `b` and ``.
pub open spec fn path_segments(s: Seq<char>) -> Seq<Seq<char>>
    decreases s.len(),
{
    if s.len() == 0 {
        seq![Seq::<char>::empty()]
    } else {
        let rest = path_segments(s.drop_first());
        if s[0] == '/' {
            seq![Seq::<char>::empty()] + rest
        } else {
            rest.update(0, seq![s[0]] + rest[0])
        }
    }
}

/// A path written with `/` alone: no `\`, no `:` and no leading `//`, so
/// that it has no drive, share or other prefix on any platform.
pub open spec fn path_plain(s: Seq<char>) -> bool {
    &&& forall|i: int| 0 <= i < s.len() ==> s[i] != '\\' && s[i] != ':'
    &&& !(s.len() >= 2 && s[0] == '/' && s[1] == '/')
}

/// The components of a path, as `std::path::Path` sees them: whether it
/// starts at the root, whether it starts with the current directory `.`, and
/// its other parts in order, with empty parts and `.` left out.
pub open spec fn path_components(s: Seq<char>) -> (bool, bool, Seq<Seq<char>>) {
    let has_root = s.len() > 0 && s[0] == '/';
    (
        has_root,
        !has_root && path_segments(s)[0] == seq!['.'],
        path_segments(s).filter(|g: Seq<char>| g.len() > 0 && g != seq!['.']),
    )
}

/// Calls `std::path::Path::eq`: whether `a` and `b` name the same path. The
/// result is taken to depend on the two strings alone; path equality is
/// symmetric, as `PartialEq` requires of `Path`. `Path` compares the
/// components of the two paths; for plain paths those are stated exactly,
/// while what a platform's prefixes and separators do to other paths is left
/// to the name `paths_equal`.
#[verifier::external_body]
fn same_path(a: &str, b: &str) -> (r: bool)
    ensures
        r == paths_equal(a@, b@),
        r == paths_equal(b@, a@),
        path_plain(a@) && path_plain(b@) ==> (r <==> path_components(a@) == path_components(
            b@,
        )),
{
    std::path::Path::new(a) == std::path::Path::new(b)
}

/// Calls `std::path::Path::strip_prefix` with `/`: the path without its
/// leading root, as a string, or `None` where the path has no root. The
/// result is taken to depend on `path` alone.
#[verifier::external_body]
fn strip_root(path: &str) -> (r: Option<String>)
    ensures
        r matches Some(s) ==> root_stripped(path@) == Some(s@),
        r is None ==> root_stripped(path@) is None,
{
    match std::path::Path::new(path).strip_prefix("/") {
        Ok(p) => Some(p.to_string_lossy().into_owned()),
        Err(_) => None,
    }
}

/// The entries of an archive as text and bytes, seen as values.
pub open spec fn entries_view(v: Seq<(String, Vec<u8>)>) -> Seq<(Seq<char>, Seq<u8>)> {
    v.map_values(|e: (String, Vec<u8>)| (e.0@, e.1@))
}

/// Archive entries as read, seen as values.
pub open spec fn read_view(v: Seq<(Option<String>, Vec<u8>)>) -> Seq<(Option<Seq<char>>, Seq<u8>)> {
    v.map_values(
        |e: (Option<String>, Vec<u8>)|
            (
                match e.0 {
                    Some(p) => Some(p@),
                    None => None,
                },
                e.1@,
            ),
    )
}

/// The entries whose paths are text, in order. The others cannot be reached
/// by a path given as text.
pub open spec fn text_entries(es: Seq<(Option<Seq<char>>, Seq<u8>)>) -> Seq<(Seq<char>, Seq<u8>)>
    decreases es.len(),
{
    if es.len() == 0 {
        Seq::empty()
    } else {
        let rest = text_entries(es.drop_last());
        match es.last().0 {
            Some(p) => rest.push((p, es.last().1)),
            None => rest,
        }
    }
}

/// Reads a tar archive in memory with `tar::Archive::entries`: each entry's
/// path (through `Path::to_str`) and contents, in archive order, or the
/// error of the first entry that cannot be read. Taken to depend on the
/// archive's bytes alone; which error comes is not stated.
#[verifier::external_body]
fn read_tar(archive: &[u8]) -> (r: Result<Vec<(Option<String>, Vec<u8>)>, std::io::Error>)
    ensures
        r is Err <==> tar_entries(archive@) is None,
        r matches Ok(v) ==> tar_entries(archive@) == Some(read_view(v@)),
{
    let mut ar = tar::Archive::new(archive);
    let mut entries = Vec::new();
    for file in ar.entries()? {
        let mut file = file?;
        let path = file.path()?.to_str().map(|p| p.to_owned());
        let mut bytes = Vec::new();
        std::io::Read::read_to_end(&mut file, &mut bytes)?;
        entries.push((path, bytes));
    }
    Ok(entries)
}

/// The entries whose paths are text.
fn keep_text_entries(entries: Vec<(Option<String>, Vec<u8>)>) -> (r: Vec<(String, Vec<u8>)>)
    ensures
        entries_view(r@) == text_entries(read_view(entries@)),
{
    let ghost all = read_view(entries@);
    let mut r: Vec<(String, Vec<u8>)> = Vec::new();
    let mut i: usize = 0;
    let n = entries.len();
    assert(entries_view(r@) =~= text_entries(all.subrange(0, 0)));
    while i < n
        invariant
            n == entries@.len(),
            all == read_view(entries@),
            i <= n,
            entries_view(r@) == text_entries(all.subrange(0, i as int)),
        decreases n - i,
    {
        proof {
            assert(all.subrange(0, i + 1).drop_last() =~= all.subrange(0, i as int));
            assert(all.subrange(0, i + 1).last() == all[i as int]);
        }
        match &entries[i].0 {
            Some(p) => {
                let ghost r0 = r@;
                r.push((p.clone(), entries[i].1.clone()));
                assert(entries_view(r@) =~= entries_view(r0).push((p@, entries@[i as int].1@)));
            },
            None => {},
        }
        i = i + 1;
    }
    assert(all.subrange(0, n as int) =~= all);
    r
}

/// The contents of a file, read-only.
pub struct File {
    pub bytes: Vec<u8>,
}

impl Clone for File {
    fn clone(&self) -> (f: File)
        ensures
            f.bytes@ == self.bytes@,
    {
        File { bytes: self.bytes.clone() }
    }
}

/// The path that a lookup uses: without its leading root, if it has one.
pub open spec fn lookup_path(path: Seq<char>) -> Seq<char> {
    match root_stripped(path) {
        Some(p) => p,
        None => path,
    }
}

/// The index of the first cached file whose path names the same path as
/// `path`, if any.
pub open spec fn cache_index(files: Seq<(Seq<char>, Seq<u8>)>, path: Seq<char>) -> Option<int> {
    if exists|i: int| 0 <= i < files.len() && paths_equal(files[i].0, path) {
        Some(choose|i: int| {
            &&& 0 <= i < files.len()
            &&& paths_equal(files[i].0, path)
            &&& forall|j: int| 0 <= j < i ==> !paths_equal(#[trigger] files[j].0, path)
        })
    } else {
        None
    }
}

/// The cache after adding a file: it replaces the contents of the file under
/// the same path, which keeps its path as it was first written, or goes at
/// the end.
pub open spec fn cache_insert(
    files: Seq<(Seq<char>, Seq<u8>)>,
    path: Seq<char>,
    bytes: Seq<u8>,
) -> Seq<(Seq<char>, Seq<u8>)> {
    match cache_index(files, path) {
        Some(i) => files.update(i, (files[i].0, bytes)),
        None => files.push((path, bytes)),
    }
}

/// The cache built from archive entries, in order: empty entries are
/// skipped, later entries replace earlier ones under the same path.
pub open spec fn cache_of(entries: Seq<(Seq<char>, Seq<u8>)>) -> Seq<(Seq<char>, Seq<u8>)>
    decreases entries.len(),
{
    if entries.len() == 0 {
        Seq::empty()
    } else {
        let rest = cache_of(entries.drop_last());
        let (path, bytes) = entries.last();
        if bytes.len() == 0 {
            rest
        } else {
            cache_insert(rest, path, bytes)
        }
    }
}

/// No two cached files are under the same path.
pub open spec fn distinct_paths(files: Seq<(Seq<char>, Seq<u8>)>) -> bool {
    forall|i: int, j: int|
        0 <= i < files.len() && 0 <= j < files.len() && i != j ==> !paths_equal(
            #[trigger] files[i].0,
            #[trigger] files[j].0,
        )
}

/// The path under which a file that is not cached is loaded: relative to
/// the root directory, if there is one.
pub open spec fn load_path(root: Option<String>, path: Seq<char>) -> Seq<char> {
    match root {
        Some(r) => r@ + seq!['/'] + path,
        None => path,
    }
}

/// Every non-empty one of the first `n` entries has a plain path.
pub open spec fn plain_entries(es: Seq<(Seq<char>, Seq<u8>)>, n: int) -> bool {
    forall|m: int| 0 <= m < n && (#[trigger] es[m]).1.len() > 0 ==> path_plain(es[m].0)
}

/// No non-empty entry after entry `i`, up to entry `n`, has the same
/// components as entry `i`.
pub open spec fn last_under_its_path(es: Seq<(Seq<char>, Seq<u8>)>, i: int, n: int) -> bool {
    forall|j: int|
        i < j < n && (#[trigger] es[j]).1.len() > 0 ==> path_components(es[j].0) != path_components(
            es[i].0,
        )
}

/// Some cached file has the contents of `entry`, under a path with the same
/// components.
pub open spec fn holds_entry(files: Seq<(Seq<char>, Seq<u8>)>, entry: (Seq<char>, Seq<u8>)) -> bool {
    exists|q: int|
        0 <= q < files.len() && (#[trigger] files[q]).1 == entry.1 && path_components(files[q].0)
            == path_components(entry.0)
}

/// Adding entry `k` to a cache that holds the entries before it as stated
/// keeps it so, for the first `k + 1` entries.
proof fn lemma_add_keeps_entries(
    all: Seq<(Seq<char>, Seq<u8>)>,
    k: int,
    fv0: Seq<(Seq<char>, Seq<u8>)>,
    fv: Seq<(Seq<char>, Seq<u8>)>,
)
    requires
        0 <= k < all.len(),
        all[k].1.len() == 0 ==> fv == fv0,
        all[k].1.len() > 0 ==> fv == cache_insert(fv0, all[k].0, all[k].1),
        all[k].1.len() > 0 ==> forall|j: int|
            0 <= j < fv0.len() && path_plain(#[trigger] fv0[j].0) && path_plain(all[k].0)
                && path_components(fv0[j].0) != path_components(all[k].0) ==> fv[j] == fv0[j],
        all[k].1.len() > 0 ==> exists|q: int|
            0 <= q < fv.len() && (#[trigger] fv[q]).1 == all[k].1 && (path_plain(fv[q].0)
                && path_plain(all[k].0) ==> path_components(fv[q].0) == path_components(all[k].0)),
        plain_entries(all, k) ==> forall|q: int| 0 <= q < fv0.len() ==> path_plain(#[trigger] fv0[q].0),
        plain_entries(all, k) ==> forall|i: int|
            0 <= i < k && (#[trigger] all[i]).1.len() > 0 && last_under_its_path(all, i, k)
                ==> holds_entry(fv0, all[i]),
    ensures
        plain_entries(all, k + 1) ==> forall|q: int| 0 <= q < fv.len() ==> path_plain(#[trigger] fv[q].0),
        plain_entries(all, k + 1) ==> forall|i: int|
            0 <= i < k + 1 && (#[trigger] all[i]).1.len() > 0 && last_under_its_path(all, i, k + 1)
                ==> holds_entry(fv, all[i]),
{
    let entry = all[k];
    lemma_cache_index(fv0, entry.0);
    if plain_entries(all, k + 1) {
        assert(plain_entries(all, k));
        if entry.1.len() > 0 {
            assert(path_plain(entry.0));
            assert forall|q: int| 0 <= q < fv.len() implies path_plain(#[trigger] fv[q].0) by {
                match cache_index(fv0, entry.0) {
                    Some(c) => {
                        assert(fv =~= fv0.update(c, (fv0[c].0, entry.1)));
                        assert(fv[q].0 == fv0[q].0);
                    },
                    None => {
                        assert(fv =~= fv0.push(entry));
                        if q < fv0.len() {
                            assert(fv[q] == fv0[q]);
                        }
                    },
                }
            }
        }
        assert forall|i: int|
            0 <= i < k + 1 && (#[trigger] all[i]).1.len() > 0 && last_under_its_path(all, i, k + 1)
                implies holds_entry(fv, all[i]) by {
            if i < k {
                assert(last_under_its_path(all, i, k));
                assert(holds_entry(fv0, all[i]));
                let q = choose|q: int|
                    0 <= q < fv0.len() && (#[trigger] fv0[q]).1 == all[i].1 && path_components(
                        fv0[q].0,
                    ) == path_components(all[i].0);
                if entry.1.len() > 0 {
                    assert(path_plain(fv0[q].0));
                    assert(fv[q] == fv0[q]);
                    assert(q < fv.len()) by {
                        match cache_index(fv0, entry.0) {
                            Some(c) => {},
                            None => {},
                        }
                    }
                }
                assert(fv[q] == fv0[q]);
            } else {
                let q = choose|q: int|
                    0 <= q < fv.len() && (#[trigger] fv[q]).1 == entry.1 && (path_plain(fv[q].0)
                        && path_plain(entry.0) ==> path_components(fv[q].0) == path_components(
                        entry.0,
                    ));
                assert(path_plain(fv[q].0));
            }
        }
    }
}

/// A structure that contains the filesystem state and cache.
pub struct Filesystem {
    root: Option<String>,
    files: Vec<(String, File)>,
}

/// The cached files as paths and contents.
pub open spec fn files_view(files: Seq<(String, File)>) -> Seq<(Seq<char>, Seq<u8>)> {
    files.map_values(|e: (String, File)| (e.0@, e.1.bytes@))
}

/// Finds the first cached file under the same path as `path`.
fn find_cached(files: &Vec<(String, File)>, path: &str) -> (r: Option<usize>)
    ensures
        r matches Some(i) ==> cache_index(files_view(files@), path@) == Some(i as int) && i
            < files@.len(),
        r is None ==> cache_index(files_view(files@), path@) is None,
        r is None ==> forall|j: int|
            0 <= j < files@.len() ==> !paths_equal(path@, #[trigger] files_view(files@)[j].0),
        r matches Some(i) ==> (path_plain(files_view(files@)[i as int].0) && path_plain(path@)
            ==> path_components(files_view(files@)[i as int].0) == path_components(path@)),
        r is None ==> forall|j: int|
            0 <= j < files@.len() && path_plain(#[trigger] files_view(files@)[j].0) && path_plain(
                path@,
            ) ==> path_components(files_view(files@)[j].0) != path_components(path@),
{
    let ghost fv = files_view(files@);
    let mut i: usize = 0;
    while i < files.len()
        invariant
            i <= files@.len(),
            fv == files_view(files@),
            forall|j: int| 0 <= j < i ==> !paths_equal(#[trigger] fv[j].0, path@),
            forall|j: int| 0 <= j < i ==> !paths_equal(path@, #[trigger] fv[j].0),
            forall|j: int|
                0 <= j < i && path_plain(#[trigger] fv[j].0) && path_plain(path@)
                    ==> path_components(fv[j].0) != path_components(path@),
        decreases files@.len() - i,
    {
        if same_path(files[i].0.as_str(), path) {
            proof {
                assert(fv[i as int].0 == files@[i as int].0@);
                let c = choose|k: int| {
                    &&& 0 <= k < fv.len()
                    &&& paths_equal(fv[k].0, path@)
                    &&& forall|j: int| 0 <= j < k ==> !paths_equal(#[trigger] fv[j].0, path@)
                };
                assert(0 <= c < fv.len() && paths_equal(fv[c].0, path@) && forall|j: int|
                    0 <= j < c ==> !paths_equal(#[trigger] fv[j].0, path@));
                if c < i {
                } else if c > i {
                    assert(!paths_equal(fv[i as int].0, path@));
                }
            }
            return Some(i);
        }
        proof {
            assert(fv[i as int].0 == files@[i as int].0@);
        }
        i = i + 1;
    }
    None
}

/// Adds a file to the cache: it replaces the contents of the file under the
/// same path, or goes at the end.
fn cache_add(files: &mut Vec<(String, File)>, path: String, bytes: Vec<u8>)
    requires
        distinct_paths(files_view(old(files)@)),
    ensures
        files_view(final(files)@) == cache_insert(files_view(old(files)@), path@, bytes@),
        distinct_paths(files_view(final(files)@)),
        forall|j: int|
            0 <= j < old(files)@.len() && path_plain(#[trigger] files_view(old(files)@)[j].0)
                && path_plain(path@) && path_components(files_view(old(files)@)[j].0)
                != path_components(path@) ==> files_view(final(files)@)[j] == files_view(
                old(files)@,
            )[j],
        exists|k: int|
            0 <= k < final(files)@.len() && (#[trigger] files_view(final(files)@)[k]).1 == bytes@
                && (path_plain(files_view(final(files)@)[k].0) && path_plain(path@)
                ==> path_components(files_view(final(files)@)[k].0) == path_components(path@)),
{
    let ghost fv0 = files_view(files@);
    match find_cached(files, path.as_str()) {
        Some(i) => {
            let key = files[i].0.clone();
            files.set(i, (key, File { bytes }));
            proof {
                let fv = files_view(files@);
                assert(fv =~= fv0.update(i as int, (fv0[i as int].0, fv[i as int].1)));
                assert forall|a: int, b: int|
                    0 <= a < fv.len() && 0 <= b < fv.len() && a != b implies !paths_equal(
                    #[trigger] fv[a].0,
                    #[trigger] fv[b].0,
                ) by {
                    assert(fv[a].0 == fv0[a].0);
                    assert(fv[b].0 == fv0[b].0);
                }
            }
        },
        None => {
            files.push((path, File { bytes }));
            proof {
                let fv = files_view(files@);
                assert(fv =~= fv0.push(fv[fv0.len() as int]));
                assert forall|a: int, b: int|
                    0 <= a < fv.len() && 0 <= b < fv.len() && a != b implies !paths_equal(
                    #[trigger] fv[a].0,
                    #[trigger] fv[b].0,
                ) by {
                    if a < fv0.len() && b < fv0.len() {
                        assert(fv[a] == fv0[a] && fv[b] == fv0[b]);
                    } else if a < fv0.len() {
                        assert(fv[a] == fv0[a]);
                        assert(!paths_equal(fv0[a].0, fv[b].0));
                    } else {
                        assert(fv[b] == fv0[b]);
                        assert(!paths_equal(fv[a].0, fv0[b].0));
                    }
                }
            }
        },
    }
}

impl Filesystem {
    /// The root directory, if any.
    pub closed spec fn root(&self) -> Option<String> {
        self.root
    }

    /// The cached files, as paths and contents.
    pub closed spec fn files(&self) -> Seq<(Seq<char>, Seq<u8>)> {
        files_view(self.files@)
    }

    /// A filesystem over the files of an embedded archive, given as its
    /// entries in order, and an optional root directory.
    pub fn new(root: Option<String>, entries: Vec<(String, Vec<u8>)>) -> (fs: Filesystem)
        ensures
            fs.root() == root,
            fs.files() == cache_of(entries_view(entries@)),
            distinct_paths(fs.files()),
            plain_entries(entries_view(entries@), entries@.len() as int) ==> forall|i: int|
                0 <= i < entries@.len() && (#[trigger] entries_view(entries@)[i]).1.len() > 0
                    && last_under_its_path(entries_view(entries@), i, entries@.len() as int)
                    ==> holds_entry(fs.files(), entries_view(entries@)[i]),
    {
        let mut files: Vec<(String, File)> = Vec::new();
        let mut entries = entries;
        let ghost all = entries_view(entries@);
        let ghost mut k: int = 0;
        assert(all.subrange(0, 0) =~= Seq::<(Seq<char>, Seq<u8>)>::empty());
        assert(files_view(files@) =~= Seq::<(Seq<char>, Seq<u8>)>::empty());
        while entries.len() > 0
            invariant
                0 <= k <= all.len(),
                entries_view(entries@) == all.subrange(k, all.len() as int),
                files_view(files@) == cache_of(all.subrange(0, k)),
                distinct_paths(files_view(files@)),
                plain_entries(all, k) ==> forall|q: int|
                    0 <= q < files@.len() ==> path_plain(#[trigger] files_view(files@)[q].0),
                plain_entries(all, k) ==> forall|i: int|
                    0 <= i < k && (#[trigger] all[i]).1.len() > 0 && last_under_its_path(all, i, k)
                        ==> holds_entry(files_view(files@), all[i]),
            decreases entries@.len(),
        {
            let ghost ev0 = entries_view(entries@);
            let ghost fv0 = files_view(files@);
            proof {
                assert(ev0.len() == entries@.len());
                assert(k < all.len());
                assert(ev0[0] == all[k]);
            }
            let (path, bytes) = entries.remove(0);
            proof {
                assert(ev0[0] == (path@, bytes@));
                assert(all.subrange(0, k + 1).drop_last() =~= all.subrange(0, k));
                assert(all.subrange(0, k + 1).last() == (path@, bytes@));
                assert(entries_view(entries@) =~= ev0.drop_first());
            }
            if bytes.len() > 0 {
                cache_add(&mut files, path, bytes);
            }
            proof {
                lemma_add_keeps_entries(all, k, fv0, files_view(files@));
                k = k + 1;
            }
        }
        assert(all.subrange(0, k) =~= all);
        Filesystem { root, files }
    }

    /// A filesystem over the embedded tar archive, if there is one, and an
    /// optional root directory; an error if the archive cannot be read.
    pub fn from_archive(root: Option<String>, archive: Option<&[u8]>) -> (r: GameResult<Filesystem>)
        ensures
            match archive {
                None => r matches Ok(fs) && fs.root() == root && fs.files() == Seq::<
                    (Seq<char>, Seq<u8>),
                >::empty(),
                Some(a) => match tar_entries(a@) {
                    None => r matches Err(GameError::IOError(_)),
                    Some(es) => r matches Ok(fs) && fs.root() == root && fs.files() == cache_of(
                        text_entries(es),
                    ) && (plain_entries(text_entries(es), text_entries(es).len() as int)
                        ==> forall|i: int|
                        0 <= i < text_entries(es).len() && (#[trigger] text_entries(es)[i]).1.len()
                            > 0 && last_under_its_path(
                            text_entries(es),
                            i,
                            text_entries(es).len() as int,
                        ) ==> holds_entry(fs.files(), text_entries(es)[i])),
                },
            },
            r matches Ok(fs) ==> distinct_paths(fs.files()),
    {
        match archive {
            None => {
                let fs = Filesystem::new(root, Vec::new());
                assert(entries_view(Seq::<(String, Vec<u8>)>::empty()) =~= Seq::<(Seq<char>, Seq<u8>)>::empty());
                Ok(fs)
            },
            Some(a) => match read_tar(a) {
                Ok(entries) => Ok(Filesystem::new(root, keep_text_entries(entries))),
                Err(e) => Err(GameError::IOError(e)),
            },
        }
    }

    /// Opens the given `path` and returns the resulting `File`: the cached
    /// file under that path (a leading `/` is ignored), if there is one, and
    /// otherwise what `load_file` gives for the path relative to the root
    /// directory.
    pub fn open<F>(&mut self, path: &str, load_file: F) -> (r: GameResult<File>) where
        F: FnOnce(String) -> GameResult<File>,

        requires
            forall|p: String| load_file.requires((p,)),
        ensures
            final(self).root() == old(self).root(),
            final(self).files() == old(self).files(),
            match cache_index(old(self).files(), lookup_path(path@)) {
                Some(i) => r matches Ok(f) && f.bytes@ == old(self).files()[i].1,
                None => exists|p: String|
                    p@ == load_path(old(self).root(), lookup_path(path@)) && load_file.ensures((p,), r),
            },
            match cache_index(old(self).files(), lookup_path(path@)) {
                Some(i) => path_plain(old(self).files()[i].0) && path_plain(lookup_path(path@))
                    ==> path_components(old(self).files()[i].0) == path_components(
                    lookup_path(path@),
                ),
                None => forall|j: int|
                    0 <= j < old(self).files().len() && path_plain(
                        #[trigger] old(self).files()[j].0,
                    ) && path_plain(lookup_path(path@)) ==> path_components(old(self).files()[j].0)
                        != path_components(lookup_path(path@)),
            },
    {
        let path = match strip_root(path) {
            Some(stripped) => stripped,
            None => path.to_owned(),
        };
        match find_cached(&self.files, path.as_str()) {
            Some(i) => Ok(self.files[i].1.clone()),
            None => {
                let full = self.full_path(path);
                load_file(full)
            },
        }
    }

    /// The path under which a file that is not cached is loaded.
    fn full_path(&self, path: String) -> (p: String)
        ensures
            p@ == load_path(self.root(), path@),
    {
        match &self.root {
            Some(root) => {
                let mut full = root.clone();
                full.append("/");
                full.append(path.as_str());
                proof {
                    reveal_strlit("/");
                }
                full
            },
            None => path,
        }
    }
}

/// Every entry whose path is text is kept, with its path and contents, and
/// nothing else is: the entries of `text_entries(es)` are exactly the text
/// entries of `es`.
pub proof fn law_text_entries_keep_every_text_entry(es: Seq<(Option<Seq<char>>, Seq<u8>)>)
    ensures
        text_entries(es).len() <= es.len(),
        forall|i: int|
            0 <= i < es.len() && (#[trigger] es[i]).0 is Some ==> exists|j: int|
                0 <= j < text_entries(es).len() && text_entries(es)[j] == (es[i].0->0, es[i].1),
        forall|j: int|
            0 <= j < text_entries(es).len() ==> exists|i: int|
                0 <= i < es.len() && es[i] == (Some(#[trigger] text_entries(es)[j].0), text_entries(
                    es,
                )[j].1),
    decreases es.len(),
{
    if es.len() > 0 {
        let rest = es.drop_last();
        law_text_entries_keep_every_text_entry(rest);
        let t0 = text_entries(rest);
        let t = text_entries(es);
        assert forall|i: int| 0 <= i < es.len() && (#[trigger] es[i]).0 is Some implies exists|j: int|
            0 <= j < t.len() && t[j] == (es[i].0->0, es[i].1) by {
            if i < es.len() - 1 {
                assert(rest[i] == es[i]);
                let j = choose|j: int| 0 <= j < t0.len() && t0[j] == (rest[i].0->0, rest[i].1);
                assert(t[j] == t0[j]);
            } else {
                assert(t[t.len() - 1] == (es[i].0->0, es[i].1));
            }
        }
        assert forall|j: int| 0 <= j < t.len() implies exists|i: int|
            0 <= i < es.len() && es[i] == (Some(#[trigger] t[j].0), t[j].1) by {
            if j < t0.len() {
                assert(t[j] == t0[j]);
                let i = choose|i: int| 0 <= i < rest.len() && rest[i] == (Some(t0[j].0), t0[j].1);
                assert(es[i] == rest[i]);
            } else {
                assert(es[es.len() - 1] == (Some(t[j].0), t[j].1));
            }
        }
    }
}

/// A first index under a path exists wherever some index is under it.
proof fn lemma_first_under(files: Seq<(Seq<char>, Seq<u8>)>, path: Seq<char>, i: int)
    requires
        0 <= i < files.len(),
        paths_equal(files[i].0, path),
    ensures
        exists|k: int|
            0 <= k <= i && paths_equal(files[k].0, path) && forall|j: int|
                0 <= j < k ==> !paths_equal(#[trigger] files[j].0, path),
    decreases i,
{
    if exists|j: int| 0 <= j < i && paths_equal(files[j].0, path) {
        let j = choose|j: int| 0 <= j < i && paths_equal(files[j].0, path);
        lemma_first_under(files, path, j);
    } else {
        assert(forall|j: int| 0 <= j < i ==> !paths_equal(#[trigger] files[j].0, path));
    }
}

/// What `cache_index` finds is the first file under the path.
proof fn lemma_cache_index(files: Seq<(Seq<char>, Seq<u8>)>, path: Seq<char>)
    ensures
        cache_index(files, path) matches Some(k) ==> {
            &&& 0 <= k < files.len()
            &&& paths_equal(files[k].0, path)
            &&& forall|j: int| 0 <= j < k ==> !paths_equal(#[trigger] files[j].0, path)
        },
        cache_index(files, path) is None ==> forall|j: int|
            0 <= j < files.len() ==> !paths_equal(#[trigger] files[j].0, path),
{
    if exists|i: int| 0 <= i < files.len() && paths_equal(files[i].0, path) {
        let i = choose|i: int| 0 <= i < files.len() && paths_equal(files[i].0, path);
        lemma_first_under(files, path, i);
    }
}

/// Every file of the archive with contents is in the cache, under its path
/// or one that names the same path, and the last entry of the archive, if it
/// has contents, is cached with its contents: later entries win.
pub proof fn law_cache_holds_every_file(es: Seq<(Seq<char>, Seq<u8>)>)
    ensures
        forall|i: int|
            0 <= i < es.len() && (#[trigger] es[i]).1.len() > 0 ==> exists|j: int|
                0 <= j < cache_of(es).len() && (cache_of(es)[j].0 == es[i].0 || paths_equal(
                    cache_of(es)[j].0,
                    es[i].0,
                )),
        es.len() > 0 && es.last().1.len() > 0 ==> exists|j: int|
            0 <= j < cache_of(es).len() && cache_of(es)[j].1 == es.last().1 && (cache_of(es)[j].0
                == es.last().0 || paths_equal(cache_of(es)[j].0, es.last().0)),
    decreases es.len(),
{
    if es.len() > 0 {
        let rest = es.drop_last();
        law_cache_holds_every_file(rest);
        let c0 = cache_of(rest);
        let c = cache_of(es);
        let p = es.last().0;
        let b = es.last().1;
        assert(c == if b.len() == 0 { c0 } else { cache_insert(c0, p, b) });
        if b.len() > 0 {
            lemma_cache_index(c0, p);
        }
        // keys are kept: an update keeps the key it replaces, a push appends
        assert(c.len() >= c0.len());
        assert forall|j: int| 0 <= j < c0.len() implies #[trigger] c[j].0 == c0[j].0 by {}
        if b.len() > 0 {
            match cache_index(c0, p) {
                Some(k) => {
                    assert(c[k] == (c0[k].0, b));
                    assert(paths_equal(c0[k].0, p));
                },
                None => {
                    assert(c[c0.len() as int] == (p, b));
                },
            }
        }
        assert forall|i: int| 0 <= i < es.len() && (#[trigger] es[i]).1.len() > 0 implies exists|j: int|
            0 <= j < c.len() && (c[j].0 == es[i].0 || paths_equal(c[j].0, es[i].0)) by {
            if i < es.len() - 1 {
                assert(rest[i] == es[i]);
                let j = choose|j: int| 0 <= j < c0.len() && (c0[j].0 == rest[i].0 || paths_equal(c0[j].0, rest[i].0));
                assert(c[j].0 == c0[j].0);
            } else {
                assert(es[i] == es.last());
            }
        }
    }
}

} // verus!
