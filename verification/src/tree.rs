//! An in-memory mutable directory tree, and path lookup over it: a path of
//! segments is resolved to a file checksum, a subtree, or both.

use vstd::prelude::*;

verus! {

/// An error from resolving a path against a tree.
#[derive(Debug)]
pub enum PathError {
    /// The given path had no segments.
    EmptyPath,
    /// A non-terminal segment did not name a subdirectory.
    SubdirectoryNotFound,
    /// The terminal segment did not name a file.
    FileNotFound,
    /// An opaque failure of the underlying storage, passed through.
    UnderlyingStorageError(String),
}

/// A directory node: named files with their checksums, and named
/// subdirectories. An entry may exist as a file, as a subdirectory, or as
/// both. The earliest entry of a name is the one in force.
#[verifier::ext_equal]
pub struct MutableTree {
    files: Vec<(String, String)>,
    subdirs: Vec<(String, MutableTree)>,
}

/// The first value associated with `name` among `entries`.
spec fn assoc<V>(entries: Seq<(String, V)>, name: Seq<char>) -> Option<V>
    decreases entries.len(),
{
    if entries.len() == 0 {
        None
    } else if entries[0].0@ == name {
        Some(entries[0].1)
    } else {
        assoc(entries.drop_first(), name)
    }
}

impl MutableTree {
    /// The checksum of the file named `name` in this directory, if any.
    pub closed spec fn file_at(self, name: Seq<char>) -> Option<Seq<char>> {
        match assoc(self.files@, name) {
            Some(c) => Some(c@),
            None => None,
        }
    }

    /// The subdirectory named `name` in this directory, if any.
    pub closed spec fn subdir_at(self, name: Seq<char>) -> Option<MutableTree> {
        assoc(self.subdirs@, name)
    }

    /// An empty directory.
    pub fn new() -> (t: MutableTree)
        ensures
            forall|n: Seq<char>| #[trigger] t.file_at(n) is None,
            forall|n: Seq<char>| #[trigger] t.subdir_at(n) is None,
    {
        MutableTree { files: Vec::new(), subdirs: Vec::new() }
    }

    /// Looks `name` up in this directory, returning the checksum of the file
    /// of that name and the subdirectory of that name, either of which may
    /// be absent.
    pub fn lookup<'a>(&'a self, name: &str) -> (r: (Option<&'a String>, Option<&'a MutableTree>))
        ensures
            match r.0 {
                Some(c) => self.file_at(name@) == Some(c@),
                None => self.file_at(name@) is None,
            },
            match r.1 {
                Some(t) => self.subdir_at(name@) == Some(*t),
                None => self.subdir_at(name@) is None,
            },
    {
        (assoc_get(&self.files, name), assoc_get(&self.subdirs, name))
    }

    /// Enters `name` as a file with checksum `checksum`, replacing any file
    /// of that name; subdirectories are untouched.
    pub fn put_file(&mut self, name: &str, checksum: &str)
        ensures
            final(self).file_at(name@) == Some(checksum@),
            forall|n: Seq<char>|
                n != name@ ==> #[trigger] final(self).file_at(n) == old(self).file_at(n),
            forall|n: Seq<char>| #[trigger] final(self).subdir_at(n) == old(self).subdir_at(n),
    {
        self.files.insert(0, (name.to_owned(), checksum.to_owned()));
        proof {
            assert(self.files@.drop_first() =~= old(self).files@);
        }
    }

    /// Enters `name` as a subdirectory holding `sub`, replacing any
    /// subdirectory of that name; files are untouched.
    pub fn put_subdir(&mut self, name: &str, sub: MutableTree)
        ensures
            final(self).subdir_at(name@) == Some(sub),
            forall|n: Seq<char>|
                n != name@ ==> #[trigger] final(self).subdir_at(n) == old(self).subdir_at(n),
            forall|n: Seq<char>| #[trigger] final(self).file_at(n) == old(self).file_at(n),
    {
        self.subdirs.insert(0, (name.to_owned(), sub));
        proof {
            assert(self.subdirs@.drop_first() =~= old(self).subdirs@);
        }
    }
}

/// The first value associated with `name` among `entries`, as a reference.
fn assoc_get<'a, V>(entries: &'a Vec<(String, V)>, name: &str) -> (r: Option<&'a V>)
    ensures
        match r {
            Some(v) => assoc(entries@, name@) == Some(*v),
            None => assoc(entries@, name@) is None,
        },
{
    let mut i: usize = 0;
    proof {
        assert(entries@.skip(0) =~= entries@);
    }
    while i < entries.len()
        invariant
            0 <= i <= entries.len(),
            assoc(entries@, name@) == assoc(entries@.skip(i as int), name@),
        decreases entries.len() - i,
    {
        if crate::text::str_eq(entries[i].0.as_str(), name) {
            proof {
                assert(entries@.skip(i as int)[0] == entries@[i as int]);
            }
            return Some(&entries[i].1);
        }
        proof {
            assert(entries@.skip(i as int)[0] == entries@[i as int]);
            assert(entries@.skip(i as int).drop_first() =~= entries@.skip(i as int + 1));
        }
        i += 1;
    }
    proof {
        assert(entries@.skip(i as int) =~= Seq::<(String, V)>::empty());
    }
    None
}

/// Resolution of `path` against the tree `t`: an empty path is refused; the
/// last segment is looked up in the directory reached by descending every
/// earlier segment as a subdirectory.
pub open spec fn path_lookup(t: MutableTree, path: Seq<Seq<char>>) -> Result<
    (Option<Seq<char>>, Option<MutableTree>),
    PathError,
>
    decreases path.len(),
{
    if path.len() == 0 {
        Err(PathError::EmptyPath)
    } else if path.len() == 1 {
        Ok((t.file_at(path[0]), t.subdir_at(path[0])))
    } else {
        match t.subdir_at(path[0]) {
            Some(sub) => path_lookup(sub, path.drop_first()),
            None => Err(PathError::SubdirectoryNotFound),
        }
    }
}

/// Resolution of `path` to a file checksum: as `path_lookup`, but a result
/// whose file slot is empty is refused.
pub open spec fn path_lookup_file(t: MutableTree, path: Seq<Seq<char>>) -> Result<
    Seq<char>,
    PathError,
> {
    match path_lookup(t, path) {
        Ok((Some(c), _)) => Ok(c),
        Ok((None, _)) => Err(PathError::FileNotFound),
        Err(e) => Err(e),
    }
}

/// Resolves `path` against `mtree`: the result is exactly `path_lookup`
/// of the tree and the path's segments.
pub fn mtree_lookup<'a>(mtree: &'a MutableTree, path: &[&str]) -> (r: Result<
    (Option<&'a String>, Option<&'a MutableTree>),
    PathError,
>)
    ensures
        ({
            let sr = path_lookup(*mtree, path.deep_view());
            match r {
                Ok(p) => {
                    &&& sr is Ok
                    &&& (match p.0 {
                        Some(c) => sr->Ok_0.0 == Some(c@),
                        None => sr->Ok_0.0 is None,
                    })
                    &&& (match p.1 {
                        Some(t) => sr->Ok_0.1 == Some(*t),
                        None => sr->Ok_0.1 is None,
                    })
                },
                Err(e) => sr == Err::<(Option<Seq<char>>, Option<MutableTree>), PathError>(e),
            }
        }),
{
    let ghost segs = path.deep_view();
    if path.len() == 0 {
        return Err(PathError::EmptyPath);
    }
    let mut cur: &MutableTree = mtree;
    let mut i: usize = 0;
    proof {
        assert(segs.skip(0) =~= segs);
    }
    while i < path.len() - 1
        invariant
            1 <= path@.len(),
            0 <= i < path@.len(),
            segs == path.deep_view(),
            segs.len() == path@.len(),
            path_lookup(*mtree, segs) == path_lookup(*cur, segs.skip(i as int)),
        decreases path@.len() - i,
    {
        let name = path[i];
        proof {
            assert(segs.skip(i as int)[0] == segs[i as int]);
            assert(segs[i as int] == name@);
        }
        match cur.lookup(name).1 {
            Some(sub) => {
                proof {
                    assert(segs.skip(i as int).drop_first() =~= segs.skip(i as int + 1));
                }
                cur = sub;
            },
            None => {
                return Err(PathError::SubdirectoryNotFound);
            },
        }
        i += 1;
    }
    let name = path[i];
    proof {
        assert(segs.skip(i as int).len() == 1);
        assert(segs.skip(i as int)[0] == segs[i as int]);
        assert(segs[i as int] == name@);
    }
    let r = cur.lookup(name);
    Ok(r)
}

/// Resolves `path` against `mtree` to a file checksum: the result is exactly
/// `path_lookup_file` of the tree and the path's segments.
pub fn mtree_lookup_file<'a>(mtree: &'a MutableTree, path: &[&str]) -> (r: Result<
    &'a String,
    PathError,
>)
    ensures
        ({
            let sr = path_lookup_file(*mtree, path.deep_view());
            match r {
                Ok(c) => sr == Ok::<Seq<char>, PathError>(c@),
                Err(e) => sr == Err::<Seq<char>, PathError>(e),
            }
        }),
{
    match mtree_lookup(mtree, path) {
        Ok((Some(c), _)) => Ok(c),
        Ok((None, _)) => Err(PathError::FileNotFound),
        Err(e) => Err(e),
    }
}

/// The directory reached from `t` by descending each segment of `dirs` as a
/// subdirectory, if every segment names one.
pub open spec fn descend(t: MutableTree, dirs: Seq<Seq<char>>) -> Option<MutableTree>
    decreases dirs.len(),
{
    if dirs.len() == 0 {
        Some(t)
    } else {
        match t.subdir_at(dirs[0]) {
            Some(sub) => descend(sub, dirs.drop_first()),
            None => None,
        }
    }
}

/// Resolution of a non-empty path descends every segment but the last as a
/// subdirectory, and looks the last up in the directory so reached; it fails
/// with `SubdirectoryNotFound` exactly when the descent breaks off.
pub proof fn lemma_path_lookup_by_descent(t: MutableTree, path: Seq<Seq<char>>)
    requires
        path.len() > 0,
    ensures
        path_lookup(t, path) == (match descend(t, path.drop_last()) {
            Some(u) => Ok::<(Option<Seq<char>>, Option<MutableTree>), PathError>(
                (u.file_at(path.last()), u.subdir_at(path.last())),
            ),
            None => Err::<(Option<Seq<char>>, Option<MutableTree>), PathError>(
                PathError::SubdirectoryNotFound,
            ),
        }),
    decreases path.len(),
{
    if path.len() == 1 {
        assert(path.drop_last() =~= Seq::<Seq<char>>::empty());
    } else {
        match t.subdir_at(path[0]) {
            Some(sub) => {
                lemma_path_lookup_by_descent(sub, path.drop_first());
                assert(path.drop_first().drop_last() =~= path.drop_last().drop_first());
                assert(path.drop_first().last() == path.last());
                assert(path.drop_last()[0] == path[0]);
            },
            None => {
                assert(path.drop_last()[0] == path[0]);
            },
        }
    }
}

/// A descent that is blocked at position `i` — the directory reached so far
/// has no subdirectory named `dirs[i]` — never reaches the end of `dirs`.
pub proof fn lemma_descend_blocked(t: MutableTree, dirs: Seq<Seq<char>>, i: int, u: MutableTree)
    requires
        0 <= i < dirs.len(),
        descend(t, dirs.take(i)) == Some(u),
        u.subdir_at(dirs[i]) is None,
    ensures
        descend(t, dirs) is None,
    decreases i,
{
    if i == 0 {
        assert(dirs.take(0) =~= Seq::<Seq<char>>::empty());
    } else {
        assert(dirs.take(i)[0] == dirs[0]);
        match t.subdir_at(dirs[0]) {
            Some(sub) => {
                assert(dirs.take(i).drop_first() =~= dirs.drop_first().take(i - 1));
                assert(dirs.drop_first()[i - 1] == dirs[i]);
                lemma_descend_blocked(sub, dirs.drop_first(), i - 1, u);
            },
            None => {},
        }
    }
}

/// Law: a non-empty path that names an existing nested file resolves, by
/// `path_lookup_file`, to that file's checksum.
pub proof fn lemma_lookup_file_found(
    t: MutableTree,
    path: Seq<Seq<char>>,
    u: MutableTree,
    c: Seq<char>,
)
    requires
        path.len() > 0,
        descend(t, path.drop_last()) == Some(u),
        u.file_at(path.last()) == Some(c),
    ensures
        path_lookup_file(t, path) == Ok::<Seq<char>, PathError>(c),
{
    lemma_path_lookup_by_descent(t, path);
}

/// Law: the empty path always fails with `EmptyPath`, whatever the tree
/// holds.
pub proof fn lemma_empty_path(t: MutableTree)
    ensures
        path_lookup(t, Seq::empty()) == Err::<(Option<Seq<char>>, Option<MutableTree>), PathError>(
            PathError::EmptyPath,
        ),
        path_lookup_file(t, Seq::empty()) == Err::<Seq<char>, PathError>(PathError::EmptyPath),
{
}

/// Law: when a non-terminal segment resolves to an entry that is not a
/// subdirectory — for instance, to a file — resolution fails with
/// `SubdirectoryNotFound`, for the whole lookup and for the file lookup.
pub proof fn lemma_nonterminal_not_subdir(
    t: MutableTree,
    path: Seq<Seq<char>>,
    i: int,
    u: MutableTree,
)
    requires
        0 <= i < path.len() - 1,
        descend(t, path.take(i)) == Some(u),
        u.subdir_at(path[i]) is None,
    ensures
        path_lookup(t, path) == Err::<(Option<Seq<char>>, Option<MutableTree>), PathError>(
            PathError::SubdirectoryNotFound,
        ),
        path_lookup_file(t, path) == Err::<Seq<char>, PathError>(PathError::SubdirectoryNotFound),
{
    assert(path.drop_last().take(i) =~= path.take(i));
    assert(path.drop_last()[i] == path[i]);
    lemma_descend_blocked(t, path.drop_last(), i, u);
    lemma_path_lookup_by_descent(t, path);
}

/// Law: when the terminal segment names an existing subdirectory and no
/// file, the whole lookup succeeds with an empty file slot and a populated
/// subtree slot, while the file lookup fails with `FileNotFound`.
pub proof fn lemma_terminal_directory(
    t: MutableTree,
    path: Seq<Seq<char>>,
    u: MutableTree,
    sub: MutableTree,
)
    requires
        path.len() > 0,
        descend(t, path.drop_last()) == Some(u),
        u.file_at(path.last()) is None,
        u.subdir_at(path.last()) == Some(sub),
    ensures
        path_lookup(t, path) == Ok::<(Option<Seq<char>>, Option<MutableTree>), PathError>(
            (None, Some(sub)),
        ),
        path_lookup_file(t, path) == Err::<Seq<char>, PathError>(PathError::FileNotFound),
{
    lemma_path_lookup_by_descent(t, path);
}

} // verus!

