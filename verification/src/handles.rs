//! The handle directory: the authoritative bidirectional mapping between
//! backing paths and the opaque numeric handles the protocol uses to refer to
//! them, together with the allocator for fresh handles.
//!
//! The directory is modelled as the sequence of known backing paths, where the
//! path at index `i` owns handle `i + 1`. Handle `1` is the backing root,
//! pre-assigned at construction; fresh handles are the monotonically
//! increasing values `2, 3, ...` in order of first reference, and a handle,
//! once assigned, never changes meaning. The forward (handle to path) and
//! reverse (path to handle) maps of the protocol contract are both derived
//! from this one sequence, which keeps them mutually consistent by
//! construction.

use vstd::prelude::*;
use vstd::string::StringExecFns;

verus! {

/// The backing path of an entry named `name` inside the directory at `dir`:
/// the two joined by the host's path separator.
pub open spec fn compose_path(dir: Seq<char>, name: Seq<char>) -> Seq<char> {
    dir + "/"@ + name
}

/// Joins a directory's backing path and a child name.
pub fn compose(dir: &String, name: &String) -> (full: String)
    ensures
        full@ == compose_path(dir@, name@),
{
    let mut full = dir.clone();
    full.append("/");
    full.append(name.as_str());
    full
}

/// Well-formedness of the path table: the root is present, every handle fits
/// in the protocol's 64-bit handle field, and no path occurs twice (so the
/// reverse direction is a function).
pub open spec fn table_wf(t: Seq<Seq<char>>) -> bool {
    &&& 1 <= t.len()
    &&& t.len() <= u64::MAX
    &&& forall|i: int, j: int| 0 <= i < j < t.len() ==> t[i] != t[j]
}

/// Whether some handle has been assigned to path `p`.
pub open spec fn table_has(t: Seq<Seq<char>>, p: Seq<char>) -> bool {
    exists|i: int| 0 <= i < t.len() && t[i] == p
}

/// The index of path `p` in the table (meaningful only when `table_has`).
pub open spec fn path_index(t: Seq<Seq<char>>, p: Seq<char>) -> int {
    choose|i: int| 0 <= i < t.len() && t[i] == p
}

/// The handle assigned to path `p` (meaningful only when `table_has`).
pub open spec fn handle_of(t: Seq<Seq<char>>, p: Seq<char>) -> u64 {
    (path_index(t, p) + 1) as u64
}

/// The handle that `assign` hands out for `p`: the existing one when the path
/// is known, the next unused handle otherwise.
pub open spec fn assign_handle(t: Seq<Seq<char>>, p: Seq<char>) -> u64 {
    if table_has(t, p) {
        handle_of(t, p)
    } else {
        (t.len() + 1) as u64
    }
}

/// The table after `assign(p)`: unchanged when the path is known, extended by
/// `p` otherwise.
pub open spec fn assign_table(t: Seq<Seq<char>>, p: Seq<char>) -> Seq<Seq<char>> {
    if table_has(t, p) {
        t
    } else {
        t.push(p)
    }
}

/// The forward map, handle to backing path.
pub open spec fn forward_of(t: Seq<Seq<char>>) -> Map<u64, Seq<char>> {
    Map::new(|h: u64| 1 <= h <= t.len(), |h: u64| t[h as int - 1])
}

/// The reverse map, backing path to handle.
pub open spec fn reverse_of(t: Seq<Seq<char>>) -> Map<Seq<char>, u64> {
    Map::new(|p: Seq<char>| table_has(t, p), |p: Seq<char>| handle_of(t, p))
}

/// In a well-formed table a path sits at exactly one index, so `path_index`
/// agrees with any index that holds the path.
pub(crate) proof fn lemma_path_index_is(t: Seq<Seq<char>>, p: Seq<char>, i: int)
    requires
        table_wf(t),
        0 <= i < t.len(),
        t[i] == p,
    ensures
        table_has(t, p),
        path_index(t, p) == i,
        handle_of(t, p) == i + 1,
{
    assert(table_has(t, p));
    let j = path_index(t, p);
    assert(0 <= j < t.len() && t[j] == p);
    if j < i {
        assert(t[j] != t[i]);
        assert(false);
    } else if i < j {
        assert(t[i] != t[j]);
        assert(false);
    }
}

/// `assign` keeps the table well-formed, never moves or removes an existing
/// entry, and grows the table by at most the one new path.
pub proof fn lemma_assign_wf(t: Seq<Seq<char>>, p: Seq<char>)
    requires
        table_wf(t),
        t.len() < u64::MAX,
    ensures
        table_wf(assign_table(t, p)),
        t.len() <= assign_table(t, p).len() <= t.len() + 1,
        forall|i: int| 0 <= i < t.len() ==> assign_table(t, p)[i] == t[i],
        table_has(assign_table(t, p), p),
{
    if !table_has(t, p) {
        let t1 = t.push(p);
        assert(t1[t.len() as int] == p);
        assert forall|i: int, j: int| 0 <= i < j < t1.len() implies t1[i] != t1[j] by {
            if j < t.len() {
            } else {
                assert(t1[j] == p);
                assert(t[i] != p);
            }
        };
    }
}

/// The engine's shared state: the backing root and the handle directory.
/// Every path the kernel has referenced is tracked here for the life of the
/// process; entries are created lazily on first reference and never evicted.
#[derive(Debug)]
pub struct MarkdownFs {
    paths: Vec<String>,
}

impl MarkdownFs {
    /// The abstract path table this directory represents.
    pub closed spec fn table(self) -> Seq<Seq<char>> {
        self.paths@.map_values(|s: String| s@)
    }

    /// The structure's invariant, established by `new` and preserved by every
    /// operation.
    pub open spec fn inv(self) -> bool {
        table_wf(self.table())
    }

    /// The backing root this mount mirrors: what handle `1` resolves to.
    pub open spec fn source(self) -> Seq<char> {
        self.table()[0]
    }

    /// Creates the directory for a mount of `source_directory`, with handle
    /// `1` pre-assigned to the backing root and nothing else tracked. The
    /// caller is responsible for only mounting a backing path that is a
    /// directory on the host.
    pub fn new(source_directory: String) -> (fs: Self)
        ensures
            fs.inv(),
            fs.table() == seq![source_directory@],
    {
        let ghost root: Seq<char> = source_directory@;
        let mut paths: Vec<String> = Vec::new();
        paths.push(source_directory);
        let fs = MarkdownFs { paths };
        proof {
            assert(fs.table() =~= seq![root]);
        }
        fs
    }

    /// How many backing paths are tracked (equivalently, the largest assigned
    /// handle). Callers test this against the handle space before operations
    /// that may allocate.
    pub fn tracked_paths(&self) -> (n: usize)
        ensures
            n == self.table().len(),
    {
        self.paths.len()
    }

    /// Reverse lookup, path to handle. Pure: never allocates a handle.
    pub fn ino(&self, backing_path: &String) -> (r: Option<u64>)
        requires
            self.inv(),
        ensures
            table_has(self.table(), backing_path@) ==> r == Some(handle_of(
                self.table(),
                backing_path@,
            )),
            !table_has(self.table(), backing_path@) ==> r is None,
    {
        let n = self.paths.len();
        let mut i: usize = 0;
        while i < n
            invariant
                self.inv(),
                n == self.paths.len(),
                i <= n,
                forall|j: int| 0 <= j < i ==> self.table()[j] != backing_path@,
            decreases n - i,
        {
            if self.paths[i] == *backing_path {
                proof {
                    lemma_path_index_is(self.table(), backing_path@, i as int);
                }
                return Some((i as u64) + 1);
            }
            i += 1;
        }
        None
    }

    /// Forward lookup, handle to path. Pure: never allocates a handle.
    pub fn backing_path(&self, ino: u64) -> (r: Option<&String>)
        requires
            self.inv(),
        ensures
            (match r {
                Some(p) => forward_of(self.table()).contains_pair(ino, p@),
                None => !forward_of(self.table()).dom().contains(ino),
            }),
    {
        if 1 <= ino && ino <= self.paths.len() as u64 {
            Some(&self.paths[(ino - 1) as usize])
        } else {
            None
        }
    }

    /// Obtains the handle for `backing_path`, allocating the next unused one
    /// on first reference. Idempotent: a known path gets its existing handle
    /// back and the directory is left unchanged.
    pub fn assign(&mut self, backing_path: &String) -> (h: u64)
        requires
            old(self).inv(),
            old(self).table().len() < u64::MAX,
        ensures
            final(self).inv(),
            h == assign_handle(old(self).table(), backing_path@),
            final(self).table() == assign_table(old(self).table(), backing_path@),
    {
        match self.ino(backing_path) {
            Some(h) => h,
            None => {
                let h = (self.paths.len() as u64) + 1;
                self.paths.push(backing_path.clone());
                proof {
                    assert(final(self).table() =~= old(self).table().push(backing_path@));
                    lemma_assign_wf(old(self).table(), backing_path@);
                }
                h
            },
        }
    }
}

/// LAW (handle stability). Repeated `assign` of one path returns the same
/// handle and leaves the directory unchanged after the first call, and the
/// assigned handle resolves back to the path in both directions.
pub proof fn lemma_handle_stability(t: Seq<Seq<char>>, p: Seq<char>)
    requires
        table_wf(t),
        t.len() < u64::MAX,
    ensures
        table_wf(assign_table(t, p)),
        assign_handle(assign_table(t, p), p) == assign_handle(t, p),
        assign_table(assign_table(t, p), p) == assign_table(t, p),
        reverse_of(assign_table(t, p)).contains_pair(p, assign_handle(t, p)),
        forward_of(assign_table(t, p)).contains_pair(assign_handle(t, p), p),
{
    lemma_assign_wf(t, p);
    let t1 = assign_table(t, p);
    let h = assign_handle(t, p);
    if table_has(t, p) {
        let i = path_index(t, p);
        assert(0 <= i < t.len() && t[i] == p);
    } else {
        lemma_path_index_is(t1, p, t.len() as int);
    }
}

/// LAW (handle stability, resolution round trip). Once a path has a handle,
/// resolving the handle that the reverse direction reports for it gives the
/// path back.
pub proof fn lemma_resolve_roundtrip(t: Seq<Seq<char>>, p: Seq<char>)
    requires
        table_wf(t),
        table_has(t, p),
    ensures
        forward_of(t).contains_pair(reverse_of(t)[p], p),
{
    let i = path_index(t, p);
    assert(0 <= i < t.len() && t[i] == p);
}

/// LAW (bijection). In a well-formed directory the forward and reverse maps
/// are exact inverses: a pair is present in one direction exactly when its
/// mirror image is present in the other.
pub proof fn lemma_bijection(t: Seq<Seq<char>>)
    requires
        table_wf(t),
    ensures
        forall|h: u64, p: Seq<char>|
            forward_of(t).contains_pair(h, p) <==> reverse_of(t).contains_pair(p, h),
{
    assert forall|h: u64, p: Seq<char>|
        forward_of(t).contains_pair(h, p) implies reverse_of(t).contains_pair(p, h) by {
        lemma_path_index_is(t, p, h as int - 1);
    };
    assert forall|h: u64, p: Seq<char>|
        reverse_of(t).contains_pair(p, h) implies forward_of(t).contains_pair(h, p) by {
        let i = path_index(t, p);
        assert(0 <= i < t.len() && t[i] == p);
    };
}

/// LAW (root handle fixed, at mount start). The freshly created directory is
/// well-formed and handle `1` already resolves to the backing root, with no
/// prior lookup.
pub proof fn lemma_root_fixed(source: Seq<char>)
    ensures
        table_wf(seq![source]),
        forward_of(seq![source]).contains_pair(1u64, source),
{
}

/// LAW (root handle fixed, preservation; handles never change meaning).
/// `assign` never disturbs an existing resolution: every handle that resolved
/// before resolves to the same path after, and in particular handle `1` keeps
/// resolving to the backing root.
pub proof fn lemma_assign_preserves_resolution(t: Seq<Seq<char>>, p: Seq<char>)
    requires
        table_wf(t),
        t.len() < u64::MAX,
    ensures
        table_wf(assign_table(t, p)),
        forall|h: u64|
            forward_of(t).dom().contains(h) ==> forward_of(assign_table(t, p)).contains_pair(
                h,
                forward_of(t)[h],
            ),
        forward_of(assign_table(t, p)).contains_pair(1u64, t[0]),
{
    lemma_assign_wf(t, p);
}

} // verus!
