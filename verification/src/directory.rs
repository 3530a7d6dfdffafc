//! The directory enumerator: produces the ordered listing for a directory
//! handle — the two synthetic entries `.` and `..` followed by the backing
//! children in host listing order — assigning or reusing child handles
//! through the handle directory as it goes.
//!
//! The host's directory read is performed by the surrounding program, which
//! hands the children in as plain (name, kind) values in host order; no
//! re-sorting happens here, and backing entries of unsupported kinds never
//! appear in a listing.

use vstd::prelude::*;

use crate::attributes::{classify, classify_entry, EntryKind, HostEntryKind};
use crate::errors::FsError;
use crate::handles::{
    assign_handle, assign_table, compose, compose_path, forward_of, lemma_assign_wf,
    lemma_handle_stability, table_wf, MarkdownFs,
};

verus! {

/// One backing child as the host's directory listing reports it: its name
/// and what kind of entry it is on the host.
#[derive(Debug, Clone)]
pub struct DirectoryChild {
    pub name: String,
    pub kind: HostEntryKind,
}

/// One entry of a listing reply: (handle, sequence position, kind, name).
/// Transient: produced while answering one request and then discarded.
#[derive(Debug, Clone)]
pub struct DirectoryEntry {
    pub handle: u64,
    pub position: u64,
    pub kind: EntryKind,
    pub name: String,
}

/// A child as the enumeration model sees it.
pub open spec fn child_model(c: DirectoryChild) -> (Seq<char>, HostEntryKind) {
    (c.name@, c.kind)
}

pub open spec fn children_model(cs: Seq<DirectoryChild>) -> Seq<(Seq<char>, HostEntryKind)> {
    cs.map_values(|c: DirectoryChild| child_model(c))
}

/// A produced entry as the enumeration model sees it: handle, kind and name.
/// (The sequence position is the entry's index in the full listing.)
pub open spec fn entry_model(e: DirectoryEntry) -> (u64, EntryKind, Seq<char>) {
    (e.handle, e.kind, e.name@)
}

/// The emitted-children part of a listing, as the model sees it.
pub open spec fn entries_model(es: Seq<DirectoryEntry>) -> Seq<(u64, EntryKind, Seq<char>)> {
    es.map_values(|e: DirectoryEntry| entry_model(e))
}

/// What enumerating the children of the directory at `dir` does, child by
/// child in host order: an unsupported child is skipped; any other child has
/// its backing path assigned a handle (new or reused) and is emitted with its
/// classified kind. Yields the final path table and the emitted children.
pub open spec fn enumerate(
    t: Seq<Seq<char>>,
    dir: Seq<char>,
    cs: Seq<(Seq<char>, HostEntryKind)>,
) -> (Seq<Seq<char>>, Seq<(u64, EntryKind, Seq<char>)>)
    decreases cs.len(),
{
    if cs.len() == 0 {
        (t, Seq::empty())
    } else {
        let name = cs[0].0;
        let rest = cs.drop_first();
        match classify(cs[0].1) {
            Option::None => enumerate(t, dir, rest),
            Option::Some(kind) => {
                let p = compose_path(dir, name);
                let h = assign_handle(t, p);
                let r = enumerate(assign_table(t, p), dir, rest);
                (r.0, seq![(h, kind, name)] + r.1)
            },
        }
    }
}

/// The names of the children that a listing shows, in host order: every
/// regular file or directory, nothing else.
pub open spec fn supported_names(cs: Seq<(Seq<char>, HostEntryKind)>) -> Seq<Seq<char>>
    decreases cs.len(),
{
    if cs.len() == 0 {
        Seq::empty()
    } else if classify(cs[0].1) is Some {
        seq![cs[0].0] + supported_names(cs.drop_first())
    } else {
        supported_names(cs.drop_first())
    }
}

/// LAW (enumeration completeness). Enumeration emits exactly the supported
/// children, in host order, with no duplicates and no omissions; it keeps the
/// path table well-formed and never disturbs an existing handle; and every
/// emitted child handle resolves, in the table the enumeration leaves behind,
/// to that child's backing path — so each one can be used for a later
/// get-attributes request.
pub proof fn lemma_enumeration_complete(
    t: Seq<Seq<char>>,
    dir: Seq<char>,
    cs: Seq<(Seq<char>, HostEntryKind)>,
)
    requires
        table_wf(t),
        t.len() + cs.len() <= u64::MAX,
    ensures
        ({
            let (t2, es) = enumerate(t, dir, cs);
            &&& table_wf(t2)
            &&& t.len() <= t2.len() <= t.len() + cs.len()
            &&& forall|i: int| 0 <= i < t.len() ==> t2[i] == t[i]
            &&& es.map_values(|e: (u64, EntryKind, Seq<char>)| e.2) == supported_names(cs)
            &&& forall|k: int|
                0 <= k < es.len() ==> forward_of(t2).contains_pair(
                    es[k].0,
                    compose_path(dir, es[k].2),
                )
        }),
    decreases cs.len(),
{
    let (t2, es) = enumerate(t, dir, cs);
    let names = |e: (u64, EntryKind, Seq<char>)| e.2;
    if cs.len() == 0 {
        assert(es.map_values(names) =~= supported_names(cs));
    } else {
        let rest = cs.drop_first();
        match classify(cs[0].1) {
            Option::None => {
                lemma_enumeration_complete(t, dir, rest);
            },
            Option::Some(kind) => {
                let p = compose_path(dir, cs[0].0);
                let h = assign_handle(t, p);
                let t1 = assign_table(t, p);
                lemma_assign_wf(t, p);
                lemma_handle_stability(t, p);
                lemma_enumeration_complete(t1, dir, rest);
                let (t2r, es_rest) = enumerate(t1, dir, rest);
                assert(es == seq![(h, kind, cs[0].0)] + es_rest);
                assert(es.map_values(names) =~= seq![cs[0].0] + es_rest.map_values(names));
                // the pair assigned for this child persists into the final table
                assert(forward_of(t2).contains_pair(h, p)) by {
                    assert(forward_of(t1).contains_pair(h, p));
                    assert(t2[h as int - 1] == t1[h as int - 1]);
                }
                assert forall|k: int| 0 <= k < es.len() implies forward_of(t2).contains_pair(
                    es[k].0,
                    compose_path(dir, es[k].2),
                ) by {
                    if k > 0 {
                        assert(es[k] == es_rest[k - 1]);
                    }
                };
            },
        }
    }
}

/// When every child is a regular file or a directory, the listing's child
/// names are exactly the host's names, in host order.
pub proof fn lemma_supported_names_all(cs: Seq<(Seq<char>, HostEntryKind)>)
    requires
        forall|i: int| 0 <= i < cs.len() ==> classify(#[trigger] cs[i].1) is Some,
    ensures
        supported_names(cs) == cs.map_values(|c: (Seq<char>, HostEntryKind)| c.0),
    decreases cs.len(),
{
    let names = |c: (Seq<char>, HostEntryKind)| c.0;
    if cs.len() == 0 {
        assert(supported_names(cs) =~= cs.map_values(names));
    } else {
        lemma_supported_names_all(cs.drop_first());
        assert(supported_names(cs) =~= cs.map_values(names));
    }
}

impl MarkdownFs {
    /// Answers a list-directory request for the directory at handle `ino`,
    /// whose backing children the host listed as `children`, in host order.
    /// Fails exactly when the handle is unresolved, leaving the directory
    /// untouched. Otherwise the reply holds `.` and `..` at positions 0 and 1
    /// (both carrying the listed directory's own handle: the listing tracks
    /// no parent, and for the root the two coincide), followed by the
    /// supported children with assigned-or-reused handles, each entry's
    /// position being its index. The enumerator assumes the dispatcher only
    /// invokes it on directory handles.
    pub fn readdir_entries(&mut self, ino: u64, children: &Vec<DirectoryChild>) -> (r: Result<
        Vec<DirectoryEntry>,
        FsError,
    >)
        requires
            old(self).inv(),
            old(self).table().len() + children@.len() + 2 <= u64::MAX,
        ensures
            final(self).inv(),
            !forward_of(old(self).table()).dom().contains(ino) ==> r == Err::<
                Vec<DirectoryEntry>,
                FsError,
            >(FsError::NotFound) && final(self).table() == old(self).table(),
            forward_of(old(self).table()).dom().contains(ino) ==> ({
                let dir = forward_of(old(self).table())[ino];
                let (t2, emitted) = enumerate(
                    old(self).table(),
                    dir,
                    children_model(children@),
                );
                &&& final(self).table() == t2
                &&& match r {
                    Ok(es) => {
                        &&& es@.len() == 2 + emitted.len()
                        &&& es@[0].handle == ino && es@[0].position == 0 && es@[0].kind
                            == EntryKind::Directory && es@[0].name@ == "."@
                        &&& es@[1].handle == ino && es@[1].position == 1 && es@[1].kind
                            == EntryKind::Directory && es@[1].name@ == ".."@
                        &&& forall|k: int|
                            0 <= k < emitted.len() ==> #[trigger] es@[k + 2].handle == emitted[k].0
                                && es@[k + 2].kind == emitted[k].1 && es@[k + 2].name@
                                == emitted[k].2 && es@[k + 2].position == k + 2
                    },
                    Err(_) => false,
                }
            }),
    {
        let dir_owned: String = match self.backing_path(ino) {
            Some(p) => p.clone(),
            None => {
                return Err(FsError::NotFound);
            },
        };
        let ghost t0 = self.table();
        let ghost dirg = dir_owned@;
        let ghost cm = children_model(children@);

        let mut entries: Vec<DirectoryEntry> = Vec::new();
        entries.push(
            DirectoryEntry {
                handle: ino,
                position: 0,
                kind: EntryKind::Directory,
                name: ".".to_owned(),
            },
        );
        entries.push(
            DirectoryEntry {
                handle: ino,
                position: 1,
                kind: EntryKind::Directory,
                name: "..".to_owned(),
            },
        );

        let n = children.len();
        let mut i: usize = 0;
        proof {
            assert(cm.skip(0) =~= cm);
            assert(entries_model(entries@.skip(2)) =~= Seq::<(u64, EntryKind, Seq<char>)>::empty());
        }
        while i < n
            invariant
                n == children@.len(),
                i <= n,
                self.inv(),
                cm == children_model(children@),
                dirg == dir_owned@,
                table_wf(t0),
                t0.len() + n + 2 <= u64::MAX,
                self.table().len() <= t0.len() + i,
                2 <= entries@.len() <= 2 + i,
                entries@[0].handle == ino && entries@[0].position == 0 && entries@[0].kind
                    == EntryKind::Directory && entries@[0].name@ == "."@,
                entries@[1].handle == ino && entries@[1].position == 1 && entries@[1].kind
                    == EntryKind::Directory && entries@[1].name@ == ".."@,
                forall|k: int| 2 <= k < entries@.len() ==> #[trigger] entries@[k].position == k,
                ({
                    let full = enumerate(t0, dirg, cm);
                    let cont = enumerate(self.table(), dirg, cm.skip(i as int));
                    &&& full.0 == cont.0
                    &&& full.1 == entries_model(entries@.skip(2)) + cont.1
                }),
            decreases n - i,
        {
            let child = &children[i];
            proof {
                assert(cm.skip(i as int).drop_first() =~= cm.skip(i as int + 1));
                assert(cm.skip(i as int)[0] == cm[i as int]);
            }
            match classify_entry(child.kind) {
                None => {},
                Some(kind) => {
                    let full_path = compose(&dir_owned, &child.name);
                    let ghost pre = self.table();
                    let ghost emitted_pre = entries_model(entries@.skip(2));
                    let h = self.assign(&full_path);
                    let pos = entries.len() as u64;
                    let name = child.name.clone();
                    entries.push(DirectoryEntry { handle: h, position: pos, kind, name });
                    proof {
                        let x = (h, kind, child.name@);
                        assert(entries_model(entries@.skip(2)) =~= emitted_pre.push(x));
                        let cont_next = enumerate(self.table(), dirg, cm.skip(i as int + 1));
                        assert(enumerate(pre, dirg, cm.skip(i as int)).1 =~= seq![x]
                            + cont_next.1);
                        assert(enumerate(t0, dirg, cm).1 =~= entries_model(entries@.skip(2))
                            + cont_next.1);
                    }
                },
            }
            i += 1;
        }
        proof {
            assert(cm.skip(n as int) =~= Seq::<(Seq<char>, HostEntryKind)>::empty());
            let (t2, emitted) = enumerate(t0, dirg, cm);
            assert(emitted =~= entries_model(entries@.skip(2)));
            assert forall|k: int| 0 <= k < emitted.len() implies #[trigger] entries@[k + 2].handle
                == emitted[k].0 && entries@[k + 2].kind == emitted[k].1 && entries@[k + 2].name@
                == emitted[k].2 && entries@[k + 2].position == k + 2 by {
                assert(entries_model(entries@.skip(2))[k] == entry_model(entries@.skip(2)[k]));
                assert(entries@.skip(2)[k] == entries@[k + 2]);
            };
        }
        Ok(entries)
    }
}

} // verus!
