//! The attribute translator: turns host filesystem metadata for a backing
//! path into the protocol's attribute record, deciding between "regular file"
//! and "directory" and refusing every other entry kind.
//!
//! The host stat itself is performed by the surrounding program, which hands
//! the result in as a plain [`HostMetadata`] value; records are computed
//! fresh on every request and never cached.

use vstd::prelude::*;

use crate::errors::FsError;

verus! {

/// The entry kinds the protocol reply can carry. Anything else on the backing
/// filesystem is invisible to the mount.
#[derive(Debug, Clone, Copy, PartialEq, Eq, Structural)]
pub enum EntryKind {
    RegularFile,
    Directory,
}

/// What the backing entry is on the host: a directory, a regular file, or
/// anything else (symlink, device, socket, ...).
#[derive(Debug, Clone, Copy, PartialEq, Eq, Structural)]
pub enum HostEntryKind {
    RegularFile,
    Directory,
    Other,
}

/// Host filesystem metadata for one backing entry, as plain values: the
/// POSIX-like fields that feed the protocol's attribute record. Timestamps
/// are whole seconds since the epoch; the host supplies no sub-second part
/// here.
#[derive(Debug, Clone, Copy, PartialEq, Eq, Structural)]
pub struct HostMetadata {
    pub kind: HostEntryKind,
    pub size: u64,
    pub blocks: u64,
    pub atime_sec: i64,
    pub mtime_sec: i64,
    pub ctime_sec: i64,
    pub perm: u16,
    pub nlink: u32,
    pub uid: u32,
    pub gid: u32,
    pub rdev: u32,
}

/// The protocol's attribute record, derived afresh from host metadata on
/// every request. The creation timestamp is not available from the host and
/// is always reported as the epoch.
#[derive(Debug, Clone, Copy, PartialEq, Eq, Structural)]
pub struct AttributeRecord {
    pub ino: u64,
    pub size: u64,
    pub blocks: u64,
    pub atime_sec: i64,
    pub mtime_sec: i64,
    pub ctime_sec: i64,
    pub crtime_sec: i64,
    pub kind: EntryKind,
    pub perm: u16,
    pub nlink: u32,
    pub uid: u32,
    pub gid: u32,
    pub rdev: u32,
}

/// The host's answer to a stat of a backing path, as the surrounding program
/// reports it in.
#[derive(Debug, Clone, Copy, PartialEq, Eq, Structural)]
pub enum HostStat {
    /// The path exists; its metadata.
    Found(HostMetadata),
    /// The path does not exist on the backing filesystem.
    Missing,
    /// The stat failed in some other way (permissions, transient I/O, ...).
    Failed,
}

/// The type decision: a backing directory is reported as a directory, a
/// backing regular file as a regular file, and every other kind is not
/// modelled at all.
pub open spec fn classify(kind: HostEntryKind) -> Option<EntryKind> {
    match kind {
        HostEntryKind::Directory => Some(EntryKind::Directory),
        HostEntryKind::RegularFile => Some(EntryKind::RegularFile),
        HostEntryKind::Other => None,
    }
}

/// The record that translation produces: every field copied verbatim from the
/// host metadata, except the kind (the classification above) and the creation
/// time (always zero).
pub open spec fn translated_record(ino: u64, meta: HostMetadata, kind: EntryKind) -> AttributeRecord {
    AttributeRecord {
        ino: ino,
        size: meta.size,
        blocks: meta.blocks,
        atime_sec: meta.atime_sec,
        mtime_sec: meta.mtime_sec,
        ctime_sec: meta.ctime_sec,
        crtime_sec: 0,
        kind: kind,
        perm: meta.perm,
        nlink: meta.nlink,
        uid: meta.uid,
        gid: meta.gid,
        rdev: meta.rdev,
    }
}

/// Runs the type decision on a host entry kind.
pub fn classify_entry(kind: HostEntryKind) -> (r: Option<EntryKind>)
    ensures
        r == classify(kind),
{
    match kind {
        HostEntryKind::Directory => Some(EntryKind::Directory),
        HostEntryKind::RegularFile => Some(EntryKind::RegularFile),
        HostEntryKind::Other => None,
    }
}

/// Translates host metadata into the attribute record reported for handle
/// `ino`, failing exactly on entry kinds the mount does not model. (A backing
/// path that could not be statted at all never reaches this function; the
/// dispatcher reports that as an I/O failure.)
pub fn hoist_attributes(ino: u64, meta: &HostMetadata) -> (r: Result<AttributeRecord, FsError>)
    ensures
        (match classify(meta.kind) {
            Some(kind) => r == Ok::<AttributeRecord, FsError>(translated_record(ino, *meta, kind)),
            None => r == Err::<AttributeRecord, FsError>(FsError::UnsupportedEntryKind),
        }),
{
    let kind = match meta.kind {
        HostEntryKind::Directory => EntryKind::Directory,
        HostEntryKind::RegularFile => EntryKind::RegularFile,
        HostEntryKind::Other => {
            return Err(FsError::UnsupportedEntryKind);
        },
    };
    Ok(
        AttributeRecord {
            ino: ino,
            size: meta.size,
            blocks: meta.blocks,
            atime_sec: meta.atime_sec,
            mtime_sec: meta.mtime_sec,
            ctime_sec: meta.ctime_sec,
            crtime_sec: 0,
            kind: kind,
            perm: meta.perm,
            nlink: meta.nlink,
            uid: meta.uid,
            gid: meta.gid,
            rdev: meta.rdev,
        },
    )
}

} // verus!
