//! The request dispatcher: the protocol-facing steps of the four operations —
//! lookup, get-attributes, read, list-directory. Each operation resolves the
//! handles involved through the handle directory, performs its work, and maps
//! internal failures to protocol errors; every error is terminal for the one
//! operation that raised it.
//!
//! The surrounding program drives each operation: it calls the resolution
//! step, performs the host I/O the operation needs (stat, file read,
//! directory read), and hands the result back to the reply step here.

use vstd::prelude::*;

use crate::attributes::{classify, hoist_attributes, translated_record, AttributeRecord,
    HostStat};
use crate::errors::{protocol_error_of, FsError, ProtocolError};
use crate::handles::{assign_handle, assign_table, compose, compose_path, forward_of, MarkdownFs};
use crate::read::{read_transformed, window, ContentTransform};

verus! {

/// The client-side attribute-cache time-to-live hint carried in every reply,
/// fixed at one second. The protocol mandates the field; this engine owns no
/// further semantics for it.
pub const REPLY_TTL_SECONDS: u64 = 1;

impl MarkdownFs {
    /// The handle-directory half of a lookup request: resolves the parent
    /// handle, composes the child's backing path, and obtains the child's
    /// handle, allocating one on first reference. Fails exactly when the
    /// parent handle is unresolved, leaving the directory untouched. The
    /// caller stats the returned path and finishes with [`attribute_reply`].
    pub fn lookup_path(&mut self, parent: u64, name: &String) -> (r: Result<
        (u64, String),
        FsError,
    >)
        requires
            old(self).inv(),
            old(self).table().len() < u64::MAX,
        ensures
            final(self).inv(),
            !forward_of(old(self).table()).dom().contains(parent) ==> r == Err::<
                (u64, String),
                FsError,
            >(FsError::NotFound) && final(self).table() == old(self).table(),
            forward_of(old(self).table()).dom().contains(parent) ==> ({
                let full = compose_path(forward_of(old(self).table())[parent], name@);
                &&& final(self).table() == assign_table(old(self).table(), full)
                &&& match r {
                    Ok(pair) => pair.0 == assign_handle(old(self).table(), full) && pair.1@
                        == full,
                    Err(_) => false,
                }
            }),
    {
        let parent_path = match self.backing_path(parent) {
            Some(p) => p.clone(),
            None => {
                return Err(FsError::NotFound);
            },
        };
        let full_path = compose(&parent_path, name);
        let h = self.assign(&full_path);
        Ok((h, full_path))
    }
}

/// Finishes a lookup or get-attributes request once the host stat result for
/// the backing path is in hand. A backing path that does not exist resolves
/// to no entry; any other stat failure is an I/O failure; an entry of an
/// unsupported kind is invisible, replied as "no such entry"; otherwise the
/// reply carries the translated attribute record for handle `ino`.
pub fn attribute_reply(ino: u64, stat: &HostStat) -> (r: Result<AttributeRecord, ProtocolError>)
    ensures
        (match *stat {
            HostStat::Missing => r == Err::<AttributeRecord, ProtocolError>(
                ProtocolError::NoSuchEntry,
            ),
            HostStat::Failed => r == Err::<AttributeRecord, ProtocolError>(
                ProtocolError::IoFailure,
            ),
            HostStat::Found(meta) => match classify(meta.kind) {
                Some(kind) => r == Ok::<AttributeRecord, ProtocolError>(
                    translated_record(ino, meta, kind),
                ),
                None => r == Err::<AttributeRecord, ProtocolError>(ProtocolError::NoSuchEntry),
            },
        }),
{
    match stat {
        HostStat::Missing => Err(protocol_error_of(FsError::NotFound)),
        HostStat::Failed => Err(protocol_error_of(FsError::IoError)),
        HostStat::Found(meta) => match hoist_attributes(ino, meta) {
            Ok(record) => Ok(record),
            Err(e) => Err(protocol_error_of(e)),
        },
    }
}

/// Finishes a read request once the handle has been resolved and the host has
/// delivered the raw backing bytes (`None`: the backing file could not be
/// read). On success the reply is the requested window of the transformed
/// content — shorter or empty past end-of-file, never an error.
pub fn read_reply<T: ContentTransform>(
    transform: &T,
    content: &Option<Vec<u8>>,
    offset: u64,
    size: u32,
) -> (r: Result<Vec<u8>, ProtocolError>)
    ensures
        (match *content {
            Option::None => r == Err::<Vec<u8>, ProtocolError>(ProtocolError::IoFailure),
            Option::Some(raw) => match r {
                Ok(out) => out@ == window(transform.model(raw@), offset as int, size as int),
                Err(_) => false,
            },
        }),
{
    match content {
        None => Err(ProtocolError::IoFailure),
        Some(raw) => Ok(read_transformed(transform, raw, offset, size)),
    }
}

} // verus!
