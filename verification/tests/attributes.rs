//! Attribute translation: the type decision, verbatim field copying, and the
//! error replies for missing, unreadable, and unsupported backing entries.

use markdownfs::attributes::{
    hoist_attributes, AttributeRecord, EntryKind, HostEntryKind, HostMetadata, HostStat,
};
use markdownfs::dispatch::attribute_reply;
use markdownfs::errors::{protocol_error_of, FsError, ProtocolError};

fn sample_metadata(kind: HostEntryKind) -> HostMetadata {
    HostMetadata {
        kind,
        size: 2,
        blocks: 8,
        atime_sec: 1_700_000_001,
        mtime_sec: 1_700_000_002,
        ctime_sec: 1_700_000_003,
        perm: 0o644,
        nlink: 1,
        uid: 1000,
        gid: 100,
        rdev: 0,
    }
}

#[test]
fn directory_is_reported_as_directory() {
    let record = hoist_attributes(1, &sample_metadata(HostEntryKind::Directory)).unwrap();
    assert_eq!(record.kind, EntryKind::Directory);
}

#[test]
fn regular_file_is_reported_as_regular_file() {
    let record = hoist_attributes(7, &sample_metadata(HostEntryKind::RegularFile)).unwrap();
    assert_eq!(record.kind, EntryKind::RegularFile);
}

#[test]
fn other_entry_kinds_are_a_translation_error() {
    let r = hoist_attributes(7, &sample_metadata(HostEntryKind::Other));
    assert_eq!(r, Err(FsError::UnsupportedEntryKind));
}

#[test]
fn fields_are_copied_verbatim_and_creation_time_is_epoch() {
    let meta = sample_metadata(HostEntryKind::RegularFile);
    let record = hoist_attributes(9, &meta).unwrap();
    let expected = AttributeRecord {
        ino: 9,
        size: 2,
        blocks: 8,
        atime_sec: 1_700_000_001,
        mtime_sec: 1_700_000_002,
        ctime_sec: 1_700_000_003,
        crtime_sec: 0,
        kind: EntryKind::RegularFile,
        perm: 0o644,
        nlink: 1,
        uid: 1000,
        gid: 100,
        rdev: 0,
    };
    assert_eq!(record, expected);
}

#[test]
fn attribute_reply_carries_the_translated_record() {
    let meta = sample_metadata(HostEntryKind::Directory);
    let r = attribute_reply(3, &HostStat::Found(meta));
    let record = r.unwrap();
    assert_eq!(record.ino, 3);
    assert_eq!(record.kind, EntryKind::Directory);
    assert_eq!(record.crtime_sec, 0);
}

#[test]
fn missing_backing_path_is_no_such_entry() {
    assert_eq!(attribute_reply(3, &HostStat::Missing), Err(ProtocolError::NoSuchEntry));
}

#[test]
fn failed_stat_is_an_io_failure() {
    assert_eq!(attribute_reply(3, &HostStat::Failed), Err(ProtocolError::IoFailure));
}

#[test]
fn unsupported_entry_is_invisible_to_the_mount() {
    let meta = sample_metadata(HostEntryKind::Other);
    assert_eq!(
        attribute_reply(3, &HostStat::Found(meta)),
        Err(ProtocolError::NoSuchEntry)
    );
}

#[test]
fn every_error_maps_to_its_protocol_code() {
    assert_eq!(protocol_error_of(FsError::NotFound), ProtocolError::NoSuchEntry);
    assert_eq!(
        protocol_error_of(FsError::UnsupportedEntryKind),
        ProtocolError::NoSuchEntry
    );
    assert_eq!(protocol_error_of(FsError::IoError), ProtocolError::IoFailure);
}
