//! A whole mount session against a two-entry backing root, driven the way the
//! protocol runtime would drive the dispatcher: the host I/O results are the
//! ones the backing tree below would produce.
//!
//! Backing root: `note.md` (content "hi", size 2) and subdirectory `drafts/`.

use markdownfs::attributes::{EntryKind, HostEntryKind, HostMetadata, HostStat};
use markdownfs::dispatch::{attribute_reply, read_reply, REPLY_TTL_SECONDS};
use markdownfs::directory::DirectoryChild;
use markdownfs::errors::{FsError, ProtocolError};
use markdownfs::handles::MarkdownFs;
use markdownfs::read::IdentityTransform;

fn file_metadata(size: u64) -> HostMetadata {
    HostMetadata {
        kind: HostEntryKind::RegularFile,
        size,
        blocks: 8,
        atime_sec: 100,
        mtime_sec: 200,
        ctime_sec: 300,
        perm: 0o644,
        nlink: 1,
        uid: 1000,
        gid: 100,
        rdev: 0,
    }
}

#[test]
fn mount_list_lookup_read_and_miss() {
    let mut fs = MarkdownFs::new("/srv/notes".to_owned());

    // (1) ListDirectory(1): the host lists note.md then drafts
    let children = vec![
        DirectoryChild { name: "note.md".to_owned(), kind: HostEntryKind::RegularFile },
        DirectoryChild { name: "drafts".to_owned(), kind: HostEntryKind::Directory },
    ];
    let entries = fs.readdir_entries(1, &children).unwrap();
    let listed: Vec<&str> = entries.iter().map(|e| e.name.as_str()).collect();
    assert_eq!(listed, vec![".", "..", "note.md", "drafts"]);

    // (2) Lookup(1, "note.md"): a regular file of size 2
    let (h, path) = fs.lookup_path(1, &"note.md".to_owned()).unwrap();
    assert_eq!(path, "/srv/notes/note.md");
    // the handle the lookup hands out is the one the listing already assigned
    assert_eq!(h, entries[2].handle);
    let record = attribute_reply(h, &HostStat::Found(file_metadata(2))).unwrap();
    assert_eq!(record.ino, h);
    assert_eq!(record.kind, EntryKind::RegularFile);
    assert_eq!(record.size, 2);

    // (3) Read(h, 0, 10) with the identity transform: "hi", not an error
    let raw = fs.backing_path(h).map(|_| b"hi".to_vec());
    let data = read_reply(&IdentityTransform, &raw, 0, 10).unwrap();
    assert_eq!(data, b"hi".to_vec());

    // (4) Lookup(1, "missing.md"): the backing path does not exist
    let (miss, miss_path) = fs.lookup_path(1, &"missing.md".to_owned()).unwrap();
    assert_eq!(miss_path, "/srv/notes/missing.md");
    assert_eq!(attribute_reply(miss, &HostStat::Missing), Err(ProtocolError::NoSuchEntry));

    // a lookup under an unknown parent handle is refused outright
    assert!(matches!(
        fs.lookup_path(77, &"note.md".to_owned()),
        Err(FsError::NotFound)
    ));

    // the protocol's fixed reply time-to-live hint
    assert_eq!(REPLY_TTL_SECONDS, 1);
}
