//! The read pipeline: window slicing, end-of-file clipping, and the transform
//! hook.

use markdownfs::dispatch::read_reply;
use markdownfs::errors::ProtocolError;
use markdownfs::read::{read_transformed, read_window, ContentTransform, IdentityTransform};
use vstd::seq::Seq;

#[test]
fn identity_read_returns_the_exact_window() {
    let content: Vec<u8> = b"abcdefgh".to_vec();
    assert_eq!(read_transformed(&IdentityTransform, &content, 0, 8), b"abcdefgh".to_vec());
    assert_eq!(read_transformed(&IdentityTransform, &content, 2, 3), b"cde".to_vec());
    assert_eq!(read_transformed(&IdentityTransform, &content, 7, 1), b"h".to_vec());
}

#[test]
fn reading_past_end_of_file_clips_and_never_errors() {
    let content: Vec<u8> = b"hi".to_vec();
    assert_eq!(read_transformed(&IdentityTransform, &content, 0, 10), b"hi".to_vec());
    assert_eq!(read_transformed(&IdentityTransform, &content, 1, 10), b"i".to_vec());
    assert_eq!(read_transformed(&IdentityTransform, &content, 2, 10), Vec::<u8>::new());
    assert_eq!(read_transformed(&IdentityTransform, &content, 99, 10), Vec::<u8>::new());
}

#[test]
fn zero_length_read_is_empty() {
    let content: Vec<u8> = b"hi".to_vec();
    assert_eq!(read_transformed(&IdentityTransform, &content, 0, 0), Vec::<u8>::new());
}

#[test]
fn window_of_empty_content_is_empty() {
    let content: Vec<u8> = Vec::new();
    assert_eq!(read_window(&content, 0, 4), Vec::<u8>::new());
}

/// A transform that is not the identity, to show the window is taken from the
/// transformed output rather than the raw bytes.
struct Doubler;

impl ContentTransform for Doubler {
    // ghost description; erased and never run, so any body satisfies rustc
    fn model(&self, input: Seq<u8>) -> Seq<u8> {
        input
    }

    fn apply(&self, input: &Vec<u8>) -> Vec<u8> {
        let mut out = Vec::new();
        for b in input {
            out.push(*b);
            out.push(*b);
        }
        out
    }
}

#[test]
fn window_is_sliced_from_the_transformed_output() {
    let content: Vec<u8> = b"abc".to_vec();
    assert_eq!(read_transformed(&Doubler, &content, 0, 6), b"aabbcc".to_vec());
    assert_eq!(read_transformed(&Doubler, &content, 1, 3), b"abb".to_vec());
    // raw content is 3 bytes, but the transformed output has 6
    assert_eq!(read_transformed(&Doubler, &content, 4, 10), b"cc".to_vec());
}

#[test]
fn read_reply_wraps_the_window_and_maps_a_failed_read() {
    let content: Vec<u8> = b"hi".to_vec();
    assert_eq!(read_reply(&IdentityTransform, &Some(content), 0, 10), Ok(b"hi".to_vec()));
    assert_eq!(read_reply(&IdentityTransform, &None, 0, 10), Err(ProtocolError::IoFailure));
}
