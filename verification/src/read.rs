//! The read pipeline: the content-transform hook and the byte-window slice.
//!
//! A read conceptually applies the transform to the full backing content
//! first, then slices the requested window out of the transformed result.
//! Reading past end-of-file yields a shorter or empty result, never an error.
//! The surrounding program resolves the handle, reads the raw backing bytes,
//! and hands them in; the pipeline itself performs no I/O.

use vstd::prelude::*;

verus! {

/// The byte window `[offset, offset + len)` of `s`, clipped to `s`'s length:
/// empty when the offset is at or past the end, shortened when the window
/// runs over the end.
pub open spec fn window(s: Seq<u8>, offset: int, len: int) -> Seq<u8>
    recommends
        0 <= offset,
        0 <= len,
{
    if offset >= s.len() {
        Seq::empty()
    } else if offset + len <= s.len() {
        s.subrange(offset, offset + len)
    } else {
        s.subrange(offset, s.len() as int)
    }
}

/// The content-transform hook: a pure, deterministic function from the raw
/// backing bytes to the bytes the mount presents. Implementations say what
/// they compute with `model` and prove `apply` against it; they must not
/// themselves perform I/O against the mount.
pub trait ContentTransform {
    /// What the transform produces on given raw content.
    spec fn model(&self, input: Seq<u8>) -> Seq<u8>;

    /// Runs the transform.
    fn apply(&self, input: &Vec<u8>) -> (out: Vec<u8>)
        ensures
            out@ == self.model(input@),
    ;
}

/// The degenerate transform: pure passthrough.
#[derive(Debug, Clone, Copy, PartialEq, Eq, Structural)]
pub struct IdentityTransform;

impl ContentTransform for IdentityTransform {
    open spec fn model(&self, input: Seq<u8>) -> Seq<u8> {
        input
    }

    fn apply(&self, input: &Vec<u8>) -> (out: Vec<u8>) {
        let n = input.len();
        let mut out: Vec<u8> = Vec::new();
        let mut i: usize = 0;
        while i < n
            invariant
                n == input.len(),
                i <= n,
                out@ == input@.subrange(0, i as int),
            decreases n - i,
        {
            out.push(input[i]);
            proof {
                assert(out@ =~= input@.subrange(0, i + 1 as int));
            }
            i += 1;
        }
        proof {
            assert(out@ =~= input@);
        }
        out
    }
}

/// Slices the requested byte window out of already-transformed content.
pub fn read_window(content: &Vec<u8>, offset: u64, size: u32) -> (out: Vec<u8>)
    ensures
        out@ == window(content@, offset as int, size as int),
{
    let n = content.len();
    if offset >= n as u64 {
        let out: Vec<u8> = Vec::new();
        proof {
            assert(out@ =~= window(content@, offset as int, size as int));
        }
        return out;
    }
    let start = offset as usize;
    let remaining = n - start;
    let take: usize = if (size as usize) < remaining {
        size as usize
    } else {
        remaining
    };
    let mut out: Vec<u8> = Vec::new();
    let mut i: usize = 0;
    while i < take
        invariant
            n == content.len(),
            start < n,
            start + take <= n,
            i <= take,
            out@ == content@.subrange(start as int, start + i as int),
        decreases take - i,
    {
        out.push(content[start + i]);
        proof {
            assert(out@ =~= content@.subrange(start as int, start + (i + 1) as int));
        }
        i += 1;
    }
    proof {
        assert(out@ =~= window(content@, offset as int, size as int));
    }
    out
}

/// One full read through the pipeline: transform the raw backing content,
/// then slice the requested window from the transformed result.
pub fn read_transformed<T: ContentTransform>(
    transform: &T,
    content: &Vec<u8>,
    offset: u64,
    size: u32,
) -> (out: Vec<u8>)
    ensures
        out@ == window(transform.model(content@), offset as int, size as int),
{
    let transformed = transform.apply(content);
    read_window(&transformed, offset, size)
}

/// LAW (read passthrough identity). Under the identity transform a read
/// returns exactly the bytes `[offset, offset + len)` of the raw backing
/// content, clipped to its length: never an error, empty at or past
/// end-of-file, and every returned byte is the backing byte at the
/// corresponding position.
pub proof fn lemma_identity_passthrough(t: IdentityTransform, content: Seq<u8>, offset: int, len: int)
    requires
        0 <= offset,
        0 <= len,
    ensures
        window(t.model(content), offset, len) == window(content, offset, len),
        offset >= content.len() ==> window(content, offset, len) == Seq::<u8>::empty(),
        window(content, offset, len).len() <= len,
        forall|k: int|
            0 <= k < window(content, offset, len).len() ==> window(content, offset, len)[k]
                == content[offset + k],
{
}

} // verus!
