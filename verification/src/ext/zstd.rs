//! zstd: the contexts and the one-shot calls of `zstd_safe`.

use vstd::prelude::*;

use zstd_safe::{CCtx, CParameter, DCtx};

verus! {

/// A compression context.
#[verifier::external_type_specification]
#[verifier::external_body]
pub struct ExCCtx<'a>(CCtx<'a>);

/// A decompression context.
#[verifier::external_type_specification]
#[verifier::external_body]
pub struct ExDCtx<'a>(DCtx<'a>);

/// The compression level that was last asked for of a context that is as it was created but for
/// that level (3 is what zstd starts with); nothing for any other context, such as one that has
/// compressed before.
pub uninterp spec fn fresh_level(cctx: CCtx<'static>) -> Option<int>;

/// The frame that `CCtx::compress2` makes of `input` in a context that is as it was created but for
/// the compression level, which is `level`, where the output buffer is no shorter than
/// `compress_bound(input.len())`.
pub uninterp spec fn zstd_compressed(level: int, input: Seq<u8>) -> Seq<u8>;

/// The runs of `CCtx::compress2` in a context, oldest first: the level, the input, and the frame
/// that came of it, or nothing where zstd failed.
pub uninterp spec fn compressions(cctx: CCtx<'static>) -> Seq<(int, Seq<u8>, Option<Seq<u8>>)>;

/// Whether a decompression context is as it was created: it has no dictionary and no parameters of
/// its own.
pub uninterp spec fn as_created(dctx: DCtx<'static>) -> bool;

/// What `DCtx::decompress` makes of `frames` in a context that is as it was created, where the
/// output buffer is long enough; nothing where they are not zstd frames, or need a dictionary.
pub uninterp spec fn zstd_content(frames: Seq<u8>) -> Option<Seq<u8>>;

/// The longest frame that zstd makes of `len` bytes in one pass.
pub open spec fn compress_bound_of(len: nat) -> nat {
    len + len / 256 + if len < 131072 {
        ((131072 - len) / 2048) as nat
    } else {
        0nat
    }
}

/// `zstd_safe::compress_bound`: zstd's formula for the longest frame. The lengths for which zstd
/// has no bound are left out.
#[verifier::external_body]
pub(crate) fn compress_bound(src_size: usize) -> (bound: usize)
    requires
        compress_bound_of(src_size as nat) <= isize::MAX,
    ensures
        bound == compress_bound_of(src_size as nat),
{
    zstd_safe::compress_bound(src_size)
}

/// `CCtx::create`: a context at zstd's own level, in which nothing has been compressed.
#[verifier::external_body]
pub(crate) fn create_compression() -> (cctx: CCtx<'static>)
    ensures
        fresh_level(cctx) == Some(3int),
        compressions(cctx).len() == 0,
{
    CCtx::create()
}

/// `CCtx::set_parameter` with `CParameter::CompressionLevel`: a context that is as it was created
/// but for its level takes any level, for zstd brings it into range by itself; where the call
/// returns `Ok`, such a context has the level, and nothing else of it has changed. Nothing is said
/// of when it returns `Ok` in other contexts.
#[verifier::external_body]
pub(crate) fn set_compression_level(cctx: &mut CCtx<'static>, level: i32) -> (done: bool)
    ensures
        fresh_level(*old(cctx)) is Some ==> done,
        (done && fresh_level(*old(cctx)) is Some) ==> fresh_level(*final(cctx)) == Some(
            level as int,
        ),
        compressions(*final(cctx)) == compressions(*old(cctx)),
{
    cctx.set_parameter(CParameter::CompressionLevel(level)).is_ok()
}

/// `CCtx::compress2` into a new buffer of `capacity` bytes: where it returns `Ok`, the buffer holds
/// the frame of `input`, and decompressing that frame gives `input` back. It is one run in the
/// context, with what came of it. zstd can fail for want of memory, so nothing is said of when it
/// returns `Ok`.
#[verifier::external_body]
pub(crate) fn compress2(cctx: &mut CCtx<'static>, capacity: usize, input: &[u8]) -> (frame: Option<
    Vec<u8>,
>)
    requires
        compress_bound_of(input@.len()) <= capacity <= isize::MAX,
        fresh_level(*old(cctx)) is Some,
    ensures
        frame matches Some(out) ==> out@ == zstd_compressed(fresh_level(*old(cctx))->0, input@),
        frame matches Some(out) ==> zstd_content(out@) == Some(input@),
        compressions(*final(cctx)) == compressions(*old(cctx)).push(
            (
                fresh_level(*old(cctx))->0,
                input@,
                match frame {
                    Some(out) => Some(out@),
                    None => None,
                },
            ),
        ),
{
    let mut output: Vec<u8> = Vec::with_capacity(capacity);
    cctx.compress2(&mut output, input).ok().map(|_| output)
}

/// `DCtx::create`: a decompression context.
#[verifier::external_body]
pub(crate) fn create_decompression() -> (dctx: DCtx<'static>)
    ensures
        as_created(dctx),
{
    DCtx::create()
}

/// `DCtx::decompress`, in a context that is as it was created, into a new buffer of at least
/// `capacity` bytes: where it returns `Ok`, the buffer holds the content of `frames`, and it does
/// return `Ok` where there is a content and it is no longer than `capacity`. A buffer may be longer
/// than was asked for, so nothing is said of longer contents.
#[verifier::external_body]
pub(crate) fn decompress_into(dctx: &mut DCtx<'static>, capacity: usize, frames: &[u8]) -> (content:
    Option<Vec<u8>>)
    requires
        capacity <= isize::MAX,
        as_created(*old(dctx)),
    ensures
        content matches Some(out) ==> zstd_content(frames@) == Some(out@),
        (zstd_content(frames@) matches Some(c) && c.len() <= capacity) ==> content is Some,
{
    let mut output: Vec<u8> = Vec::with_capacity(capacity);
    dctx.decompress(&mut output, frames).ok().map(|_| output)
}

} // verus!
