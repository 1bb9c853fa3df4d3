//! zstd compression of message payloads.

use vstd::prelude::*;

use zstd_safe::CCtx;

use crate::ext::zstd;

verus! {

/// Default zstd compression level (fast).
pub const DEFAULT_COMPRESSION_LEVEL: i32 = 1;

/// Compresses data using zstd.
///
/// The compression level is configurable (1 = fastest, 19 = best ratio). Level 1 typically achieves
/// about threefold compression on CDR data.
pub struct Compressor {
    level: i32,
}

/// Whether the longest frame that zstd can make of `len` bytes can exist in memory.
pub open spec fn compressible(len: nat) -> bool {
    zstd::compress_bound_of(len) <= isize::MAX
}

/// The bytes of an optional vector.
pub open spec fn viewed(bytes: Option<Vec<u8>>) -> Option<Seq<u8>> {
    match bytes {
        Some(v) => Some(v@),
        None => None,
    }
}

/// Whether `frame` is what came of one run of zstd on `input` at `level`, in a context in which
/// nothing had been compressed before: the frame that zstd makes of it, which holds `input`, or
/// nothing where zstd failed.
pub open spec fn zstd_gave(level: int, input: Seq<u8>, frame: Option<Seq<u8>>) -> bool {
    &&& exists|cctx: CCtx<'static>| #[trigger]
        zstd::compressions(cctx) == seq![(level, input, frame)]
    &&& frame matches Some(out) ==> {
        &&& out == zstd::zstd_compressed(level, input)
        &&& zstd::zstd_content(out) == Some(input)
    }
}

/// A frame that is shorter than the `input_len` bytes that it stands for; nothing where there is
/// none.
pub open spec fn shorter_frame(frame: Option<Seq<u8>>, input_len: nat) -> Option<Seq<u8>> {
    match frame {
        Some(out) => if out.len() < input_len {
            Some(out)
        } else {
            None
        },
        None => None,
    }
}

/// Whether `outcome` is what comes of compressing `input` at `level`: zstd is run on it once, and
/// `outcome` is the frame that zstd gave, where it is shorter than `input`; nothing, where it is
/// not, or where zstd failed.
pub open spec fn compress_outcome(level: int, input: Seq<u8>, outcome: Option<Seq<u8>>) -> bool {
    exists|frame: Option<Seq<u8>>|
        {
            &&& #[trigger] zstd_gave(level, input, frame)
            &&& outcome == shorter_frame(frame, input.len())
        }
}

impl Compressor {
    /// The zstd level.
    pub closed spec fn level(&self) -> int {
        self.level as int
    }

    /// Creates a new compressor with the given zstd level.
    pub fn new(level: i32) -> (compressor: Self)
        ensures
            compressor.level() == level,
    {
        Compressor { level }
    }

    /// Compresses input data, returning the compressed bytes.
    ///
    /// Returns `None` if compression fails or does not make the data shorter (in which case the
    /// caller should send it uncompressed).
    pub fn compress(&self, input: &[u8]) -> (compressed: Option<Vec<u8>>)
        requires
            compressible(input@.len()),
        ensures
            compress_outcome(self.level(), input@, viewed(compressed)),
    {
        let max_size: usize = zstd::compress_bound(input.len());
        let mut cctx = zstd::create_compression();
        if !zstd::set_compression_level(&mut cctx, self.level) {
            return None;
        }
        let frame = zstd::compress2(&mut cctx, max_size, input);
        proof {
            assert(zstd::compressions(cctx) =~= seq![(self.level(), input@, viewed(frame))]);
            assert(zstd_gave(self.level(), input@, viewed(frame)));
        }
        match frame {
            Some(output) => keep_if_shorter(output, input.len()),
            None => None,
        }
    }
}

/// Keeps a compressed payload only where it is shorter than the `input_len` bytes that it stands
/// for.
pub fn keep_if_shorter(output: Vec<u8>, input_len: usize) -> (kept: Option<Vec<u8>>)
    ensures
        kept == (if output@.len() < input_len {
            Some(output)
        } else {
            None
        }),
{
    if output.len() >= input_len {
        return None;
    }
    Some(output)
}

/// The content of zstd frames, where there is one and it is no longer than `max_size`.
pub open spec fn decompressed(frames: Seq<u8>, max_size: usize) -> Option<Seq<u8>> {
    match zstd::zstd_content(frames) {
        Some(content) => if content.len() <= max_size {
            Some(content)
        } else {
            None
        },
        None => None,
    }
}

/// Decompresses zstd-compressed data.
///
/// The caller must know the upper bound on decompressed size.
pub fn decompress(input: &[u8], max_decompressed_size: usize) -> (content: Option<Vec<u8>>)
    requires
        max_decompressed_size <= isize::MAX,
    ensures
        viewed(content) == decompressed(input@, max_decompressed_size),
{
    let mut dctx = zstd::create_decompression();
    match zstd::decompress_into(&mut dctx, max_decompressed_size, input) {
        Some(content) => {
            // The buffer may have been longer than it was asked to be.
            if content.len() > max_decompressed_size {
                return None;
            }
            Some(content)
        },
        None => None,
    }
}

/// What the compressor returns is shorter than what it was given, and decompresses to it wherever
/// the bound leaves room for it; where it does not, nothing comes back, and no part of it either.
pub proof fn law_decompress_undoes_compress(
    level: int,
    input: Seq<u8>,
    outcome: Option<Seq<u8>>,
    max_size: usize,
)
    requires
        compress_outcome(level, input, outcome),
    ensures
        outcome matches Some(out) ==> {
            &&& out.len() < input.len()
            &&& zstd::zstd_content(out) == Some(input)
            &&& max_size >= input.len() ==> decompressed(out, max_size) == Some(input)
            &&& max_size < input.len() ==> decompressed(out, max_size) is None
        },
{
}

} // verus!
