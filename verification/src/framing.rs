//! Wire formats: frames of a reliable stream, and unreliable datagrams.

use vstd::prelude::*;

use bytes::Bytes;

use crate::ext::buffer;
use crate::ext::buffer::{freeze, put_slice, put_u16_le, put_u32_le, put_u64_le, put_u8};
use crate::le;
use crate::le::{read_u16, read_u32, read_u64};

verus! {

/// What the payload of a stream frame is.
#[derive(Clone, Copy, Debug, PartialEq, Eq, Structural)]
pub enum StreamOpCode {
    /// JSON-encoded protocol message, not compressed.
    Text,
    /// Binary-encoded protocol message, not compressed.
    Binary,
    /// Binary-encoded protocol message, compressed with zstd.
    CompressedBinary,
}

impl StreamOpCode {
    /// The opcode's byte on the wire.
    pub open spec fn code(self) -> u8 {
        match self {
            StreamOpCode::Text => 1,
            StreamOpCode::Binary => 2,
            StreamOpCode::CompressedBinary => 3,
        }
    }

    /// The opcode's byte on the wire.
    pub fn to_u8(self) -> (value: u8)
        ensures
            value == self.code(),
    {
        match self {
            StreamOpCode::Text => 1,
            StreamOpCode::Binary => 2,
            StreamOpCode::CompressedBinary => 3,
        }
    }

    /// The opcode that `value` stands for, if it stands for one.
    pub fn from_u8(value: u8) -> (opcode: Option<Self>)
        ensures
            opcode matches Some(op) ==> op.code() == value,
            opcode is None <==> stands_for_none(value),
            opcode == (match value {
                1u8 => Some(StreamOpCode::Text),
                2u8 => Some(StreamOpCode::Binary),
                3u8 => Some(StreamOpCode::CompressedBinary),
                _ => None,
            }),
    {
        proof {
            assert(StreamOpCode::Text.code() == 1);
            assert(StreamOpCode::Binary.code() == 2);
            assert(StreamOpCode::CompressedBinary.code() == 3);
        }
        match value {
            1 => Some(StreamOpCode::Text),
            2 => Some(StreamOpCode::Binary),
            3 => Some(StreamOpCode::CompressedBinary),
            _ => None,
        }
    }
}

/// Whether a byte is that of no opcode.
pub open spec fn stands_for_none(value: u8) -> bool {
    forall|op: StreamOpCode| #[trigger] op.code() != value
}

/// Bytes in front of a stream frame's payload: the opcode, then the payload's length in four
/// bytes, lowest first.
pub const STREAM_FRAME_HEADER_SIZE: usize = 5;

/// Longest payload that a received stream frame may announce: 16 MiB.
pub const MAX_MESSAGE_SIZE: usize = 16 * 1024 * 1024;

/// The stream frame of a payload: `[opcode][u32 LE length][payload]`.
///
/// The length field holds the length modulo 2^32.
pub open spec fn stream_frame(op: StreamOpCode, payload: Seq<u8>) -> Seq<u8> {
    seq![op.code()] + le::le_bytes(payload.len(), 4) + payload
}

/// Whether a stream frame around `len` payload bytes can exist in memory.
pub open spec fn fits_stream_frame(len: nat) -> bool {
    STREAM_FRAME_HEADER_SIZE + len <= isize::MAX
}

fn encode_stream_frame(op: StreamOpCode, payload: &[u8]) -> (frame: Bytes)
    requires
        fits_stream_frame(payload@.len()),
    ensures
        buffer::frame_bytes(frame) == stream_frame(op, payload@),
{
    let mut buf: Vec<u8> = Vec::with_capacity(STREAM_FRAME_HEADER_SIZE + payload.len());
    put_u8(&mut buf, op.to_u8());
    let wide: u64 = payload.len() as u64;
    let len: u32 = #[verifier::truncate] (wide as u32);
    put_u32_le(&mut buf, len);
    proof {
        let n = payload@.len();
        assert(wide as u32 == wide % 0x1_0000_0000) by (bit_vector);
        lemma_le_bytes_modulo(n);
        le::lemma_le_bytes_len(len as nat, 4);
        assert(buf@ =~= seq![op.code()] + le::le_bytes(n, 4));
    }
    put_slice(&mut buf, payload);
    freeze(buf)
}

proof fn lemma_le_bytes_modulo(n: nat)
    ensures
        le::le_bytes(n % 0x1_0000_0000, 4) == le::le_bytes(n, 4),
{
    reveal_with_fuel(le::le_bytes, 5);
    let m = n % 0x1_0000_0000;
    assert(m % 256 == n % 256);
    assert((m / 256) % 256 == (n / 256) % 256);
    assert((m / 256 / 256) % 256 == (n / 256 / 256) % 256);
    assert((m / 256 / 256 / 256) % 256 == (n / 256 / 256 / 256) % 256);
}

/// Encodes a JSON message, given as its text.
///
/// Wire format: `[opcode=1][u32 LE payload_len][JSON bytes]`
pub fn encode_json_frame(message: &str) -> (frame: Bytes)
    requires
        fits_stream_frame(vstd::utf8::encode_utf8(message@).len()),
    ensures
        buffer::frame_bytes(frame) == stream_frame(
            StreamOpCode::Text,
            vstd::utf8::encode_utf8(message@),
        ),
{
    encode_stream_frame(StreamOpCode::Text, message.as_bytes())
}

/// Encodes a binary message without compression, given as its encoding: its own opcode, then its
/// payload.
///
/// Wire format: `[opcode=2][u32 LE msg_len][inner_opcode][payload]`
pub fn encode_binary_frame(message: &[u8]) -> (frame: Bytes)
    requires
        fits_stream_frame(message@.len()),
    ensures
        buffer::frame_bytes(frame) == stream_frame(StreamOpCode::Binary, message@),
{
    encode_stream_frame(StreamOpCode::Binary, message)
}

/// Encodes a binary message that zstd has compressed.
///
/// Wire format: `[opcode=3][u32 LE compressed_len][zstd(inner_opcode + payload)]`
pub fn encode_compressed_binary_frame(compressed_payload: &[u8]) -> (frame: Bytes)
    requires
        fits_stream_frame(compressed_payload@.len()),
    ensures
        buffer::frame_bytes(frame) == stream_frame(
            StreamOpCode::CompressedBinary,
            compressed_payload@,
        ),
{
    encode_stream_frame(StreamOpCode::CompressedBinary, compressed_payload)
}

/// The opcode and the payload length that a stream frame's first bytes announce.
pub open spec fn stream_header(header: Seq<u8>) -> (u8, nat) {
    (header[0], le::le_value(header.subrange(1, STREAM_FRAME_HEADER_SIZE as int)))
}

/// Reads a stream frame's header: the opcode byte and the payload length.
pub fn parse_stream_header(header: &[u8; 5]) -> (parsed: (u8, u32))
    ensures
        (parsed.0, parsed.1 as nat) == stream_header(header@),
{
    (header[0], read_u32(header, 1))
}

/// Bytes in front of a datagram's payload: channel (8), sequence (4), flags (2).
///
/// ```text
/// +--------------+--------------+--------------+-------------------------+
/// | channel_id   | sequence     | flags        | compressed payload      |
/// | u64 LE       | u32 LE       | u16 LE       | variable                |
/// +--------------+--------------+--------------+-------------------------+
/// ```
pub const DATAGRAM_HEADER_SIZE: usize = 8 + 4 + 2;

/// Parsed datagram frame header.
#[derive(Debug, Clone, Copy)]
pub struct DatagramHeader {
    /// Channel ID.
    pub channel_id: u64,
    /// Sequence number for ordering and loss detection.
    pub sequence: u32,
    /// Reserved flags.
    pub flags: u16,
}

/// The datagram of a header and a payload.
pub open spec fn datagram_frame(header: DatagramHeader, payload: Seq<u8>) -> Seq<u8> {
    le::le_bytes(header.channel_id as nat, 8) + le::le_bytes(header.sequence as nat, 4)
        + le::le_bytes(header.flags as nat, 2) + payload
}

/// The header and the payload of a datagram; nothing where the header is not whole.
pub open spec fn parsed_datagram(data: Seq<u8>) -> Option<(DatagramHeader, Seq<u8>)> {
    if data.len() < DATAGRAM_HEADER_SIZE {
        None
    } else {
        let header = DatagramHeader {
            channel_id: le::le_value(data.subrange(0, 8)) as u64,
            sequence: le::le_value(data.subrange(8, 12)) as u32,
            flags: le::le_value(data.subrange(12, 14)) as u16,
        };
        Some((header, data.subrange(DATAGRAM_HEADER_SIZE as int, data.len() as int)))
    }
}

/// Whether a datagram of `len` payload bytes is within `max_datagram_size`.
pub open spec fn fits_datagram(len: nat, max_datagram_size: usize) -> bool {
    DATAGRAM_HEADER_SIZE + len <= max_datagram_size
}

/// Encodes a datagram frame for unreliable delivery.
///
/// Returns `None` if the total frame size exceeds `max_datagram_size`.
pub fn encode_datagram_frame(
    channel_id: u64,
    sequence: u32,
    compressed_payload: &[u8],
    max_datagram_size: usize,
) -> (frame: Option<Bytes>)
    requires
        fits_datagram(compressed_payload@.len(), max_datagram_size) ==> DATAGRAM_HEADER_SIZE
            + compressed_payload@.len() <= isize::MAX,
    ensures
        frame is Some <==> fits_datagram(compressed_payload@.len(), max_datagram_size),
        frame matches Some(f) ==> buffer::frame_bytes(f) == datagram_frame(
            (DatagramHeader { channel_id, sequence, flags: 0 }),
            compressed_payload@,
        ),
{
    if max_datagram_size < DATAGRAM_HEADER_SIZE || compressed_payload.len() > max_datagram_size
        - DATAGRAM_HEADER_SIZE {
        return None;
    }
    let mut buf: Vec<u8> = Vec::with_capacity(DATAGRAM_HEADER_SIZE + compressed_payload.len());
    proof {
        le::lemma_le_bytes_len(channel_id as nat, 8);
        le::lemma_le_bytes_len(sequence as nat, 4);
        le::lemma_le_bytes_len(0, 2);
    }
    put_u64_le(&mut buf, channel_id);
    put_u32_le(&mut buf, sequence);
    put_u16_le(&mut buf, 0);
    put_slice(&mut buf, compressed_payload);
    assert(buf@ =~= datagram_frame(
        DatagramHeader { channel_id, sequence, flags: 0 },
        compressed_payload@,
    ));
    Some(freeze(buf))
}

/// Parses a datagram frame, returning the header and the compressed payload.
pub fn parse_datagram_frame(data: &[u8]) -> (parsed: Option<(DatagramHeader, &[u8])>)
    ensures
        parsed is Some <==> parsed_datagram(data@) is Some,
        parsed matches Some((header, payload)) ==> parsed_datagram(data@) == Some(
            (header, payload@),
        ),
{
    if data.len() < DATAGRAM_HEADER_SIZE {
        return None;
    }
    let channel_id: u64 = read_u64(data, 0);
    let sequence: u32 = read_u32(data, 8);
    let flags: u16 = read_u16(data, 12);
    let payload = &data[DATAGRAM_HEADER_SIZE..data.len()];
    Some((DatagramHeader { channel_id, sequence, flags }, payload))
}

/// A datagram that is parsed gives back the header and the payload that it was made of.
pub proof fn law_datagram_parse_undoes_encode(header: DatagramHeader, payload: Seq<u8>)
    ensures
        parsed_datagram(datagram_frame(header, payload)) == Some((header, payload)),
{
    let data = datagram_frame(header, payload);
    le::lemma_le_ranges();
    le::lemma_le_bytes_len(header.channel_id as nat, 8);
    le::lemma_le_bytes_len(header.sequence as nat, 4);
    le::lemma_le_bytes_len(header.flags as nat, 2);
    le::lemma_le_value_of_bytes(header.channel_id as nat, 8);
    le::lemma_le_value_of_bytes(header.sequence as nat, 4);
    le::lemma_le_value_of_bytes(header.flags as nat, 2);
    assert(data.subrange(0, 8) =~= le::le_bytes(header.channel_id as nat, 8));
    assert(data.subrange(8, 12) =~= le::le_bytes(header.sequence as nat, 4));
    assert(data.subrange(12, 14) =~= le::le_bytes(header.flags as nat, 2));
    assert(data.subrange(14, data.len() as int) =~= payload);
}

/// Parsing loses nothing: the datagram of what was parsed is the datagram that came in.
pub proof fn law_datagram_encode_undoes_parse(data: Seq<u8>)
    requires
        data.len() >= DATAGRAM_HEADER_SIZE,
    ensures
        parsed_datagram(data) matches Some((header, payload)) && datagram_frame(header, payload)
            == data,
{
    le::lemma_le_ranges();
    le::lemma_le_bytes_of_value(data.subrange(0, 8));
    le::lemma_le_bytes_of_value(data.subrange(8, 12));
    le::lemma_le_bytes_of_value(data.subrange(12, 14));
    let (header, payload) = parsed_datagram(data)->0;
    assert(datagram_frame(header, payload) =~= data);
}

/// The header of a stream frame announces the opcode and the length that follow, for every payload
/// whose length four bytes can hold.
pub proof fn law_stream_header_announces_frame(op: StreamOpCode, payload: Seq<u8>)
    requires
        payload.len() <= u32::MAX,
    ensures
        stream_frame(op, payload).len() == STREAM_FRAME_HEADER_SIZE + payload.len(),
        stream_header(stream_frame(op, payload).take(STREAM_FRAME_HEADER_SIZE as int)) == (
            op.code(),
            payload.len(),
        ),
        stream_frame(op, payload).skip(STREAM_FRAME_HEADER_SIZE as int) == payload,
{
    let frame = stream_frame(op, payload);
    le::lemma_le_ranges();
    le::lemma_le_bytes_len(payload.len(), 4);
    le::lemma_le_value_of_bytes(payload.len(), 4);
    assert(frame.take(5).subrange(1, 5) =~= le::le_bytes(payload.len(), 4));
    assert(frame.skip(5) =~= payload);
}

/// No two opcodes share a byte.
pub proof fn law_opcodes_distinct(a: StreamOpCode, b: StreamOpCode)
    requires
        a.code() == b.code(),
    ensures
        a == b,
{
}

} // verus!
