//! What the wire formats are, byte by byte.

use vstd::prelude::*;

use bytes::Bytes;

use crate::ext::buffer;
use crate::framing;
use crate::framing::{
    encode_binary_frame, encode_compressed_binary_frame, encode_datagram_frame, encode_json_frame,
    parse_datagram_frame, parse_stream_header, DatagramHeader, StreamOpCode,
};
use crate::le;

verus! {

/// The byte that stands for an opcode on the wire.
pub proof fn law_opcode_bytes(op: StreamOpCode)
    ensures
        op == StreamOpCode::Text ==> op.code() == 1,
        op == StreamOpCode::Binary ==> op.code() == 2,
        op == StreamOpCode::CompressedBinary ==> op.code() == 3,
{
}

/// The `k`-th byte of a number is that digit of it to the base 256, lowest first.
pub proof fn law_little_endian_bytes(n: nat)
    ensures
        le::le_bytes(n, 2).len() == 2,
        le::le_bytes(n, 2)[0] == n % 256,
        le::le_bytes(n, 2)[1] == (n / 0x100) % 256,
        le::le_bytes(n, 4).len() == 4,
        le::le_bytes(n, 4)[0] == n % 256,
        le::le_bytes(n, 4)[1] == (n / 0x100) % 256,
        le::le_bytes(n, 4)[2] == (n / 0x1_0000) % 256,
        le::le_bytes(n, 4)[3] == (n / 0x100_0000) % 256,
        le::le_bytes(n, 8).len() == 8,
        le::le_bytes(n, 8)[0] == n % 256,
        le::le_bytes(n, 8)[1] == (n / 0x100) % 256,
        le::le_bytes(n, 8)[2] == (n / 0x1_0000) % 256,
        le::le_bytes(n, 8)[3] == (n / 0x100_0000) % 256,
        le::le_bytes(n, 8)[4] == (n / 0x1_0000_0000) % 256,
        le::le_bytes(n, 8)[5] == (n / 0x100_0000_0000) % 256,
        le::le_bytes(n, 8)[6] == (n / 0x1_0000_0000_0000) % 256,
        le::le_bytes(n, 8)[7] == (n / 0x100_0000_0000_0000) % 256,
{
    lemma_ranges();
    le::lemma_le_bytes_len(n, 2);
    le::lemma_le_bytes_len(n, 4);
    le::lemma_le_bytes_len(n, 8);
    lemma_byte(n, 2, 0);
    lemma_byte(n, 2, 1);
    lemma_byte(n, 4, 0);
    lemma_byte(n, 4, 1);
    lemma_byte(n, 4, 2);
    lemma_byte(n, 4, 3);
    lemma_byte(n, 8, 0);
    lemma_byte(n, 8, 1);
    lemma_byte(n, 8, 2);
    lemma_byte(n, 8, 3);
    lemma_byte(n, 8, 4);
    lemma_byte(n, 8, 5);
    lemma_byte(n, 8, 6);
    lemma_byte(n, 8, 7);
}

proof fn lemma_ranges()
    ensures
        le::le_range(0) == 1,
        le::le_range(1) == 0x100,
        le::le_range(2) == 0x1_0000,
        le::le_range(3) == 0x100_0000,
        le::le_range(4) == 0x1_0000_0000,
        le::le_range(5) == 0x100_0000_0000,
        le::le_range(6) == 0x1_0000_0000_0000,
        le::le_range(7) == 0x100_0000_0000_0000,
{
    reveal_with_fuel(le::le_range, 9);
}

proof fn lemma_byte(n: nat, width: nat, k: nat)
    requires
        k < width,
    ensures
        le::le_bytes(n, width)[k as int] == (n / le::le_range(k)) % 256,
    decreases width,
{
    let rest = le::le_bytes(n / 256, (width - 1) as nat);
    le::lemma_le_bytes_len(n / 256, (width - 1) as nat);
    if k > 0 {
        let below = le::le_range((k - 1) as nat);
        lemma_byte(n / 256, (width - 1) as nat, (k - 1) as nat);
        assert(le::le_bytes(n, width)[k as int] == rest[k - 1]);
        lemma_range_positive((k - 1) as nat);
        vstd::arithmetic::div_mod::lemma_div_denominator(n as int, 256, below as int);
        assert(le::le_range(k) == 256 * below);
        assert(n / le::le_range(k) == (n / 256) / below);
    } else {
        assert(le::le_range(0) == 1);
        vstd::arithmetic::div_mod::lemma_div_basics(n as int);
        assert(n / le::le_range(k) == n);
    }
}

proof fn lemma_range_positive(k: nat)
    ensures
        le::le_range(k) > 0,
    decreases k,
{
    if k > 0 {
        lemma_range_positive((k - 1) as nat);
    }
}

/// Bytes stand for the sum of each times the power of 256 that belongs to its place.
pub proof fn law_little_endian_values(b: Seq<u8>)
    ensures
        b.len() == 2 ==> le::le_value(b) == b[0] + b[1] * 0x100,
        b.len() == 4 ==> le::le_value(b) == b[0] + b[1] * 0x100 + b[2] * 0x1_0000 + b[3]
            * 0x100_0000,
        b.len() == 8 ==> le::le_value(b) == b[0] + b[1] * 0x100 + b[2] * 0x1_0000 + b[3]
            * 0x100_0000 + b[4] * 0x1_0000_0000 + b[5] * 0x100_0000_0000 + b[6]
            * 0x1_0000_0000_0000 + b[7] * 0x100_0000_0000_0000,
{
    reveal_with_fuel(le::le_value, 9);
}

/// What the functions that read numbers return: the bytes at that place as a number, lowest first.
pub proof fn law_read_numbers(data: &[u8], at: usize, small: u16, middle: u32, large: u64)
    requires
        at + 8 <= data@.len(),
        call_ensures(le::read_u16, (data, at), small),
        call_ensures(le::read_u32, (data, at), middle),
        call_ensures(le::read_u64, (data, at), large),
    ensures
        small == data@[at as int] + data@[at + 1] * 0x100,
        middle == data@[at as int] + data@[at + 1] * 0x100 + data@[at + 2] * 0x1_0000 + data@[at
            + 3] * 0x100_0000,
        large == middle + data@[at + 4] * 0x1_0000_0000 + data@[at + 5] * 0x100_0000_0000 + data@[at
            + 6] * 0x1_0000_0000_0000 + data@[at + 7] * 0x100_0000_0000_0000,
{
    law_little_endian_values(data@.subrange(at as int, at + 2));
    law_little_endian_values(data@.subrange(at as int, at + 4));
    law_little_endian_values(data@.subrange(at as int, at + 8));
}

/// A stream frame is five bytes and the payload: first the opcode's byte, then the payload's
/// length in four bytes, lowest first, then the payload.
pub proof fn law_stream_frame_bytes(op: StreamOpCode, payload: Seq<u8>)
    ensures
        ({
            let frame = framing::stream_frame(op, payload);
            let len = payload.len();
            &&& frame.len() == 5 + len
            &&& frame[0] == (match op {
                StreamOpCode::Text => 1u8,
                StreamOpCode::Binary => 2u8,
                StreamOpCode::CompressedBinary => 3u8,
            })
            &&& frame[1] == len % 256
            &&& frame[2] == (len / 0x100) % 256
            &&& frame[3] == (len / 0x1_0000) % 256
            &&& frame[4] == (len / 0x100_0000) % 256
            &&& forall|i: int| 0 <= i < len ==> #[trigger] payload[i] == frame[5 + i]
        }),
{
    law_little_endian_bytes(payload.len());
}

/// A stream header announces the opcode that its first byte is, and the length that the other four
/// bytes are, lowest first.
pub proof fn law_stream_header_reads_bytes(header: Seq<u8>)
    requires
        header.len() == 5,
    ensures
        framing::stream_header(header).0 == header[0],
        framing::stream_header(header).1 == header[1] + header[2] * 0x100 + header[3] * 0x1_0000
            + header[4] * 0x100_0000,
{
    law_little_endian_values(header.subrange(1, 5));
}

/// A datagram is fourteen bytes and the payload: the channel in eight bytes, the sequence number
/// in four and the flags in two, each lowest first, then the payload.
pub proof fn law_datagram_bytes(header: DatagramHeader, payload: Seq<u8>)
    ensures
        ({
            let datagram = framing::datagram_frame(header, payload);
            let id = header.channel_id as nat;
            let sequence = header.sequence as nat;
            let flags = header.flags as nat;
            &&& datagram.len() == 14 + payload.len()
            &&& datagram[0] == id % 256
            &&& datagram[1] == (id / 0x100) % 256
            &&& datagram[2] == (id / 0x1_0000) % 256
            &&& datagram[3] == (id / 0x100_0000) % 256
            &&& datagram[4] == (id / 0x1_0000_0000) % 256
            &&& datagram[5] == (id / 0x100_0000_0000) % 256
            &&& datagram[6] == (id / 0x1_0000_0000_0000) % 256
            &&& datagram[7] == (id / 0x100_0000_0000_0000) % 256
            &&& datagram[8] == sequence % 256
            &&& datagram[9] == (sequence / 0x100) % 256
            &&& datagram[10] == (sequence / 0x1_0000) % 256
            &&& datagram[11] == (sequence / 0x100_0000) % 256
            &&& datagram[12] == flags % 256
            &&& datagram[13] == (flags / 0x100) % 256
            &&& forall|i: int| 0 <= i < payload.len() ==> #[trigger] payload[i] == datagram[14 + i]
        }),
{
    law_little_endian_bytes(header.channel_id as nat);
    law_little_endian_bytes(header.sequence as nat);
    law_little_endian_bytes(header.flags as nat);
}

/// Of a datagram, the first eight bytes are the channel, the next four the sequence number, the
/// next two the flags, each lowest first, and the rest is the payload. A datagram of fewer than
/// fourteen bytes is none.
pub proof fn law_datagram_reads_bytes(d: Seq<u8>)
    ensures
        d.len() < 14 ==> framing::parsed_datagram(d) is None,
        d.len() >= 14 ==> {
            &&& framing::parsed_datagram(d) matches Some((header, payload))
            &&& header.channel_id == d[0] + d[1] * 0x100 + d[2] * 0x1_0000 + d[3] * 0x100_0000
                + d[4] * 0x1_0000_0000 + d[5] * 0x100_0000_0000 + d[6] * 0x1_0000_0000_0000 + d[7]
                * 0x100_0000_0000_0000
            &&& header.sequence == d[8] + d[9] * 0x100 + d[10] * 0x1_0000 + d[11] * 0x100_0000
            &&& header.flags == d[12] + d[13] * 0x100
            &&& payload == d.subrange(14, d.len() as int)
        },
{
    if d.len() >= 14 {
        law_little_endian_values(d.subrange(0, 8));
        law_little_endian_values(d.subrange(8, 12));
        law_little_endian_values(d.subrange(12, 14));
    }
}

/// A payload fits in a datagram exactly where it and the fourteen bytes in front of it are no
/// longer than the longest datagram. A frame of the stream fits in memory where it and the five
/// bytes in front of it do.
pub proof fn law_what_fits(len: nat, max_datagram_size: usize)
    ensures
        framing::fits_datagram(len, max_datagram_size) <==> len + 14 <= max_datagram_size,
        framing::fits_stream_frame(len) <==> len + 5 <= isize::MAX,
{
}

/// What `StreamOpCode::from_u8` returns: the opcode of 1, 2 and 3, and nothing else.
pub proof fn law_opcode_of_byte(value: u8, opcode: Option<StreamOpCode>)
    requires
        call_ensures(StreamOpCode::from_u8, (value,), opcode),
    ensures
        opcode == (match value {
            1u8 => Some(StreamOpCode::Text),
            2u8 => Some(StreamOpCode::Binary),
            3u8 => Some(StreamOpCode::CompressedBinary),
            _ => None,
        }),
{
}

/// What `StreamOpCode::to_u8` returns.
pub proof fn law_byte_of_opcode(op: StreamOpCode, value: u8)
    requires
        call_ensures(StreamOpCode::to_u8, (op,), value),
    ensures
        value == (match op {
            StreamOpCode::Text => 1u8,
            StreamOpCode::Binary => 2u8,
            StreamOpCode::CompressedBinary => 3u8,
        }),
{
}

/// What the three encoders of stream frames return: the byte that says what follows, the length of
/// it in four bytes, lowest first, and what follows.
pub proof fn law_encoded_frames(message: &str, payload: &[u8], frame: Bytes, at: int)
    requires
        ({
            ||| call_ensures(encode_json_frame, (message,), frame) && payload@
                == vstd::utf8::encode_utf8(message@)
            ||| call_ensures(encode_binary_frame, (payload,), frame)
            ||| call_ensures(encode_compressed_binary_frame, (payload,), frame)
        }),
    ensures
        ({
            let bytes = buffer::frame_bytes(frame);
            let len = payload@.len();
            &&& bytes.len() == 5 + len
            &&& bytes[1] == len % 256
            &&& bytes[2] == (len / 0x100) % 256
            &&& bytes[3] == (len / 0x1_0000) % 256
            &&& bytes[4] == (len / 0x100_0000) % 256
            &&& 0 <= at < len ==> bytes[5 + at] == payload@[at]
        }),
{
    law_stream_frame_bytes(StreamOpCode::Text, payload@);
    law_stream_frame_bytes(StreamOpCode::Binary, payload@);
    law_stream_frame_bytes(StreamOpCode::CompressedBinary, payload@);
    assert(payload@[at] == payload@[at]);
}

/// The first byte of a frame says which of the three encoders made it.
pub proof fn law_encoded_frames_begin(message: &str, payload: &[u8], frame: Bytes)
    ensures
        call_ensures(encode_json_frame, (message,), frame) ==> buffer::frame_bytes(frame)[0] == 1,
        call_ensures(encode_binary_frame, (payload,), frame) ==> buffer::frame_bytes(frame)[0]
            == 2,
        call_ensures(encode_compressed_binary_frame, (payload,), frame) ==> buffer::frame_bytes(
            frame,
        )[0] == 3,
{
}

/// What `parse_stream_header` returns: the first byte, and the other four as a number, lowest
/// first.
pub proof fn law_parsed_stream_header(header: &[u8; 5], parsed: (u8, u32))
    requires
        call_ensures(parse_stream_header, (header,), parsed),
    ensures
        parsed.0 == header@[0],
        parsed.1 == header@[1] + header@[2] * 0x100 + header@[3] * 0x1_0000 + header@[4]
            * 0x100_0000,
{
    law_stream_header_reads_bytes(header@);
}

/// What `encode_datagram_frame` returns: a datagram exactly where it is no longer than allowed,
/// and then the channel, the sequence number, no flags, and the payload.
pub proof fn law_encoded_datagram(
    channel_id: u64,
    sequence: u32,
    payload: &[u8],
    max_datagram_size: usize,
    frame: Option<Bytes>,
)
    requires
        call_ensures(
            encode_datagram_frame,
            (channel_id, sequence, payload, max_datagram_size),
            frame,
        ),
    ensures
        frame is Some <==> payload@.len() + 14 <= max_datagram_size,
        frame matches Some(f) ==> {
            let d = buffer::frame_bytes(f);
            &&& d.len() == 14 + payload@.len()
            &&& d.skip(14) == payload@
            &&& channel_id == d[0] + d[1] * 0x100 + d[2] * 0x1_0000 + d[3] * 0x100_0000 + d[4]
                * 0x1_0000_0000 + d[5] * 0x100_0000_0000 + d[6] * 0x1_0000_0000_0000 + d[7]
                * 0x100_0000_0000_0000
            &&& sequence == d[8] + d[9] * 0x100 + d[10] * 0x1_0000 + d[11] * 0x100_0000
            &&& d[12] == 0 && d[13] == 0
        },
{
    if frame is Some {
        let header = DatagramHeader { channel_id, sequence, flags: 0 };
        let d = buffer::frame_bytes(frame->0);
        law_datagram_bytes(header, payload@);
        law_datagram_reads_bytes(d);
        framing::law_datagram_parse_undoes_encode(header, payload@);
        assert(d.skip(14) =~= payload@);
    }
}

/// What `parse_datagram_frame` returns: nothing for fewer than fourteen bytes; else the three
/// numbers at the front, lowest byte first, and the rest.
pub proof fn law_parsed_datagram(data: &[u8], parsed: Option<(DatagramHeader, &[u8])>)
    requires
        call_ensures(parse_datagram_frame, (data,), parsed),
    ensures
        parsed is Some <==> data@.len() >= 14,
        parsed matches Some((header, payload)) ==> {
            let d = data@;
            &&& header.channel_id == d[0] + d[1] * 0x100 + d[2] * 0x1_0000 + d[3] * 0x100_0000
                + d[4] * 0x1_0000_0000 + d[5] * 0x100_0000_0000 + d[6] * 0x1_0000_0000_0000 + d[7]
                * 0x100_0000_0000_0000
            &&& header.sequence == d[8] + d[9] * 0x100 + d[10] * 0x1_0000 + d[11] * 0x100_0000
            &&& header.flags == d[12] + d[13] * 0x100
            &&& payload@ == d.subrange(14, d.len() as int)
        },
{
    law_datagram_reads_bytes(data@);
}

/// The limits and sizes that the formats have: five bytes in front of a frame's payload, fourteen
/// in front of a datagram's, and at most 16 MiB announced by a client.
pub proof fn law_sizes()
    ensures
        framing::STREAM_FRAME_HEADER_SIZE == 5,
        framing::DATAGRAM_HEADER_SIZE == 14,
        framing::MAX_MESSAGE_SIZE == 16 * 1024 * 1024,
{
}

} // verus!
