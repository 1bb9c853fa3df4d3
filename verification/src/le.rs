//! Little-endian integers.

use vstd::prelude::*;

verus! {

/// The `width` lowest base-256 digits of `n`, lowest first.
pub open spec fn le_bytes(n: nat, width: nat) -> Seq<u8>
    decreases width,
{
    if width == 0 {
        Seq::empty()
    } else {
        seq![(n % 256) as u8] + le_bytes(n / 256, (width - 1) as nat)
    }
}

/// The number whose base-256 digits, lowest first, are `bytes`.
pub open spec fn le_value(bytes: Seq<u8>) -> nat
    decreases bytes.len(),
{
    if bytes.len() == 0 {
        0
    } else {
        bytes[0] as nat + 256 * le_value(bytes.drop_first())
    }
}

/// The count of numbers that `width` bytes can hold.
pub open spec fn le_range(width: nat) -> nat
    decreases width,
{
    if width == 0 {
        1
    } else {
        256 * le_range((width - 1) as nat)
    }
}

/// `le_bytes` yields exactly `width` bytes.
pub proof fn lemma_le_bytes_len(n: nat, width: nat)
    ensures
        le_bytes(n, width).len() == width,
    decreases width,
{
    if width > 0 {
        lemma_le_bytes_len(n / 256, (width - 1) as nat);
    }
}

/// Reading back what was written gives the number, as far as `width` bytes can hold it.
pub proof fn lemma_le_value_of_bytes(n: nat, width: nat)
    requires
        n < le_range(width),
    ensures
        le_value(le_bytes(n, width)) == n,
    decreases width,
{
    if width > 0 {
        let rest = le_bytes(n / 256, (width - 1) as nat);
        assert(n / 256 < le_range((width - 1) as nat));
        lemma_le_value_of_bytes(n / 256, (width - 1) as nat);
        assert(le_bytes(n, width).drop_first() =~= rest);
    }
}

/// Writing what was read gives the same bytes, and the number fits in them.
pub proof fn lemma_le_bytes_of_value(bytes: Seq<u8>)
    ensures
        le_bytes(le_value(bytes), bytes.len()) == bytes,
        le_value(bytes) < le_range(bytes.len()),
    decreases bytes.len(),
{
    if bytes.len() > 0 {
        let rest = bytes.drop_first();
        lemma_le_bytes_of_value(rest);
        assert(le_value(bytes) % 256 == bytes[0]);
        assert(le_value(bytes) / 256 == le_value(rest));
        assert(le_bytes(le_value(bytes), bytes.len()) =~= seq![bytes[0]] + rest);
        assert(seq![bytes[0]] + rest =~= bytes);
    }
}

/// The ranges of the integer widths that the wire formats use.
pub proof fn lemma_le_ranges()
    ensures
        le_range(2) == 0x1_0000,
        le_range(4) == 0x1_0000_0000,
        le_range(8) == 0x1_0000_0000_0000_0000,
{
    reveal_with_fuel(le_range, 9);
}

/// Reads the two bytes at `at`.
pub fn read_u16(data: &[u8], at: usize) -> (n: u16)
    requires
        at + 2 <= data@.len(),
    ensures
        n == le_value(data@.subrange(at as int, at + 2)),
{
    let ghost s = data@.subrange(at as int, at + 2);
    proof {
        reveal_with_fuel(le_value, 3);
        assert(s.drop_first().drop_first() =~= Seq::<u8>::empty());
    }
    data[at] as u16 + data[at + 1] as u16 * 0x100
}

/// Reads the four bytes at `at`.
pub fn read_u32(data: &[u8], at: usize) -> (n: u32)
    requires
        at + 4 <= data@.len(),
    ensures
        n == le_value(data@.subrange(at as int, at + 4)),
{
    assert(data@.len() == data.len());
    let low: u16 = read_u16(data, at);
    let high: u16 = read_u16(data, at + 2);
    proof {
        let s = data@.subrange(at as int, at + 4);
        reveal_with_fuel(le_value, 3);
        assert(s.drop_first().drop_first() =~= data@.subrange(at + 2, at + 4));
        assert(data@.subrange(at as int, at + 2).drop_first().drop_first() =~= Seq::<u8>::empty());
    }
    low as u32 + high as u32 * 0x1_0000
}

/// Reads the eight bytes at `at`.
pub fn read_u64(data: &[u8], at: usize) -> (n: u64)
    requires
        at + 8 <= data@.len(),
    ensures
        n == le_value(data@.subrange(at as int, at + 8)),
{
    assert(data@.len() == data.len());
    let low: u32 = read_u32(data, at);
    let high: u32 = read_u32(data, at + 4);
    proof {
        let s = data@.subrange(at as int, at + 8);
        let t = data@.subrange(at as int, at + 4);
        reveal_with_fuel(le_value, 5);
        assert(s.drop_first().drop_first().drop_first().drop_first()
            =~= data@.subrange(at + 4, at + 8));
        assert(t.drop_first().drop_first().drop_first().drop_first() =~= Seq::<u8>::empty());
    }
    low as u64 + high as u64 * 0x1_0000_0000
}

} // verus!
