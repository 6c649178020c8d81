//! Little-endian integers at fixed offsets of a byte string.
use vstd::prelude::*;

verus! {

/// The unsigned 16-bit integer whose two bytes start at `at`, low byte first.
pub open spec fn u16_at(bytes: Seq<u8>, at: int) -> int {
    bytes[at] + 256 * bytes[at + 1]
}

/// The unsigned 32-bit integer whose four bytes start at `at`, low byte first.
pub open spec fn u32_at(bytes: Seq<u8>, at: int) -> int {
    u16_at(bytes, at) + 0x1_0000 * u16_at(bytes, at + 2)
}

/// The unsigned 64-bit integer whose eight bytes start at `at`, low byte first.
pub open spec fn u64_at(bytes: Seq<u8>, at: int) -> int {
    u32_at(bytes, at) + 0x1_0000_0000 * u32_at(bytes, at + 4)
}

/// The two's-complement 8-bit integer at `at`.
pub open spec fn i8_at(bytes: Seq<u8>, at: int) -> int {
    if bytes[at] < 0x80 {
        bytes[at] as int
    } else {
        bytes[at] - 0x100
    }
}

/// The two's-complement 32-bit integer whose four bytes start at `at`.
pub open spec fn i32_at(bytes: Seq<u8>, at: int) -> int {
    let value = u32_at(bytes, at);
    if value < 0x8000_0000 {
        value
    } else {
        value - 0x1_0000_0000
    }
}

/// The two's-complement 64-bit integer whose eight bytes start at `at`.
pub open spec fn i64_at(bytes: Seq<u8>, at: int) -> int {
    let value = u64_at(bytes, at);
    if value < 0x8000_0000_0000_0000 {
        value
    } else {
        value - 0x1_0000_0000_0000_0000
    }
}

/// Two byte strings that hold the same 16-bit integer at `at` agree on its bytes.
pub proof fn lemma_u16_bytes(left: Seq<u8>, right: Seq<u8>, at: int)
    requires
        u16_at(left, at) == u16_at(right, at),
    ensures
        left[at] == right[at],
        left[at + 1] == right[at + 1],
{
}

/// Two byte strings that hold the same 32-bit integer at `at` agree on its bytes.
pub proof fn lemma_u32_bytes(left: Seq<u8>, right: Seq<u8>, at: int)
    requires
        u32_at(left, at) == u32_at(right, at),
    ensures
        forall|i: int| at <= i < at + 4 ==> left[i] == right[i],
{
    lemma_u16_bytes(left, right, at);
    lemma_u16_bytes(left, right, at + 2);
}

/// Two byte strings that hold the same 64-bit integer at `at` agree on its bytes.
pub proof fn lemma_u64_bytes(left: Seq<u8>, right: Seq<u8>, at: int)
    requires
        u64_at(left, at) == u64_at(right, at),
    ensures
        forall|i: int| at <= i < at + 8 ==> left[i] == right[i],
{
    lemma_u32_bytes(left, right, at);
    lemma_u32_bytes(left, right, at + 4);
}

/// The two bytes of an unsigned 16-bit integer.
pub fn u16_le(value: u16) -> (bytes: [u8; 2])
    ensures
        u16_at(bytes@, 0) == value,
{
    [(value % 256) as u8, (value / 256) as u8]
}

/// The four bytes of an unsigned 32-bit integer.
pub fn u32_le(value: u32) -> (bytes: [u8; 4])
    ensures
        u32_at(bytes@, 0) == value,
{
    let low: [u8; 2] = u16_le((value % 0x1_0000) as u16);
    let high: [u8; 2] = u16_le((value / 0x1_0000) as u16);
    [low[0], low[1], high[0], high[1]]
}

/// The eight bytes of an unsigned 64-bit integer.
pub fn u64_le(value: u64) -> (bytes: [u8; 8])
    ensures
        u64_at(bytes@, 0) == value,
{
    let low: [u8; 4] = u32_le((value % 0x1_0000_0000) as u32);
    let high: [u8; 4] = u32_le((value / 0x1_0000_0000) as u32);
    [low[0], low[1], low[2], low[3], high[0], high[1], high[2], high[3]]
}

/// The byte of a two's-complement 8-bit integer.
pub fn i8_le(value: i8) -> (byte: u8)
    ensures
        i8_at(seq![byte], 0) == value,
{
    if value >= 0 {
        value as u8
    } else {
        (value as i16 + 0x100) as u8
    }
}

/// The four bytes of a two's-complement 32-bit integer.
pub fn i32_le(value: i32) -> (bytes: [u8; 4])
    ensures
        i32_at(bytes@, 0) == value,
{
    if value >= 0 {
        u32_le(value as u32)
    } else {
        u32_le((value as i64 + 0x1_0000_0000) as u32)
    }
}

/// The eight bytes of a two's-complement 64-bit integer.
pub fn i64_le(value: i64) -> (bytes: [u8; 8])
    ensures
        i64_at(bytes@, 0) == value,
{
    if value >= 0 {
        u64_le(value as u64)
    } else {
        u64_le((value as i128 + 0x1_0000_0000_0000_0000) as u64)
    }
}

/// The unsigned 16-bit integer of two bytes.
pub fn le_u16(bytes: [u8; 2]) -> (value: u16)
    ensures
        value == u16_at(bytes@, 0),
{
    bytes[0] as u16 + 256 * (bytes[1] as u16)
}

/// The unsigned 32-bit integer of four bytes.
pub fn le_u32(bytes: [u8; 4]) -> (value: u32)
    ensures
        value == u32_at(bytes@, 0),
{
    let low: u16 = le_u16([bytes[0], bytes[1]]);
    let high: u16 = le_u16([bytes[2], bytes[3]]);
    low as u32 + 0x1_0000 * (high as u32)
}

/// The unsigned 64-bit integer of eight bytes.
pub fn le_u64(bytes: [u8; 8]) -> (value: u64)
    ensures
        value == u64_at(bytes@, 0),
{
    let low: u32 = le_u32([bytes[0], bytes[1], bytes[2], bytes[3]]);
    let high: u32 = le_u32([bytes[4], bytes[5], bytes[6], bytes[7]]);
    low as u64 + 0x1_0000_0000 * (high as u64)
}

/// The two's-complement 8-bit integer of a byte.
pub fn le_i8(byte: u8) -> (value: i8)
    ensures
        value == i8_at(seq![byte], 0),
{
    if byte < 0x80 {
        byte as i8
    } else {
        (byte as i16 - 0x100) as i8
    }
}

/// The two's-complement 32-bit integer of four bytes.
pub fn le_i32(bytes: [u8; 4]) -> (value: i32)
    ensures
        value == i32_at(bytes@, 0),
{
    let value: u32 = le_u32(bytes);
    if value < 0x8000_0000 {
        value as i32
    } else {
        (value as i64 - 0x1_0000_0000) as i32
    }
}

/// The two's-complement 64-bit integer of eight bytes.
pub fn le_i64(bytes: [u8; 8]) -> (value: i64)
    ensures
        value == i64_at(bytes@, 0),
{
    let value: u64 = le_u64(bytes);
    if value < 0x8000_0000_0000_0000 {
        value as i64
    } else {
        (value as i128 - 0x1_0000_0000_0000_0000) as i64
    }
}

/// Overwrites the bytes from `offset` on with `value` and leaves the rest.
pub fn put<const N: usize>(bytes: &mut [u8], offset: usize, value: [u8; N])
    requires
        offset + N <= old(bytes)@.len(),
        offset + N <= usize::MAX,
    ensures
        final(bytes)@.len() == old(bytes)@.len(),
        forall|i: int|
            #![trigger final(bytes)@[i]]
            0 <= i < final(bytes)@.len() ==> final(bytes)@[i] == if offset <= i < offset + N {
                value@[i - offset]
            } else {
                old(bytes)@[i]
            },
{
    let mut i: usize = 0;
    while i < N
        invariant
            i <= N,
            offset + N <= old(bytes)@.len(),
            offset + N <= usize::MAX,
            bytes@.len() == old(bytes)@.len(),
            forall|j: int|
                #![trigger bytes@[j]]
                0 <= j < bytes@.len() ==> bytes@[j] == if offset <= j < offset + i {
                    value@[j - offset]
                } else {
                    old(bytes)@[j]
                },
        decreases N - i,
    {
        bytes[offset + i] = value[i];
        i += 1;
    }
}

/// The `N` bytes from `offset` on.
pub fn take<const N: usize>(bytes: &[u8], offset: usize) -> (value: [u8; N])
    requires
        offset + N <= bytes@.len(),
    ensures
        forall|i: int| 0 <= i < N ==> #[trigger] value@[i] == bytes@[offset + i],
{
    let mut value: [u8; N] = [0; N];
    let length: usize = bytes.len();
    let mut i: usize = 0;
    while i < N
        invariant
            i <= N,
            length == bytes@.len(),
            offset + N <= length,
            forall|j: int| 0 <= j < i ==> #[trigger] value@[j] == bytes@[offset + j],
        decreases N - i,
    {
        value[i] = bytes[offset + i];
        i += 1;
    }
    value
}

} // verus!
