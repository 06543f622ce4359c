//! Verified readers for the fixed-width integer fields and padded strings of
//! the on-disk format.  Every multi-byte integer is read either big-endian or
//! little-endian from an absolute offset in the package buffer.

use vstd::prelude::*;

verus! {

broadcast use vstd::slice::axiom_spec_len;

/// Big-endian 16-bit value at offset `i` of `s`.
pub open spec fn u16_be(s: Seq<u8>, i: int) -> int
    recommends
        0 <= i,
        i + 2 <= s.len(),
{
    s[i] * 0x100 + s[i + 1]
}

/// Big-endian 24-bit value at offset `i` of `s`.
pub open spec fn u24_be(s: Seq<u8>, i: int) -> int
    recommends
        0 <= i,
        i + 3 <= s.len(),
{
    s[i] * 0x10000 + s[i + 1] * 0x100 + s[i + 2]
}

/// Big-endian 32-bit value at offset `i` of `s`.
pub open spec fn u32_be(s: Seq<u8>, i: int) -> int
    recommends
        0 <= i,
        i + 4 <= s.len(),
{
    s[i] * 0x1000000 + s[i + 1] * 0x10000 + s[i + 2] * 0x100 + s[i + 3]
}

/// Big-endian 64-bit value at offset `i` of `s`.
pub open spec fn u64_be(s: Seq<u8>, i: int) -> int
    recommends
        0 <= i,
        i + 8 <= s.len(),
{
    u32_be(s, i) * 0x100000000 + u32_be(s, i + 4)
}

/// Little-endian 16-bit value at offset `i` of `s`.
pub open spec fn u16_le(s: Seq<u8>, i: int) -> int
    recommends
        0 <= i,
        i + 2 <= s.len(),
{
    s[i + 1] * 0x100 + s[i]
}

/// Little-endian 24-bit value at offset `i` of `s`.
pub open spec fn u24_le(s: Seq<u8>, i: int) -> int
    recommends
        0 <= i,
        i + 3 <= s.len(),
{
    s[i + 2] * 0x10000 + s[i + 1] * 0x100 + s[i]
}

/// Little-endian 32-bit value at offset `i` of `s`.
pub open spec fn u32_le(s: Seq<u8>, i: int) -> int
    recommends
        0 <= i,
        i + 4 <= s.len(),
{
    s[i + 3] * 0x1000000 + s[i + 2] * 0x10000 + s[i + 1] * 0x100 + s[i]
}

/// One byte at offset `off`.
pub fn read_u8(input: &[u8], off: usize) -> (r: u8)
    requires
        off < input.len(),
    ensures
        r == input@[off as int],
{
    input[off]
}

/// Big-endian `u16` at offset `off`.
pub fn read_u16_be(input: &[u8], off: usize) -> (r: u16)
    requires
        off + 2 <= input.len(),
    ensures
        r == u16_be(input@, off as int),
{
    (input[off] as u16) * 0x100 + (input[off + 1] as u16)
}

/// Big-endian 24-bit value at offset `off`, widened to `u32`.
pub fn read_u24_be(input: &[u8], off: usize) -> (r: u32)
    requires
        off + 3 <= input.len(),
    ensures
        r == u24_be(input@, off as int),
        r < 0x1000000,
{
    (input[off] as u32) * 0x10000 + (input[off + 1] as u32) * 0x100 + (input[off + 2] as u32)
}

/// Big-endian `u32` at offset `off`.
pub fn read_u32_be(input: &[u8], off: usize) -> (r: u32)
    requires
        off + 4 <= input.len(),
    ensures
        r == u32_be(input@, off as int),
{
    (input[off] as u32) * 0x1000000 + (input[off + 1] as u32) * 0x10000 + (input[off + 2] as u32)
        * 0x100 + (input[off + 3] as u32)
}

/// Big-endian `u64` at offset `off`.
pub fn read_u64_be(input: &[u8], off: usize) -> (r: u64)
    requires
        off + 8 <= input.len(),
    ensures
        r == u64_be(input@, off as int),
{
    let hi = read_u32_be(input, off);
    let lo = read_u32_be(input, off + 4);
    (hi as u64) * 0x100000000 + (lo as u64)
}

/// Little-endian `u16` at offset `off`.
pub fn read_u16_le(input: &[u8], off: usize) -> (r: u16)
    requires
        off + 2 <= input.len(),
    ensures
        r == u16_le(input@, off as int),
{
    (input[off + 1] as u16) * 0x100 + (input[off] as u16)
}

/// Little-endian 24-bit value at offset `off`, widened to `u32`.
pub fn read_u24_le(input: &[u8], off: usize) -> (r: u32)
    requires
        off + 3 <= input.len(),
    ensures
        r == u24_le(input@, off as int),
        r < 0x1000000,
{
    (input[off + 2] as u32) * 0x10000 + (input[off + 1] as u32) * 0x100 + (input[off] as u32)
}

/// Little-endian `u32` at offset `off`.
pub fn read_u32_le(input: &[u8], off: usize) -> (r: u32)
    requires
        off + 4 <= input.len(),
    ensures
        r == u32_le(input@, off as int),
{
    (input[off + 3] as u32) * 0x1000000 + (input[off + 2] as u32) * 0x10000 + (input[off + 1]
        as u32) * 0x100 + (input[off] as u32)
}

/// Copies `len` bytes starting at `off` out of the buffer.
pub fn read_bytes(input: &[u8], off: usize, len: usize) -> (r: Vec<u8>)
    requires
        off + len <= input.len(),
    ensures
        r@ == input@.subrange(off as int, off + len),
{
    let mut out: Vec<u8> = Vec::new();
    let mut i: usize = 0;
    while i < len
        invariant
            i <= len,
            off + len <= input.len(),
            out@ == input@.subrange(off as int, off + i),
        decreases len - i,
    {
        out.push(input[off + i]);
        i = i + 1;
        proof {
            assert(out@ =~= input@.subrange(off as int, off + i));
        }
    }
    out
}

/// Length of the run of non-zero bytes at `off`, capped at `max`: the string
/// length of a NUL-padded field.
pub open spec fn nul_run_len(s: Seq<u8>, off: int, max: int) -> int
    decreases max,
{
    if max <= 0 {
        0
    } else if s[off] == 0 {
        0
    } else {
        1 + nul_run_len(s, off + 1, max - 1)
    }
}

pub proof fn lemma_nul_run_len_bounds(s: Seq<u8>, off: int, max: int)
    requires
        max >= 0,
    ensures
        0 <= nul_run_len(s, off, max) <= max,
    decreases max,
{
    if max > 0 && s[off] != 0 {
        lemma_nul_run_len_bounds(s, off + 1, max - 1);
    }
}

/// The bytes of a NUL-padded field of `max` bytes at `off`: everything before
/// the first NUL, or the whole field if no byte is NUL.
pub open spec fn padded_bytes(s: Seq<u8>, off: int, max: int) -> Seq<u8> {
    s.subrange(off, off + nul_run_len(s, off, max))
}

/// Reads a NUL-padded byte string of at most `max` bytes at `off`.
pub fn read_padded_bytes(input: &[u8], off: usize, max: usize) -> (r: Vec<u8>)
    requires
        off + max <= input.len(),
    ensures
        r@ == padded_bytes(input@, off as int, max as int),
        r@.len() <= max,
{
    proof {
        lemma_nul_run_len_bounds(input@, off as int, max as int);
    }
    let mut n: usize = 0;
    while n < max && input[off + n] != 0
        invariant
            n <= max,
            off + max <= input.len(),
            nul_run_len(input@, off as int, max as int) == n + nul_run_len(
                input@,
                off + n,
                max - n,
            ),
        decreases max - n,
    {
        n = n + 1;
    }
    proof {
        assert(nul_run_len(input@, off as int, max as int) == n);
    }
    read_bytes(input, off, n)
}

/// The big-endian 16-bit units of a UTF-16 field: `count` units at `off`.
pub open spec fn utf16_units(s: Seq<u8>, off: int, count: int) -> Seq<u16> {
    Seq::new(count as nat, |k: int| u16_be(s, off + 2 * k) as u16)
}

/// Number of units before the terminating zero unit of a UTF-16 string of at
/// most `max_units` units at `off`, or `max_units` if no unit is zero.
pub open spec fn cstr16_len(s: Seq<u8>, off: int, max_units: int) -> int
    decreases max_units,
{
    if max_units <= 0 {
        0
    } else if u16_be(s, off) == 0 {
        0
    } else {
        1 + cstr16_len(s, off + 2, max_units - 1)
    }
}

pub proof fn lemma_cstr16_len_bounds(s: Seq<u8>, off: int, max_units: int)
    requires
        max_units >= 0,
    ensures
        0 <= cstr16_len(s, off, max_units) <= max_units,
    decreases max_units,
{
    if max_units > 0 && u16_be(s, off) != 0 {
        lemma_cstr16_len_bounds(s, off + 2, max_units - 1);
    }
}

/// Whether the UTF-16 field of `max_units` units at `off` holds a zero unit:
/// only then is the string terminated.
pub open spec fn cstr16_terminated(s: Seq<u8>, off: int, max_units: int) -> bool {
    cstr16_len(s, off, max_units) < max_units
}

/// Reads a NUL-terminated string of big-endian UTF-16 units at `off`, within
/// a region of `max_units` units.  A field without a terminator is refused.
pub fn read_utf16_cstr(input: &[u8], off: usize, max_units: usize) -> (r: Result<
    Vec<u16>,
    crate::errors::StfsError,
>)
    requires
        off + 2 * max_units <= input.len(),
    ensures
        match r {
            Ok(units) => {
                &&& cstr16_terminated(input@, off as int, max_units as int)
                &&& units@ == utf16_units(
                    input@,
                    off as int,
                    cstr16_len(input@, off as int, max_units as int),
                )
            },
            Err(e) => {
                &&& e == crate::errors::StfsError::InvalidHeader
                &&& !cstr16_terminated(input@, off as int, max_units as int)
            },
        },
{
    proof {
        lemma_cstr16_len_bounds(input@, off as int, max_units as int);
    }
    let mut n: usize = 0;
    while n < max_units && read_u16_be(input, off + 2 * n) != 0
        invariant
            n <= max_units,
            off + 2 * max_units <= input.len(),
            cstr16_len(input@, off as int, max_units as int) == n + cstr16_len(
                input@,
                off + 2 * n,
                max_units - n,
            ),
        decreases max_units - n,
    {
        n = n + 1;
    }
    proof {
        assert(cstr16_len(input@, off as int, max_units as int) == n);
    }
    if n == max_units {
        return Err(crate::errors::StfsError::InvalidHeader);
    }
    let mut out: Vec<u16> = Vec::new();
    let mut i: usize = 0;
    while i < n
        invariant
            i <= n,
            n < max_units,
            off + 2 * max_units <= input.len(),
            out@ == utf16_units(input@, off as int, i as int),
        decreases n - i,
    {
        out.push(read_u16_be(input, off + 2 * i));
        i = i + 1;
        proof {
            assert(out@ =~= utf16_units(input@, off as int, i as int));
        }
    }
    Ok(out)
}

} // verus!
