use vstd::prelude::*;

use crate::error::DecodeError;
use vstd::arithmetic::div_mod::lemma_fundamental_div_mod;
use vstd::arithmetic::power2::{lemma2_to64, lemma2_to64_rest, lemma_pow2_adds, pow2};

verus! {

/// Big-endian bytes of an unsigned value in exactly `n` bytes; a value too
/// wide for `n` bytes loses its high bits, matching fixed-width truncation.
pub open spec fn be_bytes(v: nat, n: nat) -> Seq<u8>
    decreases n,
{
    if n == 0 {
        seq![]
    } else {
        be_bytes(v / 256, (n - 1) as nat) + seq![(v % 256) as u8]
    }
}

/// The unsigned value of a big-endian byte sequence.
pub open spec fn be_val(s: Seq<u8>) -> nat
    decreases s.len(),
{
    if s.len() == 0 {
        0
    } else {
        be_val(s.drop_last()) * 256 + s.last() as nat
    }
}

/// What a decoder sees at the front of `t` when reading an `n`-byte
/// fixed-width field: the exact value, or a truncation error, with the
/// position left unchanged on failure.
pub open spec fn spec_read_be(t: Seq<u8>, n: nat) -> Result<(nat, int), DecodeError> {
    if t.len() < n {
        Err(DecodeError::UnexpectedEof)
    } else {
        Ok((be_val(t.subrange(0, n as int)), n as int))
    }
}

/// `be_bytes` always yields exactly `n` bytes.
pub proof fn lemma_be_bytes_len(v: nat, n: nat)
    ensures
        be_bytes(v, n).len() == n,
    decreases n,
{
    if n > 0 {
        lemma_be_bytes_len(v / 256, (n - 1) as nat);
    }
}

/// Round trip of the fixed-width codec at the spec level: a value below
/// `2^(8n)` written in `n` big-endian bytes reads back exactly.
pub proof fn lemma_be_round_trip(v: nat, n: nat, rest: Seq<u8>)
    requires
        v < pow2(8 * n),
    ensures
        spec_read_be(be_bytes(v, n) + rest, n) == Ok::<(nat, int), DecodeError>((v, n as int)),
    decreases n,
{
    lemma_be_bytes_len(v, n);
    let t = be_bytes(v, n) + rest;
    assert(t.subrange(0, n as int) =~= be_bytes(v, n));
    lemma_be_val_of_be_bytes(v, n);
}

/// `be_val` inverts `be_bytes` on values that fit the width.
pub proof fn lemma_be_val_of_be_bytes(v: nat, n: nat)
    requires
        v < pow2(8 * n),
    ensures
        be_val(be_bytes(v, n)) == v,
    decreases n,
{
    if n == 0 {
        lemma2_to64();
    } else {
        lemma_pow2_adds(8, 8 * (n - 1) as nat);
        lemma2_to64();
        assert(v / 256 < pow2(8 * (n - 1) as nat)) by (nonlinear_arith)
            requires
                v < 256 * pow2(8 * (n - 1) as nat),
        ;
        lemma_be_val_of_be_bytes(v / 256, (n - 1) as nat);
        let s = be_bytes(v, n);
        lemma_be_bytes_len(v, n);
        lemma_be_bytes_len(v / 256, (n - 1) as nat);
        assert(s =~= be_bytes(v / 256, (n - 1) as nat) + seq![(v % 256) as u8]);
        assert(s.drop_last() =~= be_bytes(v / 256, (n - 1) as nat));
        assert(s.last() == (v % 256) as u8);
        lemma_fundamental_div_mod(v as int, 256);
    }
}

/// A decoded `n`-byte big-endian value is below `2^(8n)`.
pub proof fn lemma_be_val_bound(s: Seq<u8>)
    ensures
        be_val(s) < pow2(8 * s.len()),
    decreases s.len(),
{
    if s.len() == 0 {
        lemma2_to64();
    } else {
        lemma_be_val_bound(s.drop_last());
        lemma_pow2_adds(8 * (s.len() - 1) as nat, 8);
        lemma2_to64();
        assert(be_val(s.drop_last()) * 256 + s.last() < pow2(8 * (s.len() - 1) as nat) * 256)
            by (nonlinear_arith)
            requires
                be_val(s.drop_last()) < pow2(8 * (s.len() - 1) as nat),
                s.last() < 256,
        ;
    }
}

/// Reads an `n`-byte big-endian unsigned value, exactly as `spec_read_be`
/// describes; the position does not move on a short source.
fn read_be(data: &[u8], pos: &mut usize, n: usize) -> (r: Result<u64, DecodeError>)
    requires
        *old(pos) <= data@.len(),
        n <= 8,
    ensures
        *old(pos) <= *final(pos) <= data@.len(),
        match spec_read_be(data@.skip(*old(pos) as int), n as nat) {
            Ok(vn) => r == Ok::<u64, DecodeError>(vn.0 as u64) && *final(pos) == *old(pos) + vn.1,
            Err(e) => r == Err::<u64, DecodeError>(e) && *final(pos) == *old(pos),
        },
{
    let ghost t = data@.skip(*old(pos) as int);
    if data.len() - *pos < n {
        return Err(DecodeError::UnexpectedEof);
    }
    let mut acc: u64 = 0;
    let mut i: usize = 0;
    proof {
        lemma2_to64();
        assert(t.subrange(0, 0) =~= Seq::<u8>::empty());
    }
    while i < n
        invariant
            *old(pos) + n <= data@.len(),
            n <= 8,
            0 <= i <= n,
            *pos == *old(pos) + i,
            t == data@.skip(*old(pos) as int),
            acc == be_val(t.subrange(0, i as int)),
            acc < pow2(8 * i as nat),
        decreases n - i,
    {
        proof {
            lemma_pow2_adds(8 * i as nat, 8);
            lemma2_to64();
            lemma2_to64_rest();
            lemma_pow2_le(8 * i as nat, 56);
            assert(acc * 256 + 255 < pow2(8 * i as nat) * 256) by (nonlinear_arith)
                requires
                    acc < pow2(8 * i as nat),
            ;
            assert(pow2(8 * i as nat) * 256 <= pow2(56) * 256) by (nonlinear_arith)
                requires
                    pow2(8 * i as nat) <= pow2(56),
            ;
        }
        let b = data[*pos];
        acc = acc * 256 + (b as u64);
        *pos = *pos + 1;
        i = i + 1;
        proof {
            assert(t.subrange(0, i as int).drop_last() =~= t.subrange(0, i - 1));
            assert(t.subrange(0, i as int).last() == b);
        }
    }
    proof {
        lemma_be_val_bound(t.subrange(0, n as int));
        lemma_pow2_le(8 * n as nat, 64);
        lemma2_to64();
        lemma2_to64_rest();
    }
    Ok(acc)
}

/// Monotonicity of `pow2`, in the non-strict form the width bounds need.
proof fn lemma_pow2_le(e1: nat, e2: nat)
    requires
        e1 <= e2,
    ensures
        pow2(e1) <= pow2(e2),
{
    if e1 < e2 {
        vstd::arithmetic::power2::lemma_pow2_strictly_increases(e1, e2);
    }
}

/// Appends the `n` big-endian bytes of `v`; high bits beyond `8n` are lost.
fn write_be(v: u64, n: usize, buf: &mut Vec<u8>)
    requires
        n <= 8,
    ensures
        final(buf)@ == old(buf)@ + be_bytes(v as nat, n as nat),
    decreases n,
{
    if n == 0 {
        proof {
            assert(buf@ =~= old(buf)@ + be_bytes(v as nat, 0));
        }
    } else {
        let ghost before = buf@;
        write_be(v / 256, n - 1, buf);
        buf.push((v % 256) as u8);
        proof {
            assert(buf@ =~= before + be_bytes(v as nat, n as nat));
        }
    }
}

/// Reads one byte as an unsigned 8-bit integer.
pub fn read_u8(data: &[u8], pos: &mut usize) -> (r: Result<u8, DecodeError>)
    requires
        *old(pos) <= data@.len(),
    ensures
        *old(pos) <= *final(pos) <= data@.len(),
        match spec_read_be(data@.skip(*old(pos) as int), 1) {
            Ok(vn) => r == Ok::<u8, DecodeError>(vn.0 as u8) && *final(pos) == *old(pos) + vn.1,
            Err(e) => r == Err::<u8, DecodeError>(e) && *final(pos) == *old(pos),
        },
{
    proof {
        lemma_be_val_bound_call(data@.skip(*old(pos) as int), 1);
        lemma2_to64();
    }
    match read_be(data, pos, 1) {
        Ok(v) => Ok(v as u8),
        Err(e) => Err(e),
    }
}

/// Reads two bytes as a big-endian unsigned 16-bit integer.
pub fn read_u16(data: &[u8], pos: &mut usize) -> (r: Result<u16, DecodeError>)
    requires
        *old(pos) <= data@.len(),
    ensures
        *old(pos) <= *final(pos) <= data@.len(),
        match spec_read_be(data@.skip(*old(pos) as int), 2) {
            Ok(vn) => r == Ok::<u16, DecodeError>(vn.0 as u16) && *final(pos) == *old(pos) + vn.1,
            Err(e) => r == Err::<u16, DecodeError>(e) && *final(pos) == *old(pos),
        },
{
    proof {
        lemma_be_val_bound_call(data@.skip(*old(pos) as int), 2);
        lemma2_to64();
    }
    match read_be(data, pos, 2) {
        Ok(v) => Ok(v as u16),
        Err(e) => Err(e),
    }
}

/// Reads four bytes as a big-endian unsigned 32-bit integer.
pub fn read_u32(data: &[u8], pos: &mut usize) -> (r: Result<u32, DecodeError>)
    requires
        *old(pos) <= data@.len(),
    ensures
        *old(pos) <= *final(pos) <= data@.len(),
        match spec_read_be(data@.skip(*old(pos) as int), 4) {
            Ok(vn) => r == Ok::<u32, DecodeError>(vn.0 as u32) && *final(pos) == *old(pos) + vn.1,
            Err(e) => r == Err::<u32, DecodeError>(e) && *final(pos) == *old(pos),
        },
{
    proof {
        lemma_be_val_bound_call(data@.skip(*old(pos) as int), 4);
        lemma2_to64();
    }
    match read_be(data, pos, 4) {
        Ok(v) => Ok(v as u32),
        Err(e) => Err(e),
    }
}

/// Reads eight bytes as a big-endian unsigned 64-bit integer.
pub fn read_u64(data: &[u8], pos: &mut usize) -> (r: Result<u64, DecodeError>)
    requires
        *old(pos) <= data@.len(),
    ensures
        *old(pos) <= *final(pos) <= data@.len(),
        match spec_read_be(data@.skip(*old(pos) as int), 8) {
            Ok(vn) => r == Ok::<u64, DecodeError>(vn.0 as u64) && *final(pos) == *old(pos) + vn.1,
            Err(e) => r == Err::<u64, DecodeError>(e) && *final(pos) == *old(pos),
        },
{
    read_be(data, pos, 8)
}

/// Reads four bytes as a big-endian signed 32-bit integer: the unsigned bit
/// pattern reinterpreted as two's complement.
pub fn read_i32(data: &[u8], pos: &mut usize) -> (r: Result<i32, DecodeError>)
    requires
        *old(pos) <= data@.len(),
    ensures
        *old(pos) <= *final(pos) <= data@.len(),
        match spec_read_be(data@.skip(*old(pos) as int), 4) {
            Ok(vn) => r == Ok::<i32, DecodeError>((vn.0 as u32) as i32) && *final(pos) == *old(
                pos,
            ) + vn.1,
            Err(e) => r == Err::<i32, DecodeError>(e) && *final(pos) == *old(pos),
        },
{
    match read_u32(data, pos) {
        Ok(v) => Ok(v as i32),
        Err(e) => Err(e),
    }
}

/// Reads one byte as a signed 8-bit integer: the unsigned bit pattern
/// reinterpreted as two's complement.
pub fn read_i8(data: &[u8], pos: &mut usize) -> (r: Result<i8, DecodeError>)
    requires
        *old(pos) <= data@.len(),
    ensures
        *old(pos) <= *final(pos) <= data@.len(),
        match spec_read_be(data@.skip(*old(pos) as int), 1) {
            Ok(vn) => r == Ok::<i8, DecodeError>((vn.0 as u8) as i8) && *final(pos) == *old(pos)
                + vn.1,
            Err(e) => r == Err::<i8, DecodeError>(e) && *final(pos) == *old(pos),
        },
{
    match read_u8(data, pos) {
        Ok(v) => Ok(v as i8),
        Err(e) => Err(e),
    }
}

/// Reads two bytes as a big-endian signed 16-bit integer: the unsigned bit
/// pattern reinterpreted as two's complement.
pub fn read_i16(data: &[u8], pos: &mut usize) -> (r: Result<i16, DecodeError>)
    requires
        *old(pos) <= data@.len(),
    ensures
        *old(pos) <= *final(pos) <= data@.len(),
        match spec_read_be(data@.skip(*old(pos) as int), 2) {
            Ok(vn) => r == Ok::<i16, DecodeError>((vn.0 as u16) as i16) && *final(pos) == *old(
                pos,
            ) + vn.1,
            Err(e) => r == Err::<i16, DecodeError>(e) && *final(pos) == *old(pos),
        },
{
    match read_u16(data, pos) {
        Ok(v) => Ok(v as i16),
        Err(e) => Err(e),
    }
}

/// Reads eight bytes as a big-endian signed 64-bit integer: the unsigned bit
/// pattern reinterpreted as two's complement.
pub fn read_i64(data: &[u8], pos: &mut usize) -> (r: Result<i64, DecodeError>)
    requires
        *old(pos) <= data@.len(),
    ensures
        *old(pos) <= *final(pos) <= data@.len(),
        match spec_read_be(data@.skip(*old(pos) as int), 8) {
            Ok(vn) => r == Ok::<i64, DecodeError>((vn.0 as u64) as i64) && *final(pos) == *old(
                pos,
            ) + vn.1,
            Err(e) => r == Err::<i64, DecodeError>(e) && *final(pos) == *old(pos),
        },
{
    match read_u64(data, pos) {
        Ok(v) => Ok(v as i64),
        Err(e) => Err(e),
    }
}

/// Fact used by the sized readers: a decoded `n`-byte value is below
/// `2^(8n)`, so the narrowing casts above are exact.
proof fn lemma_be_val_bound_call(t: Seq<u8>, n: nat)
    requires
        n <= 8,
    ensures
        spec_read_be(t, n) matches Ok(vn) ==> vn.0 < pow2(8 * n),
{
    if t.len() >= n {
        lemma_be_val_bound(t.subrange(0, n as int));
    }
}

/// Appends the single byte of an unsigned 8-bit integer.
pub fn write_u8(v: u8, buf: &mut Vec<u8>)
    ensures
        final(buf)@ == old(buf)@ + be_bytes(v as nat, 1),
{
    write_be(v as u64, 1, buf);
}

/// Appends the two big-endian bytes of an unsigned 16-bit integer.
pub fn write_u16(v: u16, buf: &mut Vec<u8>)
    ensures
        final(buf)@ == old(buf)@ + be_bytes(v as nat, 2),
{
    write_be(v as u64, 2, buf);
}

/// Appends the four big-endian bytes of an unsigned 32-bit integer.
pub fn write_u32(v: u32, buf: &mut Vec<u8>)
    ensures
        final(buf)@ == old(buf)@ + be_bytes(v as nat, 4),
{
    write_be(v as u64, 4, buf);
}

/// Appends the eight big-endian bytes of an unsigned 64-bit integer.
pub fn write_u64(v: u64, buf: &mut Vec<u8>)
    ensures
        final(buf)@ == old(buf)@ + be_bytes(v as nat, 8),
{
    write_be(v, 8, buf);
}

/// Appends the four big-endian bytes of a signed 32-bit integer's
/// two's-complement bit pattern.
pub fn write_i32(v: i32, buf: &mut Vec<u8>)
    ensures
        final(buf)@ == old(buf)@ + be_bytes((v as u32) as nat, 4),
{
    write_u32(v as u32, buf);
}

/// Appends the single byte of a signed 8-bit integer's two's-complement bit
/// pattern.
pub fn write_i8(v: i8, buf: &mut Vec<u8>)
    ensures
        final(buf)@ == old(buf)@ + be_bytes((v as u8) as nat, 1),
{
    write_u8(v as u8, buf);
}

/// Appends the two big-endian bytes of a signed 16-bit integer's
/// two's-complement bit pattern.
pub fn write_i16(v: i16, buf: &mut Vec<u8>)
    ensures
        final(buf)@ == old(buf)@ + be_bytes((v as u16) as nat, 2),
{
    write_u16(v as u16, buf);
}

/// Appends the eight big-endian bytes of a signed 64-bit integer's
/// two's-complement bit pattern.
pub fn write_i64(v: i64, buf: &mut Vec<u8>)
    ensures
        final(buf)@ == old(buf)@ + be_bytes((v as u64) as nat, 8),
{
    write_u64(v as u64, buf);
}

/// The wire form of a boolean: strict write, one byte, one for true.
pub open spec fn bool_byte(b: bool) -> u8 {
    if b {
        1
    } else {
        0
    }
}

/// What a decoder sees at the front of `t` when reading a boolean field:
/// lenient read, any nonzero byte counts as true.
pub open spec fn spec_read_bool(t: Seq<u8>) -> Result<(bool, int), DecodeError> {
    if t.len() < 1 {
        Err(DecodeError::UnexpectedEof)
    } else {
        Ok((t[0] != 0, 1))
    }
}

/// Reads one byte as a boolean, zero meaning false and anything else true.
pub fn read_bool(data: &[u8], pos: &mut usize) -> (r: Result<bool, DecodeError>)
    requires
        *old(pos) <= data@.len(),
    ensures
        *old(pos) <= *final(pos) <= data@.len(),
        match spec_read_bool(data@.skip(*old(pos) as int)) {
            Ok(vn) => r == Ok::<bool, DecodeError>(vn.0) && *final(pos) == *old(pos) + vn.1,
            Err(e) => r == Err::<bool, DecodeError>(e) && *final(pos) == *old(pos),
        },
{
    if *pos >= data.len() {
        return Err(DecodeError::UnexpectedEof);
    }
    let b = data[*pos];
    *pos = *pos + 1;
    Ok(b != 0)
}

/// Appends the strict one-byte encoding of a boolean.
pub fn write_bool(v: bool, buf: &mut Vec<u8>)
    ensures
        final(buf)@ == old(buf)@ + seq![bool_byte(v)],
{
    if v {
        buf.push(1);
    } else {
        buf.push(0);
    }
    proof {
        assert(buf@ =~= old(buf)@ + seq![bool_byte(v)]);
    }
}

} // verus!
