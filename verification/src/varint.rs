use vstd::prelude::*;

use crate::error::DecodeError;
use vstd::arithmetic::div_mod::{lemma_div_decreases, lemma_fundamental_div_mod};
use vstd::arithmetic::power2::{lemma2_to64, lemma2_to64_rest, lemma_pow2_adds, lemma_pow2_pos, pow2};

verus! {

/// Canonical variable-length encoding of an unsigned value: groups of seven
/// data bits, least-significant group first, with the high bit of every byte
/// but the last set as a continuation flag.
pub open spec fn varint_bytes(v: nat) -> Seq<u8>
    decreases v,
{
    if v < 128 {
        seq![v as u8]
    } else {
        seq![((v % 128) + 128) as u8] + varint_bytes(v / 128)
    }
}

/// What a decoder sees at the front of `t` when reading a variable-length
/// integer of at most `max` groups: the exact value and byte count consumed,
/// or the exact error. A chain of `max` continuation-flagged bytes is
/// malformed; a chain cut short by the end of `t` is a truncation.
pub open spec fn spec_read_varint(t: Seq<u8>, max: nat) -> Result<(nat, int), DecodeError>
    decreases max,
{
    if max == 0 {
        Err(DecodeError::MalformedVarInt)
    } else if t.len() == 0 {
        Err(DecodeError::UnexpectedEof)
    } else if t[0] < 128 {
        Ok((t[0] as nat, 1))
    } else {
        match spec_read_varint(t.drop_first(), (max - 1) as nat) {
            Ok(vn) => Ok((((t[0] - 128) as nat + 128 * vn.0), vn.1 + 1)),
            Err(e) => Err(e),
        }
    }
}

/// A successfully decoded chain of at most `max` groups carries fewer than
/// `7 * max` bits and consumed between one byte and `max` bytes of `t`.
pub proof fn lemma_spec_read_varint_bound(t: Seq<u8>, max: nat)
    ensures
        spec_read_varint(t, max) matches Ok(vn) ==> vn.0 < pow2(7 * max) && 1 <= vn.1 <= max
            && vn.1 <= t.len(),
    decreases max,
{
    if max > 0 && t.len() > 0 {
        if t[0] < 128 {
            lemma2_to64();
            lemma_pow2_adds(7, 7 * (max - 1) as nat);
            lemma_pow2_pos(7 * (max - 1) as nat);
            assert(pow2(7) <= pow2(7 * max));
        } else {
            lemma_spec_read_varint_bound(t.drop_first(), (max - 1) as nat);
            if let Ok(vn) = spec_read_varint(t.drop_first(), (max - 1) as nat) {
                lemma2_to64();
                lemma_pow2_adds(7, 7 * (max - 1) as nat);
                assert((t[0] - 128) as nat + 128 * vn.0 < 128 * pow2(7 * (max - 1) as nat))
                    by (nonlinear_arith)
                    requires
                        vn.0 < pow2(7 * (max - 1) as nat),
                        t[0] < 256,
                        128 <= t[0],
                ;
            }
        }
    }
}

/// Round trip at the spec level: a canonical encoding placed in front of any
/// trailing bytes decodes to exactly the encoded value, consuming exactly the
/// encoding's bytes.
pub proof fn lemma_varint_round_trip(v: nat, rest: Seq<u8>, max: nat)
    requires
        varint_bytes(v).len() <= max,
    ensures
        spec_read_varint(varint_bytes(v) + rest, max) == Ok::<(nat, int), DecodeError>(
            (v, varint_bytes(v).len() as int),
        ),
    decreases v,
{
    let t = varint_bytes(v) + rest;
    if v < 128 {
        assert(t[0] == v as u8);
    } else {
        assert(t[0] == ((v % 128) + 128) as u8);
        assert(t[0] >= 128);
        lemma_div_decreases(v as int, 128);
        lemma_varint_round_trip(v / 128, rest, (max - 1) as nat);
        assert(t.drop_first() =~= varint_bytes(v / 128) + rest);
        lemma_fundamental_div_mod(v as int, 128);
        assert((t[0] - 128) as nat + 128 * (v / 128) == v);
    }
}

/// The canonical encoding of a value below `2^(7 * k)` takes at most `k`
/// groups; in particular a 32-bit value takes at most five bytes and a 64-bit
/// value at most ten.
pub proof fn lemma_varint_bytes_len(v: nat, k: nat)
    requires
        k >= 1,
        v < pow2(7 * k),
    ensures
        varint_bytes(v).len() <= k,
    decreases v,
{
    if v >= 128 {
        lemma_pow2_adds(7, 7 * (k - 1) as nat);
        lemma2_to64();
        assert(v / 128 < pow2(7 * (k - 1) as nat)) by (nonlinear_arith)
            requires
                v < 128 * pow2(7 * (k - 1) as nat),
        ;
        lemma_div_decreases(v as int, 128);
        lemma_varint_bytes_len(v / 128, (k - 1) as nat);
    }
}

/// Reads one variable-length chain of at most `max` groups, exactly as
/// `spec_read_varint` describes, returning the mathematically exact value.
fn read_varint_raw(data: &[u8], pos: &mut usize, max: u8) -> (r: Result<u128, DecodeError>)
    requires
        *old(pos) <= data@.len(),
        max <= 10,
    ensures
        *old(pos) <= *final(pos) <= data@.len(),
        match spec_read_varint(data@.skip(*old(pos) as int), max as nat) {
            Ok(vn) => r == Ok::<u128, DecodeError>(vn.0 as u128) && *final(pos) == *old(pos)
                + vn.1,
            Err(e) => r == Err::<u128, DecodeError>(e),
        },
    decreases max,
{
    let ghost t = data@.skip(*old(pos) as int);
    if max == 0 {
        return Err(DecodeError::MalformedVarInt);
    }
    if *pos >= data.len() {
        return Err(DecodeError::UnexpectedEof);
    }
    let b = data[*pos];
    *pos = *pos + 1;
    proof {
        assert(t[0] == b);
    }
    if b < 128 {
        Ok(b as u128)
    } else {
        let ghost t1 = data@.skip(*pos as int);
        proof {
            assert(t[0] == b);
            assert(t1 =~= t.drop_first());
        }
        match read_varint_raw(data, pos, max - 1) {
            Ok(v) => {
                proof {
                    lemma_spec_read_varint_bound(t1, (max - 1) as nat);
                    lemma_pow2_le(7 * ((max - 1) as nat), 63);
                    lemma2_to64_rest();
                    assert(v < 0x8000_0000_0000_0000);
                }
                Ok(((b - 128) as u128) + 128 * v)
            },
            Err(e) => Err(e),
        }
    }
}

/// Monotonicity of `pow2`, in the non-strict form the varint bounds need.
proof fn lemma_pow2_le(e1: nat, e2: nat)
    requires
        e1 <= e2,
    ensures
        pow2(e1) <= pow2(e2),
{
    if e1 < e2 {
        vstd::arithmetic::power2::lemma_pow2_strictly_increases(e1, e2);
    }
}

/// Reads a 32-bit unsigned variable-length integer: at most five groups. A
/// non-canonical fifth group carrying more than 32 bits wraps modulo `2^32`,
/// the same truncation the fixed bit width imposes.
pub fn read_varint_u32(data: &[u8], pos: &mut usize) -> (r: Result<u32, DecodeError>)
    requires
        *old(pos) <= data@.len(),
    ensures
        *old(pos) <= *final(pos) <= data@.len(),
        match spec_read_varint(data@.skip(*old(pos) as int), 5) {
            Ok(vn) => r == Ok::<u32, DecodeError>((vn.0 % 0x1_0000_0000) as u32) && *final(pos)
                == *old(pos) + vn.1,
            Err(e) => r == Err::<u32, DecodeError>(e),
        },
{
    proof {
        lemma_spec_read_varint_bound(data@.skip(*old(pos) as int), 5);
        lemma2_to64();
        lemma2_to64_rest();
    }
    match read_varint_raw(data, pos, 5) {
        Ok(v) => Ok((v % 0x1_0000_0000) as u32),
        Err(e) => Err(e),
    }
}

/// Reads a 64-bit unsigned variable-length integer: at most ten groups, with
/// the same wrap-on-overflow policy as the 32-bit form.
pub fn read_varint_u64(data: &[u8], pos: &mut usize) -> (r: Result<u64, DecodeError>)
    requires
        *old(pos) <= data@.len(),
    ensures
        *old(pos) <= *final(pos) <= data@.len(),
        match spec_read_varint(data@.skip(*old(pos) as int), 10) {
            Ok(vn) => r == Ok::<u64, DecodeError>(
                (vn.0 % 0x1_0000_0000_0000_0000) as u64,
            ) && *final(pos) == *old(pos) + vn.1,
            Err(e) => r == Err::<u64, DecodeError>(e),
        },
{
    proof {
        lemma_spec_read_varint_bound(data@.skip(*old(pos) as int), 10);
        lemma_pow2_le(70, 127);
        lemma_pow2_adds(63, 7);
        lemma2_to64();
        lemma2_to64_rest();
    }
    match read_varint_raw(data, pos, 10) {
        Ok(v) => Ok((v % 0x1_0000_0000_0000_0000) as u64),
        Err(e) => Err(e),
    }
}

/// Reads a signed 32-bit variable-length integer by reinterpreting the
/// unsigned bit pattern as two's complement.
pub fn read_varint_i32(data: &[u8], pos: &mut usize) -> (r: Result<i32, DecodeError>)
    requires
        *old(pos) <= data@.len(),
    ensures
        *old(pos) <= *final(pos) <= data@.len(),
        match spec_read_varint(data@.skip(*old(pos) as int), 5) {
            Ok(vn) => r == Ok::<i32, DecodeError>(((vn.0 % 0x1_0000_0000) as u32) as i32)
                && *final(pos) == *old(pos) + vn.1,
            Err(e) => r == Err::<i32, DecodeError>(e),
        },
{
    match read_varint_u32(data, pos) {
        Ok(v) => Ok(v as i32),
        Err(e) => Err(e),
    }
}

/// Reads a signed 64-bit variable-length integer by reinterpreting the
/// unsigned bit pattern as two's complement.
pub fn read_varint_i64(data: &[u8], pos: &mut usize) -> (r: Result<i64, DecodeError>)
    requires
        *old(pos) <= data@.len(),
    ensures
        *old(pos) <= *final(pos) <= data@.len(),
        match spec_read_varint(data@.skip(*old(pos) as int), 10) {
            Ok(vn) => r == Ok::<i64, DecodeError>(
                ((vn.0 % 0x1_0000_0000_0000_0000) as u64) as i64,
            ) && *final(pos) == *old(pos) + vn.1,
            Err(e) => r == Err::<i64, DecodeError>(e),
        },
{
    match read_varint_u64(data, pos) {
        Ok(v) => Ok(v as i64),
        Err(e) => Err(e),
    }
}

/// Appends the canonical variable-length encoding of `v`.
pub fn write_varint_u64(v: u64, buf: &mut Vec<u8>)
    ensures
        final(buf)@ == old(buf)@ + varint_bytes(v as nat),
    decreases v,
{
    if v < 128 {
        buf.push(v as u8);
        proof {
            assert(buf@ =~= old(buf)@ + varint_bytes(v as nat));
        }
    } else {
        let ghost before = buf@;
        buf.push(((v % 128) + 128) as u8);
        proof {
            lemma_div_decreases(v as int, 128);
        }
        write_varint_u64(v / 128, buf);
        proof {
            assert(buf@ =~= before + varint_bytes(v as nat));
        }
    }
}

/// Appends the canonical variable-length encoding of a 32-bit value.
pub fn write_varint_u32(v: u32, buf: &mut Vec<u8>)
    ensures
        final(buf)@ == old(buf)@ + varint_bytes(v as nat),
{
    write_varint_u64(v as u64, buf);
}

/// Appends the variable-length encoding of a signed 64-bit value as its
/// unsigned two's-complement bit pattern.
pub fn write_varint_i64(v: i64, buf: &mut Vec<u8>)
    ensures
        final(buf)@ == old(buf)@ + varint_bytes((v as u64) as nat),
{
    write_varint_u64(v as u64, buf);
}

/// Appends the variable-length encoding of a signed 32-bit value as its
/// unsigned two's-complement bit pattern.
pub fn write_varint_i32(v: i32, buf: &mut Vec<u8>)
    ensures
        final(buf)@ == old(buf)@ + varint_bytes((v as u32) as nat),
{
    write_varint_u32(v as u32, buf);
}

} // verus!
