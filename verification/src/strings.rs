use vstd::prelude::*;

use crate::error::{DecodeError, EncodeError};
use crate::varint::{
    lemma_varint_bytes_len, lemma_varint_round_trip, spec_read_varint, varint_bytes,
    write_varint_u32,
};
use vstd::arithmetic::power2::{lemma2_to64, lemma2_to64_rest};
use vstd::utf8::{
    decode_utf8, encode_scalar, encode_utf8, encode_utf8_decode_utf8, encode_utf8_valid_utf8,
    valid_utf8,
};

verus! {

/// Wire form of a string field: the UTF-8 byte length as a variable-length
/// unsigned integer, then the UTF-8 bytes themselves.
pub open spec fn string_wire(s: Seq<char>) -> Seq<u8> {
    varint_bytes(encode_utf8(s).len()) + encode_utf8(s)
}

/// What a decoder sees at the front of `t` when reading a string field
/// bounded at `max_chars` characters: the exact characters and bytes
/// consumed, or the exact error. The byte length is rejected when it exceeds
/// four bytes per allowed character, before any payload is touched.
pub open spec fn spec_read_string(t: Seq<u8>, max_chars: nat) -> Result<
    (Seq<char>, int),
    DecodeError,
> {
    match spec_read_varint(t, 5) {
        Err(e) => Err(e),
        Ok(vn) => {
            let len = vn.0 % 0x1_0000_0000;
            if len > 4 * max_chars {
                Err(DecodeError::StringTooLong)
            } else if t.len() < vn.1 + len {
                Err(DecodeError::UnexpectedEof)
            } else if !valid_utf8(t.subrange(vn.1, vn.1 + len)) {
                Err(DecodeError::InvalidUtf8)
            } else {
                Ok((decode_utf8(t.subrange(vn.1, vn.1 + len)), vn.1 + len))
            }
        },
    }
}

/// A UTF-8 encoding spends at most four bytes per character.
pub proof fn lemma_encode_utf8_len(s: Seq<char>)
    ensures
        encode_utf8(s).len() <= 4 * s.len(),
    decreases s.len(),
{
    if s.len() > 0 {
        lemma_encode_utf8_len(s.drop_first());
        assert(encode_scalar(s[0] as u32).len() <= 4);
    }
}

/// Round trip of the string codec at the spec level: a string whose UTF-8
/// form fits both the character bound and the length prefix reads back
/// exactly, consuming exactly its wire bytes.
pub proof fn lemma_string_round_trip(s: Seq<char>, rest: Seq<u8>, max_chars: nat)
    requires
        encode_utf8(s).len() <= 4 * max_chars,
        encode_utf8(s).len() <= 0xFFFF_FFFF,
    ensures
        spec_read_string(string_wire(s) + rest, max_chars) == Ok::<(Seq<char>, int), DecodeError>(
            (s, string_wire(s).len() as int),
        ),
{
    let bytes = encode_utf8(s);
    let t = string_wire(s) + rest;
    assert(t =~= varint_bytes(bytes.len()) + (bytes + rest));
    lemma2_to64();
    lemma2_to64_rest();
    lemma_varint_bytes_len(bytes.len(), 5);
    lemma_varint_round_trip(bytes.len(), bytes + rest, 5);
    let n = varint_bytes(bytes.len()).len() as int;
    assert(t.subrange(n, n + bytes.len()) =~= bytes);
    encode_utf8_valid_utf8(s);
    encode_utf8_decode_utf8(s);
}

/// Relies on `String::from_utf8`: it succeeds exactly on valid UTF-8 input
/// and returns the string whose UTF-8 encoding is the given bytes.
#[verifier::external_body]
fn string_from_utf8(bytes: Vec<u8>) -> (r: Option<String>)
    ensures
        r matches Some(s) ==> encode_utf8(s@) == bytes@,
        r is Some <==> valid_utf8(bytes@),
{
    match String::from_utf8(bytes) {
        Ok(s) => Some(s),
        Err(_) => None,
    }
}

/// Reads a length-prefixed UTF-8 string bounded at `max_chars` characters,
/// exactly as `spec_read_string` describes. An oversize length prefix is
/// rejected before any payload byte is consumed.
pub fn read_utf_with_len(data: &[u8], pos: &mut usize, max_chars: u32) -> (r: Result<
    String,
    DecodeError,
>)
    requires
        *old(pos) <= data@.len(),
    ensures
        *old(pos) <= *final(pos) <= data@.len(),
        match spec_read_string(data@.skip(*old(pos) as int), max_chars as nat) {
            Ok(sn) => r matches Ok(s) && s@ == sn.0 && *final(pos) == *old(pos) + sn.1,
            Err(e) => r == Err::<String, DecodeError>(e),
        },
{
    let ghost t = data@.skip(*old(pos) as int);
    let len = match crate::varint::read_varint_u32(data, pos) {
        Ok(v) => v,
        Err(e) => {
            return Err(e);
        },
    };
    let ghost vn = spec_read_varint(t, 5)->Ok_0;
    if (len as u64) > 4 * (max_chars as u64) {
        return Err(DecodeError::StringTooLong);
    }
    if data.len() - *pos < len as usize {
        return Err(DecodeError::UnexpectedEof);
    }
    let ghost start = *pos as int;
    let mut bytes: Vec<u8> = Vec::new();
    let mut i: usize = 0;
    proof {
        assert(bytes@ =~= t.subrange(vn.1, vn.1 + 0));
    }
    while i < len as usize
        invariant
            0 <= i <= len,
            *old(pos) <= data@.len(),
            spec_read_varint(t, 5) == Ok::<(nat, int), DecodeError>(vn),
            0 <= vn.1,
            len as nat == vn.0 % 0x1_0000_0000,
            start == *old(pos) + vn.1,
            *pos == start + i,
            start + len <= data@.len(),
            t == data@.skip(*old(pos) as int),
            bytes@ =~= t.subrange(vn.1, vn.1 + i),
        decreases len as usize - i,
    {
        let b = data[*pos];
        proof {
            assert(t[vn.1 + i] == data@[start + i]);
        }
        bytes.push(b);
        *pos = *pos + 1;
        i = i + 1;
        proof {
            assert(bytes@ =~= t.subrange(vn.1, vn.1 + i));
        }
    }
    match string_from_utf8(bytes) {
        Some(s) => {
            proof {
                encode_utf8_decode_utf8(s@);
            }
            Ok(s)
        },
        None => Err(DecodeError::InvalidUtf8),
    }
}

/// Appends the wire form of a string field: the UTF-8 byte length as a
/// variable-length integer, then the bytes. Fails, appending nothing, only
/// when the byte length cannot be carried by the 32-bit length prefix.
pub fn write_utf(s: &str, buf: &mut Vec<u8>) -> (r: Result<(), EncodeError>)
    ensures
        r is Ok <==> encode_utf8(s@).len() <= 0xFFFF_FFFF,
        r is Ok ==> final(buf)@ == old(buf)@ + string_wire(s@),
        r is Err ==> final(buf)@ == old(buf)@,
{
    let bytes = s.as_bytes();
    if bytes.len() > 0xFFFF_FFFF {
        return Err(EncodeError::StringTooLong);
    }
    write_varint_u32(bytes.len() as u32, buf);
    let ghost mid = buf@;
    let mut i: usize = 0;
    while i < bytes.len()
        invariant
            0 <= i <= bytes@.len(),
            bytes@ == encode_utf8(s@),
            buf@ =~= mid + bytes@.subrange(0, i as int),
        decreases bytes@.len() - i,
    {
        buf.push(bytes[i]);
        i = i + 1;
        proof {
            assert(buf@ =~= mid + bytes@.subrange(0, i as int));
        }
    }
    proof {
        assert(bytes@.subrange(0, bytes@.len() as int) =~= bytes@);
        assert(buf@ =~= old(buf)@ + string_wire(s@));
    }
    Ok(())
}

} // verus!
