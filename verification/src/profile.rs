use vstd::prelude::*;

use crate::error::DecodeError;
use crate::mc_buf::{be_bytes, read_u32, write_u32};
use vstd::arithmetic::div_mod::{lemma_div_denominator, lemma_fundamental_div_mod};

verus! {

/// A 128-bit identifier, held as its raw bit pattern.
#[derive(Clone, Copy, Debug, PartialEq, Eq, Structural)]
pub struct Uuid {
    pub raw: u128,
}

/// A 128-bit identifier rebuilt from its four 32-bit words, most significant
/// word first — the order the wire form uses.
pub open spec fn uuid_from_words(w0: u32, w1: u32, w2: u32, w3: u32) -> u128 {
    ((w0 as u128) * 0x1_0000_0000_0000_0000_0000_0000 + (w1 as u128) * 0x1_0000_0000_0000_0000 + (
    w2 as u128) * 0x1_0000_0000 + (w3 as u128)) as u128
}

impl Uuid {
    /// Most significant 32-bit word.
    pub open spec fn spec_word0(self) -> u32 {
        (self.raw / 0x1_0000_0000_0000_0000_0000_0000) as u32
    }

    /// Second 32-bit word.
    pub open spec fn spec_word1(self) -> u32 {
        ((self.raw / 0x1_0000_0000_0000_0000) % 0x1_0000_0000) as u32
    }

    /// Third 32-bit word.
    pub open spec fn spec_word2(self) -> u32 {
        ((self.raw / 0x1_0000_0000) % 0x1_0000_0000) as u32
    }

    /// Least significant 32-bit word.
    pub open spec fn spec_word3(self) -> u32 {
        (self.raw % 0x1_0000_0000) as u32
    }

    /// Splits the identifier into its four 32-bit words, most significant
    /// first.
    pub fn to_int_array(&self) -> (r: [u32; 4])
        ensures
            r@ == seq![
                self.spec_word0(),
                self.spec_word1(),
                self.spec_word2(),
                self.spec_word3(),
            ],
    {
        proof {
            assert(self.raw / 0x1_0000_0000_0000_0000_0000_0000 < 0x1_0000_0000)
                by (nonlinear_arith)
                requires
                    self.raw <= u128::MAX,
            ;
        }
        let r = [
            (self.raw / 0x1_0000_0000_0000_0000_0000_0000) as u32,
            ((self.raw / 0x1_0000_0000_0000_0000) % 0x1_0000_0000) as u32,
            ((self.raw / 0x1_0000_0000) % 0x1_0000_0000) as u32,
            (self.raw % 0x1_0000_0000) as u32,
        ];
        proof {
            assert(r@ =~= seq![
                self.spec_word0(),
                self.spec_word1(),
                self.spec_word2(),
                self.spec_word3(),
            ]);
        }
        r
    }

    /// Rebuilds an identifier from its four 32-bit words, most significant
    /// first.
    pub fn from_int_array(words: [u32; 4]) -> (r: Uuid)
        ensures
            r.raw == uuid_from_words(words[0], words[1], words[2], words[3]),
    {
        Uuid {
            raw: (words[0] as u128) * 0x1_0000_0000_0000_0000_0000_0000 + (words[1] as u128)
                * 0x1_0000_0000_0000_0000 + (words[2] as u128) * 0x1_0000_0000 + (
            words[3] as u128),
        }
    }
}

/// Splitting an identifier into its four words and rebuilding from them gives
/// the identical identifier back.
pub proof fn lemma_uuid_words_round_trip(u: Uuid)
    ensures
        uuid_from_words(u.spec_word0(), u.spec_word1(), u.spec_word2(), u.spec_word3()) == u.raw,
{
    let a = u.raw as int;
    lemma_fundamental_div_mod(a, 0x1_0000_0000);
    lemma_fundamental_div_mod(a / 0x1_0000_0000, 0x1_0000_0000);
    lemma_fundamental_div_mod(a / 0x1_0000_0000_0000_0000, 0x1_0000_0000);
    lemma_div_denominator(a, 0x1_0000_0000, 0x1_0000_0000);
    lemma_div_denominator(a, 0x1_0000_0000_0000_0000, 0x1_0000_0000);
    assert(a / 0x1_0000_0000_0000_0000_0000_0000 < 0x1_0000_0000) by (nonlinear_arith)
        requires
            0 <= a <= u128::MAX,
    ;
    assert(0 <= a / 0x1_0000_0000_0000_0000_0000_0000) by (nonlinear_arith)
        requires
            0 <= a,
    ;
}

/// Wire form of a 128-bit identifier: its four 32-bit words as consecutive
/// big-endian integers, most significant word first.
pub open spec fn uuid_wire(u: Uuid) -> Seq<u8> {
    be_bytes(u.spec_word0() as nat, 4) + be_bytes(u.spec_word1() as nat, 4) + be_bytes(
        u.spec_word2() as nat,
        4,
    ) + be_bytes(u.spec_word3() as nat, 4)
}

/// What a decoder sees at the front of `t` when reading an identifier field:
/// four consecutive 32-bit words, most significant first.
pub open spec fn spec_read_uuid(t: Seq<u8>) -> Result<(Uuid, int), DecodeError> {
    if t.len() < 16 {
        Err(DecodeError::UnexpectedEof)
    } else {
        Ok(
            (
                Uuid {
                    raw: uuid_from_words(
                        be_val_u32(t, 0),
                        be_val_u32(t, 4),
                        be_val_u32(t, 8),
                        be_val_u32(t, 12),
                    ),
                },
                16,
            ),
        )
    }
}

/// The 32-bit word at byte offset `k` of `t`, big-endian.
pub open spec fn be_val_u32(t: Seq<u8>, k: int) -> u32 {
    crate::mc_buf::be_val(t.subrange(k, k + 4)) as u32
}

/// Reads a 128-bit identifier as four consecutive big-endian 32-bit words,
/// exactly as `spec_read_uuid` describes; on failure the position stays where
/// the failing word began.
pub fn read_uuid(data: &[u8], pos: &mut usize) -> (r: Result<Uuid, DecodeError>)
    requires
        *old(pos) <= data@.len(),
    ensures
        *old(pos) <= *final(pos) <= data@.len(),
        match spec_read_uuid(data@.skip(*old(pos) as int)) {
            Ok(vn) => r == Ok::<Uuid, DecodeError>(vn.0) && *final(pos) == *old(pos) + vn.1,
            Err(e) => r == Err::<Uuid, DecodeError>(e),
        },
{
    let ghost t = data@.skip(*old(pos) as int);
    if data.len() - *pos < 16 {
        return Err(DecodeError::UnexpectedEof);
    }
    let w0 = match read_u32(data, pos) {
        Ok(v) => v,
        Err(e) => {
            return Err(e);
        },
    };
    proof {
        assert(data@.skip(*old(pos) as int).subrange(0, 4) =~= t.subrange(0, 4));
    }
    let ghost p1 = *pos as int;
    let w1 = match read_u32(data, pos) {
        Ok(v) => v,
        Err(e) => {
            return Err(e);
        },
    };
    proof {
        assert(data@.skip(p1).subrange(0, 4) =~= t.subrange(4, 8));
    }
    let ghost p2 = *pos as int;
    let w2 = match read_u32(data, pos) {
        Ok(v) => v,
        Err(e) => {
            return Err(e);
        },
    };
    proof {
        assert(data@.skip(p2).subrange(0, 4) =~= t.subrange(8, 12));
    }
    let ghost p3 = *pos as int;
    let w3 = match read_u32(data, pos) {
        Ok(v) => v,
        Err(e) => {
            return Err(e);
        },
    };
    proof {
        assert(data@.skip(p3).subrange(0, 4) =~= t.subrange(12, 16));
    }
    Ok(Uuid::from_int_array([w0, w1, w2, w3]))
}

/// Appends the four big-endian 32-bit words of an identifier.
pub fn write_uuid(u: &Uuid, buf: &mut Vec<u8>)
    ensures
        final(buf)@ == old(buf)@ + uuid_wire(*u),
{
    let words = u.to_int_array();
    write_u32(words[0], buf);
    write_u32(words[1], buf);
    write_u32(words[2], buf);
    write_u32(words[3], buf);
    proof {
        assert(buf@ =~= old(buf)@ + uuid_wire(*u));
    }
}

/// Round trip of the identifier codec at the spec level: an identifier
/// written as its four words reads back exactly.
pub proof fn lemma_uuid_wire_round_trip(u: Uuid, rest: Seq<u8>)
    ensures
        spec_read_uuid(uuid_wire(u) + rest) == Ok::<(Uuid, int), DecodeError>((u, 16)),
{
    let t = uuid_wire(u) + rest;
    crate::mc_buf::lemma_be_bytes_len(u.spec_word0() as nat, 4);
    crate::mc_buf::lemma_be_bytes_len(u.spec_word1() as nat, 4);
    crate::mc_buf::lemma_be_bytes_len(u.spec_word2() as nat, 4);
    crate::mc_buf::lemma_be_bytes_len(u.spec_word3() as nat, 4);
    vstd::arithmetic::power2::lemma2_to64();
    assert(t.subrange(0, 4) =~= be_bytes(u.spec_word0() as nat, 4));
    assert(t.subrange(4, 8) =~= be_bytes(u.spec_word1() as nat, 4));
    assert(t.subrange(8, 12) =~= be_bytes(u.spec_word2() as nat, 4));
    assert(t.subrange(12, 16) =~= be_bytes(u.spec_word3() as nat, 4));
    crate::mc_buf::lemma_be_val_of_be_bytes(u.spec_word0() as nat, 4);
    crate::mc_buf::lemma_be_val_of_be_bytes(u.spec_word1() as nat, 4);
    crate::mc_buf::lemma_be_val_of_be_bytes(u.spec_word2() as nat, 4);
    crate::mc_buf::lemma_be_val_of_be_bytes(u.spec_word3() as nat, 4);
    lemma_uuid_words_round_trip(u);
}

/// The authenticated player identity a login success carries: an identifier
/// and a player name.
#[derive(Clone, Debug, PartialEq)]
pub struct GameProfile {
    pub uuid: Uuid,
    pub name: String,
}

impl GameProfile {
    /// Builds a profile from its identifier and name.
    pub fn new(uuid: Uuid, name: String) -> (r: GameProfile)
        ensures
            r.uuid == uuid,
            r.name == name,
    {
        GameProfile { uuid, name }
    }
}

} // verus!
