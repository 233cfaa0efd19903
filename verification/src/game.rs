use vstd::prelude::*;

use crate::connect::PacketFlow;
use crate::error::{DecodeError, EncodeError};
use crate::mc_buf::{bool_byte, read_bool, spec_read_bool, write_bool};
use crate::packets::ProtocolPacket;
use crate::position::{
    block_pos_in_range, block_pos_wire, lemma_block_pos_wire_round_trip, read_block_pos,
    spec_read_block_pos, write_block_pos, BlockPos,
};
use crate::varint::{
    lemma_varint_bytes_len, lemma_varint_round_trip, read_varint_u32, spec_read_varint,
    varint_bytes, write_varint_u32,
};
use vstd::arithmetic::power2::{lemma2_to64, lemma2_to64_rest};

verus! {

/// Id of the jigsaw-generate packet in the game phase's serverbound table.
pub const JIGSAW_GENERATE_ID: u32 = 0x0e;

/// Asks the server to run jigsaw generation at a position.
#[derive(Clone, Copy, Debug, PartialEq, Eq, Structural)]
pub struct ServerboundJigsawGeneratePacket {
    pub pos: BlockPos,
    /// Carried as a variable-length integer on the wire.
    pub levels: u32,
    pub keep_jigsaws: bool,
}

impl ServerboundJigsawGeneratePacket {
    /// Wire form of the fields in declared order: packed position, levels as
    /// a variable-length integer, then the keep-jigsaws flag.
    pub open spec fn spec_body(self) -> Seq<u8> {
        block_pos_wire(self.pos) + varint_bytes(self.levels as nat) + seq![
            bool_byte(self.keep_jigsaws),
        ]
    }

    /// What a decoder sees at the front of `t` when reading this packet's
    /// fields.
    pub open spec fn spec_read_body(t: Seq<u8>) -> Result<
        (ServerboundJigsawGeneratePacket, int),
        DecodeError,
    > {
        match spec_read_block_pos(t) {
            Err(e) => Err(e),
            Ok(pn) => match spec_read_varint(t.skip(pn.1), 5) {
                Err(e) => Err(e),
                Ok(vn) => match spec_read_bool(t.skip(pn.1 + vn.1)) {
                    Err(e) => Err(e),
                    Ok(bn) => Ok(
                        (
                            ServerboundJigsawGeneratePacket {
                                pos: pn.0,
                                levels: (vn.0 % 0x1_0000_0000) as u32,
                                keep_jigsaws: bn.0,
                            },
                            pn.1 + vn.1 + bn.1,
                        ),
                    ),
                },
            },
        }
    }

    /// Reads the fields in declared order, exactly as `spec_read_body`
    /// describes.
    pub fn read_body(data: &[u8], pos: &mut usize) -> (r: Result<
        ServerboundJigsawGeneratePacket,
        DecodeError,
    >)
        requires
            *old(pos) <= data@.len(),
        ensures
            *old(pos) <= *final(pos) <= data@.len(),
            match Self::spec_read_body(data@.skip(*old(pos) as int)) {
                Ok(pn) => r == Ok::<ServerboundJigsawGeneratePacket, DecodeError>(pn.0) && *final(pos) == *old(pos) + pn.1,
                Err(e) => r == Err::<ServerboundJigsawGeneratePacket, DecodeError>(e),
            },
    {
        let ghost t = data@.skip(*old(pos) as int);
        let p = match read_block_pos(data, pos) {
            Ok(v) => v,
            Err(e) => {
                return Err(e);
            },
        };
        proof {
            assert(data@.skip(*pos as int) =~= t.skip(spec_read_block_pos(t)->Ok_0.1));
        }
        let ghost p1 = *pos as int;
        let levels = match read_varint_u32(data, pos) {
            Ok(v) => v,
            Err(e) => {
                return Err(e);
            },
        };
        proof {
            assert(data@.skip(*pos as int) =~= data@.skip(p1).skip(
                spec_read_varint(data@.skip(p1), 5)->Ok_0.1,
            ));
        }
        let keep_jigsaws = match read_bool(data, pos) {
            Ok(v) => v,
            Err(e) => {
                return Err(e);
            },
        };
        Ok(ServerboundJigsawGeneratePacket { pos: p, levels, keep_jigsaws })
    }

    /// Appends the fields in declared order.
    pub fn write_body(&self, buf: &mut Vec<u8>)
        ensures
            final(buf)@ == old(buf)@ + self.spec_body(),
    {
        write_block_pos(&self.pos, buf);
        write_varint_u32(self.levels, buf);
        write_bool(self.keep_jigsaws, buf);
        proof {
            assert(buf@ =~= old(buf)@ + self.spec_body());
        }
    }
}

/// The game phase's packets.
#[derive(Clone, Debug, PartialEq)]
pub enum GamePacket {
    ServerboundJigsawGeneratePacket(ServerboundJigsawGeneratePacket),
}

impl ProtocolPacket for GamePacket {
    type Model = GamePacket;

    open spec fn model(&self) -> GamePacket {
        *self
    }

    open spec fn spec_id(&self) -> u32 {
        match self {
            GamePacket::ServerboundJigsawGeneratePacket(_) => JIGSAW_GENERATE_ID,
        }
    }

    open spec fn spec_flow(&self) -> PacketFlow {
        match self {
            GamePacket::ServerboundJigsawGeneratePacket(_) => PacketFlow::ClientToServer,
        }
    }

    open spec fn wire_body(&self) -> Seq<u8> {
        match self {
            GamePacket::ServerboundJigsawGeneratePacket(p) => p.spec_body(),
        }
    }

    open spec fn wf(&self) -> bool {
        match self {
            GamePacket::ServerboundJigsawGeneratePacket(p) => block_pos_in_range(p.pos),
        }
    }

    open spec fn write_ok(&self) -> bool {
        true
    }

    open spec fn spec_read(flow: PacketFlow, id: u32, t: Seq<u8>) -> Result<
        (GamePacket, int),
        DecodeError,
    > {
        if flow == PacketFlow::ClientToServer && id == JIGSAW_GENERATE_ID {
            match ServerboundJigsawGeneratePacket::spec_read_body(t) {
                Ok(pn) => Ok((GamePacket::ServerboundJigsawGeneratePacket(pn.0), pn.1)),
                Err(e) => Err(e),
            }
        } else {
            Err(DecodeError::UnknownPacketId)
        }
    }

    fn id(&self) -> (r: u32) {
        match self {
            GamePacket::ServerboundJigsawGeneratePacket(_) => JIGSAW_GENERATE_ID,
        }
    }

    fn read(id: u32, flow: &PacketFlow, data: &[u8], pos: &mut usize) -> (r: Result<
        GamePacket,
        DecodeError,
    >) {
        match flow {
            PacketFlow::ClientToServer => {
                if id == JIGSAW_GENERATE_ID {
                    match ServerboundJigsawGeneratePacket::read_body(data, pos) {
                        Ok(p) => Ok(GamePacket::ServerboundJigsawGeneratePacket(p)),
                        Err(e) => Err(e),
                    }
                } else {
                    Err(DecodeError::UnknownPacketId)
                }
            },
            PacketFlow::ServerToClient => Err(DecodeError::UnknownPacketId),
        }
    }

    fn write(&self, buf: &mut Vec<u8>) -> (r: Result<(), EncodeError>) {
        match self {
            GamePacket::ServerboundJigsawGeneratePacket(p) => {
                write_varint_u32(JIGSAW_GENERATE_ID, buf);
                p.write_body(buf);
                proof {
                    assert(buf@ =~= old(buf)@ + varint_bytes(self.spec_id() as nat)
                        + self.wire_body());
                }
                Ok(())
            },
        }
    }
}

/// Round trip for the game phase: a well-formed packet's wire body, read
/// back under its own id and direction, yields the identical packet and
/// consumes exactly its bytes.
pub proof fn lemma_game_packet_round_trip(p: GamePacket, rest: Seq<u8>)
    requires
        p.wf(),
    ensures
        GamePacket::spec_read(p.spec_flow(), p.spec_id(), p.wire_body() + rest) == Ok::<
            (GamePacket, int),
            DecodeError,
        >((p, p.wire_body().len() as int)),
{
    match p {
        GamePacket::ServerboundJigsawGeneratePacket(j) => {
            let t = p.wire_body() + rest;
            let tail1 = varint_bytes(j.levels as nat) + (seq![bool_byte(j.keep_jigsaws)] + rest);
            crate::mc_buf::lemma_be_bytes_len(crate::position::block_pos_word(j.pos) as nat, 8);
            assert(t =~= block_pos_wire(j.pos) + tail1);
            lemma_block_pos_wire_round_trip(j.pos, tail1);
            assert(t.skip(8) =~= tail1);
            lemma2_to64();
            lemma2_to64_rest();
            lemma_varint_bytes_len(j.levels as nat, 5);
            lemma_varint_round_trip(j.levels as nat, seq![bool_byte(j.keep_jigsaws)] + rest, 5);
            let n = varint_bytes(j.levels as nat).len() as int;
            assert(t.skip(8 + n) =~= seq![bool_byte(j.keep_jigsaws)] + rest);
            assert((seq![bool_byte(j.keep_jigsaws)] + rest)[0] == bool_byte(j.keep_jigsaws));
        },
    }
}

} // verus!
