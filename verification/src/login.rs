use vstd::prelude::*;

use crate::connect::PacketFlow;
use crate::error::{DecodeError, EncodeError};
use crate::packets::ProtocolPacket;
use crate::profile::{
    lemma_uuid_wire_round_trip, read_uuid, spec_read_uuid, uuid_wire, write_uuid, GameProfile,
    Uuid,
};
use crate::strings::{
    lemma_encode_utf8_len, lemma_string_round_trip, read_utf_with_len, spec_read_string,
    string_wire, write_utf,
};
use crate::varint::{varint_bytes, write_varint_u32};
use vstd::utf8::encode_utf8;

verus! {

/// Id of the game-profile (login success) packet in the login phase's
/// clientbound table.
pub const GAME_PROFILE_ID: u32 = 0x02;

/// The character bound the profile name is read with.
pub const GAME_PROFILE_NAME_MAX: u32 = 16;

/// Announces a successful login, carrying the authenticated profile.
#[derive(Clone, Debug, PartialEq)]
pub struct ClientboundGameProfilePacket {
    pub game_profile: GameProfile,
}

impl ClientboundGameProfilePacket {
    /// Wire form of the fields: the identifier as four 32-bit words, then
    /// the name as a length-prefixed string.
    pub open spec fn spec_body(self) -> Seq<u8> {
        uuid_wire(self.game_profile.uuid) + string_wire(self.game_profile.name@)
    }

    /// What a decoder sees at the front of `t` when reading this packet's
    /// fields: the identifier and the name's characters.
    pub open spec fn spec_read_body(t: Seq<u8>) -> Result<((Uuid, Seq<char>), int), DecodeError> {
        match spec_read_uuid(t) {
            Err(e) => Err(e),
            Ok(un) => match spec_read_string(t.skip(un.1), GAME_PROFILE_NAME_MAX as nat) {
                Err(e) => Err(e),
                Ok(sn) => Ok(((un.0, sn.0), un.1 + sn.1)),
            },
        }
    }

    /// Wraps this packet in the login phase's envelope.
    pub fn get(self) -> (r: LoginPacket)
        ensures
            r == LoginPacket::ClientboundGameProfilePacket(self),
    {
        LoginPacket::ClientboundGameProfilePacket(self)
    }

    /// Appends the fields in declared order: the identifier's four words,
    /// then the name. Fails only when the name's UTF-8 form cannot be
    /// carried by the 32-bit length prefix; the identifier's words may then
    /// already stand in the sink.
    pub fn write(&self, buf: &mut Vec<u8>) -> (r: Result<(), EncodeError>)
        ensures
            r is Ok <==> encode_utf8(self.game_profile.name@).len() <= 0xFFFF_FFFF,
            r is Ok ==> final(buf)@ == old(buf)@ + self.spec_body(),
    {
        write_uuid(&self.game_profile.uuid, buf);
        let r = write_utf(self.game_profile.name.as_str(), buf);
        proof {
            if r is Ok {
                assert(buf@ =~= old(buf)@ + self.spec_body());
            }
        }
        r
    }

    /// Reads the fields in declared order and hands back the wrapped
    /// envelope value, exactly as `spec_read_body` describes.
    pub fn read(data: &[u8], pos: &mut usize) -> (r: Result<LoginPacket, DecodeError>)
        requires
            *old(pos) <= data@.len(),
        ensures
            *old(pos) <= *final(pos) <= data@.len(),
            match Self::spec_read_body(data@.skip(*old(pos) as int)) {
                Ok(mn) => r matches Ok(p) && p matches LoginPacket::ClientboundGameProfilePacket(
                    q,
                ) && q.game_profile.uuid == mn.0.0 && q.game_profile.name@ == mn.0.1 && *final(pos) == *old(pos) + mn.1,
                Err(e) => r == Err::<LoginPacket, DecodeError>(e),
            },
    {
        let ghost t = data@.skip(*old(pos) as int);
        let uuid = match read_uuid(data, pos) {
            Ok(v) => v,
            Err(e) => {
                return Err(e);
            },
        };
        proof {
            assert(data@.skip(*pos as int) =~= t.skip(spec_read_uuid(t)->Ok_0.1));
        }
        let name = match read_utf_with_len(data, pos, GAME_PROFILE_NAME_MAX) {
            Ok(v) => v,
            Err(e) => {
                return Err(e);
            },
        };
        Ok(ClientboundGameProfilePacket { game_profile: GameProfile::new(uuid, name) }.get())
    }
}

/// The login phase's packets.
#[derive(Clone, Debug, PartialEq)]
pub enum LoginPacket {
    ClientboundGameProfilePacket(ClientboundGameProfilePacket),
}

impl ProtocolPacket for LoginPacket {
    type Model = (Uuid, Seq<char>);

    open spec fn model(&self) -> (Uuid, Seq<char>) {
        match self {
            LoginPacket::ClientboundGameProfilePacket(p) => (
                p.game_profile.uuid,
                p.game_profile.name@,
            ),
        }
    }

    open spec fn spec_id(&self) -> u32 {
        match self {
            LoginPacket::ClientboundGameProfilePacket(_) => GAME_PROFILE_ID,
        }
    }

    open spec fn spec_flow(&self) -> PacketFlow {
        match self {
            LoginPacket::ClientboundGameProfilePacket(_) => PacketFlow::ServerToClient,
        }
    }

    open spec fn wire_body(&self) -> Seq<u8> {
        match self {
            LoginPacket::ClientboundGameProfilePacket(p) => p.spec_body(),
        }
    }

    open spec fn wf(&self) -> bool {
        match self {
            LoginPacket::ClientboundGameProfilePacket(p) => p.game_profile.name@.len()
                <= GAME_PROFILE_NAME_MAX,
        }
    }

    open spec fn write_ok(&self) -> bool {
        match self {
            LoginPacket::ClientboundGameProfilePacket(p) => encode_utf8(
                p.game_profile.name@,
            ).len() <= 0xFFFF_FFFF,
        }
    }

    open spec fn spec_read(flow: PacketFlow, id: u32, t: Seq<u8>) -> Result<
        ((Uuid, Seq<char>), int),
        DecodeError,
    > {
        if flow == PacketFlow::ServerToClient && id == GAME_PROFILE_ID {
            ClientboundGameProfilePacket::spec_read_body(t)
        } else {
            Err(DecodeError::UnknownPacketId)
        }
    }

    fn id(&self) -> (r: u32) {
        match self {
            LoginPacket::ClientboundGameProfilePacket(_) => GAME_PROFILE_ID,
        }
    }

    fn read(id: u32, flow: &PacketFlow, data: &[u8], pos: &mut usize) -> (r: Result<
        LoginPacket,
        DecodeError,
    >) {
        match flow {
            PacketFlow::ServerToClient => {
                if id == GAME_PROFILE_ID {
                    ClientboundGameProfilePacket::read(data, pos)
                } else {
                    Err(DecodeError::UnknownPacketId)
                }
            },
            PacketFlow::ClientToServer => Err(DecodeError::UnknownPacketId),
        }
    }

    fn write(&self, buf: &mut Vec<u8>) -> (r: Result<(), EncodeError>) {
        match self {
            LoginPacket::ClientboundGameProfilePacket(p) => {
                write_varint_u32(GAME_PROFILE_ID, buf);
                proof {
                    if p.game_profile.name@.len() <= GAME_PROFILE_NAME_MAX {
                        lemma_encode_utf8_len(p.game_profile.name@);
                    }
                }
                let r = p.write(buf);
                proof {
                    if r is Ok {
                        assert(buf@ =~= old(buf)@ + varint_bytes(self.spec_id() as nat)
                            + self.wire_body());
                    }
                }
                r
            },
        }
    }
}

/// Round trip for the login phase: a well-formed packet's wire body, read
/// back under its own id and direction, yields the identical identifier and
/// name and consumes exactly its bytes.
#[verifier::rlimit(60)]
pub proof fn lemma_login_packet_round_trip(p: LoginPacket, rest: Seq<u8>)
    requires
        p.wf(),
    ensures
        LoginPacket::spec_read(p.spec_flow(), p.spec_id(), p.wire_body() + rest) == Ok::<
            ((Uuid, Seq<char>), int),
            DecodeError,
        >((p.model(), p.wire_body().len() as int)),
{
    match p {
        LoginPacket::ClientboundGameProfilePacket(gp) => {
            let name = gp.game_profile.name@;
            let t = p.wire_body() + rest;
            let tail = string_wire(name) + rest;
            let u = gp.game_profile.uuid;
            crate::mc_buf::lemma_be_bytes_len(u.spec_word0() as nat, 4);
            crate::mc_buf::lemma_be_bytes_len(u.spec_word1() as nat, 4);
            crate::mc_buf::lemma_be_bytes_len(u.spec_word2() as nat, 4);
            crate::mc_buf::lemma_be_bytes_len(u.spec_word3() as nat, 4);
            assert(uuid_wire(u).len() == 16);
            assert(t =~= uuid_wire(gp.game_profile.uuid) + tail);
            lemma_uuid_wire_round_trip(gp.game_profile.uuid, tail);
            assert(t.skip(16) =~= tail);
            lemma_encode_utf8_len(name);
            lemma_string_round_trip(name, rest, GAME_PROFILE_NAME_MAX as nat);
        },
    }
}

} // verus!
