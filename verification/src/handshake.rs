use vstd::prelude::*;

use crate::connect::PacketFlow;
use crate::error::{DecodeError, EncodeError};
use crate::mc_buf::{be_bytes, read_u16, spec_read_be, write_u16};
use crate::packets::{
    lemma_protocol_round_trip, protocol_wire, spec_read_protocol, ConnectionProtocol,
    ProtocolPacket,
};
use crate::strings::{
    lemma_encode_utf8_len, lemma_string_round_trip, read_utf_with_len, spec_read_string,
    string_wire, write_utf,
};
use crate::varint::{
    lemma_varint_bytes_len, lemma_varint_round_trip, read_varint_u32, spec_read_varint,
    varint_bytes, write_varint_u32,
};
use vstd::arithmetic::power2::{lemma2_to64, lemma2_to64_rest};

verus! {

/// Id of the intention packet in the handshake phase's serverbound table.
pub const CLIENT_INTENTION_ID: u32 = 0x00;

/// The character bound the hostname is read with.
pub const HOSTNAME_MAX: u32 = 255;

/// Opens a connection: the client names its protocol version, the address it
/// dialed, and the phase it intends to enter next.
#[derive(Clone, Debug, PartialEq)]
pub struct ClientIntentionPacket {
    /// Carried as a variable-length integer on the wire.
    pub protocol_version: u32,
    pub hostname: String,
    pub port: u16,
    pub intention: ConnectionProtocol,
}

impl ClientIntentionPacket {
    /// Wire form of the fields in declared order.
    pub open spec fn spec_body(self) -> Seq<u8> {
        varint_bytes(self.protocol_version as nat) + string_wire(self.hostname@) + be_bytes(
            self.port as nat,
            2,
        ) + protocol_wire(self.intention)
    }

    /// What a decoder sees at the front of `t` when reading this packet's
    /// fields.
    pub open spec fn spec_read_body(t: Seq<u8>) -> Result<
        ((u32, Seq<char>, u16, ConnectionProtocol), int),
        DecodeError,
    > {
        match spec_read_varint(t, 5) {
            Err(e) => Err(e),
            Ok(vn) => match spec_read_string(t.skip(vn.1), HOSTNAME_MAX as nat) {
                Err(e) => Err(e),
                Ok(sn) => match spec_read_be(t.skip(vn.1 + sn.1), 2) {
                    Err(e) => Err(e),
                    Ok(pn) => match spec_read_protocol(t.skip(vn.1 + sn.1 + pn.1)) {
                        Err(e) => Err(e),
                        Ok(cn) => Ok(
                            (
                                (
                                    (vn.0 % 0x1_0000_0000) as u32,
                                    sn.0,
                                    pn.0 as u16,
                                    cn.0,
                                ),
                                vn.1 + sn.1 + pn.1 + cn.1,
                            ),
                        ),
                    },
                },
            },
        }
    }
}

/// The handshake phase's packets.
#[derive(Clone, Debug, PartialEq)]
pub enum HandshakePacket {
    ClientIntentionPacket(ClientIntentionPacket),
}

impl ProtocolPacket for HandshakePacket {
    type Model = (u32, Seq<char>, u16, ConnectionProtocol);

    open spec fn model(&self) -> (u32, Seq<char>, u16, ConnectionProtocol) {
        match self {
            HandshakePacket::ClientIntentionPacket(p) => (
                p.protocol_version,
                p.hostname@,
                p.port,
                p.intention,
            ),
        }
    }

    open spec fn spec_id(&self) -> u32 {
        match self {
            HandshakePacket::ClientIntentionPacket(_) => CLIENT_INTENTION_ID,
        }
    }

    open spec fn spec_flow(&self) -> PacketFlow {
        match self {
            HandshakePacket::ClientIntentionPacket(_) => PacketFlow::ClientToServer,
        }
    }

    open spec fn wire_body(&self) -> Seq<u8> {
        match self {
            HandshakePacket::ClientIntentionPacket(p) => p.spec_body(),
        }
    }

    open spec fn wf(&self) -> bool {
        match self {
            HandshakePacket::ClientIntentionPacket(p) => p.hostname@.len() <= HOSTNAME_MAX,
        }
    }

    open spec fn write_ok(&self) -> bool {
        match self {
            HandshakePacket::ClientIntentionPacket(p) => vstd::utf8::encode_utf8(
                p.hostname@,
            ).len() <= 0xFFFF_FFFF,
        }
    }

    open spec fn spec_read(flow: PacketFlow, id: u32, t: Seq<u8>) -> Result<
        ((u32, Seq<char>, u16, ConnectionProtocol), int),
        DecodeError,
    > {
        if flow == PacketFlow::ClientToServer && id == CLIENT_INTENTION_ID {
            ClientIntentionPacket::spec_read_body(t)
        } else {
            Err(DecodeError::UnknownPacketId)
        }
    }

    fn id(&self) -> (r: u32) {
        match self {
            HandshakePacket::ClientIntentionPacket(_) => CLIENT_INTENTION_ID,
        }
    }

    fn read(id: u32, flow: &PacketFlow, data: &[u8], pos: &mut usize) -> (r: Result<
        HandshakePacket,
        DecodeError,
    >) {
        match flow {
            PacketFlow::ClientToServer => {
                if id == CLIENT_INTENTION_ID {
                    let ghost t = data@.skip(*old(pos) as int);
                    let protocol_version = match read_varint_u32(data, pos) {
                        Ok(v) => v,
                        Err(e) => {
                            return Err(e);
                        },
                    };
                    let ghost n1 = spec_read_varint(t, 5)->Ok_0.1;
                    proof {
                        assert(data@.skip(*pos as int) =~= t.skip(n1));
                    }
                    let hostname = match read_utf_with_len(data, pos, HOSTNAME_MAX) {
                        Ok(v) => v,
                        Err(e) => {
                            return Err(e);
                        },
                    };
                    let ghost n2 = spec_read_string(t.skip(n1), HOSTNAME_MAX as nat)->Ok_0.1;
                    proof {
                        assert(data@.skip(*pos as int) =~= t.skip(n1 + n2));
                    }
                    let port = match read_u16(data, pos) {
                        Ok(v) => v,
                        Err(e) => {
                            return Err(e);
                        },
                    };
                    let ghost n3 = spec_read_be(t.skip(n1 + n2), 2)->Ok_0.1;
                    proof {
                        assert(data@.skip(*pos as int) =~= t.skip(n1 + n2 + n3));
                    }
                    let intention = match ConnectionProtocol::read_into(data, pos) {
                        Ok(v) => v,
                        Err(e) => {
                            return Err(e);
                        },
                    };
                    Ok(
                        HandshakePacket::ClientIntentionPacket(
                            ClientIntentionPacket { protocol_version, hostname, port, intention },
                        ),
                    )
                } else {
                    Err(DecodeError::UnknownPacketId)
                }
            },
            PacketFlow::ServerToClient => Err(DecodeError::UnknownPacketId),
        }
    }

    fn write(&self, buf: &mut Vec<u8>) -> (r: Result<(), EncodeError>) {
        match self {
            HandshakePacket::ClientIntentionPacket(p) => {
                write_varint_u32(CLIENT_INTENTION_ID, buf);
                write_varint_u32(p.protocol_version, buf);
                proof {
                    if p.hostname@.len() <= HOSTNAME_MAX {
                        lemma_encode_utf8_len(p.hostname@);
                    }
                }
                match write_utf(p.hostname.as_str(), buf) {
                    Ok(u) => u,
                    Err(e) => {
                        return Err(e);
                    },
                };
                write_u16(p.port, buf);
                let r = p.intention.write_into(buf);
                proof {
                    assert(buf@ =~= old(buf)@ + varint_bytes(self.spec_id() as nat)
                        + self.wire_body());
                }
                r
            },
        }
    }
}

/// Round trip for the handshake phase: a well-formed packet's wire body,
/// read back under its own id and direction, yields the identical field
/// values and consumes exactly its bytes.
pub proof fn lemma_handshake_packet_round_trip(p: HandshakePacket, rest: Seq<u8>)
    requires
        p.wf(),
    ensures
        HandshakePacket::spec_read(p.spec_flow(), p.spec_id(), p.wire_body() + rest) == Ok::<
            ((u32, Seq<char>, u16, ConnectionProtocol), int),
            DecodeError,
        >((p.model(), p.wire_body().len() as int)),
{
    match p {
        HandshakePacket::ClientIntentionPacket(ci) => {
            let t = p.wire_body() + rest;
            let tail1 = string_wire(ci.hostname@) + (be_bytes(ci.port as nat, 2) + (protocol_wire(
                ci.intention,
            ) + rest));
            lemma2_to64();
            lemma2_to64_rest();
            lemma_varint_bytes_len(ci.protocol_version as nat, 5);
            assert(t =~= varint_bytes(ci.protocol_version as nat) + tail1);
            lemma_varint_round_trip(ci.protocol_version as nat, tail1, 5);
            let n1 = varint_bytes(ci.protocol_version as nat).len() as int;
            assert(t.skip(n1) =~= tail1);
            lemma_encode_utf8_len(ci.hostname@);
            lemma_string_round_trip(
                ci.hostname@,
                be_bytes(ci.port as nat, 2) + (protocol_wire(ci.intention) + rest),
                HOSTNAME_MAX as nat,
            );
            let n2 = string_wire(ci.hostname@).len() as int;
            crate::mc_buf::lemma_be_bytes_len(ci.port as nat, 2);
            assert(t.skip(n1).skip(n2) =~= be_bytes(ci.port as nat, 2) + (protocol_wire(
                ci.intention,
            ) + rest));
            assert(t.skip(n1 + n2) =~= t.skip(n1).skip(n2));
            crate::mc_buf::lemma_be_round_trip(
                ci.port as nat,
                2,
                protocol_wire(ci.intention) + rest,
            );
            assert(t.skip(n1 + n2).skip(2) =~= protocol_wire(ci.intention) + rest);
            assert(t.skip(n1 + n2 + 2) =~= t.skip(n1 + n2).skip(2));
            lemma_protocol_round_trip(ci.intention, rest);
        },
    }
}

} // verus!
