use vstd::prelude::*;

use crate::connect::PacketFlow;
use crate::error::{DecodeError, EncodeError};
use crate::game::GamePacket;
use crate::handshake::HandshakePacket;
use crate::login::LoginPacket;
use crate::status::StatusPacket;
use crate::varint::{
    lemma_varint_bytes_len, lemma_varint_round_trip, read_varint_i32, read_varint_u32,
    spec_read_varint, varint_bytes, write_varint_i32,
};
use vstd::arithmetic::power2::{lemma2_to64, lemma2_to64_rest};

verus! {

/// The four phases of a connection's lifecycle. Each owns two independent
/// packet-id tables, one per direction.
#[derive(Clone, Copy, Debug, PartialEq, Eq, Hash, Structural)]
pub enum ConnectionProtocol {
    Handshake,
    Game,
    Status,
    Login,
}

impl ConnectionProtocol {
    /// The fixed wire tag of each phase.
    pub open spec fn spec_tag(self) -> i32 {
        match self {
            ConnectionProtocol::Handshake => -1i32,
            ConnectionProtocol::Game => 0i32,
            ConnectionProtocol::Status => 1i32,
            ConnectionProtocol::Login => 2i32,
        }
    }

    /// The phase a wire tag names, if it names one.
    pub open spec fn spec_from_tag(v: i32) -> Option<ConnectionProtocol> {
        if v == -1 {
            Some(ConnectionProtocol::Handshake)
        } else if v == 0 {
            Some(ConnectionProtocol::Game)
        } else if v == 1 {
            Some(ConnectionProtocol::Status)
        } else if v == 2 {
            Some(ConnectionProtocol::Login)
        } else {
            None
        }
    }

    /// The numeric tag of this phase.
    pub fn tag(&self) -> (r: i32)
        ensures
            r == self.spec_tag(),
    {
        match self {
            ConnectionProtocol::Handshake => -1,
            ConnectionProtocol::Game => 0,
            ConnectionProtocol::Status => 1,
            ConnectionProtocol::Login => 2,
        }
    }

    /// The phase with the given numeric tag, exactly as `spec_from_tag` says.
    pub fn from_i32(value: i32) -> (r: Option<ConnectionProtocol>)
        ensures
            r == ConnectionProtocol::spec_from_tag(value),
    {
        if value == -1 {
            Some(ConnectionProtocol::Handshake)
        } else if value == 0 {
            Some(ConnectionProtocol::Game)
        } else if value == 1 {
            Some(ConnectionProtocol::Status)
        } else if value == 2 {
            Some(ConnectionProtocol::Login)
        } else {
            None
        }
    }

    /// Reads a phase tag, exactly as `spec_read_protocol` describes.
    pub fn read_into(data: &[u8], pos: &mut usize) -> (r: Result<ConnectionProtocol, DecodeError>)
        requires
            *old(pos) <= data@.len(),
        ensures
            *old(pos) <= *final(pos) <= data@.len(),
            match spec_read_protocol(data@.skip(*old(pos) as int)) {
                Ok(pn) => r == Ok::<ConnectionProtocol, DecodeError>(pn.0) && *final(pos) == *old(
                    pos,
                ) + pn.1,
                Err(e) => r == Err::<ConnectionProtocol, DecodeError>(e),
            },
    {
        match read_varint_i32(data, pos) {
            Ok(v) => match ConnectionProtocol::from_i32(v) {
                Some(p) => Ok(p),
                None => Err(DecodeError::InvalidIntention),
            },
            Err(e) => Err(e),
        }
    }

    /// Appends the phase tag as a variable-length signed integer.
    pub fn write_into(&self, buf: &mut Vec<u8>) -> (r: Result<(), EncodeError>)
        ensures
            r is Ok,
            final(buf)@ == old(buf)@ + protocol_wire(*self),
    {
        write_varint_i32(self.tag(), buf);
        Ok(())
    }
}

/// Wire form of a phase tag: its signed value's bit pattern as a
/// variable-length integer.
pub open spec fn protocol_wire(p: ConnectionProtocol) -> Seq<u8> {
    varint_bytes((p.spec_tag() as u32) as nat)
}

/// What a decoder sees at the front of `t` when reading a phase tag: the
/// named phase, or the distinct invalid-phase error for a tag outside the
/// four defined values.
pub open spec fn spec_read_protocol(t: Seq<u8>) -> Result<(ConnectionProtocol, int), DecodeError> {
    match spec_read_varint(t, 5) {
        Err(e) => Err(e),
        Ok(vn) => match ConnectionProtocol::spec_from_tag(((vn.0 % 0x1_0000_0000) as u32) as i32) {
            Some(p) => Ok((p, vn.1)),
            None => Err(DecodeError::InvalidIntention),
        },
    }
}

/// Round trip of the phase-tag codec at the spec level.
pub proof fn lemma_protocol_round_trip(p: ConnectionProtocol, rest: Seq<u8>)
    ensures
        spec_read_protocol(protocol_wire(p) + rest) == Ok::<(ConnectionProtocol, int), DecodeError>(
            (p, protocol_wire(p).len() as int),
        ),
{
    lemma2_to64();
    lemma2_to64_rest();
    lemma_varint_bytes_len((p.spec_tag() as u32) as nat, 5);
    lemma_varint_round_trip((p.spec_tag() as u32) as nat, rest, 5);
    let tg = p.spec_tag();
    assert(((tg as u32) as i32) == tg) by (bit_vector)
        requires
            -1 <= tg <= 2,
    ;
}

/// An enum of packets for a certain protocol phase. Every implementation
/// fixes, per packet, its id, direction and field wire form, and reads and
/// writes exactly as its `spec_read` and `wire_body` describe.
pub trait ProtocolPacket: Sized {
    /// The spec-level image of a packet: plain mathematical data determined
    /// by, and determining, the packet's fields.
    type Model;

    /// This packet's image.
    spec fn model(&self) -> Self::Model;

    /// The packet's fixed numeric id within its (phase, direction) table.
    spec fn spec_id(&self) -> u32;

    /// The direction this packet travels.
    spec fn spec_flow(&self) -> PacketFlow;

    /// The wire form of the packet's fields, in declared order.
    spec fn wire_body(&self) -> Seq<u8>;

    /// True when every field is exactly representable on the wire.
    spec fn wf(&self) -> bool;

    /// True exactly when `write` succeeds: every string field's UTF-8 form
    /// fits its 32-bit length prefix. Implied by `wf`.
    spec fn write_ok(&self) -> bool;

    /// What decoding an already-read id in a direction from the bytes `t`
    /// yields for this phase: the selected packet's image and the bytes its
    /// fields consume, the distinct unknown-packet error for an id absent
    /// from the (phase, direction) table, or the field codec's exact error.
    spec fn spec_read(flow: PacketFlow, id: u32, t: Seq<u8>) -> Result<
        (Self::Model, int),
        DecodeError,
    >;

    /// The packet's numeric id.
    fn id(&self) -> (r: u32)
        ensures
            r == self.spec_id(),
    ;

    /// Read a packet by its id, ConnectionProtocol and flow.
    fn read(id: u32, flow: &PacketFlow, data: &[u8], pos: &mut usize) -> (r: Result<
        Self,
        DecodeError,
    >)
        requires
            *old(pos) <= data@.len(),
        ensures
            *old(pos) <= *final(pos) <= data@.len(),
            match Self::spec_read(*flow, id, data@.skip(*old(pos) as int)) {
                Ok(mn) => r matches Ok(p) && p.model() == mn.0 && *final(pos) == *old(pos) + mn.1,
                Err(e) => r == Err::<Self, DecodeError>(e),
            },
    ;

    /// Write the packet: its id as a variable-length integer, then its
    /// fields in declared order.
    fn write(&self, buf: &mut Vec<u8>) -> (r: Result<(), EncodeError>)
        ensures
            r is Ok <==> self.write_ok(),
            r is Ok ==> final(buf)@ == old(buf)@ + varint_bytes(self.spec_id() as nat)
                + self.wire_body(),
            self.wf() ==> r is Ok,
    ;
}

/// The closed set of all packets, grouped by phase.
#[derive(Clone, Debug, PartialEq)]
pub enum Packet {
    Game(GamePacket),
    Handshake(HandshakePacket),
    Login(LoginPacket),
    Status(StatusPacket),
}

/// Spec-level image of an envelope: the phase and the contained packet's
/// image.
pub enum PacketModel {
    Game(<GamePacket as ProtocolPacket>::Model),
    Handshake(<HandshakePacket as ProtocolPacket>::Model),
    Login(<LoginPacket as ProtocolPacket>::Model),
    Status(<StatusPacket as ProtocolPacket>::Model),
}

impl Packet {
    /// The phase that owns this packet.
    pub open spec fn spec_protocol(self) -> ConnectionProtocol {
        match self {
            Packet::Game(_) => ConnectionProtocol::Game,
            Packet::Handshake(_) => ConnectionProtocol::Handshake,
            Packet::Login(_) => ConnectionProtocol::Login,
            Packet::Status(_) => ConnectionProtocol::Status,
        }
    }

    /// The direction this packet travels.
    pub open spec fn spec_flow(self) -> PacketFlow {
        match self {
            Packet::Game(p) => p.spec_flow(),
            Packet::Handshake(p) => p.spec_flow(),
            Packet::Login(p) => p.spec_flow(),
            Packet::Status(p) => p.spec_flow(),
        }
    }

    /// This packet's image.
    pub open spec fn model(self) -> PacketModel {
        match self {
            Packet::Game(p) => PacketModel::Game(p.model()),
            Packet::Handshake(p) => PacketModel::Handshake(p.model()),
            Packet::Login(p) => PacketModel::Login(p.model()),
            Packet::Status(p) => PacketModel::Status(p.model()),
        }
    }

    /// True when every field is exactly representable on the wire.
    pub open spec fn wf(self) -> bool {
        match self {
            Packet::Game(p) => p.wf(),
            Packet::Handshake(p) => p.wf(),
            Packet::Login(p) => p.wf(),
            Packet::Status(p) => p.wf(),
        }
    }

    /// True exactly when writing this packet succeeds.
    pub open spec fn write_ok(self) -> bool {
        match self {
            Packet::Game(p) => p.write_ok(),
            Packet::Handshake(p) => p.write_ok(),
            Packet::Login(p) => p.write_ok(),
            Packet::Status(p) => p.write_ok(),
        }
    }

    /// The packet's full wire form: its id as a variable-length integer,
    /// then its fields in declared order.
    pub open spec fn wire(self) -> Seq<u8> {
        match self {
            Packet::Game(p) => varint_bytes(p.spec_id() as nat) + p.wire_body(),
            Packet::Handshake(p) => varint_bytes(p.spec_id() as nat) + p.wire_body(),
            Packet::Login(p) => varint_bytes(p.spec_id() as nat) + p.wire_body(),
            Packet::Status(p) => varint_bytes(p.spec_id() as nat) + p.wire_body(),
        }
    }
}

/// What a decoder sees at the front of `t` for a given phase and direction:
/// the leading id as a variable-length integer, then the packet that id
/// selects in the phase's table for that direction.
pub open spec fn spec_read_packet(
    protocol: ConnectionProtocol,
    flow: PacketFlow,
    t: Seq<u8>,
) -> Result<(PacketModel, int), DecodeError> {
    match spec_read_varint(t, 5) {
        Err(e) => Err(e),
        Ok(vn) => {
            let id = ((vn.0 % 0x1_0000_0000) as u32);
            let rest = t.skip(vn.1);
            match protocol {
                ConnectionProtocol::Game => match GamePacket::spec_read(flow, id, rest) {
                    Ok(mn) => Ok((PacketModel::Game(mn.0), vn.1 + mn.1)),
                    Err(e) => Err(e),
                },
                ConnectionProtocol::Handshake => match HandshakePacket::spec_read(
                    flow,
                    id,
                    rest,
                ) {
                    Ok(mn) => Ok((PacketModel::Handshake(mn.0), vn.1 + mn.1)),
                    Err(e) => Err(e),
                },
                ConnectionProtocol::Login => match LoginPacket::spec_read(flow, id, rest) {
                    Ok(mn) => Ok((PacketModel::Login(mn.0), vn.1 + mn.1)),
                    Err(e) => Err(e),
                },
                ConnectionProtocol::Status => match StatusPacket::spec_read(flow, id, rest) {
                    Ok(mn) => Ok((PacketModel::Status(mn.0), vn.1 + mn.1)),
                    Err(e) => Err(e),
                },
            }
        },
    }
}

/// Reads one whole packet for the active phase and direction: the leading id
/// as a variable-length integer, then the selected packet's fields, exactly
/// as `spec_read_packet` describes.
pub fn read_packet(
    protocol: &ConnectionProtocol,
    flow: &PacketFlow,
    data: &[u8],
    pos: &mut usize,
) -> (r: Result<Packet, DecodeError>)
    requires
        *old(pos) <= data@.len(),
    ensures
        *old(pos) <= *final(pos) <= data@.len(),
        match spec_read_packet(*protocol, *flow, data@.skip(*old(pos) as int)) {
            Ok(mn) => r matches Ok(p) && p.model() == mn.0 && *final(pos) == *old(pos) + mn.1,
            Err(e) => r == Err::<Packet, DecodeError>(e),
        },
{
    let ghost t = data@.skip(*old(pos) as int);
    let id = match read_varint_u32(data, pos) {
        Ok(v) => v,
        Err(e) => {
            return Err(e);
        },
    };
    let ghost vn = spec_read_varint(t, 5)->Ok_0;
    proof {
        assert(data@.skip(*pos as int) =~= t.skip(vn.1));
    }
    match protocol {
        ConnectionProtocol::Game => match GamePacket::read(id, flow, data, pos) {
            Ok(p) => Ok(Packet::Game(p)),
            Err(e) => Err(e),
        },
        ConnectionProtocol::Handshake => match HandshakePacket::read(id, flow, data, pos) {
            Ok(p) => Ok(Packet::Handshake(p)),
            Err(e) => Err(e),
        },
        ConnectionProtocol::Login => match LoginPacket::read(id, flow, data, pos) {
            Ok(p) => Ok(Packet::Login(p)),
            Err(e) => Err(e),
        },
        ConnectionProtocol::Status => match StatusPacket::read(id, flow, data, pos) {
            Ok(p) => Ok(Packet::Status(p)),
            Err(e) => Err(e),
        },
    }
}

/// Writes one whole packet: its id as a variable-length integer, then its
/// fields in declared order. Succeeds on every well-formed packet.
pub fn write_packet(packet: &Packet, buf: &mut Vec<u8>) -> (r: Result<(), EncodeError>)
    ensures
        r is Ok <==> packet.write_ok(),
        r is Ok ==> final(buf)@ == old(buf)@ + packet.wire(),
        packet.wf() ==> r is Ok,
{
    match packet {
        Packet::Game(p) => p.write(buf),
        Packet::Handshake(p) => p.write(buf),
        Packet::Login(p) => p.write(buf),
        Packet::Status(p) => p.write(buf),
    }
}

/// Round-trip law for the envelope: every well-formed packet, written and
/// then read back under its own phase and direction, yields exactly its
/// image, consuming exactly the bytes written — no leftover, no shortfall.
#[verifier::rlimit(100)]
#[verifier::spinoff_prover]
pub proof fn lemma_packet_round_trip(p: Packet, rest: Seq<u8>)
    requires
        p.wf(),
    ensures
        spec_read_packet(p.spec_protocol(), p.spec_flow(), p.wire() + rest) == Ok::<
            (PacketModel, int),
            DecodeError,
        >((p.model(), p.wire().len() as int)),
{
    lemma2_to64();
    lemma2_to64_rest();
    let t = p.wire() + rest;
    match p {
        Packet::Game(g) => {
            let idn = g.spec_id() as nat;
            lemma_varint_bytes_len(idn, 5);
            lemma_varint_round_trip(idn, g.wire_body() + rest, 5);
            assert(t =~= varint_bytes(idn) + (g.wire_body() + rest));
            assert(t.skip(varint_bytes(idn).len() as int) =~= g.wire_body() + rest);
            crate::game::lemma_game_packet_round_trip(g, rest);
        },
        Packet::Handshake(h) => {
            let idn = h.spec_id() as nat;
            lemma_varint_bytes_len(idn, 5);
            lemma_varint_round_trip(idn, h.wire_body() + rest, 5);
            assert(t =~= varint_bytes(idn) + (h.wire_body() + rest));
            assert(t.skip(varint_bytes(idn).len() as int) =~= h.wire_body() + rest);
            crate::handshake::lemma_handshake_packet_round_trip(h, rest);
        },
        Packet::Login(l) => {
            let idn = l.spec_id() as nat;
            lemma_varint_bytes_len(idn, 5);
            lemma_varint_round_trip(idn, l.wire_body() + rest, 5);
            assert(t =~= varint_bytes(idn) + (l.wire_body() + rest));
            assert(t.skip(varint_bytes(idn).len() as int) =~= l.wire_body() + rest);
            crate::login::lemma_login_packet_round_trip(l, rest);
        },
        Packet::Status(st) => {
            let idn = st.spec_id() as nat;
            lemma_varint_bytes_len(idn, 5);
            lemma_varint_round_trip(idn, st.wire_body() + rest, 5);
            assert(t =~= varint_bytes(idn) + (st.wire_body() + rest));
            assert(t.skip(varint_bytes(idn).len() as int) =~= st.wire_body() + rest);
            crate::status::lemma_status_packet_round_trip(st, rest);
        },
    }
}

} // verus!
