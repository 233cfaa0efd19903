use vstd::prelude::*;

use crate::connect::PacketFlow;
use crate::error::{DecodeError, EncodeError};
use crate::packets::ProtocolPacket;
use crate::strings::{
    lemma_encode_utf8_len, lemma_string_round_trip, read_utf_with_len, spec_read_string,
    string_wire, write_utf,
};
use crate::varint::{varint_bytes, write_varint_u32};

verus! {

/// Id of the status-response packet in the status phase's clientbound table.
pub const STATUS_RESPONSE_ID: u32 = 0x00;

/// Id of the status-request packet in the status phase's serverbound table.
pub const STATUS_REQUEST_ID: u32 = 0x00;

/// The character bound the status text is read with.
pub const STATUS_MAX: u32 = 32767;

/// Asks the server for its status; the packet carries no fields.
#[derive(Clone, Copy, Debug, PartialEq, Eq, Structural)]
pub struct ServerboundStatusRequestPacket {}

/// Carries the server's status document as one string field.
#[derive(Clone, Debug, PartialEq)]
pub struct ClientboundStatusResponsePacket {
    pub status: String,
}

/// Spec-level image of a status packet.
pub enum StatusPacketModel {
    Response(Seq<char>),
    Request,
}

/// The status phase's packets.
#[derive(Clone, Debug, PartialEq)]
pub enum StatusPacket {
    ClientboundStatusResponsePacket(ClientboundStatusResponsePacket),
    ServerboundStatusRequestPacket(ServerboundStatusRequestPacket),
}

impl ProtocolPacket for StatusPacket {
    type Model = StatusPacketModel;

    open spec fn model(&self) -> StatusPacketModel {
        match self {
            StatusPacket::ClientboundStatusResponsePacket(p) => StatusPacketModel::Response(
                p.status@,
            ),
            StatusPacket::ServerboundStatusRequestPacket(_) => StatusPacketModel::Request,
        }
    }

    open spec fn spec_id(&self) -> u32 {
        match self {
            StatusPacket::ClientboundStatusResponsePacket(_) => STATUS_RESPONSE_ID,
            StatusPacket::ServerboundStatusRequestPacket(_) => STATUS_REQUEST_ID,
        }
    }

    open spec fn spec_flow(&self) -> PacketFlow {
        match self {
            StatusPacket::ClientboundStatusResponsePacket(_) => PacketFlow::ServerToClient,
            StatusPacket::ServerboundStatusRequestPacket(_) => PacketFlow::ClientToServer,
        }
    }

    open spec fn wire_body(&self) -> Seq<u8> {
        match self {
            StatusPacket::ClientboundStatusResponsePacket(p) => string_wire(p.status@),
            StatusPacket::ServerboundStatusRequestPacket(_) => Seq::empty(),
        }
    }

    open spec fn wf(&self) -> bool {
        match self {
            StatusPacket::ClientboundStatusResponsePacket(p) => p.status@.len() <= STATUS_MAX,
            StatusPacket::ServerboundStatusRequestPacket(_) => true,
        }
    }

    open spec fn write_ok(&self) -> bool {
        match self {
            StatusPacket::ClientboundStatusResponsePacket(p) => vstd::utf8::encode_utf8(
                p.status@,
            ).len() <= 0xFFFF_FFFF,
            StatusPacket::ServerboundStatusRequestPacket(_) => true,
        }
    }

    open spec fn spec_read(flow: PacketFlow, id: u32, t: Seq<u8>) -> Result<
        (StatusPacketModel, int),
        DecodeError,
    > {
        if flow == PacketFlow::ServerToClient && id == STATUS_RESPONSE_ID {
            match spec_read_string(t, STATUS_MAX as nat) {
                Ok(sn) => Ok((StatusPacketModel::Response(sn.0), sn.1)),
                Err(e) => Err(e),
            }
        } else if flow == PacketFlow::ClientToServer && id == STATUS_REQUEST_ID {
            Ok((StatusPacketModel::Request, 0))
        } else {
            Err(DecodeError::UnknownPacketId)
        }
    }

    fn id(&self) -> (r: u32) {
        match self {
            StatusPacket::ClientboundStatusResponsePacket(_) => STATUS_RESPONSE_ID,
            StatusPacket::ServerboundStatusRequestPacket(_) => STATUS_REQUEST_ID,
        }
    }

    fn read(id: u32, flow: &PacketFlow, data: &[u8], pos: &mut usize) -> (r: Result<
        StatusPacket,
        DecodeError,
    >) {
        match flow {
            PacketFlow::ServerToClient => {
                if id == STATUS_RESPONSE_ID {
                    match read_utf_with_len(data, pos, STATUS_MAX) {
                        Ok(status) => Ok(
                            StatusPacket::ClientboundStatusResponsePacket(
                                ClientboundStatusResponsePacket { status },
                            ),
                        ),
                        Err(e) => Err(e),
                    }
                } else {
                    Err(DecodeError::UnknownPacketId)
                }
            },
            PacketFlow::ClientToServer => {
                if id == STATUS_REQUEST_ID {
                    Ok(StatusPacket::ServerboundStatusRequestPacket(ServerboundStatusRequestPacket {  }))
                } else {
                    Err(DecodeError::UnknownPacketId)
                }
            },
        }
    }

    fn write(&self, buf: &mut Vec<u8>) -> (r: Result<(), EncodeError>) {
        match self {
            StatusPacket::ClientboundStatusResponsePacket(p) => {
                write_varint_u32(STATUS_RESPONSE_ID, buf);
                proof {
                    if p.status@.len() <= STATUS_MAX {
                        lemma_encode_utf8_len(p.status@);
                    }
                }
                let r = write_utf(p.status.as_str(), buf);
                proof {
                    if r is Ok {
                        assert(buf@ =~= old(buf)@ + varint_bytes(self.spec_id() as nat)
                            + self.wire_body());
                    }
                }
                r
            },
            StatusPacket::ServerboundStatusRequestPacket(_) => {
                write_varint_u32(STATUS_REQUEST_ID, buf);
                proof {
                    assert(buf@ =~= old(buf)@ + varint_bytes(self.spec_id() as nat)
                        + self.wire_body());
                }
                Ok(())
            },
        }
    }
}

/// Round trip for the status phase: a well-formed packet's wire body, read
/// back under its own id and direction, yields the identical image and
/// consumes exactly its bytes.
pub proof fn lemma_status_packet_round_trip(p: StatusPacket, rest: Seq<u8>)
    requires
        p.wf(),
    ensures
        StatusPacket::spec_read(p.spec_flow(), p.spec_id(), p.wire_body() + rest) == Ok::<
            (StatusPacketModel, int),
            DecodeError,
        >((p.model(), p.wire_body().len() as int)),
{
    match p {
        StatusPacket::ClientboundStatusResponsePacket(sr) => {
            lemma_encode_utf8_len(sr.status@);
            lemma_string_round_trip(sr.status@, rest, STATUS_MAX as nat);
            assert(p.wire_body() + rest =~= string_wire(sr.status@) + rest);
        },
        StatusPacket::ServerboundStatusRequestPacket(_) => {
            assert(p.wire_body().len() == 0);
        },
    }
}

} // verus!
