use crate::error::{DecodeError, EncodeError};
use crate::fields::{be_bytes, parse_be, read_u64, string_bytes, write_string, write_u64, DEFAULT_STRING_MAX};
use crate::json::{parse_json_text, read_json_text};
use crate::packet::{parse_type_id, read_type_id, write_type_id};
use crate::varint::var_i32_bytes;
use vstd::prelude::*;
use vstd::utf8::encode_utf8;

verus! {

/// Packets a client sends in the status state.
#[derive(Debug, Clone)]
pub enum StatusServerBoundPacket {
    StatusRequest,
    PingRequest(PingRequest),
}

/// Packets a server sends in the status state.
#[derive(Debug, Clone)]
pub enum StatusClientBoundPacket {
    StatusResponse(StatusResponse),
    PingResponse(PingResponse),
}

/// A ping carrying a client timestamp.
#[derive(Debug, Clone, Copy, PartialEq, Eq, Structural)]
pub struct PingRequest {
    pub time: u64,
}

/// The echo of a ping.
#[derive(Debug, Clone, Copy, PartialEq, Eq, Structural)]
pub struct PingResponse {
    pub time: u64,
}

/// The server list entry, as the JSON text of a server status.
#[derive(Debug, Clone)]
pub struct StatusResponse {
    pub server_status: String,
}

impl PingRequest {
    /// A status-state ping packet with timestamp `time`.
    pub fn new(time: u64) -> (r: StatusServerBoundPacket)
        ensures
            r == StatusServerBoundPacket::PingRequest(PingRequest { time }),
    {
        StatusServerBoundPacket::PingRequest(PingRequest { time })
    }
}

impl PingResponse {
    /// A status-state ping answer with timestamp `time`.
    pub fn new(time: u64) -> (r: StatusClientBoundPacket)
        ensures
            r == StatusClientBoundPacket::PingResponse(PingResponse { time }),
    {
        StatusClientBoundPacket::PingResponse(PingResponse { time })
    }
}

impl StatusResponse {
    /// A status answer carrying the JSON text of a server status.
    pub fn new(server_status: String) -> (r: StatusClientBoundPacket)
        ensures
            r matches StatusClientBoundPacket::StatusResponse(s) && s.server_status == server_status,
    {
        StatusClientBoundPacket::StatusResponse(StatusResponse { server_status })
    }
}

impl StatusServerBoundPacket {
    /// Type id and body bytes of this packet.
    pub open spec fn wire(&self) -> Seq<u8> {
        match self {
            StatusServerBoundPacket::StatusRequest => seq![0u8],
            StatusServerBoundPacket::PingRequest(p) => seq![1u8] + be_bytes(p.time as nat, 8),
        }
    }

    /// Type id: `0x00` status request, `0x01` ping.
    pub fn get_type_id(&self) -> (r: u8)
        ensures
            r == match self {
                StatusServerBoundPacket::StatusRequest => 0u8,
                StatusServerBoundPacket::PingRequest(_) => 1u8,
            },
    {
        match self {
            StatusServerBoundPacket::StatusRequest => 0x00,
            StatusServerBoundPacket::PingRequest(_) => 0x01,
        }
    }

    /// Whether `r` is what decoding the packet bytes `d` gives.
    pub open spec fn decoded(d: Seq<u8>, r: Result<StatusServerBoundPacket, DecodeError>) -> bool {
        match parse_type_id(d) {
            Err(e) => r == Err::<StatusServerBoundPacket, DecodeError>(e),
            Ok((id, n)) => if id == 0 {
                r == Ok::<StatusServerBoundPacket, DecodeError>(
                    StatusServerBoundPacket::StatusRequest,
                )
            } else if id == 1 {
                match parse_be(d.skip(n as int), 8) {
                    Ok((t, _)) => r == Ok::<StatusServerBoundPacket, DecodeError>(
                        StatusServerBoundPacket::PingRequest(PingRequest { time: t as u64 }),
                    ),
                    Err(e) => r == Err::<StatusServerBoundPacket, DecodeError>(e),
                }
            } else {
                r == Err::<StatusServerBoundPacket, DecodeError>(
                    DecodeError::UnknownPacketType { type_id: id },
                )
            },
        }
    }

    /// Reads a status-state client packet: type id, then body.
    pub fn decode(d: &[u8]) -> (r: Result<StatusServerBoundPacket, DecodeError>)
        ensures
            Self::decoded(d@, r),
    {
        let _len: usize = d.len();
        let (id, p) = match read_type_id(d) {
            Ok(v) => v,
            Err(e) => return Err(e),
        };
        if id == 0 {
            Ok(StatusServerBoundPacket::StatusRequest)
        } else if id == 1 {
            match read_u64(d, p) {
                Ok((time, _)) => Ok(StatusServerBoundPacket::PingRequest(PingRequest { time })),
                Err(e) => Err(e),
            }
        } else {
            Err(DecodeError::UnknownPacketType { type_id: id })
        }
    }

    /// Appends type id and body.
    pub fn encode(&self, out: &mut Vec<u8>)
        ensures
            final(out)@ == old(out)@ + self.wire(),
    {
        proof {
            assert(var_i32_bytes(0) == seq![0u8]);
            assert(var_i32_bytes(1) == seq![1u8]);
        }
        match self {
            StatusServerBoundPacket::StatusRequest => write_type_id(0, out),
            StatusServerBoundPacket::PingRequest(p) => {
                write_type_id(1, out);
                write_u64(p.time, out);
                assert(out@ =~= old(out)@ + self.wire());
            },
        }
    }
}

impl StatusClientBoundPacket {
    /// Type id and body bytes of this packet.
    pub open spec fn wire(&self) -> Seq<u8> {
        match self {
            StatusClientBoundPacket::StatusResponse(s) => seq![0u8] + string_bytes(s.server_status@),
            StatusClientBoundPacket::PingResponse(p) => seq![1u8] + be_bytes(p.time as nat, 8),
        }
    }

    /// Type id: `0x00` status response, `0x01` ping response.
    pub fn get_type_id(&self) -> (r: u8)
        ensures
            r == match self {
                StatusClientBoundPacket::StatusResponse(_) => 0u8,
                StatusClientBoundPacket::PingResponse(_) => 1u8,
            },
    {
        match self {
            StatusClientBoundPacket::StatusResponse(_) => 0x00,
            StatusClientBoundPacket::PingResponse(_) => 0x01,
        }
    }

    /// Whether `r` is what decoding the packet bytes `d` gives.
    pub open spec fn decoded(d: Seq<u8>, r: Result<StatusClientBoundPacket, DecodeError>) -> bool {
        match parse_type_id(d) {
            Err(e) => r == Err::<StatusClientBoundPacket, DecodeError>(e),
            Ok((id, n)) => if id == 0 {
                match parse_json_text(d.skip(n as int)) {
                    Ok((s, _)) => r matches Ok(StatusClientBoundPacket::StatusResponse(x))
                        && x.server_status@ == s,
                    Err(e) => r == Err::<StatusClientBoundPacket, DecodeError>(e),
                }
            } else if id == 1 {
                match parse_be(d.skip(n as int), 8) {
                    Ok((t, _)) => r == Ok::<StatusClientBoundPacket, DecodeError>(
                        StatusClientBoundPacket::PingResponse(PingResponse { time: t as u64 }),
                    ),
                    Err(e) => r == Err::<StatusClientBoundPacket, DecodeError>(e),
                }
            } else {
                r == Err::<StatusClientBoundPacket, DecodeError>(
                    DecodeError::UnknownPacketType { type_id: id },
                )
            },
        }
    }

    /// Reads a status-state server packet: type id, then body.
    pub fn decode(d: &[u8]) -> (r: Result<StatusClientBoundPacket, DecodeError>)
        ensures
            Self::decoded(d@, r),
    {
        let _len: usize = d.len();
        let (id, p) = match read_type_id(d) {
            Ok(v) => v,
            Err(e) => return Err(e),
        };
        if id == 0 {
            match read_json_text(d, p) {
                Ok((server_status, _)) => Ok(
                    StatusClientBoundPacket::StatusResponse(StatusResponse { server_status }),
                ),
                Err(e) => Err(e),
            }
        } else if id == 1 {
            match read_u64(d, p) {
                Ok((time, _)) => Ok(StatusClientBoundPacket::PingResponse(PingResponse { time })),
                Err(e) => Err(e),
            }
        } else {
            Err(DecodeError::UnknownPacketType { type_id: id })
        }
    }

    /// Appends type id and body; a status text over 32768 bytes is refused.
    pub fn encode(&self, out: &mut Vec<u8>) -> (r: Result<(), EncodeError>)
        ensures
            r is Ok <==> (self matches StatusClientBoundPacket::StatusResponse(s) ==> encode_utf8(
                s.server_status@,
            ).len() <= DEFAULT_STRING_MAX),
            r is Ok ==> final(out)@ == old(out)@ + self.wire(),
    {
        proof {
            assert(var_i32_bytes(0) == seq![0u8]);
            assert(var_i32_bytes(1) == seq![1u8]);
        }
        match self {
            StatusClientBoundPacket::StatusResponse(s) => {
                write_type_id(0, out);
                let r = write_string(s.server_status.as_str(), DEFAULT_STRING_MAX, out);
                assert(r is Ok ==> out@ =~= old(out)@ + self.wire());
                r
            },
            StatusClientBoundPacket::PingResponse(p) => {
                write_type_id(1, out);
                write_u64(p.time, out);
                assert(out@ =~= old(out)@ + self.wire());
                Ok(())
            },
        }
    }
}

/// Status-state round trip, client side: the bytes of a packet decode to that packet.
pub proof fn lemma_status_server_round_trip(p: StatusServerBoundPacket)
    ensures
        StatusServerBoundPacket::decoded(p.wire(), Ok(p)),
{
    match p {
        StatusServerBoundPacket::StatusRequest => {
            crate::packet::lemma_type_id_round_trip(0, Seq::empty());
            assert(seq![0u8] + Seq::<u8>::empty() =~= seq![0u8]);
        },
        StatusServerBoundPacket::PingRequest(q) => {
            let body = be_bytes(q.time as nat, 8);
            crate::packet::lemma_type_id_round_trip(1, body);
            assert(p.wire().skip(1) =~= body);
            crate::fields::lemma_be_round_trip(q.time as nat, 8, Seq::empty());
            assert(body + Seq::<u8>::empty() =~= body);
            crate::fields::lemma_pow256_16();
        },
    }
}

/// Status-state round trip, server side: the bytes of a packet decode to that packet,
/// for a status text that fits its field and is JSON.
pub proof fn lemma_status_client_round_trip(p: StatusClientBoundPacket)
    requires
        p matches StatusClientBoundPacket::StatusResponse(s) ==> encode_utf8(s.server_status@).len()
            <= DEFAULT_STRING_MAX && crate::json::json_accepts(s.server_status@),
    ensures
        StatusClientBoundPacket::decoded(p.wire(), Ok(p)),
{
    match p {
        StatusClientBoundPacket::StatusResponse(s) => {
            let body = string_bytes(s.server_status@);
            crate::packet::lemma_type_id_round_trip(0, body);
            assert(p.wire().skip(1) =~= body);
            crate::fields::lemma_string_round_trip(s.server_status@, DEFAULT_STRING_MAX, Seq::empty());
            assert(body + Seq::<u8>::empty() =~= body);
        },
        StatusClientBoundPacket::PingResponse(q) => {
            let body = be_bytes(q.time as nat, 8);
            crate::packet::lemma_type_id_round_trip(1, body);
            assert(p.wire().skip(1) =~= body);
            crate::fields::lemma_be_round_trip(q.time as nat, 8, Seq::empty());
            assert(body + Seq::<u8>::empty() =~= body);
            crate::fields::lemma_pow256_16();
        },
    }
}

} // verus!
