use crate::error::{DecodeError, EncodeError};
use crate::fields::{parse_be, parse_string, read_string, read_u16, write_string, write_u16};
use crate::packet::{parse_type_id, read_type_id, write_type_id};
use crate::varint::{parse_var_i32, read_var_i32, write_var_i32};
use vstd::prelude::*;

verus! {

/// Packets a client sends in the handshake state.
#[derive(Debug, Clone)]
pub enum HandshakeServerBoundPacket {
    Handshake(Handshake),
}

/// The first packet of every connection.
#[derive(Debug, Clone)]
pub struct Handshake {
    pub protocol_version: i32,
    pub server_addr: String,
    pub server_port: u16,
    pub next_state: NextState,
}

/// The state a handshake asks for; on the wire a VarInt, 1 or 2.
#[derive(Debug, Clone, Copy, PartialEq, Eq, Structural)]
pub enum NextState {
    Status,
    Login,
}

/// Maximum byte length of the server address of a handshake.
pub const SERVER_ADDR_MAX: u16 = 255;

/// Reads the VarInt ordinal of a next state.
pub open spec fn parse_next_state(d: Seq<u8>) -> Result<(NextState, nat), DecodeError> {
    match parse_var_i32(d) {
        Ok((v, n)) => if v == 1 {
            Ok((NextState::Status, n))
        } else if v == 2 {
            Ok((NextState::Login, n))
        } else {
            Err(DecodeError::UnknownEnumType { type_id: v as usize })
        },
        Err(e) => Err(e),
    }
}

/// Wire ordinal of a next state.
pub open spec fn next_state_ordinal(s: NextState) -> i32 {
    match s {
        NextState::Status => 1,
        NextState::Login => 2,
    }
}

/// The handshake read from the start of `d`: protocol version, address, port and next
/// state, each after the other, with the bytes consumed.
pub open spec fn parse_handshake(d: Seq<u8>) -> Result<(i32, Seq<char>, u16, NextState, nat), DecodeError> {
    match parse_var_i32(d) {
        Err(e) => Err(e),
        Ok((pv, n1)) => match parse_string(d.skip(n1 as int), SERVER_ADDR_MAX) {
            Err(e) => Err(e),
            Ok((addr, n2)) => match parse_be(d.skip((n1 + n2) as int), 2) {
                Err(e) => Err(e),
                Ok((port, n3)) => match parse_next_state(d.skip((n1 + n2 + n3) as int)) {
                    Err(e) => Err(e),
                    Ok((ns, n4)) => Ok((pv, addr, port as u16, ns, n1 + n2 + n3 + n4)),
                },
            },
        },
    }
}

impl NextState {
    /// Reads a next state at `pos`.
    pub fn decode(d: &[u8], pos: usize) -> (r: Result<(NextState, usize), DecodeError>)
        requires
            pos <= d@.len(),
        ensures
            match parse_next_state(d@.skip(pos as int)) {
                Ok((s, n)) => pos + n <= d@.len() && r == Ok::<(NextState, usize), DecodeError>(
                    (s, (pos + n) as usize),
                ),
                Err(e) => r == Err::<(NextState, usize), DecodeError>(e),
            },
    {
        match read_var_i32(d, pos) {
            Ok((v, p)) => {
                if v == 1 {
                    Ok((NextState::Status, p))
                } else if v == 2 {
                    Ok((NextState::Login, p))
                } else {
                    Err(DecodeError::UnknownEnumType { type_id: v as usize })
                }
            },
            Err(e) => Err(e),
        }
    }

    /// Appends the VarInt ordinal of this state.
    pub fn encode(&self, out: &mut Vec<u8>)
        ensures
            final(out)@ == old(out)@ + crate::varint::var_i32_bytes(next_state_ordinal(*self)),
    {
        match self {
            NextState::Status => write_var_i32(1, out),
            NextState::Login => write_var_i32(2, out),
        }
    }
}

impl Handshake {
    /// Whether the body can be written: the address fits its field.
    pub open spec fn encodable(&self) -> bool {
        vstd::utf8::encode_utf8(self.server_addr@).len() <= SERVER_ADDR_MAX
    }

    /// Body bytes.
    pub open spec fn wire(&self) -> Seq<u8> {
        crate::varint::var_i32_bytes(self.protocol_version) + crate::fields::string_bytes(
            self.server_addr@,
        ) + crate::fields::be_bytes(self.server_port as nat, 2) + crate::varint::var_i32_bytes(
            next_state_ordinal(self.next_state),
        )
    }

    /// Reads a handshake body at `pos`.
    pub fn decode(d: &[u8], pos: usize) -> (r: Result<(Handshake, usize), DecodeError>)
        requires
            pos <= d@.len(),
        ensures
            match parse_handshake(d@.skip(pos as int)) {
                Ok((pv, addr, port, ns, n)) => r is Ok && r->Ok_0.0.protocol_version == pv
                    && r->Ok_0.0.server_addr@ == addr && r->Ok_0.0.server_port == port
                    && r->Ok_0.0.next_state == ns && r->Ok_0.1 == pos + n,
                Err(e) => r == Err::<(Handshake, usize), DecodeError>(e),
            },
            r is Ok ==> r->Ok_0.1 <= d@.len(),
    {
        let _len: usize = d.len();
        let ghost s = d@.skip(pos as int);
        let r1 = read_var_i32(d, pos);
        let (protocol_version, p1) = match r1 {
            Ok(v) => v,
            Err(e) => return Err(e),
        };
        assert(d@.skip(p1 as int) =~= s.skip(p1 - pos));
        let r2 = read_string(d, p1, SERVER_ADDR_MAX);
        let (server_addr, p2) = match r2 {
            Ok(v) => v,
            Err(e) => return Err(e),
        };
        assert(d@.skip(p2 as int) =~= s.skip(p2 - pos));
        let r3 = read_u16(d, p2);
        let (server_port, p3) = match r3 {
            Ok(v) => v,
            Err(e) => return Err(e),
        };
        assert(d@.skip(p3 as int) =~= s.skip(p3 - pos));
        let r4 = NextState::decode(d, p3);
        let (next_state, p4) = match r4 {
            Ok(v) => v,
            Err(e) => return Err(e),
        };
        Ok((Handshake { protocol_version, server_addr, server_port, next_state }, p4))
    }

    /// Appends the body of this handshake; an address over 255 bytes is refused.
    pub fn encode(&self, out: &mut Vec<u8>) -> (r: Result<(), EncodeError>)
        ensures
            r is Ok <==> self.encodable(),
            r is Ok ==> final(out)@ == old(out)@ + self.wire(),
    {
        write_var_i32(self.protocol_version, out);
        let r = write_string(self.server_addr.as_str(), SERVER_ADDR_MAX, out);
        if r.is_err() {
            return r;
        }
        write_u16(self.server_port, out);
        self.next_state.encode(out);
        proof {
            assert(out@ =~= old(out)@ + self.wire());
        }
        Ok(())
    }
}

impl HandshakeServerBoundPacket {
    /// Type id and body bytes of this packet.
    pub open spec fn wire(&self) -> Seq<u8> {
        match self {
            HandshakeServerBoundPacket::Handshake(h) => seq![0u8] + h.wire(),
        }
    }

    /// Type id of the packet: the handshake is `0x00`.
    pub fn get_type_id(&self) -> (r: u8)
        ensures
            r == 0,
    {
        0x00
    }

    /// Whether `r` is what decoding the packet bytes `d` gives.
    pub open spec fn decoded(d: Seq<u8>, r: Result<HandshakeServerBoundPacket, DecodeError>) -> bool {
        match parse_type_id(d) {
            Err(e) => r == Err::<HandshakeServerBoundPacket, DecodeError>(e),
            Ok((id, n)) => if id != 0 {
                r == Err::<HandshakeServerBoundPacket, DecodeError>(
                    DecodeError::UnknownPacketType { type_id: id },
                )
            } else {
                match parse_handshake(d.skip(n as int)) {
                    Ok((pv, addr, port, ns, m)) => r is Ok && r->Ok_0->Handshake_0.protocol_version == pv
                        && r->Ok_0->Handshake_0.server_addr@ == addr
                        && r->Ok_0->Handshake_0.server_port == port
                        && r->Ok_0->Handshake_0.next_state == ns,
                    Err(e) => r == Err::<HandshakeServerBoundPacket, DecodeError>(e),
                }
            },
        }
    }

    /// Reads a handshake-state packet: type id, then body. Only `0x00` is known.
    pub fn decode(d: &[u8]) -> (r: Result<HandshakeServerBoundPacket, DecodeError>)
        ensures
            Self::decoded(d@, r),
    {
        let _len: usize = d.len();
        let (id, p) = match read_type_id(d) {
            Ok(v) => v,
            Err(e) => return Err(e),
        };
        if id != 0 {
            return Err(DecodeError::UnknownPacketType { type_id: id });
        }
        match Handshake::decode(d, p) {
            Ok((h, _)) => Ok(HandshakeServerBoundPacket::Handshake(h)),
            Err(e) => Err(e),
        }
    }

    /// Appends type id and body.
    pub fn encode(&self, out: &mut Vec<u8>) -> (r: Result<(), EncodeError>)
        ensures
            r is Ok <==> (self matches HandshakeServerBoundPacket::Handshake(h) && h.encodable()),
            r is Ok ==> final(out)@ == old(out)@ + self.wire(),
    {
        write_type_id(0, out);
        proof {
            assert(crate::varint::var_i32_bytes(0) == seq![0u8]);
        }
        match self {
            HandshakeServerBoundPacket::Handshake(h) => {
                let r = h.encode(out);
                proof {
                    if r is Ok {
                        assert(out@ =~= old(out)@ + self.wire());
                    }
                }
                r
            },
        }
    }
}

/// Handshake round trip: a handshake whose address fits its field decodes from its
/// bytes to the same version, address, port and next state.
pub proof fn lemma_handshake_round_trip(p: HandshakeServerBoundPacket)
    requires
        p matches HandshakeServerBoundPacket::Handshake(h) && h.encodable(),
    ensures
        HandshakeServerBoundPacket::decoded(p.wire(), Ok(p)),
{
    let h = p->Handshake_0;
    let body = h.wire();
    crate::packet::lemma_type_id_round_trip(0, body);
    assert(p.wire().skip(1) =~= body);
    let v = crate::varint::var_i32_bytes(h.protocol_version);
    let sb = crate::fields::string_bytes(h.server_addr@);
    let pb = crate::fields::be_bytes(h.server_port as nat, 2);
    let nb = crate::varint::var_i32_bytes(next_state_ordinal(h.next_state));
    assert(body =~= v + (sb + pb + nb));
    crate::varint::lemma_var_i32_round_trip(h.protocol_version, sb + pb + nb);
    assert(body.skip(v.len() as int) =~= sb + (pb + nb));
    crate::fields::lemma_string_round_trip(h.server_addr@, SERVER_ADDR_MAX, pb + nb);
    assert(body.skip((v.len() + sb.len()) as int) =~= pb + nb);
    crate::fields::lemma_be_round_trip(h.server_port as nat, 2, nb);
    crate::fields::lemma_pow256_16();
    crate::fields::lemma_be_bytes_len(h.server_port as nat, 2);
    assert(body.skip((v.len() + sb.len() + 2) as int) =~= nb + Seq::<u8>::empty());
    crate::varint::lemma_var_i32_round_trip(next_state_ordinal(h.next_state), Seq::empty());
}

} // verus!
