use crate::error::{DecodeError, EncodeError};
use crate::fields::{append_bytes, parse_string, read_rest, read_string, string_bytes, write_string, DEFAULT_STRING_MAX};
use crate::packet::{parse_type_id, read_type_id, write_type_id};
use crate::varint::var_i32_bytes;
use vstd::prelude::*;
use vstd::utf8::encode_utf8;

verus! {

/// Type id of the plugin message a client sends in the play state.
pub const SERVER_BOUND_PLUGIN_MESSAGE_ID: u8 = 0x10;

/// Type id of the plugin message a server sends in the play state.
pub const CLIENT_BOUND_PLUGIN_MESSAGE_ID: u8 = 0x18;

/// Packets a client sends in the play state. Only the plugin message is decoded; every
/// other packet keeps its type id alone.
#[derive(Debug, Clone)]
pub enum GameServerBoundPacket {
    Other { type_id: u8 },
    ServerBoundPluginMessage(PlayPluginMessage),
}

/// Packets a server sends in the play state. Only the plugin message is decoded.
#[derive(Debug, Clone)]
pub enum GameClientBoundPacket {
    Other { type_id: u8 },
    ClientBoundPluginMessage(PlayPluginMessage),
}

/// A message on a named custom channel: the channel, then the payload up to the end of
/// the packet.
#[derive(Debug, Clone)]
pub struct PlayPluginMessage {
    pub channel: String,
    pub data: Vec<u8>,
}

/// A plugin message read from the start of `d`: channel name, then the remaining
/// bytes as payload.
pub open spec fn parse_plugin_message(d: Seq<u8>) -> Result<(Seq<char>, Seq<u8>), DecodeError> {
    match parse_string(d, DEFAULT_STRING_MAX) {
        Ok((c, n)) => Ok((c, d.skip(n as int))),
        Err(e) => Err(e),
    }
}

/// Body bytes of a plugin message.
pub open spec fn plugin_message_bytes(channel: Seq<char>, data: Seq<u8>) -> Seq<u8> {
    string_bytes(channel) + data
}

impl PlayPluginMessage {
    /// Reads a plugin message body at `pos`; the payload runs to the end of `d`.
    pub fn decode(d: &[u8], pos: usize) -> (r: Result<PlayPluginMessage, DecodeError>)
        requires
            pos <= d@.len(),
        ensures
            match parse_plugin_message(d@.skip(pos as int)) {
                Ok((c, data)) => r is Ok && r->Ok_0.channel@ == c && r->Ok_0.data@ == data,
                Err(e) => r == Err::<PlayPluginMessage, DecodeError>(e),
            },
    {
        let _len: usize = d.len();
        let (channel, p) = match read_string(d, pos, DEFAULT_STRING_MAX) {
            Ok(v) => v,
            Err(e) => return Err(e),
        };
        let data = read_rest(d, p);
        proof {
            assert(d@.skip(p as int) =~= d@.skip(pos as int).skip(p - pos));
        }
        Ok(PlayPluginMessage { channel, data })
    }

    /// Appends the body: channel, then payload. A channel over 32768 bytes is refused.
    pub fn encode(&self, out: &mut Vec<u8>) -> (r: Result<(), EncodeError>)
        ensures
            r is Ok <==> encode_utf8(self.channel@).len() <= DEFAULT_STRING_MAX,
            r is Ok ==> final(out)@ == old(out)@ + plugin_message_bytes(self.channel@, self.data@),
    {
        let r = write_string(self.channel.as_str(), DEFAULT_STRING_MAX, out);
        if r.is_err() {
            return r;
        }
        append_bytes(out, self.data.as_slice());
        proof {
            assert(out@ =~= old(out)@ + plugin_message_bytes(self.channel@, self.data@));
        }
        Ok(())
    }
}

impl GameServerBoundPacket {
    /// Type id and body bytes of this packet.
    pub open spec fn wire(&self) -> Seq<u8> {
        match self {
            GameServerBoundPacket::Other { type_id } => var_i32_bytes(*type_id as i32),
            GameServerBoundPacket::ServerBoundPluginMessage(m) => var_i32_bytes(SERVER_BOUND_PLUGIN_MESSAGE_ID as i32) + plugin_message_bytes(
                m.channel@,
                m.data@,
            ),
        }
    }

    /// Type id: `0x10` for the plugin message, the kept id for any other packet.
    pub fn get_type_id(&self) -> (r: u8)
        ensures
            r == match self {
                GameServerBoundPacket::Other { type_id } => *type_id,
                GameServerBoundPacket::ServerBoundPluginMessage(_) => SERVER_BOUND_PLUGIN_MESSAGE_ID,
            },
    {
        match self {
            GameServerBoundPacket::Other { type_id } => *type_id,
            GameServerBoundPacket::ServerBoundPluginMessage(_) => SERVER_BOUND_PLUGIN_MESSAGE_ID,
        }
    }

    /// Whether `r` is what decoding the packet bytes `d` gives.
    pub open spec fn decoded(d: Seq<u8>, r: Result<GameServerBoundPacket, DecodeError>) -> bool {
        match parse_type_id(d) {
            Err(e) => r == Err::<GameServerBoundPacket, DecodeError>(e),
            Ok((id, n)) => if id == SERVER_BOUND_PLUGIN_MESSAGE_ID {
                match parse_plugin_message(d.skip(n as int)) {
                    Ok((c, data)) => r matches Ok(
                        GameServerBoundPacket::ServerBoundPluginMessage(m),
                    ) && m.channel@ == c && m.data@ == data,
                    Err(e) => r == Err::<GameServerBoundPacket, DecodeError>(e),
                }
            } else {
                r == Ok::<GameServerBoundPacket, DecodeError>(
                    GameServerBoundPacket::Other { type_id: id },
                )
            },
        }
    }

    /// Reads a play-state client packet. An id other than `0x10` gives `Other` with that
    /// id, whatever the body holds.
    pub fn decode(d: &[u8]) -> (r: Result<GameServerBoundPacket, DecodeError>)
        ensures
            Self::decoded(d@, r),
    {
        let _len: usize = d.len();
        let (id, p) = match read_type_id(d) {
            Ok(v) => v,
            Err(e) => return Err(e),
        };
        if id == SERVER_BOUND_PLUGIN_MESSAGE_ID {
            match PlayPluginMessage::decode(d, p) {
                Ok(m) => Ok(GameServerBoundPacket::ServerBoundPluginMessage(m)),
                Err(e) => Err(e),
            }
        } else {
            Ok(GameServerBoundPacket::Other { type_id: id })
        }
    }

    /// Appends type id and body; `Other` has no body of its own.
    pub fn encode(&self, out: &mut Vec<u8>) -> (r: Result<(), EncodeError>)
        ensures
            r is Ok <==> (self matches GameServerBoundPacket::ServerBoundPluginMessage(m) ==> encode_utf8(m.channel@).len()
                <= DEFAULT_STRING_MAX),
            r is Ok ==> final(out)@ == old(out)@ + self.wire(),
    {
        match self {
            GameServerBoundPacket::Other { type_id } => {
                write_type_id(*type_id, out);
                Ok(())
            },
            GameServerBoundPacket::ServerBoundPluginMessage(m) => {
                write_type_id(SERVER_BOUND_PLUGIN_MESSAGE_ID, out);
                let r = m.encode(out);
                proof {
                    if r is Ok {
                        assert(out@ =~= old(out)@ + var_i32_bytes(SERVER_BOUND_PLUGIN_MESSAGE_ID as i32)
                            + plugin_message_bytes(m.channel@, m.data@));
                    }
                }
                r
            },
        }
    }
}

impl GameClientBoundPacket {
    /// Type id and body bytes of this packet.
    pub open spec fn wire(&self) -> Seq<u8> {
        match self {
            GameClientBoundPacket::Other { type_id } => var_i32_bytes(*type_id as i32),
            GameClientBoundPacket::ClientBoundPluginMessage(m) => var_i32_bytes(CLIENT_BOUND_PLUGIN_MESSAGE_ID as i32) + plugin_message_bytes(
                m.channel@,
                m.data@,
            ),
        }
    }

    /// Type id: `0x18` for the plugin message, the kept id for any other packet.
    pub fn get_type_id(&self) -> (r: u8)
        ensures
            r == match self {
                GameClientBoundPacket::Other { type_id } => *type_id,
                GameClientBoundPacket::ClientBoundPluginMessage(_) => CLIENT_BOUND_PLUGIN_MESSAGE_ID,
            },
    {
        match self {
            GameClientBoundPacket::Other { type_id } => *type_id,
            GameClientBoundPacket::ClientBoundPluginMessage(_) => CLIENT_BOUND_PLUGIN_MESSAGE_ID,
        }
    }

    /// Whether `r` is what decoding the packet bytes `d` gives.
    pub open spec fn decoded(d: Seq<u8>, r: Result<GameClientBoundPacket, DecodeError>) -> bool {
        match parse_type_id(d) {
            Err(e) => r == Err::<GameClientBoundPacket, DecodeError>(e),
            Ok((id, n)) => if id == CLIENT_BOUND_PLUGIN_MESSAGE_ID {
                match parse_plugin_message(d.skip(n as int)) {
                    Ok((c, data)) => r matches Ok(
                        GameClientBoundPacket::ClientBoundPluginMessage(m),
                    ) && m.channel@ == c && m.data@ == data,
                    Err(e) => r == Err::<GameClientBoundPacket, DecodeError>(e),
                }
            } else {
                r == Ok::<GameClientBoundPacket, DecodeError>(
                    GameClientBoundPacket::Other { type_id: id },
                )
            },
        }
    }

    /// Reads a play-state server packet. An id other than `0x18` gives `Other` with that
    /// id, whatever the body holds.
    pub fn decode(d: &[u8]) -> (r: Result<GameClientBoundPacket, DecodeError>)
        ensures
            Self::decoded(d@, r),
    {
        let _len: usize = d.len();
        let (id, p) = match read_type_id(d) {
            Ok(v) => v,
            Err(e) => return Err(e),
        };
        if id == CLIENT_BOUND_PLUGIN_MESSAGE_ID {
            match PlayPluginMessage::decode(d, p) {
                Ok(m) => Ok(GameClientBoundPacket::ClientBoundPluginMessage(m)),
                Err(e) => Err(e),
            }
        } else {
            Ok(GameClientBoundPacket::Other { type_id: id })
        }
    }

    /// Appends type id and body; `Other` has no body of its own.
    pub fn encode(&self, out: &mut Vec<u8>) -> (r: Result<(), EncodeError>)
        ensures
            r is Ok <==> (self matches GameClientBoundPacket::ClientBoundPluginMessage(m) ==> encode_utf8(m.channel@).len()
                <= DEFAULT_STRING_MAX),
            r is Ok ==> final(out)@ == old(out)@ + self.wire(),
    {
        match self {
            GameClientBoundPacket::Other { type_id } => {
                write_type_id(*type_id, out);
                Ok(())
            },
            GameClientBoundPacket::ClientBoundPluginMessage(m) => {
                write_type_id(CLIENT_BOUND_PLUGIN_MESSAGE_ID, out);
                let r = m.encode(out);
                proof {
                    if r is Ok {
                        assert(out@ =~= old(out)@ + var_i32_bytes(CLIENT_BOUND_PLUGIN_MESSAGE_ID as i32)
                            + plugin_message_bytes(m.channel@, m.data@));
                    }
                }
                r
            },
        }
    }
}

/// Play-state round trip, client side: a plugin message whose channel fits its field,
/// or an opaque packet with another id, decodes from its bytes to itself.
pub proof fn lemma_game_server_round_trip(p: GameServerBoundPacket)
    requires
        p matches GameServerBoundPacket::ServerBoundPluginMessage(m) ==> encode_utf8(m.channel@).len()
            <= DEFAULT_STRING_MAX,
        p matches GameServerBoundPacket::Other { type_id } ==> type_id != SERVER_BOUND_PLUGIN_MESSAGE_ID,
    ensures
        GameServerBoundPacket::decoded(p.wire(), Ok(p)),
{
    match p {
        GameServerBoundPacket::Other { type_id } => {
            crate::packet::lemma_type_id_bytes_round_trip(type_id, Seq::empty());
            assert(var_i32_bytes(type_id as i32) + Seq::<u8>::empty() =~= p.wire());
        },
        GameServerBoundPacket::ServerBoundPluginMessage(m) => {
            let h = var_i32_bytes(SERVER_BOUND_PLUGIN_MESSAGE_ID as i32);
            let body = plugin_message_bytes(m.channel@, m.data@);
            crate::packet::lemma_type_id_bytes_round_trip(SERVER_BOUND_PLUGIN_MESSAGE_ID, body);
            assert(p.wire().skip(h.len() as int) =~= body);
            crate::fields::lemma_string_round_trip(m.channel@, DEFAULT_STRING_MAX, m.data@);
            assert(body.skip(string_bytes(m.channel@).len() as int) =~= m.data@);
        },
    }
}

/// Play-state round trip, server side.
pub proof fn lemma_game_client_round_trip(p: GameClientBoundPacket)
    requires
        p matches GameClientBoundPacket::ClientBoundPluginMessage(m) ==> encode_utf8(m.channel@).len()
            <= DEFAULT_STRING_MAX,
        p matches GameClientBoundPacket::Other { type_id } ==> type_id != CLIENT_BOUND_PLUGIN_MESSAGE_ID,
    ensures
        GameClientBoundPacket::decoded(p.wire(), Ok(p)),
{
    match p {
        GameClientBoundPacket::Other { type_id } => {
            crate::packet::lemma_type_id_bytes_round_trip(type_id, Seq::empty());
            assert(var_i32_bytes(type_id as i32) + Seq::<u8>::empty() =~= p.wire());
        },
        GameClientBoundPacket::ClientBoundPluginMessage(m) => {
            let h = var_i32_bytes(CLIENT_BOUND_PLUGIN_MESSAGE_ID as i32);
            let body = plugin_message_bytes(m.channel@, m.data@);
            crate::packet::lemma_type_id_bytes_round_trip(CLIENT_BOUND_PLUGIN_MESSAGE_ID, body);
            assert(p.wire().skip(h.len() as int) =~= body);
            crate::fields::lemma_string_round_trip(m.channel@, DEFAULT_STRING_MAX, m.data@);
            assert(body.skip(string_bytes(m.channel@).len() as int) =~= m.data@);
        },
    }
}

} // verus!
