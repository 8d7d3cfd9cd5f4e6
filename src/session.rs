//! Per-direction session codecs: framing plus the protocol state that picks the
//! packet catalog.
use crate::codec::{frame_bytes, frame_outcome, frame_rest, FrameOutcome, MinecraftCodec};
use crate::error::{DecodeError, EncodeError};
use crate::packet::configuration::{ConfigClientBoundPaket, ConfigServerBoundPacket};
use crate::packet::game::{GameClientBoundPacket, GameServerBoundPacket};
use crate::packet::handshake::HandshakeServerBoundPacket;
use crate::packet::login::{LoginClientBoundPacket, LoginServerBoundPacket};
use crate::packet::status::{StatusClientBoundPacket, StatusServerBoundPacket};
use vstd::prelude::*;

verus! {

/// Phase of the protocol; it picks the catalog that decodes the next packet.
#[derive(Debug, Clone, Copy, PartialEq, Eq, Structural, Hash)]
pub enum ProtocolState {
    Handshake,
    Status,
    Login,
    Configuration,
    Play,
}

/// A packet a client sends, tagged with the state whose catalog decoded it.
#[derive(Debug, Clone)]
pub enum ClientPacket {
    Handshake(HandshakeServerBoundPacket),
    Status(StatusServerBoundPacket),
    Login(LoginServerBoundPacket),
    Configuration(ConfigServerBoundPacket),
    Game(GameServerBoundPacket),
}

/// A packet a server sends, tagged with the state whose catalog decoded it.
#[derive(Debug, Clone)]
pub enum ServerPacket {
    Status(StatusClientBoundPacket),
    Login(LoginClientBoundPacket),
    Configuration(ConfigClientBoundPaket),
    Play(GameClientBoundPacket),
}

/// Whether `r` is what the client catalog of `state` makes of the packet bytes `b`.
pub open spec fn client_decoded(state: ProtocolState, b: Seq<u8>, r: Result<ClientPacket, DecodeError>) -> bool {
    match (state, r) {
        (_, Err(e)) => match state {
            ProtocolState::Handshake => HandshakeServerBoundPacket::decoded(b, Err(e)),
            ProtocolState::Status => StatusServerBoundPacket::decoded(b, Err(e)),
            ProtocolState::Login => LoginServerBoundPacket::decoded(b, Err(e)),
            ProtocolState::Configuration => ConfigServerBoundPacket::decoded(b, Err(e)),
            ProtocolState::Play => GameServerBoundPacket::decoded(b, Err(e)),
        },
        (ProtocolState::Handshake, Ok(ClientPacket::Handshake(p))) => HandshakeServerBoundPacket::decoded(b, Ok(p)),
        (ProtocolState::Status, Ok(ClientPacket::Status(p))) => StatusServerBoundPacket::decoded(b, Ok(p)),
        (ProtocolState::Login, Ok(ClientPacket::Login(p))) => LoginServerBoundPacket::decoded(b, Ok(p)),
        (ProtocolState::Configuration, Ok(ClientPacket::Configuration(p))) => ConfigServerBoundPacket::decoded(b, Ok(p)),
        (ProtocolState::Play, Ok(ClientPacket::Game(p))) => GameServerBoundPacket::decoded(b, Ok(p)),
        _ => false,
    }
}

/// Whether `r` is what the server catalog of `state` makes of the packet bytes `b`;
/// there is none for the handshake state.
pub open spec fn server_decoded(state: ProtocolState, b: Seq<u8>, r: Result<ServerPacket, DecodeError>) -> bool {
    match (state, r) {
        (ProtocolState::Handshake, _) => false,
        (_, Err(e)) => match state {
            ProtocolState::Status => StatusClientBoundPacket::decoded(b, Err(e)),
            ProtocolState::Login => LoginClientBoundPacket::decoded(b, Err(e)),
            ProtocolState::Configuration => ConfigClientBoundPaket::decoded(b, Err(e)),
            _ => GameClientBoundPacket::decoded(b, Err(e)),
        },
        (ProtocolState::Status, Ok(ServerPacket::Status(p))) => StatusClientBoundPacket::decoded(b, Ok(p)),
        (ProtocolState::Login, Ok(ServerPacket::Login(p))) => LoginClientBoundPacket::decoded(b, Ok(p)),
        (ProtocolState::Configuration, Ok(ServerPacket::Configuration(p))) => ConfigClientBoundPaket::decoded(b, Ok(p)),
        (ProtocolState::Play, Ok(ServerPacket::Play(p))) => GameClientBoundPacket::decoded(b, Ok(p)),
        _ => false,
    }
}

/// Whether `r` is what a session decoder gives for the next frame of `buf`, each packet
/// being decoded as `dec` says.
pub open spec fn frame_decoded<P>(
    buf: Seq<u8>,
    compressed: bool,
    r: Result<Option<P>, DecodeError>,
    dec: spec_fn(Seq<u8>, Result<P, DecodeError>) -> bool,
) -> bool {
    match frame_outcome(buf, compressed) {
        FrameOutcome::NotYet => r == Ok::<Option<P>, DecodeError>(None),
        FrameOutcome::Failed(e) => r == Err::<Option<P>, DecodeError>(e),
        FrameOutcome::Packet(b) => match r {
            Ok(Some(p)) => dec(b, Ok(p)),
            Ok(None) => false,
            Err(e) => dec(b, Err(e)),
        },
    }
}

impl ClientPacket {
    /// Type id of the inner packet.
    pub fn get_type_id(&self) -> (r: u8)
        ensures
            r == match self {
                ClientPacket::Handshake(_) => 0u8,
                ClientPacket::Status(p) => match p {
                    StatusServerBoundPacket::StatusRequest => 0u8,
                    StatusServerBoundPacket::PingRequest(_) => 1u8,
                },
                ClientPacket::Login(p) => match p {
                    LoginServerBoundPacket::LoginStart(_) => 0u8,
                    LoginServerBoundPacket::EncryptionResponse(_) => 1u8,
                    LoginServerBoundPacket::LoginPluginResponse(_) => 2u8,
                    LoginServerBoundPacket::LoginAcknowledged => 3u8,
                },
                ClientPacket::Configuration(p) => match p {
                    ConfigServerBoundPacket::ClientInformation(_) => 0u8,
                    ConfigServerBoundPacket::ServerBoundPluginMessage(_) => 1u8,
                    ConfigServerBoundPacket::AcknowledgeFinishConfiguration => 2u8,
                    ConfigServerBoundPacket::ServerBoundKeepAlive(_) => 3u8,
                    ConfigServerBoundPacket::Pong(_) => 4u8,
                    ConfigServerBoundPacket::ResourcePackResponse(_) => 5u8,
                },
                ClientPacket::Game(p) => match p {
                    GameServerBoundPacket::Other { type_id } => *type_id,
                    GameServerBoundPacket::ServerBoundPluginMessage(_) => 0x10u8,
                },
            },
    {
        match self {
            ClientPacket::Handshake(p) => p.get_type_id(),
            ClientPacket::Status(p) => p.get_type_id(),
            ClientPacket::Login(p) => p.get_type_id(),
            ClientPacket::Configuration(p) => p.get_type_id(),
            ClientPacket::Game(p) => p.get_type_id(),
        }
    }
}

impl ServerPacket {
    /// Type id of the inner packet.
    pub fn id(&self) -> (r: u8)
        ensures
            r == match self {
                ServerPacket::Status(p) => match p {
                    StatusClientBoundPacket::StatusResponse(_) => 0u8,
                    StatusClientBoundPacket::PingResponse(_) => 1u8,
                },
                ServerPacket::Login(p) => match p {
                    LoginClientBoundPacket::LoginDisconnect(_) => 0u8,
                    LoginClientBoundPacket::EncryptionRequest(_) => 1u8,
                    LoginClientBoundPacket::LoginSuccess(_) => 2u8,
                    LoginClientBoundPacket::SetCompression(_) => 3u8,
                    LoginClientBoundPacket::LoginPluginRequest(_) => 4u8,
                },
                ServerPacket::Configuration(p) => match p {
                    ConfigClientBoundPaket::ClientBoundPluginMessage(_) => 0u8,
                    ConfigClientBoundPaket::ConfigDisconnect(_) => 1u8,
                    ConfigClientBoundPaket::FinishConfiguration => 2u8,
                    ConfigClientBoundPaket::ClientboundKeepAlive(_) => 3u8,
                    ConfigClientBoundPaket::Ping(_) => 4u8,
                    ConfigClientBoundPaket::RegistryData(_) => 5u8,
                    ConfigClientBoundPaket::RemoveResourcePack(_) => 6u8,
                    ConfigClientBoundPaket::AddResourcePack(_) => 7u8,
                    ConfigClientBoundPaket::FeatureFlags(_) => 8u8,
                    ConfigClientBoundPaket::UpdateTags(_) => 9u8,
                },
                ServerPacket::Play(p) => match p {
                    GameClientBoundPacket::Other { type_id } => *type_id,
                    GameClientBoundPacket::ClientBoundPluginMessage(_) => 0x18u8,
                },
            },
    {
        match self {
            ServerPacket::Status(p) => p.get_type_id(),
            ServerPacket::Login(p) => p.get_type_id(),
            ServerPacket::Configuration(p) => p.get_type_id(),
            ServerPacket::Play(p) => p.get_type_id(),
        }
    }
}

/// Decodes what a client sends: one framing codec and the current protocol state.
pub struct ClientPacketCodec {
    state: ProtocolState,
    codec: MinecraftCodec,
}

/// Decodes what a server sends, and frames what is sent in its name.
pub struct ServerPacketCodec {
    state: ProtocolState,
    codec: MinecraftCodec,
}

impl ClientPacketCodec {
    pub closed spec fn framing(&self) -> MinecraftCodec {
        self.codec
    }

    pub closed spec fn spec_state(&self) -> ProtocolState {
        self.state
    }

    pub open spec fn wf(&self) -> bool {
        self.framing().wf()
    }

    /// A codec in the handshake state with plain framing.
    pub fn new() -> (r: ClientPacketCodec)
        ensures
            r.wf(),
            r.spec_state() == ProtocolState::Handshake,
            r.framing().received() == Seq::<u8>::empty(),
            r.framing().threshold() is None,
            r.framing().key() is None,
    {
        ClientPacketCodec { state: ProtocolState::Handshake, codec: MinecraftCodec::new() }
    }

    pub fn state(&self) -> (r: ProtocolState)
        ensures
            r == self.spec_state(),
    {
        self.state
    }

    pub fn set_state(&mut self, state: ProtocolState)
        ensures
            final(self).spec_state() == state,
            final(self).framing() == old(self).framing(),
    {
        self.state = state;
    }

    pub fn set_compression(&mut self, threshold: usize)
        requires
            old(self).wf(),
        ensures
            final(self).wf(),
            final(self).spec_state() == old(self).spec_state(),
            final(self).framing().threshold() == Some(threshold),
            final(self).framing().key() == old(self).framing().key(),
            final(self).framing().received() == old(self).framing().received(),
            final(self).framing().decrypt_iv() == old(self).framing().decrypt_iv(),
    {
        self.codec.enable_compression(threshold);
    }

    /// Takes in bytes from the client and decodes the next whole frame, if any, with the
    /// catalog of the current state.
    pub fn decode(&mut self, data: &[u8]) -> (r: Result<Option<ClientPacket>, DecodeError>)
        requires
            old(self).wf(),
        ensures
            final(self).wf(),
            final(self).spec_state() == old(self).spec_state(),
            final(self).framing().key() == old(self).framing().key(),
            final(self).framing().threshold() == old(self).framing().threshold(),
            final(self).framing().decrypt_iv() == old(self).framing().decrypt_iv_after(data@),
            final(self).framing().received() == frame_rest(
                old(self).framing().received_after(data@),
            ),
            frame_decoded(
                old(self).framing().received_after(data@),
                old(self).framing().threshold() is Some,
                r,
                |b: Seq<u8>, x: Result<ClientPacket, DecodeError>|
                    client_decoded(old(self).spec_state(), b, x),
            ),
    {
        self.codec.accept(data);
        let bytes = match self.codec.next_packet() {
            Ok(Some(b)) => b,
            Ok(None) => return Ok(None),
            Err(e) => return Err(e),
        };
        let d = bytes.as_slice();
        match self.state {
            ProtocolState::Handshake => match HandshakeServerBoundPacket::decode(d) {
                Ok(p) => Ok(Some(ClientPacket::Handshake(p))),
                Err(e) => Err(e),
            },
            ProtocolState::Status => match StatusServerBoundPacket::decode(d) {
                Ok(p) => Ok(Some(ClientPacket::Status(p))),
                Err(e) => Err(e),
            },
            ProtocolState::Login => match LoginServerBoundPacket::decode(d) {
                Ok(p) => Ok(Some(ClientPacket::Login(p))),
                Err(e) => Err(e),
            },
            ProtocolState::Configuration => match ConfigServerBoundPacket::decode(d) {
                Ok(p) => Ok(Some(ClientPacket::Configuration(p))),
                Err(e) => Err(e),
            },
            ProtocolState::Play => match GameServerBoundPacket::decode(d) {
                Ok(p) => Ok(Some(ClientPacket::Game(p))),
                Err(e) => Err(e),
            },
        }
    }
}

impl ServerPacketCodec {
    pub closed spec fn framing(&self) -> MinecraftCodec {
        self.codec
    }

    pub closed spec fn spec_state(&self) -> ProtocolState {
        self.state
    }

    pub open spec fn wf(&self) -> bool {
        self.framing().wf()
    }

    /// A codec in the handshake state with plain framing.
    pub fn new() -> (r: ServerPacketCodec)
        ensures
            r.wf(),
            r.spec_state() == ProtocolState::Handshake,
            r.framing().received() == Seq::<u8>::empty(),
            r.framing().threshold() is None,
            r.framing().key() is None,
    {
        ServerPacketCodec { state: ProtocolState::Handshake, codec: MinecraftCodec::new() }
    }

    pub fn state(&self) -> (r: ProtocolState)
        ensures
            r == self.spec_state(),
    {
        self.state
    }

    pub fn set_state(&mut self, state: ProtocolState)
        ensures
            final(self).spec_state() == state,
            final(self).framing() == old(self).framing(),
    {
        self.state = state;
    }

    pub fn set_compression(&mut self, threshold: usize)
        requires
            old(self).wf(),
        ensures
            final(self).wf(),
            final(self).spec_state() == old(self).spec_state(),
            final(self).framing().threshold() == Some(threshold),
            final(self).framing().key() == old(self).framing().key(),
            final(self).framing().received() == old(self).framing().received(),
            final(self).framing().decrypt_iv() == old(self).framing().decrypt_iv(),
            final(self).framing().encrypt_iv() == old(self).framing().encrypt_iv(),
    {
        self.codec.enable_compression(threshold);
    }

    /// Takes in bytes from the server and decodes the next whole frame, if any, with the
    /// catalog of the current state. In the handshake state the bytes are taken in but
    /// refused: a server never speaks first.
    pub fn decode(&mut self, data: &[u8]) -> (r: Result<Option<ServerPacket>, DecodeError>)
        requires
            old(self).wf(),
        ensures
            final(self).wf(),
            final(self).spec_state() == old(self).spec_state(),
            final(self).framing().key() == old(self).framing().key(),
            final(self).framing().threshold() == old(self).framing().threshold(),
            final(self).framing().decrypt_iv() == old(self).framing().decrypt_iv_after(data@),
            old(self).spec_state() == ProtocolState::Handshake ==> r == Err::<
                Option<ServerPacket>,
                DecodeError,
            >(DecodeError::DataSentDuringHandshake) && final(self).framing().received() == old(
                self,
            ).framing().received_after(data@),
            old(self).spec_state() != ProtocolState::Handshake ==> final(self).framing().received()
                == frame_rest(old(self).framing().received_after(data@)) && frame_decoded(
                old(self).framing().received_after(data@),
                old(self).framing().threshold() is Some,
                r,
                |b: Seq<u8>, x: Result<ServerPacket, DecodeError>|
                    server_decoded(old(self).spec_state(), b, x),
            ),
    {
        self.codec.accept(data);
        if let ProtocolState::Handshake = self.state {
            return Err(DecodeError::DataSentDuringHandshake);
        }
        let bytes = match self.codec.next_packet() {
            Ok(Some(b)) => b,
            Ok(None) => return Ok(None),
            Err(e) => return Err(e),
        };
        let d = bytes.as_slice();
        match self.state {
            ProtocolState::Status => match StatusClientBoundPacket::decode(d) {
                Ok(p) => Ok(Some(ServerPacket::Status(p))),
                Err(e) => Err(e),
            },
            ProtocolState::Login => match LoginClientBoundPacket::decode(d) {
                Ok(p) => Ok(Some(ServerPacket::Login(p))),
                Err(e) => Err(e),
            },
            ProtocolState::Configuration => match ConfigClientBoundPaket::decode(d) {
                Ok(p) => Ok(Some(ServerPacket::Configuration(p))),
                Err(e) => Err(e),
            },
            _ => match GameClientBoundPacket::decode(d) {
                Ok(p) => Ok(Some(ServerPacket::Play(p))),
                Err(e) => Err(e),
            },
        }
    }

    /// Encodes `packet` and appends its frame to `buffer`; on a refusal nothing is
    /// written.
    pub fn encode(&mut self, packet: &ServerPacket, buffer: &mut Vec<u8>) -> (r: Result<(), EncodeError>)
        requires
            old(self).wf(),
        ensures
            final(self).wf(),
            final(self).spec_state() == old(self).spec_state(),
            final(self).framing().key() == old(self).framing().key(),
            final(self).framing().threshold() == old(self).framing().threshold(),
            final(self).framing().received() == old(self).framing().received(),
            !server_encodable(*packet) ==> r is Err && final(buffer)@ == old(buffer)@,
            server_encodable(*packet) ==> match frame_bytes(
                old(self).framing().threshold(),
                server_wire(*packet),
            ) {
                None => r is Err && final(buffer)@ == old(buffer)@,
                Some(f) => r is Ok && match old(self).framing().key() {
                    None => final(buffer)@ == old(buffer)@ + f,
                    Some(k) => final(buffer)@ == old(buffer)@ + crate::codec::cfb8_encrypted(
                        k,
                        old(self).framing().encrypt_iv(),
                        f,
                    ),
                },
            },
    {
        let mut body: Vec<u8> = Vec::new();
        let encoded = match packet {
            ServerPacket::Status(p) => p.encode(&mut body),
            ServerPacket::Login(p) => p.encode(&mut body),
            ServerPacket::Configuration(p) => p.encode(&mut body),
            ServerPacket::Play(p) => p.encode(&mut body),
        };
        if encoded.is_err() {
            return encoded;
        }
        self.codec.encode(body.as_slice(), buffer)
    }
}

/// Type id and body bytes of a client packet.
pub open spec fn client_wire(p: ClientPacket) -> Seq<u8> {
    match p {
        ClientPacket::Handshake(h) => h.wire(),
        ClientPacket::Status(s) => s.wire(),
        ClientPacket::Login(l) => l.wire(),
        ClientPacket::Game(g) => g.wire(),
        ClientPacket::Configuration(c) => c.wire(),
    }
}

/// The state whose catalog holds a client packet.
pub open spec fn client_state_of(p: ClientPacket) -> ProtocolState {
    match p {
        ClientPacket::Handshake(_) => ProtocolState::Handshake,
        ClientPacket::Status(_) => ProtocolState::Status,
        ClientPacket::Login(_) => ProtocolState::Login,
        ClientPacket::Configuration(_) => ProtocolState::Configuration,
        ClientPacket::Game(_) => ProtocolState::Play,
    }
}

/// Framing round trip for client packets, without compression or encryption: the
/// frame of a packet, taken in whole by a decoder in the packet's state, yields exactly
/// that packet and leaves the buffer empty. It covers every client packet but the login
/// start (whose UUID text goes through the `uuid` crate), for packets whose strings fit
/// their fields and whose bytes fit a frame; an opaque play packet cannot carry the
/// plugin message's id.
pub proof fn lemma_client_packet_round_trip(p: ClientPacket)
    requires
        client_wire(p).len() <= i32::MAX,
        p matches ClientPacket::Configuration(c) ==> c.encodable(),
        p matches ClientPacket::Handshake(h) ==> (h matches HandshakeServerBoundPacket::Handshake(x)
            && x.encodable()),
        p matches ClientPacket::Login(l) ==> l.encodable() && !(l is LoginStart),
        p matches ClientPacket::Game(g) ==> (g matches GameServerBoundPacket::ServerBoundPluginMessage(
            m,
        ) ==> vstd::utf8::encode_utf8(m.channel@).len() <= crate::fields::DEFAULT_STRING_MAX),
        p matches ClientPacket::Game(g) ==> (g matches GameServerBoundPacket::Other { type_id }
            ==> type_id != crate::packet::game::SERVER_BOUND_PLUGIN_MESSAGE_ID),
    ensures
        frame_bytes(None, client_wire(p)) matches Some(f) && frame_decoded(
            f,
            false,
            Ok(Some(p)),
            |b: Seq<u8>, x: Result<ClientPacket, DecodeError>|
                client_decoded(client_state_of(p), b, x),
        ) && frame_rest(f) == Seq::<u8>::empty(),
{
    crate::codec::lemma_frame_outcome_round_trip(client_wire(p));
    match p {
        ClientPacket::Handshake(h) => crate::packet::handshake::lemma_handshake_round_trip(h),
        ClientPacket::Status(s) => crate::packet::status::lemma_status_server_round_trip(s),
        ClientPacket::Login(l) => crate::packet::login::lemma_login_server_round_trip(l),
        ClientPacket::Game(g) => crate::packet::game::lemma_game_server_round_trip(g),
        ClientPacket::Configuration(c) => crate::packet::configuration::lemma_config_server_round_trip(c),
    }
}

/// Type id and body bytes of a server packet.
pub open spec fn server_wire(p: ServerPacket) -> Seq<u8> {
    match p {
        ServerPacket::Status(s) => s.wire(),
        ServerPacket::Login(l) => l.wire(),
        ServerPacket::Play(g) => g.wire(),
        ServerPacket::Configuration(c) => c.wire(),
    }
}

/// Whether a server packet can be written: its strings fit their fields.
pub open spec fn server_encodable(p: ServerPacket) -> bool {
    match p {
        ServerPacket::Status(s) => s matches StatusClientBoundPacket::StatusResponse(x)
            ==> vstd::utf8::encode_utf8(x.server_status@).len() <= crate::fields::DEFAULT_STRING_MAX,
        ServerPacket::Login(l) => l.encodable(),
        ServerPacket::Configuration(c) => c.encodable(),
        ServerPacket::Play(g) => g matches GameClientBoundPacket::ClientBoundPluginMessage(m)
            ==> vstd::utf8::encode_utf8(m.channel@).len() <= crate::fields::DEFAULT_STRING_MAX,
    }
}

/// The state whose catalog holds a server packet.
pub open spec fn server_state_of(p: ServerPacket) -> ProtocolState {
    match p {
        ServerPacket::Status(_) => ProtocolState::Status,
        ServerPacket::Login(_) => ProtocolState::Login,
        ServerPacket::Configuration(_) => ProtocolState::Configuration,
        ServerPacket::Play(_) => ProtocolState::Play,
    }
}

/// Framing round trip for server packets, without compression or encryption, over every
/// catalog: status and chat texts must be JSON, strings must fit their fields, and an
/// opaque play packet cannot carry the plugin message's id.
pub proof fn lemma_server_packet_round_trip(p: ServerPacket)
    requires
        server_wire(p).len() <= i32::MAX,
        p matches ServerPacket::Configuration(c) ==> c.encodable() && (c matches ConfigClientBoundPaket::ConfigDisconnect(d) ==> crate::json::json_accepts(d.reason@)) && (c matches ConfigClientBoundPaket::AddResourcePack(a) ==> (a.prompt_message matches Some(m) ==> crate::json::json_accepts(m@))),
        p matches ServerPacket::Status(s) ==> (s matches StatusClientBoundPacket::StatusResponse(x)
            ==> vstd::utf8::encode_utf8(x.server_status@).len() <= crate::fields::DEFAULT_STRING_MAX
            && crate::json::json_accepts(x.server_status@)),
        p matches ServerPacket::Login(l) ==> l.encodable(),
        p matches ServerPacket::Play(g) ==> (g matches GameClientBoundPacket::ClientBoundPluginMessage(
            m,
        ) ==> vstd::utf8::encode_utf8(m.channel@).len() <= crate::fields::DEFAULT_STRING_MAX),
        p matches ServerPacket::Play(g) ==> (g matches GameClientBoundPacket::Other { type_id }
            ==> type_id != crate::packet::game::CLIENT_BOUND_PLUGIN_MESSAGE_ID),
    ensures
        frame_bytes(None, server_wire(p)) matches Some(f) && frame_decoded(
            f,
            false,
            Ok(Some(p)),
            |b: Seq<u8>, x: Result<ServerPacket, DecodeError>|
                server_decoded(server_state_of(p), b, x),
        ) && frame_rest(f) == Seq::<u8>::empty(),
{
    crate::codec::lemma_frame_outcome_round_trip(server_wire(p));
    match p {
        ServerPacket::Status(s) => crate::packet::status::lemma_status_client_round_trip(s),
        ServerPacket::Login(l) => crate::packet::login::lemma_login_client_round_trip(l),
        ServerPacket::Play(g) => crate::packet::game::lemma_game_client_round_trip(g),
        ServerPacket::Configuration(c) => crate::packet::configuration::lemma_config_client_round_trip(c),
    }
}

} // verus!
