//! Decisions of the connection pipeline: the login gate, the status answer, and what
//! the relays do with each observed packet. The sockets, the repositories and the
//! loops that drive them live with the caller.
use crate::codec::MinecraftCodec;
use crate::error::DecodeError;
use crate::fields::uuid_hyphenated;
use crate::packet::configuration::{ConfigClientBoundPaket, ConfigServerBoundPacket};
use crate::packet::game::{GameClientBoundPacket, GameServerBoundPacket, PlayPluginMessage};
use crate::packet::login::{LoginClientBoundPacket, LoginDisconnect, LoginServerBoundPacket};
use crate::packet::status::{StatusClientBoundPacket, StatusResponse};
use crate::session::{
    client_decoded, frame_decoded, server_decoded, ClientPacket, ClientPacketCodec,
    ProtocolState, ServerPacket, ServerPacketCodec,
};
use crate::state::OnlinePlayers;
use crate::text::{json_quoted, json_string_literal, push_decimal, push_signed_decimal, decimal_chars, signed_decimal_chars};
use vstd::prelude::*;
use vstd::string::StringExecFns;

verus! {

/// The only protocol version the proxy accepts for logins.
pub const PROTOCOL_VERSION: i32 = 765;

/// The name and version the proxy gives in status answers.
pub const PROXY_VERSION_NAME: &'static str = "Basileia Proxy 0.1.0";

/// The plugin-message channel that carries proxy commands.
pub const COMMAND_CHANNEL: &'static str = "basileia:proxy";

/// Disconnect reason for a client of another protocol version.
pub const VERSION_REFUSED_MSG: &'static str = "{\"text\":\"Your minecraft version is not accepted\"}";

/// Disconnect reason for a name that is already logged in.
pub const PLAYER_EXISTS_MSG: &'static str = "{\"text\":\"There is already a logged in player with this username\"}";

/// Whether a client of this protocol version may log in.
pub fn check_protocol_version(protocol_version: i32) -> (r: bool)
    ensures
        r == (protocol_version == PROTOCOL_VERSION),
{
    protocol_version == PROTOCOL_VERSION
}

/// The disconnect sent to a client of another protocol version.
pub fn version_refused() -> (r: LoginDisconnect)
    ensures
        r.reason@ == VERSION_REFUSED_MSG@,
{
    LoginDisconnect { reason: String::from_str(VERSION_REFUSED_MSG) }
}

/// Outcome of the login gate.
#[derive(Debug, Clone)]
pub enum LoginVerdict {
    /// The login goes on to the backend.
    Accept,
    /// The client gets this disconnect and the connection closes.
    Refuse(LoginDisconnect),
}

/// The reason text of a ban.
pub open spec fn ban_message(reason: Option<Seq<char>>) -> Seq<char> {
    match reason {
        Some(r) => "Banned! Reason: "@ + r,
        None => "Banned!"@,
    }
}

/// The login gate for a login start whose name is already online or not, and is
/// banned or not (`Some` ban, with its reason if it has one): a name already online is
/// refused first, then a banned one.
pub fn login_verdict(already_online: bool, ban: Option<Option<String>>) -> (r: LoginVerdict)
    ensures
        already_online ==> (r matches LoginVerdict::Refuse(d) && d.reason@ == PLAYER_EXISTS_MSG@),
        !already_online ==> match ban {
            None => r is Accept,
            Some(reason) => (r matches LoginVerdict::Refuse(d)) && r->Refuse_0.reason@ == ban_message(
                match reason {
                    Some(s) => Some(s@),
                    None => None,
                },
            ),
        },
{
    if already_online {
        return LoginVerdict::Refuse(LoginDisconnect { reason: String::from_str(PLAYER_EXISTS_MSG) });
    }
    match ban {
        None => LoginVerdict::Accept,
        Some(Some(reason)) => {
            let mut text = String::from_str("Banned! Reason: ");
            text.append(reason.as_str());
            LoginVerdict::Refuse(LoginDisconnect { reason: text })
        },
        Some(None) => LoginVerdict::Refuse(LoginDisconnect { reason: String::from_str("Banned!") }),
    }
}

/// The JSON of one sample entry of the status answer.
pub open spec fn sample_json(name: Seq<char>, uuid: u128) -> Seq<char> {
    "{\"id\":\""@ + uuid_hyphenated(uuid) + "\",\"name\":"@ + json_string_literal(name) + "}"@
}

/// The JSON of the sample entries, comma separated.
pub open spec fn samples_json(players: Seq<(Seq<char>, u128)>) -> Seq<char>
    decreases players.len(),
{
    if players.len() == 0 {
        Seq::empty()
    } else if players.len() == 1 {
        sample_json(players[0].0, players[0].1)
    } else {
        samples_json(players.drop_last()) + ","@ + sample_json(players.last().0, players.last().1)
    }
}

/// The JSON of a server status: version name and protocol, the player count and
/// sample (with no maximum), and the description, itself JSON text.
pub open spec fn status_json(
    name: Seq<char>,
    protocol: i32,
    players: Seq<(Seq<char>, u128)>,
    description: Seq<char>,
) -> Seq<char> {
    "{\"version\":{\"name\":"@ + json_string_literal(name) + ",\"protocol\":"@
        + signed_decimal_chars(protocol as int) + "},\"players\":{\"max\":0,\"online\":"@
        + decimal_chars(players.len()) + ",\"sample\":["@ + samples_json(players)
        + "]},\"description\":"@ + description + "}"@
}

/// The players of a list as (name, UUID) views.
pub open spec fn player_views(v: Seq<(String, u128)>) -> Seq<(Seq<char>, u128)> {
    v.map_values(|p: (String, u128)| (p.0@, p.1))
}

/// The status answer: the proxy's name and version, the client's protocol version, the
/// players online, and the configured description (JSON text).
pub fn status_response(
    version_name: &str,
    protocol_version: i32,
    players: &Vec<(String, u128)>,
    description: &str,
) -> (r: StatusClientBoundPacket)
    ensures
        (r matches StatusClientBoundPacket::StatusResponse(s)) && r->StatusResponse_0.server_status@ == status_json(
            version_name@,
            protocol_version,
            player_views(players@),
            description@,
        ),
{
    let mut out = String::from_str("{\"version\":{\"name\":");
    let q = json_quoted(version_name);
    out.append(q.as_str());
    out.append(",\"protocol\":");
    push_signed_decimal(&mut out, protocol_version as i64);
    out.append("},\"players\":{\"max\":0,\"online\":");
    push_decimal(&mut out, players.len() as u64);
    out.append(",\"sample\":[");
    let ghost head = out@;
    let mut i: usize = 0;
    while i < players.len()
        invariant
            i <= players@.len(),
            out@ == head + samples_json(player_views(players@.take(i as int))),
        decreases players@.len() - i,
    {
        let ghost before = out@;
        if i > 0 {
            out.append(",");
        }
        out.append("{\"id\":\"");
        let id = crate::fields::uuid_text_of(players[i].1);
        out.append(id.as_str());
        out.append("\",\"name\":");
        let n = json_quoted(players[i].0.as_str());
        out.append(n.as_str());
        out.append("}");
        proof {
            let pv = player_views(players@.take(i + 1));
            assert(player_views(players@.take(i as int)) =~= pv.drop_last());
            assert(pv.last() == (players@[i as int].0@, players@[i as int].1));
            if i == 0 {
                assert(pv.len() == 1);
                assert(samples_json(player_views(players@.take(0))) =~= Seq::<char>::empty());
            }
            assert(out@ =~= head + samples_json(pv));
        }
        i = i + 1;
    }
    proof {
        assert(players@.take(players@.len() as int) =~= players@);
    }
    out.append("]},\"description\":");
    out.append(description);
    out.append("}");
    proof {
        assert(out@ =~= status_json(
            version_name@,
            protocol_version,
            player_views(players@),
            description@,
        ));
    }
    StatusResponse::new(out)
}

/// Who logged in on a connection, as the backend confirmed it.
#[derive(Debug, Clone)]
pub struct PostLoginInformation {
    pub username: String,
    pub uuid: u128,
}

/// The state two relays of one connection share: a decoder for each direction, kept
/// in the same protocol state and with the same compression, and the login once the
/// backend confirmed it.
pub struct ConnectionSharedState {
    protocol_version: i32,
    login_info: Option<PostLoginInformation>,
    client_codec: ClientPacketCodec,
    server_codec: ServerPacketCodec,
}

/// What the server-side relay does with a frame it read.
#[derive(Debug, Clone)]
pub enum ServerAction {
    /// Pass the raw frame on to the client.
    Forward,
    /// Pass the frame on; the backend accepted this player, who is now online.
    LoginSucceeded { username: String, uuid: u128 },
    /// Keep the frame from the client; its payload is a command request.
    Divert(Vec<u8>),
    /// Close the connection.
    Close,
}

/// The relay's answer to a server frame that decoded as `r`.
pub open spec fn server_action_fits(r: Result<Option<ServerPacket>, DecodeError>, a: ServerAction) -> bool {
    match r {
        Ok(Some(ServerPacket::Login(LoginClientBoundPacket::LoginSuccess(p)))) => (a matches ServerAction::LoginSucceeded { username, uuid }) && a->username@ == p.username@ && a->uuid == p.uuid,
        Ok(Some(ServerPacket::Login(LoginClientBoundPacket::SetCompression(p)))) => if p.threshold < 0 {
            a is Close
        } else {
            a is Forward
        },
        Ok(Some(ServerPacket::Play(GameClientBoundPacket::ClientBoundPluginMessage(m)))) => if m.channel@ == COMMAND_CHANNEL@ {
            (a matches ServerAction::Divert(d)) && a->Divert_0@ == m.data@
        } else {
            a is Forward
        },
        _ => a is Forward,
    }
}

/// The protocol state after a server frame that decoded as `r`.
pub open spec fn state_after_server(s: ProtocolState, r: Result<Option<ServerPacket>, DecodeError>) -> ProtocolState {
    match r {
        Ok(Some(ServerPacket::Configuration(ConfigClientBoundPaket::FinishConfiguration))) => ProtocolState::Play,
        _ => s,
    }
}

/// The compression threshold after a server frame that decoded as `r`.
pub open spec fn threshold_after_server(t: Option<usize>, r: Result<Option<ServerPacket>, DecodeError>) -> Option<usize> {
    match r {
        Ok(Some(ServerPacket::Login(LoginClientBoundPacket::SetCompression(p)))) => if p.threshold >= 0 {
            Some(p.threshold as usize)
        } else {
            t
        },
        _ => t,
    }
}

/// The protocol state after a client frame that decoded as `r`.
pub open spec fn state_after_client(s: ProtocolState, r: Result<Option<ClientPacket>, DecodeError>) -> ProtocolState {
    match r {
        Ok(Some(ClientPacket::Login(LoginServerBoundPacket::LoginAcknowledged))) => ProtocolState::Configuration,
        Ok(Some(ClientPacket::Configuration(ConfigServerBoundPacket::AcknowledgeFinishConfiguration))) => ProtocolState::Play,
        _ => s,
    }
}

impl ConnectionSharedState {
    /// Both decoders are well formed and in the same protocol state.
    pub closed spec fn wf(&self) -> bool {
        self.client_codec.wf() && self.server_codec.wf() && self.client_codec.spec_state()
            == self.server_codec.spec_state() && self.client_codec.framing().threshold()
            == self.server_codec.framing().threshold()
    }

    pub closed spec fn spec_state(&self) -> ProtocolState {
        self.client_codec.spec_state()
    }

    /// The protocol version the client announced.
    pub closed spec fn version(&self) -> i32 {
        self.protocol_version
    }

    /// The protocol version the client announced.
    pub fn protocol_version(&self) -> (r: i32)
        ensures
            r == self.version(),
    {
        self.protocol_version
    }

    pub closed spec fn threshold(&self) -> Option<usize> {
        self.client_codec.framing().threshold()
    }

    pub closed spec fn login(&self) -> Option<(Seq<char>, u128)> {
        match self.login_info {
            Some(i) => Some((i.username@, i.uuid)),
            None => None,
        }
    }

    pub closed spec fn client_framing(&self) -> MinecraftCodec {
        self.client_codec.framing()
    }

    pub closed spec fn server_framing(&self) -> MinecraftCodec {
        self.server_codec.framing()
    }

    /// A connection in the handshake state, with plain framing and no login yet.
    pub fn new(protocol_version: i32) -> (r: ConnectionSharedState)
        ensures
            r.wf(),
            r.version() == protocol_version,
            r.spec_state() == ProtocolState::Handshake,
            r.threshold() is None,
            r.login() is None,
    {
        ConnectionSharedState {
            protocol_version,
            login_info: None,
            client_codec: ClientPacketCodec::new(),
            server_codec: ServerPacketCodec::new(),
        }
    }

    /// The name of the player logged in on this connection, if any.
    pub fn login_username(&self) -> (r: Option<String>)
        ensures
            match self.login() {
                Some((n, _)) => r matches Some(s) && s@ == n,
                None => r is None,
            },
    {
        match &self.login_info {
            Some(i) => Some(i.username.clone()),
            None => None,
        }
    }

    /// The protocol state of both directions.
    pub fn current_state(&self) -> (r: ProtocolState)
        ensures
            r == self.spec_state(),
    {
        self.client_codec.state()
    }

    /// Moves both directions to `state`.
    pub fn set_state(&mut self, state: ProtocolState)
        requires
            old(self).wf(),
        ensures
            final(self).wf(),
            final(self).spec_state() == state,
            final(self).threshold() == old(self).threshold(),
            final(self).login() == old(self).login(),
            final(self).version() == old(self).version(),
    {
        self.client_codec.set_state(state);
        self.server_codec.set_state(state);
    }

    /// Turns compression on in both directions.
    pub fn set_compression(&mut self, threshold: usize)
        requires
            old(self).wf(),
        ensures
            final(self).wf(),
            final(self).spec_state() == old(self).spec_state(),
            final(self).threshold() == Some(threshold),
            final(self).login() == old(self).login(),
            final(self).version() == old(self).version(),
    {
        self.client_codec.set_compression(threshold);
        self.server_codec.set_compression(threshold);
    }

    /// Feeds client bytes to the client-direction decoder.
    pub fn decode_client(&mut self, data: &[u8]) -> (r: Result<Option<ClientPacket>, DecodeError>)
        requires
            old(self).wf(),
        ensures
            final(self).wf(),
            final(self).spec_state() == old(self).spec_state(),
            final(self).threshold() == old(self).threshold(),
            final(self).login() == old(self).login(),
            final(self).version() == old(self).version(),
            frame_decoded(
                old(self).client_framing().received_after(data@),
                old(self).threshold() is Some,
                r,
                |b: Seq<u8>, x: Result<ClientPacket, DecodeError>|
                    client_decoded(old(self).spec_state(), b, x),
            ),
    {
        self.client_codec.decode(data)
    }

    /// Feeds server bytes to the server-direction decoder.
    pub fn decode_server(&mut self, data: &[u8]) -> (r: Result<Option<ServerPacket>, DecodeError>)
        requires
            old(self).wf(),
        ensures
            final(self).wf(),
            final(self).spec_state() == old(self).spec_state(),
            final(self).threshold() == old(self).threshold(),
            final(self).login() == old(self).login(),
            final(self).version() == old(self).version(),
            old(self).spec_state() == ProtocolState::Handshake ==> r == Err::<
                Option<ServerPacket>,
                DecodeError,
            >(DecodeError::DataSentDuringHandshake),
            old(self).spec_state() != ProtocolState::Handshake ==> frame_decoded(
                old(self).server_framing().received_after(data@),
                old(self).threshold() is Some,
                r,
                |b: Seq<u8>, x: Result<ServerPacket, DecodeError>|
                    server_decoded(old(self).spec_state(), b, x),
            ),
    {
        self.server_codec.decode(data)
    }

    /// Observes one raw frame the client sent: decodes it (a failure only means the
    /// state does not move) and follows the login acknowledgement into the configuration
    /// state and the configuration acknowledgement into the play state. The frame itself
    /// always goes on to the server.
    pub fn observe_client_frame(&mut self, frame: &[u8]) -> (r: Result<Option<ClientPacket>, DecodeError>)
        requires
            old(self).wf(),
        ensures
            final(self).wf(),
            frame_decoded(
                old(self).client_framing().received_after(frame@),
                old(self).threshold() is Some,
                r,
                |b: Seq<u8>, x: Result<ClientPacket, DecodeError>|
                    client_decoded(old(self).spec_state(), b, x),
            ),
            final(self).spec_state() == state_after_client(old(self).spec_state(), r),
            final(self).threshold() == old(self).threshold(),
            final(self).login() == old(self).login(),
            final(self).version() == old(self).version(),
    {
        let r = self.decode_client(frame);
        match &r {
            Ok(Some(ClientPacket::Login(LoginServerBoundPacket::LoginAcknowledged))) => {
                self.set_state(ProtocolState::Configuration);
            },
            Ok(Some(ClientPacket::Configuration(ConfigServerBoundPacket::AcknowledgeFinishConfiguration))) => {
                self.set_state(ProtocolState::Play);
            },
            _ => {},
        }
        r
    }

    /// Observes one raw frame the server sent and says what the relay does with it:
    /// a login success is recorded; a set-compression turns compression on in both
    /// directions, or closes the connection when its threshold is negative; a finished
    /// configuration moves both directions to the play state; a play-state plugin
    /// message on the command channel is diverted. Everything else is forwarded.
    pub fn observe_server_frame(&mut self, frame: &[u8]) -> (a: ServerAction)
        requires
            old(self).wf(),
        ensures
            final(self).wf(),
            exists|r: Result<Option<ServerPacket>, DecodeError>|
                {
                    &&& (old(self).spec_state() == ProtocolState::Handshake ==> r == Err::<
                        Option<ServerPacket>,
                        DecodeError,
                    >(DecodeError::DataSentDuringHandshake))
                    &&& (old(self).spec_state() != ProtocolState::Handshake ==> frame_decoded(
                        old(self).server_framing().received_after(frame@),
                        old(self).threshold() is Some,
                        r,
                        |b: Seq<u8>, x: Result<ServerPacket, DecodeError>|
                            server_decoded(old(self).spec_state(), b, x),
                    ))
                    &&& server_action_fits(r, a)
                    &&& final(self).spec_state() == state_after_server(old(self).spec_state(), r)
                    &&& final(self).threshold() == threshold_after_server(old(self).threshold(), r)
                    &&& (r matches Ok(Some(ServerPacket::Login(LoginClientBoundPacket::LoginSuccess(p))))
                        ==> final(self).login() == Some((p.username@, p.uuid)))
                    &&& (!(r matches Ok(Some(ServerPacket::Login(LoginClientBoundPacket::LoginSuccess(_)))))
                        ==> final(self).login() == old(self).login())
                },
            final(self).version() == old(self).version(),
    {
        let r = self.decode_server(frame);
        let a = match &r {
            Ok(Some(ServerPacket::Login(LoginClientBoundPacket::LoginSuccess(p)))) => {
                self.login_info = Some(PostLoginInformation { username: p.username.clone(), uuid: p.uuid });
                ServerAction::LoginSucceeded { username: p.username.clone(), uuid: p.uuid }
            },
            Ok(Some(ServerPacket::Login(LoginClientBoundPacket::SetCompression(p)))) => {
                if p.threshold < 0 {
                    ServerAction::Close
                } else {
                    self.set_compression(p.threshold as usize);
                    ServerAction::Forward
                }
            },
            Ok(Some(ServerPacket::Configuration(ConfigClientBoundPaket::FinishConfiguration))) => {
                self.set_state(ProtocolState::Play);
                ServerAction::Forward
            },
            Ok(Some(ServerPacket::Play(GameClientBoundPacket::ClientBoundPluginMessage(m)))) => {
                let channel = String::from_str(COMMAND_CHANNEL);
                if m.channel == channel {
                    ServerAction::Divert(m.data.clone())
                } else {
                    ServerAction::Forward
                }
            },
            _ => ServerAction::Forward,
        };
        proof {
            assert(server_action_fits(r, a));
        }
        a
    }
}

/// The server-bound plugin message that carries a command response to the backend.
pub fn command_response_packet(data: Vec<u8>) -> (r: GameServerBoundPacket)
    ensures
        (r matches GameServerBoundPacket::ServerBoundPluginMessage(m)) && r->ServerBoundPluginMessage_0.channel@ == COMMAND_CHANNEL@
            && r->ServerBoundPluginMessage_0.data@ == data@,
{
    GameServerBoundPacket::ServerBoundPluginMessage(
        PlayPluginMessage { channel: String::from_str(COMMAND_CHANNEL), data },
    )
}

} // verus!
