use basileia_proxy::commands::{
    CommandResponse, CommandResponseMessage, CommandResult, CommandError, ErrorMessage,
    GetPlayerBansResponse, IsBannedMessage, WhitelistResult, whitelist_switch_changed,
};
use basileia_proxy::packet::configuration::{ClientBoundPluginMessage, ConfigClientBoundPaket};
use basileia_proxy::packet::game::{GameClientBoundPacket, PlayPluginMessage};
use basileia_proxy::packet::handshake::{HandshakeServerBoundPacket, NextState};
use basileia_proxy::packet::login::{LoginClientBoundPacket, LoginSuccess, SetCompression, LoginServerBoundPacket};
use basileia_proxy::packet::status::{PingResponse, StatusClientBoundPacket, StatusServerBoundPacket};
use basileia_proxy::proxy::{
    check_protocol_version, command_response_packet, login_verdict, status_response,
    version_refused, ConnectionSharedState, LoginVerdict, ServerAction,
};
use basileia_proxy::session::{ClientPacket, ClientPacketCodec, ProtocolState};
use basileia_proxy::state::OnlinePlayers;
use basileia_proxy::utils::encode_packet;

fn handshake_frame(version_bytes: &[u8], next: u8) -> Vec<u8> {
    let mut body = vec![0x00];
    body.extend_from_slice(version_bytes);
    body.push(9);
    body.extend_from_slice(b"localhost");
    body.extend_from_slice(&[0x63, 0xdd, next]);
    encode_packet(&body).unwrap()
}

#[test]
fn status_handshake_and_request() {
    let bytes = handshake_frame(&[0xfd, 0x05], 1);
    assert_eq!(bytes[0], 16);
    let mut codec = ClientPacketCodec::new();
    let handshake = match codec.decode(&bytes) {
        Ok(Some(ClientPacket::Handshake(HandshakeServerBoundPacket::Handshake(h)))) => h,
        _ => panic!("expected a handshake"),
    };
    assert_eq!(handshake.protocol_version, 765);
    assert_eq!(handshake.server_addr, "localhost");
    assert_eq!(handshake.server_port, 25565);
    assert_eq!(handshake.next_state, NextState::Status);

    codec.set_state(ProtocolState::Status);
    assert!(matches!(
        codec.decode(&[1, 0x00]),
        Ok(Some(ClientPacket::Status(StatusServerBoundPacket::StatusRequest)))
    ));

    let players = OnlinePlayers::new();
    let response = status_response(
        "Basileia Proxy 0.1.0",
        handshake.protocol_version,
        &players.read_online_players(),
        r#"{"text":"A proxy"}"#,
    );
    let json = match &response {
        StatusClientBoundPacket::StatusResponse(s) => s.server_status.clone(),
        _ => panic!("expected a status response"),
    };
    assert_eq!(
        json,
        r#"{"version":{"name":"Basileia Proxy 0.1.0","protocol":765},"players":{"max":0,"online":0,"sample":[]},"description":{"text":"A proxy"}}"#
    );
    let value: serde_json::Value = serde_json::from_str(&json).unwrap();
    assert_eq!(value["version"]["protocol"], 765);
    assert_eq!(value["players"]["online"], 0);

    let mut body = Vec::new();
    response.encode(&mut body).unwrap();
    assert_eq!(body[0], 0x00);
    let framed = encode_packet(&body).unwrap();
    assert_eq!(framed.len(), body.len() + 2);
}

#[test]
fn status_lists_online_players() {
    let mut players = OnlinePlayers::new();
    players.add_online_player("Alice".to_string(), 0x2a1e19127103_4add_80fc_91ebc346cbce);
    let response = status_response("P", -1, &players.read_online_players(), "null");
    match response {
        StatusClientBoundPacket::StatusResponse(s) => assert_eq!(
            s.server_status,
            r#"{"version":{"name":"P","protocol":-1},"players":{"max":0,"online":1,"sample":[{"id":"2a1e1912-7103-4add-80fc-91ebc346cbce","name":"Alice"}]},"description":null}"#
        ),
        _ => panic!("expected a status response"),
    }
}

#[test]
fn ping_is_echoed() {
    let request = vec![9, 0x01, 0x00, 0x00, 0x01, 0x6f, 0x5e, 0x66, 0xe9, 0x2a];
    let mut codec = ClientPacketCodec::new();
    codec.set_state(ProtocolState::Status);
    let time = match codec.decode(&request) {
        Ok(Some(ClientPacket::Status(StatusServerBoundPacket::PingRequest(p)))) => p.time,
        _ => panic!("expected a ping"),
    };
    assert_eq!(time, 0x0000_016f_5e66_e92a);
    let mut body = Vec::new();
    PingResponse::new(time).encode(&mut body).unwrap();
    assert_eq!(encode_packet(&body).unwrap(), request);
}

#[test]
fn login_with_another_protocol_version_is_refused() {
    let bytes = handshake_frame(&[0xfc, 0x05], 2);
    let mut codec = ClientPacketCodec::new();
    let handshake = match codec.decode(&bytes) {
        Ok(Some(ClientPacket::Handshake(HandshakeServerBoundPacket::Handshake(h)))) => h,
        _ => panic!("expected a handshake"),
    };
    assert_eq!(handshake.protocol_version, 764);
    assert_eq!(handshake.next_state, NextState::Login);
    assert!(!check_protocol_version(handshake.protocol_version));
    assert!(check_protocol_version(765));
    let refusal = version_refused();
    assert!(refusal.reason.contains("Your minecraft version is not accepted"));
    let mut body = Vec::new();
    LoginClientBoundPacket::LoginDisconnect(refusal).encode(&mut body).unwrap();
    assert_eq!(body[0], 0x00);
}

#[test]
fn banned_username_is_refused_with_reason() {
    match login_verdict(false, Some(Some("griefing".to_string()))) {
        LoginVerdict::Refuse(d) => assert_eq!(d.reason, "Banned! Reason: griefing"),
        LoginVerdict::Accept => panic!("a banned player got in"),
    }
    match login_verdict(false, Some(None)) {
        LoginVerdict::Refuse(d) => assert_eq!(d.reason, "Banned!"),
        LoginVerdict::Accept => panic!("a banned player got in"),
    }
    assert!(matches!(login_verdict(false, None), LoginVerdict::Accept));
}

#[test]
fn duplicate_login_is_refused_and_table_unchanged() {
    let mut players = OnlinePlayers::new();
    players.add_online_player("Alice".to_string(), 1);
    let online = players.exists_online_player("Alice");
    assert!(online);
    match login_verdict(online, None) {
        LoginVerdict::Refuse(d) => assert_eq!(
            d.reason,
            r#"{"text":"There is already a logged in player with this username"}"#
        ),
        LoginVerdict::Accept => panic!("a second Alice got in"),
    }
    assert_eq!(players.len(), 1);
    assert_eq!(players.read_online_players(), vec![("Alice".to_string(), 1)]);
    assert!(!players.exists_online_player("Bob"));
}

#[test]
fn online_table_insert_replace_remove() {
    let mut players = OnlinePlayers::new();
    players.add_online_player("Alice".to_string(), 1);
    players.add_online_player("Bob".to_string(), 2);
    players.add_online_player("Alice".to_string(), 3);
    assert_eq!(players.len(), 2);
    let mut all = players.read_online_players();
    all.sort();
    assert_eq!(all, vec![("Alice".to_string(), 3), ("Bob".to_string(), 2)]);
    players.remove_online_player("Alice");
    players.remove_online_player("Carol");
    assert_eq!(players.read_online_players(), vec![("Bob".to_string(), 2)]);
}

fn server_frame(packet: &GameClientBoundPacket) -> Vec<u8> {
    let mut body = Vec::new();
    packet.encode(&mut body).unwrap();
    encode_packet(&body).unwrap()
}

#[test]
fn command_round_trip() {
    let mut state = ConnectionSharedState::new(765);
    state.set_state(ProtocolState::Play);
    let request = br#"{"id":"2a1e1912-7103-4add-80fc-91ebc346cbce","command":{"type":"IS_PLAYER_BANNED","data":{"username":"Alice"}}}"#.to_vec();
    let frame = server_frame(&GameClientBoundPacket::ClientBoundPluginMessage(PlayPluginMessage {
        channel: "basileia:proxy".to_string(),
        data: request.clone(),
    }));
    match state.observe_server_frame(&frame) {
        ServerAction::Divert(data) => assert_eq!(data, request),
        other => panic!("command was not diverted: {:?}", other),
    }

    let response = CommandResponseMessage {
        id: 0x2a1e1912_7103_4add_80fc_91ebc346cbce,
        result: CommandResult::Success(CommandResponse::IsPlayerBanned(IsBannedMessage {
            banned: false,
        })),
    };
    let json = response.to_json();
    assert_eq!(
        json,
        r#"{"id":"2a1e1912-7103-4add-80fc-91ebc346cbce","result":{"type":"SUCCESS","data":{"type":"IS_PLAYER_BANNED","data":{"banned":false}}}}"#
    );
    let packet = command_response_packet(json.clone().into_bytes());
    let mut body = Vec::new();
    packet.encode(&mut body).unwrap();
    assert_eq!(body[0], 0x10);
    assert_eq!(body[1] as usize, "basileia:proxy".len());
    assert!(body.ends_with(json.as_bytes()));
}

#[test]
fn other_channels_are_forwarded() {
    let mut state = ConnectionSharedState::new(765);
    state.set_state(ProtocolState::Play);
    let frame = server_frame(&GameClientBoundPacket::ClientBoundPluginMessage(PlayPluginMessage {
        channel: "minecraft:brand".to_string(),
        data: vec![1, 2],
    }));
    assert!(matches!(state.observe_server_frame(&frame), ServerAction::Forward));
    let other = server_frame(&GameClientBoundPacket::Other { type_id: 0x20 });
    assert!(matches!(state.observe_server_frame(&other), ServerAction::Forward));
}

#[test]
fn login_flow_moves_both_directions() {
    let mut state = ConnectionSharedState::new(765);
    state.set_state(ProtocolState::Login);

    let mut body = Vec::new();
    LoginClientBoundPacket::SetCompression(SetCompression { threshold: 256 }).encode(&mut body).unwrap();
    let frame = encode_packet(&body).unwrap();
    assert!(matches!(state.observe_server_frame(&frame), ServerAction::Forward));

    // Both directions now read compressed frames.
    let mut body = Vec::new();
    LoginClientBoundPacket::LoginSuccess(LoginSuccess { uuid: 5, username: "Alice".to_string() })
        .encode(&mut body)
        .unwrap();
    let mut frame = vec![(body.len() + 1) as u8, 0];
    frame.extend_from_slice(&body);
    match state.observe_server_frame(&frame) {
        ServerAction::LoginSucceeded { username, uuid } => {
            assert_eq!(username, "Alice");
            assert_eq!(uuid, 5);
        }
        other => panic!("unexpected action {:?}", other),
    }
    assert_eq!(state.login_username(), Some("Alice".to_string()));

    let mut body = Vec::new();
    LoginServerBoundPacket::LoginAcknowledged.encode(&mut body).unwrap();
    let mut frame = vec![(body.len() + 1) as u8, 0];
    frame.extend_from_slice(&body);
    assert!(state.observe_client_frame(&frame).is_ok());
    assert_eq!(state.current_state(), ProtocolState::Configuration);

    let mut body = Vec::new();
    ConfigClientBoundPaket::FinishConfiguration.encode(&mut body).unwrap();
    let mut frame = vec![(body.len() + 1) as u8, 0];
    frame.extend_from_slice(&body);
    assert!(matches!(state.observe_server_frame(&frame), ServerAction::Forward));
    assert_eq!(state.current_state(), ProtocolState::Play);
    assert_eq!(state.protocol_version(), 765);
}

#[test]
fn negative_compression_threshold_closes() {
    let mut state = ConnectionSharedState::new(765);
    state.set_state(ProtocolState::Login);
    let mut body = Vec::new();
    LoginClientBoundPacket::SetCompression(SetCompression { threshold: -1 }).encode(&mut body).unwrap();
    let frame = encode_packet(&body).unwrap();
    assert!(matches!(state.observe_server_frame(&frame), ServerAction::Close));
}

#[test]
fn configuration_plugin_message_round_trip() {
    let packet = ConfigClientBoundPaket::ClientBoundPluginMessage(ClientBoundPluginMessage {
        channel: "minecraft:brand".to_string(),
        data: vec![5, 6],
    });
    let mut body = Vec::new();
    packet.encode(&mut body).unwrap();
    match ConfigClientBoundPaket::decode(&body) {
        Ok(ConfigClientBoundPaket::ClientBoundPluginMessage(m)) => {
            assert_eq!(m.channel, "minecraft:brand");
            assert_eq!(m.data, vec![5, 6]);
        }
        _ => panic!("expected a plugin message"),
    }
}

#[test]
fn command_results_and_errors() {
    let error = CommandResponseMessage {
        id: 0,
        result: CommandResult::from(Err(CommandError::RepositoryError("disk full".to_string()))),
    };
    assert_eq!(
        error.to_json(),
        r#"{"id":"00000000-0000-0000-0000-000000000000","result":{"type":"ERROR","data":{"error":"Internal repository error: disk full"}}}"#
    );
    let bans = CommandResponseMessage {
        id: 1,
        result: CommandResult::Success(CommandResponse::GetPlayerBans(GetPlayerBansResponse {
            bans: vec!["a".to_string(), "b\"c".to_string()],
        })),
    };
    assert_eq!(
        bans.to_json(),
        r#"{"id":"00000000-0000-0000-0000-000000000001","result":{"type":"SUCCESS","data":{"type":"GET_PLAYER_BANS","data":{"bans":["a","b\"c"]}}}}"#
    );
    let ban = CommandResponseMessage { id: 2, result: CommandResult::Success(CommandResponse::BanPlayer) };
    assert!(ban.to_json().ends_with(r#""result":{"type":"SUCCESS","data":{"type":"BAN_PLAYER"}}}"#));
    assert_eq!(ErrorMessage::from(&CommandError::InvalidDuration).error, "The provided duration is invalid");
    assert!(WhitelistResult::Changed.is_changed());
    assert!(!WhitelistResult::Unchanged.is_changed());
    assert!(whitelist_switch_changed(true, true));
    assert!(!whitelist_switch_changed(false, true));
}
