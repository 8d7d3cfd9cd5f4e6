use basileia_proxy::codec::MinecraftCodec;
use basileia_proxy::error::DecodeError;
use basileia_proxy::packet::game::{GameClientBoundPacket, GameServerBoundPacket};
use basileia_proxy::session::{ClientPacket, ClientPacketCodec, ProtocolState, ServerPacketCodec};
use basileia_proxy::packet::handshake::HandshakeServerBoundPacket;
use basileia_proxy::packet::status::{PingResponse, StatusClientBoundPacket};
use basileia_proxy::session::ServerPacket;
use basileia_proxy::utils::encode_packet;

#[test]
fn frame_round_trip_without_compression() {
    let packet = vec![0x01, 0xde, 0xad, 0xbe, 0xef];
    let mut sender = MinecraftCodec::new();
    let mut out = Vec::new();
    sender.encode(&packet, &mut out).unwrap();
    assert_eq!(out, vec![5, 0x01, 0xde, 0xad, 0xbe, 0xef]);

    let mut receiver = MinecraftCodec::new();
    receiver.accept(&out);
    assert_eq!(receiver.next_packet(), Ok(Some(packet)));
    assert_eq!(receiver.next_packet(), Ok(None));
}

#[test]
fn encode_packet_prefixes_the_length() {
    assert_eq!(encode_packet(&[0x00]), Ok(vec![1, 0x00]));
    let long = vec![7u8; 300];
    let framed = encode_packet(&long).unwrap();
    assert_eq!(framed[..2].to_vec(), vec![0xac, 0x02]);
    assert_eq!(framed.len(), 302);
}

#[test]
fn partial_frame_waits_and_keeps_the_buffer() {
    let packet = vec![0x10, 1, 2, 3, 4, 5, 6, 7];
    let mut sender = MinecraftCodec::new();
    let mut out = Vec::new();
    sender.encode(&packet, &mut out).unwrap();

    let mut receiver = MinecraftCodec::new();
    receiver.accept(&out[..4]);
    assert_eq!(receiver.next_packet(), Ok(None));
    assert_eq!(receiver.next_packet(), Ok(None));
    receiver.accept(&out[4..]);
    assert_eq!(receiver.next_packet(), Ok(Some(packet)));
}

#[test]
fn empty_buffer_is_not_a_packet_yet() {
    let mut receiver = MinecraftCodec::new();
    assert_eq!(receiver.next_packet(), Ok(None));
}

#[test]
fn negative_frame_length_is_invalid() {
    let mut receiver = MinecraftCodec::new();
    receiver.accept(&[0xff, 0xff, 0xff, 0xff, 0x0f]);
    assert_eq!(receiver.next_packet(), Err(DecodeError::InvalidPacketLength));
}

#[test]
fn compression_below_threshold_keeps_the_bytes() {
    let packet = vec![0x00, 1, 2];
    let mut sender = MinecraftCodec::new();
    sender.enable_compression(256);
    let mut out = Vec::new();
    sender.encode(&packet, &mut out).unwrap();
    assert_eq!(out, vec![4, 0, 0x00, 1, 2]);

    let mut receiver = MinecraftCodec::new();
    receiver.enable_compression(256);
    receiver.accept(&out);
    assert_eq!(receiver.next_packet(), Ok(Some(packet)));
}

#[test]
fn compression_from_threshold_on_writes_zlib() {
    let packet = vec![b'a'; 64];
    let mut sender = MinecraftCodec::new();
    sender.enable_compression(64);
    let mut out = Vec::new();
    sender.encode(&packet, &mut out).unwrap();
    // Declared uncompressed length follows the frame length.
    assert_eq!(out[1], 64);
    assert_eq!(out[0] as usize, out.len() - 1);
    assert!(out.len() < packet.len());
    assert_eq!(out[2], 0x78);

    let mut receiver = MinecraftCodec::new();
    receiver.enable_compression(64);
    receiver.accept(&out);
    assert_eq!(receiver.next_packet(), Ok(Some(packet)));
}

#[test]
fn compressed_frame_with_wrong_declared_length_is_invalid() {
    let packet = vec![b'a'; 64];
    let mut sender = MinecraftCodec::new();
    sender.enable_compression(1);
    let mut out = Vec::new();
    sender.encode(&packet, &mut out).unwrap();
    out[1] = 63;
    let mut receiver = MinecraftCodec::new();
    receiver.enable_compression(1);
    receiver.accept(&out);
    assert_eq!(receiver.next_packet(), Err(DecodeError::InvalidPacketLength));
    // The frame was consumed all the same.
    assert_eq!(receiver.next_packet(), Ok(None));
}

#[test]
fn encryption_round_trip_with_the_same_key() {
    let key = [7u8; 16];
    let first = vec![0x00, 1, 2, 3];
    let second = vec![0x01, 9, 9];
    let mut sender = MinecraftCodec::new();
    sender.enable_encryption(key);
    let mut out = Vec::new();
    sender.encode(&first, &mut out).unwrap();
    assert_ne!(out, vec![4, 0x00, 1, 2, 3]);
    sender.encode(&second, &mut out).unwrap();

    let mut receiver = MinecraftCodec::new();
    receiver.enable_encryption(key);
    receiver.accept(&out[..3]);
    receiver.accept(&out[3..]);
    assert_eq!(receiver.next_packet(), Ok(Some(first)));
    assert_eq!(receiver.next_packet(), Ok(Some(second)));
}

#[test]
fn clone_with_settings_starts_empty() {
    let mut codec = MinecraftCodec::new();
    codec.enable_compression(10);
    codec.accept(&[3, 0, 0]);
    let mut copy = codec.clone_with_settings();
    assert_eq!(copy.next_packet(), Ok(None));
    let mut out = Vec::new();
    copy.encode(&[0x00], &mut out).unwrap();
    assert_eq!(out, vec![2, 0, 0x00]);
}

#[test]
fn play_state_unknown_id_is_other() {
    let mut codec = ClientPacketCodec::new();
    codec.set_state(ProtocolState::Play);
    let frame = encode_packet(&[0x42, 0xff, 0xfe]).unwrap();
    match codec.decode(&frame) {
        Ok(Some(ClientPacket::Game(GameServerBoundPacket::Other { type_id }))) => {
            assert_eq!(type_id, 0x42)
        }
        _ => panic!("expected an opaque play packet"),
    }
    assert!(matches!(
        GameClientBoundPacket::decode(&[0x00]),
        Ok(GameClientBoundPacket::Other { type_id: 0 })
    ));
}

#[test]
fn server_codec_refuses_data_during_handshake() {
    let mut codec = ServerPacketCodec::new();
    assert_eq!(codec.state(), ProtocolState::Handshake);
    let frame = encode_packet(&[0x00]).unwrap();
    assert!(matches!(codec.decode(&frame), Err(DecodeError::DataSentDuringHandshake)));
}

#[test]
fn client_codec_follows_its_state() {
    let mut codec = ClientPacketCodec::new();
    codec.set_state(ProtocolState::Login);
    let frame = encode_packet(&[0x03]).unwrap();
    match codec.decode(&frame) {
        Ok(Some(p)) => assert_eq!(p.get_type_id(), 3),
        _ => panic!("expected a login acknowledgement"),
    }
    codec.set_compression(0);
    let mut sender = MinecraftCodec::new();
    sender.enable_compression(0);
    let mut out = Vec::new();
    sender.encode(&[0x03], &mut out).unwrap();
    assert!(matches!(codec.decode(&out), Ok(Some(_))));
}

#[test]
fn unknown_next_state_is_refused() {
    let mut body = vec![0x00, 0xfd, 0x05, 1, b'a', 0x63, 0xdd, 3];
    assert!(matches!(
        HandshakeServerBoundPacket::decode(&body),
        Err(DecodeError::UnknownEnumType { type_id: 3 })
    ));
    body[7] = 2;
    assert!(HandshakeServerBoundPacket::decode(&body).is_ok());
}

#[test]
fn corrupt_zlib_stream_is_an_io_error() {
    let mut receiver = MinecraftCodec::new();
    receiver.enable_compression(16);
    // Declares 20 inflated bytes, then a stream that is not zlib.
    receiver.accept(&[5, 20, 0xff, 0xff, 0xff, 0xff]);
    assert_eq!(receiver.next_packet(), Err(DecodeError::IOError));
}

#[test]
fn server_codec_encodes_through_compression_and_encryption() {
    let mut codec = ServerPacketCodec::new();
    codec.set_state(ProtocolState::Status);
    let mut out = Vec::new();
    codec
        .encode(&ServerPacket::Status(PingResponse::new(42)), &mut out)
        .unwrap();
    assert_eq!(out, vec![9, 0x01, 0, 0, 0, 0, 0, 0, 0, 42]);

    codec.set_compression(0);
    let mut compressed = Vec::new();
    codec
        .encode(&ServerPacket::Status(PingResponse::new(42)), &mut compressed)
        .unwrap();
    assert_eq!(compressed[1], 9);
    let mut receiver = MinecraftCodec::new();
    receiver.enable_compression(0);
    receiver.accept(&compressed);
    assert_eq!(receiver.next_packet(), Ok(Some(vec![0x01, 0, 0, 0, 0, 0, 0, 0, 42])));
}

#[test]
fn status_state_decode_on_server_side() {
    let mut codec = ServerPacketCodec::new();
    codec.set_state(ProtocolState::Status);
    let frame = encode_packet(&[0x01, 0, 0, 0, 0, 0, 0, 0, 7]).unwrap();
    match codec.decode(&frame) {
        Ok(Some(ServerPacket::Status(StatusClientBoundPacket::PingResponse(p)))) => {
            assert_eq!(p.time, 7)
        }
        _ => panic!("expected a ping response"),
    }
    let id = ServerPacket::Status(StatusClientBoundPacket::PingResponse(
        PingResponse { time: 7 },
    ))
    .id();
    assert_eq!(id, 1);
}
