use basileia_proxy::error::DecodeError;
use basileia_proxy::packet::status::{
    PingRequest, PingResponse, StatusClientBoundPacket, StatusResponse, StatusServerBoundPacket,
};

const PING_BYTES: [u8; 8] = [0x00, 0x00, 0x01, 0x6f, 0x58, 0x62, 0x76, 0xea];

#[test]
fn test_ping_request_encode() {
    let ping_request = PingRequest::new(1577735845610);

    let mut vec = Vec::new();
    ping_request.encode(&mut vec);

    assert_eq!(vec[0], 0x01);
    assert_eq!(vec[1..].to_vec(), PING_BYTES.to_vec());
}

#[test]
fn test_status_ping_request_decode() {
    let mut bytes = vec![0x01];
    bytes.extend_from_slice(&PING_BYTES);
    let ping_request = StatusServerBoundPacket::decode(&bytes).unwrap();

    match ping_request {
        StatusServerBoundPacket::PingRequest(p) => assert_eq!(p.time, 1577735845610),
        _ => panic!("expected a ping request"),
    }
}

#[test]
fn test_ping_response_encode() {
    let ping_response = PingResponse::new(1577735845610);

    let mut vec = Vec::new();
    ping_response.encode(&mut vec).unwrap();

    assert_eq!(vec[0], 0x01);
    assert_eq!(vec[1..].to_vec(), PING_BYTES.to_vec());
}

#[test]
fn test_status_ping_response_decode() {
    let mut bytes = vec![0x01];
    bytes.extend_from_slice(&PING_BYTES);
    let ping_response = StatusClientBoundPacket::decode(&bytes).unwrap();

    match ping_response {
        StatusClientBoundPacket::PingResponse(p) => assert_eq!(p.time, 1577735845610),
        _ => panic!("expected a ping response"),
    }
}

#[test]
fn status_request_has_an_empty_body() {
    assert!(matches!(
        StatusServerBoundPacket::decode(&[0x00]),
        Ok(StatusServerBoundPacket::StatusRequest)
    ));
    assert!(matches!(
        StatusServerBoundPacket::decode(&[0x02]),
        Err(DecodeError::UnknownPacketType { type_id: 2 })
    ));
}

#[test]
fn status_response_must_carry_json() {
    let json = r#"{"description":{"text":"hi"}}"#;
    let packet = StatusResponse::new(json.to_string());
    let mut bytes = Vec::new();
    packet.encode(&mut bytes).unwrap();
    match StatusClientBoundPacket::decode(&bytes) {
        Ok(StatusClientBoundPacket::StatusResponse(s)) => assert_eq!(s.server_status, json),
        _ => panic!("expected a status response"),
    }

    let mut not_json = vec![0x00, 4];
    not_json.extend_from_slice(b"{oops");
    not_json[1] = 5;
    assert!(matches!(StatusClientBoundPacket::decode(&not_json), Err(DecodeError::JsonError)));
}
