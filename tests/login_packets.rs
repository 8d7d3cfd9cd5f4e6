use basileia_proxy::packet::login::{
    EncryptionRequest, EncryptionResponse, LoginDisconnect, LoginPluginRequest,
    LoginPluginResponse, LoginServerBoundPacket, LoginStart, LoginSuccess, SetCompression,
    LoginClientBoundPacket,
};
use basileia_proxy::error::DecodeError;

fn encryption_response_bytes() -> Vec<u8> {
    vec![10, 1, 2, 3, 4, 5, 6, 7, 8, 9, 10, 4, 1, 2, 3, 4]
}

fn login_plugin_response_bytes() -> Vec<u8> {
    vec![55, 1, 1, 2, 3, 4, 5, 6, 7, 8, 9, 10]
}

fn login_disconnect_bytes() -> Vec<u8> {
    let mut v = vec![18];
    v.extend_from_slice(br#"{"text":"Message"}"#);
    v
}

fn encryption_request_bytes() -> Vec<u8> {
    let mut v = vec![8];
    v.extend_from_slice(b"ServerID");
    v.extend_from_slice(&[10, 1, 2, 3, 4, 5, 6, 7, 8, 9, 10, 4, 1, 2, 3, 4]);
    v
}

fn login_plugin_request_bytes() -> Vec<u8> {
    let mut v = vec![55, 7];
    v.extend_from_slice(b"Channel");
    v.extend_from_slice(&[1, 2, 3, 4, 5, 6, 7, 8, 9, 10]);
    v
}

fn login_start_bytes() -> Vec<u8> {
    let mut v = vec![8];
    v.extend_from_slice(b"Username");
    v.push(36);
    v.extend_from_slice(b"c676f0db-9695-4fcd-a3cc-d75f129fde7f");
    v
}

fn login_success_bytes() -> Vec<u8> {
    let mut v = vec![
        0x35, 0xee, 0x31, 0x3b, 0xd8, 0x9a, 0x41, 0xb8, 0xb2, 0x5e, 0xd3, 0x2e, 0x8a, 0xff, 0x03,
        0x89,
    ];
    v.push(8);
    v.extend_from_slice(b"Username");
    v
}

#[test]
fn test_login_start_packet_encode() {
    let login_start = LoginStart {
        name: String::from("Username"),
        uuid: 0xc676f0db96954fcda3ccd75f129fde7f,
    };

    let mut vec = Vec::new();
    login_start.encode(&mut vec).unwrap();

    assert_eq!(vec, login_start_bytes());
}

#[test]
fn test_login_start_packet_decode() {
    let login_start = LoginStart::decode(&login_start_bytes(), 0).unwrap();

    assert_eq!(login_start.name, String::from("Username"));
    assert_eq!(login_start.uuid, 0xc676f0db96954fcda3ccd75f129fde7f);
}

#[test]
fn test_encryption_response_encode() {
    let encryption_response = EncryptionResponse {
        shared_secret: vec![1, 2, 3, 4, 5, 6, 7, 8, 9, 10],
        verify_token: vec![1, 2, 3, 4],
    };

    let mut vec = Vec::new();
    encryption_response.encode(&mut vec).unwrap();

    assert_eq!(vec, encryption_response_bytes());
}

#[test]
fn test_encryption_response_decode() {
    let encryption_response = EncryptionResponse::decode(&encryption_response_bytes(), 0).unwrap();

    assert_eq!(
        encryption_response.shared_secret,
        vec![1, 2, 3, 4, 5, 6, 7, 8, 9, 10]
    );
    assert_eq!(encryption_response.verify_token, vec![1, 2, 3, 4]);
}

#[test]
fn test_login_plugin_response_encode() {
    let login_plugin_response = LoginPluginResponse {
        message_id: 55,
        successful: true,
        data: vec![1, 2, 3, 4, 5, 6, 7, 8, 9, 10],
    };

    let mut vec = Vec::new();
    login_plugin_response.encode(&mut vec);

    assert_eq!(vec, login_plugin_response_bytes());
}

#[test]
fn test_login_plugin_response_decode() {
    let login_plugin_response =
        LoginPluginResponse::decode(&login_plugin_response_bytes(), 0).unwrap();

    assert_eq!(login_plugin_response.message_id, 55);
    assert!(login_plugin_response.successful);
    assert_eq!(
        login_plugin_response.data,
        vec![1, 2, 3, 4, 5, 6, 7, 8, 9, 10]
    );
}

#[test]
fn test_login_disconnect_encode() {
    let login_disconnect = LoginDisconnect {
        reason: r#"{"text":"Message"}"#.into(),
    };

    let mut vec = Vec::new();
    login_disconnect.encode(&mut vec).unwrap();

    assert_eq!(vec, login_disconnect_bytes());
}

#[test]
fn test_login_disconnect_decode() {
    let login_disconnect = LoginDisconnect::decode(&login_disconnect_bytes(), 0).unwrap();

    assert_eq!(
        login_disconnect.reason,
        String::from(r#"{"text":"Message"}"#)
    );
}

#[test]
fn test_encryption_request_encode() {
    let encryption_request = EncryptionRequest {
        server_id: String::from("ServerID"),
        public_key: vec![1, 2, 3, 4, 5, 6, 7, 8, 9, 10],
        verify_token: vec![1, 2, 3, 4],
    };

    let mut vec = Vec::new();
    encryption_request.encode(&mut vec).unwrap();

    assert_eq!(vec, encryption_request_bytes());
}

#[test]
fn test_encryption_request_decode() {
    let encryption_request = EncryptionRequest::decode(&encryption_request_bytes(), 0).unwrap();

    assert_eq!(encryption_request.server_id, String::from("ServerID"));
    assert_eq!(
        encryption_request.public_key,
        vec![1, 2, 3, 4, 5, 6, 7, 8, 9, 10]
    );
    assert_eq!(encryption_request.verify_token, vec![1, 2, 3, 4]);
}

#[test]
fn test_login_success_encode() {
    let login_success = LoginSuccess {
        uuid: 0x35ee313bd89a41b8b25ed32e8aff0389,
        username: String::from("Username"),
    };

    let mut vec = Vec::new();
    login_success.encode(&mut vec).unwrap();

    assert_eq!(vec, login_success_bytes());
}

#[test]
fn test_login_success_decode() {
    let login_success = LoginSuccess::decode(&login_success_bytes(), 0).unwrap();

    assert_eq!(login_success.username, String::from("Username"));
    assert_eq!(login_success.uuid, 0x35ee313bd89a41b8b25ed32e8aff0389);
}

#[test]
fn test_set_compression_encode() {
    let set_compression = SetCompression { threshold: 1 };

    let mut vec = Vec::new();
    set_compression.encode(&mut vec);

    assert_eq!(vec, vec![1]);
}

#[test]
fn test_set_compression_decode() {
    let set_compression = SetCompression::decode(&[1], 0).unwrap();

    assert_eq!(set_compression.threshold, 1);
}

#[test]
fn test_login_plugin_request_encode() {
    let login_plugin_request = LoginPluginRequest {
        message_id: 55,
        channel: String::from("Channel"),
        data: vec![1, 2, 3, 4, 5, 6, 7, 8, 9, 10],
    };

    let mut vec = Vec::new();
    login_plugin_request.encode(&mut vec).unwrap();

    assert_eq!(vec, login_plugin_request_bytes());
}

#[test]
fn test_login_plugin_request_decode() {
    let login_plugin_request =
        LoginPluginRequest::decode(&login_plugin_request_bytes(), 0).unwrap();

    assert_eq!(login_plugin_request.message_id, 55);
    assert_eq!(login_plugin_request.channel, String::from("Channel"));
    assert_eq!(
        login_plugin_request.data,
        vec![1, 2, 3, 4, 5, 6, 7, 8, 9, 10]
    );
}

#[test]
fn login_catalog_dispatches_on_type_id() {
    assert!(matches!(
        LoginServerBoundPacket::decode(&[0x03]),
        Ok(LoginServerBoundPacket::LoginAcknowledged)
    ));
    assert!(matches!(
        LoginServerBoundPacket::decode(&[0x04]),
        Err(DecodeError::UnknownPacketType { type_id: 4 })
    ));
    let mut bytes = vec![0x03];
    bytes.push(0x80);
    bytes.push(0x01);
    match LoginClientBoundPacket::decode(&bytes) {
        Ok(LoginClientBoundPacket::SetCompression(p)) => assert_eq!(p.threshold, 128),
        _ => panic!("expected a set-compression packet"),
    }
    assert!(matches!(
        LoginClientBoundPacket::decode(&[0x80, 0x02]),
        Err(DecodeError::VarIntTooLong { max_bytes: 1 })
    ));
}

#[test]
fn login_start_with_bad_uuid_text_is_refused() {
    let mut v = vec![5];
    v.extend_from_slice(b"Alice");
    v.push(3);
    v.extend_from_slice(b"xyz");
    assert!(matches!(LoginStart::decode(&v, 0), Err(DecodeError::UuidParseError)));
}

#[test]
fn login_success_username_limit() {
    let too_long = LoginSuccess { uuid: 1, username: "A".repeat(17) };
    let mut out = Vec::new();
    assert!(too_long.encode(&mut out).is_err());
    assert!(out.is_empty());
}
