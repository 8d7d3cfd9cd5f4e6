use crate::error::{DecodeError, EncodeError};
use crate::fields::{
    append_bytes, be_bytes, byte_array_bytes, parse_be, parse_bool, parse_byte_array,
    parse_string, read_bool, read_byte_array, read_rest, read_string, read_uuid, read_uuid_text,
    string_bytes, uuid_text_value, write_bool, write_byte_array, write_string, write_uuid,
    write_uuid_text, DEFAULT_STRING_MAX, UUID_TEXT_MAX,
};
use crate::packet::{parse_type_id, read_type_id, write_type_id};
use crate::varint::{parse_var_i32, read_var_i32, var_i32_bytes, write_var_i32};
use vstd::prelude::*;
use vstd::utf8::encode_utf8;

verus! {

/// Maximum byte length of the server id of an encryption request.
pub const SERVER_ID_MAX: u16 = 20;

/// Maximum byte length of a username in a login success.
pub const USERNAME_MAX: u16 = 16;

/// Packets a client sends in the login state.
#[derive(Debug, Clone)]
pub enum LoginServerBoundPacket {
    LoginStart(LoginStart),
    EncryptionResponse(EncryptionResponse),
    LoginPluginResponse(LoginPluginResponse),
    LoginAcknowledged,
}

/// Packets a server sends in the login state.
#[derive(Debug, Clone)]
pub enum LoginClientBoundPacket {
    LoginDisconnect(LoginDisconnect),
    EncryptionRequest(EncryptionRequest),
    LoginSuccess(LoginSuccess),
    SetCompression(SetCompression),
    LoginPluginRequest(LoginPluginRequest),
}

/// The player's name and UUID; the UUID travels as hyphenated text.
#[derive(Debug, Clone)]
pub struct LoginStart {
    pub name: String,
    pub uuid: u128,
}

#[derive(Debug, Clone)]
pub struct EncryptionResponse {
    pub shared_secret: Vec<u8>,
    pub verify_token: Vec<u8>,
}

#[derive(Debug, Clone)]
pub struct LoginPluginResponse {
    pub message_id: i32,
    pub successful: bool,
    pub data: Vec<u8>,
}

/// A refusal, with its reason as chat JSON text.
#[derive(Debug, Clone)]
pub struct LoginDisconnect {
    pub reason: String,
}

#[derive(Debug, Clone)]
pub struct EncryptionRequest {
    pub server_id: String,
    pub public_key: Vec<u8>,
    pub verify_token: Vec<u8>,
}

/// The server's acceptance: the player's UUID (16 raw bytes) and name.
#[derive(Debug, Clone)]
pub struct LoginSuccess {
    pub uuid: u128,
    pub username: String,
}

/// The packet size from which frames are compressed; negative turns compression off.
#[derive(Debug, Clone, Copy, PartialEq, Eq, Structural)]
pub struct SetCompression {
    pub threshold: i32,
}

#[derive(Debug, Clone)]
pub struct LoginPluginRequest {
    pub message_id: i32,
    pub channel: String,
    pub data: Vec<u8>,
}

/// Login start read from the start of `d`: name, then UUID text.
pub open spec fn parse_login_start(d: Seq<u8>) -> Result<(Seq<char>, u128), DecodeError> {
    match parse_string(d, DEFAULT_STRING_MAX) {
        Err(e) => Err(e),
        Ok((name, n)) => match parse_string(d.skip(n as int), UUID_TEXT_MAX) {
            Err(e) => Err(e),
            Ok((text, _)) => match uuid_text_value(text) {
                Some(u) => Ok((name, u)),
                None => Err(DecodeError::UuidParseError),
            },
        },
    }
}

/// Encryption response read from the start of `d`: two byte arrays.
pub open spec fn parse_encryption_response(d: Seq<u8>) -> Result<(Seq<u8>, Seq<u8>), DecodeError> {
    match parse_byte_array(d) {
        Err(e) => Err(e),
        Ok((a, n)) => match parse_byte_array(d.skip(n as int)) {
            Err(e) => Err(e),
            Ok((b, _)) => Ok((a, b)),
        },
    }
}

/// Login plugin response read from the start of `d`: id, success flag, payload.
pub open spec fn parse_login_plugin_response(d: Seq<u8>) -> Result<(i32, bool, Seq<u8>), DecodeError> {
    match parse_var_i32(d) {
        Err(e) => Err(e),
        Ok((id, n)) => match parse_bool(d.skip(n as int)) {
            Err(e) => Err(e),
            Ok((ok, m)) => Ok((id, ok, d.skip((n + m) as int))),
        },
    }
}

/// Encryption request read from the start of `d`: server id, key, token.
pub open spec fn parse_encryption_request(d: Seq<u8>) -> Result<(Seq<char>, Seq<u8>, Seq<u8>), DecodeError> {
    match parse_string(d, SERVER_ID_MAX) {
        Err(e) => Err(e),
        Ok((id, n)) => match parse_encryption_response(d.skip(n as int)) {
            Err(e) => Err(e),
            Ok((k, t)) => Ok((id, k, t)),
        },
    }
}

/// Login success read from the start of `d`: raw UUID, then name.
pub open spec fn parse_login_success(d: Seq<u8>) -> Result<(u128, Seq<char>), DecodeError> {
    match parse_be(d, 16) {
        Err(e) => Err(e),
        Ok((u, n)) => match parse_string(d.skip(n as int), USERNAME_MAX) {
            Err(e) => Err(e),
            Ok((name, _)) => Ok((u as u128, name)),
        },
    }
}

/// Login plugin request read from the start of `d`: id, channel, payload.
pub open spec fn parse_login_plugin_request(d: Seq<u8>) -> Result<(i32, Seq<char>, Seq<u8>), DecodeError> {
    match parse_var_i32(d) {
        Err(e) => Err(e),
        Ok((id, n)) => match parse_string(d.skip(n as int), DEFAULT_STRING_MAX) {
            Err(e) => Err(e),
            Ok((c, m)) => Ok((id, c, d.skip((n + m) as int))),
        },
    }
}

impl LoginStart {
    /// Whether the body can be written: the name fits its field.
    pub open spec fn encodable(&self) -> bool {
        encode_utf8(self.name@).len() <= DEFAULT_STRING_MAX
    }

    /// Body bytes.
    pub open spec fn wire(&self) -> Seq<u8> {
        string_bytes(self.name@) + string_bytes(crate::fields::uuid_hyphenated(self.uuid))
    }

    pub fn decode(d: &[u8], pos: usize) -> (r: Result<LoginStart, DecodeError>)
        requires
            pos <= d@.len(),
        ensures
            match parse_login_start(d@.skip(pos as int)) {
                Ok((name, u)) => r is Ok && r->Ok_0.name@ == name && r->Ok_0.uuid == u,
                Err(e) => r == Err::<LoginStart, DecodeError>(e),
            },
    {
        let _len: usize = d.len();
        let ghost s = d@.skip(pos as int);
        let r1 = read_string(d, pos, DEFAULT_STRING_MAX);
        let (name, p1) = match r1 {
            Ok(v) => v,
            Err(e) => return Err(e),
        };
        assert(d@.skip(p1 as int) =~= s.skip(p1 - pos));
        let r2 = read_uuid_text(d, p1);
        match r2 {
            Ok((uuid, _)) => Ok(LoginStart { name, uuid }),
            Err(e) => Err(e),
        }
    }

    /// Appends the body: name (at most 32768 bytes), then UUID text.
    pub fn encode(&self, out: &mut Vec<u8>) -> (r: Result<(), EncodeError>)
        ensures
            r is Ok <==> self.encodable(),
            r is Ok ==> final(out)@ == old(out)@ + self.wire(),
    {
        let r = write_string(self.name.as_str(), DEFAULT_STRING_MAX, out);
        if r.is_err() {
            return r;
        }
        write_uuid_text(self.uuid, out);
        assert(out@ =~= old(out)@ + self.wire());
        Ok(())
    }
}

impl EncryptionResponse {
    pub open spec fn encodable(&self) -> bool {
        self.shared_secret@.len() <= i32::MAX && self.verify_token@.len() <= i32::MAX
    }

    pub open spec fn wire(&self) -> Seq<u8> {
        byte_array_bytes(self.shared_secret@) + byte_array_bytes(self.verify_token@)
    }

    pub fn decode(d: &[u8], pos: usize) -> (r: Result<EncryptionResponse, DecodeError>)
        requires
            pos <= d@.len(),
        ensures
            match parse_encryption_response(d@.skip(pos as int)) {
                Ok((a, b)) => r is Ok && r->Ok_0.shared_secret@ == a && r->Ok_0.verify_token@ == b,
                Err(e) => r == Err::<EncryptionResponse, DecodeError>(e),
            },
    {
        let _len: usize = d.len();
        let ghost s = d@.skip(pos as int);
        let r1 = read_byte_array(d, pos);
        let (shared_secret, p1) = match r1 {
            Ok(v) => v,
            Err(e) => return Err(e),
        };
        assert(d@.skip(p1 as int) =~= s.skip(p1 - pos));
        let r2 = read_byte_array(d, p1);
        match r2 {
            Ok((verify_token, _)) => Ok(EncryptionResponse { shared_secret, verify_token }),
            Err(e) => Err(e),
        }
    }

    pub fn encode(&self, out: &mut Vec<u8>) -> (r: Result<(), EncodeError>)
        ensures
            r is Ok <==> self.encodable(),
            r is Ok ==> final(out)@ == old(out)@ + self.wire(),
    {
        let r = write_byte_array(self.shared_secret.as_slice(), out);
        if r.is_err() {
            return r;
        }
        let r = write_byte_array(self.verify_token.as_slice(), out);
        assert(r is Ok ==> out@ =~= old(out)@ + self.wire());
        r
    }
}

impl LoginPluginResponse {
    pub open spec fn wire(&self) -> Seq<u8> {
        var_i32_bytes(self.message_id) + seq![if self.successful { 1u8 } else { 0u8 }]
            + self.data@
    }

    pub fn decode(d: &[u8], pos: usize) -> (r: Result<LoginPluginResponse, DecodeError>)
        requires
            pos <= d@.len(),
        ensures
            match parse_login_plugin_response(d@.skip(pos as int)) {
                Ok((id, ok, data)) => r is Ok && r->Ok_0.message_id == id && r->Ok_0.successful
                    == ok && r->Ok_0.data@ == data,
                Err(e) => r == Err::<LoginPluginResponse, DecodeError>(e),
            },
    {
        let _len: usize = d.len();
        let ghost s = d@.skip(pos as int);
        let r1 = read_var_i32(d, pos);
        let (message_id, p1) = match r1 {
            Ok(v) => v,
            Err(e) => return Err(e),
        };
        assert(d@.skip(p1 as int) =~= s.skip(p1 - pos));
        let r2 = read_bool(d, p1);
        let (successful, p2) = match r2 {
            Ok(v) => v,
            Err(e) => return Err(e),
        };
        assert(d@.skip(p2 as int) =~= s.skip(p2 - pos));
        let data = read_rest(d, p2);
        Ok(LoginPluginResponse { message_id, successful, data })
    }

    pub fn encode(&self, out: &mut Vec<u8>)
        ensures
            final(out)@ == old(out)@ + self.wire(),
    {
        write_var_i32(self.message_id, out);
        write_bool(self.successful, out);
        append_bytes(out, self.data.as_slice());
        assert(out@ =~= old(out)@ + self.wire());
    }
}

impl LoginDisconnect {
    pub open spec fn encodable(&self) -> bool {
        encode_utf8(self.reason@).len() <= DEFAULT_STRING_MAX
    }

    pub open spec fn wire(&self) -> Seq<u8> {
        string_bytes(self.reason@)
    }

    pub fn decode(d: &[u8], pos: usize) -> (r: Result<LoginDisconnect, DecodeError>)
        requires
            pos <= d@.len(),
        ensures
            match parse_string(d@.skip(pos as int), DEFAULT_STRING_MAX) {
                Ok((s, _)) => r is Ok && r->Ok_0.reason@ == s,
                Err(e) => r == Err::<LoginDisconnect, DecodeError>(e),
            },
    {
        match read_string(d, pos, DEFAULT_STRING_MAX) {
            Ok((reason, _)) => Ok(LoginDisconnect { reason }),
            Err(e) => Err(e),
        }
    }

    pub fn encode(&self, out: &mut Vec<u8>) -> (r: Result<(), EncodeError>)
        ensures
            r is Ok <==> self.encodable(),
            r is Ok ==> final(out)@ == old(out)@ + self.wire(),
    {
        write_string(self.reason.as_str(), DEFAULT_STRING_MAX, out)
    }
}

impl EncryptionRequest {
    pub open spec fn encodable(&self) -> bool {
        encode_utf8(self.server_id@).len() <= SERVER_ID_MAX && self.public_key@.len()
            <= i32::MAX && self.verify_token@.len() <= i32::MAX
    }

    pub open spec fn wire(&self) -> Seq<u8> {
        string_bytes(self.server_id@) + byte_array_bytes(self.public_key@) + byte_array_bytes(
            self.verify_token@,
        )
    }

    pub fn decode(d: &[u8], pos: usize) -> (r: Result<EncryptionRequest, DecodeError>)
        requires
            pos <= d@.len(),
        ensures
            match parse_encryption_request(d@.skip(pos as int)) {
                Ok((id, k, t)) => r is Ok && r->Ok_0.server_id@ == id && r->Ok_0.public_key@ == k
                    && r->Ok_0.verify_token@ == t,
                Err(e) => r == Err::<EncryptionRequest, DecodeError>(e),
            },
    {
        let _len: usize = d.len();
        let ghost s = d@.skip(pos as int);
        let r1 = read_string(d, pos, SERVER_ID_MAX);
        let (server_id, p1) = match r1 {
            Ok(v) => v,
            Err(e) => return Err(e),
        };
        assert(d@.skip(p1 as int) =~= s.skip(p1 - pos));
        let r2 = EncryptionResponse::decode(d, p1);
        match r2 {
            Ok(EncryptionResponse { shared_secret, verify_token }) => Ok(
                EncryptionRequest { server_id, public_key: shared_secret, verify_token },
            ),
            Err(e) => Err(e),
        }
    }

    pub fn encode(&self, out: &mut Vec<u8>) -> (r: Result<(), EncodeError>)
        ensures
            r is Ok <==> self.encodable(),
            r is Ok ==> final(out)@ == old(out)@ + self.wire(),
    {
        let r = write_string(self.server_id.as_str(), SERVER_ID_MAX, out);
        if r.is_err() {
            return r;
        }
        let r = write_byte_array(self.public_key.as_slice(), out);
        if r.is_err() {
            return r;
        }
        let r = write_byte_array(self.verify_token.as_slice(), out);
        assert(r is Ok ==> out@ =~= old(out)@ + self.wire());
        r
    }
}

impl LoginSuccess {
    pub open spec fn encodable(&self) -> bool {
        encode_utf8(self.username@).len() <= USERNAME_MAX
    }

    pub open spec fn wire(&self) -> Seq<u8> {
        be_bytes(self.uuid as nat, 16) + string_bytes(self.username@)
    }

    pub fn decode(d: &[u8], pos: usize) -> (r: Result<LoginSuccess, DecodeError>)
        requires
            pos <= d@.len(),
        ensures
            match parse_login_success(d@.skip(pos as int)) {
                Ok((u, name)) => r is Ok && r->Ok_0.uuid == u && r->Ok_0.username@ == name,
                Err(e) => r == Err::<LoginSuccess, DecodeError>(e),
            },
    {
        let _len: usize = d.len();
        let ghost s = d@.skip(pos as int);
        let r1 = read_uuid(d, pos);
        let (uuid, p1) = match r1 {
            Ok(v) => v,
            Err(e) => return Err(e),
        };
        assert(d@.skip(p1 as int) =~= s.skip(p1 - pos));
        match read_string(d, p1, USERNAME_MAX) {
            Ok((username, _)) => Ok(LoginSuccess { uuid, username }),
            Err(e) => Err(e),
        }
    }

    pub fn encode(&self, out: &mut Vec<u8>) -> (r: Result<(), EncodeError>)
        ensures
            r is Ok <==> self.encodable(),
            r is Ok ==> final(out)@ == old(out)@ + self.wire(),
    {
        let bytes = self.username.as_str().as_bytes();
        if bytes.len() > USERNAME_MAX as usize {
            return Err(EncodeError::StringTooLong { length: bytes.len(), max_length: USERNAME_MAX });
        }
        write_uuid(self.uuid, out);
        let r = write_string(self.username.as_str(), USERNAME_MAX, out);
        assert(out@ =~= old(out)@ + self.wire());
        r
    }
}

impl SetCompression {
    pub open spec fn wire(&self) -> Seq<u8> {
        var_i32_bytes(self.threshold)
    }

    pub fn decode(d: &[u8], pos: usize) -> (r: Result<SetCompression, DecodeError>)
        requires
            pos <= d@.len(),
        ensures
            match parse_var_i32(d@.skip(pos as int)) {
                Ok((t, _)) => r == Ok::<SetCompression, DecodeError>(SetCompression { threshold: t }),
                Err(e) => r == Err::<SetCompression, DecodeError>(e),
            },
    {
        match read_var_i32(d, pos) {
            Ok((threshold, _)) => Ok(SetCompression { threshold }),
            Err(e) => Err(e),
        }
    }

    pub fn encode(&self, out: &mut Vec<u8>)
        ensures
            final(out)@ == old(out)@ + self.wire(),
    {
        write_var_i32(self.threshold, out);
    }
}

impl LoginPluginRequest {
    pub open spec fn encodable(&self) -> bool {
        encode_utf8(self.channel@).len() <= DEFAULT_STRING_MAX
    }

    pub open spec fn wire(&self) -> Seq<u8> {
        var_i32_bytes(self.message_id) + string_bytes(self.channel@) + self.data@
    }

    pub fn decode(d: &[u8], pos: usize) -> (r: Result<LoginPluginRequest, DecodeError>)
        requires
            pos <= d@.len(),
        ensures
            match parse_login_plugin_request(d@.skip(pos as int)) {
                Ok((id, c, data)) => r is Ok && r->Ok_0.message_id == id && r->Ok_0.channel@ == c
                    && r->Ok_0.data@ == data,
                Err(e) => r == Err::<LoginPluginRequest, DecodeError>(e),
            },
    {
        let _len: usize = d.len();
        let ghost s = d@.skip(pos as int);
        let r1 = read_var_i32(d, pos);
        let (message_id, p1) = match r1 {
            Ok(v) => v,
            Err(e) => return Err(e),
        };
        assert(d@.skip(p1 as int) =~= s.skip(p1 - pos));
        let r2 = read_string(d, p1, DEFAULT_STRING_MAX);
        let (channel, p2) = match r2 {
            Ok(v) => v,
            Err(e) => return Err(e),
        };
        assert(d@.skip(p2 as int) =~= s.skip(p2 - pos));
        let data = read_rest(d, p2);
        Ok(LoginPluginRequest { message_id, channel, data })
    }

    pub fn encode(&self, out: &mut Vec<u8>) -> (r: Result<(), EncodeError>)
        ensures
            r is Ok <==> self.encodable(),
            r is Ok ==> final(out)@ == old(out)@ + self.wire(),
    {
        let bytes = self.channel.as_str().as_bytes();
        if bytes.len() > DEFAULT_STRING_MAX as usize {
            return Err(
                EncodeError::StringTooLong { length: bytes.len(), max_length: DEFAULT_STRING_MAX },
            );
        }
        write_var_i32(self.message_id, out);
        let r = write_string(self.channel.as_str(), DEFAULT_STRING_MAX, out);
        append_bytes(out, self.data.as_slice());
        assert(out@ =~= old(out)@ + self.wire());
        Ok(())
    }
}

impl LoginServerBoundPacket {
    /// Whether the packet can be written.
    pub open spec fn encodable(&self) -> bool {
        match self {
            LoginServerBoundPacket::LoginStart(p) => p.encodable(),
            LoginServerBoundPacket::EncryptionResponse(p) => p.encodable(),
            _ => true,
        }
    }

    /// Type id and body bytes of this packet.
    pub open spec fn wire(&self) -> Seq<u8> {
        match self {
            LoginServerBoundPacket::LoginStart(p) => seq![0u8] + p.wire(),
            LoginServerBoundPacket::EncryptionResponse(p) => seq![1u8] + p.wire(),
            LoginServerBoundPacket::LoginPluginResponse(p) => seq![2u8] + p.wire(),
            LoginServerBoundPacket::LoginAcknowledged => seq![3u8],
        }
    }

    /// Type id: login start `0x00`, encryption response `0x01`, plugin response `0x02`,
    /// acknowledgement `0x03`.
    pub fn get_type_id(&self) -> (r: u8)
        ensures
            r == match self {
                LoginServerBoundPacket::LoginStart(_) => 0u8,
                LoginServerBoundPacket::EncryptionResponse(_) => 1u8,
                LoginServerBoundPacket::LoginPluginResponse(_) => 2u8,
                LoginServerBoundPacket::LoginAcknowledged => 3u8,
            },
    {
        match self {
            LoginServerBoundPacket::LoginStart(_) => 0x00,
            LoginServerBoundPacket::EncryptionResponse(_) => 0x01,
            LoginServerBoundPacket::LoginPluginResponse(_) => 0x02,
            LoginServerBoundPacket::LoginAcknowledged => 0x03,
        }
    }

    /// Whether `r` is what decoding the packet bytes `d` gives.
    pub open spec fn decoded(d: Seq<u8>, r: Result<LoginServerBoundPacket, DecodeError>) -> bool {
        match parse_type_id(d) {
            Err(e) => r == Err::<LoginServerBoundPacket, DecodeError>(e),
            Ok((id, n)) => if id == 0 {
                match parse_login_start(d.skip(n as int)) {
                    Ok((name, u)) => r matches Ok(LoginServerBoundPacket::LoginStart(p))
                        && p.name@ == name && p.uuid == u,
                    Err(e) => r == Err::<LoginServerBoundPacket, DecodeError>(e),
                }
            } else if id == 1 {
                match parse_encryption_response(d.skip(n as int)) {
                    Ok((a, b)) => r matches Ok(LoginServerBoundPacket::EncryptionResponse(p))
                        && p.shared_secret@ == a && p.verify_token@ == b,
                    Err(e) => r == Err::<LoginServerBoundPacket, DecodeError>(e),
                }
            } else if id == 2 {
                match parse_login_plugin_response(d.skip(n as int)) {
                    Ok((m, ok, data)) => r matches Ok(
                        LoginServerBoundPacket::LoginPluginResponse(p),
                    ) && p.message_id == m && p.successful == ok && p.data@ == data,
                    Err(e) => r == Err::<LoginServerBoundPacket, DecodeError>(e),
                }
            } else if id == 3 {
                r == Ok::<LoginServerBoundPacket, DecodeError>(
                    LoginServerBoundPacket::LoginAcknowledged,
                )
            } else {
                r == Err::<LoginServerBoundPacket, DecodeError>(
                    DecodeError::UnknownPacketType { type_id: id },
                )
            },
        }
    }

    /// Reads a login-state client packet: type id, then body.
    pub fn decode(d: &[u8]) -> (r: Result<LoginServerBoundPacket, DecodeError>)
        ensures
            Self::decoded(d@, r),
    {
        let _len: usize = d.len();
        let (id, p) = match read_type_id(d) {
            Ok(v) => v,
            Err(e) => return Err(e),
        };
        if id == 0 {
            match LoginStart::decode(d, p) {
                Ok(v) => Ok(LoginServerBoundPacket::LoginStart(v)),
                Err(e) => Err(e),
            }
        } else if id == 1 {
            match EncryptionResponse::decode(d, p) {
                Ok(v) => Ok(LoginServerBoundPacket::EncryptionResponse(v)),
                Err(e) => Err(e),
            }
        } else if id == 2 {
            match LoginPluginResponse::decode(d, p) {
                Ok(v) => Ok(LoginServerBoundPacket::LoginPluginResponse(v)),
                Err(e) => Err(e),
            }
        } else if id == 3 {
            Ok(LoginServerBoundPacket::LoginAcknowledged)
        } else {
            Err(DecodeError::UnknownPacketType { type_id: id })
        }
    }

    /// Appends type id and body.
    pub fn encode(&self, out: &mut Vec<u8>) -> (r: Result<(), EncodeError>)
        ensures
            r is Ok <==> self.encodable(),
            r is Ok ==> final(out)@ == old(out)@ + self.wire(),
    {
        let id = self.get_type_id();
        write_type_id(id, out);
        proof {
            assert(var_i32_bytes(id as i32) == seq![id]);
        }
        let r = match self {
            LoginServerBoundPacket::LoginStart(p) => p.encode(out),
            LoginServerBoundPacket::EncryptionResponse(p) => p.encode(out),
            LoginServerBoundPacket::LoginPluginResponse(p) => {
                p.encode(out);
                Ok(())
            },
            LoginServerBoundPacket::LoginAcknowledged => Ok(()),
        };
        proof {
            if r is Ok {
                assert(out@ =~= old(out)@ + self.wire());
            }
        }
        r
    }
}

impl LoginClientBoundPacket {
    /// Whether the packet can be written.
    pub open spec fn encodable(&self) -> bool {
        match self {
            LoginClientBoundPacket::LoginDisconnect(p) => p.encodable(),
            LoginClientBoundPacket::EncryptionRequest(p) => p.encodable(),
            LoginClientBoundPacket::LoginSuccess(p) => p.encodable(),
            LoginClientBoundPacket::SetCompression(_) => true,
            LoginClientBoundPacket::LoginPluginRequest(p) => p.encodable(),
        }
    }

    /// Type id and body bytes of this packet.
    pub open spec fn wire(&self) -> Seq<u8> {
        match self {
            LoginClientBoundPacket::LoginDisconnect(p) => seq![0u8] + p.wire(),
            LoginClientBoundPacket::EncryptionRequest(p) => seq![1u8] + p.wire(),
            LoginClientBoundPacket::LoginSuccess(p) => seq![2u8] + p.wire(),
            LoginClientBoundPacket::SetCompression(p) => seq![3u8] + p.wire(),
            LoginClientBoundPacket::LoginPluginRequest(p) => seq![4u8] + p.wire(),
        }
    }

    /// Type id: disconnect `0x00`, encryption request `0x01`, success `0x02`,
    /// set compression `0x03`, plugin request `0x04`.
    pub fn get_type_id(&self) -> (r: u8)
        ensures
            r == match self {
                LoginClientBoundPacket::LoginDisconnect(_) => 0u8,
                LoginClientBoundPacket::EncryptionRequest(_) => 1u8,
                LoginClientBoundPacket::LoginSuccess(_) => 2u8,
                LoginClientBoundPacket::SetCompression(_) => 3u8,
                LoginClientBoundPacket::LoginPluginRequest(_) => 4u8,
            },
    {
        match self {
            LoginClientBoundPacket::LoginDisconnect(_) => 0x00,
            LoginClientBoundPacket::EncryptionRequest(_) => 0x01,
            LoginClientBoundPacket::LoginSuccess(_) => 0x02,
            LoginClientBoundPacket::SetCompression(_) => 0x03,
            LoginClientBoundPacket::LoginPluginRequest(_) => 0x04,
        }
    }

    /// Whether `r` is what decoding the packet bytes `d` gives.
    pub open spec fn decoded(d: Seq<u8>, r: Result<LoginClientBoundPacket, DecodeError>) -> bool {
        match parse_type_id(d) {
            Err(e) => r == Err::<LoginClientBoundPacket, DecodeError>(e),
            Ok((id, n)) => if id == 0 {
                match parse_string(d.skip(n as int), DEFAULT_STRING_MAX) {
                    Ok((s, _)) => r matches Ok(LoginClientBoundPacket::LoginDisconnect(p))
                        && p.reason@ == s,
                    Err(e) => r == Err::<LoginClientBoundPacket, DecodeError>(e),
                }
            } else if id == 1 {
                match parse_encryption_request(d.skip(n as int)) {
                    Ok((s, k, t)) => r matches Ok(LoginClientBoundPacket::EncryptionRequest(p))
                        && p.server_id@ == s && p.public_key@ == k && p.verify_token@ == t,
                    Err(e) => r == Err::<LoginClientBoundPacket, DecodeError>(e),
                }
            } else if id == 2 {
                match parse_login_success(d.skip(n as int)) {
                    Ok((u, name)) => r matches Ok(LoginClientBoundPacket::LoginSuccess(p))
                        && p.uuid == u && p.username@ == name,
                    Err(e) => r == Err::<LoginClientBoundPacket, DecodeError>(e),
                }
            } else if id == 3 {
                match parse_var_i32(d.skip(n as int)) {
                    Ok((t, _)) => r == Ok::<LoginClientBoundPacket, DecodeError>(
                        LoginClientBoundPacket::SetCompression(SetCompression { threshold: t }),
                    ),
                    Err(e) => r == Err::<LoginClientBoundPacket, DecodeError>(e),
                }
            } else if id == 4 {
                match parse_login_plugin_request(d.skip(n as int)) {
                    Ok((m, c, data)) => r matches Ok(
                        LoginClientBoundPacket::LoginPluginRequest(p),
                    ) && p.message_id == m && p.channel@ == c && p.data@ == data,
                    Err(e) => r == Err::<LoginClientBoundPacket, DecodeError>(e),
                }
            } else {
                r == Err::<LoginClientBoundPacket, DecodeError>(
                    DecodeError::UnknownPacketType { type_id: id },
                )
            },
        }
    }

    /// Reads a login-state server packet: type id, then body.
    pub fn decode(d: &[u8]) -> (r: Result<LoginClientBoundPacket, DecodeError>)
        ensures
            Self::decoded(d@, r),
    {
        let _len: usize = d.len();
        let (id, p) = match read_type_id(d) {
            Ok(v) => v,
            Err(e) => return Err(e),
        };
        if id == 0 {
            match LoginDisconnect::decode(d, p) {
                Ok(v) => Ok(LoginClientBoundPacket::LoginDisconnect(v)),
                Err(e) => Err(e),
            }
        } else if id == 1 {
            match EncryptionRequest::decode(d, p) {
                Ok(v) => Ok(LoginClientBoundPacket::EncryptionRequest(v)),
                Err(e) => Err(e),
            }
        } else if id == 2 {
            match LoginSuccess::decode(d, p) {
                Ok(v) => Ok(LoginClientBoundPacket::LoginSuccess(v)),
                Err(e) => Err(e),
            }
        } else if id == 3 {
            match SetCompression::decode(d, p) {
                Ok(v) => Ok(LoginClientBoundPacket::SetCompression(v)),
                Err(e) => Err(e),
            }
        } else if id == 4 {
            match LoginPluginRequest::decode(d, p) {
                Ok(v) => Ok(LoginClientBoundPacket::LoginPluginRequest(v)),
                Err(e) => Err(e),
            }
        } else {
            Err(DecodeError::UnknownPacketType { type_id: id })
        }
    }

    /// Appends type id and body.
    pub fn encode(&self, out: &mut Vec<u8>) -> (r: Result<(), EncodeError>)
        ensures
            r is Ok <==> self.encodable(),
            r is Ok ==> final(out)@ == old(out)@ + self.wire(),
    {
        let id = self.get_type_id();
        write_type_id(id, out);
        proof {
            assert(var_i32_bytes(id as i32) == seq![id]);
        }
        let r = match self {
            LoginClientBoundPacket::LoginDisconnect(p) => p.encode(out),
            LoginClientBoundPacket::EncryptionRequest(p) => p.encode(out),
            LoginClientBoundPacket::LoginSuccess(p) => p.encode(out),
            LoginClientBoundPacket::SetCompression(p) => {
                p.encode(out);
                Ok(())
            },
            LoginClientBoundPacket::LoginPluginRequest(p) => p.encode(out),
        };
        proof {
            if r is Ok {
                assert(out@ =~= old(out)@ + self.wire());
            }
        }
        r
    }
}

proof fn lemma_login_disconnect_round_trip(q: LoginDisconnect)
    requires
        q.encodable(),
    ensures
        LoginClientBoundPacket::decoded(
            LoginClientBoundPacket::LoginDisconnect(q).wire(),
            Ok(LoginClientBoundPacket::LoginDisconnect(q)),
        ),
{
        crate::packet::lemma_type_id_round_trip(0, q.wire());
        assert(LoginClientBoundPacket::LoginDisconnect(q).wire().skip(1) =~= q.wire());
        crate::fields::lemma_string_round_trip(q.reason@, DEFAULT_STRING_MAX, Seq::empty());
        assert(q.wire() + Seq::<u8>::empty() =~= q.wire());
}

proof fn lemma_encryption_request_round_trip(q: EncryptionRequest)
    requires
        q.encodable(),
    ensures
        LoginClientBoundPacket::decoded(
            LoginClientBoundPacket::EncryptionRequest(q).wire(),
            Ok(LoginClientBoundPacket::EncryptionRequest(q)),
        ),
{
        crate::packet::lemma_type_id_round_trip(1, q.wire());
        assert(LoginClientBoundPacket::EncryptionRequest(q).wire().skip(1) =~= q.wire());
        let sb = string_bytes(q.server_id@);
        let kb = byte_array_bytes(q.public_key@);
        let tb = byte_array_bytes(q.verify_token@);
        assert(q.wire() =~= sb + (kb + tb));
        crate::fields::lemma_string_round_trip(q.server_id@, SERVER_ID_MAX, kb + tb);
        assert(q.wire().skip(sb.len() as int) =~= kb + tb);
        crate::fields::lemma_byte_array_round_trip(q.public_key@, tb);
        assert((kb + tb).skip(kb.len() as int) =~= tb + Seq::<u8>::empty());
        crate::fields::lemma_byte_array_round_trip(q.verify_token@, Seq::empty());
}

proof fn lemma_login_success_round_trip(q: LoginSuccess)
    requires
        q.encodable(),
    ensures
        LoginClientBoundPacket::decoded(
            LoginClientBoundPacket::LoginSuccess(q).wire(),
            Ok(LoginClientBoundPacket::LoginSuccess(q)),
        ),
{
        crate::packet::lemma_type_id_round_trip(2, q.wire());
        assert(LoginClientBoundPacket::LoginSuccess(q).wire().skip(1) =~= q.wire());
        let ub = be_bytes(q.uuid as nat, 16);
        let nb = string_bytes(q.username@);
        crate::fields::lemma_be_round_trip(q.uuid as nat, 16, nb);
        crate::fields::lemma_be_bytes_len(q.uuid as nat, 16);
        crate::fields::lemma_pow256_16();
        assert(q.wire().skip(16) =~= nb + Seq::<u8>::empty());
        crate::fields::lemma_string_round_trip(q.username@, USERNAME_MAX, Seq::empty());
}

proof fn lemma_set_compression_round_trip(q: SetCompression)
    requires
        true,
    ensures
        LoginClientBoundPacket::decoded(
            LoginClientBoundPacket::SetCompression(q).wire(),
            Ok(LoginClientBoundPacket::SetCompression(q)),
        ),
{
        crate::packet::lemma_type_id_round_trip(3, q.wire());
        assert(LoginClientBoundPacket::SetCompression(q).wire().skip(1) =~= q.wire());
        crate::varint::lemma_var_i32_round_trip(q.threshold, Seq::empty());
        assert(q.wire() + Seq::<u8>::empty() =~= q.wire());
}

proof fn lemma_login_plugin_request_round_trip(q: LoginPluginRequest)
    requires
        q.encodable(),
    ensures
        LoginClientBoundPacket::decoded(
            LoginClientBoundPacket::LoginPluginRequest(q).wire(),
            Ok(LoginClientBoundPacket::LoginPluginRequest(q)),
        ),
{
        crate::packet::lemma_type_id_round_trip(4, q.wire());
        assert(LoginClientBoundPacket::LoginPluginRequest(q).wire().skip(1) =~= q.wire());
        let ib = var_i32_bytes(q.message_id);
        let cb = string_bytes(q.channel@);
        assert(q.wire() =~= ib + (cb + q.data@));
        crate::varint::lemma_var_i32_round_trip(q.message_id, cb + q.data@);
        assert(q.wire().skip(ib.len() as int) =~= cb + q.data@);
        crate::fields::lemma_string_round_trip(q.channel@, DEFAULT_STRING_MAX, q.data@);
        assert(q.wire().skip((ib.len() + cb.len()) as int) =~= q.data@);
}

/// Login-state round trip, server side: a packet whose strings fit their fields and
/// whose arrays fit an `i32` decodes from its bytes to itself.
pub proof fn lemma_login_client_round_trip(p: LoginClientBoundPacket)
    requires
        p.encodable(),
    ensures
        LoginClientBoundPacket::decoded(p.wire(), Ok(p)),
{
    match p {
        LoginClientBoundPacket::LoginDisconnect(q) => lemma_login_disconnect_round_trip(q),
        LoginClientBoundPacket::EncryptionRequest(q) => lemma_encryption_request_round_trip(q),
        LoginClientBoundPacket::LoginSuccess(q) => lemma_login_success_round_trip(q),
        LoginClientBoundPacket::SetCompression(q) => lemma_set_compression_round_trip(q),
        LoginClientBoundPacket::LoginPluginRequest(q) => lemma_login_plugin_request_round_trip(q),
    }
}

/// Login-state round trip, client side, for every packet but the login start (whose
/// UUID text goes through the `uuid` crate).
pub proof fn lemma_login_server_round_trip(p: LoginServerBoundPacket)
    requires
        p.encodable(),
        !(p is LoginStart),
    ensures
        LoginServerBoundPacket::decoded(p.wire(), Ok(p)),
{
    match p {
        LoginServerBoundPacket::EncryptionResponse(q) => {
            crate::packet::lemma_type_id_round_trip(1, q.wire());
            assert(p.wire().skip(1) =~= q.wire());
            let ab = byte_array_bytes(q.shared_secret@);
            let tb = byte_array_bytes(q.verify_token@);
            crate::fields::lemma_byte_array_round_trip(q.shared_secret@, tb);
            assert(q.wire().skip(ab.len() as int) =~= tb + Seq::<u8>::empty());
            crate::fields::lemma_byte_array_round_trip(q.verify_token@, Seq::empty());
        },
        LoginServerBoundPacket::LoginPluginResponse(q) => {
            crate::packet::lemma_type_id_round_trip(2, q.wire());
            assert(p.wire().skip(1) =~= q.wire());
            let ib = var_i32_bytes(q.message_id);
            let bb = seq![if q.successful { 1u8 } else { 0u8 }];
            assert(q.wire() =~= ib + (bb + q.data@));
            crate::varint::lemma_var_i32_round_trip(q.message_id, bb + q.data@);
            assert(q.wire().skip(ib.len() as int) =~= bb + q.data@);
            assert(q.wire().skip(ib.len() as int + 1) =~= q.data@);
        },
        LoginServerBoundPacket::LoginAcknowledged => {
            crate::packet::lemma_type_id_round_trip(3, Seq::empty());
            assert(seq![3u8] + Seq::<u8>::empty() =~= seq![3u8]);
        },
        _ => {},
    }
}

} // verus!
