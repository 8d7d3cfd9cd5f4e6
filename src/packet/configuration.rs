use crate::error::{DecodeError, EncodeError};
use crate::fields::{
    append_bytes, be_bytes, pow256, parse_be, parse_bool, parse_string, read_bool, read_rest,
    read_string, read_u32, read_u64, read_u8, read_uuid, string_bytes, write_bool, write_string,
    write_u32, write_u64, write_u8, write_uuid, DEFAULT_STRING_MAX,
};
use crate::json::{parse_json_text, read_json_text};
use crate::packet::game::{parse_plugin_message, plugin_message_bytes};
use crate::packet::{parse_type_id, read_type_id, write_type_id};
use crate::varint::{parse_var_i32, read_var_i32, var_i32_bytes, write_var_i32};
use vstd::prelude::*;
use vstd::utf8::encode_utf8;

verus! {

/// Maximum byte length of a client locale.
pub const LOCALE_MAX: u16 = 16;

/// Maximum byte length of a resource pack URL.
pub const URL_MAX: u16 = 32767;

/// Maximum byte length of a resource pack hash.
pub const HASH_MAX: u16 = 40;

/// Packets a client sends in the configuration state.
#[derive(Debug, Clone)]
pub enum ConfigServerBoundPacket {
    ClientInformation(ClientInformation),
    ServerBoundPluginMessage(ServerBoundPluginMessage),
    AcknowledgeFinishConfiguration,
    ServerBoundKeepAlive(ServerBoundKeepAlive),
    Pong(Pong),
    ResourcePackResponse(ResourcePackResponse),
}

/// Packets a server sends in the configuration state.
#[derive(Debug, Clone)]
pub enum ConfigClientBoundPaket {
    ClientBoundPluginMessage(ClientBoundPluginMessage),
    ConfigDisconnect(ConfigDisconnect),
    FinishConfiguration,
    ClientboundKeepAlive(ClientboundKeepAlive),
    Ping(Ping),
    RegistryData(RegistryData),
    RemoveResourcePack(RemoveResourcePack),
    AddResourcePack(AddResourcePack),
    FeatureFlags(FeatureFlags),
    UpdateTags(UpdateTags),
}

#[derive(Debug, Clone)]
pub struct ClientInformation {
    pub locale: String,
    pub view_distance: u8,
    pub chat_mode: ChatMode,
    pub chat_colors: bool,
    pub display_skin_parts: u8,
    pub main_hand: i32,
    pub enable_text_filtering: bool,
    pub allow_server_listings: bool,
}

/// Chat visibility; on the wire a VarInt ordinal from 0.
#[derive(Debug, Clone, Copy, PartialEq, Eq, Structural)]
pub enum ChatMode {
    Enabled,
    CommandsOnly,
    Hidden,
}

#[derive(Debug, Clone)]
pub struct ServerBoundPluginMessage {
    pub channel: String,
    pub data: Vec<u8>,
}

#[derive(Debug, Clone, Copy, PartialEq, Eq, Structural)]
pub struct ServerBoundKeepAlive {
    pub id: u64,
}

#[derive(Debug, Clone, Copy, PartialEq, Eq, Structural)]
pub struct Pong {
    pub id: u32,
}

#[derive(Debug, Clone, Copy, PartialEq, Eq, Structural)]
pub struct ResourcePackResponse {
    pub uuid: u128,
    pub result: ResourcePackResult,
}

/// Outcome of a resource pack offer; on the wire a VarInt ordinal from 0.
#[derive(Debug, Clone, Copy, PartialEq, Eq, Structural)]
pub enum ResourcePackResult {
    SuccessfullyDownloaded,
    Declined,
    DownloadFailed,
    Accepted,
    Downloaded,
    InvalidUrl,
    ReloadFailed,
    Discarded,
}

#[derive(Debug, Clone)]
pub struct ClientBoundPluginMessage {
    pub channel: String,
    pub data: Vec<u8>,
}

/// A refusal, with its reason as chat JSON text.
#[derive(Debug, Clone)]
pub struct ConfigDisconnect {
    pub reason: String,
}

#[derive(Debug, Clone, Copy, PartialEq, Eq, Structural)]
pub struct ClientboundKeepAlive {
    pub id: u64,
}

#[derive(Debug, Clone, Copy, PartialEq, Eq, Structural)]
pub struct Ping {
    pub id: u32,
}

/// Registry contents: an NBT compound, kept as its undecoded bytes.
#[derive(Debug, Clone)]
pub struct RegistryData {
    pub data: Vec<u8>,
}

#[derive(Debug, Clone, Copy, PartialEq, Eq, Structural)]
pub struct RemoveResourcePack {
    pub uuid: Option<u128>,
}

#[derive(Debug, Clone)]
pub struct AddResourcePack {
    pub uuid: u128,
    pub url: String,
    pub hash: String,
    pub forced: bool,
    /// Chat JSON text shown with the offer, when present.
    pub prompt_message: Option<String>,
}

/// The feature flags, kept undecoded.
#[derive(Debug, Clone)]
pub struct FeatureFlags {
    pub feature_flags: Vec<u8>,
}

/// The tag lists, kept undecoded.
#[derive(Debug, Clone)]
pub struct UpdateTags {
    pub tags: Vec<u8>,
}

/// Chat mode of a VarInt ordinal.
pub open spec fn chat_mode_of(v: i32) -> Option<ChatMode> {
    if v == 0 {
        Some(ChatMode::Enabled)
    } else if v == 1 {
        Some(ChatMode::CommandsOnly)
    } else if v == 2 {
        Some(ChatMode::Hidden)
    } else {
        None
    }
}

/// Resource pack result of a VarInt ordinal.
pub open spec fn resource_pack_result_of(v: i32) -> Option<ResourcePackResult> {
    if v == 0 {
        Some(ResourcePackResult::SuccessfullyDownloaded)
    } else if v == 1 {
        Some(ResourcePackResult::Declined)
    } else if v == 2 {
        Some(ResourcePackResult::DownloadFailed)
    } else if v == 3 {
        Some(ResourcePackResult::Accepted)
    } else if v == 4 {
        Some(ResourcePackResult::Downloaded)
    } else if v == 5 {
        Some(ResourcePackResult::InvalidUrl)
    } else if v == 6 {
        Some(ResourcePackResult::ReloadFailed)
    } else if v == 7 {
        Some(ResourcePackResult::Discarded)
    } else {
        None
    }
}

/// A VarInt-tagged enum read from the start of `d` through `of`; an ordinal that names
/// no variant is refused.
pub open spec fn parse_ordinal<T>(d: Seq<u8>, of: spec_fn(i32) -> Option<T>) -> Result<(T, nat), DecodeError> {
    match parse_var_i32(d) {
        Ok((v, n)) => match of(v) {
            Some(x) => Ok((x, n)),
            None => Err(DecodeError::UnknownEnumType { type_id: v as usize }),
        },
        Err(e) => Err(e),
    }
}

/// The first four fields of client information: locale, view distance, chat mode,
/// chat colours, with the bytes they take.
pub open spec fn parse_client_information_head(d: Seq<u8>) -> Result<
    (Seq<char>, u8, ChatMode, bool, nat),
    DecodeError,
> {
    match parse_string(d, LOCALE_MAX) {
        Err(e) => Err(e),
        Ok((locale, n1)) => match parse_be(d.skip(n1 as int), 1) {
            Err(e) => Err(e),
            Ok((vd, n2)) => match parse_ordinal(d.skip((n1 + n2) as int), |v| chat_mode_of(v)) {
                Err(e) => Err(e),
                Ok((cm, n3)) => match parse_bool(d.skip((n1 + n2 + n3) as int)) {
                    Err(e) => Err(e),
                    Ok((cc, n4)) => Ok((locale, vd as u8, cm, cc, n1 + n2 + n3 + n4)),
                },
            },
        },
    }
}

/// The last four fields of client information: skin parts, main hand, text filtering,
/// server listings.
pub open spec fn parse_client_information_tail(d: Seq<u8>) -> Result<(u8, i32, bool, bool), DecodeError> {
    match parse_be(d, 1) {
        Err(e) => Err(e),
        Ok((sp, n5)) => match parse_var_i32(d.skip(n5 as int)) {
            Err(e) => Err(e),
            Ok((mh, n6)) => match parse_bool(d.skip((n5 + n6) as int)) {
                Err(e) => Err(e),
                Ok((tf, n7)) => match parse_bool(d.skip((n5 + n6 + n7) as int)) {
                    Err(e) => Err(e),
                    Ok((sl, _)) => Ok((sp as u8, mh, tf, sl)),
                },
            },
        },
    }
}

/// Client information read from the start of `d`, field after field.
pub open spec fn parse_client_information(d: Seq<u8>) -> Result<
    (Seq<char>, u8, ChatMode, bool, u8, i32, bool, bool),
    DecodeError,
> {
    match parse_client_information_head(d) {
        Err(e) => Err(e),
        Ok((locale, vd, cm, cc, n)) => match parse_client_information_tail(d.skip(n as int)) {
            Err(e) => Err(e),
            Ok((sp, mh, tf, sl)) => Ok((locale, vd, cm, cc, sp, mh, tf, sl)),
        },
    }
}

/// Resource pack response read from the start of `d`: raw UUID, then result.
pub open spec fn parse_resource_pack_response(d: Seq<u8>) -> Result<(u128, ResourcePackResult), DecodeError> {
    match parse_be(d, 16) {
        Err(e) => Err(e),
        Ok((u, n)) => match parse_ordinal(d.skip(n as int), |v| resource_pack_result_of(v)) {
            Err(e) => Err(e),
            Ok((res, _)) => Ok((u as u128, res)),
        },
    }
}

/// Optional UUID read from the start of `d`: a presence flag, then the raw UUID.
pub open spec fn parse_optional_uuid(d: Seq<u8>) -> Result<Option<u128>, DecodeError> {
    match parse_bool(d) {
        Err(e) => Err(e),
        Ok((false, _)) => Ok(None),
        Ok((true, n)) => match parse_be(d.skip(n as int), 16) {
            Err(e) => Err(e),
            Ok((u, _)) => Ok(Some(u as u128)),
        },
    }
}

/// Resource pack offer read from the start of `d`.
pub open spec fn parse_add_resource_pack(d: Seq<u8>) -> Result<
    (u128, Seq<char>, Seq<char>, bool, Option<Seq<char>>),
    DecodeError,
> {
    match parse_be(d, 16) {
        Err(e) => Err(e),
        Ok((u, n1)) => match parse_string(d.skip(n1 as int), URL_MAX) {
            Err(e) => Err(e),
            Ok((url, n2)) => match parse_string(d.skip((n1 + n2) as int), HASH_MAX) {
                Err(e) => Err(e),
                Ok((hash, n3)) => match parse_bool(d.skip((n1 + n2 + n3) as int)) {
                    Err(e) => Err(e),
                    Ok((forced, n4)) => match parse_bool(d.skip((n1 + n2 + n3 + n4) as int)) {
                        Err(e) => Err(e),
                        Ok((false, _)) => Ok((u as u128, url, hash, forced, None)),
                        Ok((true, n5)) => match parse_json_text(
                            d.skip((n1 + n2 + n3 + n4 + n5) as int),
                        ) {
                            Err(e) => Err(e),
                            Ok((m, _)) => Ok((u as u128, url, hash, forced, Some(m))),
                        },
                    },
                },
            },
        },
    }
}

impl ChatMode {
    pub fn decode(d: &[u8], pos: usize) -> (r: Result<(ChatMode, usize), DecodeError>)
        requires
            pos <= d@.len(),
        ensures
            match parse_ordinal(d@.skip(pos as int), |v| chat_mode_of(v)) {
                Ok((m, n)) => pos + n <= d@.len() && r == Ok::<(ChatMode, usize), DecodeError>(
                    (m, (pos + n) as usize),
                ),
                Err(e) => r == Err::<(ChatMode, usize), DecodeError>(e),
            },
    {
        match read_var_i32(d, pos) {
            Ok((v, p)) => if v == 0 {
                Ok((ChatMode::Enabled, p))
            } else if v == 1 {
                Ok((ChatMode::CommandsOnly, p))
            } else if v == 2 {
                Ok((ChatMode::Hidden, p))
            } else {
                Err(DecodeError::UnknownEnumType { type_id: v as usize })
            },
            Err(e) => Err(e),
        }
    }

    /// The VarInt ordinal of this mode.
    pub open spec fn ordinal_spec(&self) -> i32 {
        match self {
            ChatMode::Enabled => 0,
            ChatMode::CommandsOnly => 1,
            ChatMode::Hidden => 2,
        }
    }

    /// The VarInt ordinal of this mode.
    pub fn ordinal(&self) -> (r: i32)
        ensures
            r == self.ordinal_spec(),
            chat_mode_of(r) == Some(*self),
    {
        match self {
            ChatMode::Enabled => 0,
            ChatMode::CommandsOnly => 1,
            ChatMode::Hidden => 2,
        }
    }
}

impl ResourcePackResult {
    pub fn decode(d: &[u8], pos: usize) -> (r: Result<(ResourcePackResult, usize), DecodeError>)
        requires
            pos <= d@.len(),
        ensures
            match parse_ordinal(d@.skip(pos as int), |v| resource_pack_result_of(v)) {
                Ok((m, n)) => pos + n <= d@.len() && r == Ok::<
                    (ResourcePackResult, usize),
                    DecodeError,
                >((m, (pos + n) as usize)),
                Err(e) => r == Err::<(ResourcePackResult, usize), DecodeError>(e),
            },
    {
        match read_var_i32(d, pos) {
            Ok((v, p)) => if v == 0 {
                Ok((ResourcePackResult::SuccessfullyDownloaded, p))
            } else if v == 1 {
                Ok((ResourcePackResult::Declined, p))
            } else if v == 2 {
                Ok((ResourcePackResult::DownloadFailed, p))
            } else if v == 3 {
                Ok((ResourcePackResult::Accepted, p))
            } else if v == 4 {
                Ok((ResourcePackResult::Downloaded, p))
            } else if v == 5 {
                Ok((ResourcePackResult::InvalidUrl, p))
            } else if v == 6 {
                Ok((ResourcePackResult::ReloadFailed, p))
            } else if v == 7 {
                Ok((ResourcePackResult::Discarded, p))
            } else {
                Err(DecodeError::UnknownEnumType { type_id: v as usize })
            },
            Err(e) => Err(e),
        }
    }

    /// The VarInt ordinal of this result.
    pub fn ordinal(&self) -> (r: i32)
        ensures
            resource_pack_result_of(r) == Some(*self),
    {
        match self {
            ResourcePackResult::SuccessfullyDownloaded => 0,
            ResourcePackResult::Declined => 1,
            ResourcePackResult::DownloadFailed => 2,
            ResourcePackResult::Accepted => 3,
            ResourcePackResult::Downloaded => 4,
            ResourcePackResult::InvalidUrl => 5,
            ResourcePackResult::ReloadFailed => 6,
            ResourcePackResult::Discarded => 7,
        }
    }
}

fn decode_client_information_head(d: &[u8], pos: usize) -> (r: Result<
    (String, u8, ChatMode, bool, usize),
    DecodeError,
>)
    requires
        pos <= d@.len(),
    ensures
        match parse_client_information_head(d@.skip(pos as int)) {
            Ok((locale, vd, cm, cc, n)) => r is Ok && r->Ok_0.0@ == locale && r->Ok_0.1 == vd
                && r->Ok_0.2 == cm && r->Ok_0.3 == cc && r->Ok_0.4 == pos + n && pos + n <= d@.len(),
            Err(e) => r == Err::<(String, u8, ChatMode, bool, usize), DecodeError>(e),
        },
{
    let _len: usize = d.len();
    let ghost s = d@.skip(pos as int);
    let r1 = read_string(d, pos, LOCALE_MAX);
    let (locale, p1) = match r1 {
        Ok(v) => v,
        Err(e) => return Err(e),
    };
    assert(d@.skip(p1 as int) =~= s.skip(p1 - pos));
    let r2 = read_u8(d, p1);
    let (view_distance, p2) = match r2 {
        Ok(v) => v,
        Err(e) => return Err(e),
    };
    assert(d@.skip(p2 as int) =~= s.skip(p2 - pos));
    let r3 = ChatMode::decode(d, p2);
    let (chat_mode, p3) = match r3 {
        Ok(v) => v,
        Err(e) => return Err(e),
    };
    assert(d@.skip(p3 as int) =~= s.skip(p3 - pos));
    let r4 = read_bool(d, p3);
    let (chat_colors, p4) = match r4 {
        Ok(v) => v,
        Err(e) => return Err(e),
    };
    Ok((locale, view_distance, chat_mode, chat_colors, p4))
}

fn decode_client_information_tail(d: &[u8], pos: usize) -> (r: Result<(u8, i32, bool, bool), DecodeError>)
    requires
        pos <= d@.len(),
    ensures
        match parse_client_information_tail(d@.skip(pos as int)) {
            Ok(v) => r == Ok::<(u8, i32, bool, bool), DecodeError>(v),
            Err(e) => r == Err::<(u8, i32, bool, bool), DecodeError>(e),
        },
{
    let _len: usize = d.len();
    let ghost s = d@.skip(pos as int);
    let r5 = read_u8(d, pos);
    let (display_skin_parts, p5) = match r5 {
        Ok(v) => v,
        Err(e) => return Err(e),
    };
    assert(d@.skip(p5 as int) =~= s.skip(p5 - pos));
    let r6 = read_var_i32(d, p5);
    let (main_hand, p6) = match r6 {
        Ok(v) => v,
        Err(e) => return Err(e),
    };
    assert(d@.skip(p6 as int) =~= s.skip(p6 - pos));
    let r7 = read_bool(d, p6);
    let (enable_text_filtering, p7) = match r7 {
        Ok(v) => v,
        Err(e) => return Err(e),
    };
    assert(d@.skip(p7 as int) =~= s.skip(p7 - pos));
    let r8 = read_bool(d, p7);
    let (allow_server_listings, _) = match r8 {
        Ok(v) => v,
        Err(e) => return Err(e),
    };
    Ok((display_skin_parts, main_hand, enable_text_filtering, allow_server_listings))
}

impl ClientInformation {
    pub fn decode(d: &[u8], pos: usize) -> (r: Result<ClientInformation, DecodeError>)
        requires
            pos <= d@.len(),
        ensures
            match parse_client_information(d@.skip(pos as int)) {
                Ok((locale, vd, cm, cc, sp, mh, tf, sl)) => r is Ok && r->Ok_0.locale@ == locale
                    && r->Ok_0.view_distance == vd && r->Ok_0.chat_mode == cm
                    && r->Ok_0.chat_colors == cc && r->Ok_0.display_skin_parts == sp
                    && r->Ok_0.main_hand == mh && r->Ok_0.enable_text_filtering == tf
                    && r->Ok_0.allow_server_listings == sl,
                Err(e) => r == Err::<ClientInformation, DecodeError>(e),
            },
    {
        let _len: usize = d.len();
        let (locale, view_distance, chat_mode, chat_colors, p) = match decode_client_information_head(
            d,
            pos,
        ) {
            Ok(v) => v,
            Err(e) => return Err(e),
        };
        proof {
            assert(d@.skip(p as int) =~= d@.skip(pos as int).skip(p - pos));
        }
        let (display_skin_parts, main_hand, enable_text_filtering, allow_server_listings) =
            match decode_client_information_tail(d, p) {
            Ok(v) => v,
            Err(e) => return Err(e),
        };
        Ok(
            ClientInformation {
                locale,
                view_distance,
                chat_mode,
                chat_colors,
                display_skin_parts,
                main_hand,
                enable_text_filtering,
                allow_server_listings,
            },
        )
    }

    pub open spec fn encodable(&self) -> bool {
        encode_utf8(self.locale@).len() <= LOCALE_MAX
    }

    pub open spec fn wire(&self) -> Seq<u8> {
        string_bytes(self.locale@) + seq![self.view_distance] + var_i32_bytes(
            self.chat_mode.ordinal_spec(),
        ) + seq![if self.chat_colors { 1u8 } else { 0u8 }] + seq![self.display_skin_parts]
            + var_i32_bytes(self.main_hand) + seq![
            if self.enable_text_filtering { 1u8 } else { 0u8 },
        ] + seq![if self.allow_server_listings { 1u8 } else { 0u8 }]
    }

    pub fn encode(&self, out: &mut Vec<u8>) -> (r: Result<(), EncodeError>)
        ensures
            r is Ok <==> self.encodable(),
            r is Ok ==> final(out)@ == old(out)@ + self.wire(),
    {
        let r = write_string(self.locale.as_str(), LOCALE_MAX, out);
        if r.is_err() {
            return r;
        }
        write_u8(self.view_distance, out);
        write_var_i32(self.chat_mode.ordinal(), out);
        write_bool(self.chat_colors, out);
        write_u8(self.display_skin_parts, out);
        write_var_i32(self.main_hand, out);
        write_bool(self.enable_text_filtering, out);
        write_bool(self.allow_server_listings, out);
        assert(out@ =~= old(out)@ + self.wire());
        Ok(())
    }
}

impl ServerBoundPluginMessage {
    pub fn decode(d: &[u8], pos: usize) -> (r: Result<ServerBoundPluginMessage, DecodeError>)
        requires
            pos <= d@.len(),
        ensures
            match parse_plugin_message(d@.skip(pos as int)) {
                Ok((c, data)) => r is Ok && r->Ok_0.channel@ == c && r->Ok_0.data@ == data,
                Err(e) => r == Err::<ServerBoundPluginMessage, DecodeError>(e),
            },
    {
        match crate::packet::game::PlayPluginMessage::decode(d, pos) {
            Ok(m) => Ok(ServerBoundPluginMessage { channel: m.channel, data: m.data }),
            Err(e) => Err(e),
        }
    }

    pub open spec fn encodable(&self) -> bool {
        encode_utf8(self.channel@).len() <= DEFAULT_STRING_MAX
    }

    pub open spec fn wire(&self) -> Seq<u8> {
        plugin_message_bytes(self.channel@, self.data@)
    }

    pub fn encode(&self, out: &mut Vec<u8>) -> (r: Result<(), EncodeError>)
        ensures
            r is Ok <==> self.encodable(),
            r is Ok ==> final(out)@ == old(out)@ + self.wire(),
    {
        let r = write_string(self.channel.as_str(), DEFAULT_STRING_MAX, out);
        if r.is_err() {
            return r;
        }
        append_bytes(out, self.data.as_slice());
        assert(out@ =~= old(out)@ + self.wire());
        Ok(())
    }
}

impl ClientBoundPluginMessage {
    pub fn decode(d: &[u8], pos: usize) -> (r: Result<ClientBoundPluginMessage, DecodeError>)
        requires
            pos <= d@.len(),
        ensures
            match parse_plugin_message(d@.skip(pos as int)) {
                Ok((c, data)) => r is Ok && r->Ok_0.channel@ == c && r->Ok_0.data@ == data,
                Err(e) => r == Err::<ClientBoundPluginMessage, DecodeError>(e),
            },
    {
        match crate::packet::game::PlayPluginMessage::decode(d, pos) {
            Ok(m) => Ok(ClientBoundPluginMessage { channel: m.channel, data: m.data }),
            Err(e) => Err(e),
        }
    }

    pub open spec fn encodable(&self) -> bool {
        encode_utf8(self.channel@).len() <= DEFAULT_STRING_MAX
    }

    pub open spec fn wire(&self) -> Seq<u8> {
        plugin_message_bytes(self.channel@, self.data@)
    }

    pub fn encode(&self, out: &mut Vec<u8>) -> (r: Result<(), EncodeError>)
        ensures
            r is Ok <==> self.encodable(),
            r is Ok ==> final(out)@ == old(out)@ + self.wire(),
    {
        let r = write_string(self.channel.as_str(), DEFAULT_STRING_MAX, out);
        if r.is_err() {
            return r;
        }
        append_bytes(out, self.data.as_slice());
        assert(out@ =~= old(out)@ + self.wire());
        Ok(())
    }
}

impl ResourcePackResponse {
    pub fn decode(d: &[u8], pos: usize) -> (r: Result<ResourcePackResponse, DecodeError>)
        requires
            pos <= d@.len(),
        ensures
            match parse_resource_pack_response(d@.skip(pos as int)) {
                Ok((u, res)) => r == Ok::<ResourcePackResponse, DecodeError>(
                    ResourcePackResponse { uuid: u, result: res },
                ),
                Err(e) => r == Err::<ResourcePackResponse, DecodeError>(e),
            },
    {
        let _len: usize = d.len();
        let ghost s = d@.skip(pos as int);
        let r1 = read_uuid(d, pos);
        let (uuid, p1) = match r1 {
            Ok(v) => v,
            Err(e) => return Err(e),
        };
        assert(d@.skip(p1 as int) =~= s.skip(p1 - pos));
        match ResourcePackResult::decode(d, p1) {
            Ok((result, _)) => Ok(ResourcePackResponse { uuid, result }),
            Err(e) => Err(e),
        }
    }

    pub open spec fn wire(&self) -> Seq<u8> {
        be_bytes(self.uuid as nat, 16) + var_i32_bytes(
            match self.result {
                ResourcePackResult::SuccessfullyDownloaded => 0i32,
                ResourcePackResult::Declined => 1i32,
                ResourcePackResult::DownloadFailed => 2i32,
                ResourcePackResult::Accepted => 3i32,
                ResourcePackResult::Downloaded => 4i32,
                ResourcePackResult::InvalidUrl => 5i32,
                ResourcePackResult::ReloadFailed => 6i32,
                ResourcePackResult::Discarded => 7i32,
            },
        )
    }

    pub fn encode(&self, out: &mut Vec<u8>)
        ensures
            final(out)@ == old(out)@ + self.wire(),
    {
        write_uuid(self.uuid, out);
        write_var_i32(self.result.ordinal(), out);
        assert(out@ =~= old(out)@ + self.wire());
    }
}

impl RemoveResourcePack {
    pub fn decode(d: &[u8], pos: usize) -> (r: Result<RemoveResourcePack, DecodeError>)
        requires
            pos <= d@.len(),
        ensures
            match parse_optional_uuid(d@.skip(pos as int)) {
                Ok(u) => r == Ok::<RemoveResourcePack, DecodeError>(RemoveResourcePack { uuid: u }),
                Err(e) => r == Err::<RemoveResourcePack, DecodeError>(e),
            },
    {
        let _len: usize = d.len();
        let ghost s = d@.skip(pos as int);
        let r1 = read_bool(d, pos);
        let (present, p1) = match r1 {
            Ok(v) => v,
            Err(e) => return Err(e),
        };
        if !present {
            return Ok(RemoveResourcePack { uuid: None });
        }
        assert(d@.skip(p1 as int) =~= s.skip(p1 - pos));
        match read_uuid(d, p1) {
            Ok((u, _)) => Ok(RemoveResourcePack { uuid: Some(u) }),
            Err(e) => Err(e),
        }
    }

    pub open spec fn wire(&self) -> Seq<u8> {
        match self.uuid {
            Some(u) => seq![1u8] + be_bytes(u as nat, 16),
            None => seq![0u8],
        }
    }

    pub fn encode(&self, out: &mut Vec<u8>)
        ensures
            final(out)@ == old(out)@ + self.wire(),
    {
        match self.uuid {
            Some(u) => {
                write_bool(true, out);
                write_uuid(u, out);
                assert(out@ =~= old(out)@ + self.wire());
            },
            None => {
                write_bool(false, out);
                assert(out@ =~= old(out)@ + self.wire());
            },
        }
    }
}

impl AddResourcePack {
    #[verifier::rlimit(60)]
    pub fn decode(d: &[u8], pos: usize) -> (r: Result<AddResourcePack, DecodeError>)
        requires
            pos <= d@.len(),
        ensures
            match parse_add_resource_pack(d@.skip(pos as int)) {
                Ok((u, url, hash, forced, prompt)) => r is Ok && r->Ok_0.uuid == u
                    && r->Ok_0.url@ == url && r->Ok_0.hash@ == hash && r->Ok_0.forced == forced
                    && match prompt {
                    Some(m) => r->Ok_0.prompt_message matches Some(x) && x@ == m,
                    None => r->Ok_0.prompt_message is None,
                },
                Err(e) => r == Err::<AddResourcePack, DecodeError>(e),
            },
    {
        let _len: usize = d.len();
        let ghost s = d@.skip(pos as int);
        let r1 = read_uuid(d, pos);
        let (uuid, p1) = match r1 {
            Ok(v) => v,
            Err(e) => return Err(e),
        };
        assert(d@.skip(p1 as int) =~= s.skip(p1 - pos));
        let r2 = read_string(d, p1, URL_MAX);
        let (url, p2) = match r2 {
            Ok(v) => v,
            Err(e) => return Err(e),
        };
        assert(d@.skip(p2 as int) =~= s.skip(p2 - pos));
        let r3 = read_string(d, p2, HASH_MAX);
        let (hash, p3) = match r3 {
            Ok(v) => v,
            Err(e) => return Err(e),
        };
        assert(d@.skip(p3 as int) =~= s.skip(p3 - pos));
        let r4 = read_bool(d, p3);
        let (forced, p4) = match r4 {
            Ok(v) => v,
            Err(e) => return Err(e),
        };
        assert(d@.skip(p4 as int) =~= s.skip(p4 - pos));
        let r5 = read_bool(d, p4);
        let (present, p5) = match r5 {
            Ok(v) => v,
            Err(e) => return Err(e),
        };
        if !present {
            return Ok(AddResourcePack { uuid, url, hash, forced, prompt_message: None });
        }
        assert(d@.skip(p5 as int) =~= s.skip(p5 - pos));
        match read_json_text(d, p5) {
            Ok((m, _)) => Ok(AddResourcePack { uuid, url, hash, forced, prompt_message: Some(m) }),
            Err(e) => Err(e),
        }
    }

    pub open spec fn encodable(&self) -> bool {
        encode_utf8(self.url@).len() <= URL_MAX && encode_utf8(self.hash@).len() <= HASH_MAX
            && match self.prompt_message {
            Some(m) => encode_utf8(m@).len() <= DEFAULT_STRING_MAX,
            None => true,
        }
    }

    pub open spec fn wire(&self) -> Seq<u8> {
        be_bytes(self.uuid as nat, 16) + string_bytes(self.url@) + string_bytes(self.hash@) + seq![
            if self.forced { 1u8 } else { 0u8 },
        ] + match self.prompt_message {
            Some(m) => seq![1u8] + string_bytes(m@),
            None => seq![0u8],
        }
    }

    pub fn encode(&self, out: &mut Vec<u8>) -> (r: Result<(), EncodeError>)
        ensures
            r is Ok <==> self.encodable(),
            r is Ok ==> final(out)@ == old(out)@ + self.wire(),
    {
        let url_len = self.url.as_str().as_bytes().len();
        let hash_len = self.hash.as_str().as_bytes().len();
        if url_len > URL_MAX as usize {
            return Err(EncodeError::StringTooLong { length: url_len, max_length: URL_MAX });
        }
        if hash_len > HASH_MAX as usize {
            return Err(EncodeError::StringTooLong { length: hash_len, max_length: HASH_MAX });
        }
        match &self.prompt_message {
            Some(m) => {
                let m_len = m.as_str().as_bytes().len();
                if m_len > DEFAULT_STRING_MAX as usize {
                    return Err(
                        EncodeError::StringTooLong { length: m_len, max_length: DEFAULT_STRING_MAX },
                    );
                }
            },
            None => {},
        }
        write_uuid(self.uuid, out);
        let _ = write_string(self.url.as_str(), URL_MAX, out);
        let _ = write_string(self.hash.as_str(), HASH_MAX, out);
        write_bool(self.forced, out);
        match &self.prompt_message {
            Some(m) => {
                write_bool(true, out);
                let _ = write_string(m.as_str(), DEFAULT_STRING_MAX, out);
            },
            None => {
                write_bool(false, out);
            },
        }
        assert(out@ =~= old(out)@ + self.wire());
        Ok(())
    }
}

impl ConfigServerBoundPacket {
    /// Whether the packet can be written.
    pub open spec fn encodable(&self) -> bool {
        match self {
            ConfigServerBoundPacket::ClientInformation(p) => p.encodable(),
            ConfigServerBoundPacket::ServerBoundPluginMessage(p) => p.encodable(),
            _ => true,
        }
    }

    /// Type id and body bytes of this packet.
    pub open spec fn wire(&self) -> Seq<u8> {
        match self {
            ConfigServerBoundPacket::ClientInformation(p) => seq![0u8] + p.wire(),
            ConfigServerBoundPacket::ServerBoundPluginMessage(p) => seq![1u8] + p.wire(),
            ConfigServerBoundPacket::AcknowledgeFinishConfiguration => seq![2u8],
            ConfigServerBoundPacket::ServerBoundKeepAlive(p) => seq![3u8] + be_bytes(p.id as nat, 8),
            ConfigServerBoundPacket::Pong(p) => seq![4u8] + be_bytes(p.id as nat, 4),
            ConfigServerBoundPacket::ResourcePackResponse(p) => seq![5u8] + p.wire(),
        }
    }

    /// Type id: client information `0x00`, plugin message `0x01`, acknowledgement `0x02`,
    /// keep-alive `0x03`, pong `0x04`, resource pack response `0x05`.
    pub fn get_type_id(&self) -> (r: u8)
        ensures
            r == match self {
                ConfigServerBoundPacket::ClientInformation(_) => 0u8,
                ConfigServerBoundPacket::ServerBoundPluginMessage(_) => 1u8,
                ConfigServerBoundPacket::AcknowledgeFinishConfiguration => 2u8,
                ConfigServerBoundPacket::ServerBoundKeepAlive(_) => 3u8,
                ConfigServerBoundPacket::Pong(_) => 4u8,
                ConfigServerBoundPacket::ResourcePackResponse(_) => 5u8,
            },
    {
        match self {
            ConfigServerBoundPacket::ClientInformation(_) => 0x00,
            ConfigServerBoundPacket::ServerBoundPluginMessage(_) => 0x01,
            ConfigServerBoundPacket::AcknowledgeFinishConfiguration => 0x02,
            ConfigServerBoundPacket::ServerBoundKeepAlive(_) => 0x03,
            ConfigServerBoundPacket::Pong(_) => 0x04,
            ConfigServerBoundPacket::ResourcePackResponse(_) => 0x05,
        }
    }

    /// Whether `r` is what decoding the packet bytes `d` gives.
    pub open spec fn decoded(d: Seq<u8>, r: Result<ConfigServerBoundPacket, DecodeError>) -> bool {
        match parse_type_id(d) {
            Err(e) => r == Err::<ConfigServerBoundPacket, DecodeError>(e),
            Ok((id, n)) => if id == 0 {
                match parse_client_information(d.skip(n as int)) {
                    Ok((locale, vd, cm, cc, sp, mh, tf, sl)) => r matches Ok(
                        ConfigServerBoundPacket::ClientInformation(p),
                    ) && p.locale@ == locale && p.view_distance == vd && p.chat_mode == cm
                        && p.chat_colors == cc && p.display_skin_parts == sp && p.main_hand
                        == mh && p.enable_text_filtering == tf && p.allow_server_listings
                        == sl,
                    Err(e) => r == Err::<ConfigServerBoundPacket, DecodeError>(e),
                }
            } else if id == 1 {
                match parse_plugin_message(d.skip(n as int)) {
                    Ok((c, data)) => r matches Ok(
                        ConfigServerBoundPacket::ServerBoundPluginMessage(p),
                    ) && p.channel@ == c && p.data@ == data,
                    Err(e) => r == Err::<ConfigServerBoundPacket, DecodeError>(e),
                }
            } else if id == 2 {
                r == Ok::<ConfigServerBoundPacket, DecodeError>(
                    ConfigServerBoundPacket::AcknowledgeFinishConfiguration,
                )
            } else if id == 3 {
                match parse_be(d.skip(n as int), 8) {
                    Ok((v, _)) => r == Ok::<ConfigServerBoundPacket, DecodeError>(
                        ConfigServerBoundPacket::ServerBoundKeepAlive(
                            ServerBoundKeepAlive { id: v as u64 },
                        ),
                    ),
                    Err(e) => r == Err::<ConfigServerBoundPacket, DecodeError>(e),
                }
            } else if id == 4 {
                match parse_be(d.skip(n as int), 4) {
                    Ok((v, _)) => r == Ok::<ConfigServerBoundPacket, DecodeError>(
                        ConfigServerBoundPacket::Pong(Pong { id: v as u32 }),
                    ),
                    Err(e) => r == Err::<ConfigServerBoundPacket, DecodeError>(e),
                }
            } else if id == 5 {
                match parse_resource_pack_response(d.skip(n as int)) {
                    Ok((u, res)) => r == Ok::<ConfigServerBoundPacket, DecodeError>(
                        ConfigServerBoundPacket::ResourcePackResponse(
                            ResourcePackResponse { uuid: u, result: res },
                        ),
                    ),
                    Err(e) => r == Err::<ConfigServerBoundPacket, DecodeError>(e),
                }
            } else {
                r == Err::<ConfigServerBoundPacket, DecodeError>(
                    DecodeError::UnknownPacketType { type_id: id },
                )
            },
        }
    }

    /// Reads a configuration-state client packet: type id, then body.
    pub fn decode(d: &[u8]) -> (r: Result<ConfigServerBoundPacket, DecodeError>)
        ensures
            Self::decoded(d@, r),
    {
        let _len: usize = d.len();
        let (id, p) = match read_type_id(d) {
            Ok(v) => v,
            Err(e) => return Err(e),
        };
        if id == 0 {
            match ClientInformation::decode(d, p) {
                Ok(v) => Ok(ConfigServerBoundPacket::ClientInformation(v)),
                Err(e) => Err(e),
            }
        } else if id == 1 {
            match ServerBoundPluginMessage::decode(d, p) {
                Ok(v) => Ok(ConfigServerBoundPacket::ServerBoundPluginMessage(v)),
                Err(e) => Err(e),
            }
        } else if id == 2 {
            Ok(ConfigServerBoundPacket::AcknowledgeFinishConfiguration)
        } else if id == 3 {
            match read_u64(d, p) {
                Ok((v, _)) => Ok(
                    ConfigServerBoundPacket::ServerBoundKeepAlive(ServerBoundKeepAlive { id: v }),
                ),
                Err(e) => Err(e),
            }
        } else if id == 4 {
            match read_u32(d, p) {
                Ok((v, _)) => Ok(ConfigServerBoundPacket::Pong(Pong { id: v })),
                Err(e) => Err(e),
            }
        } else if id == 5 {
            match ResourcePackResponse::decode(d, p) {
                Ok(v) => Ok(ConfigServerBoundPacket::ResourcePackResponse(v)),
                Err(e) => Err(e),
            }
        } else {
            Err(DecodeError::UnknownPacketType { type_id: id })
        }
    }

    /// Appends type id and body.
    pub fn encode(&self, out: &mut Vec<u8>) -> (r: Result<(), EncodeError>)
        ensures
            r is Ok <==> self.encodable(),
            r is Ok ==> final(out)@ == old(out)@ + self.wire(),
    {
        let id = self.get_type_id();
        write_type_id(id, out);
        proof {
            assert(var_i32_bytes(id as i32) == seq![id]);
        }
        let r = match self {
            ConfigServerBoundPacket::ClientInformation(p) => p.encode(out),
            ConfigServerBoundPacket::ServerBoundPluginMessage(p) => p.encode(out),
            ConfigServerBoundPacket::AcknowledgeFinishConfiguration => Ok(()),
            ConfigServerBoundPacket::ServerBoundKeepAlive(p) => {
                write_u64(p.id, out);
                Ok(())
            },
            ConfigServerBoundPacket::Pong(p) => {
                write_u32(p.id, out);
                Ok(())
            },
            ConfigServerBoundPacket::ResourcePackResponse(p) => {
                p.encode(out);
                Ok(())
            },
        };
        proof {
            if r is Ok {
                assert(out@ =~= old(out)@ + self.wire());
            }
        }
        r
    }
}

impl ConfigClientBoundPaket {
    /// Whether the packet can be written.
    pub open spec fn encodable(&self) -> bool {
        match self {
            ConfigClientBoundPaket::ClientBoundPluginMessage(p) => p.encodable(),
            ConfigClientBoundPaket::ConfigDisconnect(p) => encode_utf8(p.reason@).len()
                <= DEFAULT_STRING_MAX,
            ConfigClientBoundPaket::AddResourcePack(p) => p.encodable(),
            _ => true,
        }
    }

    /// Type id and body bytes of this packet.
    pub open spec fn wire(&self) -> Seq<u8> {
        match self {
            ConfigClientBoundPaket::ClientBoundPluginMessage(p) => seq![0u8] + p.wire(),
            ConfigClientBoundPaket::ConfigDisconnect(p) => seq![1u8] + string_bytes(p.reason@),
            ConfigClientBoundPaket::FinishConfiguration => seq![2u8],
            ConfigClientBoundPaket::ClientboundKeepAlive(p) => seq![3u8] + be_bytes(p.id as nat, 8),
            ConfigClientBoundPaket::Ping(p) => seq![4u8] + be_bytes(p.id as nat, 4),
            ConfigClientBoundPaket::RegistryData(p) => seq![5u8] + p.data@,
            ConfigClientBoundPaket::RemoveResourcePack(p) => seq![6u8] + p.wire(),
            ConfigClientBoundPaket::AddResourcePack(p) => seq![7u8] + p.wire(),
            ConfigClientBoundPaket::FeatureFlags(p) => seq![8u8] + p.feature_flags@,
            ConfigClientBoundPaket::UpdateTags(p) => seq![9u8] + p.tags@,
        }
    }

    /// Type id: plugin message `0x00`, disconnect `0x01`, finish `0x02`, keep-alive
    /// `0x03`, ping `0x04`, registry data `0x05`, remove pack `0x06`, add pack `0x07`,
    /// feature flags `0x08`, tags `0x09`.
    pub fn get_type_id(&self) -> (r: u8)
        ensures
            r == match self {
                ConfigClientBoundPaket::ClientBoundPluginMessage(_) => 0u8,
                ConfigClientBoundPaket::ConfigDisconnect(_) => 1u8,
                ConfigClientBoundPaket::FinishConfiguration => 2u8,
                ConfigClientBoundPaket::ClientboundKeepAlive(_) => 3u8,
                ConfigClientBoundPaket::Ping(_) => 4u8,
                ConfigClientBoundPaket::RegistryData(_) => 5u8,
                ConfigClientBoundPaket::RemoveResourcePack(_) => 6u8,
                ConfigClientBoundPaket::AddResourcePack(_) => 7u8,
                ConfigClientBoundPaket::FeatureFlags(_) => 8u8,
                ConfigClientBoundPaket::UpdateTags(_) => 9u8,
            },
    {
        match self {
            ConfigClientBoundPaket::ClientBoundPluginMessage(_) => 0x00,
            ConfigClientBoundPaket::ConfigDisconnect(_) => 0x01,
            ConfigClientBoundPaket::FinishConfiguration => 0x02,
            ConfigClientBoundPaket::ClientboundKeepAlive(_) => 0x03,
            ConfigClientBoundPaket::Ping(_) => 0x04,
            ConfigClientBoundPaket::RegistryData(_) => 0x05,
            ConfigClientBoundPaket::RemoveResourcePack(_) => 0x06,
            ConfigClientBoundPaket::AddResourcePack(_) => 0x07,
            ConfigClientBoundPaket::FeatureFlags(_) => 0x08,
            ConfigClientBoundPaket::UpdateTags(_) => 0x09,
        }
    }

    /// Whether `r` is what decoding the packet bytes `d` gives.
    pub open spec fn decoded(d: Seq<u8>, r: Result<ConfigClientBoundPaket, DecodeError>) -> bool {
        match parse_type_id(d) {
            Err(e) => r == Err::<ConfigClientBoundPaket, DecodeError>(e),
            Ok((id, n)) => if id == 0 {
                match parse_plugin_message(d.skip(n as int)) {
                    Ok((c, data)) => r matches Ok(
                        ConfigClientBoundPaket::ClientBoundPluginMessage(p),
                    ) && p.channel@ == c && p.data@ == data,
                    Err(e) => r == Err::<ConfigClientBoundPaket, DecodeError>(e),
                }
            } else if id == 1 {
                match parse_json_text(d.skip(n as int)) {
                    Ok((m, _)) => r matches Ok(ConfigClientBoundPaket::ConfigDisconnect(p))
                        && p.reason@ == m,
                    Err(e) => r == Err::<ConfigClientBoundPaket, DecodeError>(e),
                }
            } else if id == 2 {
                r == Ok::<ConfigClientBoundPaket, DecodeError>(
                    ConfigClientBoundPaket::FinishConfiguration,
                )
            } else if id == 3 {
                match parse_be(d.skip(n as int), 8) {
                    Ok((v, _)) => r == Ok::<ConfigClientBoundPaket, DecodeError>(
                        ConfigClientBoundPaket::ClientboundKeepAlive(
                            ClientboundKeepAlive { id: v as u64 },
                        ),
                    ),
                    Err(e) => r == Err::<ConfigClientBoundPaket, DecodeError>(e),
                }
            } else if id == 4 {
                match parse_be(d.skip(n as int), 4) {
                    Ok((v, _)) => r == Ok::<ConfigClientBoundPaket, DecodeError>(
                        ConfigClientBoundPaket::Ping(Ping { id: v as u32 }),
                    ),
                    Err(e) => r == Err::<ConfigClientBoundPaket, DecodeError>(e),
                }
            } else if id == 5 {
                r matches Ok(ConfigClientBoundPaket::RegistryData(p)) && p.data@ == d.skip(
                    n as int,
                )
            } else if id == 6 {
                match parse_optional_uuid(d.skip(n as int)) {
                    Ok(u) => r == Ok::<ConfigClientBoundPaket, DecodeError>(
                        ConfigClientBoundPaket::RemoveResourcePack(
                            RemoveResourcePack { uuid: u },
                        ),
                    ),
                    Err(e) => r == Err::<ConfigClientBoundPaket, DecodeError>(e),
                }
            } else if id == 7 {
                match parse_add_resource_pack(d.skip(n as int)) {
                    Ok((u, url, hash, forced, prompt)) => r matches Ok(
                        ConfigClientBoundPaket::AddResourcePack(p),
                    ) && p.uuid == u && p.url@ == url && p.hash@ == hash && p.forced == forced
                        && match prompt {
                        Some(m) => p.prompt_message matches Some(x) && x@ == m,
                        None => p.prompt_message is None,
                    },
                    Err(e) => r == Err::<ConfigClientBoundPaket, DecodeError>(e),
                }
            } else if id == 8 {
                r matches Ok(ConfigClientBoundPaket::FeatureFlags(p)) && p.feature_flags@
                    == d.skip(n as int)
            } else if id == 9 {
                r matches Ok(ConfigClientBoundPaket::UpdateTags(p)) && p.tags@ == d.skip(
                    n as int,
                )
            } else {
                r == Err::<ConfigClientBoundPaket, DecodeError>(
                    DecodeError::UnknownPacketType { type_id: id },
                )
            },
        }
    }

    /// Reads a configuration-state server packet: type id, then body.
    pub fn decode(d: &[u8]) -> (r: Result<ConfigClientBoundPaket, DecodeError>)
        ensures
            Self::decoded(d@, r),
    {
        let _len: usize = d.len();
        let (id, p) = match read_type_id(d) {
            Ok(v) => v,
            Err(e) => return Err(e),
        };
        if id == 0 {
            match ClientBoundPluginMessage::decode(d, p) {
                Ok(v) => Ok(ConfigClientBoundPaket::ClientBoundPluginMessage(v)),
                Err(e) => Err(e),
            }
        } else if id == 1 {
            match read_json_text(d, p) {
                Ok((reason, _)) => Ok(
                    ConfigClientBoundPaket::ConfigDisconnect(ConfigDisconnect { reason }),
                ),
                Err(e) => Err(e),
            }
        } else if id == 2 {
            Ok(ConfigClientBoundPaket::FinishConfiguration)
        } else if id == 3 {
            match read_u64(d, p) {
                Ok((v, _)) => Ok(
                    ConfigClientBoundPaket::ClientboundKeepAlive(ClientboundKeepAlive { id: v }),
                ),
                Err(e) => Err(e),
            }
        } else if id == 4 {
            match read_u32(d, p) {
                Ok((v, _)) => Ok(ConfigClientBoundPaket::Ping(Ping { id: v })),
                Err(e) => Err(e),
            }
        } else if id == 5 {
            Ok(ConfigClientBoundPaket::RegistryData(RegistryData { data: read_rest(d, p) }))
        } else if id == 6 {
            match RemoveResourcePack::decode(d, p) {
                Ok(v) => Ok(ConfigClientBoundPaket::RemoveResourcePack(v)),
                Err(e) => Err(e),
            }
        } else if id == 7 {
            match AddResourcePack::decode(d, p) {
                Ok(v) => Ok(ConfigClientBoundPaket::AddResourcePack(v)),
                Err(e) => Err(e),
            }
        } else if id == 8 {
            Ok(ConfigClientBoundPaket::FeatureFlags(FeatureFlags { feature_flags: read_rest(d, p) }))
        } else if id == 9 {
            Ok(ConfigClientBoundPaket::UpdateTags(UpdateTags { tags: read_rest(d, p) }))
        } else {
            Err(DecodeError::UnknownPacketType { type_id: id })
        }
    }

    /// Appends type id and body.
    pub fn encode(&self, out: &mut Vec<u8>) -> (r: Result<(), EncodeError>)
        ensures
            r is Ok <==> self.encodable(),
            r is Ok ==> final(out)@ == old(out)@ + self.wire(),
    {
        let id = self.get_type_id();
        write_type_id(id, out);
        proof {
            assert(var_i32_bytes(id as i32) == seq![id]);
        }
        let r = match self {
            ConfigClientBoundPaket::ClientBoundPluginMessage(p) => p.encode(out),
            ConfigClientBoundPaket::ConfigDisconnect(p) => write_string(
                p.reason.as_str(),
                DEFAULT_STRING_MAX,
                out,
            ),
            ConfigClientBoundPaket::FinishConfiguration => Ok(()),
            ConfigClientBoundPaket::ClientboundKeepAlive(p) => {
                write_u64(p.id, out);
                Ok(())
            },
            ConfigClientBoundPaket::Ping(p) => {
                write_u32(p.id, out);
                Ok(())
            },
            ConfigClientBoundPaket::RegistryData(p) => {
                append_bytes(out, p.data.as_slice());
                Ok(())
            },
            ConfigClientBoundPaket::RemoveResourcePack(p) => {
                p.encode(out);
                Ok(())
            },
            ConfigClientBoundPaket::AddResourcePack(p) => p.encode(out),
            ConfigClientBoundPaket::FeatureFlags(p) => {
                append_bytes(out, p.feature_flags.as_slice());
                Ok(())
            },
            ConfigClientBoundPaket::UpdateTags(p) => {
                append_bytes(out, p.tags.as_slice());
                Ok(())
            },
        };
        proof {
            if r is Ok {
                assert(out@ =~= old(out)@ + self.wire());
            }
        }
        r
    }
}

proof fn lemma_byte_round_trip(x: u8, rest: Seq<u8>)
    ensures
        be_bytes(x as nat, 1) == seq![x],
        parse_be(seq![x] + rest, 1) == Ok::<(nat, nat), DecodeError>((x as nat, 1)),
{
    assert(be_bytes((x as nat) / 256, 0) == Seq::<u8>::empty());
    assert(be_bytes(x as nat, 1) == be_bytes((x as nat) / 256, 0).push(((x as nat) % 256) as u8));
    assert(be_bytes(x as nat, 1) =~= seq![x]);
    crate::fields::lemma_be_round_trip(x as nat, 1, rest);
    crate::fields::lemma_pow256_16();
}

proof fn lemma_bool_round_trip(b: bool, rest: Seq<u8>)
    ensures
        parse_bool(seq![if b { 1u8 } else { 0u8 }] + rest) == Ok::<(bool, nat), DecodeError>((b, 1)),
{
}

proof fn lemma_parse_client_information_tail(q: ClientInformation, t5: Seq<u8>)
    requires
        t5 == seq![q.display_skin_parts] + (var_i32_bytes(q.main_hand) + (seq![
            if q.enable_text_filtering { 1u8 } else { 0u8 },
        ] + seq![if q.allow_server_listings { 1u8 } else { 0u8 }])),
    ensures
        parse_client_information_tail(t5) == Ok::<(u8, i32, bool, bool), DecodeError>(
            (q.display_skin_parts, q.main_hand, q.enable_text_filtering, q.allow_server_listings),
        ),
{
    let hb = var_i32_bytes(q.main_hand);
    let f1 = if q.enable_text_filtering { 1u8 } else { 0u8 };
    let f2 = if q.allow_server_listings { 1u8 } else { 0u8 };
    let t7 = seq![f1] + seq![f2];
    lemma_byte_round_trip(q.display_skin_parts, hb + t7);
    assert(t5.skip(1) =~= hb + t7);
    crate::varint::lemma_var_i32_round_trip(q.main_hand, t7);
    assert(t5.skip(1 + hb.len() as int) =~= t7);
    lemma_bool_round_trip(q.enable_text_filtering, seq![f2]);
    assert(t5.skip(2 + hb.len() as int) =~= seq![f2] + Seq::<u8>::empty());
    lemma_bool_round_trip(q.allow_server_listings, Seq::empty());
}

proof fn lemma_parse_client_information_head(q: ClientInformation, t5: Seq<u8>)
    requires
        q.encodable(),
    ensures
        parse_client_information_head(string_bytes(q.locale@) + (seq![q.view_distance] + (
        var_i32_bytes(q.chat_mode.ordinal_spec()) + (seq![if q.chat_colors { 1u8 } else { 0u8 }] + t5)))) == Ok::<
            (Seq<char>, u8, ChatMode, bool, nat),
            DecodeError,
        >(
            (
                q.locale@,
                q.view_distance,
                q.chat_mode,
                q.chat_colors,
                string_bytes(q.locale@).len() + 1 + var_i32_bytes(q.chat_mode.ordinal_spec()).len()
                    + 1,
            ),
        ),
{
    let o = q.chat_mode.ordinal_spec();
    let lb = string_bytes(q.locale@);
    let cb = var_i32_bytes(o);
    let c1 = if q.chat_colors { 1u8 } else { 0u8 };
    let t4 = seq![c1] + t5;
    let t3 = cb + t4;
    let t2 = seq![q.view_distance] + t3;
    let w = lb + t2;
    crate::fields::lemma_string_round_trip(q.locale@, LOCALE_MAX, t2);
    assert(w.skip(lb.len() as int) =~= t2);
    lemma_byte_round_trip(q.view_distance, t3);
    assert(w.skip(lb.len() as int + 1) =~= t3);
    crate::varint::lemma_var_i32_round_trip(o, t4);
    assert(w.skip(lb.len() as int + 1 + cb.len() as int) =~= t4);
    lemma_bool_round_trip(q.chat_colors, t5);
}

proof fn lemma_client_information_wire(q: ClientInformation)
    ensures
        q.wire() == string_bytes(q.locale@) + (seq![q.view_distance] + (var_i32_bytes(
            q.chat_mode.ordinal_spec(),
        ) + (seq![if q.chat_colors { 1u8 } else { 0u8 }] + (seq![q.display_skin_parts] + (
        var_i32_bytes(q.main_hand) + (seq![if q.enable_text_filtering { 1u8 } else { 0u8 }]
            + seq![if q.allow_server_listings { 1u8 } else { 0u8 }])))))),
{
    assert(q.wire() =~= string_bytes(q.locale@) + (seq![q.view_distance] + (var_i32_bytes(
        q.chat_mode.ordinal_spec(),
    ) + (seq![if q.chat_colors { 1u8 } else { 0u8 }] + (seq![q.display_skin_parts] + (
    var_i32_bytes(q.main_hand) + (seq![if q.enable_text_filtering { 1u8 } else { 0u8 }]
        + seq![if q.allow_server_listings { 1u8 } else { 0u8 }])))))));
}

#[verifier::rlimit(60)]
#[verifier::spinoff_prover]
proof fn lemma_client_information_round_trip(q: ClientInformation)
    requires
        q.encodable(),
    ensures
        ConfigServerBoundPacket::decoded(
            ConfigServerBoundPacket::ClientInformation(q).wire(),
            Ok(ConfigServerBoundPacket::ClientInformation(q)),
        ),
{
    let t5 = seq![q.display_skin_parts] + (var_i32_bytes(q.main_hand) + (seq![
        if q.enable_text_filtering { 1u8 } else { 0u8 },
    ] + seq![if q.allow_server_listings { 1u8 } else { 0u8 }]));
    let c1 = if q.chat_colors { 1u8 } else { 0u8 };
    let w = q.wire();
    lemma_client_information_wire(q);
    lemma_parse_client_information_head(q, t5);
    let n = string_bytes(q.locale@).len() + 1 + var_i32_bytes(q.chat_mode.ordinal_spec()).len() + 1;
    assert(w.skip(n as int) =~= t5);
    lemma_parse_client_information_tail(q, t5);
    crate::packet::lemma_type_id_round_trip(0, w);
    assert(ConfigServerBoundPacket::ClientInformation(q).wire().skip(1) =~= w);
    assert(parse_client_information(w) == Ok::<
        (Seq<char>, u8, ChatMode, bool, u8, i32, bool, bool),
        DecodeError,
    >(
        (
            q.locale@,
            q.view_distance,
            q.chat_mode,
            q.chat_colors,
            q.display_skin_parts,
            q.main_hand,
            q.enable_text_filtering,
            q.allow_server_listings,
        ),
    ));
}

#[verifier::rlimit(60)]
#[verifier::spinoff_prover]
proof fn lemma_resource_pack_response_round_trip(q: ResourcePackResponse)
    ensures
        ConfigServerBoundPacket::decoded(
            ConfigServerBoundPacket::ResourcePackResponse(q).wire(),
            Ok(ConfigServerBoundPacket::ResourcePackResponse(q)),
        ),
{
    let w = q.wire();
    crate::packet::lemma_type_id_round_trip(5, w);
    assert(ConfigServerBoundPacket::ResourcePackResponse(q).wire().skip(1) =~= w);
    let ub = be_bytes(q.uuid as nat, 16);
    let o = match q.result {
        ResourcePackResult::SuccessfullyDownloaded => 0i32,
        ResourcePackResult::Declined => 1i32,
        ResourcePackResult::DownloadFailed => 2i32,
        ResourcePackResult::Accepted => 3i32,
        ResourcePackResult::Downloaded => 4i32,
        ResourcePackResult::InvalidUrl => 5i32,
        ResourcePackResult::ReloadFailed => 6i32,
        ResourcePackResult::Discarded => 7i32,
    };
    crate::fields::lemma_be_round_trip(q.uuid as nat, 16, var_i32_bytes(o));
    crate::fields::lemma_be_bytes_len(q.uuid as nat, 16);
    crate::fields::lemma_pow256_16();
    assert(w.skip(16) =~= var_i32_bytes(o) + Seq::<u8>::empty());
    crate::varint::lemma_var_i32_round_trip(o, Seq::empty());
}

proof fn lemma_config_plugin_round_trip(id: u8, channel: Seq<char>, data: Seq<u8>)
    requires
        id < 128,
        encode_utf8(channel).len() <= DEFAULT_STRING_MAX,
    ensures
        parse_type_id(seq![id] + plugin_message_bytes(channel, data)) == Ok::<(u8, nat), DecodeError>((id, 1)),
        (seq![id] + plugin_message_bytes(channel, data)).skip(1) == plugin_message_bytes(channel, data),
        parse_plugin_message(plugin_message_bytes(channel, data)) == Ok::<(Seq<char>, Seq<u8>), DecodeError>((channel, data)),
{
    let body = plugin_message_bytes(channel, data);
    crate::packet::lemma_type_id_round_trip(id, body);
    assert((seq![id] + body).skip(1) =~= body);
    crate::fields::lemma_string_round_trip(channel, DEFAULT_STRING_MAX, data);
    assert(body.skip(string_bytes(channel).len() as int) =~= data);
}

proof fn lemma_fixed_round_trip(id: u8, v: nat, k: nat)
    requires
        id < 128,
        k == 4 || k == 8,
    ensures
        parse_type_id(seq![id] + be_bytes(v, k)) == Ok::<(u8, nat), DecodeError>((id, 1)),
        parse_be((seq![id] + be_bytes(v, k)).skip(1), k) == Ok::<(nat, nat), DecodeError>((v % pow256(k), k)),
{
    crate::packet::lemma_type_id_round_trip(id, be_bytes(v, k));
    assert((seq![id] + be_bytes(v, k)).skip(1) =~= be_bytes(v, k) + Seq::<u8>::empty());
    crate::fields::lemma_be_round_trip(v, k, Seq::empty());
}

/// Configuration-state round trip, client side: a packet whose strings fit their fields
/// decodes from its bytes to itself.
#[verifier::rlimit(60)]
#[verifier::spinoff_prover]
pub proof fn lemma_config_server_round_trip(p: ConfigServerBoundPacket)
    requires
        p.encodable(),
    ensures
        ConfigServerBoundPacket::decoded(p.wire(), Ok(p)),
{
    crate::fields::lemma_pow256_16();
    match p {
        ConfigServerBoundPacket::ClientInformation(q) => lemma_client_information_round_trip(q),
        ConfigServerBoundPacket::ServerBoundPluginMessage(q) => {
            lemma_config_plugin_round_trip(1, q.channel@, q.data@);
        },
        ConfigServerBoundPacket::AcknowledgeFinishConfiguration => {
            crate::packet::lemma_type_id_round_trip(2, Seq::empty());
            assert(seq![2u8] + Seq::<u8>::empty() =~= seq![2u8]);
        },
        ConfigServerBoundPacket::ServerBoundKeepAlive(q) => lemma_fixed_round_trip(3, q.id as nat, 8),
        ConfigServerBoundPacket::Pong(q) => lemma_fixed_round_trip(4, q.id as nat, 4),
        ConfigServerBoundPacket::ResourcePackResponse(q) => lemma_resource_pack_response_round_trip(q),
    }
}

#[verifier::rlimit(80)]
proof fn lemma_parse_add_resource_pack(q: AddResourcePack)
    requires
        q.encodable(),
        q.prompt_message matches Some(m) ==> crate::json::json_accepts(m@),
    ensures
        parse_add_resource_pack(q.wire()) matches Ok((u, url, hash, forced, prompt)) && u == q.uuid
            && url == q.url@ && hash == q.hash@ && forced == q.forced && match prompt {
            Some(m) => q.prompt_message matches Some(x) && x@ == m,
            None => q.prompt_message is None,
        },
{
    let w = q.wire();
    let ub = be_bytes(q.uuid as nat, 16);
    let rb = string_bytes(q.url@);
    let hb = string_bytes(q.hash@);
    let fb = if q.forced { 1u8 } else { 0u8 };
    let pb = match q.prompt_message {
        Some(m) => seq![1u8] + string_bytes(m@),
        None => seq![0u8],
    };
    let t4 = seq![fb] + pb;
    let t3 = hb + t4;
    let t2 = rb + t3;
    assert(w =~= ub + t2);
    crate::fields::lemma_be_round_trip(q.uuid as nat, 16, t2);
    crate::fields::lemma_be_bytes_len(q.uuid as nat, 16);
    crate::fields::lemma_pow256_16();
    assert(w.skip(16) =~= t2);
    crate::fields::lemma_string_round_trip(q.url@, URL_MAX, t3);
    assert(w.skip((16 + rb.len()) as int) =~= t3);
    crate::fields::lemma_string_round_trip(q.hash@, HASH_MAX, t4);
    assert(w.skip((16 + rb.len() + hb.len()) as int) =~= t4);
    lemma_bool_round_trip(q.forced, pb);
    assert(w.skip((16 + rb.len() + hb.len() + 1) as int) =~= pb);
    match q.prompt_message {
        Some(m) => {
            lemma_bool_round_trip(true, string_bytes(m@));
            assert(w.skip((16 + rb.len() + hb.len() + 2) as int) =~= string_bytes(m@) + Seq::<u8>::empty());
            crate::fields::lemma_string_round_trip(m@, DEFAULT_STRING_MAX, Seq::empty());
        },
        None => {
            lemma_bool_round_trip(false, Seq::empty());
            assert(pb =~= seq![0u8] + Seq::<u8>::empty());
        },
    }
}

#[verifier::rlimit(60)]
#[verifier::spinoff_prover]
proof fn lemma_add_resource_pack_round_trip(q: AddResourcePack)
    requires
        q.encodable(),
        q.prompt_message matches Some(m) ==> crate::json::json_accepts(m@),
    ensures
        ConfigClientBoundPaket::decoded(
            ConfigClientBoundPaket::AddResourcePack(q).wire(),
            Ok(ConfigClientBoundPaket::AddResourcePack(q)),
        ),
{
    let w = q.wire();
    crate::packet::lemma_type_id_round_trip(7, w);
    assert(ConfigClientBoundPaket::AddResourcePack(q).wire().skip(1) =~= w);
    lemma_parse_add_resource_pack(q);
}

#[verifier::rlimit(60)]
#[verifier::spinoff_prover]
proof fn lemma_remove_resource_pack_round_trip(q: RemoveResourcePack)
    ensures
        ConfigClientBoundPaket::decoded(
            ConfigClientBoundPaket::RemoveResourcePack(q).wire(),
            Ok(ConfigClientBoundPaket::RemoveResourcePack(q)),
        ),
{
    let w = q.wire();
    crate::packet::lemma_type_id_round_trip(6, w);
    assert(ConfigClientBoundPaket::RemoveResourcePack(q).wire().skip(1) =~= w);
    match q.uuid {
        Some(u) => {
            lemma_bool_round_trip(true, be_bytes(u as nat, 16));
            assert(w.skip(1) =~= be_bytes(u as nat, 16) + Seq::<u8>::empty());
            crate::fields::lemma_be_round_trip(u as nat, 16, Seq::empty());
            crate::fields::lemma_pow256_16();
        },
        None => {
            lemma_bool_round_trip(false, Seq::empty());
            assert(w =~= seq![0u8] + Seq::<u8>::empty());
        },
    }
}

/// Configuration-state round trip, server side: a packet whose strings fit their fields
/// and whose chat texts are JSON decodes from its bytes to itself.
#[verifier::rlimit(60)]
#[verifier::spinoff_prover]
pub proof fn lemma_config_client_round_trip(p: ConfigClientBoundPaket)
    requires
        p.encodable(),
        p matches ConfigClientBoundPaket::ConfigDisconnect(d) ==> crate::json::json_accepts(d.reason@),
        p matches ConfigClientBoundPaket::AddResourcePack(a) ==> (a.prompt_message matches Some(m)
            ==> crate::json::json_accepts(m@)),
    ensures
        ConfigClientBoundPaket::decoded(p.wire(), Ok(p)),
{
    crate::fields::lemma_pow256_16();
    match p {
        ConfigClientBoundPaket::ClientBoundPluginMessage(q) => {
            lemma_config_plugin_round_trip(0, q.channel@, q.data@);
        },
        ConfigClientBoundPaket::ConfigDisconnect(q) => {
            crate::packet::lemma_type_id_round_trip(1, string_bytes(q.reason@));
            assert(p.wire().skip(1) =~= string_bytes(q.reason@) + Seq::<u8>::empty());
            crate::fields::lemma_string_round_trip(q.reason@, DEFAULT_STRING_MAX, Seq::empty());
        },
        ConfigClientBoundPaket::FinishConfiguration => {
            crate::packet::lemma_type_id_round_trip(2, Seq::empty());
            assert(seq![2u8] + Seq::<u8>::empty() =~= seq![2u8]);
        },
        ConfigClientBoundPaket::ClientboundKeepAlive(q) => lemma_fixed_round_trip(3, q.id as nat, 8),
        ConfigClientBoundPaket::Ping(q) => lemma_fixed_round_trip(4, q.id as nat, 4),
        ConfigClientBoundPaket::RegistryData(q) => {
            crate::packet::lemma_type_id_round_trip(5, q.data@);
            assert(p.wire().skip(1) =~= q.data@);
        },
        ConfigClientBoundPaket::RemoveResourcePack(q) => lemma_remove_resource_pack_round_trip(q),
        ConfigClientBoundPaket::AddResourcePack(q) => lemma_add_resource_pack_round_trip(q),
        ConfigClientBoundPaket::FeatureFlags(q) => {
            crate::packet::lemma_type_id_round_trip(8, q.feature_flags@);
            assert(p.wire().skip(1) =~= q.feature_flags@);
        },
        ConfigClientBoundPaket::UpdateTags(q) => {
            crate::packet::lemma_type_id_round_trip(9, q.tags@);
            assert(p.wire().skip(1) =~= q.tags@);
        },
    }
}

} // verus!
