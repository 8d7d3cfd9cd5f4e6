//! The command channel: requests the backend sends over the plugin-message channel,
//! and the JSON of the responses sent back.
use crate::fields::{uuid_hyphenated, uuid_text_of};
use crate::text::{json_quoted, json_string_literal};
use vstd::prelude::*;
use vstd::string::StringExecFns;

verus! {

/// Whether a whitelist change took effect.
#[derive(Debug, Clone, Copy, Hash, PartialEq, Eq, Structural)]
pub enum WhitelistResult {
    Changed,
    Unchanged,
}

impl WhitelistResult {
    pub fn is_changed(&self) -> (r: bool)
        ensures
            r == (*self == WhitelistResult::Changed),
    {
        match self {
            WhitelistResult::Changed => true,
            WhitelistResult::Unchanged => false,
        }
    }
}

/// A command request with its correlation id.
#[derive(Debug, Clone)]
pub struct CommandRequestMessage {
    pub id: u128,
    pub command: CommandRequest,
}

/// The commands the backend may send.
#[derive(Debug, Clone)]
pub enum CommandRequest {
    BanPlayer(BanPlayerRequest),
    UnbanPlayer(UsernameMessage),
    IsPlayerBanned(UsernameMessage),
    GetPlayerBans,
    BanIp(BanIpRequest),
    UnbanIp(IpMessage),
    IsIpBanned(IpMessage),
    GetIpBans,
    SetWhitelistEnabled(SetWhitelistEnabled),
    IsWhitelistEnabled,
    IsWhitelisted(UsernameMessage),
    WhitelistAddPlayer(UsernameMessage),
    WhitelistRemovePlayer(UsernameMessage),
    WhitelistGetAll,
}

#[derive(Debug, Clone)]
pub struct UsernameMessage {
    pub username: String,
}

#[derive(Debug, Clone)]
pub struct BanPlayerRequest {
    pub username: String,
    /// Ban length in milliseconds; none for a permanent ban.
    pub duration: Option<u64>,
    pub reason: Option<String>,
}

/// An IP address in its textual form.
#[derive(Debug, Clone)]
pub struct BanIpRequest {
    pub ip: String,
    /// Ban length in milliseconds; none for a permanent ban.
    pub duration: Option<u64>,
    pub reason: Option<String>,
}

#[derive(Debug, Clone)]
pub struct IpMessage {
    pub ip: String,
}

#[derive(Debug, Clone, Copy)]
pub struct SetWhitelistEnabled {
    pub enabled: bool,
}

/// A response with the id of the request it answers.
#[derive(Debug, Clone)]
pub struct CommandResponseMessage {
    pub id: u128,
    pub result: CommandResult<CommandResponse>,
}

/// Success with a body, or an error message.
#[derive(Debug, Clone)]
pub enum CommandResult<T> {
    Success(T),
    Error(ErrorMessage),
}

#[derive(Debug, Clone)]
pub struct ErrorMessage {
    pub error: String,
}

/// Why a command failed.
#[derive(Debug, Clone)]
pub enum CommandError {
    /// The request was not valid JSON of a command.
    CommandDecodeError(String),
    /// The response could not be written.
    CommandEncodeError(String),
    /// The store failed; the text is its error message.
    RepositoryError(String),
    /// A ban duration is out of range.
    InvalidDuration,
}

/// The bodies of successful responses, one per command.
#[derive(Debug, Clone)]
pub enum CommandResponse {
    BanPlayer,
    UnbanPlayer(ChangedMessage),
    IsPlayerBanned(IsBannedMessage),
    GetPlayerBans(GetPlayerBansResponse),
    BanIp,
    UnbanIp(ChangedMessage),
    IsIpBanned(IsBannedMessage),
    GetIpBans(GetIpBansResponse),
    SetWhitelistEnabled(ChangedMessage),
    IsWhitelistEnabled(IsWhitelistEnabledResponse),
    IsWhitelisted(IsWhitelistedResponse),
    WhitelistAddPlayer(ChangedMessage),
    WhitelistRemovePlayer(ChangedMessage),
    WhitelistGetAll(WhitelistGetAllResponse),
}

#[derive(Debug, Clone, Copy)]
pub struct ChangedMessage {
    pub changed: bool,
}

#[derive(Debug, Clone, Copy)]
pub struct IsBannedMessage {
    pub banned: bool,
}

#[derive(Debug, Clone)]
pub struct GetPlayerBansResponse {
    pub bans: Vec<String>,
}

#[derive(Debug, Clone)]
pub struct GetIpBansResponse {
    pub bans: Vec<String>,
}

#[derive(Debug, Clone, Copy)]
pub struct IsWhitelistEnabledResponse {
    pub enabled: bool,
}

#[derive(Debug, Clone, Copy)]
pub struct IsWhitelistedResponse {
    pub whitelisted: bool,
}

#[derive(Debug, Clone)]
pub struct WhitelistGetAllResponse {
    pub whitelist: Vec<String>,
}

/// The `changed` flag of a whitelist switch, given the flag before and the one asked
/// for: true when the switch already stood as asked. Users of the command channel
/// read the flag that way.
pub fn whitelist_switch_changed(before: bool, requested: bool) -> (r: bool)
    ensures
        r == (before == requested),
{
    before == requested
}

impl CommandError {
    /// The message of this error.
    pub fn to_text(&self) -> (r: String)
        ensures
            r@ == command_error_text(*self),
    {
        match self {
            CommandError::CommandDecodeError(e) => {
                let mut s = String::from_str("Command decode failed: ");
                s.append(e.as_str());
                s
            },
            CommandError::CommandEncodeError(e) => {
                let mut s = String::from_str("Command encode failed: ");
                s.append(e.as_str());
                s
            },
            CommandError::RepositoryError(e) => {
                let mut s = String::from_str("Internal repository error: ");
                s.append(e.as_str());
                s
            },
            CommandError::InvalidDuration => String::from_str("The provided duration is invalid"),
        }
    }
}

/// The message of a command error.
pub open spec fn command_error_text(e: CommandError) -> Seq<char> {
    match e {
        CommandError::CommandDecodeError(s) => "Command decode failed: "@ + s@,
        CommandError::CommandEncodeError(s) => "Command encode failed: "@ + s@,
        CommandError::RepositoryError(s) => "Internal repository error: "@ + s@,
        CommandError::InvalidDuration => "The provided duration is invalid"@,
    }
}

impl ErrorMessage {
    /// The error message of a failed command.
    pub fn from(value: &CommandError) -> (r: ErrorMessage)
        ensures
            r.error@ == command_error_text(*value),
    {
        ErrorMessage { error: value.to_text() }
    }
}

impl<T> CommandResult<T> {
    /// Success with the body, or the error's message.
    pub fn from(value: Result<T, CommandError>) -> (r: CommandResult<T>)
        ensures
            match value {
                Ok(v) => r == CommandResult::Success(v),
                Err(e) => (r matches CommandResult::Error(m)) && r->Error_0.error@
                    == command_error_text(e),
            },
    {
        match value {
            Ok(v) => CommandResult::Success(v),
            Err(e) => CommandResult::Error(ErrorMessage::from(&e)),
        }
    }
}

/// `true` or `false`.
pub open spec fn bool_json(b: bool) -> Seq<char> {
    if b { "true"@ } else { "false"@ }
}

/// A JSON array of strings.
pub open spec fn string_array_json(v: Seq<Seq<char>>) -> Seq<char> {
    "["@ + string_items_json(v) + "]"@
}

/// The comma-separated JSON strings of `v`.
pub open spec fn string_items_json(v: Seq<Seq<char>>) -> Seq<char>
    decreases v.len(),
{
    if v.len() == 0 {
        Seq::empty()
    } else if v.len() == 1 {
        json_string_literal(v[0])
    } else {
        string_items_json(v.drop_last()) + ","@ + json_string_literal(v.last())
    }
}

/// The views of a list of strings.
pub open spec fn string_views(v: Seq<String>) -> Seq<Seq<char>> {
    v.map_values(|s: String| s@)
}

/// An adjacently tagged JSON variant with a body.
pub open spec fn tagged_json(tag: Seq<char>, data: Seq<char>) -> Seq<char> {
    "{\"type\":\""@ + tag + "\",\"data\":"@ + data + "}"@
}

/// A one-field JSON object.
pub open spec fn field_json(name: Seq<char>, value: Seq<char>) -> Seq<char> {
    "{\""@ + name + "\":"@ + value + "}"@
}

/// The JSON of a response body.
pub open spec fn response_json(r: CommandResponse) -> Seq<char> {
    match r {
        CommandResponse::BanPlayer => "{\"type\":\"BAN_PLAYER\"}"@,
        CommandResponse::UnbanPlayer(m) => tagged_json("UNBAN_PLAYER"@, field_json("changed"@, bool_json(m.changed))),
        CommandResponse::IsPlayerBanned(m) => tagged_json("IS_PLAYER_BANNED"@, field_json("banned"@, bool_json(m.banned))),
        CommandResponse::GetPlayerBans(m) => tagged_json("GET_PLAYER_BANS"@, field_json("bans"@, string_array_json(string_views(m.bans@)))),
        CommandResponse::BanIp => "{\"type\":\"BAN_IP\"}"@,
        CommandResponse::UnbanIp(m) => tagged_json("UNBAN_IP"@, field_json("changed"@, bool_json(m.changed))),
        CommandResponse::IsIpBanned(m) => tagged_json("IS_IP_BANNED"@, field_json("banned"@, bool_json(m.banned))),
        CommandResponse::GetIpBans(m) => tagged_json("GET_IP_BANS"@, field_json("bans"@, string_array_json(string_views(m.bans@)))),
        CommandResponse::SetWhitelistEnabled(m) => tagged_json("SET_WHITELIST_ENABLED"@, field_json("changed"@, bool_json(m.changed))),
        CommandResponse::IsWhitelistEnabled(m) => tagged_json("IS_WHITELIST_ENABLED"@, field_json("enabled"@, bool_json(m.enabled))),
        CommandResponse::IsWhitelisted(m) => tagged_json("IS_WHITELISTED"@, field_json("whitelisted"@, bool_json(m.whitelisted))),
        CommandResponse::WhitelistAddPlayer(m) => tagged_json("WHITELIST_ADD_PLAYER"@, field_json("changed"@, bool_json(m.changed))),
        CommandResponse::WhitelistRemovePlayer(m) => tagged_json("WHITELIST_REMOVE_PLAYER"@, field_json("changed"@, bool_json(m.changed))),
        CommandResponse::WhitelistGetAll(m) => tagged_json("WHITELIST_GET_ALL"@, field_json("whitelist"@, string_array_json(string_views(m.whitelist@)))),
    }
}

/// The JSON of a command result.
pub open spec fn result_json(r: CommandResult<CommandResponse>) -> Seq<char> {
    match r {
        CommandResult::Success(v) => tagged_json("SUCCESS"@, response_json(v)),
        CommandResult::Error(m) => tagged_json("ERROR"@, field_json("error"@, json_string_literal(m.error@))),
    }
}

/// The JSON of a response message.
pub open spec fn response_message_json(m: CommandResponseMessage) -> Seq<char> {
    "{\"id\":\""@ + uuid_hyphenated(m.id) + "\",\"result\":"@ + result_json(m.result) + "}"@
}

fn push_bool(out: &mut String, b: bool)
    ensures
        final(out)@ == old(out)@ + bool_json(b),
{
    if b {
        out.append("true");
    } else {
        out.append("false");
    }
}

fn push_string_array(out: &mut String, v: &Vec<String>)
    ensures
        final(out)@ == old(out)@ + string_array_json(string_views(v@)),
{
    out.append("[");
    let ghost head = out@;
    let mut i: usize = 0;
    while i < v.len()
        invariant
            i <= v@.len(),
            out@ == head + string_items_json(string_views(v@.take(i as int))),
        decreases v@.len() - i,
    {
        if i > 0 {
            out.append(",");
        }
        let q = json_quoted(v[i].as_str());
        out.append(q.as_str());
        proof {
            let sv = string_views(v@.take(i + 1));
            assert(string_views(v@.take(i as int)) =~= sv.drop_last());
            if i == 0 {
                assert(string_items_json(string_views(v@.take(0))) =~= Seq::<char>::empty());
            }
            assert(out@ =~= head + string_items_json(sv));
        }
        i = i + 1;
    }
    proof {
        assert(v@.take(v@.len() as int) =~= v@);
    }
    out.append("]");
    proof {
        assert(out@ =~= old(out)@ + string_array_json(string_views(v@)));
    }
}

fn push_tagged_start(out: &mut String, tag: &str)
    ensures
        final(out)@ == old(out)@ + "{\"type\":\""@ + tag@ + "\",\"data\":"@,
{
    out.append("{\"type\":\"");
    out.append(tag);
    out.append("\",\"data\":");
}

fn push_bool_field(out: &mut String, tag: &str, name: &str, b: bool)
    ensures
        final(out)@ == old(out)@ + tagged_json(tag@, field_json(name@, bool_json(b))),
{
    push_tagged_start(out, tag);
    out.append("{\"");
    out.append(name);
    out.append("\":");
    push_bool(out, b);
    out.append("}");
    out.append("}");
    proof {
        assert(final(out)@ =~= old(out)@ + tagged_json(tag@, field_json(name@, bool_json(b))));
    }
}

fn push_array_field(out: &mut String, tag: &str, name: &str, v: &Vec<String>)
    ensures
        final(out)@ == old(out)@ + tagged_json(tag@, field_json(name@, string_array_json(string_views(v@)))),
{
    push_tagged_start(out, tag);
    out.append("{\"");
    out.append(name);
    out.append("\":");
    push_string_array(out, v);
    out.append("}");
    out.append("}");
    proof {
        assert(final(out)@ =~= old(out)@ + tagged_json(tag@, field_json(name@, string_array_json(string_views(v@)))));
    }
}

impl CommandResponse {
    /// Appends the JSON of this body.
    pub fn write_json(&self, out: &mut String)
        ensures
            final(out)@ == old(out)@ + response_json(*self),
    {
        match self {
            CommandResponse::BanPlayer => out.append("{\"type\":\"BAN_PLAYER\"}"),
            CommandResponse::UnbanPlayer(m) => push_bool_field(out, "UNBAN_PLAYER", "changed", m.changed),
            CommandResponse::IsPlayerBanned(m) => push_bool_field(out, "IS_PLAYER_BANNED", "banned", m.banned),
            CommandResponse::GetPlayerBans(m) => push_array_field(out, "GET_PLAYER_BANS", "bans", &m.bans),
            CommandResponse::BanIp => out.append("{\"type\":\"BAN_IP\"}"),
            CommandResponse::UnbanIp(m) => push_bool_field(out, "UNBAN_IP", "changed", m.changed),
            CommandResponse::IsIpBanned(m) => push_bool_field(out, "IS_IP_BANNED", "banned", m.banned),
            CommandResponse::GetIpBans(m) => push_array_field(out, "GET_IP_BANS", "bans", &m.bans),
            CommandResponse::SetWhitelistEnabled(m) => push_bool_field(out, "SET_WHITELIST_ENABLED", "changed", m.changed),
            CommandResponse::IsWhitelistEnabled(m) => push_bool_field(out, "IS_WHITELIST_ENABLED", "enabled", m.enabled),
            CommandResponse::IsWhitelisted(m) => push_bool_field(out, "IS_WHITELISTED", "whitelisted", m.whitelisted),
            CommandResponse::WhitelistAddPlayer(m) => push_bool_field(out, "WHITELIST_ADD_PLAYER", "changed", m.changed),
            CommandResponse::WhitelistRemovePlayer(m) => push_bool_field(out, "WHITELIST_REMOVE_PLAYER", "changed", m.changed),
            CommandResponse::WhitelistGetAll(m) => push_array_field(out, "WHITELIST_GET_ALL", "whitelist", &m.whitelist),
        }
    }
}

impl CommandResponseMessage {
    /// The answer to a request that is not valid command JSON: the nil id and the
    /// decoder's message.
    pub fn decode_failure(message: String) -> (r: CommandResponseMessage)
        ensures
            r.id == 0,
            (r.result matches CommandResult::Error(m)) && r.result->Error_0.error@ == command_error_text(
                CommandError::CommandDecodeError(message),
            ),
    {
        let e = CommandError::CommandDecodeError(message);
        CommandResponseMessage { id: 0, result: CommandResult::Error(ErrorMessage::from(&e)) }
    }

    /// The JSON text of this response: the request's id and the tagged result.
    pub fn to_json(&self) -> (r: String)
        ensures
            r@ == response_message_json(*self),
    {
        let mut out = String::from_str("{\"id\":\"");
        let id = uuid_text_of(self.id);
        out.append(id.as_str());
        out.append("\",\"result\":");
        match &self.result {
            CommandResult::Success(v) => {
                push_tagged_start(&mut out, "SUCCESS");
                v.write_json(&mut out);
                out.append("}");
            },
            CommandResult::Error(m) => {
                push_tagged_start(&mut out, "ERROR");
                out.append("{\"");
                out.append("error");
                out.append("\":");
                let q = json_quoted(m.error.as_str());
                out.append(q.as_str());
                out.append("}");
                out.append("}");
            },
        }
        out.append("}");
        proof {
            assert(out@ =~= response_message_json(*self));
        }
        out
    }
}

} // verus!
