//! WebSocket agent chat (`/ws/chat`): bearer-token extraction, sub-protocol
//! negotiation, session hydration, and the answer to each incoming frame.
//!
//! Protocol:
//! ```text
//! Server -> Client: {"type":"session_start","session_id":"...","name":"...","resumed":true,"message_count":42}
//! Client -> Server: {"type":"message","content":"Hello"}
//! Server -> Client: {"type":"chunk","content":"..."}
//! Server -> Client: {"type":"tool_call","name":"shell","args":{...}}
//! Server -> Client: {"type":"tool_result","name":"shell","output":"..."}
//! Server -> Client: {"type":"chunk_reset"}
//! Server -> Client: {"type":"done","full_response":"..."}
//! ```
//!
//! The host owns the socket, the agent and the session store. It hands each
//! event to the functions here and sends the frames they return.

use vstd::prelude::*;
use crate::agent::session_record::{backend_key, gateway_backend_key};
use crate::channels::runtime_slash::{clone_opt_string, opt_str_view, SlashRouteSelection};
use crate::gateway::chat_slash::GatewayRoutes;
use crate::text::{
    chars_eq, chars_of, contains_chars, contains_seq, find_char, find_char_exec, has_prefix,
    lemma_find_char_bounds, slice_chars, starts_with_chars, string_of, trim, trim_chars,
};

verus! {

broadcast use vstd::string::group_string_axioms;

/// Query parameters of `GET /ws/chat`.
pub struct WsQuery {
    pub token: Option<String>,
    pub session_id: Option<String>,
    /// Optional human-readable name for the session.
    pub name: Option<String>,
}

pub open spec fn opt_ref_view(o: Option<&str>) -> Option<Seq<char>> {
    match o {
        Some(s) => Some(s@),
        None => None,
    }
}

/// `s` without its leading `p`, when it starts with `p`.
pub open spec fn strip_prefix(s: Seq<char>, p: Seq<char>) -> Option<Seq<char>> {
    if has_prefix(s, p) {
        Some(s.subrange(p.len() as int, s.len() as int))
    } else {
        None
    }
}

/// Among the comma-separated entries of `s` from position `i` on, the first
/// that (trimmed) starts with `bearer.`, without that prefix.
pub open spec fn bearer_entry_from(s: Seq<char>, i: int) -> Option<Seq<char>>
    decreases s.len() - i,
    when 0 <= i <= s.len()
{
    let k = find_char(s, ',', i);
    proof {
        lemma_find_char_bounds(s, ',', i);
    }
    let found = strip_prefix(trim(s.subrange(i, k)), "bearer."@);
    if found is Some || k >= s.len() {
        found
    } else {
        bearer_entry_from(s, k + 1)
    }
}

/// Some comma-separated entry of `s` from position `i` on is (trimmed) `zeroclaw.v1`.
pub open spec fn lists_protocol_from(s: Seq<char>, i: int) -> bool
    decreases s.len() - i,
    when 0 <= i <= s.len()
{
    let k = find_char(s, ',', i);
    proof {
        lemma_find_char_bounds(s, ',', i);
    }
    trim(s.subrange(i, k)) == "zeroclaw.v1"@ || (k < s.len() && lists_protocol_from(s, k + 1))
}

pub open spec fn non_empty(o: Option<Seq<char>>) -> bool {
    o is Some && o->0.len() > 0
}

/// The bearer token a chat connection presents, first non-empty of:
/// 1. `Authorization: Bearer <token>`,
/// 2. a `Sec-WebSocket-Protocol` entry `bearer.<token>` (the first such entry),
/// 3. the `?token=` query parameter.
pub open spec fn ws_token(auth: Option<Seq<char>>, protocols: Option<Seq<char>>, query: Option<Seq<char>>) -> Option<Seq<char>> {
    let h = match auth {
        Some(a) => strip_prefix(a, "Bearer "@),
        None => None,
    };
    let p = match protocols {
        Some(s) => bearer_entry_from(s, 0),
        None => None,
    };
    if non_empty(h) {
        h
    } else if non_empty(p) {
        p
    } else if non_empty(query) {
        query
    } else {
        None
    }
}

fn bearer_entry(s: &[char]) -> (r: Option<Vec<char>>)
    ensures
        match r {
            Some(v) => bearer_entry_from(s@, 0) == Some(v@),
            None => bearer_entry_from(s@, 0) is None,
        },
{
    let prefix = chars_of("bearer.");
    let mut i: usize = 0;
    loop
        invariant
            i <= s@.len(),
            prefix@ == "bearer."@,
            bearer_entry_from(s@, 0) == bearer_entry_from(s@, i as int),
        decreases s@.len() - i,
    {
        let k = find_char_exec(s, ',', i);
        proof {
            lemma_find_char_bounds(s@, ',', i as int);
        }
        let entry = trim_chars(&slice_chars(s, i, k));
        if starts_with_chars(&entry, &prefix) {
            return Some(slice_chars(&entry, prefix.len(), entry.len()));
        }
        if k >= s.len() {
            return None;
        }
        i = k + 1;
    }
}

/// Extract a bearer token from WebSocket-compatible sources: the
/// `Authorization` header value, the `Sec-WebSocket-Protocol` header value and
/// the `token` query parameter (each absent when not given or not text).
///
/// Precedence (first non-empty wins): `Authorization: Bearer <token>`, then
/// `Sec-WebSocket-Protocol: bearer.<token>`, then `?token=<token>`. Browsers
/// cannot set custom headers on `new WebSocket(url)`, so the query parameter
/// and sub-protocol paths are needed for browser-based clients.
pub fn extract_ws_token(authorization: Option<&str>, protocols: Option<&str>, query_token: Option<&str>) -> (r: Option<String>)
    ensures
        opt_str_view(r) == ws_token(opt_ref_view(authorization), opt_ref_view(protocols), opt_ref_view(query_token)),
{
    if let Some(auth) = authorization {
        let a = chars_of(auth);
        let p = chars_of("Bearer ");
        if starts_with_chars(&a, &p) && p.len() < a.len() {
            return Some(string_of(&slice_chars(&a, p.len(), a.len())));
        }
    }
    if let Some(protos) = protocols {
        if let Some(t) = bearer_entry(&chars_of(protos)) {
            if t.len() > 0 {
                return Some(string_of(&t));
            }
        }
    }
    if let Some(q) = query_token {
        if chars_of(q).len() > 0 {
            return Some(q.to_owned());
        }
    }
    None
}

/// Whether the client asks for the `zeroclaw.v1` sub-protocol (given the
/// `Sec-WebSocket-Protocol` header value), which the upgrade then echoes.
pub fn requests_ws_protocol(protocols: &str) -> (r: bool)
    ensures
        r == lists_protocol_from(protocols@, 0),
{
    let s = chars_of(protocols);
    let want = chars_of("zeroclaw.v1");
    let mut i: usize = 0;
    loop
        invariant
            i <= s@.len(),
            s@ == protocols@,
            want@ == "zeroclaw.v1"@,
            lists_protocol_from(s@, 0) == lists_protocol_from(s@, i as int),
        decreases s@.len() - i,
    {
        let k = find_char_exec(&s, ',', i);
        proof {
            lemma_find_char_bounds(s@, ',', i as int);
        }
        let entry = trim_chars(&slice_chars(&s, i, k));
        if chars_eq(&entry, &want) {
            return true;
        }
        if k >= s.len() {
            return false;
        }
        i = k + 1;
    }
}

// ---------------------------------------------------------------------------
// Incoming frames

/// What `serde_json` reads from a text frame: the string members `type` and
/// `content` (each absent when missing or not a string), or the message of the
/// parse error.
pub uninterp spec fn json_frame_fields(text: Seq<char>) -> Result<(Option<Seq<char>>, Option<Seq<char>>), Seq<char>>;

pub open spec fn fields_view(r: Result<(Option<String>, Option<String>), String>) -> Result<(Option<Seq<char>>, Option<Seq<char>>), Seq<char>> {
    match r {
        Ok((t, c)) => Ok((opt_str_view(t), opt_str_view(c))),
        Err(e) => Err(e@),
    }
}

/// Parses `text` with `serde_json::from_str` into a `serde_json::Value` and
/// reads `value["type"].as_str()` and `value["content"].as_str()`; a parse
/// failure gives the error's `Display` text. The contract only names the
/// result as a function of `text`; what JSON parsing accepts is not stated.
#[verifier::external_body]
fn read_frame_fields(text: &str) -> (r: Result<(Option<String>, Option<String>), String>)
    ensures
        fields_view(r) == json_frame_fields(text@),
{
    match serde_json::from_str::<serde_json::Value>(text) {
        Ok(v) => Ok((v["type"].as_str().map(str::to_owned), v["content"].as_str().map(str::to_owned))),
        Err(e) => Err(e.to_string()),
    }
}

/// An error frame: `{"type":"error","message":...,"code":...}` (no `code` member when absent).
pub struct ErrorFrame {
    pub message: String,
    pub code: Option<String>,
}

/// What to do with one incoming text frame.
pub enum FrameAction {
    /// Run a chat turn (or a slash command) on this content.
    Chat(String),
    /// Answer with this error frame and wait for the next one.
    Error(ErrorFrame),
    /// Nothing to do.
    Ignore,
}

pub enum FrameView {
    Chat(Seq<char>),
    Error(Seq<char>, Option<Seq<char>>),
    Ignore,
}

impl View for FrameAction {
    type V = FrameView;

    open spec fn view(&self) -> FrameView {
        match self {
            FrameAction::Chat(c) => FrameView::Chat(c@),
            FrameAction::Error(e) => FrameView::Error(e.message@, opt_str_view(e.code)),
            FrameAction::Ignore => FrameView::Ignore,
        }
    }
}

pub open spec fn send_hint() -> Seq<char> {
    ". Send {\"type\":\"message\",\"content\":\"your text\"}"@
}

/// The answer to a text frame whose JSON reading is `fields`. The first frame
/// after the session start is treated leniently (no error codes, an empty
/// message is ignored); later frames get coded errors.
pub open spec fn frame_action(first: bool, fields: Result<(Option<Seq<char>>, Option<Seq<char>>), Seq<char>>) -> FrameView {
    match fields {
        Err(e) => if first {
            FrameView::Error("Invalid JSON"@ + send_hint(), None)
        } else {
            FrameView::Error("Invalid JSON: "@ + e, Some("INVALID_JSON"@))
        },
        Ok((ty, content)) => if ty != Some("message"@) {
            let shown = match ty {
                Some(t) => t,
                None => if first { "unknown"@ } else { Seq::empty() },
            };
            FrameView::Error(
                "Unsupported message type \""@ + shown + "\""@ + send_hint(),
                if first { None } else { Some("UNKNOWN_MESSAGE_TYPE"@) },
            )
        } else {
            let c = match content {
                Some(c) => c,
                None => Seq::empty(),
            };
            if c.len() > 0 {
                FrameView::Chat(c)
            } else if first {
                FrameView::Ignore
            } else {
                FrameView::Error("Message content cannot be empty"@, Some("EMPTY_CONTENT"@))
            }
        },
    }
}

/// The answer to a text frame, given what JSON parsing read from it.
pub fn decide_ws_frame(first: bool, fields: Result<(Option<String>, Option<String>), String>) -> (r: FrameAction)
    ensures
        r@ == frame_action(first, fields_view(fields)),
{
    match fields {
        Err(e) => {
            if first {
                let mut m = "Invalid JSON".to_owned();
                m.push_str(". Send {\"type\":\"message\",\"content\":\"your text\"}");
                FrameAction::Error(ErrorFrame { message: m, code: None })
            } else {
                let mut m = "Invalid JSON: ".to_owned();
                m.push_str(e.as_str());
                FrameAction::Error(ErrorFrame { message: m, code: Some("INVALID_JSON".to_owned()) })
            }
        },
        Ok((ty, content)) => {
            let is_message = match &ty {
                Some(t) => chars_eq(&chars_of(t.as_str()), &chars_of("message")),
                None => false,
            };
            assert(is_message == (opt_str_view(ty) == Some("message"@)));
            if !is_message {
                let mut m = "Unsupported message type \"".to_owned();
                let ghost head = m@;
                match &ty {
                    Some(t) => m.push_str(t.as_str()),
                    None => if first {
                        m.push_str("unknown");
                    } else {
                        assert(head + Seq::<char>::empty() =~= head);
                    },
                }
                m.push_str("\"");
                m.push_str(". Send {\"type\":\"message\",\"content\":\"your text\"}");
                let code = if first { None } else { Some("UNKNOWN_MESSAGE_TYPE".to_owned()) };
                return FrameAction::Error(ErrorFrame { message: m, code });
            }
            let c = match content {
                Some(c) => c,
                None => String::new(),
            };
            if chars_of(c.as_str()).len() > 0 {
                FrameAction::Chat(c)
            } else if first {
                FrameAction::Ignore
            } else {
                FrameAction::Error(
                    ErrorFrame { message: "Message content cannot be empty".to_owned(), code: Some("EMPTY_CONTENT".to_owned()) },
                )
            }
        },
    }
}

/// The answer to the text frame `text` (`first` for the frame right after the
/// session start).
pub fn classify_ws_text(text: &str, first: bool) -> (r: FrameAction)
    ensures
        r@ == frame_action(first, json_frame_fields(text@)),
{
    decide_ws_frame(first, read_frame_fields(text))
}

/// An event read from the socket.
pub enum WsInbound {
    Text(String),
    /// A close frame.
    Close,
    /// A read error.
    Failed,
    /// A binary, ping or pong frame.
    Other,
}

/// What the message loop does next.
pub enum WsStep {
    /// Leave the loop (the socket closed or failed).
    Stop,
    /// Read the next frame.
    Skip,
    Act(FrameAction),
}

/// The message loop's answer to an event after the first frame.
pub fn next_frame_step(inbound: WsInbound) -> (r: WsStep)
    ensures
        match inbound {
            WsInbound::Text(t) => r matches WsStep::Act(a) && a@ == frame_action(false, json_frame_fields(t@)),
            WsInbound::Close | WsInbound::Failed => r is Stop,
            WsInbound::Other => r is Skip,
        },
{
    match inbound {
        WsInbound::Text(t) => WsStep::Act(classify_ws_text(t.as_str(), false)),
        WsInbound::Close | WsInbound::Failed => WsStep::Stop,
        WsInbound::Other => WsStep::Skip,
    }
}

/// The fields of an optional `{"type":"connect",...}` first frame that the
/// handshake reads (its `type` and `session_id` members), as the host parsed
/// them; the frame also carries a device name and capabilities, which are only
/// logged.
pub struct ConnectFrame {
    pub msg_type: String,
    pub session_id: Option<String>,
}

/// What to do with the first event after the session start.
pub enum FirstStep {
    Stop,
    Skip,
    /// A connect handshake: switch to this session id when present, then
    /// acknowledge with a `connected` frame.
    Connect(Option<String>),
    Act(FrameAction),
}

/// A connect frame's session id, trimmed, when not blank.
pub open spec fn connect_session(sid: Option<String>) -> Option<Seq<char>> {
    match sid {
        Some(s) => if trim(s@).len() > 0 { Some(trim(s@)) } else { None },
        None => None,
    }
}

/// The answer to the first event: a `connect` frame (`connect` is how the
/// frame parsed as connect parameters, absent when it did not) starts the
/// handshake; any other text frame is handled as a message, leniently.
pub fn first_frame_step(inbound: WsInbound, connect: Option<ConnectFrame>) -> (r: FirstStep)
    ensures
        match inbound {
            WsInbound::Text(t) => if connect is Some && connect->0.msg_type@ == "connect"@ {
                r matches FirstStep::Connect(sid) && opt_str_view(sid) == connect_session(connect->0.session_id)
            } else {
                r matches FirstStep::Act(a) && a@ == frame_action(true, json_frame_fields(t@))
            },
            WsInbound::Close | WsInbound::Failed => r is Stop,
            WsInbound::Other => r is Skip,
        },
{
    match inbound {
        WsInbound::Text(t) => {
            if let Some(c) = connect {
                if chars_eq(&chars_of(c.msg_type.as_str()), &chars_of("connect")) {
                    let sid = match c.session_id {
                        Some(s) => {
                            let v = trim_chars(&chars_of(s.as_str()));
                            if v.len() > 0 {
                                Some(string_of(&v))
                            } else {
                                None
                            }
                        },
                        None => None,
                    };
                    return FirstStep::Connect(sid);
                }
            }
            FirstStep::Act(classify_ws_text(t.as_str(), true))
        },
        WsInbound::Close | WsInbound::Failed => FirstStep::Stop,
        WsInbound::Other => FirstStep::Skip,
    }
}

// ---------------------------------------------------------------------------
// Sessions

/// A chat connection's session.
pub struct WsSession {
    pub session_id: String,
    /// Key of the session's history in the session store (`gw_<session_id>`).
    pub session_key: String,
    /// The store already held messages for this session.
    pub resumed: bool,
    pub message_count: usize,
    pub effective_name: Option<String>,
}

/// Load gateway chat history and name for `session_id`: the store held
/// `stored_message_count` messages under the session's key and the name
/// `stored_name`. A non-empty name from the query is the session's name (and
/// the second result asks the host to record it); otherwise the stored name is.
pub fn hydrate_gateway_ws_session(
    session_id: &str,
    name_from_query: Option<&str>,
    stored_message_count: usize,
    stored_name: Option<String>,
) -> (r: (WsSession, Option<String>))
    ensures
        r.0.session_id@ == session_id@,
        r.0.session_key@ == backend_key(session_id@),
        r.0.resumed == (stored_message_count > 0),
        r.0.message_count == stored_message_count,
        opt_str_view(r.0.effective_name) == if non_empty(opt_ref_view(name_from_query)) {
            opt_ref_view(name_from_query)
        } else {
            opt_str_view(stored_name)
        },
        opt_str_view(r.1) == if non_empty(opt_ref_view(name_from_query)) { opt_ref_view(name_from_query) } else { None },
{
    let session_key = gateway_backend_key(session_id);
    let mut to_store: Option<String> = None;
    if let Some(name) = name_from_query {
        if chars_of(name).len() > 0 {
            to_store = Some(name.to_owned());
        }
    }
    let effective_name = match &to_store {
        Some(n) => Some(n.clone()),
        None => stored_name,
    };
    let session = WsSession {
        session_id: session_id.to_owned(),
        session_key,
        resumed: stored_message_count > 0,
        message_count: stored_message_count,
        effective_name,
    };
    (session, to_store)
}

/// The persisted `/model` or `/models` route to apply to this gateway session's
/// agent, if one is stored.
pub fn apply_stored_gateway_route_override(routes: &GatewayRoutes, session_key: &str) -> (r: Option<SlashRouteSelection>)
    ensures
        match r {
            Some(s) => routes.route_of(session_key@) == Some(s@),
            None => routes.route_of(session_key@) is None,
        },
{
    routes.get(session_key)
}

// ---------------------------------------------------------------------------
// Outgoing frames

/// A frame sent to the client.
pub enum WsOutbound {
    /// `{"type":"session_start","session_id":..,"resumed":..,"message_count":..}` plus `"name"` when known.
    SessionStart { session_id: String, resumed: bool, message_count: usize, name: Option<String> },
    /// `{"type":"connected","message":"Connection established"}`.
    Connected,
    /// `{"type":"chunk_reset"}`.
    ChunkReset,
    /// `{"type":"done","full_response":..}`.
    Done(String),
    Error(ErrorFrame),
}

pub enum OutboundView {
    SessionStart(Seq<char>, bool, usize, Option<Seq<char>>),
    Connected,
    ChunkReset,
    Done(Seq<char>),
    Error(Seq<char>, Option<Seq<char>>),
}

impl View for WsOutbound {
    type V = OutboundView;

    open spec fn view(&self) -> OutboundView {
        match self {
            WsOutbound::SessionStart { session_id, resumed, message_count, name } => OutboundView::SessionStart(
                session_id@,
                *resumed,
                *message_count,
                opt_str_view(*name),
            ),
            WsOutbound::Connected => OutboundView::Connected,
            WsOutbound::ChunkReset => OutboundView::ChunkReset,
            WsOutbound::Done(t) => OutboundView::Done(t@),
            WsOutbound::Error(e) => OutboundView::Error(e.message@, opt_str_view(e.code)),
        }
    }
}

pub open spec fn outbound_views(fs: Seq<WsOutbound>) -> Seq<OutboundView> {
    fs.map_values(|f: WsOutbound| f@)
}

/// The `session_start` frame announcing `session`.
pub fn session_start_frame(session: &WsSession) -> (r: WsOutbound)
    ensures
        r@ == OutboundView::SessionStart(
            session.session_id@,
            session.resumed,
            session.message_count,
            opt_str_view(session.effective_name),
        ),
{
    WsOutbound::SessionStart {
        session_id: session.session_id.clone(),
        resumed: session.resumed,
        message_count: session.message_count,
        name: clone_opt_string(&session.effective_name),
    }
}

/// The reply that closes a slash command, with the failure to rebind the
/// agent (its sanitized message) appended when there was one.
pub open spec fn slash_reply(reply: Seq<char>, rebind_error: Option<Seq<char>>) -> Seq<char> {
    match rebind_error {
        Some(e) => reply + "\n\n⚠️ Failed to apply route to agent: "@ + e,
        None => reply,
    }
}

/// Frames that finish a slash command on the socket: a `chunk_reset`, then
/// `done` with the reply.
pub fn gateway_slash_done_frames(reply: &str, rebind_error: Option<&str>) -> (r: Vec<WsOutbound>)
    ensures
        outbound_views(r@) == seq![OutboundView::ChunkReset, OutboundView::Done(slash_reply(reply@, opt_ref_view(rebind_error)))],
{
    let mut text = reply.to_owned();
    if let Some(e) = rebind_error {
        text.push_str("\n\n⚠️ Failed to apply route to agent: ");
        text.push_str(e);
    }
    let mut v: Vec<WsOutbound> = Vec::new();
    v.push(WsOutbound::ChunkReset);
    v.push(WsOutbound::Done(text));
    proof {
        assert(outbound_views(v@) =~= seq![OutboundView::ChunkReset, OutboundView::Done(slash_reply(reply@, opt_ref_view(rebind_error)))]);
    }
    v
}

// ---------------------------------------------------------------------------
// End of a chat turn

/// `str::to_lowercase` of `s` (Unicode lower-casing).
pub uninterp spec fn unicode_lower(s: Seq<char>) -> Seq<char>;

/// Calls `str::to_lowercase`. The contract names the result as a function of
/// `s`; the Unicode case mapping itself is not stated.
#[verifier::external_body]
fn to_lowercase(s: &str) -> (r: String)
    ensures
        r@ == unicode_lower(s@),
{
    s.to_lowercase()
}

/// The error code for an error text already lower-cased.
pub open spec fn code_for_lowered(l: Seq<char>) -> Seq<char> {
    if contains_seq(l, "api key"@) || contains_seq(l, "authentication"@) || contains_seq(l, "unauthorized"@) {
        "AUTH_ERROR"@
    } else if contains_seq(l, "provider"@) || contains_seq(l, "model"@) {
        "PROVIDER_ERROR"@
    } else {
        "AGENT_ERROR"@
    }
}

/// Key and authentication trouble (`api key`, `authentication`, `unauthorized`)
/// is `AUTH_ERROR` whatever else the text says; otherwise provider or model
/// trouble (`provider`, `model`) is `PROVIDER_ERROR`; anything else is
/// `AGENT_ERROR`.
pub proof fn lemma_error_code_classes(l: Seq<char>)
    ensures
        (contains_seq(l, "api key"@) || contains_seq(l, "authentication"@) || contains_seq(l, "unauthorized"@))
            ==> code_for_lowered(l) == "AUTH_ERROR"@,
        !(contains_seq(l, "api key"@) || contains_seq(l, "authentication"@) || contains_seq(l, "unauthorized"@))
            && (contains_seq(l, "provider"@) || contains_seq(l, "model"@)) ==> code_for_lowered(l) == "PROVIDER_ERROR"@,
        !(contains_seq(l, "api key"@) || contains_seq(l, "authentication"@) || contains_seq(l, "unauthorized"@)
            || contains_seq(l, "provider"@) || contains_seq(l, "model"@)) ==> code_for_lowered(l) == "AGENT_ERROR"@,
{
}

/// The code of a failed turn's error frame, from the lower-cased error text:
/// `AUTH_ERROR` for key or authentication trouble, `PROVIDER_ERROR` for
/// provider or model trouble, else `AGENT_ERROR`.
pub fn error_code_for_lowered(lowered: &str) -> (r: String)
    ensures
        r@ == code_for_lowered(lowered@),
{
    let l = chars_of(lowered);
    if contains_chars(&l, &chars_of("api key")) || contains_chars(&l, &chars_of("authentication")) || contains_chars(
        &l,
        &chars_of("unauthorized"),
    ) {
        "AUTH_ERROR".to_owned()
    } else if contains_chars(&l, &chars_of("provider")) || contains_chars(&l, &chars_of("model")) {
        "PROVIDER_ERROR".to_owned()
    } else {
        "AGENT_ERROR".to_owned()
    }
}

/// The code of a failed turn's error frame for the (sanitized) error text.
pub fn ws_error_code(sanitized: &str) -> (r: String)
    ensures
        r@ == code_for_lowered(unicode_lower(sanitized@)),
{
    let lowered = to_lowercase(sanitized);
    error_code_for_lowered(lowered.as_str())
}

/// An event broadcast to the gateway's event stream.
pub enum WsEvent {
    /// `{"type":"agent_start","provider":..,"model":..}`.
    AgentStart { provider: String, model: String },
    /// `{"type":"agent_end","provider":..,"model":..}`.
    AgentEnd { provider: String, model: String },
    /// `{"type":"error","component":"ws_chat","message":..}`.
    Error(String),
}

pub enum EventView {
    AgentStart(Seq<char>, Seq<char>),
    AgentEnd(Seq<char>, Seq<char>),
    Error(Seq<char>),
}

impl View for WsEvent {
    type V = EventView;

    open spec fn view(&self) -> EventView {
        match self {
            WsEvent::AgentStart { provider, model } => EventView::AgentStart(provider@, model@),
            WsEvent::AgentEnd { provider, model } => EventView::AgentEnd(provider@, model@),
            WsEvent::Error(m) => EventView::Error(m@),
        }
    }
}

/// What follows a chat turn.
pub struct TurnEnd {
    /// The assistant reply to append to the session store.
    pub persist_assistant: Option<String>,
    /// Frames to send, in order.
    pub frames: Vec<WsOutbound>,
    /// Event to broadcast.
    pub event: WsEvent,
}

/// Finish a chat turn whose outcome is `result` (the reply, or the sanitized
/// error text). A reply is stored, the client's draft is reset and the reply
/// sent as `done`; an error is sent with its code and broadcast.
pub fn finish_chat_turn(result: Result<String, String>, provider_label: &str, model_label: &str) -> (r: TurnEnd)
    ensures
        match result {
            Ok(reply) => {
                &&& opt_str_view(r.persist_assistant) == Some(reply@)
                &&& outbound_views(r.frames@) == seq![OutboundView::ChunkReset, OutboundView::Done(reply@)]
                &&& r.event@ == EventView::AgentEnd(provider_label@, model_label@)
            },
            Err(e) => {
                &&& r.persist_assistant is None
                &&& outbound_views(r.frames@) == seq![
                    OutboundView::Error(e@, Some(code_for_lowered(unicode_lower(e@)))),
                ]
                &&& r.event@ == EventView::Error(e@)
            },
        },
{
    let mut frames: Vec<WsOutbound> = Vec::new();
    match result {
        Ok(reply) => {
            frames.push(WsOutbound::ChunkReset);
            frames.push(WsOutbound::Done(reply.clone()));
            let r = TurnEnd {
                persist_assistant: Some(reply),
                frames,
                event: WsEvent::AgentEnd { provider: provider_label.to_owned(), model: model_label.to_owned() },
            };
            proof {
                assert(outbound_views(r.frames@) =~= seq![OutboundView::ChunkReset, OutboundView::Done(reply@)]);
            }
            r
        },
        Err(e) => {
            let code = ws_error_code(e.as_str());
            frames.push(WsOutbound::Error(ErrorFrame { message: e.clone(), code: Some(code) }));
            let r = TurnEnd { persist_assistant: None, frames, event: WsEvent::Error(e) };
            proof {
                assert(outbound_views(r.frames@) =~= seq![
                    OutboundView::Error(e@, Some(code_for_lowered(unicode_lower(e@)))),
                ]);
            }
            r
        },
    }
}

} // verus!
