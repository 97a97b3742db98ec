use zeroclaw::channels::runtime_slash::{parse_gateway_ws_slash, ParsedRuntimeSlash, ProviderInfo, SlashRouteSelection};
use zeroclaw::gateway::chat_slash::{
    default_gateway_route, finish_provider_switch, get_gateway_route, handle_gateway_ws_slash, set_gateway_route,
    slash_command_entries, GatewayChatConfig, GatewayRoutes, GatewaySlashStep,
};
use zeroclaw::gateway::ws::{
    apply_stored_gateway_route_override, classify_ws_text, decide_ws_frame, error_code_for_lowered, extract_ws_token,
    finish_chat_turn, first_frame_step, gateway_slash_done_frames, hydrate_gateway_ws_session, next_frame_step,
    requests_ws_protocol, session_start_frame, ws_error_code, ConnectFrame, FirstStep, FrameAction, WsEvent, WsInbound,
    WsOutbound, WsStep,
};

// ── token extraction ───────────────────────────────────────────

#[test]
fn extract_ws_token_from_authorization_header() {
    assert_eq!(extract_ws_token(Some("Bearer zc_test123"), None, None), Some("zc_test123".to_string()));
}

#[test]
fn extract_ws_token_from_subprotocol() {
    assert_eq!(extract_ws_token(None, Some("zeroclaw.v1, bearer.zc_sub456"), None), Some("zc_sub456".to_string()));
}

#[test]
fn extract_ws_token_from_query_param() {
    assert_eq!(extract_ws_token(None, None, Some("zc_query789")), Some("zc_query789".to_string()));
}

#[test]
fn extract_ws_token_precedence_header_over_subprotocol() {
    assert_eq!(
        extract_ws_token(Some("Bearer zc_header"), Some("bearer.zc_sub"), Some("zc_query")),
        Some("zc_header".to_string())
    );
}

#[test]
fn extract_ws_token_precedence_subprotocol_over_query() {
    assert_eq!(extract_ws_token(None, Some("bearer.zc_sub"), Some("zc_query")), Some("zc_sub".to_string()));
}

#[test]
fn extract_ws_token_returns_none_when_empty() {
    assert_eq!(extract_ws_token(None, None, None), None);
}

#[test]
fn extract_ws_token_skips_empty_header_value() {
    assert_eq!(extract_ws_token(Some("Bearer "), None, Some("zc_fallback")), Some("zc_fallback".to_string()));
}

#[test]
fn extract_ws_token_skips_empty_query_param() {
    assert_eq!(extract_ws_token(None, None, Some("")), None);
}

#[test]
fn extract_ws_token_subprotocol_with_multiple_entries() {
    assert_eq!(extract_ws_token(None, Some("zeroclaw.v1, bearer.zc_tok, other"), None), Some("zc_tok".to_string()));
}

#[test]
fn extract_ws_token_first_bearer_entry_counts() {
    assert_eq!(extract_ws_token(None, Some("bearer., bearer.late"), Some("q")), Some("q".to_string()));
    assert_eq!(extract_ws_token(Some("Basic abc"), None, None), None);
}

#[test]
fn ws_protocol_negotiation() {
    assert!(requests_ws_protocol("zeroclaw.v1"));
    assert!(requests_ws_protocol("bearer.x ,  zeroclaw.v1 "));
    assert!(!requests_ws_protocol("zeroclaw.v2, other"));
}

#[test]
fn gateway_ws_slash_parsing_matches_runtime_slash() {
    assert!(matches!(parse_gateway_ws_slash("  /new  "), Some(ParsedRuntimeSlash::NewSession)));
    assert!(matches!(parse_gateway_ws_slash("/models"), Some(ParsedRuntimeSlash::ShowProviders)));
}

// ── frames ─────────────────────────────────────────────────────

fn error_of(a: FrameAction) -> (String, Option<String>) {
    match a {
        FrameAction::Error(e) => (e.message, e.code),
        _ => panic!("expected an error frame"),
    }
}

#[test]
fn frames_after_the_first_get_codes() {
    match classify_ws_text(r#"{"type":"message","content":"Hello"}"#, false) {
        FrameAction::Chat(c) => assert_eq!(c, "Hello"),
        _ => panic!("expected a chat message"),
    }
    let (m, c) = error_of(classify_ws_text("{nope", false));
    assert!(m.starts_with("Invalid JSON: "));
    assert_eq!(c.as_deref(), Some("INVALID_JSON"));
    let (m, c) = error_of(classify_ws_text(r#"{"type":"ping"}"#, false));
    assert_eq!(m, r#"Unsupported message type "ping". Send {"type":"message","content":"your text"}"#);
    assert_eq!(c.as_deref(), Some("UNKNOWN_MESSAGE_TYPE"));
    let (m, c) = error_of(classify_ws_text(r#"{"type":"message","content":""}"#, false));
    assert_eq!(m, "Message content cannot be empty");
    assert_eq!(c.as_deref(), Some("EMPTY_CONTENT"));
}

#[test]
fn first_frame_is_lenient() {
    let (m, c) = error_of(classify_ws_text("{nope", true));
    assert_eq!(m, r#"Invalid JSON. Send {"type":"message","content":"your text"}"#);
    assert!(c.is_none());
    let (m, _) = error_of(classify_ws_text(r#"{"content":"x"}"#, true));
    assert_eq!(m, r#"Unsupported message type "unknown". Send {"type":"message","content":"your text"}"#);
    assert!(matches!(classify_ws_text(r#"{"type":"message"}"#, true), FrameAction::Ignore));
    assert!(matches!(decide_ws_frame(false, Ok((None, None))), FrameAction::Error(_)));
}

#[test]
fn connect_handshake_and_loop_steps() {
    let c = ConnectFrame { msg_type: "connect".into(), session_id: Some("  s2 ".into()) };
    match first_frame_step(WsInbound::Text("{}".into()), Some(c)) {
        FirstStep::Connect(sid) => assert_eq!(sid.as_deref(), Some("s2")),
        _ => panic!("expected a connect handshake"),
    }
    let blank = ConnectFrame { msg_type: "connect".into(), session_id: Some("  ".into()) };
    assert!(matches!(first_frame_step(WsInbound::Text("{}".into()), Some(blank)), FirstStep::Connect(None)));
    let other = ConnectFrame { msg_type: "message".into(), session_id: None };
    assert!(matches!(
        first_frame_step(WsInbound::Text(r#"{"type":"message","content":"hi"}"#.into()), Some(other)),
        FirstStep::Act(FrameAction::Chat(_))
    ));
    assert!(matches!(first_frame_step(WsInbound::Close, None), FirstStep::Stop));
    assert!(matches!(first_frame_step(WsInbound::Other, None), FirstStep::Skip));
    assert!(matches!(next_frame_step(WsInbound::Failed), WsStep::Stop));
    assert!(matches!(next_frame_step(WsInbound::Other), WsStep::Skip));
    assert!(matches!(next_frame_step(WsInbound::Text("[]".into())), WsStep::Act(FrameAction::Error(_))));
}

#[test]
fn hydrate_prefers_query_name() {
    let (s, store) = hydrate_gateway_ws_session("abc", Some("Named"), 3, Some("old".into()));
    assert_eq!(s.session_key, "gw_abc");
    assert!(s.resumed);
    assert_eq!(s.message_count, 3);
    assert_eq!(s.effective_name.as_deref(), Some("Named"));
    assert_eq!(store.as_deref(), Some("Named"));
    let (s2, store2) = hydrate_gateway_ws_session("abc", Some(""), 0, Some("old".into()));
    assert!(!s2.resumed);
    assert_eq!(s2.effective_name.as_deref(), Some("old"));
    assert!(store2.is_none());
    match session_start_frame(&s) {
        WsOutbound::SessionStart { session_id, resumed, message_count, name } => {
            assert_eq!(session_id, "abc");
            assert!(resumed);
            assert_eq!(message_count, 3);
            assert_eq!(name.as_deref(), Some("Named"));
        }
        _ => panic!("expected a session start"),
    }
}

#[test]
fn error_codes_for_failed_turns() {
    assert_eq!(ws_error_code("Invalid API Key"), "AUTH_ERROR");
    assert_eq!(ws_error_code("UNAUTHORIZED"), "AUTH_ERROR");
    assert_eq!(ws_error_code("Model not found"), "PROVIDER_ERROR");
    assert_eq!(ws_error_code("timeout"), "AGENT_ERROR");
    assert_eq!(error_code_for_lowered("Provider down"), "AGENT_ERROR");
}

#[test]
fn chat_turn_end_frames() {
    let ok = finish_chat_turn(Ok("answer".into()), "openrouter", "m");
    assert_eq!(ok.persist_assistant.as_deref(), Some("answer"));
    assert_eq!(ok.frames.len(), 2);
    assert!(matches!(ok.frames[0], WsOutbound::ChunkReset));
    assert!(matches!(&ok.frames[1], WsOutbound::Done(t) if t == "answer"));
    assert!(matches!(&ok.event, WsEvent::AgentEnd { provider, model } if provider == "openrouter" && model == "m"));
    let err = finish_chat_turn(Err("Authentication failed".into()), "p", "m");
    assert!(err.persist_assistant.is_none());
    match &err.frames[0] {
        WsOutbound::Error(e) => {
            assert_eq!(e.message, "Authentication failed");
            assert_eq!(e.code.as_deref(), Some("AUTH_ERROR"));
        }
        _ => panic!("expected an error frame"),
    }
    assert!(matches!(&err.event, WsEvent::Error(m) if m == "Authentication failed"));
}

#[test]
fn slash_done_frames_report_rebind_failure() {
    let f = gateway_slash_done_frames("ok", Some("bad key"));
    assert!(matches!(f[0], WsOutbound::ChunkReset));
    assert!(matches!(&f[1], WsOutbound::Done(t) if t == "ok\n\n⚠️ Failed to apply route to agent: bad key"));
    let g = gateway_slash_done_frames("ok", None);
    assert!(matches!(&g[1], WsOutbound::Done(t) if t == "ok"));
}

// ── gateway chat slash ─────────────────────────────────────────

fn config() -> GatewayChatConfig {
    GatewayChatConfig { default_provider: None, default_model: None, model_routes: vec![], fallback_model: "fallback-model".into() }
}

fn providers() -> Vec<ProviderInfo> {
    vec![
        ProviderInfo { name: "openrouter".into(), aliases: vec![] },
        ProviderInfo { name: "acme".into(), aliases: vec!["ac".into()] },
    ]
}

#[test]
fn default_route_and_store() {
    let cfg = config();
    let d = default_gateway_route(&cfg);
    assert_eq!(d.provider, "openrouter");
    assert_eq!(d.model, "fallback-model");
    let mut routes = GatewayRoutes::new();
    let sel = SlashRouteSelection { provider: "acme".into(), model: "x".into(), api_key: None };
    set_gateway_route(&mut routes, "k", sel, &d);
    assert_eq!(get_gateway_route(&routes, "k", &cfg).provider, "acme");
    assert_eq!(get_gateway_route(&routes, "other", &cfg).provider, "openrouter");
    assert_eq!(apply_stored_gateway_route_override(&routes, "k").map(|s| s.model), Some("x".to_string()));
    let back = default_gateway_route(&cfg);
    set_gateway_route(&mut routes, "k", back, &d);
    assert!(apply_stored_gateway_route_override(&routes, "k").is_none());
}

#[test]
fn gateway_slash_commands() {
    let cfg = config();
    let mut routes = GatewayRoutes::new();
    assert!(matches!(handle_gateway_ws_slash(&mut routes, "k", "hello", &cfg, &providers(), &vec![]), GatewaySlashStep::NotSlash));
    match handle_gateway_ws_slash(&mut routes, "k", "/new", &cfg, &providers(), &vec![]) {
        GatewaySlashStep::Reply(r) => {
            assert_eq!(r.reply, "Conversation history cleared. Starting fresh.");
            assert!(r.clear_chat_session);
        }
        _ => panic!("expected a reply"),
    }
    match handle_gateway_ws_slash(&mut routes, "k", "/model `gpt-x`", &cfg, &providers(), &vec![]) {
        GatewaySlashStep::Reply(r) => {
            assert_eq!(r.reply, "Model switched to `gpt-x` (provider: `openrouter`). Context preserved.");
            assert_eq!(r.rebind.map(|t| t.1), Some("gpt-x".to_string()));
        }
        _ => panic!("expected a reply"),
    }
    assert_eq!(get_gateway_route(&routes, "k", &cfg).model, "gpt-x");
    match handle_gateway_ws_slash(&mut routes, "k", "/models nope", &cfg, &providers(), &vec![]) {
        GatewaySlashStep::Reply(r) => assert_eq!(r.reply, "Unknown provider `nope`. Use `/models` to list valid providers."),
        _ => panic!("expected a reply"),
    }
    match handle_gateway_ws_slash(&mut routes, "k", "/models AC", &cfg, &providers(), &vec![]) {
        GatewaySlashStep::ValidateProvider(p) => assert_eq!(p, "acme"),
        _ => panic!("expected a provider check"),
    }
    let r = finish_provider_switch(&mut routes, "k", &cfg, "acme", Ok(()));
    assert!(r.reply.starts_with("Provider switched to `acme` for this browser session. Current model is `gpt-x`."));
    assert_eq!(get_gateway_route(&routes, "k", &cfg).provider, "acme");
    let f = finish_provider_switch(&mut routes, "k", &cfg, "openrouter", Err("no key".into()));
    assert_eq!(f.reply, "Failed to initialize provider `openrouter`. Route unchanged.\nDetails: no key");
    assert_eq!(get_gateway_route(&routes, "k", &cfg).provider, "acme");
}

#[test]
fn slash_catalog_lists_commands() {
    let e = slash_command_entries();
    let names: Vec<&str> = e.iter().map(|p| p.0.as_str()).collect();
    assert_eq!(names, vec!["/new", "/reset", "/models", "/model", "/config"]);
}
