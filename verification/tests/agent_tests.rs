use zeroclaw::agent::compaction_pipeline::{
    llm_error_suggests_context_retry, run_pre_llm_phases, run_reactive_compaction, CompactionContext,
    CompactionTrigger, HistoryPrunerConfig,
};
use zeroclaw::agent::query_engine::{
    begin_traced_turn, end_traced_turn, should_request_token_continuation, DiagnosticsLog, TokenUsage, DIAG_CAP,
};
use zeroclaw::agent::session_record::{
    collect_referenced_archive_paths, compaction_archive_names, ensure_system_prompt, gateway_backend_key,
    gc_compaction_archives_older_than, gc_compaction_archives_under, has_extension, load_session_record,
    memory_session_id_for_cli_path, session_schema_version, ArchiveEntry, ModifiedTime, SessionCompactionMeta,
    SessionRecord, StoredSession, SESSION_RECORD_VERSION,
};
use zeroclaw::agent::session_transcript::{
    append_assistant_for_config, commit_user_turn, maybe_truncate_content, record_assistant_from_task_local,
    stem_for_hash, transcript_file_name, transcript_file_stem, SessionTranscriptConfig, SessionTranscriptScope,
};
use zeroclaw::agent::state::{EngineState, TransitionReason};
use zeroclaw::agent::tool_router::{
    build_router_prompt, build_tool_catalog_json, chat_completions_url, dedupe_excluded, extract_json_array_from_text,
    find_matching_bracket_end, json_array_slice, merge_router_names, merge_router_reply, plan_router_request,
    select_allowed_tools, strip_markdown_fence, truncate_for_log, RouterPlan, RouterReply, ToolEntry,
    ToolRouterConfig,
};
use zeroclaw::providers::ChatMessage;

fn strings(items: &[&str]) -> Vec<String> {
    items.iter().map(|s| s.to_string()).collect()
}

// ── compaction pipeline ────────────────────────────────────────

#[test]
fn llm_error_suggests_context_retry_detects_window_hints() {
    let e = "prompt exceeds max length for this model";
    assert!(llm_error_suggests_context_retry(e));
}

#[test]
fn llm_error_context_retry_ignores_case_and_other_errors() {
    assert!(llm_error_suggests_context_retry("This model's maximum CONTEXT length is 8192 tokens"));
    assert!(!llm_error_suggests_context_retry("connection reset by peer"));
}

#[test]
fn run_pre_llm_phases_no_panic_when_disabled() {
    let _history = vec![ChatMessage::system("sys"), ChatMessage::user(&"hi".repeat(100))];
    let pruning = HistoryPrunerConfig { enabled: false };
    let ctx = CompactionContext::new(0, vec![], CompactionTrigger::Routine);
    let phases = run_pre_llm_phases(&pruning, &ctx).unwrap();
    assert!(!phases.prune);
    assert!(!phases.analyze);
}

#[test]
fn pre_llm_phases_follow_settings() {
    let pruning = HistoryPrunerConfig { enabled: true };
    let mut ctx = CompactionContext::new(3, strings(&["shell"]), CompactionTrigger::ReactiveContextError);
    ctx.log_context_signals = true;
    let phases = run_pre_llm_phases(&pruning, &ctx).unwrap();
    assert!(phases.prune && phases.analyze);
    assert_eq!(run_reactive_compaction(&pruning), Ok(true));
    assert_eq!(run_reactive_compaction(&HistoryPrunerConfig { enabled: false }), Ok(false));
    assert!(matches!(CompactionTrigger::default(), CompactionTrigger::Routine));
}

// ── query engine ───────────────────────────────────────────────

#[test]
fn diagnostics_keep_the_last_entries_in_order() {
    let mut log = DiagnosticsLog::new();
    for i in 0..(DIAG_CAP + 5) {
        log.record_transition(TransitionReason::ToolRound, Some(format!("{i}")));
    }
    let d = log.drain_diagnostics();
    assert_eq!(d.len(), DIAG_CAP);
    assert_eq!(d[0].detail.as_deref(), Some("5"));
    assert_eq!(d[DIAG_CAP - 1].detail.as_deref(), Some(format!("{}", DIAG_CAP + 4).as_str()));
    // reading does not clear the log
    assert_eq!(log.drain_diagnostics().len(), DIAG_CAP);
}

#[test]
fn traced_turn_records_begin_and_end() {
    let mut log = DiagnosticsLog::new();
    begin_traced_turn(&mut log);
    assert!(end_traced_turn(&mut log, &Ok("done".to_string()), true));
    begin_traced_turn(&mut log);
    assert!(!end_traced_turn(&mut log, &Err("boom".to_string()), true));
    let d = log.drain_diagnostics();
    assert_eq!(d.len(), 4);
    assert_eq!(d[0].reason, TransitionReason::BeginTurn);
    assert_eq!(d[1].reason, TransitionReason::TurnComplete);
    assert_eq!(d[3].reason, TransitionReason::TurnError);
    assert_eq!(d[3].detail.as_deref(), Some("boom"));
    let s = EngineState::default();
    assert_eq!(s.iteration, 0);
    assert!(s.last_transition.is_none());
}

#[test]
fn token_continuation_heuristic() {
    let u = TokenUsage { input_tokens: Some(10), output_tokens: Some(900) };
    assert!(should_request_token_continuation(Some(&u), 23));
    assert!(!should_request_token_continuation(Some(&u), 24));
    let low = TokenUsage { input_tokens: None, output_tokens: Some(899) };
    assert!(!should_request_token_continuation(Some(&low), 0));
    let none = TokenUsage { input_tokens: Some(1), output_tokens: None };
    assert!(!should_request_token_continuation(Some(&none), 0));
    assert!(!should_request_token_continuation(None, 0));
}

// ── session record ─────────────────────────────────────────────

#[test]
fn gateway_backend_key_matches_prefix() {
    assert_eq!(gateway_backend_key("abc-123"), "gw_abc-123");
}

#[test]
fn memory_session_id_for_cli_path_trims() {
    assert_eq!(memory_session_id_for_cli_path("  /tmp/s.json "), Some("cli:/tmp/s.json".to_string()));
    assert_eq!(memory_session_id_for_cli_path("   "), None);
}

#[test]
fn v1_round_trips_to_v2_fields() {
    let legacy = vec![ChatMessage { role: "user".into(), content: "hi".into() }];
    let r = load_session_record(Some(StoredSession::Legacy(legacy)), "sys");
    assert_eq!(r.version, SESSION_RECORD_VERSION);
    assert_eq!(r.history.len(), 2);
    assert_eq!(r.history[0].role, "system");
    assert_eq!(r.history[0].content, "sys");
    assert_eq!(r.history[1].content, "hi");
    assert!(r.compaction.is_none());
}

#[test]
fn load_without_file_gives_system_prompt_only() {
    let r = load_session_record(None, "prompt");
    assert_eq!(r.version, 2);
    assert_eq!(r.history.len(), 1);
    assert_eq!(r.history[0].role, "system");
    assert_eq!(r.history[0].content, "prompt");
}

#[test]
fn save_load_round_trip() {
    let rec = SessionRecord {
        version: 2,
        history: vec![ChatMessage::system("s"), ChatMessage::user("u")],
        compaction: Some(SessionCompactionMeta {
            archive_paths: strings(&["archives/x.jsonl"]),
            last_summary_excerpt: Some("bullets".into()),
        }),
    };
    let loaded = load_session_record(Some(StoredSession::Current(rec)), "fallback");
    assert_eq!(loaded.history.len(), 2);
    assert_eq!(loaded.history[0].content, "s");
    assert_eq!(loaded.compaction.as_ref().unwrap().archive_paths, strings(&["archives/x.jsonl"]));
}

#[test]
fn ensure_system_prompt_is_idempotent() {
    let mut h = vec![ChatMessage::user("u")];
    ensure_system_prompt(&mut h, "sys");
    assert_eq!(h.len(), 2);
    assert_eq!(h[0].role, "system");
    ensure_system_prompt(&mut h, "other");
    assert_eq!(h.len(), 2);
    assert_eq!(h[0].content, "sys");
}

#[test]
fn schema_version_falls_back_to_two() {
    assert_eq!(session_schema_version(Some(1)), 1);
    assert_eq!(session_schema_version(None), 2);
    assert_eq!(session_schema_version(Some(u64::from(u32::MAX) + 1)), 2);
}

#[test]
fn archive_names_use_the_id() {
    let (name, rel) = compaction_archive_names("abc");
    assert_eq!(name, "abc.jsonl");
    assert_eq!(rel, "archives/abc.jsonl");
}

#[test]
fn file_extension_rules() {
    assert!(has_extension("a.jsonl", "jsonl"));
    assert!(has_extension("a.b.json", "json"));
    assert!(!has_extension(".json", "json"));
    assert!(!has_extension("json", "json"));
    assert!(!has_extension("a.jsonl", "json"));
}

fn entry(name: &str, rel: Option<&str>, modified: ModifiedTime) -> ArchiveEntry {
    ArchiveEntry { file_name: name.into(), relative_path: rel.map(str::to_string), modified }
}

#[test]
fn gc_archives_under_removes_only_expired_jsonl() {
    let day: i128 = 86_400 * 1_000_000_000;
    let now: i128 = 1_700_000_000 * 1_000_000_000;
    let cutoff = now - day;
    let entries = vec![
        entry("stale.jsonl", Some("archives/stale.jsonl"), ModifiedTime::At(10_000 * 1_000_000_000)),
        entry("fresh.jsonl", Some("archives/fresh.jsonl"), ModifiedTime::At(now)),
        entry("notes.txt", Some("archives/notes.txt"), ModifiedTime::At(0)),
        entry("gone.jsonl", Some("archives/gone.jsonl"), ModifiedTime::Unreadable),
    ];
    let n = gc_compaction_archives_under(&entries, &vec![], cutoff);
    assert_eq!(n, vec![0]);
}

#[test]
fn gc_skips_protected_paths() {
    let entries = vec![entry("keep.jsonl", Some("archives\\keep.jsonl"), ModifiedTime::At(10_000))];
    let protected = strings(&["archives/keep.jsonl"]);
    assert_eq!(gc_compaction_archives_under(&entries, &protected, 1_000_000_000_000).len(), 0);
    let unknown = vec![entry("x.jsonl", Some("archives/x.jsonl"), ModifiedTime::Unknown)];
    assert_eq!(gc_compaction_archives_under(&unknown, &vec![], 1), vec![0]);
    assert_eq!(gc_compaction_archives_under(&unknown, &vec![], 0).len(), 0);
}

#[test]
fn collect_referenced_archive_paths_reads_session_json() {
    let files = strings(&[
        r#"{"version":2,"history":[],"compaction":{"archive_paths":["archives/a.jsonl","archives\\b.jsonl",3]}}"#,
        "not json",
        r#"{"version":2,"history":[]}"#,
    ]);
    let s = collect_referenced_archive_paths(&files);
    assert_eq!(s, strings(&["archives/a.jsonl", "archives/b.jsonl"]));
    let entries = vec![
        entry("a.jsonl", Some("archives/a.jsonl"), ModifiedTime::At(0)),
        entry("c.jsonl", Some("archives/c.jsonl"), ModifiedTime::At(0)),
    ];
    assert_eq!(gc_compaction_archives_older_than(&files, &entries, 5), vec![1]);
}

// ── session transcript ─────────────────────────────────────────

#[test]
fn transcript_stem_is_stable_for_same_key() {
    let a = transcript_file_stem("tg_user_123");
    let b = transcript_file_stem("tg_user_123");
    assert_eq!(a, b);
    assert!(!a.is_empty());
}

#[test]
fn transcript_stem_shape() {
    assert_eq!(stem_for_hash("a b/c", 255), "a_b_c_ff");
    assert_eq!(stem_for_hash("__??__", 0), "session_0");
    let long: String = "x".repeat(200);
    let s = stem_for_hash(&long, 1);
    assert_eq!(s, format!("{}_1", "x".repeat(120)));
    let real = transcript_file_stem("tg:user");
    assert!(real.starts_with("tg_user_"));
    assert_ne!(real, "tg_user_");
    assert!(real["tg_user_".len()..].chars().all(|c| c.is_ascii_digit() || ('a'..='f').contains(&c)));
    assert_eq!(transcript_file_name("tg:user"), format!("{real}.jsonl"));
}

#[test]
fn truncate_respects_max_chars() {
    let s = "abcdefghij".chars().take(100).collect::<String>();
    let out = maybe_truncate_content(&s, 5);
    assert!(out.contains("truncated"));
    assert!(out.chars().count() < 100);
}

#[test]
fn truncate_content_exact_text() {
    assert_eq!(maybe_truncate_content("abcdefghij", 5), "abcde\n… [truncated: 10 chars > 5]\n");
    assert_eq!(maybe_truncate_content("abc", 0), "abc");
    assert_eq!(maybe_truncate_content("abc", 3), "abc");
}

#[test]
fn transcript_lines_follow_config() {
    let on = SessionTranscriptConfig { enabled: true, max_content_chars: 0 };
    let off = SessionTranscriptConfig { enabled: false, max_content_chars: 0 };
    let r = commit_user_turn(&on, "k", "cli", "p", "m", "hello", "2020-01-01T00:00:00Z".into()).unwrap();
    assert_eq!(r.v, 1);
    assert_eq!(r.role, "user");
    assert_eq!(r.content, "hello");
    assert_eq!(r.ts, "2020-01-01T00:00:00Z");
    assert!(commit_user_turn(&off, "k", "cli", "p", "m", "hello", "t".into()).is_none());
    assert!(append_assistant_for_config(&on, "  ", "cli", "p", "m", "x", "t".into()).is_none());
    let a = append_assistant_for_config(&on, "k", "c", "p", "m", "x", "t".into()).unwrap();
    assert_eq!(a.role, "assistant");
    let scope = SessionTranscriptScope { cfg: on, session_key: "k".into() };
    assert!(record_assistant_from_task_local(Some(&scope), "x", "c", "p", "m", "t".into()).is_some());
    assert!(record_assistant_from_task_local(None, "x", "c", "p", "m", "t".into()).is_none());
}

// ── tool router ────────────────────────────────────────────────

#[test]
fn find_matching_bracket_nested() {
    let s = r#"Some text ["a", "b"] tail"#;
    let tail = &s[s.find('[').unwrap()..];
    assert_eq!(find_matching_bracket_end(tail), Some(9));
}

#[test]
fn find_matching_bracket_counts_bytes_and_depth() {
    assert_eq!(find_matching_bracket_end("[[é]]x"), Some(5));
    assert_eq!(find_matching_bracket_end("[[a]"), None);
    assert_eq!(find_matching_bracket_end("]["), None);
}

#[test]
fn extract_json_array_from_text_fenced() {
    let s = "```json\n[\"a\", \"b\"]\n```";
    let v = extract_json_array_from_text(s).unwrap();
    assert_eq!(v, vec!["a".to_string(), "b".to_string()]);
}

#[test]
fn extract_json_array_edge_cases() {
    assert_eq!(extract_json_array_from_text("no array here"), None);
    assert_eq!(extract_json_array_from_text("[1, 2]"), None);
    assert_eq!(extract_json_array_from_text("pick [\"x\"] please"), Some(strings(&["x"])));
    assert_eq!(json_array_slice("pre [[1],[2]] post"), Some("[[1],[2]]".to_string()));
}

#[test]
fn strip_markdown_fence_forms() {
    assert_eq!(strip_markdown_fence("  plain  "), "plain");
    assert_eq!(strip_markdown_fence("```JSON\n[1]\n```"), "[1]");
    assert_eq!(strip_markdown_fence("```jsonjson [2]"), "[2]");
    assert_eq!(strip_markdown_fence("```"), "");
}

#[test]
fn chat_completions_url_appends_path() {
    assert_eq!(
        chat_completions_url("http://127.0.0.1:11437/v1"),
        "http://127.0.0.1:11437/v1/chat/completions"
    );
}

#[test]
fn chat_completions_url_keeps_full_endpoint() {
    assert_eq!(chat_completions_url(" http://h/v1/chat/completions/ "), "http://h/v1/chat/completions");
    assert_eq!(chat_completions_url("   "), "");
}

#[test]
fn truncate_for_log_cuts_at_400_bytes() {
    let short = "abc";
    assert_eq!(truncate_for_log(short), "abc");
    let long = "y".repeat(500);
    let t = truncate_for_log(&long);
    assert_eq!(t, format!("{}…", "y".repeat(400)));
}

#[test]
fn dedupe_keeps_first_occurrences() {
    let v = dedupe_excluded(strings(&["a", "b", "a", "c", "b"]));
    assert_eq!(v, strings(&["a", "b", "c"]));
    assert_eq!(dedupe_excluded(v.clone()), v);
}

#[test]
fn allowed_tools_respect_cap_and_order() {
    let cands = strings(&["a", "b", "c", "tool_search"]);
    let r = select_allowed_tools(&strings(&["c", "zz"]), &cands, &strings(&["b", "c", "a"]), true, 3);
    assert_eq!(r, strings(&["c", "tool_search", "b"]));
    let r0 = select_allowed_tools(&vec![], &cands, &strings(&["a", "b"]), false, 0);
    assert_eq!(r0, strings(&["a"]));
}

fn router_cfg() -> ToolRouterConfig {
    ToolRouterConfig {
        enabled: true,
        base_url: "http://127.0.0.1:1/v1".into(),
        model: "tiny".into(),
        api_key: Some("k".into()),
        timeout_ms: 0,
        max_tools: 2,
        always_include: vec![],
        fallback_to_all_tools: false,
    }
}

fn registry() -> Vec<ToolEntry> {
    vec![
        ToolEntry { name: "shell".into(), description: "run".into() },
        ToolEntry { name: "file_read".into(), description: "read".into() },
        ToolEntry { name: "web".into(), description: "x".repeat(300) },
    ]
}

#[test]
fn router_plan_skips_when_disabled_or_unconfigured() {
    let mut cfg = router_cfg();
    cfg.enabled = false;
    match plan_router_request(strings(&["a", "a"]), &cfg, &registry(), "hi") {
        RouterPlan::Done(v) => assert_eq!(v, strings(&["a"])),
        RouterPlan::Ask { .. } => panic!("router should not be asked"),
    }
    let mut cfg2 = router_cfg();
    cfg2.model = "  ".into();
    assert!(matches!(plan_router_request(vec![], &cfg2, &registry(), "hi"), RouterPlan::Done(_)));
    let all = strings(&["shell", "file_read", "web"]);
    assert!(matches!(plan_router_request(all, &router_cfg(), &registry(), "hi"), RouterPlan::Done(_)));
}

#[test]
fn router_plan_builds_request() {
    match plan_router_request(strings(&["shell"]), &router_cfg(), &registry(), "find files") {
        RouterPlan::Ask { request, candidates } => {
            assert_eq!(candidates, strings(&["file_read", "web"]));
            assert_eq!(request.url, "http://127.0.0.1:1/v1/chat/completions");
            assert_eq!(request.model, "tiny");
            assert_eq!(request.bearer.as_deref(), Some("k"));
            assert_eq!(request.timeout_ms, 1);
            assert_eq!(request.max_tokens, 512);
            assert!(request.prompt.contains("User query:\n\nfind files\n"));
            assert!(request.prompt.contains("\"name\":\"file_read\""));
            assert!(!request.prompt.contains("{{TOOL_LIST_JSON}}"));
        }
        RouterPlan::Done(_) => panic!("router should be asked"),
    }
}

#[test]
fn tool_catalog_json_cuts_descriptions() {
    let json = build_tool_catalog_json(&registry(), &strings(&["web"]));
    assert_eq!(json, format!("[{{\"description\":\"{}\",\"name\":\"web\"}}]", "x".repeat(200)));
    let prompt = build_router_prompt("q {{TOOL_LIST_JSON}}", "[]");
    assert!(prompt.contains("User query:\n\nq []"));
}

#[test]
fn router_names_decide_exclusions() {
    let cfg = router_cfg();
    let cands = strings(&["file_read", "web", "calc"]);
    let r = merge_router_names(strings(&["shell"]), &cfg, &cands, false, Some(strings(&["web", "web", "nope"])));
    assert_eq!(r, strings(&["shell", "file_read", "calc"]));
    let none = merge_router_names(strings(&["shell"]), &cfg, &cands, false, None);
    assert_eq!(none, strings(&["shell"]));
    let empty = merge_router_names(strings(&["shell"]), &cfg, &cands, false, Some(vec![]));
    assert_eq!(empty, strings(&["shell", "file_read", "web", "calc"]));
    let mut fb = router_cfg();
    fb.fallback_to_all_tools = true;
    let kept = merge_router_names(strings(&["shell"]), &fb, &cands, false, Some(strings(&["nope"])));
    assert_eq!(kept, strings(&["shell"]));
}

#[test]
fn router_reply_is_read_from_choices() {
    let cfg = router_cfg();
    let cands = strings(&["file_read", "web"]);
    let body = r#"{"choices":[{"message":{"content":"```json\n[\"web\"]\n```"}}]}"#;
    let r = merge_router_reply(vec![], &cfg, &cands, false, RouterReply::Response { success: true, body: body.into() });
    assert_eq!(r, strings(&["file_read"]));
    let failed = merge_router_reply(strings(&["x"]), &cfg, &cands, false, RouterReply::Failed);
    assert_eq!(failed, strings(&["x"]));
    let bad = merge_router_reply(vec![], &cfg, &cands, false, RouterReply::Response { success: false, body: body.into() });
    assert!(bad.is_empty());
    let not_json = merge_router_reply(vec![], &cfg, &cands, false, RouterReply::Response { success: true, body: "oops".into() });
    assert!(not_json.is_empty());
}
