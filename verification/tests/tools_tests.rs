use std::sync::Arc;

use zeroclaw::shell::config::{ShellProfileEntry, ShellSection};
use zeroclaw::shell::engine::{
    build_std_command_for_cron, cap_output, kept_len, MAX_OUTPUT_BYTES, ExecOutcome, GateAnswer, NoopSandbox, ShellEngine, ShellGate, ShellStep,
};
use zeroclaw::shell::pipeline::{
    CommandValidator, ExtraForbiddenPathsValidator, MaxLineLengthValidator, NoNulByteValidator,
};
use zeroclaw::shell::profiles::{resolve_shell_profile, ShellProfileError, ShellProfileKind};
use zeroclaw::tools::mcp_serve::{
    check_http_auth, default_mcp_serve_tool_names, is_loopback_host, lex_less, mcp_post_step,
    merge_mcp_serve_allowlist, validate_mcp_http_bind, validate_mcp_serve_allowlist, CallParams, McpPostStep,
    McpRequest, McpResult, McpServeConfig, McpServeRuntime, McpStep, ToolOutcome, ToolSpec, INVALID_PARAMS,
    METHOD_NOT_FOUND, PARSE_ERROR,
};
use zeroclaw::tools::result::ToolResult;
use zeroclaw::tools::shell::{ShellTool, ShellToolArgs};
use zeroclaw::tools::skill_tool::{SkillShellTool, SkillTool};

fn strings(items: &[&str]) -> Vec<String> {
    items.iter().map(|s| s.to_string()).collect()
}

fn object(members: &[(&str, &str)]) -> serde_json::Value {
    let mut m = serde_json::Map::new();
    for (k, v) in members {
        m.insert(k.to_string(), serde_json::Value::String(v.to_string()));
    }
    serde_json::Value::Object(m)
}

// ── MCP serve policy ───────────────────────────────────────────

fn mcp_config(allowed: &[&str]) -> McpServeConfig {
    McpServeConfig {
        allowed_tools: strings(allowed),
        tool_timeout_secs: 30,
        relax_tool_policy: false,
        http_bind: "127.0.0.1".into(),
        http_port: 8787,
        auth_token: None,
    }
}

#[test]
fn merge_defaults_when_empty() {
    let cfg = mcp_config(&[]);
    let m = merge_mcp_serve_allowlist(&cfg, &[]);
    assert_eq!(m, vec!["memory_recall", "file_read"]);
    assert_eq!(default_mcp_serve_tool_names(), m);
}

#[test]
fn merge_dedupes() {
    let cfg = mcp_config(&["calculator", "file_read"]);
    let m = merge_mcp_serve_allowlist(&cfg, &["file_read".into()]);
    assert_eq!(m, vec!["calculator", "file_read"]);
}

#[test]
fn merge_sorts_and_trims_cli_names() {
    let cfg = mcp_config(&["weather", "b"]);
    let m = merge_mcp_serve_allowlist(&cfg, &strings(&["  a  ", "   ", "weather", "B"]));
    assert_eq!(m, vec!["B", "a", "b", "weather"]);
    assert!(lex_less("ab", "b") && lex_less("a", "ab") && !lex_less("b", "b"));
}

#[test]
fn validate_rejects_unsafe_without_relax() {
    let err = validate_mcp_serve_allowlist(&["shell".into()], false).unwrap_err();
    assert!(err.contains("relax_tool_policy"));
    assert_eq!(
        err,
        "mcp_serve: tool `shell` is not in the safe preset. Add `[mcp_serve].relax_tool_policy = true` after reviewing risk, or use only: memory_recall, file_read, calculator, weather, project_intel, image_info, glob_search, content_search, pdf_read"
    );
}

#[test]
fn validate_allows_shell_with_relax() {
    validate_mcp_serve_allowlist(&["shell".into()], true).unwrap();
    validate_mcp_serve_allowlist(&strings(&["file_read", "pdf_read"]), false).unwrap();
}

#[test]
fn validate_http_rejects_public_bind_without_token() {
    let e = validate_mcp_http_bind("0.0.0.0", None, false).unwrap_err();
    assert!(e.contains("auth_token"));
    let token = "t".to_string();
    validate_mcp_http_bind("0.0.0.0", Some(&token), false).unwrap();
}

#[test]
fn validate_http_allows_loopback_without_token() {
    validate_mcp_http_bind("127.0.0.1", None, true).unwrap();
    assert!(is_loopback_host("  LocalHost ", false));
    assert!(!is_loopback_host("example.com", false));
}

#[test]
fn http_auth_rules() {
    assert!(check_http_auth(None, None).is_ok());
    assert!(check_http_auth(Some("secret"), Some("Bearer secret")).is_ok());
    assert!(check_http_auth(Some("secret"), None).is_err());
    assert!(check_http_auth(Some("secret"), Some("secret")).is_err());
    assert!(matches!(mcp_post_step(Some("secret"), None, "{}"), McpPostStep::Unauthorized(_)));
    assert!(matches!(mcp_post_step(None, None, "  \n"), McpPostStep::BadRequest(m) if m == "empty body; expected one JSON-RPC object"));
    assert!(matches!(mcp_post_step(Some("s"), Some("Bearer s"), " {} "), McpPostStep::Handle(b) if b == "{}"));
}

fn ping_runtime() -> McpServeRuntime<&'static str> {
    let registry = vec![
        (
            ToolSpec { name: "contract_ping".into(), description: "test".into(), parameters: object(&[("type", "object")]) },
            "ping-handle",
        ),
        (
            ToolSpec { name: "other".into(), description: "o".into(), parameters: object(&[]) },
            "other-handle",
        ),
    ];
    match McpServeRuntime::from_parts(strings(&["contract_ping", "missing"]), registry, 5) {
        Ok(rt) => rt,
        Err(e) => panic!("{e}"),
    }
}

fn request(id: i64, method: &str, params: Option<CallParams>) -> McpRequest {
    McpRequest { id: Some(serde_json::Value::from(id)), method: method.into(), params }
}

#[test]
fn contract_initialize_and_tools_list() {
    let rt = ping_runtime();
    match rt.dispatch(request(1, "initialize", None)) {
        McpStep::Reply(r) => {
            assert!(matches!(r.result, Some(McpResult::Initialize { ref protocol_version, .. }) if protocol_version == "2024-11-05"));
            assert_eq!(r.id, Some(serde_json::Value::from(1)));
        }
        _ => panic!("expected a reply"),
    }
    match rt.dispatch(request(2, "tools/list", None)) {
        McpStep::Reply(r) => match r.result {
            Some(McpResult::ToolsList(defs)) => {
                assert_eq!(defs.len(), 1);
                assert_eq!(defs[0].name, "contract_ping");
                assert_eq!(defs[0].input_schema, object(&[("type", "object")]));
            }
            _ => panic!("expected a tool list"),
        },
        _ => panic!("expected a reply"),
    }
}

#[test]
fn contract_tools_call_ping() {
    let rt = ping_runtime();
    let params = CallParams { name: Some("contract_ping".into()), arguments: None };
    match rt.dispatch(request(3, "tools/call", Some(params))) {
        McpStep::Call { id, index, name, arguments } => {
            assert_eq!(rt.tool_handle(index).copied(), Some("ping-handle"));
            assert!(rt.tool_handle(9).is_none());
            assert_eq!(arguments, object(&[]));
            let out = ToolOutcome::Finished(ToolResult { success: true, output: "pong".into(), error: None });
            let resp = rt.finish_tool_call(id, &name, out);
            assert!(matches!(resp.result, Some(McpResult::ToolCall { ref text, is_error: false }) if text == "pong"));
        }
        _ => panic!("expected a tool call"),
    }
}

fn error_reply(step: McpStep) -> (i32, String) {
    match step {
        McpStep::Reply(r) => {
            let e = r.error.expect("expected an error response");
            (e.code, e.message)
        }
        _ => panic!("expected a reply"),
    }
}

#[test]
fn mcp_dispatch_errors() {
    let rt = ping_runtime();
    assert_eq!(error_reply(rt.dispatch(request(4, "tools/call", None))), (INVALID_PARAMS, "missing params".to_string()));
    let nameless = CallParams { name: None, arguments: None };
    assert_eq!(
        error_reply(rt.dispatch(request(5, "tools/call", Some(nameless)))),
        (INVALID_PARAMS, "tools/call requires name".to_string())
    );
    let other = CallParams { name: Some("other".into()), arguments: None };
    assert_eq!(
        error_reply(rt.dispatch(request(6, "tools/call", Some(other)))),
        (INVALID_PARAMS, "tool `other` is not on the mcp_serve allowlist".to_string())
    );
    let missing = CallParams { name: Some("missing".into()), arguments: None };
    assert_eq!(
        error_reply(rt.dispatch(request(7, "tools/call", Some(missing)))),
        (INVALID_PARAMS, "tool `missing` not available".to_string())
    );
    assert_eq!(error_reply(rt.dispatch(request(8, "nope", None))), (METHOD_NOT_FOUND, "method not found: nope".to_string()));
    assert!(matches!(rt.dispatch(request(9, "notifications/initialized", None)), McpStep::NoReply));
    assert!(matches!(rt.dispatch(request(10, "ping", None)), McpStep::Reply(r) if matches!(r.result, Some(McpResult::Empty))));
    let parse = rt.handle_parsed_line(Err("EOF while parsing".into()));
    assert_eq!(error_reply(parse), (PARSE_ERROR, "Parse error: EOF while parsing".to_string()));
}

#[test]
fn tool_call_outcomes() {
    let rt = ping_runtime();
    let text_of = |o: ToolOutcome| match rt.finish_tool_call(None, "contract_ping", o).result {
        Some(McpResult::ToolCall { text, is_error }) => (text, is_error),
        _ => panic!("expected a tool call result"),
    };
    let failed = ToolResult { success: false, output: "out".into(), error: Some("bad".into()) };
    assert_eq!(text_of(ToolOutcome::Finished(failed)), ("bad".to_string(), true));
    let failed_no_err = ToolResult { success: false, output: "out".into(), error: None };
    assert_eq!(text_of(ToolOutcome::Finished(failed_no_err)), ("out".to_string(), true));
    assert_eq!(text_of(ToolOutcome::Failed("boom".into())), ("execution error: boom".to_string(), true));
    assert_eq!(text_of(ToolOutcome::TimedOut), ("tool `contract_ping` timed out after 5s".to_string(), true));
    assert_eq!(rt.timeout_secs(), 5);
}

#[test]
fn runtime_takes_first_entry_of_each_name() {
    let spec = |n: &str| ToolSpec { name: n.into(), description: "".into(), parameters: object(&[]) };
    let registry = vec![(spec("a"), 1u8), (spec("b"), 2u8), (spec("a"), 3u8)];
    let rt = McpServeRuntime::from_parts(strings(&["a", "a", "c"]), registry, 2).ok().unwrap();
    assert_eq!(rt.tool_handle(0), Some(&1u8));
    assert_eq!(rt.tool_handle(1), Some(&3u8));
    assert_eq!(rt.tool_handle(2), None);
    let registry = vec![(spec("a"), 1u8), (spec("b"), 2u8), (spec("a"), 3u8)];
    let rt = McpServeRuntime::from_parts(strings(&["a", "b"]), registry, 2).ok().unwrap();
    assert_eq!(rt.tool_handle(0), Some(&1u8));
    assert_eq!(rt.tool_handle(1), Some(&2u8));
}

#[test]
fn runtime_needs_a_matching_tool() {
    let registry = vec![(ToolSpec { name: "a".into(), description: "".into(), parameters: object(&[]) }, 1u8)];
    let err = McpServeRuntime::from_parts(strings(&["b"]), registry, 0).err().unwrap();
    assert_eq!(err, "mcp serve: no tools matched the allowlist (check tool names against `zeroclaw` registry)");
    let registry2 = vec![(ToolSpec { name: "a".into(), description: "".into(), parameters: object(&[]) }, 1u8)];
    let rt = McpServeRuntime::from_parts(strings(&["a"]), registry2, 0).ok().unwrap();
    assert_eq!(rt.timeout_secs(), 1);
}

// ── shell tool and engine ──────────────────────────────────────

fn engine() -> ShellEngine<(), (), NoopSandbox> {
    ShellEngine::new(ShellSection::default_section(), (), (), NoopSandbox).unwrap()
}

#[test]
fn shell_tool_name() {
    let tool = ShellTool::from_engine(Arc::new(engine()));
    assert_eq!(tool.name(), "shell");
}

#[test]
fn shell_tool_description() {
    let tool = ShellTool::from_engine(Arc::new(engine()));
    assert!(!tool.description().is_empty());
}

#[test]
fn shell_tool_schema_has_command() {
    let tool = ShellTool::from_engine(Arc::new(engine()));
    let schema = tool.parameters_schema();
    assert!(schema.properties.iter().any(|p| p.name == "command" && p.kind == "string"));
    assert!(schema.required.contains(&"command".to_string()));
    assert!(schema.properties.iter().any(|p| p.name == "approved" && p.default_false));
}

#[test]
fn shell_tool_args() {
    let tool = ShellTool::new((), ());
    let missing = tool.command_from_args(ShellToolArgs { command: None, approved: Some(true) });
    assert_eq!(missing, Err("Missing 'command' parameter".to_string()));
    let ok = tool.command_from_args(ShellToolArgs { command: Some("ls".into()), approved: None });
    assert_eq!(ok, Ok(("ls".to_string(), false)));
    assert_eq!(tool.engine().profile_status_line(), "Profile: Safe (Safe) | Validators: 1");
}

#[test]
fn shell_tool_can_be_constructed_with_sandbox() {
    let tool = ShellTool::new_with_sandbox((), (), NoopSandbox);
    assert_eq!(tool.engine().timeout_secs(), 60);
    assert!(!tool.engine().login_shell());
}

#[test]
fn shell_profiles_resolve() {
    let mut s = ShellSection::default_section();
    s.profile = "  BALANCED ".into();
    assert!(matches!(resolve_shell_profile(&s).unwrap().kind, ShellProfileKind::Balanced));
    s.profile = "mine".into();
    s.profiles = vec![ShellProfileEntry { id: "Mine".into(), extends: "autonomous".into() }];
    let r = resolve_shell_profile(&s).unwrap();
    assert!(matches!(r.kind, ShellProfileKind::Autonomous));
    assert_eq!(r.custom_id.as_deref(), Some("Mine"));
    s.profile = "ghost".into();
    assert!(matches!(resolve_shell_profile(&s), Err(ShellProfileError::UnknownProfile(_))));
    s.profile = "mine".into();
    s.profiles = vec![ShellProfileEntry { id: "mine".into(), extends: "weird".into() }];
    assert!(matches!(resolve_shell_profile(&s), Err(ShellProfileError::InvalidExtends(_))));
}

#[test]
fn validators_reject_as_documented() {
    let v = ExtraForbiddenPathsValidator { paths: strings(&["  /etc/shadow ", ""]) };
    assert_eq!(
        v.validate("cat /etc/shadow"),
        Err("blocked by shell.safe.forbidden_paths (matched \"/etc/shadow\")".to_string())
    );
    assert!(v.validate("ls").is_ok());
    assert_eq!(NoNulByteValidator.validate("a\0b"), Err("command contains NUL byte".to_string()));
    let m = MaxLineLengthValidator { max_bytes: 3 };
    assert_eq!(m.validate("abcé"), Err("command exceeds max length (5 > 3)".to_string()));
    assert!(m.validate("abc").is_ok());
}

#[test]
fn engine_runs_commands_through_the_gates() {
    let e = engine();
    let mut step = e.start_command("echo hi");
    assert!(matches!(step, ShellStep::Ask(ShellGate::RateLimit)));
    step = e.after_gate("echo hi", GateAnswer::RateLimited(false));
    assert!(matches!(step, ShellStep::Ask(ShellGate::Policy)));
    step = e.after_gate("echo hi", GateAnswer::PolicyVerdict(Ok(())));
    assert!(matches!(step, ShellStep::Ask(ShellGate::ForbiddenPath)));
    step = e.after_gate("echo hi", GateAnswer::ForbiddenPathFound(None));
    assert!(matches!(step, ShellStep::Ask(ShellGate::RecordAction)));
    step = e.after_gate("echo hi", GateAnswer::ActionRecorded(true));
    assert!(matches!(step, ShellStep::Run(ref c) if c == "echo hi"));
    match e.after_gate("echo hi", GateAnswer::RateLimited(true)) {
        ShellStep::Done(r) => assert_eq!(r.error.as_deref(), Some("Rate limit exceeded: too many actions in the last hour")),
        _ => panic!("expected a refusal"),
    }
    match e.start_command("a\0b") {
        ShellStep::Done(r) => assert_eq!(r.error.as_deref(), Some("command contains NUL byte")),
        _ => panic!("expected a refusal"),
    }
    let done = e.finish_command(ExecOutcome::Completed { success: true, stdout: "hi\n".into(), stderr: "".into() });
    assert!(done.success);
    assert_eq!(done.output, "Profile: Safe (Safe) | Validators: 1\nhi\n");
    assert!(done.error.is_none());
    let timed = e.finish_command(ExecOutcome::TimedOut);
    assert_eq!(timed.error.as_deref(), Some("Profile: Safe (Safe) | Validators: 1\nCommand timed out after 60s and was killed"));
}

#[test]
fn output_cap_keeps_char_boundaries() {
    assert_eq!(cap_output("ééé".to_string(), 3, "~"), "é~");
    assert_eq!(cap_output("abc".to_string(), 3, "~"), "abc");
}

#[test]
fn output_cap_is_shared_by_stdout_and_stderr() {
    let e = engine();
    let header = "Profile: Safe (Safe) | Validators: 1\n";
    // Together under the budget: both streams kept whole.
    let stdout = "a".repeat(600_000);
    let stderr = "b".repeat(400_000);
    let r = e.finish_command(ExecOutcome::Completed { success: true, stdout: stdout.clone(), stderr: stderr.clone() });
    assert_eq!(r.output, format!("{header}{stdout}"));
    assert_eq!(r.error.as_deref(), Some(stderr.as_str()));
    // Each under 1 MiB, together over it: stderr gets what stdout left.
    let stderr = "b".repeat(600_000);
    let r = e.finish_command(ExecOutcome::Completed { success: true, stdout: stdout.clone(), stderr });
    assert_eq!(r.output, format!("{header}{stdout}"));
    let expected_err = format!("{}\n... [stderr truncated at 1MB]", "b".repeat(MAX_OUTPUT_BYTES - 600_000));
    assert_eq!(r.error.as_deref(), Some(expected_err.as_str()));
    // Stdout over the budget: stdout cut, nothing of stderr kept.
    let stdout = "é".repeat(600_000);
    let r = e.finish_command(ExecOutcome::Completed { success: true, stdout, stderr: "x".into() });
    assert_eq!(r.output, format!("{header}{}\n... [output truncated at 1MB]", "é".repeat(MAX_OUTPUT_BYTES / 2)));
    assert_eq!(r.error.as_deref(), Some("\n... [stderr truncated at 1MB]"));
    // A cut on a character boundary leaves a byte of budget for stderr.
    let stdout = format!("{}é", "a".repeat(MAX_OUTPUT_BYTES - 1));
    let r = e.finish_command(ExecOutcome::Completed { success: true, stdout, stderr: "xy".into() });
    assert_eq!(r.output, format!("{header}{}\n... [output truncated at 1MB]", "a".repeat(MAX_OUTPUT_BYTES - 1)));
    assert_eq!(r.error.as_deref(), Some("x\n... [stderr truncated at 1MB]"));
    assert_eq!(kept_len("aé", 2), 1);
    assert_eq!(kept_len("aé", 3), 3);
}

#[test]
fn cron_command_uses_login_flag() {
    let mut s = ShellSection::default_section();
    assert_eq!(build_std_command_for_cron(&s, "echo x"), Ok(strings(&["-c", "echo x"])));
    s.login_shell = true;
    assert_eq!(build_std_command_for_cron(&s, "echo x"), Ok(strings(&["-lc", "echo x"])));
    assert!(build_std_command_for_cron(&s, "a\0").is_err());
}

// ── skill shell tools ──────────────────────────────────────────

fn sample_skill_tool() -> SkillTool {
    SkillTool {
        name: "run_lint".to_string(),
        description: "Run the linter on a file".to_string(),
        kind: "shell".to_string(),
        command: "lint --file {{file}} --format {{format}}".to_string(),
        args: vec![
            ("file".to_string(), "The file to lint".to_string()),
            ("format".to_string(), "Output format (json|text)".to_string()),
        ],
    }
}

fn skill_tool(t: &SkillTool, skill: &str) -> SkillShellTool<(), (), (), NoopSandbox> {
    SkillShellTool::new(skill, t, (), Arc::new(engine()))
}

#[test]
fn skill_shell_tool_name_is_prefixed() {
    assert_eq!(skill_tool(&sample_skill_tool(), "my_skill").name(), "my_skill.run_lint");
}

#[test]
fn skill_shell_tool_description() {
    assert_eq!(skill_tool(&sample_skill_tool(), "my_skill").description(), "Run the linter on a file");
}

#[test]
fn skill_shell_tool_parameters_schema() {
    let schema = skill_tool(&sample_skill_tool(), "my_skill").build_parameters_schema();
    assert!(schema.properties.iter().any(|p| p.name == "file" && p.kind == "string"));
    assert!(schema.properties.iter().any(|p| p.name == "format"));
    assert_eq!(schema.required.len(), 2);
}

#[test]
fn skill_shell_tool_substitute_args() {
    let tool = skill_tool(&sample_skill_tool(), "my_skill");
    let result = tool.substitute_args(&vec![
        ("file".to_string(), Some("src/main.rs".to_string())),
        ("format".to_string(), Some("json".to_string())),
    ]);
    assert_eq!(result, "lint --file src/main.rs --format json");
}

#[test]
fn skill_shell_tool_substitute_missing_arg() {
    let tool = skill_tool(&sample_skill_tool(), "my_skill");
    let result = tool.substitute_args(&vec![("file".to_string(), Some("test.rs".to_string()))]);
    assert!(result.contains("{{format}}"));
    assert!(result.contains("test.rs"));
}

#[test]
fn skill_shell_tool_non_string_arg_is_empty() {
    let tool = skill_tool(&sample_skill_tool(), "my_skill");
    let result = tool.substitute_args(&vec![("file".to_string(), None)]);
    assert_eq!(result, "lint --file  --format {{format}}");
}

#[test]
fn skill_shell_tool_empty_args_schema() {
    let st = SkillTool {
        name: "simple".to_string(),
        description: "Simple tool".to_string(),
        kind: "shell".to_string(),
        command: "echo hello".to_string(),
        args: vec![],
    };
    let schema = skill_tool(&st, "s").build_parameters_schema();
    assert!(schema.properties.is_empty());
    assert!(schema.required.is_empty());
}

#[test]
fn skill_shell_tool_spec_roundtrip() {
    let tool = skill_tool(&sample_skill_tool(), "my_skill");
    assert_eq!(tool.name(), "my_skill.run_lint");
    assert_eq!(tool.description(), "Run the linter on a file");
    let schema = tool.build_parameters_schema();
    assert_eq!(schema.properties.len(), 2);
    assert_eq!(tool.args().len(), 2);
}
