use zeroclaw::channels::control_hub::{
    cli_run_result, combine_cli_output, dispatch_mcp, hub_help_text, hub_prefix_for_telegram, is_valid_telegram_command_token,
    parse_hub_invocation, plan_hub_dispatch, sanitize_bot_command_token, telegram_bot_command_rows,
    telegram_control_hub_should_handle, HubPlan, SkillMenuEntry, TelegramHubConfig,
};
use zeroclaw::channels::runtime_slash::{
    build_config_text_response, build_models_help_response, build_providers_help_response, cached_model_preview,
    parse_gateway_ws_slash, parse_runtime_slash, resolve_provider_alias, supports_runtime_model_switch,
    ModelCacheEntry, ModelRouteConfig, ParsedRuntimeSlash, ProviderInfo, SlashRouteSelection,
};

fn strings(items: &[&str]) -> Vec<String> {
    items.iter().map(|s| s.to_string()).collect()
}

// ── control hub ────────────────────────────────────────────────

#[test]
fn parse_hub_basic() {
    assert_eq!(
        parse_hub_invocation("/z skills list", "z"),
        Some(vec!["skills".to_string(), "list".to_string()])
    );
    assert_eq!(
        parse_hub_invocation("/z@mybot channel list", "z"),
        Some(vec!["channel".to_string(), "list".to_string()])
    );
    assert!(parse_hub_invocation("/x a", "z").is_none());
    assert!(parse_hub_invocation("z a", "z").is_none());
}

#[test]
fn telegram_command_token_validation() {
    assert!(is_valid_telegram_command_token("z"));
    assert!(is_valid_telegram_command_token("z_tools"));
    assert!(!is_valid_telegram_command_token(""));
    assert!(!is_valid_telegram_command_token("a/b"));
}

#[test]
fn sanitize_skill_name_for_menu() {
    assert_eq!(sanitize_bot_command_token("My-Skill"), "my_skill");
}

#[test]
fn sanitized_names_are_tokens() {
    let long = "A".repeat(40);
    let s = sanitize_bot_command_token(&long);
    assert_eq!(s.len(), 32);
    assert!(is_valid_telegram_command_token(&s));
    assert_eq!(sanitize_bot_command_token(" ?! "), "");
}

fn hub(enabled: bool, prefix: &str) -> Option<TelegramHubConfig> {
    Some(TelegramHubConfig { control_hub_enabled: enabled, control_hub_prefix: prefix.to_string() })
}

#[test]
fn hub_prefix_and_handling() {
    assert_eq!(hub_prefix_for_telegram(&hub(true, " zc ")), Some("zc".to_string()));
    assert_eq!(hub_prefix_for_telegram(&hub(false, "zc")), None);
    assert_eq!(hub_prefix_for_telegram(&None), None);
    assert!(telegram_control_hub_should_handle(&hub(true, "z"), "telegram", "/z skills"));
    assert!(!telegram_control_hub_should_handle(&hub(true, "z"), "discord", "/z skills"));
    assert!(!telegram_control_hub_should_handle(&hub(true, "z"), "telegram", "/other"));
}

#[test]
fn help_text_uses_prefix() {
    let t = hub_help_text(&hub(true, "  "));
    assert!(t.starts_with("ZeroClaw control hub — send `/z <topic> …`."));
    assert!(hub_help_text(&hub(true, "q")).contains("`/q cron list`"));
}

#[test]
fn bot_command_rows_include_hub_and_skills() {
    let skills = vec![
        SkillMenuEntry { name: "My-Skill".into(), description: "d".repeat(300), user_invocable: true },
        SkillMenuEntry { name: "hidden".into(), description: "x".into(), user_invocable: false },
        SkillMenuEntry { name: "new".into(), description: "dup".into(), user_invocable: true },
    ];
    let rows = telegram_bot_command_rows(&hub(true, "z"), &skills);
    let names: Vec<&str> = rows.iter().map(|r| r.0.as_str()).collect();
    assert_eq!(names, vec!["new", "models", "model", "config", "z", "my_skill"]);
    assert_eq!(rows[5].1, format!("{}...", "d".repeat(237)));
}

fn run_args(p: HubPlan) -> Vec<String> {
    match p {
        HubPlan::RunCli(v) => v,
        _ => panic!("expected a CLI run"),
    }
}

fn fail_text(p: HubPlan) -> String {
    match p {
        HubPlan::Fail(m) => m,
        _ => panic!("expected a failure"),
    }
}

#[test]
fn hub_dispatch_plans() {
    assert!(matches!(plan_hub_dispatch(&vec![], true, "help"), HubPlan::Help));
    assert!(matches!(plan_hub_dispatch(&strings(&["skills"]), true, "h"), HubPlan::ListSkills));
    assert_eq!(run_args(plan_hub_dispatch(&strings(&["cron"]), true, "h")), strings(&["cron", "list"]));
    assert_eq!(
        run_args(plan_hub_dispatch(&strings(&["cron", "add", "*/5 * * * *", "echo", "hi"]), true, "h")),
        strings(&["cron", "add", "*/5 * * * *", "echo hi"])
    );
    assert_eq!(fail_text(plan_hub_dispatch(&strings(&["cron", "add", "x"]), true, "h")), "usage: cron add <cron-expr> <command…>");
    assert_eq!(
        run_args(plan_hub_dispatch(&strings(&["memory"]), true, "h")),
        strings(&["memory", "list", "--limit", "50"])
    );
    assert_eq!(
        fail_text(plan_hub_dispatch(&strings(&["estop", "status"]), false, "h")),
        "estop is disabled in config ([security.estop].enabled = false)."
    );
    assert_eq!(fail_text(plan_hub_dispatch(&strings(&["memory", "wipe"]), true, "h")), "unknown memory subcommand `wipe`");
    assert_eq!(fail_text(plan_hub_dispatch(&strings(&["bogus"]), true, "HELP")), "Unknown hub topic `bogus`.\nHELP");
    assert_eq!(
        run_args(plan_hub_dispatch(&strings(&["skills", "install", "https://x"]), true, "h")),
        strings(&["skills", "install", "https://x"])
    );
}

#[test]
fn hub_mcp_is_refused() {
    assert_eq!(
        dispatch_mcp(&strings(&["serve"])),
        Err("`mcp serve` starts a long-running MCP server and is not supported from Telegram. Run `zeroclaw mcp serve` on the host.".to_string())
    );
    assert_eq!(dispatch_mcp(&vec![]), Err("usage: mcp serve (not supported here — use host CLI)".to_string()));
}

#[test]
fn cli_output_and_failure_text() {
    assert_eq!(combine_cli_output("out", "err"), "out\nerr");
    assert_eq!(combine_cli_output("out\n", "err"), "out\nerr");
    assert_eq!(combine_cli_output("", "err"), "err");
    assert_eq!(cli_run_result(&strings(&["a"]), true, Some(0), "ok", ""), Ok("ok".to_string()));
    assert_eq!(
        cli_run_result(&strings(&["cron", "list"]), false, Some(2), "", "bad"),
        Err("zeroclaw [\"cron\", \"list\"] exited with 2\nbad".to_string())
    );
    assert_eq!(cli_run_result(&vec![], false, None, "", ""), Err("zeroclaw [] exited with -1\n".to_string()));
}

// ── runtime slash ──────────────────────────────────────────────

#[test]
fn gateway_supports_model_slash() {
    assert!(supports_runtime_model_switch("gateway"));
    assert!(parse_runtime_slash("gateway", "/models").is_some());
    assert!(parse_runtime_slash("gateway", "/model").is_some());
    assert!(parse_runtime_slash("gateway", "/config").is_some());
    assert!(parse_runtime_slash("imessage", "/models").is_none());
}

#[test]
fn parse_reset_as_new_session() {
    assert!(matches!(parse_gateway_ws_slash("/reset"), Some(ParsedRuntimeSlash::NewSession)));
    assert!(matches!(parse_gateway_ws_slash("  /RESET  "), Some(ParsedRuntimeSlash::NewSession)));
}

#[test]
fn parse_new_session() {
    assert!(matches!(parse_runtime_slash("gateway", "/new"), Some(ParsedRuntimeSlash::NewSession)));
}

#[test]
fn parse_switch_commands() {
    match parse_runtime_slash("telegram", "/models openai") {
        Some(ParsedRuntimeSlash::SetProvider(p)) => assert_eq!(p, "openai"),
        _ => panic!("expected a provider switch"),
    }
    match parse_runtime_slash("telegram", "/model gpt-4o") {
        Some(ParsedRuntimeSlash::SetModel(m)) => assert_eq!(m, "gpt-4o"),
        _ => panic!("expected a model switch"),
    }
    assert!(parse_runtime_slash("telegram", "hello").is_none());
}

fn providers() -> Vec<ProviderInfo> {
    vec![
        ProviderInfo { name: "openrouter".into(), aliases: vec![] },
        ProviderInfo { name: "acme".into(), aliases: strings(&["ac"]) },
    ]
}

fn current() -> SlashRouteSelection {
    SlashRouteSelection { provider: "openrouter".into(), model: "m1".into(), api_key: None }
}

#[test]
fn provider_aliases_resolve() {
    assert_eq!(resolve_provider_alias("AC", &providers()), Some("acme".to_string()));
    assert_eq!(resolve_provider_alias("OPENROUTER", &providers()), Some("openrouter".to_string()));
    assert_eq!(resolve_provider_alias("nope", &providers()), None);
}

#[test]
fn help_responses_exact_text() {
    assert_eq!(
        build_providers_help_response(&current(), &providers()),
        "Current provider: `openrouter`\nCurrent model: `m1`\n\nSwitch provider with `/models <provider>`.\nSwitch model with `/model <model-id>`.\n\nAvailable providers:\n- openrouter\n- acme (aliases: ac)\n"
    );
    let routes = vec![ModelRouteConfig { hint: "fast".into(), provider: "groq".into(), model: "llama".into(), api_key: None }];
    assert_eq!(
        build_models_help_response(&current(), &routes, &strings(&["a", "b"])),
        "Current provider: `openrouter`\nCurrent model: `m1`\n\nSwitch model with `/model <model-id>` or `/model <hint>`.\n\nConfigured model routes:\n  `fast` → llama (groq)\n\nCached model IDs (top 2):\n- `a`\n- `b`\n"
    );
    assert!(build_models_help_response(&current(), &[], &vec![])
        .ends_with("No cached model list found for `openrouter`. Ask the operator to run `zeroclaw models refresh --provider openrouter`.\n"));
    assert_eq!(
        build_config_text_response(&current(), &routes, &providers()),
        "Current provider: `openrouter`\nCurrent model: `m1`\n\nAvailable providers:\n- `openrouter`\n- `acme`\n\nConfigured model routes:\n  `fast` -> llama (groq)\n\nUse `/models <provider>` to switch provider.\nUse `/model <model-id>` to switch model."
    );
}

#[test]
fn cached_preview_is_limited() {
    let many: Vec<String> = (0..15).map(|i| format!("m{i}")).collect();
    let entries = vec![ModelCacheEntry { provider: "p".into(), models: many }];
    let v = cached_model_preview(&entries, "p");
    assert_eq!(v.len(), 10);
    assert_eq!(v[0], "m0");
    assert!(cached_model_preview(&entries, "q").is_empty());
}
