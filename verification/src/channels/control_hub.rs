//! Telegram **control hub** — pre-LLM slash-style dispatch for safe read-mostly
//! operations and selected `zeroclaw` CLI mirrors.
//!
//! Parsing, menu rows and the dispatch decision are made here; running the
//! `zeroclaw` CLI and listing installed skills are the host's part.

use vstd::prelude::*;
use crate::text::{
    before_char, before_char_chars, chars_eq, chars_of, has_prefix, is_ascii_alnum, is_ascii_alnum_char,
    join, join_strings, lower, lower_chars, owned_strings, split_whitespace_chars,
    starts_with_chars, string_of, take_chars_exec, trim, trim_chars, views, words, has_suffix,
    ends_with_chars,
};

verus! {

/// The control-hub part of `[channels_config.telegram]`.
pub struct TelegramHubConfig {
    pub control_hub_enabled: bool,
    pub control_hub_prefix: String,
}

/// A loaded skill as far as the Telegram command menu needs it.
pub struct SkillMenuEntry {
    pub name: String,
    pub description: String,
    pub user_invocable: bool,
}

/// What [`parse_hub_invocation`] returns.
pub open spec fn hub_invocation(content: Seq<char>, prefix: Seq<char>) -> Option<Seq<Seq<char>>> {
    let t = trim(content);
    let ws = words(t);
    if !has_prefix(t, "/"@) || ws.len() == 0 || !has_prefix(ws[0], "/"@) {
        None
    } else if before_char(ws[0].subrange(1, ws[0].len() as int), '@') != prefix {
        None
    } else {
        Some(ws.subrange(1, ws.len() as int))
    }
}

pub open spec fn opt_views(o: Option<Vec<String>>) -> Option<Seq<Seq<char>>> {
    match o {
        Some(v) => Some(views(v@)),
        None => None,
    }
}

/// Strip a leading `/<prefix>` or `/<prefix>@botname` and return whitespace-split args.
/// `prefix` must not include a leading slash (e.g. `"z"` for `/z skills list`).
pub fn parse_hub_invocation(content: &str, prefix: &str) -> (r: Option<Vec<String>>)
    ensures
        opt_views(r) == hub_invocation(content@, prefix@),
{
    let t = trim_chars(&chars_of(content));
    let slash = chars_of("/");
    if !starts_with_chars(&t, &slash) {
        return None;
    }
    let ws = split_whitespace_chars(&t);
    if ws.len() == 0 {
        return None;
    }
    let tok = chars_of(ws[0].as_str());
    if !starts_with_chars(&tok, &slash) {
        return None;
    }
    proof {
        reveal_strlit("/");
    }
    let rest = crate::text::slice_chars(&tok, 1, tok.len());
    let base = before_char_chars(&rest, '@');
    if !chars_eq(&base, &chars_of(prefix)) {
        return None;
    }
    let mut out: Vec<String> = Vec::new();
    let mut i: usize = 1;
    while i < ws.len()
        invariant
            1 <= i <= ws@.len(),
            views(out@) == views(ws@).subrange(1, i as int),
        decreases ws@.len() - i,
    {
        let x = ws[i].clone();
        let ghost prev = out@;
        out.push(x);
        proof {
            assert(views(out@) =~= views(prev).push(x@));
            assert(views(out@) =~= views(ws@).subrange(1, i + 1));
        }
        i = i + 1;
    }
    Some(out)
}

/// A Telegram bot command: 1–32 characters from `[A-Za-z0-9_]`.
pub open spec fn valid_command_token(s: Seq<char>) -> bool {
    &&& 0 < s.len() <= 32
    &&& forall|i: int| 0 <= i < s.len() ==> is_ascii_alnum(#[trigger] s[i]) || s[i] == '_'
}

pub fn is_valid_telegram_command_token(s: &str) -> (r: bool)
    ensures
        r == valid_command_token(s@),
{
    let c = chars_of(s);
    if c.len() == 0 || c.len() > 32 {
        return false;
    }
    let mut i: usize = 0;
    while i < c.len()
        invariant
            i <= c@.len(),
            c@ == s@,
            forall|j: int| 0 <= j < i ==> is_ascii_alnum(#[trigger] c@[j]) || c@[j] == '_',
        decreases c@.len() - i,
    {
        if !(is_ascii_alnum_char(c[i]) || c[i] == '_') {
            proof {
                assert(!(is_ascii_alnum(s@[i as int]) || s@[i as int] == '_'));
            }
            return false;
        }
        i = i + 1;
    }
    true
}

/// The hub prefix when the hub is enabled and its (trimmed) prefix is a valid command token.
pub open spec fn hub_prefix(tg: Option<TelegramHubConfig>) -> Option<Seq<char>> {
    match tg {
        Some(t) => if t.control_hub_enabled && valid_command_token(trim(t.control_hub_prefix@)) {
            Some(trim(t.control_hub_prefix@))
        } else {
            None
        },
        None => None,
    }
}

pub open spec fn opt_string_view(o: Option<String>) -> Option<Seq<char>> {
    match o {
        Some(s) => Some(s@),
        None => None,
    }
}

pub fn hub_prefix_for_telegram(tg: &Option<TelegramHubConfig>) -> (r: Option<String>)
    ensures
        opt_string_view(r) == hub_prefix(*tg),
{
    match tg {
        None => None,
        Some(t) => {
            if !t.control_hub_enabled {
                return None;
            }
            let p = string_of(&trim_chars(&chars_of(t.control_hub_prefix.as_str())));
            if p.as_str().is_empty() || !is_valid_telegram_command_token(p.as_str()) {
                return None;
            }
            Some(p)
        },
    }
}

/// `true` when this inbound message should be handled by the control hub (Telegram only).
pub fn telegram_control_hub_should_handle(tg: &Option<TelegramHubConfig>, channel: &str, content: &str) -> (r: bool)
    ensures
        r == (channel@ == "telegram"@ && hub_prefix(*tg) is Some && hub_invocation(
            content@,
            hub_prefix(*tg)->0,
        ) is Some),
{
    if !chars_eq(&chars_of(channel), &chars_of("telegram")) {
        return false;
    }
    match hub_prefix_for_telegram(tg) {
        None => false,
        Some(p) => parse_hub_invocation(content, p.as_str()).is_some(),
    }
}

/// Folds one character into a sanitized command token.
pub open spec fn sanitize_step(acc: Seq<char>, c: char) -> Seq<char> {
    if (is_ascii_alnum(c) || c == '_') && acc.len() < 32 {
        acc.push(c)
    } else if c == '-' && acc.len() < 32 {
        acc.push('_')
    } else {
        acc
    }
}

/// `acc` extended with the sanitized characters of `s`.
pub open spec fn sanitize_fold(acc: Seq<char>, s: Seq<char>) -> Seq<char>
    decreases s.len(),
{
    if s.len() == 0 {
        acc
    } else {
        sanitize_fold(sanitize_step(acc, s[0]), s.subrange(1, s.len() as int))
    }
}

/// A skill name as a command token: trimmed, lower-cased, `-` as `_`, other
/// characters dropped, at most 32 characters kept.
pub open spec fn sanitized(name: Seq<char>) -> Seq<char> {
    sanitize_fold(Seq::empty(), lower(trim(name)))
}

pub fn sanitize_bot_command_token(name: &str) -> (r: String)
    ensures
        r@ == sanitized(name@),
{
    let l = lower_chars(&trim_chars(&chars_of(name)));
    let mut out: Vec<char> = Vec::new();
    let mut i: usize = 0;
    proof {
        assert(l@.subrange(0, l@.len() as int) =~= l@);
    }
    while i < l.len()
        invariant
            i <= l@.len(),
            sanitized(name@) == sanitize_fold(out@, l@.subrange(i as int, l@.len() as int)),
        decreases l@.len() - i,
    {
        let c = l[i];
        proof {
            let rest = l@.subrange(i as int, l@.len() as int);
            assert(rest[0] == c);
            assert(rest.subrange(1, rest.len() as int) =~= l@.subrange(i + 1, l@.len() as int));
        }
        if (is_ascii_alnum_char(c) || c == '_') && out.len() < 32 {
            out.push(c);
        } else if c == '-' && out.len() < 32 {
            out.push('_');
        }
        i = i + 1;
    }
    proof {
        assert(l@.subrange(i as int, l@.len() as int) =~= Seq::<char>::empty());
    }
    string_of(&out)
}

/// Sanitizing keeps the text a valid command token, or empty.
pub proof fn lemma_sanitize_fold_valid(acc: Seq<char>, s: Seq<char>)
    requires
        acc.len() <= 32,
        forall|i: int| 0 <= i < acc.len() ==> is_ascii_alnum(#[trigger] acc[i]) || acc[i] == '_',
    ensures
        sanitize_fold(acc, s).len() <= 32,
        forall|i: int| 0 <= i < sanitize_fold(acc, s).len() ==> is_ascii_alnum(#[trigger] sanitize_fold(acc, s)[i])
            || sanitize_fold(acc, s)[i] == '_',
    decreases s.len(),
{
    if s.len() > 0 {
        let next = sanitize_step(acc, s[0]);
        assert forall|i: int| 0 <= i < next.len() implies is_ascii_alnum(#[trigger] next[i]) || next[i] == '_' by {
            if i < acc.len() {
                assert(next[i] == acc[i]);
            }
        }
        lemma_sanitize_fold_valid(next, s.subrange(1, s.len() as int));
    }
}

/// Every sanitized skill name is a valid Telegram command token or empty.
pub proof fn lemma_sanitized_is_token_or_empty(name: Seq<char>)
    ensures
        sanitized(name).len() == 0 || valid_command_token(sanitized(name)),
{
    lemma_sanitize_fold_valid(Seq::empty(), lower(trim(name)));
}

/// The built-in menu rows.
pub open spec fn builtin_rows() -> Seq<(Seq<char>, Seq<char>)> {
    seq![
        ("new"@, "Clear this chat's session and start fresh"@),
        ("models"@, "List or switch LLM provider for this chat"@),
        ("model"@, "Show or set the model id for this chat"@),
        ("config"@, "Show routing / model configuration summary"@),
    ]
}

/// A skill description shortened to at most 240 characters.
pub open spec fn menu_description(d: Seq<char>) -> Seq<char> {
    if d.len() > 240 {
        d.subrange(0, 237) + "..."@
    } else {
        d
    }
}

/// Rows extended with the menu entries of `skills[i..]`: user-invocable skills
/// whose sanitized name is non-empty and not already a row.
pub open spec fn add_skill_rows(rows: Seq<(Seq<char>, Seq<char>)>, skills: Seq<SkillMenuEntry>, i: int) -> Seq<(Seq<char>, Seq<char>)>
    decreases skills.len() - i,
{
    if i >= skills.len() {
        rows
    } else {
        let s = skills[i];
        let cmd = sanitized(s.name@);
        if !s.user_invocable || cmd.len() == 0 || exists|k: int| 0 <= k < rows.len() && (#[trigger] rows[k]).0 == cmd {
            add_skill_rows(rows, skills, i + 1)
        } else {
            add_skill_rows(rows.push((cmd, menu_description(s.description@))), skills, i + 1)
        }
    }
}

/// What [`telegram_bot_command_rows`] returns.
pub open spec fn command_rows(tg: Option<TelegramHubConfig>, skills: Seq<SkillMenuEntry>) -> Seq<(Seq<char>, Seq<char>)> {
    let base = match hub_prefix(tg) {
        Some(p) => builtin_rows().push((p, "Control hub: skills, cron, memory, channel, \u{2026} (see docs)"@)),
        None => builtin_rows(),
    };
    add_skill_rows(base, skills, 0)
}

pub open spec fn pair_views(v: Seq<(String, String)>) -> Seq<(Seq<char>, Seq<char>)> {
    v.map_values(|p: (String, String)| (p.0@, p.1@))
}

fn push_row(rows: &mut Vec<(String, String)>, a: &str, b: &str)
    ensures
        pair_views(final(rows)@) == pair_views(old(rows)@).push((a@, b@)),
{
    rows.push((a.to_owned(), b.to_owned()));
    proof {
        assert(pair_views(final(rows)@) =~= pair_views(old(rows)@).push((a@, b@)));
    }
}

fn has_row(rows: &Vec<(String, String)>, cmd: &str) -> (r: bool)
    ensures
        r == exists|k: int| 0 <= k < pair_views(rows@).len() && (#[trigger] pair_views(rows@)[k]).0 == cmd@,
{
    let mut k: usize = 0;
    while k < rows.len()
        invariant
            k <= rows@.len(),
            forall|j: int| 0 <= j < k ==> (#[trigger] pair_views(rows@)[j]).0 != cmd@,
        decreases rows@.len() - k,
    {
        if rows[k].0 == cmd.to_owned() {
            proof {
                assert(pair_views(rows@)[k as int].0 == cmd@);
            }
            return true;
        }
        k = k + 1;
    }
    false
}

/// Build `BotCommand.command` values for Telegram `setMyCommands` (no leading
/// slash): the built-ins, the hub prefix when the hub is enabled, then one row
/// per user-invocable skill (the installed skills are listed by the host).
pub fn telegram_bot_command_rows(tg: &Option<TelegramHubConfig>, skills: &[SkillMenuEntry]) -> (r: Vec<(String, String)>)
    ensures
        pair_views(r@) == command_rows(*tg, skills@),
{
    let mut rows: Vec<(String, String)> = Vec::new();
    proof {
        assert(pair_views(rows@) =~= Seq::<(Seq<char>, Seq<char>)>::empty());
    }
    push_row(&mut rows, "new", "Clear this chat's session and start fresh");
    push_row(&mut rows, "models", "List or switch LLM provider for this chat");
    push_row(&mut rows, "model", "Show or set the model id for this chat");
    push_row(&mut rows, "config", "Show routing / model configuration summary");
    proof {
        assert(pair_views(rows@) =~= builtin_rows());
    }
    match hub_prefix_for_telegram(tg) {
        Some(p) => push_row(&mut rows, p.as_str(), "Control hub: skills, cron, memory, channel, \u{2026} (see docs)"),
        None => {},
    }
    let mut i: usize = 0;
    while i < skills.len()
        invariant
            i <= skills@.len(),
            command_rows(*tg, skills@) == add_skill_rows(pair_views(rows@), skills@, i as int),
        decreases skills@.len() - i,
    {
        let s = &skills[i];
        if s.user_invocable {
            let cmd = sanitize_bot_command_token(s.name.as_str());
            if !cmd.as_str().is_empty() && !has_row(&rows, cmd.as_str()) {
                let d = chars_of(s.description.as_str());
                let desc = if d.len() > 240 {
                    let mut h = string_of(&take_chars_exec(&d, 237));
                    h.push_str("...");
                    h
                } else {
                    s.description.clone()
                };
                proof {
                    assert(desc@ == menu_description(s.description@));
                }
                let ghost prev = rows@;
                let ghost cv = cmd@;
                rows.push((cmd, desc));
                proof {
                    assert(pair_views(rows@) =~= pair_views(prev).push((sanitized(s.name@), menu_description(s.description@))));
                }
            }
        }
        i = i + 1;
    }
    rows
}

/// What the hub does with a message's arguments.
pub enum HubPlan {
    /// Reply with the hub help text.
    Help,
    /// Reply with the installed skills (listed by the host).
    ListSkills,
    /// Run the `zeroclaw` CLI with these arguments and reply with its output.
    RunCli(Vec<String>),
    /// Reply with this error.
    Fail(String),
}

/// A hub plan over plain text values.
pub enum HubAction {
    Help,
    ListSkills,
    RunCli(Seq<Seq<char>>),
    Fail(Seq<char>),
}

impl View for HubPlan {
    type V = HubAction;

    open spec fn view(&self) -> HubAction {
        match self {
            HubPlan::Help => HubAction::Help,
            HubPlan::ListSkills => HubAction::ListSkills,
            HubPlan::RunCli(v) => HubAction::RunCli(views(v@)),
            HubPlan::Fail(m) => HubAction::Fail(m@),
        }
    }
}

/// The prefix shown in help: the configured one (trimmed) when non-empty, else `z`.
pub open spec fn help_prefix(tg: Option<TelegramHubConfig>) -> Seq<char> {
    match tg {
        Some(t) => if trim(t.control_hub_prefix@).len() > 0 {
            trim(t.control_hub_prefix@)
        } else {
            "z"@
        },
        None => "z"@,
    }
}

/// Text of [`hub_help_text`].
pub open spec fn help_text(p: Seq<char>) -> Seq<char> {
    "ZeroClaw control hub \u{2014} send `/"@ + p + " <topic> \u{2026}`.\nTopics: skills, mcp, shell, cron, memory, hardware, estop, channel, config.\nExample: `/"@
        + p + " skills list`, `/"@ + p
        + " cron list`.\n`mcp serve` is not available here (long-running); use the host CLI.\n`estop resume` may require OTP \u{2014} use `zeroclaw estop` on the host if prompted."@
}

pub fn hub_help_text(tg: &Option<TelegramHubConfig>) -> (r: String)
    ensures
        r@ == help_text(help_prefix(*tg)),
{
    let prefix = match tg {
        Some(t) => {
            let p = trim_chars(&chars_of(t.control_hub_prefix.as_str()));
            if p.len() > 0 {
                string_of(&p)
            } else {
                "z".to_owned()
            }
        },
        None => "z".to_owned(),
    };
    let mut s = "ZeroClaw control hub \u{2014} send `/".to_owned();
    s.push_str(prefix.as_str());
    s.push_str(" <topic> \u{2026}`.\nTopics: skills, mcp, shell, cron, memory, hardware, estop, channel, config.\nExample: `/");
    s.push_str(prefix.as_str());
    s.push_str(" skills list`, `/");
    s.push_str(prefix.as_str());
    s.push_str(" cron list`.\n`mcp serve` is not available here (long-running); use the host CLI.\n`estop resume` may require OTP \u{2014} use `zeroclaw estop` on the host if prompted.");
    proof {
        assert(s@ =~= help_text(help_prefix(*tg)));
    }
    s
}

/// ``<what> `<other>` `` errors for unknown subcommands.
pub open spec fn unknown_sub(topic: Seq<char>, other: Seq<char>) -> Seq<char> {
    "unknown "@ + topic + " subcommand `"@ + other + "`"@
}

/// What [`plan_hub_dispatch`] decides for arguments `args` (already split; e.g. `["skills","list"]`).
pub open spec fn hub_plan(args: Seq<Seq<char>>, estop_enabled: bool, help: Seq<char>) -> HubAction {
    if args.len() == 0 {
        HubAction::Help
    } else {
        let topic = args[0];
        let tail = args.subrange(1, args.len() as int);
        let has1 = tail.len() > 0;
        let f = if has1 { tail[0] } else { Seq::empty() };
        if topic == "skills"@ {
            if !has1 || f == "list"@ {
                HubAction::ListSkills
            } else if f == "install"@ {
                if tail.len() > 1 { HubAction::RunCli(seq!["skills"@, "install"@, tail[1]]) }
                else { HubAction::Fail("usage: skills install <url-or-path>"@) }
            } else if f == "remove"@ {
                if tail.len() > 1 { HubAction::RunCli(seq!["skills"@, "remove"@, tail[1]]) }
                else { HubAction::Fail("usage: skills remove <name>"@) }
            } else {
                HubAction::Fail(unknown_sub("skills"@, f))
            }
        } else if topic == "mcp"@ {
            if has1 && f == "serve"@ {
                HubAction::Fail("`mcp serve` starts a long-running MCP server and is not supported from Telegram. Run `zeroclaw mcp serve` on the host."@)
            } else {
                HubAction::Fail("usage: mcp serve (not supported here \u{2014} use host CLI)"@)
            }
        } else if topic == "shell"@ {
            if has1 && f == "profile"@ {
                if tail.len() > 1 { HubAction::RunCli(seq!["shell"@, "profile"@, tail[1]]) }
                else { HubAction::Fail("usage: shell profile <safe|balanced|autonomous|custom-id>"@) }
            } else {
                HubAction::Fail("usage: shell profile <name>"@)
            }
        } else if topic == "cron"@ {
            if !has1 || f == "list"@ {
                HubAction::RunCli(seq!["cron"@, "list"@])
            } else if f == "remove"@ {
                if tail.len() > 1 { HubAction::RunCli(seq!["cron"@, "remove"@, tail[1]]) }
                else { HubAction::Fail("usage: cron remove <id>"@) }
            } else if f == "add"@ {
                if tail.len() < 3 { HubAction::Fail("usage: cron add <cron-expr> <command\u{2026}>"@) }
                else { HubAction::RunCli(seq!["cron"@, "add"@, tail[1], join(tail.subrange(2, tail.len() as int), " "@)]) }
            } else {
                HubAction::Fail(unknown_sub("cron"@, f))
            }
        } else if topic == "memory"@ {
            if !has1 || f == "list"@ {
                HubAction::RunCli(seq!["memory"@, "list"@, "--limit"@, "50"@])
            } else if f == "stats"@ {
                HubAction::RunCli(seq!["memory"@, "stats"@])
            } else {
                HubAction::Fail(unknown_sub("memory"@, f))
            }
        } else if topic == "hardware"@ {
            if !has1 || f == "discover"@ {
                HubAction::RunCli(seq!["hardware"@, "discover"@])
            } else {
                HubAction::Fail(unknown_sub("hardware"@, f))
            }
        } else if topic == "estop"@ {
            if !estop_enabled {
                HubAction::Fail("estop is disabled in config ([security.estop].enabled = false)."@)
            } else if !has1 {
                HubAction::Fail("usage: estop status | engage"@)
            } else if f == "status"@ {
                HubAction::RunCli(seq!["estop"@, "status"@])
            } else if f == "engage"@ {
                HubAction::RunCli(seq!["estop"@, "engage"@])
            } else if f == "resume"@ {
                HubAction::Fail("`estop resume` may require an OTP or interactive confirmation. Use `zeroclaw estop resume` on the host."@)
            } else {
                HubAction::Fail(unknown_sub("estop"@, f))
            }
        } else if topic == "channel"@ {
            if !has1 || f == "list"@ {
                HubAction::RunCli(seq!["channel"@, "list"@])
            } else if f == "doctor"@ {
                HubAction::RunCli(seq!["channel"@, "doctor"@])
            } else {
                HubAction::Fail(unknown_sub("channel"@, f))
            }
        } else if topic == "config"@ {
            if !has1 || f == "schema"@ {
                HubAction::RunCli(seq!["config"@, "schema"@])
            } else {
                HubAction::Fail(unknown_sub("config"@, f))
            }
        } else {
            HubAction::Fail("Unknown hub topic `"@ + topic + "`.\n"@ + help)
        }
    }
}

/// Each hub subcommand runs the `zeroclaw` CLI subcommand of the same name:
/// the listed topic/subcommand pairs (and their one argument, where they take
/// one) are handed to the CLI exactly as given, and every CLI run starts with
/// the hub's topic and subcommand.
pub proof fn lemma_hub_runs_same_subcommand(args: Seq<Seq<char>>, estop_enabled: bool, help: Seq<char>)
    ensures
        (args.len() == 2 && (
            (args[0] == "cron"@ && args[1] == "list"@)
            || (args[0] == "memory"@ && args[1] == "stats"@)
            || (args[0] == "hardware"@ && args[1] == "discover"@)
            || (args[0] == "channel"@ && (args[1] == "list"@ || args[1] == "doctor"@))
            || (args[0] == "config"@ && args[1] == "schema"@)
            || (args[0] == "estop"@ && estop_enabled && (args[1] == "status"@ || args[1] == "engage"@))
        )) ==> hub_plan(args, estop_enabled, help) == HubAction::RunCli(args),
        (args.len() == 3 && (
            (args[0] == "skills"@ && (args[1] == "install"@ || args[1] == "remove"@))
            || (args[0] == "shell"@ && args[1] == "profile"@)
            || (args[0] == "cron"@ && args[1] == "remove"@)
        )) ==> hub_plan(args, estop_enabled, help) == HubAction::RunCli(args),
        hub_plan(args, estop_enabled, help) matches HubAction::RunCli(cli) ==> (
            cli.len() >= 2 && cli[0] == args[0] && (args.len() >= 2 ==> cli[1] == args[1])),
{
    reveal_strlit("skills");
    reveal_strlit("mcp");
    reveal_strlit("shell");
    reveal_strlit("cron");
    reveal_strlit("memory");
    reveal_strlit("hardware");
    reveal_strlit("estop");
    reveal_strlit("channel");
    reveal_strlit("config");
    reveal_strlit("list");
    reveal_strlit("install");
    reveal_strlit("remove");
    reveal_strlit("profile");
    reveal_strlit("add");
    reveal_strlit("stats");
    reveal_strlit("discover");
    reveal_strlit("status");
    reveal_strlit("engage");
    reveal_strlit("resume");
    reveal_strlit("doctor");
    reveal_strlit("schema");
    reveal_strlit("serve");
    let h = hub_plan(args, estop_enabled, help);
    if args.len() >= 2 {
        assert(args.subrange(1, args.len() as int)[0] == args[1]);
    }
    if args.len() == 2 {
        assert(seq![args[0], args[1]] =~= args);
    }
    if args.len() == 3 {
        assert(args.subrange(1, args.len() as int)[1] == args[2]);
        assert(seq![args[0], args[1], args[2]] =~= args);
    }
    if args.len() > 0 {
        if args[0] == "skills"@ {
        }
        if args[0] == "mcp"@ {
            assert("mcp"@.len() != "skills"@.len());
        }
        if args[0] == "shell"@ {
            assert("shell"@.len() != "skills"@.len());
            assert("shell"@.len() != "mcp"@.len());
        }
        if args[0] == "cron"@ {
            assert("cron"@.len() != "skills"@.len());
            assert("cron"@.len() != "mcp"@.len());
            assert("cron"@.len() != "shell"@.len());
        }
        if args[0] == "memory"@ {
            assert("memory"@[0] != "skills"@[0]);
            assert("memory"@.len() != "mcp"@.len());
            assert("memory"@.len() != "shell"@.len());
            assert("memory"@.len() != "cron"@.len());
        }
        if args[0] == "hardware"@ {
            assert("hardware"@.len() != "skills"@.len());
            assert("hardware"@.len() != "mcp"@.len());
            assert("hardware"@.len() != "shell"@.len());
            assert("hardware"@.len() != "cron"@.len());
            assert("hardware"@.len() != "memory"@.len());
        }
        if args[0] == "estop"@ {
            assert("estop"@.len() != "skills"@.len());
            assert("estop"@.len() != "mcp"@.len());
            assert("estop"@[0] != "shell"@[0]);
            assert("estop"@.len() != "cron"@.len());
            assert("estop"@.len() != "memory"@.len());
            assert("estop"@.len() != "hardware"@.len());
        }
        if args[0] == "channel"@ {
            assert("channel"@.len() != "skills"@.len());
            assert("channel"@.len() != "mcp"@.len());
            assert("channel"@.len() != "shell"@.len());
            assert("channel"@.len() != "cron"@.len());
            assert("channel"@.len() != "memory"@.len());
            assert("channel"@.len() != "hardware"@.len());
            assert("channel"@.len() != "estop"@.len());
        }
        if args[0] == "config"@ {
            assert("config"@[0] != "skills"@[0]);
            assert("config"@.len() != "mcp"@.len());
            assert("config"@.len() != "shell"@.len());
            assert("config"@.len() != "cron"@.len());
            assert("config"@[0] != "memory"@[0]);
            assert("config"@.len() != "hardware"@.len());
            assert("config"@.len() != "estop"@.len());
            assert("config"@.len() != "channel"@.len());
        }
    }
}

fn is(s: &String, lit: &str) -> (r: bool)
    ensures
        r == (s@ == lit@),
{
    *s == lit.to_owned()
}

fn run2(a: &str, b: &str) -> (r: HubPlan)
    ensures
        r@ == HubAction::RunCli(seq![a@, b@]),
{
    let v = owned_strings(&[a, b]);
    proof {
        assert(views(v@) =~= seq![a@, b@]);
    }
    HubPlan::RunCli(v)
}

fn run3(a: &str, b: &str, c: &String) -> (r: HubPlan)
    ensures
        r@ == HubAction::RunCli(seq![a@, b@, c@]),
{
    let mut v = owned_strings(&[a, b]);
    let ghost prev = v@;
    v.push(c.clone());
    proof {
        assert(views(v@) =~= views(prev).push(c@));
        assert(views(v@) =~= seq![a@, b@, c@]);
    }
    HubPlan::RunCli(v)
}

fn fail(m: &str) -> (r: HubPlan)
    ensures
        r@ == HubAction::Fail(m@),
{
    HubPlan::Fail(m.to_owned())
}

fn fail_unknown(topic: &str, other: &String) -> (r: HubPlan)
    ensures
        r@ == HubAction::Fail(unknown_sub(topic@, other@)),
{
    let mut m = "unknown ".to_owned();
    m.push_str(topic);
    m.push_str(" subcommand `");
    m.push_str(other.as_str());
    m.push_str("`");
    proof {
        assert(m@ =~= unknown_sub(topic@, other@));
    }
    HubPlan::Fail(m)
}

/// Dispatch hub arguments (already split; e.g. `["skills","list"]`) into what the
/// host should do; `help` is the hub help text, used for unknown topics.
pub fn plan_hub_dispatch(args: &Vec<String>, estop_enabled: bool, help: &str) -> (r: HubPlan)
    ensures
        r@ == hub_plan(views(args@), estop_enabled, help@),
{
    proof {
        reveal_strlit("");
    }
    let ghost va = views(args@);
    if args.len() == 0 {
        return HubPlan::Help;
    }
    let topic = &args[0];
    let n = args.len();
    let has1 = n > 1;
    let empty = String::new();
    let f: &String = if has1 { &args[1] } else { &empty };
    proof {
        let tail = va.subrange(1, va.len() as int);
        assert(tail.len() == n - 1);
        if has1 {
            assert(tail[0] == f@);
        }
        if n > 2 {
            assert(tail[1] == args@[2]@);
        }
    }
    if is(topic, "skills") {
        if !has1 || is(f, "list") {
            HubPlan::ListSkills
        } else if is(f, "install") {
            if n > 2 { run3("skills", "install", &args[2]) } else { fail("usage: skills install <url-or-path>") }
        } else if is(f, "remove") {
            if n > 2 { run3("skills", "remove", &args[2]) } else { fail("usage: skills remove <name>") }
        } else {
            fail_unknown("skills", f)
        }
    } else if is(topic, "mcp") {
        if has1 && is(f, "serve") {
            fail("`mcp serve` starts a long-running MCP server and is not supported from Telegram. Run `zeroclaw mcp serve` on the host.")
        } else {
            fail("usage: mcp serve (not supported here \u{2014} use host CLI)")
        }
    } else if is(topic, "shell") {
        if has1 && is(f, "profile") {
            if n > 2 { run3("shell", "profile", &args[2]) } else { fail("usage: shell profile <safe|balanced|autonomous|custom-id>") }
        } else {
            fail("usage: shell profile <name>")
        }
    } else if is(topic, "cron") {
        if !has1 || is(f, "list") {
            run2("cron", "list")
        } else if is(f, "remove") {
            if n > 2 { run3("cron", "remove", &args[2]) } else { fail("usage: cron remove <id>") }
        } else if is(f, "add") {
            if n - 1 < 3 {
                fail("usage: cron add <cron-expr> <command\u{2026}>")
            } else {
                let rest = join_strings(args, 3, " ");
                proof {
                    let tail = va.subrange(1, va.len() as int);
                    assert(tail.subrange(2, tail.len() as int) =~= va.subrange(3, va.len() as int));
                }
                let mut v = owned_strings(&["cron", "add"]);
                proof {
                    assert(views(v@) =~= seq!["cron"@, "add"@]);
                }
                let ghost p0 = v@;
                let a2 = args[2].clone();
                v.push(a2);
                proof {
                    assert(views(v@) =~= views(p0).push(a2@));
                }
                let ghost p1 = v@;
                let ghost rv = rest@;
                v.push(rest);
                proof {
                    assert(views(v@) =~= views(p1).push(rv));
                    assert(views(v@) =~= seq!["cron"@, "add"@, args@[2]@, join(va.subrange(3, va.len() as int), " "@)]);
                }
                HubPlan::RunCli(v)
            }
        } else {
            fail_unknown("cron", f)
        }
    } else if is(topic, "memory") {
        if !has1 || is(f, "list") {
            let v = owned_strings(&["memory", "list", "--limit", "50"]);
            proof {
                assert(views(v@) =~= seq!["memory"@, "list"@, "--limit"@, "50"@]);
            }
            HubPlan::RunCli(v)
        } else if is(f, "stats") {
            run2("memory", "stats")
        } else {
            fail_unknown("memory", f)
        }
    } else if is(topic, "hardware") {
        if !has1 || is(f, "discover") {
            run2("hardware", "discover")
        } else {
            fail_unknown("hardware", f)
        }
    } else if is(topic, "estop") {
        if !estop_enabled {
            fail("estop is disabled in config ([security.estop].enabled = false).")
        } else if !has1 {
            fail("usage: estop status | engage")
        } else if is(f, "status") {
            run2("estop", "status")
        } else if is(f, "engage") {
            run2("estop", "engage")
        } else if is(f, "resume") {
            fail("`estop resume` may require an OTP or interactive confirmation. Use `zeroclaw estop resume` on the host.")
        } else {
            fail_unknown("estop", f)
        }
    } else if is(topic, "channel") {
        if !has1 || is(f, "list") {
            run2("channel", "list")
        } else if is(f, "doctor") {
            run2("channel", "doctor")
        } else {
            fail_unknown("channel", f)
        }
    } else if is(topic, "config") {
        if !has1 || is(f, "schema") {
            run2("config", "schema")
        } else {
            fail_unknown("config", f)
        }
    } else {
        let mut m = "Unknown hub topic `".to_owned();
        m.push_str(topic.as_str());
        m.push_str("`.\n");
        m.push_str(help);
        proof {
            assert(m@ =~= "Unknown hub topic `"@ + topic@ + "`.\n"@ + help@);
        }
        HubPlan::Fail(m)
    }
}

/// Output of a CLI run: stdout, then stderr on a line of its own.
pub open spec fn cli_output(stdout: Seq<char>, stderr: Seq<char>) -> Seq<char> {
    if stderr.len() == 0 {
        stdout
    } else if stdout.len() > 0 && !has_suffix(stdout, "\n"@) {
        stdout + "\n"@ + stderr
    } else {
        stdout + stderr
    }
}

/// Merge the (lossily decoded) stdout and stderr of a `zeroclaw` CLI run.
pub fn combine_cli_output(stdout: &str, stderr: &str) -> (r: String)
    ensures
        r@ == cli_output(stdout@, stderr@),
{
    let mut text = String::new();
    if !stdout.is_empty() {
        text.push_str(stdout);
    }
    if !stderr.is_empty() {
        let t = chars_of(text.as_str());
        if t.len() > 0 && !ends_with_chars(&t, &chars_of("\n")) {
            text.push_str("\n");
        }
        text.push_str(stderr);
    }
    proof {
        assert(text@ =~= cli_output(stdout@, stderr@));
    }
    text
}

/// `mcp` from the hub: the MCP server is long-running, so it is always refused.
pub fn dispatch_mcp(tail: &Vec<String>) -> (r: Result<String, String>)
    ensures
        match r {
            Ok(_) => false,
            Err(m) => if tail@.len() > 0 && tail@[0]@ == "serve"@ {
                m@ == "`mcp serve` starts a long-running MCP server and is not supported from Telegram. Run `zeroclaw mcp serve` on the host."@
            } else {
                m@ == "usage: mcp serve (not supported here \u{2014} use host CLI)"@
            },
        },
{
    if tail.len() > 0 && is(&tail[0], "serve") {
        Err(
            "`mcp serve` starts a long-running MCP server and is not supported from Telegram. Run `zeroclaw mcp serve` on the host.".to_owned(),
        )
    } else {
        Err("usage: mcp serve (not supported here \u{2014} use host CLI)".to_owned())
    }
}

/// Decimal rendering of a signed number.
pub open spec fn dec_signed(i: int) -> Seq<char> {
    if i < 0 {
        "-"@ + crate::text::dec((-i) as nat)
    } else {
        crate::text::dec(i as nat)
    }
}

/// `{:?}` of a list of strings: `["a", "b"]`.
pub open spec fn debug_list(items: Seq<Seq<char>>) -> Seq<char> {
    "["@ + join(items.map_values(|x: Seq<char>| crate::text::debug_quoted(x)), ", "@) + "]"@
}

fn push_debug_list(s: &mut String, items: &Vec<String>)
    ensures
        final(s)@ == old(s)@ + debug_list(views(items@)),
{
    let ghost qs = views(items@).map_values(|x: Seq<char>| crate::text::debug_quoted(x));
    let ghost s0 = s@;
    s.push_str("[");
    let mut i: usize = 0;
    proof {
        assert(qs.subrange(0, 0) =~= Seq::<Seq<char>>::empty());
    }
    while i < items.len()
        invariant
            i <= items@.len(),
            qs == views(items@).map_values(|x: Seq<char>| crate::text::debug_quoted(x)),
            s@ == s0 + "["@ + join(qs.subrange(0, i as int), ", "@),
        decreases items@.len() - i,
    {
        let ghost before = s@;
        proof {
            assert(qs.subrange(0, i + 1).drop_last() =~= qs.subrange(0, i as int));
            assert(qs.subrange(0, i + 1).last() == crate::text::debug_quoted(items@[i as int]@));
        }
        if i > 0 {
            s.push_str(", ");
        } else {
            assert(join(qs.subrange(0, 0), ", "@) =~= Seq::<char>::empty());
        }
        let q = crate::text::debug_str(items[i].as_str());
        s.push_str(q.as_str());
        i = i + 1;
    }
    s.push_str("]");
    proof {
        assert(qs.subrange(0, items@.len() as int) =~= qs);
    }
}

/// The outcome of a `zeroclaw` CLI run with `args`: its combined output on
/// success, else an error naming the arguments and the exit code (`-1` when
/// the process was ended by a signal).
pub fn cli_run_result(args: &Vec<String>, success: bool, code: Option<i32>, stdout: &str, stderr: &str) -> (r: Result<String, String>)
    ensures
        ({
            let text = cli_output(stdout@, stderr@);
            let c: int = match code {
                Some(c) => c as int,
                None => -1,
            };
            if success {
                r matches Ok(t) && t@ == text
            } else {
                r matches Err(m) && m@ == "zeroclaw "@ + debug_list(views(args@)) + " exited with "@ + dec_signed(c) + "\n"@ + text
            }
        }),
{
    let text = combine_cli_output(stdout, stderr);
    if success {
        return Ok(text);
    }
    let c: i32 = match code {
        Some(c) => c,
        None => -1,
    };
    let mut m = "zeroclaw ".to_owned();
    push_debug_list(&mut m, args);
    m.push_str(" exited with ");
    if c < 0 {
        m.push_str("-");
        let mag: u64 = (-(c as i64)) as u64;
        crate::text::push_dec(&mut m, mag);
    } else {
        crate::text::push_dec(&mut m, c as u64);
    }
    m.push_str("\n");
    m.push_str(text.as_str());
    Err(m)
}

/// Rows stay valid while skill rows are added: every command is a valid
/// token, and a skill row never repeats a command already listed.
proof fn lemma_add_skill_rows_valid(rows: Seq<(Seq<char>, Seq<char>)>, skills: Seq<SkillMenuEntry>, i: int, fixed: int)
    requires
        0 <= i <= skills.len(),
        0 <= fixed <= rows.len(),
        forall|k: int| 0 <= k < rows.len() ==> valid_command_token(#[trigger] rows[k].0),
        forall|a: int, b: int| fixed <= b < rows.len() && 0 <= a < b ==> rows[a].0 != rows[b].0,
    ensures
        ({
            let out = add_skill_rows(rows, skills, i);
            &&& rows.len() <= out.len()
            &&& forall|k: int| 0 <= k < rows.len() ==> out[k] == rows[k]
            &&& forall|k: int| 0 <= k < out.len() ==> valid_command_token(#[trigger] out[k].0)
            &&& forall|a: int, b: int| fixed <= b < out.len() && 0 <= a < b ==> out[a].0 != out[b].0
        }),
    decreases skills.len() - i,
{
    if i < skills.len() {
        let s = skills[i];
        let cmd = sanitized(s.name@);
        if !s.user_invocable || cmd.len() == 0 || exists|k: int| 0 <= k < rows.len() && (#[trigger] rows[k]).0 == cmd {
            lemma_add_skill_rows_valid(rows, skills, i + 1, fixed);
        } else {
            lemma_sanitized_is_token_or_empty(s.name@);
            let next = rows.push((cmd, menu_description(s.description@)));
            assert forall|a: int, b: int| fixed <= b < next.len() && 0 <= a < b implies next[a].0 != next[b].0 by {
                if b == rows.len() {
                    assert(next[a] == rows[a]);
                    if rows[a].0 == cmd {
                        assert(rows[a].0 == cmd);
                    }
                } else {
                    assert(next[a] == rows[a] && next[b] == rows[b]);
                }
            }
            lemma_add_skill_rows_valid(next, skills, i + 1, fixed);
            assert forall|k: int| 0 <= k < rows.len() implies add_skill_rows(rows, skills, i)[k] == rows[k] by {
                assert(next[k] == rows[k]);
            }
        }
    }
}

/// The menu: the built-in rows come first, every command is a valid Telegram
/// command token, and no skill adds a command that is already listed.
pub proof fn lemma_command_rows_valid(tg: Option<TelegramHubConfig>, skills: Seq<SkillMenuEntry>)
    ensures
        ({
            let rows = command_rows(tg, skills);
            let fixed: int = if hub_prefix(tg) is Some { 5 } else { 4 };
            &&& fixed <= rows.len()
            &&& forall|k: int| 0 <= k < 4 ==> rows[k] == builtin_rows()[k]
            &&& forall|k: int| 0 <= k < rows.len() ==> valid_command_token(#[trigger] rows[k].0)
            &&& forall|a: int, b: int| fixed <= b < rows.len() && 0 <= a < b ==> rows[a].0 != rows[b].0
        }),
{
    reveal_strlit("new");
    reveal_strlit("models");
    reveal_strlit("model");
    reveal_strlit("config");
    let b = builtin_rows();
    assert(valid_command_token(b[0].0));
    assert(valid_command_token(b[1].0));
    assert(valid_command_token(b[2].0));
    assert(valid_command_token(b[3].0));
    let base = match hub_prefix(tg) {
        Some(p) => b.push((p, "Control hub: skills, cron, memory, channel, \u{2026} (see docs)"@)),
        None => b,
    };
    let fixed: int = if hub_prefix(tg) is Some { 5 } else { 4 };
    assert forall|k: int| 0 <= k < base.len() implies valid_command_token(#[trigger] base[k].0) by {
        if k < 4 {
            assert(base[k] == b[k]);
        }
    }
    lemma_add_skill_rows_valid(base, skills, 0, fixed);
    assert forall|k: int| 0 <= k < 4 implies command_rows(tg, skills)[k] == builtin_rows()[k] by {
        assert(base[k] == b[k]);
    }
}

} // verus!
