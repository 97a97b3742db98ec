//! Shared parsing and plain-text help for runtime slash commands (`/new`, `/models`, …).
//! Used by messaging channels and the gateway WebSocket chat.

use vstd::prelude::*;
use crate::text::{
    before_char, before_char_chars, chars_eq, chars_of, eq_ignore_case, eq_ignore_case_chars,
    has_prefix, join, join_strings, lower, lower_chars, push_dec, split_whitespace_chars,
    starts_with_chars, string_of, trim, trim_chars, views, words, dec,
};

verus! {

/// Provider + model selection for a sender (channel DM or gateway browser session).
pub struct SlashRouteSelection {
    pub provider: String,
    pub model: String,
    pub api_key: Option<String>,
}

/// A route selection as plain text values.
pub struct RouteView {
    pub provider: Seq<char>,
    pub model: Seq<char>,
    pub api_key: Option<Seq<char>>,
}

pub open spec fn opt_str_view(o: Option<String>) -> Option<Seq<char>> {
    match o {
        Some(s) => Some(s@),
        None => None,
    }
}

impl View for SlashRouteSelection {
    type V = RouteView;

    open spec fn view(&self) -> RouteView {
        RouteView { provider: self.provider@, model: self.model@, api_key: opt_str_view(self.api_key) }
    }
}

pub fn clone_opt_string(o: &Option<String>) -> (r: Option<String>)
    ensures
        opt_str_view(r) == opt_str_view(*o),
{
    match o {
        Some(s) => Some(s.clone()),
        None => None,
    }
}

fn opt_strings_eq(a: &Option<String>, b: &Option<String>) -> (r: bool)
    ensures
        r == (opt_str_view(*a) == opt_str_view(*b)),
{
    match (a, b) {
        (Some(x), Some(y)) => *x == *y,
        (None, None) => true,
        _ => false,
    }
}

impl SlashRouteSelection {
    pub fn clone_route(&self) -> (r: SlashRouteSelection)
        ensures
            r@ == self@,
    {
        SlashRouteSelection {
            provider: self.provider.clone(),
            model: self.model.clone(),
            api_key: clone_opt_string(&self.api_key),
        }
    }

    /// Field-wise equality.
    pub fn same_as(&self, other: &SlashRouteSelection) -> (r: bool)
        ensures
            r == (self@ == other@),
    {
        self.provider == other.provider && self.model == other.model && opt_strings_eq(&self.api_key, &other.api_key)
    }
}

/// A parsed runtime slash command.
pub enum ParsedRuntimeSlash {
    ShowProviders,
    SetProvider(String),
    ShowModel,
    SetModel(String),
    ShowConfig,
    NewSession,
}

/// A parsed runtime slash command over plain text values.
pub enum SlashCommand {
    ShowProviders,
    SetProvider(Seq<char>),
    ShowModel,
    SetModel(Seq<char>),
    ShowConfig,
    NewSession,
}

impl View for ParsedRuntimeSlash {
    type V = SlashCommand;

    open spec fn view(&self) -> SlashCommand {
        match self {
            ParsedRuntimeSlash::ShowProviders => SlashCommand::ShowProviders,
            ParsedRuntimeSlash::SetProvider(p) => SlashCommand::SetProvider(p@),
            ParsedRuntimeSlash::ShowModel => SlashCommand::ShowModel,
            ParsedRuntimeSlash::SetModel(m) => SlashCommand::SetModel(m@),
            ParsedRuntimeSlash::ShowConfig => SlashCommand::ShowConfig,
            ParsedRuntimeSlash::NewSession => SlashCommand::NewSession,
        }
    }
}

pub open spec fn parsed_view(o: Option<ParsedRuntimeSlash>) -> Option<SlashCommand> {
    match o {
        Some(p) => Some(p@),
        None => None,
    }
}

/// Channels on which `/models`, `/model` and `/config` are handled.
pub open spec fn supports_switch(channel: Seq<char>) -> bool {
    ||| channel == "telegram"@
    ||| channel == "discord"@
    ||| channel == "matrix"@
    ||| channel == "slack"@
    ||| channel == "gateway"@
}

/// A command token without its `@botname` suffix, lower-cased.
pub open spec fn command_base(token: Seq<char>) -> Seq<char> {
    lower(before_char(token, '@'))
}

/// What [`parse_runtime_slash`] returns.
pub open spec fn runtime_slash(channel: Seq<char>, content: Seq<char>) -> Option<SlashCommand> {
    let t = trim(content);
    let ws = words(t);
    if !has_prefix(t, "/"@) || ws.len() == 0 {
        None
    } else {
        let base = command_base(ws[0]);
        if base == "/new"@ {
            Some(SlashCommand::NewSession)
        } else if base == "/models"@ && supports_switch(channel) {
            if ws.len() > 1 {
                Some(SlashCommand::SetProvider(trim(ws[1])))
            } else {
                Some(SlashCommand::ShowProviders)
            }
        } else if base == "/model"@ && supports_switch(channel) {
            let m = trim(join(ws.subrange(1, ws.len() as int), " "@));
            if m.len() == 0 {
                Some(SlashCommand::ShowModel)
            } else {
                Some(SlashCommand::SetModel(m))
            }
        } else if base == "/config"@ && supports_switch(channel) {
            Some(SlashCommand::ShowConfig)
        } else {
            None
        }
    }
}

/// What [`parse_gateway_ws_slash`] returns.
pub open spec fn gateway_ws_slash(content: Seq<char>) -> Option<SlashCommand> {
    let ws = words(trim(content));
    let first = if ws.len() > 0 { ws[0] } else { Seq::empty() };
    if command_base(first) == "/reset"@ {
        Some(SlashCommand::NewSession)
    } else {
        runtime_slash("gateway"@, content)
    }
}

/// Gateway chat parses slash commands as the runtime does for the `gateway`
/// channel, with `/reset` as one more way to start a new session; `/new` is
/// understood on every channel.
pub proof fn lemma_gateway_matches_runtime(content: Seq<char>, channel: Seq<char>)
    ensures
        ({
            let ws = words(trim(content));
            let first = if ws.len() > 0 { ws[0] } else { Seq::<char>::empty() };
            &&& command_base(first) != "/reset"@ ==> gateway_ws_slash(content) == runtime_slash("gateway"@, content)
            &&& command_base(first) == "/reset"@ ==> gateway_ws_slash(content) == Some(SlashCommand::NewSession)
            &&& (has_prefix(trim(content), "/"@) && ws.len() > 0 && command_base(first) == "/new"@)
                ==> runtime_slash(channel, content) == Some(SlashCommand::NewSession)
        }),
{
}

/// `/models`, `/model` and `/config` are understood on Telegram, Discord, Matrix,
/// Slack and the gateway, and on no other channel (elsewhere they reach the agent
/// as plain text); on those channels a bare `/models` lists the providers.
pub proof fn lemma_switch_commands_by_channel(channel: Seq<char>, content: Seq<char>)
    ensures
        ({
            let t = trim(content);
            let ws = words(t);
            let base = if ws.len() > 0 { command_base(ws[0]) } else { Seq::<char>::empty() };
            let listed = channel == "telegram"@ || channel == "discord"@ || channel == "matrix"@
                || channel == "slack"@ || channel == "gateway"@;
            &&& (has_prefix(t, "/"@) && ws.len() > 0 && (base == "/models"@ || base == "/model"@ || base == "/config"@))
                ==> (runtime_slash(channel, content) is Some <==> listed)
            &&& (has_prefix(t, "/"@) && ws.len() == 1 && base == "/models"@ && listed)
                ==> runtime_slash(channel, content) == Some(SlashCommand::ShowProviders)
        }),
{
    reveal_strlit("/new");
    reveal_strlit("/models");
    reveal_strlit("/model");
    reveal_strlit("/config");
    assert("/models"@.len() != "/new"@.len());
    assert("/model"@.len() != "/new"@.len());
    assert("/config"@.len() != "/new"@.len());
    assert("/model"@.len() != "/models"@.len());
    assert("/config"@[1] != "/models"@[1]);
    assert("/config"@.len() != "/model"@.len());
}

pub fn supports_runtime_model_switch(channel_name: &str) -> (r: bool)
    ensures
        r == supports_switch(channel_name@),
{
    let c = chars_of(channel_name);
    chars_eq(&c, &chars_of("telegram")) || chars_eq(&c, &chars_of("discord")) || chars_eq(&c, &chars_of("matrix"))
        || chars_eq(&c, &chars_of("slack")) || chars_eq(&c, &chars_of("gateway"))
}

fn command_base_exec(token: &str) -> (r: Vec<char>)
    ensures
        r@ == command_base(token@),
{
    let b = before_char_chars(&chars_of(token), '@');
    lower_chars(&b)
}

/// Parse `/new`, `/models`, `/model`, `/config` for `channel_name` (use `"gateway"` for web UI).
pub fn parse_runtime_slash(channel_name: &str, content: &str) -> (r: Option<ParsedRuntimeSlash>)
    ensures
        parsed_view(r) == runtime_slash(channel_name@, content@),
{
    let t = trim_chars(&chars_of(content));
    if !starts_with_chars(&t, &chars_of("/")) {
        return None;
    }
    let ws = split_whitespace_chars(&t);
    if ws.len() == 0 {
        return None;
    }
    let base = command_base_exec(ws[0].as_str());
    let supports = supports_runtime_model_switch(channel_name);
    if chars_eq(&base, &chars_of("/new")) {
        Some(ParsedRuntimeSlash::NewSession)
    } else if chars_eq(&base, &chars_of("/models")) && supports {
        if ws.len() > 1 {
            let p = trim_chars(&chars_of(ws[1].as_str()));
            Some(ParsedRuntimeSlash::SetProvider(string_of(&p)))
        } else {
            Some(ParsedRuntimeSlash::ShowProviders)
        }
    } else if chars_eq(&base, &chars_of("/model")) && supports {
        let joined = join_strings(&ws, 1, " ");
        let m = trim_chars(&chars_of(joined.as_str()));
        if m.len() == 0 {
            Some(ParsedRuntimeSlash::ShowModel)
        } else {
            Some(ParsedRuntimeSlash::SetModel(string_of(&m)))
        }
    } else if chars_eq(&base, &chars_of("/config")) && supports {
        Some(ParsedRuntimeSlash::ShowConfig)
    } else {
        None
    }
}

/// WebSocket chat: treat `/reset` like `/new`, then delegate to [`parse_runtime_slash`].
pub fn parse_gateway_ws_slash(content: &str) -> (r: Option<ParsedRuntimeSlash>)
    ensures
        parsed_view(r) == gateway_ws_slash(content@),
{
    let t = trim_chars(&chars_of(content));
    let ws = split_whitespace_chars(&t);
    let base = if ws.len() > 0 {
        command_base_exec(ws[0].as_str())
    } else {
        command_base_exec("")
    };
    proof {
        reveal_strlit("");
        assert(""@ =~= Seq::<char>::empty());
    }
    if chars_eq(&base, &chars_of("/reset")) {
        return Some(ParsedRuntimeSlash::NewSession);
    }
    parse_runtime_slash("gateway", content)
}

/// A provider the runtime knows, with its aliases.
pub struct ProviderInfo {
    pub name: String,
    pub aliases: Vec<String>,
}

/// `[[model_routes]]`: a hint that selects a provider + model (+ optional key).
pub struct ModelRouteConfig {
    pub hint: String,
    pub provider: String,
    pub model: String,
    pub api_key: Option<String>,
}

/// One provider's entry of the cached model list (`state/models_cache.json`).
pub struct ModelCacheEntry {
    pub provider: String,
    pub models: Vec<String>,
}

/// At most this many cached model ids are shown.
pub const MODEL_CACHE_PREVIEW_LIMIT: usize = 10;

/// `p`'s name or one of its aliases equals `candidate` ignoring ASCII case.
pub open spec fn provider_matches(p: ProviderInfo, candidate: Seq<char>) -> bool {
    eq_ignore_case(p.name@, candidate) || exists|j: int|
        0 <= j < p.aliases@.len() && eq_ignore_case(#[trigger] p.aliases@[j]@, candidate)
}

/// Index of the first provider matching `candidate` (or the number of providers).
pub open spec fn first_provider_match(ps: Seq<ProviderInfo>, candidate: Seq<char>, i: int) -> int
    decreases ps.len() - i,
{
    if i >= ps.len() {
        ps.len() as int
    } else if provider_matches(ps[i], candidate) {
        i
    } else {
        first_provider_match(ps, candidate, i + 1)
    }
}

/// What [`resolve_provider_alias`] returns.
pub open spec fn provider_alias(ps: Seq<ProviderInfo>, name: Seq<char>) -> Option<Seq<char>> {
    let c = trim(name);
    let i = first_provider_match(ps, c, 0);
    if c.len() == 0 || i >= ps.len() {
        None
    } else {
        Some(ps[i].name@)
    }
}

fn provider_matches_exec(p: &ProviderInfo, candidate: &[char]) -> (r: bool)
    ensures
        r == provider_matches(*p, candidate@),
{
    if eq_ignore_case_chars(&chars_of(p.name.as_str()), candidate) {
        return true;
    }
    let mut j: usize = 0;
    while j < p.aliases.len()
        invariant
            j <= p.aliases@.len(),
            forall|k: int| 0 <= k < j ==> !eq_ignore_case(#[trigger] p.aliases@[k]@, candidate@),
        decreases p.aliases@.len() - j,
    {
        if eq_ignore_case_chars(&chars_of(p.aliases[j].as_str()), candidate) {
            return true;
        }
        j = j + 1;
    }
    false
}

/// The canonical provider name for `name` (a provider name or alias, ignoring
/// ASCII case and surrounding whitespace), from the known `providers`.
pub fn resolve_provider_alias(name: &str, providers: &[ProviderInfo]) -> (r: Option<String>)
    ensures
        opt_str_view(r) == provider_alias(providers@, name@),
{
    let c = trim_chars(&chars_of(name));
    if c.len() == 0 {
        return None;
    }
    let mut i: usize = 0;
    while i < providers.len()
        invariant
            i <= providers@.len(),
            c@ == trim(name@),
            c@.len() > 0,
            first_provider_match(providers@, c@, 0) == first_provider_match(providers@, c@, i as int),
        decreases providers@.len() - i,
    {
        if provider_matches_exec(&providers[i], &c) {
            proof {
                assert(first_provider_match(providers@, c@, i as int) == i);
            }
            return Some(providers[i].name.clone());
        }
        i = i + 1;
    }
    None
}

/// Index of the first cache entry for `provider` (or the number of entries).
pub open spec fn first_cache_entry(es: Seq<ModelCacheEntry>, provider: Seq<char>, i: int) -> int
    decreases es.len() - i,
{
    if i >= es.len() {
        es.len() as int
    } else if es[i].provider@ == provider {
        i
    } else {
        first_cache_entry(es, provider, i + 1)
    }
}

/// What [`cached_model_preview`] returns: the first ten models of the first entry for `provider`.
pub open spec fn model_preview(es: Seq<ModelCacheEntry>, provider: Seq<char>) -> Seq<Seq<char>> {
    let i = first_cache_entry(es, provider, 0);
    if i >= es.len() {
        Seq::empty()
    } else {
        let ms = views(es[i].models@);
        if ms.len() <= MODEL_CACHE_PREVIEW_LIMIT {
            ms
        } else {
            ms.subrange(0, MODEL_CACHE_PREVIEW_LIMIT as int)
        }
    }
}

/// The cached model ids shown for `provider_name` (the file itself is read by the host).
pub fn cached_model_preview(entries: &[ModelCacheEntry], provider_name: &str) -> (r: Vec<String>)
    ensures
        views(r@) == model_preview(entries@, provider_name@),
{
    let mut i: usize = 0;
    while i < entries.len()
        invariant
            i <= entries@.len(),
            first_cache_entry(entries@, provider_name@, 0) == first_cache_entry(entries@, provider_name@, i as int),
        decreases entries@.len() - i,
    {
        if entries[i].provider.as_str().to_owned() == provider_name.to_owned() {
            let ms = &entries[i].models;
            let n = if ms.len() <= MODEL_CACHE_PREVIEW_LIMIT { ms.len() } else { MODEL_CACHE_PREVIEW_LIMIT };
            let mut out: Vec<String> = Vec::new();
            let mut k: usize = 0;
            while k < n
                invariant
                    k <= n,
                    n <= ms@.len(),
                    views(out@) == views(ms@).subrange(0, k as int),
                decreases n - k,
            {
                let x = ms[k].clone();
                let ghost prev = out@;
                out.push(x);
                proof {
                    assert(x@ == ms@[k as int]@);
                    assert(views(out@) =~= views(prev).push(x@));
                    assert(views(out@) =~= views(ms@).subrange(0, k + 1));
                }
                k = k + 1;
            }
            proof {
                assert(views(ms@).subrange(0, views(ms@).len() as int) =~= views(ms@));
            }
            return out;
        }
        i = i + 1;
    }
    proof {
        assert(views(Seq::<String>::empty()) =~= Seq::<Seq<char>>::empty());
    }
    Vec::new()
}

/// `Current provider: `p`\nCurrent model: `m`\n`.
pub open spec fn current_header(c: RouteView) -> Seq<char> {
    "Current provider: `"@ + c.provider + "`\nCurrent model: `"@ + c.model + "`\n"@
}

/// One line per route: ``  `hint` <arrow> model (provider)``.
pub open spec fn route_lines(routes: Seq<ModelRouteConfig>, arrow: Seq<char>) -> Seq<char>
    decreases routes.len(),
{
    if routes.len() == 0 {
        Seq::empty()
    } else {
        let r = routes.last();
        route_lines(routes.drop_last(), arrow) + "  `"@ + r.hint@ + "` "@ + arrow + " "@ + r.model@ + " ("@
            + r.provider@ + ")\n"@
    }
}

/// One line per model: ``- `model` ``.
pub open spec fn model_lines(ms: Seq<Seq<char>>) -> Seq<char>
    decreases ms.len(),
{
    if ms.len() == 0 {
        Seq::empty()
    } else {
        model_lines(ms.drop_last()) + "- `"@ + ms.last() + "`\n"@
    }
}

/// One line per provider, with its aliases when it has any.
pub open spec fn provider_lines(ps: Seq<ProviderInfo>) -> Seq<char>
    decreases ps.len(),
{
    if ps.len() == 0 {
        Seq::empty()
    } else {
        let p = ps.last();
        let line = if p.aliases@.len() == 0 {
            "- "@ + p.name@ + "\n"@
        } else {
            "- "@ + p.name@ + " (aliases: "@ + join(views(p.aliases@), ", "@) + ")\n"@
        };
        provider_lines(ps.drop_last()) + line
    }
}

/// One line per provider: ``- `name` ``.
pub open spec fn provider_name_lines(ps: Seq<ProviderInfo>) -> Seq<char>
    decreases ps.len(),
{
    if ps.len() == 0 {
        Seq::empty()
    } else {
        provider_name_lines(ps.drop_last()) + "- `"@ + ps.last().name@ + "`\n"@
    }
}

/// Text of [`build_models_help_response`].
pub open spec fn models_help(c: RouteView, routes: Seq<ModelRouteConfig>, cached: Seq<Seq<char>>) -> Seq<char> {
    current_header(c) + "\nSwitch model with `/model <model-id>` or `/model <hint>`.\n"@ + (if routes.len() == 0 {
        Seq::empty()
    } else {
        "\nConfigured model routes:\n"@ + route_lines(routes, "\u{2192}"@)
    }) + (if cached.len() == 0 {
        "\nNo cached model list found for `"@ + c.provider
            + "`. Ask the operator to run `zeroclaw models refresh --provider "@ + c.provider + "`.\n"@
    } else {
        "\nCached model IDs (top "@ + dec(cached.len()) + "):\n"@ + model_lines(cached)
    })
}

/// Text of [`build_providers_help_response`].
pub open spec fn providers_help(c: RouteView, ps: Seq<ProviderInfo>) -> Seq<char> {
    current_header(c) + "\nSwitch provider with `/models <provider>`.\n"@ + "Switch model with `/model <model-id>`.\n\n"@
        + "Available providers:\n"@ + provider_lines(ps)
}

/// Text of [`build_config_text_response`].
pub open spec fn config_text(c: RouteView, routes: Seq<ModelRouteConfig>, ps: Seq<ProviderInfo>) -> Seq<char> {
    current_header(c) + "\nAvailable providers:\n"@ + provider_name_lines(ps) + (if routes.len() == 0 {
        Seq::empty()
    } else {
        "\nConfigured model routes:\n"@ + route_lines(routes, "->"@)
    }) + "\nUse `/models <provider>` to switch provider.\nUse `/model <model-id>` to switch model."@
}

fn push_current_header(s: &mut String, current: &SlashRouteSelection)
    ensures
        final(s)@ == old(s)@ + current_header(current@),
{
    s.push_str("Current provider: `");
    s.push_str(current.provider.as_str());
    s.push_str("`\nCurrent model: `");
    s.push_str(current.model.as_str());
    s.push_str("`\n");
    proof {
        assert(final(s)@ =~= old(s)@ + current_header(current@));
    }
}

fn push_route_lines(s: &mut String, routes: &[ModelRouteConfig], arrow: &str)
    ensures
        final(s)@ == old(s)@ + route_lines(routes@, arrow@),
{
    let mut i: usize = 0;
    proof {
        assert(routes@.subrange(0, 0) =~= Seq::<ModelRouteConfig>::empty());
        assert(s@ =~= old(s)@ + route_lines(routes@.subrange(0, 0), arrow@));
    }
    while i < routes.len()
        invariant
            i <= routes@.len(),
            s@ == old(s)@ + route_lines(routes@.subrange(0, i as int), arrow@),
        decreases routes@.len() - i,
    {
        let ghost before = s@;
        let r = &routes[i];
        s.push_str("  `");
        s.push_str(r.hint.as_str());
        s.push_str("` ");
        s.push_str(arrow);
        s.push_str(" ");
        s.push_str(r.model.as_str());
        s.push_str(" (");
        s.push_str(r.provider.as_str());
        s.push_str(")\n");
        proof {
            let sub = routes@.subrange(0, i + 1);
            assert(sub.drop_last() =~= routes@.subrange(0, i as int));
            assert(sub.last() == routes@[i as int]);
            assert(s@ =~= old(s)@ + route_lines(sub, arrow@));
        }
        i = i + 1;
    }
    proof {
        assert(routes@.subrange(0, routes@.len() as int) =~= routes@);
    }
}

fn push_model_lines(s: &mut String, ms: &Vec<String>)
    ensures
        final(s)@ == old(s)@ + model_lines(views(ms@)),
{
    let mut i: usize = 0;
    let ghost vs = views(ms@);
    proof {
        assert(vs.subrange(0, 0) =~= Seq::<Seq<char>>::empty());
        assert(s@ =~= old(s)@ + model_lines(vs.subrange(0, 0)));
    }
    while i < ms.len()
        invariant
            i <= ms@.len(),
            vs == views(ms@),
            s@ == old(s)@ + model_lines(vs.subrange(0, i as int)),
        decreases ms@.len() - i,
    {
        s.push_str("- `");
        s.push_str(ms[i].as_str());
        s.push_str("`\n");
        proof {
            let sub = vs.subrange(0, i + 1);
            assert(sub.drop_last() =~= vs.subrange(0, i as int));
            assert(sub.last() == ms@[i as int]@);
            assert(s@ =~= old(s)@ + model_lines(sub));
        }
        i = i + 1;
    }
    proof {
        assert(vs.subrange(0, vs.len() as int) =~= vs);
    }
}

fn push_provider_lines(s: &mut String, ps: &[ProviderInfo], with_aliases: bool)
    ensures
        with_aliases ==> final(s)@ == old(s)@ + provider_lines(ps@),
        !with_aliases ==> final(s)@ == old(s)@ + provider_name_lines(ps@),
{
    let mut i: usize = 0;
    proof {
        assert(ps@.subrange(0, 0) =~= Seq::<ProviderInfo>::empty());
        assert(s@ =~= old(s)@ + provider_lines(ps@.subrange(0, 0)));
        assert(s@ =~= old(s)@ + provider_name_lines(ps@.subrange(0, 0)));
    }
    while i < ps.len()
        invariant
            i <= ps@.len(),
            with_aliases ==> s@ == old(s)@ + provider_lines(ps@.subrange(0, i as int)),
            !with_aliases ==> s@ == old(s)@ + provider_name_lines(ps@.subrange(0, i as int)),
        decreases ps@.len() - i,
    {
        let p = &ps[i];
        if with_aliases {
            s.push_str("- ");
            s.push_str(p.name.as_str());
            if p.aliases.len() == 0 {
                s.push_str("\n");
            } else {
                s.push_str(" (aliases: ");
                let j = join_strings(&p.aliases, 0, ", ");
                proof {
                    assert(views(p.aliases@).subrange(0, p.aliases@.len() as int) =~= views(p.aliases@));
                }
                s.push_str(j.as_str());
                s.push_str(")\n");
            }
        } else {
            s.push_str("- `");
            s.push_str(p.name.as_str());
            s.push_str("`\n");
        }
        proof {
            let sub = ps@.subrange(0, i + 1);
            assert(sub.drop_last() =~= ps@.subrange(0, i as int));
            assert(sub.last() == ps@[i as int]);
            if with_aliases {
                assert(s@ =~= old(s)@ + provider_lines(sub));
            } else {
                assert(s@ =~= old(s)@ + provider_name_lines(sub));
            }
        }
        i = i + 1;
    }
    proof {
        assert(ps@.subrange(0, ps@.len() as int) =~= ps@);
    }
}

/// `/model` help: current route, the configured routes, and the cached model ids
/// (read by the host from the workspace's model cache) for the current provider.
pub fn build_models_help_response(current: &SlashRouteSelection, model_routes: &[ModelRouteConfig], cached_models: &Vec<String>) -> (r: String)
    ensures
        r@ == models_help(current@, model_routes@, views(cached_models@)),
{
    let mut response = String::new();
    push_current_header(&mut response, current);
    response.push_str("\nSwitch model with `/model <model-id>` or `/model <hint>`.\n");
    let ghost after_intro = response@;
    if model_routes.len() > 0 {
        response.push_str("\nConfigured model routes:\n");
        push_route_lines(&mut response, model_routes, "\u{2192}");
    }
    let ghost after_routes = response@;
    if cached_models.len() == 0 {
        response.push_str("\nNo cached model list found for `");
        response.push_str(current.provider.as_str());
        response.push_str("`. Ask the operator to run `zeroclaw models refresh --provider ");
        response.push_str(current.provider.as_str());
        response.push_str("`.\n");
    } else {
        response.push_str("\nCached model IDs (top ");
        push_dec(&mut response, cached_models.len() as u64);
        response.push_str("):\n");
        push_model_lines(&mut response, cached_models);
    }
    proof {
        assert(response@ =~= models_help(current@, model_routes@, views(cached_models@)));
    }
    response
}

/// `/models` help: current route and every known provider with its aliases.
pub fn build_providers_help_response(current: &SlashRouteSelection, providers: &[ProviderInfo]) -> (r: String)
    ensures
        r@ == providers_help(current@, providers@),
{
    let mut response = String::new();
    push_current_header(&mut response, current);
    response.push_str("\nSwitch provider with `/models <provider>`.\n");
    response.push_str("Switch model with `/model <model-id>`.\n\n");
    response.push_str("Available providers:\n");
    push_provider_lines(&mut response, providers, true);
    proof {
        assert(response@ =~= providers_help(current@, providers@));
    }
    response
}

/// Plain-text `/config` response (non-Slack).
pub fn build_config_text_response(current: &SlashRouteSelection, model_routes: &[ModelRouteConfig], providers: &[ProviderInfo]) -> (r: String)
    ensures
        r@ == config_text(current@, model_routes@, providers@),
{
    let mut resp = String::new();
    push_current_header(&mut resp, current);
    resp.push_str("\nAvailable providers:\n");
    push_provider_lines(&mut resp, providers, false);
    if model_routes.len() > 0 {
        resp.push_str("\nConfigured model routes:\n");
        push_route_lines(&mut resp, model_routes, "->");
    }
    resp.push_str("\nUse `/models <provider>` to switch provider.\nUse `/model <model-id>` to switch model.");
    proof {
        assert(resp@ =~= config_text(current@, model_routes@, providers@));
    }
    resp
}

} // verus!
