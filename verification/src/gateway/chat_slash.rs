//! Gateway WebSocket slash commands (`/new`, `/models`, …) — shared parsing lives in
//! [`crate::channels::runtime_slash`].
//!
//! Switching provider needs the host to initialize the provider first:
//! [`handle_gateway_ws_slash`] then asks for that check, and
//! [`finish_provider_switch`] completes the command with its outcome.

use vstd::prelude::*;
use crate::channels::runtime_slash::{
    build_config_text_response, build_models_help_response, build_providers_help_response, clone_opt_string,
    config_text, gateway_ws_slash, models_help, opt_str_view, parse_gateway_ws_slash, provider_alias,
    providers_help, resolve_provider_alias, ModelRouteConfig, ParsedRuntimeSlash, ProviderInfo, RouteView,
    SlashCommand, SlashRouteSelection,
};
use crate::text::{chars_of, eq_ignore_case, eq_ignore_case_chars, string_of, trim, trim_char, trim_char_chars, trim_chars, views};

verus! {

/// The gateway's part of the configuration: default route and model routes.
pub struct GatewayChatConfig {
    pub default_provider: Option<String>,
    pub default_model: Option<String>,
    pub model_routes: Vec<ModelRouteConfig>,
    /// The model a session starts with when no default model is configured.
    pub fallback_model: String,
}

/// Outcome of handling a slash-only message on `/ws/chat`.
pub struct GatewaySlashResult {
    pub reply: String,
    pub clear_chat_session: bool,
    /// When set, rebind the agent's provider to this (provider, model, api key).
    pub rebind: Option<(String, String, Option<String>)>,
}

/// A slash result over plain text values.
pub struct SlashReplyView {
    pub reply: Seq<char>,
    pub clear: bool,
    pub rebind: Option<RouteView>,
}

impl View for GatewaySlashResult {
    type V = SlashReplyView;

    open spec fn view(&self) -> SlashReplyView {
        SlashReplyView {
            reply: self.reply@,
            clear: self.clear_chat_session,
            rebind: match self.rebind {
                Some((p, m, k)) => Some(RouteView { provider: p@, model: m@, api_key: opt_str_view(k) }),
                None => None,
            },
        }
    }
}

/// Route selections per gateway session key.
pub struct GatewayRoutes {
    entries: Vec<(String, SlashRouteSelection)>,
}

/// The selection stored under `k` in `es[i..]` (first match).
pub open spec fn lookup(es: Seq<(String, SlashRouteSelection)>, k: Seq<char>, i: int) -> Option<RouteView>
    decreases es.len() - i,
{
    if i >= es.len() {
        None
    } else if es[i].0@ == k {
        Some(es[i].1@)
    } else {
        lookup(es, k, i + 1)
    }
}

proof fn lemma_lookup_agree(a: Seq<(String, SlashRouteSelection)>, b: Seq<(String, SlashRouteSelection)>, k: Seq<char>, i: int)
    requires
        0 <= i,
        a.len() == b.len(),
        forall|m: int| i <= m < a.len() ==> a[m] == b[m],
    ensures
        lookup(a, k, i) == lookup(b, k, i),
    decreases a.len() - i,
{
    if i < a.len() {
        lemma_lookup_agree(a, b, k, i + 1);
    }
}

proof fn lemma_lookup_update(es: Seq<(String, SlashRouteSelection)>, j: int, e: (String, SlashRouteSelection), k: Seq<char>, i: int)
    requires
        0 <= i <= j,
        j < es.len(),
        es[j].0@ == e.0@,
        forall|m: int| i <= m < j ==> es[m].0@ != e.0@,
    ensures
        lookup(es.update(j, e), k, i) == if k == e.0@ { Some(e.1@) } else { lookup(es, k, i) },
    decreases es.len() - i,
{
    let u = es.update(j, e);
    if i < j {
        assert(u[i] == es[i]);
        lemma_lookup_update(es, j, e, k, i + 1);
    } else {
        assert(u[j] == e);
        lemma_lookup_agree(u, es, k, j + 1);
    }
}

proof fn lemma_lookup_push(es: Seq<(String, SlashRouteSelection)>, e: (String, SlashRouteSelection), k: Seq<char>, i: int)
    requires
        0 <= i <= es.len(),
        lookup(es, e.0@, i) is None,
    ensures
        lookup(es.push(e), k, i) == if k == e.0@ { Some(e.1@) } else { lookup(es, k, i) },
    decreases es.len() - i,
{
    let p = es.push(e);
    if i < es.len() {
        assert(p[i] == es[i]);
        lemma_lookup_push(es, e, k, i + 1);
    } else {
        assert(p[i] == e);
        assert(lookup(p, k, i + 1) is None);
        assert(lookup(es, k, i) is None);
    }
}

proof fn lemma_lookup_split(es: Seq<(String, SlashRouteSelection)>, k: Seq<char>, i: int)
    requires
        0 <= i <= es.len(),
    ensures
        lookup(es, k, 0) == match lookup(es.subrange(0, i), k, 0) {
            Some(v) => Some(v),
            None => lookup(es, k, i),
        },
    decreases i,
{
    if i > 0 {
        lemma_lookup_split(es, k, i - 1);
        assert(es.subrange(0, i - 1) =~= es.subrange(0, i).subrange(0, i - 1));
        lemma_lookup_prefix(es.subrange(0, i), es.subrange(0, i - 1), k, 0);
        assert(es.subrange(0, i).last() == es[i - 1]);
    }
}

proof fn lemma_lookup_prefix(long: Seq<(String, SlashRouteSelection)>, short: Seq<(String, SlashRouteSelection)>, k: Seq<char>, i: int)
    requires
        0 <= i <= short.len(),
        short.len() + 1 == long.len(),
        short == long.subrange(0, short.len() as int),
    ensures
        lookup(long, k, i) == match lookup(short, k, i) {
            Some(v) => Some(v),
            None => if long.last().0@ == k { Some(long.last().1@) } else { None },
        },
    decreases short.len() - i,
{
    if i < short.len() {
        assert(long[i] == short[i]);
        lemma_lookup_prefix(long, short, k, i + 1);
    } else {
        assert(long[short.len() as int] == long.last());
        assert(lookup(long, k, i + 1) is None);
        assert(lookup(short, k, i) is None);
    }
}

impl GatewayRoutes {
    /// The selection stored for session key `k`, if any.
    pub closed spec fn route_of(&self, k: Seq<char>) -> Option<RouteView> {
        lookup(self.entries@, k, 0)
    }

    pub fn new() -> (r: GatewayRoutes)
        ensures
            forall|k: Seq<char>| r.route_of(k) is None,
    {
        GatewayRoutes { entries: Vec::new() }
    }

    /// The selection stored for `key`, if any.
    pub fn get(&self, key: &str) -> (r: Option<SlashRouteSelection>)
        ensures
            match r {
                Some(s) => self.route_of(key@) == Some(s@),
                None => self.route_of(key@) is None,
            },
    {
        let mut i: usize = 0;
        while i < self.entries.len()
            invariant
                i <= self.entries@.len(),
                lookup(self.entries@, key@, 0) == lookup(self.entries@, key@, i as int),
            decreases self.entries@.len() - i,
        {
            if self.entries[i].0 == key.to_owned() {
                return Some(self.entries[i].1.clone_route());
            }
            i = i + 1;
        }
        None
    }

    /// Store `sel` for `key`, replacing what was there.
    pub fn insert(&mut self, key: &str, sel: SlashRouteSelection)
        ensures
            final(self).route_of(key@) == Some(sel@),
            forall|k: Seq<char>| k != key@ ==> final(self).route_of(k) == old(self).route_of(k),
    {
        let mut i: usize = 0;
        while i < self.entries.len()
            invariant
                i <= self.entries@.len(),
                forall|m: int| 0 <= m < i ==> self.entries@[m].0@ != key@,
                lookup(self.entries@, key@, 0) == lookup(self.entries@, key@, i as int),
            ensures
                i <= self.entries@.len(),
                forall|m: int| 0 <= m < i ==> self.entries@[m].0@ != key@,
                lookup(self.entries@, key@, 0) == lookup(self.entries@, key@, i as int),
                i < self.entries@.len() ==> self.entries@[i as int].0@ == key@,
            decreases self.entries@.len() - i,
        {
            if self.entries[i].0 == key.to_owned() {
                break;
            }
            i = i + 1;
        }
        let ghost es = self.entries@;
        let e = (key.to_owned(), sel);
        proof {
            assert forall|k: Seq<char>| lookup(es, k, 0) == match lookup(es.subrange(0, i as int), k, 0) {
                Some(v) => Some(v),
                None => lookup(es, k, i as int),
            } by {
                lemma_lookup_split(es, k, i as int);
            }
        }
        if i < self.entries.len() {
            self.entries.set(i, e);
            proof {
                assert(es[i as int].0@ == key@);
                assert forall|k: Seq<char>| #[trigger] lookup(es.update(i as int, e), k, 0) == if k == key@ {
                    Some(sel@)
                } else {
                    lookup(es, k, 0)
                } by {
                    lemma_lookup_update(es, i as int, e, k, 0);
                }
            }
        } else {
            self.entries.push(e);
            proof {
                assert(lookup(es, key@, es.len() as int) is None);
                assert forall|k: Seq<char>| #[trigger] lookup(es.push(e), k, 0) == if k == key@ {
                    Some(sel@)
                } else {
                    lookup(es, k, 0)
                } by {
                    lemma_lookup_push(es, e, k, 0);
                }
            }
        }
    }

    /// Forget what is stored for `key`.
    pub fn remove(&mut self, key: &str)
        ensures
            final(self).route_of(key@) is None,
            forall|k: Seq<char>| k != key@ ==> final(self).route_of(k) == old(self).route_of(k),
    {
        let ghost es = self.entries@;
        let mut kept: Vec<(String, SlashRouteSelection)> = Vec::new();
        let mut i: usize = 0;
        proof {
            assert(es.subrange(0, 0) =~= Seq::<(String, SlashRouteSelection)>::empty());
        }
        while i < self.entries.len()
            invariant
                i <= es.len(),
                es == self.entries@,
                forall|k: Seq<char>| k != key@ ==> lookup(kept@, k, 0) == lookup(es.subrange(0, i as int), k, 0),
                lookup(kept@, key@, 0) is None,
            decreases es.len() - i,
        {
            let ghost prev = kept@;
            proof {
                assert(es.subrange(0, i as int) =~= es.subrange(0, i + 1).subrange(0, i as int));
            }
            if self.entries[i].0 != key.to_owned() {
                let e = (self.entries[i].0.clone(), self.entries[i].1.clone_route());
                kept.push(e);
                proof {
                    assert(prev =~= kept@.subrange(0, prev.len() as int));
                    assert forall|k: Seq<char>| k != key@ implies lookup(kept@, k, 0) == lookup(es.subrange(0, i + 1), k, 0) by {
                        lemma_lookup_prefix(kept@, prev, k, 0);
                        lemma_lookup_prefix(es.subrange(0, i + 1), es.subrange(0, i as int), k, 0);
                    }
                    lemma_lookup_prefix(kept@, prev, key@, 0);
                }
            } else {
                proof {
                    assert forall|k: Seq<char>| k != key@ implies lookup(kept@, k, 0) == lookup(es.subrange(0, i + 1), k, 0) by {
                        lemma_lookup_prefix(es.subrange(0, i + 1), es.subrange(0, i as int), k, 0);
                    }
                }
            }
            i = i + 1;
        }
        proof {
            assert(es.subrange(0, es.len() as int) =~= es);
        }
        self.entries = kept;
    }
}

/// The provider a gateway session starts with when none is configured.
pub open spec fn builtin_default_provider() -> Seq<char> {
    "openrouter"@
}

/// The route a gateway session starts with: the configured default provider and
/// model, else the built-in default provider with the configured fallback model.
pub open spec fn default_route(config: GatewayChatConfig) -> RouteView {
    RouteView {
        provider: match config.default_provider {
            Some(p) => p@,
            None => builtin_default_provider(),
        },
        model: match config.default_model {
            Some(m) => m@,
            None => config.fallback_model@,
        },
        api_key: None,
    }
}

/// The route in effect for `key`: the stored one, else the default.
pub open spec fn route_in_effect(routes: GatewayRoutes, key: Seq<char>, config: GatewayChatConfig) -> RouteView {
    match routes.route_of(key) {
        Some(r) => r,
        None => default_route(config),
    }
}

pub fn default_gateway_route(config: &GatewayChatConfig) -> (r: SlashRouteSelection)
    ensures
        r@ == default_route(*config),
{
    SlashRouteSelection {
        provider: match &config.default_provider {
            Some(p) => p.clone(),
            None => "openrouter".to_owned(),
        },
        model: match &config.default_model {
            Some(m) => m.clone(),
            None => config.fallback_model.clone(),
        },
        api_key: None,
    }
}

pub fn get_gateway_route(routes: &GatewayRoutes, session_key: &str, config: &GatewayChatConfig) -> (r: SlashRouteSelection)
    ensures
        r@ == route_in_effect(*routes, session_key@, *config),
{
    match routes.get(session_key) {
        Some(s) => s,
        None => default_gateway_route(config),
    }
}

/// Store `next` for `session_key`; a selection equal to `defaults` is not stored
/// (the key falls back to the default).
pub fn set_gateway_route(routes: &mut GatewayRoutes, session_key: &str, next: SlashRouteSelection, defaults: &SlashRouteSelection)
    ensures
        final(routes).route_of(session_key@) == if next@ == defaults@ { None } else { Some(next@) },
        forall|k: Seq<char>| k != session_key@ ==> final(routes).route_of(k) == old(routes).route_of(k),
{
    if next.same_as(defaults) {
        routes.remove(session_key);
    } else {
        routes.insert(session_key, next);
    }
}

/// After storing a route for a key, the route in effect for that key is the one
/// stored (storing the default is the same as storing nothing).
pub proof fn lemma_set_then_get(before: GatewayRoutes, after: GatewayRoutes, key: Seq<char>, next: RouteView, config: GatewayChatConfig)
    requires
        after.route_of(key) == if next == default_route(config) { None } else { Some(next) },
    ensures
        route_in_effect(after, key, config) == next,
{
}

/// What the host does next for a gateway chat message.
pub enum GatewaySlashStep {
    /// Not a runtime slash command: pass the message to the agent.
    NotSlash,
    /// Reply with this result.
    Reply(GatewaySlashResult),
    /// Initialize this provider, then call [`finish_provider_switch`] with the outcome.
    ValidateProvider(String),
}

/// Index of the first model route whose model or hint equals `m` ignoring ASCII case.
pub open spec fn first_route_match(routes: Seq<ModelRouteConfig>, m: Seq<char>, i: int) -> int
    decreases routes.len() - i,
{
    if i >= routes.len() {
        routes.len() as int
    } else if eq_ignore_case(routes[i].model@, m) || eq_ignore_case(routes[i].hint@, m) {
        i
    } else {
        first_route_match(routes, m, i + 1)
    }
}

/// The route `/model <raw>` switches to, from route `c`: the matching model
/// route's provider, model and key, else `c` with the model replaced.
pub open spec fn model_switch_target(c: RouteView, routes: Seq<ModelRouteConfig>, m: Seq<char>) -> RouteView {
    let i = first_route_match(routes, m, 0);
    if i < routes.len() {
        RouteView { provider: routes[i].provider@, model: routes[i].model@, api_key: opt_str_view(routes[i].api_key) }
    } else {
        RouteView { provider: c.provider, model: m, api_key: c.api_key }
    }
}

proof fn lemma_first_route_match_is(routes: Seq<ModelRouteConfig>, m: Seq<char>, i: int, j: int)
    requires
        0 <= i <= j <= routes.len(),
        j < routes.len() ==> (eq_ignore_case(routes[j].model@, m) || eq_ignore_case(routes[j].hint@, m)),
        forall|k: int| i <= k < j ==> !(eq_ignore_case(#[trigger] routes[k].model@, m) || eq_ignore_case(routes[k].hint@, m)),
    ensures
        first_route_match(routes, m, i) == j,
    decreases j - i,
{
    if i < j {
        lemma_first_route_match_is(routes, m, i + 1, j);
    }
}

/// `/model <m>` that names a configured model route (by its model or its hint,
/// ignoring ASCII case) switches to exactly that route's provider, model and API
/// key, the first such route winning; a model that no route names keeps the
/// current provider and key and only replaces the model.
pub proof fn lemma_model_switch_follows_routes(c: RouteView, routes: Seq<ModelRouteConfig>, m: Seq<char>, j: int)
    ensures
        (0 <= j < routes.len() && (eq_ignore_case(routes[j].model@, m) || eq_ignore_case(routes[j].hint@, m))
            && (forall|k: int| 0 <= k < j ==> !(eq_ignore_case(#[trigger] routes[k].model@, m) || eq_ignore_case(routes[k].hint@, m))))
            ==> {
            let t = model_switch_target(c, routes, m);
            &&& t.provider == routes[j].provider@
            &&& t.model == routes[j].model@
            &&& t.api_key == match routes[j].api_key {
                Some(k) => Some(k@),
                None => None::<Seq<char>>,
            }
        },
        (forall|k: int| 0 <= k < routes.len() ==> !(eq_ignore_case(#[trigger] routes[k].model@, m) || eq_ignore_case(routes[k].hint@, m)))
            ==> model_switch_target(c, routes, m) == (RouteView { provider: c.provider, model: m, api_key: c.api_key }),
{
    if 0 <= j < routes.len() && (eq_ignore_case(routes[j].model@, m) || eq_ignore_case(routes[j].hint@, m))
        && (forall|k: int| 0 <= k < j ==> !(eq_ignore_case(#[trigger] routes[k].model@, m) || eq_ignore_case(routes[k].hint@, m))) {
        lemma_first_route_match_is(routes, m, 0, j);
    }
    if forall|k: int| 0 <= k < routes.len() ==> !(eq_ignore_case(#[trigger] routes[k].model@, m) || eq_ignore_case(routes[k].hint@, m)) {
        lemma_first_route_match_is(routes, m, 0, routes.len() as int);
    }
}

/// `/model <raw>`: the id with whitespace and backticks stripped.
pub open spec fn model_id(raw: Seq<char>) -> Seq<char> {
    trim_char(trim(raw), '`')
}

pub open spec fn reply_only(r: SlashReplyView, text: Seq<char>) -> bool {
    r.reply == text && !r.clear && r.rebind is None
}

fn reply(text: String) -> (r: GatewaySlashResult)
    ensures
        reply_only(r@, text@),
{
    GatewaySlashResult { reply: text, clear_chat_session: false, rebind: None }
}

fn rebind_of(c: &SlashRouteSelection) -> (r: (String, String, Option<String>))
    ensures
        r.0@ == c@.provider,
        r.1@ == c@.model,
        opt_str_view(r.2) == c@.api_key,
{
    (c.provider.clone(), c.model.clone(), clone_opt_string(&c.api_key))
}

/// If `content` is a runtime slash command for gateway chat, decide the reply
/// and its effect on the session's stored route. `providers` are the known
/// providers; `cached_models` the cached model ids for the session's current
/// provider (read by the host).
pub fn handle_gateway_ws_slash(
    routes: &mut GatewayRoutes,
    session_key: &str,
    content: &str,
    config: &GatewayChatConfig,
    providers: &[ProviderInfo],
    cached_models: &Vec<String>,
) -> (r: GatewaySlashStep)
    ensures
        ({
            let current = route_in_effect(*old(routes), session_key@, *config);
            match gateway_ws_slash(content@) {
                None => r is NotSlash && *final(routes) == *old(routes),
                Some(SlashCommand::NewSession) => *final(routes) == *old(routes) && (r matches GatewaySlashStep::Reply(res)
                    && res@.reply == "Conversation history cleared. Starting fresh."@ && res@.clear && res@.rebind is None),
                Some(SlashCommand::ShowProviders) => *final(routes) == *old(routes) && (r matches GatewaySlashStep::Reply(res)
                    && reply_only(res@, providers_help(current, providers@))),
                Some(SlashCommand::ShowModel) => *final(routes) == *old(routes) && (r matches GatewaySlashStep::Reply(res)
                    && reply_only(res@, models_help(current, config.model_routes@, views(cached_models@)))),
                Some(SlashCommand::ShowConfig) => *final(routes) == *old(routes) && (r matches GatewaySlashStep::Reply(res)
                    && reply_only(res@, config_text(current, config.model_routes@, providers@))),
                Some(SlashCommand::SetProvider(raw)) => *final(routes) == *old(routes) && (match provider_alias(providers@, raw) {
                    None => r matches GatewaySlashStep::Reply(res) && reply_only(
                        res@,
                        "Unknown provider `"@ + raw + "`. Use `/models` to list valid providers."@,
                    ),
                    Some(name) => r matches GatewaySlashStep::ValidateProvider(n) && n@ == name,
                }),
                Some(SlashCommand::SetModel(raw)) => {
                    let m = model_id(raw);
                    if m.len() == 0 {
                        *final(routes) == *old(routes) && (r matches GatewaySlashStep::Reply(res) && reply_only(
                            res@,
                            "Model ID cannot be empty. Use `/model <model-id>`."@,
                        ))
                    } else {
                        let t = model_switch_target(current, config.model_routes@, m);
                        &&& final(routes).route_of(session_key@) == if t == default_route(*config) { None } else { Some(t) }
                        &&& forall|k: Seq<char>| k != session_key@ ==> final(routes).route_of(k) == old(routes).route_of(k)
                        &&& r matches GatewaySlashStep::Reply(res)
                        &&& res@.reply == "Model switched to `"@ + t.model + "` (provider: `"@ + t.provider + "`). Context preserved."@
                        &&& !res@.clear
                        &&& res@.rebind == Some(t)
                    }
                },
            }
        }),
{
    let parsed = match parse_gateway_ws_slash(content) {
        None => return GatewaySlashStep::NotSlash,
        Some(p) => p,
    };
    let defaults = default_gateway_route(config);
    let mut current = get_gateway_route(routes, session_key, config);
    match parsed {
        ParsedRuntimeSlash::NewSession => GatewaySlashStep::Reply(GatewaySlashResult {
            reply: "Conversation history cleared. Starting fresh.".to_owned(),
            clear_chat_session: true,
            rebind: None,
        }),
        ParsedRuntimeSlash::ShowProviders => GatewaySlashStep::Reply(reply(build_providers_help_response(&current, providers))),
        ParsedRuntimeSlash::ShowModel => GatewaySlashStep::Reply(
            reply(build_models_help_response(&current, config.model_routes.as_slice(), cached_models)),
        ),
        ParsedRuntimeSlash::ShowConfig => GatewaySlashStep::Reply(
            reply(build_config_text_response(&current, config.model_routes.as_slice(), providers)),
        ),
        ParsedRuntimeSlash::SetProvider(raw) => match resolve_provider_alias(raw.as_str(), providers) {
            Some(name) => GatewaySlashStep::ValidateProvider(name),
            None => {
                let mut m = "Unknown provider `".to_owned();
                m.push_str(raw.as_str());
                m.push_str("`. Use `/models` to list valid providers.");
                GatewaySlashStep::Reply(reply(m))
            },
        },
        ParsedRuntimeSlash::SetModel(raw) => {
            let m = trim_char_chars(&trim_chars(&chars_of(raw.as_str())), '`');
            if m.len() == 0 {
                return GatewaySlashStep::Reply(reply("Model ID cannot be empty. Use `/model <model-id>`.".to_owned()));
            }
            let mut i: usize = 0;
            while i < config.model_routes.len()
                invariant
                    i <= config.model_routes@.len(),
                    first_route_match(config.model_routes@, m@, 0) == first_route_match(config.model_routes@, m@, i as int),
                ensures
                    i <= config.model_routes@.len(),
                    first_route_match(config.model_routes@, m@, 0) == first_route_match(config.model_routes@, m@, i as int),
                    i < config.model_routes@.len() ==> first_route_match(config.model_routes@, m@, 0) == i,
                decreases config.model_routes@.len() - i,
            {
                let rt = &config.model_routes[i];
                if eq_ignore_case_chars(&chars_of(rt.model.as_str()), &m) || eq_ignore_case_chars(&chars_of(rt.hint.as_str()), &m) {
                    break;
                }
                i = i + 1;
            }
            if i < config.model_routes.len() {
                let rt = &config.model_routes[i];
                current.provider = rt.provider.clone();
                current.model = rt.model.clone();
                current.api_key = clone_opt_string(&rt.api_key);
            } else {
                current.model = string_of(&m);
            }
            let rb = rebind_of(&current);
            let mut text = "Model switched to `".to_owned();
            text.push_str(current.model.as_str());
            text.push_str("` (provider: `");
            text.push_str(current.provider.as_str());
            text.push_str("`). Context preserved.");
            set_gateway_route(routes, session_key, current, &defaults);
            GatewaySlashStep::Reply(GatewaySlashResult { reply: text, clear_chat_session: false, rebind: Some(rb) })
        },
    }
}

/// Complete `/models <provider>` once the host has tried to initialize
/// `provider_name`: on success the session's route switches provider (when it
/// differs) and the agent is rebound; on failure the route is unchanged and the
/// reply carries the (sanitized) error text.
pub fn finish_provider_switch(
    routes: &mut GatewayRoutes,
    session_key: &str,
    config: &GatewayChatConfig,
    provider_name: &str,
    init: Result<(), String>,
) -> (r: GatewaySlashResult)
    ensures
        ({
            let current = route_in_effect(*old(routes), session_key@, *config);
            match init {
                Err(e) => *final(routes) == *old(routes) && reply_only(
                    r@,
                    "Failed to initialize provider `"@ + provider_name@ + "`. Route unchanged.\nDetails: "@ + e@,
                ),
                Ok(()) => {
                    if provider_name@ == current.provider {
                        *final(routes) == *old(routes) && reply_only(
                            r@,
                            "Provider switched to `"@ + provider_name@ + "` for this browser session. Current model is `"@
                                + current.model + "`.\nUse `/model <model-id>` to set a provider-compatible model."@,
                        )
                    } else {
                        let t = RouteView { provider: provider_name@, model: current.model, api_key: current.api_key };
                        &&& final(routes).route_of(session_key@) == if t == default_route(*config) { None } else { Some(t) }
                        &&& forall|k: Seq<char>| k != session_key@ ==> final(routes).route_of(k) == old(routes).route_of(k)
                        &&& r@.reply == "Provider switched to `"@ + provider_name@ + "` for this browser session. Current model is `"@
                            + current.model + "`.\nUse `/model <model-id>` to set a provider-compatible model."@
                        &&& !r@.clear
                        &&& r@.rebind == Some(t)
                    }
                },
            }
        }),
{
    match init {
        Err(e) => {
            let mut m = "Failed to initialize provider `".to_owned();
            m.push_str(provider_name);
            m.push_str("`. Route unchanged.\nDetails: ");
            m.push_str(e.as_str());
            reply(m)
        },
        Ok(()) => {
            let defaults = default_gateway_route(config);
            let mut current = get_gateway_route(routes, session_key, config);
            let mut rebind = None;
            if current.provider != provider_name.to_owned() {
                current.provider = provider_name.to_owned();
                rebind = Some(rebind_of(&current));
                let next = current.clone_route();
                set_gateway_route(routes, session_key, next, &defaults);
            }
            let mut text = "Provider switched to `".to_owned();
            text.push_str(provider_name);
            text.push_str("` for this browser session. Current model is `");
            text.push_str(current.model.as_str());
            text.push_str("`.\nUse `/model <model-id>` to set a provider-compatible model.");
            GatewaySlashResult { reply: text, clear_chat_session: false, rebind }
        },
    }
}

/// Entries of the slash-command catalog (`GET /api/chat-slash-commands`).
pub fn slash_command_entries() -> (r: Vec<(String, String)>)
    ensures
        r@.len() == 5,
        r@[0].0@ == "/new"@ && r@[0].1@ == "Clear this chat session and start fresh"@,
        r@[1].0@ == "/reset"@ && r@[1].1@ == "Same as /new"@,
        r@[2].0@ == "/models"@ && r@[2].1@ == "List providers or /models <provider> to switch"@,
        r@[3].0@ == "/model"@ && r@[3].1@ == "Show models or /model <id> to switch"@,
        r@[4].0@ == "/config"@ && r@[4].1@ == "Show current provider, model, and routes"@,
{
    let mut v: Vec<(String, String)> = Vec::new();
    v.push(("/new".to_owned(), "Clear this chat session and start fresh".to_owned()));
    v.push(("/reset".to_owned(), "Same as /new".to_owned()));
    v.push(("/models".to_owned(), "List providers or /models <provider> to switch".to_owned()));
    v.push(("/model".to_owned(), "Show models or /model <id> to switch".to_owned()));
    v.push(("/config".to_owned(), "Show current provider, model, and routes".to_owned()));
    v
}

/// The API URL to initialize `provider_name` with: the configured `api_url`
/// applies only to the default provider (`openrouter` when none is configured).
pub fn provider_init_api_url(provider_name: &str, default_provider: Option<&str>, api_url: Option<&str>) -> (r: Option<String>)
    ensures
        ({
            let d = match default_provider {
                Some(p) => p@,
                None => "openrouter"@,
            };
            if provider_name@ == d {
                match api_url {
                    Some(u) => r matches Some(x) && x@ == u@,
                    None => r is None,
                }
            } else {
                r is None
            }
        }),
{
    let d = match default_provider {
        Some(p) => p,
        None => "openrouter",
    };
    if crate::text::str_eq(provider_name, d) {
        match api_url {
            Some(u) => Some(u.to_owned()),
            None => None,
        }
    } else {
        None
    }
}

} // verus!
