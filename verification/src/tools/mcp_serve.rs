//! MCP **server** policy and JSON-RPC handling: expose a curated allowlist of
//! tools over JSON-RPC (protocol `2024-11-05`).
//!
//! Transports (run by the host):
//! - **stdio** — one JSON-RPC object per line;
//! - **HTTP** — `POST /mcp` with a JSON-RPC body; `Authorization: Bearer` required when
//!   `[mcp_serve].auth_token` is set.

use vstd::prelude::*;
use vstd::multiset::Multiset;
use crate::text::push_dec;
use crate::tools::result::ToolResult;
use crate::text::{
    chars_of, eq_ignore_case, eq_ignore_case_chars, has_prefix, slice_chars, starts_with_chars, str_eq,
    string_of, trim, trim_chars, views,
};

verus! {

broadcast use vstd::string::group_string_axioms;

// ---------------------------------------------------------------------------
// Lexicographic order on names

/// `a[i..]` sorts strictly before `b[i..]`, character by character (the order
/// of `String`'s `Ord`, which compares UTF-8 bytes and so code points).
pub open spec fn lex_lt_from(a: Seq<char>, b: Seq<char>, i: int) -> bool
    decreases a.len() - i,
{
    if i >= a.len() {
        i < b.len()
    } else if i >= b.len() {
        false
    } else if a[i] != b[i] {
        a[i] < b[i]
    } else {
        lex_lt_from(a, b, i + 1)
    }
}

/// `a` sorts strictly before `b`.
pub open spec fn lex_lt(a: Seq<char>, b: Seq<char>) -> bool {
    lex_lt_from(a, b, 0)
}

pub proof fn lemma_lex_irreflexive(a: Seq<char>, i: int)
    requires
        0 <= i,
    ensures
        !lex_lt_from(a, a, i),
    decreases a.len() - i,
{
    if i < a.len() {
        lemma_lex_irreflexive(a, i + 1);
    }
}

pub proof fn lemma_lex_transitive(a: Seq<char>, b: Seq<char>, c: Seq<char>, i: int)
    requires
        0 <= i,
        lex_lt_from(a, b, i),
        lex_lt_from(b, c, i),
    ensures
        lex_lt_from(a, c, i),
    decreases a.len() - i,
{
    if i < a.len() && i < b.len() && i < c.len() && a[i] == b[i] && b[i] == c[i] {
        lemma_lex_transitive(a, b, c, i + 1);
    }
}

pub proof fn lemma_lex_total(a: Seq<char>, b: Seq<char>, i: int)
    requires
        0 <= i <= a.len(),
        i <= b.len(),
        a.subrange(0, i) == b.subrange(0, i),
    ensures
        lex_lt_from(a, b, i) || lex_lt_from(b, a, i) || a == b,
    decreases a.len() - i,
{
    if i < a.len() && i < b.len() && a[i] == b[i] {
        assert(a.subrange(0, i + 1) =~= a.subrange(0, i).push(a[i]));
        assert(b.subrange(0, i + 1) =~= b.subrange(0, i).push(b[i]));
        lemma_lex_total(a, b, i + 1);
    } else if i == a.len() && i == b.len() {
        assert(a =~= a.subrange(0, i));
        assert(b =~= b.subrange(0, i));
    }
}

/// Whether `a` sorts strictly before `b`.
pub fn lex_less(a: &str, b: &str) -> (r: bool)
    ensures
        r == lex_lt(a@, b@),
{
    let x = chars_of(a);
    let y = chars_of(b);
    let mut i: usize = 0;
    while i < x.len() && i < y.len() && x[i] == y[i]
        invariant
            i <= x@.len(),
            i <= y@.len(),
            x@ == a@,
            y@ == b@,
            lex_lt(a@, b@) == lex_lt_from(a@, b@, i as int),
        decreases x@.len() - i,
    {
        i = i + 1;
    }
    if i >= x.len() {
        i < y.len()
    } else if i >= y.len() {
        false
    } else {
        x[i] < y[i]
    }
}

/// Every name sorts strictly before the names after it.
pub open spec fn strictly_sorted(v: Seq<Seq<char>>) -> bool {
    forall|i: int, j: int| 0 <= i < j < v.len() ==> lex_lt(v[i], v[j])
}

/// Two strictly sorted name lists holding the same names are the same list:
/// the merged allowlist depends only on which names were requested, not on
/// their order or repetition.
pub proof fn lemma_allowlist_determined_by_names(a: Seq<Seq<char>>, b: Seq<Seq<char>>)
    requires
        strictly_sorted(a),
        strictly_sorted(b),
        forall|x: Seq<char>| a.contains(x) <==> b.contains(x),
    ensures
        a == b,
    decreases a.len(),
{
    if a.len() == 0 {
        if b.len() > 0 {
            assert(b.contains(b[0]));
        }
        assert(a =~= b);
    } else {
        assert(a.contains(a[0]));
        let j = choose|j: int| 0 <= j < b.len() && b[j] == a[0];
        assert(b.contains(b[0]));
        let i = choose|i: int| 0 <= i < a.len() && a[i] == b[0];
        if i > 0 && j > 0 {
            assert(lex_lt(a[0], a[i]));
            assert(lex_lt(b[0], b[j]));
            lemma_lex_transitive(a[0], b[0], a[0], 0);
            lemma_lex_irreflexive(a[0], 0);
        } else if i > 0 {
            assert(lex_lt(a[0], a[i]));
            lemma_lex_irreflexive(a[0], 0);
        } else if j > 0 {
            assert(lex_lt(b[0], b[j]));
            lemma_lex_irreflexive(b[0], 0);
        }
        assert(a[0] == b[0]);
        let ta = a.drop_first();
        let tb = b.drop_first();
        assert forall|x: Seq<char>| ta.contains(x) <==> tb.contains(x) by {
            if ta.contains(x) {
                let k = choose|k: int| 0 <= k < ta.len() && ta[k] == x;
                assert(a[k + 1] == x);
                assert(lex_lt(a[0], a[k + 1]));
                lemma_lex_irreflexive(x, 0);
                assert(b.contains(x));
                let m = choose|m: int| 0 <= m < b.len() && b[m] == x;
                assert(m != 0);
                assert(tb[m - 1] == x);
            }
            if tb.contains(x) {
                let k = choose|k: int| 0 <= k < tb.len() && tb[k] == x;
                assert(b[k + 1] == x);
                assert(lex_lt(b[0], b[k + 1]));
                lemma_lex_irreflexive(x, 0);
                assert(a.contains(x));
                let m = choose|m: int| 0 <= m < a.len() && a[m] == x;
                assert(m != 0);
                assert(ta[m - 1] == x);
            }
        }
        assert(strictly_sorted(ta)) by {
            assert forall|p: int, q: int| 0 <= p < q < ta.len() implies lex_lt(ta[p], ta[q]) by {
                assert(ta[p] == a[p + 1] && ta[q] == a[q + 1]);
            }
        }
        assert(strictly_sorted(tb)) by {
            assert forall|p: int, q: int| 0 <= p < q < tb.len() implies lex_lt(tb[p], tb[q]) by {
                assert(tb[p] == b[p + 1] && tb[q] == b[q + 1]);
            }
        }
        lemma_allowlist_determined_by_names(ta, tb);
        assert(a =~= b) by {
            assert forall|k: int| 0 <= k < a.len() implies a[k] == b[k] by {
                if k > 0 {
                    assert(a[k] == ta[k - 1] && b[k] == tb[k - 1]);
                }
            }
        }
    }
}

// ---------------------------------------------------------------------------
// Allowlist

/// `[mcp_serve]` settings.
pub struct McpServeConfig {
    /// Tool names to expose (merged with `--allow-tool`).
    pub allowed_tools: Vec<String>,
    /// Per-tool execution timeout.
    pub tool_timeout_secs: u64,
    /// Allow any registered tool name on the allowlist.
    pub relax_tool_policy: bool,
    /// Default HTTP listen address.
    pub http_bind: String,
    /// Default HTTP listen port.
    pub http_port: u16,
    /// Optional bearer secret for HTTP; enables non-loopback binds when set.
    pub auth_token: Option<String>,
}

/// The names exposed when neither the config nor the command line name any.
pub open spec fn default_tools() -> Seq<Seq<char>> {
    seq!["memory_recall"@, "file_read"@]
}

/// When `[mcp_serve].allowed_tools` and CLI `--allow-tool` are both empty, expose these names.
pub fn default_mcp_serve_tool_names() -> (r: Vec<String>)
    ensures
        views(r@) == default_tools(),
{
    let mut v: Vec<String> = Vec::new();
    v.push("memory_recall".to_owned());
    v.push("file_read".to_owned());
    proof {
        assert(views(v@) =~= default_tools());
    }
    v
}

/// The command-line names, trimmed, blank ones dropped.
pub open spec fn cli_names(cli: Seq<Seq<char>>) -> Seq<Seq<char>>
    decreases cli.len(),
{
    if cli.len() == 0 {
        Seq::empty()
    } else {
        let rest = cli_names(cli.drop_last());
        if trim(cli.last()).len() > 0 {
            rest.push(trim(cli.last()))
        } else {
            rest
        }
    }
}

/// Every name the config and the command line ask for.
pub open spec fn requested_tools(configured: Seq<Seq<char>>, cli: Seq<Seq<char>>) -> Seq<Seq<char>> {
    configured + cli_names(cli)
}

/// Insert `x` into the strictly sorted `out` unless it is there.
fn insert_sorted(out: &mut Vec<String>, x: &str)
    requires
        strictly_sorted(views(old(out)@)),
    ensures
        strictly_sorted(views(final(out)@)),
        forall|y: Seq<char>| views(final(out)@).contains(y) <==> (views(old(out)@).contains(y) || y == x@),
{
    let ghost v0 = views(out@);
    let mut p: usize = 0;
    while p < out.len() && lex_less(out[p].as_str(), x)
        invariant
            p <= out@.len(),
            views(out@) == v0,
            forall|k: int| 0 <= k < p ==> lex_lt(v0[k], x@),
        decreases out@.len() - p,
    {
        p = p + 1;
    }
    if p < out.len() && str_eq(out[p].as_str(), x) {
        proof {
            assert(v0[p as int] == x@);
            assert forall|y: Seq<char>| v0.contains(y) <==> (v0.contains(y) || y == x@) by {
                if y == x@ {
                    assert(v0[p as int] == y);
                }
            }
        }
        return;
    }
    proof {
        if p < v0.len() {
            assert(v0[p as int].subrange(0, 0) =~= x@.subrange(0, 0));
            lemma_lex_total(v0[p as int], x@, 0);
            assert(lex_lt(x@, v0[p as int]));
        }
    }
    out.insert(p, x.to_owned());
    proof {
        let v1 = views(out@);
        assert(v1 =~= v0.insert(p as int, x@));
        assert forall|i: int, j: int| 0 <= i < j < v1.len() implies lex_lt(v1[i], v1[j]) by {
            if j < p {
            } else if j == p {
                assert(v1[i] == v0[i]);
            } else if i < p {
                assert(v1[j] == v0[j - 1]);
                assert(v1[i] == v0[i]);
                if j - 1 >= p {
                    lemma_lex_transitive(v0[i], x@, v0[p as int], 0);
                    if j - 1 > p {
                        assert(lex_lt(v0[p as int], v0[j - 1]));
                        lemma_lex_transitive(v0[i], v0[p as int], v0[j - 1], 0);
                    }
                }
            } else if i == p {
                assert(v1[j] == v0[j - 1]);
                if j - 1 > p {
                    assert(lex_lt(v0[p as int], v0[j - 1]));
                    lemma_lex_transitive(x@, v0[p as int], v0[j - 1], 0);
                }
            } else {
                assert(v1[i] == v0[i - 1]);
                assert(v1[j] == v0[j - 1]);
            }
        }
        assert forall|y: Seq<char>| v1.contains(y) <==> (v0.contains(y) || y == x@) by {
            if v1.contains(y) {
                let k = choose|k: int| 0 <= k < v1.len() && v1[k] == y;
                if k < p {
                    assert(v0[k] == y);
                } else if k > p {
                    assert(v0[k - 1] == y);
                }
            }
            if v0.contains(y) {
                let k = choose|k: int| 0 <= k < v0.len() && v0[k] == y;
                if k < p {
                    assert(v1[k] == y);
                } else {
                    assert(v1[k + 1] == y);
                }
            }
            if y == x@ {
                assert(v1[p as int] == y);
            }
        }
    }
}

/// Merge config and command-line allowlists: the requested names (command-line
/// ones trimmed, blank ones dropped), sorted, each once; the default pair when
/// nothing is requested.
pub fn merge_mcp_serve_allowlist(cfg: &McpServeConfig, cli: &[String]) -> (r: Vec<String>)
    ensures
        ({
            let req = requested_tools(views(cfg.allowed_tools@), views(cli@));
            if req.len() == 0 {
                views(r@) == default_tools()
            } else {
                &&& strictly_sorted(views(r@))
                &&& forall|x: Seq<char>| views(r@).contains(x) <==> req.contains(x)
            }
        }),
{
    let ghost cli_v = views(cli@);
    let ghost req = requested_tools(views(cfg.allowed_tools@), cli_v);
    let mut out: Vec<String> = Vec::new();
    let mut any = false;
    let mut i: usize = 0;
    while i < cfg.allowed_tools.len()
        invariant
            i <= cfg.allowed_tools@.len(),
            any == (i > 0),
            strictly_sorted(views(out@)),
            forall|x: Seq<char>| views(out@).contains(x) <==> views(cfg.allowed_tools@).subrange(0, i as int).contains(x),
        decreases cfg.allowed_tools@.len() - i,
    {
        let ghost pre = views(cfg.allowed_tools@).subrange(0, i as int);
        insert_sorted(&mut out, cfg.allowed_tools[i].as_str());
        proof {
            let nxt = views(cfg.allowed_tools@).subrange(0, i + 1);
            assert(nxt =~= pre.push(cfg.allowed_tools@[i as int]@));
            assert forall|x: Seq<char>| nxt.contains(x) <==> (pre.contains(x) || x == cfg.allowed_tools@[i as int]@) by {
                if nxt.contains(x) {
                    let k = choose|k: int| 0 <= k < nxt.len() && nxt[k] == x;
                    if k < i {
                        assert(pre[k] == x);
                    }
                }
                if pre.contains(x) {
                    let k = choose|k: int| 0 <= k < pre.len() && pre[k] == x;
                    assert(nxt[k] == x);
                }
                if x == cfg.allowed_tools@[i as int]@ {
                    assert(nxt[i as int] == x);
                }
            }
        }
        i = i + 1;
        any = true;
    }
    proof {
        assert(cli_v.subrange(0, 0) =~= Seq::<Seq<char>>::empty());
        assert(cli_names(cli_v.subrange(0, 0)) =~= Seq::<Seq<char>>::empty());
        assert(views(cfg.allowed_tools@) + cli_names(cli_v.subrange(0, 0)) =~= views(cfg.allowed_tools@));
        assert(views(cfg.allowed_tools@).subrange(0, i as int) =~= views(cfg.allowed_tools@));
    }
    let mut j: usize = 0;
    while j < cli.len()
        invariant
            j <= cli@.len(),
            i == cfg.allowed_tools@.len(),
            cli_v == views(cli@),
            req == requested_tools(views(cfg.allowed_tools@), cli_v),
            strictly_sorted(views(out@)),
            any == (views(cfg.allowed_tools@).len() + cli_names(cli_v.subrange(0, j as int)).len() > 0),
            forall|x: Seq<char>| views(out@).contains(x) <==> (views(cfg.allowed_tools@) + cli_names(
                cli_v.subrange(0, j as int),
            )).contains(x),
        decreases cli@.len() - j,
    {
        let ghost base = views(cfg.allowed_tools@);
        let ghost pre = base + cli_names(cli_v.subrange(0, j as int));
        proof {
            assert(cli_v.subrange(0, j + 1).drop_last() =~= cli_v.subrange(0, j as int));
            assert(cli_v.subrange(0, j + 1).last() == cli@[j as int]@);
            assert(views(cfg.allowed_tools@).subrange(0, i as int) =~= base);
        }
        let t = trim_chars(&chars_of(cli[j].as_str()));
        if t.len() > 0 {
            let ts = string_of(&t);
            insert_sorted(&mut out, ts.as_str());
            proof {
                let nxt = base + cli_names(cli_v.subrange(0, j + 1));
                assert(nxt =~= pre.push(t@));
                assert forall|x: Seq<char>| nxt.contains(x) <==> (pre.contains(x) || x == t@) by {
                    if nxt.contains(x) {
                        let k = choose|k: int| 0 <= k < nxt.len() && nxt[k] == x;
                        if k < pre.len() {
                            assert(pre[k] == x);
                        }
                    }
                    if pre.contains(x) {
                        let k = choose|k: int| 0 <= k < pre.len() && pre[k] == x;
                        assert(nxt[k] == x);
                    }
                    if x == t@ {
                        assert(nxt[pre.len() as int] == x);
                    }
                }
            }
            any = true;
        } else {
            proof {
                assert(base + cli_names(cli_v.subrange(0, j + 1)) =~= pre);
            }
        }
        j = j + 1;
    }
    proof {
        assert(cli_v.subrange(0, cli@.len() as int) =~= cli_v);
        assert(views(cfg.allowed_tools@).subrange(0, i as int) =~= views(cfg.allowed_tools@));
    }
    if !any {
        return default_mcp_serve_tool_names();
    }
    proof {
        assert(req.len() > 0);
    }
    out
}

/// A tool the read-oriented preset allows without `relax_tool_policy`.
pub open spec fn safe_without_relax(n: Seq<char>) -> bool {
    ||| n == "memory_recall"@
    ||| n == "file_read"@
    ||| n == "calculator"@
    ||| n == "weather"@
    ||| n == "project_intel"@
    ||| n == "image_info"@
    ||| n == "glob_search"@
    ||| n == "content_search"@
    ||| n == "pdf_read"@
}

fn is_safe_without_relax(n: &str) -> (r: bool)
    ensures
        r == safe_without_relax(n@),
{
    str_eq(n, "memory_recall") || str_eq(n, "file_read") || str_eq(n, "calculator") || str_eq(n, "weather")
        || str_eq(n, "project_intel") || str_eq(n, "image_info") || str_eq(n, "glob_search") || str_eq(
        n,
        "content_search",
    ) || str_eq(n, "pdf_read")
}

/// Index of the first name outside the safe preset (or the length).
pub open spec fn first_unsafe(names: Seq<Seq<char>>, i: int) -> int
    decreases names.len() - i,
{
    if i >= names.len() {
        names.len() as int
    } else if !safe_without_relax(names[i]) {
        i
    } else {
        first_unsafe(names, i + 1)
    }
}

proof fn lemma_first_unsafe_from(names: Seq<Seq<char>>, i: int)
    requires
        0 <= i <= names.len(),
    ensures
        first_unsafe(names, i) == names.len() <==> forall|j: int| i <= j < names.len() ==> seq![
            "memory_recall"@,
            "file_read"@,
            "calculator"@,
            "weather"@,
            "project_intel"@,
            "image_info"@,
            "glob_search"@,
            "content_search"@,
            "pdf_read"@,
        ].contains(#[trigger] names[j]),
    decreases names.len() - i,
{
    let preset = seq![
        "memory_recall"@,
        "file_read"@,
        "calculator"@,
        "weather"@,
        "project_intel"@,
        "image_info"@,
        "glob_search"@,
        "content_search"@,
        "pdf_read"@,
    ];
    assert forall|n: Seq<char>| safe_without_relax(n) <==> preset.contains(n) by {
        if safe_without_relax(n) {
            if n == "memory_recall"@ { assert(preset[0] == n); }
            if n == "file_read"@ { assert(preset[1] == n); }
            if n == "calculator"@ { assert(preset[2] == n); }
            if n == "weather"@ { assert(preset[3] == n); }
            if n == "project_intel"@ { assert(preset[4] == n); }
            if n == "image_info"@ { assert(preset[5] == n); }
            if n == "glob_search"@ { assert(preset[6] == n); }
            if n == "content_search"@ { assert(preset[7] == n); }
            if n == "pdf_read"@ { assert(preset[8] == n); }
        }
        if preset.contains(n) {
            let k = choose|k: int| 0 <= k < preset.len() && preset[k] == n;
            assert(0 <= k < 9);
        }
    }
    if i < names.len() {
        lemma_first_unsafe_from(names, i + 1);
    }
}

/// Without `relax_tool_policy`, an allowlist passes exactly when every name is
/// one of the safe preset's tools: memory_recall, file_read, calculator, weather,
/// project_intel, image_info, glob_search, content_search, pdf_read.
pub proof fn lemma_safe_preset(names: Seq<Seq<char>>)
    ensures
        first_unsafe(names, 0) == names.len() <==> forall|j: int| 0 <= j < names.len() ==> seq![
            "memory_recall"@,
            "file_read"@,
            "calculator"@,
            "weather"@,
            "project_intel"@,
            "image_info"@,
            "glob_search"@,
            "content_search"@,
            "pdf_read"@,
        ].contains(#[trigger] names[j]),
{
    lemma_first_unsafe_from(names, 0);
}

pub open spec fn unsafe_tool_message(n: Seq<char>) -> Seq<char> {
    "mcp_serve: tool `"@ + n
        + "` is not in the safe preset. Add `[mcp_serve].relax_tool_policy = true` after reviewing risk, or use only: memory_recall, file_read, calculator, weather, project_intel, image_info, glob_search, content_search, pdf_read"@
}

/// Without `relax`, every name must be in the safe preset; the first that is
/// not is reported.
pub fn validate_mcp_serve_allowlist(names: &[String], relax: bool) -> (r: Result<(), String>)
    ensures
        ({
            let vs = views(names@);
            let k = first_unsafe(vs, 0);
            match r {
                Ok(()) => relax || k == vs.len(),
                Err(e) => !relax && k < vs.len() && e@ == unsafe_tool_message(vs[k]),
            }
        }),
{
    if relax {
        return Ok(());
    }
    let ghost vs = views(names@);
    let mut i: usize = 0;
    while i < names.len()
        invariant
            i <= names@.len(),
            !relax,
            vs == views(names@),
            first_unsafe(vs, 0) == first_unsafe(vs, i as int),
        decreases names@.len() - i,
    {
        let n = names[i].as_str();
        proof {
            assert(vs[i as int] == n@);
        }
        if !is_safe_without_relax(n) {
            let mut m = "mcp_serve: tool `".to_owned();
            m.push_str(n);
            m.push_str(
                "` is not in the safe preset. Add `[mcp_serve].relax_tool_policy = true` after reviewing risk, or use only: memory_recall, file_read, calculator, weather, project_intel, image_info, glob_search, content_search, pdf_read",
            );
            return Err(m);
        }
        i = i + 1;
    }
    Ok(())
}

// ---------------------------------------------------------------------------
// HTTP transport policy

pub open spec fn opt_ref_view(o: Option<&str>) -> Option<Seq<char>> {
    match o {
        Some(s) => Some(s@),
        None => None,
    }
}

/// Whether a bind host names the loopback interface: `localhost` (any ASCII
/// case, surrounding whitespace ignored), or an address that `ip_loopback`
/// says parses (after trimming) as a loopback IP address.
pub open spec fn loopback_host(host: Seq<char>, ip_loopback: bool) -> bool {
    eq_ignore_case(trim(host), "localhost"@) || ip_loopback
}

pub fn is_loopback_host(host: &str, ip_loopback: bool) -> (r: bool)
    ensures
        r == loopback_host(host@, ip_loopback),
{
    let h = trim_chars(&chars_of(host));
    eq_ignore_case_chars(&h, &chars_of("localhost")) || ip_loopback
}

pub open spec fn public_bind_message(bind: Seq<char>) -> Seq<char> {
    "mcp_serve: HTTP bind `"@ + bind + "` is not loopback; set [mcp_serve].auth_token or bind to 127.0.0.1 / ::1"@
}

/// Refuse a non-loopback bind when no bearer token is configured. `ip_loopback`
/// tells whether the trimmed bind text parses as a loopback IP address.
pub fn validate_mcp_http_bind(bind: &str, auth_token: Option<&String>, ip_loopback: bool) -> (r: Result<(), String>)
    ensures
        match r {
            Ok(()) => auth_token is Some || loopback_host(bind@, ip_loopback),
            Err(e) => auth_token is None && !loopback_host(bind@, ip_loopback) && e@ == public_bind_message(bind@),
        },
{
    if auth_token.is_some() {
        return Ok(());
    }
    if is_loopback_host(bind, ip_loopback) {
        return Ok(());
    }
    let mut m = "mcp_serve: HTTP bind `".to_owned();
    m.push_str(bind);
    m.push_str("` is not loopback; set [mcp_serve].auth_token or bind to 127.0.0.1 / ::1");
    Err(m)
}

/// The bearer token of an `Authorization` header value (empty when absent or
/// not of the `Bearer ` form).
pub open spec fn bearer_or_empty(authorization: Option<Seq<char>>) -> Seq<char> {
    match authorization {
        Some(a) => if has_prefix(a, "Bearer "@) { a.subrange(7, a.len() as int) } else { Seq::empty() },
        None => Seq::empty(),
    }
}

pub open spec fn unauthorized_message() -> Seq<char> {
    "Unauthorized — send Authorization: Bearer <token> (see [mcp_serve].auth_token)"@
}

/// With a configured token, the request's bearer token must equal it.
pub fn check_http_auth(expected: Option<&str>, authorization: Option<&str>) -> (r: Result<(), String>)
    ensures
        match r {
            Ok(()) => expected is None || bearer_or_empty(opt_ref_view(authorization)) == expected->0@,
            Err(e) => expected is Some && bearer_or_empty(opt_ref_view(authorization)) != expected->0@
                && e@ == unauthorized_message(),
        },
{
    let token = match expected {
        None => return Ok(()),
        Some(t) => t,
    };
    let prefix = chars_of("Bearer ");
    proof {
        reveal_strlit("Bearer ");
    }
    let got: Vec<char> = match authorization {
        Some(a) => {
            let av = chars_of(a);
            if starts_with_chars(&av, &prefix) {
                slice_chars(&av, 7, av.len())
            } else {
                Vec::new()
            }
        },
        None => Vec::new(),
    };
    if chars_of(token).len() == got.len() && str_eq(string_of(&got).as_str(), token) {
        Ok(())
    } else {
        Err("Unauthorized — send Authorization: Bearer <token> (see [mcp_serve].auth_token)".to_owned())
    }
}

/// What the host does with a `POST /mcp` request.
pub enum McpPostStep {
    /// `401` with `{"error": message}`.
    Unauthorized(String),
    /// `400` with `{"error": message}`.
    BadRequest(String),
    /// Handle this (trimmed) body as one JSON-RPC line: `200` with the
    /// response, or `204` for a notification.
    Handle(String),
}

/// Decide a `POST /mcp` request: authorize, then refuse an empty body.
pub fn mcp_post_step(expected: Option<&str>, authorization: Option<&str>, body: &str) -> (r: McpPostStep)
    ensures
        ({
            let authorized = expected is None || bearer_or_empty(opt_ref_view(authorization)) == expected->0@;
            if !authorized {
                r matches McpPostStep::Unauthorized(m) && m@ == unauthorized_message()
            } else if trim(body@).len() == 0 {
                r matches McpPostStep::BadRequest(m) && m@ == "empty body; expected one JSON-RPC object"@
            } else {
                r matches McpPostStep::Handle(t) && t@ == trim(body@)
            }
        }),
{
    if let Err(m) = check_http_auth(expected, authorization) {
        return McpPostStep::Unauthorized(m);
    }
    let t = trim_chars(&chars_of(body));
    if t.len() == 0 {
        return McpPostStep::BadRequest("empty body; expected one JSON-RPC object".to_owned());
    }
    McpPostStep::Handle(string_of(&t))
}

// ---------------------------------------------------------------------------
// JSON-RPC runtime

/// A JSON value (`serde_json::Value`), carried through opaquely.
#[verifier::external_type_specification]
#[verifier::external_body]
pub struct ExJsonValue(serde_json::Value);

/// `Clone::clone` on a `serde_json::Value`: the derived clone copies the
/// value, so the copy equals the original.
#[verifier::external_body]
fn clone_json(v: &serde_json::Value) -> (r: serde_json::Value)
    ensures
        r == *v,
{
    v.clone()
}

/// An empty JSON object, `{}` (`serde_json::Value::Object` of an empty map).
/// Nothing is stated of it: Verus does not look inside JSON values.
#[verifier::external_body]
fn empty_json_object() -> serde_json::Value {
    serde_json::Value::Object(serde_json::Map::new())
}

/// What a registered tool declares about itself.
pub struct ToolSpec {
    pub name: String,
    pub description: String,
    /// JSON schema of the arguments.
    pub parameters: serde_json::Value,
}

/// A tool as listed by `tools/list`.
pub struct McpToolDef {
    pub name: String,
    pub description: Option<String>,
    pub input_schema: serde_json::Value,
}

pub fn tool_to_mcp_def(spec: &ToolSpec) -> (r: McpToolDef)
    ensures
        r.name@ == spec.name@,
        r.description is Some && r.description->0@ == spec.description@,
        r.input_schema == spec.parameters,
{
    McpToolDef {
        name: spec.name.clone(),
        description: Some(spec.description.clone()),
        input_schema: clone_json(&spec.parameters),
    }
}

/// JSON-RPC error codes used by the server.
pub const PARSE_ERROR: i32 = -32700;
pub const METHOD_NOT_FOUND: i32 = -32601;
pub const INVALID_PARAMS: i32 = -32602;

/// The `result` member of a successful response.
pub enum McpResult {
    /// `{"protocolVersion":..,"capabilities":{"tools":{}},"serverInfo":{"name":..,"version":<crate version>}}`.
    Initialize { protocol_version: String, server_name: String },
    /// `{"tools":[...]}`.
    ToolsList(Vec<McpToolDef>),
    /// `{"content":[{"type":"text","text":..}],"isError":..}`.
    ToolCall { text: String, is_error: bool },
    /// `{}`.
    Empty,
}

pub struct JsonRpcError {
    pub code: i32,
    pub message: String,
}

/// A JSON-RPC response (`jsonrpc` is always `2.0`).
pub struct JsonRpcResponse {
    pub jsonrpc: String,
    pub id: Option<serde_json::Value>,
    pub result: Option<McpResult>,
    pub error: Option<JsonRpcError>,
}

pub open spec fn is_error_response(r: JsonRpcResponse, id: Option<serde_json::Value>, code: i32, msg: Seq<char>) -> bool {
    &&& r.jsonrpc@ == "2.0"@
    &&& r.id == id
    &&& r.result is None
    &&& r.error matches Some(e) && e.code == code && e.message@ == msg
}

pub open spec fn is_ok_response(r: JsonRpcResponse, id: Option<serde_json::Value>) -> bool {
    &&& r.jsonrpc@ == "2.0"@
    &&& r.id == id
    &&& r.error is None
    &&& r.result is Some
}

fn response_ok(id: Option<serde_json::Value>, result: McpResult) -> (r: JsonRpcResponse)
    ensures
        is_ok_response(r, id),
        r.result == Some(result),
{
    JsonRpcResponse { jsonrpc: "2.0".to_owned(), id, result: Some(result), error: None }
}

fn response_err(id: Option<serde_json::Value>, code: i32, message: String) -> (r: JsonRpcResponse)
    ensures
        is_error_response(r, id, code, message@),
{
    JsonRpcResponse { jsonrpc: "2.0".to_owned(), id, result: None, error: Some(JsonRpcError { code, message }) }
}

/// `tools/call` parameters as the host read them from the `params` object.
pub struct CallParams {
    /// The `name` member, when it is a string.
    pub name: Option<String>,
    /// The `arguments` member.
    pub arguments: Option<serde_json::Value>,
}

/// One inbound JSON-RPC request (`params: null` reads as absent).
pub struct McpRequest {
    pub id: Option<serde_json::Value>,
    pub method: String,
    pub params: Option<CallParams>,
}

/// What the host does for one request.
pub enum McpStep {
    /// Send this response.
    Reply(JsonRpcResponse),
    /// A notification: send nothing.
    NoReply,
    /// Run exposed tool `index` on `arguments` (within the tool timeout), then
    /// call [`McpServeRuntime::finish_tool_call`].
    Call { id: Option<serde_json::Value>, index: usize, name: String, arguments: serde_json::Value },
}

/// How a tool run ended.
pub enum ToolOutcome {
    Finished(ToolResult),
    /// The tool returned an error (its alternate `Display` text).
    Failed(String),
    TimedOut,
}

/// Name of each exposed entry.
pub open spec fn exposed_names<T>(es: Seq<(ToolSpec, T)>) -> Seq<Seq<char>> {
    es.map_values(|e: (ToolSpec, T)| e.0.name@)
}

/// The wanted names that the registry can serve, in order: a name is taken
/// while an entry of that name is left.
pub open spec fn served(wants: Seq<Seq<char>>, left: Multiset<Seq<char>>) -> Seq<Seq<char>>
    decreases wants.len(),
{
    if wants.len() == 0 {
        Seq::empty()
    } else if left.count(wants[0]) > 0 {
        seq![wants[0]] + served(wants.drop_first(), left.remove(wants[0]))
    } else {
        served(wants.drop_first(), left)
    }
}

/// Index of the first entry named `n` at or after `i` (or the length).
pub open spec fn first_named<T>(es: Seq<(ToolSpec, T)>, n: Seq<char>, i: int) -> int
    decreases es.len() - i,
{
    if i >= es.len() {
        es.len() as int
    } else if es[i].0.name@ == n {
        i
    } else {
        first_named(es, n, i + 1)
    }
}

/// The entries taken for `wants` from `reg`, in order: each wanted name takes
/// the first entry of that name, which then leaves the registry with the last
/// entry moved into its place (`Vec::swap_remove`); names with no entry left are
/// skipped.
pub open spec fn picked<T>(wants: Seq<Seq<char>>, reg: Seq<(ToolSpec, T)>) -> Seq<(ToolSpec, T)>
    decreases wants.len(),
{
    if wants.len() == 0 {
        Seq::empty()
    } else {
        let pos = first_named(reg, wants[0], 0);
        if 0 <= pos < reg.len() {
            seq![reg[pos]] + picked(wants.drop_first(), reg.update(pos, reg.last()).drop_last())
        } else {
            picked(wants.drop_first(), reg)
        }
    }
}

proof fn lemma_first_named<T>(es: Seq<(ToolSpec, T)>, n: Seq<char>, i: int)
    requires
        0 <= i <= es.len(),
    ensures
        i <= first_named(es, n, i) <= es.len(),
        first_named(es, n, i) < es.len() ==> es[first_named(es, n, i)].0.name@ == n,
        forall|k: int| i <= k < first_named(es, n, i) ==> es[k].0.name@ != n,
    decreases es.len() - i,
{
    if i < es.len() && es[i].0.name@ != n {
        lemma_first_named(es, n, i + 1);
    }
}

fn find_named<T>(es: &Vec<(ToolSpec, T)>, n: &str) -> (r: usize)
    ensures
        r == first_named(es@, n@, 0),
{
    let mut i: usize = 0;
    while i < es.len() && !str_eq(es[i].0.name.as_str(), n)
        invariant
            i <= es@.len(),
            first_named(es@, n@, 0) == first_named(es@, n@, i as int),
        decreases es@.len() - i,
    {
        i = i + 1;
    }
    i
}

/// Shared MCP JSON-RPC handler (stdio and HTTP): the exposed tools (with the
/// host's handle for each), the allowlist, and the per-call timeout.
pub struct McpServeRuntime<T> {
    exposed: Vec<(ToolSpec, T)>,
    allowed: Vec<String>,
    timeout_secs: u64,
}

impl<T> McpServeRuntime<T> {
    #[verifier::type_invariant]
    closed spec fn inv(self) -> bool {
        self.timeout_secs >= 1
    }

    /// The exposed tools, in allowlist order.
    pub closed spec fn spec_exposed(&self) -> Seq<(ToolSpec, T)> {
        self.exposed@
    }

    /// The allowlist.
    pub closed spec fn spec_allowed(&self) -> Seq<Seq<char>> {
        views(self.allowed@)
    }

    pub closed spec fn spec_timeout_secs(&self) -> u64 {
        self.timeout_secs
    }

    /// Build the runtime from the merged, validated allowlist `names` and the
    /// host's tool registry: each wanted name takes the first registry entry of
    /// that name still left (names the registry lacks are skipped). Fails when
    /// no tool matched.
    pub fn from_parts(names: Vec<String>, registry: Vec<(ToolSpec, T)>, tool_timeout_secs: u64) -> (r: Result<Self, String>)
        ensures
            ({
                let want = served(views(names@), exposed_names(registry@).to_multiset());
                match r {
                    Ok(rt) => {
                        &&& want.len() > 0
                        &&& rt.spec_exposed() == picked(views(names@), registry@)
                        &&& exposed_names(rt.spec_exposed()) == want
                        &&& forall|k: int| 0 <= k < rt.spec_exposed().len() ==> registry@.contains(#[trigger] rt.spec_exposed()[k])
                        &&& rt.spec_allowed() == views(names@)
                        &&& rt.spec_timeout_secs() == if tool_timeout_secs >= 1 { tool_timeout_secs } else { 1 }
                    },
                    Err(e) => want.len() == 0
                        && e@ == "mcp serve: no tools matched the allowlist (check tool names against `zeroclaw` registry)"@,
                }
            }),
    {
        let ghost reg0 = registry@;
        let mut registry = registry;
        let mut exposed: Vec<(ToolSpec, T)> = Vec::new();
        let mut i: usize = 0;
        proof {
            assert(views(names@).subrange(0, 0) =~= Seq::<Seq<char>>::empty());
            assert(views(names@).subrange(0, names@.len() as int) =~= views(names@));
        }
        while i < names.len()
            invariant
                i <= names@.len(),
                served(views(names@), exposed_names(reg0).to_multiset()) == exposed_names(exposed@) + served(
                    views(names@).subrange(i as int, names@.len() as int),
                    exposed_names(registry@).to_multiset(),
                ),
                forall|x: (ToolSpec, T)| registry@.contains(x) ==> reg0.contains(x),
                forall|k: int| 0 <= k < exposed@.len() ==> reg0.contains(#[trigger] exposed@[k]),
                picked(views(names@), reg0) == exposed@ + picked(
                    views(names@).subrange(i as int, names@.len() as int),
                    registry@,
                ),
            decreases names@.len() - i,
        {
            let ghost rest = views(names@).subrange(i as int, names@.len() as int);
            let ghost ms = exposed_names(registry@).to_multiset();
            let want = names[i].as_str();
            proof {
                assert(rest[0] == want@);
                assert(rest.drop_first() =~= views(names@).subrange(i + 1, names@.len() as int));
                exposed_names(registry@).to_multiset_ensures();
            }
            let pos = find_named(&registry, want);
            proof {
                lemma_first_named(registry@, want@, 0);
            }
            if pos < registry.len() {
                let ghost before = registry@;
                let ghost ex_before = exposed@;
                let e = registry.swap_remove(pos);
                proof {
                    let ns = exposed_names(before);
                    assert(ns[pos as int] == want@);
                    assert(ns.contains(want@));
                    assert(ms.count(want@) > 0);
                    let ns2 = exposed_names(registry@);
                    assert(ns2 =~= ns.update(pos as int, ns.last()).drop_last());
                    ns.to_multiset_ensures();
                    ns.update(pos as int, ns.last()).to_multiset_ensures();
                    vstd::seq_lib::to_multiset_update(ns, pos as int, ns.last());
                    assert(ns.update(pos as int, ns.last()).drop_last() =~= ns.update(pos as int, ns.last()).remove(
                        ns.len() - 1,
                    ));
                    assert(ns2.to_multiset() =~= ms.remove(want@));
                    assert forall|x: (ToolSpec, T)| registry@.contains(x) implies reg0.contains(x) by {
                        let k = choose|k: int| 0 <= k < registry@.len() && registry@[k] == x;
                        if k == pos {
                            assert(before[before.len() - 1] == x);
                        } else {
                            assert(before[k] == x);
                        }
                    }
                    assert(before[pos as int] == e);
                    assert(before.contains(e));
                }
                exposed.push(e);
                proof {
                    assert(exposed_names(exposed@) =~= exposed_names(ex_before).push(want@));
                    assert(exposed_names(ex_before).push(want@) + served(rest.drop_first(), ms.remove(want@))
                        =~= exposed_names(ex_before) + (seq![want@] + served(rest.drop_first(), ms.remove(want@))));
                    assert(picked(rest, before) == seq![e] + picked(rest.drop_first(), registry@));
                    assert(ex_before + (seq![e] + picked(rest.drop_first(), registry@)) =~= exposed@ + picked(
                        rest.drop_first(),
                        registry@,
                    ));
                    assert(forall|k: int| 0 <= k < ex_before.len() ==> exposed@[k] == ex_before[k]);
                }
            } else {
                proof {
                    let ns = exposed_names(registry@);
                    if ns.contains(want@) {
                        let k = choose|k: int| 0 <= k < ns.len() && ns[k] == want@;
                        assert(registry@[k].0.name@ == want@);
                    }
                    assert(ms.count(want@) == 0);
                    assert(picked(rest, registry@) == picked(rest.drop_first(), registry@));
                }
            }
            i = i + 1;
        }
        proof {
            assert(views(names@).subrange(names@.len() as int, names@.len() as int) =~= Seq::<Seq<char>>::empty());
            assert(exposed_names(exposed@) + Seq::<Seq<char>>::empty() =~= exposed_names(exposed@));
            assert(exposed@ + Seq::<(ToolSpec, T)>::empty() =~= exposed@);
        }
        if exposed.len() == 0 {
            proof {
                assert(exposed_names(exposed@).len() == 0);
            }
            return Err(
                "mcp serve: no tools matched the allowlist (check tool names against `zeroclaw` registry)".to_owned(),
            );
        }
        let timeout_secs: u64 = if tool_timeout_secs >= 1 { tool_timeout_secs } else { 1 };
        Ok(McpServeRuntime { exposed, allowed: names, timeout_secs })
    }

    /// The host's handle of exposed tool `index`, if there is one.
    pub fn tool_handle(&self, index: usize) -> (r: Option<&T>)
        ensures
            index < self.spec_exposed().len() ==> r == Some(&self.spec_exposed()[index as int].1),
            index >= self.spec_exposed().len() ==> r is None,
    {
        if index < self.exposed.len() {
            Some(&self.exposed[index].1)
        } else {
            None
        }
    }

    pub fn timeout_secs(&self) -> (r: u64)
        ensures
            r == self.spec_timeout_secs(),
            r >= 1,
    {
        proof {
            use_type_invariant(self);
        }
        self.timeout_secs
    }

    /// The answer to a parsed line: a parse failure (with the parser's message)
    /// gets a `-32700` error with no id; a request is dispatched.
    pub fn handle_parsed_line(&self, parsed: Result<McpRequest, String>) -> (r: McpStep)
        ensures
            match parsed {
                Err(e) => r matches McpStep::Reply(resp) && is_error_response(resp, None, PARSE_ERROR, "Parse error: "@ + e@),
                Ok(req) => self.dispatched(req, r),
            },
    {
        match parsed {
            Err(e) => {
                let mut m = "Parse error: ".to_owned();
                m.push_str(e.as_str());
                McpStep::Reply(response_err(None, PARSE_ERROR, m))
            },
            Ok(req) => self.dispatch(req),
        }
    }

    /// How [`dispatch`](Self::dispatch) answers `req`.
    pub open spec fn dispatched(&self, req: McpRequest, r: McpStep) -> bool {
        let m = req.method@;
        let id = req.id;
        if m == "initialize"@ {
            r matches McpStep::Reply(resp) && is_ok_response(resp, id) && (resp.result matches Some(
                McpResult::Initialize { protocol_version, server_name },
            ) && protocol_version@ == "2024-11-05"@ && server_name@ == "zeroclaw"@)
        } else if m == "notifications/initialized"@ {
            r is NoReply
        } else if m == "tools/list"@ {
            r matches McpStep::Reply(resp) && is_ok_response(resp, id) && (resp.result matches Some(McpResult::ToolsList(defs))
                && defs@.len() == self.spec_exposed().len() && forall|k: int|
                0 <= k < defs@.len() ==> {
                    let d = #[trigger] defs@[k];
                    let t = self.spec_exposed()[k].0;
                    &&& d.name@ == t.name@
                    &&& d.description is Some && d.description->0@ == t.description@
                    &&& d.input_schema == t.parameters
                })
        } else if m == "tools/call"@ {
            match req.params {
                None => r matches McpStep::Reply(resp) && is_error_response(resp, id, INVALID_PARAMS, "missing params"@),
                Some(p) => {
                    let name = match p.name {
                        Some(n) => n@,
                        None => Seq::empty(),
                    };
                    let k = first_named(self.spec_exposed(), name, 0);
                    if name.len() == 0 {
                        r matches McpStep::Reply(resp) && is_error_response(
                            resp,
                            id,
                            INVALID_PARAMS,
                            "tools/call requires name"@,
                        )
                    } else if !self.spec_allowed().contains(name) {
                        r matches McpStep::Reply(resp) && is_error_response(
                            resp,
                            id,
                            INVALID_PARAMS,
                            "tool `"@ + name + "` is not on the mcp_serve allowlist"@,
                        )
                    } else if k >= self.spec_exposed().len() {
                        r matches McpStep::Reply(resp) && is_error_response(
                            resp,
                            id,
                            INVALID_PARAMS,
                            "tool `"@ + name + "` not available"@,
                        )
                    } else {
                        r matches McpStep::Call { id: cid, index, name: n, arguments } && cid == id && index == k
                            && n@ == name && (p.arguments is Some ==> arguments == p.arguments->0)
                    }
                },
            }
        } else if m == "ping"@ {
            r matches McpStep::Reply(resp) && is_ok_response(resp, id) && resp.result == Some(McpResult::Empty)
        } else {
            r matches McpStep::Reply(resp) && is_error_response(resp, id, METHOD_NOT_FOUND, "method not found: "@ + m)
        }
    }

    /// Answer one request (see [`dispatched`](Self::dispatched)).
    pub fn dispatch(&self, req: McpRequest) -> (r: McpStep)
        ensures
            self.dispatched(req, r),
    {
        let ghost req0 = req;
        let McpRequest { id, method, params } = req;
        let m = method.as_str();
        if str_eq(m, "initialize") {
            return McpStep::Reply(
                response_ok(
                    id,
                    McpResult::Initialize { protocol_version: "2024-11-05".to_owned(), server_name: "zeroclaw".to_owned() },
                ),
            );
        }
        if str_eq(m, "notifications/initialized") {
            return McpStep::NoReply;
        }
        if str_eq(m, "tools/list") {
            let mut defs: Vec<McpToolDef> = Vec::new();
            let mut k: usize = 0;
            while k < self.exposed.len()
                invariant
                    k <= self.exposed@.len(),
                    defs@.len() == k,
                    forall|j: int| 0 <= j < k ==> {
                        let d = #[trigger] defs@[j];
                        let t = self.exposed@[j].0;
                        &&& d.name@ == t.name@
                        &&& d.description is Some && d.description->0@ == t.description@
                        &&& d.input_schema == t.parameters
                    },
                decreases self.exposed@.len() - k,
            {
                defs.push(tool_to_mcp_def(&self.exposed[k].0));
                k = k + 1;
            }
            return McpStep::Reply(response_ok(id, McpResult::ToolsList(defs)));
        }
        if str_eq(m, "tools/call") {
            let p = match params {
                None => return McpStep::Reply(response_err(id, INVALID_PARAMS, "missing params".to_owned())),
                Some(p) => p,
            };
            let CallParams { name, arguments } = p;
            let name = match name {
                Some(n) => n,
                None => String::new(),
            };
            if chars_of(name.as_str()).len() == 0 {
                return McpStep::Reply(response_err(id, INVALID_PARAMS, "tools/call requires name".to_owned()));
            }
            if !crate::text::contains_string(&self.allowed, name.as_str()) {
                let mut msg = "tool `".to_owned();
                msg.push_str(name.as_str());
                msg.push_str("` is not on the mcp_serve allowlist");
                return McpStep::Reply(response_err(id, INVALID_PARAMS, msg));
            }
            let index = find_named(&self.exposed, name.as_str());
            if index >= self.exposed.len() {
                let mut msg = "tool `".to_owned();
                msg.push_str(name.as_str());
                msg.push_str("` not available");
                return McpStep::Reply(response_err(id, INVALID_PARAMS, msg));
            }
            let arguments = match arguments {
                Some(a) => a,
                None => empty_json_object(),
            };
            return McpStep::Call { id, index, name, arguments };
        }
        if str_eq(m, "ping") {
            return McpStep::Reply(response_ok(id, McpResult::Empty));
        }
        let mut msg = "method not found: ".to_owned();
        msg.push_str(m);
        McpStep::Reply(response_err(id, METHOD_NOT_FOUND, msg))
    }

    /// The response to a `tools/call` once the tool run for `name` ended:
    /// its output (or error text, or output when it gave none) as a text
    /// result, flagged as an error unless the tool succeeded.
    pub fn finish_tool_call(&self, id: Option<serde_json::Value>, name: &str, outcome: ToolOutcome) -> (r: JsonRpcResponse)
        ensures
            is_ok_response(r, id),
            r.result matches Some(McpResult::ToolCall { text, is_error }) && match outcome {
                ToolOutcome::Finished(res) => if res.success {
                    text@ == res.output@ && !is_error
                } else {
                    is_error && text@ == match res.error {
                        Some(e) => e@,
                        None => res.output@,
                    }
                },
                ToolOutcome::Failed(e) => is_error && text@ == "execution error: "@ + e@,
                ToolOutcome::TimedOut => is_error && text@ == "tool `"@ + name@ + "` timed out after "@
                    + crate::text::dec(self.spec_timeout_secs() as nat) + "s"@,
            },
    {
        let (text, is_error) = match outcome {
            ToolOutcome::Finished(res) => {
                if res.success {
                    (res.output, false)
                } else {
                    let t = match res.error {
                        Some(e) => e,
                        None => res.output,
                    };
                    (t, true)
                }
            },
            ToolOutcome::Failed(e) => {
                let mut t = "execution error: ".to_owned();
                t.push_str(e.as_str());
                (t, true)
            },
            ToolOutcome::TimedOut => {
                let mut t = "tool `".to_owned();
                t.push_str(name);
                t.push_str("` timed out after ");
                push_dec(&mut t, self.timeout_secs);
                t.push_str("s");
                (t, true)
            },
        };
        response_ok(id, McpResult::ToolCall { text, is_error })
    }
}

} // verus!
