//! Optional small-model router that selects a subset of tools per user message.
//!
//! [`plan_router_request`] decides whether to ask the router model and what to
//! send; the host performs the HTTP call and [`merge_router_reply`] turns the
//! reply into the turn's excluded tool names.

use vstd::prelude::*;
use vstd::utf8::{decode_utf8, encode_utf8, is_char_boundary};
use crate::shell::engine::{cap_output, floor_boundary};
use crate::text::{
    chars_of, contains_string, ends_with_chars, replace_all, replace_all_chars, take_chars, take_chars_exec, find_char, find_char_exec, has_prefix, has_suffix,
    lemma_find_char_bounds, occurs_at, occurs_at_exec, slice_chars, starts_with_chars, string_of, trim,
    trim_chars, trim_end_char, trim_end_char_chars, views,
};

verus! {

broadcast use vstd::string::group_string_axioms;

// ---------------------------------------------------------------------------
// Order-keeping deduplication

/// `v` with later repeats dropped, first occurrences kept in order.
pub open spec fn dedupe(v: Seq<Seq<char>>) -> Seq<Seq<char>>
    decreases v.len(),
{
    if v.len() == 0 {
        Seq::empty()
    } else {
        let d = dedupe(v.drop_last());
        if d.contains(v.last()) {
            d
        } else {
            d.push(v.last())
        }
    }
}

/// No value occurs twice.
pub open spec fn distinct(v: Seq<Seq<char>>) -> bool {
    forall|i: int, j: int| 0 <= i < j < v.len() ==> v[i] != v[j]
}

/// Deduplication keeps exactly the values it was given and leaves none twice.
pub proof fn lemma_dedupe(v: Seq<Seq<char>>)
    ensures
        distinct(dedupe(v)),
        forall|x: Seq<char>| dedupe(v).contains(x) <==> v.contains(x),
    decreases v.len(),
{
    if v.len() > 0 {
        lemma_dedupe(v.drop_last());
        let d = dedupe(v.drop_last());
        assert forall|x: Seq<char>| dedupe(v).contains(x) <==> v.contains(x) by {
            if v.contains(x) && x != v.last() {
                let i = choose|i: int| 0 <= i < v.len() && v[i] == x;
                assert(v.drop_last()[i] == x);
            }
            if v.drop_last().contains(x) {
                let i = choose|i: int| 0 <= i < v.len() - 1 && v.drop_last()[i] == x;
                assert(v[i] == x);
            }
            if !d.contains(v.last()) {
                assert(d.push(v.last()).last() == v.last());
                if d.push(v.last()).contains(x) && x != v.last() {
                    let i = choose|i: int| 0 <= i < d.len() + 1 && d.push(v.last())[i] == x;
                    assert(d[i] == x);
                }
                if d.contains(x) {
                    let i = choose|i: int| 0 <= i < d.len() && d[i] == x;
                    assert(d.push(v.last())[i] == x);
                }
            }
        }
    }
}

/// Deduplicating twice is deduplicating once.
pub proof fn lemma_dedupe_idempotent(v: Seq<Seq<char>>)
    ensures
        dedupe(dedupe(v)) == dedupe(v),
{
    lemma_dedupe(v);
    lemma_dedupe_distinct(dedupe(v));
}

/// A sequence without repeats is its own deduplication.
pub proof fn lemma_dedupe_distinct(v: Seq<Seq<char>>)
    requires
        distinct(v),
    ensures
        dedupe(v) == v,
    decreases v.len(),
{
    if v.len() > 0 {
        let w = v.drop_last();
        assert(distinct(w));
        lemma_dedupe_distinct(w);
        if w.contains(v.last()) {
            let i = choose|i: int| 0 <= i < w.len() && w[i] == v.last();
            assert(v[i] == v[v.len() - 1]);
        }
        assert(w.push(v.last()) =~= v);
    }
}

/// Drop repeated names, keeping each first occurrence in order.
pub fn dedupe_excluded(v: Vec<String>) -> (r: Vec<String>)
    ensures
        views(r@) == dedupe(views(v@)),
{
    let mut out: Vec<String> = Vec::new();
    let mut i: usize = 0;
    while i < v.len()
        invariant
            i <= v@.len(),
            views(out@) == dedupe(views(v@).subrange(0, i as int)),
        decreases v@.len() - i,
    {
        let ghost pre = views(v@).subrange(0, i + 1);
        proof {
            assert(pre.drop_last() =~= views(v@).subrange(0, i as int));
            assert(pre.last() == v@[i as int]@);
        }
        if !contains_string(&out, v[i].as_str()) {
            let ghost before = out@;
            out.push(v[i].clone());
            proof {
                assert(views(out@) =~= views(before).push(v@[i as int]@));
            }
        }
        i = i + 1;
    }
    proof {
        assert(views(v@).subrange(0, v@.len() as int) =~= views(v@));
    }
    out
}

// ---------------------------------------------------------------------------
// Allowed tools

/// `n` appended to `out` when there is room below `cap`, it is a candidate and
/// it is not already there.
pub open spec fn add_allowed(out: Seq<Seq<char>>, n: Seq<char>, cands: Seq<Seq<char>>, cap: nat) -> Seq<Seq<char>> {
    if out.len() < cap && cands.contains(n) && !out.contains(n) {
        out.push(n)
    } else {
        out
    }
}

/// `add_allowed` with each of `names` in turn.
pub open spec fn add_all_allowed(out: Seq<Seq<char>>, names: Seq<Seq<char>>, cands: Seq<Seq<char>>, cap: nat) -> Seq<Seq<char>>
    decreases names.len(),
{
    if names.len() == 0 {
        out
    } else {
        add_all_allowed(add_allowed(out, names[0], cands, cap), names.drop_first(), cands, cap)
    }
}

/// The tools kept for a turn, at most `max(max_tools, 1)`: first the configured
/// always-included candidates, then `tool_search` when MCP tools are deferred,
/// then the router's picks, each candidate once.
pub open spec fn allowed_tools(
    always: Seq<Seq<char>>,
    cands: Seq<Seq<char>>,
    picks: Seq<Seq<char>>,
    deferred_mcp: bool,
    max_tools: nat,
) -> Seq<Seq<char>> {
    let cap: nat = if max_tools >= 1 { max_tools } else { 1 };
    let a = add_all_allowed(Seq::empty(), always, cands, cap);
    let b = if deferred_mcp { add_allowed(a, "tool_search"@, cands, cap) } else { a };
    add_all_allowed(b, picks, cands, cap)
}

proof fn lemma_add_all_allowed(out: Seq<Seq<char>>, names: Seq<Seq<char>>, cands: Seq<Seq<char>>, cap: nat)
    requires
        out.len() <= cap,
        distinct(out),
        forall|x: Seq<char>| out.contains(x) ==> cands.contains(x),
    ensures
        add_all_allowed(out, names, cands, cap).len() <= cap,
        distinct(add_all_allowed(out, names, cands, cap)),
        forall|x: Seq<char>| add_all_allowed(out, names, cands, cap).contains(x) ==> cands.contains(x),
    decreases names.len(),
{
    if names.len() > 0 {
        let o2 = add_allowed(out, names[0], cands, cap);
        if o2 != out {
            assert forall|x: Seq<char>| o2.contains(x) implies cands.contains(x) by {
                let i = choose|i: int| 0 <= i < o2.len() && o2[i] == x;
                if i < out.len() {
                    assert(out[i] == x);
                }
            }
            assert forall|i: int, j: int| 0 <= i < j < o2.len() implies o2[i] != o2[j] by {
                if j == out.len() {
                    assert(out[i] == o2[i]);
                }
            }
        }
        lemma_add_all_allowed(o2, names.drop_first(), cands, cap);
    }
}

/// The allowed tools never exceed the cap, are candidates, and hold no name twice.
pub proof fn lemma_allowed_tools(
    always: Seq<Seq<char>>,
    cands: Seq<Seq<char>>,
    picks: Seq<Seq<char>>,
    deferred_mcp: bool,
    max_tools: nat,
)
    ensures
        ({
            let r = allowed_tools(always, cands, picks, deferred_mcp, max_tools);
            &&& r.len() <= if max_tools >= 1 { max_tools } else { 1 }
            &&& distinct(r)
            &&& forall|x: Seq<char>| r.contains(x) ==> cands.contains(x)
        }),
{
    let cap: nat = if max_tools >= 1 { max_tools } else { 1 };
    lemma_add_all_allowed(Seq::empty(), always, cands, cap);
    let a = add_all_allowed(Seq::empty(), always, cands, cap);
    let b = if deferred_mcp { add_allowed(a, "tool_search"@, cands, cap) } else { a };
    lemma_add_all_allowed(a, seq!["tool_search"@], cands, cap);
    assert(seq!["tool_search"@].drop_first() =~= Seq::<Seq<char>>::empty());
    assert(add_all_allowed(a, seq!["tool_search"@], cands, cap) == add_allowed(a, "tool_search"@, cands, cap)) by {
        reveal_with_fuel(add_all_allowed, 2);
    }
    lemma_add_all_allowed(b, picks, cands, cap);
}

fn add_all_allowed_exec(out: &mut Vec<String>, names: &Vec<String>, cands: &Vec<String>, cap: usize)
    ensures
        views(final(out)@) == add_all_allowed(views(old(out)@), views(names@), views(cands@), cap as nat),
{
    let ghost target = add_all_allowed(views(out@), views(names@), views(cands@), cap as nat);
    let mut i: usize = 0;
    proof {
        assert(views(names@).subrange(0, names@.len() as int) =~= views(names@));
    }
    while i < names.len()
        invariant
            i <= names@.len(),
            target == add_all_allowed(
                views(out@),
                views(names@).subrange(i as int, names@.len() as int),
                views(cands@),
                cap as nat,
            ),
        decreases names@.len() - i,
    {
        let ghost rest = views(names@).subrange(i as int, names@.len() as int);
        proof {
            assert(rest[0] == names@[i as int]@);
            assert(rest.drop_first() =~= views(names@).subrange(i + 1, names@.len() as int));
        }
        let n = names[i].as_str();
        if out.len() < cap && contains_string(cands, n) && !contains_string(out, n) {
            let ghost before = out@;
            out.push(names[i].clone());
            proof {
                assert(views(out@) =~= views(before).push(n@));
            }
        }
        i = i + 1;
    }
    proof {
        assert(views(names@).subrange(i as int, names@.len() as int) =~= Seq::<Seq<char>>::empty());
    }
}

/// The tools kept for a turn (see [`allowed_tools`]).
pub fn select_allowed_tools(
    always_include: &Vec<String>,
    candidates: &Vec<String>,
    router_names: &Vec<String>,
    deferred_mcp: bool,
    max_tools: usize,
) -> (r: Vec<String>)
    ensures
        views(r@) == allowed_tools(
            views(always_include@),
            views(candidates@),
            views(router_names@),
            deferred_mcp,
            max_tools as nat,
        ),
{
    let cap: usize = if max_tools >= 1 { max_tools } else { 1 };
    let mut out: Vec<String> = Vec::new();
    proof {
        assert(views(out@) =~= Seq::<Seq<char>>::empty());
    }
    add_all_allowed_exec(&mut out, always_include, candidates, cap);
    if deferred_mcp && out.len() < cap && contains_string(candidates, "tool_search") && !contains_string(&out, "tool_search") {
        let ghost before = out@;
        out.push("tool_search".to_owned());
        proof {
            assert(views(out@) =~= views(before).push("tool_search"@));
        }
    }
    add_all_allowed_exec(&mut out, router_names, candidates, cap);
    out
}

// ---------------------------------------------------------------------------
// Router endpoint and reply text

/// `<base>/chat/completions` for a base URL (trailing slashes dropped; a URL
/// already ending in `/chat/completions` is kept); empty for a blank base.
pub open spec fn completions_url(base: Seq<char>) -> Seq<char> {
    let t = trim(base);
    if t.len() == 0 {
        Seq::empty()
    } else {
        let u = trim_end_char(t, '/');
        if has_suffix(u, "/chat/completions"@) {
            u
        } else {
            u + "/chat/completions"@
        }
    }
}

pub fn chat_completions_url(base_url: &str) -> (r: String)
    ensures
        r@ == completions_url(base_url@),
{
    let t = trim_chars(&chars_of(base_url));
    if t.len() == 0 {
        return String::new();
    }
    let u = trim_end_char_chars(&t, '/');
    let mut out = string_of(&u);
    if !ends_with_chars(&u, &chars_of("/chat/completions")) {
        out.push_str("/chat/completions");
    }
    out
}

/// `s` with every leading `p` removed (`str::trim_start_matches(p)`).
pub open spec fn strip_repeated(s: Seq<char>, p: Seq<char>) -> Seq<char>
    decreases s.len(),
{
    if p.len() > 0 && has_prefix(s, p) {
        strip_repeated(s.subrange(p.len() as int, s.len() as int), p)
    } else {
        s
    }
}

fn strip_repeated_chars(s: &[char], p: &[char]) -> (r: Vec<char>)
    ensures
        r@ == strip_repeated(s@, p@),
{
    let mut i: usize = 0;
    let n = s.len();
    proof {
        assert(s@.subrange(0, s@.len() as int) =~= s@);
    }
    loop
        invariant
            i <= s@.len(),
            n == s@.len(),
            strip_repeated(s@, p@) == strip_repeated(s@.subrange(i as int, s@.len() as int), p@),
        decreases s@.len() - i,
    {
        let ghost rest = s@.subrange(i as int, s@.len() as int);
        if p.len() > 0 && occurs_at_exec(s, p, i) {
            proof {
                assert(rest.subrange(0, p@.len() as int) =~= s@.subrange(i as int, i + p@.len()));
                assert(rest.subrange(p@.len() as int, rest.len() as int) =~= s@.subrange(i + p@.len(), s@.len() as int));
            }
            i = i + p.len();
        } else {
            proof {
                if p@.len() <= rest.len() {
                    assert(rest.subrange(0, p@.len() as int) =~= s@.subrange(i as int, i + p@.len()));
                }
            }
            return slice_chars(s, i, s.len());
        }
    }
}

/// Position of the last occurrence of `needle` starting at or before `i` (or -1).
pub open spec fn last_occurrence(s: Seq<char>, needle: Seq<char>, i: int) -> int
    decreases i + 1,
{
    if i < 0 {
        -1
    } else if occurs_at(s, needle, i) {
        i
    } else {
        last_occurrence(s, needle, i - 1)
    }
}

proof fn lemma_last_occurrence(s: Seq<char>, needle: Seq<char>, i: int)
    ensures
        -1 <= last_occurrence(s, needle, i),
        last_occurrence(s, needle, i) >= 0 ==> last_occurrence(s, needle, i) <= i && occurs_at(
            s,
            needle,
            last_occurrence(s, needle, i),
        ),
    decreases i + 1,
{
    if i >= 0 && !occurs_at(s, needle, i) {
        lemma_last_occurrence(s, needle, i - 1);
    }
}

/// Reply text with a surrounding markdown code fence (and a `json` / `JSON`
/// language tag) removed, trimmed.
pub open spec fn stripped_fence(s: Seq<char>) -> Seq<char> {
    let t = trim(s);
    if has_prefix(t, "```"@) {
        let rest = trim(strip_repeated(strip_repeated(t.subrange(3, t.len() as int), "json"@), "JSON"@));
        let k = last_occurrence(rest, "```"@, rest.len() - 3);
        if k >= 0 {
            trim(rest.subrange(0, k))
        } else {
            rest
        }
    } else {
        t
    }
}

pub fn strip_markdown_fence(s: &str) -> (r: String)
    ensures
        r@ == stripped_fence(s@),
{
    let t = trim_chars(&chars_of(s));
    let fence = chars_of("```");
    proof {
        reveal_strlit("```");
    }
    if !starts_with_chars(&t, &fence) {
        return string_of(&t);
    }
    let after = slice_chars(&t, 3, t.len());
    let a = strip_repeated_chars(&after, &chars_of("json"));
    let b = strip_repeated_chars(&a, &chars_of("JSON"));
    let rest = trim_chars(&b);
    let ghost target = stripped_fence(s@);
    assert(target == {
        let k = last_occurrence(rest@, "```"@, rest@.len() - 3);
        if k >= 0 {
            trim(rest@.subrange(0, k))
        } else {
            rest@
        }
    });
    if rest.len() < 3 {
        proof {
            lemma_last_occurrence(rest@, "```"@, rest@.len() - 3);
        }
        return string_of(&rest);
    }
    let mut k: usize = rest.len() - 3;
    loop
        invariant
            k + 3 <= rest@.len(),
            fence@ == "```"@,
            target == stripped_fence(s@),
            target == {
                let k = last_occurrence(rest@, "```"@, rest@.len() - 3);
                if k >= 0 {
                    trim(rest@.subrange(0, k))
                } else {
                    rest@
                }
            },
            last_occurrence(rest@, "```"@, rest@.len() - 3) == last_occurrence(rest@, "```"@, k as int),
        decreases k,
    {
        if occurs_at_exec(&rest, &fence, k) {
            return string_of(&trim_chars(&slice_chars(&rest, 0, k)));
        }
        if k == 0 {
            proof {
                assert(last_occurrence(rest@, "```"@, -1) == -1);
            }
            return string_of(&rest);
        }
        k = k - 1;
    }
}

/// Net bracket depth after the first `i` characters (`[` opens, `]` closes).
pub open spec fn depth_after(s: Seq<char>, i: int) -> int
    decreases i,
{
    if i <= 0 {
        0
    } else {
        depth_after(s, i - 1) + if s[i - 1] == '[' {
            1int
        } else if s[i - 1] == ']' {
            -1int
        } else {
            0int
        }
    }
}

/// First `j >= i` where a `]` brings the depth back to zero (or the length).
pub open spec fn first_close(s: Seq<char>, i: int) -> int
    decreases s.len() - i,
{
    if i >= s.len() {
        s.len() as int
    } else if s[i] == ']' && depth_after(s, i + 1) == 0 {
        i
    } else {
        first_close(s, i + 1)
    }
}

proof fn lemma_first_close(s: Seq<char>, i: int)
    requires
        0 <= i <= s.len(),
    ensures
        i <= first_close(s, i) <= s.len(),
    decreases s.len() - i,
{
    if i < s.len() && !(s[i] == ']' && depth_after(s, i + 1) == 0) {
        lemma_first_close(s, i + 1);
    }
}

/// Byte offset, in `tail`'s UTF-8 encoding, of the `]` that closes the
/// bracket depth opened from the start of `tail`.
pub fn find_matching_bracket_end(tail: &str) -> (r: Option<usize>)
    ensures
        match r {
            Some(b) => first_close(tail@, 0) < tail@.len() && b == encode_utf8(tail@.subrange(0, first_close(tail@, 0))).len(),
            None => first_close(tail@, 0) == tail@.len(),
        },
{
    let s = chars_of(tail);
    let mut depth: i128 = 0;
    let mut i: usize = 0;
    while i < s.len()
        invariant
            i <= s@.len(),
            s@ == tail@,
            depth == depth_after(s@, i as int),
            -(i as int) <= depth <= i,
            first_close(s@, 0) == first_close(s@, i as int),
        decreases s@.len() - i,
    {
        let c = s[i];
        if c == '[' {
            depth = depth + 1;
        } else if c == ']' {
            depth = depth - 1;
            if depth == 0 {
                let head = string_of(&slice_chars(&s, 0, i));
                return Some(head.as_str().as_bytes().len());
            }
        }
        i = i + 1;
    }
    None
}

/// The JSON array text in a router reply: from the first `[` of the
/// fence-stripped reply through its matching `]`.
pub open spec fn array_slice(content: Seq<char>) -> Option<Seq<char>> {
    let st = stripped_fence(content);
    let a = find_char(st, '[', 0);
    if a >= st.len() {
        None
    } else {
        let tail = st.subrange(a, st.len() as int);
        let e = first_close(tail, 0);
        if e < tail.len() {
            Some(tail.subrange(0, e + 1))
        } else {
            None
        }
    }
}

pub open spec fn opt_view(o: Option<String>) -> Option<Seq<char>> {
    match o {
        Some(s) => Some(s@),
        None => None,
    }
}

/// The JSON array text in a router reply (see [`array_slice`]).
pub fn json_array_slice(content: &str) -> (r: Option<String>)
    ensures
        opt_view(r) == array_slice(content@),
{
    let st = chars_of(strip_markdown_fence(content).as_str());
    let a = find_char_exec(&st, '[', 0);
    proof {
        lemma_find_char_bounds(st@, '[', 0);
    }
    if a >= st.len() {
        return None;
    }
    let tail = slice_chars(&st, a, st.len());
    let ghost target = array_slice(content@);
    assert(target == if first_close(tail@, 0) < tail@.len() {
        Some(tail@.subrange(0, first_close(tail@, 0) + 1))
    } else {
        None::<Seq<char>>
    });
    let mut depth: i128 = 0;
    let mut i: usize = 0;
    while i < tail.len()
        invariant
            i <= tail@.len(),
            target == array_slice(content@),
            target == if first_close(tail@, 0) < tail@.len() {
                Some(tail@.subrange(0, first_close(tail@, 0) + 1))
            } else {
                None::<Seq<char>>
            },
            depth == depth_after(tail@, i as int),
            -(i as int) <= depth <= i,
            first_close(tail@, 0) == first_close(tail@, i as int),
        decreases tail@.len() - i,
    {
        let c = tail[i];
        if c == '[' {
            depth = depth + 1;
        } else if c == ']' {
            depth = depth - 1;
            if depth == 0 {
                return Some(string_of(&slice_chars(&tail, 0, i + 1)));
            }
        }
        i = i + 1;
    }
    None
}

/// What `serde_json::from_str::<Vec<String>>` reads from a text (none when it
/// is not a JSON array of strings).
pub uninterp spec fn json_string_array(text: Seq<char>) -> Option<Seq<Seq<char>>>;

pub open spec fn opt_views(o: Option<Vec<String>>) -> Option<Seq<Seq<char>>> {
    match o {
        Some(v) => Some(views(v@)),
        None => None,
    }
}

/// Calls `serde_json::from_str::<Vec<String>>`, a parse failure giving none.
/// The contract names the result as a function of `text`; JSON syntax is not
/// stated.
#[verifier::external_body]
fn parse_string_array(text: &str) -> (r: Option<Vec<String>>)
    ensures
        opt_views(r) == json_string_array(text@),
{
    serde_json::from_str::<Vec<String>>(text).ok()
}

/// The router's tool names in its reply text.
pub open spec fn reply_names(content: Seq<char>) -> Option<Seq<Seq<char>>> {
    match array_slice(content) {
        Some(t) => json_string_array(t),
        None => None,
    }
}

pub fn extract_json_array_from_text(content: &str) -> (r: Option<Vec<String>>)
    ensures
        opt_views(r) == reply_names(content@),
{
    match json_array_slice(content) {
        Some(t) => parse_string_array(t.as_str()),
        None => None,
    }
}

/// `s` cut to its first 400 UTF-8 bytes with `…` appended, when longer. The
/// cut must fall on a character boundary.
pub fn truncate_for_log(s: &str) -> (r: String)
    requires
        encode_utf8(s@).len() <= 400 || is_char_boundary(encode_utf8(s@), 400),
    ensures
        r@ == if encode_utf8(s@).len() <= 400 {
            s@
        } else {
            decode_utf8(encode_utf8(s@).subrange(0, 400)) + "…"@
        },
{
    proof {
        if encode_utf8(s@).len() > 400 {
            assert(floor_boundary(encode_utf8(s@), 400) == 400);
        }
    }
    cap_output(s.to_owned(), 400, "…")
}

// ---------------------------------------------------------------------------
// Planning the router call

/// `[agent.tool_router]` as the routing decision reads it (the sampling
/// temperature goes to the request body unchanged and stays with the host).
pub struct ToolRouterConfig {
    pub enabled: bool,
    pub base_url: String,
    pub model: String,
    pub api_key: Option<String>,
    pub timeout_ms: u64,
    pub max_tools: usize,
    pub always_include: Vec<String>,
    pub fallback_to_all_tools: bool,
}

/// A registered tool as the router sees it.
pub struct ToolEntry {
    pub name: String,
    pub description: String,
}

pub open spec fn entry_names(reg: Seq<ToolEntry>) -> Seq<Seq<char>> {
    reg.map_values(|t: ToolEntry| t.name@)
}

/// `v` without the values in `drop`, in order.
pub open spec fn without(v: Seq<Seq<char>>, drop: Seq<Seq<char>>) -> Seq<Seq<char>>
    decreases v.len(),
{
    if v.len() == 0 {
        Seq::empty()
    } else if drop.contains(v.last()) {
        without(v.drop_last(), drop)
    } else {
        without(v.drop_last(), drop).push(v.last())
    }
}

/// The tools the router may choose among: registered names not already
/// excluded, each once, in registration order.
pub open spec fn candidates_of(reg: Seq<ToolEntry>, base: Seq<Seq<char>>) -> Seq<Seq<char>> {
    dedupe(without(entry_names(reg), base))
}

/// Catalog rows `(name, first 200 characters of the description)` for the
/// registered tools that are candidates.
pub open spec fn catalog_rows(reg: Seq<ToolEntry>, cands: Seq<Seq<char>>) -> Seq<(Seq<char>, Seq<char>)>
    decreases reg.len(),
{
    if reg.len() == 0 {
        Seq::empty()
    } else {
        let rest = catalog_rows(reg.drop_last(), cands);
        let t = reg.last();
        if cands.contains(t.name@) {
            rest.push((t.name@, take_chars(t.description@, 200)))
        } else {
            rest
        }
    }
}

/// What `serde_json::to_string` gives for the catalog rows, each row an object
/// with members `name` and `description` (none on a serialization error).
pub uninterp spec fn json_tool_catalog(rows: Seq<(Seq<char>, Seq<char>)>) -> Option<Seq<char>>;

pub open spec fn row_views(rows: Seq<(String, String)>) -> Seq<(Seq<char>, Seq<char>)> {
    rows.map_values(|r: (String, String)| (r.0@, r.1@))
}

/// Serializes the rows with `serde_json::to_string`, each row as a
/// `BTreeMap` with keys `name` and `description`. The contract names the result
/// as a function of the rows; the JSON text itself is not stated.
#[verifier::external_body]
fn serialize_catalog(rows: &Vec<(String, String)>) -> (r: Option<String>)
    ensures
        opt_view(r) == json_tool_catalog(row_views(rows@)),
{
    let objects: Vec<std::collections::BTreeMap<&str, &str>> = rows
        .iter()
        .map(|(n, d)| std::collections::BTreeMap::from([("name", n.as_str()), ("description", d.as_str())]))
        .collect();
    serde_json::to_string(&objects).ok()
}

/// The catalog JSON, `[]` when it cannot be serialized.
pub open spec fn catalog_json(reg: Seq<ToolEntry>, cands: Seq<Seq<char>>) -> Seq<char> {
    match json_tool_catalog(catalog_rows(reg, cands)) {
        Some(j) => j,
        None => "[]"@,
    }
}

pub fn build_tool_catalog_json(registry: &[ToolEntry], candidates: &Vec<String>) -> (r: String)
    ensures
        r@ == catalog_json(registry@, views(candidates@)),
{
    let mut rows: Vec<(String, String)> = Vec::new();
    let mut i: usize = 0;
    while i < registry.len()
        invariant
            i <= registry@.len(),
            row_views(rows@) == catalog_rows(registry@.subrange(0, i as int), views(candidates@)),
        decreases registry@.len() - i,
    {
        let t = &registry[i];
        proof {
            assert(registry@.subrange(0, i + 1).drop_last() =~= registry@.subrange(0, i as int));
            assert(registry@.subrange(0, i + 1).last() == registry@[i as int]);
        }
        if contains_string(candidates, t.name.as_str()) {
            let desc = string_of(&take_chars_exec(&chars_of(t.description.as_str()), 200));
            let ghost before = rows@;
            rows.push((t.name.clone(), desc));
            proof {
                assert(row_views(rows@) =~= row_views(before).push((t.name@, take_chars(t.description@, 200))));
            }
        }
        i = i + 1;
    }
    proof {
        assert(registry@.subrange(0, registry@.len() as int) =~= registry@);
    }
    match serialize_catalog(&rows) {
        Some(j) => j,
        None => "[]".to_owned(),
    }
}

pub open spec fn router_prompt_template() -> Seq<char> {
    "You are an ultra-fast tool router.\nGiven the current user message and the full list of available tools, return ONLY a JSON array of the MOST relevant tool names.\n\nRules:\n- Return valid JSON only: [\"tool_name1\", \"tool_name2\", ...]\n- Choose tools that can actually help solve the query\n- If unsure, pick fewer rather than more\n- Never add explanations or markdown fences\n\nUser query:\n\n{{USER_QUERY}}\n\nAvailable tools (JSON):\n\n{{TOOL_LIST_JSON}}"@
}

/// The router prompt: the template with the user message, then the tool
/// catalog, substituted.
pub open spec fn router_prompt(user: Seq<char>, tools_json: Seq<char>) -> Seq<char> {
    replace_all(replace_all(router_prompt_template(), "{{USER_QUERY}}"@, user), "{{TOOL_LIST_JSON}}"@, tools_json)
}

pub fn build_router_prompt(user_message: &str, tools_json: &str) -> (r: String)
    ensures
        r@ == router_prompt(user_message@, tools_json@),
{
    let template = chars_of(
        "You are an ultra-fast tool router.\nGiven the current user message and the full list of available tools, return ONLY a JSON array of the MOST relevant tool names.\n\nRules:\n- Return valid JSON only: [\"tool_name1\", \"tool_name2\", ...]\n- Choose tools that can actually help solve the query\n- If unsure, pick fewer rather than more\n- Never add explanations or markdown fences\n\nUser query:\n\n{{USER_QUERY}}\n\nAvailable tools (JSON):\n\n{{TOOL_LIST_JSON}}",
    );
    let q = chars_of("{{USER_QUERY}}");
    let t = chars_of("{{TOOL_LIST_JSON}}");
    proof {
        reveal_strlit("{{USER_QUERY}}");
        reveal_strlit("{{TOOL_LIST_JSON}}");
    }
    let a = replace_all_chars(&template, &q, &chars_of(user_message));
    string_of(&replace_all_chars(&a, &t, &chars_of(tools_json)))
}

/// The chat-completion request to send to the router model.
pub struct RouterRequest {
    pub url: String,
    pub model: String,
    /// Content of the single user message.
    pub prompt: String,
    /// Bearer credential, when a non-empty API key is configured.
    pub bearer: Option<String>,
    /// Request timeout in milliseconds (at least 1; connecting gets 10 s).
    pub timeout_ms: u64,
    pub max_tokens: u32,
}

/// Either the turn's exclusions, or a router request to make first.
pub enum RouterPlan {
    Done(Vec<String>),
    /// Send `request`, then call [`merge_router_reply`] with these candidates.
    Ask { request: RouterRequest, candidates: Vec<String> },
}

/// Whether the configuration and candidates call for a router request.
pub open spec fn router_wanted(cfg: ToolRouterConfig, cands: Seq<Seq<char>>) -> bool {
    &&& cfg.enabled
    &&& cands.len() > 0
    &&& trim(cfg.base_url@).len() > 0
    &&& trim(cfg.model@).len() > 0
    &&& completions_url(cfg.base_url@).len() > 0
}

/// Decide whether to ask the router model for this turn, given the base
/// exclusions (tool filter groups, autonomy), the registered tools and the
/// user message.
pub fn plan_router_request(
    base_excluded: Vec<String>,
    cfg: &ToolRouterConfig,
    registry: &[ToolEntry],
    user_message: &str,
) -> (r: RouterPlan)
    ensures
        ({
            let cands = candidates_of(registry@, views(base_excluded@));
            if router_wanted(*cfg, cands) {
                r matches RouterPlan::Ask { request, candidates } && {
                    &&& views(candidates@) == cands
                    &&& request.url@ == completions_url(cfg.base_url@)
                    &&& request.model@ == cfg.model@
                    &&& request.prompt@ == router_prompt(user_message@, catalog_json(registry@, cands))
                    &&& opt_view(request.bearer) == match cfg.api_key {
                        Some(k) => if k@.len() > 0 { Some(k@) } else { None },
                        None => None,
                    }
                    &&& request.timeout_ms == if cfg.timeout_ms >= 1 { cfg.timeout_ms } else { 1 }
                    &&& request.max_tokens == 512
                }
            } else {
                r matches RouterPlan::Done(v) && views(v@) == dedupe(views(base_excluded@))
            }
        }),
{
    if !cfg.enabled {
        return RouterPlan::Done(dedupe_excluded(base_excluded));
    }
    let mut names: Vec<String> = Vec::new();
    let mut i: usize = 0;
    while i < registry.len()
        invariant
            i <= registry@.len(),
            views(names@) == without(entry_names(registry@.subrange(0, i as int)), views(base_excluded@)),
        decreases registry@.len() - i,
    {
        proof {
            assert(entry_names(registry@.subrange(0, i + 1)).drop_last() =~= entry_names(registry@.subrange(0, i as int)));
            assert(entry_names(registry@.subrange(0, i + 1)).last() == registry@[i as int].name@);
        }
        if !contains_string(&base_excluded, registry[i].name.as_str()) {
            let ghost before = names@;
            names.push(registry[i].name.clone());
            proof {
                assert(views(names@) =~= views(before).push(registry@[i as int].name@));
            }
        }
        i = i + 1;
    }
    proof {
        assert(registry@.subrange(0, registry@.len() as int) =~= registry@);
    }
    let candidates = dedupe_excluded(names);
    if candidates.len() == 0 || trim_chars(&chars_of(cfg.base_url.as_str())).len() == 0 || trim_chars(
        &chars_of(cfg.model.as_str()),
    ).len() == 0 {
        return RouterPlan::Done(dedupe_excluded(base_excluded));
    }
    let url = chat_completions_url(cfg.base_url.as_str());
    if chars_of(url.as_str()).len() == 0 {
        return RouterPlan::Done(dedupe_excluded(base_excluded));
    }
    let tools_json = build_tool_catalog_json(registry, &candidates);
    let prompt = build_router_prompt(user_message, tools_json.as_str());
    let bearer = match &cfg.api_key {
        Some(k) => if chars_of(k.as_str()).len() > 0 {
            Some(k.clone())
        } else {
            None
        },
        None => None,
    };
    let timeout_ms: u64 = if cfg.timeout_ms >= 1 { cfg.timeout_ms } else { 1 };
    let request = RouterRequest { url, model: cfg.model.clone(), prompt, bearer, timeout_ms, max_tokens: 512 };
    RouterPlan::Ask { request, candidates }
}

// ---------------------------------------------------------------------------
// Merging the router's answer

/// The router's picks that are candidates, with adjacent repeats dropped.
pub open spec fn router_picks(ns: Seq<Seq<char>>, cands: Seq<Seq<char>>) -> Seq<Seq<char>>
    decreases ns.len(),
{
    if ns.len() == 0 {
        Seq::empty()
    } else {
        let p = router_picks(ns.drop_last(), cands);
        if cands.contains(ns.last()) && !(p.len() > 0 && p.last() == ns.last()) {
            p.push(ns.last())
        } else {
            p
        }
    }
}

/// The exclusions when the router's choice leaves no tool: either keep all
/// candidates (fallback) or exclude them all.
pub open spec fn nothing_chosen(base: Seq<Seq<char>>, cands: Seq<Seq<char>>, fallback: bool) -> Seq<Seq<char>> {
    if fallback {
        dedupe(base)
    } else {
        dedupe(base + cands)
    }
}

/// The turn's exclusions from the names the router returned (none when its
/// reply held no readable JSON array of strings): the base exclusions, plus
/// every candidate outside the allowed set.
pub open spec fn exclusions_for_names(
    base: Seq<Seq<char>>,
    cfg: ToolRouterConfig,
    cands: Seq<Seq<char>>,
    deferred_mcp: bool,
    names: Option<Seq<Seq<char>>>,
) -> Seq<Seq<char>> {
    match names {
        None => dedupe(base),
        Some(ns) => if ns.len() == 0 {
            nothing_chosen(base, cands, cfg.fallback_to_all_tools)
        } else {
            let allowed = allowed_tools(
                views(cfg.always_include@),
                cands,
                router_picks(ns, cands),
                deferred_mcp,
                cfg.max_tools as nat,
            );
            if allowed.len() == 0 {
                nothing_chosen(base, cands, cfg.fallback_to_all_tools)
            } else {
                dedupe(base + without(cands, allowed))
            }
        },
    }
}

fn without_exec(v: &Vec<String>, drop: &Vec<String>) -> (r: Vec<String>)
    ensures
        views(r@) == without(views(v@), views(drop@)),
{
    let mut out: Vec<String> = Vec::new();
    let mut i: usize = 0;
    while i < v.len()
        invariant
            i <= v@.len(),
            views(out@) == without(views(v@).subrange(0, i as int), views(drop@)),
        decreases v@.len() - i,
    {
        proof {
            assert(views(v@).subrange(0, i + 1).drop_last() =~= views(v@).subrange(0, i as int));
            assert(views(v@).subrange(0, i + 1).last() == v@[i as int]@);
        }
        if !contains_string(drop, v[i].as_str()) {
            let ghost before = out@;
            out.push(v[i].clone());
            proof {
                assert(views(out@) =~= views(before).push(v@[i as int]@));
            }
        }
        i = i + 1;
    }
    proof {
        assert(views(v@).subrange(0, v@.len() as int) =~= views(v@));
    }
    out
}

fn append_strings(mut a: Vec<String>, b: &Vec<String>) -> (r: Vec<String>)
    ensures
        views(r@) == views(a@) + views(b@),
{
    let ghost a0 = views(a@);
    let mut i: usize = 0;
    while i < b.len()
        invariant
            i <= b@.len(),
            views(a@) == a0 + views(b@).subrange(0, i as int),
        decreases b@.len() - i,
    {
        let ghost before = a@;
        a.push(b[i].clone());
        proof {
            assert(views(a@) =~= views(before).push(b@[i as int]@));
            assert(views(b@).subrange(0, i + 1) =~= views(b@).subrange(0, i as int).push(b@[i as int]@));
        }
        i = i + 1;
    }
    proof {
        assert(views(b@).subrange(0, b@.len() as int) =~= views(b@));
    }
    a
}

/// The turn's exclusions given the names the router returned.
pub fn merge_router_names(
    base_excluded: Vec<String>,
    cfg: &ToolRouterConfig,
    candidates: &Vec<String>,
    deferred_mcp: bool,
    names: Option<Vec<String>>,
) -> (r: Vec<String>)
    ensures
        views(r@) == exclusions_for_names(views(base_excluded@), *cfg, views(candidates@), deferred_mcp, opt_views(names)),
{
    let ns = match names {
        None => return dedupe_excluded(base_excluded),
        Some(ns) => ns,
    };
    if ns.len() == 0 {
        if cfg.fallback_to_all_tools {
            return dedupe_excluded(base_excluded);
        }
        return dedupe_excluded(append_strings(base_excluded, candidates));
    }
    let mut picks: Vec<String> = Vec::new();
    let mut i: usize = 0;
    while i < ns.len()
        invariant
            i <= ns@.len(),
            views(picks@) == router_picks(views(ns@).subrange(0, i as int), views(candidates@)),
        decreases ns@.len() - i,
    {
        proof {
            assert(views(ns@).subrange(0, i + 1).drop_last() =~= views(ns@).subrange(0, i as int));
            assert(views(ns@).subrange(0, i + 1).last() == ns@[i as int]@);
        }
        let n = ns[i].as_str();
        let repeat = picks.len() > 0 && picks[picks.len() - 1] == n.to_owned();
        proof {
            if picks@.len() > 0 {
                assert(views(picks@).last() == picks@[picks@.len() - 1]@);
            }
        }
        if contains_string(candidates, n) && !repeat {
            let ghost before = picks@;
            picks.push(ns[i].clone());
            proof {
                assert(views(picks@) =~= views(before).push(n@));
            }
        }
        i = i + 1;
    }
    proof {
        assert(views(ns@).subrange(0, ns@.len() as int) =~= views(ns@));
    }
    let allowed = select_allowed_tools(&cfg.always_include, candidates, &picks, deferred_mcp, cfg.max_tools);
    if allowed.len() == 0 {
        if cfg.fallback_to_all_tools {
            return dedupe_excluded(base_excluded);
        }
        return dedupe_excluded(append_strings(base_excluded, candidates));
    }
    let dropped = without_exec(candidates, &allowed);
    dedupe_excluded(append_strings(base_excluded, &dropped))
}

/// The outcome of the router request as the host saw it.
pub enum RouterReply {
    /// The client could not be built, the request failed, or the body could not be read.
    Failed,
    Response { success: bool, body: String },
}

/// What the router's reply body holds: none when it is not JSON; otherwise
/// `choices[0].message.content` when that is a string.
pub uninterp spec fn router_reply_content(body: Seq<char>) -> Option<Option<Seq<char>>>;

pub open spec fn opt_opt_view(o: Option<Option<String>>) -> Option<Option<Seq<char>>> {
    match o {
        Some(i) => Some(opt_view(i)),
        None => None,
    }
}

/// Parses the body with `serde_json::from_str` into a `serde_json::Value`
/// (none on failure) and reads `choices[0].message.content` with
/// `Value::get` and `Value::as_str`. The contract names the result as a
/// function of `body`; JSON syntax is not stated.
#[verifier::external_body]
fn read_router_content(body: &str) -> (r: Option<Option<String>>)
    ensures
        opt_opt_view(r) == router_reply_content(body@),
{
    let v: serde_json::Value = serde_json::from_str(body).ok()?;
    Some(
        v.get("choices")
            .and_then(|c| c.get(0))
            .and_then(|c| c.get("message"))
            .and_then(|m| m.get("content"))
            .and_then(|c| c.as_str())
            .map(str::to_owned),
    )
}

/// The turn's exclusions after the router request: any failure keeps just the
/// base exclusions.
pub open spec fn merged_exclusions(
    base: Seq<Seq<char>>,
    cfg: ToolRouterConfig,
    cands: Seq<Seq<char>>,
    deferred_mcp: bool,
    reply: RouterReply,
) -> Seq<Seq<char>> {
    match reply {
        RouterReply::Failed => dedupe(base),
        RouterReply::Response { success, body } => if !success {
            dedupe(base)
        } else {
            match router_reply_content(body@) {
                None => dedupe(base),
                Some(c) => exclusions_for_names(
                    base,
                    cfg,
                    cands,
                    deferred_mcp,
                    reply_names(match c {
                        Some(t) => t,
                        None => Seq::empty(),
                    }),
                ),
            }
        },
    }
}

/// Merge the base exclusions with the router's reply to the planned request.
pub fn merge_router_reply(
    base_excluded: Vec<String>,
    cfg: &ToolRouterConfig,
    candidates: &Vec<String>,
    deferred_mcp: bool,
    reply: RouterReply,
) -> (r: Vec<String>)
    ensures
        views(r@) == merged_exclusions(views(base_excluded@), *cfg, views(candidates@), deferred_mcp, reply),
{
    let body = match reply {
        RouterReply::Failed => return dedupe_excluded(base_excluded),
        RouterReply::Response { success, body } => {
            if !success {
                return dedupe_excluded(base_excluded);
            }
            body
        },
    };
    let content = match read_router_content(body.as_str()) {
        None => return dedupe_excluded(base_excluded),
        Some(c) => match c {
            Some(t) => t,
            None => String::new(),
        },
    };
    let names = extract_json_array_from_text(content.as_str());
    merge_router_names(base_excluded, cfg, candidates, deferred_mcp, names)
}

/// Whatever the router answers, the exclusions hold no name twice, keep every
/// base exclusion, and add nothing but candidates.
pub proof fn lemma_exclusions_shape(
    base: Seq<Seq<char>>,
    cfg: ToolRouterConfig,
    cands: Seq<Seq<char>>,
    deferred_mcp: bool,
    names: Option<Seq<Seq<char>>>,
)
    ensures
        ({
            let r = exclusions_for_names(base, cfg, cands, deferred_mcp, names);
            &&& distinct(r)
            &&& forall|x: Seq<char>| base.contains(x) ==> r.contains(x)
            &&& forall|x: Seq<char>| r.contains(x) ==> base.contains(x) || cands.contains(x)
        }),
{
    lemma_dedupe(base);
    lemma_dedupe(base + cands);
    assert forall|x: Seq<char>| (base + cands).contains(x) <==> base.contains(x) || cands.contains(x) by {
        if (base + cands).contains(x) {
            let i = choose|i: int| 0 <= i < (base + cands).len() && (base + cands)[i] == x;
            if i >= base.len() {
                assert(cands[i - base.len()] == x);
            }
        }
        if base.contains(x) {
            let i = choose|i: int| 0 <= i < base.len() && base[i] == x;
            assert((base + cands)[i] == x);
        }
        if cands.contains(x) {
            let i = choose|i: int| 0 <= i < cands.len() && cands[i] == x;
            assert((base + cands)[base.len() + i] == x);
        }
    }
    if let Some(ns) = names {
        let allowed = allowed_tools(views(cfg.always_include@), cands, router_picks(ns, cands), deferred_mcp, cfg.max_tools as nat);
        let w = without(cands, allowed);
        lemma_without(cands, allowed);
        lemma_dedupe(base + w);
        assert forall|x: Seq<char>| (base + w).contains(x) <==> base.contains(x) || w.contains(x) by {
            if (base + w).contains(x) {
                let i = choose|i: int| 0 <= i < (base + w).len() && (base + w)[i] == x;
                if i >= base.len() {
                    assert(w[i - base.len()] == x);
                }
            }
            if base.contains(x) {
                let i = choose|i: int| 0 <= i < base.len() && base[i] == x;
                assert((base + w)[i] == x);
            }
            if w.contains(x) {
                let i = choose|i: int| 0 <= i < w.len() && w[i] == x;
                assert((base + w)[base.len() + i] == x);
            }
        }
    }
}

/// `without` keeps exactly the values of `v` outside `drop`.
pub proof fn lemma_without(v: Seq<Seq<char>>, drop: Seq<Seq<char>>)
    ensures
        forall|x: Seq<char>| without(v, drop).contains(x) <==> v.contains(x) && !drop.contains(x),
    decreases v.len(),
{
    if v.len() > 0 {
        lemma_without(v.drop_last(), drop);
        let w = without(v.drop_last(), drop);
        assert forall|x: Seq<char>| without(v, drop).contains(x) <==> v.contains(x) && !drop.contains(x) by {
            if v.contains(x) && x != v.last() {
                let i = choose|i: int| 0 <= i < v.len() && v[i] == x;
                assert(v.drop_last()[i] == x);
            }
            if v.drop_last().contains(x) {
                let i = choose|i: int| 0 <= i < v.len() - 1 && v.drop_last()[i] == x;
                assert(v[i] == x);
            }
            if !drop.contains(v.last()) {
                assert(w.push(v.last()).last() == v.last());
                if w.push(v.last()).contains(x) && x != v.last() {
                    let i = choose|i: int| 0 <= i < w.len() + 1 && w.push(v.last())[i] == x;
                    assert(w[i] == x);
                }
                if w.contains(x) {
                    let i = choose|i: int| 0 <= i < w.len() && w[i] == x;
                    assert(w.push(v.last())[i] == x);
                }
            }
        }
    }
}

} // verus!
