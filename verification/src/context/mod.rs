//! Dynamic context for the agent loop: the markdown block appended to the
//! system prompt when `[agent.dynamic_context]` is enabled, memoized per
//! workspace.
//!
//! # Cache invalidation
//!
//! The workspace fingerprint changes when any discovered instruction file's path
//! or modification time changes (`AGENTS.md` and the like) or `git rev-parse
//! HEAD` changes. A cached block is reused only for the same fingerprint and the
//! same git options; the cache holds at most [`DYNAMIC_CONTEXT_CACHE_MAX_ENTRIES`]
//! workspaces and evicts one when full.
//!
//! Computing the fingerprint and assembling the block (instruction discovery,
//! git snapshot) are the host's part.

use vstd::prelude::*;

verus! {

broadcast use vstd::string::group_string_axioms;

/// Max workspace entries kept for cross-call memoization.
pub const DYNAMIC_CONTEXT_CACHE_MAX_ENTRIES: usize = 48;

/// `[agent.dynamic_context]`.
pub struct DynamicContextConfig {
    pub enabled: bool,
    pub include_git: bool,
    pub max_git_log_lines: usize,
}

/// Optional roots for hierarchical instruction discovery (`AGENTS.md` and the like).
pub struct DynamicContextPaths {
    pub global_config_dir: Option<String>,
    pub user_config_dir: Option<String>,
    pub session_dir: Option<String>,
}

/// One memoized block.
pub struct CacheEntry {
    /// Canonical workspace path.
    pub workspace: String,
    /// The workspace fingerprint the block was assembled for.
    pub fingerprint: String,
    pub include_git: bool,
    pub max_git_log_lines: usize,
    pub block: String,
}

/// What a cache entry records for its workspace.
pub struct EntryView {
    pub fingerprint: Seq<char>,
    pub include_git: bool,
    pub max_git_log_lines: usize,
    pub block: Seq<char>,
}

impl View for CacheEntry {
    type V = EntryView;

    open spec fn view(&self) -> EntryView {
        EntryView {
            fingerprint: self.fingerprint@,
            include_git: self.include_git,
            max_git_log_lines: self.max_git_log_lines,
            block: self.block@,
        }
    }
}

/// The entry for workspace `ws` in `es[i..]` (first match).
pub open spec fn entry_from(es: Seq<CacheEntry>, ws: Seq<char>, i: int) -> Option<EntryView>
    decreases es.len() - i,
{
    if i >= es.len() {
        None
    } else if es[i].workspace@ == ws {
        Some(es[i]@)
    } else {
        entry_from(es, ws, i + 1)
    }
}

pub open spec fn distinct_workspaces(es: Seq<CacheEntry>) -> bool {
    forall|i: int, j: int| 0 <= i < j < es.len() ==> es[i].workspace@ != es[j].workspace@
}

proof fn lemma_entry_from(es: Seq<CacheEntry>, ws: Seq<char>, i: int)
    requires
        0 <= i <= es.len(),
    ensures
        entry_from(es, ws, i) is None <==> forall|m: int| i <= m < es.len() ==> es[m].workspace@ != ws,
        forall|m: int| i <= m < es.len() && es[m].workspace@ == ws && (forall|n: int| i <= n < m ==> es[n].workspace@ != ws)
            ==> entry_from(es, ws, i) == Some(es[m]@),
    decreases es.len() - i,
{
    if i < es.len() {
        lemma_entry_from(es, ws, i + 1);
    }
}

/// The entry of `ws` when the workspaces are distinct: the one at the index holding `ws`.
proof fn lemma_entry_at(es: Seq<CacheEntry>, ws: Seq<char>, m: int)
    requires
        distinct_workspaces(es),
        0 <= m < es.len(),
        es[m].workspace@ == ws,
    ensures
        entry_from(es, ws, 0) == Some(es[m]@),
{
    lemma_entry_from(es, ws, 0);
}

/// A workspace no entry holds has no entry.
proof fn lemma_entry_absent(es: Seq<CacheEntry>, ws: Seq<char>)
    requires
        forall|m: int| 0 <= m < es.len() ==> es[m].workspace@ != ws,
    ensures
        entry_from(es, ws, 0) is None,
{
    lemma_entry_from(es, ws, 0);
}

/// `b` holds what `a` holds for every workspace but `x` and `y`.
pub open spec fn same_except(a: DynamicContextCache, b: DynamicContextCache, x: Seq<char>, y: Seq<char>) -> bool {
    forall|k: Seq<char>| k != x && k != y ==> b.entry(k) == a.entry(k)
}

/// Memoized dynamic-context blocks, one per workspace.
pub struct DynamicContextCache {
    entries: Vec<CacheEntry>,
}

impl DynamicContextCache {
    #[verifier::type_invariant]
    closed spec fn inv(self) -> bool {
        &&& distinct_workspaces(self.entries@)
        &&& self.entries@.len() <= DYNAMIC_CONTEXT_CACHE_MAX_ENTRIES
    }

    /// What is cached for workspace `ws`.
    pub closed spec fn entry(&self, ws: Seq<char>) -> Option<EntryView> {
        entry_from(self.entries@, ws, 0)
    }

    /// How many workspaces are cached.
    pub closed spec fn size(&self) -> nat {
        self.entries@.len()
    }

    pub fn new() -> (r: DynamicContextCache)
        ensures
            r.size() == 0,
            forall|ws: Seq<char>| r.entry(ws) is None,
    {
        DynamicContextCache { entries: Vec::new() }
    }

    /// How many workspaces are cached; never more than
    /// [`DYNAMIC_CONTEXT_CACHE_MAX_ENTRIES`].
    pub fn len(&self) -> (r: usize)
        ensures
            r == self.size(),
            r <= DYNAMIC_CONTEXT_CACHE_MAX_ENTRIES,
    {
        proof {
            use_type_invariant(self);
        }
        self.entries.len()
    }

    fn position(&self, ws: &str) -> (r: usize)
        ensures
            r <= self.entries@.len(),
            r < self.entries@.len() ==> self.entries@[r as int].workspace@ == ws@,
            r == self.entries@.len() ==> forall|m: int| 0 <= m < self.entries@.len() ==> self.entries@[m].workspace@ != ws@,
    {
        let mut i: usize = 0;
        while i < self.entries.len()
            invariant
                i <= self.entries@.len(),
                forall|m: int| 0 <= m < i ==> self.entries@[m].workspace@ != ws@,
            decreases self.entries@.len() - i,
        {
            if crate::text::str_eq(self.entries[i].workspace.as_str(), ws) {
                return i;
            }
            i = i + 1;
        }
        i
    }

    /// The block cached for `ws` when it was assembled for `fingerprint` with
    /// the same git options.
    pub fn lookup(&self, ws: &str, fingerprint: &str, include_git: bool, max_git_log_lines: usize) -> (r: Option<String>)
        ensures
            match r {
                Some(b) => self.entry(ws@) matches Some(e) && e.fingerprint == fingerprint@ && e.include_git == include_git
                    && e.max_git_log_lines == max_git_log_lines && e.block == b@,
                None => !(self.entry(ws@) matches Some(e) && e.fingerprint == fingerprint@ && e.include_git == include_git
                    && e.max_git_log_lines == max_git_log_lines),
            },
    {
        proof {
            use_type_invariant(self);
        }
        let p = self.position(ws);
        if p == self.entries.len() {
            proof {
                lemma_entry_absent(self.entries@, ws@);
            }
            return None;
        }
        proof {
            lemma_entry_at(self.entries@, ws@, p as int);
        }
        let e = &self.entries[p];
        if crate::text::str_eq(e.fingerprint.as_str(), fingerprint) && e.include_git == include_git
            && e.max_git_log_lines == max_git_log_lines {
            Some(e.block.clone())
        } else {
            None
        }
    }

    /// Remember `block` for `ws`. When the cache is full and `ws` is new, one
    /// other workspace is forgotten first.
    pub fn store(&mut self, entry: CacheEntry)
        ensures
            final(self).entry(entry.workspace@) == Some(entry@),
            final(self).size() <= DYNAMIC_CONTEXT_CACHE_MAX_ENTRIES,
            old(self).entry(entry.workspace@) is Some || old(self).size() < DYNAMIC_CONTEXT_CACHE_MAX_ENTRIES ==> forall|
                k: Seq<char>,
            | k != entry.workspace@ ==> final(self).entry(k) == old(self).entry(k),
            exists|evicted: Seq<char>| #[trigger] same_except(*old(self), *final(self), entry.workspace@, evicted),
    {
        proof {
            use_type_invariant(&*self);
        }
        let ghost ws = entry.workspace@;
        let ghost before = *self;
        let ghost mut evicted = ws;
        let p = self.position(entry.workspace.as_str());
        let mut es: Vec<CacheEntry> = Vec::new();
        std::mem::swap(&mut es, &mut self.entries);
        let ghost es0 = es@;
        if p < es.len() {
            let ghost e = entry;
            es.set(p, entry);
            proof {
                let es1 = es@;
                assert(es1 =~= es0.update(p as int, e));
                assert(distinct_workspaces(es1)) by {
                    assert forall|i: int, j: int| 0 <= i < j < es1.len() implies es1[i].workspace@ != es1[j].workspace@ by {
                        if i != p && j != p {
                            assert(es1[i] == es0[i] && es1[j] == es0[j]);
                        } else if i == p {
                            assert(es1[j] == es0[j]);
                            assert(es0[p as int].workspace@ == ws);
                        } else {
                            assert(es1[i] == es0[i]);
                            assert(es0[p as int].workspace@ == ws);
                        }
                    }
                }
                lemma_entry_at(es1, ws, p as int);
                assert forall|k: Seq<char>| k != ws implies entry_from(es1, k, 0) == entry_from(es0, k, 0) by {
                    lemma_same_for_other(es0, es1, k, p as int);
                }
                assert forall|k: Seq<char>| k != ws && k != ws implies entry_from(es1, k, 0) == entry_from(es0, k, 0) by {
                    lemma_same_for_other(es0, es1, k, p as int);
                }
            }
        } else {
            proof {
                evicted = if es0.len() > 0 { es0[0].workspace@ } else { ws };
            }
            if es.len() >= DYNAMIC_CONTEXT_CACHE_MAX_ENTRIES {
                es.remove(0);
            }
            let ghost es_mid = es@;
            let ghost e = entry;
            es.push(entry);
            proof {
                let es1 = es@;
                assert(es1 =~= es_mid.push(e));
                assert(forall|m: int| 0 <= m < es_mid.len() ==> es_mid[m].workspace@ != ws) by {
                    assert forall|m: int| 0 <= m < es_mid.len() implies es_mid[m].workspace@ != ws by {
                        if es_mid.len() < es0.len() {
                            assert(es_mid[m] == es0[m + 1]);
                        } else {
                            assert(es_mid[m] == es0[m]);
                        }
                    }
                }
                assert(distinct_workspaces(es_mid)) by {
                    assert forall|i: int, j: int| 0 <= i < j < es_mid.len() implies es_mid[i].workspace@ != es_mid[j].workspace@ by {
                        if es_mid.len() < es0.len() {
                            assert(es_mid[i] == es0[i + 1] && es_mid[j] == es0[j + 1]);
                        } else {
                            assert(es_mid[i] == es0[i] && es_mid[j] == es0[j]);
                        }
                    }
                }
                assert(distinct_workspaces(es1)) by {
                    assert forall|i: int, j: int| 0 <= i < j < es1.len() implies es1[i].workspace@ != es1[j].workspace@ by {
                        assert(es1[i] == es_mid[i]);
                        if j < es_mid.len() {
                            assert(es1[j] == es_mid[j]);
                        }
                    }
                }
                lemma_entry_at(es1, ws, es_mid.len() as int);
                lemma_entry_absent(es0, ws);
                assert forall|k: Seq<char>| k != ws && k != evicted implies entry_from(es1, k, 0) == entry_from(es0, k, 0) by {
                    lemma_entry_from(es0, k, 0);
                    lemma_entry_from(es1, k, 0);
                    if exists|m: int| 0 <= m < es0.len() && es0[m].workspace@ == k {
                        let m = choose|m: int| 0 <= m < es0.len() && es0[m].workspace@ == k;
                        lemma_entry_at(es0, k, m);
                        if es_mid.len() < es0.len() {
                            assert(m != 0);
                            assert(es1[m - 1] == es0[m]);
                            lemma_entry_at(es1, k, m - 1);
                        } else {
                            assert(es1[m] == es0[m]);
                            lemma_entry_at(es1, k, m);
                        }
                    } else {
                        assert forall|m: int| 0 <= m < es1.len() implies es1[m].workspace@ != k by {
                            if m < es_mid.len() {
                                if es_mid.len() < es0.len() {
                                    assert(es1[m] == es0[m + 1]);
                                } else {
                                    assert(es1[m] == es0[m]);
                                }
                            }
                        }
                        lemma_entry_absent(es1, k);
                        lemma_entry_absent(es0, k);
                    }
                }
                if es0.len() < DYNAMIC_CONTEXT_CACHE_MAX_ENTRIES {
                    assert forall|k: Seq<char>| k != ws implies entry_from(es1, k, 0) == entry_from(es0, k, 0) by {
                        lemma_entry_from(es0, k, 0);
                        if exists|m: int| 0 <= m < es0.len() && es0[m].workspace@ == k {
                            let m = choose|m: int| 0 <= m < es0.len() && es0[m].workspace@ == k;
                            lemma_entry_at(es0, k, m);
                            assert(es1[m] == es0[m]);
                            lemma_entry_at(es1, k, m);
                        } else {
                            assert forall|m: int| 0 <= m < es1.len() implies es1[m].workspace@ != k by {
                                if m < es_mid.len() {
                                    assert(es1[m] == es0[m]);
                                }
                            }
                            lemma_entry_absent(es1, k);
                            lemma_entry_absent(es0, k);
                        }
                    }
                }
            }
        }
        self.entries = es;
        assert(same_except(before, *self, ws, evicted));
    }
}

/// Replacing the entry at `p` (which held `es0[p]`'s workspace) leaves the
/// other workspaces' entries alone.
proof fn lemma_same_for_other(es0: Seq<CacheEntry>, es1: Seq<CacheEntry>, k: Seq<char>, p: int)
    requires
        0 <= p < es0.len(),
        es1.len() == es0.len(),
        es1[p].workspace@ == es0[p].workspace@,
        k != es0[p].workspace@,
        forall|m: int| 0 <= m < es0.len() && m != p ==> es1[m] == es0[m],
    ensures
        entry_from(es1, k, 0) == entry_from(es0, k, 0),
{
    lemma_agree_except(es0, es1, k, p, 0);
}

proof fn lemma_agree_except(es0: Seq<CacheEntry>, es1: Seq<CacheEntry>, k: Seq<char>, p: int, i: int)
    requires
        0 <= i <= es0.len(),
        0 <= p < es0.len(),
        es1.len() == es0.len(),
        es1[p].workspace@ == es0[p].workspace@,
        k != es0[p].workspace@,
        forall|m: int| 0 <= m < es0.len() && m != p ==> es1[m] == es0[m],
    ensures
        entry_from(es1, k, i) == entry_from(es0, k, i),
    decreases es0.len() - i,
{
    if i < es0.len() {
        lemma_agree_except(es0, es1, k, p, i + 1);
        if i != p {
            assert(es1[i] == es0[i]);
        }
    }
}

/// One step of building the dynamic-context block.
pub enum ContextStep {
    /// The block (empty when dynamic context is disabled).
    Done(String),
    /// Compute the workspace's canonical path and fingerprint, then ask again.
    NeedFingerprint,
    /// Assemble the block, then call [`finish_dynamic_context_block`].
    Assemble,
}

/// The block cached for workspace `ws` under fingerprint `fp` and the
/// configured git options, if any.
pub open spec fn cached_block(cache: DynamicContextCache, cfg: DynamicContextConfig, ws: Seq<char>, fp: Seq<char>) -> Option<Seq<char>> {
    match cache.entry(ws) {
        Some(e) => if e.fingerprint == fp && e.include_git == cfg.include_git && e.max_git_log_lines == cfg.max_git_log_lines {
            Some(e.block)
        } else {
            None
        },
        None => None,
    }
}

/// Decide the dynamic-context block for the system prompt: empty when
/// `[agent.dynamic_context]` is disabled; the cached block when the workspace
/// (`probe`: canonical path and fingerprint, once computed) was assembled with
/// the same fingerprint and git options; otherwise assemble.
pub fn format_dynamic_context_block(cfg: &DynamicContextConfig, cache: &DynamicContextCache, probe: Option<(&str, &str)>) -> (r: ContextStep)
    ensures
        !cfg.enabled ==> (r matches ContextStep::Done(b) && b@.len() == 0),
        cfg.enabled ==> match probe {
            Some((ws, fp)) => match cached_block(*cache, *cfg, ws@, fp@) {
                Some(b) => r matches ContextStep::Done(x) && x@ == b,
                None => r is Assemble,
            },
            None => r is NeedFingerprint,
        },
{
    if !cfg.enabled {
        return ContextStep::Done(String::new());
    }
    match probe {
        None => ContextStep::NeedFingerprint,
        Some((ws, fp)) => match cache.lookup(ws, fp, cfg.include_git, cfg.max_git_log_lines) {
            Some(b) => ContextStep::Done(b),
            None => ContextStep::Assemble,
        },
    }
}

/// Remember the freshly assembled `block` for the workspace and return it.
pub fn finish_dynamic_context_block(
    cfg: &DynamicContextConfig,
    cache: &mut DynamicContextCache,
    workspace: &str,
    fingerprint: &str,
    block: String,
) -> (r: String)
    ensures
        r@ == block@,
        final(cache).entry(workspace@) == Some(
            EntryView {
                fingerprint: fingerprint@,
                include_git: cfg.include_git,
                max_git_log_lines: cfg.max_git_log_lines,
                block: block@,
            },
        ),
        old(cache).entry(workspace@) is Some || old(cache).size() < DYNAMIC_CONTEXT_CACHE_MAX_ENTRIES ==> forall|k: Seq<char>|
            k != workspace@ ==> final(cache).entry(k) == old(cache).entry(k),
        exists|evicted: Seq<char>| #[trigger] same_except(*old(cache), *final(cache), workspace@, evicted),
        final(cache).size() <= DYNAMIC_CONTEXT_CACHE_MAX_ENTRIES,
{
    let entry = CacheEntry {
        workspace: workspace.to_owned(),
        fingerprint: fingerprint.to_owned(),
        include_git: cfg.include_git,
        max_git_log_lines: cfg.max_git_log_lines,
        block: block.clone(),
    };
    cache.store(entry);
    block
}

/// Read after write: once a block is stored for a workspace, asking again with
/// the same fingerprint and options gives that block back.
pub proof fn lemma_store_then_lookup(
    cache: DynamicContextCache,
    cfg: DynamicContextConfig,
    ws: Seq<char>,
    fp: Seq<char>,
    block: Seq<char>,
)
    requires
        cache.entry(ws) == Some(
            EntryView {
                fingerprint: fp,
                include_git: cfg.include_git,
                max_git_log_lines: cfg.max_git_log_lines,
                block,
            },
        ),
    ensures
        cached_block(cache, cfg, ws, fp) == Some(block),
{
}

} // verus!
