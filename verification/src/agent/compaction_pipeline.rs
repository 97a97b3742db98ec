//! Phased compaction before LLM calls and reactive trimming after
//! context-related failures: which phases run. Pruning the history and
//! analysing the turn's context are the host's part.

use vstd::prelude::*;
use crate::text::{chars_of, contains_chars, contains_seq, lower, lower_chars};

verus! {

broadcast use vstd::string::group_string_axioms;

/// Why a compaction pass is running (drives aggressiveness).
#[derive(Debug, Clone, Copy, PartialEq, Eq, Structural)]
pub enum CompactionTrigger {
    Routine,
    /// Prior LLM attempt failed with a context-size style error.
    ReactiveContextError,
}

impl Default for CompactionTrigger {
    fn default() -> (r: CompactionTrigger)
        ensures
            r == CompactionTrigger::Routine,
    {
        CompactionTrigger::Routine
    }
}

/// History pruning settings as the phases read them.
pub struct HistoryPrunerConfig {
    pub enabled: bool,
}

/// Per-iteration context for optional analyzer stages.
pub struct CompactionContext {
    pub iteration: usize,
    pub last_tool_names: Vec<String>,
    pub trigger: CompactionTrigger,
    /// When true, analyse the turn's context to log suggested tools (no filtering yet).
    pub log_context_signals: bool,
}

impl CompactionContext {
    pub fn new(iteration: usize, last_tool_names: Vec<String>, trigger: CompactionTrigger) -> (r: CompactionContext)
        ensures
            r.iteration == iteration,
            r.last_tool_names@ == last_tool_names@,
            r.trigger == trigger,
            !r.log_context_signals,
    {
        CompactionContext { iteration, last_tool_names, trigger, log_context_signals: false }
    }
}

/// The phases to run on the history before an LLM call.
pub struct PreLlmPhases {
    /// Prune the history with the pruner settings.
    pub prune: bool,
    /// Analyse the turn's context and log the signals.
    pub analyze: bool,
}

/// Phases before an LLM call: pruning when enabled, then context analysis
/// when the context asks for its signals. The trigger is not consulted yet.
pub fn run_pre_llm_phases(pruning: &HistoryPrunerConfig, ctx: &CompactionContext) -> (r: Result<PreLlmPhases, String>)
    ensures
        r matches Ok(p) && p.prune == pruning.enabled && p.analyze == ctx.log_context_signals,
{
    Ok(PreLlmPhases { prune: pruning.enabled, analyze: ctx.log_context_signals })
}

/// Aggressive trim after a context-related LLM failure: whether to prune.
pub fn run_reactive_compaction(pruning: &HistoryPrunerConfig) -> (r: Result<bool, String>)
    ensures
        r == Ok::<bool, String>(pruning.enabled),
{
    Ok(pruning.enabled)
}

/// Phrases in provider errors that report an exceeded prompt or context limit.
pub open spec fn context_hint(l: Seq<char>) -> bool {
    ||| contains_seq(l, "exceeds max length"@)
    ||| contains_seq(l, "context length"@)
    ||| contains_seq(l, "context window"@)
    ||| contains_seq(l, "context_length_exceeded"@)
    ||| contains_seq(l, "maximum context"@)
    ||| contains_seq(l, "too many tokens"@)
    ||| contains_seq(l, "prompt is too long"@)
}

/// True when the error text (ASCII case ignored) reports a prompt or context
/// limit, which trimming the history can recover from.
pub fn llm_error_suggests_context_retry(err: &str) -> (r: bool)
    ensures
        r == context_hint(lower(err@)),
{
    let l = lower_chars(&chars_of(err));
    contains_chars(&l, &chars_of("exceeds max length")) || contains_chars(&l, &chars_of("context length"))
        || contains_chars(&l, &chars_of("context window")) || contains_chars(&l, &chars_of("context_length_exceeded"))
        || contains_chars(&l, &chars_of("maximum context")) || contains_chars(&l, &chars_of("too many tokens"))
        || contains_chars(&l, &chars_of("prompt is too long"))
}

} // verus!
