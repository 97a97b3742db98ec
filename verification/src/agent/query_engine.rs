//! Query engine diagnostics: a bounded log of turn transitions, and the
//! token-continuation heuristic.

use vstd::prelude::*;
use crate::agent::state::{TransitionReason, TransitionView, TurnTransition};

verus! {

/// How many transitions the log keeps.
pub const DIAG_CAP: usize = 64;

/// The last `n` elements of `s` (all of them when there are fewer).
pub open spec fn keep_last<A>(s: Seq<A>, n: nat) -> Seq<A> {
    if s.len() > n {
        s.subrange(s.len() - n, s.len() as int)
    } else {
        s
    }
}

pub open spec fn transition_views(s: Seq<TurnTransition>) -> Seq<TransitionView> {
    s.map_values(|t: TurnTransition| t@)
}

/// Recent turn transitions, oldest first, at most [`DIAG_CAP`] of them.
pub struct DiagnosticsLog {
    entries: Vec<TurnTransition>,
}

impl DiagnosticsLog {
    #[verifier::type_invariant]
    closed spec fn inv(self) -> bool {
        self.entries@.len() <= DIAG_CAP
    }

    /// The kept transitions, oldest first.
    pub closed spec fn recent(&self) -> Seq<TransitionView> {
        transition_views(self.entries@)
    }

    pub fn new() -> (r: DiagnosticsLog)
        ensures
            r.recent() == Seq::<TransitionView>::empty(),
    {
        let r = DiagnosticsLog { entries: Vec::new() };
        assert(r.recent() =~= Seq::<TransitionView>::empty());
        r
    }

    /// Record a transition, dropping the oldest one when the log is full.
    pub fn record_transition(&mut self, reason: TransitionReason, detail: Option<String>)
        ensures
            final(self).recent() == keep_last(
                old(self).recent().push(TransitionView { reason, detail: match detail {
                    Some(d) => Some(d@),
                    None => None,
                } }),
                DIAG_CAP as nat,
            ),
    {
        proof {
            use_type_invariant(&*self);
        }
        let t = TurnTransition { reason, detail };
        let ghost tv = t@;
        let mut es: Vec<TurnTransition> = Vec::new();
        std::mem::swap(&mut es, &mut self.entries);
        let ghost e0 = es@;
        if es.len() >= DIAG_CAP {
            es.remove(0);
        }
        es.push(t);
        proof {
            let all = transition_views(e0).push(tv);
            if e0.len() >= DIAG_CAP {
                assert(transition_views(es@) =~= all.subrange(all.len() - DIAG_CAP, all.len() as int));
            } else {
                assert(transition_views(es@) =~= all);
            }
        }
        self.entries = es;
    }

    /// Recent transitions, oldest first (the log is left as it is).
    pub fn drain_diagnostics(&self) -> (r: Vec<TurnTransition>)
        ensures
            transition_views(r@) == self.recent(),
            r@.len() <= DIAG_CAP,
    {
        proof {
            use_type_invariant(self);
        }
        let mut out: Vec<TurnTransition> = Vec::new();
        let mut i: usize = 0;
        while i < self.entries.len()
            invariant
                i <= self.entries@.len(),
                transition_views(out@) == transition_views(self.entries@.subrange(0, i as int)),
            decreases self.entries@.len() - i,
        {
            let ghost before = out@;
            out.push(self.entries[i].clone_transition());
            proof {
                assert(transition_views(out@) =~= transition_views(before).push(self.entries@[i as int]@));
                assert(transition_views(self.entries@.subrange(0, i + 1)) =~= transition_views(
                    self.entries@.subrange(0, i as int),
                ).push(self.entries@[i as int]@));
            }
            i = i + 1;
        }
        proof {
            assert(self.entries@.subrange(0, self.entries@.len() as int) =~= self.entries@);
        }
        out
    }
}

/// The log after any number of records holds the last [`DIAG_CAP`] of them:
/// trimming before a record changes nothing.
pub proof fn lemma_keep_last_push<A>(s: Seq<A>, x: A, n: nat)
    requires
        n > 0,
    ensures
        keep_last(keep_last(s, n).push(x), n) == keep_last(s.push(x), n),
{
    let a = keep_last(keep_last(s, n).push(x), n);
    let b = keep_last(s.push(x), n);
    assert(a =~= b);
}

/// Token usage a provider reported for a response.
pub struct TokenUsage {
    pub input_tokens: Option<u64>,
    pub output_tokens: Option<u64>,
}

/// Heuristic: the model may have stopped early at its output token cap
/// (large billed output with almost no visible text), so the caller may
/// append a nudge.
pub open spec fn wants_continuation(usage: Option<TokenUsage>, output_text_chars: usize) -> bool {
    match usage {
        Some(u) => match u.output_tokens {
            Some(out) => out >= 900 && output_text_chars < 24,
            None => false,
        },
        None => false,
    }
}

pub fn should_request_token_continuation(usage: Option<&TokenUsage>, output_text_chars: usize) -> (r: bool)
    ensures
        r == wants_continuation(
            match usage {
                Some(u) => Some(*u),
                None => None,
            },
            output_text_chars,
        ),
{
    let u = match usage {
        Some(u) => u,
        None => return false,
    };
    let out = match u.output_tokens {
        Some(o) => o,
        None => return false,
    };
    out >= 900 && output_text_chars < 24
}

/// Open a traced turn: record its start.
pub fn begin_traced_turn(log: &mut DiagnosticsLog)
    ensures
        final(log).recent() == keep_last(
            old(log).recent().push(TransitionView { reason: TransitionReason::BeginTurn, detail: None }),
            DIAG_CAP as nat,
        ),
{
    log.record_transition(TransitionReason::BeginTurn, None);
}

/// Close a traced turn with the tool loop's result (the reply, or the error's
/// text): record completion or the error. Returns whether post-turn hooks
/// should be fired (on success, when hooks are configured).
pub fn end_traced_turn(log: &mut DiagnosticsLog, result: &Result<String, String>, has_hooks: bool) -> (r: bool)
    ensures
        r == (result is Ok && has_hooks),
        final(log).recent() == keep_last(
            old(log).recent().push(
                match result {
                    Ok(_) => TransitionView { reason: TransitionReason::TurnComplete, detail: None },
                    Err(e) => TransitionView { reason: TransitionReason::TurnError, detail: Some(e@) },
                },
            ),
            DIAG_CAP as nat,
        ),
{
    match result {
        Ok(_) => {
            log.record_transition(TransitionReason::TurnComplete, None);
            has_hooks
        },
        Err(e) => {
            log.record_transition(TransitionReason::TurnError, Some(e.clone()));
            false
        },
    }
}

} // verus!
