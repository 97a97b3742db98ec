//! Explicit engine state for the query-engine orchestration path.

use vstd::prelude::*;

verus! {

/// Reason for a state transition (auditing / diagnostics).
#[derive(Debug, Clone, Copy, PartialEq, Eq, Structural)]
pub enum TransitionReason {
    BeginTurn,
    PreModelCompaction,
    ModelCall,
    ToolRound,
    PostToolHooks,
    RetryAfterCompaction,
    BudgetHalt,
    Cancelled,
    LoopDetectorInterrupt,
    ModelSwitch,
    TurnComplete,
    /// Turn ended with an error (non-cancel).
    TurnError,
}

/// One recorded transition step.
pub struct TurnTransition {
    pub reason: TransitionReason,
    pub detail: Option<String>,
}

/// A transition as plain values.
pub struct TransitionView {
    pub reason: TransitionReason,
    pub detail: Option<Seq<char>>,
}

impl View for TurnTransition {
    type V = TransitionView;

    open spec fn view(&self) -> TransitionView {
        TransitionView {
            reason: self.reason,
            detail: match self.detail {
                Some(d) => Some(d@),
                None => None,
            },
        }
    }
}

impl TurnTransition {
    pub fn clone_transition(&self) -> (r: TurnTransition)
        ensures
            r@ == self@,
    {
        TurnTransition {
            reason: self.reason,
            detail: match &self.detail {
                Some(d) => Some(d.clone()),
                None => None,
            },
        }
    }
}

/// Lightweight turn-local state (the iteration is owned by the tool loop).
pub struct EngineState {
    pub iteration: usize,
    pub last_transition: Option<TransitionReason>,
}

impl Default for EngineState {
    fn default() -> (r: EngineState)
        ensures
            r.iteration == 0,
            r.last_transition is None,
    {
        EngineState::new()
    }
}

impl EngineState {
    /// The state before the first iteration.
    pub fn new() -> (r: EngineState)
        ensures
            r.iteration == 0,
            r.last_transition is None,
    {
        EngineState { iteration: 0, last_transition: None }
    }
}

} // verus!
