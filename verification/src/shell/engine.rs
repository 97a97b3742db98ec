//! Single entry point for shell execution (used by the `shell` tool and skill shell).
//!
//! Running a command alternates checks that only the host can make (rate limits,
//! the security policy, the action budget, spawning the process) with decisions
//! that are made here: [`ShellEngine::start_command`] runs the validators,
//! [`ShellEngine::after_gate`] takes the host's answer to each check and names the
//! next one (or the rewritten command to spawn), and
//! [`ShellEngine::finish_command`] turns the process outcome into a [`ToolResult`].

use vstd::prelude::*;
use vstd::utf8::{decode_utf8, encode_utf8, is_char_boundary, valid_utf8};
use crate::shell::config::ShellSection;
use crate::shell::pipeline::{
    CommandRewriter, CommandValidator, ExtraForbiddenPathsValidator, IdentityRewriter,
    MaxLineLengthValidator, NoNulByteValidator, PipelineRewriter, PipelineValidator,
};
use crate::shell::profiles::{
    resolution, resolve_shell_profile, resolves_as, ResolvedShellProfile, ShellProfileError,
    ShellProfileKind,
};
use crate::text::{dec, push_dec};
use crate::tools::result::{opt_view, ToolResult};

verus! {

broadcast use vstd::utf8::encode_utf8_valid_utf8, vstd::utf8::encode_utf8_decode_utf8,
    vstd::utf8::is_char_boundary_start_end_of_seq;

/// Budget for the captured output of a run, stdout and stderr together: stdout
/// is kept first, stderr gets what is left.
pub const MAX_OUTPUT_BYTES: usize = 1048576;

/// Sensible ceiling for a single shell invocation string (balanced/autonomous).
pub const MAX_COMMAND_BYTES: usize = 262144;

/// A sandbox that leaves commands as they are.
pub struct NoopSandbox;

/// Profile-driven shell engine (immutable after construction). It carries the
/// host's security policy, runtime and sandbox handles for the host to use.
pub struct ShellEngine<S, R, B> {
    shell: ShellSection,
    resolved: ResolvedShellProfile,
    security: S,
    runtime: R,
    sandbox: B,
    validators: Vec<PipelineValidator>,
    rewriters: Vec<PipelineRewriter>,
    validator_count: usize,
}

/// A check the host performs on the engine's behalf.
#[derive(Debug, Clone, Copy, PartialEq, Eq, Structural)]
pub enum ShellGate {
    /// Is the caller over its hourly action rate?
    RateLimit,
    /// Does the security policy allow this command (with the approval flag)?
    Policy,
    /// Does the command name a path the policy forbids?
    ForbiddenPath,
    /// Record one action against the budget; was there room?
    RecordAction,
}

/// The host's answer to a [`ShellGate`].
pub enum GateAnswer {
    RateLimited(bool),
    PolicyVerdict(Result<(), String>),
    ForbiddenPathFound(Option<String>),
    ActionRecorded(bool),
}

/// What happens next while running a command.
pub enum ShellStep {
    /// The host must answer this check.
    Ask(ShellGate),
    /// All checks passed: spawn this (rewritten) command.
    Run(String),
    /// Finished without spawning anything.
    Done(ToolResult),
}

/// How spawning and running the command went.
pub enum ExecOutcome {
    /// The runtime could not build the command.
    BuildFailed(String),
    /// The sandbox could not wrap the command.
    SandboxFailed(String),
    /// The process ran; output already decoded (lossily) as UTF-8.
    Completed { success: bool, stdout: String, stderr: String },
    /// The process could not be run.
    SpawnFailed(String),
    /// The process did not finish within the timeout and was killed.
    TimedOut,
}

pub open spec fn is_forbidden_paths_validator(v: PipelineValidator, paths: Seq<String>) -> bool {
    match v {
        PipelineValidator::ExtraForbiddenPaths(x) => x.paths@ == paths,
        _ => false,
    }
}

pub open spec fn is_max_len_validator(v: PipelineValidator) -> bool {
    match v {
        PipelineValidator::MaxLineLength(m) => m.max_bytes == MAX_COMMAND_BYTES,
        _ => false,
    }
}

/// The validator list the engine builds: the extra forbidden paths (when any are
/// configured), the NUL-byte check, and for balanced and autonomous tiers the
/// maximum command length.
pub open spec fn pipeline_for(vs: Seq<PipelineValidator>, paths: Seq<String>, kind: ShellProfileKind) -> bool {
    let base: int = if paths.len() > 0 { 1 } else { 0 };
    &&& vs.len() == base + 1 + (if kind == ShellProfileKind::Safe { 0int } else { 1int })
    &&& paths.len() > 0 ==> is_forbidden_paths_validator(vs[0], paths)
    &&& vs[base] is NoNulByte
    &&& kind != ShellProfileKind::Safe ==> is_max_len_validator(vs[base + 1])
}

/// Index of the first validator that rejects `command`, or the number of validators.
pub open spec fn first_rejecting(vs: Seq<PipelineValidator>, command: Seq<char>, i: int) -> int
    decreases vs.len() - i,
{
    if i >= vs.len() {
        vs.len() as int
    } else if vs[i].rejects(command) {
        i
    } else {
        first_rejecting(vs, command, i + 1)
    }
}

/// `command` after every rewriter from index `i` on.
pub open spec fn rewrite_all(rs: Seq<PipelineRewriter>, command: Seq<char>, i: int) -> Seq<char>
    decreases rs.len() - i,
{
    if i >= rs.len() {
        command
    } else {
        rewrite_all(rs, rs[i].rewritten(command), i + 1)
    }
}

/// Largest character boundary of `bytes` not above `b`.
pub open spec fn floor_boundary(bytes: Seq<u8>, b: int) -> int
    decreases b,
{
    if b <= 0 {
        0
    } else if is_char_boundary(bytes, b) {
        b
    } else {
        floor_boundary(bytes, b - 1)
    }
}

/// How many bytes of `bytes` are kept under a budget of `limit` bytes: all of
/// them when they fit, else up to the last character boundary within the budget.
pub open spec fn kept_bytes(bytes: Seq<u8>, limit: int) -> int {
    if bytes.len() > limit {
        floor_boundary(bytes, limit)
    } else {
        bytes.len() as int
    }
}

/// The characters of `s` kept under a budget of `limit` UTF-8 bytes.
pub open spec fn kept_text(s: Seq<char>, limit: int) -> Seq<char> {
    let bytes = encode_utf8(s);
    decode_utf8(bytes.subrange(0, kept_bytes(bytes, limit)))
}

/// `s` when its UTF-8 encoding fits in `limit` bytes; otherwise the longest
/// character prefix that fits, followed by `suffix`.
pub open spec fn capped(s: Seq<char>, limit: nat, suffix: Seq<char>) -> Seq<char> {
    let bytes = encode_utf8(s);
    if bytes.len() > limit {
        decode_utf8(bytes.subrange(0, floor_boundary(bytes, limit as int))) + suffix
    } else {
        s
    }
}

/// What is left of the shared output budget for stderr once stdout has been kept.
pub open spec fn stderr_budget(stdout: Seq<char>) -> int {
    MAX_OUTPUT_BYTES - kept_bytes(encode_utf8(stdout), MAX_OUTPUT_BYTES as int)
}

/// The floor boundary lies between 0 and `b` and is a character boundary.
pub proof fn lemma_floor_boundary(bytes: Seq<u8>, b: int)
    requires
        valid_utf8(bytes),
        0 <= b,
    ensures
        0 <= floor_boundary(bytes, b) <= b,
        floor_boundary(bytes, b) <= bytes.len(),
        is_char_boundary(bytes, floor_boundary(bytes, b)),
    decreases b,
{
    if b > 0 && !is_char_boundary(bytes, b) {
        lemma_floor_boundary(bytes, b - 1);
    }
    if b > bytes.len() {
        assert(!is_char_boundary(bytes, b));
    }
}

/// The kept part of `s` is a character prefix of `s` whose encoding is exactly
/// the kept bytes; it is all of `s` when `s` fits.
pub proof fn lemma_kept_text(s: Seq<char>, limit: int)
    requires
        0 <= limit,
    ensures
        0 <= kept_bytes(encode_utf8(s), limit) <= limit,
        encode_utf8(kept_text(s, limit)).len() == kept_bytes(encode_utf8(s), limit),
        kept_text(s, limit).len() <= s.len(),
        s.subrange(0, kept_text(s, limit).len() as int) == kept_text(s, limit),
        encode_utf8(s).len() <= limit ==> kept_text(s, limit) == s,
{
    let bytes = encode_utf8(s);
    let k = kept_bytes(bytes, limit);
    if bytes.len() > limit {
        lemma_floor_boundary(bytes, limit);
    }
    assert(is_char_boundary(bytes, k));
    let head = bytes.subrange(0, k);
    let tail = bytes.subrange(k, bytes.len() as int);
    vstd::utf8::valid_utf8_split(bytes, k);
    vstd::utf8::decode_utf8_split(bytes, k);
    vstd::utf8::decode_utf8_encode_utf8(head);
    assert(s == decode_utf8(head) + decode_utf8(tail));
    assert(s.subrange(0, decode_utf8(head).len() as int) =~= decode_utf8(head));
    if bytes.len() <= limit {
        assert(head =~= bytes);
    }
}

/// Of a completed run, stdout is kept up to [`MAX_OUTPUT_BYTES`] and stderr up to
/// what stdout left of that budget, so the captured output of both streams
/// together never exceeds [`MAX_OUTPUT_BYTES`] bytes. Each kept part is a
/// character prefix of its stream, and is the whole stream when it fits.
pub proof fn lemma_output_cap_combined(stdout: Seq<char>, stderr: Seq<char>)
    ensures
        0 <= stderr_budget(stdout) <= MAX_OUTPUT_BYTES,
        encode_utf8(kept_text(stdout, MAX_OUTPUT_BYTES as int)).len()
            + encode_utf8(kept_text(stderr, stderr_budget(stdout))).len() <= MAX_OUTPUT_BYTES,
        stdout.subrange(0, kept_text(stdout, MAX_OUTPUT_BYTES as int).len() as int)
            == kept_text(stdout, MAX_OUTPUT_BYTES as int),
        stderr.subrange(0, kept_text(stderr, stderr_budget(stdout)).len() as int)
            == kept_text(stderr, stderr_budget(stdout)),
        encode_utf8(stdout).len() + encode_utf8(stderr).len() <= MAX_OUTPUT_BYTES ==> (
            kept_text(stdout, MAX_OUTPUT_BYTES as int) == stdout
            && kept_text(stderr, stderr_budget(stdout)) == stderr),
{
    lemma_kept_text(stdout, MAX_OUTPUT_BYTES as int);
    lemma_kept_text(stderr, stderr_budget(stdout));
}

/// `capped` is the kept part, followed by `suffix` when something was cut.
pub proof fn lemma_capped_is_kept(s: Seq<char>, limit: nat, suffix: Seq<char>)
    ensures
        capped(s, limit, suffix) == kept_text(s, limit as int) + (if encode_utf8(s).len() > limit {
            suffix
        } else {
            Seq::empty()
        }),
{
    lemma_kept_text(s, limit as int);
    if encode_utf8(s).len() <= limit {
        assert(s + Seq::<char>::empty() =~= s);
    }
}

/// Name of a built-in tier as shown in the status line.
pub open spec fn kind_label(k: ShellProfileKind) -> Seq<char> {
    match k {
        ShellProfileKind::Safe => "Safe"@,
        ShellProfileKind::Balanced => "Balanced"@,
        ShellProfileKind::Autonomous => "Autonomous"@,
    }
}

/// `Profile: <custom id or tier> (<tier>) | Validators: <count>`.
pub open spec fn status_line(kind: ShellProfileKind, custom: Option<Seq<char>>, count: nat) -> Seq<char> {
    let base = kind_label(kind);
    let name = match custom {
        Some(c) => c,
        None => base,
    };
    "Profile: "@ + name + " ("@ + base + ") | Validators: "@ + dec(count)
}

/// The result of a run that reached the process, before the status line is added.
pub open spec fn raw_exec_result(outcome: ExecOutcome, timeout_secs: u64) -> (bool, Seq<char>, Option<Seq<char>>) {
    match outcome {
        ExecOutcome::Completed { success, stdout, stderr } => {
            let out = capped(stdout@, MAX_OUTPUT_BYTES as nat, "\n... [output truncated at 1MB]"@);
            let err = capped(stderr@, stderr_budget(stdout@) as nat, "\n... [stderr truncated at 1MB]"@);
            (success, out, if err.len() == 0 { None } else { Some(err) })
        },
        ExecOutcome::SpawnFailed(e) => (false, Seq::empty(), Some("Failed to execute command: "@ + e@)),
        _ => (false, Seq::empty(), Some("Command timed out after "@ + dec(timeout_secs as nat) + "s and was killed"@)),
    }
}

/// The status line prefixed: to the output on success, else to the error (or as the error).
pub open spec fn with_header(raw: (bool, Seq<char>, Option<Seq<char>>), header: Seq<char>) -> (bool, Seq<char>, Option<Seq<char>>) {
    let (success, out, err) = raw;
    if success {
        (true, header + "\n"@ + out, err)
    } else {
        match err {
            Some(e) => (false, out, Some(header + "\n"@ + e)),
            None => (false, out, Some(header)),
        }
    }
}

/// Views of a tool result.
pub open spec fn result_view(r: ToolResult) -> (bool, Seq<char>, Option<Seq<char>>) {
    (r.success, r.output@, opt_view(r.error))
}

/// How many UTF-8 bytes of `st` are kept under a budget of `limit` bytes.
pub fn kept_len(st: &str, limit: usize) -> (r: usize)
    ensures
        r == kept_bytes(encode_utf8(st@), limit as int),
        r <= limit,
{
    let ghost bytes = encode_utf8(st@);
    proof {
        lemma_kept_text(st@, limit as int);
    }
    let bytes_len = st.as_bytes().len();
    if bytes_len > limit {
        let mut b = limit;
        while b > 0 && !st.is_char_boundary(b)
            invariant
                b <= limit,
                bytes == encode_utf8(st@),
                floor_boundary(bytes, limit as int) == floor_boundary(bytes, b as int),
            decreases b,
        {
            b = b - 1;
        }
        proof {
            assert(is_char_boundary(bytes, 0));
            assert(floor_boundary(bytes, b as int) == b);
        }
        b
    } else {
        bytes_len
    }
}

/// Cuts `s` to at most `limit` UTF-8 bytes on a character boundary and appends
/// `suffix`, when it is longer than `limit` bytes.
pub fn cap_output(s: String, limit: usize, suffix: &str) -> (r: String)
    ensures
        r@ == capped(s@, limit as nat, suffix@),
{
    let bytes_len = s.as_str().as_bytes().len();
    if bytes_len > limit {
        let st = s.as_str();
        let b = kept_len(st, limit);
        proof {
            lemma_floor_boundary(encode_utf8(st@), limit as int);
        }
        let (head, _tail) = st.split_at(b);
        proof {
            assert(decode_utf8(encode_utf8(head@)) == head@);
        }
        let mut out = head.to_owned();
        out.push_str(suffix);
        out
    } else {
        s
    }
}

fn failure_text(prefix: &str, e: &str) -> (r: String)
    ensures
        r@ == prefix@ + e@,
{
    let mut s = prefix.to_owned();
    s.push_str(e);
    s
}

impl<S, R, B> ShellEngine<S, R, B> {
    #[verifier::type_invariant]
    closed spec fn inv(self) -> bool {
        &&& self.validator_count == self.validators@.len()
        &&& pipeline_for(self.validators@, self.shell.safe.forbidden_paths@, self.resolved.kind)
        &&& self.rewriters@.len() == (if self.resolved.kind == ShellProfileKind::Safe { 0int } else { 1int })
    }

    /// The `[shell]` section the engine was built from.
    pub closed spec fn spec_shell(&self) -> ShellSection {
        self.shell
    }

    /// The resolved profile tier.
    pub closed spec fn spec_kind(&self) -> ShellProfileKind {
        self.resolved.kind
    }

    /// The resolved custom profile id, if any.
    pub closed spec fn spec_custom_id(&self) -> Option<Seq<char>> {
        opt_view(self.resolved.custom_id)
    }

    /// The validators, in the order they run.
    pub closed spec fn spec_validators(&self) -> Seq<PipelineValidator> {
        self.validators@
    }

    /// The rewriters, in the order they run.
    pub closed spec fn spec_rewriters(&self) -> Seq<PipelineRewriter> {
        self.rewriters@
    }

    pub closed spec fn spec_security(&self) -> S {
        self.security
    }

    pub closed spec fn spec_runtime(&self) -> R {
        self.runtime
    }

    pub closed spec fn spec_sandbox(&self) -> B {
        self.sandbox
    }

    /// The status line added to results of commands that ran.
    pub open spec fn spec_status_line(&self) -> Seq<char> {
        status_line(self.spec_kind(), self.spec_custom_id(), self.spec_validators().len())
    }

    /// Build the engine from the `[shell]` section (typically `config.shell` at startup).
    pub fn new(shell: ShellSection, security: S, runtime: R, sandbox: B) -> (r: Result<Self, ShellProfileError>)
        ensures
            r is Ok <==> resolution(shell) is Ok,
            match r {
                Ok(e) => {
                    &&& e.spec_shell() == shell
                    &&& e.spec_security() == security
                    &&& e.spec_runtime() == runtime
                    &&& e.spec_sandbox() == sandbox
                    &&& resolution(shell) == Ok::<(ShellProfileKind, Option<Seq<char>>), (bool, Seq<char>)>((e.spec_kind(), e.spec_custom_id()))
                    &&& pipeline_for(e.spec_validators(), shell.safe.forbidden_paths@, e.spec_kind())
                    &&& e.spec_rewriters().len() == (if e.spec_kind() == ShellProfileKind::Safe { 0int } else { 1int })
                },
                Err(err) => resolves_as(Err(err), shell),
            },
    {
        let resolved = match resolve_shell_profile(&shell) {
            Ok(p) => p,
            Err(e) => return Err(e),
        };
        let mut validators: Vec<PipelineValidator> = Vec::new();
        let mut rewriters: Vec<PipelineRewriter> = Vec::new();
        if shell.safe.forbidden_paths.len() > 0 {
            let paths = shell.safe.forbidden_paths.clone();
            proof {
                assert(paths@ =~= shell.safe.forbidden_paths@);
            }
            validators.push(PipelineValidator::ExtraForbiddenPaths(ExtraForbiddenPathsValidator { paths }));
        }
        validators.push(PipelineValidator::NoNulByte(NoNulByteValidator));
        match resolved.kind {
            ShellProfileKind::Safe => {},
            _ => {
                validators.push(PipelineValidator::MaxLineLength(MaxLineLengthValidator { max_bytes: MAX_COMMAND_BYTES }));
                rewriters.push(PipelineRewriter::Identity(IdentityRewriter));
            },
        }
        let validator_count = validators.len();
        Ok(ShellEngine { shell, resolved, security, runtime, sandbox, validators, rewriters, validator_count })
    }

    /// Timeout for one command (from `[shell].timeout_secs`).
    pub fn timeout_secs(&self) -> (r: u64)
        ensures
            r == self.spec_shell().timeout_secs,
    {
        self.shell.timeout_secs
    }

    /// Whether commands run through a login shell (`[shell].login_shell`).
    pub fn login_shell(&self) -> (r: bool)
        ensures
            r == self.spec_shell().login_shell,
    {
        self.shell.login_shell
    }

    pub fn resolved_profile(&self) -> (r: &ResolvedShellProfile)
        ensures
            r.kind == self.spec_kind(),
            opt_view(r.custom_id) == self.spec_custom_id(),
    {
        &self.resolved
    }

    /// The host's security policy handle.
    pub fn security(&self) -> (r: &S)
        ensures
            *r == self.spec_security(),
    {
        &self.security
    }

    /// The host's runtime handle.
    pub fn runtime(&self) -> (r: &R)
        ensures
            *r == self.spec_runtime(),
    {
        &self.runtime
    }

    /// The host's sandbox handle.
    pub fn sandbox(&self) -> (r: &B)
        ensures
            *r == self.spec_sandbox(),
    {
        &self.sandbox
    }

    /// `Profile: <name> (<tier>) | Validators: <count>`.
    pub fn profile_status_line(&self) -> (r: String)
        ensures
            r@ == self.spec_status_line(),
    {
        proof {
            use_type_invariant(self);
        }
        let base = match self.resolved.kind {
            ShellProfileKind::Safe => "Safe",
            ShellProfileKind::Balanced => "Balanced",
            ShellProfileKind::Autonomous => "Autonomous",
        };
        let mut s = "Profile: ".to_owned();
        match &self.resolved.custom_id {
            Some(c) => s.push_str(c.as_str()),
            None => s.push_str(base),
        }
        s.push_str(" (");
        s.push_str(base);
        s.push_str(") | Validators: ");
        push_dec(&mut s, self.validator_count as u64);
        s
    }

    /// Run the validators on `command`: the first refusal ends the run with its
    /// message; otherwise the host is asked about the rate limit.
    pub fn start_command(&self, command: &str) -> (r: ShellStep)
        ensures
            ({
                let vs = self.spec_validators();
                let i = first_rejecting(vs, command@, 0);
                if i < vs.len() {
                    r matches ShellStep::Done(t) && t.is_failure(vs[i].rejection(command@))
                } else {
                    r == ShellStep::Ask(ShellGate::RateLimit)
                }
            }),
    {
        let mut i: usize = 0;
        while i < self.validators.len()
            invariant
                i <= self.validators@.len(),
                first_rejecting(self.validators@, command@, 0) == first_rejecting(self.validators@, command@, i as int),
            decreases self.validators@.len() - i,
        {
            match self.validators[i].validate(command) {
                Err(e) => return ShellStep::Done(ToolResult::failure(e)),
                Ok(()) => {},
            }
            i = i + 1;
        }
        ShellStep::Ask(ShellGate::RateLimit)
    }

    /// `command` after every rewriter.
    pub fn rewrite(&self, command: &str) -> (r: String)
        ensures
            r@ == rewrite_all(self.spec_rewriters(), command@, 0),
    {
        let mut cmd = command.to_owned();
        let mut i: usize = 0;
        while i < self.rewriters.len()
            invariant
                i <= self.rewriters@.len(),
                rewrite_all(self.rewriters@, command@, 0) == rewrite_all(self.rewriters@, cmd@, i as int),
            decreases self.rewriters@.len() - i,
        {
            cmd = self.rewriters[i].rewrite(cmd.as_str());
            i = i + 1;
        }
        cmd
    }

    /// Take the host's answer to a check: stop with the matching error, name the
    /// next check (rate limit, policy, forbidden path, action budget, in that
    /// order), or, once the action is recorded, hand back the rewritten command.
    pub fn after_gate(&self, command: &str, answer: GateAnswer) -> (r: ShellStep)
        ensures
            match answer {
                GateAnswer::RateLimited(true) => r matches ShellStep::Done(t) && t.is_failure(
                    "Rate limit exceeded: too many actions in the last hour"@,
                ),
                GateAnswer::RateLimited(false) => r == ShellStep::Ask(ShellGate::Policy),
                GateAnswer::PolicyVerdict(Err(reason)) => r matches ShellStep::Done(t) && t.is_failure(reason@),
                GateAnswer::PolicyVerdict(Ok(())) => r == ShellStep::Ask(ShellGate::ForbiddenPath),
                GateAnswer::ForbiddenPathFound(Some(p)) => r matches ShellStep::Done(t) && t.is_failure(
                    "Path blocked by security policy: "@ + p@,
                ),
                GateAnswer::ForbiddenPathFound(None) => r == ShellStep::Ask(ShellGate::RecordAction),
                GateAnswer::ActionRecorded(false) => r matches ShellStep::Done(t) && t.is_failure(
                    "Rate limit exceeded: action budget exhausted"@,
                ),
                GateAnswer::ActionRecorded(true) => r matches ShellStep::Run(c) && c@ == rewrite_all(
                    self.spec_rewriters(),
                    command@,
                    0,
                ),
            },
    {
        match answer {
            GateAnswer::RateLimited(true) => ShellStep::Done(
                ToolResult::failure("Rate limit exceeded: too many actions in the last hour".to_owned()),
            ),
            GateAnswer::RateLimited(false) => ShellStep::Ask(ShellGate::Policy),
            GateAnswer::PolicyVerdict(Err(reason)) => ShellStep::Done(ToolResult::failure(reason)),
            GateAnswer::PolicyVerdict(Ok(())) => ShellStep::Ask(ShellGate::ForbiddenPath),
            GateAnswer::ForbiddenPathFound(Some(p)) => ShellStep::Done(
                ToolResult::failure(failure_text("Path blocked by security policy: ", p.as_str())),
            ),
            GateAnswer::ForbiddenPathFound(None) => ShellStep::Ask(ShellGate::RecordAction),
            GateAnswer::ActionRecorded(false) => ShellStep::Done(
                ToolResult::failure("Rate limit exceeded: action budget exhausted".to_owned()),
            ),
            GateAnswer::ActionRecorded(true) => ShellStep::Run(self.rewrite(command)),
        }
    }

    /// Turn the process outcome into the tool result: build and sandbox failures
    /// are reported as they are; otherwise captured output is capped at
    /// [`MAX_OUTPUT_BYTES`] for stdout and stderr together (stdout first) and the
    /// status line is prefixed.
    pub fn finish_command(&self, outcome: ExecOutcome) -> (r: ToolResult)
        ensures
            match outcome {
                ExecOutcome::BuildFailed(e) => r.is_failure("Failed to build runtime command: "@ + e@),
                ExecOutcome::SandboxFailed(e) => r.is_failure("Sandbox error: "@ + e@),
                _ => result_view(r) == with_header(
                    raw_exec_result(outcome, self.spec_shell().timeout_secs),
                    self.spec_status_line(),
                ),
            },
    {
        let ghost g_outcome = outcome;
        let (success, output, error) = match outcome {
            ExecOutcome::BuildFailed(e) => {
                return ToolResult::failure(failure_text("Failed to build runtime command: ", e.as_str()));
            },
            ExecOutcome::SandboxFailed(e) => {
                return ToolResult::failure(failure_text("Sandbox error: ", e.as_str()));
            },
            ExecOutcome::Completed { success, stdout, stderr } => {
                let budget = MAX_OUTPUT_BYTES - kept_len(stdout.as_str(), MAX_OUTPUT_BYTES);
                let out = cap_output(stdout, MAX_OUTPUT_BYTES, "\n... [output truncated at 1MB]");
                let err = cap_output(stderr, budget, "\n... [stderr truncated at 1MB]");
                let err_opt = if err.as_str().is_empty() { None } else { Some(err) };
                (success, out, err_opt)
            },
            ExecOutcome::SpawnFailed(e) => (false, String::new(), Some(failure_text("Failed to execute command: ", e.as_str()))),
            ExecOutcome::TimedOut => {
                let mut m = "Command timed out after ".to_owned();
                push_dec(&mut m, self.shell.timeout_secs);
                m.push_str("s and was killed");
                (false, String::new(), Some(m))
            },
        };
        let header = self.profile_status_line();
        if success {
            let mut o = header;
            o.push_str("\n");
            o.push_str(output.as_str());
            ToolResult { success: true, output: o, error }
        } else {
            match error {
                Some(e) => {
                    let mut m = header;
                    m.push_str("\n");
                    m.push_str(e.as_str());
                    ToolResult { success: false, output, error: Some(m) }
                },
                None => ToolResult { success: false, output, error: Some(header) },
            }
        }
    }
}

/// Cron / scheduler path: the Safe-tier checks (the configured extra forbidden
/// paths, then the NUL-byte check) followed by the `sh` arguments that run
/// `command` (`-lc` for a login shell, else `-c`).
pub fn build_std_command_for_cron(shell: &ShellSection, command: &str) -> (r: Result<Vec<String>, String>)
    ensures
        ({
            let extra = ExtraForbiddenPathsValidator { paths: shell.safe.forbidden_paths };
            if extra.rejects(command@) {
                r matches Err(e) && e@ == extra.rejection(command@)
            } else if NoNulByteValidator.rejects(command@) {
                r matches Err(e) && e@ == NoNulByteValidator.rejection(command@)
            } else {
                r matches Ok(args) && args@.len() == 2 && args@[0]@ == (if shell.login_shell { "-lc"@ } else { "-c"@ })
                    && args@[1]@ == command@
            }
        }),
{
    let paths = shell.safe.forbidden_paths.clone();
    proof {
        assert(paths@ =~= shell.safe.forbidden_paths@);
    }
    let v_extra = ExtraForbiddenPathsValidator { paths };
    match v_extra.validate(command) {
        Err(e) => return Err(e),
        Ok(()) => {},
    }
    match NoNulByteValidator.validate(command) {
        Err(e) => return Err(e),
        Ok(()) => {},
    }
    let mut args: Vec<String> = Vec::new();
    if shell.login_shell {
        args.push("-lc".to_owned());
    } else {
        args.push("-c".to_owned());
    }
    args.push(command.to_owned());
    Ok(args)
}

} // verus!
