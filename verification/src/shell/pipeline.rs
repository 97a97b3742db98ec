//! Composable shell command validators and rewriters.

use vstd::prelude::*;
use vstd::utf8::encode_utf8;
use crate::text::{
    chars_of, contains_chars, contains_seq, debug_quoted, debug_str, dec, has_char, push_dec,
    string_of, trim, trim_chars,
};

verus! {

/// Validates a shell command string before policy / execution.
pub trait CommandValidator {
    /// Whether this validator refuses `command`.
    spec fn rejects(&self, command: Seq<char>) -> bool;

    /// The error text given for a refused `command`.
    spec fn rejection(&self, command: Seq<char>) -> Seq<char>;

    fn validate(&self, command: &str) -> (r: Result<(), String>)
        ensures
            match r {
                Ok(()) => !self.rejects(command@),
                Err(e) => self.rejects(command@) && e@ == self.rejection(command@),
            },
    ;
}

/// Rewrites a command string (e.g. quoting fixes). Identity rewriter is valid.
pub trait CommandRewriter {
    spec fn rewritten(&self, command: Seq<char>) -> Seq<char>;

    fn rewrite(&self, command: &str) -> (r: String)
        ensures
            r@ == self.rewritten(command@),
    ;
}

/// Extra forbidden path fragments from `[shell.safe].forbidden_paths`.
pub struct ExtraForbiddenPathsValidator {
    pub paths: Vec<String>,
}

/// Index of the first path whose trimmed text is non-empty and occurs in `command`
/// (or the number of paths).
pub open spec fn first_forbidden(paths: Seq<String>, command: Seq<char>, i: int) -> int
    decreases paths.len() - i,
{
    if i >= paths.len() {
        paths.len() as int
    } else if trim(paths[i]@).len() > 0 && contains_seq(command, trim(paths[i]@)) {
        i
    } else {
        first_forbidden(paths, command, i + 1)
    }
}

impl CommandValidator for ExtraForbiddenPathsValidator {
    open spec fn rejects(&self, command: Seq<char>) -> bool {
        first_forbidden(self.paths@, command, 0) < self.paths@.len()
    }

    open spec fn rejection(&self, command: Seq<char>) -> Seq<char> {
        let needle = trim(self.paths@[first_forbidden(self.paths@, command, 0)]@);
        "blocked by shell.safe.forbidden_paths (matched "@ + debug_quoted(needle) + ")"@
    }

    fn validate(&self, command: &str) -> (r: Result<(), String>) {
        let cmd = chars_of(command);
        let mut i: usize = 0;
        while i < self.paths.len()
            invariant
                i <= self.paths@.len(),
                cmd@ == command@,
                first_forbidden(self.paths@, command@, 0) == first_forbidden(self.paths@, command@, i as int),
            decreases self.paths@.len() - i,
        {
            let needle = trim_chars(&chars_of(self.paths[i].as_str()));
            if needle.len() > 0 && contains_chars(&cmd, &needle) {
                let q = debug_str(string_of(&needle).as_str());
                let mut msg = "blocked by shell.safe.forbidden_paths (matched ".to_owned();
                msg.push_str(q.as_str());
                msg.push_str(")");
                return Err(msg);
            }
            i = i + 1;
        }
        Ok(())
    }
}

/// Reject NUL bytes which break POSIX shells unpredictably.
pub struct NoNulByteValidator;

impl CommandValidator for NoNulByteValidator {
    open spec fn rejects(&self, command: Seq<char>) -> bool {
        command.contains('\0')
    }

    open spec fn rejection(&self, command: Seq<char>) -> Seq<char> {
        "command contains NUL byte"@
    }

    fn validate(&self, command: &str) -> (r: Result<(), String>) {
        if has_char(&chars_of(command), '\0') {
            return Err("command contains NUL byte".to_owned());
        }
        Ok(())
    }
}

/// Balanced-tier: reject extremely long one-line commands (DoS guard).
pub struct MaxLineLengthValidator {
    pub max_bytes: usize,
}

impl CommandValidator for MaxLineLengthValidator {
    /// Longer than `max_bytes` in its UTF-8 encoding.
    open spec fn rejects(&self, command: Seq<char>) -> bool {
        encode_utf8(command).len() > self.max_bytes
    }

    open spec fn rejection(&self, command: Seq<char>) -> Seq<char> {
        "command exceeds max length ("@ + dec(encode_utf8(command).len()) + " > "@ + dec(
            self.max_bytes as nat,
        ) + ")"@
    }

    fn validate(&self, command: &str) -> (r: Result<(), String>) {
        let n = command.as_bytes().len();
        if n > self.max_bytes {
            let mut msg = "command exceeds max length (".to_owned();
            push_dec(&mut msg, n as u64);
            msg.push_str(" > ");
            push_dec(&mut msg, self.max_bytes as u64);
            msg.push_str(")");
            return Err(msg);
        }
        Ok(())
    }
}

/// Identity rewriter (placeholder for future balanced transforms).
pub struct IdentityRewriter;

impl CommandRewriter for IdentityRewriter {
    open spec fn rewritten(&self, command: Seq<char>) -> Seq<char> {
        command
    }

    fn rewrite(&self, command: &str) -> (r: String) {
        command.to_owned()
    }
}

/// The validators an engine may hold.
pub enum PipelineValidator {
    ExtraForbiddenPaths(ExtraForbiddenPathsValidator),
    NoNulByte(NoNulByteValidator),
    MaxLineLength(MaxLineLengthValidator),
}

impl CommandValidator for PipelineValidator {
    open spec fn rejects(&self, command: Seq<char>) -> bool {
        match self {
            PipelineValidator::ExtraForbiddenPaths(v) => v.rejects(command),
            PipelineValidator::NoNulByte(v) => v.rejects(command),
            PipelineValidator::MaxLineLength(v) => v.rejects(command),
        }
    }

    open spec fn rejection(&self, command: Seq<char>) -> Seq<char> {
        match self {
            PipelineValidator::ExtraForbiddenPaths(v) => v.rejection(command),
            PipelineValidator::NoNulByte(v) => v.rejection(command),
            PipelineValidator::MaxLineLength(v) => v.rejection(command),
        }
    }

    fn validate(&self, command: &str) -> (r: Result<(), String>) {
        match self {
            PipelineValidator::ExtraForbiddenPaths(v) => v.validate(command),
            PipelineValidator::NoNulByte(v) => v.validate(command),
            PipelineValidator::MaxLineLength(v) => v.validate(command),
        }
    }
}

/// The rewriters an engine may hold.
pub enum PipelineRewriter {
    Identity(IdentityRewriter),
}

impl CommandRewriter for PipelineRewriter {
    open spec fn rewritten(&self, command: Seq<char>) -> Seq<char> {
        match self {
            PipelineRewriter::Identity(r) => r.rewritten(command),
        }
    }

    fn rewrite(&self, command: &str) -> (r: String) {
        match self {
            PipelineRewriter::Identity(rw) => rw.rewrite(command),
        }
    }
}

} // verus!
