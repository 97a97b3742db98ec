//! The `[shell]` configuration section the engine is built from.

use vstd::prelude::*;
use crate::text::{chars_of, lower, lower_chars, string_of, trim, trim_chars};

verus! {

/// One `[[shell.profiles]]` entry: a custom profile id extending a built-in tier.
pub struct ShellProfileEntry {
    pub id: String,
    pub extends: String,
}

/// `[shell.safe]`.
pub struct ShellSafeSection {
    /// Extra path substrings rejected in shell commands.
    pub forbidden_paths: Vec<String>,
}

/// `[shell.autonomous]`.
pub struct ShellAutonomousSection {
    pub max_validators: u32,
    pub spill_threshold_bytes: u64,
}

/// `[shell]`.
pub struct ShellSection {
    pub profile: String,
    pub timeout_secs: u64,
    pub login_shell: bool,
    pub safe: ShellSafeSection,
    pub autonomous: ShellAutonomousSection,
    pub profiles: Vec<ShellProfileEntry>,
}

/// Profile names compare case-insensitively after trimming.
pub open spec fn normalize_name(s: Seq<char>) -> Seq<char> {
    lower(trim(s))
}

pub fn normalize_name_exec(s: &str) -> (r: Vec<char>)
    ensures
        r@ == normalize_name(s@),
{
    let cs = chars_of(s);
    let t = trim_chars(&cs);
    lower_chars(&t)
}

impl ShellProfileEntry {
    /// `extends`, trimmed and lower-cased.
    pub fn extends_normalized(&self) -> (r: String)
        ensures
            r@ == normalize_name(self.extends@),
    {
        string_of(&normalize_name_exec(self.extends.as_str()))
    }
}

impl ShellSection {
    /// `profile`, trimmed and lower-cased.
    pub fn normalized_profile(&self) -> (r: String)
        ensures
            r@ == normalize_name(self.profile@),
    {
        string_of(&normalize_name_exec(self.profile.as_str()))
    }

    /// Defaults: the `safe` profile, a 60 s timeout, no login shell, no extra
    /// forbidden paths, no custom profiles.
    pub fn default_section() -> (r: ShellSection)
        ensures
            r.profile@ == "safe"@,
            r.timeout_secs == 60,
            !r.login_shell,
            r.safe.forbidden_paths@.len() == 0,
            r.autonomous.max_validators == 64,
            r.autonomous.spill_threshold_bytes == 0,
            r.profiles@.len() == 0,
    {
        ShellSection {
            profile: "safe".to_owned(),
            timeout_secs: 60,
            login_shell: false,
            safe: ShellSafeSection { forbidden_paths: Vec::new() },
            autonomous: ShellAutonomousSection { max_validators: 64, spill_threshold_bytes: 0 },
            profiles: Vec::new(),
        }
    }
}

} // verus!
