//! Resolved shell profile (built-in kind + optional custom id).

use vstd::prelude::*;
use crate::shell::config::{normalize_name, normalize_name_exec, ShellProfileEntry, ShellSection};
use crate::text::{chars_eq, chars_of, string_of, trim, trim_chars};

verus! {

/// Built-in shell pipeline tier (custom profiles map to one of these).
#[derive(Debug, Clone, Copy, PartialEq, Eq, Structural)]
pub enum ShellProfileKind {
    Safe,
    Balanced,
    Autonomous,
}

/// Effective profile after resolving custom ids.
pub struct ResolvedShellProfile {
    pub kind: ShellProfileKind,
    pub custom_id: Option<String>,
}

/// Why a `[shell]` section does not resolve.
#[derive(Debug)]
pub enum ShellProfileError {
    /// The normalized profile name is neither built-in nor a custom id.
    UnknownProfile(String),
    /// The matching custom entry (by its raw id) extends something other than a built-in.
    InvalidExtends(String),
}

/// The built-in tier a normalized name denotes, if any.
pub open spec fn builtin_kind(n: Seq<char>) -> Option<ShellProfileKind> {
    if n == "safe"@ {
        Some(ShellProfileKind::Safe)
    } else if n == "balanced"@ {
        Some(ShellProfileKind::Balanced)
    } else if n == "autonomous"@ {
        Some(ShellProfileKind::Autonomous)
    } else {
        None
    }
}

/// Index of the first custom entry whose trimmed id equals `name` ignoring ASCII
/// case (for a lower-case `name`), or the number of entries.
pub open spec fn find_profile(es: Seq<ShellProfileEntry>, name: Seq<char>, i: int) -> int
    decreases es.len() - i,
{
    if i >= es.len() {
        es.len() as int
    } else if normalize_name(es[i].id@) == name {
        i
    } else {
        find_profile(es, name, i + 1)
    }
}

/// What resolving a section gives: `Ok((kind, custom id))` or the error with its payload.
pub open spec fn resolution(shell: ShellSection) -> Result<(ShellProfileKind, Option<Seq<char>>), (bool, Seq<char>)> {
    let p = normalize_name(shell.profile@);
    match builtin_kind(p) {
        Some(k) => Ok((k, None)),
        None => {
            let es = shell.profiles@;
            let i = find_profile(es, p, 0);
            if i >= es.len() {
                Err((true, p))
            } else {
                match builtin_kind(normalize_name(es[i].extends@)) {
                    Some(k) => Ok((k, Some(trim(es[i].id@)))),
                    None => Err((false, es[i].id@)),
                }
            }
        }
    }
}

impl ShellProfileError {
    /// Error text.
    pub open spec fn spec_message(&self) -> Seq<char> {
        match self {
            ShellProfileError::UnknownProfile(p) => "unknown shell profile: "@ + p@,
            ShellProfileError::InvalidExtends(id) => "invalid extends for custom profile "@ + id@,
        }
    }

    pub fn message(&self) -> (r: String)
        ensures
            r@ == self.spec_message(),
    {
        match self {
            ShellProfileError::UnknownProfile(p) => {
                let mut s = "unknown shell profile: ".to_owned();
                s.push_str(p.as_str());
                s
            },
            ShellProfileError::InvalidExtends(id) => {
                let mut s = "invalid extends for custom profile ".to_owned();
                s.push_str(id.as_str());
                s
            },
        }
    }
}

/// The result of [`resolve_shell_profile`] matches [`resolution`].
pub open spec fn resolves_as(r: Result<ResolvedShellProfile, ShellProfileError>, shell: ShellSection) -> bool {
    match (r, resolution(shell)) {
        (Ok(p), Ok((k, id))) => p.kind == k && match (p.custom_id, id) {
            (None, None) => true,
            (Some(a), Some(b)) => a@ == b,
            _ => false,
        },
        (Err(ShellProfileError::UnknownProfile(p)), Err((true, q))) => p@ == q,
        (Err(ShellProfileError::InvalidExtends(p)), Err((false, q))) => p@ == q,
        _ => false,
    }
}

fn builtin_kind_exec(n: &[char]) -> (r: Option<ShellProfileKind>)
    ensures
        r == builtin_kind(n@),
{
    if chars_eq(n, &chars_of("safe")) {
        Some(ShellProfileKind::Safe)
    } else if chars_eq(n, &chars_of("balanced")) {
        Some(ShellProfileKind::Balanced)
    } else if chars_eq(n, &chars_of("autonomous")) {
        Some(ShellProfileKind::Autonomous)
    } else {
        None
    }
}

/// Resolve `shell.profile` into a built-in kind (custom entries extend a built-in).
pub fn resolve_shell_profile(shell: &ShellSection) -> (r: Result<ResolvedShellProfile, ShellProfileError>)
    ensures
        resolves_as(r, *shell),
        r is Ok <==> resolution(*shell) is Ok,
{
    let p = chars_of(shell.normalized_profile().as_str());
    match builtin_kind_exec(&p) {
        Some(k) => Ok(ResolvedShellProfile { kind: k, custom_id: None }),
        None => {
            let mut i: usize = 0;
            while i < shell.profiles.len()
                invariant
                    i <= shell.profiles@.len(),
                    p@ == normalize_name(shell.profile@),
                    find_profile(shell.profiles@, p@, 0) == find_profile(shell.profiles@, p@, i as int),
                ensures
                    i <= shell.profiles@.len(),
                    find_profile(shell.profiles@, p@, 0) == find_profile(shell.profiles@, p@, i as int),
                    i < shell.profiles@.len() ==> normalize_name(shell.profiles@[i as int].id@) == p@,
                decreases shell.profiles@.len() - i,
            {
                let id_norm = normalize_name_exec(shell.profiles[i].id.as_str());
                if chars_eq(&id_norm, &p) {
                    break;
                }
                i = i + 1;
            }
            if i >= shell.profiles.len() {
                return Err(ShellProfileError::UnknownProfile(string_of(&p)));
            }
            let entry = &shell.profiles[i];
            let ext = chars_of(entry.extends_normalized().as_str());
            match builtin_kind_exec(&ext) {
                Some(k) => {
                    let id = trim_chars(&chars_of(entry.id.as_str()));
                    Ok(ResolvedShellProfile { kind: k, custom_id: Some(string_of(&id)) })
                },
                None => Err(ShellProfileError::InvalidExtends(entry.id.clone())),
            }
        },
    }
}

/// A profile named after a built-in tier (in any case, with any padding)
/// resolves to that very tier, with no custom id.
pub proof fn lemma_tier_names_resolve(shell: ShellSection)
    ensures
        normalize_name(shell.profile@) == "safe"@ ==> resolution(shell) == Ok::<_, (bool, Seq<char>)>((ShellProfileKind::Safe, None::<Seq<char>>)),
        normalize_name(shell.profile@) == "balanced"@ ==> resolution(shell) == Ok::<_, (bool, Seq<char>)>((ShellProfileKind::Balanced, None::<Seq<char>>)),
        normalize_name(shell.profile@) == "autonomous"@ ==> resolution(shell) == Ok::<_, (bool, Seq<char>)>((ShellProfileKind::Autonomous, None::<Seq<char>>)),
{
    reveal_strlit("safe");
    reveal_strlit("balanced");
    reveal_strlit("autonomous");
    assert("safe"@.len() != "balanced"@.len());
    assert("safe"@.len() != "autonomous"@.len());
    assert("balanced"@.len() != "autonomous"@.len());
}

/// Any other name resolves through the first custom entry whose id it matches:
/// to the built-in tier that entry extends, under the entry's trimmed id.
pub proof fn lemma_custom_profile_resolves(shell: ShellSection, j: int)
    requires
        normalize_name(shell.profile@) != "safe"@,
        normalize_name(shell.profile@) != "balanced"@,
        normalize_name(shell.profile@) != "autonomous"@,
        0 <= j < shell.profiles@.len(),
        normalize_name(shell.profiles@[j].id@) == normalize_name(shell.profile@),
        forall|k: int| 0 <= k < j ==> normalize_name(#[trigger] shell.profiles@[k].id@) != normalize_name(shell.profile@),
    ensures
        ({
            let e = normalize_name(shell.profiles@[j].extends@);
            let id = Some(trim(shell.profiles@[j].id@));
            &&& e == "safe"@ ==> resolution(shell) == Ok::<_, (bool, Seq<char>)>((ShellProfileKind::Safe, id))
            &&& e == "balanced"@ ==> resolution(shell) == Ok::<_, (bool, Seq<char>)>((ShellProfileKind::Balanced, id))
            &&& e == "autonomous"@ ==> resolution(shell) == Ok::<_, (bool, Seq<char>)>((ShellProfileKind::Autonomous, id))
            &&& e != "safe"@ && e != "balanced"@ && e != "autonomous"@ ==> resolution(shell) == Err::<(ShellProfileKind, Option<Seq<char>>), _>((false, shell.profiles@[j].id@))
        }),
{
    reveal_strlit("safe");
    reveal_strlit("balanced");
    reveal_strlit("autonomous");
    assert("safe"@.len() != "balanced"@.len());
    assert("safe"@.len() != "autonomous"@.len());
    assert("balanced"@.len() != "autonomous"@.len());
    lemma_find_profile_first(shell.profiles@, normalize_name(shell.profile@), 0, j);
}

proof fn lemma_find_profile_first(es: Seq<ShellProfileEntry>, name: Seq<char>, i: int, j: int)
    requires
        0 <= i <= j < es.len(),
        normalize_name(es[j].id@) == name,
        forall|k: int| i <= k < j ==> normalize_name(#[trigger] es[k].id@) != name,
    ensures
        find_profile(es, name, i) == j,
    decreases j - i,
{
    if i < j {
        lemma_find_profile_first(es, name, i + 1, j);
    }
}

/// Profile names are matched case-insensitively after trimming: sections that
/// differ only in the casing or padding of the profile name resolve alike.
pub proof fn lemma_profile_name_insensitive(a: ShellSection, b: ShellSection)
    requires
        normalize_name(a.profile@) == normalize_name(b.profile@),
        a.profiles@ == b.profiles@,
    ensures
        resolution(a) == resolution(b),
{
}

} // verus!
