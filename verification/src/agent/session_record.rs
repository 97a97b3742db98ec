//! Session state kept between runs: the versioned session record, session scope
//! keys, and the choice of compaction archives to delete.
//!
//! ## Session scope IDs
//!
//! - **CLI** — memory `session_id` filter: [`memory_session_id_for_cli_path`] → `cli:<path>`.
//! - **Gateway WebSocket** — memory scope is the raw `session_id`; chat persistence uses
//!   [`gateway_backend_key`] (prefix `gw_`) so gateway sessions do not collide with channel keys.

use vstd::prelude::*;
use crate::providers::{message_views, ChatMessage, MessageView};
use crate::text::{chars_of, contains_string, replace_char, replace_char_chars, string_of, trim, trim_chars, views};

verus! {

broadcast use vstd::string::group_string_axioms;

/// The session-store key of a gateway session: `gw_<session_id>`.
pub open spec fn backend_key(session_id: Seq<char>) -> Seq<char> {
    "gw_"@ + session_id
}

/// Key used in the workspace session store (SQLite/JSONL) for gateway chat history.
pub fn gateway_backend_key(session_id: &str) -> (r: String)
    ensures
        r@ == backend_key(session_id@),
{
    let mut k = "gw_".to_owned();
    k.push_str(session_id);
    k
}

/// Memory scope of the interactive CLI for a session file path (given as text):
/// `cli:<path>` with surrounding whitespace dropped, none for a blank path.
pub fn memory_session_id_for_cli_path(path: &str) -> (r: Option<String>)
    ensures
        match r {
            Some(s) => trim(path@).len() > 0 && s@ == "cli:"@ + trim(path@),
            None => trim(path@).len() == 0,
        },
{
    let raw = trim_chars(&chars_of(path));
    if raw.len() == 0 {
        return None;
    }
    let mut s = "cli:".to_owned();
    s.push_str(string_of(&raw).as_str());
    Some(s)
}

/// Current on-disk schema for [`SessionRecord`].
pub const SESSION_RECORD_VERSION: u32 = 2;

/// Compaction metadata: pointers to archived segments (full message JSONL)
/// and the latest summary hint.
pub struct SessionCompactionMeta {
    /// Paths relative to `~/.zeroclaw/sessions/` (e.g. `archives/<uuid>.jsonl`).
    pub archive_paths: Vec<String>,
    /// Short excerpt of the last compaction summary.
    pub last_summary_excerpt: Option<String>,
}

/// Persistent session record (interactive CLI and resume paths).
pub struct SessionRecord {
    pub version: u32,
    pub history: Vec<ChatMessage>,
    pub compaction: Option<SessionCompactionMeta>,
}

/// The history with a system message first: `prompt` is added in front when
/// the history is empty or does not start with a system message.
pub open spec fn with_system_prompt(h: Seq<MessageView>, prompt: Seq<char>) -> Seq<MessageView> {
    if h.len() > 0 && h[0].role == "system"@ {
        h
    } else {
        seq![MessageView { role: "system"@, content: prompt }] + h
    }
}

/// Make sure the history starts with a system message.
pub fn ensure_system_prompt(history: &mut Vec<ChatMessage>, system_prompt: &str)
    ensures
        message_views(final(history)@) == with_system_prompt(message_views(old(history)@), system_prompt@),
{
    let ghost h0 = message_views(history@);
    if history.len() == 0 || !crate::text::str_eq(history[0].role.as_str(), "system") {
        history.insert(0, ChatMessage::system(system_prompt));
        proof {
            assert(message_views(history@) =~= seq![MessageView { role: "system"@, content: system_prompt@ }] + h0);
        }
    } else {
        proof {
            assert(h0[0] == history@[0]@);
        }
    }
}

/// After [`ensure_system_prompt`] the history starts with a system message,
/// and a history that already did is left as it was.
pub proof fn lemma_system_prompt_first(h: Seq<MessageView>, prompt: Seq<char>)
    ensures
        with_system_prompt(h, prompt).len() > 0,
        with_system_prompt(h, prompt)[0].role == "system"@,
        h.len() > 0 && h[0].role == "system"@ ==> with_system_prompt(h, prompt) == h,
        with_system_prompt(with_system_prompt(h, prompt), prompt) == with_system_prompt(h, prompt),
{
}

/// The schema version a stored session declares: its `version` member when
/// it fits in `u32`, else 2.
pub open spec fn schema_version(version_field: Option<u64>) -> u32 {
    match version_field {
        Some(v) => if v <= u32::MAX { v as u32 } else { 2 },
        None => 2,
    }
}

pub fn session_schema_version(version_field: Option<u64>) -> (r: u32)
    ensures
        r == schema_version(version_field),
{
    match version_field {
        Some(v) => if v <= 0xffff_ffffu64 {
            v as u32
        } else {
            2
        },
        None => 2,
    }
}

/// A session file as read and parsed by the host.
pub enum StoredSession {
    /// A schema-1 file: its history.
    Legacy(Vec<ChatMessage>),
    /// A current-schema file.
    Current(SessionRecord),
}

/// Finish loading a session: no file gives a fresh record holding only the
/// system prompt; a legacy file is migrated; either way the record is marked
/// current and starts with a system message.
pub fn load_session_record(stored: Option<StoredSession>, system_prompt: &str) -> (r: SessionRecord)
    ensures
        r.version == SESSION_RECORD_VERSION,
        match stored {
            None => message_views(r.history@) == seq![MessageView { role: "system"@, content: system_prompt@ }]
                && r.compaction is None,
            Some(StoredSession::Legacy(h)) => message_views(r.history@) == with_system_prompt(message_views(h@), system_prompt@)
                && r.compaction is None,
            Some(StoredSession::Current(rec)) => message_views(r.history@) == with_system_prompt(
                message_views(rec.history@),
                system_prompt@,
            ) && r.compaction == rec.compaction,
        },
{
    match stored {
        None => {
            let mut history: Vec<ChatMessage> = Vec::new();
            history.push(ChatMessage::system(system_prompt));
            proof {
                assert(message_views(history@) =~= seq![MessageView { role: "system"@, content: system_prompt@ }]);
            }
            SessionRecord { version: SESSION_RECORD_VERSION, history, compaction: None }
        },
        Some(StoredSession::Legacy(h)) => {
            let mut history = h;
            ensure_system_prompt(&mut history, system_prompt);
            SessionRecord { version: SESSION_RECORD_VERSION, history, compaction: None }
        },
        Some(StoredSession::Current(rec)) => {
            let SessionRecord { version: _, history, compaction } = rec;
            let mut history = history;
            ensure_system_prompt(&mut history, system_prompt);
            SessionRecord { version: SESSION_RECORD_VERSION, history, compaction }
        },
    }
}

/// Name and path (relative to the sessions root) of a new compaction archive
/// with id `id`: `<id>.jsonl` under `archives/`.
pub fn compaction_archive_names(id: &str) -> (r: (String, String))
    ensures
        r.0@ == id@ + ".jsonl"@,
        r.1@ == "archives/"@ + id@ + ".jsonl"@,
{
    let mut name = id.to_owned();
    name.push_str(".jsonl");
    let mut rel = "archives/".to_owned();
    rel.push_str(name.as_str());
    (name, rel)
}

// ---------------------------------------------------------------------------
// Archive garbage collection

/// What the host read of one file in the archives directory.
pub struct ArchiveEntry {
    /// The file name.
    pub file_name: String,
    /// Its path relative to the sessions root, as text (absent when it is not
    /// under the root or not valid text).
    pub relative_path: Option<String>,
    pub modified: ModifiedTime,
}

/// A file's modification time as the host read it.
pub enum ModifiedTime {
    /// Metadata could not be read: the file is left alone.
    Unreadable,
    /// The platform gives no modification time: taken as the Unix epoch.
    Unknown,
    /// Nanoseconds since the Unix epoch (negative before it).
    At(i128),
}

/// Index of the last `.` in `s[..j]` (or -1).
pub open spec fn last_dot(s: Seq<char>, j: int) -> int
    decreases j,
{
    if j <= 0 {
        -1
    } else if s[j - 1] == '.' {
        j - 1
    } else {
        last_dot(s, j - 1)
    }
}

proof fn lemma_last_dot(s: Seq<char>, j: int)
    requires
        j <= s.len(),
    ensures
        -1 <= last_dot(s, j) < j || (j <= 0 && last_dot(s, j) == -1),
        last_dot(s, j) >= 0 ==> s[last_dot(s, j)] == '.',
    decreases j,
{
    if j > 0 && s[j - 1] != '.' {
        lemma_last_dot(s, j - 1);
    }
}

/// A file name's extension (`Path::extension`): the text after its last `.`,
/// none when there is no `.` or the only one starts the name.
pub open spec fn extension(name: Seq<char>) -> Option<Seq<char>> {
    let k = last_dot(name, name.len() as int);
    if k <= 0 {
        None
    } else {
        Some(name.subrange(k + 1, name.len() as int))
    }
}

pub fn has_extension(name: &str, ext: &str) -> (r: bool)
    ensures
        r == (extension(name@) == Some(ext@)),
{
    let s = chars_of(name);
    let mut j: usize = s.len();
    while j > 0 && s[j - 1] != '.'
        invariant
            j <= s@.len(),
            s@ == name@,
            last_dot(s@, s@.len() as int) == last_dot(s@, j as int),
        decreases j,
    {
        j = j - 1;
    }
    if j <= 1 {
        return false;
    }
    let tail = crate::text::slice_chars(&s, j, s.len());
    crate::text::chars_eq(&tail, &chars_of(ext))
}

/// Whether entry `e` is an expired, unprotected compaction archive: a
/// `.jsonl` file under the sessions root whose path (with `\` as `/`) is not
/// protected and whose modification time is before `cutoff`.
pub open spec fn expired_archive(e: ArchiveEntry, protected: Seq<Seq<char>>, cutoff: i128) -> bool {
    &&& extension(e.file_name@) == Some("jsonl"@)
    &&& e.relative_path matches Some(rel) && !protected.contains(replace_char(rel@, '\\', '/'))
    &&& match e.modified {
        ModifiedTime::Unreadable => false,
        ModifiedTime::Unknown => 0 < cutoff,
        ModifiedTime::At(t) => t < cutoff,
    }
}

/// Indices of the archives to delete, in order: every expired, unprotected
/// compaction archive. `cutoff` is the current time minus the retention
/// (nanoseconds since the Unix epoch, the epoch itself when that is not
/// representable); `protected` lists the archive paths session files still
/// reference.
pub fn gc_compaction_archives_under(entries: &Vec<ArchiveEntry>, protected: &Vec<String>, cutoff: i128) -> (r: Vec<usize>)
    ensures
        forall|k: int| 0 <= k < r@.len() ==> r@[k] < entries@.len() && expired_archive(entries@[r@[k] as int], views(protected@), cutoff),
        forall|i: int| 0 <= i < entries@.len() && expired_archive(entries@[i], views(protected@), cutoff) ==> r@.contains(i as usize),
        forall|a: int, b: int| 0 <= a < b < r@.len() ==> r@[a] < r@[b],
{
    let mut out: Vec<usize> = Vec::new();
    let mut i: usize = 0;
    while i < entries.len()
        invariant
            i <= entries@.len(),
            forall|k: int| 0 <= k < out@.len() ==> out@[k] < i && expired_archive(entries@[out@[k] as int], views(protected@), cutoff),
            forall|m: int| 0 <= m < i && expired_archive(entries@[m], views(protected@), cutoff) ==> out@.contains(m as usize),
            forall|a: int, b: int| 0 <= a < b < out@.len() ==> out@[a] < out@[b],
        decreases entries@.len() - i,
    {
        let e = &entries[i];
        let mut expired = false;
        if has_extension(e.file_name.as_str(), "jsonl") {
            if let Some(rel) = &e.relative_path {
                let norm = string_of(&replace_char_chars(&chars_of(rel.as_str()), '\\', '/'));
                if !contains_string(protected, norm.as_str()) {
                    expired = match e.modified {
                        ModifiedTime::Unreadable => false,
                        ModifiedTime::Unknown => 0 < cutoff,
                        ModifiedTime::At(t) => t < cutoff,
                    };
                }
            }
        }
        assert(expired == expired_archive(entries@[i as int], views(protected@), cutoff));
        if expired {
            let ghost before = out@;
            out.push(i);
            proof {
                assert(out@[before.len() as int] == i);
                assert forall|m: int| 0 <= m < i + 1 && expired_archive(entries@[m], views(protected@), cutoff) implies out@.contains(m as usize) by {
                    if m < i {
                        let k = choose|k: int| 0 <= k < before.len() && before[k] == m as usize;
                        assert(out@[k] == m as usize);
                    }
                }
            }
        }
        i = i + 1;
    }
    out
}

/// What a session file's `compaction.archive_paths` holds: for each element,
/// its text when it is a string (none when the file is not JSON or has no
/// such array).
pub uninterp spec fn json_archive_entries(text: Seq<char>) -> Option<Seq<Option<Seq<char>>>>;

pub open spec fn entry_views(o: Option<Vec<Option<String>>>) -> Option<Seq<Option<Seq<char>>>> {
    match o {
        Some(v) => Some(v@.map_values(|e: Option<String>| match e {
            Some(s) => Some(s@),
            None => None,
        })),
        None => None,
    }
}

/// Parses a session file with `serde_json::from_str` into a
/// `serde_json::Value` and reads `compaction.archive_paths` (`Value::get`,
/// `Value::as_array`), each element through `Value::as_str`. The contract names
/// the result as a function of the text; JSON syntax is not stated.
#[verifier::external_body]
fn read_archive_entries(text: &str) -> (r: Option<Vec<Option<String>>>)
    ensures
        entry_views(r) == json_archive_entries(text@),
{
    let value = serde_json::from_str::<serde_json::Value>(text).ok()?;
    let paths = value.get("compaction")?.get("archive_paths")?.as_array()?;
    Some(paths.iter().map(|p| p.as_str().map(str::to_owned)).collect())
}

/// The string elements, in order.
pub open spec fn string_entries(es: Seq<Option<Seq<char>>>) -> Seq<Seq<char>>
    decreases es.len(),
{
    if es.len() == 0 {
        Seq::empty()
    } else {
        string_entries(es.drop_last()) + match es.last() {
            Some(p) => seq![p],
            None => Seq::empty(),
        }
    }
}

/// Archive paths a session file references: the string entries of its
/// `compaction.archive_paths` (none when unreadable).
pub open spec fn json_archive_paths(text: Seq<char>) -> Option<Seq<Seq<char>>> {
    match json_archive_entries(text) {
        Some(es) => Some(string_entries(es)),
        None => None,
    }
}

fn read_archive_paths(text: &str) -> (r: Option<Vec<String>>)
    ensures
        opt_views(r) == json_archive_paths(text@),
{
    let entries = read_archive_entries(text)?;
    let ghost es = entry_views(Some(entries))->0;
    let mut out: Vec<String> = Vec::new();
    let mut i: usize = 0;
    while i < entries.len()
        invariant
            i <= entries@.len(),
            es == entry_views(Some(entries))->0,
            views(out@) == string_entries(es.subrange(0, i as int)),
        decreases entries@.len() - i,
    {
        proof {
            assert(es.subrange(0, i + 1).drop_last() =~= es.subrange(0, i as int));
        }
        match &entries[i] {
            Some(p) => {
                let ghost before = out@;
                out.push(p.clone());
                proof {
                    assert(views(out@) =~= views(before) + seq![p@]);
                }
            },
            None => {
                proof {
                    assert(views(out@) =~= views(out@) + Seq::<Seq<char>>::empty());
                }
            },
        }
        i = i + 1;
    }
    proof {
        assert(es.subrange(0, entries@.len() as int) =~= es);
    }
    Some(out)
}

pub open spec fn opt_views(o: Option<Vec<String>>) -> Option<Seq<Seq<char>>> {
    match o {
        Some(v) => Some(views(v@)),
        None => None,
    }
}

/// The referenced paths of several session files, with `\` turned into `/`.
pub open spec fn referenced_paths(files: Seq<Seq<char>>) -> Seq<Seq<char>>
    decreases files.len(),
{
    if files.len() == 0 {
        Seq::empty()
    } else {
        referenced_paths(files.drop_last()) + match json_archive_paths(files.last()) {
            Some(ps) => ps.map_values(|p: Seq<char>| replace_char(p, '\\', '/')),
            None => Seq::empty(),
        }
    }
}

/// Archive paths referenced by the given session files (the contents of the
/// `*.json` files directly under the sessions root).
pub fn collect_referenced_archive_paths(session_files: &Vec<String>) -> (r: Vec<String>)
    ensures
        views(r@) == referenced_paths(views(session_files@)),
{
    let mut out: Vec<String> = Vec::new();
    let mut i: usize = 0;
    while i < session_files.len()
        invariant
            i <= session_files@.len(),
            views(out@) == referenced_paths(views(session_files@).subrange(0, i as int)),
        decreases session_files@.len() - i,
    {
        let ghost pre = views(session_files@).subrange(0, i + 1);
        proof {
            assert(pre.drop_last() =~= views(session_files@).subrange(0, i as int));
            assert(pre.last() == session_files@[i as int]@);
        }
        if let Some(paths) = read_archive_paths(session_files[i].as_str()) {
            let ghost o0 = views(out@);
            let mut j: usize = 0;
            while j < paths.len()
                invariant
                    j <= paths@.len(),
                    views(out@) == o0 + views(paths@).subrange(0, j as int).map_values(|p: Seq<char>| replace_char(p, '\\', '/')),
                decreases paths@.len() - j,
            {
                let ghost before = out@;
                let norm = string_of(&replace_char_chars(&chars_of(paths[j].as_str()), '\\', '/'));
                out.push(norm);
                proof {
                    assert(views(out@) =~= views(before).push(replace_char(paths@[j as int]@, '\\', '/')));
                    assert(views(paths@).subrange(0, j + 1).map_values(|p: Seq<char>| replace_char(p, '\\', '/'))
                        =~= views(paths@).subrange(0, j as int).map_values(|p: Seq<char>| replace_char(p, '\\', '/')).push(
                        replace_char(paths@[j as int]@, '\\', '/'),
                    ));
                }
                j = j + 1;
            }
            proof {
                assert(views(paths@).subrange(0, paths@.len() as int) =~= views(paths@));
            }
        } else {
            proof {
                assert(views(out@) =~= views(out@) + Seq::<Seq<char>>::empty());
            }
        }
        i = i + 1;
    }
    proof {
        assert(views(session_files@).subrange(0, session_files@.len() as int) =~= views(session_files@));
    }
    out
}

/// Indices of the archives to delete under `~/.zeroclaw/sessions/archives/`:
/// expired archives that no session file (`session_files`, the contents of the
/// `*.json` files directly under the sessions root) still references.
pub fn gc_compaction_archives_older_than(session_files: &Vec<String>, entries: &Vec<ArchiveEntry>, cutoff: i128) -> (r: Vec<usize>)
    ensures
        forall|k: int| 0 <= k < r@.len() ==> r@[k] < entries@.len() && expired_archive(
            entries@[r@[k] as int],
            referenced_paths(views(session_files@)),
            cutoff,
        ),
        forall|i: int| 0 <= i < entries@.len() && expired_archive(entries@[i], referenced_paths(views(session_files@)), cutoff)
            ==> r@.contains(i as usize),
        forall|a: int, b: int| 0 <= a < b < r@.len() ==> r@[a] < r@[b],
{
    let protected = collect_referenced_archive_paths(session_files);
    gc_compaction_archives_under(entries, &protected, cutoff)
}

} // verus!
