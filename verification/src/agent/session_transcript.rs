//! Append-only JSONL transcript of user and assistant lines: which line to
//! write, with what content, into which file.
//!
//! Lines go to `~/.zeroclaw/sessions/transcripts/<stem>.jsonl`; the host
//! supplies the timestamp and does the file writing.

use vstd::prelude::*;
use crate::text::{
    chars_of, dec, hex, is_ascii_alnum, is_ascii_alnum_char, push_dec, push_hex, string_of, take_chars, digit_char, skip_char, trim_end_char_idx,
    take_chars_exec, trim, trim_char, trim_char_chars, trim_chars,
};

verus! {

broadcast use vstd::string::group_string_axioms;

/// `[session_transcript]` settings.
pub struct SessionTranscriptConfig {
    pub enabled: bool,
    /// Longest content kept per line, in characters (0: no limit).
    pub max_content_chars: usize,
}

/// One line in `~/.zeroclaw/sessions/transcripts/<stem>.jsonl`.
pub struct TranscriptRecordV1 {
    pub v: u32,
    pub ts: String,
    /// `"user"` or `"assistant"`.
    pub role: String,
    pub channel: String,
    pub provider: String,
    pub model: String,
    pub content: String,
}

/// The transcript a task writes to.
pub struct SessionTranscriptScope {
    pub cfg: SessionTranscriptConfig,
    pub session_key: String,
}

/// `c` kept in a file stem: ASCII letters and digits, `-` and `_`.
pub open spec fn stem_char(c: char) -> char {
    if is_ascii_alnum(c) || c == '-' || c == '_' {
        c
    } else {
        '_'
    }
}

/// What `DefaultHasher::new()` gives for the session key (`str::hash`, then `finish`).
pub uninterp spec fn key_hash(key: Seq<char>) -> u64;

/// Calls `BuildHasher::hash_one` on `BuildHasherDefault<DefaultHasher>`: a
/// fresh `DefaultHasher` (fixed keys, so the same key hashes the same within a
/// build) fed the key, then `finish`. The contract names the result as a
/// function of the key; the hash algorithm is not stated.
#[verifier::external_body]
fn hash_key(key: &str) -> (r: u64)
    ensures
        r == key_hash(key@),
{
    std::hash::BuildHasher::hash_one(
        &std::hash::BuildHasherDefault::<std::collections::hash_map::DefaultHasher>::default(),
        key,
    )
}

/// File stem for a session key: the key with other characters turned into
/// `_`, outer `_` trimmed, cut to 120 characters (`session` when nothing is
/// left), then `_` and the key's hash in hexadecimal.
pub open spec fn file_stem(key: Seq<char>, hash: u64) -> Seq<char> {
    stem_head(key) + "_"@ + hex(hash as nat)
}

/// The part of the file stem before the hash.
pub open spec fn stem_head(key: Seq<char>) -> Seq<char> {
    let safe = trim_char(key.map_values(|c: char| stem_char(c)), '_');
    if safe.len() == 0 { "session"@ } else { take_chars(safe, 120) }
}

/// A character that may stand in a file stem.
pub open spec fn is_stem_safe(c: char) -> bool {
    is_ascii_alnum(c) || c == '-' || c == '_'
}

/// A lower-case hexadecimal digit.
pub open spec fn is_hex_digit(c: char) -> bool {
    ('0' <= c && c <= '9') || ('a' <= c && c <= 'f')
}

proof fn lemma_skip_char(s: Seq<char>, c: char, i: int)
    requires
        0 <= i <= s.len(),
    ensures
        i <= skip_char(s, c, i) <= s.len(),
        skip_char(s, c, i) < s.len() ==> s[skip_char(s, c, i)] != c,
        (forall|j: int| i <= j < s.len() ==> s[j] == c) ==> skip_char(s, c, i) == s.len(),
    decreases s.len() - i,
{
    if i < s.len() && s[i] == c {
        lemma_skip_char(s, c, i + 1);
    }
}

proof fn lemma_hex_digits(n: nat)
    ensures
        hex(n).len() >= 1,
        forall|i: int| 0 <= i < hex(n).len() ==> is_hex_digit(#[trigger] hex(n)[i]),
    decreases n,
{
    if n >= 16 {
        lemma_hex_digits(n / 16);
    }
    let d = if n < 16 { n as int } else { (n % 16) as int };
    assert(is_hex_digit(digit_char(d))) by {
        assert(0 <= d < 16);
        let t = seq!['0', '1', '2', '3', '4', '5', '6', '7', '8', '9', 'a', 'b', 'c', 'd', 'e', 'f'];
        assert(forall|k: int| 0 <= k < 16 ==> is_hex_digit(#[trigger] t[k]));
    }
}

/// A transcript file stem is safe as a file name: a head of 1 to 120 characters
/// drawn from ASCII letters and digits, `-` and `_`, not starting with `_`, then
/// `_` and the hash in lower-case hexadecimal. The head is `session` when the key
/// holds no ASCII letter, digit or `-`.
pub proof fn lemma_file_stem_shape(key: Seq<char>, hash: u64)
    ensures
        file_stem(key, hash) == stem_head(key) + "_"@ + hex(hash as nat),
        1 <= stem_head(key).len() <= 120,
        forall|i: int| 0 <= i < stem_head(key).len() ==> is_stem_safe(#[trigger] stem_head(key)[i]),
        stem_head(key)[0] != '_',
        (forall|i: int| 0 <= i < key.len() ==> !(is_ascii_alnum(#[trigger] key[i]) || key[i] == '-'))
            ==> stem_head(key) == "session"@,
        hex(hash as nat).len() >= 1,
        forall|i: int| 0 <= i < hex(hash as nat).len() ==> is_hex_digit(#[trigger] hex(hash as nat)[i]),
{
    let mapped = key.map_values(|c: char| stem_char(c));
    let a = skip_char(mapped, '_', 0);
    let b = trim_end_char_idx(mapped, '_', mapped.len() as int);
    lemma_skip_char(mapped, '_', 0);
    crate::text::lemma_trim_char_bounds(mapped, '_', 0, mapped.len() as int);
    let safe = trim_char(mapped, '_');
    assert(forall|j: int| 0 <= j < mapped.len() ==> is_stem_safe(#[trigger] mapped[j]));
    if safe.len() > 0 {
        assert(safe == mapped.subrange(a, b));
        assert(forall|j: int| 0 <= j < safe.len() ==> safe[j] == mapped[a + j]);
    } else {
        let h = "session"@;
        reveal_strlit("session");
        assert(forall|j: int| 0 <= j < h.len() ==> is_stem_safe(#[trigger] h[j]));
    }
    if forall|i: int| 0 <= i < key.len() ==> !(is_ascii_alnum(#[trigger] key[i]) || key[i] == '-') {
        assert(forall|j: int| 0 <= j < mapped.len() ==> #[trigger] mapped[j] == '_');
        assert(a == mapped.len());
        assert(safe.len() == 0);
    }
    lemma_hex_digits(hash as nat);
}

/// The file stem for `session_key` given its hash.
pub fn stem_for_hash(session_key: &str, hash: u64) -> (r: String)
    ensures
        r@ == file_stem(session_key@, hash),
{
    let k = chars_of(session_key);
    let mut mapped: Vec<char> = Vec::new();
    let mut i: usize = 0;
    while i < k.len()
        invariant
            i <= k@.len(),
            k@ == session_key@,
            mapped@ == k@.subrange(0, i as int).map_values(|c: char| stem_char(c)),
        decreases k@.len() - i,
    {
        let c = k[i];
        let d = if is_ascii_alnum_char(c) || c == '-' || c == '_' { c } else { '_' };
        proof {
            assert(k@.subrange(0, i + 1).map_values(|c: char| stem_char(c)) =~= k@.subrange(0, i as int).map_values(
                |c: char| stem_char(c),
            ).push(d));
        }
        mapped.push(d);
        i = i + 1;
    }
    proof {
        assert(k@.subrange(0, k@.len() as int) =~= k@);
    }
    let safe = trim_char_chars(&mapped, '_');
    let mut out = if safe.len() == 0 {
        "session".to_owned()
    } else {
        string_of(&take_chars_exec(&safe, 120))
    };
    out.push_str("_");
    push_hex(&mut out, hash);
    out
}

/// The transcript file stem for a session key.
pub fn transcript_file_stem(session_key: &str) -> (r: String)
    ensures
        r@ == file_stem(session_key@, key_hash(session_key@)),
{
    stem_for_hash(session_key, hash_key(session_key))
}

/// Content cut to `max_chars` characters with a note of its full length
/// (no cut when `max_chars` is 0 or the content fits).
pub open spec fn truncated_content(s: Seq<char>, max_chars: nat) -> Seq<char> {
    if max_chars == 0 || s.len() <= max_chars {
        s
    } else {
        s.subrange(0, max_chars as int) + "\n… [truncated: "@ + dec(s.len()) + " chars > "@ + dec(max_chars) + "]\n"@
    }
}

pub fn maybe_truncate_content(s: &str, max_chars: usize) -> (r: String)
    ensures
        r@ == truncated_content(s@, max_chars as nat),
{
    if max_chars == 0 {
        return s.to_owned();
    }
    let cs = chars_of(s);
    let n = cs.len();
    if n <= max_chars {
        return s.to_owned();
    }
    let mut out = string_of(&take_chars_exec(&cs, max_chars));
    out.push_str("\n… [truncated: ");
    push_dec(&mut out, n as u64);
    out.push_str(" chars > ");
    push_dec(&mut out, max_chars as u64);
    out.push_str("]\n");
    out
}

/// The record appended for one line, when transcripts are enabled and the
/// session key is not blank.
pub open spec fn transcript_line(
    cfg: SessionTranscriptConfig,
    key: Seq<char>,
    role: Seq<char>,
    channel: Seq<char>,
    provider: Seq<char>,
    model: Seq<char>,
    text: Seq<char>,
    ts: Seq<char>,
    r: Option<TranscriptRecordV1>,
) -> bool {
    if !cfg.enabled || trim(key).len() == 0 {
        r is None
    } else {
        r matches Some(rec) && {
            &&& rec.v == 1
            &&& rec.ts@ == ts
            &&& rec.role@ == role
            &&& rec.channel@ == channel
            &&& rec.provider@ == provider
            &&& rec.model@ == model
            &&& rec.content@ == truncated_content(text, cfg.max_content_chars as nat)
        }
    }
}

/// The record to append for one line (`ts` is the current time, RFC 3339 in
/// whole seconds, UTC with `Z`).
pub fn transcript_record_for_config(
    cfg: &SessionTranscriptConfig,
    session_key: &str,
    role: &str,
    channel: &str,
    provider: &str,
    model: &str,
    text: &str,
    ts: String,
) -> (r: Option<TranscriptRecordV1>)
    ensures
        transcript_line(*cfg, session_key@, role@, channel@, provider@, model@, text@, ts@, r),
{
    if !cfg.enabled || trim_chars(&chars_of(session_key)).len() == 0 {
        return None;
    }
    Some(
        TranscriptRecordV1 {
            v: 1,
            ts,
            role: role.to_owned(),
            channel: channel.to_owned(),
            provider: provider.to_owned(),
            model: model.to_owned(),
            content: maybe_truncate_content(text, cfg.max_content_chars),
        },
    )
}

/// The user line for this turn, committed before any LLM work.
pub fn commit_user_turn(
    cfg: &SessionTranscriptConfig,
    session_key: &str,
    channel: &str,
    provider: &str,
    model: &str,
    text: &str,
    ts: String,
) -> (r: Option<TranscriptRecordV1>)
    ensures
        transcript_line(*cfg, session_key@, "user"@, channel@, provider@, model@, text@, ts@, r),
{
    append_user_for_config(cfg, session_key, channel, provider, model, text, ts)
}

/// The user line to append.
pub fn append_user_for_config(
    cfg: &SessionTranscriptConfig,
    session_key: &str,
    channel: &str,
    provider: &str,
    model: &str,
    text: &str,
    ts: String,
) -> (r: Option<TranscriptRecordV1>)
    ensures
        transcript_line(*cfg, session_key@, "user"@, channel@, provider@, model@, text@, ts@, r),
{
    transcript_record_for_config(cfg, session_key, "user", channel, provider, model, text, ts)
}

/// The assistant line to append.
pub fn append_assistant_for_config(
    cfg: &SessionTranscriptConfig,
    session_key: &str,
    channel: &str,
    provider: &str,
    model: &str,
    text: &str,
    ts: String,
) -> (r: Option<TranscriptRecordV1>)
    ensures
        transcript_line(*cfg, session_key@, "assistant"@, channel@, provider@, model@, text@, ts@, r),
{
    transcript_record_for_config(cfg, session_key, "assistant", channel, provider, model, text, ts)
}

/// The assistant line for the task's transcript scope, if the task has one.
pub fn record_assistant_from_task_local(
    scope: Option<&SessionTranscriptScope>,
    display_text: &str,
    ctx_channel: &str,
    ctx_provider: &str,
    ctx_model: &str,
    ts: String,
) -> (r: Option<TranscriptRecordV1>)
    ensures
        match scope {
            None => r is None,
            Some(s) => transcript_line(
                s.cfg,
                s.session_key@,
                "assistant"@,
                ctx_channel@,
                ctx_provider@,
                ctx_model@,
                display_text@,
                ts@,
                r,
            ),
        },
{
    match scope {
        None => None,
        Some(s) => append_assistant_for_config(
            &s.cfg,
            s.session_key.as_str(),
            ctx_channel,
            ctx_provider,
            ctx_model,
            display_text,
            ts,
        ),
    }
}

/// The transcript file name for a session key: `<stem>.jsonl`.
pub fn transcript_file_name(session_key: &str) -> (r: String)
    ensures
        r@ == file_stem(session_key@, key_hash(session_key@)) + ".jsonl"@,
{
    let mut s = transcript_file_stem(session_key);
    s.push_str(".jsonl");
    s
}

} // verus!
