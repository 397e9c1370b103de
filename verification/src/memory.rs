//! Conversation memory: message records, session ids and category names.
use crate::text::{
    append_chars, append_str, sub_chars, chars_of, contains_text, is_ws, opt_text, lower, push_char, string_of, to_lowercase, trim_str, trimmed,
    unicode_lower,
};
use std::path::PathBuf;
use vstd::prelude::*;
use vstd::string::*;

verus! {

/// Who wrote a message.
#[derive(Debug, Clone, Copy, PartialEq, Eq, Structural)]
pub enum Role {
    User,
    Assistant,
    System,
}

/// Something that a message did or asked for.
#[derive(Debug, Clone)]
pub struct MessageAction {
    pub action_type: String,
    pub path: Option<String>,
    pub command: Option<String>,
}

/// Facts about a conversation.
#[derive(Debug, Clone)]
pub struct ConversationMetadata {
    pub model: Option<String>,
    pub agent: Option<String>,
    pub workspace: String,
    pub total_tokens: u64,
    pub commands_executed: u64,
    pub local_only: bool,
}

impl Default for ConversationMetadata {
    fn default() -> (m: Self)
        ensures
            m.model is None,
            m.agent is None,
            m.workspace@ == Seq::<char>::empty(),
            m.total_tokens == 0,
            m.commands_executed == 0,
            !m.local_only,
    {
        ConversationMetadata {
            model: None,
            agent: None,
            workspace: String::new(),
            total_tokens: 0,
            commands_executed: 0,
            local_only: false,
        }
    }
}

/// One message of a conversation; `timestamp` is in milliseconds since the
/// Unix epoch.
#[derive(Debug, Clone)]
pub struct Message {
    pub role: Role,
    pub content: String,
    pub timestamp: i64,
    pub actions: Vec<MessageAction>,
}

/// A stored conversation (times in milliseconds since the Unix epoch).
#[derive(Debug, Clone)]
pub struct Conversation {
    pub session_id: String,
    pub created_at: i64,
    pub last_active: i64,
    pub title: Option<String>,
    pub messages: Vec<Message>,
    pub metadata: ConversationMetadata,
}

/// A conversation as listed in the memory browser.
#[derive(Debug, Clone)]
pub struct SessionSummary {
    pub workspace: String,
    pub category: String,
    pub session_id: String,
    pub title: Option<String>,
    pub created_at: i64,
    pub last_active: i64,
    pub local_only: bool,
}

/// A conversation chosen for export, with its category.
#[derive(Debug, Clone)]
pub struct SyncConversation {
    pub category: String,
    pub conversation: Conversation,
}

/// What a sync export holds.
#[derive(Debug, Clone)]
pub struct SyncPayload {
    pub workspace: String,
    pub exported_at: i64,
    pub conversations: Vec<SyncConversation>,
    pub skipped_local_only: usize,
    pub redactions: usize,
}

pub struct ActionView {
    pub action_type: Seq<char>,
    pub path: Option<Seq<char>>,
    pub command: Option<Seq<char>>,
}

impl View for MessageAction {
    type V = ActionView;

    open spec fn view(&self) -> ActionView {
        ActionView { action_type: self.action_type@, path: opt_text(self.path), command: opt_text(self.command) }
    }
}

pub struct MessageView {
    pub role: Role,
    pub content: Seq<char>,
    pub timestamp: i64,
    pub actions: Seq<ActionView>,
}

pub open spec fn actions_view(a: Seq<MessageAction>) -> Seq<ActionView> {
    a.map_values(|x: MessageAction| x@)
}

impl View for Message {
    type V = MessageView;

    open spec fn view(&self) -> MessageView {
        MessageView {
            role: self.role,
            content: self.content@,
            timestamp: self.timestamp,
            actions: actions_view(self.actions@),
        }
    }
}

pub open spec fn messages_view(m: Seq<Message>) -> Seq<MessageView> {
    m.map_values(|x: Message| x@)
}

/// What a sync export wrote.
#[derive(Debug)]
pub struct SyncExportResult {
    pub path: PathBuf,
    pub exported_count: usize,
    pub skipped_local_only: usize,
    pub redactions: usize,
}

/// Per-workspace, per-category conversation memory under one directory.
pub struct MemoryManager {
    workspace_dir: PathBuf,
}

impl MemoryManager {
    pub closed spec fn root(&self) -> PathBuf {
        self.workspace_dir
    }

    pub fn new(workspace_dir: PathBuf) -> (m: Self)
        ensures
            m.root() == workspace_dir,
    {
        MemoryManager { workspace_dir }
    }

    /// The directory that holds the workspaces.
    pub fn workspace_dir(&self) -> (p: &PathBuf)
        ensures
            *p == self.root(),
    {
        &self.workspace_dir
    }
}

/// Every space replaced by `-`.
pub open spec fn dashed(s: Seq<char>) -> Seq<char> {
    Seq::new(s.len(), |i: int| if s[i] == ' ' { '-' } else { s[i] })
}

/// The directory name of a category: trimmed, lower-cased, spaces as
/// dashes; "general" when nothing is left.
pub open spec fn category_name(c: Seq<char>) -> Seq<char> {
    let t = trimmed(c);
    if t.len() == 0 {
        "general"@
    } else {
        dashed(unicode_lower(t))
    }
}

/// The directory name of a category.
pub fn normalize_category(category: &str) -> (r: String)
    ensures
        r@ == category_name(category@),
{
    let t = trim_str(category);
    if t.as_str().is_empty() {
        return String::from_str("general");
    }
    let l = chars_of(to_lowercase(t.as_str()).as_str());
    let mut out: Vec<char> = Vec::new();
    let mut i: usize = 0;
    while i < l.len()
        invariant
            i <= l.len(),
            out@ == dashed(l@).subrange(0, i as int),
        decreases l.len() - i,
    {
        if l[i] == ' ' {
            out.push('-');
        } else {
            out.push(l[i]);
        }
        i += 1;
        proof {
            assert(out@ =~= dashed(l@).subrange(0, i as int));
        }
    }
    proof {
        assert(out@ =~= dashed(l@));
    }
    string_of(&out)
}

/// The parts of a text between `-` signs.
pub open spec fn split_dash(s: Seq<char>) -> Seq<Seq<char>>
    decreases s.len(),
{
    if s.len() == 0 {
        seq![Seq::<char>::empty()]
    } else {
        let p = split_dash(s.drop_last());
        if s.last() == '-' {
            p.push(Seq::<char>::empty())
        } else {
            p.update(p.len() - 1, p.last().push(s.last()))
        }
    }
}

proof fn lemma_split_dash_nonempty(s: Seq<char>)
    ensures
        split_dash(s).len() >= 1,
    decreases s.len(),
{
    if s.len() > 0 {
        lemma_split_dash_nonempty(s.drop_last());
    }
}

/// A session id of the older scheme: `YYYY-MM-DD-N` made of digits.
pub open spec fn legacy_session_id(stem: Seq<char>) -> bool {
    let p = split_dash(stem);
    &&& p.len() == 4
    &&& p[0].len() == 4
    &&& p[1].len() == 2
    &&& p[2].len() == 2
    &&& p[3].len() > 0
    &&& forall|i: int| 0 <= i < stem.len() ==> ('0' <= #[trigger] stem[i] <= '9' || stem[i] == '-')
}

/// Whether a file stem is a session id of the older scheme.
pub fn is_legacy_session_id(stem: &str) -> (b: bool)
    ensures
        b == legacy_session_id(stem@),
{
    let s = chars_of(stem);
    let mut lens: Vec<usize> = Vec::new();
    let mut cur: usize = 0;
    let mut ok = true;
    let mut i: usize = 0;
    proof {
        assert(s@.subrange(0, 0) =~= Seq::<char>::empty());
    }
    while i < s.len()
        invariant
            i <= s.len(),
            cur <= i,
            lens.len() <= i,
            split_dash(s@.subrange(0, i as int)).len() == lens.len() + 1,
            split_dash(s@.subrange(0, i as int)).last().len() == cur,
            forall|j: int|
                0 <= j < lens.len() ==> split_dash(s@.subrange(0, i as int))[j].len() == #[trigger] lens@[j],
            ok == (forall|j: int| 0 <= j < i ==> ('0' <= #[trigger] s@[j] <= '9' || s@[j] == '-')),
        decreases s.len() - i,
    {
        let ghost pre = s@.subrange(0, i as int);
        proof {
            let t = s@.subrange(0, i + 1);
            assert(t.drop_last() =~= pre);
            assert(t.last() == s@[i as int]);
            lemma_split_dash_nonempty(pre);
        }
        let c = s[i];
        if !(('0' <= c && c <= '9') || c == '-') {
            ok = false;
        }
        if c == '-' {
            lens.push(cur);
            cur = 0;
        } else {
            cur = cur + 1;
        }
        i += 1;
        proof {
            let t = s@.subrange(0, i as int);
            assert forall|j: int| 0 <= j < lens.len() implies split_dash(t)[j].len() == #[trigger] lens@[j] by {
            }
            if ok {
                assert forall|j: int| 0 <= j < i implies ('0' <= #[trigger] s@[j] <= '9' || s@[j] == '-') by {
                    if j < i - 1 {
                    }
                }
            }
        }
    }
    proof {
        assert(s@.subrange(0, s.len() as int) =~= s@);
    }
    lens.len() == 3 && lens[0] == 4 && lens[1] == 2 && lens[2] == 2 && cur > 0 && ok
}

/// The session id that a file stem names: a legacy id as it is, otherwise
/// what follows the last `-` (the whole stem when it has none).
pub open spec fn session_id_of_stem(stem: Seq<char>) -> Seq<char> {
    if legacy_session_id(stem) {
        stem
    } else if stem.contains('-') {
        let k = last_dash(stem);
        stem.subrange(k + 1, stem.len() as int)
    } else {
        stem
    }
}

/// Index of the last `-`.
pub open spec fn last_dash(s: Seq<char>) -> int {
    choose|k: int| 0 <= k < s.len() && s[k] == '-' && forall|j: int| k < j < s.len() ==> s[j] != '-'
}

/// The session id that a file stem names.
pub fn session_id_from_stem(stem: &str) -> (r: String)
    ensures
        r@ == session_id_of_stem(stem@),
{
    if is_legacy_session_id(stem) {
        return String::from_str(stem);
    }
    let s = chars_of(stem);
    let mut k: usize = s.len();
    while k > 0 && s[k - 1] != '-'
        invariant
            k <= s.len(),
            forall|j: int| k <= j < s.len() ==> s@[j] != '-',
        decreases k,
    {
        k -= 1;
    }
    if k == 0 {
        proof {
            assert forall|j: int| 0 <= j < s@.len() implies s@[j] != '-' by {}
            assert(!s@.contains('-'));
        }
        return String::from_str(stem);
    }
    let ghost kk = (k - 1) as int;
    proof {
        assert(s@[kk] == '-');
        assert(s@.contains('-'));
        let c = last_dash(s@);
        assert(0 <= kk < s@.len() && s@[kk] == '-' && forall|j: int| kk < j < s@.len() ==> s@[j] != '-');
        let c = last_dash(s@);
        if c < kk {
            assert(s@[kk] != '-');
        } else if c > kk {
            assert(s@[c] != '-');
        }
    }
    let mut out: Vec<char> = Vec::new();
    let mut i: usize = k;
    while i < s.len()
        invariant
            k <= i <= s.len(),
            out@ == s@.subrange(k as int, i as int),
        decreases s.len() - i,
    {
        out.push(s[i]);
        i += 1;
        proof {
            assert(out@ =~= s@.subrange(k as int, i as int));
        }
    }
    string_of(&out)
}

/// The negation of a flag.
pub fn is_false(v: &bool) -> (b: bool)
    ensures
        b == !*v,
{
    !*v
}


// ---------------------------------------------------------------------------
// Redacting secrets before a sync export
// ---------------------------------------------------------------------------

/// The first place at or after `i` where `p` occurs in `s`.
pub open spec fn occurrence_from(s: Seq<char>, p: Seq<char>, i: int) -> Option<int>
    decreases s.len() + 1 - i,
{
    if i < 0 || i + p.len() > s.len() {
        None
    } else if s.subrange(i, i + p.len()) == p {
        Some(i)
    } else {
        occurrence_from(s, p, i + 1)
    }
}

pub proof fn lemma_ws_end_bounds(s: Seq<char>, i: int)
    ensures
        0 <= i <= s.len() ==> i <= ws_end(s, i) <= s.len(),
        i > s.len() ==> ws_end(s, i) == s.len(),
    decreases s.len() - i,
{
    if 0 <= i < s.len() && !is_ws(s[i]) {
        lemma_ws_end_bounds(s, i + 1);
    }
}

pub proof fn lemma_line_end_bounds(s: Seq<char>, i: int)
    ensures
        0 <= i <= s.len() ==> i <= line_end(s, i) <= s.len(),
    decreases s.len() - i,
{
    if 0 <= i < s.len() && s[i] != '\n' {
        lemma_line_end_bounds(s, i + 1);
    }
}

pub proof fn lemma_occurrence_bounds(s: Seq<char>, p: Seq<char>, i: int)
    ensures
        occurrence_from(s, p, i) matches Some(k) ==> i <= k && 0 <= k && k + p.len() <= s.len(),
    decreases s.len() + 1 - i,
{
    if !(i < 0 || i + p.len() > s.len()) && s.subrange(i, i + p.len()) != p {
        lemma_occurrence_bounds(s, p, i + 1);
    }
}

/// The first whitespace at or after `i`, or the end of the text.
pub open spec fn ws_end(s: Seq<char>, i: int) -> int
    decreases s.len() - i,
{
    if i >= s.len() {
        s.len() as int
    } else if is_ws(s[i]) {
        i
    } else {
        ws_end(s, i + 1)
    }
}

pub open spec fn redacted_mark() -> Seq<char> {
    "[REDACTED]"@
}

/// Every token that starts with the prefix, up to the next whitespace,
/// replaced by `[REDACTED]`, from the left; with the number of
/// replacements.
pub open spec fn redact_prefix(s: Seq<char>, p: Seq<char>) -> (Seq<char>, nat)
    decreases s.len(),
{
    match occurrence_from(s, p, 0) {
        None => (s, 0),
        Some(i) => {
            let e = ws_end(s, i + 1);
            proof {
                lemma_occurrence_bounds(s, p, 0);
                lemma_ws_end_bounds(s, i + 1);
            }
            if e <= 0 {
                (s, 0)
            } else {
                let rest = redact_prefix(s.subrange(e, s.len() as int), p);
                (s.subrange(0, i) + redacted_mark() + rest.0, rest.1 + 1)
            }
        },
    }
}

/// The prefixes of secret tokens: API keys and bearer credentials.
pub open spec fn secret_prefixes() -> Seq<Seq<char>> {
    seq!["sk-"@, "ghp_"@, "xoxb-"@, "xoxp-"@, "xoxs-"@, "AIza"@, "Bearer "@]
}

/// `redact_prefix` with each prefix in turn.
pub open spec fn redact_prefixes(s: Seq<char>, ps: Seq<Seq<char>>) -> (Seq<char>, nat)
    decreases ps.len(),
{
    if ps.len() == 0 {
        (s, 0)
    } else {
        let a = redact_prefixes(s, ps.drop_last());
        let b = redact_prefix(a.0, ps.last());
        (b.0, a.1 + b.1)
    }
}

/// Where the line that starts at `i` ends: the next `\n`, or the end.
pub open spec fn line_end(s: Seq<char>, i: int) -> int
    decreases s.len() - i,
{
    if i >= s.len() {
        s.len() as int
    } else if s[i] == '\n' {
        i
    } else {
        line_end(s, i + 1)
    }
}

/// The lines of a text from `i` on, as `str::lines` gives them: split at
/// `\n`, a `\r` before the `\n` dropped, no empty line after a final `\n`.
pub open spec fn lines_from(s: Seq<char>, i: int) -> Seq<Seq<char>>
    decreases s.len() + 1 - i,
{
    if i < 0 || i >= s.len() {
        Seq::empty()
    } else {
        let e = line_end(s, i);
        proof {
            lemma_line_end_bounds(s, i);
        }
        let raw = s.subrange(i, e);
        let l = if e < s.len() && raw.len() > 0 && raw.last() == '\r' {
            raw.drop_last()
        } else {
            raw
        };
        seq![l] + lines_from(s, e + 1)
    }
}

/// Lines joined with `\n`.
pub open spec fn joined_lines(ls: Seq<Seq<char>>) -> Seq<char>
    decreases ls.len(),
{
    if ls.len() == 0 {
        Seq::empty()
    } else if ls.len() == 1 {
        ls[0]
    } else {
        joined_lines(ls.drop_last()) + "\n"@ + ls.last()
    }
}

/// The first place of a character.
#[verifier::opaque]
pub open spec fn first_char(s: Seq<char>, c: char) -> Option<int> {
    if exists|k: int| 0 <= k < s.len() && s[k] == c {
        Some(choose|k: int| 0 <= k < s.len() && s[k] == c && forall|j: int| 0 <= j < k ==> s[j] != c)
    } else {
        None
    }
}

/// Whether a line speaks of a credential (case does not matter).
#[verifier::opaque]
pub open spec fn sensitive_line(l: Seq<char>) -> bool {
    let low = unicode_lower(l);
    ||| contains_text(low, "api_key"@)
    ||| contains_text(low, "token"@)
    ||| contains_text(low, "password"@)
    ||| contains_text(low, "secret"@)
    ||| contains_text(low, "authorization"@)
}

/// A line that speaks of a credential keeps only its key: what stands before
/// the first `=` (else the first `:`), trimmed, then the separator and
/// `[REDACTED]`. With whether it was changed.
pub open spec fn redact_line(l: Seq<char>) -> (Seq<char>, bool) {
    if sensitive_line(l) {
        match first_char(l, '=') {
            Some(k) => (trimmed(l.subrange(0, k)) + "=[REDACTED]"@, true),
            None => match first_char(l, ':') {
                Some(k) => (trimmed(l.subrange(0, k)) + ": [REDACTED]"@, true),
                None => (l, false),
            },
        }
    } else {
        (l, false)
    }
}

pub open spec fn redacted_lines(ls: Seq<Seq<char>>) -> Seq<Seq<char>> {
    ls.map_values(|l: Seq<char>| redact_line(l).0)
}

/// How many lines were changed.
pub open spec fn changed_lines(ls: Seq<Seq<char>>) -> nat
    decreases ls.len(),
{
    if ls.len() == 0 {
        0
    } else {
        changed_lines(ls.drop_last()) + if redact_line(ls.last()).1 {
            1nat
        } else {
            0nat
        }
    }
}

/// The text with secrets replaced, and how many replacements were made:
/// first every token with a secret prefix, then every line that names a
/// credential.
pub open spec fn redaction(s: Seq<char>) -> (Seq<char>, nat) {
    let a = redact_prefixes(s, secret_prefixes());
    let ls = lines_from(a.0, 0);
    (joined_lines(redacted_lines(ls)), a.1 + changed_lines(ls))
}


// ---- shifting the search to a suffix ----

pub proof fn lemma_occurrence_shift(s: Seq<char>, p: Seq<char>, pos: int, j: int)
    requires
        0 <= pos <= s.len(),
        0 <= j,
    ensures
        occurrence_from(s.subrange(pos, s.len() as int), p, j) == match occurrence_from(s, p, pos + j) {
            Some(k) => Some(k - pos),
            None => None::<int>,
        },
    decreases s.len() + 1 - (pos + j),
{
    let t = s.subrange(pos, s.len() as int);
    if !(j + p.len() > t.len()) {
        assert(t.subrange(j, j + p.len()) == s.subrange(pos + j, pos + j + p.len()));
        if t.subrange(j, j + p.len()) != p {
            lemma_occurrence_shift(s, p, pos, j + 1);
        }
    }
}

pub proof fn lemma_ws_end_shift(s: Seq<char>, pos: int, j: int)
    requires
        0 <= pos <= s.len(),
        0 <= j,
    ensures
        ws_end(s.subrange(pos, s.len() as int), j) == ws_end(s, pos + j) - pos,
    decreases s.len() - (pos + j),
{
    let t = s.subrange(pos, s.len() as int);
    if j < t.len() {
        assert(t[j] == s[pos + j]);
        if !is_ws(t[j]) {
            lemma_ws_end_shift(s, pos, j + 1);
        }
    }
}

pub(crate) fn find_from(s: &Vec<char>, p: &Vec<char>, i: usize) -> (r: Option<usize>)
    ensures
        match occurrence_from(s@, p@, i as int) {
            Some(k) => r == Some(k as usize),
            None => r is None,
        },
{
    if p.len() > s.len() {
        return None;
    }
    let last = s.len() - p.len();
    if i > last {
        return None;
    }
    let mut k: usize = i;
    loop
        invariant
            i <= k <= last,
            last == s.len() - p.len(),
            occurrence_from(s@, p@, i as int) == occurrence_from(s@, p@, k as int),
        decreases last - k,
    {
        if crate::text::matches_at(s, p, k) {
            return Some(k);
        }
        if k == last {
            return None;
        }
        k += 1;
    }
}

fn ws_end_at(s: &Vec<char>, i: usize) -> (e: usize)
    requires
        i <= s.len(),
    ensures
        e == ws_end(s@, i as int),
{
    let mut k: usize = i;
    while k < s.len() && !crate::text::is_whitespace(s[k])
        invariant
            i <= k <= s.len(),
            ws_end(s@, i as int) == ws_end(s@, k as int),
        decreases s.len() - k,
    {
        k += 1;
    }
    k
}

fn redact_prefix_exec(s: &Vec<char>, p: &Vec<char>) -> (r: (Vec<char>, usize))
    ensures
        r.0@ == redact_prefix(s@, p@).0,
        r.1 == redact_prefix(s@, p@).1,
{
    let mut out: Vec<char> = Vec::new();
    let mut count: usize = 0;
    let mut pos: usize = 0;
    proof {
        assert(s@.subrange(0, s@.len() as int) == s@);
    }
    loop
        invariant
            pos <= s.len(),
            count <= pos,
            redact_prefix(s@, p@).0 == out@ + redact_prefix(s@.subrange(pos as int, s@.len() as int), p@).0,
            redact_prefix(s@, p@).1 == count + redact_prefix(s@.subrange(pos as int, s@.len() as int), p@).1,
        decreases s.len() - pos,
    {
        let ghost t = s@.subrange(pos as int, s@.len() as int);
        proof {
            lemma_occurrence_shift(s@, p@, pos as int, 0);
            lemma_occurrence_bounds(s@, p@, pos as int);
        }
        match find_from(s, p, pos) {
            None => {
                append_chars(&mut out, s, pos, s.len());
                return (out, count);
            },
            Some(k) => {
                let e = if k < s.len() {
                    ws_end_at(s, k + 1)
                } else {
                    s.len()
                };
                proof {
                    lemma_ws_end_bounds(s@, k + 1);
                    lemma_ws_end_shift(s@, pos as int, k + 1 - pos);
                    assert(ws_end(t, k - pos + 1) == e - pos);
                }
                if e <= pos {
                    append_chars(&mut out, s, pos, s.len());
                    return (out, count);
                }
                proof {
                    assert(t.subrange(e - pos, t.len() as int) == s@.subrange(e as int, s@.len() as int));
                    assert(t.subrange(0, k - pos) == s@.subrange(pos as int, k as int));
                    reveal_strlit("[REDACTED]");
                }
                let ghost before = out@;
                let ghost pos_before = pos;
                append_chars(&mut out, s, pos, k);
                let mark = "[REDACTED]";
                append_str(&mut out, mark);
                count += 1;
                pos = e;
                proof {
                    let rest = redact_prefix(s@.subrange(e as int, s@.len() as int), p@);
                    assert(out@ == before + s@.subrange(pos_before as int, k as int) + redacted_mark());
                    assert(before + (s@.subrange(pos_before as int, k as int) + redacted_mark() + rest.0) == out@ + rest.0);
                }
            },
        }
    }
}

fn secret_prefix_list() -> (v: Vec<&'static str>)
    ensures
        v@.len() == secret_prefixes().len(),
        forall|i: int| 0 <= i < v@.len() ==> (#[trigger] v@[i])@ == secret_prefixes()[i],
{
    let v = vec!["sk-", "ghp_", "xoxb-", "xoxp-", "xoxs-", "AIza", "Bearer "];
    proof {
        reveal_strlit("sk-");
        reveal_strlit("ghp_");
        reveal_strlit("xoxb-");
        reveal_strlit("xoxp-");
        reveal_strlit("xoxs-");
        reveal_strlit("AIza");
        reveal_strlit("Bearer ");
        assert forall|i: int| 0 <= i < v@.len() implies (#[trigger] v@[i])@ == secret_prefixes()[i] by {
            if i == 0 {
            } else if i == 1 {
            } else if i == 2 {
            } else if i == 3 {
            } else if i == 4 {
            } else if i == 5 {
            } else {
            }
        }
    }
    v
}

pub(crate) fn first_char_at(s: &Vec<char>, c: char) -> (r: Option<usize>)
    ensures
        match first_char(s@, c) {
            Some(k) => r == Some(k as usize),
            None => r is None,
        },
        r matches Some(k) ==> k < s.len(),
        first_char(s@, c) matches Some(k) ==> 0 <= k < s.len(),
{
    proof {
        reveal(first_char);
    }
    let mut k: usize = 0;
    while k < s.len()
        invariant
            k <= s.len(),
            forall|j: int| 0 <= j < k ==> s@[j] != c,
        decreases s.len() - k,
    {
        if s[k] == c {
            proof {
                reveal(first_char);
                assert(0 <= k < s@.len() && s@[k as int] == c);
                let w = choose|w: int| 0 <= w < s@.len() && s@[w] == c && forall|j: int| 0 <= j < w ==> s@[j] != c;
                assert(0 <= k < s@.len() && s@[k as int] == c && forall|j: int| 0 <= j < k ==> s@[j] != c);
                if w < k {
                    assert(s@[w] != c);
                } else if w > k {
                    assert(s@[k as int] != c);
                }
                assert(first_char(s@, c) == Some(k as int));
            }
            return Some(k);
        }
        k += 1;
    }
    None
}

fn line_is_sensitive(l: &Vec<char>) -> (b: bool)
    ensures
        b == sensitive_line(l@),
{
    let text = string_of(l);
    let low = to_lowercase(text.as_str());
    let lw = low.as_str();
    proof {
        reveal(sensitive_line);
        reveal_strlit("api_key");
        reveal_strlit("token");
        reveal_strlit("password");
        reveal_strlit("secret");
        reveal_strlit("authorization");
    }
    crate::text::str_contains(lw, "api_key") || crate::text::str_contains(lw, "token")
        || crate::text::str_contains(lw, "password") || crate::text::str_contains(lw, "secret")
        || crate::text::str_contains(lw, "authorization")
}

/// The key of a line, trimmed, followed by a marker.
fn key_then(l: &Vec<char>, k: usize, tail: &str) -> (r: Vec<char>)
    requires
        k <= l.len(),
    ensures
        r@ == trimmed(l@.subrange(0, k as int)) + tail@,
{
    let mut out = crate::text::trim_chars(&sub_chars(l, 0, k));
    append_str(&mut out, tail);
    out
}

fn redact_line_exec(l: &Vec<char>) -> (r: (Vec<char>, bool))
    ensures
        r.0@ == redact_line(l@).0,
        r.1 == redact_line(l@).1,
{
    proof {
        assert(l@.subrange(0, l@.len() as int) == l@);
        reveal_strlit("=[REDACTED]");
        reveal_strlit(": [REDACTED]");
    }
    if !line_is_sensitive(l) {
        return (sub_chars(l, 0, l.len()), false);
    }
    match first_char_at(l, '=') {
        Some(k) => (key_then(l, k, "=[REDACTED]"), true),
        None => match first_char_at(l, ':') {
            Some(k) => (key_then(l, k, ": [REDACTED]"), true),
            None => (sub_chars(l, 0, l.len()), false),
        },
    }
}

/// One more line: how the joined, redacted text and the count grow.
proof fn lemma_line_step(prev: Seq<Seq<char>>, l: Seq<char>)
    ensures
        redacted_lines(prev.push(l)) == redacted_lines(prev).push(redact_line(l).0),
        joined_lines(redacted_lines(prev.push(l))) == if prev.len() > 0 {
            joined_lines(redacted_lines(prev)) + "\n"@ + redact_line(l).0
        } else {
            redact_line(l).0
        },
        changed_lines(prev.push(l)) == changed_lines(prev) + if redact_line(l).1 {
            1nat
        } else {
            0nat
        },
{
    let next = prev.push(l);
    assert(next.drop_last() == prev);
    assert(next.last() == l);
    assert(redacted_lines(next) == redacted_lines(prev).push(redact_line(l).0));
    assert(redacted_lines(next).drop_last() == redacted_lines(prev));
}

fn line_end_at(s: &Vec<char>, i: usize) -> (e: usize)
    requires
        i <= s.len(),
    ensures
        e == line_end(s@, i as int),
{
    let mut k: usize = i;
    while k < s.len() && s[k] != '\n'
        invariant
            i <= k <= s.len(),
            line_end(s@, i as int) == line_end(s@, k as int),
        decreases s.len() - k,
    {
        k += 1;
    }
    k
}

/// A count held at `usize::MAX` once it passes it.
pub open spec fn capped(n: nat) -> usize {
    if n <= usize::MAX {
        n as usize
    } else {
        usize::MAX
    }
}

fn add_capped(count: usize, x: usize, Ghost(n): Ghost<nat>) -> (r: usize)
    requires
        count == capped(n),
    ensures
        r == capped((n + x) as nat),
{
    if count > usize::MAX - x {
        usize::MAX
    } else {
        count + x
    }
}

/// Replaces secrets in a text before it leaves the machine: each token that
/// starts like an API key or a bearer credential, up to the next
/// whitespace, becomes `[REDACTED]`; then each line that names a credential
/// keeps only its key. Returns the text and the number of replacements.
pub fn redact_sensitive_text(content: &str) -> (r: (String, usize))
    ensures
        r.0@ == redaction(content@).0,
        r.1 == capped(redaction(content@).1),
{
    // tokens with a secret prefix
    let prefixes = secret_prefix_list();
    let mut a = chars_of(content);
    let mut count: usize = 0;
    let mut i: usize = 0;
    proof {
        assert(secret_prefixes().subrange(0, 0).len() == 0);
    }
    while i < prefixes.len()
        invariant
            i <= prefixes.len(),
            prefixes@.len() == secret_prefixes().len(),
            forall|k: int| 0 <= k < prefixes@.len() ==> (#[trigger] prefixes@[k])@ == secret_prefixes()[k],
            a@ == redact_prefixes(content@, secret_prefixes().subrange(0, i as int)).0,
            count == capped(redact_prefixes(content@, secret_prefixes().subrange(0, i as int)).1),
        decreases prefixes.len() - i,
    {
        let p = chars_of(prefixes[i]);
        let r = redact_prefix_exec(&a, &p);
        let ghost before = redact_prefixes(content@, secret_prefixes().subrange(0, i as int));
        proof {
            let pre = secret_prefixes().subrange(0, i as int + 1);
            assert(pre.drop_last() == secret_prefixes().subrange(0, i as int));
            assert(pre.last() == secret_prefixes()[i as int]);
        }
        count = add_capped(count, r.1, Ghost(before.1));
        a = r.0;
        i += 1;
    }
    proof {
        assert(secret_prefixes().subrange(0, 7) == secret_prefixes());
    }
    // lines that name a credential
    let ghost all_lines = lines_from(a@, 0);
    let ghost base: nat = redact_prefixes(content@, secret_prefixes()).1;
    let mut out: Vec<char> = Vec::new();
    let ghost mut done: Seq<Seq<char>> = Seq::empty();
    let mut pos: usize = 0;
    let mut any = false;
    proof {
        assert(done + lines_from(a@, 0) == lines_from(a@, 0));
    }
    while pos < a.len()
        invariant
            pos <= a.len(),
            any == (done.len() > 0),
            all_lines == lines_from(a@, 0),
            all_lines == done + lines_from(a@, pos as int),
            out@ == joined_lines(redacted_lines(done)),
            count == capped(base + changed_lines(done)),
        decreases a.len() - pos,
    {
        let e = line_end_at(&a, pos);
        proof {
            lemma_line_end_bounds(a@, pos as int);
        }
        let raw_end = if e < a.len() && e > pos && a[e - 1] == '\r' {
            e - 1
        } else {
            e
        };
        let line = sub_chars(&a, pos, raw_end);
        proof {
            let raw = a@.subrange(pos as int, e as int);
            if e < a.len() && raw.len() > 0 && raw.last() == '\r' {
                assert(raw.drop_last() == line@);
            } else {
                assert(raw == line@);
            }
            assert(lines_from(a@, pos as int) == seq![line@] + lines_from(a@, e + 1));
        }
        let (red, changed) = redact_line_exec(&line);
        let ghost prev = done;
        if any {
            out.push('\n');
        }
        any = true;
        append_chars(&mut out, &red, 0, red.len());
        count = add_capped(count, if changed { 1 } else { 0 }, Ghost(base + changed_lines(prev)));
        proof {
            let next = prev.push(line@);
            lemma_line_step(prev, line@);
            assert(red@.subrange(0, red@.len() as int) == red@);
            if prev.len() > 0 {
                assert(out@ == joined_lines(redacted_lines(prev)) + "\n"@ + red@) by {
                    reveal_strlit("\n");
                }
            } else {
                assert(out@ == red@);
            }
            assert(all_lines == next + lines_from(a@, e + 1));
            done = next;
        }
        pos = if e < a.len() {
            e + 1
        } else {
            e
        };
        proof {
            if e >= a.len() {
                assert(lines_from(a@, e + 1) == Seq::<Seq<char>>::empty());
                assert(lines_from(a@, pos as int) == Seq::<Seq<char>>::empty());
            }
        }
    }
    proof {
        assert(lines_from(a@, pos as int) == Seq::<Seq<char>>::empty());
        assert(all_lines == done);
    }
    (string_of(&out), count)
}

/// A pass never makes more replacements than the text has characters.
pub proof fn lemma_redact_prefix_count(s: Seq<char>, p: Seq<char>)
    ensures
        redact_prefix(s, p).1 <= s.len(),
    decreases s.len(),
{
    match occurrence_from(s, p, 0) {
        None => {},
        Some(i) => {
            let e = ws_end(s, i + 1);
            lemma_occurrence_bounds(s, p, 0);
            lemma_ws_end_bounds(s, i + 1);
            if e > 0 {
                lemma_redact_prefix_count(s.subrange(e, s.len() as int), p);
            }
        },
    }
}


// ---------------------------------------------------------------------------
// Conversations as values
// ---------------------------------------------------------------------------

pub struct MetadataView {
    pub model: Option<Seq<char>>,
    pub agent: Option<Seq<char>>,
    pub workspace: Seq<char>,
    pub total_tokens: u64,
    pub commands_executed: u64,
    pub local_only: bool,
}

impl View for ConversationMetadata {
    type V = MetadataView;

    open spec fn view(&self) -> MetadataView {
        MetadataView {
            model: opt_text(self.model),
            agent: opt_text(self.agent),
            workspace: self.workspace@,
            total_tokens: self.total_tokens,
            commands_executed: self.commands_executed,
            local_only: self.local_only,
        }
    }
}

pub struct ConversationView {
    pub session_id: Seq<char>,
    pub created_at: i64,
    pub last_active: i64,
    pub title: Option<Seq<char>>,
    pub messages: Seq<MessageView>,
    pub metadata: MetadataView,
}

impl View for Conversation {
    type V = ConversationView;

    open spec fn view(&self) -> ConversationView {
        ConversationView {
            session_id: self.session_id@,
            created_at: self.created_at,
            last_active: self.last_active,
            title: opt_text(self.title),
            messages: messages_view(self.messages@),
            metadata: self.metadata@,
        }
    }
}

// ---------------------------------------------------------------------------
// Titles
// ---------------------------------------------------------------------------

/// The words of a text, as `str::split_whitespace` gives them.
pub open spec fn words(s: Seq<char>) -> Seq<Seq<char>>
    decreases s.len(),
{
    if s.len() == 0 {
        Seq::empty()
    } else {
        let w = words(s.drop_last());
        let c = s.last();
        if is_ws(c) {
            w
        } else if s.len() >= 2 && !is_ws(s[s.len() - 2]) && w.len() > 0 {
            w.update(w.len() - 1, w.last().push(c))
        } else {
            w.push(seq![c])
        }
    }
}

/// Words joined with single spaces.
pub open spec fn joined_words(ws: Seq<Seq<char>>) -> Seq<char>
    decreases ws.len(),
{
    if ws.len() == 0 {
        Seq::empty()
    } else if ws.len() == 1 {
        ws[0]
    } else {
        joined_words(ws.drop_last()) + " "@ + ws.last()
    }
}

/// The position of the first message written by the user.
pub open spec fn first_user_from(ms: Seq<MessageView>, i: int) -> Option<int>
    decreases ms.len() - i,
{
    if i < 0 || i >= ms.len() {
        None
    } else if ms[i].role == Role::User {
        Some(i)
    } else {
        first_user_from(ms, i + 1)
    }
}

/// The title of a conversation: the first eight words of its first user
/// message; none when there is no such message or it has no words.
pub open spec fn title_of(ms: Seq<MessageView>) -> Option<Seq<char>> {
    match first_user_from(ms, 0) {
        None => None,
        Some(i) => {
            let ws = words(ms[i].content);
            let t = joined_words(ws.take(if ws.len() < 8 { ws.len() as int } else { 8 }));
            if t.len() == 0 {
                None
            } else {
                Some(t)
            }
        },
    }
}

proof fn lemma_words_last(s: Seq<char>)
    requires
        s.len() > 0,
        !is_ws(s.last()),
    ensures
        words(s).len() > 0,
{
}

pub(crate) fn words_of(s: &Vec<char>) -> (r: Vec<Vec<char>>)
    ensures
        r@.map_values(|w: Vec<char>| w@) == words(s@),
{
    let mut ws: Vec<Vec<char>> = Vec::new();
    let mut i: usize = 0;
    proof {
        assert(s@.subrange(0, 0).len() == 0);
        assert(ws@.map_values(|w: Vec<char>| w@) == words(s@.subrange(0, 0)));
    }
    while i < s.len()
        invariant
            i <= s.len(),
            ws@.map_values(|w: Vec<char>| w@) == words(s@.subrange(0, i as int)),
        decreases s.len() - i,
    {
        let ghost pre = s@.subrange(0, i as int + 1);
        let ghost w0 = words(s@.subrange(0, i as int));
        proof {
            assert(pre.drop_last() == s@.subrange(0, i as int));
            assert(pre.last() == s@[i as int]);
            if i >= 1 {
                assert(pre[pre.len() - 2] == s@[i - 1]);
            }
        }
        let c = s[i];
        if crate::text::is_whitespace(c) {
        } else if i >= 1 && !crate::text::is_whitespace(s[i - 1]) && ws.len() > 0 {
            let mut last = ws.pop().unwrap();
            last.push(c);
            ws.push(last);
            proof {
                assert(ws@.map_values(|w: Vec<char>| w@) == w0.update(w0.len() - 1, w0.last().push(c)));
            }
        } else {
            let mut w: Vec<char> = Vec::new();
            w.push(c);
            ws.push(w);
            proof {
                assert(w@ == seq![c]);
                assert(ws@.map_values(|w: Vec<char>| w@) == w0.push(seq![c]));
            }
        }
        i += 1;
    }
    proof {
        assert(s@.subrange(0, s@.len() as int) == s@);
    }
    ws
}

/// A title made from the first user message, if it has any words.
pub fn auto_title(messages: &Vec<Message>) -> (r: Option<String>)
    ensures
        opt_text(r) == title_of(messages_view(messages@)),
{
    let ghost ms = messages_view(messages@);
    let mut i: usize = 0;
    while i < messages.len()
        invariant
            i <= messages.len(),
            ms == messages_view(messages@),
            first_user_from(ms, 0) == first_user_from(ms, i as int),
        ensures
            i <= messages.len(),
            first_user_from(ms, 0) == first_user_from(ms, i as int),
            i < messages.len() ==> messages@[i as int].role == Role::User,
        decreases messages.len() - i,
    {
        if messages[i].role == Role::User {
            break;
        }
        i += 1;
    }
    proof {
        if i < messages.len() {
            assert(ms[i as int].role == Role::User);
            assert(first_user_from(ms, i as int) == Some(i as int));
            assert(ms[i as int].content == messages@[i as int].content@);
        }
    }
    if i == messages.len() {
        return None;
    }
    let ws = words_of(&chars_of(messages[i].content.as_str()));
    let ghost wv = ws@.map_values(|w: Vec<char>| w@);
    let n: usize = if ws.len() < 8 {
        ws.len()
    } else {
        8
    };
    let mut out: Vec<char> = Vec::new();
    let mut k: usize = 0;
    proof {
        assert(wv.take(0).len() == 0);
    }
    while k < n
        invariant
            k <= n <= ws.len(),
            wv == ws@.map_values(|w: Vec<char>| w@),
            out@ == joined_words(wv.take(k as int)),
        decreases n - k,
    {
        if k > 0 {
            out.push(' ');
        }
        append_chars(&mut out, &ws[k], 0, ws[k].len());
        proof {
            let t = wv.take(k as int + 1);
            assert(t.drop_last() == wv.take(k as int));
            assert(t.last() == ws@[k as int]@);
            assert(ws@[k as int]@.subrange(0, ws@[k as int]@.len() as int) == ws@[k as int]@);
            if k > 0 {
                assert(out@ == joined_words(wv.take(k as int)) + " "@ + t.last()) by {
                    reveal_strlit(" ");
                }
            } else {
                assert(t.len() == 1);
            }
        }
        k += 1;
    }
    if out.len() == 0 {
        None
    } else {
        Some(string_of(&out))
    }
}

// ---------------------------------------------------------------------------
// The most recent messages
// ---------------------------------------------------------------------------

/// All messages of the conversations, one conversation after another.
pub open spec fn all_messages(files: Seq<Seq<MessageView>>) -> Seq<MessageView>
    decreases files.len(),
{
    if files.len() == 0 {
        Seq::empty()
    } else {
        all_messages(files.drop_last()) + files.last()
    }
}

/// The last `limit` messages of the conversations (all of them when there are
/// fewer), oldest first; the conversations are given in the order of their
/// file names.
pub fn recent_messages(files: Vec<Vec<Message>>, limit: usize) -> (r: Vec<Message>)
    ensures
        ({
            let all = all_messages(files@.map_values(|f: Vec<Message>| messages_view(f@)));
            messages_view(r@) == all.subrange(
                if all.len() > limit { all.len() - limit } else { 0 },
                all.len() as int,
            )
        }),
{
    let ghost fv = files@.map_values(|f: Vec<Message>| messages_view(f@));
    let mut files = files;
    let mut all: Vec<Message> = Vec::new();
    let mut i: usize = 0;
    let n = files.len();
    proof {
        assert(fv.subrange(0, 0).len() == 0);
        assert(messages_view(all@) == all_messages(fv.subrange(0, 0)));
    }
    while i < n
        invariant
            i <= n,
            n == files.len(),
            fv.len() == n,
            forall|k: int| i <= k < n ==> messages_view(files@[k]@) == #[trigger] fv[k],
            messages_view(all@) == all_messages(fv.subrange(0, i as int)),
        decreases n - i,
    {
        let mut f: Vec<Message> = Vec::new();
        std::mem::swap(&mut f, &mut files[i]);
        proof {
            let pre = fv.subrange(0, i as int + 1);
            assert(pre.drop_last() == fv.subrange(0, i as int));
            assert(pre.last() == fv[i as int]);
        }
        let ghost before = all@;
        all.append(&mut f);
        proof {
            assert(messages_view(all@) == messages_view(before) + fv[i as int]);
        }
        i += 1;
    }
    proof {
        assert(fv.subrange(0, n as int) == fv);
    }
    if all.len() > limit {
        let start = all.len() - limit;
        let ghost whole = all@;
        let tail = all.split_off(start);
        proof {
            assert(messages_view(tail@) == messages_view(whole).subrange(start as int, whole.len() as int));
        }
        tail
    } else {
        proof {
            assert(messages_view(all@).subrange(0, all@.len() as int) == messages_view(all@));
        }
        all
    }
}


// ---------------------------------------------------------------------------
// Sync export
// ---------------------------------------------------------------------------

/// A message as it leaves the machine: with its secrets replaced when there
/// were any, otherwise exactly as stored.
pub open spec fn scrubbed(m: MessageView) -> MessageView {
    if redaction(m.content).1 > 0 {
        MessageView { content: redaction(m.content).0, ..m }
    } else {
        m
    }
}

/// How many replacements the messages of a conversation need.
pub open spec fn message_redactions(ms: Seq<MessageView>) -> nat
    decreases ms.len(),
{
    if ms.len() == 0 {
        0
    } else {
        message_redactions(ms.drop_last()) + redaction(ms.last().content).1
    }
}

pub open spec fn scrubbed_conversation(c: ConversationView) -> ConversationView {
    ConversationView { messages: c.messages.map_values(|m: MessageView| scrubbed(m)), ..c }
}

/// The selected conversations that are exported: those that were found and
/// are not local-only, in order, scrubbed, with their categories.
pub open spec fn exported(sel: Seq<(Seq<char>, Option<ConversationView>)>) -> Seq<(Seq<char>, ConversationView)>
    decreases sel.len(),
{
    if sel.len() == 0 {
        Seq::empty()
    } else {
        let rest = exported(sel.drop_last());
        match sel.last().1 {
            Some(c) => if c.metadata.local_only {
                rest
            } else {
                rest.push((sel.last().0, scrubbed_conversation(c)))
            },
            None => rest,
        }
    }
}

/// How many selected conversations were withheld as local-only.
pub open spec fn skipped_local(sel: Seq<(Seq<char>, Option<ConversationView>)>) -> nat
    decreases sel.len(),
{
    if sel.len() == 0 {
        0
    } else {
        skipped_local(sel.drop_last()) + match sel.last().1 {
            Some(c) => if c.metadata.local_only {
                1nat
            } else {
                0nat
            },
            None => 0nat,
        }
    }
}

/// How many replacements the exported conversations needed.
pub open spec fn export_redactions(sel: Seq<(Seq<char>, Option<ConversationView>)>) -> nat
    decreases sel.len(),
{
    if sel.len() == 0 {
        0
    } else {
        export_redactions(sel.drop_last()) + match sel.last().1 {
            Some(c) => if c.metadata.local_only {
                0nat
            } else {
                message_redactions(c.messages)
            },
            None => 0nat,
        }
    }
}

pub open spec fn selection_view(sel: Seq<(String, Option<Conversation>)>) -> Seq<(Seq<char>, Option<ConversationView>)> {
    sel.map_values(
        |x: (String, Option<Conversation>)|
            (
                x.0@,
                match x.1 {
                    Some(c) => Some(c@),
                    None => None,
                },
            ),
    )
}

pub open spec fn sync_view(v: Seq<SyncConversation>) -> Seq<(Seq<char>, ConversationView)> {
    v.map_values(|x: SyncConversation| (x.category@, x.conversation@))
}

fn add_count(count: usize, x: usize, Ghost(n): Ghost<nat>, Ghost(c): Ghost<nat>) -> (r: usize)
    requires
        count == capped(n),
        x == capped(c),
    ensures
        r == capped(n + c),
{
    if count > usize::MAX - x {
        usize::MAX
    } else {
        count + x
    }
}

/// Scrubs the messages of a conversation; with the number of replacements.
fn scrub_conversation(c: Conversation) -> (r: (Conversation, usize))
    ensures
        r.0@ == scrubbed_conversation(c@),
        r.1 == capped(message_redactions(c@.messages)),
{
    let mut c = c;
    let mut old_msgs: Vec<Message> = Vec::new();
    std::mem::swap(&mut old_msgs, &mut c.messages);
    let ghost mv = messages_view(old_msgs@);
    let mut msgs: Vec<Message> = Vec::new();
    let mut count: usize = 0;
    let mut i: usize = 0;
    let n = old_msgs.len();
    proof {
        assert(mv.subrange(0, 0).len() == 0);
    }
    while i < n
        invariant
            i <= n,
            n == old_msgs.len() + i,
            mv.len() == n,
            forall|k: int| 0 <= k < old_msgs.len() ==> #[trigger] old_msgs@[k]@ == mv[i + k],
            messages_view(msgs@) == mv.subrange(0, i as int).map_values(|m: MessageView| scrubbed(m)),
            count == capped(message_redactions(mv.subrange(0, i as int))),
        decreases n - i,
    {
        let m = old_msgs.remove(0);
        proof {
            assert(m@ == mv[i as int]);
            let pre = mv.subrange(0, i as int + 1);
            assert(pre.drop_last() == mv.subrange(0, i as int));
            assert(pre.last() == mv[i as int]);
        }
        let (updated, k) = redact_sensitive_text(m.content.as_str());
        let ghost before = msgs@;
        let m2 = if k > 0 {
            Message { role: m.role, content: updated, timestamp: m.timestamp, actions: m.actions }
        } else {
            m
        };
        proof {
            assert(m2@ == scrubbed(mv[i as int]));
        }
        msgs.push(m2);
        count = add_count(count, k, Ghost(message_redactions(mv.subrange(0, i as int))), Ghost(redaction(mv[i as int].content).1));
        proof {
            assert(messages_view(msgs@) == messages_view(before).push(m2@));
            assert(mv.subrange(0, i as int + 1).map_values(|m: MessageView| scrubbed(m)) == mv.subrange(0, i as int).map_values(
                |m: MessageView| scrubbed(m),
            ).push(scrubbed(mv[i as int])));
        }
        i += 1;
    }
    proof {
        assert(mv.subrange(0, n as int) == mv);
    }
    c.messages = msgs;
    (c, count)
}

/// What a sync export of the selected conversations holds, given each one as
/// it was found in memory (`None` where it was not found): local-only ones
/// are withheld and counted, the others are exported with their secrets
/// replaced.
pub fn sync_payload_of(workspace: &str, selected: Vec<(String, Option<Conversation>)>, exported_at: i64) -> (p: SyncPayload)
    ensures
        p.workspace@ == workspace@,
        p.exported_at == exported_at,
        sync_view(p.conversations@) == exported(selection_view(selected@)),
        p.skipped_local_only == skipped_local(selection_view(selected@)),
        p.redactions == capped(export_redactions(selection_view(selected@))),
{
    let ghost sv = selection_view(selected@);
    let mut rest = selected;
    let n = rest.len();
    let mut out: Vec<SyncConversation> = Vec::new();
    let mut skipped: usize = 0;
    let mut redactions: usize = 0;
    let mut i: usize = 0;
    proof {
        assert(sv.subrange(0, 0).len() == 0);
    }
    while i < n
        invariant
            i <= n,
            n == rest.len() + i,
            sv.len() == n,
            forall|k: int|
                0 <= k < rest.len() ==> #[trigger] selection_view(rest@)[k] == sv[i + k],
            sync_view(out@) == exported(sv.subrange(0, i as int)),
            skipped == skipped_local(sv.subrange(0, i as int)),
            skipped <= i,
            redactions == capped(export_redactions(sv.subrange(0, i as int))),
        decreases n - i,
    {
        let ghost rv = selection_view(rest@);
        let ghost old_rest = rest@;
        let item = rest.remove(0);
        proof {
            assert(rv[0] == sv[i as int]);
            let pre = sv.subrange(0, i as int + 1);
            assert(pre.drop_last() == sv.subrange(0, i as int));
            assert(pre.last() == sv[i as int]);
            assert forall|k: int| 0 <= k < rest.len() implies #[trigger] selection_view(rest@)[k] == sv[i + 1 + k] by {
                assert(rest@[k] == old_rest[k + 1]);
                assert(rv[k + 1] == sv[i + (k + 1)]);
            }
        }
        let (category, found) = item;
        match found {
            Some(c) => {
                if c.metadata.local_only {
                    skipped += 1;
                } else {
                    let ghost cv = c@;
                    let (scrubbed_c, k) = scrub_conversation(c);
                    let ghost before = out@;
                    out.push(SyncConversation { category, conversation: scrubbed_c });
                    redactions = add_count(redactions, k, Ghost(export_redactions(sv.subrange(0, i as int))), Ghost(message_redactions(cv.messages)));
                    proof {
                        assert(sync_view(out@) == sync_view(before).push((sv[i as int].0, scrubbed_conversation(cv))));
                    }
                }
            },
            None => {},
        }
        i += 1;
    }
    proof {
        assert(sv.subrange(0, n as int) == sv);
    }
    SyncPayload {
        workspace: String::from_str(workspace),
        exported_at,
        conversations: out,
        skipped_local_only: skipped,
        redactions,
    }
}


/// No local-only conversation is ever exported.
pub proof fn law_local_only_never_exported(sel: Seq<(Seq<char>, Option<ConversationView>)>)
    ensures
        forall|i: int| 0 <= i < exported(sel).len() ==> !(#[trigger] exported(sel)[i]).1.metadata.local_only,
    decreases sel.len(),
{
    if sel.len() > 0 {
        law_local_only_never_exported(sel.drop_last());
    }
}

/// Whether a selected conversation goes into the export.
pub open spec fn is_exported(e: (Seq<char>, Option<ConversationView>)) -> bool {
    e.1 matches Some(c) && !c.metadata.local_only
}

/// The export follows the selection: it is the selected conversations that
/// were found and are not local-only, in the order in which they were
/// selected, each scrubbed and with its category.
pub proof fn law_export_follows_selection(sel: Seq<(Seq<char>, Option<ConversationView>)>)
    ensures
        exported(sel) == sel.filter(|e: (Seq<char>, Option<ConversationView>)| is_exported(e)).map_values(
            |e: (Seq<char>, Option<ConversationView>)| (e.0, scrubbed_conversation(e.1->0)),
        ),
    decreases sel.len(),
{
    reveal(Seq::filter);
    let f = |e: (Seq<char>, Option<ConversationView>)| is_exported(e);
    let g = |e: (Seq<char>, Option<ConversationView>)| (e.0, scrubbed_conversation(e.1->0));
    if sel.len() > 0 {
        law_export_follows_selection(sel.drop_last());
        let prev = sel.drop_last().filter(f);
        if f(sel.last()) {
            assert(prev.push(sel.last()).map_values(g) =~= prev.map_values(g).push(g(sel.last())));
        }
    } else {
        assert(sel.filter(f).map_values(g) =~= Seq::<(Seq<char>, ConversationView)>::empty());
    }
}

/// Each selected conversation that was found is either exported or counted
/// as withheld.
pub proof fn law_found_conversations_accounted(sel: Seq<(Seq<char>, Option<ConversationView>)>)
    requires
        forall|i: int| 0 <= i < sel.len() ==> (#[trigger] sel[i]).1 is Some,
    ensures
        exported(sel).len() + skipped_local(sel) == sel.len(),
    decreases sel.len(),
{
    if sel.len() > 0 {
        assert forall|i: int| 0 <= i < sel.drop_last().len() implies (#[trigger] sel.drop_last()[i]).1 is Some by {
            assert(sel.drop_last()[i] == sel[i]);
        }
        law_found_conversations_accounted(sel.drop_last());
        assert(sel[sel.len() - 1] == sel.last());
    }
}

/// Scrubbing changes only the text of messages: their number, authors,
/// times and actions stay.
pub proof fn law_scrubbing_keeps_message_shape(c: ConversationView)
    ensures
        scrubbed_conversation(c).messages.len() == c.messages.len(),
        forall|i: int|
            0 <= i < c.messages.len() ==> {
                let m = #[trigger] scrubbed_conversation(c).messages[i];
                &&& m.role == c.messages[i].role
                &&& m.timestamp == c.messages[i].timestamp
                &&& m.actions == c.messages[i].actions
            },
        scrubbed_conversation(c).session_id == c.session_id,
        scrubbed_conversation(c).metadata == c.metadata,
{
}


/// The lines of a text, as `str::lines` gives them.
pub fn split_lines(a: &Vec<char>) -> (r: Vec<Vec<char>>)
    ensures
        r@.map_values(|l: Vec<char>| l@) == lines_from(a@, 0),
{
    let mut out: Vec<Vec<char>> = Vec::new();
    let mut pos: usize = 0;
    proof {
        assert(out@.map_values(|l: Vec<char>| l@) + lines_from(a@, 0) == lines_from(a@, 0));
    }
    while pos < a.len()
        invariant
            pos <= a.len(),
            out@.map_values(|l: Vec<char>| l@) + lines_from(a@, pos as int) == lines_from(a@, 0),
        decreases a.len() - pos,
    {
        let e = line_end_at(a, pos);
        proof {
            lemma_line_end_bounds(a@, pos as int);
        }
        let raw_end = if e < a.len() && e > pos && a[e - 1] == '\r' {
            e - 1
        } else {
            e
        };
        let line = sub_chars(a, pos, raw_end);
        proof {
            let raw = a@.subrange(pos as int, e as int);
            if e < a.len() && raw.len() > 0 && raw.last() == '\r' {
                assert(raw.drop_last() == line@);
            } else {
                assert(raw == line@);
            }
            assert(lines_from(a@, pos as int) == seq![line@] + lines_from(a@, e + 1));
        }
        let ghost before = out@.map_values(|l: Vec<char>| l@);
        out.push(line);
        proof {
            assert(out@.map_values(|l: Vec<char>| l@) == before.push(line@));
            assert(before.push(line@) + lines_from(a@, e + 1) == before + (seq![line@] + lines_from(a@, e + 1)));
        }
        pos = if e < a.len() {
            e + 1
        } else {
            e
        };
        proof {
            if e >= a.len() {
                assert(lines_from(a@, pos as int) == Seq::<Seq<char>>::empty());
                assert(lines_from(a@, e + 1) == Seq::<Seq<char>>::empty());
            }
        }
    }
    proof {
        assert(lines_from(a@, pos as int) == Seq::<Seq<char>>::empty());
        assert(out@.map_values(|l: Vec<char>| l@) + Seq::<Seq<char>>::empty() == out@.map_values(|l: Vec<char>| l@));
    }
    out
}

} // verus!
