//! Session files and the conversations in them: appending a message,
//! reading records of the older schema, choosing the file a message goes to,
//! and ordering the session list.
use crate::memory::{
    actions_view, all_messages, auto_title, messages_view, session_id_of_stem, session_id_from_stem, title_of,
    Conversation, ConversationMetadata, ConversationView, Message, MessageAction, MessageView,
    MetadataView, Role, SessionSummary,
};
use crate::text::{chars_of, lex_less, lex_lt, lemma_lex_irreflexive, lemma_lex_total, lemma_lex_transitive, opt_text, str_eq, trim_str, trimmed};
use vstd::prelude::*;

verus! {

// ---------------------------------------------------------------------------
// Appending a message
// ---------------------------------------------------------------------------

/// A conversation that has no message yet.
pub open spec fn fresh_conversation(session_id: Seq<char>, workspace: Seq<char>, now: i64) -> ConversationView {
    ConversationView {
        session_id,
        created_at: now,
        last_active: now,
        title: None,
        messages: Seq::empty(),
        metadata: MetadataView {
            model: None,
            agent: None,
            workspace,
            total_tokens: 0,
            commands_executed: 0,
            local_only: false,
        },
    }
}

/// The conversation a message is added to: the stored one, or a fresh one.
pub open spec fn base_conversation(
    existing: Option<ConversationView>,
    session_id: Seq<char>,
    workspace: Seq<char>,
    now: i64,
) -> ConversationView {
    match existing {
        Some(c) => c,
        None => fresh_conversation(session_id, workspace, now),
    }
}

/// A conversation after one more message: the message goes last, the
/// conversation was active now, it gets a title once it has four messages
/// and none yet, and an empty workspace is filled in.
pub open spec fn appended(base: ConversationView, workspace: Seq<char>, m: MessageView, now: i64) -> ConversationView {
    let msgs = base.messages.push(m);
    ConversationView {
        last_active: now,
        title: if base.title is None && msgs.len() >= 4 {
            title_of(msgs)
        } else {
            base.title
        },
        messages: msgs,
        metadata: MetadataView {
            workspace: if base.metadata.workspace.len() == 0 {
                workspace
            } else {
                base.metadata.workspace
            },
            ..base.metadata
        },
        ..base
    }
}

pub open spec fn opt_conversation(c: Option<Conversation>) -> Option<ConversationView> {
    match c {
        Some(c) => Some(c@),
        None => None,
    }
}

/// Adds a message written now to the conversation of a session file (a new
/// conversation with the given id when the file held none).
pub fn append_to_conversation(
    existing: Option<Conversation>,
    session_id: &str,
    workspace: &str,
    role: Role,
    content: String,
    actions: Vec<MessageAction>,
    now: i64,
) -> (c: Conversation)
    ensures
        c@ == appended(
            base_conversation(opt_conversation(existing), session_id@, workspace@, now),
            workspace@,
            MessageView { role, content: content@, timestamp: now, actions: actions_view(actions@) },
            now,
        ),
{
    let ghost base = base_conversation(opt_conversation(existing), session_id@, workspace@, now);
    let mut c = match existing {
        Some(c) => c,
        None => Conversation {
            session_id: String::from_str(session_id),
            created_at: now,
            last_active: now,
            title: None,
            messages: Vec::new(),
            metadata: ConversationMetadata {
                model: None,
                agent: None,
                workspace: String::from_str(workspace),
                total_tokens: 0,
                commands_executed: 0,
                local_only: false,
            },
        },
    };
    proof {
        if existing is None {
            assert(messages_view(c.messages@) =~= Seq::<MessageView>::empty());
        }
        assert(c@ == base);
    }
    let ghost m = MessageView { role, content: content@, timestamp: now, actions: actions_view(actions@) };
    let ghost before = c.messages@;
    c.messages.push(Message { role, content, timestamp: now, actions });
    proof {
        assert(messages_view(c.messages@) == messages_view(before).push(m));
    }
    c.last_active = now;
    if c.title.is_none() && c.messages.len() >= 4 {
        c.title = auto_title(&c.messages);
    }
    if c.metadata.workspace.as_str().is_empty() {
        c.metadata.workspace = String::from_str(workspace);
    }
    c
}

/// Adding a message keeps every earlier message where it was and puts the
/// new one last.
pub proof fn law_append_keeps_history(base: ConversationView, workspace: Seq<char>, m: MessageView, now: i64)
    ensures
        appended(base, workspace, m, now).messages.len() == base.messages.len() + 1,
        appended(base, workspace, m, now).messages.last() == m,
        forall|i: int|
            0 <= i < base.messages.len() ==> #[trigger] appended(base, workspace, m, now).messages[i] == base.messages[i],
{
}

/// A title, once given, stays; so do the session id and the creation time.
pub proof fn law_append_keeps_identity(base: ConversationView, workspace: Seq<char>, m: MessageView, now: i64)
    ensures
        base.title is Some ==> appended(base, workspace, m, now).title == base.title,
        appended(base, workspace, m, now).session_id == base.session_id,
        appended(base, workspace, m, now).created_at == base.created_at,
        appended(base, workspace, m, now).metadata.local_only == base.metadata.local_only,
{
}

/// A message added to the newest conversation is what a read of the most
/// recent messages gives back last.
pub proof fn law_appended_message_is_recalled(
    earlier: Seq<Seq<MessageView>>,
    base: ConversationView,
    workspace: Seq<char>,
    m: MessageView,
    now: i64,
    limit: nat,
)
    requires
        limit >= 1,
    ensures
        ({
            let files = earlier.push(appended(base, workspace, m, now).messages);
            let all = all_messages(files);
            let recent = all.subrange(if all.len() > limit { all.len() - limit } else { 0 }, all.len() as int);
            recent.len() >= 1 && recent.last() == m
        }),
{
    let files = earlier.push(appended(base, workspace, m, now).messages);
    assert(files.drop_last() =~= earlier);
    assert(all_messages(files) == all_messages(earlier) + base.messages.push(m));
}

// ---------------------------------------------------------------------------
// Records of the older schema
// ---------------------------------------------------------------------------

/// A message as the older schema stored it.
#[derive(Debug, Clone)]
pub struct LegacyMessage {
    pub role: Role,
    pub content: String,
    pub timestamp: i64,
    pub actions: Option<Vec<MessageAction>>,
}

/// A conversation as the older schema stored it.
#[derive(Debug, Clone)]
pub struct LegacyConversation {
    pub id: Option<String>,
    pub workspace: Option<String>,
    pub created_at: i64,
    pub messages: Vec<LegacyMessage>,
}

pub open spec fn legacy_message_view(m: LegacyMessage) -> MessageView {
    MessageView {
        role: m.role,
        content: m.content@,
        timestamp: m.timestamp,
        actions: match m.actions {
            Some(a) => actions_view(a@),
            None => Seq::empty(),
        },
    }
}

/// A record of the older schema in today's shape: its id (else the one the
/// file name gives), active when its last message was written (else when it
/// was created), titled when it has four messages.
pub open spec fn migrated(l: LegacyConversation, fallback_id: Seq<char>) -> ConversationView {
    let msgs = l.messages@.map_values(|m: LegacyMessage| legacy_message_view(m));
    ConversationView {
        session_id: match l.id {
            Some(i) => i@,
            None => fallback_id,
        },
        created_at: l.created_at,
        last_active: if l.messages@.len() > 0 {
            l.messages@.last().timestamp
        } else {
            l.created_at
        },
        title: if msgs.len() >= 4 {
            title_of(msgs)
        } else {
            None
        },
        messages: msgs,
        metadata: MetadataView {
            model: None,
            agent: None,
            workspace: match l.workspace {
                Some(w) => w@,
                None => Seq::empty(),
            },
            total_tokens: 0,
            commands_executed: 0,
            local_only: false,
        },
    }
}

/// Brings a record of the older schema into today's shape.
pub fn migrate_legacy(l: LegacyConversation, fallback_id: &str) -> (c: Conversation)
    ensures
        c@ == migrated(l, fallback_id@),
{
    let ghost lv = l;
    let ghost target = migrated(l, fallback_id@);
    let session_id = match l.id {
        Some(i) => i,
        None => String::from_str(fallback_id),
    };
    let last_active = if l.messages.len() > 0 {
        l.messages[l.messages.len() - 1].timestamp
    } else {
        l.created_at
    };
    let created_at = l.created_at;
    let workspace = match l.workspace {
        Some(w) => w,
        None => String::new(),
    };
    let mut rest = l.messages;
    let n = rest.len();
    let ghost mv = lv.messages@.map_values(|m: LegacyMessage| legacy_message_view(m));
    let mut msgs: Vec<Message> = Vec::new();
    let mut i: usize = 0;
    while i < n
        invariant
            i <= n,
            n == rest.len() + i,
            mv.len() == n,
            forall|k: int| 0 <= k < rest.len() ==> legacy_message_view(#[trigger] rest@[k]) == mv[i + k],
            messages_view(msgs@) == mv.subrange(0, i as int),
        decreases n - i,
    {
        let ghost old_rest = rest@;
        let m = rest.remove(0);
        proof {
            assert(legacy_message_view(old_rest[0]) == mv[i as int]);
            assert forall|k: int| 0 <= k < rest.len() implies legacy_message_view(#[trigger] rest@[k]) == mv[i + 1 + k] by {
                assert(rest@[k] == old_rest[k + 1]);
            }
        }
        let ghost mview = legacy_message_view(m);
        let actions = match m.actions {
            Some(a) => a,
            None => Vec::new(),
        };
        proof {
            assert(actions_view(actions@) =~= mview.actions);
        }
        let ghost before = msgs@;
        let msg = Message { role: m.role, content: m.content, timestamp: m.timestamp, actions };
        proof {
            assert(msg@ == mview);
        }
        msgs.push(msg);
        proof {
            assert(messages_view(msgs@) == messages_view(before).push(mv[i as int]));
            assert(mv.subrange(0, i as int + 1) == mv.subrange(0, i as int).push(mv[i as int]));
        }
        i += 1;
    }
    proof {
        assert(mv.subrange(0, n as int) == mv);
    }
    let title = if msgs.len() >= 4 {
        auto_title(&msgs)
    } else {
        None
    };
    Conversation {
        session_id,
        created_at,
        last_active,
        title,
        messages: msgs,
        metadata: ConversationMetadata {
            model: None,
            agent: None,
            workspace,
            total_tokens: 0,
            commands_executed: 0,
            local_only: false,
        },
    }
}

/// What a session file holds, given its text and what it decoded to in the
/// current schema and in the older one: nothing for a blank file, the
/// current record (with the id the file name gives when its own is empty),
/// else the older record brought up to date (`true`: it should be written
/// back), else nothing.
pub open spec fn stored_conversation(
    text: Seq<char>,
    current: Option<ConversationView>,
    legacy: Option<LegacyConversation>,
    file_id: Seq<char>,
) -> Option<(ConversationView, bool)> {
    if trimmed(text).len() == 0 {
        None
    } else {
        match current {
            Some(c) => Some(
                (
                    if c.session_id.len() == 0 {
                        ConversationView { session_id: file_id, ..c }
                    } else {
                        c
                    },
                    false,
                ),
            ),
            None => match legacy {
                Some(l) => Some((migrated(l, file_id), true)),
                None => None,
            },
        }
    }
}

/// Reads a session file's record; see `stored_conversation`.
pub fn conversation_from_file(
    text: &str,
    current: Option<Conversation>,
    legacy: Option<LegacyConversation>,
    file_id: &str,
) -> (r: Option<(Conversation, bool)>)
    ensures
        match r {
            Some((c, m)) => stored_conversation(text@, opt_conversation(current), legacy, file_id@) == Some((c@, m)),
            None => stored_conversation(text@, opt_conversation(current), legacy, file_id@) is None,
        },
{
    if trim_str(text).as_str().is_empty() {
        return None;
    }
    match current {
        Some(c) => {
            let mut c = c;
            if c.session_id.as_str().is_empty() {
                c.session_id = String::from_str(file_id);
            }
            Some((c, false))
        },
        None => match legacy {
            Some(l) => Some((migrate_legacy(l, file_id), true)),
            None => None,
        },
    }
}

// ---------------------------------------------------------------------------
// Which file a message goes to
// ---------------------------------------------------------------------------

/// A session file of a category directory: its name, its name without the
/// extension, and the id its record gives (when it could be read).
#[derive(Debug, Clone)]
pub struct SessionFile {
    pub name: String,
    pub stem: String,
    pub stored_id: Option<String>,
}

/// Whether a session file belongs to the session: by the id its name gives
/// or by the id its record holds.
pub open spec fn file_is_session(f: SessionFile, id: Seq<char>) -> bool {
    session_id_of_stem(f.stem@) == id || opt_text(f.stored_id) == Some(id)
}

/// The first file (in the given order) that belongs to the session.
pub open spec fn first_session_file(files: Seq<SessionFile>, id: Seq<char>) -> Option<int> {
    if exists|k: int| 0 <= k < files.len() && file_is_session(files[k], id) {
        Some(choose|k: int| 0 <= k < files.len() && file_is_session(files[k], id)
            && forall|j: int| 0 <= j < k ==> !file_is_session(files[j], id))
    } else {
        None
    }
}

/// Finds the first file that belongs to the session.
pub fn find_session_file(files: &Vec<SessionFile>, session_id: &str) -> (r: Option<usize>)
    ensures
        match r {
            Some(k) => k < files.len() && file_is_session(files@[k as int], session_id@)
                && forall|j: int| 0 <= j < k ==> !file_is_session(files@[j], session_id@),
            None => forall|j: int| 0 <= j < files.len() ==> !file_is_session(files@[j], session_id@),
        },
{
    let mut i: usize = 0;
    while i < files.len()
        invariant
            i <= files.len(),
            forall|j: int| 0 <= j < i ==> !file_is_session(files@[j], session_id@),
        decreases files.len() - i,
    {
        let by_name = session_id_from_stem(files[i].stem.as_str());
        let by_record = match &files[i].stored_id {
            Some(s) => str_eq(s.as_str(), session_id),
            None => false,
        };
        if str_eq(by_name.as_str(), session_id) || by_record {
            return Some(i);
        }
        i += 1;
    }
    None
}

/// Whether no name in the list sorts after the one at `k`.
pub open spec fn is_last_name(files: Seq<SessionFile>, k: int) -> bool {
    0 <= k < files.len() && forall|j: int| 0 <= j < files.len() ==> !lex_lt(files[k].name@, #[trigger] files[j].name@)
}

/// The file whose name sorts last.
pub fn last_by_name(files: &Vec<SessionFile>) -> (r: Option<usize>)
    ensures
        match r {
            Some(k) => is_last_name(files@, k as int),
            None => files.len() == 0,
        },
{
    if files.len() == 0 {
        return None;
    }
    let mut best: usize = 0;
    let mut best_name = chars_of(files[0].name.as_str());
    let mut i: usize = 1;
    proof {
        lemma_lex_irreflexive(files@[0].name@);
    }
    while i < files.len()
        invariant
            1 <= i <= files.len(),
            best < i,
            best_name@ == files@[best as int].name@,
            forall|j: int| 0 <= j < i ==> !lex_lt(files@[best as int].name@, #[trigger] files@[j].name@),
        decreases files.len() - i,
    {
        let name = chars_of(files[i].name.as_str());
        if lex_less(&best_name, &name) {
            proof {
                assert forall|j: int| 0 <= j <= i implies !lex_lt(files@[i as int].name@, #[trigger] files@[j].name@) by {
                    if j < i && lex_lt(files@[i as int].name@, files@[j].name@) {
                        lemma_lex_transitive(files@[best as int].name@, files@[i as int].name@, files@[j].name@);
                    }
                    if j == i {
                        lemma_lex_irreflexive(files@[i as int].name@);
                    }
                }
            }
            best = i;
            best_name = name;
        } else {
            proof {
                assert(!lex_lt(files@[best as int].name@, files@[i as int].name@));
            }
        }
        i += 1;
    }
    Some(best)
}

/// What the active-session marker asks for.
pub open spec fn marker_wants_new(marker: Seq<char>) -> bool {
    marker == "NEW"@
}

/// Where the next message of a category goes (`None`: a new session file).
/// With a marker: a new file when it says `NEW`, else the marked session's
/// file, else a new file. Without one: the file whose name sorts last, else
/// a new file.
pub fn choose_session_file(marker: Option<String>, files: &Vec<SessionFile>) -> (r: Option<usize>)
    ensures
        match marker {
            Some(m) => if marker_wants_new(m@) {
                r is None
            } else {
                match r {
                    Some(k) => k < files.len() && file_is_session(files@[k as int], m@)
                        && forall|j: int| 0 <= j < k ==> !file_is_session(files@[j], m@),
                    None => forall|j: int| 0 <= j < files.len() ==> !file_is_session(files@[j], m@),
                }
            },
            None => match r {
                Some(k) => is_last_name(files@, k as int),
                None => files.len() == 0,
            },
        },
{
    match marker {
        Some(m) => {
            if str_eq(m.as_str(), "NEW") {
                proof {
                    reveal_strlit("NEW");
                }
                None
            } else {
                proof {
                    reveal_strlit("NEW");
                }
                find_session_file(files, m.as_str())
            }
        },
        None => last_by_name(files),
    }
}

// ---------------------------------------------------------------------------
// The session list, most recent first
// ---------------------------------------------------------------------------

pub struct SummaryView {
    pub workspace: Seq<char>,
    pub category: Seq<char>,
    pub session_id: Seq<char>,
    pub title: Option<Seq<char>>,
    pub created_at: i64,
    pub last_active: i64,
    pub local_only: bool,
}

impl View for SessionSummary {
    type V = SummaryView;

    open spec fn view(&self) -> SummaryView {
        SummaryView {
            workspace: self.workspace@,
            category: self.category@,
            session_id: self.session_id@,
            title: opt_text(self.title),
            created_at: self.created_at,
            last_active: self.last_active,
            local_only: self.local_only,
        }
    }
}

impl SessionSummary {
    /// A field-by-field copy.
    pub fn copied(&self) -> (s: SessionSummary)
        ensures
            s@ == self@,
    {
        SessionSummary {
            workspace: self.workspace.clone(),
            category: self.category.clone(),
            session_id: self.session_id.clone(),
            title: match &self.title {
                Some(t) => Some(t.clone()),
                None => None,
            },
            created_at: self.created_at,
            last_active: self.last_active,
            local_only: self.local_only,
        }
    }
}

/// Whether the session at `i` of the list goes before the one at `j`: it was
/// active later, or at the same time and came later in the list (the list is
/// sorted oldest first, keeping equal ones in order, then reversed).
pub open spec fn goes_before(s: Seq<SessionSummary>, i: int, j: int) -> bool {
    s[i].last_active > s[j].last_active || (s[i].last_active == s[j].last_active && i > j)
}

/// `p` lists each position below `n` once.
pub open spec fn is_permutation(p: Seq<int>, n: int) -> bool {
    &&& p.len() == n
    &&& forall|k: int| 0 <= k < n ==> 0 <= #[trigger] p[k] < n
    &&& forall|k: int, l: int| 0 <= k < l < n ==> p[k] != p[l]
}

/// The sessions, most recently active first.
pub fn sessions_by_recency(sessions: &Vec<SessionSummary>) -> (r: Vec<SessionSummary>)
    ensures
        exists|p: Seq<int>|
            is_permutation(p, sessions.len() as int) && r.len() == sessions.len()
                && (forall|k: int| 0 <= k < r.len() ==> #[trigger] r@[k]@ == sessions@[p[k]]@)
                && (forall|k: int, l: int| 0 <= k < l < r.len() ==> goes_before(sessions@, #[trigger] p[k], #[trigger] p[l])),
{
    let n = sessions.len();
    let mut taken: Vec<bool> = Vec::new();
    let mut t: usize = 0;
    while t < n
        invariant
            t <= n,
            taken.len() == t,
            forall|k: int| 0 <= k < t ==> !taken@[k],
        decreases n - t,
    {
        taken.push(false);
        t += 1;
    }
    let mut out: Vec<SessionSummary> = Vec::new();
    let ghost mut p: Seq<int> = Seq::empty();
    let mut round: usize = 0;
    while round < n
        invariant
            round <= n,
            n == sessions.len(),
            taken.len() == n,
            out.len() == round,
            p.len() == round,
            forall|k: int| 0 <= k < round ==> 0 <= #[trigger] p[k] < n,
            forall|k: int, l: int| 0 <= k < l < round ==> p[k] != p[l],
            forall|i: int| 0 <= i < n ==> (taken@[i] <==> exists|k: int| 0 <= k < round && p[k] == i),
            forall|k: int| 0 <= k < round ==> #[trigger] out@[k]@ == sessions@[p[k]]@,
            forall|k: int, l: int| 0 <= k < l < round ==> goes_before(sessions@, #[trigger] p[k], #[trigger] p[l]),
            forall|k: int, i: int| 0 <= k < round && 0 <= i < n && !taken@[i] ==> #[trigger] goes_before(sessions@, p[k], i),
        decreases n - round,
    {
        // the untaken session that goes first
        let mut best: usize = n;
        let mut i: usize = 0;
        while i < n
            invariant
                i <= n,
                n == sessions.len(),
                taken.len() == n,
                best == n || (best < i && !taken@[best as int]),
                forall|j: int| 0 <= j < i && !taken@[j] && j != best ==> goes_before(sessions@, best as int, j),
                best == n ==> forall|j: int| 0 <= j < i ==> taken@[j],
            decreases n - i,
        {
            if !taken[i] {
                if best == n {
                    best = i;
                } else if sessions[i].last_active >= sessions[best].last_active {
                    proof {
                        assert forall|j: int| 0 <= j < i + 1 && !taken@[j] && j != i implies goes_before(sessions@, i as int, j) by {
                            if j != best {
                                assert(goes_before(sessions@, best as int, j));
                            }
                        }
                    }
                    best = i;
                }
            }
            i += 1;
        }
        if best == n {
            proof {
                lemma_all_taken(p, n as int, round as int);
                let i = choose|i: int| 0 <= i < n && #[trigger] not_listed(p, round as int, i);
                assert(taken@[i]);
                let k = choose|k: int| 0 <= k < round && p[k] == i;
                assert(p[k] != i);
            }
            assert(false);
        }
        out.push(sessions[best].copied());
        let ghost old_p = p;
        let ghost old_taken = taken@;
        proof {
            let b = best as int;
            assert forall|k: int| 0 <= k < round implies #[trigger] p[k] != b by {
                if p[k] == b {
                    assert(old_taken[b]);
                }
            }
            p = p.push(b);
        }
        taken.set(best, true);
        round += 1;
        proof {
            let b = best as int;
            assert forall|i: int| 0 <= i < n implies (taken@[i] <==> exists|k: int| 0 <= k < round && p[k] == i) by {
                if i == b {
                    assert(p[round - 1] == i);
                } else if taken@[i] {
                    assert(old_taken[i]);
                    let k = choose|k: int| 0 <= k < round - 1 && old_p[k] == i;
                    assert(p[k] == i);
                } else {
                    if exists|k: int| 0 <= k < round && p[k] == i {
                        let k = choose|k: int| 0 <= k < round && p[k] == i;
                        assert(k != round - 1);
                        assert(old_p[k] == i);
                    }
                }
            }
            assert forall|k: int| 0 <= k < round implies #[trigger] out@[k]@ == sessions@[p[k]]@ by {
                if k < round - 1 {
                    assert(p[k] == old_p[k]);
                }
            }
            assert forall|k: int, l: int| 0 <= k < l < round implies goes_before(sessions@, #[trigger] p[k], #[trigger] p[l]) by {
                assert(p[k] == old_p[k]);
                if l < round - 1 {
                    assert(p[l] == old_p[l]);
                } else {
                    assert(!old_taken[b]);
                }
            }
            assert forall|k: int, i: int| 0 <= k < round && 0 <= i < n && !taken@[i] implies #[trigger] goes_before(sessions@, p[k], i) by {
                assert(i != b);
                assert(!old_taken[i]);
                if k < round - 1 {
                    assert(p[k] == old_p[k]);
                }
            }
        }
    }
    proof {
        assert(is_permutation(p, n as int));
    }
    out
}

/// No entry of the first `m` is `i`.
pub open spec fn not_listed(p: Seq<int>, m: int, i: int) -> bool {
    forall|k: int| 0 <= k < m ==> p[k] != i
}

/// A sequence of `m` distinct positions below `n` with `m < n` misses one.
proof fn lemma_all_taken(p: Seq<int>, n: int, m: int)
    requires
        0 <= m < n,
        p.len() == m,
        forall|k: int| 0 <= k < m ==> 0 <= #[trigger] p[k] < n,
        forall|k: int, l: int| 0 <= k < l < m ==> p[k] != p[l],
    ensures
        exists|i: int| 0 <= i < n && #[trigger] not_listed(p, m, i),
{
    let s = Set::new(|x: int| exists|k: int| 0 <= k < m && p[k] == x);
    let full = vstd::set_lib::set_int_range(0, n);
    lemma_image_size(p, m);
    vstd::set_lib::lemma_int_range(0, n);
    if forall|i: int| 0 <= i < n ==> !#[trigger] not_listed(p, m, i) {
        assert forall|i: int| full.contains(i) implies s.contains(i) by {
            assert(!not_listed(p, m, i));
        }
        assert(full.subset_of(s));
        vstd::set_lib::lemma_len_subset(full, s);
    }
}

/// The set of values of a sequence of distinct entries has its length.
proof fn lemma_image_size(p: Seq<int>, m: int)
    requires
        0 <= m,
        p.len() == m,
        forall|k: int, l: int| 0 <= k < l < m ==> p[k] != p[l],
    ensures
        Set::new(|x: int| exists|k: int| 0 <= k < m && p[k] == x).finite(),
        Set::new(|x: int| exists|k: int| 0 <= k < m && p[k] == x).len() == m,
    decreases m,
{
    let s = Set::new(|x: int| exists|k: int| 0 <= k < m && p[k] == x);
    if m == 0 {
        assert(s =~= Set::empty());
    } else {
        let q = p.drop_last();
        lemma_image_size(q, m - 1);
        let t = Set::new(|x: int| exists|k: int| 0 <= k < m - 1 && q[k] == x);
        assert(s =~= t.insert(p[m - 1])) by {
            assert forall|x: int| s.contains(x) implies t.insert(p[m - 1]).contains(x) by {
                let k = choose|k: int| 0 <= k < m && p[k] == x;
                if k < m - 1 {
                    assert(q[k] == x);
                }
            }
            assert forall|x: int| t.insert(p[m - 1]).contains(x) implies s.contains(x) by {
                if x != p[m - 1] {
                    let k = choose|k: int| 0 <= k < m - 1 && q[k] == x;
                    assert(p[k] == x);
                }
            }
        }
        assert(!t.contains(p[m - 1])) by {
            if t.contains(p[m - 1]) {
                let k = choose|k: int| 0 <= k < m - 1 && q[k] == p[m - 1];
                assert(p[k] == p[m - 1]);
            }
        }
    }
}

// ---------------------------------------------------------------------------
// The project paths a conversation mentions
// ---------------------------------------------------------------------------

/// The paths that tie a conversation to a project, in the order they are
/// compared: its workspace, then the path of each action of each message.
pub open spec fn mentioned_paths(c: ConversationView) -> Seq<Seq<char>> {
    seq![c.metadata.workspace] + action_paths(c.messages)
}

pub open spec fn action_paths(ms: Seq<MessageView>) -> Seq<Seq<char>>
    decreases ms.len(),
{
    if ms.len() == 0 {
        Seq::empty()
    } else {
        action_paths(ms.drop_last()) + paths_of(ms.last().actions)
    }
}

pub open spec fn paths_of(a: Seq<crate::memory::ActionView>) -> Seq<Seq<char>>
    decreases a.len(),
{
    if a.len() == 0 {
        Seq::empty()
    } else {
        paths_of(a.drop_last()) + match a.last().path {
            Some(p) => seq![p],
            None => Seq::empty(),
        }
    }
}

/// Lists the paths that tie a conversation to a project.
pub fn related_paths(c: &Conversation) -> (r: Vec<String>)
    ensures
        r@.map_values(|s: String| s@) == mentioned_paths(c@),
{
    let mut out: Vec<String> = Vec::new();
    out.push(c.metadata.workspace.clone());
    let ghost ms = messages_view(c.messages@);
    let mut i: usize = 0;
    proof {
        assert(ms.subrange(0, 0) =~= Seq::<MessageView>::empty());
        assert(out@.map_values(|s: String| s@) =~= seq![c@.metadata.workspace] + action_paths(ms.subrange(0, 0)));
    }
    while i < c.messages.len()
        invariant
            i <= c.messages.len(),
            ms == messages_view(c.messages@),
            out@.map_values(|s: String| s@) == seq![c@.metadata.workspace] + action_paths(ms.subrange(0, i as int)),
        decreases c.messages.len() - i,
    {
        let acts = &c.messages[i].actions;
        let ghost av = actions_view(acts@);
        let ghost start = out@.map_values(|s: String| s@);
        let mut j: usize = 0;
        proof {
            assert(av.subrange(0, 0) =~= Seq::<crate::memory::ActionView>::empty());
            assert(start + paths_of(av.subrange(0, 0)) =~= start);
        }
        while j < acts.len()
            invariant
                j <= acts.len(),
                av == actions_view(acts@),
                out@.map_values(|s: String| s@) == start + paths_of(av.subrange(0, j as int)),
            decreases acts.len() - j,
        {
            let ghost before = out@.map_values(|s: String| s@);
            proof {
                let pre = av.subrange(0, j as int + 1);
                assert(pre.drop_last() =~= av.subrange(0, j as int));
                assert(pre.last() == acts@[j as int]@);
            }
            match &acts[j].path {
                Some(p) => {
                    out.push(p.clone());
                    proof {
                        assert(out@.map_values(|s: String| s@) =~= before.push(p@));
                        assert(before.push(p@) =~= start + paths_of(av.subrange(0, j as int + 1)));
                    }
                },
                None => {
                    proof {
                        assert(before =~= start + paths_of(av.subrange(0, j as int + 1)));
                    }
                },
            }
            j += 1;
        }
        proof {
            assert(av.subrange(0, acts.len() as int) =~= av);
            let pre = ms.subrange(0, i as int + 1);
            assert(pre.drop_last() =~= ms.subrange(0, i as int));
            assert(pre.last() == c.messages@[i as int]@);
            assert(pre.last().actions == av);
        }
        i += 1;
    }
    proof {
        assert(ms.subrange(0, c.messages.len() as int) =~= ms);
    }
    out
}

} // verus!
