//! Labels, summaries and filters shown by the desktop panels: the agent's
//! status pill, the memory browser, the sync selection and the task list.
use crate::circuit_breaker::CircuitState;
use crate::memory::{MessageView, SessionSummary, SyncPayload};
use crate::error::MentalOSError;
use crate::task_tracker::{
    first_with_id, has_id, tasks_view, with_status, Task, TaskPriority, TaskStatus, TaskTracker, TaskView,
};
use crate::text::{
    chars_of, concat2, contains_text, decimal, decimal_string, opt_text, str_contains, str_eq,
    to_lowercase, trim_str, trimmed, unicode_lower,
};
use vstd::prelude::*;
use vstd::string::*;

verus! {

// ---------------------------------------------------------------------------
// The status pill
// ---------------------------------------------------------------------------

/// What the agent is doing, as the pill shows it.
#[derive(Debug, Clone, Copy, PartialEq, Eq, Structural)]
pub enum AiState {
    Sleep,
    Active,
    Agentic,
    Learn,
}

impl AiState {
    /// The style class of the state.
    pub fn css_class(&self) -> (r: &'static str)
        ensures
            r@ == match *self {
                AiState::Sleep => "state-sleep"@,
                AiState::Active => "state-active"@,
                AiState::Agentic => "state-agentic"@,
                AiState::Learn => "state-learn"@,
            },
    {
        match self {
            AiState::Sleep => "state-sleep",
            AiState::Active => "state-active",
            AiState::Agentic => "state-agentic",
            AiState::Learn => "state-learn",
        }
    }

    /// The icon of the state.
    pub fn icon_label(&self) -> (r: &'static str)
        ensures
            r@ == match *self {
                AiState::Sleep => "\u{26aa}"@,
                AiState::Active => "\u{1f535}"@,
                AiState::Agentic => "\u{1f52e}"@,
                AiState::Learn => "\u{1f7e0}"@,
            },
    {
        match self {
            AiState::Sleep => "\u{26aa}",
            AiState::Active => "\u{1f535}",
            AiState::Agentic => "\u{1f52e}",
            AiState::Learn => "\u{1f7e0}",
        }
    }
}

/// The icon that replaces the state's while the provider's breaker is not
/// closed.
pub fn circuit_state_icon(state: CircuitState) -> (r: Option<&'static str>)
    ensures
        match state {
            CircuitState::Closed => r is None,
            CircuitState::Open => r matches Some(s) && s@ == "\u{1f534}"@,
            CircuitState::HalfOpen => r matches Some(s) && s@ == "\u{1f7e1}"@,
        },
{
    match state {
        CircuitState::Closed => None,
        CircuitState::Open => Some("\u{1f534}"),
        CircuitState::HalfOpen => Some("\u{1f7e1}"),
    }
}

// ---------------------------------------------------------------------------
// The memory browser
// ---------------------------------------------------------------------------

/// "Showing N session(s)".
pub open spec fn session_summary_text(count: nat) -> Seq<char> {
    if count == 1 {
        "Showing 1 session"@
    } else {
        "Showing "@ + decimal(count) + " sessions"@
    }
}

pub fn format_session_summary(count: usize) -> (r: String)
    ensures
        r@ == session_summary_text(count as nat),
{
    if count == 1 {
        String::from_str("Showing 1 session")
    } else {
        let n = decimal_string(count as u64);
        crate::text::concat3("Showing ", n.as_str(), " sessions")
    }
}

/// The summary over a filtered list of sessions.
pub fn format_filtered_summary(filtered: usize, total: usize) -> (r: String)
    ensures
        r@ == if total == 0 {
            "No sessions found"@
        } else if filtered == total {
            session_summary_text(total as nat)
        } else {
            "Showing "@ + decimal(filtered as nat) + " of "@ + decimal(total as nat) + " sessions"@
        },
{
    if total == 0 {
        String::from_str("No sessions found")
    } else if filtered == total {
        format_session_summary(total)
    } else {
        let f = decimal_string(filtered as u64);
        let t = decimal_string(total as u64);
        let mut r = String::from_str("Showing ");
        r.append(f.as_str());
        r.append(" of ");
        r.append(t.as_str());
        r.append(" sessions");
        r
    }
}

/// Whether a session's title, category or id contains the lower-cased
/// query, case aside; an empty query matches every session.
pub open spec fn session_matches(s: SessionSummary, q: Seq<char>) -> bool {
    q.len() == 0 || contains_text(
        unicode_lower(
            match s.title {
                Some(t) => t@,
                None => Seq::empty(),
            },
        ),
        q,
    ) || contains_text(unicode_lower(s.category@), q) || contains_text(unicode_lower(s.session_id@), q)
}

pub fn matches_session_query(session: &SessionSummary, query_lower: &str) -> (b: bool)
    ensures
        b == session_matches(*session, query_lower@),
{
    if query_lower.is_empty() {
        return true;
    }
    let raw = match &session.title {
        Some(t) => t.clone(),
        None => String::new(),
    };
    let title = to_lowercase(raw.as_str());
    if str_contains(title.as_str(), query_lower) {
        return true;
    }
    let c = to_lowercase(session.category.as_str());
    if str_contains(c.as_str(), query_lower) {
        return true;
    }
    let i = to_lowercase(session.session_id.as_str());
    str_contains(i.as_str(), query_lower)
}

/// Whether some message of a conversation contains the lower-cased query,
/// case aside.
pub open spec fn content_matches(ms: Seq<MessageView>, q: Seq<char>) -> bool {
    exists|i: int| 0 <= i < ms.len() && contains_text(unicode_lower(#[trigger] ms[i].content), q)
}

/// Whether a session matches a query by its summary or, failing that, by
/// the text of its messages (`messages` is the stored conversation, if it
/// could be read).
pub fn matches_session_query_with_content(
    session: &SessionSummary,
    messages: Option<&Vec<crate::memory::Message>>,
    query_lower: &str,
) -> (b: bool)
    ensures
        b == (session_matches(*session, query_lower@) || match messages {
            Some(m) => content_matches(crate::memory::messages_view(m@), query_lower@),
            None => false,
        }),
{
    if matches_session_query(session, query_lower) {
        return true;
    }
    match messages {
        None => false,
        Some(m) => {
            let ghost ms = crate::memory::messages_view(m@);
            let mut i: usize = 0;
            while i < m.len()
                invariant
                    i <= m.len(),
                    messages == Some(m),
                    !session_matches(*session, query_lower@),
                    ms == crate::memory::messages_view(m@),
                    forall|j: int| 0 <= j < i ==> !contains_text(unicode_lower(#[trigger] ms[j].content), query_lower@),
                decreases m.len() - i,
            {
                let l = to_lowercase(m[i].content.as_str());
                if str_contains(l.as_str(), query_lower) {
                    proof {
                        assert(ms[i as int].content == m@[i as int].content@);
                        assert(contains_text(unicode_lower(ms[i as int].content), query_lower@));
                    }
                    return true;
                }
                i += 1;
            }
            false
        },
    }
}

/// The positions `0..n` except `skip`, in order.
pub open spec fn indices_except(n: int, skip: Option<int>) -> Seq<int>
    decreases n,
{
    if n <= 0 {
        Seq::empty()
    } else {
        let r = indices_except(n - 1, skip);
        if skip == Some(n - 1) {
            r
        } else {
            r.push(n - 1)
        }
    }
}

pub open spec fn first_index_of(ids: Seq<Seq<char>>, a: Seq<char>, i: int) -> Option<int>
    decreases ids.len() - i,
{
    if i < 0 || i >= ids.len() {
        None
    } else if ids[i] == a {
        Some(i)
    } else {
        first_index_of(ids, a, i + 1)
    }
}

/// The order in which sessions are listed: the active one first, the others
/// as they come.
pub open spec fn session_order(ids: Seq<Seq<char>>, active: Option<Seq<char>>) -> Seq<int> {
    let k = match active {
        Some(a) => first_index_of(ids, a, 0),
        None => None,
    };
    match k {
        None => indices_except(ids.len() as int, None),
        Some(x) => seq![x] + indices_except(ids.len() as int, Some(x)),
    }
}

pub open spec fn summary_ids(s: Seq<SessionSummary>) -> Seq<Seq<char>> {
    s.map_values(|x: SessionSummary| x.session_id@)
}

pub open spec fn as_ints(v: Seq<usize>) -> Seq<int> {
    v.map_values(|i: usize| i as int)
}

/// The positions of the sessions in the order they are listed.
pub fn ordered_sessions(sessions: &Vec<SessionSummary>, active_session_id: Option<&str>) -> (r: Vec<usize>)
    ensures
        as_ints(r@) == session_order(
            summary_ids(sessions@),
            match active_session_id {
                Some(a) => Some(a@),
                None => None,
            },
        ),
{
    let ghost ids = summary_ids(sessions@);
    let mut found: Option<usize> = None;
    match active_session_id {
        Some(a) => {
            let mut i: usize = 0;
            while i < sessions.len() && found.is_none()
                invariant
                    i <= sessions.len(),
                    ids == summary_ids(sessions@),
                    found is None ==> first_index_of(ids, a@, 0) == first_index_of(ids, a@, i as int),
                    found matches Some(k) ==> first_index_of(ids, a@, 0) == Some(k as int),
                decreases sessions.len() - i,
            {
                if str_eq(sessions[i].session_id.as_str(), a) {
                    found = Some(i);
                }
                i += 1;
            }
        },
        None => {},
    }
    let ghost skip: Option<int> = match found {
        Some(k) => Some(k as int),
        None => None,
    };
    let mut r: Vec<usize> = Vec::new();
    match found {
        Some(k) => {
            r.push(k);
        },
        None => {},
    }
    let ghost head = as_ints(r@);
    let mut i: usize = 0;
    while i < sessions.len()
        invariant
            i <= sessions.len(),
            skip == match found {
                Some(k) => Some(k as int),
                None => None::<int>,
            },
            as_ints(r@) == head + indices_except(i as int, skip),
        decreases sessions.len() - i,
    {
        let keep = match found {
            Some(k) => k != i,
            None => true,
        };
        if keep {
            let ghost before = r@;
            r.push(i);
            proof {
                assert(as_ints(r@) == as_ints(before).push(i as int));
            }
        }
        i += 1;
    }
    r
}

/// The most sessions the memory browser lists at once.
pub const MAX_LISTED_SESSIONS: usize = 30;

/// The positions, in listing order, of the sessions that match (`matched`
/// tells it for each session by its position).
pub open spec fn matching(order: Seq<int>, matched: Seq<bool>) -> Seq<int>
    decreases order.len(),
{
    if order.len() == 0 {
        Seq::empty()
    } else {
        let r = matching(order.drop_last(), matched);
        if matched[order.last()] {
            r.push(order.last())
        } else {
            r
        }
    }
}

/// At most the first thirty.
pub open spec fn capped(s: Seq<int>) -> Seq<int> {
    if s.len() > 30 {
        s.take(30)
    } else {
        s
    }
}

/// The sessions the memory browser lists: in listing order, those that
/// match the query, at most thirty.
pub fn listed_sessions(order: &Vec<usize>, matched: &Vec<bool>) -> (r: Vec<usize>)
    requires
        forall|i: int| 0 <= i < order@.len() ==> (#[trigger] order@[i]) < matched@.len(),
    ensures
        as_ints(r@) == capped(matching(as_ints(order@), matched@)),
{
    let ghost o = as_ints(order@);
    let mut r: Vec<usize> = Vec::new();
    let mut i: usize = 0;
    while i < order.len()
        invariant
            i <= order@.len(),
            o == as_ints(order@),
            forall|j: int| 0 <= j < order@.len() ==> (#[trigger] order@[j]) < matched@.len(),
            as_ints(r@) == capped(matching(o.take(i as int), matched@)),
        decreases order.len() - i,
    {
        let k = order[i];
        let ghost m = matching(o.take(i as int), matched@);
        proof {
            assert(o.take(i as int + 1).drop_last() =~= o.take(i as int));
            assert(o.take(i as int + 1).last() == k as int);
        }
        if matched[k] {
            if r.len() < MAX_LISTED_SESSIONS {
                let ghost before = r@;
                r.push(k);
                proof {
                    assert(as_ints(r@) =~= as_ints(before).push(k as int));
                }
            } else {
                proof {
                    assert(m.push(k as int).take(30) =~= m.take(30));
                }
            }
        }
        i += 1;
    }
    proof {
        assert(o.take(order@.len() as int) =~= o);
    }
    r
}

/// Every session the memory browser lists matches the query, no session is
/// listed twice when the listing order names each once, and at most thirty
/// are listed.
pub proof fn law_listed_sessions_match(order: Seq<int>, matched: Seq<bool>)
    ensures
        capped(matching(order, matched)).len() <= 30,
        forall|j: int|
            0 <= j < capped(matching(order, matched)).len() ==> matched[#[trigger] capped(
                matching(order, matched),
            )[j]],
        order.no_duplicates() ==> capped(matching(order, matched)).no_duplicates(),
    decreases order.len(),
{
    lemma_matching_members(order, matched);
}

proof fn lemma_matching_members(order: Seq<int>, matched: Seq<bool>)
    ensures
        forall|j: int| 0 <= j < matching(order, matched).len() ==> matched[#[trigger] matching(order, matched)[j]],
        forall|j: int|
            0 <= j < matching(order, matched).len() ==> order.contains(#[trigger] matching(order, matched)[j]),
        order.no_duplicates() ==> matching(order, matched).no_duplicates(),
    decreases order.len(),
{
    if order.len() > 0 {
        let init = order.drop_last();
        lemma_matching_members(init, matched);
        let r = matching(init, matched);
        assert forall|j: int| 0 <= j < r.len() implies order.contains(#[trigger] r[j]) by {
            let k = choose|k: int| 0 <= k < init.len() && init[k] == r[j];
            assert(order[k] == r[j]);
        }
        if order.no_duplicates() {
            assert(init.no_duplicates()) by {
                assert forall|a: int, b: int| 0 <= a < init.len() && 0 <= b < init.len() && a != b implies init[a]
                    != init[b] by {
                    assert(order[a] == init[a] && order[b] == init[b]);
                }
            }
            assert(!init.contains(order.last())) by {
                if init.contains(order.last()) {
                    let k = choose|k: int| 0 <= k < init.len() && init[k] == order.last();
                    assert(order[k] == order[order.len() - 1]);
                }
            }
            assert(!r.contains(order.last())) by {
                if r.contains(order.last()) {
                    let k = choose|k: int| 0 <= k < r.len() && r[k] == order.last();
                    assert(init.contains(r[k]));
                }
            }
        }
        assert(order.last() == order[order.len() - 1]);
    }
}

/// The heading of a listed session: its title, or "Session" and its id.
pub fn session_row_title(session: &SessionSummary) -> (r: String)
    ensures
        r@ == match session.title {
            Some(t) => t@,
            None => "Session "@ + session.session_id@,
        },
{
    match &session.title {
        Some(t) => t.clone(),
        None => concat2("Session ", session.session_id.as_str()),
    }
}

/// What the memory browser says when it lists nothing.
pub fn empty_sessions_message(query: &str) -> (r: String)
    ensures
        trimmed(query@).len() == 0 ==> r@ == "No conversations saved yet."@,
        trimmed(query@).len() != 0 ==> r@ == "No sessions found for '"@ + query@ + "'."@,
{
    let t = trim_str(query);
    if t.as_str().unicode_len() == 0 {
        String::from_str("No conversations saved yet.")
    } else {
        crate::text::concat3("No sessions found for '", query, "'.")
    }
}

/// The labels of the buttons that resume and delete the current session:
/// resuming names its title (or its id), deleting names its id.
pub fn current_session_labels(session: &SessionSummary) -> (r: (String, String))
    ensures
        r.0@ == "Resume current: "@ + match session.title {
            Some(t) => t@,
            None => session.session_id@,
        },
        r.1@ == "Delete current: "@ + session.session_id@,
{
    let resume = match &session.title {
        Some(t) => concat2("Resume current: ", t.as_str()),
        None => concat2("Resume current: ", session.session_id.as_str()),
    };
    (resume, concat2("Delete current: ", session.session_id.as_str()))
}

// ---------------------------------------------------------------------------
// The sync selection
// ---------------------------------------------------------------------------

/// The day of a `YYYY-MM-DD` date (days since 0001-01-01, that day being
/// 1), as `chrono::NaiveDate` reads it; `None` when it does not parse.
pub uninterp spec fn iso_date_days(text: Seq<char>, fmt: Seq<char>) -> Option<i32>;

/// Calls `chrono::NaiveDate::parse_from_str` and reads
/// `num_days_from_ce`; the result is named `iso_date_days`.
#[verifier::external_body]
fn parse_date_days(text: &str, fmt: &str) -> (r: Option<i32>)
    ensures
        r == iso_date_days(text@, fmt@),
{
    chrono::NaiveDate::parse_from_str(text, fmt).ok().map(|d| chrono::Datelike::num_days_from_ce(&d))
}

/// The UTC day of a time (days since 0001-01-01, that day being 1), as
/// `chrono` gives it; `None` outside the range of `chrono::DateTime`.
pub uninterp spec fn utc_day(millis: i64) -> Option<i32>;

/// Calls `chrono::DateTime::from_timestamp_millis`, `date_naive` and
/// `num_days_from_ce`; the result is named `utc_day`.
#[verifier::external_body]
fn utc_day_of(millis: i64) -> (r: Option<i32>)
    ensures
        r == utc_day(millis),
{
    chrono::DateTime::from_timestamp_millis(millis).map(|d| chrono::Datelike::num_days_from_ce(&d.date_naive()))
}

/// A date typed in the filter: the trimmed text read as `YYYY-MM-DD`;
/// nothing for a blank field.
pub fn parse_date_filter(value: &str) -> (r: Option<i32>)
    ensures
        r == if trimmed(value@).len() == 0 {
            None
        } else {
            iso_date_days(trimmed(value@), "%Y-%m-%d"@)
        },
{
    let t = trim_str(value);
    if t.as_str().is_empty() {
        return None;
    }
    parse_date_days(t.as_str(), "%Y-%m-%d")
}

/// Whether a session was created within the chosen days (bounds included).
pub fn session_matches_date_range(session: &SessionSummary, from_date: Option<i32>, to_date: Option<i32>) -> (b: bool)
    ensures
        b == match utc_day(session.created_at) {
            None => true,
            Some(d) => (match from_date {
                Some(f) => d >= f,
                None => true,
            }) && (match to_date {
                Some(t) => d <= t,
                None => true,
            }),
        },
{
    let created = match utc_day_of(session.created_at) {
        Some(d) => d,
        None => {
            return true;
        },
    };
    if let Some(from) = from_date {
        if created < from {
            return false;
        }
    }
    if let Some(to) = to_date {
        if created > to {
            return false;
        }
    }
    true
}

/// Whether a session was created within the chosen days, as
/// `session_matches_date_range` decides.
pub open spec fn in_days(s: SessionSummary, from_date: Option<i32>, to_date: Option<i32>) -> bool {
    match utc_day(s.created_at) {
        None => true,
        Some(d) => (match from_date {
            Some(f) => d >= f,
            None => true,
        }) && (match to_date {
            Some(t) => d <= t,
            None => true,
        }),
    }
}

/// A session's row in the sync selection: whether it goes into the sync,
/// and whether it is kept on this machine only.
#[derive(Debug, Clone)]
pub struct SyncRow {
    pub category: String,
    pub session_id: String,
    pub synced: bool,
    pub local_only: bool,
}

pub struct SyncRowView {
    pub category: Seq<char>,
    pub session_id: Seq<char>,
    pub synced: bool,
    pub local_only: bool,
}

impl View for SyncRow {
    type V = SyncRowView;

    open spec fn view(&self) -> SyncRowView {
        SyncRowView {
            category: self.category@,
            session_id: self.session_id@,
            synced: self.synced,
            local_only: self.local_only,
        }
    }
}

pub open spec fn rows_view(r: Seq<SyncRow>) -> Seq<SyncRowView> {
    r.map_values(|x: SyncRow| x@)
}

/// The row of a session: included exactly when it is not local-only.
pub open spec fn row_of(s: SessionSummary) -> SyncRowView {
    SyncRowView { category: s.category@, session_id: s.session_id@, synced: !s.local_only, local_only: s.local_only }
}

/// The rows of the sessions created within the chosen days, in order.
pub open spec fn rows_in_days(ss: Seq<SessionSummary>, from_date: Option<i32>, to_date: Option<i32>) -> Seq<SyncRowView>
    decreases ss.len(),
{
    if ss.len() == 0 {
        Seq::empty()
    } else {
        let r = rows_in_days(ss.drop_last(), from_date, to_date);
        if in_days(ss.last(), from_date, to_date) {
            r.push(row_of(ss.last()))
        } else {
            r
        }
    }
}

/// The rows of the sync selection for the sessions created within the
/// chosen days; see `rows_in_days`.
pub fn sync_rows(sessions: &Vec<SessionSummary>, from_date: Option<i32>, to_date: Option<i32>) -> (r: Vec<SyncRow>)
    ensures
        rows_view(r@) == rows_in_days(sessions@, from_date, to_date),
{
    let mut r: Vec<SyncRow> = Vec::new();
    let mut i: usize = 0;
    while i < sessions.len()
        invariant
            i <= sessions@.len(),
            rows_view(r@) == rows_in_days(sessions@.take(i as int), from_date, to_date),
        decreases sessions.len() - i,
    {
        proof {
            assert(sessions@.take(i as int + 1).drop_last() =~= sessions@.take(i as int));
            assert(sessions@.take(i as int + 1).last() == sessions@[i as int]);
        }
        let s = &sessions[i];
        if session_matches_date_range(s, from_date, to_date) {
            let ghost before = r@;
            r.push(
                SyncRow {
                    category: s.category.clone(),
                    session_id: s.session_id.clone(),
                    synced: !s.local_only,
                    local_only: s.local_only,
                },
            );
            proof {
                assert(rows_view(r@) =~= rows_view(before).push(row_of(sessions@[i as int])));
            }
        }
        i += 1;
    }
    proof {
        assert(sessions@.take(sessions@.len() as int) =~= sessions@);
    }
    r
}

impl SyncRow {
    /// Ticks or unticks "Local only": a local-only session leaves the sync.
    pub fn set_local_only(&mut self, local_only: bool)
        ensures
            final(self).local_only == local_only,
            final(self).synced == (old(self).synced && !local_only),
            final(self).category == old(self).category,
            final(self).session_id == old(self).session_id,
    {
        self.local_only = local_only;
        if local_only {
            self.synced = false;
        }
    }

    /// Ticks or unticks "Sync": a session ticked for the sync is no longer
    /// local-only.
    pub fn set_synced(&mut self, synced: bool)
        ensures
            final(self).synced == synced,
            final(self).local_only == (old(self).local_only && !synced),
            final(self).category == old(self).category,
            final(self).session_id == old(self).session_id,
    {
        self.synced = synced;
        if synced {
            self.local_only = false;
        }
    }
}

/// The (category, session id) of the rows ticked for the sync, in order.
pub open spec fn synced_pairs(rows: Seq<SyncRowView>) -> Seq<(Seq<char>, Seq<char>)>
    decreases rows.len(),
{
    if rows.len() == 0 {
        Seq::empty()
    } else {
        let r = synced_pairs(rows.drop_last());
        if rows.last().synced {
            r.push((rows.last().category, rows.last().session_id))
        } else {
            r
        }
    }
}

pub open spec fn pairs_view(p: Seq<(String, String)>) -> Seq<(Seq<char>, Seq<char>)> {
    p.map_values(|x: (String, String)| (x.0@, x.1@))
}

/// The (category, session id) of the rows ticked for the sync.
pub fn selected_pairs(rows: &Vec<SyncRow>) -> (r: Vec<(String, String)>)
    ensures
        pairs_view(r@) == synced_pairs(rows_view(rows@)),
{
    let mut r: Vec<(String, String)> = Vec::new();
    let mut i: usize = 0;
    while i < rows.len()
        invariant
            i <= rows@.len(),
            pairs_view(r@) == synced_pairs(rows_view(rows@.take(i as int))),
        decreases rows.len() - i,
    {
        proof {
            assert(rows_view(rows@.take(i as int + 1)).drop_last() =~= rows_view(rows@.take(i as int)));
            assert(rows_view(rows@.take(i as int + 1)).last() == rows@[i as int]@);
        }
        if rows[i].synced {
            let ghost before = r@;
            r.push((rows[i].category.clone(), rows[i].session_id.clone()));
            proof {
                assert(pairs_view(r@) =~= pairs_view(before).push((rows@[i as int].category@, rows@[i as int].session_id@)));
            }
        }
        i += 1;
    }
    proof {
        assert(rows@.take(rows@.len() as int) =~= rows@);
    }
    r
}

/// How many rows are kept local-only.
pub open spec fn local_only_rows(rows: Seq<SyncRowView>) -> nat
    decreases rows.len(),
{
    if rows.len() == 0 {
        0
    } else {
        local_only_rows(rows.drop_last()) + if rows.last().local_only {
            1nat
        } else {
            0nat
        }
    }
}

proof fn lemma_local_only_rows_bound(rows: Seq<SyncRowView>)
    ensures
        local_only_rows(rows) <= rows.len(),
    decreases rows.len(),
{
    if rows.len() > 0 {
        lemma_local_only_rows_bound(rows.drop_last());
    }
}

/// The line under the sync selection: how many sessions are shown and how
/// many of them are local-only; or, when none is shown, that none matches
/// the dates.
pub fn sync_rows_status(rows: &Vec<SyncRow>) -> (r: String)
    ensures
        rows@.len() == 0 ==> r@ == "No sessions match date filters."@,
        rows@.len() != 0 ==> r@ == "Showing "@ + decimal(rows@.len() as nat) + " sessions. Local-only: "@ + decimal(
            local_only_rows(rows_view(rows@)),
        ) + "."@,
{
    if rows.len() == 0 {
        return String::from_str("No sessions match date filters.");
    }
    let mut k: usize = 0;
    let mut i: usize = 0;
    while i < rows.len()
        invariant
            i <= rows@.len(),
            k == local_only_rows(rows_view(rows@.take(i as int))),
            k <= i,
        decreases rows.len() - i,
    {
        proof {
            assert(rows_view(rows@.take(i as int + 1)).drop_last() =~= rows_view(rows@.take(i as int)));
            assert(rows_view(rows@.take(i as int + 1)).last() == rows@[i as int]@);
        }
        if rows[i].local_only {
            k += 1;
        }
        i += 1;
    }
    proof {
        assert(rows@.take(rows@.len() as int) =~= rows@);
    }
    let n = decimal_string(rows.len() as u64);
    let kk = decimal_string(k as u64);
    let mut r = crate::text::concat3("Showing ", n.as_str(), " sessions. Local-only: ");
    r.append(kk.as_str());
    r.append(".");
    r
}

/// What the sync selection reports after building the payload for the
/// ticked sessions.
pub fn sync_selection_status(selected: usize, payload: &SyncPayload) -> (r: String)
    ensures
        r@ == "Selected "@ + decimal(selected as nat) + ". Sync-eligible: "@ + decimal(
            payload.conversations@.len() as nat,
        ) + ". Local-only excluded: "@ + decimal(payload.skipped_local_only as nat) + ". Redactions applied: "@
            + decimal(payload.redactions as nat) + "."@,
{
    let mut r = concat2("Selected ", decimal_string(selected as u64).as_str());
    r.append(". Sync-eligible: ");
    r.append(decimal_string(payload.conversations.len() as u64).as_str());
    r.append(". Local-only excluded: ");
    r.append(decimal_string(payload.skipped_local_only as u64).as_str());
    r.append(". Redactions applied: ");
    r.append(decimal_string(payload.redactions as u64).as_str());
    r.append(".");
    r
}

/// What the sync selection reports after writing an export to a file.
pub fn sync_export_status(exported: usize, path: &str, skipped_local_only: usize, redactions: usize) -> (r: String)
    ensures
        r@ == "Exported "@ + decimal(exported as nat) + " conversations to "@ + path@ + " (local-only excluded: "@
            + decimal(skipped_local_only as nat) + ", redactions: "@ + decimal(redactions as nat) + ")."@,
{
    let mut r = concat2("Exported ", decimal_string(exported as u64).as_str());
    r.append(" conversations to ");
    r.append(path);
    r.append(" (local-only excluded: ");
    r.append(decimal_string(skipped_local_only as u64).as_str());
    r.append(", redactions: ");
    r.append(decimal_string(redactions as u64).as_str());
    r.append(").");
    r
}

// ---------------------------------------------------------------------------
// The task list
// ---------------------------------------------------------------------------

pub fn status_label(status: &TaskStatus) -> (r: &'static str)
    ensures
        r@ == match *status {
            TaskStatus::Pending => "pending"@,
            TaskStatus::Completed => "completed"@,
            TaskStatus::Cancelled => "cancelled"@,
        },
{
    match status {
        TaskStatus::Pending => "pending",
        TaskStatus::Completed => "completed",
        TaskStatus::Cancelled => "cancelled",
    }
}

pub fn priority_label(task: &Task) -> (r: &'static str)
    ensures
        r@ == match task.priority {
            TaskPriority::Low => "low"@,
            TaskPriority::Medium => "medium"@,
            TaskPriority::High => "high"@,
            TaskPriority::Critical => "critical"@,
        },
{
    match task.priority {
        TaskPriority::Low => "low",
        TaskPriority::Medium => "medium",
        TaskPriority::High => "high",
        TaskPriority::Critical => "critical",
    }
}

/// The status a task's button switches it to: a pending task is done, any
/// other is pending again.
pub open spec fn toggled(s: TaskStatus) -> TaskStatus {
    if s == TaskStatus::Pending {
        TaskStatus::Completed
    } else {
        TaskStatus::Pending
    }
}

/// The status a task's button switches it to; see `toggled`.
pub fn toggled_status(status: &TaskStatus) -> (r: TaskStatus)
    ensures
        r == toggled(*status),
{
    match status {
        TaskStatus::Pending => TaskStatus::Completed,
        _ => TaskStatus::Pending,
    }
}

/// The label of a task's button: "Done" while it is pending, else "Reopen".
pub fn toggle_button_label(status: &TaskStatus) -> (r: &'static str)
    ensures
        *status == TaskStatus::Pending ==> r@ == "Done"@,
        *status != TaskStatus::Pending ==> r@ == "Reopen"@,
{
    proof {
        reveal_strlit("Done");
        reveal_strlit("Reopen");
    }
    match status {
        TaskStatus::Pending => "Done",
        _ => "Reopen",
    }
}

/// What the task list says when it holds no task.
pub fn no_tasks_message() -> (r: &'static str)
    ensures
        r@ == "No tasks captured yet."@,
{
    proof {
        reveal_strlit("No tasks captured yet.");
    }
    "No tasks captured yet."
}

proof fn lemma_first_with_id_unique(t: Seq<TaskView>, id: Seq<char>, i: int, j: int)
    requires
        first_with_id(t, id, i),
        first_with_id(t, id, j),
    ensures
        i == j,
{
    if i < j {
        assert(t[i].id == id);
    } else if j < i {
        assert(t[j].id == id);
    }
}

/// Switches a task between pending and done, as its button does: the first
/// task with the id gets the toggled status; nothing changes when no task
/// has the id.
pub fn toggle_task(tracker: &mut TaskTracker, id: &str) -> (r: Result<Option<Task>, MentalOSError>)
    ensures
        final(tracker).file() == old(tracker).file(),
        match r {
            Ok(Some(t)) => exists|i: int|
                first_with_id(old(tracker).tasks(), id@, i) && final(tracker).tasks() == old(tracker).tasks().update(
                    i,
                    with_status(old(tracker).tasks()[i], toggled(old(tracker).tasks()[i].status)),
                ) && t@ == with_status(old(tracker).tasks()[i], toggled(old(tracker).tasks()[i].status)),
            Ok(None) => !has_id(old(tracker).tasks(), id@) && final(tracker).tasks() == old(tracker).tasks(),
            Err(_) => false,
        },
{
    let current = tracker.get_task(id);
    match current {
        None => Ok(None),
        Some(t) => {
            let ghost before = tracker.tasks();
            let ghost k = choose|i: int| first_with_id(before, id@, i) && t@ == before[i];
            let s = toggled_status(&t.status);
            let r = tracker.update_status(id, s);
            proof {
                match r {
                    Ok(Some(_)) => {
                        let j = choose|i: int|
                            first_with_id(before, id@, i) && tracker.tasks() == before.update(i, with_status(before[i], s));
                        lemma_first_with_id_unique(before, id@, j, k);
                    },
                    Ok(None) => {
                        assert(before[k].id == id@);
                    },
                    Err(_) => {},
                }
            }
            r
        },
    }
}

/// The counts shown above the task list.
pub fn summarize_tasks(tasks: &Vec<Task>) -> (r: String)
    ensures
        r@ == "Total: "@ + decimal(tasks@.len()) + " | Pending: "@ + decimal(
            tasks_view(tasks@).filter(|t: TaskView| t.status == TaskStatus::Pending).len(),
        ) + " | Completed: "@ + decimal(
            tasks_view(tasks@).filter(|t: TaskView| t.status == TaskStatus::Completed).len(),
        ),
{
    let ghost all = tasks_view(tasks@);
    let ghost fp = |t: TaskView| t.status == TaskStatus::Pending;
    let ghost fc = |t: TaskView| t.status == TaskStatus::Completed;
    let mut pending: usize = 0;
    let mut done: usize = 0;
    let mut i: usize = 0;
    proof {
        reveal(Seq::filter);
        assert(all.subrange(0, 0).filter(fp).len() == 0);
        assert(all.subrange(0, 0).filter(fc).len() == 0);
    }
    while i < tasks.len()
        invariant
            i <= tasks.len(),
            all == tasks_view(tasks@),
            fp == (|t: TaskView| t.status == TaskStatus::Pending),
            fc == (|t: TaskView| t.status == TaskStatus::Completed),
            pending == all.subrange(0, i as int).filter(fp).len(),
            done == all.subrange(0, i as int).filter(fc).len(),
            pending <= i,
            done <= i,
        decreases tasks.len() - i,
    {
        let ghost pre = all.subrange(0, i as int + 1);
        proof {
            assert(pre.drop_last() == all.subrange(0, i as int));
            assert(pre.last() == all[i as int]);
            reveal(Seq::filter);
        }
        if tasks[i].status == TaskStatus::Pending {
            pending += 1;
        }
        if tasks[i].status == TaskStatus::Completed {
            done += 1;
        }
        i += 1;
    }
    proof {
        assert(all.subrange(0, all.len() as int) == all);
    }
    let mut r = String::from_str("Total: ");
    let t = decimal_string(tasks.len() as u64);
    r.append(t.as_str());
    r.append(" | Pending: ");
    let p = decimal_string(pending as u64);
    r.append(p.as_str());
    r.append(" | Completed: ");
    let d = decimal_string(done as u64);
    r.append(d.as_str());
    r
}

// ---------------------------------------------------------------------------
// The shortcut settings and the app bar
// ---------------------------------------------------------------------------

/// The style of the settings' status line.
pub fn status_class_for_result(ok: bool) -> (r: &'static str)
    ensures
        r@ == if ok {
            "shortcut-status-ok"@
        } else {
            "shortcut-status-error"@
        },
{
    if ok {
        "shortcut-status-ok"
    } else {
        "shortcut-status-error"
    }
}

/// The style of an entry that holds an invalid shortcut.
pub fn validation_entry_css_class(valid: bool) -> (r: Option<&'static str>)
    ensures
        valid ==> r is None,
        !valid ==> (r matches Some(s) && s@ == "shortcut-entry-error"@),
{
    if valid {
        None
    } else {
        Some("shortcut-entry-error")
    }
}

pub fn memory_button_label() -> (r: &'static str)
    ensures
        r@ == "Memory"@,
{
    "Memory"
}

pub fn new_chat_button_label() -> (r: &'static str)
    ensures
        r@ == "New chat"@,
{
    "New chat"
}


// ---------------------------------------------------------------------------
// Picking sessions in the memory browser
// ---------------------------------------------------------------------------

/// Whether the active-session marker of a session's category names it.
pub open spec fn marked_active(s: SessionSummary, marker: Option<String>) -> bool {
    match marker {
        Some(m) => m@ != "NEW"@ && m@ == s.session_id@,
        None => false,
    }
}

/// The session marked active, given the marker of each session's category
/// (`None` where there is none): the first session its marker names.
pub fn detect_active_session_id(sessions: &Vec<SessionSummary>, markers: &Vec<Option<String>>) -> (r: Option<String>)
    requires
        markers.len() == sessions.len(),
    ensures
        match r {
            Some(id) => exists|k: int|
                0 <= k < sessions.len() && marked_active(sessions@[k], markers@[k]) && id@ == sessions@[k].session_id@
                    && forall|j: int| 0 <= j < k ==> !marked_active(sessions@[j], markers@[j]),
            None => forall|j: int| 0 <= j < sessions.len() ==> !marked_active(sessions@[j], markers@[j]),
        },
{
    proof {
        reveal_strlit("NEW");
    }
    let mut i: usize = 0;
    while i < sessions.len()
        invariant
            i <= sessions.len(),
            markers.len() == sessions.len(),
            forall|j: int| 0 <= j < i ==> !marked_active(sessions@[j], markers@[j]),
        decreases sessions.len() - i,
    {
        match &markers[i] {
            Some(m) => {
                if !str_eq(m.as_str(), "NEW") && str_eq(m.as_str(), sessions[i].session_id.as_str()) {
                    return Some(m.clone());
                }
            },
            None => {},
        }
        i += 1;
    }
    None
}

/// The first listed session with the given id.
pub fn find_session(sessions: &Vec<SessionSummary>, session_id: &str) -> (r: Option<SessionSummary>)
    ensures
        match r {
            Some(s) => exists|k: int|
                0 <= k < sessions.len() && sessions@[k].session_id@ == session_id@ && s@ == sessions@[k]@
                    && forall|j: int| 0 <= j < k ==> sessions@[j].session_id@ != session_id@,
            None => forall|j: int| 0 <= j < sessions.len() ==> sessions@[j].session_id@ != session_id@,
        },
{
    let mut i: usize = 0;
    while i < sessions.len()
        invariant
            i <= sessions.len(),
            forall|j: int| 0 <= j < i ==> sessions@[j].session_id@ != session_id@,
        decreases sessions.len() - i,
    {
        if str_eq(sessions[i].session_id.as_str(), session_id) {
            return Some(sessions[i].copied());
        }
        i += 1;
    }
    None
}

} // verus!
