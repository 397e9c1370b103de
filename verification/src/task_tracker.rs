//! Tasks found in conversation text ("remind me to …", "TODO …") and kept
//! with a status, a priority and an optional due date.
//!
//! Times are milliseconds since the Unix epoch.
use crate::config::{joined_path, path_join};
use crate::error::MentalOSError;
use crate::pattern::{
    all_groups_view, group, group_at, group_texts, groups_view, opt_text_eq, regex_captures,
    regex_captures_all, regex_compiles, Pattern,
};
use crate::text::{
    all_ascii_digits_value, chars_of, concat2, contains_text, decimal_value, has_prefix, is_ascii_digit, opt_text, str_contains, str_eq,
    to_lowercase, trim_str, trimmed, unicode_lower,
};
use vstd::prelude::*;

verus! {

#[derive(Debug, Clone, Copy, PartialEq, Eq, Structural)]
pub enum TaskStatus {
    Pending,
    Completed,
    Cancelled,
}

#[derive(Debug, Clone, Copy, PartialEq, Eq, Structural)]
pub enum TaskPriority {
    Low,
    Medium,
    High,
    Critical,
}

#[derive(Debug, Clone)]
pub struct Task {
    pub id: String,
    pub description: String,
    pub created_at: i64,
    pub status: TaskStatus,
    pub priority: TaskPriority,
    pub due_date: Option<i64>,
    pub related_conversation: Option<String>,
    pub related_project: Option<String>,
}

/// A task as values.
pub struct TaskView {
    pub id: Seq<char>,
    pub description: Seq<char>,
    pub created_at: i64,
    pub status: TaskStatus,
    pub priority: TaskPriority,
    pub due_date: Option<i64>,
    pub related_conversation: Option<Seq<char>>,
    pub related_project: Option<Seq<char>>,
}

impl View for Task {
    type V = TaskView;

    open spec fn view(&self) -> TaskView {
        TaskView {
            id: self.id@,
            description: self.description@,
            created_at: self.created_at,
            status: self.status,
            priority: self.priority,
            due_date: self.due_date,
            related_conversation: opt_text(self.related_conversation),
            related_project: opt_text(self.related_project),
        }
    }
}

pub open spec fn tasks_view(s: Seq<Task>) -> Seq<TaskView> {
    s.map_values(|t: Task| t@)
}

fn copy_opt(o: &Option<String>) -> (r: Option<String>)
    ensures
        opt_text(r) == opt_text(*o),
{
    match o {
        Some(s) => Some(s.clone()),
        None => None,
    }
}

impl Task {
    /// A copy of the task, field by field.
    pub fn copied(&self) -> (t: Task)
        ensures
            t@ == self@,
    {
        Task {
            id: self.id.clone(),
            description: self.description.clone(),
            created_at: self.created_at,
            status: self.status,
            priority: self.priority,
            due_date: self.due_date,
            related_conversation: copy_opt(&self.related_conversation),
            related_project: copy_opt(&self.related_project),
        }
    }
}

/// All tasks, in the order they were added.
#[derive(Debug, Clone)]
pub struct TaskStore {
    pub tasks: Vec<Task>,
}

impl Default for TaskStore {
    fn default() -> (s: Self)
        ensures
            s.tasks@.len() == 0,
    {
        TaskStore { tasks: Vec::new() }
    }
}

// ---------------------------------------------------------------------------
// Priorities and due dates
// ---------------------------------------------------------------------------

/// The priority a phrase names: words for "critical" win over "high", which
/// wins over "low"; anything else is medium. Case does not matter.
pub open spec fn priority_of(text: Seq<char>) -> TaskPriority {
    let l = unicode_lower(text);
    if contains_text(l, "critical"@) || contains_text(l, "urgent"@) || contains_text(l, "asap"@) {
        TaskPriority::Critical
    } else if contains_text(l, "high"@) {
        TaskPriority::High
    } else if contains_text(l, "low"@) {
        TaskPriority::Low
    } else {
        TaskPriority::Medium
    }
}

/// The priority a phrase names.
pub fn parse_priority(text: &str) -> (p: TaskPriority)
    ensures
        p == priority_of(text@),
{
    let lower = to_lowercase(text);
    let l = lower.as_str();
    proof {
        reveal_strlit("critical");
        reveal_strlit("urgent");
        reveal_strlit("asap");
        reveal_strlit("high");
        reveal_strlit("low");
    }
    if str_contains(l, "critical") || str_contains(l, "urgent") || str_contains(l, "asap") {
        TaskPriority::Critical
    } else if str_contains(l, "high") {
        TaskPriority::High
    } else if str_contains(l, "low") {
        TaskPriority::Low
    } else {
        TaskPriority::Medium
    }
}

pub const MINUTE_MILLIS: i64 = 60_000;
pub const HOUR_MILLIS: i64 = 3_600_000;
pub const DAY_MILLIS: i64 = 86_400_000;
pub const WEEK_MILLIS: i64 = 604_800_000;
pub const MONTH_MILLIS: i64 = 2_592_000_000;

/// The length of one time unit named in a relative date (a month counts
/// thirty days).
pub open spec fn unit_millis(u: Seq<char>) -> Option<i64> {
    if u == "minute"@ || u == "minutes"@ {
        Some(MINUTE_MILLIS)
    } else if u == "hour"@ || u == "hours"@ {
        Some(HOUR_MILLIS)
    } else if u == "day"@ || u == "days"@ {
        Some(DAY_MILLIS)
    } else if u == "week"@ || u == "weeks"@ {
        Some(WEEK_MILLIS)
    } else if u == "month"@ || u == "months"@ {
        Some(MONTH_MILLIS)
    } else {
        None
    }
}

fn unit_of(u: &str) -> (r: Option<i64>)
    ensures
        r == unit_millis(u@),
{
    proof {
        reveal_strlit("minute");
        reveal_strlit("minutes");
        reveal_strlit("hour");
        reveal_strlit("hours");
        reveal_strlit("day");
        reveal_strlit("days");
        reveal_strlit("week");
        reveal_strlit("weeks");
        reveal_strlit("month");
        reveal_strlit("months");
    }
    if str_eq(u, "minute") || str_eq(u, "minutes") {
        Some(MINUTE_MILLIS)
    } else if str_eq(u, "hour") || str_eq(u, "hours") {
        Some(HOUR_MILLIS)
    } else if str_eq(u, "day") || str_eq(u, "days") {
        Some(DAY_MILLIS)
    } else if str_eq(u, "week") || str_eq(u, "weeks") {
        Some(WEEK_MILLIS)
    } else if str_eq(u, "month") || str_eq(u, "months") {
        Some(MONTH_MILLIS)
    } else {
        None
    }
}

/// What `i64::from_str` accepts: an optional sign, then one or more ASCII
/// digits whose value fits in an `i64`.
pub open spec fn parses_i64(s: Seq<char>) -> Option<int> {
    if s.len() > 0 && s[0] == '-' {
        match all_ascii_digits_value(s.drop_first()) {
            Some(v) if v <= 0x8000_0000_0000_0000 => Some(-v),
            _ => None,
        }
    } else {
        let d = if s.len() > 0 && s[0] == '+' {
            s.drop_first()
        } else {
            s
        };
        match all_ascii_digits_value(d) {
            Some(v) if v <= i64::MAX => Some(v as int),
            _ => None,
        }
    }
}

/// `str::parse::<i64>`.
pub fn parse_i64(s: &str) -> (r: Option<i64>)
    ensures
        match parses_i64(s@) {
            Some(v) => r == Some(v as i64),
            None => r is None,
        },
{
    let v = chars_of(s);
    let neg = v.len() > 0 && v[0] == '-';
    let start: usize = if v.len() > 0 && (v[0] == '-' || v[0] == '+') {
        1
    } else {
        0
    };
    let ghost d = v@.subrange(start as int, v@.len() as int);
    proof {
        if v@.len() > 0 && (v@[0] == '-' || v@[0] == '+') {
            assert(d == v@.drop_first());
        } else {
            assert(d == v@);
        }
    }
    if start >= v.len() {
        return None;
    }
    // the magnitude, held at `cap` once it passes what any i64 can hold
    let cap: u64 = 0x8000_0000_0000_0001;
    let mut acc: u64 = 0;
    let mut i: usize = start;
    proof {
        assert(v@.subrange(start as int, start as int).len() == 0);
    }
    while i < v.len()
        invariant
            start <= i <= v.len(),
            start < v.len(),
            d == v@.subrange(start as int, v@.len() as int),
            v@ == s@,
            neg == (v@.len() > 0 && v@[0] == '-'),
            d == (if v@.len() > 0 && (v@[0] == '-' || v@[0] == '+') {
                v@.drop_first()
            } else {
                v@
            }),
            cap == 0x8000_0000_0000_0001u64,
            forall|j: int| start <= j < i ==> is_ascii_digit(#[trigger] v@[j]),
            acc == (if decimal_value(v@.subrange(start as int, i as int)) <= cap {
                decimal_value(v@.subrange(start as int, i as int))
            } else {
                cap as nat
            }),
        decreases v.len() - i,
    {
        let c = v[i];
        let ghost p = v@.subrange(start as int, i as int + 1);
        proof {
            assert(p.drop_last() == v@.subrange(start as int, i as int));
            assert(p.last() == c);
        }
        if !('0' <= c && c <= '9') {
            proof {
                assert(d[i - start] == c);
                assert(!is_ascii_digit(d[i - start]));
            }
            return None;
        }
        let digit = (c as u32 - '0' as u32) as u64;
        if acc >= cap || acc > 1_000_000_000_000_000_000 {
            acc = cap;
        } else {
            let next = acc * 10 + digit;
            acc = if next > cap {
                cap
            } else {
                next
            };
        }
        i += 1;
    }
    proof {
        assert(v@.subrange(start as int, v@.len() as int) == d);
        assert(all_ascii_digits_value(d) == Some(decimal_value(d)));
    }
    if neg {
        if acc > 0x8000_0000_0000_0000 {
            None
        } else if acc == 0x8000_0000_0000_0000 {
            Some(i64::MIN)
        } else {
            Some(0 - (acc as i64))
        }
    } else {
        if acc > 0x7fff_ffff_ffff_ffff {
            None
        } else {
            Some(acc as i64)
        }
    }
}

/// The pattern of a relative date: a count and a unit ("3 days").
pub open spec fn relative_date_pattern() -> Seq<char> {
    "(\\d+)\\s*(day|week|hour|minute|month)s?"@
}

/// How far ahead a relative date lies, read from already lower-cased text: a
/// count and unit first; failing that "tomorrow", "today" or "next week".
/// `None` when a count does not parse or the span does not fit in an `i64`.
pub open spec fn relative_millis(t: Seq<char>) -> Option<i64> {
    if !regex_compiles(relative_date_pattern()) {
        None
    } else {
        match regex_captures(relative_date_pattern(), t) {
            Some(c) => match (group(c, 1), group(c, 2)) {
                (Some(n), Some(u)) => match parses_i64(n) {
                    Some(v) => match unit_millis(unicode_lower(u)) {
                        Some(m) => if i64::MIN <= v * m <= i64::MAX {
                            Some((v * m) as i64)
                        } else {
                            None
                        },
                        None => None,
                    },
                    None => None,
                },
                _ => None,
            },
            None => if contains_text(t, "tomorrow"@) {
                Some(DAY_MILLIS)
            } else if contains_text(t, "today"@) {
                Some(0i64)
            } else if contains_text(t, "next week"@) {
                Some(WEEK_MILLIS)
            } else {
                None
            },
        }
    }
}

/// How far ahead a relative date lies.
pub fn parse_relative_date(text: &str) -> (r: Option<i64>)
    ensures
        r == relative_millis(text@),
{
    let pattern = "(\\d+)\\s*(day|week|hour|minute|month)s?";
    let p = match Pattern::compile(pattern) {
        Some(p) => p,
        None => {
            return None;
        },
    };
    proof {
        reveal_strlit("tomorrow");
        reveal_strlit("today");
        reveal_strlit("next week");
    }
    match p.captures(text) {
        Some(c) => {
            let n = crate::pattern::group_at(&c, 1);
            let u = crate::pattern::group_at(&c, 2);
            match (n, u) {
                (Some(n), Some(u)) => match parse_i64(n.as_str()) {
                    Some(v) => {
                        let lu = to_lowercase(u.as_str());
                        match unit_of(lu.as_str()) {
                            Some(m) => {
                                proof {
                                    assert(0 < m <= 2_592_000_000);
                                    let vi = v as int;
                                    let mi = m as int;
                                    assert(-0x8000_0000_0000_0000 * 2_592_000_000 <= vi * mi <= 0x8000_0000_0000_0000 * 2_592_000_000) by (nonlinear_arith)
                                        requires
                                            -0x8000_0000_0000_0000 <= vi <= 0x8000_0000_0000_0000,
                                            0 < mi <= 2_592_000_000,
                                    ;
                                }
                                let prod: i128 = (v as i128) * (m as i128);
                                if i64::MIN as i128 <= prod && prod <= i64::MAX as i128 {
                                    Some(prod as i64)
                                } else {
                                    None
                                }
                            },
                            None => None,
                        }
                    },
                    None => None,
                },
                _ => None,
            }
        },
        None => {
            if str_contains(text, "tomorrow") {
                Some(DAY_MILLIS)
            } else if str_contains(text, "today") {
                Some(0)
            } else if str_contains(text, "next week") {
                Some(WEEK_MILLIS)
            } else {
                None
            }
        },
    }
}

/// The time an RFC 3339 text names, as `chrono::DateTime::parse_from_rfc3339`
/// reads it; `None` when it does not parse.
pub uninterp spec fn rfc3339_millis(text: Seq<char>) -> Option<i64>;

/// Calls `chrono::DateTime::parse_from_rfc3339` and reads the UTC instant
/// in milliseconds; the result is named `rfc3339_millis`.
#[verifier::external_body]
fn parse_rfc3339_millis(text: &str) -> (r: Option<i64>)
    ensures
        r == rfc3339_millis(text@),
{
    chrono::DateTime::parse_from_rfc3339(text).ok().map(|d| d.with_timezone(&chrono::Utc).timestamp_millis())
}

/// The UTC time a text names in the given `strftime` format, as
/// `chrono::NaiveDateTime::parse_from_str` reads it; `None` when it does not
/// parse.
pub uninterp spec fn naive_parsed_millis(text: Seq<char>, fmt: Seq<char>) -> Option<i64>;

/// Calls `chrono::NaiveDateTime::parse_from_str` and reads the result as a UTC
/// instant in milliseconds; the result is named `naive_parsed_millis`.
#[verifier::external_body]
fn parse_naive_millis(text: &str, fmt: &str) -> (r: Option<i64>)
    ensures
        r == naive_parsed_millis(text@, fmt@),
{
    chrono::NaiveDateTime::parse_from_str(text, fmt).ok().map(|d| d.and_utc().timestamp_millis())
}

/// The format of a date with a time to the minute.
pub open spec fn date_minute_format() -> Seq<char> {
    "%Y-%m-%d %H:%M"@
}

/// The due date a phrase names, `now` being the current time: a relative
/// date (read from the lower-cased phrase) counts from `now`; otherwise an
/// RFC 3339 date, otherwise a `YYYY-MM-DD HH:MM` date taken as UTC.
pub open spec fn due_millis(text: Seq<char>, now: i64) -> Option<i64> {
    match relative_millis(unicode_lower(text)) {
        Some(d) => if i64::MIN <= now + d <= i64::MAX {
            Some((now + d) as i64)
        } else {
            None
        },
        None => match rfc3339_millis(text) {
            Some(m) => Some(m),
            None => naive_parsed_millis(text, date_minute_format()),
        },
    }
}

/// The due date a phrase names.
pub fn parse_due_date(text: &str, now: i64) -> (r: Option<i64>)
    ensures
        r == due_millis(text@, now),
{
    let lower = to_lowercase(text);
    match parse_relative_date(lower.as_str()) {
        Some(d) => {
            let t: i128 = (now as i128) + (d as i128);
            if i64::MIN as i128 <= t && t <= i64::MAX as i128 {
                Some(t as i64)
            } else {
                None
            }
        },
        None => match parse_rfc3339_millis(text) {
            Some(m) => Some(m),
            None => {
                let f = "%Y-%m-%d %H:%M";
                parse_naive_millis(text, f)
            },
        },
    }
}

/// A UTC time written in a `strftime` format by `chrono` (`None` outside the
/// range of `chrono::DateTime`).
pub uninterp spec fn utc_formatted(millis: i64, fmt: Seq<char>) -> Option<Seq<char>>;

/// The format of a task id's time stamp.
pub open spec fn stamp_format() -> Seq<char> {
    "%Y%m%d%H%M%S"@
}

/// Calls `chrono::DateTime::from_timestamp_millis`, then `format` and
/// `to_string`; the result is named `utc_formatted`. Only the stamp format
/// is passed, which `chrono` always renders.
#[verifier::external_body]
fn format_utc_millis(millis: i64, fmt: &str) -> (r: Option<String>)
    requires
        fmt@ == stamp_format(),
    ensures
        opt_text(r) == utc_formatted(millis, fmt@),
{
    chrono::DateTime::from_timestamp_millis(millis).map(|d| d.format(fmt).to_string())
}

/// The id of a task created at `now`: `task-` and the UTC second.
pub open spec fn task_id_at(now: i64) -> Seq<char> {
    "task-"@ + match utc_formatted(now, stamp_format()) {
        Some(s) => s,
        None => Seq::empty(),
    }
}

/// The id of a task created at `now`.
pub fn generate_task_id(now: i64) -> (id: String)
    ensures
        id@ == task_id_at(now),
{
    let f = "%Y%m%d%H%M%S";
    proof {
        reveal_strlit("%Y%m%d%H%M%S");
        reveal_strlit("task-");
    }
    match format_utc_millis(now, f) {
        Some(s) => concat2("task-", s.as_str()),
        None => {
            let r = String::from_str("task-");
            proof {
                assert(r@ == "task-"@ + Seq::<char>::empty());
            }
            r
        },
    }
}


// ---------------------------------------------------------------------------
// Finding tasks in text
// ---------------------------------------------------------------------------

/// The phrases that introduce a task. Group 1 is the task; where the phrase
/// allows it, group 2 is a due date ("by …") and group 3 a priority
/// ("priority …").
pub open spec fn task_pattern_texts() -> Seq<Seq<char>> {
    seq![
        "(?i)(?:remind me to|remind me about|remember to)\\s+(.+?)(?:\\s+by\\s+(.+?))?(?:\\s+priority\\s+(.+?))?(?:\\.|$)"@,
        "(?i)(?:TODO|TODO:)\\s*(.+?)(?:\\s+by\\s+(.+?))?(?:\\s+priority\\s+(.+?))?(?:\\.|$)"@,
        "(?i)i need to\\s+(.+?)(?:\\s+by\\s+(.+?))?(?:\\s+priority\\s+(.+?))?(?:\\.|$)"@,
        "(?i)i should\\s+(.+?)(?:\\s+by\\s+(.+?))?(?:\\s+priority\\s+(.+?))?(?:\\.|$)"@,
        "(?i)(?:action item|action:)\\s+(.+?)(?:\\s+by\\s+(.+?))?(?:\\s+priority\\s+(.+?))?(?:\\.|$)"@,
        "(?i)don'?t forget to\\s+(.+?)(?:\\.|$)"@,
        "(?i)make sure to\\s+(.+?)(?:\\.|$)"@,
        "(?i)(?:follow up|followup)\\s+(?:on\\s+)?(.+?)(?:\\.|$)"@,
    ]
}

fn task_patterns() -> (v: Vec<&'static str>)
    ensures
        v@.len() == task_pattern_texts().len(),
        forall|i: int| 0 <= i < v@.len() ==> (#[trigger] v@[i])@ == task_pattern_texts()[i],
{
    let v = vec![
        "(?i)(?:remind me to|remind me about|remember to)\\s+(.+?)(?:\\s+by\\s+(.+?))?(?:\\s+priority\\s+(.+?))?(?:\\.|$)",
        "(?i)(?:TODO|TODO:)\\s*(.+?)(?:\\s+by\\s+(.+?))?(?:\\s+priority\\s+(.+?))?(?:\\.|$)",
        "(?i)i need to\\s+(.+?)(?:\\s+by\\s+(.+?))?(?:\\s+priority\\s+(.+?))?(?:\\.|$)",
        "(?i)i should\\s+(.+?)(?:\\s+by\\s+(.+?))?(?:\\s+priority\\s+(.+?))?(?:\\.|$)",
        "(?i)(?:action item|action:)\\s+(.+?)(?:\\s+by\\s+(.+?))?(?:\\s+priority\\s+(.+?))?(?:\\.|$)",
        "(?i)don'?t forget to\\s+(.+?)(?:\\.|$)",
        "(?i)make sure to\\s+(.+?)(?:\\.|$)",
        "(?i)(?:follow up|followup)\\s+(?:on\\s+)?(.+?)(?:\\.|$)",
    ];
    proof {
        assert(v@.len() == task_pattern_texts().len());
        assert forall|i: int| 0 <= i < v@.len() implies (#[trigger] v@[i])@ == task_pattern_texts()[i] by {
            if i == 0 {
                assert(v@[0]@ == task_pattern_texts()[0]);
            } else if i == 1 {
                assert(v@[1]@ == task_pattern_texts()[1]);
            } else if i == 2 {
                assert(v@[2]@ == task_pattern_texts()[2]);
            } else if i == 3 {
                assert(v@[3]@ == task_pattern_texts()[3]);
            } else if i == 4 {
                assert(v@[4]@ == task_pattern_texts()[4]);
            } else if i == 5 {
                assert(v@[5]@ == task_pattern_texts()[5]);
            } else if i == 6 {
                assert(v@[6]@ == task_pattern_texts()[6]);
            } else {
                assert(v@[7]@ == task_pattern_texts()[7]);
            }
        }
    }
    v
}

/// The phrases that announce a task in conversation text.
pub open spec fn task_phrases() -> Seq<Seq<char>> {
    seq![
        "remind me to"@,
        "remind me about"@,
        "remember to"@,
        "TODO"@,
        "i need to"@,
        "i should"@,
        "action item"@,
        "action:"@,
        "forget to"@,
        "make sure to"@,
        "follow up"@,
        "followup"@,
    ]
}

/// A pattern that reads a task announced by the phrase: it matches without
/// regard to case, holds the phrase, and captures the description in a
/// group `(.+?)` that comes after the phrase.
pub open spec fn introduces_task(pat: Seq<char>, phrase: Seq<char>) -> bool {
    &&& has_prefix(pat, "(?i)"@)
    &&& exists|j: int, k: int|
        4 <= j && j + phrase.len() <= k && k + 5 <= pat.len()
            && #[trigger] pat.subrange(j, j + phrase.len()) == phrase
            && #[trigger] pat.subrange(k, k + 5) == "(.+?)"@
}

/// Every phrase that announces a task ("remind me to", "remind me about",
/// "remember to", "TODO", "i need to", "i should", "action item",
/// "action:", "forget to", "make sure to", "follow up", "followup") is read
/// by one of the task patterns, case-insensitively, with the task's
/// description captured after the phrase.
pub proof fn law_task_phrases_are_read(phrase: Seq<char>)
    requires
        task_phrases().contains(phrase),
    ensures
        exists|i: int| 0 <= i < task_pattern_texts().len() && introduces_task(#[trigger] task_pattern_texts()[i], phrase),
{
    reveal_strlit("(?i)(?:remind me to|remind me about|remember to)\\s+(.+?)(?:\\s+by\\s+(.+?))?(?:\\s+priority\\s+(.+?))?(?:\\.|$)");
    reveal_strlit("(?i)(?:TODO|TODO:)\\s*(.+?)(?:\\s+by\\s+(.+?))?(?:\\s+priority\\s+(.+?))?(?:\\.|$)");
    reveal_strlit("(?i)i need to\\s+(.+?)(?:\\s+by\\s+(.+?))?(?:\\s+priority\\s+(.+?))?(?:\\.|$)");
    reveal_strlit("(?i)i should\\s+(.+?)(?:\\s+by\\s+(.+?))?(?:\\s+priority\\s+(.+?))?(?:\\.|$)");
    reveal_strlit("(?i)(?:action item|action:)\\s+(.+?)(?:\\s+by\\s+(.+?))?(?:\\s+priority\\s+(.+?))?(?:\\.|$)");
    reveal_strlit("(?i)don'?t forget to\\s+(.+?)(?:\\.|$)");
    reveal_strlit("(?i)make sure to\\s+(.+?)(?:\\.|$)");
    reveal_strlit("(?i)(?:follow up|followup)\\s+(?:on\\s+)?(.+?)(?:\\.|$)");
    reveal_strlit("remind me to");
    reveal_strlit("remind me about");
    reveal_strlit("remember to");
    reveal_strlit("TODO");
    reveal_strlit("i need to");
    reveal_strlit("i should");
    reveal_strlit("action item");
    reveal_strlit("action:");
    reveal_strlit("forget to");
    reveal_strlit("make sure to");
    reveal_strlit("follow up");
    reveal_strlit("followup");
    reveal_strlit("(?i)");
    reveal_strlit("(.+?)");
    let ps = task_phrases();
    let pats = task_pattern_texts();
    let x = choose|x: int| 0 <= x < ps.len() && ps[x] == phrase;
    if x == 0 {
        assert(pats[0].subrange(0, 4) =~= "(?i)"@);
        assert(pats[0].subrange(7, 7int + phrase.len()) =~= phrase);
        assert(pats[0].subrange(51, 51int + 5) =~= "(.+?)"@);
        assert(introduces_task(pats[0], phrase));
    } else if x == 1 {
        assert(pats[0].subrange(0, 4) =~= "(?i)"@);
        assert(pats[0].subrange(20, 20int + phrase.len()) =~= phrase);
        assert(pats[0].subrange(51, 51int + 5) =~= "(.+?)"@);
        assert(introduces_task(pats[0], phrase));
    } else if x == 2 {
        assert(pats[0].subrange(0, 4) =~= "(?i)"@);
        assert(pats[0].subrange(36, 36int + phrase.len()) =~= phrase);
        assert(pats[0].subrange(51, 51int + 5) =~= "(.+?)"@);
        assert(introduces_task(pats[0], phrase));
    } else if x == 3 {
        assert(pats[1].subrange(0, 4) =~= "(?i)"@);
        assert(pats[1].subrange(7, 7int + phrase.len()) =~= phrase);
        assert(pats[1].subrange(21, 21int + 5) =~= "(.+?)"@);
        assert(introduces_task(pats[1], phrase));
    } else if x == 4 {
        assert(pats[2].subrange(0, 4) =~= "(?i)"@);
        assert(pats[2].subrange(4, 4int + phrase.len()) =~= phrase);
        assert(pats[2].subrange(16, 16int + 5) =~= "(.+?)"@);
        assert(introduces_task(pats[2], phrase));
    } else if x == 5 {
        assert(pats[3].subrange(0, 4) =~= "(?i)"@);
        assert(pats[3].subrange(4, 4int + phrase.len()) =~= phrase);
        assert(pats[3].subrange(15, 15int + 5) =~= "(.+?)"@);
        assert(introduces_task(pats[3], phrase));
    } else if x == 6 {
        assert(pats[4].subrange(0, 4) =~= "(?i)"@);
        assert(pats[4].subrange(7, 7int + phrase.len()) =~= phrase);
        assert(pats[4].subrange(30, 30int + 5) =~= "(.+?)"@);
        assert(introduces_task(pats[4], phrase));
    } else if x == 7 {
        assert(pats[4].subrange(0, 4) =~= "(?i)"@);
        assert(pats[4].subrange(19, 19int + phrase.len()) =~= phrase);
        assert(pats[4].subrange(30, 30int + 5) =~= "(.+?)"@);
        assert(introduces_task(pats[4], phrase));
    } else if x == 8 {
        assert(pats[5].subrange(0, 4) =~= "(?i)"@);
        assert(pats[5].subrange(11, 11int + phrase.len()) =~= phrase);
        assert(pats[5].subrange(23, 23int + 5) =~= "(.+?)"@);
        assert(introduces_task(pats[5], phrase));
    } else if x == 9 {
        assert(pats[6].subrange(0, 4) =~= "(?i)"@);
        assert(pats[6].subrange(4, 4int + phrase.len()) =~= phrase);
        assert(pats[6].subrange(19, 19int + 5) =~= "(.+?)"@);
        assert(introduces_task(pats[6], phrase));
    } else if x == 10 {
        assert(pats[7].subrange(0, 4) =~= "(?i)"@);
        assert(pats[7].subrange(7, 7int + phrase.len()) =~= phrase);
        assert(pats[7].subrange(39, 39int + 5) =~= "(.+?)"@);
        assert(introduces_task(pats[7], phrase));
    } else {
        assert(pats[7].subrange(0, 4) =~= "(?i)"@);
        assert(pats[7].subrange(17, 17int + phrase.len()) =~= phrase);
        assert(pats[7].subrange(39, 39int + 5) =~= "(.+?)"@);
        assert(introduces_task(pats[7], phrase));
    }
}

/// A task found in text: its description, then the texts of its due date and
/// its priority where the phrase gave them.
pub type Candidate = (Seq<char>, Option<Seq<char>>, Option<Seq<char>>);

/// The candidate of one match: none when group 1 did not take part.
pub open spec fn capture_candidate(c: Seq<Option<Seq<char>>>) -> Option<Candidate> {
    match group(c, 1) {
        Some(d) => Some((trimmed(d), group(c, 2), group(c, 3))),
        None => None,
    }
}

/// The candidates of a run of matches, in order.
pub open spec fn candidates_of(caps: Seq<Seq<Option<Seq<char>>>>) -> Seq<Candidate>
    decreases caps.len(),
{
    if caps.len() == 0 {
        Seq::empty()
    } else {
        let rest = candidates_of(caps.drop_last());
        match capture_candidate(caps.last()) {
            Some(x) => rest.push(x),
            None => rest,
        }
    }
}

/// The candidates of every pattern in turn (a pattern that does not compile
/// gives none).
pub open spec fn all_candidates(pats: Seq<Seq<char>>, content: Seq<char>) -> Seq<Candidate>
    decreases pats.len(),
{
    if pats.len() == 0 {
        Seq::empty()
    } else {
        all_candidates(pats.drop_last(), content) + if regex_compiles(pats.last()) {
            candidates_of(regex_captures_all(pats.last(), content))
        } else {
            Seq::empty()
        }
    }
}

pub open spec fn descs(c: Seq<Candidate>) -> Seq<Seq<char>> {
    c.map_values(|x: Candidate| x.0)
}

/// The candidates without repeated descriptions: the first of each stays.
pub open spec fn first_occurrences(c: Seq<Candidate>) -> Seq<Candidate>
    decreases c.len(),
{
    if c.len() == 0 {
        c
    } else {
        let d = first_occurrences(c.drop_last());
        if descs(d).contains(c.last().0) {
            d
        } else {
            d.push(c.last())
        }
    }
}

/// The task made of a candidate, pending, created at `now`.
pub open spec fn new_task(c: Candidate, conv: Option<Seq<char>>, proj: Option<Seq<char>>, now: i64) -> TaskView {
    TaskView {
        id: task_id_at(now),
        description: c.0,
        created_at: now,
        status: TaskStatus::Pending,
        priority: match c.2 {
            Some(p) => priority_of(p),
            None => TaskPriority::Medium,
        },
        due_date: match c.1 {
            Some(t) => due_millis(t, now),
            None => None,
        },
        related_conversation: conv,
        related_project: proj,
    }
}

/// The tasks of a run of candidates.
pub open spec fn tasks_for(c: Seq<Candidate>, conv: Option<Seq<char>>, proj: Option<Seq<char>>, now: i64) -> Seq<TaskView> {
    first_occurrences(c).map_values(|x: Candidate| new_task(x, conv, proj, now))
}

/// The tasks a text announces, in the order of the patterns and, for each
/// pattern, of its matches; a description that was already found is not
/// repeated.
pub open spec fn extracted(content: Seq<char>, conv: Option<Seq<char>>, proj: Option<Seq<char>>, now: i64) -> Seq<TaskView> {
    tasks_for(all_candidates(task_pattern_texts(), content), conv, proj, now)
}

pub open spec fn opt_str(o: Option<&str>) -> Option<Seq<char>> {
    match o {
        Some(s) => Some(s@),
        None => None,
    }
}

proof fn lemma_tasks_for_push(c: Seq<Candidate>, x: Candidate, conv: Option<Seq<char>>, proj: Option<Seq<char>>, now: i64)
    ensures
        tasks_for(c.push(x), conv, proj, now) == if descs(first_occurrences(c)).contains(x.0) {
            tasks_for(c, conv, proj, now)
        } else {
            tasks_for(c, conv, proj, now).push(new_task(x, conv, proj, now))
        },
{
    let cx = c.push(x);
    assert(cx.drop_last() == c);
    assert(cx.last() == x);
    let d = first_occurrences(c);
    if !descs(d).contains(x.0) {
        assert(d.push(x).map_values(|y: Candidate| new_task(y, conv, proj, now)) == d.map_values(
            |y: Candidate| new_task(y, conv, proj, now),
        ).push(new_task(x, conv, proj, now)));
    }
}

proof fn lemma_task_descriptions(c: Seq<Candidate>, conv: Option<Seq<char>>, proj: Option<Seq<char>>, now: i64)
    ensures
        tasks_for(c, conv, proj, now).map_values(|t: TaskView| t.description) == descs(first_occurrences(c)),
{
    let t = tasks_for(c, conv, proj, now);
    let d = descs(first_occurrences(c));
    assert(t.map_values(|t: TaskView| t.description).len() == d.len());
    assert forall|k: int| 0 <= k < d.len() implies t.map_values(|t: TaskView| t.description)[k] == d[k] by {
    }
    assert(t.map_values(|t: TaskView| t.description) == d);
}

/// Whether one of the tasks has this description.
fn has_description(tasks: &Vec<Task>, d: &str) -> (b: bool)
    ensures
        b == tasks_view(tasks@).map_values(|t: TaskView| t.description).contains(d@),
{
    let ghost ds = tasks_view(tasks@).map_values(|t: TaskView| t.description);
    let mut i: usize = 0;
    while i < tasks.len()
        invariant
            i <= tasks.len(),
            ds == tasks_view(tasks@).map_values(|t: TaskView| t.description),
            forall|j: int| 0 <= j < i ==> ds[j] != d@,
        decreases tasks.len() - i,
    {
        if str_eq(tasks[i].description.as_str(), d) {
            proof {
                assert(ds[i as int] == d@);
            }
            return true;
        }
        i += 1;
    }
    false
}

fn owned(o: Option<&str>) -> (r: Option<String>)
    ensures
        opt_text(r) == opt_str(o),
{
    match o {
        Some(s) => Some(String::from_str(s)),
        None => None,
    }
}

/// The task that one match of a task pattern announces (see
/// `capture_candidate` and `new_task`): none when group 1 did not take
/// part; otherwise its trimmed description, with the due date of group 2
/// and the priority of group 3 where they took part, pending and created at
/// `now`.
pub fn task_from_captures(
    c: &Vec<Option<String>>,
    conversation_id: Option<&str>,
    project_name: Option<&str>,
    now: i64,
) -> (r: Option<Task>)
    ensures
        match capture_candidate(group_texts(*c)) {
            None => r is None,
            Some(x) => r matches Some(t) && t@ == new_task(x, opt_str(conversation_id), opt_str(project_name), now),
        },
{
    match group_at(c, 1) {
        None => None,
        Some(d) => {
            let due = match group_at(c, 2) {
                Some(t) => parse_due_date(t.as_str(), now),
                None => None,
            };
            let priority = match group_at(c, 3) {
                Some(t) => parse_priority(t.as_str()),
                None => TaskPriority::Medium,
            };
            Some(
                Task {
                    id: generate_task_id(now),
                    description: trim_str(d.as_str()),
                    created_at: now,
                    status: TaskStatus::Pending,
                    priority,
                    due_date: due,
                    related_conversation: owned(conversation_id),
                    related_project: owned(project_name),
                },
            )
        },
    }
}


// ---------------------------------------------------------------------------
// Laws of extraction
// ---------------------------------------------------------------------------

proof fn lemma_first_occurrences_distinct(c: Seq<Candidate>)
    ensures
        forall|i: int, j: int|
            0 <= i < j < first_occurrences(c).len() ==> #[trigger] first_occurrences(c)[i].0
                != #[trigger] first_occurrences(c)[j].0,
    decreases c.len(),
{
    if c.len() > 0 {
        lemma_first_occurrences_distinct(c.drop_last());
        let d = first_occurrences(c.drop_last());
        if !descs(d).contains(c.last().0) {
            let e = d.push(c.last());
            assert forall|i: int, j: int| 0 <= i < j < e.len() implies #[trigger] e[i].0 != #[trigger] e[j].0 by {
                if j == d.len() {
                    assert(descs(d)[i] == d[i].0);
                }
            }
        }
    }
}

proof fn lemma_candidate_of_match(caps: Seq<Seq<Option<Seq<char>>>>, m: int)
    requires
        0 <= m < caps.len(),
        capture_candidate(caps[m]) is Some,
    ensures
        candidates_of(caps).contains(capture_candidate(caps[m])->0),
    decreases caps.len(),
{
    let x = capture_candidate(caps[m])->0;
    let rest = candidates_of(caps.drop_last());
    if m == caps.len() - 1 {
        assert(caps.last() == caps[m]);
        assert(candidates_of(caps) == rest.push(x));
        assert(rest.push(x)[rest.len() as int] == x);
    } else {
        assert(caps.drop_last()[m] == caps[m]);
        lemma_candidate_of_match(caps.drop_last(), m);
        let k = choose|k: int| 0 <= k < rest.len() && rest[k] == x;
        match capture_candidate(caps.last()) {
            Some(y) => {
                assert(rest.push(y)[k] == x);
            },
            None => {},
        }
    }
}

proof fn lemma_candidate_of_pattern(pats: Seq<Seq<char>>, content: Seq<char>, i: int, x: Candidate)
    requires
        0 <= i < pats.len(),
        regex_compiles(pats[i]),
        candidates_of(regex_captures_all(pats[i], content)).contains(x),
    ensures
        all_candidates(pats, content).contains(x),
    decreases pats.len(),
{
    let front = all_candidates(pats.drop_last(), content);
    let back = if regex_compiles(pats.last()) {
        candidates_of(regex_captures_all(pats.last(), content))
    } else {
        Seq::empty()
    };
    assert(all_candidates(pats, content) == front + back);
    if i == pats.len() - 1 {
        assert(pats.last() == pats[i]);
        let k = choose|k: int| 0 <= k < back.len() && back[k] == x;
        assert((front + back)[front.len() + k] == x);
    } else {
        assert(pats.drop_last()[i] == pats[i]);
        lemma_candidate_of_pattern(pats.drop_last(), content, i, x);
        let k = choose|k: int| 0 <= k < front.len() && front[k] == x;
        assert((front + back)[k] == x);
    }
}

proof fn lemma_first_occurrences_keep_descriptions(c: Seq<Candidate>, x: Candidate)
    requires
        c.contains(x),
    ensures
        descs(first_occurrences(c)).contains(x.0),
    decreases c.len(),
{
    let d = first_occurrences(c.drop_last());
    if c.last() == x {
        if !descs(d).contains(x.0) {
            assert(descs(d.push(x))[d.len() as int] == x.0);
        }
    } else {
        let k = choose|k: int| 0 <= k < c.len() && c[k] == x;
        assert(k < c.len() - 1);
        assert(c.drop_last()[k] == x);
        lemma_first_occurrences_keep_descriptions(c.drop_last(), x);
        if !descs(d).contains(c.last().0) {
            let k2 = choose|k2: int| 0 <= k2 < descs(d).len() && descs(d)[k2] == x.0;
            assert(descs(d.push(c.last()))[k2] == x.0);
        }
    }
}

/// Every match of a task pattern announces a task: when the pattern
/// compiles and one of its matches in the text captures a description in
/// group 1, the tasks extracted from that text hold one whose description is
/// that capture, trimmed.
pub proof fn law_matched_phrase_gives_task(
    content: Seq<char>,
    conv: Option<Seq<char>>,
    proj: Option<Seq<char>>,
    now: i64,
    i: int,
    m: int,
)
    requires
        0 <= i < task_pattern_texts().len(),
        regex_compiles(task_pattern_texts()[i]),
        0 <= m < regex_captures_all(task_pattern_texts()[i], content).len(),
        group(regex_captures_all(task_pattern_texts()[i], content)[m], 1) is Some,
    ensures
        extracted(content, conv, proj, now).map_values(|t: TaskView| t.description).contains(
            trimmed(group(regex_captures_all(task_pattern_texts()[i], content)[m], 1)->0),
        ),
{
    let pats = task_pattern_texts();
    let caps = regex_captures_all(pats[i], content);
    let x = capture_candidate(caps[m])->0;
    lemma_candidate_of_match(caps, m);
    lemma_candidate_of_pattern(pats, content, i, x);
    let all = all_candidates(pats, content);
    lemma_first_occurrences_keep_descriptions(all, x);
    lemma_task_descriptions(all, conv, proj, now);
}

/// One call never yields two tasks with the same description.
pub proof fn law_extracted_descriptions_distinct(content: Seq<char>, conv: Option<Seq<char>>, proj: Option<Seq<char>>, now: i64)
    ensures
        forall|i: int, j: int|
            0 <= i < j < extracted(content, conv, proj, now).len() ==> #[trigger] extracted(
                content,
                conv,
                proj,
                now,
            )[i].description != #[trigger] extracted(content, conv, proj, now)[j].description,
{
    lemma_first_occurrences_distinct(all_candidates(task_pattern_texts(), content));
}

/// Every task found is pending, created at `now` with the id of that time,
/// and tied to the given conversation and project.
pub proof fn law_extracted_tasks_are_pending_and_related(content: Seq<char>, conv: Option<Seq<char>>, proj: Option<Seq<char>>, now: i64)
    ensures
        forall|i: int|
            0 <= i < extracted(content, conv, proj, now).len() ==> {
                let t = #[trigger] extracted(content, conv, proj, now)[i];
                &&& t.status == TaskStatus::Pending
                &&& t.created_at == now
                &&& t.id == task_id_at(now)
                &&& t.related_conversation == conv
                &&& t.related_project == proj
            },
{
}

// ---------------------------------------------------------------------------
// Queries on a list of tasks
// ---------------------------------------------------------------------------

/// `i` is the first task with this id.
pub open spec fn first_with_id(t: Seq<TaskView>, id: Seq<char>, i: int) -> bool {
    0 <= i < t.len() && t[i].id == id && forall|j: int| 0 <= j < i ==> #[trigger] t[j].id != id
}

pub open spec fn has_id(t: Seq<TaskView>, id: Seq<char>) -> bool {
    exists|i: int| 0 <= i < t.len() && #[trigger] t[i].id == id
}

pub open spec fn with_status(t: TaskView, s: TaskStatus) -> TaskView {
    TaskView { status: s, ..t }
}

/// The tasks with the status.
pub open spec fn of_status(t: Seq<TaskView>, s: TaskStatus) -> Seq<TaskView> {
    t.filter(|x: TaskView| x.status == s)
}

/// The tasks of the project.
pub open spec fn of_project(t: Seq<TaskView>, p: Seq<char>) -> Seq<TaskView> {
    t.filter(|x: TaskView| x.related_project == Some(p))
}

/// The tasks without this id.
pub open spec fn without_id(t: Seq<TaskView>, id: Seq<char>) -> Seq<TaskView> {
    t.filter(|x: TaskView| x.id != id)
}

/// The position of the first task with this id.
fn position_of(tasks: &Vec<Task>, id: &str) -> (r: Option<usize>)
    ensures
        match r {
            Some(i) => first_with_id(tasks_view(tasks@), id@, i as int),
            None => !has_id(tasks_view(tasks@), id@),
        },
{
    let ghost t = tasks_view(tasks@);
    let mut i: usize = 0;
    while i < tasks.len()
        invariant
            i <= tasks.len(),
            t == tasks_view(tasks@),
            forall|j: int| 0 <= j < i ==> #[trigger] t[j].id != id@,
        decreases tasks.len() - i,
    {
        if str_eq(tasks[i].id.as_str(), id) {
            return Some(i);
        }
        i += 1;
    }
    None
}

/// Copies of the tasks that `keep` selects, in order.
fn select(tasks: &Vec<Task>, Ghost(keep): Ghost<spec_fn(TaskView) -> bool>, status: Option<TaskStatus>, project: Option<&str>) -> (r: Vec<Task>)
    requires
        forall|x: TaskView| #[trigger] keep(x) == (match status {
            Some(s) => x.status == s,
            None => true,
        } && match project {
            Some(p) => x.related_project == Some(p@),
            None => true,
        }),
    ensures
        tasks_view(r@) == tasks_view(tasks@).filter(keep),
{
    let ghost all = tasks_view(tasks@);
    let mut out: Vec<Task> = Vec::new();
    let mut i: usize = 0;
    proof {
        reveal(Seq::filter);
        assert(all.subrange(0, 0).filter(keep) == Seq::<TaskView>::empty());
    }
    while i < tasks.len()
        invariant
            i <= tasks.len(),
            all == tasks_view(tasks@),
            forall|x: TaskView| #[trigger] keep(x) == (match status {
                Some(s) => x.status == s,
                None => true,
            } && match project {
                Some(p) => x.related_project == Some(p@),
                None => true,
            }),
            tasks_view(out@) == all.subrange(0, i as int).filter(keep),
        decreases tasks.len() - i,
    {
        let ghost pre = all.subrange(0, i as int + 1);
        proof {
            assert(pre.drop_last() == all.subrange(0, i as int));
            assert(pre.last() == all[i as int]);
            reveal(Seq::filter);
        }
        let t = &tasks[i];
        let status_ok = match status {
            Some(s) => t.status == s,
            None => true,
        };
        let project_ok = match project {
            Some(p) => match &t.related_project {
                Some(q) => str_eq(q.as_str(), p),
                None => false,
            },
            None => true,
        };
        proof {
            assert(keep(all[i as int]) == (status_ok && project_ok));
        }
        if status_ok && project_ok {
            let c = t.copied();
            let ghost before = out@;
            out.push(c);
            proof {
                assert(out@ == before.push(c));
                assert(tasks_view(out@) == tasks_view(before).push(c@));
            }
        }
        i += 1;
    }
    proof {
        assert(all.subrange(0, all.len() as int) == all);
    }
    out
}

// ---------------------------------------------------------------------------
// The tracker
// ---------------------------------------------------------------------------

/// The place of the task file under a workspace directory.
pub open spec fn tasks_file_for(dir: Seq<char>) -> Seq<char> {
    joined_path(joined_path(dir, ".memory"@), "tasks.json"@)
}

/// Keeps the tasks of a workspace.
pub struct TaskTracker {
    tasks_path: String,
    store: TaskStore,
}

impl TaskTracker {
    pub closed spec fn tasks(&self) -> Seq<TaskView> {
        tasks_view(self.store.tasks@)
    }

    pub closed spec fn file(&self) -> Seq<char> {
        self.tasks_path@
    }

    /// The task file of a workspace: `.memory/tasks.json` under it.
    pub fn tasks_path_for(workspace_dir: &str) -> (p: String)
        ensures
            p@ == tasks_file_for(workspace_dir@),
    {
        let memory = path_join(workspace_dir, ".memory");
        path_join(memory.as_str(), "tasks.json")
    }

    /// A tracker of the workspace with no tasks yet.
    pub fn new(workspace_dir: &str) -> (t: Self)
        ensures
            t.file() == tasks_file_for(workspace_dir@),
            t.tasks().len() == 0,
    {
        TaskTracker { tasks_path: Self::tasks_path_for(workspace_dir), store: TaskStore { tasks: Vec::new() } }
    }

    /// A tracker of the workspace holding the tasks read from its file.
    pub fn with_store(workspace_dir: &str, store: TaskStore) -> (t: Self)
        ensures
            t.file() == tasks_file_for(workspace_dir@),
            t.tasks() == tasks_view(store.tasks@),
    {
        TaskTracker { tasks_path: Self::tasks_path_for(workspace_dir), store }
    }

    /// Where the tasks are kept.
    pub fn tasks_path(&self) -> (p: &str)
        ensures
            p@ == self.file(),
    {
        self.tasks_path.as_str()
    }

    /// The tasks, to be written to the task file.
    pub fn store(&self) -> (s: &TaskStore)
        ensures
            tasks_view(s.tasks@) == self.tasks(),
    {
        &self.store
    }

    /// Finds the tasks a text announces, adds them, and returns them (see
    /// `extracted`), `now` being the current time.
    pub fn extract_and_add_tasks_at(
        &mut self,
        content: &str,
        conversation_id: Option<&str>,
        project_name: Option<&str>,
        now: i64,
    ) -> (added: Vec<Task>)
        ensures
            tasks_view(added@) == extracted(content@, opt_str(conversation_id), opt_str(project_name), now),
            final(self).tasks() == old(self).tasks() + tasks_view(added@),
            final(self).file() == old(self).file(),
    {
        let ghost conv = opt_str(conversation_id);
        let ghost proj = opt_str(project_name);
        let pats = task_patterns();
        let ghost all = task_pattern_texts();
        let mut added: Vec<Task> = Vec::new();
        let mut i: usize = 0;
        proof {
            assert(all.subrange(0, 0).len() == 0);
            assert(tasks_for(Seq::empty(), conv, proj, now).len() == 0);
            assert(old(self).tasks() + tasks_view(added@) == old(self).tasks());
        }
        while i < pats.len()
            invariant
                i <= pats.len(),
                pats@.len() == all.len(),
                all == task_pattern_texts(),
                forall|k: int| 0 <= k < pats@.len() ==> (#[trigger] pats@[k])@ == all[k],
                conv == opt_str(conversation_id),
                proj == opt_str(project_name),
                tasks_view(added@) == tasks_for(all_candidates(all.subrange(0, i as int), content@), conv, proj, now),
                self.tasks() == old(self).tasks() + tasks_view(added@),
                self.file() == old(self).file(),
            decreases pats.len() - i,
        {
            let ghost before = all_candidates(all.subrange(0, i as int), content@);
            proof {
                let pre = all.subrange(0, i as int + 1);
                assert(pre.drop_last() == all.subrange(0, i as int));
                assert(pre.last() == all[i as int]);
            }
            match Pattern::compile(pats[i]) {
                Some(p) => {
                    let caps = p.captures_all(content);
                    let ghost cg = all_groups_view(caps@);
                    let mut j: usize = 0;
                    proof {
                        assert(cg.subrange(0, 0).len() == 0);
                        assert(before + candidates_of(cg.subrange(0, 0)) == before);
                    }
                    while j < caps.len()
                        invariant
                            j <= caps.len(),
                            cg == all_groups_view(caps@),
                            conv == opt_str(conversation_id),
                            proj == opt_str(project_name),
                            tasks_view(added@) == tasks_for(before + candidates_of(cg.subrange(0, j as int)), conv, proj, now),
                            self.tasks() == old(self).tasks() + tasks_view(added@),
                            self.file() == old(self).file(),
                        decreases caps.len() - j,
                    {
                        let ghost pre = cg.subrange(0, j as int + 1);
                        let ghost sofar = before + candidates_of(cg.subrange(0, j as int));
                        proof {
                            assert(pre.drop_last() == cg.subrange(0, j as int));
                            assert(pre.last() == cg[j as int]);
                            assert(cg[j as int] == group_texts(caps@[j as int]));
                        }
                        match task_from_captures(&caps[j], conversation_id, project_name, now) {
                            Some(task) => {
                                let ghost x: Candidate = capture_candidate(cg[j as int])->0;
                                proof {
                                    assert(before + candidates_of(pre) == sofar.push(x));
                                    lemma_tasks_for_push(sofar, x, conv, proj, now);
                                    lemma_task_descriptions(sofar, conv, proj, now);
                                }
                                if !has_description(&added, task.description.as_str()) {
                                    let ghost added_before = added@;
                                    let ghost store_before = self.store.tasks@;
                                    self.store.tasks.push(task.copied());
                                    added.push(task);
                                    proof {
                                        assert(tasks_view(added@) == tasks_view(added_before).push(new_task(x, conv, proj, now)));
                                        assert(self.tasks() == tasks_view(store_before).push(new_task(x, conv, proj, now)));
                                        assert(self.tasks() == old(self).tasks() + tasks_view(added@));
                                    }
                                }
                            },
                            None => {
                                proof {
                                    assert(capture_candidate(cg[j as int]) is None);
                                    assert(before + candidates_of(pre) == sofar);
                                }
                            },
                        }
                        j += 1;
                    }
                    proof {
                        assert(cg.subrange(0, cg.len() as int) == cg);
                        assert(p.source() == all[i as int]);
                        assert(all_candidates(all.subrange(0, i as int + 1), content@) == before + candidates_of(cg));
                    }
                },
                None => {
                    proof {
                        assert(all_candidates(all.subrange(0, i as int + 1), content@) == before + Seq::<Candidate>::empty());
                        assert(before + Seq::<Candidate>::empty() == before);
                    }
                },
            }
            i += 1;
        }
        proof {
            assert(all.subrange(0, all.len() as int) == all);
        }
        added
    }

    /// `extract_and_add_tasks_at` at the current time.
    pub fn extract_and_add_tasks(
        &mut self,
        content: &str,
        conversation_id: Option<&str>,
        project_name: Option<&str>,
    ) -> (added: Vec<Task>)
        ensures
            exists|now: i64|
                tasks_view(added@) == extracted(content@, opt_str(conversation_id), opt_str(project_name), now),
            final(self).tasks() == old(self).tasks() + tasks_view(added@),
            final(self).file() == old(self).file(),
    {
        let now = crate::sys::utc_now_millis();
        self.extract_and_add_tasks_at(content, conversation_id, project_name, now)
    }

    /// The tasks with the given status, or all of them.
    pub fn list_tasks(&self, status: Option<TaskStatus>) -> (r: Vec<Task>)
        ensures
            tasks_view(r@) == match status {
                Some(s) => of_status(self.tasks(), s),
                None => self.tasks(),
            },
    {
        let ghost keep = |x: TaskView| match status {
            Some(s) => x.status == s,
            None => true,
        } && true;
        let r = select(&self.store.tasks, Ghost(keep), status, None);
        proof {
            match status {
                Some(s) => {
                    assert(keep == (|x: TaskView| x.status == s));
                },
                None => {
                    lemma_filter_all(self.tasks(), keep);
                },
            }
        }
        r
    }

    /// The first task with the id.
    pub fn get_task(&self, id: &str) -> (r: Option<Task>)
        ensures
            match r {
                Some(t) => exists|i: int| first_with_id(self.tasks(), id@, i) && t@ == self.tasks()[i],
                None => !has_id(self.tasks(), id@),
            },
    {
        match position_of(&self.store.tasks, id) {
            Some(i) => {
                let t = self.store.tasks[i].copied();
                proof {
                    assert(self.tasks()[i as int] == self.store.tasks@[i as int]@);
                    assert(first_with_id(self.tasks(), id@, i as int) && t@ == self.tasks()[i as int]);
                }
                Some(t)
            },
            None => None,
        }
    }

    /// Sets the status of the first task with the id and returns it, or
    /// `None` when no task has the id.
    pub fn update_status(&mut self, id: &str, status: TaskStatus) -> (r: Result<Option<Task>, MentalOSError>)
        ensures
            final(self).file() == old(self).file(),
            match r {
                Ok(Some(t)) => exists|i: int|
                    first_with_id(old(self).tasks(), id@, i) && final(self).tasks() == old(self).tasks().update(
                        i,
                        with_status(old(self).tasks()[i], status),
                    ) && t@ == with_status(old(self).tasks()[i], status),
                Ok(None) => !has_id(old(self).tasks(), id@) && final(self).tasks() == old(self).tasks(),
                Err(_) => false,
            },
    {
        match position_of(&self.store.tasks, id) {
            Some(i) => {
                let mut t = self.store.tasks[i].copied();
                t.status = status;
                let out = t.copied();
                let ghost before = self.store.tasks@;
                self.store.tasks.set(i, t);
                proof {
                    assert(tasks_view(before)[i as int] == before[i as int]@);
                    assert(tasks_view(self.store.tasks@) == tasks_view(before).update(i as int, with_status(tasks_view(before)[i as int], status)));
                    assert(first_with_id(old(self).tasks(), id@, i as int));
                    assert(out@ == with_status(old(self).tasks()[i as int], status));
                }
                Ok(Some(out))
            },
            None => Ok(None),
        }
    }

    /// Removes every task with the id; whether any was removed.
    pub fn delete_task(&mut self, id: &str) -> (r: Result<bool, MentalOSError>)
        ensures
            final(self).file() == old(self).file(),
            final(self).tasks() == without_id(old(self).tasks(), id@),
            r == Ok::<bool, MentalOSError>(has_id(old(self).tasks(), id@)),
    {
        let ghost keepf = |x: TaskView| x.id != id@;
        let ghost all = self.tasks();
        let mut old_tasks: Vec<Task> = Vec::new();
        std::mem::swap(&mut old_tasks, &mut self.store.tasks);
        let mut kept: Vec<Task> = Vec::new();
        let mut removed = false;
        let mut i: usize = 0;
        proof {
            reveal(Seq::filter);
            assert(all.subrange(0, 0).filter(keepf) == Seq::<TaskView>::empty());
        }
        while i < old_tasks.len()
            invariant
                i <= old_tasks.len(),
                all == tasks_view(old_tasks@),
                keepf == (|x: TaskView| x.id != id@),
                tasks_view(kept@) == all.subrange(0, i as int).filter(keepf),
                removed == exists|j: int| 0 <= j < i && #[trigger] all[j].id == id@,
            decreases old_tasks.len() - i,
        {
            let ghost pre = all.subrange(0, i as int + 1);
            proof {
                assert(pre.drop_last() == all.subrange(0, i as int));
                assert(pre.last() == all[i as int]);
                reveal(Seq::filter);
            }
            proof {
                assert(all[i as int] == old_tasks@[i as int]@);
            }
            if str_eq(old_tasks[i].id.as_str(), id) {
                removed = true;
                proof {
                    assert(all[i as int].id == id@);
                }
            } else {
                proof {
                    assert(all[i as int].id != id@);
                    assert(forall|j: int| 0 <= j < i + 1 && #[trigger] all[j].id == id@ ==> j < i);
                }
                let c = old_tasks[i].copied();
                let ghost before = kept@;
                kept.push(c);
                proof {
                    assert(tasks_view(kept@) == tasks_view(before).push(c@));
                }
            }
            i += 1;
        }
        proof {
            assert(all.subrange(0, all.len() as int) == all);
        }
        self.store.tasks = kept;
        Ok(removed)
    }

    /// How many tasks are pending.
    pub fn get_pending_count(&self) -> (n: usize)
        ensures
            n == of_status(self.tasks(), TaskStatus::Pending).len(),
    {
        let ghost all = self.tasks();
        let ghost f = |x: TaskView| x.status == TaskStatus::Pending;
        let mut n: usize = 0;
        let mut i: usize = 0;
        proof {
            reveal(Seq::filter);
            assert(all.subrange(0, 0).filter(f).len() == 0);
        }
        while i < self.store.tasks.len()
            invariant
                i <= self.store.tasks.len(),
                all == tasks_view(self.store.tasks@),
                f == (|x: TaskView| x.status == TaskStatus::Pending),
                n == all.subrange(0, i as int).filter(f).len(),
                n <= i,
            decreases self.store.tasks.len() - i,
        {
            let ghost pre = all.subrange(0, i as int + 1);
            proof {
                assert(pre.drop_last() == all.subrange(0, i as int));
                assert(pre.last() == all[i as int]);
                reveal(Seq::filter);
            }
            if self.store.tasks[i].status == TaskStatus::Pending {
                n += 1;
            }
            i += 1;
        }
        proof {
            assert(all.subrange(0, all.len() as int) == all);
        }
        n
    }

    /// The tasks of a project.
    pub fn get_tasks_by_project(&self, project: &str) -> (r: Vec<Task>)
        ensures
            tasks_view(r@) == of_project(self.tasks(), project@),
    {
        let ghost keep = |x: TaskView| true && x.related_project == Some(project@);
        let r = select(&self.store.tasks, Ghost(keep), None, Some(project));
        proof {
            assert(keep == (|x: TaskView| x.related_project == Some(project@)));
        }
        r
    }
}

proof fn lemma_filter_all(s: Seq<TaskView>, f: spec_fn(TaskView) -> bool)
    requires
        forall|x: TaskView| #[trigger] f(x),
    ensures
        s.filter(f) == s,
    decreases s.len(),
{
    reveal(Seq::filter);
    if s.len() > 0 {
        lemma_filter_all(s.drop_last(), f);
        assert(s.drop_last().push(s.last()) == s);
    }
}

// ---------------------------------------------------------------------------
// Laws of the tracker
// ---------------------------------------------------------------------------

/// After the status of a task is set, the first task with its id has that
/// status.
pub proof fn law_updated_status_is_read_back(t: Seq<TaskView>, id: Seq<char>, i: int, s: TaskStatus)
    requires
        first_with_id(t, id, i),
    ensures
        first_with_id(t.update(i, with_status(t[i], s)), id, i),
        t.update(i, with_status(t[i], s))[i].status == s,
{
}

/// After the tasks with an id are deleted, none has it.
pub proof fn law_deleted_id_is_gone(t: Seq<TaskView>, id: Seq<char>)
    ensures
        !has_id(without_id(t, id), id),
{
    let f = |x: TaskView| x.id != id;
    if has_id(without_id(t, id), id) {
        let i = choose|i: int| 0 <= i < without_id(t, id).len() && #[trigger] without_id(t, id)[i].id == id;
        t.lemma_filter_pred(f, i);
    }
}

/// Adding tasks raises the pending count by the number of pending tasks
/// added.
pub proof fn law_pending_count_adds_up(t: Seq<TaskView>, added: Seq<TaskView>)
    ensures
        of_status(t + added, TaskStatus::Pending).len() == of_status(t, TaskStatus::Pending).len()
            + of_status(added, TaskStatus::Pending).len(),
{
    let f = |x: TaskView| x.status == TaskStatus::Pending;
    Seq::filter_distributes_over_add(t, added, f);
}

} // verus!
