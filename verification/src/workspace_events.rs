//! File-change events that the workspace monitor records, one per line.
use crate::router::{join_texts, joined_with, texts};
use crate::text::{opt_text, trim_str, trimmed};
use vstd::prelude::*;

verus! {

/// One file-change event.
#[derive(Debug, Clone, PartialEq, Eq)]
pub struct WorkspaceEvent {
    /// ISO 8601 time (UTC) at which the event was seen.
    pub timestamp: String,
    /// "create", "modify", "delete", "move", "access", "any" or "other".
    pub kind: String,
    /// The paths concerned, relative to the watched directory where possible.
    pub paths: Vec<String>,
}

/// The kind of a change as the file watcher reports it.
#[derive(Debug, Clone, Copy, PartialEq, Eq, Structural)]
pub enum ChangeKind {
    Create,
    Modify,
    Remove,
    Access,
    Any,
    Other,
}

/// The name an event kind is recorded under.
pub open spec fn kind_name(k: ChangeKind) -> Seq<char> {
    match k {
        ChangeKind::Create => "create"@,
        ChangeKind::Modify => "modify"@,
        ChangeKind::Remove => "delete"@,
        ChangeKind::Access => "access"@,
        ChangeKind::Any => "any"@,
        ChangeKind::Other => "other"@,
    }
}

pub fn event_kind_name(k: ChangeKind) -> (r: &'static str)
    ensures
        r@ == kind_name(k),
{
    match k {
        ChangeKind::Create => "create",
        ChangeKind::Modify => "modify",
        ChangeKind::Remove => "delete",
        ChangeKind::Access => "access",
        ChangeKind::Any => "any",
        ChangeKind::Other => "other",
    }
}

/// A path with a directory taken off its front, as `Path::strip_prefix`
/// gives it (component by component); `None` when the path is not under
/// the directory.
pub uninterp spec fn stripped_path(path: Seq<char>, root: Seq<char>) -> Option<Seq<char>>;

/// Calls `Path::strip_prefix` and shows the result; it is named
/// `stripped_path`.
#[verifier::external_body]
fn strip_root(path: &str, root: &str) -> (r: Option<String>)
    ensures
        opt_text(r) == stripped_path(path@, root@),
{
    std::path::Path::new(path).strip_prefix(root).ok().map(|p| p.display().to_string())
}

/// How a path is recorded: relative to the watched directory when it lies
/// in it, as it is otherwise.
pub open spec fn shown_path(path: Seq<char>, root: Seq<char>) -> Seq<char> {
    match stripped_path(path, root) {
        Some(r) => r,
        None => path,
    }
}

/// The event recorded for a change seen at `timestamp`.
pub fn format_event(kind: ChangeKind, paths: &Vec<String>, watch_root: &str, timestamp: String) -> (e: WorkspaceEvent)
    ensures
        e.timestamp@ == timestamp@,
        e.kind@ == kind_name(kind),
        texts(e.paths@) == texts(paths@).map_values(|p: Seq<char>| shown_path(p, watch_root@)),
{
    let mut out: Vec<String> = Vec::new();
    let mut i: usize = 0;
    while i < paths.len()
        invariant
            i <= paths.len(),
            texts(out@) == texts(paths@).subrange(0, i as int).map_values(|p: Seq<char>| shown_path(p, watch_root@)),
        decreases paths.len() - i,
    {
        let shown = match strip_root(paths[i].as_str(), watch_root) {
            Some(r) => r,
            None => paths[i].clone(),
        };
        let ghost before = out@;
        out.push(shown);
        proof {
            assert(texts(out@) == texts(before).push(shown@));
            assert(texts(paths@).subrange(0, i as int + 1).map_values(|p: Seq<char>| shown_path(p, watch_root@))
                == texts(paths@).subrange(0, i as int).map_values(|p: Seq<char>| shown_path(p, watch_root@)).push(
                shown_path(paths@[i as int]@, watch_root@),
            ));
        }
        i += 1;
    }
    proof {
        assert(texts(paths@).subrange(0, paths@.len() as int) == texts(paths@));
    }
    WorkspaceEvent { timestamp, kind: String::from_str(event_kind_name(kind)), paths: out }
}

/// One line of the monitor's log: time, kind, and the paths.
pub fn human_readable(event: &WorkspaceEvent) -> (r: String)
    ensures
        r@ == event.timestamp@ + " "@ + event.kind@ + " "@ + joined_with(texts(event.paths@), ", "@),
{
    let mut r = event.timestamp.clone();
    r.append(" ");
    r.append(event.kind.as_str());
    r.append(" ");
    let p = join_texts(&event.paths, ", ");
    r.append(p.as_str());
    r
}


// ---------------------------------------------------------------------------
// Following the event file
// ---------------------------------------------------------------------------

/// The text of a line worth parsing: the line trimmed, none when blank.
pub fn event_line(line: &str) -> (r: Option<String>)
    ensures
        match r {
            Some(t) => t@ == trimmed(line@) && t@.len() > 0,
            None => trimmed(line@).len() == 0,
        },
{
    let t = trim_str(line);
    if t.as_str().is_empty() {
        None
    } else {
        Some(t)
    }
}

/// Where reading resumes after the file is opened again: at the start when
/// it shrank below the old position (it was truncated), else where it was.
pub fn reopen_position(old_pos: u64, new_len: u64) -> (p: u64)
    ensures
        p == (if new_len < old_pos {
            0
        } else {
            old_pos
        }),
{
    if new_len < old_pos {
        0
    } else {
        old_pos
    }
}

/// How new lines are noticed.
#[derive(Debug, Clone, Copy, PartialEq, Eq, Structural)]
pub enum TailMode {
    /// A file watcher reports changes to the directory.
    Watching,
    /// The file is read again every half second.
    Polling,
}

/// What an attempt to read a line gave.
#[derive(Debug, Clone, PartialEq, Eq)]
pub enum ReadResult {
    Line(String),
    NoData,
    Failed,
}

/// What the file watcher said while the follower waited.
#[derive(Debug, Clone, Copy, PartialEq, Eq, Structural)]
pub enum WatchResult {
    Changed,
    TimedOut,
    Disconnected,
}

/// What the follower does next.
#[derive(Debug, Clone, PartialEq, Eq)]
pub enum TailAction {
    /// Parse this (trimmed) line and pass the event on.
    Forward(String),
    /// Read the next line at once.
    ReadAgain,
    /// Wait up to five seconds for the watcher.
    WaitForChange,
    /// Sleep this many milliseconds, then read again.
    Sleep(u64),
    /// Sleep a second, then open the file again.
    Reopen,
}

/// The next step after a read: forward a non-blank line (read again after a
/// blank one); with nothing new, wait for the watcher or sleep half a
/// second; after an error, open the file again.
pub fn after_read(mode: TailMode, read: ReadResult) -> (a: TailAction)
    ensures
        match read {
            ReadResult::Line(l) => if trimmed(l@).len() == 0 {
                a == TailAction::ReadAgain
            } else {
                a matches TailAction::Forward(t) && t@ == trimmed(l@)
            },
            ReadResult::NoData => a == match mode {
                TailMode::Watching => TailAction::WaitForChange,
                TailMode::Polling => TailAction::Sleep(500),
            },
            ReadResult::Failed => a == TailAction::Reopen,
        },
{
    match read {
        ReadResult::Line(l) => match event_line(l.as_str()) {
            Some(t) => TailAction::Forward(t),
            None => TailAction::ReadAgain,
        },
        ReadResult::NoData => match mode {
            TailMode::Watching => TailAction::WaitForChange,
            TailMode::Polling => TailAction::Sleep(500),
        },
        ReadResult::Failed => TailAction::Reopen,
    }
}

/// The mode after waiting for the watcher: polling from the moment the
/// watcher is gone, watching otherwise.
pub fn after_wait(mode: TailMode, w: WatchResult) -> (m: TailMode)
    ensures
        m == (if w == WatchResult::Disconnected {
            TailMode::Polling
        } else {
            mode
        }),
{
    match w {
        WatchResult::Disconnected => TailMode::Polling,
        _ => mode,
    }
}

} // verus!
