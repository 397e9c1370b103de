//! Which shell commands may run without asking: commands listed exactly,
//! `*` patterns, and approvals that expire.
//!
//! Times are milliseconds since the Unix epoch.
use crate::config::{joined_path, path_join};
use crate::error::MentalOSError;
use crate::pattern::{escaped, regex_compiles, regex_escape, regex_is_match, Pattern};
use crate::router::{listed, texts};
use crate::sys::utc_now_millis;
use crate::text::{chars_of, concat2, concat3, has_prefix, string_of, trim_str, trimmed};
use std::path::PathBuf;
use vstd::prelude::*;

verus! {

/// An approval that lapses at `expires_at`.
#[derive(Debug, Clone)]
pub struct TemporaryApproval {
    pub command: String,
    pub expires_at: i64,
}

/// What the whitelist file holds.
#[derive(Debug, Clone)]
pub struct Whitelist {
    pub version: u8,
    pub exact: Vec<String>,
    pub patterns: Vec<String>,
    pub temporary: Vec<TemporaryApproval>,
}

/// Whether a command may run at once or must be approved first.
#[derive(Debug, Clone, Copy, PartialEq, Eq, Structural)]
pub enum WhitelistDecision {
    Allowed,
    NeedsApproval,
}

/// The whitelist as values: exact commands, patterns, and each temporary
/// approval as its command and expiry.
pub struct WhitelistView {
    pub exact: Seq<Seq<char>>,
    pub patterns: Seq<Seq<char>>,
    pub temporary: Seq<(Seq<char>, i64)>,
}

pub open spec fn temps_view(t: Seq<TemporaryApproval>) -> Seq<(Seq<char>, i64)> {
    t.map_values(|a: TemporaryApproval| (a.command@, a.expires_at))
}

impl View for Whitelist {
    type V = WhitelistView;

    open spec fn view(&self) -> WhitelistView {
        WhitelistView {
            exact: texts(self.exact@),
            patterns: texts(self.patterns@),
            temporary: temps_view(self.temporary@),
        }
    }
}

// ---------------------------------------------------------------------------
// The rules
// ---------------------------------------------------------------------------

/// `str::replace("\\*", ".*")`: each escaped star, scanning from the left,
/// becomes `.*`.
pub open spec fn star_to_wildcard(s: Seq<char>) -> Seq<char>
    decreases s.len(),
{
    if s.len() >= 2 && s[0] == '\\' && s[1] == '*' {
        seq!['.', '*'] + star_to_wildcard(s.subrange(2, s.len() as int))
    } else if s.len() >= 1 {
        seq![s[0]] + star_to_wildcard(s.subrange(1, s.len() as int))
    } else {
        s
    }
}

/// The regular expression a whitelist pattern stands for: the pattern taken
/// literally, except that `*` matches anything, over the whole command.
pub open spec fn anchored(p: Seq<char>) -> Seq<char> {
    seq!['^'] + star_to_wildcard(escaped(p)) + seq!['$']
}

/// Whether one pattern matches the command; `None` when its expression does
/// not compile.
pub open spec fn pattern_outcome(p: Seq<char>, c: Seq<char>) -> Option<bool> {
    if regex_compiles(anchored(p)) {
        Some(regex_is_match(anchored(p), c))
    } else {
        None
    }
}

/// The patterns tried in order: `Some(true)` at the first that matches,
/// `None` at the first that does not compile, `Some(false)` when none does.
pub open spec fn patterns_outcome(pats: Seq<Seq<char>>, c: Seq<char>) -> Option<bool>
    decreases pats.len(),
{
    if pats.len() == 0 {
        Some(false)
    } else {
        match pattern_outcome(pats[0], c) {
            None => None,
            Some(true) => Some(true),
            Some(false) => patterns_outcome(pats.drop_first(), c),
        }
    }
}

/// Listing one more pattern keeps every command that the patterns allowed
/// allowed (it is tried last), and a command that no pattern allowed is
/// allowed exactly when the new pattern matches it.
pub proof fn law_added_pattern_keeps_allowed(pats: Seq<Seq<char>>, p: Seq<char>, c: Seq<char>)
    ensures
        patterns_outcome(pats, c) == Some(true) ==> patterns_outcome(pats.push(p), c) == Some(true),
        patterns_outcome(pats, c) == Some(false) ==> patterns_outcome(pats.push(p), c) == pattern_outcome(p, c),
    decreases pats.len(),
{
    if pats.len() > 0 {
        assert(pats.push(p)[0] == pats[0]);
        assert(pats.push(p).drop_first() =~= pats.drop_first().push(p));
        law_added_pattern_keeps_allowed(pats.drop_first(), p, c);
    } else {
        let one = pats.push(p);
        assert(one.drop_first() =~= Seq::<Seq<char>>::empty());
        assert(one[0] == p);
        assert(patterns_outcome(one.drop_first(), c) == Some(false));
    }
}

/// A temporary approval of exactly this command that has not lapsed.
pub open spec fn temp_allows(t: Seq<(Seq<char>, i64)>, c: Seq<char>, now: i64) -> bool {
    exists|i: int| 0 <= i < t.len() && t[i].0 == c && t[i].1 > now
}

/// The answer for a trimmed, non-empty command: `None` when a pattern fails
/// to compile before any rule allows it.
pub open spec fn allow_answer(w: WhitelistView, c: Seq<char>, now: i64) -> Option<bool> {
    if w.exact.contains(c) || temp_allows(w.temporary, c, now) {
        Some(true)
    } else {
        patterns_outcome(w.patterns, c)
    }
}

/// What `is_allowed` gives for a command at a time.
pub open spec fn allowed_result(w: WhitelistView, command: Seq<char>, now: i64, r: Result<bool, MentalOSError>) -> bool {
    let c = trimmed(command);
    if c.len() == 0 {
        r matches Err(MentalOSError::InvalidCommand(m)) && m@ == "Empty command"@
    } else {
        match allow_answer(w, c, now) {
            Some(b) => r == Ok::<bool, MentalOSError>(b),
            None => r matches Err(MentalOSError::Other(m)) && has_prefix(m@, "Invalid pattern: "@),
        }
    }
}

pub open spec fn live(e: (Seq<char>, i64), now: i64) -> bool {
    e.1 > now
}

/// The whitelist with the lapsed approvals dropped, the others kept in order.
pub open spec fn cleaned(w: WhitelistView, now: i64) -> WhitelistView {
    WhitelistView { temporary: w.temporary.filter(|e: (Seq<char>, i64)| live(e, now)), ..w }
}

/// The whitelist with a command listed (once).
pub open spec fn with_exact(w: WhitelistView, c: Seq<char>) -> WhitelistView {
    if w.exact.contains(c) {
        w
    } else {
        WhitelistView { exact: w.exact.push(c), ..w }
    }
}

/// The whitelist with a pattern listed (once).
pub open spec fn with_pattern(w: WhitelistView, p: Seq<char>) -> WhitelistView {
    if w.patterns.contains(p) {
        w
    } else {
        WhitelistView { patterns: w.patterns.push(p), ..w }
    }
}

/// The whitelist with one more temporary approval.
pub open spec fn with_temporary(w: WhitelistView, c: Seq<char>, expires_at: i64) -> WhitelistView {
    WhitelistView { temporary: w.temporary.push((c, expires_at)), ..w }
}

// ---------------------------------------------------------------------------
// Laws
// ---------------------------------------------------------------------------

/// A command that was listed exactly is allowed, whatever else the whitelist
/// holds.
pub proof fn law_listed_command_allowed(w: WhitelistView, c: Seq<char>, now: i64)
    requires
        c.len() > 0,
        trimmed(c) == c,
    ensures
        allow_answer(with_exact(w, c), c, now) == Some(true),
{
    if !w.exact.contains(c) {
        assert(with_exact(w, c).exact[w.exact.len() as int] == c);
    }
}

/// A temporary approval allows its command until it lapses.
pub proof fn law_temporary_allowed_until_expiry(w: WhitelistView, c: Seq<char>, expires_at: i64, now: i64)
    requires
        now < expires_at,
    ensures
        allow_answer(with_temporary(w, c, expires_at), c, now) == Some(true),
{
    let t = with_temporary(w, c, expires_at).temporary;
    assert(t[w.temporary.len() as int] == (c, expires_at));
}

/// Dropping the lapsed approvals changes no answer given at that time.
pub proof fn law_cleanup_changes_no_answer(w: WhitelistView, c: Seq<char>, now: i64)
    ensures
        allow_answer(cleaned(w, now), c, now) == allow_answer(w, c, now),
{
    let f = |e: (Seq<char>, i64)| live(e, now);
    let kept = w.temporary.filter(f);
    if temp_allows(w.temporary, c, now) {
        let i = choose|i: int| 0 <= i < w.temporary.len() && w.temporary[i].0 == c && w.temporary[i].1 > now;
        w.temporary.lemma_filter_contains(f, i);
        let j = choose|j: int| 0 <= j < kept.len() && kept[j] == w.temporary[i];
        assert(kept[j].0 == c && kept[j].1 > now);
    }
    if temp_allows(kept, c, now) {
        let j = choose|j: int| 0 <= j < kept.len() && kept[j].0 == c && kept[j].1 > now;
        lemma_filter_member(w.temporary, f, j);
    }
}

/// An approval that has lapsed leaves nothing behind once cleaned up.
pub proof fn law_lapsed_approval_removed(w: WhitelistView, c: Seq<char>, expires_at: i64, now: i64)
    requires
        expires_at <= now,
    ensures
        cleaned(with_temporary(w, c, expires_at), now) == cleaned(w, now),
{
    let f = |e: (Seq<char>, i64)| live(e, now);
    let t = w.temporary.push((c, expires_at));
    assert(t.drop_last() == w.temporary);
    reveal(Seq::filter);
    assert(t.filter(f) == w.temporary.filter(f));
}

/// Each element of a filtered sequence is an element of the original.
proof fn lemma_filter_member(s: Seq<(Seq<char>, i64)>, f: spec_fn((Seq<char>, i64)) -> bool, j: int)
    requires
        0 <= j < s.filter(f).len(),
    ensures
        s.contains(s.filter(f)[j]),
        f(s.filter(f)[j]),
    decreases s.len(),
{
    reveal(Seq::filter);
    s.lemma_filter_pred(f, j);
    let rest = s.drop_last().filter(f);
    if f(s.last()) && j == rest.len() {
        assert(s[s.len() - 1] == s.last());
    } else {
        lemma_filter_member(s.drop_last(), f, j);
        let k = choose|k: int| 0 <= k < s.drop_last().len() && s.drop_last()[k] == rest[j];
        assert(s[k] == s.drop_last()[k]);
    }
}

// ---------------------------------------------------------------------------
// Pattern matching
// ---------------------------------------------------------------------------

fn star_to_wildcard_exec(s: &Vec<char>) -> (r: Vec<char>)
    ensures
        r@ == star_to_wildcard(s@),
{
    let mut out: Vec<char> = Vec::new();
    let mut i: usize = 0;
    proof {
        assert(s@.subrange(0, s@.len() as int) == s@);
        assert(out@ + s@ == s@);
    }
    while i < s.len()
        invariant
            i <= s.len(),
            out@ + star_to_wildcard(s@.subrange(i as int, s@.len() as int)) == star_to_wildcard(s@),
        decreases s.len() - i,
    {
        let ghost rest = s@.subrange(i as int, s@.len() as int);
        if i + 1 < s.len() && s[i] == '\\' && s[i + 1] == '*' {
            assert(rest.subrange(2, rest.len() as int) == s@.subrange(i + 2, s@.len() as int));
            assert(star_to_wildcard(rest) == seq!['.', '*'] + star_to_wildcard(
                s@.subrange(i + 2, s@.len() as int),
            ));
            out.push('.');
            out.push('*');
            i += 2;
        } else {
            assert(rest.subrange(1, rest.len() as int) == s@.subrange(i + 1, s@.len() as int));
            assert(star_to_wildcard(rest) == seq![s@[i as int]] + star_to_wildcard(
                s@.subrange(i + 1, s@.len() as int),
            ));
            out.push(s[i]);
            i += 1;
        }
        proof {
            assert(out@ + star_to_wildcard(s@.subrange(i as int, s@.len() as int)) == star_to_wildcard(
                s@,
            ));
        }
    }
    proof {
        assert(s@.subrange(s@.len() as int, s@.len() as int) == Seq::<char>::empty());
        assert(out@ + Seq::<char>::empty() == out@);
    }
    out
}

/// Whether a whitelist pattern matches the command: the pattern is escaped,
/// each `*` becomes `.*`, and the expression must match the whole command.
pub fn pattern_match(pattern: &str, command: &str) -> (r: Result<bool, MentalOSError>)
    ensures
        match pattern_outcome(pattern@, command@) {
            Some(b) => r == Ok::<bool, MentalOSError>(b),
            None => r matches Err(MentalOSError::Other(m)) && has_prefix(m@, "Invalid pattern: "@),
        },
{
    let esc = regex_escape(pattern);
    let star = star_to_wildcard_exec(&chars_of(esc.as_str()));
    let body = string_of(&star);
    let source = concat3("^", body.as_str(), "$");
    proof {
        reveal_strlit("^");
        reveal_strlit("$");
        assert(source@ == anchored(pattern@));
    }
    match Pattern::try_compile(source.as_str()) {
        Ok(p) => Ok(p.is_match(command)),
        Err(text) => {
            let m = concat2("Invalid pattern: ", text.as_str());
            proof {
                reveal_strlit("Invalid pattern: ");
                assert(m@.subrange(0, "Invalid pattern: "@.len() as int) == "Invalid pattern: "@);
            }
            Err(MentalOSError::Other(m))
        },
    }
}

/// The patterns tried in order, as `patterns_outcome` describes.
fn patterns_allow(patterns: &Vec<String>, c: &str) -> (r: Result<bool, MentalOSError>)
    ensures
        match patterns_outcome(texts(patterns@), c@) {
            Some(b) => r == Ok::<bool, MentalOSError>(b),
            None => r matches Err(MentalOSError::Other(m)) && has_prefix(m@, "Invalid pattern: "@),
        },
{
    let ghost pats = texts(patterns@);
    let mut k: usize = 0;
    proof {
        assert(pats.subrange(0, pats.len() as int) == pats);
    }
    while k < patterns.len()
        invariant
            k <= patterns.len(),
            pats == texts(patterns@),
            patterns_outcome(pats, c@) == patterns_outcome(pats.subrange(k as int, pats.len() as int), c@),
        decreases patterns.len() - k,
    {
        let ghost rest = pats.subrange(k as int, pats.len() as int);
        proof {
            assert(rest[0] == pats[k as int]);
            assert(rest.drop_first() == pats.subrange(k as int + 1, pats.len() as int));
        }
        match pattern_match(patterns[k].as_str(), c) {
            Ok(true) => {
                return Ok(true);
            },
            Ok(false) => {},
            Err(e) => {
                return Err(e);
            },
        }
        k += 1;
    }
    proof {
        assert(pats.subrange(pats.len() as int, pats.len() as int).len() == 0);
    }
    Ok(false)
}

// ---------------------------------------------------------------------------
// The manager
// ---------------------------------------------------------------------------

/// Manages command approvals for shell execution.
pub struct WhitelistManager {
    path: PathBuf,
    data: Whitelist,
}

impl WhitelistManager {
    pub closed spec fn model(&self) -> WhitelistView {
        self.data@
    }

    pub closed spec fn file(&self) -> PathBuf {
        self.path
    }

    pub closed spec fn version(&self) -> u8 {
        self.data.version
    }

    /// An empty whitelist (format version 1) kept at `path`.
    pub fn new(path: PathBuf) -> (m: Self)
        ensures
            m.file() == path,
            m.version() == 1,
            m.model().exact.len() == 0,
            m.model().patterns.len() == 0,
            m.model().temporary.len() == 0,
    {
        WhitelistManager {
            path,
            data: Whitelist { version: 1, exact: Vec::new(), patterns: Vec::new(), temporary: Vec::new() },
        }
    }

    /// A whitelist read from `path`, without the approvals that had lapsed
    /// by `now`.
    pub fn from_loaded(path: PathBuf, data: Whitelist, now: i64) -> (m: Self)
        ensures
            m.file() == path,
            m.version() == data.version,
            m.model() == cleaned(data@, now),
    {
        let mut m = WhitelistManager { path, data };
        m.cleanup_expired_at(now);
        m
    }

    /// Where the whitelist is kept.
    pub fn path(&self) -> (p: &PathBuf)
        ensures
            *p == self.file(),
    {
        &self.path
    }

    /// What the whitelist holds.
    pub fn data(&self) -> (d: &Whitelist)
        ensures
            d@ == self.model(),
            d.version == self.version(),
    {
        &self.data
    }

    /// The usual place of the whitelist under a configuration directory.
    pub fn default_path(config_dir: &str) -> (p: String)
        ensures
            p@ == joined_path(joined_path(config_dir@, "mentalOS"@), "whitelist.json"@),
    {
        let dir = path_join(config_dir, "mentalOS");
        path_join(dir.as_str(), "whitelist.json")
    }

    /// Drops the approvals that have lapsed by `now`.
    pub fn cleanup_expired_at(&mut self, now: i64)
        ensures
            final(self).model() == cleaned(old(self).model(), now),
            final(self).file() == old(self).file(),
            final(self).version() == old(self).version(),
    {
        let ghost f = |e: (Seq<char>, i64)| live(e, now);
        let mut old_temps: Vec<TemporaryApproval> = Vec::new();
        std::mem::swap(&mut old_temps, &mut self.data.temporary);
        let ghost all = temps_view(old_temps@);
        let mut kept: Vec<TemporaryApproval> = Vec::new();
        let mut i: usize = 0;
        while i < old_temps.len()
            invariant
                i <= old_temps.len(),
                all == temps_view(old_temps@),
                f == (|e: (Seq<char>, i64)| live(e, now)),
                temps_view(kept@) == all.subrange(0, i as int).filter(f),
            decreases old_temps.len() - i,
        {
            let ghost pre = all.subrange(0, i as int + 1);
            proof {
                assert(pre.drop_last() == all.subrange(0, i as int));
                assert(pre.last() == all[i as int]);
                assert(all[i as int] == (old_temps@[i as int].command@, old_temps@[i as int].expires_at));
                reveal(Seq::filter);
                assert(pre.filter(f) == if f(pre.last()) {
                    pre.drop_last().filter(f).push(pre.last())
                } else {
                    pre.drop_last().filter(f)
                });
            }
            if old_temps[i].expires_at > now {
                let e = TemporaryApproval { command: old_temps[i].command.clone(), expires_at: old_temps[i].expires_at };
                let ghost before = kept@;
                kept.push(e);
                proof {
                    assert(f(pre.last()) == (pre.last().1 > now));
                    assert(kept@ == before.push(e));
                    assert(temps_view(kept@) == temps_view(before).push((e.command@, e.expires_at)));
                    assert(temps_view(kept@) == pre.filter(f));
                }
            } else {
                proof {
                    assert(f(pre.last()) == (pre.last().1 > now));
                    assert(!f(pre.last()));
                }
            }
            i += 1;
        }
        proof {
            assert(all.subrange(0, all.len() as int) == all);
        }
        self.data.temporary = kept;
        proof {
            assert(self.model().temporary == cleaned(old(self).model(), now).temporary);
            assert(self.model() == cleaned(old(self).model(), now));
        }
    }

    /// Drops the approvals that have lapsed by the current time.
    pub fn cleanup_expired(&mut self)
        ensures
            exists|now: i64| final(self).model() == cleaned(old(self).model(), now),
            final(self).file() == old(self).file(),
    {
        let now = utc_now_millis();
        self.cleanup_expired_at(now);
    }

    /// Lists a command exactly, once.
    pub fn add_exact(&mut self, command: &str)
        ensures
            final(self).model() == with_exact(old(self).model(), command@),
            final(self).file() == old(self).file(),
            final(self).version() == old(self).version(),
    {
        if !listed(&self.data.exact, command) {
            self.data.exact.push(String::from_str(command));
            proof {
                assert(texts(self.data.exact@) == texts(old(self).data.exact@).push(command@));
                assert(self.model() == with_exact(old(self).model(), command@));
            }
        }
    }

    /// Lists a pattern, once.
    pub fn add_pattern(&mut self, pattern: &str)
        ensures
            final(self).model() == with_pattern(old(self).model(), pattern@),
            final(self).file() == old(self).file(),
            final(self).version() == old(self).version(),
    {
        if !listed(&self.data.patterns, pattern) {
            self.data.patterns.push(String::from_str(pattern));
            proof {
                assert(texts(self.data.patterns@) == texts(old(self).data.patterns@).push(pattern@));
                assert(self.model() == with_pattern(old(self).model(), pattern@));
            }
        }
    }

    /// Approves a command until `ttl_millis` after `now`.
    pub fn add_temporary_at(&mut self, command: &str, ttl_millis: i64, now: i64)
        requires
            i64::MIN <= now + ttl_millis <= i64::MAX,
        ensures
            final(self).model() == with_temporary(old(self).model(), command@, (now + ttl_millis) as i64),
            final(self).file() == old(self).file(),
            final(self).version() == old(self).version(),
    {
        let e = TemporaryApproval { command: String::from_str(command), expires_at: now + ttl_millis };
        self.data.temporary.push(e);
        proof {
            assert(temps_view(self.data.temporary@) == temps_view(old(self).data.temporary@).push(
                (command@, (now + ttl_millis) as i64),
            ));
            assert(self.model() == with_temporary(old(self).model(), command@, (now + ttl_millis) as i64));
        }
    }

    /// Approves a command for `ttl_millis` from the current time (an expiry
    /// past the range of `i64` is held at its end).
    pub fn add_temporary(&mut self, command: &str, ttl_millis: i64)
        ensures
            exists|expires_at: i64|
                final(self).model() == with_temporary(old(self).model(), command@, expires_at),
            final(self).file() == old(self).file(),
            final(self).version() == old(self).version(),
    {
        let now = utc_now_millis();
        let expires_at: i64 = if ttl_millis > 0 && now > i64::MAX - ttl_millis {
            i64::MAX
        } else if ttl_millis < 0 && now < i64::MIN - ttl_millis {
            i64::MIN
        } else {
            now + ttl_millis
        };
        let e = TemporaryApproval { command: String::from_str(command), expires_at };
        self.data.temporary.push(e);
        proof {
            assert(temps_view(self.data.temporary@) == temps_view(old(self).data.temporary@).push(
                (command@, expires_at),
            ));
            assert(self.model() == with_temporary(old(self).model(), command@, expires_at));
        }
    }

    /// Whether the command may run at `now`: its trimmed text is listed
    /// exactly, has a live temporary approval, or matches a pattern. An empty
    /// command, or a pattern that does not compile, is an error.
    pub fn is_allowed_at(&self, command: &str, now: i64) -> (r: Result<bool, MentalOSError>)
        ensures
            allowed_result(self.model(), command@, now, r),
    {
        let c = trim_str(command);
        if c.as_str().is_empty() {
            let m = String::from_str("Empty command");
            proof {
                reveal_strlit("Empty command");
            }
            return Err(MentalOSError::InvalidCommand(m));
        }
        if listed(&self.data.exact, c.as_str()) {
            proof {
                assert(self.model().exact.contains(c@));
            }
            return Ok(true);
        }
        let mut i: usize = 0;
        while i < self.data.temporary.len()
            invariant
                i <= self.data.temporary.len(),
                c@ == trimmed(command@),
                c@.len() > 0,
                forall|j: int|
                    0 <= j < i ==> !(#[trigger] self.data.temporary@[j].command@ == c@
                        && self.data.temporary@[j].expires_at > now),
            decreases self.data.temporary.len() - i,
        {
            let e = &self.data.temporary[i];
            if e.expires_at > now && crate::text::str_eq(e.command.as_str(), c.as_str()) {
                proof {
                    let t = temps_view(self.data.temporary@);
                    assert(t[i as int].0 == c@ && t[i as int].1 > now);
                    assert(temp_allows(t, c@, now));
                    assert(self.model().temporary == t);
                }
                return Ok(true);
            }
            i += 1;
        }
        proof {
            let t = temps_view(self.data.temporary@);
            if temp_allows(t, c@, now) {
                let j = choose|j: int| 0 <= j < t.len() && t[j].0 == c@ && t[j].1 > now;
                assert(self.data.temporary@[j].command@ == c@);
            }
        }
        let r = patterns_allow(&self.data.patterns, c.as_str());
        r
    }

    /// `is_allowed_at` at the current time.
    pub fn is_allowed(&self, command: &str) -> (r: Result<bool, MentalOSError>)
        ensures
            exists|now: i64| allowed_result(self.model(), command@, now, r),
    {
        let now = utc_now_millis();
        self.is_allowed_at(command, now)
    }

    /// Drops the lapsed approvals, then answers whether the command may run
    /// at once; errors of `is_allowed_at` are passed on.
    pub fn decision_at(&mut self, command: &str, now: i64) -> (r: Result<WhitelistDecision, MentalOSError>)
        ensures
            final(self).model() == cleaned(old(self).model(), now),
            final(self).file() == old(self).file(),
            final(self).version() == old(self).version(),
            exists|a: Result<bool, MentalOSError>|
                allowed_result(cleaned(old(self).model(), now), command@, now, a) && r == match a {
                    Ok(true) => Ok(WhitelistDecision::Allowed),
                    Ok(false) => Ok(WhitelistDecision::NeedsApproval),
                    Err(e) => Err::<WhitelistDecision, MentalOSError>(e),
                },
    {
        self.cleanup_expired_at(now);
        let a = self.is_allowed_at(command, now);
        match a {
            Ok(true) => Ok(WhitelistDecision::Allowed),
            Ok(false) => Ok(WhitelistDecision::NeedsApproval),
            Err(e) => Err(e),
        }
    }

    /// `decision_at` at the current time.
    pub fn decision(&mut self, command: &str) -> (r: Result<WhitelistDecision, MentalOSError>)
        ensures
            final(self).file() == old(self).file(),
            exists|now: i64, a: Result<bool, MentalOSError>|
                final(self).model() == cleaned(old(self).model(), now) && allowed_result(
                    cleaned(old(self).model(), now),
                    command@,
                    now,
                    a,
                ) && r == match a {
                    Ok(true) => Ok(WhitelistDecision::Allowed),
                    Ok(false) => Ok(WhitelistDecision::NeedsApproval),
                    Err(e) => Err::<WhitelistDecision, MentalOSError>(e),
                },
    {
        let now = utc_now_millis();
        self.decision_at(command, now)
    }
}

} // verus!
