//! The application launcher: reading `.desktop` entries, cleaning their
//! `Exec` lines, and filtering them by a query.
use crate::memory::{lines_from, split_lines, words, words_of};
use crate::router::{joined_with, texts};
use crate::text::{
    chars_of, contains_text, has_prefix, str_contains, string_of, sub_chars, to_lowercase, trim_chars,
    trimmed, unicode_lower,
};
use vstd::prelude::*;

verus! {

/// An application found in a `.desktop` file.
#[derive(Debug, Clone)]
pub struct DesktopEntry {
    pub name: String,
    pub command: String,
    pub comment: String,
}

/// What has been read of a `.desktop` file so far.
pub struct DesktopScan {
    pub name: Seq<char>,
    pub command: Seq<char>,
    pub comment: Seq<char>,
    pub no_display: bool,
    pub in_entry: bool,
    pub stopped: bool,
}

pub open spec fn scan_start() -> DesktopScan {
    DesktopScan {
        name: Seq::empty(),
        command: Seq::empty(),
        comment: Seq::empty(),
        no_display: false,
        in_entry: false,
        stopped: false,
    }
}

/// One line of a `.desktop` file. Only the `[Desktop Entry]` section is
/// read; the next section ends it. The first `Name=` and `Comment=` count,
/// the last `Exec=`.
pub open spec fn desktop_step(st: DesktopScan, line: Seq<char>) -> DesktopScan {
    let l = trimmed(line);
    if st.stopped {
        st
    } else if l == "[Desktop Entry]"@ {
        DesktopScan { in_entry: true, ..st }
    } else if l.len() > 0 && l[0] == '[' {
        if st.in_entry {
            DesktopScan { stopped: true, ..st }
        } else {
            st
        }
    } else if !st.in_entry {
        st
    } else if has_prefix(l, "Name="@) {
        if st.name.len() == 0 {
            DesktopScan { name: l.subrange(5, l.len() as int), ..st }
        } else {
            st
        }
    } else if has_prefix(l, "Exec="@) {
        DesktopScan { command: l.subrange(5, l.len() as int), ..st }
    } else if has_prefix(l, "Comment="@) {
        if st.comment.len() == 0 {
            DesktopScan { comment: l.subrange(8, l.len() as int), ..st }
        } else {
            st
        }
    } else if has_prefix(l, "NoDisplay=true"@) {
        DesktopScan { no_display: true, ..st }
    } else {
        st
    }
}

pub open spec fn desktop_scan(ls: Seq<Seq<char>>) -> DesktopScan
    decreases ls.len(),
{
    if ls.len() == 0 {
        scan_start()
    } else {
        desktop_step(desktop_scan(ls.drop_last()), ls.last())
    }
}

/// The application a `.desktop` file describes: none without a name or an
/// `Exec` line, or when it asks not to be shown.
pub open spec fn desktop_entry_of(content: Seq<char>) -> Option<(Seq<char>, Seq<char>, Seq<char>)> {
    let st = desktop_scan(lines_from(content, 0));
    if st.name.len() == 0 || st.command.len() == 0 || st.no_display {
        None
    } else {
        Some((st.name, st.command, st.comment))
    }
}

fn prefixed(l: &Vec<char>, p: &str) -> (b: bool)
    ensures
        b == has_prefix(l@, p@),
{
    let pv = chars_of(p);
    crate::text::starts_with(l, &pv)
}

/// Reads the text of a `.desktop` file.
pub fn parse_desktop_entry(content: &str) -> (r: Option<DesktopEntry>)
    ensures
        match desktop_entry_of(content@) {
            Some(e) => r matches Some(d) && d.name@ == e.0 && d.command@ == e.1 && d.comment@ == e.2,
            None => r is None,
        },
{
    let lines = split_lines(&chars_of(content));
    let ghost lv = lines@.map_values(|l: Vec<char>| l@);
    let mut name: Vec<char> = Vec::new();
    let mut command: Vec<char> = Vec::new();
    let mut comment: Vec<char> = Vec::new();
    let mut no_display = false;
    let mut in_entry = false;
    let mut stopped = false;
    let mut i: usize = 0;
    proof {
        assert(lv.subrange(0, 0).len() == 0);
        reveal_strlit("[Desktop Entry]");
        reveal_strlit("Name=");
        reveal_strlit("Exec=");
        reveal_strlit("Comment=");
        reveal_strlit("NoDisplay=true");
    }
    while i < lines.len()
        invariant
            i <= lines.len(),
            lv == lines@.map_values(|l: Vec<char>| l@),
            desktop_scan(lv.subrange(0, i as int)) == (DesktopScan {
                name: name@,
                command: command@,
                comment: comment@,
                no_display,
                in_entry,
                stopped,
            }),
        decreases lines.len() - i,
    {
        let ghost pre = lv.subrange(0, i as int + 1);
        proof {
            assert(pre.drop_last() == lv.subrange(0, i as int));
            assert(pre.last() == lines@[i as int]@);
        }
        proof {
            reveal_strlit("[Desktop Entry]");
            reveal_strlit("Name=");
            reveal_strlit("Exec=");
            reveal_strlit("Comment=");
            reveal_strlit("NoDisplay=true");
        }
        if !stopped {
            let l = trim_chars(&lines[i]);
            let header = chars_of("[Desktop Entry]");
            if crate::text::chars_eq(&l, &header) {
                in_entry = true;
            } else if l.len() > 0 && l[0] == '[' {
                if in_entry {
                    stopped = true;
                }
            } else if !in_entry {
            } else if prefixed(&l, "Name=") {
                if name.len() == 0 {
                    name = sub_chars(&l, 5, l.len());
                }
            } else if prefixed(&l, "Exec=") {
                command = sub_chars(&l, 5, l.len());
            } else if prefixed(&l, "Comment=") {
                if comment.len() == 0 {
                    comment = sub_chars(&l, 8, l.len());
                }
            } else if prefixed(&l, "NoDisplay=true") {
                no_display = true;
            }
        }
        i += 1;
    }
    proof {
        assert(lv.subrange(0, lv.len() as int) == lv);
    }
    if name.len() == 0 || command.len() == 0 || no_display {
        None
    } else {
        Some(DesktopEntry { name: string_of(&name), command: string_of(&command), comment: string_of(&comment) })
    }
}

/// The words of an `Exec` line that are not field codes (`%f`, `%U`, ...).
pub open spec fn exec_words(ws: Seq<Seq<char>>) -> Seq<Seq<char>>
    decreases ws.len(),
{
    if ws.len() == 0 {
        Seq::empty()
    } else {
        let rest = exec_words(ws.drop_last());
        let w = ws.last();
        if w.len() > 0 && w[0] == '%' {
            rest
        } else {
            rest.push(w)
        }
    }
}

/// An `Exec` line without its field codes, words joined by single spaces.
pub fn clean_exec_command(line: &str) -> (r: String)
    ensures
        r@ == joined_with(exec_words(words(line@)), " "@),
{
    let ws = words_of(&chars_of(line));
    let ghost wv = ws@.map_values(|w: Vec<char>| w@);
    let mut kept: Vec<String> = Vec::new();
    let mut i: usize = 0;
    proof {
        assert(wv.subrange(0, 0).len() == 0);
    }
    while i < ws.len()
        invariant
            i <= ws.len(),
            wv == ws@.map_values(|w: Vec<char>| w@),
            texts(kept@) == exec_words(wv.subrange(0, i as int)),
        decreases ws.len() - i,
    {
        let ghost pre = wv.subrange(0, i as int + 1);
        proof {
            assert(pre.drop_last() == wv.subrange(0, i as int));
            assert(pre.last() == ws@[i as int]@);
        }
        if !(ws[i].len() > 0 && ws[i][0] == '%') {
            let w = string_of(&ws[i]);
            let ghost before = kept@;
            kept.push(w);
            proof {
                assert(texts(kept@) == texts(before).push(w@));
            }
        }
        i += 1;
    }
    proof {
        assert(wv.subrange(0, wv.len() as int) == wv);
    }
    crate::router::join_texts(&kept, " ")
}

/// The hint under the list of applications.
pub fn launcher_hint_text() -> (r: String)
    ensures
        r@ == "Enter to launch \u{2022} Esc to close"@,
{
    String::from_str("Enter to launch \u{2022} Esc to close")
}

/// Whether an entry's name, comment or command contains the (lower-cased)
/// query, case aside.
pub open spec fn entry_matches(e: DesktopEntry, query_lower: Seq<char>) -> bool {
    contains_text(unicode_lower(e.name@), query_lower) || contains_text(unicode_lower(e.comment@), query_lower)
        || contains_text(unicode_lower(e.command@), query_lower)
}

/// Whether an entry matches a lower-cased query.
pub fn matches_entry_query(entry: &DesktopEntry, query_lower: &str) -> (b: bool)
    ensures
        b == entry_matches(*entry, query_lower@),
{
    let n = to_lowercase(entry.name.as_str());
    if str_contains(n.as_str(), query_lower) {
        return true;
    }
    let c = to_lowercase(entry.comment.as_str());
    if str_contains(c.as_str(), query_lower) {
        return true;
    }
    let e = to_lowercase(entry.command.as_str());
    str_contains(e.as_str(), query_lower)
}

/// Whether the launcher lists an entry for a query: always for an empty
/// query, otherwise when it matches, case aside.
pub open spec fn shown(e: DesktopEntry, query: Seq<char>) -> bool {
    query.len() == 0 || entry_matches(e, unicode_lower(query))
}

/// The positions of the listed entries among the first `n`, in order.
pub open spec fn visible_upto(entries: Seq<DesktopEntry>, query: Seq<char>, n: int) -> Seq<usize>
    decreases n,
{
    if n <= 0 {
        Seq::empty()
    } else {
        let r = visible_upto(entries, query, n - 1);
        if shown(entries[n - 1], query) {
            r.push((n - 1) as usize)
        } else {
            r
        }
    }
}

/// The positions of the entries the launcher lists for a query.
pub fn visible_entries(entries: &Vec<DesktopEntry>, query: &str) -> (r: Vec<usize>)
    ensures
        r@ == visible_upto(entries@, query@, entries@.len() as int),
{
    let q = to_lowercase(query);
    let mut r: Vec<usize> = Vec::new();
    let mut i: usize = 0;
    while i < entries.len()
        invariant
            i <= entries.len(),
            q@ == unicode_lower(query@),
            r@ == visible_upto(entries@, query@, i as int),
        decreases entries.len() - i,
    {
        let show = query.is_empty() || matches_entry_query(&entries[i], q.as_str());
        if show {
            r.push(i);
        }
        i += 1;
    }
    r
}

/// What the launcher shows when nothing matches.
pub fn no_applications_message(query: &str) -> (r: String)
    ensures
        r@ == if trimmed(query@).len() == 0 {
            "No applications found."@
        } else {
            "No applications found for '"@ + query@ + "'."@
        },
{
    let t = crate::text::trim_str(query);
    if t.as_str().is_empty() {
        String::from_str("No applications found.")
    } else {
        crate::text::concat3("No applications found for '", query, "'.")
    }
}


// ---------------------------------------------------------------------------
// Starting programs
// ---------------------------------------------------------------------------

/// The program and arguments that start an application: the words of its
/// cleaned `Exec` line, the first being the program; none when no word is
/// left.
pub open spec fn app_invocation_of(line: Seq<char>) -> Option<(Seq<char>, Seq<Seq<char>>)> {
    let ws = exec_words(words(line));
    if ws.len() == 0 {
        None
    } else {
        Some((ws[0], ws.drop_first()))
    }
}

/// The program and arguments that start an application; see
/// `app_invocation_of`.
pub fn app_invocation(line: &str) -> (r: Option<(String, Vec<String>)>)
    ensures
        match app_invocation_of(line@) {
            Some((p, a)) => r matches Some((rp, ra)) && rp@ == p && texts(ra@) == a,
            None => r is None,
        },
{
    let ws = words_of(&chars_of(line));
    let ghost wv = ws@.map_values(|w: Vec<char>| w@);
    let mut kept: Vec<String> = Vec::new();
    let mut i: usize = 0;
    proof {
        assert(wv.subrange(0, 0).len() == 0);
    }
    while i < ws.len()
        invariant
            i <= ws.len(),
            wv == ws@.map_values(|w: Vec<char>| w@),
            texts(kept@) == exec_words(wv.subrange(0, i as int)),
        decreases ws.len() - i,
    {
        let ghost pre = wv.subrange(0, i as int + 1);
        proof {
            assert(pre.drop_last() == wv.subrange(0, i as int));
            assert(pre.last() == ws@[i as int]@);
        }
        if !(ws[i].len() > 0 && ws[i][0] == '%') {
            let w = string_of(&ws[i]);
            let ghost before = kept@;
            kept.push(w);
            proof {
                assert(texts(kept@) == texts(before).push(w@));
            }
        }
        i += 1;
    }
    proof {
        assert(wv.subrange(0, wv.len() as int) == wv);
    }
    if kept.len() == 0 {
        return None;
    }
    let ghost all = texts(kept@);
    let program = kept.remove(0);
    proof {
        assert(texts(kept@) =~= all.drop_first());
    }
    Some((program, kept))
}

/// The terminals tried in turn when none is configured, with their
/// arguments.
pub open spec fn terminal_list() -> Seq<(Seq<char>, Seq<Seq<char>>)> {
    seq![
        ("foot"@, Seq::empty()),
        ("alacritty"@, Seq::empty()),
        ("kitty"@, Seq::empty()),
        ("wezterm"@, seq!["start"@]),
        ("gnome-terminal"@, Seq::empty()),
        ("konsole"@, Seq::empty()),
        ("xfce4-terminal"@, Seq::empty()),
        ("xterm"@, Seq::empty()),
    ]
}

fn candidate(program: &str, args: Vec<String>) -> (r: (String, Vec<String>))
    ensures
        r.0@ == program@,
        r.1@ == args@,
{
    (String::from_str(program), args)
}

/// The terminals tried in turn when none is configured.
pub fn terminal_candidates() -> (r: Vec<(String, Vec<String>)>)
    ensures
        r@.map_values(|c: (String, Vec<String>)| (c.0@, texts(c.1@))) == terminal_list(),
{
    let mut r: Vec<(String, Vec<String>)> = Vec::new();
    r.push(candidate("foot", Vec::new()));
    r.push(candidate("alacritty", Vec::new()));
    r.push(candidate("kitty", Vec::new()));
    let mut start: Vec<String> = Vec::new();
    start.push(String::from_str("start"));
    proof {
        reveal_strlit("start");
        assert(texts(start@) =~= seq!["start"@]);
    }
    r.push(candidate("wezterm", start));
    r.push(candidate("gnome-terminal", Vec::new()));
    r.push(candidate("konsole", Vec::new()));
    r.push(candidate("xfce4-terminal", Vec::new()));
    r.push(candidate("xterm", Vec::new()));
    proof {
        reveal_strlit("foot");
        reveal_strlit("alacritty");
        reveal_strlit("kitty");
        reveal_strlit("wezterm");
        reveal_strlit("start");
        reveal_strlit("gnome-terminal");
        reveal_strlit("konsole");
        reveal_strlit("xfce4-terminal");
        reveal_strlit("xterm");
        assert(texts(Seq::<String>::empty()) =~= Seq::<Seq<char>>::empty());
        assert(r@.map_values(|c: (String, Vec<String>)| (c.0@, texts(c.1@))) =~= terminal_list());
    }
    r
}

/// The program and arguments of the configured terminal command line
/// (`None` when it has no words); an error when a quote is left open.
pub fn terminal_command(command: &str) -> (r: Result<Option<(String, Vec<String>)>, String>)
    ensures
        match crate::router::shell_words_of(command@) {
            None => r matches Err(m) && m@ == "Invalid $TERMINAL value '"@ + command@ + "': missing closing quote"@,
            Some(w) => if w.len() == 0 {
                r matches Ok(None)
            } else {
                r matches Ok(Some((p, a))) && p@ == w[0] && texts(a@) == w.drop_first()
            },
        },
{
    match crate::router::shell_split(command) {
        None => {
            let mut m = String::from_str("Invalid $TERMINAL value '");
            m.append(command);
            m.append("': missing closing quote");
            Err(m)
        },
        Some(w) => {
            let mut w = w;
            if w.len() == 0 {
                return Ok(None);
            }
            let ghost all = texts(w@);
            let p = w.remove(0);
            proof {
                assert(texts(w@) =~= all.drop_first());
            }
            Ok(Some((p, w)))
        },
    }
}

} // verus!
