//! Keyboard shortcut definitions, user bindings and the shortcut grammar.
//!
//! A shortcut is written as modifiers and one key joined by `+`, such as
//! `Ctrl+Shift+M`. Whitespace is ignored, case does not matter, and a compact
//! form without `+` after the first modifier (`Ctrl/`, `ShiftTab`) is accepted.
use crate::assoc::{assoc_find, assoc_insert, assoc_map, distinct_keys, lemma_assoc_value};
use crate::error::MentalOSError;
use crate::text::{
    chars_of, has_prefix, is_ascii_alnum, is_ascii_digit, lower, lower_chars, remove_ws, starts_with,
    str_eq, str_eq_ignore_case, eq_ignore_case, string_of, trim_chars, trim_str, trimmed, without_ws,
};
use vstd::prelude::*;
use vstd::string::*;

verus! {

/// One action that can be bound to a shortcut.
#[derive(Debug, Clone, Copy)]
pub struct ShortcutDefinition {
    pub id: &'static str,
    pub label: &'static str,
    pub description: &'static str,
    pub default: &'static str,
}

/// The (id, default shortcut) pairs of all actions, in order.
pub open spec fn default_table() -> Seq<(Seq<char>, Seq<char>)> {
    seq![
        ("focus_input"@, "Ctrl+L"@),
        ("open_launcher"@, "Ctrl+K"@),
        ("open_memory_browser"@, "Ctrl+Shift+M"@),
        ("open_tasks_browser"@, "Ctrl+Shift+J"@),
        ("open_sync_selection"@, "Ctrl+Shift+S"@),
        ("new_chat"@, "Ctrl+N"@),
        ("toggle_high_contrast"@, "Ctrl+Shift+H"@),
        ("font_increase"@, "Ctrl+Plus"@),
        ("font_decrease"@, "Ctrl+Minus"@),
        ("font_reset"@, "Ctrl+0"@),
        ("show_help"@, "Ctrl+Slash"@),
        ("manage_shortcuts"@, "Ctrl+Comma"@),
        ("show_onboarding"@, "Ctrl+Shift+T"@),
        ("emergency_stop"@, "Ctrl+Shift+Q"@),
    ]
}

/// The label of each action, in the order of `default_table`.
pub open spec fn label_table() -> Seq<Seq<char>> {
    seq![
        "Focus input"@,
        "Open app launcher"@,
        "Open memory browser"@,
        "Open tasks browser"@,
        "Open sync selection"@,
        "Start new chat"@,
        "Toggle high contrast mode"@,
        "Increase font size"@,
        "Decrease font size"@,
        "Reset font size"@,
        "Show shortcuts help"@,
        "Manage shortcuts"@,
        "Show onboarding tutorial"@,
        "Emergency stop"@,
    ]
}

fn def(
    id: &'static str,
    label: &'static str,
    description: &'static str,
    default: &'static str,
) -> (d: ShortcutDefinition)
    ensures
        d.id@ == id@,
        d.label@ == label@,
        d.default@ == default@,
{
    ShortcutDefinition { id, label, description, default }
}

/// All actions with their labels, descriptions and default shortcuts.
pub fn shortcut_definitions() -> (defs: Vec<ShortcutDefinition>)
    ensures
        defs.len() == default_table().len(),
        forall|i: int|
            0 <= i < defs.len() ==> (#[trigger] defs@[i]).id@ == default_table()[i].0
                && defs@[i].default@ == default_table()[i].1,
        forall|i: int| 0 <= i < defs.len() ==> (#[trigger] defs@[i]).label@ == label_table()[i],
{
    let v = vec![
        def("focus_input", "Focus input", "Move focus to the main prompt input.", "Ctrl+L"),
        def(
            "open_launcher",
            "Open app launcher",
            "Open the installed applications launcher dialog.",
            "Ctrl+K",
        ),
        def(
            "open_memory_browser",
            "Open memory browser",
            "Browse stored conversation memory sessions.",
            "Ctrl+Shift+M",
        ),
        def(
            "open_tasks_browser",
            "Open tasks browser",
            "Open the tracked tasks dialog.",
            "Ctrl+Shift+J",
        ),
        def(
            "open_sync_selection",
            "Open sync selection",
            "Open conversation sync selection dialog.",
            "Ctrl+Shift+S",
        ),
        def(
            "new_chat",
            "Start new chat",
            "Clear the current conversation and start a new chat.",
            "Ctrl+N",
        ),
        def(
            "toggle_high_contrast",
            "Toggle high contrast mode",
            "Toggle high-contrast UI colors for readability.",
            "Ctrl+Shift+H",
        ),
        def("font_increase", "Increase font size", "Increase UI font size.", "Ctrl+Plus"),
        def("font_decrease", "Decrease font size", "Decrease UI font size.", "Ctrl+Minus"),
        def("font_reset", "Reset font size", "Reset UI font size to normal.", "Ctrl+0"),
        def(
            "show_help",
            "Show shortcuts help",
            "Open the keyboard shortcuts help dialog.",
            "Ctrl+Slash",
        ),
        def(
            "manage_shortcuts",
            "Manage shortcuts",
            "Open shortcut configuration settings.",
            "Ctrl+Comma",
        ),
        def(
            "show_onboarding",
            "Show onboarding tutorial",
            "Open the first-run onboarding tutorial dialog.",
            "Ctrl+Shift+T",
        ),
        def(
            "emergency_stop",
            "Emergency stop",
            "Immediately stop active AI operations.",
            "Ctrl+Shift+Q",
        ),
    ];
    proof {
        assert(v@.len() == 14);
    }
    v
}

/// Index of the first action with that id.
pub open spec fn table_index(t: Seq<(Seq<char>, Seq<char>)>, id: Seq<char>) -> Option<int>
    decreases t.len(),
{
    if t.len() == 0 {
        None
    } else {
        match table_index(t.drop_last(), id) {
            Some(i) => Some(i),
            None => if t.last().0 == id {
                Some(t.len() - 1)
            } else {
                None
            },
        }
    }
}

/// The default shortcut of an action; "Ctrl+K" for an unknown one.
pub open spec fn default_of(id: Seq<char>) -> Seq<char> {
    match table_index(default_table(), id) {
        Some(i) => default_table()[i].1,
        None => "Ctrl+K"@,
    }
}

/// The default shortcut of an action; "Ctrl+K" for an unknown one.
pub fn default_for(action_id: &str) -> (r: &'static str)
    ensures
        r@ == default_of(action_id@),
{
    let defs = shortcut_definitions();
    let mut i: usize = 0;
    while i < defs.len()
        invariant
            i <= defs.len(),
            defs.len() == default_table().len(),
            forall|j: int|
                0 <= j < defs.len() ==> (#[trigger] defs@[j]).id@ == default_table()[j].0
                    && defs@[j].default@ == default_table()[j].1,
            table_index(default_table().subrange(0, i as int), action_id@) is None,
        decreases defs.len() - i,
    {
        let hit = str_eq(defs[i].id, action_id);
        proof {
            let t = default_table().subrange(0, i + 1);
            assert(t.drop_last() =~= default_table().subrange(0, i as int));
            assert(t.last() == default_table()[i as int]);
        }
        if hit {
            proof {
                lemma_table_index_prefix(default_table(), action_id@, i + 1);
            }
            return defs[i].default;
        }
        i += 1;
    }
    proof {
        assert(default_table().subrange(0, i as int) =~= default_table());
    }
    "Ctrl+K"
}

proof fn lemma_table_index_prefix(t: Seq<(Seq<char>, Seq<char>)>, id: Seq<char>, n: int)
    requires
        0 < n <= t.len(),
        table_index(t.subrange(0, n - 1), id) is None,
        t[n - 1].0 == id,
    ensures
        table_index(t, id) == Some(n - 1),
    decreases t.len(),
{
    if n < t.len() {
        assert(t.drop_last().subrange(0, n - 1) =~= t.subrange(0, n - 1));
        lemma_table_index_prefix(t.drop_last(), id, n);
    } else {
        assert(t.subrange(0, n - 1) =~= t.drop_last());
    }
}

/// The shortcut of an action: its binding, or its default when it has none.
pub open spec fn shortcut_of(bindings: Map<Seq<char>, String>, action_id: Seq<char>) -> Seq<char> {
    if bindings.dom().contains(action_id) {
        bindings[action_id]@
    } else {
        default_of(action_id)
    }
}

/// A shortcut set for an action is the one read back for it (trimmed), and
/// the shortcuts of other actions stay as they were.
pub proof fn law_set_shortcut_is_read_back(
    bindings: Map<Seq<char>, String>,
    action_id: Seq<char>,
    combo: String,
    other: Seq<char>,
)
    requires
        other != action_id,
    ensures
        shortcut_of(bindings.insert(action_id, combo), action_id) == combo@,
        shortcut_of(bindings.insert(action_id, combo), other) == shortcut_of(bindings, other),
{
}

/// The user's shortcut for each action.
#[derive(Debug, Clone)]
pub struct ShortcutBindings {
    bindings: Vec<(String, String)>,
}

impl ShortcutBindings {
    /// Shortcut by action id.
    pub closed spec fn bindings(&self) -> Map<Seq<char>, String> {
        assoc_map(self.bindings@)
    }

    pub closed spec fn wf(&self) -> bool {
        distinct_keys(self.bindings@)
    }

    /// The bindings kept as (action id, shortcut) pairs.
    pub fn from_pairs(pairs: Vec<(String, String)>) -> (b: Self)
        ensures
            b.wf(),
            b.bindings() == assoc_map(pairs@),
    {
        let mut b = ShortcutBindings { bindings: Vec::new() };
        let mut i: usize = 0;
        while i < pairs.len()
            invariant
                i <= pairs.len(),
                distinct_keys(b.bindings@),
                assoc_map(b.bindings@) == assoc_map(pairs@.subrange(0, i as int)),
            decreases pairs.len() - i,
        {
            let k = pairs[i].0.clone();
            let v = pairs[i].1.clone();
            assoc_insert(&mut b.bindings, k, v);
            proof {
                let s = pairs@.subrange(0, i + 1);
                assert(s.drop_last() =~= pairs@.subrange(0, i as int));
            }
            i += 1;
        }
        proof {
            assert(pairs@.subrange(0, i as int) =~= pairs@);
        }
        b
    }

    /// The pairs, in the order in which they are kept.
    pub fn to_pairs(&self) -> (pairs: &Vec<(String, String)>)
        ensures
            assoc_map(pairs@) == self.bindings(),
    {
        &self.bindings
    }

    /// The bound shortcut of an action, or its default when none is bound.
    pub fn get(&self, action_id: &str) -> (r: String)
        requires
            self.wf(),
        ensures
            r@ == shortcut_of(self.bindings(), action_id@),
    {
        match assoc_find(&self.bindings, action_id) {
            Some(i) => {
                proof {
                    lemma_assoc_value(self.bindings@, i as int);
                }
                self.bindings[i].1.clone()
            },
            None => String::from_str(default_for(action_id)),
        }
    }

    /// Binds an action to a shortcut (with surrounding whitespace removed).
    pub fn set(&mut self, action_id: &str, combo: &str)
        requires
            old(self).wf(),
        ensures
            final(self).wf(),
            final(self).bindings().dom() == old(self).bindings().dom().insert(action_id@),
            final(self).bindings()[action_id@]@ == trimmed(combo@),
            forall|k: Seq<char>|
                k != action_id@ ==> #[trigger] final(self).bindings().dom().contains(k)
                    == old(self).bindings().dom().contains(k) && (old(
                    self,
                ).bindings().dom().contains(k) ==> final(self).bindings()[k] == old(
                    self,
                ).bindings()[k]),
    {
        let combo = trim_str(combo);
        assoc_insert(&mut self.bindings, String::from_str(action_id), combo);
    }

    /// Binds every action that has no binding to its default.
    pub fn fill_missing_defaults(&mut self)
        requires
            old(self).wf(),
        ensures
            final(self).wf(),
            forall|k: Seq<char>|
                #[trigger] old(self).bindings().dom().contains(k) ==> final(self).bindings().dom().contains(k)
                    && final(self).bindings()[k] == old(self).bindings()[k],
            forall|i: int|
                0 <= i < default_table().len() ==> #[trigger] final(self).bindings().dom().contains(
                    default_table()[i].0,
                ),
            forall|i: int|
                0 <= i < default_table().len() && !old(self).bindings().dom().contains(
                    default_table()[i].0,
                ) ==> #[trigger] final(self).bindings()[default_table()[i].0]@ == default_of(
                    default_table()[i].0,
                ),
            forall|k: Seq<char>|
                #[trigger] final(self).bindings().dom().contains(k) ==> old(self).bindings().dom().contains(k)
                    || table_index(default_table(), k) is Some,
    {
        let defs = shortcut_definitions();
        let mut i: usize = 0;
        while i < defs.len()
            invariant
                i <= defs.len(),
                defs.len() == default_table().len(),
                forall|j: int|
                    0 <= j < defs.len() ==> (#[trigger] defs@[j]).id@ == default_table()[j].0
                        && defs@[j].default@ == default_table()[j].1,
                distinct_keys(self.bindings@),
                forall|k: Seq<char>|
                    #[trigger] old(self).bindings().dom().contains(k) ==> assoc_map(self.bindings@).dom().contains(k)
                        && assoc_map(self.bindings@)[k] == old(self).bindings()[k],
                forall|j: int|
                    0 <= j < i ==> #[trigger] assoc_map(self.bindings@).dom().contains(
                        default_table()[j].0,
                    ),
                forall|j: int|
                    0 <= j < i && !old(self).bindings().dom().contains(default_table()[j].0)
                        ==> #[trigger] assoc_map(self.bindings@)[default_table()[j].0]@ == default_of(
                        default_table()[j].0,
                    ),
                forall|k: Seq<char>|
                    #[trigger] assoc_map(self.bindings@).dom().contains(k) ==> old(self).bindings().dom().contains(k)
                        || in_prefix(k, i as int),
            decreases defs.len() - i,
        {
            let id = defs[i].id;
            if assoc_find(&self.bindings, id).is_none() {
                proof {
                    assert forall|j: int| 0 <= j < i implies default_table()[j].0 != default_table()[i as int].0 by {
                        assert(assoc_map(self.bindings@).dom().contains(default_table()[j].0));
                    }
                    lemma_first_at(default_table(), i as int);
                }
                let d = String::from_str(defs[i].default);
                assoc_insert(&mut self.bindings, String::from_str(id), d);
            }
            proof {
                assert forall|k: Seq<char>|
                    #[trigger] assoc_map(self.bindings@).dom().contains(k) implies old(self).bindings().dom().contains(k)
                        || in_prefix(k, i + 1) by {
                    if in_prefix(k, i as int) {
                        let j = choose|j: int| 0 <= j < i && default_table()[j].0 == k;
                        assert(0 <= j < i + 1 && default_table()[j].0 == k);
                    }
                    if k == default_table()[i as int].0 {
                        assert(0 <= i < i + 1 && default_table()[i as int].0 == k);
                    }
                }
                let id = default_table()[i as int].0;
                if !old(self).bindings().dom().contains(id) && in_prefix(id, i as int) {
                    let j = choose|j: int| 0 <= j < i && default_table()[j].0 == id;
                    assert(assoc_map(self.bindings@)[default_table()[j].0]@ == default_of(default_table()[j].0));
                }
            }
            i += 1;
        }
        proof {
            assert forall|k: Seq<char>|
                #[trigger] assoc_map(self.bindings@).dom().contains(k) implies old(self).bindings().dom().contains(k)
                    || table_index(default_table(), k) is Some by {
                if in_prefix(k, defs.len() as int) {
                    let j = choose|j: int| 0 <= j < defs.len() && default_table()[j].0 == k;
                    lemma_table_index_some(default_table(), j);
                }
            }
        }
    }
}

/// Whether one of the first `i` actions has that id.
pub open spec fn in_prefix(k: Seq<char>, i: int) -> bool {
    exists|j: int| 0 <= j < i && default_table()[j].0 == k
}

/// An id whose earlier entries all differ is found at its own index.
proof fn lemma_first_at(t: Seq<(Seq<char>, Seq<char>)>, i: int)
    requires
        0 <= i < t.len(),
        forall|j: int| 0 <= j < i ==> t[j].0 != t[i].0,
    ensures
        table_index(t, t[i].0) == Some(i),
    decreases t.len(),
{
    if i < t.len() - 1 {
        let u = t.drop_last();
        assert(u[i] == t[i]);
        lemma_first_at(u, i);
    } else {
        lemma_not_found(t.drop_last(), t[i].0);
    }
}

proof fn lemma_not_found(t: Seq<(Seq<char>, Seq<char>)>, id: Seq<char>)
    requires
        forall|j: int| 0 <= j < t.len() ==> t[j].0 != id,
    ensures
        table_index(t, id) is None,
    decreases t.len(),
{
    if t.len() > 0 {
        lemma_not_found(t.drop_last(), id);
    }
}

/// Every id of the table is found.
proof fn lemma_table_index_some(t: Seq<(Seq<char>, Seq<char>)>, i: int)
    requires
        0 <= i < t.len(),
    ensures
        table_index(t, t[i].0) is Some,
    decreases t.len(),
{
    if i < t.len() - 1 {
        let u = t.drop_last();
        assert(u[i] == t[i]);
        lemma_table_index_some(u, i);
    }
}

impl Default for ShortcutBindings {
    /// Every action bound to its default shortcut.
    fn default() -> (b: Self)
        ensures
            b.wf(),
            forall|k: Seq<char>|
                #[trigger] b.bindings().dom().contains(k) <==> table_index(default_table(), k) is Some,
            forall|i: int|
                0 <= i < default_table().len() ==> #[trigger] b.bindings()[default_table()[i].0]@
                    == default_of(default_table()[i].0),
    {
        let mut b = ShortcutBindings { bindings: Vec::new() };
        proof {
            assert(assoc_map(b.bindings@) =~= Map::<Seq<char>, String>::empty());
        }
        b.fill_missing_defaults();
        proof {
            assert forall|k: Seq<char>|
                #[trigger] b.bindings().dom().contains(k) <==> table_index(default_table(), k) is Some by {
                if table_index(default_table(), k) is Some {
                    let i = table_index(default_table(), k).unwrap();
                    lemma_table_index_valid(default_table(), k);
                    assert(b.bindings().dom().contains(default_table()[i].0));
                }
            }
        }
        b
    }
}

proof fn lemma_table_index_valid(t: Seq<(Seq<char>, Seq<char>)>, id: Seq<char>)
    ensures
        table_index(t, id) matches Some(i) ==> 0 <= i < t.len() && t[i].0 == id,
    decreases t.len(),
{
    if t.len() > 0 {
        lemma_table_index_valid(t.drop_last(), id);
    }
}


// ---------------------------------------------------------------------------
// The shortcut grammar
// ---------------------------------------------------------------------------

/// A shortcut that parsed: its modifiers and its (lower-case) key token.
#[derive(Debug)]
pub struct ParsedShortcut {
    pub ctrl: bool,
    pub shift: bool,
    pub alt: bool,
    pub key_token: String,
}

/// The modifier names after which the compact form may leave out `+`, in
/// the order in which they are tried.
pub open spec fn compact_prefixes() -> Seq<Seq<char>> {
    seq!["ctrl"@, "control"@, "shift"@, "alt"@, "mod1"@]
}

/// The text with `+` put after the first modifier name that it starts with
/// (ignoring ASCII case) and that does not make up all of it.
pub open spec fn with_plus(s: Seq<char>, prefixes: Seq<Seq<char>>) -> Seq<char>
    decreases prefixes.len(),
{
    if prefixes.len() == 0 {
        s
    } else {
        let p = prefixes[0];
        if has_prefix(lower(s), p) && s.len() > p.len() {
            s.subrange(0, p.len() as int) + seq!['+'] + s.subrange(p.len() as int, s.len() as int)
        } else {
            with_plus(s, prefixes.drop_first())
        }
    }
}

/// The shortcut text as it is read: whitespace removed, and `+` added after
/// a leading modifier when the text holds no `+`.
pub open spec fn cleaned(combo: Seq<char>) -> Seq<char> {
    let c = without_ws(combo);
    if c.contains('+') {
        c
    } else {
        with_plus(c, compact_prefixes())
    }
}

/// The parts of a text between `+` signs.
pub open spec fn split_plus(s: Seq<char>) -> Seq<Seq<char>>
    decreases s.len(),
{
    if s.len() == 0 {
        seq![Seq::<char>::empty()]
    } else {
        let p = split_plus(s.drop_last());
        if s.last() == '+' {
            p.push(Seq::<char>::empty())
        } else {
            p.update(p.len() - 1, p.last().push(s.last()))
        }
    }
}

pub proof fn lemma_split_nonempty(s: Seq<char>)
    ensures
        split_plus(s).len() >= 1,
    decreases s.len(),
{
    if s.len() > 0 {
        lemma_split_nonempty(s.drop_last());
    }
}

/// Reading state: (ctrl, shift, alt, key token); `None` once a second key
/// token was met.
pub type ScanState = Option<(bool, bool, bool, Option<Seq<char>>)>;

/// Reads one part.
pub open spec fn scan_step(st: ScanState, part: Seq<char>) -> ScanState {
    match st {
        None => None,
        Some((c, s, a, k)) => {
            let p = trimmed(part);
            let l = lower(p);
            if p.len() == 0 {
                st
            } else if l == "ctrl"@ || l == "control"@ {
                Some((true, s, a, k))
            } else if l == "shift"@ {
                Some((c, true, a, k))
            } else if l == "alt"@ || l == "mod1"@ {
                Some((c, s, true, k))
            } else if k is Some {
                None
            } else {
                Some((c, s, a, Some(l)))
            }
        },
    }
}

/// Reads the parts in order.
pub open spec fn scan_parts(parts: Seq<Seq<char>>) -> ScanState
    decreases parts.len(),
{
    if parts.len() == 0 {
        Some((false, false, false, None))
    } else {
        scan_step(scan_parts(parts.drop_last()), parts.last())
    }
}

/// The digits' value.
pub open spec fn digits_value(s: Seq<char>) -> nat
    decreases s.len(),
{
    if s.len() == 0 {
        0
    } else {
        digits_value(s.drop_last()) * 10 + ((s.last() as u32) - ('0' as u32)) as nat
    }
}

/// What `u8::from_str` accepts: an optional `+`, then one or more ASCII
/// digits whose value fits in a `u8`.
pub open spec fn parses_u8(s: Seq<char>) -> Option<nat> {
    let d = if s.len() > 0 && s[0] == '+' {
        s.drop_first()
    } else {
        s
    };
    if d.len() > 0 && all_digits(d) && digits_value(d) <= 255 {
        Some(digits_value(d))
    } else {
        None
    }
}

/// Every character is an ASCII digit.
pub open spec fn all_digits(d: Seq<char>) -> bool {
    forall|i: int| 0 <= i < d.len() ==> is_ascii_digit(#[trigger] d[i])
}

/// The key tokens that a shortcut may end in.
pub open spec fn is_supported_key(t: Seq<char>) -> bool {
    ||| t == "?"@ || t == "question"@ || t == "/"@ || t == "slash"@ || t == "plus"@ || t == "+"@
    ||| t == "equal"@ || t == "="@ || t == "minus"@ || t == "-"@ || t == "comma"@ || t == ","@
    ||| t == "escape"@ || t == "esc"@ || t == "tab"@ || t == "space"@ || t == "kp_divide"@
    ||| (t.len() == 1 && is_ascii_alnum(t[0]))
    ||| (t.len() > 1 && t[0] == 'f' && function_key_number_ok(t.drop_first()))
}

/// A function key number from 1 to 24.
pub open spec fn function_key_number_ok(s: Seq<char>) -> bool {
    match parses_u8(s) {
        Some(n) => 1 <= n <= 24,
        None => false,
    }
}

/// The outcome of parsing a shortcut: its modifiers and key token, or the
/// text of the error.
pub open spec fn parse_outcome(combo: Seq<char>) -> Result<(bool, bool, bool, Seq<char>), Seq<char>> {
    let c = cleaned(combo);
    if c.len() == 0 {
        Err("Shortcut cannot be empty"@)
    } else {
        match scan_parts(split_plus(c)) {
            None => Err("Invalid shortcut '"@ + combo + "': multiple key tokens"@),
            Some((_, _, _, None)) => Err("Invalid shortcut '"@ + combo + "': missing key token"@),
            Some((ctrl, shift, alt, Some(t))) => if is_supported_key(t) {
                Ok((ctrl, shift, alt, t))
            } else {
                Err("Unsupported key token '"@ + t + "' in '"@ + combo + "'"@)
            },
        }
    }
}

/// Whether the (lower-case) key token is one that a shortcut may end in.
pub fn is_supported_key_token(token: &str) -> (b: bool)
    ensures
        b == is_supported_key(token@),
{
    if str_eq(token, "?") || str_eq(token, "question") || str_eq(token, "/") || str_eq(token, "slash")
        || str_eq(token, "plus") || str_eq(token, "+") || str_eq(token, "equal") || str_eq(token, "=")
        || str_eq(token, "minus") || str_eq(token, "-") || str_eq(token, "comma") || str_eq(token, ",")
        || str_eq(token, "escape") || str_eq(token, "esc") || str_eq(token, "tab") || str_eq(
        token,
        "space",
    ) || str_eq(token, "kp_divide") {
        return true;
    }
    let t = chars_of(token);
    if t.len() == 1 {
        let c = t[0];
        return ('0' <= c && c <= '9') || ('a' <= c && c <= 'z') || ('A' <= c && c <= 'Z');
    }
    if t.len() > 1 && t[0] == 'f' {
        let mut rest: Vec<char> = Vec::new();
        let mut i: usize = 1;
        while i < t.len()
            invariant
                1 <= i <= t.len(),
                rest@ == t@.subrange(1, i as int),
            decreases t.len() - i,
        {
            rest.push(t[i]);
            i += 1;
            proof {
                assert(rest@ =~= t@.subrange(1, i as int));
            }
        }
        proof {
            assert(rest@ =~= t@.drop_first());
        }
        return match parse_u8(&rest) {
            Some(n) => 1 <= n && n <= 24,
            None => false,
        };
    }
    false
}

/// `u8::from_str` on a character vector.
fn parse_u8(s: &Vec<char>) -> (r: Option<u32>)
    ensures
        match parses_u8(s@) {
            Some(n) => r == Some(n as u32),
            None => r is None,
        },
{
    let start: usize = if s.len() > 0 && s[0] == '+' {
        1
    } else {
        0
    };
    let ghost d = if s@.len() > 0 && s@[0] == '+' {
        s@.drop_first()
    } else {
        s@
    };
    proof {
        assert(d =~= s@.subrange(start as int, s.len() as int));
    }
    if start >= s.len() {
        return None;
    }
    let mut acc: u32 = 0;
    let mut i: usize = start;
    while i < s.len()
        invariant
            start <= i <= s.len(),
            d == s@.subrange(start as int, s.len() as int),
            d == (if s@.len() > 0 && s@[0] == '+' {
                s@.drop_first()
            } else {
                s@
            }),
            forall|j: int| start <= j < i ==> is_ascii_digit(#[trigger] s@[j]),
            acc == (if digits_value(s@.subrange(start as int, i as int)) <= 256 {
                digits_value(s@.subrange(start as int, i as int))
            } else {
                256
            }),
        decreases s.len() - i,
    {
        let c = s[i];
        if !('0' <= c && c <= '9') {
            proof {
                assert(d[i - start] == c);
                assert(!is_ascii_digit(d[i - start]));
                assert(!all_digits(d));
            }
            return None;
        }
        let dv = (c as u32) - ('0' as u32);
        proof {
            let p = s@.subrange(start as int, i + 1);
            assert(p.drop_last() =~= s@.subrange(start as int, i as int));
            assert(p.last() == c);
        }
        acc = if acc >= 256 {
            256
        } else {
            let v = acc * 10 + dv;
            if v > 256 {
                256
            } else {
                v
            }
        };
        i += 1;
    }
    proof {
        assert(s@.subrange(start as int, s.len() as int) == d);
        assert forall|j: int| 0 <= j < d.len() implies is_ascii_digit(#[trigger] d[j]) by {
            assert(d[j] == s@[j + start]);
        }
        assert(all_digits(d));
    }
    if acc <= 255 {
        Some(acc)
    } else {
        None
    }
}

/// Whether the key token may be typed with Shift held although the shortcut
/// does not name Shift.
pub fn allows_implicit_shift(token: &str) -> (b: bool)
    ensures
        b == (token@ == "?"@ || token@ == "question"@ || token@ == "/"@ || token@ == "slash"@
            || token@ == "plus"@ || token@ == "+"@ || token@ == "equal"@ || token@ == "="@),
{
    str_eq(token, "?") || str_eq(token, "question") || str_eq(token, "/") || str_eq(token, "slash")
        || str_eq(token, "plus") || str_eq(token, "+") || str_eq(token, "equal") || str_eq(
        token,
        "=",
    )
}

/// `with_plus` with the compact prefixes.
fn insert_compact_plus(c: &Vec<char>) -> (r: Vec<char>)
    ensures
        r@ == with_plus(c@, compact_prefixes()),
{
    let lowered = lower_chars(c);
    let prefixes: Vec<Vec<char>> = vec![
        chars_of("ctrl"),
        chars_of("control"),
        chars_of("shift"),
        chars_of("alt"),
        chars_of("mod1"),
    ];
    let ghost ps = compact_prefixes();
    proof {
        assert(prefixes@.len() == 5);
        assert(ps.subrange(0, 5) =~= ps);
    }
    let mut k: usize = 0;
    while k < prefixes.len()
        invariant
            k <= prefixes.len(),
            prefixes.len() == 5,
            lowered@ == crate::text::lower(c@),
            ps == compact_prefixes(),
            forall|j: int| 0 <= j < 5 ==> (#[trigger] prefixes@[j])@ == ps[j],
            with_plus(c@, ps) == with_plus(c@, ps.subrange(k as int, 5)),
        decreases prefixes.len() - k,
    {
        let ghost rest = ps.subrange(k as int, 5);
        proof {
            assert(rest[0] == ps[k as int]);
            assert(rest.drop_first() =~= ps.subrange(k + 1, 5));
        }
        let p = &prefixes[k];
        if starts_with(&lowered, p) && c.len() > p.len() {
            let mut r: Vec<char> = Vec::new();
            let mut j: usize = 0;
            while j < p.len()
                invariant
                    j <= p.len(),
                    p.len() < c.len(),
                    r@ == c@.subrange(0, j as int),
                decreases p.len() - j,
            {
                r.push(c[j]);
                j += 1;
                proof {
                    assert(r@ =~= c@.subrange(0, j as int));
                }
            }
            r.push('+');
            let ghost mid = r@;
            while j < c.len()
                invariant
                    p.len() <= j <= c.len(),
                    mid == c@.subrange(0, p.len() as int) + seq!['+'],
                    r@ == mid + c@.subrange(p.len() as int, j as int),
                decreases c.len() - j,
            {
                r.push(c[j]);
                j += 1;
                proof {
                    assert(r@ =~= mid + c@.subrange(p.len() as int, j as int));
                }
            }
            return r;
        }
        k += 1;
    }
    proof {
        assert(ps.subrange(5, 5).len() == 0);
    }
    let mut r: Vec<char> = Vec::new();
    let mut j: usize = 0;
    while j < c.len()
        invariant
            j <= c.len(),
            r@ == c@.subrange(0, j as int),
        decreases c.len() - j,
    {
        r.push(c[j]);
        j += 1;
        proof {
            assert(r@ =~= c@.subrange(0, j as int));
        }
    }
    proof {
        assert(r@ =~= c@);
    }
    r
}

fn contains_plus(c: &Vec<char>) -> (b: bool)
    ensures
        b == c@.contains('+'),
{
    let mut i: usize = 0;
    while i < c.len()
        invariant
            i <= c.len(),
            forall|j: int| 0 <= j < i ==> c@[j] != '+',
        decreases c.len() - i,
    {
        if c[i] == '+' {
            return true;
        }
        i += 1;
    }
    false
}

/// What one part of a shortcut is.
enum PartKind {
    Empty,
    Ctrl,
    Shift,
    Alt,
    Key(Vec<char>),
}

fn classify_part(part: &Vec<char>) -> (k: PartKind)
    ensures
        ({
            let p = trimmed(part@);
            let l = lower(p);
            if p.len() == 0 {
                k is Empty
            } else if l == "ctrl"@ || l == "control"@ {
                k is Ctrl
            } else if l == "shift"@ {
                k is Shift
            } else if l == "alt"@ || l == "mod1"@ {
                k is Alt
            } else {
                k matches PartKind::Key(t) && t@ == l
            }
        }),
{
    let p = trim_chars(part);
    if p.len() == 0 {
        return PartKind::Empty;
    }
    let l = lower_chars(&p);
    let ls = string_of(&l);
    if str_eq(ls.as_str(), "ctrl") || str_eq(ls.as_str(), "control") {
        PartKind::Ctrl
    } else if str_eq(ls.as_str(), "shift") {
        PartKind::Shift
    } else if str_eq(ls.as_str(), "alt") || str_eq(ls.as_str(), "mod1") {
        PartKind::Alt
    } else {
        PartKind::Key(l)
    }
}

pub open spec fn key_view(k: Option<Vec<char>>) -> Option<Seq<char>> {
    match k {
        Some(v) => Some(v@),
        None => None,
    }
}

/// Reads a shortcut: its modifiers and key token, or the reason it is not one.
pub fn parse_shortcut(combo: &str) -> (r: Result<ParsedShortcut, MentalOSError>)
    ensures
        match parse_outcome(combo@) {
            Ok((c, s, a, t)) => (r matches Ok(p) && p.ctrl == c && p.shift == s && p.alt == a
                && p.key_token@ == t),
            Err(m) => (r matches Err(MentalOSError::ConfigInvalid(e)) && e@ == m),
        },
{
    let c0 = remove_ws(&chars_of(combo));
    let cl = if contains_plus(&c0) {
        c0
    } else {
        insert_compact_plus(&c0)
    };
    if cl.len() == 0 {
        return Err(MentalOSError::ConfigInvalid(String::from_str("Shortcut cannot be empty")));
    }
    let mut ctrl = false;
    let mut shift = false;
    let mut alt = false;
    let mut key: Option<Vec<char>> = None;
    let mut multiple = false;
    let mut cur: Vec<char> = Vec::new();
    let ghost mut done: Seq<Seq<char>> = Seq::empty();
    let mut i: usize = 0;
    proof {
        assert(cl@.subrange(0, 0) =~= Seq::<char>::empty());
        assert(split_plus(Seq::<char>::empty()) =~= done.push(cur@));
    }
    while i < cl.len()
        invariant
            i <= cl.len(),
            split_plus(cl@.subrange(0, i as int)) == done.push(cur@),
            scan_parts(done) == (if multiple {
                None
            } else {
                Some((ctrl, shift, alt, key_view(key)))
            }),
        decreases cl.len() - i,
    {
        let ghost pre = cl@.subrange(0, i as int);
        proof {
            let s = cl@.subrange(0, i + 1);
            assert(s.drop_last() =~= pre);
            assert(s.last() == cl@[i as int]);
        }
        if cl[i] == '+' {
            match classify_part(&cur) {
                PartKind::Empty => {},
                PartKind::Ctrl => {
                    ctrl = true;
                },
                PartKind::Shift => {
                    shift = true;
                },
                PartKind::Alt => {
                    alt = true;
                },
                PartKind::Key(t) => {
                    if key.is_some() {
                        multiple = true;
                    } else {
                        key = Some(t);
                    }
                },
            }
            proof {
                assert(done.push(cur@).drop_last() =~= done);
                done = done.push(cur@);
            }
            cur = Vec::new();
            proof {
                assert(split_plus(cl@.subrange(0, i + 1)) =~= done.push(cur@));
            }
        } else {
            cur.push(cl[i]);
            proof {
                lemma_split_nonempty(pre);
                assert(split_plus(cl@.subrange(0, i + 1)) =~= done.push(cur@));
            }
        }
        i += 1;
    }
    proof {
        assert(cl@.subrange(0, cl.len() as int) =~= cl@);
        assert(done.push(cur@).drop_last() =~= done);
    }
    match classify_part(&cur) {
        PartKind::Empty => {},
        PartKind::Ctrl => {
            ctrl = true;
        },
        PartKind::Shift => {
            shift = true;
        },
        PartKind::Alt => {
            alt = true;
        },
        PartKind::Key(t) => {
            if key.is_some() {
                multiple = true;
            } else {
                key = Some(t);
            }
        },
    }
    if multiple {
        let mut m = String::from_str("Invalid shortcut '");
        m.append(combo);
        m.append("': multiple key tokens");
        return Err(MentalOSError::ConfigInvalid(m));
    }
    match key {
        None => {
            let mut m = String::from_str("Invalid shortcut '");
            m.append(combo);
            m.append("': missing key token");
            Err(MentalOSError::ConfigInvalid(m))
        },
        Some(t) => {
            let token = string_of(&t);
            if !is_supported_key_token(token.as_str()) {
                let mut m = String::from_str("Unsupported key token '");
                m.append(token.as_str());
                m.append("' in '");
                m.append(combo);
                m.append("'");
                return Err(MentalOSError::ConfigInvalid(m));
            }
            Ok(ParsedShortcut { ctrl, shift, alt, key_token: token })
        },
    }
}

/// `Ok` exactly when the shortcut parses; otherwise the reason it does not.
pub fn validate_shortcut(combo: &str) -> (r: Result<(), MentalOSError>)
    ensures
        match parse_outcome(combo@) {
            Ok(_) => r is Ok,
            Err(m) => (r matches Err(MentalOSError::ConfigInvalid(e)) && e@ == m),
        },
{
    match parse_shortcut(combo) {
        Ok(_) => Ok(()),
        Err(e) => Err(e),
    }
}


// ---------------------------------------------------------------------------
// The settings form
// ---------------------------------------------------------------------------

/// The bindings as texts.
pub open spec fn binding_texts(m: Map<Seq<char>, String>) -> Map<Seq<char>, Seq<char>> {
    m.map_values(|s: String| s@)
}

/// The outcome of applying a settings form, action by action in the order
/// of the table: an action the form has a value for must hold a valid
/// shortcut, which is then bound (trimmed); the first invalid one is the
/// error, named by the action's label.
pub open spec fn apply_form(
    ids: Seq<Seq<char>>,
    labels: Seq<Seq<char>>,
    form: Map<Seq<char>, String>,
    cur: Map<Seq<char>, Seq<char>>,
) -> Result<Map<Seq<char>, Seq<char>>, Seq<char>>
    decreases ids.len(),
{
    if ids.len() == 0 || labels.len() == 0 {
        Ok(cur)
    } else if !form.dom().contains(ids[0]) {
        apply_form(ids.drop_first(), labels.drop_first(), form, cur)
    } else {
        match parse_outcome(form[ids[0]]@) {
            Err(m) => Err(labels[0] + " -> "@ + "config is invalid: "@ + m),
            Ok(_) => apply_form(ids.drop_first(), labels.drop_first(), form, cur.insert(ids[0], trimmed(form[ids[0]]@))),
        }
    }
}

pub open spec fn table_ids() -> Seq<Seq<char>> {
    default_table().map_values(|e: (Seq<char>, Seq<char>)| e.0)
}

impl ShortcutBindings {
    /// A copy of the bindings.
    pub fn copied(&self) -> (b: Self)
        requires
            self.wf(),
        ensures
            b.wf(),
            b.bindings() == self.bindings(),
    {
        let mut v: Vec<(String, String)> = Vec::new();
        let mut i: usize = 0;
        while i < self.bindings.len()
            invariant
                i <= self.bindings.len(),
                v@ == self.bindings@.subrange(0, i as int),
            decreases self.bindings.len() - i,
        {
            let k = self.bindings[i].0.clone();
            let c = self.bindings[i].1.clone();
            v.push((k, c));
            proof {
                assert(v@ == self.bindings@.subrange(0, i as int + 1));
            }
            i += 1;
        }
        proof {
            assert(self.bindings@.subrange(0, self.bindings@.len() as int) == self.bindings@);
        }
        ShortcutBindings { bindings: v }
    }
}

/// Applies the values of the settings form (action id, shortcut) to the
/// current bindings.
pub fn apply_shortcut_form_values(current: &ShortcutBindings, form_values: &Vec<(String, String)>) -> (r: Result<
    ShortcutBindings,
    MentalOSError,
>)
    requires
        current.wf(),
        distinct_keys(form_values@),
    ensures
        match apply_form(table_ids(), label_table(), assoc_map(form_values@), binding_texts(current.bindings())) {
            Ok(m) => r matches Ok(b) && b.wf() && binding_texts(b.bindings()) == m,
            Err(e) => r matches Err(MentalOSError::ConfigInvalid(x)) && x@ == e,
        },
{
    let defs = shortcut_definitions();
    let mut updated = current.copied();
    let ghost form = assoc_map(form_values@);
    let ghost ids = table_ids();
    let ghost labels = label_table();
    let mut i: usize = 0;
    proof {
        assert(ids.subrange(0, ids.len() as int) == ids);
        assert(labels.subrange(0, labels.len() as int) == labels);
        assert(ids.len() == 14 && labels.len() == 14);
    }
    while i < defs.len()
        invariant
            i <= defs.len(),
            defs@.len() == 14,
            ids == table_ids(),
            labels == label_table(),
            ids.len() == 14,
            labels.len() == 14,
            form == assoc_map(form_values@),
            distinct_keys(form_values@),
            forall|k: int| 0 <= k < defs@.len() ==> (#[trigger] defs@[k]).id@ == default_table()[k].0 && defs@[k].label@ == label_table()[k],
            updated.wf(),
            apply_form(ids, labels, form, binding_texts(current.bindings())) == apply_form(
                ids.subrange(i as int, 14),
                labels.subrange(i as int, 14),
                form,
                binding_texts(updated.bindings()),
            ),
        decreases defs.len() - i,
    {
        let ghost is = ids.subrange(i as int, 14);
        let ghost ls = labels.subrange(i as int, 14);
        proof {
            assert(is[0] == ids[i as int]);
            assert(ids[i as int] == default_table()[i as int].0);
            assert(ls[0] == labels[i as int]);
            assert(is.drop_first() == ids.subrange(i as int + 1, 14));
            assert(ls.drop_first() == labels.subrange(i as int + 1, 14));
        }
        let d = &defs[i];
        match assoc_find(form_values, d.id) {
            None => {},
            Some(j) => {
                proof {
                    lemma_assoc_value(form_values@, j as int);
                }
                let value = form_values[j].1.as_str();
                match validate_shortcut(value) {
                    Err(e) => {
                        let msg = match e {
                            MentalOSError::ConfigInvalid(m) => {
                                let mut t = String::from_str(d.label);
                                t.append(" -> config is invalid: ");
                                t.append(m.as_str());
                                proof {
                                    reveal_strlit(" -> config is invalid: ");
                                    reveal_strlit(" -> ");
                                    reveal_strlit("config is invalid: ");
                                    assert(" -> config is invalid: "@ == " -> "@ + "config is invalid: "@);
                                }
                                t
                            },
                            _ => String::new(),
                        };
                        return Err(MentalOSError::ConfigInvalid(msg));
                    },
                    Ok(()) => {
                        let ghost before = binding_texts(updated.bindings());
                        updated.set(d.id, value);
                        proof {
                            assert(binding_texts(updated.bindings()) == before.insert(ids[i as int], trimmed(value@)));
                        }
                    },
                }
            },
        }
        i += 1;
    }
    Ok(updated)
}

/// The action whose label a validation message names, as (id, label): the
/// first in the table.
pub open spec fn action_named_in(message: Seq<char>, i: int) -> Option<int>
    decreases 14 - i,
{
    if i < 0 || i >= 14 {
        None
    } else if crate::text::contains_text(message, label_table()[i]) {
        Some(i)
    } else {
        action_named_in(message, i + 1)
    }
}

/// The action a validation message is about.
pub fn extract_action_id_from_validation_error(message: &str) -> (r: Option<(&'static str, &'static str)>)
    ensures
        match action_named_in(message@, 0) {
            Some(i) => r matches Some(p) && p.0@ == default_table()[i].0 && p.1@ == label_table()[i],
            None => r is None,
        },
{
    let defs = shortcut_definitions();
    let mut i: usize = 0;
    while i < defs.len()
        invariant
            i <= defs.len(),
            defs@.len() == 14,
            forall|k: int| 0 <= k < defs@.len() ==> (#[trigger] defs@[k]).id@ == default_table()[k].0 && defs@[k].label@ == label_table()[k],
            action_named_in(message@, 0) == action_named_in(message@, i as int),
        decreases defs.len() - i,
    {
        if crate::text::str_contains(message, defs[i].label) {
            return Some((defs[i].id, defs[i].label));
        }
        i += 1;
    }
    None
}

/// Spaces that pad a text to at least `width` characters.
pub open spec fn padded(s: Seq<char>, width: nat) -> Seq<char> {
    if s.len() >= width {
        s
    } else {
        s + Seq::new((width - s.len()) as nat, |i: int| ' ')
    }
}

/// One line of the shortcuts help: the shortcut padded to eighteen
/// characters, the label, a dash and the description.
pub fn format_shortcut_line(combo: &str, label: &str, description: &str) -> (r: String)
    ensures
        r@ == padded(combo@, 18) + " "@ + label@ + " \u{2014} "@ + description@,
{
    let mut v = chars_of(combo);
    let ghost c = v@;
    while v.len() < 18
        invariant
            c == combo@,
            v@.len() <= 18 || v@ == c,
            c.len() <= v@.len(),
            v@ == c + Seq::new((v@.len() - c.len()) as nat, |i: int| ' '),
        decreases 18 - v.len(),
    {
        v.push(' ');
        proof {
            assert(v@ == c + Seq::new((v@.len() - c.len()) as nat, |i: int| ' '));
        }
    }
    proof {
        if c.len() >= 18 {
            assert(v@ == c);
        } else {
            assert(v@.len() == 18);
        }
        assert(v@ == padded(c, 18));
    }
    let mut r = string_of(&v);
    r.append(" ");
    r.append(label);
    r.append(" \u{2014} ");
    r.append(description);
    r
}


// ---------------------------------------------------------------------------
// Key presses
// ---------------------------------------------------------------------------

/// A key press: the key's name (as GDK names keys: `slash`, `question`,
/// `KP_Divide`, `F1`, `l`, ...), the character it types, and the modifiers
/// held.
#[derive(Debug, Clone)]
pub struct KeyPress {
    pub name: String,
    pub unicode: Option<char>,
    pub ctrl: bool,
    pub shift: bool,
    pub alt: bool,
}

pub open spec fn one_of(name: Seq<char>, keys: Seq<Seq<char>>) -> bool {
    keys.contains(name)
}

/// Whether a key fits the key token of a shortcut: symbols match their
/// shifted or keypad forms, named keys their GDK names, and any other token
/// the key's name in any ASCII case.
pub open spec fn key_fits(token: Seq<char>, name: Seq<char>, shift: bool) -> bool {
    if token == "?"@ || token == "question"@ {
        name == "question"@ || (name == "slash"@ && shift)
    } else if token == "/"@ || token == "slash"@ {
        name == "slash"@ || name == "question"@ || name == "KP_Divide"@
    } else if token == "plus"@ || token == "+"@ {
        name == "plus"@ || name == "equal"@
    } else if token == "equal"@ || token == "="@ {
        name == "equal"@ || name == "plus"@
    } else if token == "minus"@ || token == "-"@ {
        name == "minus"@
    } else if token == "comma"@ || token == ","@ {
        name == "comma"@
    } else if token == "escape"@ || token == "esc"@ {
        name == "Escape"@
    } else if token == "tab"@ {
        name == "Tab"@
    } else if token == "space"@ {
        name == "space"@
    } else if token == "kp_divide"@ {
        name == "KP_Divide"@
    } else {
        eq_ignore_case(name, token)
    }
}

/// The plus and equal tokens (and their symbols) name the same physical
/// key: a shortcut on Plus fires on the `=`/`+` key exactly as one on Equal
/// does, whatever key is pressed and whether Shift is held.
pub proof fn law_plus_and_equal_are_one_key(name: Seq<char>, shift: bool)
    ensures
        key_fits("plus"@, name, shift) == key_fits("equal"@, name, shift),
        key_fits("+"@, name, shift) == key_fits("="@, name, shift),
        key_fits("plus"@, name, shift) == key_fits("+"@, name, shift),
        key_fits("plus"@, "equal"@, shift),
        key_fits("equal"@, "plus"@, shift),
{
    reveal_strlit("plus");
    reveal_strlit("equal");
    reveal_strlit("+");
    reveal_strlit("=");
    reveal_strlit("?");
    reveal_strlit("question");
    reveal_strlit("/");
    reveal_strlit("slash");
    assert("plus"@ != "?"@) by { if "plus"@ == "?"@ { assert("plus"@.len() == "?"@.len()); assert("plus"@[0] == "?"@[0]); } }
    assert("plus"@ != "question"@) by { if "plus"@ == "question"@ { assert("plus"@.len() == "question"@.len()); assert("plus"@[0] == "question"@[0]); } }
    assert("plus"@ != "/"@) by { if "plus"@ == "/"@ { assert("plus"@.len() == "/"@.len()); assert("plus"@[0] == "/"@[0]); } }
    assert("plus"@ != "slash"@) by { if "plus"@ == "slash"@ { assert("plus"@.len() == "slash"@.len()); assert("plus"@[0] == "slash"@[0]); } }
    assert("plus"@ != "+"@) by { if "plus"@ == "+"@ { assert("plus"@.len() == "+"@.len()); assert("plus"@[0] == "+"@[0]); } }
    assert("equal"@ != "?"@) by { if "equal"@ == "?"@ { assert("equal"@.len() == "?"@.len()); assert("equal"@[0] == "?"@[0]); } }
    assert("equal"@ != "question"@) by { if "equal"@ == "question"@ { assert("equal"@.len() == "question"@.len()); assert("equal"@[0] == "question"@[0]); } }
    assert("equal"@ != "/"@) by { if "equal"@ == "/"@ { assert("equal"@.len() == "/"@.len()); assert("equal"@[0] == "/"@[0]); } }
    assert("equal"@ != "slash"@) by { if "equal"@ == "slash"@ { assert("equal"@.len() == "slash"@.len()); assert("equal"@[0] == "slash"@[0]); } }
    assert("equal"@ != "plus"@) by { if "equal"@ == "plus"@ { assert("equal"@.len() == "plus"@.len()); assert("equal"@[0] == "plus"@[0]); } }
    assert("equal"@ != "+"@) by { if "equal"@ == "+"@ { assert("equal"@.len() == "+"@.len()); assert("equal"@[0] == "+"@[0]); } }
    assert("+"@ != "?"@) by { if "+"@ == "?"@ { assert("+"@.len() == "?"@.len()); assert("+"@[0] == "?"@[0]); } }
    assert("+"@ != "question"@) by { if "+"@ == "question"@ { assert("+"@.len() == "question"@.len()); assert("+"@[0] == "question"@[0]); } }
    assert("+"@ != "/"@) by { if "+"@ == "/"@ { assert("+"@.len() == "/"@.len()); assert("+"@[0] == "/"@[0]); } }
    assert("+"@ != "slash"@) by { if "+"@ == "slash"@ { assert("+"@.len() == "slash"@.len()); assert("+"@[0] == "slash"@[0]); } }
    assert("+"@ != "plus"@) by { if "+"@ == "plus"@ { assert("+"@.len() == "plus"@.len()); assert("+"@[0] == "plus"@[0]); } }
    assert("="@ != "?"@) by { if "="@ == "?"@ { assert("="@.len() == "?"@.len()); assert("="@[0] == "?"@[0]); } }
    assert("="@ != "question"@) by { if "="@ == "question"@ { assert("="@.len() == "question"@.len()); assert("="@[0] == "question"@[0]); } }
    assert("="@ != "/"@) by { if "="@ == "/"@ { assert("="@.len() == "/"@.len()); assert("="@[0] == "/"@[0]); } }
    assert("="@ != "slash"@) by { if "="@ == "slash"@ { assert("="@.len() == "slash"@.len()); assert("="@[0] == "slash"@[0]); } }
    assert("="@ != "plus"@) by { if "="@ == "plus"@ { assert("="@.len() == "plus"@.len()); assert("="@[0] == "plus"@[0]); } }
    assert("="@ != "+"@) by { if "="@ == "+"@ { assert("="@.len() == "+"@.len()); assert("="@[0] == "+"@[0]); } }
}

/// Whether a key fits a shortcut's key token; see `key_fits`.
pub fn key_matches(token: &str, key_name: &str, shift: bool) -> (b: bool)
    ensures
        b == key_fits(token@, key_name@, shift),
{
    proof {
        reveal_strlit("?");
        reveal_strlit("question");
        reveal_strlit("slash");
        reveal_strlit("/");
        reveal_strlit("KP_Divide");
        reveal_strlit("plus");
        reveal_strlit("+");
        reveal_strlit("equal");
        reveal_strlit("=");
        reveal_strlit("minus");
        reveal_strlit("-");
        reveal_strlit("comma");
        reveal_strlit(",");
        reveal_strlit("escape");
        reveal_strlit("esc");
        reveal_strlit("Escape");
        reveal_strlit("tab");
        reveal_strlit("Tab");
        reveal_strlit("space");
        reveal_strlit("kp_divide");
    }
    if str_eq(token, "?") || str_eq(token, "question") {
        str_eq(key_name, "question") || (str_eq(key_name, "slash") && shift)
    } else if str_eq(token, "/") || str_eq(token, "slash") {
        str_eq(key_name, "slash") || str_eq(key_name, "question") || str_eq(key_name, "KP_Divide")
    } else if str_eq(token, "plus") || str_eq(token, "+") {
        str_eq(key_name, "plus") || str_eq(key_name, "equal")
    } else if str_eq(token, "equal") || str_eq(token, "=") {
        str_eq(key_name, "equal") || str_eq(key_name, "plus")
    } else if str_eq(token, "minus") || str_eq(token, "-") {
        str_eq(key_name, "minus")
    } else if str_eq(token, "comma") || str_eq(token, ",") {
        str_eq(key_name, "comma")
    } else if str_eq(token, "escape") || str_eq(token, "esc") {
        str_eq(key_name, "Escape")
    } else if str_eq(token, "tab") {
        str_eq(key_name, "Tab")
    } else if str_eq(token, "space") {
        str_eq(key_name, "space")
    } else if str_eq(token, "kp_divide") {
        str_eq(key_name, "KP_Divide")
    } else {
        str_eq_ignore_case(key_name, token)
    }
}

/// Whether a key token may be typed with Shift held although the shortcut
/// does not name Shift.
pub open spec fn implicit_shift_ok(t: Seq<char>) -> bool {
    t == "?"@ || t == "question"@ || t == "/"@ || t == "slash"@ || t == "plus"@ || t == "+"@ || t == "equal"@
        || t == "="@
}

/// Whether a key press triggers a shortcut: the shortcut parses, Ctrl and
/// Alt are held exactly as it says, Shift is held when it names Shift and
/// only then unless its key is typed with Shift anyway, and the key fits.
pub open spec fn press_matches(combo: Seq<char>, k: KeyPress) -> bool {
    match parse_outcome(combo) {
        Ok((ctrl, shift, alt, token)) => {
            &&& ctrl == k.ctrl
            &&& alt == k.alt
            &&& (shift ==> k.shift)
            &&& (k.shift && !shift ==> implicit_shift_ok(token))
            &&& key_fits(token, k.name@, k.shift)
        },
        Err(_) => false,
    }
}

/// Whether a key press triggers a shortcut; see `press_matches`.
pub fn matches_shortcut(combo: &str, press: &KeyPress) -> (b: bool)
    ensures
        b == press_matches(combo@, *press),
{
    let parsed = match parse_shortcut(combo) {
        Ok(p) => p,
        Err(_) => {
            return false;
        },
    };
    if parsed.ctrl != press.ctrl || parsed.alt != press.alt {
        return false;
    }
    if parsed.shift && !press.shift {
        return false;
    }
    if press.shift && !parsed.shift && !allows_implicit_shift(parsed.key_token.as_str()) {
        return false;
    }
    key_matches(parsed.key_token.as_str(), press.name.as_str(), press.shift)
}

impl ShortcutBindings {
    /// Whether a key press triggers the action's shortcut (its binding, or
    /// its default).
    pub fn matches(&self, action_id: &str, press: &KeyPress) -> (b: bool)
        requires
            self.wf(),
        ensures
            b == press_matches(shortcut_of(self.bindings(), action_id@), *press),
    {
        let combo = self.get(action_id);
        matches_shortcut(combo.as_str(), press)
    }
}

/// Whether a key press opens the help even when the help shortcut is
/// rebound: F1 without Ctrl; with Ctrl, the slash, question-mark or keypad
/// divide key, or any key typing `/` or `?`.
pub open spec fn help_fallback(k: KeyPress) -> bool {
    if !k.ctrl {
        k.name@ == "F1"@
    } else {
        k.name@ == "slash"@ || k.name@ == "question"@ || k.name@ == "KP_Divide"@ || k.unicode == Some('/')
            || k.unicode == Some('?')
    }
}

/// Whether a key press opens the help; see `help_fallback`.
pub fn is_help_fallback_shortcut(press: &KeyPress) -> (b: bool)
    ensures
        b == help_fallback(*press),
{
    proof {
        reveal_strlit("F1");
        reveal_strlit("slash");
        reveal_strlit("question");
        reveal_strlit("KP_Divide");
    }
    if !press.ctrl {
        return str_eq(press.name.as_str(), "F1");
    }
    str_eq(press.name.as_str(), "slash") || str_eq(press.name.as_str(), "question") || str_eq(
        press.name.as_str(),
        "KP_Divide",
    ) || match press.unicode {
        Some(c) => c == '/' || c == '?',
        None => false,
    }
}

} // verus!
