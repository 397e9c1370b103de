//! What redaction guarantees: no secret prefix is left in a redacted text,
//! credential lines keep only their key, and a text with nothing to redact
//! comes back as its lines.
use crate::memory::{
    first_char, joined_lines, lemma_line_end_bounds, lemma_occurrence_bounds, lemma_ws_end_bounds,
    line_end, lines_from, occurrence_from, redact_line, redact_prefix, redact_prefixes, redacted_lines,
    redacted_mark, redaction, secret_prefixes, ws_end, changed_lines, sensitive_line, capped,
};
use crate::text::{contains_text, drop_ws_front, lemma_back_prefix, lemma_drop_ws_front_suffix, trimmed};
use vstd::prelude::*;
use vstd::string::*;

verus! {

/// A prefix that no replacement can bring back: it is not empty, holds none
/// of the characters `[`, `=`, `:` or a line break, does not start with a
/// space, and no tail of `[REDACTED]` starts it.
pub open spec fn replacement_safe(p: Seq<char>) -> bool {
    &&& p.len() > 0
    &&& forall|t: int| 0 <= t < p.len() ==> #[trigger] p[t] != '[' && p[t] != '=' && p[t] != ':' && p[t] != '\n'
    &&& p[0] != ' '
    &&& forall|k: int| 1 <= k < 10 ==> #[trigger] mark_tail_differs(p, k)
}

/// The tail of `[REDACTED]` from `k` on does not begin `p`.
pub open spec fn mark_tail_differs(p: Seq<char>, k: int) -> bool {
    p[0] != redacted_mark()[k] || (k + 1 < 10 && p.len() > 1 && p[1] != redacted_mark()[k + 1])
}

/// No window of `x + y` that crosses from `x` into `y` is `p`.
pub open spec fn no_straddle(x: Seq<char>, y: Seq<char>, p: Seq<char>) -> bool {
    forall|j: int|
        0 <= j < x.len() < j + p.len() <= x.len() + y.len() ==> #[trigger] (x + y).subrange(j, j + p.len()) != p
}

proof fn lemma_concat_absent(x: Seq<char>, y: Seq<char>, p: Seq<char>)
    requires
        !contains_text(x, p),
        !contains_text(y, p),
        no_straddle(x, y, p),
    ensures
        !contains_text(x + y, p),
{
    if contains_text(x + y, p) {
        let s = x + y;
        let j = choose|j: int| 0 <= j <= s.len() - p.len() && #[trigger] s.subrange(j, j + p.len()) == p;
        if j + p.len() <= x.len() {
            assert(s.subrange(j, j + p.len()) =~= x.subrange(j, j + p.len()));
        } else if j >= x.len() {
            assert(s.subrange(j, j + p.len()) =~= y.subrange(j - x.len(), j - x.len() + p.len()));
        } else {
            assert(s.subrange(j, j + p.len()) == p);
        }
    }
}

proof fn lemma_sub_absent(s: Seq<char>, a: int, b: int, p: Seq<char>)
    requires
        0 <= a <= b <= s.len(),
        !contains_text(s, p),
    ensures
        !contains_text(s.subrange(a, b), p),
{
    if contains_text(s.subrange(a, b), p) {
        let t = s.subrange(a, b);
        let j = choose|j: int| 0 <= j <= t.len() - p.len() && #[trigger] t.subrange(j, j + p.len()) == p;
        assert(t.subrange(j, j + p.len()) =~= s.subrange(a + j, a + j + p.len()));
    }
}

/// A crossing window holds the first character of `y` after its own first.
proof fn lemma_straddle_first_char(x: Seq<char>, y: Seq<char>, p: Seq<char>)
    requires
        y.len() > 0,
        forall|t: int| 1 <= t < p.len() ==> p[t] != y[0],
    ensures
        no_straddle(x, y, p),
{
    assert forall|j: int| 0 <= j < x.len() < j + p.len() <= x.len() + y.len() implies #[trigger] (x + y).subrange(
        j,
        j + p.len(),
    ) != p by {
        let w = (x + y).subrange(j, j + p.len());
        assert(w[x.len() - j] == y[0]);
    }
}

/// A crossing window holds the last character of `x`.
proof fn lemma_straddle_last_char(x: Seq<char>, y: Seq<char>, p: Seq<char>)
    requires
        x.len() > 0,
        forall|t: int| 0 <= t < p.len() ==> p[t] != x.last(),
    ensures
        no_straddle(x, y, p),
{
    assert forall|j: int| 0 <= j < x.len() < j + p.len() <= x.len() + y.len() implies #[trigger] (x + y).subrange(
        j,
        j + p.len(),
    ) != p by {
        let w = (x + y).subrange(j, j + p.len());
        assert(w[x.len() - 1 - j] == x.last());
    }
}

/// A crossing window starts with a character of `x`.
proof fn lemma_straddle_start(x: Seq<char>, y: Seq<char>, p: Seq<char>)
    requires
        p.len() > 0,
        forall|i: int| 0 <= i < x.len() ==> x[i] != p[0],
    ensures
        no_straddle(x, y, p),
{
    assert forall|j: int| 0 <= j < x.len() < j + p.len() <= x.len() + y.len() implies #[trigger] (x + y).subrange(
        j,
        j + p.len(),
    ) != p by {
        let w = (x + y).subrange(j, j + p.len());
        assert(w[0] == x[j]);
    }
}

proof fn lemma_mark_facts()
    ensures
        redacted_mark().len() == 10,
        redacted_mark()[0] == '[',
        redacted_mark()[9] == ']',
{
    reveal_strlit("[REDACTED]");
}

proof fn lemma_mark_absent(p: Seq<char>)
    requires
        replacement_safe(p),
    ensures
        !contains_text(redacted_mark(), p),
{
    lemma_mark_facts();
    let m = redacted_mark();
    if contains_text(m, p) {
        let k = choose|k: int| 0 <= k <= m.len() - p.len() && #[trigger] m.subrange(k, k + p.len()) == p;
        assert(p[0] == m[k]);
        if k == 0 {
            assert(p[0] == '[');
        } else {
            assert(mark_tail_differs(p, k));
            if p.len() > 1 {
                assert(p[1] == m[k + 1]);
            }
        }
    }
}

/// A window crossing from a text ending in `[REDACTED]` into what follows
/// is never a safe prefix.
proof fn lemma_straddle_mark(x: Seq<char>, y: Seq<char>, p: Seq<char>)
    requires
        replacement_safe(p),
    ensures
        no_straddle(x + redacted_mark(), y, p),
{
    lemma_mark_facts();
    let m = redacted_mark();
    let xm = x + m;
    assert forall|j: int| 0 <= j < xm.len() < j + p.len() <= xm.len() + y.len() implies #[trigger] (xm + y).subrange(
        j,
        j + p.len(),
    ) != p by {
        let w = (xm + y).subrange(j, j + p.len());
        let o = xm.len() - j;
        if o >= 10 {
            assert(w[x.len() - j] == m[0]);
        } else {
            let k = 10 - o;
            assert(w[0] == m[k]);
            assert(mark_tail_differs(p, k));
            if o >= 2 {
                assert(w[1] == m[k + 1]);
            }
        }
    }
}

proof fn lemma_occurrence_none(s: Seq<char>, p: Seq<char>, i: int)
    requires
        0 <= i,
        occurrence_from(s, p, i) is None,
    ensures
        forall|j: int| i <= j <= s.len() - p.len() ==> #[trigger] s.subrange(j, j + p.len()) != p,
    decreases s.len() + 1 - i,
{
    if i + p.len() <= s.len() {
        lemma_occurrence_none(s, p, i + 1);
    }
}

proof fn lemma_occurrence_first(s: Seq<char>, p: Seq<char>, i: int, k: int)
    requires
        0 <= i,
        occurrence_from(s, p, i) == Some(k),
    ensures
        forall|j: int| i <= j < k ==> #[trigger] s.subrange(j, j + p.len()) != p,
    decreases s.len() + 1 - i,
{
    if i + p.len() <= s.len() && s.subrange(i, i + p.len()) != p {
        lemma_occurrence_first(s, p, i + 1, k);
    }
}

/// After the pass for `q`, a safe prefix `p` is absent: `q` itself, or one
/// that was absent before.
proof fn lemma_prefix_pass(a: Seq<char>, q: Seq<char>, p: Seq<char>)
    requires
        replacement_safe(p),
        q.len() > 0,
        p == q || !contains_text(a, p),
    ensures
        !contains_text(redact_prefix(a, q).0, p),
    decreases a.len(),
{
    match occurrence_from(a, q, 0) {
        None => {
            if p == q {
                lemma_occurrence_none(a, q, 0);
            }
        },
        Some(i) => {
            lemma_occurrence_bounds(a, q, 0);
            let e = ws_end(a, i + 1);
            lemma_ws_end_bounds(a, i + 1);
            let tail = a.subrange(e, a.len() as int);
            if p != q {
                lemma_sub_absent(a, e, a.len() as int, p);
            }
            lemma_prefix_pass(tail, q, p);
            let rest = redact_prefix(tail, q).0;
            let head = a.subrange(0, i);
            if p == q {
                lemma_occurrence_first(a, q, 0, i);
                if contains_text(head, p) {
                    let j = choose|j: int| 0 <= j <= head.len() - p.len() && #[trigger] head.subrange(j, j + p.len()) == p;
                    assert(head.subrange(j, j + p.len()) =~= a.subrange(j, j + p.len()));
                }
            } else {
                lemma_sub_absent(a, 0, i, p);
            }
            lemma_mark_facts();
            lemma_mark_absent(p);
            lemma_straddle_first_char(head, redacted_mark(), p);
            lemma_concat_absent(head, redacted_mark(), p);
            lemma_straddle_mark(head, rest, p);
            lemma_concat_absent(head + redacted_mark(), rest, p);
            assert(redact_prefix(a, q).0 == head + redacted_mark() + rest);
        },
    }
}

/// After the passes for a list of safe prefixes, none of them is left.
proof fn lemma_prefix_passes(s: Seq<char>, ps: Seq<Seq<char>>)
    requires
        forall|i: int| 0 <= i < ps.len() ==> replacement_safe(#[trigger] ps[i]),
    ensures
        forall|i: int| 0 <= i < ps.len() ==> !contains_text(redact_prefixes(s, ps).0, #[trigger] ps[i]),
    decreases ps.len(),
{
    if ps.len() > 0 {
        let init = ps.drop_last();
        assert forall|i: int| 0 <= i < init.len() implies replacement_safe(#[trigger] init[i]) by {
            assert(init[i] == ps[i]);
        }
        lemma_prefix_passes(s, init);
        let a = redact_prefixes(s, init).0;
        assert forall|i: int| 0 <= i < ps.len() implies !contains_text(redact_prefixes(s, ps).0, #[trigger] ps[i]) by {
            if i < ps.len() - 1 {
                assert(init[i] == ps[i]);
            }
            lemma_prefix_pass(a, ps.last(), ps[i]);
        }
    }
}

/// The lines of a text are parts of it.
proof fn lemma_lines_are_parts(s: Seq<char>, i: int, p: Seq<char>)
    requires
        !contains_text(s, p),
    ensures
        forall|k: int| 0 <= k < lines_from(s, i).len() ==> !contains_text(#[trigger] lines_from(s, i)[k], p),
    decreases s.len() + 1 - i,
{
    if !(i < 0 || i >= s.len()) {
        let e = line_end(s, i);
        lemma_line_end_bounds(s, i);
        lemma_lines_are_parts(s, e + 1, p);
        let raw = s.subrange(i, e);
        lemma_sub_absent(s, i, e, p);
        if raw.len() > 0 {
            lemma_sub_absent(raw, 0, raw.len() - 1, p);
            assert(raw.drop_last() =~= raw.subrange(0, raw.len() - 1));
        }
        let ls = lines_from(s, i);
        assert forall|k: int| 0 <= k < ls.len() implies !contains_text(#[trigger] ls[k], p) by {
            if k > 0 {
                assert(ls[k] == lines_from(s, e + 1)[k - 1]);
            }
        }
    }
}

proof fn lemma_trimmed_absent(s: Seq<char>, p: Seq<char>)
    requires
        !contains_text(s, p),
    ensures
        !contains_text(trimmed(s), p),
{
    lemma_drop_ws_front_suffix(s);
    let k = choose|k: int| 0 <= k <= s.len() && drop_ws_front(s) == s.subrange(k, s.len() as int);
    lemma_sub_absent(s, k, s.len() as int, p);
    let f = drop_ws_front(s);
    lemma_back_prefix(f);
    lemma_sub_absent(f, 0, trimmed(s).len() as int, p);
}

proof fn lemma_first_witness(s: Seq<char>, c: char, i: int)
    requires
        0 <= i <= s.len(),
        forall|j: int| 0 <= j < i ==> s[j] != c,
        exists|k: int| i <= k < s.len() && s[k] == c,
    ensures
        exists|k: int| 0 <= k < s.len() && s[k] == c && forall|j: int| 0 <= j < k ==> s[j] != c,
    decreases s.len() - i,
{
    if s[i] == c {
        assert(0 <= i < s.len() && s[i] == c && forall|j: int| 0 <= j < i ==> s[j] != c);
    } else {
        lemma_first_witness(s, c, i + 1);
    }
}

proof fn lemma_first_char_bounds(s: Seq<char>, c: char)
    ensures
        first_char(s, c) matches Some(k) ==> 0 <= k < s.len(),
{
    reveal(first_char);
    if exists|k: int| 0 <= k < s.len() && s[k] == c {
        lemma_first_witness(s, c, 0);
    }
}

/// A redacted line keeps no safe prefix its line did not have.
proof fn lemma_line_absent(l: Seq<char>, p: Seq<char>)
    requires
        replacement_safe(p),
        !contains_text(l, p),
    ensures
        !contains_text(redact_line(l).0, p),
{
    lemma_first_char_bounds(l, '=');
    lemma_first_char_bounds(l, ':');
    lemma_mark_facts();
    let m = redacted_mark();
    if redact_line(l).1 {
        match first_char(l, '=') {
            Some(k) => {
                let key = trimmed(l.subrange(0, k));
                lemma_sub_absent(l, 0, k, p);
                lemma_trimmed_absent(l.subrange(0, k), p);
                let eq = seq!['='];
                assert("=[REDACTED]"@ == eq + m) by {
                    reveal_strlit("=[REDACTED]");
                    reveal_strlit("[REDACTED]");
                }
                lemma_mark_absent(p);
                if contains_text(eq, p) {
                    assert(eq.subrange(0, p.len() as int) == p);
                    assert(p[0] == '=');
                }
                lemma_straddle_start(eq, m, p);
                lemma_concat_absent(eq, m, p);
                lemma_straddle_first_char(key, eq + m, p);
                assert((eq + m)[0] == '=');
                lemma_concat_absent(key, eq + m, p);
            },
            None => match first_char(l, ':') {
                Some(k) => {
                    let key = trimmed(l.subrange(0, k));
                    lemma_sub_absent(l, 0, k, p);
                    lemma_trimmed_absent(l.subrange(0, k), p);
                    let sep = seq![':', ' '];
                    assert(": [REDACTED]"@ == sep + m) by {
                        reveal_strlit(": [REDACTED]");
                        reveal_strlit("[REDACTED]");
                    }
                    lemma_mark_absent(p);
                    if contains_text(sep, p) {
                        let j = choose|j: int| 0 <= j <= sep.len() - p.len() && #[trigger] sep.subrange(j, j + p.len()) == p;
                        assert(p[0] == sep[j]);
                    }
                    lemma_straddle_start(sep, m, p);
                    lemma_concat_absent(sep, m, p);
                    lemma_straddle_first_char(key, sep + m, p);
                    assert((sep + m)[0] == ':');
                    lemma_concat_absent(key, sep + m, p);
                },
                None => {},
            },
        }
    }
}

/// Lines joined by line breaks hold no safe prefix that none of them holds.
proof fn lemma_joined_absent(ls: Seq<Seq<char>>, p: Seq<char>)
    requires
        replacement_safe(p),
        forall|k: int| 0 <= k < ls.len() ==> !contains_text(#[trigger] ls[k], p),
    ensures
        !contains_text(joined_lines(ls), p),
    decreases ls.len(),
{
    if ls.len() == 1 {
        assert(joined_lines(ls) == ls[0]);
    } else if ls.len() > 1 {
        let init = ls.drop_last();
        assert forall|k: int| 0 <= k < init.len() implies !contains_text(#[trigger] init[k], p) by {
            assert(init[k] == ls[k]);
        }
        lemma_joined_absent(init, p);
        let j = joined_lines(init);
        let nl = seq!['\n'];
        assert("\n"@ == nl) by {
            reveal_strlit("\n");
        }
        if contains_text(nl, p) {
            assert(nl.subrange(0, p.len() as int) == p);
            assert(p[0] == '\n');
        }
        lemma_straddle_first_char(j, nl, p);
        lemma_concat_absent(j, nl, p);
        assert((j + nl).last() == '\n');
        lemma_straddle_last_char(j + nl, ls.last(), p);
        assert(ls.last() == ls[ls.len() - 1]);
        lemma_concat_absent(j + nl, ls.last(), p);
    }
}

/// Each secret prefix is safe from the replacements.
proof fn lemma_secret_prefixes_safe()
    ensures
        forall|i: int| 0 <= i < secret_prefixes().len() ==> replacement_safe(#[trigger] secret_prefixes()[i]),
{
    reveal_strlit("[REDACTED]");
    reveal_strlit("sk-");
    reveal_strlit("ghp_");
    reveal_strlit("xoxb-");
    reveal_strlit("xoxp-");
    reveal_strlit("xoxs-");
    reveal_strlit("AIza");
    reveal_strlit("Bearer ");
    let m = redacted_mark();
    assert(m =~= seq!['[', 'R', 'E', 'D', 'A', 'C', 'T', 'E', 'D', ']']);
    assert forall|i: int| 0 <= i < secret_prefixes().len() implies replacement_safe(#[trigger] secret_prefixes()[i]) by {
        let p = secret_prefixes()[i];
        if i == 0 {
            assert(p =~= seq!['s', 'k', '-']);
        } else if i == 1 {
            assert(p =~= seq!['g', 'h', 'p', '_']);
        } else if i == 2 {
            assert(p =~= seq!['x', 'o', 'x', 'b', '-']);
        } else if i == 3 {
            assert(p =~= seq!['x', 'o', 'x', 'p', '-']);
        } else if i == 4 {
            assert(p =~= seq!['x', 'o', 'x', 's', '-']);
        } else if i == 5 {
            assert(p =~= seq!['A', 'I', 'z', 'a']);
        } else {
            assert(p =~= seq!['B', 'e', 'a', 'r', 'e', 'r', ' ']);
        }
        assert forall|k: int| 1 <= k < 10 implies #[trigger] mark_tail_differs(p, k) by {}
    }
}

/// No secret prefix (`sk-`, `ghp_`, `xoxb-`, `xoxp-`, `xoxs-`, `AIza`,
/// `Bearer `) is left anywhere in a redacted text.
pub proof fn law_no_secret_prefix_survives(s: Seq<char>)
    ensures
        forall|i: int| 0 <= i < secret_prefixes().len() ==> !contains_text(redaction(s).0, #[trigger] secret_prefixes()[i]),
{
    lemma_secret_prefixes_safe();
    let ps = secret_prefixes();
    lemma_prefix_passes(s, ps);
    let a = redact_prefixes(s, ps).0;
    let ls = lines_from(a, 0);
    assert forall|i: int| 0 <= i < ps.len() implies !contains_text(redaction(s).0, #[trigger] ps[i]) by {
        let p = ps[i];
        lemma_lines_are_parts(a, 0, p);
        let rl = redacted_lines(ls);
        assert forall|k: int| 0 <= k < rl.len() implies !contains_text(#[trigger] rl[k], p) by {
            lemma_line_absent(ls[k], p);
        }
        lemma_joined_absent(rl, p);
    }
}

proof fn lemma_prefix_zero(s: Seq<char>, p: Seq<char>)
    ensures
        redact_prefix(s, p).1 == 0 ==> redact_prefix(s, p).0 == s,
{
}

proof fn lemma_prefixes_zero(s: Seq<char>, ps: Seq<Seq<char>>)
    ensures
        redact_prefixes(s, ps).1 == 0 ==> redact_prefixes(s, ps).0 == s,
    decreases ps.len(),
{
    if ps.len() > 0 {
        lemma_prefixes_zero(s, ps.drop_last());
        lemma_prefix_zero(redact_prefixes(s, ps.drop_last()).0, ps.last());
    }
}

proof fn lemma_absent_no_occurrence(s: Seq<char>, p: Seq<char>, i: int)
    requires
        !contains_text(s, p),
        0 <= i,
    ensures
        occurrence_from(s, p, i) is None,
    decreases s.len() + 1 - i,
{
    if !(i + p.len() > s.len()) {
        if s.subrange(i, i + p.len()) == p {
            assert(contains_text(s, p));
        }
        lemma_absent_no_occurrence(s, p, i + 1);
    }
}

proof fn lemma_prefixes_absent(s: Seq<char>, ps: Seq<Seq<char>>)
    requires
        forall|i: int| 0 <= i < ps.len() ==> !contains_text(s, #[trigger] ps[i]),
    ensures
        redact_prefixes(s, ps) == (s, 0nat),
    decreases ps.len(),
{
    if ps.len() > 0 {
        assert forall|i: int| 0 <= i < ps.drop_last().len() implies !contains_text(s, #[trigger] ps.drop_last()[i]) by {
            assert(ps.drop_last()[i] == ps[i]);
        }
        lemma_prefixes_absent(s, ps.drop_last());
        assert(!contains_text(s, ps[ps.len() - 1]));
        lemma_absent_no_occurrence(s, ps.last(), 0);
    }
}

proof fn lemma_unchanged_lines(ls: Seq<Seq<char>>)
    ensures
        changed_lines(ls) == 0 ==> redacted_lines(ls) == ls,
    decreases ls.len(),
{
    if ls.len() > 0 {
        lemma_unchanged_lines(ls.drop_last());
        if changed_lines(ls) == 0 {
            assert(redacted_lines(ls) =~= redacted_lines(ls.drop_last()).push(redact_line(ls.last()).0));
            assert(ls.drop_last().push(ls.last()) =~= ls);
        }
    }
}

/// When nothing is redacted, the text comes back as its lines joined with
/// `\n` (line endings normalised, a final line break dropped).
pub proof fn law_nothing_redacted_keeps_text(s: Seq<char>)
    ensures
        capped(redaction(s).1) == 0 ==> redaction(s).0 == joined_lines(lines_from(s, 0)),
{
    let a = redact_prefixes(s, secret_prefixes());
    lemma_prefixes_zero(s, secret_prefixes());
    lemma_unchanged_lines(lines_from(a.0, 0));
}

/// A text free of secret prefixes has each line redacted on its own: a line
/// that names a credential and holds `=` becomes its key (what stands before
/// the first `=`, trimmed) followed by `=[REDACTED]`; the other lines stay.
pub proof fn law_credential_lines_keep_their_key(s: Seq<char>)
    requires
        forall|i: int| 0 <= i < secret_prefixes().len() ==> !contains_text(s, #[trigger] secret_prefixes()[i]),
    ensures
        redaction(s).0 == joined_lines(redacted_lines(lines_from(s, 0))),
        forall|k: int|
            0 <= k < lines_from(s, 0).len() ==> {
                let l = #[trigger] lines_from(s, 0)[k];
                &&& (sensitive_line(l) && first_char(l, '=') is Some) ==> redacted_lines(lines_from(s, 0))[k]
                    == trimmed(l.subrange(0, first_char(l, '=')->0)) + "=[REDACTED]"@
                &&& !sensitive_line(l) ==> redacted_lines(lines_from(s, 0))[k] == l
            },
{
    lemma_prefixes_absent(s, secret_prefixes());
}

} // verus!
