//! How a chat message is laid out: its header, and its text split into
//! prose and fenced code.
use crate::memory::{find_from, first_char, first_char_at, occurrence_from};
use crate::text::{append_chars, chars_of, drop_ws_back, string_of, sub_chars, trim_chars, trimmed};
use vstd::prelude::*;

verus! {

/// A piece of a message: prose or code.
#[derive(Debug, Clone, PartialEq, Eq)]
pub enum ContentPart {
    Text(String),
    Code(String),
}

/// A piece as values: whether it is code, and its text.
pub open spec fn part_view(p: ContentPart) -> (bool, Seq<char>) {
    match p {
        ContentPart::Text(t) => (false, t@),
        ContentPart::Code(c) => (true, c@),
    }
}

pub open spec fn parts_view(v: Seq<ContentPart>) -> Seq<(bool, Seq<char>)> {
    v.map_values(|p: ContentPart| part_view(p))
}

pub open spec fn fence() -> Seq<char> {
    seq!['`', '`', '`']
}

/// Prose, trimmed, unless it is blank.
pub open spec fn prose(t: Seq<char>) -> Seq<(bool, Seq<char>)> {
    if trimmed(t).len() > 0 {
        seq![(false, trimmed(t))]
    } else {
        Seq::empty()
    }
}

/// The pieces of a text: prose up to a fence; then, after the rest of the
/// fence's line (its language), code up to the closing fence, without
/// trailing whitespace; and so on. Code that is never closed runs to the
/// end.
pub open spec fn pieces(rest: Seq<char>) -> Seq<(bool, Seq<char>)>
    decreases rest.len(),
{
    match occurrence_from(rest, fence(), 0) {
        None => prose(rest),
        Some(s) => {
            proof {
                crate::memory::lemma_occurrence_bounds(rest, fence(), 0);
            }
            let am = rest.subrange(s + 3, rest.len() as int);
            let cs = match first_char(am, '\n') {
                Some(i) => i + 1,
                None => 0,
            };
            if cs < 0 || cs > am.len() {
                prose(rest.subrange(0, s))
            } else {
                let body = am.subrange(cs, am.len() as int);
                match occurrence_from(body, fence(), 0) {
                    Some(e) => {
                        proof {
                            crate::memory::lemma_occurrence_bounds(body, fence(), 0);
                        }
                        prose(rest.subrange(0, s)) + seq![(true, drop_ws_back(body.subrange(0, e)))]
                            + pieces(body.subrange(e + 3, body.len() as int))
                    },
                    None => prose(rest.subrange(0, s)) + seq![(true, body)],
                }
            }
        },
    }
}

/// The pieces of a message; a message with none is one piece of prose, as
/// it is.
pub open spec fn message_pieces(content: Seq<char>) -> Seq<(bool, Seq<char>)> {
    if pieces(content).len() == 0 {
        seq![(false, content)]
    } else {
        pieces(content)
    }
}

fn push_prose(parts: &mut Vec<ContentPart>, s: &Vec<char>, from: usize, to: usize)
    requires
        from <= to <= s.len(),
    ensures
        parts_view(final(parts)@) == parts_view(old(parts)@) + prose(s@.subrange(from as int, to as int)),
{
    let t = trim_chars(&sub_chars(s, from, to));
    if t.len() > 0 {
        let p = ContentPart::Text(string_of(&t));
        let ghost before = parts@;
        parts.push(p);
        proof {
            assert(parts_view(parts@) == parts_view(before).push(part_view(p)));
        }
    } else {
        proof {
            assert(parts_view(parts@) + Seq::<(bool, Seq<char>)>::empty() == parts_view(parts@));
        }
    }
}

/// Splits a message into prose and code.
pub fn split_code_blocks(content: &str) -> (r: Vec<ContentPart>)
    ensures
        parts_view(r@) == message_pieces(content@),
{
    let s = chars_of(content);
    let f = chars_of("```");
    proof {
        reveal_strlit("```");
        assert(f@ == fence());
    }
    let mut parts: Vec<ContentPart> = Vec::new();
    let mut pos: usize = 0;
    proof {
        assert(s@.subrange(0, s@.len() as int) == s@);
        assert(parts_view(parts@) + pieces(s@) == pieces(s@));
    }
    let mut done = false;
    while !done
        invariant
            pos <= s.len(),
            f@ == fence(),
            !done ==> parts_view(parts@) + pieces(s@.subrange(pos as int, s@.len() as int)) == pieces(s@),
            done ==> parts_view(parts@) == pieces(s@),
        decreases (s.len() - pos) as int + if done {
            0int
        } else {
            1int
        },
    {
        let ghost rest = s@.subrange(pos as int, s@.len() as int);
        proof {
            crate::memory::lemma_occurrence_shift(s@, f@, pos as int, 0);
            crate::memory::lemma_occurrence_bounds(s@, f@, pos as int);
        }
        match find_from(&s, &f, pos) {
            None => {
                let ghost before = parts_view(parts@);
                push_prose(&mut parts, &s, pos, s.len());
                proof {
                    assert(pieces(rest) == prose(rest));
                }
                done = true;
            },
            Some(k) => {
                let after = k + 3;
                let am = sub_chars(&s, after, s.len());
                proof {
                    assert(am@ == rest.subrange(k - pos + 3, rest.len() as int));
                    assert(rest.subrange(0, k - pos) == s@.subrange(pos as int, k as int));
                }
                let cs: usize = match first_char_at(&am, '\n') {
                    Some(i) => i + 1,
                    None => 0,
                };
                let ghost before = parts_view(parts@);
                push_prose(&mut parts, &s, pos, k);
                let body_start = after + cs;
                proof {
                    assert(am@.subrange(cs as int, am@.len() as int) == s@.subrange(body_start as int, s@.len() as int));
                    crate::memory::lemma_occurrence_shift(s@, f@, body_start as int, 0);
                    crate::memory::lemma_occurrence_bounds(s@, f@, body_start as int);
                }
                let ghost body = s@.subrange(body_start as int, s@.len() as int);
                match find_from(&s, &f, body_start) {
                    Some(e) => {
                        let code = trim_end_chars(&sub_chars(&s, body_start, e));
                        let p = ContentPart::Code(string_of(&code));
                        let ghost mid = parts@;
                        parts.push(p);
                        proof {
                            assert(body.subrange(0, e - body_start) == s@.subrange(body_start as int, e as int));
                            assert(body.subrange(e - body_start + 3, body.len() as int) == s@.subrange(e + 3, s@.len() as int));
                            assert(parts_view(parts@) == parts_view(mid).push(part_view(p)));
                            assert(pieces(rest) == prose(rest.subrange(0, k - pos)) + seq![(true, drop_ws_back(body.subrange(0, e - body_start)))]
                                + pieces(body.subrange(e - body_start + 3, body.len() as int)));
                            assert(parts_view(parts@) + pieces(s@.subrange(e + 3, s@.len() as int))
                                == before + pieces(rest));
                        }
                        pos = e + 3;
                    },
                    None => {
                        let code = sub_chars(&s, body_start, s.len());
                        let p = ContentPart::Code(string_of(&code));
                        let ghost mid = parts@;
                        parts.push(p);
                        proof {
                            assert(parts_view(parts@) == parts_view(mid).push(part_view(p)));
                            assert(pieces(rest) == prose(rest.subrange(0, k - pos)) + seq![(true, body)]);
                        }
                        done = true;
                    },
                }
            },
        }
    }
    if parts.len() == 0 {
        parts.push(ContentPart::Text(String::from_str(content)));
    }
    parts
}

/// The text without trailing whitespace (`str::trim_end`).
fn trim_end_chars(s: &Vec<char>) -> (r: Vec<char>)
    ensures
        r@ == drop_ws_back(s@),
{
    let mut e: usize = s.len();
    proof {
        assert(s@.subrange(0, s@.len() as int) == s@);
    }
    while e > 0 && crate::text::is_whitespace(s[e - 1])
        invariant
            e <= s.len(),
            drop_ws_back(s@) == drop_ws_back(s@.subrange(0, e as int)),
        decreases e,
    {
        proof {
            let t = s@.subrange(0, e as int);
            assert(t.drop_last() == s@.subrange(0, e - 1));
        }
        e -= 1;
    }
    sub_chars(s, 0, e)
}

/// The header of a message: who wrote it and when.
pub fn format_role_header(role: &str, time_label: &str) -> (r: String)
    ensures
        r@ == role@ + " \u{b7} "@ + time_label@,
{
    crate::text::concat3(role, " \u{b7} ", time_label)
}

} // verus!
