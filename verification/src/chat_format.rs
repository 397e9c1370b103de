//! Choosing a provider by name, and the shapes of chat requests and replies:
//! messages with role names, the system prompt of the Anthropic format, and
//! the text of a reply.
use crate::agent_manager::texts;
use crate::error::MentalOSError;
use crate::memory::{messages_view, Message, MessageView, Role};
use crate::router::{join_texts, joined_with};
use crate::text::str_eq;
use vstd::prelude::*;
use vstd::string::*;

verus! {

// ---------------------------------------------------------------------------
// Providers by name
// ---------------------------------------------------------------------------

/// The providers there are.
#[derive(Debug, Clone, Copy, PartialEq, Eq, Structural)]
pub enum ProviderKind {
    OpenClaw,
    Ollama,
    DeepSeek,
    Zen,
}

pub open spec fn kind_named(name: Seq<char>) -> Option<ProviderKind> {
    if name == "openclaw"@ {
        Some(ProviderKind::OpenClaw)
    } else if name == "ollama"@ {
        Some(ProviderKind::Ollama)
    } else if name == "deepseek"@ {
        Some(ProviderKind::DeepSeek)
    } else if name == "zen"@ {
        Some(ProviderKind::Zen)
    } else {
        None
    }
}

/// The provider that a configured name selects; an error naming the
/// supported ones for any other name.
pub fn provider_kind(name: &str) -> (r: Result<ProviderKind, MentalOSError>)
    ensures
        match kind_named(name@) {
            Some(k) => r == Ok::<ProviderKind, MentalOSError>(k),
            None => r matches Err(MentalOSError::ConfigInvalid(m)) && m@ == "Unknown AI provider: '"@ + name@
                + "'. Supported providers: openclaw, ollama, deepseek, zen"@,
        },
{
    proof {
        reveal_strlit("openclaw");
        reveal_strlit("ollama");
        reveal_strlit("deepseek");
        reveal_strlit("zen");
    }
    if str_eq(name, "openclaw") {
        Ok(ProviderKind::OpenClaw)
    } else if str_eq(name, "ollama") {
        Ok(ProviderKind::Ollama)
    } else if str_eq(name, "deepseek") {
        Ok(ProviderKind::DeepSeek)
    } else if str_eq(name, "zen") {
        Ok(ProviderKind::Zen)
    } else {
        let mut m = String::from_str("Unknown AI provider: '");
        m.append(name);
        m.append("'. Supported providers: openclaw, ollama, deepseek, zen");
        Err(MentalOSError::ConfigInvalid(m))
    }
}

// ---------------------------------------------------------------------------
// Messages of a request
// ---------------------------------------------------------------------------

/// The role of a message as chat APIs name it.
pub open spec fn role_text(r: Role) -> Seq<char> {
    match r {
        Role::User => "user"@,
        Role::Assistant => "assistant"@,
        Role::System => "system"@,
    }
}

/// The name of a role.
pub fn role_name(r: Role) -> (s: &'static str)
    ensures
        s@ == role_text(r),
{
    proof {
        reveal_strlit("user");
        reveal_strlit("assistant");
        reveal_strlit("system");
    }
    match r {
        Role::User => "user",
        Role::Assistant => "assistant",
        Role::System => "system",
    }
}

pub open spec fn pair_texts(v: Seq<(String, String)>) -> Seq<(Seq<char>, Seq<char>)> {
    v.map_values(|p: (String, String)| (p.0@, p.1@))
}

/// The context as (role, content) pairs, then the new message from the user.
pub open spec fn chat_pairs(ms: Seq<MessageView>, message: Seq<char>) -> Seq<(Seq<char>, Seq<char>)> {
    ms.map_values(|m: MessageView| (role_text(m.role), m.content)).push(("user"@, message))
}

/// The messages of a Chat Completions (or Ollama chat) request.
pub fn chat_messages(context: &Vec<Message>, message: &str) -> (r: Vec<(String, String)>)
    ensures
        pair_texts(r@) == chat_pairs(messages_view(context@), message@),
{
    let ghost ms = messages_view(context@);
    let mut out: Vec<(String, String)> = Vec::new();
    let mut i: usize = 0;
    while i < context.len()
        invariant
            i <= context.len(),
            ms == messages_view(context@),
            pair_texts(out@) == ms.subrange(0, i as int).map_values(|m: MessageView| (role_text(m.role), m.content)),
        decreases context.len() - i,
    {
        let ghost before = pair_texts(out@);
        out.push((String::from_str(role_name(context[i].role)), context[i].content.clone()));
        proof {
            assert(pair_texts(out@) =~= before.push((role_text(ms[i as int].role), ms[i as int].content)));
            assert(ms.subrange(0, i + 1).map_values(|m: MessageView| (role_text(m.role), m.content)) =~= ms.subrange(
                0,
                i as int,
            ).map_values(|m: MessageView| (role_text(m.role), m.content)).push((role_text(ms[i as int].role), ms[i as int].content)));
        }
        i += 1;
    }
    let ghost before = pair_texts(out@);
    out.push((String::from_str("user"), String::from_str(message)));
    proof {
        reveal_strlit("user");
        assert(ms.subrange(0, context.len() as int) =~= ms);
        assert(pair_texts(out@) =~= before.push(("user"@, message@)));
    }
    out
}

/// The conversation part of an Anthropic Messages request: the context
/// without its system messages, then the new message from the user.
pub open spec fn anthropic_pairs(ms: Seq<MessageView>, message: Seq<char>) -> Seq<(Seq<char>, Seq<char>)> {
    non_system(ms).push(("user"@, message))
}

pub open spec fn non_system(ms: Seq<MessageView>) -> Seq<(Seq<char>, Seq<char>)>
    decreases ms.len(),
{
    if ms.len() == 0 {
        Seq::empty()
    } else {
        let rest = non_system(ms.drop_last());
        if ms.last().role == Role::System {
            rest
        } else {
            rest.push((role_text(ms.last().role), ms.last().content))
        }
    }
}

/// The contents of the system messages, in order.
pub open spec fn system_texts(ms: Seq<MessageView>) -> Seq<Seq<char>>
    decreases ms.len(),
{
    if ms.len() == 0 {
        Seq::empty()
    } else {
        let rest = system_texts(ms.drop_last());
        if ms.last().role == Role::System {
            rest.push(ms.last().content)
        } else {
            rest
        }
    }
}

/// The system prompt of an Anthropic request: the system messages joined
/// by newlines, none when that is empty.
pub open spec fn system_prompt(ms: Seq<MessageView>) -> Option<Seq<char>> {
    let p = joined_with(system_texts(ms), "\n"@);
    if p.len() == 0 {
        None
    } else {
        Some(p)
    }
}

/// The system prompt and the messages of an Anthropic Messages request.
pub fn anthropic_request(context: &Vec<Message>, message: &str) -> (r: (Option<String>, Vec<(String, String)>))
    ensures
        crate::text::opt_text(r.0) == system_prompt(messages_view(context@)),
        pair_texts(r.1@) == anthropic_pairs(messages_view(context@), message@),
{
    let ghost ms = messages_view(context@);
    let mut pairs: Vec<(String, String)> = Vec::new();
    let mut system: Vec<String> = Vec::new();
    let mut i: usize = 0;
    proof {
        assert(ms.subrange(0, 0) =~= Seq::<MessageView>::empty());
    }
    while i < context.len()
        invariant
            i <= context.len(),
            ms == messages_view(context@),
            pair_texts(pairs@) == non_system(ms.subrange(0, i as int)),
            texts(system@) == system_texts(ms.subrange(0, i as int)),
        decreases context.len() - i,
    {
        proof {
            let pre = ms.subrange(0, i + 1);
            assert(pre.drop_last() =~= ms.subrange(0, i as int));
            assert(pre.last() == ms[i as int]);
        }
        let ghost bp = pair_texts(pairs@);
        let ghost bs = texts(system@);
        if context[i].role == Role::System {
            system.push(context[i].content.clone());
            proof {
                assert(texts(system@) =~= bs.push(ms[i as int].content));
            }
        } else {
            pairs.push((String::from_str(role_name(context[i].role)), context[i].content.clone()));
            proof {
                assert(pair_texts(pairs@) =~= bp.push((role_text(ms[i as int].role), ms[i as int].content)));
            }
        }
        i += 1;
    }
    proof {
        assert(ms.subrange(0, context.len() as int) =~= ms);
    }
    let ghost bp = pair_texts(pairs@);
    pairs.push((String::from_str("user"), String::from_str(message)));
    let joined = join_texts(&system, "\n");
    proof {
        reveal_strlit("user");
        assert(pair_texts(pairs@) =~= bp.push(("user"@, message@)));
    }
    let prompt = if joined.as_str().is_empty() {
        None
    } else {
        Some(joined)
    };
    (prompt, pairs)
}

// ---------------------------------------------------------------------------
// Replies
// ---------------------------------------------------------------------------

/// The texts of the `text` blocks of a reply that carry one.
pub open spec fn text_blocks(blocks: Seq<(String, Option<String>)>) -> Seq<Seq<char>>
    decreases blocks.len(),
{
    if blocks.len() == 0 {
        Seq::empty()
    } else {
        let rest = text_blocks(blocks.drop_last());
        let b = blocks.last();
        if b.0@ == "text"@ {
            match b.1 {
                Some(t) => rest.push(t@),
                None => rest,
            }
        } else {
            rest
        }
    }
}

/// The answer of an Anthropic Messages reply, given its content blocks as
/// (type, text) pairs: the texts of the `text` blocks joined by newlines;
/// an error when that is empty.
pub fn anthropic_answer(blocks: &Vec<(String, Option<String>)>) -> (r: Result<String, MentalOSError>)
    ensures
        ({
            let j = joined_with(text_blocks(blocks@), "\n"@);
            if j.len() == 0 {
                r matches Err(MentalOSError::Other(m)) && m@ == "Zen returned empty content"@
            } else {
                r matches Ok(s) && s@ == j
            }
        }),
{
    let mut parts: Vec<String> = Vec::new();
    let mut i: usize = 0;
    proof {
        reveal_strlit("text");
        assert(blocks@.subrange(0, 0) =~= Seq::<(String, Option<String>)>::empty());
    }
    while i < blocks.len()
        invariant
            i <= blocks.len(),
            texts(parts@) == text_blocks(blocks@.subrange(0, i as int)),
        decreases blocks.len() - i,
    {
        proof {
            let pre = blocks@.subrange(0, i + 1);
            assert(pre.drop_last() =~= blocks@.subrange(0, i as int));
            assert(pre.last() == blocks@[i as int]);
        }
        let ghost before = texts(parts@);
        if str_eq(blocks[i].0.as_str(), "text") {
            match &blocks[i].1 {
                Some(t) => {
                    parts.push(t.clone());
                    proof {
                        assert(texts(parts@) =~= before.push(t@));
                    }
                },
                None => {},
            }
        }
        i += 1;
    }
    proof {
        assert(blocks@.subrange(0, blocks.len() as int) =~= blocks@);
    }
    let joined = join_texts(&parts, "\n");
    if joined.as_str().is_empty() {
        Err(MentalOSError::Other(String::from_str("Zen returned empty content")))
    } else {
        Ok(joined)
    }
}

/// The answer of a Chat Completions reply, given the content of each
/// choice: the first choice's content; an error when there is no choice or
/// it has no content.
pub fn first_choice_answer(choices: Vec<Option<String>>) -> (r: Result<String, MentalOSError>)
    ensures
        if choices.len() == 0 {
            r matches Err(MentalOSError::Other(m)) && m@ == "Zen returned no choices"@
        } else {
            match choices@[0] {
                Some(c) => r matches Ok(s) && s@ == c@,
                None => r matches Err(MentalOSError::Other(m)) && m@ == "Zen returned empty content"@,
            }
        },
{
    let mut choices = choices;
    if choices.len() == 0 {
        return Err(MentalOSError::Other(String::from_str("Zen returned no choices")));
    }
    match choices.remove(0) {
        Some(c) => Ok(c),
        None => Err(MentalOSError::Other(String::from_str("Zen returned empty content"))),
    }
}

/// What a Zen model switch reports.
pub fn zen_switch_message(old_model: &str, new_model: &str) -> (s: String)
    ensures
        s@ == "Switched Zen model from "@ + old_model@ + " to "@ + new_model@,
{
    let mut s = String::from_str("Switched Zen model from ");
    s.append(old_model);
    s.append(" to ");
    s.append(new_model);
    s
}

/// What an Ollama model switch reports.
pub fn ollama_switch_message(old_model: &str, new_model: &str) -> (s: String)
    ensures
        s@ == "Switched Ollama model from "@ + old_model@ + " to "@ + new_model@,
{
    let mut s = String::from_str("Switched Ollama model from ");
    s.append(old_model);
    s.append(" to ");
    s.append(new_model);
    s
}

} // verus!
