//! Recognising requests to create a project, and what to tell the agent and
//! the user about the project that was created.
use crate::error::MentalOSError;
use crate::pattern::{captures_of, group, group_at, group_texts, regex_captures, regex_compiles};
use crate::text::{
    chars_of, lemma_trimmed_idempotent, lower, lower_chars, opt_text, str_eq, to_lowercase, trim_str, trimmed, unicode_lower,
    string_of,
};
use crate::workspace::{ProjectCommands, WorkspaceManager};
use std::path::PathBuf;
use vstd::prelude::*;
use vstd::string::*;

verus! {

/// A project to create.
#[derive(Debug, Clone)]
pub struct ProjectRequest {
    pub name: String,
    pub language: Option<String>,
    pub framework: Option<String>,
    pub description: Option<String>,
    pub auto_setup: bool,
}

/// What became of a project request.
#[derive(Debug, Clone)]
pub struct ProjectResponse {
    pub success: bool,
    pub path: Option<String>,
    pub message: String,
    pub commands: Option<ProjectCommands>,
}

/// Creates projects through a coding agent.
pub struct ProjectHandler {
    workspace_manager: WorkspaceManager,
    opencode_path: String,
    opencode_args: Vec<String>,
}

/// The patterns that recognise a project request, most specific first.
/// Group 1 is the project name, group 2 or 3 the language, group 4 the
/// framework.
pub open spec fn intent_pattern_texts() -> Seq<Seq<char>> {
    seq![
        "(?i)(?:new|create|build|make)\\s+(?:a\\s+)?(\\w+)\\s+(?:app|project|server|tool|api|cli|web)\\s+with\\s+(\\w+)"@,
        "(?i)create\\s+(?:a\\s+)?(\\w+)\\s+(?:app|project)\\s+with\\s+(\\w+)"@,
        "(?i)(?:new|create|build|make)\\s+(?:a\\s+)?(\\w+[-]?\\w*)\\s+(?:\\w+\\s+)?(?:app|project|server|tool|api|cli)\\s+(?:with|using)\\s+(\\w+)"@,
        "(?i)create\\s+(?:a\\s+)?(\\w+[-]?\\w*)\\s+(?:\\w+\\s+)?(?:app|project|server|tool)?"@,
        "(?i)build\\s+(?:a\\s+)?(\\w+[-]?\\w*)\\s+(?:\\w+\\s+)?(?:app|project|server|tool)?"@,
        "(?i)make\\s+(?:a\\s+)?(\\w+[-]?\\w*)\\s+(?:\\w+\\s+)?(?:app|project|server|tool)?"@,
        "(?i)scaffold\\s+(?:a\\s+)?(\\w+[-]?\\w*)\\s+(?:\\w+\\s+)?(?:app|project|server|tool)?"@,
    ]
}

/// Names that refer to something rather than name a project.
pub open spec fn is_pronoun(name: Seq<char>) -> bool {
    let l = lower(name);
    l == "this"@ || l == "that"@ || l == "it"@ || l == "project"@ || l == "app"@ || l == "server"@
        || l == "tool"@ || l == "api"@
}

/// The canonical name of a language; other names are lower-cased.
pub open spec fn normalized_language(lang: Seq<char>) -> Seq<char> {
    let l = unicode_lower(lang);
    if l == "rust"@ || l == "rs"@ {
        "rust"@
    } else if l == "python"@ || l == "py"@ || l == "py3"@ {
        "python"@
    } else if l == "javascript"@ || l == "js"@ || l == "nodejs"@ || l == "node"@ {
        "javascript"@
    } else if l == "typescript"@ || l == "ts"@ {
        "typescript"@
    } else if l == "go"@ || l == "golang"@ {
        "go"@
    } else if l == "java"@ {
        "java"@
    } else if l == "c#"@ || l == "csharp"@ || l == "cs"@ {
        "csharp"@
    } else if l == "c++"@ || l == "cpp"@ {
        "cpp"@
    } else if l == "c"@ {
        "c"@
    } else if l == "ruby"@ || l == "rb"@ {
        "ruby"@
    } else if l == "php"@ {
        "php"@
    } else if l == "swift"@ {
        "swift"@
    } else if l == "kotlin"@ || l == "kt"@ {
        "kotlin"@
    } else if l == "scala"@ {
        "scala"@
    } else {
        l
    }
}

/// The canonical language names.
pub open spec fn canonical_languages() -> Seq<Seq<char>> {
    seq![
        "rust"@, "python"@, "javascript"@, "typescript"@, "go"@, "java"@, "csharp"@, "cpp"@, "c"@, "ruby"@, "php"@,
        "swift"@, "kotlin"@, "scala"@,
    ]
}

/// Normalising keeps a canonical name: a language written in any case that
/// lowers to a canonical name is normalised to that very name (never to
/// another language).
pub proof fn law_canonical_language_kept(lang: Seq<char>)
    ensures
        forall|i: int|
            0 <= i < canonical_languages().len() && unicode_lower(lang) == #[trigger] canonical_languages()[i]
                ==> normalized_language(lang) == canonical_languages()[i],
{
    reveal_strlit("rust");
    reveal_strlit("rs");
    reveal_strlit("python");
    reveal_strlit("py");
    reveal_strlit("py3");
    reveal_strlit("javascript");
    reveal_strlit("js");
    reveal_strlit("nodejs");
    reveal_strlit("node");
    reveal_strlit("typescript");
    reveal_strlit("ts");
    reveal_strlit("go");
    reveal_strlit("golang");
    reveal_strlit("java");
    reveal_strlit("c#");
    reveal_strlit("csharp");
    reveal_strlit("cs");
    reveal_strlit("c++");
    reveal_strlit("cpp");
    reveal_strlit("c");
    reveal_strlit("ruby");
    reveal_strlit("rb");
    reveal_strlit("php");
    reveal_strlit("swift");
    reveal_strlit("kotlin");
    reveal_strlit("kt");
    reveal_strlit("scala");
    assert("rust"@ != "rs"@) by { if "rust"@ == "rs"@ { assert("rust"@.len() == "rs"@.len()); } }
    assert("rust"@ != "python"@) by { if "rust"@ == "python"@ { assert("rust"@.len() == "python"@.len()); } }
    assert("rust"@ != "py"@) by { if "rust"@ == "py"@ { assert("rust"@.len() == "py"@.len()); } }
    assert("rust"@ != "py3"@) by { if "rust"@ == "py3"@ { assert("rust"@.len() == "py3"@.len()); } }
    assert("rust"@ != "javascript"@) by { if "rust"@ == "javascript"@ { assert("rust"@.len() == "javascript"@.len()); } }
    assert("rust"@ != "js"@) by { if "rust"@ == "js"@ { assert("rust"@.len() == "js"@.len()); } }
    assert("rust"@ != "nodejs"@) by { if "rust"@ == "nodejs"@ { assert("rust"@.len() == "nodejs"@.len()); } }
    assert("rust"@ != "node"@) by { if "rust"@ == "node"@ { assert("rust"@[0] == "node"@[0]); } }
    assert("rust"@ != "typescript"@) by { if "rust"@ == "typescript"@ { assert("rust"@.len() == "typescript"@.len()); } }
    assert("rust"@ != "ts"@) by { if "rust"@ == "ts"@ { assert("rust"@.len() == "ts"@.len()); } }
    assert("rust"@ != "go"@) by { if "rust"@ == "go"@ { assert("rust"@.len() == "go"@.len()); } }
    assert("rust"@ != "golang"@) by { if "rust"@ == "golang"@ { assert("rust"@.len() == "golang"@.len()); } }
    assert("rust"@ != "java"@) by { if "rust"@ == "java"@ { assert("rust"@[0] == "java"@[0]); } }
    assert("rust"@ != "c#"@) by { if "rust"@ == "c#"@ { assert("rust"@.len() == "c#"@.len()); } }
    assert("rust"@ != "csharp"@) by { if "rust"@ == "csharp"@ { assert("rust"@.len() == "csharp"@.len()); } }
    assert("rust"@ != "cs"@) by { if "rust"@ == "cs"@ { assert("rust"@.len() == "cs"@.len()); } }
    assert("rust"@ != "c++"@) by { if "rust"@ == "c++"@ { assert("rust"@.len() == "c++"@.len()); } }
    assert("rust"@ != "cpp"@) by { if "rust"@ == "cpp"@ { assert("rust"@.len() == "cpp"@.len()); } }
    assert("rust"@ != "c"@) by { if "rust"@ == "c"@ { assert("rust"@.len() == "c"@.len()); } }
    assert("rust"@ != "ruby"@) by { if "rust"@ == "ruby"@ { assert("rust"@[2] == "ruby"@[2]); } }
    assert("rust"@ != "rb"@) by { if "rust"@ == "rb"@ { assert("rust"@.len() == "rb"@.len()); } }
    assert("rust"@ != "php"@) by { if "rust"@ == "php"@ { assert("rust"@.len() == "php"@.len()); } }
    assert("rust"@ != "swift"@) by { if "rust"@ == "swift"@ { assert("rust"@.len() == "swift"@.len()); } }
    assert("rust"@ != "kotlin"@) by { if "rust"@ == "kotlin"@ { assert("rust"@.len() == "kotlin"@.len()); } }
    assert("rust"@ != "kt"@) by { if "rust"@ == "kt"@ { assert("rust"@.len() == "kt"@.len()); } }
    assert("rust"@ != "scala"@) by { if "rust"@ == "scala"@ { assert("rust"@.len() == "scala"@.len()); } }
    assert("python"@ != "rust"@) by { if "python"@ == "rust"@ { assert("python"@.len() == "rust"@.len()); } }
    assert("python"@ != "rs"@) by { if "python"@ == "rs"@ { assert("python"@.len() == "rs"@.len()); } }
    assert("python"@ != "py"@) by { if "python"@ == "py"@ { assert("python"@.len() == "py"@.len()); } }
    assert("python"@ != "py3"@) by { if "python"@ == "py3"@ { assert("python"@.len() == "py3"@.len()); } }
    assert("python"@ != "javascript"@) by { if "python"@ == "javascript"@ { assert("python"@.len() == "javascript"@.len()); } }
    assert("python"@ != "js"@) by { if "python"@ == "js"@ { assert("python"@.len() == "js"@.len()); } }
    assert("python"@ != "nodejs"@) by { if "python"@ == "nodejs"@ { assert("python"@[0] == "nodejs"@[0]); } }
    assert("python"@ != "node"@) by { if "python"@ == "node"@ { assert("python"@.len() == "node"@.len()); } }
    assert("python"@ != "typescript"@) by { if "python"@ == "typescript"@ { assert("python"@.len() == "typescript"@.len()); } }
    assert("python"@ != "ts"@) by { if "python"@ == "ts"@ { assert("python"@.len() == "ts"@.len()); } }
    assert("python"@ != "go"@) by { if "python"@ == "go"@ { assert("python"@.len() == "go"@.len()); } }
    assert("python"@ != "golang"@) by { if "python"@ == "golang"@ { assert("python"@[0] == "golang"@[0]); } }
    assert("python"@ != "java"@) by { if "python"@ == "java"@ { assert("python"@.len() == "java"@.len()); } }
    assert("python"@ != "c#"@) by { if "python"@ == "c#"@ { assert("python"@.len() == "c#"@.len()); } }
    assert("python"@ != "csharp"@) by { if "python"@ == "csharp"@ { assert("python"@[0] == "csharp"@[0]); } }
    assert("python"@ != "cs"@) by { if "python"@ == "cs"@ { assert("python"@.len() == "cs"@.len()); } }
    assert("python"@ != "c++"@) by { if "python"@ == "c++"@ { assert("python"@.len() == "c++"@.len()); } }
    assert("python"@ != "cpp"@) by { if "python"@ == "cpp"@ { assert("python"@.len() == "cpp"@.len()); } }
    assert("python"@ != "c"@) by { if "python"@ == "c"@ { assert("python"@.len() == "c"@.len()); } }
    assert("python"@ != "ruby"@) by { if "python"@ == "ruby"@ { assert("python"@.len() == "ruby"@.len()); } }
    assert("python"@ != "rb"@) by { if "python"@ == "rb"@ { assert("python"@.len() == "rb"@.len()); } }
    assert("python"@ != "php"@) by { if "python"@ == "php"@ { assert("python"@.len() == "php"@.len()); } }
    assert("python"@ != "swift"@) by { if "python"@ == "swift"@ { assert("python"@.len() == "swift"@.len()); } }
    assert("python"@ != "kotlin"@) by { if "python"@ == "kotlin"@ { assert("python"@[0] == "kotlin"@[0]); } }
    assert("python"@ != "kt"@) by { if "python"@ == "kt"@ { assert("python"@.len() == "kt"@.len()); } }
    assert("python"@ != "scala"@) by { if "python"@ == "scala"@ { assert("python"@.len() == "scala"@.len()); } }
    assert("javascript"@ != "rust"@) by { if "javascript"@ == "rust"@ { assert("javascript"@.len() == "rust"@.len()); } }
    assert("javascript"@ != "rs"@) by { if "javascript"@ == "rs"@ { assert("javascript"@.len() == "rs"@.len()); } }
    assert("javascript"@ != "python"@) by { if "javascript"@ == "python"@ { assert("javascript"@.len() == "python"@.len()); } }
    assert("javascript"@ != "py"@) by { if "javascript"@ == "py"@ { assert("javascript"@.len() == "py"@.len()); } }
    assert("javascript"@ != "py3"@) by { if "javascript"@ == "py3"@ { assert("javascript"@.len() == "py3"@.len()); } }
    assert("javascript"@ != "js"@) by { if "javascript"@ == "js"@ { assert("javascript"@.len() == "js"@.len()); } }
    assert("javascript"@ != "nodejs"@) by { if "javascript"@ == "nodejs"@ { assert("javascript"@.len() == "nodejs"@.len()); } }
    assert("javascript"@ != "node"@) by { if "javascript"@ == "node"@ { assert("javascript"@.len() == "node"@.len()); } }
    assert("javascript"@ != "typescript"@) by { if "javascript"@ == "typescript"@ { assert("javascript"@[0] == "typescript"@[0]); } }
    assert("javascript"@ != "ts"@) by { if "javascript"@ == "ts"@ { assert("javascript"@.len() == "ts"@.len()); } }
    assert("javascript"@ != "go"@) by { if "javascript"@ == "go"@ { assert("javascript"@.len() == "go"@.len()); } }
    assert("javascript"@ != "golang"@) by { if "javascript"@ == "golang"@ { assert("javascript"@.len() == "golang"@.len()); } }
    assert("javascript"@ != "java"@) by { if "javascript"@ == "java"@ { assert("javascript"@.len() == "java"@.len()); } }
    assert("javascript"@ != "c#"@) by { if "javascript"@ == "c#"@ { assert("javascript"@.len() == "c#"@.len()); } }
    assert("javascript"@ != "csharp"@) by { if "javascript"@ == "csharp"@ { assert("javascript"@.len() == "csharp"@.len()); } }
    assert("javascript"@ != "cs"@) by { if "javascript"@ == "cs"@ { assert("javascript"@.len() == "cs"@.len()); } }
    assert("javascript"@ != "c++"@) by { if "javascript"@ == "c++"@ { assert("javascript"@.len() == "c++"@.len()); } }
    assert("javascript"@ != "cpp"@) by { if "javascript"@ == "cpp"@ { assert("javascript"@.len() == "cpp"@.len()); } }
    assert("javascript"@ != "c"@) by { if "javascript"@ == "c"@ { assert("javascript"@.len() == "c"@.len()); } }
    assert("javascript"@ != "ruby"@) by { if "javascript"@ == "ruby"@ { assert("javascript"@.len() == "ruby"@.len()); } }
    assert("javascript"@ != "rb"@) by { if "javascript"@ == "rb"@ { assert("javascript"@.len() == "rb"@.len()); } }
    assert("javascript"@ != "php"@) by { if "javascript"@ == "php"@ { assert("javascript"@.len() == "php"@.len()); } }
    assert("javascript"@ != "swift"@) by { if "javascript"@ == "swift"@ { assert("javascript"@.len() == "swift"@.len()); } }
    assert("javascript"@ != "kotlin"@) by { if "javascript"@ == "kotlin"@ { assert("javascript"@.len() == "kotlin"@.len()); } }
    assert("javascript"@ != "kt"@) by { if "javascript"@ == "kt"@ { assert("javascript"@.len() == "kt"@.len()); } }
    assert("javascript"@ != "scala"@) by { if "javascript"@ == "scala"@ { assert("javascript"@.len() == "scala"@.len()); } }
    assert("typescript"@ != "rust"@) by { if "typescript"@ == "rust"@ { assert("typescript"@.len() == "rust"@.len()); } }
    assert("typescript"@ != "rs"@) by { if "typescript"@ == "rs"@ { assert("typescript"@.len() == "rs"@.len()); } }
    assert("typescript"@ != "python"@) by { if "typescript"@ == "python"@ { assert("typescript"@.len() == "python"@.len()); } }
    assert("typescript"@ != "py"@) by { if "typescript"@ == "py"@ { assert("typescript"@.len() == "py"@.len()); } }
    assert("typescript"@ != "py3"@) by { if "typescript"@ == "py3"@ { assert("typescript"@.len() == "py3"@.len()); } }
    assert("typescript"@ != "javascript"@) by { if "typescript"@ == "javascript"@ { assert("typescript"@[0] == "javascript"@[0]); } }
    assert("typescript"@ != "js"@) by { if "typescript"@ == "js"@ { assert("typescript"@.len() == "js"@.len()); } }
    assert("typescript"@ != "nodejs"@) by { if "typescript"@ == "nodejs"@ { assert("typescript"@.len() == "nodejs"@.len()); } }
    assert("typescript"@ != "node"@) by { if "typescript"@ == "node"@ { assert("typescript"@.len() == "node"@.len()); } }
    assert("typescript"@ != "ts"@) by { if "typescript"@ == "ts"@ { assert("typescript"@.len() == "ts"@.len()); } }
    assert("typescript"@ != "go"@) by { if "typescript"@ == "go"@ { assert("typescript"@.len() == "go"@.len()); } }
    assert("typescript"@ != "golang"@) by { if "typescript"@ == "golang"@ { assert("typescript"@.len() == "golang"@.len()); } }
    assert("typescript"@ != "java"@) by { if "typescript"@ == "java"@ { assert("typescript"@.len() == "java"@.len()); } }
    assert("typescript"@ != "c#"@) by { if "typescript"@ == "c#"@ { assert("typescript"@.len() == "c#"@.len()); } }
    assert("typescript"@ != "csharp"@) by { if "typescript"@ == "csharp"@ { assert("typescript"@.len() == "csharp"@.len()); } }
    assert("typescript"@ != "cs"@) by { if "typescript"@ == "cs"@ { assert("typescript"@.len() == "cs"@.len()); } }
    assert("typescript"@ != "c++"@) by { if "typescript"@ == "c++"@ { assert("typescript"@.len() == "c++"@.len()); } }
    assert("typescript"@ != "cpp"@) by { if "typescript"@ == "cpp"@ { assert("typescript"@.len() == "cpp"@.len()); } }
    assert("typescript"@ != "c"@) by { if "typescript"@ == "c"@ { assert("typescript"@.len() == "c"@.len()); } }
    assert("typescript"@ != "ruby"@) by { if "typescript"@ == "ruby"@ { assert("typescript"@.len() == "ruby"@.len()); } }
    assert("typescript"@ != "rb"@) by { if "typescript"@ == "rb"@ { assert("typescript"@.len() == "rb"@.len()); } }
    assert("typescript"@ != "php"@) by { if "typescript"@ == "php"@ { assert("typescript"@.len() == "php"@.len()); } }
    assert("typescript"@ != "swift"@) by { if "typescript"@ == "swift"@ { assert("typescript"@.len() == "swift"@.len()); } }
    assert("typescript"@ != "kotlin"@) by { if "typescript"@ == "kotlin"@ { assert("typescript"@.len() == "kotlin"@.len()); } }
    assert("typescript"@ != "kt"@) by { if "typescript"@ == "kt"@ { assert("typescript"@.len() == "kt"@.len()); } }
    assert("typescript"@ != "scala"@) by { if "typescript"@ == "scala"@ { assert("typescript"@.len() == "scala"@.len()); } }
    assert("go"@ != "rust"@) by { if "go"@ == "rust"@ { assert("go"@.len() == "rust"@.len()); } }
    assert("go"@ != "rs"@) by { if "go"@ == "rs"@ { assert("go"@[0] == "rs"@[0]); } }
    assert("go"@ != "python"@) by { if "go"@ == "python"@ { assert("go"@.len() == "python"@.len()); } }
    assert("go"@ != "py"@) by { if "go"@ == "py"@ { assert("go"@[0] == "py"@[0]); } }
    assert("go"@ != "py3"@) by { if "go"@ == "py3"@ { assert("go"@.len() == "py3"@.len()); } }
    assert("go"@ != "javascript"@) by { if "go"@ == "javascript"@ { assert("go"@.len() == "javascript"@.len()); } }
    assert("go"@ != "js"@) by { if "go"@ == "js"@ { assert("go"@[0] == "js"@[0]); } }
    assert("go"@ != "nodejs"@) by { if "go"@ == "nodejs"@ { assert("go"@.len() == "nodejs"@.len()); } }
    assert("go"@ != "node"@) by { if "go"@ == "node"@ { assert("go"@.len() == "node"@.len()); } }
    assert("go"@ != "typescript"@) by { if "go"@ == "typescript"@ { assert("go"@.len() == "typescript"@.len()); } }
    assert("go"@ != "ts"@) by { if "go"@ == "ts"@ { assert("go"@[0] == "ts"@[0]); } }
    assert("go"@ != "golang"@) by { if "go"@ == "golang"@ { assert("go"@.len() == "golang"@.len()); } }
    assert("go"@ != "java"@) by { if "go"@ == "java"@ { assert("go"@.len() == "java"@.len()); } }
    assert("go"@ != "c#"@) by { if "go"@ == "c#"@ { assert("go"@[0] == "c#"@[0]); } }
    assert("go"@ != "csharp"@) by { if "go"@ == "csharp"@ { assert("go"@.len() == "csharp"@.len()); } }
    assert("go"@ != "cs"@) by { if "go"@ == "cs"@ { assert("go"@[0] == "cs"@[0]); } }
    assert("go"@ != "c++"@) by { if "go"@ == "c++"@ { assert("go"@.len() == "c++"@.len()); } }
    assert("go"@ != "cpp"@) by { if "go"@ == "cpp"@ { assert("go"@.len() == "cpp"@.len()); } }
    assert("go"@ != "c"@) by { if "go"@ == "c"@ { assert("go"@.len() == "c"@.len()); } }
    assert("go"@ != "ruby"@) by { if "go"@ == "ruby"@ { assert("go"@.len() == "ruby"@.len()); } }
    assert("go"@ != "rb"@) by { if "go"@ == "rb"@ { assert("go"@[0] == "rb"@[0]); } }
    assert("go"@ != "php"@) by { if "go"@ == "php"@ { assert("go"@.len() == "php"@.len()); } }
    assert("go"@ != "swift"@) by { if "go"@ == "swift"@ { assert("go"@.len() == "swift"@.len()); } }
    assert("go"@ != "kotlin"@) by { if "go"@ == "kotlin"@ { assert("go"@.len() == "kotlin"@.len()); } }
    assert("go"@ != "kt"@) by { if "go"@ == "kt"@ { assert("go"@[0] == "kt"@[0]); } }
    assert("go"@ != "scala"@) by { if "go"@ == "scala"@ { assert("go"@.len() == "scala"@.len()); } }
    assert("java"@ != "rust"@) by { if "java"@ == "rust"@ { assert("java"@[0] == "rust"@[0]); } }
    assert("java"@ != "rs"@) by { if "java"@ == "rs"@ { assert("java"@.len() == "rs"@.len()); } }
    assert("java"@ != "python"@) by { if "java"@ == "python"@ { assert("java"@.len() == "python"@.len()); } }
    assert("java"@ != "py"@) by { if "java"@ == "py"@ { assert("java"@.len() == "py"@.len()); } }
    assert("java"@ != "py3"@) by { if "java"@ == "py3"@ { assert("java"@.len() == "py3"@.len()); } }
    assert("java"@ != "javascript"@) by { if "java"@ == "javascript"@ { assert("java"@.len() == "javascript"@.len()); } }
    assert("java"@ != "js"@) by { if "java"@ == "js"@ { assert("java"@.len() == "js"@.len()); } }
    assert("java"@ != "nodejs"@) by { if "java"@ == "nodejs"@ { assert("java"@.len() == "nodejs"@.len()); } }
    assert("java"@ != "node"@) by { if "java"@ == "node"@ { assert("java"@[0] == "node"@[0]); } }
    assert("java"@ != "typescript"@) by { if "java"@ == "typescript"@ { assert("java"@.len() == "typescript"@.len()); } }
    assert("java"@ != "ts"@) by { if "java"@ == "ts"@ { assert("java"@.len() == "ts"@.len()); } }
    assert("java"@ != "go"@) by { if "java"@ == "go"@ { assert("java"@.len() == "go"@.len()); } }
    assert("java"@ != "golang"@) by { if "java"@ == "golang"@ { assert("java"@.len() == "golang"@.len()); } }
    assert("java"@ != "c#"@) by { if "java"@ == "c#"@ { assert("java"@.len() == "c#"@.len()); } }
    assert("java"@ != "csharp"@) by { if "java"@ == "csharp"@ { assert("java"@.len() == "csharp"@.len()); } }
    assert("java"@ != "cs"@) by { if "java"@ == "cs"@ { assert("java"@.len() == "cs"@.len()); } }
    assert("java"@ != "c++"@) by { if "java"@ == "c++"@ { assert("java"@.len() == "c++"@.len()); } }
    assert("java"@ != "cpp"@) by { if "java"@ == "cpp"@ { assert("java"@.len() == "cpp"@.len()); } }
    assert("java"@ != "c"@) by { if "java"@ == "c"@ { assert("java"@.len() == "c"@.len()); } }
    assert("java"@ != "ruby"@) by { if "java"@ == "ruby"@ { assert("java"@[0] == "ruby"@[0]); } }
    assert("java"@ != "rb"@) by { if "java"@ == "rb"@ { assert("java"@.len() == "rb"@.len()); } }
    assert("java"@ != "php"@) by { if "java"@ == "php"@ { assert("java"@.len() == "php"@.len()); } }
    assert("java"@ != "swift"@) by { if "java"@ == "swift"@ { assert("java"@.len() == "swift"@.len()); } }
    assert("java"@ != "kotlin"@) by { if "java"@ == "kotlin"@ { assert("java"@.len() == "kotlin"@.len()); } }
    assert("java"@ != "kt"@) by { if "java"@ == "kt"@ { assert("java"@.len() == "kt"@.len()); } }
    assert("java"@ != "scala"@) by { if "java"@ == "scala"@ { assert("java"@.len() == "scala"@.len()); } }
    assert("csharp"@ != "rust"@) by { if "csharp"@ == "rust"@ { assert("csharp"@.len() == "rust"@.len()); } }
    assert("csharp"@ != "rs"@) by { if "csharp"@ == "rs"@ { assert("csharp"@.len() == "rs"@.len()); } }
    assert("csharp"@ != "python"@) by { if "csharp"@ == "python"@ { assert("csharp"@[0] == "python"@[0]); } }
    assert("csharp"@ != "py"@) by { if "csharp"@ == "py"@ { assert("csharp"@.len() == "py"@.len()); } }
    assert("csharp"@ != "py3"@) by { if "csharp"@ == "py3"@ { assert("csharp"@.len() == "py3"@.len()); } }
    assert("csharp"@ != "javascript"@) by { if "csharp"@ == "javascript"@ { assert("csharp"@.len() == "javascript"@.len()); } }
    assert("csharp"@ != "js"@) by { if "csharp"@ == "js"@ { assert("csharp"@.len() == "js"@.len()); } }
    assert("csharp"@ != "nodejs"@) by { if "csharp"@ == "nodejs"@ { assert("csharp"@[0] == "nodejs"@[0]); } }
    assert("csharp"@ != "node"@) by { if "csharp"@ == "node"@ { assert("csharp"@.len() == "node"@.len()); } }
    assert("csharp"@ != "typescript"@) by { if "csharp"@ == "typescript"@ { assert("csharp"@.len() == "typescript"@.len()); } }
    assert("csharp"@ != "ts"@) by { if "csharp"@ == "ts"@ { assert("csharp"@.len() == "ts"@.len()); } }
    assert("csharp"@ != "go"@) by { if "csharp"@ == "go"@ { assert("csharp"@.len() == "go"@.len()); } }
    assert("csharp"@ != "golang"@) by { if "csharp"@ == "golang"@ { assert("csharp"@[0] == "golang"@[0]); } }
    assert("csharp"@ != "java"@) by { if "csharp"@ == "java"@ { assert("csharp"@.len() == "java"@.len()); } }
    assert("csharp"@ != "c#"@) by { if "csharp"@ == "c#"@ { assert("csharp"@.len() == "c#"@.len()); } }
    assert("csharp"@ != "cs"@) by { if "csharp"@ == "cs"@ { assert("csharp"@.len() == "cs"@.len()); } }
    assert("csharp"@ != "c++"@) by { if "csharp"@ == "c++"@ { assert("csharp"@.len() == "c++"@.len()); } }
    assert("csharp"@ != "cpp"@) by { if "csharp"@ == "cpp"@ { assert("csharp"@.len() == "cpp"@.len()); } }
    assert("csharp"@ != "c"@) by { if "csharp"@ == "c"@ { assert("csharp"@.len() == "c"@.len()); } }
    assert("csharp"@ != "ruby"@) by { if "csharp"@ == "ruby"@ { assert("csharp"@.len() == "ruby"@.len()); } }
    assert("csharp"@ != "rb"@) by { if "csharp"@ == "rb"@ { assert("csharp"@.len() == "rb"@.len()); } }
    assert("csharp"@ != "php"@) by { if "csharp"@ == "php"@ { assert("csharp"@.len() == "php"@.len()); } }
    assert("csharp"@ != "swift"@) by { if "csharp"@ == "swift"@ { assert("csharp"@.len() == "swift"@.len()); } }
    assert("csharp"@ != "kotlin"@) by { if "csharp"@ == "kotlin"@ { assert("csharp"@[0] == "kotlin"@[0]); } }
    assert("csharp"@ != "kt"@) by { if "csharp"@ == "kt"@ { assert("csharp"@.len() == "kt"@.len()); } }
    assert("csharp"@ != "scala"@) by { if "csharp"@ == "scala"@ { assert("csharp"@.len() == "scala"@.len()); } }
    assert("cpp"@ != "rust"@) by { if "cpp"@ == "rust"@ { assert("cpp"@.len() == "rust"@.len()); } }
    assert("cpp"@ != "rs"@) by { if "cpp"@ == "rs"@ { assert("cpp"@.len() == "rs"@.len()); } }
    assert("cpp"@ != "python"@) by { if "cpp"@ == "python"@ { assert("cpp"@.len() == "python"@.len()); } }
    assert("cpp"@ != "py"@) by { if "cpp"@ == "py"@ { assert("cpp"@.len() == "py"@.len()); } }
    assert("cpp"@ != "py3"@) by { if "cpp"@ == "py3"@ { assert("cpp"@[0] == "py3"@[0]); } }
    assert("cpp"@ != "javascript"@) by { if "cpp"@ == "javascript"@ { assert("cpp"@.len() == "javascript"@.len()); } }
    assert("cpp"@ != "js"@) by { if "cpp"@ == "js"@ { assert("cpp"@.len() == "js"@.len()); } }
    assert("cpp"@ != "nodejs"@) by { if "cpp"@ == "nodejs"@ { assert("cpp"@.len() == "nodejs"@.len()); } }
    assert("cpp"@ != "node"@) by { if "cpp"@ == "node"@ { assert("cpp"@.len() == "node"@.len()); } }
    assert("cpp"@ != "typescript"@) by { if "cpp"@ == "typescript"@ { assert("cpp"@.len() == "typescript"@.len()); } }
    assert("cpp"@ != "ts"@) by { if "cpp"@ == "ts"@ { assert("cpp"@.len() == "ts"@.len()); } }
    assert("cpp"@ != "go"@) by { if "cpp"@ == "go"@ { assert("cpp"@.len() == "go"@.len()); } }
    assert("cpp"@ != "golang"@) by { if "cpp"@ == "golang"@ { assert("cpp"@.len() == "golang"@.len()); } }
    assert("cpp"@ != "java"@) by { if "cpp"@ == "java"@ { assert("cpp"@.len() == "java"@.len()); } }
    assert("cpp"@ != "c#"@) by { if "cpp"@ == "c#"@ { assert("cpp"@.len() == "c#"@.len()); } }
    assert("cpp"@ != "csharp"@) by { if "cpp"@ == "csharp"@ { assert("cpp"@.len() == "csharp"@.len()); } }
    assert("cpp"@ != "cs"@) by { if "cpp"@ == "cs"@ { assert("cpp"@.len() == "cs"@.len()); } }
    assert("cpp"@ != "c++"@) by { if "cpp"@ == "c++"@ { assert("cpp"@[1] == "c++"@[1]); } }
    assert("cpp"@ != "c"@) by { if "cpp"@ == "c"@ { assert("cpp"@.len() == "c"@.len()); } }
    assert("cpp"@ != "ruby"@) by { if "cpp"@ == "ruby"@ { assert("cpp"@.len() == "ruby"@.len()); } }
    assert("cpp"@ != "rb"@) by { if "cpp"@ == "rb"@ { assert("cpp"@.len() == "rb"@.len()); } }
    assert("cpp"@ != "php"@) by { if "cpp"@ == "php"@ { assert("cpp"@[0] == "php"@[0]); } }
    assert("cpp"@ != "swift"@) by { if "cpp"@ == "swift"@ { assert("cpp"@.len() == "swift"@.len()); } }
    assert("cpp"@ != "kotlin"@) by { if "cpp"@ == "kotlin"@ { assert("cpp"@.len() == "kotlin"@.len()); } }
    assert("cpp"@ != "kt"@) by { if "cpp"@ == "kt"@ { assert("cpp"@.len() == "kt"@.len()); } }
    assert("cpp"@ != "scala"@) by { if "cpp"@ == "scala"@ { assert("cpp"@.len() == "scala"@.len()); } }
    assert("c"@ != "rust"@) by { if "c"@ == "rust"@ { assert("c"@.len() == "rust"@.len()); } }
    assert("c"@ != "rs"@) by { if "c"@ == "rs"@ { assert("c"@.len() == "rs"@.len()); } }
    assert("c"@ != "python"@) by { if "c"@ == "python"@ { assert("c"@.len() == "python"@.len()); } }
    assert("c"@ != "py"@) by { if "c"@ == "py"@ { assert("c"@.len() == "py"@.len()); } }
    assert("c"@ != "py3"@) by { if "c"@ == "py3"@ { assert("c"@.len() == "py3"@.len()); } }
    assert("c"@ != "javascript"@) by { if "c"@ == "javascript"@ { assert("c"@.len() == "javascript"@.len()); } }
    assert("c"@ != "js"@) by { if "c"@ == "js"@ { assert("c"@.len() == "js"@.len()); } }
    assert("c"@ != "nodejs"@) by { if "c"@ == "nodejs"@ { assert("c"@.len() == "nodejs"@.len()); } }
    assert("c"@ != "node"@) by { if "c"@ == "node"@ { assert("c"@.len() == "node"@.len()); } }
    assert("c"@ != "typescript"@) by { if "c"@ == "typescript"@ { assert("c"@.len() == "typescript"@.len()); } }
    assert("c"@ != "ts"@) by { if "c"@ == "ts"@ { assert("c"@.len() == "ts"@.len()); } }
    assert("c"@ != "go"@) by { if "c"@ == "go"@ { assert("c"@.len() == "go"@.len()); } }
    assert("c"@ != "golang"@) by { if "c"@ == "golang"@ { assert("c"@.len() == "golang"@.len()); } }
    assert("c"@ != "java"@) by { if "c"@ == "java"@ { assert("c"@.len() == "java"@.len()); } }
    assert("c"@ != "c#"@) by { if "c"@ == "c#"@ { assert("c"@.len() == "c#"@.len()); } }
    assert("c"@ != "csharp"@) by { if "c"@ == "csharp"@ { assert("c"@.len() == "csharp"@.len()); } }
    assert("c"@ != "cs"@) by { if "c"@ == "cs"@ { assert("c"@.len() == "cs"@.len()); } }
    assert("c"@ != "c++"@) by { if "c"@ == "c++"@ { assert("c"@.len() == "c++"@.len()); } }
    assert("c"@ != "cpp"@) by { if "c"@ == "cpp"@ { assert("c"@.len() == "cpp"@.len()); } }
    assert("c"@ != "ruby"@) by { if "c"@ == "ruby"@ { assert("c"@.len() == "ruby"@.len()); } }
    assert("c"@ != "rb"@) by { if "c"@ == "rb"@ { assert("c"@.len() == "rb"@.len()); } }
    assert("c"@ != "php"@) by { if "c"@ == "php"@ { assert("c"@.len() == "php"@.len()); } }
    assert("c"@ != "swift"@) by { if "c"@ == "swift"@ { assert("c"@.len() == "swift"@.len()); } }
    assert("c"@ != "kotlin"@) by { if "c"@ == "kotlin"@ { assert("c"@.len() == "kotlin"@.len()); } }
    assert("c"@ != "kt"@) by { if "c"@ == "kt"@ { assert("c"@.len() == "kt"@.len()); } }
    assert("c"@ != "scala"@) by { if "c"@ == "scala"@ { assert("c"@.len() == "scala"@.len()); } }
    assert("ruby"@ != "rust"@) by { if "ruby"@ == "rust"@ { assert("ruby"@[2] == "rust"@[2]); } }
    assert("ruby"@ != "rs"@) by { if "ruby"@ == "rs"@ { assert("ruby"@.len() == "rs"@.len()); } }
    assert("ruby"@ != "python"@) by { if "ruby"@ == "python"@ { assert("ruby"@.len() == "python"@.len()); } }
    assert("ruby"@ != "py"@) by { if "ruby"@ == "py"@ { assert("ruby"@.len() == "py"@.len()); } }
    assert("ruby"@ != "py3"@) by { if "ruby"@ == "py3"@ { assert("ruby"@.len() == "py3"@.len()); } }
    assert("ruby"@ != "javascript"@) by { if "ruby"@ == "javascript"@ { assert("ruby"@.len() == "javascript"@.len()); } }
    assert("ruby"@ != "js"@) by { if "ruby"@ == "js"@ { assert("ruby"@.len() == "js"@.len()); } }
    assert("ruby"@ != "nodejs"@) by { if "ruby"@ == "nodejs"@ { assert("ruby"@.len() == "nodejs"@.len()); } }
    assert("ruby"@ != "node"@) by { if "ruby"@ == "node"@ { assert("ruby"@[0] == "node"@[0]); } }
    assert("ruby"@ != "typescript"@) by { if "ruby"@ == "typescript"@ { assert("ruby"@.len() == "typescript"@.len()); } }
    assert("ruby"@ != "ts"@) by { if "ruby"@ == "ts"@ { assert("ruby"@.len() == "ts"@.len()); } }
    assert("ruby"@ != "go"@) by { if "ruby"@ == "go"@ { assert("ruby"@.len() == "go"@.len()); } }
    assert("ruby"@ != "golang"@) by { if "ruby"@ == "golang"@ { assert("ruby"@.len() == "golang"@.len()); } }
    assert("ruby"@ != "java"@) by { if "ruby"@ == "java"@ { assert("ruby"@[0] == "java"@[0]); } }
    assert("ruby"@ != "c#"@) by { if "ruby"@ == "c#"@ { assert("ruby"@.len() == "c#"@.len()); } }
    assert("ruby"@ != "csharp"@) by { if "ruby"@ == "csharp"@ { assert("ruby"@.len() == "csharp"@.len()); } }
    assert("ruby"@ != "cs"@) by { if "ruby"@ == "cs"@ { assert("ruby"@.len() == "cs"@.len()); } }
    assert("ruby"@ != "c++"@) by { if "ruby"@ == "c++"@ { assert("ruby"@.len() == "c++"@.len()); } }
    assert("ruby"@ != "cpp"@) by { if "ruby"@ == "cpp"@ { assert("ruby"@.len() == "cpp"@.len()); } }
    assert("ruby"@ != "c"@) by { if "ruby"@ == "c"@ { assert("ruby"@.len() == "c"@.len()); } }
    assert("ruby"@ != "rb"@) by { if "ruby"@ == "rb"@ { assert("ruby"@.len() == "rb"@.len()); } }
    assert("ruby"@ != "php"@) by { if "ruby"@ == "php"@ { assert("ruby"@.len() == "php"@.len()); } }
    assert("ruby"@ != "swift"@) by { if "ruby"@ == "swift"@ { assert("ruby"@.len() == "swift"@.len()); } }
    assert("ruby"@ != "kotlin"@) by { if "ruby"@ == "kotlin"@ { assert("ruby"@.len() == "kotlin"@.len()); } }
    assert("ruby"@ != "kt"@) by { if "ruby"@ == "kt"@ { assert("ruby"@.len() == "kt"@.len()); } }
    assert("ruby"@ != "scala"@) by { if "ruby"@ == "scala"@ { assert("ruby"@.len() == "scala"@.len()); } }
    assert("php"@ != "rust"@) by { if "php"@ == "rust"@ { assert("php"@.len() == "rust"@.len()); } }
    assert("php"@ != "rs"@) by { if "php"@ == "rs"@ { assert("php"@.len() == "rs"@.len()); } }
    assert("php"@ != "python"@) by { if "php"@ == "python"@ { assert("php"@.len() == "python"@.len()); } }
    assert("php"@ != "py"@) by { if "php"@ == "py"@ { assert("php"@.len() == "py"@.len()); } }
    assert("php"@ != "py3"@) by { if "php"@ == "py3"@ { assert("php"@[1] == "py3"@[1]); } }
    assert("php"@ != "javascript"@) by { if "php"@ == "javascript"@ { assert("php"@.len() == "javascript"@.len()); } }
    assert("php"@ != "js"@) by { if "php"@ == "js"@ { assert("php"@.len() == "js"@.len()); } }
    assert("php"@ != "nodejs"@) by { if "php"@ == "nodejs"@ { assert("php"@.len() == "nodejs"@.len()); } }
    assert("php"@ != "node"@) by { if "php"@ == "node"@ { assert("php"@.len() == "node"@.len()); } }
    assert("php"@ != "typescript"@) by { if "php"@ == "typescript"@ { assert("php"@.len() == "typescript"@.len()); } }
    assert("php"@ != "ts"@) by { if "php"@ == "ts"@ { assert("php"@.len() == "ts"@.len()); } }
    assert("php"@ != "go"@) by { if "php"@ == "go"@ { assert("php"@.len() == "go"@.len()); } }
    assert("php"@ != "golang"@) by { if "php"@ == "golang"@ { assert("php"@.len() == "golang"@.len()); } }
    assert("php"@ != "java"@) by { if "php"@ == "java"@ { assert("php"@.len() == "java"@.len()); } }
    assert("php"@ != "c#"@) by { if "php"@ == "c#"@ { assert("php"@.len() == "c#"@.len()); } }
    assert("php"@ != "csharp"@) by { if "php"@ == "csharp"@ { assert("php"@.len() == "csharp"@.len()); } }
    assert("php"@ != "cs"@) by { if "php"@ == "cs"@ { assert("php"@.len() == "cs"@.len()); } }
    assert("php"@ != "c++"@) by { if "php"@ == "c++"@ { assert("php"@[0] == "c++"@[0]); } }
    assert("php"@ != "cpp"@) by { if "php"@ == "cpp"@ { assert("php"@[0] == "cpp"@[0]); } }
    assert("php"@ != "c"@) by { if "php"@ == "c"@ { assert("php"@.len() == "c"@.len()); } }
    assert("php"@ != "ruby"@) by { if "php"@ == "ruby"@ { assert("php"@.len() == "ruby"@.len()); } }
    assert("php"@ != "rb"@) by { if "php"@ == "rb"@ { assert("php"@.len() == "rb"@.len()); } }
    assert("php"@ != "swift"@) by { if "php"@ == "swift"@ { assert("php"@.len() == "swift"@.len()); } }
    assert("php"@ != "kotlin"@) by { if "php"@ == "kotlin"@ { assert("php"@.len() == "kotlin"@.len()); } }
    assert("php"@ != "kt"@) by { if "php"@ == "kt"@ { assert("php"@.len() == "kt"@.len()); } }
    assert("php"@ != "scala"@) by { if "php"@ == "scala"@ { assert("php"@.len() == "scala"@.len()); } }
    assert("swift"@ != "rust"@) by { if "swift"@ == "rust"@ { assert("swift"@.len() == "rust"@.len()); } }
    assert("swift"@ != "rs"@) by { if "swift"@ == "rs"@ { assert("swift"@.len() == "rs"@.len()); } }
    assert("swift"@ != "python"@) by { if "swift"@ == "python"@ { assert("swift"@.len() == "python"@.len()); } }
    assert("swift"@ != "py"@) by { if "swift"@ == "py"@ { assert("swift"@.len() == "py"@.len()); } }
    assert("swift"@ != "py3"@) by { if "swift"@ == "py3"@ { assert("swift"@.len() == "py3"@.len()); } }
    assert("swift"@ != "javascript"@) by { if "swift"@ == "javascript"@ { assert("swift"@.len() == "javascript"@.len()); } }
    assert("swift"@ != "js"@) by { if "swift"@ == "js"@ { assert("swift"@.len() == "js"@.len()); } }
    assert("swift"@ != "nodejs"@) by { if "swift"@ == "nodejs"@ { assert("swift"@.len() == "nodejs"@.len()); } }
    assert("swift"@ != "node"@) by { if "swift"@ == "node"@ { assert("swift"@.len() == "node"@.len()); } }
    assert("swift"@ != "typescript"@) by { if "swift"@ == "typescript"@ { assert("swift"@.len() == "typescript"@.len()); } }
    assert("swift"@ != "ts"@) by { if "swift"@ == "ts"@ { assert("swift"@.len() == "ts"@.len()); } }
    assert("swift"@ != "go"@) by { if "swift"@ == "go"@ { assert("swift"@.len() == "go"@.len()); } }
    assert("swift"@ != "golang"@) by { if "swift"@ == "golang"@ { assert("swift"@.len() == "golang"@.len()); } }
    assert("swift"@ != "java"@) by { if "swift"@ == "java"@ { assert("swift"@.len() == "java"@.len()); } }
    assert("swift"@ != "c#"@) by { if "swift"@ == "c#"@ { assert("swift"@.len() == "c#"@.len()); } }
    assert("swift"@ != "csharp"@) by { if "swift"@ == "csharp"@ { assert("swift"@.len() == "csharp"@.len()); } }
    assert("swift"@ != "cs"@) by { if "swift"@ == "cs"@ { assert("swift"@.len() == "cs"@.len()); } }
    assert("swift"@ != "c++"@) by { if "swift"@ == "c++"@ { assert("swift"@.len() == "c++"@.len()); } }
    assert("swift"@ != "cpp"@) by { if "swift"@ == "cpp"@ { assert("swift"@.len() == "cpp"@.len()); } }
    assert("swift"@ != "c"@) by { if "swift"@ == "c"@ { assert("swift"@.len() == "c"@.len()); } }
    assert("swift"@ != "ruby"@) by { if "swift"@ == "ruby"@ { assert("swift"@.len() == "ruby"@.len()); } }
    assert("swift"@ != "rb"@) by { if "swift"@ == "rb"@ { assert("swift"@.len() == "rb"@.len()); } }
    assert("swift"@ != "php"@) by { if "swift"@ == "php"@ { assert("swift"@.len() == "php"@.len()); } }
    assert("swift"@ != "kotlin"@) by { if "swift"@ == "kotlin"@ { assert("swift"@.len() == "kotlin"@.len()); } }
    assert("swift"@ != "kt"@) by { if "swift"@ == "kt"@ { assert("swift"@.len() == "kt"@.len()); } }
    assert("swift"@ != "scala"@) by { if "swift"@ == "scala"@ { assert("swift"@[1] == "scala"@[1]); } }
    assert("kotlin"@ != "rust"@) by { if "kotlin"@ == "rust"@ { assert("kotlin"@.len() == "rust"@.len()); } }
    assert("kotlin"@ != "rs"@) by { if "kotlin"@ == "rs"@ { assert("kotlin"@.len() == "rs"@.len()); } }
    assert("kotlin"@ != "python"@) by { if "kotlin"@ == "python"@ { assert("kotlin"@[0] == "python"@[0]); } }
    assert("kotlin"@ != "py"@) by { if "kotlin"@ == "py"@ { assert("kotlin"@.len() == "py"@.len()); } }
    assert("kotlin"@ != "py3"@) by { if "kotlin"@ == "py3"@ { assert("kotlin"@.len() == "py3"@.len()); } }
    assert("kotlin"@ != "javascript"@) by { if "kotlin"@ == "javascript"@ { assert("kotlin"@.len() == "javascript"@.len()); } }
    assert("kotlin"@ != "js"@) by { if "kotlin"@ == "js"@ { assert("kotlin"@.len() == "js"@.len()); } }
    assert("kotlin"@ != "nodejs"@) by { if "kotlin"@ == "nodejs"@ { assert("kotlin"@[0] == "nodejs"@[0]); } }
    assert("kotlin"@ != "node"@) by { if "kotlin"@ == "node"@ { assert("kotlin"@.len() == "node"@.len()); } }
    assert("kotlin"@ != "typescript"@) by { if "kotlin"@ == "typescript"@ { assert("kotlin"@.len() == "typescript"@.len()); } }
    assert("kotlin"@ != "ts"@) by { if "kotlin"@ == "ts"@ { assert("kotlin"@.len() == "ts"@.len()); } }
    assert("kotlin"@ != "go"@) by { if "kotlin"@ == "go"@ { assert("kotlin"@.len() == "go"@.len()); } }
    assert("kotlin"@ != "golang"@) by { if "kotlin"@ == "golang"@ { assert("kotlin"@[0] == "golang"@[0]); } }
    assert("kotlin"@ != "java"@) by { if "kotlin"@ == "java"@ { assert("kotlin"@.len() == "java"@.len()); } }
    assert("kotlin"@ != "c#"@) by { if "kotlin"@ == "c#"@ { assert("kotlin"@.len() == "c#"@.len()); } }
    assert("kotlin"@ != "csharp"@) by { if "kotlin"@ == "csharp"@ { assert("kotlin"@[0] == "csharp"@[0]); } }
    assert("kotlin"@ != "cs"@) by { if "kotlin"@ == "cs"@ { assert("kotlin"@.len() == "cs"@.len()); } }
    assert("kotlin"@ != "c++"@) by { if "kotlin"@ == "c++"@ { assert("kotlin"@.len() == "c++"@.len()); } }
    assert("kotlin"@ != "cpp"@) by { if "kotlin"@ == "cpp"@ { assert("kotlin"@.len() == "cpp"@.len()); } }
    assert("kotlin"@ != "c"@) by { if "kotlin"@ == "c"@ { assert("kotlin"@.len() == "c"@.len()); } }
    assert("kotlin"@ != "ruby"@) by { if "kotlin"@ == "ruby"@ { assert("kotlin"@.len() == "ruby"@.len()); } }
    assert("kotlin"@ != "rb"@) by { if "kotlin"@ == "rb"@ { assert("kotlin"@.len() == "rb"@.len()); } }
    assert("kotlin"@ != "php"@) by { if "kotlin"@ == "php"@ { assert("kotlin"@.len() == "php"@.len()); } }
    assert("kotlin"@ != "swift"@) by { if "kotlin"@ == "swift"@ { assert("kotlin"@.len() == "swift"@.len()); } }
    assert("kotlin"@ != "kt"@) by { if "kotlin"@ == "kt"@ { assert("kotlin"@.len() == "kt"@.len()); } }
    assert("kotlin"@ != "scala"@) by { if "kotlin"@ == "scala"@ { assert("kotlin"@.len() == "scala"@.len()); } }
    assert("scala"@ != "rust"@) by { if "scala"@ == "rust"@ { assert("scala"@.len() == "rust"@.len()); } }
    assert("scala"@ != "rs"@) by { if "scala"@ == "rs"@ { assert("scala"@.len() == "rs"@.len()); } }
    assert("scala"@ != "python"@) by { if "scala"@ == "python"@ { assert("scala"@.len() == "python"@.len()); } }
    assert("scala"@ != "py"@) by { if "scala"@ == "py"@ { assert("scala"@.len() == "py"@.len()); } }
    assert("scala"@ != "py3"@) by { if "scala"@ == "py3"@ { assert("scala"@.len() == "py3"@.len()); } }
    assert("scala"@ != "javascript"@) by { if "scala"@ == "javascript"@ { assert("scala"@.len() == "javascript"@.len()); } }
    assert("scala"@ != "js"@) by { if "scala"@ == "js"@ { assert("scala"@.len() == "js"@.len()); } }
    assert("scala"@ != "nodejs"@) by { if "scala"@ == "nodejs"@ { assert("scala"@.len() == "nodejs"@.len()); } }
    assert("scala"@ != "node"@) by { if "scala"@ == "node"@ { assert("scala"@.len() == "node"@.len()); } }
    assert("scala"@ != "typescript"@) by { if "scala"@ == "typescript"@ { assert("scala"@.len() == "typescript"@.len()); } }
    assert("scala"@ != "ts"@) by { if "scala"@ == "ts"@ { assert("scala"@.len() == "ts"@.len()); } }
    assert("scala"@ != "go"@) by { if "scala"@ == "go"@ { assert("scala"@.len() == "go"@.len()); } }
    assert("scala"@ != "golang"@) by { if "scala"@ == "golang"@ { assert("scala"@.len() == "golang"@.len()); } }
    assert("scala"@ != "java"@) by { if "scala"@ == "java"@ { assert("scala"@.len() == "java"@.len()); } }
    assert("scala"@ != "c#"@) by { if "scala"@ == "c#"@ { assert("scala"@.len() == "c#"@.len()); } }
    assert("scala"@ != "csharp"@) by { if "scala"@ == "csharp"@ { assert("scala"@.len() == "csharp"@.len()); } }
    assert("scala"@ != "cs"@) by { if "scala"@ == "cs"@ { assert("scala"@.len() == "cs"@.len()); } }
    assert("scala"@ != "c++"@) by { if "scala"@ == "c++"@ { assert("scala"@.len() == "c++"@.len()); } }
    assert("scala"@ != "cpp"@) by { if "scala"@ == "cpp"@ { assert("scala"@.len() == "cpp"@.len()); } }
    assert("scala"@ != "c"@) by { if "scala"@ == "c"@ { assert("scala"@.len() == "c"@.len()); } }
    assert("scala"@ != "ruby"@) by { if "scala"@ == "ruby"@ { assert("scala"@.len() == "ruby"@.len()); } }
    assert("scala"@ != "rb"@) by { if "scala"@ == "rb"@ { assert("scala"@.len() == "rb"@.len()); } }
    assert("scala"@ != "php"@) by { if "scala"@ == "php"@ { assert("scala"@.len() == "php"@.len()); } }
    assert("scala"@ != "swift"@) by { if "scala"@ == "swift"@ { assert("scala"@[1] == "swift"@[1]); } }
    assert("scala"@ != "kotlin"@) by { if "scala"@ == "kotlin"@ { assert("scala"@.len() == "kotlin"@.len()); } }
    assert("scala"@ != "kt"@) by { if "scala"@ == "kt"@ { assert("scala"@.len() == "kt"@.len()); } }
}

pub open spec fn map_opt(o: Option<Seq<char>>, f: spec_fn(Seq<char>) -> Seq<char>) -> Option<Seq<char>> {
    match o {
        Some(x) => Some(f(x)),
        None => None,
    }
}

/// (name, language, framework) of a recognised request.
pub type IntentView = (Seq<char>, Option<Seq<char>>, Option<Seq<char>>);

/// What one match says: no name group (the search ends with nothing), a
/// name that is a pronoun (the search goes on), or a request.
pub enum GroupsIntent {
    NoName,
    Pronoun,
    Found(IntentView),
}

/// What one match's groups say: group 1 is the name (trimmed); group 2, or
/// else group 3, the language (normalised); group 4 the framework (lower
/// case).
pub open spec fn intent_from_groups(c: Seq<Option<Seq<char>>>) -> GroupsIntent {
    match group(c, 1) {
        None => GroupsIntent::NoName,
        Some(n) => {
            let name = trimmed(n);
            if is_pronoun(name) {
                GroupsIntent::Pronoun
            } else {
                let lang = match group(c, 2) {
                    Some(l) => Some(l),
                    None => group(c, 3),
                };
                GroupsIntent::Found(
                    (
                        name,
                        map_opt(lang, |l: Seq<char>| normalized_language(l)),
                        map_opt(group(c, 4), |f: Seq<char>| unicode_lower(f)),
                    ),
                )
            }
        },
    }
}

/// A recognised name is trimmed and never a pronoun.
pub proof fn law_detected_name_is_trimmed_and_not_a_pronoun(pats: Seq<Seq<char>>, input: Seq<char>)
    ensures
        intent_of(pats, input) matches Some((n, l, f)) ==> trimmed(n) == n && !is_pronoun(n),
    decreases pats.len(),
{
    if pats.len() > 0 {
        law_detected_name_is_trimmed_and_not_a_pronoun(pats.drop_first(), input);
        if regex_compiles(pats[0]) {
            if let Some(c) = regex_captures(pats[0], input) {
                if let Some(n) = group(c, 1) {
                    lemma_trimmed_idempotent(n);
                }
            }
        }
    }
}

/// The request that the first pattern to match recognises. A match whose name
/// is a pronoun passes on to the next pattern; a match without a name group
/// ends the search with nothing.
pub open spec fn intent_of(pats: Seq<Seq<char>>, input: Seq<char>) -> Option<IntentView>
    decreases pats.len(),
{
    if pats.len() == 0 {
        None
    } else {
        let rest = intent_of(pats.drop_first(), input);
        if !regex_compiles(pats[0]) {
            rest
        } else {
            match regex_captures(pats[0], input) {
                None => rest,
                Some(c) => match intent_from_groups(c) {
                    GroupsIntent::NoName => None,
                    GroupsIntent::Pronoun => rest,
                    GroupsIntent::Found(v) => Some(v),
                },
            }
        }
    }
}

/// The prompt that asks the agent to scaffold the project.
pub open spec fn scaffold_prompt(
    name: Seq<char>,
    language: Option<Seq<char>>,
    framework: Option<Seq<char>>,
    description: Option<Seq<char>>,
) -> Seq<char> {
    let lang = match language {
        Some(l) => l,
        None => "application"@,
    };
    let head = "Create a new "@ + lang + " project called '"@ + name + "'"@;
    let fw = match framework {
        Some(f) => " using "@ + f,
        None => Seq::empty(),
    };
    let desc = match description {
        Some(d) => ". "@ + d,
        None => Seq::empty(),
    };
    head + fw + desc + ". Set up the basic project structure with:"@
        + "\n- Proper package.json/Cargo.toml/etc. configuration"@ + "\n- Basic main entry point"@
        + "\n- A setup command that installs dependencies"@ + "\n- A run command to start the project"@
        + "\n- A test command if applicable"@
}

/// The patterns that find a setup command in the agent's output.
pub open spec fn setup_pattern_texts() -> Seq<Seq<char>> {
    seq![
        "(?i)setup[:\\s]+([^\\n]+)"@,
        "(?i)install[:\\s]+([^\\n]+)"@,
        "(?i)npm install"@,
        "(?i)cargo install"@,
        "(?i)pip install"@,
        "(?i)go mod download"@,
    ]
}

/// The patterns that find a run command.
pub open spec fn run_pattern_texts() -> Seq<Seq<char>> {
    seq![
        "(?i)run[:\\s]+([^\\n]+)"@,
        "(?i)start[:\\s]+([^\\n]+)"@,
        "(?i)npm start"@,
        "(?i)cargo run"@,
        "(?i)python.*\\.py"@,
    ]
}

/// The patterns that find a test command.
pub open spec fn test_pattern_texts() -> Seq<Seq<char>> {
    seq!["(?i)test[:\\s]+([^\\n]+)"@, "(?i)npm test"@, "(?i)cargo test"@, "(?i)pytest"@]
}

/// The command that the first pattern with a matching group 1 finds, trimmed.
pub open spec fn command_found(pats: Seq<Seq<char>>, output: Seq<char>) -> Option<Seq<char>>
    decreases pats.len(),
{
    if pats.len() == 0 {
        None
    } else {
        let found = if regex_compiles(pats[0]) {
            match regex_captures(pats[0], output) {
                Some(c) => group(c, 1),
                None => None,
            }
        } else {
            None
        };
        match found {
            Some(g) => Some(trimmed(g)),
            None => command_found(pats.drop_first(), output),
        }
    }
}

/// The message that reports a created project.
pub open spec fn created_message(
    name: Seq<char>,
    path: Seq<char>,
    auto_setup: bool,
    setup: Option<Seq<char>>,
) -> Seq<char> {
    if auto_setup {
        "Created project '"@ + name + "' at "@ + path + ". You can run setup with: "@ + match setup {
            Some(s) => s,
            None => "cargo build"@,
        }
    } else {
        "Created project '"@ + name + "' at "@ + path
    }
}

/// The recorded command of a kind ("setup", "run" or "test").
pub open spec fn picked(metadata: Option<ProjectCommands>, kind: Seq<char>) -> Option<Seq<char>> {
    match metadata {
        None => None,
        Some(m) => if kind == "setup"@ {
            opt_text(m.setup)
        } else if kind == "run"@ {
            opt_text(m.run)
        } else if kind == "test"@ {
            opt_text(m.test)
        } else {
            None
        },
    }
}

fn intent_patterns() -> (v: Vec<&'static str>)
    ensures
        v@.len() == intent_pattern_texts().len(),
        forall|i: int| 0 <= i < v@.len() ==> (#[trigger] v@[i])@ == intent_pattern_texts()[i],
{
    let v = vec![
        "(?i)(?:new|create|build|make)\\s+(?:a\\s+)?(\\w+)\\s+(?:app|project|server|tool|api|cli|web)\\s+with\\s+(\\w+)",
        "(?i)create\\s+(?:a\\s+)?(\\w+)\\s+(?:app|project)\\s+with\\s+(\\w+)",
        "(?i)(?:new|create|build|make)\\s+(?:a\\s+)?(\\w+[-]?\\w*)\\s+(?:\\w+\\s+)?(?:app|project|server|tool|api|cli)\\s+(?:with|using)\\s+(\\w+)",
        "(?i)create\\s+(?:a\\s+)?(\\w+[-]?\\w*)\\s+(?:\\w+\\s+)?(?:app|project|server|tool)?",
        "(?i)build\\s+(?:a\\s+)?(\\w+[-]?\\w*)\\s+(?:\\w+\\s+)?(?:app|project|server|tool)?",
        "(?i)make\\s+(?:a\\s+)?(\\w+[-]?\\w*)\\s+(?:\\w+\\s+)?(?:app|project|server|tool)?",
        "(?i)scaffold\\s+(?:a\\s+)?(\\w+[-]?\\w*)\\s+(?:\\w+\\s+)?(?:app|project|server|tool)?",
    ];
    v
}

impl ProjectHandler {
    pub closed spec fn opencode(&self) -> Seq<char> {
        self.opencode_path@
    }

    pub closed spec fn args(&self) -> Seq<String> {
        self.opencode_args@
    }

    pub closed spec fn workspaces(&self) -> WorkspaceManager {
        self.workspace_manager
    }

    pub fn new(workspace_dir: PathBuf, opencode_path: String) -> (h: Self)
        ensures
            h.workspaces().root() == workspace_dir,
            h.opencode() == opencode_path@,
            h.args() == Seq::<String>::empty(),
    {
        ProjectHandler {
            workspace_manager: WorkspaceManager::new(workspace_dir),
            opencode_path,
            opencode_args: Vec::new(),
        }
    }

    /// The arguments the coding agent runs with for a prompt: the configured
    /// ones (or `agent`), then `--message` and the prompt.
    pub fn opencode_arguments(&self, prompt: &str) -> (r: Vec<String>)
        ensures
            r@.map_values(|s: String| s@) == (if self.args().len() > 0 {
                self.args().map_values(|s: String| s@)
            } else {
                seq!["agent"@]
            }) + seq!["--message"@, prompt@],
    {
        let mut r: Vec<String> = Vec::new();
        if self.opencode_args.len() > 0 {
            let mut i: usize = 0;
            while i < self.opencode_args.len()
                invariant
                    i <= self.opencode_args.len(),
                    r@ == self.opencode_args@.subrange(0, i as int),
                decreases self.opencode_args.len() - i,
            {
                r.push(self.opencode_args[i].clone());
                i += 1;
                proof {
                    assert(r@ =~= self.opencode_args@.subrange(0, i as int));
                }
            }
            proof {
                assert(self.opencode_args@.subrange(0, self.opencode_args.len() as int) =~= self.opencode_args@);
            }
        } else {
            r.push(String::from_str("agent"));
        }
        let ghost head = r@.map_values(|s: String| s@);
        r.push(String::from_str("--message"));
        r.push(String::from_str(prompt));
        proof {
            reveal_strlit("agent");
            reveal_strlit("--message");
            assert(r@.map_values(|s: String| s@) =~= head + seq!["--message"@, prompt@]);
            if self.opencode_args.len() == 0 {
                assert(head =~= seq!["agent"@]);
            }
        }
        r
    }

    /// The same handler, running the agent with these arguments.
    pub fn with_args(self, args: Vec<String>) -> (h: Self)
        ensures
            h.workspaces() == self.workspaces(),
            h.opencode() == self.opencode(),
            h.args() == args@,
    {
        let mut h = self;
        h.opencode_args = args;
        h
    }

    /// Where workspaces are created.
    pub fn workspace_manager(&self) -> (m: &WorkspaceManager)
        ensures
            *m == self.workspaces(),
    {
        &self.workspace_manager
    }

    /// The program of the coding agent.
    pub fn opencode_path(&self) -> (p: &str)
        ensures
            p@ == self.opencode(),
    {
        self.opencode_path.as_str()
    }

    /// The arguments of the coding agent.
    pub fn opencode_args(&self) -> (a: &Vec<String>)
        ensures
            a@ == self.args(),
    {
        &self.opencode_args
    }

    /// Recognises a request to create a project.
    pub fn detect_project_intent(&self, input: &str) -> (r: Option<ProjectRequest>)
        ensures
            match intent_of(intent_pattern_texts(), input@) {
                None => r is None,
                Some((n, l, f)) => r matches Some(req) && req.name@ == n && opt_text(req.language)
                    == l && opt_text(req.framework) == f && req.description is None
                    && req.auto_setup,
            },
    {
        let pats = intent_patterns();
        let ghost all = intent_pattern_texts();
        let mut k: usize = 0;
        proof {
            assert(all.subrange(0, all.len() as int) =~= all);
        }
        while k < pats.len()
            invariant
                k <= pats.len(),
                pats@.len() == all.len(),
                all == intent_pattern_texts(),
                forall|i: int| 0 <= i < pats@.len() ==> (#[trigger] pats@[i])@ == all[i],
                intent_of(all, input@) == intent_of(all.subrange(k as int, all.len() as int), input@),
            decreases pats.len() - k,
        {
            let ghost rest = all.subrange(k as int, all.len() as int);
            proof {
                assert(rest[0] == all[k as int]);
                assert(rest.drop_first() =~= all.subrange(k + 1, all.len() as int));
            }
            match captures_of(pats[k], input) {
                None => {},
                Some(c) => {
                    match Self::request_from_captures(&c) {
                        None => {
                            return None;
                        },
                        Some(Some(req)) => {
                            return Some(req);
                        },
                        Some(None) => {},
                    }
                },
            }
            k += 1;
        }
        None
    }

    /// What one match's groups make of a request (see `intent_from_groups`):
    /// `None` when the match has no name group, `Some(None)` when the name is
    /// a pronoun, else the request, with no description and set up at once.
    pub fn request_from_captures(c: &Vec<Option<String>>) -> (r: Option<Option<ProjectRequest>>)
        ensures
            match intent_from_groups(group_texts(*c)) {
                GroupsIntent::NoName => r is None,
                GroupsIntent::Pronoun => r == Some(None::<ProjectRequest>),
                GroupsIntent::Found((n, l, f)) => r matches Some(Some(req)) && req.name@ == n && opt_text(req.language)
                    == l && opt_text(req.framework) == f && req.description is None && req.auto_setup,
            },
    {
        let g1 = group_at(c, 1);
        match g1 {
            None => None,
            Some(n) => {
                let name = trim_str(n.as_str());
                if Self::looks_like_non_project_pronoun(name.as_str()) {
                    Some(None)
                } else {
                    let language = match group_at(c, 2) {
                        Some(l) => Some(Self::normalize_language(l.as_str())),
                        None => match group_at(c, 3) {
                            Some(l) => Some(Self::normalize_language(l.as_str())),
                            None => None,
                        },
                    };
                    let framework = match group_at(c, 4) {
                        Some(f) => Some(to_lowercase(f.as_str())),
                        None => None,
                    };
                    Some(Some(ProjectRequest { name, language, framework, description: None, auto_setup: true }))
                }
            },
        }
    }

    /// Whether a name refers to something rather than names a project.
    pub fn looks_like_non_project_pronoun(name: &str) -> (b: bool)
        ensures
            b == is_pronoun(name@),
    {
        let l = string_of(&lower_chars(&chars_of(name)));
        let s = l.as_str();
        str_eq(s, "this") || str_eq(s, "that") || str_eq(s, "it") || str_eq(s, "project") || str_eq(
            s,
            "app",
        ) || str_eq(s, "server") || str_eq(s, "tool") || str_eq(s, "api")
    }

    /// The canonical name of a language.
    pub fn normalize_language(lang: &str) -> (r: String)
        ensures
            r@ == normalized_language(lang@),
    {
        let l = to_lowercase(lang);
        let s = l.as_str();
        if str_eq(s, "rust") || str_eq(s, "rs") {
            String::from_str("rust")
        } else if str_eq(s, "python") || str_eq(s, "py") || str_eq(s, "py3") {
            String::from_str("python")
        } else if str_eq(s, "javascript") || str_eq(s, "js") || str_eq(s, "nodejs") || str_eq(
            s,
            "node",
        ) {
            String::from_str("javascript")
        } else if str_eq(s, "typescript") || str_eq(s, "ts") {
            String::from_str("typescript")
        } else if str_eq(s, "go") || str_eq(s, "golang") {
            String::from_str("go")
        } else if str_eq(s, "java") {
            String::from_str("java")
        } else if str_eq(s, "c#") || str_eq(s, "csharp") || str_eq(s, "cs") {
            String::from_str("csharp")
        } else if str_eq(s, "c++") || str_eq(s, "cpp") {
            String::from_str("cpp")
        } else if str_eq(s, "c") {
            String::from_str("c")
        } else if str_eq(s, "ruby") || str_eq(s, "rb") {
            String::from_str("ruby")
        } else if str_eq(s, "php") {
            String::from_str("php")
        } else if str_eq(s, "swift") {
            String::from_str("swift")
        } else if str_eq(s, "kotlin") || str_eq(s, "kt") {
            String::from_str("kotlin")
        } else if str_eq(s, "scala") {
            String::from_str("scala")
        } else {
            l
        }
    }

    /// The prompt that asks the coding agent to scaffold the project.
    pub fn build_scaffold_prompt(request: &ProjectRequest) -> (p: String)
        ensures
            p@ == scaffold_prompt(
                request.name@,
                opt_text(request.language),
                opt_text(request.framework),
                opt_text(request.description),
            ),
    {
        let mut prompt = String::from_str("Create a new ");
        match &request.language {
            Some(l) => prompt.append(l.as_str()),
            None => prompt.append("application"),
        }
        prompt.append(" project called '");
        prompt.append(request.name.as_str());
        prompt.append("'");
        let ghost head = prompt@;
        if let Some(framework) = &request.framework {
            prompt.append(" using ");
            prompt.append(framework.as_str());
        }
        if let Some(description) = &request.description {
            prompt.append(". ");
            prompt.append(description.as_str());
        }
        prompt.append(". Set up the basic project structure with:");
        prompt.append("\n- Proper package.json/Cargo.toml/etc. configuration");
        prompt.append("\n- Basic main entry point");
        prompt.append("\n- A setup command that installs dependencies");
        prompt.append("\n- A run command to start the project");
        prompt.append("\n- A test command if applicable");
        proof {
            let fw = match opt_text(request.framework) {
                Some(f) => " using "@ + f,
                None => Seq::<char>::empty(),
            };
            let desc = match opt_text(request.description) {
                Some(d) => ". "@ + d,
                None => Seq::<char>::empty(),
            };
            assert(prompt@ =~= scaffold_prompt(
                request.name@,
                opt_text(request.language),
                opt_text(request.framework),
                opt_text(request.description),
            ));
        }
        prompt
    }

    /// The setup, run and test commands that the agent's output names.
    pub fn extract_commands_from_output(output: &str) -> (c: ProjectCommands)
        ensures
            opt_text(c.setup) == command_found(setup_pattern_texts(), output@),
            opt_text(c.run) == command_found(run_pattern_texts(), output@),
            opt_text(c.test) == command_found(test_pattern_texts(), output@),
    {
        let setup = first_command(
            &vec![
                "(?i)setup[:\\s]+([^\\n]+)",
                "(?i)install[:\\s]+([^\\n]+)",
                "(?i)npm install",
                "(?i)cargo install",
                "(?i)pip install",
                "(?i)go mod download",
            ],
            Ghost(setup_pattern_texts()),
            output,
        );
        let run = first_command(
            &vec![
                "(?i)run[:\\s]+([^\\n]+)",
                "(?i)start[:\\s]+([^\\n]+)",
                "(?i)npm start",
                "(?i)cargo run",
                "(?i)python.*\\.py",
            ],
            Ghost(run_pattern_texts()),
            output,
        );
        let test = first_command(
            &vec!["(?i)test[:\\s]+([^\\n]+)", "(?i)npm test", "(?i)cargo test", "(?i)pytest"],
            Ghost(test_pattern_texts()),
            output,
        );
        ProjectCommands { setup, run, test }
    }

    /// The response for a project that the agent scaffolded at `path`, given
    /// the agent's output.
    pub fn scaffold_response(request: &ProjectRequest, path: &str, output: &str) -> (r: ProjectResponse)
        ensures
            r.success,
            opt_text(r.path) == Some(path@),
            r.commands matches Some(c) && opt_text(c.setup) == command_found(
                setup_pattern_texts(),
                output@,
            ) && opt_text(c.run) == command_found(run_pattern_texts(), output@) && opt_text(c.test)
                == command_found(test_pattern_texts(), output@),
            r.message@ == created_message(
                request.name@,
                path@,
                request.auto_setup,
                command_found(setup_pattern_texts(), output@),
            ),
    {
        let commands = Self::extract_commands_from_output(output);
        let mut message = String::from_str("Created project '");
        message.append(request.name.as_str());
        message.append("' at ");
        message.append(path);
        if request.auto_setup {
            message.append(". You can run setup with: ");
            match &commands.setup {
                Some(s) => message.append(s.as_str()),
                None => message.append("cargo build"),
            }
        }
        ProjectResponse {
            success: true,
            path: Some(String::from_str(path)),
            message,
            commands: Some(commands),
        }
    }

    /// The response when the workspace could not be created.
    pub fn workspace_failure_response(error: &str) -> (r: ProjectResponse)
        ensures
            !r.success,
            r.path is None,
            r.commands is None,
            r.message@ == "Failed to create workspace: "@ + error@,
    {
        let mut message = String::from_str("Failed to create workspace: ");
        message.append(error);
        ProjectResponse { success: false, path: None, message, commands: None }
    }

    /// The recorded command of a kind ("setup", "run" or "test"), or the error
    /// that there is none. `metadata` is what the workspace records, if anything.
    pub fn resolve_project_command(
        &self,
        metadata: Option<ProjectCommands>,
        command_type: &str,
    ) -> (r: Result<String, MentalOSError>)
        ensures
            match picked(metadata, command_type@) {
                Some(c) => (r matches Ok(s) && s@ == c),
                None => (r matches Err(MentalOSError::Other(m)) && m@ == "No "@ + command_type@
                    + " command found"@),
            },
    {
        match Self::pick_project_command(metadata, command_type) {
            Some(c) => Ok(c),
            None => {
                let mut m = String::from_str("No ");
                m.append(command_type);
                m.append(" command found");
                Err(MentalOSError::Other(m))
            },
        }
    }

    /// The recorded command of a kind.
    pub fn pick_project_command(metadata: Option<ProjectCommands>, command_type: &str) -> (r: Option<
        String,
    >)
        ensures
            opt_text(r) == picked(metadata, command_type@),
    {
        match metadata {
            None => None,
            Some(m) => {
                if str_eq(command_type, "setup") {
                    m.setup
                } else if str_eq(command_type, "run") {
                    m.run
                } else if str_eq(command_type, "test") {
                    m.test
                } else {
                    None
                }
            },
        }
    }
}

/// The command that the first pattern with a matching group 1 finds.
fn first_command(pats: &Vec<&'static str>, Ghost(texts): Ghost<Seq<Seq<char>>>, output: &str) -> (r: Option<String>)
    requires
        pats@.len() == texts.len(),
        forall|i: int| 0 <= i < pats@.len() ==> (#[trigger] pats@[i])@ == texts[i],
    ensures
        opt_text(r) == command_found(texts, output@),
{
    let mut k: usize = 0;
    proof {
        assert(texts.subrange(0, texts.len() as int) =~= texts);
    }
    while k < pats.len()
        invariant
            k <= pats.len(),
            pats@.len() == texts.len(),
            forall|i: int| 0 <= i < pats@.len() ==> (#[trigger] pats@[i])@ == texts[i],
            command_found(texts, output@) == command_found(texts.subrange(k as int, texts.len() as int), output@),
        decreases pats.len() - k,
    {
        let ghost rest = texts.subrange(k as int, texts.len() as int);
        proof {
            assert(rest[0] == texts[k as int]);
            assert(rest.drop_first() =~= texts.subrange(k + 1, texts.len() as int));
        }
        match captures_of(pats[k], output) {
            None => {},
            Some(c) => {
                match group_at(&c, 1) {
                    Some(m) => {
                        return Some(trim_str(m.as_str()));
                    },
                    None => {},
                }
            },
        }
        k += 1;
    }
    None
}

} // verus!
