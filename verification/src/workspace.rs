//! Where project workspaces live and what a project's metadata records.
use crate::config::{joined_path, path_join};
use crate::error::MentalOSError;
use crate::text::{opt_text, trimmed};
use std::path::PathBuf;
use vstd::prelude::*;

verus! {

/// The commands recorded for a project.
#[derive(Debug, Clone)]
pub struct ProjectCommands {
    pub setup: Option<String>,
    pub run: Option<String>,
    pub test: Option<String>,
}

impl Default for ProjectCommands {
    fn default() -> (c: Self)
        ensures
            c.setup is None,
            c.run is None,
            c.test is None,
    {
        ProjectCommands { setup: None, run: None, test: None }
    }
}

/// Handles the directory under which workspaces are created.
pub struct WorkspaceManager {
    workspace_dir: PathBuf,
}

impl WorkspaceManager {
    pub closed spec fn root(&self) -> PathBuf {
        self.workspace_dir
    }

    pub fn new(workspace_dir: PathBuf) -> (m: Self)
        ensures
            m.root() == workspace_dir,
    {
        WorkspaceManager { workspace_dir }
    }

    /// The directory under which workspaces are created.
    pub fn workspace_root(&self) -> (p: &PathBuf)
        ensures
            *p == self.root(),
    {
        &self.workspace_dir
    }
}


/// What `.mentalOS-project.json` records of a project (`created_at` in
/// milliseconds since the Unix epoch).
#[derive(Debug, Clone)]
pub struct ProjectMetadata {
    pub name: String,
    pub created_by: String,
    pub created_at: i64,
    pub language: Option<String>,
    pub framework: Option<String>,
    pub description: Option<String>,
    pub commands: ProjectCommands,
}

pub struct CommandsView {
    pub setup: Option<Seq<char>>,
    pub run: Option<Seq<char>>,
    pub test: Option<Seq<char>>,
}

impl View for ProjectCommands {
    type V = CommandsView;

    open spec fn view(&self) -> CommandsView {
        CommandsView { setup: opt_text(self.setup), run: opt_text(self.run), test: opt_text(self.test) }
    }
}

pub struct MetadataView {
    pub name: Seq<char>,
    pub created_by: Seq<char>,
    pub created_at: i64,
    pub language: Option<Seq<char>>,
    pub framework: Option<Seq<char>>,
    pub description: Option<Seq<char>>,
    pub commands: CommandsView,
}

impl View for ProjectMetadata {
    type V = MetadataView;

    open spec fn view(&self) -> MetadataView {
        MetadataView {
            name: self.name@,
            created_by: self.created_by@,
            created_at: self.created_at,
            language: opt_text(self.language),
            framework: opt_text(self.framework),
            description: opt_text(self.description),
            commands: self.commands@,
        }
    }
}

impl ProjectMetadata {
    /// The metadata of a project just made by an agent at `now`.
    pub fn fresh(name: &str, created_by: &str, now: i64) -> (m: Self)
        ensures
            m.name@ == name@,
            m.created_by@ == created_by@,
            m.created_at == now,
            m.language is None,
            m.framework is None,
            m.description is None,
            m.commands@ == (CommandsView { setup: None, run: None, test: None }),
    {
        ProjectMetadata {
            name: String::from_str(name),
            created_by: String::from_str(created_by),
            created_at: now,
            language: None,
            framework: None,
            description: None,
            commands: ProjectCommands::default(),
        }
    }
}

/// The metadata file of a workspace.
pub open spec fn metadata_file(workspace: Seq<char>) -> Seq<char> {
    joined_path(workspace, ".mentalOS-project.json"@)
}

pub fn metadata_path(workspace: &str) -> (p: String)
    ensures
        p@ == metadata_file(workspace@),
{
    path_join(workspace, ".mentalOS-project.json")
}

/// A workspace needs a name that is not blank.
pub fn check_workspace_name(name: &str) -> (r: Result<(), MentalOSError>)
    ensures
        trimmed(name@).len() == 0 <==> r is Err,
        r matches Err(e) ==> (e matches MentalOSError::Other(m) && m@ == "Workspace name is empty"@),
{
    let t = crate::text::trim_str(name);
    if t.as_str().is_empty() {
        Err(MentalOSError::Other(String::from_str("Workspace name is empty")))
    } else {
        Ok(())
    }
}

/// The metadata after an update: what the file held (`existing`; `None`
/// when there was no file, which starts one named after the workspace
/// directory at `now`; a file that did not decode starts over unnamed), with
/// the given language, framework and description where they are given, and
/// the given commands.
pub fn updated_metadata(
    existing: Option<Option<ProjectMetadata>>,
    directory_name: &str,
    language: Option<String>,
    framework: Option<String>,
    description: Option<String>,
    commands: ProjectCommands,
    now: i64,
) -> (m: ProjectMetadata)
    ensures
        m.name@ == match existing {
            Some(Some(e)) => e.name@,
            Some(None) => Seq::<char>::empty(),
            None => directory_name@,
        },
        m.created_by@ == match existing {
            Some(Some(e)) => e.created_by@,
            _ => Seq::<char>::empty(),
        },
        m.created_at == match existing {
            Some(Some(e)) => e.created_at,
            _ => now,
        },
        opt_text(m.language) == match language {
            Some(l) => Some(l@),
            None => match existing {
                Some(Some(e)) => opt_text(e.language),
                _ => None,
            },
        },
        opt_text(m.framework) == match framework {
            Some(f) => Some(f@),
            None => match existing {
                Some(Some(e)) => opt_text(e.framework),
                _ => None,
            },
        },
        opt_text(m.description) == match description {
            Some(d) => Some(d@),
            None => match existing {
                Some(Some(e)) => opt_text(e.description),
                _ => None,
            },
        },
        m.commands@ == commands@,
{
    let mut m = match existing {
        Some(Some(e)) => e,
        Some(None) => ProjectMetadata::fresh("", "", now),
        None => ProjectMetadata::fresh(directory_name, "", now),
    };
    proof {
        reveal_strlit("");
    }
    if language.is_some() {
        m.language = language;
    }
    if framework.is_some() {
        m.framework = framework;
    }
    if description.is_some() {
        m.description = description;
    }
    m.commands = commands;
    m
}

} // verus!
