//! The workspace layout: the `.boab/` directory under a root, the files in
//! it, and the decisions of opening and initialising one.

use vstd::prelude::*;
use vstd::string::*;
use crate::text::{chars_of, ends_with, ends_with_str, push_chars, push_str, string_of};

verus! {

broadcast use vstd::string::group_string_axioms;

pub const WORKSPACE_DIR: &'static str = ".boab";

pub const CONFIG_FILE: &'static str = "config.toml";

pub const SYSTEMS_FILE: &'static str = "systems.json";

pub const INVENTORY_FILE: &'static str = "inventory.json";

pub const SCANS_DIR: &'static str = "scans";

pub const PLANS_DIR: &'static str = "plans";

pub const REPORTS_DIR: &'static str = "reports";

pub const VENDOR_OVERRIDES_FILE: &'static str = "vendor-overrides.json";

pub const DEFAULT_CONFIG: &'static str = "# Boab configuration\n\nschema_version = 1\n\n[scanner]\ndefault_rate_limit = \"1/second\"\ntls_timeout_seconds = 10\nair_gapped = true\n\n[reporting]\ndefault_format = \"md\"\n";

/// `name` under directory `dir`: joined with one `/`, unless `dir` already
/// ends with one.
pub open spec fn join(dir: Seq<char>, name: Seq<char>) -> Seq<char> {
    if ends_with(dir, "/"@) {
        dir + name
    } else {
        dir + "/"@ + name
    }
}

/// `name` under directory `dir`.
pub fn join_path(dir: &str, name: &str) -> (r: String)
    ensures
        r@ == join(dir@, name@),
{
    let d = chars_of(dir);
    let mut v: Vec<char> = Vec::new();
    push_chars(&mut v, d.as_slice());
    if !ends_with_str(d.as_slice(), "/") {
        push_str(&mut v, "/");
    }
    push_str(&mut v, name);
    string_of(v.as_slice())
}

/// An initialised workspace, by the resolved path of its root.
#[derive(Debug)]
pub struct Workspace {
    root: String,
}

/// Why a workspace could not be opened or initialised.
#[derive(Debug)]
pub enum WorkspaceError {
    /// The `.boab` directory does not exist.
    NotInitialised { dir: String },
    /// The `.boab` path exists but is not a directory.
    NotADirectory { dir: String },
    /// The `.boab` directory has no configuration file.
    MissingConfig { dir: String },
    /// Initialisation found a `.boab` directory without a configuration file.
    Malformed { dir: String },
}

/// What the file system shows at a path.
#[derive(Debug, Clone, Copy, PartialEq, Eq, Structural)]
pub enum PathKind {
    Missing,
    Directory,
    Other,
}

/// The message of a workspace error, as the command line prints it.
pub open spec fn workspace_error_message(e: WorkspaceError) -> Seq<char> {
    match e {
        WorkspaceError::NotInitialised { dir } => "workspace not initialised: "@ + dir@
            + " is missing. Run `boab init` first."@,
        WorkspaceError::NotADirectory { dir } => dir@ + " exists but is not a directory"@,
        WorkspaceError::MissingConfig { dir } => "workspace at "@ + dir@ + " is malformed: missing "@
            + "config.toml"@,
        WorkspaceError::Malformed { dir } => dir@ + " exists but is malformed (no "@ + "config.toml"@
            + "). Use `boab init --force --yes` to recreate."@,
    }
}

impl WorkspaceError {
    /// The error's message.
    pub fn message(&self) -> (r: String)
        ensures
            r@ == workspace_error_message(*self),
    {
        let mut v: Vec<char> = Vec::new();
        match self {
            WorkspaceError::NotInitialised { dir } => {
                push_str(&mut v, "workspace not initialised: ");
                push_str(&mut v, dir.as_str());
                push_str(&mut v, " is missing. Run `boab init` first.");
            },
            WorkspaceError::NotADirectory { dir } => {
                push_str(&mut v, dir.as_str());
                push_str(&mut v, " exists but is not a directory");
            },
            WorkspaceError::MissingConfig { dir } => {
                push_str(&mut v, "workspace at ");
                push_str(&mut v, dir.as_str());
                push_str(&mut v, " is malformed: missing ");
                push_str(&mut v, "config.toml");
            },
            WorkspaceError::Malformed { dir } => {
                push_str(&mut v, dir.as_str());
                push_str(&mut v, " exists but is malformed (no ");
                push_str(&mut v, "config.toml");
                push_str(&mut v, "). Use `boab init --force --yes` to recreate.");
            },
        }
        string_of(v.as_slice())
    }
}

/// The `.boab` directory under a root.
pub open spec fn dir_of(root: Seq<char>) -> Seq<char> {
    join(root, ".boab"@)
}

/// What initialising a workspace has to do.
#[derive(Debug, Clone, Copy, PartialEq, Eq, Structural)]
pub enum InitAction {
    /// The workspace is already initialised: nothing to do.
    AlreadyInitialised,
    /// Create the layout, after removing the existing `.boab` directory
    /// where `remove_existing` is set.
    Create { remove_existing: bool },
}

impl Workspace {
    pub closed spec fn root_spec(&self) -> Seq<char> {
        self.root@
    }

    /// Opens the workspace at the resolved `root`, given what the file system
    /// shows at its `.boab` path and whether the configuration file exists.
    pub fn open(root: String, dir_kind: PathKind, config_exists: bool) -> (r: Result<
        Workspace,
        WorkspaceError,
    >)
        ensures
            match r {
                Ok(ws) => dir_kind == PathKind::Directory && config_exists && ws.root_spec()
                    == root@,
                Err(e) => match e {
                    WorkspaceError::NotInitialised { dir } => dir_kind == PathKind::Missing
                        && dir@ == dir_of(root@),
                    WorkspaceError::NotADirectory { dir } => dir_kind == PathKind::Other && dir@
                        == dir_of(root@),
                    WorkspaceError::MissingConfig { dir } => dir_kind == PathKind::Directory
                        && !config_exists && dir@ == dir_of(root@),
                    WorkspaceError::Malformed { .. } => false,
                },
            },
    {
        let dir = join_path(root.as_str(), WORKSPACE_DIR);
        match dir_kind {
            PathKind::Missing => Err(WorkspaceError::NotInitialised { dir }),
            PathKind::Other => Err(WorkspaceError::NotADirectory { dir }),
            PathKind::Directory => {
                if !config_exists {
                    Err(WorkspaceError::MissingConfig { dir })
                } else {
                    Ok(Workspace { root })
                }
            },
        }
    }

    /// Decides how to initialise a workspace at the resolved `root`, given
    /// whether its `.boab` path and configuration file exist: an existing
    /// workspace is kept unless `force` is set, and an existing `.boab`
    /// without a configuration file is an error unless `force` is set.
    pub fn init(root: String, dir_exists: bool, config_exists: bool, force: bool) -> (r: Result<
        (Workspace, InitAction),
        WorkspaceError,
    >)
        ensures
            match r {
                Ok((ws, action)) => ws.root_spec() == root@ && action == if dir_exists && !force {
                    InitAction::AlreadyInitialised
                } else {
                    InitAction::Create { remove_existing: dir_exists }
                } && (dir_exists && !force ==> config_exists),
                Err(e) => dir_exists && !force && !config_exists && (e matches WorkspaceError::Malformed {
                    dir,
                } && dir@ == dir_of(root@)),
            },
    {
        if dir_exists {
            if force {
                Ok((Workspace { root }, InitAction::Create { remove_existing: true }))
            } else if config_exists {
                Ok((Workspace { root }, InitAction::AlreadyInitialised))
            } else {
                let dir = join_path(root.as_str(), WORKSPACE_DIR);
                Err(WorkspaceError::Malformed { dir })
            }
        } else {
            Ok((Workspace { root }, InitAction::Create { remove_existing: false }))
        }
    }

    /// The directories a new workspace is created with, in creation order.
    pub fn layout_dirs(&self) -> (r: Vec<String>)
        ensures
            r@.len() == 4,
            r@[0]@ == dir_of(self.root_spec()),
            r@[1]@ == join(dir_of(self.root_spec()), "scans"@),
            r@[2]@ == join(dir_of(self.root_spec()), "plans"@),
            r@[3]@ == join(dir_of(self.root_spec()), "reports"@),
    {
        let mut v: Vec<String> = Vec::new();
        v.push(self.dir());
        v.push(self.scans_dir());
        v.push(self.plans_dir());
        v.push(self.reports_dir());
        v
    }

    /// The files a new workspace is created with, and their contents: the
    /// default configuration, no systems, an empty inventory and no vendor
    /// overrides.
    pub fn layout_files(&self) -> (r: Vec<(String, String)>)
        ensures
            r@.len() == 4,
            r@[0].0@ == join(dir_of(self.root_spec()), "config.toml"@) && r@[0].1@
                == DEFAULT_CONFIG@,
            r@[1].0@ == join(dir_of(self.root_spec()), "systems.json"@) && r@[1].1@ == "[]\n"@,
            r@[2].0@ == join(dir_of(self.root_spec()), "inventory.json"@) && r@[2].1@ == "[]\n"@,
            r@[3].0@ == join(dir_of(self.root_spec()), "vendor-overrides.json"@) && r@[3].1@
                == "{\"entries\":[]}\n"@,
    {
        let mut v: Vec<(String, String)> = Vec::new();
        v.push((self.config_path(), String::from_str(DEFAULT_CONFIG)));
        v.push((self.systems_path(), String::from_str("[]\n")));
        v.push((self.inventory_path(), String::from_str("[]\n")));
        v.push((self.vendor_overrides_path(), String::from_str("{\"entries\":[]}\n")));
        v
    }

    /// The workspace root.
    pub fn root(&self) -> (r: &str)
        ensures
            r@ == self.root_spec(),
    {
        self.root.as_str()
    }

    /// The `.boab` directory.
    pub fn dir(&self) -> (r: String)
        ensures
            r@ == dir_of(self.root_spec()),
    {
        join_path(self.root.as_str(), WORKSPACE_DIR)
    }

    /// `.boab/config.toml`.
    pub fn config_path(&self) -> (r: String)
        ensures
            r@ == join(dir_of(self.root_spec()), "config.toml"@),
    {
        join_path(self.dir().as_str(), CONFIG_FILE)
    }

    /// `.boab/systems.json`.
    pub fn systems_path(&self) -> (r: String)
        ensures
            r@ == join(dir_of(self.root_spec()), "systems.json"@),
    {
        join_path(self.dir().as_str(), SYSTEMS_FILE)
    }

    /// `.boab/inventory.json`.
    pub fn inventory_path(&self) -> (r: String)
        ensures
            r@ == join(dir_of(self.root_spec()), "inventory.json"@),
    {
        join_path(self.dir().as_str(), INVENTORY_FILE)
    }

    /// `.boab/scans`.
    pub fn scans_dir(&self) -> (r: String)
        ensures
            r@ == join(dir_of(self.root_spec()), "scans"@),
    {
        join_path(self.dir().as_str(), SCANS_DIR)
    }

    /// `.boab/plans`.
    pub fn plans_dir(&self) -> (r: String)
        ensures
            r@ == join(dir_of(self.root_spec()), "plans"@),
    {
        join_path(self.dir().as_str(), PLANS_DIR)
    }

    /// `.boab/reports`.
    pub fn reports_dir(&self) -> (r: String)
        ensures
            r@ == join(dir_of(self.root_spec()), "reports"@),
    {
        join_path(self.dir().as_str(), REPORTS_DIR)
    }

    /// `.boab/vendor-overrides.json`.
    pub fn vendor_overrides_path(&self) -> (r: String)
        ensures
            r@ == join(dir_of(self.root_spec()), "vendor-overrides.json"@),
    {
        join_path(self.dir().as_str(), VENDOR_OVERRIDES_FILE)
    }
}

} // verus!
