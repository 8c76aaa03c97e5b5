//! Application and workspace settings, and the permission mode that a
//! workspace puts in force.
use vstd::prelude::*;
use crate::access::{AgentToolContext, ContextModel};
use crate::fspath::{FsPath, PathModel, parse_path, path_join};
use crate::permissions::{
    PermissionConfig, PermissionManager, PermissionMode, PermissionResult, PermissionType,
    permission_rule,
};
use crate::text::owned;

verus! {

/// The application's own settings.
#[derive(Debug, Clone)]
pub struct AppConfig {
    pub language: String,
    pub theme: String,
}

impl Default for AppConfig {
    /// English, dark theme.
    fn default() -> (r: AppConfig)
        ensures
            r.language@ == "en"@,
            r.theme@ == "dark"@,
    {
        AppConfig { language: owned("en"), theme: owned("dark") }
    }
}

/// The settings of a workspace directory.
#[derive(Debug, Clone)]
pub struct WorkspaceConfig {
    pub name: String,
    pub default_provider: Option<String>,
    pub default_model: Option<String>,
    pub system_prompt: Option<String>,
    pub permission_mode: PermissionMode,
    pub permissions: PermissionConfig,
}

/// `c` holds the default settings: an untitled workspace in ask mode with
/// the default grants and nothing else chosen.
pub open spec fn is_default_config(c: WorkspaceConfig) -> bool {
    &&& c.name@ == "Untitled"@
    &&& c.default_provider is None
    &&& c.default_model is None
    &&& c.system_prompt is None
    &&& c.permission_mode == PermissionMode::Ask
    &&& c.permissions.file_read && !c.permissions.file_write && !c.permissions.shell_execute
        && c.permissions.network_access
}

impl Default for WorkspaceConfig {
    /// An untitled workspace in ask mode with the default grants.
    fn default() -> (r: WorkspaceConfig)
        ensures
            is_default_config(r),
    {
        WorkspaceConfig {
            name: owned("Untitled"),
            default_provider: None,
            default_model: None,
            system_prompt: None,
            permission_mode: PermissionMode::Ask,
            permissions: PermissionConfig::default(),
        }
    }
}

/// The directory in a workspace where its settings are kept.
pub open spec fn vida_dir(workspace: PathModel) -> PathModel {
    path_join(workspace, parse_path(".vida"@))
}

/// The file in a workspace where its settings are kept.
pub open spec fn config_file(workspace: PathModel) -> PathModel {
    path_join(vida_dir(workspace), parse_path("config.json"@))
}

/// The directory in a workspace where its settings are kept.
pub fn workspace_vida_dir(workspace: &str) -> (r: FsPath)
    ensures
        r@ == vida_dir(parse_path(workspace@)),
{
    FsPath::parse(workspace).join(&FsPath::parse(".vida"))
}

/// The file in a workspace where its settings are kept.
pub fn workspace_config_file(workspace: &str) -> (r: FsPath)
    ensures
        r@ == config_file(parse_path(workspace@)),
{
    workspace_vida_dir(workspace).join(&FsPath::parse("config.json"))
}

/// Where an agent working for `scope` may write: a sandbox for that scope
/// inside the workspace, or under the temporary directory when none is open.
pub open spec fn sandbox_for(workspace: Option<Seq<char>>, temp_dir: Seq<char>, scope: Seq<char>) -> PathModel {
    match workspace {
        Some(w) => path_join(
            path_join(path_join(parse_path(w), parse_path(".vida"@)), parse_path("sandboxes"@)),
            parse_path(scope),
        ),
        None => path_join(
            path_join(path_join(parse_path(temp_dir), parse_path("vida-ai"@)), parse_path("sandboxes"@)),
            parse_path(scope),
        ),
    }
}

/// The working area of an agent working for `scope`: the open workspace, if
/// any, and the scope's sandbox.
pub fn agent_tool_context(workspace: Option<&str>, temp_dir: &str, scope: &str) -> (r: AgentToolContext)
    ensures
        r@ == (ContextModel {
            workspace_root: match workspace {
                Some(w) => Some(parse_path(w@)),
                None => None,
            },
            sandbox_root: sandbox_for(
                match workspace {
                    Some(w) => Some(w@),
                    None => None,
                },
                temp_dir@,
                scope@,
            ),
        }),
{
    let sandbox_root = match workspace {
        Some(w) => FsPath::parse(w).join(&FsPath::parse(".vida")).join(&FsPath::parse("sandboxes")).join(
            &FsPath::parse(scope),
        ),
        None => FsPath::parse(temp_dir).join(&FsPath::parse("vida-ai")).join(
            &FsPath::parse("sandboxes"),
        ).join(&FsPath::parse(scope)),
    };
    let workspace_root = match workspace {
        Some(w) => Some(FsPath::parse(w)),
        None => None,
    };
    AgentToolContext { workspace_root, sandbox_root }
}

/// The open workspace, its settings, and the permissions they put in force.
pub struct WorkspaceState {
    path: Option<String>,
    config: WorkspaceConfig,
    permissions: PermissionManager,
}

impl WorkspaceState {
    /// The open workspace's directory, if one is open.
    pub closed spec fn open_path(&self) -> Option<Seq<char>> {
        match self.path {
            Some(p) => Some(p@),
            None => None,
        }
    }

    /// The settings in force.
    pub closed spec fn settings(&self) -> WorkspaceConfig {
        self.config
    }

    /// The permission mode in force.
    pub closed spec fn mode(&self) -> PermissionMode {
        self.permissions.spec_mode()
    }

    /// The grants in force.
    pub closed spec fn grants(&self) -> PermissionConfig {
        self.permissions.spec_config()
    }

    /// The mode and grants in force are those of the settings.
    pub closed spec fn consistent(&self) -> bool {
        self.mode() == self.config.permission_mode && self.grants() == self.config.permissions
    }

    /// No workspace open, the default settings in force.
    pub fn new() -> (r: WorkspaceState)
        ensures
            r.open_path() is None,
            r.consistent(),
            is_default_config(r.settings()),
            r.mode() == PermissionMode::Ask,
    {
        let config = WorkspaceConfig::default();
        let permissions = PermissionManager::new(config.permission_mode, config.permissions);
        WorkspaceState { path: None, config, permissions }
    }

    /// Opens the workspace at `path` with its settings `config`.
    pub fn open(&mut self, path: &str, config: WorkspaceConfig)
        ensures
            final(self).open_path() == Some(path@),
            final(self).settings() == config,
            final(self).consistent(),
            final(self).mode() == config.permission_mode,
            final(self).grants() == config.permissions,
    {
        self.permissions = PermissionManager::new(config.permission_mode, config.permissions);
        self.config = config;
        self.path = Some(owned(path));
    }

    /// Puts new settings in force; says whether they are to be saved into the
    /// open workspace.
    pub fn set_config(&mut self, config: WorkspaceConfig) -> (save: bool)
        ensures
            final(self).open_path() == old(self).open_path(),
            final(self).settings() == config,
            final(self).consistent(),
            final(self).mode() == config.permission_mode,
            final(self).grants() == config.permissions,
            save == old(self).open_path() is Some,
    {
        self.permissions = PermissionManager::new(config.permission_mode, config.permissions);
        self.config = config;
        self.path.is_some()
    }

    /// Puts a permission mode in force and records it in the settings; says
    /// whether the settings are to be saved into the open workspace.
    pub fn set_permission_mode(&mut self, mode: PermissionMode) -> (save: bool)
        requires
            old(self).consistent(),
        ensures
            final(self).open_path() == old(self).open_path(),
            final(self).consistent(),
            final(self).mode() == mode,
            final(self).grants() == old(self).grants(),
            final(self).settings().permission_mode == mode,
            save == old(self).open_path() is Some,
    {
        self.permissions.set_mode(mode);
        self.config.permission_mode = mode;
        self.path.is_some()
    }

    /// The permission mode in force.
    pub fn permission_mode(&self) -> (r: PermissionMode)
        ensures
            r == self.mode(),
    {
        *self.permissions.mode()
    }

    /// The settings in force.
    pub fn config(&self) -> (r: &WorkspaceConfig)
        ensures
            *r == self.settings(),
    {
        &self.config
    }

    /// Answers a request for a permission.
    pub fn check_permission(&self, perm: PermissionType) -> (r: PermissionResult)
        ensures
            r == permission_rule(self.mode(), self.grants(), perm),
    {
        self.permissions.check(perm)
    }
}

} // verus!
