//! Permission modes for what tools may do on the user's machine.
use vstd::prelude::*;

verus! {

/// How requests for a permission are answered.
#[derive(Debug, Clone, Copy, PartialEq, Eq, Structural)]
pub enum PermissionMode {
    /// Everything is allowed.
    Yolo,
    /// What is not granted needs the user's approval.
    Ask,
    /// What is not granted is refused.
    Sandbox,
}

impl Default for PermissionMode {
    fn default() -> (r: Self)
        ensures
            r == PermissionMode::Ask,
    {
        PermissionMode::Ask
    }
}

/// A kind of permission that a tool can need.
#[derive(Debug, Clone, Copy, PartialEq, Eq, Structural)]
pub enum PermissionType {
    FileRead,
    FileWrite,
    ShellExecute,
    NetworkAccess,
}

/// The answer to a permission request.
#[derive(Debug, Clone, Copy, PartialEq, Eq, Structural)]
pub enum PermissionResult {
    Allowed,
    Denied,
    NeedsApproval,
}

/// Which permissions are granted up front.
#[derive(Debug, Clone, Copy)]
pub struct PermissionConfig {
    pub file_read: bool,
    pub file_write: bool,
    pub shell_execute: bool,
    pub network_access: bool,
}

impl Default for PermissionConfig {
    fn default() -> (r: Self)
        ensures
            r.file_read,
            !r.file_write,
            !r.shell_execute,
            r.network_access,
    {
        PermissionConfig {
            file_read: true,
            file_write: false,
            shell_execute: false,
            network_access: true,
        }
    }
}

/// Whether `config` grants `perm` up front.
pub open spec fn granted(config: PermissionConfig, perm: PermissionType) -> bool {
    match perm {
        PermissionType::FileRead => config.file_read,
        PermissionType::FileWrite => config.file_write,
        PermissionType::ShellExecute => config.shell_execute,
        PermissionType::NetworkAccess => config.network_access,
    }
}

/// The answer to a request for `perm` under `mode` and `config`.
pub open spec fn permission_rule(
    mode: PermissionMode,
    config: PermissionConfig,
    perm: PermissionType,
) -> PermissionResult {
    match mode {
        PermissionMode::Yolo => PermissionResult::Allowed,
        PermissionMode::Sandbox => if granted(config, perm) {
            PermissionResult::Allowed
        } else {
            PermissionResult::Denied
        },
        PermissionMode::Ask => if granted(config, perm) {
            PermissionResult::Allowed
        } else {
            PermissionResult::NeedsApproval
        },
    }
}

/// Answers permission requests by a mode and a set of grants.
pub struct PermissionManager {
    mode: PermissionMode,
    config: PermissionConfig,
}

impl PermissionManager {
    /// The mode in force.
    pub closed spec fn spec_mode(&self) -> PermissionMode {
        self.mode
    }

    /// The grants in force.
    pub closed spec fn spec_config(&self) -> PermissionConfig {
        self.config
    }

    pub fn new(mode: PermissionMode, config: PermissionConfig) -> (r: Self)
        ensures
            r.spec_mode() == mode,
            r.spec_config() == config,
    {
        PermissionManager { mode, config }
    }

    /// Answers a request for `perm`.
    pub fn check(&self, perm: PermissionType) -> (r: PermissionResult)
        ensures
            r == permission_rule(self.spec_mode(), self.spec_config(), perm),
    {
        match self.mode {
            PermissionMode::Yolo => PermissionResult::Allowed,
            PermissionMode::Sandbox => {
                if self.is_granted(&perm) {
                    PermissionResult::Allowed
                } else {
                    PermissionResult::Denied
                }
            },
            PermissionMode::Ask => {
                if self.is_granted(&perm) {
                    PermissionResult::Allowed
                } else {
                    PermissionResult::NeedsApproval
                }
            },
        }
    }

    fn is_granted(&self, perm: &PermissionType) -> (r: bool)
        ensures
            r == granted(self.config, *perm),
    {
        match perm {
            PermissionType::FileRead => self.config.file_read,
            PermissionType::FileWrite => self.config.file_write,
            PermissionType::ShellExecute => self.config.shell_execute,
            PermissionType::NetworkAccess => self.config.network_access,
        }
    }

    pub fn mode(&self) -> (r: &PermissionMode)
        ensures
            *r == self.spec_mode(),
    {
        &self.mode
    }

    pub fn set_mode(&mut self, mode: PermissionMode)
        ensures
            final(self).spec_mode() == mode,
            final(self).spec_config() == old(self).spec_config(),
    {
        self.mode = mode;
    }

    pub fn config(&self) -> (r: &PermissionConfig)
        ensures
            *r == self.spec_config(),
    {
        &self.config
    }

    pub fn set_config(&mut self, config: PermissionConfig)
        ensures
            final(self).spec_config() == config,
            final(self).spec_mode() == old(self).spec_mode(),
    {
        self.config = config;
    }
}

/// In yolo mode every request is allowed, whatever is granted.
pub proof fn law_yolo_allows_everything(config: PermissionConfig, perm: PermissionType)
    ensures
        permission_rule(PermissionMode::Yolo, config, perm) == PermissionResult::Allowed,
{
}

/// A granted permission is allowed in every mode.
pub proof fn law_granted_is_allowed(
    mode: PermissionMode,
    config: PermissionConfig,
    perm: PermissionType,
)
    requires
        granted(config, perm),
    ensures
        permission_rule(mode, config, perm) == PermissionResult::Allowed,
{
}

/// The sandbox never asks the user: what is not granted is refused.
pub proof fn law_sandbox_never_asks(config: PermissionConfig, perm: PermissionType)
    ensures
        permission_rule(PermissionMode::Sandbox, config, perm) != PermissionResult::NeedsApproval,
        !granted(config, perm) ==> permission_rule(PermissionMode::Sandbox, config, perm)
            == PermissionResult::Denied,
{
}

/// Ask mode never refuses outright: what is not granted goes to the user.
pub proof fn law_ask_never_denies(config: PermissionConfig, perm: PermissionType)
    ensures
        permission_rule(PermissionMode::Ask, config, perm) != PermissionResult::Denied,
        !granted(config, perm) ==> permission_rule(PermissionMode::Ask, config, perm)
            == PermissionResult::NeedsApproval,
{
}

} // verus!
