//! Role-based access decisions, and the checks applied to tool calls that an
//! agent makes.
use vstd::prelude::*;
use crate::fspath::{
    FsPath, PathModel, path_starts_with, path_join, parse_path, file_name, extension,
    display_path,
};
use crate::json::{JsonValue, Json, lemma_array_view, lemma_object_view};
use crate::text::{has_infix, lower_seq, chars_of, lower_chars, contains_chars, owned, append_str, push_chars, chars_eq};

verus! {

/// Who performs an action.
#[derive(Debug, Clone, Copy, PartialEq, Eq, Structural)]
pub enum ActorRole {
    SuperAdmin,
    Architect,
    Operator,
    Agent,
}

/// What is done to a resource.
#[derive(Debug, Clone, Copy, PartialEq, Eq, Structural)]
pub enum AccessAction {
    Read,
    Create,
    Modify,
    Delete,
    Execute,
}

/// What an action touches.
#[derive(Debug, Clone, Copy, PartialEq, Eq, Structural)]
pub enum AccessResource {
    SystemFiles,
    ProjectFiles,
    TeamConfig,
    IaConfig,
    CriticalCode,
    LogsAudit,
    ShellEscalation,
}

/// The outcome of an access check.
#[derive(Debug, Clone, PartialEq, Eq, Structural)]
pub enum AccessDecision {
    Allow,
    Deny,
    RequireHumanApproval,
}

/// One access to decide on.
#[derive(Debug, Clone, Copy)]
pub struct AccessRequest {
    pub actor: ActorRole,
    pub action: AccessAction,
    pub resource: AccessResource,
}

/// Where an agent may work: the open workspace, if any, and its sandbox.
pub struct AgentToolContext {
    pub workspace_root: Option<FsPath>,
    pub sandbox_root: FsPath,
}

/// The model of an agent's working area.
pub struct ContextModel {
    pub workspace_root: Option<PathModel>,
    pub sandbox_root: PathModel,
}

impl View for AgentToolContext {
    type V = ContextModel;

    open spec fn view(&self) -> ContextModel {
        ContextModel {
            workspace_root: match self.workspace_root {
                Some(p) => Some(p@),
                None => None,
            },
            sandbox_root: self.sandbox_root@,
        }
    }
}

/// The access policy, role by role.
pub open spec fn access_rule(
    actor: ActorRole,
    action: AccessAction,
    resource: AccessResource,
) -> AccessDecision {
    match actor {
        ActorRole::SuperAdmin => if resource == AccessResource::TeamConfig && (action
            == AccessAction::Create || action == AccessAction::Modify || action
            == AccessAction::Delete) {
            AccessDecision::RequireHumanApproval
        } else if resource == AccessResource::CriticalCode && (action == AccessAction::Modify
            || action == AccessAction::Delete) {
            AccessDecision::RequireHumanApproval
        } else {
            AccessDecision::Allow
        },
        ActorRole::Architect => if resource == AccessResource::SystemFiles && action
            == AccessAction::Read {
            AccessDecision::Allow
        } else if resource == AccessResource::ProjectFiles {
            AccessDecision::Allow
        } else if resource == AccessResource::IaConfig && action == AccessAction::Modify {
            AccessDecision::Allow
        } else if resource == AccessResource::TeamConfig && (action == AccessAction::Create
            || action == AccessAction::Modify || action == AccessAction::Delete) {
            AccessDecision::RequireHumanApproval
        } else if resource == AccessResource::CriticalCode && (action == AccessAction::Modify
            || action == AccessAction::Delete) {
            AccessDecision::RequireHumanApproval
        } else if resource == AccessResource::ShellEscalation && action == AccessAction::Execute {
            AccessDecision::RequireHumanApproval
        } else {
            AccessDecision::Deny
        },
        ActorRole::Operator => if resource == AccessResource::ProjectFiles && (action
            == AccessAction::Read || action == AccessAction::Create) {
            AccessDecision::Allow
        } else if resource == AccessResource::ShellEscalation && action == AccessAction::Execute {
            AccessDecision::RequireHumanApproval
        } else {
            AccessDecision::Deny
        },
        ActorRole::Agent => if resource == AccessResource::ProjectFiles && action
            != AccessAction::Execute {
            AccessDecision::Allow
        } else {
            AccessDecision::Deny
        },
    }
}

/// Decides an access request.
pub fn evaluate_access(request: &AccessRequest) -> (r: AccessDecision)
    ensures
        r == access_rule(request.actor, request.action, request.resource),
{
    let resource = request.resource;
    let action = request.action;
    match request.actor {
        ActorRole::SuperAdmin => {
            if resource == AccessResource::TeamConfig && (action == AccessAction::Create || action
                == AccessAction::Modify || action == AccessAction::Delete) {
                AccessDecision::RequireHumanApproval
            } else if resource == AccessResource::CriticalCode && (action == AccessAction::Modify
                || action == AccessAction::Delete) {
                AccessDecision::RequireHumanApproval
            } else {
                AccessDecision::Allow
            }
        },
        ActorRole::Architect => {
            if resource == AccessResource::SystemFiles && action == AccessAction::Read {
                AccessDecision::Allow
            } else if resource == AccessResource::ProjectFiles {
                AccessDecision::Allow
            } else if resource == AccessResource::IaConfig && action == AccessAction::Modify {
                AccessDecision::Allow
            } else if resource == AccessResource::TeamConfig && (action == AccessAction::Create
                || action == AccessAction::Modify || action == AccessAction::Delete) {
                AccessDecision::RequireHumanApproval
            } else if resource == AccessResource::CriticalCode && (action == AccessAction::Modify
                || action == AccessAction::Delete) {
                AccessDecision::RequireHumanApproval
            } else if resource == AccessResource::ShellEscalation && action
                == AccessAction::Execute {
                AccessDecision::RequireHumanApproval
            } else {
                AccessDecision::Deny
            }
        },
        ActorRole::Operator => {
            if resource == AccessResource::ProjectFiles && (action == AccessAction::Read || action
                == AccessAction::Create) {
                AccessDecision::Allow
            } else if resource == AccessResource::ShellEscalation && action
                == AccessAction::Execute {
                AccessDecision::RequireHumanApproval
            } else {
                AccessDecision::Deny
            }
        },
        ActorRole::Agent => {
            if resource == AccessResource::ProjectFiles && action != AccessAction::Execute {
                AccessDecision::Allow
            } else {
                AccessDecision::Deny
            }
        },
    }
}

/// An agent is allowed exactly the non-executing actions on project files.
pub proof fn law_agent_confined_to_project_files(action: AccessAction, resource: AccessResource)
    ensures
        (access_rule(ActorRole::Agent, action, resource) == AccessDecision::Allow) <==> (resource
            == AccessResource::ProjectFiles && action != AccessAction::Execute),
{
}

/// Whatever a lower role may do without approval, the roles above it may do too:
/// operator below architect below super admin, and agent below architect.
pub proof fn law_allowance_is_inherited(action: AccessAction, resource: AccessResource)
    ensures
        access_rule(ActorRole::Operator, action, resource) == AccessDecision::Allow
            ==> access_rule(ActorRole::Architect, action, resource) == AccessDecision::Allow,
        access_rule(ActorRole::Agent, action, resource) == AccessDecision::Allow
            ==> access_rule(ActorRole::Architect, action, resource) == AccessDecision::Allow,
        access_rule(ActorRole::Architect, action, resource) == AccessDecision::Allow
            ==> access_rule(ActorRole::SuperAdmin, action, resource) == AccessDecision::Allow,
{
}

/// No role may change team configuration or modify or delete critical code
/// without a human approving it.
pub proof fn law_sensitive_changes_never_silently_allowed(actor: ActorRole, action: AccessAction)
    ensures
        (action == AccessAction::Create || action == AccessAction::Modify || action
            == AccessAction::Delete) ==> access_rule(actor, action, AccessResource::TeamConfig)
            != AccessDecision::Allow,
        (action == AccessAction::Modify || action == AccessAction::Delete) ==> access_rule(
            actor,
            action,
            AccessResource::CriticalCode,
        ) != AccessDecision::Allow,
{
}

/// Only a super admin may run a shell escalation without a human approving it.
pub proof fn law_shell_escalation_needs_super_admin(actor: ActorRole)
    ensures
        access_rule(actor, AccessAction::Execute, AccessResource::ShellEscalation)
            == AccessDecision::Allow <==> actor == ActorRole::SuperAdmin,
{
}

/// An operator may read and create project files, may run a shell
/// escalation only with a human's approval, and may do nothing else.
pub proof fn law_operator_access(action: AccessAction, resource: AccessResource)
    ensures
        (access_rule(ActorRole::Operator, action, resource) == AccessDecision::Allow) <==> (resource
            == AccessResource::ProjectFiles && (action == AccessAction::Read || action
            == AccessAction::Create)),
        (access_rule(ActorRole::Operator, action, resource) == AccessDecision::RequireHumanApproval)
            <==> (resource == AccessResource::ShellEscalation && action == AccessAction::Execute),
{
}

/// An architect may do anything to project files, read system files and
/// modify AI settings; changing team settings, modifying or deleting critical
/// code and running a shell escalation take a human's approval; everything
/// else is refused.
pub proof fn law_architect_access(action: AccessAction, resource: AccessResource)
    ensures
        (access_rule(ActorRole::Architect, action, resource) == AccessDecision::Allow) <==> (
        resource == AccessResource::ProjectFiles || (resource == AccessResource::SystemFiles
            && action == AccessAction::Read) || (resource == AccessResource::IaConfig && action
            == AccessAction::Modify)),
        (access_rule(ActorRole::Architect, action, resource) == AccessDecision::RequireHumanApproval)
            <==> ((resource == AccessResource::TeamConfig && action != AccessAction::Read && action
            != AccessAction::Execute) || (resource == AccessResource::CriticalCode && (action
            == AccessAction::Modify || action == AccessAction::Delete)) || (resource
            == AccessResource::ShellEscalation && action == AccessAction::Execute)),
{
}

/// A super admin is never refused: changing team settings and modifying or
/// deleting critical code take a human's approval, anything else is allowed.
pub proof fn law_super_admin_access(action: AccessAction, resource: AccessResource)
    ensures
        access_rule(ActorRole::SuperAdmin, action, resource) != AccessDecision::Deny,
        (access_rule(ActorRole::SuperAdmin, action, resource) == AccessDecision::RequireHumanApproval)
            <==> ((resource == AccessResource::TeamConfig && action != AccessAction::Read && action
            != AccessAction::Execute) || (resource == AccessResource::CriticalCode && (action
            == AccessAction::Modify || action == AccessAction::Delete))),
{
}

/// An agent never waits for a human: what it may not do is refused.
pub proof fn law_agent_never_asks(action: AccessAction, resource: AccessResource)
    ensures
        access_rule(ActorRole::Agent, action, resource) != AccessDecision::RequireHumanApproval,
{
}

// ── Tool actions ──
/// Some needle of the list occurs in `hay`.
pub open spec fn mentions_execute(lower: Seq<char>) -> bool {
    has_infix(lower, "bash"@) || has_infix(lower, "shell"@) || has_infix(lower, "exec"@)
        || has_infix(lower, "execute"@) || has_infix(lower, "command"@) || has_infix(lower, "run"@)
}

pub open spec fn mentions_delete(lower: Seq<char>) -> bool {
    has_infix(lower, "delete"@) || has_infix(lower, "remove"@)
}

pub open spec fn mentions_create(lower: Seq<char>) -> bool {
    has_infix(lower, "create"@) || has_infix(lower, "new"@) || has_infix(lower, "save"@)
        || has_infix(lower, "write"@)
}

pub open spec fn mentions_modify(lower: Seq<char>) -> bool {
    has_infix(lower, "edit"@) || has_infix(lower, "modify"@) || has_infix(lower, "update"@)
        || has_infix(lower, "rename"@) || has_infix(lower, "move"@)
}

/// The action that a tool's name suggests, by the words it contains (ASCII
/// case ignored), checked in this order: execute, delete, create, modify; else read.
pub open spec fn tool_action(name: Seq<char>) -> AccessAction {
    let lower = lower_seq(name);
    if mentions_execute(lower) {
        AccessAction::Execute
    } else if mentions_delete(lower) {
        AccessAction::Delete
    } else if mentions_create(lower) {
        AccessAction::Create
    } else if mentions_modify(lower) {
        AccessAction::Modify
    } else {
        AccessAction::Read
    }
}

/// A tool whose name, in ASCII lower case, holds `bash`, `shell`, `exec`,
/// `command` or `run` executes.
pub proof fn law_execute_words(name: Seq<char>)
    ensures
        (tool_action(name) == AccessAction::Execute) <==> (has_infix(lower_seq(name), "bash"@)
            || has_infix(lower_seq(name), "shell"@) || has_infix(lower_seq(name), "exec"@)
            || has_infix(lower_seq(name), "command"@) || has_infix(lower_seq(name), "run"@)),
{
    lemma_execute_contains_exec(lower_seq(name));
}

/// A tool that does not execute, and whose name holds `delete` or `remove`,
/// deletes.
pub proof fn law_delete_words(name: Seq<char>)
    requires
        tool_action(name) != AccessAction::Execute,
    ensures
        (tool_action(name) == AccessAction::Delete) <==> (has_infix(lower_seq(name), "delete"@)
            || has_infix(lower_seq(name), "remove"@)),
{
}

/// A tool that neither executes nor deletes, and whose name holds `create`,
/// `new`, `save` or `write`, creates.
pub proof fn law_create_words(name: Seq<char>)
    requires
        tool_action(name) != AccessAction::Execute,
        tool_action(name) != AccessAction::Delete,
    ensures
        (tool_action(name) == AccessAction::Create) <==> (has_infix(lower_seq(name), "create"@)
            || has_infix(lower_seq(name), "new"@) || has_infix(lower_seq(name), "save"@)
            || has_infix(lower_seq(name), "write"@)),
{
}

/// A tool that neither executes, deletes nor creates modifies when its name
/// holds `edit`, `modify`, `update`, `rename` or `move`, and reads otherwise.
pub proof fn law_modify_words(name: Seq<char>)
    requires
        tool_action(name) != AccessAction::Execute,
        tool_action(name) != AccessAction::Delete,
        tool_action(name) != AccessAction::Create,
    ensures
        (tool_action(name) == AccessAction::Modify) <==> (has_infix(lower_seq(name), "edit"@)
            || has_infix(lower_seq(name), "modify"@) || has_infix(lower_seq(name), "update"@)
            || has_infix(lower_seq(name), "rename"@) || has_infix(lower_seq(name), "move"@)),
        (tool_action(name) == AccessAction::Read) <==> !(has_infix(lower_seq(name), "edit"@)
            || has_infix(lower_seq(name), "modify"@) || has_infix(lower_seq(name), "update"@)
            || has_infix(lower_seq(name), "rename"@) || has_infix(lower_seq(name), "move"@)),
{
}

/// A text that holds `execute` holds `exec`.
proof fn lemma_execute_contains_exec(s: Seq<char>)
    ensures
        has_infix(s, "execute"@) ==> has_infix(s, "exec"@),
{
    if has_infix(s, "execute"@) {
        let i = choose|i: int| crate::text::occurs_at(s, "execute"@, i);
        reveal_strlit("execute");
        reveal_strlit("exec");
        assert(s.subrange(i, i + 4) =~= s.subrange(i, i + 7).subrange(0, 4));
        assert(s.subrange(i, i + 4) =~= "exec"@);
        assert(crate::text::occurs_at(s, "exec"@, i));
    }
}

/// Whether `needle` occurs in `hay`.
pub fn has_word(hay: &[char], needle: &str) -> (r: bool)
    ensures
        r == has_infix(hay@, needle@),
{
    let n = chars_of(needle);
    contains_chars(hay, &n)
}

/// The action that a tool's name suggests.
pub fn infer_tool_action(tool_name: &str) -> (r: AccessAction)
    ensures
        r == tool_action(tool_name@),
{
    let lower = lower_chars(&chars_of(tool_name));
    if has_word(&lower, "bash") || has_word(&lower, "shell") || has_word(&lower, "exec")
        || has_word(&lower, "execute") || has_word(&lower, "command") || has_word(&lower, "run") {
        AccessAction::Execute
    } else if has_word(&lower, "delete") || has_word(&lower, "remove") {
        AccessAction::Delete
    } else if has_word(&lower, "create") || has_word(&lower, "new") || has_word(&lower, "save")
        || has_word(&lower, "write") {
        AccessAction::Create
    } else if has_word(&lower, "edit") || has_word(&lower, "modify") || has_word(&lower, "update")
        || has_word(&lower, "rename") || has_word(&lower, "move") {
        AccessAction::Modify
    } else {
        AccessAction::Read
    }
}

// ── Path classification ──
/// File names that mark critical code (compared in ASCII lower case).
pub open spec fn critical_file(lower_name: Seq<char>) -> bool {
    lower_name == "cargo.toml"@ || lower_name == "cargo.lock"@ || lower_name == "package.json"@
        || lower_name == "pnpm-lock.yaml"@ || lower_name == "package-lock.json"@ || lower_name
        == "tauri.conf.json"@ || lower_name == "vite.config.ts"@ || lower_name == "vite.config.js"@
        || lower_name == "install-lxc.sh"@
}

/// Extensions that mark critical code (compared as written).
pub open spec fn critical_extension(ext: Seq<char>) -> bool {
    ext == "rs"@ || ext == "ts"@ || ext == "tsx"@ || ext == "js"@ || ext == "jsx"@ || ext == "py"@
        || ext == "go"@ || ext == "java"@ || ext == "c"@ || ext == "cpp"@ || ext == "h"@ || ext
        == "hpp"@ || ext == "toml"@ || ext == "yaml"@ || ext == "yml"@ || ext == "json"@ || ext
        == "sql"@ || ext == "sh"@
}

/// Directory names that mark critical code (compared as written).
pub open spec fn critical_dir(c: Seq<char>) -> bool {
    c == "src"@ || c == "src-tauri"@ || c == "crates"@ || c == "scripts"@
}

/// A path that holds source code, build files or scripts.
pub open spec fn is_critical_path(p: PathModel) -> bool {
    ||| (file_name(p) matches Some(n) && critical_file(lower_seq(n)))
    ||| (exists|i: int| 0 <= i < p.components.len() && critical_dir(p.components[i]))
    ||| (extension(p) matches Some(e) && critical_extension(e))
}

/// A path with a component that mentions logs or audit (ASCII case ignored).
pub open spec fn is_log_path(p: PathModel) -> bool {
    exists|i: int|
        0 <= i < p.components.len() && (has_infix(lower_seq(p.components[i]), "log"@) || has_infix(
            lower_seq(p.components[i]),
            "audit"@,
        ))
}

/// The resource that a path falls under for an agent working in `ctx`.
pub open spec fn path_resource(p: PathModel, ctx: ContextModel) -> AccessResource {
    if path_starts_with(p, ctx.sandbox_root) {
        AccessResource::ProjectFiles
    } else if is_log_path(p) {
        AccessResource::LogsAudit
    } else if ctx.workspace_root is Some && path_starts_with(p, ctx.workspace_root->0) {
        if is_critical_path(p) {
            AccessResource::CriticalCode
        } else {
            AccessResource::ProjectFiles
        }
    } else {
        AccessResource::SystemFiles
    }
}

/// `p` lies inside the open workspace of `ctx`, if one is open.
pub open spec fn within_workspace(p: PathModel, ctx: ContextModel) -> bool {
    match ctx.workspace_root {
        Some(w) => path_starts_with(p, w),
        None => false,
    }
}

/// Where a path falls for an agent: anything in its sandbox is a project
/// file; elsewhere, a path with a component that mentions logs or audit is a
/// log; inside the workspace, critical code is a file named like a build or
/// package manifest, a file with a source, script or configuration
/// extension, or anything under `src`, `src-tauri`, `crates` or `scripts`,
/// and any other file is a project file; everything else is a system file.
pub proof fn law_path_classes(p: PathModel, ctx: ContextModel)
    ensures
        path_starts_with(p, ctx.sandbox_root) ==> path_resource(p, ctx) == AccessResource::ProjectFiles,
        !path_starts_with(p, ctx.sandbox_root) && (exists|i: int|
            0 <= i < p.components.len() && (has_infix(
                lower_seq(#[trigger] p.components[i]),
                "log"@,
            ) || has_infix(lower_seq(p.components[i]), "audit"@))) ==> path_resource(p, ctx)
            == AccessResource::LogsAudit,
        path_resource(p, ctx) == AccessResource::CriticalCode ==> within_workspace(p, ctx)
            && !path_starts_with(p, ctx.sandbox_root),
        (!path_starts_with(p, ctx.sandbox_root) && !is_log_path(p) && within_workspace(p, ctx))
            ==> (path_resource(p, ctx) == AccessResource::CriticalCode
            <==> ({
            ||| (file_name(p) matches Some(n) && {
                let l = lower_seq(n);
                l == "cargo.toml"@ || l == "cargo.lock"@ || l == "package.json"@ || l
                    == "pnpm-lock.yaml"@ || l == "package-lock.json"@ || l == "tauri.conf.json"@
                    || l == "vite.config.ts"@ || l == "vite.config.js"@ || l == "install-lxc.sh"@
            })
            ||| (exists|i: int|
                0 <= i < p.components.len() && {
                    let c = #[trigger] p.components[i];
                    c == "src"@ || c == "src-tauri"@ || c == "crates"@ || c == "scripts"@
                })
            ||| (extension(p) matches Some(e) && (e == "rs"@ || e == "ts"@ || e == "tsx"@ || e
                == "js"@ || e == "jsx"@ || e == "py"@ || e == "go"@ || e == "java"@ || e == "c"@
                || e == "cpp"@ || e == "h"@ || e == "hpp"@ || e == "toml"@ || e == "yaml"@ || e
                == "yml"@ || e == "json"@ || e == "sql"@ || e == "sh"@))
        })),
        (!path_starts_with(p, ctx.sandbox_root) && !is_log_path(p) && !within_workspace(p, ctx))
            ==> path_resource(p, ctx) == AccessResource::SystemFiles,
{
    if !path_starts_with(p, ctx.sandbox_root) && (exists|i: int|
        0 <= i < p.components.len() && (has_infix(lower_seq(#[trigger] p.components[i]), "log"@)
            || has_infix(lower_seq(p.components[i]), "audit"@))) {
        assert(is_log_path(p));
    }
    if !path_starts_with(p, ctx.sandbox_root) && !is_log_path(p) && within_workspace(p, ctx) {
        if exists|i: int|
            0 <= i < p.components.len() && {
                let c = #[trigger] p.components[i];
                c == "src"@ || c == "src-tauri"@ || c == "crates"@ || c == "scripts"@
            } {
            let i = choose|i: int|
                0 <= i < p.components.len() && {
                    let c = #[trigger] p.components[i];
                    c == "src"@ || c == "src-tauri"@ || c == "crates"@ || c == "scripts"@
                };
            assert(critical_dir(p.components[i]));
        }
        if exists|i: int| 0 <= i < p.components.len() && critical_dir(p.components[i]) {
            let i = choose|i: int| 0 <= i < p.components.len() && critical_dir(p.components[i]);
            assert(p.components[i] == p.components[i]);
        }
    }
}

/// Whether `text` equals the literal `lit`.
fn text_is(text: &[char], lit: &str) -> (r: bool)
    ensures
        r == (text@ == lit@),
{
    let l = chars_of(lit);
    chars_eq(text, &l)
}

fn is_critical_file_name(lower: &[char]) -> (r: bool)
    ensures
        r == critical_file(lower@),
{
    text_is(lower, "cargo.toml") || text_is(lower, "cargo.lock") || text_is(lower, "package.json")
        || text_is(lower, "pnpm-lock.yaml") || text_is(lower, "package-lock.json") || text_is(
        lower,
        "tauri.conf.json",
    ) || text_is(lower, "vite.config.ts") || text_is(lower, "vite.config.js") || text_is(
        lower,
        "install-lxc.sh",
    )
}

fn is_critical_extension(ext: &[char]) -> (r: bool)
    ensures
        r == critical_extension(ext@),
{
    text_is(ext, "rs") || text_is(ext, "ts") || text_is(ext, "tsx") || text_is(ext, "js")
        || text_is(ext, "jsx") || text_is(ext, "py") || text_is(ext, "go") || text_is(ext, "java")
        || text_is(ext, "c") || text_is(ext, "cpp") || text_is(ext, "h") || text_is(ext, "hpp")
        || text_is(ext, "toml") || text_is(ext, "yaml") || text_is(ext, "yml") || text_is(
        ext,
        "json",
    ) || text_is(ext, "sql") || text_is(ext, "sh")
}

fn is_critical_dir(c: &[char]) -> (r: bool)
    ensures
        r == critical_dir(c@),
{
    text_is(c, "src") || text_is(c, "src-tauri") || text_is(c, "crates") || text_is(c, "scripts")
}

/// Whether a path holds source code, build files or scripts.
pub fn looks_like_critical_code(path: &FsPath) -> (r: bool)
    ensures
        r == is_critical_path(path@),
{
    if let Some(name) = path.file_name() {
        let lower = lower_chars(&chars_of(name.as_str()));
        if is_critical_file_name(&lower) {
            return true;
        }
    }
    let mut i: usize = 0;
    while i < path.components.len()
        invariant
            i <= path.components@.len(),
            forall|k: int| 0 <= k < i ==> !critical_dir(path@.components[k]),
        decreases path.components@.len() - i,
    {
        let c = chars_of(path.components[i].as_str());
        if is_critical_dir(&c) {
            assert(path@.components[i as int] == c@);
            assert(critical_dir(path@.components[i as int]));
            return true;
        }
        i = i + 1;
    }
    match path.extension() {
        Some(e) => is_critical_extension(&e),
        None => false,
    }
}

/// Whether some component of a path mentions logs or audit.
pub fn looks_like_logs_or_audit(path: &FsPath) -> (r: bool)
    ensures
        r == is_log_path(path@),
{
    let mut i: usize = 0;
    while i < path.components.len()
        invariant
            i <= path.components@.len(),
            forall|k: int|
                0 <= k < i ==> !(has_infix(lower_seq(path@.components[k]), "log"@) || has_infix(
                    lower_seq(path@.components[k]),
                    "audit"@,
                )),
        decreases path.components@.len() - i,
    {
        let lower = lower_chars(&chars_of(path.components[i].as_str()));
        if has_word(&lower, "log") || has_word(&lower, "audit") {
            assert(lower_seq(path@.components[i as int]) == lower@);
            return true;
        }
        i = i + 1;
    }
    false
}

/// The resource that a path falls under for an agent working in `context`.
pub fn classify_path(path: &FsPath, context: &AgentToolContext) -> (r: AccessResource)
    ensures
        r == path_resource(path@, context@),
{
    if path.starts_with(&context.sandbox_root) {
        return AccessResource::ProjectFiles;
    }
    if looks_like_logs_or_audit(path) {
        return AccessResource::LogsAudit;
    }
    if let Some(workspace_root) = &context.workspace_root {
        if path.starts_with(workspace_root) {
            if looks_like_critical_code(path) {
                return AccessResource::CriticalCode;
            }
            return AccessResource::ProjectFiles;
        }
    }
    AccessResource::SystemFiles
}

// ── Paths named in tool arguments ──
/// A member name under which an argument is taken for a path (ASCII case ignored).
pub open spec fn is_path_key(key: Seq<char>) -> bool {
    let k = lower_seq(key);
    has_infix(k, "path"@) || has_infix(k, "file"@) || has_infix(k, "filepath"@) || has_infix(
        k,
        "target_path"@,
    ) || has_infix(k, "source_path"@) || has_infix(k, "destination_path"@)
}

/// The texts, in document order, of the string values held under a path-like
/// member name (directly, or in arrays under it).
pub open spec fn raw_paths(j: Json, parent: Option<Seq<char>>) -> Seq<Seq<char>>
    decreases j, 0nat,
{
    match j {
        Json::Object(entries) => raw_paths_members(entries, entries.len()),
        Json::Array(items) => raw_paths_items(items, parent, items.len()),
        Json::Str(text) => match parent {
            Some(k) => if is_path_key(k) {
                seq![text]
            } else {
                Seq::empty()
            },
            None => Seq::empty(),
        },
        _ => Seq::empty(),
    }
}

/// The path texts under the first `n` members of an object.
pub open spec fn raw_paths_members(entries: Seq<(Seq<char>, Json)>, n: nat) -> Seq<Seq<char>>
    decreases entries, n,
{
    if n == 0 || n > entries.len() {
        Seq::empty()
    } else {
        raw_paths_members(entries, (n - 1) as nat) + raw_paths(
            entries[n - 1].1,
            Some(entries[n - 1].0),
        )
    }
}

/// The path texts under the first `n` items of an array.
pub open spec fn raw_paths_items(items: Seq<Json>, parent: Option<Seq<char>>, n: nat) -> Seq<
    Seq<char>,
>
    decreases items, n,
{
    if n == 0 || n > items.len() {
        Seq::empty()
    } else {
        raw_paths_items(items, parent, (n - 1) as nat) + raw_paths(items[n - 1], parent)
    }
}

/// Where a path text points: an absolute text as is, a relative one under the
/// workspace, or under the sandbox when no workspace is open.
pub open spec fn resolve(raw: Seq<char>, ctx: ContextModel) -> PathModel {
    let p = parse_path(raw);
    if p.absolute {
        p
    } else {
        match ctx.workspace_root {
            Some(w) => path_join(w, p),
            None => path_join(ctx.sandbox_root, p),
        }
    }
}

/// The paths that a tool call's arguments name.
pub open spec fn candidate_paths(args: Json, ctx: ContextModel) -> Seq<PathModel> {
    let raws = raw_paths(args, None);
    Seq::new(raws.len(), |i: int| resolve(raws[i], ctx))
}

/// Resolves a path text against the agent's working area.
pub fn resolve_path(raw: &str, context: &AgentToolContext) -> (r: FsPath)
    ensures
        r@ == resolve(raw@, context@),
{
    let path = FsPath::parse(raw);
    if path.absolute {
        path
    } else if let Some(workspace_root) = &context.workspace_root {
        workspace_root.join(&path)
    } else {
        context.sandbox_root.join(&path)
    }
}

/// The models of a list of paths.
pub open spec fn path_models(ps: Seq<FsPath>) -> Seq<PathModel> {
    Seq::new(ps.len(), |i: int| ps[i]@)
}

/// Whether an argument member name is taken for a path.
fn path_key(key: &String) -> (r: bool)
    ensures
        r == is_path_key(key@),
{
    let k = lower_chars(&chars_of(key.as_str()));
    has_word(&k, "path") || has_word(&k, "file") || has_word(&k, "filepath") || has_word(
        &k,
        "target_path",
    ) || has_word(&k, "source_path") || has_word(&k, "destination_path")
}

proof fn lemma_raw_paths_members_step(entries: Seq<(Seq<char>, Json)>, n: nat)
    requires
        0 < n <= entries.len(),
    ensures
        raw_paths_members(entries, n) == raw_paths_members(entries, (n - 1) as nat) + raw_paths(
            entries[n - 1].1,
            Some(entries[n - 1].0),
        ),
{
}

proof fn lemma_raw_paths_items_step(items: Seq<Json>, parent: Option<Seq<char>>, n: nat)
    requires
        0 < n <= items.len(),
    ensures
        raw_paths_items(items, parent, n) == raw_paths_items(items, parent, (n - 1) as nat)
            + raw_paths(items[n - 1], parent),
{
}

/// Appends to `out` the paths named in `value`, which stands under `parent_key`.
fn collect_paths_recursive(
    value: &JsonValue,
    parent_key: Option<&String>,
    context: &AgentToolContext,
    out: &mut Vec<FsPath>,
)
    ensures
        path_models(final(out)@) == path_models(old(out)@) + ({
            let raws = raw_paths(
                value@,
                match parent_key {
                    Some(k) => Some(k@),
                    None => None,
                },
            );
            Seq::new(raws.len(), |i: int| resolve(raws[i], context@))
        }),
    decreases value@,
{
    let ghost parent = match parent_key {
        Some(k) => Some(k@),
        None => None::<Seq<char>>,
    };
    let ghost start = path_models(out@);
    match value {
        JsonValue::Object(entries) => {
            proof {
                lemma_object_view(*entries);
            }
            let ghost members = Seq::new(entries@.len(), |i: int| (entries@[i].0@, entries@[i].1@));
            assert(value@ == Json::Object(members));
            let mut i: usize = 0;
            while i < entries.len()
                invariant
                    i <= entries@.len(),
                    value@ == Json::Object(members),
                    members == Seq::new(entries@.len(), |i: int| (entries@[i].0@, entries@[i].1@)),
                    path_models(out@) == start + ({
                        let raws = raw_paths_members(members, i as nat);
                        Seq::new(raws.len(), |k: int| resolve(raws[k], context@))
                    }),
                decreases entries@.len() - i,
            {
                proof {
                    assert(decreases_to!(value@ => value@->Object_0));
                    assert(decreases_to!(value@->Object_0 => value@->Object_0[i as int]));
                    assert(decreases_to!(value@->Object_0[i as int] => value@->Object_0[i as int].1));
                    assert(members[i as int].1 == entries@[i as int].1@);
                    lemma_raw_paths_members_step(members, (i + 1) as nat);
                }
                let ghost before = path_models(out@);
                collect_paths_recursive(&entries[i].1, Some(&entries[i].0), context, out);
                proof {
                    let r1 = raw_paths_members(members, i as nat);
                    let r2 = raw_paths(members[i as int].1, Some(members[i as int].0));
                    assert(Seq::new((r1 + r2).len(), |k: int| resolve((r1 + r2)[k], context@))
                        =~= Seq::new(r1.len(), |k: int| resolve(r1[k], context@)) + Seq::new(
                        r2.len(),
                        |k: int| resolve(r2[k], context@),
                    ));
                }
                i = i + 1;
            }
        },
        JsonValue::Array(items) => {
            proof {
                lemma_array_view(*items);
            }
            let ghost js = Seq::new(items@.len(), |i: int| items@[i]@);
            assert(value@ == Json::Array(js));
            let mut i: usize = 0;
            while i < items.len()
                invariant
                    i <= items@.len(),
                    value@ == Json::Array(js),
                    js == Seq::new(items@.len(), |i: int| items@[i]@),
                    parent == match parent_key {
                        Some(k) => Some(k@),
                        None => None::<Seq<char>>,
                    },
                    path_models(out@) == start + ({
                        let raws = raw_paths_items(js, parent, i as nat);
                        Seq::new(raws.len(), |k: int| resolve(raws[k], context@))
                    }),
                decreases items@.len() - i,
            {
                proof {
                    assert(decreases_to!(value@ => value@->Array_0));
                    assert(decreases_to!(value@->Array_0 => value@->Array_0[i as int]));
                    assert(js[i as int] == items@[i as int]@);
                    lemma_raw_paths_items_step(js, parent, (i + 1) as nat);
                }
                collect_paths_recursive(&items[i], parent_key, context, out);
                proof {
                    let r1 = raw_paths_items(js, parent, i as nat);
                    let r2 = raw_paths(js[i as int], parent);
                    assert(Seq::new((r1 + r2).len(), |k: int| resolve((r1 + r2)[k], context@))
                        =~= Seq::new(r1.len(), |k: int| resolve(r1[k], context@)) + Seq::new(
                        r2.len(),
                        |k: int| resolve(r2[k], context@),
                    ));
                }
                i = i + 1;
            }
        },
        JsonValue::Str(text) => {
            if let Some(key) = parent_key {
                if path_key(key) {
                    let p = resolve_path(text.as_str(), context);
                    out.push(p);
                    assert(path_models(out@) =~= start + seq![resolve(text@, context@)]);
                    return ;
                }
            }
            assert(path_models(out@) =~= start + Seq::<PathModel>::empty());
        },
        _ => {
            assert(path_models(out@) =~= start + Seq::<PathModel>::empty());
        },
    }
    proof {
        let raws = raw_paths(value@, parent);
        assert(path_models(out@) =~= start + Seq::new(raws.len(), |k: int| resolve(raws[k], context@)));
    }
}

/// The paths named in a tool call's arguments, in document order.
pub fn collect_candidate_paths(value: &JsonValue, context: &AgentToolContext) -> (r: Vec<FsPath>)
    ensures
        path_models(r@) == candidate_paths(value@, context@),
{
    let mut paths: Vec<FsPath> = Vec::new();
    collect_paths_recursive(value, None, context, &mut paths);
    assert(path_models(paths@) =~= candidate_paths(value@, context@));
    paths
}

// ── Agent tool-call authorisation ──
/// Why an agent's tool call was refused.
pub enum AgentDenial {
    ShellEscalation,
    MissingPath { tool: String },
    NoWorkspace { tool: String },
    ReadOutsideScope { path: FsPath },
    WriteOutsideSandbox { path: FsPath },
    Denied { resource: AccessResource, path: FsPath },
}

/// The model of a refusal.
pub enum DenialModel {
    ShellEscalation,
    MissingPath { tool: Seq<char> },
    NoWorkspace { tool: Seq<char> },
    ReadOutsideScope { path: PathModel },
    WriteOutsideSandbox { path: PathModel },
    Denied { resource: AccessResource, path: PathModel },
}

impl View for AgentDenial {
    type V = DenialModel;

    open spec fn view(&self) -> DenialModel {
        match self {
            AgentDenial::ShellEscalation => DenialModel::ShellEscalation,
            AgentDenial::MissingPath { tool } => DenialModel::MissingPath { tool: tool@ },
            AgentDenial::NoWorkspace { tool } => DenialModel::NoWorkspace { tool: tool@ },
            AgentDenial::ReadOutsideScope { path } => DenialModel::ReadOutsideScope { path: path@ },
            AgentDenial::WriteOutsideSandbox { path } => DenialModel::WriteOutsideSandbox {
                path: path@,
            },
            AgentDenial::Denied { resource, path } => DenialModel::Denied {
                resource: *resource,
                path: path@,
            },
        }
    }
}

/// The action writes (creates, modifies or deletes).
pub open spec fn is_write(a: AccessAction) -> bool {
    a == AccessAction::Create || a == AccessAction::Modify || a == AccessAction::Delete
}

/// Why one path of a call with action `action` is refused, if it is.
pub open spec fn path_denial(action: AccessAction, p: PathModel, ctx: ContextModel, tool: Seq<
    char,
>) -> Option<DenialModel> {
    if action == AccessAction::Read && ctx.workspace_root is None {
        Some(DenialModel::NoWorkspace { tool })
    } else if action == AccessAction::Read && !path_starts_with(p, ctx.workspace_root->0)
        && !path_starts_with(p, ctx.sandbox_root) {
        Some(DenialModel::ReadOutsideScope { path: p })
    } else if is_write(action) && !path_starts_with(p, ctx.sandbox_root) {
        Some(DenialModel::WriteOutsideSandbox { path: p })
    } else if access_rule(ActorRole::Agent, action, path_resource(p, ctx))
        != AccessDecision::Allow {
        Some(DenialModel::Denied { resource: path_resource(p, ctx), path: p })
    } else {
        None
    }
}

/// The refusal for the first refused path among `paths[i..]`, if any.
pub open spec fn first_path_denial(
    action: AccessAction,
    paths: Seq<PathModel>,
    ctx: ContextModel,
    tool: Seq<char>,
    i: int,
) -> Option<DenialModel>
    decreases paths.len() - i,
{
    if i < 0 || i >= paths.len() {
        None
    } else if path_denial(action, paths[i], ctx, tool) is Some {
        path_denial(action, paths[i], ctx, tool)
    } else {
        first_path_denial(action, paths, ctx, tool, i + 1)
    }
}

/// Why an agent's call of tool `tool` with arguments `args` is refused, if it is:
/// shell tools never run; a writing tool must name a path; every path named
/// must lie in the workspace or sandbox for reading, in the sandbox for
/// writing, and be a resource that the policy lets an agent touch.
pub open spec fn agent_call_denial(tool: Seq<char>, args: Json, ctx: ContextModel) -> Option<
    DenialModel,
> {
    let action = tool_action(tool);
    let paths = candidate_paths(args, ctx);
    if action == AccessAction::Execute {
        Some(DenialModel::ShellEscalation)
    } else if is_write(action) && paths.len() == 0 {
        Some(DenialModel::MissingPath { tool })
    } else {
        first_path_denial(action, paths, ctx, tool, 0)
    }
}

/// Checks an agent's tool call against its working area and the policy.
pub fn check_agent_tool_call(
    tool_name: &str,
    arguments: &JsonValue,
    context: &AgentToolContext,
) -> (r: Result<(), AgentDenial>)
    ensures
        match r {
            Ok(()) => agent_call_denial(tool_name@, arguments@, context@) is None,
            Err(d) => agent_call_denial(tool_name@, arguments@, context@) == Some(d@),
        },
{
    let action = infer_tool_action(tool_name);
    if action == AccessAction::Execute {
        return Err(AgentDenial::ShellEscalation);
    }
    let paths = collect_candidate_paths(arguments, context);
    let ghost pm = path_models(paths@);
    let writes = action == AccessAction::Create || action == AccessAction::Modify || action
        == AccessAction::Delete;
    if writes && paths.len() == 0 {
        return Err(AgentDenial::MissingPath { tool: owned(tool_name) });
    }
    let mut i: usize = 0;
    while i < paths.len()
        invariant
            i <= paths@.len(),
            pm == path_models(paths@),
            pm == candidate_paths(arguments@, context@),
            action == tool_action(tool_name@),
            action != AccessAction::Execute,
            writes == is_write(action),
            first_path_denial(action, pm, context@, tool_name@, 0) == first_path_denial(
                action,
                pm,
                context@,
                tool_name@,
                i as int,
            ),
        decreases paths@.len() - i,
    {
        let path = &paths[i];
        assert(pm[i as int] == path@);
        if action == AccessAction::Read {
            match &context.workspace_root {
                None => {
                    return Err(AgentDenial::NoWorkspace { tool: owned(tool_name) });
                },
                Some(workspace_root) => {
                    if !path.starts_with(workspace_root) && !path.starts_with(&context.sandbox_root) {
                        return Err(AgentDenial::ReadOutsideScope { path: path.copy() });
                    }
                },
            }
        }
        if writes && !path.starts_with(&context.sandbox_root) {
            return Err(AgentDenial::WriteOutsideSandbox { path: path.copy() });
        }
        let resource = classify_path(path, context);
        let decision = evaluate_access(
            &AccessRequest { actor: ActorRole::Agent, action, resource },
        );
        if decision != AccessDecision::Allow {
            return Err(AgentDenial::Denied { resource, path: path.copy() });
        }
        i = i + 1;
    }
    Ok(())
}

/// How a resource is written in messages (its `Debug` form).
pub open spec fn resource_name(r: AccessResource) -> Seq<char> {
    match r {
        AccessResource::SystemFiles => "SystemFiles"@,
        AccessResource::ProjectFiles => "ProjectFiles"@,
        AccessResource::TeamConfig => "TeamConfig"@,
        AccessResource::IaConfig => "IaConfig"@,
        AccessResource::CriticalCode => "CriticalCode"@,
        AccessResource::LogsAudit => "LogsAudit"@,
        AccessResource::ShellEscalation => "ShellEscalation"@,
    }
}

/// The message that explains a refusal.
pub open spec fn denial_message(d: DenialModel) -> Seq<char> {
    match d {
        DenialModel::ShellEscalation => "Agent shell escalation is forbidden"@,
        DenialModel::MissingPath { tool } => "Agent write operation '"@ + tool
            + "' is missing an explicit path and was denied"@,
        DenialModel::NoWorkspace { tool } => "Agent read operation '"@ + tool
            + "' requires an open workspace"@,
        DenialModel::ReadOutsideScope { path } => "Agent read outside the project scope is forbidden: "@
            + display_path(path),
        DenialModel::WriteOutsideSandbox { path } => "Agent write outside the sandbox is forbidden: "@
            + display_path(path),
        DenialModel::Denied { resource, path } => "Agent access denied for "@ + resource_name(
            resource,
        ) + " on "@ + display_path(path),
    }
}

/// The `Debug` name of a resource.
pub fn resource_debug_name(r: AccessResource) -> (s: String)
    ensures
        s@ == resource_name(r),
{
    match r {
        AccessResource::SystemFiles => owned("SystemFiles"),
        AccessResource::ProjectFiles => owned("ProjectFiles"),
        AccessResource::TeamConfig => owned("TeamConfig"),
        AccessResource::IaConfig => owned("IaConfig"),
        AccessResource::CriticalCode => owned("CriticalCode"),
        AccessResource::LogsAudit => owned("LogsAudit"),
        AccessResource::ShellEscalation => owned("ShellEscalation"),
    }
}

impl AgentDenial {
    /// The message that explains the refusal.
    pub fn message(&self) -> (s: String)
        ensures
            s@ == denial_message(self@),
    {
        match self {
            AgentDenial::ShellEscalation => owned("Agent shell escalation is forbidden"),
            AgentDenial::MissingPath { tool } => {
                let mut s = owned("Agent write operation '");
                append_str(&mut s, tool.as_str());
                append_str(&mut s, "' is missing an explicit path and was denied");
                s
            },
            AgentDenial::NoWorkspace { tool } => {
                let mut s = owned("Agent read operation '");
                append_str(&mut s, tool.as_str());
                append_str(&mut s, "' requires an open workspace");
                s
            },
            AgentDenial::ReadOutsideScope { path } => {
                let mut s = owned("Agent read outside the project scope is forbidden: ");
                let d = path.display();
                append_str(&mut s, d.as_str());
                s
            },
            AgentDenial::WriteOutsideSandbox { path } => {
                let mut s = owned("Agent write outside the sandbox is forbidden: ");
                let d = path.display();
                append_str(&mut s, d.as_str());
                s
            },
            AgentDenial::Denied { resource, path } => {
                let mut s = owned("Agent access denied for ");
                let n = resource_debug_name(*resource);
                append_str(&mut s, n.as_str());
                append_str(&mut s, " on ");
                let d = path.display();
                append_str(&mut s, d.as_str());
                s
            },
        }
    }
}

/// Decides whether an agent may make a tool call; a refusal comes with the
/// message that explains it.
pub fn authorize_agent_tool_call(
    tool_name: &str,
    arguments: &JsonValue,
    context: &AgentToolContext,
) -> (r: Result<(), String>)
    ensures
        match r {
            Ok(()) => agent_call_denial(tool_name@, arguments@, context@) is None,
            Err(m) => agent_call_denial(tool_name@, arguments@, context@) matches Some(d)
                && m@ == denial_message(d),
        },
{
    match check_agent_tool_call(tool_name, arguments, context) {
        Ok(()) => Ok(()),
        Err(d) => Err(d.message()),
    }
}

/// An agent's call of a tool whose name mentions a shell is always refused.
pub proof fn law_agent_shell_tools_refused(tool: Seq<char>, args: Json, ctx: ContextModel)
    requires
        tool_action(tool) == AccessAction::Execute,
    ensures
        agent_call_denial(tool, args, ctx) == Some(DenialModel::ShellEscalation),
{
}

/// Every path that an accepted writing call names lies in the sandbox.
pub proof fn law_accepted_writes_stay_in_sandbox(tool: Seq<char>, args: Json, ctx: ContextModel)
    requires
        is_write(tool_action(tool)),
        agent_call_denial(tool, args, ctx) is None,
    ensures
        candidate_paths(args, ctx).len() > 0,
        forall|i: int|
            0 <= i < candidate_paths(args, ctx).len() ==> path_starts_with(
                #[trigger] candidate_paths(args, ctx)[i],
                ctx.sandbox_root,
            ),
{
    let paths = candidate_paths(args, ctx);
    assert forall|i: int| 0 <= i < paths.len() implies path_starts_with(
        #[trigger] paths[i],
        ctx.sandbox_root,
    ) by {
        lemma_no_denial_means_each_passes(tool_action(tool), paths, ctx, tool, 0, i);
    }
}

/// Every path that an accepted reading call names lies in the workspace or the sandbox.
pub proof fn law_accepted_reads_stay_in_scope(tool: Seq<char>, args: Json, ctx: ContextModel)
    requires
        tool_action(tool) == AccessAction::Read,
        agent_call_denial(tool, args, ctx) is None,
    ensures
        forall|i: int|
            0 <= i < candidate_paths(args, ctx).len() ==> ctx.workspace_root is Some && (
            path_starts_with(#[trigger] candidate_paths(args, ctx)[i], ctx.workspace_root->0)
                || path_starts_with(candidate_paths(args, ctx)[i], ctx.sandbox_root)),
{
    let paths = candidate_paths(args, ctx);
    assert forall|i: int| 0 <= i < paths.len() implies ctx.workspace_root is Some && (
    path_starts_with(#[trigger] paths[i], ctx.workspace_root->0) || path_starts_with(
        paths[i],
        ctx.sandbox_root,
    )) by {
        lemma_no_denial_means_each_passes(AccessAction::Read, paths, ctx, tool, 0, i);
    }
}

proof fn lemma_no_denial_means_each_passes(
    action: AccessAction,
    paths: Seq<PathModel>,
    ctx: ContextModel,
    tool: Seq<char>,
    from: int,
    i: int,
)
    requires
        0 <= from <= i < paths.len(),
        first_path_denial(action, paths, ctx, tool, from) is None,
    ensures
        path_denial(action, paths[i], ctx, tool) is None,
    decreases i - from,
{
    if from < i {
        lemma_no_denial_means_each_passes(action, paths, ctx, tool, from + 1, i);
    }
}

} // verus!
