//! The checks that stand before a tool runs at the user's request: which
//! permission a tool needs, which resource its path falls under, and how the
//! access policy and the permission mode answer.
use vstd::prelude::*;
use crate::access::{
    AccessAction, AccessDecision, AccessRequest, AccessResource, ActorRole, AgentToolContext,
    classify_path, evaluate_access, resource_debug_name, resource_name, path_resource,
};
use crate::fspath::{FsPath, PathModel, parse_path, path_join};
use crate::json::{Json, JsonValue, json_get, json_str};
use crate::keyed::KeyedList;
use crate::permissions::{PermissionResult, PermissionType};
use crate::text::{chars_of, has_infix, lower_chars, lower_seq, contains_chars, owned, append_str, push_decimal, decimal};

verus! {

/// Whether a word of the list occurs in `lower`.
pub open spec fn mentions_write(lower: Seq<char>) -> bool {
    has_infix(lower, "write"@) || has_infix(lower, "edit"@) || has_infix(lower, "create"@)
        || has_infix(lower, "delete"@) || has_infix(lower, "remove"@) || has_infix(lower, "move"@)
        || has_infix(lower, "rename"@) || has_infix(lower, "save"@)
}

pub open spec fn mentions_read(lower: Seq<char>) -> bool {
    has_infix(lower, "read"@) || has_infix(lower, "list"@) || has_infix(lower, "find"@)
        || has_infix(lower, "search"@) || has_infix(lower, "glob"@) || has_infix(lower, "stat"@)
}

pub open spec fn mentions_network(lower: Seq<char>) -> bool {
    has_infix(lower, "http"@) || has_infix(lower, "web"@) || has_infix(lower, "fetch"@)
        || has_infix(lower, "download"@) || has_infix(lower, "request"@) || has_infix(lower, "url"@)
}

/// The permission a tool needs, by the words in its name (ASCII case
/// ignored): writing, else reading, else network access, else running commands.
pub open spec fn tool_permission(name: Seq<char>) -> PermissionType {
    let lower = lower_seq(name);
    if mentions_write(lower) {
        PermissionType::FileWrite
    } else if mentions_read(lower) {
        PermissionType::FileRead
    } else if mentions_network(lower) {
        PermissionType::NetworkAccess
    } else {
        PermissionType::ShellExecute
    }
}

fn has(hay: &[char], needle: &str) -> (r: bool)
    ensures
        r == has_infix(hay@, needle@),
{
    let n = chars_of(needle);
    contains_chars(hay, &n)
}

/// The permission a tool needs.
pub fn infer_tool_permission(tool_name: &str) -> (r: PermissionType)
    ensures
        r == tool_permission(tool_name@),
{
    let lower = lower_chars(&chars_of(tool_name));
    if has(&lower, "write") || has(&lower, "edit") || has(&lower, "create") || has(&lower, "delete")
        || has(&lower, "remove") || has(&lower, "move") || has(&lower, "rename") || has(
        &lower,
        "save",
    ) {
        PermissionType::FileWrite
    } else if has(&lower, "read") || has(&lower, "list") || has(&lower, "find") || has(
        &lower,
        "search",
    ) || has(&lower, "glob") || has(&lower, "stat") {
        PermissionType::FileRead
    } else if has(&lower, "http") || has(&lower, "web") || has(&lower, "fetch") || has(
        &lower,
        "download",
    ) || has(&lower, "request") || has(&lower, "url") {
        PermissionType::NetworkAccess
    } else {
        PermissionType::ShellExecute
    }
}

/// The path a tool's arguments name: the first of the members `path`, `file`
/// and `filepath` that exists, if it is a string.
pub open spec fn named_path(args: Json) -> Option<Seq<char>> {
    match json_get(args, "path"@) {
        Some(v) => json_str(v),
        None => match json_get(args, "file"@) {
            Some(v) => json_str(v),
            None => match json_get(args, "filepath"@) {
                Some(v) => json_str(v),
                None => None,
            },
        },
    }
}

/// The path a tool's arguments name.
pub fn extract_tool_path(arguments: &JsonValue) -> (r: Option<String>)
    ensures
        match r {
            Some(p) => named_path(arguments@) == Some(p@),
            None => named_path(arguments@) is None,
        },
{
    let member = match arguments.get("path") {
        Some(v) => Some(v),
        None => match arguments.get("file") {
            Some(v) => Some(v),
            None => arguments.get("filepath"),
        },
    };
    match member {
        Some(v) => match v.as_str() {
            Some(s) => Some(s.clone()),
            None => None,
        },
        None => None,
    }
}

/// The working area used to classify a path that a user's tool call names:
/// the open workspace, if any, and a scratch directory under `temp_dir`.
pub open spec fn manual_area(workspace: Option<PathModel>, temp_dir: PathModel) -> crate::access::ContextModel {
    crate::access::ContextModel {
        workspace_root: workspace,
        sandbox_root: path_join(temp_dir, parse_path("vida-manual-access"@)),
    }
}

/// Where a path named by a user's tool call points: an absolute path as is,
/// a relative one under the workspace, or as written when no workspace is open.
pub open spec fn manual_target(raw: Seq<char>, workspace: Option<PathModel>) -> PathModel {
    let p = parse_path(raw);
    if p.absolute {
        p
    } else {
        match workspace {
            Some(w) => path_join(w, p),
            None => p,
        }
    }
}

/// The resource that a user's tool call touches: project files when it names
/// no path, else the class of the path it names.
pub fn classify_tool_resource(
    workspace_path: Option<&str>,
    temp_dir: &str,
    path: Option<&str>,
) -> (r: AccessResource)
    ensures
        match path {
            None => r == AccessResource::ProjectFiles,
            Some(raw) => {
                let w = match workspace_path {
                    Some(wp) => Some(parse_path(wp@)),
                    None => None,
                };
                r == path_resource(manual_target(raw@, w), manual_area(w, parse_path(temp_dir@)))
            },
        },
{
    let raw = match path {
        Some(p) => p,
        None => {
            return AccessResource::ProjectFiles;
        },
    };
    let workspace_root = match workspace_path {
        Some(wp) => Some(FsPath::parse(wp)),
        None => None,
    };
    let temp = FsPath::parse(temp_dir);
    let scratch = FsPath::parse("vida-manual-access");
    let context = AgentToolContext { workspace_root, sandbox_root: temp.join(&scratch) };
    let p = FsPath::parse(raw);
    let resolved = if p.absolute {
        p
    } else {
        match &context.workspace_root {
            Some(w) => w.join(&p),
            None => p,
        }
    };
    classify_path(&resolved, &context)
}

/// What happens to a request once a check has answered.
#[derive(Debug)]
pub enum GateOutcome {
    /// The request goes ahead.
    Proceed,
    /// The request is refused, with this message.
    Refuse(String),
    /// A human must approve the request first.
    AskHuman,
}

/// How an action is written in messages (its `Debug` form).
pub open spec fn action_name(a: AccessAction) -> Seq<char> {
    match a {
        AccessAction::Read => "Read"@,
        AccessAction::Create => "Create"@,
        AccessAction::Modify => "Modify"@,
        AccessAction::Delete => "Delete"@,
        AccessAction::Execute => "Execute"@,
    }
}

/// How a role is written in messages (its `Debug` form).
pub open spec fn actor_name(a: ActorRole) -> Seq<char> {
    match a {
        ActorRole::SuperAdmin => "SuperAdmin"@,
        ActorRole::Architect => "Architect"@,
        ActorRole::Operator => "Operator"@,
        ActorRole::Agent => "Agent"@,
    }
}

fn action_debug_name(a: AccessAction) -> (r: String)
    ensures
        r@ == action_name(a),
{
    match a {
        AccessAction::Read => owned("Read"),
        AccessAction::Create => owned("Create"),
        AccessAction::Modify => owned("Modify"),
        AccessAction::Delete => owned("Delete"),
        AccessAction::Execute => owned("Execute"),
    }
}

fn actor_debug_name(a: ActorRole) -> (r: String)
    ensures
        r@ == actor_name(a),
{
    match a {
        ActorRole::SuperAdmin => owned("SuperAdmin"),
        ActorRole::Architect => owned("Architect"),
        ActorRole::Operator => owned("Operator"),
        ActorRole::Agent => owned("Agent"),
    }
}

/// How the access policy answers a signed-in user's request; without a
/// signed-in user nothing goes ahead.
pub fn access_outcome(actor: Option<ActorRole>, action: AccessAction, resource: AccessResource) -> (r:
    GateOutcome)
    ensures
        match actor {
            None => r matches GateOutcome::Refuse(m) && m@ == "Authentication required"@,
            Some(a) => match crate::access::access_rule(a, action, resource) {
                AccessDecision::Allow => r is Proceed,
                AccessDecision::RequireHumanApproval => r is AskHuman,
                AccessDecision::Deny => r matches GateOutcome::Refuse(m) && m@ == "Access denied for "@
                    + action_name(action) + " "@ + resource_name(resource) + " by "@ + actor_name(a),
            },
        },
{
    let a = match actor {
        Some(a) => a,
        None => {
            return GateOutcome::Refuse(owned("Authentication required"));
        },
    };
    match evaluate_access(&AccessRequest { actor: a, action, resource }) {
        AccessDecision::Allow => GateOutcome::Proceed,
        AccessDecision::RequireHumanApproval => GateOutcome::AskHuman,
        AccessDecision::Deny => {
            let mut m = owned("Access denied for ");
            append_str(&mut m, action_debug_name(action).as_str());
            append_str(&mut m, " ");
            append_str(&mut m, resource_debug_name(resource).as_str());
            append_str(&mut m, " by ");
            append_str(&mut m, actor_debug_name(a).as_str());
            GateOutcome::Refuse(m)
        },
    }
}

/// How the permission mode's answer is carried out for `action`.
pub fn permission_outcome(check: PermissionResult, action: &str) -> (r: GateOutcome)
    ensures
        match check {
            PermissionResult::Allowed => r is Proceed,
            PermissionResult::NeedsApproval => r is AskHuman,
            PermissionResult::Denied => r matches GateOutcome::Refuse(m) && m@
                == "Permission denied for action '"@ + action@ + "'"@,
        },
{
    match check {
        PermissionResult::Allowed => GateOutcome::Proceed,
        PermissionResult::NeedsApproval => GateOutcome::AskHuman,
        PermissionResult::Denied => {
            let mut m = owned("Permission denied for action '");
            append_str(&mut m, action);
            append_str(&mut m, "'");
            GateOutcome::Refuse(m)
        },
    }
}

/// How long, in seconds, a request for approval waits for the user.
pub const PERMISSION_TIMEOUT_SECS: u64 = 120;

/// A request for the user's approval, as shown to the user.
#[derive(Debug, Clone)]
pub struct PermissionRequest {
    pub request_id: String,
    pub action: String,
    pub path: Option<String>,
    pub description: String,
}

/// How a request for approval ended.
#[derive(Debug, Clone, Copy, PartialEq, Eq, Structural)]
pub enum ApprovalAnswer {
    Approved,
    Rejected,
    Cancelled,
    TimedOut,
}

/// What an answer to a request for approval means for `action`.
pub fn approval_outcome(answer: ApprovalAnswer, request_id: &str, action: &str) -> (r: Result<
    (),
    String,
>)
    ensures
        match answer {
            ApprovalAnswer::Approved => r is Ok,
            ApprovalAnswer::Rejected => r matches Err(m) && m@ == "Permission denied by user for action '"@
                + action@ + "'"@,
            ApprovalAnswer::Cancelled => r matches Err(m) && m@ == "Permission request '"@
                + request_id@ + "' was cancelled"@,
            ApprovalAnswer::TimedOut => r matches Err(m) && m@ == "Permission request '"@
                + request_id@ + "' timed out after "@ + decimal(PERMISSION_TIMEOUT_SECS as nat)
                + "s"@,
        },
{
    match answer {
        ApprovalAnswer::Approved => Ok(()),
        ApprovalAnswer::Rejected => {
            let mut m = owned("Permission denied by user for action '");
            append_str(&mut m, action);
            append_str(&mut m, "'");
            Err(m)
        },
        ApprovalAnswer::Cancelled => {
            let mut m = owned("Permission request '");
            append_str(&mut m, request_id);
            append_str(&mut m, "' was cancelled");
            Err(m)
        },
        ApprovalAnswer::TimedOut => {
            let mut m = owned("Permission request '");
            append_str(&mut m, request_id);
            append_str(&mut m, "' timed out after ");
            push_decimal(&mut m, PERMISSION_TIMEOUT_SECS);
            append_str(&mut m, "s");
            Err(m)
        },
    }
}

/// The requests for approval that wait for the user's answer, each with
/// what waits for it.
pub struct PendingApprovals<W> {
    waiting: KeyedList<W>,
}

/// The complaint about an answer to a request that does not wait.
pub open spec fn unknown_request_text(request_id: Seq<char>) -> Seq<char> {
    "Unknown permission request: "@ + request_id
}

/// The complaint about an answer that nobody waits for any more.
pub open spec fn no_longer_waiting_text(request_id: Seq<char>) -> Seq<char> {
    "Permission request "@ + request_id + " is no longer waiting"@
}

impl<W> PendingApprovals<W> {
    /// The waiting requests, by identifier.
    pub closed spec fn waiting(&self) -> Map<Seq<char>, W> {
        self.waiting.map()
    }

    /// No request waits.
    pub fn new() -> (r: PendingApprovals<W>)
        ensures
            r.waiting() == Map::<Seq<char>, W>::empty(),
    {
        PendingApprovals { waiting: KeyedList::new() }
    }

    /// A request starts to wait.
    pub fn add(&mut self, request_id: &str, waiter: W)
        ensures
            final(self).waiting() == old(self).waiting().insert(request_id@, waiter),
    {
        self.waiting.insert(request_id, waiter);
    }

    /// The user answered a request: it stops waiting, and what waited for
    /// it is handed out; a request that does not wait is refused.
    pub fn answer(&mut self, request_id: &str) -> (r: Result<W, String>)
        ensures
            final(self).waiting() == old(self).waiting().remove(request_id@),
            old(self).waiting().dom().contains(request_id@) ==> r == Ok::<W, String>(
                old(self).waiting()[request_id@],
            ),
            !old(self).waiting().dom().contains(request_id@) ==> (r matches Err(m) && m@
                == unknown_request_text(request_id@)),
    {
        match self.waiting.take(request_id) {
            Some(w) => Ok(w),
            None => {
                let mut m = owned("Unknown permission request: ");
                append_str(&mut m, request_id);
                Err(m)
            },
        }
    }

    /// A request timed out: it stops waiting.
    pub fn expire(&mut self, request_id: &str)
        ensures
            final(self).waiting() == old(self).waiting().remove(request_id@),
    {
        self.waiting.remove(request_id);
    }
}

/// A request is answered at most once: after an answer, or after it timed
/// out, the request no longer waits, so a second answer is refused.
pub proof fn law_request_answered_once<W>(waiting: Map<Seq<char>, W>, request_id: Seq<char>)
    ensures
        !waiting.remove(request_id).dom().contains(request_id),
{
}

/// The complaint about an answer that nobody waits for any more.
pub fn no_longer_waiting(request_id: &str) -> (r: String)
    ensures
        r@ == no_longer_waiting_text(request_id@),
{
    let mut m = owned("Permission request ");
    append_str(&mut m, request_id);
    append_str(&mut m, " is no longer waiting");
    m
}

/// Whether the remote server runs, and on which port.
#[derive(Debug, Clone, Copy)]
pub struct RemoteStatus {
    pub enabled: bool,
    pub port: u16,
}

} // verus!
