//! Which signed commands the agent runs, the permission each one needs, and
//! how its outcome is recorded in the audit log.
use vstd::prelude::*;
use super::auth::PermissionLevel;
use crate::text::str_eq;

verus! {

/// The commands the agent knows.
#[derive(Debug, Clone, Copy, PartialEq, Eq)]
pub enum CommandKind {
    NftablesApply,
    NftablesRestore,
    NftablesAccept,
    ContainerList,
    TenantEnsure,
    ContainerDeploy,
    ContainerStart,
    ContainerStop,
    ContainerRemove,
    ContainerRestart,
    ContainerUpdate,
    UpdateSelf,
    WgRotatePsk,
    WgDataPlaneSetup,
    WgDataPlaneTeardown,
    DashboardMigrate,
    CertUpdate,
}

impl CommandKind {
    /// The command's `type` on the wire.
    pub open spec fn name_view(self) -> Seq<char> {
        match self {
            CommandKind::NftablesApply => "nftables.apply"@,
            CommandKind::NftablesRestore => "nftables.restore"@,
            CommandKind::NftablesAccept => "nftables.accept"@,
            CommandKind::ContainerList => "container.list"@,
            CommandKind::TenantEnsure => "tenant.ensure"@,
            CommandKind::ContainerDeploy => "container.deploy"@,
            CommandKind::ContainerStart => "container.start"@,
            CommandKind::ContainerStop => "container.stop"@,
            CommandKind::ContainerRemove => "container.remove"@,
            CommandKind::ContainerRestart => "container.restart"@,
            CommandKind::ContainerUpdate => "container.update"@,
            CommandKind::UpdateSelf => "update.self"@,
            CommandKind::WgRotatePsk => "wg.rotate_psk"@,
            CommandKind::WgDataPlaneSetup => "wg.data_plane.setup"@,
            CommandKind::WgDataPlaneTeardown => "wg.data_plane.teardown"@,
            CommandKind::DashboardMigrate => "dashboard.migrate"@,
            CommandKind::CertUpdate => "cert.update"@,
        }
    }

    pub fn name(&self) -> (r: &'static str)
        ensures
            r@ == self.name_view(),
    {
        match self {
            CommandKind::NftablesApply => "nftables.apply",
            CommandKind::NftablesRestore => "nftables.restore",
            CommandKind::NftablesAccept => "nftables.accept",
            CommandKind::ContainerList => "container.list",
            CommandKind::TenantEnsure => "tenant.ensure",
            CommandKind::ContainerDeploy => "container.deploy",
            CommandKind::ContainerStart => "container.start",
            CommandKind::ContainerStop => "container.stop",
            CommandKind::ContainerRemove => "container.remove",
            CommandKind::ContainerRestart => "container.restart",
            CommandKind::ContainerUpdate => "container.update",
            CommandKind::UpdateSelf => "update.self",
            CommandKind::WgRotatePsk => "wg.rotate_psk",
            CommandKind::WgDataPlaneSetup => "wg.data_plane.setup",
            CommandKind::WgDataPlaneTeardown => "wg.data_plane.teardown",
            CommandKind::DashboardMigrate => "dashboard.migrate",
            CommandKind::CertUpdate => "cert.update",
        }
    }

    /// The least permission the command needs: listing containers needs
    /// none beyond reading, removing one is destructive, the rest write.
    pub open spec fn required_view(self) -> PermissionLevel {
        match self {
            CommandKind::ContainerList => PermissionLevel::Read,
            CommandKind::ContainerRemove => PermissionLevel::Destructive,
            _ => PermissionLevel::Write,
        }
    }

    pub fn required_permission(&self) -> (r: PermissionLevel)
        ensures
            r == self.required_view(),
    {
        match self {
            CommandKind::ContainerList => PermissionLevel::Read,
            CommandKind::ContainerRemove => PermissionLevel::Destructive,
            _ => PermissionLevel::Write,
        }
    }
}

/// The command a `type` names, if the agent knows it.
pub open spec fn command_kind_view(t: Seq<char>) -> Option<CommandKind> {
    if t == CommandKind::NftablesApply.name_view() { Some(CommandKind::NftablesApply) }
    else if t == CommandKind::NftablesRestore.name_view() { Some(CommandKind::NftablesRestore) }
    else if t == CommandKind::NftablesAccept.name_view() { Some(CommandKind::NftablesAccept) }
    else if t == CommandKind::ContainerList.name_view() { Some(CommandKind::ContainerList) }
    else if t == CommandKind::TenantEnsure.name_view() { Some(CommandKind::TenantEnsure) }
    else if t == CommandKind::ContainerDeploy.name_view() { Some(CommandKind::ContainerDeploy) }
    else if t == CommandKind::ContainerStart.name_view() { Some(CommandKind::ContainerStart) }
    else if t == CommandKind::ContainerStop.name_view() { Some(CommandKind::ContainerStop) }
    else if t == CommandKind::ContainerRemove.name_view() { Some(CommandKind::ContainerRemove) }
    else if t == CommandKind::ContainerRestart.name_view() { Some(CommandKind::ContainerRestart) }
    else if t == CommandKind::ContainerUpdate.name_view() { Some(CommandKind::ContainerUpdate) }
    else if t == CommandKind::UpdateSelf.name_view() { Some(CommandKind::UpdateSelf) }
    else if t == CommandKind::WgRotatePsk.name_view() { Some(CommandKind::WgRotatePsk) }
    else if t == CommandKind::WgDataPlaneSetup.name_view() { Some(CommandKind::WgDataPlaneSetup) }
    else if t == CommandKind::WgDataPlaneTeardown.name_view() { Some(CommandKind::WgDataPlaneTeardown) }
    else if t == CommandKind::DashboardMigrate.name_view() { Some(CommandKind::DashboardMigrate) }
    else if t == CommandKind::CertUpdate.name_view() { Some(CommandKind::CertUpdate) }
    else { None }
}

/// The command named by `t`.
pub fn command_kind(t: &str) -> (r: Option<CommandKind>)
    ensures
        r == command_kind_view(t@),
{
    if str_eq(t, CommandKind::NftablesApply.name()) { return Some(CommandKind::NftablesApply); }
    if str_eq(t, CommandKind::NftablesRestore.name()) { return Some(CommandKind::NftablesRestore); }
    if str_eq(t, CommandKind::NftablesAccept.name()) { return Some(CommandKind::NftablesAccept); }
    if str_eq(t, CommandKind::ContainerList.name()) { return Some(CommandKind::ContainerList); }
    if str_eq(t, CommandKind::TenantEnsure.name()) { return Some(CommandKind::TenantEnsure); }
    if str_eq(t, CommandKind::ContainerDeploy.name()) { return Some(CommandKind::ContainerDeploy); }
    if str_eq(t, CommandKind::ContainerStart.name()) { return Some(CommandKind::ContainerStart); }
    if str_eq(t, CommandKind::ContainerStop.name()) { return Some(CommandKind::ContainerStop); }
    if str_eq(t, CommandKind::ContainerRemove.name()) { return Some(CommandKind::ContainerRemove); }
    if str_eq(t, CommandKind::ContainerRestart.name()) { return Some(CommandKind::ContainerRestart); }
    if str_eq(t, CommandKind::ContainerUpdate.name()) { return Some(CommandKind::ContainerUpdate); }
    if str_eq(t, CommandKind::UpdateSelf.name()) { return Some(CommandKind::UpdateSelf); }
    if str_eq(t, CommandKind::WgRotatePsk.name()) { return Some(CommandKind::WgRotatePsk); }
    if str_eq(t, CommandKind::WgDataPlaneSetup.name()) { return Some(CommandKind::WgDataPlaneSetup); }
    if str_eq(t, CommandKind::WgDataPlaneTeardown.name()) { return Some(CommandKind::WgDataPlaneTeardown); }
    if str_eq(t, CommandKind::DashboardMigrate.name()) { return Some(CommandKind::DashboardMigrate); }
    if str_eq(t, CommandKind::CertUpdate.name()) { return Some(CommandKind::CertUpdate); }
    None
}

/// The rank of a permission level: read, then write, then destructive.
pub open spec fn rank(p: PermissionLevel) -> nat {
    match p {
        PermissionLevel::Read => 0,
        PermissionLevel::Write => 1,
        PermissionLevel::Destructive => 2,
    }
}

fn rank_exec(p: PermissionLevel) -> (r: u8)
    ensures
        r as nat == rank(p),
{
    match p {
        PermissionLevel::Read => 0,
        PermissionLevel::Write => 1,
        PermissionLevel::Destructive => 2,
    }
}

/// The agent's errors.
#[derive(Debug, Clone, PartialEq, Eq)]
pub enum AgentError {
    /// The agent has lost its heartbeat and refuses commands.
    Lockdown,
    /// Authentication failed.
    Unauthorized,
    /// The command is malformed.
    BadRequest(String),
    /// The signed permission does not allow the command.
    Forbidden(String),
    /// Carrying out the command failed.
    Internal(String),
}

impl AgentError {
    /// The error's text.
    pub open spec fn message_view(self) -> Seq<char> {
        match self {
            AgentError::Lockdown => "agent is in lockdown"@,
            AgentError::Unauthorized => "unauthorized"@,
            AgentError::BadRequest(m) => "bad request: "@ + m@,
            AgentError::Forbidden(m) => "forbidden: "@ + m@,
            AgentError::Internal(m) => m@,
        }
    }

    pub fn message(&self) -> (r: String)
        ensures
            r@ == self.message_view(),
    {
        match self {
            AgentError::Lockdown => "agent is in lockdown".to_string(),
            AgentError::Unauthorized => "unauthorized".to_string(),
            AgentError::BadRequest(m) => {
                let mut s = "bad request: ".to_string();
                s.append(m.as_str());
                s
            },
            AgentError::Forbidden(m) => {
                let mut s = "forbidden: ".to_string();
                s.append(m.as_str());
                s
            },
            AgentError::Internal(m) => m.clone(),
        }
    }
}

/// The text recorded for a failed command: internal failures are not
/// detailed.
pub open spec fn sanitized_view(e: AgentError) -> Seq<char> {
    match e {
        AgentError::Internal(_) => "internal error"@,
        other => other.message_view(),
    }
}

/// The text recorded in the audit log for a failed command.
pub fn sanitize_error(e: &AgentError) -> (r: String)
    ensures
        r@ == sanitized_view(*e),
{
    match e {
        AgentError::Internal(_) => "internal error".to_string(),
        other => other.message(),
    }
}

pub const UNKNOWN_COMMAND: &'static str = "unknown command type";
pub const REQUIRES: &'static str = " requires ";
pub const PERMISSION: &'static str = " permission";

/// Why `granted` does not allow `kind`, if it does not.
pub open spec fn denial_view(kind: CommandKind, granted: PermissionLevel) -> Option<Seq<char>> {
    if rank(granted) < rank(kind.required_view()) {
        Some(kind.name_view() + REQUIRES@ + (if kind.required_view() == PermissionLevel::Destructive {
            "destructive"@
        } else {
            "write"@
        }) + PERMISSION@)
    } else {
        None
    }
}

/// Decides whether a verified command of type `t`, signed with permission
/// `granted`, runs: an unknown type is a bad request, an insufficient
/// permission is forbidden with the reason.
pub fn dispatch_command(t: &str, granted: PermissionLevel) -> (r: Result<CommandKind, AgentError>)
    ensures
        match r {
            Ok(k) => command_kind_view(t@) == Some(k) && denial_view(k, granted) is None,
            Err(AgentError::BadRequest(m)) => command_kind_view(t@) is None && m@ == UNKNOWN_COMMAND@,
            Err(AgentError::Forbidden(m)) => command_kind_view(t@) matches Some(k)
                && denial_view(k, granted) == Some(m@),
            Err(_) => false,
        },
{
    let kind = match command_kind(t) {
        Some(k) => k,
        None => return Err(AgentError::BadRequest(UNKNOWN_COMMAND.to_string())),
    };
    let required = kind.required_permission();
    if rank_exec(granted) < rank_exec(required) {
        let mut m = kind.name().to_string();
        m.append(REQUIRES);
        match required {
            PermissionLevel::Destructive => m.append("destructive"),
            _ => m.append("write"),
        }
        m.append(PERMISSION);
        return Err(AgentError::Forbidden(m));
    }
    Ok(kind)
}

/// How a command's outcome is recorded.
#[derive(Debug, Clone, Copy, PartialEq, Eq)]
pub enum AuditResult {
    Success,
    Rejected,
    Failed,
}

/// A command that succeeded is a success; one refused as malformed,
/// unauthorized or forbidden is rejected; any other failure failed.
pub open spec fn audit_result_view(outcome: Option<AgentError>) -> AuditResult {
    match outcome {
        None => AuditResult::Success,
        Some(AgentError::BadRequest(_)) => AuditResult::Rejected,
        Some(AgentError::Unauthorized) => AuditResult::Rejected,
        Some(AgentError::Forbidden(_)) => AuditResult::Rejected,
        Some(_) => AuditResult::Failed,
    }
}

/// The audit result of a command's outcome (`None` when it succeeded).
pub fn audit_result(outcome: Option<&AgentError>) -> (r: AuditResult)
    ensures
        r == audit_result_view(match outcome {
            Some(e) => Some(*e),
            None => None,
        }),
{
    match outcome {
        None => AuditResult::Success,
        Some(AgentError::BadRequest(_)) | Some(AgentError::Unauthorized) | Some(AgentError::Forbidden(_)) => AuditResult::Rejected,
        Some(_) => AuditResult::Failed,
    }
}

} // verus!
