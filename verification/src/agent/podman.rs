//! Tenant isolation with rootless Podman: the commands the agent runs for a
//! tenant, and the decisions between them.  Each organization gets a
//! `lynx-tenant-<id>` system user with its own subuid/subgid range.
use vstd::prelude::*;
use crate::text::{join, join_exec};

verus! {

pub const TENANT_PREFIX: &'static str = "lynx-tenant-";
pub const SUBID_COUNT: &'static str = "65536";

/// The system user of a tenant.
pub fn tenant_username(tenant_id: &str) -> (r: String)
    ensures
        r@ == TENANT_PREFIX@ + tenant_id@,
{
    let mut s = TENANT_PREFIX.to_string();
    s.append(tenant_id);
    s
}

/// A program and its arguments.
#[derive(Debug, Clone)]
pub struct HostCommand {
    pub program: String,
    pub args: Vec<String>,
}

fn strings(parts: &[&str]) -> (r: Vec<String>)
    ensures
        r@.len() == parts@.len(),
        forall|i: int| 0 <= i < parts@.len() ==> (#[trigger] r@[i])@ == parts@[i]@,
{
    let mut r: Vec<String> = Vec::new();
    let mut i: usize = 0;
    while i < parts.len()
        invariant
            i <= parts@.len(),
            r@.len() == i,
            forall|k: int| 0 <= k < i ==> (#[trigger] r@[k])@ == parts@[k]@,
        decreases parts@.len() - i,
    {
        r.push(parts[i].to_string());
        i = i + 1;
    }
    r
}

/// `podman <args>` run as the tenant's user through `runuser`.
pub open spec fn tenant_podman_spec(tenant_id: Seq<char>, args: Seq<Seq<char>>) -> (Seq<char>, Seq<Seq<char>>) {
    ("runuser"@, seq!["-l"@, TENANT_PREFIX@ + tenant_id, "-c"@, "podman "@ + join(args, " "@)])
}

/// Run a Podman command as a specific tenant user via `runuser`.
pub fn podman_as_tenant(tenant_id: &str, args: &Vec<String>) -> (r: HostCommand)
    ensures
        (r.program@, r.args.deep_view()) == tenant_podman_spec(tenant_id@, args.deep_view()),
{
    let mut line = "podman ".to_string();
    let joined = join_exec(args, " ");
    line.append(joined.as_str());
    let mut a: Vec<String> = Vec::new();
    a.push("-l".to_string());
    a.push(tenant_username(tenant_id));
    a.push("-c".to_string());
    a.push(line);
    let r = HostCommand { program: "runuser".to_string(), args: a };
    assert(r.args.deep_view() =~= tenant_podman_spec(tenant_id@, args.deep_view()).1);
    r
}

// ---------------------------------------------------------------------------
// Tenant user
// ---------------------------------------------------------------------------

/// Where making sure a tenant's user exists stands.
#[derive(Debug, Clone, Copy, PartialEq, Eq)]
pub enum TenantUserStep {
    /// Ask whether the user exists.
    CheckUser,
    /// Create the system user.
    CreateUser,
    /// Give it a subuid range.
    AddSubuids,
    /// Give it a subgid range.
    AddSubgids,
    /// Nothing left to do.
    Done,
}

/// The command each step runs for user `username`.
pub open spec fn tenant_user_command_spec(step: TenantUserStep, username: Seq<char>) -> Option<(Seq<char>, Seq<Seq<char>>)> {
    match step {
        TenantUserStep::CheckUser => Some(("id"@, seq![username])),
        TenantUserStep::CreateUser => Some(("useradd"@, seq!["--system"@, "--no-create-home"@, "--shell"@, "/usr/sbin/nologin"@, username])),
        TenantUserStep::AddSubuids => Some(("usermod"@, seq!["--add-subuids"@, SUBID_COUNT@, username])),
        TenantUserStep::AddSubgids => Some(("usermod"@, seq!["--add-subgids"@, SUBID_COUNT@, username])),
        TenantUserStep::Done => None,
    }
}

pub fn tenant_user_command(step: TenantUserStep, username: &str) -> (r: Option<HostCommand>)
    ensures
        match r {
            Some(c) => tenant_user_command_spec(step, username@) == Some((c.program@, c.args.deep_view())),
            None => tenant_user_command_spec(step, username@) is None,
        },
{
    let (program, args) = match step {
        TenantUserStep::CheckUser => ("id", strings(&[username])),
        TenantUserStep::CreateUser => ("useradd", strings(&["--system", "--no-create-home", "--shell", "/usr/sbin/nologin", username])),
        TenantUserStep::AddSubuids => ("usermod", strings(&["--add-subuids", SUBID_COUNT, username])),
        TenantUserStep::AddSubgids => ("usermod", strings(&["--add-subgids", SUBID_COUNT, username])),
        TenantUserStep::Done => return None,
    };
    let c = HostCommand { program: program.to_string(), args };
    assert(c.args.deep_view() =~= tenant_user_command_spec(step, username@)->Some_0.1);
    Some(c)
}

/// The step after `step`, given whether its command succeeded: an existing
/// user needs nothing more; a missing one is created and given its
/// subordinate id ranges; a failed creation or range assignment is an error.
pub open spec fn tenant_user_next_spec(step: TenantUserStep, succeeded: bool, username: Seq<char>) -> Result<TenantUserStep, Seq<char>> {
    match step {
        TenantUserStep::CheckUser => Ok(if succeeded { TenantUserStep::Done } else { TenantUserStep::CreateUser }),
        TenantUserStep::CreateUser => if succeeded {
            Ok(TenantUserStep::AddSubuids)
        } else {
            Err("useradd failed for "@ + username)
        },
        TenantUserStep::AddSubuids => if succeeded {
            Ok(TenantUserStep::AddSubgids)
        } else {
            Err("usermod --add-subuids failed for "@ + username)
        },
        TenantUserStep::AddSubgids => if succeeded {
            Ok(TenantUserStep::Done)
        } else {
            Err("usermod --add-subgids failed for "@ + username)
        },
        TenantUserStep::Done => Ok(TenantUserStep::Done),
    }
}

pub fn tenant_user_next(step: TenantUserStep, succeeded: bool, username: &str) -> (r: Result<TenantUserStep, String>)
    ensures
        match r {
            Ok(s) => tenant_user_next_spec(step, succeeded, username@) == Ok::<TenantUserStep, Seq<char>>(s),
            Err(m) => tenant_user_next_spec(step, succeeded, username@) == Err::<TenantUserStep, Seq<char>>(m@),
        },
{
    let prefix = match step {
        TenantUserStep::CheckUser => {
            return Ok(if succeeded { TenantUserStep::Done } else { TenantUserStep::CreateUser });
        },
        TenantUserStep::CreateUser => {
            if succeeded {
                return Ok(TenantUserStep::AddSubuids);
            }
            "useradd failed for "
        },
        TenantUserStep::AddSubuids => {
            if succeeded {
                return Ok(TenantUserStep::AddSubgids);
            }
            "usermod --add-subuids failed for "
        },
        TenantUserStep::AddSubgids => {
            if succeeded {
                return Ok(TenantUserStep::Done);
            }
            "usermod --add-subgids failed for "
        },
        TenantUserStep::Done => return Ok(TenantUserStep::Done),
    };
    let mut m = prefix.to_string();
    m.append(username);
    Err(m)
}

// ---------------------------------------------------------------------------
// Organization network
// ---------------------------------------------------------------------------

/// Where making sure an organization's network exists stands.
#[derive(Debug, Clone, Copy, PartialEq, Eq)]
pub enum OrgNetworkStep {
    /// Ask whether the network exists.
    CheckExists,
    /// Create it as an internal network.
    Create,
    /// Nothing left to do.
    Done,
}

/// The Podman arguments of each step for network `name`.
pub open spec fn org_network_args_spec(step: OrgNetworkStep, name: Seq<char>) -> Option<Seq<Seq<char>>> {
    match step {
        OrgNetworkStep::CheckExists => Some(seq!["network"@, "exists"@, name]),
        OrgNetworkStep::Create => Some(seq!["network"@, "create"@, "--internal"@, name]),
        OrgNetworkStep::Done => None,
    }
}

pub fn org_network_args(step: OrgNetworkStep, name: &str) -> (r: Option<Vec<String>>)
    ensures
        r.deep_view() == org_network_args_spec(step, name@),
{
    let args = match step {
        OrgNetworkStep::CheckExists => strings(&["network", "exists", name]),
        OrgNetworkStep::Create => strings(&["network", "create", "--internal", name]),
        OrgNetworkStep::Done => return None,
    };
    assert(args.deep_view() =~= org_network_args_spec(step, name@)->Some_0);
    Some(args)
}

pub const NETWORK_CREATE_FAILED: &'static str = "podman network create failed: ";

/// The step after `step`, given whether its Podman command succeeded and
/// what it wrote to stderr: an existing network needs nothing; a missing
/// one is created; a failed creation is an error carrying stderr.
pub open spec fn org_network_next_spec(step: OrgNetworkStep, succeeded: bool, stderr: Seq<char>) -> Result<OrgNetworkStep, Seq<char>> {
    match step {
        OrgNetworkStep::CheckExists => Ok(if succeeded { OrgNetworkStep::Done } else { OrgNetworkStep::Create }),
        OrgNetworkStep::Create => if succeeded {
            Ok(OrgNetworkStep::Done)
        } else {
            Err(NETWORK_CREATE_FAILED@ + stderr)
        },
        OrgNetworkStep::Done => Ok(OrgNetworkStep::Done),
    }
}

/// One step of creating an isolated Podman network for an organization.
pub fn ensure_org_network(step: OrgNetworkStep, succeeded: bool, stderr: &str) -> (r: Result<OrgNetworkStep, String>)
    ensures
        match r {
            Ok(s) => org_network_next_spec(step, succeeded, stderr@) == Ok::<OrgNetworkStep, Seq<char>>(s),
            Err(m) => org_network_next_spec(step, succeeded, stderr@) == Err::<OrgNetworkStep, Seq<char>>(m@),
        },
{
    match step {
        OrgNetworkStep::CheckExists => Ok(if succeeded { OrgNetworkStep::Done } else { OrgNetworkStep::Create }),
        OrgNetworkStep::Create => if succeeded {
            Ok(OrgNetworkStep::Done)
        } else {
            let mut m = NETWORK_CREATE_FAILED.to_string();
            m.append(stderr);
            Err(m)
        },
        OrgNetworkStep::Done => Ok(OrgNetworkStep::Done),
    }
}

// ---------------------------------------------------------------------------
// Containers
// ---------------------------------------------------------------------------

/// A running container of a tenant.
#[derive(Debug, Clone)]
pub struct ContainerInfo {
    pub id: String,
    pub name: String,
    pub status: String,
    pub image: String,
}

/// The container described by one `podman ps` entry, when it has an id,
/// a first name, a status and an image.
pub fn container_info(id: Option<String>, first_name: Option<String>, status: Option<String>, image: Option<String>) -> (r: Option<ContainerInfo>)
    ensures
        match r {
            Some(c) => id == Some(c.id) && first_name == Some(c.name) && status == Some(c.status) && image == Some(c.image),
            None => id is None || first_name is None || status is None || image is None,
        },
{
    match (id, first_name, status, image) {
        (Some(id), Some(name), Some(status), Some(image)) => Some(ContainerInfo { id, name, status, image }),
        _ => None,
    }
}

} // verus!
