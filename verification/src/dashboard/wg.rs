//! The dashboard's WireGuard interface: the `wg` commands that add, update
//! and remove an agent's peer.
use vstd::prelude::*;

verus! {

pub const DASHBOARD_INTERFACE: &'static str = "wg-lynx-dash";

/// `wg set wg-lynx-dash peer <key> preshared-key /dev/stdin allowed-ips
/// <ip>/32`: the agent's peer, its pre-shared key read from standard input,
/// routed to its single address.
pub open spec fn add_peer_args_spec(pubkey: Seq<char>, allowed_ip: Seq<char>) -> Seq<Seq<char>> {
    seq!["set"@, DASHBOARD_INTERFACE@, "peer"@, pubkey, "preshared-key"@, "/dev/stdin"@, "allowed-ips"@, allowed_ip + "/32"@]
}

pub fn add_peer_args(pubkey: &str, allowed_ip: &str) -> (r: Vec<String>)
    ensures
        r.deep_view() == add_peer_args_spec(pubkey@, allowed_ip@),
{
    let mut ip = allowed_ip.to_string();
    ip.append("/32");
    let mut r: Vec<String> = Vec::new();
    r.push("set".to_string());
    r.push(DASHBOARD_INTERFACE.to_string());
    r.push("peer".to_string());
    r.push(pubkey.to_string());
    r.push("preshared-key".to_string());
    r.push("/dev/stdin".to_string());
    r.push("allowed-ips".to_string());
    r.push(ip);
    assert(r.deep_view() =~= add_peer_args_spec(pubkey@, allowed_ip@));
    r
}

/// `wg set wg-lynx-dash peer <key> preshared-key /dev/stdin`: a new
/// pre-shared key for an existing peer.
pub open spec fn peer_psk_args_spec(pubkey: Seq<char>) -> Seq<Seq<char>> {
    seq!["set"@, DASHBOARD_INTERFACE@, "peer"@, pubkey, "preshared-key"@, "/dev/stdin"@]
}

pub fn peer_psk_args(pubkey: &str) -> (r: Vec<String>)
    ensures
        r.deep_view() == peer_psk_args_spec(pubkey@),
{
    let mut r: Vec<String> = Vec::new();
    r.push("set".to_string());
    r.push(DASHBOARD_INTERFACE.to_string());
    r.push("peer".to_string());
    r.push(pubkey.to_string());
    r.push("preshared-key".to_string());
    r.push("/dev/stdin".to_string());
    assert(r.deep_view() =~= peer_psk_args_spec(pubkey@));
    r
}

/// `wg set wg-lynx-dash peer <key> remove`.
pub open spec fn remove_peer_args_spec(pubkey: Seq<char>) -> Seq<Seq<char>> {
    seq!["set"@, DASHBOARD_INTERFACE@, "peer"@, pubkey, "remove"@]
}

pub fn remove_peer_args(pubkey: &str) -> (r: Vec<String>)
    ensures
        r.deep_view() == remove_peer_args_spec(pubkey@),
{
    let mut r: Vec<String> = Vec::new();
    r.push("set".to_string());
    r.push(DASHBOARD_INTERFACE.to_string());
    r.push("peer".to_string());
    r.push(pubkey.to_string());
    r.push("remove".to_string());
    assert(r.deep_view() =~= remove_peer_args_spec(pubkey@));
    r
}

} // verus!
