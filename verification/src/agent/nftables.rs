//! The agent's host firewall: one nftables table replaced atomically.
use vstd::prelude::*;
use crate::text::{decimal, push_decimal};
use crate::dashboard::hash::{hex_encode, hex_spec, sha256, sha256_spec};

verus! {

pub const TABLE: &'static str = "lynx-agent";
pub const RESET_0: &'static str = "table inet ";
pub const RESET_1: &'static str = " {}\ndelete table inet ";
pub const RESET_2: &'static str = "\n";
pub const HEAD_0: &'static str = "\ntable inet ";
pub const HEAD_1: &'static str = " {\n    chain input {\n        type filter hook input priority 0; policy drop;\n\n        # Established/related connections\n        ct state established,related accept\n\n        # Loopback\n        iif lo accept\n\n        # WireGuard management plane\n        udp dport ";
pub const HEAD_2: &'static str = " accept\n\n        # Drop everything else\n    }\n\n    chain forward {\n        type filter hook forward priority 0; policy drop;\n";
pub const ORG_0: &'static str = "        # org ";
pub const ORG_1: &'static str = " isolation\n        ip saddr ";
pub const ORG_2: &'static str = " ip daddr != ";
pub const ORG_3: &'static str = " drop;\n";
pub const TAIL: &'static str = "    }\n\n    chain output {\n        type filter hook output priority 0; policy accept;\n    }\n}\n";

/// Full ruleset applied atomically. Never incremental.
pub struct Ruleset {
    /// WireGuard UDP port for management plane
    pub wireguard_port: u16,
    /// Per-org blocked subnets (org isolation — inter-org traffic blocked)
    pub org_networks: Vec<OrgNetwork>,
}

pub struct OrgNetwork {
    pub org_id: String,
    pub subnet: String,
}

/// The isolation rule of one organization's subnet.
pub open spec fn org_rule(o: OrgNetwork) -> Seq<char> {
    ORG_0@ + o.org_id@ + ORG_1@ + o.subnet@ + ORG_2@ + o.subnet@ + ORG_3@
}

/// The isolation rules of the first `n` organizations.
pub open spec fn org_rules(orgs: Seq<OrgNetwork>, n: int) -> Seq<char>
    decreases n,
{
    if n <= 0 { Seq::empty() } else { org_rules(orgs, n - 1) + org_rule(orgs[n - 1]) }
}

/// The opening of every script: the table is declared (so that it exists)
/// and deleted, so that the definition that follows replaces whatever the
/// table held.  `nft -f` runs the whole script as one transaction.
pub open spec fn reset_text() -> Seq<char> {
    RESET_0@ + TABLE@ + RESET_1@ + TABLE@ + RESET_2@
}

/// The table's definition: input accepts established traffic, loopback and
/// the WireGuard port and drops the rest; forwarding drops traffic leaving
/// each organization's subnet for another address; output accepts
/// everything.
pub open spec fn table_text(r: Ruleset) -> Seq<char> {
    Seq::empty() + HEAD_0@ + TABLE@ + HEAD_1@ + decimal(r.wireguard_port as nat) + HEAD_2@ + org_rules(r.org_networks@, r.org_networks@.len() as int) + TAIL@
}

/// The nftables script of a ruleset: the table reset, then its definition.
/// Applying it replaces the whole table; it never adds to what was there.
pub open spec fn ruleset_text(r: Ruleset) -> Seq<char> {
    reset_text() + table_text(r)
}

pub fn render_ruleset(r: &Ruleset) -> (out: String)
    ensures
        out@ == ruleset_text(*r),
        out@ == reset_text() + table_text(*r),
{
    let mut s = String::new();
    s.append(RESET_0);
    s.append(TABLE);
    s.append(RESET_1);
    s.append(TABLE);
    s.append(RESET_2);
    let ghost reset = s@;
    s.append(HEAD_0);
    s.append(TABLE);
    s.append(HEAD_1);
    push_decimal(&mut s, r.wireguard_port as u64);
    s.append(HEAD_2);
    let ghost head = s@;
    let mut i: usize = 0;
    while i < r.org_networks.len()
        invariant
            i <= r.org_networks@.len(),
            s@ == head + org_rules(r.org_networks@, i as int),
        decreases r.org_networks@.len() - i,
    {
        let org = &r.org_networks[i];
        s.append(ORG_0);
        s.append(org.org_id.as_str());
        s.append(ORG_1);
        s.append(org.subnet.as_str());
        s.append(ORG_2);
        s.append(org.subnet.as_str());
        s.append(ORG_3);
        assert(s@ =~= head + org_rules(r.org_networks@, i + 1));
        i = i + 1;
    }
    s.append(TAIL);
    assert(s@ =~= reset + table_text(*r));
    s
}

/// Expected checksum after applying `ruleset`: the hex SHA-256 of its script.
pub fn checksum_of(ruleset: &Ruleset) -> (r: String)
    ensures
        r@ == hex_spec(sha256_spec(vstd::utf8::encode_utf8(ruleset_text(*ruleset)))),
{
    let text = render_ruleset(ruleset);
    let d = sha256(text.as_str().as_bytes());
    hex_encode(d.as_slice())
}

} // verus!
