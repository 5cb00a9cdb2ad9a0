//! Firewall rules managed from the dashboard and their nftables rendering.
use vstd::prelude::*;
use crate::dashboard::error::{AppError, Result};
use crate::text::{chars_of, count_char, count_char_exec, decimal_int, join, join_exec, push_int, str_eq};

verus! {

/// A stored firewall rule.  Identifiers are the 128-bit values of the UUIDs
/// and times are Unix timestamps in microseconds.
#[derive(Debug, Clone)]
pub struct NftRule {
    pub id: u128,
    pub scope: String,
    pub agent_id: Option<u128>,
    pub kind: String,
    pub port: Option<i32>,
    pub protocol: Option<String>,
    pub ip_list: Vec<String>,
    pub ip_version: String,
    pub rate_per_min: Option<i32>,
    pub description: Option<String>,
    pub priority: i32,
    pub enabled: bool,
    pub created_by: Option<u128>,
    pub created_at: i64,
    pub updated_at: i64,
}

/// A request to create a rule.
#[derive(Debug, Clone)]
pub struct CreateRuleRequest {
    pub kind: String,
    pub port: Option<i32>,
    pub protocol: Option<String>,
    pub ip_list: Option<Vec<String>>,
    pub ip_version: Option<String>,
    pub rate_per_min: Option<i32>,
    pub description: Option<String>,
    pub priority: Option<i32>,
}

// ---------------------------------------------------------------------------
// Specification
// ---------------------------------------------------------------------------

/// `accept` for the allow kinds, `drop` otherwise.
pub open spec fn verdict_text(kind: Seq<char>) -> Seq<char> {
    if kind == "allow_port"@ || kind == "allow_ip"@ { "accept"@ } else { "drop"@ }
}

/// The protocol keywords a rule expands to.
pub open spec fn protocols(protocol: Seq<char>) -> Seq<Seq<char>> {
    if protocol == "tcp"@ {
        seq!["tcp"@]
    } else if protocol == "udp"@ {
        seq!["udp"@]
    } else {
        seq!["tcp"@, "udp"@]
    }
}

/// `ip6` for addresses holding a `:`, `ip` otherwise.
pub open spec fn family(ip: Seq<char>) -> Seq<char> {
    if count_char(ip, ':') > 0 { "ip6"@ } else { "ip"@ }
}

/// The source-address prefixes of a rule: one per listed address, or a
/// single empty prefix when no address is listed.
pub open spec fn saddr_prefixes(ips: Seq<Seq<char>>) -> Seq<Seq<char>> {
    if ips.len() == 0 {
        seq![Seq::empty()]
    } else {
        Seq::new(ips.len(), |i: int| family(ips[i]) + " saddr "@ + ips[i] + " "@)
    }
}

/// Every combination of a protocol keyword and a source prefix, protocols
/// outermost, rendered by `line`.
pub open spec fn cross(protos: Seq<Seq<char>>, prefixes: Seq<Seq<char>>, tail: Seq<char>) -> Seq<Seq<char>> {
    Seq::new(protos.len() * prefixes.len(), |n: int|
        prefixes[n % prefixes.len() as int] + protos[n / prefixes.len() as int] + tail)
}

/// The protocol a rule names, `both` when it names none.
pub open spec fn rule_protocol(p: Option<String>) -> Seq<char> {
    match p {
        Some(s) => s@,
        None => "both"@,
    }
}

/// Lines for `allow_port` / `block_port`.
pub open spec fn port_lines(kind: Seq<char>, port: Option<i32>, protocol: Seq<char>, ips: Seq<Seq<char>>) -> Seq<Seq<char>> {
    match port {
        None => Seq::empty(),
        Some(p) => cross(protocols(protocol), saddr_prefixes(ips),
            " dport "@ + decimal_int(p as int) + " "@ + verdict_text(kind)),
    }
}

/// Lines for `allow_ip` / `block_ip`.
pub open spec fn ip_lines(kind: Seq<char>, ips: Seq<Seq<char>>) -> Seq<Seq<char>> {
    Seq::new(ips.len(), |i: int| family(ips[i]) + " saddr "@ + ips[i] + " "@ + verdict_text(kind))
}

/// Lines for `rate_limit`.
pub open spec fn rate_lines(port: Option<i32>, rate: Option<i32>, protocol: Seq<char>, ips: Seq<Seq<char>>) -> Seq<Seq<char>> {
    match (port, rate) {
        (Some(p), Some(r)) => cross(protocols(protocol), saddr_prefixes(ips),
            " dport "@ + decimal_int(p as int) + " limit rate "@ + decimal_int(r as int) + "/minute accept"@),
        _ => Seq::empty(),
    }
}

/// The nftables lines of one rule.
pub open spec fn rule_lines_spec(kind: Seq<char>, port: Option<i32>, protocol: Seq<char>, ips: Seq<Seq<char>>, rate: Option<i32>) -> Seq<Seq<char>> {
    if kind == "allow_port"@ || kind == "block_port"@ {
        port_lines(kind, port, protocol, ips)
    } else if kind == "allow_ip"@ || kind == "block_ip"@ {
        ip_lines(kind, ips)
    } else if kind == "rate_limit"@ {
        rate_lines(port, rate, protocol, ips)
    } else {
        Seq::empty()
    }
}

/// The nftables lines of a stored rule.
pub open spec fn nft_rule_lines(r: NftRule) -> Seq<Seq<char>> {
    rule_lines_spec(r.kind@, r.port, rule_protocol(r.protocol), r.ip_list.deep_view(), r.rate_per_min)
}

/// A rate-limit rule on port `p` with rate `r` renders at least one line,
/// and every line it renders ends with `dport <p> limit rate <r>/minute
/// accept`: its traffic is accepted only under the rate limit, never
/// unconditionally.
pub proof fn rate_limit_lines_are_limited(p: i32, r: i32, protocol: Seq<char>, ips: Seq<Seq<char>>)
    ensures
        ({
            let lines = rule_lines_spec("rate_limit"@, Some(p), protocol, ips, Some(r));
            let sfx = " dport "@ + decimal_int(p as int) + " limit rate "@ + decimal_int(r as int) + "/minute accept"@;
            &&& lines.len() > 0
            &&& forall|i: int| 0 <= i < lines.len() ==>
                    (#[trigger] lines[i]).len() >= sfx.len() && lines[i].skip(lines[i].len() - sfx.len()) == sfx
        }),
{
    reveal_strlit("rate_limit");
    reveal_strlit("allow_port");
    reveal_strlit("block_port");
    reveal_strlit("allow_ip");
    reveal_strlit("block_ip");
    assert("rate_limit"@ != "allow_port"@ && "rate_limit"@ != "block_port"@) by {
        assert("rate_limit"@[0] != "allow_port"@[0]);
        assert("rate_limit"@[0] != "block_port"@[0]);
    }
    assert("rate_limit"@ != "allow_ip"@ && "rate_limit"@ != "block_ip"@) by {
        assert("rate_limit"@.len() != "allow_ip"@.len());
        assert("rate_limit"@.len() != "block_ip"@.len());
    }
    let lines = rule_lines_spec("rate_limit"@, Some(p), protocol, ips, Some(r));
    let sfx = " dport "@ + decimal_int(p as int) + " limit rate "@ + decimal_int(r as int) + "/minute accept"@;
    let protos = protocols(protocol);
    let prefixes = saddr_prefixes(ips);
    assert(lines == cross(protos, prefixes, sfx));
    assert(protos.len() >= 1);
    assert(prefixes.len() >= 1);
    assert(protos.len() * prefixes.len() >= 1) by (nonlinear_arith)
        requires protos.len() >= 1, prefixes.len() >= 1;
    assert forall|i: int| 0 <= i < lines.len() implies
        (#[trigger] lines[i]).len() >= sfx.len() && lines[i].skip(lines[i].len() - sfx.len()) == sfx by {
        let a = prefixes[i % prefixes.len() as int] + protos[i / prefixes.len() as int];
        assert(lines[i] =~= a + sfx);
        assert((a + sfx).skip(a.len() as int) =~= sfx);
    }
}

/// A port rule on port `p` gives at least one line, and each line closes
/// on `dport <p>` then `accept` for `allow_port` or `drop` for
/// `block_port`.
pub proof fn port_rule_lines_verdict(allow: bool, p: i32, protocol: Seq<char>, ips: Seq<Seq<char>>, rate: Option<i32>)
    ensures
        ({
            let kind = if allow { "allow_port"@ } else { "block_port"@ };
            let lines = rule_lines_spec(kind, Some(p), protocol, ips, rate);
            let sfx = " dport "@ + decimal_int(p as int) + (if allow { " accept"@ } else { " drop"@ });
            &&& lines.len() > 0
            &&& forall|i: int| 0 <= i < lines.len() ==>
                    (#[trigger] lines[i]).len() >= sfx.len() && lines[i].skip(lines[i].len() - sfx.len()) == sfx
        }),
{
    reveal_strlit("allow_port");
    reveal_strlit("block_port");
    reveal_strlit("allow_ip");
    reveal_strlit(" accept");
    reveal_strlit(" drop");
    reveal_strlit(" ");
    reveal_strlit("accept");
    reveal_strlit("drop");
    assert("block_port"@ != "allow_port"@ && "block_port"@ != "allow_ip"@) by {
        assert("block_port"@[0] != "allow_port"@[0]);
        assert("block_port"@[0] != "allow_ip"@[0]);
    }
    let kind = if allow { "allow_port"@ } else { "block_port"@ };
    let lines = rule_lines_spec(kind, Some(p), protocol, ips, rate);
    let verdict_part = if allow { " accept"@ } else { " drop"@ };
    assert(" "@ + verdict_text(kind) =~= verdict_part);
    let tail = " dport "@ + decimal_int(p as int) + " "@ + verdict_text(kind);
    let sfx = " dport "@ + decimal_int(p as int) + verdict_part;
    assert(tail =~= sfx);
    let protos = protocols(protocol);
    let prefixes = saddr_prefixes(ips);
    assert(lines == cross(protos, prefixes, tail));
    assert(protos.len() * prefixes.len() >= 1) by (nonlinear_arith)
        requires protos.len() >= 1, prefixes.len() >= 1;
    assert forall|i: int| 0 <= i < lines.len() implies
        (#[trigger] lines[i]).len() >= sfx.len() && lines[i].skip(lines[i].len() - sfx.len()) == sfx by {
        let a = prefixes[i % prefixes.len() as int] + protos[i / prefixes.len() as int];
        assert(lines[i] =~= a + sfx);
        assert((a + sfx).skip(a.len() as int) =~= sfx);
    }
}

/// An address rule gives one line per listed address, which matches that
/// address as source and closes on `accept` for `allow_ip` or `drop` for
/// `block_ip`.
pub proof fn ip_rule_lines_verdict(allow: bool, ips: Seq<Seq<char>>, port: Option<i32>, protocol: Seq<char>, rate: Option<i32>)
    ensures
        ({
            let kind = if allow { "allow_ip"@ } else { "block_ip"@ };
            let lines = rule_lines_spec(kind, port, protocol, ips, rate);
            &&& lines.len() == ips.len()
            &&& forall|i: int| 0 <= i < lines.len() ==>
                    (#[trigger] lines[i]) == family(ips[i]) + " saddr "@ + ips[i] + (if allow { " accept"@ } else { " drop"@ })
        }),
{
    reveal_strlit("allow_port");
    reveal_strlit("block_port");
    reveal_strlit("allow_ip");
    reveal_strlit("block_ip");
    reveal_strlit(" accept");
    reveal_strlit(" drop");
    reveal_strlit(" ");
    reveal_strlit("accept");
    reveal_strlit("drop");
    assert("allow_ip"@ != "allow_port"@ && "allow_ip"@ != "block_port"@) by {
        assert("allow_ip"@.len() != "allow_port"@.len());
        assert("allow_ip"@.len() != "block_port"@.len());
    }
    assert("block_ip"@ != "allow_port"@ && "block_ip"@ != "block_port"@ && "block_ip"@ != "allow_ip"@) by {
        assert("block_ip"@.len() != "allow_port"@.len());
        assert("block_ip"@.len() != "block_port"@.len());
        assert("block_ip"@[0] != "allow_ip"@[0]);
    }
    let kind = if allow { "allow_ip"@ } else { "block_ip"@ };
    let lines = rule_lines_spec(kind, port, protocol, ips, rate);
    assert forall|i: int| 0 <= i < lines.len() implies
        (#[trigger] lines[i]) == family(ips[i]) + " saddr "@ + ips[i] + (if allow { " accept"@ } else { " drop"@ }) by {
        assert(lines[i] =~= family(ips[i]) + " saddr "@ + ips[i] + (if allow { " accept"@ } else { " drop"@ }));
    }
}

// ---------------------------------------------------------------------------
// Rendering
// ---------------------------------------------------------------------------

fn verdict(kind: &str) -> (r: &str)
    ensures
        r@ == verdict_text(kind@),
{
    if str_eq(kind, "allow_port") || str_eq(kind, "allow_ip") { "accept" } else { "drop" }
}

fn protocol_match(protocol: &str) -> (r: Vec<String>)
    ensures
        r.deep_view() == protocols(protocol@),
{
    let mut r: Vec<String> = Vec::new();
    if str_eq(protocol, "tcp") {
        r.push("tcp".to_string());
    } else if str_eq(protocol, "udp") {
        r.push("udp".to_string());
    } else {
        r.push("tcp".to_string());
        r.push("udp".to_string());
    }
    assert(r.deep_view() =~= protocols(protocol@));
    r
}

fn family_of(ip: &String) -> (r: &'static str)
    ensures
        r@ == family(ip@),
{
    let v = chars_of(ip.as_str());
    if count_char_exec(v.as_slice(), ':') > 0 { "ip6" } else { "ip" }
}

fn ip_saddr_matches(ips: &Vec<String>) -> (r: Vec<String>)
    ensures
        r@.len() > 0,
        r.deep_view() == saddr_prefixes(ips.deep_view()),
{
    let mut r: Vec<String> = Vec::new();
    if ips.len() == 0 {
        r.push(String::new());
        assert(r.deep_view() =~= saddr_prefixes(ips.deep_view()));
        return r;
    }
    let ghost target = saddr_prefixes(ips.deep_view());
    let mut i: usize = 0;
    while i < ips.len()
        invariant
            ips@.len() > 0,
            target == saddr_prefixes(ips.deep_view()),
            i <= ips@.len(),
            r.deep_view() =~= target.take(i as int),
        decreases ips@.len() - i,
    {
        let mut s = family_of(&ips[i]).to_string();
        s.append(" saddr ");
        s.append(ips[i].as_str());
        s.append(" ");
        r.push(s);
        assert(target.take(i + 1) =~= target.take(i as int).push(target[i as int]));
        i = i + 1;
    }
    assert(target.take(ips@.len() as int) =~= target);
    r
}

/// Every protocol/prefix combination followed by `tail`.
fn cross_exec(protos: &Vec<String>, prefixes: &Vec<String>, tail: &String) -> (r: Vec<String>)
    requires
        prefixes@.len() > 0,
    ensures
        r.deep_view() == cross(protos.deep_view(), prefixes.deep_view(), tail@),
{
    let ghost target = cross(protos.deep_view(), prefixes.deep_view(), tail@);
    let np = prefixes.len();
    let mut r: Vec<String> = Vec::new();
    let mut a: usize = 0;
    while a < protos.len()
        invariant
            np == prefixes@.len(),
            np > 0,
            target == cross(protos.deep_view(), prefixes.deep_view(), tail@),
            a <= protos@.len(),
            r.deep_view() =~= target.take(a * np),
        decreases protos@.len() - a,
    {
        let mut b: usize = 0;
        while b < np
            invariant
                np == prefixes@.len(),
                np > 0,
                target == cross(protos.deep_view(), prefixes.deep_view(), tail@),
                a < protos@.len(),
                b <= np,
                r.deep_view() =~= target.take(a * np + b),
            decreases np - b,
        {
            let mut s = prefixes[b].clone();
            s.append(protos[a].as_str());
            s.append(tail.as_str());
            proof {
                let n = a * np + b;
                assert(a * np + b < protos@.len() * np) by (nonlinear_arith)
                    requires a < protos@.len(), b < np;
                assert(n % (np as int) == b && n / (np as int) == a) by (nonlinear_arith)
                    requires n == a * np + b, 0 <= b < np;
                assert(target[n] == s@);
                assert(target.take(n + 1) =~= target.take(n).push(s@));
            }
            r.push(s);
            b = b + 1;
        }
        assert((a + 1) * np == a * np + np) by (nonlinear_arith);
        a = a + 1;
    }
    assert(target.len() == protos@.len() * np);
    assert(target.take(protos@.len() * np) =~= target);
    r
}

fn port_rule_lines(kind: &str, port: Option<i32>, protocol: &str, ips: &Vec<String>) -> (r: Vec<String>)
    ensures
        r.deep_view() == port_lines(kind@, port, protocol@, ips.deep_view()),
{
    match port {
        None => {
            let r: Vec<String> = Vec::new();
            assert(r.deep_view() =~= Seq::<Seq<char>>::empty());
            r
        },
        Some(p) => {
            let verd = verdict(kind);
            let mut tail = " dport ".to_string();
            push_int(&mut tail, p as i64);
            tail.append(" ");
            tail.append(verd);
            cross_exec(&protocol_match(protocol), &ip_saddr_matches(ips), &tail)
        },
    }
}

fn ip_rule_lines(kind: &str, ips: &Vec<String>) -> (r: Vec<String>)
    ensures
        r.deep_view() == ip_lines(kind@, ips.deep_view()),
{
    let verd = verdict(kind);
    let ghost target = ip_lines(kind@, ips.deep_view());
    let mut r: Vec<String> = Vec::new();
    let mut i: usize = 0;
    while i < ips.len()
        invariant
            target == ip_lines(kind@, ips.deep_view()),
            verd@ == verdict_text(kind@),
            i <= ips@.len(),
            r.deep_view() =~= target.take(i as int),
        decreases ips@.len() - i,
    {
        let mut s = family_of(&ips[i]).to_string();
        s.append(" saddr ");
        s.append(ips[i].as_str());
        s.append(" ");
        s.append(verd);
        r.push(s);
        assert(target.take(i + 1) =~= target.take(i as int).push(target[i as int]));
        i = i + 1;
    }
    assert(target.take(ips@.len() as int) =~= target);
    r
}

fn rate_limit_lines(port: Option<i32>, rate: Option<i32>, protocol: &str, ips: &Vec<String>) -> (r: Vec<String>)
    ensures
        r.deep_view() == rate_lines(port, rate, protocol@, ips.deep_view()),
{
    match (port, rate) {
        (Some(p), Some(rt)) => {
            let mut tail = " dport ".to_string();
            push_int(&mut tail, p as i64);
            tail.append(" limit rate ");
            push_int(&mut tail, rt as i64);
            tail.append("/minute accept");
            cross_exec(&protocol_match(protocol), &ip_saddr_matches(ips), &tail)
        },
        _ => {
            let r: Vec<String> = Vec::new();
            assert(r.deep_view() =~= Seq::<Seq<char>>::empty());
            r
        },
    }
}

fn rule_lines(kind: &str, port: Option<i32>, protocol: &str, ips: &Vec<String>, rate: Option<i32>) -> (r: Vec<String>)
    ensures
        r.deep_view() == rule_lines_spec(kind@, port, protocol@, ips.deep_view(), rate),
{
    if str_eq(kind, "allow_port") || str_eq(kind, "block_port") {
        port_rule_lines(kind, port, protocol, ips)
    } else if str_eq(kind, "allow_ip") || str_eq(kind, "block_ip") {
        ip_rule_lines(kind, ips)
    } else if str_eq(kind, "rate_limit") {
        rate_limit_lines(port, rate, protocol, ips)
    } else {
        let r: Vec<String> = Vec::new();
        assert(r.deep_view() =~= Seq::<Seq<char>>::empty());
        r
    }
}

fn rule_to_nft_lines(rule: &NftRule) -> (r: Vec<String>)
    ensures
        r.deep_view() == nft_rule_lines(*rule),
{
    let proto: &str = match &rule.protocol {
        Some(p) => p.as_str(),
        None => "both",
    };
    rule_lines(rule.kind.as_str(), rule.port, proto, &rule.ip_list, rule.rate_per_min)
}

/// Convert individual rule fields into nft rule lines.
/// Used for system-level command generation without constructing a full NftRule.
pub fn rule_line(
    kind: &str,
    port: Option<u16>,
    protocol: Option<&str>,
    ip_list: &[String],
    rate_per_min: Option<u32>,
) -> (r: String)
    ensures
        r@ == join(rule_lines_spec(
            kind@,
            match port { Some(p) => Some(p as i32), None => None },
            match protocol { Some(p) => p@, None => "both"@ },
            ip_list.deep_view(),
            match rate_per_min { Some(x) => Some(x as i32), None => None },
        ), "\n"@),
{
    let p32: Option<i32> = match port { Some(p) => Some(p as i32), None => None };
    let r32: Option<i32> = match rate_per_min { Some(x) => Some(x as i32), None => None };
    let proto: &str = match protocol { Some(p) => p, None => "both" };
    let mut ips: Vec<String> = Vec::new();
    let mut i: usize = 0;
    while i < ip_list.len()
        invariant
            i <= ip_list@.len(),
            ips.deep_view() =~= ip_list.deep_view().take(i as int),
        decreases ip_list@.len() - i,
    {
        ips.push(ip_list[i].clone());
        assert(ip_list.deep_view().take(i + 1) =~= ip_list.deep_view().take(i as int).push(ip_list@[i as int]@));
        i = i + 1;
    }
    assert(ip_list.deep_view().take(ip_list@.len() as int) =~= ip_list.deep_view());
    join_exec(&rule_lines(kind, p32, proto, &ips, r32), "\n")
}

// ---------------------------------------------------------------------------
// Chains
// ---------------------------------------------------------------------------

/// Inserts `x` after every rule whose priority is not above its own.
pub open spec fn insert_by_priority(s: Seq<NftRule>, x: NftRule) -> Seq<NftRule>
    decreases s.len(),
{
    if s.len() == 0 {
        seq![x]
    } else if s.last().priority <= x.priority {
        s.push(x)
    } else {
        insert_by_priority(s.drop_last(), x).push(s.last())
    }
}

/// The enabled rules of `s`, stably sorted by ascending priority.
pub open spec fn enabled_by_priority(s: Seq<NftRule>) -> Seq<NftRule>
    decreases s.len(),
{
    if s.len() == 0 {
        Seq::empty()
    } else if s.last().enabled {
        insert_by_priority(enabled_by_priority(s.drop_last()), s.last())
    } else {
        enabled_by_priority(s.drop_last())
    }
}

/// The indented lines of every rule of `s`, in order.
pub open spec fn chain_lines(s: Seq<NftRule>) -> Seq<Seq<char>>
    decreases s.len(),
{
    if s.len() == 0 {
        Seq::empty()
    } else {
        let ls = nft_rule_lines(s.last());
        chain_lines(s.drop_last()) + Seq::new(ls.len(), |i: int| "        "@ + ls[i])
    }
}

/// The chain body for a list of rules.
pub open spec fn chain_body(rules: Seq<NftRule>) -> Seq<char> {
    join(chain_lines(enabled_by_priority(rules)), "\n"@)
}

proof fn lemma_insert_sorted(s: Seq<NftRule>, x: NftRule)
    requires
        forall|i: int, j: int| 0 <= i < j < s.len() ==> s[i].priority <= s[j].priority,
    ensures
        ({
            let t = insert_by_priority(s, x);
            &&& t.len() == s.len() + 1
            &&& forall|i: int, j: int| 0 <= i < j < t.len() ==> t[i].priority <= t[j].priority
            &&& forall|i: int| 0 <= i < t.len() ==> t[i] == x || s.contains(t[i])
        }),
    decreases s.len(),
{
    if s.len() > 0 && s.last().priority > x.priority {
        let d = s.drop_last();
        assert forall|i: int, j: int| 0 <= i < j < d.len() implies d[i].priority <= d[j].priority by {
            assert(d[i] == s[i] && d[j] == s[j]);
        }
        lemma_insert_sorted(d, x);
        let u = insert_by_priority(d, x);
        assert forall|i: int| 0 <= i < u.len() implies u[i].priority <= s.last().priority by {
            if u[i] != x {
                let k = choose|k: int| 0 <= k < d.len() && d[k] == u[i];
                assert(s[k] == d[k]);
            }
        }
        assert forall|i: int| 0 <= i < u.len() implies (u[i] == x || s.contains(u[i])) by {
            if u[i] != x {
                let k = choose|k: int| 0 <= k < d.len() && d[k] == u[i];
                assert(s[k] == d[k]);
            }
        }
    } else if s.len() > 0 {
        assert forall|i: int| 0 <= i < s.len() implies s.contains(s[i]) by {}
    }
}

/// The chain holds enabled rules of the list only, in ascending priority.
pub proof fn chain_rules_sorted(s: Seq<NftRule>)
    ensures
        forall|i: int, j: int| 0 <= i < j < enabled_by_priority(s).len()
            ==> enabled_by_priority(s)[i].priority <= enabled_by_priority(s)[j].priority,
        forall|i: int| 0 <= i < enabled_by_priority(s).len()
            ==> (#[trigger] enabled_by_priority(s)[i]).enabled && s.contains(enabled_by_priority(s)[i]),
    decreases s.len(),
{
    if s.len() > 0 {
        let d = s.drop_last();
        chain_rules_sorted(d);
        let e = enabled_by_priority(d);
        assert forall|i: int| 0 <= i < e.len() implies s.contains(#[trigger] e[i]) by {
            let k = choose|k: int| 0 <= k < d.len() && d[k] == e[i];
            assert(s[k] == d[k]);
        }
        if s.last().enabled {
            lemma_insert_sorted(e, s.last());
            let t = enabled_by_priority(s);
            assert forall|i: int| 0 <= i < t.len() implies (#[trigger] t[i]).enabled && s.contains(t[i]) by {
                if t[i] == s.last() {
                    assert(s[s.len() - 1] == s.last());
                } else {
                    let k = choose|k: int| 0 <= k < e.len() && e[k] == t[i];
                    assert(e[k].enabled && s.contains(e[k]));
                }
            }
        }
    }
}

/// The enabled rules, stably sorted by priority.
fn sort_enabled(rules: &[NftRule]) -> (r: Vec<&NftRule>)
    ensures
        r@.len() == enabled_by_priority(rules@).len(),
        forall|i: int| 0 <= i < r@.len() ==> *r@[i] == enabled_by_priority(rules@)[i],
{
    let mut sorted: Vec<&NftRule> = Vec::new();
    let mut i: usize = 0;
    while i < rules.len()
        invariant
            i <= rules@.len(),
            sorted@.len() == enabled_by_priority(rules@.take(i as int)).len(),
            forall|k: int| 0 <= k < sorted@.len() ==> *sorted@[k] == enabled_by_priority(rules@.take(i as int))[k],
        decreases rules@.len() - i,
    {
        assert(rules@.take(i + 1).drop_last() =~= rules@.take(i as int));
        let x = &rules[i];
        if x.enabled {
            let ghost s = enabled_by_priority(rules@.take(i as int));
            // Find the insertion point: after every rule of priority <= x's.
            let mut j: usize = sorted.len();
            assert(s.take(j as int) =~= s);
            assert(s.skip(j as int) =~= Seq::<NftRule>::empty());
            assert(insert_by_priority(s, *x) + Seq::<NftRule>::empty() =~= insert_by_priority(s, *x));
            while j > 0 && sorted[j - 1].priority > x.priority
                invariant
                    j <= sorted@.len(),
                    sorted@.len() == s.len(),
                    forall|k: int| 0 <= k < sorted@.len() ==> *sorted@[k] == s[k],
                    insert_by_priority(s, *x) == insert_by_priority(s.take(j as int), *x) + s.skip(j as int),
                decreases j,
            {
                proof {
                    let t = s.take(j as int);
                    assert(t.last() == s[j - 1]);
                    assert(t.drop_last() =~= s.take(j - 1));
                    assert(seq![s[j - 1]] + s.skip(j as int) =~= s.skip(j - 1));
                    assert(insert_by_priority(t, *x) == insert_by_priority(s.take(j - 1), *x).push(s[j - 1]));
                    assert(insert_by_priority(s.take(j - 1), *x).push(s[j - 1]) + s.skip(j as int)
                        =~= insert_by_priority(s.take(j - 1), *x) + s.skip(j - 1));
                }
                j = j - 1;
            }
            proof {
                let t = s.take(j as int);
                if j > 0 {
                    assert(t.last() == s[j - 1]);
                    assert(insert_by_priority(t, *x) == t.push(*x));
                } else {
                    assert(t =~= Seq::<NftRule>::empty());
                }
            }
            let ghost before = sorted@;
            sorted.insert(j, x);
            proof {
                let t = enabled_by_priority(rules@.take(i + 1));
                assert(t == insert_by_priority(s, *x));
                assert(t =~= s.take(j as int).push(*x) + s.skip(j as int));
                assert forall|k: int| 0 <= k < sorted@.len() implies *sorted@[k] == t[k] by {
                    if k < j {
                        assert(sorted@[k] == before[k]);
                    } else if k > j {
                        assert(sorted@[k] == before[k - 1]);
                    }
                }
            }
        }
        i = i + 1;
    }
    assert(rules@.take(rules@.len() as int) =~= rules@);
    sorted
}

/// Convert a list of NftRules into the body of an nftables chain.
/// Returns lines suitable for insertion inside `chain <name> { ... }`.
pub fn rules_to_nft_chain(rules: &[NftRule]) -> (r: String)
    ensures
        r@ == chain_body(rules@),
{
    let sorted = sort_enabled(rules);
    let ghost es = enabled_by_priority(rules@);
    let mut lines: Vec<String> = Vec::new();
    let mut i: usize = 0;
    assert(es.take(0) =~= Seq::<NftRule>::empty());
    assert(lines.deep_view() =~= Seq::<Seq<char>>::empty());
    while i < sorted.len()
        invariant
            es == enabled_by_priority(rules@),
            sorted@.len() == es.len(),
            forall|k: int| 0 <= k < sorted@.len() ==> *sorted@[k] == es[k],
            i <= es.len(),
            lines.deep_view() == chain_lines(es.take(i as int)),
        decreases es.len() - i,
    {
        assert(es.take(i + 1).drop_last() =~= es.take(i as int));
        let rl = rule_to_nft_lines(sorted[i]);
        let ghost before = lines.deep_view();
        let ghost ls = nft_rule_lines(es[i as int]);
        let mut k: usize = 0;
        while k < rl.len()
            invariant
                rl.deep_view() == ls,
                k <= ls.len(),
                lines.deep_view() =~= before + Seq::new(ls.len(), |m: int| "        "@ + ls[m]).take(k as int),
            decreases ls.len() - k,
        {
            let mut s = "        ".to_string();
            s.append(rl[k].as_str());
            let ghost lb = lines.deep_view();
            lines.push(s);
            proof {
                let full = Seq::new(ls.len(), |m: int| "        "@ + ls[m]);
                assert(s@ == full[k as int]);
                assert(full.take(k + 1) =~= full.take(k as int).push(full[k as int]));
                assert(lines.deep_view() =~= lb.push(s@));
            }
            k = k + 1;
        }
        assert(Seq::new(ls.len(), |m: int| "        "@ + ls[m]).take(ls.len() as int) =~= Seq::new(ls.len(), |m: int| "        "@ + ls[m]));
        i = i + 1;
    }
    assert(es.take(es.len() as int) =~= es);
    join_exec(&lines, "\n")
}

// ---------------------------------------------------------------------------
// Request validation
// ---------------------------------------------------------------------------

/// The reason a rule request is refused, if it is.
pub open spec fn rule_request_error(req: CreateRuleRequest) -> Option<Seq<char>> {
    let k = req.kind@;
    if !(k == "allow_port"@ || k == "block_port"@ || k == "allow_ip"@ || k == "block_ip"@ || k == "rate_limit"@) {
        Some("invalid rule kind"@)
    } else if (k == "allow_port"@ || k == "block_port"@ || k == "rate_limit"@) && req.port is None {
        Some("port required for this rule kind"@)
    } else if k == "rate_limit"@ && req.rate_per_min is None {
        Some("rate_per_min required for rate_limit"@)
    } else if req.protocol matches Some(p) && !(p@ == "tcp"@ || p@ == "udp"@ || p@ == "both"@) {
        Some("invalid protocol"@)
    } else if req.ip_version matches Some(v) && !(v@ == "ipv4"@ || v@ == "ipv6"@ || v@ == "both"@) {
        Some("invalid ip_version"@)
    } else {
        None
    }
}

fn refuse(msg: &str) -> (r: Result<()>)
    ensures
        r matches Err(AppError::Validation(m)) && m@ == msg@,
{
    Err(AppError::Validation(msg.to_string()))
}

pub fn validate_rule_request(req: &CreateRuleRequest) -> (r: Result<()>)
    ensures
        match r {
            Ok(()) => rule_request_error(*req) is None,
            Err(AppError::Validation(m)) => rule_request_error(*req) == Some(m@),
            Err(_) => false,
        },
{
    let k = req.kind.as_str();
    if !(str_eq(k, "allow_port") || str_eq(k, "block_port") || str_eq(k, "allow_ip") || str_eq(k, "block_ip") || str_eq(k, "rate_limit")) {
        return refuse("invalid rule kind");
    }
    if (str_eq(k, "allow_port") || str_eq(k, "block_port") || str_eq(k, "rate_limit")) && req.port.is_none() {
        return refuse("port required for this rule kind");
    }
    if str_eq(k, "rate_limit") && req.rate_per_min.is_none() {
        return refuse("rate_per_min required for rate_limit");
    }
    if let Some(proto) = &req.protocol {
        if !(str_eq(proto.as_str(), "tcp") || str_eq(proto.as_str(), "udp") || str_eq(proto.as_str(), "both")) {
            return refuse("invalid protocol");
        }
    }
    if let Some(ver) = &req.ip_version {
        if !(str_eq(ver.as_str(), "ipv4") || str_eq(ver.as_str(), "ipv6") || str_eq(ver.as_str(), "both")) {
            return refuse("invalid ip_version");
        }
    }
    Ok(())
}

} // verus!
