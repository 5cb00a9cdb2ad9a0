//! WireGuard commands of the agent: the data-plane tunnel interface that a
//! `wg.data_plane.*` command sets up or tears down, and the management
//! peer whose pre-shared key `wg.rotate_psk` replaces.
use vstd::prelude::*;
use vstd::utf8::{encode_utf8, decode_utf8, is_char_boundary};
use vstd::string::StringSliceAdditionalSpecFns;
use crate::text::{
    chars_of, find_char, find_char_exec, lines, lines_exec, push_decimal, decimal, rfind_char,
    rfind_char_exec, slice_chars, string_of, trim, trim_chars,
};

verus! {

broadcast use vstd::utf8::encode_utf8_decode_utf8;

pub const DATA_PLANE_PREFIX: &'static str = "wg-lynx-dp-";
pub const WG_CONFIG_DIR: &'static str = "/etc/wireguard/";
pub const WG_CONFIG_SUFFIX: &'static str = ".conf";
pub const MANAGEMENT_INTERFACE: &'static str = "wg-lynx-agent";
/// The data-plane listen port when the command names none.
pub const DEFAULT_DATA_PLANE_PORT: u16 = 51821;

// ---------------------------------------------------------------------------
// Interface name
// ---------------------------------------------------------------------------

/// `s` with its `-` characters removed.
pub open spec fn without_dashes(s: Seq<char>) -> Seq<char>
    decreases s.len(),
{
    if s.len() == 0 {
        s
    } else if s.last() == '-' {
        without_dashes(s.drop_last())
    } else {
        without_dashes(s.drop_last()).push(s.last())
    }
}

/// How many bytes of a tunnel id's dash-free form name its interface: at
/// most eight.
pub open spec fn suffix_bytes(tunnel_id: Seq<char>) -> int {
    let n = encode_utf8(without_dashes(tunnel_id)).len();
    if n < 8 { n as int } else { 8 }
}

/// The eight-byte cut of a tunnel id falls between two characters (it
/// always does for the hexadecimal UUIDs the dashboard sends; elsewhere
/// the cut would split a character), and the id's length fits in memory.
pub open spec fn suffix_cut_ok(tunnel_id: Seq<char>) -> bool {
    &&& encode_utf8(without_dashes(tunnel_id)).len() <= usize::MAX
    &&& is_char_boundary(encode_utf8(without_dashes(tunnel_id)), suffix_bytes(tunnel_id))
}

/// `wg-lynx-dp-` and the first eight bytes of the tunnel id without dashes.
pub open spec fn data_plane_interface_spec(tunnel_id: Seq<char>) -> Seq<char> {
    DATA_PLANE_PREFIX@ + decode_utf8(encode_utf8(without_dashes(tunnel_id)).take(suffix_bytes(tunnel_id)))
}

fn without_dashes_exec(s: &str) -> (r: String)
    ensures
        r@ == without_dashes(s@),
{
    let v = chars_of(s);
    let mut out: Vec<char> = Vec::new();
    let mut i: usize = 0;
    assert(v@.take(0) =~= Seq::<char>::empty());
    while i < v.len()
        invariant
            v@ == s@,
            i <= v@.len(),
            out@ == without_dashes(v@.take(i as int)),
        decreases v@.len() - i,
    {
        assert(v@.take(i + 1).drop_last() =~= v@.take(i as int));
        assert(v@.take(i + 1).last() == v@[i as int]);
        if v[i] != '-' {
            out.push(v[i]);
        }
        i = i + 1;
    }
    assert(v@.take(v@.len() as int) =~= v@);
    string_of(out.as_slice())
}

/// The data-plane interface of a tunnel.
pub fn data_plane_interface(tunnel_id: &str) -> (r: String)
    requires
        suffix_cut_ok(tunnel_id@),
    ensures
        r@ == data_plane_interface_spec(tunnel_id@),
{
    let d = without_dashes_exec(tunnel_id);
    let ds = d.as_str();
    assert(ds@ == without_dashes(tunnel_id@));
    assert(ds.spec_bytes() == encode_utf8(without_dashes(tunnel_id@)));
    let n = ds.len();
    let m: usize = if n < 8 { n } else { 8 };
    assert(m as int == suffix_bytes(tunnel_id@));
    let (head, _) = ds.split_at(m);
    proof {
        let b = encode_utf8(d@);
        assert(head.spec_bytes() =~= b.subrange(0, m as int));
        assert(b.take(m as int) =~= b.subrange(0, m as int));
        vstd::utf8::encode_utf8_valid_utf8(head@);
        assert(decode_utf8(encode_utf8(head@)) == head@);
    }
    let mut r = DATA_PLANE_PREFIX.to_string();
    r.append(head);
    r
}

/// Where an interface's `wg-quick` configuration lives.
pub fn wg_config_path(interface: &str) -> (r: String)
    ensures
        r@ == WG_CONFIG_DIR@ + interface@ + WG_CONFIG_SUFFIX@,
{
    let mut r = WG_CONFIG_DIR.to_string();
    r.append(interface);
    r.append(WG_CONFIG_SUFFIX);
    r
}

// ---------------------------------------------------------------------------
// Data-plane configuration
// ---------------------------------------------------------------------------

/// The peer's allowed addresses: the `/30` network of the local address
/// (`a.b.c.d/30` gives `a.b.c.0/30`), or the local address as given when
/// it has no `.`.
pub open spec fn peer_allowed_spec(local_ip_cidr: Seq<char>) -> Seq<char> {
    let base = match find_char(local_ip_cidr, '/') {
        Some(i) => local_ip_cidr.take(i),
        None => local_ip_cidr,
    };
    match rfind_char(base, '.') {
        Some(j) => base.take(j) + ".0/30"@,
        None => local_ip_cidr,
    }
}

pub fn peer_allowed_ips(local_ip_cidr: &str) -> (r: String)
    ensures
        r@ == peer_allowed_spec(local_ip_cidr@),
{
    let v = chars_of(local_ip_cidr);
    let base = match find_char_exec(v.as_slice(), '/') {
        Some(i) => slice_chars(v.as_slice(), 0, i),
        None => v,
    };
    assert(find_char(local_ip_cidr@, '/') matches Some(i) ==> base@ =~= local_ip_cidr@.take(i));
    match rfind_char_exec(base.as_slice(), '.') {
        Some(j) => {
            let p = slice_chars(base.as_slice(), 0, j);
            assert(p@ =~= base@.take(j as int));
            let mut r = string_of(p.as_slice());
            r.append(".0/30");
            r
        },
        None => local_ip_cidr.to_string(),
    }
}

/// The listen port a command asks for, as the agent reads it: the number
/// cut to 16 bits, 51821 when none is given.
pub open spec fn listen_port_spec(requested: Option<u64>) -> u16 {
    match requested {
        Some(p) => p as u16,
        None => DEFAULT_DATA_PLANE_PORT,
    }
}

pub fn listen_port(requested: Option<u64>) -> (r: u16)
    ensures
        r == listen_port_spec(requested),
{
    match requested {
        Some(p) => p as u16,
        None => DEFAULT_DATA_PLANE_PORT,
    }
}

/// The `wg-quick` configuration of a data-plane interface.
pub open spec fn data_plane_config_spec(
    private_key: Seq<char>,
    local_ip_cidr: Seq<char>,
    port: u16,
    peer_pubkey: Seq<char>,
    psk: Seq<char>,
    peer_endpoint: Option<Seq<char>>,
) -> Seq<char> {
    "[Interface]\nPrivateKey = "@ + private_key
        + "\nAddress = "@ + local_ip_cidr
        + "\nListenPort = "@ + decimal(port as nat)
        + "\n\n[Peer]\nPublicKey = "@ + peer_pubkey
        + "\nPresharedKey = "@ + psk
        + "\nAllowedIPs = "@ + peer_allowed_spec(local_ip_cidr)
        + "\n"@
        + match peer_endpoint {
            Some(e) => "Endpoint = "@ + e + "\n"@,
            None => Seq::empty(),
        }
}

/// Everything `wg.data_plane.setup` writes and brings up.
#[derive(Debug, Clone)]
pub struct DataPlaneSetup {
    pub interface: String,
    pub config_path: String,
    pub config: String,
}

/// The interface, configuration file and configuration text of a
/// data-plane tunnel.
pub fn plan_data_plane_setup(
    tunnel_id: &str,
    private_key: &str,
    local_ip_cidr: &str,
    peer_pubkey: &str,
    psk: &str,
    wg_port: Option<u64>,
    peer_endpoint: Option<&str>,
) -> (r: DataPlaneSetup)
    requires
        suffix_cut_ok(tunnel_id@),
    ensures
        r.interface@ == data_plane_interface_spec(tunnel_id@),
        r.config_path@ == WG_CONFIG_DIR@ + r.interface@ + WG_CONFIG_SUFFIX@,
        r.config@ == data_plane_config_spec(
            private_key@,
            local_ip_cidr@,
            listen_port_spec(wg_port),
            peer_pubkey@,
            psk@,
            match peer_endpoint {
                Some(e) => Some(e@),
                None => None,
            },
        ),
{
    let interface = data_plane_interface(tunnel_id);
    let config_path = wg_config_path(interface.as_str());
    let port = listen_port(wg_port);
    let allowed = peer_allowed_ips(local_ip_cidr);
    let mut c = "[Interface]\nPrivateKey = ".to_string();
    c.append(private_key);
    c.append("\nAddress = ");
    c.append(local_ip_cidr);
    c.append("\nListenPort = ");
    push_decimal(&mut c, port as u64);
    c.append("\n\n[Peer]\nPublicKey = ");
    c.append(peer_pubkey);
    c.append("\nPresharedKey = ");
    c.append(psk);
    c.append("\nAllowedIPs = ");
    c.append(allowed.as_str());
    c.append("\n");
    match peer_endpoint {
        Some(e) => {
            c.append("Endpoint = ");
            c.append(e);
            c.append("\n");
        },
        None => {
            proof { reveal_strlit(""); }
        },
    }
    DataPlaneSetup { interface, config_path, config: c }
}

// ---------------------------------------------------------------------------
// Management peer
// ---------------------------------------------------------------------------

/// The dashboard's peer in the output of `wg show <iface> peers`: the first
/// line of the trimmed output, when it is not empty.
pub open spec fn dashboard_peer_spec(output: Seq<char>) -> Option<Seq<char>> {
    let ls = lines(trim(output));
    if ls.len() == 0 || ls[0].len() == 0 {
        None
    } else {
        Some(ls[0])
    }
}

pub fn dashboard_peer(output: &str) -> (r: Option<String>)
    ensures
        match r {
            Some(p) => dashboard_peer_spec(output@) == Some(p@),
            None => dashboard_peer_spec(output@) is None,
        },
{
    let v = chars_of(output);
    let t = trim_chars(v.as_slice());
    let ts = string_of(t.as_slice());
    let ls = lines_exec(ts.as_str());
    if ls.len() == 0 || ls[0].len() == 0 {
        return None;
    }
    assert(ls@[0]@ == lines(trim(output@))[0]);
    Some(string_of(ls[0].as_slice()))
}

/// The arguments of `wg` that give the management peer a new pre-shared
/// key, read from standard input.
pub open spec fn psk_set_args_spec(peer: Seq<char>) -> Seq<Seq<char>> {
    seq!["set"@, MANAGEMENT_INTERFACE@, "peer"@, peer, "preshared-key"@, "/dev/stdin"@]
}

pub fn psk_set_args(peer: &str) -> (r: Vec<String>)
    ensures
        r.deep_view() == psk_set_args_spec(peer@),
{
    let mut r: Vec<String> = Vec::new();
    r.push("set".to_string());
    r.push(MANAGEMENT_INTERFACE.to_string());
    r.push("peer".to_string());
    r.push(peer.to_string());
    r.push("preshared-key".to_string());
    r.push("/dev/stdin".to_string());
    assert(r.deep_view() =~= psk_set_args_spec(peer@));
    r
}

} // verus!
