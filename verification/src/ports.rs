//! Port mapping parser.
//!
//! Handles all docker-compose port format variants and normalises them into
//! `ParsedPort` records (one per published container port).
use vstd::prelude::*;
use crate::compose::types::{PortMapping, StringOrU16};
use crate::error::{ComposeError, Result};
use crate::text::{
    chars_of, count_char, count_char_exec, find_char, find_char_exec, parse_u16, parse_uint_exec,
    push_chars, rfind_char, rfind_char_exec, slice_chars, string_of, trim, trim_chars, decimal,
    decimal_string, str_eq, all_digits, is_digit, is_ws, lemma_decimal_digits, lemma_find_char_props,
    lemma_parse_decimal, lemma_rfind_char_props, lemma_trim_idx, trim_end_idx, trim_start_idx,
};

verus! {

/// A parsed, normalized port binding.
#[derive(Debug, Clone)]
pub struct ParsedPort {
    /// Container port number.
    pub container_port: u16,
    /// Protocol (`tcp` or `udp`).
    pub protocol: String,
    /// Host IP (may be empty to mean all interfaces).
    pub host_ip: String,
    /// Host port (`None` means random / ephemeral).
    pub host_port: Option<u16>,
}

/// Mathematical value of a [`ParsedPort`].
pub struct ParsedPortView {
    pub container_port: u16,
    pub protocol: Seq<char>,
    pub host_ip: Seq<char>,
    pub host_port: Option<u16>,
}

impl View for ParsedPort {
    type V = ParsedPortView;

    open spec fn view(&self) -> ParsedPortView {
        ParsedPortView {
            container_port: self.container_port,
            protocol: self.protocol@,
            host_ip: self.host_ip@,
            host_port: self.host_port,
        }
    }
}

impl DeepView for ParsedPort {
    type V = ParsedPortView;

    open spec fn deep_view(&self) -> ParsedPortView {
        self@
    }
}

// ---------------------------------------------------------------------------
// Specification
// ---------------------------------------------------------------------------

/// The ports `a, a+1, ..., b`.
pub open spec fn port_span(a: u16, b: u16) -> Seq<u16> {
    Seq::new((b - a + 1) as nat, |k: int| (a + k) as u16)
}

/// `start-end` or a single port, after trimming; `Err` carries the message.
pub open spec fn port_range_spec(s: Seq<char>) -> core::result::Result<Seq<u16>, Seq<char>> {
    let t = trim(s);
    match find_char(t, '-') {
        Some(i) => match (parse_u16(t.take(i)), parse_u16(t.skip(i + 1))) {
            (Some(a), Some(b)) => if a > b {
                Err("start > end in range: "@ + t)
            } else {
                Ok(port_span(a, b))
            },
            _ => Err("bad port: "@ + t),
        },
        None => match parse_u16(t) {
            Some(p) => Ok(seq![p]),
            None => Err("bad port: "@ + t),
        },
    }
}

/// Host ports paired with container ports; a single host port pairs with the
/// first container port only.
pub open spec fn zip_ports(h: Seq<u16>, c: Seq<u16>, proto: Seq<char>, ip: Seq<char>) -> Seq<ParsedPortView> {
    Seq::new(
        if h.len() <= c.len() { h.len() } else { c.len() },
        |k: int| ParsedPortView { container_port: c[k], protocol: proto, host_ip: ip, host_port: Some(h[k]) },
    )
}

/// Container-only ports (no host side).
pub open spec fn bare_ports(c: Seq<u16>, proto: Seq<char>) -> Seq<ParsedPortView> {
    Seq::new(c.len(), |k: int| ParsedPortView { container_port: c[k], protocol: proto, host_ip: Seq::empty(), host_port: None })
}

/// The `(rest, protocol)` split of a short port string at its last `/`.
pub open spec fn split_proto(s: Seq<char>) -> (Seq<char>, Seq<char>) {
    match rfind_char(s, '/') {
        Some(i) => (s.take(i), s.skip(i + 1)),
        None => (s, "tcp"@),
    }
}

/// Host side and container side with an optional IP, or `None` when the
/// specification cannot be split.
pub open spec fn split_host_container(rest: Seq<char>) -> Option<(Seq<char>, Seq<char>, Seq<char>)> {
    if count_char(rest, ':') == 1 {
        match rfind_char(rest, ':') {
            Some(j) => Some((Seq::empty(), rest.take(j), rest.skip(j + 1))),
            None => Some((Seq::empty(), Seq::empty(), rest)),
        }
    } else {
        match find_char(rest, ':') {
            Some(j1) => {
                let r2 = rest.skip(j1 + 1);
                match find_char(r2, ':') {
                    Some(j2) => Some((rest.take(j1), r2.take(j2), r2.skip(j2 + 1))),
                    None => None,
                }
            },
            None => None,
        }
    }
}

/// The short port syntax: `container`, `host:container`, `ip:host:container`,
/// each side possibly a `start-end` range, with an optional `/proto` suffix.
pub open spec fn short_port_spec(s: Seq<char>) -> core::result::Result<Seq<ParsedPortView>, Seq<char>> {
    let (rest, proto) = split_proto(s);
    if count_char(rest, ':') == 0 {
        match port_range_spec(rest) {
            Err(m) => Err(m),
            Ok(c) => Ok(bare_ports(c, proto)),
        }
    } else {
        match split_host_container(rest) {
            None => Err("invalid port spec: "@ + s),
            Some((ip, hs, cs)) => match port_range_spec(hs) {
                Err(m) => Err(m),
                Ok(h) => match port_range_spec(cs) {
                    Err(m) => Err(m),
                    Ok(c) => if h.len() != c.len() && h.len() != 1 {
                        Err("port range mismatch: "@ + s)
                    } else {
                        Ok(zip_ports(h, c, proto, ip))
                    },
                },
            },
        }
    }
}

/// One port mapping, short or long form.
pub open spec fn port_mapping_spec(m: PortMapping) -> core::result::Result<Seq<ParsedPortView>, Seq<char>> {
    match m {
        PortMapping::Short(s) => short_port_spec(s@),
        PortMapping::Long { target, published, protocol, host_ip } => Ok(seq![ParsedPortView {
            container_port: target,
            protocol: match protocol { Some(p) => p@, None => "tcp"@ },
            host_ip: match host_ip { Some(h) => h@, None => Seq::empty() },
            host_port: match published {
                Some(StringOrU16::Number(n)) => Some(n),
                Some(StringOrU16::String(p)) => match parse_u16(p@) {
                    Some(n) => Some(n),
                    None => Some(target),
                },
                None => None,
            },
        }]),
    }
}

/// All mappings in order, stopping at the first error.
pub open spec fn ports_spec(ms: Seq<PortMapping>) -> core::result::Result<Seq<ParsedPortView>, Seq<char>>
    decreases ms.len(),
{
    if ms.len() == 0 {
        Ok(Seq::empty())
    } else {
        match ports_spec(ms.drop_last()) {
            Err(m) => Err(m),
            Ok(acc) => match port_mapping_spec(ms.last()) {
                Err(m) => Err(m),
                Ok(ps) => Ok(acc + ps),
            },
        }
    }
}

proof fn lemma_count_absent(s: Seq<char>, c: char)
    requires
        forall|j: int| 0 <= j < s.len() ==> s[j] != c,
    ensures
        count_char(s, c) == 0,
    decreases s.len(),
{
    if s.len() > 0 {
        lemma_count_absent(s.drop_last(), c);
    }
}

proof fn lemma_count_concat(a: Seq<char>, b: Seq<char>, c: char)
    ensures
        count_char(a + b, c) == count_char(a, c) + count_char(b, c),
    decreases b.len(),
{
    if b.len() == 0 {
        assert(a + b =~= a);
    } else {
        assert((a + b).drop_last() =~= a + b.drop_last());
        assert((a + b).last() == b.last());
        lemma_count_concat(a, b.drop_last(), c);
    }
}

/// The decimal text of a port: digits only, its own trim, holding no
/// separator, and read back as the port.
proof fn lemma_port_text(n: u16)
    ensures
        decimal(n as nat).len() > 0,
        all_digits(decimal(n as nat)),
        trim(decimal(n as nat)) == decimal(n as nat),
        count_char(decimal(n as nat), ':') == 0,
        port_range_spec(decimal(n as nat)) == Ok::<Seq<u16>, Seq<char>>(seq![n]),
{
    let d = decimal(n as nat);
    lemma_decimal_digits(n as nat);
    lemma_trim_idx(d);
    assert(is_digit(d[0]));
    if trim_start_idx(d) > 0 {
        assert(is_ws(d[0]));
    }
    if trim_end_idx(d) < d.len() {
        assert(is_digit(d[d.len() - 1]));
        assert(is_ws(d[d.len() - 1]));
    }
    assert(d.subrange(0, d.len() as int) =~= d);
    assert forall|j: int| 0 <= j < d.len() implies d[j] != ':' && d[j] != '-' by {
        assert(is_digit(d[j]));
    }
    lemma_count_absent(d, ':');
    lemma_find_char_props(d, '-');
    lemma_parse_decimal(n as nat, 65535);
    assert(port_span(n, n) =~= seq![n]);
}

/// `C`, the short form with the container port alone, binds container port
/// `C` over tcp and publishes nothing.
pub proof fn short_form_container_only(c: u16, text: String)
    requires
        text@ == decimal(c as nat),
    ensures
        ports_spec(seq![PortMapping::Short(text)]) == Ok::<Seq<ParsedPortView>, Seq<char>>(seq![ParsedPortView {
            container_port: c,
            protocol: "tcp"@,
            host_ip: Seq::empty(),
            host_port: None,
        }]),
{
    reveal_with_fuel(ports_spec, 2);
    let d = text@;
    lemma_port_text(c);
    lemma_decimal_digits(c as nat);
    lemma_rfind_char_props(d, '/');
    if rfind_char(d, '/') is Some {
        let i = rfind_char(d, '/')->Some_0;
        assert(is_digit(d[i]));
    }
    let r = bare_ports(seq![c], "tcp"@);
    assert(r =~= seq![ParsedPortView { container_port: c, protocol: "tcp"@, host_ip: Seq::empty(), host_port: None }]);
    let m = PortMapping::Short(text);
    assert(seq![m].drop_last() =~= Seq::<PortMapping>::empty());
    assert(Seq::<ParsedPortView>::empty() + r =~= r);
}

/// `H:C`, the short form with a host and a container port, binds container
/// port `C` over tcp, published on host port `H` on every address.
pub proof fn short_form_host_container(h: u16, c: u16, text: String)
    requires
        text@ == decimal(h as nat) + seq![':'] + decimal(c as nat),
    ensures
        ports_spec(seq![PortMapping::Short(text)]) == Ok::<Seq<ParsedPortView>, Seq<char>>(seq![ParsedPortView {
            container_port: c,
            protocol: "tcp"@,
            host_ip: Seq::empty(),
            host_port: Some(h),
        }]),
{
    reveal_with_fuel(ports_spec, 2);
    let dh = decimal(h as nat);
    let dc = decimal(c as nat);
    let s = text@;
    lemma_port_text(h);
    lemma_port_text(c);
    lemma_decimal_digits(h as nat);
    lemma_decimal_digits(c as nat);
    let k = dh.len() as int;
    assert forall|j: int| 0 <= j < s.len() && j != k implies is_digit(#[trigger] s[j]) by {
        if j < k {
            assert(s[j] == dh[j]);
        } else {
            assert(s[j] == dc[j - k - 1]);
        }
    }
    assert(s[k] == ':');
    lemma_rfind_char_props(s, '/');
    if rfind_char(s, '/') is Some {
        let i = rfind_char(s, '/')->Some_0;
        if i != k {
            assert(is_digit(s[i]));
        }
    }
    assert(split_proto(s) == (s, "tcp"@));
    lemma_count_concat(dh, seq![':'], ':');
    lemma_count_concat(dh + seq![':'], dc, ':');
    assert(seq![':'].drop_last() =~= Seq::<char>::empty());
    assert(count_char(Seq::<char>::empty(), ':') == 0);
    assert(seq![':'].last() == ':');
    assert(count_char(seq![':'], ':') == 1);
    assert(count_char(s, ':') == 1);
    lemma_rfind_char_props(s, ':');
    let i = rfind_char(s, ':')->Some_0;
    if i != k {
        assert(is_digit(s[i]));
    }
    assert(i == k);
    assert(s.take(k) =~= dh);
    assert(s.skip(k + 1) =~= dc);
    let r = zip_ports(seq![h], seq![c], "tcp"@, Seq::empty());
    assert(r =~= seq![ParsedPortView { container_port: c, protocol: "tcp"@, host_ip: Seq::empty(), host_port: Some(h) }]);
    let m = PortMapping::Short(text);
    assert(seq![m].drop_last() =~= Seq::<PortMapping>::empty());
    assert(Seq::<ParsedPortView>::empty() + r =~= r);
}

/// A long-form mapping publishes on the host port it names: with
/// `published: n` (or the text of `n`) the binding's host port is `n` and
/// its container port is the target, whatever the protocol and address.
pub proof fn long_form_published_port(
    target: u16,
    n: u16,
    text: String,
    protocol: Option<String>,
    host_ip: Option<String>,
)
    requires
        text@ == crate::text::decimal(n as nat),
    ensures
        ({
            let by_number = PortMapping::Long { target, published: Some(StringOrU16::Number(n)), protocol, host_ip };
            &&& ports_spec(seq![by_number]) matches Ok(ps)
            &&& ps.len() == 1
            &&& ps[0].host_port == Some(n)
            &&& ps[0].container_port == target
        }),
        ({
            let by_text = PortMapping::Long { target, published: Some(StringOrU16::String(text)), protocol, host_ip };
            &&& ports_spec(seq![by_text]) matches Ok(ps)
            &&& ps.len() == 1
            &&& ps[0].host_port == Some(n)
            &&& ps[0].container_port == target
        }),
{
    crate::compose::types::number_text_parses_back(n);
    reveal_with_fuel(ports_spec, 2);
    let by_number = PortMapping::Long { target, published: Some(StringOrU16::Number(n)), protocol, host_ip };
    let by_text = PortMapping::Long { target, published: Some(StringOrU16::String(text)), protocol, host_ip };
    assert(seq![by_number].drop_last() =~= Seq::<PortMapping>::empty());
    assert(seq![by_text].drop_last() =~= Seq::<PortMapping>::empty());
    assert(Seq::<ParsedPortView>::empty() + port_mapping_spec(by_number)->Ok_0 =~= port_mapping_spec(by_number)->Ok_0);
    assert(Seq::<ParsedPortView>::empty() + port_mapping_spec(by_text)->Ok_0 =~= port_mapping_spec(by_text)->Ok_0);
}

/// Parsing two lists of mappings one after the other is parsing their
/// concatenation: the ports of the first, then those of the second; the
/// first error met, in order, otherwise.
pub proof fn ports_of_concatenation(a: Seq<PortMapping>, b: Seq<PortMapping>)
    ensures
        ports_spec(a + b) == match ports_spec(a) {
            Err(m) => Err(m),
            Ok(x) => match ports_spec(b) {
                Err(m) => Err(m),
                Ok(y) => Ok::<Seq<ParsedPortView>, Seq<char>>(x + y),
            },
        },
    decreases b.len(),
{
    if b.len() == 0 {
        assert(a + b =~= a);
        match ports_spec(a) {
            Ok(x) => { assert(x + Seq::<ParsedPortView>::empty() =~= x); },
            Err(_) => {},
        }
    } else {
        ports_of_concatenation(a, b.drop_last());
        assert((a + b).drop_last() =~= a + b.drop_last());
        assert((a + b).last() == b.last());
        match ports_spec(a) {
            Ok(x) => match ports_spec(b.drop_last()) {
                Ok(y) => match port_mapping_spec(b.last()) {
                    Ok(ps) => { assert(x + y + ps =~= x + (y + ps)); },
                    Err(_) => {},
                },
                Err(_) => {},
            },
            Err(_) => {},
        }
    }
}

/// The relation between a parse result and its specification.
pub open spec fn port_result_matches(
    r: Result<Vec<ParsedPort>>,
    spec: core::result::Result<Seq<ParsedPortView>, Seq<char>>,
) -> bool {
    match r {
        Ok(v) => spec == Ok::<Seq<ParsedPortView>, Seq<char>>(v.deep_view()),
        Err(ComposeError::InvalidPort(m)) => spec == Err::<Seq<ParsedPortView>, Seq<char>>(m@),
        Err(_) => false,
    }
}

// ---------------------------------------------------------------------------
// Implementation
// ---------------------------------------------------------------------------

/// A message: `prefix` followed by `body`.
fn message(prefix: &str, body: &[char]) -> (s: String)
    ensures
        s@ == prefix@ + body@,
{
    let mut s = prefix.to_string();
    push_chars(&mut s, body);
    s
}

/// Parse all port mappings in a service, expanding ranges.
pub fn parse_ports(ports: &[PortMapping]) -> (r: Result<Vec<ParsedPort>>)
    ensures
        port_result_matches(r, ports_spec(ports@)),
{
    let mut result: Vec<ParsedPort> = Vec::new();
    let mut i: usize = 0;
    assert(ports@.take(0) =~= Seq::<PortMapping>::empty());
    assert(result.deep_view() =~= Seq::<ParsedPortView>::empty());
    while i < ports.len()
        invariant
            i <= ports@.len(),
            ports_spec(ports@.take(i as int)) == Ok::<Seq<ParsedPortView>, Seq<char>>(result.deep_view()),
        decreases ports@.len() - i,
    {
        assert(ports@.take(i + 1).last() == ports@[i as int]);
        assert(ports@.take(i + 1).drop_last() =~= ports@.take(i as int));
        let one = parse_one(&ports[i]);
        match one {
            Ok(more) => {
                let ghost before = result.deep_view();
                let ghost added = more.deep_view();
                let mut more = more;
                result.append(&mut more);
                assert(result.deep_view() =~= before + added);
            },
            Err(e) => {
                proof {
                    assert(ports@.take(i + 1).last() == ports@[i as int]);
                    lemma_ports_spec_err_prefix(ports@, i as int + 1);
                }
                return Err(e);
            },
        }
        i = i + 1;
    }
    assert(ports@.take(ports@.len() as int) =~= ports@);
    Ok(result)
}

proof fn lemma_ports_spec_err_prefix(ms: Seq<PortMapping>, k: int)
    requires
        0 <= k <= ms.len(),
        ports_spec(ms.take(k)) is Err,
    ensures
        ports_spec(ms) == ports_spec(ms.take(k)),
    decreases ms.len() - k,
{
    if k < ms.len() {
        assert(ms.take(k + 1).drop_last() =~= ms.take(k));
        lemma_ports_spec_err_prefix(ms, k + 1);
    } else {
        assert(ms.take(k) =~= ms);
    }
}

fn parse_one(mapping: &PortMapping) -> (r: Result<Vec<ParsedPort>>)
    ensures
        port_result_matches(r, port_mapping_spec(*mapping)),
{
    match mapping {
        PortMapping::Short(s) => parse_short(s.as_str()),
        PortMapping::Long { target, published, protocol, host_ip } => {
            let proto = match protocol {
                Some(p) => p.clone(),
                None => "tcp".to_string(),
            };
            let hip = match host_ip {
                Some(h) => h.clone(),
                None => String::new(),
            };
            let host_port = match published {
                Some(StringOrU16::Number(n)) => Some(*n),
                Some(StringOrU16::String(p)) => {
                    let pc = chars_of(p.as_str());
                    match parse_uint_exec(pc.as_slice(), 65535) {
                        Some(n) => Some(n as u16),
                        None => Some(*target),
                    }
                },
                None => None,
            };
            let mut v: Vec<ParsedPort> = Vec::new();
            v.push(ParsedPort { container_port: *target, protocol: proto, host_ip: hip, host_port });
            assert(v.deep_view() =~= port_mapping_spec(*mapping)->Ok_0);
            Ok(v)
        },
    }
}

/// Parse a short-form port string.
///
/// Formats:
/// - `container`
/// - `container/proto`
/// - `host:container`
/// - `host:container/proto`
/// - `ip:host:container`
/// - `ip:host:container/proto`
/// - `host_start-host_end:container_start-container_end`
fn parse_short(s: &str) -> (r: Result<Vec<ParsedPort>>)
    ensures
        port_result_matches(r, short_port_spec(s@)),
{
    let sv = chars_of(s);
    // Split off protocol suffix.
    let (rest, proto) = match rfind_char_exec(sv.as_slice(), '/') {
        Some(idx) => {
            let n = sv.len();
            assert(idx < n);
            (slice_chars(sv.as_slice(), 0, idx), string_of(slice_chars(sv.as_slice(), idx + 1, n).as_slice()))
        },
        None => (slice_chars(sv.as_slice(), 0, sv.len()), "tcp".to_string()),
    };
    assert(rest@ == split_proto(s@).0 && proto@ == split_proto(s@).1) by {
        if let Some(idx) = rfind_char(s@, '/') {
            assert(s@.take(idx) =~= s@.subrange(0, idx));
            assert(s@.skip(idx + 1) =~= s@.subrange(idx + 1, s@.len() as int));
        }
    }

    // Count colons to determine format.
    let colon_count = count_char_exec(rest.as_slice(), ':');

    if colon_count == 0 {
        // Just container port (possibly a range).
        let ports = expand_port_range(rest.as_slice())?;
        let mut out: Vec<ParsedPort> = Vec::new();
        let mut k: usize = 0;
        while k < ports.len()
            invariant
                k <= ports@.len(),
                out.deep_view() =~= bare_ports(ports@, proto@).take(k as int),
            decreases ports@.len() - k,
        {
            out.push(ParsedPort { container_port: ports[k], protocol: proto.clone(), host_ip: String::new(), host_port: None });
            assert(bare_ports(ports@, proto@).take(k + 1) =~= bare_ports(ports@, proto@).take(k as int).push(bare_ports(ports@, proto@)[k as int]));
            k = k + 1;
        }
        assert(bare_ports(ports@, proto@).take(ports@.len() as int) =~= bare_ports(ports@, proto@));
        return Ok(out);
    }

    let (ip, left, right) = if colon_count == 1 {
        let (l, r) = split_last_colon(rest.as_slice());
        (Vec::new(), l, r)
    } else {
        match find_char_exec(rest.as_slice(), ':') {
            Some(j1) => {
                let r2 = slice_chars(rest.as_slice(), j1 + 1, rest.len());
                match find_char_exec(r2.as_slice(), ':') {
                    Some(j2) => (slice_chars(rest.as_slice(), 0, j1), slice_chars(r2.as_slice(), 0, j2), slice_chars(r2.as_slice(), j2 + 1, r2.len())),
                    None => {
                        return Err(ComposeError::InvalidPort(message("invalid port spec: ", sv.as_slice())));
                    },
                }
            },
            None => {
                return Err(ComposeError::InvalidPort(message("invalid port spec: ", sv.as_slice())));
            },
        }
    };
    assert(split_host_container(rest@) == Some((ip@, left@, right@))) by {
        if count_char(rest@, ':') == 1 {
            assert(ip@ =~= Seq::<char>::empty());
        } else {
            let j1 = find_char(rest@, ':')->Some_0;
            let r2 = rest@.skip(j1 + 1);
            assert(r2 =~= rest@.subrange(j1 + 1, rest@.len() as int));
            let j2 = find_char(r2, ':')->Some_0;
            assert(rest@.take(j1) =~= rest@.subrange(0, j1));
            assert(r2.take(j2) =~= r2.subrange(0, j2));
            assert(r2.skip(j2 + 1) =~= r2.subrange(j2 + 1, r2.len() as int));
        }
    }

    let host_ports = expand_port_range(left.as_slice())?;
    let container_ports = expand_port_range(right.as_slice())?;
    if host_ports.len() != container_ports.len() && host_ports.len() != 1 {
        return Err(ComposeError::InvalidPort(message("port range mismatch: ", sv.as_slice())));
    }
    let n = if host_ports.len() <= container_ports.len() { host_ports.len() } else { container_ports.len() };
    let ip_s = string_of(ip.as_slice());
    let ghost z = zip_ports(host_ports@, container_ports@, proto@, ip@);
    let mut out: Vec<ParsedPort> = Vec::new();
    let mut k: usize = 0;
    while k < n
        invariant
            n == z.len(),
            n <= host_ports@.len(),
            n <= container_ports@.len(),
            k <= n,
            z == zip_ports(host_ports@, container_ports@, proto@, ip@),
            ip_s@ == ip@,
            out.deep_view() =~= z.take(k as int),
        decreases n - k,
    {
        out.push(ParsedPort {
            container_port: container_ports[k],
            protocol: proto.clone(),
            host_ip: ip_s.clone(),
            host_port: Some(host_ports[k]),
        });
        assert(z.take(k + 1) =~= z.take(k as int).push(z[k as int]));
        k = k + 1;
    }
    assert(z.take(n as int) =~= z);
    Ok(out)
}

/// Split at the LAST colon (to avoid splitting IPv6 addresses incorrectly).
fn split_last_colon(s: &[char]) -> (r: (Vec<char>, Vec<char>))
    ensures
        match rfind_char(s@, ':') {
            Some(i) => r.0@ == s@.take(i) && r.1@ == s@.skip(i + 1),
            None => r.0@ == Seq::<char>::empty() && r.1@ == s@,
        },
{
    match rfind_char_exec(s, ':') {
        Some(idx) => {
            let n = s.len();
            assert(idx < n);
            let l = slice_chars(s, 0, idx);
            let r = slice_chars(s, idx + 1, n);
            assert(l@ =~= s@.take(idx as int));
            assert(r@ =~= s@.skip(idx + 1));
            (l, r)
        },
        None => (Vec::new(), slice_chars(s, 0, s.len())),
    }
}

/// Expand `start-end` or a single port string.
fn expand_port_range(s: &[char]) -> (r: Result<Vec<u16>>)
    ensures
        match r {
            Ok(v) => port_range_spec(s@) == Ok::<Seq<u16>, Seq<char>>(v@),
            Err(ComposeError::InvalidPort(m)) => port_range_spec(s@) == Err::<Seq<u16>, Seq<char>>(m@),
            Err(_) => false,
        },
{
    let t = trim_chars(s);
    match find_char_exec(t.as_slice(), '-') {
        Some(idx) => {
            let tn = t.len();
            assert(idx < tn);
            let a = slice_chars(t.as_slice(), 0, idx);
            let b = slice_chars(t.as_slice(), idx + 1, tn);
            assert(a@ =~= t@.take(idx as int));
            assert(b@ =~= t@.skip(idx + 1));
            let start = match parse_uint_exec(a.as_slice(), 65535) {
                Some(v) => v as u16,
                None => {
                    return Err(ComposeError::InvalidPort(message("bad port: ", t.as_slice())));
                },
            };
            let end = match parse_uint_exec(b.as_slice(), 65535) {
                Some(v) => v as u16,
                None => {
                    return Err(ComposeError::InvalidPort(message("bad port: ", t.as_slice())));
                },
            };
            if start > end {
                return Err(ComposeError::InvalidPort(message("start > end in range: ", t.as_slice())));
            }
            let mut out: Vec<u16> = Vec::new();
            let mut p: u32 = start as u32;
            while p <= end as u32
                invariant
                    start <= p <= end + 1,
                    out@ =~= port_span(start, end).take(p - start),
                decreases end + 1 - p,
            {
                out.push(p as u16);
                assert(port_span(start, end).take(p - start + 1) =~= port_span(start, end).take(p - start).push(p as u16));
                p = p + 1;
            }
            assert(port_span(start, end).take(end - start + 1) =~= port_span(start, end));
            Ok(out)
        },
        None => {
            match parse_uint_exec(t.as_slice(), 65535) {
                Some(v) => {
                    let mut out: Vec<u16> = Vec::new();
                    out.push(v as u16);
                    assert(out@ =~= seq![v as u16]);
                    Ok(out)
                },
                None => Err(ComposeError::InvalidPort(message("bad port: ", t.as_slice()))),
            }
        },
    }
}

// ---------------------------------------------------------------------------
// Docker API port maps
// ---------------------------------------------------------------------------

pub const ALL_INTERFACES: &'static str = "0.0.0.0";

/// One host binding of a container port.
#[derive(Debug, Clone)]
pub struct PortBinding {
    /// Host address (`0.0.0.0` for all interfaces).
    pub host_ip: String,
    /// Host port, as text (`None` for an ephemeral port).
    pub host_port: Option<String>,
}

impl DeepView for PortBinding {
    type V = (Seq<char>, Option<Seq<char>>);

    open spec fn deep_view(&self) -> (Seq<char>, Option<Seq<char>>) {
        (self.host_ip@, self.host_port.deep_view())
    }
}

/// The Docker API key of a port: `<container port>/<protocol>`.
pub open spec fn port_key(p: ParsedPortView) -> Seq<char> {
    decimal(p.container_port as nat) + "/"@ + p.protocol
}

/// The host binding of a port.
pub open spec fn port_binding_spec(p: ParsedPortView) -> (Seq<char>, Option<Seq<char>>) {
    (
        if p.host_ip.len() == 0 { ALL_INTERFACES@ } else { p.host_ip },
        match p.host_port {
            Some(h) => Some(decimal(h as nat)),
            None => None,
        },
    )
}

/// Position of the first group keyed `k` (the number of groups if none).
pub open spec fn group_position<B>(g: Seq<(Seq<char>, B)>, k: Seq<char>) -> int
    decreases g.len(),
{
    if g.len() == 0 {
        0
    } else if g[0].0 == k {
        0
    } else {
        1 + group_position(g.drop_first(), k)
    }
}

/// The bindings of `ps` grouped by port key, keys in order of first
/// appearance, each key's bindings in order.
pub open spec fn grouped_bindings(ps: Seq<ParsedPortView>) -> Seq<(Seq<char>, Seq<(Seq<char>, Option<Seq<char>>)>)>
    decreases ps.len(),
{
    if ps.len() == 0 {
        Seq::empty()
    } else {
        let g = grouped_bindings(ps.drop_last());
        let k = port_key(ps.last());
        let b = port_binding_spec(ps.last());
        let j = group_position(g, k);
        if j < g.len() {
            g.update(j, (k, g[j].1.push(b)))
        } else {
            g.push((k, seq![b]))
        }
    }
}

proof fn lemma_group_position<B>(g: Seq<(Seq<char>, B)>, k: Seq<char>, i: int)
    requires
        0 <= i <= g.len(),
        forall|j: int| 0 <= j < i ==> (#[trigger] g[j]).0 != k,
        i < g.len() ==> g[i].0 == k,
    ensures
        group_position(g, k) == i,
    decreases g.len(),
{
    if g.len() > 0 && i > 0 {
        let t = g.drop_first();
        assert(g[0].0 != k);
        assert forall|j: int| 0 <= j < i - 1 implies (#[trigger] t[j]).0 != k by {
            assert(t[j] == g[j + 1]);
        }
        if i < g.len() {
            assert(t[i - 1] == g[i]);
        }
        lemma_group_position(t, k, i - 1);
    }
}

/// The port bindings and exposed ports of the Docker API for `ports`: each
/// `<port>/<protocol>` key with its host bindings (all interfaces when no
/// host address is given), and the exposed keys.
pub fn to_bollard(ports: &[ParsedPort]) -> (r: (Vec<(String, Vec<PortBinding>)>, Vec<String>))
    ensures
        r.0.deep_view() == grouped_bindings(ports@.map_values(|p: ParsedPort| p@)),
        r.1.deep_view() == Seq::new(r.0@.len(), |i: int| r.0@[i].0@),
{
    let ghost pv = ports@.map_values(|p: ParsedPort| p@);
    let mut groups: Vec<(String, Vec<PortBinding>)> = Vec::new();
    let mut i: usize = 0;
    while i < ports.len()
        invariant
            pv == ports@.map_values(|p: ParsedPort| p@),
            i <= ports@.len(),
            groups.deep_view() == grouped_bindings(pv.take(i as int)),
        decreases ports@.len() - i,
    {
        let p = &ports[i];
        assert(pv.take(i + 1).drop_last() =~= pv.take(i as int));
        assert(pv.take(i + 1).last() == p@);
        let mut key = decimal_string(p.container_port as u64);
        key.append("/");
        key.append(p.protocol.as_str());
        let host_ip = if p.host_ip.as_str().unicode_len() == 0 {
            ALL_INTERFACES.to_string()
        } else {
            p.host_ip.clone()
        };
        let host_port = match p.host_port {
            Some(h) => Some(decimal_string(h as u64)),
            None => None,
        };
        let binding = PortBinding { host_ip, host_port };
        assert(binding.deep_view() == port_binding_spec(p@));
        let ghost g = groups.deep_view();
        let mut j: usize = 0;
        let mut found = false;
        while j < groups.len() && !found
            invariant
                j <= groups@.len(),
                g == groups.deep_view(),
                forall|a: int| 0 <= a < j ==> (#[trigger] g[a]).0 != key@,
                found ==> j < groups@.len() && g[j as int].0 == key@,
            decreases groups@.len() - j, if found { 0int } else { 1int },
        {
            assert(g[j as int].0 == groups@[j as int].0@);
            if str_eq(groups[j].0.as_str(), key.as_str()) {
                found = true;
            } else {
                j = j + 1;
            }
        }
        proof {
            if j < groups@.len() {
                assert(g[j as int].0 == key@);
            }
            lemma_group_position(g, key@, j as int);
        }
        if j < groups.len() {
            let (k, mut bs) = groups.remove(j);
            let ghost bs0 = bs.deep_view();
            bs.push(binding);
            assert(bs.deep_view() =~= bs0.push(port_binding_spec(p@)));
            groups.insert(j, (k, bs));
            assert(groups.deep_view() =~= g.update(j as int, (key@, g[j as int].1.push(port_binding_spec(p@)))));
        } else {
            let mut bs: Vec<PortBinding> = Vec::new();
            bs.push(binding);
            assert(bs.deep_view() =~= seq![port_binding_spec(p@)]);
            groups.push((key, bs));
            assert(groups.deep_view() =~= g.push((key@, seq![port_binding_spec(p@)])));
        }
        i = i + 1;
    }
    assert(pv.take(ports@.len() as int) =~= pv);
    let mut exposed: Vec<String> = Vec::new();
    let mut k: usize = 0;
    while k < groups.len()
        invariant
            k <= groups@.len(),
            exposed@.len() == k,
            forall|a: int| 0 <= a < k ==> (#[trigger] exposed@[a])@ == groups@[a].0@,
        decreases groups@.len() - k,
    {
        exposed.push(groups[k].0.clone());
        k = k + 1;
    }
    assert(exposed.deep_view() =~= Seq::new(groups@.len(), |a: int| groups@[a].0@));
    (groups, exposed)
}

} // verus!
