//! The service side of the IPC channel: what it accepts before and after authentication, how
//! a start request is validated before the elevated service acts on it, and how each request
//! is answered.
use vstd::prelude::*;
use crate::codes;
use crate::error::{detail_of, opt_view, AppError};
use crate::ipc::StartProxyRequest;
use crate::ipv4::{ipv4_text, push_ipv4};
use crate::manager::{dns_addr_of, local_addr_of, plan_start, spec_nodes, spec_strategy, keep_nonblank, strs, or_default, config_matches, unknown_strategy_message, ProxyManagerConfig};
use crate::num::{dec, push_decimal};
use crate::text::{append_chars, append_str, chars_of, string_of};
use crate::tun::{in_candidate_block, is_in_candidate_block, spec_candidates, tun_base_candidates};

verus! {

/// A socket address as `std::net::SocketAddr` reads it, reduced to what the checks below look
/// at. IPv6 addresses arrive already classified, with their rendering.
#[derive(Debug, Clone)]
pub enum SocketAddress {
    V4 { ip: u32, port: u16 },
    V6 {
        /// Whether the address is `::1`.
        loopback: bool,
        /// The address alone, as `Ipv6Addr` renders it.
        ip_text: String,
        /// The whole socket address, as `SocketAddrV6` renders it (`[addr]:port`).
        socket_text: String,
    },
}

/// Whether a socket address is on loopback: `127.0.0.0/8` or `::1`.
pub open spec fn is_loopback(a: SocketAddress) -> bool {
    match a {
        SocketAddress::V4 { ip, .. } => ip / 16777216 == 127,
        SocketAddress::V6 { loopback, .. } => loopback,
    }
}

/// The rendering of a socket address.
pub open spec fn socket_text(a: SocketAddress) -> Seq<char> {
    match a {
        SocketAddress::V4 { ip, port } => ipv4_text(ip) + seq![':'] + dec(port as nat),
        SocketAddress::V6 { socket_text, .. } => socket_text@,
    }
}

/// The rendering of the address part alone.
pub open spec fn ip_text(a: SocketAddress) -> Seq<char> {
    match a {
        SocketAddress::V4 { ip, .. } => ipv4_text(ip),
        SocketAddress::V6 { ip_text, .. } => ip_text@,
    }
}

/// How `{:?}` renders a string in a diagnostic: in double quotes, with escapes.
pub uninterp spec fn quoted(s: Seq<char>) -> Seq<char>;

/// Whether `c` is printable ASCII (a space up to `~`).
pub open spec fn is_printable_ascii(c: char) -> bool {
    ' ' <= c && c <= '~'
}

/// The escaped body of a quoted string of printable ASCII: `"` and `\` get a backslash.
pub open spec fn escaped(s: Seq<char>) -> Seq<char>
    decreases s.len(),
{
    if s.len() == 0 {
        seq![]
    } else {
        escaped(s.drop_last()) + (if s.last() == '"' || s.last() == '\\' {
            seq!['\\', s.last()]
        } else {
            seq![s.last()]
        })
    }
}

/// Renders `s` as `{:?}` does (`<str as Debug>::fmt`): the rendering is a function of `s`
/// alone, and for printable ASCII it is `s` in double quotes with `"` and `\` escaped. How
/// control and non-printable characters are escaped is left to the name.
#[verifier::external_body]
pub(crate) fn debug_text(s: &str) -> (r: String)
    ensures
        r@ == quoted(s@),
        (forall|i: int| 0 <= i < s@.len() ==> is_printable_ascii(#[trigger] s@[i])) ==> r@ == seq!['"']
            + escaped(s@) + seq!['"'],
{
    format!("{:?}", s)
}

/// Appends the quoted form of `s`.
pub fn push_quoted(out: &mut Vec<char>, s: &str)
    ensures
        final(out)@ == old(out)@ + quoted(s@),
{
    let q = debug_text(s);
    append_str(out, q.as_str());
}

fn push_socket_text(out: &mut Vec<char>, a: &SocketAddress)
    ensures
        final(out)@ == old(out)@ + socket_text(*a),
{
    match a {
        SocketAddress::V4 { ip, port } => {
            push_ipv4(out, *ip);
            out.push(':');
            push_decimal(out, *port as u64);
            assert(out@ =~= old(out)@ + socket_text(*a));
        },
        SocketAddress::V6 { socket_text, .. } => {
            append_str(out, socket_text.as_str());
        },
    }
}

fn push_ip_text(out: &mut Vec<char>, a: &SocketAddress)
    ensures
        final(out)@ == old(out)@ + ip_text(*a),
{
    match a {
        SocketAddress::V4 { ip, .. } => push_ipv4(out, *ip),
        SocketAddress::V6 { ip_text, .. } => append_str(out, ip_text.as_str()),
    }
}

/// The diagnostic for an address that does not parse.
pub open spec fn not_an_address(addr: Seq<char>, e: Seq<char>) -> Seq<char> {
    quoted(addr) + " is not a host:port address ("@ + e + ")"@
}

fn not_an_address_text(addr: &str, e: &str) -> (s: String)
    ensures
        s@ == not_an_address(addr@, e@),
{
    let mut m: Vec<char> = Vec::new();
    push_quoted(&mut m, addr);
    append_str(&mut m, " is not a host:port address (");
    append_str(&mut m, e);
    append_str(&mut m, ")");
    assert(m@ =~= not_an_address(addr@, e@));
    string_of(m.as_slice())
}

/// What `require_loopback` answers for `addr`, read as `parsed`.
pub open spec fn spec_require_loopback(addr: Seq<char>, parsed: Result<SocketAddress, String>, code: Seq<char>) -> Result<(), (Seq<char>, Option<Seq<char>>)> {
    match parsed {
        Err(e) => Err((code, detail_of(not_an_address(addr, e@)))),
        Ok(a) => if is_loopback(a) {
            Ok(())
        } else {
            Err((code, detail_of(socket_text(a) + " is not loopback; the local proxy has nothing authenticating in front of it"@)))
        },
    }
}

/// An error as plain values.
pub open spec fn err_parts(r: Result<(), AppError>) -> Result<(), (Seq<char>, Option<Seq<char>>)> {
    match r {
        Ok(()) => Ok(()),
        Err(e) => Err(e.spec_parts()),
    }
}

/// Refuses `addr` unless it is on loopback; `code` names what was being validated. `parsed`
/// is what `std::net::SocketAddr` made of `addr`: the address, or why it is not one.
pub fn require_loopback(addr: &str, parsed: &Result<SocketAddress, String>, code: &str) -> (r: Result<(), AppError>)
    ensures
        err_parts(r) == spec_require_loopback(addr@, *parsed, code@),
{
    match parsed {
        Err(e) => {
            let d = not_an_address_text(addr, e.as_str());
            Err(AppError::cause(code, d.as_str()))
        },
        Ok(a) => {
            let lo = match a {
                SocketAddress::V4 { ip, .. } => *ip / 16777216 == 127,
                SocketAddress::V6 { loopback, .. } => *loopback,
            };
            if lo {
                Ok(())
            } else {
                let mut m: Vec<char> = Vec::new();
                push_socket_text(&mut m, a);
                append_str(&mut m, " is not loopback; the local proxy has nothing authenticating in front of it");
                let d = string_of(m.as_slice());
                Err(AppError::with_detail(code, d.as_str()))
            }
        },
    }
}

/// The first `n` candidate blocks, rendered and separated by `, `.
pub open spec fn candidate_list(n: int) -> Seq<char>
    decreases n,
{
    if n <= 0 {
        Seq::empty()
    } else if n == 1 {
        ipv4_text(spec_candidates()[0])
    } else {
        candidate_list(n - 1) + ", "@ + ipv4_text(spec_candidates()[n - 1])
    }
}

/// The candidate blocks as `{:?}` renders them: `[198.18.0.0, ..., 10.0.0.0]`.
pub open spec fn candidates_text() -> Seq<char> {
    seq!['['] + candidate_list(6) + seq![']']
}

fn push_candidates_text(m: &mut Vec<char>)
    ensures
        final(m)@ == old(m)@ + candidates_text(),
{
    let cands = tun_base_candidates();
    m.push('[');
    let ghost start = m@;
    let mut i: usize = 0;
    while i < cands.len()
        invariant
            i <= cands.len(),
            cands@ == spec_candidates(),
            m@ == start + candidate_list(i as int),
        decreases cands.len() - i,
    {
        if i > 0 {
            append_str(m, ", ");
        }
        push_ipv4(m, cands[i]);
        i = i + 1;
        assert(m@ =~= start + candidate_list(i as int));
    }
    m.push(']');
    assert(m@ =~= old(m)@ + candidates_text());
}

/// What `require_tun_subnet` answers for `addr`, read as `parsed`.
pub open spec fn spec_require_tun_subnet(addr: Seq<char>, parsed: Result<SocketAddress, String>) -> Result<(), (Seq<char>, Option<Seq<char>>)> {
    match parsed {
        Err(e) => Err((codes::SERVICE_DNS_ADDR_OUTSIDE_TUN@, detail_of(not_an_address(addr, e@)))),
        Ok(a) => match a {
            SocketAddress::V4 { ip, .. } if in_candidate_block(ip) => Ok(()),
            _ => Err((codes::SERVICE_DNS_ADDR_OUTSIDE_TUN@, detail_of(ip_text(a) + " is outside every candidate TUN block ("@ + candidates_text() + "), where the TUN DNS server answers"@))),
        },
    }
}

/// Refuses `addr` unless it is an IPv4 address inside one of the candidate TUN blocks the
/// DNS server can answer on. The block in use is only decided when the interface comes up,
/// so any candidate block is accepted here.
pub fn require_tun_subnet(addr: &str, parsed: &Result<SocketAddress, String>) -> (r: Result<(), AppError>)
    ensures
        err_parts(r) == spec_require_tun_subnet(addr@, *parsed),
{
    match parsed {
        Err(e) => {
            let d = not_an_address_text(addr, e.as_str());
            Err(AppError::cause(codes::SERVICE_DNS_ADDR_OUTSIDE_TUN, d.as_str()))
        },
        Ok(a) => {
            let inside = match a {
                SocketAddress::V4 { ip, .. } => is_in_candidate_block(*ip),
                SocketAddress::V6 { .. } => false,
            };
            if inside {
                return Ok(());
            }
            let mut m: Vec<char> = Vec::new();
            push_ip_text(&mut m, a);
            append_str(&mut m, " is outside every candidate TUN block (");
            push_candidates_text(&mut m);
            append_str(&mut m, "), where the TUN DNS server answers");
            assert(m@ =~= ip_text(*a) + " is outside every candidate TUN block ("@ + candidates_text() + "), where the TUN DNS server answers"@);
            let d = string_of(m.as_slice());
            Err(AppError::with_detail(codes::SERVICE_DNS_ADDR_OUTSIDE_TUN, d.as_str()))
        },
    }
}

/// The DNS address the service uses when a request names none.
pub const SERVICE_DNS_DEFAULT: &'static str = "198.18.0.254:53";

/// The address of the local proxy and of the DNS server a service start request will bind,
/// defaults applied: these are the texts whose parses `plan_service_start` expects.
pub fn service_start_addresses(req: &StartProxyRequest) -> (r: (String, String))
    ensures
        r.0@ == or_default(req.local_addr, "127.0.0.1:8080"@),
        r.1@ == or_default(req.dns_addr, SERVICE_DNS_DEFAULT@),
{
    (local_addr_of(&req.local_addr), dns_addr_of(&req.dns_addr, SERVICE_DNS_DEFAULT))
}

/// Validates and plans a start the elevated service was asked for. On top of what
/// `plan_start` refuses, the local proxy must stay on loopback and the DNS server inside the
/// TUN blocks, because the service binds whatever it is told. `local_parsed` and `dns_parsed`
/// are the parses of the two addresses `service_start_addresses` names.
pub fn plan_service_start(req: StartProxyRequest, local_parsed: &Result<SocketAddress, String>, dns_parsed: &Result<SocketAddress, String>) -> (r: Result<ProxyManagerConfig, AppError>)
    ensures
        ({
            let nodes = spec_nodes(req.nodes@, keep_nonblank(strs(req.domains@)));
            let lb = or_default(req.load_balancing, "round_robin"@);
            let local = or_default(req.local_addr, "127.0.0.1:8080"@);
            let dns = or_default(req.dns_addr, SERVICE_DNS_DEFAULT@);
            &&& nodes.len() == 0 ==> (r matches Err(e) && e.spec_parts() == (codes::PROXY_NO_NODES@, None::<Seq<char>>))
            &&& nodes.len() > 0 && spec_strategy(lb) is None ==> (r matches Err(e) && e.spec_parts() == (codes::PROXY_INVALID_LOAD_BALANCING@, detail_of(unknown_strategy_message(lb))))
            &&& (nodes.len() > 0 && spec_strategy(lb) is Some && spec_require_loopback(local, *local_parsed, codes::SERVICE_LOCAL_ADDR_NOT_LOOPBACK@) is Err) ==> (r matches Err(e) && Err::<(), _>(e.spec_parts()) == spec_require_loopback(local, *local_parsed, codes::SERVICE_LOCAL_ADDR_NOT_LOOPBACK@))
            &&& (nodes.len() > 0 && spec_strategy(lb) is Some && spec_require_loopback(local, *local_parsed, codes::SERVICE_LOCAL_ADDR_NOT_LOOPBACK@) is Ok && spec_require_tun_subnet(dns, *dns_parsed) is Err) ==> (r matches Err(e) && Err::<(), _>(e.spec_parts()) == spec_require_tun_subnet(dns, *dns_parsed))
            &&& nodes.len() > 0 && spec_strategy(lb) is Some && spec_require_loopback(local, *local_parsed, codes::SERVICE_LOCAL_ADDR_NOT_LOOPBACK@) is Ok && spec_require_tun_subnet(dns, *dns_parsed) is Ok ==> (r matches Ok(c) && config_matches(c, req, SERVICE_DNS_DEFAULT@))
        }),
{
    let ghost input = req;
    let cfg = match plan_start(req, SERVICE_DNS_DEFAULT) {
        Ok(c) => c,
        Err(e) => return Err(e),
    };
    match require_loopback(cfg.local_proxy_addr.as_str(), local_parsed, codes::SERVICE_LOCAL_ADDR_NOT_LOOPBACK) {
        Ok(()) => {},
        Err(e) => return Err(e),
    }
    match require_tun_subnet(cfg.dns_listen_addr.as_str(), dns_parsed) {
        Ok(()) => {},
        Err(e) => return Err(e),
    }
    Ok(cfg)
}


/// The local proxy may listen on every loopback address and nowhere else: an IPv4 address is
/// accepted exactly when it lies in `127.0.0.0/8`, an IPv6 one exactly when it is `::1`, and
/// what does not parse is refused.
pub proof fn law_loopback_only(addr: Seq<char>, ip: u32, port: u16, v6: SocketAddress, e: String, code: Seq<char>)
    ensures
        (spec_require_loopback(addr, Ok(SocketAddress::V4 { ip, port }), code) is Ok) <==> (0x7F00_0000 <= ip && ip <= 0x7FFF_FFFF),
        v6 is V6 ==> ((spec_require_loopback(addr, Ok(v6), code) is Ok) <==> v6->loopback),
        spec_require_loopback(addr, Err(e), code) is Err,
        spec_require_loopback(addr, Ok(SocketAddress::V4 { ip, port }), code) matches Err((c, _)) ==> c == code,
{
}

/// The DNS server may only listen inside a candidate TUN block: an IPv4 address inside one of
/// the six candidate /24 blocks is accepted, anything else (IPv6, another IPv4 address, text
/// that does not parse) is refused as `service.dns_addr_outside_tun`.
pub proof fn law_dns_only_inside_a_tun_block(addr: Seq<char>, ip: u32, port: u16, v6: SocketAddress, e: String)
    ensures
        (spec_require_tun_subnet(addr, Ok(SocketAddress::V4 { ip, port })) is Ok) <==> (exists|k: int| 0 <= k < 6
            && #[trigger] spec_candidates()[k] == (ip & 0xFFFF_FF00u32)),
        v6 is V6 ==> spec_require_tun_subnet(addr, Ok(v6)) is Err,
        spec_require_tun_subnet(addr, Err(e)) is Err,
        spec_require_tun_subnet(addr, Ok(SocketAddress::V4 { ip, port })) matches Err((c, _)) ==> c == codes::SERVICE_DNS_ADDR_OUTSIDE_TUN@,
{
}

} // verus!
