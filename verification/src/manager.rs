//! Proxy configuration: turning a start request into the manager's configuration, the start
//! failures and how each is reported.
use vstd::prelude::*;
use crate::codes;
use crate::error::{detail_of, opt_view, AppError};
use crate::num::{dec, push_decimal};
use crate::ipc::{NodeInput, StartProxyRequest};
use crate::text::{append_str, chars_of, spec_trim, string_of, trim};
use crate::dns::DnsServerConfig;
use crate::status::{EndpointLink, LinkKind, ProxyMode};

verus! {

/// The views of a sequence of owned strings.
pub open spec fn strs(v: Seq<String>) -> Seq<Seq<char>> {
    v.map_values(|s: String| s@)
}

/// Whether a domain entry holds anything but whitespace.
pub open spec fn nonblank(d: Seq<char>) -> bool {
    spec_trim(d).len() > 0
}

/// The entries of `d` that hold anything but whitespace, in order.
pub open spec fn keep_nonblank(d: Seq<Seq<char>>) -> Seq<Seq<char>>
    decreases d.len(),
{
    if d.len() == 0 {
        seq![]
    } else if nonblank(d.last()) {
        keep_nonblank(d.drop_last()).push(d.last())
    } else {
        keep_nonblank(d.drop_last())
    }
}

/// `mine` followed by each entry of `extra` that is not already present, in order.
pub open spec fn merge_domains(mine: Seq<Seq<char>>, extra: Seq<Seq<char>>) -> Seq<Seq<char>>
    decreases extra.len(),
{
    if extra.len() == 0 {
        mine
    } else {
        let m = merge_domains(mine, extra.drop_last());
        if m.contains(extra.last()) {
            m
        } else {
            m.push(extra.last())
        }
    }
}

/// Merging keeps a node's own domains first, adds every extra domain, and adds nothing else;
/// no extra domain is added twice.
pub proof fn law_merge_domains(mine: Seq<Seq<char>>, extra: Seq<Seq<char>>)
    ensures
        merge_domains(mine, extra).subrange(0, mine.len() as int) == mine,
        mine.len() <= merge_domains(mine, extra).len(),
        forall|g: Seq<char>| extra.contains(g) ==> merge_domains(mine, extra).contains(g),
        forall|g: Seq<char>|
            merge_domains(mine, extra).contains(g) ==> mine.contains(g) || extra.contains(g),
        forall|i: int, j: int|
            mine.len() <= i < j < merge_domains(mine, extra).len() ==> merge_domains(
                mine,
                extra,
            )[i] != merge_domains(mine, extra)[j],
        forall|i: int, j: int|
            0 <= i < mine.len() <= j < merge_domains(mine, extra).len() ==> merge_domains(
                mine,
                extra,
            )[i] != merge_domains(mine, extra)[j],
    decreases extra.len(),
{
    if extra.len() > 0 {
        let e = extra.drop_last();
        law_merge_domains(mine, e);
        let m = merge_domains(mine, e);
        let r = merge_domains(mine, extra);
        assert forall|g: Seq<char>| extra.contains(g) implies r.contains(g) by {
            let k = choose|k: int| 0 <= k < extra.len() && extra[k] == g;
            if k < extra.len() - 1 {
                assert(e[k] == g);
                assert(e.contains(g));
                let w = choose|w: int| 0 <= w < m.len() && m[w] == g;
                assert(r[w] == g);
            } else if !m.contains(g) {
                assert(r[r.len() - 1] == g);
            }
        }
        assert forall|g: Seq<char>| r.contains(g) implies mine.contains(g) || extra.contains(g) by {
            let k = choose|k: int| 0 <= k < r.len() && r[k] == g;
            if k < m.len() {
                assert(m[k] == g);
                assert(m.contains(g));
                if e.contains(g) {
                    let w = choose|w: int| 0 <= w < e.len() && e[w] == g;
                    assert(extra[w] == g);
                }
            } else {
                assert(extra[extra.len() - 1] == g);
            }
        }
        if !m.contains(extra.last()) {
            assert(r.subrange(0, mine.len() as int) =~= m.subrange(0, mine.len() as int));
        }
    }
}

/// Keeps the domain entries that hold anything but whitespace.
fn nonblank_domains(domains: &Vec<String>) -> (g: Vec<String>)
    ensures
        strs(g@) == keep_nonblank(strs(domains@)),
{
    let mut g: Vec<String> = Vec::new();
    let mut i: usize = 0;
    while i < domains.len()
        invariant
            i <= domains.len(),
            strs(g@) == keep_nonblank(strs(domains@.subrange(0, i as int))),
        decreases domains.len() - i,
    {
        let t = trim(domains[i].as_str());
        proof {
            let d = strs(domains@.subrange(0, i + 1));
            assert(d.drop_last() =~= strs(domains@.subrange(0, i as int)));
            assert(d.last() == domains@[i as int]@);
        }
        if !t.as_str().is_empty() {
            g.push(domains[i].clone());
            assert(strs(g@) =~= keep_nonblank(strs(domains@.subrange(0, i + 1))));
        } else {
            assert(strs(g@) =~= keep_nonblank(strs(domains@.subrange(0, i + 1))));
        }
        i = i + 1;
    }
    assert(domains@.subrange(0, domains.len() as int) =~= domains@);
    g
}

/// Whether `list` holds an entry equal to `d`.
fn has_domain(list: &Vec<String>, d: &String) -> (b: bool)
    ensures
        b == strs(list@).contains(d@),
{
    let mut i: usize = 0;
    while i < list.len()
        invariant
            i <= list.len(),
            forall|k: int| 0 <= k < i ==> list@[k]@ != d@,
        decreases list.len() - i,
    {
        if list[i] == *d {
            assert(strs(list@)[i as int] == d@);
            return true;
        }
        i = i + 1;
    }
    assert(!strs(list@).contains(d@)) by {
        if strs(list@).contains(d@) {
            let k = choose|k: int| 0 <= k < strs(list@).len() && strs(list@)[k] == d@;
            assert(list@[k]@ == d@);
        }
    }
    false
}

/// Appends to `mine` each domain of `extra` it does not hold yet.
fn merge_into(mine: &mut Vec<String>, extra: &Vec<String>)
    ensures
        strs(final(mine)@) == merge_domains(strs(old(mine)@), strs(extra@)),
{
    let ghost start = strs(mine@);
    let mut i: usize = 0;
    while i < extra.len()
        invariant
            i <= extra.len(),
            strs(mine@) == merge_domains(start, strs(extra@.subrange(0, i as int))),
        decreases extra.len() - i,
    {
        proof {
            let e = strs(extra@.subrange(0, i + 1));
            assert(e.drop_last() =~= strs(extra@.subrange(0, i as int)));
            assert(e.last() == extra@[i as int]@);
        }
        if !has_domain(mine, &extra[i]) {
            mine.push(extra[i].clone());
            assert(strs(mine@) =~= merge_domains(start, strs(extra@.subrange(0, i + 1))));
        }
        i = i + 1;
    }
    assert(extra@.subrange(0, extra.len() as int) =~= extra@);
}

/// The 2FA credentials one node is configured with.
#[derive(Debug, Clone)]
pub struct NodeTwoFactor {
    pub client_id: String,
    pub secret: String,
    /// Lowercase algorithm name.
    pub algorithm: String,
}

/// How a node names its backend.
#[derive(Debug, Clone)]
pub enum ConnectionConfig {
    Ticket(String),
    EndpointId(String),
}

/// A node as the proxy manager runs it.
#[derive(Debug, Clone)]
pub struct ProxyNodeConfig {
    pub connection: ConnectionConfig,
    pub domains: Vec<String>,
    pub two_factor: Option<NodeTwoFactor>,
}

/// The backend a configuration names: whether it is a ticket, and the ticket or ID.
pub open spec fn conn_view(c: ConnectionConfig) -> (bool, Seq<char>) {
    match c {
        ConnectionConfig::Ticket(t) => (true, t@),
        ConnectionConfig::EndpointId(e) => (false, e@),
    }
}

/// A node is used when it names a ticket or an endpoint ID.
pub open spec fn node_selected(n: NodeInput) -> bool {
    n.ticket@.len() > 0 || n.endpoint_id@.len() > 0
}

/// The backend a node names: its ticket when it says it is a ticket or carries one, its
/// endpoint ID otherwise.
pub open spec fn node_conn(n: NodeInput) -> (bool, Seq<char>) {
    if n.connection_type@ == "ticket"@ || n.ticket@.len() > 0 {
        (true, n.ticket@)
    } else {
        (false, n.endpoint_id@)
    }
}

/// A manager node as plain values: backend, domains, credentials.
pub open spec fn node_view(p: ProxyNodeConfig) -> ((bool, Seq<char>), Seq<Seq<char>>, Option<NodeTwoFactor>) {
    (conn_view(p.connection), strs(p.domains@), p.two_factor)
}

/// The manager nodes made from `inputs` when the global domain list is `global`: every used
/// node, in order, with the global domains merged into its own.
pub open spec fn spec_nodes(inputs: Seq<NodeInput>, global: Seq<Seq<char>>) -> Seq<((bool, Seq<char>), Seq<Seq<char>>, Option<NodeTwoFactor>)>
    decreases inputs.len(),
{
    if inputs.len() == 0 {
        seq![]
    } else {
        let rest = spec_nodes(inputs.drop_last(), global);
        let n = inputs.last();
        if node_selected(n) {
            rest.push((node_conn(n), merge_domains(strs(n.domains@), global), n.two_factor))
        } else {
            rest
        }
    }
}

/// Builds the manager nodes: nodes naming neither a ticket nor an endpoint ID are dropped,
/// and the non-blank global domains are merged into every remaining node's own domains.
pub fn build_node_configs(nodes: Vec<NodeInput>, domains: &Vec<String>) -> (r: Vec<ProxyNodeConfig>)
    ensures
        r@.map_values(|p: ProxyNodeConfig| node_view(p)) == spec_nodes(
            nodes@,
            keep_nonblank(strs(domains@)),
        ),
{
    let global = nonblank_domains(domains);
    let ghost g = keep_nonblank(strs(domains@));
    let ghost orig = nodes@;
    let mut rest = nodes;
    let mut out: Vec<ProxyNodeConfig> = Vec::new();
    let ticket_word = String::from_str("ticket");
    let total = rest.len();
    let mut k: usize = 0;
    while rest.len() > 0
        invariant
            orig.len() == total,
            k + rest@.len() == orig.len(),
            rest@ == orig.subrange(k as int, orig.len() as int),
            strs(global@) == g,
            ticket_word@ == "ticket"@,
            out@.map_values(|p: ProxyNodeConfig| node_view(p)) == spec_nodes(
                orig.subrange(0, k as int),
                g,
            ),
        decreases rest@.len(),
    {
        let n = rest.remove(0);
        proof {
            assert(n == orig[k as int]);
            let pre = orig.subrange(0, k + 1);
            assert(pre.drop_last() =~= orig.subrange(0, k as int));
            assert(pre.last() == n);
        }
        let selected = !n.ticket.as_str().is_empty() || !n.endpoint_id.as_str().is_empty();
        if selected {
            let NodeInput { connection_type, ticket, endpoint_id, domains: own, two_factor } = n;
            let is_ticket = connection_type == ticket_word || !ticket.as_str().is_empty();
            let connection = if is_ticket {
                ConnectionConfig::Ticket(ticket)
            } else {
                ConnectionConfig::EndpointId(endpoint_id)
            };
            let mut merged = own;
            merge_into(&mut merged, &global);
            let cfg = ProxyNodeConfig { connection, domains: merged, two_factor };
            out.push(cfg);
            assert(out@.map_values(|p: ProxyNodeConfig| node_view(p)) =~= spec_nodes(
                orig.subrange(0, k + 1),
                g,
            ));
        } else {
            assert(out@.map_values(|p: ProxyNodeConfig| node_view(p)) =~= spec_nodes(
                orig.subrange(0, k + 1),
                g,
            ));
        }
        k = k + 1;
    }
    assert(orig.subrange(0, k as int) =~= orig);
    out
}

/// How requests are spread over the backends of one domain.
#[derive(Debug, Clone, Copy, PartialEq, Eq, Structural)]
pub enum ProxyLoadBalancingStrategy {
    RoundRobin,
    Random,
}

/// The strategy a name stands for.
pub open spec fn spec_strategy(s: Seq<char>) -> Option<ProxyLoadBalancingStrategy> {
    if s == "round_robin"@ {
        Some(ProxyLoadBalancingStrategy::RoundRobin)
    } else if s == "random"@ {
        Some(ProxyLoadBalancingStrategy::Random)
    } else {
        None
    }
}

/// Why a strategy name was refused.
pub open spec fn unknown_strategy_message(s: Seq<char>) -> Seq<char> {
    "Unknown load balancing strategy: "@ + s
}

impl ProxyLoadBalancingStrategy {
    /// Reads `round_robin` or `random`.
    pub fn from_str(s: &str) -> (r: Result<Self, String>)
        ensures
            spec_strategy(s@) matches Some(k) ==> r == Ok::<Self, String>(k),
            spec_strategy(s@) is None ==> (r matches Err(e) && e@ == unknown_strategy_message(s@)),
    {
        let given = String::from_str(s);
        if given == String::from_str("round_robin") {
            Ok(ProxyLoadBalancingStrategy::RoundRobin)
        } else if given == String::from_str("random") {
            Ok(ProxyLoadBalancingStrategy::Random)
        } else {
            let mut m = chars_of("Unknown load balancing strategy: ");
            append_str(&mut m, s);
            Err(string_of(m.as_slice()))
        }
    }
}

/// Everything the proxy manager needs to start.
#[derive(Debug, Clone)]
pub struct ProxyManagerConfig {
    pub nodes: Vec<ProxyNodeConfig>,
    pub local_proxy_addr: String,
    pub dns_listen_addr: String,
    pub upstream_dns: String,
    pub load_balancing: ProxyLoadBalancingStrategy,
    pub tun_name: String,
    /// Chosen by the user, never probed: `true` requests TUN, `false` runs the local proxy.
    pub use_tun: bool,
    pub relay_mode: String,
    pub relay_url: String,
    /// Bearer token for a `custom` relay that requires one; never logged.
    pub relay_auth_token: String,
}

/// The text of an optional setting, or its default.
pub open spec fn or_default(o: Option<String>, d: Seq<char>) -> Seq<char> {
    match o {
        Some(s) => s@,
        None => d,
    }
}

/// An optional setting, or its default.
pub fn setting_or(o: Option<String>, d: &str) -> (r: String)
    ensures
        r@ == or_default(o, d@),
{
    match o {
        Some(s) => s,
        None => String::from_str(d),
    }
}

/// The local proxy address a request asks for: `127.0.0.1:8080` unless it names one.
pub fn local_addr_of(o: &Option<String>) -> (r: String)
    ensures
        r@ == or_default(*o, "127.0.0.1:8080"@),
{
    match o {
        Some(s) => s.clone(),
        None => String::from_str("127.0.0.1:8080"),
    }
}

/// The DNS listen address a request asks for, or `default`.
pub fn dns_addr_of(o: &Option<String>, default: &str) -> (r: String)
    ensures
        r@ == or_default(*o, default@),
{
    match o {
        Some(s) => s.clone(),
        None => String::from_str(default),
    }
}

/// The configuration a start request yields, given the DNS address used when it names none.
pub open spec fn config_matches(c: ProxyManagerConfig, req: StartProxyRequest, dns_default: Seq<char>) -> bool {
    &&& c.nodes@.map_values(|p: ProxyNodeConfig| node_view(p)) == spec_nodes(
        req.nodes@,
        keep_nonblank(strs(req.domains@)),
    )
    &&& c.local_proxy_addr@ == or_default(req.local_addr, "127.0.0.1:8080"@)
    &&& c.dns_listen_addr@ == or_default(req.dns_addr, dns_default)
    &&& c.upstream_dns@ == or_default(req.upstream_dns, "8.8.8.8:53"@)
    &&& Some(c.load_balancing) == spec_strategy(or_default(req.load_balancing, "round_robin"@))
    &&& c.tun_name@ == or_default(req.tun_name, "nexa-tun"@)
    &&& c.use_tun == match req.use_tun {
        Some(b) => b,
        None => false,
    }
    &&& c.relay_mode@ == or_default(req.relay_mode, "pinned"@)
    &&& c.relay_url@ == or_default(req.relay_url, Seq::<char>::empty())
    &&& c.relay_auth_token@ == or_default(req.relay_auth_token, Seq::<char>::empty())
}

/// Turns a start request into the manager's configuration. Refused with
/// `proxy.no_nodes` when no node names a ticket or an endpoint ID, and with
/// `proxy.invalid_load_balancing` (the refused name in the detail) for an unknown strategy;
/// otherwise every absent setting takes its default.
pub fn plan_start(req: StartProxyRequest, dns_default: &str) -> (r: Result<ProxyManagerConfig, AppError>)
    ensures
        spec_nodes(req.nodes@, keep_nonblank(strs(req.domains@))).len() == 0 ==> (r matches Err(e)
            && e.spec_parts() == (codes::PROXY_NO_NODES@, None::<Seq<char>>)),
        spec_nodes(req.nodes@, keep_nonblank(strs(req.domains@))).len() > 0 && spec_strategy(
            or_default(req.load_balancing, "round_robin"@),
        ) is None ==> (r matches Err(e) && e.spec_parts() == (
            codes::PROXY_INVALID_LOAD_BALANCING@,
            detail_of(unknown_strategy_message(or_default(req.load_balancing, "round_robin"@))),
        )),
        spec_nodes(req.nodes@, keep_nonblank(strs(req.domains@))).len() > 0 && spec_strategy(
            or_default(req.load_balancing, "round_robin"@),
        ) is Some ==> (r matches Ok(c) && config_matches(c, req, dns_default@)),
{
    let ghost input = req;
    let StartProxyRequest {
        nodes,
        domains,
        local_addr,
        dns_addr,
        upstream_dns,
        load_balancing,
        tun_name,
        use_tun,
        relay_mode,
        relay_url,
        relay_auth_token,
    } = req;
    let parsed = build_node_configs(nodes, &domains);
    if parsed.len() == 0 {
        assert(spec_nodes(input.nodes@, keep_nonblank(strs(input.domains@))).len() == 0);
        return Err(AppError::new(codes::PROXY_NO_NODES));
    }
    let lb_name = setting_or(load_balancing, "round_robin");
    let lb = match ProxyLoadBalancingStrategy::from_str(lb_name.as_str()) {
        Ok(lb) => lb,
        Err(e) => {
            return Err(AppError::cause(codes::PROXY_INVALID_LOAD_BALANCING, e.as_str()));
        },
    };
    let cfg = ProxyManagerConfig {
        nodes: parsed,
        local_proxy_addr: setting_or(local_addr, "127.0.0.1:8080"),
        dns_listen_addr: setting_or(dns_addr, dns_default),
        upstream_dns: setting_or(upstream_dns, "8.8.8.8:53"),
        load_balancing: lb,
        tun_name: setting_or(tun_name, "nexa-tun"),
        use_tun: match use_tun {
            Some(b) => b,
            None => false,
        },
        relay_mode: setting_or(relay_mode, "pinned"),
        relay_url: setting_or(relay_url, ""),
        relay_auth_token: setting_or(relay_auth_token, ""),
    };
    assert(""@ =~= Seq::<char>::empty()) by {
        reveal_strlit("");
    }
    Ok(cfg)
}

/// Why a start attempt failed.
#[derive(Debug, Clone)]
pub enum StartError {
    /// Nothing would have been forwarded: no node carries a domain (`total` is zero), or every
    /// probed backend failed to connect.
    NoReachableBackend { total: usize, unreachable_ids: String },
    /// Everything else, with its rendered reason.
    Other(String),
    /// A backend was reached and then refused this client for lack of 2FA credentials.
    TwoFactorRequired { unreachable_ids: String },
}

/// The message a start failure renders as.
pub open spec fn start_error_message(e: StartError) -> Seq<char> {
    match e {
        StartError::NoReachableBackend { total, unreachable_ids } => if total == 0 {
            "no backend is configured: the configured nodes carry no domains, so there is nothing to forward"@
        } else {
            "no backend is reachable: all "@ + dec(total as nat)
                + " configured node(s) failed to connect ("@ + unreachable_ids@ + ")"@
        },
        StartError::TwoFactorRequired { unreachable_ids } =>
            "the server requires 2FA but this client has no credentials: "@ + unreachable_ids@
            + " accepted the connection and then refused it"@,
        StartError::Other(m) => m@,
    }
}

/// The code a start failure is reported under.
pub open spec fn start_error_code(e: StartError) -> Seq<char> {
    match e {
        StartError::NoReachableBackend { .. } => codes::PROXY_NO_REACHABLE_BACKEND@,
        StartError::TwoFactorRequired { .. } => codes::PROXY_TWO_FACTOR_REQUIRED@,
        StartError::Other(_) => codes::PROXY_START_FAILED@,
    }
}

impl StartError {
    /// The failure as text, for logs and as the detail of the reported error.
    pub fn message(&self) -> (s: String)
        ensures
            s@ == start_error_message(*self),
    {
        match self {
            StartError::NoReachableBackend { total, unreachable_ids } => {
                if *total == 0 {
                    String::from_str(
                        "no backend is configured: the configured nodes carry no domains, so there is nothing to forward",
                    )
                } else {
                    let mut m = chars_of("no backend is reachable: all ");
                    push_decimal(&mut m, *total as u64);
                    append_str(&mut m, " configured node(s) failed to connect (");
                    append_str(&mut m, unreachable_ids.as_str());
                    append_str(&mut m, ")");
                    string_of(m.as_slice())
                }
            },
            StartError::TwoFactorRequired { unreachable_ids } => {
                let mut m = chars_of("the server requires 2FA but this client has no credentials: ");
                append_str(&mut m, unreachable_ids.as_str());
                append_str(&mut m, " accepted the connection and then refused it");
                string_of(m.as_slice())
            },
            StartError::Other(msg) => msg.clone(),
        }
    }

    /// The error recorded for the UI: the code for this kind of failure, the message as detail.
    pub fn to_app_error(&self) -> (e: AppError)
        ensures
            e.code@ == start_error_code(*self),
            opt_view(e.detail) == detail_of(start_error_message(*self)),
    {
        let msg = self.message();
        let code = match self {
            StartError::NoReachableBackend { .. } => codes::PROXY_NO_REACHABLE_BACKEND,
            StartError::TwoFactorRequired { .. } => codes::PROXY_TWO_FACTOR_REQUIRED,
            StartError::Other(_) => codes::PROXY_START_FAILED,
        };
        AppError::with_detail(code, msg.as_str())
    }
}

/// The reachability gate before anything is brought up: with no reachable backend a start
/// fails, as missing 2FA when some backend asked for credentials, as unreachable otherwise.
pub fn check_preconnect(total: usize, reachable: usize, any_auth_required: bool, unreachable_ids: String) -> (r: Result<(), StartError>)
    ensures
        reachable > 0 ==> r is Ok,
        reachable == 0 && any_auth_required ==> (r matches Err(StartError::TwoFactorRequired { unreachable_ids: ids }) && ids == unreachable_ids),
        reachable == 0 && !any_auth_required ==> (r matches Err(StartError::NoReachableBackend { total: t, unreachable_ids: ids }) && t == total && ids == unreachable_ids),
{
    if any_auth_required && reachable == 0 {
        return Err(StartError::TwoFactorRequired { unreachable_ids });
    }
    if reachable == 0 {
        return Err(StartError::NoReachableBackend { total, unreachable_ids });
    }
    Ok(())
}

/// The part of `s` before its first `':'` (all of `s` when there is none).
pub open spec fn before_first_colon(s: Seq<char>) -> Seq<char>
    decreases s.len(),
{
    if s.len() == 0 {
        s
    } else if s[0] == ':' {
        seq![]
    } else {
        seq![s[0]] + before_first_colon(s.drop_first())
    }
}

/// The address system DNS is pointed at in TUN mode: the host part of the DNS listen
/// address, everything before its first `':'`.
pub fn tun_dns_ip(dns_listen_addr: &str) -> (r: String)
    ensures
        r@ == before_first_colon(dns_listen_addr@),
{
    let v = chars_of(dns_listen_addr);
    let mut i: usize = 0;
    assert(v@.subrange(0, v@.len() as int) =~= v@);
    assert(v@.subrange(0, 0) + v@ =~= v@);
    while i < v.len() && v[i] != ':'
        invariant
            i <= v.len(),
            forall|k: int| 0 <= k < i ==> v@[k] != ':',
            before_first_colon(v@) == v@.subrange(0, i as int) + before_first_colon(v@.subrange(i as int, v@.len() as int)),
        decreases v.len() - i,
    {
        proof {
            let t = v@.subrange(i as int, v@.len() as int);
            assert(t.drop_first() =~= v@.subrange(i + 1, v@.len() as int));
            assert(v@.subrange(0, i + 1) =~= v@.subrange(0, i as int) + seq![t[0]]);
        }
        i = i + 1;
    }
    proof {
        assert(v@.subrange(0, v@.len() as int) =~= v@);
        let t = v@.subrange(i as int, v@.len() as int);
        if i < v.len() {
            assert(t[0] == ':');
        }
        assert(v@.subrange(0, i as int) + before_first_colon(t) =~= v@.subrange(0, i as int));
    }
    string_of(vstd::slice::slice_subrange(v.as_slice(), 0, i))
}

/// Every node's domains, in node order.
pub open spec fn spec_all_domains(nodes: Seq<ProxyNodeConfig>) -> Seq<Seq<char>>
    decreases nodes.len(),
{
    if nodes.len() == 0 {
        seq![]
    } else {
        spec_all_domains(nodes.drop_last()) + strs(nodes.last().domains@)
    }
}

/// The domains of all nodes together: what the DNS server hijacks.
pub fn all_domains(nodes: &Vec<ProxyNodeConfig>) -> (r: Vec<String>)
    ensures
        strs(r@) == spec_all_domains(nodes@),
{
    let mut r: Vec<String> = Vec::new();
    let mut i: usize = 0;
    while i < nodes.len()
        invariant
            i <= nodes.len(),
            strs(r@) == spec_all_domains(nodes@.subrange(0, i as int)),
        decreases nodes.len() - i,
    {
        let ds = &nodes[i].domains;
        let ghost start = r@;
        let mut j: usize = 0;
        while j < ds.len()
            invariant
                j <= ds.len(),
                strs(r@) == strs(start) + strs(ds@.subrange(0, j as int)),
            decreases ds.len() - j,
        {
            let ghost before = r@;
            r.push(String::from_str(ds[j].as_str()));
            proof {
                assert(strs(r@) =~= strs(before).push(ds@[j as int]@));
                assert(strs(ds@.subrange(0, j + 1)) =~= strs(ds@.subrange(0, j as int)).push(ds@[j as int]@));
            }
            j = j + 1;
        }
        proof {
            assert(ds@.subrange(0, ds.len() as int) =~= ds@);
            assert(nodes@.subrange(0, i + 1).drop_last() =~= nodes@.subrange(0, i as int));
        }
        i = i + 1;
    }
    assert(nodes@.subrange(0, nodes.len() as int) =~= nodes@);
    r
}

/// Whether a node's 2FA credentials are applied: it has some, and the secret is not blank.
pub open spec fn spec_two_factor_applies(node: ProxyNodeConfig) -> bool {
    node.two_factor matches Some(tf) && spec_trim(tf.secret@).len() > 0
}

/// Whether the handshake is set up for `node`.
pub fn two_factor_applies(node: &ProxyNodeConfig) -> (b: bool)
    ensures
        b == spec_two_factor_applies(*node),
{
    match &node.two_factor {
        None => false,
        Some(tf) => {
            let t = trim(tf.secret.as_str());
            !t.as_str().is_empty()
        },
    }
}

/// What the TUN mode runs with.
#[derive(Debug, Clone)]
pub struct TunProxyConfig {
    /// The TUN device name (macOS picks its own `utunN`).
    pub tunnel_name: String,
    /// The address system DNS is pointed at.
    pub dns_ip: String,
    /// The local DNS server.
    pub dns: DnsServerConfig,
}

/// The TUN configuration for a manager configuration: its device name, the host part of the
/// DNS listen address as the system resolver, and a DNS server hijacking every node's domains.
pub fn tun_proxy_config(config: &ProxyManagerConfig) -> (t: TunProxyConfig)
    ensures
        t.tunnel_name@ == config.tun_name@,
        t.dns_ip@ == before_first_colon(config.dns_listen_addr@),
        t.dns.listen_addr@ == config.dns_listen_addr@,
        t.dns.upstream_dns@ == config.upstream_dns@,
        strs(t.dns.proxy_domains@) == spec_all_domains(config.nodes@),
{
    TunProxyConfig {
        tunnel_name: String::from_str(config.tun_name.as_str()),
        dns_ip: tun_dns_ip(config.dns_listen_addr.as_str()),
        dns: DnsServerConfig {
            listen_addr: String::from_str(config.dns_listen_addr.as_str()),
            upstream_dns: String::from_str(config.upstream_dns.as_str()),
            proxy_domains: all_domains(&config.nodes),
        },
    }
}


/// The link recorded for `id` in a table of reported links: the last entry for it wins, and an
/// ID the table does not name has no selected path yet.
pub open spec fn link_for(kinds: Seq<(Seq<char>, LinkKind)>, id: Seq<char>) -> LinkKind
    decreases kinds.len(),
{
    if kinds.len() == 0 {
        LinkKind::Unknown
    } else if kinds.last().0 == id {
        kinds.last().1
    } else {
        link_for(kinds.drop_last(), id)
    }
}

/// A reported link as plain values: configured string, endpoint ID, link.
pub open spec fn endpoint_link_view(l: EndpointLink) -> (Seq<char>, Seq<char>, LinkKind) {
    (l.connection@, l.endpoint_id@, l.link)
}

/// A link table as plain values.
pub open spec fn kinds_view(kinds: Seq<(String, LinkKind)>) -> Seq<(Seq<char>, LinkKind)> {
    kinds.map_values(|k: (String, LinkKind)| (k.0@, k.1))
}

/// The links of `nodes`, whose connection strings resolve to `resolved` (position for
/// position): one entry per node that resolves, in node order, carrying the link the table
/// reports for its endpoint.
pub open spec fn spec_endpoint_links(
    nodes: Seq<ProxyNodeConfig>,
    resolved: Seq<Option<String>>,
    kinds: Seq<(Seq<char>, LinkKind)>,
) -> Seq<(Seq<char>, Seq<char>, LinkKind)>
    decreases nodes.len(),
{
    if nodes.len() == 0 || resolved.len() < nodes.len() {
        seq![]
    } else {
        let n = (nodes.len() - 1) as int;
        let rest = spec_endpoint_links(nodes.drop_last(), resolved.subrange(0, n), kinds);
        match resolved[n] {
            Some(id) => rest.push((conn_view(nodes[n].connection).1, id@, link_for(kinds, id@))),
            None => rest,
        }
    }
}

/// The link recorded for `id`, scanning the table from its end.
fn lookup_link(kinds: &Vec<(String, LinkKind)>, id: &str) -> (k: LinkKind)
    ensures
        k == link_for(kinds_view(kinds@), id@),
{
    let mut i: usize = kinds.len();
    assert(kinds@.subrange(0, i as int) =~= kinds@);
    while i > 0
        invariant
            i <= kinds.len(),
            link_for(kinds_view(kinds@), id@) == link_for(kinds_view(kinds@.subrange(0, i as int)), id@),
        decreases i,
    {
        let ghost pre = kinds_view(kinds@.subrange(0, i as int));
        proof {
            assert(kinds_view(kinds@.subrange(0, i - 1)) =~= pre.drop_last());
            assert(pre.last() == (kinds@[i - 1].0@, kinds@[i - 1].1));
        }
        if crate::text::str_eq(kinds[i - 1].0.as_str(), id) {
            return kinds[i - 1].1;
        }
        i = i - 1;
    }
    LinkKind::Unknown
}

/// How each configured node currently reaches its backend.
///
/// `resolved[i]` is the endpoint ID that node `i`'s ticket or ID resolves to, `None` where it
/// resolves to none; `kinds` is the link table of the running endpoint group, `None` when
/// nothing runs. Nothing running reports no links; otherwise one entry per resolving node, in
/// configuration order, with the link the table reports for its endpoint (`Unknown` where it
/// reports none).
pub fn endpoint_links(
    nodes: &Vec<ProxyNodeConfig>,
    resolved: &Vec<Option<String>>,
    kinds: &Option<Vec<(String, LinkKind)>>,
) -> (r: Vec<EndpointLink>)
    requires
        resolved.len() == nodes.len(),
    ensures
        kinds is None ==> r.len() == 0,
        kinds matches Some(t) ==> r@.map_values(|l: EndpointLink| endpoint_link_view(l))
            == spec_endpoint_links(nodes@, resolved@, kinds_view(t@)),
{
    let table = match kinds {
        None => { return Vec::new(); },
        Some(t) => t,
    };
    let ghost kv = kinds_view(table@);
    let mut r: Vec<EndpointLink> = Vec::new();
    let mut i: usize = 0;
    while i < nodes.len()
        invariant
            i <= nodes.len(),
            resolved.len() == nodes.len(),
            kv == kinds_view(table@),
            r@.map_values(|l: EndpointLink| endpoint_link_view(l)) == spec_endpoint_links(
                nodes@.subrange(0, i as int),
                resolved@.subrange(0, i as int),
                kv,
            ),
        decreases nodes.len() - i,
    {
        proof {
            let ns = nodes@.subrange(0, i + 1);
            assert(ns.drop_last() =~= nodes@.subrange(0, i as int));
            assert(resolved@.subrange(0, i + 1).subrange(0, i as int) =~= resolved@.subrange(0, i as int));
        }
        match &resolved[i] {
            Some(id) => {
                let connection = match &nodes[i].connection {
                    ConnectionConfig::Ticket(t) => String::from_str(t.as_str()),
                    ConnectionConfig::EndpointId(e) => String::from_str(e.as_str()),
                };
                let link = lookup_link(table, id.as_str());
                let ghost before = r@;
                r.push(EndpointLink { connection, endpoint_id: String::from_str(id.as_str()), link });
                assert(r@.map_values(|l: EndpointLink| endpoint_link_view(l)) =~= before.map_values(
                    |l: EndpointLink| endpoint_link_view(l),
                ).push((conn_view(nodes@[i as int].connection).1, id@, link)));
            },
            None => {},
        }
        i = i + 1;
    }
    proof {
        assert(nodes@.subrange(0, nodes.len() as int) =~= nodes@);
        assert(resolved@.subrange(0, resolved.len() as int) =~= resolved@);
    }
    r
}


/// The credentials handed to each backend, as plain values: the backend's endpoint ID and the
/// node's client ID, secret and algorithm.
pub open spec fn spec_two_factor_targets(nodes: Seq<ProxyNodeConfig>, resolved: Seq<Option<String>>) -> Seq<(Seq<char>, Seq<char>, Seq<char>, Seq<char>)>
    decreases nodes.len(),
{
    if nodes.len() == 0 || resolved.len() < nodes.len() {
        seq![]
    } else {
        let n = (nodes.len() - 1) as int;
        let rest = spec_two_factor_targets(nodes.drop_last(), resolved.subrange(0, n));
        if spec_two_factor_applies(nodes[n]) && resolved[n] is Some {
            let tf = nodes[n].two_factor->0;
            rest.push((resolved[n]->0@, tf.client_id@, tf.secret@, tf.algorithm@))
        } else {
            rest
        }
    }
}

/// A backend and the credentials its handshake uses.
#[derive(Debug, Clone)]
pub struct TwoFactorTarget {
    pub endpoint_id: String,
    pub credentials: NodeTwoFactor,
}

/// A target as plain values.
pub open spec fn target_view(t: TwoFactorTarget) -> (Seq<char>, Seq<char>, Seq<char>, Seq<char>) {
    (t.endpoint_id@, t.credentials.client_id@, t.credentials.secret@, t.credentials.algorithm@)
}

/// Where 2FA is set up once the endpoint group exists: every node whose credentials apply
/// (some, with a non-blank secret) and whose ticket or ID resolves (`resolved[i]` is what node
/// `i` resolves to), in configuration order, keyed by the backend's endpoint ID. A node without
/// credentials opens no auth stream, and one that resolves to nothing has no backend to key.
pub fn two_factor_targets(nodes: &Vec<ProxyNodeConfig>, resolved: &Vec<Option<String>>) -> (r: Vec<TwoFactorTarget>)
    requires
        resolved.len() == nodes.len(),
    ensures
        r@.map_values(|t: TwoFactorTarget| target_view(t)) == spec_two_factor_targets(nodes@, resolved@),
{
    let mut r: Vec<TwoFactorTarget> = Vec::new();
    let mut i: usize = 0;
    while i < nodes.len()
        invariant
            i <= nodes.len(),
            resolved.len() == nodes.len(),
            r@.map_values(|t: TwoFactorTarget| target_view(t)) == spec_two_factor_targets(
                nodes@.subrange(0, i as int),
                resolved@.subrange(0, i as int),
            ),
        decreases nodes.len() - i,
    {
        proof {
            assert(nodes@.subrange(0, i + 1).drop_last() =~= nodes@.subrange(0, i as int));
            assert(resolved@.subrange(0, i + 1).subrange(0, i as int) =~= resolved@.subrange(0, i as int));
        }
        let node = &nodes[i];
        if two_factor_applies(node) {
            match (&resolved[i], &node.two_factor) {
                (Some(id), Some(tf)) => {
                    let credentials = NodeTwoFactor {
                        client_id: String::from_str(tf.client_id.as_str()),
                        secret: String::from_str(tf.secret.as_str()),
                        algorithm: String::from_str(tf.algorithm.as_str()),
                    };
                    let ghost before = r@;
                    r.push(TwoFactorTarget { endpoint_id: String::from_str(id.as_str()), credentials });
                    assert(r@.map_values(|t: TwoFactorTarget| target_view(t)) =~= before.map_values(
                        |t: TwoFactorTarget| target_view(t),
                    ).push((id@, tf.client_id@, tf.secret@, tf.algorithm@)));
                },
                _ => {},
            }
        }
        i = i + 1;
    }
    proof {
        assert(nodes@.subrange(0, nodes.len() as int) =~= nodes@);
        assert(resolved@.subrange(0, resolved.len() as int) =~= resolved@);
    }
    r
}


/// The mode a started manager runs in while it forwards: the tunnel when one was asked for,
/// the local proxy otherwise.
pub fn running_mode(use_tun: bool) -> (m: ProxyMode)
    ensures
        m == (if use_tun { ProxyMode::Tun } else { ProxyMode::LocalProxy }),
{
    if use_tun {
        ProxyMode::Tun
    } else {
        ProxyMode::LocalProxy
    }
}

/// How a TUN start ends once the tunnel stops, given how its run ended (`Err` with the run's
/// failure): a clean stop is a successful start; a failure is reported as `StartError::Other`
/// with `TUN proxy failed: ` and the failure (never answered with a local proxy instead), and
/// either way the instance is gone and the mode goes back to none.
pub fn tun_exit(run: Result<(), String>) -> (r: (Result<(), StartError>, Option<ProxyMode>))
    ensures
        r.1 is None,
        run is Ok ==> r.0 is Ok,
        run matches Err(e) ==> (r.0 matches Err(StartError::Other(m)) && m@ == "TUN proxy failed: "@ + e@),
{
    match run {
        Ok(()) => (Ok(()), None),
        Err(e) => {
            let mut m = chars_of("TUN proxy failed: ");
            append_str(&mut m, e.as_str());
            proof {
                reveal_strlit("TUN proxy failed: ");
            }
            (Err(StartError::Other(string_of(m.as_slice()))), None)
        },
    }
}


/// Where starting the proxy manager is.
#[derive(Debug, Clone, Copy, PartialEq, Eq, Structural)]
pub enum StartPhase {
    /// Resolving the relay mode from the configuration.
    ParsingRelay,
    /// Binding the local iroh endpoint (IPv4 only).
    BindingEndpoint,
    /// Building the endpoint group over the nodes.
    BuildingGroup,
    /// Applying each node's 2FA credentials (see `two_factor_targets`).
    ApplyingTwoFactor,
    /// Probing the backends.
    Probing,
    /// The tunnel runs; the start ends when it does.
    RunningTun,
    /// The local proxy is being brought up.
    StartingLocal,
    Finished,
}

/// A start in progress: its phase, whether a tunnel was asked for, the mode recorded for the
/// status line, and how the start ended.
#[derive(Debug)]
pub struct StartState {
    pub phase: StartPhase,
    pub use_tun: bool,
    pub mode: Option<ProxyMode>,
    pub outcome: Option<Result<(), StartError>>,
}

/// What came of the last action.
#[derive(Debug)]
pub enum StartEvent {
    Done,
    /// The action failed, with its rendered reason.
    Failed(String),
    /// What probing the backends found.
    Probed { total: usize, reachable: usize, any_auth_required: bool, unreachable_ids: String },
    /// The tunnel stopped: cleanly, or with its failure.
    TunEnded(Result<(), String>),
}

/// What the caller does next.
#[derive(Debug, Clone, Copy, PartialEq, Eq, Structural)]
pub enum StartAction {
    ParseRelay,
    BindEndpoint,
    BuildGroup,
    ApplyTwoFactor,
    Probe,
    /// Create the TUN device and run the tunnel (see `tun_run`).
    RunTun,
    /// Bind the local proxy and run it in the background.
    StartLocalProxy,
    /// The event did not belong to the phase: keep waiting on the action under way.
    Wait,
    /// Report `outcome`.
    Finish,
}

/// An outcome as plain values: the code and message of a failure.
pub open spec fn outcome_view(o: Option<Result<(), StartError>>) -> Option<Result<(), (Seq<char>, Seq<char>)>> {
    match o {
        None => None,
        Some(Ok(())) => Some(Ok(())),
        Some(Err(e)) => Some(Err((start_error_code(e), start_error_message(e)))),
    }
}

/// A start that failed with `message`: no mode is left recorded.
pub open spec fn start_failed(message: Seq<char>) -> (StartPhase, Option<ProxyMode>, Option<Result<(), (Seq<char>, Seq<char>)>>, StartAction) {
    (StartPhase::Finished, None, Some(Err((codes::PROXY_START_FAILED@, message))), StartAction::Finish)
}

/// The step of a start in `s` once `event` came of its action: phase, mode, outcome (as
/// plain values) and the next action.
///
/// The relay mode, the endpoint, the group and the 2FA credentials come first, and any failure
/// there ends the start. Nothing is bound for forwarding until the backends were probed and
/// one of them is reachable (`check_preconnect`). Then the mode is recorded and the tunnel or
/// the local proxy is started. A tunnel's start ends when the tunnel does (`tun_exit`), with
/// the mode cleared; a local proxy's start ends once it is up, and keeps its mode. A failure
/// never leaves a mode recorded.
pub open spec fn spec_start_step(s: StartState, event: StartEvent) -> (StartPhase, Option<ProxyMode>, Option<Result<(), (Seq<char>, Seq<char>)>>, StartAction) {
    match (s.phase, event) {
        (StartPhase::ParsingRelay, StartEvent::Done) => (StartPhase::BindingEndpoint, None, None, StartAction::BindEndpoint),
        (StartPhase::BindingEndpoint, StartEvent::Done) => (StartPhase::BuildingGroup, None, None, StartAction::BuildGroup),
        (StartPhase::BuildingGroup, StartEvent::Done) => (StartPhase::ApplyingTwoFactor, None, None, StartAction::ApplyTwoFactor),
        (StartPhase::ApplyingTwoFactor, StartEvent::Done) => (StartPhase::Probing, None, None, StartAction::Probe),
        (StartPhase::ParsingRelay, StartEvent::Failed(e))
        | (StartPhase::BindingEndpoint, StartEvent::Failed(e))
        | (StartPhase::BuildingGroup, StartEvent::Failed(e))
        | (StartPhase::ApplyingTwoFactor, StartEvent::Failed(e))
        | (StartPhase::StartingLocal, StartEvent::Failed(e)) => start_failed(e@),
        (StartPhase::Probing, StartEvent::Probed { total, reachable, any_auth_required, unreachable_ids }) =>
            if reachable > 0 {
            if s.use_tun {
                (StartPhase::RunningTun, Some(ProxyMode::Tun), None, StartAction::RunTun)
            } else {
                (StartPhase::StartingLocal, Some(ProxyMode::LocalProxy), None, StartAction::StartLocalProxy)
            }
        } else {
            let e = if any_auth_required {
                StartError::TwoFactorRequired { unreachable_ids }
            } else {
                StartError::NoReachableBackend { total, unreachable_ids }
            };
            (StartPhase::Finished, None, Some(Err((start_error_code(e), start_error_message(e)))), StartAction::Finish)
        },
        (StartPhase::RunningTun, StartEvent::TunEnded(r)) => match r {
            Ok(()) => (StartPhase::Finished, None, Some(Ok(())), StartAction::Finish),
            Err(e) => start_failed("TUN proxy failed: "@ + e@),
        },
        (StartPhase::StartingLocal, StartEvent::Done) => (StartPhase::Finished, Some(ProxyMode::LocalProxy), Some(Ok(())), StartAction::Finish),
        (StartPhase::Finished, _) => (s.phase, s.mode, outcome_view(s.outcome), StartAction::Finish),
        _ => (s.phase, s.mode, outcome_view(s.outcome), StartAction::Wait),
    }
}

/// What each phase of a start implies.
pub open spec fn start_wf(s: StartState) -> bool {
    &&& (s.phase == StartPhase::ParsingRelay || s.phase == StartPhase::BindingEndpoint || s.phase
        == StartPhase::BuildingGroup || s.phase == StartPhase::ApplyingTwoFactor || s.phase
        == StartPhase::Probing) ==> s.mode is None && s.outcome is None
    &&& s.phase == StartPhase::RunningTun ==> s.use_tun && s.mode == Some(ProxyMode::Tun) && s.outcome is None
    &&& s.phase == StartPhase::StartingLocal ==> !s.use_tun && s.mode == Some(ProxyMode::LocalProxy) && s.outcome is None
    &&& s.phase == StartPhase::Finished ==> s.outcome is Some
    &&& s.outcome matches Some(Err(_)) ==> s.mode is None
}

/// A start that begins by resolving the relay mode.
pub fn start_begin(use_tun: bool) -> (r: (StartState, StartAction))
    ensures
        r.0 == (StartState { phase: StartPhase::ParsingRelay, use_tun, mode: None, outcome: None }),
        r.1 == StartAction::ParseRelay,
        start_wf(r.0),
{
    (StartState { phase: StartPhase::ParsingRelay, use_tun, mode: None, outcome: None }, StartAction::ParseRelay)
}

/// One step of starting the proxy manager (see `spec_start_step`).
pub fn start_step(s: StartState, event: StartEvent) -> (r: (StartState, StartAction))
    requires
        start_wf(s),
    ensures
        (r.0.phase, r.0.mode, outcome_view(r.0.outcome), r.1) == spec_start_step(s, event),
        r.0.use_tun == s.use_tun,
        start_wf(r.0),
{
    let StartState { phase, use_tun, mode, outcome } = s;
    match (phase, event) {
        (StartPhase::ParsingRelay, StartEvent::Done) =>
            (StartState { phase: StartPhase::BindingEndpoint, use_tun, mode, outcome }, StartAction::BindEndpoint),
        (StartPhase::BindingEndpoint, StartEvent::Done) =>
            (StartState { phase: StartPhase::BuildingGroup, use_tun, mode, outcome }, StartAction::BuildGroup),
        (StartPhase::BuildingGroup, StartEvent::Done) =>
            (StartState { phase: StartPhase::ApplyingTwoFactor, use_tun, mode, outcome }, StartAction::ApplyTwoFactor),
        (StartPhase::ApplyingTwoFactor, StartEvent::Done) =>
            (StartState { phase: StartPhase::Probing, use_tun, mode, outcome }, StartAction::Probe),
        (StartPhase::ParsingRelay, StartEvent::Failed(e))
        | (StartPhase::BindingEndpoint, StartEvent::Failed(e))
        | (StartPhase::BuildingGroup, StartEvent::Failed(e))
        | (StartPhase::ApplyingTwoFactor, StartEvent::Failed(e))
        | (StartPhase::StartingLocal, StartEvent::Failed(e)) => (
            StartState { phase: StartPhase::Finished, use_tun, mode: None, outcome: Some(Err(StartError::Other(e))) },
            StartAction::Finish,
        ),
        (StartPhase::Probing, StartEvent::Probed { total, reachable, any_auth_required, unreachable_ids }) =>
            match check_preconnect(total, reachable, any_auth_required, unreachable_ids) {
            Ok(()) => if use_tun {
                (StartState { phase: StartPhase::RunningTun, use_tun, mode: Some(running_mode(use_tun)), outcome }, StartAction::RunTun)
            } else {
                (StartState { phase: StartPhase::StartingLocal, use_tun, mode: Some(running_mode(use_tun)), outcome }, StartAction::StartLocalProxy)
            },
            Err(e) => (StartState { phase: StartPhase::Finished, use_tun, mode: None, outcome: Some(Err(e)) }, StartAction::Finish),
        },
        (StartPhase::RunningTun, StartEvent::TunEnded(r)) => {
            let (res, m) = tun_exit(r);
            (StartState { phase: StartPhase::Finished, use_tun, mode: m, outcome: Some(res) }, StartAction::Finish)
        },
        (StartPhase::StartingLocal, StartEvent::Done) =>
            (StartState { phase: StartPhase::Finished, use_tun, mode, outcome: Some(Ok(())) }, StartAction::Finish),
        (StartPhase::Finished, _) => (StartState { phase, use_tun, mode, outcome }, StartAction::Finish),
        (ph, _) => (StartState { phase: ph, use_tun, mode, outcome }, StartAction::Wait),
    }
}

/// Nothing is bound for forwarding before a backend proved reachable: the step that starts the
/// tunnel or the local proxy is the one that read a probe with a reachable backend, and a
/// start that failed leaves no mode recorded.
pub proof fn law_no_forwarding_before_reachable(s: StartState, event: StartEvent)
    requires
        start_wf(s),
    ensures
        ({
            let r = spec_start_step(s, event);
            &&& (r.3 == StartAction::RunTun || r.3 == StartAction::StartLocalProxy) ==> s.phase == StartPhase::Probing
            &&& (r.3 == StartAction::RunTun || r.3 == StartAction::StartLocalProxy) ==> (event matches StartEvent::Probed {
                reachable,
                ..
            } && reachable > 0)
            &&& r.2 matches Some(Err(_)) ==> r.1 is None
        }),
{
}


/// The nodes a start runs are the inputs that name a backend, in input order, one for one:
/// each keeps its own 2FA credentials, names its ticket when it is a ticket node or carries a
/// ticket (its endpoint ID otherwise), and serves its own domains merged with the global ones.
pub proof fn law_nodes_come_from_selected_inputs(inputs: Seq<NodeInput>, global: Seq<Seq<char>>)
    ensures
        ({
            let sel = inputs.filter(|n: NodeInput| n.ticket@.len() > 0 || n.endpoint_id@.len() > 0);
            let out = spec_nodes(inputs, global);
            &&& out.len() == sel.len()
            &&& forall|k: int| 0 <= k < out.len() ==> {
                &&& (#[trigger] out[k]).2 == sel[k].two_factor
                &&& out[k].0 == (if sel[k].connection_type@ == "ticket"@ || sel[k].ticket@.len() > 0 {
                    (true, sel[k].ticket@)
                } else {
                    (false, sel[k].endpoint_id@)
                })
                &&& out[k].1 == merge_domains(strs(sel[k].domains@), global)
            }
        }),
    decreases inputs.len(),
{
    reveal(Seq::filter);
    let f = |n: NodeInput| n.ticket@.len() > 0 || n.endpoint_id@.len() > 0;
    if inputs.len() > 0 {
        law_nodes_come_from_selected_inputs(inputs.drop_last(), global);
        let sel0 = inputs.drop_last().filter(f);
        let sel = inputs.filter(f);
        assert(sel == (if f(inputs.last()) { sel0.push(inputs.last()) } else { sel0 }));
    }
}


/// A start takes its steps in order, each once the one before it succeeded: the endpoint is
/// bound after the relay mode was resolved, the group built after the endpoint was bound, the
/// credentials applied after the group exists and the backends probed after that; a tunnel
/// runs only when one was asked for and a local proxy only when none was. A failure of any of
/// these steps ends the start as `proxy.start_failed` with the failure's reason; unreachable
/// backends end it as unreachable, or as missing 2FA when one asked for credentials.
pub proof fn law_start_order(s: StartState, event: StartEvent)
    requires
        start_wf(s),
    ensures
        ({
            let r = spec_start_step(s, event);
            &&& r.3 == StartAction::BindEndpoint ==> s.phase == StartPhase::ParsingRelay && event is Done
            &&& r.3 == StartAction::BuildGroup ==> s.phase == StartPhase::BindingEndpoint && event is Done
            &&& r.3 == StartAction::ApplyTwoFactor ==> s.phase == StartPhase::BuildingGroup && event is Done
            &&& r.3 == StartAction::Probe ==> s.phase == StartPhase::ApplyingTwoFactor && event is Done
            &&& r.3 == StartAction::RunTun ==> s.use_tun && r.1 == Some(ProxyMode::Tun)
            &&& r.3 == StartAction::StartLocalProxy ==> !s.use_tun && r.1 == Some(ProxyMode::LocalProxy)
            &&& r.3 == StartAction::Finish ==> r.0 == StartPhase::Finished
        }),
        s.phase != StartPhase::Probing && s.phase != StartPhase::RunningTun && s.phase != StartPhase::Finished
            ==> (event matches StartEvent::Failed(e) ==> spec_start_step(s, event).2 == Some(
            Err::<(), (Seq<char>, Seq<char>)>((codes::PROXY_START_FAILED@, e@)),
        )),
        s.phase == StartPhase::Probing ==> (event matches StartEvent::Probed { reachable, any_auth_required, .. }
            ==> (reachable == 0 ==> (spec_start_step(s, event).2 matches Some(Err((code, _))) && code == (if any_auth_required {
            codes::PROXY_TWO_FACTOR_REQUIRED@
        } else {
            codes::PROXY_NO_REACHABLE_BACKEND@
        })))),
        s.phase == StartPhase::RunningTun ==> (event matches StartEvent::TunEnded(Ok(())) ==> spec_start_step(s, event).2 == Some(
            Ok::<(), (Seq<char>, Seq<char>)>(()),
        ) && spec_start_step(s, event).1 is None),
{
}

} // verus!
