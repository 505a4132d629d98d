//! The desktop command surface: what an invitation shows before it is accepted, and the tail
//! of the log the log page displays.
use vstd::prelude::*;
use crate::codes;
use crate::error::{AppError, detail_of, opt_view};
use crate::runner::err_parts;
use crate::text::{chars_of, string_of, has_prefix, spec_lines, text_lines};
use crate::elevate::texts;
use crate::host::{join, push_component, Platform};

verus! {

/// What an invitation points at.
#[derive(Debug, Clone)]
pub enum InviteTarget {
    /// A bare Node ID.
    NodeId(String),
    /// An address-bearing ticket.
    Ticket(String),
}

/// The 2FA half of a parsed invitation.
#[derive(Debug, Clone)]
pub struct InviteTotp {
    pub client_id: String,
    pub secret: String,
    /// The algorithm's lowercase name.
    pub algorithm: String,
    pub issuer: String,
}

/// A `nexapipe://` invitation as the provisioning grammar reads it.
#[derive(Debug, Clone)]
pub struct EndpointInvite {
    pub target: InviteTarget,
    pub name: Option<String>,
    pub domains: Vec<String>,
    pub relay: Option<String>,
    pub totp: Option<InviteTotp>,
}

/// The 2FA half of an invite, in the form the config store keeps it.
#[derive(Debug, Clone)]
pub struct InviteTotpPayload {
    pub client_id: String,
    pub secret: String,
    /// Lowercase algorithm name.
    pub algorithm: String,
    pub issuer: String,
}

/// An invitation read into the shape the UI needs to fill in a node.
#[derive(Debug, Clone)]
pub struct InvitePayload {
    /// `endpoint` for a bare Node ID, `ticket` for a ticket.
    pub kind: String,
    /// The Node ID, or the ticket, verbatim.
    pub target: String,
    /// Cosmetic label from the invite.
    pub name: Option<String>,
    pub domains: Vec<String>,
    pub relay: Option<String>,
    pub totp: Option<InviteTotpPayload>,
}

/// The payload shows the invitation as it was read: its target kind and text, and everything
/// else carried over unchanged.
pub open spec fn payload_of(invite: EndpointInvite, p: InvitePayload) -> bool {
    &&& match invite.target {
        InviteTarget::NodeId(id) => p.kind@ == "endpoint"@ && p.target@ == id@,
        InviteTarget::Ticket(t) => p.kind@ == "ticket"@ && p.target@ == t@,
    }
    &&& opt_view(p.name) == opt_view(invite.name)
    &&& texts(p.domains@) == texts(invite.domains@)
    &&& opt_view(p.relay) == opt_view(invite.relay)
    &&& match (invite.totp, p.totp) {
        (None, None) => true,
        (Some(a), Some(b)) => b.client_id@ == a.client_id@ && b.secret@ == a.secret@ && b.algorithm@
            == a.algorithm@ && b.issuer@ == a.issuer@,
        _ => false,
    }
}

fn copy(s: &String) -> (r: String)
    ensures
        r@ == s@,
{
    String::from_str(s.as_str())
}

fn copy_opt(s: &Option<String>) -> (r: Option<String>)
    ensures
        opt_view(r) == opt_view(*s),
{
    match s {
        Some(x) => Some(copy(x)),
        None => None,
    }
}

fn copy_all(v: &Vec<String>) -> (r: Vec<String>)
    ensures
        texts(r@) == texts(v@),
{
    let mut r: Vec<String> = Vec::new();
    let mut i: usize = 0;
    while i < v.len()
        invariant
            i <= v.len(),
            texts(r@) == texts(v@.subrange(0, i as int)),
        decreases v.len() - i,
    {
        let ghost before = r@;
        r.push(copy(&v[i]));
        proof {
            assert(texts(r@) =~= texts(before).push(v@[i as int]@));
            assert(texts(v@.subrange(0, i + 1)) =~= texts(v@.subrange(0, i as int)).push(v@[i as int]@));
        }
        i = i + 1;
    }
    assert(v@.subrange(0, v.len() as int) =~= v@);
    r
}

/// Describes an invitation pasted into the UI; `parsed` is what the provisioning grammar made
/// of it, or why it refused it. Nothing is applied: a refused code is an `invite.parse_failed`
/// carrying the grammar's reason.
pub fn parse_invite(parsed: Result<EndpointInvite, String>) -> (r: Result<InvitePayload, AppError>)
    ensures
        match parsed {
            Err(e) => r matches Err(x) && x.spec_parts() == (codes::INVITE_PARSE_FAILED@, detail_of(e@)),
            Ok(invite) => r matches Ok(p) && payload_of(invite, p),
        },
{
    let invite = match parsed {
        Err(e) => return Err(AppError::cause(codes::INVITE_PARSE_FAILED, e.as_str())),
        Ok(i) => i,
    };
    let (kind, target) = match &invite.target {
        InviteTarget::NodeId(id) => (String::from_str("endpoint"), copy(id)),
        InviteTarget::Ticket(t) => (String::from_str("ticket"), copy(t)),
    };
    let totp = match &invite.totp {
        None => None,
        Some(t) => Some(InviteTotpPayload {
            client_id: copy(&t.client_id),
            secret: copy(&t.secret),
            algorithm: copy(&t.algorithm),
            issuer: copy(&t.issuer),
        }),
    };
    Ok(InvitePayload {
        kind,
        target,
        name: copy_opt(&invite.name),
        domains: copy_all(&invite.domains),
        relay: copy_opt(&invite.relay),
        totp,
    })
}

/// How many log lines the log page shows when it does not say.
pub const DEFAULT_LOG_LINES: usize = 200;

/// Where the desktop writes its logs on `p`: `nexa/logs` under `%APPDATA%` when that is set,
/// else `nexa` under the temp directory.
pub open spec fn spec_log_dir(p: Platform, appdata: Option<Seq<char>>, temp_dir: Seq<char>) -> Seq<char> {
    match appdata {
        Some(d) => join(p, join(p, d, "nexa"@), "logs"@),
        None => join(p, temp_dir, "nexa"@),
    }
}

/// The log directory on `p`, from `APPDATA` (when set) and the temp directory.
pub fn log_dir_from(p: Platform, appdata: Option<&str>, temp_dir: &str) -> (r: String)
    ensures
        r@ == spec_log_dir(p, match appdata {
            Some(d) => Some(d@),
            None => None,
        }, temp_dir@),
{
    let mut v: Vec<char> = Vec::new();
    match appdata {
        Some(d) => {
            crate::text::append_str(&mut v, d);
            push_component(p, &mut v, "nexa");
            push_component(p, &mut v, "logs");
        },
        None => {
            crate::text::append_str(&mut v, temp_dir);
            push_component(p, &mut v, "nexa");
        },
    }
    string_of(v.as_slice())
}

/// How much of the end of the log file is read at most, in bytes.
pub const MAX_LOG_TAIL: u64 = 524288;

/// Where reading the log starts: the last `MAX_LOG_TAIL` bytes, or the whole file.
pub fn tail_offset(file_len: u64) -> (r: u64)
    ensures
        r == if file_len > MAX_LOG_TAIL { file_len - MAX_LOG_TAIL } else { 0 },
{
    if file_len > MAX_LOG_TAIL {
        file_len - MAX_LOG_TAIL
    } else {
        0
    }
}

/// Whether a file is one of the rolling logs: its name starts with `nexa.log`.
pub fn is_log_file_name(name: &str) -> (b: bool)
    ensures
        b == has_prefix(name@, "nexa.log"@),
{
    let v = chars_of(name);
    let p = chars_of("nexa.log");
    crate::text::starts_with(v.as_slice(), p.as_slice())
}

/// A file in the log directory: its name, whether it is a regular file, and when it was last
/// modified (nanoseconds since the epoch, when known).
#[derive(Debug, Clone)]
pub struct LogCandidate {
    pub name: String,
    pub is_file: bool,
    pub modified: Option<u64>,
}

/// The order in which candidates are compared: unknown times first.
pub open spec fn modified_key(c: LogCandidate) -> int {
    match c.modified {
        None => -1,
        Some(t) => t as int,
    }
}

/// Whether `c` is a rolling log file.
pub open spec fn is_log(c: LogCandidate) -> bool {
    c.is_file && has_prefix(c.name@, "nexa.log"@)
}

/// The newest log among `candidates`: the last one with the latest modification time, as
/// `max_by_key` picks it; `None` when no candidate is a log.
pub fn newest_log(candidates: &Vec<LogCandidate>) -> (r: Option<usize>)
    ensures
        match r {
            None => forall|k: int| 0 <= k < candidates.len() ==> !is_log(#[trigger] candidates@[k]),
            Some(i) => i < candidates.len() && is_log(candidates@[i as int])
                && (forall|k: int| 0 <= k < candidates.len() && is_log(#[trigger] candidates@[k]) ==> modified_key(candidates@[k]) <= modified_key(candidates@[i as int]))
                && (forall|k: int| i < k < candidates.len() && is_log(#[trigger] candidates@[k]) ==> modified_key(candidates@[k]) < modified_key(candidates@[i as int])),
        },
{
    let mut best: Option<usize> = None;
    let mut i: usize = 0;
    while i < candidates.len()
        invariant
            i <= candidates.len(),
            match best {
                None => forall|k: int| 0 <= k < i ==> !is_log(#[trigger] candidates@[k]),
                Some(b) => b < i && is_log(candidates@[b as int])
                    && (forall|k: int| 0 <= k < i && is_log(#[trigger] candidates@[k]) ==> modified_key(candidates@[k]) <= modified_key(candidates@[b as int]))
                    && (forall|k: int| b < k < i && is_log(#[trigger] candidates@[k]) ==> modified_key(candidates@[k]) < modified_key(candidates@[b as int])),
            },
        decreases candidates.len() - i,
    {
        let c = &candidates[i];
        if c.is_file && is_log_file_name(c.name.as_str()) {
            let replace = match best {
                None => true,
                Some(b) => {
                    let cur = &candidates[b];
                    match (c.modified, cur.modified) {
                        (None, None) => true,
                        (None, Some(_)) => false,
                        (Some(_), None) => true,
                        (Some(x), Some(y)) => x >= y,
                    }
                },
            };
            if replace {
                best = Some(i);
            }
        }
        i = i + 1;
    }
    best
}

/// The last `limit` lines of `content`, or all of them when there are fewer.
pub open spec fn spec_log_tail(content: Seq<char>, limit: nat) -> Seq<Seq<char>> {
    let ls = spec_lines(content);
    if ls.len() > limit {
        ls.subrange(ls.len() - limit, ls.len() as int)
    } else {
        ls
    }
}

/// The lines the log page shows: the last `limit` (by default 200) lines of what was read.
pub fn log_tail(content: &str, limit: Option<usize>) -> (r: Vec<String>)
    ensures
        texts(r@) == spec_log_tail(content@, match limit {
            Some(n) => n as nat,
            None => DEFAULT_LOG_LINES as nat,
        }),
{
    let n = match limit {
        Some(n) => n,
        None => DEFAULT_LOG_LINES,
    };
    let lines = text_lines(content);
    let ghost ls = lines@.map_values(|l: Vec<char>| l@);
    let start = if lines.len() > n { lines.len() - n } else { 0 };
    let mut r: Vec<String> = Vec::new();
    let mut i: usize = start;
    while i < lines.len()
        invariant
            start <= i <= lines.len(),
            ls == lines@.map_values(|l: Vec<char>| l@),
            texts(r@) == ls.subrange(start as int, i as int),
        decreases lines.len() - i,
    {
        let ghost before = r@;
        r.push(string_of(lines[i].as_slice()));
        proof {
            assert(texts(r@) =~= texts(before).push(ls[i as int]));
            assert(ls.subrange(start as int, i + 1) =~= ls.subrange(start as int, i as int).push(ls[i as int]));
        }
        i = i + 1;
    }
    proof {
        if ls.len() <= n {
            assert(ls.subrange(0, ls.len() as int) =~= ls);
        }
    }
    r
}

/// The DNS address the desktop's own proxy uses when a start names none.
pub const DESKTOP_DNS_DEFAULT: &'static str = "10.0.0.254:53";

/// Where a start request from the UI goes first.
#[derive(Debug)]
pub enum StartRoute {
    /// Refused before anything is spawned.
    Refuse(AppError),
    /// Ask the service.
    ViaService,
    /// Run the proxy in this process.
    InProcess,
}

/// Where a start goes: a TUN start this process cannot make (`tun_available` is whether it may
/// create the device) is refused as `proxy.tun_unavailable`; otherwise to the service when asked,
/// else in this process.
pub fn start_route(use_service: Option<bool>, use_tun: Option<bool>, tun_available: bool) -> (r: StartRoute)
    ensures
        match use_tun { Some(t) => t, None => false } && !tun_available ==> (r matches StartRoute::Refuse(e)
            && e.spec_parts() == (codes::PROXY_TUN_UNAVAILABLE@, None::<Seq<char>>)),
        !(match use_tun { Some(t) => t, None => false } && !tun_available) ==> (if match use_service { Some(s) => s, None => false } {
            r is ViaService
        } else {
            r is InProcess
        }),
{
    let tun = match use_tun {
        Some(t) => t,
        None => false,
    };
    if tun && !tun_available {
        return StartRoute::Refuse(AppError::new(codes::PROXY_TUN_UNAVAILABLE));
    }
    match use_service {
        Some(true) => StartRoute::ViaService,
        _ => StartRoute::InProcess,
    }
}

/// What a start through the service answers: its success, or its failure when a tunnel was
/// asked for (a local proxy is no substitute); `None` when the desktop falls back to running
/// the proxy itself.
pub fn after_service_start(use_tun: bool, outcome: Result<(), AppError>) -> (r: Option<Result<(), AppError>>)
    ensures
        outcome is Ok ==> r == Some(outcome),
        outcome is Err && use_tun ==> r == Some(outcome),
        outcome is Err && !use_tun ==> r is None,
{
    if outcome.is_ok() || use_tun {
        Some(outcome)
    } else {
        None
    }
}

} // verus!
