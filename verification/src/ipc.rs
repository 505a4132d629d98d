//! The IPC channel between the desktop and the elevated service: its message types and the
//! line framing both ends use.
use vstd::prelude::*;
use crate::codes;
use crate::error::{AppError, detail_of, opt_view};
use crate::manager::NodeTwoFactor;
use crate::status::{EndpointLink, ProxyStatus, ProxyMode, proxy_status, spec_status};
use crate::ipc_token::{token_matches_any, spec_matches_any};
use crate::text::{append_str, string_of};
use crate::num::{dec, push_decimal};

verus! {

/// Where the service listens.
pub const IPC_SOCKET_PATH: &'static str = "127.0.0.1:12345";

/// One node as the UI sends it.
#[derive(Debug, Clone)]
pub struct NodeInput {
    pub connection_type: String,
    pub ticket: String,
    pub endpoint_id: String,
    pub domains: Vec<String>,
    /// This node's own 2FA credentials; `None` performs no handshake.
    pub two_factor: Option<NodeTwoFactor>,
}

/// A request to start the proxy; every absent setting takes its default.
#[derive(Debug, Clone)]
pub struct StartProxyRequest {
    pub nodes: Vec<NodeInput>,
    pub domains: Vec<String>,
    pub local_addr: Option<String>,
    pub dns_addr: Option<String>,
    pub upstream_dns: Option<String>,
    pub load_balancing: Option<String>,
    pub tun_name: Option<String>,
    pub use_tun: Option<bool>,
    pub relay_mode: Option<String>,
    pub relay_url: Option<String>,
    pub relay_auth_token: Option<String>,
}

/// The longest request line the service buffers, in bytes.
pub const MAX_IPC_LINE: usize = 65536;

/// A request on the IPC channel.
#[derive(Debug)]
pub enum IpcMessage {
    StartProxy(StartProxyRequest),
    StopProxy,
    GetStatus,
    GetNodeId,
    GetEndpointLinks,
    /// The failure the last start recorded after it had already been answered.
    GetStartupError,
    /// The caller's token; nothing else is answered before it.
    Auth(String),
}

/// An answer on the IPC channel.
#[derive(Debug)]
pub enum IpcResponse {
    /// The request was carried out (serialised as `Ok`).
    Accepted,
    Error(AppError),
    Status(ProxyStatus),
    NodeId(String),
    EndpointLinks(Vec<EndpointLink>),
    StartupError(Option<AppError>),
}

/// An answer as plain values, for contracts: which answer it is, and the error it carries.
pub open spec fn error_reply(r: IpcResponse) -> Option<(Seq<char>, Option<Seq<char>>)> {
    match r {
        IpcResponse::Error(e) => Some(e.spec_parts()),
        _ => None,
    }
}

/// What the service read from a client.
#[derive(Debug)]
pub enum ClientLine {
    /// The peer closed the connection.
    Closed,
    /// The line could not be read (too long, or the socket failed); why.
    Unreadable(String),
    /// The line is not a request; why.
    Malformed(String),
    /// A request.
    Message(IpcMessage),
}

/// What the service does next with a client.
#[derive(Debug)]
pub enum SessionAction {
    /// Stop serving this client.
    Close,
    /// Answer and keep serving.
    Reply(IpcResponse),
    /// Answer once, then close the connection.
    ReplyAndClose(IpcResponse),
    /// Compare this token with the published ones (see [`auth_outcome`]).
    CheckToken(String),
    /// Perform this request for an authenticated client and answer it.
    Serve(IpcMessage),
}

/// How the service answers what it read: nothing is served before the caller authenticates.
/// Before that, a client that cannot be read is dropped, a token is checked and any other
/// request is refused once; afterwards unreadable lines are answered as malformed requests.
pub open spec fn spec_session_step(authenticated: bool, line: ClientLine, a: SessionAction) -> bool {
    match line {
        ClientLine::Closed => a is Close,
        ClientLine::Unreadable(e) | ClientLine::Malformed(e) => if !authenticated {
            a is Close
        } else {
            a matches SessionAction::Reply(r) && error_reply(r) == Some((codes::SERVICE_MALFORMED_REQUEST@, detail_of(e@)))
        },
        ClientLine::Message(m) => if !authenticated {
            match m {
                IpcMessage::Auth(t) => a matches SessionAction::CheckToken(u) && u@ == t@,
                _ => a matches SessionAction::ReplyAndClose(r) && error_reply(r) == Some((codes::SERVICE_UNAUTHORIZED@, None::<Seq<char>>)),
            }
        } else {
            match m {
                IpcMessage::Auth(_) => a matches SessionAction::Reply(IpcResponse::Accepted),
                _ => a == SessionAction::Serve(m),
            }
        },
    }
}

/// Decides what to do with one line from a client.
pub fn session_step(authenticated: bool, line: ClientLine) -> (a: SessionAction)
    ensures
        spec_session_step(authenticated, line, a),
{
    match line {
        ClientLine::Closed => SessionAction::Close,
        ClientLine::Unreadable(e) => if !authenticated {
            SessionAction::Close
        } else {
            SessionAction::Reply(IpcResponse::Error(AppError::cause(codes::SERVICE_MALFORMED_REQUEST, e.as_str())))
        },
        ClientLine::Malformed(e) => if !authenticated {
            SessionAction::Close
        } else {
            SessionAction::Reply(IpcResponse::Error(AppError::cause(codes::SERVICE_MALFORMED_REQUEST, e.as_str())))
        },
        ClientLine::Message(m) => if !authenticated {
            match m {
                IpcMessage::Auth(t) => SessionAction::CheckToken(t),
                _ => SessionAction::ReplyAndClose(IpcResponse::Error(AppError::new(codes::SERVICE_UNAUTHORIZED))),
            }
        } else {
            match m {
                IpcMessage::Auth(_) => SessionAction::Reply(IpcResponse::Accepted),
                _ => SessionAction::Serve(m),
            }
        },
    }
}

/// The answer to a token: accepted (and the client is authenticated) when it equals one of the
/// published tokens `known`; refused as "no token published" when there is none; refused as
/// unauthorized otherwise. A refusal closes the connection.
pub fn auth_outcome(known: &[String], presented: &str) -> (r: (SessionAction, bool))
    ensures
        r.1 == spec_matches_any(known@, presented@),
        r.1 ==> r.0 matches SessionAction::Reply(IpcResponse::Accepted),
        !r.1 && known.len() == 0 ==> (r.0 matches SessionAction::ReplyAndClose(x) && error_reply(x) == Some((
            codes::SERVICE_IPC_TOKEN@,
            detail_of("no desktop session has published an IPC token"@),
        ))),
        !r.1 && known.len() > 0 ==> (r.0 matches SessionAction::ReplyAndClose(x) && error_reply(x) == Some((codes::SERVICE_UNAUTHORIZED@, None::<Seq<char>>))),
{
    if token_matches_any(known, presented) {
        (SessionAction::Reply(IpcResponse::Accepted), true)
    } else if known.len() == 0 {
        (SessionAction::ReplyAndClose(IpcResponse::Error(AppError::with_detail(
            codes::SERVICE_IPC_TOKEN,
            "no desktop session has published an IPC token",
        ))), false)
    } else {
        (SessionAction::ReplyAndClose(IpcResponse::Error(AppError::new(codes::SERVICE_UNAUTHORIZED))), false)
    }
}

/// Nothing is performed for a client that has not authenticated, whatever it sends.
pub proof fn law_nothing_served_before_auth(line: ClientLine, a: SessionAction)
    requires
        spec_session_step(false, line, a),
    ensures
        !(a is Serve),
        a matches SessionAction::Reply(_) ==> false,
{
}

/// How much of the buffered input the line reader takes next.
#[derive(Debug, Clone, Copy, PartialEq, Eq, Structural)]
pub enum ChunkStep {
    /// The line would exceed the limit: its length so far, counting this chunk.
    TooLong(usize),
    /// Take the first `end` bytes; `complete` when they end with the line feed.
    Take { end: usize, complete: bool },
}

/// The bytes a reader takes from `available` while `buffered` bytes of the line are already
/// held: up to and including the first line feed, or all of it; refused when the line would
/// then exceed [`MAX_IPC_LINE`].
pub open spec fn spec_line_chunk(buffered: usize, available: Seq<u8>) -> ChunkStep {
    let end = if exists|i: int| 0 <= i < available.len() && available[i] == 10u8 && forall|k: int| 0 <= k < i ==> available[k] != 10u8 {
        (choose|i: int| 0 <= i < available.len() && available[i] == 10u8 && forall|k: int| 0 <= k < i ==> available[k] != 10u8) + 1
    } else {
        available.len() as int
    };
    let complete = end <= available.len() && exists|i: int| 0 <= i < available.len() && available[i] == 10u8;
    if end > MAX_IPC_LINE - buffered {
        ChunkStep::TooLong((buffered + end) as usize)
    } else {
        ChunkStep::Take { end: end as usize, complete }
    }
}

/// Decides how much of `available` the line reader takes.
pub fn line_chunk(buffered: usize, available: &[u8]) -> (s: ChunkStep)
    requires
        buffered <= MAX_IPC_LINE,
        available.len() <= usize::MAX - MAX_IPC_LINE,
    ensures
        s == spec_line_chunk(buffered, available@),
        s matches ChunkStep::Take { end, .. } ==> buffered + end <= MAX_IPC_LINE && end <= available.len(),
{
    let mut i: usize = 0;
    while i < available.len() && available[i] != 10u8
        invariant
            i <= available.len(),
            forall|k: int| 0 <= k < i ==> available@[k] != 10u8,
        decreases available.len() - i,
    {
        i = i + 1;
    }
    let found = i < available.len();
    proof {
        if found {
            let j = choose|j: int| 0 <= j < available@.len() && available@[j] == 10u8 && forall|k: int| 0 <= k < j ==> available@[k] != 10u8;
            assert(j == i) by {
                if j < i {
                    assert(available@[j] != 10u8);
                }
                if j > i {
                    assert(available@[i as int] != 10u8);
                }
            }
        } else {
            assert(!exists|j: int| 0 <= j < available@.len() && available@[j] == 10u8);
        }
    }
    let end = if found { i + 1 } else { available.len() };
    if end > MAX_IPC_LINE - buffered {
        ChunkStep::TooLong(buffered + end)
    } else {
        ChunkStep::Take { end, complete: found }
    }
}

/// The finished line: without its line feed, and without a carriage return before it.
pub open spec fn spec_finish_line(buf: Seq<u8>) -> Seq<u8> {
    let a = if buf.len() > 0 && buf.last() == 10u8 { buf.drop_last() } else { buf };
    if a.len() > 0 && a.last() == 13u8 { a.drop_last() } else { a }
}

/// Removes the line terminator from a complete line.
pub fn finish_line(buf: &mut Vec<u8>)
    ensures
        final(buf)@ == spec_finish_line(old(buf)@),
{
    let n = buf.len();
    if n > 0 && buf[n - 1] == 10u8 {
        buf.pop();
    }
    let m = buf.len();
    if m > 0 && buf[m - 1] == 13u8 {
        buf.pop();
    }
}

/// Why a line could not be read, as the service words it: the limit and how far the line had
/// got, or the socket error.
pub fn read_failure_text(too_long: Option<usize>, io_error: &str) -> (r: String)
    ensures
        r@ == match too_long {
            Some(len) => "IPC line exceeded the "@ + dec(MAX_IPC_LINE as nat) + " byte limit after "@ + dec(len as nat) + " bytes"@,
            None => "IPC read failed: "@ + io_error@,
        },
{
    let mut m: Vec<char> = Vec::new();
    match too_long {
        Some(len) => {
            append_str(&mut m, "IPC line exceeded the ");
            push_decimal(&mut m, MAX_IPC_LINE as u64);
            append_str(&mut m, " byte limit after ");
            push_decimal(&mut m, len as u64);
            append_str(&mut m, " bytes");
        },
        None => {
            append_str(&mut m, "IPC read failed: ");
            append_str(&mut m, io_error);
        },
    }
    string_of(m.as_slice())
}

/// The answer to a status request: the status of the registered manager (if any) in its
/// current mode.
pub fn status_reply(registered: bool, mode: Option<ProxyMode>) -> (r: IpcResponse)
    ensures
        r == IpcResponse::Status(spec_status(registered, mode)),
{
    IpcResponse::Status(proxy_status(registered, mode))
}

/// The answer to a node-id request: the id when the manager has one, an error saying why not
/// otherwise. `node_id` is what a registered manager reported.
pub fn node_id_reply(registered: bool, node_id: Option<String>) -> (r: IpcResponse)
    ensures
        !registered ==> error_reply(r) == Some((codes::PROXY_NOT_RUNNING@, None::<Seq<char>>)),
        registered && node_id is None ==> error_reply(r) == Some((codes::PROXY_NODE_ID_UNAVAILABLE@, None::<Seq<char>>)),
        registered && node_id is Some ==> r == IpcResponse::NodeId(node_id->0),
{
    if !registered {
        return IpcResponse::Error(AppError::new(codes::PROXY_NOT_RUNNING));
    }
    match node_id {
        Some(id) => IpcResponse::NodeId(id),
        None => IpcResponse::Error(AppError::new(codes::PROXY_NODE_ID_UNAVAILABLE)),
    }
}

/// The answer to an endpoint-links request: the manager's links, or none without a manager.
pub fn links_reply(links: Option<Vec<EndpointLink>>) -> (r: IpcResponse)
    ensures
        match links {
            Some(v) => r == IpcResponse::EndpointLinks(v),
            None => r matches IpcResponse::EndpointLinks(v) && v@.len() == 0,
        },
{
    match links {
        Some(v) => IpcResponse::EndpointLinks(v),
        None => IpcResponse::EndpointLinks(Vec::new()),
    }
}

/// The desktop side of the IPC channel: reading the service's answers.
pub struct IpcClient;

impl IpcClient {
    /// The failure for an answer that does not fit the request; `shown` is how the answer
    /// renders for diagnostics.
    pub fn unexpected(shown: &str) -> (e: AppError)
        ensures
            e.code@ == codes::SERVICE_MALFORMED_RESPONSE@,
            opt_view(e.detail) == detail_of("unexpected response: "@ + shown@),
    {
        let mut m: Vec<char> = Vec::new();
        append_str(&mut m, "unexpected response: ");
        append_str(&mut m, shown);
        let t = string_of(m.as_slice());
        AppError::with_detail(codes::SERVICE_MALFORMED_RESPONSE, t.as_str())
    }

    /// The outcome of a request answered by `Ok`.
    pub fn expect_ok(response: IpcResponse, shown: &str) -> (r: Result<(), AppError>)
        ensures
            match response {
                IpcResponse::Accepted => r is Ok,
                IpcResponse::Error(e) => r == Err::<(), AppError>(e),
                _ => r matches Err(e) && e.code@ == codes::SERVICE_MALFORMED_RESPONSE@,
            },
    {
        match response {
            IpcResponse::Accepted => Ok(()),
            IpcResponse::Error(e) => Err(e),
            _ => Err(Self::unexpected(shown)),
        }
    }

    /// The status in an answer to a status request.
    pub fn expect_status(response: IpcResponse, shown: &str) -> (r: Result<ProxyStatus, AppError>)
        ensures
            match response {
                IpcResponse::Status(s) => r == Ok::<ProxyStatus, AppError>(s),
                IpcResponse::Error(e) => r == Err::<ProxyStatus, AppError>(e),
                _ => r matches Err(e) && e.code@ == codes::SERVICE_MALFORMED_RESPONSE@,
            },
    {
        match response {
            IpcResponse::Status(s) => Ok(s),
            IpcResponse::Error(e) => Err(e),
            _ => Err(Self::unexpected(shown)),
        }
    }

    /// The node id in an answer to a node-id request.
    pub fn expect_node_id(response: IpcResponse, shown: &str) -> (r: Result<String, AppError>)
        ensures
            match response {
                IpcResponse::NodeId(id) => r == Ok::<String, AppError>(id),
                IpcResponse::Error(e) => r == Err::<String, AppError>(e),
                _ => r matches Err(e) && e.code@ == codes::SERVICE_MALFORMED_RESPONSE@,
            },
    {
        match response {
            IpcResponse::NodeId(id) => Ok(id),
            IpcResponse::Error(e) => Err(e),
            _ => Err(Self::unexpected(shown)),
        }
    }

    /// The links in an answer to an endpoint-links request.
    pub fn expect_links(response: IpcResponse, shown: &str) -> (r: Result<Vec<EndpointLink>, AppError>)
        ensures
            match response {
                IpcResponse::EndpointLinks(v) => r == Ok::<Vec<EndpointLink>, AppError>(v),
                IpcResponse::Error(e) => r == Err::<Vec<EndpointLink>, AppError>(e),
                _ => r matches Err(e) && e.code@ == codes::SERVICE_MALFORMED_RESPONSE@,
            },
    {
        match response {
            IpcResponse::EndpointLinks(v) => Ok(v),
            IpcResponse::Error(e) => Err(e),
            _ => Err(Self::unexpected(shown)),
        }
    }

    /// The failure when the service closed the connection without answering.
    pub fn no_answer() -> (e: AppError)
        ensures
            e.code@ == codes::SERVICE_IO_ERROR@,
            opt_view(e.detail) == detail_of("the service closed the connection without answering"@),
    {
        AppError::with_detail(codes::SERVICE_IO_ERROR, "the service closed the connection without answering")
    }
}

} // verus!
