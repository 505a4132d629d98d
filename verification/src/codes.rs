//! Stable, dot-namespaced error codes.
//!
//! A code is part of the wire format between the UI, the service daemon and a previously
//! installed service binary, so it must never be renamed silently. Diagnostics belong in the
//! `detail` of an [`crate::error::AppError`], never in the code.
use vstd::prelude::*;

verus! {

/// `start_proxy` was called with no node that carries a ticket or an endpoint ID.
pub const PROXY_NO_NODES: &'static str = "proxy.no_nodes";
/// The load-balancing strategy string did not match a known strategy.
pub const PROXY_INVALID_LOAD_BALANCING: &'static str = "proxy.invalid_load_balancing";
/// The proxy failed asynchronously, after the start request had already been answered.
pub const PROXY_START_FAILED: &'static str = "proxy.start_failed";
/// No configured backend could be reached.
pub const PROXY_NO_REACHABLE_BACKEND: &'static str = "proxy.no_reachable_backend";
/// A backend refused this client because it performed no 2FA handshake.
pub const PROXY_TWO_FACTOR_REQUIRED: &'static str = "proxy.two_factor_required";
/// The proxy is not running, so it has no node ID to report.
pub const PROXY_NOT_RUNNING: &'static str = "proxy.not_running";
/// The proxy is running but has not published its node ID yet.
pub const PROXY_NODE_ID_UNAVAILABLE: &'static str = "proxy.node_id_unavailable";
/// TUN mode was requested but the process cannot create the tunnel.
pub const PROXY_TUN_UNAVAILABLE: &'static str = "proxy.tun_unavailable";

/// No service is listening on the IPC port.
pub const SERVICE_UNAVAILABLE: &'static str = "service.unavailable";
/// The service connection broke mid-exchange.
pub const SERVICE_IO_ERROR: &'static str = "service.io_error";
/// The service answered with something unparseable, or with an unexpected message kind.
pub const SERVICE_MALFORMED_RESPONSE: &'static str = "service.malformed_response";
/// A failure reported by an older service build that sent prose instead of a code.
pub const SERVICE_LEGACY_FAILURE: &'static str = "service.legacy_failure";
/// Generic service failure, used when no more specific code applies.
pub const SERVICE_FAILED: &'static str = "service.failed";
/// Spawning the service-manager CLI failed.
pub const SERVICE_COMMAND_FAILED: &'static str = "service.command_failed";
pub const SERVICE_INSTALL_FAILED: &'static str = "service.install_failed";
pub const SERVICE_UNINSTALL_FAILED: &'static str = "service.uninstall_failed";
pub const SERVICE_START_FAILED: &'static str = "service.start_failed";
pub const SERVICE_STOP_FAILED: &'static str = "service.stop_failed";
/// Writing the unit file / plist, or reloading the service manager, failed.
pub const SERVICE_DEFINITION_FAILED: &'static str = "service.definition_failed";
/// Service management is not implemented for this platform.
pub const SERVICE_UNSUPPORTED_PLATFORM: &'static str = "service.unsupported_platform";
/// The path of the running executable could not be resolved.
pub const SERVICE_EXE_PATH: &'static str = "service.exe_path";
/// The elevation prompt was dismissed, and the child reported nothing.
pub const SERVICE_ELEVATION_DENIED: &'static str = "service.elevation_denied";
/// The elevated child never reported back.
pub const SERVICE_ELEVATION_INCOMPLETE: &'static str = "service.elevation_incomplete";
/// No elevation mechanism is reachable on this machine.
pub const SERVICE_ELEVATION_UNAVAILABLE: &'static str = "service.elevation_unavailable";
/// Launching the elevation helper itself failed.
pub const SERVICE_ELEVATION_FAILED: &'static str = "service.elevation_failed";

/// The IPC client spoke before authenticating, or presented an unknown token.
pub const SERVICE_UNAUTHORIZED: &'static str = "service.unauthorized";
/// Reading or writing the IPC token file failed.
pub const SERVICE_IPC_TOKEN: &'static str = "service.ipc_token";
/// An IPC message over the line limit, or one that does not parse.
pub const SERVICE_MALFORMED_REQUEST: &'static str = "service.malformed_request";
/// `local_addr` outside loopback.
pub const SERVICE_LOCAL_ADDR_NOT_LOOPBACK: &'static str = "service.local_addr_not_loopback";
/// `dns_addr` outside the TUN network the built-in DNS server answers on.
pub const SERVICE_DNS_ADDR_OUTSIDE_TUN: &'static str = "service.dns_addr_outside_tun";

/// A `nexapipe://` invite could not be read.
pub const INVITE_PARSE_FAILED: &'static str = "invite.parse_failed";

/// The log directory could not be listed.
pub const LOGS_DIR_UNREADABLE: &'static str = "logs.dir_unreadable";
/// The log file could not be opened or read.
pub const LOGS_READ_FAILED: &'static str = "logs.read_failed";

} // verus!
