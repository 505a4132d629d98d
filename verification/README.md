# nexa

The core of the nexa desktop proxy client, written in Verus: every function under `src/`
carries a contract that Verus proves.

## Layout

- `src/` — the library.
  - Encodings: `ipv4`, `packet` (IPv4/TCP parsing, building, checksums), `dns` (queries,
    hijacked replies, upstream forwarding), `text` and `num` (the string and number helpers
    the rest is built on).
  - The proxy: `manager` (configuration, the start sequence and its errors), `tun` (the TUN
    address block, device configuration), `tun_run` (the order a tunnel comes up and goes
    down in), `routing` (interface configuration and routes), `dns_config` (pointing system
    DNS at the tunnel and back).
  - The background service: `ipc` and `ipc_token` (the authenticated local channel),
    `runner` (what the service accepts), `platform` (installing and controlling the service
    on Windows, Linux and macOS), `scm` (the Windows service control manager), `elevate`
    (running elevated), `cli`, `commands`, `status`, `error`, `codes`, `host`.
  - Operations that need the operating system are step functions: they take what the
    caller observed and return the next action, so the order and the decisions are proved
    while the I/O stays outside.
- `app/` — the `nexa-service` binary: argument handling, processes, files, sockets, and the
  JSON forms of the library's types.
- `tests/` — tests of the library on concrete values.

`src/` calls outside code only through a few trusted wrappers (`String::push`,
`str::to_lowercase`, `std::str::from_utf8`, `{:?}` on strings, `fastrand::u8`), each with a
contract stating what it is trusted to do.
