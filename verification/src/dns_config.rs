//! Pointing the system DNS at the TUN resolver and back.
//!
//! - Windows: a PowerShell script switches every adapter that is up (except the TUN one) to
//!   the TUN address for IPv4 and `::1` for IPv6, and prints the effective servers, which are
//!   checked; `netsh` is the fallback, checked too.
//! - Linux: `resolvectl`, falling back to overwriting `/etc/resolv.conf` (after a backup).
//! - macOS: `networksetup` for every network service.
//!
//! Each operation is a short exchange: the functions here say what to run next given what came
//! of the previous command, and what the operation finally reports.
use vstd::prelude::*;
use crate::host::Platform;
use crate::elevate::{texts, powershell_escape};
use crate::text::{
    append_str, chars_of, string_of, contains, str_contains, expand, lemma_expand_step,
    spec_lines, text_lines, spec_trim, trim_chars,
};
use crate::ipv4::{ipv4_text, push_ipv4};
use crate::tun::{spec_candidates, tun_base_candidates, spec_tun_ip};

verus! {

/// What came of the previous step of a DNS operation.
#[derive(Debug)]
pub enum DnsConfigEvent {
    /// The operation starts.
    Begin,
    /// Windows: the script exited with zero and printed this, or failed (`None`).
    ScriptDone(Option<String>),
    /// Windows: every adapter's IPv4 DNS servers as listed after the `netsh` fallback, or
    /// `None` when the listing could not be taken.
    FallbackListed(Option<String>),
    /// Linux: whether `resolvectl dns` succeeded.
    ResolvectlDone(bool),
    /// Linux: why writing `/etc/resolv.conf` failed, or `None` when it was written.
    ResolvConfWritten(Option<String>),
    /// macOS: what `networksetup -listallnetworkservices` printed, or why it could not run.
    ServicesListed(Result<String, String>),
    /// A best-effort step finished.
    Finished,
}

/// What to do next.
#[derive(Debug)]
pub enum DnsConfigAction {
    /// Windows: run this PowerShell script and report its output.
    RunScript(String),
    /// Windows: set every adapter's DNS with `netsh` and report whether it took.
    NetshSet,
    /// Windows: reset every adapter's DNS to DHCP with `netsh`.
    NetshReset,
    /// Linux: `resolvectl dns <interface> <address>`.
    Resolvectl,
    /// Linux: back up `/etc/resolv.conf` and write this content to it.
    WriteResolvConf(String),
    /// Linux: `resolvectl revert <interface>`, then put the backup back if there is one.
    RevertResolver,
    /// macOS: list the network services.
    ListServices,
    /// macOS: `networksetup -setdnsservers <service> <servers>` for each of these services.
    SetServices(Vec<String>, String),
    /// The operation is over, with this outcome.
    Done(Result<(), String>),
}

/// The PowerShell script that switches every adapter that is up, except the TUN adapter
/// `interface`, to `dns_ip` for IPv4 and `::1` for IPv6, flushes the resolver cache and prints
/// the effective DNS servers.
pub open spec fn spec_set_script(interface: Seq<char>, dns_ip: Seq<char>) -> Seq<char> {
    "$tun = '"@ + expand(interface, |c: char| powershell_escape(c))
        + "';Get-NetAdapter | Where-Object { $_.Status -eq 'Up' -and $_.Name -ne $tun } | ForEach-Object {$a = $_;try { $a | Set-DnsClientServerAddress -ResetServerAddresses -ErrorAction Stop } catch { Write-Warning ('reset ' + $a.Name + ': ' + $_.Exception.Message) };try { $a | Set-DnsClientServerAddress -ServerAddresses '"@
        + dns_ip
        + "' -ErrorAction Stop } catch { Write-Warning ('set ' + $a.Name + ': ' + $_.Exception.Message) };try { $a | Set-DnsClientServerAddress -ServerAddresses '::1' -ErrorAction Stop } catch { Write-Warning ('set v6 ' + $a.Name + ': ' + $_.Exception.Message) }};Clear-DnsClientCache;Get-DnsClientServerAddress | Where-Object { $_.ServerAddresses } | ForEach-Object { $_.InterfaceAlias + ' [' + $_.AddressFamily + ']: ' + ($_.ServerAddresses -join ',') }"@
}

/// The PowerShell script that resets every adapter that is up, except the TUN adapter, to DHCP
/// for both address families and flushes the resolver cache.
pub open spec fn spec_restore_script(interface: Seq<char>) -> Seq<char> {
    "$tun = '"@ + expand(interface, |c: char| powershell_escape(c))
        + "';Get-NetAdapter | Where-Object { $_.Status -eq 'Up' -and $_.Name -ne $tun } | ForEach-Object {try { $_ | Set-DnsClientServerAddress -ResetServerAddresses -ErrorAction Stop } catch { Write-Warning ('reset ' + $_.Name + ': ' + $_.Exception.Message) }};Clear-DnsClientCache"@
}

fn push_ps_inner(out: &mut Vec<char>, value: &str)
    ensures
        final(out)@ == old(out)@ + expand(value@, |c: char| powershell_escape(c)),
{
    let v = chars_of(value);
    let ghost f = |c: char| powershell_escape(c);
    let ghost start = out@;
    let mut i: usize = 0;
    while i < v.len()
        invariant
            i <= v.len(),
            out@ == start + expand(v@.subrange(0, i as int), f),
            f == (|c: char| powershell_escape(c)),
        decreases v.len() - i,
    {
        let c = v[i];
        proof {
            lemma_expand_step(v@, i as int, f);
        }
        if c == '\'' {
            out.push('\'');
            out.push('\'');
            assert(f(c) =~= seq!['\'', '\'']);
        } else {
            out.push(c);
            assert(f(c) =~= seq![c]);
        }
        i = i + 1;
        assert(out@ =~= start + expand(v@.subrange(0, i as int), f));
    }
    assert(v@.subrange(0, v.len() as int) =~= v@);
}

/// The Windows script that points the DNS of the physical adapters at the TUN resolver.
pub fn set_dns_script(interface: &str, dns_ip: &str) -> (r: String)
    ensures
        r@ == spec_set_script(interface@, dns_ip@),
{
    let mut m: Vec<char> = Vec::new();
    append_str(&mut m, "$tun = '");
    push_ps_inner(&mut m, interface);
    append_str(&mut m, "';Get-NetAdapter | Where-Object { $_.Status -eq 'Up' -and $_.Name -ne $tun } | ForEach-Object {$a = $_;try { $a | Set-DnsClientServerAddress -ResetServerAddresses -ErrorAction Stop } catch { Write-Warning ('reset ' + $a.Name + ': ' + $_.Exception.Message) };try { $a | Set-DnsClientServerAddress -ServerAddresses '");
    append_str(&mut m, dns_ip);
    append_str(&mut m, "' -ErrorAction Stop } catch { Write-Warning ('set ' + $a.Name + ': ' + $_.Exception.Message) };try { $a | Set-DnsClientServerAddress -ServerAddresses '::1' -ErrorAction Stop } catch { Write-Warning ('set v6 ' + $a.Name + ': ' + $_.Exception.Message) }};Clear-DnsClientCache;Get-DnsClientServerAddress | Where-Object { $_.ServerAddresses } | ForEach-Object { $_.InterfaceAlias + ' [' + $_.AddressFamily + ']: ' + ($_.ServerAddresses -join ',') }");
    string_of(m.as_slice())
}

/// The Windows script that hands the DNS of the physical adapters back to DHCP.
pub fn restore_dns_script(interface: &str) -> (r: String)
    ensures
        r@ == spec_restore_script(interface@),
{
    let mut m: Vec<char> = Vec::new();
    append_str(&mut m, "$tun = '");
    push_ps_inner(&mut m, interface);
    append_str(&mut m, "';Get-NetAdapter | Where-Object { $_.Status -eq 'Up' -and $_.Name -ne $tun } | ForEach-Object {try { $_ | Set-DnsClientServerAddress -ResetServerAddresses -ErrorAction Stop } catch { Write-Warning ('reset ' + $_.Name + ': ' + $_.Exception.Message) }};Clear-DnsClientCache");
    string_of(m.as_slice())
}

/// The TUN addresses of the candidate blocks, joined by `','`.
pub open spec fn stale_list(n: int) -> Seq<char>
    decreases n,
{
    if n <= 0 {
        Seq::empty()
    } else if n == 1 {
        ipv4_text(spec_tun_ip(spec_candidates()[0]))
    } else {
        stale_list(n - 1) + "','"@ + ipv4_text(spec_tun_ip(spec_candidates()[n - 1]))
    }
}

/// The script that resets the adapters whose DNS still points at a TUN hijack that is no
/// longer running: an IPv4 server that is one of the candidate TUN addresses, or an IPv6
/// server of exactly `::1` while nothing listens on `[::1]:53`.
pub open spec fn spec_cleanup_script() -> Seq<char> {
    "$stale = @('"@ + stale_list(6)
        + "');$v6Listener = @(Get-NetUDPEndpoint -LocalAddress ::1 -LocalPort 53 -ErrorAction SilentlyContinue).Count -gt 0;$reset = @();Get-DnsClientServerAddress | Where-Object { $_.ServerAddresses } | ForEach-Object {$hit = $false;if ($_.AddressFamily -eq 2) { foreach ($s in $_.ServerAddresses) { if ($stale -contains $s) { $hit = $true } } };if ($_.AddressFamily -eq 23 -and -not $v6Listener -and ($_.ServerAddresses -contains '::1')) { $hit = $true };if ($hit) { $reset += $_.InterfaceIndex }};$reset = @($reset | Select-Object -Unique);foreach ($i in $reset) {try { Set-DnsClientServerAddress -InterfaceIndex $i -ResetServerAddresses -ErrorAction Stop; Write-Output ('reset ifindex ' + $i) } catch { Write-Warning ('reset ifindex ' + $i + ': ' + $_.Exception.Message) }};if ($reset.Count -gt 0) { Clear-DnsClientCache };Write-Output ('stale adapters reset: ' + $reset.Count)"@
}

fn cleanup_script() -> (r: String)
    ensures
        r@ == spec_cleanup_script(),
{
    let cands = tun_base_candidates();
    let mut m: Vec<char> = Vec::new();
    append_str(&mut m, "$stale = @('");
    let ghost start = m@;
    let mut i: usize = 0;
    while i < cands.len()
        invariant
            i <= cands.len(),
            cands@ == spec_candidates(),
            m@ == start + stale_list(i as int),
        decreases cands.len() - i,
    {
        if i > 0 {
            append_str(&mut m, "','");
        }
        push_ipv4(&mut m, cands[i] | 0xFEu32);
        i = i + 1;
        assert(m@ =~= start + stale_list(i as int));
    }
    append_str(&mut m, "');$v6Listener = @(Get-NetUDPEndpoint -LocalAddress ::1 -LocalPort 53 -ErrorAction SilentlyContinue).Count -gt 0;$reset = @();Get-DnsClientServerAddress | Where-Object { $_.ServerAddresses } | ForEach-Object {$hit = $false;if ($_.AddressFamily -eq 2) { foreach ($s in $_.ServerAddresses) { if ($stale -contains $s) { $hit = $true } } };if ($_.AddressFamily -eq 23 -and -not $v6Listener -and ($_.ServerAddresses -contains '::1')) { $hit = $true };if ($hit) { $reset += $_.InterfaceIndex }};$reset = @($reset | Select-Object -Unique);foreach ($i in $reset) {try { Set-DnsClientServerAddress -InterfaceIndex $i -ResetServerAddresses -ErrorAction Stop; Write-Output ('reset ifindex ' + $i) } catch { Write-Warning ('reset ifindex ' + $i + ': ' + $_.Exception.Message) }};if ($reset.Count -gt 0) { Clear-DnsClientCache };Write-Output ('stale adapters reset: ' + $reset.Count)");
    string_of(m.as_slice())
}

/// Resets adapters whose DNS still points at a hijack that is no longer running (a killed
/// process or a shutdown skips the restore, and static DNS entries survive a reboot). Only
/// Windows has anything to do: the script to run, if any.
pub fn cleanup_stale_hijack(p: Platform) -> (r: Option<String>)
    ensures
        p == Platform::Windows ==> (r matches Some(s) && s@ == spec_cleanup_script()),
        p != Platform::Windows ==> r is None,
{
    if p == Platform::Windows {
        Some(cleanup_script())
    } else {
        None
    }
}

/// The `/etc/resolv.conf` that sends every query to `dns_ip`.
pub fn resolv_conf(dns_ip: &str) -> (r: String)
    ensures
        r@ == "nameserver "@ + dns_ip@ + seq!['\n'],
{
    let mut m: Vec<char> = Vec::new();
    append_str(&mut m, "nameserver ");
    append_str(&mut m, dns_ip);
    m.push('\n');
    string_of(m.as_slice())
}

/// The network services `networksetup -listallnetworkservices` names, trimmed: every line
/// that is not blank and does not start with `*` (the header, and disabled services).
pub open spec fn services_of(lines: Seq<Seq<char>>) -> Seq<Seq<char>>
    decreases lines.len(),
{
    if lines.len() == 0 {
        Seq::empty()
    } else {
        let l = lines.last();
        let rest = services_of(lines.drop_last());
        if spec_trim(l).len() == 0 || (l.len() > 0 && l[0] == '*') {
            rest
        } else {
            rest.push(spec_trim(l))
        }
    }
}

/// The network services listed in `stdout`.
pub fn network_services(stdout: &str) -> (r: Vec<String>)
    ensures
        texts(r@) == services_of(spec_lines(stdout@)),
{
    let lines = text_lines(stdout);
    let ghost ls = lines@.map_values(|l: Vec<char>| l@);
    let mut r: Vec<String> = Vec::new();
    let mut i: usize = 0;
    while i < lines.len()
        invariant
            i <= lines.len(),
            ls == lines@.map_values(|l: Vec<char>| l@),
            texts(r@) == services_of(ls.subrange(0, i as int)),
        decreases lines.len() - i,
    {
        let l = &lines[i];
        let t = trim_chars(l.as_slice());
        proof {
            assert(ls.subrange(0, i + 1).drop_last() =~= ls.subrange(0, i as int));
            assert(ls.subrange(0, i + 1).last() == l@);
        }
        if !(t.len() == 0 || (l.len() > 0 && l[0] == '*')) {
            let ghost before = r@;
            r.push(string_of(t.as_slice()));
            assert(texts(r@) =~= texts(before).push(t@));
        }
        i = i + 1;
    }
    assert(ls.subrange(0, lines.len() as int) =~= ls);
    r
}

/// The failure when no `netsh` fallback made the TUN resolver the system's.
pub open spec fn hijack_failed(dns_ip: Seq<char>) -> Seq<char> {
    "Failed to point system DNS at the TUN resolver "@ + dns_ip + " — DNS hijack is NOT in effect"@
}

fn concat2(a: &str, b: &str) -> (r: String)
    ensures
        r@ == a@ + b@,
{
    let mut m: Vec<char> = Vec::new();
    append_str(&mut m, a);
    append_str(&mut m, b);
    string_of(m.as_slice())
}

fn concat3(a: &str, b: &str, c: &str) -> (r: String)
    ensures
        r@ == a@ + b@ + c@,
{
    let mut m: Vec<char> = Vec::new();
    append_str(&mut m, a);
    append_str(&mut m, b);
    append_str(&mut m, c);
    string_of(m.as_slice())
}

/// Whether the adapters' DNS listing taken after the `netsh` fallback shows `dns_ip`: success
/// is only ever read off the listing, never inferred from an exit code.
pub open spec fn spec_fallback_verified(listing: Option<Seq<char>>, dns_ip: Seq<char>) -> bool {
    listing matches Some(l) && contains(l, dns_ip)
}

/// Whether the listing `listing` shows `dns_ip`.
pub fn fallback_verified(listing: Option<&str>, dns_ip: &str) -> (b: bool)
    ensures
        b == spec_fallback_verified(match listing {
            Some(l) => Some(l@),
            None => None,
        }, dns_ip@),
{
    match listing {
        Some(l) => str_contains(l, dns_ip),
        None => false,
    }
}

/// The failure of an event that does not belong to the step it answers.
pub open spec fn out_of_order() -> Seq<char> {
    "an event that does not belong to this step of setting system DNS"@
}

/// Points the system DNS at the TUN resolver `dns_ip`: the next action given what came of the
/// previous one. A platform with nothing to configure succeeds at once; on the others an
/// event that does not belong to the step fails the operation rather than report success.
pub open spec fn spec_set_system_dns(p: Platform, interface: Seq<char>, dns_ip: Seq<char>, ev: DnsConfigEvent, a: DnsConfigAction) -> bool {
    match (p, ev) {
        (Platform::Windows, DnsConfigEvent::Begin) => a matches DnsConfigAction::RunScript(s) && s@ == spec_set_script(interface, dns_ip),
        (Platform::Windows, DnsConfigEvent::ScriptDone(out)) => if out matches Some(d) && contains(d@, dns_ip) {
            a matches DnsConfigAction::Done(Ok(()))
        } else {
            a matches DnsConfigAction::NetshSet
        },
        (Platform::Windows, DnsConfigEvent::FallbackListed(listing)) => if spec_fallback_verified(
            match listing {
                Some(l) => Some(l@),
                None => None,
            },
            dns_ip,
        ) {
            a matches DnsConfigAction::Done(Ok(()))
        } else {
            a matches DnsConfigAction::Done(Err(e)) && e@ == hijack_failed(dns_ip)
        },
        (Platform::Linux, DnsConfigEvent::Begin) => a matches DnsConfigAction::Resolvectl,
        (Platform::Linux, DnsConfigEvent::ResolvectlDone(ok)) => if ok {
            a matches DnsConfigAction::Done(Ok(()))
        } else {
            a matches DnsConfigAction::WriteResolvConf(c) && c@ == "nameserver "@ + dns_ip + seq!['\n']
        },
        (Platform::Linux, DnsConfigEvent::ResolvConfWritten(err)) => match err {
            None => a matches DnsConfigAction::Done(Ok(())),
            Some(e) => a matches DnsConfigAction::Done(Err(m)) && m@ == "Failed to write /etc/resolv.conf: "@ + e@,
        },
        (Platform::MacOs, DnsConfigEvent::Begin) => a matches DnsConfigAction::ListServices,
        (Platform::MacOs, DnsConfigEvent::ServicesListed(listed)) => match listed {
            Err(e) => a matches DnsConfigAction::Done(Err(m)) && m@ == "Failed to run networksetup -listallnetworkservices: "@ + e@,
            Ok(out) => if services_of(spec_lines(out@)).len() == 0 {
                a matches DnsConfigAction::Done(Ok(()))
            } else {
                a matches DnsConfigAction::SetServices(v, server) && texts(v@) == services_of(spec_lines(out@)) && server@ == dns_ip
            },
        },
        (Platform::MacOs, DnsConfigEvent::Finished) => a matches DnsConfigAction::Done(Ok(())),
        (Platform::Other, _) => a matches DnsConfigAction::Done(Ok(())),
        _ => a matches DnsConfigAction::Done(Err(e)) && e@ == out_of_order(),
    }
}

/// Points the system DNS at the TUN resolver (see `spec_set_system_dns`).
pub fn set_system_dns(p: Platform, interface: &str, dns_ip: &str, ev: DnsConfigEvent) -> (a: DnsConfigAction)
    ensures
        spec_set_system_dns(p, interface@, dns_ip@, ev, a),
{
    match (p, ev) {
        (Platform::Windows, DnsConfigEvent::Begin) => DnsConfigAction::RunScript(set_dns_script(interface, dns_ip)),
        (Platform::Windows, DnsConfigEvent::ScriptDone(out)) => {
            let hit = match &out {
                Some(d) => str_contains(d.as_str(), dns_ip),
                None => false,
            };
            if hit {
                DnsConfigAction::Done(Ok(()))
            } else {
                DnsConfigAction::NetshSet
            }
        },
        (Platform::Windows, DnsConfigEvent::FallbackListed(listing)) => if fallback_verified(
            match &listing {
                Some(l) => Some(l.as_str()),
                None => None,
            },
            dns_ip,
        ) {
            DnsConfigAction::Done(Ok(()))
        } else {
            DnsConfigAction::Done(Err(concat3("Failed to point system DNS at the TUN resolver ", dns_ip, " — DNS hijack is NOT in effect")))
        },
        (Platform::Linux, DnsConfigEvent::Begin) => DnsConfigAction::Resolvectl,
        (Platform::Linux, DnsConfigEvent::ResolvectlDone(ok)) => if ok {
            DnsConfigAction::Done(Ok(()))
        } else {
            DnsConfigAction::WriteResolvConf(resolv_conf(dns_ip))
        },
        (Platform::Linux, DnsConfigEvent::ResolvConfWritten(err)) => match err {
            None => DnsConfigAction::Done(Ok(())),
            Some(e) => DnsConfigAction::Done(Err(concat2("Failed to write /etc/resolv.conf: ", e.as_str()))),
        },
        (Platform::MacOs, DnsConfigEvent::Begin) => DnsConfigAction::ListServices,
        (Platform::MacOs, DnsConfigEvent::ServicesListed(listed)) => match listed {
            Err(e) => DnsConfigAction::Done(Err(concat2("Failed to run networksetup -listallnetworkservices: ", e.as_str()))),
            Ok(out) => {
                let services = network_services(out.as_str());
                if services.len() == 0 {
                    DnsConfigAction::Done(Ok(()))
                } else {
                    DnsConfigAction::SetServices(services, String::from_str(dns_ip))
                }
            },
        },
        (Platform::MacOs, DnsConfigEvent::Finished) => DnsConfigAction::Done(Ok(())),
        (Platform::Other, _) => DnsConfigAction::Done(Ok(())),
        _ => {
            proof {
                reveal_strlit("an event that does not belong to this step of setting system DNS");
            }
            DnsConfigAction::Done(Err(String::from_str("an event that does not belong to this step of setting system DNS")))
        },
    }
}

/// Restores the system DNS (best effort: it never fails): the next action given what came of
/// the previous one.
pub open spec fn spec_restore_system_dns(p: Platform, interface: Seq<char>, ev: DnsConfigEvent, a: DnsConfigAction) -> bool {
    match (p, ev) {
        (Platform::Windows, DnsConfigEvent::Begin) => a matches DnsConfigAction::RunScript(s) && s@ == spec_restore_script(interface),
        (Platform::Windows, DnsConfigEvent::ScriptDone(out)) => if out is Some {
            a matches DnsConfigAction::Done(Ok(()))
        } else {
            a matches DnsConfigAction::NetshReset
        },
        (Platform::Linux, DnsConfigEvent::Begin) => a matches DnsConfigAction::RevertResolver,
        (Platform::MacOs, DnsConfigEvent::Begin) => a matches DnsConfigAction::ListServices,
        (Platform::MacOs, DnsConfigEvent::ServicesListed(listed)) => match listed {
            Ok(out) => if services_of(spec_lines(out@)).len() == 0 {
                a matches DnsConfigAction::Done(Ok(()))
            } else {
                a matches DnsConfigAction::SetServices(v, server) && texts(v@) == services_of(spec_lines(out@)) && server@ == "Empty"@
            },
            Err(_) => a matches DnsConfigAction::Done(Ok(())),
        },
        _ => a matches DnsConfigAction::Done(Ok(())),
    }
}

/// Restores the system DNS (see `spec_restore_system_dns`).
pub fn restore_system_dns(p: Platform, interface: &str, ev: DnsConfigEvent) -> (a: DnsConfigAction)
    ensures
        spec_restore_system_dns(p, interface@, ev, a),
{
    match (p, ev) {
        (Platform::Windows, DnsConfigEvent::Begin) => DnsConfigAction::RunScript(restore_dns_script(interface)),
        (Platform::Windows, DnsConfigEvent::ScriptDone(out)) => if out.is_some() {
            DnsConfigAction::Done(Ok(()))
        } else {
            DnsConfigAction::NetshReset
        },
        (Platform::Linux, DnsConfigEvent::Begin) => DnsConfigAction::RevertResolver,
        (Platform::MacOs, DnsConfigEvent::Begin) => DnsConfigAction::ListServices,
        (Platform::MacOs, DnsConfigEvent::ServicesListed(listed)) => match listed {
            Ok(out) => {
                let services = network_services(out.as_str());
                if services.len() == 0 {
                    DnsConfigAction::Done(Ok(()))
                } else {
                    DnsConfigAction::SetServices(services, String::from_str("Empty"))
                }
            },
            Err(_) => DnsConfigAction::Done(Ok(())),
        },
        _ => DnsConfigAction::Done(Ok(())),
    }
}

/// Restoring never fails, whatever the platform reports.
pub proof fn law_restore_never_fails(p: Platform, interface: Seq<char>, ev: DnsConfigEvent, a: DnsConfigAction)
    requires
        spec_restore_system_dns(p, interface, ev, a),
    ensures
        !(a matches DnsConfigAction::Done(Err(_))),
{
}


/// Restoring undoes the switch on every platform that switched: it never finishes at its first
/// step there. Windows resets every adapter's DNS to DHCP (`-ResetServerAddresses`), falling
/// back to `netsh` when the script fails; Linux reverts the resolver; macOS lists the network
/// services and sets each back to `Empty`. Only a platform that switched nothing is done at
/// once.
pub proof fn law_restore_undoes_the_switch(p: Platform, interface: Seq<char>, out: String, a: DnsConfigAction)
    ensures
        p != Platform::Other && spec_restore_system_dns(p, interface, DnsConfigEvent::Begin, a) ==> !(a is Done),
        spec_restore_system_dns(Platform::Linux, interface, DnsConfigEvent::Begin, a) ==> a is RevertResolver,
        spec_restore_system_dns(Platform::MacOs, interface, DnsConfigEvent::Begin, a) ==> a is ListServices,
        spec_restore_system_dns(Platform::Windows, interface, DnsConfigEvent::Begin, a) ==> (a matches DnsConfigAction::RunScript(s)
            && contains(s@, "Set-DnsClientServerAddress -ResetServerAddresses"@)),
        spec_restore_system_dns(Platform::Windows, interface, DnsConfigEvent::ScriptDone(None), a) ==> a is NetshReset,
        services_of(spec_lines(out@)).len() > 0 && spec_restore_system_dns(Platform::MacOs, interface, DnsConfigEvent::ServicesListed(Ok(out)), a)
            ==> (a matches DnsConfigAction::SetServices(v, server) && server@ == "Empty"@ && texts(v@) == services_of(spec_lines(out@))),
        spec_restore_system_dns(Platform::Other, interface, DnsConfigEvent::Begin, a) ==> a matches DnsConfigAction::Done(Ok(())),
{
    let head = "$tun = '"@ + expand(interface, |c: char| powershell_escape(c));
    let tail = "';Get-NetAdapter | Where-Object { $_.Status -eq 'Up' -and $_.Name -ne $tun } | ForEach-Object {try { $_ | Set-DnsClientServerAddress -ResetServerAddresses -ErrorAction Stop } catch { Write-Warning ('reset ' + $_.Name + ': ' + $_.Exception.Message) }};Clear-DnsClientCache"@;
    let pat = "Set-DnsClientServerAddress -ResetServerAddresses"@;
    let s = spec_restore_script(interface);
    assert(s == head + tail);
    reveal_strlit("';Get-NetAdapter | Where-Object { $_.Status -eq 'Up' -and $_.Name -ne $tun } | ForEach-Object {try { $_ | Set-DnsClientServerAddress -ResetServerAddresses -ErrorAction Stop } catch { Write-Warning ('reset ' + $_.Name + ': ' + $_.Exception.Message) }};Clear-DnsClientCache");
    reveal_strlit("Set-DnsClientServerAddress -ResetServerAddresses");
    let at: int = head.len() as int + 106;
    let plen: int = pat.len() as int;
    assert(s.subrange(at, at + plen) =~= tail.subrange(106, 106 + plen));
    assert(tail.subrange(106, 106 + plen) =~= pat);
    assert(crate::text::occurs_at(s, pat, at));
}


/// Setting points the system at the TUN resolver and reports success only when it took: the
/// Windows script sets `dns_ip` on the adapters, and success is read off a DNS listing that
/// shows `dns_ip` (after the script, or after the `netsh` fallback) and nowhere else; Linux
/// asks `resolvectl` and falls back to a `resolv.conf` naming `dns_ip`; macOS sets `dns_ip` on
/// every listed service.
pub proof fn law_set_points_at_the_resolver(interface: Seq<char>, dns_ip: Seq<char>, listing: Option<String>, out: String, a: DnsConfigAction)
    ensures
        spec_set_system_dns(Platform::Windows, interface, dns_ip, DnsConfigEvent::Begin, a) ==> (a matches DnsConfigAction::RunScript(s)
            && contains(s@, dns_ip)),
        spec_set_system_dns(Platform::Windows, interface, dns_ip, DnsConfigEvent::ScriptDone(listing), a) ==> (
            (a matches DnsConfigAction::Done(Ok(()))) <==> (listing matches Some(l) && contains(l@, dns_ip))),
        spec_set_system_dns(Platform::Windows, interface, dns_ip, DnsConfigEvent::ScriptDone(listing), a) ==> (
            a is NetshSet || a matches DnsConfigAction::Done(Ok(()))),
        spec_set_system_dns(Platform::Windows, interface, dns_ip, DnsConfigEvent::FallbackListed(listing), a) ==> (
            (a matches DnsConfigAction::Done(Ok(()))) <==> (listing matches Some(l) && contains(l@, dns_ip))),
        spec_set_system_dns(Platform::Windows, interface, dns_ip, DnsConfigEvent::FallbackListed(listing), a) ==> a is Done,
        spec_set_system_dns(Platform::Linux, interface, dns_ip, DnsConfigEvent::Begin, a) ==> a is Resolvectl,
        spec_set_system_dns(Platform::Linux, interface, dns_ip, DnsConfigEvent::ResolvectlDone(false), a) ==> (
            a matches DnsConfigAction::WriteResolvConf(c) && c@ == "nameserver "@ + dns_ip + seq!['\n']),
        spec_set_system_dns(Platform::Linux, interface, dns_ip, DnsConfigEvent::ResolvectlDone(true), a) ==> a matches DnsConfigAction::Done(Ok(())),
        spec_set_system_dns(Platform::MacOs, interface, dns_ip, DnsConfigEvent::Begin, a) ==> a is ListServices,
        services_of(spec_lines(out@)).len() > 0 && spec_set_system_dns(Platform::MacOs, interface, dns_ip, DnsConfigEvent::ServicesListed(Ok(out)), a)
            ==> (a matches DnsConfigAction::SetServices(v, server) && server@ == dns_ip && texts(v@) == services_of(spec_lines(out@))),
{
    let head = "$tun = '"@ + expand(interface, |c: char| powershell_escape(c)) + "';Get-NetAdapter | Where-Object { $_.Status -eq 'Up' -and $_.Name -ne $tun } | ForEach-Object {$a = $_;try { $a | Set-DnsClientServerAddress -ResetServerAddresses -ErrorAction Stop } catch { Write-Warning ('reset ' + $a.Name + ': ' + $_.Exception.Message) };try { $a | Set-DnsClientServerAddress -ServerAddresses '"@;
    reveal_strlit("';Get-NetAdapter | Where-Object { $_.Status -eq 'Up' -and $_.Name -ne $tun } | ForEach-Object {$a = $_;try { $a | Set-DnsClientServerAddress -ResetServerAddresses -ErrorAction Stop } catch { Write-Warning ('reset ' + $a.Name + ': ' + $_.Exception.Message) };try { $a | Set-DnsClientServerAddress -ServerAddresses '");
    let s = spec_set_script(interface, dns_ip);
    let at: int = head.len() as int;
    let plen: int = dns_ip.len() as int;
    assert(s.subrange(at, at + plen) =~= dns_ip);
    assert(crate::text::occurs_at(s, dns_ip, at));
}

} // verus!
