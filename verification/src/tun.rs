//! The TUN address block: which /24 the tunnel uses, the addresses derived from it, and the
//! rewriting of configured addresses into the block actually in use.
//!
//! The head of the candidate list lives in reserved ranges (RFC 2544 benchmarking, then the
//! RFC 6598 shared space) that no router hands out, so the tunnel rarely collides with a LAN;
//! the legacy `10.0.0.0/24` stays last so configurations saved against it keep working.
use vstd::prelude::*;
use crate::ipv4::{format_ipv4, ipv4_text, lemma_ipv4_text_injective, parse_ipv4, push_ipv4};
use crate::num::{all_digits, char_is_digit, dec, is_digit, lemma_dec};
use crate::text::{chars_of, string_of, str_eq, append_str};
use crate::host::{Platform, join, push_component};
use crate::elevate::texts;

verus! {

/// The candidate /24 blocks, in the order they are tried.
pub open spec fn spec_candidates() -> Seq<u32> {
    seq![0xC612_0000u32, 0xC613_0000u32, 0x6464_0000u32, 0xAC1A_0000u32, 0x0AC8_0000u32, 0x0A00_0000u32]
}

/// The candidate /24 blocks, in the order they are tried: 198.18.0.0, 198.19.0.0,
/// 100.100.0.0, 172.26.0.0, 10.200.0.0 and the legacy 10.0.0.0.
pub fn tun_base_candidates() -> (v: Vec<u32>)
    ensures
        v@ == spec_candidates(),
{
    let v: Vec<u32> = vec![0xC612_0000u32, 0xC613_0000u32, 0x6464_0000u32, 0xAC1A_0000u32, 0x0AC8_0000u32, 0x0A00_0000u32];
    assert(v@ =~= spec_candidates());
    v
}

/// Netmask of the TUN block: every candidate is a /24.
pub const TUN_NETMASK: &'static str = "255.255.255.0";

/// The /24 network `x` belongs to.
pub open spec fn block_of(x: u32) -> u32 {
    x & 0xFFFF_FF00u32
}

/// Whether `x` lies in one of the candidate blocks.
pub open spec fn in_candidate_block(x: u32) -> bool {
    exists|i: int| 0 <= i < 6 && block_of(x) == #[trigger] spec_candidates()[i]
}

/// The address with the host octet of `x` inside the block starting at `base`.
pub open spec fn host_in(base: u32, x: u32) -> u32 {
    base | (x & 0xFFu32)
}

/// Whether `x` lies in one of the candidate blocks.
pub fn is_in_candidate_block(x: u32) -> (b: bool)
    ensures
        b == in_candidate_block(x),
{
    let cands = tun_base_candidates();
    let net = x & 0xFFFF_FF00u32;
    let mut i: usize = 0;
    while i < cands.len()
        invariant
            i <= cands.len(),
            cands@ == spec_candidates(),
            net == block_of(x),
            forall|k: int| 0 <= k < i ==> block_of(x) != spec_candidates()[k],
        decreases cands.len() - i,
    {
        if net == cands[i] {
            return true;
        }
        i = i + 1;
    }
    false
}

/// The address of the TUN device in the block at `base`: its `.254` host.
pub open spec fn spec_tun_ip(base: u32) -> u32 {
    base | 0xFEu32
}

/// What a block records after a read: a recorded block stays, and an empty one records the
/// first candidate as the fallback.
pub open spec fn recorded_after_read(rec: Option<u32>) -> Option<u32> {
    match rec {
        Some(v) => Some(v),
        None => Some(spec_candidates()[0]),
    }
}

/// What a block records after `set_tun_base(base)`: `base`, whatever was there before (the
/// fallback an early read put there included).
pub open spec fn recorded_after_set(rec: Option<u32>, base: u32) -> Option<u32> {
    Some(base)
}

/// The block in use, as it is recorded once the interface is configured.
///
/// Reading the block before anything was recorded falls back to (and records) the first
/// candidate; `set_tun_base` records the block the interface was actually configured with,
/// replacing that fallback, so from then on the block in use is the one reported.
pub struct TunBlock {
    base: Option<u32>,
}

impl TunBlock {
    /// What has been recorded, if anything.
    pub closed spec fn recorded(&self) -> Option<u32> {
        self.base
    }

    /// Nothing recorded yet.
    pub fn new() -> (t: Self)
        ensures
            t.recorded() is None,
    {
        TunBlock { base: None }
    }

    /// The base of the block in use; falls back to (and records) the first candidate until
    /// the interface is up.
    pub fn tun_base(&mut self) -> (b: u32)
        ensures
            final(self).recorded() == recorded_after_read(old(self).recorded()),
            final(self).recorded() == Some(b),
    {
        match self.base {
            Some(v) => v,
            None => {
                self.base = Some(0xC612_0000u32);
                0xC612_0000u32
            },
        }
    }

    /// Records the block `configure_interface` managed to configure; it replaces whatever was
    /// recorded before, the read fallback included.
    pub fn set_tun_base(&mut self, base: u32)
        ensures
            final(self).recorded() == recorded_after_set(old(self).recorded(), base),
            final(self).recorded() == Some(base),
    {
        self.base = Some(base);
    }

    /// The TUN device address (`.254` of the block in use), as text.
    pub fn tun_ip(&mut self) -> (s: String)
        ensures
            final(self).recorded() == recorded_after_read(old(self).recorded()),
            s@ == ipv4_text(spec_tun_ip(final(self).recorded()->0)),
    {
        let b = self.tun_base();
        format_ipv4(b | 0xFEu32)
    }

    /// The block in use, in CIDR form: `<base>/24`.
    pub fn tun_network(&mut self) -> (s: String)
        ensures
            final(self).recorded() == recorded_after_read(old(self).recorded()),
            s@ == ipv4_text(final(self).recorded()->0) + seq!['/', '2', '4'],
    {
        let b = self.tun_base();
        let mut v: Vec<char> = Vec::new();
        push_ipv4(&mut v, b);
        v.push('/');
        v.push('2');
        v.push('4');
        assert(v@ =~= ipv4_text(b) + seq!['/', '2', '4']);
        string_of(v.as_slice())
    }
}

/// The record after the calls `ops`, in order, on a block that recorded `rec`: `None` stands
/// for a read (`tun_base`, `tun_ip`, `tun_network`), `Some(b)` for `set_tun_base(b)`.
pub open spec fn recorded_after(rec: Option<u32>, ops: Seq<Option<u32>>) -> Option<u32>
    decreases ops.len(),
{
    if ops.len() == 0 {
        rec
    } else {
        let before = recorded_after(rec, ops.drop_last());
        match ops.last() {
            None => recorded_after_read(before),
            Some(b) => recorded_after_set(before, b),
        }
    }
}

/// The last `set_tun_base` among `ops` (in the encoding of `recorded_after`), if any.
pub open spec fn last_record(ops: Seq<Option<u32>>) -> Option<u32>
    decreases ops.len(),
{
    if ops.len() == 0 {
        None
    } else {
        match ops.last() {
            Some(b) => Some(b),
            None => last_record(ops.drop_last()),
        }
    }
}

/// The block reported is the one last recorded: after any calls, a block that was recorded
/// with `set_tun_base` reports the latest such record, even when an earlier read had put the
/// fallback there; reads alone never move a recorded block, and on an empty block they
/// record the first candidate.
pub proof fn law_tun_block_reports_last_record(rec: Option<u32>, ops: Seq<Option<u32>>)
    ensures
        last_record(ops) matches Some(b) ==> recorded_after(rec, ops) == Some(b),
        last_record(ops) is None && ops.len() == 0 ==> recorded_after(rec, ops) == rec,
        last_record(ops) is None && ops.len() > 0 ==> recorded_after(rec, ops) == recorded_after_read(rec),
    decreases ops.len(),
{
    if ops.len() > 0 {
        law_tun_block_reports_last_record(rec, ops.drop_last());
    }
}

/// Where the last `':'` of `s` is.
pub open spec fn last_colon(s: Seq<char>) -> Option<int>
    decreases s.len(),
{
    if s.len() == 0 {
        None
    } else if s.last() == ':' {
        Some(s.len() - 1)
    } else {
        last_colon(s.drop_last())
    }
}

/// `s` split into host and port: the port is what follows the last `':'` when that is a
/// nonempty run of digits; otherwise the whole of `s` is the host.
pub open spec fn split_port(s: Seq<char>) -> (Seq<char>, Option<Seq<char>>) {
    match last_colon(s) {
        Some(i) => {
            let p = s.subrange(i + 1, s.len() as int);
            if p.len() > 0 && all_digits(p) {
                (s.subrange(0, i), Some(p))
            } else {
                (s, None)
            }
        },
        None => (s, None),
    }
}

/// What `retarget` makes of `s` when the block in use starts at `base`: an IPv4 host inside
/// a candidate block moves to the same host octet in the block in use, the port (if any)
/// kept; anything else is left alone.
pub open spec fn spec_retarget(s: Seq<char>, base: u32) -> Seq<char> {
    let host = split_port(s).0;
    let port = split_port(s).1;
    if exists|x: u32| #[trigger] ipv4_text(x) == host && in_candidate_block(x) {
        let x = choose|x: u32| #[trigger] ipv4_text(x) == host && in_candidate_block(x);
        let t = ipv4_text(host_in(base, x));
        match port {
            Some(p) => t + seq![':'] + p,
            None => t,
        }
    } else {
        s
    }
}

proof fn lemma_last_colon_is(s: Seq<char>, i: int)
    requires
        0 <= i < s.len(),
        s[i] == ':',
        forall|k: int| i < k < s.len() ==> s[k] != ':',
    ensures
        last_colon(s) == Some(i),
    decreases s.len(),
{
    if i < s.len() - 1 {
        assert(s.drop_last()[i] == s[i]);
        lemma_last_colon_is(s.drop_last(), i);
    }
}

proof fn lemma_no_colon(s: Seq<char>)
    requires
        forall|k: int| 0 <= k < s.len() ==> s[k] != ':',
    ensures
        last_colon(s) is None,
    decreases s.len(),
{
    if s.len() > 0 {
        lemma_no_colon(s.drop_last());
    }
}

/// Where the last `':'` of `s` is, if anywhere.
fn find_last_colon(s: &[char]) -> (r: Option<usize>)
    ensures
        r matches Some(i) ==> i < s.len() && last_colon(s@) == Some(i as int),
        r is None ==> last_colon(s@) is None,
{
    let mut j: usize = s.len();
    while j > 0
        invariant
            j <= s.len(),
            forall|k: int| j <= k < s.len() ==> s@[k] != ':',
        decreases j,
    {
        if s[j - 1] == ':' {
            proof {
                lemma_last_colon_is(s@, j - 1);
            }
            return Some(j - 1);
        }
        j = j - 1;
    }
    proof {
        lemma_no_colon(s@);
    }
    None
}

/// Rewrites an address that points into one of the candidate blocks (as it was configured,
/// before the interface existed) so that it points at the same host inside the block at
/// `base`. Anything outside every candidate block is left alone.
pub fn retarget(addr: &str, base: u32) -> (r: String)
    ensures
        r@ == spec_retarget(addr@, base),
{
    let v = chars_of(addr);
    let mut host_end: usize = v.len();
    let mut port_start: Option<usize> = None;
    match find_last_colon(v.as_slice()) {
        Some(i) => {
            let mut ok = i + 1 < v.len();
            let mut k = i + 1;
            while k < v.len()
                invariant
                    i < v.len(),
                    i + 1 <= k <= v.len(),
                    ok == (i + 1 < v.len() && forall|m: int| i + 1 <= m < k ==> is_digit(
                        #[trigger] v@[m],
                    )),
                decreases v.len() - k,
            {
                if !char_is_digit(v[k]) {
                    ok = false;
                }
                k = k + 1;
            }
            if ok {
                host_end = i;
                port_start = Some(i + 1);
                proof {
                    let p = v@.subrange(i + 1, v@.len() as int);
                    assert forall|m: int| 0 <= m < p.len() implies is_digit(#[trigger] p[m]) by {
                        assert(p[m] == v@[m + i + 1]);
                    }
                }
            } else {
                proof {
                    let p = v@.subrange(i + 1, v@.len() as int);
                    if p.len() > 0 && all_digits(p) {
                        assert forall|m: int| i + 1 <= m < v.len() implies is_digit(
                            #[trigger] v@[m],
                        ) by {
                            assert(v@[m] == p[m - i - 1]);
                        }
                    }
                }
            }
        },
        None => {},
    }
    let host = vstd::slice::slice_subrange(v.as_slice(), 0, host_end);
    let ghost sp = split_port(addr@);
    assert(host@ == sp.0);
    match parse_ipv4(host) {
        None => {
            assert(!exists|x: u32| #[trigger] ipv4_text(x) == sp.0 && in_candidate_block(x));
            return String::from_str(addr);
        },
        Some(ip) => {
            if !is_in_candidate_block(ip) {
                proof {
                    assert forall|x: u32| #[trigger]
                        ipv4_text(x) == sp.0 implies !in_candidate_block(x) by {
                        lemma_ipv4_text_injective(x, ip);
                    }
                }
                return String::from_str(addr);
            }
            let moved = base | (ip & 0xFFu32);
            let mut out: Vec<char> = Vec::new();
            push_ipv4(&mut out, moved);
            proof {
                let x = choose|x: u32| #[trigger] ipv4_text(x) == sp.0 && in_candidate_block(x);
                lemma_ipv4_text_injective(x, ip);
            }
            match port_start {
                Some(ps) => {
                    out.push(':');
                    let mut k = ps;
                    while k < v.len()
                        invariant
                            ps <= k <= v.len(),
                            out@ == ipv4_text(moved) + seq![':'] + v@.subrange(ps as int, k as int),
                        decreases v.len() - k,
                    {
                        out.push(v[k]);
                        k = k + 1;
                        assert(out@ =~= ipv4_text(moved) + seq![':'] + v@.subrange(
                            ps as int,
                            k as int,
                        ));
                    }
                },
                None => {},
            }
            string_of(out.as_slice())
        },
    }
}

/// The text of an address holds no `':'`.
proof fn lemma_ipv4_text_no_colon(x: u32)
    ensures
        forall|k: int| 0 <= k < ipv4_text(x).len() ==> ipv4_text(x)[k] != ':',
{
    let a = dec(((x >> 24u32) as u8) as nat);
    let b = dec(((x >> 16u32) as u8) as nat);
    let c = dec(((x >> 8u32) as u8) as nat);
    let d = dec((x as u8) as nat);
    lemma_dec(((x >> 24u32) as u8) as nat);
    lemma_dec(((x >> 16u32) as u8) as nat);
    lemma_dec(((x >> 8u32) as u8) as nat);
    lemma_dec((x as u8) as nat);
    let t = ipv4_text(x);
    assert forall|k: int| 0 <= k < t.len() implies t[k] != ':' by {
        if k < a.len() {
            assert(is_digit(a[k]));
        } else if k == a.len() {
        } else if k < a.len() + 1 + b.len() {
            assert(t[k] == b[k - a.len() - 1]);
            assert(is_digit(b[k - a.len() - 1]));
        } else if k == a.len() + 1 + b.len() {
        } else if k < a.len() + b.len() + 2 + c.len() {
            assert(t[k] == c[k - a.len() - b.len() - 2]);
            assert(is_digit(c[k - a.len() - b.len() - 2]));
        } else if k == a.len() + b.len() + 2 + c.len() {
        } else {
            assert(t[k] == d[k - a.len() - b.len() - c.len() - 3]);
            assert(is_digit(d[k - a.len() - b.len() - c.len() - 3]));
        }
    }
}

/// Retargeting is idempotent once the block in use is itself a candidate block: an address
/// that has been moved into the block in use stays where it is.
pub proof fn law_retarget_idempotent(s: Seq<char>, base: u32)
    requires
        exists|i: int| 0 <= i < 6 && base == #[trigger] spec_candidates()[i],
    ensures
        spec_retarget(spec_retarget(s, base), base) == spec_retarget(s, base),
{
    let host = split_port(s).0;
    let port = split_port(s).1;
    if exists|x: u32| #[trigger] ipv4_text(x) == host && in_candidate_block(x) {
        let x = choose|x: u32| #[trigger] ipv4_text(x) == host && in_candidate_block(x);
        let y = host_in(base, x);
        let t = ipv4_text(y);
        let r = spec_retarget(s, base);
        lemma_ipv4_text_no_colon(y);
        assert(base & 0xFFu32 == 0) by {
            let i = choose|i: int| 0 <= i < 6 && base == #[trigger] spec_candidates()[i];
            assert(0xC612_0000u32 & 0xFFu32 == 0) by (bit_vector);
            assert(0xC613_0000u32 & 0xFFu32 == 0) by (bit_vector);
            assert(0x6464_0000u32 & 0xFFu32 == 0) by (bit_vector);
            assert(0xAC1A_0000u32 & 0xFFu32 == 0) by (bit_vector);
            assert(0x0AC8_0000u32 & 0xFFu32 == 0) by (bit_vector);
            assert(0x0A00_0000u32 & 0xFFu32 == 0) by (bit_vector);
        }
        assert(block_of(y) == block_of(base)) by (bit_vector)
            requires
                y == base | (x & 0xFFu32),
                base & 0xFFu32 == 0,
        ;
        assert(block_of(base) == base) by (bit_vector)
            requires
                base & 0xFFu32 == 0,
        ;
        assert(in_candidate_block(y)) by {
            let i = choose|i: int| 0 <= i < 6 && base == #[trigger] spec_candidates()[i];
            assert(block_of(y) == spec_candidates()[i]);
        }
        assert(host_in(base, y) == y) by (bit_vector)
            requires
                y == base | (x & 0xFFu32),
        ;
        match port {
            Some(p) => {
                assert(r == t + seq![':'] + p);
                lemma_last_colon_is(r, t.len() as int);
                assert(r.subrange(t.len() as int + 1, r.len() as int) =~= p);
                assert(r.subrange(0, t.len() as int) =~= t);
                assert(split_port(r).0 == t);
                assert(split_port(r).1 == Some(p));
            },
            None => {
                assert(r == t);
                lemma_no_colon(r);
            },
        }
        assert(ipv4_text(y) == split_port(r).0 && in_candidate_block(y));
        let x2 = choose|x2: u32| #[trigger] ipv4_text(x2) == split_port(r).0 && in_candidate_block(x2);
        lemma_ipv4_text_injective(x2, y);
    }
}

/// The addresses the virtual IP pool hands out in the block at `base`: `.2` to `.253`, leaving
/// the device's `.254` alone.
pub fn virtual_ip_range(base: u32) -> (r: (u32, u32))
    ensures
        r == (base | 0x02u32, base | 0xFDu32),
{
    (base | 0x02u32, base | 0xFDu32)
}

/// The directory of the bundled wintun build for a CPU architecture (as `std::env::consts::ARCH`
/// names it); anything unknown gets the x86-64 build.
pub open spec fn spec_arch_dir(arch: Seq<char>) -> Seq<char> {
    if arch == "x86_64"@ {
        "amd64"@
    } else if arch == "x86"@ {
        "x86"@
    } else if arch == "arm"@ {
        "arm"@
    } else if arch == "aarch64"@ {
        "arm64"@
    } else {
        "amd64"@
    }
}

/// The wintun directory for `arch`.
pub fn target_arch_dir(arch: &str) -> (r: String)
    ensures
        r@ == spec_arch_dir(arch@),
{
    if str_eq(arch, "x86_64") {
        String::from_str("amd64")
    } else if str_eq(arch, "x86") {
        String::from_str("x86")
    } else if str_eq(arch, "arm") {
        String::from_str("arm")
    } else if str_eq(arch, "aarch64") {
        String::from_str("arm64")
    } else {
        String::from_str("amd64")
    }
}

/// Where `wintun.dll` is looked for, in order: the path fixed at build time, next to the
/// executable, under `wintun/bin/<arch>` there, under the bundled resources, and the path the
/// environment names at run time.
pub open spec fn spec_wintun_candidates(build_path: Option<Seq<char>>, exe_dir: Option<Seq<char>>, arch_dir: Seq<char>, runtime_path: Option<Seq<char>>) -> Seq<Seq<char>> {
    let w = Platform::Windows;
    let a = match build_path {
        Some(p) => seq![p],
        None => Seq::empty(),
    };
    let b = match exe_dir {
        Some(d) => a + seq![
            join(w, d, "wintun.dll"@),
            join(w, join(w, join(w, join(w, d, "wintun"@), "bin"@), arch_dir), "wintun.dll"@),
            join(w, join(w, join(w, join(w, join(w, d, "resources"@), "wintun"@), "bin"@), arch_dir), "wintun.dll"@),
        ],
        None => a,
    };
    match runtime_path {
        Some(p) => b.push(p),
        None => b,
    }
}

/// The places `wintun.dll` is looked for; the first that exists is used.
pub fn wintun_candidates(build_path: Option<&str>, exe_dir: Option<&str>, arch: &str, runtime_path: Option<&str>) -> (r: Vec<String>)
    ensures
        texts(r@) == spec_wintun_candidates(
            match build_path { Some(p) => Some(p@), None => None },
            match exe_dir { Some(d) => Some(d@), None => None },
            spec_arch_dir(arch@),
            match runtime_path { Some(p) => Some(p@), None => None },
        ),
{
    let w = Platform::Windows;
    let arch_dir = target_arch_dir(arch);
    let mut r: Vec<String> = Vec::new();
    match build_path {
        Some(p) => r.push(String::from_str(p)),
        None => {},
    }
    let ghost a = texts(r@);
    match exe_dir {
        Some(d) => {
            let mut x = chars_of(d);
            push_component(w, &mut x, "wintun.dll");
            let mut y = chars_of(d);
            push_component(w, &mut y, "wintun");
            push_component(w, &mut y, "bin");
            push_component(w, &mut y, arch_dir.as_str());
            push_component(w, &mut y, "wintun.dll");
            let mut z = chars_of(d);
            push_component(w, &mut z, "resources");
            push_component(w, &mut z, "wintun");
            push_component(w, &mut z, "bin");
            push_component(w, &mut z, arch_dir.as_str());
            push_component(w, &mut z, "wintun.dll");
            r.push(string_of(x.as_slice()));
            r.push(string_of(y.as_slice()));
            r.push(string_of(z.as_slice()));
        },
        None => {},
    }
    match runtime_path {
        Some(p) => r.push(String::from_str(p)),
        None => {},
    }
    assert(texts(r@) =~= spec_wintun_candidates(
        match build_path { Some(p) => Some(p@), None => None },
        match exe_dir { Some(d) => Some(d@), None => None },
        spec_arch_dir(arch@),
        match runtime_path { Some(p) => Some(p@), None => None },
    ));
    r
}

/// Why the TUN mode stopped when its DNS server could not bind.
pub fn dns_bind_failure(listen: &str, error: &str, interface: &str, tun_ip: &str) -> (r: String)
    ensures
        r@ == "Failed to bind DNS server on "@ + listen@ + ": "@ + error@ + ". Ensure the TUN interface "@
            + interface@ + " is configured with "@ + tun_ip@ + " and port 53 is free."@,
{
    let mut m: Vec<char> = Vec::new();
    append_str(&mut m, "Failed to bind DNS server on ");
    append_str(&mut m, listen);
    append_str(&mut m, ": ");
    append_str(&mut m, error);
    append_str(&mut m, ". Ensure the TUN interface ");
    append_str(&mut m, interface);
    append_str(&mut m, " is configured with ");
    append_str(&mut m, tun_ip);
    append_str(&mut m, " and port 53 is free.");
    string_of(m.as_slice())
}


/// The MTU of the TUN device. It must stay 1400 across every TUN implementation of the
/// project: a larger segment needs two QUIC datagrams, a large throughput regression.
pub const TUN_MTU: u16 = 1400;

/// How the TUN device is created.
#[derive(Debug, Clone)]
pub struct TunDeviceConfig {
    /// The device name; `None` lets the system pick (`utunN` on macOS).
    pub name: Option<String>,
    pub mtu: u16,
    /// Windows: the `wintun.dll` handed to the driver explicitly.
    pub wintun_file: Option<String>,
}

/// Why the device cannot be created on Windows without a `wintun.dll`.
pub open spec fn wintun_missing() -> Seq<char> {
    "wintun.dll not found. Make sure build.rs copied it next to the exe, or set the WINTUN_PATH environment variable to point at wintun.dll"@
}

/// The device configuration on `p` for the tunnel `tunnel_name`; `wintun` is the first
/// `wintun.dll` found (Windows). The MTU is always `TUN_MTU`; macOS picks its own name; on
/// Windows the DLL path is passed explicitly, and without one no device can be made.
/// Addresses and routes are not part of it: they are configured separately.
pub fn device_config(p: Platform, tunnel_name: &str, wintun: Option<String>) -> (r: Result<TunDeviceConfig, String>)
    ensures
        p == Platform::Windows && wintun is None ==> (r matches Err(e) && e@ == wintun_missing()),
        !(p == Platform::Windows && wintun is None) ==> (r matches Ok(c) && c.mtu == TUN_MTU && c.mtu == 1400
            && (p == Platform::MacOs ==> c.name is None)
            && (p != Platform::MacOs ==> (c.name matches Some(n) && n@ == tunnel_name@))
            && (p == Platform::Windows ==> c.wintun_file == wintun)
            && (p != Platform::Windows ==> c.wintun_file is None)),
{
    let wintun_file = if p == Platform::Windows {
        match wintun {
            None => {
                proof {
                    reveal_strlit("wintun.dll not found. Make sure build.rs copied it next to the exe, or set the WINTUN_PATH environment variable to point at wintun.dll");
                }
                return Err(String::from_str(
                    "wintun.dll not found. Make sure build.rs copied it next to the exe, or set the WINTUN_PATH environment variable to point at wintun.dll",
                ));
            },
            Some(w) => Some(w),
        }
    } else {
        None
    };
    let name = if p == Platform::MacOs {
        None
    } else {
        Some(String::from_str(tunnel_name))
    };
    Ok(TunDeviceConfig { name, mtu: TUN_MTU, wintun_file })
}

} // verus!
