//! Choosing and configuring the TUN address block.
//!
//! Every platform walks the candidate blocks in order and keeps the first one whose `.254`
//! address can be assigned and becomes bindable. A block is skipped without trying when it is
//! already spoken for: on Windows when it overlaps the subnet of another adapter that is up,
//! on Linux and macOS when another interface holds an address inside it, or when another
//! interface holds an address in 198.18.0.0/15 (the fake-IP pool of Clash-like tools) and the
//! block is one of the two candidates in that range.
use vstd::prelude::*;
use crate::host::Platform;
use crate::ipv4::{oct0, oct1, oct2, oct3};
use crate::tun::{spec_candidates, tun_base_candidates, block_of, spec_tun_ip, TunBlock};
use crate::text::{chars_of, string_of, find_char, slice_chars, str_eq, is_ws, is_whitespace, is_first, lemma_first_unique, spec_lines, text_lines, has_prefix, spec_trim, trim_chars, trim_start, lead_ws};
use crate::ipv4::{ipv4_text, parse_ipv4, lemma_ipv4_text_injective};

verus! {

/// Whether `a` lies in 198.18.0.0/15.
pub open spec fn in_fake_ip_pool(a: u32) -> bool {
    oct0(a) == 198 && (oct1(a) == 18 || oct1(a) == 19)
}

/// Whether `base` is one of the two candidate blocks inside 198.18.0.0/15.
pub open spec fn is_fake_ip_block(base: u32) -> bool {
    in_fake_ip_pool(base) && oct2(base) == 0 && oct3(base) == 0
}

/// Whether the block at `base` is spoken for by the addresses other interfaces hold.
pub open spec fn block_taken(base: u32, foreign: Seq<u32>) -> bool {
    (is_fake_ip_block(base) && exists|k: int| 0 <= k < foreign.len() && in_fake_ip_pool(#[trigger] foreign[k]))
        || exists|k: int| 0 <= k < foreign.len() && block_of(#[trigger] foreign[k]) == base
}

fn octets_fake_pool(a: u32) -> (b: bool)
    ensures
        b == in_fake_ip_pool(a),
{
    let o0 = (a >> 24u32) as u8;
    let o1 = (a >> 16u32) as u8;
    o0 == 198 && (o1 == 18 || o1 == 19)
}

/// Whether another interface holds an address in the fake-IP pool.
pub fn fake_ip_claimed(foreign: &[u32]) -> (b: bool)
    ensures
        b == exists|k: int| 0 <= k < foreign.len() && in_fake_ip_pool(#[trigger] foreign@[k]),
{
    let mut i: usize = 0;
    while i < foreign.len()
        invariant
            i <= foreign.len(),
            forall|k: int| 0 <= k < i ==> !in_fake_ip_pool(#[trigger] foreign@[k]),
        decreases foreign.len() - i,
    {
        if octets_fake_pool(foreign[i]) {
            return true;
        }
        i = i + 1;
    }
    false
}

/// Whether the Unix walk skips the block at `base`, given the addresses other interfaces hold.
pub fn block_is_taken(base: u32, foreign: &[u32]) -> (b: bool)
    ensures
        b == block_taken(base, foreign@),
{
    let o0 = (base >> 24u32) as u8;
    let o1 = (base >> 16u32) as u8;
    let o2 = (base >> 8u32) as u8;
    let o3 = base as u8;
    if o0 == 198 && (o1 == 18 || o1 == 19) && o2 == 0 && o3 == 0 && fake_ip_claimed(foreign) {
        return true;
    }
    let mut i: usize = 0;
    while i < foreign.len()
        invariant
            i <= foreign.len(),
            forall|k: int| 0 <= k < i ==> block_of(#[trigger] foreign@[k]) != base,
        decreases foreign.len() - i,
    {
        if foreign[i] & 0xFFFF_FF00u32 == base {
            return true;
        }
        i = i + 1;
    }
    proof {
        if is_fake_ip_block(base) {
            assert(o0 == oct0(base) && o1 == oct1(base) && o2 == oct2(base) && o3 == oct3(base));
        }
    }
    false
}

/// Whether the subnets of `base`/24 and `addr`/`prefix` overlap, compared on the wider of the
/// two (at most 24 bits): a /8 LAN contains the whole block, a /32 host only its address.
pub open spec fn subnets_overlap(base: u32, addr: u32, prefix: u8) -> bool {
    let p = if prefix < 24 { prefix } else { 24u8 };
    p > 0 && (base >> ((32 - p) as u32)) == (addr >> ((32 - p) as u32))
}

/// One unicast address of an adapter, with its on-link prefix length.
#[derive(Debug, Clone, Copy)]
pub struct UnicastAddress {
    pub addr: u32,
    pub prefix: u8,
}

/// An adapter as the address enumeration reports it: its friendly name, whether it is up,
/// and its IPv4 unicast addresses.
#[derive(Debug, Clone)]
pub struct AdapterInfo {
    pub name: String,
    /// The interface index the IP Helper API keys rows by.
    pub index: u32,
    pub up: bool,
    pub unicast: Vec<UnicastAddress>,
}

/// Whether the block at `base` overlaps a subnet some other adapter that is up sits in.
pub open spec fn spec_collides(base: u32, tun: Seq<char>, adapters: Seq<AdapterInfo>) -> bool {
    exists|i: int, j: int| 0 <= i < adapters.len() && adapters[i].name@ != tun && adapters[i].up
        && 0 <= j < adapters[i].unicast.len()
        && #[trigger] subnets_overlap(base, adapters[i].unicast@[j].addr, adapters[i].unicast@[j].prefix)
}

fn overlaps(base: u32, addr: u32, prefix: u8) -> (b: bool)
    ensures
        b == subnets_overlap(base, addr, prefix),
{
    let p: u8 = if prefix < 24 { prefix } else { 24 };
    if p == 0 {
        return false;
    }
    let s: u32 = (32 - p) as u32;
    let mask: u32 = 0xFFFF_FFFFu32 << s;
    let same = (base & mask) == (addr & mask);
    assert(same == ((base >> s) == (addr >> s))) by (bit_vector)
        requires
            8 <= s < 32,
            mask == 0xFFFF_FFFFu32 << s,
            same == ((base & mask) == (addr & mask)),
    ;
    same
}

/// Whether the block at `base` collides with an adapter other than the TUN one (`tun`).
pub fn tun_block_collides(base: u32, tun_interface: &str, adapters: &[AdapterInfo]) -> (b: bool)
    ensures
        b == spec_collides(base, tun_interface@, adapters@),
{
    let mut i: usize = 0;
    while i < adapters.len()
        invariant
            i <= adapters.len(),
            forall|x: int, j: int| 0 <= x < i && adapters@[x].name@ != tun_interface@ && adapters@[x].up
                && 0 <= j < adapters@[x].unicast.len()
                ==> !#[trigger] subnets_overlap(base, adapters@[x].unicast@[j].addr, adapters@[x].unicast@[j].prefix),
        decreases adapters.len() - i,
    {
        let a = &adapters[i];
        if !str_eq(a.name.as_str(), tun_interface) && a.up {
            let mut j: usize = 0;
            while j < a.unicast.len()
                invariant
                    j <= a.unicast.len(),
                    i < adapters.len(),
                    *a == adapters@[i as int],
                    a.name@ != tun_interface@,
                    a.up,
                    forall|y: int| 0 <= y < j ==> !#[trigger] subnets_overlap(base, a.unicast@[y].addr, a.unicast@[y].prefix),
                decreases a.unicast.len() - j,
            {
                let u = a.unicast[j];
                if overlaps(base, u.addr, u.prefix) {
                    assert(subnets_overlap(base, adapters@[i as int].unicast@[j as int].addr, adapters@[i as int].unicast@[j as int].prefix));
                    return true;
                }
                j = j + 1;
            }
        }
        i = i + 1;
    }
    false
}

/// Where the configuration of the TUN interface stands: the candidate block it works on (by
/// position in the candidate list) and what it asks to be done next.
#[derive(Debug, Clone, Copy, PartialEq, Eq, Structural)]
pub enum ConfigureStep {
    /// Windows: ask whether the block collides with an existing adapter.
    CheckCollision { index: usize },
    /// Assign the block's `.254` address (Windows: through the IP Helper API, `attempt` of 3).
    Assign { index: usize, attempt: u32 },
    /// Windows: assign the address with `netsh` after the API refused it.
    AssignWithNetsh { index: usize },
    /// Probe whether the address is bindable (Windows: `attempt` of 20, half a second apart;
    /// Unix: one probe that waits up to three seconds).
    Probe { index: usize, attempt: u32 },
    /// Remove the address, then go on with the next block.
    Remove { index: usize },
    /// Record the block as the one in use; the interface is configured.
    Done { index: usize },
    /// No candidate block could be configured.
    GiveUp,
}

/// What came of the step just performed.
#[derive(Debug, Clone, Copy, PartialEq, Eq, Structural)]
pub enum ConfigureEvent {
    /// The collision check answered; `None` when it failed (the block is tried anyway).
    Collision(Option<bool>),
    /// Whether the address was assigned.
    Assigned(bool),
    /// Whether the address became bindable.
    Bindable(bool),
    /// The address was removed.
    Removed,
}

/// How many times the IP Helper API is asked to assign an address.
pub const ASSIGN_ATTEMPTS: u32 = 3;

/// How many bindability probes a Windows block gets.
pub const PROBE_ATTEMPTS: u32 = 20;

/// The number of candidate blocks.
pub const CANDIDATE_COUNT: usize = 6;

/// The first block at or after `from` that the walk works on: on Windows every block (its
/// collision check comes first), on Unix the first one that is not taken; `None` when none is
/// left.
pub open spec fn first_untaken(p: Platform, foreign: Seq<u32>, from: int) -> Option<int>
    decreases 6 - from,
{
    if from < 0 || from >= 6 {
        None
    } else if p != Platform::Windows && block_taken(spec_candidates()[from], foreign) {
        first_untaken(p, foreign, from + 1)
    } else {
        Some(from)
    }
}

/// The step that starts work on the blocks from `from` on.
pub open spec fn spec_begin_at(p: Platform, foreign: Seq<u32>, from: int) -> ConfigureStep {
    match first_untaken(p, foreign, from) {
        None => ConfigureStep::GiveUp,
        Some(i) => if p == Platform::Windows {
            ConfigureStep::CheckCollision { index: i as usize }
        } else {
            ConfigureStep::Assign { index: i as usize, attempt: 1 }
        },
    }
}

/// The step after `step` once `event` came of it. An event that does not belong to the step
/// leaves the step as it is; `Done` and `GiveUp` are final.
pub open spec fn spec_configure_next(p: Platform, foreign: Seq<u32>, step: ConfigureStep, event: ConfigureEvent) -> ConfigureStep {
    let win = p == Platform::Windows;
    match (step, event) {
        (ConfigureStep::CheckCollision { index }, ConfigureEvent::Collision(c)) => if c == Some(true) {
            spec_begin_at(p, foreign, index + 1)
        } else {
            ConfigureStep::Assign { index, attempt: 1 }
        },
        (ConfigureStep::Assign { index, attempt }, ConfigureEvent::Assigned(ok)) => if ok {
            ConfigureStep::Probe { index, attempt: 1 }
        } else if !win {
            spec_begin_at(p, foreign, index + 1)
        } else if attempt < ASSIGN_ATTEMPTS {
            ConfigureStep::Assign { index, attempt: (attempt + 1) as u32 }
        } else {
            ConfigureStep::AssignWithNetsh { index }
        },
        (ConfigureStep::AssignWithNetsh { index }, ConfigureEvent::Assigned(ok)) => if ok {
            ConfigureStep::Probe { index, attempt: 1 }
        } else {
            ConfigureStep::Remove { index }
        },
        (ConfigureStep::Probe { index, attempt }, ConfigureEvent::Bindable(ok)) => if ok {
            ConfigureStep::Done { index }
        } else if win && attempt < PROBE_ATTEMPTS {
            ConfigureStep::Probe { index, attempt: (attempt + 1) as u32 }
        } else {
            ConfigureStep::Remove { index }
        },
        (ConfigureStep::Remove { index }, ConfigureEvent::Removed) => spec_begin_at(p, foreign, index + 1),
        _ => step,
    }
}

/// The position of the first block at or after `from` that the walk works on.
fn first_untaken_exec(p: Platform, foreign: &[u32], from: usize) -> (r: Option<usize>)
    ensures
        match r {
            Some(i) => first_untaken(p, foreign@, from as int) == Some(i as int),
            None => first_untaken(p, foreign@, from as int) is None,
        },
    decreases 6 - from,
{
    if from >= 6 {
        return None;
    }
    let cands = tun_base_candidates();
    if p != Platform::Windows && block_is_taken(cands[from], foreign) {
        first_untaken_exec(p, foreign, from + 1)
    } else {
        Some(from)
    }
}

fn begin_at(p: Platform, foreign: &[u32], from: usize) -> (s: ConfigureStep)
    requires
        from <= 6,
    ensures
        s == spec_begin_at(p, foreign@, from as int),
{
    match first_untaken_exec(p, foreign, from) {
        None => ConfigureStep::GiveUp,
        Some(i) => if p == Platform::Windows {
            ConfigureStep::CheckCollision { index: i }
        } else {
            ConfigureStep::Assign { index: i, attempt: 1 }
        },
    }
}

/// A step only ever names a candidate block.
pub open spec fn step_in_range(step: ConfigureStep) -> bool {
    match step {
        ConfigureStep::CheckCollision { index } => index < 6,
        ConfigureStep::Assign { index, attempt } => index < 6 && 1 <= attempt <= ASSIGN_ATTEMPTS,
        ConfigureStep::AssignWithNetsh { index } => index < 6,
        ConfigureStep::Probe { index, attempt } => index < 6 && 1 <= attempt <= PROBE_ATTEMPTS,
        ConfigureStep::Remove { index } => index < 6,
        ConfigureStep::Done { index } => index < 6,
        ConfigureStep::GiveUp => true,
    }
}

proof fn lemma_first_untaken_range(p: Platform, foreign: Seq<u32>, from: int)
    ensures
        first_untaken(p, foreign, from) matches Some(i) ==> from <= i < 6,
    decreases 6 - from,
{
    if 0 <= from < 6 {
        lemma_first_untaken_range(p, foreign, from + 1);
    }
}

/// The first step of configuring the interface on `p`; `foreign` holds the addresses other
/// interfaces have (Unix; unused on Windows).
pub fn configure_start(p: Platform, foreign: &[u32]) -> (s: ConfigureStep)
    ensures
        s == spec_begin_at(p, foreign@, 0),
        step_in_range(s),
{
    proof {
        lemma_first_untaken_range(p, foreign@, 0);
    }
    begin_at(p, foreign, 0)
}

/// Assigns the TUN interface its address: the step after `step`, given what came of it. The
/// step that settles on a block (`Done`) records that block in `tun`, replacing whatever was
/// recorded before, so the block in use is the one configured; every other step leaves `tun`
/// as it was (a walk that gives up records nothing).
pub fn configure_interface(p: Platform, foreign: &[u32], tun: &mut TunBlock, step: ConfigureStep, event: ConfigureEvent) -> (s: ConfigureStep)
    requires
        step_in_range(step),
    ensures
        s == spec_configure_next(p, foreign@, step, event),
        step_in_range(s),
        match s {
            ConfigureStep::Done { index } if !(step is Done) => final(tun).recorded() == Some(spec_candidates()[index as int]),
            _ => final(tun).recorded() == old(tun).recorded(),
        },
{
    let next = configure_next(p, foreign, step, event);
    match next {
        ConfigureStep::Done { index } => {
            if !matches!(step, ConfigureStep::Done { .. }) {
                let cands = tun_base_candidates();
                tun.set_tun_base(cands[index]);
            }
        },
        _ => {},
    }
    next
}

fn configure_next(p: Platform, foreign: &[u32], step: ConfigureStep, event: ConfigureEvent) -> (s: ConfigureStep)
    requires
        step_in_range(step),
    ensures
        s == spec_configure_next(p, foreign@, step, event),
        step_in_range(s),
{
    let win = p == Platform::Windows;
    match (step, event) {
        (ConfigureStep::CheckCollision { index }, ConfigureEvent::Collision(c)) => if c == Some(true) {
            proof { lemma_first_untaken_range(p, foreign@, index + 1); }
            begin_at(p, foreign, index + 1)
        } else {
            ConfigureStep::Assign { index, attempt: 1 }
        },
        (ConfigureStep::Assign { index, attempt }, ConfigureEvent::Assigned(ok)) => if ok {
            ConfigureStep::Probe { index, attempt: 1 }
        } else if !win {
            proof { lemma_first_untaken_range(p, foreign@, index + 1); }
            begin_at(p, foreign, index + 1)
        } else if attempt < ASSIGN_ATTEMPTS {
            ConfigureStep::Assign { index, attempt: attempt + 1 }
        } else {
            ConfigureStep::AssignWithNetsh { index }
        },
        (ConfigureStep::AssignWithNetsh { index }, ConfigureEvent::Assigned(ok)) => if ok {
            ConfigureStep::Probe { index, attempt: 1 }
        } else {
            ConfigureStep::Remove { index }
        },
        (ConfigureStep::Probe { index, attempt }, ConfigureEvent::Bindable(ok)) => if ok {
            ConfigureStep::Done { index }
        } else if win && attempt < PROBE_ATTEMPTS {
            ConfigureStep::Probe { index, attempt: attempt + 1 }
        } else {
            ConfigureStep::Remove { index }
        },
        (ConfigureStep::Remove { index }, ConfigureEvent::Removed) => {
            proof { lemma_first_untaken_range(p, foreign@, index + 1); }
            begin_at(p, foreign, index + 1)
        },
        _ => step,
    }
}

/// The block a step works on.
pub open spec fn step_index(step: ConfigureStep) -> int {
    match step {
        ConfigureStep::CheckCollision { index } => index as int,
        ConfigureStep::Assign { index, .. } => index as int,
        ConfigureStep::AssignWithNetsh { index } => index as int,
        ConfigureStep::Probe { index, .. } => index as int,
        ConfigureStep::Remove { index } => index as int,
        ConfigureStep::Done { index } => index as int,
        ConfigureStep::GiveUp => 6,
    }
}

/// The walk never goes back to an earlier block; a block is kept only right after its address
/// proved bindable; and on Unix an address is only ever assigned in a block that is not taken.
pub proof fn law_configure_walks_forward(p: Platform, foreign: Seq<u32>, step: ConfigureStep, event: ConfigureEvent)
    requires
        step_in_range(step),
    ensures
        step_index(step) <= step_index(spec_configure_next(p, foreign, step, event)),
        spec_configure_next(p, foreign, step, event) matches ConfigureStep::Done { index } ==> (
            step == ConfigureStep::Done { index } || (step matches ConfigureStep::Probe { index: i, .. } && i == index
                && event == ConfigureEvent::Bindable(true))),
        p != Platform::Windows && !(step is CheckCollision) ==> (spec_configure_next(p, foreign, step, event) matches ConfigureStep::Assign { index, .. }
            ==> !block_taken(spec_candidates()[index as int], foreign) || step == spec_configure_next(p, foreign, step, event)),
{
    let next = spec_configure_next(p, foreign, step, event);
    lemma_first_untaken_range(p, foreign, step_index(step) + 1);
    lemma_first_untaken_untaken(p, foreign, step_index(step) + 1);
}

proof fn lemma_first_untaken_untaken(p: Platform, foreign: Seq<u32>, from: int)
    ensures
        p != Platform::Windows ==> (first_untaken(p, foreign, from) matches Some(i) ==> !block_taken(spec_candidates()[i], foreign)),
    decreases 6 - from,
{
    if 0 <= from < 6 {
        lemma_first_untaken_untaken(p, foreign, from + 1);
    }
}

/// The address a block gives the TUN device: its `.254` host.
pub fn block_address(index: usize) -> (ip: u32)
    requires
        index < 6,
    ensures
        ip == spec_tun_ip(spec_candidates()[index as int]),
{
    let cands = tun_base_candidates();
    cands[index] | 0xFEu32
}

/// The interface name in an `ip addr` name field, `<ifname>[@<peer>][:]`: what precedes the
/// first `@`, without trailing colons.
pub open spec fn spec_interface_field_name(token: Seq<char>) -> Seq<char> {
    let head = if exists|i: int| crate::text::is_first(token, '@', i) {
        token.subrange(0, choose|i: int| crate::text::is_first(token, '@', i))
    } else {
        token
    };
    head.subrange(0, head.len() - trailing(head, ':'))
}

/// How many copies of `c` end `s`.
pub open spec fn trailing(s: Seq<char>, c: char) -> nat
    decreases s.len(),
{
    if s.len() > 0 && s.last() == c {
        1 + trailing(s.drop_last(), c)
    } else {
        0
    }
}

proof fn lemma_trailing_is(s: Seq<char>, c: char, j: int)
    requires
        0 <= j <= s.len(),
        forall|k: int| j <= k < s.len() ==> s[k] == c,
        j > 0 ==> s[j - 1] != c,
    ensures
        trailing(s, c) == s.len() - j,
    decreases s.len(),
{
    if j < s.len() {
        assert forall|k: int| j <= k < s.drop_last().len() implies s.drop_last()[k] == c by {
            assert(s.drop_last()[k] == s[k]);
        }
        if j > 0 {
            assert(s.drop_last()[j - 1] == s[j - 1]);
        }
        lemma_trailing_is(s.drop_last(), c, j);
    }
}

/// The interface name in an `ip addr` name field, if there is a field.
pub fn interface_field_name(token: Option<&str>) -> (r: Option<String>)
    ensures
        match token {
            None => r is None,
            Some(t) => r matches Some(n) && n@ == spec_interface_field_name(t@),
        },
{
    let t = match token {
        None => return None,
        Some(t) => t,
    };
    let v = chars_of(t);
    let head = match find_char(v.as_slice(), '@') {
        Some(i) => {
            proof {
                let j = choose|j: int| crate::text::is_first(v@, '@', j);
                crate::text::lemma_first_unique(v@, '@', i as int, j);
            }
            slice_chars(v.as_slice(), 0, i)
        },
        None => {
            assert(!exists|i: int| crate::text::is_first(v@, '@', i));
            slice_chars(v.as_slice(), 0, v.len())
        },
    };
    assert(v@.subrange(0, v@.len() as int) =~= v@);
    let mut j: usize = head.len();
    while j > 0 && head[j - 1] == ':'
        invariant
            j <= head.len(),
            forall|k: int| j <= k < head.len() ==> head@[k] == ':',
        decreases j,
    {
        j = j - 1;
    }
    proof {
        lemma_trailing_is(head@, ':', j as int);
    }
    let name = slice_chars(head.as_slice(), 0, j);
    Some(string_of(name.as_slice()))
}

/// The address a text names, as `Ipv4Addr` reads it: the one whose dotted-quad rendering it
/// is.
pub open spec fn spec_ipv4_of(s: Seq<char>) -> Option<u32> {
    if exists|x: u32| ipv4_text(x) == s {
        Some(choose|x: u32| ipv4_text(x) == s)
    } else {
        None
    }
}

fn read_ipv4(s: &[char]) -> (r: Option<u32>)
    ensures
        r == spec_ipv4_of(s@),
{
    let r = parse_ipv4(s);
    proof {
        match r {
            Some(x) => {
                let y = choose|y: u32| ipv4_text(y) == s@;
                lemma_ipv4_text_injective(x, y);
            },
            None => {
                assert(!exists|x: u32| ipv4_text(x) == s@);
            },
        }
    }
    r
}

/// How many characters before the first whitespace.
pub open spec fn token_len(s: Seq<char>) -> nat
    decreases s.len(),
{
    if s.len() > 0 && !is_ws(s[0]) {
        1 + token_len(s.drop_first())
    } else {
        0
    }
}

/// The whitespace-separated words of `s` (`split_whitespace`).
pub open spec fn ws_tokens(s: Seq<char>) -> Seq<Seq<char>>
    decreases s.len(),
{
    if s.len() == 0 {
        Seq::empty()
    } else if is_ws(s[0]) {
        ws_tokens(s.drop_first())
    } else {
        let n = token_len(s);
        if 0 < n <= s.len() {
            seq![s.subrange(0, n as int)] + ws_tokens(s.subrange(n as int, s.len() as int))
        } else {
            Seq::empty()
        }
    }
}

proof fn lemma_token_len(s: Seq<char>, n: int)
    requires
        0 <= n <= s.len(),
        forall|k: int| 0 <= k < n ==> !is_ws(s[k]),
        n < s.len() ==> is_ws(s[n]),
    ensures
        token_len(s) == n,
    decreases n,
{
    if n > 0 {
        assert forall|k: int| 0 <= k < n - 1 implies !is_ws(s.drop_first()[k]) by {
            assert(s.drop_first()[k] == s[k + 1]);
        }
        if n - 1 < s.drop_first().len() {
            assert(s.drop_first()[n - 1] == s[n]);
        }
        lemma_token_len(s.drop_first(), n - 1);
    }
}

/// The whitespace-separated words of `v`.
pub fn tokens_of(v: &[char]) -> (r: Vec<Vec<char>>)
    ensures
        r@.map_values(|t: Vec<char>| t@) == ws_tokens(v@),
{
    let mut r: Vec<Vec<char>> = Vec::new();
    let mut i: usize = 0;
    assert(v@.subrange(0, v.len() as int) =~= v@);
    while i < v.len()
        invariant
            i <= v.len(),
            ws_tokens(v@) == r@.map_values(|t: Vec<char>| t@) + ws_tokens(v@.subrange(i as int, v.len() as int)),
        decreases v.len() - i,
    {
        let ghost rest = v@.subrange(i as int, v.len() as int);
        if is_whitespace(v[i]) {
            assert(rest.drop_first() =~= v@.subrange(i + 1, v.len() as int));
            i = i + 1;
        } else {
            let mut j: usize = i;
            while j < v.len() && !is_whitespace(v[j])
                invariant
                    i <= j <= v.len(),
                    forall|k: int| i <= k < j ==> !is_ws(v@[k]),
                decreases v.len() - j,
            {
                j = j + 1;
            }
            proof {
                lemma_token_len(rest, (j - i) as int);
                assert(rest.subrange(0, (j - i) as int) =~= v@.subrange(i as int, j as int));
                assert(rest.subrange((j - i) as int, rest.len() as int) =~= v@.subrange(j as int, v.len() as int));
            }
            let t = slice_chars(v, i, j);
            let ghost before = r@;
            r.push(t);
            assert(r@.map_values(|t: Vec<char>| t@) =~= before.map_values(|t: Vec<char>| t@).push(t@));
            i = j;
        }
    }
    assert(ws_tokens(v@.subrange(i as int, v.len() as int)) =~= Seq::<Seq<char>>::empty());
    assert(ws_tokens(v@) =~= r@.map_values(|t: Vec<char>| t@));
    r
}

/// What precedes the first `c` in `s` (all of `s` when there is none).
pub open spec fn before_char(s: Seq<char>, c: char) -> Seq<char> {
    if exists|i: int| is_first(s, c, i) {
        s.subrange(0, choose|i: int| is_first(s, c, i))
    } else {
        s
    }
}

fn before_char_exec(v: &[char], c: char) -> (r: Vec<char>)
    ensures
        r@ == before_char(v@, c),
{
    match find_char(v, c) {
        Some(i) => {
            proof {
                let j = choose|j: int| is_first(v@, c, j);
                lemma_first_unique(v@, c, i as int, j);
            }
            slice_chars(v, 0, i)
        },
        None => {
            assert(!exists|i: int| is_first(v@, c, i));
            assert(v@.subrange(0, v@.len() as int) =~= v@);
            slice_chars(v, 0, v.len())
        },
    }
}

/// The first position of the word `inet` among `toks`.
pub open spec fn is_first_inet(toks: Seq<Seq<char>>, i: int) -> bool {
    0 <= i < toks.len() && toks[i] == "inet"@ && forall|k: int| 0 <= k < i ==> toks[k] != "inet"@
}

/// The address an `ip addr` line carries: the word after its first `inet`, up to a `/`.
pub open spec fn ip_line_addr(toks: Seq<Seq<char>>) -> Option<u32> {
    if exists|i: int| is_first_inet(toks, i) {
        let i = choose|i: int| is_first_inet(toks, i);
        if i + 1 < toks.len() {
            spec_ipv4_of(before_char(toks[i + 1], '/'))
        } else {
            None
        }
    } else {
        None
    }
}

/// Whether a line is indented (starts with a space or a tab).
pub open spec fn indented(line: Seq<char>) -> bool {
    line.len() > 0 && (line[0] == ' ' || line[0] == '\t')
}

/// One line of `ip addr show` output: the interface an unindented line names (its second
/// word) becomes the owner of what follows; an address on the line is collected unless its
/// owner is `skip`.
pub open spec fn ip_line_step(line: Seq<char>, skip: Seq<char>, current: Option<Seq<char>>) -> (Option<Seq<char>>, Option<u32>) {
    let toks = ws_tokens(line);
    let field = if toks.len() > 1 { Some(spec_interface_field_name(toks[1])) } else { None };
    let owner = if indented(line) { current } else { field };
    let addr = match ip_line_addr(toks) {
        Some(a) => if owner != Some(skip) { Some(a) } else { None },
        None => None,
    };
    (owner, addr)
}

/// The addresses collected from `lines`, with the interface the last header named.
pub open spec fn ip_fold(lines: Seq<Seq<char>>, skip: Seq<char>) -> (Option<Seq<char>>, Seq<u32>)
    decreases lines.len(),
{
    if lines.len() == 0 {
        (None, Seq::empty())
    } else {
        let (c, out) = ip_fold(lines.drop_last(), skip);
        let (c2, a) = ip_line_step(lines.last(), skip, c);
        (c2, match a {
            Some(x) => out.push(x),
            None => out,
        })
    }
}

fn ip_line_addr_exec(toks: &Vec<Vec<char>>) -> (r: Option<u32>)
    ensures
        r == ip_line_addr(toks@.map_values(|t: Vec<char>| t@)),
{
    let ghost ts = toks@.map_values(|t: Vec<char>| t@);
    let inet = chars_of("inet");
    let mut i: usize = 0;
    while i < toks.len()
        invariant
            i <= toks.len(),
            inet@ == "inet"@,
            ts == toks@.map_values(|t: Vec<char>| t@),
            forall|k: int| 0 <= k < i ==> ts[k] != "inet"@,
        decreases toks.len() - i,
    {
        let t = string_of(toks[i].as_slice());
        if str_eq(t.as_str(), "inet") {
            assert(is_first_inet(ts, i as int));
            proof {
                let j = choose|j: int| is_first_inet(ts, j);
                if j < i {
                    assert(ts[j] != "inet"@);
                }
                if i < j {
                    assert(ts[i as int] != "inet"@);
                }
            }
            if i + 1 < toks.len() {
                let head = before_char_exec(toks[i + 1].as_slice(), '/');
                return read_ipv4(head.as_slice());
            }
            return None;
        }
        i = i + 1;
    }
    assert(!exists|j: int| is_first_inet(ts, j));
    None
}

fn vec_eq(a: &Vec<char>, b: &Vec<char>) -> (r: bool)
    ensures
        r == (a@ == b@),
{
    let x = string_of(a.as_slice());
    let y = string_of(b.as_slice());
    x == y
}

/// IPv4 addresses held by interfaces other than `skip`, from `ip -o -4 addr show` output (one
/// line per address) or plain `ip addr show` output (a header naming the interface, indented
/// address lines under it).
pub fn parse_ip_addr_addresses(text: &str, skip: &str) -> (r: Vec<u32>)
    ensures
        r@ == ip_fold(spec_lines(text@), skip@).1,
{
    let lines = text_lines(text);
    let ghost ls = lines@.map_values(|l: Vec<char>| l@);
    let skip_v = chars_of(skip);
    let mut out: Vec<u32> = Vec::new();
    let mut current: Option<Vec<char>> = None;
    let mut i: usize = 0;
    while i < lines.len()
        invariant
            i <= lines.len(),
            ls == lines@.map_values(|l: Vec<char>| l@),
            skip_v@ == skip@,
            ip_fold(ls.subrange(0, i as int), skip@) == (match current {
                Some(c) => Some(c@),
                None => None,
            }, out@),
        decreases lines.len() - i,
    {
        let line = &lines[i];
        let toks = tokens_of(line.as_slice());
        let ghost ts = toks@.map_values(|t: Vec<char>| t@);
        let ind = line.len() > 0 && (line[0] == ' ' || line[0] == '\t');
        if !ind {
            current = if toks.len() > 1 {
                let f = interface_field_name(Some(string_of(toks[1].as_slice()).as_str()));
                match f {
                    Some(n) => Some(chars_of(n.as_str())),
                    None => None,
                }
            } else {
                None
            };
        }
        let addr = ip_line_addr_exec(&toks);
        let keep = match &current {
            Some(c) => !vec_eq(c, &skip_v),
            None => true,
        };
        match addr {
            Some(a) => if keep {
                out.push(a);
            },
            None => {},
        }
        proof {
            assert(ls.subrange(0, i + 1).drop_last() =~= ls.subrange(0, i as int));
            assert(ls.subrange(0, i + 1).last() == line@);
            if toks.len() > 1 {
                assert(ts[1] == toks@[1]@);
            }
        }
        i = i + 1;
    }
    assert(ls.subrange(0, lines.len() as int) =~= ls);
    out
}

/// One line of `ifconfig -a` output: an unindented line names the interface (what precedes
/// its first `:`, trimmed); an indented `inet <addr> ...` line carries one of its addresses,
/// collected unless the interface is `skip`.
pub open spec fn ifconfig_line_step(line: Seq<char>, skip: Seq<char>, current: Seq<char>) -> (Seq<char>, Option<u32>) {
    if indented(line) {
        let t = trim_start(line);
        if has_prefix(t, "inet "@) {
            let toks = ws_tokens(t.subrange(5, t.len() as int));
            if toks.len() > 0 {
                match spec_ipv4_of(toks[0]) {
                    Some(a) => (current, if current != skip { Some(a) } else { None }),
                    None => (current, None),
                }
            } else {
                (current, None)
            }
        } else {
            (current, None)
        }
    } else {
        (spec_trim(before_char(line, ':')), None)
    }
}

/// The addresses collected from `lines`, with the interface the last header named.
pub open spec fn ifconfig_fold(lines: Seq<Seq<char>>, skip: Seq<char>) -> (Seq<char>, Seq<u32>)
    decreases lines.len(),
{
    if lines.len() == 0 {
        (Seq::empty(), Seq::empty())
    } else {
        let (c, out) = ifconfig_fold(lines.drop_last(), skip);
        let (c2, a) = ifconfig_line_step(lines.last(), skip, c);
        (c2, match a {
            Some(x) => out.push(x),
            None => out,
        })
    }
}

fn trim_start_chars(v: &[char]) -> (r: Vec<char>)
    ensures
        r@ == trim_start(v@),
{
    let mut i: usize = 0;
    while i < v.len() && is_whitespace(v[i])
        invariant
            i <= v.len(),
            forall|k: int| 0 <= k < i ==> is_ws(#[trigger] v@[k]),
        decreases v.len() - i,
    {
        i = i + 1;
    }
    proof {
        crate::text::lemma_lead_ws_is(v@, i as int);
    }
    slice_chars(v, i, v.len())
}

/// IPv4 addresses held by interfaces other than `skip`, from `ifconfig -a` output.
pub fn parse_ifconfig_addresses(text: &str, skip: &str) -> (r: Vec<u32>)
    ensures
        r@ == ifconfig_fold(spec_lines(text@), skip@).1,
{
    let lines = text_lines(text);
    let ghost ls = lines@.map_values(|l: Vec<char>| l@);
    let skip_v = chars_of(skip);
    let prefix = chars_of("inet ");
    let mut out: Vec<u32> = Vec::new();
    let mut current: Vec<char> = Vec::new();
    let mut i: usize = 0;
    while i < lines.len()
        invariant
            i <= lines.len(),
            ls == lines@.map_values(|l: Vec<char>| l@),
            skip_v@ == skip@,
            prefix@ == "inet "@,
            ifconfig_fold(ls.subrange(0, i as int), skip@) == (current@, out@),
        decreases lines.len() - i,
    {
        let line = &lines[i];
        proof {
            assert(ls.subrange(0, i + 1).drop_last() =~= ls.subrange(0, i as int));
            assert(ls.subrange(0, i + 1).last() == line@);
        }
        let ind = line.len() > 0 && (line[0] == ' ' || line[0] == '\t');
        if ind {
            let t = trim_start_chars(line.as_slice());
            if crate::text::starts_with(t.as_slice(), prefix.as_slice()) {
                proof {
                    reveal_strlit("inet ");
                }
                let rest = slice_chars(t.as_slice(), 5, t.len());
                let toks = tokens_of(rest.as_slice());
                if toks.len() > 0 {
                    proof {
                        assert(toks@.map_values(|x: Vec<char>| x@)[0] == toks@[0]@);
                    }
                    match read_ipv4(toks[0].as_slice()) {
                        Some(a) => {
                            if !vec_eq(&current, &skip_v) {
                                out.push(a);
                            }
                        },
                        None => {},
                    }
                }
            }
        } else {
            let name = before_char_exec(line.as_slice(), ':');
            current = trim_chars(name.as_slice());
        }
        i = i + 1;
    }
    assert(ls.subrange(0, lines.len() as int) =~= ls);
    out
}

/// The index of the adapter named `friendly`: the first adapter with that friendly name.
pub fn adapter_index_by_friendly_name(adapters: &[AdapterInfo], friendly: &str) -> (r: Result<u32, String>)
    ensures
        match r {
            Ok(ix) => exists|i: int| 0 <= i < adapters.len() && adapters@[i].name@ == friendly@ && adapters@[i].index == ix
                && forall|k: int| 0 <= k < i ==> adapters@[k].name@ != friendly@,
            Err(m) => (forall|k: int| 0 <= k < adapters.len() ==> adapters@[k].name@ != friendly@)
                && m@ == "no adapter with friendly name "@ + crate::runner::quoted(friendly@) + " was found"@,
        },
{
    let mut i: usize = 0;
    while i < adapters.len()
        invariant
            i <= adapters.len(),
            forall|k: int| 0 <= k < i ==> adapters@[k].name@ != friendly@,
        decreases adapters.len() - i,
    {
        if str_eq(adapters[i].name.as_str(), friendly) {
            return Ok(adapters[i].index);
        }
        i = i + 1;
    }
    let mut m: Vec<char> = Vec::new();
    crate::text::append_str(&mut m, "no adapter with friendly name ");
    crate::runner::push_quoted(&mut m, friendly);
    crate::text::append_str(&mut m, " was found");
    Err(string_of(m.as_slice()))
}

/// The words of a command line.
pub open spec fn words(v: Seq<String>) -> Seq<Seq<char>> {
    v.map_values(|s: String| s@)
}

fn command_of(parts: &[&str]) -> (r: Vec<String>)
    ensures
        r@.len() == parts@.len(),
        forall|i: int| 0 <= i < parts@.len() ==> r@[i]@ == parts@[i]@,
{
    let mut r: Vec<String> = Vec::new();
    let mut i: usize = 0;
    while i < parts.len()
        invariant
            i <= parts.len(),
            r@.len() == i,
            forall|k: int| 0 <= k < i ==> r@[k]@ == parts@[k]@,
        decreases parts.len() - i,
    {
        r.push(String::from_str(parts[i]));
        i = i + 1;
    }
    r
}

/// The command that makes sure the route for the TUN block `network` (in CIDR form, such as
/// `198.18.0.0/24`) goes to `interface`: `ip route replace` on Linux; on macOS `route add` with
/// the network part and the /24 netmask. Windows needs none: setting the address added it.
pub open spec fn spec_add_route(p: Platform, interface: Seq<char>, network: Seq<char>) -> Option<Seq<Seq<char>>> {
    match p {
        Platform::Linux => Some(seq!["ip"@, "route"@, "replace"@, network, "dev"@, interface]),
        Platform::MacOs => Some(seq!["route"@, "-n"@, "add"@, "-net"@, before_char(network, '/'), "-netmask"@, "255.255.255.0"@, "-interface"@, interface]),
        _ => None,
    }
}

/// The command that removes the TUN route again (best effort).
pub open spec fn spec_remove_route(p: Platform, interface: Seq<char>, network: Seq<char>) -> Option<Seq<Seq<char>>> {
    match p {
        Platform::Linux => Some(seq!["ip"@, "route"@, "del"@, network, "dev"@, interface]),
        Platform::MacOs => Some(seq!["route"@, "-n"@, "delete"@, "-net"@, before_char(network, '/'), "-netmask"@, "255.255.255.0"@, "-interface"@, interface]),
        _ => None,
    }
}

/// The command line for the route to the TUN block, if the platform needs one.
pub fn add_routes(p: Platform, interface: &str, network: &str) -> (r: Option<Vec<String>>)
    ensures
        match r {
            Some(v) => spec_add_route(p, interface@, network@) == Some(words(v@)),
            None => spec_add_route(p, interface@, network@) is None,
        },
{
    route_command(p, interface, network, true)
}

/// The command line that removes the route to the TUN block, if the platform has one.
pub fn remove_routes(p: Platform, interface: &str, network: &str) -> (r: Option<Vec<String>>)
    ensures
        match r {
            Some(v) => spec_remove_route(p, interface@, network@) == Some(words(v@)),
            None => spec_remove_route(p, interface@, network@) is None,
        },
{
    route_command(p, interface, network, false)
}

fn route_command(p: Platform, interface: &str, network: &str, add: bool) -> (r: Option<Vec<String>>)
    ensures
        match r {
            Some(v) => (if add { spec_add_route(p, interface@, network@) } else { spec_remove_route(p, interface@, network@) }) == Some(words(v@)),
            None => (if add { spec_add_route(p, interface@, network@) } else { spec_remove_route(p, interface@, network@) }) is None,
        },
{
    match p {
        Platform::Linux => {
            let verb = if add { "replace" } else { "del" };
            let v = command_of(&["ip", "route", verb, network, "dev", interface]);
            assert(words(v@) =~= (if add { spec_add_route(p, interface@, network@) } else { spec_remove_route(p, interface@, network@) })->0);
            Some(v)
        },
        Platform::MacOs => {
            let nv = chars_of(network);
            let net = before_char_exec(nv.as_slice(), '/');
            let net_s = string_of(net.as_slice());
            let verb = if add { "add" } else { "delete" };
            let v = command_of(&["route", "-n", verb, "-net", net_s.as_str(), "-netmask", "255.255.255.0", "-interface", interface]);
            assert(words(v@) =~= (if add { spec_add_route(p, interface@, network@) } else { spec_remove_route(p, interface@, network@) })->0);
            Some(v)
        },
        _ => None,
    }
}

/// What a failed command is reported as: what it was, then its trimmed standard error.
pub fn command_failure(what: &str, stderr: &str) -> (r: String)
    ensures
        r@ == what@ + " failed: "@ + spec_trim(stderr@),
{
    let mut m: Vec<char> = chars_of(what);
    crate::text::append_str(&mut m, " failed: ");
    let t = crate::text::trim(stderr);
    crate::text::append_str(&mut m, t.as_str());
    string_of(m.as_slice())
}

/// The outcome of adding the route: success, or on macOS an existing route (`File exists`).
pub fn route_added(p: Platform, out: &crate::elevate::CommandOutput) -> (r: Result<(), String>)
    ensures
        r is Ok <==> (out.success || (p == Platform::MacOs && crate::text::contains(out.stderr@, "File exists"@))),
        r matches Err(m) ==> m@ == (if p == Platform::MacOs { "route add"@ } else { "ip route replace"@ }) + " failed: "@ + spec_trim(out.stderr@),
{
    if out.success || (p == Platform::MacOs && crate::text::str_contains(out.stderr.as_str(), "File exists")) {
        Ok(())
    } else if p == Platform::MacOs {
        Err(command_failure("route add", out.stderr.as_str()))
    } else {
        Err(command_failure("ip route replace", out.stderr.as_str()))
    }
}

/// The commands that give `interface` the address `ip` in its /24 and bring it up: `ip addr
/// replace` and `ip link set up` on Linux, `ifconfig inet` and `ifconfig up` on macOS.
pub open spec fn spec_assign_commands(p: Platform, interface: Seq<char>, ip: u32) -> Seq<Seq<Seq<char>>> {
    match p {
        Platform::Linux => seq![
            seq!["ip"@, "addr"@, "replace"@, ipv4_text(ip) + "/24"@, "dev"@, interface],
            seq!["ip"@, "link"@, "set"@, "dev"@, interface, "up"@],
        ],
        Platform::MacOs => seq![
            seq!["ifconfig"@, interface, "inet"@, ipv4_text(ip), "255.255.255.0"@],
            seq!["ifconfig"@, interface, "up"@],
        ],
        _ => Seq::empty(),
    }
}

/// The commands that assign a block's address on Unix.
pub fn assign_commands(p: Platform, interface: &str, ip: u32) -> (r: Vec<Vec<String>>)
    ensures
        r@.map_values(|c: Vec<String>| words(c@)) == spec_assign_commands(p, interface@, ip),
{
    let addr = crate::ipv4::format_ipv4(ip);
    let mut r: Vec<Vec<String>> = Vec::new();
    match p {
        Platform::Linux => {
            let mut cidr = chars_of(addr.as_str());
            crate::text::append_str(&mut cidr, "/24");
            let c = string_of(cidr.as_slice());
            let a = command_of(&["ip", "addr", "replace", c.as_str(), "dev", interface]);
            let b = command_of(&["ip", "link", "set", "dev", interface, "up"]);
            assert(words(a@) =~= spec_assign_commands(p, interface@, ip)[0]);
            assert(words(b@) =~= spec_assign_commands(p, interface@, ip)[1]);
            r.push(a);
            r.push(b);
        },
        Platform::MacOs => {
            let a = command_of(&["ifconfig", interface, "inet", addr.as_str(), "255.255.255.0"]);
            let b = command_of(&["ifconfig", interface, "up"]);
            assert(words(a@) =~= spec_assign_commands(p, interface@, ip)[0]);
            assert(words(b@) =~= spec_assign_commands(p, interface@, ip)[1]);
            r.push(a);
            r.push(b);
        },
        _ => {},
    }
    assert(r@.map_values(|c: Vec<String>| words(c@)) =~= spec_assign_commands(p, interface@, ip));
    r
}

/// The command that takes the address off again (best effort).
pub open spec fn spec_unassign_command(p: Platform, interface: Seq<char>, ip: u32) -> Option<Seq<Seq<char>>> {
    match p {
        Platform::Linux => Some(seq!["ip"@, "addr"@, "del"@, ipv4_text(ip) + "/24"@, "dev"@, interface]),
        Platform::MacOs => Some(seq!["ifconfig"@, interface, "inet"@, ipv4_text(ip), "remove"@]),
        _ => None,
    }
}

/// The command that removes a block's address on Unix.
pub fn unassign_command(p: Platform, interface: &str, ip: u32) -> (r: Option<Vec<String>>)
    ensures
        match r {
            Some(v) => spec_unassign_command(p, interface@, ip) == Some(words(v@)),
            None => spec_unassign_command(p, interface@, ip) is None,
        },
{
    let addr = crate::ipv4::format_ipv4(ip);
    match p {
        Platform::Linux => {
            let mut cidr = chars_of(addr.as_str());
            crate::text::append_str(&mut cidr, "/24");
            let c = string_of(cidr.as_slice());
            let v = command_of(&["ip", "addr", "del", c.as_str(), "dev", interface]);
            assert(words(v@) =~= spec_unassign_command(p, interface@, ip)->0);
            Some(v)
        },
        Platform::MacOs => {
            let v = command_of(&["ifconfig", interface, "inet", addr.as_str(), "remove"]);
            assert(words(v@) =~= spec_unassign_command(p, interface@, ip)->0);
            Some(v)
        },
        _ => None,
    }
}

/// The `netsh` fallback that sets the Windows address `ip/24` on `interface`.
pub fn netsh_set_address(interface: &str, ip: u32) -> (r: Vec<String>)
    ensures
        words(r@) == seq!["interface"@, "ip"@, "set"@, "address"@, "name="@ + interface@, "static"@, ipv4_text(ip), "255.255.255.0"@],
{
    let addr = crate::ipv4::format_ipv4(ip);
    let mut name = chars_of("name=");
    crate::text::append_str(&mut name, interface);
    let n = string_of(name.as_slice());
    let v = command_of(&["interface", "ip", "set", "address", n.as_str(), "static", addr.as_str(), "255.255.255.0"]);
    assert(words(v@) =~= seq!["interface"@, "ip"@, "set"@, "address"@, "name="@ + interface@, "static"@, ipv4_text(ip), "255.255.255.0"@]);
    v
}


proof fn lemma_first_untaken_none(p: Platform, foreign: Seq<u32>, from: int)
    requires
        0 <= from,
        first_untaken(p, foreign, from) is None,
    ensures
        p == Platform::Windows ==> from >= 6,
        forall|j: int| from <= j < 6 ==> block_taken(#[trigger] spec_candidates()[j], foreign),
    decreases 6 - from,
{
    if from < 6 {
        lemma_first_untaken_none(p, foreign, from + 1);
    }
}

/// The walk gives up only when no candidate block is left to try: on Windows after the last
/// block, on Unix when every later block is taken.
pub proof fn law_configure_gives_up_only_when_exhausted(p: Platform, foreign: Seq<u32>, step: ConfigureStep, event: ConfigureEvent)
    requires
        step_in_range(step),
        spec_configure_next(p, foreign, step, event) is GiveUp,
        !(step is GiveUp),
    ensures
        p == Platform::Windows ==> step_index(step) == 5,
        forall|j: int| step_index(step) < j < 6 ==> block_taken(#[trigger] spec_candidates()[j], foreign),
{
    let i = step_index(step);
    lemma_first_untaken_range(p, foreign, i + 1);
    lemma_first_untaken_none(p, foreign, i + 1);
}

/// What each outcome at block `index` leads to: a block whose address never became bindable
/// has that address removed before the walk moves on (after 20 probes on Windows, one
/// elsewhere), as has one that even `netsh` could not assign; a Windows assignment is retried
/// three times before `netsh` is tried; a colliding Windows block is skipped without being
/// touched, while one that does not collide is assigned; an address that became bindable is
/// kept.
pub proof fn law_configure_outcomes(p: Platform, foreign: Seq<u32>, index: usize, attempt: u32)
    requires
        index < 6,
        1 <= attempt,
    ensures
        attempt <= 20 ==> spec_configure_next(p, foreign, ConfigureStep::Probe { index, attempt }, ConfigureEvent::Bindable(false)) == (
            if p == Platform::Windows && attempt < 20 {
                ConfigureStep::Probe { index, attempt: (attempt + 1) as u32 }
            } else {
                ConfigureStep::Remove { index }
            }),
        spec_configure_next(p, foreign, ConfigureStep::Probe { index, attempt }, ConfigureEvent::Bindable(true)) == (ConfigureStep::Done { index }),
        spec_configure_next(p, foreign, ConfigureStep::AssignWithNetsh { index }, ConfigureEvent::Assigned(false)) == (ConfigureStep::Remove { index }),
        attempt <= 3 ==> spec_configure_next(Platform::Windows, foreign, ConfigureStep::Assign { index, attempt }, ConfigureEvent::Assigned(false)) == (
            if attempt < 3 {
                ConfigureStep::Assign { index, attempt: (attempt + 1) as u32 }
            } else {
                ConfigureStep::AssignWithNetsh { index }
            }),
        spec_configure_next(p, foreign, ConfigureStep::Assign { index, attempt }, ConfigureEvent::Assigned(true)) == (ConfigureStep::Probe { index, attempt: 1 }),
        step_index(spec_configure_next(p, foreign, ConfigureStep::CheckCollision { index }, ConfigureEvent::Collision(Some(true)))) > index,
        spec_configure_next(p, foreign, ConfigureStep::CheckCollision { index }, ConfigureEvent::Collision(None)) == (ConfigureStep::Assign { index, attempt: 1 }),
        spec_configure_next(p, foreign, ConfigureStep::CheckCollision { index }, ConfigureEvent::Collision(Some(false))) == (ConfigureStep::Assign { index, attempt: 1 }),
{
    lemma_first_untaken_range(p, foreign, index + 1);
}

} // verus!
