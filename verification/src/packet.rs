//! IPv4 and TCP packet encoding: header fields read big-endian, TCP segments built without
//! options, and the Internet checksum (RFC 1071) over them.
use vstd::prelude::*;

verus! {

/// IP protocol number of TCP.
pub const IPPROTO_TCP: u8 = 6;

/// TCP flag bits.
pub const TCP_FIN: u8 = 0x01;
pub const TCP_SYN: u8 = 0x02;
pub const TCP_RST: u8 = 0x04;
pub const TCP_PSH: u8 = 0x08;
pub const TCP_ACK: u8 = 0x10;

/// `x` as two bytes, most significant first.
pub open spec fn be16(x: u16) -> Seq<u8> {
    seq![(x / 256) as u8, (x % 256) as u8]
}

/// `x` as four bytes, most significant first.
pub open spec fn be32(x: u32) -> Seq<u8> {
    seq![(x / 16777216) as u8, ((x / 65536) % 256) as u8, ((x / 256) % 256) as u8, (x % 256) as u8]
}

/// The big-endian 16-bit value at `i`.
pub open spec fn read16(d: Seq<u8>, i: int) -> u16 {
    (d[i] as nat * 256 + d[i + 1] as nat) as u16
}

/// The big-endian 32-bit value at `i`.
pub open spec fn read32(d: Seq<u8>, i: int) -> u32 {
    (d[i] as nat * 16777216 + d[i + 1] as nat * 65536 + d[i + 2] as nat * 256 + d[i
        + 3] as nat) as u32
}

/// Reading back what `be16` wrote.
pub proof fn lemma_be16(x: u16)
    ensures
        read16(be16(x), 0) == x,
{
}

/// Reading back what `be32` wrote.
pub proof fn lemma_be32(x: u32)
    ensures
        read32(be32(x), 0) == x,
{
    let a = x / 16777216;
    let b = (x / 65536) % 256;
    let c = (x / 256) % 256;
    let d = x % 256;
    assert(a * 16777216 + b * 65536 + c * 256 + d == x) by (nonlinear_arith)
        requires
            a == x / 16777216,
            b == (x / 65536) % 256,
            c == (x / 256) % 256,
            d == x % 256,
    ;
}

pub(crate) fn push_be16(out: &mut Vec<u8>, x: u16)
    ensures
        final(out)@ == old(out)@ + be16(x),
{
    out.push((x / 256) as u8);
    out.push((x % 256) as u8);
    assert(out@ =~= old(out)@ + be16(x));
}

pub(crate) fn push_be32(out: &mut Vec<u8>, x: u32)
    ensures
        final(out)@ == old(out)@ + be32(x),
{
    out.push((x / 16777216) as u8);
    out.push(((x / 65536) % 256) as u8);
    out.push(((x / 256) % 256) as u8);
    out.push((x % 256) as u8);
    assert(out@ =~= old(out)@ + be32(x));
}

pub(crate) fn push_all(out: &mut Vec<u8>, t: &[u8])
    ensures
        final(out)@ == old(out)@ + t@,
{
    let mut i: usize = 0;
    while i < t.len()
        invariant
            i <= t.len(),
            out@ == old(out)@ + t@.subrange(0, i as int),
        decreases t.len() - i,
    {
        out.push(t[i]);
        i = i + 1;
        assert(out@ =~= old(out)@ + t@.subrange(0, i as int));
    }
    assert(t@.subrange(0, t.len() as int) =~= t@);
}

fn copy_range(d: &[u8], from: usize, to: usize) -> (r: Vec<u8>)
    requires
        from <= to <= d.len(),
    ensures
        r@ == d@.subrange(from as int, to as int),
{
    let mut r: Vec<u8> = Vec::new();
    let mut i = from;
    while i < to
        invariant
            from <= i <= to <= d.len(),
            r@ == d@.subrange(from as int, i as int),
        decreases to - i,
    {
        r.push(d[i]);
        i = i + 1;
        assert(r@ =~= d@.subrange(from as int, i as int));
    }
    r
}

/// An IPv4 packet: its addresses, protocol and payload.
#[derive(Debug, Clone)]
pub struct Ipv4Packet {
    pub src_addr: u32,
    pub dst_addr: u32,
    pub protocol: u8,
    pub payload: Vec<u8>,
}

/// Header length in bytes of the IPv4 packet starting `d`.
pub open spec fn ihl(d: Seq<u8>) -> nat {
    (d[0] % 16) as nat * 4
}

/// Whether `d` starts with a well-formed IPv4 header that `Ipv4Packet::parse` accepts.
pub open spec fn ipv4_header_ok(d: Seq<u8>) -> bool {
    d.len() >= 20 && d[0] / 16 == 4 && ihl(d) >= 20 && d.len() >= ihl(d)
}

/// Where the payload of an accepted IPv4 packet ends: the total length, capped by the data.
pub open spec fn ipv4_payload_end(d: Seq<u8>) -> nat {
    let t = read16(d, 2) as nat;
    if t < d.len() {
        t
    } else {
        d.len()
    }
}

impl Ipv4Packet {
    /// Reads an IPv4 packet. `None` for anything shorter than a header, any version but 4,
    /// or a header length under 20 bytes or beyond the data.
    pub fn parse(data: &[u8]) -> (r: Option<Self>)
        requires
            ipv4_header_ok(data@) ==> ipv4_payload_end(data@) >= ihl(data@),
        ensures
            r is Some <==> ipv4_header_ok(data@),
            r matches Some(p) ==> {
                &&& p.src_addr == read32(data@, 12)
                &&& p.dst_addr == read32(data@, 16)
                &&& p.protocol == data@[9]
                &&& p.payload@ == data@.subrange(ihl(data@) as int, ipv4_payload_end(data@) as int)
            },
    {
        if data.len() < 20 {
            return None;
        }
        let version_ihl = data[0];
        let version = version_ihl / 16;
        let ihl_bytes = ((version_ihl % 16) as usize) * 4;
        if version != 4 || ihl_bytes < 20 || data.len() < ihl_bytes {
            return None;
        }
        let total_len = (data[2] as u16) * 256 + (data[3] as u16);
        let protocol = data[9];
        let src_addr = (data[12] as u32) * 16777216 + (data[13] as u32) * 65536 + (data[14] as u32)
            * 256 + (data[15] as u32);
        let dst_addr = (data[16] as u32) * 16777216 + (data[17] as u32) * 65536 + (data[18] as u32)
            * 256 + (data[19] as u32);
        let end = if (total_len as usize) < data.len() {
            total_len as usize
        } else {
            data.len()
        };
        let payload = copy_range(data, ihl_bytes, end);
        Some(Ipv4Packet { src_addr, dst_addr, protocol, payload })
    }
}

/// A TCP segment without options.
#[derive(Debug, Clone)]
pub struct TcpPacket {
    pub src_port: u16,
    pub dst_port: u16,
    pub seq_num: u32,
    pub ack_num: u32,
    pub flags: u8,
    pub window: u16,
    pub payload: Vec<u8>,
}

/// Data offset in bytes of the TCP segment starting `d`.
pub open spec fn tcp_offset(d: Seq<u8>) -> nat {
    (d[12] / 16) as nat * 4
}

/// Whether `TcpPacket::parse` accepts `d`.
pub open spec fn tcp_ok(d: Seq<u8>) -> bool {
    d.len() >= 20 && tcp_offset(d) >= 20 && d.len() >= tcp_offset(d)
}

/// The bytes `TcpPacket::build` writes: a 20-byte header with a zero checksum and urgent
/// pointer, then the payload.
pub open spec fn tcp_bytes(src_port: u16, dst_port: u16, seq_num: u32, ack_num: u32, flags: u8, window: u16, payload: Seq<u8>) -> Seq<u8> {
    be16(src_port) + be16(dst_port) + be32(seq_num) + be32(ack_num) + seq![0x50u8, flags] + be16(
        window,
    ) + seq![0u8, 0u8, 0u8, 0u8] + payload
}

impl TcpPacket {
    /// The segment as plain values.
    pub open spec fn spec_bytes(&self) -> Seq<u8> {
        tcp_bytes(
            self.src_port,
            self.dst_port,
            self.seq_num,
            self.ack_num,
            self.flags,
            self.window,
            self.payload@,
        )
    }

    /// Reads a TCP segment. `None` for fewer than 20 bytes, or a data offset under 20 bytes or
    /// beyond the data; the payload is everything after the data offset.
    pub fn parse(data: &[u8]) -> (r: Option<Self>)
        ensures
            r is Some <==> tcp_ok(data@),
            r matches Some(p) ==> {
                &&& p.src_port == read16(data@, 0)
                &&& p.dst_port == read16(data@, 2)
                &&& p.seq_num == read32(data@, 4)
                &&& p.ack_num == read32(data@, 8)
                &&& p.flags == data@[13]
                &&& p.window == read16(data@, 14)
                &&& p.payload@ == data@.subrange(tcp_offset(data@) as int, data@.len() as int)
            },
    {
        if data.len() < 20 {
            return None;
        }
        let src_port = (data[0] as u16) * 256 + (data[1] as u16);
        let dst_port = (data[2] as u16) * 256 + (data[3] as u16);
        let seq_num = (data[4] as u32) * 16777216 + (data[5] as u32) * 65536 + (data[6] as u32)
            * 256 + (data[7] as u32);
        let ack_num = (data[8] as u32) * 16777216 + (data[9] as u32) * 65536 + (data[10] as u32)
            * 256 + (data[11] as u32);
        let data_offset = ((data[12] / 16) as usize) * 4;
        let flags = data[13];
        let window = (data[14] as u16) * 256 + (data[15] as u16);
        if data_offset < 20 || data.len() < data_offset {
            return None;
        }
        let payload = if data_offset < data.len() {
            copy_range(data, data_offset, data.len())
        } else {
            Vec::new()
        };
        assert(data_offset >= data.len() ==> payload@ =~= data@.subrange(
            data_offset as int,
            data@.len() as int,
        ));
        Some(TcpPacket { src_port, dst_port, seq_num, ack_num, flags, window, payload })
    }

    /// Writes the segment: a 20-byte header (data offset 5 words, zero checksum, zero urgent
    /// pointer) followed by the payload.
    pub fn build(&self) -> (r: Vec<u8>)
        ensures
            r@ == self.spec_bytes(),
    {
        let mut packet: Vec<u8> = Vec::new();
        push_be16(&mut packet, self.src_port);
        push_be16(&mut packet, self.dst_port);
        push_be32(&mut packet, self.seq_num);
        push_be32(&mut packet, self.ack_num);
        packet.push(0x50u8);
        packet.push(self.flags);
        push_be16(&mut packet, self.window);
        packet.push(0u8);
        packet.push(0u8);
        packet.push(0u8);
        packet.push(0u8);
        push_all(&mut packet, self.payload.as_slice());
        assert(packet@ =~= self.spec_bytes());
        packet
    }
}

/// Reading a built segment gives the segment back: `parse(build(p))` is `p`, field for field.
pub proof fn law_tcp_build_parse(p: TcpPacket)
    ensures
        tcp_ok(p.spec_bytes()),
        read16(p.spec_bytes(), 0) == p.src_port,
        read16(p.spec_bytes(), 2) == p.dst_port,
        read32(p.spec_bytes(), 4) == p.seq_num,
        read32(p.spec_bytes(), 8) == p.ack_num,
        p.spec_bytes()[13] == p.flags,
        read16(p.spec_bytes(), 14) == p.window,
        p.spec_bytes().subrange(tcp_offset(p.spec_bytes()) as int, p.spec_bytes().len() as int)
            == p.payload@,
{
    let b = p.spec_bytes();
    lemma_be16(p.src_port);
    lemma_be16(p.dst_port);
    lemma_be16(p.window);
    lemma_be32(p.seq_num);
    lemma_be32(p.ack_num);
    assert(b.subrange(0, 2) =~= be16(p.src_port));
    assert(b.subrange(2, 4) =~= be16(p.dst_port));
    assert(b.subrange(4, 8) =~= be32(p.seq_num));
    assert(b.subrange(8, 12) =~= be32(p.ack_num));
    assert(b.subrange(14, 16) =~= be16(p.window));
    assert(b[12] == 0x50u8);
    assert(b.subrange(20, b.len() as int) =~= p.payload@);
}

/// The sum of the big-endian 16-bit words of `d`, a trailing odd byte counting as the high
/// half of a word.
pub open spec fn word_sum(d: Seq<u8>) -> nat
    decreases d.len(),
{
    if d.len() == 0 {
        0
    } else if d.len() == 1 {
        d[0] as nat * 256
    } else {
        d[0] as nat * 256 + d[1] as nat + word_sum(d.subrange(2, d.len() as int))
    }
}

/// The ones'-complement (end-around carry) reduction of `x` to 16 bits: 0 only for 0,
/// otherwise the value in 1..=65535 congruent to `x` modulo 65535.
pub open spec fn ones_fold(x: nat) -> nat {
    if x == 0 {
        0
    } else {
        ((x - 1) as nat % 65535 + 1) as nat
    }
}

/// The Internet checksum of a word sum: the complement of its ones'-complement reduction.
pub open spec fn internet_checksum(sum: nat) -> u16 {
    (65535 - ones_fold(sum)) as u16
}

/// The TCP pseudo-header contribution for a segment of `len` bytes between `src` and `dst`.
pub open spec fn pseudo_sum(src: u32, dst: u32, len: nat) -> nat {
    (src / 65536) as nat + (src % 65536) as nat + (dst / 65536) as nat + (dst % 65536) as nat
        + IPPROTO_TCP as nat + len
}

/// Reduces a 32-bit sum with end-around carries, as RFC 1071 folds it.
fn fold_carries(sum: u32) -> (r: u16)
    ensures
        r as nat == ones_fold(sum as nat),
{
    let mut s = sum;
    while s >= 65536
        invariant
            (s == 0) == (sum == 0),
            s as nat % 65535 == sum as nat % 65535,
        decreases s,
    {
        let q = s / 65536;
        let r = s % 65536;
        assert(s == 65536 * q + r && q >= 1) by (nonlinear_arith)
            requires
                q == s / 65536,
                r == s % 65536,
                s >= 65536,
        ;
        assert((r + q) as nat % 65535 == s as nat % 65535) by (nonlinear_arith)
            requires
                s == 65536 * q + r,
        ;
        s = r + q;
    }
    if s > 0 {
        assert(ones_fold(sum as nat) == s) by (nonlinear_arith)
            requires
                s as nat % 65535 == sum as nat % 65535,
                0 < s < 65536,
                sum > 0,
        {
            let t = (sum - 1) as nat;
            assert((t % 65535) == ((s - 1) as nat % 65535)) by (nonlinear_arith)
                requires
                    s as nat % 65535 == sum as nat % 65535,
                    t == sum - 1,
                    s > 0,
            ;
        }
    }
    s as u16
}

/// The Internet checksum of `header` (used over an IPv4 header).
fn ip_checksum(header: &[u8]) -> (r: u16)
    requires
        header.len() <= 131072,
    ensures
        r == internet_checksum(word_sum(header@)),
{
    let (sum, _) = add_words(header, 0);
    let folded = fold_carries(sum);
    0xFFFFu16 - folded
}

/// Adds the words of `d` to `start`.
fn add_words(d: &[u8], start: u32) -> (r: (u32, ()))
    requires
        d.len() <= 131072,
        start as nat + 65535 * ((d.len() + 1) / 2) <= u32::MAX,
    ensures
        r.0 as nat == start as nat + word_sum(d@),
{
    let mut sum: u32 = start;
    let mut i: usize = 0;
    assert(d@.subrange(0, d@.len() as int) =~= d@);
    while i + 1 < d.len()
        invariant
            i <= d.len(),
            i % 2 == 0,
            start as nat + 65535 * ((d.len() + 1) / 2) <= u32::MAX,
            sum as nat <= start as nat + 65535 * (i / 2),
            sum as nat + word_sum(d@.subrange(i as int, d@.len() as int)) == start as nat
                + word_sum(d@),
        decreases d.len() - i,
    {
        let w = (d[i] as u32) * 256 + (d[i + 1] as u32);
        proof {
            let t = d@.subrange(i as int, d@.len() as int);
            assert(t.subrange(2, t.len() as int) =~= d@.subrange(i + 2, d@.len() as int));
            assert(65535 * (i / 2) + 65535 <= 65535 * ((d.len() + 1) / 2)) by (nonlinear_arith)
                requires
                    i + 1 < d.len(),
                    i % 2 == 0,
            ;
        }
        sum = sum + w;
        i = i + 2;
    }
    if i < d.len() {
        proof {
            let t = d@.subrange(i as int, d@.len() as int);
            assert(t.len() == 1);
            assert(65535 * (i / 2) + 65535 <= 65535 * ((d.len() + 1) / 2)) by (nonlinear_arith)
                requires
                    i + 1 == d.len(),
                    i % 2 == 0,
            ;
        }
        sum = sum + (d[i] as u32) * 256;
    } else {
        assert(d@.subrange(i as int, d@.len() as int).len() == 0);
    }
    (sum, ())
}

/// The TCP checksum of `tcp_data` with its IPv4 pseudo-header.
fn tcp_checksum(tcp_data: &[u8], src_ip: u32, dst_ip: u32) -> (r: u16)
    requires
        tcp_data.len() <= 131000,
    ensures
        r == internet_checksum(pseudo_sum(src_ip, dst_ip, tcp_data@.len()) + word_sum(tcp_data@)),
{
    let pseudo: u32 = src_ip / 65536 + src_ip % 65536 + dst_ip / 65536 + dst_ip % 65536
        + (IPPROTO_TCP as u32) + (tcp_data.len() as u32);
    assert(pseudo as nat + 65535 * ((tcp_data.len() + 1) / 2) <= u32::MAX) by (nonlinear_arith)
        requires
            pseudo <= 4 * 65535 + 6 + tcp_data.len(),
            tcp_data.len() <= 131000,
    ;
    let (sum, _) = add_words(tcp_data, pseudo);
    let folded = fold_carries(sum);
    0xFFFFu16 - folded
}

/// `d` with the 16-bit word `w` written big-endian at `at`.
pub open spec fn with_word(d: Seq<u8>, at: int, w: u16) -> Seq<u8> {
    d.update(at, (w / 256) as u8).update(at + 1, (w % 256) as u8)
}

/// The IPv4 header `TcpPacket::build_with_ip` writes, before its checksum is filled in.
pub open spec fn ip_header_zero(total: u16, id: u16, src: u32, dst: u32) -> Seq<u8> {
    seq![0x45u8, 0x00u8] + be16(total) + be16(id) + seq![0x40u8, 0x00u8, 64u8, IPPROTO_TCP, 0u8, 0u8]
        + be32(src) + be32(dst)
}

/// The complete IPv4+TCP packet `TcpPacket::build_with_ip` writes for the segment `tcp`.
pub open spec fn ip_tcp_packet(tcp: Seq<u8>, src: u32, dst: u32, id: u16) -> Seq<u8> {
    let total = ((20 + tcp.len()) % 65536) as u16;
    let hdr = ip_header_zero(total, id, src, dst);
    with_word(hdr, 10, internet_checksum(word_sum(hdr))) + with_word(
        tcp,
        16,
        internet_checksum(pseudo_sum(src, dst, tcp.len()) + word_sum(tcp)),
    )
}

impl TcpPacket {
    /// The segment inside a complete IPv4 packet (DF set, TTL 64), with both the TCP and the
    /// IPv4 header checksums filled in. The total-length field holds `20 + segment length`
    /// truncated to 16 bits.
    pub fn build_with_ip(&self, src_ip: u32, dst_ip: u32, identification: u16) -> (r: Vec<u8>)
        requires
            20 + self.payload@.len() <= 131000,
        ensures
            r@ == ip_tcp_packet(self.spec_bytes(), src_ip, dst_ip, identification),
    {
        let tcp_data = self.build();
        let tcp_len = tcp_data.len();
        let ip_total_len = 20 + tcp_len;
        let total: u16 = (ip_total_len % 65536) as u16;
        let mut ip_packet: Vec<u8> = Vec::new();
        ip_packet.push(0x45u8);
        ip_packet.push(0x00u8);
        push_be16(&mut ip_packet, total);
        push_be16(&mut ip_packet, identification);
        ip_packet.push(0x40u8);
        ip_packet.push(0x00u8);
        ip_packet.push(64u8);
        ip_packet.push(IPPROTO_TCP);
        ip_packet.push(0x00u8);
        ip_packet.push(0x00u8);
        push_be32(&mut ip_packet, src_ip);
        push_be32(&mut ip_packet, dst_ip);
        let ghost hdr = ip_packet@;
        assert(hdr =~= ip_header_zero(total, identification, src_ip, dst_ip));
        push_all(&mut ip_packet, tcp_data.as_slice());
        let tcp_part = vstd::slice::slice_subrange(ip_packet.as_slice(), 20, ip_packet.len());
        assert(tcp_part@ =~= tcp_data@);
        let tcp_sum = tcp_checksum(tcp_part, src_ip, dst_ip);
        ip_packet.set(36, (tcp_sum / 256) as u8);
        ip_packet.set(37, (tcp_sum % 256) as u8);
        let head = vstd::slice::slice_subrange(ip_packet.as_slice(), 0, 20);
        assert(head@ =~= hdr);
        let ip_sum = ip_checksum(head);
        ip_packet.set(10, (ip_sum / 256) as u8);
        ip_packet.set(11, (ip_sum % 256) as u8);
        assert(ip_packet@ =~= ip_tcp_packet(self.spec_bytes(), src_ip, dst_ip, identification));
        ip_packet
    }
}

/// Writing a word into a zeroed, word-aligned slot adds it to the word sum.
pub proof fn lemma_word_sum_with_word(d: Seq<u8>, at: int, w: u16)
    requires
        0 <= at,
        at + 1 < d.len(),
        at % 2 == 0,
        d[at] == 0,
        d[at + 1] == 0,
    ensures
        word_sum(with_word(d, at, w)) == word_sum(d) + w,
    decreases at,
{
    let e = with_word(d, at, w);
    if at == 0 {
        assert(e.subrange(2, e.len() as int) =~= d.subrange(2, d.len() as int));
    } else {
        let dt = d.subrange(2, d.len() as int);
        assert(e.subrange(2, e.len() as int) =~= with_word(dt, at - 2, w));
        lemma_word_sum_with_word(dt, at - 2, w);
    }
}

/// A sum that includes its own checksum verifies: re-checksumming gives zero.
pub proof fn lemma_checksum_verifies(s: nat)
    ensures
        internet_checksum(s + internet_checksum(s) as nat) == 0,
{
    let f = ones_fold(s);
    if s == 0 {
        assert(ones_fold(65535) == 65535);
    } else {
        let t = (s - 1) as nat;
        let m = t % 65535;
        assert(s + (65535 - (m + 1)) - 1 == 65535 * (t / 65535) + 65534) by (nonlinear_arith)
            requires
                t == s - 1,
                m == t % 65535,
        ;
        assert(((65535 * (t / 65535) + 65534) as nat) % 65535 == 65534) by (nonlinear_arith);
    }
}

/// A packet written by `build_with_ip` carries a valid IPv4 header checksum: the header's own
/// checksum, recomputed over the header as written, is zero.
pub proof fn law_ip_header_checksum_verifies(tcp: Seq<u8>, src: u32, dst: u32, id: u16)
    ensures
        internet_checksum(word_sum(ip_tcp_packet(tcp, src, dst, id).subrange(0, 20))) == 0,
{
    let total = ((20 + tcp.len()) % 65536) as u16;
    let hdr = ip_header_zero(total, id, src, dst);
    let c = internet_checksum(word_sum(hdr));
    let pkt = ip_tcp_packet(tcp, src, dst, id);
    assert(pkt.subrange(0, 20) =~= with_word(hdr, 10, c));
    lemma_word_sum_with_word(hdr, 10, c);
    lemma_checksum_verifies(word_sum(hdr));
}

/// A packet written by `build_with_ip` carries a valid TCP checksum: the checksum over the
/// pseudo-header and the segment as written is zero.
pub proof fn law_tcp_checksum_verifies(p: TcpPacket, src: u32, dst: u32, id: u16)
    ensures
        ({
            let pkt = ip_tcp_packet(p.spec_bytes(), src, dst, id);
            let seg = pkt.subrange(20, pkt.len() as int);
            internet_checksum(pseudo_sum(src, dst, seg.len()) + word_sum(seg)) == 0
        }),
{
    let tcp = p.spec_bytes();
    let c = internet_checksum(pseudo_sum(src, dst, tcp.len()) + word_sum(tcp));
    let pkt = ip_tcp_packet(tcp, src, dst, id);
    assert(pkt.subrange(20, pkt.len() as int) =~= with_word(tcp, 16, c));
    lemma_word_sum_with_word(tcp, 16, c);
    lemma_checksum_verifies(pseudo_sum(src, dst, tcp.len()) + word_sum(tcp));
}


/// How `build_with_ip` lays a segment out: a 20-byte IPv4 header (version 4, length 5 words,
/// type of service 0, total length and identification as given, Don't Fragment set with More
/// Fragments clear and offset 0 — a whole datagram —, TTL 64, protocol TCP, the two addresses)
/// followed by the segment, of which only the checksum field is rewritten.
pub proof fn law_ip_packet_layout(tcp: Seq<u8>, src: u32, dst: u32, id: u16)
    requires
        20 <= tcp.len(),
        20 + tcp.len() <= 65535,
    ensures
        ({
            let r = ip_tcp_packet(tcp, src, dst, id);
            &&& r.len() == 20 + tcp.len()
            &&& r[0] == 0x45u8
            &&& r[1] == 0x00u8
            &&& read16(r, 2) == r.len()
            &&& read16(r, 4) == id
            &&& r[6] == 0x40u8
            &&& r[7] == 0x00u8
            &&& r[8] == 64u8
            &&& r[9] == 6u8
            &&& r.subrange(12, 16) == be32(src)
            &&& r.subrange(16, 20) == be32(dst)
            &&& r.subrange(20, 36) == tcp.subrange(0, 16)
            &&& r.subrange(38, r.len() as int) == tcp.subrange(18, tcp.len() as int)
        }),
{
    let total = ((20 + tcp.len()) % 65536) as u16;
    let hdr = ip_header_zero(total, id, src, dst);
    let c1 = internet_checksum(word_sum(hdr));
    let c2 = internet_checksum(pseudo_sum(src, dst, tcp.len()) + word_sum(tcp));
    let h = with_word(hdr, 10, c1);
    let t = with_word(tcp, 16, c2);
    let r = ip_tcp_packet(tcp, src, dst, id);
    assert(r == h + t);
    assert(h.len() == 20);
    assert(total == 20 + tcp.len());
    lemma_be16(total);
    lemma_be16(id);
    assert(read16(r, 2) == read16(be16(total), 0));
    assert(read16(r, 4) == read16(be16(id), 0));
    assert(r.subrange(12, 16) =~= be32(src));
    assert(r.subrange(16, 20) =~= be32(dst));
    assert(r.subrange(20, 36) =~= tcp.subrange(0, 16));
    assert(r.subrange(38, r.len() as int) =~= tcp.subrange(18, tcp.len() as int));
}

} // verus!
