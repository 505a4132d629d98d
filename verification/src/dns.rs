//! The DNS side of the hijack: reading a query, deciding whether its domain is proxied, and
//! answering it with a virtual address (or an empty answer for other record types). Queries
//! for other domains go upstream, to the configured resolver first and then to public
//! fallbacks.
use vstd::prelude::*;
use vstd::utf8::*;
use crate::packet::{be16, be32, read16, read32, push_be16, push_be32, push_all, lemma_be16, lemma_be32};
use crate::text::{
    append_str, chars_of, string_of, str_eq, utf8_to_str, to_lowercase, spec_lowercase,
    has_suffix, slice_chars,
};
use crate::elevate::texts;
use crate::runner::SocketAddress;

verus! {

/// DNS server configuration.
#[derive(Debug, Clone)]
pub struct DnsServerConfig {
    /// Where the server listens.
    pub listen_addr: String,
    /// The resolver queries for other domains go to first.
    pub upstream_dns: String,
    /// Domains answered with virtual addresses, with all their subdomains.
    pub proxy_domains: Vec<String>,
}

/// A parsed DNS query.
#[derive(Debug, Clone)]
pub struct DnsQuery {
    /// The transaction id.
    pub id: u16,
    /// The queried name, labels joined by dots.
    pub domain: String,
    /// The record type (1 is A).
    pub qtype: u16,
    /// The question section as it appeared on the wire.
    pub question_section: Vec<u8>,
}

/// Why a packet is not a query this server can read.
#[derive(Debug, Clone, Copy, PartialEq, Eq, Structural)]
pub enum DnsParseError {
    /// Shorter than a DNS header.
    TooShort,
    /// The header announces no question.
    NoQuestion,
    /// The name runs past the end of the packet.
    Truncated,
    /// A label is longer than what is left of the packet.
    LabelOutOfBounds,
    /// A label is not UTF-8.
    InvalidLabel,
    /// The type and class do not fit after the name.
    TypeTruncated,
}

/// The labels of the name that starts at `off`, decoded, and where the name ends (after its
/// terminating zero).
pub open spec fn walk_labels(data: Seq<u8>, off: int) -> Result<(Seq<Seq<char>>, int), DnsParseError>
    decreases data.len() - off,
{
    if off < 0 || off >= data.len() {
        Err(DnsParseError::Truncated)
    } else {
        let l = data[off] as int;
        if l == 0 {
            Ok((Seq::empty(), off + 1))
        } else if off + 1 + l > data.len() {
            Err(DnsParseError::LabelOutOfBounds)
        } else if !valid_utf8(data.subrange(off + 1, off + 1 + l)) {
            Err(DnsParseError::InvalidLabel)
        } else {
            match walk_labels(data, off + 1 + l) {
                Ok((ls, e)) => Ok((seq![decode_utf8(data.subrange(off + 1, off + 1 + l))] + ls, e)),
                Err(x) => Err(x),
            }
        }
    }
}

/// Labels joined by dots.
pub open spec fn join_dot(ls: Seq<Seq<char>>) -> Seq<char>
    decreases ls.len(),
{
    if ls.len() == 0 {
        Seq::empty()
    } else if ls.len() == 1 {
        ls[0]
    } else {
        join_dot(ls.drop_last()) + seq!['.'] + ls.last()
    }
}

/// A query as plain values: id, domain, type and question section.
pub open spec fn query_view(q: DnsQuery) -> (u16, Seq<char>, u16, Seq<u8>) {
    (q.id, q.domain@, q.qtype, q.question_section@)
}

/// What a packet says as a query: the id, the first question's name, its type and the whole
/// question (name, type and class) as it appeared.
pub open spec fn spec_parse_query(data: Seq<u8>) -> Result<(u16, Seq<char>, u16, Seq<u8>), DnsParseError> {
    if data.len() < 12 {
        Err(DnsParseError::TooShort)
    } else if read16(data, 4) == 0 {
        Err(DnsParseError::NoQuestion)
    } else {
        match walk_labels(data, 12) {
            Err(x) => Err(x),
            Ok((ls, e)) => if e + 4 > data.len() {
                Err(DnsParseError::TypeTruncated)
            } else {
                Ok((read16(data, 0), join_dot(ls), read16(data, e), data.subrange(12, e + 4)))
            },
        }
    }
}

spec fn prefixed(acc: Seq<Seq<char>>, r: Result<(Seq<Seq<char>>, int), DnsParseError>) -> Result<(Seq<Seq<char>>, int), DnsParseError> {
    match r {
        Ok((ls, e)) => Ok((acc + ls, e)),
        Err(x) => Err(x),
    }
}

proof fn lemma_join_push(acc: Seq<Seq<char>>, l: Seq<char>)
    ensures
        join_dot(acc.push(l)) == if acc.len() == 0 {
            l
        } else {
            join_dot(acc) + seq!['.'] + l
        },
{
    assert(acc.push(l).drop_last() =~= acc);
}

/// Parses a DNS query from a raw packet.
pub fn parse_dns_query(data: &[u8]) -> (r: Result<DnsQuery, DnsParseError>)
    ensures
        match r {
            Ok(q) => spec_parse_query(data@) == Ok::<(u16, Seq<char>, u16, Seq<u8>), DnsParseError>(query_view(q)),
            Err(e) => spec_parse_query(data@) == Err::<(u16, Seq<char>, u16, Seq<u8>), DnsParseError>(e),
        },
{
    if data.len() < 12 {
        return Err(DnsParseError::TooShort);
    }
    let id: u16 = (data[0] as u16) * 256 + data[1] as u16;
    let qdcount: u16 = (data[4] as u16) * 256 + data[5] as u16;
    assert(id == read16(data@, 0));
    assert(qdcount == read16(data@, 4));
    if qdcount == 0 {
        return Err(DnsParseError::NoQuestion);
    }
    let mut off: usize = 12;
    let mut domain: Vec<char> = Vec::new();
    let ghost mut acc: Seq<Seq<char>> = Seq::empty();
    let mut first = true;
    loop
        invariant_except_break
            first == (acc.len() == 0),
            12 <= off <= data.len(),
            walk_labels(data@, 12) == prefixed(acc, walk_labels(data@, off as int)),
            domain@ == join_dot(acc),
        invariant
            data.len() >= 12,
            read16(data@, 4) != 0,
        ensures
            12 <= off <= data.len(),
            walk_labels(data@, 12) == Ok::<(Seq<Seq<char>>, int), DnsParseError>((acc, off as int)),
            domain@ == join_dot(acc),
        decreases data.len() - off,
    {
        if off >= data.len() {
            return Err(DnsParseError::Truncated);
        }
        let l = data[off] as usize;
        if l == 0 {
            off = off + 1;
            assert(acc + Seq::<Seq<char>>::empty() =~= acc);
            break;
        }
        if l > data.len() - off - 1 {
            return Err(DnsParseError::LabelOutOfBounds);
        }
        let label = vstd::slice::slice_subrange(data, off + 1, off + 1 + l);
        match utf8_to_str(label) {
            None => {
                return Err(DnsParseError::InvalidLabel);
            },
            Some(s) => {
                proof {
                    lemma_join_push(acc, s@);
                    let next = walk_labels(data@, (off + 1 + l) as int);
                    match next {
                        Ok((ls, e)) => {
                            assert(acc + (seq![s@] + ls) =~= acc.push(s@) + ls);
                        },
                        Err(_) => {},
                    }
                }
                if !first {
                    domain.push('.');
                }
                first = false;
                append_str(&mut domain, s);
                proof {
                    acc = acc.push(s@);
                }
                off = off + 1 + l;
            },
        }
    }
    if data.len() - off < 4 {
        return Err(DnsParseError::TypeTruncated);
    }
    let qtype: u16 = (data[off] as u16) * 256 + data[off + 1] as u16;
    let q = vstd::slice::slice_subrange(data, 12, off + 4);
    let mut question: Vec<u8> = Vec::new();
    push_all(&mut question, q);
    assert(question@ =~= data@.subrange(12, off + 4));
    Ok(DnsQuery { id, domain: string_of(domain.as_slice()), qtype, question_section: question })
}

/// The header of a reply: the query's id, the flags of a recursive answer without error, one
/// question and `answers` answers.
pub open spec fn reply_header(id: u16, answers: u16) -> Seq<u8> {
    be16(id) + seq![0x81u8, 0x80u8] + be16(1) + be16(answers) + be16(0) + be16(0)
}

/// The A answer for the queried name: a pointer to the name in the question, type A, class
/// IN, a 60 second TTL and the four bytes of `ip`.
pub open spec fn a_answer(ip: u32) -> Seq<u8> {
    seq![0xC0u8, 0x0Cu8] + be16(1) + be16(1) + be32(60) + be16(4) + be32(ip)
}

/// The reply to `q` that answers with `ip`.
pub open spec fn spec_dns_response(q: DnsQuery, ip: u32) -> Seq<u8> {
    reply_header(q.id, 1) + q.question_section@ + a_answer(ip)
}

/// The reply to `q` with no answer and no error.
pub open spec fn spec_empty_dns_response(q: DnsQuery) -> Seq<u8> {
    reply_header(q.id, 0) + q.question_section@
}

fn push_header(out: &mut Vec<u8>, id: u16, answers: u16)
    ensures
        final(out)@ == old(out)@ + reply_header(id, answers),
{
    push_be16(out, id);
    out.push(0x81u8);
    out.push(0x80u8);
    push_be16(out, 1);
    push_be16(out, answers);
    push_be16(out, 0);
    push_be16(out, 0);
    assert(out@ =~= old(out)@ + reply_header(id, answers));
}

/// Builds the reply to `dns_query` carrying one A record for `ip`; `query` is the packet it
/// was read from.
pub fn build_dns_response(query: &[u8], dns_query: &DnsQuery, ip: u32) -> (r: Vec<u8>)
    ensures
        r@ == spec_dns_response(*dns_query, ip),
{
    let mut out: Vec<u8> = Vec::new();
    push_header(&mut out, dns_query.id, 1);
    push_all(&mut out, dns_query.question_section.as_slice());
    let ghost before = out@;
    out.push(0xC0u8);
    out.push(0x0Cu8);
    push_be16(&mut out, 1);
    push_be16(&mut out, 1);
    push_be32(&mut out, 60);
    push_be16(&mut out, 4);
    push_be32(&mut out, ip);
    assert(out@ =~= before + a_answer(ip));
    assert(out@ =~= spec_dns_response(*dns_query, ip));
    out
}

/// Builds an empty reply without error, for a hijacked name queried for anything but an A
/// record.
pub fn build_empty_dns_response(dns_query: &DnsQuery) -> (r: Vec<u8>)
    ensures
        r@ == spec_empty_dns_response(*dns_query),
{
    let mut out: Vec<u8> = Vec::new();
    push_header(&mut out, dns_query.id, 0);
    push_all(&mut out, dns_query.question_section.as_slice());
    out
}

/// `s` without the copies of `c` it starts with (`trim_start_matches`).
pub open spec fn strip_leading(s: Seq<char>, c: char) -> Seq<char>
    decreases s.len(),
{
    if s.len() > 0 && s[0] == c {
        strip_leading(s.drop_first(), c)
    } else {
        s
    }
}

proof fn lemma_strip_leading(s: Seq<char>, c: char, i: int)
    requires
        0 <= i <= s.len(),
        forall|k: int| 0 <= k < i ==> s[k] == c,
        i < s.len() ==> s[i] != c,
    ensures
        strip_leading(s, c) == s.subrange(i, s.len() as int),
    decreases i,
{
    if i == 0 {
        assert(s.subrange(0, s.len() as int) =~= s);
    } else {
        assert forall|k: int| 0 <= k < i - 1 implies s.drop_first()[k] == c by {
            assert(s.drop_first()[k] == s[k + 1]);
        }
        if i - 1 < s.drop_first().len() {
            assert(s.drop_first()[i - 1] == s[i]);
        }
        lemma_strip_leading(s.drop_first(), c, i - 1);
        assert(s.drop_first().subrange(i - 1, s.drop_first().len() as int) =~= s.subrange(i, s.len() as int));
    }
}

fn strip_leading_chars(v: &[char], c: char) -> (r: Vec<char>)
    ensures
        r@ == strip_leading(v@, c),
{
    let mut i: usize = 0;
    while i < v.len() && v[i] == c
        invariant
            i <= v.len(),
            forall|k: int| 0 <= k < i ==> v@[k] == c,
        decreases v.len() - i,
    {
        i = i + 1;
    }
    proof {
        lemma_strip_leading(v@, c, i as int);
    }
    slice_chars(v, i, v.len())
}

/// A configured domain as it is compared: leading `*`s, then leading dots, removed.
pub open spec fn domain_pattern(d: Seq<char>) -> Seq<char> {
    strip_leading(strip_leading(d, '*'), '.')
}

/// Whether `host` is `domain` or one of its subdomains (DOMAIN-SUFFIX semantics); both
/// already lowercased.
pub open spec fn suffix_match(host: Seq<char>, domain: Seq<char>) -> bool {
    host == domain || has_suffix(host, seq!['.'] + domain)
}

/// Whether `host` (lowercased) is covered by the configured `domain_lower`, which was
/// lowercased after its leading `*` and `.` were removed.
pub fn domain_matches(host_lower: &str, domain_lower: &str) -> (b: bool)
    ensures
        b == suffix_match(host_lower@, domain_lower@),
{
    if str_eq(host_lower, domain_lower) {
        return true;
    }
    let h = chars_of(host_lower);
    let mut suffix: Vec<char> = Vec::new();
    suffix.push('.');
    append_str(&mut suffix, domain_lower);
    assert(suffix@ =~= seq!['.'] + domain_lower@);
    crate::text::ends_with(h.as_slice(), suffix.as_slice())
}

/// Whether `host` is proxied: it, lowercased, matches one of the configured domains, each
/// stripped of leading `*` and `.` and lowercased.
pub open spec fn spec_should_proxy(host: Seq<char>, domains: Seq<Seq<char>>) -> bool {
    exists|i: int| 0 <= i < domains.len() && suffix_match(
        spec_lowercase(host),
        spec_lowercase(domain_pattern(domains[i])),
    )
}

/// Whether a domain should be proxied: `example.com` matches itself and every subdomain, and
/// `*.example.com` and `.example.com` mean the same.
pub fn should_proxy_domain(host: &str, proxy_domains: &[String]) -> (b: bool)
    ensures
        b == spec_should_proxy(host@, texts(proxy_domains@)),
{
    let host_lower = to_lowercase(host);
    let mut i: usize = 0;
    while i < proxy_domains.len()
        invariant
            i <= proxy_domains.len(),
            host_lower@ == spec_lowercase(host@),
            forall|k: int| 0 <= k < i ==> !suffix_match(
                spec_lowercase(host@),
                spec_lowercase(domain_pattern(#[trigger] proxy_domains@[k]@)),
            ),
        decreases proxy_domains.len() - i,
    {
        let d = chars_of(proxy_domains[i].as_str());
        let a = strip_leading_chars(d.as_slice(), '*');
        let b = strip_leading_chars(a.as_slice(), '.');
        let bs = string_of(b.as_slice());
        let domain_lower = to_lowercase(bs.as_str());
        if domain_matches(host_lower.as_str(), domain_lower.as_str()) {
            assert(texts(proxy_domains@)[i as int] == proxy_domains@[i as int]@);
            return true;
        }
        i = i + 1;
    }
    assert forall|k: int| 0 <= k < texts(proxy_domains@).len() implies !suffix_match(
        spec_lowercase(host@),
        spec_lowercase(domain_pattern(texts(proxy_domains@)[k])),
    ) by {
        assert(texts(proxy_domains@)[k] == proxy_domains@[k]@);
    }
    false
}

/// What to do with a packet that arrived at the DNS server.
#[derive(Debug, Clone)]
pub enum DnsDecision {
    /// Drop it: too short to be a query, or not one this server can read.
    Ignore,
    /// Answer it from the virtual address pool.
    Hijack(DnsQuery),
    /// Pass it to the upstream resolvers unchanged.
    Forward,
}

/// Decides how a packet is handled: unreadable packets are dropped, queries for proxied
/// domains are answered here, everything else goes upstream.
pub fn decide_dns(data: &[u8], proxy_domains: &[String]) -> (d: DnsDecision)
    ensures
        match d {
            DnsDecision::Ignore => spec_parse_query(data@) is Err,
            DnsDecision::Hijack(q) => spec_parse_query(data@) == Ok::<(u16, Seq<char>, u16, Seq<u8>), DnsParseError>(query_view(q))
                && spec_should_proxy(q.domain@, texts(proxy_domains@)),
            DnsDecision::Forward => spec_parse_query(data@) matches Ok((_, domain, _, _))
                && !spec_should_proxy(domain, texts(proxy_domains@)),
        },
{
    match parse_dns_query(data) {
        Err(_) => DnsDecision::Ignore,
        Ok(q) => if should_proxy_domain(q.domain.as_str(), proxy_domains) {
            DnsDecision::Hijack(q)
        } else {
            DnsDecision::Forward
        },
    }
}

/// The reply to a hijacked query: an A record for `ip` when it asked for one, else an empty
/// answer so that the query does not leak upstream.
pub fn hijack_reply(query: &[u8], q: &DnsQuery, ip: u32) -> (r: Vec<u8>)
    ensures
        r@ == if q.qtype == 1 {
            spec_dns_response(*q, ip)
        } else {
            spec_empty_dns_response(*q)
        },
{
    if q.qtype == 1 {
        build_dns_response(query, q, ip)
    } else {
        build_empty_dns_response(q)
    }
}

/// Public resolvers tried, in order, after the configured one.
pub open spec fn spec_fallback_upstreams() -> Seq<Seq<char>> {
    seq!["223.5.5.5:53"@, "114.114.114.114:53"@, "1.1.1.1:53"@]
}

/// The fallback resolvers.
pub fn fallback_upstreams() -> (v: Vec<String>)
    ensures
        texts(v@) == spec_fallback_upstreams(),
{
    let mut v: Vec<String> = Vec::new();
    v.push(String::from_str("223.5.5.5:53"));
    v.push(String::from_str("114.114.114.114:53"));
    v.push(String::from_str("1.1.1.1:53"));
    assert(texts(v@) =~= spec_fallback_upstreams());
    v
}

fn contains_text(v: &Vec<String>, s: &str) -> (b: bool)
    ensures
        b == texts(v@).contains(s@),
{
    let mut i: usize = 0;
    while i < v.len()
        invariant
            i <= v.len(),
            forall|k: int| 0 <= k < i ==> v@[k]@ != s@,
        decreases v.len() - i,
    {
        if str_eq(v[i].as_str(), s) {
            assert(texts(v@)[i as int] == s@);
            return true;
        }
        i = i + 1;
    }
    assert forall|k: int| 0 <= k < texts(v@).len() implies texts(v@)[k] != s@ by {
        assert(texts(v@)[k] == v@[k]@);
    }
    false
}

/// `s` without the entries equal to `x`, in order.
pub open spec fn without(s: Seq<Seq<char>>, x: Seq<char>) -> Seq<Seq<char>>
    decreases s.len(),
{
    if s.len() == 0 {
        Seq::empty()
    } else if s.last() == x {
        without(s.drop_last(), x)
    } else {
        without(s.drop_last(), x).push(s.last())
    }
}

/// The resolvers tried for a forwarded query: the configured one, then the fallbacks that
/// differ from it.
pub open spec fn spec_upstreams(configured: Seq<char>) -> Seq<Seq<char>> {
    seq![configured] + without(spec_fallback_upstreams(), configured)
}

proof fn lemma_fallbacks_distinct()
    ensures
        forall|a: int, b: int| 0 <= a < b < 3 ==> spec_fallback_upstreams()[a] != spec_fallback_upstreams()[b],
{
    reveal_strlit("223.5.5.5:53");
    reveal_strlit("114.114.114.114:53");
    reveal_strlit("1.1.1.1:53");
    assert(spec_fallback_upstreams()[0].len() == 12);
    assert(spec_fallback_upstreams()[1].len() == 18);
    assert(spec_fallback_upstreams()[2].len() == 10);
}

proof fn lemma_without_members(s: Seq<Seq<char>>, x: Seq<char>, y: Seq<char>)
    ensures
        without(s, x).contains(y) <==> (s.contains(y) && y != x),
    decreases s.len(),
{
    if s.len() > 0 {
        lemma_without_members(s.drop_last(), x, y);
        if s.contains(y) && y != x {
            let j = choose|j: int| 0 <= j < s.len() && s[j] == y;
            if j < s.len() - 1 {
                assert(s.drop_last()[j] == y);
            }
        }
        if s.drop_last().contains(y) {
            let j = choose|j: int| 0 <= j < s.drop_last().len() && s.drop_last()[j] == y;
            assert(s[j] == y);
        }
        if without(s, x).contains(y) && s.last() != x && s.last() != y {
            let w = without(s.drop_last(), x);
            let j = choose|j: int| 0 <= j < w.push(s.last()).len() && w.push(s.last())[j] == y;
            assert(w[j] == y);
        }
        if s.last() != x && without(s.drop_last(), x).contains(y) {
            let w = without(s.drop_last(), x);
            let j = choose|j: int| 0 <= j < w.len() && w[j] == y;
            assert(w.push(s.last())[j] == y);
        }
        if s.last() == y && y != x {
            let w = without(s.drop_last(), x);
            assert(w.push(s.last())[w.len() as int] == y);
        }
    }
}

/// The resolvers a forwarded query is sent to, in order: the configured one, then each
/// fallback that is not already listed.
pub fn upstream_list(configured: &str) -> (r: Vec<String>)
    ensures
        texts(r@) == spec_upstreams(configured@),
{
    let fallbacks = fallback_upstreams();
    let mut r: Vec<String> = Vec::new();
    r.push(String::from_str(configured));
    proof {
        lemma_fallbacks_distinct();
        assert(texts(r@) =~= seq![configured@] + without(spec_fallback_upstreams().subrange(0, 0), configured@));
    }
    let mut i: usize = 0;
    while i < fallbacks.len()
        invariant
            i <= fallbacks.len(),
            texts(fallbacks@) == spec_fallback_upstreams(),
            forall|a: int, b: int| 0 <= a < b < 3 ==> spec_fallback_upstreams()[a] != spec_fallback_upstreams()[b],
            texts(r@) == seq![configured@] + without(spec_fallback_upstreams().subrange(0, i as int), configured@),
        decreases fallbacks.len() - i,
    {
        let fb = fallbacks[i].as_str();
        let ghost f = spec_fallback_upstreams();
        assert(fb@ == f[i as int]);
        let ghost w = without(f.subrange(0, i as int), configured@);
        proof {
            assert(f.subrange(0, i + 1).drop_last() =~= f.subrange(0, i as int));
            assert(f.subrange(0, i + 1).last() == f[i as int]);
            lemma_without_members(f.subrange(0, i as int), configured@, fb@);
            assert(!f.subrange(0, i as int).contains(fb@)) by {
                if f.subrange(0, i as int).contains(fb@) {
                    let j = choose|j: int| 0 <= j < i && f.subrange(0, i as int)[j] == fb@;
                    assert(f[j] == f[i as int]);
                }
            }
            assert(texts(r@).contains(fb@) <==> fb@ == configured@) by {
                if texts(r@).contains(fb@) && fb@ != configured@ {
                    let j = choose|j: int| 0 <= j < texts(r@).len() && texts(r@)[j] == fb@;
                    assert(j >= 1);
                    assert(w[j - 1] == fb@);
                    assert(w.contains(fb@));
                }
                if fb@ == configured@ {
                    assert(texts(r@)[0] == fb@);
                }
            }
        }
        if !contains_text(&r, fb) {
            let ghost before = r@;
            r.push(String::from_str(fb));
            assert(texts(r@) =~= texts(before).push(fb@));
        }
        i = i + 1;
        assert(texts(r@) =~= seq![configured@] + without(spec_fallback_upstreams().subrange(0, i as int), configured@));
    }
    assert(spec_fallback_upstreams().subrange(0, i as int) =~= spec_fallback_upstreams());
    r
}

/// The upstream list never names a resolver twice, starts with the configured one and holds
/// every fallback.
pub proof fn law_upstreams_distinct(configured: Seq<char>)
    ensures
        spec_upstreams(configured)[0] == configured,
        forall|a: int, b: int| 0 <= a < b < spec_upstreams(configured).len() ==> spec_upstreams(configured)[a] != spec_upstreams(configured)[b],
        forall|k: int| 0 <= k < 3 ==> spec_upstreams(configured).contains(#[trigger] spec_fallback_upstreams()[k]),
{
    lemma_fallbacks_distinct();
    let f = spec_fallback_upstreams();
    reveal_with_fuel(without, 4);
    assert(f.drop_last().drop_last().drop_last() =~= Seq::<Seq<char>>::empty());
    let l = spec_upstreams(configured);
    assert forall|k: int| 0 <= k < 3 implies l.contains(#[trigger] f[k]) by {
        lemma_without_members(f, configured, f[k]);
        if f[k] == configured {
            assert(l[0] == f[k]);
        } else {
            assert(f.contains(f[k]));
            let w = without(f, configured);
            let j = choose|j: int| 0 <= j < w.len() && w[j] == f[k];
            assert(l[j + 1] == f[k]);
        }
    }
}

proof fn lemma_walk_end(d: Seq<u8>, off: int)
    requires
        walk_labels(d, off) is Ok,
    ensures
        off < walk_labels(d, off)->Ok_0.1 <= d.len(),
    decreases d.len() - off,
{
    let l = d[off] as int;
    if l != 0 {
        lemma_walk_end(d, off + 1 + l);
    }
}

proof fn lemma_walk_same(d1: Seq<u8>, d2: Seq<u8>, off: int)
    requires
        walk_labels(d1, off) is Ok,
        walk_labels(d1, off)->Ok_0.1 <= d2.len(),
        forall|k: int| off <= k < walk_labels(d1, off)->Ok_0.1 ==> d1[k] == d2[k],
    ensures
        walk_labels(d2, off) == walk_labels(d1, off),
    decreases d1.len() - off,
{
    lemma_walk_end(d1, off);
    let e = walk_labels(d1, off)->Ok_0.1;
    let l = d1[off] as int;
    assert(d2[off] == d1[off]);
    if l != 0 {
        lemma_walk_end(d1, off + 1 + l);
        assert(d1.subrange(off + 1, off + 1 + l) =~= d2.subrange(off + 1, off + 1 + l));
        lemma_walk_same(d1, d2, off + 1 + l);
    }
}

/// A reply reads back as the query it answers: its id, name, type and question are those of
/// the query, whether it carries an A record or nothing.
pub proof fn law_reply_reads_back_as_the_query(data: Seq<u8>, q: DnsQuery, ip: u32)
    requires
        spec_parse_query(data) == Ok::<(u16, Seq<char>, u16, Seq<u8>), DnsParseError>(query_view(q)),
    ensures
        spec_parse_query(spec_dns_response(q, ip)) == Ok::<(u16, Seq<char>, u16, Seq<u8>), DnsParseError>(query_view(q)),
        spec_parse_query(spec_empty_dns_response(q)) == Ok::<(u16, Seq<char>, u16, Seq<u8>), DnsParseError>(query_view(q)),
{
    let e = walk_labels(data, 12)->Ok_0.1;
    lemma_walk_end(data, 12);
    let qs = q.question_section@;
    assert(qs == data.subrange(12, e + 4));
    let full = spec_dns_response(q, ip);
    let empty = spec_empty_dns_response(q);
    assert(reply_header(q.id, 1).len() == 12);
    assert(reply_header(q.id, 0).len() == 12);
    assert forall|k: int| 12 <= k < e + 4 implies data[k] == full[k] && data[k] == empty[k] by {
        assert(full[k] == qs[k - 12]);
        assert(empty[k] == qs[k - 12]);
    }
    lemma_walk_same(data, full, 12);
    lemma_walk_same(data, empty, 12);
    assert(full[0] == (q.id / 256) as u8 && full[1] == (q.id % 256) as u8);
    assert(empty[0] == (q.id / 256) as u8 && empty[1] == (q.id % 256) as u8);
    assert(read16(full, 0) == q.id);
    assert(read16(empty, 0) == q.id);
    assert(read16(full, 4) == 1);
    assert(read16(empty, 4) == 1);
    assert(read16(full, e) == read16(data, e));
    assert(read16(empty, e) == read16(data, e));
    assert(full.subrange(12, e + 4) =~= qs);
    assert(empty.subrange(12, e + 4) =~= qs);
}


/// Whether two socket addresses are the same: address and port for IPv4; the address and its
/// rendering with port and scope for IPv6.
pub open spec fn same_address(a: SocketAddress, b: SocketAddress) -> bool {
    match (a, b) {
        (SocketAddress::V4 { ip: i1, port: p1 }, SocketAddress::V4 { ip: i2, port: p2 }) => i1 == i2 && p1 == p2,
        (SocketAddress::V6 { loopback: l1, ip_text: t1, socket_text: s1 }, SocketAddress::V6 { loopback: l2, ip_text: t2, socket_text: s2 }) =>
            l1 == l2 && t1@ == t2@ && s1@ == s2@,
        _ => false,
    }
}

fn is_same_address(a: &SocketAddress, b: &SocketAddress) -> (r: bool)
    ensures
        r == same_address(*a, *b),
{
    match (a, b) {
        (SocketAddress::V4 { ip: i1, port: p1 }, SocketAddress::V4 { ip: i2, port: p2 }) => *i1 == *i2 && *p1 == *p2,
        (SocketAddress::V6 { loopback: l1, ip_text: t1, socket_text: s1 }, SocketAddress::V6 { loopback: l2, ip_text: t2, socket_text: s2 }) =>
            *l1 == *l2 && str_eq(t1.as_str(), t2.as_str()) && str_eq(s1.as_str(), s2.as_str()),
        _ => false,
    }
}

/// Where forwarding a query upstream is.
#[derive(Debug, Clone)]
pub enum ForwardStep {
    /// About to query the upstream at this position of the list.
    Try(usize),
    /// The query went to the upstream at this position, which has this address; waiting
    /// (1.5 s) for its reply.
    Await(usize, SocketAddress),
    /// A reply was relayed to the client.
    Relayed,
    /// Every upstream was tried without a reply.
    Exhausted,
}

/// What the caller does next.
#[derive(Debug, Clone)]
pub enum ForwardAction {
    /// Parse this upstream's address, send the query to it from a fresh socket, and report
    /// where it went.
    Query(String),
    /// Wait for one datagram and report where it came from.
    Listen,
    /// Send the datagram just received to the client.
    RelayToClient,
    /// Nothing more to do.
    Stop,
}

/// What came of the last action.
#[derive(Debug, Clone)]
pub enum ForwardEvent {
    /// The address did not parse, no socket could be bound, or the send failed.
    NotSent,
    /// The query went to this address.
    Sent(SocketAddress),
    /// A datagram arrived from this address.
    Received(SocketAddress),
    /// Nothing arrived in time, or receiving failed.
    TimedOut,
}

/// The step at upstream `j` of `n`: querying it, or done when the list is used up.
pub open spec fn try_at(n: nat, j: int) -> ForwardStep {
    if j < n {
        ForwardStep::Try(j as usize)
    } else {
        ForwardStep::Exhausted
    }
}

/// The step after `step` once `event` came of it, with `n` upstreams: a query that could not
/// be sent, a timeout, or a datagram from any address but the one queried moves on to the
/// next upstream; a datagram from the queried address is relayed and ends the forwarding.
/// The final steps stay where they are, and an event a step does not wait for changes
/// nothing.
pub open spec fn spec_forward_next(n: nat, step: ForwardStep, event: ForwardEvent) -> ForwardStep {
    match (step, event) {
        (ForwardStep::Try(i), ForwardEvent::Sent(a)) => ForwardStep::Await(i, a),
        (ForwardStep::Try(i), ForwardEvent::NotSent) => try_at(n, i + 1),
        (ForwardStep::Await(i, a), ForwardEvent::Received(b)) => if same_address(a, b) {
            ForwardStep::Relayed
        } else {
            try_at(n, i + 1)
        },
        (ForwardStep::Await(i, _), ForwardEvent::TimedOut) => try_at(n, i + 1),
        _ => step,
    }
}

/// Whether `a` is what the caller does after moving from `step` to `next` over the upstream
/// list `ups`: query the upstream it is at, listen while awaiting, relay exactly when a reply
/// was just accepted, and stop otherwise.
pub open spec fn forward_action_ok(ups: Seq<Seq<char>>, step: ForwardStep, next: ForwardStep, a: ForwardAction) -> bool {
    match next {
        ForwardStep::Try(j) => a matches ForwardAction::Query(u) && u@ == ups[j as int],
        ForwardStep::Await(_, _) => a is Listen,
        ForwardStep::Relayed => if step is Relayed { a is Stop } else { a is RelayToClient },
        ForwardStep::Exhausted => a is Stop,
    }
}

/// A step names an upstream of the list.
pub open spec fn forward_step_ok(n: nat, step: ForwardStep) -> bool {
    match step {
        ForwardStep::Try(i) => i < n,
        ForwardStep::Await(i, _) => i < n,
        _ => true,
    }
}

fn forward_try(upstreams: &Vec<String>, j: usize) -> (r: (ForwardStep, ForwardAction))
    requires
        j <= upstreams.len(),
    ensures
        r.0 == try_at(upstreams.len() as nat, j as int),
        forward_action_ok(texts(upstreams@), ForwardStep::Exhausted, r.0, r.1),
{
    if j < upstreams.len() {
        (ForwardStep::Try(j), ForwardAction::Query(String::from_str(upstreams[j].as_str())))
    } else {
        (ForwardStep::Exhausted, ForwardAction::Stop)
    }
}

/// Forwarding a query starts at the first upstream (see `upstream_list` for the order).
pub fn forward_start(upstreams: &Vec<String>) -> (r: (ForwardStep, ForwardAction))
    ensures
        r.0 == try_at(upstreams.len() as nat, 0),
        forward_action_ok(texts(upstreams@), ForwardStep::Exhausted, r.0, r.1),
        forward_step_ok(upstreams.len() as nat, r.0),
{
    forward_try(upstreams, 0)
}

/// One step of forwarding a query upstream (see `spec_forward_next`).
pub fn forward_step(upstreams: &Vec<String>, step: ForwardStep, event: ForwardEvent) -> (r: (ForwardStep, ForwardAction))
    requires
        forward_step_ok(upstreams.len() as nat, step),
    ensures
        r.0 == spec_forward_next(upstreams.len() as nat, step, event),
        forward_action_ok(texts(upstreams@), step, r.0, r.1),
        forward_step_ok(upstreams.len() as nat, r.0),
{
    match step {
        ForwardStep::Try(i) => match event {
            ForwardEvent::Sent(a) => (ForwardStep::Await(i, a), ForwardAction::Listen),
            ForwardEvent::NotSent => forward_try(upstreams, i + 1),
            _ => (ForwardStep::Try(i), ForwardAction::Query(String::from_str(upstreams[i].as_str()))),
        },
        ForwardStep::Await(i, a) => match event {
            ForwardEvent::Received(b) => if is_same_address(&a, &b) {
                (ForwardStep::Relayed, ForwardAction::RelayToClient)
            } else {
                forward_try(upstreams, i + 1)
            },
            ForwardEvent::TimedOut => forward_try(upstreams, i + 1),
            _ => (ForwardStep::Await(i, a), ForwardAction::Listen),
        },
        ForwardStep::Relayed => (ForwardStep::Relayed, ForwardAction::Stop),
        ForwardStep::Exhausted => (ForwardStep::Exhausted, ForwardAction::Stop),
    }
}

/// The position a step is at; the end of the list once it is over.
pub open spec fn forward_position(n: nat, step: ForwardStep) -> int {
    match step {
        ForwardStep::Try(i) => i as int,
        ForwardStep::Await(i, _) => i as int,
        _ => n as int,
    }
}

/// Upstreams are tried in list order and never twice; the client gets a datagram only when
/// it came from the upstream just queried, and at most once: once relayed, nothing more is
/// sent.
pub proof fn law_forward_in_order_relay_once(n: nat, step: ForwardStep, event: ForwardEvent)
    requires
        forward_step_ok(n, step),
        n <= usize::MAX,
    ensures
        forward_position(n, step) <= forward_position(n, spec_forward_next(n, step, event)),
        spec_forward_next(n, step, event) is Relayed && !(step is Relayed) ==> (step matches ForwardStep::Await(_, a)
            && event matches ForwardEvent::Received(b) && same_address(a, b)),
        step is Relayed ==> spec_forward_next(n, step, event) is Relayed,
{
}


/// A failed upstream never ends forwarding while upstreams are left: after a query that could
/// not be sent, a timeout, or a datagram from an address other than the one queried, the next
/// upstream of the list is queried, and only past the last one does forwarding stop. A query
/// that went out is waited on, and a reply from the queried address is relayed.
pub proof fn law_forward_moves_to_the_next_upstream(ups: Seq<Seq<char>>, i: usize, a: SocketAddress, b: SocketAddress, act: ForwardAction)
    requires
        i < ups.len() <= usize::MAX,
    ensures
        ({
            let n = ups.len();
            let after = if i + 1 < n { ForwardStep::Try((i + 1) as usize) } else { ForwardStep::Exhausted };
            &&& spec_forward_next(n, ForwardStep::Await(i, a), ForwardEvent::TimedOut) == after
            &&& spec_forward_next(n, ForwardStep::Try(i), ForwardEvent::NotSent) == after
            &&& !same_address(a, b) ==> spec_forward_next(n, ForwardStep::Await(i, a), ForwardEvent::Received(b)) == after
            &&& same_address(a, b) ==> spec_forward_next(n, ForwardStep::Await(i, a), ForwardEvent::Received(b)) == ForwardStep::Relayed
            &&& spec_forward_next(n, ForwardStep::Try(i), ForwardEvent::Sent(a)) == ForwardStep::Await(i, a)
        }),
        i + 1 < ups.len() && forward_action_ok(ups, ForwardStep::Await(i, a), ForwardStep::Try((i + 1) as usize), act)
            ==> (act matches ForwardAction::Query(u) && u@ == ups[i + 1]),
        try_at(ups.len(), 0) == ForwardStep::Try(0),
        forward_action_ok(ups, ForwardStep::Exhausted, ForwardStep::Try(0), act) ==> (act matches ForwardAction::Query(u) && u@ == ups[0]),
        forward_action_ok(ups, ForwardStep::Try(i), ForwardStep::Await(i, a), act) ==> act is Listen,
        forward_action_ok(ups, ForwardStep::Await(i, a), ForwardStep::Relayed, act) ==> act is RelayToClient,
        forward_action_ok(ups, ForwardStep::Await(i, a), ForwardStep::Exhausted, act) ==> act is Stop,
        forward_action_ok(ups, ForwardStep::Relayed, ForwardStep::Relayed, act) ==> act is Stop,
{
}

/// Two socket addresses are the same when and only when they match field for field: the same
/// IPv4 address and port, or the same IPv6 rendering.
pub proof fn law_same_address(ip: u32, port: u16, ip2: u32, port2: u16)
    ensures
        same_address(SocketAddress::V4 { ip, port }, SocketAddress::V4 { ip: ip2, port: port2 }) <==> (ip == ip2 && port == port2),
{
}


/// A configured domain covers itself and every name under it, and nothing else: `d` matches
/// `d` and `x.d` for any `x`; a name that matches ends with `d`; and a name that only shares a
/// tail with `d` without a dot before it (`xd`) does not match. `*.d` and `.d` configure the
/// same domain as `d` (a plain domain, not itself starting with `*` or `.`).
pub proof fn law_domain_suffix_semantics(x: Seq<char>, d: Seq<char>, host: Seq<char>)
    ensures
        suffix_match(d, d),
        suffix_match(x + seq!['.'] + d, d),
        suffix_match(host, d) ==> has_suffix(host, d),
        x.len() > 0 && x.last() != '.' && x + d != d ==> !suffix_match(x + d, d),
        d.len() > 0 && d[0] != '*' && d[0] != '.' ==> domain_pattern(d) == d
            && domain_pattern(seq!['*', '.'] + d) == d && domain_pattern(seq!['.'] + d) == d,
{
    let h = x + seq!['.'] + d;
    assert(h.subrange(h.len() - (d.len() + 1), h.len() as int) =~= seq!['.'] + d);
    if host == d {
        assert(host.subrange(0, host.len() as int) =~= d);
    }
    if suffix_match(host, d) && host != d {
        let k = host.len() - (d.len() + 1);
        assert(host.subrange(host.len() - d.len(), host.len() as int) =~= (seq!['.'] + d).subrange(1, d.len() as int + 1));
        assert((seq!['.'] + d).subrange(1, d.len() as int + 1) =~= d);
    }
    if x.len() > 0 && x.last() != '.' && x + d != d {
        let y = x + d;
        if has_suffix(y, seq!['.'] + d) {
            assert(y[y.len() - d.len() - 1] == (seq!['.'] + d)[0]);
            assert(y[y.len() - d.len() - 1] == x.last());
        }
    }
    let a = seq!['*', '.'] + d;
    let b = seq!['.'] + d;
    assert(a.drop_first() =~= b);
    assert(b.drop_first() =~= d);
    if d.len() > 0 && d[0] != '*' && d[0] != '.' {
        assert(strip_leading(d, '*') == d);
        assert(strip_leading(d, '.') == d);
        assert(strip_leading(b, '*') == b);
        assert(strip_leading(a, '*') == b);
        assert(strip_leading(b, '.') == d);
    }
}


/// A configured domain is itself proxied, and nothing is proxied when no domain is configured.
pub proof fn law_configured_domain_is_proxied(domains: Seq<Seq<char>>, i: int, host: Seq<char>)
    ensures
        0 <= i < domains.len() && domains[i].len() > 0 && domains[i][0] != '*' && domains[i][0] != '.'
            ==> spec_should_proxy(domains[i], domains),
        domains.len() == 0 ==> !spec_should_proxy(host, domains),
{
    if 0 <= i < domains.len() && domains[i].len() > 0 && domains[i][0] != '*' && domains[i][0] != '.' {
        law_domain_suffix_semantics(seq![], domains[i], domains[i]);
        assert(suffix_match(spec_lowercase(domains[i]), spec_lowercase(domain_pattern(domains[i]))));
    }
}


/// A hijacked A query is answered with the virtual address and nothing else wrong: the reply
/// is flagged a response without error (`0x81 0x80`), counts one question and one answer, and
/// ends in one A record for the queried name (a pointer to offset 12, type A, class IN, TTL
/// 60, four bytes) carrying `ip`. The reply for any other type counts no answer and carries
/// only the header and the question.
pub proof fn law_reply_answers_with_the_address(q: DnsQuery, ip: u32)
    ensures
        ({
            let r = spec_dns_response(q, ip);
            let n = r.len();
            &&& n == 12 + q.question_section@.len() + 16
            &&& r[2] == 0x81u8 && r[3] == 0x80u8
            &&& read16(r, 4) == 1 && read16(r, 6) == 1 && read16(r, 8) == 0 && read16(r, 10) == 0
            &&& r.subrange(n - 16, n - 10) == seq![0xC0u8, 0x0Cu8, 0u8, 1u8, 0u8, 1u8]
            &&& read32(r, n - 10) == 60
            &&& read16(r, n - 6) == 4
            &&& read32(r, n - 4) == ip
        }),
        ({
            let e = spec_empty_dns_response(q);
            &&& e.len() == 12 + q.question_section@.len()
            &&& e[2] == 0x81u8 && e[3] == 0x80u8
            &&& read16(e, 4) == 1 && read16(e, 6) == 0
            &&& e.subrange(12, e.len() as int) == q.question_section@
        }),
{
    let r = spec_dns_response(q, ip);
    let n = r.len();
    let qs = q.question_section@;
    let a = a_answer(ip);
    assert(r.subrange(n - 16, n as int) =~= a);
    assert(r.subrange(n - 16, n - 10) =~= seq![0xC0u8, 0x0Cu8, 0u8, 1u8, 0u8, 1u8]);
    assert(read32(r, n - 10) == read32(a, 6));
    assert(read16(r, n - 6) == read16(a, 10));
    assert(read32(r, n - 4) == read32(a, 12));
    lemma_be16(1);
    lemma_be16(0);
    lemma_be16(4);
    lemma_be32(60);
    lemma_be32(ip);
    let e = spec_empty_dns_response(q);
    assert(e.subrange(12, e.len() as int) =~= qs);
}

} // verus!
