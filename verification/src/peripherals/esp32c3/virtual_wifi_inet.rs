//! DNS for the virtual access point: a station's UDP/53 query to the AP is
//! parsed here, the caller resolves the name with the host resolver, and the
//! response is built here from the addresses it found.
//!
//! Only single-question `IN` queries without name compression are answered.
//! An `A` query with no address gets `NXDOMAIN`; any other type (`AAAA`, ...)
//! gets an empty `NOERROR`, so clients fall back.
use vstd::prelude::*;
use vstd::utf8::valid_utf8;

verus! {

/// The big-endian 16-bit value at `i`.
pub open spec fn be16(p: Seq<u8>, i: int) -> u16 {
    (p[i] as int * 256 + p[i + 1] as int) as u16
}

/// The dotted name of the labels from byte `i` on, continuing `name`, and the
/// offset just past the terminating zero; `None` for a compression pointer, a
/// label that overruns the payload or is not UTF-8, or a missing terminator.
pub open spec fn qname_from(p: Seq<u8>, i: int, name: Seq<u8>) -> Option<(int, Seq<u8>)>
    decreases p.len() - i,
{
    if i < 0 || i >= p.len() {
        None
    } else {
        let l = p[i] as int;
        if l == 0 {
            Some((i + 1, name))
        } else if p[i] & 0xC0u8 == 0xC0u8 {
            None
        } else if i + 1 + l > p.len() {
            None
        } else {
            let label = p.subrange(i + 1, i + 1 + l);
            if !valid_utf8(label) {
                None
            } else {
                qname_from(
                    p,
                    i + 1 + l,
                    if name.len() == 0 {
                        label
                    } else {
                        name + seq![0x2eu8] + label
                    },
                )
            }
        }
    }
}

/// The name ends after it starts and within the payload.
proof fn lemma_qname_end_after(p: Seq<u8>, i: int, name: Seq<u8>)
    ensures
        qname_from(p, i, name) matches Some((e, n)) ==> i < e <= p.len(),
    decreases p.len() - i,
{
    if 0 <= i < p.len() && p[i] != 0 && p[i] & 0xC0u8 != 0xC0u8 && i + 1 + p[i] as int <= p.len() {
        let l = p[i] as int;
        let label = p.subrange(i + 1, i + 1 + l);
        lemma_qname_end_after(
            p,
            i + 1 + l,
            if name.len() == 0 {
                label
            } else {
                name + seq![0x2eu8] + label
            },
        );
    }
}

/// The fields of an answerable query.
pub ghost struct QueryFields {
    pub flags: u16,
    pub name: Seq<u8>,
    pub qtype: u16,
    pub question_end: int,
}

/// The query in a UDP payload, if it is an answerable one: at least a
/// header, QR clear, exactly one question, a well-formed name, and class IN.
pub open spec fn parse_query(p: Seq<u8>) -> Option<QueryFields> {
    if p.len() < 12 {
        None
    } else if be16(p, 2) >= 0x8000 {
        None
    } else if be16(p, 4) != 1 {
        None
    } else {
        match qname_from(p, 12, Seq::empty()) {
            None => None,
            Some((i, name)) => if i + 4 > p.len() {
                None
            } else if be16(p, i + 2) != 1 {
                None
            } else {
                Some(
                    QueryFields { flags: be16(p, 2), name, qtype: be16(p, i), question_end: i + 4 },
                )
            },
        }
    }
}

/// Big-endian bytes of `v`.
pub open spec fn be16_bytes(v: u16) -> Seq<u8> {
    seq![(v / 256) as u8, (v % 256) as u8]
}

/// One `A` answer: a pointer to the question name, type A, class IN, TTL 60 s,
/// four bytes of address.
pub open spec fn answer_record(ip: [u8; 4]) -> Seq<u8> {
    seq![0xC0u8, 0x0C, 0, 1, 0, 1, 0, 0, 0, 60, 0, 4, ip@[0], ip@[1], ip@[2], ip@[3]]
}

/// The answer records for `ips`, in order.
pub open spec fn answer_records(ips: Seq<[u8; 4]>) -> Seq<u8>
    decreases ips.len(),
{
    if ips.len() == 0 {
        Seq::empty()
    } else {
        answer_records(ips.drop_last()) + answer_record(ips.last())
    }
}

/// Response flags: QR, AA, RD copied from the query, RA, and `NXDOMAIN` for
/// an `A` query without answers.
pub open spec fn response_flags(flags: u16, qtype: u16, n_answers: nat) -> u16 {
    0x8000u16 | 0x0400u16 | (flags & 0x0100u16) | 0x0080u16 | (if n_answers == 0 && qtype == 1 {
        3u16
    } else {
        0u16
    })
}

/// The response to query `q` of payload `p`: the query id, the response flags,
/// one question, the answer count, no authority or additional records, the
/// question copied, then the answers.
pub open spec fn response_bytes(p: Seq<u8>, q: QueryFields, ips: Seq<[u8; 4]>) -> Seq<u8> {
    p.subrange(0, 2) + be16_bytes(response_flags(q.flags, q.qtype, ips.len())) + be16_bytes(1)
        + be16_bytes(ips.len() as u16) + be16_bytes(0) + be16_bytes(0) + p.subrange(
        12,
        q.question_end,
    ) + answer_records(ips)
}

/// Each answer record is 16 bytes.
proof fn lemma_answer_records_len(ips: Seq<[u8; 4]>)
    ensures
        answer_records(ips).len() == 16 * ips.len(),
    decreases ips.len(),
{
    if ips.len() > 0 {
        lemma_answer_records_len(ips.drop_last());
    }
}

/// Record `i` of the answer section is the `i`-th address's record: a
/// pointer to the question name, type A, class IN, TTL 60 s, length 4, then
/// that address.
proof fn lemma_answer_record_at(ips: Seq<[u8; 4]>, i: int, j: int)
    requires
        0 <= i < ips.len(),
        0 <= j < 16,
    ensures
        answer_records(ips)[16 * i + j] == seq![
            0xC0u8, 0x0C, 0, 1, 0, 1, 0, 0, 0, 60, 0, 4,
            ips[i]@[0], ips[i]@[1], ips[i]@[2], ips[i]@[3],
        ][j],
    decreases ips.len(),
{
    lemma_answer_records_len(ips.drop_last());
    if i < ips.len() - 1 {
        lemma_answer_record_at(ips.drop_last(), i, j);
    }
}

/// The bytes of the response flags: QR, AA and the query's RD bit in the
/// high byte, RA and the response code in the low one.
proof fn lemma_flag_bytes(flags: u16, rc: u16)
    by (bit_vector)
    requires
        rc == 0 || rc == 3,
    ensures
        (0x8000u16 | 0x0400u16 | (flags & 0x0100u16) | 0x0080u16 | rc) >= 0x8000,
        (0x8000u16 | 0x0400u16 | (flags & 0x0100u16) | 0x0080u16 | rc) / 256 == 0x84 + (flags / 256)
            % 2,
        (0x8000u16 | 0x0400u16 | (flags & 0x0100u16) | 0x0080u16 | rc) % 256 == 0x80 + rc,
{
}

/// A response answers the query it was built for: it carries the query's id,
/// has the response (QR) bit set, repeats the question section unchanged, and
/// holds one 16-byte record per address.
pub proof fn lemma_response_answers_query(p: Seq<u8>, ips: Seq<[u8; 4]>)
    requires
        parse_query(p) is Some,
        ips.len() <= 0xffff,
    ensures
        ({
            let q = parse_query(p)->Some_0;
            let r = response_bytes(p, q, ips);
            &&& r.subrange(0, 2) == p.subrange(0, 2)
            &&& r[2] >= 0x80
            &&& r.subrange(12, q.question_end) == p.subrange(12, q.question_end)
            &&& r.len() == q.question_end + 16 * ips.len()
            &&& r[6] as int * 256 + r[7] as int == ips.len()
        }),
{
    let q = parse_query(p)->Some_0;
    lemma_qname_end_after(p, 12, Seq::empty());
    lemma_answer_records_len(ips);
    let f = response_flags(q.flags, q.qtype, ips.len());
    lemma_flag_bytes(q.flags, if ips.len() == 0 && q.qtype == 1 {
        3u16
    } else {
        0u16
    });
    let r = response_bytes(p, q, ips);
    let head = p.subrange(0, 2) + be16_bytes(f) + be16_bytes(1) + be16_bytes(ips.len() as u16)
        + be16_bytes(0) + be16_bytes(0);
    assert(head.len() == 12);
    assert(r =~= head + p.subrange(12, q.question_end) + answer_records(ips));
    assert(r.subrange(0, 2) =~= p.subrange(0, 2));
    assert(r.subrange(12, q.question_end) =~= p.subrange(12, q.question_end));
}

/// The answers of a response are in the order of the addresses: past the
/// question, record `i` is 16 bytes whose last four are the `i`-th address.
pub proof fn lemma_response_carries_addresses(p: Seq<u8>, ips: Seq<[u8; 4]>, i: int, j: int)
    requires
        parse_query(p) is Some,
        0 <= i < ips.len(),
        0 <= j < 4,
    ensures
        ({
            let q = parse_query(p)->Some_0;
            let r = response_bytes(p, q, ips);
            &&& r.len() == q.question_end + 16 * ips.len()
            &&& r[q.question_end + 16 * i] == 0xC0
            &&& r[q.question_end + 16 * i + 1] == 0x0C
            &&& r[q.question_end + 16 * i + 12 + j] == ips[i]@[j]
        }),
{
    let q = parse_query(p)->Some_0;
    lemma_qname_end_after(p, 12, Seq::empty());
    lemma_answer_records_len(ips);
    lemma_answer_record_at(ips, i, 0);
    lemma_answer_record_at(ips, i, 1);
    lemma_answer_record_at(ips, i, 12 + j);
    let f = response_flags(q.flags, q.qtype, ips.len());
    let head = p.subrange(0, 2) + be16_bytes(f) + be16_bytes(1) + be16_bytes(ips.len() as u16)
        + be16_bytes(0) + be16_bytes(0);
    assert(head.len() == 12);
    let r = response_bytes(p, q, ips);
    let pre = head + p.subrange(12, q.question_end);
    assert(r =~= pre + answer_records(ips));
    assert(pre.len() == q.question_end);
}

/// The response header: the query's id, flags `0x84 | RD` then `0x80` with
/// response code 3 (name error) exactly for an `A` query without answers
/// and 0 otherwise, one question, as many answers as addresses, and no
/// authority or additional records.
pub proof fn lemma_response_header(p: Seq<u8>, ips: Seq<[u8; 4]>)
    requires
        parse_query(p) is Some,
        ips.len() <= 0xffff,
    ensures
        ({
            let q = parse_query(p)->Some_0;
            let r = response_bytes(p, q, ips);
            &&& r[0] == p[0] && r[1] == p[1]
            &&& r[2] == 0x84 + p[2] % 2
            &&& r[3] == 0x80 + if ips.len() == 0 && q.qtype == 1 {
                3int
            } else {
                0int
            }
            &&& r[4] == 0 && r[5] == 1
            &&& r[6] as int * 256 + r[7] as int == ips.len()
            &&& r[8] == 0 && r[9] == 0 && r[10] == 0 && r[11] == 0
        }),
{
    let q = parse_query(p)->Some_0;
    lemma_qname_end_after(p, 12, Seq::empty());
    let rc: u16 = if ips.len() == 0 && q.qtype == 1 {
        3u16
    } else {
        0u16
    };
    lemma_flag_bytes(q.flags, rc);
    let f = response_flags(q.flags, q.qtype, ips.len());
    assert(q.flags == be16(p, 2));
    assert(q.flags / 256 == p[2]);
    let head = p.subrange(0, 2) + be16_bytes(f) + be16_bytes(1) + be16_bytes(ips.len() as u16)
        + be16_bytes(0) + be16_bytes(0);
    let r = response_bytes(p, q, ips);
    assert(r =~= head + p.subrange(12, q.question_end) + answer_records(ips));
    assert(head.len() == 12);
}

/// `std::str::from_utf8`: succeeds exactly on well-formed UTF-8, which
/// `vstd::utf8::valid_utf8` states; only that verdict is used here.
#[verifier::external_body]
fn is_utf8(bytes: &[u8]) -> (r: bool)
    ensures
        r == valid_utf8(bytes@),
{
    std::str::from_utf8(bytes).is_ok()
}

/// An answerable DNS query.
#[derive(Debug, Clone, PartialEq, Eq)]
pub struct DnsQuery {
    /// Header flags of the query.
    pub flags: u16,
    /// The queried name, labels joined with `.`.
    pub name: Vec<u8>,
    /// The question type (1 = A).
    pub qtype: u16,
    /// Offset just past the question section.
    pub question_end: usize,
}

impl DnsQuery {
    /// The query as plain fields.
    pub open spec fn fields(&self) -> QueryFields {
        QueryFields {
            flags: self.flags,
            name: self.name@,
            qtype: self.qtype,
            question_end: self.question_end as int,
        }
    }

    /// Whether the query asks for IPv4 addresses, i.e. whether the name needs
    /// resolving.
    pub fn wants_a(&self) -> (r: bool)
        ensures
            r == (self.qtype == 1),
    {
        self.qtype == 1
    }
}

/// Reads the question name starting at byte 12.
fn scan_qname(p: &[u8]) -> (r: Option<(usize, Vec<u8>)>)
    requires
        p@.len() >= 12,
    ensures
        match qname_from(p@, 12, Seq::empty()) {
            None => r is None,
            Some((end, name)) => r matches Some((e, n)) && e == end && n@ == name,
        },
{
    let mut i: usize = 12;
    let mut name: Vec<u8> = Vec::new();
    while i < p.len()
        invariant
            12 <= i <= p@.len(),
            qname_from(p@, 12, Seq::empty()) == qname_from(p@, i as int, name@),
        decreases p@.len() - i,
    {
        let l = p[i] as usize;
        if l == 0 {
            return Some((i + 1, name));
        }
        if p[i] & 0xC0 == 0xC0 {
            return None;
        }
        if l > p.len() - (i + 1) {
            return None;
        }
        let label = &p[i + 1..i + 1 + l];
        assert(label@ == p@.subrange(i + 1, i + 1 + l));
        if !is_utf8(label) {
            return None;
        }
        let ghost old_name = name@;
        if name.len() > 0 {
            name.push(0x2e);
        }
        name.extend_from_slice(label);
        assert(name@ =~= (if old_name.len() == 0 {
            label@
        } else {
            old_name + seq![0x2eu8] + label@
        }));
        i = i + 1 + l;
    }
    None
}

/// Parses a UDP/53 payload into an answerable query.
pub fn parse_dns_query(udp_payload: &[u8]) -> (r: Option<DnsQuery>)
    ensures
        match parse_query(udp_payload@) {
            None => r is None,
            Some(f) => r matches Some(q) && q.fields() == f,
        },
{
    let n = udp_payload.len();
    if n < 12 {
        return None;
    }
    let flags: u16 = (udp_payload[2] as u16) * 256 + udp_payload[3] as u16;
    if flags >= 0x8000 {
        return None;
    }
    let qdcount: u16 = (udp_payload[4] as u16) * 256 + udp_payload[5] as u16;
    if qdcount != 1 {
        return None;
    }
    let (i, name) = match scan_qname(udp_payload) {
        Some(found) => found,
        None => return None,
    };
    if i > n || n - i < 4 {
        return None;
    }
    let qtype: u16 = (udp_payload[i] as u16) * 256 + udp_payload[i + 1] as u16;
    let qclass: u16 = (udp_payload[i + 2] as u16) * 256 + udp_payload[i + 3] as u16;
    if qclass != 1 {
        return None;
    }
    Some(DnsQuery { flags, name, qtype, question_end: i + 4 })
}

fn push_be16(out: &mut Vec<u8>, v: u16)
    ensures
        final(out)@ == old(out)@ + be16_bytes(v),
{
    out.push((v / 256) as u8);
    out.push((v % 256) as u8);
    assert(final(out)@ =~= old(out)@ + be16_bytes(v));
}

/// Builds the response to `query` (parsed from `udp_payload`) carrying the
/// addresses `answers`, which for an `A` query are what the resolver found for
/// its name and for any other type are empty.
pub fn build_dns_response(udp_payload: &[u8], query: &DnsQuery, answers: &[[u8; 4]]) -> (r: Vec<
    u8,
>)
    requires
        parse_query(udp_payload@) == Some(query.fields()),
    ensures
        r@ == response_bytes(udp_payload@, query.fields(), answers@),
{
    proof {
        lemma_qname_end_after(udp_payload@, 12, Seq::empty());
    }
    let mut out: Vec<u8> = Vec::new();
    out.push(udp_payload[0]);
    out.push(udp_payload[1]);
    let rd = query.flags & 0x0100;
    let rcode: u16 = if answers.len() == 0 && query.qtype == 1 {
        3
    } else {
        0
    };
    let rflags = 0x8000u16 | 0x0400u16 | rd | 0x0080u16 | rcode;
    push_be16(&mut out, rflags);
    push_be16(&mut out, 1);
    push_be16(&mut out, answers.len() as u16);
    push_be16(&mut out, 0);
    push_be16(&mut out, 0);
    let ghost header = out@;
    assert(header =~= udp_payload@.subrange(0, 2) + be16_bytes(
        response_flags(query.flags, query.qtype, answers@.len()),
    ) + be16_bytes(1) + be16_bytes(answers@.len() as u16) + be16_bytes(0) + be16_bytes(0));
    let mut j: usize = 12;
    while j < query.question_end
        invariant
            12 <= j <= query.question_end,
            query.question_end <= udp_payload@.len(),
            out@ == header + udp_payload@.subrange(12, j as int),
        decreases query.question_end - j,
    {
        out.push(udp_payload[j]);
        assert(udp_payload@.subrange(12, j + 1) =~= udp_payload@.subrange(12, j as int).push(
            udp_payload@[j as int],
        ));
        j = j + 1;
    }
    let ghost with_question = out@;
    let mut k: usize = 0;
    while k < answers.len()
        invariant
            0 <= k <= answers@.len(),
            out@ == with_question + answer_records(answers@.subrange(0, k as int)),
        decreases answers@.len() - k,
    {
        let ip = answers[k];
        let ghost before = out@;
        out.push(0xC0);
        out.push(0x0C);
        push_be16(&mut out, 1);
        push_be16(&mut out, 1);
        out.push(0);
        out.push(0);
        out.push(0);
        out.push(60);
        push_be16(&mut out, 4);
        out.push(ip[0]);
        out.push(ip[1]);
        out.push(ip[2]);
        out.push(ip[3]);
        assert(out@ =~= before + answer_record(ip));
        assert(answers@.subrange(0, k + 1).drop_last() =~= answers@.subrange(0, k as int));
        k = k + 1;
    }
    assert(answers@.subrange(0, answers@.len() as int) =~= answers@);
    out
}

/// Answers a UDP/53 payload: `None` unless it is an answerable query;
/// otherwise the response carrying `answers` if the query is for `A` records,
/// and no answers for any other type.
pub fn dns_respond(udp_payload: &[u8], answers: &[[u8; 4]]) -> (r: Option<Vec<u8>>)
    ensures
        match parse_query(udp_payload@) {
            None => r is None,
            Some(q) => r matches Some(out) && out@ == response_bytes(
                udp_payload@,
                q,
                if q.qtype == 1 {
                    answers@
                } else {
                    Seq::empty()
                },
            ),
        },
{
    let query = match parse_dns_query(udp_payload) {
        Some(q) => q,
        None => return None,
    };
    if query.wants_a() {
        Some(build_dns_response(udp_payload, &query, answers))
    } else {
        let none: [[u8; 4]; 0] = [];
        let out = build_dns_response(udp_payload, &query, &none);
        assert(none@ =~= Seq::<[u8; 4]>::empty());
        Some(out)
    }
}

} // verus!
