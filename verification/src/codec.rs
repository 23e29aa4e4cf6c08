//! The bytes of a query, and the transaction id of a reply.
//!
//! Packets are built and parsed by the `dns_parser` crate. What this module
//! adds is stated over plain bytes: which names can be put into a query, what
//! the finished query looks like on the wire, and where a reply carries its
//! transaction id.

use vstd::prelude::*;
use vstd::string::StringSliceAdditionalSpecFns;

verus! {

/// The record type that a query asks for.
#[derive(Clone, Copy, Debug, PartialEq, Eq, Structural)]
pub enum RecordType {
    /// An IPv4 host address.
    A,
    /// An IPv6 host address.
    AAAA,
}

impl RecordType {
    /// The code of the record type in the question section.
    pub open spec fn code(self) -> u16 {
        match self {
            RecordType::A => 1,
            RecordType::AAAA => 28,
        }
    }

    /// The record type that the text names: `A` or `AAAA`, nothing else.
    pub open spec fn named_by(text: Seq<char>) -> Option<RecordType> {
        if text == seq!['A'] {
            Some(RecordType::A)
        } else if text == seq!['A', 'A', 'A', 'A'] {
            Some(RecordType::AAAA)
        } else {
            None
        }
    }

    /// Reads a record type from its name. Only `A` and `AAAA` are record
    /// types of this generator; any other text gives `None`.
    pub fn parse(text: &str) -> (r: Option<RecordType>)
        ensures
            r == RecordType::named_by(text@),
    {
        let n: usize = text.unicode_len();
        if n == 1 {
            if text.get_char(0) == 'A' {
                assert(text@ =~= seq!['A']);
                return Some(RecordType::A);
            }
            None
        } else if n == 4 {
            if text.get_char(0) == 'A' && text.get_char(1) == 'A' && text.get_char(2) == 'A'
                && text.get_char(3) == 'A' {
                assert(text@ =~= seq!['A', 'A', 'A', 'A']);
                return Some(RecordType::AAAA);
            }
            None
        } else {
            None
        }
    }
}

/// The class that a query asks in.
#[derive(Clone, Copy, Debug, PartialEq, Eq, Structural)]
pub enum QueryClass {
    /// The Internet.
    IN,
    /// CSNET.
    CS,
    /// CHAOS.
    CH,
    /// Hesiod.
    HS,
    /// Any class.
    Any,
}

impl QueryClass {
    /// The code of the class in the question section.
    pub open spec fn code(self) -> u16 {
        match self {
            QueryClass::IN => 1,
            QueryClass::CS => 2,
            QueryClass::CH => 3,
            QueryClass::HS => 4,
            QueryClass::Any => 255,
        }
    }
}

/// The byte that separates the labels of a name.
pub const DOT: u8 = 46;

/// A label must be shorter than this many bytes to be put into a query.
pub const LABEL_LIMIT: usize = 63;

/// The largest query, in bytes, that is sent.
pub const MAX_QUERY_LEN: usize = 512;

/// Bytes that a query holds besides the name itself: the header (12), the
/// length byte of the first label, the byte that ends the name, the record
/// type (2) and the class (2).
pub const QUERY_OVERHEAD: usize = 18;

/// The two bytes of `x`, high byte first.
pub open spec fn be16(x: u16) -> Seq<u8> {
    seq![(x / 256) as u8, (x % 256) as u8]
}

/// Length of the first label of `name`: the number of bytes before the first
/// dot, or all of them where there is no dot.
pub open spec fn first_label_len(name: Seq<u8>) -> nat
    decreases name.len(),
{
    if name.len() == 0 || name[0] == DOT {
        0
    } else {
        1 + first_label_len(name.drop_first())
    }
}

/// Every label of `name`, the parts between its dots, is shorter than 63
/// bytes. A name without a dot is one label; next to a dot at either end,
/// and between two dots in a row, stands an empty label.
pub open spec fn labels_fit(name: Seq<u8>) -> bool
    decreases name.len(),
{
    let n = first_label_len(name);
    n < LABEL_LIMIT && (n < name.len() ==> labels_fit(name.skip(n as int + 1)))
}

/// The name as a question carries it: each label behind a byte that holds its
/// length, and a zero byte at the end.
pub open spec fn wire_name(name: Seq<u8>) -> Seq<u8>
    decreases name.len(),
{
    let n = first_label_len(name);
    seq![n as u8] + name.take(n as int) + if n < name.len() {
        wire_name(name.skip(n as int + 1))
    } else {
        seq![0u8]
    }
}

/// A name can be put into a query: its labels fit, and the query stays
/// within 512 bytes.
pub open spec fn can_encode(name: Seq<u8>) -> bool {
    labels_fit(name) && name.len() + QUERY_OVERHEAD <= MAX_QUERY_LEN
}

/// The query for `name` with transaction id `id`: a header that asks for
/// recursion and announces one question, then the question, in class IN.
pub open spec fn query_wire(id: u16, name: Seq<u8>, query_type: RecordType) -> Seq<u8> {
    be16(id) + seq![1u8, 0u8] + be16(1) + seq![0u8, 0u8, 0u8, 0u8, 0u8, 0u8] + wire_name(name)
        + be16(query_type.code()) + be16(QueryClass::IN.code())
}

/// The first label ends at a dot or at the end of the name, and holds no dot.
pub proof fn lemma_first_label(name: Seq<u8>)
    ensures
        first_label_len(name) <= name.len(),
        first_label_len(name) < name.len() ==> name[first_label_len(name) as int] == DOT,
        forall|i: int| 0 <= i < first_label_len(name) ==> name[i] != DOT,
    decreases name.len(),
{
    if name.len() == 0 || name[0] == DOT {
    } else {
        let rest = name.drop_first();
        lemma_first_label(rest);
        assert forall|i: int| 0 <= i < first_label_len(name) implies name[i] != DOT by {
            if i > 0 {
                assert(name[i] == rest[i - 1]);
            }
        }
    }
}

/// A name grows by two bytes when it is put into a question.
pub proof fn lemma_wire_name_len(name: Seq<u8>)
    ensures
        wire_name(name).len() == name.len() + 2,
    decreases name.len(),
{
    let n = first_label_len(name);
    lemma_first_label(name);
    if n < name.len() {
        lemma_wire_name_len(name.skip(n as int + 1));
    }
}

/// The packet builder of `dns_parser`, carried through as it is.
#[verifier::external_type_specification]
#[verifier::external_body]
pub struct ExBuilder(dns_parser::Builder);

/// The bytes that a builder has written so far.
pub uninterp spec fn builder_bytes(b: dns_parser::Builder) -> Seq<u8>;

/// The packet accepted by the parser of `dns_parser`: a well-formed header,
/// and as many well-formed questions and records behind it as the header
/// announces.
pub uninterp spec fn packet_accepted(data: Seq<u8>) -> bool;

/// The header of a query without questions: the id, the flags with nothing
/// set but, on request, the wish for recursion, and four counts of zero.
pub open spec fn empty_query(id: u16, recursion: bool) -> Seq<u8> {
    be16(id) + seq![if recursion { 1u8 } else { 0u8 }, 0u8] + seq![
        0u8,
        0u8,
        0u8,
        0u8,
        0u8,
        0u8,
        0u8,
        0u8,
    ]
}

/// The number of questions that the header in `packet` announces.
pub open spec fn question_count(packet: Seq<u8>) -> int {
    packet[4] as int * 256 + packet[5] as int
}

/// The class field of a question: the code of the class, with the top bit
/// set where a unicast response is preferred.
pub open spec fn class_field(class: QueryClass, prefer_unicast: bool) -> u16 {
    if prefer_unicast {
        (0x8000 + class.code()) as u16
    } else {
        class.code()
    }
}

/// `packet` with one more question, for `name`, at its end and in its count.
pub open spec fn with_question(
    packet: Seq<u8>,
    name: Seq<u8>,
    prefer_unicast: bool,
    query_type: RecordType,
    class: QueryClass,
) -> Seq<u8> {
    packet.subrange(0, 4) + be16((question_count(packet) + 1) as u16) + packet.subrange(
        6,
        packet.len() as int,
    ) + wire_name(name) + be16(query_type.code()) + be16(class_field(class, prefer_unicast))
}

/// `dns_parser::Builder::new_query`: starts a query. The builder then holds
/// the twelve bytes of a header with the given id, the recursion flag as
/// asked, every other flag clear and all four counts zero.
#[verifier::external_body]
fn new_query(id: u16, recursion: bool) -> (b: dns_parser::Builder)
    ensures
        builder_bytes(b) == empty_query(id, recursion),
{
    dns_parser::Builder::new_query(id, recursion)
}

/// `dns_parser::Builder::add_question`. It panics once a record has been
/// written behind the questions, on a label of 63 bytes or more, and at
/// 65535 questions: the caller rules these out. The builder then holds one
/// question more: the name label by label, the record type and the class
/// follow what was there, and the count of questions in the header is one
/// higher.
#[verifier::external_body]
fn add_question(
    b: &mut dns_parser::Builder,
    name: &str,
    prefer_unicast: bool,
    query_type: RecordType,
    class: QueryClass,
)
    requires
        builder_bytes(*old(b)).len() >= 12,
        forall|i: int| 6 <= i < 12 ==> builder_bytes(*old(b))[i] == 0,
        question_count(builder_bytes(*old(b))) < 65535,
        labels_fit(name.spec_bytes()),
    ensures
        builder_bytes(*final(b)) == with_question(
            builder_bytes(*old(b)),
            name.spec_bytes(),
            prefer_unicast,
            query_type,
            class,
        ),
{
    let qtype = match query_type {
        RecordType::A => dns_parser::QueryType::A,
        RecordType::AAAA => dns_parser::QueryType::AAAA,
    };
    let qclass = match class {
        QueryClass::IN => dns_parser::QueryClass::IN,
        QueryClass::CS => dns_parser::QueryClass::CS,
        QueryClass::CH => dns_parser::QueryClass::CH,
        QueryClass::HS => dns_parser::QueryClass::HS,
        QueryClass::Any => dns_parser::QueryClass::Any,
    };
    b.add_question(name, prefer_unicast, qtype, qclass);
}

/// `dns_parser::Builder::build`: hands out the packet where it is no longer
/// than 512 bytes. A longer one comes back from the builder marked as
/// truncated; it is dropped here.
#[verifier::external_body]
fn build(b: dns_parser::Builder) -> (r: Option<Vec<u8>>)
    ensures
        r is Some <==> builder_bytes(b).len() <= MAX_QUERY_LEN,
        r matches Some(packet) ==> packet@ == builder_bytes(b),
{
    match b.build() {
        Ok(packet) => Some(packet),
        Err(_) => None,
    }
}

/// The transaction id that `data` carries, where the parser accepts `data`:
/// the first two bytes, high byte first.
pub open spec fn reply_id(data: Seq<u8>) -> Option<u16> {
    if packet_accepted(data) {
        Some((data[0] as int * 256 + data[1] as int) as u16)
    } else {
        None
    }
}

/// `dns_parser::Packet::parse`, of which only the transaction id is kept.
/// The parser reads the id from the first two bytes of the header, high
/// byte first, and accepts nothing shorter than a header of twelve bytes.
#[verifier::external_body]
pub(crate) fn parse_id(data: &[u8]) -> (r: Option<u16>)
    ensures
        r is Some <==> packet_accepted(data@),
        r == reply_id(data@),
        r is Some ==> data@.len() >= 12,
{
    match dns_parser::Packet::parse(data) {
        Ok(packet) => Some(packet.header.id),
        Err(_) => None,
    }
}

/// Tells whether every label of `name` is shorter than 63 bytes.
pub fn check_labels(name: &[u8]) -> (ok: bool)
    ensures
        ok == labels_fit(name@),
{
    let n: usize = name.len();
    let mut start: usize = 0;
    assert(name@.skip(0) =~= name@);
    loop
        invariant
            n == name@.len(),
            start <= n,
            labels_fit(name@) == labels_fit(name@.skip(start as int)),
        decreases n - start,
    {
        let ghost rest = name@.skip(start as int);
        let mut end: usize = start;
        while end < n && name[end] != DOT
            invariant
                n == name@.len(),
                start <= end <= n,
                rest == name@.skip(start as int),
                first_label_len(rest) == (end - start) + first_label_len(name@.skip(end as int)),
            decreases n - end,
        {
            proof {
                let here = name@.skip(end as int);
                assert(here.drop_first() =~= name@.skip(end as int + 1));
            }
            end += 1;
        }
        assert(first_label_len(rest) == end - start);
        if end - start >= LABEL_LIMIT {
            return false;
        }
        if end == n {
            return true;
        }
        proof {
            assert(rest.skip((end - start) as int + 1) =~= name@.skip(end as int + 1));
        }
        start = end + 1;
    }
}

/// Tells whether a query can be built for `domain`.
pub fn encodable(domain: &str) -> (ok: bool)
    ensures
        ok == can_encode(domain.spec_bytes()),
{
    let name = domain.as_bytes();
    name.len() <= MAX_QUERY_LEN - QUERY_OVERHEAD && check_labels(name)
}

/// Builds the query for `domain` with transaction id `id`.
///
/// The builder is asked for a question that prefers a unicast response; the
/// bit that says so is then cleared again in the finished packet, so the
/// class that goes out is plain IN. A name that cannot be encoded gives
/// `None`.
pub fn build_query(id: u16, domain: &str, query_type: RecordType) -> (r: Option<Vec<u8>>)
    ensures
        r is Some <==> can_encode(domain.spec_bytes()),
        r matches Some(packet) ==> packet@ == query_wire(id, domain.spec_bytes(), query_type),
{
    if !encodable(domain) {
        return None;
    }
    let mut builder = new_query(id, true);
    add_question(&mut builder, domain, true, query_type, QueryClass::IN);
    proof {
        lemma_wire_name_len(domain.spec_bytes());
    }
    match build(builder) {
        Some(mut packet) => {
            let n: usize = packet.len();
            packet.set(n - 2, 0);
            assert(packet@ =~= query_wire(id, domain.spec_bytes(), query_type));
            Some(packet)
        },
        None => None,
    }
}

} // verus!
