//! DNS messages: the parts of a message that the server's logic reads and
//! writes, the hickory-proto calls that read and write them, and the
//! responses the server builds (sinkhole answers, restored questions).

use vstd::prelude::*;
use hickory_proto::op::Message;
use crate::text::{trim_end_char, trim_end_matches_char};

verus! {

/// A DNS message (hickory-proto `Message`), carried opaquely; its parts are
/// known through `msg_header`, `msg_queries` and `msg_answers`.
#[verifier::external_type_specification]
#[verifier::external_body]
pub struct ExMessage(hickory_proto::op::Message);

/// The header fields the server reads or writes.
pub struct HeaderView {
    pub id: u16,
    pub is_response: bool,
    pub op_code: u8,
    pub response_code: u16,
}

/// A question: its name as hickory displays it (with the trailing dot of a
/// fully qualified name) and its record type code.
pub struct Question {
    pub name: Seq<char>,
    pub qtype: u16,
}

/// The data of an answer record, as far as the server reads it.
pub enum AnswerData {
    /// An IPv4 address (big-endian value of the four octets).
    A(u32),
    /// An IPv6 address (big-endian value of the sixteen octets).
    Aaaa(u128),
    /// Any other record data.
    Other,
}

/// An answer record: owner name as hickory displays it, TTL, and data.
pub struct Answer {
    pub name: Seq<char>,
    pub ttl: u32,
    pub data: AnswerData,
}

/// Record type code of an `A` record.
pub const TYPE_A: u16 = 1;

/// Record type code of an `AAAA` record.
pub const TYPE_AAAA: u16 = 28;

/// Response code `NOERROR`.
pub const RCODE_NOERROR: u16 = 0;

/// Response code `SERVFAIL`.
pub const RCODE_SERVFAIL: u16 = 2;

/// Response code `NXDOMAIN`.
pub const RCODE_NXDOMAIN: u16 = 3;

/// `127.0.0.1`, the sinkhole IPv4 address.
pub const SINKHOLE_V4: u32 = 0x7f00_0001;

/// `::1`, the sinkhole IPv6 address.
pub const SINKHOLE_V6: u128 = 1;

/// Header of a message: `id`, whether its type is `Response`, the numeric
/// op code (`u8::from(OpCode)`) and the numeric response code (`u16::from(ResponseCode)`).
pub uninterp spec fn msg_header(m: Message) -> HeaderView;

/// The question section of a message, in order.
pub uninterp spec fn msg_queries(m: Message) -> Seq<Question>;

/// The answer section of a message, in order.
pub uninterp spec fn msg_answers(m: Message) -> Seq<Answer>;

/// The parts of a message outside the header view and the question and
/// answer sections: the remaining header flags (AA, TC, RD, RA, AD, CD), the
/// authority and additional sections, the signature and the EDNS part. It is
/// the message itself with id 0, type `Query`, op code `Query`, response code
/// `NoError`, and no questions or answers.
pub uninterp spec fn msg_rest(m: Message) -> Message;

/// What `Message::from_vec` gives for `bytes`: `None` where decoding fails,
/// otherwise the header, questions and answers of the decoded message.
pub uninterp spec fn wire_message(bytes: Seq<u8>) -> Option<(HeaderView, Seq<Question>, Seq<Answer>)>;

/// The text (`to_string`) of the name that `Name::from_str` parses from `s`,
/// or `None` where `s` is not a valid name.
pub uninterp spec fn parsed_name_text(s: Seq<char>) -> Option<Seq<char>>;

/// The text hickory's `AAAA` `Display` gives for the address with value `x`.
pub uninterp spec fn ipv6_text(x: u128) -> Seq<char>;

/// Decodes a message from wire format (`Message::from_vec`).
#[verifier::external_body]
pub(crate) fn decode_message(bytes: &[u8]) -> (r: Option<Message>)
    ensures
        match r {
            Some(m) => wire_message(bytes@) == Some(
                (msg_header(m), msg_queries(m), msg_answers(m)),
            ),
            None => wire_message(bytes@) is None,
        },
{
    Message::from_vec(bytes).ok()
}

/// `Message::clone` (derived, field by field) gives a message with the same parts.
pub assume_specification[ <hickory_proto::op::Message as std::clone::Clone>::clone ](
    m: &hickory_proto::op::Message,
) -> (r: hickory_proto::op::Message)
    ensures
        msg_header(r) == msg_header(*m),
        msg_queries(r) == msg_queries(*m),
        msg_answers(r) == msg_answers(*m),
        msg_rest(r) == msg_rest(*m),
;

/// An empty query message (`Message::new(0, Query, Query)`), used to collect records.
#[verifier::external_body]
pub(crate) fn empty_message() -> (r: Message)
    ensures
        msg_queries(r) == Seq::<Question>::empty(),
        msg_answers(r) == Seq::<Answer>::empty(),
{
    Message::new(0, hickory_proto::op::MessageType::Query, hickory_proto::op::OpCode::Query)
}

/// A fresh response with the id and op code of `m` and no records
/// (`Message::response(id, op_code)`).
#[verifier::external_body]
pub(crate) fn response_for(m: &Message) -> (r: Message)
    ensures
        msg_header(r) == (HeaderView {
            id: msg_header(*m).id,
            is_response: true,
            op_code: msg_header(*m).op_code,
            response_code: RCODE_NOERROR,
        }),
        msg_queries(r) == Seq::<Question>::empty(),
        msg_answers(r) == Seq::<Answer>::empty(),
{
    Message::response(m.metadata.id, m.metadata.op_code)
}

/// The same message with its type set to `Response` (`Message::into_response`),
/// all else kept.
#[verifier::external_body]
pub(crate) fn into_response(m: Message) -> (r: Message)
    ensures
        msg_header(r) == (HeaderView { is_response: true, ..msg_header(m) }),
        msg_queries(r) == msg_queries(m),
        msg_answers(r) == msg_answers(m),
        msg_rest(r) == msg_rest(m),
{
    m.into_response()
}

/// Sets the response code (`metadata.response_code = ResponseCode::from(code)`).
#[verifier::external_body]
pub(crate) fn set_response_code(m: &mut Message, code: u16)
    ensures
        msg_header(*final(m)) == (HeaderView { response_code: code, ..msg_header(*old(m)) }),
        msg_queries(*final(m)) == msg_queries(*old(m)),
        msg_answers(*final(m)) == msg_answers(*old(m)),
        msg_rest(*final(m)) == msg_rest(*old(m)),
{
    m.metadata.response_code = code.into();
}

/// Number of questions.
#[verifier::external_body]
pub(crate) fn query_count(m: &Message) -> (n: usize)
    ensures
        n == msg_queries(*m).len(),
{
    m.queries.len()
}

/// Number of answers.
#[verifier::external_body]
pub(crate) fn answer_count(m: &Message) -> (n: usize)
    ensures
        n == msg_answers(*m).len(),
{
    m.answers.len()
}

/// Name of question `i` (`Name::to_string`).
#[verifier::external_body]
pub(crate) fn query_name(m: &Message, i: usize) -> (s: String)
    requires
        i < msg_queries(*m).len(),
    ensures
        s@ == msg_queries(*m)[i as int].name,
{
    m.queries[i].name.to_string()
}

/// Record type code of question `i` (`u16::from(RecordType)`).
#[verifier::external_body]
pub(crate) fn query_type(m: &Message, i: usize) -> (t: u16)
    requires
        i < msg_queries(*m).len(),
    ensures
        t == msg_queries(*m)[i as int].qtype,
{
    u16::from(m.queries[i].query_type)
}

/// Data of answer `i`.
#[verifier::external_body]
pub(crate) fn answer_data(m: &Message, i: usize) -> (d: AnswerData)
    requires
        i < msg_answers(*m).len(),
    ensures
        d == msg_answers(*m)[i as int].data,
{
    match &m.answers[i].data {
        hickory_proto::rr::RData::A(a) => AnswerData::A(u32::from(a.0)),
        hickory_proto::rr::RData::AAAA(a) => AnswerData::Aaaa(u128::from(a.0)),
        _ => AnswerData::Other,
    }
}

/// TTL of answer `i` (`Record::ttl`).
#[verifier::external_body]
pub(crate) fn answer_ttl(m: &Message, i: usize) -> (t: u32)
    requires
        i < msg_answers(*m).len(),
    ensures
        t == msg_answers(*m)[i as int].ttl,
{
    m.answers[i].ttl
}

/// Appends a copy of every question of `src` (`Message::add_queries`).
#[verifier::external_body]
pub(crate) fn append_queries_of(dst: &mut Message, src: &Message)
    ensures
        msg_header(*final(dst)) == msg_header(*old(dst)),
        msg_queries(*final(dst)) == msg_queries(*old(dst)) + msg_queries(*src),
        msg_answers(*final(dst)) == msg_answers(*old(dst)),
        msg_rest(*final(dst)) == msg_rest(*old(dst)),
{
    dst.add_queries(src.queries.clone());
}

/// Replaces the question section by a copy of that of `src` (`queries = src.queries.clone()`).
#[verifier::external_body]
pub(crate) fn replace_queries_with(dst: &mut Message, src: &Message)
    ensures
        msg_header(*final(dst)) == msg_header(*old(dst)),
        msg_queries(*final(dst)) == msg_queries(*src),
        msg_answers(*final(dst)) == msg_answers(*old(dst)),
        msg_rest(*final(dst)) == msg_rest(*old(dst)),
{
    dst.queries = src.queries.clone();
}

/// Appends a copy of every answer of `src` (`answers.extend`).
#[verifier::external_body]
pub(crate) fn append_answers_of(dst: &mut Message, src: &Message)
    ensures
        msg_header(*final(dst)) == msg_header(*old(dst)),
        msg_queries(*final(dst)) == msg_queries(*old(dst)),
        msg_answers(*final(dst)) == msg_answers(*old(dst)) + msg_answers(*src),
        msg_rest(*final(dst)) == msg_rest(*old(dst)),
{
    dst.answers.extend(src.answers.iter().cloned());
}

/// Appends an `A` answer owned by the name of question `qi` of `src`
/// (`Record::from_rdata(name, ttl, RData::A(..))` and `Message::add_answer`).
#[verifier::external_body]
pub(crate) fn push_a_answer(dst: &mut Message, src: &Message, qi: usize, ttl: u32, addr: u32)
    requires
        qi < msg_queries(*src).len(),
    ensures
        msg_header(*final(dst)) == msg_header(*old(dst)),
        msg_queries(*final(dst)) == msg_queries(*old(dst)),
        msg_answers(*final(dst)) == msg_answers(*old(dst)).push(
            Answer { name: msg_queries(*src)[qi as int].name, ttl, data: AnswerData::A(addr) },
        ),
        msg_rest(*final(dst)) == msg_rest(*old(dst)),
{
    let rdata = hickory_proto::rr::RData::A(hickory_proto::rr::rdata::A(addr.into()));
    dst.add_answer(hickory_proto::rr::Record::from_rdata(src.queries[qi].name.clone(), ttl, rdata));
}

/// Appends an `AAAA` answer owned by the name of question `qi` of `src`
/// (`Record::from_rdata(name, ttl, RData::AAAA(..))` and `Message::add_answer`).
#[verifier::external_body]
pub(crate) fn push_aaaa_answer(dst: &mut Message, src: &Message, qi: usize, ttl: u32, addr: u128)
    requires
        qi < msg_queries(*src).len(),
    ensures
        msg_header(*final(dst)) == msg_header(*old(dst)),
        msg_queries(*final(dst)) == msg_queries(*old(dst)),
        msg_answers(*final(dst)) == msg_answers(*old(dst)).push(
            Answer { name: msg_queries(*src)[qi as int].name, ttl, data: AnswerData::Aaaa(addr) },
        ),
        msg_rest(*final(dst)) == msg_rest(*old(dst)),
{
    let rdata = hickory_proto::rr::RData::AAAA(hickory_proto::rr::rdata::AAAA(addr.into()));
    dst.add_answer(hickory_proto::rr::Record::from_rdata(src.queries[qi].name.clone(), ttl, rdata));
}

/// Gives answer `i` the name of question `qi` of `src` (`answers[i].name = ..`).
#[verifier::external_body]
pub(crate) fn rename_answer(dst: &mut Message, i: usize, src: &Message, qi: usize)
    requires
        i < msg_answers(*old(dst)).len(),
        qi < msg_queries(*src).len(),
    ensures
        msg_header(*final(dst)) == msg_header(*old(dst)),
        msg_queries(*final(dst)) == msg_queries(*old(dst)),
        msg_answers(*final(dst)) == msg_answers(*old(dst)).update(
            i as int,
            Answer { name: msg_queries(*src)[qi as int].name, ..msg_answers(*old(dst))[i as int] },
        ),
        msg_rest(*final(dst)) == msg_rest(*old(dst)),
{
    dst.answers[i].name = src.queries[qi].name.clone();
}

/// Appends a question for the name parsed from `name` with type `qtype`
/// (`Name::from_str`, `Query::query`, `Message::add_query`); `false`, and no
/// change, where `name` does not parse.
#[verifier::external_body]
pub(crate) fn push_named_query(dst: &mut Message, name: &str, qtype: u16) -> (ok: bool)
    ensures
        ok == parsed_name_text(name@) is Some,
        msg_header(*final(dst)) == msg_header(*old(dst)),
        msg_answers(*final(dst)) == msg_answers(*old(dst)),
        msg_queries(*final(dst)) == if ok {
            msg_queries(*old(dst)).push(
                Question { name: parsed_name_text(name@)->Some_0, qtype },
            )
        } else {
            msg_queries(*old(dst))
        },
        msg_rest(*final(dst)) == msg_rest(*old(dst)),
{
    match <hickory_proto::rr::Name as std::str::FromStr>::from_str(name) {
        Ok(n) => {
            dst.add_query(hickory_proto::op::Query::query(n, qtype.into()));
            true
        },
        Err(_) => false,
    }
}

/// The text of an IPv6 address (hickory `AAAA`'s `Display`, which writes the `Ipv6Addr`).
#[verifier::external_body]
pub(crate) fn ipv6_to_string(x: u128) -> (s: String)
    ensures
        s@ == ipv6_text(x),
{
    hickory_proto::rr::rdata::AAAA(x.into()).to_string()
}

} // verus!
