//! Responses the server builds from a request: sinkhole answers for blocked
//! queries, questions restored after a rewrite, and the domain and address
//! recorded in the query log.

use vstd::prelude::*;
use hickory_proto::op::Message;
use crate::dns::{
    answer_count, answer_data, append_queries_of, into_response, ipv6_text, ipv6_to_string,
    msg_answers, msg_header, msg_queries, msg_rest, push_a_answer, push_aaaa_answer, query_count,
    query_name, query_type, rename_answer, replace_queries_with, response_for, set_response_code,
    Answer, AnswerData, HeaderView, Question, RCODE_NOERROR, RCODE_NXDOMAIN, SINKHOLE_V4,
    SINKHOLE_V6, TYPE_A, TYPE_AAAA,
};
use crate::text::{push_char, trim_end_char, trim_end_matches_char};

verus! {

/// The sinkhole answers for a list of questions: `127.0.0.1` for each `A`
/// question and `::1` for each `AAAA` question, in order; other questions get none.
pub open spec fn blocked_answers(qs: Seq<Question>, ttl: u32) -> Seq<Answer>
    decreases qs.len(),
{
    if qs.len() == 0 {
        seq![]
    } else {
        let rest = blocked_answers(qs.drop_last(), ttl);
        let q = qs.last();
        if q.qtype == TYPE_A {
            rest.push(Answer { name: q.name, ttl, data: AnswerData::A(SINKHOLE_V4) })
        } else if q.qtype == TYPE_AAAA {
            rest.push(Answer { name: q.name, ttl, data: AnswerData::Aaaa(SINKHOLE_V6) })
        } else {
            rest
        }
    }
}

/// The response to a blocked request: same id and op code, the request's
/// questions, the sinkhole answers with the given TTL, and `NXDOMAIN` when
/// there is no answer (`NOERROR` otherwise).
pub fn blocked_response(msg: &Message, ttl: u32) -> (r: Message)
    ensures
        msg_queries(r) == msg_queries(*msg),
        msg_answers(r) == blocked_answers(msg_queries(*msg), ttl),
        msg_header(r) == (HeaderView {
            id: msg_header(*msg).id,
            is_response: true,
            op_code: msg_header(*msg).op_code,
            response_code: if blocked_answers(msg_queries(*msg), ttl).len() == 0 {
                RCODE_NXDOMAIN
            } else {
                RCODE_NOERROR
            },
        }),
{
    let fresh = response_for(msg);
    let mut response = into_response(fresh);
    append_queries_of(&mut response, msg);
    assert(msg_queries(response) =~= msg_queries(*msg));
    let ghost qs = msg_queries(*msg);
    let n = query_count(msg);
    let mut i: usize = 0;
    while i < n
        invariant
            n == qs.len(),
            qs == msg_queries(*msg),
            i <= n,
            msg_queries(response) == qs,
            msg_answers(response) == blocked_answers(qs.take(i as int), ttl),
            msg_header(response) == (HeaderView {
                id: msg_header(*msg).id,
                is_response: true,
                op_code: msg_header(*msg).op_code,
                response_code: RCODE_NOERROR,
            }),
        decreases n - i,
    {
        proof {
            assert(qs.take(i + 1).drop_last() =~= qs.take(i as int));
            assert(qs.take(i + 1).last() == qs[i as int]);
        }
        let t = query_type(msg, i);
        if t == TYPE_A {
            push_a_answer(&mut response, msg, i, ttl, SINKHOLE_V4);
        } else if t == TYPE_AAAA {
            push_aaaa_answer(&mut response, msg, i, ttl, SINKHOLE_V6);
        }
        i = i + 1;
    }
    assert(qs.take(n as int) =~= qs);
    if answer_count(&response) == 0 {
        set_response_code(&mut response, RCODE_NXDOMAIN);
    }
    response
}

/// Whether `r` is the response to the blocked request `msg` with sinkhole
/// answers valid for `ttl` seconds.
pub open spec fn blocked_reply(r: Message, msg: Message, ttl: u32) -> bool {
    &&& msg_queries(r) == msg_queries(msg)
    &&& msg_answers(r) == blocked_answers(msg_queries(msg), ttl)
    &&& msg_header(r) == (HeaderView {
        id: msg_header(msg).id,
        is_response: true,
        op_code: msg_header(msg).op_code,
        response_code: if blocked_answers(msg_queries(msg), ttl).len() == 0 {
            RCODE_NXDOMAIN
        } else {
            RCODE_NOERROR
        },
    })
}

/// Law: every answer of a blocked response points at the sinkhole, and there
/// is exactly one per `A` or `AAAA` question.
pub proof fn law_blocked_answers_are_sinkholed(qs: Seq<Question>, ttl: u32)
    ensures
        forall|k: int|
            0 <= k < blocked_answers(qs, ttl).len() ==> {
                let a = #[trigger] blocked_answers(qs, ttl)[k];
                &&& a.ttl == ttl
                &&& (a.data == AnswerData::A(SINKHOLE_V4) || a.data == AnswerData::Aaaa(
                    SINKHOLE_V6,
                ))
            },
        blocked_answers(qs, ttl).len() == address_question_count(qs),
    decreases qs.len(),
{
    if qs.len() > 0 {
        law_blocked_answers_are_sinkholed(qs.drop_last(), ttl);
    }
}

/// Whether `a` is the sinkhole answer to `q`: owned by its name, with TTL
/// `ttl`, and the sinkhole address of the question's own record type
/// (`127.0.0.1` for `A`, `::1` for `AAAA`).
pub open spec fn sinkholes(a: Answer, q: Question, ttl: u32) -> bool {
    &&& a.name == q.name
    &&& a.ttl == ttl
    &&& ((q.qtype == TYPE_A && a.data == AnswerData::A(SINKHOLE_V4)) || (q.qtype == TYPE_AAAA
        && a.data == AnswerData::Aaaa(SINKHOLE_V6)))
}

/// Law: every answer of a blocked response is the sinkhole answer to one of
/// the request's questions, with the address of that question's record
/// type, and every `A` or `AAAA` question gets its sinkhole answer.
pub proof fn law_sinkhole_answers_follow_question_types(qs: Seq<Question>, ttl: u32)
    ensures
        forall|k: int|
            0 <= k < blocked_answers(qs, ttl).len() ==> exists|i: int|
                0 <= i < qs.len() && sinkholes(#[trigger] blocked_answers(qs, ttl)[k], qs[i], ttl),
        forall|i: int|
            0 <= i < qs.len() && (qs[i].qtype == TYPE_A || qs[i].qtype == TYPE_AAAA) ==> exists|k: int|
                0 <= k < blocked_answers(qs, ttl).len() && sinkholes(
                    blocked_answers(qs, ttl)[k],
                    #[trigger] qs[i],
                    ttl,
                ),
    decreases qs.len(),
{
    if qs.len() > 0 {
        let p = qs.drop_last();
        let q = qs.last();
        let rest = blocked_answers(p, ttl);
        let all = blocked_answers(qs, ttl);
        law_sinkhole_answers_follow_question_types(p, ttl);
        assert forall|k: int| 0 <= k < all.len() implies exists|i: int|
            0 <= i < qs.len() && sinkholes(#[trigger] all[k], qs[i], ttl) by {
            if k < rest.len() {
                assert(all[k] == rest[k]);
                let i = choose|i: int| 0 <= i < p.len() && sinkholes(rest[k], p[i], ttl);
                assert(qs[i] == p[i]);
            } else {
                assert(sinkholes(all[k], qs[qs.len() - 1], ttl));
            }
        }
        assert forall|i: int|
            0 <= i < qs.len() && (qs[i].qtype == TYPE_A || qs[i].qtype == TYPE_AAAA) implies exists|k: int|
                0 <= k < all.len() && sinkholes(all[k], #[trigger] qs[i], ttl) by {
            if i < p.len() {
                assert(qs[i] == p[i]);
                let k = choose|k: int| 0 <= k < rest.len() && sinkholes(rest[k], p[i], ttl);
                assert(all[k] == rest[k]);
            } else {
                assert(qs[i] == q);
                assert(sinkholes(all[all.len() - 1], q, ttl));
            }
        }
    }
}

/// Number of `A` and `AAAA` questions.
pub open spec fn address_question_count(qs: Seq<Question>) -> nat
    decreases qs.len(),
{
    if qs.len() == 0 {
        0
    } else {
        address_question_count(qs.drop_last()) + if qs.last().qtype == TYPE_A || qs.last().qtype
            == TYPE_AAAA {
            1nat
        } else {
            0nat
        }
    }
}

/// `answers` with every owner name set to `name`.
pub open spec fn renamed(answers: Seq<Answer>, name: Seq<char>) -> Seq<Answer> {
    Seq::new(answers.len(), |k: int| Answer { name, ..answers[k] })
}

/// Puts back the questions of `original` into `response`, and, where
/// `original` has a question, renames every answer to the first one.
pub fn restore_original_queries(response: &mut Message, original: &Message)
    ensures
        msg_header(*final(response)) == msg_header(*old(response)),
        msg_queries(*final(response)) == msg_queries(*original),
        msg_answers(*final(response)) == if msg_queries(*original).len() > 0 {
            renamed(msg_answers(*old(response)), msg_queries(*original)[0].name)
        } else {
            msg_answers(*old(response))
        },
        msg_rest(*final(response)) == msg_rest(*old(response)),
{
    replace_queries_with(response, original);
    if query_count(original) > 0 {
        let ghost before = msg_answers(*response);
        let ghost name = msg_queries(*original)[0].name;
        let n = answer_count(response);
        let mut i: usize = 0;
        while i < n
            invariant
                n == before.len(),
                i <= n,
                msg_header(*response) == msg_header(*old(response)),
                msg_rest(*response) == msg_rest(*old(response)),
                msg_queries(*response) == msg_queries(*original),
                msg_queries(*original).len() > 0,
                name == msg_queries(*original)[0].name,
                msg_answers(*response).len() == n,
                forall|k: int| 0 <= k < i ==> #[trigger] msg_answers(*response)[k] == (Answer {
                    name,
                    ..before[k]
                }),
                forall|k: int| i <= k < n ==> #[trigger] msg_answers(*response)[k] == before[k],
            decreases n - i,
        {
            rename_answer(response, i, original, 0);
            i = i + 1;
        }
        assert(msg_answers(*response) =~= renamed(before, name));
    }
}

/// The domain of the first question, without trailing dots.
pub open spec fn query_domain_spec(qs: Seq<Question>) -> Option<Seq<char>> {
    if qs.len() > 0 {
        Some(trim_end_char(qs[0].name, '.'))
    } else {
        None
    }
}

/// The queried domain recorded for a message: its first question's name without trailing dots.
pub fn query_domain(msg: &Message) -> (r: Option<String>)
    ensures
        match (r, query_domain_spec(msg_queries(*msg))) {
            (Some(s), Some(t)) => s@ == t,
            (None, None) => true,
            _ => false,
        },
{
    if query_count(msg) == 0 {
        None
    } else {
        let name = query_name(msg, 0);
        Some(trim_end_matches_char(name.as_str(), '.'))
    }
}

/// Decimal digits of `n`, without leading zeros (`"0"` for zero).
pub open spec fn decimal(n: nat) -> Seq<char>
    decreases n,
{
    if n < 10 {
        seq![digit_char(n)]
    } else {
        decimal(n / 10).push(digit_char(n % 10))
    }
}

/// The character of a decimal digit.
pub open spec fn digit_char(d: nat) -> char {
    (('0' as nat) + d) as char
}

/// Dotted-decimal text of an IPv4 address given by its big-endian value.
pub open spec fn ipv4_text(x: u32) -> Seq<char> {
    decimal((x / 0x100_0000) as nat) + "."@ + decimal(((x / 0x1_0000) % 256) as nat) + "."@
        + decimal(((x / 0x100) % 256) as nat) + "."@ + decimal((x % 256) as nat)
}

/// Appends the decimal digits of a byte.
pub fn push_decimal(s: &mut String, n: u8)
    ensures
        final(s)@ == old(s)@ + decimal(n as nat),
{
    let ghost start = s@;
    if n >= 100 {
        let h: u8 = n / 100;
        let t: u8 = (n / 10) % 10;
        let o: u8 = n % 10;
        push_char(s, digit(h));
        push_char(s, digit(t));
        push_char(s, digit(o));
        let ghost nn = n as nat;
        assert(nn / 10 >= 10);
        assert((nn / 10) / 10 == h as nat);
        assert((nn / 10) % 10 == t as nat);
        assert(nn % 10 == o as nat);
        assert(decimal(h as nat) == seq![digit_char(h as nat)]);
        assert(decimal(nn / 10) == decimal(h as nat).push(digit_char(t as nat)));
        assert(decimal(nn) == decimal(nn / 10).push(digit_char(o as nat)));
        assert(s@ =~= start + decimal(n as nat));
    } else if n >= 10 {
        let t: u8 = n / 10;
        let o: u8 = n % 10;
        push_char(s, digit(t));
        push_char(s, digit(o));
        let ghost nn = n as nat;
        assert(nn / 10 == t as nat);
        assert(nn % 10 == o as nat);
        assert(decimal(t as nat) == seq![digit_char(t as nat)]);
        assert(decimal(nn) == decimal(nn / 10).push(digit_char(o as nat)));
        assert(s@ =~= start + decimal(n as nat));
    } else {
        push_char(s, digit(n));
        assert(s@ =~= start + decimal(n as nat));
    }
}

/// The character of decimal digit `d`.
pub fn digit(d: u8) -> (c: char)
    requires
        d < 10,
    ensures
        c == digit_char(d as nat),
{
    let code: u8 = 48 + d;
    code as char
}

/// Dotted-decimal text of an IPv4 address.
pub fn ipv4_to_string(x: u32) -> (s: String)
    ensures
        s@ == ipv4_text(x),
{
    let mut s = String::new();
    let a: u8 = (x / 0x100_0000) as u8;
    let b: u8 = ((x / 0x1_0000) % 256) as u8;
    let c: u8 = ((x / 0x100) % 256) as u8;
    let d: u8 = (x % 256) as u8;
    push_decimal(&mut s, a);
    push_char(&mut s, '.');
    push_decimal(&mut s, b);
    push_char(&mut s, '.');
    push_decimal(&mut s, c);
    push_char(&mut s, '.');
    push_decimal(&mut s, d);
    proof {
        reveal_strlit(".");
    }
    assert(s@ =~= ipv4_text(x));
    s
}

/// The text of the first address answer (`A` or `AAAA`) of a list of answers.
pub open spec fn first_address_text(answers: Seq<Answer>) -> Option<Seq<char>>
    decreases answers.len(),
{
    if answers.len() == 0 {
        None
    } else {
        match answers[0].data {
            AnswerData::A(x) => Some(ipv4_text(x)),
            AnswerData::Aaaa(x) => Some(ipv6_text(x)),
            AnswerData::Other => first_address_text(answers.drop_first()),
        }
    }
}

/// The address of the first `A` or `AAAA` answer, as text.
pub fn first_answer_ip(response: &Message) -> (r: Option<String>)
    ensures
        match (r, first_address_text(msg_answers(*response))) {
            (Some(s), Some(t)) => s@ == t,
            (None, None) => true,
            _ => false,
        },
{
    let ghost all = msg_answers(*response);
    let n = answer_count(response);
    let mut i: usize = 0;
    assert(all.skip(0) =~= all);
    while i < n
        invariant
            n == all.len(),
            all == msg_answers(*response),
            i <= n,
            first_address_text(all) == first_address_text(all.skip(i as int)),
        decreases n - i,
    {
        proof {
            assert(all.skip(i as int)[0] == all[i as int]);
            assert(all.skip(i as int).drop_first() =~= all.skip(i + 1));
        }
        match answer_data(response, i) {
            AnswerData::A(x) => {
                return Some(ipv4_to_string(x));
            },
            AnswerData::Aaaa(x) => {
                return Some(ipv6_to_string(x));
            },
            AnswerData::Other => {},
        }
        i = i + 1;
    }
    None
}

} // verus!
