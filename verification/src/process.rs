//! The path of a request through the server: decoding and rewriting, the
//! engine's verdict, the answer cache, the upstream resolver's answer or
//! failure, and the response that goes back.
//!
//! The engine and the resolver are reached through channels and network
//! calls, so the path is split into steps; the caller runs the outside work
//! between them and hands each step what came back.

use vstd::prelude::*;
use hickory_proto::op::Message;
use crate::blocking::{cache_key, key_of, BlockResult};
use crate::cache::{cached_response, CacheKey, CacheLookup, DnsCache, ResolvedCacheEntry, MAX_NEGATIVE_TTL};
use crate::dns::{
    answer_count, answer_ttl, append_answers_of, decode_message, empty_message, into_response,
    msg_answers, msg_header, msg_queries, msg_rest, query_count, set_response_code, wire_message, Answer,
    HeaderView, Question, RCODE_NOERROR, RCODE_NXDOMAIN, RCODE_SERVFAIL,
};
use crate::response::{blocked_reply, blocked_response, renamed, restore_original_queries};
use crate::rewrite::{
    apply_rewrites, rewrites_compiled, rewrites_view, rw_queries, rw_start, Rewrite, RewriteError,
    RewriteResult, RewriteView, RwFlow,
};

verus! {

/// TTL, in seconds, of the sinkhole answers the blocking engine gives.
pub const ENGINE_BLOCKED_TTL: u32 = 300;

/// TTL, in seconds, of the sinkhole answers the request path gives.
pub const PIPELINE_BLOCKED_TTL: u32 = 5;

/// TTL, in seconds, used where the upstream gives none to go by.
pub const DEFAULT_TTL: u32 = 60;

/// The response to a blocked request, with sinkhole answers valid for five minutes.
pub fn handle_blocked_response(msg: &Message) -> (r: Message)
    ensures
        blocked_reply(r, *msg, ENGINE_BLOCKED_TTL),
{
    blocked_response(msg, ENGINE_BLOCKED_TTL)
}

/// Why a request got no response.
#[derive(Debug, Clone, Copy, PartialEq, Eq, Structural)]
pub enum ProcessError {
    /// The bytes are not a DNS message.
    Malformed,
    /// A rewrite names something that is not a domain name.
    InvalidRewrite,
    /// The request has no question to resolve.
    NoQuestion,
    /// The upstream resolver failed in a way that has no DNS answer.
    Upstream,
}

/// The view of the configured rewrites.
pub open spec fn opt_rewrites_view(o: Option<Vec<Rewrite>>) -> Option<Seq<RewriteView>> {
    match o {
        Some(v) => Some(rewrites_view(v@)),
        None => None,
    }
}

/// Whether every configured rewrite that matches by regex has been compiled.
pub open spec fn rewrites_ready(o: Option<Vec<Rewrite>>) -> bool {
    match o {
        Some(v) => rewrites_compiled(rewrites_view(v@)),
        None => true,
    }
}

/// What the rewrites `rs` make of a message with header `h`, questions `qs`
/// and answers `ans`: the report and the new header, questions and answers,
/// or `None` where a rewrite names an invalid name.
pub open spec fn rewrite_outcome(
    rs: Option<Seq<RewriteView>>,
    h: HeaderView,
    qs: Seq<Question>,
    ans: Seq<Answer>,
) -> Option<(RewriteResult, HeaderView, Seq<Question>, Seq<Answer>)> {
    match rs {
        None => Some(
            (RewriteResult { synthetic_response: false, restore_original_queries: false }, h, qs, ans),
        ),
        Some(v) => match rw_queries(rw_start(), qs, v) {
            RwFlow::Fail => None,
            RwFlow::Stop(nx) => Some(
                (
                    RewriteResult { synthetic_response: true, restore_original_queries: false },
                    HeaderView {
                        is_response: true,
                        response_code: if nx {
                            RCODE_NXDOMAIN
                        } else {
                            h.response_code
                        },
                        ..h
                    },
                    qs,
                    ans,
                ),
            ),
            RwFlow::Go(st) => Some(
                (
                    RewriteResult {
                        synthetic_response: ans.len() + st.answers.len() > 0,
                        restore_original_queries: st.replace,
                    },
                    h,
                    if st.replace {
                        st.queries
                    } else {
                        qs
                    },
                    ans + st.answers,
                ),
            ),
        },
    }
}

/// A decoded request: as it arrived, as the rewrites left it, and what the
/// rewrites reported.
pub struct Prepared {
    pub original: Message,
    pub msg: Message,
    pub rewrite: RewriteResult,
}

/// Decodes a request and applies the configured rewrites to it.
pub fn prepare_request(raw: &[u8], rewrites: &Option<Vec<Rewrite>>) -> (r: Result<
    Prepared,
    ProcessError,
>)
    requires
        rewrites_ready(*rewrites),
    ensures
        match wire_message(raw@) {
            None => r == Err::<Prepared, ProcessError>(ProcessError::Malformed),
            Some((h, qs, ans)) => match rewrite_outcome(opt_rewrites_view(*rewrites), h, qs, ans) {
                None => r == Err::<Prepared, ProcessError>(ProcessError::InvalidRewrite),
                Some((res, h2, qs2, ans2)) => r matches Ok(p) && {
                    &&& msg_header(p.original) == h
                    &&& msg_queries(p.original) == qs
                    &&& msg_answers(p.original) == ans
                    &&& p.rewrite == res
                    &&& msg_header(p.msg) == h2
                    &&& msg_queries(p.msg) == qs2
                    &&& msg_answers(p.msg) == ans2
                    &&& msg_rest(p.msg) == msg_rest(p.original)
                },
            },
        },
{
    let decoded = decode_message(raw);
    let mut msg = match decoded {
        None => {
            return Err(ProcessError::Malformed);
        },
        Some(m) => m,
    };
    let original = msg.clone();
    match apply_rewrites(rewrites, &mut msg) {
        Ok(rewrite) => Ok(Prepared { original, msg, rewrite }),
        Err(RewriteError::InvalidName) => Err(ProcessError::InvalidRewrite),
    }
}

/// The header, questions and answers of a response once the questions the
/// rewrites replaced are put back: the original questions, and every answer
/// renamed to the first of them.
pub open spec fn completed(
    p: Prepared,
    h: HeaderView,
    qs: Seq<Question>,
    ans: Seq<Answer>,
) -> (HeaderView, Seq<Question>, Seq<Answer>) {
    if p.rewrite.restore_original_queries {
        let orig = msg_queries(p.original);
        (h, orig, if orig.len() > 0 {
            renamed(ans, orig[0].name)
        } else {
            ans
        })
    } else {
        (h, qs, ans)
    }
}

/// Finishes a response to a prepared request: puts back the original
/// questions where the rewrites replaced them; all else is kept.
pub fn complete(prepared: &Prepared, response: Message) -> (r: Message)
    ensures
        (msg_header(r), msg_queries(r), msg_answers(r)) == completed(
            *prepared,
            msg_header(response),
            msg_queries(response),
            msg_answers(response),
        ),
        msg_rest(r) == msg_rest(response),
{
    let mut response = response;
    if prepared.rewrite.restore_original_queries {
        restore_original_queries(&mut response, &prepared.original);
    }
    response
}

/// Law: where the rewrites replaced the questions, the finished response
/// carries the questions the client asked, and every answer is owned by the
/// first of them.
pub proof fn law_complete_restores_question(
    p: Prepared,
    h: HeaderView,
    qs: Seq<Question>,
    ans: Seq<Answer>,
)
    requires
        p.rewrite.restore_original_queries,
        msg_queries(p.original).len() > 0,
    ensures
        completed(p, h, qs, ans).1 == msg_queries(p.original),
        completed(p, h, qs, ans).2.len() == ans.len(),
        forall|k: int|
            0 <= k < ans.len() ==> (#[trigger] completed(p, h, qs, ans).2[k]).name == msg_queries(
                p.original,
            )[0].name && completed(p, h, qs, ans).2[k].data == ans[k].data,
{
}

/// What to do once the engine has judged a prepared request.
pub enum Decision {
    /// Answer now; `blocked` tells whether the engine blocked the request.
    Respond { blocked: bool, response: Message },
    /// Answer from the cache or the upstream resolver, then `complete`.
    Resolve,
}

/// Chooses how to answer once blocking is decided. A blocked request gets
/// the sinkhole response, with answers valid for five seconds. An allowed
/// request that a rewrite already answered goes back with those answers.
/// Any other request is resolved.
pub fn decide(prepared: &Prepared, verdict: BlockResult) -> (d: Decision)
    ensures
        match verdict {
            BlockResult::Block => d matches Decision::Respond { blocked, response } && blocked
                && blocked_reply(response, prepared.msg, PIPELINE_BLOCKED_TTL),
            BlockResult::Allow => if prepared.rewrite.synthetic_response {
                d matches Decision::Respond { blocked, response } && !blocked && (
                msg_header(response),
                msg_queries(response),
                msg_answers(response),
                ) == completed(
                    *prepared,
                    HeaderView { is_response: true, ..msg_header(prepared.msg) },
                    msg_queries(prepared.msg),
                    msg_answers(prepared.msg),
                ) && msg_rest(response) == msg_rest(prepared.msg)
            } else {
                d is Resolve
            },
        },
{
    match verdict {
        BlockResult::Block => Decision::Respond {
            blocked: true,
            response: blocked_response(&prepared.msg, PIPELINE_BLOCKED_TTL),
        },
        BlockResult::Allow => {
            if prepared.rewrite.synthetic_response {
                let answered = into_response(prepared.msg.clone());
                Decision::Respond { blocked: false, response: complete(prepared, answered) }
            } else {
                Decision::Resolve
            }
        },
    }
}

/// The cache key of the first question, which is the one resolved upstream.
pub fn request_key(msg: &Message) -> (r: Result<CacheKey, ProcessError>)
    ensures
        msg_queries(*msg).len() == 0 ==> r == Err::<CacheKey, ProcessError>(
            ProcessError::NoQuestion,
        ),
        msg_queries(*msg).len() > 0 ==> (r matches Ok(k) && (k.name@, k.record_type) == key_of(
            msg_queries(*msg)[0],
        )),
{
    if query_count(msg) == 0 {
        Err(ProcessError::NoQuestion)
    } else {
        Ok(cache_key(msg, 0))
    }
}

/// Whether `r` is the response to `msg` built from the cached resolution `e`.
pub open spec fn cached_reply(r: Message, msg: Message, e: ResolvedCacheEntry) -> bool {
    &&& msg_header(r) == (HeaderView {
        is_response: true,
        response_code: e.response_code,
        ..msg_header(msg)
    })
    &&& msg_queries(r) == msg_queries(msg)
    &&& msg_answers(r) == msg_answers(msg) + msg_answers(e.records)
    &&& msg_rest(r) == msg_rest(msg)
}

/// The response a cache lookup gives: built from a live resolution, none
/// for a blocked entry or a miss.
pub fn response_from_lookup(msg: &Message, lookup: CacheLookup) -> (r: Option<Message>)
    ensures
        match lookup {
            CacheLookup::Resolved(e) => r matches Some(m) && cached_reply(m, *msg, e),
            _ => r is None,
        },
{
    match lookup {
        CacheLookup::Resolved(e) => Some(cached_response(msg, &e)),
        CacheLookup::Blocked => None,
        CacheLookup::Miss => None,
    }
}

/// Whether `r` has the shape of a response to `msg` built from a cached
/// resolution: same questions, the request's header marked as a response,
/// and the request's answers followed by the cached ones.
pub open spec fn cache_hit_shape(r: Message, msg: Message) -> bool {
    &&& msg_header(r) == (HeaderView {
        is_response: true,
        response_code: msg_header(r).response_code,
        ..msg_header(msg)
    })
    &&& msg_queries(r) == msg_queries(msg)
    &&& msg_answers(msg).len() <= msg_answers(r).len()
    &&& msg_answers(r).subrange(0, msg_answers(msg).len() as int) == msg_answers(msg)
    &&& msg_rest(r) == msg_rest(msg)
}

/// A response from the cache, where it holds a live resolution of `key`
/// made under the current rules version. The cache is shared with every
/// other request and evicts on its own, so which entry a read finds is not
/// stated; `response_from_lookup` states what is made of it.
pub fn try_cache(cache: &DnsCache, msg: &Message, key: &CacheKey, rules_version: u64) -> (r:
    Option<Message>)
    ensures
        r matches Some(m) ==> cache_hit_shape(m, *msg),
{
    let found = cache.get(key, rules_version);
    let r = response_from_lookup(msg, found);
    proof {
        if r is Some {
            let m = r->0;
            assert(msg_answers(m).subrange(0, msg_answers(*msg).len() as int) =~= msg_answers(*msg));
        }
    }
    r
}

/// The response an upstream answer is written into: the request turned into a response.
pub fn upstream_base(msg: &Message) -> (r: Message)
    ensures
        msg_header(r) == (HeaderView { is_response: true, ..msg_header(*msg) }),
        msg_queries(r) == msg_queries(*msg),
        msg_answers(r) == msg_answers(*msg),
        msg_rest(r) == msg_rest(*msg),
{
    into_response(msg.clone())
}

/// The smallest TTL among `ans`, if there is any answer.
pub open spec fn min_ttl(ans: Seq<Answer>) -> Option<u32>
    decreases ans.len(),
{
    if ans.len() == 0 {
        None
    } else {
        let t = ans.last().ttl;
        match min_ttl(ans.drop_last()) {
            None => Some(t),
            Some(m) => Some(
                if t < m {
                    t
                } else {
                    m
                },
            ),
        }
    }
}

/// How long a resolution is cached: the smallest TTL of its answers, or a
/// minute when there is none.
pub open spec fn resolved_ttl(ans: Seq<Answer>) -> u32 {
    match min_ttl(ans) {
        Some(t) => t,
        None => DEFAULT_TTL,
    }
}

/// Law: a resolution is cached for the smallest TTL among its answers: no
/// answer has a smaller TTL and some answer has exactly that one; a minute
/// when there is no answer.
pub proof fn law_resolved_ttl_is_smallest(ans: Seq<Answer>)
    ensures
        ans.len() == 0 ==> resolved_ttl(ans) == DEFAULT_TTL,
        forall|k: int| 0 <= k < ans.len() ==> resolved_ttl(ans) <= #[trigger] ans[k].ttl,
        ans.len() > 0 ==> exists|k: int| 0 <= k < ans.len() && #[trigger] ans[k].ttl == resolved_ttl(ans),
    decreases ans.len(),
{
    if ans.len() > 0 {
        let p = ans.drop_last();
        let t = ans.last().ttl;
        law_resolved_ttl_is_smallest(p);
        assert forall|k: int| 0 <= k < p.len() implies #[trigger] p[k] == ans[k] by {}
        match min_ttl(p) {
            None => {
                assert(p.len() == 0) by {
                    if p.len() > 0 {
                        lemma_min_ttl_some(p);
                    }
                }
                assert(resolved_ttl(ans) == t);
                assert(ans[ans.len() - 1].ttl == resolved_ttl(ans));
            },
            Some(m) => {
                lemma_min_ttl_some(p);
                assert(resolved_ttl(p) == m);
                if t < m {
                    assert(resolved_ttl(ans) == t);
                    assert(ans[ans.len() - 1].ttl == resolved_ttl(ans));
                    assert forall|k: int| 0 <= k < ans.len() implies resolved_ttl(ans) <= #[trigger] ans[k].ttl by {
                        if k < p.len() {
                            assert(p[k] == ans[k]);
                        }
                    }
                } else {
                    assert(resolved_ttl(ans) == m);
                    let w = choose|k: int| 0 <= k < p.len() && #[trigger] p[k].ttl == resolved_ttl(p);
                    assert(ans[w].ttl == resolved_ttl(ans));
                    assert forall|k: int| 0 <= k < ans.len() implies resolved_ttl(ans) <= #[trigger] ans[k].ttl by {
                        if k < p.len() {
                            assert(p[k] == ans[k]);
                        }
                    }
                }
            },
        }
    }
}

/// A non-empty list of answers has a smallest TTL.
proof fn lemma_min_ttl_some(ans: Seq<Answer>)
    requires
        ans.len() > 0,
    ensures
        min_ttl(ans) is Some,
{
}

/// The smallest answer TTL of a message, or a minute when it has no answer.
pub fn smallest_ttl(records: &Message) -> (t: u32)
    ensures
        t == resolved_ttl(msg_answers(*records)),
        forall|k: int|
            0 <= k < msg_answers(*records).len() ==> t <= #[trigger] msg_answers(*records)[k].ttl,
        msg_answers(*records).len() > 0 ==> exists|k: int|
            0 <= k < msg_answers(*records).len() && #[trigger] msg_answers(*records)[k].ttl == t,
        msg_answers(*records).len() == 0 ==> t == DEFAULT_TTL,
{
    proof {
        law_resolved_ttl_is_smallest(msg_answers(*records));
    }
    let ghost ans = msg_answers(*records);
    let n = answer_count(records);
    let mut cur: Option<u32> = None;
    let mut i: usize = 0;
    while i < n
        invariant
            n == ans.len(),
            ans == msg_answers(*records),
            i <= n,
            cur == min_ttl(ans.take(i as int)),
        decreases n - i,
    {
        assert(ans.take(i + 1).drop_last() =~= ans.take(i as int));
        let t = answer_ttl(records, i);
        cur = match cur {
            None => Some(t),
            Some(m) => Some(if t < m { t } else { m }),
        };
        i = i + 1;
    }
    assert(ans.take(n as int) =~= ans);
    match cur {
        Some(t) => t,
        None => DEFAULT_TTL,
    }
}

/// Writes an upstream answer into the response and caches it under `key`
/// for the smallest TTL of its answers (a minute when there is none);
/// gives that TTL.
pub fn handle_resolved(
    cache: &DnsCache,
    key: CacheKey,
    records: Message,
    response: &mut Message,
    rules_version: u64,
) -> (ttl: u32)
    ensures
        ttl == resolved_ttl(msg_answers(records)),
        msg_header(*final(response)) == msg_header(*old(response)),
        msg_queries(*final(response)) == msg_queries(*old(response)),
        msg_answers(*final(response)) == msg_answers(*old(response)) + msg_answers(records),
        msg_rest(*final(response)) == msg_rest(*old(response)),
{
    let ttl = smallest_ttl(&records);
    append_answers_of(response, &records);
    cache.insert_resolved(key, records, RCODE_NOERROR, ttl as u64, rules_version);
    ttl
}

/// How the upstream resolver failed.
pub enum ResolveFailure {
    /// The name has no records of the asked type. `authorities` holds, for
    /// each record of the authority section, the minimum TTL of an `SOA`
    /// record, or `None` for a record of another type; `None` when the
    /// section is absent.
    NoRecords { response_code: u16, authorities: Option<Vec<Option<u32>>> },
    /// The upstream did not answer in time.
    Timeout,
    /// Any other failure.
    Other,
}

/// The smallest `SOA` minimum among the authority records.
pub open spec fn soa_minimum(auths: Seq<Option<u32>>) -> Option<u32>
    decreases auths.len(),
{
    if auths.len() == 0 {
        None
    } else {
        let rest = soa_minimum(auths.drop_last());
        match auths.last() {
            None => rest,
            Some(t) => match rest {
                None => Some(t),
                Some(m) => Some(
                    if t < m {
                        t
                    } else {
                        m
                    },
                ),
            },
        }
    }
}

/// The view of the authority section of a negative answer.
pub open spec fn authorities_view(a: Option<Vec<Option<u32>>>) -> Option<Seq<Option<u32>>> {
    match a {
        Some(v) => Some(v@),
        None => None,
    }
}

/// How long a negative answer is cached: the smallest `SOA` minimum of its
/// authority section (a minute where there is none), at most an hour.
pub open spec fn negative_ttl_spec(auths: Option<Seq<Option<u32>>>) -> u32 {
    let secs = match auths {
        None => DEFAULT_TTL,
        Some(s) => match soa_minimum(s) {
            None => DEFAULT_TTL,
            Some(m) => m,
        },
    };
    if secs < MAX_NEGATIVE_TTL {
        secs
    } else {
        MAX_NEGATIVE_TTL
    }
}

/// Law: a negative answer is never cached for longer than an hour.
pub proof fn law_negative_ttl_capped(auths: Option<Seq<Option<u32>>>)
    ensures
        negative_ttl_spec(auths) <= MAX_NEGATIVE_TTL,
{
}

/// How long a negative answer is cached, in seconds.
pub fn negative_ttl(authorities: &Option<Vec<Option<u32>>>) -> (t: u32)
    ensures
        t == negative_ttl_spec(authorities_view(*authorities)),
{
    let secs = match authorities {
        None => DEFAULT_TTL,
        Some(v) => {
            let mut cur: Option<u32> = None;
            let mut i: usize = 0;
            while i < v.len()
                invariant
                    i <= v.len(),
                    cur == soa_minimum(v@.take(i as int)),
                decreases v.len() - i,
            {
                assert(v@.take(i + 1).drop_last() =~= v@.take(i as int));
                match v[i] {
                    None => {},
                    Some(t) => {
                        cur = match cur {
                            None => Some(t),
                            Some(m) => Some(if t < m { t } else { m }),
                        };
                    },
                }
                i = i + 1;
            }
            assert(v@.take(v.len() as int) =~= v@);
            match cur {
                None => DEFAULT_TTL,
                Some(m) => m,
            }
        },
    };
    if secs < MAX_NEGATIVE_TTL {
        secs
    } else {
        MAX_NEGATIVE_TTL
    }
}

/// Writes an upstream failure into the response: a name without records
/// gets the upstream's response code and is cached as such for
/// `negative_ttl`; a timeout gets `SERVFAIL`; any other failure has no
/// response.
pub fn handle_resolve_error(
    cache: &DnsCache,
    key: CacheKey,
    failure: ResolveFailure,
    response: &mut Message,
    rules_version: u64,
) -> (r: Result<(), ProcessError>)
    ensures
        msg_queries(*final(response)) == msg_queries(*old(response)),
        msg_answers(*final(response)) == msg_answers(*old(response)),
        match failure {
            ResolveFailure::NoRecords { response_code, authorities } => r is Ok && msg_header(
                *final(response),
            ) == (HeaderView { response_code, ..msg_header(*old(response)) }) && msg_rest(
                *final(response),
            ) == msg_rest(*old(response)),
            ResolveFailure::Timeout => r is Ok && msg_header(*final(response)) == (HeaderView {
                response_code: RCODE_SERVFAIL,
                ..msg_header(*old(response))
            }) && msg_rest(*final(response)) == msg_rest(*old(response)),
            ResolveFailure::Other => r == Err::<(), ProcessError>(ProcessError::Upstream)
                && *final(response) == *old(response),
        },
{
    match failure {
        ResolveFailure::NoRecords { response_code, authorities } => {
            set_response_code(response, response_code);
            let ttl = negative_ttl(&authorities);
            cache.insert_resolved(key, empty_message(), response_code, ttl as u64, rules_version);
            Ok(())
        },
        ResolveFailure::Timeout => {
            set_response_code(response, RCODE_SERVFAIL);
            Ok(())
        },
        ResolveFailure::Other => Err(ProcessError::Upstream),
    }
}

} // verus!
