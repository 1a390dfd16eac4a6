//! The blocking decision: each question's host is checked, as an
//! `https://host/` document request, against the adblock engine built from
//! the enabled filter lists.

use vstd::prelude::*;
use hickory_proto::op::Message;
use crate::dns::{msg_queries, query_count, query_name, Question, TYPE_A};
use crate::cache::{CacheKey, DnsCache};
use crate::dns::query_type;
use crate::text::{ascii_lower, concat_str, to_ascii_lower, trim_end_char, trim_end_matches_char};

verus! {

/// An adblock engine (`adblock::Engine`), known through the filter lists it was built from.
#[verifier::external_type_specification]
#[verifier::external_body]
pub struct ExEngine(adblock::Engine);

/// A set of filter lists (`adblock::FilterSet`), known through the lists added to it.
#[verifier::external_type_specification]
#[verifier::external_body]
pub struct ExFilterSet(adblock::FilterSet);

/// The texts of the filter lists added to a filter set (only ever by
/// `add_filter_list`, with default parse options), in order.
pub uninterp spec fn filter_lists(fs: adblock::FilterSet) -> Seq<Seq<char>>;

/// The texts of the filter lists an engine was built from (only ever by
/// `engine_from_filter_set`), in order.
pub uninterp spec fn engine_lists(e: adblock::Engine) -> Seq<Seq<char>>;

/// What an engine reports for a request (`Request::new(url, source,
/// request_type, "")` then `Engine::check_network_request`), where the
/// engine was built by `Engine::new_with_filter_set` from a
/// `FilterSet::new(false)` to which `lists` were added with default parse
/// options, and has had no tags enabled and no resources loaded since:
/// `None` where the request cannot be built, otherwise whether a blocking
/// filter matched and whether an exception filter matched.
pub uninterp spec fn adblock_check(
    lists: Seq<Seq<char>>,
    url: Seq<char>,
    source: Seq<char>,
    request_type: Seq<char>,
) -> Option<(bool, bool)>;

/// An empty filter set (`FilterSet::new(false)`).
#[verifier::external_body]
pub(crate) fn new_filter_set() -> (fs: adblock::FilterSet)
    ensures
        filter_lists(fs) == Seq::<Seq<char>>::empty(),
{
    adblock::FilterSet::new(false)
}

/// Adds a filter list with default parse options (`FilterSet::add_filter_list`).
#[verifier::external_body]
pub(crate) fn add_filter_list(fs: &mut adblock::FilterSet, text: String)
    ensures
        filter_lists(*final(fs)) == filter_lists(*old(fs)).push(text@),
{
    fs.add_filter_list(text, adblock::lists::ParseOptions::default());
}

/// Builds an engine from a filter set (`Engine::new_with_filter_set`).
#[verifier::external_body]
pub(crate) fn engine_from_filter_set(fs: adblock::FilterSet) -> (e: adblock::Engine)
    ensures
        engine_lists(e) == filter_lists(fs),
{
    adblock::Engine::new_with_filter_set(fs)
}

/// An adblock engine built by this library: `build_engine` is the only way
/// to make one (from filter-list texts, each added with default parse
/// options), and nothing enables tags or loads resources on it afterwards.
pub struct FilterEngine {
    engine: adblock::Engine,
}

impl FilterEngine {
    /// The texts of the filter lists the engine was built from, in order.
    pub closed spec fn lists(&self) -> Seq<Seq<char>> {
        engine_lists(self.engine)
    }
}

/// Checks a network request (`Request::new`, `Engine::check_network_request`)
/// against an engine built by `build_engine`; gives whether a blocking filter
/// and whether an exception filter matched.
#[verifier::external_body]
pub(crate) fn check_request(engine: &FilterEngine, url: &str, source: &str, request_type: &str) -> (r:
    Option<(bool, bool)>)
    ensures
        r == adblock_check(engine.lists(), url@, source@, request_type@),
{
    match adblock::request::Request::new(url, source, request_type, "") {
        Ok(req) => {
            let res = engine.engine.check_network_request(&req);
            Some((res.filter.is_some(), res.exception.is_some()))
        },
        Err(_) => None,
    }
}

/// An engine built from the given filter lists, in order.
pub fn build_engine(lists: Vec<String>) -> (e: FilterEngine)
    ensures
        e.lists() == lists@.map_values(|s: String| s@),
{
    let ghost all = lists@.map_values(|s: String| s@);
    let mut fs = new_filter_set();
    let mut rest = lists;
    let ghost n = all.len();
    while rest.len() > 0
        invariant
            all.len() == n,
            rest.len() <= n,
            filter_lists(fs) + rest@.map_values(|s: String| s@) == all,
        decreases rest.len(),
    {
        let ghost before = rest@;
        let text = rest.remove(0);
        proof {
            assert(before.map_values(|s: String| s@) =~= seq![text@] + rest@.map_values(
                |s: String| s@,
            ));
        }
        add_filter_list(&mut fs, text);
        proof {
            assert(filter_lists(fs) + rest@.map_values(|s: String| s@) =~= all);
        }
    }
    assert(rest@.map_values(|s: String| s@) =~= Seq::<Seq<char>>::empty());
    assert(filter_lists(fs) =~= all);
    FilterEngine { engine: engine_from_filter_set(fs) }
}

/// Through which transport a query arrived.
#[derive(Debug, Clone, Copy, PartialEq, Eq, Structural)]
pub enum BlockOrigin {
    Plain,
    DoH,
    DoT,
}

impl BlockOrigin {
    /// The label stored in the query log.
    pub fn label(&self) -> (s: &'static str)
        ensures
            s@ == match *self {
                BlockOrigin::Plain => "plain"@,
                BlockOrigin::DoH => "doh"@,
                BlockOrigin::DoT => "dot"@,
            },
    {
        match self {
            BlockOrigin::Plain => "plain",
            BlockOrigin::DoH => "doh",
            BlockOrigin::DoT => "dot",
        }
    }
}

/// The blocking verdict for a request.
#[derive(Debug, Clone, Copy, PartialEq, Eq, Structural)]
pub enum BlockResult {
    /// Let the query through.
    Allow,
    /// Answer with the sinkhole response.
    Block,
}

/// The URL under which a question's host is checked: `https://` + host + `/`,
/// the host being the question's name without trailing dots.
pub open spec fn host_url(q: Question) -> Seq<char> {
    "https://"@ + trim_end_char(q.name, '.') + "/"@
}

/// Whether the engine built from `lists` blocks a question: a blocking filter
/// matches its document request and no exception filter does.
pub open spec fn engine_blocks(lists: Seq<Seq<char>>, q: Question) -> bool {
    match adblock_check(lists, host_url(q), ""@, "document"@) {
        Some((matched, excepted)) => matched && !excepted,
        None => false,
    }
}

/// The `https://host/` URL of question `i`.
pub fn question_url(msg: &Message, i: usize) -> (u: String)
    requires
        i < msg_queries(*msg).len(),
    ensures
        u@ == host_url(msg_queries(*msg)[i as int]),
{
    let name = query_name(msg, i);
    let host = trim_end_matches_char(name.as_str(), '.');
    let a = concat_str("https://", host.as_str());
    let u = concat_str(a.as_str(), "/");
    assert(u@ =~= host_url(msg_queries(*msg)[i as int]));
    u
}

/// Whether the engine blocks question `i`.
pub fn blocks_question(engine: &FilterEngine, msg: &Message, i: usize) -> (b: bool)
    requires
        i < msg_queries(*msg).len(),
    ensures
        b == engine_blocks(engine.lists(), msg_queries(*msg)[i as int]),
{
    let url = question_url(msg, i);
    match check_request(engine, url.as_str(), "", "document") {
        Some((matched, excepted)) => matched && !excepted,
        None => false,
    }
}

/// Blocks a request when the engine blocks any of its questions.
pub fn lookup_block(engine: &FilterEngine, msg: &Message, origin: BlockOrigin) -> (r: BlockResult)
    ensures
        (r == BlockResult::Block) == exists|i: int|
            0 <= i < msg_queries(*msg).len() && engine_blocks(
                engine.lists(),
                #[trigger] msg_queries(*msg)[i],
            ),
{
    let n = query_count(msg);
    let mut i: usize = 0;
    while i < n
        invariant
            n == msg_queries(*msg).len(),
            i <= n,
            forall|k: int|
                0 <= k < i ==> !engine_blocks(engine.lists(), #[trigger] msg_queries(*msg)[k]),
        decreases n - i,
    {
        if blocks_question(engine, msg, i) {
            return BlockResult::Block;
        }
        i = i + 1;
    }
    BlockResult::Allow
}

/// The cache key of a question: its name in lower case and its record type.
pub open spec fn key_of(q: Question) -> (Seq<char>, u16) {
    (ascii_lower(q.name), q.qtype)
}

/// The cache key of question `i`.
pub fn cache_key(msg: &Message, i: usize) -> (k: CacheKey)
    requires
        i < msg_queries(*msg).len(),
    ensures
        (k.name@, k.record_type) == key_of(msg_queries(*msg)[i as int]),
{
    let name = query_name(msg, i);
    CacheKey { name: to_ascii_lower(name.as_str()), record_type: query_type(msg, i) }
}

/// Whether the scan of a request's questions stops at question `i`: the DNS
/// cache answered that it is blocked (`cached[i]`) or the engine blocks it
/// (`engine[i]`).
pub open spec fn stops_at(cached: Seq<bool>, engine: Seq<bool>, i: int) -> bool {
    cached[i] || engine[i]
}

/// Whether the scan passes every question before `j`.
pub open spec fn passes_before(cached: Seq<bool>, engine: Seq<bool>, j: int) -> bool {
    forall|k: int| 0 <= k < j ==> !#[trigger] stops_at(cached, engine, k)
}

/// The verdict of a scan of a request's questions, given for each question
/// scanned whether the DNS cache answered that it is blocked and whether the
/// engine blocks it. The scan stops at the first question either of them
/// blocks, and the request is blocked exactly when it stops. The index of
/// the stopping question is returned when the engine, not the cache, blocked
/// it: that verdict is to be cached.
pub fn scan_verdict(cached: &Vec<bool>, engine: &Vec<bool>) -> (r: (BlockResult, Option<usize>))
    requires
        cached.len() == engine.len(),
    ensures
        (r.0 == BlockResult::Block) == exists|i: int|
            0 <= i < cached.len() && #[trigger] stops_at(cached@, engine@, i),
        match r.1 {
            Some(j) => j < cached.len() && !cached@[j as int] && engine@[j as int] && passes_before(
                cached@,
                engine@,
                j as int,
            ),
            None => forall|j: int|
                0 <= j < cached.len() && !cached@[j] && #[trigger] engine@[j] ==> !passes_before(
                    cached@,
                    engine@,
                    j,
                ),
        },
{
    let n = cached.len();
    let mut i: usize = 0;
    while i < n
        invariant
            n == cached.len(),
            n == engine.len(),
            i <= n,
            passes_before(cached@, engine@, i as int),
        decreases n - i,
    {
        if cached[i] {
            proof {
                assert(stops_at(cached@, engine@, i as int));
                assert forall|j: int|
                    0 <= j < n && !cached@[j] && #[trigger] engine@[j] implies !passes_before(
                        cached@,
                        engine@,
                        j,
                    ) by {
                    if j < i {
                        assert(stops_at(cached@, engine@, j));
                    } else {
                        assert(j != i);
                        assert(stops_at(cached@, engine@, i as int));
                    }
                }
            }
            return (BlockResult::Block, None);
        }
        if engine[i] {
            assert(stops_at(cached@, engine@, i as int));
            return (BlockResult::Block, Some(i));
        }
        assert(!stops_at(cached@, engine@, i as int));
        i = i + 1;
    }
    proof {
        assert forall|j: int|
            0 <= j < n && !cached@[j] && #[trigger] engine@[j] implies !passes_before(
                cached@,
                engine@,
                j,
            ) by {
            assert(stops_at(cached@, engine@, j));
        }
    }
    (BlockResult::Allow, None)
}

/// Blocks a request when one of its questions is cached as blocked under the
/// current rules version or is blocked by the engine. The questions are
/// scanned in order: the cache is asked first, then the engine, and the scan
/// stops at the first question blocked (`scan_verdict` on what was found).
/// An engine verdict to block is cached. A request is let through only when
/// the engine blocks none of its questions, and always when it has none.
pub fn lookup_block_cached(
    engine: &FilterEngine,
    cache: &DnsCache,
    msg: &Message,
    origin: BlockOrigin,
    rules_version: u64,
) -> (r: BlockResult)
    ensures
        r == BlockResult::Allow ==> forall|i: int|
            0 <= i < msg_queries(*msg).len() ==> !engine_blocks(
                engine.lists(),
                #[trigger] msg_queries(*msg)[i],
            ),
        msg_queries(*msg).len() == 0 ==> r == BlockResult::Allow,
{
    let ghost lists = engine.lists();
    let ghost qs = msg_queries(*msg);
    let n = query_count(msg);
    let mut cached: Vec<bool> = Vec::new();
    let mut engine_hits: Vec<bool> = Vec::new();
    let mut stopped = false;
    let mut i: usize = 0;
    while i < n && !stopped
        invariant
            n == qs.len(),
            qs == msg_queries(*msg),
            lists == engine.lists(),
            i <= n,
            cached.len() == i,
            engine_hits.len() == i,
            forall|k: int|
                0 <= k < i ==> #[trigger] engine_hits@[k] == (!cached@[k] && engine_blocks(
                    lists,
                    qs[k],
                )),
            !stopped ==> passes_before(cached@, engine_hits@, i as int),
            stopped ==> i > 0 && stops_at(cached@, engine_hits@, i - 1),
        decreases n - i,
    {
        let key = cache_key(msg, i);
        let hit = cache.is_blocked(&key, rules_version);
        let blocked = if hit {
            false
        } else {
            blocks_question(engine, msg, i)
        };
        let ghost before_c = cached@;
        let ghost before_e = engine_hits@;
        cached.push(hit);
        engine_hits.push(blocked);
        proof {
            assert(cached@ == before_c.push(hit));
            assert(engine_hits@ == before_e.push(blocked));
            assert forall|k: int| 0 <= k < i implies !#[trigger] stops_at(
                cached@,
                engine_hits@,
                k,
            ) by {
                assert(cached@[k] == before_c[k]);
                assert(engine_hits@[k] == before_e[k]);
                assert(!stops_at(before_c, before_e, k));
            }
        }
        stopped = hit || blocked;
        i = i + 1;
    }
    let (r, to_cache) = scan_verdict(&cached, &engine_hits);
    match to_cache {
        Some(j) => {
            let key = cache_key(msg, j);
            cache.insert_blocked(key, rules_version);
        },
        None => {},
    }
    proof {
        if r == BlockResult::Allow {
            if stopped {
                assert(stops_at(cached@, engine_hits@, i - 1));
            }
            assert(i == n);
            assert forall|k: int| 0 <= k < qs.len() implies !engine_blocks(
                lists,
                #[trigger] qs[k],
            ) by {
                assert(!stops_at(cached@, engine_hits@, k));
                assert(engine_hits@[k] == (!cached@[k] && engine_blocks(lists, qs[k])));
            }
        }
    }
    r
}

/// The outcome of a middleware step.
pub enum MiddlewareResult {
    /// Hand the request to the next step.
    Next,
    /// Block the request.
    Block,
    /// Answer with this message.
    Respond(Message),
}

/// The URL under which the middleware blocker checks a question:
/// `http://` + host + `/`.
pub open spec fn plain_host_url(q: Question) -> Seq<char> {
    "http://"@ + trim_end_char(q.name, '.') + "/"@
}

/// The request type under which the middleware blocker checks a question:
/// `script` for an `A` question, `other` for any other.
pub open spec fn middleware_request_type(qtype: u16) -> Seq<char> {
    if qtype == TYPE_A {
        "script"@
    } else {
        "other"@
    }
}

/// Whether the middleware blocker blocks a question: a blocking filter and
/// no exception filter match its request from `http://example.com`.
pub open spec fn middleware_blocks(lists: Seq<Seq<char>>, q: Question) -> bool {
    match adblock_check(
        lists,
        plain_host_url(q),
        "http://example.com"@,
        middleware_request_type(q.qtype),
    ) {
        Some((matched, excepted)) => matched && !excepted,
        None => false,
    }
}

/// A request-pipeline step that blocks requests the engine blocks.
pub struct Blocker {
    pub engine: FilterEngine,
}

impl Blocker {
    /// A blocker whose engine is built from the filter lists `filters`.
    pub fn new(filters: Vec<String>) -> (b: Blocker)
        ensures
            b.engine.lists() == filters@.map_values(|s: String| s@),
    {
        Blocker { engine: build_engine(filters) }
    }

    /// Blocks a request when the engine blocks one of its questions, and
    /// hands it on otherwise.
    pub fn process(&self, msg: &Message) -> (r: MiddlewareResult)
        ensures
            r is Block || r is Next,
            r is Block == exists|i: int|
                0 <= i < msg_queries(*msg).len() && middleware_blocks(
                    self.engine.lists(),
                    #[trigger] msg_queries(*msg)[i],
                ),
    {
        let n = query_count(msg);
        let mut i: usize = 0;
        while i < n
            invariant
                n == msg_queries(*msg).len(),
                i <= n,
                forall|k: int|
                    0 <= k < i ==> !middleware_blocks(
                        self.engine.lists(),
                        #[trigger] msg_queries(*msg)[k],
                    ),
            decreases n - i,
        {
            let name = query_name(msg, i);
            let host = trim_end_matches_char(name.as_str(), '.');
            let a = concat_str("http://", host.as_str());
            let url = concat_str(a.as_str(), "/");
            assert(url@ =~= plain_host_url(msg_queries(*msg)[i as int]));
            let t = query_type(msg, i);
            let request_type = if t == TYPE_A {
                "script"
            } else {
                "other"
            };
            match check_request(&self.engine, url.as_str(), "http://example.com", request_type) {
                Some((matched, excepted)) => {
                    if matched && !excepted {
                        return MiddlewareResult::Block;
                    }
                },
                None => {},
            }
            i = i + 1;
        }
        MiddlewareResult::Next
    }
}

} // verus!
