//! DNS rewrites: rules that answer, refuse or redirect queries for matching
//! hosts before they reach the blocking engine or the upstream resolver.

use vstd::prelude::*;
use hickory_proto::op::Message;
use crate::dns::{
    msg_rest, append_answers_of, empty_message, into_response, msg_answers, msg_header,
    msg_queries, parsed_name_text, push_a_answer, push_aaaa_answer, push_named_query, query_count,
    query_name, query_type, replace_queries_with, set_response_code, Answer, AnswerData,
    HeaderView, Question, RCODE_NXDOMAIN, TYPE_A, TYPE_AAAA,
};
use crate::text::{copy_string, str_eq, trim_end_char, trim_end_matches_char};

verus! {

/// A compiled regular expression (`regex::Regex`), known through its source pattern.
#[verifier::external_type_specification]
#[verifier::external_body]
pub struct ExRegex(regex::Regex);

/// The source pattern of a compiled regular expression (`Regex::as_str`).
pub uninterp spec fn regex_source(re: regex::Regex) -> Seq<char>;

/// A copy of a compiled regex (`Regex` derives `Clone`: the copy shares the
/// compiled program and the pattern), so it has the same pattern.
pub assume_specification[<regex::Regex as std::clone::Clone>::clone](re: &regex::Regex) -> (c: regex::Regex)
    ensures
        regex_source(c) == regex_source(*re),
;

/// Whether `Regex::new` accepts `pattern`.
pub uninterp spec fn regex_compiles(pattern: Seq<char>) -> bool;

/// What `Regex::is_match` answers for the regex compiled from `pattern` on `text`.
pub uninterp spec fn regex_matches(pattern: Seq<char>, text: Seq<char>) -> bool;

/// Compiles a pattern (`Regex::new`); `None` where the pattern is not a valid regex.
#[verifier::external_body]
pub(crate) fn compile_regex(pattern: &str) -> (r: Option<regex::Regex>)
    ensures
        r is Some == regex_compiles(pattern@),
        r matches Some(re) ==> regex_source(re) == pattern@,
{
    regex::Regex::new(pattern).ok()
}

/// Whether a compiled regex matches `text` anywhere (`Regex::is_match`).
/// Every regex of this library is built by `Regex::new` in `compile_regex`
/// and held in the private field of `CompiledRegex`, so it has default
/// options and what `is_match` answers is a function of pattern and text.
#[verifier::external_body]
pub(crate) fn regex_is_match(re: &regex::Regex, text: &str) -> (b: bool)
    ensures
        b == regex_matches(regex_source(*re), text@),
{
    re.is_match(text)
}

/// How a rewrite decides whether it applies to a host.
#[derive(Debug, Clone, Copy, PartialEq, Eq, Structural)]
pub enum RewriteMatchWhenType {
    /// The host equals the value.
    Exact,
    /// The value is a regular expression that matches the host.
    Regex,
}

/// The condition of a rewrite.
#[derive(Debug, Clone)]
pub struct RewriteMatchWhen {
    pub ty: RewriteMatchWhenType,
    pub value: String,
}

/// One action of a rewrite.
#[derive(Debug, Clone)]
#[allow(non_camel_case_types)]
pub enum RewriteAction {
    /// Answer with `NXDOMAIN`.
    NXDOMAIN,
    /// Answer with an empty `NOERROR` response.
    NOERROR,
    /// Ask the resolver for another name instead.
    Rewrite { value: String },
    /// Answer `A` questions with this IPv4 address (big-endian value).
    A { value: u32 },
    /// Answer `AAAA` questions with this IPv6 address (big-endian value).
    AAAA { value: u128 },
}

/// A rewrite: its condition, its actions, and the regex compiled from the
/// condition's value (set only by `compile`, for regex conditions).
#[derive(Debug, Clone)]
pub struct Rewrite {
    pub when: RewriteMatchWhen,
    pub actions: Vec<RewriteAction>,
    pub regex: Option<CompiledRegex>,
}

/// A regex compiled by this library: only `Rewrite::compile` makes one, by
/// `Regex::new` on the condition's value.
#[derive(Debug, Clone)]
pub struct CompiledRegex {
    re: regex::Regex,
}

impl CompiledRegex {
    /// The pattern the regex was compiled from.
    pub closed spec fn source(&self) -> Seq<char> {
        regex_source(self.re)
    }
}

/// The content of a rewrite action.
pub enum ActionView {
    NxDomain,
    NoError,
    Rewrite(Seq<char>),
    A(u32),
    Aaaa(u128),
}

impl View for RewriteAction {
    type V = ActionView;

    open spec fn view(&self) -> ActionView {
        match self {
            RewriteAction::NXDOMAIN => ActionView::NxDomain,
            RewriteAction::NOERROR => ActionView::NoError,
            RewriteAction::Rewrite { value } => ActionView::Rewrite(value@),
            RewriteAction::A { value } => ActionView::A(*value),
            RewriteAction::AAAA { value } => ActionView::Aaaa(*value),
        }
    }
}

/// The content of a rewrite; `regex` is the source of the compiled regex, if any.
pub struct RewriteView {
    pub ty: RewriteMatchWhenType,
    pub value: Seq<char>,
    pub actions: Seq<ActionView>,
    pub regex: Option<Seq<char>>,
}

impl View for Rewrite {
    type V = RewriteView;

    open spec fn view(&self) -> RewriteView {
        RewriteView {
            ty: self.when.ty,
            value: self.when.value@,
            actions: self.actions@.map_values(|a: RewriteAction| a@),
            regex: match self.regex {
                Some(re) => Some(re.source()),
                None => None,
            },
        }
    }
}

/// The views of a list of rewrites.
pub open spec fn rewrites_view(v: Seq<Rewrite>) -> Seq<RewriteView> {
    v.map_values(|r: Rewrite| r@)
}

/// Whether every regex rewrite carries its compiled regex.
pub open spec fn rewrites_compiled(rs: Seq<RewriteView>) -> bool {
    forall|i: int|
        0 <= i < rs.len() ==> (#[trigger] rs[i]).ty == RewriteMatchWhenType::Regex
            ==> rs[i].regex is Some
}

/// Why compiling a rewrite failed.
#[derive(Debug, Clone, Copy, PartialEq, Eq, Structural)]
pub enum RegexError {
    /// The value of a regex condition is not a valid regular expression.
    InvalidPattern,
}

impl Rewrite {
    /// Compiles the regex of a regex condition; exact conditions are left as they are.
    pub fn compile(&mut self) -> (r: Result<(), RegexError>)
        ensures
            final(self).when == old(self).when,
            final(self).actions == old(self).actions,
            old(self).when.ty == RewriteMatchWhenType::Exact ==> *final(self) == *old(self)
                && r is Ok,
            old(self).when.ty == RewriteMatchWhenType::Regex ==> {
                if regex_compiles(old(self).when.value@) {
                    r is Ok && final(self)@.regex == Some(old(self).when.value@)
                } else {
                    r == Err::<(), RegexError>(RegexError::InvalidPattern) && *final(self)
                        == *old(self)
                }
            },
    {
        match self.when.ty {
            RewriteMatchWhenType::Exact => Ok(()),
            RewriteMatchWhenType::Regex => {
                match compile_regex(self.when.value.as_str()) {
                    Some(re) => {
                        self.regex = Some(CompiledRegex { re });
                        Ok(())
                    },
                    None => Err(RegexError::InvalidPattern),
                }
            },
        }
    }
}

/// Compiles every rewrite of the list, stopping at the first invalid pattern.
pub fn compile_rewrites(rewrites: &mut Vec<Rewrite>) -> (r: Result<(), RegexError>)
    ensures
        final(rewrites).len() == old(rewrites).len(),
        forall|i: int|
            0 <= i < old(rewrites).len() ==> (#[trigger] final(rewrites)[i]).when == old(
                rewrites,
            )[i].when && final(rewrites)[i].actions == old(rewrites)[i].actions,
        r is Ok <==> forall|i: int|
            0 <= i < old(rewrites).len() && (#[trigger] old(rewrites)[i]).when.ty
                == RewriteMatchWhenType::Regex ==> regex_compiles(old(rewrites)[i].when.value@),
        r is Ok ==> rewrites_compiled(rewrites_view(final(rewrites)@)),
{
    let mut i: usize = 0;
    while i < rewrites.len()
        invariant
            i <= rewrites.len(),
            rewrites.len() == old(rewrites).len(),
            forall|k: int|
                0 <= k < old(rewrites).len() ==> (#[trigger] rewrites[k]).when == old(
                    rewrites,
                )[k].when && rewrites[k].actions == old(rewrites)[k].actions,
            forall|k: int|
                0 <= k < i && (#[trigger] old(rewrites)[k]).when.ty
                    == RewriteMatchWhenType::Regex ==> regex_compiles(
                    old(rewrites)[k].when.value@,
                ),
            forall|k: int|
                0 <= k < i && (#[trigger] rewrites[k]).when.ty == RewriteMatchWhenType::Regex
                    ==> rewrites[k]@.regex is Some,
        decreases old(rewrites).len() - i,
    {
        let ghost before = rewrites@;
        let mut item = rewrites.remove(i);
        let res = item.compile();
        match res {
            Ok(()) => {},
            Err(e) => {
                rewrites.insert(i, item);
                assert(rewrites@ =~= before);
                return Err(e);
            },
        }
        rewrites.insert(i, item);
        assert(rewrites@ =~= before.update(i as int, item));
        i = i + 1;
    }
    proof {
        assert forall|k: int|
            0 <= k < rewrites_view(rewrites@).len() && (#[trigger] rewrites_view(
                rewrites@,
            )[k]).ty == RewriteMatchWhenType::Regex implies rewrites_view(rewrites@)[k].regex
            is Some by {
            assert(rewrites_view(rewrites@)[k] == rewrites@[k]@);
        }
    }
    Ok(())
}

/// What the actions of a rewrite make of a matching query.
#[derive(Debug)]
pub enum RewriteBehavior {
    /// Answer `NXDOMAIN`.
    NxDomain,
    /// Answer an empty `NOERROR` response.
    NoError,
    /// Resolve this name instead.
    Rewrite(String),
    /// Only add answers.
    AnswersOnly,
}

/// The behaviour of a list of actions: that of the first `NXDOMAIN`,
/// `NOERROR` or `Rewrite` action, `None` when there is none.
pub open spec fn behavior_of(actions: Seq<ActionView>) -> Option<ActionView>
    decreases actions.len(),
{
    if actions.len() == 0 {
        None
    } else {
        match actions[0] {
            ActionView::A(_) => behavior_of(actions.drop_first()),
            ActionView::Aaaa(_) => behavior_of(actions.drop_first()),
            other => Some(other),
        }
    }
}

/// The behaviour of the first action that decides one.
pub fn classify_actions(actions: &Vec<RewriteAction>) -> (b: RewriteBehavior)
    ensures
        match (b, behavior_of(actions@.map_values(|a: RewriteAction| a@))) {
            (RewriteBehavior::NxDomain, Some(ActionView::NxDomain)) => true,
            (RewriteBehavior::NoError, Some(ActionView::NoError)) => true,
            (RewriteBehavior::Rewrite(n), Some(ActionView::Rewrite(m))) => n@ == m,
            (RewriteBehavior::AnswersOnly, None) => true,
            _ => false,
        },
{
    let ghost all = actions@.map_values(|a: RewriteAction| a@);
    let mut i: usize = 0;
    assert(all.skip(0) =~= all);
    while i < actions.len()
        invariant
            all == actions@.map_values(|a: RewriteAction| a@),
            i <= actions.len(),
            behavior_of(all) == behavior_of(all.skip(i as int)),
        decreases actions.len() - i,
    {
        proof {
            assert(all.skip(i as int)[0] == actions@[i as int]@);
            assert(all.skip(i as int).drop_first() =~= all.skip(i + 1));
        }
        match &actions[i] {
            RewriteAction::NXDOMAIN => {
                return RewriteBehavior::NxDomain;
            },
            RewriteAction::NOERROR => {
                return RewriteBehavior::NoError;
            },
            RewriteAction::Rewrite { value } => {
                return RewriteBehavior::Rewrite(copy_string(value));
            },
            _ => {},
        }
        i = i + 1;
    }
    RewriteBehavior::AnswersOnly
}

/// Whether a rewrite applies to `host`: equality for exact conditions, a
/// match of the compiled regex for regex conditions.
pub open spec fn rewrite_applies(r: RewriteView, host: Seq<char>) -> bool {
    match r.ty {
        RewriteMatchWhenType::Exact => r.value == host,
        RewriteMatchWhenType::Regex => regex_matches(r.regex->Some_0, host),
    }
}

/// Whether `rewrite` applies to `host`.
pub fn rewrite_matches(rewrite: &Rewrite, host: &str) -> (b: bool)
    requires
        rewrite.when.ty == RewriteMatchWhenType::Regex ==> rewrite@.regex is Some,
    ensures
        b == rewrite_applies(rewrite@, host@),
{
    match rewrite.when.ty {
        RewriteMatchWhenType::Exact => str_eq(rewrite.when.value.as_str(), host),
        RewriteMatchWhenType::Regex => {
            match &rewrite.regex {
                Some(re) => regex_is_match(&re.re, host),
                None => false,
            }
        },
    }
}

/// TTL of the answers that rewrites add.
pub const REWRITE_TTL: u32 = 300;

/// The answers the address actions of a rewrite add for a question: one per
/// `A` action when the question asks for `A`, one per `AAAA` action when it
/// asks for `AAAA`, in the order of the actions.
pub open spec fn rewrite_records(q: Question, actions: Seq<ActionView>) -> Seq<Answer>
    decreases actions.len(),
{
    if actions.len() == 0 {
        seq![]
    } else {
        let rest = rewrite_records(q, actions.drop_last());
        match actions.last() {
            ActionView::A(x) => if q.qtype == TYPE_A {
                rest.push(Answer { name: q.name, ttl: REWRITE_TTL, data: AnswerData::A(x) })
            } else {
                rest
            },
            ActionView::Aaaa(x) => if q.qtype == TYPE_AAAA {
                rest.push(Answer { name: q.name, ttl: REWRITE_TTL, data: AnswerData::Aaaa(x) })
            } else {
                rest
            },
            _ => rest,
        }
    }
}

/// Adds to `dst` the answers the address actions of `rewrite` give for question `qi` of `msg`.
pub fn construct_rewrite_records(dst: &mut Message, msg: &Message, qi: usize, rewrite: &Rewrite)
    requires
        qi < msg_queries(*msg).len(),
    ensures
        msg_header(*final(dst)) == msg_header(*old(dst)),
        msg_queries(*final(dst)) == msg_queries(*old(dst)),
        msg_answers(*final(dst)) == msg_answers(*old(dst)) + rewrite_records(
            msg_queries(*msg)[qi as int],
            rewrite@.actions,
        ),
{
    let ghost acts = rewrite@.actions;
    let ghost q = msg_queries(*msg)[qi as int];
    let ghost start = msg_answers(*dst);
    let t = query_type(msg, qi);
    let mut i: usize = 0;
    while i < rewrite.actions.len()
        invariant
            acts == rewrite@.actions,
            q == msg_queries(*msg)[qi as int],
            qi < msg_queries(*msg).len(),
            t == q.qtype,
            i <= rewrite.actions.len(),
            msg_header(*dst) == msg_header(*old(dst)),
            msg_queries(*dst) == msg_queries(*old(dst)),
            start == msg_answers(*old(dst)),
            msg_answers(*dst) == start + rewrite_records(q, acts.take(i as int)),
        decreases rewrite.actions.len() - i,
    {
        proof {
            assert(acts.take(i + 1).drop_last() =~= acts.take(i as int));
            assert(acts.take(i + 1).last() == rewrite.actions@[i as int]@);
        }
        match &rewrite.actions[i] {
            RewriteAction::A { value } => {
                if t == TYPE_A {
                    push_a_answer(dst, msg, qi, REWRITE_TTL, *value);
                }
            },
            RewriteAction::AAAA { value } => {
                if t == TYPE_AAAA {
                    push_aaaa_answer(dst, msg, qi, REWRITE_TTL, *value);
                }
            },
            _ => {},
        }
        i = i + 1;
        assert(msg_answers(*dst) =~= start + rewrite_records(q, acts.take(i as int)));
    }
    assert(acts.take(rewrite.actions.len() as int) =~= acts);
}

/// What `apply_rewrites` reports.
#[derive(Debug, Clone, Copy, PartialEq, Eq, Structural)]
pub struct RewriteResult {
    /// The message is an answer of its own and needs no upstream resolution.
    pub synthetic_response: bool,
    /// The questions were replaced and must be restored in the final response.
    pub restore_original_queries: bool,
}

/// Why rewriting failed.
#[derive(Debug, Clone, Copy, PartialEq, Eq, Structural)]
pub enum RewriteError {
    /// A `Rewrite` action names something that is not a valid domain name.
    InvalidName,
}

/// Records and questions collected while rewriting.
pub struct RwState {
    pub answers: Seq<Answer>,
    pub queries: Seq<Question>,
    pub replace: bool,
}

/// Progress of rewriting.
pub enum RwFlow {
    /// Keep going with this state.
    Go(RwState),
    /// A rewrite answered the query itself (`true` for `NXDOMAIN`).
    Stop(bool),
    /// A `Rewrite` action named an invalid name.
    Fail,
}

/// The effect of one rewrite on question `q`.
pub open spec fn rw_one(st: RwState, q: Question, r: RewriteView) -> RwFlow {
    let host = trim_end_char(q.name, '.');
    if !rewrite_applies(r, host) {
        RwFlow::Go(st)
    } else {
        let more = st.answers + rewrite_records(q, r.actions);
        match behavior_of(r.actions) {
            Some(ActionView::NxDomain) => RwFlow::Stop(true),
            Some(ActionView::NoError) => RwFlow::Stop(false),
            Some(ActionView::Rewrite(n)) => match parsed_name_text(n) {
                None => RwFlow::Fail,
                Some(t) => RwFlow::Go(
                    RwState {
                        answers: more,
                        queries: st.queries.push(Question { name: t, qtype: q.qtype }),
                        replace: true,
                    },
                ),
            },
            _ => RwFlow::Go(RwState { answers: more, ..st }),
        }
    }
}

/// The effect of the rewrites `rs`, in order, on question `q`.
pub open spec fn rw_rewrites(st: RwState, q: Question, rs: Seq<RewriteView>) -> RwFlow
    decreases rs.len(),
{
    if rs.len() == 0 {
        RwFlow::Go(st)
    } else {
        match rw_rewrites(st, q, rs.drop_last()) {
            RwFlow::Go(s2) => rw_one(s2, q, rs.last()),
            other => other,
        }
    }
}

/// The effect of the rewrites on the questions `qs`, in order.
pub open spec fn rw_queries(st: RwState, qs: Seq<Question>, rs: Seq<RewriteView>) -> RwFlow
    decreases qs.len(),
{
    if qs.len() == 0 {
        RwFlow::Go(st)
    } else {
        match rw_queries(st, qs.drop_last(), rs) {
            RwFlow::Go(s2) => rw_rewrites(s2, qs.last(), rs),
            other => other,
        }
    }
}

/// Rewrites that go on from `st` for question `q` keep the questions already
/// collected and add only questions of `q`'s record type.
proof fn lemma_rewrites_keep_type(st: RwState, q: Question, rs: Seq<RewriteView>)
    ensures
        rw_rewrites(st, q, rs) matches RwFlow::Go(s2) ==> {
            &&& st.queries.len() <= s2.queries.len()
            &&& forall|j: int| 0 <= j < st.queries.len() ==> #[trigger] s2.queries[j] == st.queries[j]
            &&& forall|j: int|
                st.queries.len() <= j < s2.queries.len() ==> (#[trigger] s2.queries[j]).qtype
                    == q.qtype
        },
    decreases rs.len(),
{
    if rs.len() > 0 {
        lemma_rewrites_keep_type(st, q, rs.drop_last());
    }
}

/// Law: a question put in place by a `Rewrite` action keeps the record type
/// of the question it replaces: every question the rewrites of a request
/// collect has the record type of one of the request's questions, and where
/// the request asks one type only, they all have that type.
pub proof fn law_rewritten_questions_keep_type(qs: Seq<Question>, rs: Seq<RewriteView>)
    ensures
        rw_queries(rw_start(), qs, rs) matches RwFlow::Go(st) ==> forall|j: int|
            0 <= j < st.queries.len() ==> exists|i: int|
                0 <= i < qs.len() && qs[i].qtype == (#[trigger] st.queries[j]).qtype,
    decreases qs.len(),
{
    if qs.len() > 0 {
        let p = qs.drop_last();
        let q = qs.last();
        law_rewritten_questions_keep_type(p, rs);
        match rw_queries(rw_start(), p, rs) {
            RwFlow::Go(s1) => {
                lemma_rewrites_keep_type(s1, q, rs);
                match rw_rewrites(s1, q, rs) {
                    RwFlow::Go(s2) => {
                        assert forall|j: int| 0 <= j < s2.queries.len() implies exists|i: int|
                            0 <= i < qs.len() && qs[i].qtype == (#[trigger] s2.queries[j]).qtype by {
                            if j < s1.queries.len() {
                                assert(s2.queries[j] == s1.queries[j]);
                                let i = choose|i: int|
                                    0 <= i < p.len() && p[i].qtype == s1.queries[j].qtype;
                                assert(qs[i] == p[i]);
                            } else {
                                assert(qs[qs.len() - 1] == q);
                            }
                        }
                    },
                    _ => {},
                }
            },
            _ => {},
        }
    }
}

/// Law: for a request whose questions all ask record type `t`, every
/// rewritten question asks `t` as well.
pub proof fn law_rewritten_questions_keep_single_type(qs: Seq<Question>, rs: Seq<RewriteView>, t: u16)
    requires
        forall|i: int| 0 <= i < qs.len() ==> (#[trigger] qs[i]).qtype == t,
    ensures
        rw_queries(rw_start(), qs, rs) matches RwFlow::Go(st) ==> forall|j: int|
            0 <= j < st.queries.len() ==> (#[trigger] st.queries[j]).qtype == t,
{
    law_rewritten_questions_keep_type(qs, rs);
    if let RwFlow::Go(st) = rw_queries(rw_start(), qs, rs) {
        assert forall|j: int| 0 <= j < st.queries.len() implies (#[trigger] st.queries[j]).qtype == t by {
            let i = choose|i: int| 0 <= i < qs.len() && qs[i].qtype == st.queries[j].qtype;
        }
    }
}

/// The starting state: nothing collected.
pub open spec fn rw_start() -> RwState {
    RwState { answers: seq![], queries: seq![], replace: false }
}

/// Rewrites none of which applies to `q` leave the state as it was.
pub proof fn lemma_rewrites_skip(st: RwState, q: Question, rs: Seq<RewriteView>)
    requires
        forall|j: int| 0 <= j < rs.len() ==> !rewrite_applies(#[trigger] rs[j], trim_end_char(q.name, '.')),
    ensures
        rw_rewrites(st, q, rs) == RwFlow::Go(st),
    decreases rs.len(),
{
    if rs.len() > 0 {
        let p = rs.drop_last();
        assert forall|j: int| 0 <= j < p.len() implies !rewrite_applies(#[trigger] p[j], trim_end_char(q.name, '.')) by {
            assert(p[j] == rs[j]);
        }
        lemma_rewrites_skip(st, q, p);
        assert(!rewrite_applies(rs[rs.len() - 1], trim_end_char(q.name, '.')));
    }
}

/// Law: rewrites that match none of the request's hosts change nothing: the
/// request goes on with its own questions and answers, to be resolved.
pub proof fn law_unmatched_rewrites_change_nothing(qs: Seq<Question>, rs: Seq<RewriteView>)
    requires
        forall|i: int, j: int|
            0 <= i < qs.len() && 0 <= j < rs.len() ==> !rewrite_applies(
                #[trigger] rs[j],
                trim_end_char(#[trigger] qs[i].name, '.'),
            ),
    ensures
        rw_queries(rw_start(), qs, rs) == RwFlow::Go(rw_start()),
    decreases qs.len(),
{
    if qs.len() > 0 {
        let p = qs.drop_last();
        assert forall|i: int, j: int|
            0 <= i < p.len() && 0 <= j < rs.len() implies !rewrite_applies(
                #[trigger] rs[j],
                trim_end_char(#[trigger] p[i].name, '.'),
            ) by {
            assert(p[i] == qs[i]);
        }
        law_unmatched_rewrites_change_nothing(p, rs);
        let q = qs.last();
        assert forall|j: int| 0 <= j < rs.len() implies !rewrite_applies(
            #[trigger] rs[j],
            trim_end_char(q.name, '.'),
        ) by {
            assert(q == qs[qs.len() - 1]);
        }
        lemma_rewrites_skip(rw_start(), q, rs);
    }
}

/// Applies the configured rewrites to a request. With no rewrites, or where
/// a rewrite names an invalid name, the request is left as it was. A matching
/// `NXDOMAIN` or `NOERROR` rewrite turns the request into its own response at
/// once (only its type and, for `NXDOMAIN`, its code change); a `Rewrite`
/// action replaces the questions by the rewritten ones; the address actions
/// add answers.
pub fn apply_rewrites(rewrites: &Option<Vec<Rewrite>>, msg: &mut Message) -> (r: Result<
    RewriteResult,
    RewriteError,
>)
    requires
        match rewrites {
            Some(v) => rewrites_compiled(rewrites_view(v@)),
            None => true,
        },
    ensures
        match rewrites {
            None => {
                &&& r == Ok::<RewriteResult, RewriteError>(
                    RewriteResult { synthetic_response: false, restore_original_queries: false },
                )
                &&& *final(msg) == *old(msg)
            },
            Some(v) => match rw_queries(rw_start(), msg_queries(*old(msg)), rewrites_view(v@)) {
                RwFlow::Fail => {
                    &&& r == Err::<RewriteResult, RewriteError>(RewriteError::InvalidName)
                    &&& *final(msg) == *old(msg)
                },
                RwFlow::Stop(nx) => {
                    &&& r == Ok::<RewriteResult, RewriteError>(
                        RewriteResult { synthetic_response: true, restore_original_queries: false },
                    )
                    &&& msg_header(*final(msg)) == (HeaderView {
                        is_response: true,
                        response_code: if nx {
                            RCODE_NXDOMAIN
                        } else {
                            msg_header(*old(msg)).response_code
                        },
                        ..msg_header(*old(msg))
                    })
                    &&& msg_queries(*final(msg)) == msg_queries(*old(msg))
                    &&& msg_answers(*final(msg)) == msg_answers(*old(msg))
                    &&& msg_rest(*final(msg)) == msg_rest(*old(msg))
                },
                RwFlow::Go(st) => {
                    &&& r == Ok::<RewriteResult, RewriteError>(
                        RewriteResult {
                            synthetic_response: msg_answers(*old(msg)).len() + st.answers.len()
                                > 0,
                            restore_original_queries: st.replace,
                        },
                    )
                    &&& msg_header(*final(msg)) == msg_header(*old(msg))
                    &&& msg_queries(*final(msg)) == if st.replace {
                        st.queries
                    } else {
                        msg_queries(*old(msg))
                    }
                    &&& msg_answers(*final(msg)) == msg_answers(*old(msg)) + st.answers
                    &&& msg_rest(*final(msg)) == msg_rest(*old(msg))
                },
            },
        },
{
    let rs = match rewrites {
        None => {
            return Ok(RewriteResult { synthetic_response: false, restore_original_queries: false });
        },
        Some(v) => v,
    };
    let ghost rv = rewrites_view(rs@);
    let ghost qs = msg_queries(*msg);
    let mut scratch = empty_message();
    let mut replace = false;
    let n = query_count(msg);
    let mut i: usize = 0;
    while i < n
        invariant
            rv == rewrites_view(rs@),
            *rewrites == Some(*rs),
            rewrites_compiled(rv),
            qs == msg_queries(*msg),
            n == qs.len(),
            i <= n,
            *msg == *old(msg),
            rw_queries(rw_start(), qs.take(i as int), rv) == RwFlow::Go(
                RwState {
                    answers: msg_answers(scratch),
                    queries: msg_queries(scratch),
                    replace,
                },
            ),
        decreases n - i,
    {
        let ghost st_i = RwState {
            answers: msg_answers(scratch),
            queries: msg_queries(scratch),
            replace,
        };
        let ghost q = qs[i as int];
        proof {
            assert(qs.take(i + 1).drop_last() =~= qs.take(i as int));
            assert(qs.take(i + 1).last() == q);
        }
        let name = query_name(msg, i);
        let host = trim_end_matches_char(name.as_str(), '.');
        let qtype = query_type(msg, i);
        let mut j: usize = 0;
        while j < rs.len()
            invariant
                rv == rewrites_view(rs@),
                *rewrites == Some(*rs),
                rewrites_compiled(rv),
                qs == msg_queries(*msg),
                n == qs.len(),
                i < n,
                q == qs[i as int],
                host@ == trim_end_char(q.name, '.'),
                qtype == q.qtype,
                *msg == *old(msg),
                j <= rs.len(),
                rw_queries(rw_start(), qs.take(i as int), rv) == RwFlow::Go(st_i),
                rw_rewrites(st_i, q, rv.take(j as int)) == RwFlow::Go(
                    RwState {
                        answers: msg_answers(scratch),
                        queries: msg_queries(scratch),
                        replace,
                    },
                ),
            decreases rs.len() - j,
        {
            let rw = &rs[j];
            proof {
                assert(rv.take(j + 1).drop_last() =~= rv.take(j as int));
                assert(rv.take(j + 1).last() == rw@);
                assert(rv[j as int] == rw@);
            }
            if rewrite_matches(rw, host.as_str()) {
                match classify_actions(&rw.actions) {
                    RewriteBehavior::NxDomain => {
                        proof {
                            lemma_stop_rewrites(st_i, q, rv, j as int, true);
                            lemma_stop_propagates(rw_start(), qs, rv, i as int, true);
                        }
                        set_response_code(msg, RCODE_NXDOMAIN);
                        let copy = msg.clone();
                        *msg = into_response(copy);
                        return Ok(
                            RewriteResult { synthetic_response: true, restore_original_queries: false },
                        );
                    },
                    RewriteBehavior::NoError => {
                        proof {
                            lemma_stop_rewrites(st_i, q, rv, j as int, false);
                            lemma_stop_propagates(rw_start(), qs, rv, i as int, false);
                        }
                        let copy = msg.clone();
                        *msg = into_response(copy);
                        return Ok(
                            RewriteResult { synthetic_response: true, restore_original_queries: false },
                        );
                    },
                    RewriteBehavior::Rewrite(target) => {
                        let ok = push_named_query(&mut scratch, target.as_str(), qtype);
                        if !ok {
                            proof {
                                lemma_fail_rewrites(st_i, q, rv, j as int);
                                lemma_fail_propagates(rw_start(), qs, rv, i as int);
                            }
                            return Err(RewriteError::InvalidName);
                        }
                        replace = true;
                    },
                    RewriteBehavior::AnswersOnly => {},
                }
                construct_rewrite_records(&mut scratch, msg, i, rw);
            }
            j = j + 1;
        }
        assert(rv.take(rs.len() as int) =~= rv);
        i = i + 1;
    }
    assert(qs.take(n as int) =~= qs);
    append_answers_of(msg, &scratch);
    if replace {
        replace_queries_with(msg, &scratch);
    }
    let total = answer_count_of(msg);
    Ok(RewriteResult { synthetic_response: total > 0, restore_original_queries: replace })
}

/// Number of answers of `msg`.
fn answer_count_of(msg: &Message) -> (n: usize)
    ensures
        n == msg_answers(*msg).len(),
{
    crate::dns::answer_count(msg)
}

/// A stop met at rewrite `j` of question `q` ends the processing of `q`'s rewrites.
proof fn lemma_stop_rewrites(st: RwState, q: Question, rs: Seq<RewriteView>, j: int, nx: bool)
    requires
        0 <= j < rs.len(),
        rw_rewrites(st, q, rs.take(j)) matches RwFlow::Go(s2) && rw_one(s2, q, rs[j])
            == RwFlow::Stop(nx),
    ensures
        rw_rewrites(st, q, rs) == RwFlow::Stop(nx),
    decreases rs.len() - j,
{
    if j + 1 == rs.len() {
        assert(rs.take(j + 1) =~= rs);
        assert(rs.drop_last() =~= rs.take(j));
    } else {
        lemma_stop_rewrites_prefix(st, q, rs, j + 1, nx);
    }
}

/// Once the rewrites of a prefix stop, all longer prefixes stop the same way.
proof fn lemma_stop_rewrites_prefix(st: RwState, q: Question, rs: Seq<RewriteView>, k: int, nx: bool)
    requires
        1 <= k <= rs.len(),
        rw_rewrites(st, q, rs.take(k - 1)) matches RwFlow::Go(s2) && rw_one(s2, q, rs[k - 1])
            == RwFlow::Stop(nx),
    ensures
        rw_rewrites(st, q, rs) == RwFlow::Stop(nx),
    decreases rs.len() - k,
{
    assert(rs.take(k).drop_last() =~= rs.take(k - 1));
    assert(rs.take(k).last() == rs[k - 1]);
    lemma_rewrites_stuck(st, q, rs, k, RwFlow::Stop(nx));
}

/// A non-`Go` outcome of a prefix of rewrites is the outcome of the whole list.
proof fn lemma_rewrites_stuck(st: RwState, q: Question, rs: Seq<RewriteView>, k: int, f: RwFlow)
    requires
        0 <= k <= rs.len(),
        rw_rewrites(st, q, rs.take(k)) == f,
        !(f is Go),
    ensures
        rw_rewrites(st, q, rs) == f,
    decreases rs.len() - k,
{
    if k == rs.len() {
        assert(rs.take(k) =~= rs);
    } else {
        assert(rs.take(k + 1).drop_last() =~= rs.take(k));
        lemma_rewrites_stuck(st, q, rs, k + 1, f);
    }
}

/// A failure at rewrite `j` of question `q` is the outcome of `q`'s rewrites.
proof fn lemma_fail_rewrites(st: RwState, q: Question, rs: Seq<RewriteView>, j: int)
    requires
        0 <= j < rs.len(),
        rw_rewrites(st, q, rs.take(j)) matches RwFlow::Go(s2) && rw_one(s2, q, rs[j])
            == RwFlow::Fail,
    ensures
        rw_rewrites(st, q, rs) == RwFlow::Fail,
{
    assert(rs.take(j + 1).drop_last() =~= rs.take(j));
    assert(rs.take(j + 1).last() == rs[j]);
    lemma_rewrites_stuck(st, q, rs, j + 1, RwFlow::Fail);
}

/// A non-`Go` outcome of a prefix of questions is the outcome of all questions.
proof fn lemma_queries_stuck(st: RwState, qs: Seq<Question>, rs: Seq<RewriteView>, k: int, f: RwFlow)
    requires
        0 <= k <= qs.len(),
        rw_queries(st, qs.take(k), rs) == f,
        !(f is Go),
    ensures
        rw_queries(st, qs, rs) == f,
    decreases qs.len() - k,
{
    if k == qs.len() {
        assert(qs.take(k) =~= qs);
    } else {
        assert(qs.take(k + 1).drop_last() =~= qs.take(k));
        lemma_queries_stuck(st, qs, rs, k + 1, f);
    }
}

/// A stop while processing question `i` is the outcome of the whole request.
proof fn lemma_stop_propagates(st: RwState, qs: Seq<Question>, rs: Seq<RewriteView>, i: int, nx: bool)
    requires
        0 <= i < qs.len(),
        rw_queries(st, qs.take(i), rs) matches RwFlow::Go(s2) && rw_rewrites(s2, qs[i], rs)
            == RwFlow::Stop(nx),
    ensures
        rw_queries(st, qs, rs) == RwFlow::Stop(nx),
{
    assert(qs.take(i + 1).drop_last() =~= qs.take(i));
    assert(qs.take(i + 1).last() == qs[i]);
    lemma_queries_stuck(st, qs, rs, i + 1, RwFlow::Stop(nx));
}

/// A failure while processing question `i` is the outcome of the whole request.
proof fn lemma_fail_propagates(st: RwState, qs: Seq<Question>, rs: Seq<RewriteView>, i: int)
    requires
        0 <= i < qs.len(),
        rw_queries(st, qs.take(i), rs) matches RwFlow::Go(s2) && rw_rewrites(s2, qs[i], rs)
            == RwFlow::Fail,
    ensures
        rw_queries(st, qs, rs) == RwFlow::Fail,
{
    assert(qs.take(i + 1).drop_last() =~= qs.take(i));
    assert(qs.take(i + 1).last() == qs[i]);
    lemma_queries_stuck(st, qs, rs, i + 1, RwFlow::Fail);
}

} // verus!
