//! Custom allow/block rules: their adblock syntax, configuration warnings,
//! paging for the dashboard, and the add/update/remove operations.

use vstd::prelude::*;
use crate::text::{
    chars_of, concat_str, contains_seq, copy_string, has_prefix, starts_with_chars, str_contains, str_eq, opt_string_view,
};

verus! {

/// What a custom rule does with the domains it matches.
#[derive(Debug, Clone, Copy, PartialEq, Eq, Structural)]
pub enum RuleAction {
    Block,
    Allow,
}

/// A custom rule for one domain pattern.
#[derive(Debug, Clone)]
pub struct Rule {
    pub domain: String,
    pub action: RuleAction,
}

/// The mathematical content of a `Rule`.
pub struct RuleView {
    pub domain: Seq<char>,
    pub action: RuleAction,
}

impl View for Rule {
    type V = RuleView;

    open spec fn view(&self) -> RuleView {
        RuleView { domain: self.domain@, action: self.action }
    }
}

/// The views of a sequence of rules.
pub open spec fn rules_view(v: Seq<Rule>) -> Seq<RuleView> {
    v.map_values(|r: Rule| r@)
}

/// The views of an optional list of rules.
pub open spec fn opt_rules_view(o: Option<Vec<Rule>>) -> Option<Seq<RuleView>> {
    match o {
        Some(v) => Some(rules_view(v@)),
        None => None,
    }
}

/// The adblock filter text of a rule: the domain itself for a block rule,
/// the domain behind the `@@` exception marker for an allow rule.
pub open spec fn rule_text(r: RuleView) -> Seq<char> {
    match r.action {
        RuleAction::Block => r.domain,
        RuleAction::Allow => "@@"@ + r.domain,
    }
}

impl Rule {
    /// A rule with the same domain and action.
    pub fn copy(&self) -> (r: Rule)
        ensures
            r@ == self@,
    {
        Rule { domain: copy_string(&self.domain), action: self.action }
    }

    /// The rule in adblock filter syntax.
    pub fn adblock_rule(&self) -> (s: String)
        ensures
            s@ == rule_text(self@),
    {
        match self.action {
            RuleAction::Block => copy_string(&self.domain),
            RuleAction::Allow => concat_str("@@", self.domain.as_str()),
        }
    }
}

/// The custom rules as one filter list: their adblock texts, one per line.
pub open spec fn rules_list_text(rules: Seq<RuleView>) -> Seq<char>
    decreases rules.len(),
{
    if rules.len() == 0 {
        seq![]
    } else {
        rules_list_text(rules.drop_last()) + rule_text(rules.last()) + "\n"@
    }
}

/// The custom rules as one filter list for the blocking engine (empty when
/// there are none).
pub fn custom_rules_list(rules: &Option<Vec<Rule>>) -> (s: String)
    ensures
        s@ == match opt_rules_view(*rules) {
            Some(rs) => rules_list_text(rs),
            None => Seq::<char>::empty(),
        },
{
    let mut out = String::new();
    match rules {
        None => {},
        Some(v) => {
            let ghost rs = rules_view(v@);
            let mut i: usize = 0;
            while i < v.len()
                invariant
                    i <= v@.len(),
                    rs == rules_view(v@),
                    out@ == rules_list_text(rs.take(i as int)),
                decreases v.len() - i,
            {
                proof {
                    assert(rs.take(i + 1).drop_last() =~= rs.take(i as int));
                    assert(rs.take(i + 1).last() == v@[i as int]@);
                }
                let line = v[i].adblock_rule();
                let a = concat_str(out.as_str(), line.as_str());
                out = concat_str(a.as_str(), "\n");
                i = i + 1;
            }
            assert(rs.take(v.len() as int) =~= rs);
        },
    }
    out
}

/// The warning for a rule whose domain already carries the `@@` marker, if it does.
pub open spec fn rule_warning(r: RuleView) -> Option<Seq<char>> {
    if has_prefix(r.domain, "@@"@) {
        Some(
            match r.action {
                RuleAction::Block => "block rule '"@ + r.domain
                    + "' begins with @@ which inverts the condition; use Allow action instead and remove the @@ prefix"@,
                RuleAction::Allow => "allow rule '"@ + r.domain
                    + "' already contains @@; remove the prefix"@,
            },
        )
    } else {
        None
    }
}

/// The warnings for `rules`, in the order of the rules.
pub open spec fn rule_warnings_spec(rules: Seq<RuleView>) -> Seq<Seq<char>>
    decreases rules.len(),
{
    if rules.len() == 0 {
        seq![]
    } else {
        let rest = rule_warnings_spec(rules.drop_last());
        match rule_warning(rules.last()) {
            Some(w) => rest.push(w),
            None => rest,
        }
    }
}

/// The warning for one rule.
pub fn warning_for(rule: &Rule) -> (w: Option<String>)
    ensures
        match (w, rule_warning(rule@)) {
            (Some(a), Some(b)) => a@ == b,
            (None, None) => true,
            _ => false,
        },
{
    let d = chars_of(rule.domain.as_str());
    let marker = chars_of("@@");
    if !starts_with_chars(&d, &marker) {
        return None;
    }
    let text = match rule.action {
        RuleAction::Block => {
            let a = concat_str("block rule '", rule.domain.as_str());
            concat_str(
                a.as_str(),
                "' begins with @@ which inverts the condition; use Allow action instead and remove the @@ prefix",
            )
        },
        RuleAction::Allow => {
            let a = concat_str("allow rule '", rule.domain.as_str());
            concat_str(a.as_str(), "' already contains @@; remove the prefix")
        },
    };
    Some(text)
}

/// The warnings for rules whose domain begins with `@@`, one per such rule, in order.
pub fn rule_warnings(rules: &Option<Vec<Rule>>) -> (ws: Vec<String>)
    ensures
        ws@.map_values(|s: String| s@) == match opt_rules_view(*rules) {
            Some(v) => rule_warnings_spec(v),
            None => seq![],
        },
{
    let mut ws: Vec<String> = Vec::new();
    match rules {
        None => {
            assert(ws@.map_values(|s: String| s@) =~= seq![]);
        },
        Some(v) => {
            let mut i: usize = 0;
            while i < v.len()
                invariant
                    i <= v.len(),
                    ws@.map_values(|s: String| s@) == rule_warnings_spec(
                        rules_view(v@).take(i as int),
                    ),
                decreases v.len() - i,
            {
                let w = warning_for(&v[i]);
                proof {
                    let t = rules_view(v@).take(i + 1);
                    assert(t.drop_last() =~= rules_view(v@).take(i as int));
                    assert(t.last() == v@[i as int]@);
                }
                match w {
                    Some(s) => {
                        let ghost before = ws@;
                        ws.push(s);
                        assert(ws@.map_values(|s: String| s@) =~= before.map_values(
                            |s: String| s@,
                        ).push(s@));
                    },
                    None => {},
                }
                i = i + 1;
            }
            assert(rules_view(v@).take(v.len() as int) =~= rules_view(v@));
        },
    }
    ws
}

/// Paging and filter parameters of a rule listing.
#[derive(Debug, Clone)]
pub struct RulesQuery {
    pub page: Option<u32>,
    pub per_page: Option<u32>,
    pub domain: Option<String>,
}

/// Body of a request that changes a rule's action.
#[derive(Debug, Clone, Copy)]
pub struct UpdateRuleBody {
    pub action: RuleAction,
}

/// One page of rules.
#[derive(Debug, Clone)]
pub struct PaginatedRules {
    pub total: i64,
    pub page: u32,
    pub per_page: u32,
    pub items: Vec<Rule>,
}

/// The page number used for a request: 1 when absent or zero.
pub open spec fn effective_page(p: Option<u32>) -> u32 {
    match p {
        None => 1,
        Some(x) => if x < 1 { 1 } else { x },
    }
}

/// The page size used for a request: 50 when absent, otherwise clamped to `1..=500`.
pub open spec fn effective_per_page(p: Option<u32>) -> u32 {
    match p {
        None => 50,
        Some(x) => if x < 1 { 1 } else if x > 500 { 500 } else { x },
    }
}

/// Whether a rule passes the optional domain filter (substring match).
pub open spec fn passes_filter(r: RuleView, filter: Option<Seq<char>>) -> bool {
    match filter {
        None => true,
        Some(n) => contains_seq(r.domain, n),
    }
}

/// The rules of `s` that pass the filter, in order.
pub open spec fn matching_rules(s: Seq<RuleView>, filter: Option<Seq<char>>) -> Seq<RuleView>
    decreases s.len(),
{
    if s.len() == 0 {
        seq![]
    } else {
        let rest = matching_rules(s.drop_last(), filter);
        if passes_filter(s.last(), filter) {
            rest.push(s.last())
        } else {
            rest
        }
    }
}

/// Page `page` (counted from 1) of `s`, `per` items per page.
pub open spec fn page_of(s: Seq<RuleView>, page: u32, per: u32) -> Seq<RuleView> {
    let start = (page - 1) * per;
    if start >= s.len() {
        seq![]
    } else if start + per >= s.len() {
        s.subrange(start, s.len() as int)
    } else {
        s.subrange(start, start + per)
    }
}

/// Law: paging loses no rule and shows none twice: rule `k` of the matching
/// rules is item `k % per` of page `k / per + 1`.
pub proof fn law_page_holds_rule(s: Seq<RuleView>, per: u32, k: int)
    requires
        per > 0,
        0 <= k < s.len(),
        k / (per as int) + 1 <= u32::MAX,
    ensures
        ({
            let items = page_of(s, (k / (per as int) + 1) as u32, per);
            &&& k % (per as int) < items.len()
            &&& items[k % (per as int)] == s[k]
        }),
{
    let d = per as int;
    let q = k / d;
    let r = k % d;
    assert(q * d + r == k && 0 <= r < d && q >= 0) by (nonlinear_arith)
        requires
            d > 0,
            k >= 0,
            q == k / d,
            r == k % d,
    ;
    let p = (q + 1) as u32;
    assert(p as int - 1 == q);
    let start = (p - 1) * per;
    assert(start == q * d);
    assert(start <= k < start + d);
}

/// The rules that pass the filter.
pub fn filter_rules(v: &Vec<Rule>, filter: &Option<String>) -> (r: Vec<Rule>)
    ensures
        rules_view(r@) == matching_rules(rules_view(v@), opt_string_view(*filter)),
{
    let ghost s = rules_view(v@);
    let mut r: Vec<Rule> = Vec::new();
    let mut i: usize = 0;
    while i < v.len()
        invariant
            s == rules_view(v@),
            i <= v.len(),
            rules_view(r@) == matching_rules(s.take(i as int), opt_string_view(*filter)),
        decreases v.len() - i,
    {
        proof {
            assert(s.take(i + 1).drop_last() =~= s.take(i as int));
            assert(s.take(i + 1).last() == s[i as int]);
        }
        let keep = match filter {
            None => true,
            Some(n) => str_contains(v[i].domain.as_str(), n.as_str()),
        };
        if keep {
            let ghost before = r@;
            let c = v[i].copy();
            r.push(c);
            assert(rules_view(r@) =~= rules_view(before).push(s[i as int]));
        }
        i = i + 1;
    }
    assert(s.take(v.len() as int) =~= s);
    r
}

/// One page of the configured rules, filtered by the query's domain substring.
pub fn paginate_rules(rules: &Option<Vec<Rule>>, query: &RulesQuery) -> (p: PaginatedRules)
    ensures
        p.page == effective_page(query.page),
        p.per_page == effective_per_page(query.per_page),
        ({
            let all = match opt_rules_view(*rules) {
                Some(v) => v,
                None => seq![],
            };
            let m = matching_rules(all, opt_string_view(query.domain));
            &&& p.total == #[verifier::truncate] (m.len() as i64)
            &&& rules_view(p.items@) == page_of(m, p.page, p.per_page)
        }),
{
    let page: u32 = match query.page {
        None => 1,
        Some(x) => if x < 1 { 1 } else { x },
    };
    let per_page: u32 = match query.per_page {
        None => 50,
        Some(x) => if x < 1 { 1 } else if x > 500 { 500 } else { x },
    };
    let empty: Vec<Rule> = Vec::new();
    let all = match rules {
        Some(v) => v,
        None => &empty,
    };
    assert(rules_view(empty@) =~= seq![]);
    let filtered = filter_rules(all, &query.domain);
    let ghost m = rules_view(filtered@);
    let total = #[verifier::truncate] (filtered.len() as i64);
    let pm1: u64 = page as u64 - 1;
    let per64: u64 = per_page as u64;
    assert(pm1 * per64 <= 4294967295u64 * 500) by (nonlinear_arith)
        requires
            pm1 <= 4294967295u64,
            per64 <= 500,
    ;
    let start: u64 = pm1 * per64;
    let len: u64 = filtered.len() as u64;
    let mut items: Vec<Rule> = Vec::new();
    if start < len {
        let end: u64 = if start + per_page as u64 >= len { len } else { start + per_page as u64 };
        let mut i: usize = start as usize;
        let e: usize = end as usize;
        while i < e
            invariant
                m == rules_view(filtered@),
                start <= i <= e <= filtered.len(),
                rules_view(items@) == m.subrange(start as int, i as int),
            decreases e - i,
        {
            let ghost before = items@;
            let c = filtered[i].copy();
            assert(c@ == m[i as int]);
            items.push(c);
            assert(rules_view(items@) =~= rules_view(before).push(m[i as int]));
            assert(rules_view(items@) =~= m.subrange(start as int, i + 1));
            i = i + 1;
        }
    } else {
        assert(rules_view(items@) =~= seq![]);
    }
    PaginatedRules { total, page, per_page, items }
}

/// Whether some rule in `s` has domain `d`.
pub open spec fn has_domain(s: Seq<RuleView>, d: Seq<char>) -> bool {
    exists|i: int| 0 <= i < s.len() && #[trigger] s[i].domain == d
}

/// `s` without the rules whose domain is `d`, the others kept in order.
pub open spec fn without_domain(s: Seq<RuleView>, d: Seq<char>) -> Seq<RuleView>
    decreases s.len(),
{
    if s.len() == 0 {
        seq![]
    } else {
        let rest = without_domain(s.drop_last(), d);
        if s.last().domain == d {
            rest
        } else {
            rest.push(s.last())
        }
    }
}

/// Index of the first rule in `s` with domain `d` (meaningful when `has_domain(s, d)`).
pub open spec fn first_with_domain(s: Seq<RuleView>, d: Seq<char>) -> int
    decreases s.len(),
{
    if s.len() == 0 {
        0
    } else if s[0].domain == d {
        0
    } else {
        1 + first_with_domain(s.drop_first(), d)
    }
}

/// Whether no two rules of `s` share a domain.
pub open spec fn domains_distinct(s: Seq<RuleView>) -> bool {
    forall|i: int, j: int| 0 <= i < j < s.len() ==> s[i].domain != s[j].domain
}

/// Why a change to the rule list was refused.
#[derive(Debug, Clone, Copy, PartialEq, Eq, Structural)]
pub enum RuleError {
    /// A rule for the same domain exists already.
    AlreadyExists,
    /// The configuration holds no rule list.
    NoRulesConfigured,
    /// No rule has the given domain.
    NotFound,
}

/// Index of the first rule of `v` whose domain is `d`, if any.
pub fn find_domain(v: &Vec<Rule>, d: &str) -> (r: Option<usize>)
    ensures
        match r {
            Some(i) => i < v.len() && has_domain(rules_view(v@), d@) && i == first_with_domain(
                rules_view(v@),
                d@,
            ),
            None => !has_domain(rules_view(v@), d@),
        },
{
    let ghost s = rules_view(v@);
    let mut i: usize = 0;
    assert(s.skip(0) =~= s);
    while i < v.len()
        invariant
            s == rules_view(v@),
            i <= v.len(),
            forall|j: int| 0 <= j < i ==> s[j].domain != d@,
            first_with_domain(s, d@) == i + first_with_domain(s.skip(i as int), d@),
        decreases v.len() - i,
    {
        if str_eq(v[i].domain.as_str(), d) {
            proof {
                assert(s.skip(i as int)[0] == s[i as int]);
                assert(s[i as int].domain == d@);
            }
            return Some(i);
        }
        proof {
            assert(s.skip(i as int).drop_first() =~= s.skip(i + 1));
        }
        i = i + 1;
    }
    None
}

/// Adds `rule` to the rule list, refusing a second rule for the same domain.
pub fn add_rule(rules: &mut Option<Vec<Rule>>, rule: Rule) -> (r: Result<(), RuleError>)
    ensures
        match opt_rules_view(*old(rules)) {
            None => r is Ok && opt_rules_view(*final(rules)) == Some(seq![rule@]),
            Some(v) => if has_domain(v, rule.domain@) {
                r == Err::<(), RuleError>(RuleError::AlreadyExists) && *final(rules) == *old(
                    rules,
                )
            } else {
                r is Ok && opt_rules_view(*final(rules)) == Some(v.push(rule@))
            },
        },
{
    let current = rules.take();
    match current {
        None => {
            let mut v: Vec<Rule> = Vec::new();
            let ghost rv = rule@;
            v.push(rule);
            assert(rules_view(v@) =~= seq![rv]);
            *rules = Some(v);
            Ok(())
        },
        Some(mut v) => {
            if find_domain(&v, rule.domain.as_str()).is_some() {
                *rules = Some(v);
                Err(RuleError::AlreadyExists)
            } else {
                let ghost before = v@;
                let ghost rv = rule@;
                v.push(rule);
                assert(rules_view(v@) =~= rules_view(before).push(rv));
                *rules = Some(v);
                Ok(())
            }
        },
    }
}

/// Sets the action of the first rule for `domain`, returning the updated rule.
pub fn update_rule_action(rules: &mut Option<Vec<Rule>>, domain: &str, action: RuleAction) -> (r:
    Result<Rule, RuleError>)
    ensures
        match opt_rules_view(*old(rules)) {
            None => r == Err::<Rule, RuleError>(RuleError::NoRulesConfigured) && *final(rules)
                == *old(rules),
            Some(v) => if has_domain(v, domain@) {
                let i = first_with_domain(v, domain@);
                &&& r is Ok
                &&& r->Ok_0@ == (RuleView { domain: domain@, action })
                &&& opt_rules_view(*final(rules)) == Some(
                    v.update(i, RuleView { domain: domain@, action }),
                )
            } else {
                r == Err::<Rule, RuleError>(RuleError::NotFound) && *final(rules) == *old(rules)
            },
        },
{
    let current = rules.take();
    match current {
        None => {
            *rules = None;
            Err(RuleError::NoRulesConfigured)
        },
        Some(mut v) => {
            match find_domain(&v, domain) {
                None => {
                    *rules = Some(v);
                    Err(RuleError::NotFound)
                },
                Some(i) => {
                    let ghost before = v@;
                    let updated = Rule { domain: copy_string(&v[i].domain), action };
                    let result = updated.copy();
                    v.set(i, updated);
                    proof {
                        let s = rules_view(before);
                        lemma_first_with_domain(s, domain@);
                        assert(s[i as int].domain == domain@);
                        assert(rules_view(v@) =~= s.update(
                            i as int,
                            RuleView { domain: domain@, action },
                        ));
                    }
                    *rules = Some(v);
                    Ok(result)
                },
            }
        },
    }
}

/// The rules of `v` whose domain is not `d`, in order.
pub fn keep_other_domains(v: &Vec<Rule>, d: &str) -> (r: Vec<Rule>)
    ensures
        rules_view(r@) == without_domain(rules_view(v@), d@),
{
    let ghost s = rules_view(v@);
    let mut r: Vec<Rule> = Vec::new();
    let mut i: usize = 0;
    while i < v.len()
        invariant
            s == rules_view(v@),
            i <= v.len(),
            rules_view(r@) == without_domain(s.take(i as int), d@),
        decreases v.len() - i,
    {
        proof {
            assert(s.take(i + 1).drop_last() =~= s.take(i as int));
            assert(s.take(i + 1).last() == s[i as int]);
        }
        if !str_eq(v[i].domain.as_str(), d) {
            let ghost before = r@;
            let c = v[i].copy();
            r.push(c);
            assert(rules_view(r@) =~= rules_view(before).push(s[i as int]));
        }
        i = i + 1;
    }
    assert(s.take(v.len() as int) =~= s);
    r
}

/// Removing the rules for `d` shortens the list exactly when some rule had domain `d`.
pub proof fn lemma_without_domain_len(s: Seq<RuleView>, d: Seq<char>)
    ensures
        without_domain(s, d).len() <= s.len(),
        (without_domain(s, d).len() == s.len()) == !has_domain(s, d),
        !has_domain(s, d) ==> without_domain(s, d) == s,
    decreases s.len(),
{
    if s.len() > 0 {
        lemma_without_domain_len(s.drop_last(), d);
        if has_domain(s.drop_last(), d) {
            let i = choose|i: int| 0 <= i < s.drop_last().len() && #[trigger] s.drop_last()[i].domain == d;
            assert(s[i].domain == d);
        }
        if !has_domain(s, d) {
            assert forall|i: int| 0 <= i < s.drop_last().len() implies #[trigger] s.drop_last()[i].domain != d by {
                assert(s[i] == s.drop_last()[i]);
            }
            assert(s.last() == s[s.len() - 1]);
            assert(s.drop_last().push(s.last()) =~= s);
        }
        if has_domain(s, d) && s.last().domain != d {
            let i = choose|i: int| 0 <= i < s.len() && #[trigger] s[i].domain == d;
            assert(i < s.len() - 1);
            assert(s.drop_last()[i].domain == d);
        }
    }
}

/// Removes every rule for `domain`; refuses when there is no rule list or no such rule.
pub fn remove_rule(rules: &mut Option<Vec<Rule>>, domain: &str) -> (r: Result<(), RuleError>)
    ensures
        match opt_rules_view(*old(rules)) {
            None => r == Err::<(), RuleError>(RuleError::NoRulesConfigured) && *final(rules)
                == *old(rules),
            Some(v) => if has_domain(v, domain@) {
                r is Ok && opt_rules_view(*final(rules)) == Some(without_domain(v, domain@))
            } else {
                r == Err::<(), RuleError>(RuleError::NotFound) && *final(rules) == *old(rules)
            },
        },
{
    let current = rules.take();
    match current {
        None => {
            *rules = None;
            Err(RuleError::NoRulesConfigured)
        },
        Some(v) => {
            let kept = keep_other_domains(&v, domain);
            proof {
                lemma_without_domain_len(rules_view(v@), domain@);
            }
            if kept.len() == v.len() {
                *rules = Some(v);
                Err(RuleError::NotFound)
            } else {
                *rules = Some(kept);
                Ok(())
            }
        },
    }
}

/// Law: removing a domain right after adding a rule for it gives back the list
/// as it was before the rule was added.
pub proof fn law_remove_undoes_add(v: Seq<RuleView>, rule: RuleView)
    requires
        !has_domain(v, rule.domain),
    ensures
        without_domain(v.push(rule), rule.domain) == v,
{
    assert(v.push(rule).drop_last() =~= v);
    lemma_without_domain_len(v, rule.domain);
}

/// Law: after a removal no rule for the removed domain is left, and every rule
/// for another domain is still there.
pub proof fn law_remove_clears_domain(v: Seq<RuleView>, d: Seq<char>)
    ensures
        !has_domain(without_domain(v, d), d),
        forall|i: int|
            0 <= i < v.len() && v[i].domain != d ==> without_domain(v, d).contains(#[trigger] v[i]),
    decreases v.len(),
{
    if v.len() > 0 {
        law_remove_clears_domain(v.drop_last(), d);
        let rest = without_domain(v.drop_last(), d);
        if v.last().domain != d {
            assert forall|i: int| 0 <= i < rest.push(v.last()).len() implies #[trigger] rest.push(
                v.last(),
            )[i].domain != d by {
                if i < rest.len() {
                    if rest[i].domain == d {
                        assert(has_domain(rest, d));
                    }
                }
            }
        }
        assert forall|i: int|
            0 <= i < v.len() && v[i].domain != d implies without_domain(v, d).contains(
            #[trigger] v[i],
        ) by {
            if i < v.len() - 1 {
                assert(v.drop_last()[i] == v[i]);
                assert(rest.contains(v[i]));
                if v.last().domain != d {
                    let k = choose|k: int| 0 <= k < rest.len() && rest[k] == v[i];
                    assert(rest.push(v.last())[k] == v[i]);
                }
            } else {
                assert(rest.push(v.last())[rest.len() as int] == v[i]);
            }
        }
    }
}

/// Law: adding a rule for a new domain keeps the domains of the list distinct.
pub proof fn law_add_keeps_domains_distinct(v: Seq<RuleView>, rule: RuleView)
    requires
        domains_distinct(v),
        !has_domain(v, rule.domain),
    ensures
        domains_distinct(v.push(rule)),
{
    assert forall|i: int, j: int| 0 <= i < j < v.push(rule).len() implies v.push(rule)[i].domain
        != v.push(rule)[j].domain by {
        if j == v.len() {
            assert(v.push(rule)[i] == v[i]);
        }
    }
}

/// Law: updating an action leaves the domains of all rules, and the list length, unchanged.
pub proof fn law_update_keeps_domains(v: Seq<RuleView>, d: Seq<char>, action: RuleAction)
    requires
        has_domain(v, d),
    ensures
        0 <= first_with_domain(v, d) < v.len(),
        v[first_with_domain(v, d)].domain == d,
        v.update(first_with_domain(v, d), RuleView { domain: d, action }).len() == v.len(),
        forall|k: int|
            0 <= k < v.len() ==> #[trigger] v.update(
                first_with_domain(v, d),
                RuleView { domain: d, action },
            )[k].domain == v[k].domain,
    decreases v.len(),
{
    lemma_first_with_domain(v, d);
}

/// The first index with domain `d` is in range and carries `d`.
pub proof fn lemma_first_with_domain(v: Seq<RuleView>, d: Seq<char>)
    requires
        has_domain(v, d),
    ensures
        0 <= first_with_domain(v, d) < v.len(),
        v[first_with_domain(v, d)].domain == d,
        forall|k: int| 0 <= k < first_with_domain(v, d) ==> v[k].domain != d,
    decreases v.len(),
{
    if v[0].domain != d {
        let i = choose|i: int| 0 <= i < v.len() && #[trigger] v[i].domain == d;
        assert(v.drop_first()[i - 1].domain == d);
        lemma_first_with_domain(v.drop_first(), d);
        assert forall|k: int| 0 <= k < first_with_domain(v, d) implies v[k].domain != d by {
            if k > 0 {
                assert(v.drop_first()[k - 1] == v[k]);
            }
        }
    }
}

} // verus!
