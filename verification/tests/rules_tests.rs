use dns_adblock::rules::{
    add_rule, custom_rules_list, paginate_rules, remove_rule, rule_warnings, update_rule_action, PaginatedRules,
    Rule, RuleAction, RuleError, RulesQuery, UpdateRuleBody,
};

fn rule(domain: &str, action: RuleAction) -> Rule {
    Rule { domain: domain.to_string(), action }
}

fn domains(p: &PaginatedRules) -> Vec<String> {
    p.items.iter().map(|r| r.domain.clone()).collect()
}

#[test]
fn adblock_rule_block_is_domain() {
    assert_eq!(rule("ads.example.com", RuleAction::Block).adblock_rule(), "ads.example.com");
}

#[test]
fn adblock_rule_allow_has_exception_marker() {
    assert_eq!(rule("good.example.com", RuleAction::Allow).adblock_rule(), "@@good.example.com");
}

#[test]
fn rule_warnings_flag_marker_in_domain() {
    let rules = Some(vec![
        rule("@@x.com", RuleAction::Block),
        rule("plain.com", RuleAction::Block),
        rule("@@y.com", RuleAction::Allow),
    ]);
    let ws = rule_warnings(&rules);
    assert_eq!(ws.len(), 2);
    assert_eq!(
        ws[0],
        "block rule '@@x.com' begins with @@ which inverts the condition; use Allow action instead and remove the @@ prefix"
    );
    assert_eq!(ws[1], "allow rule '@@y.com' already contains @@; remove the prefix");
    assert!(rule_warnings(&None).is_empty());
}

#[test]
fn paginate_defaults_and_filter() {
    let mut v = Vec::new();
    for i in 0..120 {
        v.push(rule(&format!("d{}.example.com", i), RuleAction::Block));
    }
    let rules = Some(v);
    let p = paginate_rules(&rules, &RulesQuery { page: None, per_page: None, domain: None });
    assert_eq!(p.total, 120);
    assert_eq!(p.page, 1);
    assert_eq!(p.per_page, 50);
    assert_eq!(p.items.len(), 50);
    assert_eq!(p.items[0].domain, "d0.example.com");

    let p3 = paginate_rules(&rules, &RulesQuery { page: Some(3), per_page: Some(50), domain: None });
    assert_eq!(p3.items.len(), 20);
    assert_eq!(p3.items[0].domain, "d100.example.com");

    let f = paginate_rules(
        &rules,
        &RulesQuery { page: Some(0), per_page: Some(0), domain: Some("d11".to_string()) },
    );
    assert_eq!(f.page, 1);
    assert_eq!(f.per_page, 1);
    assert_eq!(f.total, 11);
    assert_eq!(domains(&f), vec!["d11.example.com".to_string()]);

    let big = paginate_rules(&rules, &RulesQuery { page: Some(1), per_page: Some(10_000), domain: None });
    assert_eq!(big.per_page, 500);
    assert_eq!(big.items.len(), 120);

    let none = paginate_rules(&None, &RulesQuery { page: None, per_page: None, domain: None });
    assert_eq!(none.total, 0);
    assert!(none.items.is_empty());
}

#[test]
fn add_rule_refuses_duplicate_domain() {
    let mut rules = None;
    assert_eq!(add_rule(&mut rules, rule("a.com", RuleAction::Block)), Ok(()));
    assert_eq!(rules.as_ref().unwrap().len(), 1);
    assert_eq!(add_rule(&mut rules, rule("a.com", RuleAction::Allow)), Err(RuleError::AlreadyExists));
    assert_eq!(rules.as_ref().unwrap().len(), 1);
    assert_eq!(add_rule(&mut rules, rule("b.com", RuleAction::Allow)), Ok(()));
    assert_eq!(rules.as_ref().unwrap()[1].domain, "b.com");
}

#[test]
fn update_rule_errors_and_success() {
    let mut none: Option<Vec<Rule>> = None;
    assert_eq!(
        update_rule_action(&mut none, "a.com", RuleAction::Allow).map(|r| r.domain),
        Err(RuleError::NoRulesConfigured)
    );
    let mut rules = Some(vec![rule("a.com", RuleAction::Block)]);
    assert_eq!(
        update_rule_action(&mut rules, "b.com", RuleAction::Allow).map(|r| r.domain),
        Err(RuleError::NotFound)
    );
    let body = UpdateRuleBody { action: RuleAction::Allow };
    let updated = update_rule_action(&mut rules, "a.com", body.action).unwrap();
    assert_eq!(updated.action, RuleAction::Allow);
    assert_eq!(rules.unwrap()[0].action, RuleAction::Allow);
}

#[test]
fn remove_rule_undoes_add() {
    let mut rules = Some(vec![rule("a.com", RuleAction::Block)]);
    assert_eq!(remove_rule(&mut rules, "x.com"), Err(RuleError::NotFound));
    add_rule(&mut rules, rule("b.com", RuleAction::Allow)).unwrap();
    assert_eq!(remove_rule(&mut rules, "b.com"), Ok(()));
    let left = rules.unwrap();
    assert_eq!(left.len(), 1);
    assert_eq!(left[0].domain, "a.com");
    let mut none: Option<Vec<Rule>> = None;
    assert_eq!(remove_rule(&mut none, "a.com"), Err(RuleError::NoRulesConfigured));
}

#[test]
fn custom_rules_become_one_filter_list() {
    let rules = Some(vec![rule("ads.com", RuleAction::Block), rule("ok.com", RuleAction::Allow)]);
    assert_eq!(custom_rules_list(&rules), "ads.com\n@@ok.com\n");
    assert_eq!(custom_rules_list(&None), "");
}
