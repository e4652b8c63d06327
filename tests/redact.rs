use mail_reducer::redact::{
    join_document, reduce, reduce_lines, split_body, RedactionRuleSet, RenderContext, Rule,
    RuleError, RuleGroup,
};

fn ctx(year: &str) -> RenderContext {
    RenderContext { mail: "a@b.com".to_string(), year: year.to_string() }
}

fn rules(exact: Option<Vec<&str>>, regex: Option<Vec<&str>>) -> RedactionRuleSet {
    let own = |v: Vec<&str>| v.into_iter().map(|s| s.to_string()).collect::<Vec<String>>();
    RedactionRuleSet {
        groups: vec![RuleGroup { rules: vec![Rule { exact: exact.map(own), regex: regex.map(own) }] }],
    }
}

fn lines(v: &[&str]) -> Vec<String> {
    v.iter().map(|s| s.to_string()).collect()
}

#[test]
fn exact_rule_blanks_matching_line() {
    let r = rules(Some(vec!["remove-me"]), None);
    let out = reduce_lines(&lines(&["keep", "remove-me", "keep2"]), &ctx("2024"), &r);
    assert_eq!(out, Ok(lines(&["keep", "", "keep2"])));
}

#[test]
fn exact_rule_is_a_substring_test() {
    let r = rules(Some(vec!["{mail}"]), None);
    let out = reduce_lines(&lines(&["sent to a@b.com today", "other"]), &ctx("2024"), &r);
    assert_eq!(out, Ok(lines(&["", "other"])));
}

#[test]
fn regex_rule_depends_on_year() {
    let r = rules(None, Some(vec!["^{year}.*Copyright"]));
    let body = lines(&["2024 (c) Copyright connpass", "2024 ... Copyright", "text"]);
    assert_eq!(reduce_lines(&body, &ctx("2024"), &r), Ok(lines(&["", "", "text"])));
    assert_eq!(reduce_lines(&body, &ctx("2025"), &r), Ok(body.clone()));
}

#[test]
fn reduce_twice_changes_nothing() {
    let r = rules(Some(vec!["remove-me"]), Some(vec!["^{year}.*Copyright"]));
    let first = reduce_lines(&lines(&["keep", "remove-me", "2024 Copyright"]), &ctx("2024"), &r)
        .unwrap();
    assert_eq!(first, lines(&["keep", "", ""]));
    assert_eq!(reduce_lines(&first, &ctx("2024"), &r), Ok(first.clone()));
}

#[test]
fn invalid_regex_is_an_error() {
    let r = rules(None, Some(vec!["({year}"]));
    assert_eq!(
        reduce_lines(&lines(&["x"]), &ctx("2024"), &r),
        Err(RuleError::InvalidRegex("(2024".to_string()))
    );
}

#[test]
fn exact_match_before_invalid_regex_wins() {
    let r = rules(Some(vec!["x"]), Some(vec!["("]));
    assert_eq!(reduce_lines(&lines(&["x"]), &ctx("2024"), &r), Ok(lines(&[""])));
}

#[test]
fn later_groups_are_applied() {
    let r = RedactionRuleSet {
        groups: vec![
            RuleGroup { rules: vec![Rule { exact: Some(vec!["aaa".to_string()]), regex: None }] },
            RuleGroup { rules: vec![Rule { exact: None, regex: Some(vec!["b+$".to_string()]) }] },
        ],
    };
    let out = reduce_lines(&lines(&["aaa", "xbb", "c"]), &ctx("2024"), &r);
    assert_eq!(out, Ok(lines(&["", "", "c"])));
}

#[test]
fn empty_rule_set_keeps_everything() {
    let r = RedactionRuleSet { groups: vec![] };
    let body = lines(&["a", "", "b"]);
    assert_eq!(reduce_lines(&body, &ctx("2024"), &r), Ok(body.clone()));
}

#[test]
fn split_drops_carriage_returns_and_final_newline() {
    assert_eq!(split_body("a\r\nb\r\n\r\nc\n"), lines(&["a", "b", "", "c"]));
    assert_eq!(split_body(""), Vec::<String>::new());
    assert_eq!(split_body("\n"), lines(&[""]));
}

#[test]
fn reduce_splits_the_body() {
    let r = rules(Some(vec!["remove-me"]), None);
    let out = reduce("keep\r\nremove-me\r\nkeep2", &ctx("2024"), &r);
    assert_eq!(out, Ok(lines(&["keep", "", "keep2"])));
}

#[test]
fn join_puts_newlines_between_lines() {
    assert_eq!(join_document(&lines(&["a", "", "b"])), "a\n\nb".to_string());
    assert_eq!(join_document(&lines(&[])), "".to_string());
}

#[test]
fn blank_line_can_meet_invalid_regex_on_second_pass() {
    // The exact rule blanks "x" before the broken regex is reached; the blank line then
    // reaches it.
    let r = rules(Some(vec!["x"]), Some(vec!["("]));
    let first = reduce_lines(&lines(&["x"]), &ctx("2024"), &r).unwrap();
    assert_eq!(first, lines(&[""]));
    assert_eq!(
        reduce_lines(&first, &ctx("2024"), &r),
        Err(RuleError::InvalidRegex("(".to_string()))
    );
}
