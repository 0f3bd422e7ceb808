use hecklib::{
    find_lexer_rules, find_parser_rules, validate_closed_in_with, validate_endless_loops_into,
    validate_left_recursion_into, validate_rules, validate_token_rules_with,
    validate_unused_tokens_with, GrammarError, GrammarRule, GrammarToken, Pat, RawRules,
};

fn rule(name: &str, pat: Pat) -> (String, GrammarRule) {
    (name.to_string(), GrammarRule { name: name.to_string(), pat })
}

fn token_rule(name: &str, t: GrammarToken) -> (String, GrammarRule) {
    (
        name.to_string(),
        GrammarRule { name: name.to_string(), pat: Pat::Token(t) },
    )
}

#[test]
fn undefined_reference_is_one_error() {
    // foo: bar EOF  -- bar is never declared.
    let raw: RawRules = vec![rule(
        "foo",
        Pat::Sequence(vec![Pat::Rule("bar".to_string()), Pat::Rule("EOF".to_string())]),
    )];
    let lexer_rules = find_lexer_rules(&raw);
    let parser_rules = find_parser_rules(&raw).unwrap();
    let errs = validate_closed_in_with(&parser_rules, &lexer_rules);
    assert_eq!(errs.len(), 1);
    assert_eq!(errs[0].message, "foo: Unbound name 'bar'");
}

#[test]
fn grammar_error_position_constructor() {
    let e = GrammarError::new(7, "whatever".to_string());
    assert_eq!(e.pos, 7);
    assert_eq!((e.line, e.col), (0, 0));
    assert_eq!(e.message, "whatever");
}

#[test]
fn unreferenced_token_is_one_error() {
    // TOK is declared but no rule mentions it; EOF is referenced.
    let raw: RawRules = vec![
        rule(
            "r",
            Pat::Sequence(vec![
                Pat::Token(GrammarToken::Str("x".to_string())),
                Pat::Rule("EOF".to_string()),
            ]),
        ),
        token_rule("TOK", GrammarToken::Str("t".to_string())),
    ];
    let lexer_rules = find_lexer_rules(&raw);
    let parser_rules = find_parser_rules(&raw).unwrap();
    let errs = validate_unused_tokens_with(&parser_rules, &lexer_rules);
    assert_eq!(errs.len(), 1);
    assert_eq!(errs[0].message, "Unused token: <TOK>");
}

#[test]
fn malformed_token_rule_is_reported() {
    let raw: RawRules = vec![rule(
        "TOK",
        Pat::Sequence(vec![
            Pat::Token(GrammarToken::Str("a".to_string())),
            Pat::Token(GrammarToken::Str("b".to_string())),
        ]),
    )];
    let errs = validate_token_rules_with(&raw);
    assert_eq!(errs.len(), 1);
    assert_eq!(
        errs[0].message,
        "TOK: Token rule must be a literal, a regex, or an alternation of those"
    );
}

#[test]
fn loop_with_skippable_body_is_reported() {
    // r: ("x"?)%  -- the loop body can match without consuming.
    let raw: RawRules = vec![rule(
        "r",
        Pat::Loop(Box::new(Pat::Opt(Box::new(Pat::Token(GrammarToken::Str("x".to_string())))))),
    )];
    let lexer_rules = find_lexer_rules(&raw);
    let parser_rules = find_parser_rules(&raw).unwrap();
    let mut lints = Vec::new();
    validate_endless_loops_into(&parser_rules, &mut lints);
    assert_eq!(lints.len(), 1);
    assert_eq!(
        lints[0].message,
        "r: Endless loop: the loop body can match without consuming a token"
    );
    let _ = lexer_rules;
}

#[test]
fn loop_with_consuming_body_is_fine() {
    let raw: RawRules = vec![rule(
        "r",
        Pat::Loop(Box::new(Pat::Token(GrammarToken::Str("x".to_string())))),
    )];
    let parser_rules = find_parser_rules(&raw).unwrap();
    let mut lints = Vec::new();
    validate_endless_loops_into(&parser_rules, &mut lints);
    assert_eq!(lints.len(), 0);
}

#[test]
fn left_recursive_rule_is_reported() {
    // r: r "x"
    let raw: RawRules = vec![rule(
        "r",
        Pat::Sequence(vec![
            Pat::Rule("r".to_string()),
            Pat::Token(GrammarToken::Str("x".to_string())),
        ]),
    )];
    let parser_rules = find_parser_rules(&raw).unwrap();
    let mut lints = Vec::new();
    validate_left_recursion_into(&parser_rules, &mut lints);
    assert_eq!(lints.len(), 1);
    assert_eq!(
        lints[0].message,
        "r: Left recursion: the rule can reach itself before consuming a token"
    );
}

#[test]
fn left_recursion_through_a_skippable_prefix_is_reported() {
    // a: "x"? a  -- the optional prefix can be skipped, so `a` is reachable
    // from its own start.
    let raw: RawRules = vec![rule(
        "a",
        Pat::Sequence(vec![
            Pat::Opt(Box::new(Pat::Token(GrammarToken::Str("x".to_string())))),
            Pat::Rule("a".to_string()),
        ]),
    )];
    let parser_rules = find_parser_rules(&raw).unwrap();
    let mut lints = Vec::new();
    validate_left_recursion_into(&parser_rules, &mut lints);
    assert_eq!(lints.len(), 1);
}

#[test]
fn right_recursion_is_fine() {
    // a: "x" a?
    let raw: RawRules = vec![rule(
        "a",
        Pat::Sequence(vec![
            Pat::Token(GrammarToken::Str("x".to_string())),
            Pat::Opt(Box::new(Pat::Rule("a".to_string()))),
        ]),
    )];
    let parser_rules = find_parser_rules(&raw).unwrap();
    let mut lints = Vec::new();
    validate_left_recursion_into(&parser_rules, &mut lints);
    assert_eq!(lints.len(), 0);
}

#[test]
fn clean_grammar_has_no_diagnostics() {
    let raw: RawRules = vec![
        rule(
            "main",
            Pat::Sequence(vec![
                Pat::Rule("NUM".to_string()),
                Pat::Rule("EOF".to_string()),
            ]),
        ),
        token_rule("NUM", GrammarToken::Re("[0-9]+".to_string())),
    ];
    let lexer_rules = find_lexer_rules(&raw);
    let parser_rules = find_parser_rules(&raw).unwrap();
    let errs = validate_rules(&raw, &lexer_rules, &parser_rules);
    assert_eq!(errs.len(), 0);
}
