use hecklib::{
    find_lexer_rules, find_parser_rules, lex, lex_and_parse_with_grammar, parse_with_rules,
    CaptureInfo, GrammarRule, GrammarToken, ParseError, Pat, RawRules, Token,
};

fn token_rule(name: &str, t: GrammarToken) -> (String, GrammarRule) {
    (
        name.to_string(),
        GrammarRule { name: name.to_string(), pat: Pat::Token(t) },
    )
}

fn rule(name: &str, pat: Pat) -> (String, GrammarRule) {
    (name.to_string(), GrammarRule { name: name.to_string(), pat })
}

fn fresh_cap(inner: Pat) -> Pat {
    Pat::Cap(CaptureInfo::Unnamed, Box::new(inner))
}

fn greeting_grammar() -> RawRules {
    vec![
        rule(
            "greeting",
            Pat::Sequence(vec![
                Pat::Token(GrammarToken::Str("hello".to_string())),
                fresh_cap(Pat::Rule("NAME".to_string())),
                Pat::Rule("EOF".to_string()),
            ]),
        ),
        token_rule("NAME", GrammarToken::Re("[a-z]+".to_string())),
        token_rule("_WS", GrammarToken::Re("[ ]+".to_string())),
    ]
}

#[test]
fn round_trip_on_trivial_grammar() {
    let raw = greeting_grammar();
    let m = lex_and_parse_with_grammar(&raw, "hello world", "greeting").unwrap();
    assert_eq!(m.rule, "greeting");
    assert_eq!(m.captures.len(), 1);
    let name = m.single(0).expect("slot 0 should hold a single match");
    assert_eq!(name.rule, "NAME");
    let tok = name.token().expect("a token-rule match holds its token");
    assert_eq!(tok.name, "NAME");
    assert_eq!((tok.start, tok.end), (6, 11));
    assert_eq!(tok.slice("hello world"), "world");
}

#[test]
fn match_tree_rendering() {
    let raw = greeting_grammar();
    let m = lex_and_parse_with_grammar(&raw, "hello world", "greeting").unwrap();
    assert_eq!(
        m.fmt("hello world"),
        "Match<greeting>{\n  0  Token<NAME>(\"world\")>\n}"
    );
}

#[test]
fn missing_token_is_reported_with_scope_and_position() {
    let raw = greeting_grammar();
    let err = lex_and_parse_with_grammar(&raw, "hello", "greeting").unwrap_err();
    assert_eq!(err, "greeting:1:6: Expected token <NAME>, found EOF");
}

#[test]
fn non_backtracking_rejection() {
    // rule: ("a" "b") | "a"  against tokens  a c : the first alternative's
    // verdict is a match on lookahead "a", the engine commits to it, and
    // the failure against "b" is not undone by trying the second one.
    let raw: RawRules = vec![rule(
        "rule",
        Pat::AnyOf(vec![
            Pat::Sequence(vec![
                Pat::Token(GrammarToken::Str("a".to_string())),
                Pat::Token(GrammarToken::Str("b".to_string())),
            ]),
            Pat::Token(GrammarToken::Str("a".to_string())),
        ]),
    )];
    let rules = find_parser_rules(&raw).unwrap();
    let tokens = vec![
        Token::new("a".to_string(), 0, 1),
        Token::new("c".to_string(), 2, 3),
    ];
    match parse_with_rules("rule", &rules, tokens, "a c") {
        Err(ParseError::ExpectedToken { expected, found, pos, .. }) => {
            assert_eq!(expected, "b");
            assert_eq!(found, "c");
            assert_eq!(pos, 2);
        }
        other => panic!("expected a committed failure, got {:?}", other),
    }
}

#[test]
fn alternation_parse_fills_the_reconciled_slots() {
    // rule: $A | $B $C -- matching only A leaves the second slot absent;
    // matching B C fills both.
    let raw: RawRules = vec![
        rule(
            "rule",
            Pat::Sequence(vec![
                Pat::AnyOf(vec![
                    fresh_cap(Pat::Rule("A".to_string())),
                    Pat::Sequence(vec![
                        fresh_cap(Pat::Rule("B".to_string())),
                        fresh_cap(Pat::Rule("C".to_string())),
                    ]),
                ]),
                Pat::Rule("EOF".to_string()),
            ]),
        ),
        token_rule("A", GrammarToken::Str("a".to_string())),
        token_rule("B", GrammarToken::Str("b".to_string())),
        token_rule("C", GrammarToken::Str("c".to_string())),
        token_rule("_WS", GrammarToken::Re("[ ]+".to_string())),
    ];
    let m = lex_and_parse_with_grammar(&raw, "a", "rule").unwrap();
    assert_eq!(m.captures.len(), 2);
    let a = m.single(0).expect("slot 0 holds the A match");
    assert_eq!(a.rule, "A");
    assert!(m.optional(1).expect("slot 1 is optional").is_none());

    let m2 = lex_and_parse_with_grammar(&raw, "b c", "rule").unwrap();
    let b = m2.single(0).expect("slot 0 holds the B match");
    assert_eq!(b.rule, "B");
    let c = m2.optional(1).expect("slot 1 is optional").expect("filled on this branch");
    assert_eq!(c.rule, "C");
}

#[test]
fn zeroplus_collects_multiple_captures() {
    let raw: RawRules = vec![
        rule(
            "list",
            Pat::Sequence(vec![
                Pat::ZeroPlus(Box::new(fresh_cap(Pat::Rule("NUM".to_string())))),
                Pat::Rule("EOF".to_string()),
            ]),
        ),
        token_rule("NUM", GrammarToken::Re("[0-9]+".to_string())),
        token_rule("_WS", GrammarToken::Re("[ ]+".to_string())),
    ];
    let m = lex_and_parse_with_grammar(&raw, "1 22 333", "list").unwrap();
    let items = m.multiple(0).expect("slot 0 is repeated");
    assert_eq!(items.len(), 3);
    assert_eq!((items[2].token().unwrap().start, items[2].token().unwrap().end), (5, 8));
}

#[test]
fn loop_runs_until_its_break_token() {
    // body: ( "]"! "x" )%  -- consumes x tokens until "]" is next.
    let raw: RawRules = vec![rule(
        "items",
        Pat::Loop(Box::new(Pat::Sequence(vec![
            Pat::BreakOnToken(GrammarToken::Str("]".to_string())),
            Pat::Token(GrammarToken::Str("x".to_string())),
        ]))),
    )];
    let rules = find_parser_rules(&raw).unwrap();
    let tokens = vec![
        Token::new("x".to_string(), 0, 1),
        Token::new("x".to_string(), 1, 2),
        Token::new("]".to_string(), 2, 3),
    ];
    let m = parse_with_rules("items", &rules, tokens, "xx]").unwrap();
    assert_eq!(m.rule, "items");
}

#[test]
fn unclosed_loop_is_reported() {
    // The loop's body consumes any token (even the end marker), so the
    // stream runs out before the break token is ever seen.
    let raw: RawRules = vec![rule(
        "items",
        Pat::Loop(Box::new(Pat::Sequence(vec![
            Pat::BreakOnToken(GrammarToken::Str("]".to_string())),
            Pat::AnyOf(vec![
                Pat::Token(GrammarToken::Str("x".to_string())),
                Pat::Rule("EOF".to_string()),
            ]),
        ]))),
    )];
    let rules = find_parser_rules(&raw).unwrap();
    let tokens = vec![Token::new("x".to_string(), 0, 1)];
    match parse_with_rules("items", &rules, tokens, "x") {
        Err(ParseError::UnclosedLoop { pos, .. }) => assert_eq!(pos, 0),
        other => panic!("expected an unclosed loop, got {:?}", other),
    }
}

#[test]
fn missing_start_rule_is_reported() {
    let raw: RawRules = vec![rule("r", Pat::Token(GrammarToken::Str("a".to_string())))];
    let rules = find_parser_rules(&raw).unwrap();
    match parse_with_rules("nope", &rules, vec![], "") {
        Err(ParseError::RuleNotFound { name }) => assert_eq!(name, "nope"),
        other => panic!("expected a missing rule, got {:?}", other),
    }
}

#[test]
fn pattern_rendering() {
    let pat = Pat::Sequence(vec![
        Pat::Token(GrammarToken::Str("a".to_string())),
        Pat::Opt(Box::new(Pat::Rule("b".to_string()))),
        Pat::Cap(CaptureInfo::Assigned(3), Box::new(Pat::Rule("x".to_string()))),
        Pat::AnyOf(vec![
            Pat::Token(GrammarToken::Re("[0-9]".to_string())),
            Pat::BreakOnToken(GrammarToken::Named("END".to_string())),
        ]),
    ]);
    assert_eq!(pat.fmt(), "(\"a\" 'b'? $3<'x'> (r#\"[0-9]\"# | <END>!))");
}

#[test]
fn grammar_errors_abort_the_pipeline() {
    let raw: RawRules = vec![rule(
        "foo",
        Pat::Sequence(vec![Pat::Rule("bar".to_string()), Pat::Rule("EOF".to_string())]),
    )];
    let err = lex_and_parse_with_grammar(&raw, "", "foo").unwrap_err();
    assert_eq!(err, "Grammar errors:\n  0: foo: Unbound name 'bar'");
}

#[test]
fn pipeline_reports_lex_failure() {
    let raw = greeting_grammar();
    let err = lex_and_parse_with_grammar(&raw, "hello ?", "greeting").unwrap_err();
    assert_eq!(err, "1:7: Could not Lex text (no rules matched)");
}

#[test]
fn pipeline_reports_capture_defects() {
    let raw: RawRules = vec![rule(
        "r",
        Pat::Cap(
            CaptureInfo::Unnamed,
            Box::new(Pat::Cap(
                CaptureInfo::Unnamed,
                Box::new(Pat::Rule("EOF".to_string())),
            )),
        ),
    )];
    let err = lex_and_parse_with_grammar(&raw, "", "r").unwrap_err();
    assert_eq!(err, "Cannot have a capture just inside a capture");
}
