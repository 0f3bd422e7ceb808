use hecklib::{
    find_lexer_rules, get_position, is_token_id, lex, GrammarRule, GrammarToken, LexError, Pat,
    RawRules, Token, TokenDef,
};

fn token_rule(name: &str, t: GrammarToken) -> (String, GrammarRule) {
    (
        name.to_string(),
        GrammarRule { name: name.to_string(), pat: Pat::Token(t) },
    )
}

fn keyword_grammar() -> RawRules {
    vec![
        (
            "word".to_string(),
            GrammarRule {
                name: "word".to_string(),
                pat: Pat::AnyOf(vec![Pat::Rule("IN".to_string()), Pat::Rule("ID".to_string())]),
            },
        ),
        token_rule("IN", GrammarToken::Str("in".to_string())),
        token_rule("ID", GrammarToken::Re("[a-z]+".to_string())),
        token_rule("_WS", GrammarToken::Re("[ \\n]+".to_string())),
    ]
}

#[test]
fn token_identifier_convention() {
    assert!(is_token_id("NAME"));
    assert!(is_token_id("_WS"));
    assert!(is_token_id("A_B2"));
    assert!(!is_token_id("Name"));
    assert!(!is_token_id("name"));
    assert!(is_token_id(""));
}

#[test]
fn positions_are_one_indexed() {
    assert_eq!(get_position("abc", 0), (1, 1));
    assert_eq!(get_position("abc", 2), (1, 3));
    assert_eq!(get_position("a\nbc", 2), (2, 1));
    assert_eq!(get_position("a\nbc", 4), (2, 3));
}

#[test]
fn extraction_collects_named_and_unnamed() {
    let rules: RawRules = vec![
        (
            "list".to_string(),
            GrammarRule {
                name: "list".to_string(),
                pat: Pat::Sequence(vec![
                    Pat::Token(GrammarToken::Str("[".to_string())),
                    Pat::Rule("NUM".to_string()),
                    Pat::Token(GrammarToken::Str("]".to_string())),
                    Pat::Token(GrammarToken::Str("[".to_string())),
                ]),
            },
        ),
        token_rule("NUM", GrammarToken::Re("[0-9]+".to_string())),
    ];
    let defs = find_lexer_rules(&rules);
    // The duplicate "[" is dropped; order is first-seen.
    assert_eq!(defs.len(), 3);
    match &defs[0] {
        TokenDef::Unnamed(GrammarToken::Str(s)) => assert_eq!(s, "["),
        other => panic!("unexpected def: {:?}", other),
    }
    match &defs[1] {
        TokenDef::Unnamed(GrammarToken::Str(s)) => assert_eq!(s, "]"),
        other => panic!("unexpected def: {:?}", other),
    }
    match &defs[2] {
        TokenDef::Named(n, GrammarToken::Re(s)) => {
            assert_eq!(n, "NUM");
            assert_eq!(s, "[0-9]+");
        }
        other => panic!("unexpected def: {:?}", other),
    }
}

#[test]
fn keyword_boundary_guard() {
    // The literal "in" must not match inside the identifier "index"; it
    // falls through to the identifier regex.
    let defs = find_lexer_rules(&keyword_grammar());
    let toks = lex("index", &defs).unwrap();
    assert_eq!(toks.len(), 1);
    assert_eq!(toks[0].name, "ID");
    assert_eq!((toks[0].start, toks[0].end), (0, 5));
}

#[test]
fn keyword_matches_at_word_boundary() {
    let defs = find_lexer_rules(&keyword_grammar());
    let toks = lex("in x", &defs).unwrap();
    assert_eq!(toks.len(), 2);
    assert_eq!(toks[0].name, "IN");
    assert_eq!((toks[0].start, toks[0].end), (0, 2));
    assert_eq!(toks[1].name, "ID");
    assert_eq!((toks[1].start, toks[1].end), (3, 4));
}

#[test]
fn layout_tokens_consumed_but_not_recorded() {
    let defs = find_lexer_rules(&keyword_grammar());
    let toks = lex("ab  cd", &defs).unwrap();
    let names: Vec<&str> = toks.iter().map(|t| t.name.as_str()).collect();
    assert_eq!(names, vec!["ID", "ID"]);
    assert_eq!((toks[1].start, toks[1].end), (4, 6));
}

#[test]
fn longest_literal_wins() {
    let rules: RawRules = vec![(
        "r".to_string(),
        GrammarRule {
            name: "r".to_string(),
            pat: Pat::Sequence(vec![
                Pat::Token(GrammarToken::Str("=".to_string())),
                Pat::Token(GrammarToken::Str("==".to_string())),
            ]),
        },
    )];
    let defs = find_lexer_rules(&rules);
    let toks = lex("===", &defs).unwrap();
    let names: Vec<&str> = toks.iter().map(|t| t.name.as_str()).collect();
    assert_eq!(names, vec!["==", "="]);
}

#[test]
fn unlexable_text_is_reported_with_position() {
    let defs = find_lexer_rules(&keyword_grammar());
    match lex("ab\ncd!", &defs) {
        Err(LexError::NoMatch { pos, line, col }) => {
            assert_eq!(pos, 5);
            assert_eq!((line, col), (2, 3));
        }
        other => panic!("expected a lexing failure, got {:?}", other),
    }
}

#[test]
fn lex_error_message_text() {
    let defs = find_lexer_rules(&keyword_grammar());
    let err = lex("!", &defs).unwrap_err();
    assert_eq!(err.message(), "1:1: Could not Lex text (no rules matched)");
}

#[test]
fn token_slice_and_equality() {
    let t = Token::new("ID".to_string(), 3, 5);
    assert_eq!(t.slice("ab cde"), "cd");
    assert_eq!(t, Token::new("ID".to_string(), 3, 5));
    assert!(t != Token::new("ID".to_string(), 3, 6));
    assert!(t != Token::new("IN".to_string(), 3, 5));
}
