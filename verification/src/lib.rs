//! A grammar-driven lexer and predictive parser.
//!
//! A grammar is a list of named rules over patterns: token leaves (literal
//! strings, regexes, or named lexer tokens), sequences, ordered alternation,
//! quantifiers, and capture markers.  From the raw rules the library derives
//! a lexer-rule table and a parser-rule table (with capture slots assigned),
//! validates the grammar, tokenizes source text, and interprets the pattern
//! tree against the token stream with one-token lookahead, building a
//! labeled capture tree.
use vstd::prelude::*;

pub mod captures;
pub mod common;
pub mod grammar;
pub mod laws;
pub mod lexer;
pub mod parser;
pub mod render;
pub mod validate;
pub mod rex;

pub use crate::captures::{find_and_assign_captures, CaptureError, CaptureType};
pub use crate::common::{get_position, is_token_id};
pub use crate::grammar::{CaptureInfo, GrammarRule, GrammarToken, Pat, Quantifier, RawRules};
pub use crate::lexer::{find_lexer_rules, lex, LexError, LexerRules, Token, TokenDef};
pub use crate::parser::{
    find_parser_rules, parse_with_rules, Capture, Match, ParseError, ParseResult, ParserRule,
    ParserRules,
};
pub use crate::validate::{
    validate_closed_in_with, validate_endless_loops_into, validate_left_recursion_into,
    validate_rules, validate_token_rules_with, validate_unused_tokens_with, GrammarError,
};

verus! {

/// The grammar-error report's tail: one line per diagnostic from index `k`
/// on, numbered from its index.
pub open spec fn spec_errs_tail(errs: Seq<crate::validate::SpecGrammarError>, k: int) -> Seq<char>
    decreases errs.len() - k,
{
    if k < 0 || k >= errs.len() {
        Seq::empty()
    } else {
        "\n  "@ + crate::render::spec_decimal(k) + ": "@ + errs[k].message + spec_errs_tail(errs, k + 1)
    }
}

fn push_errs_tail(errs: &Vec<GrammarError>, k: usize, out: &mut Vec<char>)
    ensures
        final(out)@ == old(out)@ + spec_errs_tail(crate::validate::errors_view(errs@), k as int),
    decreases errs@.len() - k,
{
    proof {
        reveal_strlit("\n  ");
        reveal_strlit(": ");
    }
    if k < errs.len() {
        crate::common::push_str_chars(out, "\n  ");
        crate::render::push_decimal(k, out);
        crate::common::push_str_chars(out, ": ");
        crate::common::push_str_chars(out, errs[k].message.as_str());
        push_errs_tail(errs, k + 1, out);
    }
    assert(out@ =~= old(out)@ + spec_errs_tail(crate::validate::errors_view(errs@), k as int));
}

/// What the whole pipeline yields for a raw rule list, a source text and a
/// start rule: the compiled rules' validation report if it is nonempty,
/// else the lexer's or parser's failure, else the root match.
pub open spec fn spec_lex_and_parse(
    raw: Seq<(String, GrammarRule)>,
    text: Seq<char>,
    start: Seq<char>,
) -> Result<crate::parser::SpecMatch, Seq<char>> {
    let defs = crate::lexer::spec_find_lexer_rules(raw, Seq::empty(), 0);
    match crate::parser::spec_find_parser_rules(raw, Seq::empty(), 0) {
        Err(e) => Err(crate::captures::spec_capture_err_msg(e)),
        Ok(rules) => {
            let errs = crate::validate::spec_validate_rules(raw, defs, rules);
            if errs.len() != 0 {
                Err("Grammar errors:"@ + spec_errs_tail(errs, 0))
            } else {
                match crate::lexer::spec_tables(defs, 0, Seq::empty(), Seq::empty()) {
                    Err(u) => Err("A lexer rule contained an already-normalized token name"@),
                    Ok(t) => match crate::lexer::spec_lex(t.0, t.1, text, 0, Seq::empty()) {
                        Err(p) => {
                            let lc = crate::common::spec_position(text, p);
                            Err(
                                crate::render::spec_decimal(lc.0) + ":"@ + crate::render::spec_decimal(
                                    lc.1,
                                ) + ": Could not Lex text (no rules matched)"@,
                            )
                        },
                        Ok(toks) => match crate::parser::spec_parse_with_rules(
                            start,
                            rules,
                            toks,
                            text.len() as int,
                        ) {
                            Err(e) => Err(crate::parser::spec_parse_err_msg(e, text)),
                            Ok(m) => Ok(m),
                        },
                    },
                }
            }
        }
    }
}

/// Compiles the raw rules, validates them, lexes the text and parses it
/// with the named start rule, as `spec_lex_and_parse` describes; any
/// failure along the way is returned as a descriptive message.
pub fn lex_and_parse_with_grammar(rules: &RawRules, text: &str, start_with_rule: &str) -> (r: Result<
    Match,
    String,
>)
    ensures
        ({
            let s = spec_lex_and_parse(rules@, text@, start_with_rule@);
            match r {
                Ok(m) => s == Ok::<crate::parser::SpecMatch, Seq<char>>(m@),
                Err(msg) => s == Err::<crate::parser::SpecMatch, Seq<char>>(msg@),
            }
        }),
{
    let lexer_rules = find_lexer_rules(rules);
    let parser_rules = match find_parser_rules(rules) {
        Ok(p) => p,
        Err(e) => {
            return Err(e.message());
        },
    };
    let errors = validate_rules(rules, &lexer_rules, &parser_rules);
    if errors.len() != 0 {
        let mut v: Vec<char> = Vec::new();
        crate::common::push_str_chars(&mut v, "Grammar errors:");
        push_errs_tail(&errors, 0, &mut v);
        proof {
            assert(v@ =~= "Grammar errors:"@ + spec_errs_tail(crate::validate::errors_view(errors@), 0));
        }
        return Err(crate::common::chars_to_string(&v));
    }
    let tokens = match lex(text, &lexer_rules) {
        Ok(t) => t,
        Err(e) => {
            return Err(e.message());
        },
    };
    match parse_with_rules(start_with_rule, &parser_rules, tokens, text) {
        Ok(m) => Ok(m),
        Err(e) => Err(e.message(text)),
    }
}

} // verus!

