//! Functions to validate that a grammar is logically sound: every referenced
//! name is bound, every declared token is used, token rules have token
//! bodies, loop bodies always consume, and no rule is left-recursive.
use vstd::prelude::*;

use crate::common::{spec_is_token_id, is_token_id, str_eq, string_eq, chars_to_string, push_str_chars};
use crate::grammar::{lemma_pats_view, pat_view, pats_view, GrammarRule, GrammarToken, Pat, RawRules, SpecPat, SpecToken};
use crate::lexer::{defs_view, LexerRules, SpecTokenDef, TokenDef};
use crate::parser::{rules_view, ParserRule, ParserRules, SpecRule, spec_lookup};

verus! {

/// A diagnostic about the grammar itself.
#[derive(Debug)]
pub struct GrammarError {
    /// Offset into the grammar text; zero when unknown.
    pub pos: usize,
    /// Line of the defect; zero when unknown.
    pub line: usize,
    /// Column of the defect; zero when unknown.
    pub col: usize,
    /// What is wrong.
    pub message: String,
}

/// Ghost form of a grammar diagnostic.
#[verifier::ext_equal]
pub struct SpecGrammarError {
    pub pos: int,
    pub line: int,
    pub col: int,
    pub message: Seq<char>,
}

impl View for GrammarError {
    type V = SpecGrammarError;

    open spec fn view(&self) -> SpecGrammarError {
        SpecGrammarError {
            pos: self.pos as int,
            line: self.line as int,
            col: self.col as int,
            message: self.message@,
        }
    }
}

/// The ghost form of a diagnostic list, element by element.
pub open spec fn errors_view(s: Seq<GrammarError>) -> Seq<SpecGrammarError> {
    Seq::new(s.len(), |i: int| s[i]@)
}

impl GrammarError {
    /// Creates a diagnostic at a grammar-text offset.
    pub fn new(pos: usize, message: String) -> (r: GrammarError)
        ensures
            r@ == (SpecGrammarError { pos: pos as int, line: 0, col: 0, message: message@ }),
    {
        GrammarError { pos, message, line: 0, col: 0 }
    }
}

/// A diagnostic with no position: only its message, as the validators
/// produce them.
pub open spec fn spec_err(message: Seq<char>) -> SpecGrammarError {
    SpecGrammarError { pos: 0, line: 0, col: 0, message }
}

/// The four texts, concatenated.
fn join4(a: &str, b: &str, c: &str, d: &str) -> (r: String)
    ensures
        r@ == a@ + b@ + c@ + d@,
{
    let mut v: Vec<char> = Vec::new();
    push_str_chars(&mut v, a);
    push_str_chars(&mut v, b);
    push_str_chars(&mut v, c);
    push_str_chars(&mut v, d);
    assert(v@ =~= a@ + b@ + c@ + d@);
    chars_to_string(&v)
}

/// Whether a token definition binds the given name: a named definition its
/// name, an unnamed one the literal or regex text it was made from.
pub open spec fn spec_def_binds(d: SpecTokenDef, name: Seq<char>) -> bool {
    match d {
        SpecTokenDef::Named(n, _) => n == name,
        SpecTokenDef::Unnamed(SpecToken::Str(s)) => s == name,
        SpecTokenDef::Unnamed(SpecToken::Re(s)) => s == name,
        SpecTokenDef::Unnamed(SpecToken::Named(n)) => n == name,
    }
}

/// Whether the grammar binds the given name: `EOF` is always bound, and so
/// are every parser rule's name and every token definition's name.
pub open spec fn spec_is_bound(name: Seq<char>, rules: Seq<SpecRule>, defs: Seq<SpecTokenDef>) -> bool {
    ||| name == "EOF"@
    ||| exists|i: int| 0 <= i < rules.len() && (#[trigger] rules[i]).name == name
    ||| exists|i: int| 0 <= i < defs.len() && spec_def_binds(#[trigger] defs[i], name)
}

fn is_bound(name: &String, rules: &ParserRules, defs: &LexerRules) -> (r: bool)
    ensures
        r == spec_is_bound(name@, rules_view(rules@), defs_view(defs@)),
{
    if str_eq(name.as_str(), "EOF") {
        return true;
    }
    let mut i: usize = 0;
    while i < rules.len()
        invariant
            i <= rules@.len(),
            forall|j: int| 0 <= j < i ==> (#[trigger] rules_view(rules@)[j]).name != name@,
        decreases rules@.len() - i,
    {
        if string_eq(&rules[i].name, name) {
            assert(rules_view(rules@)[i as int].name == name@);
            return true;
        }
        i = i + 1;
    }
    let mut i: usize = 0;
    while i < defs.len()
        invariant
            i <= defs@.len(),
            forall|j: int| 0 <= j < i ==> !spec_def_binds(#[trigger] defs_view(defs@)[j], name@),
        decreases defs@.len() - i,
    {
        let binds = match &defs[i] {
            TokenDef::Named(n, _) => string_eq(n, name),
            TokenDef::Unnamed(GrammarToken::Str(s)) => string_eq(s, name),
            TokenDef::Unnamed(GrammarToken::Re(s)) => string_eq(s, name),
            TokenDef::Unnamed(GrammarToken::Named(n)) => string_eq(n, name),
        };
        if binds {
            assert(spec_def_binds(defs_view(defs@)[i as int], name@));
            return true;
        }
        i = i + 1;
    }
    false
}

/// The name a pattern leaf refers to, if it is a leaf: a rule reference its
/// rule name, a token or break leaf its token name (or, for a literal or
/// regex leaf, the text that identifies its token).
pub open spec fn spec_leaf_name(p: SpecPat) -> Option<Seq<char>> {
    match p {
        SpecPat::Rule(n) => Option::Some(n),
        SpecPat::Token(SpecToken::Named(n)) => Option::Some(n),
        SpecPat::Token(SpecToken::Str(s)) => Option::Some(s),
        SpecPat::Token(SpecToken::Re(s)) => Option::Some(s),
        SpecPat::BreakOnToken(SpecToken::Named(n)) => Option::Some(n),
        SpecPat::BreakOnToken(SpecToken::Str(s)) => Option::Some(s),
        SpecPat::BreakOnToken(SpecToken::Re(s)) => Option::Some(s),
        _ => Option::None,
    }
}

/// The unbound-name message for a reference inside a rule.
pub open spec fn spec_unbound_msg(rule: Seq<char>, name: Seq<char>) -> Seq<char> {
    rule + ": Unbound name '"@ + name + "'"@
}

/// The unbound-name diagnostics a pattern contributes, in leaf order.
pub open spec fn spec_closed_pat(
    p: SpecPat,
    rule: Seq<char>,
    rules: Seq<SpecRule>,
    defs: Seq<SpecTokenDef>,
    acc: Seq<SpecGrammarError>,
) -> Seq<SpecGrammarError>
    decreases p, 0int,
{
    match p {
        SpecPat::Sequence(ps) => spec_closed_pats(ps, rule, rules, defs, acc, 0),
        SpecPat::AnyOf(ps) => spec_closed_pats(ps, rule, rules, defs, acc, 0),
        SpecPat::Cap(_, b) => spec_closed_pat(*b, rule, rules, defs, acc),
        SpecPat::Opt(b) => spec_closed_pat(*b, rule, rules, defs, acc),
        SpecPat::ZeroPlus(b) => spec_closed_pat(*b, rule, rules, defs, acc),
        SpecPat::OnePlus(b) => spec_closed_pat(*b, rule, rules, defs, acc),
        SpecPat::Loop(b) => spec_closed_pat(*b, rule, rules, defs, acc),
        _ => match spec_leaf_name(p) {
            Option::Some(n) => if !spec_is_bound(n, rules, defs) {
                acc.push(spec_err(spec_unbound_msg(rule, n)))
            } else {
                acc
            },
            Option::None => acc,
        },
    }
}

/// The unbound-name diagnostics of the patterns from index `k` on.
pub open spec fn spec_closed_pats(
    ps: Seq<SpecPat>,
    rule: Seq<char>,
    rules: Seq<SpecRule>,
    defs: Seq<SpecTokenDef>,
    acc: Seq<SpecGrammarError>,
    k: int,
) -> Seq<SpecGrammarError>
    decreases ps, ps.len() - k, 1int,
{
    if k < 0 || k >= ps.len() {
        acc
    } else {
        spec_closed_pats(ps, rule, rules, defs, spec_closed_pat(ps[k], rule, rules, defs, acc), k + 1)
    }
}

/// The unbound-name diagnostics of all rules from index `k` on.
pub open spec fn spec_closed_rules(
    all: Seq<SpecRule>,
    defs: Seq<SpecTokenDef>,
    acc: Seq<SpecGrammarError>,
    k: int,
) -> Seq<SpecGrammarError>
    decreases all.len() - k,
{
    if k < 0 || k >= all.len() {
        acc
    } else {
        spec_closed_rules(all, defs, spec_closed_pat(all[k].pat, all[k].name, all, defs, acc), k + 1)
    }
}

fn closed_pat(
    p: &Pat,
    rule: &String,
    rules: &ParserRules,
    defs: &LexerRules,
    acc: &mut Vec<GrammarError>,
)
    ensures
        errors_view(final(acc)@) == spec_closed_pat(
            p@,
            rule@,
            rules_view(rules@),
            defs_view(defs@),
            errors_view(old(acc)@),
        ),
    decreases *p, 0int,
{
    match p {
        Pat::Sequence(ps) => {
            proof {
                lemma_pats_view(ps@);
            }
            closed_pats(ps, rule, rules, defs, acc, 0);
        },
        Pat::AnyOf(ps) => {
            proof {
                lemma_pats_view(ps@);
            }
            closed_pats(ps, rule, rules, defs, acc, 0);
        },
        Pat::Cap(_, b) => closed_pat(b, rule, rules, defs, acc),
        Pat::Opt(b) => closed_pat(b, rule, rules, defs, acc),
        Pat::ZeroPlus(b) => closed_pat(b, rule, rules, defs, acc),
        Pat::OnePlus(b) => closed_pat(b, rule, rules, defs, acc),
        Pat::Loop(b) => closed_pat(b, rule, rules, defs, acc),
        Pat::Rule(n) => check_leaf(n, rule, rules, defs, acc),
        Pat::Token(GrammarToken::Named(n)) => check_leaf(n, rule, rules, defs, acc),
        Pat::Token(GrammarToken::Str(s)) => check_leaf(s, rule, rules, defs, acc),
        Pat::Token(GrammarToken::Re(s)) => check_leaf(s, rule, rules, defs, acc),
        Pat::BreakOnToken(GrammarToken::Named(n)) => check_leaf(n, rule, rules, defs, acc),
        Pat::BreakOnToken(GrammarToken::Str(s)) => check_leaf(s, rule, rules, defs, acc),
        Pat::BreakOnToken(GrammarToken::Re(s)) => check_leaf(s, rule, rules, defs, acc),
    }
}

fn check_leaf(n: &String, rule: &String, rules: &ParserRules, defs: &LexerRules, acc: &mut Vec<GrammarError>)
    ensures
        errors_view(final(acc)@) == (if !spec_is_bound(n@, rules_view(rules@), defs_view(defs@)) {
            errors_view(old(acc)@).push(spec_err(spec_unbound_msg(rule@, n@)))
        } else {
            errors_view(old(acc)@)
        }),
{
    let ghost before = errors_view(acc@);
    if !is_bound(n, rules, defs) {
        let msg = join4(rule.as_str(), ": Unbound name '", n.as_str(), "'");
        acc.push(GrammarError::new(0, msg));
        assert(errors_view(acc@) =~= before.push(spec_err(spec_unbound_msg(rule@, n@))));
    }
}

fn closed_pats(
    ps: &Vec<Pat>,
    rule: &String,
    rules: &ParserRules,
    defs: &LexerRules,
    acc: &mut Vec<GrammarError>,
    k: usize,
)
    ensures
        errors_view(final(acc)@) == spec_closed_pats(
            pats_view(ps@),
            rule@,
            rules_view(rules@),
            defs_view(defs@),
            errors_view(old(acc)@),
            k as int,
        ),
    decreases *ps, ps@.len() - k, 1int,
{
    proof {
        lemma_pats_view(ps@);
    }
    if k < ps.len() {
        closed_pat(&ps[k], rule, rules, defs, acc);
        closed_pats(ps, rule, rules, defs, acc, k + 1);
    }
}

/// Validates that all rules and tokens mentioned in the given set of parser
/// rules are actually defined, reporting one diagnostic per unbound
/// reference, in rule order.
pub fn validate_closed_in_with(parser_rules: &ParserRules, lexer_rules: &LexerRules) -> (r: Vec<
    GrammarError,
>)
    ensures
        errors_view(r@) == spec_closed_rules(
            rules_view(parser_rules@),
            defs_view(lexer_rules@),
            Seq::<SpecGrammarError>::empty(),
            0,
        ),
{
    let mut acc: Vec<GrammarError> = Vec::new();
    proof {
        assert(errors_view(acc@) =~= Seq::<SpecGrammarError>::empty());
    }
    closed_in_into(parser_rules, lexer_rules, &mut acc);
    acc
}

fn closed_in_into(parser_rules: &ParserRules, lexer_rules: &LexerRules, acc: &mut Vec<GrammarError>)
    ensures
        errors_view(final(acc)@) == spec_closed_rules(
            rules_view(parser_rules@),
            defs_view(lexer_rules@),
            errors_view(old(acc)@),
            0,
        ),
{
    let mut k: usize = 0;
    while k < parser_rules.len()
        invariant
            k <= parser_rules@.len(),
            spec_closed_rules(
                rules_view(parser_rules@),
                defs_view(lexer_rules@),
                errors_view(acc@),
                k as int,
            ) == spec_closed_rules(
                rules_view(parser_rules@),
                defs_view(lexer_rules@),
                errors_view(old(acc)@),
                0,
            ),
        decreases parser_rules@.len() - k,
    {
        closed_pat(&parser_rules[k].pat, &parser_rules[k].name, parser_rules, lexer_rules, acc);
        k = k + 1;
    }
}

} // verus!

verus! {

/// Whether a token name marks a layout token (kept out of the stream).
pub open spec fn spec_layout_name(name: Seq<char>) -> bool {
    name.len() > 0 && name[0] == '_'
}

/// The declared token names that should be referenced somewhere: `EOF`,
/// then every named non-layout token, in definition order and without
/// duplicates.
pub open spec fn spec_token_names(defs: Seq<SpecTokenDef>, acc: Seq<Seq<char>>, k: int) -> Seq<Seq<char>>
    decreases defs.len() - k,
{
    if k < 0 || k >= defs.len() {
        acc
    } else {
        let acc2 = match defs[k] {
            SpecTokenDef::Named(n, _) => if !spec_layout_name(n) && !acc.contains(n) {
                acc.push(n)
            } else {
                acc
            },
            SpecTokenDef::Unnamed(_) => acc,
        };
        spec_token_names(defs, acc2, k + 1)
    }
}

/// Whether a pattern refers to the given name, through a rule reference or
/// a token leaf.
pub open spec fn spec_uses_name(p: SpecPat, name: Seq<char>) -> bool
    decreases p, 0int,
{
    match p {
        SpecPat::Sequence(ps) => spec_uses_name_pats(ps, name, 0),
        SpecPat::AnyOf(ps) => spec_uses_name_pats(ps, name, 0),
        SpecPat::Cap(_, b) => spec_uses_name(*b, name),
        SpecPat::Opt(b) => spec_uses_name(*b, name),
        SpecPat::ZeroPlus(b) => spec_uses_name(*b, name),
        SpecPat::OnePlus(b) => spec_uses_name(*b, name),
        SpecPat::Loop(b) => spec_uses_name(*b, name),
        _ => spec_leaf_name(p) == Option::Some(name),
    }
}

/// Whether any pattern from index `k` on refers to the name.
pub open spec fn spec_uses_name_pats(ps: Seq<SpecPat>, name: Seq<char>, k: int) -> bool
    decreases ps, ps.len() - k, 1int,
{
    if k < 0 || k >= ps.len() {
        false
    } else {
        spec_uses_name(ps[k], name) || spec_uses_name_pats(ps, name, k + 1)
    }
}

/// Whether any rule from index `k` on refers to the name.
pub open spec fn spec_name_used(rules: Seq<SpecRule>, name: Seq<char>, k: int) -> bool
    decreases rules.len() - k,
{
    if k < 0 || k >= rules.len() {
        false
    } else {
        spec_uses_name(rules[k].pat, name) || spec_name_used(rules, name, k + 1)
    }
}

/// The unused-token message.
pub open spec fn spec_unused_msg(name: Seq<char>) -> Seq<char> {
    "Unused token: <"@ + name + ">"@
}

/// One diagnostic per declared token name (from index `k` on) that no rule
/// refers to.
pub open spec fn spec_unused_errs(
    cands: Seq<Seq<char>>,
    rules: Seq<SpecRule>,
    acc: Seq<SpecGrammarError>,
    k: int,
) -> Seq<SpecGrammarError>
    decreases cands.len() - k,
{
    if k < 0 || k >= cands.len() {
        acc
    } else {
        let acc2 = if !spec_name_used(rules, cands[k], 0) {
            acc.push(spec_err(spec_unused_msg(cands[k])))
        } else {
            acc
        };
        spec_unused_errs(cands, rules, acc2, k + 1)
    }
}

fn names_contain(v: &Vec<String>, n: &String) -> (r: bool)
    ensures
        r == crate::parser::strings_view(v@).contains(n@),
{
    let mut i: usize = 0;
    while i < v.len()
        invariant
            i <= v@.len(),
            forall|j: int| 0 <= j < i ==> crate::parser::strings_view(v@)[j] != n@,
        decreases v@.len() - i,
    {
        if string_eq(&v[i], n) {
            assert(crate::parser::strings_view(v@)[i as int] == n@);
            return true;
        }
        i = i + 1;
    }
    assert(!crate::parser::strings_view(v@).contains(n@));
    false
}

fn is_layout_name(n: &String) -> (r: bool)
    ensures
        r == spec_layout_name(n@),
{
    let len = n.as_str().unicode_len();
    if len == 0 {
        false
    } else {
        n.as_str().get_char(0) == '_'
    }
}

fn token_names(defs: &LexerRules) -> (r: Vec<String>)
    ensures
        crate::parser::strings_view(r@) == spec_token_names(
            defs_view(defs@),
            seq!["EOF"@],
            0,
        ),
{
    let mut acc: Vec<String> = Vec::new();
    acc.push("EOF".to_owned());
    proof {
        assert(crate::parser::strings_view(acc@) =~= seq!["EOF"@]);
    }
    let mut k: usize = 0;
    while k < defs.len()
        invariant
            k <= defs@.len(),
            spec_token_names(defs_view(defs@), crate::parser::strings_view(acc@), k as int)
                == spec_token_names(defs_view(defs@), seq!["EOF"@], 0),
        decreases defs@.len() - k,
    {
        match &defs[k] {
            TokenDef::Named(n, _) => {
                let ghost before = crate::parser::strings_view(acc@);
                if !is_layout_name(n) && !names_contain(&acc, n) {
                    acc.push(n.clone());
                    assert(crate::parser::strings_view(acc@) =~= before.push(n@));
                }
            },
            TokenDef::Unnamed(_) => {},
        }
        k = k + 1;
    }
    acc
}

fn uses_name(p: &Pat, name: &String) -> (r: bool)
    ensures
        r == spec_uses_name(p@, name@),
    decreases *p, 0int,
{
    match p {
        Pat::Sequence(ps) => {
            proof {
                lemma_pats_view(ps@);
            }
            uses_name_pats(ps, name, 0)
        },
        Pat::AnyOf(ps) => {
            proof {
                lemma_pats_view(ps@);
            }
            uses_name_pats(ps, name, 0)
        },
        Pat::Cap(_, b) => uses_name(b, name),
        Pat::Opt(b) => uses_name(b, name),
        Pat::ZeroPlus(b) => uses_name(b, name),
        Pat::OnePlus(b) => uses_name(b, name),
        Pat::Loop(b) => uses_name(b, name),
        Pat::Rule(n) => string_eq(n, name),
        Pat::Token(GrammarToken::Named(n)) => string_eq(n, name),
        Pat::Token(GrammarToken::Str(s)) => string_eq(s, name),
        Pat::Token(GrammarToken::Re(s)) => string_eq(s, name),
        Pat::BreakOnToken(GrammarToken::Named(n)) => string_eq(n, name),
        Pat::BreakOnToken(GrammarToken::Str(s)) => string_eq(s, name),
        Pat::BreakOnToken(GrammarToken::Re(s)) => string_eq(s, name),
    }
}

fn uses_name_pats(ps: &Vec<Pat>, name: &String, k: usize) -> (r: bool)
    ensures
        r == spec_uses_name_pats(pats_view(ps@), name@, k as int),
    decreases *ps, ps@.len() - k, 1int,
{
    proof {
        lemma_pats_view(ps@);
    }
    if k >= ps.len() {
        false
    } else if uses_name(&ps[k], name) {
        true
    } else {
        uses_name_pats(ps, name, k + 1)
    }
}

fn name_used(rules: &ParserRules, name: &String, k: usize) -> (r: bool)
    ensures
        r == spec_name_used(rules_view(rules@), name@, k as int),
    decreases rules@.len() - k,
{
    if k >= rules.len() {
        false
    } else if uses_name(&rules[k].pat, name) {
        true
    } else {
        name_used(rules, name, k + 1)
    }
}

/// Validates that every declared non-layout token (and `EOF`) is referenced
/// by some rule, reporting one diagnostic per unused token, in declaration
/// order.
pub fn validate_unused_tokens_with(parser_rules: &ParserRules, lexer_rules: &LexerRules) -> (r: Vec<
    GrammarError,
>)
    ensures
        errors_view(r@) == spec_unused_errs(
            spec_token_names(defs_view(lexer_rules@), seq!["EOF"@], 0),
            rules_view(parser_rules@),
            Seq::<SpecGrammarError>::empty(),
            0,
        ),
{
    let mut acc: Vec<GrammarError> = Vec::new();
    proof {
        assert(errors_view(acc@) =~= Seq::<SpecGrammarError>::empty());
    }
    unused_tokens_into(parser_rules, lexer_rules, &mut acc);
    acc
}

fn unused_tokens_into(parser_rules: &ParserRules, lexer_rules: &LexerRules, acc: &mut Vec<GrammarError>)
    ensures
        errors_view(final(acc)@) == spec_unused_errs(
            spec_token_names(defs_view(lexer_rules@), seq!["EOF"@], 0),
            rules_view(parser_rules@),
            errors_view(old(acc)@),
            0,
        ),
{
    let cands = token_names(lexer_rules);
    let ghost cv = crate::parser::strings_view(cands@);
    let mut k: usize = 0;
    while k < cands.len()
        invariant
            k <= cands@.len(),
            cv == crate::parser::strings_view(cands@),
            cv == spec_token_names(defs_view(lexer_rules@), seq!["EOF"@], 0),
            spec_unused_errs(cv, rules_view(parser_rules@), errors_view(acc@), k as int)
                == spec_unused_errs(cv, rules_view(parser_rules@), errors_view(old(acc)@), 0),
        decreases cands@.len() - k,
    {
        let ghost before = errors_view(acc@);
        if !name_used(parser_rules, &cands[k], 0) {
            let msg = join4("Unused token: <", cands[k].as_str(), ">", "");
            proof {
                reveal_strlit("");
                assert(msg@ =~= spec_unused_msg(cv[k as int]));
            }
            acc.push(GrammarError::new(0, msg));
            assert(errors_view(acc@) =~= before.push(spec_err(spec_unused_msg(cv[k as int]))));
        }
        k = k + 1;
    }
}

} // verus!

verus! {

/// Whether a pattern can succeed without consuming any token: optionals,
/// zero-or-more repetitions and break leaves can be skipped; a sequence is
/// skippable when all its parts are; an alternation when any alternative
/// is; a rule reference when its rule's body is (conservatively treated as
/// skippable when the reference chain exceeds the rule count, which only a
/// reference cycle can cause).
pub open spec fn spec_nullable(p: SpecPat, rules: Seq<SpecRule>, fuel: nat) -> bool
    decreases fuel, p, 0int,
{
    match p {
        SpecPat::Token(_) => false,
        SpecPat::BreakOnToken(_) => true,
        SpecPat::Rule(name) => match spec_lookup(rules, name, 0) {
            Option::None => false,
            Option::Some(i) => if fuel == 0 {
                true
            } else {
                spec_nullable(rules[i].pat, rules, (fuel - 1) as nat)
            },
        },
        SpecPat::Sequence(ps) => spec_nullable_all(ps, rules, fuel, 0),
        SpecPat::AnyOf(ps) => spec_nullable_any(ps, rules, fuel, 0),
        SpecPat::Opt(_) => true,
        SpecPat::ZeroPlus(_) => true,
        SpecPat::OnePlus(b) => spec_nullable(*b, rules, fuel),
        SpecPat::Loop(_) => false,
        SpecPat::Cap(_, b) => spec_nullable(*b, rules, fuel),
    }
}

/// Whether every pattern from index `k` on is skippable.
pub open spec fn spec_nullable_all(ps: Seq<SpecPat>, rules: Seq<SpecRule>, fuel: nat, k: int) -> bool
    decreases fuel, ps, ps.len() - k, 1int,
{
    if k < 0 || k >= ps.len() {
        true
    } else {
        spec_nullable(ps[k], rules, fuel) && spec_nullable_all(ps, rules, fuel, k + 1)
    }
}

/// Whether any pattern from index `k` on is skippable.
pub open spec fn spec_nullable_any(ps: Seq<SpecPat>, rules: Seq<SpecRule>, fuel: nat, k: int) -> bool
    decreases fuel, ps, ps.len() - k, 1int,
{
    if k < 0 || k >= ps.len() {
        false
    } else {
        spec_nullable(ps[k], rules, fuel) || spec_nullable_any(ps, rules, fuel, k + 1)
    }
}

fn nullable(p: &Pat, rules: &ParserRules, fuel: u64) -> (r: bool)
    ensures
        r == spec_nullable(p@, rules_view(rules@), fuel as nat),
    decreases fuel, *p, 0int, 0int,
{
    match p {
        Pat::Token(_) => false,
        Pat::BreakOnToken(_) => true,
        Pat::Rule(name) => {
            match crate::parser::lookup_rule(rules, name.as_str(), 0) {
                None => false,
                Some(i) => {
                    if fuel == 0 {
                        true
                    } else {
                        nullable(&rules[i].pat, rules, fuel - 1)
                    }
                },
            }
        },
        Pat::Sequence(ps) => {
            proof {
                lemma_pats_view(ps@);
            }
            nullable_all(ps, rules, fuel, 0)
        },
        Pat::AnyOf(ps) => {
            proof {
                lemma_pats_view(ps@);
            }
            nullable_any(ps, rules, fuel, 0)
        },
        Pat::Opt(_) => true,
        Pat::ZeroPlus(_) => true,
        Pat::OnePlus(b) => nullable(b, rules, fuel),
        Pat::Loop(_) => false,
        Pat::Cap(_, b) => nullable(b, rules, fuel),
    }
}

fn nullable_all(ps: &Vec<Pat>, rules: &ParserRules, fuel: u64, k: usize) -> (r: bool)
    ensures
        r == spec_nullable_all(pats_view(ps@), rules_view(rules@), fuel as nat, k as int),
    decreases fuel, *ps, ps@.len() - k, 1int,
{
    proof {
        lemma_pats_view(ps@);
    }
    if k >= ps.len() {
        true
    } else {
        nullable(&ps[k], rules, fuel) && nullable_all(ps, rules, fuel, k + 1)
    }
}

fn nullable_any(ps: &Vec<Pat>, rules: &ParserRules, fuel: u64, k: usize) -> (r: bool)
    ensures
        r == spec_nullable_any(pats_view(ps@), rules_view(rules@), fuel as nat, k as int),
    decreases fuel, *ps, ps@.len() - k, 1int,
{
    proof {
        lemma_pats_view(ps@);
    }
    if k >= ps.len() {
        false
    } else {
        nullable(&ps[k], rules, fuel) || nullable_any(ps, rules, fuel, k + 1)
    }
}

/// The endless-loop message for a rule.
pub open spec fn spec_endless_msg(rule: Seq<char>) -> Seq<char> {
    rule + ": Endless loop: the loop body can match without consuming a token"@
}

/// The endless-loop diagnostics a pattern contributes: one per loop whose
/// body is skippable, in leaf order.
pub open spec fn spec_loop_errs_pat(
    p: SpecPat,
    rule: Seq<char>,
    rules: Seq<SpecRule>,
    acc: Seq<SpecGrammarError>,
) -> Seq<SpecGrammarError>
    decreases p, 0int,
{
    match p {
        SpecPat::Sequence(ps) => spec_loop_errs_pats(ps, rule, rules, acc, 0),
        SpecPat::AnyOf(ps) => spec_loop_errs_pats(ps, rule, rules, acc, 0),
        SpecPat::Cap(_, b) => spec_loop_errs_pat(*b, rule, rules, acc),
        SpecPat::Opt(b) => spec_loop_errs_pat(*b, rule, rules, acc),
        SpecPat::ZeroPlus(b) => spec_loop_errs_pat(*b, rule, rules, acc),
        SpecPat::OnePlus(b) => spec_loop_errs_pat(*b, rule, rules, acc),
        SpecPat::Loop(b) => {
            let acc2 = if spec_nullable(*b, rules, rules.len()) {
                acc.push(spec_err(spec_endless_msg(rule)))
            } else {
                acc
            };
            spec_loop_errs_pat(*b, rule, rules, acc2)
        },
        _ => acc,
    }
}

/// The endless-loop diagnostics of the patterns from index `k` on.
pub open spec fn spec_loop_errs_pats(
    ps: Seq<SpecPat>,
    rule: Seq<char>,
    rules: Seq<SpecRule>,
    acc: Seq<SpecGrammarError>,
    k: int,
) -> Seq<SpecGrammarError>
    decreases ps, ps.len() - k, 1int,
{
    if k < 0 || k >= ps.len() {
        acc
    } else {
        spec_loop_errs_pats(ps, rule, rules, spec_loop_errs_pat(ps[k], rule, rules, acc), k + 1)
    }
}

/// The endless-loop diagnostics of all rules from index `k` on.
pub open spec fn spec_loop_errs(all: Seq<SpecRule>, acc: Seq<SpecGrammarError>, k: int) -> Seq<
    SpecGrammarError,
>
    decreases all.len() - k,
{
    if k < 0 || k >= all.len() {
        acc
    } else {
        spec_loop_errs(all, spec_loop_errs_pat(all[k].pat, all[k].name, all, acc), k + 1)
    }
}

fn loop_errs_pat(p: &Pat, rule: &String, rules: &ParserRules, acc: &mut Vec<GrammarError>)
    ensures
        errors_view(final(acc)@) == spec_loop_errs_pat(
            p@,
            rule@,
            rules_view(rules@),
            errors_view(old(acc)@),
        ),
    decreases *p, 0int,
{
    match p {
        Pat::Sequence(ps) => {
            proof {
                lemma_pats_view(ps@);
            }
            loop_errs_pats(ps, rule, rules, acc, 0);
        },
        Pat::AnyOf(ps) => {
            proof {
                lemma_pats_view(ps@);
            }
            loop_errs_pats(ps, rule, rules, acc, 0);
        },
        Pat::Cap(_, b) => loop_errs_pat(b, rule, rules, acc),
        Pat::Opt(b) => loop_errs_pat(b, rule, rules, acc),
        Pat::ZeroPlus(b) => loop_errs_pat(b, rule, rules, acc),
        Pat::OnePlus(b) => loop_errs_pat(b, rule, rules, acc),
        Pat::Loop(b) => {
            let ghost before = errors_view(acc@);
            if nullable(b, rules, rules.len() as u64) {
                let msg = join4(
                    rule.as_str(),
                    ": Endless loop: the loop body can match without consuming a token",
                    "",
                    "",
                );
                proof {
                    reveal_strlit("");
                    assert(msg@ =~= spec_endless_msg(rule@));
                }
                acc.push(GrammarError::new(0, msg));
                assert(errors_view(acc@) =~= before.push(spec_err(spec_endless_msg(rule@))));
            }
            loop_errs_pat(b, rule, rules, acc);
        },
        _ => {},
    }
}

fn loop_errs_pats(ps: &Vec<Pat>, rule: &String, rules: &ParserRules, acc: &mut Vec<GrammarError>, k: usize)
    ensures
        errors_view(final(acc)@) == spec_loop_errs_pats(
            pats_view(ps@),
            rule@,
            rules_view(rules@),
            errors_view(old(acc)@),
            k as int,
        ),
    decreases *ps, ps@.len() - k, 1int,
{
    proof {
        lemma_pats_view(ps@);
    }
    if k < ps.len() {
        loop_errs_pat(&ps[k], rule, rules, acc);
        loop_errs_pats(ps, rule, rules, acc, k + 1);
    }
}

/// Validates that every unbounded loop's body must consume at least one
/// token each iteration, so a loop cannot spin without advancing; one
/// diagnostic per offending loop is appended to `lints`.
pub fn validate_endless_loops_into(parser_rules: &ParserRules, lints: &mut Vec<GrammarError>)
    ensures
        errors_view(final(lints)@) == spec_loop_errs(
            rules_view(parser_rules@),
            errors_view(old(lints)@),
            0,
        ),
{
    let mut k: usize = 0;
    while k < parser_rules.len()
        invariant
            k <= parser_rules@.len(),
            spec_loop_errs(rules_view(parser_rules@), errors_view(lints@), k as int) == spec_loop_errs(
                rules_view(parser_rules@),
                errors_view(old(lints)@),
                0,
            ),
        decreases parser_rules@.len() - k,
    {
        loop_errs_pat(&parser_rules[k].pat, &parser_rules[k].name, parser_rules, lints);
        k = k + 1;
    }
}

} // verus!

verus! {

/// Whether the pattern can reach a reference to the target rule at its
/// start, before any token must be consumed: a reference chain longer than
/// the rule count (only possible through a cycle) counts as reaching.
pub open spec fn spec_starts_with(p: SpecPat, target: Seq<char>, rules: Seq<SpecRule>, fuel: nat) -> bool
    decreases fuel, p, 0int,
{
    match p {
        SpecPat::Rule(name) => name == target || (match spec_lookup(rules, name, 0) {
            Option::None => false,
            Option::Some(i) => if fuel == 0 {
                true
            } else {
                spec_starts_with(rules[i].pat, target, rules, (fuel - 1) as nat)
            },
        }),
        SpecPat::Token(_) => false,
        SpecPat::BreakOnToken(_) => false,
        SpecPat::Sequence(ps) => spec_starts_with_seq(ps, target, rules, fuel, 0),
        SpecPat::AnyOf(ps) => spec_starts_with_any(ps, target, rules, fuel, 0),
        SpecPat::Cap(_, b) => spec_starts_with(*b, target, rules, fuel),
        SpecPat::Opt(b) => spec_starts_with(*b, target, rules, fuel),
        SpecPat::ZeroPlus(b) => spec_starts_with(*b, target, rules, fuel),
        SpecPat::OnePlus(b) => spec_starts_with(*b, target, rules, fuel),
        SpecPat::Loop(b) => spec_starts_with(*b, target, rules, fuel),
    }
}

/// Whether a sequence can reach the target at its start: through its first
/// element, or through a later element when everything before it is
/// skippable.
pub open spec fn spec_starts_with_seq(
    ps: Seq<SpecPat>,
    target: Seq<char>,
    rules: Seq<SpecRule>,
    fuel: nat,
    k: int,
) -> bool
    decreases fuel, ps, ps.len() - k, 1int,
{
    if k < 0 || k >= ps.len() {
        false
    } else {
        spec_starts_with(ps[k], target, rules, fuel) || (spec_nullable(ps[k], rules, rules.len())
            && spec_starts_with_seq(ps, target, rules, fuel, k + 1))
    }
}

/// Whether any alternative can reach the target at its start.
pub open spec fn spec_starts_with_any(
    ps: Seq<SpecPat>,
    target: Seq<char>,
    rules: Seq<SpecRule>,
    fuel: nat,
    k: int,
) -> bool
    decreases fuel, ps, ps.len() - k, 1int,
{
    if k < 0 || k >= ps.len() {
        false
    } else {
        spec_starts_with(ps[k], target, rules, fuel) || spec_starts_with_any(ps, target, rules, fuel, k + 1)
    }
}

fn starts_with(p: &Pat, target: &String, rules: &ParserRules, fuel: u64) -> (r: bool)
    ensures
        r == spec_starts_with(p@, target@, rules_view(rules@), fuel as nat),
    decreases fuel, *p, 0int, 0int,
{
    match p {
        Pat::Rule(name) => {
            if string_eq(name, target) {
                true
            } else {
                match crate::parser::lookup_rule(rules, name.as_str(), 0) {
                    None => false,
                    Some(i) => {
                        if fuel == 0 {
                            true
                        } else {
                            starts_with(&rules[i].pat, target, rules, fuel - 1)
                        }
                    },
                }
            }
        },
        Pat::Token(_) => false,
        Pat::BreakOnToken(_) => false,
        Pat::Sequence(ps) => {
            proof {
                lemma_pats_view(ps@);
            }
            starts_with_seq(ps, target, rules, fuel, 0)
        },
        Pat::AnyOf(ps) => {
            proof {
                lemma_pats_view(ps@);
            }
            starts_with_any(ps, target, rules, fuel, 0)
        },
        Pat::Cap(_, b) => starts_with(b, target, rules, fuel),
        Pat::Opt(b) => starts_with(b, target, rules, fuel),
        Pat::ZeroPlus(b) => starts_with(b, target, rules, fuel),
        Pat::OnePlus(b) => starts_with(b, target, rules, fuel),
        Pat::Loop(b) => starts_with(b, target, rules, fuel),
    }
}

fn starts_with_seq(ps: &Vec<Pat>, target: &String, rules: &ParserRules, fuel: u64, k: usize) -> (r: bool)
    ensures
        r == spec_starts_with_seq(pats_view(ps@), target@, rules_view(rules@), fuel as nat, k as int),
    decreases fuel, *ps, ps@.len() - k, 1int,
{
    proof {
        lemma_pats_view(ps@);
    }
    if k >= ps.len() {
        false
    } else if starts_with(&ps[k], target, rules, fuel) {
        true
    } else {
        nullable(&ps[k], rules, rules.len() as u64) && starts_with_seq(ps, target, rules, fuel, k + 1)
    }
}

fn starts_with_any(ps: &Vec<Pat>, target: &String, rules: &ParserRules, fuel: u64, k: usize) -> (r: bool)
    ensures
        r == spec_starts_with_any(pats_view(ps@), target@, rules_view(rules@), fuel as nat, k as int),
    decreases fuel, *ps, ps@.len() - k, 1int,
{
    proof {
        lemma_pats_view(ps@);
    }
    if k >= ps.len() {
        false
    } else if starts_with(&ps[k], target, rules, fuel) {
        true
    } else {
        starts_with_any(ps, target, rules, fuel, k + 1)
    }
}

/// The left-recursion message for a rule.
pub open spec fn spec_leftrec_msg(rule: Seq<char>) -> Seq<char> {
    rule + ": Left recursion: the rule can reach itself before consuming a token"@
}

/// The left-recursion diagnostics of all rules from index `k` on: one per
/// rule that can reach a reference to itself before consuming a token.
pub open spec fn spec_leftrec_errs(all: Seq<SpecRule>, acc: Seq<SpecGrammarError>, k: int) -> Seq<
    SpecGrammarError,
>
    decreases all.len() - k,
{
    if k < 0 || k >= all.len() {
        acc
    } else {
        let acc2 = if spec_starts_with(all[k].pat, all[k].name, all, all.len()) {
            acc.push(spec_err(spec_leftrec_msg(all[k].name)))
        } else {
            acc
        };
        spec_leftrec_errs(all, acc2, k + 1)
    }
}

/// Validates that no rule can reach a reference to itself from its start
/// without consuming a token (left recursion, which a one-token-lookahead
/// parser cannot handle); one diagnostic per offending rule is appended to
/// `lints`.
pub fn validate_left_recursion_into(parser_rules: &ParserRules, lints: &mut Vec<GrammarError>)
    ensures
        errors_view(final(lints)@) == spec_leftrec_errs(
            rules_view(parser_rules@),
            errors_view(old(lints)@),
            0,
        ),
{
    let mut k: usize = 0;
    while k < parser_rules.len()
        invariant
            k <= parser_rules@.len(),
            spec_leftrec_errs(rules_view(parser_rules@), errors_view(lints@), k as int)
                == spec_leftrec_errs(rules_view(parser_rules@), errors_view(old(lints)@), 0),
        decreases parser_rules@.len() - k,
    {
        let ghost before = errors_view(lints@);
        if starts_with(&parser_rules[k].pat, &parser_rules[k].name, parser_rules, parser_rules.len() as u64) {
            let msg = join4(
                parser_rules[k].name.as_str(),
                ": Left recursion: the rule can reach itself before consuming a token",
                "",
                "",
            );
            proof {
                reveal_strlit("");
                assert(msg@ =~= spec_leftrec_msg(rules_view(parser_rules@)[k as int].name));
            }
            lints.push(GrammarError::new(0, msg));
            assert(errors_view(lints@) =~= before.push(
                spec_err(spec_leftrec_msg(rules_view(parser_rules@)[k as int].name)),
            ));
        }
        k = k + 1;
    }
}

/// Whether an all-uppercase rule's body has the shape a token rule needs:
/// a single literal or regex, or an alternation of those.
pub open spec fn spec_token_rule_ok(p: SpecPat) -> bool {
    match p {
        SpecPat::Token(SpecToken::Str(_)) => true,
        SpecPat::Token(SpecToken::Re(_)) => true,
        SpecPat::AnyOf(ps) => spec_token_alts_ok(ps),
        _ => false,
    }
}

/// Whether every alternative of the list is a literal or regex leaf.
pub open spec fn spec_token_alts_ok(ps: Seq<SpecPat>) -> bool {
    forall|i: int| 0 <= i < ps.len() ==> spec_token_alt_ok(#[trigger] ps[i])
}

/// Whether one alternative of a token rule is a literal or regex leaf.
pub open spec fn spec_token_alt_ok(p: SpecPat) -> bool {
    match p {
        SpecPat::Token(SpecToken::Str(_)) => true,
        SpecPat::Token(SpecToken::Re(_)) => true,
        _ => false,
    }
}

/// The malformed-token-rule message.
pub open spec fn spec_token_rule_msg(rule: Seq<char>) -> Seq<char> {
    rule + ": Token rule must be a literal, a regex, or an alternation of those"@
}

/// The malformed-token-rule diagnostics of the raw rules from index `k` on:
/// one per all-uppercase rule whose body is not a literal, a regex, or an
/// alternation of those.
pub open spec fn spec_token_rule_errs(
    raw: Seq<(String, GrammarRule)>,
    acc: Seq<SpecGrammarError>,
    k: int,
) -> Seq<SpecGrammarError>
    decreases raw.len() - k,
{
    if k < 0 || k >= raw.len() {
        acc
    } else {
        let acc2 = if spec_is_token_id(raw[k].0@) && !spec_token_rule_ok(pat_view(raw[k].1.pat)) {
            acc.push(spec_err(spec_token_rule_msg(raw[k].0@)))
        } else {
            acc
        };
        spec_token_rule_errs(raw, acc2, k + 1)
    }
}

fn token_alt_ok(p: &Pat) -> (r: bool)
    ensures
        r == spec_token_alt_ok(p@),
{
    match p {
        Pat::Token(GrammarToken::Str(_)) => true,
        Pat::Token(GrammarToken::Re(_)) => true,
        _ => false,
    }
}

fn token_rule_ok(p: &Pat) -> (r: bool)
    ensures
        r == spec_token_rule_ok(p@),
{
    match p {
        Pat::Token(GrammarToken::Str(_)) => true,
        Pat::Token(GrammarToken::Re(_)) => true,
        Pat::AnyOf(ps) => {
            proof {
                lemma_pats_view(ps@);
                assert(p@ == SpecPat::AnyOf(pats_view(ps@)));
            }
            let mut i: usize = 0;
            while i < ps.len()
                invariant
                    p@ == SpecPat::AnyOf(pats_view(ps@)),
                    i <= ps@.len(),
                    pats_view(ps@).len() == ps@.len(),
                    forall|j: int| 0 <= j < ps@.len() ==> pats_view(ps@)[j] == pat_view(ps@[j]),
                    forall|j: int| 0 <= j < i ==> spec_token_alt_ok(#[trigger] pats_view(ps@)[j]),
                decreases ps@.len() - i,
            {
                if !token_alt_ok(&ps[i]) {
                    assert(!spec_token_alt_ok(pats_view(ps@)[i as int]));
                    assert(!spec_token_alts_ok(pats_view(ps@)));
                    return false;
                }
                i = i + 1;
            }
            true
        },
        _ => false,
    }
}

/// Validates that every all-uppercase rule (a token rule) has a body the
/// lexer can use: a single literal or regex, or an alternation of those;
/// one diagnostic per offending rule, in rule order.
pub fn validate_token_rules_with(raw_rules: &RawRules) -> (r: Vec<GrammarError>)
    ensures
        errors_view(r@) == spec_token_rule_errs(raw_rules@, Seq::<SpecGrammarError>::empty(), 0),
{
    let mut acc: Vec<GrammarError> = Vec::new();
    proof {
        assert(errors_view(acc@) =~= Seq::<SpecGrammarError>::empty());
    }
    let mut k: usize = 0;
    while k < raw_rules.len()
        invariant
            k <= raw_rules@.len(),
            spec_token_rule_errs(raw_rules@, errors_view(acc@), k as int) == spec_token_rule_errs(
                raw_rules@,
                Seq::<SpecGrammarError>::empty(),
                0,
            ),
        decreases raw_rules@.len() - k,
    {
        let ghost before = errors_view(acc@);
        if is_token_id(raw_rules[k].0.as_str()) && !token_rule_ok(&raw_rules[k].1.pat) {
            let msg = join4(
                raw_rules[k].0.as_str(),
                ": Token rule must be a literal, a regex, or an alternation of those",
                "",
                "",
            );
            proof {
                reveal_strlit("");
                assert(msg@ =~= spec_token_rule_msg(raw_rules@[k as int].0@));
            }
            acc.push(GrammarError::new(0, msg));
            assert(errors_view(acc@) =~= before.push(spec_err(spec_token_rule_msg(raw_rules@[k as int].0@))));
        }
        k = k + 1;
    }
    acc
}

/// All diagnostics of the grammar, in order: malformed token rules, unbound
/// names, unused tokens, endless loops, left recursion.
pub open spec fn spec_validate_rules(
    raw: Seq<(String, GrammarRule)>,
    defs: Seq<SpecTokenDef>,
    rules: Seq<SpecRule>,
) -> Seq<SpecGrammarError> {
    let a = spec_token_rule_errs(raw, Seq::empty(), 0);
    let b = spec_closed_rules(rules, defs, a, 0);
    let c = spec_unused_errs(spec_token_names(defs, seq!["EOF"@], 0), rules, b, 0);
    let d = spec_loop_errs(rules, c, 0);
    spec_leftrec_errs(rules, d, 0)
}

/// Runs all the validators on the given rules and collects every
/// diagnostic, as `spec_validate_rules` describes.
pub fn validate_rules(raw_rules: &RawRules, lexer_rules: &LexerRules, parser_rules: &ParserRules) -> (r:
    Vec<GrammarError>)
    ensures
        errors_view(r@) == spec_validate_rules(
            raw_rules@,
            defs_view(lexer_rules@),
            rules_view(parser_rules@),
        ),
{
    let mut lints = validate_token_rules_with(raw_rules);
    closed_in_into(parser_rules, lexer_rules, &mut lints);
    unused_tokens_into(parser_rules, lexer_rules, &mut lints);
    validate_endless_loops_into(parser_rules, &mut lints);
    validate_left_recursion_into(parser_rules, &mut lints);
    lints
}

} // verus!
