//! Lexer-rule extraction and the lexer: scans the raw rules for literal and
//! regex token usages and named token rules, builds an ordered, de-duplicated
//! token table, and splits source text into tokens against it (longest
//! literal first, with a word-boundary guard, then regexes in order).
use vstd::prelude::*;

use crate::common::{alphabetic, char_is_alphabetic, get_position, spec_is_token_id, is_token_id, spec_position};
use crate::grammar::{lemma_pats_view, pat_view, pats_view, GrammarRule, GrammarToken, Pat, RawRules, SpecPat, SpecToken};
use crate::rex::{anchored_find, anchored_ok, compile_anchored, regex_find, LexRegex};

verus! {

/// A token as described in a grammar.
#[derive(Debug)]
pub enum TokenDef {
    /// A named token, ie: 'TOKEN: "token"'
    Named(String, GrammarToken),
    /// An unnamed token, ie: 'rule: "[" expr "]"'
    Unnamed(GrammarToken),
}

/// Ghost form of a token definition.
#[verifier::ext_equal]
pub enum SpecTokenDef {
    Named(Seq<char>, SpecToken),
    Unnamed(SpecToken),
}

impl View for TokenDef {
    type V = SpecTokenDef;

    open spec fn view(&self) -> SpecTokenDef {
        match self {
            TokenDef::Named(name, t) => SpecTokenDef::Named(name@, t@),
            TokenDef::Unnamed(t) => SpecTokenDef::Unnamed(t@),
        }
    }
}

/// The ghost form of a token-definition list, element by element.
pub open spec fn defs_view(s: Seq<TokenDef>) -> Seq<SpecTokenDef> {
    Seq::new(s.len(), |i: int| s[i]@)
}

/// Rules that tell the lexing function how to split a text into tokens.
pub type LexerRules = Vec<TokenDef>;

/// A description of a small part of a source text.
#[derive(Debug)]
pub struct Token {
    /// The 'type' of this token; what kind of function this text part serves.
    pub name: String,
    /// The starting character index of this token in the source text.
    pub start: usize,
    /// The ending (exclusive) character index of this token in the source text.
    pub end: usize,
}

/// Ghost form of a token: its name and its character range.
#[verifier::ext_equal]
pub struct SpecLexToken {
    pub name: Seq<char>,
    pub start: int,
    pub end: int,
}

impl View for Token {
    type V = SpecLexToken;

    open spec fn view(&self) -> SpecLexToken {
        SpecLexToken { name: self.name@, start: self.start as int, end: self.end as int }
    }
}

/// The ghost form of a token list, element by element.
pub open spec fn tokens_view(s: Seq<Token>) -> Seq<SpecLexToken> {
    Seq::new(s.len(), |i: int| s[i]@)
}

impl Token {
    /// Creates a new token.
    pub fn new(name: String, start: usize, end: usize) -> (r: Token)
        ensures
            r@ == (SpecLexToken { name: name@, start: start as int, end: end as int }),
    {
        Token { name, start, end }
    }

    /// Returns the slice of the source text that this token represents.
    pub fn slice<'a>(&self, text: &'a str) -> (r: &'a str)
        requires
            self.start <= self.end <= text@.len(),
        ensures
            r@ == text@.subrange(self.start as int, self.end as int),
    {
        text.substring_char(self.start, self.end)
    }

    /// An owned copy whose ghost form is the same as this token's.
    pub fn duplicate(&self) -> (r: Token)
        ensures
            r@ == self@,
    {
        Token { name: self.name.clone(), start: self.start, end: self.end }
    }
}

impl PartialEq for Token {
    fn eq(&self, other: &Token) -> (r: bool) {
        self.name == other.name && self.start == other.start && self.end == other.end
    }
}

impl vstd::std_specs::cmp::PartialEqSpecImpl for Token {
    open spec fn obeys_eq_spec() -> bool {
        true
    }

    open spec fn eq_spec(&self, other: &Token) -> bool {
        self@ == other@
    }
}

/// Adds a token definition to the list unless an equal one is already there.
pub open spec fn spec_add_unique(acc: Seq<SpecTokenDef>, d: SpecTokenDef) -> Seq<SpecTokenDef> {
    if acc.contains(d) {
        acc
    } else {
        acc.push(d)
    }
}

/// The unnamed token definitions a pattern contributes, in first-seen order,
/// appended to `acc`.
pub open spec fn spec_defs_of_pat(p: SpecPat, acc: Seq<SpecTokenDef>) -> Seq<SpecTokenDef>
    decreases p, 0int,
{
    match p {
        SpecPat::Rule(_) => acc,
        SpecPat::Token(t) => spec_add_unique(acc, SpecTokenDef::Unnamed(t)),
        SpecPat::BreakOnToken(t) => spec_add_unique(acc, SpecTokenDef::Unnamed(t)),
        SpecPat::Sequence(ps) => spec_defs_of_pats(ps, acc, 0),
        SpecPat::AnyOf(ps) => spec_defs_of_pats(ps, acc, 0),
        SpecPat::Cap(_, b) => spec_defs_of_pat(*b, acc),
        SpecPat::Opt(b) => spec_defs_of_pat(*b, acc),
        SpecPat::ZeroPlus(b) => spec_defs_of_pat(*b, acc),
        SpecPat::OnePlus(b) => spec_defs_of_pat(*b, acc),
        SpecPat::Loop(b) => spec_defs_of_pat(*b, acc),
    }
}

/// The unnamed token definitions the patterns from index `k` on contribute.
pub open spec fn spec_defs_of_pats(ps: Seq<SpecPat>, acc: Seq<SpecTokenDef>, k: int) -> Seq<SpecTokenDef>
    decreases ps, ps.len() - k, 1int,
{
    if k < 0 || k >= ps.len() {
        acc
    } else {
        spec_defs_of_pats(ps, spec_defs_of_pat(ps[k], acc), k + 1)
    }
}

/// The named token definitions an all-uppercase rule's alternation
/// contributes: one per literal or regex alternative; other alternatives
/// contribute nothing here and are reported by validation.
pub open spec fn spec_defs_of_token_alts(
    name: Seq<char>,
    ps: Seq<SpecPat>,
    acc: Seq<SpecTokenDef>,
    k: int,
) -> Seq<SpecTokenDef>
    decreases ps.len() - k,
{
    if k < 0 || k >= ps.len() {
        acc
    } else {
        let acc2 = match ps[k] {
            SpecPat::Token(t) => spec_add_unique(acc, SpecTokenDef::Named(name, t)),
            _ => acc,
        };
        spec_defs_of_token_alts(name, ps, acc2, k + 1)
    }
}

/// The token definitions one rule contributes: an all-uppercase rule
/// declares named tokens from its literal/regex body; any other rule
/// contributes the unnamed literals and regexes its pattern uses.
pub open spec fn spec_defs_of_rule(name: Seq<char>, p: SpecPat, acc: Seq<SpecTokenDef>) -> Seq<SpecTokenDef> {
    if spec_is_token_id(name) {
        match p {
            SpecPat::Token(t) => spec_add_unique(acc, SpecTokenDef::Named(name, t)),
            SpecPat::AnyOf(ps) => spec_defs_of_token_alts(name, ps, acc, 0),
            _ => acc,
        }
    } else {
        spec_defs_of_pat(p, acc)
    }
}

/// The token definitions of all rules from index `k` on, in rule order.
pub open spec fn spec_find_lexer_rules(rules: Seq<(String, GrammarRule)>, acc: Seq<SpecTokenDef>, k: int) -> Seq<
    SpecTokenDef,
>
    decreases rules.len() - k,
{
    if k < 0 || k >= rules.len() {
        acc
    } else {
        let acc2 = spec_defs_of_rule(rules[k].0@, pat_view(rules[k].1.pat), acc);
        spec_find_lexer_rules(rules, acc2, k + 1)
    }
}

} // verus!

verus! {

/// Whether two token leaves are the same kind with the same text.
fn token_eq(a: &GrammarToken, b: &GrammarToken) -> (r: bool)
    ensures
        r == (a@ == b@),
{
    match (a, b) {
        (GrammarToken::Str(x), GrammarToken::Str(y)) => crate::common::string_eq(x, y),
        (GrammarToken::Re(x), GrammarToken::Re(y)) => crate::common::string_eq(x, y),
        (GrammarToken::Named(x), GrammarToken::Named(y)) => crate::common::string_eq(x, y),
        _ => false,
    }
}

/// Whether two token definitions are equal.
fn tokendef_eq(a: &TokenDef, b: &TokenDef) -> (r: bool)
    ensures
        r == (a@ == b@),
{
    match (a, b) {
        (TokenDef::Named(n1, t1), TokenDef::Named(n2, t2)) => crate::common::string_eq(n1, n2)
            && token_eq(t1, t2),
        (TokenDef::Unnamed(t1), TokenDef::Unnamed(t2)) => token_eq(t1, t2),
        _ => false,
    }
}

/// Whether the list already holds an equal token definition.
fn defs_contain(defs: &Vec<TokenDef>, d: &TokenDef) -> (r: bool)
    ensures
        r == defs_view(defs@).contains(d@),
{
    let mut i: usize = 0;
    while i < defs.len()
        invariant
            i <= defs@.len(),
            forall|j: int| 0 <= j < i ==> defs_view(defs@)[j] != d@,
        decreases defs@.len() - i,
    {
        if tokendef_eq(&defs[i], d) {
            assert(defs_view(defs@)[i as int] == d@);
            return true;
        }
        i = i + 1;
    }
    assert(!defs_view(defs@).contains(d@));
    false
}

/// Adds a token definition unless an equal one is already in the list.
fn add_unique(defs: &mut Vec<TokenDef>, d: TokenDef)
    ensures
        defs_view(final(defs)@) == spec_add_unique(defs_view(old(defs)@), d@),
{
    let ghost before = defs_view(old(defs)@);
    if !defs_contain(defs, &d) {
        defs.push(d);
        assert(defs_view(defs@) =~= before.push(d@));
    } else {
        assert(defs_view(defs@) =~= before);
    }
}

/// Collects the unnamed token definitions a pattern uses.
fn defs_of_pat(p: &Pat, defs: &mut Vec<TokenDef>)
    ensures
        defs_view(final(defs)@) == spec_defs_of_pat(p@, defs_view(old(defs)@)),
    decreases *p, 0int,
{
    match p {
        Pat::Rule(_) => {},
        Pat::Token(t) => add_unique(defs, TokenDef::Unnamed(t.duplicate())),
        Pat::BreakOnToken(t) => add_unique(defs, TokenDef::Unnamed(t.duplicate())),
        Pat::Sequence(ps) => {
            proof {
                lemma_pats_view(ps@);
            }
            defs_of_pats(ps, defs, 0);
        },
        Pat::AnyOf(ps) => {
            proof {
                lemma_pats_view(ps@);
            }
            defs_of_pats(ps, defs, 0);
        },
        Pat::Cap(_, b) => defs_of_pat(b, defs),
        Pat::Opt(b) => defs_of_pat(b, defs),
        Pat::ZeroPlus(b) => defs_of_pat(b, defs),
        Pat::OnePlus(b) => defs_of_pat(b, defs),
        Pat::Loop(b) => defs_of_pat(b, defs),
    }
}

/// Collects the unnamed token definitions the patterns from `k` on use.
fn defs_of_pats(ps: &Vec<Pat>, defs: &mut Vec<TokenDef>, k: usize)
    ensures
        defs_view(final(defs)@) == spec_defs_of_pats(pats_view(ps@), defs_view(old(defs)@), k as int),
    decreases *ps, ps@.len() - k, 1int,
{
    proof {
        lemma_pats_view(ps@);
    }
    if k < ps.len() {
        defs_of_pat(&ps[k], defs);
        defs_of_pats(ps, defs, k + 1);
    }
}

/// Collects the named token definitions of an all-uppercase rule whose body
/// is an alternation of token leaves.
fn defs_of_token_alts(name: &String, ps: &Vec<Pat>, defs: &mut Vec<TokenDef>, k: usize)
    ensures
        defs_view(final(defs)@) == spec_defs_of_token_alts(
            name@,
            pats_view(ps@),
            defs_view(old(defs)@),
            k as int,
        ),
    decreases ps@.len() - k,
{
    proof {
        lemma_pats_view(ps@);
    }
    if k < ps.len() {
        match &ps[k] {
            Pat::Token(t) => add_unique(defs, TokenDef::Named(name.clone(), t.duplicate())),
            _ => {},
        }
        defs_of_token_alts(name, ps, defs, k + 1);
    }
}

/// Finds the lexer rules defined in the given set of raw rules: an
/// all-uppercase rule declares named tokens from its literal/regex body, and
/// every other rule contributes the unnamed literals and regexes its pattern
/// uses, in first-seen order and without duplicates.
pub fn find_lexer_rules(rules: &RawRules) -> (r: LexerRules)
    ensures
        defs_view(r@) == spec_find_lexer_rules(rules@, Seq::<SpecTokenDef>::empty(), 0),
{
    let mut defs: Vec<TokenDef> = Vec::new();
    proof {
        assert(defs_view(defs@) =~= Seq::<SpecTokenDef>::empty());
    }
    let mut k: usize = 0;
    while k < rules.len()
        invariant
            k <= rules@.len(),
            spec_find_lexer_rules(rules@, defs_view(defs@), k as int) == spec_find_lexer_rules(
                rules@,
                Seq::<SpecTokenDef>::empty(),
                0,
            ),
        decreases rules@.len() - k,
    {
        let name = &rules[k].0;
        let rule = &rules[k].1;
        if is_token_id(name.as_str()) {
            match &rule.pat {
                Pat::Token(t) => add_unique(&mut defs, TokenDef::Named(name.clone(), t.duplicate())),
                Pat::AnyOf(ps) => defs_of_token_alts(name, ps, &mut defs, 0),
                _ => {},
            }
        } else {
            defs_of_pat(&rule.pat, &mut defs);
        }
        k = k + 1;
    }
    defs
}

} // verus!

verus! {

/// Whether every character of the text is alphabetic.
pub open spec fn all_alpha(s: Seq<char>) -> bool {
    forall|i: int| 0 <= i < s.len() ==> alphabetic(#[trigger] s[i])
}

/// Whether every character of the text is alphabetic.
fn is_all_alpha(s: &str) -> (r: bool)
    ensures
        r == all_alpha(s@),
{
    let n = s.unicode_len();
    let mut i: usize = 0;
    while i < n
        invariant
            n == s@.len(),
            i <= n,
            forall|j: int| 0 <= j < i ==> alphabetic(#[trigger] s@[j]),
        decreases n - i,
    {
        if !char_is_alphabetic(s.get_char(i)) {
            assert(!all_alpha(s@));
            return false;
        }
        i = i + 1;
    }
    true
}

/// Ghost form of one literal lexer entry: its token name, its text, and
/// whether the text is all-alphabetic (subject to the word-boundary guard).
#[verifier::ext_equal]
pub struct SpecLit {
    pub name: Seq<char>,
    pub text: Seq<char>,
    pub alpha: bool,
}

/// Ghost form of one regex lexer entry: its token name and regex source.
#[verifier::ext_equal]
pub struct SpecRex {
    pub name: Seq<char>,
    pub src: Seq<char>,
}

/// One literal entry of the lexer's table.
struct Lit {
    name: String,
    text: String,
    alpha: bool,
}

impl View for Lit {
    type V = SpecLit;

    closed spec fn view(&self) -> SpecLit {
        SpecLit { name: self.name@, text: self.text@, alpha: self.alpha }
    }
}

/// One compiled regex entry of the lexer's table.
struct Rex {
    name: String,
    re: LexRegex,
}

impl View for Rex {
    type V = SpecRex;

    closed spec fn view(&self) -> SpecRex {
        SpecRex { name: self.name@, src: self.re.src@ }
    }
}

spec fn lits_view(s: Seq<Lit>) -> Seq<SpecLit> {
    Seq::new(s.len(), |i: int| s[i]@)
}

spec fn rexes_view(s: Seq<Rex>) -> Seq<SpecRex> {
    Seq::new(s.len(), |i: int| s[i]@)
}

/// The lexer's tables for a list of token definitions, from index `k` on:
/// literals (with their boundary flag) and the regexes that compile, each
/// in definition order; or a defect when a definition already carries a
/// normalized token name.
pub open spec fn spec_tables(
    defs: Seq<SpecTokenDef>,
    k: int,
    lits: Seq<SpecLit>,
    rexes: Seq<SpecRex>,
) -> Result<(Seq<SpecLit>, Seq<SpecRex>), ()>
    decreases defs.len() - k,
{
    if k < 0 || k >= defs.len() {
        Ok((lits, rexes))
    } else {
        match defs[k] {
            SpecTokenDef::Named(n, SpecToken::Str(s)) => spec_tables(
                defs,
                k + 1,
                lits.push(SpecLit { name: n, text: s, alpha: all_alpha(s) }),
                rexes,
            ),
            SpecTokenDef::Unnamed(SpecToken::Str(s)) => spec_tables(
                defs,
                k + 1,
                lits.push(SpecLit { name: s, text: s, alpha: all_alpha(s) }),
                rexes,
            ),
            SpecTokenDef::Named(n, SpecToken::Re(s)) => if anchored_ok(s) {
                spec_tables(defs, k + 1, lits, rexes.push(SpecRex { name: n, src: s }))
            } else {
                spec_tables(defs, k + 1, lits, rexes)
            },
            SpecTokenDef::Unnamed(SpecToken::Re(s)) => if anchored_ok(s) {
                spec_tables(defs, k + 1, lits, rexes.push(SpecRex { name: s, src: s }))
            } else {
                spec_tables(defs, k + 1, lits, rexes)
            },
            SpecTokenDef::Named(_, SpecToken::Named(_)) => Err(()),
            SpecTokenDef::Unnamed(SpecToken::Named(_)) => Err(()),
        }
    }
}

/// Whether the literal matches the text at the position: it is nonempty and
/// its characters are exactly the next ones.
pub open spec fn spec_lit_match(text: Seq<char>, pos: int, l: SpecLit) -> bool {
    &&& l.text.len() >= 1
    &&& pos + l.text.len() <= text.len()
    &&& text.subrange(pos, pos + l.text.len()) == l.text
}

/// The index of the literal chosen at the position, scanning from `k` with
/// `best` the choice so far: a matching literal replaces the choice when it
/// is at least as long, so the longest match wins and later table entries
/// win ties.
pub open spec fn spec_best_lit(
    lits: Seq<SpecLit>,
    text: Seq<char>,
    pos: int,
    k: int,
    best: Option<int>,
) -> Option<int>
    decreases lits.len() - k,
{
    if k < 0 || k >= lits.len() {
        best
    } else {
        let better = spec_lit_match(text, pos, lits[k]) && (match best {
            Option::None => true,
            Option::Some(b) => lits[k].text.len() >= lits[b].text.len(),
        });
        spec_best_lit(lits, text, pos, k + 1, if better { Option::Some(k) } else { best })
    }
}

/// The first regex (from index `j`) whose anchored match against the rest of
/// the text is sound and consumes at least one character, with its relative
/// match range.
pub open spec fn spec_first_rex(rexes: Seq<SpecRex>, text: Seq<char>, pos: int, j: int) -> Option<
    (int, int, int),
>
    decreases rexes.len() - j,
{
    if j < 0 || j >= rexes.len() {
        Option::None
    } else {
        match anchored_find(rexes[j].src, text.subrange(pos, text.len() as int)) {
            Option::Some(se) => if 0 <= se.0 && se.0 <= se.1 && se.1 <= text.len() - pos && se.1 >= 1 {
                Option::Some((j, se.0, se.1))
            } else {
                spec_first_rex(rexes, text, pos, j + 1)
            },
            Option::None => spec_first_rex(rexes, text, pos, j + 1),
        }
    }
}

/// Whether a token name marks a layout token, which is consumed but kept out
/// of the token stream.
pub open spec fn spec_is_layout(name: Seq<char>) -> bool {
    name.len() > 0 && name[0] == '_'
}

/// The tokens of the text from position `pos` on, appended to `acc`: at each
/// position the longest matching literal wins unless the word-boundary guard
/// rejects it; otherwise the first regex that matches and consumes wins; and
/// a position where neither applies is the error.  Layout tokens (names
/// starting with `_`) are consumed but not recorded.
pub open spec fn spec_lex(
    lits: Seq<SpecLit>,
    rexes: Seq<SpecRex>,
    text: Seq<char>,
    pos: int,
    acc: Seq<SpecLexToken>,
) -> Result<Seq<SpecLexToken>, int>
    decreases text.len() - pos,
{
    if pos >= text.len() {
        Ok(acc)
    } else {
        let b0 = spec_best_lit(lits, text, pos, 0, Option::None);
        let b = match b0 {
            Option::Some(i) => if lits[i].alpha && pos + lits[i].text.len() < text.len()
                && alphabetic(text[pos + lits[i].text.len()]) {
                Option::None
            } else {
                Option::Some(i)
            },
            Option::None => Option::None,
        };
        match b {
            Option::Some(i) => {
                let len = lits[i].text.len() as int;
                if len < 1 || pos + len > text.len() {
                    Err(pos)
                } else {
                    let acc2 = if spec_is_layout(lits[i].name) {
                        acc
                    } else {
                        acc.push(SpecLexToken { name: lits[i].name, start: pos, end: pos + len })
                    };
                    spec_lex(lits, rexes, text, pos + len, acc2)
                }
            },
            Option::None => match spec_first_rex(rexes, text, pos, 0) {
                Option::Some((j, s, e)) => if e < 1 || e > text.len() - pos || s < 0 || s > e {
                    Err(pos)
                } else {
                    let acc2 = if spec_is_layout(rexes[j].name) {
                        acc
                    } else {
                        acc.push(SpecLexToken { name: rexes[j].name, start: pos + s, end: pos + e })
                    };
                    spec_lex(lits, rexes, text, pos + e, acc2)
                },
                Option::None => Err(pos),
            },
        }
    }
}

} // verus!

verus! {

/// Why lexing stopped: a malformed token table, or a position where no rule
/// matched (with its 1-indexed line and column).
#[derive(Debug, Clone, Copy, PartialEq, Eq, Structural)]
pub enum LexError {
    /// A token definition already carried a normalized token name.
    BadTokenDef,
    /// No literal or regex matched at the position.
    NoMatch { pos: usize, line: usize, col: usize },
}

/// Builds the lexer's tables from the token definitions, from index `k` on,
/// as `spec_tables` describes.
fn build_tables(defs: &Vec<TokenDef>, k: usize, lits: Vec<Lit>, rexes: Vec<Rex>) -> (r: Result<
    (Vec<Lit>, Vec<Rex>),
    LexError,
>)
    ensures
        ({
            let s = spec_tables(defs_view(defs@), k as int, lits_view(lits@), rexes_view(rexes@));
            match r {
                Ok((l, x)) => s == Ok::<(Seq<SpecLit>, Seq<SpecRex>), ()>(
                    (lits_view(l@), rexes_view(x@)),
                ),
                Err(e) => s is Err && e == LexError::BadTokenDef,
            }
        }),
    decreases defs@.len() - k,
{
    if k >= defs.len() {
        return Ok((lits, rexes));
    }
    match &defs[k] {
        TokenDef::Named(n, GrammarToken::Str(s)) => {
            let alpha = is_all_alpha(s.as_str());
            let mut lits = lits;
            let ghost lv = lits_view(lits@);
            lits.push(Lit { name: n.clone(), text: s.clone(), alpha });
            proof {
                assert(lits_view(lits@) =~= lv.push(SpecLit { name: n@, text: s@, alpha: all_alpha(s@) }));
            }
            build_tables(defs, k + 1, lits, rexes)
        },
        TokenDef::Unnamed(GrammarToken::Str(s)) => {
            let alpha = is_all_alpha(s.as_str());
            let mut lits = lits;
            let ghost lv = lits_view(lits@);
            lits.push(Lit { name: s.clone(), text: s.clone(), alpha });
            proof {
                assert(lits_view(lits@) =~= lv.push(SpecLit { name: s@, text: s@, alpha: all_alpha(s@) }));
            }
            build_tables(defs, k + 1, lits, rexes)
        },
        TokenDef::Named(n, GrammarToken::Re(s)) => match compile_anchored(s.as_str()) {
            Some(re) => {
                let mut rexes = rexes;
                let ghost xv = rexes_view(rexes@);
                rexes.push(Rex { name: n.clone(), re });
                proof {
                    assert(rexes_view(rexes@) =~= xv.push(SpecRex { name: n@, src: s@ }));
                }
                build_tables(defs, k + 1, lits, rexes)
            },
            None => build_tables(defs, k + 1, lits, rexes),
        },
        TokenDef::Unnamed(GrammarToken::Re(s)) => match compile_anchored(s.as_str()) {
            Some(re) => {
                let mut rexes = rexes;
                let ghost xv = rexes_view(rexes@);
                rexes.push(Rex { name: s.clone(), re });
                proof {
                    assert(rexes_view(rexes@) =~= xv.push(SpecRex { name: s@, src: s@ }));
                }
                build_tables(defs, k + 1, lits, rexes)
            },
            None => build_tables(defs, k + 1, lits, rexes),
        },
        TokenDef::Named(_, GrammarToken::Named(_)) => Err(LexError::BadTokenDef),
        TokenDef::Unnamed(GrammarToken::Named(_)) => Err(LexError::BadTokenDef),
    }
}

/// Whether the literal matches the text at the position, as
/// `spec_lit_match` describes.
fn lit_match(text: &str, n: usize, pos: usize, l: &Lit) -> (r: bool)
    requires
        n == text@.len(),
        pos <= n,
    ensures
        r == spec_lit_match(text@, pos as int, l@),
{
    let tl = l.text.unicode_len();
    if tl < 1 {
        return false;
    }
    if tl > n - pos {
        return false;
    }
    let mut i: usize = 0;
    while i < tl
        invariant
            n == text@.len(),
            tl == l.text@.len(),
            pos + tl <= n,
            i <= tl,
            forall|j: int| 0 <= j < i ==> text@[pos + j] == l.text@[j],
        decreases tl - i,
    {
        if text.get_char(pos + i) != l.text.get_char(i) {
            assert(text@.subrange(pos as int, pos + tl) != l.text@) by {
                assert(text@.subrange(pos as int, pos + tl)[i as int] == text@[pos + i]);
            }
            return false;
        }
        i = i + 1;
    }
    assert(text@.subrange(pos as int, pos + tl) =~= l.text@);
    true
}

/// The literal chosen at the position, as `spec_best_lit` describes; a
/// returned index is in range and its literal matches.
fn best_lit(lits: &Vec<Lit>, text: &str, n: usize, pos: usize, k: usize, best: Option<usize>) -> (r:
    Option<usize>)
    requires
        n == text@.len(),
        pos <= n,
        match best {
            Option::Some(b) => b < lits@.len() && spec_lit_match(text@, pos as int, lits@[b as int]@),
            Option::None => true,
        },
    ensures
        ({
            let sb = match best {
                Option::Some(b) => Option::Some(b as int),
                Option::None => Option::None,
            };
            let s = spec_best_lit(lits_view(lits@), text@, pos as int, k as int, sb);
            match r {
                Option::Some(i) => s == Option::Some(i as int) && i < lits@.len()
                    && spec_lit_match(text@, pos as int, lits@[i as int]@),
                Option::None => s is None,
            }
        }),
    decreases lits@.len() - k,
{
    if k >= lits.len() {
        return best;
    }
    let better = if lit_match(text, n, pos, &lits[k]) {
        match best {
            Option::None => true,
            Option::Some(b) => lits[k].text.unicode_len() >= lits[b].text.unicode_len(),
        }
    } else {
        false
    };
    if better {
        best_lit(lits, text, n, pos, k + 1, Some(k))
    } else {
        best_lit(lits, text, n, pos, k + 1, best)
    }
}

/// The first regex that matches and consumes at the position, as
/// `spec_first_rex` describes; a returned triple is in range.
fn first_rex(rexes: &Vec<Rex>, text: &str, n: usize, pos: usize, j: usize) -> (r: Option<
    (usize, usize, usize),
>)
    requires
        n == text@.len(),
        pos <= n,
    ensures
        ({
            let s = spec_first_rex(rexes_view(rexes@), text@, pos as int, j as int);
            match r {
                Option::Some((i, a, b)) => s == Option::Some((i as int, a as int, b as int)) && i
                    < rexes@.len() && a <= b && 1 <= b && b <= n - pos,
                Option::None => s is None,
            }
        }),
    decreases rexes@.len() - j,
{
    if j >= rexes.len() {
        return None;
    }
    let hay = text.substring_char(pos, n);
    assert(hay@ == text@.subrange(pos as int, text@.len() as int));
    match regex_find(&rexes[j].re, hay) {
        Some((s, e)) => {
            if 1 <= e && e <= n - pos && s <= e {
                Some((j, s, e))
            } else {
                first_rex(rexes, text, n, pos, j + 1)
            }
        },
        None => first_rex(rexes, text, n, pos, j + 1),
    }
}

/// Whether a token name marks a layout token.
fn is_layout(name: &String) -> (r: bool)
    ensures
        r == spec_is_layout(name@),
{
    let n = name.as_str().unicode_len();
    if n == 0 {
        return false;
    }
    name.as_str().get_char(0) == '_'
}

/// Lexes the text from position `pos` on, as `spec_lex` describes.
fn lex_from(
    lits: &Vec<Lit>,
    rexes: &Vec<Rex>,
    text: &str,
    n: usize,
    pos: usize,
    acc: Vec<Token>,
) -> (r: Result<Vec<Token>, usize>)
    requires
        n == text@.len(),
        pos <= n,
    ensures
        ({
            let s = spec_lex(lits_view(lits@), rexes_view(rexes@), text@, pos as int, tokens_view(acc@));
            match r {
                Ok(toks) => s == Ok::<Seq<SpecLexToken>, int>(tokens_view(toks@)),
                Err(p) => s == Err::<Seq<SpecLexToken>, int>(p as int) && p <= n,
            }
        }),
    decreases n - pos,
{
    if pos >= n {
        return Ok(acc);
    }
    let b0 = best_lit(lits, text, n, pos, 0, None);
    let b = match b0 {
        Some(i) => {
            let len = lits[i].text.unicode_len();
            if lits[i].alpha && pos + len < n && char_is_alphabetic(text.get_char(pos + len)) {
                None
            } else {
                Some(i)
            }
        },
        None => None,
    };
    match b {
        Some(i) => {
            let len = lits[i].text.unicode_len();
            if len < 1 || len > n - pos {
                return Err(pos);
            }
            let mut acc = acc;
            let ghost av = tokens_view(acc@);
            if !is_layout(&lits[i].name) {
                acc.push(Token { name: lits[i].name.clone(), start: pos, end: pos + len });
                proof {
                    assert(tokens_view(acc@) =~= av.push(
                        SpecLexToken { name: lits@[i as int].name@, start: pos as int, end: pos + len },
                    ));
                }
            }
            lex_from(lits, rexes, text, n, pos + len, acc)
        },
        None => match first_rex(rexes, text, n, pos, 0) {
            Some((j, s, e)) => {
                if e < 1 || e > n - pos || s > e {
                    return Err(pos);
                }
                let mut acc = acc;
                let ghost av = tokens_view(acc@);
                if !is_layout(&rexes[j].name) {
                    acc.push(Token { name: rexes[j].name.clone(), start: pos + s, end: pos + e });
                    proof {
                        assert(tokens_view(acc@) =~= av.push(
                            SpecLexToken { name: rexes@[j as int].name@, start: pos + s, end: pos + e },
                        ));
                    }
                }
                lex_from(lits, rexes, text, n, pos + e, acc)
            },
            None => Err(pos),
        },
    }
}

/// Splits the given text into tokens, based on the given set of rules: the
/// longest matching literal wins at each position unless the word-boundary
/// guard rejects it, then the first matching regex; layout tokens (names
/// starting with `_`) are consumed but not recorded; and a position where
/// no rule matches is reported with its line and column.
pub fn lex(text: &str, rules: &LexerRules) -> (r: Result<Vec<Token>, LexError>)
    ensures
        ({
            let t = spec_tables(defs_view(rules@), 0, Seq::<SpecLit>::empty(), Seq::<SpecRex>::empty());
            match r {
                Ok(toks) => t is Ok && spec_lex(t.unwrap().0, t.unwrap().1, text@, 0, Seq::empty())
                    == Ok::<Seq<SpecLexToken>, int>(tokens_view(toks@)),
                Err(e) => match e {
                    LexError::BadTokenDef => t is Err,
                    LexError::NoMatch { pos, line, col } => t is Ok && spec_lex(
                        t.unwrap().0,
                        t.unwrap().1,
                        text@,
                        0,
                        Seq::empty(),
                    ) == Err::<Seq<SpecLexToken>, int>(pos as int) && (line as int, col as int)
                        == spec_position(text@, pos as int),
                },
            }
        }),
{
    let lits0: Vec<Lit> = Vec::new();
    let rexes0: Vec<Rex> = Vec::new();
    proof {
        assert(lits_view(lits0@) =~= Seq::<SpecLit>::empty());
        assert(rexes_view(rexes0@) =~= Seq::<SpecRex>::empty());
    }
    let (lits, rexes) = match build_tables(rules, 0, lits0, rexes0) {
        Ok(t) => t,
        Err(e) => {
            return Err(e);
        },
    };
    let n = text.unicode_len();
    let acc0: Vec<Token> = Vec::new();
    proof {
        assert(tokens_view(acc0@) =~= Seq::<SpecLexToken>::empty());
    }
    match lex_from(&lits, &rexes, text, n, 0, acc0) {
        Ok(toks) => Ok(toks),
        Err(pos) => {
            let (line, col) = get_position(text, pos);
            Err(LexError::NoMatch { pos, line, col })
        },
    }
}

} // verus!

verus! {

/// The message text of a lexing failure: the position's line and column for
/// a text where no rule matched, or the malformed-table notice.
pub open spec fn spec_lex_err_msg(e: LexError) -> Seq<char> {
    match e {
        LexError::BadTokenDef => "A lexer rule contained an already-normalized token name"@,
        LexError::NoMatch { pos, line, col } => crate::render::spec_decimal(line as int) + ":"@
            + crate::render::spec_decimal(col as int) + ": Could not Lex text (no rules matched)"@,
    }
}

impl LexError {
    /// What went wrong, in words, as `spec_lex_err_msg` describes.
    pub fn message(&self) -> (r: String)
        ensures
            r@ == spec_lex_err_msg(*self),
    {
        match self {
            LexError::BadTokenDef => "A lexer rule contained an already-normalized token name".to_owned(),
            LexError::NoMatch { pos, line, col } => {
                let mut v: Vec<char> = Vec::new();
                crate::render::push_decimal(*line, &mut v);
                v.push(':');
                crate::render::push_decimal(*col, &mut v);
                crate::common::push_str_chars(&mut v, ": Could not Lex text (no rules matched)");
                proof {
                    reveal_strlit(":");
                    assert(v@ =~= spec_lex_err_msg(*self));
                }
                crate::common::chars_to_string(&v)
            },
        }
    }
}

} // verus!

verus! {

/// Whether every token of the list lies within a text of the given length,
/// with a well-ordered range.
pub open spec fn spec_tokens_in_range(toks: Seq<SpecLexToken>, len: int) -> bool {
    forall|i: int| 0 <= i < toks.len() ==> 0 <= (#[trigger] toks[i]).start <= toks[i].end <= len
}

/// Every token the lexer produces spans a well-ordered range inside the
/// text: lexing only ever appends tokens whose bounds it has checked.
pub proof fn lemma_lex_tokens_in_range(
    lits: Seq<SpecLit>,
    rexes: Seq<SpecRex>,
    text: Seq<char>,
    pos: int,
    acc: Seq<SpecLexToken>,
)
    requires
        spec_tokens_in_range(acc, text.len() as int),
        0 <= pos,
    ensures
        spec_lex(lits, rexes, text, pos, acc) matches Ok(toks) ==> spec_tokens_in_range(
            toks,
            text.len() as int,
        ),
    decreases text.len() - pos,
{
    if pos >= text.len() {
    } else {
        let b0 = spec_best_lit(lits, text, pos, 0, Option::None);
        let b = match b0 {
            Option::Some(i) => if lits[i].alpha && pos + lits[i].text.len() < text.len()
                && crate::common::alphabetic(text[pos + lits[i].text.len()]) {
                Option::<int>::None
            } else {
                Option::Some(i)
            },
            Option::None => Option::None,
        };
        match b {
            Option::Some(i) => {
                let len = lits[i].text.len() as int;
                if !(len < 1 || pos + len > text.len()) {
                    let acc2 = if spec_is_layout(lits[i].name) {
                        acc
                    } else {
                        acc.push(SpecLexToken { name: lits[i].name, start: pos, end: pos + len })
                    };
                    assert(spec_tokens_in_range(acc2, text.len() as int));
                    lemma_lex_tokens_in_range(lits, rexes, text, pos + len, acc2);
                }
            },
            Option::None => {
                match spec_first_rex(rexes, text, pos, 0) {
                    Option::Some((j, s, e)) => {
                        if !(e < 1 || e > text.len() - pos || s < 0 || s > e) {
                            let acc2 = if spec_is_layout(rexes[j].name) {
                                acc
                            } else {
                                acc.push(
                                    SpecLexToken { name: rexes[j].name, start: pos + s, end: pos + e },
                                )
                            };
                            assert(spec_tokens_in_range(acc2, text.len() as int));
                            lemma_lex_tokens_in_range(lits, rexes, text, pos + e, acc2);
                        }
                    },
                    Option::None => {},
                }
            },
        }
    }
}

} // verus!
