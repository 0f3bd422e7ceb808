//! Token-name normalization and the parsing engine: rewrites rule bodies to
//! a shared named-token form, derives the parser-rule table with assigned
//! capture slots, and interprets pattern trees against a token stream with
//! one-token lookahead, building a labeled capture tree.
use vstd::prelude::*;

use crate::captures::{spec_find_and_assign, find_and_assign_captures, CaptureError, CaptureType};
use crate::common::{spec_is_token_id, is_token_id, string_eq};
use crate::grammar::{lemma_pats_view, pat_view, pats_view, CaptureInfo, GrammarRule, GrammarToken, Pat, RawRules, SpecCapInfo, SpecPat, SpecToken};
use crate::lexer::{tokens_view, SpecLexToken, Token};

verus! {

/// A named parsing pattern, with a described set of capture slots.
#[derive(Debug)]
pub struct ParserRule {
    /// The rule's name.
    pub name: String,
    /// The rule's pattern, with capture slots assigned and token names
    /// normalized.
    pub pat: Pat,
    /// The cardinality of each capture slot.
    pub captures: Vec<CaptureType>,
}

/// Ghost form of a parser rule.
#[verifier::ext_equal]
pub struct SpecRule {
    pub name: Seq<char>,
    pub pat: SpecPat,
    pub captures: Seq<CaptureType>,
}

impl View for ParserRule {
    type V = SpecRule;

    open spec fn view(&self) -> SpecRule {
        SpecRule { name: self.name@, pat: self.pat@, captures: self.captures@ }
    }
}

/// Rules that tell the parsing function how to combine tokens into
/// structure; rule names are unique, and lookup takes the first match.
pub type ParserRules = Vec<ParserRule>;

/// The ghost form of a parser-rule list, element by element.
pub open spec fn rules_view(s: Seq<ParserRule>) -> Seq<SpecRule> {
    Seq::new(s.len(), |i: int| s[i]@)
}

/// The ghost form of a scope stack, element by element.
pub open spec fn strings_view(s: Seq<String>) -> Seq<Seq<char>> {
    Seq::new(s.len(), |i: int| s[i]@)
}

/// The pattern with every all-uppercase rule reference and every literal or
/// regex leaf rewritten to the named-token form the lexer's table uses.
pub open spec fn spec_norm(p: SpecPat) -> SpecPat
    decreases p, 0int,
{
    match p {
        SpecPat::Rule(name) => if spec_is_token_id(name) {
            SpecPat::Token(SpecToken::Named(name))
        } else {
            SpecPat::Rule(name)
        },
        SpecPat::Token(SpecToken::Str(s)) => SpecPat::Token(SpecToken::Named(s)),
        SpecPat::Token(SpecToken::Re(s)) => SpecPat::Token(SpecToken::Named(s)),
        SpecPat::Token(SpecToken::Named(s)) => SpecPat::Token(SpecToken::Named(s)),
        SpecPat::Sequence(ps) => SpecPat::Sequence(spec_norm_list(ps)),
        SpecPat::AnyOf(ps) => SpecPat::AnyOf(spec_norm_list(ps)),
        SpecPat::Cap(c, b) => SpecPat::Cap(c, Box::new(spec_norm(*b))),
        SpecPat::Opt(b) => SpecPat::Opt(Box::new(spec_norm(*b))),
        SpecPat::ZeroPlus(b) => SpecPat::ZeroPlus(Box::new(spec_norm(*b))),
        SpecPat::OnePlus(b) => SpecPat::OnePlus(Box::new(spec_norm(*b))),
        SpecPat::Loop(b) => SpecPat::Loop(Box::new(spec_norm(*b))),
        SpecPat::BreakOnToken(SpecToken::Str(s)) => SpecPat::BreakOnToken(SpecToken::Named(s)),
        SpecPat::BreakOnToken(SpecToken::Re(s)) => SpecPat::BreakOnToken(SpecToken::Named(s)),
        SpecPat::BreakOnToken(SpecToken::Named(s)) => SpecPat::BreakOnToken(SpecToken::Named(s)),
    }
}

/// The normalized form of each pattern of the list.
pub open spec fn spec_norm_list(ps: Seq<SpecPat>) -> Seq<SpecPat>
    decreases ps, 1int,
{
    if ps.len() == 0 {
        Seq::empty()
    } else {
        seq![spec_norm(ps[0])] + spec_norm_list(ps.drop_first())
    }
}

/// `spec_norm_list` maps each pattern of the list through `spec_norm`.
pub proof fn lemma_norm_list(ps: Seq<SpecPat>)
    ensures
        spec_norm_list(ps).len() == ps.len(),
        forall|i: int| 0 <= i < ps.len() ==> spec_norm_list(ps)[i] == spec_norm(ps[i]),
    decreases ps.len(),
{
    if ps.len() > 0 {
        lemma_norm_list(ps.drop_first());
        assert forall|i: int| 0 <= i < ps.len() implies spec_norm_list(ps)[i] == spec_norm(ps[i]) by {
            if i > 0 {
                assert(spec_norm_list(ps)[i] == spec_norm_list(ps.drop_first())[i - 1]);
                assert(ps.drop_first()[i - 1] == ps[i]);
            }
        }
    }
}

/// Changes all-uppercase rule references and literal/regex token leaves to
/// named tokens, as `spec_norm` describes.
fn assign_token_names(p: &Pat) -> (r: Pat)
    ensures
        r@ == spec_norm(p@),
    decreases *p, 0int,
{
    match p {
        Pat::Rule(name) => {
            if is_token_id(name.as_str()) {
                Pat::Token(GrammarToken::Named(name.clone()))
            } else {
                Pat::Rule(name.clone())
            }
        },
        Pat::Token(GrammarToken::Str(s)) => Pat::Token(GrammarToken::Named(s.clone())),
        Pat::Token(GrammarToken::Re(s)) => Pat::Token(GrammarToken::Named(s.clone())),
        Pat::Token(GrammarToken::Named(s)) => Pat::Token(GrammarToken::Named(s.clone())),
        Pat::Sequence(ps) => {
            let rs = assign_token_names_list(ps);
            proof {
                lemma_pats_view(ps@);
                lemma_pats_view(rs@);
                lemma_norm_list(pats_view(ps@));
                assert(pats_view(rs@) =~= spec_norm_list(pats_view(ps@)));
            }
            Pat::Sequence(rs)
        },
        Pat::AnyOf(ps) => {
            let rs = assign_token_names_list(ps);
            proof {
                lemma_pats_view(ps@);
                lemma_pats_view(rs@);
                lemma_norm_list(pats_view(ps@));
                assert(pats_view(rs@) =~= spec_norm_list(pats_view(ps@)));
            }
            Pat::AnyOf(rs)
        },
        Pat::Cap(c, b) => Pat::Cap(*c, Box::new(assign_token_names(b))),
        Pat::Opt(b) => Pat::Opt(Box::new(assign_token_names(b))),
        Pat::ZeroPlus(b) => Pat::ZeroPlus(Box::new(assign_token_names(b))),
        Pat::OnePlus(b) => Pat::OnePlus(Box::new(assign_token_names(b))),
        Pat::Loop(b) => Pat::Loop(Box::new(assign_token_names(b))),
        Pat::BreakOnToken(GrammarToken::Str(s)) => Pat::BreakOnToken(GrammarToken::Named(s.clone())),
        Pat::BreakOnToken(GrammarToken::Re(s)) => Pat::BreakOnToken(GrammarToken::Named(s.clone())),
        Pat::BreakOnToken(GrammarToken::Named(s)) => Pat::BreakOnToken(
            GrammarToken::Named(s.clone()),
        ),
    }
}

fn assign_token_names_list(ps: &Vec<Pat>) -> (r: Vec<Pat>)
    ensures
        r@.len() == ps@.len(),
        forall|i: int| 0 <= i < ps@.len() ==> (#[trigger] r@[i])@ == spec_norm(ps@[i]@),
    decreases *ps, 1int,
{
    let mut r: Vec<Pat> = Vec::new();
    let mut i: usize = 0;
    while i < ps.len()
        invariant
            i <= ps@.len(),
            r@.len() == i,
            forall|j: int| 0 <= j < i ==> (#[trigger] r@[j])@ == spec_norm(ps@[j]@),
        decreases ps@.len() - i,
    {
        r.push(assign_token_names(&ps[i]));
        i = i + 1;
    }
    r
}

/// Replaces the entry with the rule's name, or appends the rule, scanning
/// from index `k`.
pub open spec fn spec_upsert(acc: Seq<SpecRule>, r: SpecRule, k: int) -> Seq<SpecRule>
    decreases acc.len() - k,
{
    if k < 0 || k >= acc.len() {
        acc.push(r)
    } else if acc[k].name == r.name {
        acc.update(k, r)
    } else {
        spec_upsert(acc, r, k + 1)
    }
}

/// The parser rules derived from the raw rules from index `k` on: every
/// rule whose name is not all-uppercase, with capture slots assigned and
/// token names normalized; a later rule with the same name replaces an
/// earlier one.
pub open spec fn spec_find_parser_rules(
    rules: Seq<(String, GrammarRule)>,
    acc: Seq<SpecRule>,
    k: int,
) -> Result<Seq<SpecRule>, CaptureError>
    decreases rules.len() - k,
{
    if k < 0 || k >= rules.len() {
        Ok(acc)
    } else {
        let name = rules[k].0@;
        if spec_is_token_id(name) {
            spec_find_parser_rules(rules, acc, k + 1)
        } else {
            match spec_find_and_assign(pat_view(rules[k].1.pat)) {
                Err(e) => Err(e),
                Ok((q, types)) => spec_find_parser_rules(
                    rules,
                    spec_upsert(acc, SpecRule { name, pat: spec_norm(q), captures: types }, 0),
                    k + 1,
                ),
            }
        }
    }
}

fn upsert(acc: &mut Vec<ParserRule>, r: ParserRule, k: usize)
    ensures
        rules_view(final(acc)@) == spec_upsert(rules_view(old(acc)@), r@, k as int),
    decreases acc@.len() - k,
{
    let ghost before = rules_view(acc@);
    if k >= acc.len() {
        acc.push(r);
        assert(rules_view(acc@) =~= before.push(r@));
    } else if string_eq(&acc[k].name, &r.name) {
        acc[k] = r;
        assert(rules_view(acc@) =~= before.update(k as int, acc@[k as int]@));
    } else {
        upsert(acc, r, k + 1);
    }
}

/// Finds and compiles the parser rules in the given set of raw rules:
/// capture slots assigned, token names normalized, all-uppercase token
/// rules skipped; rejects rules whose capture markers are malformed.
pub fn find_parser_rules(rules: &RawRules) -> (r: Result<ParserRules, CaptureError>)
    ensures
        ({
            let s = spec_find_parser_rules(rules@, Seq::<SpecRule>::empty(), 0);
            match r {
                Ok(prs) => s == Ok::<Seq<SpecRule>, CaptureError>(rules_view(prs@)),
                Err(e) => s == Err::<Seq<SpecRule>, CaptureError>(e),
            }
        }),
{
    let mut acc: Vec<ParserRule> = Vec::new();
    proof {
        assert(rules_view(acc@) =~= Seq::<SpecRule>::empty());
    }
    let mut k: usize = 0;
    while k < rules.len()
        invariant
            k <= rules@.len(),
            spec_find_parser_rules(rules@, rules_view(acc@), k as int) == spec_find_parser_rules(
                rules@,
                Seq::<SpecRule>::empty(),
                0,
            ),
        decreases rules@.len() - k,
    {
        let name = &rules[k].0;
        if !is_token_id(name.as_str()) {
            match find_and_assign_captures(rules[k].1.pat.duplicate()) {
                Err(e) => {
                    return Err(e);
                },
                Ok(pr) => {
                    let normalized = assign_token_names(&pr.pat);
                    let rule = ParserRule { name: name.clone(), pat: normalized, captures: pr.captures };
                    upsert(&mut acc, rule, 0);
                },
            }
        }
        k = k + 1;
    }
    Ok(acc)
}

/// The index of the first rule with the given name, from index `k` on.
pub open spec fn spec_lookup(rules: Seq<SpecRule>, name: Seq<char>, k: int) -> Option<int>
    decreases rules.len() - k,
{
    if k < 0 || k >= rules.len() {
        Option::None
    } else if rules[k].name == name {
        Option::Some(k)
    } else {
        spec_lookup(rules, name, k + 1)
    }
}

/// The index of the rule with the given name, as `spec_lookup` describes.
pub(crate) fn lookup_rule(rules: &ParserRules, name: &str, k: usize) -> (r: Option<usize>)
    requires
        k <= rules@.len(),
    ensures
        ({
            let s = spec_lookup(rules_view(rules@), name@, k as int);
            match r {
                Option::Some(i) => s == Option::Some(i as int) && i < rules@.len(),
                Option::None => s is None,
            }
        }),
    decreases rules@.len() - k,
{
    if k >= rules.len() {
        None
    } else if crate::common::str_eq(rules[k].name.as_str(), name) {
        Some(k)
    } else {
        lookup_rule(rules, name, k + 1)
    }
}

} // verus!

verus! {

/// Describes the value of a rule or token matched and captured by a
/// capture marker.
#[derive(Debug)]
pub enum Capture {
    /// A single value that is always present.
    Single(Box<Match>),
    /// A value that may or may not be assigned when parsing.
    Optional(Option<Box<Match>>),
    /// A set of zero or more values, captured by repetitions.
    Multiple(Vec<Match>),
    /// A single token.
    Token(Token),
}

/// Describes a matched rule, including the values that were captured by it.
#[derive(Debug)]
pub struct Match {
    /// What rule was matched.
    pub rule: String,
    /// The values that were captured.
    pub captures: Vec<Capture>,
}

/// Ghost form of a captured value.
#[verifier::ext_equal]
pub enum SpecCapture {
    Single(Box<SpecMatch>),
    Optional(Option<Box<SpecMatch>>),
    Multiple(Seq<SpecMatch>),
    Token(SpecLexToken),
}

/// Ghost form of a matched rule.
#[verifier::ext_equal]
pub struct SpecMatch {
    pub rule: Seq<char>,
    pub captures: Seq<SpecCapture>,
}

/// The ghost form of a matched rule.
pub open spec fn match_view(m: Match) -> SpecMatch
    decreases m, 1int,
{
    SpecMatch { rule: m.rule@, captures: captures_view(m.captures@) }
}

/// The ghost form of a captured value.
pub open spec fn capture_view(c: Capture) -> SpecCapture
    decreases c, 1int,
{
    match c {
        Capture::Single(b) => SpecCapture::Single(Box::new(match_view(*b))),
        Capture::Optional(o) => SpecCapture::Optional(
            match o {
                Option::Some(b) => Option::Some(Box::new(match_view(*b))),
                Option::None => Option::None,
            },
        ),
        Capture::Multiple(ms) => SpecCapture::Multiple(matches_view(ms@)),
        Capture::Token(t) => SpecCapture::Token(t@),
    }
}

/// The ghost form of a capture list, element by element.
pub open spec fn captures_view(s: Seq<Capture>) -> Seq<SpecCapture>
    decreases s, 0int,
{
    if s.len() == 0 {
        Seq::empty()
    } else {
        seq![capture_view(s[0])] + captures_view(s.drop_first())
    }
}

/// The ghost form of a match list, element by element.
pub open spec fn matches_view(s: Seq<Match>) -> Seq<SpecMatch>
    decreases s, 0int,
{
    if s.len() == 0 {
        Seq::empty()
    } else {
        seq![match_view(s[0])] + matches_view(s.drop_first())
    }
}

impl View for Match {
    type V = SpecMatch;

    open spec fn view(&self) -> SpecMatch {
        match_view(*self)
    }
}

impl View for Capture {
    type V = SpecCapture;

    open spec fn view(&self) -> SpecCapture {
        capture_view(*self)
    }
}

/// `captures_view` maps each capture of the list to its ghost form.
pub proof fn lemma_captures_view(s: Seq<Capture>)
    ensures
        captures_view(s).len() == s.len(),
        forall|i: int| 0 <= i < s.len() ==> captures_view(s)[i] == capture_view(s[i]),
    decreases s.len(),
{
    if s.len() > 0 {
        lemma_captures_view(s.drop_first());
        assert forall|i: int| 0 <= i < s.len() implies captures_view(s)[i] == capture_view(s[i]) by {
            if i > 0 {
                assert(captures_view(s)[i] == captures_view(s.drop_first())[i - 1]);
                assert(s.drop_first()[i - 1] == s[i]);
            }
        }
    }
}

/// `matches_view` maps each match of the list to its ghost form.
pub proof fn lemma_matches_view(s: Seq<Match>)
    ensures
        matches_view(s).len() == s.len(),
        forall|i: int| 0 <= i < s.len() ==> matches_view(s)[i] == match_view(s[i]),
    decreases s.len(),
{
    if s.len() > 0 {
        lemma_matches_view(s.drop_first());
        assert forall|i: int| 0 <= i < s.len() implies matches_view(s)[i] == match_view(s[i]) by {
            if i > 0 {
                assert(matches_view(s)[i] == matches_view(s.drop_first())[i - 1]);
                assert(s.drop_first()[i - 1] == s[i]);
            }
        }
    }
}

/// What assigning a value to a capture slot yields: a single slot is
/// replaced, an empty optional slot is filled, a repeated slot appends; a
/// filled optional slot and a token slot refuse the value.
pub open spec fn spec_cap_assign(c: SpecCapture, v: SpecMatch) -> (SpecCapture, bool) {
    match c {
        SpecCapture::Single(_) => (SpecCapture::Single(Box::new(v)), true),
        SpecCapture::Optional(o) => match o {
            Option::None => (SpecCapture::Optional(Option::Some(Box::new(v))), true),
            Option::Some(_) => (c, false),
        },
        SpecCapture::Multiple(vs) => (SpecCapture::Multiple(vs.push(v)), true),
        SpecCapture::Token(_) => (c, false),
    }
}

impl Capture {
    /// Assigns the given value to this capture; reports whether the slot
    /// accepted it, as `spec_cap_assign` describes.
    pub fn assign(&mut self, value: Match) -> (ok: bool)
        ensures
            final(self)@ == spec_cap_assign(old(self)@, value@).0,
            ok == spec_cap_assign(old(self)@, value@).1,
    {
        match self {
            Capture::Single(_) => {
                *self = Capture::Single(Box::new(value));
                true
            },
            Capture::Optional(Option::None) => {
                *self = Capture::Optional(Some(Box::new(value)));
                true
            },
            Capture::Optional(Option::Some(_)) => false,
            Capture::Multiple(values) => {
                let ghost before = values@;
                values.push(value);
                proof {
                    lemma_matches_view(before);
                    lemma_matches_view(values@);
                    assert(matches_view(values@) =~= matches_view(before).push(
                        match_view(values@.last()),
                    ));
                }
                true
            },
            Capture::Token(_) => false,
        }
    }
}

/// The empty capture value for one declared cardinality: a placeholder
/// match for a single slot (always overwritten on success), an absent
/// optional, or an empty list.
pub open spec fn spec_empty_cap(t: CaptureType) -> SpecCapture {
    match t {
        CaptureType::Single => SpecCapture::Single(
            Box::new(SpecMatch { rule: Seq::empty(), captures: Seq::empty() }),
        ),
        CaptureType::Optional => SpecCapture::Optional(Option::None),
        CaptureType::Multiple => SpecCapture::Multiple(Seq::empty()),
    }
}

/// The fresh match for a rule: the rule's name, and one empty capture value
/// per declared slot.
pub open spec fn spec_match_new(r: SpecRule) -> SpecMatch {
    SpecMatch { rule: r.name, captures: Seq::new(r.captures.len(), |i: int| spec_empty_cap(r.captures[i])) }
}

impl Match {
    /// Creates a match with empty captures from a rule, as `spec_match_new`
    /// describes.
    pub fn new(rule: &ParserRule) -> (r: Match)
        ensures
            r@ == spec_match_new(rule@),
    {
        let mut caps: Vec<Capture> = Vec::new();
        let mut i: usize = 0;
        while i < rule.captures.len()
            invariant
                i <= rule.captures@.len(),
                caps@.len() == i,
                forall|j: int| 0 <= j < i ==> capture_view(#[trigger] caps@[j]) == spec_empty_cap(
                    rule.captures@[j],
                ),
            decreases rule.captures@.len() - i,
        {
            let c = match rule.captures[i] {
                CaptureType::Single => Capture::Single(
                    Box::new(Match { rule: String::new(), captures: Vec::new() }),
                ),
                CaptureType::Optional => Capture::Optional(None),
                CaptureType::Multiple => Capture::Multiple(Vec::new()),
            };
            proof {
                assert(captures_view(Seq::<Capture>::empty()) =~= Seq::<SpecCapture>::empty());
                assert(matches_view(Seq::<Match>::empty()) =~= Seq::<SpecMatch>::empty());
            }
            caps.push(c);
            i = i + 1;
        }
        proof {
            lemma_captures_view(caps@);
            assert(captures_view(caps@) =~= Seq::new(
                rule.captures@.len(),
                |j: int| spec_empty_cap(rule.captures@[j]),
            ));
        }
        Match { rule: rule.name.clone(), captures: caps }
    }

    /// Accesses a 'single' capture value of this match at the given capture
    /// index, if it is one.
    pub fn single(&self, index: usize) -> (r: Option<&Match>)
        ensures
            ({
                match r {
                    Option::Some(m) => index < self.captures@.len()
                        && self@.captures[index as int] == SpecCapture::Single(Box::new(m@)),
                    Option::None => index >= self.captures@.len() || !(self@.captures[index as int]
                        is Single),
                }
            }),
    {
        proof {
            lemma_captures_view(self.captures@);
        }
        if index >= self.captures.len() {
            return None;
        }
        match &self.captures[index] {
            Capture::Single(m) => Some(m),
            _ => None,
        }
    }

    /// Accesses an 'optional' capture value of this match at the given
    /// capture index, if it is one.
    pub fn optional(&self, index: usize) -> (r: Option<Option<&Match>>)
        ensures
            ({
                match r {
                    Option::Some(o) => index < self.captures@.len() && (match o {
                        Option::Some(m) => self@.captures[index as int] == SpecCapture::Optional(
                            Option::Some(Box::new(m@)),
                        ),
                        Option::None => self@.captures[index as int] == SpecCapture::Optional(
                            Option::None,
                        ),
                    }),
                    Option::None => index >= self.captures@.len() || !(self@.captures[index as int]
                        is Optional),
                }
            }),
    {
        proof {
            lemma_captures_view(self.captures@);
        }
        if index >= self.captures.len() {
            return None;
        }
        match &self.captures[index] {
            Capture::Optional(Option::Some(m)) => Some(Some(m)),
            Capture::Optional(Option::None) => Some(None),
            _ => None,
        }
    }

    /// Accesses a 'multiple' capture value of this match at the given
    /// capture index, if it is one.
    pub fn multiple(&self, index: usize) -> (r: Option<&Vec<Match>>)
        ensures
            ({
                match r {
                    Option::Some(ms) => index < self.captures@.len()
                        && self@.captures[index as int] == SpecCapture::Multiple(matches_view(ms@)),
                    Option::None => index >= self.captures@.len() || !(self@.captures[index as int]
                        is Multiple),
                }
            }),
    {
        proof {
            lemma_captures_view(self.captures@);
        }
        if index >= self.captures.len() {
            return None;
        }
        match &self.captures[index] {
            Capture::Multiple(ms) => Some(ms),
            _ => None,
        }
    }

    /// Accesses the token of a match that captured exactly one token.
    pub fn token(&self) -> (r: Option<&Token>)
        ensures
            ({
                match r {
                    Option::Some(t) => self.captures@.len() == 1 && self@.captures[0]
                        == SpecCapture::Token(t@),
                    Option::None => self.captures@.len() != 1 || !(self@.captures[0] is Token),
                }
            }),
    {
        proof {
            lemma_captures_view(self.captures@);
        }
        if self.captures.len() != 1 {
            return None;
        }
        match &self.captures[0] {
            Capture::Token(t) => Some(t),
            _ => None,
        }
    }
}

} // verus!

verus! {

/// How a pattern would react to a given lookahead token.
#[derive(Debug, Clone, Copy, PartialEq, Eq, Structural)]
pub enum ParseAction {
    /// The pattern consumes the token in one of its branches.
    MatchesToken,
    /// The pattern doesn't consume the token, but may be skipped.
    IgnoresToken,
    /// All branches of the pattern expect a different token.
    CannotParse,
}

/// How a pattern reacts to a lookahead token: a token leaf matches its own
/// name; a break leaf matches its token and is otherwise ignorable; a rule
/// reference delegates to its rule's pattern (spending fuel, and rejecting
/// when the rule is missing, the fuel is spent, or a leaf is not
/// normalized); a sequence rejects if an element rejects before one
/// matches; an alternation matches if any alternative does, else is
/// ignorable if any is; optionals and zero-or-more are ignorable unless
/// their payload matches; the rest delegate to their payload.
pub open spec fn spec_action(p: SpecPat, tok: Seq<char>, rules: Seq<SpecRule>, fuel: nat) -> ParseAction
    decreases fuel, p, 0int, 0int,
{
    match p {
        SpecPat::Token(SpecToken::Named(n)) => if n == tok {
            ParseAction::MatchesToken
        } else {
            ParseAction::CannotParse
        },
        SpecPat::Token(_) => ParseAction::CannotParse,
        SpecPat::BreakOnToken(SpecToken::Named(n)) => if n == tok {
            ParseAction::MatchesToken
        } else {
            ParseAction::IgnoresToken
        },
        SpecPat::BreakOnToken(_) => ParseAction::CannotParse,
        SpecPat::Rule(name) => match spec_lookup(rules, name, 0) {
            Option::None => ParseAction::CannotParse,
            Option::Some(i) => if fuel == 0 {
                ParseAction::CannotParse
            } else {
                spec_action(rules[i].pat, tok, rules, (fuel - 1) as nat)
            },
        },
        SpecPat::Sequence(ps) => spec_action_seq(ps, tok, rules, fuel, 0),
        SpecPat::AnyOf(ps) => spec_action_any(ps, tok, rules, fuel, 0, false),
        SpecPat::Opt(b) => if spec_action(*b, tok, rules, fuel) == ParseAction::MatchesToken {
            ParseAction::MatchesToken
        } else {
            ParseAction::IgnoresToken
        },
        SpecPat::ZeroPlus(b) => if spec_action(*b, tok, rules, fuel) == ParseAction::MatchesToken {
            ParseAction::MatchesToken
        } else {
            ParseAction::IgnoresToken
        },
        SpecPat::OnePlus(b) => spec_action(*b, tok, rules, fuel),
        SpecPat::Cap(_, b) => spec_action(*b, tok, rules, fuel),
        SpecPat::Loop(b) => spec_action(*b, tok, rules, fuel),
    }
}

/// The verdict of a sequence, scanning elements from `k`: the first element
/// that matches or rejects decides; all-ignorable elements make the
/// sequence ignorable.
pub open spec fn spec_action_seq(
    ps: Seq<SpecPat>,
    tok: Seq<char>,
    rules: Seq<SpecRule>,
    fuel: nat,
    k: int,
) -> ParseAction
    decreases fuel, ps, ps.len() - k, 1int,
{
    if k < 0 || k >= ps.len() {
        ParseAction::IgnoresToken
    } else {
        match spec_action(ps[k], tok, rules, fuel) {
            ParseAction::MatchesToken => ParseAction::MatchesToken,
            ParseAction::CannotParse => ParseAction::CannotParse,
            ParseAction::IgnoresToken => spec_action_seq(ps, tok, rules, fuel, k + 1),
        }
    }
}

/// The verdict of an alternation, scanning alternatives from `k`: any
/// matching alternative decides; otherwise any ignorable one makes the
/// alternation ignorable, and with none it rejects.
pub open spec fn spec_action_any(
    ps: Seq<SpecPat>,
    tok: Seq<char>,
    rules: Seq<SpecRule>,
    fuel: nat,
    k: int,
    opt_found: bool,
) -> ParseAction
    decreases fuel, ps, ps.len() - k, 1int,
{
    if k < 0 || k >= ps.len() {
        if opt_found {
            ParseAction::IgnoresToken
        } else {
            ParseAction::CannotParse
        }
    } else {
        match spec_action(ps[k], tok, rules, fuel) {
            ParseAction::MatchesToken => ParseAction::MatchesToken,
            ParseAction::IgnoresToken => spec_action_any(ps, tok, rules, fuel, k + 1, true),
            ParseAction::CannotParse => spec_action_any(ps, tok, rules, fuel, k + 1, opt_found),
        }
    }
}

/// Returns how the pattern would react to the given lookahead token, as
/// `spec_action` describes (with fuel for rule-reference chains equal to
/// the number of rules).
fn action_when_parsed(p: &Pat, tok: &String, rules: &ParserRules, fuel: u64) -> (r: ParseAction)
    ensures
        r == spec_action(p@, tok@, rules_view(rules@), fuel as nat),
    decreases fuel, *p, 0int, 0int,
{
    match p {
        Pat::Token(GrammarToken::Named(n)) => {
            if string_eq(n, tok) {
                ParseAction::MatchesToken
            } else {
                ParseAction::CannotParse
            }
        },
        Pat::Token(_) => ParseAction::CannotParse,
        Pat::BreakOnToken(GrammarToken::Named(n)) => {
            if string_eq(n, tok) {
                ParseAction::MatchesToken
            } else {
                ParseAction::IgnoresToken
            }
        },
        Pat::BreakOnToken(_) => ParseAction::CannotParse,
        Pat::Rule(name) => {
            match lookup_rule(rules, name.as_str(), 0) {
                None => ParseAction::CannotParse,
                Some(i) => {
                    if fuel == 0 {
                        ParseAction::CannotParse
                    } else {
                        action_when_parsed(&rules[i].pat, tok, rules, fuel - 1)
                    }
                },
            }
        },
        Pat::Sequence(ps) => {
            proof {
                lemma_pats_view(ps@);
            }
            action_seq(ps, tok, rules, fuel, 0)
        },
        Pat::AnyOf(ps) => {
            proof {
                lemma_pats_view(ps@);
            }
            action_any(ps, tok, rules, fuel, 0, false)
        },
        Pat::Opt(b) => {
            if action_when_parsed(b, tok, rules, fuel) == ParseAction::MatchesToken {
                ParseAction::MatchesToken
            } else {
                ParseAction::IgnoresToken
            }
        },
        Pat::ZeroPlus(b) => {
            if action_when_parsed(b, tok, rules, fuel) == ParseAction::MatchesToken {
                ParseAction::MatchesToken
            } else {
                ParseAction::IgnoresToken
            }
        },
        Pat::OnePlus(b) => action_when_parsed(b, tok, rules, fuel),
        Pat::Cap(_, b) => action_when_parsed(b, tok, rules, fuel),
        Pat::Loop(b) => action_when_parsed(b, tok, rules, fuel),
    }
}

fn action_seq(ps: &Vec<Pat>, tok: &String, rules: &ParserRules, fuel: u64, k: usize) -> (r: ParseAction)
    ensures
        r == spec_action_seq(pats_view(ps@), tok@, rules_view(rules@), fuel as nat, k as int),
    decreases fuel, *ps, ps@.len() - k, 1int,
{
    proof {
        lemma_pats_view(ps@);
    }
    if k >= ps.len() {
        ParseAction::IgnoresToken
    } else {
        match action_when_parsed(&ps[k], tok, rules, fuel) {
            ParseAction::MatchesToken => ParseAction::MatchesToken,
            ParseAction::CannotParse => ParseAction::CannotParse,
            ParseAction::IgnoresToken => action_seq(ps, tok, rules, fuel, k + 1),
        }
    }
}

fn action_any(ps: &Vec<Pat>, tok: &String, rules: &ParserRules, fuel: u64, k: usize, opt_found: bool) -> (r:
    ParseAction)
    ensures
        r == spec_action_any(pats_view(ps@), tok@, rules_view(rules@), fuel as nat, k as int, opt_found),
    decreases fuel, *ps, ps@.len() - k, 1int,
{
    proof {
        lemma_pats_view(ps@);
    }
    if k >= ps.len() {
        if opt_found {
            ParseAction::IgnoresToken
        } else {
            ParseAction::CannotParse
        }
    } else {
        match action_when_parsed(&ps[k], tok, rules, fuel) {
            ParseAction::MatchesToken => ParseAction::MatchesToken,
            ParseAction::IgnoresToken => action_any(ps, tok, rules, fuel, k + 1, true),
            ParseAction::CannotParse => action_any(ps, tok, rules, fuel, k + 1, opt_found),
        }
    }
}

/// Why a parse failed.
#[derive(Debug)]
pub enum ParseError {
    /// The token stream ended where a token was required.
    UnexpectedEnd,
    /// The next token was not the one the pattern requires.
    ExpectedToken { expected: String, found: String, pos: usize, scope: Vec<String> },
    /// No alternative of an alternation could act on the next token.
    ExpectedOneOf { alts: String, found: String, pos: usize, scope: Vec<String> },
    /// The input ended inside a loop that was never broken.
    UnclosedLoop { pos: usize, scope: Vec<String> },
    /// A referenced rule is not in the rule table.
    RuleNotFound { name: String },
    /// A token leaf without a normalized name reached the parser.
    Unnormalized,
    /// A capture marker without an assigned slot reached the parser.
    UnassignedCapture,
    /// A capture slot refused a value, or a slot index was out of range.
    CaptureConflict,
    /// The parse's step budget ran out.
    BudgetExhausted,
}

/// The result of a parse.
pub type ParseResult<T> = Result<T, ParseError>;

/// Ghost form of a parse failure.
#[verifier::ext_equal]
pub enum SpecParseErr {
    UnexpectedEnd,
    ExpectedToken { expected: Seq<char>, found: Seq<char>, pos: int, scope: Seq<Seq<char>> },
    ExpectedOneOf { alts: Seq<char>, found: Seq<char>, pos: int, scope: Seq<Seq<char>> },
    UnclosedLoop { pos: int, scope: Seq<Seq<char>> },
    RuleNotFound { name: Seq<char> },
    Unnormalized,
    UnassignedCapture,
    CaptureConflict,
    BudgetExhausted,
}

impl View for ParseError {
    type V = SpecParseErr;

    open spec fn view(&self) -> SpecParseErr {
        match self {
            ParseError::UnexpectedEnd => SpecParseErr::UnexpectedEnd,
            ParseError::ExpectedToken { expected, found, pos, scope } => SpecParseErr::ExpectedToken {
                expected: expected@,
                found: found@,
                pos: *pos as int,
                scope: strings_view(scope@),
            },
            ParseError::ExpectedOneOf { alts, found, pos, scope } => SpecParseErr::ExpectedOneOf {
                alts: alts@,
                found: found@,
                pos: *pos as int,
                scope: strings_view(scope@),
            },
            ParseError::UnclosedLoop { pos, scope } => SpecParseErr::UnclosedLoop {
                pos: *pos as int,
                scope: strings_view(scope@),
            },
            ParseError::RuleNotFound { name } => SpecParseErr::RuleNotFound { name: name@ },
            ParseError::Unnormalized => SpecParseErr::Unnormalized,
            ParseError::UnassignedCapture => SpecParseErr::UnassignedCapture,
            ParseError::CaptureConflict => SpecParseErr::CaptureConflict,
            ParseError::BudgetExhausted => SpecParseErr::BudgetExhausted,
        }
    }
}

} // verus!

verus! {

/// The capture-slot index as a ghost integer.
pub open spec fn opt_idx(o: Option<usize>) -> Option<int> {
    match o {
        Option::Some(i) => Option::Some(i as int),
        Option::None => Option::None,
    }
}

/// Whether the pattern's verdict for the next token is that it matches;
/// false at the end of the stream.
pub open spec fn spec_can_consume(p: SpecPat, rules: Seq<SpecRule>, toks: Seq<SpecLexToken>, pos: int) -> bool {
    pos < toks.len() && spec_action(p, toks[pos].name, rules, rules.len()) == ParseAction::MatchesToken
}

/// Records a parsed match into the designated capture slot, if any, ending
/// at the given position: no slot means the match is dropped; a slot out of
/// range or one that refuses the value is a conflict.
pub open spec fn spec_assign_into(
    caps: Seq<SpecCapture>,
    capi: Option<int>,
    m: SpecMatch,
    pos2: int,
) -> Result<(Seq<SpecCapture>, int, bool), SpecParseErr> {
    match capi {
        Option::None => Ok((caps, pos2, false)),
        Option::Some(ci) => if 0 <= ci < caps.len() {
            let a = spec_cap_assign(caps[ci], m);
            if a.1 {
                Ok((caps.update(ci, a.0), pos2, false))
            } else {
                Err(SpecParseErr::CaptureConflict)
            }
        } else {
            Err(SpecParseErr::CaptureConflict)
        },
    }
}

/// Parses one pattern against the token stream at `pos` with the capture
/// slots `caps` (writing into slot `capi` where one is designated),
/// returning the updated slots, the new position, and whether a loop break
/// was signalled; or the failure.  Lookahead decides how optionals,
/// repetitions and alternations proceed, and a wrong decision is never
/// undone.
pub open spec fn spec_parse(
    p: SpecPat,
    capi: Option<int>,
    caps: Seq<SpecCapture>,
    rules: Seq<SpecRule>,
    toks: Seq<SpecLexToken>,
    pos: int,
    scope: Seq<Seq<char>>,
    fuel: nat,
) -> Result<(Seq<SpecCapture>, int, bool), SpecParseErr>
    decreases fuel, p, 0int, 0int,
{
    match p {
        SpecPat::Rule(name) => match spec_lookup(rules, name, 0) {
            Option::None => Err(SpecParseErr::RuleNotFound { name }),
            Option::Some(i) => if fuel == 0 {
                Err(SpecParseErr::BudgetExhausted)
            } else {
                let m0 = spec_match_new(rules[i]);
                match spec_parse(
                    rules[i].pat,
                    Option::None,
                    m0.captures,
                    rules,
                    toks,
                    pos,
                    scope.push(rules[i].name),
                    (fuel - 1) as nat,
                ) {
                    Err(e) => Err(e),
                    Ok((c2, p2, _)) => spec_assign_into(
                        caps,
                        capi,
                        SpecMatch { rule: rules[i].name, captures: c2 },
                        p2,
                    ),
                }
            },
        },
        SpecPat::Token(SpecToken::Named(n)) => if pos < 0 || pos >= toks.len() {
            Err(SpecParseErr::UnexpectedEnd)
        } else {
            let t = toks[pos];
            if t.name == n {
                spec_assign_into(
                    caps,
                    capi,
                    SpecMatch { rule: n, captures: seq![SpecCapture::Token(t)] },
                    pos + 1,
                )
            } else {
                Err(SpecParseErr::ExpectedToken { expected: n, found: t.name, pos: t.start, scope })
            }
        },
        SpecPat::Token(_) => Err(SpecParseErr::Unnormalized),
        SpecPat::Sequence(ps) => spec_parse_seq(ps, 0, capi, caps, rules, toks, pos, scope, fuel),
        SpecPat::Opt(b) => if spec_can_consume(*b, rules, toks, pos) {
            match spec_parse(*b, capi, caps, rules, toks, pos, scope, fuel) {
                Err(e) => Err(e),
                Ok((c2, p2, _)) => Ok((c2, p2, false)),
            }
        } else {
            Ok((caps, pos, false))
        },
        SpecPat::ZeroPlus(b) => spec_parse_zp(*b, capi, caps, rules, toks, pos, scope, fuel),
        SpecPat::OnePlus(b) => match spec_parse(*b, capi, caps, rules, toks, pos, scope, fuel) {
            Err(e) => Err(e),
            Ok((c2, p2, true)) => Ok((c2, p2, true)),
            Ok((c2, p2, false)) => spec_parse_zp(*b, capi, c2, rules, toks, p2, scope, fuel),
        },
        SpecPat::AnyOf(ps) => if pos < 0 || pos >= toks.len() {
            Err(SpecParseErr::UnexpectedEnd)
        } else {
            spec_parse_any(ps, 0, false, capi, caps, rules, toks, pos, scope, fuel)
        },
        SpecPat::Loop(b) => if pos < 0 || pos >= toks.len() {
            Err(SpecParseErr::UnexpectedEnd)
        } else {
            spec_parse_loop(*b, toks[pos].start, capi, caps, rules, toks, pos, scope, fuel)
        },
        SpecPat::BreakOnToken(SpecToken::Named(n)) => if 0 <= pos < toks.len() && toks[pos].name == n {
            Ok((caps, pos + 1, true))
        } else {
            Ok((caps, pos, false))
        },
        SpecPat::BreakOnToken(_) => Err(SpecParseErr::Unnormalized),
        SpecPat::Cap(SpecCapInfo::Assigned(i), b) => spec_parse(
            *b,
            Option::Some(i as int),
            caps,
            rules,
            toks,
            pos,
            scope,
            fuel,
        ),
        SpecPat::Cap(_, _) => Err(SpecParseErr::UnassignedCapture),
    }
}

/// Parses the elements of a sequence from index `k`, threading slots and
/// position; a signalled break stops the sequence and is passed upward.
pub open spec fn spec_parse_seq(
    ps: Seq<SpecPat>,
    k: int,
    capi: Option<int>,
    caps: Seq<SpecCapture>,
    rules: Seq<SpecRule>,
    toks: Seq<SpecLexToken>,
    pos: int,
    scope: Seq<Seq<char>>,
    fuel: nat,
) -> Result<(Seq<SpecCapture>, int, bool), SpecParseErr>
    decreases fuel, ps, ps.len() - k, 1int,
{
    if k < 0 || k >= ps.len() {
        Ok((caps, pos, false))
    } else {
        match spec_parse(ps[k], capi, caps, rules, toks, pos, scope, fuel) {
            Err(e) => Err(e),
            Ok((c2, p2, true)) => Ok((c2, p2, true)),
            Ok((c2, p2, false)) => spec_parse_seq(ps, k + 1, capi, c2, rules, toks, p2, scope, fuel),
        }
    }
}

/// Parses an alternation by scanning alternatives from index `k`: the first
/// alternative whose verdict is a match is parsed and decides; an ignorable
/// alternative permits parsing nothing; with neither, the alternation fails
/// naming all alternatives.
pub open spec fn spec_parse_any(
    ps: Seq<SpecPat>,
    k: int,
    opt_found: bool,
    capi: Option<int>,
    caps: Seq<SpecCapture>,
    rules: Seq<SpecRule>,
    toks: Seq<SpecLexToken>,
    pos: int,
    scope: Seq<Seq<char>>,
    fuel: nat,
) -> Result<(Seq<SpecCapture>, int, bool), SpecParseErr>
    decreases fuel, ps, ps.len() - k, 1int,
{
    if k < 0 || k >= ps.len() {
        if opt_found {
            Ok((caps, pos, false))
        } else {
            Err(
                SpecParseErr::ExpectedOneOf {
                    alts: crate::render::spec_fmt_list(ps, " or "@, 0),
                    found: toks[pos].name,
                    pos: toks[pos].start,
                    scope,
                },
            )
        }
    } else {
        match spec_action(ps[k], toks[pos].name, rules, rules.len()) {
            ParseAction::MatchesToken => spec_parse(ps[k], capi, caps, rules, toks, pos, scope, fuel),
            ParseAction::IgnoresToken => spec_parse_any(
                ps,
                k + 1,
                true,
                capi,
                caps,
                rules,
                toks,
                pos,
                scope,
                fuel,
            ),
            ParseAction::CannotParse => spec_parse_any(
                ps,
                k + 1,
                opt_found,
                capi,
                caps,
                rules,
                toks,
                pos,
                scope,
                fuel,
            ),
        }
    }
}

/// Parses a zero-or-more repetition: the body runs while its verdict for
/// the lookahead is a match, spending one fuel per iteration; a signalled
/// break stops the repetition and is passed upward.
pub open spec fn spec_parse_zp(
    pat: SpecPat,
    capi: Option<int>,
    caps: Seq<SpecCapture>,
    rules: Seq<SpecRule>,
    toks: Seq<SpecLexToken>,
    pos: int,
    scope: Seq<Seq<char>>,
    fuel: nat,
) -> Result<(Seq<SpecCapture>, int, bool), SpecParseErr>
    decreases fuel, pat, 1int, 0int,
{
    if !spec_can_consume(pat, rules, toks, pos) {
        Ok((caps, pos, false))
    } else {
        match spec_parse(pat, capi, caps, rules, toks, pos, scope, fuel) {
            Err(e) => Err(e),
            Ok((c2, p2, true)) => Ok((c2, p2, true)),
            Ok((c2, p2, false)) => if fuel == 0 {
                Err(SpecParseErr::BudgetExhausted)
            } else {
                spec_parse_zp(pat, capi, c2, rules, toks, p2, scope, (fuel - 1) as nat)
            },
        }
    }
}

/// Parses an unbounded loop: the body repeats until it signals a break
/// (which the loop passes upward) or the input runs out, which is the
/// unclosed-loop failure at the loop's starting position.
pub open spec fn spec_parse_loop(
    pat: SpecPat,
    start: int,
    capi: Option<int>,
    caps: Seq<SpecCapture>,
    rules: Seq<SpecRule>,
    toks: Seq<SpecLexToken>,
    pos: int,
    scope: Seq<Seq<char>>,
    fuel: nat,
) -> Result<(Seq<SpecCapture>, int, bool), SpecParseErr>
    decreases fuel, pat, 1int, 0int,
{
    if pos >= toks.len() {
        Err(SpecParseErr::UnclosedLoop { pos: start, scope })
    } else {
        match spec_parse(pat, capi, caps, rules, toks, pos, scope, fuel) {
            Err(e) => Err(e),
            Ok((c2, p2, true)) => Ok((c2, p2, true)),
            Ok((c2, p2, false)) => if fuel == 0 {
                Err(SpecParseErr::BudgetExhausted)
            } else {
                spec_parse_loop(pat, start, capi, c2, rules, toks, p2, scope, (fuel - 1) as nat)
            },
        }
    }
}

/// Parses one named rule at `pos`: a fresh match with empty capture slots
/// is built, the rule's name is pushed on the scope, and the rule's pattern
/// fills the slots (spending one fuel); the filled match and the position
/// after it are returned.
pub open spec fn spec_parse_rule(
    name: Seq<char>,
    rules: Seq<SpecRule>,
    toks: Seq<SpecLexToken>,
    pos: int,
    scope: Seq<Seq<char>>,
    fuel: nat,
) -> Result<(SpecMatch, int), SpecParseErr> {
    match spec_lookup(rules, name, 0) {
        Option::None => Err(SpecParseErr::RuleNotFound { name }),
        Option::Some(i) => if fuel == 0 {
            Err(SpecParseErr::BudgetExhausted)
        } else {
            let m0 = spec_match_new(rules[i]);
            match spec_parse(
                rules[i].pat,
                Option::None,
                m0.captures,
                rules,
                toks,
                pos,
                scope.push(rules[i].name),
                (fuel - 1) as nat,
            ) {
                Err(e) => Err(e),
                Ok((c2, p2, _)) => Ok((SpecMatch { rule: rules[i].name, captures: c2 }, p2)),
            }
        },
    }
}

/// The parse's step budget: generous for any realistic input, and spent
/// only on rule entries and repetition steps, so that the engine is total
/// even on grammars whose loops never consume (which validation reports).
pub open spec fn spec_initial_fuel(t: int, r: int) -> nat {
    if 0 <= t <= 0xFFFF_FFFF && 0 <= r <= 0xFFFF {
        (((t + 2) * (r + 2)) * 4) as nat
    } else {
        u64::MAX as nat
    }
}

/// Parses a token stream with the named start rule: a token named `EOF`
/// spanning the text's end is appended, and the start rule is parsed from
/// the beginning with the full step budget.
pub open spec fn spec_parse_with_rules(
    start: Seq<char>,
    rules: Seq<SpecRule>,
    toks: Seq<SpecLexToken>,
    text_len: int,
) -> Result<SpecMatch, SpecParseErr> {
    let toks2 = toks.push(SpecLexToken { name: "EOF"@, start: text_len, end: text_len });
    match spec_parse_rule(
        start,
        rules,
        toks2,
        0,
        Seq::empty(),
        spec_initial_fuel(toks2.len() as int, rules.len() as int),
    ) {
        Err(e) => Err(e),
        Ok((m, _)) => Ok(m),
    }
}

} // verus!

verus! {

fn copy_scope(scope: &Vec<String>) -> (r: Vec<String>)
    ensures
        strings_view(r@) == strings_view(scope@),
{
    let mut r: Vec<String> = Vec::new();
    let mut i: usize = 0;
    while i < scope.len()
        invariant
            i <= scope@.len(),
            r@.len() == i,
            forall|j: int| 0 <= j < i ==> (#[trigger] r@[j])@ == scope@[j]@,
        decreases scope@.len() - i,
    {
        r.push(scope[i].clone());
        i = i + 1;
    }
    assert(strings_view(r@) =~= strings_view(scope@));
    r
}

/// Records a parsed match into the designated capture slot, if any, as
/// `spec_assign_into` describes (whose position component this helper does
/// not touch).
fn assign_into(caps: &mut Vec<Capture>, capi: Option<usize>, m: Match) -> (r: Result<(), ParseError>)
    ensures
        ({
            let s = spec_assign_into(captures_view(old(caps)@), opt_idx(capi), m@, 0);
            match r {
                Ok(u) => s is Ok && captures_view(final(caps)@) == s->Ok_0.0,
                Err(e) => s == Err::<(Seq<SpecCapture>, int, bool), SpecParseErr>(e@),
            }
        }),
{
    match capi {
        Option::None => Ok(()),
        Option::Some(ci) => {
            if ci < caps.len() {
                proof {
                    lemma_captures_view(caps@);
                }
                let ok = caps[ci].assign(m);
                proof {
                    lemma_captures_view(caps@);
                    lemma_captures_view(old(caps)@);
                    assert(captures_view(caps@) =~= captures_view(old(caps)@).update(
                        ci as int,
                        capture_view(caps@[ci as int]),
                    ));
                }
                if ok {
                    Ok(())
                } else {
                    proof {
                        assert(captures_view(caps@) =~= captures_view(old(caps)@));
                    }
                    Err(ParseError::CaptureConflict)
                }
            } else {
                proof {
                    lemma_captures_view(caps@);
                }
                Err(ParseError::CaptureConflict)
            }
        },
    }
}

/// Whether the pattern's verdict for the next token is a match, as
/// `spec_can_consume` describes.
fn can_consume(p: &Pat, rules: &ParserRules, toks: &Vec<Token>, pos: usize) -> (r: bool)
    ensures
        r == spec_can_consume(p@, rules_view(rules@), tokens_view(toks@), pos as int),
{
    if pos >= toks.len() {
        false
    } else {
        let a = action_when_parsed(p, &toks[pos].name, rules, rules.len() as u64);
        a == ParseAction::MatchesToken
    }
}

/// Parses one pattern against the token stream, as `spec_parse` describes.
fn parse_with_pattern(
    p: &Pat,
    capi: Option<usize>,
    caps: &mut Vec<Capture>,
    rules: &ParserRules,
    toks: &Vec<Token>,
    pos: &mut usize,
    scope: &mut Vec<String>,
    fuel: u64,
) -> (r: Result<bool, ParseError>)
    requires
        *old(pos) <= toks@.len(),
    ensures
        ({
            let s = spec_parse(
                p@,
                opt_idx(capi),
                captures_view(old(caps)@),
                rules_view(rules@),
                tokens_view(toks@),
                *old(pos) as int,
                strings_view(old(scope)@),
                fuel as nat,
            );
            match r {
                Ok(brk) => s == Ok::<(Seq<SpecCapture>, int, bool), SpecParseErr>(
                    (captures_view(final(caps)@), *final(pos) as int, brk),
                ) && final(scope)@ == old(scope)@ && *final(pos) <= toks@.len(),
                Err(e) => s == Err::<(Seq<SpecCapture>, int, bool), SpecParseErr>(e@),
            }
        }),
    decreases fuel, *p, 0int, 0int,
{
    match p {
        Pat::Rule(name) => {
            match lookup_rule(rules, name.as_str(), 0) {
                None => Err(ParseError::RuleNotFound { name: name.clone() }),
                Some(i) => {
                    if fuel == 0 {
                        return Err(ParseError::BudgetExhausted);
                    }
                    let mut m = Match::new(&rules[i]);
                    let ghost scope0 = scope@;
                    scope.push(rules[i].name.clone());
                    proof {
                        assert(strings_view(scope@) =~= strings_view(scope0).push(
                            rules_view(rules@)[i as int].name,
                        ));
                    }
                    match parse_with_pattern(
                        &rules[i].pat,
                        None,
                        &mut m.captures,
                        rules,
                        toks,
                        pos,
                        scope,
                        fuel - 1,
                    ) {
                        Err(e) => Err(e),
                        Ok(_brk) => {
                            let _ = scope.pop();
                            proof {
                                assert(scope@ =~= scope0);
                            }
                            let ghost mv = SpecMatch { rule: rules_view(rules@)[i as int].name, captures: captures_view(m.captures@) };
                            proof {
                                assert(m@ =~= mv);
                            }
                            match assign_into(caps, capi, m) {
                                Ok(u) => Ok(false),
                                Err(e) => Err(e),
                            }
                        },
                    }
                },
            }
        },
        Pat::Token(GrammarToken::Named(n)) => {
            if *pos >= toks.len() {
                return Err(ParseError::UnexpectedEnd);
            }
            if string_eq(&toks[*pos].name, n) {
                let tok_copy = toks[*pos].duplicate();
                *pos = *pos + 1;
                match capi {
                    None => Ok(false),
                    Some(_) => {
                        let m = Match { rule: n.clone(), captures: vec![Capture::Token(tok_copy)] };
                        proof {
                            assert(captures_view(Seq::<Capture>::empty()) =~= Seq::<
                                SpecCapture,
                            >::empty());
                            assert(m@ =~= SpecMatch {
                                rule: n@,
                                captures: seq![
                                    SpecCapture::Token(tokens_view(toks@)[*old(pos) as int]),
                                ],
                            });
                        }
                        match assign_into(caps, capi, m) {
                            Ok(u) => Ok(false),
                            Err(e) => Err(e),
                        }
                    },
                }
            } else {
                Err(
                    ParseError::ExpectedToken {
                        expected: n.clone(),
                        found: toks[*pos].name.clone(),
                        pos: toks[*pos].start,
                        scope: copy_scope(scope),
                    },
                )
            }
        },
        Pat::Token(_) => Err(ParseError::Unnormalized),
        Pat::Sequence(ps) => {
            proof {
                lemma_pats_view(ps@);
            }
            parse_seq(ps, 0, capi, caps, rules, toks, pos, scope, fuel)
        },
        Pat::Opt(b) => {
            if can_consume(b, rules, toks, *pos) {
                match parse_with_pattern(b, capi, caps, rules, toks, pos, scope, fuel) {
                    Err(e) => Err(e),
                    Ok(_brk) => Ok(false),
                }
            } else {
                Ok(false)
            }
        },
        Pat::ZeroPlus(b) => parse_zp(b, capi, caps, rules, toks, pos, scope, fuel),
        Pat::OnePlus(b) => {
            match parse_with_pattern(b, capi, caps, rules, toks, pos, scope, fuel) {
                Err(e) => Err(e),
                Ok(true) => Ok(true),
                Ok(false) => parse_zp(b, capi, caps, rules, toks, pos, scope, fuel),
            }
        },
        Pat::AnyOf(ps) => {
            proof {
                lemma_pats_view(ps@);
            }
            if *pos >= toks.len() {
                return Err(ParseError::UnexpectedEnd);
            }
            parse_any(ps, 0, false, capi, caps, rules, toks, pos, scope, fuel)
        },
        Pat::Loop(b) => {
            if *pos >= toks.len() {
                return Err(ParseError::UnexpectedEnd);
            }
            let start = toks[*pos].start;
            parse_loop(b, start, capi, caps, rules, toks, pos, scope, fuel)
        },
        Pat::BreakOnToken(GrammarToken::Named(n)) => {
            if *pos < toks.len() && string_eq(&toks[*pos].name, n) {
                *pos = *pos + 1;
                Ok(true)
            } else {
                Ok(false)
            }
        },
        Pat::BreakOnToken(_) => Err(ParseError::Unnormalized),
        Pat::Cap(CaptureInfo::Assigned(i), b) => parse_with_pattern(
            b,
            Some(*i),
            caps,
            rules,
            toks,
            pos,
            scope,
            fuel,
        ),
        Pat::Cap(_, _) => Err(ParseError::UnassignedCapture),
    }
}

/// Parses the elements of a sequence from index `k`, as `spec_parse_seq`
/// describes.
fn parse_seq(
    ps: &Vec<Pat>,
    k: usize,
    capi: Option<usize>,
    caps: &mut Vec<Capture>,
    rules: &ParserRules,
    toks: &Vec<Token>,
    pos: &mut usize,
    scope: &mut Vec<String>,
    fuel: u64,
) -> (r: Result<bool, ParseError>)
    requires
        *old(pos) <= toks@.len(),
    ensures
        ({
            let s = spec_parse_seq(
                pats_view(ps@),
                k as int,
                opt_idx(capi),
                captures_view(old(caps)@),
                rules_view(rules@),
                tokens_view(toks@),
                *old(pos) as int,
                strings_view(old(scope)@),
                fuel as nat,
            );
            match r {
                Ok(brk) => s == Ok::<(Seq<SpecCapture>, int, bool), SpecParseErr>(
                    (captures_view(final(caps)@), *final(pos) as int, brk),
                ) && final(scope)@ == old(scope)@ && *final(pos) <= toks@.len(),
                Err(e) => s == Err::<(Seq<SpecCapture>, int, bool), SpecParseErr>(e@),
            }
        }),
    decreases fuel, *ps, ps@.len() - k, 1int,
{
    proof {
        lemma_pats_view(ps@);
    }
    if k >= ps.len() {
        Ok(false)
    } else {
        match parse_with_pattern(&ps[k], capi, caps, rules, toks, pos, scope, fuel) {
            Err(e) => Err(e),
            Ok(true) => Ok(true),
            Ok(false) => parse_seq(ps, k + 1, capi, caps, rules, toks, pos, scope, fuel),
        }
    }
}

/// Parses an alternation by scanning alternatives from index `k`, as
/// `spec_parse_any` describes.
fn parse_any(
    ps: &Vec<Pat>,
    k: usize,
    opt_found: bool,
    capi: Option<usize>,
    caps: &mut Vec<Capture>,
    rules: &ParserRules,
    toks: &Vec<Token>,
    pos: &mut usize,
    scope: &mut Vec<String>,
    fuel: u64,
) -> (r: Result<bool, ParseError>)
    requires
        *old(pos) < toks@.len(),
    ensures
        ({
            let s = spec_parse_any(
                pats_view(ps@),
                k as int,
                opt_found,
                opt_idx(capi),
                captures_view(old(caps)@),
                rules_view(rules@),
                tokens_view(toks@),
                *old(pos) as int,
                strings_view(old(scope)@),
                fuel as nat,
            );
            match r {
                Ok(brk) => s == Ok::<(Seq<SpecCapture>, int, bool), SpecParseErr>(
                    (captures_view(final(caps)@), *final(pos) as int, brk),
                ) && final(scope)@ == old(scope)@ && *final(pos) <= toks@.len(),
                Err(e) => s == Err::<(Seq<SpecCapture>, int, bool), SpecParseErr>(e@),
            }
        }),
    decreases fuel, *ps, ps@.len() - k, 1int,
{
    proof {
        lemma_pats_view(ps@);
    }
    if k >= ps.len() {
        if opt_found {
            Ok(false)
        } else {
            let mut v: Vec<char> = Vec::new();
            crate::render::fmt_list(ps, " or ", &mut v, 0);
            proof {
                assert(v@ =~= crate::render::spec_fmt_list(pats_view(ps@), " or "@, 0));
            }
            let alts = crate::common::chars_to_string(&v);
            Err(
                ParseError::ExpectedOneOf {
                    alts,
                    found: toks[*pos].name.clone(),
                    pos: toks[*pos].start,
                    scope: copy_scope(scope),
                },
            )
        }
    } else {
        let a = action_when_parsed(&ps[k], &toks[*pos].name, rules, rules.len() as u64);
        match a {
            ParseAction::MatchesToken => parse_with_pattern(
                &ps[k],
                capi,
                caps,
                rules,
                toks,
                pos,
                scope,
                fuel,
            ),
            ParseAction::IgnoresToken => parse_any(
                ps,
                k + 1,
                true,
                capi,
                caps,
                rules,
                toks,
                pos,
                scope,
                fuel,
            ),
            ParseAction::CannotParse => parse_any(
                ps,
                k + 1,
                opt_found,
                capi,
                caps,
                rules,
                toks,
                pos,
                scope,
                fuel,
            ),
        }
    }
}

/// Parses a zero-or-more repetition, as `spec_parse_zp` describes.
fn parse_zp(
    b: &Pat,
    capi: Option<usize>,
    caps: &mut Vec<Capture>,
    rules: &ParserRules,
    toks: &Vec<Token>,
    pos: &mut usize,
    scope: &mut Vec<String>,
    fuel: u64,
) -> (r: Result<bool, ParseError>)
    requires
        *old(pos) <= toks@.len(),
    ensures
        ({
            let s = spec_parse_zp(
                b@,
                opt_idx(capi),
                captures_view(old(caps)@),
                rules_view(rules@),
                tokens_view(toks@),
                *old(pos) as int,
                strings_view(old(scope)@),
                fuel as nat,
            );
            match r {
                Ok(brk) => s == Ok::<(Seq<SpecCapture>, int, bool), SpecParseErr>(
                    (captures_view(final(caps)@), *final(pos) as int, brk),
                ) && final(scope)@ == old(scope)@ && *final(pos) <= toks@.len(),
                Err(e) => s == Err::<(Seq<SpecCapture>, int, bool), SpecParseErr>(e@),
            }
        }),
    decreases fuel, *b, 1int, 0int,
{
    if !can_consume(b, rules, toks, *pos) {
        Ok(false)
    } else {
        match parse_with_pattern(b, capi, caps, rules, toks, pos, scope, fuel) {
            Err(e) => Err(e),
            Ok(true) => Ok(true),
            Ok(false) => {
                if fuel == 0 {
                    Err(ParseError::BudgetExhausted)
                } else {
                    parse_zp(b, capi, caps, rules, toks, pos, scope, fuel - 1)
                }
            },
        }
    }
}

/// Parses an unbounded loop, as `spec_parse_loop` describes.
fn parse_loop(
    b: &Pat,
    start: usize,
    capi: Option<usize>,
    caps: &mut Vec<Capture>,
    rules: &ParserRules,
    toks: &Vec<Token>,
    pos: &mut usize,
    scope: &mut Vec<String>,
    fuel: u64,
) -> (r: Result<bool, ParseError>)
    requires
        *old(pos) <= toks@.len(),
    ensures
        ({
            let s = spec_parse_loop(
                b@,
                start as int,
                opt_idx(capi),
                captures_view(old(caps)@),
                rules_view(rules@),
                tokens_view(toks@),
                *old(pos) as int,
                strings_view(old(scope)@),
                fuel as nat,
            );
            match r {
                Ok(brk) => s == Ok::<(Seq<SpecCapture>, int, bool), SpecParseErr>(
                    (captures_view(final(caps)@), *final(pos) as int, brk),
                ) && final(scope)@ == old(scope)@ && *final(pos) <= toks@.len(),
                Err(e) => s == Err::<(Seq<SpecCapture>, int, bool), SpecParseErr>(e@),
            }
        }),
    decreases fuel, *b, 1int, 0int,
{
    if *pos >= toks.len() {
        Err(ParseError::UnclosedLoop { pos: start, scope: copy_scope(scope) })
    } else {
        match parse_with_pattern(b, capi, caps, rules, toks, pos, scope, fuel) {
            Err(e) => Err(e),
            Ok(true) => Ok(true),
            Ok(false) => {
                if fuel == 0 {
                    Err(ParseError::BudgetExhausted)
                } else {
                    parse_loop(b, start, capi, caps, rules, toks, pos, scope, fuel - 1)
                }
            },
        }
    }
}

} // verus!

verus! {

/// Parses the given tokens using the named rule, as `spec_parse_rule`
/// describes.
fn parse_with_rule(
    name: &String,
    rules: &ParserRules,
    toks: &Vec<Token>,
    pos: &mut usize,
    scope: &mut Vec<String>,
    fuel: u64,
) -> (r: Result<Match, ParseError>)
    requires
        *old(pos) <= toks@.len(),
    ensures
        ({
            let s = spec_parse_rule(
                name@,
                rules_view(rules@),
                tokens_view(toks@),
                *old(pos) as int,
                strings_view(old(scope)@),
                fuel as nat,
            );
            match r {
                Ok(m) => s == Ok::<(SpecMatch, int), SpecParseErr>((m@, *final(pos) as int)),
                Err(e) => s == Err::<(SpecMatch, int), SpecParseErr>(e@),
            }
        }),
{
    match lookup_rule(rules, name.as_str(), 0) {
        None => Err(ParseError::RuleNotFound { name: name.clone() }),
        Some(i) => {
            if fuel == 0 {
                return Err(ParseError::BudgetExhausted);
            }
            let mut m = Match::new(&rules[i]);
            let ghost scope0 = scope@;
            scope.push(rules[i].name.clone());
            proof {
                assert(strings_view(scope@) =~= strings_view(scope0).push(
                    rules_view(rules@)[i as int].name,
                ));
            }
            match parse_with_pattern(&rules[i].pat, None, &mut m.captures, rules, toks, pos, scope, fuel - 1) {
                Err(e) => Err(e),
                Ok(_brk) => {
                    let _ = scope.pop();
                    proof {
                        assert(m@ =~= SpecMatch {
                            rule: rules_view(rules@)[i as int].name,
                            captures: captures_view(m.captures@),
                        });
                    }
                    Ok(m)
                },
            }
        },
    }
}

/// Parses the given tokens using the named 'start' rule: a token named
/// `EOF` spanning the end of the source text is appended so that the end of
/// input can be checked by ordinary lookahead, and the start rule is parsed
/// from the first token, as `spec_parse_with_rules` describes.
pub fn parse_with_rules(start: &str, rules: &ParserRules, tokens: Vec<Token>, source_text: &str) -> (r:
    Result<Match, ParseError>)
    ensures
        ({
            let s = spec_parse_with_rules(
                start@,
                rules_view(rules@),
                tokens_view(tokens@),
                source_text@.len() as int,
            );
            match r {
                Ok(m) => s == Ok::<SpecMatch, SpecParseErr>(m@),
                Err(e) => s == Err::<SpecMatch, SpecParseErr>(e@),
            }
        }),
{
    let n = source_text.unicode_len();
    let mut toks = tokens;
    let ghost toks0 = toks@;
    toks.push(Token { name: "EOF".to_owned(), start: n, end: n });
    proof {
        assert(tokens_view(toks@) =~= tokens_view(toks0).push(
            SpecLexToken { name: "EOF"@, start: n as int, end: n as int },
        ));
    }
    let t = toks.len();
    let rl = rules.len();
    let fuel: u64 = if (t as u64) <= 0xFFFF_FFFFu64 && (rl as u64) <= 0xFFFFu64 {
        assert((t as u64 + 2) * (rl as u64 + 2) <= 0x1_0000_0001u64 * 0x1_0001u64) by (nonlinear_arith)
            requires
                t as u64 <= 0xFFFF_FFFFu64,
                rl as u64 <= 0xFFFFu64,
        ;
        let prod = (t as u64 + 2) * (rl as u64 + 2);
        prod * 4
    } else {
        u64::MAX
    };
    assert(fuel as nat == spec_initial_fuel(toks@.len() as int, rules@.len() as int));
    let mut pos: usize = 0;
    let mut scope: Vec<String> = Vec::new();
    proof {
        assert(strings_view(scope@) =~= Seq::<Seq<char>>::empty());
    }
    let sname = start.to_owned();
    match parse_with_rule(&sname, rules, &toks, &mut pos, &mut scope, fuel) {
        Ok(m) => Ok(m),
        Err(e) => Err(e),
    }
}

} // verus!

verus! {

/// A run of `n` spaces.
pub open spec fn spec_spaces(n: int) -> Seq<char>
    decreases n,
{
    if n <= 0 {
        Seq::empty()
    } else {
        seq![' '] + spec_spaces(n - 1)
    }
}

fn push_spaces(n: usize, out: &mut Vec<char>)
    ensures
        final(out)@ == old(out)@ + spec_spaces(n as int),
    decreases n,
{
    if n > 0 {
        out.push(' ');
        push_spaces(n - 1, out);
    }
    assert(out@ =~= old(out)@ + spec_spaces(n as int));
}

/// Whether every character of a name is uppercase, the convention that
/// marks a match standing for one lexer token.
pub open spec fn spec_all_upper(s: Seq<char>) -> bool {
    forall|i: int| 0 <= i < s.len() ==> crate::common::uppercase(#[trigger] s[i])
}

fn is_all_upper(s: &str) -> (r: bool)
    ensures
        r == spec_all_upper(s@),
{
    let n = s.unicode_len();
    let mut i: usize = 0;
    while i < n
        invariant
            n == s@.len(),
            i <= n,
            forall|j: int| 0 <= j < i ==> crate::common::uppercase(#[trigger] s@[j]),
        decreases n - i,
    {
        if !crate::common::char_is_uppercase(s.get_char(i)) {
            assert(!spec_all_upper(s@));
            return false;
        }
        i = i + 1;
    }
    true
}

/// An indentation level two deeper, stopping at the largest `usize`.
pub open spec fn spec_deeper(i: int) -> int {
    if i + 2 <= usize::MAX {
        i + 2
    } else {
        i
    }
}

/// The notation of a match tree: a match whose rule name is all-uppercase
/// prints as the token it captured; any other match prints its rule name
/// and each capture slot on its own indented line.
pub open spec fn spec_match_fmt(m: SpecMatch, source: Seq<char>, indent: int) -> Seq<char>
    decreases m, 0int, 0int,
{
    if spec_all_upper(m.rule) {
        if m.captures.len() == 1 && (m.captures[0] is Token) && 0 <= m.captures[0]->Token_0.start
            <= m.captures[0]->Token_0.end <= source.len() {
            let t = m.captures[0]->Token_0;
            "Token<"@ + m.rule + ">("@ + crate::render::spec_quoted(
                source.subrange(t.start, t.end),
            ) + ")>"@
        } else {
            "Token<"@ + m.rule + ">(?)>"@
        }
    } else {
        "Match<"@ + m.rule + ">{\n"@ + spec_caps_fmt(m.captures, 0, source, spec_deeper(indent))
            + spec_spaces(indent) + "}"@
    }
}

/// The notation of the capture slots from index `i` on.
pub open spec fn spec_caps_fmt(caps: Seq<SpecCapture>, i: int, source: Seq<char>, indent: int) -> Seq<
    char,
>
    decreases caps, caps.len() - i, 1int,
{
    if i < 0 || i >= caps.len() {
        Seq::empty()
    } else {
        spec_cap_fmt(caps[i], i, source, indent) + spec_caps_fmt(caps, i + 1, source, indent)
    }
}

/// The notation of one capture slot: its index, its cardinality's symbol,
/// and what it holds.
pub open spec fn spec_cap_fmt(c: SpecCapture, i: int, source: Seq<char>, indent: int) -> Seq<char>
    decreases c, 0int, 0int,
{
    match c {
        SpecCapture::Single(b) => spec_spaces(indent) + crate::render::spec_decimal(i) + "  "@
            + spec_match_fmt(*b, source, indent) + "\n"@,
        SpecCapture::Optional(o) => match o {
            Option::None => spec_spaces(indent) + crate::render::spec_decimal(i) + "? None\n"@,
            Option::Some(b) => spec_spaces(indent) + crate::render::spec_decimal(i) + "? Some("@
                + spec_match_fmt(*b, source, indent) + ")\n"@,
        },
        SpecCapture::Multiple(ms) => if ms.len() == 0 {
            spec_spaces(indent) + crate::render::spec_decimal(i) + "* []\n"@
        } else {
            spec_spaces(indent) + crate::render::spec_decimal(i) + "* [\n"@ + spec_matches_fmt(
                ms,
                0,
                source,
                spec_deeper(indent),
            ) + "\n"@ + spec_spaces(indent) + "]\n"@
        },
        SpecCapture::Token(t) => spec_spaces(indent) + crate::render::spec_decimal(i) + ". Token<"@
            + t.name + ">\n"@,
    }
}

/// The notation of the matches of a repeated slot, from index `k` on.
pub open spec fn spec_matches_fmt(ms: Seq<SpecMatch>, k: int, source: Seq<char>, indent: int) -> Seq<
    char,
>
    decreases ms, ms.len() - k, 1int,
{
    if k < 0 || k >= ms.len() {
        Seq::empty()
    } else {
        spec_spaces(indent) + spec_match_fmt(ms[k], source, indent) + ","@ + spec_matches_fmt(
            ms,
            k + 1,
            source,
            indent,
        )
    }
}

fn fmt_match_into(m: &Match, source: &str, n: usize, indent: usize, out: &mut Vec<char>)
    requires
        n == source@.len(),
    ensures
        final(out)@ == old(out)@ + spec_match_fmt(m@, source@, indent as int),
    decreases *m, 0int, 0int,
{
    proof {
        reveal_strlit("Token<");
        reveal_strlit(">(");
        reveal_strlit(")>");
        reveal_strlit(">(?)>");
        reveal_strlit("Match<");
        reveal_strlit(">{\n");
        reveal_strlit("}");
    }
    proof {
        lemma_captures_view(m.captures@);
    }
    if is_all_upper(m.rule.as_str()) {
        crate::common::push_str_chars(out, "Token<");
        crate::common::push_str_chars(out, m.rule.as_str());
        if m.captures.len() == 1 {
            match &m.captures[0] {
                Capture::Token(t) => {
                    if t.start <= t.end && t.end <= n {
                        crate::common::push_str_chars(out, ">(");
                        let sl = t.slice(source);
                        crate::render::push_quoted(sl, out);
                        crate::common::push_str_chars(out, ")>");
                    } else {
                        crate::common::push_str_chars(out, ">(?)>");
                    }
                },
                _ => {
                    crate::common::push_str_chars(out, ">(?)>");
                },
            }
        } else {
            crate::common::push_str_chars(out, ">(?)>");
        }
        assert(out@ =~= old(out)@ + spec_match_fmt(m@, source@, indent as int));
    } else {
        crate::common::push_str_chars(out, "Match<");
        crate::common::push_str_chars(out, m.rule.as_str());
        crate::common::push_str_chars(out, ">{\n");
        let deeper = if indent <= usize::MAX - 2 {
            indent + 2
        } else {
            indent
        };
        fmt_caps_into(&m.captures, 0, source, n, deeper, out);
        push_spaces(indent, out);
        out.push('}');
        assert(out@ =~= old(out)@ + spec_match_fmt(m@, source@, indent as int));
    }
}

fn fmt_caps_into(caps: &Vec<Capture>, i: usize, source: &str, n: usize, indent: usize, out: &mut Vec<char>)
    requires
        n == source@.len(),
    ensures
        final(out)@ == old(out)@ + spec_caps_fmt(captures_view(caps@), i as int, source@, indent as int),
    decreases *caps, caps@.len() - i, 1int,
{
    proof {
        lemma_captures_view(caps@);
    }
    if i < caps.len() {
        fmt_cap_into(&caps[i], i, source, n, indent, out);
        fmt_caps_into(caps, i + 1, source, n, indent, out);
        assert(out@ =~= old(out)@ + spec_caps_fmt(
            captures_view(caps@),
            i as int,
            source@,
            indent as int,
        ));
    } else {
        assert(out@ =~= old(out)@ + spec_caps_fmt(
            captures_view(caps@),
            i as int,
            source@,
            indent as int,
        ));
    }
}

#[verifier::rlimit(60)]
fn fmt_cap_into(c: &Capture, i: usize, source: &str, n: usize, indent: usize, out: &mut Vec<char>)
    requires
        n == source@.len(),
    ensures
        final(out)@ == old(out)@ + spec_cap_fmt(c@, i as int, source@, indent as int),
    decreases *c, 0int, 0int,
{
    proof {
        reveal_strlit("  ");
        reveal_strlit("\n");
        reveal_strlit("? None\n");
        reveal_strlit("? Some(");
        reveal_strlit(")\n");
        reveal_strlit("* []\n");
        reveal_strlit("* [\n");
        reveal_strlit("]\n");
        reveal_strlit(". Token<");
        reveal_strlit(">\n");
    }
    match c {
        Capture::Single(b) => {
            push_spaces(indent, out);
            crate::render::push_decimal(i, out);
            crate::common::push_str_chars(out, "  ");
            fmt_match_into(b, source, n, indent, out);
            out.push('\n');
            assert(out@ =~= old(out)@ + spec_cap_fmt(c@, i as int, source@, indent as int));
        },
        Capture::Optional(Option::None) => {
            push_spaces(indent, out);
            crate::render::push_decimal(i, out);
            crate::common::push_str_chars(out, "? None\n");
            assert(out@ =~= old(out)@ + spec_cap_fmt(c@, i as int, source@, indent as int));
        },
        Capture::Optional(Option::Some(b)) => {
            push_spaces(indent, out);
            crate::render::push_decimal(i, out);
            crate::common::push_str_chars(out, "? Some(");
            fmt_match_into(b, source, n, indent, out);
            crate::common::push_str_chars(out, ")\n");
            assert(out@ =~= old(out)@ + spec_cap_fmt(c@, i as int, source@, indent as int));
        },
        Capture::Multiple(ms) => {
            proof {
                lemma_matches_view(ms@);
            }
            push_spaces(indent, out);
            crate::render::push_decimal(i, out);
            if ms.len() == 0 {
                crate::common::push_str_chars(out, "* []\n");
                assert(out@ =~= old(out)@ + spec_cap_fmt(c@, i as int, source@, indent as int));
            } else {
                crate::common::push_str_chars(out, "* [\n");
                let deeper = if indent <= usize::MAX - 2 {
                    indent + 2
                } else {
                    indent
                };
                fmt_matches_into(ms, 0, source, n, deeper, out);
                out.push('\n');
                push_spaces(indent, out);
                crate::common::push_str_chars(out, "]\n");
                assert(out@ =~= old(out)@ + spec_cap_fmt(c@, i as int, source@, indent as int));
            }
        },
        Capture::Token(t) => {
            push_spaces(indent, out);
            crate::render::push_decimal(i, out);
            crate::common::push_str_chars(out, ". Token<");
            crate::common::push_str_chars(out, t.name.as_str());
            crate::common::push_str_chars(out, ">\n");
            assert(out@ =~= old(out)@ + spec_cap_fmt(c@, i as int, source@, indent as int));
        },
    }
}

fn fmt_matches_into(ms: &Vec<Match>, k: usize, source: &str, n: usize, indent: usize, out: &mut Vec<char>)
    requires
        n == source@.len(),
    ensures
        final(out)@ == old(out)@ + spec_matches_fmt(matches_view(ms@), k as int, source@, indent as int),
    decreases *ms, ms@.len() - k, 1int,
{
    proof {
        reveal_strlit(",");
    }
    proof {
        lemma_matches_view(ms@);
    }
    if k < ms.len() {
        push_spaces(indent, out);
        fmt_match_into(&ms[k], source, n, indent, out);
        out.push(',');
        fmt_matches_into(ms, k + 1, source, n, indent, out);
    }
    assert(out@ =~= old(out)@ + spec_matches_fmt(matches_view(ms@), k as int, source@, indent as int));
}

impl Match {
    /// The notation of this match tree over its source text, as
    /// `spec_match_fmt` describes.
    pub fn fmt(&self, source: &str) -> (r: String)
        ensures
            r@ == spec_match_fmt(self@, source@, 0),
    {
        let n = source.unicode_len();
        let mut v: Vec<char> = Vec::new();
        fmt_match_into(self, source, n, 0, &mut v);
        assert(v@ =~= spec_match_fmt(self@, source@, 0));
        crate::common::chars_to_string(&v)
    }
}

} // verus!

verus! {

/// The scope names joined with dots, from index `k` on.
pub open spec fn spec_dotted(scope: Seq<Seq<char>>, k: int) -> Seq<char>
    decreases scope.len() - k,
{
    if k < 0 || k >= scope.len() {
        Seq::empty()
    } else if k == scope.len() - 1 {
        scope[k]
    } else {
        scope[k] + "."@ + spec_dotted(scope, k + 1)
    }
}

fn push_dotted(scope: &Vec<String>, k: usize, out: &mut Vec<char>)
    ensures
        final(out)@ == old(out)@ + spec_dotted(strings_view(scope@), k as int),
    decreases scope@.len() - k,
{
    proof {
        reveal_strlit(".");
    }
    if k >= scope.len() {
        assert(out@ =~= old(out)@ + spec_dotted(strings_view(scope@), k as int));
    } else if k == scope.len() - 1 {
        crate::common::push_str_chars(out, scope[k].as_str());
        assert(out@ =~= old(out)@ + spec_dotted(strings_view(scope@), k as int));
    } else {
        crate::common::push_str_chars(out, scope[k].as_str());
        out.push('.');
        push_dotted(scope, k + 1, out);
        assert(out@ =~= old(out)@ + spec_dotted(strings_view(scope@), k as int));
    }
}

/// The 1-indexed line/column pair for a position, or zeroes when the
/// position lies outside the text.
pub open spec fn spec_pos_line_col(text: Seq<char>, pos: int) -> (int, int) {
    if 0 <= pos <= text.len() {
        crate::common::spec_position(text, pos)
    } else {
        (0, 0)
    }
}

/// The scope trail and position prefix of a positioned parse failure:
/// `scope:line:col: `.
pub open spec fn spec_err_prefix(scope: Seq<Seq<char>>, text: Seq<char>, pos: int) -> Seq<char> {
    let lc = spec_pos_line_col(text, pos);
    spec_dotted(scope, 0) + ":"@ + crate::render::spec_decimal(lc.0) + ":"@
        + crate::render::spec_decimal(lc.1) + ": "@
}

/// The message text of a parse failure over its source text.
pub open spec fn spec_parse_err_msg(e: SpecParseErr, text: Seq<char>) -> Seq<char> {
    match e {
        SpecParseErr::UnexpectedEnd => "Unexpected EOF"@,
        SpecParseErr::ExpectedToken { expected, found, pos, scope } => spec_err_prefix(scope, text, pos)
            + "Expected token <"@ + expected + ">, found "@ + found,
        SpecParseErr::ExpectedOneOf { alts, found, pos, scope } => spec_err_prefix(scope, text, pos)
            + "Expected either "@ + alts + ", found "@ + found,
        SpecParseErr::UnclosedLoop { pos, scope } => spec_err_prefix(scope, text, pos)
            + "Unclosed loop expression"@,
        SpecParseErr::RuleNotFound { name } => "Rule '"@ + name
            + "' not found in the given set of rules"@,
        SpecParseErr::Unnormalized => "Attempted to parse without assigning token names"@,
        SpecParseErr::UnassignedCapture => "Found a capture whose slot was never assigned"@,
        SpecParseErr::CaptureConflict => "A capture slot refused a second value"@,
        SpecParseErr::BudgetExhausted => "The parse's step budget ran out"@,
    }
}

fn push_err_prefix(scope: &Vec<String>, text: &str, pos: usize, out: &mut Vec<char>)
    ensures
        final(out)@ == old(out)@ + spec_err_prefix(strings_view(scope@), text@, pos as int),
{
    proof {
        reveal_strlit(":");
        reveal_strlit(": ");
    }
    let n = text.unicode_len();
    let (line, col) = if pos <= n {
        crate::common::get_position(text, pos)
    } else {
        (0, 0)
    };
    push_dotted(scope, 0, out);
    out.push(':');
    crate::render::push_decimal(line, out);
    out.push(':');
    crate::render::push_decimal(col, out);
    crate::common::push_str_chars(out, ": ");
    assert(out@ =~= old(out)@ + spec_err_prefix(strings_view(scope@), text@, pos as int));
}

impl ParseError {
    /// What went wrong, in words, with the scope trail and the 1-indexed
    /// line and column where the source text gives them, as
    /// `spec_parse_err_msg` describes.
    pub fn message(&self, source: &str) -> (r: String)
        ensures
            r@ == spec_parse_err_msg(self@, source@),
    {
        match self {
            ParseError::UnexpectedEnd => "Unexpected EOF".to_owned(),
            ParseError::ExpectedToken { expected, found, pos, scope } => {
                let mut v: Vec<char> = Vec::new();
                push_err_prefix(scope, source, *pos, &mut v);
                crate::common::push_str_chars(&mut v, "Expected token <");
                crate::common::push_str_chars(&mut v, expected.as_str());
                crate::common::push_str_chars(&mut v, ">, found ");
                crate::common::push_str_chars(&mut v, found.as_str());
                assert(v@ =~= spec_parse_err_msg(self@, source@));
                crate::common::chars_to_string(&v)
            },
            ParseError::ExpectedOneOf { alts, found, pos, scope } => {
                let mut v: Vec<char> = Vec::new();
                push_err_prefix(scope, source, *pos, &mut v);
                crate::common::push_str_chars(&mut v, "Expected either ");
                crate::common::push_str_chars(&mut v, alts.as_str());
                crate::common::push_str_chars(&mut v, ", found ");
                crate::common::push_str_chars(&mut v, found.as_str());
                assert(v@ =~= spec_parse_err_msg(self@, source@));
                crate::common::chars_to_string(&v)
            },
            ParseError::UnclosedLoop { pos, scope } => {
                let mut v: Vec<char> = Vec::new();
                push_err_prefix(scope, source, *pos, &mut v);
                crate::common::push_str_chars(&mut v, "Unclosed loop expression");
                assert(v@ =~= spec_parse_err_msg(self@, source@));
                crate::common::chars_to_string(&v)
            },
            ParseError::RuleNotFound { name } => {
                let mut v: Vec<char> = Vec::new();
                crate::common::push_str_chars(&mut v, "Rule '");
                crate::common::push_str_chars(&mut v, name.as_str());
                crate::common::push_str_chars(&mut v, "' not found in the given set of rules");
                assert(v@ =~= spec_parse_err_msg(self@, source@));
                crate::common::chars_to_string(&v)
            },
            ParseError::Unnormalized => "Attempted to parse without assigning token names".to_owned(),
            ParseError::UnassignedCapture => "Found a capture whose slot was never assigned".to_owned(),
            ParseError::CaptureConflict => "A capture slot refused a second value".to_owned(),
            ParseError::BudgetExhausted => "The parse's step budget ran out".to_owned(),
        }
    }
}

} // verus!
