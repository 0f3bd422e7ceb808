//! The pattern tree that represents one grammar rule's body, and the raw
//! rule list that the bootstrap grammar parser hands to this library.
use vstd::prelude::*;

verus! {

/// Ghost form of a token leaf: literal text, regex source, or a token name.
#[verifier::ext_equal]
pub enum SpecToken {
    Str(Seq<char>),
    Re(Seq<char>),
    Named(Seq<char>),
}

/// Ghost form of a capture marker.
#[verifier::ext_equal]
pub enum SpecCapInfo {
    Unnamed,
    Shared(usize),
    Assigned(usize),
}

/// Ghost form of a pattern tree.
#[verifier::ext_equal]
pub enum SpecPat {
    Rule(Seq<char>),
    Token(SpecToken),
    Sequence(Seq<SpecPat>),
    Cap(SpecCapInfo, Box<SpecPat>),
    Opt(Box<SpecPat>),
    ZeroPlus(Box<SpecPat>),
    OnePlus(Box<SpecPat>),
    AnyOf(Seq<SpecPat>),
    Loop(Box<SpecPat>),
    BreakOnToken(SpecToken),
}

/// Describes a text token.
#[derive(Debug, Clone)]
pub enum GrammarToken {
    /// A fixed string, eg: "var"
    Str(String),
    /// A pattern matching this regular expression, eg: r"[a-zA-Z]+"
    Re(String),
    /// Refers to a lexer token with the given name (assigned during
    /// token-name normalization).
    Named(String),
}

/// Describes what kind of capture a capture marker is.
#[derive(Debug, Clone, Copy)]
pub enum CaptureInfo {
    /// A fresh capture: each occurrence gets a new slot.
    Unnamed,
    /// A shared capture group: occurrences with the same group number across
    /// alternatives resolve to the same slot.
    Shared(usize),
    /// A final slot index, assigned by capture assignment.
    Assigned(usize),
}

/// A pattern: one node of a rule body's tree.
#[derive(Debug)]
pub enum Pat {
    /// A reference to another named rule.
    Rule(String),
    /// Matches one token.
    Token(GrammarToken),
    /// Ordered conjunction: all parts must match in order.
    Sequence(Vec<Pat>),
    /// Marks the inner pattern's result to be recorded in a capture slot.
    Cap(CaptureInfo, Box<Pat>),
    /// Zero or one occurrence.
    Opt(Box<Pat>),
    /// Zero or more occurrences.
    ZeroPlus(Box<Pat>),
    /// One or more occurrences.
    OnePlus(Box<Pat>),
    /// Ordered disjunction: the first alternative that can act is chosen.
    AnyOf(Vec<Pat>),
    /// Repeats until broken by a matching `BreakOnToken` or end of input.
    Loop(Box<Pat>),
    /// Inside a loop: breaks the loop when the token is next; otherwise a no-op.
    BreakOnToken(GrammarToken),
}

impl View for GrammarToken {
    type V = SpecToken;

    open spec fn view(&self) -> SpecToken {
        match self {
            GrammarToken::Str(s) => SpecToken::Str(s@),
            GrammarToken::Re(s) => SpecToken::Re(s@),
            GrammarToken::Named(s) => SpecToken::Named(s@),
        }
    }
}

impl View for CaptureInfo {
    type V = SpecCapInfo;

    open spec fn view(&self) -> SpecCapInfo {
        match self {
            CaptureInfo::Unnamed => SpecCapInfo::Unnamed,
            CaptureInfo::Shared(g) => SpecCapInfo::Shared(*g),
            CaptureInfo::Assigned(i) => SpecCapInfo::Assigned(*i),
        }
    }
}

/// The ghost form of a pattern tree.
pub open spec fn pat_view(p: Pat) -> SpecPat
    decreases p,
{
    match p {
        Pat::Rule(name) => SpecPat::Rule(name@),
        Pat::Token(t) => SpecPat::Token(t@),
        Pat::Sequence(ps) => SpecPat::Sequence(pats_view(ps@)),
        Pat::Cap(c, b) => SpecPat::Cap(c@, Box::new(pat_view(*b))),
        Pat::Opt(b) => SpecPat::Opt(Box::new(pat_view(*b))),
        Pat::ZeroPlus(b) => SpecPat::ZeroPlus(Box::new(pat_view(*b))),
        Pat::OnePlus(b) => SpecPat::OnePlus(Box::new(pat_view(*b))),
        Pat::AnyOf(ps) => SpecPat::AnyOf(pats_view(ps@)),
        Pat::Loop(b) => SpecPat::Loop(Box::new(pat_view(*b))),
        Pat::BreakOnToken(t) => SpecPat::BreakOnToken(t@),
    }
}

/// The ghost form of a list of patterns, element by element.
pub open spec fn pats_view(ps: Seq<Pat>) -> Seq<SpecPat>
    decreases ps,
{
    if ps.len() == 0 {
        Seq::empty()
    } else {
        seq![pat_view(ps[0])] + pats_view(ps.drop_first())
    }
}

/// `pats_view` maps each pattern of the list to its ghost form.
pub broadcast proof fn lemma_pats_view(ps: Seq<Pat>)
    ensures
        #![trigger pats_view(ps)]
        pats_view(ps).len() == ps.len(),
        forall|i: int| 0 <= i < ps.len() ==> pats_view(ps)[i] == pat_view(ps[i]),
    decreases ps.len(),
{
    if ps.len() == 0 {
    } else {
        lemma_pats_view(ps.drop_first());
        assert forall|i: int| 0 <= i < ps.len() implies pats_view(ps)[i] == pat_view(ps[i]) by {
            if i > 0 {
                assert(pats_view(ps)[i] == pats_view(ps.drop_first())[i - 1]);
                assert(ps.drop_first()[i - 1] == ps[i]);
            }
        }
    }
}

impl View for Pat {
    type V = SpecPat;

    open spec fn view(&self) -> SpecPat {
        pat_view(*self)
    }
}

impl Pat {
    /// An owned copy whose ghost form is the same as this pattern's.
    pub fn duplicate(&self) -> (r: Pat)
        ensures
            r@ == self@,
        decreases *self,
    {
        match self {
            Pat::Rule(name) => Pat::Rule(name.clone()),
            Pat::Token(t) => Pat::Token(t.duplicate()),
            Pat::Sequence(ps) => {
                let dups = duplicate_pats(ps);
                proof {
                    lemma_pats_view(dups@);
                    lemma_pats_view(ps@);
                    assert(pats_view(dups@) =~= pats_view(ps@));
                }
                Pat::Sequence(dups)
            },
            Pat::Cap(c, b) => Pat::Cap(*c, Box::new(b.duplicate())),
            Pat::Opt(b) => Pat::Opt(Box::new(b.duplicate())),
            Pat::ZeroPlus(b) => Pat::ZeroPlus(Box::new(b.duplicate())),
            Pat::OnePlus(b) => Pat::OnePlus(Box::new(b.duplicate())),
            Pat::AnyOf(ps) => {
                let dups = duplicate_pats(ps);
                proof {
                    lemma_pats_view(dups@);
                    lemma_pats_view(ps@);
                    assert(pats_view(dups@) =~= pats_view(ps@));
                }
                Pat::AnyOf(dups)
            },
            Pat::Loop(b) => Pat::Loop(Box::new(b.duplicate())),
            Pat::BreakOnToken(t) => Pat::BreakOnToken(t.duplicate()),
        }
    }
}

impl GrammarToken {
    /// An owned copy whose ghost form is the same as this token's.
    pub fn duplicate(&self) -> (r: GrammarToken)
        ensures
            r@ == self@,
    {
        match self {
            GrammarToken::Str(s) => GrammarToken::Str(s.clone()),
            GrammarToken::Re(s) => GrammarToken::Re(s.clone()),
            GrammarToken::Named(s) => GrammarToken::Named(s.clone()),
        }
    }
}

fn duplicate_pats(ps: &Vec<Pat>) -> (r: Vec<Pat>)
    ensures
        r@.len() == ps@.len(),
        forall|i: int| 0 <= i < ps@.len() ==> r@[i]@ == ps@[i]@,
    decreases *ps,
{
    let mut out: Vec<Pat> = Vec::new();
    let mut i: usize = 0;
    while i < ps.len()
        invariant
            i <= ps@.len(),
            out@.len() == i,
            forall|j: int| 0 <= j < i ==> out@[j]@ == ps@[j]@,
        decreases ps@.len() - i,
    {
        out.push(ps[i].duplicate());
        i = i + 1;
    }
    out
}

/// Describes how to parse a token stream into a structural tree.
#[derive(Debug)]
pub struct GrammarRule {
    /// The name used to identify this rule in the grammar.
    pub name: String,
    /// The pattern that this rule should parse.
    pub pat: Pat,
}

/// Rules as returned from the bootstrap grammar parser (only structure,
/// no semantics).
pub type RawRules = Vec<(String, GrammarRule)>;

/// Describes how many times a pattern should be parsed.  Only the bootstrap
/// grammar parser builds values of this; the library consumes the pattern
/// tree it produces.
#[derive(Debug, Clone)]
pub enum Quantifier {
    /// Zero or one time.
    Opt,
    /// Zero or more times.
    ZeroPlus,
    /// One or more times.
    OnePlus,
    /// Until the loop is broken, or the internal pattern cannot be parsed.
    Loop,
    /// The pattern should break the loop it is inside, if the given token is found.
    BreakOnToken,
}

} // verus!
