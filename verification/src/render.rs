//! Text rendering: decimal numbers, quoted literals, and the grammar
//! notation for patterns, used by diagnostics.
use vstd::prelude::*;

use crate::common::chars_to_string;
use crate::grammar::{lemma_pats_view, pats_view, Pat, SpecCapInfo, SpecPat, SpecToken};

verus! {

/// The digit character for one decimal digit value.
pub open spec fn spec_digit(d: int) -> char {
    if d == 0 {
        '0'
    } else if d == 1 {
        '1'
    } else if d == 2 {
        '2'
    } else if d == 3 {
        '3'
    } else if d == 4 {
        '4'
    } else if d == 5 {
        '5'
    } else if d == 6 {
        '6'
    } else if d == 7 {
        '7'
    } else if d == 8 {
        '8'
    } else {
        '9'
    }
}

/// The decimal notation of a nonnegative number.
pub open spec fn spec_decimal(n: int) -> Seq<char>
    decreases n,
{
    if n < 10 {
        seq![spec_digit(n)]
    } else {
        spec_decimal(n / 10) + seq![spec_digit(n % 10)]
    }
}

fn digit_char(d: usize) -> (r: char)
    requires
        d < 10,
    ensures
        r == spec_digit(d as int),
{
    if d == 0 {
        '0'
    } else if d == 1 {
        '1'
    } else if d == 2 {
        '2'
    } else if d == 3 {
        '3'
    } else if d == 4 {
        '4'
    } else if d == 5 {
        '5'
    } else if d == 6 {
        '6'
    } else if d == 7 {
        '7'
    } else if d == 8 {
        '8'
    } else {
        '9'
    }
}

/// Appends the decimal notation of the number.
pub fn push_decimal(n: usize, out: &mut Vec<char>)
    ensures
        final(out)@ == old(out)@ + spec_decimal(n as int),
    decreases n,
{
    if n < 10 {
        out.push(digit_char(n));
        assert(out@ =~= old(out)@ + spec_decimal(n as int));
    } else {
        push_decimal(n / 10, out);
        out.push(digit_char(n % 10));
        assert(out@ =~= old(out)@ + spec_decimal(n as int));
    }
}

/// How one character is written inside a quoted literal: backslash, quote,
/// newline, carriage return and tab are escaped, everything else stands as
/// it is.
pub open spec fn spec_escaped_char(c: char) -> Seq<char> {
    if c == '\\' {
        seq!['\\', '\\']
    } else if c == '"' {
        seq!['\\', '"']
    } else if c == '\n' {
        seq!['\\', 'n']
    } else if c == '\r' {
        seq!['\\', 'r']
    } else if c == '\t' {
        seq!['\\', 't']
    } else {
        seq![c]
    }
}

/// The escaped form of the text from index `k` on.
pub open spec fn spec_escaped(s: Seq<char>, k: int) -> Seq<char>
    decreases s.len() - k,
{
    if k < 0 || k >= s.len() {
        Seq::empty()
    } else {
        spec_escaped_char(s[k]) + spec_escaped(s, k + 1)
    }
}

/// The quoted notation of a literal: the escaped text between quotes.
pub open spec fn spec_quoted(s: Seq<char>) -> Seq<char> {
    seq!['"'] + spec_escaped(s, 0) + seq!['"']
}

fn push_escaped_char(c: char, out: &mut Vec<char>)
    ensures
        final(out)@ == old(out)@ + spec_escaped_char(c),
{
    if c == '\\' {
        out.push('\\');
        out.push('\\');
    } else if c == '"' {
        out.push('\\');
        out.push('"');
    } else if c == '\n' {
        out.push('\\');
        out.push('n');
    } else if c == '\r' {
        out.push('\\');
        out.push('r');
    } else if c == '\t' {
        out.push('\\');
        out.push('t');
    } else {
        out.push(c);
    }
    assert(out@ =~= old(out)@ + spec_escaped_char(c));
}

fn push_escaped_from(s: &str, n: usize, k: usize, out: &mut Vec<char>)
    requires
        n == s@.len(),
        k <= n,
    ensures
        final(out)@ == old(out)@ + spec_escaped(s@, k as int),
    decreases n - k,
{
    if k >= n {
        assert(out@ =~= old(out)@ + spec_escaped(s@, k as int));
    } else {
        push_escaped_char(s.get_char(k), out);
        push_escaped_from(s, n, k + 1, out);
        assert(out@ =~= old(out)@ + spec_escaped(s@, k as int));
    }
}

/// Appends the quoted notation of a literal.
pub fn push_quoted(s: &str, out: &mut Vec<char>)
    ensures
        final(out)@ == old(out)@ + spec_quoted(s@),
{
    let n = s.unicode_len();
    out.push('"');
    push_escaped_from(s, n, 0, out);
    out.push('"');
    assert(out@ =~= old(out)@ + spec_quoted(s@));
}

} // verus!

verus! {

/// A run of `n` dollar signs.
pub open spec fn spec_dollars(n: int) -> Seq<char>
    decreases n,
{
    if n <= 0 {
        Seq::empty()
    } else {
        seq!['$'] + spec_dollars(n - 1)
    }
}

/// A run of dollar signs is as long as its count, and all dollars.
proof fn lemma_dollars(n: int)
    ensures
        spec_dollars(n).len() == (if n <= 0 { 0int } else { n }),
        forall|i: int| 0 <= i < spec_dollars(n).len() ==> spec_dollars(n)[i] == '$',
    decreases n,
{
    if n > 0 {
        lemma_dollars(n - 1);
        assert forall|i: int| 0 <= i < spec_dollars(n).len() implies spec_dollars(n)[i] == '$' by {
            if i > 0 {
                assert(spec_dollars(n)[i] == spec_dollars(n - 1)[i - 1]);
            }
        }
    }
}

fn push_dollars(n: usize, out: &mut Vec<char>)
    ensures
        final(out)@ == old(out)@ + spec_dollars(n as int),
    decreases n,
{
    if n > 0 {
        out.push('$');
        push_dollars(n - 1, out);
    }
    assert(out@ =~= old(out)@ + spec_dollars(n as int));
}

/// The grammar notation of a token leaf: a quoted literal, a regex between
/// `r#` and `#`, or a token name between angle brackets.
pub open spec fn spec_token_fmt(t: SpecToken) -> Seq<char> {
    match t {
        SpecToken::Str(s) => spec_quoted(s),
        SpecToken::Re(s) => seq!['r', '#'] + spec_quoted(s) + seq!['#'],
        SpecToken::Named(s) => seq!['<'] + s + seq!['>'],
    }
}

/// The grammar notation of a pattern: rule names between quotes, token
/// leaves as `spec_token_fmt` writes them, sequences and alternations in
/// parentheses, quantifiers as their postfix symbol, and capture markers as
/// their dollars before the captured pattern in angle brackets.
pub open spec fn spec_pat_fmt(p: SpecPat) -> Seq<char>
    decreases p, 0int,
{
    match p {
        SpecPat::Rule(name) => seq!['\''] + name + seq!['\''],
        SpecPat::Token(t) => spec_token_fmt(t),
        SpecPat::Sequence(ps) => seq!['('] + spec_fmt_list(ps, seq![' '], 0) + seq![')'],
        SpecPat::AnyOf(ps) => seq!['('] + spec_fmt_list(ps, seq![' ', '|', ' '], 0) + seq![')'],
        SpecPat::Cap(c, b) => seq!['$'] + (match c {
            SpecCapInfo::Unnamed => Seq::<char>::empty(),
            SpecCapInfo::Shared(g) => spec_dollars(g + 1),
            SpecCapInfo::Assigned(i) => spec_decimal(i as int),
        }) + seq!['<'] + spec_pat_fmt(*b) + seq!['>'],
        SpecPat::Opt(b) => spec_pat_fmt(*b) + seq!['?'],
        SpecPat::ZeroPlus(b) => spec_pat_fmt(*b) + seq!['*'],
        SpecPat::OnePlus(b) => spec_pat_fmt(*b) + seq!['+'],
        SpecPat::Loop(b) => spec_pat_fmt(*b) + seq!['%'],
        SpecPat::BreakOnToken(t) => spec_token_fmt(t) + seq!['!'],
    }
}

/// The notations of the patterns from index `k` on, separated by `sep`.
pub open spec fn spec_fmt_list(ps: Seq<SpecPat>, sep: Seq<char>, k: int) -> Seq<char>
    decreases ps, ps.len() - k, 1int,
{
    if k < 0 || k >= ps.len() {
        Seq::empty()
    } else if k == ps.len() - 1 {
        spec_pat_fmt(ps[k])
    } else {
        spec_pat_fmt(ps[k]) + sep + spec_fmt_list(ps, sep, k + 1)
    }
}

fn push_token_fmt(t: &crate::grammar::GrammarToken, out: &mut Vec<char>)
    ensures
        final(out)@ == old(out)@ + spec_token_fmt(t@),
{
    match t {
        crate::grammar::GrammarToken::Str(s) => {
            push_quoted(s.as_str(), out);
        },
        crate::grammar::GrammarToken::Re(s) => {
            out.push('r');
            out.push('#');
            push_quoted(s.as_str(), out);
            out.push('#');
        },
        crate::grammar::GrammarToken::Named(s) => {
            out.push('<');
            crate::common::push_str_chars(out, s.as_str());
            out.push('>');
        },
    }
    assert(out@ =~= old(out)@ + spec_token_fmt(t@));
}

/// Appends the grammar notation of the pattern, as `spec_pat_fmt` describes.
fn fmt_acc(p: &Pat, out: &mut Vec<char>)
    ensures
        final(out)@ == old(out)@ + spec_pat_fmt(p@),
    decreases *p, 0int,
{
    match p {
        Pat::Rule(name) => {
            out.push('\'');
            crate::common::push_str_chars(out, name.as_str());
            out.push('\'');
            assert(out@ =~= old(out)@ + spec_pat_fmt(p@));
        },
        Pat::Token(t) => {
            push_token_fmt(t, out);
        },
        Pat::Sequence(ps) => {
            out.push('(');
            fmt_list(ps, " ", out, 0);
            out.push(')');
            proof {
                reveal_strlit(" ");
                assert(" "@ =~= seq![' ']);
                assert(out@ =~= old(out)@ + spec_pat_fmt(p@));
            }
        },
        Pat::AnyOf(ps) => {
            out.push('(');
            fmt_list(ps, " | ", out, 0);
            out.push(')');
            proof {
                reveal_strlit(" | ");
                assert(" | "@ =~= seq![' ', '|', ' ']);
                assert(out@ =~= old(out)@ + spec_pat_fmt(p@));
            }
        },
        Pat::Cap(c, b) => {
            out.push('$');
            match c {
                crate::grammar::CaptureInfo::Unnamed => {},
                crate::grammar::CaptureInfo::Shared(g) => {
                    push_dollars(*g, out);
                    out.push('$');
                    proof {
                        lemma_dollars(*g as int);
                        lemma_dollars(*g + 1int);
                        assert(spec_dollars(*g as int) + seq!['$'] =~= spec_dollars(*g + 1int));
                    }
                },
                crate::grammar::CaptureInfo::Assigned(i) => {
                    push_decimal(*i, out);
                },
            }
            out.push('<');
            fmt_acc(b, out);
            out.push('>');
            assert(out@ =~= old(out)@ + spec_pat_fmt(p@));
        },
        Pat::Opt(b) => {
            fmt_acc(b, out);
            out.push('?');
            assert(out@ =~= old(out)@ + spec_pat_fmt(p@));
        },
        Pat::ZeroPlus(b) => {
            fmt_acc(b, out);
            out.push('*');
            assert(out@ =~= old(out)@ + spec_pat_fmt(p@));
        },
        Pat::OnePlus(b) => {
            fmt_acc(b, out);
            out.push('+');
            assert(out@ =~= old(out)@ + spec_pat_fmt(p@));
        },
        Pat::Loop(b) => {
            fmt_acc(b, out);
            out.push('%');
            assert(out@ =~= old(out)@ + spec_pat_fmt(p@));
        },
        Pat::BreakOnToken(t) => {
            push_token_fmt(t, out);
            out.push('!');
            assert(out@ =~= old(out)@ + spec_pat_fmt(p@));
        },
    }
}

pub(crate) fn fmt_list(ps: &Vec<Pat>, sep: &str, out: &mut Vec<char>, k: usize)
    ensures
        final(out)@ == old(out)@ + spec_fmt_list(pats_view(ps@), sep@, k as int),
    decreases *ps, ps@.len() - k, 1int,
{
    proof {
        lemma_pats_view(ps@);
    }
    if k >= ps.len() {
        assert(out@ =~= old(out)@ + spec_fmt_list(pats_view(ps@), sep@, k as int));
    } else if k == ps.len() - 1 {
        fmt_acc(&ps[k], out);
        assert(out@ =~= old(out)@ + spec_fmt_list(pats_view(ps@), sep@, k as int));
    } else {
        fmt_acc(&ps[k], out);
        crate::common::push_str_chars(out, sep);
        fmt_list(ps, sep, out, k + 1);
        assert(out@ =~= old(out)@ + spec_fmt_list(pats_view(ps@), sep@, k as int));
    }
}

impl Pat {
    /// The grammar notation of this pattern, as `spec_pat_fmt` describes.
    pub fn fmt(&self) -> (r: String)
        ensures
            r@ == spec_pat_fmt(self@),
    {
        let mut v: Vec<char> = Vec::new();
        fmt_acc(self, &mut v);
        assert(v@ =~= spec_pat_fmt(self@));
        chars_to_string(&v)
    }
}

} // verus!
