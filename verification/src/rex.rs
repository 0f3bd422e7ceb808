//! The boundary to the outside regex engine: compiled patterns are opaque,
//! and what matching returns is named, never restated.
use vstd::prelude::*;

verus! {

#[verifier::external_type_specification]
#[verifier::external_body]
pub struct ExRegex(regex::Regex);

/// A compiled regex together with the source text it was compiled from,
/// anchored to match only at the start of a haystack.  Only
/// `compile_anchored` builds one, so the compiled form always belongs to
/// the stored source.
pub(crate) struct LexRegex {
    /// The regex source as the grammar wrote it (without the anchor).
    pub(crate) src: String,
    /// The compiled, anchored form of `src`.
    pub(crate) re: regex::Regex,
}

/// Names the result of `regex::Regex::new` on the anchored form of a
/// pattern: whether the pattern compiles.
pub uninterp spec fn anchored_ok(src: Seq<char>) -> bool;

/// Names the result of `regex::Regex::find` for the anchored form of `src`
/// against `text`: no match, or the matched character range.
pub uninterp spec fn anchored_find(src: Seq<char>, text: Seq<char>) -> Option<(int, int)>;

/// Relies on regex::Regex::new: whether a pattern compiles depends on the
/// pattern text alone.  The pattern is anchored with `^` so that matches can
/// only start at the beginning of a haystack, as the lexer requires.
#[verifier::external_body]
pub(crate) fn compile_anchored(src: &str) -> (r: Option<LexRegex>)
    ensures
        r is Some <==> anchored_ok(src@),
        r is Some ==> r.unwrap().src@ == src@,
{
    let mut anchored = String::with_capacity(src.len() + 2);
    anchored.push('^');
    anchored.push_str(src);
    match regex::Regex::new(&anchored) {
        Ok(re) => Some(LexRegex { src: src.to_string(), re }),
        Err(_) => None,
    }
}

/// Relies on regex::Regex::find: the leftmost match of a pattern depends on
/// the pattern and the haystack alone, and lies within the haystack.  Byte
/// offsets are converted to character offsets before returning.
#[verifier::external_body]
pub(crate) fn regex_find(re: &LexRegex, hay: &str) -> (r: Option<(usize, usize)>)
    ensures
        ({
            let f = anchored_find(re.src@, hay@);
            match r {
                Option::None => f is None,
                Option::Some((s, e)) => f == Option::Some((s as int, e as int)) && s <= e && e
                    <= hay@.len(),
            }
        }),
{
    match re.re.find(hay) {
        None => None,
        Some(m) => {
            let s = hay[..m.start()].chars().count();
            let e = s + hay[m.start()..m.end()].chars().count();
            Some((s, e))
        },
    }
}

} // verus!
