//! Wildcard patterns over cache keys, matched by a compiled regular expression.

use vstd::prelude::*;
use vstd::string::*;
use crate::text::{to_chars, from_chars};

verus! {

/// `Regex` of the regex crate: a compiled regular expression. Nothing of
/// its inside is known here.
#[verifier::external_type_specification]
#[verifier::external_body]
pub struct ExRegex(regex::Regex);

/// `Error` of the regex crate: why a pattern could not be compiled. Nothing
/// of its inside is known here.
#[verifier::external_type_specification]
#[verifier::external_body]
pub struct ExRegexError(regex::Error);

/// The pattern text that a compiled regular expression was built from, as
/// `Regex::as_str` gives it back.
pub uninterp spec fn regex_source(re: regex::Regex) -> Seq<char>;

/// Whether the regex crate accepts `source` as a regular expression.
pub uninterp spec fn regex_compiles(source: Seq<char>) -> bool;

/// Whether the regular expression written as `source` matches somewhere in `hay`.
pub uninterp spec fn regex_finds(source: Seq<char>, hay: Seq<char>) -> bool;

/// `Regex::new` of the regex crate: compiles the pattern, or reports why it
/// cannot. Whether it succeeds depends on the pattern text alone, and a
/// compiled expression remembers the text it came from.
#[verifier::external_body]
fn regex_new(source: &str) -> (r: Result<regex::Regex, regex::Error>)
    ensures
        r is Ok <==> regex_compiles(source@),
        r is Ok ==> regex_source(r->Ok_0) == source@,
{
    regex::Regex::new(source)
}

/// `Regex::is_match` of the regex crate: whether the expression matches
/// anywhere in the haystack. For an expression that `Regex::new` compiled,
/// as every expression of this module is, the answer depends on the
/// pattern text and on the haystack alone.
#[verifier::external_body]
fn regex_is_match(re: &regex::Regex, hay: &str) -> (r: bool)
    ensures
        r == regex_finds(regex_source(*re), hay@),
{
    re.is_match(hay)
}

/// What one character of a wildcard pattern becomes in the regular
/// expression: a dot is taken literally, `*` stands for any run of
/// characters, `?` for exactly one; every other character stays as it is.
pub open spec fn glob_piece(c: char) -> Seq<char> {
    if c == '.' {
        seq!['\\', '.']
    } else if c == '*' {
        seq!['.', '*']
    } else if c == '?' {
        seq!['.']
    } else {
        seq![c]
    }
}

/// What stands before the pieces: the flag that lets the dot of the
/// regular expression stand for every character, the line feed too, and the
/// anchor at the start.
pub open spec fn glob_opening() -> Seq<char> {
    seq!['(', '?', 's', ')', '^']
}

/// The pieces of all characters of the pattern, in order.
pub open spec fn glob_body(pattern: Seq<char>) -> Seq<char>
    decreases pattern.len(),
{
    if pattern.len() == 0 {
        Seq::empty()
    } else {
        glob_body(pattern.drop_last()) + glob_piece(pattern.last())
    }
}

/// The regular expression for a wildcard pattern: anchored at both ends so
/// that only a whole key can match, and with `*` and `?` standing for any
/// character whatever.
pub open spec fn glob_regex_text(pattern: Seq<char>) -> Seq<char> {
    glob_opening() + glob_body(pattern) + seq!['$']
}

/// Whether `key` falls under the wildcard `pattern`. A pattern whose regular
/// expression does not compile matches every key.
pub open spec fn glob_matches(pattern: Seq<char>, key: Seq<char>) -> bool {
    regex_compiles(glob_regex_text(pattern)) ==> regex_finds(glob_regex_text(pattern), key)
}

/// The anchored regular expression text for a wildcard pattern.
pub fn glob_regex_source(pattern: &str) -> (r: String)
    ensures
        r@ == glob_regex_text(pattern@),
{
    let p = to_chars(pattern);
    let mut out: Vec<char> = Vec::new();
    out.push('(');
    out.push('?');
    out.push('s');
    out.push(')');
    out.push('^');
    let mut i: usize = 0;
    assert(out@ =~= glob_opening() + glob_body(p@.subrange(0, 0)));
    while i < p.len()
        invariant
            i <= p.len(),
            out@ == glob_opening() + glob_body(p@.subrange(0, i as int)),
        decreases p.len() - i,
    {
        let c = p[i];
        let ghost before = out@;
        if c == '.' {
            out.push('\\');
            out.push('.');
        } else if c == '*' {
            out.push('.');
            out.push('*');
        } else if c == '?' {
            out.push('.');
        } else {
            out.push(c);
        }
        proof {
            let next = p@.subrange(0, i + 1);
            assert(next.drop_last() =~= p@.subrange(0, i as int));
            assert(next.last() == c);
            assert(out@ =~= before + glob_piece(c));
            assert(out@ =~= glob_opening() + glob_body(next));
        }
        i += 1;
    }
    assert(p@.subrange(0, p.len() as int) =~= p@);
    out.push('$');
    from_chars(&out)
}

/// A compiled wildcard pattern.
pub struct GlobMatcher {
    /// The compiled expression, or nothing where the pattern did not compile.
    compiled: Option<regex::Regex>,
}

impl GlobMatcher {
    /// Whether this matcher lets `key` through.
    pub closed spec fn accepts(&self, key: Seq<char>) -> bool {
        match self.compiled {
            Some(re) => regex_finds(regex_source(re), key),
            None => true,
        }
    }

    /// Whether `key` falls under the pattern.
    pub fn is_match(&self, key: &str) -> (r: bool)
        ensures
            r == self.accepts(key@),
    {
        match &self.compiled {
            Some(re) => regex_is_match(re, key),
            None => true,
        }
    }
}

/// Compiles a wildcard pattern. A pattern that cannot be compiled yields a
/// matcher that lets every key through.
pub fn glob_to_regex(pattern: &str) -> (m: GlobMatcher)
    ensures
        forall|key: Seq<char>| #[trigger] m.accepts(key) == glob_matches(pattern@, key),
{
    let source = glob_regex_source(pattern);
    match regex_new(source.as_str()) {
        Ok(re) => GlobMatcher { compiled: Some(re) },
        Err(_) => GlobMatcher { compiled: None },
    }
}

} // verus!
