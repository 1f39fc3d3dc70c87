//! The attribute payload: a comma-separated list of option identifiers, a
//! trailing comma allowed.

use vstd::prelude::*;
use vstd::std_specs::iter::IteratorSpec;

verus! {

/// One token of the attribute payload, as far as its grammar tells tokens apart.
pub enum AttrToken {
    /// An identifier (not a keyword), with its text.
    Ident(String),
    /// The separator `,`.
    Comma,
    /// Anything else: a literal, another punctuation mark, a group, a keyword.
    Other,
}

/// One top-level token of the attribute payload as the lexer hands it over.
pub enum RawToken {
    /// An identifier-like word, keywords included.
    Word(String),
    /// A single punctuation character.
    Punct(char),
    /// A literal or a delimited group.
    Other,
}

/// A bracket of either kind: `(`, `)`, `[`, `]`, `{` or `}`.
pub open spec fn is_bracket(c: char) -> bool {
    c == '(' || c == ')' || c == '[' || c == ']' || c == '{' || c == '}'
}

/// The word holds a bracket somewhere.
pub open spec fn has_bracket(w: Seq<char>) -> bool {
    exists|i: int| 0 <= i < w.len() && is_bracket(#[trigger] w[i])
}

/// The words that syn never takes for an identifier: `_` and its keywords.
pub open spec fn is_reserved_word(w: Seq<char>) -> bool {
    ||| w == seq!['_']
    ||| w == seq!['a', 'b', 's', 't', 'r', 'a', 'c', 't']
    ||| w == seq!['a', 's']
    ||| w == seq!['a', 's', 'y', 'n', 'c']
    ||| w == seq!['a', 'w', 'a', 'i', 't']
    ||| w == seq!['b', 'e', 'c', 'o', 'm', 'e']
    ||| w == seq!['b', 'o', 'x']
    ||| w == seq!['b', 'r', 'e', 'a', 'k']
    ||| w == seq!['c', 'o', 'n', 's', 't']
    ||| w == seq!['c', 'o', 'n', 't', 'i', 'n', 'u', 'e']
    ||| w == seq!['c', 'r', 'a', 't', 'e']
    ||| w == seq!['d', 'o']
    ||| w == seq!['d', 'y', 'n']
    ||| w == seq!['e', 'l', 's', 'e']
    ||| w == seq!['e', 'n', 'u', 'm']
    ||| w == seq!['e', 'x', 't', 'e', 'r', 'n']
    ||| w == seq!['f', 'a', 'l', 's', 'e']
    ||| w == seq!['f', 'i', 'n', 'a', 'l']
    ||| w == seq!['f', 'n']
    ||| w == seq!['f', 'o', 'r']
    ||| w == seq!['i', 'f']
    ||| w == seq!['i', 'm', 'p', 'l']
    ||| w == seq!['i', 'n']
    ||| w == seq!['l', 'e', 't']
    ||| w == seq!['l', 'o', 'o', 'p']
    ||| w == seq!['m', 'a', 'c', 'r', 'o']
    ||| w == seq!['m', 'a', 't', 'c', 'h']
    ||| w == seq!['m', 'o', 'd']
    ||| w == seq!['m', 'o', 'v', 'e']
    ||| w == seq!['m', 'u', 't']
    ||| w == seq!['o', 'v', 'e', 'r', 'r', 'i', 'd', 'e']
    ||| w == seq!['p', 'r', 'i', 'v']
    ||| w == seq!['p', 'u', 'b']
    ||| w == seq!['r', 'e', 'f']
    ||| w == seq!['r', 'e', 't', 'u', 'r', 'n']
    ||| w == seq!['S', 'e', 'l', 'f']
    ||| w == seq!['s', 'e', 'l', 'f']
    ||| w == seq!['s', 't', 'a', 't', 'i', 'c']
    ||| w == seq!['s', 't', 'r', 'u', 'c', 't']
    ||| w == seq!['s', 'u', 'p', 'e', 'r']
    ||| w == seq!['t', 'r', 'a', 'i', 't']
    ||| w == seq!['t', 'r', 'u', 'e']
    ||| w == seq!['t', 'r', 'y']
    ||| w == seq!['t', 'y', 'p', 'e']
    ||| w == seq!['t', 'y', 'p', 'e', 'o', 'f']
    ||| w == seq!['u', 'n', 's', 'a', 'f', 'e']
    ||| w == seq!['u', 'n', 's', 'i', 'z', 'e', 'd']
    ||| w == seq!['u', 's', 'e']
    ||| w == seq!['v', 'i', 'r', 't', 'u', 'a', 'l']
    ||| w == seq!['w', 'h', 'e', 'r', 'e']
    ||| w == seq!['w', 'h', 'i', 'l', 'e']
    ||| w == seq!['y', 'i', 'e', 'l', 'd']
}

/// An ASCII identifier: a letter or `_`, then letters, digits and `_`.
pub open spec fn is_ascii_ident(w: Seq<char>) -> bool {
    &&& w.len() > 0
    &&& ('a' <= w[0] <= 'z' || 'A' <= w[0] <= 'Z' || w[0] == '_')
    &&& forall|i: int|
        0 <= i < w.len() ==> ('a' <= #[trigger] w[i] <= 'z' || 'A' <= w[i] <= 'Z' || '0' <= w[i]
            <= '9' || w[i] == '_')
}

/// Whether `word` holds a bracket.
pub fn contains_bracket(word: &str) -> (r: bool)
    ensures
        r == has_bracket(word@),
{
    broadcast use vstd::string::axiom_spec_iter, vstd::string::next_postcondition;

    let mut chars = word.chars();
    let ghost n = word@.len();
    let ghost mut i: int = 0;
    loop
        invariant
            n == word@.len(),
            0 <= i <= n,
            chars.obeys_prophetic_iter_laws(),
            chars.remaining() == word@.skip(i),
            forall|j: int| 0 <= j < i ==> !is_bracket(#[trigger] word@[j]),
        decreases n - i,
    {
        proof {
            if i < n {
                assert(word@.skip(i)[0] == word@[i]);
            }
        }
        match chars.next() {
            None => {
                return false;
            },
            Some(c) => {
                if c == '(' || c == ')' || c == '[' || c == ']' || c == '{' || c == '}' {
                    return true;
                }
                proof {
                    assert(word@.skip(i).drop_first() =~= word@.skip(i + 1));
                    i = i + 1;
                }
            },
        }
    }
}

/// Relies on `syn::parse_str::<syn::Ident>`: it never takes `_` or a keyword
/// for an identifier, and takes every other ASCII identifier, which lexes to
/// one identifier token of the same text. syn's token buffer recurses once
/// per bracketed group, so bracketed words are not handed to it.
#[verifier::external_body]
fn accepts_as_ident(word: &str) -> (r: bool)
    requires
        !has_bracket(word@),
    ensures
        is_reserved_word(word@) ==> !r,
        is_ascii_ident(word@) && !is_reserved_word(word@) ==> r,
{
    syn::parse_str::<syn::Ident>(word).is_ok()
}

/// What a raw token may become, whatever syn answers on a word: a word
/// becomes an identifier with the same text, or another token, and an ASCII
/// identifier that is not reserved always becomes an identifier; a comma
/// becomes the separator; everything else becomes another token.
pub open spec fn classifies_as(t: RawToken, a: AttrToken) -> bool {
    match t {
        RawToken::Word(w) => match a {
            AttrToken::Ident(s) => s@ == w@ && !has_bracket(w@) && !is_reserved_word(w@),
            AttrToken::Other => !(is_ascii_ident(w@) && !is_reserved_word(w@)),
            AttrToken::Comma => false,
        },
        RawToken::Punct(c) => if c == ',' {
            a is Comma
        } else {
            a is Other
        },
        RawToken::Other => a is Other,
    }
}

/// How a raw token is classified does not rest on syn's answer beyond what
/// holds everywhere: every word is bracketed, reserved or an ASCII identifier.
pub open spec fn settled(t: RawToken) -> bool {
    match t {
        RawToken::Word(w) => has_bracket(w@) || is_reserved_word(w@) || is_ascii_ident(w@),
        _ => true,
    }
}

/// `toks` is a classification of `raw`, token by token.
pub open spec fn classified_as(raw: Seq<RawToken>, toks: Seq<AttrToken>) -> bool {
    &&& toks.len() == raw.len()
    &&& forall|i: int| 0 <= i < raw.len() ==> #[trigger] classifies_as(raw[i], toks[i])
}

/// Classifies each raw token: identifiers that are not keywords, the comma,
/// and everything else.
pub fn classify(raw: &Vec<RawToken>) -> (r: Vec<AttrToken>)
    ensures
        classified_as(raw@, r@),
{
    let n = raw.len();
    let mut out: Vec<AttrToken> = Vec::new();
    let mut i: usize = 0;
    while i < n
        invariant
            n == raw@.len(),
            i <= n,
            out@.len() == i,
            forall|j: int| 0 <= j < i ==> #[trigger] classifies_as(raw@[j], out@[j]),
        decreases n - i,
    {
        let t = match &raw[i] {
            RawToken::Word(w) => {
                if !contains_bracket(w.as_str()) && accepts_as_ident(w.as_str()) {
                    AttrToken::Ident(w.clone())
                } else {
                    AttrToken::Other
                }
            },
            RawToken::Punct(c) => {
                if *c == ',' {
                    AttrToken::Comma
                } else {
                    AttrToken::Other
                }
            },
            RawToken::Other => AttrToken::Other,
        };
        out.push(t);
        i = i + 1;
    }
    out
}

/// What the payload's grammar asked for where it failed.
#[derive(PartialEq, Eq, Structural, Clone, Copy, Debug)]
pub enum Expected {
    Ident,
    Comma,
}

/// A payload that is not a list of identifiers: the index of the offending
/// token and what was expected there.
#[derive(PartialEq, Eq, Structural, Clone, Copy, Debug)]
pub struct ParseError {
    pub at: usize,
    pub expected: Expected,
}

/// What the grammar expects at position `i`: identifiers at even positions,
/// separators between them.
pub open spec fn expected_at(i: int) -> Expected {
    if i % 2 == 0 {
        Expected::Ident
    } else {
        Expected::Comma
    }
}

/// Whether token `t` is what the grammar expects at position `i`.
pub open spec fn fits(t: AttrToken, i: int) -> bool {
    match expected_at(i) {
        Expected::Ident => t is Ident,
        Expected::Comma => t is Comma,
    }
}

/// The payload is a list of identifiers separated by commas, with an
/// optional trailing comma (the empty payload included).
pub open spec fn payload_wf(toks: Seq<AttrToken>) -> bool {
    forall|i: int| 0 <= i < toks.len() ==> #[trigger] fits(toks[i], i)
}

/// The text of an identifier token.
pub open spec fn ident_text(t: AttrToken) -> Seq<char> {
    match t {
        AttrToken::Ident(s) => s@,
        _ => Seq::empty(),
    }
}

/// The option names of a well-formed payload, in the order written.
pub open spec fn option_names(toks: Seq<AttrToken>) -> Seq<Seq<char>> {
    Seq::new(((toks.len() + 1) / 2) as nat, |k: int| ident_text(toks[2 * k]))
}

/// The error that a malformed payload gives: the first token that does not
/// fit, and what was expected there.
pub open spec fn is_first_error(toks: Seq<AttrToken>, e: ParseError) -> bool {
    &&& e.at < toks.len()
    &&& !fits(toks[e.at as int], e.at as int)
    &&& forall|j: int| 0 <= j < e.at ==> #[trigger] fits(toks[j], j)
    &&& e.expected == expected_at(e.at as int)
}

/// Parses the payload into the option names it lists, in order; duplicates
/// are kept.
pub fn parse_options(toks: &Vec<AttrToken>) -> (r: Result<Vec<String>, ParseError>)
    ensures
        match r {
            Ok(names) => {
                &&& payload_wf(toks@)
                &&& names@.len() == option_names(toks@).len()
                &&& names@.map_values(|s: String| s@) == option_names(toks@)
            },
            Err(e) => !payload_wf(toks@) && is_first_error(toks@, e),
        },
{
    let n = toks.len();
    let mut names: Vec<String> = Vec::new();
    let mut i: usize = 0;
    while i < n
        invariant
            n == toks@.len(),
            i <= n,
            forall|j: int| 0 <= j < i ==> #[trigger] fits(toks@[j], j),
            names@.len() == (i + 1) / 2,
            forall|k: int|
                0 <= k < names@.len() ==> #[trigger] names@[k]@ == ident_text(toks@[2 * k]),
        decreases n - i,
    {
        if i % 2 == 0 {
            match &toks[i] {
                AttrToken::Ident(s) => {
                    names.push(s.clone());
                },
                _ => {
                    assert(!fits(toks@[i as int], i as int));
                    return Err(ParseError { at: i, expected: Expected::Ident });
                },
            }
        } else {
            match &toks[i] {
                AttrToken::Comma => {},
                _ => {
                    assert(!fits(toks@[i as int], i as int));
                    return Err(ParseError { at: i, expected: Expected::Comma });
                },
            }
        }
        i = i + 1;
    }
    assert(names@.map_values(|s: String| s@) =~= option_names(toks@));
    Ok(names)
}

} // verus!
