//! Character classification and the vocabulary of the rule table: what a rule
//! may demand of the character on either side of a line break, what happens to
//! that character on a match, and what is inserted in place of the break.

use vstd::prelude::*;

verus! {

// ---------------------------------------------------------------------------
// Unicode character classes.
//
// These four classes are decided by std's Unicode tables; each is named by an
// uninterpreted spec function and established by one trusted call.
// ---------------------------------------------------------------------------

/// Whether `c` has the Unicode `Uppercase` property, as `char::is_uppercase` decides it.
pub uninterp spec fn unicode_uppercase(c: char) -> bool;

/// Whether `c` has the Unicode `Lowercase` property, as `char::is_lowercase` decides it.
pub uninterp spec fn unicode_lowercase(c: char) -> bool;

/// Whether `c` has the Unicode `Alphabetic` property, as `char::is_alphabetic` decides it.
pub uninterp spec fn unicode_alphabetic(c: char) -> bool;

/// Whether `c` has the Unicode `White_Space` property, as `char::is_whitespace` decides it.
pub uninterp spec fn unicode_whitespace(c: char) -> bool;

/// Relies on char::is_uppercase: the result depends on the character alone.
#[verifier::external_body]
pub fn char_uppercase(c: char) -> (r: bool)
    ensures
        r == unicode_uppercase(c),
{
    c.is_uppercase()
}

/// Relies on char::is_lowercase: the result depends on the character alone.
#[verifier::external_body]
pub fn char_lowercase(c: char) -> (r: bool)
    ensures
        r == unicode_lowercase(c),
{
    c.is_lowercase()
}

/// Relies on char::is_alphabetic: the result depends on the character alone.
#[verifier::external_body]
pub fn char_alphabetic(c: char) -> (r: bool)
    ensures
        r == unicode_alphabetic(c),
{
    c.is_alphabetic()
}

/// Relies on char::is_whitespace: the result depends on the character alone.
#[verifier::external_body]
pub fn char_whitespace(c: char) -> (r: bool)
    ensures
        r == unicode_whitespace(c),
{
    c.is_whitespace()
}

// ---------------------------------------------------------------------------
// ASCII character classes, stated and implemented exactly.
// ---------------------------------------------------------------------------

/// ASCII uppercase letter: `A` through `Z`.
pub open spec fn is_ascii_upper_char(c: char) -> bool {
    0x41 <= c as u32 <= 0x5a
}

/// ASCII lowercase letter: `a` through `z`.
pub open spec fn is_ascii_lower_char(c: char) -> bool {
    0x61 <= c as u32 <= 0x7a
}

/// ASCII punctuation: the four ASCII ranges `!..=/`, `:..=@`, `[..=`` ` ``, `{..=~`.
pub open spec fn is_ascii_punct_char(c: char) -> bool {
    let u = c as u32;
    (0x21 <= u <= 0x2f) || (0x3a <= u <= 0x40) || (0x5b <= u <= 0x60) || (0x7b <= u <= 0x7e)
}

/// ASCII whitespace: space, tab, line feed, form feed, carriage return.
pub open spec fn is_ascii_ws_char(c: char) -> bool {
    c == ' ' || c == '\t' || c == '\n' || c == '\u{c}' || c == '\r'
}

pub fn ascii_upper(c: char) -> (r: bool)
    ensures
        r == is_ascii_upper_char(c),
{
    let u = c as u32;
    0x41 <= u && u <= 0x5a
}

pub fn ascii_lower(c: char) -> (r: bool)
    ensures
        r == is_ascii_lower_char(c),
{
    let u = c as u32;
    0x61 <= u && u <= 0x7a
}

pub fn ascii_punct(c: char) -> (r: bool)
    ensures
        r == is_ascii_punct_char(c),
{
    let u = c as u32;
    (0x21 <= u && u <= 0x2f) || (0x3a <= u && u <= 0x40) || (0x5b <= u && u <= 0x60) || (0x7b
        <= u && u <= 0x7e)
}

pub fn ascii_ws(c: char) -> (r: bool)
    ensures
        r == is_ascii_ws_char(c),
{
    c == ' ' || c == '\t' || c == '\n' || c == '\u{c}' || c == '\r'
}

// ---------------------------------------------------------------------------
// Match targets and predicates.
// ---------------------------------------------------------------------------

/// Letter case a rule may demand.
#[derive(Clone, Copy, PartialEq, Eq, Structural, Debug)]
pub enum Case {
    Lowercase,
    Uppercase,
    Anycase,
}

/// Punctuation subkind a rule may demand.
#[derive(Clone, Copy, PartialEq, Eq, Structural, Debug)]
pub enum PunctuationKind {
    AnyPunctuation,
    EndOfSentence,
    Continuation,
    Parantheses,
    Hyphen,
    Dash,
    Slash,
}

/// A match target: what a single character is tested against.
#[derive(Clone, Copy, PartialEq, Eq, Structural, Debug)]
pub enum Match {
    Anymatch,
    Exact(char),
    Letter(Case),
    Whitespace,
    Linebreak,
    Punctuation(PunctuationKind),
}

/// What `Match::matches` returns: the classification of one character.
pub open spec fn match_matches(m: Match, c: char) -> bool {
    match m {
        Match::Anymatch => true,
        Match::Exact(exact) => c == exact,
        Match::Letter(case) => match case {
            Case::Uppercase => unicode_uppercase(c),
            Case::Lowercase => unicode_lowercase(c),
            Case::Anycase => unicode_alphabetic(c),
        },
        Match::Whitespace => unicode_whitespace(c),
        Match::Linebreak => c == '\n',
        Match::Punctuation(punctuation) => match punctuation {
            PunctuationKind::AnyPunctuation => is_ascii_punct_char(c),
            PunctuationKind::EndOfSentence => c == '.' || c == '!' || c == '?',
            PunctuationKind::Continuation => c == ',' || c == ':' || c == ';',
            PunctuationKind::Parantheses => c == '(' || c == ')' || c == '[' || c == ']',
            PunctuationKind::Hyphen => c == '-',
            PunctuationKind::Dash => c == '\u{2014}',
            PunctuationKind::Slash => c == '/',
        },
    }
}

impl Match {
    /// Pure, total classification of one character against this target.
    pub fn matches(&self, candidate: char) -> (r: bool)
        ensures
            r == match_matches(*self, candidate),
    {
        match self {
            Match::Anymatch => true,
            Match::Exact(exact) => candidate == *exact,
            Match::Letter(case) => match case {
                Case::Uppercase => char_uppercase(candidate),
                Case::Lowercase => char_lowercase(candidate),
                Case::Anycase => char_alphabetic(candidate),
            },
            Match::Whitespace => char_whitespace(candidate),
            Match::Linebreak => candidate == '\n',
            Match::Punctuation(punctuation) => match punctuation {
                PunctuationKind::AnyPunctuation => ascii_punct(candidate),
                PunctuationKind::EndOfSentence => candidate == '.' || candidate == '!'
                    || candidate == '?',
                PunctuationKind::Continuation => candidate == ',' || candidate == ':' || candidate
                    == ';',
                PunctuationKind::Parantheses => candidate == '(' || candidate == ')' || candidate
                    == '[' || candidate == ']',
                PunctuationKind::Hyphen => candidate == '-',
                PunctuationKind::Dash => candidate == '\u{2014}',
                PunctuationKind::Slash => candidate == '/',
            },
        }
    }
}

/// What happens to a matched boundary character.
#[derive(Clone, Copy, PartialEq, Eq, Structural, Debug)]
pub enum Action {
    Remove,
    Leave,
}

/// What must match, and what happens to the matched character.
#[derive(Clone, Copy, PartialEq, Eq, Structural, Debug)]
pub struct SymbolPredicate {
    pub symbol: Match,
    pub on_match: Action,
}

impl SymbolPredicate {
    pub fn new(symbol: Match, on_match: Action) -> (r: Self)
        ensures
            r.symbol == symbol,
            r.on_match == on_match,
    {
        Self { symbol, on_match }
    }
}

/// What replaces a merged line break.
#[derive(Clone, PartialEq, Eq, Debug)]
pub enum Filler {
    Empty,
    Space,
    Linebreak,
    Exact(String),
}

/// The characters a filler inserts between the two merged lines.
pub open spec fn filler_chars(f: Filler) -> Seq<char> {
    match f {
        Filler::Empty => Seq::empty(),
        Filler::Space => seq![' '],
        Filler::Linebreak => seq!['\n'],
        Filler::Exact(filler) => filler@,
    }
}

impl Filler {
    pub fn get<'a>(&'a self) -> (r: &'a str)
        ensures
            r@ == filler_chars(*self),
    {
        proof {
            reveal_strlit("");
            reveal_strlit(" ");
            reveal_strlit("\n");
        }
        let r = match self {
            Filler::Empty => "",
            Filler::Space => " ",
            Filler::Linebreak => "\n",
            Filler::Exact(filler) => filler.as_str(),
        };
        proof {
            assert(r@ =~= filler_chars(*self));
        }
        r
    }
}

// ---------------------------------------------------------------------------
// Character-sequence utilities shared by the resolver and the extractor.
// ---------------------------------------------------------------------------

/// Relies on str::chars: the characters of `s`, in order.
#[verifier::external_body]
pub fn str_chars(s: &str) -> (r: Vec<char>)
    ensures
        r@ == s@,
{
    s.chars().collect()
}

/// Relies on the FromIterator impl of String: the string holding exactly the
/// characters of `v`, in order.
#[verifier::external_body]
pub fn chars_string(v: &Vec<char>) -> (r: String)
    ensures
        r@ == v@,
{
    v.iter().collect()
}

/// The first character of a line, or NUL when the line is empty. Peeking past
/// the end of a line is answered with this distinguished default character.
pub open spec fn first_or_nul(s: Seq<char>) -> char {
    if s.len() > 0 {
        s[0]
    } else {
        '\u{0}'
    }
}

/// The last character of a line, or NUL when the line is empty.
pub open spec fn last_or_nul(s: Seq<char>) -> char {
    if s.len() > 0 {
        s[s.len() - 1]
    } else {
        '\u{0}'
    }
}

pub fn first_char(s: &Vec<char>) -> (r: char)
    ensures
        r == first_or_nul(s@),
{
    if s.len() > 0 {
        s[0]
    } else {
        '\u{0}'
    }
}

pub fn last_char(s: &Vec<char>) -> (r: char)
    ensures
        r == last_or_nul(s@),
{
    if s.len() > 0 {
        s[s.len() - 1]
    } else {
        '\u{0}'
    }
}

/// The first position of `c` in `s` at or after `i`, or `s.len()` if there is
/// none.
pub open spec fn find_from(s: Seq<char>, c: char, i: int) -> int
    decreases s.len() - i,
{
    if i < 0 || i >= s.len() {
        s.len() as int
    } else if s[i] == c {
        i
    } else {
        find_from(s, c, i + 1)
    }
}

pub proof fn lemma_find_from_bounds(s: Seq<char>, c: char, i: int)
    requires
        0 <= i <= s.len(),
    ensures
        i <= find_from(s, c, i) <= s.len(),
        find_from(s, c, i) < s.len() ==> s[find_from(s, c, i)] == c,
    decreases s.len() - i,
{
    if i < s.len() && s[i] != c {
        lemma_find_from_bounds(s, c, i + 1);
    }
}

pub fn find_char_from(s: &Vec<char>, c: char, from: usize) -> (r: usize)
    requires
        from <= s@.len(),
    ensures
        r == find_from(s@, c, from as int),
        from <= r <= s@.len(),
        r < s@.len() ==> s@[r as int] == c,
{
    let n = s.len();
    let mut i = from;
    while i < n
        invariant
            from <= i <= n,
            n == s@.len(),
            find_from(s@, c, from as int) == find_from(s@, c, i as int),
        decreases n - i,
    {
        if s[i] == c {
            return i;
        }
        i = i + 1;
    }
    i
}

/// Append a space-separated word to an accumulator: the word itself when the
/// accumulator is empty, otherwise accumulator, one space, word.
pub open spec fn join_sp(acc: Seq<char>, word: Seq<char>) -> Seq<char> {
    if acc.len() == 0 {
        word
    } else {
        acc + seq![' '] + word
    }
}

/// Copy all characters of `src` onto the end of `dst`.
pub fn extend_chars(dst: &mut Vec<char>, src: &Vec<char>)
    ensures
        final(dst)@ == old(dst)@ + src@,
{
    let n = src.len();
    let mut j: usize = 0;
    while j < n
        invariant
            0 <= j <= n,
            n == src@.len(),
            dst@ == old(dst)@ + src@.take(j as int),
        decreases n - j,
    {
        dst.push(src[j]);
        proof {
            assert(dst@ =~= old(dst)@ + src@.take(j + 1));
        }
        j = j + 1;
    }
    proof {
        assert(dst@ =~= old(dst)@ + src@);
    }
}

/// Copy the characters of `src` from position `from` on, as a new line.
pub fn chars_suffix(src: &Vec<char>, from: usize) -> (r: Vec<char>)
    requires
        from <= src@.len(),
    ensures
        r@ == src@.skip(from as int),
{
    let n = src.len();
    let mut r: Vec<char> = Vec::new();
    let mut j = from;
    while j < n
        invariant
            from <= j <= n,
            n == src@.len(),
            r@ == src@.subrange(from as int, j as int),
        decreases n - j,
    {
        r.push(src[j]);
        proof {
            assert(r@ =~= src@.subrange(from as int, j + 1));
        }
        j = j + 1;
    }
    proof {
        assert(r@ =~= src@.skip(from as int));
    }
    r
}

/// Copy the characters of `src` before position `to`, as a new line.
pub fn chars_prefix(src: &Vec<char>, to: usize) -> (r: Vec<char>)
    requires
        to <= src@.len(),
    ensures
        r@ == src@.take(to as int),
{
    let mut r: Vec<char> = Vec::new();
    let mut j: usize = 0;
    while j < to
        invariant
            0 <= j <= to,
            to <= src@.len(),
            r@ == src@.subrange(0, j as int),
        decreases to - j,
    {
        r.push(src[j]);
        proof {
            assert(r@ =~= src@.subrange(0, j + 1));
        }
        j = j + 1;
    }
    r
}

/// Copy the characters of `src` between positions `from` and `to`.
pub fn chars_range(src: &Vec<char>, from: usize, to: usize) -> (r: Vec<char>)
    requires
        from <= to <= src@.len(),
    ensures
        r@ == src@.subrange(from as int, to as int),
{
    let t = chars_suffix(src, from);
    let r = chars_prefix(&t, to - from);
    proof {
        assert(src@.skip(from as int).take(to - from as int) =~= src@.subrange(
            from as int,
            to as int,
        ));
    }
    r
}

/// The views of a sequence of character vectors: the lines as mathematical
/// sequences.
pub open spec fn views(s: Seq<Vec<char>>) -> Seq<Seq<char>> {
    s.map_values(|v: Vec<char>| v@)
}

pub proof fn lemma_views_push(s: Seq<Vec<char>>, x: Vec<char>)
    ensures
        views(s.push(x)) == views(s).push(x@),
{
    assert(views(s.push(x)) =~= views(s).push(x@));
}

} // verus!
