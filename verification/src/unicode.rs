//! Unicode tables, reached through the crates that own them and through std.
//!
//! Each function here makes one outside call. What a table says of a given
//! character is a name; the facts stated beside a name are those that the
//! outside documentation or source gives for every input.

use unicode_segmentation::UnicodeSegmentation;
use vstd::prelude::*;

use crate::text;

verus! {

/// The Unicode case folding of a string (for comparison, not display).
pub uninterp spec fn folded(s: Seq<char>) -> Seq<char>;

/// `unicase::UniCase::to_folded_case`: the case folding of `s`. A character
/// folds to at most three; on ASCII text the folding is the ASCII lower case.
#[verifier::external_body]
pub(crate) fn fold_case(s: &str) -> (r: String)
    ensures
        r@ == folded(s@),
        r@.len() <= 3 * s@.len(),
        vstd::utf8::is_ascii_chars(s@) ==> r@ == text::ascii_lower(s@),
{
    unicase::UniCase::new(s).to_folded_case()
}

/// `==` on two `unicase::UniCase` values: whether the case foldings of the two
/// strings are the same.
#[verifier::external_body]
pub(crate) fn fold_eq(a: &str, b: &str) -> (r: bool)
    ensures
        r == (folded(a@) == folded(b@)),
{
    unicase::UniCase::new(a) == unicase::UniCase::new(b)
}

/// The number of extended grapheme clusters of a string.
pub uninterp spec fn graphemes(s: Seq<char>) -> nat;

/// `UnicodeSegmentation::graphemes(true).count()`: how many extended grapheme
/// clusters `s` has. The clusters are non-empty pieces of `s` in order, so
/// there are at most as many as characters.
#[verifier::external_body]
pub(crate) fn grapheme_count(s: &str) -> (n: usize)
    ensures
        n == graphemes(s@),
        n <= s@.len(),
{
    s.graphemes(true).count()
}

/// `str::len`: the length of `s` in bytes, which never exceeds `isize::MAX`.
#[verifier::external_body]
pub(crate) fn byte_len(s: &str) -> (n: usize)
    ensures
        n == vstd::utf8::encode_utf8(s@).len(),
        n <= isize::MAX,
{
    s.len()
}

/// Whether a character outside of ASCII is a letter or a number.
pub uninterp spec fn alphanumeric_beyond_ascii(c: char) -> bool;

/// Whether a character is a letter or a number.
pub open spec fn alphanumeric(c: char) -> bool {
    if c <= '\u{7f}' {
        '0' <= c <= '9' || 'a' <= c <= 'z' || 'A' <= c <= 'Z'
    } else {
        alphanumeric_beyond_ascii(c)
    }
}

/// `char::is_alphanumeric`: in ASCII, the letters and the digits.
#[verifier::external_body]
pub(crate) fn is_alphanumeric(c: char) -> (r: bool)
    ensures
        r == if c <= '\u{7f}' {
            '0' <= c <= '9' || 'a' <= c <= 'z' || 'A' <= c <= 'Z'
        } else {
            alphanumeric_beyond_ascii(c)
        },
{
    c.is_alphanumeric()
}

/// Whether a character is white space, by Unicode's `White_Space` property.
pub open spec fn whitespace(c: char) -> bool {
    '\u{9}' <= c <= '\u{d}' || c == ' ' || c == '\u{85}' || c == '\u{a0}' || c == '\u{1680}'
        || '\u{2000}' <= c <= '\u{200a}' || c == '\u{2028}' || c == '\u{2029}' || c == '\u{202f}'
        || c == '\u{205f}' || c == '\u{3000}'
}

/// Whether a character is white space.
pub fn is_whitespace(c: char) -> (r: bool)
    ensures
        r == whitespace(c),
{
    ('\u{9}' <= c && c <= '\u{d}') || c == ' ' || c == '\u{85}' || c == '\u{a0}' || c == '\u{1680}'
        || ('\u{2000}' <= c && c <= '\u{200a}') || c == '\u{2028}' || c == '\u{2029}' || c
        == '\u{202f}' || c == '\u{205f}' || c == '\u{3000}'
}

/// Whether a character is a control code, by Unicode's general category `Cc`.
pub open spec fn control(c: char) -> bool {
    c <= '\u{1f}' || '\u{7f}' <= c <= '\u{9f}'
}

/// Whether a character is a control code.
pub fn is_control(c: char) -> (r: bool)
    ensures
        r == control(c),
{
    c <= '\u{1f}' || ('\u{7f}' <= c && c <= '\u{9f}')
}

/// The lower case of a character outside of ASCII, one or more characters.
pub uninterp spec fn lower_mapping(c: char) -> Seq<char>;

/// The lower case of a character, one or more characters.
pub open spec fn lower_of(c: char) -> Seq<char> {
    if c <= '\u{7f}' {
        seq![text::lower_char(c)]
    } else {
        lower_mapping(c)
    }
}

/// `char::to_lowercase`: on ASCII the ASCII lower case.
#[verifier::external_body]
fn to_lower(c: char) -> (r: Vec<char>)
    ensures
        r@ == if c <= '\u{7f}' {
            seq![text::lower_char(c)]
        } else {
            lower_mapping(c)
        },
        r@.len() >= 1,
{
    c.to_lowercase().collect()
}

/// The lower case of a string, character by character.
pub open spec fn lowered(s: Seq<char>) -> Seq<char>
    decreases s.len(),
{
    if s.len() == 0 {
        Seq::empty()
    } else {
        lowered(s.drop_last()) + lower_of(s.last())
    }
}

/// The lower case of a string, character by character.
pub fn lower_chars(s: &str) -> (r: Vec<char>)
    ensures
        r@ == lowered(s@),
        s@.len() > 0 ==> r@.len() > 0,
{
    let v = text::chars_of(s);
    let mut r: Vec<char> = Vec::new();
    let mut i: usize = 0;
    assert(v@.take(0) =~= Seq::empty());
    while i < v.len()
        invariant
            i <= v@.len(),
            r@ == lowered(v@.take(i as int)),
            i > 0 ==> r@.len() > 0,
        decreases v@.len() - i,
    {
        assert(v@.take(i + 1).drop_last() =~= v@.take(i as int));
        let mut more = to_lower(v[i]);
        r.append(&mut more);
        i += 1;
    }
    assert(v@.take(i as int) =~= s@);
    r
}

/// `s` without leading white space.
pub open spec fn trim_start(s: Seq<char>) -> Seq<char>
    decreases s.len(),
{
    if s.len() > 0 && whitespace(s[0]) {
        trim_start(s.drop_first())
    } else {
        s
    }
}

/// `s` without trailing white space.
pub open spec fn trim_end(s: Seq<char>) -> Seq<char>
    decreases s.len(),
{
    if s.len() > 0 && whitespace(s.last()) {
        trim_end(s.drop_last())
    } else {
        s
    }
}

/// `s` without surrounding white space.
pub open spec fn trimmed(s: Seq<char>) -> Seq<char> {
    trim_end(trim_start(s))
}

/// Where the white space at the end of `from..` begins.
pub fn trim_end_at(v: &[char], from: usize) -> (r: usize)
    requires
        from <= v@.len(),
    ensures
        from <= r <= v@.len(),
        trim_end(v@.skip(from as int)) == v@.subrange(from as int, r as int),
{
    let mut to: usize = v.len();
    assert(v@.subrange(from as int, to as int) =~= v@.skip(from as int));
    while to > from && is_whitespace(v[to - 1])
        invariant
            from <= to <= v@.len(),
            trim_end(v@.skip(from as int)) == trim_end(v@.subrange(from as int, to as int)),
        decreases to - from,
    {
        assert(v@.subrange(from as int, to as int).drop_last() =~= v@.subrange(
            from as int,
            to - 1,
        ));
        to -= 1;
    }
    to
}

/// Where the white space at the start ends.
pub fn trim_start_at(v: &[char]) -> (r: usize)
    ensures
        r <= v@.len(),
        trim_start(v@) == v@.skip(r as int),
{
    let mut from: usize = 0;
    assert(v@.skip(0) =~= v@);
    while from < v.len() && is_whitespace(v[from])
        invariant
            from <= v@.len(),
            trim_start(v@) == trim_start(v@.skip(from as int)),
        decreases v@.len() - from,
    {
        assert(v@.skip(from as int).drop_first() =~= v@.skip(from + 1));
        from += 1;
    }
    from
}

/// The string without surrounding white space.
pub fn trim(s: &str) -> (r: String)
    ensures
        r@ == trimmed(s@),
{
    let v = text::chars_of(s);
    let from: usize = trim_start_at(v.as_slice());
    let to: usize = trim_end_at(v.as_slice(), from);
    text::string_of_range(v.as_slice(), from, to)
}

/// A string in lower case.
pub uninterp spec fn lower_text(s: Seq<char>) -> Seq<char>;

/// `str::to_lowercase`: the string in lower case, by Unicode's rules.
#[verifier::external_body]
pub(crate) fn to_lowercase(s: &str) -> (r: String)
    ensures
        r@ == lower_text(s@),
{
    s.to_lowercase()
}

/// How many columns a character takes on screen.
pub uninterp spec fn char_width(c: char) -> Option<usize>;

/// `unicode_width::UnicodeWidthChar::width`: control codes have no width,
/// printable ASCII characters and the ellipsis take one column, and no character
/// takes more than 255.
#[verifier::external_body]
pub(crate) fn width_of(c: char) -> (r: Option<usize>)
    ensures
        r == char_width(c),
        r is None <==> control(c),
        ' ' <= c <= '~' || c == '…' ==> r == Some(1usize),
        r matches Some(n) ==> n <= 255,
{
    unicode_width::UnicodeWidthChar::width(c)
}

/// How many characters at the start of a string are not white space.
pub open spec fn word_len(s: Seq<char>) -> nat
    decreases s.len(),
{
    if s.len() == 0 || whitespace(s[0]) {
        0
    } else {
        1 + word_len(s.drop_first())
    }
}

pub proof fn lemma_trimmed_lengths(s: Seq<char>)
    ensures
        word_len(s) <= s.len(),
        trim_start(s).len() <= s.len(),
        trim_start(s).len() > 0 ==> word_len(trim_start(s)) > 0,
    decreases s.len(),
{
    if s.len() > 0 {
        lemma_trimmed_lengths(s.drop_first());
    }
}

/// The words of a string: its longest pieces without white space.
pub open spec fn words(s: Seq<char>) -> Seq<Seq<char>>
    decreases s.len(),
{
    let t = trim_start(s);
    if t.len() == 0 {
        Seq::empty()
    } else {
        proof {
            lemma_trimmed_lengths(s);
            lemma_trimmed_lengths(t);
        }
        seq![t.take(word_len(t) as int)] + words(t.skip(word_len(t) as int))
    }
}

/// Where the word that begins at `from` ends.
fn word_end(v: &[char], from: usize) -> (r: usize)
    requires
        from <= v@.len(),
    ensures
        from <= r <= v@.len(),
        r == from + word_len(v@.skip(from as int)),
{
    let mut to: usize = from;
    while to < v.len() && !is_whitespace(v[to])
        invariant
            from <= to <= v@.len(),
            from + word_len(v@.skip(from as int)) == to + word_len(v@.skip(to as int)),
        decreases v@.len() - to,
    {
        assert(v@.skip(to as int).drop_first() =~= v@.skip(to + 1));
        to += 1;
    }
    to
}

/// Where the white space that begins at `from` ends.
fn skip_whitespace(v: &[char], from: usize) -> (r: usize)
    requires
        from <= v@.len(),
    ensures
        from <= r <= v@.len(),
        trim_start(v@.skip(from as int)) == v@.skip(r as int),
{
    let mut to: usize = from;
    while to < v.len() && is_whitespace(v[to])
        invariant
            from <= to <= v@.len(),
            trim_start(v@.skip(from as int)) == trim_start(v@.skip(to as int)),
        decreases v@.len() - to,
    {
        assert(v@.skip(to as int).drop_first() =~= v@.skip(to + 1));
        to += 1;
    }
    to
}

/// The words of a string, each as its characters.
pub fn split_words(s: &[char]) -> (r: Vec<Vec<char>>)
    ensures
        r@.map_values(|w: Vec<char>| w@) == words(s@),
{
    let mut r: Vec<Vec<char>> = Vec::new();
    let mut i: usize = 0;
    assert(s@.skip(0) =~= s@);
    loop
        invariant
            i <= s@.len(),
            words(s@) =~= r@.map_values(|w: Vec<char>| w@) + words(s@.skip(i as int)),
        decreases s@.len() - i,
    {
        let from: usize = skip_whitespace(s, i);
        if from == s.len() {
            assert(words(s@.skip(i as int)) =~= Seq::empty());
            return r;
        }
        let to: usize = word_end(s, from);
        proof {
            lemma_trimmed_lengths(s@.skip(i as int));
        }
        let w = text::chars_of_range(s, from, to);
        let ghost before = r@.map_values(|w: Vec<char>| w@);
        r.push(w);
        proof {
            assert(s@.skip(from as int).take(to - from) =~= w@);
            assert(s@.skip(from as int).skip(to - from) =~= s@.skip(to as int));
            assert(r@.map_values(|w: Vec<char>| w@) =~= before.push(w@));
        }
        i = to;
    }
}

} // verus!
