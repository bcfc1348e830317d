//! Searching, trimming, splitting and comparing texts.

use vstd::prelude::*;

use crate::text;
use crate::unicode;

verus! {

/// Whether `p` stands somewhere in `s`.
pub open spec fn holds(s: Seq<char>, p: Seq<char>) -> bool {
    exists|a: Seq<char>, b: Seq<char>| s == #[trigger] (a + p + b)
}

/// A text is found exactly where it stands, with anything in front of it and
/// behind it.
pub proof fn law_found_where_it_stands(s: Seq<char>, p: Seq<char>)
    ensures
        text::find_from(s, p, 0) is Some <==> holds(s, p),
{
    text::lemma_find_from(s, p, 0);
    if let Some(k) = text::find_from(s, p, 0) {
        assert(s =~= s.take(k) + p + s.skip(k + p.len()));
    }
    if holds(s, p) {
        let (a, b) = choose|a: Seq<char>, b: Seq<char>| s == #[trigger] (a + p + b);
        assert(s.subrange(a.len() as int, (a.len() + p.len()) as int) =~= p);
        assert(text::occurs_at(s, p, a.len() as int));
    }
}

/// It is the first place that is found: the text stands there, and at none before.
pub proof fn law_first_place_is_found(s: Seq<char>, p: Seq<char>)
    ensures
        text::find_from(s, p, 0) matches Some(k) ==> {
            &&& 0 <= k <= s.len()
            &&& p.is_prefix_of(s.skip(k))
            &&& forall|j: int| 0 <= j < k ==> !p.is_prefix_of(#[trigger] s.skip(j))
        },
{
    text::lemma_find_from(s, p, 0);
    if let Some(k) = text::find_from(s, p, 0) {
        assert(s.skip(k).subrange(0, p.len() as int) =~= s.subrange(k, k + p.len()));
        assert forall|j: int| 0 <= j < k implies !p.is_prefix_of(#[trigger] s.skip(j)) by {
            if p.is_prefix_of(s.skip(j)) {
                assert(s.skip(j).subrange(0, p.len() as int) =~= s.subrange(j, j + p.len()));
                assert(text::occurs_at(s, p, j));
            }
        }
    }
}

/// A text begins with another one exactly where that is a prefix of it, and ends
/// with it exactly where it is what some beginning leaves.
pub proof fn law_beginnings_and_ends(s: Seq<char>, p: Seq<char>)
    ensures
        text::starts_with(s, p) <==> exists|rest: Seq<char>| s == #[trigger] (p + rest),
        text::ends_with(s, p) <==> exists|rest: Seq<char>| s == #[trigger] (rest + p),
{
    if text::starts_with(s, p) {
        assert(s =~= p + s.skip(p.len() as int));
    }
    if exists|rest: Seq<char>| s == #[trigger] (p + rest) {
        assert(s.subrange(0, p.len() as int) =~= p);
    }
    if text::ends_with(s, p) {
        assert(s =~= s.take(s.len() - p.len()) + p);
    }
    if exists|rest: Seq<char>| s == #[trigger] (rest + p) {
        assert(s.subrange(s.len() - p.len(), s.len() as int) =~= p);
    }
}

/// A blank, a tab and the ends of lines are white space; no visible ASCII character
/// is, and no letter or digit.
pub proof fn law_white_space(c: char)
    ensures
        c == ' ' || c == '\t' || c == '\n' || c == '\r' ==> unicode::whitespace(c),
        '!' <= c <= '~' ==> !unicode::whitespace(c),
        '!' <= c <= '~' ==> !unicode::control(c),
        c == '\t' || c == '\n' || c == '\r' || c == '\u{1b}' || c == '\u{7f}' ==> unicode::control(
            c,
        ),
        !unicode::control(' '),
{
}

/// Whether a text is white space alone.
pub open spec fn is_blank(s: Seq<char>) -> bool {
    forall|i: int| 0 <= i < s.len() ==> unicode::whitespace(#[trigger] s[i])
}

/// Trimming takes white space off both ends, all of it, and nothing else.
pub proof fn law_trimming(s: Seq<char>)
    ensures
        exists|a: Seq<char>, b: Seq<char>|
            is_blank(a) && is_blank(b) && s == #[trigger] (a + unicode::trimmed(s) + b),
        unicode::trimmed(s).len() > 0 ==> !unicode::whitespace(unicode::trimmed(s)[0])
            && !unicode::whitespace(unicode::trimmed(s).last()),
{
    let t = unicode::trim_start(s);
    lemma_trim_start(s);
    lemma_trim_end(t);
    let r = unicode::trimmed(s);
    let a = s.take(s.len() - t.len());
    let b = t.skip(r.len() as int);
    assert(s =~= a + r + b) by {
        assert(t =~= r + b);
        assert(s =~= a + t);
        assert(a + (r + b) =~= a + r + b);
    }
    if r.len() > 0 {
        assert(r[0] == t[0]);
    }
}

proof fn lemma_trim_start(s: Seq<char>)
    ensures
        unicode::trim_start(s).len() <= s.len(),
        unicode::trim_start(s) == s.skip(s.len() - unicode::trim_start(s).len()),
        is_blank(s.take(s.len() - unicode::trim_start(s).len())),
        unicode::trim_start(s).len() > 0 ==> !unicode::whitespace(unicode::trim_start(s)[0]),
    decreases s.len(),
{
    if s.len() > 0 && unicode::whitespace(s[0]) {
        let rest = s.drop_first();
        lemma_trim_start(rest);
        let n = s.len() - unicode::trim_start(s).len();
        assert(rest.skip(n - 1) =~= s.skip(n));
        assert forall|i: int| 0 <= i < n implies unicode::whitespace(#[trigger] s.take(n)[i]) by {
            if i > 0 {
                assert(rest.take(n - 1)[i - 1] == s[i]);
            }
        }
    } else {
        assert(s.skip(0) =~= s);
    }
}

pub proof fn lemma_trim_end(s: Seq<char>)
    ensures
        unicode::trim_end(s).len() <= s.len(),
        unicode::trim_end(s) == s.take(unicode::trim_end(s).len() as int),
        is_blank(s.skip(unicode::trim_end(s).len() as int)),
        unicode::trim_end(s).len() > 0 ==> !unicode::whitespace(unicode::trim_end(s).last()),
    decreases s.len(),
{
    if s.len() > 0 && unicode::whitespace(s.last()) {
        let front = s.drop_last();
        lemma_trim_end(front);
        let n = unicode::trim_end(s).len() as int;
        assert(front.take(n) =~= s.take(n));
        assert forall|i: int| 0 <= i < s.len() - n implies unicode::whitespace(
            #[trigger] s.skip(n)[i],
        ) by {
            if i < front.len() - n {
                assert(front.skip(n)[i] == s[i + n]);
            }
        }
    } else {
        assert(s.take(s.len() as int) =~= s);
    }
}

/// Texts compare as in a dictionary: one goes before another exactly where it is a
/// proper beginning of it, or has the smaller character at the first place where
/// they differ.
pub proof fn law_dictionary_order(a: Seq<char>, b: Seq<char>)
    ensures
        text::lex_lt(a, b) <==> (a.is_prefix_of(b) && a.len() < b.len()) || exists|i: int|
            0 <= i < a.len() && i < b.len() && a.take(i) == b.take(i) && #[trigger] a[i] < b[i],
    decreases a.len(),
{
    if a.len() > 0 && b.len() > 0 {
        let (x, y) = (a.drop_first(), b.drop_first());
        if a[0] == b[0] {
            law_dictionary_order(x, y);
            assert(a =~= seq![a[0]] + x);
            assert(b =~= seq![b[0]] + y);
            if x.is_prefix_of(y) && x.len() < y.len() {
                assert(a =~= b.subrange(0, a.len() as int)) by {
                    assert(x =~= y.subrange(0, x.len() as int));
                    assert forall|k: int| 0 <= k < a.len() implies a[k] == b[k] by {
                        if k > 0 {
                            assert(x[k - 1] == y.subrange(0, x.len() as int)[k - 1]);
                        }
                    }
                }
            }
            if a.is_prefix_of(b) && a.len() < b.len() {
                assert(x =~= y.subrange(0, x.len() as int)) by {
                    assert forall|k: int| 0 <= k < x.len() implies x[k] == y[k] by {
                        assert(a[k + 1] == b.subrange(0, a.len() as int)[k + 1]);
                    }
                }
            }
            if exists|i: int|
                0 <= i < x.len() && i < y.len() && x.take(i) == y.take(i) && #[trigger] x[i]
                    < y[i] {
                let i = choose|i: int|
                    0 <= i < x.len() && i < y.len() && x.take(i) == y.take(i) && #[trigger] x[i]
                        < y[i];
                assert(a[i + 1] < b[i + 1]);
                assert(a.take(i + 1) =~= seq![a[0]] + x.take(i));
                assert(b.take(i + 1) =~= seq![b[0]] + y.take(i));
            }
            if exists|i: int|
                0 <= i < a.len() && i < b.len() && a.take(i) == b.take(i) && #[trigger] a[i]
                    < b[i] {
                let i = choose|i: int|
                    0 <= i < a.len() && i < b.len() && a.take(i) == b.take(i) && #[trigger] a[i]
                        < b[i];
                assert(i > 0);
                assert(x[i - 1] < y[i - 1]);
                assert(x.take(i - 1) =~= a.take(i).drop_first());
                assert(y.take(i - 1) =~= b.take(i).drop_first());
            }
        } else {
            if a[0] < b[0] {
                assert(a.take(0) =~= b.take(0));
            }
            if exists|i: int|
                0 <= i < a.len() && i < b.len() && a.take(i) == b.take(i) && #[trigger] a[i]
                    < b[i] {
                let i = choose|i: int|
                    0 <= i < a.len() && i < b.len() && a.take(i) == b.take(i) && #[trigger] a[i]
                        < b[i];
                if i > 0 {
                    assert(a.take(i)[0] == b.take(i)[0]);
                }
            }
            if a.is_prefix_of(b) {
                assert(a[0] == b.subrange(0, a.len() as int)[0]);
            }
        }
    } else if a.len() == 0 {
        assert(a =~= b.subrange(0, 0));
    }
}

/// Pieces with a character between them.
pub open spec fn joined(parts: Seq<Seq<char>>, c: char) -> Seq<char>
    decreases parts.len(),
{
    if parts.len() == 0 {
        Seq::empty()
    } else if parts.len() == 1 {
        parts[0]
    } else {
        parts[0] + seq![c] + joined(parts.drop_first(), c)
    }
}

/// Splitting at a character cuts at each of its places and loses nothing else:
/// joined again, the pieces are the text, and none of them holds the character.
pub proof fn law_splitting(s: Seq<char>, c: char)
    ensures
        text::pieces(s, c).len() > 0,
        joined(text::pieces(s, c), c) == s,
        forall|i: int|
            0 <= i < text::pieces(s, c).len() ==> !(#[trigger] text::pieces(s, c)[i]).contains(c),
    decreases s.len(),
{
    let n = text::position(s, c) as int;
    text::lemma_position(s, c);
    let all = text::pieces(s, c);
    if n >= s.len() {
        assert(all[0] == s);
        assert(!s.contains(c));
    } else {
        let rest = text::pieces(s.skip(n + 1), c);
        law_splitting(s.skip(n + 1), c);
        assert(all.drop_first() =~= rest);
        assert(s =~= s.take(n) + seq![c] + s.skip(n + 1));
        assert forall|i: int| 0 <= i < all.len() implies !(#[trigger] all[i]).contains(c) by {
            if i > 0 {
                assert(all[i] == rest[i - 1]);
            } else {
                assert(all[0] == s.take(n));
            }
        }
    }
}

/// Every line that ends with a line feed is read, without the line feed and a
/// carriage return in front of it, and what is behind it is read on its own. What
/// is left without a line feed is a line too, unless it is empty.
pub proof fn law_lines(line: Seq<char>, rest: Seq<char>)
    requires
        !line.contains('\n'),
    ensures
        line.len() > 0 ==> text::lines(line) == seq![line],
        text::lines(Seq::empty()) == Seq::<Seq<char>>::empty(),
        line.len() == 0 || line.last() != '\r' ==> text::lines(line + seq!['\n'] + rest) == seq![
            line,
        ] + text::lines(rest),
        text::lines(line + seq!['\r', '\n'] + rest) == seq![line] + text::lines(rest),
{
    lemma_position_is(line, Seq::empty(), '\n');
    assert(line + Seq::empty() =~= line);
    text::lemma_position(line, '\n');
    if text::position(line, '\n') < line.len() {
        assert(line.contains(line[text::position(line, '\n') as int]));
    }
    let one = line + seq!['\n'] + rest;
    lemma_position_is(line, seq!['\n'] + rest, '\n');
    assert(line + (seq!['\n'] + rest) =~= one);
    assert(one.take(line.len() as int) =~= line);
    assert(one.skip(line.len() as int + 1) =~= rest);
    let back = line.push('\r');
    let two = line + seq!['\r', '\n'] + rest;
    assert forall|i: int| 0 <= i < back.len() implies back[i] != '\n' by {
        if i < line.len() {
            assert(line.contains(line[i]));
        }
    }
    assert(!back.contains('\n'));
    lemma_position_is(back, seq!['\n'] + rest, '\n');
    assert(back + (seq!['\n'] + rest) =~= two);
    assert(two.take(back.len() as int) =~= back);
    assert(back.drop_last() =~= line);
    assert(two.skip(back.len() as int + 1) =~= rest);
}

/// A character stands first where a text without it ends.
pub proof fn lemma_position_is(a: Seq<char>, b: Seq<char>, c: char)
    requires
        !a.contains(c),
        b.len() > 0 ==> b[0] == c,
    ensures
        text::position(a + b, c) == a.len(),
    decreases a.len(),
{
    if a.len() == 0 {
        assert(a + b =~= b);
    } else {
        assert(a.contains(a[0]));
        assert((a + b).drop_first() =~= a.drop_first() + b);
        assert forall|i: int| 0 <= i < a.len() - 1 implies a.drop_first()[i] != c by {
            assert(a.contains(a[i + 1]));
        }
        lemma_position_is(a.drop_first(), b, c);
    }
}

/// A letter in upper case has the lower case that stands at its place in the
/// alphabet; everything else is left as it is.
pub proof fn law_ascii_lower_case(s: Seq<char>, i: int)
    requires
        0 <= i < s.len(),
    ensures
        text::ascii_lower(s).len() == s.len(),
        'A' <= s[i] <= 'Z' ==> text::ascii_lower(s)[i] as u32 - 'a' as u32 == s[i] as u32
            - 'A' as u32,
        !('A' <= s[i] <= 'Z') ==> text::ascii_lower(s)[i] == s[i],
{
}

/// Numbers are read digit by digit, in tens, with or without a plus sign in front;
/// whatever else stands in a text, or is too large, makes it no number.
pub proof fn law_numbers(s: Seq<char>, c: char, n: u64)
    ensures
        '0' <= c <= '9' ==> text::number(seq![c]) == Some((c as u32 - '0' as u32) as u64),
        '0' <= c <= '9' && text::number(s) == Some(n) ==> {
            let more = 10 * n + (c as u32 - '0' as u32);
            text::number(s.push(c)) == if more <= u64::MAX {
                Some(more as u64)
            } else {
                None
            }
        },
        !('0' <= c <= '9') ==> text::number(s.push(c)) is None,
        text::number(Seq::empty()) is None,
        text::number(seq!['+']) is None,
        s.len() > 0 && s[0] != '+' ==> text::number(seq!['+'] + s) == text::number(s),
{
    let one = seq![c];
    if '0' <= c <= '9' {
        assert(one.drop_last() =~= Seq::empty());
        assert(text::decimal(one.drop_last()) == 0);
        assert(one.last() == c);
        assert(text::without_plus(one) == one);
        assert(text::all_digits(one));
        if text::number(s) == Some(n) {
            let d = text::without_plus(s);
            let e = text::without_plus(s.push(c));
            assert(e =~= d.push(c));
            assert(e.drop_last() =~= d);
            assert(text::all_digits(e));
        }
    } else {
        let t = s.push(c);
        let d = text::without_plus(t);
        if d.len() > 0 {
            assert(d[d.len() - 1] == c);
            assert(!text::is_digit(d[d.len() - 1]));
        }
    }
    assert(text::without_plus(seq!['+']) =~= Seq::empty());
    if s.len() > 0 && s[0] != '+' {
        assert((seq!['+'] + s).drop_first() =~= s);
    }
}

/// The words of a text stand between white space: whatever blanks lead, the first
/// word goes to the next blank or to the end, and the rest has the other words.
pub proof fn law_words_stand_between_blanks(
    lead: Seq<char>,
    word: Seq<char>,
    blank: char,
    rest: Seq<char>,
)
    requires
        is_blank(lead),
        forall|i: int| 0 <= i < word.len() ==> !unicode::whitespace(#[trigger] word[i]),
    ensures
        unicode::words(lead) == Seq::<Seq<char>>::empty(),
        word.len() > 0 ==> unicode::words(lead + word) == seq![word],
        word.len() > 0 && unicode::whitespace(blank) ==> unicode::words(
            lead + word + seq![blank] + rest,
        ) == seq![word] + unicode::words(seq![blank] + rest),
        unicode::whitespace(blank) ==> unicode::words(seq![blank] + rest) == unicode::words(rest),
{
    lemma_trim_lead(lead, Seq::empty());
    assert(lead + Seq::empty() =~= lead);
    if word.len() > 0 {
        assert(!unicode::whitespace(word[0]));
        lemma_trim_lead(lead, word);
        lemma_word_len(word, Seq::empty());
        assert(word + Seq::empty() =~= word);
        assert(word.take(word.len() as int) =~= word);
        let none = word.skip(word.len() as int);
        assert(none =~= Seq::empty());
        assert(unicode::trim_start(none) == none);
        assert(unicode::words(none) == Seq::<Seq<char>>::empty());
        assert(unicode::words(lead + word) =~= seq![word]);
        if unicode::whitespace(blank) {
            let tail = seq![blank] + rest;
            let t = word + tail;
            assert(t[0] == word[0]);
            assert(tail[0] == blank);
            lemma_trim_lead(lead, t);
            lemma_word_len(word, tail);
            assert(lead + word + seq![blank] + rest =~= lead + t);
            assert(t.take(word.len() as int) =~= word);
            assert(t.skip(word.len() as int) =~= tail);
        }
    }
    if unicode::whitespace(blank) {
        let tail = seq![blank] + rest;
        assert(tail[0] == blank);
        assert(tail.drop_first() =~= rest);
        assert(unicode::trim_start(tail) == unicode::trim_start(rest));
    }
}

pub proof fn lemma_trim_lead(lead: Seq<char>, t: Seq<char>)
    requires
        is_blank(lead),
        t.len() > 0 ==> !unicode::whitespace(t[0]),
    ensures
        unicode::trim_start(lead + t) == t,
    decreases lead.len(),
{
    if lead.len() == 0 {
        assert(lead + t =~= t);
    } else {
        assert(unicode::whitespace(lead[0]));
        let l = lead.drop_first();
        assert forall|i: int| 0 <= i < l.len() implies unicode::whitespace(#[trigger] l[i]) by {
            assert(unicode::whitespace(lead[i + 1]));
        }
        lemma_trim_lead(l, t);
        assert((lead + t).drop_first() =~= l + t);
    }
}

pub proof fn lemma_trim_tail(t: Seq<char>, tail: Seq<char>)
    requires
        is_blank(tail),
        t.len() > 0 ==> !unicode::whitespace(t.last()),
    ensures
        unicode::trim_end(t + tail) == t,
    decreases tail.len(),
{
    if tail.len() == 0 {
        assert(t + tail =~= t);
    } else {
        assert(unicode::whitespace(tail[tail.len() - 1]));
        let l = tail.drop_last();
        assert forall|i: int| 0 <= i < l.len() implies unicode::whitespace(#[trigger] l[i]) by {
            assert(unicode::whitespace(tail[i]));
        }
        lemma_trim_tail(t, l);
        assert((t + tail).drop_last() =~= t + l);
    }
}

pub proof fn lemma_blank(s: Seq<char>)
    ensures
        unicode::trimmed(s).len() == 0 <==> is_blank(s),
{
    law_trimming(s);
    if is_blank(s) {
        lemma_trim_lead(s, Seq::empty());
        assert(s + Seq::empty() =~= s);
    }
    if unicode::trimmed(s).len() == 0 {
        let (a, b) = choose|a: Seq<char>, b: Seq<char>|
            is_blank(a) && is_blank(b) && s == #[trigger] (a + unicode::trimmed(s)
                + b);
        assert forall|i: int| 0 <= i < s.len() implies unicode::whitespace(#[trigger] s[i]) by {
            if i < a.len() {
                assert(s[i] == a[i]);
            } else {
                assert(s[i] == b[i - a.len()]);
            }
        }
    }
}

proof fn lemma_word_len(word: Seq<char>, tail: Seq<char>)
    requires
        forall|i: int| 0 <= i < word.len() ==> !unicode::whitespace(#[trigger] word[i]),
        tail.len() > 0 ==> unicode::whitespace(tail[0]),
    ensures
        unicode::word_len(word + tail) == word.len(),
    decreases word.len(),
{
    if word.len() == 0 {
        assert(word + tail =~= tail);
    } else {
        assert(!unicode::whitespace(word[0]));
        let w = word.drop_first();
        assert forall|i: int| 0 <= i < w.len() implies !unicode::whitespace(#[trigger] w[i]) by {
            assert(!unicode::whitespace(word[i + 1]));
        }
        lemma_word_len(w, tail);
        assert((word + tail).drop_first() =~= w + tail);
    }
}

} // verus!
