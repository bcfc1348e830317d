//! Fitting texts into columns: wide characters take two, marks none.

use vstd::prelude::*;

use crate::text;
use crate::unicode;

verus! {

/// How many columns a character takes; control codes take none.
pub open spec fn columns_of(c: char) -> nat {
    match unicode::char_width(c) {
        Some(n) => n as nat,
        None => 0,
    }
}

/// How many columns a text takes.
pub open spec fn width(s: Seq<char>) -> nat
    decreases s.len(),
{
    if s.len() == 0 {
        0
    } else {
        width(s.drop_last()) + columns_of(s.last())
    }
}

pub proof fn lemma_width_concat(a: Seq<char>, b: Seq<char>)
    ensures
        width(a + b) == width(a) + width(b),
    decreases b.len(),
{
    if b.len() == 0 {
        assert(a + b =~= a);
    } else {
        assert((a + b).drop_last() =~= a + b.drop_last());
        lemma_width_concat(a, b.drop_last());
    }
}

fn column_count(c: char) -> (r: usize)
    ensures
        r == columns_of(c),
        r <= 255,
        c == '…' ==> r == 1,
{
    match unicode::width_of(c) {
        Some(n) => n,
        None => 0,
    }
}

/// How many columns the characters take.
pub fn total_width(v: &[char]) -> (r: u128)
    ensures
        r == width(v@),
{
    let mut total: u128 = 0;
    let mut i: usize = 0;
    assert(v@.take(0) =~= Seq::empty());
    while i < v.len()
        invariant
            i <= v@.len(),
            total == width(v@.take(i as int)),
            total <= 255 * i,
        decreases v@.len() - i,
    {
        assert(v@.take(i + 1).drop_last() =~= v@.take(i as int));
        total += column_count(v[i]) as u128;
        i += 1;
    }
    assert(v@.take(i as int) =~= v@);
    total
}

/// How many characters at the start fit into a number of columns.
pub open spec fn head_len(s: Seq<char>, room: nat) -> nat
    decreases s.len(),
{
    if s.len() == 0 || columns_of(s[0]) > room {
        0
    } else {
        1 + head_len(s.drop_first(), (room - columns_of(s[0])) as nat)
    }
}

/// How many characters at the end fit into a number of columns.
pub open spec fn tail_len(s: Seq<char>, room: nat) -> nat
    decreases s.len(),
{
    if s.len() == 0 || columns_of(s.last()) > room {
        0
    } else {
        1 + tail_len(s.drop_last(), (room - columns_of(s.last())) as nat)
    }
}

/// A label cut on the right to a number of columns, with an ellipsis where it
/// was longer and there is room for it.
pub open spec fn cut_right(label: Seq<char>, max_cols: nat) -> Seq<char> {
    if width(label) <= max_cols {
        label
    } else if max_cols == 0 {
        Seq::empty()
    } else if max_cols == 1 {
        seq!['…']
    } else {
        label.take(head_len(label, (max_cols - 1) as nat) as int).push('…')
    }
}

/// A text cut on the left to a number of columns, keeping its tail behind an
/// ellipsis where it was longer.
pub open spec fn cut_left(s: Seq<char>, budget: nat) -> Seq<char> {
    if width(s) <= budget {
        s
    } else if budget == 0 {
        Seq::empty()
    } else {
        seq!['…'] + s.skip(s.len() - tail_len(s, (budget - 1) as nat))
    }
}

pub proof fn lemma_head_fits(s: Seq<char>, room: nat)
    ensures
        head_len(s, room) <= s.len(),
        width(s.take(head_len(s, room) as int)) <= room,
    decreases s.len(),
{
    if s.len() == 0 || columns_of(s[0]) > room {
        assert(s.take(0) =~= Seq::empty());
    } else {
        let rest = (room - columns_of(s[0])) as nat;
        let n = head_len(s.drop_first(), rest);
        lemma_head_fits(s.drop_first(), rest);
        let first = seq![s[0]];
        assert(first.drop_last() =~= Seq::empty());
        assert(width(Seq::<char>::empty()) == 0);
        assert(width(first) == columns_of(s[0]));
        lemma_width_concat(first, s.drop_first().take(n as int));
        assert(first + s.drop_first().take(n as int) =~= s.take(n as int + 1));
    }
}

pub proof fn lemma_tail_fits(s: Seq<char>, room: nat)
    ensures
        tail_len(s, room) <= s.len(),
        width(s.skip(s.len() - tail_len(s, room))) <= room,
    decreases s.len(),
{
    if s.len() == 0 || columns_of(s.last()) > room {
        assert(s.skip(s.len() as int) =~= Seq::empty());
    } else {
        let rest = (room - columns_of(s.last())) as nat;
        lemma_tail_fits(s.drop_last(), rest);
        let kept = s.skip(s.len() - tail_len(s, room));
        assert(kept.drop_last() =~= s.drop_last().skip(
            s.drop_last().len() - tail_len(s.drop_last(), rest),
        ));
        assert(kept.last() == s.last());
    }
}

proof fn lemma_ellipsis(s: Seq<char>)
    requires
        columns_of('…') == 1,
    ensures
        width(s.push('…')) == width(s) + 1,
        width(seq!['…'] + s) == width(s) + 1,
        width(seq!['…']) == 1,
{
    assert(s.push('…').drop_last() =~= s);
    let e = seq!['…'];
    assert(e.drop_last() =~= Seq::empty());
    assert(width(Seq::<char>::empty()) == 0);
    lemma_width_concat(e, s);
}

/// Truncates `label` so that its display width fits within `max_cols` columns,
/// appending an ellipsis when clipped.
pub fn truncate_tab_label(label: &str, max_cols: usize) -> (r: String)
    ensures
        r@ == cut_right(label@, max_cols as nat),
        width(r@) <= max_cols,
{
    let v = text::chars_of(label);
    if total_width(v.as_slice()) <= max_cols as u128 {
        return label.to_owned();
    }
    let _ = column_count('…');
    let mut r = String::new();
    if max_cols == 0 {
        assert(r@ =~= Seq::empty());
        return r;
    }
    if max_cols == 1 {
        r.push('…');
        proof {
            lemma_ellipsis(Seq::empty());
            assert(r@ =~= seq!['…']);
        }
        return r;
    }
    let budget: usize = max_cols - 1;
    let mut used: usize = 0;
    let mut i: usize = 0;
    assert(v@.skip(0) =~= v@);
    while i < v.len()
        invariant_except_break
            i <= v@.len(),
            used <= budget,
            v@ == label@,
            r@ == v@.take(i as int),
            head_len(v@, budget as nat) == i + head_len(v@.skip(i as int), (budget - used) as nat),
        ensures
            i <= v@.len(),
            v@ == label@,
            r@ == v@.take(i as int),
            head_len(v@, budget as nat) == i,
        decreases v@.len() - i,
    {
        let w: usize = column_count(v[i]);
        assert(v@.skip(i as int).drop_first() =~= v@.skip(i + 1));
        if w > budget - used {
            break;
        }
        used += w;
        r.push(v[i]);
        assert(v@.take(i + 1) =~= v@.take(i as int).push(v@[i as int]));
        i += 1;
    }
    proof {
        lemma_head_fits(v@, budget as nat);
        lemma_ellipsis(r@);
    }
    r.push('…');
    r
}

/// Truncates `s` to at most `budget` display columns, keeping the tail: the end
/// of a file name is what a tooltip most needs.
pub fn fit_tail(s: &str, budget: usize) -> (r: String)
    ensures
        r@ == cut_left(s@, budget as nat),
        width(r@) <= budget,
{
    let v = text::chars_of(s);
    if total_width(v.as_slice()) <= budget as u128 {
        return s.to_owned();
    }
    if budget == 0 {
        return String::new();
    }
    let _ = column_count('…');
    let room: usize = budget - 1;
    let mut used: usize = 0;
    let mut i: usize = v.len();
    assert(v@.take(i as int) =~= v@);
    while i > 0
        invariant_except_break
            i <= v@.len(),
            used <= room,
            v@ == s@,
            tail_len(v@, room as nat) == v@.len() - i + tail_len(
                v@.take(i as int),
                (room - used) as nat,
            ),
        ensures
            i <= v@.len(),
            v@ == s@,
            tail_len(v@, room as nat) == v@.len() - i,
        decreases i,
    {
        let w: usize = column_count(v[i - 1]);
        assert(v@.take(i as int).drop_last() =~= v@.take(i - 1));
        if w > room - used {
            break;
        }
        used += w;
        i -= 1;
    }
    let mut r = String::new();
    r.push('…');
    let tail = text::string_of_range(v.as_slice(), i, v.len());
    r.append(tail.as_str());
    proof {
        assert(tail@ =~= v@.skip(i as int));
        assert(r@ =~= seq!['…'] + v@.skip(i as int));
        lemma_tail_fits(v@, room as nat);
        lemma_ellipsis(tail@);
    }
    r
}

/// How many columns a text takes where control codes take one.
pub open spec fn label_width(s: Seq<char>) -> nat
    decreases s.len(),
{
    if s.len() == 0 {
        0
    } else {
        label_width(s.drop_last()) + match unicode::char_width(s.last()) {
            Some(n) => n as nat,
            None => 1,
        }
    }
}

/// How many columns a text takes where control codes take one.
pub fn label_columns(s: &str) -> (r: u128)
    ensures
        r == label_width(s@),
{
    let v = text::chars_of(s);
    let mut total: u128 = 0;
    let mut i: usize = 0;
    assert(v@.take(0) =~= Seq::empty());
    while i < v.len()
        invariant
            i <= v@.len(),
            total == label_width(v@.take(i as int)),
            total <= 255 * i,
        decreases v@.len() - i,
    {
        assert(v@.take(i + 1).drop_last() =~= v@.take(i as int));
        let w: usize = match unicode::width_of(v[i]) {
            Some(n) => n,
            None => 1,
        };
        total += w as u128;
        i += 1;
    }
    assert(v@.take(i as int) =~= v@);
    total
}

} // verus!
