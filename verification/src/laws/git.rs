//! Reading what `git` reports.

use vstd::prelude::*;

use crate::display::side_panel::git;
use crate::display::side_panel::git::GitState;
use crate::laws::completions;
use crate::laws::words;
use crate::text;
use crate::unicode;

verus! {

/// Whether a line tells of a change: it is no head line, and longer than its marks.
pub open spec fn is_change(line: Seq<char>) -> bool {
    !"## "@.is_prefix_of(line) && vstd::utf8::encode_utf8(line).len() > 3
}

/// The mark of the index.
pub open spec fn index_mark(line: Seq<char>) -> char {
    vstd::utf8::encode_utf8(line)[0] as char
}

/// The mark of the worktree.
pub open spec fn worktree_mark(line: Seq<char>) -> char {
    vstd::utf8::encode_utf8(line)[1] as char
}

/// Every change line is read by its two marks, each on its own: whatever the one
/// is, the other one puts the path on its list unless it is a blank. A path with a
/// question mark is on the list of what is not staged, and there alone.
pub proof fn law_each_mark_counts(before: GitState, line: Seq<char>, rest: Seq<char>)
    requires
        is_change(line),
        vstd::utf8::encode_utf8(rest) == vstd::utf8::encode_utf8(line).skip(3),
    ensures
        ({
            let (x, y) = (index_mark(line), worktree_mark(line));
            let path = unicode::trimmed(rest);
            let after = git::with_line(before, line);
            let asked = x == '?' || y == '?';
            &&& !asked && x != ' ' ==> after.staged == before.staged.push((x, path))
            &&& asked || x == ' ' ==> after.staged == before.staged
            &&& !asked && y != ' ' ==> after.unstaged == before.unstaged.push((y, path))
            &&& !asked && y == ' ' ==> after.unstaged == before.unstaged
            &&& asked ==> after.unstaged == before.unstaged.push(('?', path))
            &&& after.branch == before.branch
            &&& after.ahead == before.ahead
            &&& after.plus == before.plus
            &&& after.minus == before.minus
        }),
{
    vstd::utf8::encode_utf8_decode_utf8(rest);
}

/// A line that is neither a head nor a change is passed over.
pub proof fn law_short_lines_are_passed_over(before: GitState, line: Seq<char>)
    requires
        !"## "@.is_prefix_of(line),
        vstd::utf8::encode_utf8(line).len() <= 3,
    ensures
        git::with_line(before, line) == before,
{
}

/// What a line puts on the list of what is staged.
pub open spec fn staged_by(line: Seq<char>) -> Seq<(char, Seq<char>)> {
    let (x, y) = (index_mark(line), worktree_mark(line));
    if is_change(line) && x != '?' && y != '?' && x != ' ' {
        seq![(x, path_of(line))]
    } else {
        Seq::empty()
    }
}

/// What a line puts on the list of what is not staged.
pub open spec fn unstaged_by(line: Seq<char>) -> Seq<(char, Seq<char>)> {
    let (x, y) = (index_mark(line), worktree_mark(line));
    if !is_change(line) {
        Seq::empty()
    } else if x == '?' || y == '?' {
        seq![('?', path_of(line))]
    } else if y != ' ' {
        seq![(y, path_of(line))]
    } else {
        Seq::empty()
    }
}

/// The path of a change line: what stands behind the marks and a blank.
pub open spec fn path_of(line: Seq<char>) -> Seq<char> {
    unicode::trimmed(vstd::utf8::decode_utf8(vstd::utf8::encode_utf8(line).skip(3)))
}

/// The two lists hold what the lines put on them, in the order of the lines, and
/// nothing else.
pub proof fn law_lists_hold_what_the_lines_tell(lines: Seq<Seq<char>>)
    ensures
        git::status_of(lines).staged == lines.map_values(|l: Seq<char>| staged_by(l)).flatten(),
        git::status_of(lines).unstaged == lines.map_values(
            |l: Seq<char>| unstaged_by(l),
        ).flatten(),
        git::status_of(lines).plus == 0,
        git::status_of(lines).minus == 0,
    decreases lines.len(),
{
    let s = lines.map_values(|l: Seq<char>| staged_by(l));
    let u = lines.map_values(|l: Seq<char>| unstaged_by(l));
    if lines.len() == 0 {
        assert(s =~= Seq::empty());
        assert(u =~= Seq::empty());
        assert(s.flatten() =~= Seq::empty());
        assert(u.flatten() =~= Seq::empty());
    } else {
        let front = lines.drop_last();
        let line = lines.last();
        law_lists_hold_what_the_lines_tell(front);
        let (s0, u0) = (
            front.map_values(|l: Seq<char>| staged_by(l)),
            front.map_values(|l: Seq<char>| unstaged_by(l)),
        );
        assert(s =~= s0.push(staged_by(line)));
        assert(u =~= u0.push(unstaged_by(line)));
        completions::lemma_flatten_push(s0, staged_by(line));
        completions::lemma_flatten_push(u0, unstaged_by(line));
        let before = git::status_of(front);
        let after = git::status_of(lines);
        assert(after.staged =~= before.staged + staged_by(line));
        assert(after.unstaged =~= before.unstaged + unstaged_by(line));
    }
}

proof fn lemma_first_is(s: Seq<char>, p: Seq<char>, k: int)
    requires
        0 <= k <= s.len(),
        p.is_prefix_of(s.skip(k)),
        forall|j: int| 0 <= j < k ==> !p.is_prefix_of(#[trigger] s.skip(j)),
    ensures
        text::find_from(s, p, 0) == Some(k),
{
    words::law_found_where_it_stands(s, p);
    words::law_first_place_is_found(s, p);
    assert(s =~= s.take(k) + p + s.skip(k).skip(p.len() as int)) by {
        assert(s.skip(k) =~= p + s.skip(k).skip(p.len() as int));
    }
    assert(words::holds(s, p));
    let i = text::find_from(s, p, 0)->0;
    if i < k {
        assert(!p.is_prefix_of(s.skip(i)));
    } else if i > k {
        assert(!p.is_prefix_of(s.skip(k)));
    }
}

/// The branch of a head line ends where its upstream begins, with three dots;
/// without an upstream it is all of the line.
pub proof fn law_head_lines_name_the_branch(before: GitState, branch: Seq<char>, upstream: Seq<char>)
    requires
        forall|j: int|
            0 <= j < branch.len() ==> !"..."@.is_prefix_of(
                #[trigger] (branch + "..."@ + upstream).skip(j),
            ),
    ensures
        git::with_line(before, "## "@ + (branch + "..."@ + upstream)).branch == branch,
        !words::holds(branch, "..."@) ==> git::with_line(before, "## "@ + branch).branch == branch,
        git::with_line(before, "## "@ + branch).staged == before.staged,
        git::with_line(before, "## "@ + branch).unstaged == before.unstaged,
{
    reveal_strlit("## ");
    assert("## "@.len() == 3);
    let head = branch + "..."@ + upstream;
    let line = "## "@ + head;
    assert(text::starts_with(line, "## "@)) by {
        assert(line.subrange(0, 3) =~= "## "@);
    }
    assert(line.skip(3) =~= head);
    assert(head.skip(branch.len() as int) =~= "..."@ + upstream);
    assert("..."@ =~= ("..."@ + upstream).subrange(0, "..."@.len() as int));
    lemma_first_is(head, "..."@, branch.len() as int);
    assert(head.take(branch.len() as int) =~= branch);
    let plain = "## "@ + branch;
    assert(text::starts_with(plain, "## "@)) by {
        assert(plain.subrange(0, 3) =~= "## "@);
    }
    assert(plain.skip(3) =~= branch);
    words::law_found_where_it_stands(branch, "..."@);
}

proof fn lemma_digit_run(a: Seq<char>, z: Seq<char>)
    requires
        forall|i: int| 0 <= i < a.len() ==> '0' <= #[trigger] a[i] <= '9',
        z.len() > 0 ==> !('0' <= z[0] <= '9'),
    ensures
        git::digit_run(a + z) == a.len(),
    decreases a.len(),
{
    if a.len() == 0 {
        assert(a + z =~= z);
    } else {
        assert('0' <= a[0] <= '9');
        assert((a + z).drop_first() =~= a.drop_first() + z);
        assert forall|i: int| 0 <= i < a.len() - 1 implies '0' <= #[trigger] a.drop_first()[i]
            <= '9' by {
            assert('0' <= a[i + 1] <= '9');
        }
        lemma_digit_run(a.drop_first(), z);
    }
}

/// The number behind the word `ahead` is how many commits there are to push; a
/// head line without the word says nothing of them.
pub proof fn law_head_lines_count_what_is_ahead(
    before: GitState,
    a: Seq<char>,
    n: u32,
    z: Seq<char>,
)
    requires
        z.len() > 0 ==> !('0' <= z[0] <= '9'),
        forall|j: int|
            0 <= j < a.len() ==> !"ahead "@.is_prefix_of(
                #[trigger] (a + "ahead "@ + (text::digits_of(n as nat) + z)).skip(j),
            ),
    ensures
        git::with_line(
            before,
            "## "@ + (a + "ahead "@ + (text::digits_of(n as nat) + z)),
        ).ahead == n,
        !words::holds(a, "ahead "@) ==> git::with_line(before, "## "@ + a).ahead == before.ahead,
{
    reveal_strlit("## ");
    reveal_strlit("ahead ");
    assert("## "@.len() == 3);
    assert("ahead "@.len() == 6);
    let d = text::digits_of(n as nat);
    let head = a + "ahead "@ + (d + z);
    let line = "## "@ + head;
    assert(text::starts_with(line, "## "@)) by {
        assert(line.subrange(0, 3) =~= "## "@);
    }
    assert(line.skip(3) =~= head);
    assert(head.skip(a.len() as int) =~= "ahead "@ + (d + z));
    assert("ahead "@ =~= ("ahead "@ + (d + z)).subrange(0, 6));
    lemma_first_is(head, "ahead "@, a.len() as int);
    assert(head.skip(a.len() as int + 6) =~= d + z);
    text::lemma_digits_read_back(n as nat);
    assert forall|i: int| 0 <= i < d.len() implies '0' <= #[trigger] d[i] <= '9' by {
        assert(text::is_digit(d[i]));
    }
    lemma_digit_run(d, z);
    assert((d + z).take(d.len() as int) =~= d);
    text::law_numbers_read_back(n as u64);
    let plain = "## "@ + a;
    assert(text::starts_with(plain, "## "@)) by {
        assert(plain.subrange(0, 3) =~= "## "@);
    }
    assert(plain.skip(3) =~= a);
    words::law_found_where_it_stands(a, "ahead "@);
}

proof fn lemma_count(a: Seq<char>, n: u64, z: Seq<char>)
    requires
        words::is_blank(a),
    ensures
        git::count_of(a + (text::digits_of(n as nat) + seq![' '] + z)) == n,
{
    let d = text::digits_of(n as nat);
    let u = d + seq![' '] + z;
    let part = a + u;
    text::lemma_digits_read_back(n as nat);
    assert forall|i: int| 0 <= i < d.len() implies '0' <= #[trigger] d[i] <= '9' by {
        assert(text::is_digit(d[i]));
    }
    assert(u[0] == d[0]);
    lemma_trim_blanks(a, u);
    words::lemma_trim_end(u);
    let t = unicode::trimmed(part);
    assert(t == unicode::trim_end(u));
    let m = t.len() as int;
    if m < d.len() {
        assert(u.skip(m)[d.len() - 1 - m] == d[d.len() - 1]);
        assert('0' <= d[d.len() - 1] <= '9');
    }
    assert(!d.contains(' ')) by {
        if d.contains(' ') {
            let i = choose|i: int| 0 <= i < d.len() && d[i] == ' ';
            assert('0' <= d[i] <= '9');
        }
    }
    let b = t.skip(d.len() as int);
    assert(t =~= d + b) by {
        assert(t == u.take(m));
    }
    if b.len() > 0 {
        assert(b[0] == t[d.len() as int]);
        assert(t[d.len() as int] == u[d.len() as int]);
    }
    words::lemma_position_is(d, b, ' ');
    assert(t.take(d.len() as int) =~= d);
    text::law_numbers_read_back(n);
}

proof fn lemma_trim_blanks(a: Seq<char>, u: Seq<char>)
    requires
        words::is_blank(a),
        u.len() > 0,
        !unicode::whitespace(u[0]),
    ensures
        unicode::trim_start(a + u) == u,
    decreases a.len(),
{
    if a.len() == 0 {
        assert(a + u =~= u);
    } else {
        assert(unicode::whitespace(a[0]));
        assert((a + u).drop_first() =~= a.drop_first() + u);
        assert forall|i: int| 0 <= i < a.len() - 1 implies unicode::whitespace(
            #[trigger] a.drop_first()[i],
        ) by {
            assert(unicode::whitespace(a[i + 1]));
        }
        lemma_trim_blanks(a.drop_first(), u);
    }
}

/// A part of the short statistic that tells of insertions sets how many lines were
/// added, one that tells of deletions how many were taken out, to the number that
/// it begins with; other parts set neither.
pub proof fn law_statistics_count_lines(
    parts: Seq<Seq<char>>,
    a: Seq<char>,
    n: u64,
    z: Seq<char>,
    plus: u64,
    minus: u64,
)
    requires
        words::is_blank(a),
    ensures
        ({
            let part = a + (text::digits_of(n as nat) + seq![' '] + z);
            let (p, m) = git::counts_of(parts, plus, minus);
            let after = git::counts_of(parts.push(part), plus, minus);
            &&& words::holds(part, "insertion"@) ==> after == (n, m)
            &&& !words::holds(part, "insertion"@) && words::holds(part, "deletion"@) ==> after == (
                p,
                n,
            )
            &&& !words::holds(part, "insertion"@) && !words::holds(part, "deletion"@) ==> after == (
                p,
                m,
            )
        }),
        git::counts_of(Seq::empty(), plus, minus) == (plus, minus),
{
    let part = a + (text::digits_of(n as nat) + seq![' '] + z);
    lemma_count(a, n, z);
    words::law_found_where_it_stands(part, "insertion"@);
    words::law_found_where_it_stands(part, "deletion"@);
    assert(parts.push(part).drop_last() =~= parts);
}

/// Staging, committing and pushing are on offer exactly while no operation runs and
/// there is something to stage, to commit, or to push.
pub proof fn law_buttons_offer_what_there_is(g: GitState, busy: bool)
    ensures
        git::can_stage(Some(g), busy) <==> !busy && exists|i: int|
            0 <= i < g.unstaged.len() && #[trigger] g.unstaged[i] == g.unstaged[i],
        git::can_commit(Some(g), busy) <==> !busy && exists|i: int|
            0 <= i < g.staged.len() && #[trigger] g.staged[i] == g.staged[i],
        git::can_push(Some(g), busy) <==> !busy && g.ahead != 0,
{
    if g.unstaged.len() > 0 {
        assert(g.unstaged[0] == g.unstaged[0]);
    }
    if g.staged.len() > 0 {
        assert(g.staged[0] == g.staged[0]);
    }
}

/// What an operation complains of is its first line that is not blank.
pub proof fn law_first_complaint_counts(blank: Seq<char>, line: Seq<char>, rest: Seq<Seq<char>>)
    requires
        words::is_blank(blank),
        !words::is_blank(line),
    ensures
        git::first_line(Seq::empty()) is None,
        git::first_line(seq![blank] + rest) == git::first_line(rest),
        git::first_line(seq![line] + rest) == Some(line),
{
    let (a, b) = (seq![blank] + rest, seq![line] + rest);
    assert(a[0] == blank && b[0] == line);
    assert(a.drop_first() =~= rest);
    words::lemma_blank(blank);
    words::lemma_blank(line);
}

} // verus!
