//! Searching the command palette and running what is found.

use vstd::prelude::*;

use crate::display::command_palette;
use crate::display::command_palette::{PaletteAction, PaletteState, ITEM_COUNT};
use crate::order;
use crate::unicode;

verus! {

/// Whether, among numbers that tie, the smaller one stands in front.
spec fn ties_rise(s: Seq<usize>, before: spec_fn(usize, usize) -> bool) -> bool {
    forall|i: int, j: int|
        0 <= i < j < s.len() ==> before(#[trigger] s[i], #[trigger] s[j]) || s[i] < s[j]
}

proof fn lemma_insert_rises(s: Seq<usize>, x: usize, before: spec_fn(usize, usize) -> bool)
    requires
        ties_rise(s, before),
        forall|k: int| 0 <= k < s.len() ==> #[trigger] s[k] < x,
    ensures
        ties_rise(order::insert(s, x, before), before),
        order::insert(s, x, before).len() == s.len() + 1,
        forall|k: int|
            0 <= k < s.len() + 1 ==> #[trigger] order::insert(s, x, before)[k] <= x && (
            order::insert(s, x, before)[k] == x || s.contains(order::insert(s, x, before)[k])),
    decreases s.len(),
{
    let out = order::insert(s, x, before);
    if s.len() == 0 || !before(x, s.last()) {
        assert forall|k: int| 0 <= k < out.len() implies #[trigger] out[k] <= x && (out[k] == x
            || s.contains(out[k])) by {
            if k < s.len() {
                assert(out[k] == s[k]);
            }
        }
    } else {
        let front = s.drop_last();
        assert forall|k: int| 0 <= k < front.len() implies #[trigger] front[k] < x by {
            assert(front[k] == s[k]);
        }
        lemma_insert_rises(front, x, before);
        let inner = order::insert(front, x, before);
        assert(out == inner.push(s.last()));
        assert forall|i: int, j: int| 0 <= i < j < out.len() implies before(
            #[trigger] out[i],
            #[trigger] out[j],
        ) || out[i] < out[j] by {
            if j == inner.len() {
                assert(out[i] == inner[i]);
                if inner[i] != x {
                    assert(front.contains(inner[i]));
                    let k = choose|k: int| 0 <= k < front.len() && front[k] == inner[i];
                    assert(s[k] == inner[i]);
                    assert(s[s.len() - 1] == s.last());
                }
            } else {
                assert(out[i] == inner[i] && out[j] == inner[j]);
            }
        }
        assert forall|k: int| 0 <= k < out.len() implies #[trigger] out[k] <= x && (out[k] == x
            || s.contains(out[k])) by {
            if k < inner.len() {
                assert(out[k] == inner[k]);
                if inner[k] != x {
                    assert(front.contains(inner[k]));
                    let m = choose|m: int| 0 <= m < front.len() && front[m] == inner[k];
                    assert(s[m] == inner[k]);
                }
            } else {
                assert(s[s.len() - 1] == out[k]);
            }
        }
    }
}

proof fn lemma_sort_rises(s: Seq<usize>, before: spec_fn(usize, usize) -> bool)
    requires
        forall|i: int, j: int| 0 <= i < j < s.len() ==> #[trigger] s[i] < #[trigger] s[j],
    ensures
        ties_rise(order::sort(s, before), before),
        forall|k: int|
            0 <= k < order::sort(s, before).len() ==> s.contains(
                #[trigger] order::sort(s, before)[k],
            ),
        order::sort(s, before).len() == s.len(),
    decreases s.len(),
{
    if s.len() > 0 {
        let front = s.drop_last();
        assert forall|i: int, j: int| 0 <= i < j < front.len() implies #[trigger] front[i]
            < #[trigger] front[j] by {
            assert(s[i] < s[j]);
        }
        lemma_sort_rises(front, before);
        let done = order::sort(front, before);
        assert forall|k: int| 0 <= k < done.len() implies #[trigger] done[k] < s.last() by {
            assert(front.contains(done[k]));
            let m = choose|m: int| 0 <= m < front.len() && front[m] == done[k];
            assert(s[m] < s[s.len() - 1]);
        }
        lemma_insert_rises(done, s.last(), before);
        let out = order::sort(s, before);
        assert forall|k: int| 0 <= k < out.len() implies s.contains(#[trigger] out[k]) by {
            if out[k] != s.last() {
                assert(done.contains(out[k]));
                let m = choose|m: int| 0 <= m < done.len() && done[m] == out[k];
                assert(front.contains(done[m]));
                let n = choose|n: int| 0 <= n < front.len() && front[n] == done[m];
                assert(s[n] == out[k]);
            } else {
                assert(s[s.len() - 1] == out[k]);
            }
        }
    }
}

proof fn lemma_listing(state: PaletteState, i: int, j: int)
    requires
        state.row_count() <= usize::MAX,
        0 <= i < j < state.listing().len(),
    ensures
        ({
            let (a, b) = (state.listing()[i], state.listing()[j]);
            &&& state.key(a) < state.key(b) || (state.key(a) == state.key(b) && a < b)
            &&& state.matches(a)
            &&& state.matches(b)
            &&& a != b
        }),
{
    let scope = state.scope();
    let before = |a: usize, b: usize| scope.key(a) < scope.key(b);
    let rows = scope.rows_below(scope.row_count());
    command_palette::lemma_rows(scope, scope.row_count());
    lemma_sort_rises(rows, before);
    command_palette::law_listing_is_ordered(state, i, j);
    command_palette::law_listing_holds_the_matching_rows_once(state);
    let list = state.listing();
    assert(list.contains(list[i]) && list.contains(list[j]));
    assert(before(list[i], list[j]) || list[i] < list[j]);
}

/// With a query, the best match stands first: every row scores at least as well as
/// the rows behind it, and among equals the one that is declared first is in front.
pub proof fn law_best_match_leads(state: PaletteState, i: int, j: int)
    requires
        state.row_count() <= usize::MAX,
        unicode::trimmed(state.query).len() > 0,
        0 <= i < j < state.listing().len(),
    ensures
        ({
            let query = unicode::trimmed(state.query);
            let (a, b) = (state.listing()[i], state.listing()[j]);
            let score_a = command_palette::fuzzy(query, state.search_text(a));
            let score_b = command_palette::fuzzy(query, state.search_text(b));
            &&& score_a is Some
            &&& score_b is Some
            &&& score_a->0 > score_b->0 || (score_a->0 == score_b->0 && a < b)
        }),
{
    lemma_listing(state, i, j);
}

/// With a query, exactly the rows are listed in whose texts it is found, each once:
/// the built-in actions, unless only profiles are asked for, and the profiles.
pub proof fn law_every_match_is_listed(state: PaletteState, row: usize)
    requires
        state.row_count() <= usize::MAX,
        unicode::trimmed(state.query).len() > 0,
    ensures
        state.listing().no_duplicates(),
        state.listing().contains(row) <==> {
            &&& row < ITEM_COUNT + state.profiles.len()
            &&& !(state.profiles_only && row < ITEM_COUNT)
            &&& command_palette::fuzzy(
                unicode::trimmed(state.query),
                if row < ITEM_COUNT {
                    command_palette::row(row as int).search
                } else {
                    state.profiles[row - ITEM_COUNT].1
                },
            ) is Some
        },
{
    command_palette::law_listing_holds_the_matching_rows_once(state);
}

/// Without a query, what was run last stands first, then the other actions that
/// were run, the more recent one in front, and then the rest as it is declared.
pub proof fn law_recent_actions_lead(state: PaletteState, i: int, j: int)
    requires
        state.row_count() <= usize::MAX,
        state.recent.len() < usize::MAX,
        unicode::trimmed(state.query).len() == 0,
        0 <= i < j < state.listing().len(),
    ensures
        ({
            let (a, b) = (state.listing()[i], state.listing()[j]);
            ||| !state.recent.contains(a) && !state.recent.contains(b) && a < b
            ||| state.recent.contains(a) && !state.recent.contains(b)
            ||| exists|p: int|
                0 <= p < state.recent.len() && #[trigger] state.recent[p] == a
                    && !state.recent.take(p).contains(b)
        }),
{
    lemma_listing(state, i, j);
    let (a, b) = (state.listing()[i], state.listing()[j]);
    lemma_recency(state.recent, a);
    lemma_recency(state.recent, b);
    if state.recent.contains(a) && state.recent.contains(b) {
        let p = command_palette::position_of(state.recent, a)->0;
        let q = command_palette::position_of(state.recent, b)->0;
        assert(p <= q);
        assert(state.recent[p] == a);
        if state.recent.take(p).contains(b) {
            let k = choose|k: int| 0 <= k < p && state.recent.take(p)[k] == b;
            assert(state.recent[k] == b);
        }
    }
}

proof fn lemma_recency(recent: Seq<usize>, x: usize)
    ensures
        match command_palette::position_of(recent, x) {
            Some(p) => 0 <= p < recent.len() && recent[p] == x && recent.contains(x) && forall|
                k: int,
            |
                0 <= k < p ==> #[trigger] recent[k] != x,
            None => !recent.contains(x),
        },
    decreases recent.len(),
{
    if recent.len() > 0 && recent[0] != x {
        let rest = recent.drop_first();
        lemma_recency(rest, x);
        match command_palette::position_of(rest, x) {
            Some(p) => {
                assert(recent[p + 1] == x);
                assert forall|k: int| 0 <= k < p + 1 implies #[trigger] recent[k] != x by {
                    if k > 0 {
                        assert(rest[k - 1] == recent[k]);
                    }
                }
            },
            None => {
                if recent.contains(x) {
                    let k = choose|k: int| 0 <= k < recent.len() && recent[k] == x;
                    assert(rest[k - 1] == x);
                }
            },
        }
    }
}

/// What is run goes to the front of the recent actions, and leaves its old place;
/// the others keep their order, and six are remembered.
pub proof fn law_what_is_run_is_remembered(state: PaletteState, x: usize)
    ensures
        ({
            let all = seq![x] + state.recent.filter(|r: usize| r != x);
            let after = state.recorded(x).recent;
            &&& after.is_prefix_of(all)
            &&& after.len() == if all.len() > 6 {
                6nat
            } else {
                all.len()
            }
        }),
{
    lemma_without_is_filter(state.recent, x);
}

proof fn lemma_without_is_filter(recent: Seq<usize>, x: usize)
    ensures
        command_palette::without(recent, x) == recent.filter(|r: usize| r != x),
    decreases recent.len(),
{
    reveal(Seq::filter);
    if recent.len() > 0 {
        lemma_without_is_filter(recent.drop_last(), x);
    } else {
        assert(command_palette::without(recent, x) =~= recent.filter(|r: usize| r != x));
    }
}

/// What a row stands for.
pub open spec fn action_of(row: usize) -> PaletteAction {
    if row < ITEM_COUNT {
        command_palette::row(row as int).action
    } else {
        PaletteAction::LaunchProfile((row - ITEM_COUNT) as usize)
    }
}

/// Right after typing, confirming runs the first row of the list, closes the
/// palette, and remembers the row unless it is a profile.
pub proof fn law_typing_and_confirming_runs_the_first(state: PaletteState, c: char)
    requires
        !unicode::control(c),
    ensures
        ({
            let typed = state.typed(c);
            let list = PaletteState { query: state.query.push(c), ..state }.listing();
            &&& typed.query == state.query.push(c)
            &&& typed.filtered == list
            &&& list.len() > 0 ==> typed.chosen() == Some(action_of(list[0]))
                && !typed.confirmed().open
            &&& list.len() == 0 ==> typed.chosen() is None && typed.confirmed() == typed
            &&& list.len() > 0 && list[0] >= ITEM_COUNT ==> typed.confirmed().recent
                == state.recent
            &&& list.len() > 0 && list[0] < ITEM_COUNT ==> typed.confirmed().recent.len() > 0
                && typed.confirmed().recent[0] == list[0]
        }),
{
}

/// Whether a needle stands in a text at the earliest places: each of its
/// characters at the first one behind the place of the character before it.
pub open spec fn is_earliest(needle: Seq<char>, hay: Seq<char>, at: Seq<int>) -> bool {
    &&& at.len() == needle.len()
    &&& forall|k: int| 0 <= k < at.len() ==> is_next(needle, hay, at, k)
}

/// Whether the `k`th character stands at the first place behind the one before it.
pub open spec fn is_next(needle: Seq<char>, hay: Seq<char>, at: Seq<int>, k: int) -> bool {
    let from = if k == 0 {
        0
    } else {
        at[k - 1] + 1
    };
    &&& from <= at[k] < hay.len()
    &&& hay[at[k]] == needle[k]
    &&& forall|p: int| from <= p < at[k] ==> #[trigger] hay[p] != needle[k]
}

/// How many matched characters stand right in front of the `k`th, without a gap.
pub open spec fn run_before(at: Seq<int>, k: int) -> int
    decreases k,
{
    if k <= 0 || at[k - 1] + 1 != at[k] {
        0
    } else {
        run_before(at, k - 1) + 1
    }
}

/// What the `k`th matched character is worth: one point, five more for each one
/// right in front of it, and four more at the start of a word.
pub open spec fn worth(hay: Seq<char>, at: Seq<int>, k: int) -> int {
    1 + 5 * run_before(at, k) + if at[k] == 0 || !unicode::alphanumeric(hay[at[k] - 1]) {
        4int
    } else {
        0int
    }
}

/// What the matched characters from the `k`th on are worth.
pub open spec fn worth_from(hay: Seq<char>, at: Seq<int>, k: int) -> int
    decreases at.len() - k,
{
    if k >= at.len() {
        0
    } else {
        worth(hay, at, k) + worth_from(hay, at, k + 1)
    }
}

/// A query scores what its characters are worth at their earliest places, as far
/// as the score can be counted.
pub proof fn law_scores_reward_runs_and_word_starts(needle: Seq<char>, hay: Seq<char>)
    requires
        command_palette::score_of(needle, hay) is Some,
    ensures
        exists|at: Seq<int>|
            #[trigger] is_earliest(needle, hay, at) && command_palette::score_of(needle, hay)
                == Some(
                if worth_from(hay, at, 0) > i32::MAX {
                    i32::MAX as int
                } else {
                    worth_from(hay, at, 0)
                },
            ),
{
    assert(hay.skip(0) =~= hay);
    let at = lemma_greedy_worth(needle, hay, 0, Seq::empty(), 0, ' ');
    assert(is_earliest(needle, hay, at));
}

proof fn lemma_run_of_prefix(a: Seq<int>, b: Seq<int>, k: int)
    requires
        k < a.len() <= b.len(),
        b.take(a.len() as int) == a,
    ensures
        run_before(b, k) == run_before(a, k),
    decreases k,
{
    if k > 0 {
        assert(b.take(a.len() as int)[k] == b[k]);
        assert(b.take(a.len() as int)[k - 1] == b[k - 1]);
        lemma_run_of_prefix(a, b, k - 1);
    }
}

proof fn lemma_greedy_worth(
    needle: Seq<char>,
    hay: Seq<char>,
    p: int,
    front: Seq<int>,
    run: int,
    prev: char,
) -> (at: Seq<int>)
    requires
        0 <= p <= hay.len(),
        front.len() <= needle.len(),
        forall|k: int| 0 <= k < front.len() ==> is_next(needle, hay, front, k),
        front.len() > 0 ==> front.last() < p,
        front.len() < needle.len() ==> forall|q: int|
            (if front.len() == 0 {
                0
            } else {
                front.last() + 1
            }) <= q < p ==> #[trigger] hay[q] != needle[front.len() as int],
        run == if front.len() > 0 && front.last() == p - 1 {
            run_before(front, front.len() - 1) + 1
        } else {
            0
        },
        prev == if p == 0 {
            ' '
        } else {
            hay[p - 1]
        },
        command_palette::greedy(needle, hay.skip(p), front.len() as int, run, prev).1
            == needle.len(),
    ensures
        is_earliest(needle, hay, at),
        at.take(front.len() as int) == front,
        command_palette::greedy(needle, hay.skip(p), front.len() as int, run, prev).0
            == worth_from(hay, at, front.len() as int),
    decreases hay.len() - p,
{
    let next = front.len() as int;
    if p == hay.len() {
        assert(front.take(next) =~= front);
        front
    } else {
        let tail = hay.skip(p);
        assert(tail[0] == hay[p]);
        assert(tail.drop_first() =~= hay.skip(p + 1));
        if next < needle.len() && hay[p] == needle[next] {
            let longer = front.push(p);
            assert forall|k: int| 0 <= k < longer.len() implies is_next(
                needle,
                hay,
                longer,
                k,
            ) by {
                if k < front.len() {
                    assert(is_next(needle, hay, front, k));
                }
            }
            assert(longer.take(next) =~= front);
            if next > 0 {
                lemma_run_of_prefix(front, longer, next - 1);
            }
            let at = lemma_greedy_worth(needle, hay, p + 1, longer, run + 1, hay[p]);
            assert(at.take(next) =~= at.take(next + 1).take(next));
            assert(at[next] == at.take(next + 1)[next]);
            lemma_run_of_prefix(longer, at, next);
            at
        } else {
            lemma_greedy_worth(needle, hay, p + 1, front, 0, hay[p])
        }
    }
}

/// The palette opens with an empty query, the first row selected; erasing takes off
/// the last character of the query, and the list follows it each time.
pub proof fn law_palette_opens_empty(state: PaletteState, profiles_only: bool)
    ensures
        state.opened(profiles_only).open,
        state.opened(profiles_only).query.len() == 0,
        state.opened(profiles_only).selected == 0,
        state.opened(profiles_only).profiles_only == profiles_only,
        state.opened(profiles_only).recent == state.recent,
        state.opened(profiles_only).filtered == state.opened(profiles_only).listing(),
        state.query.len() > 0 ==> state.erased().query == state.query.drop_last(),
        state.query.len() == 0 ==> state.erased().query == state.query,
        state.erased().selected == 0,
        state.erased().filtered == state.erased().listing(),
        !state.closed().open,
        state.closed().recent == state.recent,
{
    let o = PaletteState { open: true, profiles_only, query: Seq::empty(), ..state };
    assert(o.refiltered().scope() == o.scope());
    let e = state.erased();
    let before = PaletteState { query: e.query, ..state };
    assert(e.scope() == before.scope());
}

/// The selection goes up and down by rows, from the last to the first and back.
pub proof fn law_selection_goes_round(state: PaletteState)
    requires
        state.selected < state.filtered.len() <= usize::MAX,
    ensures
        state.selected + 1 < state.filtered.len() ==> state.moved(1).selected == state.selected + 1,
        state.selected + 1 == state.filtered.len() ==> state.moved(1).selected == 0,
        state.selected > 0 ==> state.moved(-1).selected == state.selected - 1,
        state.selected == 0 ==> state.moved(-1).selected == state.filtered.len() - 1,
        state.moved(1).filtered == state.filtered,
{
    let n = state.filtered.len() as int;
    let at = state.selected as int;
    if at + 1 < n {
        vstd::arithmetic::div_mod::lemma_small_mod((at + 1) as nat, n as nat);
    } else {
        vstd::arithmetic::div_mod::lemma_mod_self_0(n);
    }
    if at > 0 {
        vstd::arithmetic::div_mod::lemma_small_mod((at - 1) as nat, n as nat);
    } else {
        vstd::arithmetic::div_mod::lemma_mod_add_multiples_vanish(-1, n);
        vstd::arithmetic::div_mod::lemma_small_mod((n - 1) as nat, n as nat);
        assert(n + -1 == n - 1);
    }
}

/// The rows that are seen always hold the selected one: the list stands at its top
/// until the selection goes past the room, and then ends with it.
pub proof fn law_selected_row_is_seen(state: PaletteState, room: usize)
    requires
        state.selected < state.filtered.len(),
        room > 0,
    ensures
        ({
            let seen = state.window(room);
            let start = state.window_start(room);
            &&& 0 <= start <= state.selected < start + seen.len()
            &&& seen.len() <= room
            &&& seen[state.selected - start] == state.filtered[state.selected as int]
            &&& state.selected < room ==> start == 0
            &&& state.selected >= room ==> start + room == state.selected + 1
            &&& seen.len() == room || start + seen.len() == state.filtered.len()
        }),
{
}

/// A profile is shown by its name, and found by its own text.
pub proof fn law_profiles_show_their_name(state: PaletteState, k: int)
    requires
        0 <= k < state.profiles.len(),
        ITEM_COUNT + k <= usize::MAX,
    ensures
        state.row_text((ITEM_COUNT + k) as usize) == (
            state.profiles[k].0,
            Seq::<char>::empty(),
        ),
        state.search_text((ITEM_COUNT + k) as usize) == state.profiles[k].1,
{
}

} // verus!
