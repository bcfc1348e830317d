//! Browsing and filtering the files of a project.

use vstd::prelude::*;

use crate::display::side_panel::panel;
use crate::display::side_panel::panel::{PanelState, Rebuilt};
use crate::display::side_panel::tree;
use crate::display::side_panel::tree::{Entry, EntryKind, Listing, Row, Scan, Walk};
use crate::laws::words;
use crate::order;
use crate::text;
use crate::unicode;

verus! {

/// What was read of a directory is what its first listing says.
pub proof fn law_first_listing_counts(l: Seq<Listing>, dir: Seq<char>)
    ensures
        match tree::lookup(l, dir) {
            Some(entries) => exists|i: int|
                0 <= i < l.len() && (#[trigger] l[i]).dir == dir && l[i].entries == entries
                    && forall|j: int| 0 <= j < i ==> (#[trigger] l[j]).dir != dir,
            None => forall|j: int| 0 <= j < l.len() ==> (#[trigger] l[j]).dir != dir,
        },
    decreases l.len(),
{
    if l.len() > 0 {
        let rest = l.drop_first();
        if l[0].dir == dir {
            assert(l[0].entries == tree::lookup(l, dir)->0);
        } else {
            law_first_listing_counts(rest, dir);
            match tree::lookup(rest, dir) {
                Some(entries) => {
                    let i = choose|i: int|
                        0 <= i < rest.len() && (#[trigger] rest[i]).dir == dir && rest[i].entries
                            == entries && forall|j: int|
                            0 <= j < i ==> (#[trigger] rest[j]).dir != dir;
                    assert(l[i + 1] == rest[i]);
                    assert forall|j: int| 0 <= j < i + 1 implies (#[trigger] l[j]).dir != dir by {
                        if j > 0 {
                            assert(l[j] == rest[j - 1]);
                        }
                    }
                },
                None => {
                    assert forall|j: int| 0 <= j < l.len() implies (#[trigger] l[j]).dir != dir by {
                        if j > 0 {
                            assert(l[j] == rest[j - 1]);
                        }
                    }
                },
            }
        }
    }
}

/// A filter finds every row whose name holds the query anywhere, in the order of
/// the index, and no other; only the number of rows is limited.
pub proof fn law_filter_finds_what_holds_the_query(index: Seq<Row>, needle: Seq<char>)
    ensures
        ({
            let all = index.filter(|r: Row| words::holds(unicode::lower_text(r.name), needle));
            let found = tree::filtered(index, needle);
            &&& found.is_prefix_of(all)
            &&& found.len() == if all.len() > 400 {
                400nat
            } else {
                all.len()
            }
        }),
{
    lemma_same_filter(index, needle);
}

proof fn lemma_same_filter(index: Seq<Row>, needle: Seq<char>)
    ensures
        index.filter(|r: Row| words::holds(unicode::lower_text(r.name), needle)) == index.filter(
            |r: Row| tree::matches_filter(r, needle),
        ),
    decreases index.len(),
{
    reveal(Seq::filter);
    if index.len() > 0 {
        lemma_same_filter(index.drop_last(), needle);
        words::law_found_where_it_stands(unicode::lower_text(index.last().name), needle);
    } else {
        assert(index.filter(|r: Row| words::holds(unicode::lower_text(r.name), needle))
            =~= index.filter(|r: Row| tree::matches_filter(r, needle)));
    }
}

/// While a query is typed, the rows are those that the filter finds for it, without
/// its outer white space and in lower case; else they are the tree. Without a root
/// there are none.
pub proof fn law_rows_follow_the_query(p: PanelState, l: Seq<Listing>, index: Seq<Row>)
    requires
        p.search_index == Some(index),
    ensures
        ({
            let query = unicode::lower_text(unicode::trimmed(p.search));
            match panel::rebuilt(p, l) {
                Rebuilt::Done(after) => match p.root {
                    None => after.rows == Seq::<Row>::empty(),
                    Some(root) => if query.len() > 0 {
                        after.rows == tree::filtered(index, query)
                    } else {
                        tree::flatten(l, p.expanded, root, 0, 400) == Walk::Rows(after.rows)
                    },
                },
                Rebuilt::Missing(dir) => query.len() == 0 && p.root is Some && tree::flatten(
                    l,
                    p.expanded,
                    p.root->0,
                    0,
                    400,
                ) == Walk::Missing(dir),
            }
        }),
{
}

/// Whether an entry of a directory is shown.
pub open spec fn is_shown(e: Entry) -> bool {
    e.name != ".git"@ && (e.kind is Symlink || e.kind is Dir || e.kind is File)
}

/// Of the first 200 entries of a directory, all are shown but the repository's own
/// directory and what could not be looked at: each once.
pub proof fn law_directories_show_their_entries(entries: Seq<Entry>)
    ensures
        ({
            let head = entries.take(
                if entries.len() > 200 {
                    200int
                } else {
                    entries.len() as int
                },
            );
            &&& tree::arranged(entries).to_multiset() == head.filter(
                |e: Entry| is_shown(e),
            ).to_multiset()
        }),
{
    let head = if entries.len() > 200 {
        entries.take(200)
    } else {
        entries
    };
    assert(entries.take(entries.len() as int) =~= entries);
    assert(forall|e: Entry| #[trigger] is_shown(e) <==> tree::has_row(e));
    lemma_same_shown(head);
    order::lemma_sort_keeps(
        head.filter(|e: Entry| tree::has_row(e)),
        |a: Entry, b: Entry| tree::goes_before(a, b),
    );
}

proof fn lemma_same_shown(s: Seq<Entry>)
    ensures
        s.filter(|e: Entry| is_shown(e)) == s.filter(|e: Entry| tree::has_row(e)),
    decreases s.len(),
{
    reveal(Seq::filter);
    if s.len() > 0 {
        lemma_same_shown(s.drop_last());
    } else {
        assert(s.filter(|e: Entry| is_shown(e)) =~= s.filter(|e: Entry| tree::has_row(e)));
    }
}

/// Directories stand in front of everything else, and among their like the names
/// are in the order of a dictionary, whatever their case.
pub proof fn law_entries_are_in_order(entries: Seq<Entry>, i: int, j: int)
    requires
        0 <= i < j < tree::arranged(entries).len(),
    ensures
        ({
            let (a, b) = (tree::arranged(entries)[i], tree::arranged(entries)[j]);
            &&& b.kind is Dir ==> a.kind is Dir
            &&& (a.kind is Dir <==> b.kind is Dir) ==> !text::lex_lt(
                unicode::lower_text(b.name),
                unicode::lower_text(a.name),
            )
        }),
{
    tree::law_directories_come_first(entries);
    let before = |a: Entry, b: Entry| tree::goes_before(a, b);
    assert(!before(tree::arranged(entries)[j], tree::arranged(entries)[i]));
}

/// Whether a row is that of an entry, at a depth.
pub open spec fn is_row_of(row: Row, e: Entry, depth: nat, expanded: Set<Seq<char>>) -> bool {
    &&& row.path == e.path
    &&& row.name == e.name
    &&& row.depth == depth
    &&& row.is_dir == (e.kind is Dir)
    &&& row.expanded == (e.kind is Dir && expanded.contains(e.path))
}

/// Whether rows hold the row of an entry and, where it is an expanded directory,
/// right behind it the rows of what is in it, one level deeper.
pub open spec fn shows(
    rows: Seq<Row>,
    l: Seq<Listing>,
    expanded: Set<Seq<char>>,
    e: Entry,
    depth: nat,
) -> bool {
    exists|p: int, below: Seq<Row>| #[trigger] shows_at(rows, l, expanded, e, depth, p, below)
}

pub open spec fn shows_at(
    rows: Seq<Row>,
    l: Seq<Listing>,
    expanded: Set<Seq<char>>,
    e: Entry,
    depth: nat,
    p: int,
    below: Seq<Row>,
) -> bool {
    &&& 0 <= p
    &&& p + 1 + below.len() <= rows.len()
    &&& is_row_of(rows[p], e, depth, expanded)
    &&& rows.subrange(p + 1, p + 1 + below.len()) == below
    &&& if rows[p].expanded {
        is_tree(below, l, expanded, e.path, depth + 1)
    } else {
        below.len() == 0
    }
}

/// Whether rows are the whole tree of a directory, with room to spare.
pub open spec fn is_tree(
    rows: Seq<Row>,
    l: Seq<Listing>,
    expanded: Set<Seq<char>>,
    dir: Seq<char>,
    depth: nat,
) -> bool {
    exists|room: nat|
        rows.len() < room && #[trigger] tree::flatten(l, expanded, dir, depth, room)
            == Walk::Rows(rows)
}

/// The tree of a directory has a row for each entry that is shown, with the rows of
/// an expanded directory right behind its own.
pub proof fn law_expanded_directories_are_followed(
    rows: Seq<Row>,
    l: Seq<Listing>,
    expanded: Set<Seq<char>>,
    dir: Seq<char>,
    depth: nat,
    entries: Seq<Entry>,
    i: int,
)
    requires
        is_tree(rows, l, expanded, dir, depth),
        tree::lookup(l, dir) == Some(Some(entries)),
        0 <= i < tree::arranged(entries).len(),
    ensures
        shows(rows, l, expanded, tree::arranged(entries)[i], depth),
{
    let room = choose|room: nat|
        rows.len() < room && #[trigger] tree::flatten(l, expanded, dir, depth, room)
            == Walk::Rows(rows);
    lemma_each_shows(l, expanded, tree::arranged(entries), depth, room, i);
}

proof fn lemma_each_shows(
    l: Seq<Listing>,
    expanded: Set<Seq<char>>,
    entries: Seq<Entry>,
    depth: nat,
    room: nat,
    i: int,
)
    requires
        tree::flatten_each(l, expanded, entries, depth, room) matches Walk::Rows(rows)
            && rows.len() < room,
        0 <= i < entries.len(),
    ensures
        shows(
            tree::flatten_each(l, expanded, entries, depth, room)->Rows_0,
            l,
            expanded,
            entries[i],
            depth,
        ),
    decreases entries.len(),
{
    let rows = tree::flatten_each(l, expanded, entries, depth, room)->Rows_0;
    let row = tree::row_of(entries[0], depth, expanded);
    let spare = (room - 1) as nat;
    let walk = if row.expanded {
        tree::flatten(l, expanded, entries[0].path, depth + 1, spare)
    } else {
        Walk::Rows(Seq::empty())
    };
    let below = walk->Rows_0;
    let left = tree::less(spare, below.len());
    let rest = tree::flatten_each(l, expanded, entries.drop_first(), depth, left);
    let tail = rest->Rows_0;
    assert(rows == seq![row] + below + tail);
    if i == 0 {
        assert(rows[0] == row);
        assert(rows.subrange(1, 1 + below.len() as int) =~= below);
        assert(shows_at(rows, l, expanded, entries[0], depth, 0, below));
    } else {
        assert(tail.len() < left);
        lemma_each_shows(l, expanded, entries.drop_first(), depth, left, i - 1);
        let (p, b) = choose|p: int, b: Seq<Row>| #[trigger]
            shows_at(tail, l, expanded, entries[i], depth, p, b);
        let q = p + 1 + below.len();
        assert(rows[q] == tail[p]);
        assert(rows.subrange(q + 1, q + 1 + b.len()) =~= tail.subrange(p + 1, p + 1 + b.len()));
        assert(shows_at(rows, l, expanded, entries[i], depth, q, b));
    }
}

/// Whether an entry is kept in the index of the filter.
pub open spec fn is_searched(e: Entry) -> bool {
    e.kind is File || (e.kind is Dir && !(e.name.len() > 0 && e.name[0] == '.') && e.name
        != "target"@ && e.name != "node_modules"@ && e.name != "build"@ && e.name != "trellis"@)
}

proof fn lemma_searched(e: Entry)
    ensures
        is_searched(e) <==> tree::is_indexed(e),
{
    reveal_strlit(".git");
    reveal_strlit(".cache");
    reveal_strlit(".gradle");
    assert(".git"@.len() == 4 && ".git"@[0] == '.');
    assert(".cache"@.len() == 6 && ".cache"@[0] == '.');
    assert(".gradle"@.len() == 7 && ".gradle"@[0] == '.');
}

/// The row of an entry in the index.
pub open spec fn searched_row(e: Entry) -> Row {
    Row { path: e.path, name: e.name, depth: 0, is_dir: e.kind is Dir, expanded: false }
}

/// Whether rows are the whole index of a directory, within the limits.
pub open spec fn is_index(rows: Seq<Row>, l: Seq<Listing>, dir: Seq<char>, depth: nat) -> bool {
    exists|room: nat, budget: nat, left: nat|
        rows.len() < room && left > 0 && #[trigger] is_scan(rows, l, dir, depth, room, budget, left)
}

pub open spec fn is_scan(
    rows: Seq<Row>,
    l: Seq<Listing>,
    dir: Seq<char>,
    depth: nat,
    room: nat,
    budget: nat,
    left: nat,
) -> bool {
    tree::scan(l, dir, depth, room, budget) == Scan::Rows(rows, left)
}

/// Whether rows hold the row of an entry and, where it is a directory, all that is
/// in the index of that, down to the eighth level.
pub open spec fn indexes(rows: Seq<Row>, l: Seq<Listing>, e: Entry, depth: nat) -> bool {
    &&& rows.contains(searched_row(e))
    &&& e.kind is Dir && depth < 8 ==> exists|below: Seq<Row>|
        #[trigger] is_index(below, l, e.path, depth + 1) && forall|k: int|
            0 <= k < below.len() ==> rows.contains(#[trigger] below[k])
}

/// The index of a directory holds every file and directory in it, at any depth down
/// to the eighth, but for hidden directories and the bulky ones.
pub proof fn law_index_goes_deep(
    rows: Seq<Row>,
    l: Seq<Listing>,
    dir: Seq<char>,
    depth: nat,
    entries: Seq<Entry>,
    i: int,
)
    requires
        depth <= 8,
        is_index(rows, l, dir, depth),
        tree::lookup(l, dir) == Some(Some(entries)),
        0 <= i < entries.len(),
        is_searched(entries[i]),
    ensures
        indexes(rows, l, entries[i], depth),
{
    let (room, budget, left) = choose|room: nat, budget: nat, left: nat|
        rows.len() < room && left > 0 && #[trigger] is_scan(
            rows,
            l,
            dir,
            depth,
            room,
            budget,
            left,
        );
    tree::law_index_is_bounded(l, dir, depth, room, budget);
    lemma_each_indexes(l, entries, depth, room, budget, i);
}

proof fn lemma_left_shrinks(l: Seq<Listing>, entries: Seq<Entry>, depth: nat, room: nat, budget: nat)
    ensures
        tree::scan_each(l, entries, depth, room, budget) matches Scan::Rows(_, left) ==> left
            <= budget,
    decreases entries.len(),
{
    if budget > 0 && room > 0 && entries.len() > 0 {
        let e = entries[0];
        let rest = entries.drop_first();
        let less_budget = (budget - 1) as nat;
        if !tree::is_indexed(e) {
            lemma_left_shrinks(l, rest, depth, room, less_budget);
        } else {
            let below = if e.kind == EntryKind::Dir && depth < tree::MAX_SEARCH_DEPTH {
                tree::law_index_is_bounded(
                    l,
                    e.path,
                    depth + 1,
                    (room - 1) as nat,
                    less_budget,
                );
                tree::scan(l, e.path, depth + 1, (room - 1) as nat, less_budget)
            } else {
                Scan::Rows(Seq::empty(), less_budget)
            };
            if let Scan::Rows(found, left) = below {
                lemma_left_shrinks(
                    l,
                    rest,
                    depth,
                    tree::less((room - 1) as nat, found.len()),
                    left,
                );
            }
        }
    }
}

proof fn lemma_each_indexes(
    l: Seq<Listing>,
    entries: Seq<Entry>,
    depth: nat,
    room: nat,
    budget: nat,
    i: int,
)
    requires
        depth <= 8,
        tree::scan_each(l, entries, depth, room, budget) matches Scan::Rows(rows, left)
            && rows.len() < room && left > 0,
        0 <= i < entries.len(),
        is_searched(entries[i]),
    ensures
        indexes(
            tree::scan_each(l, entries, depth, room, budget)->Rows_0,
            l,
            entries[i],
            depth,
        ),
    decreases entries.len(),
{
    let rows = tree::scan_each(l, entries, depth, room, budget)->Rows_0;
    lemma_left_shrinks(l, entries, depth, room, budget);
    let e = entries[0];
    let rest = entries.drop_first();
    let less_budget = (budget - 1) as nat;
    lemma_searched(e);
    if !tree::is_indexed(e) {
        lemma_each_indexes(l, rest, depth, room, less_budget, i - 1);
    } else {
        let spare = (room - 1) as nat;
        let scanned = if e.kind == EntryKind::Dir && depth < tree::MAX_SEARCH_DEPTH {
            tree::scan(l, e.path, depth + 1, spare, less_budget)
        } else {
            Scan::Rows(Seq::empty(), less_budget)
        };
        let (below, middle) = (scanned->Rows_0, scanned->Rows_1);
        let left = tree::less(spare, below.len());
        let tail = tree::scan_each(l, rest, depth, left, middle)->Rows_0;
        lemma_left_shrinks(l, rest, depth, left, middle);
        assert(rows == seq![tree::flat_row(e)] + below + tail);
        if i == 0 {
            assert(rows[0] == searched_row(e));
            if e.kind is Dir && depth < 8 {
                assert(is_scan(below, l, e.path, depth + 1, spare, less_budget, middle));
                assert(is_index(below, l, e.path, depth + 1));
                assert forall|k: int| 0 <= k < below.len() implies rows.contains(
                    #[trigger] below[k],
                ) by {
                    assert(rows[k + 1] == below[k]);
                }
            }
        } else {
            assert(tail.len() < left);
            lemma_each_indexes(l, rest, depth, left, middle, i - 1);
            lemma_part_of(rows, tail, 1 + below.len() as int);
            let x = entries[i];
            assert(rows.contains(searched_row(x)));
            if x.kind is Dir && depth < 8 {
                let b = choose|b: Seq<Row>|
                    #[trigger] is_index(b, l, x.path, depth + 1) && forall|k: int|
                        0 <= k < b.len() ==> tail.contains(#[trigger] b[k]);
                assert forall|k: int| 0 <= k < b.len() implies rows.contains(
                    #[trigger] b[k],
                ) by {
                    assert(tail.contains(b[k]));
                }
            }
        }
    }
}

proof fn lemma_part_of(rows: Seq<Row>, tail: Seq<Row>, n: int)
    requires
        0 <= n,
        rows.len() == n + tail.len(),
        forall|k: int| 0 <= k < tail.len() ==> rows[n + k] == #[trigger] tail[k],
    ensures
        forall|r: Row| #[trigger] tail.contains(r) ==> rows.contains(r),
{
    assert forall|r: Row| #[trigger] tail.contains(r) implies rows.contains(r) by {
        let k = choose|k: int| 0 <= k < tail.len() && tail[k] == r;
        assert(rows[n + k] == tail[k]);
    }
}

/// Whether a row of the index is that of an entry which was read and belongs there.
pub open spec fn is_from(row: Row, l: Seq<Listing>) -> bool {
    exists|i: int, k: int| #[trigger] is_from_at(row, l, i, k)
}

pub open spec fn is_from_at(row: Row, l: Seq<Listing>, i: int, k: int) -> bool {
    &&& 0 <= i < l.len()
    &&& l[i].entries matches Some(entries) && 0 <= k < entries.len() && is_searched(entries[k])
        && row == searched_row(entries[k])
}

/// Nothing else is in the index: no link, nothing hidden or bulky among the
/// directories, nothing that was not read.
pub proof fn law_index_holds_nothing_else(
    l: Seq<Listing>,
    dir: Seq<char>,
    depth: nat,
    room: nat,
    budget: nat,
)
    ensures
        tree::scan(l, dir, depth, room, budget) matches Scan::Rows(rows, _) ==> forall|k: int|
            0 <= k < rows.len() ==> is_from(#[trigger] rows[k], l),
    decreases tree::less(9, depth), 1int, 0int,
{
    if budget > 0 && depth <= tree::MAX_SEARCH_DEPTH && room > 0 {
        if let Some(Some(entries)) = tree::lookup(l, dir) {
            law_first_listing_counts(l, dir);
            let i = choose|i: int|
                0 <= i < l.len() && (#[trigger] l[i]).dir == dir && l[i].entries == Some(entries)
                    && forall|j: int| 0 <= j < i ==> (#[trigger] l[j]).dir != dir;
            assert(entries.skip(0) =~= entries);
            lemma_each_from(l, entries, 0, i, depth, room, budget);
        }
    }
}

proof fn lemma_each_from(
    l: Seq<Listing>,
    all: Seq<Entry>,
    from: int,
    i: int,
    depth: nat,
    room: nat,
    budget: nat,
)
    requires
        0 <= i < l.len(),
        l[i].entries == Some(all),
        0 <= from <= all.len(),
    ensures
        tree::scan_each(l, all.skip(from), depth, room, budget) matches Scan::Rows(rows, _)
            ==> forall|k: int| 0 <= k < rows.len() ==> is_from(#[trigger] rows[k], l),
    decreases tree::less(9, depth), 0int, all.len() - from,
{
    let entries = all.skip(from);
    if budget > 0 && room > 0 && entries.len() > 0 {
        let e = entries[0];
        let rest = entries.drop_first();
        assert(rest =~= all.skip(from + 1));
        let less_budget = (budget - 1) as nat;
        lemma_searched(e);
        if !tree::is_indexed(e) {
            lemma_each_from(l, all, from + 1, i, depth, room, less_budget);
        } else {
            let spare = (room - 1) as nat;
            let deep = e.kind == EntryKind::Dir && depth < tree::MAX_SEARCH_DEPTH;
            if deep {
                law_index_holds_nothing_else(l, e.path, depth + 1, spare, less_budget);
            }
            let scanned = if deep {
                tree::scan(l, e.path, depth + 1, spare, less_budget)
            } else {
                Scan::Rows(Seq::empty(), less_budget)
            };
            if let Scan::Rows(below, middle) = scanned {
                let left = tree::less(spare, below.len());
                lemma_each_from(l, all, from + 1, i, depth, left, middle);
                if let Scan::Rows(rows, _) = tree::scan_each(l, entries, depth, room, budget) {
                    let tail = tree::scan_each(l, rest, depth, left, middle)->Rows_0;
                    assert(rows == seq![tree::flat_row(e)] + below + tail);
                    assert forall|k: int| 0 <= k < rows.len() implies is_from(
                        #[trigger] rows[k],
                        l,
                    ) by {
                        if k == 0 {
                            assert(is_from_at(rows[0], l, i, from));
                        } else if k < 1 + below.len() {
                            assert(rows[k] == below[k - 1]);
                        } else {
                            assert(rows[k] == tail[k - 1 - below.len()]);
                        }
                    }
                }
            }
        }
    }
}

} // verus!
