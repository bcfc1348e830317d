//! The directory tree of the panel: flattening it into rows, and the flat index
//! that its filter searches.
//!
//! Nothing here reads the file system. The walks work on the listings that were
//! read so far ([`TreeSnapshot`]); where one is missing, they name the directory
//! to read next.

use vstd::prelude::*;

use crate::order;
use crate::text;
use crate::unicode;

verus! {

/// Hard cap on flattened tree rows, bounding both walking and rendering.
pub const MAX_ROWS: usize = 400;

/// Hard cap on entries listed per directory.
pub const MAX_PER_DIR: usize = 200;

/// Total directory entries the filter index may visit while being built. This
/// bounds the walk itself, not just the matches kept.
pub const SEARCH_VISIT_BUDGET: usize = 20_000;

/// Entries kept in the filter index.
pub const SEARCH_INDEX_CAP: usize = 10_000;

/// How many directories deep the filter index goes below the root.
pub const MAX_SEARCH_DEPTH: usize = 8;

/// What an entry of a directory is.
#[derive(Debug, Clone, Copy, PartialEq, Eq, Structural)]
pub enum EntryKind {
    /// It could not be found out.
    Unknown,
    Symlink,
    Dir,
    File,
}

/// An entry of a directory.
pub struct TreeEntry {
    pub name: String,
    pub path: String,
    pub kind: EntryKind,
}

/// A directory that was read: its entries, or nothing if it is unreadable.
pub struct TreeListing {
    pub dir: String,
    pub entries: Option<Vec<TreeEntry>>,
}

/// The directories that were read so far.
pub struct TreeSnapshot {
    pub listings: Vec<TreeListing>,
}

/// One flattened row of the directory tree.
#[derive(Debug)]
pub struct FileRow {
    pub path: String,
    pub name: String,
    pub depth: usize,
    pub is_dir: bool,
    pub expanded: bool,
}

/// An entry of a directory, as a value.
pub struct Entry {
    pub name: Seq<char>,
    pub path: Seq<char>,
    pub kind: EntryKind,
}

/// A row, as a value.
pub struct Row {
    pub path: Seq<char>,
    pub name: Seq<char>,
    pub depth: nat,
    pub is_dir: bool,
    pub expanded: bool,
}

/// A directory that was read, as a value.
pub struct Listing {
    pub dir: Seq<char>,
    pub entries: Option<Seq<Entry>>,
}

impl TreeEntry {
    pub open spec fn value(self) -> Entry {
        Entry { name: self.name@, path: self.path@, kind: self.kind }
    }
}

impl FileRow {
    pub open spec fn value(self) -> Row {
        Row {
            path: self.path@,
            name: self.name@,
            depth: self.depth as nat,
            is_dir: self.is_dir,
            expanded: self.expanded,
        }
    }
}

pub open spec fn entries_value(v: Seq<TreeEntry>) -> Seq<Entry> {
    v.map_values(|e: TreeEntry| e.value())
}

pub open spec fn rows_value(v: Seq<FileRow>) -> Seq<Row> {
    v.map_values(|r: FileRow| r.value())
}

impl TreeListing {
    pub open spec fn value(self) -> Listing {
        Listing {
            dir: self.dir@,
            entries: match self.entries {
                Some(v) => Some(entries_value(v@)),
                None => None,
            },
        }
    }
}

impl TreeSnapshot {
    pub open spec fn value(self) -> Seq<Listing> {
        self.listings@.map_values(|l: TreeListing| l.value())
    }
}

/// What was read of a directory, by its first listing.
pub open spec fn lookup(l: Seq<Listing>, dir: Seq<char>) -> Option<Option<Seq<Entry>>>
    decreases l.len(),
{
    if l.len() == 0 {
        None
    } else if l[0].dir == dir {
        Some(l[0].entries)
    } else {
        lookup(l.drop_first(), dir)
    }
}

impl TreeSnapshot {
    /// The position of the first listing of a directory.
    fn find(&self, dir: &str) -> (r: Option<usize>)
        ensures
            match r {
                Some(i) => i < self.listings@.len() && lookup(self.value(), dir@) == Some(
                    self.listings@[i as int].value().entries,
                ),
                None => lookup(self.value(), dir@) is None,
            },
    {
        let ghost all = self.value();
        let mut i: usize = 0;
        assert(all.skip(0) =~= all);
        while i < self.listings.len()
            invariant
                i <= self.listings@.len(),
                all == self.value(),
                lookup(all, dir@) == lookup(all.skip(i as int), dir@),
            decreases self.listings@.len() - i,
        {
            assert(all.skip(i as int)[0] == self.listings@[i as int].value());
            assert(all.skip(i as int).drop_first() =~= all.skip(i + 1));
            if text::str_eq(self.listings[i].dir.as_str(), dir) {
                return Some(i);
            }
            i += 1;
        }
        None
    }
}

/// `a` less `b`, but not below 0.
pub open spec fn less(a: nat, b: nat) -> nat {
    if b <= a {
        (a - b) as nat
    } else {
        0
    }
}

/// Whether an entry has a row: the repository's own directory is noise.
pub open spec fn has_row(e: Entry) -> bool {
    e.name != ".git"@ && e.kind != EntryKind::Unknown
}

/// Directories first, then alphabetical without regard to case.
pub open spec fn goes_before(a: Entry, b: Entry) -> bool {
    let (da, db) = (a.kind == EntryKind::Dir, b.kind == EntryKind::Dir);
    (da && !db) || (da == db && text::lex_lt(
        unicode::lower_text(a.name),
        unicode::lower_text(b.name),
    ))
}

/// The entries that are shown of a directory, in the order of their rows.
pub open spec fn arranged(entries: Seq<Entry>) -> Seq<Entry> {
    let head = if entries.len() > MAX_PER_DIR {
        entries.take(MAX_PER_DIR as int)
    } else {
        entries
    };
    order::sort(head.filter(|e: Entry| has_row(e)), |a: Entry, b: Entry| goes_before(a, b))
}

/// The outcome of flattening: the rows, or the directory to read first.
pub enum Walk {
    Rows(Seq<Row>),
    Missing(Seq<char>),
}

/// An outcome with rows put in front.
pub open spec fn prepend(rows: Seq<Row>, walk: Walk) -> Walk {
    match walk {
        Walk::Rows(r) => Walk::Rows(rows + r),
        Walk::Missing(d) => Walk::Missing(d),
    }
}

pub open spec fn row_of(e: Entry, depth: nat, expanded: Set<Seq<char>>) -> Row {
    Row {
        path: e.path,
        name: e.name,
        depth,
        is_dir: e.kind == EntryKind::Dir,
        expanded: e.kind == EntryKind::Dir && expanded.contains(e.path),
    }
}

/// The rows of a directory, depth first, following the expanded directories, as
/// far as there is room.
pub open spec fn flatten(
    l: Seq<Listing>,
    expanded: Set<Seq<char>>,
    dir: Seq<char>,
    depth: nat,
    room: nat,
) -> Walk
    decreases room, 1int, 0int,
{
    if room == 0 {
        Walk::Rows(Seq::empty())
    } else {
        match lookup(l, dir) {
            None => Walk::Missing(dir),
            Some(None) => Walk::Rows(Seq::empty()),
            Some(Some(entries)) => flatten_each(l, expanded, arranged(entries), depth, room),
        }
    }
}

pub open spec fn flatten_each(
    l: Seq<Listing>,
    expanded: Set<Seq<char>>,
    entries: Seq<Entry>,
    depth: nat,
    room: nat,
) -> Walk
    decreases room, 0int, entries.len(),
{
    if room == 0 || entries.len() == 0 {
        Walk::Rows(Seq::empty())
    } else {
        let row = row_of(entries[0], depth, expanded);
        let below = if row.expanded {
            flatten(l, expanded, entries[0].path, depth + 1, (room - 1) as nat)
        } else {
            Walk::Rows(Seq::empty())
        };
        match below {
            Walk::Missing(d) => Walk::Missing(d),
            Walk::Rows(below) => prepend(
                seq![row] + below,
                flatten_each(
                    l,
                    expanded,
                    entries.drop_first(),
                    depth,
                    less((room - 1) as nat, below.len()),
                ),
            ),
        }
    }
}

/// The directories that a list of paths names.
pub open spec fn path_set(paths: Seq<String>) -> Set<Seq<char>> {
    Set::new(|p: Seq<char>| exists|i: int| 0 <= i < paths.len() && (#[trigger] paths[i])@ == p)
}

/// Where a path stands in a list.
pub(crate) fn find_path(paths: &Vec<String>, path: &str) -> (r: Option<usize>)
    ensures
        match r {
            Some(i) => i < paths@.len() && paths@[i as int]@ == path@ && path_set(paths@).contains(
                path@,
            ),
            None => !path_set(paths@).contains(path@),
        },
{
    let mut i: usize = 0;
    while i < paths.len()
        invariant
            i <= paths@.len(),
            forall|j: int| 0 <= j < i ==> (#[trigger] paths@[j])@ != path@,
        decreases paths@.len() - i,
    {
        if text::str_eq(paths[i].as_str(), path) {
            assert(paths@[i as int]@ == path@);
            return Some(i);
        }
        i += 1;
    }
    None
}

fn comes_before(a: &TreeEntry, b: &TreeEntry) -> (r: bool)
    ensures
        r == goes_before(a.value(), b.value()),
{
    let da: bool = a.kind == EntryKind::Dir;
    let db: bool = b.kind == EntryKind::Dir;
    if da != db {
        da
    } else {
        let la = text::chars_of(unicode::to_lowercase(a.name.as_str()).as_str());
        let lb = text::chars_of(unicode::to_lowercase(b.name.as_str()).as_str());
        text::lex_less(la.as_slice(), lb.as_slice())
    }
}

fn is_shown(e: &TreeEntry) -> (r: bool)
    ensures
        r == has_row(e.value()),
{
    !text::str_eq(e.name.as_str(), ".git") && e.kind != EntryKind::Unknown
}

fn copy_entry(e: &TreeEntry) -> (r: TreeEntry)
    ensures
        r.value() == e.value(),
{
    TreeEntry { name: e.name.clone(), path: e.path.clone(), kind: e.kind }
}

/// Puts an entry behind every entry that it does not go before.
fn insert_entry(sorted: &mut Vec<TreeEntry>, e: TreeEntry)
    ensures
        entries_value(final(sorted)@) == order::insert(
            entries_value(old(sorted)@),
            e.value(),
            |a: Entry, b: Entry| goes_before(a, b),
        ),
{
    let ghost all = entries_value(sorted@);
    let ghost before = |a: Entry, b: Entry| goes_before(a, b);
    let mut at: usize = sorted.len();
    while at > 0 && comes_before(&e, &sorted[at - 1])
        invariant
            at <= sorted@.len(),
            all == entries_value(sorted@),
            before == (|a: Entry, b: Entry| goes_before(a, b)),
            forall|i: int| at <= i < all.len() ==> #[trigger] before(e.value(), all[i]),
        decreases at,
    {
        assert(all[at - 1] == sorted@[at - 1].value());
        at -= 1;
    }
    proof {
        if at > 0 {
            assert(all[at - 1] == sorted@[at - 1].value());
        }
        order::lemma_insert_at(all, e.value(), before, at as int);
    }
    let ghost held = sorted@;
    sorted.insert(at, e);
    assert(entries_value(sorted@) =~= all.insert(at as int, e.value()));
}

/// The entries that are shown of a directory, in the order of their rows.
fn arrange(entries: &Vec<TreeEntry>) -> (r: Vec<TreeEntry>)
    ensures
        entries_value(r@) == arranged(entries_value(entries@)),
{
    let ghost all = entries_value(entries@);
    let ghost shown = |e: Entry| has_row(e);
    let ghost before = |a: Entry, b: Entry| goes_before(a, b);
    let len: usize = if entries.len() > MAX_PER_DIR {
        MAX_PER_DIR
    } else {
        entries.len()
    };
    let mut r: Vec<TreeEntry> = Vec::new();
    let mut i: usize = 0;
    proof {
        assert(all.take(0) =~= Seq::empty());
        reveal(Seq::filter);
        assert(all.take(0).filter(shown) =~= Seq::empty());
        assert(entries_value(r@) =~= Seq::empty());
    }
    while i < len
        invariant
            i <= len <= entries@.len(),
            all == entries_value(entries@),
            shown == (|e: Entry| has_row(e)),
            before == (|a: Entry, b: Entry| goes_before(a, b)),
            entries_value(r@) == order::sort(all.take(i as int).filter(shown), before),
        decreases len - i,
    {
        proof {
            assert(all[i as int] == entries@[i as int].value());
            assert(all.take(i + 1).drop_last() =~= all.take(i as int));
            assert(all.take(i + 1).last() == all[i as int]);
            reveal(Seq::filter);
            let kept = all.take(i as int).filter(shown);
            assert(kept.push(all[i as int]).drop_last() =~= kept);
        }
        if is_shown(&entries[i]) {
            insert_entry(&mut r, copy_entry(&entries[i]));
        }
        i += 1;
    }
    assert(all.take(len as int) =~= if all.len() > MAX_PER_DIR {
        all.take(MAX_PER_DIR as int)
    } else {
        all
    });
    r
}

/// What the rows of a walk add behind the rows that are there.
pub open spec fn extends(before: Seq<Row>, after: Seq<Row>, walk: Walk, missing: Option<
    Seq<char>,
>) -> bool {
    match walk {
        Walk::Rows(rows) => missing is None && after == before + rows,
        Walk::Missing(d) => missing == Some(d),
    }
}

pub open spec fn optional_text(s: Option<String>) -> Option<Seq<char>> {
    match s {
        Some(s) => Some(s@),
        None => None,
    }
}

/// Flattens a directory into rows. Returns the directory to read first, where
/// one is missing.
pub(crate) fn flatten_dir(
    snapshot: &TreeSnapshot,
    expanded: &Vec<String>,
    dir: &str,
    depth: usize,
    rows: &mut Vec<FileRow>,
) -> (missing: Option<String>)
    requires
        old(rows)@.len() <= MAX_ROWS,
        depth + (MAX_ROWS - old(rows)@.len()) <= usize::MAX,
    ensures
        extends(
            rows_value(old(rows)@),
            rows_value(final(rows)@),
            flatten(
                snapshot.value(),
                path_set(expanded@),
                dir@,
                depth as nat,
                (MAX_ROWS - old(rows)@.len()) as nat,
            ),
            optional_text(missing),
        ),
        final(rows)@.len() <= MAX_ROWS,
        final(rows)@.len() >= old(rows)@.len(),
    decreases MAX_ROWS - old(rows)@.len(), 1int,
{
    let ghost l = snapshot.value();
    let ghost open = path_set(expanded@);
    let ghost start = rows_value(rows@);
    let ghost room = (MAX_ROWS - rows@.len()) as nat;
    if rows.len() >= MAX_ROWS {
        assert(start + Seq::empty() =~= start);
        return None;
    }
    let at: usize = match snapshot.find(dir) {
        Some(at) => at,
        None => return Some(dir.to_owned()),
    };
    let sorted = match &snapshot.listings[at].entries {
        Some(entries) => arrange(entries),
        None => {
            assert(start + Seq::empty() =~= start);
            return None;
        },
    };
    let ghost all = entries_value(sorted@);
    let mut i: usize = 0;
    let ghost mut added: Seq<Row> = Seq::empty();
    proof {
        assert(all.skip(0) =~= all);
        assert(start + added =~= start);
        let whole = flatten_each(l, open, all, depth as nat, room);
        assert(prepend(added, whole) == whole) by {
            if let Walk::Rows(r) = whole {
                assert(added + r =~= r);
            }
        }
    }
    while i < sorted.len() && rows.len() < MAX_ROWS
        invariant
            i <= sorted@.len(),
            l == snapshot.value(),
            open == path_set(expanded@),
            all == entries_value(sorted@),
            start.len() < MAX_ROWS,
            depth + room <= usize::MAX,
            start.len() == old(rows)@.len(),
            room == MAX_ROWS - start.len(),
            rows_value(rows@) == start + added,
            added.len() <= room,
            flatten_each(l, open, all, depth as nat, room) == prepend(
                added,
                flatten_each(l, open, all.skip(i as int), depth as nat, (room - added.len()) as nat),
            ),
            flatten(l, open, dir@, depth as nat, room) == flatten_each(
                l,
                open,
                all,
                depth as nat,
                room,
            ),
        decreases sorted@.len() - i,
    {
        let ghost left = (room - added.len()) as nat;
        let ghost e = all[i as int];
        let ghost row = row_of(e, depth as nat, open);
        let ghost tail = all.skip(i as int);
        assert(e == sorted@[i as int].value());
        assert(tail[0] == e);
        assert(tail.drop_first() =~= all.skip(i + 1));
        let entry: &TreeEntry = &sorted[i];
        let is_dir: bool = entry.kind == EntryKind::Dir;
        let is_open: bool = is_dir && find_path(expanded, entry.path.as_str()).is_some();
        let next = FileRow {
            path: entry.path.clone(),
            name: entry.name.clone(),
            depth,
            is_dir,
            expanded: is_open,
        };
        let ghost held = rows_value(rows@);
        rows.push(next);
        proof {
            assert(next.value() == row);
            assert(rows_value(rows@) =~= held.push(row));
            assert(rows_value(rows@).len() == rows@.len());
        }
        let ghost with_row = rows_value(rows@);
        let ghost mut below: Seq<Row> = Seq::empty();
        if is_open {
            let missing = flatten_dir(snapshot, expanded, entry.path.as_str(), depth + 1, rows);
            if missing.is_some() {
                return missing;
            }
            proof {
                let walk = flatten(l, open, e.path, (depth + 1) as nat, (left - 1) as nat);
                below = walk->Rows_0;
                assert(rows_value(rows@) == with_row + below);
            }
        }
        proof {
            let rest = flatten_each(
                l,
                open,
                all.skip(i + 1),
                depth as nat,
                less((left - 1) as nat, below.len()),
            );
            let grown = added + (seq![row] + below);
            assert(rows_value(rows@) =~= start + grown);
            assert(rows_value(rows@).len() == rows@.len());
            assert(prepend(added, prepend(seq![row] + below, rest)) == prepend(grown, rest)) by {
                if let Walk::Rows(r) = rest {
                    assert(added + (seq![row] + below + r) =~= grown + r);
                }
            }
            added = grown;
        }
        i += 1;
    }
    proof {
        let rest = flatten_each(l, open, all.skip(i as int), depth as nat, (room - added.len()) as nat);
        assert(rows_value(rows@).len() == rows@.len());
        assert(rest == Walk::Rows(Seq::empty()));
        assert(added + Seq::empty() =~= added);
    }
    None
}

/// Directories that are all bulk and no signal: never indexed for filtering.
pub open spec fn is_bulk(name: Seq<char>) -> bool {
    name == "target"@ || name == "node_modules"@ || name == ".git"@ || name == ".cache"@ || name
        == ".gradle"@ || name == "build"@ || name == "trellis"@
}

/// Whether an entry is kept in the filter index: links are never followed
/// (cycle safety), and hidden and bulk directories are left out.
pub open spec fn is_indexed(e: Entry) -> bool {
    match e.kind {
        EntryKind::Unknown => false,
        EntryKind::Symlink => false,
        EntryKind::Dir => !(e.name.len() > 0 && e.name[0] == '.') && !is_bulk(e.name),
        EntryKind::File => true,
    }
}

pub open spec fn flat_row(e: Entry) -> Row {
    Row {
        path: e.path,
        name: e.name,
        depth: 0,
        is_dir: e.kind == EntryKind::Dir,
        expanded: false,
    }
}

/// The outcome of indexing: the rows with what is left of the budget, or the
/// directory to read first.
pub enum Scan {
    Rows(Seq<Row>, nat),
    Missing(Seq<char>),
}

pub open spec fn prepend_scan(rows: Seq<Row>, scan: Scan) -> Scan {
    match scan {
        Scan::Rows(r, budget) => Scan::Rows(rows + r, budget),
        Scan::Missing(d) => Scan::Missing(d),
    }
}

/// The flat rows of a directory and everything below it. `budget` counts every
/// entry visited, not kept, so a huge tree cannot stall the walk.
pub open spec fn scan(l: Seq<Listing>, dir: Seq<char>, depth: nat, room: nat, budget: nat) -> Scan
    decreases less(9, depth), 1int, 0int,
{
    if budget == 0 || depth > MAX_SEARCH_DEPTH || room == 0 {
        Scan::Rows(Seq::empty(), budget)
    } else {
        match lookup(l, dir) {
            None => Scan::Missing(dir),
            Some(None) => Scan::Rows(Seq::empty(), budget),
            Some(Some(entries)) => scan_each(l, entries, depth, room, budget),
        }
    }
}

pub open spec fn scan_each(
    l: Seq<Listing>,
    entries: Seq<Entry>,
    depth: nat,
    room: nat,
    budget: nat,
) -> Scan
    decreases less(9, depth), 0int, entries.len(),
{
    if budget == 0 || room == 0 || entries.len() == 0 {
        Scan::Rows(Seq::empty(), budget)
    } else {
        let e = entries[0];
        let rest = entries.drop_first();
        let left = (budget - 1) as nat;
        if !is_indexed(e) {
            scan_each(l, rest, depth, room, left)
        } else {
            let below = if e.kind == EntryKind::Dir && depth < MAX_SEARCH_DEPTH {
                scan(l, e.path, depth + 1, (room - 1) as nat, left)
            } else {
                Scan::Rows(Seq::empty(), left)
            };
            match below {
                Scan::Missing(d) => Scan::Missing(d),
                Scan::Rows(below, left) => prepend_scan(
                    seq![flat_row(e)] + below,
                    scan_each(l, rest, depth, less((room - 1) as nat, below.len()), left),
                ),
            }
        }
    }
}

fn bulk(name: &str) -> (r: bool)
    ensures
        r == is_bulk(name@),
{
    text::str_eq(name, "target") || text::str_eq(name, "node_modules") || text::str_eq(
        name,
        ".git",
    ) || text::str_eq(name, ".cache") || text::str_eq(name, ".gradle") || text::str_eq(
        name,
        "build",
    ) || text::str_eq(name, "trellis")
}

fn indexed(e: &TreeEntry) -> (r: bool)
    ensures
        r == is_indexed(e.value()),
{
    match e.kind {
        EntryKind::Unknown => false,
        EntryKind::Symlink => false,
        EntryKind::File => true,
        EntryKind::Dir => {
            let v = text::chars_of(e.name.as_str());
            !(v.len() > 0 && v[0] == '.') && !bulk(e.name.as_str())
        },
    }
}

/// What a scan adds behind the rows that are there, and leaves of the budget.
pub open spec fn extends_scan(
    before: Seq<Row>,
    after: Seq<Row>,
    left: nat,
    outcome: Scan,
    missing: Option<Seq<char>>,
) -> bool {
    match outcome {
        Scan::Rows(rows, budget) => missing is None && after == before + rows && left == budget,
        Scan::Missing(d) => missing == Some(d),
    }
}

/// Indexes a directory and everything below it. Returns the directory to read
/// first, where one is missing.
pub(crate) fn build_search_index(
    snapshot: &TreeSnapshot,
    dir: &str,
    depth: usize,
    index: &mut Vec<FileRow>,
    budget: &mut usize,
) -> (missing: Option<String>)
    requires
        depth <= MAX_SEARCH_DEPTH + 1,
        old(index)@.len() <= SEARCH_INDEX_CAP,
    ensures
        extends_scan(
            rows_value(old(index)@),
            rows_value(final(index)@),
            *final(budget) as nat,
            scan(
                snapshot.value(),
                dir@,
                depth as nat,
                (SEARCH_INDEX_CAP - old(index)@.len()) as nat,
                *old(budget) as nat,
            ),
            optional_text(missing),
        ),
        final(index)@.len() <= SEARCH_INDEX_CAP,
        final(index)@.len() >= old(index)@.len(),
        *final(budget) <= *old(budget),
    decreases MAX_SEARCH_DEPTH + 1 - depth,
{
    let ghost l = snapshot.value();
    let ghost start = rows_value(index@);
    let ghost room = (SEARCH_INDEX_CAP - index@.len()) as nat;
    let ghost budget0 = *budget as nat;
    if *budget == 0 || depth > MAX_SEARCH_DEPTH || index.len() >= SEARCH_INDEX_CAP {
        assert(start + Seq::empty() =~= start);
        return None;
    }
    let at: usize = match snapshot.find(dir) {
        Some(at) => at,
        None => return Some(dir.to_owned()),
    };
    let entries = match &snapshot.listings[at].entries {
        Some(entries) => entries,
        None => {
            assert(start + Seq::empty() =~= start);
            return None;
        },
    };
    let ghost all = entries_value(entries@);
    let mut i: usize = 0;
    let ghost mut added: Seq<Row> = Seq::empty();
    proof {
        assert(all.skip(0) =~= all);
        assert(start + added =~= start);
        let whole = scan_each(l, all, depth as nat, room, budget0);
        assert(prepend_scan(added, whole) == whole) by {
            if let Scan::Rows(r, b) = whole {
                assert(added + r =~= r);
            }
        }
    }
    while i < entries.len() && *budget > 0 && index.len() < SEARCH_INDEX_CAP
        invariant
            i <= entries@.len(),
            depth <= MAX_SEARCH_DEPTH,
            l == snapshot.value(),
            all == entries_value(entries@),
            start.len() == old(index)@.len(),
            start.len() <= SEARCH_INDEX_CAP,
            room == SEARCH_INDEX_CAP - start.len(),
            rows_value(index@) == start + added,
            added.len() <= room,
            *budget <= *old(budget),
            budget0 == *old(budget),
            scan_each(l, all, depth as nat, room, budget0) == prepend_scan(
                added,
                scan_each(
                    l,
                    all.skip(i as int),
                    depth as nat,
                    (room - added.len()) as nat,
                    *budget as nat,
                ),
            ),
            scan(l, dir@, depth as nat, room, budget0) == scan_each(
                l,
                all,
                depth as nat,
                room,
                budget0,
            ),
        decreases entries@.len() - i,
    {
        let ghost left = (room - added.len()) as nat;
        let ghost e = all[i as int];
        let ghost tail = all.skip(i as int);
        assert(e == entries@[i as int].value());
        assert(tail[0] == e);
        assert(tail.drop_first() =~= all.skip(i + 1));
        assert(rows_value(index@).len() == index@.len());
        let entry: &TreeEntry = &entries[i];
        *budget = *budget - 1;
        if indexed(entry) {
            let is_dir: bool = entry.kind == EntryKind::Dir;
            let next = FileRow {
                path: entry.path.clone(),
                name: entry.name.clone(),
                depth: 0,
                is_dir,
                expanded: false,
            };
            let ghost held = rows_value(index@);
            index.push(next);
            proof {
                assert(next.value() == flat_row(e));
                assert(rows_value(index@) =~= held.push(flat_row(e)));
                assert(rows_value(index@).len() == index@.len());
            }
            let ghost with_row = rows_value(index@);
            let ghost mut below: Seq<Row> = Seq::empty();
            let ghost budget1 = *budget as nat;
            if is_dir {
                let missing = build_search_index(
                    snapshot,
                    entry.path.as_str(),
                    depth + 1,
                    index,
                    budget,
                );
                proof {
                    let outcome = scan(l, e.path, (depth + 1) as nat, (left - 1) as nat, budget1);
                    if depth == MAX_SEARCH_DEPTH {
                        assert(outcome == Scan::Rows(Seq::empty(), budget1));
                    }
                }
                if missing.is_some() {
                    return missing;
                }
                proof {
                    let outcome = scan(l, e.path, (depth + 1) as nat, (left - 1) as nat, budget1);
                    below = outcome->Rows_0;
                    assert(rows_value(index@) == with_row + below);
                }
            }
            proof {
                let rest = scan_each(
                    l,
                    all.skip(i + 1),
                    depth as nat,
                    less((left - 1) as nat, below.len()),
                    *budget as nat,
                );
                let grown = added + (seq![flat_row(e)] + below);
                assert(rows_value(index@) =~= start + grown);
                assert(rows_value(index@).len() == index@.len());
                assert(prepend_scan(added, prepend_scan(seq![flat_row(e)] + below, rest))
                    == prepend_scan(grown, rest)) by {
                    if let Scan::Rows(r, b) = rest {
                        assert(added + (seq![flat_row(e)] + below + r) =~= grown + r);
                    }
                }
                added = grown;
            }
        }
        i += 1;
    }
    proof {
        let rest = scan_each(
            l,
            all.skip(i as int),
            depth as nat,
            (room - added.len()) as nat,
            *budget as nat,
        );
        assert(rows_value(index@).len() == index@.len());
        assert(rest == Scan::Rows(Seq::empty(), *budget as nat));
        assert(added + Seq::empty() =~= added);
    }
    None
}

/// Whether the name of a row matches a filter query in lower case.
pub open spec fn matches_filter(row: Row, needle: Seq<char>) -> bool {
    text::find_from(unicode::lower_text(row.name), needle, 0) is Some
}

/// The rows of an index that match a query, as many as are shown.
pub open spec fn filtered(index: Seq<Row>, needle: Seq<char>) -> Seq<Row> {
    let kept = index.filter(|r: Row| matches_filter(r, needle));
    if kept.len() > MAX_ROWS {
        kept.take(MAX_ROWS as int)
    } else {
        kept
    }
}

fn copy_row(row: &FileRow) -> (r: FileRow)
    ensures
        r.value() == row.value(),
{
    FileRow {
        path: row.path.clone(),
        name: row.name.clone(),
        depth: row.depth,
        is_dir: row.is_dir,
        expanded: row.expanded,
    }
}

proof fn lemma_filter_grows(s: Seq<Row>, keep: spec_fn(Row) -> bool, i: int)
    requires
        0 <= i <= s.len(),
    ensures
        s.take(i).filter(keep).is_prefix_of(s.filter(keep)),
    decreases s.len() - i,
{
    reveal(Seq::filter);
    if i < s.len() {
        lemma_filter_grows(s, keep, i + 1);
        assert(s.take(i + 1).drop_last() =~= s.take(i));
        let next = s.take(i + 1).filter(keep);
        let this = s.take(i).filter(keep);
        assert(this.is_prefix_of(next));
        let whole = s.filter(keep);
        assert(whole.subrange(0, this.len() as int) =~= this) by {
            assert forall|k: int| 0 <= k < this.len() implies whole[k] == this[k] by {
                assert(whole.subrange(0, next.len() as int)[k] == next[k]);
            }
        }
    } else {
        assert(s.take(i) =~= s);
    }
}

/// The rows of an index that match a query.
pub(crate) fn filter_rows(index: &Vec<FileRow>, needle: &str) -> (r: Vec<FileRow>)
    ensures
        rows_value(r@) == filtered(rows_value(index@), needle@),
{
    let ghost all = rows_value(index@);
    let ghost keep = |r: Row| matches_filter(r, needle@);
    let wanted = text::chars_of(needle);
    let mut r: Vec<FileRow> = Vec::new();
    let mut i: usize = 0;
    proof {
        reveal(Seq::filter);
        assert(all.take(0).filter(keep) =~= Seq::empty());
        assert(rows_value(r@) =~= Seq::empty());
    }
    while i < index.len() && r.len() < MAX_ROWS
        invariant
            i <= index@.len(),
            all == rows_value(index@),
            keep == (|r: Row| matches_filter(r, needle@)),
            wanted@ == needle@,
            r@.len() <= MAX_ROWS,
            rows_value(r@) == all.take(i as int).filter(keep),
        decreases index@.len() - i,
    {
        let ghost row = all[i as int];
        proof {
            assert(row == index@[i as int].value());
            assert(all.take(i + 1).drop_last() =~= all.take(i as int));
            assert(all.take(i + 1).last() == row);
            reveal(Seq::filter);
        }
        let name = text::chars_of(unicode::to_lowercase(index[i].name.as_str()).as_str());
        if text::find(name.as_slice(), wanted.as_slice()).is_some() {
            let ghost before = rows_value(r@);
            let copy = copy_row(&index[i]);
            r.push(copy);
            assert(rows_value(r@) =~= before.push(row));
        }
        i += 1;
    }
    proof {
        assert(rows_value(r@).len() == r@.len());
        lemma_filter_grows(all, keep, i as int);
        let kept = all.filter(keep);
        if i == all.len() {
            assert(all.take(i as int) =~= all);
        }
        if kept.len() > MAX_ROWS {
            assert(kept.take(MAX_ROWS as int) =~= rows_value(r@));
        } else {
            assert(kept =~= rows_value(r@));
        }
    }
    r
}

/// A tree never has more rows than there is room for.
pub proof fn law_tree_rows_are_bounded(
    l: Seq<Listing>,
    expanded: Set<Seq<char>>,
    dir: Seq<char>,
    depth: nat,
    room: nat,
)
    ensures
        flatten(l, expanded, dir, depth, room) matches Walk::Rows(rows) ==> rows.len() <= room,
    decreases room, 1int, 0int,
{
    if room > 0 {
        if let Some(Some(entries)) = lookup(l, dir) {
            lemma_each_bounded(l, expanded, arranged(entries), depth, room);
        }
    }
}

proof fn lemma_each_bounded(
    l: Seq<Listing>,
    expanded: Set<Seq<char>>,
    entries: Seq<Entry>,
    depth: nat,
    room: nat,
)
    ensures
        flatten_each(l, expanded, entries, depth, room) matches Walk::Rows(rows) ==> rows.len()
            <= room,
    decreases room, 0int, entries.len(),
{
    if room > 0 && entries.len() > 0 {
        let row = row_of(entries[0], depth, expanded);
        let below = if row.expanded {
            flatten(l, expanded, entries[0].path, depth + 1, (room - 1) as nat)
        } else {
            Walk::Rows(Seq::empty())
        };
        if row.expanded {
            law_tree_rows_are_bounded(l, expanded, entries[0].path, depth + 1, (room - 1) as nat);
        }
        if let Walk::Rows(below) = below {
            lemma_each_bounded(
                l,
                expanded,
                entries.drop_first(),
                depth,
                less((room - 1) as nat, below.len()),
            );
        }
    }
}

/// Only directories that were not read yet are asked for.
pub proof fn law_asks_for_unread_directories(
    l: Seq<Listing>,
    expanded: Set<Seq<char>>,
    dir: Seq<char>,
    depth: nat,
    room: nat,
)
    ensures
        flatten(l, expanded, dir, depth, room) matches Walk::Missing(d) ==> lookup(l, d) is None,
    decreases room, 1int, 0int,
{
    if room > 0 {
        if let Some(Some(entries)) = lookup(l, dir) {
            lemma_each_asks(l, expanded, arranged(entries), depth, room);
        }
    }
}

proof fn lemma_each_asks(
    l: Seq<Listing>,
    expanded: Set<Seq<char>>,
    entries: Seq<Entry>,
    depth: nat,
    room: nat,
)
    ensures
        flatten_each(l, expanded, entries, depth, room) matches Walk::Missing(d) ==> lookup(
            l,
            d,
        ) is None,
    decreases room, 0int, entries.len(),
{
    if room > 0 && entries.len() > 0 {
        let row = row_of(entries[0], depth, expanded);
        let below = if row.expanded {
            flatten(l, expanded, entries[0].path, depth + 1, (room - 1) as nat)
        } else {
            Walk::Rows(Seq::empty())
        };
        if row.expanded {
            law_asks_for_unread_directories(
                l,
                expanded,
                entries[0].path,
                depth + 1,
                (room - 1) as nat,
            );
        }
        if let Walk::Rows(below) = below {
            lemma_each_asks(
                l,
                expanded,
                entries.drop_first(),
                depth,
                less((room - 1) as nat, below.len()),
            );
        }
    }
}

/// The index never holds more rows than there is room for, and every row costs
/// at least one entry of the budget: a huge tree cannot stall the walk.
pub proof fn law_index_is_bounded(
    l: Seq<Listing>,
    dir: Seq<char>,
    depth: nat,
    room: nat,
    budget: nat,
)
    ensures
        scan(l, dir, depth, room, budget) matches Scan::Rows(rows, left) ==> rows.len() <= room
            && rows.len() + left <= budget,
    decreases less(9, depth), 1int, 0int,
{
    if budget > 0 && depth <= MAX_SEARCH_DEPTH && room > 0 {
        if let Some(Some(entries)) = lookup(l, dir) {
            lemma_scan_each_bounded(l, entries, depth, room, budget);
        }
    }
}

proof fn lemma_scan_each_bounded(
    l: Seq<Listing>,
    entries: Seq<Entry>,
    depth: nat,
    room: nat,
    budget: nat,
)
    ensures
        scan_each(l, entries, depth, room, budget) matches Scan::Rows(rows, left) ==> rows.len()
            <= room && rows.len() + left <= budget,
    decreases less(9, depth), 0int, entries.len(),
{
    if budget > 0 && room > 0 && entries.len() > 0 {
        let e = entries[0];
        let rest = entries.drop_first();
        let left = (budget - 1) as nat;
        if !is_indexed(e) {
            lemma_scan_each_bounded(l, rest, depth, room, left);
        } else {
            let deeper = e.kind == EntryKind::Dir && depth < MAX_SEARCH_DEPTH;
            let below = if deeper {
                scan(l, e.path, depth + 1, (room - 1) as nat, left)
            } else {
                Scan::Rows(Seq::empty(), left)
            };
            if deeper {
                law_index_is_bounded(l, e.path, depth + 1, (room - 1) as nat, left);
            }
            if let Scan::Rows(rows, left) = below {
                lemma_scan_each_bounded(l, rest, depth, less((room - 1) as nat, rows.len()), left);
            }
        }
    }
}

/// In every directory, the directories come first, and names are in
/// alphabetical order without regard to case.
pub proof fn law_directories_come_first(entries: Seq<Entry>)
    ensures
        order::is_sorted(arranged(entries), |a: Entry, b: Entry| goes_before(a, b)),
        forall|i: int, j: int|
            0 <= i < j < arranged(entries).len() && (#[trigger] arranged(entries)[j]).kind
                == EntryKind::Dir ==> (#[trigger] arranged(entries)[i]).kind == EntryKind::Dir,
        forall|i: int|
            0 <= i < arranged(entries).len() ==> has_row(#[trigger] arranged(entries)[i]),
{
    let before = |a: Entry, b: Entry| goes_before(a, b);
    let head = if entries.len() > MAX_PER_DIR {
        entries.take(MAX_PER_DIR as int)
    } else {
        entries
    };
    let shown = head.filter(|e: Entry| has_row(e));
    let out = arranged(entries);
    assert forall|a: Entry, b: Entry| #[trigger] before(a, b) implies !before(b, a) by {
        text::lemma_lex_total(unicode::lower_text(a.name), unicode::lower_text(b.name));
    }
    assert forall|a: Entry, b: Entry, c: Entry|
        !#[trigger] before(b, a) && !#[trigger] before(c, b) implies !before(c, a) by {
        let (x, y, z) = (
            unicode::lower_text(a.name),
            unicode::lower_text(b.name),
            unicode::lower_text(c.name),
        );
        text::lemma_lex_total(x, y);
        text::lemma_lex_total(y, z);
        text::lemma_lex_total(x, z);
        if text::lex_lt(x, y) && text::lex_lt(y, z) {
            text::lemma_lex_transitive(x, y, z);
        }
    }
    order::lemma_sort_orders(shown, before);
    order::lemma_sort_keeps(shown, before);
    assert forall|i: int, j: int|
        0 <= i < j < out.len() && (#[trigger] out[j]).kind == EntryKind::Dir implies (
    #[trigger] out[i]).kind == EntryKind::Dir by {
        assert(!before(out[j], out[i]));
    }
    assert forall|i: int| 0 <= i < out.len() implies has_row(#[trigger] out[i]) by {
        assert(out.contains(out[i]));
        assert(shown.contains(out[i]));
        let k = choose|k: int| 0 <= k < shown.len() && shown[k] == out[i];
        head.lemma_filter_pred(|e: Entry| has_row(e), k);
    }
}

} // verus!
