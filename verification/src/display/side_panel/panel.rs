//! The state of the drawer and everything that changes it.
//!
//! Listings and git output are handed in: after [`SidePanel::sync`] returned
//! true, or wherever [`SidePanel::rows_due`] is set, the rows are rebuilt with
//! [`SidePanel::rebuild_rows`], which names the directories that it still needs.

use vstd::prelude::*;

use crate::display::side_panel::git;
use crate::display::side_panel::git::{GitInfo, GitState};
use crate::display::side_panel::tree;
use crate::display::side_panel::tree::{
    FileRow, Listing, Row, Scan, TreeSnapshot, Walk, MAX_ROWS, SEARCH_INDEX_CAP,
    SEARCH_VISIT_BUDGET,
};
use crate::text;
use crate::unicode;

verus! {

/// Re-run the (throttled) refresh at most this often while the panel is open,
/// in milliseconds.
pub const REFRESH_EVERY: u64 = 4000;

/// Which view the drawer shows.
#[derive(Debug, Clone, Copy, PartialEq, Eq, Structural)]
pub enum PanelView {
    /// Directory tree of the focused pane's working directory.
    Files,
    /// Git branch + working-tree changes of the enclosing repository.
    Git,
}

/// Result of hit-testing a pixel against the open drawer.
#[derive(Debug, Clone, Copy, PartialEq, Eq, Structural)]
pub enum PanelHit {
    /// Not on the panel.
    Outside,
    /// The files view tab in the header.
    ViewFiles,
    /// The Git view tab in the header.
    ViewGit,
    /// The Files view's filter input box.
    Search,
    /// A list row (index into the *visible* rows of the current view).
    Row(usize),
    /// Inside the panel but on nothing interactive.
    Inside,
}

/// Where a pixel lies in the drawer's layout.
#[derive(Debug, Clone, Copy, PartialEq, Eq, Structural)]
pub struct PanelSpot {
    pub in_panel: bool,
    pub in_header: bool,
    pub in_left_half: bool,
    pub in_search: bool,
    /// The row at that height, counted from the first; none above the list.
    pub row: Option<usize>,
}

/// What a pixel hits: the header before the filter box before the list.
pub open spec fn hit_at(spot: PanelSpot, max_rows: usize) -> PanelHit {
    if !spot.in_panel {
        PanelHit::Outside
    } else if spot.in_header {
        if spot.in_left_half {
            PanelHit::ViewFiles
        } else {
            PanelHit::ViewGit
        }
    } else if spot.in_search {
        PanelHit::Search
    } else {
        match spot.row {
            Some(row) => if row < max_rows {
                PanelHit::Row(row)
            } else {
                PanelHit::Inside
            },
            None => PanelHit::Inside,
        }
    }
}

/// What a pixel hits, by where it lies in the layout.
pub fn panel_hit(spot: PanelSpot, max_rows: usize) -> (r: PanelHit)
    ensures
        r == hit_at(spot, max_rows),
{
    if !spot.in_panel {
        return PanelHit::Outside;
    }
    if spot.in_header {
        return if spot.in_left_half {
            PanelHit::ViewFiles
        } else {
            PanelHit::ViewGit
        };
    }
    if spot.in_search {
        return PanelHit::Search;
    }
    if let Some(row) = spot.row {
        if row < max_rows {
            return PanelHit::Row(row);
        }
    }
    PanelHit::Inside
}

/// An in-progress drag of a tree file toward the terminal (drop = paste the
/// full path into the shell).
#[derive(Debug)]
pub struct FileDrag {
    pub path: String,
    /// Display name for the drag ghost that follows the pointer.
    pub name: String,
    /// Set once the pointer has moved past a small threshold, so plain clicks
    /// don't count as drags.
    pub active: bool,
}

/// A drag as a value.
pub struct Drag {
    pub path: Seq<char>,
    pub name: Seq<char>,
    pub active: bool,
}

/// The drawer.
pub struct SidePanel {
    pub open: bool,
    pub view: PanelView,
    /// Root the tree/git snapshot was built from (the focused pane's directory).
    pub root: Option<String>,
    /// Flattened visible tree rows for the Files view.
    pub rows: Vec<FileRow>,
    /// Whether the rows have to be rebuilt.
    pub rows_due: bool,
    /// Directories the user expanded (persists across refreshes).
    pub expanded: Vec<String>,
    /// Git snapshot, `None` when the root isn't inside a work tree.
    pub git: Option<GitInfo>,
    /// Scroll offset in rows.
    pub scroll: usize,
    /// Files-view filter query; non-empty switches the tree to a flat list of
    /// deep matches.
    pub search: String,
    /// Whether the filter box owns the keyboard.
    pub search_focus: bool,
    /// Flat, budget-bounded index of the tree used by the filter. Built once on
    /// the first filtering keystroke and reused for the rest of the query;
    /// dropped whenever a refresh rebuilds the snapshot.
    pub search_index: Option<Vec<FileRow>>,
    /// Commit-message input (Git view): buffer + focus.
    pub commit_msg: String,
    pub commit_focus: bool,
    /// Last clicked file row (path + when), for double-click-to-open.
    pub last_file_click: Option<(String, u64)>,
    /// In-progress drag of a file row toward the terminal.
    pub drag_file: Option<FileDrag>,
    /// Persistently selected file (row highlight).
    pub selected: Option<String>,
    /// What the pointer currently hovers.
    pub hover: PanelHit,
    /// A git mutation is running; the action buttons gray out.
    pub op_running: bool,
    /// Set when a mutation finished; `sync` folds it into a refresh.
    pub op_done: bool,
    /// Last operation's error (empty = success), shown on the summary line.
    pub op_error: String,
    /// When the snapshot was last refreshed, in milliseconds.
    pub last_refresh: Option<u64>,
    pub needs_refresh: bool,
}

/// The state of the drawer as a value.
#[verifier::ext_equal]
pub struct PanelState {
    pub open: bool,
    pub view: PanelView,
    pub root: Option<Seq<char>>,
    pub rows: Seq<Row>,
    pub rows_due: bool,
    pub expanded: Set<Seq<char>>,
    pub git: Option<GitState>,
    pub scroll: nat,
    pub search: Seq<char>,
    pub search_focus: bool,
    pub search_index: Option<Seq<Row>>,
    pub commit_msg: Seq<char>,
    pub commit_focus: bool,
    pub last_file_click: Option<(Seq<char>, u64)>,
    pub drag_file: Option<Drag>,
    pub selected: Option<Seq<char>>,
    pub hover: PanelHit,
    pub op_running: bool,
    pub op_done: bool,
    pub op_error: Seq<char>,
    pub last_refresh: Option<u64>,
    pub needs_refresh: bool,
}

impl FileDrag {
    pub open spec fn value(self) -> Drag {
        Drag { path: self.path@, name: self.name@, active: self.active }
    }
}

pub open spec fn optional_rows(v: Option<Vec<FileRow>>) -> Option<Seq<Row>> {
    match v {
        Some(v) => Some(tree::rows_value(v@)),
        None => None,
    }
}

pub open spec fn optional_git(g: Option<GitInfo>) -> Option<GitState> {
    match g {
        Some(g) => Some(g.value()),
        None => None,
    }
}

pub open spec fn optional_drag(d: Option<FileDrag>) -> Option<Drag> {
    match d {
        Some(d) => Some(d.value()),
        None => None,
    }
}

pub open spec fn optional_click(c: Option<(String, u64)>) -> Option<(Seq<char>, u64)> {
    match c {
        Some((path, when)) => Some((path@, when)),
        None => None,
    }
}

/// Whether no two of the paths are the same.
pub open spec fn distinct(paths: Seq<String>) -> bool {
    forall|i: int, j: int|
        0 <= i < j < paths.len() ==> (#[trigger] paths[i])@ != (#[trigger] paths[j])@
}

impl SidePanel {
    pub open spec fn value(&self) -> PanelState {
        PanelState {
            open: self.open,
            view: self.view,
            root: tree::optional_text(self.root),
            rows: tree::rows_value(self.rows@),
            rows_due: self.rows_due,
            expanded: tree::path_set(self.expanded@),
            git: optional_git(self.git),
            scroll: self.scroll as nat,
            search: self.search@,
            search_focus: self.search_focus,
            search_index: optional_rows(self.search_index),
            commit_msg: self.commit_msg@,
            commit_focus: self.commit_focus,
            last_file_click: optional_click(self.last_file_click),
            drag_file: optional_drag(self.drag_file),
            selected: tree::optional_text(self.selected),
            hover: self.hover,
            op_running: self.op_running,
            op_done: self.op_done,
            op_error: self.op_error@,
            last_refresh: self.last_refresh,
            needs_refresh: self.needs_refresh,
        }
    }

    /// No directory is expanded twice.
    pub open spec fn wf(&self) -> bool {
        distinct(self.expanded@)
    }
}

/// A closed drawer over nothing.
pub open spec fn closed_panel() -> PanelState {
    PanelState {
        open: false,
        view: PanelView::Files,
        root: None,
        rows: Seq::empty(),
        rows_due: false,
        expanded: Set::empty(),
        git: None,
        scroll: 0,
        search: Seq::empty(),
        search_focus: false,
        search_index: None,
        commit_msg: Seq::empty(),
        commit_focus: false,
        last_file_click: None,
        drag_file: None,
        selected: None,
        hover: PanelHit::Outside,
        op_running: false,
        op_done: false,
        op_error: Seq::empty(),
        last_refresh: None,
        needs_refresh: false,
    }
}

/// The drawer toggled: re-invoking the current view closes it, the other view
/// only switches.
pub open spec fn toggled(p: PanelState, view: PanelView) -> PanelState {
    if p.open && p.view == view {
        PanelState { open: false, selected: None, drag_file: None, ..p }
    } else {
        PanelState { open: true, view, scroll: 0, needs_refresh: true, ..p }
    }
}

/// Whether the snapshot is older than the throttle window. While a filter query
/// is live it never is: a new snapshot would drop the index under the user's
/// fingers.
pub open spec fn is_stale(p: PanelState, now: u64) -> bool {
    unicode::trimmed(p.search).len() == 0 && match p.last_refresh {
        None => true,
        Some(t) => now - t >= REFRESH_EVERY,
    }
}

/// Whether an open drawer has to take a new snapshot.
pub open spec fn wants_refresh(p: PanelState, cwd: Option<Seq<char>>, now: u64) -> bool {
    p.open && (cwd != p.root || is_stale(p, now) || p.op_done || p.needs_refresh)
}

/// The drawer after adopting a directory at a time.
pub open spec fn synced(p: PanelState, cwd: Option<Seq<char>>, now: u64) -> PanelState {
    if !wants_refresh(p, cwd, now) {
        p
    } else {
        let q = if cwd != p.root {
            PanelState { root: cwd, expanded: Set::empty(), scroll: 0, selected: None, ..p }
        } else {
            p
        };
        PanelState {
            op_done: false,
            needs_refresh: false,
            last_refresh: Some(now),
            search_index: None,
            rows_due: true,
            git: None,
            ..q
        }
    }
}

/// The filter query in the form that names are held against.
pub open spec fn needle(p: PanelState) -> Seq<char> {
    unicode::lower_text(unicode::trimmed(p.search))
}

/// The outcome of rebuilding rows.
pub enum Rebuilt {
    Done(PanelState),
    Missing(Seq<char>),
}

pub open spec fn with_rows(p: PanelState, rows: Seq<Row>) -> PanelState {
    PanelState { rows, rows_due: false, ..p }
}

/// The drawer with its rows rebuilt from what was read: the tree, or, while a
/// filter query is live, the index entries that match it.
pub open spec fn rebuilt(p: PanelState, l: Seq<Listing>) -> Rebuilt {
    match p.root {
        None => Rebuilt::Done(with_rows(p, Seq::empty())),
        Some(root) => if needle(p).len() == 0 {
            match tree::flatten(l, p.expanded, root, 0, MAX_ROWS as nat) {
                Walk::Rows(rows) => Rebuilt::Done(with_rows(p, rows)),
                Walk::Missing(d) => Rebuilt::Missing(d),
            }
        } else {
            match p.search_index {
                Some(index) => Rebuilt::Done(with_rows(p, tree::filtered(index, needle(p)))),
                None => match tree::scan(
                    l,
                    root,
                    0,
                    SEARCH_INDEX_CAP as nat,
                    SEARCH_VISIT_BUDGET as nat,
                ) {
                    Scan::Rows(index, _) => Rebuilt::Done(
                        with_rows(
                            PanelState { search_index: Some(index), ..p },
                            tree::filtered(index, needle(p)),
                        ),
                    ),
                    Scan::Missing(d) => Rebuilt::Missing(d),
                },
            }
        },
    }
}

/// Typed text without its control codes.
pub open spec fn printable(s: Seq<char>) -> Seq<char> {
    s.filter(|c: char| !unicode::control(c))
}

/// Appends typed text to a buffer, without its control codes.
fn with_printable(buffer: &str, text: &str) -> (r: String)
    ensures
        r@ == buffer@ + printable(text@),
{
    let v = text::chars_of(text);
    let ghost keep = |c: char| !unicode::control(c);
    let mut r = buffer.to_owned();
    let mut i: usize = 0;
    proof {
        reveal(Seq::filter);
        assert(v@.take(0).filter(keep) =~= Seq::empty());
        assert(r@ =~= buffer@ + v@.take(0).filter(keep));
    }
    while i < v.len()
        invariant
            i <= v@.len(),
            keep == (|c: char| !unicode::control(c)),
            r@ == buffer@ + v@.take(i as int).filter(keep),
        decreases v@.len() - i,
    {
        proof {
            assert(v@.take(i + 1).drop_last() =~= v@.take(i as int));
            assert(v@.take(i + 1).last() == v@[i as int]);
            reveal(Seq::filter);
        }
        if !unicode::is_control(v[i]) {
            let ghost kept = v@.take(i as int).filter(keep);
            r.push(v[i]);
            assert(r@ =~= buffer@ + kept.push(v@[i as int]));
        }
        i += 1;
    }
    assert(v@.take(i as int) =~= v@);
    r
}

/// The drawer after a change of the filter query.
pub open spec fn searching(p: PanelState, search: Seq<char>) -> PanelState {
    PanelState { search, scroll: 0, rows_due: true, ..p }
}

/// The drawer and the row that a click on visible row `index` toggles.
pub open spec fn toggled_row(p: PanelState, index: nat) -> Option<Row> {
    if p.view != PanelView::Files || unicode::trimmed(p.search).len() > 0 || p.scroll + index
        >= p.rows.len() {
        None
    } else {
        let row = p.rows[(p.scroll + index) as int];
        if row.is_dir {
            Some(row)
        } else {
            None
        }
    }
}

pub open spec fn clicked(p: PanelState, index: nat) -> PanelState {
    match toggled_row(p, index) {
        None => p,
        Some(row) => PanelState {
            expanded: if p.expanded.contains(row.path) {
                p.expanded.remove(row.path)
            } else {
                p.expanded.insert(row.path)
            },
            rows_due: true,
            ..p
        },
    }
}

/// How many rows there are to scroll through: the tree's, or both lists of
/// changes and their headings.
pub open spec fn scroll_len(p: PanelState) -> nat {
    match p.view {
        PanelView::Files => p.rows.len(),
        PanelView::Git => match p.git {
            Some(g) => g.unstaged.len() + g.staged.len() + 2,
            None => 0,
        },
    }
}

/// `x` brought into `0..=max`.
pub open spec fn clamped(x: int, max: int) -> int {
    if x < 0 {
        0
    } else if x > max {
        max
    } else {
        x
    }
}

pub open spec fn scrolled(p: PanelState, delta: int, visible_rows: nat) -> PanelState {
    PanelState {
        scroll: clamped(p.scroll + delta, tree::less(scroll_len(p), visible_rows) as int) as nat,
        ..p
    }
}

/// The command that an operation runs, unless one is running or there is no
/// root.
pub open spec fn spawned(p: PanelState, args: Seq<Seq<char>>) -> Option<Seq<Seq<char>>> {
    if p.root is Some && !p.op_running {
        Some(args)
    } else {
        None
    }
}

/// The drawer after trying to start an operation: one at a time.
pub open spec fn started(p: PanelState) -> PanelState {
    PanelState { op_running: p.op_running || p.root is Some, ..p }
}

pub open spec fn command_value(c: Option<Vec<String>>) -> Option<Seq<Seq<char>>> {
    match c {
        Some(v) => Some(v@.map_values(|s: String| s@)),
        None => None,
    }
}

proof fn lemma_empty_paths(paths: Seq<String>)
    requires
        paths.len() == 0,
    ensures
        tree::path_set(paths) == Set::<Seq<char>>::empty(),
{
    assert(tree::path_set(paths) =~= Set::empty());
}

fn same_text(a: &Option<String>, b: &Option<String>) -> (r: bool)
    ensures
        r == (tree::optional_text(*a) == tree::optional_text(*b)),
{
    match (a, b) {
        (Some(a), Some(b)) => text::str_eq(a.as_str(), b.as_str()),
        (None, None) => true,
        _ => false,
    }
}

impl SidePanel {
    /// A closed drawer.
    pub fn new() -> (r: Self)
        ensures
            r.value() == closed_panel(),
            r.wf(),
    {
        let r = SidePanel {
            open: false,
            view: PanelView::Files,
            root: None,
            rows: Vec::new(),
            rows_due: false,
            expanded: Vec::new(),
            git: None,
            scroll: 0,
            search: String::new(),
            search_focus: false,
            search_index: None,
            commit_msg: String::new(),
            commit_focus: false,
            last_file_click: None,
            drag_file: None,
            selected: None,
            hover: PanelHit::Outside,
            op_running: false,
            op_done: false,
            op_error: String::new(),
            last_refresh: None,
            needs_refresh: false,
        };
        proof {
            lemma_empty_paths(r.expanded@);
            assert(tree::rows_value(r.rows@) =~= Seq::empty());
        }
        r
    }

    /// Toggles the drawer. Re-invoking with the *other* view while open only
    /// switches views instead of closing.
    pub fn toggle(&mut self, view: PanelView)
        requires
            old(self).wf(),
        ensures
            final(self).value() == toggled(old(self).value(), view),
            final(self).wf(),
    {
        if self.open && self.view == view {
            self.open = false;
            self.selected = None;
            self.drag_file = None;
            return;
        }
        self.open = true;
        self.view = view;
        self.scroll = 0;
        self.needs_refresh = true;
    }

    /// Adopts the focused pane's directory and decides whether a new snapshot is
    /// due: when the root changed, a refresh was requested, an operation
    /// finished, or the throttle window has elapsed. `now` is in milliseconds.
    /// Returns whether the rows and the git state have to be read anew.
    pub fn sync(&mut self, cwd: Option<String>, now: u64) -> (r: bool)
        requires
            old(self).wf(),
        ensures
            r == wants_refresh(old(self).value(), tree::optional_text(cwd), now),
            final(self).value() == synced(old(self).value(), tree::optional_text(cwd), now),
            final(self).wf(),
    {
        if !self.open {
            return false;
        }
        let root_changed: bool = !same_text(&cwd, &self.root);
        let idle: bool = unicode::trim(self.search.as_str()).as_str().is_empty();
        let stale: bool = idle && match self.last_refresh {
            None => true,
            Some(t) => now >= t && now - t >= REFRESH_EVERY,
        };
        if !(root_changed || stale || self.op_done || self.needs_refresh) {
            return false;
        }
        self.op_done = false;
        if root_changed {
            self.root = cwd;
            self.expanded = Vec::new();
            self.scroll = 0;
            self.selected = None;
            proof {
                lemma_empty_paths(self.expanded@);
            }
        }
        self.needs_refresh = false;
        self.last_refresh = Some(now);
        self.search_index = None;
        self.rows_due = true;
        self.git = None;
        true
    }

    /// Rebuilds the flattened rows from what was read. Where a listing is
    /// missing, nothing changes, and the directory to read is returned.
    pub fn rebuild_rows(&mut self, snapshot: &TreeSnapshot) -> (missing: Option<String>)
        requires
            old(self).wf(),
        ensures
            match rebuilt(old(self).value(), snapshot.value()) {
                Rebuilt::Done(p) => missing is None && final(self).value() == p,
                Rebuilt::Missing(d) => tree::optional_text(missing) == Some(d)
                    && final(self).value() == old(self).value(),
            },
            final(self).wf(),
    {
        let ghost before = self.value();
        let mut rows: Vec<FileRow> = Vec::new();
        assert(tree::rows_value(rows@) =~= Seq::empty());
        let root: String = match &self.root {
            Some(root) => root.clone(),
            None => {
                self.rows = rows;
                self.rows_due = false;
                return None;
            },
        };
        let trimmed = unicode::trim(self.search.as_str());
        let needle = unicode::to_lowercase(trimmed.as_str());
        if needle.as_str().is_empty() {
            let missing = tree::flatten_dir(snapshot, &self.expanded, root.as_str(), 0, &mut rows);
            if missing.is_some() {
                return missing;
            }
            proof {
                let walk = tree::flatten(
                    snapshot.value(),
                    before.expanded,
                    root@,
                    0,
                    MAX_ROWS as nat,
                );
                assert(Seq::<Row>::empty() + walk->Rows_0 =~= walk->Rows_0);
            }
            self.rows = rows;
            self.rows_due = false;
            return None;
        }
        if self.search_index.is_none() {
            let mut index: Vec<FileRow> = Vec::new();
            assert(tree::rows_value(index@) =~= Seq::empty());
            let mut budget: usize = SEARCH_VISIT_BUDGET;
            let missing = tree::build_search_index(
                snapshot,
                root.as_str(),
                0,
                &mut index,
                &mut budget,
            );
            if missing.is_some() {
                return missing;
            }
            proof {
                let outcome = tree::scan(
                    snapshot.value(),
                    root@,
                    0,
                    SEARCH_INDEX_CAP as nat,
                    SEARCH_VISIT_BUDGET as nat,
                );
                assert(Seq::<Row>::empty() + outcome->Rows_0 =~= outcome->Rows_0);
            }
            self.search_index = Some(index);
        }
        if let Some(index) = &self.search_index {
            rows = tree::filter_rows(index, needle.as_str());
        }
        self.rows = rows;
        self.rows_due = false;
        None
    }

    /// Takes the git state of the root.
    pub fn set_git(&mut self, git: Option<GitInfo>)
        requires
            old(self).wf(),
        ensures
            final(self).value() == (PanelState { git: optional_git(git), ..old(self).value() }),
            final(self).wf(),
    {
        self.git = git;
    }

    /// Appends typed text to the filter query.
    pub fn search_input(&mut self, text: &str)
        requires
            old(self).wf(),
        ensures
            final(self).value() == searching(old(self).value(), old(self).search@ + printable(text@)),
            final(self).wf(),
    {
        let search = with_printable(self.search.as_str(), text);
        self.search = search;
        self.scroll = 0;
        self.rows_due = true;
    }

    /// Appends typed text to the commit message.
    pub fn commit_input(&mut self, text: &str)
        requires
            old(self).wf(),
        ensures
            final(self).value() == (PanelState {
                commit_msg: old(self).commit_msg@ + printable(text@),
                ..old(self).value()
            }),
            final(self).wf(),
    {
        self.commit_msg = with_printable(self.commit_msg.as_str(), text);
    }

    /// Takes the keyboard away from the boxes, without clearing them.
    pub fn unfocus(&mut self)
        requires
            old(self).wf(),
        ensures
            final(self).value() == (PanelState {
                search_focus: false,
                commit_focus: false,
                ..old(self).value()
            }),
            final(self).wf(),
    {
        self.search_unfocus(false);
        self.commit_focus = false;
    }

    /// Takes the last character off the filter query.
    pub fn search_backspace(&mut self)
        requires
            old(self).wf(),
        ensures
            final(self).value() == searching(
                old(self).value(),
                if old(self).search@.len() == 0 {
                    old(self).search@
                } else {
                    old(self).search@.drop_last()
                },
            ),
            final(self).wf(),
    {
        let mut search = self.search.clone();
        let _ = search.pop();
        self.search = search;
        self.scroll = 0;
        self.rows_due = true;
    }

    /// The rows of the tree that are listed.
    pub fn file_rows(&self) -> (r: &Vec<FileRow>)
        ensures
            *r == self.rows,
    {
        &self.rows
    }

    /// The git snapshot, where the root is inside of a work tree.
    pub fn git(&self) -> (r: Option<&GitInfo>)
        ensures
            match r {
                Some(g) => self.git == Some(*g),
                None => self.git is None,
            },
    {
        self.git.as_ref()
    }

    /// The directory that is shown.
    pub fn root(&self) -> (r: Option<&String>)
        ensures
            match r {
                Some(d) => self.root == Some(*d),
                None => self.root is None,
            },
    {
        self.root.as_ref()
    }

    /// Whether a git mutation is in flight.
    pub fn op_running(&self) -> (r: bool)
        ensures
            r == self.op_running,
    {
        self.op_running
    }

    /// Leaves the filter box; `clear` also resets the query.
    pub fn search_unfocus(&mut self, clear: bool)
        requires
            old(self).wf(),
        ensures
            final(self).value() == ({
                let p = PanelState { search_focus: false, ..old(self).value() };
                if clear && old(self).search@.len() > 0 {
                    searching(p, Seq::empty())
                } else {
                    p
                }
            }),
            final(self).wf(),
    {
        self.search_focus = false;
        if clear && !self.search.as_str().is_empty() {
            self.search = String::new();
            self.scroll = 0;
            self.rows_due = true;
        }
    }

    /// Last operation's error, if any.
    pub fn op_error(&self) -> (r: Option<&str>)
        ensures
            match r {
                Some(e) => e@ == self.op_error@ && self.op_error@.len() > 0,
                None => self.op_error@.len() == 0,
            },
    {
        let error: &str = self.op_error.as_str();
        if error.is_empty() {
            None
        } else {
            Some(error)
        }
    }

    /// An operation finished, with an empty text where it succeeded.
    pub fn finish_op(&mut self, error: String)
        requires
            old(self).wf(),
        ensures
            final(self).value() == (PanelState {
                op_running: false,
                op_done: true,
                op_error: error@,
                ..old(self).value()
            }),
            final(self).wf(),
    {
        self.op_running = false;
        self.op_done = true;
        self.op_error = error;
    }

    fn spawn_git(&mut self, args: Vec<String>) -> (r: Option<Vec<String>>)
        requires
            old(self).wf(),
        ensures
            command_value(r) == spawned(old(self).value(), args@.map_values(|s: String| s@)),
            final(self).value() == started(old(self).value()),
            final(self).wf(),
    {
        if self.root.is_none() || self.op_running {
            return None;
        }
        self.op_running = true;
        Some(args)
    }

    /// `git add -A`: stages everything. Returns the arguments to run git with.
    pub fn git_stage_all(&mut self) -> (r: Option<Vec<String>>)
        requires
            old(self).wf(),
        ensures
            command_value(r) == if git::can_stage(old(self).value().git, old(self).op_running) {
                spawned(old(self).value(), seq!["add"@, "-A"@])
            } else {
                None
            },
            final(self).value() == if git::can_stage(old(self).value().git, old(self).op_running) {
                started(old(self).value())
            } else {
                old(self).value()
            },
            final(self).wf(),
    {
        let pending: bool = match &self.git {
            Some(g) => g.unstaged.len() > 0,
            None => false,
        };
        if pending && !self.op_running {
            let mut args: Vec<String> = Vec::new();
            args.push("add".to_owned());
            args.push("-A".to_owned());
            assert(args@.map_values(|s: String| s@) =~= seq!["add"@, "-A"@]);
            return self.spawn_git(args);
        }
        None
    }

    /// Commit button: with staged changes, opens the message input.
    pub fn git_begin_commit(&mut self)
        requires
            old(self).wf(),
        ensures
            final(self).value() == (PanelState {
                commit_focus: old(self).commit_focus || git::can_commit(
                    old(self).value().git,
                    old(self).op_running,
                ),
                ..old(self).value()
            }),
            final(self).wf(),
    {
        let pending: bool = match &self.git {
            Some(g) => g.staged.len() > 0,
            None => false,
        };
        if pending && !self.op_running {
            self.commit_focus = true;
        }
    }

    /// Enter in the message box: commits with the message. Returns the arguments
    /// to run git with.
    pub fn git_commit_submit(&mut self) -> (r: Option<Vec<String>>)
        requires
            old(self).wf(),
        ensures
            ({
                let msg = unicode::trimmed(old(self).commit_msg@);
                let cleared = PanelState {
                    commit_focus: false,
                    commit_msg: Seq::empty(),
                    ..old(self).value()
                };
                if msg.len() == 0 || old(self).op_running {
                    r is None && final(self).value() == old(self).value()
                } else {
                    command_value(r) == spawned(cleared, seq!["commit"@, "-m"@, msg])
                        && final(self).value() == started(cleared)
                }
            }),
            final(self).wf(),
    {
        let msg = unicode::trim(self.commit_msg.as_str());
        if msg.as_str().is_empty() || self.op_running {
            return None;
        }
        self.commit_focus = false;
        self.commit_msg = String::new();
        let ghost m = msg@;
        let mut args: Vec<String> = Vec::new();
        args.push("commit".to_owned());
        args.push("-m".to_owned());
        args.push(msg);
        assert(args@.map_values(|s: String| s@) =~= seq!["commit"@, "-m"@, m]);
        self.spawn_git(args)
    }

    /// Push button: only enabled with committed-but-unpushed work. Returns the
    /// arguments to run git with.
    pub fn git_push(&mut self) -> (r: Option<Vec<String>>)
        requires
            old(self).wf(),
        ensures
            command_value(r) == if git::can_push(old(self).value().git, old(self).op_running) {
                spawned(old(self).value(), seq!["push"@])
            } else {
                None
            },
            final(self).value() == if git::can_push(old(self).value().git, old(self).op_running) {
                started(old(self).value())
            } else {
                old(self).value()
            },
            final(self).wf(),
    {
        let pending: bool = match &self.git {
            Some(g) => g.ahead > 0,
            None => false,
        };
        if pending && !self.op_running {
            let mut args: Vec<String> = Vec::new();
            args.push("push".to_owned());
            assert(args@.map_values(|s: String| s@) =~= seq!["push"@]);
            return self.spawn_git(args);
        }
        None
    }

    /// Click on visible row `index` (after scrolling). Directories toggle their
    /// expansion; files are inert. Returns whether anything changed.
    pub fn click_row(&mut self, index: usize) -> (r: bool)
        requires
            old(self).wf(),
        ensures
            r == (toggled_row(old(self).value(), index as nat) is Some),
            final(self).value() == clicked(old(self).value(), index as nat),
            final(self).wf(),
    {
        if self.view != PanelView::Files || !unicode::trim(
            self.search.as_str(),
        ).as_str().is_empty() {
            return false;
        }
        if index >= self.rows.len() || self.scroll >= self.rows.len() - index {
            return false;
        }
        let at: usize = self.scroll + index;
        assert(self.value().rows[at as int] == self.rows@[at as int].value());
        if !self.rows[at].is_dir {
            return false;
        }
        let path = self.rows[at].path.clone();
        let ghost paths = self.expanded@;
        match tree::find_path(&self.expanded, path.as_str()) {
            Some(i) => {
                let _ = self.expanded.remove(i);
                proof {
                    lemma_path_removed(paths, i as int);
                }
            },
            None => {
                self.expanded.push(path);
                proof {
                    lemma_path_added(paths, path);
                }
            },
        }
        self.rows_due = true;
        true
    }

    /// Scrolls by `delta` rows (positive = down), clamped to the list length.
    pub fn scroll_by(&mut self, delta: i32, visible_rows: usize)
        requires
            old(self).wf(),
            scroll_len(old(self).value()) <= usize::MAX,
        ensures
            final(self).value() == scrolled(old(self).value(), delta as int, visible_rows as nat),
            final(self).wf(),
    {
        assert(self.value().rows.len() == self.rows@.len());
        let len: usize = match self.view {
            PanelView::Files => self.rows.len(),
            PanelView::Git => match &self.git {
                Some(g) => {
                    assert(git::changes(g.unstaged@).len() == g.unstaged@.len());
                    assert(git::changes(g.staged@).len() == g.staged@.len());
                    g.unstaged.len() + g.staged.len() + 2
                },
                None => 0,
            },
        };
        let max: usize = if len >= visible_rows {
            len - visible_rows
        } else {
            0
        };
        let wanted: i128 = self.scroll as i128 + delta as i128;
        self.scroll = if wanted < 0 {
            0
        } else if wanted > max as i128 {
            max
        } else {
            wanted as usize
        };
    }

    /// The tree row currently shown at visible index `idx` (after scrolling).
    pub fn visible_row(&self, idx: usize) -> (r: Option<&FileRow>)
        ensures
            match r {
                Some(row) => self.view == PanelView::Files && self.scroll + idx < self.rows@.len()
                    && *row == self.rows@[self.scroll + idx],
                None => self.view != PanelView::Files || self.scroll + idx >= self.rows@.len(),
            },
    {
        if self.view != PanelView::Files {
            return None;
        }
        if idx >= self.rows.len() || self.scroll >= self.rows.len() - idx {
            return None;
        }
        Some(&self.rows[self.scroll + idx])
    }
}

proof fn lemma_path_removed(paths: Seq<String>, i: int)
    requires
        0 <= i < paths.len(),
        distinct(paths),
    ensures
        tree::path_set(paths.remove(i)) == tree::path_set(paths).remove(paths[i]@),
        distinct(paths.remove(i)),
{
    let rest = paths.remove(i);
    assert forall|p: Seq<char>|
        tree::path_set(rest).contains(p) == tree::path_set(paths).remove(paths[i]@).contains(p) by {
        if tree::path_set(rest).contains(p) {
            let k = choose|k: int| 0 <= k < rest.len() && (#[trigger] rest[k])@ == p;
            let m = if k < i {
                k
            } else {
                k + 1
            };
            assert(rest[k] == paths[m]);
            assert(paths[m]@ == p);
            if m < i {
                assert(paths[m]@ != paths[i]@);
            } else {
                assert(paths[i]@ != paths[m]@);
            }
        }
        if tree::path_set(paths).contains(p) && p != paths[i]@ {
            let k = choose|k: int| 0 <= k < paths.len() && (#[trigger] paths[k])@ == p;
            let m = if k < i {
                k
            } else {
                k - 1
            };
            assert(rest[m]@ == p);
        }
    }
    assert(tree::path_set(rest) =~= tree::path_set(paths).remove(paths[i]@));
}

proof fn lemma_path_added(paths: Seq<String>, path: String)
    requires
        distinct(paths),
        !tree::path_set(paths).contains(path@),
    ensures
        tree::path_set(paths.push(path)) == tree::path_set(paths).insert(path@),
        distinct(paths.push(path)),
{
    let more = paths.push(path);
    assert forall|p: Seq<char>|
        tree::path_set(more).contains(p) == tree::path_set(paths).insert(path@).contains(p) by {
        if tree::path_set(more).contains(p) {
            let k = choose|k: int| 0 <= k < more.len() && (#[trigger] more[k])@ == p;
            if k < paths.len() {
                assert(paths[k]@ == p);
            }
        }
        if tree::path_set(paths).contains(p) {
            let k = choose|k: int| 0 <= k < paths.len() && (#[trigger] paths[k])@ == p;
            assert(more[k]@ == p);
        }
        if p == path@ {
            assert(more[paths.len() as int]@ == p);
        }
    }
    assert(tree::path_set(more) =~= tree::path_set(paths).insert(path@));
    assert forall|i: int, j: int| 0 <= i < j < more.len() implies (#[trigger] more[i])@ != (
    #[trigger] more[j])@ by {
        if j == paths.len() {
            assert(more[i] == paths[i]);
            if paths[i]@ == path@ {
                assert(tree::path_set(paths).contains(path@));
            }
        } else {
            assert(more[i] == paths[i] && more[j] == paths[j]);
        }
    }
}

/// Switching views keeps the drawer open; re-toggling the current view closes
/// it.
pub proof fn law_toggling_switches_or_closes(p: PanelState, view: PanelView)
    ensures
        toggled(p, view).open == !(p.open && p.view == view),
        toggled(p, view).open ==> toggled(p, view).view == view,
        !toggled(toggled(p, view), view).open == toggled(p, view).open,
{
}

/// A closed drawer takes no snapshot.
pub proof fn law_closed_panels_rest(p: PanelState, cwd: Option<Seq<char>>, now: u64)
    requires
        !p.open,
    ensures
        !wants_refresh(p, cwd, now),
        synced(p, cwd, now) == p,
{
}

/// After a refresh, another one within the throttle window does nothing, unless
/// the root changed or one was asked for.
pub proof fn law_refreshes_are_throttled(p: PanelState, cwd: Option<Seq<char>>, now: u64, later: u64)
    requires
        wants_refresh(p, cwd, now),
        later - now < REFRESH_EVERY,
    ensures
        !wants_refresh(synced(p, cwd, now), cwd, later),
        synced(synced(p, cwd, now), cwd, later) == synced(p, cwd, now),
{
}

/// A new root starts from a clean slate.
pub proof fn law_new_roots_start_clean(p: PanelState, cwd: Option<Seq<char>>, now: u64)
    requires
        p.open,
        cwd != p.root,
    ensures
        synced(p, cwd, now).root == cwd,
        synced(p, cwd, now).expanded == Set::<Seq<char>>::empty(),
        synced(p, cwd, now).scroll == 0,
        synced(p, cwd, now).selected is None,
        synced(p, cwd, now).search_index is None,
{
}

/// Clicking a directory twice leaves the expanded directories as they were.
pub proof fn law_clicking_twice_undoes(p: PanelState, index: nat)
    ensures
        clicked(clicked(p, index), index).expanded == p.expanded,
{
    if let Some(row) = toggled_row(p, index) {
        assert(toggled_row(clicked(p, index), index) == Some(row));
        assert(clicked(clicked(p, index), index).expanded =~= p.expanded);
    }
}

/// Scrolling stays within the list.
pub proof fn law_scrolling_stays_inside(p: PanelState, delta: int, visible_rows: nat)
    ensures
        scrolled(p, delta, visible_rows).scroll <= tree::less(scroll_len(p), visible_rows),
        p.scroll <= tree::less(scroll_len(p), visible_rows) ==> scrolled(
            p,
            0,
            visible_rows,
        ).scroll == p.scroll,
{
}

/// Only one operation runs at a time.
pub proof fn law_one_operation_at_a_time(p: PanelState, args: Seq<Seq<char>>)
    ensures
        spawned(p, args) is Some ==> started(p).op_running,
        p.op_running ==> spawned(p, args) is None,
        spawned(started(p), args) is Some ==> false,
{
}

/// Taking off what was typed gives the query back.
pub proof fn law_search_backspace_undoes_typing(search: Seq<char>, c: char)
    requires
        !unicode::control(c),
    ensures
        printable(seq![c]) == seq![c],
        (search + printable(seq![c])).drop_last() == search,
{
    reveal(Seq::filter);
    assert(seq![c].drop_last() =~= Seq::empty());
    assert(seq![c].drop_last().filter(|c: char| !unicode::control(c)) =~= Seq::empty());
    assert(printable(seq![c]) =~= seq![c]);
    assert((search + seq![c]).drop_last() =~= search);
}

} // verus!
