//! The tab sidebar: its tabs, the drag that reorders and docks them, and the
//! box that renames one.

use vstd::prelude::*;

use crate::display::program::AiLogo;
use crate::text;
use crate::unicode;

verus! {

/// Orientation of a split between two panes.
#[derive(Debug, Clone, Copy, PartialEq, Eq, Structural)]
pub enum SplitDirection {
    /// Panes side by side, divided by a vertical line.
    LeftRight,
    /// Panes stacked, divided by a horizontal line.
    TopBottom,
}

/// Cardinal direction for moving keyboard focus between split panes.
#[derive(Debug, Clone, Copy, PartialEq, Eq, Structural)]
pub enum SplitNav {
    Left,
    Right,
    Up,
    Down,
}

/// Result of hit-testing a pixel against the top chrome bar.
#[derive(Debug, Clone, Copy, PartialEq, Eq, Structural)]
pub enum ChromeHit {
    /// Not on the chrome.
    Outside,
    TitleBar,
    NewTab,
    Tab(usize),
    TabClose(usize),
    /// The sidebar icon in the top bar that folds the left tab sidebar away and
    /// back. Lives in the title bar so it stays reachable while collapsed.
    SidebarToggle,
    /// Top-bar toggles for the right-side drawer's two views.
    PanelFiles,
    PanelGit,
    Minimize,
    Maximize,
    Close,
}

/// An in-progress tab-bar reorder drag.
///
/// Armed when the pointer presses a tab and promoted to `active` only once it
/// travels past a small threshold, so an ordinary click still selects the tab
/// without nudging the order.
#[derive(Debug, Clone, Copy, PartialEq, Eq, Structural)]
pub struct TabDrag {
    /// Displayed index of the grabbed tab.
    pub source: usize,
    /// Whether the move threshold has been crossed.
    pub active: bool,
    /// Dock target while the pointer hovers the terminal area: dropping here
    /// splits the active tab's layout on that side and moves the dragged tab's
    /// whole pane tree into it.
    pub dock: Option<SplitNav>,
}

/// What releasing a tab drag should do. `Click` covers the no-drag case: tab
/// selection is deferred from press to release, so the terminal area keeps
/// showing the active tab while another tab is being dragged over it to dock.
#[derive(Debug, Clone, Copy, PartialEq, Eq, Structural)]
pub enum TabDropAction {
    /// Plain click (never crossed the drag threshold): select the tab.
    Click(usize),
    /// Reorder within the sidebar: move displayed `from` to displayed `to`.
    Reorder { from: usize, to: usize },
    /// Dock the dragged tab's layout into the active tab on `nav`'s side.
    Dock { source: usize, nav: SplitNav },
}

/// The tab sidebar.
pub struct TabBar {
    pub labels: Vec<String>,
    /// Per-tab marks of an unseen result.
    pub bells: Vec<bool>,
    /// Per-tab "command is running" flags driving the spinners.
    pub running: Vec<bool>,
    /// Per-tab real brand logos.
    pub logos: Vec<Option<AiLogo>>,
    pub active: usize,
    /// In-progress tab drag, if the pointer is grabbing a tab.
    pub drag: Option<TabDrag>,
    /// Whether the tabs may be reordered right now.
    pub reorderable: bool,
    /// Whether the sidebar is folded away.
    pub collapsed: bool,
    /// The tab that is being renamed, with the edit buffer.
    pub rename: Option<(usize, String)>,
    /// True for the instant after a rename begins: the whole existing name reads
    /// as selected and the first typed character replaces it.
    pub rename_select_all: bool,
    /// Insertion caret inside the rename buffer, as a character index.
    pub rename_caret: usize,
    pub hover: ChromeHit,
    /// Whether something changed that has to be drawn.
    pub dirty: bool,
}

/// The tab sidebar as a value.
#[verifier::ext_equal]
pub struct TabState {
    pub labels: Seq<Seq<char>>,
    pub bells: Seq<bool>,
    pub running: Seq<bool>,
    pub logos: Seq<Option<AiLogo>>,
    pub active: nat,
    pub drag: Option<TabDrag>,
    pub reorderable: bool,
    pub collapsed: bool,
    pub rename: Option<(usize, Seq<char>)>,
    pub rename_select_all: bool,
    pub rename_caret: nat,
    pub hover: ChromeHit,
    pub dirty: bool,
}

pub open spec fn texts(v: Seq<String>) -> Seq<Seq<char>> {
    v.map_values(|s: String| s@)
}

pub open spec fn optional_rename(r: Option<(usize, String)>) -> Option<(usize, Seq<char>)> {
    match r {
        Some((i, s)) => Some((i, s@)),
        None => None,
    }
}

impl TabBar {
    pub open spec fn value(&self) -> TabState {
        TabState {
            labels: texts(self.labels@),
            bells: self.bells@,
            running: self.running@,
            logos: self.logos@,
            active: self.active as nat,
            drag: self.drag,
            reorderable: self.reorderable,
            collapsed: self.collapsed,
            rename: optional_rename(self.rename),
            rename_select_all: self.rename_select_all,
            rename_caret: self.rename_caret as nat,
            hover: self.hover,
            dirty: self.dirty,
        }
    }
}

impl TabState {
    /// There is a tab, every tab has its flags, and one of them is active.
    pub open spec fn wf(self) -> bool {
        &&& self.labels.len() > 0
        &&& self.bells.len() == self.labels.len()
        &&& self.running.len() == self.labels.len()
        &&& self.logos.len() == self.labels.len()
        &&& self.active < self.labels.len()
    }
}

/// The sidebar of a new window.
pub open spec fn first_tab() -> TabState {
    TabState {
        labels: seq!["."@],
        bells: seq![false],
        running: seq![false],
        logos: seq![None],
        active: 0,
        drag: None,
        reorderable: true,
        collapsed: false,
        rename: None,
        rename_select_all: false,
        rename_caret: 0,
        hover: ChromeHit::Outside,
        dirty: false,
    }
}

/// A sequence cut or filled up to a length.
pub open spec fn resized<T>(s: Seq<T>, len: nat, fill: T) -> Seq<T> {
    Seq::new(
        len,
        |i: int|
            if i < s.len() {
                s[i]
            } else {
                fill
            },
    )
}

/// The sidebar with new tabs. A drag of a tab that is gone ends.
pub open spec fn with_tabs(
    t: TabState,
    labels: Seq<Seq<char>>,
    dots: Seq<bool>,
    running: Seq<bool>,
    logos: Seq<Option<AiLogo>>,
    active: nat,
    reorderable: bool,
) -> TabState {
    let names = if labels.len() == 0 {
        seq!["."@]
    } else {
        labels
    };
    TabState {
        labels: names,
        bells: resized(dots, names.len(), false),
        running: resized(running, names.len(), false),
        logos: resized(logos, names.len(), None),
        active: if active < names.len() {
            active
        } else {
            (names.len() - 1) as nat
        },
        reorderable,
        drag: match t.drag {
            Some(d) => if d.source >= names.len() {
                None
            } else {
                Some(d)
            },
            None => None,
        },
        ..t
    }
}

fn resize_flags(v: &mut Vec<bool>, len: usize)
    ensures
        final(v)@ == resized(old(v)@, len as nat, false),
{
    let ghost before = v@;
    v.truncate(len);
    while v.len() < len
        invariant
            v@.len() <= len,
            v@.len() >= before.len() || v@.len() == len,
            forall|i: int| #![trigger v@[i]]
                0 <= i < v@.len() ==> v@[i] == if i < before.len() {
                    before[i]
                } else {
                    false
                },
        decreases len - v@.len(),
    {
        v.push(false);
    }
    assert(v@ =~= resized(before, len as nat, false));
}

fn resize_logos(v: &mut Vec<Option<AiLogo>>, len: usize)
    ensures
        final(v)@ == resized(old(v)@, len as nat, None),
{
    let ghost before = v@;
    v.truncate(len);
    while v.len() < len
        invariant
            v@.len() <= len,
            v@.len() >= before.len() || v@.len() == len,
            forall|i: int| #![trigger v@[i]]
                0 <= i < v@.len() ==> v@[i] == if i < before.len() {
                    before[i]
                } else {
                    None
                },
        decreases len - v@.len(),
    {
        v.push(None);
    }
    assert(v@ =~= resized(before, len as nat, None));
}

/// What the release of a drag means. `passed` is the number of other tabs whose
/// centre the pointer has passed, which is the slot to insert the tab into once
/// it has been removed.
pub open spec fn dropped(t: TabState, passed: nat) -> Option<TabDropAction> {
    match t.drag {
        None => None,
        Some(d) => Some(
            if !d.active {
                TabDropAction::Click(d.source)
            } else {
                match d.dock {
                    Some(nav) => TabDropAction::Dock { source: d.source, nav },
                    None => if !t.reorderable || t.labels.len() < 2 || drop_slot(t, passed)
                        == d.source {
                        TabDropAction::Click(d.source)
                    } else {
                        TabDropAction::Reorder { from: d.source, to: drop_slot(t, passed) }
                    },
                }
            },
        ),
    }
}

/// The displayed slot that the grabbed tab would drop into.
pub open spec fn drop_slot(t: TabState, passed: nat) -> usize {
    (if passed < t.labels.len() {
        passed
    } else if t.labels.len() > 0 {
        (t.labels.len() - 1) as nat
    } else {
        0
    }) as usize
}

/// How rows make way during a drag: the rows between the grabbed one and the
/// drop slot slide one slot towards the vacated place.
pub open spec fn makes_way(source: int, target: int, index: int) -> int {
    if source < target && source < index <= target {
        -1
    } else if source > target && target <= index < source {
        1
    } else {
        0
    }
}

/// How many slots row `index` slides while the tab at `source` is dragged to
/// slot `target`.
pub fn tab_shift(source: usize, target: usize, index: usize) -> (r: i32)
    ensures
        r == makes_way(source as int, target as int, index as int),
{
    if source < target && index > source && index <= target {
        -1
    } else if source > target && index >= target && index < source {
        1
    } else {
        0
    }
}

/// The caret brought into the buffer.
pub open spec fn caret_in(caret: nat, len: nat) -> nat {
    if caret < len {
        caret
    } else {
        len
    }
}

/// The rename box after text was typed or pasted into it.
pub open spec fn inserted(t: TabState, text: Seq<char>) -> TabState {
    match t.rename {
        None => t,
        Some((index, buf)) => {
            let held = if t.rename_select_all {
                Seq::empty()
            } else {
                buf
            };
            let at = if t.rename_select_all {
                0
            } else {
                caret_in(t.rename_caret, held.len())
            };
            TabState {
                rename: Some((index, held.take(at as int) + text + held.skip(at as int))),
                rename_select_all: false,
                rename_caret: at + text.len(),
                dirty: true,
                ..t
            }
        },
    }
}

/// The rename box after a backspace.
pub open spec fn backspaced(t: TabState) -> TabState {
    match t.rename {
        None => t,
        Some((index, buf)) => if t.rename_select_all {
            TabState {
                rename: Some((index, Seq::empty())),
                rename_select_all: false,
                rename_caret: 0,
                dirty: true,
                ..t
            }
        } else if caret_in(t.rename_caret, buf.len()) > 0 {
            let at = caret_in(t.rename_caret, buf.len());
            TabState {
                rename: Some((index, buf.remove(at - 1))),
                rename_caret: (at - 1) as nat,
                dirty: true,
                ..t
            }
        } else {
            TabState { dirty: true, ..t }
        },
    }
}

/// The rename box after the caret moved. A selection collapses to the matching
/// end without moving further.
pub open spec fn caret_moved(t: TabState, delta: int) -> TabState {
    match t.rename {
        None => t,
        Some((_, buf)) => if t.rename_select_all {
            TabState {
                rename_select_all: false,
                rename_caret: if delta < 0 {
                    0
                } else {
                    buf.len()
                },
                dirty: true,
                ..t
            }
        } else {
            let at = caret_in(t.rename_caret, buf.len()) + delta;
            TabState {
                rename_caret: (if at < 0 {
                    0
                } else if at > buf.len() {
                    buf.len() as int
                } else {
                    at
                }) as nat,
                dirty: true,
                ..t
            }
        },
    }
}

/// How many columns a character of the rename box takes: at least one.
pub open spec fn box_columns(c: char) -> nat {
    match unicode::char_width(c) {
        Some(n) => if n > 1 {
            n as nat
        } else {
            1
        },
        None => 1,
    }
}

/// The character at a column, counted from the buffer's first.
pub open spec fn char_at_column(buf: Seq<char>, col: nat) -> nat
    decreases buf.len(),
{
    if buf.len() == 0 || col < box_columns(buf[0]) {
        0
    } else {
        1 + char_at_column(buf.drop_first(), (col - box_columns(buf[0])) as nat)
    }
}

/// How many columns the first `n` characters take.
pub open spec fn columns_before(buf: Seq<char>, n: nat) -> nat
    decreases n,
{
    if n == 0 || n > buf.len() {
        0
    } else {
        columns_before(buf, (n - 1) as nat) + box_columns(buf[n - 1])
    }
}

pub(crate) fn box_column_count(c: char) -> (r: usize)
    ensures
        r == box_columns(c),
        1 <= r <= 255,
{
    match unicode::width_of(c) {
        Some(n) => if n > 1 {
            n
        } else {
            1
        },
        None => 1,
    }
}

impl TabBar {
    /// The sidebar of a new window.
    pub fn new() -> (r: Self)
        ensures
            r.value() == first_tab(),
            r.value().wf(),
    {
        let mut labels: Vec<String> = Vec::new();
        labels.push(".".to_owned());
        let mut bells: Vec<bool> = Vec::new();
        bells.push(false);
        let mut running: Vec<bool> = Vec::new();
        running.push(false);
        let mut logos: Vec<Option<AiLogo>> = Vec::new();
        logos.push(None);
        assert(texts(labels@) =~= seq!["."@]);
        assert(bells@ =~= seq![false]);
        assert(running@ =~= seq![false]);
        assert(logos@ =~= seq![None]);
        TabBar {
            labels,
            bells,
            running,
            logos,
            active: 0,
            drag: None,
            reorderable: true,
            collapsed: false,
            rename: None,
            rename_select_all: false,
            rename_caret: 0,
            hover: ChromeHit::Outside,
            dirty: false,
        }
    }

    /// Takes the tabs of the window. Missing flags are off, and an active tab
    /// that is not there is the last one.
    pub fn set_chrome_tabs(
        &mut self,
        labels: Vec<String>,
        dots: Vec<bool>,
        running: Vec<bool>,
        logos: Vec<Option<AiLogo>>,
        active: usize,
        reorderable: bool,
    )
        ensures
            final(self).value() == with_tabs(
                old(self).value(),
                texts(labels@),
                dots@,
                running@,
                logos@,
                active as nat,
                reorderable,
            ),
            final(self).value().wf(),
    {
        let mut names = labels;
        let mut bells = dots;
        let mut spinning = running;
        let mut marks = logos;
        if names.len() == 0 {
            names.push(".".to_owned());
            assert(texts(names@) =~= seq!["."@]);
        }
        assert(texts(names@).len() == names@.len());
        let len: usize = names.len();
        resize_flags(&mut bells, len);
        resize_flags(&mut spinning, len);
        resize_logos(&mut marks, len);
        self.labels = names;
        self.bells = bells;
        self.running = spinning;
        self.logos = marks;
        self.active = if active < len {
            active
        } else {
            len - 1
        };
        self.reorderable = reorderable;
        if let Some(d) = self.drag {
            if d.source >= len {
                self.drag = None;
            }
        }
    }

    /// Whether any tab currently shows a running spinner: drives the fast chrome
    /// animation clock instead of the slow one.
    pub fn any_tab_running(&self) -> (r: bool)
        ensures
            r == self.running@.contains(true),
    {
        let mut i: usize = 0;
        while i < self.running.len()
            invariant
                i <= self.running@.len(),
                forall|j: int| 0 <= j < i ==> !self.running@[j],
            decreases self.running@.len() - i,
        {
            if self.running[i] {
                return true;
            }
            i += 1;
        }
        false
    }

    /// Arms a potential tab drag from a press on displayed tab `source`. Always
    /// arms, because the release decides between click, reorder and dock.
    pub fn arm_tab_drag(&mut self, source: usize)
        ensures
            final(self).value() == ({
                let d = TabDrag { source, active: false, dock: None };
                TabState { drag: Some(d), ..old(self).value() }
            }),
    {
        self.drag = Some(TabDrag { source, active: false, dock: None });
    }

    /// Whether a tab drag is currently armed (pressed, possibly not yet moved).
    pub fn tab_drag_armed(&self) -> (r: bool)
        ensures
            r == (self.drag is Some),
    {
        self.drag.is_some()
    }

    /// Feeds the pointer into an armed drag: whether it is past the threshold,
    /// and the dock side under it. Returns whether the drag is active.
    pub fn update_tab_drag(&mut self, past_threshold: bool, dock: Option<SplitNav>) -> (r: bool)
        ensures
            final(self).value() == ({
                let t = old(self).value();
                match t.drag {
                    None => t,
                    Some(d) => {
                        let active = d.active || past_threshold;
                        let moved = TabDrag {
                            source: d.source,
                            active,
                            dock: if active {
                                dock
                            } else {
                                d.dock
                            },
                        };
                        TabState { drag: Some(moved), ..t }
                    },
                }
            }),
            r == (old(self).drag is Some && (old(self).drag->0.active || past_threshold)),
    {
        match self.drag {
            Some(d) => {
                let active: bool = d.active || past_threshold;
                let dock: Option<SplitNav> = if active {
                    dock
                } else {
                    d.dock
                };
                self.drag = Some(TabDrag { source: d.source, active, dock });
                active
            },
            None => false,
        }
    }

    /// The displayed slot that the grabbed tab would drop into: the number of
    /// other tabs whose centre the pointer has passed, at most the last slot.
    pub fn tab_drop_index(&self, passed: usize) -> (r: usize)
        ensures
            r == drop_slot(self.value(), passed as nat),
    {
        let len: usize = self.labels.len();
        assert(self.value().labels.len() == len);
        if passed < len {
            passed
        } else if len > 0 {
            len - 1
        } else {
            0
        }
    }

    /// Finishes a tab drag, deciding what the release means.
    pub fn end_tab_drag(&mut self, passed: usize) -> (r: Option<TabDropAction>)
        ensures
            r == dropped(old(self).value(), passed as nat),
            final(self).value() == (TabState { drag: None, ..old(self).value() }),
    {
        let target: usize = self.tab_drop_index(passed);
        assert(self.value().labels.len() == self.labels@.len());
        let d: TabDrag = match self.drag {
            Some(d) => d,
            None => return None,
        };
        self.drag = None;
        if !d.active {
            return Some(TabDropAction::Click(d.source));
        }
        if let Some(nav) = d.dock {
            return Some(TabDropAction::Dock { source: d.source, nav });
        }
        if !self.reorderable || self.labels.len() < 2 || target == d.source {
            return Some(TabDropAction::Click(d.source));
        }
        Some(TabDropAction::Reorder { from: d.source, to: target })
    }

    /// Takes what the pointer hovers.
    pub fn set_chrome_hover(&mut self, hit: ChromeHit)
        ensures
            final(self).value() == (TabState {
                hover: hit,
                dirty: old(self).dirty || hit != old(self).hover,
                ..old(self).value()
            }),
    {
        if self.hover != hit {
            self.hover = hit;
            self.dirty = true;
        }
    }

    /// Folds the sidebar in or out.
    pub fn toggle_sidebar(&mut self)
        ensures
            final(self).value() == (TabState {
                collapsed: !old(self).collapsed,
                dirty: true,
                ..old(self).value()
            }),
    {
        self.collapsed = !self.collapsed;
        self.dirty = true;
    }

    /// Inserts `text` at the caret. A pending select-all is replaced wholesale.
    pub fn tab_rename_insert(&mut self, text: &str)
        ensures
            final(self).value() == inserted(old(self).value(), text@),
    {
        let (index, held) = match &self.rename {
            Some((index, buf)) => (
                *index,
                if self.rename_select_all {
                    Vec::new()
                } else {
                    text::chars_of(buf.as_str())
                },
            ),
            None => return,
        };
        let at: usize = if self.rename_select_all {
            0
        } else if self.rename_caret < held.len() {
            self.rename_caret
        } else {
            held.len()
        };
        let mut out = text::chars_of_range(held.as_slice(), 0, at);
        let mut middle = text::chars_of(text);
        let mut tail = text::chars_of_range(held.as_slice(), at, held.len());
        let added: usize = middle.len();
        out.append(&mut middle);
        let caret: usize = out.len();
        out.append(&mut tail);
        assert(out@ =~= held@.take(at as int) + text@ + held@.skip(at as int));
        assert(caret == at + added);
        self.rename = Some((index, text::string_of(out.as_slice())));
        self.rename_select_all = false;
        self.rename_caret = caret;
        self.dirty = true;
    }

    /// Backspace at the caret; a pending select-all clears the whole name.
    pub fn tab_rename_backspace(&mut self)
        ensures
            final(self).value() == backspaced(old(self).value()),
    {
        let (index, buf) = match &self.rename {
            Some((index, buf)) => (*index, text::chars_of(buf.as_str())),
            None => return,
        };
        if self.rename_select_all {
            self.rename = Some((index, String::new()));
            self.rename_select_all = false;
            self.rename_caret = 0;
        } else {
            let at: usize = if self.rename_caret < buf.len() {
                self.rename_caret
            } else {
                buf.len()
            };
            if at > 0 {
                let mut out = buf;
                let _ = out.remove(at - 1);
                self.rename = Some((index, text::string_of(out.as_slice())));
                self.rename_caret = at - 1;
            }
        }
        self.dirty = true;
    }

    /// Moves the caret by `delta` characters.
    pub fn tab_rename_move_caret(&mut self, delta: i32)
        ensures
            final(self).value() == caret_moved(old(self).value(), delta as int),
    {
        let len: usize = match &self.rename {
            Some((_, buf)) => text::chars_of(buf.as_str()).len(),
            None => return,
        };
        if self.rename_select_all {
            self.rename_select_all = false;
            self.rename_caret = if delta < 0 {
                0
            } else {
                len
            };
        } else {
            let at: usize = if self.rename_caret < len {
                self.rename_caret
            } else {
                len
            };
            let wanted: i128 = at as i128 + delta as i128;
            self.rename_caret = if wanted < 0 {
                0
            } else if wanted > len as i128 {
                len
            } else {
                wanted as usize
            };
        }
        self.dirty = true;
    }

    /// Jumps the caret to the start or the end.
    pub fn tab_rename_caret_edge(&mut self, end: bool)
        ensures
            final(self).value() == ({
                let t = old(self).value();
                match t.rename {
                    None => t,
                    Some((_, buf)) => TabState {
                        rename_select_all: false,
                        rename_caret: if end {
                            buf.len()
                        } else {
                            0
                        },
                        dirty: true,
                        ..t
                    },
                }
            }),
    {
        let len: usize = match &self.rename {
            Some((_, buf)) => text::chars_of(buf.as_str()).len(),
            None => return,
        };
        self.rename_select_all = false;
        self.rename_caret = if end {
            len
        } else {
            0
        };
        self.dirty = true;
    }

    /// Places the caret from a press on a column of the box, counted from its
    /// first character.
    pub fn tab_rename_click(&mut self, column: usize)
        ensures
            final(self).value() == ({
                let t = old(self).value();
                match t.rename {
                    None => t,
                    Some((_, buf)) => TabState {
                        rename_select_all: false,
                        rename_caret: char_at_column(buf, column as nat),
                        dirty: true,
                        ..t
                    },
                }
            }),
    {
        let buf = match &self.rename {
            Some((_, buf)) => text::chars_of(buf.as_str()),
            None => return,
        };
        let mut col: usize = column;
        let mut caret: usize = 0;
        assert(buf@.skip(0) =~= buf@);
        while caret < buf.len()
            invariant_except_break
                caret <= buf@.len(),
                char_at_column(buf@, column as nat) == caret + char_at_column(
                    buf@.skip(caret as int),
                    col as nat,
                ),
            ensures
                caret <= buf@.len(),
                char_at_column(buf@, column as nat) == caret,
            decreases buf@.len() - caret,
        {
            let w: usize = box_column_count(buf[caret]);
            assert(buf@.skip(caret as int).drop_first() =~= buf@.skip(caret + 1));
            if col < w {
                break;
            }
            col -= w;
            caret += 1;
        }
        self.rename_select_all = false;
        self.rename_caret = caret;
        self.dirty = true;
    }
}

/// Whatever is handed in, there is a tab, every tab has its flags, and one of
/// them is active.
pub proof fn law_tabs_stay_well_formed(
    t: TabState,
    labels: Seq<Seq<char>>,
    dots: Seq<bool>,
    running: Seq<bool>,
    logos: Seq<Option<AiLogo>>,
    active: nat,
    reorderable: bool,
)
    ensures
        with_tabs(t, labels, dots, running, logos, active, reorderable).wf(),
        with_tabs(t, labels, dots, running, logos, active, reorderable).drag matches Some(d)
            ==> d.source < with_tabs(
            t,
            labels,
            dots,
            running,
            logos,
            active,
            reorderable,
        ).labels.len(),
{
}

/// A press without a move is a click on that tab.
pub proof fn law_unmoved_drags_are_clicks(t: TabState, passed: nat)
    requires
        t.drag is Some,
        !t.drag->0.active,
    ensures
        dropped(t, passed) == Some(TabDropAction::Click(t.drag->0.source)),
{
}

/// A drop moves a tab to another slot that is there.
pub proof fn law_drops_stay_in_the_sidebar(t: TabState, passed: nat)
    requires
        t.wf(),
        t.labels.len() <= usize::MAX,
    ensures
        dropped(t, passed) matches Some(TabDropAction::Reorder { from, to }) ==> from != to && to
            < t.labels.len(),
{
}

/// While a tab is dragged, the other rows keep distinct slots, and none of them
/// is the drop slot.
pub proof fn law_rows_make_way(source: int, target: int, i: int, j: int)
    requires
        i != source,
        j != source,
        i != j,
    ensures
        i + makes_way(source, target, i) != j + makes_way(source, target, j),
        i + makes_way(source, target, i) != target,
{
}

/// Typing into a selected name replaces it.
pub proof fn law_typing_replaces_the_selection(t: TabState, text: Seq<char>)
    requires
        t.rename is Some,
        t.rename_select_all,
    ensures
        (inserted(t, text).rename->0).1 == text,
        inserted(t, text).rename_caret == text.len(),
        !inserted(t, text).rename_select_all,
{
    assert(Seq::<char>::empty().take(0) + text + Seq::<char>::empty().skip(0) =~= text);
}

/// A backspace takes back the character that was typed last.
pub proof fn law_backspace_undoes_typing(t: TabState, c: char)
    requires
        t.rename is Some,
        !t.rename_select_all,
    ensures
        backspaced(inserted(t, seq![c])).rename == t.rename,
        backspaced(inserted(t, seq![c])).rename_caret == caret_in(
            t.rename_caret,
            (t.rename->0).1.len(),
        ),
{
    let (index, buf) = t.rename->0;
    let at = caret_in(t.rename_caret, buf.len()) as int;
    let typed = buf.take(at) + seq![c] + buf.skip(at);
    assert(typed.remove(at) =~= buf);
}

/// A click on the column where a character begins puts the caret in front of
/// it.
pub proof fn law_clicks_find_the_character(buf: Seq<char>, n: nat)
    requires
        n <= buf.len(),
    ensures
        char_at_column(buf, columns_before(buf, n)) == n,
    decreases n,
{
    if n == 0 {
    } else {
        let rest = buf.drop_first();
        law_clicks_find_the_character(rest, (n - 1) as nat);
        lemma_columns_shift(buf, n);
    }
}

proof fn lemma_columns_shift(buf: Seq<char>, n: nat)
    requires
        0 < n <= buf.len(),
    ensures
        columns_before(buf, n) == box_columns(buf[0]) + columns_before(
            buf.drop_first(),
            (n - 1) as nat,
        ),
    decreases n,
{
    if n == 1 {
        assert(columns_before(buf, 0) == 0);
    } else {
        lemma_columns_shift(buf, (n - 1) as nat);
        assert(buf.drop_first()[n - 2] == buf[n - 1]);
    }
}

} // verus!
