//! Command palette (`Ctrl+Shift+P`): a fuzzy-searchable launcher for every
//! Nebula action, the discoverable entry point for features whose shortcuts
//! are hard to remember.
//!
//! This module owns the *model*: the action list, the query/selection state
//! and fuzzy filtering.

use vstd::prelude::*;

use crate::display::theme::NebulaTheme;
use crate::order;
use crate::text;
use crate::unicode;

verus! {

/// A single executable action reachable from the command palette.
///
/// Deliberately flat and `Copy` so the input layer can match on it after the
/// palette closes, without holding any borrow.
#[derive(Debug, Clone, Copy, PartialEq, Eq, Structural)]
pub enum PaletteAction {
    NewTab,
    CloseTab,
    NextTab,
    PrevTab,
    NewWindow,
    SplitRight,
    SplitDown,
    OpenSettings,
    OpenSettingsFile,
    ToggleGhost,
    CycleAccept,
    PickBackgroundImage,
    CycleBackground,
    ResetAppearance,
    SelectTheme(NebulaTheme),
    /// Launch the quick-launch profile at this config index in a new tab.
    LaunchProfile(usize),
    ToggleFilesPanel,
    ToggleGitPanel,
}

/// One palette row.
///
/// * `label`: localized text shown on the left.
/// * `hint`: optional shortcut / aux text, dimmed and right-aligned (ASCII, so
///   its on-screen width equals its `char` count).
/// * `search`: the haystack matched against the query. Includes the label plus
///   latin aliases (pinyin / English) so the palette is reachable even when the
///   IME can't feed CJK into it.
/// * `action`: what to run on confirm.
pub struct PaletteItem {
    pub label: &'static str,
    pub hint: &'static str,
    pub search: &'static str,
    pub action: PaletteAction,
}

/// A palette row, as a value.
pub struct Row {
    pub label: Seq<char>,
    pub hint: Seq<char>,
    pub search: Seq<char>,
    pub action: PaletteAction,
}

impl PaletteItem {
    pub open spec fn value(self) -> Row {
        Row { label: self.label@, hint: self.hint@, search: self.search@, action: self.action }
    }
}

/// Number of built-in actions.
pub const ITEM_COUNT: usize = 23;

/// How many recently-run actions are remembered for the empty-query ordering.
pub const RECENT_MAX: usize = 6;

/// The built-in action `i`, in declaration order (also the tie-break order when
/// fuzzy scores are equal, and the order shown for an empty query).
pub open spec fn row(i: int) -> Row {
    if i == 0 {
        Row {
            label: "新建标签页"@,
            hint: "Ctrl+Shift+T"@,
            search: "新建标签页 new tab xinjian biaoqianye"@,
            action: PaletteAction::NewTab,
        }
    } else if i == 1 {
        Row {
            label: "关闭标签页"@,
            hint: "Ctrl+Shift+W"@,
            search: "关闭标签页 close tab guanbi"@,
            action: PaletteAction::CloseTab,
        }
    } else if i == 2 {
        Row {
            label: "下一个标签页"@,
            hint: "Ctrl+Tab"@,
            search: "下一个标签页 next tab xiayige"@,
            action: PaletteAction::NextTab,
        }
    } else if i == 3 {
        Row {
            label: "上一个标签页"@,
            hint: "Ctrl+Shift+Tab"@,
            search: "上一个标签页 previous prev tab shangyige"@,
            action: PaletteAction::PrevTab,
        }
    } else if i == 4 {
        Row {
            label: "新建窗口"@,
            hint: "Ctrl+Shift+E"@,
            search: "新建窗口 new window xinjian chuangkou"@,
            action: PaletteAction::NewWindow,
        }
    } else if i == 5 {
        Row {
            label: "左右分屏"@,
            hint: "Ctrl+Shift+D"@,
            search: "左右分屏 split right vertical zuoyou fenping"@,
            action: PaletteAction::SplitRight,
        }
    } else if i == 6 {
        Row {
            label: "上下分屏"@,
            hint: "Ctrl+Shift+S"@,
            search: "上下分屏 split down horizontal shangxia fenping"@,
            action: PaletteAction::SplitDown,
        }
    } else if i == 7 {
        Row {
            label: "目录树面板"@,
            hint: "Ctrl+Shift+O"@,
            search: "目录树面板 files tree explorer panel mulushu wenjian"@,
            action: PaletteAction::ToggleFilesPanel,
        }
    } else if i == 8 {
        Row {
            label: "Git 面板"@,
            hint: "Ctrl+Shift+G"@,
            search: "git 面板 status branch panel mianban"@,
            action: PaletteAction::ToggleGitPanel,
        }
    } else if i == 9 {
        Row {
            label: "打开设置"@,
            hint: ""@,
            search: "打开设置 open settings preferences dakai shezhi"@,
            action: PaletteAction::OpenSettings,
        }
    } else if i == 10 {
        Row {
            label: "打开配置文件"@,
            hint: ""@,
            search: "打开配置文件 open config file dakai peizhi wenjian"@,
            action: PaletteAction::OpenSettingsFile,
        }
    } else if i == 11 {
        Row {
            label: "切换行内补全 (Ghost)"@,
            hint: ""@,
            search: "切换行内补全 toggle ghost completion qiehuan buquan"@,
            action: PaletteAction::ToggleGhost,
        }
    } else if i == 12 {
        Row {
            label: "切换补全接受键"@,
            hint: ""@,
            search: "切换补全接受键 cycle accept key completion jieshou"@,
            action: PaletteAction::CycleAccept,
        }
    } else if i == 13 {
        Row {
            label: "选择背景图片…"@,
            hint: ""@,
            search: "选择背景图片 background image picture xuanze beijing tupian"@,
            action: PaletteAction::PickBackgroundImage,
        }
    } else if i == 14 {
        Row {
            label: "切换背景色"@,
            hint: ""@,
            search: "切换背景色 cycle background color qiehuan beijingse"@,
            action: PaletteAction::CycleBackground,
        }
    } else if i == 15 {
        Row {
            label: "恢复外观默认"@,
            hint: ""@,
            search: "恢复外观默认 reset appearance default huifu waiguan moren"@,
            action: PaletteAction::ResetAppearance,
        }
    } else if i == 16 {
        Row {
            label: "主题：Nebula"@,
            hint: ""@,
            search: "主题 nebula theme zhuti"@,
            action: PaletteAction::SelectTheme(NebulaTheme::Nebula),
        }
    } else if i == 17 {
        Row {
            label: "主题：Silver Light"@,
            hint: ""@,
            search: "主题 silver light theme zhuti"@,
            action: PaletteAction::SelectTheme(NebulaTheme::SilverLight),
        }
    } else if i == 18 {
        Row {
            label: "主题：Steel Dark"@,
            hint: ""@,
            search: "主题 steel dark theme zhuti"@,
            action: PaletteAction::SelectTheme(NebulaTheme::SteelDark),
        }
    } else if i == 19 {
        Row {
            label: "主题：Limestone"@,
            hint: ""@,
            search: "主题 limestone light theme zhuti"@,
            action: PaletteAction::SelectTheme(NebulaTheme::LimestoneLight),
        }
    } else if i == 20 {
        Row {
            label: "主题：Coal Dark"@,
            hint: ""@,
            search: "主题 coal dark theme zhuti"@,
            action: PaletteAction::SelectTheme(NebulaTheme::CoalDark),
        }
    } else if i == 21 {
        Row {
            label: "主题：Linen Light"@,
            hint: ""@,
            search: "主题 linen light theme zhuti"@,
            action: PaletteAction::SelectTheme(NebulaTheme::LinenLight),
        }
    } else {
        Row {
            label: "主题：Moss Dark"@,
            hint: ""@,
            search: "主题 moss dark theme zhuti"@,
            action: PaletteAction::SelectTheme(NebulaTheme::MossDark),
        }
    }
}

/// The built-in action `i`.
pub fn palette_item(i: usize) -> (r: PaletteItem)
    requires
        i < ITEM_COUNT,
    ensures
        r.value() == row(i as int),
{
    match i {
        0 => PaletteItem {
            label: "新建标签页",
            hint: "Ctrl+Shift+T",
            search: "新建标签页 new tab xinjian biaoqianye",
            action: PaletteAction::NewTab,
        },
        1 => PaletteItem {
            label: "关闭标签页",
            hint: "Ctrl+Shift+W",
            search: "关闭标签页 close tab guanbi",
            action: PaletteAction::CloseTab,
        },
        2 => PaletteItem {
            label: "下一个标签页",
            hint: "Ctrl+Tab",
            search: "下一个标签页 next tab xiayige",
            action: PaletteAction::NextTab,
        },
        3 => PaletteItem {
            label: "上一个标签页",
            hint: "Ctrl+Shift+Tab",
            search: "上一个标签页 previous prev tab shangyige",
            action: PaletteAction::PrevTab,
        },
        4 => PaletteItem {
            label: "新建窗口",
            hint: "Ctrl+Shift+E",
            search: "新建窗口 new window xinjian chuangkou",
            action: PaletteAction::NewWindow,
        },
        5 => PaletteItem {
            label: "左右分屏",
            hint: "Ctrl+Shift+D",
            search: "左右分屏 split right vertical zuoyou fenping",
            action: PaletteAction::SplitRight,
        },
        6 => PaletteItem {
            label: "上下分屏",
            hint: "Ctrl+Shift+S",
            search: "上下分屏 split down horizontal shangxia fenping",
            action: PaletteAction::SplitDown,
        },
        7 => PaletteItem {
            label: "目录树面板",
            hint: "Ctrl+Shift+O",
            search: "目录树面板 files tree explorer panel mulushu wenjian",
            action: PaletteAction::ToggleFilesPanel,
        },
        8 => PaletteItem {
            label: "Git 面板",
            hint: "Ctrl+Shift+G",
            search: "git 面板 status branch panel mianban",
            action: PaletteAction::ToggleGitPanel,
        },
        9 => PaletteItem {
            label: "打开设置",
            hint: "",
            search: "打开设置 open settings preferences dakai shezhi",
            action: PaletteAction::OpenSettings,
        },
        10 => PaletteItem {
            label: "打开配置文件",
            hint: "",
            search: "打开配置文件 open config file dakai peizhi wenjian",
            action: PaletteAction::OpenSettingsFile,
        },
        11 => PaletteItem {
            label: "切换行内补全 (Ghost)",
            hint: "",
            search: "切换行内补全 toggle ghost completion qiehuan buquan",
            action: PaletteAction::ToggleGhost,
        },
        12 => PaletteItem {
            label: "切换补全接受键",
            hint: "",
            search: "切换补全接受键 cycle accept key completion jieshou",
            action: PaletteAction::CycleAccept,
        },
        13 => PaletteItem {
            label: "选择背景图片…",
            hint: "",
            search: "选择背景图片 background image picture xuanze beijing tupian",
            action: PaletteAction::PickBackgroundImage,
        },
        14 => PaletteItem {
            label: "切换背景色",
            hint: "",
            search: "切换背景色 cycle background color qiehuan beijingse",
            action: PaletteAction::CycleBackground,
        },
        15 => PaletteItem {
            label: "恢复外观默认",
            hint: "",
            search: "恢复外观默认 reset appearance default huifu waiguan moren",
            action: PaletteAction::ResetAppearance,
        },
        16 => PaletteItem {
            label: "主题：Nebula",
            hint: "",
            search: "主题 nebula theme zhuti",
            action: PaletteAction::SelectTheme(NebulaTheme::Nebula),
        },
        17 => PaletteItem {
            label: "主题：Silver Light",
            hint: "",
            search: "主题 silver light theme zhuti",
            action: PaletteAction::SelectTheme(NebulaTheme::SilverLight),
        },
        18 => PaletteItem {
            label: "主题：Steel Dark",
            hint: "",
            search: "主题 steel dark theme zhuti",
            action: PaletteAction::SelectTheme(NebulaTheme::SteelDark),
        },
        19 => PaletteItem {
            label: "主题：Limestone",
            hint: "",
            search: "主题 limestone light theme zhuti",
            action: PaletteAction::SelectTheme(NebulaTheme::LimestoneLight),
        },
        20 => PaletteItem {
            label: "主题：Coal Dark",
            hint: "",
            search: "主题 coal dark theme zhuti",
            action: PaletteAction::SelectTheme(NebulaTheme::CoalDark),
        },
        21 => PaletteItem {
            label: "主题：Linen Light",
            hint: "",
            search: "主题 linen light theme zhuti",
            action: PaletteAction::SelectTheme(NebulaTheme::LinenLight),
        },
        _ => PaletteItem {
            label: "主题：Moss Dark",
            hint: "",
            search: "主题 moss dark theme zhuti",
            action: PaletteAction::SelectTheme(NebulaTheme::MossDark),
        },
    }
}

/// The score of a match of `needle[next..]` in `hay`, taken greedily, and how
/// far the needle was matched. `run` characters matched just before, and `prev`
/// stands in front.
pub open spec fn greedy(
    needle: Seq<char>,
    hay: Seq<char>,
    next: int,
    run: int,
    prev: char,
) -> (int, int)
    decreases hay.len(),
{
    if hay.len() == 0 {
        (0, next)
    } else if next < needle.len() && hay[0] == needle[next] {
        let rest = greedy(needle, hay.drop_first(), next + 1, run + 1, hay[0]);
        let word_start: int = if unicode::alphanumeric(prev) {
            0
        } else {
            4
        };
        (1 + run * 5 + word_start + rest.0, rest.1)
    } else {
        greedy(needle, hay.drop_first(), next, 0, hay[0])
    }
}

pub open spec fn capped(score: int) -> int {
    if score > i32::MAX {
        i32::MAX as int
    } else {
        score
    }
}

/// The fuzzy score of lower-cased texts.
pub open spec fn score_of(needle: Seq<char>, hay: Seq<char>) -> Option<int> {
    let (score, matched) = greedy(needle, hay, 0, 0, ' ');
    if matched == needle.len() {
        Some(capped(score))
    } else {
        None
    }
}

/// The fuzzy score of a query in a haystack, whatever the case of either.
pub open spec fn fuzzy(needle: Seq<char>, haystack: Seq<char>) -> Option<int> {
    if needle.len() == 0 {
        Some(0)
    } else {
        score_of(unicode::lowered(needle), unicode::lowered(haystack))
    }
}

/// Behind the last match nothing more is scored.
proof fn lemma_greedy_done(needle: Seq<char>, hay: Seq<char>, next: int, run: int, prev: char)
    requires
        next >= needle.len(),
    ensures
        greedy(needle, hay, next, run, prev) == (0int, next),
    decreases hay.len(),
{
    if hay.len() > 0 {
        lemma_greedy_done(needle, hay.drop_first(), next, 0, hay[0]);
    }
}

proof fn lemma_greedy_tail(
    needle: Seq<char>,
    hay: Seq<char>,
    tail: Seq<char>,
    next: int,
    run: int,
    prev: char,
)
    requires
        greedy(needle, hay, next, run, prev).1 >= needle.len(),
    ensures
        greedy(needle, hay + tail, next, run, prev) == greedy(needle, hay, next, run, prev),
    decreases hay.len(),
{
    if hay.len() == 0 {
        assert(hay + tail =~= tail);
        lemma_greedy_done(needle, tail, next, run, prev);
    } else {
        assert((hay + tail).drop_first() =~= hay.drop_first() + tail);
        if next < needle.len() && hay[0] == needle[next] {
            lemma_greedy_tail(needle, hay.drop_first(), tail, next + 1, run + 1, hay[0]);
        } else {
            lemma_greedy_tail(needle, hay.drop_first(), tail, next, 0, hay[0]);
        }
    }
}

proof fn lemma_lowered_concat(a: Seq<char>, b: Seq<char>)
    ensures
        unicode::lowered(a + b) == unicode::lowered(a) + unicode::lowered(b),
    decreases b.len(),
{
    if b.len() == 0 {
        assert(a + b =~= a);
        assert(unicode::lowered(a) + Seq::empty() =~= unicode::lowered(a));
    } else {
        lemma_lowered_concat(a, b.drop_last());
        assert((a + b).drop_last() =~= a + b.drop_last());
        assert((unicode::lowered(a) + unicode::lowered(b.drop_last())) + unicode::lower_of(b.last())
            =~= unicode::lowered(a) + unicode::lowered(b));
    }
}

/// A character with its ASCII letter in upper case.
pub open spec fn upper_char(c: char) -> char {
    if 'a' <= c <= 'z' {
        (c as u32 - 32) as char
    } else {
        c
    }
}

/// A string with its ASCII letters in upper case.
pub open spec fn ascii_upper(s: Seq<char>) -> Seq<char> {
    s.map_values(|c: char| upper_char(c))
}

proof fn lemma_lowered_upper(s: Seq<char>)
    ensures
        unicode::lowered(ascii_upper(s)) == unicode::lowered(s),
    decreases s.len(),
{
    if s.len() > 0 {
        lemma_lowered_upper(s.drop_last());
        assert(ascii_upper(s).drop_last() =~= ascii_upper(s.drop_last()));
        assert(ascii_upper(s).last() == upper_char(s.last()));
    } else {
        assert(ascii_upper(s) =~= s);
    }
}

/// Text behind the last match leaves the score alone.
pub proof fn law_text_behind_a_match_is_not_scored(
    needle: Seq<char>,
    haystack: Seq<char>,
    tail: Seq<char>,
)
    requires
        fuzzy(needle, haystack) is Some,
    ensures
        fuzzy(needle, haystack + tail) == fuzzy(needle, haystack),
{
    if needle.len() > 0 {
        lemma_lowered_concat(haystack, tail);
        lemma_greedy_tail(
            unicode::lowered(needle),
            unicode::lowered(haystack),
            unicode::lowered(tail),
            0,
            0,
            ' ',
        );
    }
}

/// The case of ASCII letters leaves the score alone, on either side.
pub proof fn law_scores_ignore_ascii_case(needle: Seq<char>, haystack: Seq<char>)
    ensures
        fuzzy(ascii_upper(needle), haystack) == fuzzy(needle, haystack),
        fuzzy(needle, ascii_upper(haystack)) == fuzzy(needle, haystack),
{
    lemma_lowered_upper(needle);
    lemma_lowered_upper(haystack);
}

fn capped_sum(score: i32, run: i32, word_start: bool) -> (r: i32)
    requires
        0 <= score,
        0 <= run,
    ensures
        r == capped(
            score + 1 + run * 5 + if word_start {
                4int
            } else {
                0int
            },
        ),
{
    let bonus: i64 = if word_start {
        4
    } else {
        0
    };
    let sum: i64 = score as i64 + 1 + (run as i64) * 5 + bonus;
    if sum > 2147483647 {
        i32::MAX
    } else {
        sum as i32
    }
}

/// Subsequence fuzzy score, or `None` if the needle isn't a subsequence of the
/// haystack. Consecutive runs and word-start matches are rewarded so intuitive
/// queries rank first (e.g. "nt" prefers "new tab" over "next"). An empty
/// needle matches everything with score 0, preserving declaration order. The
/// score stops growing at `i32::MAX`.
pub fn fuzzy_score(needle: &str, haystack: &str) -> (r: Option<i32>)
    ensures
        match r {
            Some(score) => fuzzy(needle@, haystack@) == Some(score as int),
            None => fuzzy(needle@, haystack@) is None,
        },
{
    if text::chars_of(needle).len() == 0 {
        return Some(0);
    }
    let n = unicode::lower_chars(needle);
    let hay = unicode::lower_chars(haystack);
    let ghost total = greedy(n@, hay@, 0, 0, ' ');
    let ghost mut exact: int = 0;
    let ghost mut exact_run: int = 0;
    let mut next: usize = 0;
    let mut score: i32 = 0;
    let mut run: i32 = 0;
    let mut prev: char = ' ';
    let mut i: usize = 0;
    assert(hay@.skip(0) =~= hay@);
    while i < hay.len()
        invariant
            i <= hay@.len(),
            next <= n@.len(),
            0 <= exact,
            0 <= exact_run,
            score == capped(exact),
            run == capped(exact_run),
            total.0 == exact + greedy(n@, hay@.skip(i as int), next as int, exact_run, prev).0,
            total.1 == greedy(n@, hay@.skip(i as int), next as int, exact_run, prev).1,
        decreases hay@.len() - i,
    {
        let hc = hay[i];
        assert(hay@.skip(i as int).drop_first() =~= hay@.skip(i + 1));
        assert(hay@.skip(i as int)[0] == hc);
        if next < n.len() && hc == n[next] {
            let word_start = !unicode::is_alphanumeric(prev);
            score = capped_sum(score, run, word_start);
            proof {
                exact = exact + 1 + exact_run * 5 + if word_start {
                    4int
                } else {
                    0int
                };
                exact_run = exact_run + 1;
            }
            if run < i32::MAX {
                run += 1;
            }
            next += 1;
        } else {
            run = 0;
            proof {
                exact_run = 0;
            }
        }
        prev = hc;
        i += 1;
    }
    assert(hay@.skip(i as int) =~= Seq::empty());
    if next == n.len() {
        Some(score)
    } else {
        None
    }
}

/// Whether `needle` stands in `hay` at the increasing positions `at`.
pub open spec fn embeds(needle: Seq<char>, hay: Seq<char>, at: Seq<int>) -> bool {
    &&& at.len() == needle.len()
    &&& forall|k: int| 0 <= k < at.len() ==> 0 <= #[trigger] at[k] < hay.len() && hay[at[k]]
        == needle[k]
    &&& forall|j: int, k: int| 0 <= j < k < at.len() ==> #[trigger] at[j] < #[trigger] at[k]
}

/// A fuzzy match is found exactly where the needle's characters stand in the
/// haystack in order, with anything between them.
pub proof fn law_fuzzy_accepts_exactly_subsequences(needle: Seq<char>, hay: Seq<char>)
    ensures
        score_of(needle, hay) is Some <==> exists|at: Seq<int>| embeds(needle, hay, at),
{
    if score_of(needle, hay) is Some {
        let at = lemma_greedy_embeds(needle, hay, 0, 0, ' ');
        assert(needle.skip(0) =~= needle);
        assert(embeds(needle, hay, at));
    }
    if exists|at: Seq<int>| embeds(needle, hay, at) {
        let at = choose|at: Seq<int>| embeds(needle, hay, at);
        assert(needle.skip(0) =~= needle);
        lemma_embedding_is_found(needle, hay, 0, 0, ' ', at);
    }
}

proof fn lemma_greedy_embeds(
    needle: Seq<char>,
    hay: Seq<char>,
    next: int,
    run: int,
    prev: char,
) -> (at: Seq<int>)
    requires
        0 <= next <= needle.len(),
        greedy(needle, hay, next, run, prev).1 == needle.len(),
    ensures
        embeds(needle.skip(next), hay, at),
    decreases hay.len(),
{
    if hay.len() == 0 {
        assert(needle.skip(next) =~= Seq::empty());
        Seq::empty()
    } else {
        let rest = hay.drop_first();
        let hit = next < needle.len() && hay[0] == needle[next];
        let inner = if hit {
            lemma_greedy_embeds(needle, rest, next + 1, run + 1, hay[0])
        } else {
            lemma_greedy_embeds(needle, rest, next, 0, hay[0])
        };
        let moved = Seq::new(inner.len(), |k: int| inner[k] + 1);
        if hit {
            let at = seq![0int] + moved;
            assert(needle.skip(next).drop_first() =~= needle.skip(next + 1));
            assert forall|k: int| 0 <= k < at.len() implies 0 <= #[trigger] at[k] < hay.len()
                && hay[at[k]] == needle.skip(next)[k] by {
                if k > 0 {
                    assert(at[k] == inner[k - 1] + 1);
                    assert(needle.skip(next)[k] == needle.skip(next + 1)[k - 1]);
                }
            }
            assert forall|j: int, k: int| 0 <= j < k < at.len() implies #[trigger] at[j]
                < #[trigger] at[k] by {
                assert(at[k] == inner[k - 1] + 1);
                if j > 0 {
                    assert(at[j] == inner[j - 1] + 1);
                }
            }
            at
        } else {
            assert forall|k: int| 0 <= k < moved.len() implies 0 <= #[trigger] moved[k] < hay.len()
                && hay[moved[k]] == needle.skip(next)[k] by {
                assert(moved[k] == inner[k] + 1);
            }
            assert forall|j: int, k: int| 0 <= j < k < moved.len() implies #[trigger] moved[j]
                < #[trigger] moved[k] by {
                assert(inner[j] < inner[k]);
            }
            moved
        }
    }
}

proof fn lemma_embedding_is_found(
    needle: Seq<char>,
    hay: Seq<char>,
    next: int,
    run: int,
    prev: char,
    at: Seq<int>,
)
    requires
        0 <= next <= needle.len(),
        embeds(needle.skip(next), hay, at),
    ensures
        greedy(needle, hay, next, run, prev).1 == needle.len(),
    decreases hay.len(),
{
    let want = needle.skip(next);
    if hay.len() == 0 {
        if at.len() > 0 {
            assert(0 <= at[0] < hay.len());
        }
    } else {
        let rest = hay.drop_first();
        if next < needle.len() && hay[0] == needle[next] {
            let tail = Seq::new((at.len() - 1) as nat, |k: int| at[k + 1] - 1);
            assert(want.drop_first() =~= needle.skip(next + 1));
            assert forall|k: int| 0 <= k < tail.len() implies 0 <= #[trigger] tail[k] < rest.len()
                && rest[tail[k]] == needle.skip(next + 1)[k] by {
                assert(at[0] < at[k + 1]);
                assert(hay[at[k + 1]] == want[k + 1]);
            }
            assert forall|j: int, k: int| 0 <= j < k < tail.len() implies #[trigger] tail[j]
                < #[trigger] tail[k] by {
                assert(at[j + 1] < at[k + 1]);
            }
            lemma_embedding_is_found(needle, rest, next + 1, run + 1, hay[0], tail);
        } else {
            let same = Seq::new(at.len(), |k: int| at[k] - 1);
            assert forall|k: int| 0 <= k < same.len() implies 0 <= #[trigger] same[k] < rest.len()
                && rest[same[k]] == want[k] by {
                assert(hay[at[k]] == want[k]);
                if at[k] == 0 {
                    if k > 0 {
                        assert(at[0] < at[k]);
                    }
                    assert(want[0] == needle[next]);
                    assert(false);
                }
            }
            assert forall|j: int, k: int| 0 <= j < k < same.len() implies #[trigger] same[j]
                < #[trigger] same[k] by {
                assert(at[j] < at[k]);
            }
            lemma_embedding_is_found(needle, rest, next, 0, hay[0], same);
        }
    }
}

/// What the palette shows and remembers, as a value.
pub struct PaletteState {
    pub open: bool,
    pub query: Seq<char>,
    pub filtered: Seq<usize>,
    pub selected: usize,
    pub recent: Seq<usize>,
    /// The label and the haystack of each quick-launch profile.
    pub profiles: Seq<(Seq<char>, Seq<char>)>,
    pub profiles_only: bool,
}

/// A closed palette that was never used: it lists each built-in action, in
/// declaration order, and no profiles.
pub open spec fn unused_palette() -> PaletteState {
    PaletteState {
        open: false,
        query: Seq::empty(),
        filtered: Seq::new(ITEM_COUNT as nat, |i: int| i as usize),
        selected: 0,
        recent: Seq::empty(),
        profiles: Seq::empty(),
        profiles_only: false,
    }
}

/// Where `i` stands among the recently run actions.
pub open spec fn position_of(recent: Seq<usize>, i: usize) -> Option<int>
    decreases recent.len(),
{
    if recent.len() == 0 {
        None
    } else if recent[0] == i {
        Some(0)
    } else {
        match position_of(recent.drop_first(), i) {
            Some(p) => Some(1 + p),
            None => None,
        }
    }
}

/// How recently action `i` was run: 0 for the last one.
pub open spec fn recency(recent: Seq<usize>, i: usize) -> int {
    match position_of(recent, i) {
        Some(p) => p,
        None => usize::MAX as int,
    }
}

/// `recent` without `i`.
pub open spec fn without(recent: Seq<usize>, i: usize) -> Seq<usize>
    decreases recent.len(),
{
    if recent.len() == 0 {
        recent
    } else if recent.last() == i {
        without(recent.drop_last(), i)
    } else {
        without(recent.drop_last(), i).push(recent.last())
    }
}

impl PaletteState {
    /// The haystack of row `i`: a built-in action, or a profile behind them.
    pub open spec fn search_text(self, i: usize) -> Seq<char> {
        if i < ITEM_COUNT {
            row(i as int).search
        } else {
            self.profiles[i - ITEM_COUNT].1
        }
    }

    /// What is looked for.
    pub open spec fn needle(self) -> Seq<char> {
        unicode::trimmed(self.query)
    }

    /// Whether row `i` is listed.
    pub open spec fn matches(self, i: usize) -> bool {
        self.needle().len() == 0 || fuzzy(self.needle(), self.search_text(i)) is Some
    }

    /// What row `i` is ordered by: the best score first or, without a query,
    /// the most recently run first.
    pub open spec fn key(self, i: usize) -> int {
        if self.needle().len() == 0 {
            recency(self.recent, i)
        } else {
            -(fuzzy(self.needle(), self.search_text(i))->0)
        }
    }

    pub open spec fn first_row(self) -> int {
        if self.profiles_only {
            ITEM_COUNT as int
        } else {
            0
        }
    }

    pub open spec fn row_count(self) -> int {
        ITEM_COUNT + self.profiles.len()
    }

    /// The matching rows below `end`, in declaration order.
    pub open spec fn rows_below(self, end: int) -> Seq<usize>
        decreases end - self.first_row(),
    {
        if end <= self.first_row() {
            Seq::empty()
        } else if self.matches((end - 1) as usize) {
            self.rows_below(end - 1).push((end - 1) as usize)
        } else {
            self.rows_below(end - 1)
        }
    }

    /// The listed rows: those that match, in order of their keys, with ties in
    /// declaration order.
    pub open spec fn listing(self) -> Seq<usize> {
        let scope = self.scope();
        order::sort(
            scope.rows_below(scope.row_count()),
            |a: usize, b: usize| scope.key(a) < scope.key(b),
        )
    }

    /// What the list depends on: the query, the history and the profiles.
    pub open spec fn scope(self) -> PaletteState {
        PaletteState { open: false, filtered: Seq::empty(), selected: 0, ..self }
    }

    /// The list rebuilt, with the selection at the top.
    pub open spec fn refiltered(self) -> PaletteState {
        PaletteState { filtered: self.listing(), selected: 0, ..self }
    }

    pub open spec fn opened(self, profiles_only: bool) -> PaletteState {
        PaletteState { open: true, profiles_only, query: Seq::empty(), ..self }.refiltered()
    }

    pub open spec fn closed(self) -> PaletteState {
        PaletteState { open: false, profiles_only: false, ..self }
    }

    pub open spec fn typed(self, c: char) -> PaletteState {
        if unicode::control(c) {
            self
        } else {
            PaletteState { query: self.query.push(c), ..self }.refiltered()
        }
    }

    pub open spec fn erased(self) -> PaletteState {
        PaletteState {
            query: if self.query.len() > 0 {
                self.query.drop_last()
            } else {
                self.query
            },
            ..self
        }.refiltered()
    }

    /// The selection moved by `delta` rows, wrapping at both ends.
    pub open spec fn moved(self, delta: int) -> PaletteState {
        if self.filtered.len() == 0 {
            self
        } else {
            PaletteState {
                selected: ((self.selected + delta) % (self.filtered.len() as int)) as usize,
                ..self
            }
        }
    }

    /// `i` remembered as the most recently run action.
    pub open spec fn recorded(self, i: usize) -> PaletteState {
        let all = seq![i] + without(self.recent, i);
        PaletteState {
            recent: if all.len() > RECENT_MAX {
                all.take(RECENT_MAX as int)
            } else {
                all
            },
            ..self
        }
    }

    /// What confirming the selection runs.
    pub open spec fn chosen(self) -> Option<PaletteAction> {
        if self.selected >= self.filtered.len() {
            None
        } else if self.filtered[self.selected as int] >= ITEM_COUNT {
            Some(
                PaletteAction::LaunchProfile(
                    (self.filtered[self.selected as int] - ITEM_COUNT) as usize,
                ),
            )
        } else {
            Some(row(self.filtered[self.selected as int] as int).action)
        }
    }

    /// The palette after confirming: closed, with the action remembered.
    /// Profiles are not remembered, since their positions shift with the
    /// configuration.
    pub open spec fn confirmed(self) -> PaletteState {
        if self.selected >= self.filtered.len() {
            self
        } else if self.filtered[self.selected as int] >= ITEM_COUNT {
            self.closed()
        } else {
            self.closed().recorded(self.filtered[self.selected as int])
        }
    }

    /// The first row shown in a window of `max_rows`: the selection stays in
    /// view, on the last line once it has passed it.
    pub open spec fn window_start(self, max_rows: usize) -> int {
        if self.selected >= max_rows {
            self.selected - max_rows + 1
        } else {
            0
        }
    }

    /// The rows shown in a window of `max_rows`.
    pub open spec fn window(self, max_rows: usize) -> Seq<usize> {
        let start = self.window_start(max_rows);
        if max_rows == 0 || start >= self.filtered.len() {
            Seq::empty()
        } else if start + max_rows <= self.filtered.len() {
            self.filtered.subrange(start, start + max_rows)
        } else {
            self.filtered.skip(start)
        }
    }

    /// The label and hint of row `i`.
    pub open spec fn row_text(self, i: usize) -> (Seq<char>, Seq<char>) {
        if i >= ITEM_COUNT {
            (self.profiles[i - ITEM_COUNT].0, Seq::empty())
        } else {
            (row(i as int).label, row(i as int).hint)
        }
    }

    /// Whether every listed row exists.
    pub open spec fn rows_exist(self) -> bool {
        forall|k: int|
            0 <= k < self.filtered.len() ==> #[trigger] self.filtered[k] < self.row_count()
    }
}

/// Command palette UI + filtering state.
pub struct CommandPalette {
    pub open: bool,
    pub query: String,
    /// Indices into the combined item space: `0..ITEM_COUNT` are the static
    /// actions, `ITEM_COUNT..` map onto `profiles`. Best match first.
    pub filtered: Vec<usize>,
    /// Selected row *within `filtered`*.
    pub selected: usize,
    /// Recently-run static actions, most-recent first (deduped, capped at
    /// `RECENT_MAX`). Lifts frequent actions to the top of an empty query.
    pub recent: Vec<usize>,
    /// Dynamic quick-launch rows `(label, search)`, one per config profile,
    /// refreshed on every open so live config reloads are picked up.
    pub profiles: Vec<(String, String)>,
    /// Show ONLY profile rows: the "+"-button right-click menu mode.
    pub profiles_only: bool,
}

pub open spec fn pair_value(p: (String, String)) -> (Seq<char>, Seq<char>) {
    (p.0@, p.1@)
}

/// The profile row of a profile called `name`.
pub open spec fn profile_row(name: Seq<char>) -> (Seq<char>, Seq<char>) {
    ("启动："@ + name, "启动 "@ + name + " profile launch connect qidong"@)
}

impl CommandPalette {
    pub open spec fn state(&self) -> PaletteState {
        PaletteState {
            open: self.open,
            query: self.query@,
            filtered: self.filtered@,
            selected: self.selected,
            recent: self.recent@,
            profiles: self.profiles@.map_values(|p: (String, String)| pair_value(p)),
            profiles_only: self.profiles_only,
        }
    }

    /// The rows can be counted.
    pub open spec fn wf(&self) -> bool {
        self.profiles@.len() <= usize::MAX - ITEM_COUNT
    }

    pub fn new() -> (r: Self)
        ensures
            r.wf(),
            !r.open,
            r.query@.len() == 0,
            r.filtered@ == Seq::new(ITEM_COUNT as nat, |i: int| i as usize),
            r.selected == 0,
            r.recent@.len() == 0,
            r.profiles@.len() == 0,
            !r.profiles_only,
    {
        let mut palette = CommandPalette {
            open: false,
            query: String::new(),
            filtered: Vec::new(),
            selected: 0,
            recent: Vec::new(),
            profiles: Vec::new(),
            profiles_only: false,
        };
        let ghost before = palette.state();
        palette.refilter();
        proof {
            law_plain_listing_is_declaration_order(before);
        }
        palette
    }

    pub fn is_open(&self) -> (r: bool)
        ensures
            r == self.open,
    {
        self.open
    }

    /// Refresh the dynamic quick-launch rows from the config's profile names.
    /// Called by every open path so a reloaded config is always reflected.
    pub fn set_profiles(&mut self, names: &[String])
        requires
            names@.len() <= usize::MAX - ITEM_COUNT,
        ensures
            final(self).wf(),
            final(self).state() == (PaletteState {
                profiles: names@.map_values(|name: String| profile_row(name@)),
                ..old(self).state()
            }),
    {
        let mut rows: Vec<(String, String)> = Vec::new();
        let mut i: usize = 0;
        while i < names.len()
            invariant
                i <= names@.len(),
                rows@.len() == i,
                forall|j: int|
                    0 <= j < i ==> pair_value(#[trigger] rows@[j]) == profile_row(names@[j]@),
            decreases names@.len() - i,
        {
            let mut label = "启动：".to_owned();
            label.append(names[i].as_str());
            let mut search = "启动 ".to_owned();
            search.append(names[i].as_str());
            search.append(" profile launch connect qidong");
            rows.push((label, search));
            i += 1;
        }
        self.profiles = rows;
        assert(self.profiles@.map_values(|p: (String, String)| pair_value(p)) =~= names@.map_values(
            |name: String| profile_row(name@),
        ));
    }

    /// Open (or re-open) the palette with a cleared query and the full list.
    pub fn open(&mut self)
        requires
            old(self).wf(),
        ensures
            final(self).wf(),
            final(self).state() == old(self).state().opened(false),
    {
        self.open = true;
        self.profiles_only = false;
        self.query = String::new();
        self.refilter();
    }

    /// Open showing only the quick-launch profiles (the "+" context menu).
    pub fn open_profiles(&mut self)
        requires
            old(self).wf(),
        ensures
            final(self).wf(),
            final(self).state() == old(self).state().opened(true),
    {
        self.open = true;
        self.profiles_only = true;
        self.query = String::new();
        self.refilter();
    }

    pub fn close(&mut self)
        ensures
            final(self).wf() == old(self).wf(),
            final(self).state() == old(self).state().closed(),
    {
        self.open = false;
        self.profiles_only = false;
    }

    pub fn toggle(&mut self)
        requires
            old(self).wf(),
        ensures
            final(self).wf(),
            final(self).state() == if old(self).open {
                old(self).state().closed()
            } else {
                old(self).state().opened(false)
            },
    {
        if self.open {
            self.close();
        } else {
            self.open();
        }
    }

    /// Append a typed character (control chars ignored) and re-filter.
    pub fn input_char(&mut self, c: char)
        requires
            old(self).wf(),
        ensures
            final(self).wf(),
            final(self).state() == old(self).state().typed(c),
    {
        if unicode::is_control(c) {
            return;
        }
        self.query.push(c);
        self.refilter();
    }

    pub fn backspace(&mut self)
        requires
            old(self).wf(),
        ensures
            final(self).wf(),
            final(self).state() == old(self).state().erased(),
    {
        let _last = self.query.pop();
        self.refilter();
    }

    /// Move the selection by `delta` rows, wrapping at both ends.
    pub fn move_selection(&mut self, delta: i32)
        ensures
            final(self).wf() == old(self).wf(),
            final(self).state() == old(self).state().moved(delta as int),
    {
        if self.filtered.len() == 0 {
            return;
        }
        let len: i128 = self.filtered.len() as i128;
        let target: i128 = self.selected as i128 + delta as i128;
        let wrapped: Option<i128> = target.checked_rem_euclid(len);
        self.selected = wrapped.unwrap() as usize;
    }

    /// Confirm the current selection: records it as recent, closes the palette,
    /// and returns the action to run, or `None` when nothing matches.
    pub fn confirm(&mut self) -> (r: Option<PaletteAction>)
        ensures
            final(self).wf() == old(self).wf(),
            r == old(self).state().chosen(),
            final(self).state() == old(self).state().confirmed(),
    {
        if self.selected >= self.filtered.len() {
            return None;
        }
        let idx: usize = self.filtered[self.selected];
        self.close();
        if idx >= ITEM_COUNT {
            return Some(PaletteAction::LaunchProfile(idx - ITEM_COUNT));
        }
        self.record_recent(idx);
        Some(palette_item(idx).action)
    }

    /// Confirm the visible row at `row` (0 = topmost visible line, mirroring
    /// [`Self::visible`]'s scroll window): the mouse-click path.
    pub fn click(&mut self, row: usize, max_rows: usize) -> (r: Option<PaletteAction>)
        ensures
            final(self).wf() == old(self).wf(),
            ({
                let at = old(self).state().window_start(max_rows) + row;
                if max_rows == 0 || at >= old(self).filtered@.len() {
                    r is None && final(self).state() == old(self).state()
                } else {
                    let picked = (PaletteState { selected: at as usize, ..old(self).state() });
                    r == picked.chosen() && final(self).state() == picked.confirmed()
                }
            }),
    {
        if self.filtered.len() == 0 || max_rows == 0 {
            return None;
        }
        let start: usize = self.selected.saturating_sub(max_rows - 1);
        if start >= self.filtered.len() || row >= self.filtered.len() - start {
            return None;
        }
        self.selected = start + row;
        self.confirm()
    }

    /// Remember `idx` as the most-recently run command (deduped, capped), so a
    /// freshly-opened (empty-query) palette lists frequent actions first.
    pub fn record_recent(&mut self, idx: usize)
        ensures
            final(self).wf() == old(self).wf(),
            final(self).state() == old(self).state().recorded(idx),
    {
        let mut recent: Vec<usize> = Vec::new();
        recent.push(idx);
        let ghost all = self.recent@;
        let mut i: usize = 0;
        assert(all.take(0) =~= Seq::empty());
        while i < self.recent.len()
            invariant
                i <= self.recent@.len(),
                all == self.recent@,
                recent@ =~= seq![idx] + without(all.take(i as int), idx),
            decreases self.recent@.len() - i,
        {
            assert(all.take(i + 1).drop_last() =~= all.take(i as int));
            assert(all.take(i + 1).last() == all[i as int]);
            if self.recent[i] != idx {
                recent.push(self.recent[i]);
            }
            i += 1;
        }
        assert(all.take(i as int) =~= all);
        recent.truncate(RECENT_MAX);
        self.recent = recent;
        assert(self.recent@ =~= old(self).state().recorded(idx).recent);
    }

    /// What row `i` is ordered by, or nothing if it is not listed.
    fn rank(&self, needle: &str, i: usize) -> (r: Option<i128>)
        requires
            self.wf(),
            needle@ == self.state().needle(),
            i < self.state().row_count(),
        ensures
            match r {
                Some(k) => self.state().matches(i) && k == self.state().key(i),
                None => !self.state().matches(i),
            },
    {
        if text::chars_of(needle).len() == 0 {
            let mut k: usize = 0;
            assert(self.recent@.skip(0) =~= self.recent@);
            while k < self.recent.len()
                invariant
                    k <= self.recent@.len(),
                    needle@.len() == 0,
                    needle@ == self.state().needle(),
                    position_of(self.recent@, i) == match position_of(
                        self.recent@.skip(k as int),
                        i,
                    ) {
                        Some(p) => Some(k + p),
                        None => None,
                    },
                decreases self.recent@.len() - k,
            {
                assert(self.recent@.skip(k as int).drop_first() =~= self.recent@.skip(k + 1));
                if self.recent[k] == i {
                    return Some(k as i128);
                }
                k += 1;
            }
            assert(self.recent@.skip(k as int) =~= Seq::empty());
            Some(usize::MAX as i128)
        } else {
            let found = if i < ITEM_COUNT {
                fuzzy_score(needle, palette_item(i).search)
            } else {
                assert(self.state().profiles[i - ITEM_COUNT] == pair_value(
                    self.profiles@[i - ITEM_COUNT],
                ));
                fuzzy_score(needle, self.profiles[i - ITEM_COUNT].1.as_str())
            };
            match found {
                Some(score) => Some(-(score as i128)),
                None => None,
            }
        }
    }

    /// Re-score every item against the query and rebuild `filtered`. With a
    /// query: fuzzy score, best first, ties in declaration order. Empty query:
    /// recently-run first, then declaration order, then profiles. Resets the
    /// selection to the top.
    pub fn refilter(&mut self)
        requires
            old(self).wf(),
        ensures
            final(self).wf(),
            final(self).state() == old(self).state().refiltered(),
    {
        let ghost state = self.state().scope();
        let ghost before = |a: usize, b: usize| state.key(a) < state.key(b);
        let needle = unicode::trim(self.query.as_str());
        let count: usize = ITEM_COUNT + self.profiles.len();
        let mut i: usize = if self.profiles_only {
            ITEM_COUNT
        } else {
            0
        };
        let mut keys: Vec<i128> = Vec::new();
        let mut order: Vec<usize> = Vec::new();
        while i < count
            invariant
                self.wf(),
                self.state().scope() == state,
                self.state() == old(self).state(),
                needle@ == state.needle(),
                state.first_row() <= i <= count,
                count == state.row_count(),
                before == (|a: usize, b: usize| state.key(a) < state.key(b)),
                order@ == order::sort(state.rows_below(i as int), before),
                keys@.len() == order@.len(),
                forall|k: int|
                    0 <= k < keys@.len() ==> #[trigger] keys@[k] == state.key(order@[k]),
            decreases count - i,
        {
            if let Some(key) = self.rank(needle.as_str(), i) {
                let ghost rows = state.rows_below(i as int);
                assert(state.rows_below(i + 1) == rows.push(i));
                assert(rows.push(i).drop_last() =~= rows);
                let mut at: usize = order.len();
                while at > 0 && key < keys[at - 1]
                    invariant
                        at <= order@.len(),
                        keys@.len() == order@.len(),
                        key == state.key(i),
                        before == (|a: usize, b: usize| state.key(a) < state.key(b)),
                        forall|k: int|
                            0 <= k < keys@.len() ==> #[trigger] keys@[k] == state.key(order@[k]),
                        forall|k: int|
                            at <= k < order@.len() ==> #[trigger] before(i, order@[k]),
                    decreases at,
                {
                    at -= 1;
                    assert(before(i, order@[at as int]));
                }
                proof {
                    if at > 0 {
                        assert(keys@[at - 1] == state.key(order@[at - 1]));
                    }
                    order::lemma_insert_at(order@, i, before, at as int);
                }
                order.insert(at, i);
                keys.insert(at, key);
            }
            i += 1;
        }
        self.filtered = order;
        self.selected = 0;
    }

    pub fn query(&self) -> (r: &str)
        ensures
            r@ == self.query@,
    {
        self.query.as_str()
    }

    pub fn is_empty(&self) -> (r: bool)
        ensures
            r == (self.filtered@.len() == 0),
    {
        self.filtered.len() == 0
    }

    /// The at-most `max_rows` visible rows, scrolled so the selection stays in
    /// view, plus the selected row's index *within that window* (`None` when the
    /// list is empty).
    pub fn visible(&self, max_rows: usize) -> (r: (Vec<(String, String)>, Option<usize>))
        requires
            self.state().rows_exist(),
        ensures
            self.filtered@.len() == 0 || max_rows == 0 ==> r.0@.len() == 0 && r.1 is None,
            self.filtered@.len() > 0 && max_rows > 0 ==> r.1 == Some(
                (self.selected - self.state().window_start(max_rows)) as usize,
            ),
            r.0@.map_values(|p: (String, String)| pair_value(p)) == self.state().window(
                max_rows,
            ).map_values(|i: usize| self.state().row_text(i)),
    {
        let mut rows: Vec<(String, String)> = Vec::new();
        let ghost window = self.state().window(max_rows);
        if self.filtered.len() == 0 || max_rows == 0 {
            assert(rows@.map_values(|p: (String, String)| pair_value(p)) =~= window.map_values(
                |i: usize| self.state().row_text(i),
            ));
            return (rows, None);
        }
        let start: usize = self.selected.saturating_sub(max_rows - 1);
        let len: usize = self.filtered.len();
        let end: usize = if start >= len {
            start
        } else if max_rows <= len - start {
            start + max_rows
        } else {
            len
        };
        let mut k: usize = start;
        while k < end
            invariant
                start <= k <= end,
                start >= len ==> end == start,
                start < len ==> end <= len,
                len == self.filtered@.len(),
                self.state().rows_exist(),
                rows@.len() == k - start,
                forall|j: int|
                    0 <= j < rows@.len() ==> pair_value(#[trigger] rows@[j])
                        == self.state().row_text(self.filtered@[start + j]),
            decreases end - k,
        {
            let idx: usize = self.filtered[k];
            assert(self.state().filtered[k as int] < self.state().row_count());
            if idx >= ITEM_COUNT {
                assert(self.state().profiles[idx - ITEM_COUNT] == pair_value(
                    self.profiles@[idx - ITEM_COUNT],
                ));
                rows.push((self.profiles[idx - ITEM_COUNT].0.clone(), String::new()));
            } else {
                let item = palette_item(idx);
                rows.push((item.label.to_owned(), item.hint.to_owned()));
            }
            k += 1;
        }
        assert(rows@.map_values(|p: (String, String)| pair_value(p)) =~= window.map_values(
            |i: usize| self.state().row_text(i),
        ));
        (rows, Some(self.selected - start))
    }
}

/// With no query and no history, everything is listed in declaration order.
pub proof fn law_plain_listing_is_declaration_order(state: PaletteState)
    requires
        state.needle().len() == 0,
        state.recent.len() == 0,
        state.row_count() <= usize::MAX,
    ensures
        state.listing() == Seq::new(
            (state.row_count() - state.first_row()) as nat,
            |i: int| (state.first_row() + i) as usize,
        ),
{
    let scope = state.scope();
    let before = |a: usize, b: usize| scope.key(a) < scope.key(b);
    let rows = scope.rows_below(scope.row_count());
    lemma_all_rows(scope, scope.row_count());
    assert forall|i: int, j: int| 0 <= i < j < rows.len() implies !before(
        #[trigger] rows[j],
        #[trigger] rows[i],
    ) by {}
    order::lemma_sort_of_sorted(rows, before);
}

proof fn lemma_all_rows(state: PaletteState, end: int)
    requires
        state.needle().len() == 0,
        state.first_row() <= end <= usize::MAX,
    ensures
        state.rows_below(end) == Seq::new(
            (end - state.first_row()) as nat,
            |i: int| (state.first_row() + i) as usize,
        ),
    decreases end,
{
    if end > state.first_row() {
        lemma_all_rows(state, end - 1);
    }
    assert(state.rows_below(end) =~= Seq::new(
        (end - state.first_row()) as nat,
        |i: int| (state.first_row() + i) as usize,
    ));
}

pub(crate) proof fn lemma_rows(state: PaletteState, end: int)
    requires
        end <= usize::MAX,
    ensures
        forall|k: int|
            0 <= k < state.rows_below(end).len() ==> state.first_row() <= #[trigger] state.rows_below(
                end,
            )[k] < end && state.matches(state.rows_below(end)[k]),
        forall|j: int, k: int|
            0 <= j < k < state.rows_below(end).len() ==> #[trigger] state.rows_below(end)[j]
                < #[trigger] state.rows_below(end)[k],
        forall|i: usize|
            state.first_row() <= i < end && state.matches(i) ==> #[trigger] state.rows_below(
                end,
            ).contains(i),
    decreases end - state.first_row(),
{
    if end > state.first_row() {
        lemma_rows(state, end - 1);
        let rows = state.rows_below(end);
        let front = state.rows_below(end - 1);
        assert forall|i: usize| state.first_row() <= i < end && state.matches(i) implies #[trigger] rows.contains(
            i,
        ) by {
            if i < end - 1 {
                assert(front.contains(i));
                let k = choose|k: int| 0 <= k < front.len() && front[k] == i;
                assert(rows[k] == i);
            } else {
                assert(rows[front.len() as int] == i);
            }
        }
    }
}

/// The list holds exactly the rows that match: each one, once, and no other.
pub proof fn law_listing_holds_the_matching_rows_once(state: PaletteState)
    requires
        state.row_count() <= usize::MAX,
    ensures
        forall|i: usize|
            #[trigger] state.listing().contains(i) <==> state.first_row() <= i < state.row_count()
                && state.matches(i),
        state.listing().no_duplicates(),
{
    let scope = state.scope();
    broadcast use vstd::seq_lib::group_to_multiset_ensures;

    let before = |a: usize, b: usize| scope.key(a) < scope.key(b);
    let rows = scope.rows_below(scope.row_count());
    lemma_rows(scope, scope.row_count());
    order::lemma_sort_keeps(rows, before);
    assert(rows.no_duplicates());
    rows.lemma_multiset_has_no_duplicates();
    assert forall|i: usize| #[trigger] state.listing().contains(i) implies state.first_row() <= i
        < state.row_count() && state.matches(i) by {
        assert(rows.contains(i));
    }
    assert forall|i: usize|
        state.first_row() <= i < state.row_count() && state.matches(
            i,
        ) implies #[trigger] state.listing().contains(i) by {
        assert(rows.contains(i));
    }
    state.listing().lemma_multiset_has_no_duplicates_conv();
}

/// The list is ordered: with a query, no row stands behind one with a lower
/// score; without one, no row stands behind one that was run less recently.
pub proof fn law_listing_is_ordered(state: PaletteState, i: int, j: int)
    requires
        0 <= i < j < state.listing().len(),
    ensures
        state.key(state.listing()[i]) <= state.key(state.listing()[j]),
{
    let scope = state.scope();
    let before = |a: usize, b: usize| scope.key(a) < scope.key(b);
    order::lemma_sort_orders(scope.rows_below(scope.row_count()), before);
    assert(!before(state.listing()[j], state.listing()[i]));
}

/// Trimming the end takes nothing but the end.
proof fn lemma_trim_end_is_prefix(s: Seq<char>)
    ensures
        unicode::trim_end(s).len() <= s.len(),
        unicode::trim_end(s) == s.take(unicode::trim_end(s).len() as int),
    decreases s.len(),
{
    if s.len() > 0 && unicode::whitespace(s.last()) {
        lemma_trim_end_is_prefix(s.drop_last());
        let n = unicode::trim_end(s).len() as int;
        assert(s.drop_last().take(n) =~= s.take(n));
    } else {
        assert(s.take(s.len() as int) =~= s);
    }
}

/// A character typed behind a text stays behind what trimming its start leaves.
proof fn lemma_trim_start_push(s: Seq<char>, c: char)
    ensures
        unicode::trim_start(s).len() > 0 ==> unicode::trim_start(s.push(c)) == unicode::trim_start(
            s,
        ).push(c),
    decreases s.len(),
{
    if s.len() > 0 {
        assert(s.push(c)[0] == s[0]);
        if unicode::whitespace(s[0]) {
            assert(s.push(c).drop_first() =~= s.drop_first().push(c));
            lemma_trim_start_push(s.drop_first(), c);
        }
    }
}

/// Typing only adds to what is looked for.
proof fn lemma_trimmed_push(s: Seq<char>, c: char)
    ensures
        unicode::trimmed(s).len() <= unicode::trimmed(s.push(c)).len(),
        unicode::trimmed(s) == unicode::trimmed(s.push(c)).take(unicode::trimmed(s).len() as int),
{
    let t = unicode::trim_start(s);
    let n = unicode::trimmed(s).len() as int;
    lemma_trim_end_is_prefix(t);
    if t.len() > 0 {
        lemma_trim_start_push(s, c);
        assert(t.push(c).drop_last() =~= t);
        if unicode::whitespace(c) {
            assert(unicode::trimmed(s.push(c)) == unicode::trimmed(s));
            assert(unicode::trimmed(s).take(n) =~= unicode::trimmed(s));
        } else {
            assert(unicode::trimmed(s.push(c)) == t.push(c));
            assert(t.push(c).take(n) =~= t.take(n));
        }
    } else {
        assert(unicode::trimmed(s) =~= Seq::empty());
        assert(unicode::trimmed(s.push(c)).take(0) =~= Seq::empty());
    }
}

/// Where a query is found, so is each of its beginnings.
pub proof fn law_shorter_queries_match_too(needle: Seq<char>, haystack: Seq<char>, n: int)
    requires
        0 <= n <= needle.len(),
        fuzzy(needle, haystack) is Some,
    ensures
        fuzzy(needle.take(n), haystack) is Some,
{
    if n > 0 {
        let whole = unicode::lowered(needle);
        let part = unicode::lowered(needle.take(n));
        let hay = unicode::lowered(haystack);
        assert(needle.take(n) + needle.skip(n) =~= needle);
        lemma_lowered_concat(needle.take(n), needle.skip(n));
        law_fuzzy_accepts_exactly_subsequences(whole, hay);
        law_fuzzy_accepts_exactly_subsequences(part, hay);
        let at = choose|at: Seq<int>| embeds(whole, hay, at);
        assert(embeds(part, hay, at.take(part.len() as int)));
    }
}

/// Typing narrows the list: every row that is listed after it was listed before.
pub proof fn law_typing_narrows_the_list(state: PaletteState, c: char, i: usize)
    requires
        state.row_count() <= usize::MAX,
        state.refiltered().typed(c).filtered.contains(i),
    ensures
        state.refiltered().filtered.contains(i),
{
    if !unicode::control(c) {
        let after = PaletteState { query: state.query.push(c), ..state };
        assert(state.refiltered().typed(c).filtered == after.listing());
        law_listing_holds_the_matching_rows_once(after);
        law_listing_holds_the_matching_rows_once(state);
        lemma_trimmed_push(state.query, c);
        assert(after.matches(i));
        assert(after.search_text(i) == state.search_text(i));
        if state.needle().len() > 0 {
            law_shorter_queries_match_too(
                after.needle(),
                after.search_text(i),
                state.needle().len() as int,
            );
        }
    }
}

/// Erasing a typed character brings back the query and the list from before.
pub proof fn law_backspace_undoes_typing(state: PaletteState, c: char)
    requires
        !unicode::control(c),
    ensures
        state.typed(c).erased() == state.refiltered(),
{
    assert(state.query.push(c).drop_last() =~= state.query);
}

/// Moving the selection forth and back returns to the row it was on.
pub proof fn law_moving_back_returns(state: PaletteState, delta: int)
    requires
        state.selected < state.filtered.len(),
        state.filtered.len() <= usize::MAX,
    ensures
        state.moved(delta).moved(-delta).selected == state.selected,
        state.moved(delta).selected < state.filtered.len(),
{
    let len = state.filtered.len() as int;
    let s = state.selected as int;
    let there = (s + delta) % len;
    vstd::arithmetic::div_mod::lemma_mod_bound(s + delta, len);
    vstd::arithmetic::div_mod::lemma_sub_mod_noop(s + delta, delta, len);
    vstd::arithmetic::div_mod::lemma_sub_mod_noop(there, delta, len);
    vstd::arithmetic::div_mod::lemma_mod_twice(s + delta, len);
    vstd::arithmetic::div_mod::lemma_small_mod(s as nat, len as nat);
    assert((there - delta) % len == (s + delta - delta) % len);
}

/// The selection wraps: up from the top is the bottom, down from the bottom is
/// the top.
pub proof fn law_selection_wraps(state: PaletteState)
    requires
        0 < state.filtered.len() <= usize::MAX,
    ensures
        state.selected == 0 ==> state.moved(-1).selected == state.filtered.len() - 1,
        state.selected == state.filtered.len() - 1 ==> state.moved(1).selected == 0,
{
    let len = state.filtered.len() as int;
    vstd::arithmetic::div_mod::lemma_mod_self_0(len);
    vstd::arithmetic::div_mod::lemma_mod_add_multiples_vanish(-1, len);
    vstd::arithmetic::div_mod::lemma_small_mod((len - 1) as nat, len as nat);
}

/// The selected row is among those shown, at the position that is reported.
pub proof fn law_selection_stays_in_view(state: PaletteState, max_rows: usize)
    requires
        max_rows > 0,
        state.selected < state.filtered.len(),
    ensures
        0 <= state.selected - state.window_start(max_rows) < state.window(max_rows).len(),
        state.window(max_rows).len() <= max_rows,
        state.window(max_rows)[state.selected - state.window_start(max_rows)]
            == state.filtered[state.selected as int],
{
}

/// What was run is remembered first; nothing is remembered twice, and no more
/// than the limit.
pub proof fn law_recents_are_distinct_and_few(state: PaletteState, i: usize)
    requires
        state.recent.no_duplicates(),
    ensures
        state.recorded(i).recent.len() <= RECENT_MAX,
        state.recorded(i).recent[0] == i,
        state.recorded(i).recent.no_duplicates(),
{
    lemma_without(state.recent, i);
    let rest = without(state.recent, i);
    let all = seq![i] + rest;
    assert forall|j: int, k: int| 0 <= j < all.len() && 0 <= k < all.len() && j != k implies all[j]
        != all[k] by {
        if j > 0 {
            assert(all[j] == rest[j - 1]);
            assert(rest.contains(rest[j - 1]));
        }
        if k > 0 {
            assert(all[k] == rest[k - 1]);
            assert(rest.contains(rest[k - 1]));
        }
    }
}

proof fn lemma_without(recent: Seq<usize>, i: usize)
    requires
        recent.no_duplicates(),
    ensures
        without(recent, i).no_duplicates(),
        !without(recent, i).contains(i),
        forall|x: usize| #[trigger] without(recent, i).contains(x) ==> recent.contains(x),
    decreases recent.len(),
{
    if recent.len() > 0 {
        let front = recent.drop_last();
        lemma_without(front, i);
        let w = without(front, i);
        let out = without(recent, i);
        assert forall|x: usize| #[trigger] out.contains(x) implies recent.contains(x) by {
            let k = choose|k: int| 0 <= k < out.len() && out[k] == x;
            if k < w.len() {
                assert(w[k] == x);
                assert(w.contains(x));
                assert(front.contains(x));
                let m = choose|m: int| 0 <= m < front.len() && front[m] == x;
                assert(recent[m] == x);
            } else {
                assert(recent[recent.len() - 1] == x);
            }
        }
        if recent.last() != i {
            assert forall|j: int, k: int|
                0 <= j < out.len() && 0 <= k < out.len() && j != k implies out[j] != out[k] by {
                if j < w.len() && k == w.len() {
                    assert(w.contains(w[j]));
                    assert(front.contains(w[j]));
                    let m = choose|m: int| 0 <= m < front.len() && front[m] == w[j];
                    assert(recent[m] == w[j]);
                    assert(recent[recent.len() - 1] == recent.last());
                } else if k < w.len() && j == w.len() {
                    assert(w.contains(w[k]));
                    assert(front.contains(w[k]));
                    let m = choose|m: int| 0 <= m < front.len() && front[m] == w[k];
                    assert(recent[m] == w[k]);
                    assert(recent[recent.len() - 1] == recent.last());
                } else if j < w.len() && k < w.len() {
                    assert(w[j] != w[k]);
                }
            }
            if out.contains(i) {
                let k = choose|k: int| 0 <= k < out.len() && out[k] == i;
                if k < w.len() {
                    assert(w[k] == i);
                }
            }
        }
    }
}

/// Confirming runs something exactly when a row is selected, and then closes
/// the palette; otherwise nothing changes.
pub proof fn law_confirming_closes(state: PaletteState)
    ensures
        state.chosen() is Some <==> state.selected < state.filtered.len(),
        state.chosen() is Some ==> !state.confirmed().open && !state.confirmed().profiles_only,
        state.chosen() is None ==> state.confirmed() == state,
{
}

} // verus!
