use nebula::display::side_panel::git::{
    failure_text, git_buttons, git_counts, git_lines, is_readable_status, label_columns,
    parse_leading_number, parse_status, read_shortstat, status_color, GitInfo, GitLine,
};
use nebula::display::side_panel::panel::{panel_hit, PanelHit, PanelSpot, PanelView, SidePanel};
use nebula::display::side_panel::tree::{EntryKind, TreeEntry, TreeListing, TreeSnapshot};
use nebula::display::side_panel::view::{clip_tail, is_executable, push_quads, Surface};
use nebula::display::theme::NebulaTheme;

fn entry(dir: &str, name: &str, kind: EntryKind) -> TreeEntry {
    TreeEntry { name: name.to_string(), path: format!("{dir}/{name}"), kind }
}

fn listing(dir: &str, entries: Vec<TreeEntry>) -> TreeListing {
    TreeListing { dir: dir.to_string(), entries: Some(entries) }
}

fn small_tree() -> TreeSnapshot {
    TreeSnapshot {
        listings: vec![
            listing(
                "/base",
                vec![
                    entry("/base", "a.txt", EntryKind::File),
                    entry("/base", "sub", EntryKind::Dir),
                ],
            ),
            listing("/base/sub", vec![entry("/base/sub", "inner.txt", EntryKind::File)]),
        ],
    }
}

#[test]
fn toggle_switches_views_without_closing() {
    let mut p = SidePanel::new();
    p.toggle(PanelView::Files);
    assert!(p.open);
    p.toggle(PanelView::Git);
    assert!(p.open, "switching views keeps the drawer open");
    assert_eq!(p.view, PanelView::Git);
    p.toggle(PanelView::Git);
    assert!(!p.open, "re-toggling the current view closes");
}

#[test]
fn sync_noops_while_closed() {
    let mut p = SidePanel::new();
    assert!(!p.sync(Some("/tmp".to_string()), 0));
}

#[test]
fn tree_lists_dirs_first_and_expands_on_click() {
    let mut p = SidePanel::new();
    p.toggle(PanelView::Files);
    assert!(p.sync(Some("/base".to_string()), 0));
    assert_eq!(p.rebuild_rows(&small_tree()), None);
    let rows = p.file_rows();
    assert_eq!(rows[0].name, "sub", "directory sorts before file");
    assert!(rows[0].is_dir);
    assert_eq!(rows.len(), 2, "collapsed dir hides children");

    assert!(p.click_row(0), "clicking a dir toggles expansion");
    assert_eq!(p.rebuild_rows(&small_tree()), None);
    let rows = p.file_rows();
    assert_eq!(rows.len(), 3);
    assert_eq!(rows[1].name, "inner.txt");
    assert_eq!(rows[1].depth, 1);
}

struct Layout {
    panel: (f32, f32, f32, f32),
    header_h: f32,
    row_h: f32,
    search: (f32, f32, f32, f32),
    list_y: f32,
    max_rows: usize,
}

fn panel_layout(win_w: f32, win_h: f32, scale: f32) -> Layout {
    let s = |v: f32| v * scale;
    let w = s(300.0).min(win_w * 0.42);
    let x = win_w - s(8.0) - w;
    let y = s(8.0) + s(40.0) + s(12.0);
    let h = (win_h - s(8.0) - s(12.0) - y).max(0.0);
    let search = (x + s(14.0), y + s(40.0) + s(34.0), w - s(28.0), s(34.0));
    let list_y = search.1 + search.3 + s(16.0);
    let row_h = s(34.0);
    let max_rows = (((y + h) - list_y) / row_h).max(0.0) as usize;
    Layout { panel: (x, y, w, h), header_h: s(40.0), row_h, search, list_y, max_rows }
}

fn hit(l: &Layout, x: f32, y: f32) -> PanelHit {
    let (px, py, pw, ph) = l.panel;
    let (sx, sy, sw, sh) = l.search;
    let spot = PanelSpot {
        in_panel: x >= px && x < px + pw && y >= py && y < py + ph,
        in_header: y < py + l.header_h,
        in_left_half: x < px + pw * 0.5,
        in_search: x >= sx && x < sx + sw && y >= sy && y < sy + sh,
        row: if y >= l.list_y { Some(((y - l.list_y) / l.row_h) as usize) } else { None },
    };
    panel_hit(spot, l.max_rows)
}

#[test]
fn hit_test_maps_header_and_rows() {
    let l = panel_layout(1000.0, 800.0, 1.0);
    let (px, py, pw, _) = l.panel;
    assert_eq!(hit(&l, px - 1.0, py + 5.0), PanelHit::Outside);
    assert_eq!(hit(&l, px + 5.0, py + 5.0), PanelHit::ViewFiles);
    assert_eq!(hit(&l, px + pw - 5.0, py + 5.0), PanelHit::ViewGit);
    assert_eq!(hit(&l, px + 5.0, l.list_y + l.row_h * 1.5), PanelHit::Row(1));
}

#[test]
fn hits_below_the_rows_are_inside() {
    let spot = PanelSpot {
        in_panel: true,
        in_header: false,
        in_left_half: true,
        in_search: false,
        row: Some(3),
    };
    assert_eq!(panel_hit(spot, 3), PanelHit::Inside);
    assert_eq!(panel_hit(spot, 4), PanelHit::Row(3));
    assert_eq!(panel_hit(PanelSpot { in_search: true, ..spot }, 4), PanelHit::Search);
    assert_eq!(panel_hit(PanelSpot { row: None, ..spot }, 4), PanelHit::Inside);
}

#[test]
fn unread_directories_are_asked_for() {
    let mut p = SidePanel::new();
    p.toggle(PanelView::Files);
    assert!(p.sync(Some("/base".to_string()), 0));
    let nothing = TreeSnapshot { listings: vec![] };
    assert_eq!(p.rebuild_rows(&nothing), Some("/base".to_string()));
    assert!(p.file_rows().is_empty());
}

#[test]
fn clicking_a_directory_twice_folds_it_again() {
    let mut p = SidePanel::new();
    p.toggle(PanelView::Files);
    p.sync(Some("/base".to_string()), 0);
    p.rebuild_rows(&small_tree());
    assert!(p.click_row(0));
    p.rebuild_rows(&small_tree());
    assert!(p.click_row(0));
    p.rebuild_rows(&small_tree());
    assert_eq!(p.file_rows().len(), 2);
    assert!(!p.click_row(1), "a file is not toggled");
    assert!(!p.click_row(9));
}

#[test]
fn refreshes_are_throttled_and_forced_by_a_new_root() {
    let mut p = SidePanel::new();
    p.toggle(PanelView::Files);
    assert!(p.sync(Some("/base".to_string()), 1000));
    assert!(!p.sync(Some("/base".to_string()), 1001));
    assert!(p.sync(Some("/other".to_string()), 1002));
    assert_eq!(p.root().map(|s| s.as_str()), Some("/other"));
}

#[test]
fn filter_lists_deep_matches() {
    let mut p = SidePanel::new();
    p.toggle(PanelView::Files);
    p.sync(Some("/base".to_string()), 0);
    p.search_input("INN\u{7}er");
    assert_eq!(p.search, "INNer");
    assert_eq!(p.rebuild_rows(&small_tree()), None);
    let names: Vec<&str> = p.file_rows().iter().map(|r| r.name.as_str()).collect();
    assert_eq!(names, vec!["inner.txt"]);
    p.search_backspace();
    assert_eq!(p.search, "INNe");
    p.search_unfocus(true);
    assert_eq!(p.search, "");
    p.rebuild_rows(&small_tree());
    assert_eq!(p.file_rows().len(), 2);
}

#[test]
fn commit_message_takes_printable_text() {
    let mut p = SidePanel::new();
    p.commit_focus = true;
    p.commit_input("fix:\r\n typo");
    assert_eq!(p.commit_msg, "fix: typo");
    p.unfocus();
    assert!(!p.commit_focus);
    assert_eq!(p.commit_msg, "fix: typo");
}

#[test]
fn scrolling_stays_inside_the_list() {
    let mut p = SidePanel::new();
    p.toggle(PanelView::Files);
    p.sync(Some("/base".to_string()), 0);
    p.rebuild_rows(&small_tree());
    p.scroll_by(5, 1);
    assert_eq!(p.scroll, 1);
    assert_eq!(p.visible_row(0).map(|r| r.name.as_str()), Some("a.txt"));
    assert!(p.visible_row(1).is_none());
    p.scroll_by(-9, 1);
    assert_eq!(p.scroll, 0);
}

fn changed() -> GitInfo {
    parse_status("## main...origin/main [ahead 2, behind 1]\nM  a.rs\n M b.rs\nMM c.rs\n?? d.rs\n")
}

#[test]
fn status_is_read_into_both_lists() {
    let git = changed();
    assert_eq!(git.branch, "main");
    assert_eq!(git.ahead, 2);
    let staged: Vec<(char, &str)> = git.staged.iter().map(|c| (c.0, c.1.as_str())).collect();
    let unstaged: Vec<(char, &str)> = git.unstaged.iter().map(|c| (c.0, c.1.as_str())).collect();
    assert_eq!(staged, vec![('M', "a.rs"), ('M', "c.rs")]);
    assert_eq!(unstaged, vec![('M', "b.rs"), ('M', "c.rs"), ('?', "d.rs")]);
}

#[test]
fn short_statistics_are_read() {
    let mut git = changed();
    read_shortstat(&mut git, " 3 files changed, 12 insertions(+), 1 deletion(-)\n");
    assert_eq!((git.plus, git.minus), (12, 1));
    let counts = git_counts(&git);
    assert_eq!(counts.plus, "+12");
    assert!(counts.minus.ends_with('1'));
    assert!(counts.ahead.contains('2'));
}

#[test]
fn leading_numbers_stop_at_the_first_other_character() {
    let number = |s: &str| parse_leading_number(&s.chars().collect::<Vec<char>>());
    assert_eq!(number("42]"), 42);
    assert_eq!(number("x42"), 0);
    assert_eq!(number("99999999999"), 0);
}

#[test]
fn unreadable_status_lines_are_told() {
    assert!(is_readable_status("M  a.rs\n"));
    assert!(!is_readable_status("MM\u{e9}x\n"));
}

#[test]
fn failures_show_their_first_meaningful_line() {
    assert_eq!(failure_text("\n  \nfatal: no upstream\nhint: x\n"), "fatal: no upstream");
}

#[test]
fn git_view_has_two_headed_sections() {
    let lines = git_lines(&changed());
    assert_eq!(lines.len(), 7);
    assert!(matches!(&lines[0], GitLine::Header(t) if t == "未暂存 (3)"));
    assert!(matches!(&lines[1], GitLine::File('M', p) if p == "b.rs"));
    assert!(matches!(&lines[4], GitLine::Header(t) if t == "已暂存 (2)"));
    let clean = git_lines(&GitInfo::default());
    assert_eq!(clean.len(), 1);
    assert!(matches!(&clean[0], GitLine::Header(t) if t == "工作区干净"));
}

#[test]
fn buttons_follow_what_can_be_done() {
    let git = changed();
    let b = git_buttons(&git, false);
    assert!(b.stage.enabled && b.commit.enabled && b.push.enabled);
    let b = git_buttons(&git, true);
    assert!(!b.stage.enabled && !b.commit.enabled && !b.push.enabled);
    assert_eq!(b.stage.label, "…");
    let b = git_buttons(&GitInfo::default(), false);
    assert!(!b.stage.enabled && !b.commit.enabled && !b.push.enabled);
}

#[test]
fn one_git_operation_at_a_time() {
    let mut p = SidePanel::new();
    p.root = Some("/base".to_string());
    p.set_git(Some(changed()));
    let args = p.git_stage_all().unwrap();
    assert_eq!(args[0], "add");
    assert!(p.op_running());
    assert!(p.git_push().is_none());
    p.finish_op("fatal: rejected".to_string());
    assert!(!p.op_running());
    assert_eq!(p.op_error(), Some("fatal: rejected"));
}

#[test]
fn status_marks_have_colors_for_both_kinds_of_theme() {
    let light = status_color('M', true).unwrap();
    let dark = status_color('M', false).unwrap();
    assert_eq!((light.r, light.g, light.b), (154, 103, 0));
    assert_eq!((dark.r, dark.g, dark.b), (210, 153, 34));
}

#[test]
fn button_labels_count_wide_characters_twice() {
    assert_eq!(label_columns("ab"), 2);
    assert_eq!(label_columns("暂存"), 4);
}

#[test]
fn long_texts_keep_their_tail() {
    let cut = clip_tail("abcdefghij", 6, 0);
    assert!(cut.chars().count() <= 6);
    assert!(cut.ends_with('j'));
    assert_eq!(clip_tail("abc", 6, 0), "abc");
}

#[test]
fn executables_are_known_by_their_extension() {
    assert!(is_executable("tool.exe"));
    assert!(!is_executable("notes.txt"));
}

#[test]
fn panel_is_painted_from_back_to_front() {
    let p = SidePanel::new();
    let fills = push_quads(&p, 10, None, NebulaTheme::default());
    assert_eq!(fills[0].surface, Surface::Panel);
    assert_eq!(fills[1].surface, Surface::TabHalo(PanelView::Files));
    assert_eq!(fills[2].surface, Surface::Tab(PanelView::Files));
}

#[test]
fn commits_take_the_trimmed_message() {
    let mut p = SidePanel::new();
    p.git_begin_commit();
    assert!(!p.commit_focus);
    p.root = Some("/base".to_string());
    p.set_git(Some(changed()));
    p.git_begin_commit();
    assert!(p.commit_focus);
    p.commit_input(" ");
    assert!(p.git_commit_submit().is_none());
    p.commit_input("fix it ");
    assert_eq!(p.git_commit_submit().unwrap(), ["commit", "-m", "fix it"]);
    assert!(p.op_running());
    assert!(!p.commit_focus);
    assert!(p.git_commit_submit().is_none());
}
