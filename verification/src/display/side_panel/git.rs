//! Git state of the panel: reading `git status` and `git diff --shortstat`, and
//! the lines and labels that show it.

use vstd::prelude::*;

use crate::display::color::Rgb;
use crate::text;
use crate::unicode;

verus! {

broadcast use vstd::string::group_string_axioms;

/// Parsed `git status` snapshot.
#[derive(Debug)]
pub struct GitInfo {
    /// Current branch (or short detached-HEAD description).
    pub branch: String,
    /// Working-tree line insertions/deletions (unstaged + staged).
    pub plus: u64,
    pub minus: u64,
    /// Commits ahead of upstream: what a push would publish. 0 = nothing to
    /// push (the push button keys off this: only committed work is pushable).
    pub ahead: u32,
    /// Worktree changes not yet staged (`??` counts here as `?`).
    pub unstaged: Vec<(char, String)>,
    /// Index changes ready to commit.
    pub staged: Vec<(char, String)>,
}

/// A git snapshot as a value.
pub struct GitState {
    pub branch: Seq<char>,
    pub plus: u64,
    pub minus: u64,
    pub ahead: u32,
    pub unstaged: Seq<(char, Seq<char>)>,
    pub staged: Seq<(char, Seq<char>)>,
}

pub open spec fn changes(v: Seq<(char, String)>) -> Seq<(char, Seq<char>)> {
    v.map_values(|p: (char, String)| (p.0, p.1@))
}

impl GitInfo {
    pub open spec fn value(self) -> GitState {
        GitState {
            branch: self.branch@,
            plus: self.plus,
            minus: self.minus,
            ahead: self.ahead,
            unstaged: changes(self.unstaged@),
            staged: changes(self.staged@),
        }
    }
}

/// A snapshot of nothing.
pub open spec fn no_changes() -> GitState {
    GitState {
        branch: Seq::empty(),
        plus: 0,
        minus: 0,
        ahead: 0,
        unstaged: Seq::empty(),
        staged: Seq::empty(),
    }
}

impl Default for GitInfo {
    fn default() -> (r: GitInfo)
        ensures
            r.value() == no_changes(),
    {
        let r = GitInfo {
            branch: String::new(),
            plus: 0,
            minus: 0,
            ahead: 0,
            unstaged: Vec::new(),
            staged: Vec::new(),
        };
        assert(changes(r.unstaged@) =~= Seq::empty());
        assert(changes(r.staged@) =~= Seq::empty());
        r
    }
}

/// How many digits a text begins with.
pub open spec fn digit_run(s: Seq<char>) -> nat
    decreases s.len(),
{
    if s.len() == 0 || !text::is_digit(s[0]) {
        0
    } else {
        1 + digit_run(s.drop_first())
    }
}

/// The number that a text begins with; 0 where there is none, or too large a
/// one.
pub open spec fn leading_number(s: Seq<char>) -> u32 {
    match text::number(s.take(digit_run(s) as int)) {
        Some(n) => if n <= u32::MAX {
            n as u32
        } else {
            0
        },
        None => 0,
    }
}

/// The branch of a head line: what stands in front of its upstream.
pub open spec fn branch_of(head: Seq<char>) -> Seq<char> {
    match text::find_from(head, "..."@, 0) {
        Some(i) => head.take(i),
        None => head,
    }
}

/// The number of commits ahead that a head line names, if it names one.
pub open spec fn ahead_of(head: Seq<char>) -> Option<u32> {
    match text::find_from(head, "ahead "@, 0) {
        Some(i) => Some(leading_number(head.skip(i + 6))),
        None => None,
    }
}

/// The index mark, the worktree mark and the path of a change line.
pub open spec fn change_of(line: Seq<char>) -> (char, char, Seq<char>) {
    let b = vstd::utf8::encode_utf8(line);
    (b[0] as char, b[1] as char, unicode::trimmed(vstd::utf8::decode_utf8(b.skip(3))))
}

/// A snapshot with one more line of `git status --porcelain -b` read. A file
/// that is staged in part is in both lists.
pub open spec fn with_line(git: GitState, line: Seq<char>) -> GitState {
    if text::starts_with(line, "## "@) {
        let head = line.skip(3);
        GitState {
            branch: branch_of(head),
            ahead: match ahead_of(head) {
                Some(n) => n,
                None => git.ahead,
            },
            ..git
        }
    } else if vstd::utf8::encode_utf8(line).len() > 3 {
        let (x, y, path) = change_of(line);
        if x == '?' || y == '?' {
            GitState { unstaged: git.unstaged.push(('?', path)), ..git }
        } else {
            GitState {
                staged: if x != ' ' {
                    git.staged.push((x, path))
                } else {
                    git.staged
                },
                unstaged: if y != ' ' {
                    git.unstaged.push((y, path))
                } else {
                    git.unstaged
                },
                ..git
            }
        }
    } else {
        git
    }
}

/// The snapshot that the lines of `git status` give.
pub open spec fn status_of(lines: Seq<Seq<char>>) -> GitState
    decreases lines.len(),
{
    if lines.len() == 0 {
        no_changes()
    } else {
        with_line(status_of(lines.drop_last()), lines.last())
    }
}

/// Whether the path of a line can be cut off behind the two marks and a blank.
pub open spec fn readable(line: Seq<char>) -> bool {
    text::starts_with(line, "## "@) || vstd::utf8::encode_utf8(line).len() <= 3
        || vstd::utf8::is_char_boundary(vstd::utf8::encode_utf8(line), 3)
}

pub open spec fn all_readable(lines: Seq<Seq<char>>) -> bool {
    forall|i: int| 0 <= i < lines.len() ==> readable(#[trigger] lines[i])
}

fn find_text(v: &[char], p: &str) -> (r: Option<usize>)
    ensures
        match r {
            Some(i) => text::find_from(v@, p@, 0) == Some(i as int) && i + p@.len() <= v@.len(),
            None => text::find_from(v@, p@, 0) is None,
        },
{
    proof {
        text::lemma_find_from(v@, p@, 0);
    }
    text::find(v, text::chars_of(p).as_slice())
}

/// The number that a text begins with.
pub fn parse_leading_number(s: &[char]) -> (r: u32)
    ensures
        r == leading_number(s@),
{
    let mut n: usize = 0;
    assert(s@.skip(0) =~= s@);
    while n < s.len() && s[n] >= '0' && s[n] <= '9'
        invariant
            n <= s@.len(),
            digit_run(s@) == n + digit_run(s@.skip(n as int)),
        decreases s@.len() - n,
    {
        assert(s@.skip(n as int).drop_first() =~= s@.skip(n + 1));
        n += 1;
    }
    let digits = text::chars_of_range(s, 0, n);
    assert(digits@ =~= s@.take(n as int));
    match text::parse_number(digits.as_slice()) {
        Some(n) => if n <= u32::MAX as u64 {
            n as u32
        } else {
            0
        },
        None => 0,
    }
}

fn read_head(git: &mut GitInfo, line: &[char])
    requires
        text::starts_with(line@, "## "@),
    ensures
        final(git).value() == with_line(old(git).value(), line@),
{
    proof {
        reveal_strlit("## ");
        reveal_strlit("ahead ");
        assert("## "@.len() == 3);
        assert("ahead "@.len() == 6);
    }
    let head = text::chars_of_range(line, 3, line.len());
    assert(head@ =~= line@.skip(3));
    let end: usize = match find_text(head.as_slice(), "...") {
        Some(i) => i,
        None => head.len(),
    };
    git.branch = text::string_of_range(head.as_slice(), 0, end);
    assert(git.branch@ =~= branch_of(head@));
    if let Some(i) = find_text(head.as_slice(), "ahead ") {
        let len: usize = head.len();
        let rest = text::chars_of_range(head.as_slice(), i + 6, len);
        assert(rest@ =~= head@.skip(i + 6));
        git.ahead = parse_leading_number(rest.as_slice());
    }
}

fn push_change(list: &mut Vec<(char, String)>, mark: char, path: String)
    ensures
        changes(final(list)@) == changes(old(list)@).push((mark, path@)),
{
    let ghost before = changes(list@);
    list.push((mark, path));
    assert(changes(list@) =~= before.push((mark, path@)));
}

/// Reads one line of `git status --porcelain -b`.
pub fn read_status_line(git: &mut GitInfo, line: &[char])
    requires
        readable(line@),
    ensures
        final(git).value() == with_line(old(git).value(), line@),
{
    if text::has_prefix(line, text::chars_of("## ").as_slice()) {
        read_head(git, line);
        return;
    }
    let string = text::string_of(line);
    let s: &str = string.as_str();
    let len: usize = unicode::byte_len(s);
    if len > 3 {
        let bytes = s.as_bytes();
        let x: char = bytes[0] as char;
        let y: char = bytes[1] as char;
        let (_, rest) = s.split_at(3);
        proof {
            let b = vstd::utf8::encode_utf8(line@);
            assert(bytes@ == b);
            assert(b.subrange(3, b.len() as int) =~= b.skip(3));
            vstd::utf8::encode_utf8_decode_utf8(rest@);
        }
        let path = unicode::trim(rest);
        if x == '?' || y == '?' {
            push_change(&mut git.unstaged, '?', path);
            return;
        }
        if x != ' ' {
            push_change(&mut git.staged, x, path.clone());
        }
        if y != ' ' {
            push_change(&mut git.unstaged, y, path);
        }
    }
}

/// Whether the lines of a status text can be read: false where a change line
/// has a character across the place where its path begins.
pub fn is_readable_status(status: &str) -> (r: bool)
    ensures
        r == all_readable(text::lines(status@)),
{
    let lines = text::split_lines(text::chars_of(status).as_slice());
    let ghost all = text::lines(status@);
    let mut i: usize = 0;
    while i < lines.len()
        invariant
            i <= lines@.len(),
            all == lines@.map_values(|w: Vec<char>| w@),
            all == text::lines(status@),
            forall|j: int| 0 <= j < i ==> readable(#[trigger] all[j]),
        decreases lines@.len() - i,
    {
        let line: &Vec<char> = &lines[i];
        assert(all[i as int] == line@);
        if !text::has_prefix(line.as_slice(), text::chars_of("## ").as_slice()) {
            let string = text::string_of(line.as_slice());
            let s: &str = string.as_str();
            if unicode::byte_len(s) > 3 && !s.is_char_boundary(3) {
                assert(!readable(all[i as int]));
                return false;
            }
        }
        i += 1;
    }
    true
}

/// Reads `git status --porcelain -b`: the branch with its lead over upstream,
/// and one line per change.
pub fn parse_status(status: &str) -> (r: GitInfo)
    requires
        all_readable(text::lines(status@)),
    ensures
        r.value() == status_of(text::lines(status@)),
{
    let lines = text::split_lines(text::chars_of(status).as_slice());
    let ghost all = text::lines(status@);
    let mut git = GitInfo::default();
    let mut i: usize = 0;
    assert(all.take(0) =~= Seq::empty());
    while i < lines.len()
        invariant
            i <= lines@.len(),
            all == lines@.map_values(|w: Vec<char>| w@),
            all == text::lines(status@),
            all_readable(all),
            git.value() == status_of(all.take(i as int)),
        decreases lines@.len() - i,
    {
        assert(all[i as int] == lines@[i as int]@);
        assert(all.take(i + 1).drop_last() =~= all.take(i as int));
        read_status_line(&mut git, lines[i].as_slice());
        i += 1;
    }
    assert(all.take(i as int) =~= all);
    git
}

/// The number that a part of a short statistic names.
pub open spec fn count_of(part: Seq<char>) -> u64 {
    let t = unicode::trimmed(part);
    match text::number(t.take(text::position(t, ' ') as int)) {
        Some(n) => n,
        None => 0,
    }
}

/// The insertions and deletions that the parts of a short statistic give.
pub open spec fn counts_of(parts: Seq<Seq<char>>, plus: u64, minus: u64) -> (u64, u64)
    decreases parts.len(),
{
    if parts.len() == 0 {
        (plus, minus)
    } else {
        let (p, m) = counts_of(parts.drop_last(), plus, minus);
        let part = parts.last();
        if text::find_from(part, "insertion"@, 0) is Some {
            (count_of(part), m)
        } else if text::find_from(part, "deletion"@, 0) is Some {
            (p, count_of(part))
        } else {
            (p, m)
        }
    }
}

fn parse_count(part: &[char]) -> (r: u64)
    ensures
        r == count_of(part@),
{
    let string = text::string_of(part);
    let t = text::chars_of(unicode::trim(string.as_str()).as_str());
    let n: usize = text::position_from(t.as_slice(), 0, ' ');
    let first = text::chars_of_range(t.as_slice(), 0, n);
    assert(t@.skip(0) =~= t@);
    assert(first@ =~= t@.take(n as int));
    match text::parse_number(first.as_slice()) {
        Some(n) => n,
        None => 0,
    }
}

/// Reads `git diff --shortstat`, as in
/// `3 files changed, 140 insertions(+), 69 deletions(-)`.
pub fn read_shortstat(git: &mut GitInfo, stat: &str)
    ensures
        final(git).value() == (GitState {
            plus: counts_of(text::pieces(stat@, ','), old(git).plus, old(git).minus).0,
            minus: counts_of(text::pieces(stat@, ','), old(git).plus, old(git).minus).1,
            ..old(git).value()
        }),
{
    let parts = text::split(text::chars_of(stat).as_slice(), ',');
    let ghost all = text::pieces(stat@, ',');
    let mut plus: u64 = git.plus;
    let mut minus: u64 = git.minus;
    let mut i: usize = 0;
    assert(all.take(0) =~= Seq::empty());
    while i < parts.len()
        invariant
            i <= parts@.len(),
            all == parts@.map_values(|w: Vec<char>| w@),
            (plus, minus) == counts_of(all.take(i as int), git.plus, git.minus),
        decreases parts@.len() - i,
    {
        let part: &Vec<char> = &parts[i];
        assert(all[i as int] == part@);
        assert(all.take(i + 1).drop_last() =~= all.take(i as int));
        let num: u64 = parse_count(part.as_slice());
        if find_text(part.as_slice(), "insertion").is_some() {
            plus = num;
        } else if find_text(part.as_slice(), "deletion").is_some() {
            minus = num;
        }
        i += 1;
    }
    assert(all.take(i as int) =~= all);
    git.plus = plus;
    git.minus = minus;
}

/// The first line of an error text that is not blank.
pub open spec fn first_line(lines: Seq<Seq<char>>) -> Option<Seq<char>>
    decreases lines.len(),
{
    if lines.len() == 0 {
        None
    } else if unicode::trimmed(lines[0]).len() > 0 {
        Some(lines[0])
    } else {
        first_line(lines.drop_first())
    }
}

/// What a failed command reports: the first meaningful line is enough for a
/// status strip.
pub fn failure_text(stderr: &str) -> (r: String)
    ensures
        r@ == match first_line(text::lines(stderr@)) {
            Some(line) => line,
            None => "git 失败"@,
        },
{
    let lines = text::split_lines(text::chars_of(stderr).as_slice());
    let ghost all = text::lines(stderr@);
    let mut i: usize = 0;
    assert(all.skip(0) =~= all);
    while i < lines.len()
        invariant
            i <= lines@.len(),
            all == lines@.map_values(|w: Vec<char>| w@),
            all == text::lines(stderr@),
            first_line(all) == first_line(all.skip(i as int)),
        decreases lines@.len() - i,
    {
        let line = text::string_of(lines[i].as_slice());
        assert(all.skip(i as int)[0] == line@);
        assert(all.skip(i as int).drop_first() =~= all.skip(i + 1));
        if !unicode::trim(line.as_str()).as_str().is_empty() {
            return line;
        }
        i += 1;
    }
    "git 失败".to_owned()
}

/// Git status colors, picked per theme brightness so they hold contrast on both
/// surface families. Other marks fall back to dim ink.
pub open spec fn mark_color(status: char, is_light: bool) -> Option<Rgb> {
    if status == 'M' || status == 'R' || status == 'C' {
        if is_light {
            Some(Rgb { r: 154, g: 103, b: 0 })
        } else {
            Some(Rgb { r: 210, g: 153, b: 34 })
        }
    } else if status == 'A' {
        if is_light {
            Some(Rgb { r: 26, g: 127, b: 55 })
        } else {
            Some(Rgb { r: 63, g: 185, b: 80 })
        }
    } else if status == 'D' {
        if is_light {
            Some(Rgb { r: 207, g: 34, b: 46 })
        } else {
            Some(Rgb { r: 248, g: 81, b: 73 })
        }
    } else {
        None
    }
}

/// The color of a status mark.
pub fn status_color(status: char, is_light: bool) -> (r: Option<Rgb>)
    ensures
        r == mark_color(status, is_light),
{
    match (status, is_light) {
        ('M', false) | ('R', false) | ('C', false) => Some(Rgb::new(210, 153, 34)),
        ('M', true) | ('R', true) | ('C', true) => Some(Rgb::new(154, 103, 0)),
        ('A', false) => Some(Rgb::new(63, 185, 80)),
        ('A', true) => Some(Rgb::new(26, 127, 55)),
        ('D', false) => Some(Rgb::new(248, 81, 73)),
        ('D', true) => Some(Rgb::new(207, 34, 46)),
        _ => None,
    }
}

/// One line of the Git view.
pub enum GitLine {
    Header(String),
    File(char, String),
}

/// One line of the Git view, as a value.
pub enum Line {
    Header(Seq<char>),
    File(char, Seq<char>),
}

impl GitLine {
    pub open spec fn value(self) -> Line {
        match self {
            GitLine::Header(t) => Line::Header(t@),
            GitLine::File(c, p) => Line::File(c, p@),
        }
    }
}

pub open spec fn lines_value(v: Seq<GitLine>) -> Seq<Line> {
    v.map_values(|l: GitLine| l.value())
}

pub open spec fn file_line(p: (char, Seq<char>)) -> Line {
    Line::File(p.0, p.1)
}

pub open spec fn file_lines(v: Seq<(char, Seq<char>)>) -> Seq<Line> {
    v.map_values(|p: (char, Seq<char>)| file_line(p))
}

/// The heading of a section with `n` files.
pub open spec fn heading(before: Seq<char>, n: nat) -> Seq<char> {
    before + text::digits_of(n) + ")"@
}

/// The lines of the Git view: two headed sections in one scroll space.
pub open spec fn view_lines(git: GitState) -> Seq<Line> {
    if git.unstaged.len() == 0 && git.staged.len() == 0 {
        seq![Line::Header("工作区干净"@)]
    } else {
        seq![Line::Header(heading("未暂存 ("@, git.unstaged.len()))] + file_lines(git.unstaged)
            + seq![Line::Header(heading("已暂存 ("@, git.staged.len()))] + file_lines(git.staged)
    }
}

fn heading_text(before: &str, n: usize) -> (r: String)
    ensures
        r@ == heading(before@, n as nat),
{
    let mut r = before.to_owned();
    r.append(text::number_text(n as u64).as_str());
    r.append(")");
    r
}

fn push_file(lines: &mut Vec<GitLine>, mark: char, path: String)
    ensures
        lines_value(final(lines)@) == lines_value(old(lines)@).push(file_line((mark, path@))),
{
    let ghost before = lines_value(lines@);
    lines.push(GitLine::File(mark, path));
    assert(lines_value(lines@) =~= before.push(file_line((mark, path@))));
}

fn push_files(lines: &mut Vec<GitLine>, files: &Vec<(char, String)>)
    ensures
        lines_value(final(lines)@) == lines_value(old(lines)@) + file_lines(changes(files@)),
{
    let ghost before = lines_value(lines@);
    let mut i: usize = 0;
    assert(file_lines(changes(files@)).take(0) =~= Seq::empty());
    while i < files.len()
        invariant
            i <= files@.len(),
            lines_value(lines@) =~= before + file_lines(changes(files@)).take(i as int),
        decreases files@.len() - i,
    {
        push_file(lines, files[i].0, files[i].1.clone());
        assert(file_lines(changes(files@))[i as int] == file_line((files@[i as int].0, files@[i as int].1@)));
        i += 1;
    }
    assert(file_lines(changes(files@)).take(i as int) =~= file_lines(changes(files@)));
}

fn push_heading(lines: &mut Vec<GitLine>, title: String)
    ensures
        lines_value(final(lines)@) == lines_value(old(lines)@).push(Line::Header(title@)),
{
    let ghost before = lines_value(lines@);
    lines.push(GitLine::Header(title));
    assert(lines_value(lines@) =~= before.push(Line::Header(title@)));
}

/// The lines of the Git view.
pub fn git_lines(git: &GitInfo) -> (r: Vec<GitLine>)
    ensures
        lines_value(r@) == view_lines(git.value()),
{
    let mut lines: Vec<GitLine> = Vec::new();
    assert(lines_value(lines@) =~= Seq::empty());
    if git.unstaged.len() == 0 && git.staged.len() == 0 {
        push_heading(&mut lines, "工作区干净".to_owned());
        assert(lines_value(lines@) =~= view_lines(git.value()));
    } else {
        push_heading(&mut lines, heading_text("未暂存 (", git.unstaged.len()));
        push_files(&mut lines, &git.unstaged);
        push_heading(&mut lines, heading_text("已暂存 (", git.staged.len()));
        push_files(&mut lines, &git.staged);
        assert(lines_value(lines@) =~= view_lines(git.value()));
    }
    lines
}

/// The texts at the right of the branch line.
pub struct GitCounts {
    /// Commits to push; empty where there are none.
    pub ahead: String,
    pub plus: String,
    pub minus: String,
}

/// The texts at the right of the branch line.
pub fn git_counts(git: &GitInfo) -> (r: GitCounts)
    ensures
        r.ahead@ == if git.ahead > 0 {
            "↑"@ + text::digits_of(git.ahead as nat) + " "@
        } else {
            Seq::empty()
        },
        r.plus@ == "+"@ + text::digits_of(git.plus as nat),
        r.minus@ == "−"@ + text::digits_of(git.minus as nat),
{
    let mut ahead = String::new();
    if git.ahead > 0 {
        ahead = "↑".to_owned();
        ahead.append(text::number_text(git.ahead as u64).as_str());
        ahead.append(" ");
    }
    let mut plus = "+".to_owned();
    plus.append(text::number_text(git.plus).as_str());
    let mut minus = "−".to_owned();
    minus.append(text::number_text(git.minus).as_str());
    GitCounts { ahead, plus, minus }
}

/// An action button of the Git view.
pub struct GitButton {
    pub label: String,
    pub enabled: bool,
}

/// The three action buttons: stage, commit, push.
pub struct GitButtons {
    pub stage: GitButton,
    pub commit: GitButton,
    pub push: GitButton,
}

/// Whether staging is on offer.
pub open spec fn can_stage(git: Option<GitState>, busy: bool) -> bool {
    !busy && git is Some && git->0.unstaged.len() > 0
}

/// Whether committing is on offer.
pub open spec fn can_commit(git: Option<GitState>, busy: bool) -> bool {
    !busy && git is Some && git->0.staged.len() > 0
}

/// Whether pushing is on offer: only committed work is.
pub open spec fn can_push(git: Option<GitState>, busy: bool) -> bool {
    !busy && git is Some && git->0.ahead > 0
}

/// The action buttons: disabled while an operation runs, and where there is
/// nothing to act on.
pub fn git_buttons(git: &GitInfo, busy: bool) -> (r: GitButtons)
    ensures
        r.stage.label@ == if busy {
            "…"@
        } else {
            "暂存全部"@
        },
        r.stage.enabled == can_stage(Some(git.value()), busy),
        r.commit.label@ == "提交"@,
        r.commit.enabled == can_commit(Some(git.value()), busy),
        r.push.label@ == if git.ahead > 0 {
            "推送 ↑"@ + text::digits_of(git.ahead as nat)
        } else {
            "推送"@
        },
        r.push.enabled == can_push(Some(git.value()), busy),
{
    let stage = GitButton {
        label: if busy {
            "…".to_owned()
        } else {
            "暂存全部".to_owned()
        },
        enabled: !busy && git.unstaged.len() > 0,
    };
    let commit = GitButton { label: "提交".to_owned(), enabled: !busy && git.staged.len() > 0 };
    let push_label = if git.ahead > 0 {
        let mut label = "推送 ↑".to_owned();
        label.append(text::number_text(git.ahead as u64).as_str());
        label
    } else {
        "推送".to_owned()
    };
    let push = GitButton { label: push_label, enabled: !busy && git.ahead > 0 };
    GitButtons { stage, commit, push }
}

/// How many columns a label takes: one per ASCII character, two per other.
pub open spec fn columns(s: Seq<char>) -> nat
    decreases s.len(),
{
    if s.len() == 0 {
        0
    } else {
        columns(s.drop_last()) + if (s.last() as u32) < 128 {
            1nat
        } else {
            2nat
        }
    }
}

proof fn lemma_columns_bound(s: Seq<char>)
    ensures
        columns(s) <= 2 * s.len(),
    decreases s.len(),
{
    if s.len() > 0 {
        lemma_columns_bound(s.drop_last());
    }
}

/// How many columns a label takes.
pub fn label_columns(label: &str) -> (r: u64)
    requires
        label@.len() <= u32::MAX,
    ensures
        r == columns(label@),
{
    let v = text::chars_of(label);
    let mut cols: u64 = 0;
    let mut i: usize = 0;
    assert(v@.take(0) =~= Seq::empty());
    while i < v.len()
        invariant
            i <= v@.len() <= u32::MAX,
            cols == columns(v@.take(i as int)),
        decreases v@.len() - i,
    {
        assert(v@.take(i + 1).drop_last() =~= v@.take(i as int));
        proof {
            lemma_columns_bound(v@.take(i as int));
        }
        if (v[i] as u32) < 128 {
            cols += 1;
        } else {
            cols += 2;
        }
        i += 1;
    }
    assert(v@.take(i as int) =~= v@);
    cols
}

/// A file that is staged in part is in both lists, with its own mark in each.
pub proof fn law_partly_staged_files_are_in_both_lists(git: GitState, line: Seq<char>)
    requires
        !text::starts_with(line, "## "@),
        vstd::utf8::encode_utf8(line).len() > 3,
        !(change_of(line).0 == '?' || change_of(line).1 == '?'),
        change_of(line).0 != ' ',
        change_of(line).1 != ' ',
    ensures
        with_line(git, line).staged.last() == (change_of(line).0, change_of(line).2),
        with_line(git, line).unstaged.last() == (change_of(line).1, change_of(line).2),
{
}

/// Reading a line never forgets a change that was read before it.
pub proof fn law_changes_accumulate(git: GitState, line: Seq<char>)
    ensures
        git.staged.is_prefix_of(with_line(git, line).staged),
        git.unstaged.is_prefix_of(with_line(git, line).unstaged),
        with_line(git, line).plus == git.plus,
        with_line(git, line).minus == git.minus,
{
}

/// The view shows every change, and has no more lines than the scroll space
/// counts: both lists and their headings.
pub proof fn law_view_shows_every_change(git: GitState)
    ensures
        view_lines(git).len() <= git.unstaged.len() + git.staged.len() + 2,
        forall|i: int|
            0 <= i < git.unstaged.len() ==> view_lines(git)[i + 1] == file_line(
                #[trigger] git.unstaged[i],
            ),
        forall|i: int|
            0 <= i < git.staged.len() ==> view_lines(git)[i + 2 + git.unstaged.len()]
                == file_line(#[trigger] git.staged[i]),
{
}

} // verus!
