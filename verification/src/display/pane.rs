//! Per-pane prompt state: the line that is being typed, and the inline
//! suggestion behind it. The state follows its pane; otherwise what one shell
//! reports would leak into the other half of a split.

use vstd::prelude::*;

use crate::completions::file::{DirKey, DirSnapshot};
use crate::completions::item;
use crate::completions::item::{FileSuggestion, ItemRequest};
use crate::completions::options::{CompletionOptions, CompletionSort, MatchAlgorithm};
use crate::completions::path::PathStyle;
use crate::completions::span::Span;
use crate::display::commands;
use crate::text;
use crate::unicode;

verus! {

/// Cap on ghost-text length so a deeply-nested path can never spill across the
/// whole row.
pub const NEBULA_GHOST_MAX: usize = 96;

/// An inline image, anchored to an absolute grid row.
#[derive(Debug, Clone, Copy, PartialEq, Eq, Structural)]
pub struct NebulaInlineImage {
    /// Unique id keying the renderer's texture cache.
    pub id: u64,
    /// Top row in absolute grid line numbering.
    pub abs_line: usize,
    /// How many rows the image covers, at least one.
    pub rows: usize,
    /// Pixel dimensions.
    pub px_w: u32,
    pub px_h: u32,
}

/// Per-pane prompt metadata and inline suggestion state.
#[derive(Debug)]
pub struct NebulaPaneState {
    /// Current working directory, as the shell reported it.
    pub cwd: String,
    /// Current git branch, as the shell reported it.
    pub branch: String,
    /// Inline ghost-text autosuggestion remainder.
    pub suggestion: String,
    /// Cache key (`cwd\0line`) for the current suggestion.
    pub suggestion_key: String,
    /// User-typed prompt line tracked from key events.
    pub line_buf: String,
    /// Last prompt line read from the raw terminal grid.
    pub screen_line: String,
    /// Whether the user has typed anything into this pane.
    pub touched: bool,
    /// Inline images anchored to absolute grid rows, newest last.
    pub inline_images: Vec<NebulaInlineImage>,
    /// When the running command started, in milliseconds. `None` when no
    /// command is being tracked.
    pub command_started: Option<u64>,
    /// Program identity of the running command.
    pub running_program: Option<String>,
    /// The command line most recently committed with Enter.
    pub last_committed: String,
    /// The running program rang the bell and is now waiting for input.
    pub awaiting_input: bool,
    /// A tracked command finished while its tab was in the background.
    pub finished_unseen: bool,
}

/// The state of a pane as a value.
#[verifier::ext_equal]
pub struct PaneState {
    pub cwd: Seq<char>,
    pub branch: Seq<char>,
    pub suggestion: Seq<char>,
    pub suggestion_key: Seq<char>,
    pub line_buf: Seq<char>,
    pub screen_line: Seq<char>,
    pub touched: bool,
    pub inline_images: Seq<NebulaInlineImage>,
    pub command_started: Option<u64>,
    pub running_program: Option<Seq<char>>,
    pub last_committed: Seq<char>,
    pub awaiting_input: bool,
    pub finished_unseen: bool,
}

pub open spec fn optional_text(s: Option<String>) -> Option<Seq<char>> {
    match s {
        Some(s) => Some(s@),
        None => None,
    }
}

impl NebulaPaneState {
    pub open spec fn value(self) -> PaneState {
        PaneState {
            cwd: self.cwd@,
            branch: self.branch@,
            suggestion: self.suggestion@,
            suggestion_key: self.suggestion_key@,
            line_buf: self.line_buf@,
            screen_line: self.screen_line@,
            touched: self.touched,
            inline_images: self.inline_images@,
            command_started: self.command_started,
            running_program: optional_text(self.running_program),
            last_committed: self.last_committed@,
            awaiting_input: self.awaiting_input,
            finished_unseen: self.finished_unseen,
        }
    }
}

/// A pane in which nothing happened yet.
pub open spec fn fresh_pane() -> PaneState {
    PaneState {
        cwd: Seq::empty(),
        branch: Seq::empty(),
        suggestion: Seq::empty(),
        suggestion_key: Seq::empty(),
        line_buf: Seq::empty(),
        screen_line: Seq::empty(),
        touched: false,
        inline_images: Seq::empty(),
        command_started: None,
        running_program: None,
        last_committed: Seq::empty(),
        awaiting_input: false,
        finished_unseen: false,
    }
}

impl Default for NebulaPaneState {
    fn default() -> (r: NebulaPaneState)
        ensures
            r.value() == fresh_pane(),
    {
        let r = NebulaPaneState {
            cwd: String::new(),
            branch: String::new(),
            suggestion: String::new(),
            suggestion_key: String::new(),
            line_buf: String::new(),
            screen_line: String::new(),
            touched: false,
            inline_images: Vec::new(),
            command_started: None,
            running_program: None,
            last_committed: String::new(),
            awaiting_input: false,
            finished_unseen: false,
        };
        assert(r.value() =~= fresh_pane());
        r
    }
}

/// The pane without a suggestion.
pub open spec fn unsuggested(p: PaneState) -> PaneState {
    PaneState { suggestion: Seq::empty(), suggestion_key: Seq::empty(), ..p }
}

/// The pane after the user changed the typed line.
pub open spec fn edited(p: PaneState, line: Seq<char>) -> PaneState {
    PaneState { line_buf: line, touched: true, ..unsuggested(p) }
}

/// The pane with its line buffers reset.
pub open spec fn cleared(p: PaneState) -> PaneState {
    PaneState { line_buf: Seq::empty(), screen_line: Seq::empty(), ..unsuggested(p) }
}

/// `s` without the word that ends it.
pub open spec fn without_word(s: Seq<char>) -> Seq<char>
    decreases s.len(),
{
    if s.len() > 0 && !unicode::whitespace(s.last()) {
        without_word(s.drop_last())
    } else {
        s
    }
}

/// Whether pasted text is a plain piece of a line: what could execute commands
/// or move the cursor is not.
pub open spec fn is_plain_paste(s: Seq<char>) -> bool {
    forall|i: int| 0 <= i < s.len() ==> (#[trigger] s[i]) == '\t' || !unicode::control(s[i])
}

/// The line that Enter commits. What was read off the grid wins over the
/// keystrokes; where the grid is always read, only that counts: better no
/// history entry than a corrupted one.
pub open spec fn committed_line(p: PaneState, reads_grid: bool) -> Seq<char> {
    let shown = unicode::trimmed(p.screen_line);
    if reads_grid || shown.len() > 0 {
        shown
    } else {
        unicode::trimmed(p.line_buf)
    }
}

/// The pane after Enter.
pub open spec fn committed(p: PaneState, reads_grid: bool) -> PaneState {
    let line = committed_line(p, reads_grid);
    PaneState {
        last_committed: if line.len() == 0 {
            unicode::trimmed(p.line_buf)
        } else {
            line
        },
        ..cleared(p)
    }
}

impl NebulaPaneState {
    fn drop_suggestion(&mut self)
        ensures
            final(self).value() == unsuggested(old(self).value()),
    {
        self.suggestion = String::new();
        self.suggestion_key = String::new();
    }

    /// Appends a typed character to the prompt-line buffer.
    pub fn nebula_input_char(&mut self, c: char)
        ensures
            final(self).value() == edited(old(self).value(), old(self).line_buf@.push(c)),
    {
        let mut line = self.line_buf.clone();
        line.push(c);
        self.line_buf = line;
        self.touched = true;
        self.drop_suggestion();
    }

    /// Drops the last character (Backspace) from the prompt-line buffer.
    pub fn nebula_input_backspace(&mut self)
        ensures
            final(self).value() == edited(
                old(self).value(),
                if old(self).line_buf@.len() == 0 {
                    old(self).line_buf@
                } else {
                    old(self).line_buf@.drop_last()
                },
            ),
    {
        let mut line = self.line_buf.clone();
        let _ = line.pop();
        self.line_buf = line;
        self.touched = true;
        self.drop_suggestion();
    }

    /// Drops the previous whitespace-delimited token.
    pub fn nebula_input_delete_word(&mut self)
        ensures
            final(self).value() == edited(
                old(self).value(),
                without_word(unicode::trim_end(old(self).line_buf@)),
            ),
    {
        let v = text::chars_of(self.line_buf.as_str());
        let mut to: usize = unicode::trim_end_at(v.as_slice(), 0);
        assert(v@.skip(0) =~= v@);
        assert(v@.subrange(0, to as int) =~= v@.take(to as int));
        let ghost trimmed = unicode::trim_end(v@);
        while to > 0 && !unicode::is_whitespace(v[to - 1])
            invariant
                to <= v@.len(),
                without_word(trimmed) == without_word(v@.take(to as int)),
            decreases to,
        {
            assert(v@.take(to as int).drop_last() =~= v@.take(to - 1));
            to -= 1;
        }
        let line = text::string_of_range(v.as_slice(), 0, to);
        assert(line@ =~= v@.take(to as int));
        self.line_buf = line;
        self.touched = true;
        self.drop_suggestion();
    }

    /// Merges pasted literal text into the prompt-line buffer. Multi-line or
    /// escape-bearing text invalidates the buffer instead.
    pub fn nebula_input_text(&mut self, text: &str)
        ensures
            final(self).value() == if is_plain_paste(text@) {
                edited(old(self).value(), old(self).line_buf@ + text@)
            } else {
                cleared(old(self).value())
            },
    {
        let v = text::chars_of(text);
        let mut i: usize = 0;
        while i < v.len()
            invariant
                i <= v@.len(),
                v@ == text@,
                self.value() == old(self).value(),
                forall|j: int| 0 <= j < i ==> (#[trigger] v@[j]) == '\t' || !unicode::control(v@[j]),
            decreases v@.len() - i,
        {
            if v[i] != '\t' && unicode::is_control(v[i]) {
                assert(!is_plain_paste(text@));
                self.nebula_clear_line();
                return;
            }
            i += 1;
        }
        let mut line = self.line_buf.clone();
        line.append(text);
        self.line_buf = line;
        self.touched = true;
        self.drop_suggestion();
    }

    /// Commits the current line (on Enter) and resets the buffers. Returns the
    /// line to record in the history.
    pub fn nebula_commit_line(&mut self, reads_grid: bool) -> (line: String)
        ensures
            line@ == committed_line(old(self).value(), reads_grid),
            final(self).value() == committed(old(self).value(), reads_grid),
    {
        let shown = unicode::trim(self.screen_line.as_str());
        let line = if reads_grid || !shown.as_str().is_empty() {
            shown
        } else {
            unicode::trim(self.line_buf.as_str())
        };
        self.last_committed = if line.as_str().is_empty() {
            unicode::trim(self.line_buf.as_str())
        } else {
            line.clone()
        };
        self.nebula_clear_line();
        line
    }

    /// Resets the prompt-line buffers (Enter, Ctrl-C, or any non-text key).
    pub fn nebula_clear_line(&mut self)
        ensures
            final(self).value() == cleared(old(self).value()),
    {
        self.line_buf = String::new();
        self.screen_line = String::new();
        self.drop_suggestion();
    }
}

/// What a suggestion is made from, besides the pane itself.
pub struct SuggestionSources<'a> {
    /// Whether suggestions are shown at all.
    pub enabled: bool,
    /// The rest of the newest command of the history that extends the line.
    pub history: Option<&'a str>,
    /// The rest of a remembered directory, for commands that change directory.
    pub dir_history: Option<&'a str>,
    /// Names of commands, for the first word of a line.
    pub commands: &'a Vec<String>,
    /// Whether names of commands are compared without regard to case.
    pub ignore_case: bool,
}

/// What a suggestion is made from, as a value.
pub struct Sources {
    pub enabled: bool,
    pub history: Option<Seq<char>>,
    pub dir_history: Option<Seq<char>>,
    pub commands: Seq<Seq<char>>,
    pub ignore_case: bool,
}

impl<'a> SuggestionSources<'a> {
    pub open spec fn value(self) -> Sources {
        Sources {
            enabled: self.enabled,
            history: item::optional_text(self.history),
            dir_history: item::optional_text(self.dir_history),
            commands: commands::texts(self.commands@),
            ignore_case: self.ignore_case,
        }
    }
}

/// Ghost text cut to its longest length.
pub open spec fn clamped(rem: Seq<char>) -> Seq<char> {
    if rem.len() <= NEBULA_GHOST_MAX {
        rem
    } else {
        rem.take(NEBULA_GHOST_MAX as int)
    }
}

/// Caps ghost length so a long path or command can't spill into the chrome.
pub fn nebula_clamp_ghost(rem: &str) -> (r: String)
    ensures
        r@ == clamped(rem@),
{
    let v = text::chars_of(rem);
    if v.len() <= NEBULA_GHOST_MAX {
        rem.to_owned()
    } else {
        let r = text::string_of_range(v.as_slice(), 0, NEBULA_GHOST_MAX);
        assert(r@ =~= clamped(rem@));
        r
    }
}

/// The line that a suggestion extends: what was read off the grid, or else what
/// was typed.
pub open spec fn hinted_line(p: PaneState, line_override: Option<Seq<char>>) -> Seq<char> {
    match line_override {
        Some(line) => line,
        None => p.line_buf,
    }
}

pub open spec fn key_of(cwd: Seq<char>, line: Seq<char>) -> Seq<char> {
    cwd + "\u{0}"@ + line
}

/// What stands behind the last blank of a line.
pub open spec fn last_token(line: Seq<char>) -> Seq<char>
    decreases line.len(),
{
    if line.len() == 0 || line.last() == ' ' || line.last() == '\t' {
        Seq::empty()
    } else {
        last_token(line.drop_last()).push(line.last())
    }
}

/// Whether a path is absolute: it begins at a root, a home or a drive.
pub open spec fn is_absolute(token: Seq<char>) -> bool {
    token.len() > 0 && (token[0] == '/' || token[0] == '\\' || token[0] == '~' || (token.len() > 1
        && (token[0] as u32) < 128 && token[1] == ':'))
}

/// The suggestion that needs no look at the file system: from the history, from
/// remembered directories, or from the names of commands.
pub open spec fn quick_hint(line: Seq<char>, s: Sources) -> Option<Seq<char>> {
    if s.history is Some {
        s.history
    } else if s.dir_history is Some {
        s.dir_history
    } else if commands::is_command_word(line) {
        commands::hint(s.commands, line, s.ignore_case)
    } else {
        None
    }
}

/// The token to complete as a path, where that is what makes the suggestion.
/// Relative ones need a known directory.
pub open spec fn path_token(p: PaneState, line: Seq<char>, s: Sources) -> Option<Seq<char>> {
    let token = last_token(line);
    if !s.enabled || line.len() == 0 || key_of(p.cwd, line) == p.suggestion_key || quick_hint(
        line,
        s,
    ) is Some || token.len() == 0 || (!is_absolute(token) && p.cwd.len() == 0) {
        None
    } else {
        Some(token)
    }
}

/// The pane after everything but the completion of a path was tried.
pub open spec fn quickly_suggested(p: PaneState, line: Seq<char>, s: Sources) -> PaneState {
    if !s.enabled || line.len() == 0 {
        unsuggested(p)
    } else if key_of(p.cwd, line) == p.suggestion_key {
        p
    } else {
        PaneState {
            suggestion_key: key_of(p.cwd, line),
            suggestion: match quick_hint(line, s) {
                Some(rem) => clamped(rem),
                None => Seq::empty(),
            },
            ..p
        }
    }
}

/// What is shown of a completed path.
pub open spec fn shown_path(s: FileSuggestion) -> Seq<char> {
    match s.display_override {
        Some(d) => d@,
        None => s.path@,
    }
}

/// A remainder up to its first separator: a suggestion goes one segment deep.
pub open spec fn one_segment(rem: Seq<char>) -> Seq<char>
    decreases rem.len(),
{
    if rem.len() == 0 {
        rem
    } else if rem[0] == '/' || rem[0] == '\\' {
        seq![rem[0]]
    } else {
        seq![rem[0]] + one_segment(rem.drop_first())
    }
}

/// The remainder of the first completed path that extends the token without
/// regard to case.
pub open spec fn remainder(paths: Seq<Seq<char>>, token: Seq<char>) -> Option<Seq<char>>
    decreases paths.len(),
{
    if paths.len() == 0 {
        None
    } else {
        match commands::rest_of(paths[0], token, true) {
            Some(rem) => Some(one_segment(rem)),
            None => remainder(paths.drop_first(), token),
        }
    }
}

pub open spec fn shown_paths(v: Seq<FileSuggestion>) -> Seq<Seq<char>> {
    v.map_values(|s: FileSuggestion| shown_path(s))
}

/// The pane after a path was completed.
pub open spec fn path_suggested(p: PaneState, token: Seq<char>, paths: Seq<Seq<char>>) -> PaneState {
    match remainder(paths, token) {
        Some(rem) => PaneState { suggestion: clamped(rem), ..p },
        None => p,
    }
}

fn read_last_token(v: &Vec<char>) -> (r: String)
    ensures
        r@ == last_token(v@),
{
    let mut i: usize = v.len();
    assert(v@.take(i as int) =~= v@);
    assert(last_token(v@) =~= last_token(v@.take(i as int)) + v@.skip(i as int));
    while i > 0 && v[i - 1] != ' ' && v[i - 1] != '\t'
        invariant
            i <= v@.len(),
            last_token(v@) =~= last_token(v@.take(i as int)) + v@.skip(i as int),
        decreases i,
    {
        assert(v@.take(i as int).drop_last() =~= v@.take(i - 1));
        assert(seq![v@[i - 1]] + v@.skip(i as int) =~= v@.skip(i - 1));
        i -= 1;
    }
    let r = text::string_of_range(v.as_slice(), i, v.len());
    assert(r@ =~= last_token(v@));
    r
}

fn absolute(token: &Vec<char>) -> (r: bool)
    ensures
        r == is_absolute(token@),
{
    token.len() > 0 && (token[0] == '/' || token[0] == '\\' || token[0] == '~' || (token.len() > 1
        && (token[0] as u32) < 128 && token[1] == ':'))
}

fn find_quick_hint(line: &str, s: &SuggestionSources) -> (r: Option<String>)
    ensures
        optional_text(r) == quick_hint(line@, s.value()),
{
    if let Some(rem) = s.history {
        return Some(rem.to_owned());
    }
    if let Some(rem) = s.dir_history {
        return Some(rem.to_owned());
    }
    if commands::nebula_is_command_position(line) {
        return commands::nebula_command_hint(s.commands, line, s.ignore_case);
    }
    None
}

fn segment_of(v: &Vec<char>, from: usize) -> (r: String)
    requires
        from <= v@.len(),
    ensures
        r@ == one_segment(v@.skip(from as int)),
{
    let mut i: usize = from;
    let ghost rem = v@.skip(from as int);
    assert(v@.subrange(from as int, from as int) + rem =~= rem);
    assert(one_segment(rem) =~= v@.subrange(from as int, i as int) + one_segment(v@.skip(i as int)));
    while i < v.len() && v[i] != '/' && v[i] != '\\'
        invariant
            from <= i <= v@.len(),
            one_segment(rem) =~= v@.subrange(from as int, i as int) + one_segment(
                v@.skip(i as int),
            ),
        decreases v@.len() - i,
    {
        assert(v@.skip(i as int).drop_first() =~= v@.skip(i + 1));
        assert(v@.subrange(from as int, i + 1) =~= v@.subrange(from as int, i as int) + seq![
            v@[i as int],
        ]);
        i += 1;
    }
    let to: usize = if i < v.len() {
        i + 1
    } else {
        i
    };
    let r = text::string_of_range(v.as_slice(), from, to);
    proof {
        if i < v@.len() {
            assert(r@ =~= v@.subrange(from as int, i as int) + seq![v@[i as int]]);
        } else {
            assert(v@.skip(i as int) =~= Seq::empty());
            assert(r@ =~= v@.subrange(from as int, i as int));
        }
    }
    r
}

fn same_ignoring_case(a: &str, b: &str) -> (r: bool)
    ensures
        r == (text::ascii_lower(a@) == text::ascii_lower(b@)),
{
    text::str_eq(text::to_ascii_lower(a).as_str(), text::to_ascii_lower(b).as_str())
}

fn find_remainder(matches: &Vec<FileSuggestion>, token: &str) -> (r: Option<String>)
    ensures
        optional_text(r) == remainder(shown_paths(matches@), token@),
{
    let ghost all = shown_paths(matches@);
    let n: usize = text::chars_of(token).len();
    let mut i: usize = 0;
    assert(all.skip(0) =~= all);
    while i < matches.len()
        invariant
            i <= matches@.len(),
            all == shown_paths(matches@),
            n == token@.len(),
            remainder(all, token@) == remainder(all.skip(i as int), token@),
        decreases matches@.len() - i,
    {
        let m: &FileSuggestion = &matches[i];
        let path: &str = match &m.display_override {
            Some(d) => d.as_str(),
            None => m.path.as_str(),
        };
        assert(all.skip(i as int)[0] == path@);
        assert(all.skip(i as int).drop_first() =~= all.skip(i + 1));
        let v = text::chars_of(path);
        if n < v.len() {
            let head = text::string_of_range(v.as_slice(), 0, n);
            assert(head@ =~= v@.take(n as int));
            if same_ignoring_case(head.as_str(), token) {
                return Some(segment_of(&v, n));
            }
        }
        i += 1;
    }
    None
}

/// How paths are completed for suggestions: by prefix, without regard to case.
pub open spec fn path_options() -> CompletionOptions {
    CompletionOptions {
        case_sensitive: false,
        match_algorithm: MatchAlgorithm::Prefix,
        sort: CompletionSort::Alphabetical,
        match_description: false,
    }
}

/// What the path completion of a token asks for.
pub open spec fn path_request(
    p: PaneState,
    line: Seq<char>,
    token: Seq<char>,
    style: PathStyle,
    home: Option<Seq<char>>,
) -> ItemRequest {
    ItemRequest {
        want_directory: commands::wants_directory(line),
        span: Span { start: 0, end: vstd::utf8::encode_utf8(token).len() as usize },
        partial: token,
        cwds: if p.cwd.len() == 0 {
            Seq::empty()
        } else {
            seq![p.cwd]
        },
        options: path_options(),
        style,
        home,
        colors: None,
    }
}

/// The file system as far as it is known, and its conventions.
pub struct PathSources<'a> {
    pub style: PathStyle,
    pub home: Option<&'a str>,
    pub dirs: &'a DirSnapshot,
}

/// Whether completed paths are the answer to a request.
pub open spec fn answers(
    request: ItemRequest,
    found: Vec<FileSuggestion>,
    dirs: DirSnapshot,
) -> bool {
    request.is_answered(Ok(found), dirs)
}

/// Whether the directory to read is the answer to a request.
pub open spec fn asks(request: ItemRequest, key: DirKey, dirs: DirSnapshot) -> bool {
    request.is_answered(Err(key), dirs)
}

/// Whether the token that is left to complete, if any, is short enough, and so
/// are the names in the directories.
pub open spec fn may_complete(p: PaneState, line: Seq<char>, s: Sources, paths: PathSources) -> bool {
    &&& path_token(p, line, s) matches Some(token) ==> path_request(
        p,
        line,
        token,
        paths.style,
        item::optional_text(paths.home),
    ).wf()
    &&& paths.dirs.wf(path_options())
}

/// The pane with a line read off the screen.
pub open spec fn with_screen_line(p: PaneState, line: Seq<char>) -> PaneState {
    PaneState { screen_line: line, ..p }
}

/// Whether a pane was brought up to date for a frame. While nothing is suggested,
/// the suggestion goes. Where the screen is read, the line on it is taken over,
/// and without one nothing is suggested; elsewhere the typed line counts.
pub open spec fn is_refreshed(
    p: PaneState,
    after: PaneState,
    suggests: bool,
    reads_grid: bool,
    line: Option<Seq<char>>,
    s: Sources,
    paths: PathSources,
    r: Result<(), DirKey>,
) -> bool {
    if !suggests {
        r is Ok && after == unsuggested(p)
    } else if !reads_grid {
        is_updated(p, after, p.line_buf, s, paths, r)
    } else {
        match line {
            Some(line) => is_updated(with_screen_line(p, line), after, line, s, paths, r),
            None => r is Ok && after == with_screen_line(unsuggested(p), Seq::empty()),
        }
    }
}

/// Whether a pane was brought up to date with a line: by what needs no look at
/// the file system, by completed paths, or not at all where a directory has to
/// be read first.
pub open spec fn is_updated(
    p: PaneState,
    after: PaneState,
    line: Seq<char>,
    s: Sources,
    paths: PathSources,
    r: Result<(), DirKey>,
) -> bool {
    let q = quickly_suggested(p, line, s);
    match path_token(p, line, s) {
        None => r is Ok && after == q,
        Some(token) => {
            let request = path_request(
                p,
                line,
                token,
                paths.style,
                item::optional_text(paths.home),
            );
            match r {
                Ok(_) => exists|found: Vec<FileSuggestion>| #[trigger]
                    answers(request, found, *paths.dirs) && after == path_suggested(
                        q,
                        token,
                        shown_paths(found@),
                    ),
                Err(key) => after == p && asks(request, key, *paths.dirs),
            }
        },
    }
}

impl NebulaPaneState {
    /// Takes the suggestion from everything that needs no look at the file
    /// system. Returns the token that has to be completed as a path, where that
    /// is what is left.
    pub fn begin_suggestion(&mut self, line_override: Option<&str>, s: &SuggestionSources) -> (r:
        Option<String>)
        ensures
            ({
                let p = old(self).value();
                let line = hinted_line(p, item::optional_text(line_override));
                final(self).value() == quickly_suggested(p, line, s.value()) && optional_text(r)
                    == path_token(p, line, s.value())
            }),
    {
        let line: String = match line_override {
            Some(line) => line.to_owned(),
            None => self.line_buf.clone(),
        };
        if !s.enabled || line.as_str().is_empty() {
            self.drop_suggestion();
            return None;
        }
        let mut key = self.cwd.clone();
        key.append("\u{0}");
        key.append(line.as_str());
        if text::str_eq(key.as_str(), self.suggestion_key.as_str()) {
            return None;
        }
        self.suggestion_key = key;
        if let Some(rem) = find_quick_hint(line.as_str(), s) {
            self.suggestion = nebula_clamp_ghost(rem.as_str());
            return None;
        }
        self.suggestion = String::new();
        let token = read_last_token(&text::chars_of(line.as_str()));
        let v = text::chars_of(token.as_str());
        if v.len() == 0 {
            return None;
        }
        if !absolute(&v) && self.cwd.as_str().is_empty() {
            return None;
        }
        Some(token)
    }

    /// Takes the suggestion from completed paths.
    pub fn finish_suggestion(&mut self, token: &str, found: &Vec<FileSuggestion>)
        ensures
            final(self).value() == path_suggested(old(self).value(), token@, shown_paths(found@)),
    {
        if let Some(rem) = find_remainder(found, token) {
            self.suggestion = nebula_clamp_ghost(rem.as_str());
        }
    }

    /// Recomputes the inline suggestion. A whole previous command sharing the
    /// prefix wins; then remembered directories and names of commands; otherwise
    /// the final token gets path completion. Cached on the directory and the
    /// line. Where a directory has to be read first, nothing changes, and it is
    /// returned.
    pub fn nebula_update_suggestion(
        &mut self,
        line_override: Option<&str>,
        s: &SuggestionSources,
        paths: &PathSources,
    ) -> (r: Result<(), DirKey>)
        requires
            may_complete(
                old(self).value(),
                hinted_line(old(self).value(), item::optional_text(line_override)),
                s.value(),
                *paths,
            ),
        ensures
            is_updated(
                old(self).value(),
                final(self).value(),
                hinted_line(old(self).value(), item::optional_text(line_override)),
                s.value(),
                *paths,
                r,
            ),
    {
        let ghost p = self.value();
        let line: String = match line_override {
            Some(line) => line.to_owned(),
            None => self.line_buf.clone(),
        };
        let old_key = self.suggestion_key.clone();
        let old_suggestion = self.suggestion.clone();
        let token = match self.begin_suggestion(line_override, s) {
            Some(token) => token,
            None => return Ok(()),
        };
        let ghost q = self.value();
        let mut cwds: Vec<String> = Vec::new();
        if !self.cwd.as_str().is_empty() {
            cwds.push(self.cwd.clone());
        }
        let options = CompletionOptions {
            case_sensitive: false,
            match_algorithm: MatchAlgorithm::Prefix,
            sort: CompletionSort::Alphabetical,
            match_description: false,
        };
        let want_directory: bool = commands::nebula_path_wants_directory(line.as_str());
        let span = Span::new(0, unicode::byte_len(token.as_str()));
        let ghost request = path_request(
            p,
            line@,
            token@,
            paths.style,
            item::optional_text(paths.home),
        );
        let partial: &str = token.as_str();
        assert(item::texts(cwds@) =~= request.cwds);
        assert(item::item_request(
            want_directory,
            span,
            partial,
            &cwds,
            &options,
            false,
            None,
            paths.style,
            paths.home,
        ) == request);
        let answer = item::complete_item(
            want_directory,
            span,
            partial,
            &cwds,
            &options,
            false,
            None,
            paths.style,
            paths.home,
            paths.dirs,
        );
        match answer {
            Ok(found) => {
                assert(answers(request, found, *paths.dirs));
                self.finish_suggestion(token.as_str(), &found);
                assert(self.value() == path_suggested(q, token@, shown_paths(found@)));
                Ok(())
            },
            Err(key) => {
                self.suggestion_key = old_key;
                self.suggestion = old_suggestion;
                assert(self.value() =~= p);
                Err(key)
            },
        }
    }
}

impl NebulaPaneState {
    /// Refreshes the inline suggestion for a frame. Nothing `suggests` on the
    /// alternate screen, in vi mode and during a search. Where input is read off
    /// the grid, `line` is what stands on it behind the prompt; no line means that
    /// a hint cannot be trusted. Where a directory has to be read first, it is
    /// returned.
    pub fn refresh_suggestion(
        &mut self,
        suggests: bool,
        reads_grid: bool,
        line: Option<&str>,
        s: &SuggestionSources,
        paths: &PathSources,
    ) -> (r: Result<(), DirKey>)
        requires
            suggests && !reads_grid ==> may_complete(
                old(self).value(),
                old(self).line_buf@,
                s.value(),
                *paths,
            ),
            suggests && reads_grid && line is Some ==> may_complete(
                with_screen_line(old(self).value(), line->0@),
                line->0@,
                s.value(),
                *paths,
            ),
        ensures
            is_refreshed(
                old(self).value(),
                final(self).value(),
                suggests,
                reads_grid,
                item::optional_text(line),
                s.value(),
                *paths,
                r,
            ),
    {
        if !suggests {
            self.drop_suggestion();
            return Ok(());
        }
        if !reads_grid {
            return self.nebula_update_suggestion(None, s, paths);
        }
        match line {
            Some(line) => {
                self.screen_line = line.to_owned();
                assert(self.value() == with_screen_line(old(self).value(), line@));
                self.nebula_update_suggestion(Some(line), s, paths)
            },
            None => {
                self.screen_line = String::new();
                self.drop_suggestion();
                assert(self.value() =~= with_screen_line(
                    unsuggested(old(self).value()),
                    Seq::empty(),
                ));
                Ok(())
            },
        }
    }
}

/// A line that was read off the screen is taken over as it is, and the typed line
/// stays.
pub proof fn law_screen_lines_are_taken_over(
    p: PaneState,
    after: PaneState,
    line: Seq<char>,
    s: Sources,
    paths: PathSources,
    r: Result<(), DirKey>,
)
    requires
        is_refreshed(p, after, true, true, Some(line), s, paths, r),
    ensures
        after.screen_line == line,
        after.line_buf == p.line_buf,
        after.cwd == p.cwd,
{
}

/// A backspace takes back the character that was typed last.
pub proof fn law_backspace_undoes_typing(p: PaneState, c: char)
    ensures
        edited(edited(p, p.line_buf.push(c)), p.line_buf.push(c).drop_last()) == edited(
            p,
            p.line_buf,
        ),
{
    assert(p.line_buf.push(c).drop_last() =~= p.line_buf);
}

/// Enter leaves nothing of the line behind.
pub proof fn law_committing_clears_the_line(p: PaneState, reads_grid: bool)
    ensures
        committed(p, reads_grid).line_buf.len() == 0,
        committed(p, reads_grid).screen_line.len() == 0,
        committed(p, reads_grid).suggestion.len() == 0,
        committed(p, reads_grid).cwd == p.cwd,
        committed(p, reads_grid).touched == p.touched,
{
}

/// Ghost text is never longer than its cap.
pub proof fn law_ghost_text_is_short(p: PaneState, line: Seq<char>, s: Sources)
    requires
        p.suggestion.len() <= NEBULA_GHOST_MAX,
    ensures
        quickly_suggested(p, line, s).suggestion.len() <= NEBULA_GHOST_MAX,
{
}

/// The suggestion for a line is computed once: asking again changes nothing.
pub proof fn law_suggestions_are_cached(p: PaneState, line: Seq<char>, s: Sources, t: Sources)
    requires
        s.enabled,
        t.enabled,
        line.len() > 0,
    ensures
        quickly_suggested(quickly_suggested(p, line, s), line, t) == quickly_suggested(p, line, s),
        path_token(quickly_suggested(p, line, s), line, t) is None,
{
}

/// A suggestion goes at most one segment deep: a separator can only end it.
pub proof fn law_suggestions_are_one_segment(rem: Seq<char>)
    ensures
        one_segment(rem).len() <= rem.len(),
        one_segment(rem).is_prefix_of(rem),
        forall|i: int|
            0 <= i < one_segment(rem).len() - 1 ==> one_segment(rem)[i] != '/' && one_segment(
                rem,
            )[i] != '\\',
    decreases rem.len(),
{
    if rem.len() > 0 && rem[0] != '/' && rem[0] != '\\' {
        let rest = rem.drop_first();
        law_suggestions_are_one_segment(rest);
        let out = one_segment(rem);
        assert forall|i: int| 0 <= i < out.len() - 1 implies out[i] != '/' && out[i] != '\\' by {
            if i > 0 {
                assert(out[i] == one_segment(rest)[i - 1]);
            }
        }
        assert(out =~= rem.take(out.len() as int)) by {
            assert forall|i: int| 0 <= i < out.len() implies out[i] == rem[i] by {
                if i > 0 {
                    assert(out[i] == one_segment(rest)[i - 1]);
                    assert(one_segment(rest) =~= rest.subrange(
                        0,
                        one_segment(rest).len() as int,
                    ));
                    assert(rest[i - 1] == rem[i]);
                }
            }
        }
    }
}

} // verus!
