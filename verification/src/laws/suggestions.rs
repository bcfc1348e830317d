//! Reading the line at the prompt, and suggesting how it goes on.

use vstd::prelude::*;

use crate::completions::path::PathStyle;
use crate::display::commands;
use crate::display::commands::Executable;
use crate::display::grid_input;
use crate::display::grid_input::{GridCell, Row};
use crate::display::pane;
use crate::display::pane::{PaneState, Sources};
use crate::display::program;
use crate::text;
use crate::unicode;

verus! {

/// A name as it is compared.
pub open spec fn compared(s: Seq<char>, ignore_case: bool) -> Seq<char> {
    if ignore_case {
        text::ascii_lower(s)
    } else {
        s
    }
}

/// Whether a name begins with a prefix and is longer.
pub open spec fn extends(name: Seq<char>, prefix: Seq<char>, ignore_case: bool) -> bool {
    prefix.len() < name.len() && compared(name.take(prefix.len() as int), ignore_case) == compared(
        prefix,
        ignore_case,
    )
}

/// The first command that begins with what was typed, and is longer, is suggested:
/// what is missing of it. Nothing is suggested for nothing, or where there is none.
pub proof fn law_first_command_is_suggested(
    names: Seq<Seq<char>>,
    prefix: Seq<char>,
    ignore_case: bool,
)
    ensures
        match commands::hint(names, prefix, ignore_case) {
            Some(rest) => prefix.len() > 0 && exists|i: int|
                0 <= i < names.len() && extends(#[trigger] names[i], prefix, ignore_case) && rest
                    == names[i].skip(prefix.len() as int) && forall|j: int|
                    0 <= j < i ==> !extends(#[trigger] names[j], prefix, ignore_case),
            None => prefix.len() == 0 || forall|j: int|
                0 <= j < names.len() ==> !extends(#[trigger] names[j], prefix, ignore_case),
        },
    decreases names.len(),
{
    if prefix.len() > 0 && names.len() > 0 {
        let tail = names.drop_first();
        if extends(names[0], prefix, ignore_case) {
            assert(commands::hint(names, prefix, ignore_case) == Some(
                names[0].skip(prefix.len() as int),
            ));
        } else {
            law_first_command_is_suggested(tail, prefix, ignore_case);
            match commands::hint(tail, prefix, ignore_case) {
                Some(rest) => {
                    let i = choose|i: int|
                        0 <= i < tail.len() && extends(#[trigger] tail[i], prefix, ignore_case)
                            && rest == tail[i].skip(prefix.len() as int) && forall|j: int|
                            0 <= j < i ==> !extends(#[trigger] tail[j], prefix, ignore_case);
                    assert(names[i + 1] == tail[i]);
                    assert forall|j: int| 0 <= j < i + 1 implies !extends(
                        #[trigger] names[j],
                        prefix,
                        ignore_case,
                    ) by {
                        if j > 0 {
                            assert(names[j] == tail[j - 1]);
                        }
                    }
                },
                None => {
                    assert forall|j: int| 0 <= j < names.len() implies !extends(
                        #[trigger] names[j],
                        prefix,
                        ignore_case,
                    ) by {
                        if j > 0 {
                            assert(names[j] == tail[j - 1]);
                        }
                    }
                },
            }
        }
    }
}

/// Whether a character is a blank or a tab.
pub open spec fn is_gap(c: char) -> bool {
    c == ' ' || c == '\t'
}

/// Whether a text is one word.
pub open spec fn is_word(s: Seq<char>) -> bool {
    forall|i: int| 0 <= i < s.len() ==> !is_gap(#[trigger] s[i])
}

/// Commands are suggested for a first word alone, and only where it is no path.
pub proof fn law_commands_stand_first(line: Seq<char>)
    ensures
        commands::is_command_word(line) <==> {
            &&& is_word(line)
            &&& forall|i: int| 0 <= i < line.len() ==> #[trigger] line[i] != '/' && line[i] != '\\'
            &&& !(line.len() >= 2 && (line[0] as u32) < 128 && line[1] == ':')
        },
{
    if line.contains(' ') {
        let i = choose|i: int| 0 <= i < line.len() && line[i] == ' ';
        assert(is_gap(line[i]));
    }
    if line.contains('\t') {
        let i = choose|i: int| 0 <= i < line.len() && line[i] == '\t';
        assert(is_gap(line[i]));
    }
    if line.contains('/') {
        let i = choose|i: int| 0 <= i < line.len() && line[i] == '/';
        assert(line[i] == '/');
    }
    if line.contains('\\') {
        let i = choose|i: int| 0 <= i < line.len() && line[i] == '\\';
        assert(line[i] == '\\');
    }
    let plain = forall|i: int|
        0 <= i < line.len() ==> #[trigger] line[i] != '/' && line[i] != '\\';
    assert(line.contains(' ') || line.contains('\t') ==> !is_word(line));
    assert(line.contains('/') || line.contains('\\') ==> !plain);
    if commands::is_command_word(line) {
        assert forall|i: int| 0 <= i < line.len() implies !is_gap(#[trigger] line[i]) by {
            assert(line.contains(line[i]));
        }
        assert forall|i: int| 0 <= i < line.len() implies #[trigger] line[i] != '/' && line[i]
            != '\\' by {
            assert(line.contains(line[i]));
        }
    }
}

/// The commands that change the directory, and no others, are followed by a
/// directory: whatever their case, whatever is behind them.
pub proof fn law_directories_follow_some_commands(word: Seq<char>, rest: Seq<char>)
    requires
        is_word(word),
        rest.len() > 0 ==> is_gap(rest[0]),
    ensures
        commands::wants_directory(word + rest) <==> {
            let w = text::ascii_lower(word);
            w == "cd"@ || w == "chdir"@ || w == "pushd"@ || w == "sl"@ || w == "set-location"@
        },
{
    lemma_first_word(word, rest);
    assert((word + rest).take(word.len() as int) =~= word);
}

proof fn lemma_first_word(word: Seq<char>, rest: Seq<char>)
    requires
        is_word(word),
        rest.len() > 0 ==> is_gap(rest[0]),
    ensures
        commands::first_word_len(word + rest) == word.len(),
    decreases word.len(),
{
    if word.len() == 0 {
        assert(word + rest =~= rest);
    } else {
        assert(!is_gap(word[0]));
        assert((word + rest).drop_first() =~= word.drop_first() + rest);
        assert forall|i: int| 0 <= i < word.len() - 1 implies !is_gap(
            #[trigger] word.drop_first()[i],
        ) by {
            assert(!is_gap(word[i + 1]));
        }
        lemma_first_word(word.drop_first(), rest);
    }
}

/// What is completed as a path is the last word of the line.
pub proof fn law_last_word_is_completed(front: Seq<char>, word: Seq<char>)
    requires
        is_word(word),
        front.len() > 0 ==> is_gap(front.last()),
    ensures
        pane::last_token(front + word) == word,
    decreases word.len(),
{
    let line = front + word;
    if word.len() == 0 {
        assert(line =~= front);
    } else {
        let w = word.drop_last();
        assert(!is_gap(word[word.len() - 1]));
        assert forall|i: int| 0 <= i < w.len() implies !is_gap(#[trigger] w[i]) by {
            assert(!is_gap(word[i]));
        }
        law_last_word_is_completed(front, w);
        assert(line.drop_last() =~= front + w);
        assert(line.last() == word.last());
        assert(w.push(word.last()) =~= word);
    }
}

/// A text cut to the length that ghost text may have.
pub open spec fn is_cut(shown: Seq<char>, whole: Seq<char>) -> bool {
    &&& shown.is_prefix_of(whole)
    &&& shown.len() == if whole.len() > 96 {
        96nat
    } else {
        whole.len()
    }
}

/// What suggests how a line goes on: what was run before comes first, then where
/// one was before, then the names of commands, while the first word is typed. An
/// empty line, or a user who wants none, gets no suggestion; one that was made for
/// the line stays.
pub proof fn law_suggestions_have_an_order(p: PaneState, line: Seq<char>, s: Sources)
    ensures
        ({
            let after = pane::quickly_suggested(p, line, s);
            let word = commands::is_command_word(line);
            let named = commands::hint(s.commands, line, s.ignore_case);
            &&& !s.enabled || line.len() == 0 ==> after.suggestion.len() == 0
            &&& s.enabled && line.len() > 0 && p.suggestion_key == p.cwd + "\u{0}"@ + line
                ==> after == p
            &&& s.enabled && line.len() > 0 && p.suggestion_key != p.cwd + "\u{0}"@ + line ==> {
                &&& s.history is Some ==> is_cut(after.suggestion, s.history->0)
                &&& s.history is None && s.dir_history is Some ==> is_cut(
                    after.suggestion,
                    s.dir_history->0,
                )
                &&& s.history is None && s.dir_history is None && word && named is Some ==> is_cut(
                    after.suggestion,
                    named->0,
                )
                &&& s.history is None && s.dir_history is None && !(word && named is Some)
                    ==> after.suggestion.len() == 0
            }
            &&& after.line_buf == p.line_buf
            &&& after.screen_line == p.screen_line
        }),
{
}

/// A path is looked for only where nothing else suggests anything, and a relative
/// one only where the directory is known.
pub proof fn law_paths_are_tried_last(p: PaneState, line: Seq<char>, s: Sources)
    ensures
        pane::path_token(p, line, s) matches Some(token) ==> {
            &&& s.enabled
            &&& token == pane::last_token(line)
            &&& token.len() > 0
            &&& s.history is None
            &&& s.dir_history is None
            &&& commands::is_command_word(line) ==> commands::hint(
                s.commands,
                line,
                s.ignore_case,
            ) is None
            &&& p.cwd.len() == 0 ==> token[0] == '/' || token[0] == '\\' || token[0] == '~' || (
            token.len() >= 2 && token[1] == ':')
        },
        s.enabled && p.suggestion_key != p.cwd + "\u{0}"@ + line && s.history is None
            && s.dir_history is None && !commands::is_command_word(line) && p.cwd.len() > 0
            && pane::last_token(line).len() > 0 ==> pane::path_token(p, line, s) is Some,
{
}

/// The first completed path that goes on from the word is suggested, up to its next
/// separator and with it, whatever the case of what was typed.
pub proof fn law_first_path_is_suggested(paths: Seq<Seq<char>>, word: Seq<char>)
    ensures
        match pane::remainder(paths, word) {
            Some(rest) => exists|i: int|
                0 <= i < paths.len() && extends(#[trigger] paths[i], word, true) && rest
                    == pane::one_segment(paths[i].skip(word.len() as int)) && forall|j: int|
                    0 <= j < i ==> !extends(#[trigger] paths[j], word, true),
            None => forall|j: int|
                0 <= j < paths.len() ==> !extends(#[trigger] paths[j], word, true),
        },
    decreases paths.len(),
{
    if paths.len() > 0 {
        let tail = paths.drop_first();
        if extends(paths[0], word, true) {
            assert(pane::remainder(paths, word) == Some(
                pane::one_segment(paths[0].skip(word.len() as int)),
            ));
        } else {
            law_first_path_is_suggested(tail, word);
            match pane::remainder(tail, word) {
                Some(rest) => {
                    let i = choose|i: int|
                        0 <= i < tail.len() && extends(#[trigger] tail[i], word, true) && rest
                            == pane::one_segment(tail[i].skip(word.len() as int)) && forall|j: int|
                            0 <= j < i ==> !extends(#[trigger] tail[j], word, true);
                    assert(paths[i + 1] == tail[i]);
                    assert forall|j: int| 0 <= j < i + 1 implies !extends(
                        #[trigger] paths[j],
                        word,
                        true,
                    ) by {
                        if j > 0 {
                            assert(paths[j] == tail[j - 1]);
                        }
                    }
                },
                None => {
                    assert forall|j: int| 0 <= j < paths.len() implies !extends(
                        #[trigger] paths[j],
                        word,
                        true,
                    ) by {
                        if j > 0 {
                            assert(paths[j] == tail[j - 1]);
                        }
                    }
                },
            }
        }
    }
}

/// A suggestion reaches to the next separator, and takes it in; without one it is
/// all that is missing.
pub proof fn law_suggestions_reach_to_a_separator(name: Seq<char>, sep: char, rest: Seq<char>)
    requires
        forall|i: int| 0 <= i < name.len() ==> #[trigger] name[i] != '/' && name[i] != '\\',
        sep == '/' || sep == '\\',
    ensures
        pane::one_segment(name + seq![sep] + rest) == name + seq![sep],
        pane::one_segment(name) == name,
    decreases name.len(),
{
    let s = name + seq![sep] + rest;
    if name.len() == 0 {
        assert(pane::one_segment(s) =~= name + seq![sep]);
    } else {
        assert(name[0] != '/' && name[0] != '\\');
        let n = name.drop_first();
        assert forall|i: int| 0 <= i < n.len() implies #[trigger] n[i] != '/' && n[i] != '\\' by {
            assert(name[i + 1] != '/' && name[i + 1] != '\\');
        }
        law_suggestions_reach_to_a_separator(n, sep, rest);
        assert(s.drop_first() =~= n + seq![sep] + rest);
        assert(pane::one_segment(s) =~= name + seq![sep]);
        assert(pane::one_segment(name) =~= name);
    }
}

/// Deleting a word takes off what stands behind the last white space, and leaves
/// the white space.
pub proof fn law_words_are_deleted(front: Seq<char>, word: Seq<char>)
    requires
        front.len() > 0 ==> unicode::whitespace(front.last()),
        forall|i: int| 0 <= i < word.len() ==> !unicode::whitespace(#[trigger] word[i]),
    ensures
        pane::without_word(front + word) == front,
    decreases word.len(),
{
    let s = front + word;
    if word.len() == 0 {
        assert(s =~= front);
    } else {
        let w = word.drop_last();
        assert(!unicode::whitespace(word[word.len() - 1]));
        assert forall|i: int| 0 <= i < w.len() implies !unicode::whitespace(#[trigger] w[i]) by {
            assert(!unicode::whitespace(word[i]));
        }
        law_words_are_deleted(front, w);
        assert(s.drop_last() =~= front + w);
        assert(s.last() == word.last());
    }
}

/// Enter commits what stands on the screen; what was typed counts where nothing is
/// there, and then, where the screen is always read, not for the history.
pub proof fn law_enter_commits_the_line(p: PaneState, reads_grid: bool)
    ensures
        ({
            let shown = unicode::trimmed(p.screen_line);
            let typed = unicode::trimmed(p.line_buf);
            &&& pane::committed(p, reads_grid).last_committed == if shown.len() > 0 {
                shown
            } else {
                typed
            }
            &&& pane::committed_line(p, true) == shown
            &&& pane::committed_line(p, false) == if shown.len() > 0 {
                shown
            } else {
                typed
            }
        }),
{
}

/// By extensions, a file is a command where its extension is a known one in any
/// case; the command is the name in front of it.
pub proof fn law_extensions_make_commands(
    stem: Seq<char>,
    ext: Seq<char>,
    executable: bool,
    known: Seq<Seq<char>>,
)
    requires
        stem.len() > 0,
        !ext.contains('.'),
        stem + seq!['.'] + ext != ".."@,
    ensures
        ({
            let file = Executable {
                name: stem + seq!['.'] + ext,
                is_file: true,
                executable,
            };
            commands::command_of(file, true, known) == if known.contains(
                text::ascii_lower(seq!['.'] + ext),
            ) {
                Some(stem)
            } else {
                None
            }
        }),
        !stem.contains('.') ==> commands::command_of(
            Executable { name: stem, is_file: true, executable },
            true,
            known,
        ) is None,
{
    let name = stem + seq!['.'] + ext;
    lemma_last_dot(stem, ext);
    assert(name.skip(stem.len() as int) =~= seq!['.'] + ext);
    assert(name.take(stem.len() as int) =~= stem);
    if !stem.contains('.') {
        lemma_no_dot(stem);
    }
}

proof fn lemma_last_dot(stem: Seq<char>, ext: Seq<char>)
    requires
        !ext.contains('.'),
    ensures
        commands::last_dot(stem + seq!['.'] + ext) == Some(stem.len() as int),
    decreases ext.len(),
{
    let name = stem + seq!['.'] + ext;
    if ext.len() > 0 {
        assert(ext.contains(ext[ext.len() - 1]));
        assert(name.last() == ext.last());
        assert(name.drop_last() =~= stem + seq!['.'] + ext.drop_last());
        assert forall|i: int| 0 <= i < ext.len() - 1 implies ext.drop_last()[i] != '.' by {
            assert(ext.contains(ext[i]));
        }
        lemma_last_dot(stem, ext.drop_last());
    } else {
        assert(name.last() == '.');
    }
}

proof fn lemma_no_dot(s: Seq<char>)
    requires
        !s.contains('.'),
    ensures
        commands::last_dot(s) is None,
    decreases s.len(),
{
    if s.len() > 0 {
        assert(s.contains(s[s.len() - 1]));
        assert forall|i: int| 0 <= i < s.len() - 1 implies s.drop_last()[i] != '.' by {
            assert(s.contains(s[i]));
        }
        lemma_no_dot(s.drop_last());
    }
}

/// By permissions, every file that may be executed is a command under its own name,
/// and nothing else is.
pub proof fn law_permissions_make_commands(e: Executable, known: Seq<Seq<char>>)
    ensures
        commands::command_of(e, false, known) == if e.is_file && e.executable && e.name.len() > 0 {
            Some(e.name)
        } else {
            None
        },
        !e.is_file ==> commands::command_of(e, true, known) is None,
{
}

/// Every entry that is a command is among the commands, and no other.
pub proof fn law_every_command_is_found(
    entries: Seq<Executable>,
    by_extension: bool,
    known: Seq<Seq<char>>,
    name: Seq<char>,
)
    ensures
        commands::commands_of(entries, by_extension, known).contains(name) <==> exists|i: int|
            0 <= i < entries.len() && commands::command_of(
                #[trigger] entries[i],
                by_extension,
                known,
            ) == Some(name),
    decreases entries.len(),
{
    let all = commands::commands_of(entries, by_extension, known);
    if entries.len() > 0 {
        let front = entries.drop_last();
        law_every_command_is_found(front, by_extension, known, name);
        let before = commands::commands_of(front, by_extension, known);
        let last = entries[entries.len() - 1];
        if before.contains(name) {
            let k = choose|k: int| 0 <= k < before.len() && before[k] == name;
            assert(all[k] == name);
            let i = choose|i: int|
                0 <= i < front.len() && commands::command_of(
                    #[trigger] front[i],
                    by_extension,
                    known,
                ) == Some(name);
            assert(entries[i] == front[i]);
        }
        if commands::command_of(last, by_extension, known) == Some(name) {
            assert(all[before.len() as int] == name);
        }
        if all.contains(name) {
            let k = choose|k: int| 0 <= k < all.len() && all[k] == name;
            if k < before.len() {
                assert(before[k] == name);
            }
        }
        if exists|i: int|
            0 <= i < entries.len() && commands::command_of(
                #[trigger] entries[i],
                by_extension,
                known,
            ) == Some(name) {
            let i = choose|i: int|
                0 <= i < entries.len() && commands::command_of(
                    #[trigger] entries[i],
                    by_extension,
                    known,
                ) == Some(name);
            if i < front.len() {
                assert(front[i] == entries[i]);
            }
        }
    }
}

/// The program of a command line is the name behind the last slash or backslash of
/// its first word, in lower case, without the extension of a launcher.
pub proof fn law_first_word_names_the_program(dir: Seq<char>, name: Seq<char>, rest: Seq<char>)
    requires
        dir.len() > 0 ==> dir.last() == '/' || dir.last() == '\\',
        name.len() > 0,
        forall|i: int|
            0 <= i < name.len() ==> #[trigger] name[i] != '/' && name[i] != '\\' && name[i] != '"'
                && !unicode::whitespace(name[i]),
        forall|i: int|
            0 <= i < dir.len() ==> #[trigger] dir[i] != '"' && !unicode::whitespace(dir[i]),
        rest.len() > 0 ==> unicode::whitespace(rest[0]),
    ensures
        ({
            let lower = text::ascii_lower(name);
            let launched = lower.len() >= 4 && ({
                let end = lower.skip(lower.len() - 4);
                end == ".exe"@ || end == ".cmd"@ || end == ".bat"@ || end == ".ps1"@ || end
                    == ".com"@
            });
            let plain = if launched {
                lower.take(lower.len() - 4)
            } else {
                lower
            };
            program::program_of(dir + name + rest) == if plain.len() > 0 {
                Some(plain)
            } else {
                None
            }
        }),
{
    reveal_strlit(".exe");
    reveal_strlit(".cmd");
    reveal_strlit(".bat");
    reveal_strlit(".ps1");
    reveal_strlit(".com");
    assert(".exe"@.len() == 4 && ".cmd"@.len() == 4 && ".bat"@.len() == 4 && ".ps1"@.len() == 4
        && ".com"@.len() == 4);
    let word = dir + name;
    let line = word + rest;
    assert forall|i: int| 0 <= i < word.len() implies #[trigger] word[i] != '"'
        && !unicode::whitespace(word[i]) by {
        if i < dir.len() {
            assert(word[i] == dir[i]);
        } else {
            assert(word[i] == name[i - dir.len()]);
        }
    }
    assert(line[0] == word[0]);
    assert(unicode::trim_start(line) == line);
    lemma_word_len(word, rest);
    assert(line.take(word.len() as int) =~= word);
    assert(unicode::words(line)[0] == word);
    assert(word[0] != '"');
    assert(program::unquoted_start(word) == word);
    assert(word[word.len() - 1] != '"');
    assert(program::unquoted_end(word) == word);
    lemma_base_name(dir, name);
    let lower = text::ascii_lower(name);
    if lower.len() >= 4 {
        assert(lower.subrange(lower.len() - 4, lower.len() as int) =~= lower.skip(
            lower.len() - 4,
        ));
    }
}

proof fn lemma_word_len(word: Seq<char>, rest: Seq<char>)
    requires
        forall|i: int| 0 <= i < word.len() ==> !unicode::whitespace(#[trigger] word[i]),
        rest.len() > 0 ==> unicode::whitespace(rest[0]),
    ensures
        unicode::word_len(word + rest) == word.len(),
    decreases word.len(),
{
    if word.len() == 0 {
        assert(word + rest =~= rest);
    } else {
        assert(!unicode::whitespace(word[0]));
        assert((word + rest).drop_first() =~= word.drop_first() + rest);
        assert forall|i: int| 0 <= i < word.len() - 1 implies !unicode::whitespace(
            #[trigger] word.drop_first()[i],
        ) by {
            assert(!unicode::whitespace(word[i + 1]));
        }
        lemma_word_len(word.drop_first(), rest);
    }
}

proof fn lemma_base_name(dir: Seq<char>, name: Seq<char>)
    requires
        dir.len() > 0 ==> dir.last() == '/' || dir.last() == '\\',
        forall|i: int| 0 <= i < name.len() ==> #[trigger] name[i] != '/' && name[i] != '\\',
    ensures
        program::base_name(dir + name) == name,
    decreases name.len(),
{
    let s = dir + name;
    if name.len() == 0 {
        assert(s =~= dir);
        assert(program::base_name(s) =~= name);
    } else {
        let n = name.drop_last();
        assert(name[name.len() - 1] != '/' && name[name.len() - 1] != '\\');
        assert forall|i: int| 0 <= i < n.len() implies #[trigger] n[i] != '/' && n[i] != '\\' by {
            assert(name[i] != '/' && name[i] != '\\');
        }
        lemma_base_name(dir, n);
        assert(s.drop_last() =~= dir + n);
        assert(s.last() == name.last());
        assert(n.push(name.last()) =~= name);
    }
}

/// A row of the grid reads as its characters in order; the second cell of a wide
/// character is passed over.
pub proof fn law_rows_read_as_their_characters(cells: Seq<GridCell>)
    ensures
        grid_input::cell_text(cells) == cells.filter(|c: GridCell| !c.spacer).map_values(
            |c: GridCell| c.c,
        ),
    decreases cells.len(),
{
    reveal(Seq::filter);
    let kept = cells.filter(|c: GridCell| !c.spacer).map_values(|c: GridCell| c.c);
    if cells.len() > 0 {
        law_rows_read_as_their_characters(cells.drop_last());
        assert(grid_input::cell_text(cells) =~= kept);
    } else {
        assert(grid_input::cell_text(cells) =~= kept);
    }
}

/// The input is what stands behind the last prompt arrow, without the blank behind
/// it. There is none without an arrow, nor where the line goes on behind the cursor.
pub proof fn law_input_stands_behind_the_arrow(rows: Seq<Row>, col: nat)
    requires
        rows.len() > 0,
        col <= rows.last().cells.len(),
    ensures
        ({
            let line = grid_input::line_text(rows, col);
            let tail = rows.last().cells.skip(col as int);
            let busy = exists|i: int|
                0 <= i < tail.len() && !(#[trigger] tail[i]).spacer && !unicode::whitespace(
                    tail[i].c,
                );
            &&& rows.last().wraps || busy ==> grid_input::input_on(rows, col) is None
            &&& !line.contains('\u{276F}') ==> grid_input::input_on(rows, col) is None
        }),
{
    let line = grid_input::line_text(rows, col);
    let tail = rows.last().cells.skip(col as int);
    if exists|i: int|
        0 <= i < tail.len() && !(#[trigger] tail[i]).spacer && !unicode::whitespace(tail[i].c) {
        let i = choose|i: int|
            0 <= i < tail.len() && !(#[trigger] tail[i]).spacer && !unicode::whitespace(tail[i].c);
        assert(!grid_input::is_blank(tail));
    }
    if !line.contains('\u{276F}') {
        lemma_no_arrow(line);
    }
}

proof fn lemma_no_arrow(s: Seq<char>)
    requires
        !s.contains('\u{276F}'),
    ensures
        grid_input::behind_arrow(s) is None,
    decreases s.len(),
{
    if s.len() > 0 {
        assert(s.contains(s[s.len() - 1]));
        assert forall|i: int| 0 <= i < s.len() - 1 implies s.drop_last()[i] != '\u{276F}' by {
            assert(s.contains(s[i]));
        }
        lemma_no_arrow(s.drop_last());
    }
}

/// A line that wraps is read from its first row on, row by row, up to the cursor.
pub proof fn law_wrapped_lines_are_read_whole(rows: Seq<Row>, col: nat, first: nat)
    requires
        rows.len() > 0,
        first < rows.len(),
        rows.len() - first <= 65,
        first == 0 || !rows[first - 1].wraps,
        forall|i: int| first <= i < rows.len() - 1 ==> (#[trigger] rows[i]).wraps,
        col <= rows.last().cells.len(),
    ensures
        grid_input::line_text(rows, col) == rows.subrange(
            first as int,
            rows.len() - 1,
        ).map_values(|r: Row| grid_input::cell_text(r.cells)).flatten() + grid_input::cell_text(
            rows.last().cells.take(col as int),
        ),
{
    let last = (rows.len() - 1) as nat;
    lemma_first_row(rows, last, grid_input::MAX_WRAPPED_ROWS as nat, first);
    lemma_rows_text(rows, first, last);
}

proof fn lemma_first_row(rows: Seq<Row>, i: nat, left: nat, first: nat)
    requires
        first <= i < rows.len(),
        i - first <= left,
        first == 0 || !rows[first - 1].wraps,
        forall|k: int| first <= k < i ==> (#[trigger] rows[k]).wraps,
    ensures
        grid_input::first_row(rows, i, left) == first,
    decreases left,
{
    if i > first {
        assert(rows[i - 1].wraps);
        lemma_first_row(rows, (i - 1) as nat, (left - 1) as nat, first);
    }
}

proof fn lemma_rows_text(rows: Seq<Row>, from: nat, to: nat)
    requires
        from <= to <= rows.len(),
    ensures
        grid_input::rows_text(rows, from, to) == rows.subrange(from as int, to as int).map_values(
            |r: Row| grid_input::cell_text(r.cells),
        ).flatten(),
    decreases to - from,
{
    let all = rows.subrange(from as int, to as int).map_values(
        |r: Row| grid_input::cell_text(r.cells),
    );
    if from == to {
        assert(all =~= Seq::empty());
        assert(all.flatten() =~= Seq::empty());
    } else {
        lemma_rows_text(rows, from, (to - 1) as nat);
        let front = rows.subrange(from as int, to - 1).map_values(
            |r: Row| grid_input::cell_text(r.cells),
        );
        let last = grid_input::cell_text(rows[to - 1].cells);
        assert(all =~= front.push(last));
        crate::laws::completions::lemma_flatten_push(front, last);
    }
}

/// Without a directory only paths that stand for themselves are completed: from a
/// root, from home, or on a drive.
pub proof fn law_rooted_paths_need_no_directory(p: PaneState, line: Seq<char>, s: Sources)
    requires
        s.enabled,
        p.suggestion_key != p.cwd + "\u{0}"@ + line,
        s.history is None,
        s.dir_history is None,
        !commands::is_command_word(line),
        p.cwd.len() == 0,
        pane::last_token(line).len() > 0,
    ensures
        ({
            let token = pane::last_token(line);
            pane::path_token(p, line, s) is Some <==> token[0] == '/' || token[0] == '\\'
                || token[0] == '~' || (token.len() >= 2 && (token[0] as u32) < 128 && token[1]
                == ':')
        }),
{
}

/// Paths are completed by their beginning, without regard to case, from the
/// directory of the pane where it has one; directories alone where the command takes
/// those.
pub proof fn law_paths_are_completed_by_their_beginning(
    p: PaneState,
    line: Seq<char>,
    token: Seq<char>,
    style: PathStyle,
    home: Option<Seq<char>>,
)
    ensures
        ({
            let q = pane::path_request(p, line, token, style, home);
            &&& q.options.match_algorithm is Prefix
            &&& !q.options.case_sensitive
            &&& q.partial == token
            &&& q.home == home
            &&& q.style == style
            &&& q.want_directory == commands::wants_directory(line)
            &&& p.cwd.len() > 0 ==> q.cwds == seq![p.cwd]
            &&& p.cwd.len() == 0 ==> q.cwds.len() == 0
        }),
{
}

} // verus!
