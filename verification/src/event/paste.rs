//! Pasting: what a pasted text becomes on its way to the shell, and which part of
//! the window takes it.

use crate::display::confirm::NebulaConfirm;
use crate::display::pane;
use crate::display::pane::NebulaPaneState;
use crate::text;
use vstd::prelude::*;

verus! {

broadcast use vstd::string::group_string_axioms;

/// Where input goes that is no key binding.
#[derive(Debug, Clone, Copy, PartialEq, Eq, Structural)]
pub struct InputFocus {
    /// Whether the search bar is open.
    pub search_active: bool,
    /// Whether an inline search waits for its character.
    pub char_pending: bool,
    /// Whether a confirmation is shown already.
    pub confirming: bool,
}

/// Whether a character is one that a text in brackets must not hold.
pub open spec fn is_breaking(c: char) -> bool {
    c == '\x1b' || c == '\x03'
}

/// A text without the characters that would end the brackets.
pub open spec fn unbreaking(s: Seq<char>) -> Seq<char>
    decreases s.len(),
{
    if s.len() == 0 {
        s
    } else {
        let before = unbreaking(s.drop_last());
        if is_breaking(s.last()) {
            before
        } else {
            before.push(s.last())
        }
    }
}

/// A text with each line break, of one character or two, as a carriage return.
pub open spec fn keyed(s: Seq<char>) -> Seq<char>
    decreases s.len(),
{
    if s.len() == 0 {
        s
    } else if s[0] == '\r' && s.len() > 1 && s[1] == '\n' {
        seq!['\r'] + keyed(s.skip(2))
    } else if s[0] == '\n' {
        seq!['\r'] + keyed(s.skip(1))
    } else {
        seq![s[0]] + keyed(s.skip(1))
    }
}

/// What the pasted text becomes for the shell's line editor.
pub open spec fn inserted(s: Seq<char>, bracketed: bool, bracketed_mode: bool) -> Seq<char> {
    if bracketed && bracketed_mode {
        unbreaking(s)
    } else if bracketed {
        keyed(s)
    } else {
        s
    }
}

/// What is written to the shell.
pub open spec fn payload(s: Seq<char>, bracketed: bool, bracketed_mode: bool) -> Seq<char> {
    if bracketed && bracketed_mode {
        "\x1b[200~"@ + unbreaking(s) + "\x1b[201~"@
    } else {
        inserted(s, bracketed, bracketed_mode)
    }
}

/// A text that is pasted, for the part of the window that takes it.
#[derive(Debug)]
pub enum Paste {
    /// Ask first: each line would be executed when it lands.
    Confirm(NebulaConfirm),
    /// Type the text into the search bar.
    Search,
    /// Hand the text to the inline search.
    InlineSearch,
    /// Write the text to the shell.
    Write(String),
}

/// Whether a text has to be confirmed.
pub open spec fn needs_confirmation(focus: InputFocus, s: Seq<char>) -> bool {
    &&& !focus.search_active
    &&& !focus.char_pending
    &&& !focus.confirming
    &&& s.contains('\n') || s.contains('\r')
}

/// How many lines the confirmation names, at least two.
pub open spec fn named_lines(s: Seq<char>) -> int {
    if text::lines(s).len() < 2 {
        2
    } else {
        text::lines(s).len() as int
    }
}

/// Whether a text was kept to be confirmed.
pub open spec fn asks(r: Paste, s: Seq<char>, bracketed: bool) -> bool {
    r matches Paste::Confirm(NebulaConfirm::Paste { text: t, bracketed: b, lines }) && t@ == s && b
        == bracketed && lines == named_lines(s)
}

/// Whether the text was handed on as it has to be, and the prompt line follows
/// what the shell's editor gets.
pub open spec fn is_pasted(
    r: Paste,
    focus: InputFocus,
    s: Seq<char>,
    bracketed: bool,
    bracketed_mode: bool,
    before: pane::PaneState,
    after: pane::PaneState,
) -> bool {
    if focus.search_active {
        r is Search && after == before
    } else if focus.char_pending {
        r is InlineSearch && after == before
    } else {
        &&& r matches Paste::Write(w) && w@ == payload(s, bracketed, bracketed_mode)
        &&& after == (if !bracketed {
            before
        } else {
            let line = inserted(s, bracketed, bracketed_mode);
            if pane::is_plain_paste(line) {
                pane::edited(before, before.line_buf + line)
            } else {
                pane::cleared(before)
            }
        })
    }
}

/// Removes the characters that would end the brackets.
fn unbreak(s: &str) -> (r: String)
    ensures
        r@ == unbreaking(s@),
{
    let v = text::chars_of(s);
    let mut r = String::new();
    let mut i: usize = 0;
    assert(v@.take(0) =~= Seq::empty());
    while i < v.len()
        invariant
            i <= v@.len(),
            r@ == unbreaking(v@.take(i as int)),
        decreases v@.len() - i,
    {
        assert(v@.take(i + 1).drop_last() =~= v@.take(i as int));
        assert(v@.take(i + 1).last() == v@[i as int]);
        if v[i] != '\x1b' && v[i] != '\x03' {
            r.push(v[i]);
        }
        i += 1;
    }
    assert(v@.take(i as int) =~= v@);
    r
}

/// Makes each line break a carriage return.
fn to_keys(s: &str) -> (r: String)
    ensures
        r@ == keyed(s@),
{
    let v = text::chars_of(s);
    let len: usize = v.len();
    let mut r = String::new();
    let mut i: usize = 0;
    assert(v@.skip(0) =~= v@);
    while i < len
        invariant
            i <= len,
            len == v@.len(),
            keyed(v@) == r@ + keyed(v@.skip(i as int)),
        decreases len - i,
    {
        let ghost rest = v@.skip(i as int);
        let ghost before = r@;
        if v[i] == '\r' && i < len - 1 && v[i + 1] == '\n' {
            r.push('\r');
            assert(rest.skip(2) =~= v@.skip(i + 2));
            assert(before + (seq!['\r'] + keyed(rest.skip(2))) =~= before.push('\r') + keyed(
                rest.skip(2),
            ));
            i += 2;
        } else {
            let c = if v[i] == '\n' {
                '\r'
            } else {
                v[i]
            };
            r.push(c);
            assert(rest.skip(1) =~= v@.skip(i + 1));
            assert(before + (seq![c] + keyed(rest.skip(1))) =~= before.push(c) + keyed(
                rest.skip(1),
            ));
            i += 1;
        }
    }
    assert(v@.skip(i as int) =~= Seq::empty());
    assert(r@ + Seq::<char>::empty() =~= r@);
    r
}

impl NebulaPaneState {
    /// Hands a text on without asking. In brackets the shell can tell it from
    /// keystrokes; without them, line breaks become what Enter sends.
    pub fn paste_now(
        &mut self,
        text: &str,
        bracketed: bool,
        bracketed_mode: bool,
        focus: InputFocus,
    ) -> (r: Paste)
        ensures
            is_pasted(
                r,
                focus,
                text@,
                bracketed,
                bracketed_mode,
                old(self).value(),
                final(self).value(),
            ),
    {
        if focus.search_active {
            return Paste::Search;
        }
        if focus.char_pending {
            return Paste::InlineSearch;
        }
        if bracketed && bracketed_mode {
            let filtered = unbreak(text);
            self.nebula_input_text(filtered.as_str());
            let mut out = "\x1b[200~".to_owned();
            out.append(filtered.as_str());
            out.append("\x1b[201~");
            return Paste::Write(out);
        }
        if bracketed {
            let line = to_keys(text);
            self.nebula_input_text(line.as_str());
            return Paste::Write(line);
        }
        Paste::Write(text.to_owned())
    }

    /// Pastes a text. One with a line break for the shell has to be confirmed.
    pub fn paste(
        &mut self,
        text: &str,
        bracketed: bool,
        bracketed_mode: bool,
        focus: InputFocus,
    ) -> (r: Paste)
        ensures
            if needs_confirmation(focus, text@) {
                &&& final(self).value() == old(self).value()
                &&& asks(r, text@, bracketed)
            } else {
                is_pasted(
                    r,
                    focus,
                    text@,
                    bracketed,
                    bracketed_mode,
                    old(self).value(),
                    final(self).value(),
                )
            },
    {
        if !focus.search_active && !focus.char_pending && !focus.confirming && (
        text::contains_char(text, '\n') || text::contains_char(text, '\r')) {
            let v = text::chars_of(text);
            let count: usize = text::split_lines(v.as_slice()).len();
            let lines: usize = if count < 2 {
                2
            } else {
                count
            };
            return Paste::Confirm(
                NebulaConfirm::Paste { text: text.to_owned(), bracketed, lines },
            );
        }
        self.paste_now(text, bracketed, bracketed_mode, focus)
    }
}

/// Part of the window that takes a committed text.
#[derive(Debug, Clone, Copy, PartialEq, Eq, Structural)]
pub enum TextTarget {
    /// The box in which a tab is renamed.
    TabRename,
    /// The filter box of the side panel.
    PanelSearch,
    /// The box for the commit message.
    CommitMessage,
    /// The shell, as a paste.
    Shell { bracketed: bool },
}

/// What takes a text that an input method committed. A text of one character
/// goes to the shell without brackets.
pub fn ime_target(renaming: bool, panel_search: bool, panel_commit: bool, text: &str) -> (r:
    TextTarget)
    ensures
        r == (if renaming {
            TextTarget::TabRename
        } else if panel_search {
            TextTarget::PanelSearch
        } else if panel_commit {
            TextTarget::CommitMessage
        } else {
            TextTarget::Shell { bracketed: text@.len() > 1 }
        }),
{
    if renaming {
        TextTarget::TabRename
    } else if panel_search {
        TextTarget::PanelSearch
    } else if panel_commit {
        TextTarget::CommitMessage
    } else {
        let v = text::chars_of(text);
        TextTarget::Shell { bracketed: v.len() > 1 }
    }
}

/// The text that a dropped file pastes.
pub fn dropped_text(path: &str) -> (r: String)
    ensures
        r@ == path@ + " "@,
{
    let mut r = path.to_owned();
    r.append(" ");
    r
}

/// A text in brackets cannot end them: it holds no escape character.
pub proof fn law_brackets_cannot_be_broken(s: Seq<char>)
    ensures
        forall|i: int| 0 <= i < unbreaking(s).len() ==> !is_breaking(#[trigger] unbreaking(s)[i]),
    decreases s.len(),
{
    if s.len() > 0 {
        law_brackets_cannot_be_broken(s.drop_last());
        let before = unbreaking(s.drop_last());
        let out = unbreaking(s);
        assert forall|i: int| 0 <= i < out.len() implies !is_breaking(#[trigger] out[i]) by {
            if i < before.len() {
                assert(out[i] == before[i]);
            }
        }
    }
}

/// Text without such characters is pasted in brackets as it is.
pub proof fn law_plain_text_is_kept(s: Seq<char>)
    requires
        forall|i: int| 0 <= i < s.len() ==> !is_breaking(#[trigger] s[i]),
    ensures
        unbreaking(s) == s,
    decreases s.len(),
{
    if s.len() > 0 {
        let front = s.drop_last();
        assert forall|i: int| 0 <= i < front.len() implies !is_breaking(#[trigger] front[i]) by {
            assert(front[i] == s[i]);
        }
        law_plain_text_is_kept(front);
        assert(front.push(s.last()) =~= s);
    }
}

/// No line feed is left in a text that is pasted as keystrokes.
pub proof fn law_line_feeds_become_returns(s: Seq<char>)
    ensures
        !keyed(s).contains('\n'),
        keyed(s).len() <= s.len(),
    decreases s.len(),
{
    if s.len() > 0 {
        if s[0] == '\r' && s.len() > 1 && s[1] == '\n' {
            law_line_feeds_become_returns(s.skip(2));
        } else {
            law_line_feeds_become_returns(s.skip(1));
        }
        let rest = if s[0] == '\r' && s.len() > 1 && s[1] == '\n' {
            keyed(s.skip(2))
        } else {
            keyed(s.skip(1))
        };
        assert forall|i: int| 0 <= i < keyed(s).len() implies keyed(s)[i] != '\n' by {
            if i > 0 {
                assert(keyed(s)[i] == rest[i - 1]);
            }
        }
    }
}

/// Nothing with a line break reaches the shell unconfirmed, while the search does
/// not take it and no confirmation is shown.
pub proof fn law_line_breaks_are_confirmed(focus: InputFocus, s: Seq<char>, i: int)
    requires
        0 <= i < s.len(),
        s[i] == '\n' || s[i] == '\r',
        !focus.search_active,
        !focus.char_pending,
        !focus.confirming,
    ensures
        needs_confirmation(focus, s),
{
    assert(s.contains(s[i]));
}

} // verus!
