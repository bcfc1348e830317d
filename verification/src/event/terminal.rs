//! What a terminal reports to its pane: titles and directories, commands that
//! start and end, bells and images.

use crate::display::color::Rgb;
use crate::display::pane;
use crate::display::pane::{NebulaInlineImage, NebulaPaneState, PaneState};
use crate::display::program;
use crate::text;
use vstd::prelude::*;

verus! {

broadcast use vstd::string::group_string_axioms;

/// How many inline images a pane keeps.
pub const MAX_INLINE_IMAGES: usize = 16;

/// Cooldown between invocations of the bell command, in milliseconds.
pub const BELL_CMD_COOLDOWN: u64 = 100;

/// A notification for the user.
#[derive(Debug)]
pub enum Notification {
    /// A command ended after a number of milliseconds.
    CommandDone { duration: u64, program: Option<String> },
    /// A text that a program sent.
    Text { body: String, program: Option<String> },
    Bell { program: Option<String> },
}

/// A notification as a value.
#[verifier::ext_equal]
pub enum Notice {
    CommandDone { duration: u64, program: Option<Seq<char>> },
    Text { body: Seq<char>, program: Option<Seq<char>> },
    Bell { program: Option<Seq<char>> },
}

impl Notification {
    pub open spec fn value(self) -> Notice {
        match self {
            Notification::CommandDone { duration, program } => Notice::CommandDone {
                duration,
                program: pane::optional_text(program),
            },
            Notification::Text { body, program } => Notice::Text {
                body: body@,
                program: pane::optional_text(program),
            },
            Notification::Bell { program } => Notice::Bell {
                program: pane::optional_text(program),
            },
        }
    }
}

pub open spec fn optional_notice(n: Option<Notification>) -> Option<Notice> {
    match n {
        Some(n) => Some(n.value()),
        None => None,
    }
}

/// What a prompt reports in a title of the form `NEBULA|cwd|branch|program`; the
/// fields behind the first may be missing.
#[verifier::ext_equal]
pub struct Report {
    pub cwd: Seq<char>,
    pub branch: Seq<char>,
    /// The program, where the title names one. The last field is all that is
    /// left.
    pub program: Option<Seq<char>>,
}

pub open spec fn report_of(rest: Seq<char>) -> Report {
    let p = text::position(rest, '|');
    if p >= rest.len() {
        Report { cwd: rest, branch: Seq::empty(), program: None }
    } else {
        let after = rest.skip(p as int + 1);
        let q = text::position(after, '|');
        if q >= after.len() {
            Report { cwd: rest.take(p as int), branch: after, program: None }
        } else {
            Report {
                cwd: rest.take(p as int),
                branch: after.take(q as int),
                program: Some(after.skip(q as int + 1)),
            }
        }
    }
}

/// Whether a title is a report of the prompt.
pub open spec fn is_report(title: Seq<char>) -> bool {
    text::starts_with(title, "NEBULA|"@)
}

/// The pane after a prompt's report. An empty program field says that none runs;
/// a missing one leaves the program to what the pane knows itself.
pub open spec fn reported(p: PaneState, r: Report) -> PaneState {
    PaneState {
        cwd: r.cwd,
        branch: r.branch,
        running_program: match r.program {
            Some(name) => if name.len() == 0 {
                None
            } else {
                Some(name)
            },
            None => p.running_program,
        },
        ..p
    }
}

/// What a title asks for.
#[derive(Debug, Clone, Copy, PartialEq, Eq, Structural)]
pub enum TitleStep {
    /// The pane changed and has to be drawn.
    Redraw,
    /// The window takes the title.
    SetTitle,
    /// Nothing.
    Rest,
}

/// The images with one more, where the oldest makes way.
pub open spec fn with_image(images: Seq<NebulaInlineImage>, image: NebulaInlineImage) -> Seq<
    NebulaInlineImage,
> {
    let longer = images.push(image);
    if longer.len() > MAX_INLINE_IMAGES {
        longer.remove(0)
    } else {
        longer
    }
}

/// Whether a command ran long enough to be worth a notice.
pub open spec fn ran_long(started: Option<u64>, now: u64, least: u64) -> bool {
    started matches Some(at) && since(at, now) >= least
}

/// How much time has passed.
pub open spec fn since(at: u64, now: u64) -> u64 {
    if now < at {
        0
    } else {
        (now - at) as u64
    }
}

fn elapsed(at: u64, now: u64) -> (r: u64)
    ensures
        r == since(at, now),
{
    if now < at {
        0
    } else {
        now - at
    }
}

fn copy_of(s: &Option<String>) -> (r: Option<String>)
    ensures
        pane::optional_text(r) == pane::optional_text(*s),
{
    match s {
        Some(s) => Some(s.clone()),
        None => None,
    }
}

/// What a bell asks for besides the visual bell.
#[derive(Debug)]
pub struct BellStep {
    pub notification: Option<Notification>,
    /// Whether the bell command has to be run.
    pub command: bool,
}

impl NebulaPaneState {
    /// Takes a title: a prompt's report changes the pane, any other title is the
    /// window's, unless the window keeps its own.
    pub fn title(&mut self, title: &str, preserve: bool, dynamic: bool) -> (r: TitleStep)
        ensures
            if is_report(title@) {
                &&& r == TitleStep::Redraw
                &&& final(self).value() == reported(old(self).value(), report_of(title@.skip(7)))
            } else {
                &&& r == (if !preserve && dynamic {
                    TitleStep::SetTitle
                } else {
                    TitleStep::Rest
                })
                &&& final(self).value() == old(self).value()
            },
    {
        let v = text::chars_of(title);
        let mark = text::chars_of("NEBULA|");
        proof {
            reveal_strlit("NEBULA|");
        }
        if !text::has_prefix(v.as_slice(), mark.as_slice()) {
            return if !preserve && dynamic {
                TitleStep::SetTitle
            } else {
                TitleStep::Rest
            };
        }
        let ghost rest = v@.skip(7);
        let ghost before = self.value();
        let len: usize = v.len();
        proof {
            text::lemma_position(rest, '|');
        }
        let p: usize = text::position_from(v.as_slice(), 7, '|');
        self.cwd = text::string_of_range(v.as_slice(), 7, p);
        assert(self.cwd@ =~= rest.take(p - 7));
        if p >= len {
            self.branch = String::new();
            assert(rest.take(p - 7) =~= rest);
            assert(self.value() =~= reported(before, report_of(rest)));
            return TitleStep::Redraw;
        }
        let ghost after = rest.skip(p - 7 + 1);
        assert(v@.skip(p + 1) =~= after);
        proof {
            text::lemma_position(after, '|');
        }
        let q: usize = text::position_from(v.as_slice(), p + 1, '|');
        self.branch = text::string_of_range(v.as_slice(), p + 1, q);
        assert(self.branch@ =~= after.take(q - (p + 1)));
        if q < len {
            let name = text::string_of_range(v.as_slice(), q + 1, len);
            assert(name@ =~= after.skip(q - (p + 1) + 1));
            self.running_program = if name.as_str().is_empty() {
                None
            } else {
                Some(name)
            };
        } else {
            assert(after.take(q - (p + 1)) =~= after);
        }
        assert(self.value() =~= reported(before, report_of(rest)));
        TitleStep::Redraw
    }

    /// Takes a directory report. The branch, which comes by another way, stays.
    /// Returns whether something changed.
    pub fn cwd_report(&mut self, cwd: String) -> (r: bool)
        ensures
            r == (cwd@ != old(self).cwd@),
            final(self).value() == (PaneState { cwd: cwd@, ..old(self).value() }),
    {
        if text::str_eq(self.cwd.as_str(), cwd.as_str()) {
            return false;
        }
        self.cwd = cwd;
        true
    }

    /// Takes an image, and drops the oldest where there are too many.
    pub fn inline_image(&mut self, image: NebulaInlineImage)
        ensures
            final(self).value() == (PaneState {
                inline_images: with_image(old(self).inline_images@, image),
                ..old(self).value()
            }),
    {
        self.inline_images.push(image);
        if self.inline_images.len() > MAX_INLINE_IMAGES {
            let _ = self.inline_images.remove(0);
        }
    }

    /// A command starts: its program is that of the line that was committed.
    pub fn command_start(&mut self, now: u64)
        ensures
            final(self).value() == (PaneState {
                command_started: Some(now),
                running_program: program::program_of(old(self).last_committed@),
                awaiting_input: false,
                ..old(self).value()
            }),
    {
        self.command_started = Some(now);
        self.running_program = program::extract_program(self.last_committed.as_str());
        self.awaiting_input = false;
    }

    /// A command ended. One that ran for at least `least` milliseconds marks its
    /// tab, and is notified of where the window is in the background.
    pub fn command_done(&mut self, now: u64, least: u64, focused: bool) -> (r: Option<Notification>)
        ensures
            final(self).value() == (PaneState {
                running_program: None,
                awaiting_input: false,
                command_started: None,
                finished_unseen: old(self).finished_unseen || ran_long(
                    old(self).command_started,
                    now,
                    least,
                ),
                ..old(self).value()
            }),
            optional_notice(r) == (if ran_long(old(self).command_started, now, least) && !focused {
                Some(
                    Notice::CommandDone {
                        duration: since(old(self).command_started->0, now),
                        program: old(self).value().running_program,
                    },
                )
            } else {
                None
            }),
    {
        let program = copy_of(&self.running_program);
        let started: Option<u64> = self.command_started;
        self.running_program = None;
        self.awaiting_input = false;
        self.command_started = None;
        if let Some(at) = started {
            let duration: u64 = elapsed(at, now);
            if duration >= least {
                self.finished_unseen = true;
                if !focused {
                    return Some(Notification::CommandDone { duration, program });
                }
            }
        }
        None
    }

    /// A program sent a text. It matters only where the user does not look.
    pub fn notify(&self, body: String, focused: bool) -> (r: Option<Notification>)
        ensures
            optional_notice(r) == (if focused {
                None
            } else {
                Some(Notice::Text { body: body@, program: self.value().running_program })
            }),
    {
        if focused {
            return None;
        }
        Some(Notification::Text { body, program: copy_of(&self.running_program) })
    }

    /// The bell rang. A program that rings waits for input from then on. The bell
    /// command runs at most once per cooldown; `last` is when it ran last.
    pub fn bell(&mut self, focused: bool, has_command: bool, last: Option<u64>, now: u64) -> (r:
        BellStep)
        ensures
            final(self).value() == (PaneState {
                awaiting_input: old(self).awaiting_input || old(self).running_program is Some,
                ..old(self).value()
            }),
            optional_notice(r.notification) == (if focused {
                None
            } else {
                Some(Notice::Bell { program: old(self).value().running_program })
            }),
            r.command == (has_command && match last {
                Some(at) => since(at, now) >= BELL_CMD_COOLDOWN,
                None => true,
            }),
    {
        let notification = if focused {
            None
        } else {
            Some(Notification::Bell { program: copy_of(&self.running_program) })
        };
        if self.running_program.is_some() {
            self.awaiting_input = true;
        }
        let cooled: bool = match last {
            Some(at) => elapsed(at, now) >= BELL_CMD_COOLDOWN,
            None => true,
        };
        BellStep { notification, command: has_command && cooled }
    }
}

/// The color that answers a request: one that was changed, or else the default,
/// but that of the cursor is told only where it was changed.
pub fn requested_color(index: usize, cursor: usize, changed: Option<Rgb>, default_color: Rgb) -> (r:
    Option<Rgb>)
    ensures
        r == (match changed {
            Some(color) => Some(color),
            None => if index == cursor {
                None
            } else {
                Some(default_color)
            },
        }),
{
    match changed {
        Some(color) => Some(color),
        None => if index == cursor {
            None
        } else {
            Some(default_color)
        },
    }
}

/// A report gives back what the prompt put into it.
pub proof fn law_reports_read_back(cwd: Seq<char>, branch: Seq<char>, program: Seq<char>)
    requires
        !cwd.contains('|'),
        !branch.contains('|'),
    ensures
        report_of(cwd + seq!['|'] + branch) == (Report { cwd, branch, program: None }),
        report_of(cwd + seq!['|'] + branch + seq!['|'] + program) == (Report {
            cwd,
            branch,
            program: Some(program),
        }),
{
    let short = cwd + seq!['|'] + branch;
    let long = cwd + seq!['|'] + branch + seq!['|'] + program;
    lemma_field(cwd, branch);
    lemma_field(cwd, branch + seq!['|'] + program);
    assert(long =~= cwd + seq!['|'] + (branch + seq!['|'] + program));
    assert(short.skip(cwd.len() as int + 1) =~= branch);
    assert(short.take(cwd.len() as int) =~= cwd);
    lemma_no_field(branch);
    lemma_field(branch, program);
    let after = branch + seq!['|'] + program;
    assert(long.skip(cwd.len() as int + 1) =~= after);
    assert(long.take(cwd.len() as int) =~= cwd);
    assert(after.take(branch.len() as int) =~= branch);
    assert(after.skip(branch.len() as int + 1) =~= program);
}

proof fn lemma_field(a: Seq<char>, b: Seq<char>)
    requires
        !a.contains('|'),
    ensures
        text::position(a + seq!['|'] + b, '|') == a.len(),
{
    let s = a + seq!['|'] + b;
    text::lemma_position(s, '|');
    let p = text::position(s, '|');
    if p < a.len() {
        assert(s[p as int] == a[p as int]);
        assert(a.contains('|'));
    } else if p > a.len() {
        assert(s[a.len() as int] == '|');
    }
}

proof fn lemma_no_field(a: Seq<char>)
    requires
        !a.contains('|'),
    ensures
        text::position(a, '|') == a.len(),
{
    text::lemma_position(a, '|');
    let p = text::position(a, '|');
    if p < a.len() {
        assert(a.contains(a[p as int]));
    }
}

/// A pane never keeps more images than fit, and the newest is always among them.
pub proof fn law_newest_image_is_kept(images: Seq<NebulaInlineImage>, image: NebulaInlineImage)
    requires
        images.len() <= MAX_INLINE_IMAGES,
    ensures
        with_image(images, image).len() <= MAX_INLINE_IMAGES,
        with_image(images, image).last() == image,
{
}

/// Quick commands end in silence: no mark and no notice.
pub proof fn law_quick_commands_are_silent(started: u64, now: u64, least: u64)
    requires
        started <= now,
        now - started < least,
    ensures
        !ran_long(Some(started), now, least),
{
}

} // verus!
