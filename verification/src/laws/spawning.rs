//! What new windows inherit, and what links launch.

use vstd::prelude::*;

use crate::event::spawn;
use crate::event::spawn::{FileOpener, HintAction, HintStep};
use crate::file_uri;
use crate::file_uri::Target;

verus! {

/// Whether an argument stands for itself in a command line.
pub open spec fn is_plain(arg: Seq<char>, takes_directory: bool) -> bool {
    &&& arg != "-e"@
    &&& arg != "--command"@
    &&& takes_directory || arg != "--working-directory"@
}

/// A new window inherits the arguments up to the command to run, with the command
/// left off.
pub proof fn law_arguments_are_inherited(
    front: Seq<Seq<char>>,
    rest: Seq<Seq<char>>,
    takes_directory: bool,
)
    requires
        forall|i: int| 0 <= i < front.len() ==> is_plain(#[trigger] front[i], takes_directory),
    ensures
        spawn::inherited(front, takes_directory) == front,
        spawn::inherited(front + seq!["-e"@] + rest, takes_directory) == front,
        spawn::inherited(front + seq!["--command"@] + rest, takes_directory) == front,
{
    lemma_inherited(front, Seq::empty(), takes_directory);
    assert(front + Seq::empty() =~= front);
    let (e, c) = (seq!["-e"@] + rest, seq!["--command"@] + rest);
    assert(e[0] == "-e"@ && c[0] == "--command"@);
    lemma_inherited(front, e, takes_directory);
    lemma_inherited(front, c, takes_directory);
    assert(front + seq!["-e"@] + rest =~= front + e);
    assert(front + seq!["--command"@] + rest =~= front + c);
}

/// A window that does not take over the directory leaves that argument off, with
/// its value, and inherits what follows.
pub proof fn law_directory_is_left_off(front: Seq<Seq<char>>, dir: Seq<char>, rest: Seq<Seq<char>>)
    requires
        forall|i: int| 0 <= i < front.len() ==> is_plain(#[trigger] front[i], false),
    ensures
        spawn::inherited(front + seq!["--working-directory"@, dir] + rest, false) == front
            + spawn::inherited(rest, false),
        spawn::inherited(front + seq!["--working-directory"@], false) == front,
{
    let both = seq!["--working-directory"@, dir] + rest;
    let one = seq!["--working-directory"@];
    reveal_strlit("--working-directory");
    reveal_strlit("-e");
    reveal_strlit("--command");
    assert("--working-directory"@.len() == 19 && "-e"@.len() == 2 && "--command"@.len() == 9);
    assert(both[0] == "--working-directory"@);
    assert(both.skip(2) =~= rest);
    lemma_inherited(front, both, false);
    lemma_inherited(front, one, false);
    assert(front + seq!["--working-directory"@, dir] + rest =~= front + both);
    assert(spawn::inherited(one, false) =~= Seq::empty());
}

proof fn lemma_inherited(front: Seq<Seq<char>>, rest: Seq<Seq<char>>, takes_directory: bool)
    requires
        forall|i: int| 0 <= i < front.len() ==> is_plain(#[trigger] front[i], takes_directory),
    ensures
        spawn::inherited(front + rest, takes_directory) == front + spawn::inherited(
            rest,
            takes_directory,
        ),
    decreases front.len(),
{
    let all = front + rest;
    if front.len() == 0 {
        assert(all =~= rest);
        assert(front + spawn::inherited(rest, takes_directory) =~= spawn::inherited(
            rest,
            takes_directory,
        ));
    } else {
        let f = front.skip(1);
        assert(is_plain(front[0], takes_directory));
        assert forall|i: int| 0 <= i < f.len() implies is_plain(
            #[trigger] f[i],
            takes_directory,
        ) by {
            assert(is_plain(front[i + 1], takes_directory));
        }
        lemma_inherited(f, rest, takes_directory);
        assert(all.skip(1) =~= f + rest);
        assert(seq![front[0]] + (f + spawn::inherited(rest, takes_directory)) =~= front
            + spawn::inherited(rest, takes_directory));
    }
}

/// The explorer opens what a text names on this machine, and of what it names on a
/// drive only what is on one of the drives that there are.
pub proof fn law_local_targets_are_opened(o: FileOpener, text: Seq<char>)
    ensures
        !o.explorer ==> spawn::local_path(o, text) is None,
        o.explorer ==> match file_uri::target(text, file_uri::optional_text(o.computer_name)) {
            Target::Nothing => spawn::local_path(o, text) is None,
            Target::Path(p) => spawn::local_path(o, text) == Some(p),
            Target::OnDrive(d, p) => (exists|i: int|
                0 <= i < o.drives@.len() && #[trigger] o.drives@[i] == d) <==> spawn::local_path(
                o,
                text,
            ) == Some(p),
        },
{
}

/// A hint that launches a program hands it the text behind the arguments that are
/// set; what the explorer can open, the explorer opens. Other hints copy, paste,
/// select or move, and do nothing else.
pub proof fn law_hints_do_what_they_are_for(
    r: HintStep,
    action: HintAction,
    text: Seq<char>,
    o: FileOpener,
)
    requires
        spawn::is_triggered(r, action, text, o),
    ensures
        match action {
            HintAction::Command { program, args } => r matches HintStep::Launch {
                program: p,
                args: a,
            } && match spawn::local_path(o, text) {
                Some(path) => p@ == "explorer.exe"@ && a@.len() == 1 && a@[0]@ == path,
                None => p@ == program@ && a@.len() == args@.len() + 1 && a@[args@.len() as int]@
                    == text && forall|i: int|
                    0 <= i < args@.len() ==> (#[trigger] a@[i])@ == args@[i]@,
            },
            HintAction::Copy => r matches HintStep::Copy(t) && t@ == text,
            HintAction::Paste => r matches HintStep::Paste(t) && t@ == text,
            HintAction::Select => r is Select,
            HintAction::MoveViModeCursor => r is MoveViModeCursor,
        },
{
    if let HintAction::Command { program, args } = action {
        if let HintStep::Launch { program: p, args: a } = r {
            let all = spawn::texts(a@);
            assert(all.len() == a@.len());
            match spawn::local_path(o, text) {
                Some(path) => {
                    assert(all[0] == path);
                },
                None => {
                    let set = spawn::texts(args@);
                    assert(all == set.push(text));
                    assert(all[args@.len() as int] == text);
                    assert forall|i: int| 0 <= i < args@.len() implies (#[trigger] a@[i])@
                        == args@[i]@ by {
                        assert(all[i] == set[i]);
                    }
                },
            }
        }
    }
}

} // verus!
