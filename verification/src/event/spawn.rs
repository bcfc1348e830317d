//! Programs that are started: another instance, and what a hint launches.

use crate::file_uri;
use crate::text;
use vstd::prelude::*;

verus! {

broadcast use vstd::string::group_string_axioms;

pub open spec fn texts(v: Seq<String>) -> Seq<Seq<char>> {
    v.map_values(|s: String| s@)
}

/// Whether an argument starts the command, which another instance does not
/// inherit.
pub open spec fn starts_command(arg: Seq<char>) -> bool {
    arg == "-e"@ || arg == "--command"@
}

/// The arguments that another instance inherits: those before the command, and,
/// where its directory is taken from the shell, without the directory.
pub open spec fn inherited(args: Seq<Seq<char>>, takes_directory: bool) -> Seq<Seq<char>>
    decreases args.len(),
{
    if args.len() == 0 || starts_command(args[0]) {
        Seq::empty()
    } else if !takes_directory && args[0] == "--working-directory"@ {
        if args.len() < 2 {
            Seq::empty()
        } else {
            inherited(args.skip(2), takes_directory)
        }
    } else {
        seq![args[0]] + inherited(args.skip(1), takes_directory)
    }
}

/// The arguments that another instance inherits. `takes_directory` tells whether
/// the directory is among them: it is not where the directory of the foreground
/// shell is used.
pub fn inherited_args(args: &Vec<String>, takes_directory: bool) -> (r: Vec<String>)
    ensures
        texts(r@) == inherited(texts(args@), takes_directory),
{
    let ghost all = texts(args@);
    let len: usize = args.len();
    let mut r: Vec<String> = Vec::new();
    let mut i: usize = 0;
    assert(all.skip(0) =~= all);
    assert(texts(r@) + inherited(all, takes_directory) =~= inherited(all, takes_directory));
    while i < len
        invariant
            i <= len,
            len == args@.len(),
            all == texts(args@),
            inherited(all, takes_directory) == texts(r@) + inherited(
                all.skip(i as int),
                takes_directory,
            ),
        decreases len - i,
    {
        let ghost rest = all.skip(i as int);
        let arg = args[i].as_str();
        assert(rest[0] == arg@);
        if text::str_eq(arg, "-e") || text::str_eq(arg, "--command") {
            assert(texts(r@) + Seq::<Seq<char>>::empty() =~= texts(r@));
            return r;
        }
        if !takes_directory && text::str_eq(arg, "--working-directory") {
            if len - i < 2 {
                assert(texts(r@) + Seq::<Seq<char>>::empty() =~= texts(r@));
                return r;
            }
            assert(rest.skip(2) =~= all.skip(i + 2));
            i += 2;
        } else {
            let ghost before = texts(r@);
            r.push(arg.to_owned());
            assert(texts(r@) =~= before.push(arg@));
            assert(rest.skip(1) =~= all.skip(i + 1));
            assert(before + (seq![arg@] + inherited(rest.skip(1), takes_directory))
                =~= before.push(arg@) + inherited(rest.skip(1), takes_directory));
            i += 1;
        }
    }
    assert(all.skip(i as int) =~= Seq::empty());
    assert(texts(r@) + Seq::<Seq<char>>::empty() =~= texts(r@));
    r
}

/// What a hint does.
#[derive(Debug)]
pub enum HintAction {
    /// Launch a program, with the hint's text as the last argument.
    Command { program: String, args: Vec<String> },
    Copy,
    Paste,
    Select,
    MoveViModeCursor,
}

/// What triggering a hint asks for.
#[derive(Debug)]
pub enum HintStep {
    Rest,
    Launch { program: String, args: Vec<String> },
    Copy(String),
    Paste(String),
    Select,
    /// Move the cursor of vi mode to the hint, in that mode.
    MoveViModeCursor,
}

/// Whether a program is launched with arguments.
pub open spec fn launches(r: HintStep, program: Seq<char>, args: Seq<Seq<char>>) -> bool {
    r matches HintStep::Launch { program: p, args: a } && p@ == program && texts(a@) == args
}

/// Where links to files are opened.
pub struct FileOpener<'a> {
    /// Whether the file explorer opens them.
    pub explorer: bool,
    pub computer_name: Option<&'a str>,
    pub drives: &'a [char],
}

/// The path that the explorer opens for a text, if it is a link to a local file.
pub open spec fn local_path(o: FileOpener, text: Seq<char>) -> Option<Seq<char>> {
    if !o.explorer {
        None
    } else {
        match file_uri::target(text, file_uri::optional_text(o.computer_name)) {
            file_uri::Target::Nothing => None,
            file_uri::Target::Path(p) => Some(p),
            file_uri::Target::OnDrive(d, p) => if o.drives@.contains(d) {
                Some(p)
            } else {
                None
            },
        }
    }
}

/// What a hint that is not blocked asks for.
pub open spec fn is_triggered(r: HintStep, action: HintAction, text: Seq<char>, o: FileOpener) ->
    bool {
    match action {
        HintAction::Command { program, args } => match local_path(o, text) {
            Some(path) => launches(r, "explorer.exe"@, seq![path]),
            None => launches(r, program@, texts(args@).push(text)),
        },
        HintAction::Copy => r matches HintStep::Copy(t) && t@ == text,
        HintAction::Paste => r matches HintStep::Paste(t) && t@ == text,
        HintAction::Select => r is Select,
        HintAction::MoveViModeCursor => r is MoveViModeCursor,
    }
}

/// Triggers a hint, unless that is blocked, or it has no text.
pub fn trigger_hint(action: &HintAction, text: Option<&str>, blocked: bool, opener: &FileOpener) ->
    (r: HintStep)
    ensures
        match text {
            Some(t) if !blocked => is_triggered(r, *action, t@, *opener),
            _ => r is Rest,
        },
{
    if blocked {
        return HintStep::Rest;
    }
    let t = match text {
        Some(t) => t,
        None => return HintStep::Rest,
    };
    match action {
        HintAction::Command { program, args } => {
            if opener.explorer {
                if let Some(path) = file_uri::file_uri_to_local_path(
                    t,
                    opener.computer_name,
                    opener.drives,
                ) {
                    let mut only: Vec<String> = Vec::new();
                    only.push(path);
                    assert(texts(only@) =~= seq![path@]);
                    return HintStep::Launch { program: "explorer.exe".to_owned(), args: only };
                }
            }
            let mut all: Vec<String> = Vec::new();
            let mut i: usize = 0;
            while i < args.len()
                invariant
                    i <= args@.len(),
                    all@.len() == i,
                    forall|j: int| 0 <= j < i ==> (#[trigger] all@[j])@ == args@[j]@,
                decreases args@.len() - i,
            {
                all.push(args[i].clone());
                i += 1;
            }
            all.push(t.to_owned());
            assert(texts(all@) =~= texts(args@).push(t@));
            HintStep::Launch { program: program.clone(), args: all }
        },
        HintAction::Copy => HintStep::Copy(t.to_owned()),
        HintAction::Paste => HintStep::Paste(t.to_owned()),
        HintAction::Select => HintStep::Select,
        HintAction::MoveViModeCursor => HintStep::MoveViModeCursor,
    }
}

/// Another instance never inherits a command.
pub proof fn law_commands_are_not_inherited(args: Seq<Seq<char>>, takes_directory: bool)
    ensures
        forall|i: int|
            0 <= i < inherited(args, takes_directory).len() ==> !starts_command(
                #[trigger] inherited(args, takes_directory)[i],
            ),
    decreases args.len(),
{
    if args.len() == 0 || starts_command(args[0]) {
        assert(inherited(args, takes_directory).len() == 0);
    } else {
        if !takes_directory && args[0] == "--working-directory"@ {
            if args.len() >= 2 {
                law_commands_are_not_inherited(args.skip(2), takes_directory);
                assert(inherited(args, takes_directory) == inherited(args.skip(2), takes_directory));
            }
        } else {
            law_commands_are_not_inherited(args.skip(1), takes_directory);
            let rest = inherited(args.skip(1), takes_directory);
            let out = inherited(args, takes_directory);
            assert forall|i: int| 0 <= i < out.len() implies !starts_command(#[trigger] out[i]) by {
                if i > 0 {
                    assert(out[i] == rest[i - 1]);
                } else {
                    assert(out[i] == args[0]);
                }
            }
        }
    }
}

} // verus!
