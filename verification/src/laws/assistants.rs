//! Notifier commands and the messages of hooks.

use vstd::prelude::*;

use crate::ai_hook::codex;
use crate::ai_hook::codex::{Outcome, Restoring};
use crate::ai_hook::envelope;
use crate::ai_hook::envelope::{AiHookKind, HookEvent};
use crate::ai_hook::guard;
use crate::ai_hook::guard::{Next, Removal, Tool};
use crate::laws::words;
use crate::text;
use crate::unicode;

verus! {

/// Whether the first word of a notifier command names our helper.
pub open spec fn runs_helper(argv: Seq<Seq<char>>) -> bool {
    argv.len() > 0 && words::holds(argv[0], "nebula-hook"@)
}

proof fn lemma_runs_helper(argv: Seq<Seq<char>>)
    ensures
        codex::is_ours(argv) == runs_helper(argv),
{
    if argv.len() > 0 {
        words::law_found_where_it_stands(argv[0], "nebula-hook"@);
    }
}

/// The notifier that is wired runs our helper. One of another author goes whole
/// behind `--chain`; of ours only the path changes.
pub proof fn law_wired_notifiers_run_the_helper(current: Seq<Seq<char>>, helper: Seq<char>)
    ensures
        codex::wanted(current, helper)[0] == helper,
        current.len() == 0 ==> codex::wanted(current, helper) == seq![helper, "codex"@],
        current.len() > 0 && !runs_helper(current) ==> codex::wanted(current, helper) == seq![
            helper,
            "codex"@,
            "--chain"@,
        ] + current,
        runs_helper(current) ==> codex::wanted(current, helper) == seq![helper] + current.skip(1),
{
    lemma_runs_helper(current);
    if runs_helper(current) {
        assert(current.update(0, helper) =~= seq![helper] + current.skip(1));
    }
}

/// What our helper leaves behind is what stands behind the first `--chain` of its
/// command, or nothing where there is none. Commands of others stay.
pub proof fn law_chained_notifiers_come_back(
    front: Seq<Seq<char>>,
    rest: Seq<Seq<char>>,
    other: Seq<Seq<char>>,
)
    requires
        runs_helper(front),
        forall|i: int| 0 <= i < front.len() ==> #[trigger] front[i] != "--chain"@,
        !runs_helper(other),
    ensures
        codex::restoring(front + seq!["--chain"@] + rest) == Restoring::Argv(rest),
        codex::restoring(front) is Removed,
        codex::restoring(other) is NotOurs,
{
    let argv = front + seq!["--chain"@] + rest;
    assert(argv[0] == front[0]);
    lemma_runs_helper(argv);
    lemma_runs_helper(front);
    lemma_runs_helper(other);
    lemma_chain(argv, front, 0);
    lemma_no_chain(front, 0);
    assert(argv.skip(front.len() as int + 1) =~= rest);
}

proof fn lemma_chain(argv: Seq<Seq<char>>, front: Seq<Seq<char>>, i: int)
    requires
        0 <= i <= front.len() < argv.len(),
        forall|k: int| 0 <= k < front.len() ==> #[trigger] front[k] != "--chain"@ && argv[k] == front[k],
        argv[front.len() as int] == "--chain"@,
    ensures
        codex::chain_from(argv, i) == Some(front.len() as int),
    decreases front.len() - i,
{
    if i < front.len() {
        assert(front[i] != "--chain"@);
        lemma_chain(argv, front, i + 1);
    }
}

proof fn lemma_no_chain(argv: Seq<Seq<char>>, i: int)
    requires
        0 <= i <= argv.len(),
        forall|k: int| 0 <= k < argv.len() ==> #[trigger] argv[k] != "--chain"@,
    ensures
        codex::chain_from(argv, i) is None,
    decreases argv.len() - i,
{
    if i < argv.len() {
        lemma_no_chain(argv, i + 1);
    }
}

/// The command in a configuration is the strings of its array, in their order;
/// items that are no strings are passed over.
pub proof fn law_only_strings_make_a_command(items: Seq<Option<Seq<char>>>)
    ensures
        codex::argv_of(None) == Seq::<Seq<char>>::empty(),
        codex::argv_of(Some(items)) == items.filter(
            |s: Option<Seq<char>>| s is Some,
        ).map_values(|s: Option<Seq<char>>| s->0),
    decreases items.len(),
{
    reveal(Seq::filter);
    let keep = |s: Option<Seq<char>>| s is Some;
    let text = |s: Option<Seq<char>>| s->0;
    if items.len() > 0 {
        law_only_strings_make_a_command(items.drop_last());
        let before = items.drop_last().filter(keep);
        if items.last() is Some {
            assert(before.push(items.last()).map_values(text) =~= before.map_values(text).push(
                items.last()->0,
            ));
        }
    } else {
        assert(items.filter(keep).map_values(text) =~= Seq::empty());
    }
}

/// A configuration that cannot be read is refused, by wiring and unwiring alike. In
/// one that names no notifier the helper is put alone, and nothing is taken out.
pub proof fn law_configurations_are_read_first(raw: Seq<char>, helper: Seq<char>)
    ensures
        codex::toml_array(raw, "notify"@) is None ==> codex::wiring(raw, helper) is Invalid
            && codex::unwiring(raw) is Invalid,
        codex::toml_array(raw, "notify"@) == Some(None::<Seq<Option<Seq<char>>>>) ==> {
            &&& codex::unwiring(raw) is Keep
            &&& codex::wiring(raw, helper) == match codex::toml_with_array(
                raw,
                "notify"@,
                seq![helper, "codex"@],
            ) {
                Some(s) => Outcome::Write(s),
                None => Outcome::Invalid,
            }
        },
{
    let two = seq![helper, "codex"@];
    assert(two[0] == helper);
    assert(two != Seq::<Seq<char>>::empty()) by {
        assert(two.len() == 2);
    }
}

/// The path of the helper is written with slashes: each character keeps its place,
/// and of them only backslashes change.
pub proof fn law_helper_paths_have_slashes(path: Seq<char>)
    ensures
        codex::forward_slashed(path).len() == path.len(),
        forall|i: int|
            0 <= i < path.len() ==> #[trigger] codex::forward_slashed(path)[i] == if path[i] == '\\' {
                '/'
            } else {
                path[i]
            },
{
}

/// Long messages are cut behind their first characters, with an ellipsis; others
/// stay whole. Three hundred characters are kept.
pub proof fn law_long_messages_are_cut(s: Seq<char>, rest: Seq<char>, max: nat)
    requires
        s.len() == max,
    ensures
        envelope::shortened(s, max) == s,
        rest.len() > 0 ==> envelope::shortened(s + rest, max) == s + seq!['…'],
        s.len() <= 300 ==> envelope::short_message(Some(s)) == Some(s),
        s.len() == 300 && rest.len() > 0 ==> envelope::short_message(Some(s + rest)) == Some(
            s + seq!['…'],
        ),
        envelope::short_message(None) is None,
{
    assert((s + rest).take(max as int) =~= s);
    assert(s.push('…') =~= s + seq!['…']);
}

/// The first `=` of a field parts its name from its value.
pub proof fn law_fields_have_names(name: Seq<char>, value: Seq<char>)
    requires
        !name.contains('='),
    ensures
        envelope::split_field(name + seq!['='] + value) == Some((name, value)),
        envelope::split_field(name) is None,
{
    let f = name + seq!['='] + value;
    let p = seq!['='];
    let n = name.len() as int;
    text::lemma_find_from(f, p, 0);
    text::lemma_find_from(name, p, 0);
    assert(f.subrange(n, n + 1) =~= p);
    assert(text::occurs_at(f, p, n));
    let k = text::find_from(f, p, 0)->0;
    assert(f.subrange(k, k + 1)[0] == p[0]);
    assert(f[k] == '=');
    if k < n {
        assert(name[k] == '=');
        assert(false);
    }
    assert(k == n);
    assert(f.take(n) =~= name);
    assert(f.skip(n + 1) =~= value);
    if let Some(j) = text::find_from(name, p, 0) {
        assert(name.subrange(j, j + 1)[0] == p[0]);
        assert(name[j] == '=');
        assert(false);
    }
}

/// A later field of a header counts over an earlier one of its name, and fields of
/// other names count for nothing.
pub proof fn law_last_field_counts(fields: Seq<Seq<char>>, name: Seq<char>, value: Seq<char>)
    requires
        !name.contains('='),
    ensures
        ({
            let before = envelope::header_of(fields);
            let after = envelope::header_of(fields.push(name + seq!['='] + value));
            &&& name == "source"@ ==> after.source == Some(value) && after.pane == before.pane
            &&& name == "pane"@ ==> after.source == before.source && after.pane == text::number(
                value,
            )
            &&& name != "source"@ && name != "pane"@ ==> after == before
        }),
        envelope::header_of(fields.push(name)) == envelope::header_of(fields),
        envelope::header_of(Seq::empty()).source is None,
        envelope::header_of(Seq::empty()).pane is None,
{
    law_fields_have_names(name, value);
    let f = name + seq!['='] + value;
    assert(fields.push(f).drop_last() =~= fields);
    assert(fields.push(f).last() == f);
    assert(fields.push(name).drop_last() =~= fields);
    assert(fields.push(name).last() == name);
    reveal_strlit("source");
    reveal_strlit("pane");
    assert("source"@.len() == 6 && "pane"@.len() == 4);
}

/// A message is its first line, read as words, and all that stands behind it; one
/// without a line end is none.
pub proof fn law_header_is_the_first_line(line: Seq<u8>, raw: Seq<u8>, tool: Seq<char>)
    requires
        !line.contains(10u8),
    ensures
        vstd::utf8::valid_utf8(line) ==> envelope::envelope(line + seq![10u8] + raw, tool)
            == envelope::event_of(unicode::words(vstd::utf8::decode_utf8(line)), raw, tool),
        !vstd::utf8::valid_utf8(line) ==> envelope::envelope(line + seq![10u8] + raw, tool) is None,
        envelope::envelope(line, tool) is None,
{
    let b = line + seq![10u8] + raw;
    lemma_line_end(line, seq![10u8] + raw);
    lemma_line_end(line, Seq::empty());
    assert(b =~= line + (seq![10u8] + raw));
    assert(line + Seq::empty() =~= line);
    assert(b.take(line.len() as int) =~= line);
    assert(b.skip(line.len() as int + 1) =~= raw);
}

proof fn lemma_line_end(line: Seq<u8>, tail: Seq<u8>)
    requires
        !line.contains(10u8),
        tail.len() > 0 ==> tail[0] == 10,
    ensures
        envelope::line_end(line + tail) == line.len(),
    decreases line.len(),
{
    let b = line + tail;
    if line.len() == 0 {
        assert(b =~= tail);
    } else {
        assert(line.contains(line[0]));
        let l = line.drop_first();
        assert forall|i: int| 0 <= i < l.len() implies l[i] != 10u8 by {
            assert(line.contains(line[i + 1]));
        }
        lemma_line_end(l, tail);
        assert(b.drop_first() =~= l + tail);
    }
}

/// Only messages with our mark in front are heard, and only those that name a
/// source; their event goes to the pane that they name.
pub proof fn law_marked_messages_are_heard(
    fields: Seq<Seq<char>>,
    other: Seq<char>,
    raw: Seq<u8>,
    tool: Seq<char>,
)
    requires
        other != "nebula-hook/1"@,
    ensures
        envelope::event_of(Seq::empty(), raw, tool) is None,
        envelope::event_of(seq![other] + fields, raw, tool) is None,
        envelope::header_of(fields).source is None ==> envelope::event_of(
            seq!["nebula-hook/1"@] + fields,
            raw,
            tool,
        ) is None,
        envelope::event_of(seq!["nebula-hook/1"@] + fields, raw, tool) matches Some(event) ==> {
            &&& event.pane == envelope::header_of(fields).pane
            &&& Some(event.source) == envelope::header_of(fields).source
        },
{
    let ours = seq!["nebula-hook/1"@] + fields;
    assert(ours[0] == "nebula-hook/1"@);
    assert(ours.drop_first() =~= fields);
    assert((seq![other] + fields)[0] == other);
}

/// What an event of a message means, by the text that its payload has under the key
/// of its source.
pub open spec fn heard(source: Seq<char>, tool: Seq<char>, raw: Seq<u8>) -> Option<HookEvent> {
    envelope::event_of(
        seq!["nebula-hook/1"@, "source"@ + seq!['='] + source],
        raw,
        tool,
    )
}

proof fn lemma_heard(source: Seq<char>, tool: Seq<char>, raw: Seq<u8>)
    ensures
        envelope::header_of(seq!["source"@ + seq!['='] + source]) == (envelope::Header {
            source: Some(source),
            pane: None,
        }),
        seq!["nebula-hook/1"@, "source"@ + seq!['='] + source].drop_first() == seq![
            "source"@ + seq!['='] + source,
        ],
        seq!["nebula-hook/1"@, "source"@ + seq!['='] + source][0] == "nebula-hook/1"@,
{
    let f = "source"@ + seq!['='] + source;
    reveal_strlit("source");
    assert(!"source"@.contains('='));
    law_last_field_counts(Seq::empty(), "source"@, source);
    assert(Seq::empty().push(f) =~= seq![f]);
    assert(seq!["nebula-hook/1"@, f].drop_first() =~= seq![f]);
}

/// The tool with hooks of its own tells of prompts, of turns that ended and of
/// notifications, whose message goes along.
pub proof fn law_hook_events_are_told_apart(tool: Seq<char>, raw: Seq<u8>, event: Seq<char>)
    requires
        envelope::json_text(raw, "hook_event_name"@) == Some(event),
    ensures
        event == "UserPromptSubmit"@ ==> heard(tool, tool, raw) == Some(
            HookEvent { pane: None, source: tool, kind: AiHookKind::PromptSubmit, message: None },
        ),
        event == "Stop"@ ==> heard(tool, tool, raw) == Some(
            HookEvent { pane: None, source: tool, kind: AiHookKind::TurnDone, message: None },
        ),
        event == "Notification"@ ==> heard(tool, tool, raw) == Some(
            HookEvent {
                pane: None,
                source: tool,
                kind: AiHookKind::NeedsAttention,
                message: envelope::json_text(raw, "message"@),
            },
        ),
        event != "UserPromptSubmit"@ && event != "Stop"@ && event != "Notification"@ ==> heard(
            tool,
            tool,
            raw,
        ) is None,
{
    lemma_heard(tool, tool, raw);
    reveal_strlit("UserPromptSubmit");
    reveal_strlit("Stop");
    reveal_strlit("Notification");
    assert("UserPromptSubmit"@.len() == 16 && "Stop"@.len() == 4 && "Notification"@.len() == 12);
}

/// Notifiers tell of turns that ended, with the last message cut, and of nothing
/// else.
pub proof fn law_notified_turns_are_done(tool: Seq<char>, raw: Seq<u8>, event: Seq<char>)
    requires
        tool != "codex"@,
        envelope::json_text(raw, "type"@) == Some(event),
    ensures
        event == "agent-turn-complete"@ ==> heard("codex"@, tool, raw) == Some(
            HookEvent {
                pane: None,
                source: "codex"@,
                kind: AiHookKind::TurnDone,
                message: envelope::short_message(
                    envelope::json_text(raw, "last-assistant-message"@),
                ),
            },
        ),
        event != "agent-turn-complete"@ ==> heard("codex"@, tool, raw) is None,
{
    lemma_heard("codex"@, tool, raw);
}

/// The plugin tells of prompts, of turns that ended and of what needs attention,
/// with its message cut.
pub proof fn law_plugin_events_are_told_apart(tool: Seq<char>, raw: Seq<u8>, event: Seq<char>)
    requires
        tool != "opencode"@,
        envelope::json_text(raw, "kind"@) == Some(event),
    ensures
        event == "prompt"@ ==> heard("opencode"@, tool, raw) == Some(
            HookEvent {
                pane: None,
                source: "opencode"@,
                kind: AiHookKind::PromptSubmit,
                message: None,
            },
        ),
        event == "done"@ ==> heard("opencode"@, tool, raw) == Some(
            HookEvent {
                pane: None,
                source: "opencode"@,
                kind: AiHookKind::TurnDone,
                message: None,
            },
        ),
        event == "attention"@ ==> heard("opencode"@, tool, raw) == Some(
            HookEvent {
                pane: None,
                source: "opencode"@,
                kind: AiHookKind::NeedsAttention,
                message: envelope::short_message(envelope::json_text(raw, "message"@)),
            },
        ),
        event != "prompt"@ && event != "done"@ && event != "attention"@ ==> heard(
            "opencode"@,
            tool,
            raw,
        ) is None,
{
    lemma_heard("opencode"@, tool, raw);
    reveal_strlit("prompt");
    reveal_strlit("done");
    reveal_strlit("attention");
    reveal_strlit("codex");
    reveal_strlit("opencode");
    assert("prompt"@.len() == 6 && "done"@.len() == 4 && "attention"@.len() == 9);
    assert("codex"@.len() == 5 && "opencode"@.len() == 8);
}

/// Nothing is heard of other sources, nor of a payload without an event.
pub proof fn law_other_sources_are_not_heard(source: Seq<char>, tool: Seq<char>, raw: Seq<u8>)
    ensures
        source != tool && source != "codex"@ && source != "opencode"@ ==> heard(
            source,
            tool,
            raw,
        ) is None,
        source == tool && envelope::json_text(raw, "hook_event_name"@) is None ==> heard(
            source,
            tool,
            raw,
        ) is None,
{
    lemma_heard(source, tool, raw);
}

/// A message is the chunks that were read, one behind the other, up to an empty one
/// or to the one that goes past the cap.
pub proof fn law_chunks_make_the_message(chunks: Seq<Seq<u8>>, chunk: Seq<u8>)
    ensures
        envelope::received(Seq::empty()).1,
        envelope::received(Seq::empty()).0.len() == 0,
        envelope::received(chunks).1 ==> {
            &&& envelope::received(chunks.push(chunk)).0 == envelope::received(chunks).0 + chunk
            &&& envelope::received(chunks.push(chunk)).1 <==> chunk.len() > 0
                && envelope::received(chunks).0.len() + chunk.len() <= 1048576
        },
        !envelope::received(chunks).1 ==> envelope::received(chunks.push(chunk))
            == envelope::received(chunks),
{
    assert(chunks.push(chunk).drop_last() =~= chunks);
    assert(chunks.push(chunk).last() == chunk);
}

/// Only changes of the two files that hold our entries concern us, and changes that
/// name no file.
pub proof fn law_our_files_are_watched(names: Seq<Option<Seq<char>>>)
    ensures
        guard::concerns_us(names) <==> names.len() == 0 || exists|i: int|
            0 <= i < names.len() && (#[trigger] names[i] == Some("settings.json"@) || names[i]
                == Some("config.toml"@)),
{
    let (a, b) = (Some("settings.json"@), Some("config.toml"@));
    if names.contains(a) {
        let i = choose|i: int| 0 <= i < names.len() && names[i] == a;
        assert(names[i] == a);
    }
    if names.contains(b) {
        let i = choose|i: int| 0 <= i < names.len() && names[i] == b;
        assert(names[i] == b);
    }
    if exists|i: int|
        0 <= i < names.len() && (#[trigger] names[i] == Some("settings.json"@) || names[i] == Some(
            "config.toml"@,
        )) {
        let i = choose|i: int|
            0 <= i < names.len() && (#[trigger] names[i] == Some("settings.json"@) || names[i]
                == Some("config.toml"@));
        assert(names.contains(names[i]));
    }
}

/// The tools are cleaned one after the other, each once, whether or not there was
/// anything of ours; a failure ends it, and is told by the exit code.
pub proof fn law_tools_are_cleaned_in_turn(outcome: Removal)
    ensures
        outcome is Failed ==> forall|tool: Tool| #[trigger]
            guard::after_removal(tool, outcome) == Next::Exit(1),
        !(outcome is Failed) ==> guard::after_removal(Tool::Claude, outcome) == Next::Remove(
            Tool::Codex,
        ),
        !(outcome is Failed) ==> guard::after_removal(Tool::Codex, outcome) == Next::Remove(
            Tool::Opencode,
        ),
        !(outcome is Failed) ==> guard::after_removal(Tool::Opencode, outcome) == Next::Exit(0),
{
}

} // verus!
