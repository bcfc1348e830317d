//! Upkeep of our hooks in the JSON settings of a command line tool.
//!
//! Anything may rewrite the settings wholesale, silently dropping our entries.
//! They are put back on every start and whenever the file changes; a file whose
//! shape is unexpected is left alone.

use vstd::prelude::*;

use crate::ai_hook::json;
use crate::ai_hook::json::{Doc, Json, JsonEdit};
use crate::text;

verus! {

/// Marker locating our entries: it matches on the helper's name so entries
/// survive the program moving to a new absolute path.
pub open spec fn helper_mark() -> Seq<char> {
    "nebula-hook"@
}

/// Whether a text names our helper.
pub open spec fn names_helper(s: Seq<char>) -> bool {
    text::find_from(s, helper_mark(), 0) is Some
}

/// Whether a text names our helper.
pub fn is_helper(s: &str) -> (r: bool)
    ensures
        r == names_helper(s@),
{
    text::find(text::chars_of(s).as_slice(), text::chars_of("nebula-hook").as_slice()).is_some()
}

/// The command of a hook entry.
pub open spec fn command_of(entry: Doc) -> Option<Seq<char>> {
    match json::get(entry, "command"@) {
        Some(Doc::Str(s)) => Some(s),
        _ => None,
    }
}

/// Whether a hook entry runs our helper.
pub open spec fn is_ours(entry: Doc) -> bool {
    command_of(entry) matches Some(s) && names_helper(s)
}

/// A hook entry with our command brought up to date.
pub open spec fn healed(entry: Doc, command: Seq<char>) -> Doc {
    if is_ours(entry) {
        Doc::Object(json::put(entry->Object_0, "command"@, Doc::Str(command)))
    } else {
        entry
    }
}

/// The hook entries of a matcher.
pub open spec fn entries_of(matcher: Doc) -> Option<Seq<Doc>> {
    match json::get(matcher, "hooks"@) {
        Some(Doc::Array(entries)) => Some(entries),
        _ => None,
    }
}

pub open spec fn with_entries(matcher: Doc, entries: Seq<Doc>) -> Doc {
    Doc::Object(json::put(matcher->Object_0, "hooks"@, Doc::Array(entries)))
}

/// Whether one of the entries is ours.
pub open spec fn any_ours(entries: Seq<Doc>) -> bool {
    exists|i: int| 0 <= i < entries.len() && is_ours(#[trigger] entries[i])
}

/// The entries with the first one of ours brought up to date, and without the
/// others of ours. Where one was `found` before, none of ours is left.
pub open spec fn kept(entries: Seq<Doc>, found: bool, command: Seq<char>) -> Seq<Doc>
    decreases entries.len(),
{
    if entries.len() == 0 {
        entries
    } else {
        let front = kept(entries.drop_last(), found, command);
        if !is_ours(entries.last()) {
            front.push(entries.last())
        } else if found || any_ours(entries.drop_last()) {
            front
        } else {
            front.push(healed(entries.last(), command))
        }
    }
}

/// A matcher with our entry brought up to date, where it is the first one.
pub open spec fn healed_matcher(matcher: Doc, found: bool, command: Seq<char>) -> Doc {
    match entries_of(matcher) {
        Some(entries) => with_entries(matcher, kept(entries, found, command)),
        None => matcher,
    }
}

/// Whether a matcher has an entry of ours.
pub open spec fn carries(matcher: Doc) -> bool {
    entries_of(matcher) matches Some(entries) && any_ours(entries)
}

pub open spec fn any_carries(matchers: Seq<Doc>) -> bool {
    exists|i: int| 0 <= i < matchers.len() && carries(#[trigger] matchers[i])
}

/// The matchers with the first entry of ours brought up to date, and without the
/// others of ours.
pub open spec fn healed_matchers(matchers: Seq<Doc>, command: Seq<char>) -> Seq<Doc> {
    Seq::new(
        matchers.len(),
        |i: int| healed_matcher(matchers[i], any_carries(matchers.take(i)), command),
    )
}

/// The matcher that we add.
pub open spec fn new_matcher(command: Seq<char>) -> Doc {
    Doc::Object(
        seq![
            (
                "hooks"@,
                Doc::Array(
                    seq![
                        Doc::Object(
                            seq![
                                ("command"@, Doc::Str(command)),
                                ("timeout"@, Doc::Number("10"@)),
                                ("type"@, Doc::Str("command"@)),
                            ],
                        ),
                    ],
                ),
            ),
        ],
    )
}

/// The matchers of an event with one entry of ours in them, up to date.
pub open spec fn with_ours(matchers: Seq<Doc>, command: Seq<char>) -> Seq<Doc> {
    if any_carries(matchers) {
        healed_matchers(matchers, command)
    } else {
        healed_matchers(matchers, command).push(new_matcher(command))
    }
}

/// The hooks with our entry installed for `event`, unless the event is not a
/// list.
pub open spec fn install_event(
    hooks: Seq<(Seq<char>, Doc)>,
    event: Seq<char>,
    command: Seq<char>,
) -> Option<Seq<(Seq<char>, Doc)>> {
    match json::get(Doc::Object(hooks), event) {
        None => Some(json::put(hooks, event, Doc::Array(with_ours(Seq::empty(), command)))),
        Some(Doc::Array(matchers)) => Some(
            json::put(hooks, event, Doc::Array(with_ours(matchers, command))),
        ),
        _ => None,
    }
}

/// The hooks with our entry installed for every event that we subscribe to.
pub open spec fn install_events(hooks: Seq<(Seq<char>, Doc)>, command: Seq<char>) -> Option<
    Seq<(Seq<char>, Doc)>,
> {
    match install_event(hooks, "UserPromptSubmit"@, command) {
        None => None,
        Some(first) => match install_event(first, "Stop"@, command) {
            None => None,
            Some(second) => install_event(second, "Notification"@, command),
        },
    }
}

/// The settings with our hooks installed, unless their shape is unexpected.
pub open spec fn installed(root: Doc, command: Seq<char>) -> Option<Doc> {
    match root {
        Doc::Object(pairs) => {
            let hooks = match json::get(root, "hooks"@) {
                None => Some(Seq::<(Seq<char>, Doc)>::empty()),
                Some(Doc::Object(hooks)) => Some(hooks),
                _ => None,
            };
            match hooks {
                None => None,
                Some(hooks) => match install_events(hooks, command) {
                    None => None,
                    Some(after) => Some(Doc::Object(json::put(pairs, "hooks"@, Doc::Object(after)))),
                },
            }
        },
        _ => None,
    }
}

/// Brings a hook entry up to date: the entry, whether it is ours, and whether
/// it was changed.
fn heal_entry(entry: Json, command: &str) -> (r: (Json, bool, bool))
    ensures
        r.0.value() == healed(entry.value(), command@),
        r.1 == is_ours(entry.value()),
        r.2 == (r.0.value() != entry.value()),
{
    match entry {
        Json::Object(mut v) => {
            proof {
                json::lemma_object_value(v);
                json::lemma_put(json::pairs(v@), "command"@, Doc::Str(command@), Seq::empty());
                json::lemma_key_from(json::pairs(v@), "command"@, 0);
            }
            let ghost before = v@;
            if let Some(i) = json::find_key(&v, "command") {
                assert(json::pairs(v@)[i as int] == json::pair_value(v@[i as int]));
                if let Json::Str(s) = &v[i].1 {
                    if is_helper(s.as_str()) {
                        let changed = !text::str_eq(s.as_str(), command);
                        json::replace_at(&mut v, i, Json::Str(command.to_owned()));
                        proof {
                            json::lemma_object_value(v);
                        }
                        return (Json::Object(v), true, changed);
                    }
                }
            }
            (Json::Object(v), false, false)
        },
        other => {
            (other, false, false)
        },
    }
}

proof fn lemma_any_ours_push(entries: Seq<Doc>)
    requires
        entries.len() > 0,
    ensures
        any_ours(entries) == (any_ours(entries.drop_last()) || is_ours(entries.last())),
{
    let front = entries.drop_last();
    if any_ours(front) {
        let i = choose|i: int| 0 <= i < front.len() && is_ours(#[trigger] front[i]);
        assert(is_ours(entries[i]));
    }
    if is_ours(entries.last()) {
        assert(is_ours(entries[entries.len() - 1]));
    }
    if any_ours(entries) {
        let i = choose|i: int| 0 <= i < entries.len() && is_ours(#[trigger] entries[i]);
        if i < front.len() {
            assert(is_ours(front[i]));
        }
    }
}

proof fn lemma_any_carries_push(matchers: Seq<Doc>)
    requires
        matchers.len() > 0,
    ensures
        any_carries(matchers) == (any_carries(matchers.drop_last()) || carries(matchers.last())),
{
    let front = matchers.drop_last();
    if any_carries(front) {
        let i = choose|i: int| 0 <= i < front.len() && carries(#[trigger] front[i]);
        assert(carries(matchers[i]));
    }
    if carries(matchers.last()) {
        assert(carries(matchers[matchers.len() - 1]));
    }
    if any_carries(matchers) {
        let i = choose|i: int| 0 <= i < matchers.len() && carries(#[trigger] matchers[i]);
        if i < front.len() {
            assert(carries(front[i]));
        }
    }
}

/// Brings a list of hook entries up to date, where one of ours may have been
/// `found` before: the entries, whether one is ours, and whether they were
/// changed.
fn heal_entries(entries: Vec<Json>, found: bool, command: &str) -> (r: (Vec<Json>, bool, bool))
    ensures
        json::values(r.0@) == kept(json::values(entries@), found, command@),
        r.1 == any_ours(json::values(entries@)),
        r.2 == (json::values(r.0@) != json::values(entries@)),
{
    let ghost all = entries@;
    let ghost docs = json::values(all);
    let mut out: Vec<Json> = Vec::new();
    let mut ours = false;
    let mut changed = false;
    assert(docs.take(0) =~= Seq::empty());
    assert(json::values(out@) =~= Seq::empty());
    for entry in it: entries
        invariant
            it.seq() == all,
            docs == json::values(all),
            out@.len() <= it.index(),
            json::values(out@) == kept(docs.take(it.index() as int), found, command@),
            ours == any_ours(docs.take(it.index() as int)),
            changed == (json::values(out@) != docs.take(it.index() as int)),
    {
        let ghost n = it.index() as int;
        assert(entry == all[n]);
        let ghost value = entry.value();
        let ghost front = docs.take(n);
        let ghost here = docs.take(n + 1);
        assert(here.drop_last() =~= front);
        assert(here =~= front.push(value));
        proof {
            lemma_any_ours_push(here);
        }
        let ghost before = json::values(out@);
        let (fixed, is_mine, differs) = heal_entry(entry, command);
        if is_mine && (found || ours) {
            changed = true;
            assert(before.len() < here.len());
        } else {
            let ghost x = fixed.value();
            out.push(fixed);
            assert(json::values(out@) =~= before.push(x));
            assert(before.push(x).drop_last() =~= before);
            assert(front.push(value).drop_last() =~= front);
            if differs {
                assert(before.push(x).last() != here.last());
                changed = true;
            }
        }
        if is_mine {
            ours = true;
        }
    }
    assert(docs.take(all.len() as int) =~= docs);
    (out, ours, changed)
}

/// Brings a matcher up to date, where an entry of ours may have been `found`
/// before: the matcher, whether it has an entry of ours, and whether it was
/// changed.
fn heal_matcher(matcher: Json, found: bool, command: &str) -> (r: (Json, bool, bool))
    ensures
        r.0.value() == healed_matcher(matcher.value(), found, command@),
        r.1 == carries(matcher.value()),
        r.2 == (r.0.value() != matcher.value()),
{
    match matcher {
        Json::Object(mut v) => {
            let ghost before = json::pairs(v@);
            proof {
                json::lemma_object_value(v);
                json::lemma_key_from(before, "hooks"@, 0);
            }
            if let Some(i) = json::find_key(&v, "hooks") {
                assert(json::pairs(v@)[i as int] == json::pair_value(v@[i as int]));
                let (key, held) = v.remove(i);
                match held {
                    Json::Array(entries) => {
                        proof {
                            json::lemma_array_value(entries);
                        }
                        let ghost old_entries = json::values(entries@);
                        let (fixed, ours, changed) = heal_entries(entries, found, command);
                        proof {
                            json::lemma_array_value(fixed);
                            json::lemma_put(before, "hooks"@, Doc::Array(json::values(fixed@)), Seq::empty());
                        }
                        v.insert(i, (key, Json::Array(fixed)));
                        proof {
                            json::lemma_object_value(v);
                            assert(json::pairs(v@) =~= before.update(
                                i as int,
                                ("hooks"@, Doc::Array(json::values(fixed@))),
                            ));
                        }
                        return (Json::Object(v), ours, changed);
                    },
                    other => {
                        v.insert(i, (key, other));
                        proof {
                            json::lemma_object_value(v);
                            assert(json::pairs(v@) =~= before);
                        }
                        return (Json::Object(v), false, false);
                    },
                }
            }
            (Json::Object(v), false, false)
        },
        other => (other, false, false),
    }
}

/// The matcher that we add.
fn our_matcher(command: &str) -> (r: Json)
    ensures
        r.value() == new_matcher(command@),
{
    let mut entry: Vec<(String, Json)> = Vec::new();
    entry.push(("command".to_owned(), Json::Str(command.to_owned())));
    entry.push(("timeout".to_owned(), Json::Number("10".to_owned())));
    entry.push(("type".to_owned(), Json::Str("command".to_owned())));
    proof {
        json::lemma_object_value(entry);
        assert(json::pairs(entry@) =~= seq![
            ("command"@, Doc::Str(command@)),
            ("timeout"@, Doc::Number("10"@)),
            ("type"@, Doc::Str("command"@)),
        ]);
    }
    let ghost entry_value = Json::Object(entry).value();
    let mut entries: Vec<Json> = Vec::new();
    entries.push(Json::Object(entry));
    proof {
        json::lemma_array_value(entries);
        assert(json::values(entries@) =~= seq![entry_value]);
    }
    let ghost entries_value = Json::Array(entries).value();
    let mut matcher: Vec<(String, Json)> = Vec::new();
    matcher.push(("hooks".to_owned(), Json::Array(entries)));
    proof {
        json::lemma_object_value(matcher);
        assert(json::pairs(matcher@) =~= seq![("hooks"@, entries_value)]);
    }
    Json::Object(matcher)
}

/// The matchers of an event with our entry in them, and whether they were
/// changed.
fn install_matchers(matchers: Vec<Json>, command: &str) -> (r: (Vec<Json>, bool))
    ensures
        json::values(r.0@) == with_ours(json::values(matchers@), command@),
        r.1 == (json::values(r.0@) != json::values(matchers@)),
{
    let ghost all = matchers@;
    let ghost docs = json::values(all);
    let mut out: Vec<Json> = Vec::new();
    let mut found = false;
    let mut changed = false;
    assert(docs.take(0) =~= Seq::empty());
    assert(json::values(out@) =~= Seq::empty());
    for matcher in it: matchers
        invariant
            it.seq() == all,
            docs == json::values(all),
            out@.len() == it.index(),
            json::values(out@) == healed_matchers(docs, command@).take(it.index() as int),
            found == any_carries(docs.take(it.index() as int)),
            changed == (json::values(out@) != docs.take(it.index() as int)),
    {
        let ghost n = it.index() as int;
        assert(matcher == all[n]);
        let ghost value = matcher.value();
        let ghost front = docs.take(n);
        let ghost here = docs.take(n + 1);
        assert(here.drop_last() =~= front);
        assert(here =~= front.push(value));
        proof {
            lemma_any_carries_push(here);
        }
        let ghost before = json::values(out@);
        let (fixed, has_ours, differs) = heal_matcher(matcher, found, command);
        let ghost x = fixed.value();
        out.push(fixed);
        assert(json::values(out@) =~= before.push(x));
        assert(healed_matchers(docs, command@)[n] == x);
        assert(before.push(x) =~= healed_matchers(docs, command@).take(n + 1));
        assert(before.push(x).drop_last() =~= before);
        assert(front.push(value).drop_last() =~= front);
        if has_ours {
            found = true;
        }
        if differs {
            assert(before.push(x).last() != here.last());
            changed = true;
        }
    }
    assert(docs.take(all.len() as int) =~= docs);
    assert(healed_matchers(docs, command@).take(all.len() as int) =~= healed_matchers(
        docs,
        command@,
    ));
    if !found {
        let ghost before = json::values(out@);
        let added = our_matcher(command);
        out.push(added);
        assert(json::values(out@) =~= before.push(new_matcher(command@)));
        assert(json::values(out@).len() != json::values(all).len());
        changed = true;
    }
    (out, changed)
}

/// Installs our entry for `event`: the hooks and whether they were changed.
fn install_for_event(hooks: Vec<(String, Json)>, event: &str, command: &str) -> (r: Option<
    (Vec<(String, Json)>, bool),
>)
    ensures
        match r {
            Some((v, changed)) => install_event(json::pairs(hooks@), event@, command@) == Some(json::pairs(v@))
                && changed == (json::pairs(v@) != json::pairs(hooks@)),
            None => install_event(json::pairs(hooks@), event@, command@) is None,
        },
{
    let mut v = hooks;
    let ghost before = json::pairs(v@);
    proof {
        json::lemma_key_from(before, event@, 0);
    }
    match json::find_key(&v, event) {
        Some(i) => {
            assert(json::pairs(v@)[i as int] == json::pair_value(v@[i as int]));
            let (key, held) = v.remove(i);
            match held {
                Json::Array(matchers) => {
                    proof {
                        json::lemma_array_value(matchers);
                    }
                    let (fixed, changed) = install_matchers(matchers, command);
                    proof {
                        json::lemma_array_value(fixed);
                        json::lemma_put(before, event@, Doc::Array(json::values(fixed@)), Seq::empty());
                    }
                    v.insert(i, (key, Json::Array(fixed)));
                    assert(json::pairs(v@) =~= before.update(
                        i as int,
                        (event@, Doc::Array(json::values(fixed@))),
                    ));
                    Some((v, changed))
                },
                _ => None,
            }
        },
        None => {
            let empty: Vec<Json> = Vec::new();
            assert(json::values(empty@) =~= Seq::empty());
            let (added, _changed) = install_matchers(empty, command);
            proof {
                json::lemma_array_value(added);
            }
            let ghost list = Json::Array(added).value();
            json::insert_key(&mut v, event, Json::Array(added));
            assert(json::pairs(v@) == json::put(before, event@, list));
            assert(json::pairs(v@).len() != before.len());
            Some((v, true))
        },
    }
}

/// Installs our entry for every event that we subscribe to.
fn install_all(hooks: Vec<(String, Json)>, command: &str) -> (r: Option<
    (Vec<(String, Json)>, bool),
>)
    ensures
        match r {
            Some((v, changed)) => install_events(json::pairs(hooks@), command@) == Some(json::pairs(v@))
                && changed == (json::pairs(v@) != json::pairs(hooks@)),
            None => install_events(json::pairs(hooks@), command@) is None,
        },
{
    let ghost start = json::pairs(hooks@);
    match install_for_event(hooks, "UserPromptSubmit", command) {
        None => None,
        Some((first, a)) => match install_for_event(first, "Stop", command) {
            None => None,
            Some((second, b)) => match install_for_event(second, "Notification", command) {
                None => None,
                Some((third, c)) => {
                    proof {
                        lemma_event_names();
                        let (one, two, three) = (json::pairs(first@), json::pairs(second@), json::pairs(third@));
                        lemma_install_touches_one(start, "UserPromptSubmit"@, command@, "Stop"@);
                        lemma_install_touches_one(
                            start,
                            "UserPromptSubmit"@,
                            command@,
                            "Notification"@,
                        );
                        lemma_install_touches_one(one, "Stop"@, command@, "UserPromptSubmit"@);
                        lemma_install_touches_one(one, "Stop"@, command@, "Notification"@);
                        lemma_install_touches_one(
                            two,
                            "Notification"@,
                            command@,
                            "UserPromptSubmit"@,
                        );
                        lemma_install_touches_one(two, "Notification"@, command@, "Stop"@);
                    }
                    Some((third, a || b || c))
                },
            },
        },
    }
}

/// The three events have different names.
pub(crate) proof fn lemma_event_names()
    ensures
        "UserPromptSubmit"@ != "Stop"@,
        "UserPromptSubmit"@ != "Notification"@,
        "Stop"@ != "Notification"@,
{
    reveal_strlit("UserPromptSubmit");
    reveal_strlit("Stop");
    reveal_strlit("Notification");
    assert("UserPromptSubmit"@.len() == 16);
    assert("Stop"@.len() == 4);
    assert("Notification"@.len() == 12);
}

/// Installing for one event leaves the others alone.
pub(crate) proof fn lemma_install_touches_one(
    hooks: Seq<(Seq<char>, Doc)>,
    event: Seq<char>,
    command: Seq<char>,
    other: Seq<char>,
)
    requires
        other != event,
    ensures
        install_event(hooks, event, command) matches Some(after) ==> {
            &&& json::get(Doc::Object(after), other) == json::get(Doc::Object(hooks), other)
            &&& after != hooks <==> json::get(Doc::Object(after), event) != json::get(
                Doc::Object(hooks),
                event,
            )
        },
{
    match json::get(Doc::Object(hooks), event) {
        None => {
            json::lemma_put(hooks, event, Doc::Array(with_ours(Seq::empty(), command)), other);
        },
        Some(Doc::Array(matchers)) => {
            json::lemma_put(hooks, event, Doc::Array(with_ours(matchers, command)), other);
        },
        _ => {},
    }
}

/// Ensures that each subscribed event carries exactly one nebula-hook command,
/// healing a stale absolute path in place: the document, and whether it has to be
/// written. `None` means the document's shape is unexpected, and it is refused.
pub fn install_into(root: Json, command: &str) -> (r: Option<(Json, bool)>)
    ensures
        match r {
            Some((doc, changed)) => installed(root.value(), command@) == Some(doc.value())
                && changed == (doc.value() != root.value()),
            None => installed(root.value(), command@) is None,
        },
{
    match root {
        Json::Object(mut v) => {
            let ghost before = json::pairs(v@);
            proof {
                json::lemma_object_value(v);
                json::lemma_key_from(before, "hooks"@, 0);
            }
            match json::find_key(&v, "hooks") {
                Some(i) => {
                    assert(json::pairs(v@)[i as int] == json::pair_value(v@[i as int]));
                    let (key, held) = v.remove(i);
                    match held {
                        Json::Object(hooks) => {
                            proof {
                                json::lemma_object_value(hooks);
                            }
                            match install_all(hooks, command) {
                                None => None,
                                Some((after, changed)) => {
                                    proof {
                                        json::lemma_object_value(after);
                                        json::lemma_put(
                                            before,
                                            "hooks"@,
                                            Doc::Object(json::pairs(after@)),
                                            Seq::empty(),
                                        );
                                    }
                                    v.insert(i, (key, Json::Object(after)));
                                    proof {
                                        json::lemma_object_value(v);
                                        assert(json::pairs(v@) =~= before.update(
                                            i as int,
                                            ("hooks"@, Doc::Object(json::pairs(after@))),
                                        ));
                                    }
                                    Some((Json::Object(v), changed))
                                },
                            }
                        },
                        _ => None,
                    }
                },
                None => {
                    let empty: Vec<(String, Json)> = Vec::new();
                    assert(json::pairs(empty@) =~= Seq::empty());
                    match install_all(empty, command) {
                        None => None,
                        Some((after, _changed)) => {
                            proof {
                                json::lemma_object_value(after);
                            }
                            let ghost added = Json::Object(after).value();
                            json::insert_key(&mut v, "hooks", Json::Object(after));
                            proof {
                                json::lemma_object_value(v);
                                assert(json::pairs(v@) == json::put(before, "hooks"@, added));
                                assert(json::pairs(v@).len() != before.len());
                            }
                            Some((Json::Object(v), true))
                        },
                    }
                },
            }
        },
        _ => None,
    }
}

proof fn lemma_healed_twice(entry: Doc, command: Seq<char>)
    ensures
        healed(healed(entry, command), command) == healed(entry, command),
        names_helper(command) ==> is_ours(healed(entry, command)) == is_ours(entry),
        is_ours(entry) ==> command_of(healed(entry, command)) == Some(command),
{
    if is_ours(entry) {
        json::lemma_put(entry->Object_0, "command"@, Doc::Str(command), Seq::empty());
    }
}

proof fn lemma_kept(entries: Seq<Doc>, found: bool, command: Seq<char>)
    requires
        names_helper(command),
    ensures
        any_ours(kept(entries, found, command)) == (any_ours(entries) && !found),
        kept(kept(entries, found, command), found, command) == kept(entries, found, command),
        count_ours(kept(entries, found, command)) == if any_ours(entries) && !found {
            1nat
        } else {
            0nat
        },
        forall|i: int|
            0 <= i < kept(entries, found, command).len() && is_ours(
                kept(entries, found, command)[i],
            ) ==> command_of(#[trigger] kept(entries, found, command)[i]) == Some(command),
        stripped(kept(entries, found, command)) == stripped(entries),
    decreases entries.len(),
{
    if entries.len() > 0 {
        let front = entries.drop_last();
        let last = entries.last();
        lemma_kept(front, found, command);
        lemma_any_ours_push(entries);
        lemma_healed_twice(last, command);
        let before = kept(front, found, command);
        let out = kept(entries, found, command);
        if out.len() > before.len() {
            lemma_any_ours_push(out);
            assert(out.drop_last() =~= before);
            if is_ours(last) {
                assert(kept(out, found, command) == before.push(healed(out.last(), command)));
            }
            assert(kept(out, found, command) =~= out);
        }
        assert forall|i: int| 0 <= i < out.len() && is_ours(out[i]) implies command_of(
            #[trigger] out[i],
        ) == Some(command) by {
            if i < before.len() {
                assert(out[i] == before[i]);
            }
        }
    }
}

proof fn lemma_healed_matcher(matcher: Doc, found: bool, command: Seq<char>)
    requires
        names_helper(command),
    ensures
        carries(healed_matcher(matcher, found, command)) == (carries(matcher) && !found),
        healed_matcher(healed_matcher(matcher, found, command), found, command) == healed_matcher(
            matcher,
            found,
            command,
        ),
        entries_of(matcher) matches Some(entries) ==> entries_of(
            healed_matcher(matcher, found, command),
        ) == Some(kept(entries, found, command)),
        entries_of(matcher) is None ==> entries_of(healed_matcher(matcher, found, command)) is None,
{
    if let Some(entries) = entries_of(matcher) {
        lemma_kept(entries, found, command);
        let once = kept(entries, found, command);
        json::lemma_put(matcher->Object_0, "hooks"@, Doc::Array(once), Seq::empty());
    }
}

proof fn lemma_new_matcher(command: Seq<char>)
    ensures
        names_helper(command) ==> carries(new_matcher(command)),
        names_helper(command) ==> healed_matcher(new_matcher(command), false, command)
            == new_matcher(command),
        entries_of(new_matcher(command)) matches Some(entries) && entries.len() == 1 && command_of(
            entries[0],
        ) == Some(command),
{
    let entry = Doc::Object(
        seq![
            ("command"@, Doc::Str(command)),
            ("timeout"@, Doc::Number("10"@)),
            ("type"@, Doc::Str("command"@)),
        ],
    );
    json::lemma_key_found(entry->Object_0, "command"@, 0, 0);
    let m = new_matcher(command);
    json::lemma_key_found(m->Object_0, "hooks"@, 0, 0);
    let entries = entries_of(m)->0;
    assert(entries[0] == entry);
    json::lemma_put(entry->Object_0, "command"@, Doc::Str(command), Seq::empty());
    assert(healed(entry, command) == entry);
    json::lemma_put(m->Object_0, "hooks"@, Doc::Array(entries), Seq::empty());
    if names_helper(command) {
        assert(is_ours(entries[0]));
        assert(entries.drop_last() =~= Seq::empty());
        assert(kept(entries.drop_last(), false, command) =~= Seq::empty());
        assert(kept(entries, false, command) =~= entries);
    }
}

/// Whether exactly one entry among the matchers is ours, and it runs `command`.
pub open spec fn wired(matchers: Seq<Doc>, command: Seq<char>) -> bool {
    &&& count_in(matchers) == 1
    &&& forall|i: int, j: int|
        0 <= i < matchers.len() && entries_of(matchers[i]) is Some && 0 <= j < entries_of(
            matchers[i],
        )->0.len() && is_ours(entries_of(matchers[i])->0[j]) ==> command_of(
            #[trigger] entries_of(matchers[i])->0[j],
        ) == Some(command)
}

/// The healed matchers up to the `n`th.
proof fn lemma_healed_matchers(matchers: Seq<Doc>, command: Seq<char>, n: int)
    requires
        names_helper(command),
        0 <= n <= matchers.len(),
    ensures
        any_carries(healed_matchers(matchers, command).take(n)) == any_carries(matchers.take(n)),
        count_in(healed_matchers(matchers, command).take(n)) == if any_carries(matchers.take(n)) {
            1nat
        } else {
            0nat
        },
    decreases n,
{
    let once = healed_matchers(matchers, command);
    if n == 0 {
        assert(matchers.take(0) =~= once.take(0));
    } else {
        lemma_healed_matchers(matchers, command, n - 1);
        let here = matchers.take(n);
        let there = once.take(n);
        assert(here.drop_last() =~= matchers.take(n - 1));
        assert(there.drop_last() =~= once.take(n - 1));
        lemma_any_carries_push(here);
        lemma_any_carries_push(there);
        let found = any_carries(matchers.take(n - 1));
        lemma_healed_matcher(matchers[n - 1], found, command);
        if let Some(entries) = entries_of(matchers[n - 1]) {
            lemma_kept(entries, found, command);
        }
    }
}

proof fn lemma_with_ours(matchers: Seq<Doc>, command: Seq<char>)
    requires
        names_helper(command),
    ensures
        with_ours(with_ours(matchers, command), command) == with_ours(matchers, command),
        wired(with_ours(matchers, command), command),
{
    let once = with_ours(matchers, command);
    let len = matchers.len() as int;
    let healed_all = healed_matchers(matchers, command);
    lemma_new_matcher(command);
    lemma_healed_matchers(matchers, command, len);
    assert(matchers.take(len) =~= matchers);
    assert(healed_all.take(len) =~= healed_all);
    assert(once.take(len) =~= healed_all);
    if !any_carries(matchers) {
        lemma_any_carries_push(once);
        assert(once.drop_last() =~= healed_all);
        let added = entries_of(new_matcher(command))->0;
        assert(added.drop_last() =~= Seq::empty());
        assert(added.last() == added[0]);
        assert(count_ours(added.drop_last()) == 0);
        assert(count_ours(added) == 1);
    }
    assert(any_carries(once));
    assert forall|i: int| 0 <= i < once.len() implies healed_matcher(
        #[trigger] once[i],
        any_carries(once.take(i)),
        command,
    ) == once[i] by {
        if i < len {
            lemma_healed_matchers(matchers, command, i);
            assert(once.take(i) =~= healed_all.take(i));
            assert(once[i] == healed_all[i]);
            lemma_healed_matcher(matchers[i], any_carries(matchers.take(i)), command);
        } else {
            assert(!any_carries(once.take(i)));
        }
    }
    assert(healed_matchers(once, command) =~= once);
    assert forall|i: int, j: int|
        0 <= i < once.len() && entries_of(once[i]) is Some && 0 <= j < entries_of(once[i])->0.len()
            && is_ours(entries_of(once[i])->0[j]) implies command_of(
        #[trigger] entries_of(once[i])->0[j],
    ) == Some(command) by {
        if i < len {
            let m = matchers[i];
            let found = any_carries(matchers.take(i));
            assert(once[i] == healed_matcher(m, found, command));
            lemma_healed_matcher(m, found, command);
            if let Some(entries) = entries_of(m) {
                lemma_kept(entries, found, command);
                assert(entries_of(once[i])->0 == kept(entries, found, command));
            }
        }
    }
}

/// The matchers that a document has for an event.
pub open spec fn matchers_for(root: Doc, event: Seq<char>) -> Option<Seq<Doc>> {
    match json::get(root, "hooks"@) {
        Some(hooks) => match json::get(hooks, event) {
            Some(Doc::Array(matchers)) => Some(matchers),
            _ => None,
        },
        None => None,
    }
}

/// The events that we subscribe to.
pub open spec fn is_subscribed(event: Seq<char>) -> bool {
    event == "UserPromptSubmit"@ || event == "Stop"@ || event == "Notification"@
}

proof fn lemma_install_event_fixed(
    hooks: Seq<(Seq<char>, Doc)>,
    event: Seq<char>,
    command: Seq<char>,
)
    requires
        names_helper(command),
    ensures
        install_event(hooks, event, command) matches Some(after) ==> {
            &&& json::get(Doc::Object(after), event) matches Some(Doc::Array(matchers)) && wired(
                matchers,
                command,
            ) && with_ours(matchers, command) == matchers
        },
{
    match json::get(Doc::Object(hooks), event) {
        None => {
            json::lemma_put(hooks, event, Doc::Array(with_ours(Seq::empty(), command)), Seq::empty());
            lemma_with_ours(Seq::empty(), command);
        },
        Some(Doc::Array(matchers)) => {
            json::lemma_put(hooks, event, Doc::Array(with_ours(matchers, command)), Seq::empty());
            lemma_with_ours(matchers, command);
        },
        _ => {},
    }
}

/// Once installed, every event that we subscribe to carries exactly one entry of
/// ours, and it runs our command.
pub proof fn law_installing_wires_every_event(root: Doc, command: Seq<char>, event: Seq<char>)
    requires
        names_helper(command),
        is_subscribed(event),
    ensures
        installed(root, command) matches Some(doc) ==> (matchers_for(doc, event) matches Some(
            matchers,
        ) && wired(matchers, command)),
{
    if let Some(doc) = installed(root, command) {
        lemma_installed_hooks(root, command);
    }
}

proof fn lemma_installed_hooks(root: Doc, command: Seq<char>)
    requires
        names_helper(command),
        installed(root, command) is Some,
    ensures
        ({
            let doc = installed(root, command)->0;
            &&& doc is Object
            &&& json::get(doc, "hooks"@) matches Some(Doc::Object(hooks)) && install_events(
                hooks,
                command,
            ) == Some(hooks)
            &&& forall|event: Seq<char>| #[trigger]
                is_subscribed(event) ==> (matchers_for(doc, event) matches Some(matchers) && wired(
                    matchers,
                    command,
                ))
        }),
{
    lemma_event_names();
    let all = root->Object_0;
    let start = match json::get(root, "hooks"@) {
        Some(Doc::Object(hooks)) => hooks,
        _ => Seq::<(Seq<char>, Doc)>::empty(),
    };
    let (a, b, c) = ("UserPromptSubmit"@, "Stop"@, "Notification"@);
    let one = install_event(start, a, command)->0;
    let two = install_event(one, b, command)->0;
    let three = install_event(two, c, command)->0;
    json::lemma_put(all, "hooks"@, Doc::Object(three), Seq::empty());
    lemma_install_event_fixed(start, a, command);
    lemma_install_event_fixed(one, b, command);
    lemma_install_event_fixed(two, c, command);
    lemma_install_touches_one(one, b, command, a);
    lemma_install_touches_one(two, c, command, a);
    lemma_install_touches_one(two, c, command, b);
    // The three events keep their lists, so installing again puts back what is
    // there.
    let list_a = json::get(Doc::Object(three), a)->0;
    let list_b = json::get(Doc::Object(three), b)->0;
    let list_c = json::get(Doc::Object(three), c)->0;
    json::lemma_put(three, a, list_a, Seq::empty());
    json::lemma_put(three, b, list_b, Seq::empty());
    json::lemma_put(three, c, list_c, Seq::empty());
    assert(install_event(three, a, command) == Some(three));
    assert(install_event(three, b, command) == Some(three));
    assert(install_event(three, c, command) == Some(three));
}

/// Installing is idempotent: checking settings that were just written finds
/// nothing to write, so the watcher's cycle ends.
pub proof fn law_installing_again_changes_nothing(root: Doc, command: Seq<char>)
    requires
        names_helper(command),
    ensures
        installed(root, command) matches Some(doc) ==> installed(doc, command) == Some(doc),
{
    if let Some(doc) = installed(root, command) {
        lemma_installed_hooks(root, command);
        let hooks = json::get(doc, "hooks"@)->0;
        json::lemma_put(doc->Object_0, "hooks"@, hooks, Seq::empty());
    }
}

/// What is not a hook of ours is left alone: every key of the settings but
/// `hooks`, and every event that we do not subscribe to, keeps its value.
pub proof fn law_installing_leaves_the_rest_alone(
    root: Doc,
    command: Seq<char>,
    key: Seq<char>,
    event: Seq<char>,
)
    requires
        key != "hooks"@,
        !is_subscribed(event),
    ensures
        installed(root, command) matches Some(doc) ==> {
            &&& json::get(doc, key) == json::get(root, key)
            &&& matchers_for(doc, event) == matchers_for(root, event)
        },
{
    if let Some(doc) = installed(root, command) {
        let all = root->Object_0;
        let start = match json::get(root, "hooks"@) {
            Some(Doc::Object(hooks)) => hooks,
            _ => Seq::<(Seq<char>, Doc)>::empty(),
        };
        let (a, b, c) = ("UserPromptSubmit"@, "Stop"@, "Notification"@);
        let one = install_event(start, a, command)->0;
        let two = install_event(one, b, command)->0;
        let three = install_event(two, c, command)->0;
        json::lemma_put(all, "hooks"@, Doc::Object(three), key);
        lemma_install_touches_one(start, a, command, event);
        lemma_install_touches_one(one, b, command, event);
        lemma_install_touches_one(two, c, command, event);
    }
}

/// How many entries are ours.
pub open spec fn count_ours(entries: Seq<Doc>) -> nat
    decreases entries.len(),
{
    if entries.len() == 0 {
        0
    } else {
        count_ours(entries.drop_last()) + if is_ours(entries.last()) {
            1nat
        } else {
            0nat
        }
    }
}

/// How many entries of an event are ours.
pub open spec fn count_in(matchers: Seq<Doc>) -> nat
    decreases matchers.len(),
{
    if matchers.len() == 0 {
        0
    } else {
        count_in(matchers.drop_last()) + match entries_of(matchers.last()) {
            Some(entries) => count_ours(entries),
            None => 0,
        }
    }
}

/// However many entries of ours there were, installing leaves exactly one.
pub proof fn law_installing_leaves_exactly_one(matchers: Seq<Doc>, command: Seq<char>)
    requires
        names_helper(command),
    ensures
        count_in(with_ours(matchers, command)) == 1,
{
    lemma_with_ours(matchers, command);
}

/// The hooks of others stay, in their order and in their matchers.
pub proof fn law_installing_keeps_foreign_hooks(matchers: Seq<Doc>, command: Seq<char>, i: int)
    requires
        names_helper(command),
        0 <= i < matchers.len(),
    ensures
        ({
            let after = with_ours(matchers, command)[i];
            match entries_of(matchers[i]) {
                Some(entries) => entries_of(after) matches Some(left) && stripped(left) == stripped(
                    entries,
                ),
                None => after == matchers[i],
            }
        }),
        forall|key: Seq<char>|
            key != "hooks"@ ==> #[trigger] json::get(with_ours(matchers, command)[i], key)
                == json::get(matchers[i], key),
{
    let found = any_carries(matchers.take(i));
    lemma_healed_matcher(matchers[i], found, command);
    if let Some(entries) = entries_of(matchers[i]) {
        lemma_kept(entries, found, command);
        assert forall|key: Seq<char>| key != "hooks"@ implies #[trigger] json::get(
            with_ours(matchers, command)[i],
            key,
        ) == json::get(matchers[i], key) by {
            json::lemma_put(
                matchers[i]->Object_0,
                "hooks"@,
                Doc::Array(kept(entries, found, command)),
                key,
            );
        }
    }
}

/// The entries that are not ours.
pub open spec fn stripped(entries: Seq<Doc>) -> Seq<Doc>
    decreases entries.len(),
{
    if entries.len() == 0 {
        entries
    } else if is_ours(entries.last()) {
        stripped(entries.drop_last())
    } else {
        stripped(entries.drop_last()).push(entries.last())
    }
}

/// A matcher without our entries.
pub open spec fn stripped_matcher(matcher: Doc) -> Doc {
    match entries_of(matcher) {
        Some(entries) => with_entries(matcher, stripped(entries)),
        None => matcher,
    }
}

/// Whether a matcher has an empty list of entries.
pub open spec fn is_hollow(matcher: Doc) -> bool {
    entries_of(matcher) matches Some(entries) && entries.len() == 0
}

/// The matchers without our entries, and without those that are left empty.
pub open spec fn without_ours(matchers: Seq<Doc>) -> Seq<Doc>
    decreases matchers.len(),
{
    if matchers.len() == 0 {
        matchers
    } else {
        let last = stripped_matcher(matchers.last());
        if is_hollow(last) {
            without_ours(matchers.drop_last())
        } else {
            without_ours(matchers.drop_last()).push(last)
        }
    }
}

pub open spec fn remove_event(hooks: Seq<(Seq<char>, Doc)>, event: Seq<char>) -> Seq<
    (Seq<char>, Doc),
> {
    match json::get(Doc::Object(hooks), event) {
        Some(Doc::Array(matchers)) => json::put(hooks, event, Doc::Array(without_ours(matchers))),
        _ => hooks,
    }
}

pub open spec fn remove_events(hooks: Seq<(Seq<char>, Doc)>) -> Seq<(Seq<char>, Doc)> {
    remove_event(
        remove_event(remove_event(hooks, "UserPromptSubmit"@), "Stop"@),
        "Notification"@,
    )
}

/// The settings without our hooks.
pub open spec fn removed(root: Doc) -> Doc {
    match json::get(root, "hooks"@) {
        Some(Doc::Object(hooks)) => Doc::Object(
            json::put(root->Object_0, "hooks"@, Doc::Object(remove_events(hooks))),
        ),
        _ => root,
    }
}

proof fn lemma_stripped(entries: Seq<Doc>)
    ensures
        stripped(entries).len() <= entries.len(),
        stripped(entries) == entries <==> stripped(entries).len() == entries.len(),
        forall|i: int| 0 <= i < stripped(entries).len() ==> !is_ours(#[trigger] stripped(entries)[i]),
    decreases entries.len(),
{
    if entries.len() > 0 {
        let front = entries.drop_last();
        lemma_stripped(front);
        if !is_ours(entries.last()) {
            assert(front.push(entries.last()) =~= entries);
            let out = stripped(entries);
            assert forall|i: int| 0 <= i < out.len() implies !is_ours(#[trigger] out[i]) by {
                if i < stripped(front).len() {
                    assert(out[i] == stripped(front)[i]);
                }
            }
            if out == entries {
                assert(out.drop_last() =~= stripped(front));
                assert(entries.drop_last() == stripped(front));
            }
        }
    }
}

proof fn lemma_stripped_matcher(matcher: Doc)
    ensures
        !carries(stripped_matcher(matcher)),
        entries_of(matcher) matches Some(entries) ==> entries_of(stripped_matcher(matcher)) == Some(
            stripped(entries),
        ) && (stripped_matcher(matcher) == matcher <==> stripped(entries) == entries),
{
    if let Some(entries) = entries_of(matcher) {
        lemma_stripped(entries);
        json::lemma_put(matcher->Object_0, "hooks"@, Doc::Array(stripped(entries)), Seq::empty());
        if carries(stripped_matcher(matcher)) {
            let i = choose|i: int|
                0 <= i < stripped(entries).len() && is_ours(#[trigger] stripped(entries)[i]);
            assert(!is_ours(stripped(entries)[i]));
        }
    }
}

/// After removal no entry of ours is left for an event.
proof fn lemma_without_ours(matchers: Seq<Doc>)
    ensures
        !any_carries(without_ours(matchers)),
        without_ours(matchers).len() <= matchers.len(),
    decreases matchers.len(),
{
    if matchers.len() > 0 {
        let front = matchers.drop_last();
        lemma_without_ours(front);
        lemma_stripped_matcher(matchers.last());
        let out = without_ours(matchers);
        if any_carries(out) {
            let i = choose|i: int| 0 <= i < out.len() && carries(#[trigger] out[i]);
            if i < without_ours(front).len() {
                assert(carries(without_ours(front)[i]));
            }
        }
    }
}

/// Takes our entries out of a list.
fn strip_entries(entries: Vec<Json>) -> (r: Vec<Json>)
    ensures
        json::values(r@) == stripped(json::values(entries@)),
{
    let ghost all = entries@;
    let mut out: Vec<Json> = Vec::new();
    assert(json::values(all).take(0) =~= Seq::empty());
    assert(json::values(out@) =~= Seq::empty());
    for entry in it: entries
        invariant
            it.seq() == all,
            json::values(out@) == stripped(json::values(all).take(it.index() as int)),
    {
        let ghost n = it.index() as int;
        assert(entry == all[n]);
        assert(json::values(all).take(n + 1).drop_last() =~= json::values(all).take(n));
        assert(json::values(all).take(n + 1).last() == entry.value());
        if !entry_is_ours(&entry) {
            let ghost before = json::values(out@);
            let ghost value = entry.value();
            out.push(entry);
            assert(json::values(out@) =~= before.push(value));
        }
    }
    assert(json::values(all).take(all.len() as int) =~= json::values(all));
    out
}

/// Whether a hook entry runs our helper.
fn entry_is_ours(entry: &Json) -> (r: bool)
    ensures
        r == is_ours(entry.value()),
{
    match entry {
        Json::Object(v) => {
            proof {
                json::lemma_object_value(*v);
                json::lemma_key_from(json::pairs(v@), "command"@, 0);
            }
            match json::find_key(v, "command") {
                Some(i) => {
                    assert(json::pairs(v@)[i as int] == json::pair_value(v@[i as int]));
                    match &v[i].1 {
                        Json::Str(s) => is_helper(s.as_str()),
                        _ => false,
                    }
                },
                None => false,
            }
        },
        _ => false,
    }
}

/// Takes our entries out of a matcher: the matcher, whether its list of entries
/// is empty, and whether it was changed.
fn strip_matcher(matcher: Json) -> (r: (Json, bool, bool))
    ensures
        r.0.value() == stripped_matcher(matcher.value()),
        r.1 == is_hollow(r.0.value()),
        r.2 == (r.0.value() != matcher.value()),
{
    match matcher {
        Json::Object(mut v) => {
            let ghost before = json::pairs(v@);
            let ghost whole = Json::Object(v).value();
            proof {
                json::lemma_object_value(v);
                json::lemma_key_from(before, "hooks"@, 0);
                lemma_stripped_matcher(whole);
            }
            if let Some(i) = json::find_key(&v, "hooks") {
                assert(json::pairs(v@)[i as int] == json::pair_value(v@[i as int]));
                let (key, held) = v.remove(i);
                match held {
                    Json::Array(entries) => {
                        proof {
                            json::lemma_array_value(entries);
                            lemma_stripped(json::values(entries@));
                        }
                        let count: usize = entries.len();
                        let kept = strip_entries(entries);
                        let changed = kept.len() != count;
                        let hollow = kept.len() == 0;
                        assert(json::values(kept@).len() == kept@.len());
                        proof {
                            json::lemma_array_value(kept);
                            json::lemma_put(before, "hooks"@, Doc::Array(json::values(kept@)), Seq::empty());
                        }
                        v.insert(i, (key, Json::Array(kept)));
                        proof {
                            json::lemma_object_value(v);
                            assert(json::pairs(v@) =~= before.update(
                                i as int,
                                ("hooks"@, Doc::Array(json::values(kept@))),
                            ));
                        }
                        return (Json::Object(v), hollow, changed);
                    },
                    other => {
                        v.insert(i, (key, other));
                        proof {
                            json::lemma_object_value(v);
                            assert(json::pairs(v@) =~= before);
                        }
                        return (Json::Object(v), false, false);
                    },
                }
            }
            (Json::Object(v), false, false)
        },
        other => (other, false, false),
    }
}

proof fn lemma_without_same(matchers: Seq<Doc>)
    ensures
        without_ours(matchers) == matchers <==> forall|i: int|
            0 <= i < matchers.len() ==> stripped_matcher(#[trigger] matchers[i]) == matchers[i]
                && !is_hollow(matchers[i]),
    decreases matchers.len(),
{
    lemma_without_ours(matchers);
    if matchers.len() > 0 {
        let front = matchers.drop_last();
        lemma_without_same(front);
        lemma_without_ours(front);
        let last = stripped_matcher(matchers.last());
        let out = without_ours(matchers);
        if out == matchers {
            assert(out.len() == matchers.len());
            assert(!is_hollow(last));
            assert(out.drop_last() =~= without_ours(front));
            assert(out.drop_last() == front);
            assert(out.last() == matchers.last());
            assert forall|i: int| 0 <= i < matchers.len() implies stripped_matcher(
                #[trigger] matchers[i],
            ) == matchers[i] && !is_hollow(matchers[i]) by {
                if i < front.len() {
                    assert(front[i] == matchers[i]);
                }
            }
        }
        if forall|i: int|
            0 <= i < matchers.len() ==> stripped_matcher(#[trigger] matchers[i]) == matchers[i]
                && !is_hollow(matchers[i]) {
            assert forall|i: int| 0 <= i < front.len() implies stripped_matcher(
                #[trigger] front[i],
            ) == front[i] && !is_hollow(front[i]) by {
                assert(front[i] == matchers[i]);
            }
            assert(matchers[matchers.len() - 1] == matchers.last());
            assert(front.push(matchers.last()) =~= matchers);
        }
    }
}

/// Takes our entries out of the matchers of an event, and drops those that are
/// left empty. Says whether anything was changed.
fn strip_matchers(matchers: Vec<Json>) -> (r: (Vec<Json>, bool))
    ensures
        json::values(r.0@) == without_ours(json::values(matchers@)),
        r.1 == (json::values(r.0@) != json::values(matchers@)),
{
    let ghost all = matchers@;
    let ghost docs = json::values(all);
    let mut out: Vec<Json> = Vec::new();
    let mut changed = false;
    assert(docs.take(0) =~= Seq::empty());
    assert(json::values(out@) =~= Seq::empty());
    for matcher in it: matchers
        invariant
            it.seq() == all,
            docs == json::values(all),
            json::values(out@) == without_ours(docs.take(it.index() as int)),
            changed == !(forall|i: int|
                0 <= i < it.index() ==> stripped_matcher(#[trigger] docs[i]) == docs[i]
                    && !is_hollow(docs[i])),
    {
        let ghost n = it.index() as int;
        assert(matcher == all[n]);
        assert(docs[n] == matcher.value());
        assert(docs.take(n + 1).drop_last() =~= docs.take(n));
        assert(docs.take(n + 1).last() == matcher.value());
        let (kept, hollow, differs) = strip_matcher(matcher);
        if hollow {
            changed = true;
        } else {
            let ghost before = json::values(out@);
            let ghost value = kept.value();
            out.push(kept);
            assert(json::values(out@) =~= before.push(value));
            if differs {
                changed = true;
            }
        }
    }
    assert(docs.take(docs.len() as int) =~= docs);
    proof {
        lemma_without_same(docs);
    }
    (out, changed)
}

/// Takes our entries out of the hooks for `event`.
fn remove_for_event(hooks: Vec<(String, Json)>, event: &str) -> (r: (Vec<(String, Json)>, bool))
    ensures
        json::pairs(r.0@) == remove_event(json::pairs(hooks@), event@),
        r.1 == (json::pairs(r.0@) != json::pairs(hooks@)),
{
    let mut v = hooks;
    let ghost before = json::pairs(v@);
    proof {
        json::lemma_key_from(before, event@, 0);
    }
    match json::find_key(&v, event) {
        Some(i) => {
            assert(json::pairs(v@)[i as int] == json::pair_value(v@[i as int]));
            let (key, held) = v.remove(i);
            match held {
                Json::Array(matchers) => {
                    proof {
                        json::lemma_array_value(matchers);
                    }
                    let (kept, changed) = strip_matchers(matchers);
                    proof {
                        json::lemma_array_value(kept);
                        json::lemma_put(before, event@, Doc::Array(json::values(kept@)), Seq::empty());
                    }
                    v.insert(i, (key, Json::Array(kept)));
                    assert(json::pairs(v@) =~= before.update(
                        i as int,
                        (event@, Doc::Array(json::values(kept@))),
                    ));
                    (v, changed)
                },
                other => {
                    v.insert(i, (key, other));
                    assert(json::pairs(v@) =~= before);
                    (v, false)
                },
            }
        },
        None => (v, false),
    }
}

pub(crate) proof fn lemma_remove_touches_one(
    hooks: Seq<(Seq<char>, Doc)>,
    event: Seq<char>,
    other: Seq<char>,
)
    requires
        other != event,
    ensures
        json::get(Doc::Object(remove_event(hooks, event)), other) == json::get(Doc::Object(hooks), other),
        remove_event(hooks, event) != hooks <==> json::get(
            Doc::Object(remove_event(hooks, event)),
            event,
        ) != json::get(Doc::Object(hooks), event),
{
    if let Some(Doc::Array(matchers)) = json::get(Doc::Object(hooks), event) {
        json::lemma_put(hooks, event, Doc::Array(without_ours(matchers)), other);
    }
}

proof fn lemma_remove_changes(hooks: Seq<(Seq<char>, Doc)>)
    ensures
        ({
            let one = remove_event(hooks, "UserPromptSubmit"@);
            let two = remove_event(one, "Stop"@);
            let three = remove_event(two, "Notification"@);
            (one != hooks || two != one || three != two) <==> three != hooks
        }),
{
    lemma_event_names();
    let (a, b, c) = ("UserPromptSubmit"@, "Stop"@, "Notification"@);
    let one = remove_event(hooks, a);
    let two = remove_event(one, b);
    let three = remove_event(two, c);
    lemma_remove_touches_one(hooks, a, b);
    lemma_remove_touches_one(hooks, a, c);
    lemma_remove_touches_one(one, b, a);
    lemma_remove_touches_one(one, b, c);
    lemma_remove_touches_one(two, c, a);
    lemma_remove_touches_one(two, c, b);
}

/// Strips every nebula-hook entry (and matchers left empty): the document, and
/// whether it has to be written.
pub fn remove_hooks(root: Json) -> (r: (Json, bool))
    ensures
        r.0.value() == removed(root.value()),
        r.1 == (r.0.value() != root.value()),
{
    match root {
        Json::Object(mut v) => {
            let ghost before = json::pairs(v@);
            proof {
                json::lemma_object_value(v);
                json::lemma_key_from(before, "hooks"@, 0);
            }
            if let Some(i) = json::find_key(&v, "hooks") {
                assert(json::pairs(v@)[i as int] == json::pair_value(v@[i as int]));
                let (key, held) = v.remove(i);
                match held {
                    Json::Object(hooks) => {
                        proof {
                            json::lemma_object_value(hooks);
                            lemma_remove_changes(json::pairs(hooks@));
                        }
                        let (one, a) = remove_for_event(hooks, "UserPromptSubmit");
                        let (two, b) = remove_for_event(one, "Stop");
                        let (three, c) = remove_for_event(two, "Notification");
                        proof {
                            json::lemma_object_value(three);
                            json::lemma_put(before, "hooks"@, Doc::Object(json::pairs(three@)), Seq::empty());
                        }
                        v.insert(i, (key, Json::Object(three)));
                        proof {
                            json::lemma_object_value(v);
                            assert(json::pairs(v@) =~= before.update(
                                i as int,
                                ("hooks"@, Doc::Object(json::pairs(three@))),
                            ));
                        }
                        return (Json::Object(v), a || b || c);
                    },
                    other => {
                        v.insert(i, (key, other));
                        proof {
                            json::lemma_object_value(v);
                            assert(json::pairs(v@) =~= before);
                        }
                        return (Json::Object(v), false);
                    },
                }
            }
            (Json::Object(v), false)
        },
        other => (other, false),
    }
}

/// After removal no entry of ours is left for any event that we subscribe to.
pub proof fn law_removal_leaves_none_of_ours(root: Doc, event: Seq<char>)
    requires
        is_subscribed(event),
    ensures
        matchers_for(removed(root), event) matches Some(matchers) ==> !any_carries(matchers),
{
    if let Some(Doc::Object(hooks)) = json::get(root, "hooks"@) {
        lemma_event_names();
        let (a, b, c) = ("UserPromptSubmit"@, "Stop"@, "Notification"@);
        let one = remove_event(hooks, a);
        let two = remove_event(one, b);
        let three = remove_event(two, c);
        json::lemma_put(root->Object_0, "hooks"@, Doc::Object(three), Seq::empty());
        lemma_event_stripped(hooks, a);
        lemma_event_stripped(one, b);
        lemma_event_stripped(two, c);
        lemma_remove_touches_one(one, b, a);
        lemma_remove_touches_one(two, c, a);
        lemma_remove_touches_one(two, c, b);
    }
}

proof fn lemma_event_stripped(hooks: Seq<(Seq<char>, Doc)>, event: Seq<char>)
    ensures
        json::get(Doc::Object(remove_event(hooks, event)), event) matches Some(Doc::Array(matchers))
            ==> !any_carries(matchers),
{
    if let Some(Doc::Array(matchers)) = json::get(Doc::Object(hooks), event) {
        json::lemma_put(hooks, event, Doc::Array(without_ours(matchers)), Seq::empty());
        lemma_without_ours(matchers);
    }
}

/// Whether documents are all settled.
spec fn all_settled(docs: Seq<Doc>, depth: nat) -> bool {
    forall|i: int| 0 <= i < docs.len() ==> json::is_settled(#[trigger] docs[i], depth)
}

proof fn lemma_settled_entries(matcher: Doc, depth: nat)
    requires
        json::is_settled(matcher, depth),
        entries_of(matcher) is Some,
    ensures
        depth > 1,
        matcher is Object,
        all_settled(entries_of(matcher)->0, (depth - 2) as nat),
{
    json::lemma_settled_get(matcher, "hooks"@, depth);
}

proof fn lemma_settled_with(matcher: Doc, entries: Seq<Doc>, depth: nat)
    requires
        json::is_settled(matcher, depth),
        entries_of(matcher) is Some,
        depth > 1,
        all_settled(entries, (depth - 2) as nat),
    ensures
        json::is_settled(with_entries(matcher, entries), depth),
{
    lemma_settled_entries(matcher, depth);
    json::lemma_settled_put(matcher->Object_0, "hooks"@, Doc::Array(entries), depth);
}

proof fn lemma_settled_kept(entries: Seq<Doc>, found: bool, command: Seq<char>, depth: nat)
    requires
        all_settled(entries, depth),
    ensures
        all_settled(kept(entries, found, command), depth),
    decreases entries.len(),
{
    if entries.len() > 0 {
        let front = entries.drop_last();
        let last = entries.last();
        assert forall|i: int| 0 <= i < front.len() implies json::is_settled(
            #[trigger] front[i],
            depth,
        ) by {
            assert(front[i] == entries[i]);
        }
        lemma_settled_kept(front, found, command, depth);
        assert(json::is_settled(entries[entries.len() - 1], depth));
        if is_ours(last) {
            json::lemma_settled_get(last, "command"@, depth);
            json::lemma_settled_put(last->Object_0, "command"@, Doc::Str(command), depth);
        }
        let before = kept(front, found, command);
        let out = kept(entries, found, command);
        assert forall|i: int| 0 <= i < out.len() implies json::is_settled(
            #[trigger] out[i],
            depth,
        ) by {
            if i < before.len() {
                assert(out[i] == before[i]);
            }
        }
    }
}

proof fn lemma_ten()
    ensures
        json::is_whole("10"@),
{
    reveal_strlit("10");
    let n: u64 = 10;
    assert(text::digits_of(1) =~= seq!['1']);
    assert(text::digits_of(10) =~= seq!['1', '0']) by {
        assert(10nat / 10 == 1);
        assert(10nat % 10 == 0);
    }
    assert("10"@ =~= seq!['1', '0']);
    assert("10"@ == text::digits_of(n as nat));
}

proof fn lemma_settled_new(command: Seq<char>, depth: nat)
    requires
        depth >= 3,
    ensures
        json::is_settled(new_matcher(command), depth),
{
    lemma_ten();
    reveal_strlit("command");
    reveal_strlit("timeout");
    reveal_strlit("type");
    assert("command"@[0] == 'c' && "timeout"@[0] == 't' && "type"@[0] == 't');
    assert("timeout"@[1] == 'i' && "type"@[1] == 'y');
    assert("timeout"@.len() == 7 && "type"@.len() == 4 && "command"@.len() == 7);
    assert(text::lex_lt("command"@, "timeout"@));
    assert(text::lex_lt("command"@, "type"@));
    assert("timeout"@.drop_first()[0] == 'i' && "type"@.drop_first()[0] == 'y');
    assert(text::lex_lt("timeout"@.drop_first(), "type"@.drop_first()));
    assert(text::lex_lt("timeout"@, "type"@));
    let entry = Doc::Object(
        seq![
            ("command"@, Doc::Str(command)),
            ("timeout"@, Doc::Number("10"@)),
            ("type"@, Doc::Str("command"@)),
        ],
    );
    let leaf = (depth - 3) as nat;
    assert(json::is_settled(Doc::Str(command), leaf));
    assert(json::is_settled(Doc::Number("10"@), leaf));
    assert(json::is_settled(Doc::Str("command"@), leaf));
    assert(json::keys_ascend(entry->Object_0));
    assert(json::is_settled(entry, (depth - 2) as nat));
    assert(json::is_settled(Doc::Array(seq![entry]), (depth - 1) as nat));
}

proof fn lemma_settled_ours(matchers: Seq<Doc>, command: Seq<char>, depth: nat)
    requires
        all_settled(matchers, depth),
        depth >= 3,
    ensures
        all_settled(with_ours(matchers, command), depth),
{
    let out = with_ours(matchers, command);
    lemma_settled_new(command, depth);
    assert forall|i: int| 0 <= i < out.len() implies json::is_settled(#[trigger] out[i], depth) by {
        if i < matchers.len() {
            let m = matchers[i];
            let found = any_carries(matchers.take(i));
            assert(json::is_settled(m, depth));
            assert(out[i] == healed_matcher(m, found, command));
            if let Some(entries) = entries_of(m) {
                lemma_settled_entries(m, depth);
                lemma_settled_kept(entries, found, command, (depth - 2) as nat);
                lemma_settled_with(m, kept(entries, found, command), depth);
            }
        }
    }
}

proof fn lemma_settled_event(
    hooks: Seq<(Seq<char>, Doc)>,
    event: Seq<char>,
    command: Seq<char>,
    depth: nat,
)
    requires
        json::is_settled(Doc::Object(hooks), depth),
        depth >= 5,
    ensures
        install_event(hooks, event, command) matches Some(after) ==> json::is_settled(
            Doc::Object(after),
            depth,
        ),
{
    let old_list = match json::get(Doc::Object(hooks), event) {
        Some(Doc::Array(matchers)) => matchers,
        _ => Seq::empty(),
    };
    if json::get(Doc::Object(hooks), event) is Some {
        json::lemma_settled_get(Doc::Object(hooks), event, depth);
    }
    assert(all_settled(old_list, (depth - 2) as nat));
    lemma_settled_ours(old_list, command, (depth - 2) as nat);
    json::lemma_settled_put(hooks, event, Doc::Array(with_ours(old_list, command)), depth);
}

/// Installing leaves settled documents settled, so that what is written reads
/// back, and settings that were just written are kept.
pub proof fn law_written_settings_are_kept(root: Doc, command: Seq<char>)
    requires
        names_helper(command),
        json::is_settled(root, 127),
    ensures
        installed(root, command) matches Some(doc) ==> json::is_settled(doc, 127) && installed(
            doc,
            command,
        ) == Some(doc),
{
    if let Some(doc) = installed(root, command) {
        law_installing_again_changes_nothing(root, command);
        let start = match json::get(root, "hooks"@) {
            Some(Doc::Object(hooks)) => hooks,
            _ => Seq::<(Seq<char>, Doc)>::empty(),
        };
        if json::get(root, "hooks"@) is Some {
            json::lemma_settled_get(root, "hooks"@, 127);
        }
        assert(json::is_settled(Doc::Object(start), 126));
        let one = install_event(start, "UserPromptSubmit"@, command)->0;
        let two = install_event(one, "Stop"@, command)->0;
        let three = install_event(two, "Notification"@, command)->0;
        lemma_settled_event(start, "UserPromptSubmit"@, command, 126);
        lemma_settled_event(one, "Stop"@, command, 126);
        lemma_settled_event(two, "Notification"@, command, 126);
        json::lemma_settled_put(root->Object_0, "hooks"@, Doc::Object(three), 127);
    }
}

proof fn lemma_settled_stripped(entries: Seq<Doc>, depth: nat)
    requires
        all_settled(entries, depth),
    ensures
        all_settled(stripped(entries), depth),
    decreases entries.len(),
{
    if entries.len() > 0 {
        let front = entries.drop_last();
        assert forall|i: int| 0 <= i < front.len() implies json::is_settled(
            #[trigger] front[i],
            depth,
        ) by {
            assert(front[i] == entries[i]);
        }
        lemma_settled_stripped(front, depth);
        assert(json::is_settled(entries[entries.len() - 1], depth));
        let out = stripped(entries);
        assert forall|i: int| 0 <= i < out.len() implies json::is_settled(
            #[trigger] out[i],
            depth,
        ) by {
            if i < stripped(front).len() {
                assert(out[i] == stripped(front)[i]);
            }
        }
    }
}

proof fn lemma_settled_without(matchers: Seq<Doc>, depth: nat)
    requires
        all_settled(matchers, depth),
    ensures
        all_settled(without_ours(matchers), depth),
    decreases matchers.len(),
{
    if matchers.len() > 0 {
        let front = matchers.drop_last();
        let m = matchers.last();
        assert forall|i: int| 0 <= i < front.len() implies json::is_settled(
            #[trigger] front[i],
            depth,
        ) by {
            assert(front[i] == matchers[i]);
        }
        lemma_settled_without(front, depth);
        assert(json::is_settled(matchers[matchers.len() - 1], depth));
        if let Some(entries) = entries_of(m) {
            lemma_settled_entries(m, depth);
            lemma_settled_stripped(entries, (depth - 2) as nat);
            lemma_settled_with(m, stripped(entries), depth);
        }
        let out = without_ours(matchers);
        assert forall|i: int| 0 <= i < out.len() implies json::is_settled(
            #[trigger] out[i],
            depth,
        ) by {
            if i < without_ours(front).len() {
                assert(out[i] == without_ours(front)[i]);
            }
        }
    }
}

proof fn lemma_settled_removal(hooks: Seq<(Seq<char>, Doc)>, event: Seq<char>, depth: nat)
    requires
        json::is_settled(Doc::Object(hooks), depth),
    ensures
        json::is_settled(Doc::Object(remove_event(hooks, event)), depth),
{
    if let Some(Doc::Array(matchers)) = json::get(Doc::Object(hooks), event) {
        json::lemma_settled_get(Doc::Object(hooks), event, depth);
        lemma_settled_without(matchers, (depth - 2) as nat);
        json::lemma_settled_put(hooks, event, Doc::Array(without_ours(matchers)), depth);
    }
}

/// Removal leaves settled documents settled, so that what is written reads back.
pub proof fn law_settings_without_hooks_read_back(root: Doc)
    requires
        json::is_settled(root, 127),
    ensures
        json::is_settled(removed(root), 127),
{
    if let Some(Doc::Object(hooks)) = json::get(root, "hooks"@) {
        json::lemma_settled_get(root, "hooks"@, 127);
        let one = remove_event(hooks, "UserPromptSubmit"@);
        let two = remove_event(one, "Stop"@);
        lemma_settled_removal(hooks, "UserPromptSubmit"@, 126);
        lemma_settled_removal(one, "Stop"@, 126);
        lemma_settled_removal(two, "Notification"@, 126);
        json::lemma_settled_put(root->Object_0, "hooks"@, Doc::Object(remove_events(hooks)), 127);
    }
}

/// The document in a settings file: an empty object where there is no file.
pub open spec fn settings_in(raw: Option<Seq<char>>) -> Option<Doc> {
    match raw {
        Some(raw) => json::json_doc(raw),
        None => Some(Doc::Object(Seq::empty())),
    }
}

pub open spec fn optional_text(s: Option<&str>) -> Option<Seq<char>> {
    match s {
        Some(s) => Some(s@),
        None => None,
    }
}

/// Installs our hooks into the text of the settings, or into new settings where
/// there are none.
pub fn install_text(raw: Option<&str>, command: &str) -> (r: JsonEdit)
    ensures
        json::is_edit(
            r,
            settings_in(optional_text(raw)),
            match settings_in(optional_text(raw)) {
                Some(doc) => installed(doc, command@),
                None => None,
            },
        ),
        settings_in(optional_text(raw)) matches Some(doc) ==> json::reads_back(
            r,
            installed(doc, command@),
        ),
{
    let root = match raw {
        Some(raw) => match json::read_json(raw) {
            Some(root) => root,
            None => return JsonEdit::Invalid,
        },
        None => {
            let empty: Vec<(String, Json)> = Vec::new();
            proof {
                json::lemma_object_value(empty);
                assert(json::pairs(empty@) =~= Seq::empty());
            }
            Json::Object(empty)
        },
    };
    match install_into(root, command) {
        Some((doc, changed)) => if changed {
            JsonEdit::Write(json::write_json(&doc))
        } else {
            JsonEdit::Keep
        },
        None => JsonEdit::Refused,
    }
}

/// Takes our hooks out of the text of the settings.
pub fn remove_text(raw: &str) -> (r: JsonEdit)
    ensures
        json::is_edit(
            r,
            json::json_doc(raw@),
            match json::json_doc(raw@) {
                Some(doc) => Some(removed(doc)),
                None => None,
            },
        ),
        json::json_doc(raw@) matches Some(doc) ==> json::reads_back(r, Some(removed(doc))),
{
    match json::read_json(raw) {
        Some(root) => {
            let (doc, changed) = remove_hooks(root);
            if changed {
                JsonEdit::Write(json::write_json(&doc))
            } else {
                JsonEdit::Keep
            }
        },
        None => JsonEdit::Invalid,
    }
}

} // verus!
