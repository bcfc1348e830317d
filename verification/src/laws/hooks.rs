//! Installing our hooks, and taking them out again.

use vstd::prelude::*;

use crate::ai_hook::claude;
use crate::ai_hook::json;
use crate::ai_hook::json::Doc;
use crate::laws::words;

verus! {

/// What stands under a key is the value of its first place; there is nothing under
/// a key that has none, nor in anything but an object.
pub proof fn law_first_key_counts(doc: Doc, key: Seq<char>)
    ensures
        match json::get(doc, key) {
            Some(value) => doc matches Doc::Object(pairs) && exists|i: int|
                0 <= i < pairs.len() && #[trigger] pairs[i] == (key, value) && forall|j: int|
                    0 <= j < i ==> (#[trigger] pairs[j]).0 != key,
            None => doc matches Doc::Object(pairs) ==> forall|j: int|
                0 <= j < pairs.len() ==> (#[trigger] pairs[j]).0 != key,
        },
{
    if let Doc::Object(pairs) = doc {
        json::lemma_key_from(pairs, key, 0);
        if let Some(i) = json::key_at(pairs, key) {
            assert(pairs[i] == (key, pairs[i].1));
        }
    }
}

/// Whether an entry runs our helper: its command is a text that names it.
pub open spec fn is_mine(entry: Doc) -> bool {
    json::get(entry, "command"@) matches Some(Doc::Str(s)) && words::holds(s, "nebula-hook"@)
}

/// An entry is taken for ours exactly where its command names the helper.
pub proof fn law_our_entries_name_the_helper(entry: Doc)
    ensures
        claude::is_ours(entry) <==> is_mine(entry),
{
    if let Some(Doc::Str(s)) = json::get(entry, "command"@) {
        words::law_found_where_it_stands(s, "nebula-hook"@);
    }
}

/// The entries of a matcher.
pub open spec fn list_of(matcher: Doc) -> Option<Seq<Doc>> {
    match json::get(matcher, "hooks"@) {
        Some(Doc::Array(entries)) => Some(entries),
        _ => None,
    }
}

/// The entries of others in a list.
pub open spec fn foreign(entries: Seq<Doc>) -> Seq<Doc> {
    entries.filter(|e: Doc| !is_mine(e))
}

/// The entries of ours in a list.
pub open spec fn own(entries: Seq<Doc>) -> Seq<Doc> {
    entries.filter(|e: Doc| is_mine(e))
}

/// The entries of others in a matcher.
pub open spec fn foreign_in(matcher: Doc) -> Seq<Doc> {
    match list_of(matcher) {
        Some(entries) => foreign(entries),
        None => Seq::empty(),
    }
}

/// The entries of ours in a matcher.
pub open spec fn own_in(matcher: Doc) -> Seq<Doc> {
    match list_of(matcher) {
        Some(entries) => own(entries),
        None => Seq::empty(),
    }
}

/// Whether a matcher has a list with nothing of others in it.
pub open spec fn is_spent(matcher: Doc) -> bool {
    list_of(matcher) matches Some(entries) && foreign(entries).len() == 0
}

/// Whether `after` is `before` with another list of entries: every other key keeps
/// its place and its value.
pub open spec fn is_same_but_list(before: Doc, after: Doc) -> bool {
    &&& before is Object
    &&& after is Object
    &&& before->Object_0.len() == after->Object_0.len()
    &&& forall|i: int|
        #![trigger after->Object_0[i]]
        0 <= i < before->Object_0.len() ==> after->Object_0[i].0 == before->Object_0[i].0 && (
        before->Object_0[i].0 != "hooks"@ ==> after->Object_0[i] == before->Object_0[i])
}

proof fn lemma_stripped_is_foreign(entries: Seq<Doc>)
    ensures
        claude::stripped(entries) == foreign(entries),
    decreases entries.len(),
{
    reveal(Seq::filter);
    if entries.len() > 0 {
        lemma_stripped_is_foreign(entries.drop_last());
        law_our_entries_name_the_helper(entries.last());
    } else {
        assert(claude::stripped(entries) =~= foreign(entries));
    }
}

proof fn lemma_with_entries(matcher: Doc, entries: Seq<Doc>)
    requires
        list_of(matcher) is Some,
    ensures
        is_same_but_list(matcher, claude::with_entries(matcher, entries)),
        list_of(claude::with_entries(matcher, entries)) == Some(entries),
{
    json::lemma_key_from(matcher->Object_0, "hooks"@, 0);
    json::lemma_put(matcher->Object_0, "hooks"@, Doc::Array(entries), Seq::empty());
}

/// Whether removal made `after` out of a matcher that stays.
pub open spec fn is_cleaned(before: Doc, after: Doc) -> bool {
    match list_of(before) {
        Some(entries) => is_same_but_list(before, after) && list_of(after) == Some(
            foreign(entries),
        ),
        None => after == before,
    }
}

/// Removal keeps every matcher in which others have an entry, or which has no list
/// at all, in their order. Only our entries are taken out of them, and only the
/// matchers that are left without any entry are dropped.
pub proof fn law_removal_takes_out_nothing_else(matchers: Seq<Doc>)
    ensures
        ({
            let left = matchers.filter(|m: Doc| !is_spent(m));
            let after = claude::without_ours(matchers);
            &&& after.len() == left.len()
            &&& forall|i: int| 0 <= i < left.len() ==> is_cleaned(left[i], #[trigger] after[i])
        }),
    decreases matchers.len(),
{
    reveal(Seq::filter);
    if matchers.len() > 0 {
        let last = matchers.last();
        law_removal_takes_out_nothing_else(matchers.drop_last());
        if let Some(entries) = list_of(last) {
            lemma_stripped_is_foreign(entries);
            lemma_with_entries(last, foreign(entries));
        }
        let keep = |m: Doc| !is_spent(m);
        let left = matchers.filter(keep);
        let front = matchers.drop_last().filter(keep);
        let after = claude::without_ours(matchers);
        let before = claude::without_ours(matchers.drop_last());
        assert(claude::is_hollow(claude::stripped_matcher(last)) <==> is_spent(last));
        assert forall|i: int| 0 <= i < left.len() implies is_cleaned(
            left[i],
            #[trigger] after[i],
        ) by {
            if i < front.len() {
                assert(after[i] == before[i]);
                assert(left[i] == front[i]);
            }
        }
    }
}

/// The entries of others among the matchers of an event, one after the other.
pub open spec fn all_foreign(matchers: Seq<Doc>) -> Seq<Doc>
    decreases matchers.len(),
{
    if matchers.len() == 0 {
        Seq::empty()
    } else {
        all_foreign(matchers.drop_last()) + foreign_in(matchers.last())
    }
}

/// The entries of ours among the matchers of an event, one after the other.
pub open spec fn all_own(matchers: Seq<Doc>) -> Seq<Doc>
    decreases matchers.len(),
{
    if matchers.len() == 0 {
        Seq::empty()
    } else {
        all_own(matchers.drop_last()) + own_in(matchers.last())
    }
}

proof fn lemma_foreign_again(entries: Seq<Doc>)
    ensures
        foreign(foreign(entries)) == foreign(entries),
        own(foreign(entries)) == Seq::<Doc>::empty(),
    decreases entries.len(),
{
    reveal(Seq::filter);
    if entries.len() > 0 {
        lemma_foreign_again(entries.drop_last());
        let f = foreign(entries.drop_last());
        if !is_mine(entries.last()) {
            assert(f.push(entries.last()).drop_last() =~= f);
        }
    }
}

/// The entries of others are the same before and after removal, in the same order,
/// and none of ours is left.
pub proof fn law_removal_keeps_the_entries_of_others(matchers: Seq<Doc>)
    ensures
        all_foreign(claude::without_ours(matchers)) == all_foreign(matchers),
        all_own(claude::without_ours(matchers)) == Seq::<Doc>::empty(),
    decreases matchers.len(),
{
    if matchers.len() > 0 {
        let last = matchers.last();
        let before = claude::without_ours(matchers.drop_last());
        law_removal_keeps_the_entries_of_others(matchers.drop_last());
        if let Some(entries) = list_of(last) {
            lemma_stripped_is_foreign(entries);
            lemma_with_entries(last, foreign(entries));
            lemma_foreign_again(entries);
        }
        let stripped = claude::stripped_matcher(last);
        if !claude::is_hollow(stripped) {
            assert(before.push(stripped).drop_last() =~= before);
        }
        assert(all_foreign(claude::without_ours(matchers)) =~= all_foreign(matchers));
        assert(all_own(claude::without_ours(matchers)) =~= Seq::<Doc>::empty());
    }
}

/// What a document holds for an event.
pub open spec fn event_of(root: Doc, event: Seq<char>) -> Option<Doc> {
    match json::get(root, "hooks"@) {
        Some(hooks) => json::get(hooks, event),
        None => None,
    }
}

/// The lists of the three events that we listen to are cleaned; every other event,
/// whatever is no list, and every other key of the settings keeps its value.
pub proof fn law_removal_cleans_our_events(root: Doc, event: Seq<char>, key: Seq<char>)
    requires
        key != "hooks"@,
        json::get(root, "hooks"@) is None || json::get(root, "hooks"@)->0 is Object,
    ensures
        json::get(claude::removed(root), key) == json::get(root, key),
        event_of(claude::removed(root), event) == match event_of(root, event) {
            Some(Doc::Array(matchers)) => if event == "UserPromptSubmit"@ || event == "Stop"@
                || event == "Notification"@ {
                Some(Doc::Array(claude::without_ours(matchers)))
            } else {
                Some(Doc::Array(matchers))
            },
            other => other,
        },
{
    if let Some(Doc::Object(hooks)) = json::get(root, "hooks"@) {
        claude::lemma_event_names();
        let (a, b, c) = ("UserPromptSubmit"@, "Stop"@, "Notification"@);
        let one = claude::remove_event(hooks, a);
        let two = claude::remove_event(one, b);
        let three = claude::remove_event(two, c);
        json::lemma_put(root->Object_0, "hooks"@, Doc::Object(three), key);
        lemma_removed_event(hooks, a);
        lemma_removed_event(one, b);
        lemma_removed_event(two, c);
        if event != a {
            claude::lemma_remove_touches_one(hooks, a, event);
        }
        if event != b {
            claude::lemma_remove_touches_one(one, b, event);
        }
        if event != c {
            claude::lemma_remove_touches_one(two, c, event);
        }
    }
}

proof fn lemma_removed_event(hooks: Seq<(Seq<char>, Doc)>, event: Seq<char>)
    ensures
        json::get(Doc::Object(claude::remove_event(hooks, event)), event) == match json::get(
            Doc::Object(hooks),
            event,
        ) {
            Some(Doc::Array(matchers)) => Some(Doc::Array(claude::without_ours(matchers))),
            other => other,
        },
{
    if let Some(Doc::Array(matchers)) = json::get(Doc::Object(hooks), event) {
        json::lemma_put(hooks, event, Doc::Array(claude::without_ours(matchers)), Seq::empty());
    }
}

/// Settings without an object of hooks are left alone.
pub proof fn law_removal_needs_hooks(root: Doc)
    requires
        !(json::get(root, "hooks"@) matches Some(Doc::Object(_))),
    ensures
        claude::removed(root) == root,
{
}

/// An entry of ours with its command replaced: every other key stays as it is.
pub open spec fn is_updated(before: Doc, after: Doc, command: Seq<char>) -> bool {
    &&& before is Object
    &&& after is Object
    &&& json::get(after, "command"@) == Some(Doc::Str(command))
    &&& before->Object_0.len() == after->Object_0.len()
    &&& forall|i: int|
        #![trigger after->Object_0[i]]
        0 <= i < before->Object_0.len() ==> after->Object_0[i].0 == before->Object_0[i].0 && (
        before->Object_0[i].0 != "command"@ ==> after->Object_0[i] == before->Object_0[i])
}

proof fn lemma_kept_parts(entries: Seq<Doc>, found: bool, command: Seq<char>)
    requires
        words::holds(command, "nebula-hook"@),
    ensures
        ({
            let after = claude::kept(entries, found, command);
            &&& foreign(after) == foreign(entries)
            &&& found || own(entries).len() == 0 ==> own(after).len() == 0
            &&& !found && own(entries).len() > 0 ==> own(after).len() == 1 && is_updated(
                own(entries)[0],
                own(after)[0],
                command,
            )
            &&& claude::any_ours(entries) <==> own(entries).len() > 0
        }),
    decreases entries.len(),
{
    reveal(Seq::filter);
    if entries.len() > 0 {
        let front = entries.drop_last();
        let last = entries.last();
        lemma_kept_parts(front, found, command);
        law_our_entries_name_the_helper(last);
        let before = claude::kept(front, found, command);
        let after = claude::kept(entries, found, command);
        if claude::any_ours(front) {
            let i = choose|i: int| 0 <= i < front.len() && claude::is_ours(#[trigger] front[i]);
            assert(claude::is_ours(entries[i]));
        }
        if claude::any_ours(entries) {
            let i = choose|i: int| 0 <= i < entries.len() && claude::is_ours(#[trigger] entries[i]);
            if i < front.len() {
                assert(claude::is_ours(front[i]));
            }
        }
        if is_mine(last) {
            assert(claude::is_ours(entries[entries.len() - 1]));
            let new = claude::healed(last, command);
            json::lemma_key_from(last->Object_0, "command"@, 0);
            json::lemma_put(last->Object_0, "command"@, Doc::Str(command), Seq::empty());
            assert(is_mine(new));
            assert(is_updated(last, new, command));
            if !found && own(front).len() == 0 {
                assert(after == before.push(new));
                assert(before.push(new).drop_last() =~= before);
                assert(own(entries) =~= seq![last]);
                assert(own(after) =~= seq![new]);
            }
        } else {
            assert(before.push(last).drop_last() =~= before);
        }
    } else {
        assert(claude::kept(entries, found, command) =~= entries);
    }
}

/// Whether `after` is a matcher that installing went over.
pub open spec fn is_served(before: Doc, after: Doc) -> bool {
    match list_of(before) {
        Some(_) => is_same_but_list(before, after) && list_of(after) is Some && foreign_in(after)
            == foreign_in(before),
        None => after == before,
    }
}

proof fn lemma_healed_parts(matchers: Seq<Doc>, command: Seq<char>, n: int)
    requires
        words::holds(command, "nebula-hook"@),
        0 <= n <= matchers.len(),
    ensures
        ({
            let before = matchers.take(n);
            let after = claude::healed_matchers(matchers, command).take(n);
            &&& claude::any_carries(before) <==> all_own(before).len() > 0
            &&& all_own(before).len() == 0 ==> all_own(after).len() == 0
            &&& all_own(before).len() > 0 ==> all_own(after).len() == 1 && is_updated(
                all_own(before)[0],
                all_own(after)[0],
                command,
            )
            &&& forall|i: int| 0 <= i < n ==> is_served(matchers[i], #[trigger] after[i])
        }),
    decreases n,
{
    let healed = claude::healed_matchers(matchers, command);
    let before = matchers.take(n);
    let after = healed.take(n);
    if n > 0 {
        lemma_healed_parts(matchers, command, n - 1);
        let (front, done) = (matchers.take(n - 1), healed.take(n - 1));
        assert(before.drop_last() =~= front);
        assert(after.drop_last() =~= done);
        let last = matchers[n - 1];
        let found = claude::any_carries(front);
        let new = claude::healed_matcher(last, found, command);
        assert(after.last() == new);
        if claude::any_carries(front) {
            let i = choose|i: int| 0 <= i < front.len() && claude::carries(#[trigger] front[i]);
            assert(claude::carries(before[i]));
        }
        if claude::carries(last) {
            assert(claude::carries(before[n - 1]));
        }
        if claude::any_carries(before) {
            let i = choose|i: int| 0 <= i < before.len() && claude::carries(#[trigger] before[i]);
            if i < front.len() {
                assert(claude::carries(front[i]));
            }
        }
        if let Some(entries) = list_of(last) {
            lemma_kept_parts(entries, found, command);
            lemma_with_entries(last, claude::kept(entries, found, command));
        }
        if all_own(front).len() > 0 {
            assert(all_own(before)[0] == all_own(front)[0]);
            assert(all_own(after) =~= all_own(done));
        } else {
            assert(all_own(front) =~= Seq::<Doc>::empty());
            assert(all_own(done) =~= Seq::<Doc>::empty());
            assert(all_own(before) =~= own_in(last));
            assert(all_own(after) =~= own_in(new));
        }
        assert forall|i: int| 0 <= i < n implies is_served(matchers[i], #[trigger] after[i]) by {
            if i < n - 1 {
                assert(after[i] == done[i]);
            }
        }
    } else {
        assert(before =~= Seq::<Doc>::empty());
        assert(after =~= Seq::<Doc>::empty());
    }
}

/// Installing for an event leaves exactly one entry of ours, with our command:
/// the first one that was there, with its other keys as they were, or else one in
/// a new matcher at the end. Every matcher keeps the entries of others.
pub proof fn law_installing_leaves_one_of_ours(matchers: Seq<Doc>, command: Seq<char>)
    requires
        words::holds(command, "nebula-hook"@),
    ensures
        ({
            let after = claude::with_ours(matchers, command);
            &&& all_own(after).len() == 1
            &&& json::get(all_own(after)[0], "command"@) == Some(Doc::Str(command))
            &&& forall|i: int|
                0 <= i < matchers.len() ==> is_served(matchers[i], #[trigger] after[i])
            &&& all_own(matchers).len() > 0 ==> after.len() == matchers.len() && is_updated(
                all_own(matchers)[0],
                all_own(after)[0],
                command,
            )
            &&& all_own(matchers).len() == 0 ==> after.len() == matchers.len() + 1 && list_of(
                after.last(),
            ) == Some(all_own(after)) && json::get(all_own(after)[0], "type"@) == Some(
                Doc::Str("command"@),
            ) && json::get(all_own(after)[0], "timeout"@) == Some(Doc::Number("10"@))
        }),
{
    let n = matchers.len() as int;
    let healed = claude::healed_matchers(matchers, command);
    lemma_healed_parts(matchers, command, n);
    assert(matchers.take(n) =~= matchers);
    assert(healed.take(n) =~= healed);
    let after = claude::with_ours(matchers, command);
    if all_own(matchers).len() == 0 {
        let new = claude::new_matcher(command);
        let entry = Doc::Object(
            seq![
                ("command"@, Doc::Str(command)),
                ("timeout"@, Doc::Number("10"@)),
                ("type"@, Doc::Str("command"@)),
            ],
        );
        reveal_strlit("command");
        reveal_strlit("timeout");
        reveal_strlit("type");
        assert("command"@.len() == 7 && "timeout"@.len() == 7 && "type"@.len() == 4);
        assert("command"@[0] == 'c' && "timeout"@[0] == 't');
        let p = entry->Object_0;
        json::lemma_key_found(p, "command"@, 0, 0);
        json::lemma_key_found(p, "timeout"@, 0, 1);
        json::lemma_key_found(p, "type"@, 0, 2);
        json::lemma_key_found(new->Object_0, "hooks"@, 0, 0);
        assert(list_of(new)->0 =~= seq![entry]);
        assert(is_mine(entry));
        reveal(Seq::filter);
        let one = seq![entry];
        assert(one.drop_last() =~= Seq::<Doc>::empty());
        assert(own(one.drop_last()) =~= Seq::<Doc>::empty());
        assert(own(one) =~= one);
        assert(after.drop_last() =~= healed);
        assert(all_own(healed) =~= Seq::<Doc>::empty());
        assert(all_own(after) =~= one);
    }
}

/// What an event holds once our hooks are installed.
pub open spec fn with_list(held: Option<Doc>, command: Seq<char>) -> Option<Doc> {
    match held {
        Some(Doc::Array(matchers)) => Some(Doc::Array(claude::with_ours(matchers, command))),
        None => Some(Doc::Array(claude::with_ours(Seq::empty(), command))),
        other => other,
    }
}

/// Our hooks are installed for the three events that we listen to, and for no
/// other; every other key of the settings keeps its value.
pub proof fn law_installing_serves_our_events(
    root: Doc,
    command: Seq<char>,
    event: Seq<char>,
    key: Seq<char>,
)
    requires
        key != "hooks"@,
    ensures
        claude::installed(root, command) matches Some(after) ==> {
            &&& json::get(after, key) == json::get(root, key)
            &&& event_of(after, event) == if event == "UserPromptSubmit"@ || event == "Stop"@
                || event == "Notification"@ {
                with_list(event_of(root, event), command)
            } else {
                event_of(root, event)
            }
        },
{
    if let Some(after) = claude::installed(root, command) {
        claude::lemma_event_names();
        let (a, b, c) = ("UserPromptSubmit"@, "Stop"@, "Notification"@);
        let hooks = match json::get(root, "hooks"@) {
            Some(Doc::Object(hooks)) => hooks,
            _ => Seq::<(Seq<char>, Doc)>::empty(),
        };
        json::lemma_key_from(Seq::<(Seq<char>, Doc)>::empty(), event, 0);
        let one = claude::install_event(hooks, a, command)->0;
        let two = claude::install_event(one, b, command)->0;
        let three = claude::install_event(two, c, command)->0;
        json::lemma_put(root->Object_0, "hooks"@, Doc::Object(three), key);
        lemma_installed_event(hooks, a, command);
        lemma_installed_event(one, b, command);
        lemma_installed_event(two, c, command);
        if event != a {
            claude::lemma_install_touches_one(hooks, a, command, event);
        }
        if event != b {
            claude::lemma_install_touches_one(one, b, command, event);
        }
        if event != c {
            claude::lemma_install_touches_one(two, c, command, event);
        }
    }
}

proof fn lemma_installed_event(
    hooks: Seq<(Seq<char>, Doc)>,
    event: Seq<char>,
    command: Seq<char>,
)
    ensures
        claude::install_event(hooks, event, command) matches Some(after) ==> json::get(
            Doc::Object(after),
            event,
        ) == with_list(json::get(Doc::Object(hooks), event), command),
        claude::install_event(hooks, event, command) is None <==> (json::get(
            Doc::Object(hooks),
            event,
        ) matches Some(held) && !(held is Array)),
{
    match json::get(Doc::Object(hooks), event) {
        None => {
            json::lemma_put(
                hooks,
                event,
                Doc::Array(claude::with_ours(Seq::empty(), command)),
                Seq::empty(),
            );
        },
        Some(Doc::Array(matchers)) => {
            json::lemma_put(
                hooks,
                event,
                Doc::Array(claude::with_ours(matchers, command)),
                Seq::empty(),
            );
        },
        _ => {},
    }
}

/// Settings are refused exactly where they are no object, their hooks are none, or
/// one of our three events is no list.
pub proof fn law_only_odd_settings_are_refused(root: Doc, command: Seq<char>)
    ensures
        claude::installed(root, command) is None <==> {
            ||| !(root is Object)
            ||| json::get(root, "hooks"@) matches Some(hooks) && !(hooks is Object)
            ||| event_of(root, "UserPromptSubmit"@) matches Some(held) && !(held is Array)
            ||| event_of(root, "Stop"@) matches Some(held) && !(held is Array)
            ||| event_of(root, "Notification"@) matches Some(held) && !(held is Array)
        },
{
    claude::lemma_event_names();
    let (a, b, c) = ("UserPromptSubmit"@, "Stop"@, "Notification"@);
    let none = Seq::<(Seq<char>, Doc)>::empty();
    let hooks = match json::get(root, "hooks"@) {
        Some(Doc::Object(hooks)) => hooks,
        _ => none,
    };
    json::lemma_key_from(none, a, 0);
    json::lemma_key_from(none, b, 0);
    json::lemma_key_from(none, c, 0);
    lemma_installed_event(hooks, a, command);
    claude::lemma_install_touches_one(hooks, a, command, b);
    claude::lemma_install_touches_one(hooks, a, command, c);
    if let Some(one) = claude::install_event(hooks, a, command) {
        lemma_installed_event(one, b, command);
        claude::lemma_install_touches_one(one, b, command, c);
        if let Some(two) = claude::install_event(one, b, command) {
            lemma_installed_event(two, c, command);
        }
    }
}

} // verus!
