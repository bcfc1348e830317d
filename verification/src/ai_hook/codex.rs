//! Upkeep of our notifier in the configuration of the Codex command line tool.
//!
//! Codex has a single notifier slot, which may already be taken. An occupied
//! slot is wrapped, not evicted: our helper forwards the event and then runs
//! the notifier that stands behind `--chain` with the same payload.

use vstd::prelude::*;

use crate::ai_hook::claude;
use crate::text;

verus! {

pub open spec fn texts(v: Seq<String>) -> Seq<Seq<char>> {
    v.map_values(|s: String| s@)
}

pub open spec fn optional_text(s: Option<String>) -> Option<Seq<char>> {
    match s {
        Some(s) => Some(s@),
        None => None,
    }
}

pub open spec fn optional_texts(v: Seq<Option<String>>) -> Seq<Option<Seq<char>>> {
    v.map_values(|s: Option<String>| optional_text(s))
}

/// The array under a key of a TOML document: nothing if the text is not TOML;
/// else the array's items, where the key holds an array, with nothing for an
/// item that is not a string.
pub uninterp spec fn toml_array(raw: Seq<char>, key: Seq<char>) -> Option<
    Option<Seq<Option<Seq<char>>>>,
>;

/// `toml_edit`: parses `raw` as a `DocumentMut` and reads the array under `key`.
#[verifier::external_body]
fn read_array(raw: &str, key: &str) -> (r: Option<Option<Vec<Option<String>>>>)
    ensures
        toml_array(raw@, key@) == match r {
            Some(Some(items)) => Some(Some(optional_texts(items@))),
            Some(None) => Some(None),
            None => None,
        },
{
    let doc = raw.parse::<toml_edit::DocumentMut>().ok()?;
    let array = doc.get(key).and_then(|item| item.as_array());
    Some(array.map(|a| a.iter().map(|item| item.as_str().map(str::to_owned)).collect()))
}

/// A TOML document with an array of strings put under a key, unless the text is
/// not TOML.
pub uninterp spec fn toml_with_array(
    raw: Seq<char>,
    key: Seq<char>,
    items: Seq<Seq<char>>,
) -> Option<Seq<char>>;

/// `toml_edit`: parses `raw` as a `DocumentMut`, puts the array `items` under
/// `key` and writes the document. It fails where reading the document fails; in
/// what it writes, the array reads back.
#[verifier::external_body]
fn write_array(raw: &str, key: &str, items: &Vec<String>) -> (r: Option<String>)
    ensures
        optional_text(r) == toml_with_array(raw@, key@, texts(items@)),
        r is Some <==> toml_array(raw@, key@) is Some,
        r matches Some(s) ==> toml_array(s@, key@) == Some(
            Some(texts(items@).map_values(|t: Seq<char>| Some(t))),
        ),
{
    let mut doc = raw.parse::<toml_edit::DocumentMut>().ok()?;
    let array: toml_edit::Array = items.iter().map(|item| item.as_str()).collect();
    doc[key] = toml_edit::value(array);
    Some(doc.to_string())
}

/// A TOML document without a key, unless the text is not TOML.
pub uninterp spec fn toml_without(raw: Seq<char>, key: Seq<char>) -> Option<Seq<char>>;

/// `toml_edit`: parses `raw` as a `DocumentMut`, removes `key` and writes the
/// document. It fails where reading the document fails; in what it writes, the
/// key holds no array.
#[verifier::external_body]
fn remove_key(raw: &str, key: &str) -> (r: Option<String>)
    ensures
        optional_text(r) == toml_without(raw@, key@),
        r is Some <==> toml_array(raw@, key@) is Some,
        r matches Some(s) ==> toml_array(s@, key@) == Some(None::<Seq<Option<Seq<char>>>>),
{
    let mut doc = raw.parse::<toml_edit::DocumentMut>().ok()?;
    doc.as_table_mut().remove(key);
    Some(doc.to_string())
}

/// The strings among the items of an array.
pub open spec fn strings_among(items: Seq<Option<Seq<char>>>) -> Seq<Seq<char>>
    decreases items.len(),
{
    if items.len() == 0 {
        Seq::empty()
    } else {
        match items.last() {
            Some(s) => strings_among(items.drop_last()).push(s),
            None => strings_among(items.drop_last()),
        }
    }
}

/// The notifier command that a configuration names.
pub open spec fn argv_of(notify: Option<Seq<Option<Seq<char>>>>) -> Seq<Seq<char>> {
    match notify {
        Some(items) => strings_among(items),
        None => Seq::empty(),
    }
}

/// Whether a notifier command runs our helper.
pub open spec fn is_ours(argv: Seq<Seq<char>>) -> bool {
    argv.len() > 0 && claude::names_helper(argv[0])
}

/// The notifier command to configure: our helper at its present path, with
/// another notifier behind `--chain`.
pub open spec fn wanted(current: Seq<Seq<char>>, helper: Seq<char>) -> Seq<Seq<char>> {
    if is_ours(current) {
        current.update(0, helper)
    } else if current.len() > 0 {
        seq![helper, "codex"@, "--chain"@] + current
    } else {
        seq![helper, "codex"@]
    }
}

/// Where `--chain` stands in a command, from `i` on.
pub open spec fn chain_from(argv: Seq<Seq<char>>, i: int) -> Option<int>
    decreases argv.len() - i,
{
    if i < 0 || i >= argv.len() {
        None
    } else if argv[i] == "--chain"@ {
        Some(i)
    } else {
        chain_from(argv, i + 1)
    }
}

/// What becomes of the notifier slot when our helper leaves it.
pub enum Restored {
    /// It is not ours; it stays.
    NotOurs,
    /// The notifier from behind `--chain` comes back.
    Argv(Vec<String>),
    /// It was empty before; it is removed.
    Removed,
}

/// What becomes of the notifier slot, as a value.
pub enum Restoring {
    NotOurs,
    Argv(Seq<Seq<char>>),
    Removed,
}

impl Restored {
    pub open spec fn value(self) -> Restoring {
        match self {
            Restored::NotOurs => Restoring::NotOurs,
            Restored::Argv(v) => Restoring::Argv(texts(v@)),
            Restored::Removed => Restoring::Removed,
        }
    }
}

pub open spec fn restoring(current: Seq<Seq<char>>) -> Restoring {
    if !is_ours(current) {
        Restoring::NotOurs
    } else {
        match chain_from(current, 0) {
            Some(i) => Restoring::Argv(current.skip(i + 1)),
            None => Restoring::Removed,
        }
    }
}

fn copy_all(v: &Vec<String>) -> (r: Vec<String>)
    ensures
        texts(r@) == texts(v@),
{
    copy_from(v, 0)
}

fn copy_from(v: &Vec<String>, from: usize) -> (r: Vec<String>)
    requires
        from <= v@.len(),
    ensures
        texts(r@) == texts(v@).skip(from as int),
{
    let mut r: Vec<String> = Vec::new();
    let mut i: usize = from;
    while i < v.len()
        invariant
            from <= i <= v@.len(),
            r@.len() == i - from,
            forall|j: int| 0 <= j < r@.len() ==> (#[trigger] r@[j])@ == v@[from + j]@,
        decreases v@.len() - i,
    {
        r.push(v[i].clone());
        i += 1;
    }
    assert(texts(r@) =~= texts(v@).skip(from as int));
    r
}

/// Whether a notifier command runs our helper.
fn ours(argv: &Vec<String>) -> (r: bool)
    ensures
        r == is_ours(texts(argv@)),
{
    argv.len() > 0 && claude::is_helper(argv[0].as_str())
}

/// The notifier command to configure for the one that is there.
pub fn desired_argv(current: &Vec<String>, helper: &str) -> (r: Vec<String>)
    ensures
        texts(r@) == wanted(texts(current@), helper@),
{
    let mut argv: Vec<String> = Vec::new();
    if ours(current) {
        argv = copy_all(current);
        argv.set(0, helper.to_owned());
        assert(texts(argv@) =~= texts(current@).update(0, helper@));
    } else {
        argv.push(helper.to_owned());
        argv.push("codex".to_owned());
        if current.len() > 0 {
            argv.push("--chain".to_owned());
            let mut tail = copy_all(current);
            let ghost tail_texts = texts(tail@);
            argv.append(&mut tail);
            assert(texts(argv@) =~= seq![helper@, "codex"@, "--chain"@] + texts(current@)) by {
                assert(tail_texts =~= texts(current@));
                assert forall|i: int| 3 <= i < argv@.len() implies (#[trigger] argv@[i])@ == texts(
                    current@,
                )[i - 3] by {
                    assert(tail_texts[i - 3] == argv@[i]@);
                }
            }
        } else {
            assert(texts(argv@) =~= seq![helper@, "codex"@]);
        }
    }
    argv
}

/// What becomes of the notifier slot when our helper leaves it.
pub fn restored_argv(current: &Vec<String>) -> (r: Restored)
    ensures
        r.value() == restoring(texts(current@)),
{
    if !ours(current) {
        return Restored::NotOurs;
    }
    let mut i: usize = 0;
    while i < current.len()
        invariant
            i <= current@.len(),
            is_ours(texts(current@)),
            chain_from(texts(current@), 0) == chain_from(texts(current@), i as int),
        decreases current@.len() - i,
    {
        if text::str_eq(current[i].as_str(), "--chain") {
            return Restored::Argv(copy_from(current, i + 1));
        }
        i += 1;
    }
    Restored::Removed
}

fn same_argv(a: &Vec<String>, b: &Vec<String>) -> (r: bool)
    ensures
        r == (texts(a@) == texts(b@)),
{
    if a.len() != b.len() {
        assert(texts(a@).len() != texts(b@).len());
        return false;
    }
    let mut i: usize = 0;
    while i < a.len()
        invariant
            i <= a@.len(),
            a@.len() == b@.len(),
            forall|j: int| 0 <= j < i ==> a@[j]@ == b@[j]@,
        decreases a@.len() - i,
    {
        if !text::str_eq(a[i].as_str(), b[i].as_str()) {
            assert(texts(a@)[i as int] != texts(b@)[i as int]);
            return false;
        }
        i += 1;
    }
    assert(texts(a@) =~= texts(b@));
    true
}

/// The strings among the items of an array.
fn collect_strings(items: &Vec<Option<String>>) -> (r: Vec<String>)
    ensures
        texts(r@) == strings_among(optional_texts(items@)),
{
    let ghost all = optional_texts(items@);
    let mut r: Vec<String> = Vec::new();
    let mut i: usize = 0;
    assert(all.take(0) =~= Seq::empty());
    assert(texts(r@) =~= Seq::empty());
    while i < items.len()
        invariant
            i <= items@.len(),
            all == optional_texts(items@),
            texts(r@) == strings_among(all.take(i as int)),
        decreases items@.len() - i,
    {
        assert(all.take(i + 1).drop_last() =~= all.take(i as int));
        assert(all.take(i + 1).last() == optional_text(items@[i as int]));
        if let Some(s) = &items[i] {
            let ghost before = texts(r@);
            r.push(s.clone());
            assert(texts(r@) =~= before.push(s@));
        }
        i += 1;
    }
    assert(all.take(i as int) =~= all);
    r
}

/// What to do with a configuration.
pub enum Edit {
    /// It is not valid TOML; it is left alone.
    Invalid,
    /// It is as it should be.
    Keep,
    /// It is written anew.
    Write(String),
}

/// What to do with a configuration, as a value.
pub enum Outcome {
    Invalid,
    Keep,
    Write(Seq<char>),
}

impl Edit {
    pub open spec fn value(self) -> Outcome {
        match self {
            Edit::Invalid => Outcome::Invalid,
            Edit::Keep => Outcome::Keep,
            Edit::Write(s) => Outcome::Write(s@),
        }
    }
}

pub open spec fn written(text: Option<Seq<char>>) -> Outcome {
    match text {
        Some(s) => Outcome::Write(s),
        None => Outcome::Invalid,
    }
}

/// What wiring our helper does with a configuration.
pub open spec fn wiring(raw: Seq<char>, helper: Seq<char>) -> Outcome {
    match toml_array(raw, "notify"@) {
        None => Outcome::Invalid,
        Some(notify) => {
            let current = argv_of(notify);
            if wanted(current, helper) == current {
                Outcome::Keep
            } else {
                written(toml_with_array(raw, "notify"@, wanted(current, helper)))
            }
        },
    }
}

/// What taking our helper out does with a configuration.
pub open spec fn unwiring(raw: Seq<char>) -> Outcome {
    match toml_array(raw, "notify"@) {
        None => Outcome::Invalid,
        Some(notify) => match restoring(argv_of(notify)) {
            Restoring::NotOurs => Outcome::Keep,
            Restoring::Argv(argv) => written(toml_with_array(raw, "notify"@, argv)),
            Restoring::Removed => written(toml_without(raw, "notify"@)),
        },
    }
}

/// An array of strings, as it is read.
pub open spec fn all_strings(items: Seq<Seq<char>>) -> Seq<Option<Seq<char>>> {
    items.map_values(|t: Seq<char>| Some(t))
}

/// Whether the notifier of `text` is what wiring our helper into `raw` makes it.
pub open spec fn reads_wired(raw: Seq<char>, helper: Seq<char>, text: Seq<char>) -> bool {
    toml_array(text, "notify"@) == Some(
        Some(all_strings(wanted(argv_of(toml_array(raw, "notify"@)->0), helper))),
    )
}

/// Whether the notifier of `text` is what taking our helper out of `raw` makes
/// it.
pub open spec fn reads_unwired(raw: Seq<char>, text: Seq<char>) -> bool {
    match restoring(argv_of(toml_array(raw, "notify"@)->0)) {
        Restoring::NotOurs => true,
        Restoring::Argv(argv) => toml_array(text, "notify"@) == Some(Some(all_strings(argv))),
        Restoring::Removed => toml_array(text, "notify"@) == Some(None::<Seq<Option<Seq<char>>>>),
    }
}

/// The notifier command of a configuration that was read.
fn argv_from(notify: &Option<Vec<Option<String>>>) -> (r: Vec<String>)
    ensures
        texts(r@) == argv_of(
            match notify {
                Some(items) => Some(optional_texts(items@)),
                None => None,
            },
        ),
{
    match notify {
        Some(items) => collect_strings(items),
        None => {
            let r: Vec<String> = Vec::new();
            assert(texts(r@) =~= Seq::empty());
            r
        },
    }
}

/// Wires our helper into a configuration: an occupied slot is wrapped, and a
/// helper that moved is healed. What is written reads back as wired.
pub fn wire_notify(raw: &str, helper: &str) -> (r: Edit)
    ensures
        r.value() == wiring(raw@, helper@),
        toml_array(raw@, "notify"@) is Some ==> !(r is Invalid),
        r matches Edit::Write(s) ==> reads_wired(raw@, helper@, s@),
{
    match read_array(raw, "notify") {
        None => Edit::Invalid,
        Some(notify) => {
            let current = argv_from(&notify);
            let desired = desired_argv(&current, helper);
            if same_argv(&current, &desired) {
                return Edit::Keep;
            }
            match write_array(raw, "notify", &desired) {
                Some(s) => Edit::Write(s),
                None => Edit::Invalid,
            }
        },
    }
}

/// Takes our helper out of a configuration: a wrapped notifier comes back from
/// behind `--chain`, and a slot that we created is removed. What is written reads
/// back as restored.
pub fn unwire_notify(raw: &str) -> (r: Edit)
    ensures
        r.value() == unwiring(raw@),
        toml_array(raw@, "notify"@) is Some ==> !(r is Invalid),
        r matches Edit::Write(s) ==> reads_unwired(raw@, s@),
{
    match read_array(raw, "notify") {
        None => Edit::Invalid,
        Some(notify) => {
            let current = argv_from(&notify);
            match restored_argv(&current) {
                Restored::NotOurs => Edit::Keep,
                Restored::Argv(argv) => match write_array(raw, "notify", &argv) {
                    Some(s) => Edit::Write(s),
                    None => Edit::Invalid,
                },
                Restored::Removed => match remove_key(raw, "notify") {
                    Some(s) => Edit::Write(s),
                    None => Edit::Invalid,
                },
            }
        },
    }
}

proof fn lemma_strings_of_all(items: Seq<Seq<char>>)
    ensures
        strings_among(all_strings(items)) == items,
    decreases items.len(),
{
    let some = all_strings(items);
    if items.len() > 0 {
        lemma_strings_of_all(items.drop_last());
        assert(some.drop_last() =~= all_strings(items.drop_last()));
        assert(items.drop_last().push(items.last()) =~= items);
    } else {
        assert(items =~= Seq::empty());
    }
}

/// Wiring is idempotent: our own write is found in order, and the check after it
/// writes nothing.
pub proof fn law_wiring_again_changes_nothing(current: Seq<Seq<char>>, helper: Seq<char>)
    requires
        claude::names_helper(helper),
    ensures
        wanted(wanted(current, helper), helper) == wanted(current, helper),
{
    let once = wanted(current, helper);
    assert(once[0] == helper);
    assert(once.update(0, helper) =~= once);
}

/// A configuration that reads back as wired is kept as it is.
pub proof fn law_wired_configurations_are_kept(
    raw: Seq<char>,
    current: Seq<Seq<char>>,
    helper: Seq<char>,
)
    requires
        claude::names_helper(helper),
        toml_array(raw, "notify"@) == Some(Some(all_strings(wanted(current, helper)))),
    ensures
        wiring(raw, helper) == Outcome::Keep,
{
    lemma_strings_of_all(wanted(current, helper));
    law_wiring_again_changes_nothing(current, helper);
}

/// Taking our helper out undoes wiring it in: the notifier that was there comes
/// back, and an empty slot is empty again.
pub proof fn law_unwiring_undoes_wiring(current: Seq<Seq<char>>, helper: Seq<char>)
    requires
        claude::names_helper(helper),
        !is_ours(current),
    ensures
        current.len() > 0 ==> restoring(wanted(current, helper)) == Restoring::Argv(current),
        current.len() == 0 ==> restoring(wanted(current, helper)) == Restoring::Removed,
{
    let once = wanted(current, helper);
    reveal_strlit("codex");
    reveal_strlit("--chain");
    reveal_strlit("nebula-hook");
    assert("codex"@.len() == 5);
    assert("--chain"@.len() == 7);
    assert("nebula-hook"@.len() == 11);
    text::lemma_find_from(helper, "nebula-hook"@, 0);
    assert(helper != "--chain"@);
    assert(once[0] == helper);
    assert(once[1] == "codex"@);
    assert(chain_from(once, 0) == chain_from(once, 1));
    assert(chain_from(once, 1) == chain_from(once, 2));
    if current.len() > 0 {
        assert(once[2] == "--chain"@);
        assert(once.skip(3) =~= current);
    }
}

/// On whole configurations: our helper, wired into `raw`, can be taken out of what
/// was `wired`, the notifier of what is then `unwired` is again that of `raw`, and
/// there is nothing more to take out.
pub proof fn law_unwiring_restores_the_configuration(
    raw: Seq<char>,
    argv: Seq<Seq<char>>,
    helper: Seq<char>,
    wired: Seq<char>,
    unwired: Seq<char>,
)
    requires
        claude::names_helper(helper),
        toml_array(raw, "notify"@) == Some(
            if argv.len() == 0 {
                None
            } else {
                Some(all_strings(argv))
            },
        ),
        !is_ours(argv),
        reads_wired(raw, helper, wired),
        reads_unwired(wired, unwired),
    ensures
        unwiring(wired) != Outcome::Keep,
        toml_array(unwired, "notify"@) == toml_array(raw, "notify"@),
        unwiring(unwired) == Outcome::Keep,
{
    lemma_strings_of_all(argv);
    if argv.len() == 0 {
        assert(argv =~= Seq::empty());
    }
    assert(argv_of(toml_array(raw, "notify"@)->0) == argv);
    lemma_strings_of_all(wanted(argv, helper));
    law_unwiring_undoes_wiring(argv, helper);
    assert(wanted(argv, helper)[0] == helper);
}

/// The path of our helper as it is written into configurations: forward
/// slashes survive every shell that may run it.
pub open spec fn forward_slashed(path: Seq<char>) -> Seq<char> {
    path.map_values(
        |c: char|
            if c == '\\' {
                '/'
            } else {
                c
            },
    )
}

/// The path of our helper as it is written into configurations.
pub fn helper_text(path: &str) -> (r: String)
    ensures
        r@ == forward_slashed(path@),
{
    let v = text::chars_of(path);
    let mut out: Vec<char> = Vec::new();
    let mut i: usize = 0;
    while i < v.len()
        invariant
            i <= v@.len(),
            v@ == path@,
            out@.len() == i,
            forall|j: int| 0 <= j < i ==> #[trigger] out@[j] == forward_slashed(path@)[j],
        decreases v@.len() - i,
    {
        if v[i] == '\\' {
            out.push('/');
        } else {
            out.push(v[i]);
        }
        i += 1;
    }
    assert(out@ =~= forward_slashed(path@));
    text::string_of(out.as_slice())
}

/// The quoted hook command for the settings of a tool with hooks.
pub fn helper_command(helper: &str, hooks_tool: &str) -> (r: String)
    ensures
        r@ == seq!['"'] + forward_slashed(helper@) + seq!['"'] + seq![' '] + hooks_tool@,
{
    let mut out = String::new();
    out.push('"');
    out.append(helper_text(helper).as_str());
    out.push('"');
    out.push(' ');
    out.append(hooks_tool);
    assert(out@ =~= seq!['"'] + forward_slashed(helper@) + seq!['"'] + seq![' '] + hooks_tool@);
    out
}

} // verus!
