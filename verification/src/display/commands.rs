//! Names of commands for completing the first word of a line: the executables on
//! the path and what the running shell adds to them.

use vstd::prelude::*;

use crate::order;
use crate::text;
use crate::unicode;

verus! {

pub open spec fn texts(v: Seq<String>) -> Seq<Seq<char>> {
    v.map_values(|s: String| s@)
}

/// An extension as it is held against files: in lower case, with its dot.
pub open spec fn extension_of(piece: Seq<char>) -> Option<Seq<char>> {
    let ext = unicode::trimmed(piece);
    if ext.len() == 0 {
        None
    } else if ext[0] == '.' {
        Some(text::ascii_lower(ext))
    } else {
        Some(seq!['.'] + text::ascii_lower(ext))
    }
}

pub open spec fn extensions_of(pieces: Seq<Seq<char>>) -> Seq<Seq<char>>
    decreases pieces.len(),
{
    if pieces.len() == 0 {
        Seq::empty()
    } else {
        match extension_of(pieces.last()) {
            Some(e) => extensions_of(pieces.drop_last()).push(e),
            None => extensions_of(pieces.drop_last()),
        }
    }
}

/// The extensions of executables that apply where none are configured.
pub open spec fn default_extensions() -> Seq<char> {
    ".COM;.EXE;.BAT;.CMD;.PS1"@
}

fn read_extension(piece: &Vec<char>) -> (r: Option<String>)
    ensures
        match r {
            Some(s) => extension_of(piece@) == Some(s@),
            None => extension_of(piece@) is None,
        },
{
    let string = text::string_of(piece.as_slice());
    let ext = unicode::trim(string.as_str());
    let v = text::chars_of(ext.as_str());
    if v.len() == 0 {
        return None;
    }
    let lower = text::to_ascii_lower(ext.as_str());
    if v[0] == '.' {
        return Some(lower);
    }
    let mut r = String::new();
    r.push('.');
    r.append(lower.as_str());
    assert(r@ =~= seq!['.'] + lower@);
    Some(r)
}

/// The extensions of executables, from the value of the variable that lists
/// them.
pub fn nebula_pathexts(configured: Option<&str>) -> (r: Vec<String>)
    ensures
        texts(r@) == extensions_of(
            text::pieces(
                match configured {
                    Some(s) => s@,
                    None => default_extensions(),
                },
                ';',
            ),
        ),
{
    let list: &str = match configured {
        Some(s) => s,
        None => ".COM;.EXE;.BAT;.CMD;.PS1",
    };
    let pieces = text::split(text::chars_of(list).as_slice(), ';');
    let ghost all = text::pieces(list@, ';');
    let mut r: Vec<String> = Vec::new();
    let mut i: usize = 0;
    assert(all.take(0) =~= Seq::empty());
    assert(texts(r@) =~= Seq::empty());
    while i < pieces.len()
        invariant
            i <= pieces@.len(),
            all == pieces@.map_values(|w: Vec<char>| w@),
            texts(r@) == extensions_of(all.take(i as int)),
        decreases pieces@.len() - i,
    {
        assert(all[i as int] == pieces@[i as int]@);
        assert(all.take(i + 1).drop_last() =~= all.take(i as int));
        if let Some(e) = read_extension(&pieces[i]) {
            let ghost before = texts(r@);
            r.push(e);
            assert(texts(r@) =~= before.push(e@));
        }
        i += 1;
    }
    assert(all.take(i as int) =~= all);
    r
}

/// Where the last dot of a name stands.
pub open spec fn last_dot(s: Seq<char>) -> Option<int>
    decreases s.len(),
{
    if s.len() == 0 {
        None
    } else if s.last() == '.' {
        Some(s.len() - 1)
    } else {
        last_dot(s.drop_last())
    }
}

/// An entry of a directory on the path.
pub struct PathEntry {
    pub name: String,
    pub is_file: bool,
    /// Whether the entry may be executed, where that is a matter of
    /// permissions.
    pub executable: bool,
}

/// An entry of a directory on the path, as a value.
pub struct Executable {
    pub name: Seq<char>,
    pub is_file: bool,
    pub executable: bool,
}

impl PathEntry {
    pub open spec fn value(self) -> Executable {
        Executable { name: self.name@, is_file: self.is_file, executable: self.executable }
    }
}

/// How commands are found.
pub struct Lookup {
    /// Whether extensions decide what is a command, and names are compared
    /// without regard to case.
    pub by_extension: bool,
    pub pathexts: Vec<String>,
}

/// The command that an entry provides: with a known extension, its name without
/// it; or, by permissions, its name.
pub open spec fn command_of(e: Executable, by_extension: bool, pathexts: Seq<Seq<char>>) -> Option<
    Seq<char>,
> {
    if !e.is_file || e.name.len() == 0 {
        None
    } else if !by_extension {
        if e.executable {
            Some(e.name)
        } else {
            None
        }
    } else {
        match last_dot(e.name) {
            Some(i) => if i > 0 && e.name != ".."@ && pathexts.contains(
                text::ascii_lower(e.name.skip(i)),
            ) {
                Some(e.name.take(i))
            } else {
                None
            },
            None => None,
        }
    }
}

fn find_last_dot(v: &Vec<char>) -> (r: Option<usize>)
    ensures
        match r {
            Some(i) => last_dot(v@) == Some(i as int) && i < v@.len(),
            None => last_dot(v@) is None,
        },
{
    let mut i: usize = v.len();
    assert(v@.take(i as int) =~= v@);
    while i > 0
        invariant
            i <= v@.len(),
            last_dot(v@) == last_dot(v@.take(i as int)),
        decreases i,
    {
        assert(v@.take(i as int).drop_last() =~= v@.take(i - 1));
        if v[i - 1] == '.' {
            return Some(i - 1);
        }
        i -= 1;
    }
    None
}

fn contains_text(v: &Vec<String>, s: &str) -> (r: bool)
    ensures
        r == texts(v@).contains(s@),
{
    let ghost all = texts(v@);
    let mut i: usize = 0;
    while i < v.len()
        invariant
            i <= v@.len(),
            all == texts(v@),
            forall|j: int| 0 <= j < i ==> #[trigger] all[j] != s@,
        decreases v@.len() - i,
    {
        assert(all[i as int] == v@[i as int]@);
        if text::str_eq(v[i].as_str(), s) {
            return true;
        }
        i += 1;
    }
    false
}

pub open spec fn optional_text(s: Option<String>) -> Option<Seq<char>> {
    match s {
        Some(s) => Some(s@),
        None => None,
    }
}

/// The command that an entry provides.
pub fn nebula_command_name(entry: &PathEntry, lookup: &Lookup) -> (r: Option<String>)
    ensures
        optional_text(r) == command_of(
            entry.value(),
            lookup.by_extension,
            texts(lookup.pathexts@),
        ),
{
    let v = text::chars_of(entry.name.as_str());
    if !entry.is_file || v.len() == 0 {
        return None;
    }
    if !lookup.by_extension {
        return if entry.executable {
            Some(entry.name.clone())
        } else {
            None
        };
    }
    match find_last_dot(&v) {
        Some(i) => {
            if i == 0 || text::str_eq(entry.name.as_str(), "..") {
                return None;
            }
            let ext = text::string_of_range(v.as_slice(), i, v.len());
            assert(ext@ =~= v@.skip(i as int));
            let lower = text::to_ascii_lower(ext.as_str());
            if !contains_text(&lookup.pathexts, lower.as_str()) {
                return None;
            }
            let name = text::string_of_range(v.as_slice(), 0, i);
            assert(name@ =~= v@.take(i as int));
            Some(name)
        },
        None => None,
    }
}

/// What two names of one command have in common.
pub open spec fn key(name: Seq<char>, ignore_case: bool) -> Seq<char> {
    if ignore_case {
        text::ascii_lower(name)
    } else {
        name
    }
}

/// Whether a command is among the names.
pub open spec fn knows(names: Seq<Seq<char>>, name: Seq<char>, ignore_case: bool) -> bool {
    exists|i: int|
        0 <= i < names.len() && key(#[trigger] names[i], ignore_case) == key(name, ignore_case)
}

/// The names with those of `more` added that are not known yet: of names of one
/// command only the first stays.
pub open spec fn merged(names: Seq<Seq<char>>, more: Seq<Seq<char>>, ignore_case: bool) -> Seq<
    Seq<char>,
>
    decreases more.len(),
{
    if more.len() == 0 {
        names
    } else {
        let held = merged(names, more.drop_last(), ignore_case);
        if knows(held, more.last(), ignore_case) {
            held
        } else {
            held.push(more.last())
        }
    }
}

/// Alphabetical order, with names that differ in case next to each other where
/// case is ignored.
pub open spec fn goes_before(a: Seq<char>, b: Seq<char>, ignore_case: bool) -> bool {
    let (ka, kb) = (key(a, ignore_case), key(b, ignore_case));
    text::lex_lt(ka, kb) || (ka == kb && text::lex_lt(a, b))
}

pub open spec fn name_order(ignore_case: bool) -> spec_fn(Seq<char>, Seq<char>) -> bool {
    |a: Seq<char>, b: Seq<char>| goes_before(a, b, ignore_case)
}

pub open spec fn sorted(names: Seq<Seq<char>>, ignore_case: bool) -> Seq<Seq<char>> {
    order::sort(names, name_order(ignore_case))
}

fn key_text(name: &str, ignore_case: bool) -> (r: Vec<char>)
    ensures
        r@ == key(name@, ignore_case),
{
    if ignore_case {
        text::chars_of(text::to_ascii_lower(name).as_str())
    } else {
        text::chars_of(name)
    }
}

fn is_known(names: &Vec<String>, name: &str, ignore_case: bool) -> (r: bool)
    ensures
        r == knows(texts(names@), name@, ignore_case),
{
    let ghost all = texts(names@);
    let wanted = key_text(name, ignore_case);
    let mut i: usize = 0;
    while i < names.len()
        invariant
            i <= names@.len(),
            all == texts(names@),
            wanted@ == key(name@, ignore_case),
            forall|j: int| 0 <= j < i ==> key(#[trigger] all[j], ignore_case) != wanted@,
        decreases names@.len() - i,
    {
        assert(all[i as int] == names@[i as int]@);
        let k = key_text(names[i].as_str(), ignore_case);
        if text::same(k.as_slice(), wanted.as_slice()) {
            assert(key(all[i as int], ignore_case) == key(name@, ignore_case));
            return true;
        }
        i += 1;
    }
    false
}

fn comes_before(a: &str, b: &str, ignore_case: bool) -> (r: bool)
    ensures
        r == goes_before(a@, b@, ignore_case),
{
    let ka = key_text(a, ignore_case);
    let kb = key_text(b, ignore_case);
    if text::lex_less(ka.as_slice(), kb.as_slice()) {
        return true;
    }
    if !text::same(ka.as_slice(), kb.as_slice()) {
        return false;
    }
    text::lex_less(text::chars_of(a).as_slice(), text::chars_of(b).as_slice())
}

fn insert_name(names: &mut Vec<String>, name: String, ignore_case: bool)
    ensures
        texts(final(names)@) == order::insert(
            texts(old(names)@),
            name@,
            name_order(ignore_case),
        ),
{
    let ghost all = texts(names@);
    let ghost before = name_order(ignore_case);
    let mut at: usize = names.len();
    while at > 0 && comes_before(name.as_str(), names[at - 1].as_str(), ignore_case)
        invariant
            at <= names@.len(),
            all == texts(names@),
            before == name_order(ignore_case),
            forall|i: int| at <= i < all.len() ==> #[trigger] before(name@, all[i]),
        decreases at,
    {
        assert(all[at - 1] == names@[at - 1]@);
        at -= 1;
    }
    proof {
        if at > 0 {
            assert(all[at - 1] == names@[at - 1]@);
        }
        order::lemma_insert_at(all, name@, before, at as int);
    }
    names.insert(at, name);
    assert(texts(names@) =~= all.insert(at as int, name@));
}

fn sort_names(names: &Vec<String>, ignore_case: bool) -> (r: Vec<String>)
    ensures
        texts(r@) == sorted(texts(names@), ignore_case),
{
    let ghost all = texts(names@);
    let mut r: Vec<String> = Vec::new();
    let mut i: usize = 0;
    assert(all.take(0) =~= Seq::empty());
    assert(texts(r@) =~= Seq::empty());
    while i < names.len()
        invariant
            i <= names@.len(),
            all == texts(names@),
            texts(r@) == sorted(all.take(i as int), ignore_case),
        decreases names@.len() - i,
    {
        assert(all[i as int] == names@[i as int]@);
        assert(all.take(i + 1).drop_last() =~= all.take(i as int));
        insert_name(&mut r, names[i].clone(), ignore_case);
        i += 1;
    }
    assert(all.take(i as int) =~= all);
    r
}

fn add_name(names: &mut Vec<String>, name: &str, ignore_case: bool)
    ensures
        texts(final(names)@) == if knows(texts(old(names)@), name@, ignore_case) {
            texts(old(names)@)
        } else {
            texts(old(names)@).push(name@)
        },
{
    if !is_known(names, name, ignore_case) {
        let ghost before = texts(names@);
        names.push(name.to_owned());
        assert(texts(names@) =~= before.push(name@));
    }
}

/// The commands that entries provide, in order.
pub open spec fn commands_of(
    entries: Seq<Executable>,
    by_extension: bool,
    pathexts: Seq<Seq<char>>,
) -> Seq<Seq<char>>
    decreases entries.len(),
{
    if entries.len() == 0 {
        Seq::empty()
    } else {
        let before = commands_of(entries.drop_last(), by_extension, pathexts);
        match command_of(entries.last(), by_extension, pathexts) {
            Some(c) => before.push(c),
            None => before,
        }
    }
}

pub open spec fn entries_value(v: Seq<PathEntry>) -> Seq<Executable> {
    v.map_values(|e: PathEntry| e.value())
}

/// The commands on the path, sorted. Of commands with one name only the first
/// stays, so that the hint does not jump between equal candidates.
pub fn nebula_path_commands(entries: &Vec<PathEntry>, lookup: &Lookup) -> (r: Vec<String>)
    ensures
        texts(r@) == sorted(
            merged(
                Seq::empty(),
                commands_of(entries_value(entries@), lookup.by_extension, texts(lookup.pathexts@)),
                lookup.by_extension,
            ),
            lookup.by_extension,
        ),
{
    let ghost all = entries_value(entries@);
    let ghost exts = texts(lookup.pathexts@);
    let mut names: Vec<String> = Vec::new();
    let mut i: usize = 0;
    assert(all.take(0) =~= Seq::empty());
    assert(texts(names@) =~= Seq::empty());
    while i < entries.len()
        invariant
            i <= entries@.len(),
            all == entries_value(entries@),
            exts == texts(lookup.pathexts@),
            texts(names@) == merged(
                Seq::empty(),
                commands_of(all.take(i as int), lookup.by_extension, exts),
                lookup.by_extension,
            ),
        decreases entries@.len() - i,
    {
        assert(all[i as int] == entries@[i as int].value());
        assert(all.take(i + 1).drop_last() =~= all.take(i as int));
        if let Some(name) = nebula_command_name(&entries[i], lookup) {
            let ghost held = commands_of(all.take(i as int), lookup.by_extension, exts);
            assert(held.push(name@).drop_last() =~= held);
            add_name(&mut names, name.as_str(), lookup.by_extension);
        }
        i += 1;
    }
    assert(all.take(i as int) =~= all);
    sort_names(&names, lookup.by_extension)
}

/// Merges the commands on the path with those that the shell defines itself.
pub fn nebula_collect_commands(
    path_commands: &Vec<String>,
    shell_commands: &Vec<String>,
    ignore_case: bool,
) -> (r: Vec<String>)
    ensures
        texts(r@) == sorted(
            merged(texts(path_commands@), texts(shell_commands@), ignore_case),
            ignore_case,
        ),
{
    let ghost all = texts(shell_commands@);
    let mut names: Vec<String> = Vec::new();
    let mut i: usize = 0;
    while i < path_commands.len()
        invariant
            i <= path_commands@.len(),
            names@.len() == i,
            forall|j: int| 0 <= j < i ==> (#[trigger] names@[j])@ == path_commands@[j]@,
        decreases path_commands@.len() - i,
    {
        names.push(path_commands[i].clone());
        i += 1;
    }
    assert(texts(names@) =~= texts(path_commands@));
    let mut k: usize = 0;
    assert(all.take(0) =~= Seq::empty());
    while k < shell_commands.len()
        invariant
            k <= shell_commands@.len(),
            all == texts(shell_commands@),
            texts(names@) == merged(texts(path_commands@), all.take(k as int), ignore_case),
        decreases shell_commands@.len() - k,
    {
        assert(all[k as int] == shell_commands@[k as int]@);
        assert(all.take(k + 1).drop_last() =~= all.take(k as int));
        add_name(&mut names, shell_commands[k].as_str(), ignore_case);
        k += 1;
    }
    assert(all.take(k as int) =~= all);
    sort_names(&names, ignore_case)
}

/// The trimmed lines of an output that are not blank.
pub open spec fn filled_lines(lines: Seq<Seq<char>>) -> Seq<Seq<char>>
    decreases lines.len(),
{
    if lines.len() == 0 {
        Seq::empty()
    } else {
        let line = unicode::trimmed(lines.last());
        if line.len() == 0 {
            filled_lines(lines.drop_last())
        } else {
            filled_lines(lines.drop_last()).push(line)
        }
    }
}

/// The command names that a shell printed, one per line.
pub fn read_command_list(output: &str) -> (r: Vec<String>)
    ensures
        texts(r@) == filled_lines(text::lines(output@)),
{
    let lines = text::split_lines(text::chars_of(output).as_slice());
    let ghost all = text::lines(output@);
    let mut r: Vec<String> = Vec::new();
    let mut i: usize = 0;
    assert(all.take(0) =~= Seq::empty());
    assert(texts(r@) =~= Seq::empty());
    while i < lines.len()
        invariant
            i <= lines@.len(),
            all == lines@.map_values(|w: Vec<char>| w@),
            texts(r@) == filled_lines(all.take(i as int)),
        decreases lines@.len() - i,
    {
        assert(all[i as int] == lines@[i as int]@);
        assert(all.take(i + 1).drop_last() =~= all.take(i as int));
        let string = text::string_of(lines[i].as_slice());
        let line = unicode::trim(string.as_str());
        if !line.as_str().is_empty() {
            let ghost before = texts(r@);
            r.push(line);
            assert(texts(r@) =~= before.push(line@));
        }
        i += 1;
    }
    assert(all.take(i as int) =~= all);
    r
}

/// What completes a prefix to a command that is longer.
pub open spec fn rest_of(command: Seq<char>, prefix: Seq<char>, ignore_case: bool) -> Option<
    Seq<char>,
> {
    if prefix.len() < command.len() && key(command.take(prefix.len() as int), ignore_case) == key(
        prefix,
        ignore_case,
    ) {
        Some(command.skip(prefix.len() as int))
    } else {
        None
    }
}

/// What completes a prefix to the first command that it begins.
pub open spec fn hint(commands: Seq<Seq<char>>, prefix: Seq<char>, ignore_case: bool) -> Option<
    Seq<char>,
>
    decreases commands.len(),
{
    if prefix.len() == 0 || commands.len() == 0 {
        None
    } else {
        match rest_of(commands[0], prefix, ignore_case) {
            Some(rest) => Some(rest),
            None => hint(commands.drop_first(), prefix, ignore_case),
        }
    }
}

/// What completes a prefix to the first command that it begins.
pub fn nebula_command_hint(commands: &Vec<String>, prefix: &str, ignore_case: bool) -> (r: Option<
    String,
>)
    ensures
        optional_text(r) == hint(texts(commands@), prefix@, ignore_case),
{
    let ghost all = texts(commands@);
    let p = text::chars_of(prefix);
    if p.len() == 0 {
        return None;
    }
    let wanted = key_text(prefix, ignore_case);
    let mut i: usize = 0;
    assert(all.skip(0) =~= all);
    while i < commands.len()
        invariant
            i <= commands@.len(),
            all == texts(commands@),
            p@ == prefix@,
            p@.len() > 0,
            wanted@ == key(prefix@, ignore_case),
            hint(all, prefix@, ignore_case) == hint(all.skip(i as int), prefix@, ignore_case),
        decreases commands@.len() - i,
    {
        assert(all.skip(i as int)[0] == commands@[i as int]@);
        assert(all.skip(i as int).drop_first() =~= all.skip(i + 1));
        let v = text::chars_of(commands[i].as_str());
        if p.len() < v.len() {
            let head = text::string_of_range(v.as_slice(), 0, p.len());
            assert(head@ =~= v@.take(p@.len() as int));
            if text::same(key_text(head.as_str(), ignore_case).as_slice(), wanted.as_slice()) {
                let rest = text::string_of_range(v.as_slice(), p.len(), v.len());
                assert(rest@ =~= v@.skip(p@.len() as int));
                return Some(rest);
            }
        }
        i += 1;
    }
    None
}

/// Whether a line is still its first word, and that word can only name a
/// command: no blank, no separator, no drive.
pub open spec fn is_command_word(line: Seq<char>) -> bool {
    !line.contains(' ') && !line.contains('\t') && !line.contains('/') && !line.contains('\\')
        && !(line.len() > 1 && (line[0] as u32) < 128 && line[1] == ':')
}

/// Whether a line is still at the position of a command.
pub fn nebula_is_command_position(line: &str) -> (r: bool)
    ensures
        r == is_command_word(line@),
{
    if text::contains_char(line, ' ') || text::contains_char(line, '\t') || text::contains_char(
        line,
        '/',
    ) || text::contains_char(line, '\\') {
        return false;
    }
    let v = text::chars_of(line);
    !(v.len() > 1 && (v[0] as u32) < 128 && v[1] == ':')
}

/// How many characters stand in front of the first blank.
pub open spec fn first_word_len(line: Seq<char>) -> nat
    decreases line.len(),
{
    if line.len() == 0 || line[0] == ' ' || line[0] == '\t' {
        0
    } else {
        1 + first_word_len(line.drop_first())
    }
}

/// Whether the path that a line completes has to name a directory.
pub open spec fn wants_directory(line: Seq<char>) -> bool {
    let command = text::ascii_lower(line.take(first_word_len(line) as int));
    command == "cd"@ || command == "chdir"@ || command == "pushd"@ || command == "sl"@ || command
        == "set-location"@
}

/// Whether the path that a line completes has to name a directory.
pub fn nebula_path_wants_directory(line: &str) -> (r: bool)
    ensures
        r == wants_directory(line@),
{
    let v = text::chars_of(line);
    let mut n: usize = 0;
    assert(v@.skip(0) =~= v@);
    while n < v.len() && v[n] != ' ' && v[n] != '\t'
        invariant
            n <= v@.len(),
            first_word_len(v@) == n + first_word_len(v@.skip(n as int)),
        decreases v@.len() - n,
    {
        assert(v@.skip(n as int).drop_first() =~= v@.skip(n + 1));
        n += 1;
    }
    let word = text::string_of_range(v.as_slice(), 0, n);
    assert(word@ =~= v@.take(n as int));
    let command = text::to_ascii_lower(word.as_str());
    let command: &str = command.as_str();
    text::str_eq(command, "cd") || text::str_eq(command, "chdir") || text::str_eq(
        command,
        "pushd",
    ) || text::str_eq(command, "sl") || text::str_eq(command, "set-location")
}

pub open spec fn distinct(names: Seq<Seq<char>>, ignore_case: bool) -> bool {
    forall|i: int, j: int|
        0 <= i < j < names.len() ==> key(#[trigger] names[i], ignore_case) != key(
            #[trigger] names[j],
            ignore_case,
        )
}

/// Merging keeps every name once: none is lost, none is doubled.
pub proof fn law_merging_keeps_each_command_once(
    names: Seq<Seq<char>>,
    more: Seq<Seq<char>>,
    ignore_case: bool,
)
    requires
        distinct(names, ignore_case),
    ensures
        distinct(merged(names, more, ignore_case), ignore_case),
        names.is_prefix_of(merged(names, more, ignore_case)),
        forall|i: int|
            0 <= i < more.len() ==> knows(
                merged(names, more, ignore_case),
                #[trigger] more[i],
                ignore_case,
            ),
    decreases more.len(),
{
    if more.len() > 0 {
        let front = more.drop_last();
        law_merging_keeps_each_command_once(names, front, ignore_case);
        let held = merged(names, front, ignore_case);
        let out = merged(names, more, ignore_case);
        assert forall|i: int| 0 <= i < more.len() implies knows(
            out,
            #[trigger] more[i],
            ignore_case,
        ) by {
            if i < front.len() {
                assert(front[i] == more[i]);
                assert(knows(held, front[i], ignore_case));
                let k = choose|k: int|
                    0 <= k < held.len() && key(#[trigger] held[k], ignore_case) == key(
                        front[i],
                        ignore_case,
                    );
                assert(out[k] == held[k]);
            } else if !knows(held, more.last(), ignore_case) {
                assert(out[held.len() as int] == more[i]);
            }
        }
    }
}

proof fn lemma_name_order(ignore_case: bool)
    ensures
        order::is_order(name_order(ignore_case)),
{
    let before = name_order(ignore_case);
    assert forall|a: Seq<char>, b: Seq<char>| #[trigger] before(a, b) implies !before(b, a) by {
        text::lemma_lex_total(key(a, ignore_case), key(b, ignore_case));
        text::lemma_lex_total(a, b);
    }
    assert forall|a: Seq<char>, b: Seq<char>, c: Seq<char>|
        !#[trigger] before(b, a) && !#[trigger] before(c, b) implies !before(c, a) by {
        let (x, y, z) = (key(a, ignore_case), key(b, ignore_case), key(c, ignore_case));
        text::lemma_lex_total(x, y);
        text::lemma_lex_total(y, z);
        text::lemma_lex_total(x, z);
        text::lemma_lex_transitive(x, y, z);
        if x == y && y == z {
            text::lemma_lex_transitive(a, b, c);
        } else if x == z {
            assert(!text::lex_lt(y, x) && !text::lex_lt(z, y));
            assert(false);
        }
    }
}

/// The list of commands is in order.
pub proof fn law_commands_are_sorted(names: Seq<Seq<char>>, ignore_case: bool)
    ensures
        order::is_sorted(sorted(names, ignore_case), name_order(ignore_case)),
        sorted(names, ignore_case).to_multiset() == names.to_multiset(),
{
    lemma_name_order(ignore_case);
    order::lemma_sort_orders(names, name_order(ignore_case));
    order::lemma_sort_keeps(names, name_order(ignore_case));
}

/// A hint completes the prefix to one of the commands, up to case where case is
/// ignored.
pub proof fn law_hints_complete_a_command(
    commands: Seq<Seq<char>>,
    prefix: Seq<char>,
    ignore_case: bool,
)
    ensures
        hint(commands, prefix, ignore_case) matches Some(rest) ==> rest.len() > 0 && knows(
            commands,
            prefix + rest,
            ignore_case,
        ),
    decreases commands.len(),
{
    if prefix.len() > 0 && commands.len() > 0 {
        let c = commands[0];
        match rest_of(c, prefix, ignore_case) {
            Some(rest) => {
                let n = prefix.len() as int;
                assert(key(c, ignore_case) =~= key(prefix + rest, ignore_case)) by {
                    assert(key(c.take(n), ignore_case) == key(prefix, ignore_case));
                    assert forall|i: int| 0 <= i < n implies key(c, ignore_case)[i] == key(
                        prefix + rest,
                        ignore_case,
                    )[i] by {
                        assert(key(c, ignore_case)[i] == key(c.take(n), ignore_case)[i]);
                        assert(key(prefix + rest, ignore_case)[i] == key(prefix, ignore_case)[i]);
                    }
                }
            },
            None => {
                let tail = commands.drop_first();
                law_hints_complete_a_command(tail, prefix, ignore_case);
                if let Some(rest) = hint(tail, prefix, ignore_case) {
                    let k = choose|k: int|
                        0 <= k < tail.len() && key(#[trigger] tail[k], ignore_case) == key(
                            prefix + rest,
                            ignore_case,
                        );
                    assert(commands[k + 1] == tail[k]);
                }
            },
        }
    }
}

} // verus!
