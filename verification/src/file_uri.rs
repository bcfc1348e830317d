//! Translate `file://` URIs (from OSC 8 hyperlinks) into native Windows paths.
//!
//! The shells Nebula integrates with all emit clickable `ls` entries as OSC 8
//! `file://` links, but they disagree on the path dialect inside the URI:
//!
//! - **PowerShell** (`Nebula-List`): `file:///C:/Users/me/a%20b.txt`: empty
//!   host, real Windows drive path, percent-encoded.
//! - **Git-bash / MSYS** (`ls --hyperlink`): `file://HOST/d/temp/x`: MSYS
//!   drive form (`/d/...`), so the leading segment is the drive letter.
//! - **WSL** (`ls --hyperlink`): `file://HOST/mnt/c/x`: the WSL mount form
//!   (`/mnt/<drive>/...`), or `/cygdrive/<drive>/...` under some coreutils builds.
//!
//! Feeding those posix-looking paths to `cmd /c start ""` fails: `explorer`
//! can't resolve `/d/temp` and `cmd`'s own tokenizer mangles URIs with spaces
//! or non-ASCII bytes. Normalizing to a real Windows path up front lets us hand
//! `explorer.exe` a path it can always open, and keeps unicode filenames intact
//! (percent-decoding is UTF-8 aware).

use vstd::prelude::*;

use crate::text;

verus! {

/// The value of a hexadecimal digit.
pub open spec fn hex_digit(c: u8) -> Option<u8> {
    if 48 <= c <= 57 {
        Some((c - 48) as u8)
    } else if 97 <= c <= 102 {
        Some((c - 87) as u8)
    } else if 65 <= c <= 70 {
        Some((c - 55) as u8)
    } else {
        None
    }
}

/// Whether `b` begins with a well-formed `%HH` escape.
pub open spec fn is_escape(b: Seq<u8>) -> bool {
    b.len() >= 3 && b[0] == 37 && hex_digit(b[1]) is Some && hex_digit(b[2]) is Some
}

/// `b` with every `%HH` escape replaced by its byte. Malformed escapes stay.
pub open spec fn unescaped(b: Seq<u8>) -> Seq<u8>
    decreases b.len(),
{
    if b.len() == 0 {
        Seq::empty()
    } else if is_escape(b) {
        seq![(hex_digit(b[1])->0 * 16 + hex_digit(b[2])->0) as u8] + unescaped(b.skip(3))
    } else {
        seq![b[0]] + unescaped(b.drop_first())
    }
}

/// The text that bytes decode to, with invalid sequences replaced.
pub uninterp spec fn lossy_text(b: Seq<u8>) -> Seq<char>;

/// `String::from_utf8_lossy`: valid UTF-8 is decoded; a leading ASCII byte is
/// kept whatever follows it.
#[verifier::external_body]
fn decode_lossy(b: &[u8]) -> (r: String)
    ensures
        r@ == lossy_text(b@),
        vstd::utf8::valid_utf8(b@) ==> r@ == vstd::utf8::decode_utf8(b@),
        b@.len() > 0 && b@[0] < 128 ==> r@.len() > 0 && r@[0] == b@[0] as char,
{
    String::from_utf8_lossy(b).into_owned()
}

/// The percent-decoded text of `s`, with invalid sequences replaced.
pub open spec fn percent_decoded(s: Seq<char>) -> Seq<char> {
    let b = unescaped(vstd::utf8::encode_utf8(s));
    if vstd::utf8::valid_utf8(b) {
        vstd::utf8::decode_utf8(b)
    } else {
        lossy_text(b)
    }
}

/// The value of a hexadecimal digit.
pub fn hex_val(c: u8) -> (r: Option<u8>)
    ensures
        r == hex_digit(c),
        r matches Some(v) ==> v < 16,
{
    if 48 <= c && c <= 57 {
        Some(c - 48)
    } else if 97 <= c && c <= 102 {
        Some(c - 87)
    } else if 65 <= c && c <= 70 {
        Some(c - 55)
    } else {
        None
    }
}

/// UTF-8 aware percent-decoding. `%HH` pairs are collected into a byte buffer
/// and decoded as UTF-8 at the end, so multi-byte characters (e.g. CJK
/// filenames encoded by the shell) round-trip correctly. Malformed escapes are
/// left verbatim.
pub fn percent_decode_utf8(s: &str) -> (r: String)
    ensures
        r@ == percent_decoded(s@),
        s@.len() > 0 && s@[0] == '/' ==> r@.len() > 0 && r@[0] == '/',
{
    let b = s.as_bytes();
    let mut out: Vec<u8> = Vec::new();
    let mut i: usize = 0;
    assert(b@.skip(0) =~= b@);
    assert(out@ + unescaped(b@) =~= unescaped(b@));
    while i < b.len()
        invariant
            i <= b@.len(),
            out@ + unescaped(b@.skip(i as int)) == unescaped(b@),
        decreases b@.len() - i,
    {
        let ghost rest = b@.skip(i as int);
        let ghost before = out@;
        assert(rest[0] == b@[i as int]);
        assert(rest.drop_first() =~= b@.skip(i + 1));
        if b[i] == 37 && b.len() - i > 2 {
            assert(rest[1] == b@[i + 1] && rest[2] == b@[i + 2]);
            if let (Some(h), Some(l)) = (hex_val(b[i + 1]), hex_val(b[i + 2])) {
                assert(rest.skip(3) =~= b@.skip(i + 3));
                out.push(h * 16 + l);
                i += 3;
                assert(out@ + unescaped(b@.skip(i as int)) =~= before + unescaped(rest));
                continue;
            }
        }
        out.push(b[i]);
        i += 1;
        assert(out@ + unescaped(b@.skip(i as int)) =~= before + unescaped(rest));
    }
    assert(b@.skip(i as int) =~= Seq::empty());
    assert(out@ =~= unescaped(b@));
    proof {
        if s@.len() > 0 && s@[0] == '/' {
            lemma_slash_first(s@);
        }
    }
    decode_lossy(out.as_slice())
}

proof fn lemma_slash_first(s: Seq<char>)
    requires
        s.len() > 0,
        s[0] == '/',
    ensures
        unescaped(vstd::utf8::encode_utf8(s)).len() > 0,
        unescaped(vstd::utf8::encode_utf8(s))[0] == 47,
{
    let b = vstd::utf8::encode_utf8(s);
    let c = '/' as u32;
    assert(c & 0x7F == 47) by (bit_vector)
        requires
            c == 47,
    ;
    assert(vstd::utf8::encode_scalar(c)[0] == 47);
    assert(b[0] == 47);
}

/// The position of the first `/`, or the end.
pub open spec fn first_slash(s: Seq<char>) -> int
    decreases s.len(),
{
    if s.len() == 0 || s[0] == '/' {
        0
    } else {
        1 + first_slash(s.drop_first())
    }
}

/// `s` without its leading slashes.
pub open spec fn trim_slashes(s: Seq<char>) -> Seq<char>
    decreases s.len(),
{
    if s.len() > 0 && s[0] == '/' {
        trim_slashes(s.drop_first())
    } else {
        s
    }
}

/// What stands in front of the first `/`.
pub open spec fn head(s: Seq<char>) -> Seq<char> {
    s.take(first_slash(s))
}

/// What stands behind the first `/`.
pub open spec fn tail(s: Seq<char>) -> Seq<char> {
    if first_slash(s) < s.len() {
        s.skip(first_slash(s) + 1)
    } else {
        Seq::empty()
    }
}

/// `s` with backslashes for slashes.
pub open spec fn backslashed(s: Seq<char>) -> Seq<char> {
    s.map_values(
        |c: char|
            if c == '/' {
                '\\'
            } else {
                c
            },
    )
}

pub open spec fn is_letter(c: char) -> bool {
    ('a' <= c <= 'z') || ('A' <= c <= 'Z')
}

/// The ASCII upper case of a character; other characters stay.
pub open spec fn upper_char(c: char) -> char {
    if 'a' <= c <= 'z' {
        ((c as u8) - 32) as char
    } else {
        c
    }
}

/// Whether `s` begins with a drive such as `C:`.
pub open spec fn has_drive(s: Seq<char>) -> bool {
    s.len() >= 2 && is_letter(s[0]) && s[1] == ':'
}

/// The drive letter, in upper case, if `s` is exactly one letter.
pub open spec fn drive_letter(s: Seq<char>) -> Option<char> {
    if s.len() == 1 && is_letter(s[0]) {
        Some(upper_char(s[0]))
    } else {
        None
    }
}

/// A path in Windows spelling: backslashes, and the drive in upper case.
pub open spec fn windows_path(s: Seq<char>) -> Seq<char> {
    if has_drive(backslashed(s)) {
        backslashed(s).update(0, upper_char(backslashed(s)[0]))
    } else {
        backslashed(s)
    }
}

/// The path `rest` on the drive `drive`.
pub open spec fn on_drive(drive: char, rest: Seq<char>) -> Seq<char> {
    windows_path(seq![drive, ':', '/'] + rest)
}

/// What a URI stands for.
pub enum Target {
    /// Nothing that can be opened here.
    Nothing,
    /// A path.
    Path(Seq<char>),
    /// A path, provided that the drive exists.
    OnDrive(char, Seq<char>),
}

/// The path of a mount tail such as `c/x`.
pub open spec fn mounted(after: Seq<char>) -> Option<Seq<char>> {
    match drive_letter(head(after)) {
        Some(drive) => Some(on_drive(drive, tail(after))),
        None => None,
    }
}

/// What a decoded local URI path stands for. Taken in order: a drive path with
/// a stray leading slash, a WSL or Cygwin mount, and the MSYS drive form.
pub open spec fn local_target(path: Seq<char>) -> Target {
    let rest = path.skip(1);
    let trimmed = trim_slashes(path);
    let wsl = if text::starts_with(trimmed, "mnt/"@) {
        mounted(trimmed.skip(4))
    } else {
        None
    };
    let cygwin = if text::starts_with(trimmed, "cygdrive/"@) {
        mounted(trimmed.skip(9))
    } else {
        None
    };
    if has_drive(rest) {
        Target::Path(windows_path(rest))
    } else if wsl is Some {
        Target::Path(wsl->0)
    } else if cygwin is Some {
        Target::Path(cygwin->0)
    } else {
        match drive_letter(head(trimmed)) {
            Some(drive) => Target::OnDrive(drive, on_drive(drive, tail(trimmed))),
            None => Target::Nothing,
        }
    }
}

/// Whether a URI host names this machine.
pub open spec fn is_local_host(host: Seq<char>, computer_name: Option<Seq<char>>) -> bool {
    ||| host.len() == 0
    ||| text::ascii_lower(host) == "localhost"@
    ||| host == "127.0.0.1"@
    ||| host == "::1"@
    ||| host == "[::1]"@
    ||| computer_name matches Some(name) && text::ascii_lower(name) == text::ascii_lower(host)
}

/// What the part of a URI behind `file://` stands for.
pub open spec fn authority_target(rest: Seq<char>, computer_name: Option<Seq<char>>) -> Target {
    let slash = first_slash(rest);
    if slash == rest.len() {
        Target::Nothing
    } else {
        let host = rest.take(slash);
        let path = percent_decoded(rest.skip(slash));
        if is_local_host(host, computer_name) {
            local_target(path)
        } else if percent_decoded(host).len() == 0 {
            Target::Nothing
        } else {
            Target::Path(
                seq!['\\', '\\'] + percent_decoded(host) + seq!['\\'] + backslashed(
                    trim_slashes(path),
                ),
            )
        }
    }
}

/// What a URI stands for.
pub open spec fn target(uri: Seq<char>, computer_name: Option<Seq<char>>) -> Target {
    if uri.len() >= 5 && text::ascii_lower(uri.take(5)) == "file:"@ && text::starts_with(
        uri.skip(5),
        "//"@,
    ) {
        authority_target(uri.skip(7), computer_name)
    } else {
        Target::Nothing
    }
}

/// The position of the first `/` from `from` on.
fn find_slash(v: &Vec<char>, from: usize) -> (r: usize)
    requires
        from <= v@.len(),
    ensures
        from <= r <= v@.len(),
        first_slash(v@.skip(from as int)) == r - from,
        r < v@.len() ==> v@[r as int] == '/',
{
    let mut i: usize = from;
    while i < v.len() && v[i] != '/'
        invariant
            from <= i <= v@.len(),
            first_slash(v@.skip(from as int)) == i - from + first_slash(v@.skip(i as int)),
        decreases v@.len() - i,
    {
        assert(v@.skip(i as int).drop_first() =~= v@.skip(i + 1));
        i += 1;
    }
    i
}

/// Where the leading slashes from `from` on end.
fn skip_slashes(v: &Vec<char>, from: usize) -> (r: usize)
    requires
        from <= v@.len(),
    ensures
        from <= r <= v@.len(),
        trim_slashes(v@.skip(from as int)) == v@.skip(r as int),
{
    let mut i: usize = from;
    while i < v.len() && v[i] == '/'
        invariant
            from <= i <= v@.len(),
            trim_slashes(v@.skip(from as int)) == trim_slashes(v@.skip(i as int)),
        decreases v@.len() - i,
    {
        assert(v@.skip(i as int).drop_first() =~= v@.skip(i + 1));
        i += 1;
    }
    i
}

/// The characters from `from` on, with backslashes for slashes.
fn to_backslashes(v: &Vec<char>, from: usize) -> (r: Vec<char>)
    requires
        from <= v@.len(),
    ensures
        r@ == backslashed(v@.skip(from as int)),
{
    let mut r: Vec<char> = Vec::new();
    let mut i: usize = from;
    while i < v.len()
        invariant
            from <= i <= v@.len(),
            r@.len() == i - from,
            forall|j: int|
                0 <= j < r@.len() ==> #[trigger] r@[j] == backslashed(v@.skip(from as int))[j],
        decreases v@.len() - i,
    {
        if v[i] == '/' {
            r.push('\\');
        } else {
            r.push(v[i]);
        }
        i += 1;
    }
    assert(r@ =~= backslashed(v@.skip(from as int)));
    r
}

fn letter(c: char) -> (r: bool)
    ensures
        r == is_letter(c),
{
    ('a' <= c && c <= 'z') || ('A' <= c && c <= 'Z')
}

fn to_upper_char(c: char) -> (r: char)
    ensures
        r == upper_char(c),
{
    if 'a' <= c && c <= 'z' {
        ((c as u8) - 32) as char
    } else {
        c
    }
}

/// `true` for a `X:` / `X:/...` drive-letter prefix from `from` on.
fn is_drive_prefixed(v: &Vec<char>, from: usize) -> (r: bool)
    requires
        from <= v@.len(),
    ensures
        r == has_drive(v@.skip(from as int)),
{
    v.len() - from >= 2 && letter(v[from]) && v[from + 1] == ':'
}

/// The uppercase drive letter if `from..to` is exactly one ascii letter.
fn single_drive_letter(v: &Vec<char>, from: usize, to: usize) -> (r: Option<char>)
    requires
        from <= to <= v@.len(),
    ensures
        r == drive_letter(v@.subrange(from as int, to as int)),
{
    if to - from == 1 && letter(v[from]) {
        Some(to_upper_char(v[from]))
    } else {
        None
    }
}

/// Normalize forward slashes to backslashes and uppercase the drive letter.
fn to_windows(v: &Vec<char>, from: usize) -> (r: String)
    requires
        from <= v@.len(),
    ensures
        r@ == windows_path(v@.skip(from as int)),
{
    let mut out = to_backslashes(v, from);
    assert(out@.skip(0) =~= out@);
    if is_drive_prefixed(&out, 0) {
        let c = to_upper_char(out[0]);
        out.set(0, c);
    }
    text::string_of(out.as_slice())
}

/// The path from `from` on, on the drive `drive`.
fn drive_path(drive: char, v: &Vec<char>, from: usize) -> (r: String)
    requires
        from <= v@.len(),
    ensures
        r@ == on_drive(drive, v@.skip(from as int)),
{
    let mut whole: Vec<char> = Vec::new();
    whole.push(drive);
    whole.push(':');
    whole.push('/');
    let mut i: usize = from;
    while i < v.len()
        invariant
            from <= i <= v@.len(),
            whole@ =~= seq![drive, ':', '/'] + v@.subrange(from as int, i as int),
        decreases v@.len() - i,
    {
        whole.push(v[i]);
        i += 1;
    }
    assert(whole@.skip(0) =~= seq![drive, ':', '/'] + v@.skip(from as int));
    to_windows(&whole, 0)
}

/// Build a Windows path from a `<drive>/<rest>` mount tail (`c/x` to `C:\x`).
fn mount_drive_path(v: &Vec<char>, from: usize) -> (r: Option<String>)
    requires
        from <= v@.len(),
    ensures
        match r {
            Some(p) => mounted(v@.skip(from as int)) == Some(p@),
            None => mounted(v@.skip(from as int)) is None,
        },
{
    let ghost s = v@.skip(from as int);
    let slash: usize = find_slash(v, from);
    assert(head(s) =~= v@.subrange(from as int, slash as int));
    match single_drive_letter(v, from, slash) {
        None => None,
        Some(drive) => {
            let rest: usize = if slash < v.len() {
                slash + 1
            } else {
                slash
            };
            assert(tail(s) =~= v@.skip(rest as int));
            Some(drive_path(drive, v, rest))
        },
    }
}

/// What a URI stands for.
pub enum Resolved {
    /// Nothing that can be opened here.
    Nothing,
    /// A path.
    Path(String),
    /// A path, provided that the drive exists.
    OnDrive(char, String),
}

impl Resolved {
    pub open spec fn value(self) -> Target {
        match self {
            Resolved::Nothing => Target::Nothing,
            Resolved::Path(p) => Target::Path(p@),
            Resolved::OnDrive(d, p) => Target::OnDrive(d, p@),
        }
    }
}

/// Convert a decoded, local, posix-looking URI path into a Windows path.
///
/// `path` still has its leading '/' and forward slashes. Handles, in order:
/// Windows drive paths (`/C:/...`), WSL/Cygwin mounts (`/mnt/c/...`,
/// `/cygdrive/c/...`), and the MSYS drive form (`/c/...`).
pub fn translate_local_path(path: &str) -> (r: Resolved)
    requires
        path@.len() > 0,
    ensures
        r.value() == local_target(path@),
{
    let v = text::chars_of(path);
    assert(v@.skip(0) =~= path@);
    if is_drive_prefixed(&v, 1) {
        return Resolved::Path(to_windows(&v, 1));
    }
    let start: usize = skip_slashes(&v, 0);
    let ghost trimmed = trim_slashes(path@);
    assert(trimmed == v@.skip(start as int));
    let total: usize = v.len();
    let wsl = text::chars_of("mnt/");
    let cygwin = text::chars_of("cygdrive/");
    proof {
        reveal_strlit("mnt/");
        reveal_strlit("cygdrive/");
        assert(forall|p: Seq<char>|
            text::occurs_at(v@, p, start as int) <==> #[trigger] text::starts_with(trimmed, p)) by {
            assert forall|p: Seq<char>|
                text::occurs_at(v@, p, start as int) <==> #[trigger] text::starts_with(
                    trimmed,
                    p,
                ) by {
                if p.len() <= trimmed.len() {
                    assert(v@.subrange(start as int, start + p.len()) =~= trimmed.subrange(
                        0,
                        p.len() as int,
                    ));
                }
            }
        }
    }
    if text::occurs(v.as_slice(), wsl.as_slice(), start) {
        assert(text::starts_with(trimmed, "mnt/"@));
        assert(start + 4 <= total);
        assert(trimmed.skip(4) =~= v@.skip(start + 4));
        if let Some(p) = mount_drive_path(&v, start + 4) {
            return Resolved::Path(p);
        }
    }
    if text::occurs(v.as_slice(), cygwin.as_slice(), start) {
        assert(text::starts_with(trimmed, "cygdrive/"@));
        assert(start + 9 <= total);
        assert(trimmed.skip(9) =~= v@.skip(start + 9));
        if let Some(p) = mount_drive_path(&v, start + 9) {
            return Resolved::Path(p);
        }
    }
    let slash: usize = find_slash(&v, start);
    assert(head(trimmed) =~= v@.subrange(start as int, slash as int));
    match single_drive_letter(&v, start, slash) {
        None => Resolved::Nothing,
        Some(drive) => {
            let rest: usize = if slash < v.len() {
                slash + 1
            } else {
                slash
            };
            assert(tail(trimmed) =~= v@.skip(rest as int));
            Resolved::OnDrive(drive, drive_path(drive, &v, rest))
        },
    }
}

pub open spec fn optional_text(s: Option<&str>) -> Option<Seq<char>> {
    match s {
        Some(s) => Some(s@),
        None => None,
    }
}

/// Whether a URI host names this machine (so the path is local, not a share).
/// `ls --hyperlink` uses the machine's hostname; `computer_name` is our own.
pub fn host_is_local(host: &str, computer_name: Option<&str>) -> (r: bool)
    ensures
        r == is_local_host(host@, optional_text(computer_name)),
{
    let v = text::chars_of(host);
    let lower = text::to_ascii_lower(host);
    if v.len() == 0 || text::str_eq(lower.as_str(), "localhost") {
        return true;
    }
    if text::str_eq(host, "127.0.0.1") || text::str_eq(host, "::1") || text::str_eq(host, "[::1]") {
        return true;
    }
    match computer_name {
        Some(name) => text::str_eq(text::to_ascii_lower(name).as_str(), lower.as_str()),
        None => false,
    }
}

/// Strip a case-insensitive `file:` scheme prefix: whether it is there.
fn strip_scheme(v: &Vec<char>) -> (r: bool)
    ensures
        r == (v@.len() >= 5 && text::ascii_lower(v@.take(5)) == "file:"@),
{
    if v.len() < 5 {
        return false;
    }
    let start = text::string_of_range(v.as_slice(), 0, 5);
    assert(start@ =~= v@.take(5));
    let lower = text::to_ascii_lower(start.as_str());
    text::str_eq(lower.as_str(), "file:")
}

/// What a URI stands for on the machine named `computer_name`.
pub fn resolve(uri: &str, computer_name: Option<&str>) -> (r: Resolved)
    ensures
        r.value() == target(uri@, optional_text(computer_name)),
{
    let v = text::chars_of(uri);
    if !strip_scheme(&v) {
        return Resolved::Nothing;
    }
    proof {
        reveal_strlit("//");
        assert("//"@ =~= seq!['/', '/']);
        assert(uri@.len() >= 7 ==> uri@.skip(5).subrange(0, 2) =~= seq![uri@[5], uri@[6]]);
        assert(text::starts_with(uri@.skip(5), "//"@) ==> uri@.skip(5).subrange(0, 2)[0] == '/'
            && uri@.skip(5).subrange(0, 2)[1] == '/');
    }
    if v.len() < 7 || v[5] != '/' || v[6] != '/' {
        return Resolved::Nothing;
    }
    let ghost rest = uri@.skip(7);
    let slash: usize = find_slash(&v, 7);
    if slash == v.len() {
        return Resolved::Nothing;
    }
    let host = text::string_of_range(v.as_slice(), 7, slash);
    assert(host@ =~= rest.take(slash - 7));
    let raw = text::string_of_range(v.as_slice(), slash, v.len());
    assert(raw@ =~= rest.skip(slash - 7));
    let path = percent_decode_utf8(raw.as_str());
    if host_is_local(host.as_str(), computer_name) {
        translate_local_path(path.as_str())
    } else {
        let server = percent_decode_utf8(host.as_str());
        if text::chars_of(server.as_str()).len() == 0 {
            return Resolved::Nothing;
        }
        let path_chars = text::chars_of(path.as_str());
        let start: usize = skip_slashes(&path_chars, 0);
        let share = text::string_of(to_backslashes(&path_chars, start).as_slice());
        let mut out = String::new();
        out.push('\\');
        out.push('\\');
        out.append(server.as_str());
        out.push('\\');
        out.append(share.as_str());
        assert(path_chars@.skip(0) =~= path@);
        assert(out@ =~= seq!['\\', '\\'] + server@ + seq!['\\'] + share@);
        Resolved::Path(out)
    }
}

/// Decode a `file://` URI into a native Windows path, asking `drive_exists`
/// whether the drive of the ambiguous MSYS form is there.
pub fn file_uri_to_local_path_with(
    uri: &str,
    computer_name: Option<&str>,
    drive_exists: impl Fn(char) -> bool,
) -> (r: Option<String>)
    requires
        forall|c: char| 'A' <= c <= 'Z' ==> #[trigger] call_requires(drive_exists, (c,)),
    ensures
        match target(uri@, optional_text(computer_name)) {
            Target::Nothing => r is None,
            Target::Path(p) => r matches Some(s) && s@ == p,
            Target::OnDrive(d, p) => exists|there: bool|
                #[trigger] call_ensures(drive_exists, (d,), there) && (if there {
                    r matches Some(s) && s@ == p
                } else {
                    r is None
                }),
        },
{
    proof {
        lemma_drive_is_upper(uri@, optional_text(computer_name));
    }
    match resolve(uri, computer_name) {
        Resolved::Nothing => None,
        Resolved::Path(p) => Some(p),
        Resolved::OnDrive(drive, p) => {
            if drive_exists(drive) {
                Some(p)
            } else {
                None
            }
        },
    }
}

proof fn lemma_drive_is_upper(uri: Seq<char>, computer_name: Option<Seq<char>>)
    ensures
        target(uri, computer_name) matches Target::OnDrive(d, _) ==> 'A' <= d <= 'Z',
{
}

/// Decode a `file://` URI into a native Windows path.
///
/// Returns `None` when the input is not a `file:` URI (so the caller can fall
/// back to the default hint action), or when it names nothing that can be
/// opened here. `drives` gates the ambiguous MSYS `/d/...` form: a single-letter
/// leading segment is only treated as a drive when that drive is among them,
/// otherwise it's a real directory named `d`.
pub fn file_uri_to_local_path(uri: &str, computer_name: Option<&str>, drives: &[char]) -> (r:
    Option<String>)
    ensures
        match target(uri@, optional_text(computer_name)) {
            Target::Nothing => r is None,
            Target::Path(p) => r matches Some(s) && s@ == p,
            Target::OnDrive(d, p) => if drives@.contains(d) {
                r matches Some(s) && s@ == p
            } else {
                r is None
            },
        },
{
    let listed = |c: char| -> (there: bool)
        ensures
            there == drives@.contains(c),
        { holds(drives, c) };
    file_uri_to_local_path_with(uri, computer_name, listed)
}

fn holds(v: &[char], c: char) -> (r: bool)
    ensures
        r == v@.contains(c),
{
    let mut i: usize = 0;
    while i < v.len()
        invariant
            i <= v@.len(),
            forall|j: int| 0 <= j < i ==> v@[j] != c,
        decreases v@.len() - i,
    {
        if v[i] == c {
            assert(v@[i as int] == c);
            return true;
        }
        i += 1;
    }
    false
}

/// Text without `%` is its own percent-decoding.
pub proof fn law_decoding_keeps_plain_bytes(b: Seq<u8>)
    requires
        forall|i: int| 0 <= i < b.len() ==> b[i] != 37,
    ensures
        unescaped(b) == b,
    decreases b.len(),
{
    if b.len() > 0 {
        assert forall|i: int| 0 <= i < b.len() - 1 implies b.drop_first()[i] != 37 by {
            assert(b[i + 1] != 37);
        }
        law_decoding_keeps_plain_bytes(b.drop_first());
        assert(seq![b[0]] + b.drop_first() =~= b);
    }
}

/// A character that is not `%` is not encoded by the byte of `%`.
proof fn lemma_no_percent(c: u32)
    requires
        c != 37,
    ensures
        forall|i: int|
            0 <= i < vstd::utf8::encode_scalar(c).len() ==> vstd::utf8::encode_scalar(c)[i] != 37,
{
    assert(c <= 0x7F ==> (c & 0x7F) as u8 == c) by (bit_vector);
    assert(0xC0u8 | ((c >> 6) & 0x1F) as u8 >= 0x80) by (bit_vector);
    assert(0xE0u8 | ((c >> 12) & 0x0F) as u8 >= 0x80) by (bit_vector);
    assert(0xF0u8 | ((c >> 18) & 0x7) as u8 >= 0x80) by (bit_vector);
    assert(0x80u8 | (c & 0x3F) as u8 >= 0x80) by (bit_vector);
    assert(0x80u8 | ((c >> 6) & 0x3F) as u8 >= 0x80) by (bit_vector);
    assert(0x80u8 | ((c >> 12) & 0x3F) as u8 >= 0x80) by (bit_vector);
}

proof fn lemma_plain_bytes(s: Seq<char>)
    requires
        forall|i: int| 0 <= i < s.len() ==> s[i] != '%',
    ensures
        forall|i: int|
            0 <= i < vstd::utf8::encode_utf8(s).len() ==> vstd::utf8::encode_utf8(s)[i] != 37,
    decreases s.len(),
{
    if s.len() > 0 {
        let head = vstd::utf8::encode_scalar(s[0] as u32);
        let rest = s.drop_first();
        assert forall|i: int| 0 <= i < rest.len() implies rest[i] != '%' by {
            assert(s[i + 1] != '%');
        }
        lemma_plain_bytes(rest);
        assert(s[0] as u32 != 37) by {
            if s[0] as u32 == 37 {
                vstd::utf8::char_u32_cast(s[0], 37);
                vstd::utf8::char_u32_cast('%', 37);
            }
        }
        lemma_no_percent(s[0] as u32);
        let all = vstd::utf8::encode_utf8(s);
        assert(all == head + vstd::utf8::encode_utf8(rest));
        assert forall|i: int| 0 <= i < all.len() implies all[i] != 37 by {
            if i < head.len() {
                assert(all[i] == head[i]);
            } else {
                assert(all[i] == vstd::utf8::encode_utf8(rest)[i - head.len()]);
            }
        }
    }
}

/// A string without `%` is its own percent-decoding.
pub proof fn law_decoding_keeps_plain_text(s: Seq<char>)
    requires
        forall|i: int| 0 <= i < s.len() ==> s[i] != '%',
    ensures
        percent_decoded(s) == s,
{
    lemma_plain_bytes(s);
    law_decoding_keeps_plain_bytes(vstd::utf8::encode_utf8(s));
    vstd::utf8::encode_utf8_valid_utf8(s);
    vstd::utf8::encode_utf8_decode_utf8(s);
}

/// Whether `e` is `b` with every byte written as a `%HH` escape, the digits in
/// either case.
pub open spec fn is_escaped(e: Seq<u8>, b: Seq<u8>) -> bool
    decreases b.len(),
{
    if b.len() == 0 {
        e.len() == 0
    } else {
        &&& e.len() >= 3
        &&& e[0] == 37
        &&& hex_digit(e[1]) == Some(b[0] / 16)
        &&& hex_digit(e[2]) == Some(b[0] % 16)
        &&& is_escaped(e.skip(3), b.drop_first())
    }
}

proof fn lemma_unescaped(e: Seq<u8>, b: Seq<u8>)
    requires
        is_escaped(e, b),
    ensures
        unescaped(e) == b,
    decreases b.len(),
{
    if b.len() > 0 {
        lemma_unescaped(e.skip(3), b.drop_first());
        assert(seq![b[0]] + b.drop_first() =~= b);
    } else {
        assert(b =~= Seq::empty());
    }
}

/// Percent-decoding gives back what percent-encoding wrote: every string comes
/// back from its UTF-8 bytes written as escapes.
pub proof fn law_decoding_undoes_encoding(encoded: Seq<char>, s: Seq<char>)
    requires
        is_escaped(vstd::utf8::encode_utf8(encoded), vstd::utf8::encode_utf8(s)),
    ensures
        percent_decoded(encoded) == s,
{
    lemma_unescaped(vstd::utf8::encode_utf8(encoded), vstd::utf8::encode_utf8(s));
    vstd::utf8::encode_utf8_valid_utf8(s);
    vstd::utf8::encode_utf8_decode_utf8(s);
}

/// A path that comes back names a drive in upper case, or a share.
pub proof fn law_local_paths_name_a_drive(path: Seq<char>)
    requires
        path.len() > 0,
    ensures
        match local_target(path) {
            Target::Path(p) => has_drive(p) && 'A' <= p[0] <= 'Z',
            Target::OnDrive(d, p) => has_drive(p) && p[0] == d,
            Target::Nothing => true,
        },
{
}

} // verus!
