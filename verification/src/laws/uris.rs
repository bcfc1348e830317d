//! What `file:` URIs stand for.

use vstd::prelude::*;

use crate::file_uri;
use crate::file_uri::Target;
use crate::text;

verus! {

/// Slashes turned into backslashes.
pub open spec fn turned(s: Seq<char>) -> Seq<char> {
    Seq::new(
        s.len(),
        |k: int|
            if s[k] == '/' {
                '\\'
            } else {
                s[k]
            },
    )
}

/// The letter of a drive, in upper case.
pub open spec fn drive(c: char) -> char {
    if 'a' <= c <= 'z' {
        (c as u32 - 32) as char
    } else {
        c
    }
}

/// Whether a character is the letter of a drive.
pub open spec fn is_drive(c: char) -> bool {
    'a' <= c <= 'z' || 'A' <= c <= 'Z'
}

/// A URI of files begins with its scheme, in any case, and two slashes; what is
/// behind them decides. Nothing else is one.
pub proof fn law_only_file_uris_count(uri: Seq<char>, rest: Seq<char>, computer: Option<Seq<char>>)
    ensures
        text::ascii_lower(uri) == "file:"@ ==> file_uri::target(uri + "//"@ + rest, computer)
            == file_uri::authority_target(rest, computer),
        uri.len() < 7 || text::ascii_lower(uri.take(5)) != "file:"@ || uri.subrange(5, 7) != "//"@
            ==> file_uri::target(uri, computer) == Target::Nothing,
{
    reveal_strlit("file:");
    reveal_strlit("//");
    assert("file:"@.len() == 5);
    assert("//"@.len() == 2);
    if text::ascii_lower(uri) == "file:"@ {
        let whole = uri + "//"@ + rest;
        assert(uri.len() == 5);
        assert(whole.take(5) =~= uri);
        assert(whole.skip(5) =~= "//"@ + rest);
        assert(("//"@ + rest).subrange(0, 2) =~= "//"@);
        assert(whole.skip(7) =~= rest);
    }
    if uri.len() >= 7 {
        assert(uri.skip(5).subrange(0, 2) =~= uri.subrange(5, 7));
    }
}

proof fn lemma_first_slash(a: Seq<char>, b: Seq<char>)
    requires
        !a.contains('/'),
        b.len() > 0 ==> b[0] == '/',
    ensures
        file_uri::first_slash(a + b) == a.len(),
    decreases a.len(),
{
    if a.len() == 0 {
        assert(a + b =~= b);
    } else {
        assert(a.contains(a[0]));
        assert((a + b).drop_first() =~= a.drop_first() + b);
        assert forall|i: int| 0 <= i < a.len() - 1 implies a.drop_first()[i] != '/' by {
            assert(a.contains(a[i + 1]));
        }
        lemma_first_slash(a.drop_first(), b);
    }
}

/// Whether a host is this machine: none, the usual names, or the name of the
/// computer in any case.
pub open spec fn is_here(host: Seq<char>, computer: Option<Seq<char>>) -> bool {
    ||| host == Seq::<char>::empty()
    ||| text::ascii_lower(host) == "localhost"@
    ||| host == "127.0.0.1"@
    ||| host == "::1"@
    ||| host == "[::1]"@
    ||| computer is Some && text::ascii_lower(computer->0) == text::ascii_lower(host)
}

/// A path on this machine is decoded and taken for a local one; one on another
/// machine is a share there. Without a path there is nothing.
pub proof fn law_hosts_decide(host: Seq<char>, path: Seq<char>, computer: Option<Seq<char>>)
    requires
        !host.contains('/'),
        !host.contains('%'),
        !path.contains('%'),
    ensures
        file_uri::authority_target(host, computer) == Target::Nothing,
        is_here(host, computer) ==> file_uri::authority_target(
            host + (seq!['/'] + path),
            computer,
        ) == file_uri::local_target(seq!['/'] + path),
        !is_here(host, computer) && (path.len() == 0 || path[0] != '/')
            ==> file_uri::authority_target(host + (seq!['/'] + path), computer) == Target::Path(
            seq!['\\', '\\'] + host + seq!['\\'] + turned(path),
        ),
{
    let full = seq!['/'] + path;
    let rest = host + full;
    lemma_first_slash(host, full);
    lemma_first_slash(host, Seq::empty());
    assert(host + Seq::empty() =~= host);
    assert(rest.take(host.len() as int) =~= host);
    assert(rest.skip(host.len() as int) =~= full);
    assert forall|i: int| 0 <= i < full.len() implies full[i] != '%' by {
        if i > 0 {
            assert(path.contains(path[i - 1]));
        }
    }
    file_uri::law_decoding_keeps_plain_text(full);
    assert forall|i: int| 0 <= i < host.len() implies host[i] != '%' by {
        assert(host.contains(host[i]));
    }
    file_uri::law_decoding_keeps_plain_text(host);
    assert(file_uri::is_local_host(host, computer) <==> is_here(host, computer)) by {
        if host.len() == 0 {
            assert(host =~= Seq::<char>::empty());
        }
    }
    if path.len() == 0 || path[0] != '/' {
        assert(full.drop_first() =~= path);
        assert(file_uri::trim_slashes(path) == path);
        assert(file_uri::trim_slashes(full) == path);
        assert(file_uri::backslashed(path) =~= turned(path));
    }
}

/// A path with a drive behind its slash is that path, spelled as Windows does.
pub proof fn law_drive_paths(d: char, more: Seq<char>)
    requires
        is_drive(d),
    ensures
        file_uri::local_target(seq!['/', d, ':'] + more) == Target::Path(
            seq![drive(d), ':'] + turned(more),
        ),
{
    let path = seq!['/', d, ':'] + more;
    let rest = path.skip(1);
    assert(rest[0] == d && rest[1] == ':');
    assert(file_uri::backslashed(rest)[0] == d);
    assert(file_uri::windows_path(rest) =~= seq![drive(d), ':'] + turned(more));
}

proof fn lemma_on_drive(d: char, more: Seq<char>)
    requires
        is_drive(d),
    ensures
        file_uri::on_drive(drive(d), more) == seq![drive(d), ':', '\\'] + turned(more),
{
    let s = seq![drive(d), ':', '/'] + more;
    assert(file_uri::backslashed(s)[0] == drive(d));
    assert(file_uri::windows_path(s) =~= seq![drive(d), ':', '\\'] + turned(more));
}

proof fn lemma_mounted(d: char, more: Seq<char>)
    requires
        is_drive(d),
    ensures
        file_uri::mounted(seq![d, '/'] + more) == Some(
            seq![drive(d), ':', '\\'] + turned(more),
        ),
{
    let after = seq![d, '/'] + more;
    assert(!seq![d].contains('/')) by {
        assert(seq![d][0] == d);
    }
    lemma_first_slash(seq![d], seq!['/'] + more);
    assert(seq![d] + (seq!['/'] + more) =~= after);
    assert(after.take(1) =~= seq![d]);
    assert(after.skip(2) =~= more);
    lemma_on_drive(d, more);
}

/// A drive mounted in a subsystem is that drive: under `/mnt`, under `/cygdrive`,
/// or right under the root, if there is such a drive.
pub proof fn law_mounted_drives(d: char, more: Seq<char>)
    requires
        is_drive(d),
    ensures
        ({
            let path = seq![drive(d), ':', '\\'] + turned(more);
            &&& file_uri::local_target("/mnt/"@ + (seq![d, '/'] + more)) == Target::Path(path)
            &&& file_uri::local_target("/cygdrive/"@ + (seq![d, '/'] + more)) == Target::Path(path)
            &&& file_uri::local_target(seq!['/', d, '/'] + more) == Target::OnDrive(
                drive(d),
                path,
            )
        }),
{
    reveal_strlit("/mnt/");
    reveal_strlit("mnt/");
    reveal_strlit("/cygdrive/");
    reveal_strlit("cygdrive/");
    assert("/mnt/"@.len() == 5 && "mnt/"@.len() == 4);
    assert("/cygdrive/"@.len() == 10 && "cygdrive/"@.len() == 9);
    lemma_mounted(d, more);
    let after = seq![d, '/'] + more;
    let a = "/mnt/"@ + after;
    assert(a[0] == '/' && a[1] == 'm' && a[2] == 'n');
    assert(a.skip(1)[1] == 'n');
    let at = file_uri::trim_slashes(a);
    assert(a.drop_first()[0] == 'm');
    assert(file_uri::trim_slashes(a.drop_first()) == a.drop_first());
    assert(at =~= a.drop_first());
    assert(at.subrange(0, 4) =~= "mnt/"@);
    assert(at.skip(4) =~= after);
    let b = "/cygdrive/"@ + after;
    assert(b[0] == '/' && b[1] == 'c' && b[2] == 'y');
    assert(b.skip(1)[1] == 'y');
    let bt = file_uri::trim_slashes(b);
    assert(b.drop_first()[0] == 'c');
    assert(file_uri::trim_slashes(b.drop_first()) == b.drop_first());
    assert(bt =~= b.drop_first());
    assert(bt.subrange(0, 9) =~= "cygdrive/"@);
    assert(bt.skip(9) =~= after);
    assert(!text::starts_with(bt, "mnt/"@)) by {
        assert(bt[0] == 'c');
        assert("mnt/"@[0] == 'm');
        if text::starts_with(bt, "mnt/"@) {
            assert(bt.subrange(0, 4)[0] == 'c');
        }
    }
    let c = seq!['/', d, '/'] + more;
    assert(c.skip(1)[1] == '/');
    let ct = file_uri::trim_slashes(c);
    assert(c.drop_first() =~= after);
    assert(after[0] == d);
    assert(file_uri::trim_slashes(after) == after);
    assert(ct =~= after);
    assert(ct[1] == '/');
    assert(!text::starts_with(ct, "mnt/"@)) by {
        if text::starts_with(ct, "mnt/"@) {
            assert(ct.subrange(0, 4)[1] == "mnt/"@[1]);
        }
    }
    assert(!text::starts_with(ct, "cygdrive/"@)) by {
        if text::starts_with(ct, "cygdrive/"@) {
            assert(ct.subrange(0, 9)[1] == "cygdrive/"@[1]);
        }
    }
    assert(!seq![d].contains('/')) by {
        assert(seq![d][0] == d);
    }
    lemma_first_slash(seq![d], seq!['/'] + more);
    assert(seq![d] + (seq!['/'] + more) =~= after);
    assert(after.take(1) =~= seq![d]);
    assert(after.skip(2) =~= more);
    lemma_on_drive(d, more);
}

/// A path under any other directory of the root is nothing that can be opened here.
pub proof fn law_other_roots_are_nothing(name: Seq<char>, more: Seq<char>)
    requires
        name.len() >= 2,
        !name.contains('/'),
        name != "mnt"@,
        name != "cygdrive"@,
        !(is_drive(name[0]) && name[1] == ':'),
    ensures
        file_uri::local_target(seq!['/'] + name + (seq!['/'] + more)) == Target::Nothing,
        file_uri::local_target(seq!['/'] + name) == Target::Nothing,
{
    reveal_strlit("mnt/");
    reveal_strlit("mnt");
    reveal_strlit("cygdrive/");
    reveal_strlit("cygdrive");
    assert("mnt/"@.len() == 4 && "cygdrive/"@.len() == 9);
    assert("mnt"@.len() == 3 && "cygdrive"@.len() == 8);
    lemma_other_root(name, seq!['/'] + more);
    lemma_other_root(name, Seq::empty());
    assert(seq!['/'] + name + Seq::empty() =~= seq!['/'] + name);
}

proof fn lemma_other_root(name: Seq<char>, tail: Seq<char>)
    requires
        name.len() >= 2,
        !name.contains('/'),
        name != "mnt"@,
        name != "cygdrive"@,
        !(is_drive(name[0]) && name[1] == ':'),
        tail.len() > 0 ==> tail[0] == '/',
    ensures
        file_uri::local_target(seq!['/'] + name + tail) == Target::Nothing,
{
    reveal_strlit("mnt/");
    reveal_strlit("mnt");
    reveal_strlit("cygdrive/");
    reveal_strlit("cygdrive");
    assert("mnt/"@.len() == 4 && "cygdrive/"@.len() == 9);
    assert("mnt"@.len() == 3 && "cygdrive"@.len() == 8);
    let path = seq!['/'] + name + tail;
    let t = file_uri::trim_slashes(path);
    assert(name.contains(name[0]));
    assert(path.drop_first() =~= name + tail);
    assert(path.skip(1) =~= name + tail);
    assert((name + tail)[0] == name[0]);
    assert(file_uri::trim_slashes(name + tail) == name + tail);
    assert(t =~= name + tail);
    lemma_first_slash(name, tail);
    assert(t.take(name.len() as int) =~= name);
    if text::starts_with(t, "mnt/"@) {
        let p = t.subrange(0, 4);
        assert(p[3] == '/');
        if name.len() > 3 {
            assert(t[3] == name[3]);
            assert(name.contains(name[3]));
        } else if name.len() < 3 {
            assert(t[name.len() as int] == '/');
            assert(p[name.len() as int] == '/');
        } else {
            assert forall|k: int| 0 <= k < 3 implies name[k] == "mnt"@[k] by {
                assert(p[k] == t[k]);
            }
            assert(name =~= "mnt"@);
        }
    }
    if text::starts_with(t, "cygdrive/"@) {
        let p = t.subrange(0, 9);
        assert(p[8] == '/');
        if name.len() > 8 {
            assert(t[8] == name[8]);
            assert(name.contains(name[8]));
        } else if name.len() < 8 {
            assert(t[name.len() as int] == '/');
            assert(p[name.len() as int] == '/');
        } else {
            assert forall|k: int| 0 <= k < 8 implies name[k] == "cygdrive"@[k] by {
                assert(p[k] == t[k]);
            }
            assert(name =~= "cygdrive"@);
        }
    }
}

/// A percent sign and two hexadecimal digits stand for a byte, in either case; any
/// other byte stands for itself.
pub proof fn law_escapes_stand_for_bytes(
    b: u8,
    rest: Seq<u8>,
    h: u8,
    high: u8,
    g: u8,
    low: u8,
)
    requires
        high < 16,
        low < 16,
        is_hex(h, high),
        is_hex(g, low),
        b != 37,
    ensures
        file_uri::unescaped(seq![37u8, h, g] + rest) == seq![(high * 16 + low) as u8]
            + file_uri::unescaped(rest),
        file_uri::unescaped(seq![b] + rest) == seq![b] + file_uri::unescaped(rest),
        file_uri::unescaped(Seq::empty()) == Seq::<u8>::empty(),
{
    let s = seq![37u8, h, g] + rest;
    assert(s[0] == 37 && s[1] == h && s[2] == g);
    assert(s.skip(3) =~= rest);
    assert((seq![b] + rest).drop_first() =~= rest);
}

/// Whether a byte is the hexadecimal digit of a value.
pub open spec fn is_hex(digit: u8, value: u8) -> bool {
    if value < 10 {
        digit as char as u32 == '0' as u32 + value
    } else {
        digit as char as u32 == 'a' as u32 + value - 10 || digit as char as u32 == 'A' as u32
            + value - 10
    }
}

} // verus!
