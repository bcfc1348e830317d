//! Quoting of completed paths for safe insertion.

use vstd::prelude::*;

use crate::text;

verus! {

/// Whether a character could be read as a glob.
pub open spec fn is_glob(c: char) -> bool {
    c == '*' || c == '?' || c == '[' || c == ']'
}

/// Whether a character has a meaning to the command line.
pub open spec fn is_special(c: char) -> bool {
    c == '\'' || c == '"' || c == ' ' || c == '#' || c == '(' || c == ')' || c == '{' || c == '}'
        || c == '[' || c == ']' || c == '|' || c == ';'
}

/// Whether a character of `s` is a glob character or a backtick.
pub open spec fn needs_quotes(s: Seq<char>) -> bool {
    exists|i: int| 0 <= i < s.len() && (is_glob(#[trigger] s[i]) || s[i] == '`')
}

/// Whether a character of `s` has a meaning to the command line.
pub open spec fn contaminated(s: Seq<char>) -> bool {
    exists|i: int| 0 <= i < s.len() && is_special(#[trigger] s[i])
}

pub open spec fn is_digit(c: char) -> bool {
    '0' <= c <= '9'
}

/// How many digits `s` begins with.
pub open spec fn digit_run(s: Seq<char>) -> nat
    decreases s.len(),
{
    if s.len() > 0 && is_digit(s[0]) {
        1 + digit_run(s.drop_first())
    } else {
        0
    }
}

pub open spec fn is_sign(c: char) -> bool {
    c == '+' || c == '-'
}

/// `s` without one leading sign.
pub open spec fn unsigned(s: Seq<char>) -> Seq<char> {
    if s.len() > 0 && is_sign(s[0]) {
        s.drop_first()
    } else {
        s
    }
}

/// An exponent: `e` or `E`, an optional sign, and digits to the end.
pub open spec fn is_exponent(s: Seq<char>) -> bool {
    s.len() > 0 && (s[0] == 'e' || s[0] == 'E') && unsigned(s.drop_first()).len() > 0 && digit_run(
        unsigned(s.drop_first()),
    ) == unsigned(s.drop_first()).len()
}

/// Nothing, or an exponent.
pub open spec fn is_number_tail(s: Seq<char>) -> bool {
    s.len() == 0 || is_exponent(s)
}

/// An unsigned decimal number: digits with an optional point somewhere among
/// or beside them, and an optional exponent.
pub open spec fn is_decimal(s: Seq<char>) -> bool {
    let whole = digit_run(s);
    let rest = s.skip(whole as int);
    if rest.len() > 0 && rest[0] == '.' {
        let fraction = digit_run(rest.drop_first());
        whole + fraction > 0 && is_number_tail(rest.drop_first().skip(fraction as int))
    } else {
        whole > 0 && is_number_tail(rest)
    }
}

/// Whether `s` reads as a floating-point number: an optional sign, and then a
/// decimal number or, in any case, `inf`, `infinity` or `nan`.
pub open spec fn is_number(s: Seq<char>) -> bool {
    let body = unsigned(s);
    is_decimal(body) || text::ascii_lower(body) == "inf"@ || text::ascii_lower(body) == "infinity"@
        || text::ascii_lower(body) == "nan"@
}

proof fn lemma_digit_run(s: Seq<char>, n: int)
    requires
        0 <= n <= s.len(),
        forall|i: int| 0 <= i < n ==> is_digit(#[trigger] s[i]),
        n == s.len() || !is_digit(s[n]),
    ensures
        digit_run(s) == n,
    decreases n,
{
    if n > 0 {
        assert(is_digit(s[0]));
        assert forall|i: int| 0 <= i < n - 1 implies is_digit(#[trigger] s.drop_first()[i]) by {
            assert(is_digit(s[i + 1]));
        }
        lemma_digit_run(s.drop_first(), n - 1);
    }
}

/// Where the digits from `from` on end.
fn skip_digits(v: &[char], from: usize) -> (to: usize)
    requires
        from <= v@.len(),
    ensures
        from <= to <= v@.len(),
        digit_run(v@.skip(from as int)) == to - from,
{
    let mut to: usize = from;
    while to < v.len() && '0' <= v[to] && v[to] <= '9'
        invariant
            from <= to <= v@.len(),
            forall|i: int| from <= i < to ==> is_digit(#[trigger] v@[i]),
        decreases v@.len() - to,
    {
        to += 1;
    }
    proof {
        let s = v@.skip(from as int);
        assert forall|i: int| 0 <= i < to - from implies is_digit(#[trigger] s[i]) by {
            assert(is_digit(v@[from + i]));
        }
        lemma_digit_run(s, to - from);
    }
    to
}

/// Whether nothing but an exponent stands from `at` on.
fn number_tail(v: &[char], at: usize) -> (r: bool)
    requires
        at <= v@.len(),
    ensures
        r == is_number_tail(v@.skip(at as int)),
{
    let ghost s = v@.skip(at as int);
    if at == v.len() {
        return true;
    }
    if v[at] != 'e' && v[at] != 'E' {
        return false;
    }
    let mut from: usize = at + 1;
    assert(s.drop_first() =~= v@.skip(from as int));
    if from < v.len() && (v[from] == '+' || v[from] == '-') {
        from += 1;
        assert(s.drop_first().drop_first() =~= v@.skip(from as int));
    }
    assert(unsigned(s.drop_first()) =~= v@.skip(from as int));
    let to: usize = skip_digits(v, from);
    to > from && to == v.len()
}

/// Whether the characters from `from` on read as an unsigned decimal number.
fn decimal(v: &[char], from: usize) -> (r: bool)
    requires
        from <= v@.len(),
    ensures
        r == is_decimal(v@.skip(from as int)),
{
    let ghost s = v@.skip(from as int);
    let whole_end: usize = skip_digits(v, from);
    assert(s.skip(whole_end - from) =~= v@.skip(whole_end as int));
    if whole_end < v.len() && v[whole_end] == '.' {
        let point: usize = whole_end;
        assert(v@.skip(point as int).drop_first() =~= v@.skip(point + 1));
        let end: usize = skip_digits(v, point + 1);
        assert(v@.skip(point + 1).skip(end - (point + 1)) =~= v@.skip(end as int));
        let digits = whole_end > from || end > point + 1;
        digits && number_tail(v, end)
    } else {
        whole_end > from && number_tail(v, whole_end)
    }
}

/// Whether `text` reads as a floating-point number.
pub fn reads_as_number(path: &str) -> (r: bool)
    ensures
        r == is_number(path@),
{
    let v = text::chars_of(path);
    let mut from: usize = 0;
    if v.len() > 0 && (v[0] == '+' || v[0] == '-') {
        from = 1;
    }
    assert(unsigned(path@) =~= v@.skip(from as int));
    if decimal(v.as_slice(), from) {
        return true;
    }
    let body = text::string_of_range(v.as_slice(), from, v.len());
    assert(body@ =~= unsigned(path@));
    let lower = text::to_ascii_lower(body.as_str());
    text::str_eq(lower.as_str(), "inf") || text::str_eq(lower.as_str(), "infinity")
        || text::str_eq(lower.as_str(), "nan")
}

/// The text with Rust's debug quoting: in double quotes, with quotes,
/// backslashes and unprintable characters escaped.
pub uninterp spec fn debug_quoted(s: Seq<char>) -> Seq<char>;

/// `format!("{:?}")` of a string.
#[verifier::external_body]
fn debug_quote(s: &str) -> (r: String)
    ensures
        r@ == debug_quoted(s@),
{
    format!("{s:?}")
}

/// `path` with a leading `~` replaced by the home directory, unless `~` is
/// followed by a user name.
pub open spec fn tilde_expanded(path: Seq<char>, home: Option<Seq<char>>) -> Seq<char> {
    if path.len() > 0 && path[0] == '~' && home is Some && (path.len() == 1 || path[1] == '/'
        || path[1] == '\\') {
        home->0 + path.drop_first()
    } else {
        path
    }
}

/// What is inserted for `path`, when it cannot be inserted as it is.
pub open spec fn escaped(path: Seq<char>, home: Option<Seq<char>>) -> Option<Seq<char>> {
    if needs_quotes(path) {
        let whole = tilde_expanded(path, home);
        if whole.contains('\'') {
            Some(debug_quoted(whole))
        } else {
            Some(seq!['\''] + whole + seq!['\''])
        }
    } else if contaminated(path) || (path.len() > 0 && (path[0] == '-' || path[0] == '$'))
        || is_number(path) {
        Some(seq!['`'] + path + seq!['`'])
    } else {
        None
    }
}

fn glob(c: char) -> (r: bool)
    ensures
        r == is_glob(c),
{
    c == '*' || c == '?' || c == '[' || c == ']'
}

fn special(c: char) -> (r: bool)
    ensures
        r == is_special(c),
{
    c == '\'' || c == '"' || c == ' ' || c == '#' || c == '(' || c == ')' || c == '{' || c == '}'
        || c == '[' || c == ']' || c == '|' || c == ';'
}

/// `path` between two quotes `q`.
fn wrap(path: &str, q: char) -> (r: String)
    ensures
        r@ == seq![q] + path@ + seq![q],
{
    let mut s = String::new();
    s.push(q);
    s.append(path);
    s.push(q);
    assert(s@ =~= seq![q] + path@ + seq![q]);
    s
}

/// Escape special characters in a path for safe insertion.
///
/// `home` is the user's home directory, where it is known. Returns
/// `Some(escaped)` if escaping was needed, `None` if the path is safe as-is.
pub fn escape_path(path: &str, home: Option<&str>) -> (r: Option<String>)
    ensures
        match r {
            Some(s) => escaped(
                path@,
                match home {
                    Some(h) => Some(h@),
                    None => None,
                },
            ) == Some(s@),
            None => escaped(
                path@,
                match home {
                    Some(h) => Some(h@),
                    None => None,
                },
            ) is None,
        },
{
    let ghost home_text = match home {
        Some(h) => Some(h@),
        None => None,
    };
    let v = text::chars_of(path);
    let mut quotes = false;
    let mut dirty = false;
    let mut i: usize = 0;
    while i < v.len()
        invariant
            i <= v@.len(),
            quotes == exists|j: int| 0 <= j < i && (is_glob(#[trigger] v@[j]) || v@[j] == '`'),
            dirty == exists|j: int| 0 <= j < i && is_special(#[trigger] v@[j]),
        decreases v@.len() - i,
    {
        if glob(v[i]) || v[i] == '`' {
            quotes = true;
        }
        if special(v[i]) {
            dirty = true;
        }
        i += 1;
    }
    if quotes {
        let whole = expand_tilde(path, home);
        if text::contains_char(whole.as_str(), '\'') {
            Some(debug_quote(whole.as_str()))
        } else {
            Some(wrap(whole.as_str(), '\''))
        }
    } else if dirty || (v.len() > 0 && (v[0] == '-' || v[0] == '$')) || reads_as_number(path) {
        Some(wrap(path, '`'))
    } else {
        None
    }
}

/// `path` with a leading `~` replaced by the home directory.
fn expand_tilde(path: &str, home: Option<&str>) -> (r: String)
    ensures
        r@ == tilde_expanded(
            path@,
            match home {
                Some(h) => Some(h@),
                None => None,
            },
        ),
{
    let v = text::chars_of(path);
    match home {
        Some(home) => if v.len() > 0 && v[0] == '~' && (v.len() == 1 || v[1] == '/' || v[1]
            == '\\') {
            let rest = text::string_of_range(v.as_slice(), 1, v.len());
            let mut s = home.to_owned();
            s.append(rest.as_str());
            assert(s@ =~= home@ + path@.drop_first());
            s
        } else {
            path.to_owned()
        },
        None => path.to_owned(),
    }
}

/// A path that is inserted as it is holds no glob character, no quote and no
/// space, and does not read as a flag, a variable or a number.
pub proof fn law_unescaped_paths_are_plain(path: Seq<char>, home: Option<Seq<char>>)
    requires
        escaped(path, home) is None,
    ensures
        forall|i: int|
            0 <= i < path.len() ==> !is_glob(#[trigger] path[i]) && !is_special(path[i]) && path[i]
                != '`',
        path.len() > 0 ==> path[0] != '-' && path[0] != '$',
        !is_number(path),
{
}

} // verus!
