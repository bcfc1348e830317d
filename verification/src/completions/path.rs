//! Text-level handling of typed paths: separators, n-dots, quoting.

use vstd::prelude::*;

use crate::text;

verus! {

/// Which characters separate the components of a path.
#[derive(Copy, Clone, Debug, PartialEq, Eq, Structural)]
pub enum PathStyle {
    /// `/` separates.
    Unix,
    /// `\` is the main separator, `/` separates too.
    Windows,
}

impl PathStyle {
    /// Whether `c` separates components.
    pub open spec fn separates(self, c: char) -> bool {
        c == '/' || (c == '\\' && self is Windows)
    }

    /// The separator that is written by default.
    pub open spec fn main_separator_of(self) -> char {
        if self is Windows {
            '\\'
        } else {
            '/'
        }
    }

    pub fn is_separator(self, c: char) -> (r: bool)
        ensures
            r == self.separates(c),
    {
        match self {
            PathStyle::Unix => c == '/',
            PathStyle::Windows => c == '/' || c == '\\',
        }
    }

    pub fn main_separator(self) -> (r: char)
        ensures
            r == self.main_separator_of(),
    {
        match self {
            PathStyle::Unix => '/',
            PathStyle::Windows => '\\',
        }
    }
}

/// The number of dots at the start of `s`.
pub open spec fn leading_dots(s: Seq<char>) -> nat
    decreases s.len(),
{
    if s.len() > 0 && s[0] == '.' {
        1 + leading_dots(s.drop_first())
    } else {
        0
    }
}

/// `n` dots.
pub open spec fn dots(n: nat) -> Seq<char> {
    Seq::new(n, |i: int| '.')
}

/// `n` times `..`, separated by `sep`.
pub open spec fn parent_chain(n: nat, sep: char) -> Seq<char>
    decreases n,
{
    if n == 0 {
        Seq::empty()
    } else if n == 1 {
        seq!['.', '.']
    } else {
        parent_chain((n - 1) as nat, sep) + seq![sep, '.', '.']
    }
}

/// What a run of `n` dots expands to: more than two dots climb `n - 1` levels.
pub open spec fn expand_run(n: nat, sep: char) -> Seq<char> {
    if n > 2 {
        parent_chain((n - 1) as nat, sep)
    } else {
        dots(n)
    }
}

/// `s` with every run of dots expanded.
pub open spec fn expanded(s: Seq<char>, sep: char) -> Seq<char>
    decreases s.len(),
{
    if s.len() == 0 {
        Seq::empty()
    } else if s[0] == '.' {
        proof {
            lemma_leading_dots_bound(s);
        }
        expand_run(leading_dots(s), sep) + expanded(s.skip(leading_dots(s) as int), sep)
    } else {
        seq![s[0]] + expanded(s.drop_first(), sep)
    }
}

/// A string has no more leading dots than characters.
pub proof fn lemma_leading_dots_bound(s: Seq<char>)
    ensures
        leading_dots(s) <= s.len(),
    decreases s.len(),
{
    if s.len() > 0 && s[0] == '.' {
        lemma_leading_dots_bound(s.drop_first());
    }
}

/// Whether no three dots follow each other.
pub open spec fn has_no_ndots(s: Seq<char>) -> bool {
    forall|i: int|
        0 <= i < s.len() - 2 ==> !(#[trigger] s[i] == '.' && s[i + 1] == '.' && s[i + 2] == '.')
}

proof fn lemma_leading_dots_are_dots(s: Seq<char>)
    ensures
        leading_dots(s) <= s.len(),
        forall|i: int| 0 <= i < leading_dots(s) ==> s[i] == '.',
        leading_dots(s) == s.len() || s[leading_dots(s) as int] != '.',
    decreases s.len(),
{
    if s.len() > 0 && s[0] == '.' {
        let rest = s.drop_first();
        lemma_leading_dots_are_dots(rest);
        assert forall|i: int| 0 <= i < leading_dots(s) implies s[i] == '.' by {
            if i > 0 {
                assert(rest[i - 1] == s[i]);
            }
        }
    }
}

/// Separators part what is expanded.
pub proof fn lemma_expanded_joined(a: Seq<char>, b: Seq<char>, sep: char)
    requires
        sep != '.',
    ensures
        expanded(a + seq![sep] + b, sep) == expanded(a, sep) + seq![sep] + expanded(b, sep),
    decreases a.len(),
{
    let s = a + seq![sep] + b;
    if a.len() == 0 {
        assert(s.drop_first() =~= b);
        assert(expanded(a, sep) + seq![sep] + expanded(b, sep) =~= seq![sep] + expanded(b, sep));
    } else if a[0] == '.' {
        let n = leading_dots(a) as int;
        lemma_leading_dots_are_dots(a);
        assert(s[n] != '.') by {
            if n < a.len() {
                assert(s[n] == a[n]);
            }
        }
        assert forall|i: int| 0 <= i < n implies s[i] == '.' by {
            assert(s[i] == a[i]);
        }
        lemma_leading_dots(s, n);
        assert(s.skip(n) =~= a.skip(n) + seq![sep] + b);
        lemma_expanded_joined(a.skip(n), b, sep);
        assert(expanded(s, sep) =~= expanded(a, sep) + seq![sep] + expanded(b, sep));
    } else {
        assert(s.drop_first() =~= a.drop_first() + seq![sep] + b);
        lemma_expanded_joined(a.drop_first(), b, sep);
        assert(expanded(s, sep) =~= expanded(a, sep) + seq![sep] + expanded(b, sep));
    }
}

/// Without n-dots there is nothing to expand.
pub proof fn lemma_nothing_to_expand(s: Seq<char>, sep: char)
    requires
        has_no_ndots(s),
    ensures
        expanded(s, sep) == s,
    decreases s.len(),
{
    if s.len() > 0 && s[0] == '.' {
        let n = leading_dots(s) as int;
        lemma_leading_dots_are_dots(s);
        if n > 2 {
            assert(s[0] == '.' && s[1] == '.' && s[2] == '.');
        }
        let rest = s.skip(n);
        assert forall|i: int| 0 <= i < rest.len() - 2 implies !(#[trigger] rest[i] == '.' && rest[i
            + 1] == '.' && rest[i + 2] == '.') by {
            assert(rest[i] == s[i + n]);
        }
        lemma_nothing_to_expand(rest, sep);
        assert(dots(n as nat) + rest =~= s);
    } else if s.len() > 0 {
        let rest = s.drop_first();
        assert forall|i: int| 0 <= i < rest.len() - 2 implies !(#[trigger] rest[i] == '.' && rest[i
            + 1] == '.' && rest[i + 2] == '.') by {
            assert(rest[i] == s[i + 1]);
        }
        lemma_nothing_to_expand(rest, sep);
        assert(seq![s[0]] + rest =~= s);
    } else {
        assert(s =~= Seq::empty());
    }
}

/// A run of dots expands to the levels that it climbs.
pub proof fn lemma_expanded_dots(n: nat, sep: char)
    requires
        n > 0,
    ensures
        expanded(dots(n + 1), sep) == parent_chain(n, sep),
{
    let s = dots(n + 1);
    lemma_leading_dots(s, n as int + 1);
    assert(s.skip(n as int + 1) =~= Seq::empty());
    assert(s[0] == '.');
    assert(expanded(Seq::<char>::empty(), sep).len() == 0);
    assert(expanded(s, sep) =~= expand_run(n + 1, sep));
    if n == 1 {
        assert(dots(2) =~= seq!['.', '.']);
    }
}

proof fn lemma_leading_dots(s: Seq<char>, n: int)
    requires
        0 <= n <= s.len(),
        forall|i: int| 0 <= i < n ==> s[i] == '.',
        n == s.len() || s[n] != '.',
    ensures
        leading_dots(s) == n,
    decreases n,
{
    if n > 0 {
        lemma_leading_dots(s.drop_first(), n - 1);
    }
}

/// Expand n-dots (`...` to `../..`, `....` to `../../..`, etc.).
pub fn expand_ndots(path: &str, sep: char) -> (r: String)
    ensures
        r@ == expanded(path@, sep),
{
    let v = text::chars_of(path);
    let mut result = String::new();
    let mut i: usize = 0;
    assert(v@.skip(0) =~= path@);
    while i < v.len()
        invariant
            i <= v@.len(),
            v@ == path@,
            result@ + expanded(v@.skip(i as int), sep) == expanded(path@, sep),
        decreases v@.len() - i,
    {
        let ghost rest = v@.skip(i as int);
        let ghost before = result@;
        if v[i] == '.' {
            let start: usize = i;
            while i < v.len() && v[i] == '.'
                invariant
                    start <= i <= v@.len(),
                    forall|j: int| start <= j < i ==> v@[j] == '.',
                decreases v@.len() - i,
            {
                i += 1;
            }
            let count: usize = i - start;
            proof {
                lemma_leading_dots(rest, count as int);
                assert(count > 0);
                assert(rest.skip(count as int) =~= v@.skip(i as int));
            }
            if count > 2 {
                let mut k: usize = 0;
                while k < count - 1
                    invariant
                        2 < count,
                        k <= count - 1,
                        result@ == before + parent_chain(k as nat, sep),
                    decreases count - k,
                {
                    if k > 0 {
                        result.push(sep);
                    }
                    result.push('.');
                    result.push('.');
                    k += 1;
                    assert(result@ =~= before + parent_chain(k as nat, sep));
                }
            } else {
                let mut k: usize = 0;
                assert(before + dots(0) =~= before);
                while k < count
                    invariant
                        k <= count,
                        result@ == before + dots(k as nat),
                    decreases count - k,
                {
                    result.push('.');
                    k += 1;
                    assert(result@ =~= before + dots(k as nat));
                }
            }
            assert(result@ == before + expand_run(count as nat, sep));
            assert(result@ + expanded(v@.skip(i as int), sep) =~= before + expanded(rest, sep));
        } else {
            result.push(v[i]);
            i += 1;
            assert(rest.drop_first() =~= v@.skip(i as int));
            assert(result@ + expanded(v@.skip(i as int), sep) =~= before + expanded(rest, sep));
        }
    }
    assert(result@ + expanded(v@.skip(i as int), sep) =~= result@);
    result
}

/// `s` with the character at `k` taken out.
pub open spec fn without(s: Seq<char>, k: int) -> Seq<char> {
    s.subrange(0, k) + s.subrange(k + 1, s.len() as int)
}

/// Whether `q` quotes a partial path.
pub open spec fn is_path_quote(q: char) -> bool {
    q == '`' || q == '"' || q == '\''
}

/// What is left of a quoted partial path behind its opening quote `q`: a quote
/// that closes it goes, and so does one in it that stands right behind a
/// separator and is the only one.
pub open spec fn unquoted_rest(rest: Seq<char>, q: char, style: PathStyle) -> Seq<char> {
    if rest.len() > 0 && rest.last() == q {
        rest.drop_last()
    } else if exists|k: int| is_only_quote_behind_separator(rest, q, style, k) {
        without(rest, choose|k: int| is_only_quote_behind_separator(rest, q, style, k))
    } else {
        rest
    }
}

/// Whether `q` stands in `rest` at `k` only, right behind a separator.
pub open spec fn is_only_quote_behind_separator(
    rest: Seq<char>,
    q: char,
    style: PathStyle,
    k: int,
) -> bool {
    &&& 0 < k < rest.len()
    &&& rest[k] == q
    &&& style.separates(rest[k - 1])
    &&& forall|j: int| 0 <= j < rest.len() && j != k ==> rest[j] != q
}

/// `partial` without the quotes that surround it.
pub open spec fn unquoted(partial: Seq<char>, style: PathStyle) -> Seq<char> {
    if partial.len() > 0 && is_path_quote(partial[0]) {
        unquoted_rest(partial.drop_first(), partial[0], style)
    } else {
        partial
    }
}

/// Remove surrounding quotes from a partial path.
pub fn surround_remove(partial: &str, style: PathStyle) -> (r: String)
    ensures
        r@ == unquoted(partial@, style),
{
    let v = text::chars_of(partial);
    if v.len() == 0 || !(v[0] == '`' || v[0] == '"' || v[0] == '\'') {
        return text::string_of(v.as_slice());
    }
    let q = v[0];
    let ghost rest = partial@.drop_first();
    if v.len() > 1 && v[v.len() - 1] == q {
        let s = text::string_of_range(v.as_slice(), 1, v.len() - 1);
        assert(s@ =~= rest.drop_last());
        return s;
    }
    let mut count: usize = 0;
    let mut at: usize = 0;
    let mut i: usize = 1;
    while i < v.len()
        invariant
            1 <= i <= v@.len(),
            v@ == partial@,
            q == v@[0],
            count <= i,
            count == 0 ==> forall|j: int| 1 <= j < i ==> v@[j] != q,
            count == 1 ==> 1 <= at < i && v@[at as int] == q && forall|j: int|
                1 <= j < i && j != at ==> v@[j] != q,
            count >= 2 ==> exists|a: int, b: int| 1 <= a < b < i && v@[a] == q && v@[b] == q,
        decreases v@.len() - i,
    {
        if v[i] == q {
            if count == 0 {
                at = i;
            } else if count == 1 {
                assert(v@[at as int] == q && v@[i as int] == q && 1 <= at < i);
            }
            count += 1;
        }
        i += 1;
    }
    if count == 1 && at > 1 && style.is_separator(v[at - 1]) {
        let mut s = text::string_of_range(v.as_slice(), 1, at);
        let tail = text::string_of_range(v.as_slice(), at + 1, v.len());
        s.append(tail.as_str());
        proof {
            assert(is_only_quote_behind_separator(rest, q, style, at - 1));
            let k = choose|k: int| is_only_quote_behind_separator(rest, q, style, k);
            assert(k == at - 1) by {
                assert(rest[at - 1] == q);
            }
            assert(s@ =~= without(rest, at - 1));
        }
        s
    } else {
        let s = text::string_of_range(v.as_slice(), 1, v.len());
        proof {
            assert(s@ =~= rest);
            if exists|k: int| is_only_quote_behind_separator(rest, q, style, k) {
                let k = choose|k: int| is_only_quote_behind_separator(rest, q, style, k);
                assert(v@[k + 1] == q);
                if count == 1 {
                    assert(rest[at - 1] == q);
                } else if count >= 2 {
                    let (a, b) = choose|a: int, b: int|
                        1 <= a < b < v@.len() && v@[a] == q && v@[b] == q;
                    assert(rest[a - 1] == q && rest[b - 1] == q);
                }
                assert(false);
            }
        }
        s
    }
}

/// Quotes that surround a path are removed, whatever the path holds.
pub proof fn law_surrounding_quotes_are_removed(path: Seq<char>, q: char, style: PathStyle)
    requires
        is_path_quote(q),
    ensures
        unquoted(seq![q] + path + seq![q], style) == path,
{
    let whole = seq![q] + path + seq![q];
    assert(whole.drop_first() =~= path + seq![q]);
    assert((path + seq![q]).drop_last() =~= path);
}

} // verus!
