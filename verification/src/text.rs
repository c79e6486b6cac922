//! Text handling over sequences of characters.
//!
//! Every probe of this crate reads configuration text. The functions here give
//! that reading one meaning, stated over `Seq<char>`, and each executable
//! function is proved against its statement.

use vstd::prelude::*;
use vstd::slice::slice_subrange;
use vstd::std_specs::iter::IteratorSpec;

verus! {

/// `String::push` appends one character to the end of the string.
pub assume_specification[ String::push ](s: &mut String, c: char)
    ensures
        final(s)@ == old(s)@.push(c),
;

/// Names what `str::to_lowercase` returns for a given text: the lowercase
/// equivalent of the text under the Unicode case mapping tables.
pub uninterp spec fn unicode_lowercase(s: Seq<char>) -> Seq<char>;

/// Calls `str::to_lowercase`; the result is a function of the text alone.
#[verifier::external_body]
pub(crate) fn to_lowercase(s: &str) -> (r: String)
    ensures
        r@ == unicode_lowercase(s@),
{
    s.to_lowercase()
}

/// The characters of `s`, in order.
pub fn chars_of(s: &str) -> (v: Vec<char>)
    ensures
        v@ == s@,
{
    let mut v: Vec<char> = Vec::new();
    let mut it = s.chars();
    loop
        invariant
            it.obeys_prophetic_iter_laws(),
            v@ + it.remaining() == s@,
            it.decrease() is Some,
        ensures
            v@ == s@,
        decreases it.decrease()->0,
    {
        broadcast use vstd::string::group_string_axioms;

        match it.next() {
            Some(c) => {
                v.push(c);
            },
            None => {
                assert(v@ + it.remaining() == v@);
                break ;
            },
        }
    }
    v
}

/// A string holding exactly the characters of `s`.
pub fn string_of(s: &[char]) -> (r: String)
    ensures
        r@ == s@,
{
    let mut r = String::new();
    let mut i: usize = 0;
    while i < s.len()
        invariant
            i <= s@.len(),
            r@ == s@.subrange(0, i as int),
        decreases s@.len() - i,
    {
        r.push(s[i]);
        i += 1;
    }
    r
}

/// Appends the characters of `s` to `out`.
pub fn push_chars(out: &mut String, s: &[char])
    ensures
        final(out)@ == old(out)@ + s@,
{
    let mut i: usize = 0;
    while i < s.len()
        invariant
            i <= s@.len(),
            out@ == old(out)@ + s@.subrange(0, i as int),
        decreases s@.len() - i,
    {
        out.push(s[i]);
        i += 1;
    }
}

/// Appends `s` to `out`.
pub fn push_text(out: &mut String, s: &str)
    ensures
        final(out)@ == old(out)@ + s@,
{
    let chars = chars_of(s);
    push_chars(out, chars.as_slice());
}

/// A string that holds `first`, to append to.
pub fn started(first: &str) -> (s: String)
    ensures
        s@ == first@,
{
    let mut s = String::new();
    push_text(&mut s, first);
    proof {
        assert(Seq::<char>::empty() + first@ =~= first@);
    }
    s
}

/// The views of a list of strings.
pub open spec fn views(v: Seq<String>) -> Seq<Seq<char>> {
    Seq::new(v.len(), |i: int| v[i]@)
}

/// The views of a list of character slices.
pub open spec fn slice_views(v: Seq<&[char]>) -> Seq<Seq<char>> {
    Seq::new(v.len(), |i: int| v[i]@)
}

/// Whether `c` has the Unicode property White_Space.
pub open spec fn is_whitespace(c: char) -> bool {
    let n = c as u32;
    ||| 0x09 <= n <= 0x0D
    ||| n == 0x20
    ||| n == 0x85
    ||| n == 0xA0
    ||| n == 0x1680
    ||| 0x2000 <= n <= 0x200A
    ||| n == 0x2028
    ||| n == 0x2029
    ||| n == 0x202F
    ||| n == 0x205F
    ||| n == 0x3000
}

/// Decides [`is_whitespace`].
pub fn char_is_whitespace(c: char) -> (r: bool)
    ensures
        r == is_whitespace(c),
{
    let n: u32 = c as u32;
    (0x09 <= n && n <= 0x0D) || n == 0x20 || n == 0x85 || n == 0xA0 || n == 0x1680 || (0x2000 <= n
        && n <= 0x200A) || n == 0x2028 || n == 0x2029 || n == 0x202F || n == 0x205F || n == 0x3000
}

/// The predicate "is white space".
pub open spec fn whitespace() -> spec_fn(char) -> bool {
    |c: char| is_whitespace(c)
}

/// The predicate "is not white space".
pub open spec fn non_whitespace() -> spec_fn(char) -> bool {
    |c: char| !is_whitespace(c)
}

/// The predicate "differs from `d`".
pub open spec fn other_than(d: char) -> spec_fn(char) -> bool {
    |c: char| c != d
}

/// How many characters at the start of `s` satisfy `p`.
pub open spec fn prefix_len(s: Seq<char>, p: spec_fn(char) -> bool) -> nat
    decreases s.len(),
{
    if s.len() > 0 && p(s[0]) {
        1 + prefix_len(s.drop_first(), p)
    } else {
        0
    }
}

/// How many characters at the end of `s` satisfy `p`.
pub open spec fn suffix_len(s: Seq<char>, p: spec_fn(char) -> bool) -> nat
    decreases s.len(),
{
    if s.len() > 0 && p(s.last()) {
        1 + suffix_len(s.drop_last(), p)
    } else {
        0
    }
}

/// `prefix_len` never exceeds the length.
pub proof fn lemma_prefix_len_bound(s: Seq<char>, p: spec_fn(char) -> bool)
    ensures
        prefix_len(s, p) <= s.len(),
    decreases s.len(),
{
    if s.len() > 0 && p(s[0]) {
        lemma_prefix_len_bound(s.drop_first(), p);
    }
}

/// `prefix_len` is the first position whose character fails `p`.
pub proof fn lemma_prefix_len_is(s: Seq<char>, p: spec_fn(char) -> bool, i: int)
    requires
        0 <= i <= s.len(),
        forall|j: int| 0 <= j < i ==> p(#[trigger] s[j]),
        i < s.len() ==> !p(s[i]),
    ensures
        prefix_len(s, p) == i,
    decreases i,
{
    if i > 0 {
        let t = s.drop_first();
        assert forall|j: int| 0 <= j < i - 1 implies p(#[trigger] t[j]) by {
            assert(t[j] == s[j + 1]);
        }
        lemma_prefix_len_is(t, p, i - 1);
    }
}

/// `suffix_len` counts back to the last position whose character fails `p`.
pub proof fn lemma_suffix_len_is(s: Seq<char>, p: spec_fn(char) -> bool, k: int)
    requires
        0 <= k <= s.len(),
        forall|j: int| s.len() - k <= j < s.len() ==> p(#[trigger] s[j]),
        k < s.len() ==> !p(s[s.len() - k - 1]),
    ensures
        suffix_len(s, p) == k,
    decreases k,
{
    if k > 0 {
        let t = s.drop_last();
        assert forall|j: int| t.len() - (k - 1) <= j < t.len() implies p(#[trigger] t[j]) by {
            assert(t[j] == s[j]);
        }
        lemma_suffix_len_is(t, p, k - 1);
    }
}

/// `s` without its leading white space.
pub open spec fn trim_start(s: Seq<char>) -> Seq<char> {
    s.skip(prefix_len(s, whitespace()) as int)
}

/// `s` without its trailing white space.
pub open spec fn trim_end(s: Seq<char>) -> Seq<char> {
    s.take(s.len() - suffix_len(s, whitespace()))
}

/// `s` without leading and trailing white space.
pub open spec fn trim(s: Seq<char>) -> Seq<char> {
    trim_end(trim_start(s))
}

/// Computes [`trim`].
pub fn trimmed<'a>(s: &'a [char]) -> (r: &'a [char])
    ensures
        r@ == trim(s@),
{
    let n = s.len();
    let mut i: usize = 0;
    while i < n && char_is_whitespace(s[i])
        invariant
            n == s@.len(),
            i <= n,
            forall|j: int| 0 <= j < i ==> whitespace()(#[trigger] s@[j]),
        decreases n - i,
    {
        i += 1;
    }
    let mut j: usize = n;
    while j > i && char_is_whitespace(s[j - 1])
        invariant
            n == s@.len(),
            i <= j <= n,
            forall|k: int| j <= k < n ==> whitespace()(#[trigger] s@[k]),
        decreases j,
    {
        j -= 1;
    }
    proof {
        lemma_prefix_len_is(s@, whitespace(), i as int);
        let t = s@.skip(i as int);
        assert forall|k: int| t.len() - (n - j) <= k < t.len() implies whitespace()(
            #[trigger] t[k],
        ) by {
            assert(t[k] == s@[k + i]);
        }
        if n - j < t.len() {
            assert(t[t.len() - (n - j) - 1] == s@[j - 1]);
        }
        lemma_suffix_len_is(t, whitespace(), (n - j) as int);
        assert(t.take(t.len() - (n - j)) =~= s@.subrange(i as int, j as int));
    }
    slice_subrange(s, i, j)
}

/// The position of the first `c` in `s`, or the length of `s` where there is none.
pub open spec fn find(s: Seq<char>, c: char) -> int {
    prefix_len(s, other_than(c)) as int
}

/// Computes [`find`].
pub fn position(s: &[char], c: char) -> (i: usize)
    ensures
        i == find(s@, c),
        i <= s@.len(),
        i < s@.len() ==> s@[i as int] == c,
        forall|j: int| 0 <= j < i ==> s@[j] != c,
{
    let n = s.len();
    let mut i: usize = 0;
    while i < n && s[i] != c
        invariant
            n == s@.len(),
            i <= n,
            forall|j: int| 0 <= j < i ==> other_than(c)(#[trigger] s@[j]),
        decreases n - i,
    {
        i += 1;
    }
    proof {
        lemma_prefix_len_is(s@, other_than(c), i as int);
    }
    i
}

/// The two parts of `s` around its first `c`, where it holds one.
pub open spec fn split_once(s: Seq<char>, c: char) -> Option<(Seq<char>, Seq<char>)> {
    if find(s, c) < s.len() {
        Some((s.take(find(s, c)), s.skip(find(s, c) + 1)))
    } else {
        None
    }
}

/// Computes [`split_once`].
pub fn split_at_first<'a>(s: &'a [char], c: char) -> (r: Option<(&'a [char], &'a [char])>)
    ensures
        match r {
            Some((a, b)) => split_once(s@, c) == Some((a@, b@)),
            None => split_once(s@, c) is None,
        },
{
    let i = position(s, c);
    if i < s.len() {
        let a = slice_subrange(s, 0, i);
        let b = slice_subrange(s, i + 1, s.len());
        Some((a, b))
    } else {
        None
    }
}

/// The part of `s` before its first `c`; all of `s` where it holds none.
pub open spec fn before(s: Seq<char>, c: char) -> Seq<char> {
    s.take(find(s, c))
}

/// Computes [`before`].
pub fn part_before<'a>(s: &'a [char], c: char) -> (r: &'a [char])
    ensures
        r@ == before(s@, c),
{
    let i = position(s, c);
    slice_subrange(s, 0, i)
}

/// Whether `pat` stands in `s` at position `k`.
pub open spec fn matches_at(s: Seq<char>, pat: Seq<char>, k: int) -> bool {
    &&& 0 <= k
    &&& k + pat.len() <= s.len()
    &&& s.subrange(k, k + pat.len()) == pat
}

/// Whether `s` begins with `pat`.
pub open spec fn starts_with(s: Seq<char>, pat: Seq<char>) -> bool {
    matches_at(s, pat, 0)
}

/// Whether `s` ends with `pat`.
pub open spec fn ends_with(s: Seq<char>, pat: Seq<char>) -> bool {
    matches_at(s, pat, s.len() - pat.len())
}

/// Whether `pat` stands somewhere in `s`.
pub open spec fn contains(s: Seq<char>, pat: Seq<char>) -> bool {
    exists|k: int| matches_at(s, pat, k)
}

/// Decides [`matches_at`].
pub fn has_at(s: &[char], pat: &[char], k: usize) -> (r: bool)
    ensures
        r == matches_at(s@, pat@, k as int),
{
    let n = s.len();
    let m = pat.len();
    if k > n || m > n - k {
        return false;
    }
    let mut i: usize = 0;
    while i < m
        invariant
            n == s@.len(),
            m == pat@.len(),
            k + m <= n,
            i <= m,
            forall|j: int| 0 <= j < i ==> s@[k + j] == pat@[j],
        decreases m - i,
    {
        if s[k + i] != pat[i] {
            proof {
                assert(s@.subrange(k as int, k + m)[i as int] == s@[k + i]);
            }
            return false;
        }
        i += 1;
    }
    proof {
        assert(s@.subrange(k as int, k + m) =~= pat@);
    }
    true
}

/// Decides [`starts_with`].
pub fn has_prefix(s: &[char], pat: &[char]) -> (r: bool)
    ensures
        r == starts_with(s@, pat@),
{
    has_at(s, pat, 0)
}

/// Decides [`ends_with`].
pub fn has_suffix(s: &[char], pat: &[char]) -> (r: bool)
    ensures
        r == ends_with(s@, pat@),
{
    if pat.len() > s.len() {
        false
    } else {
        has_at(s, pat, s.len() - pat.len())
    }
}

/// Decides [`contains`].
pub fn has_part(s: &[char], pat: &[char]) -> (r: bool)
    ensures
        r == contains(s@, pat@),
{
    let n = s.len();
    let m = pat.len();
    if m > n {
        return false;
    }
    let mut k: usize = 0;
    loop
        invariant
            n == s@.len(),
            m == pat@.len(),
            m <= n,
            k <= n - m,
            forall|j: int| 0 <= j < k ==> !matches_at(s@, pat@, j),
        decreases n - m - k,
    {
        if has_at(s, pat, k) {
            return true;
        }
        if k == n - m {
            return false;
        }
        k += 1;
    }
}

/// Whether two slices hold the same characters.
pub fn same_chars(a: &[char], b: &[char]) -> (r: bool)
    ensures
        r == (a@ == b@),
{
    if a.len() != b.len() {
        return false;
    }
    let r = has_at(a, b, 0);
    proof {
        assert(a@.subrange(0, a@.len() as int) =~= a@);
    }
    r
}

/// Whether two strings hold the same characters.
pub fn same_text(a: &str, b: &str) -> (r: bool)
    ensures
        r == (a@ == b@),
{
    let x = chars_of(a);
    let y = chars_of(b);
    same_chars(x.as_slice(), y.as_slice())
}

/// `l` without a carriage return at its end.
pub open spec fn strip_cr(l: Seq<char>) -> Seq<char> {
    if l.len() > 0 && l.last() == '\r' {
        l.drop_last()
    } else {
        l
    }
}

/// The lines of `s`. A line ends at a line feed, or at a carriage return
/// followed by one; the ending is no part of the line. A text that ends with a
/// line ending has the lines it would have without it.
pub open spec fn lines(s: Seq<char>) -> Seq<Seq<char>>
    decreases s.len(),
{
    if s.len() == 0 {
        Seq::empty()
    } else if find(s, '\n') >= s.len() {
        seq![s]
    } else {
        seq![strip_cr(s.take(find(s, '\n')))] + lines(s.skip(find(s, '\n') + 1))
    }
}

/// Computes [`lines`].
pub fn split_lines<'a>(s: &'a [char]) -> (r: Vec<&'a [char]>)
    ensures
        slice_views(r@) == lines(s@),
{
    let n = s.len();
    let mut out: Vec<&'a [char]> = Vec::new();
    let mut pos: usize = 0;
    proof {
        assert(s@.skip(0) =~= s@);
        assert(slice_views(out@) + lines(s@.skip(0)) =~= lines(s@));
    }
    while pos < n
        invariant
            n == s@.len(),
            pos <= n,
            slice_views(out@) + lines(s@.skip(pos as int)) == lines(s@),
        decreases n - pos,
    {
        let rest = slice_subrange(s, pos, n);
        let i = position(rest, '\n');
        let ghost before_views = slice_views(out@);
        proof {
            assert(rest@ =~= s@.skip(pos as int));
        }
        if i < rest.len() {
            let line = if i > 0 && rest[i - 1] == '\r' {
                slice_subrange(rest, 0, i - 1)
            } else {
                slice_subrange(rest, 0, i)
            };
            proof {
                let head = rest@.take(i as int);
                if i > 0 {
                    assert(head.last() == rest@[i - 1]);
                }
                assert(line@ =~= strip_cr(head));
                assert(rest@.skip(i + 1) =~= s@.skip(pos + i + 1));
            }
            out.push(line);
            pos = pos + i + 1;
            proof {
                assert(slice_views(out@) =~= before_views.push(line@));
                assert(before_views.push(line@) + lines(s@.skip(pos as int)) =~= before_views + (
                seq![line@] + lines(s@.skip(pos as int))));
            }
        } else {
            out.push(rest);
            pos = n;
            proof {
                assert(slice_views(out@) =~= before_views.push(rest@));
                assert(lines(s@.skip(n as int)) =~= Seq::<Seq<char>>::empty());
                assert(before_views.push(rest@) + Seq::<Seq<char>>::empty() =~= before_views
                    + seq![rest@]);
            }
        }
    }
    proof {
        assert(lines(s@.skip(pos as int)) =~= Seq::<Seq<char>>::empty());
        assert(slice_views(out@) + Seq::<Seq<char>>::empty() =~= slice_views(out@));
    }
    out
}

/// The words of `s`: its longest runs of characters that are not white space,
/// in order.
pub open spec fn words(s: Seq<char>) -> Seq<Seq<char>>
    decreases s.len(),
{
    let t = trim_start(s);
    let n = prefix_len(t, non_whitespace());
    if n == 0 {
        Seq::empty()
    } else {
        proof {
            lemma_prefix_len_bound(s, whitespace());
            lemma_prefix_len_bound(t, non_whitespace());
        }
        seq![t.take(n as int)] + words(t.skip(n as int))
    }
}

/// Computes [`words`].
pub fn split_words<'a>(s: &'a [char]) -> (r: Vec<&'a [char]>)
    ensures
        slice_views(r@) == words(s@),
{
    let n = s.len();
    let mut out: Vec<&'a [char]> = Vec::new();
    let mut pos: usize = 0;
    proof {
        assert(s@.skip(0) =~= s@);
        assert(slice_views(out@) + words(s@.skip(0)) =~= words(s@));
    }
    loop
        invariant
            n == s@.len(),
            pos <= n,
            slice_views(out@) + words(s@.skip(pos as int)) == words(s@),
        ensures
            slice_views(out@) == words(s@),
        decreases n - pos,
    {
        let ghost rest = s@.skip(pos as int);
        let ghost before_views = slice_views(out@);
        let mut a: usize = pos;
        while a < n && char_is_whitespace(s[a])
            invariant
                n == s@.len(),
                pos <= a <= n,
                rest == s@.skip(pos as int),
                forall|j: int| 0 <= j < a - pos ==> whitespace()(#[trigger] rest[j]),
            decreases n - a,
        {
            a += 1;
        }
        proof {
            lemma_prefix_len_is(rest, whitespace(), a - pos);
            assert(trim_start(rest) =~= s@.skip(a as int));
        }
        let ghost t = s@.skip(a as int);
        if a == n {
            proof {
                assert(words(rest) =~= Seq::<Seq<char>>::empty());
                assert(before_views + Seq::<Seq<char>>::empty() =~= before_views);
            }
            break ;
        }
        let mut b: usize = a;
        while b < n && !char_is_whitespace(s[b])
            invariant
                n == s@.len(),
                a <= b <= n,
                t == s@.skip(a as int),
                forall|j: int| 0 <= j < b - a ==> non_whitespace()(#[trigger] t[j]),
            decreases n - b,
        {
            b += 1;
        }
        proof {
            lemma_prefix_len_is(t, non_whitespace(), b - a);
            assert(b > a);
        }
        let word = slice_subrange(s, a, b);
        out.push(word);
        proof {
            assert(word@ =~= t.take(b - a));
            assert(t.skip(b - a) =~= s@.skip(b as int));
            assert(slice_views(out@) =~= before_views.push(word@));
            assert(before_views.push(word@) + words(s@.skip(b as int)) =~= before_views + (
            seq![word@] + words(s@.skip(b as int))));
        }
        pos = b;
    }
    out
}

/// The value of `c` as a digit in `radix`, where it is one.
pub open spec fn digit_value(c: char, radix: nat) -> Option<nat> {
    let n = c as u32;
    let v: int = if 0x30 <= n <= 0x39 {
        n - 0x30
    } else if 0x61 <= n <= 0x7A {
        n - 0x61 + 10
    } else if 0x41 <= n <= 0x5A {
        n - 0x41 + 10
    } else {
        radix as int
    };
    if v < radix {
        Some(v as nat)
    } else {
        None
    }
}

/// Computes [`digit_value`].
pub fn digit_of(c: char, radix: u32) -> (r: Option<u32>)
    requires
        radix <= 36,
    ensures
        match r {
            Some(v) => digit_value(c, radix as nat) == Some(v as nat) && v < radix,
            None => digit_value(c, radix as nat) is None,
        },
{
    let n: u32 = c as u32;
    let v: u32 = if 0x30 <= n && n <= 0x39 {
        n - 0x30
    } else if 0x61 <= n && n <= 0x7A {
        n - 0x61 + 10
    } else if 0x41 <= n && n <= 0x5A {
        n - 0x41 + 10
    } else {
        radix
    };
    if v < radix {
        Some(v)
    } else {
        None
    }
}

/// The number that `s` spells in `radix`, where each of its characters is a
/// digit; the empty text spells zero.
pub open spec fn digits_value(s: Seq<char>, radix: nat) -> Option<nat>
    decreases s.len(),
{
    if s.len() == 0 {
        Some(0)
    } else {
        match (digits_value(s.drop_last(), radix), digit_value(s.last(), radix)) {
            (Some(h), Some(d)) => Some(h * radix + d),
            _ => None,
        }
    }
}

/// The number that `s` spells in `radix`: an optional plus sign, then one
/// digit or more, and a value of `max` at most. Anything else spells nothing.
pub open spec fn parse_unsigned(s: Seq<char>, radix: nat, max: nat) -> Option<nat> {
    let d = if s.len() > 0 && s[0] == '+' {
        s.drop_first()
    } else {
        s
    };
    if d.len() == 0 {
        None
    } else {
        match digits_value(d, radix) {
            Some(v) => if v <= max {
                Some(v)
            } else {
                None
            },
            None => None,
        }
    }
}

/// A text spells no less than any of its beginnings, and nothing where a
/// beginning spells nothing.
pub proof fn lemma_digits_value_grows(s: Seq<char>, radix: nat, i: int)
    requires
        0 <= i <= s.len(),
        radix >= 1,
    ensures
        digits_value(s.take(i), radix) is None ==> digits_value(s, radix) is None,
        digits_value(s, radix) is Some ==> digits_value(s.take(i), radix)->0 <= digits_value(
            s,
            radix,
        )->0,
    decreases s.len() - i,
{
    if i == s.len() {
        assert(s.take(i) =~= s);
    } else {
        lemma_digits_value_grows(s.drop_last(), radix, i);
        assert(s.drop_last().take(i) =~= s.take(i));
        if digits_value(s, radix) is Some {
            let h = digits_value(s.drop_last(), radix)->0;
            assert(h * radix >= h) by (nonlinear_arith)
                requires
                    radix >= 1,
                    h >= 0,
            ;
        }
    }
}

/// The number that the digits of `d` spell in `radix`, where it is `max` at
/// most; nothing where a character is no digit or the number is larger.
pub fn read_digits(d: &[char], radix: u32, max: u64) -> (r: Option<u64>)
    requires
        1 <= radix <= 36,
    ensures
        match r {
            Some(v) => digits_value(d@, radix as nat) == Some(v as nat) && v <= max,
            None => match digits_value(d@, radix as nat) {
                Some(v) => v > max,
                None => true,
            },
        },
{
    let n = d.len();
    let mut acc: u64 = 0;
    let mut i: usize = 0;
    while i < n
        invariant
            n == d@.len(),
            i <= n,
            1 <= radix <= 36,
            acc <= max,
            digits_value(d@.take(i as int), radix as nat) == Some(acc as nat),
        decreases n - i,
    {
        let ghost head = d@.take(i + 1);
        proof {
            assert(head.drop_last() =~= d@.take(i as int));
            assert(head.last() == d@[i as int]);
        }
        match digit_of(d[i], radix) {
            None => {
                proof {
                    lemma_digits_value_grows(d@, radix as nat, i + 1);
                }
                return None;
            },
            Some(dv) => {
                assert(acc * radix <= 0xffff_ffff_ffff_ffff * 36) by (nonlinear_arith)
                    requires
                        acc <= 0xffff_ffff_ffff_ffff,
                        radix <= 36,
                ;
                let wide: u128 = acc as u128 * radix as u128 + dv as u128;
                assert(digits_value(head, radix as nat) == Some(wide as nat));
                if wide > max as u128 {
                    proof {
                        lemma_digits_value_grows(d@, radix as nat, i + 1);
                    }
                    return None;
                }
                acc = wide as u64;
            },
        }
        i += 1;
    }
    proof {
        assert(d@.take(n as int) =~= d@);
    }
    Some(acc)
}

/// Whether every character of `s` is a decimal digit.
pub fn all_digits(s: &[char]) -> (r: bool)
    ensures
        r == (digits_value(s@, 10) is Some),
{
    let n = s.len();
    let mut i: usize = 0;
    while i < n
        invariant
            n == s@.len(),
            i <= n,
            digits_value(s@.take(i as int), 10) is Some,
        decreases n - i,
    {
        proof {
            assert(s@.take(i + 1).drop_last() =~= s@.take(i as int));
            assert(s@.take(i + 1).last() == s@[i as int]);
        }
        if digit_of(s[i], 10).is_none() {
            proof {
                lemma_digits_value_grows(s@, 10, i + 1);
            }
            return false;
        }
        i += 1;
    }
    proof {
        assert(s@.take(n as int) =~= s@);
    }
    true
}

/// Computes [`parse_unsigned`].
pub fn parse_number(s: &[char], radix: u32, max: u64) -> (r: Option<u64>)
    requires
        1 <= radix <= 36,
    ensures
        match r {
            Some(v) => parse_unsigned(s@, radix as nat, max as nat) == Some(v as nat) && v <= max,
            None => parse_unsigned(s@, radix as nat, max as nat) is None,
        },
{
    let d = if s.len() > 0 && s[0] == '+' {
        slice_subrange(s, 1, s.len())
    } else {
        s
    };
    proof {
        if s@.len() > 0 && s@[0] == '+' {
            assert(d@ =~= s@.drop_first());
        }
    }
    if d.len() == 0 {
        return None;
    }
    read_digits(d, radix, max)
}

/// Reads a decimal number that fits 16 bits.
pub fn parse_u16(s: &[char]) -> (r: Option<u16>)
    ensures
        match r {
            Some(v) => parse_unsigned(s@, 10, 0xffff) == Some(v as nat),
            None => parse_unsigned(s@, 10, 0xffff) is None,
        },
{
    match parse_number(s, 10, 0xffff) {
        Some(v) => Some(v as u16),
        None => None,
    }
}

/// Reads a hexadecimal number that fits 16 bits.
pub fn parse_hex_u16(s: &[char]) -> (r: Option<u16>)
    ensures
        match r {
            Some(v) => parse_unsigned(s@, 16, 0xffff) == Some(v as nat),
            None => parse_unsigned(s@, 16, 0xffff) is None,
        },
{
    match parse_number(s, 16, 0xffff) {
        Some(v) => Some(v as u16),
        None => None,
    }
}

/// Reads a decimal number that fits 32 bits.
pub fn parse_u32(s: &[char]) -> (r: Option<u32>)
    ensures
        match r {
            Some(v) => parse_unsigned(s@, 10, 0xffff_ffff) == Some(v as nat),
            None => parse_unsigned(s@, 10, 0xffff_ffff) is None,
        },
{
    match parse_number(s, 10, 0xffff_ffff) {
        Some(v) => Some(v as u32),
        None => None,
    }
}

/// Reads a decimal number that fits 64 bits.
pub fn parse_u64(s: &[char]) -> (r: Option<u64>)
    ensures
        match r {
            Some(v) => parse_unsigned(s@, 10, 0xffff_ffff_ffff_ffff) == Some(v as nat),
            None => parse_unsigned(s@, 10, 0xffff_ffff_ffff_ffff) is None,
        },
{
    parse_number(s, 10, 0xffff_ffff_ffff_ffff)
}

/// The character for the digit `d`.
pub open spec fn digit_char(d: nat) -> char {
    if d == 0 {
        '0'
    } else if d == 1 {
        '1'
    } else if d == 2 {
        '2'
    } else if d == 3 {
        '3'
    } else if d == 4 {
        '4'
    } else if d == 5 {
        '5'
    } else if d == 6 {
        '6'
    } else if d == 7 {
        '7'
    } else if d == 8 {
        '8'
    } else {
        '9'
    }
}

/// Computes [`digit_char`].
pub fn digit_to_char(d: u8) -> (c: char)
    requires
        d < 10,
    ensures
        c == digit_char(d as nat),
{
    if d == 0 {
        '0'
    } else if d == 1 {
        '1'
    } else if d == 2 {
        '2'
    } else if d == 3 {
        '3'
    } else if d == 4 {
        '4'
    } else if d == 5 {
        '5'
    } else if d == 6 {
        '6'
    } else if d == 7 {
        '7'
    } else if d == 8 {
        '8'
    } else {
        '9'
    }
}

/// The decimal numeral of `n`, without leading zeros.
pub open spec fn decimal(n: nat) -> Seq<char>
    decreases n,
{
    if n < 10 {
        seq![digit_char(n)]
    } else {
        decimal(n / 10).push(digit_char(n % 10))
    }
}

/// A decimal numeral is never empty.
pub proof fn lemma_decimal_nonempty(n: nat)
    ensures
        decimal(n).len() > 0,
    decreases n,
{
    if n >= 10 {
        lemma_decimal_nonempty(n / 10);
    }
}

/// Appends the decimal numeral of `n` to `out`.
pub fn push_decimal(out: &mut String, n: u64)
    ensures
        final(out)@ == old(out)@ + decimal(n as nat),
    decreases n,
{
    if n >= 10 {
        push_decimal(out, n / 10);
    }
    let d: u8 = (n % 10) as u8;
    out.push(digit_to_char(d));
    proof {
        if n >= 10 {
            assert((old(out)@ + decimal((n / 10) as nat)).push(digit_char((n % 10) as nat))
                =~= old(out)@ + decimal(n as nat));
        } else {
            assert(old(out)@.push(digit_char(n as nat)) =~= old(out)@ + decimal(n as nat));
        }
    }
}

/// The decimal numeral of `n` as a string.
pub fn decimal_string(n: u64) -> (r: String)
    ensures
        r@ == decimal(n as nat),
{
    let mut r = String::new();
    push_decimal(&mut r, n);
    proof {
        assert(Seq::<char>::empty() + decimal(n as nat) =~= decimal(n as nat));
    }
    r
}

/// The code of `c`, with the letters `A` to `Z` taken as `a` to `z`.
pub open spec fn ascii_lower(c: char) -> int {
    let n = c as u32;
    if 0x41 <= n <= 0x5A {
        n + 32
    } else {
        n as int
    }
}

/// Whether `a` and `b` are the same text but for the case of the letters `A`
/// to `Z`.
pub open spec fn eq_ignore_ascii_case(a: Seq<char>, b: Seq<char>) -> bool {
    &&& a.len() == b.len()
    &&& forall|i: int| 0 <= i < a.len() ==> ascii_lower(#[trigger] a[i]) == ascii_lower(b[i])
}

/// Computes [`ascii_lower`].
pub fn lower_code(c: char) -> (r: u32)
    ensures
        r == ascii_lower(c),
{
    let n: u32 = c as u32;
    if 0x41 <= n && n <= 0x5A {
        n + 32
    } else {
        n
    }
}

/// Decides [`eq_ignore_ascii_case`].
pub fn same_ignoring_ascii_case(a: &[char], b: &[char]) -> (r: bool)
    ensures
        r == eq_ignore_ascii_case(a@, b@),
{
    let n = a.len();
    if n != b.len() {
        return false;
    }
    let mut i: usize = 0;
    while i < n
        invariant
            n == a@.len(),
            n == b@.len(),
            i <= n,
            forall|j: int| 0 <= j < i ==> ascii_lower(#[trigger] a@[j]) == ascii_lower(b@[j]),
        decreases n - i,
    {
        if lower_code(a[i]) != lower_code(b[i]) {
            return false;
        }
        i += 1;
    }
    true
}

/// The texts of `parts` in a row, with `sep` between each two.
pub open spec fn join(parts: Seq<Seq<char>>, sep: Seq<char>) -> Seq<char>
    decreases parts.len(),
{
    if parts.len() == 0 {
        Seq::empty()
    } else if parts.len() == 1 {
        parts[0]
    } else {
        join(parts.drop_last(), sep) + sep + parts.last()
    }
}

/// Appends [`join`] of `parts` to `out`.
pub fn push_joined(out: &mut String, parts: &Vec<String>, sep: &str)
    ensures
        final(out)@ == old(out)@ + join(views(parts@), sep@),
{
    let n = parts.len();
    let mut i: usize = 0;
    proof {
        assert(views(parts@).take(0) =~= Seq::<Seq<char>>::empty());
        assert(old(out)@ + Seq::<char>::empty() =~= old(out)@);
    }
    while i < n
        invariant
            n == parts@.len(),
            i <= n,
            out@ == old(out)@ + join(views(parts@).take(i as int), sep@),
        decreases n - i,
    {
        let ghost done = views(parts@).take(i as int);
        let ghost next = views(parts@).take(i + 1);
        proof {
            assert(next.drop_last() =~= done);
            assert(next.last() == parts@[i as int]@);
        }
        if i > 0 {
            push_text(out, sep);
        }
        push_text(out, parts[i].as_str());
        proof {
            if i > 0 {
                assert(old(out)@ + join(done, sep@) + sep@ + parts@[i as int]@ =~= old(out)@ + (
                join(done, sep@) + sep@ + parts@[i as int]@));
            } else {
                assert(old(out)@ + join(done, sep@) + parts@[i as int]@ =~= old(out)@
                    + parts@[i as int]@);
            }
        }
        i += 1;
    }
    proof {
        assert(views(parts@).take(n as int) =~= views(parts@));
    }
}

/// Owned copies of the given texts.
pub fn owned_texts(items: &[&str]) -> (r: Vec<String>)
    ensures
        views(r@) == items.deep_view(),
{
    let n = items.len();
    let mut out: Vec<String> = Vec::new();
    let mut i: usize = 0;
    while i < n
        invariant
            n == items@.len(),
            i <= n,
            out@.len() == i,
            forall|j: int| 0 <= j < i ==> (#[trigger] out@[j])@ == items@[j]@,
        decreases n - i,
    {
        out.push(items[i].to_owned());
        i += 1;
    }
    proof {
        assert(views(out@) =~= items.deep_view());
    }
    out
}

/// Whether `s` begins with one of `pats`.
pub open spec fn starts_with_any(s: Seq<char>, pats: Seq<Seq<char>>) -> bool {
    exists|i: int| 0 <= i < pats.len() && starts_with(s, #[trigger] pats[i])
}

/// Whether `s` ends with one of `pats`.
pub open spec fn ends_with_any(s: Seq<char>, pats: Seq<Seq<char>>) -> bool {
    exists|i: int| 0 <= i < pats.len() && ends_with(s, #[trigger] pats[i])
}

/// Decides [`starts_with_any`].
pub fn has_prefix_among(s: &[char], pats: &[&str]) -> (r: bool)
    ensures
        r == starts_with_any(s@, pats.deep_view()),
{
    let ghost ps = pats.deep_view();
    let mut i: usize = 0;
    while i < pats.len()
        invariant
            i <= pats@.len(),
            ps == pats.deep_view(),
            forall|j: int| 0 <= j < i ==> !starts_with(s@, #[trigger] ps[j]),
        decreases pats@.len() - i,
    {
        let pat = chars_of(pats[i]);
        if has_prefix(s, pat.as_slice()) {
            proof {
                assert(starts_with(s@, ps[i as int]));
            }
            return true;
        }
        i += 1;
    }
    false
}

/// Decides [`ends_with_any`].
pub fn has_suffix_among(s: &[char], pats: &[&str]) -> (r: bool)
    ensures
        r == ends_with_any(s@, pats.deep_view()),
{
    let ghost ps = pats.deep_view();
    let mut i: usize = 0;
    while i < pats.len()
        invariant
            i <= pats@.len(),
            ps == pats.deep_view(),
            forall|j: int| 0 <= j < i ==> !ends_with(s@, #[trigger] ps[j]),
        decreases pats@.len() - i,
    {
        let pat = chars_of(pats[i]);
        if has_suffix(s, pat.as_slice()) {
            proof {
                assert(ends_with(s@, ps[i as int]));
            }
            return true;
        }
        i += 1;
    }
    false
}

/// An optional number as a mathematical one.
pub open spec fn as_nat(o: Option<u64>) -> Option<nat> {
    match o {
        Some(v) => Some(v as nat),
        None => None,
    }
}

/// The text of an optional string; the empty text where there is none.
pub open spec fn text_or_empty(s: Option<String>) -> Seq<char> {
    match s {
        Some(t) => t@,
        None => Seq::<char>::empty(),
    }
}

/// The text of an optional string, where there is one.
pub open spec fn opt_view(s: Option<String>) -> Option<Seq<char>> {
    match s {
        Some(t) => Some(t@),
        None => None,
    }
}

/// The characters of an optional string; none where there is no string.
pub fn chars_or_empty(s: &Option<String>) -> (v: Vec<char>)
    ensures
        v@ == text_or_empty(*s),
{
    match s {
        Some(t) => chars_of(t.as_str()),
        None => Vec::new(),
    }
}

/// The predicate "is `d`".
pub open spec fn same_as(d: char) -> spec_fn(char) -> bool {
    |c: char| c == d
}

/// `s` without the characters `c` at its start and at its end.
pub open spec fn trim_matches(s: Seq<char>, c: char) -> Seq<char> {
    let t = s.skip(prefix_len(s, same_as(c)) as int);
    t.take(t.len() - suffix_len(t, same_as(c)))
}

/// Computes [`trim_matches`].
pub fn trimmed_of<'a>(s: &'a [char], c: char) -> (r: &'a [char])
    ensures
        r@ == trim_matches(s@, c),
{
    let n = s.len();
    let mut i: usize = 0;
    while i < n && s[i] == c
        invariant
            n == s@.len(),
            i <= n,
            forall|j: int| 0 <= j < i ==> same_as(c)(#[trigger] s@[j]),
        decreases n - i,
    {
        i += 1;
    }
    let mut j: usize = n;
    while j > i && s[j - 1] == c
        invariant
            n == s@.len(),
            i <= j <= n,
            forall|k: int| j <= k < n ==> same_as(c)(#[trigger] s@[k]),
        decreases j,
    {
        j -= 1;
    }
    proof {
        lemma_prefix_len_is(s@, same_as(c), i as int);
        let t = s@.skip(i as int);
        assert forall|k: int| t.len() - (n - j) <= k < t.len() implies same_as(c)(
            #[trigger] t[k],
        ) by {
            assert(t[k] == s@[k + i]);
        }
        if n - j < t.len() {
            assert(t[t.len() - (n - j) - 1] == s@[j - 1]);
        }
        lemma_suffix_len_is(t, same_as(c), (n - j) as int);
        assert(t.take(t.len() - (n - j)) =~= s@.subrange(i as int, j as int));
    }
    slice_subrange(s, i, j)
}

/// What follows `pat` in `s`, where `s` begins with `pat`.
pub open spec fn strip_prefix(s: Seq<char>, pat: Seq<char>) -> Option<Seq<char>> {
    if starts_with(s, pat) {
        Some(s.skip(pat.len() as int))
    } else {
        None
    }
}

/// Computes [`strip_prefix`].
pub fn without_prefix<'a>(s: &'a [char], pat: &[char]) -> (r: Option<&'a [char]>)
    ensures
        match r {
            Some(rest) => strip_prefix(s@, pat@) == Some(rest@),
            None => strip_prefix(s@, pat@) is None,
        },
{
    if has_prefix(s, pat) {
        Some(slice_subrange(s, pat.len(), s.len()))
    } else {
        None
    }
}

} // verus!
