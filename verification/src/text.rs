//! Text as sequences of characters: searching, trimming and splitting.

use vstd::prelude::*;
use vstd::string::StringExecFns;

verus! {

/// Whether `c` has the Unicode property White_Space.
pub uninterp spec fn is_white_space(c: char) -> bool;

/// `char::is_whitespace`: whether the character has the Unicode property
/// White_Space. The property is a table of the Unicode database, so it is
/// named, not spelled out.
#[verifier::external_body]
pub(crate) fn char_is_whitespace(c: char) -> (r: bool)
    ensures
        r == is_white_space(c),
{
    c.is_whitespace()
}

/// `String::push`: appends one character to the string.
#[verifier::external_body]
pub(crate) fn push_char(s: &mut String, c: char)
    ensures
        final(s)@ == old(s)@.push(c),
{
    s.push(c)
}

/// `needle` occurs in `hay` at position `i`.
pub open spec fn is_sub_at(hay: Seq<char>, needle: Seq<char>, i: int) -> bool {
    0 <= i && i + needle.len() <= hay.len() && hay.subrange(i, i + needle.len()) == needle
}

/// `needle` occurs somewhere in `hay`.
pub open spec fn contains_text(hay: Seq<char>, needle: Seq<char>) -> bool {
    exists|i: int| is_sub_at(hay, needle, i)
}

/// `hay` begins with `prefix`.
pub open spec fn starts_with(hay: Seq<char>, prefix: Seq<char>) -> bool {
    is_sub_at(hay, prefix, 0)
}

/// `hay` ends with `suffix`.
pub open spec fn ends_with(hay: Seq<char>, suffix: Seq<char>) -> bool {
    is_sub_at(hay, suffix, hay.len() - suffix.len())
}

/// `s` with every trailing repetition of `suffix` removed.
pub open spec fn without_trailing(s: Seq<char>, suffix: Seq<char>) -> Seq<char>
    decreases s.len(),
{
    if suffix.len() > 0 && ends_with(s, suffix) {
        without_trailing(s.subrange(0, s.len() - suffix.len()), suffix)
    } else {
        s
    }
}

/// The rightmost occurrence of `needle` in `hay` is at `i`.
pub open spec fn is_last_sub_at(hay: Seq<char>, needle: Seq<char>, i: int) -> bool {
    is_sub_at(hay, needle, i) && forall|j: int| j > i ==> !is_sub_at(hay, needle, j)
}

/// What follows the rightmost occurrence of `sep` in `s`; all of `s` where
/// `sep` does not occur.
pub open spec fn text_after_last(s: Seq<char>, sep: Seq<char>) -> Seq<char> {
    if contains_text(s, sep) {
        let i = choose|i: int| is_last_sub_at(s, sep, i);
        s.subrange(i + sep.len(), s.len() as int)
    } else {
        s
    }
}

/// The rightmost occurrence is at one position only.
pub proof fn lemma_last_sub_unique(s: Seq<char>, sep: Seq<char>, i: int)
    requires
        is_last_sub_at(s, sep, i),
    ensures
        contains_text(s, sep),
        text_after_last(s, sep) == s.subrange(i + sep.len(), s.len() as int),
{
    assert(is_sub_at(s, sep, i));
    let j = choose|j: int| is_last_sub_at(s, sep, j);
    assert(is_last_sub_at(s, sep, j));
    if j < i {
        assert(!is_sub_at(s, sep, i));
    } else if i < j {
        assert(!is_sub_at(s, sep, j));
    }
}

/// The number of white-space characters that `s` begins with.
pub open spec fn leading_space(s: Seq<char>) -> nat
    decreases s.len(),
{
    if s.len() > 0 && is_white_space(s[0]) {
        1 + leading_space(s.drop_first())
    } else {
        0
    }
}

/// The number of white-space characters that `s` ends with.
pub open spec fn trailing_space(s: Seq<char>) -> nat
    decreases s.len(),
{
    if s.len() > 0 && is_white_space(s.last()) {
        1 + trailing_space(s.drop_last())
    } else {
        0
    }
}

/// `s` without the white space at its start and end.
pub open spec fn trimmed(s: Seq<char>) -> Seq<char> {
    let a = leading_space(s) as int;
    if a == s.len() {
        Seq::empty()
    } else {
        s.subrange(a, s.len() - trailing_space(s))
    }
}

/// The number of characters before the first white space in `s`.
pub open spec fn word_len(s: Seq<char>) -> nat
    decreases s.len(),
{
    if s.len() > 0 && !is_white_space(s[0]) {
        1 + word_len(s.drop_first())
    } else {
        0
    }
}

/// The maximal runs of characters of `s` that hold no white space, in order.
pub open spec fn words(s: Seq<char>) -> Seq<Seq<char>>
    decreases s.len(),
{
    if s.len() == 0 {
        Seq::empty()
    } else if is_white_space(s[0]) {
        words(s.drop_first())
    } else {
        let n = word_len(s) as int;
        if 0 < n <= s.len() {
            seq![s.subrange(0, n)] + words(s.subrange(n, s.len() as int))
        } else {
            Seq::empty()
        }
    }
}

/// The position of the first `c` in `s`, or the length of `s` where there is none.
pub open spec fn first_index_of(s: Seq<char>, c: char) -> nat
    decreases s.len(),
{
    if s.len() > 0 && s[0] != c {
        1 + first_index_of(s.drop_first(), c)
    } else {
        0
    }
}

/// Counting white space from the left is determined by where the first other
/// character stands.
pub proof fn lemma_leading_space_is(s: Seq<char>, n: int)
    requires
        0 <= n <= s.len(),
        forall|i: int| 0 <= i < n ==> is_white_space(#[trigger] s[i]),
        n < s.len() ==> !is_white_space(s[n]),
    ensures
        leading_space(s) == n,
    decreases s.len(),
{
    if n > 0 {
        let t = s.drop_first();
        assert(is_white_space(s[0]));
        assert forall|i: int| 0 <= i < n - 1 implies is_white_space(#[trigger] t[i]) by {
            assert(t[i] == s[i + 1]);
        }
        lemma_leading_space_is(t, n - 1);
    }
}

/// Counting white space from the right is determined by where the last other
/// character stands.
pub proof fn lemma_trailing_space_is(s: Seq<char>, n: int)
    requires
        0 <= n <= s.len(),
        forall|i: int| s.len() - n <= i < s.len() ==> is_white_space(#[trigger] s[i]),
        n < s.len() ==> !is_white_space(s[s.len() - n - 1]),
    ensures
        trailing_space(s) == n,
    decreases s.len(),
{
    if n > 0 {
        let t = s.drop_last();
        assert(is_white_space(s[s.len() - 1]));
        assert forall|i: int| t.len() - (n - 1) <= i < t.len() implies is_white_space(
            #[trigger] t[i],
        ) by {
            assert(t[i] == s[i]);
        }
        lemma_trailing_space_is(t, n - 1);
    }
}

/// The characters of a string.
pub fn to_chars(s: &str) -> (v: Vec<char>)
    ensures
        v@ == s@,
{
    let mut v: Vec<char> = Vec::new();
    for c in it: s.chars()
        invariant
            it.seq() == s@,
            v@ == s@.subrange(0, it.index() as int),
    {
        v.push(c);
        assert(v@ =~= s@.subrange(0, it.index() + 1));
    }
    assert(v@ =~= s@);
    v
}

/// The string made of the characters of `v` from `lo` up to `hi`.
pub fn string_from(v: &Vec<char>, lo: usize, hi: usize) -> (s: String)
    requires
        lo <= hi <= v.len(),
    ensures
        s@ == v@.subrange(lo as int, hi as int),
{
    let mut s = String::new();
    let mut i: usize = lo;
    while i < hi
        invariant
            lo <= i <= hi <= v.len(),
            s@ == v@.subrange(lo as int, i as int),
        decreases hi - i,
    {
        push_char(&mut s, v[i]);
        i += 1;
        assert(s@ =~= v@.subrange(lo as int, i as int));
    }
    s
}

/// The two texts, one after the other.
pub fn concat(a: &str, b: &str) -> (s: String)
    ensures
        s@ == a@ + b@,
{
    let mut s = a.to_owned();
    s.append(b);
    s
}

/// Whether `needle` stands in `hay` at position `i`.
pub fn matches_at(hay: &Vec<char>, needle: &Vec<char>, i: usize) -> (r: bool)
    ensures
        r == is_sub_at(hay@, needle@, i as int),
{
    if needle.len() > hay.len() || i > hay.len() - needle.len() {
        return false;
    }
    let mut k: usize = 0;
    while k < needle.len()
        invariant
            k <= needle.len(),
            i + needle.len() <= hay.len(),
            forall|j: int| 0 <= j < k ==> hay@[i + j] == needle@[j],
        decreases needle.len() - k,
    {
        if hay[i + k] != needle[k] {
            assert(hay@.subrange(i as int, i + needle@.len())[k as int] != needle@[k as int]);
            return false;
        }
        k += 1;
    }
    assert(hay@.subrange(i as int, i + needle@.len()) =~= needle@);
    true
}

/// The position of the rightmost occurrence of `needle` in `hay`.
pub fn find_last(hay: &Vec<char>, needle: &Vec<char>) -> (r: Option<usize>)
    ensures
        match r {
            Some(i) => is_last_sub_at(hay@, needle@, i as int),
            None => !contains_text(hay@, needle@),
        },
{
    if needle.len() > hay.len() {
        return None;
    }
    let mut i: usize = hay.len() - needle.len();
    loop
        invariant
            needle.len() <= hay.len(),
            i <= hay.len() - needle.len(),
            forall|j: int| j > i ==> !is_sub_at(hay@, needle@, j),
        decreases i,
    {
        if matches_at(hay, needle, i) {
            return Some(i);
        }
        if i == 0 {
            return None;
        }
        i -= 1;
    }
}

/// Whether `needle` occurs in `hay`.
pub fn contains(hay: &str, needle: &str) -> (r: bool)
    ensures
        r == contains_text(hay@, needle@),
{
    let h = to_chars(hay);
    let n = to_chars(needle);
    find_last(&h, &n).is_some()
}

/// Whether `hay` begins with `prefix`.
pub fn has_prefix(hay: &str, prefix: &str) -> (r: bool)
    ensures
        r == starts_with(hay@, prefix@),
{
    let h = to_chars(hay);
    let p = to_chars(prefix);
    matches_at(&h, &p, 0)
}

/// Whether `hay` ends with `suffix`.
pub fn has_suffix(hay: &str, suffix: &str) -> (r: bool)
    ensures
        r == ends_with(hay@, suffix@),
{
    let h = to_chars(hay);
    let p = to_chars(suffix);
    if p.len() > h.len() {
        return false;
    }
    matches_at(&h, &p, h.len() - p.len())
}

/// `s` with every trailing repetition of `suffix` removed.
pub fn strip_trailing(s: &str, suffix: &str) -> (r: String)
    ensures
        r@ == without_trailing(s@, suffix@),
{
    let h = to_chars(s);
    let p = to_chars(suffix);
    let mut end: usize = h.len();
    if p.len() == 0 {
        return string_from(&h, 0, end);
    }
    assert(h@.subrange(0, end as int) =~= h@);
    loop
        invariant
            end <= h.len(),
            p.len() > 0,
            h@ == s@,
            p@ == suffix@,
            without_trailing(s@, suffix@) == without_trailing(h@.subrange(0, end as int), p@),
        decreases end,
    {
        let ghost cur = h@.subrange(0, end as int);
        if p.len() > end {
            return string_from(&h, 0, end);
        }
        let at = end - p.len();
        let found = matches_at(&h, &p, at);
        proof {
            assert(is_sub_at(h@, p@, at as int) == is_sub_at(cur, p@, at as int)) by {
                assert(h@.subrange(at as int, at + p@.len()) =~= cur.subrange(
                    at as int,
                    at + p@.len(),
                ));
            }
        }
        if !found {
            return string_from(&h, 0, end);
        }
        proof {
            assert(cur.subrange(0, cur.len() - p@.len()) =~= h@.subrange(0, at as int));
        }
        end = at;
    }
}

/// What follows the rightmost occurrence of `sep` in `s`; all of `s` where
/// `sep` does not occur.
pub fn after_last(s: &str, sep: &str) -> (r: String)
    ensures
        r@ == text_after_last(s@, sep@),
{
    let h = to_chars(s);
    let p = to_chars(sep);
    match find_last(&h, &p) {
        Some(i) => {
            assert(is_sub_at(h@, p@, i as int));
            proof {
                lemma_last_sub_unique(s@, sep@, i as int);
            }
            let end = h.len();
            string_from(&h, i + p.len(), end)
        },
        None => string_from_all(&h),
    }
}

/// The string made of all the characters of `v`.
pub fn string_from_all(v: &Vec<char>) -> (s: String)
    ensures
        s@ == v@,
{
    let s = string_from(v, 0, v.len());
    assert(v@.subrange(0, v@.len() as int) =~= v@);
    s
}

/// The characters of `v` from `lo` up to `hi`, without the white space at
/// their start and end.
pub fn trim_range(v: &Vec<char>, lo: usize, hi: usize) -> (r: String)
    requires
        lo <= hi <= v.len(),
    ensures
        r@ == trimmed(v@.subrange(lo as int, hi as int)),
{
    let ghost s = v@.subrange(lo as int, hi as int);
    let mut a: usize = lo;
    while a < hi && char_is_whitespace(v[a])
        invariant
            lo <= a <= hi <= v.len(),
            s == v@.subrange(lo as int, hi as int),
            forall|i: int| 0 <= i < a - lo ==> is_white_space(#[trigger] s[i]),
        decreases hi - a,
    {
        a += 1;
    }
    proof {
        lemma_leading_space_is(s, a - lo);
    }
    if a == hi {
        return String::new();
    }
    let mut b: usize = hi;
    while b > a && char_is_whitespace(v[b - 1])
        invariant
            lo <= a < hi <= v.len(),
            a <= b <= hi,
            s == v@.subrange(lo as int, hi as int),
            !is_white_space(s[a - lo]),
            forall|i: int| b - lo <= i < s.len() ==> is_white_space(#[trigger] s[i]),
        decreases b,
    {
        b -= 1;
    }
    proof {
        lemma_trailing_space_is(s, hi - b);
    }
    let r = string_from(v, a, b);
    assert(r@ =~= s.subrange(a - lo, s.len() - (hi - b)));
    r
}

/// `s` without the white space at its start and end.
pub fn trim(s: &str) -> (r: String)
    ensures
        r@ == trimmed(s@),
{
    let v = to_chars(s);
    assert(v@.subrange(0, v@.len() as int) =~= v@);
    trim_range(&v, 0, v.len())
}

/// The position of the first `c` in `v`, or the length of `v` where there is none.
pub fn index_of(v: &Vec<char>, c: char) -> (r: usize)
    ensures
        r == first_index_of(v@, c),
        r <= v.len(),
        forall|i: int| 0 <= i < r ==> v@[i] != c,
        r < v.len() ==> v@[r as int] == c,
{
    let mut i: usize = 0;
    assert(v@.subrange(0, v@.len() as int) =~= v@);
    while i < v.len() && v[i] != c
        invariant
            i <= v.len(),
            forall|j: int| 0 <= j < i ==> v@[j] != c,
            first_index_of(v@, c) == i + first_index_of(v@.subrange(i as int, v@.len() as int), c),
        decreases v.len() - i,
    {
        proof {
            let t = v@.subrange(i as int, v@.len() as int);
            assert(t.drop_first() =~= v@.subrange(i + 1, v@.len() as int));
        }
        i += 1;
    }
    proof {
        assert(v@.subrange(0, v@.len() as int) =~= v@);
    }
    i
}

/// The maximal runs of characters of `s` that hold no white space, in order.
pub fn split_words(s: &str) -> (r: Vec<String>)
    ensures
        r@.len() == words(s@).len(),
        forall|i: int| 0 <= i < r@.len() ==> (#[trigger] r@[i])@ == words(s@)[i],
{
    let v = to_chars(s);
    let mut out: Vec<String> = Vec::new();
    let mut i: usize = 0;
    let ghost done: Seq<Seq<char>> = Seq::empty();
    assert(v@.subrange(0, v@.len() as int) =~= v@);
    while i < v.len()
        invariant
            i <= v.len(),
            v@ == s@,
            out@.len() == done.len(),
            forall|k: int| 0 <= k < out@.len() ==> (#[trigger] out@[k])@ == done[k],
            words(s@) == done + words(v@.subrange(i as int, v@.len() as int)),
        decreases v.len() - i,
    {
        let ghost rest = v@.subrange(i as int, v@.len() as int);
        if char_is_whitespace(v[i]) {
            proof {
                assert(rest.drop_first() =~= v@.subrange(i + 1, v@.len() as int));
            }
            i += 1;
        } else {
            let start = i;
            let mut j: usize = i;
            while j < v.len() && !char_is_whitespace(v[j])
                invariant
                    start <= j <= v.len(),
                    rest == v@.subrange(start as int, v@.len() as int),
                    word_len(rest) == (j - start) + word_len(
                        v@.subrange(j as int, v@.len() as int),
                    ),
                decreases v.len() - j,
            {
                proof {
                    let t = v@.subrange(j as int, v@.len() as int);
                    assert(t.drop_first() =~= v@.subrange(j + 1, v@.len() as int));
                }
                j += 1;
            }
            let w = string_from(&v, start, j);
            proof {
                let n = word_len(rest) as int;
                assert(n == j - start);
                assert(rest.subrange(0, n) =~= v@.subrange(start as int, j as int));
                assert(rest.subrange(n, rest.len() as int) =~= v@.subrange(
                    j as int,
                    v@.len() as int,
                ));
                assert(words(rest) == seq![rest.subrange(0, n)] + words(
                    rest.subrange(n, rest.len() as int),
                ));
                assert(done + words(rest) =~= done.push(w@) + words(
                    v@.subrange(j as int, v@.len() as int),
                ));
                done = done.push(w@);
            }
            out.push(w);
            i = j;
        }
    }
    proof {
        assert(v@.subrange(v@.len() as int, v@.len() as int) =~= Seq::<char>::empty());
        assert(done + Seq::<Seq<char>>::empty() =~= done);
    }
    out
}


/// The leftmost occurrence of `needle` in `hay` is at `i`.
pub open spec fn is_first_sub_at(hay: Seq<char>, needle: Seq<char>, i: int) -> bool {
    is_sub_at(hay, needle, i) && forall|j: int| 0 <= j < i ==> !is_sub_at(hay, needle, j)
}

/// The position of the leftmost occurrence of `needle` in `hay`.
pub fn find_first(hay: &Vec<char>, needle: &Vec<char>) -> (r: Option<usize>)
    ensures
        match r {
            Some(i) => is_first_sub_at(hay@, needle@, i as int),
            None => !contains_text(hay@, needle@),
        },
{
    if needle.len() > hay.len() {
        return None;
    }
    let last = hay.len() - needle.len();
    let mut i: usize = 0;
    loop
        invariant
            needle.len() <= hay.len(),
            last == hay.len() - needle.len(),
            i <= last,
            forall|j: int| 0 <= j < i ==> !is_sub_at(hay@, needle@, j),
        decreases last - i,
    {
        if matches_at(hay, needle, i) {
            return Some(i);
        }
        if i == last {
            return None;
        }
        i += 1;
    }
}

/// The digit for a number below ten.
pub open spec fn digit_char(d: int) -> char {
    if d == 0 {
        '0'
    } else if d == 1 {
        '1'
    } else if d == 2 {
        '2'
    } else if d == 3 {
        '3'
    } else if d == 4 {
        '4'
    } else if d == 5 {
        '5'
    } else if d == 6 {
        '6'
    } else if d == 7 {
        '7'
    } else if d == 8 {
        '8'
    } else {
        '9'
    }
}

/// The number in decimal digits.
pub open spec fn decimal_text(n: nat) -> Seq<char>
    decreases n,
{
    if n < 10 {
        seq![digit_char(n as int)]
    } else {
        decimal_text(n / 10).push(digit_char((n % 10) as int))
    }
}

/// The digit for a number below ten.
fn digit(d: u32) -> (r: char)
    requires
        d < 10,
    ensures
        r == digit_char(d as int),
{
    match d {
        0 => '0',
        1 => '1',
        2 => '2',
        3 => '3',
        4 => '4',
        5 => '5',
        6 => '6',
        7 => '7',
        8 => '8',
        _ => '9',
    }
}

/// The number in decimal digits.
pub fn decimal(n: u32) -> (r: String)
    ensures
        r@ == decimal_text(n as nat),
    decreases n,
{
    if n < 10 {
        let mut s = String::new();
        push_char(&mut s, digit(n));
        assert(s@ =~= seq![digit_char(n as int)]);
        s
    } else {
        let mut s = decimal(n / 10);
        push_char(&mut s, digit(n % 10));
        s
    }
}

/// Whether the character is a decimal digit.
pub open spec fn is_digit(c: char) -> bool {
    '0' <= c <= '9'
}

/// The value of a decimal digit.
pub open spec fn digit_value(c: char) -> nat {
    (c as u32 - '0' as u32) as nat
}

/// Every character is a decimal digit.
pub open spec fn all_digits(s: Seq<char>) -> bool {
    forall|i: int| 0 <= i < s.len() ==> is_digit(#[trigger] s[i])
}

/// The number that decimal digits stand for.
pub open spec fn digits_value(s: Seq<char>) -> nat
    decreases s.len(),
{
    if s.len() == 0 {
        0
    } else {
        digits_value(s.drop_last()) * 10 + digit_value(s.last())
    }
}

/// The value of the first digits is at most the value of all.
pub proof fn lemma_digits_value_grows(s: Seq<char>, k: int)
    requires
        0 <= k <= s.len(),
    ensures
        digits_value(s.subrange(0, k)) <= digits_value(s),
    decreases s.len() - k,
{
    if k == s.len() {
        assert(s.subrange(0, k) =~= s);
    } else {
        lemma_digits_value_grows(s, k + 1);
        let next = s.subrange(0, k + 1);
        assert(next.drop_last() =~= s.subrange(0, k));
    }
}

/// The count that a text holds: the number that it spells in decimal digits,
/// with white space around it and a plus sign before it allowed; zero where
/// it spells none, or one that does not fit.
pub open spec fn count_of(text: Seq<char>) -> u32 {
    let t = trimmed(text);
    let d = if t.len() > 0 && t[0] == '+' {
        t.drop_first()
    } else {
        t
    };
    if d.len() > 0 && all_digits(d) && digits_value(d) <= u32::MAX {
        digits_value(d) as u32
    } else {
        0
    }
}

/// The count that a text holds.
pub fn parse_count(text: &str) -> (r: u32)
    ensures
        r == count_of(text@),
{
    let t = trim(text);
    let v = to_chars(t.as_str());
    let start: usize = if v.len() > 0 && v[0] == '+' {
        1
    } else {
        0
    };
    let ghost d = v@.subrange(start as int, v@.len() as int);
    assert(d =~= if v@.len() > 0 && v@[0] == '+' {
        v@.drop_first()
    } else {
        v@
    });
    if start == v.len() {
        return 0;
    }
    let mut acc: u64 = 0;
    let mut i: usize = start;
    assert(d.subrange(0, 0) =~= Seq::<char>::empty());
    while i < v.len()
        invariant
            start <= i <= v.len(),
            v@ == trimmed(text@),
            d == v@.subrange(start as int, v@.len() as int),
            d == (if v@.len() > 0 && v@[0] == '+' {
                v@.drop_first()
            } else {
                v@
            }),
            d.len() > 0,
            acc == digits_value(d.subrange(0, i - start)),
            acc <= u32::MAX,
            all_digits(d.subrange(0, i - start)),
        decreases v.len() - i,
    {
        let c = v[i];
        let ghost next = d.subrange(0, i - start + 1);
        assert(next.drop_last() =~= d.subrange(0, i - start));
        assert(next.last() == c);
        if c < '0' || c > '9' {
            assert(!is_digit(d[i - start]));
            return 0;
        }
        let value = c as u32 - '0' as u32;
        acc = acc * 10 + value as u64;
        assert(acc == digits_value(next));
        assert(all_digits(next)) by {
            assert forall|j: int| 0 <= j < next.len() implies is_digit(#[trigger] next[j]) by {
                if j < next.len() - 1 {
                    assert(d.subrange(0, i - start)[j] == next[j]);
                }
            }
        }
        if acc > u32::MAX as u64 {
            proof {
                lemma_digits_value_grows(d, i - start + 1);
            }
            return 0;
        }
        i += 1;
    }
    assert(d.subrange(0, d.len() as int) =~= d);
    acc as u32
}

} // verus!
