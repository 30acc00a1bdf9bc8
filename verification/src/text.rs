//! Character-level helpers: whitespace, trimming, encoded length, decimal
//! numerals, and conversions between strings and character vectors.

use vstd::prelude::*;

verus! {

/// The characters Unicode classifies as white space.
pub open spec fn is_whitespace(c: char) -> bool {
    let u = c as u32;
    (0x09 <= u <= 0x0D) || u == 0x20 || u == 0x85 || u == 0xA0 || u == 0x1680 || (0x2000 <= u
        <= 0x200A) || u == 0x2028 || u == 0x2029 || u == 0x202F || u == 0x205F || u == 0x3000
}

/// An ASCII decimal digit.
pub open spec fn is_digit(c: char) -> bool {
    0x30 <= c as u32 <= 0x39
}

/// An ASCII punctuation mark or symbol.
pub open spec fn is_punctuation(c: char) -> bool {
    let u = c as u32;
    (0x21 <= u <= 0x2F) || (0x3A <= u <= 0x40) || (0x5B <= u <= 0x60) || (0x7B <= u <= 0x7E)
}

/// Every character is a digit, a punctuation mark or white space.
pub open spec fn is_numeric_only(s: Seq<char>) -> bool {
    forall|i: int| 0 <= i < s.len() ==> is_digit(s[i]) || is_punctuation(s[i]) || is_whitespace(s[i])
}

/// Number of white-space characters at the front of `s`.
pub open spec fn leading_whitespace(s: Seq<char>) -> nat
    decreases s.len(),
{
    if s.len() > 0 && is_whitespace(s[0]) {
        1 + leading_whitespace(s.drop_first())
    } else {
        0
    }
}

/// Number of white-space characters at the back of `s`.
pub open spec fn trailing_whitespace(s: Seq<char>) -> nat
    decreases s.len(),
{
    if s.len() > 0 && is_whitespace(s.last()) {
        1 + trailing_whitespace(s.drop_last())
    } else {
        0
    }
}

/// `s` without its leading and trailing white space.
pub open spec fn trimmed(s: Seq<char>) -> Seq<char> {
    let lead = leading_whitespace(s);
    let rest = s.subrange(lead as int, s.len() as int);
    rest.subrange(0, rest.len() - trailing_whitespace(rest))
}

/// Bytes that `c` occupies in UTF-8.
pub open spec fn utf8_len(c: char) -> nat {
    let u = c as u32;
    if u < 0x80 {
        1
    } else if u < 0x800 {
        2
    } else if u < 0x1_0000 {
        3
    } else {
        4
    }
}

/// Bytes that the first `n` characters of `s` occupy in UTF-8.
pub open spec fn utf8_len_prefix(s: Seq<char>, n: nat) -> nat
    recommends
        n <= s.len(),
    decreases n,
{
    if n == 0 {
        0
    } else {
        utf8_len_prefix(s, (n - 1) as nat) + utf8_len(s[n - 1])
    }
}

/// Bytes that `s` occupies in UTF-8.
pub open spec fn utf8_byte_len(s: Seq<char>) -> nat {
    utf8_len_prefix(s, s.len())
}

/// The decimal numeral of `n`, without leading zeros.
pub open spec fn decimal(n: nat) -> Seq<char>
    decreases n,
{
    if n < 10 {
        seq![digit_char(n)]
    } else {
        decimal(n / 10).push(digit_char(n % 10))
    }
}

/// The character for a value below ten.
pub open spec fn digit_char(d: nat) -> char
    recommends
        d < 10,
{
    (0x30 + d) as char
}

/// A run of white space at the front of `s` that stops at a character that
/// is not white space, or at the end, is all of its leading white space.
pub proof fn lemma_leading_whitespace_is(s: Seq<char>, k: nat)
    requires
        k <= s.len(),
        forall|i: int| 0 <= i < k ==> is_whitespace(s[i]),
        k < s.len() ==> !is_whitespace(s[k as int]),
    ensures
        leading_whitespace(s) == k,
    decreases s.len(),
{
    if k > 0 {
        let t = s.drop_first();
        assert(is_whitespace(s[0]));
        assert forall|i: int| 0 <= i < k - 1 implies is_whitespace(t[i]) by {
            assert(t[i] == s[i + 1]);
        }
        if k - 1 < t.len() {
            assert(t[k - 1] == s[k as int]);
        }
        lemma_leading_whitespace_is(t, (k - 1) as nat);
    }
}

/// A run of white space at the back of `s` that stops at a character that
/// is not white space, or at the front, is all of its trailing white space.
pub proof fn lemma_trailing_whitespace_is(s: Seq<char>, k: nat)
    requires
        k <= s.len(),
        forall|i: int| s.len() - k <= i < s.len() ==> is_whitespace(s[i]),
        k < s.len() ==> !is_whitespace(s[s.len() - k - 1]),
    ensures
        trailing_whitespace(s) == k,
    decreases s.len(),
{
    if k > 0 {
        let t = s.drop_last();
        assert(is_whitespace(s.last()));
        assert forall|i: int| t.len() - (k - 1) <= i < t.len() implies is_whitespace(t[i]) by {
            assert(t[i] == s[i]);
        }
        if k - 1 < t.len() {
            assert(t[t.len() - (k - 1) - 1] == s[s.len() - k - 1]);
        }
        lemma_trailing_whitespace_is(t, (k - 1) as nat);
    }
}

/// Whether `c` is white space.
pub fn char_is_whitespace(c: char) -> (b: bool)
    ensures
        b == is_whitespace(c),
{
    let u: u32 = c as u32;
    (0x09 <= u && u <= 0x0D) || u == 0x20 || u == 0x85 || u == 0xA0 || u == 0x1680 || (0x2000 <= u
        && u <= 0x200A) || u == 0x2028 || u == 0x2029 || u == 0x202F || u == 0x205F || u == 0x3000
}

/// Whether `c` is a digit, a punctuation mark or white space.
pub fn char_is_numeric_like(c: char) -> (b: bool)
    ensures
        b == (is_digit(c) || is_punctuation(c) || is_whitespace(c)),
{
    let u: u32 = c as u32;
    let digit = 0x30 <= u && u <= 0x39;
    let punctuation = (0x21 <= u && u <= 0x2F) || (0x3A <= u && u <= 0x40) || (0x5B <= u && u
        <= 0x60) || (0x7B <= u && u <= 0x7E);
    digit || punctuation || char_is_whitespace(c)
}

/// Bytes that `c` occupies in UTF-8.
pub fn char_utf8_len(c: char) -> (n: usize)
    ensures
        n == utf8_len(c),
        1 <= n <= 4,
{
    let u: u32 = c as u32;
    if u < 0x80 {
        1
    } else if u < 0x800 {
        2
    } else if u < 0x1_0000 {
        3
    } else {
        4
    }
}

/// The characters of `s`, in order.
pub fn to_chars(s: &str) -> (v: Vec<char>)
    ensures
        v@ == s@,
{
    let mut v: Vec<char> = Vec::new();
    for c in it: s.chars()
        invariant
            v@ == it.seq().take(it.index()),
            it.seq() == s@,
    {
        v.push(c);
    }
    v
}

/// Appends one character to a string. Trusted: stands for `String::push`
/// of the standard library, which adds the character at the end and leaves
/// the rest untouched.
#[verifier::external_body]
fn push_char(s: &mut String, c: char)
    ensures
        final(s)@ == old(s)@.push(c),
{
    s.push(c)
}

/// The string made of the characters `v[from..to]`.
pub fn from_chars(v: &Vec<char>, from: usize, to: usize) -> (s: String)
    requires
        from <= to <= v.len(),
    ensures
        s@ == v@.subrange(from as int, to as int),
{
    let mut s = String::new();
    let mut i: usize = from;
    while i < to
        invariant
            from <= i <= to <= v.len(),
            s@ == v@.subrange(from as int, i as int),
        decreases to - i,
    {
        push_char(&mut s, v[i]);
        i = i + 1;
        assert(s@ =~= v@.subrange(from as int, i as int));
    }
    s
}

/// Whether every character of `text` is a digit, a punctuation mark or
/// white space. The empty text qualifies.
pub fn text_is_numeric_only(text: &str) -> (b: bool)
    ensures
        b == is_numeric_only(text@),
{
    let chars = to_chars(text);
    let mut i: usize = 0;
    while i < chars.len()
        invariant
            i <= chars.len(),
            chars@ == text@,
            forall|j: int|
                0 <= j < i ==> is_digit(chars[j]) || is_punctuation(chars[j]) || is_whitespace(
                    chars[j],
                ),
        decreases chars.len() - i,
    {
        if !char_is_numeric_like(chars[i]) {
            return false;
        }
        i = i + 1;
    }
    true
}

/// The bounds of `v` without its leading and trailing white space:
/// `v[from..to]` is the trimmed text.
pub fn trim_bounds(v: &Vec<char>) -> (r: (usize, usize))
    ensures
        r.0 <= r.1 <= v.len(),
        v@.subrange(r.0 as int, r.1 as int) == trimmed(v@),
        r.0 == leading_whitespace(v@),
{
    let n = v.len();
    let mut from: usize = 0;
    while from < n && char_is_whitespace(v[from])
        invariant
            from <= n == v.len(),
            forall|i: int| 0 <= i < from ==> is_whitespace(v[i]),
        decreases n - from,
    {
        from = from + 1;
    }
    proof {
        lemma_leading_whitespace_is(v@, from as nat);
    }
    let ghost rest = v@.subrange(from as int, n as int);
    let mut to: usize = n;
    while to > from && char_is_whitespace(v[to - 1])
        invariant
            from <= to <= n == v.len(),
            forall|i: int| to <= i < n ==> is_whitespace(v[i]),
        decreases to,
    {
        to = to - 1;
    }
    proof {
        assert forall|i: int| rest.len() - (n - to) <= i < rest.len() implies is_whitespace(
            rest[i],
        ) by {
            assert(rest[i] == v[i + from]);
        }
        if n - to < rest.len() {
            assert(rest[rest.len() - (n - to) - 1] == v[to - 1]);
        }
        lemma_trailing_whitespace_is(rest, (n - to) as nat);
        assert(v@.subrange(from as int, to as int) =~= rest.subrange(0, rest.len() - (n - to)));
    }
    (from, to)
}

/// Byte length in UTF-8 of `text` without its leading and trailing white
/// space.
pub fn trimmed_byte_len(text: &str) -> (n: u128)
    ensures
        n == utf8_byte_len(trimmed(text@)),
        n <= 4 * usize::MAX,
{
    let chars = to_chars(text);
    let (from, to) = trim_bounds(&chars);
    let ghost t = trimmed(text@);
    let mut total: u128 = 0;
    let mut i: usize = from;
    while i < to
        invariant
            from <= i <= to <= chars.len(),
            t == chars@.subrange(from as int, to as int),
            total == utf8_len_prefix(t, (i - from) as nat),
            total <= 4 * (i - from),
        decreases to - i,
    {
        assert(t[i - from] == chars[i as int]);
        total = total + char_utf8_len(chars[i]) as u128;
        i = i + 1;
    }
    total
}

/// Whether two texts hold the same characters.
pub fn same_text(a: &str, b: &str) -> (same: bool)
    ensures
        same == (a@ == b@),
{
    let x = to_chars(a);
    let y = to_chars(b);
    if x.len() != y.len() {
        return false;
    }
    let mut i: usize = 0;
    while i < x.len()
        invariant
            i <= x.len() == y.len(),
            x@ == a@,
            y@ == b@,
            forall|j: int| 0 <= j < i ==> x[j] == y[j],
        decreases x.len() - i,
    {
        if x[i] != y[i] {
            return false;
        }
        i = i + 1;
    }
    assert(x@ =~= y@);
    true
}

/// The character for a value below ten.
pub fn digit_of(d: u8) -> (c: char)
    requires
        d < 10,
    ensures
        c == digit_char(d as nat),
{
    (0x30 + d) as char
}

/// The decimal digits of `n`, most significant first, without leading
/// zeros.
pub fn decimal_digits(n: u64) -> (digits: Vec<char>)
    ensures
        digits@ == decimal(n as nat),
    decreases n,
{
    if n < 10 {
        let mut digits: Vec<char> = Vec::new();
        digits.push(digit_of(n as u8));
        assert(digits@ =~= decimal(n as nat));
        digits
    } else {
        let mut digits = decimal_digits(n / 10);
        digits.push(digit_of((n % 10) as u8));
        digits
    }
}

/// The decimal numeral of `n`.
pub fn format_decimal(n: u64) -> (text: String)
    ensures
        text@ == decimal(n as nat),
{
    let digits = decimal_digits(n);
    let text = from_chars(&digits, 0, digits.len());
    assert(digits@.subrange(0, digits.len() as int) =~= digits@);
    text
}

/// Position of the first `c` in `s`; the length of `s` where there is
/// none.
pub open spec fn first_index_of(s: Seq<char>, c: char) -> int
    decreases s.len(),
{
    if s.len() == 0 || s[0] == c {
        0
    } else {
        1 + first_index_of(s.drop_first(), c)
    }
}

/// `s` cut at every `c`; the separators themselves are left out. A text
/// without separator is one piece, the empty text included.
pub open spec fn split_on(s: Seq<char>, c: char) -> Seq<Seq<char>>
    decreases s.len(),
{
    let k = first_index_of(s, c);
    if 0 <= k < s.len() {
        seq![s.take(k)] + split_on(s.skip(k + 1), c)
    } else {
        seq![s]
    }
}

/// `s` begins with `prefix`.
pub open spec fn starts_with(s: Seq<char>, prefix: Seq<char>) -> bool {
    prefix.len() <= s.len() && s.take(prefix.len() as int) == prefix
}

/// The first `c` is where a run without `c` ends.
pub proof fn lemma_first_index_is(s: Seq<char>, c: char, k: int)
    requires
        0 <= k <= s.len(),
        forall|i: int| 0 <= i < k ==> s[i] != c,
        k < s.len() ==> s[k] == c,
    ensures
        first_index_of(s, c) == k,
    decreases s.len(),
{
    if k > 0 {
        let t = s.drop_first();
        assert(s[0] != c);
        assert forall|i: int| 0 <= i < k - 1 implies t[i] != c by {
            assert(t[i] == s[i + 1]);
        }
        if k - 1 < t.len() {
            assert(t[k - 1] == s[k]);
        }
        lemma_first_index_is(t, c, k - 1);
    }
}

/// Position of the first `c` at or behind `from`; the length of `v` where
/// there is none.
pub fn find_char(v: &Vec<char>, from: usize, c: char) -> (p: usize)
    requires
        from <= v.len(),
    ensures
        from <= p <= v.len(),
        p - from == first_index_of(v@.skip(from as int), c),
{
    let mut i: usize = from;
    while i < v.len() && v[i] != c
        invariant
            from <= i <= v.len(),
            forall|j: int| from <= j < i ==> v[j] != c,
        decreases v.len() - i,
    {
        i = i + 1;
    }
    proof {
        let rest = v@.skip(from as int);
        assert forall|j: int| 0 <= j < i - from implies rest[j] != c by {
            assert(rest[j] == v[j + from]);
        }
        if i < v.len() {
            assert(rest[i - from] == v[i as int]);
        }
        lemma_first_index_is(rest, c, i - from);
    }
    i
}

/// The characters `v[from..to]`.
pub fn slice_chars(v: &Vec<char>, from: usize, to: usize) -> (part: Vec<char>)
    requires
        from <= to <= v.len(),
    ensures
        part@ == v@.subrange(from as int, to as int),
{
    let mut part: Vec<char> = Vec::new();
    let mut i: usize = from;
    while i < to
        invariant
            from <= i <= to <= v.len(),
            part@ == v@.subrange(from as int, i as int),
        decreases to - i,
    {
        part.push(v[i]);
        i = i + 1;
        assert(part@ =~= v@.subrange(from as int, i as int));
    }
    part
}

/// `v` cut at every `c`.
pub fn split_chars(v: &Vec<char>, c: char) -> (parts: Vec<Vec<char>>)
    ensures
        parts.len() >= 1,
        parts.len() == split_on(v@, c).len(),
        forall|i: int| 0 <= i < parts.len() ==> (#[trigger] parts[i])@ == split_on(v@, c)[i],
{
    let n = v.len();
    let mut parts: Vec<Vec<char>> = Vec::new();
    let ghost mut done: Seq<Seq<char>> = Seq::empty();
    let mut start: usize = 0;
    assert(v@.skip(0) =~= v@);
    assert(done + split_on(v@, c) =~= split_on(v@, c));
    loop
        invariant
            start <= n == v.len(),
            parts.len() == done.len(),
            forall|i: int| 0 <= i < parts.len() ==> (#[trigger] parts[i])@ == done[i],
            split_on(v@, c) == done + split_on(v@.skip(start as int), c),
        decreases n - start,
    {
        let p = find_char(v, start, c);
        let ghost rest = v@.skip(start as int);
        let piece = slice_chars(v, start, p);
        assert(rest.take(p - start) =~= v@.subrange(start as int, p as int));
        if p >= n {
            assert(rest.take(p - start) =~= rest);
            assert(split_on(rest, c) =~= seq![rest]);
            parts.push(piece);
            proof {
                done = done.push(rest);
            }
            assert(split_on(v@, c) =~= done);
            return parts;
        }
        assert(rest.skip(p - start + 1) =~= v@.skip(p + 1));
        parts.push(piece);
        proof {
            assert(done + (seq![rest.take(p - start)] + split_on(v@.skip(p + 1), c)) =~= done.push(
                rest.take(p - start),
            ) + split_on(v@.skip(p + 1), c));
            done = done.push(rest.take(p - start));
        }
        start = p + 1;
    }
}

/// Whether `v` begins with `prefix`.
pub fn chars_start_with(v: &Vec<char>, from: usize, prefix: &Vec<char>) -> (b: bool)
    requires
        from <= v.len(),
    ensures
        b == starts_with(v@.skip(from as int), prefix@),
{
    if prefix.len() > v.len() - from {
        return false;
    }
    let ghost rest = v@.skip(from as int);
    let mut i: usize = 0;
    while i < prefix.len()
        invariant
            i <= prefix.len() <= v.len() - from,
            rest == v@.skip(from as int),
            forall|j: int| 0 <= j < i ==> rest[j] == prefix[j],
        decreases prefix.len() - i,
    {
        if v[from + i] != prefix[i] {
            assert(rest.take(prefix.len() as int)[i as int] == rest[i as int]);
            return false;
        }
        i = i + 1;
    }
    assert(rest.take(prefix.len() as int) =~= prefix@);
    true
}

/// The code of `c`, with an ASCII capital letter counted as its small
/// letter.
pub open spec fn ascii_lower_code(c: char) -> u32 {
    let u = c as u32;
    if 0x41 <= u <= 0x5A {
        (u + 0x20) as u32
    } else {
        u
    }
}

/// Two texts are equal but for the case of their ASCII letters.
pub open spec fn equal_ignoring_ascii_case(a: Seq<char>, b: Seq<char>) -> bool {
    a.len() == b.len() && forall|i: int|
        0 <= i < a.len() ==> ascii_lower_code(#[trigger] a[i]) == ascii_lower_code(b[i])
}

/// The code of `c`, with an ASCII capital letter counted as its small
/// letter.
pub fn lower_code(c: char) -> (u: u32)
    ensures
        u == ascii_lower_code(c),
{
    let u: u32 = c as u32;
    if 0x41 <= u && u <= 0x5A {
        u + 0x20
    } else {
        u
    }
}

/// Whether two texts are equal but for the case of their ASCII letters.
pub fn same_text_ignoring_ascii_case(a: &str, b: &str) -> (same: bool)
    ensures
        same == equal_ignoring_ascii_case(a@, b@),
{
    let x = to_chars(a);
    let y = to_chars(b);
    if x.len() != y.len() {
        return false;
    }
    let mut i: usize = 0;
    while i < x.len()
        invariant
            i <= x.len() == y.len(),
            x@ == a@,
            y@ == b@,
            forall|j: int| 0 <= j < i ==> ascii_lower_code(#[trigger] x[j]) == ascii_lower_code(y[j]),
        decreases x.len() - i,
    {
        if lower_code(x[i]) != lower_code(y[i]) {
            return false;
        }
        i = i + 1;
    }
    true
}

} // verus!
