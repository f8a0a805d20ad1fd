//! Text building and text taking apart, over sequences of characters.

use vstd::prelude::*;

verus! {

/// `str::eq`: two string slices are equal exactly when their characters are.
pub assume_specification[ <str as PartialEq>::eq ](a: &str, b: &str) -> (r: bool)
    ensures
        r == (a@ == b@),
;

/// `String::push`: the character goes to the end of the string.
pub assume_specification[ String::push ](s: &mut String, c: char)
    ensures
        final(s)@ == old(s)@.push(c),
;

/// `core::str::from_utf8`: the text that the bytes encode, or nothing where
/// they are not valid UTF-8.
#[verifier::external_body]
pub(crate) fn utf8_text(bytes: &[u8]) -> (s: Option<&str>)
    ensures
        s is Some == vstd::utf8::valid_utf8(bytes@),
        s is Some ==> s->0@ == vstd::utf8::decode_utf8(bytes@),
{
    core::str::from_utf8(bytes).ok()
}

pub fn same(a: &str, b: &str) -> (r: bool)
    ensures
        r == (a@ == b@),
{
    *a == *b
}

pub fn chars_of(s: &str) -> (v: Vec<char>)
    ensures
        v@ == s@,
{
    let mut v: Vec<char> = Vec::new();
    for c in it: s.chars()
        invariant
            it.seq() == s@,
            v@ == s@.take(it.index() as int),
    {
        v.push(c);
    }
    assert(s@.take(s@.len() as int) == s@);
    v
}

/// The characters from index `from` up to index `to`.
pub fn substring(chars: &[char], from: usize, to: usize) -> (s: String)
    requires
        from <= to <= chars@.len(),
    ensures
        s@ == chars@.subrange(from as int, to as int),
{
    let mut s = String::new();
    let mut i: usize = from;
    while i < to
        invariant
            from <= i <= to <= chars@.len(),
            s@ == chars@.subrange(from as int, i as int),
        decreases to - i,
    {
        s.push(chars[i]);
        i += 1;
        assert(chars@.subrange(from as int, i as int) == chars@.subrange(
            from as int,
            i - 1,
        ).push(chars@[i - 1]));
    }
    s
}

pub fn string_of(chars: &[char]) -> (s: String)
    ensures
        s@ == chars@,
{
    let s = substring(chars, 0, chars.len());
    assert(chars@.subrange(0, chars@.len() as int) == chars@);
    s
}

/// Both texts, one behind the other.
pub fn join(a: &str, b: &str) -> (s: String)
    ensures
        s@ == a@ + b@,
{
    let mut s = a.to_owned();
    s.append(b);
    s
}

/// The digit of a number below ten.
pub open spec fn digit(n: nat) -> char {
    (48 + n) as char
}

/// A number in decimal notation, without leading zeros.
pub open spec fn decimal(n: nat) -> Seq<char>
    decreases n,
{
    if n < 10 {
        seq![digit(n)]
    } else {
        decimal(n / 10).push(digit(n % 10))
    }
}

fn digit_char(n: u8) -> (c: char)
    requires
        n < 10,
    ensures
        c == digit(n as nat),
{
    (48 + n) as char
}

pub fn decimal_u64(n: u64) -> (s: String)
    ensures
        s@ == decimal(n as nat),
    decreases n,
{
    if n < 10 {
        let mut s = String::new();
        s.push(digit_char(n as u8));
        s
    } else {
        let mut s = decimal_u64(n / 10);
        s.push(digit_char((n % 10) as u8));
        s
    }
}

/// An integer in decimal notation, with a minus sign where it is negative.
pub open spec fn signed(n: int) -> Seq<char> {
    if n < 0 {
        seq!['-'] + decimal((-n) as nat)
    } else {
        decimal(n as nat)
    }
}

pub fn signed_i32(n: i32) -> (s: String)
    ensures
        s@ == signed(n as int),
{
    if n < 0 {
        let mut s = String::new();
        s.push('-');
        s.append(decimal_u64((-(n as i64)) as u64).as_str());
        assert(s@ =~= signed(n as int));
        s
    } else {
        decimal_u64(n as u64)
    }
}

/// A number in decimal notation with a comma before every group of three digits.
pub open spec fn grouped(n: nat) -> Seq<char>
    decreases n,
{
    if n < 1000 {
        decimal(n)
    } else {
        grouped(n / 1000) + seq![
            ',',
            digit(n / 100 % 10),
            digit(n / 10 % 10),
            digit(n % 10),
        ]
    }
}

pub fn with_commas(n: usize) -> (s: String)
    ensures
        s@ == grouped(n as nat),
    decreases n,
{
    if n < 1000 {
        decimal_u64(n as u64)
    } else {
        let mut s = with_commas(n / 1000);
        s.push(',');
        s.push(digit_char((n / 100 % 10) as u8));
        s.push(digit_char((n / 10 % 10) as u8));
        s.push(digit_char((n % 10) as u8));
        assert(s@ =~= grouped(n as nat));
        s
    }
}

pub open spec fn truth(b: bool) -> Seq<char> {
    if b {
        "true"@
    } else {
        "false"@
    }
}

pub fn truth_text(b: bool) -> (s: &'static str)
    ensures
        s@ == truth(b),
{
    if b {
        "true"
    } else {
        "false"
    }
}

/// `n` times the same character.
pub open spec fn repeated(c: char, n: nat) -> Seq<char> {
    Seq::new(n, |i: int| c)
}

/// Text moved to the right edge of a column that is `width` characters wide.
/// A longer text stays as it is.
pub open spec fn right_aligned(s: Seq<char>, width: nat) -> Seq<char> {
    if s.len() >= width {
        s
    } else {
        repeated(' ', (width - s.len()) as nat) + s
    }
}

/// Text at the left edge of a column that is `width` characters wide.
pub open spec fn left_aligned(s: Seq<char>, width: nat) -> Seq<char> {
    if s.len() >= width {
        s
    } else {
        s + repeated(' ', (width - s.len()) as nat)
    }
}

pub fn fill(c: char, n: usize) -> (s: String)
    ensures
        s@ == repeated(c, n as nat),
{
    let mut s = String::new();
    let mut i: usize = 0;
    while i < n
        invariant
            i <= n,
            s@ == repeated(c, i as nat),
        decreases n - i,
    {
        s.push(c);
        i += 1;
        assert(s@ == repeated(c, i as nat));
    }
    s
}

pub fn align_right(s: &str, width: usize) -> (r: String)
    ensures
        r@ == right_aligned(s@, width as nat),
{
    let len: usize = s.unicode_len();
    if len >= width {
        s.to_owned()
    } else {
        join(fill(' ', width - len).as_str(), s)
    }
}

pub fn align_left(s: &str, width: usize) -> (r: String)
    ensures
        r@ == left_aligned(s@, width as nat),
{
    let len: usize = s.unicode_len();
    if len >= width {
        s.to_owned()
    } else {
        join(s, fill(' ', width - len).as_str())
    }
}

/// `s` with every occurrence of `pattern` replaced, from left to right; text
/// that was put in is not looked at again.
pub open spec fn replaced(s: Seq<char>, pattern: Seq<char>, by: Seq<char>) -> Seq<char>
    decreases s.len(),
{
    if s.len() == 0 || pattern.len() == 0 {
        s
    } else if pattern.is_prefix_of(s) {
        by + replaced(s.skip(pattern.len() as int), pattern, by)
    } else {
        seq![s[0]] + replaced(s.skip(1), pattern, by)
    }
}

/// `pattern` stands at index `at` of `s`.
pub open spec fn found_at(s: Seq<char>, pattern: Seq<char>, at: int) -> bool {
    pattern.is_prefix_of(s.skip(at))
}

fn stands_at(s: &[char], pattern: &[char], at: usize) -> (r: bool)
    requires
        at <= s@.len(),
    ensures
        r == found_at(s@, pattern@, at as int),
{
    let ghost rest = s@.skip(at as int);
    let len: usize = s.len();
    if len - at < pattern.len() {
        return false;
    }
    let mut i: usize = 0;
    while i < pattern.len()
        invariant
            len == s@.len(),
            at <= s@.len(),
            rest == s@.skip(at as int),
            pattern@.len() <= rest.len(),
            i <= pattern@.len(),
            forall|j: int| 0 <= j < i ==> pattern@[j] == rest[j],
        decreases pattern@.len() - i,
    {
        if s[at + i] != pattern[i] {
            assert(rest[i as int] != pattern@[i as int]);
            assert(rest.subrange(0, pattern@.len() as int)[i as int] != pattern@[i as int]);
            return false;
        }
        i += 1;
    }
    assert(pattern@ =~= rest.subrange(0, pattern@.len() as int));
    true
}

pub fn replace_all(s: &str, pattern: &str, by: &str) -> (r: String)
    requires
        pattern@.len() > 0,
    ensures
        r@ == replaced(s@, pattern@, by@),
{
    let text: Vec<char> = chars_of(s);
    let pat: Vec<char> = chars_of(pattern);
    let mut r = String::new();
    let mut i: usize = 0;
    assert(s@.skip(0) =~= s@);
    assert(r@ + replaced(s@, pattern@, by@) =~= replaced(s@, pattern@, by@));
    while i < text.len()
        invariant
            text@ == s@,
            pat@ == pattern@,
            pattern@.len() > 0,
            i <= text.len(),
            r@ + replaced(s@.skip(i as int), pattern@, by@) == replaced(s@, pattern@, by@),
        decreases text.len() - i,
    {
        let ghost before = r@;
        let ghost rest = s@.skip(i as int);
        if stands_at(text.as_slice(), pat.as_slice(), i) {
            r.append(by);
            assert(rest.skip(pattern@.len() as int) =~= s@.skip(i + pattern@.len()));
            i += pat.len();
            assert(before + (by@ + replaced(s@.skip(i as int), pattern@, by@)) =~= r@ + replaced(
                s@.skip(i as int),
                pattern@,
                by@,
            ));
        } else {
            r.push(text[i]);
            assert(rest.skip(1) =~= s@.skip(i + 1));
            i += 1;
            assert(before + (seq![rest[0]] + replaced(s@.skip(i as int), pattern@, by@)) =~= r@
                + replaced(s@.skip(i as int), pattern@, by@));
        }
    }
    assert(s@.skip(i as int) =~= Seq::<char>::empty());
    assert(r@ + Seq::<char>::empty() =~= r@);
    r
}

/// Where the pattern does not occur, replacing leaves the text as it is.
pub proof fn replaced_without_occurrence(s: Seq<char>, pattern: Seq<char>, by: Seq<char>)
    requires
        forall|i: int| 0 <= i < s.len() ==> !#[trigger] found_at(s, pattern, i),
    ensures
        replaced(s, pattern, by) == s,
    decreases s.len(),
{
    if s.len() > 0 && pattern.len() > 0 {
        assert(!found_at(s, pattern, 0));
        assert(s.skip(0) =~= s);
        let rest = s.skip(1);
        assert forall|i: int| 0 <= i < rest.len() implies !#[trigger] found_at(
            rest,
            pattern,
            i,
        ) by {
            assert(rest.skip(i) =~= s.skip(i + 1));
            assert(!found_at(s, pattern, i + 1));
        }
        replaced_without_occurrence(rest, pattern, by);
        assert(seq![s[0]] + rest =~= s);
    }
}

/// A character with the property of white space.
pub open spec fn is_white(c: char) -> bool {
    let k = c as u32;
    9 <= k <= 13 || k == 32 || k == 0x85 || k == 0xA0 || k == 0x1680 || 0x2000 <= k <= 0x200A || k
        == 0x2028 || k == 0x2029 || k == 0x202F || k == 0x205F || k == 0x3000
}

pub fn white(c: char) -> (r: bool)
    ensures
        r == is_white(c),
{
    let k: u32 = c as u32;
    (9 <= k && k <= 13) || k == 32 || k == 0x85 || k == 0xA0 || k == 0x1680 || (0x2000 <= k && k
        <= 0x200A) || k == 0x2028 || k == 0x2029 || k == 0x202F || k == 0x205F || k == 0x3000
}

/// Without the white space at its beginning.
pub open spec fn trim_start(s: Seq<char>) -> Seq<char>
    decreases s.len(),
{
    if s.len() > 0 && is_white(s[0]) {
        trim_start(s.skip(1))
    } else {
        s
    }
}

/// Without the white space at its end.
pub open spec fn trim_end(s: Seq<char>) -> Seq<char>
    decreases s.len(),
{
    if s.len() > 0 && is_white(s.last()) {
        trim_end(s.drop_last())
    } else {
        s
    }
}

pub open spec fn trimmed(s: Seq<char>) -> Seq<char> {
    trim_end(trim_start(s))
}

pub fn trim(s: &str) -> (r: String)
    ensures
        r@ == trimmed(s@),
{
    let v: Vec<char> = chars_of(s);
    let mut a: usize = 0;
    assert(s@.skip(0) =~= s@);
    while a < v.len() && white(v[a])
        invariant
            v@ == s@,
            a <= v.len(),
            trim_start(s@) == trim_start(s@.skip(a as int)),
        decreases v.len() - a,
    {
        assert(s@.skip(a as int).skip(1) =~= s@.skip(a + 1));
        a += 1;
    }
    let ghost left = s@.skip(a as int);
    assert(trim_start(s@) == left);
    let mut b: usize = v.len();
    assert(left =~= s@.subrange(a as int, b as int));
    while b > a && white(v[b - 1])
        invariant
            v@ == s@,
            a <= b <= v.len(),
            trim_end(left) == trim_end(s@.subrange(a as int, b as int)),
        decreases b,
    {
        assert(s@.subrange(a as int, b as int).drop_last() =~= s@.subrange(a as int, b - 1));
        assert(s@.subrange(a as int, b as int).last() == s@[b - 1]);
        b -= 1;
    }
    proof {
        let mid = s@.subrange(a as int, b as int);
        if mid.len() > 0 {
            assert(mid.last() == s@[b - 1]);
        }
        assert(trim_end(mid) == mid);
    }
    substring(v.as_slice(), a, b)
}

/// The index of the first occurrence, or the length where there is none.
pub open spec fn first_index(s: Seq<char>, c: char) -> int
    decreases s.len(),
{
    if s.len() == 0 || s[0] == c {
        0
    } else {
        1 + first_index(s.skip(1), c)
    }
}

pub proof fn first_index_is_first(s: Seq<char>, c: char)
    ensures
        0 <= first_index(s, c) <= s.len(),
        first_index(s, c) < s.len() ==> s[first_index(s, c)] == c,
        forall|j: int| 0 <= j < first_index(s, c) ==> s[j] != c,
    decreases s.len(),
{
    if s.len() > 0 && s[0] != c {
        first_index_is_first(s.skip(1), c);
        assert forall|j: int| 0 <= j < first_index(s, c) implies s[j] != c by {
            if j > 0 {
                assert(s[j] == s.skip(1)[j - 1]);
            }
        }
    }
}

proof fn first_index_by_search(s: Seq<char>, c: char, i: int)
    requires
        0 <= i <= s.len(),
        forall|j: int| 0 <= j < i ==> s[j] != c,
        i == s.len() || s[i] == c,
    ensures
        first_index(s, c) == i,
{
    first_index_is_first(s, c);
}

pub fn find_first(s: &[char], c: char) -> (i: usize)
    ensures
        i == first_index(s@, c),
        i <= s@.len(),
        i < s@.len() ==> s@[i as int] == c,
{
    let mut i: usize = 0;
    while i < s.len() && s[i] != c
        invariant
            i <= s@.len(),
            forall|j: int| 0 <= j < i ==> s@[j] != c,
        decreases s@.len() - i,
    {
        i += 1;
    }
    proof {
        first_index_by_search(s@, c, i as int);
    }
    i
}

/// The parts between the occurrences of a separator.
pub open spec fn split_at_char(s: Seq<char>, c: char) -> Seq<Seq<char>>
    decreases s.len(),
    via split_at_char_decreases
{
    let i = first_index(s, c);
    if i == s.len() {
        seq![s]
    } else {
        seq![s.take(i)] + split_at_char(s.skip(i + 1), c)
    }
}

#[via_fn]
proof fn split_at_char_decreases(s: Seq<char>, c: char) {
    first_index_is_first(s, c);
}

/// A list of strings by their characters.
pub open spec fn texts(v: Seq<String>) -> Seq<Seq<char>> {
    Seq::new(v.len(), |i: int| v[i]@)
}

pub fn split(s: &str, c: char) -> (parts: Vec<String>)
    ensures
        texts(parts@) == split_at_char(s@, c),
{
    let v: Vec<char> = chars_of(s);
    let mut parts: Vec<String> = Vec::new();
    let mut start: usize = 0;
    let mut i: usize = 0;
    assert(s@.skip(0) =~= s@);
    assert(texts(parts@) + split_at_char(s@, c) =~= split_at_char(s@, c));
    while i < v.len()
        invariant
            v@ == s@,
            start <= i <= v.len(),
            forall|j: int| start <= j < i ==> s@[j] != c,
            texts(parts@) + split_at_char(s@.skip(start as int), c) == split_at_char(s@, c),
        decreases v.len() - i,
    {
        if v[i] == c {
            let part = substring(v.as_slice(), start, i);
            let ghost before = parts@;
            let ghost rest = s@.skip(start as int);
            proof {
                assert forall|j: int| 0 <= j < i - start implies rest[j] != c by {
                    assert(s@[start + j] != c);
                }
                first_index_by_search(rest, c, i - start);
                assert(rest.take(i - start) =~= part@);
                assert(rest.skip(i - start + 1) =~= s@.skip(i + 1));
            }
            parts.push(part);
            proof {
                assert(texts(parts@) =~= texts(before).push(part@));
                assert(texts(before) + (seq![part@] + split_at_char(s@.skip(i + 1), c)) =~= texts(
                    parts@,
                ) + split_at_char(s@.skip(i + 1), c));
            }
            start = i + 1;
        }
        i += 1;
    }
    let part = substring(v.as_slice(), start, i);
    let ghost before = parts@;
    proof {
        let rest = s@.skip(start as int);
        assert forall|j: int| 0 <= j < rest.len() implies rest[j] != c by {
            assert(s@[start + j] != c);
        }
        first_index_by_search(rest, c, rest.len() as int);
        assert(part@ =~= rest);
    }
    parts.push(part);
    assert(texts(parts@) =~= texts(before) + seq![part@]);
    parts
}

/// An upper-case ASCII letter as the lower-case one.
pub open spec fn lower(c: char) -> char {
    if 'A' <= c && c <= 'Z' {
        (c as u32 + 32) as char
    } else {
        c
    }
}

/// A lower-case ASCII letter as the upper-case one.
pub open spec fn upper(c: char) -> char {
    if 'a' <= c && c <= 'z' {
        (c as u32 - 32) as char
    } else {
        c
    }
}

pub open spec fn lowered(s: Seq<char>) -> Seq<char> {
    Seq::new(s.len(), |i: int| lower(s[i]))
}

pub open spec fn uppered(s: Seq<char>) -> Seq<char> {
    Seq::new(s.len(), |i: int| upper(s[i]))
}

fn lower_char(c: char) -> (r: char)
    ensures
        r == lower(c),
{
    let k: u32 = c as u32;
    if 65 <= k && k <= 90 {
        (k as u8 + 32) as char
    } else {
        c
    }
}

fn upper_char(c: char) -> (r: char)
    ensures
        r == upper(c),
{
    let k: u32 = c as u32;
    if 97 <= k && k <= 122 {
        (k as u8 - 32) as char
    } else {
        c
    }
}

/// With ASCII letters in upper case.
pub fn to_upper(s: &str) -> (r: String)
    ensures
        r@ == uppered(s@),
{
    let v: Vec<char> = chars_of(s);
    let mut r = String::new();
    let mut i: usize = 0;
    while i < v.len()
        invariant
            v@ == s@,
            i <= v.len(),
            r@ == uppered(s@.take(i as int)),
        decreases v.len() - i,
    {
        r.push(upper_char(v[i]));
        i += 1;
        assert(uppered(s@.take(i as int)) =~= uppered(s@.take(i - 1)).push(upper(s@[i - 1])));
    }
    assert(s@.take(i as int) =~= s@);
    r
}

/// With ASCII letters in lower case.
pub fn to_lower(s: &str) -> (r: String)
    ensures
        r@ == lowered(s@),
{
    let v: Vec<char> = chars_of(s);
    let mut r = String::new();
    let mut i: usize = 0;
    while i < v.len()
        invariant
            v@ == s@,
            i <= v.len(),
            r@ == lowered(s@.take(i as int)),
        decreases v.len() - i,
    {
        r.push(lower_char(v[i]));
        i += 1;
        assert(lowered(s@.take(i as int)) =~= lowered(s@.take(i - 1)).push(lower(s@[i - 1])));
    }
    assert(s@.take(i as int) =~= s@);
    r
}

/// Equal but for the case of ASCII letters.
pub fn same_ignoring_case(a: &str, b: &str) -> (r: bool)
    ensures
        r == (lowered(a@) == lowered(b@)),
{
    let x: Vec<char> = chars_of(a);
    let y: Vec<char> = chars_of(b);
    if x.len() != y.len() {
        assert(lowered(a@).len() != lowered(b@).len());
        return false;
    }
    let mut i: usize = 0;
    while i < x.len()
        invariant
            x@ == a@,
            y@ == b@,
            x.len() == y.len(),
            i <= x.len(),
            forall|j: int| 0 <= j < i ==> lowered(a@)[j] == lowered(b@)[j],
        decreases x.len() - i,
    {
        if lower_char(x[i]) != lower_char(y[i]) {
            assert(lowered(a@)[i as int] != lowered(b@)[i as int]);
            return false;
        }
        i += 1;
    }
    assert(lowered(a@) =~= lowered(b@));
    true
}

pub open spec fn is_digit(c: char) -> bool {
    '0' <= c && c <= '9'
}

pub open spec fn all_digits(s: Seq<char>) -> bool {
    forall|i: int| 0 <= i < s.len() ==> is_digit(#[trigger] s[i])
}

/// The number that decimal digits stand for.
pub open spec fn value_of_digits(s: Seq<char>) -> nat
    decreases s.len(),
{
    if s.len() == 0 {
        0
    } else {
        value_of_digits(s.drop_last()) * 10 + (s.last() as nat - 48) as nat
    }
}

/// The number that `s` stands for, at most `max`: digits, with an optional
/// plus sign before them.
pub open spec fn parsed(s: Seq<char>, max: nat) -> Option<nat> {
    let digits = if s.len() > 0 && s[0] == '+' {
        s.skip(1)
    } else {
        s
    };
    if digits.len() > 0 && all_digits(digits) && value_of_digits(digits) <= max {
        Some(value_of_digits(digits))
    } else {
        None
    }
}

proof fn more_digits_are_not_less(s: Seq<char>, i: int)
    requires
        all_digits(s),
        0 <= i <= s.len(),
    ensures
        value_of_digits(s.take(i)) <= value_of_digits(s),
    decreases s.len(),
{
    if i == s.len() {
        assert(s.take(i) =~= s);
    } else {
        assert forall|j: int| 0 <= j < s.drop_last().len() implies is_digit(
            #[trigger] s.drop_last()[j],
        ) by {
            assert(is_digit(s[j]));
        }
        more_digits_are_not_less(s.drop_last(), i);
        assert(s.drop_last().take(i) =~= s.take(i));
    }
}

/// Reads a decimal number of at most `max`.
pub fn parse(s: &str, max: u32) -> (r: Option<u32>)
    ensures
        r is Some == parsed(s@, max as nat) is Some,
        r is Some ==> r->0 == parsed(s@, max as nat)->0,
{
    let v: Vec<char> = chars_of(s);
    let from: usize = if v.len() > 0 && v[0] == '+' { 1 } else { 0 };
    let ghost digits = s@.skip(from as int);
    assert(s@.skip(0) =~= s@);
    if from == v.len() {
        return None;
    }
    let mut n: u64 = 0;
    let mut i: usize = from;
    assert(digits.take(0) =~= Seq::<char>::empty());
    while i < v.len()
        invariant
            v@ == s@,
            from <= i <= v.len(),
            digits == s@.skip(from as int),
            digits.len() > 0,
            parsed(s@, max as nat) == (if all_digits(digits) && value_of_digits(digits) <= max {
                Some(value_of_digits(digits))
            } else {
                None
            }),
            n <= max,
            n == value_of_digits(digits.take(i - from)),
            forall|j: int| 0 <= j < i - from ==> is_digit(#[trigger] digits[j]),
        decreases v.len() - i,
    {
        let c: char = v[i];
        let ghost k = i - from;
        assert(digits[k] == c);
        if c < '0' || c > '9' {
            assert(!is_digit(digits[k]));
            return None;
        }
        n = n * 10 + (c as u32 - 48) as u64;
        proof {
            assert(digits.take(k + 1).drop_last() =~= digits.take(k));
            assert(digits.take(k + 1).last() == c);
            if n > max && all_digits(digits) {
                more_digits_are_not_less(digits, k + 1);
            }
        }
        if n > max as u64 {
            return None;
        }
        i += 1;
    }
    assert(digits.take(digits.len() as int) =~= digits);
    Some(n as u32)
}

/// The number of characters before the first white space.
pub open spec fn word_len(s: Seq<char>) -> int
    decreases s.len(),
{
    if s.len() == 0 || is_white(s[0]) {
        0
    } else {
        1 + word_len(s.skip(1))
    }
}

pub proof fn word_len_is_short(s: Seq<char>)
    ensures
        0 <= word_len(s) <= s.len(),
        s.len() > 0 && !is_white(s[0]) ==> word_len(s) > 0,
    decreases s.len(),
{
    if s.len() > 0 && !is_white(s[0]) {
        word_len_is_short(s.skip(1));
    }
}

pub proof fn trim_start_is_short(s: Seq<char>)
    ensures
        trim_start(s).len() <= s.len(),
        trim_start(s).len() > 0 ==> !is_white(trim_start(s)[0]),
    decreases s.len(),
{
    if s.len() > 0 && is_white(s[0]) {
        trim_start_is_short(s.skip(1));
    }
}

/// The parts between stretches of white space.
pub open spec fn words_of(s: Seq<char>) -> Seq<Seq<char>>
    decreases s.len(),
    via words_of_decreases
{
    let t = trim_start(s);
    if t.len() == 0 {
        Seq::empty()
    } else {
        seq![t.take(word_len(t))] + words_of(t.skip(word_len(t)))
    }
}

#[via_fn]
proof fn words_of_decreases(s: Seq<char>) {
    trim_start_is_short(s);
    word_len_is_short(trim_start(s));
}

pub fn words(s: &str) -> (parts: Vec<String>)
    ensures
        texts(parts@) == words_of(s@),
{
    let v: Vec<char> = chars_of(s);
    let mut parts: Vec<String> = Vec::new();
    let mut i: usize = 0;
    assert(s@.skip(0) =~= s@);
    assert(texts(parts@) + words_of(s@) =~= words_of(s@));
    while i < v.len()
        invariant
            v@ == s@,
            i <= v.len(),
            texts(parts@) + words_of(s@.skip(i as int)) == words_of(s@),
        decreases v.len() - i,
    {
        let ghost rest = s@.skip(i as int);
        if white(v[i]) {
            assert(rest.skip(1) =~= s@.skip(i + 1));
            assert(trim_start(rest) == trim_start(s@.skip(i + 1)));
            i += 1;
        } else {
            let start: usize = i;
            assert(trim_start(rest) == rest);
            while i < v.len() && !white(v[i])
                invariant
                    v@ == s@,
                    start <= i <= v.len(),
                    rest == s@.skip(start as int),
                    word_len(rest) == (i - start) + word_len(s@.skip(i as int)),
                decreases v.len() - i,
            {
                assert(s@.skip(i as int).skip(1) =~= s@.skip(i + 1));
                i += 1;
            }
            let part = substring(v.as_slice(), start, i);
            let ghost before = parts@;
            proof {
                word_len_is_short(rest);
                assert(word_len(rest) == i - start);
                assert(rest.take(i - start) =~= part@);
                assert(rest.skip(i - start) =~= s@.skip(i as int));
            }
            parts.push(part);
            proof {
                assert(texts(parts@) =~= texts(before).push(part@));
                assert(texts(before) + (seq![part@] + words_of(s@.skip(i as int))) =~= texts(
                    parts@,
                ) + words_of(s@.skip(i as int)));
            }
        }
    }
    assert(s@.skip(i as int) =~= Seq::<char>::empty());
    assert(words_of(Seq::<char>::empty()) =~= Seq::<Seq<char>>::empty());
    assert(texts(parts@) + Seq::<Seq<char>>::empty() =~= texts(parts@));
    parts
}

/// A number that was written is read back, with or without a plus sign before
/// it, and refused where it is over the limit. It is written in the digits `0`
/// to `9`, and starts with a zero only where it is zero.
pub proof fn written_numbers_are_read_back(n: nat, max: nat)
    ensures
        n <= max ==> parsed(decimal(n), max) == Some(n),
        n <= max ==> parsed(seq!['+'] + decimal(n), max) == Some(n),
        n > max ==> parsed(decimal(n), max) is None,
        decimal(n).len() > 0,
        forall|i: int| 0 <= i < decimal(n).len() ==> '0' <= #[trigger] decimal(n)[i] <= '9',
        n > 0 ==> decimal(n)[0] != '0',
{
    decimal_has_its_value(n);
    assert((seq!['+'] + decimal(n)).skip(1) =~= decimal(n));
    assert(is_digit(decimal(n)[0]));
}

proof fn decimal_has_its_value(n: nat)
    ensures
        decimal(n).len() > 0,
        all_digits(decimal(n)),
        value_of_digits(decimal(n)) == n,
        n > 0 ==> decimal(n)[0] != '0',
    decreases n,
{
    if n < 10 {
        let s = decimal(n);
        assert(s.drop_last() =~= Seq::<char>::empty());
        assert(value_of_digits(s.drop_last()) == 0);
        assert(s.last() == digit(n));
    } else {
        decimal_has_its_value(n / 10);
        let s = decimal(n);
        assert(s.drop_last() =~= decimal(n / 10));
        assert(s.last() == digit(n % 10));
        assert(s[0] == decimal(n / 10)[0]);
        assert forall|i: int| 0 <= i < s.len() implies is_digit(#[trigger] s[i]) by {
            if i < s.len() - 1 {
                assert(is_digit(decimal(n / 10)[i]));
            }
        }
    }
}

/// What is read as a number is made of digits behind an optional plus sign,
/// and is not over the limit. One more digit makes ten times the number and
/// that digit.
pub proof fn only_numbers_are_read(s: Seq<char>, max: nat, d: nat)
    requires
        d <= 9,
    ensures
        parsed(s, max) is Some ==> parsed(s, max)->0 <= max && s.len() > 0,
        parsed(s, max) is Some ==> forall|i: int|
            1 <= i < s.len() ==> '0' <= #[trigger] s[i] <= '9',
        parsed(s, max) is Some ==> s[0] == '+' || '0' <= s[0] <= '9',
        parsed(s, max) is Some && 10 * parsed(s, max)->0 + d <= max ==> parsed(
            s.push((48 + d) as char),
            max,
        ) == Some(10 * parsed(s, max)->0 + d),
{
    if parsed(s, max) is Some {
        let from: int = if s[0] == '+' { 1 } else { 0 };
        let digits = s.skip(from);
        assert(s.skip(0) =~= s);
        assert forall|i: int| 1 <= i < s.len() implies '0' <= #[trigger] s[i] <= '9' by {
            assert(is_digit(digits[i - from]));
        }
        if s[0] != '+' {
            assert(is_digit(digits[0]));
        }
        let t = s.push((48 + d) as char);
        assert(t.skip(from) =~= digits.push((48 + d) as char));
        assert(t.skip(0) =~= t);
        let more = digits.push((48 + d) as char);
        assert(more.drop_last() =~= digits);
        assert forall|i: int| 0 <= i < more.len() implies is_digit(#[trigger] more[i]) by {
            if i < digits.len() {
                assert(is_digit(digits[i]));
            }
        }
    }
}

/// A negative number is written with a minus sign before its amount, another
/// without a sign.
pub proof fn signs_are_written(n: int)
    ensures
        n < 0 ==> signed(n)[0] == '-' && parsed(signed(n).skip(1), (-n) as nat) == Some(
            (-n) as nat,
        ),
        n >= 0 ==> parsed(signed(n), n as nat) == Some(n as nat),
{
    if n < 0 {
        written_numbers_are_read_back((-n) as nat, (-n) as nat);
        assert(signed(n).skip(1) =~= decimal((-n) as nat));
    } else {
        written_numbers_are_read_back(n as nat, n as nat);
    }
}

/// Without its commas a grouped number is the number, and the commas stand
/// where three digits, seven characters, eleven characters follow, and so on.
pub proof fn commas_only_group(n: nat)
    ensures
        grouped(n).filter(|c: char| c != ',') == decimal(n),
        forall|i: int|
            0 <= i < grouped(n).len() ==> (#[trigger] grouped(n)[i] == ',') == ((grouped(n).len() - i)
                % 4 == 0),
    decreases n,
{
    decimal_has_its_value(n);
    let keep = |c: char| c != ',';
    if n < 1000 {
        assert forall|i: int| 0 <= i < decimal(n).len() implies keep(#[trigger] decimal(n)[i]) by {
            assert(is_digit(decimal(n)[i]));
        }
        nothing_is_filtered(decimal(n), keep);
        reveal_with_fuel(decimal, 4);
        assert(decimal(n).len() <= 3);
        assert forall|i: int| 0 <= i < grouped(n).len() implies (#[trigger] grouped(n)[i] == ',')
            == ((grouped(n).len() - i) % 4 == 0) by {
            assert(is_digit(decimal(n)[i]));
        }
    } else {
        let m = n / 1000;
        commas_only_group(m);
        let tail = seq![',', digit(n / 100 % 10), digit(n / 10 % 10), digit(n % 10)];
        assert(tail.filter(keep) =~= seq![digit(n / 100 % 10), digit(n / 10 % 10), digit(n % 10)])
            by {
            reveal_with_fuel(Seq::filter, 5);
            assert(tail.drop_last() =~= seq![',', digit(n / 100 % 10), digit(n / 10 % 10)]);
            assert(tail.drop_last().drop_last() =~= seq![',', digit(n / 100 % 10)]);
            assert(tail.drop_last().drop_last().drop_last() =~= seq![',']);
            assert(tail.drop_last().drop_last().drop_last().drop_last() =~= Seq::<char>::empty());
        }
        Seq::filter_distributes_over_add(grouped(m), tail, keep);
        assert(n / 10 / 10 == n / 100 && n / 100 / 10 == m);
        assert(decimal(n) == decimal(n / 10).push(digit(n % 10)));
        assert(decimal(n / 10) == decimal(n / 100).push(digit(n / 10 % 10)));
        assert(decimal(n / 100) == decimal(m).push(digit(n / 100 % 10)));
        assert(grouped(n).filter(keep) =~= decimal(n));
        let g = grouped(n);
        let k = grouped(m).len();
        assert(g.len() == k + 4);
        assert forall|i: int| 0 <= i < g.len() implies (#[trigger] g[i] == ',') == ((g.len() - i) % 4
            == 0) by {
            if i < k {
                assert(g[i] == grouped(m)[i]);
            } else {
                assert(g[i] == tail[i - k]);
            }
        }
    }
}

proof fn nothing_is_filtered(s: Seq<char>, keep: spec_fn(char) -> bool)
    requires
        forall|i: int| 0 <= i < s.len() ==> keep(#[trigger] s[i]),
    ensures
        s.filter(keep) == s,
    decreases s.len(),
{
    reveal(Seq::filter);
    if s.len() > 0 {
        assert forall|i: int| 0 <= i < s.drop_last().len() implies keep(
            #[trigger] s.drop_last()[i],
        ) by {
            assert(keep(s[i]));
        }
        nothing_is_filtered(s.drop_last(), keep);
        assert(keep(s[s.len() - 1]));
        assert(s.drop_last().push(s.last()) =~= s);
    }
}

/// Text fills its column: blanks, and the text at its edge.
pub proof fn columns_are_filled(s: Seq<char>, width: nat)
    ensures
        right_aligned(s, width).len() == (if s.len() >= width { s.len() } else { width }),
        left_aligned(s, width).len() == (if s.len() >= width { s.len() } else { width }),
        right_aligned(s, width).skip(right_aligned(s, width).len() - s.len()) == s,
        left_aligned(s, width).take(s.len() as int) == s,
        forall|i: int|
            0 <= i < right_aligned(s, width).len() - s.len() ==> #[trigger] right_aligned(
                s,
                width,
            )[i] == ' ',
        forall|i: int|
            s.len() <= i < left_aligned(s, width).len() ==> #[trigger] left_aligned(s, width)[i]
                == ' ',
{
    assert(right_aligned(s, width).skip(right_aligned(s, width).len() - s.len()) =~= s);
    assert(left_aligned(s, width).take(s.len() as int) =~= s);
}

/// `A` to `Z` and `a` to `z` are each other's letters; every other character
/// stays what it is.
pub proof fn letters_change_their_case(s: Seq<char>, i: int, k: u32)
    requires
        0 <= i < s.len(),
        k < 26,
    ensures
        lowered(s).len() == s.len() && uppered(s).len() == s.len(),
        s[i] as u32 == 65 + k ==> lowered(s)[i] as u32 == 97 + k && uppered(s)[i] == s[i],
        s[i] as u32 == 97 + k ==> uppered(s)[i] as u32 == 65 + k && lowered(s)[i] == s[i],
        s[i] as u32 <= 64 || 91 <= s[i] as u32 <= 96 || 123 <= s[i] as u32 ==> lowered(s)[i] == s[i]
            && uppered(s)[i] == s[i],
{
}

/// Text is trimmed of the white space around it and of nothing else.
pub proof fn only_the_edges_are_trimmed(before: Seq<char>, s: Seq<char>, after: Seq<char>)
    requires
        forall|i: int| 0 <= i < before.len() ==> is_white(#[trigger] before[i]),
        forall|i: int| 0 <= i < after.len() ==> is_white(#[trigger] after[i]),
        s.len() > 0,
        !is_white(s[0]),
        !is_white(s.last()),
    ensures
        trimmed(before + s + after) == s,
    decreases before.len() + after.len(),
{
    let whole = before + s + after;
    if before.len() > 0 {
        assert(whole[0] == before[0]);
        assert(whole.skip(1) =~= before.skip(1) + s + after);
        only_the_edges_are_trimmed(before.skip(1), s, after);
    } else {
        assert(whole =~= s + after);
        assert(whole[0] == s[0]);
        assert(trim_start(whole) == whole);
        if after.len() > 0 {
            assert(whole.last() == after.last());
            assert(after.last() == after[after.len() - 1]);
            assert(whole.drop_last() =~= before + s + after.drop_last());
            only_the_edges_are_trimmed(before, s, after.drop_last());
            let shorter = before + s + after.drop_last();
            assert(shorter[0] == s[0]);
            assert(trim_start(shorter) == shorter);
        } else {
            assert(whole =~= s);
        }
    }
}

/// Blanks, tabs and line ends are white space; visible ASCII characters are
/// not.
pub proof fn white_space_is_not_visible(c: char)
    ensures
        is_white(' ') && is_white('\t') && is_white('\n') && is_white('\r'),
        33 <= c as u32 <= 126 ==> !is_white(c),
        is_white(c) ==> c as u32 <= 32 || c as u32 >= 0x85,
{
}

/// A text without the separator is one part; otherwise what stands before the
/// first separator is the first part, and the parts of what stands behind it
/// follow.
pub proof fn parts_stand_between_separators(first: Seq<char>, rest: Seq<char>, c: char)
    requires
        forall|i: int| 0 <= i < first.len() ==> #[trigger] first[i] != c,
    ensures
        split_at_char(first, c) == seq![first],
        split_at_char(first + seq![c] + rest, c) == seq![first] + split_at_char(rest, c),
{
    first_index_is_first(first, c);
    let whole = first + seq![c] + rest;
    first_index_is_first(whole, c);
    let f = first_index(whole, c);
    assert(whole[first.len() as int] == c);
    if f < first.len() {
        assert(whole[f] == first[f]);
    }
    assert(whole.take(first.len() as int) =~= first);
    assert(whole.skip(first.len() as int + 1) =~= rest);
}

/// Words are what stands between white space: blanks before a text change
/// nothing, and a text that starts with a word has that word first.
pub proof fn words_stand_between_blanks(blank: char, word: Seq<char>, rest: Seq<char>)
    requires
        is_white(blank),
        word.len() > 0,
        forall|i: int| 0 <= i < word.len() ==> !is_white(#[trigger] word[i]),
    ensures
        words_of(Seq::empty()) == Seq::<Seq<char>>::empty(),
        words_of(seq![blank] + rest) == words_of(rest),
        words_of(word) == seq![word],
        words_of(word + seq![blank] + rest) == seq![word] + words_of(rest),
{
    let spaced = seq![blank] + rest;
    assert(spaced[0] == blank);
    assert(spaced.skip(1) =~= rest);
    assert(trim_start(spaced) == trim_start(rest));
    assert(words_of(spaced) == words_of(rest));
    word_ends_at_white(word, Seq::empty());
    assert(word + Seq::<char>::empty() =~= word);
    assert(word[0] == word[0]);
    assert(trim_start(word) == word);
    assert(word.take(word.len() as int) =~= word);
    assert(word.skip(word.len() as int) =~= Seq::<char>::empty());
    assert(words_of(Seq::<char>::empty()) =~= Seq::<Seq<char>>::empty());
    assert(words_of(word) =~= seq![word]);
    let whole = word + seq![blank] + rest;
    assert(whole =~= word + spaced);
    word_ends_at_white(word, spaced);
    assert(whole[0] == word[0]);
    assert(trim_start(whole) == whole);
    assert(whole.take(word.len() as int) =~= word);
    assert(whole.skip(word.len() as int) =~= spaced);
}

proof fn word_ends_at_white(word: Seq<char>, rest: Seq<char>)
    requires
        forall|i: int| 0 <= i < word.len() ==> !is_white(#[trigger] word[i]),
        rest.len() == 0 || is_white(rest[0]),
    ensures
        word_len(word + rest) == word.len(),
    decreases word.len(),
{
    let whole = word + rest;
    if word.len() == 0 {
        assert(whole =~= rest);
    } else {
        assert(whole[0] == word[0]);
        assert(whole.skip(1) =~= word.skip(1) + rest);
        word_ends_at_white(word.skip(1), rest);
    }
}

/// The first occurrence of a pattern is replaced, what stands before it stays,
/// and replacing goes on behind it.
pub proof fn first_occurrence_is_replaced(
    before: Seq<char>,
    pattern: Seq<char>,
    after: Seq<char>,
    by: Seq<char>,
)
    requires
        pattern.len() > 0,
        forall|at: int|
            0 <= at < before.len() ==> !pattern.is_prefix_of(
                #[trigger] (before + pattern + after).skip(at),
            ),
    ensures
        replaced(before + pattern + after, pattern, by) == before + by + replaced(
            after,
            pattern,
            by,
        ),
    decreases before.len(),
{
    let whole = before + pattern + after;
    if before.len() == 0 {
        assert(whole =~= pattern + after);
        assert(whole.subrange(0, pattern.len() as int) =~= pattern);
        assert(whole.skip(pattern.len() as int) =~= after);
        assert(before + by =~= by);
    } else {
        assert(whole.skip(0) =~= whole);
        let shorter = before.skip(1) + pattern + after;
        assert(whole.skip(1) =~= shorter);
        assert forall|at: int| 0 <= at < before.skip(1).len() implies !pattern.is_prefix_of(
            #[trigger] shorter.skip(at),
        ) by {
            assert(shorter.skip(at) =~= whole.skip(at + 1));
        }
        first_occurrence_is_replaced(before.skip(1), pattern, after, by);
        assert(whole[0] == before[0]);
        assert(seq![before[0]] + (before.skip(1) + by + replaced(after, pattern, by)) =~= before
            + by + replaced(after, pattern, by));
    }
}

/// The words for yes and no.
pub proof fn truth_has_two_words(b: bool)
    ensures
        truth(true) == "true"@,
        truth(false) == "false"@,
        truth(b) == "true"@ <==> b,
{
    reveal_strlit("true");
    reveal_strlit("false");
    assert("true"@.len() == 4 && "false"@.len() == 5);
}

} // verus!
