//! Character-sequence helpers shared by the parsers: substring search,
//! Unicode whitespace, decimal numbers as Rust's `u32::from_str` reads them,
//! and splitting on a separator.

use vstd::prelude::*;

verus! {

broadcast use vstd::string::group_string_axioms;

/// Whether `p` occurs in `t` at index `i`.
pub open spec fn occurs_at(t: Seq<char>, p: Seq<char>, i: int) -> bool {
    0 <= i && i + p.len() <= t.len() && t.subrange(i, i + p.len()) == p
}

/// The first index at or after `i` where `p` occurs in `t`.
pub open spec fn find_from(t: Seq<char>, p: Seq<char>, i: int) -> Option<int>
    decreases t.len() + 1 - i,
{
    if i < 0 || i + p.len() > t.len() {
        None
    } else if occurs_at(t, p, i) {
        Some(i)
    } else {
        find_from(t, p, i + 1)
    }
}

/// Whether `p` occurs anywhere in `t` (as `str::contains` with a string pattern).
pub open spec fn contains_seq(t: Seq<char>, p: Seq<char>) -> bool {
    find_from(t, p, 0) is Some
}

/// Unicode `White_Space`, as `char::is_whitespace` documents it.
pub open spec fn is_whitespace(c: char) -> bool {
    let u = c as u32;
    (0x09 <= u && u <= 0x0D) || u == 0x20 || u == 0x85 || u == 0xA0 || u == 0x1680 || (0x2000
        <= u && u <= 0x200A) || u == 0x2028 || u == 0x2029 || u == 0x202F || u == 0x205F || u
        == 0x3000
}

pub open spec fn is_ascii_digit(c: char) -> bool {
    '0' <= c && c <= '9'
}

pub open spec fn digit_value(c: char) -> nat {
    (c as u32 - '0' as u32) as nat
}

/// The decimal value of a sequence of ASCII digits.
pub open spec fn decimal(s: Seq<char>) -> nat
    decreases s.len(),
{
    if s.len() == 0 {
        0
    } else {
        decimal(s.drop_last()) * 10 + digit_value(s.last())
    }
}

pub open spec fn all_digits(s: Seq<char>) -> bool {
    forall|i: int| 0 <= i < s.len() ==> is_ascii_digit(#[trigger] s[i])
}

/// A non-empty run of ASCII digits whose value fits in a `u32`.
pub open spec fn digits_u32(s: Seq<char>) -> Option<u32> {
    if s.len() > 0 && all_digits(s) && decimal(s) <= u32::MAX {
        Some(decimal(s) as u32)
    } else {
        None
    }
}

/// What `s.parse::<u32>()` gives: an optional `+`, then one or more ASCII
/// digits whose value fits in a `u32`.
pub open spec fn parse_u32(s: Seq<char>) -> Option<u32> {
    if s.len() > 0 && s[0] == '+' {
        digits_u32(s.drop_first())
    } else {
        digits_u32(s)
    }
}

/// The length of the run of whitespace at the start of `s`.
pub open spec fn whitespace_run(s: Seq<char>, i: int) -> int
    decreases s.len() - i,
{
    if i < 0 || i >= s.len() || !is_whitespace(s[i]) {
        i
    } else {
        whitespace_run(s, i + 1)
    }
}

/// The end of the run of ASCII digits that starts at `i`.
pub open spec fn digit_run(s: Seq<char>, i: int) -> int
    decreases s.len() - i,
{
    if i < 0 || i >= s.len() || !is_ascii_digit(s[i]) {
        i
    } else {
        digit_run(s, i + 1)
    }
}

/// `std::str::from_utf8`: `Some` exactly when the bytes are valid UTF-8, and
/// then the string's characters are those the bytes encode.
#[verifier::external_body]
pub(crate) fn str_from_utf8<'a>(b: &'a [u8]) -> (res: Option<&'a str>)
    ensures
        res is Some == vstd::utf8::valid_utf8(b@),
        res matches Some(s) ==> s@ == vstd::utf8::decode_utf8(b@),
{
    std::str::from_utf8(b).ok()
}

/// `String::from_utf8_lossy`: for valid UTF-8, the characters the bytes
/// encode. What it gives for invalid bytes (each invalid sequence replaced
/// by U+FFFD) is not stated.
#[verifier::external_body]
pub(crate) fn utf8_lossy(b: &[u8]) -> (res: String)
    ensures
        vstd::utf8::valid_utf8(b@) ==> res@ == vstd::utf8::decode_utf8(b@),
{
    String::from_utf8_lossy(b).into_owned()
}

/// The characters `str::to_lowercase` gives for `s` (the Unicode lower-case
/// mapping).
pub uninterp spec fn spec_to_lowercase(s: Seq<char>) -> Seq<char>;

/// Every character is ASCII.
pub open spec fn all_ascii(s: Seq<char>) -> bool {
    forall|i: int| 0 <= i < s.len() ==> ((#[trigger] s[i]) as u32) < 128
}

/// `A`..`Z` made `a`..`z`; every other character as it is.
pub open spec fn ascii_lower_char(c: char) -> char {
    if 'A' <= c && c <= 'Z' {
        ((c as u32) + 32) as char
    } else {
        c
    }
}

/// The ASCII lower-case form, character by character.
pub open spec fn ascii_lowercase(s: Seq<char>) -> Seq<char> {
    Seq::new(s.len(), |i: int| ascii_lower_char(s[i]))
}

/// `str::to_lowercase`: the string's lower-case form, which depends on the
/// characters alone. For an ASCII string that is the ASCII lower-case form
/// (Unicode maps each ASCII letter to its ASCII lower case and leaves the
/// other ASCII characters alone); beyond ASCII it is not stated.
#[verifier::external_body]
pub(crate) fn to_lowercase(s: &str) -> (res: String)
    ensures
        res@ == spec_to_lowercase(s@),
        all_ascii(s@) ==> res@ == ascii_lowercase(s@),
{
    s.to_lowercase()
}

/// `String: FromIterator<char>`: a string of exactly these characters.
#[verifier::external_body]
pub(crate) fn string_from_chars(v: &[char]) -> (res: String)
    ensures
        res@ == v@,
{
    v.iter().collect()
}

/// The characters of a string, in order.
pub fn chars_of(s: &str) -> (v: Vec<char>)
    ensures
        v@ == s@,
{
    let mut v: Vec<char> = Vec::new();
    for c in it: s.chars()
        invariant
            v@ == it.seq().take(it.index()),
            it.seq() == s@,
    {
        v.push(c);
    }
    v
}

/// Whether `p` occurs in `t` at `i`.
pub fn matches_at(t: &[char], p: &[char], i: usize) -> (res: bool)
    ensures
        res == occurs_at(t@, p@, i as int),
{
    if i > t.len() || p.len() > t.len() - i {
        return false;
    }
    let mut k: usize = 0;
    let tl = t.len();
    while k < p.len()
        invariant
            tl == t@.len(),
            i + p@.len() <= t@.len(),
            k <= p@.len(),
            forall|j: int| 0 <= j < k ==> t@[i + j] == p@[j],
        decreases p@.len() - k,
    {
        if t[i + k] != p[k] {
            assert(t@.subrange(i as int, i + p@.len())[k as int] != p@[k as int]);
            return false;
        }
        k = k + 1;
    }
    assert(t@.subrange(i as int, i + p@.len()) =~= p@);
    true
}

/// The first index at or after `start` where `p` occurs in `t`.
pub fn find_chars(t: &[char], p: &[char], start: usize) -> (res: Option<usize>)
    ensures
        match find_from(t@, p@, start as int) {
            Some(i) => res == Some(i as usize),
            None => res is None,
        },
        res matches Some(i) ==> occurs_at(t@, p@, i as int) && start <= i && find_from(
            t@,
            p@,
            start as int,
        ) == Some(i as int),
        res is None ==> find_from(t@, p@, start as int) is None,
{
    proof {
        lemma_find_from_occurs(t@, p@, start as int);
    }
    if p.len() == 0 {
        if start <= t.len() {
            assert(occurs_at(t@, p@, start as int)) by {
                assert(t@.subrange(start as int, start as int) =~= p@);
            }
            return Some(start);
        }
        return None;
    }
    let mut i = start;
    while i <= t.len() && p.len() <= t.len() - i
        invariant
            start <= i,
            p@.len() > 0,
            find_from(t@, p@, start as int) == find_from(t@, p@, i as int),
        decreases t@.len() + 1 - i,
    {
        if matches_at(t, p, i) {
            return Some(i);
        }
        i = i + 1;
    }
    None
}

/// Where `find_from` finds `p`, it occurs.
pub proof fn lemma_find_from_occurs(t: Seq<char>, p: Seq<char>, i: int)
    ensures
        find_from(t, p, i) matches Some(k) ==> occurs_at(t, p, k) && i <= k,
    decreases t.len() + 1 - i,
{
    if i >= 0 && i + p.len() <= t.len() && !occurs_at(t, p, i) {
        lemma_find_from_occurs(t, p, i + 1);
    }
}

/// Whether `p` occurs in `t`.
pub fn contains_chars(t: &[char], p: &[char]) -> (res: bool)
    ensures
        res == contains_seq(t@, p@),
{
    find_chars(t, p, 0).is_some()
}

/// Whether `c` is Unicode whitespace.
pub fn char_is_whitespace(c: char) -> (res: bool)
    ensures
        res == is_whitespace(c),
{
    let u = c as u32;
    (0x09 <= u && u <= 0x0D) || u == 0x20 || u == 0x85 || u == 0xA0 || u == 0x1680 || (0x2000
        <= u && u <= 0x200A) || u == 0x2028 || u == 0x2029 || u == 0x202F || u == 0x205F || u
        == 0x3000
}

/// The end of the whitespace run that starts at `i`.
pub fn skip_whitespace(t: &[char], i: usize) -> (res: usize)
    requires
        i <= t@.len(),
    ensures
        res as int == whitespace_run(t@, i as int),
        i <= res <= t@.len(),
{
    let mut k = i;
    while k < t.len() && char_is_whitespace(t[k])
        invariant
            i <= k <= t@.len(),
            whitespace_run(t@, i as int) == whitespace_run(t@, k as int),
        decreases t@.len() - k,
    {
        k = k + 1;
    }
    k
}

proof fn lemma_decimal_push(s: Seq<char>, c: char)
    ensures
        decimal(s.push(c)) == decimal(s) * 10 + digit_value(c),
{
    assert(s.push(c).drop_last() =~= s);
}

proof fn lemma_decimal_grows(s: Seq<char>, c: char)
    ensures
        decimal(s) <= decimal(s.push(c)),
{
    lemma_decimal_push(s, c);
}

proof fn lemma_decimal_prefix_le(s: Seq<char>, j: int)
    requires
        0 <= j <= s.len(),
    ensures
        decimal(s.subrange(0, j)) <= decimal(s),
    decreases s.len() - j,
{
    if j < s.len() {
        lemma_decimal_prefix_le(s, j + 1);
        assert(s.subrange(0, j + 1) =~= s.subrange(0, j).push(s[j]));
        lemma_decimal_grows(s.subrange(0, j), s[j]);
    } else {
        assert(s.subrange(0, j) =~= s);
    }
}

/// The value of the ASCII digits `t[i..j]` as a `u32`, `None` when the run is
/// empty or its value does not fit.
pub fn digits_to_u32(t: &[char], i: usize, j: usize) -> (res: Option<u32>)
    requires
        i <= j <= t@.len(),
        all_digits(t@.subrange(i as int, j as int)),
    ensures
        res == digits_u32(t@.subrange(i as int, j as int)),
{
    if i == j {
        return None;
    }
    let ghost s = t@.subrange(i as int, j as int);
    let mut value: u64 = 0;
    let mut k = i;
    while k < j
        invariant
            i <= k <= j <= t@.len(),
            s == t@.subrange(i as int, j as int),
            all_digits(s),
            value as nat == decimal(t@.subrange(i as int, k as int)),
            value <= u32::MAX,
        decreases j - k,
    {
        let c = t[k];
        assert(is_ascii_digit(s[k - i]));
        let d = (c as u32 - '0' as u32) as u64;
        proof {
            assert(t@.subrange(i as int, k + 1) =~= t@.subrange(i as int, k as int).push(c));
            lemma_decimal_push(t@.subrange(i as int, k as int), c);
        }
        value = value * 10 + d;
        k = k + 1;
        if value > u32::MAX as u64 {
            proof {
                assert(t@.subrange(i as int, k as int) =~= s.subrange(0, k - i));
                lemma_decimal_prefix_le(s, k - i);
            }
            return None;
        }
    }
    assert(t@.subrange(i as int, k as int) =~= s);
    Some(value as u32)
}

/// The end of the run of ASCII digits that starts at `i`.
pub fn scan_digits(t: &[char], i: usize) -> (res: usize)
    requires
        i <= t@.len(),
    ensures
        res as int == digit_run(t@, i as int),
        i <= res <= t@.len(),
        all_digits(t@.subrange(i as int, res as int)),
{
    let mut k = i;
    while k < t.len() && '0' <= t[k] && t[k] <= '9'
        invariant
            i <= k <= t@.len(),
            digit_run(t@, i as int) == digit_run(t@, k as int),
            all_digits(t@.subrange(i as int, k as int)),
        decreases t@.len() - k,
    {
        k = k + 1;
        assert forall|m: int| 0 <= m < t@.subrange(i as int, k as int).len() implies is_ascii_digit(
            #[trigger] t@.subrange(i as int, k as int)[m],
        ) by {
            if m < k - 1 - i {
                assert(t@.subrange(i as int, k as int)[m] == t@.subrange(i as int, k - 1)[m]);
            }
        }
    }
    k
}

/// What `s.parse::<u32>()` gives for the characters `t[i..j]`.
pub fn parse_u32_chars(t: &[char], i: usize, j: usize) -> (res: Option<u32>)
    requires
        i <= j <= t@.len(),
    ensures
        res == parse_u32(t@.subrange(i as int, j as int)),
{
    let mut start = i;
    if i < j && t[i] == '+' {
        start = i + 1;
        assert(t@.subrange(i as int, j as int).drop_first() =~= t@.subrange(start as int, j as int));
    }
    let end = scan_digits(t, start);
    if end < j {
        assert(!is_ascii_digit(t@.subrange(start as int, j as int)[end - start])) by {
            lemma_digit_run_stops(t@, start as int);
        }
        return None;
    }
    assert(t@.subrange(start as int, j as int) =~= t@.subrange(start as int, end as int).subrange(
        0,
        j - start,
    ));
    digits_to_u32(t, start, j)
}

proof fn lemma_digit_run_stops(s: Seq<char>, i: int)
    requires
        0 <= i <= s.len(),
    ensures
        i <= digit_run(s, i) <= s.len(),
        digit_run(s, i) < s.len() ==> !is_ascii_digit(s[digit_run(s, i)]),
    decreases s.len() - i,
{
    if i < s.len() && is_ascii_digit(s[i]) {
        lemma_digit_run_stops(s, i + 1);
    }
}

} // verus!

verus! {

/// Whether `s` starts with `p`.
pub open spec fn starts_with(s: Seq<char>, p: Seq<char>) -> bool {
    p.len() <= s.len() && s.subrange(0, p.len() as int) == p
}

/// Whether `s` starts with `p`.
pub fn starts_with_chars(s: &[char], p: &[char]) -> (res: bool)
    ensures
        res == starts_with(s@, p@),
{
    matches_at(s, p, 0)
}

/// The characters `a` followed by `b`.
pub fn concat_chars(a: &[char], b: &[char]) -> (res: Vec<char>)
    ensures
        res@ == a@ + b@,
{
    let mut v: Vec<char> = Vec::new();
    let mut i: usize = 0;
    while i < a.len()
        invariant
            i <= a@.len(),
            v@ == a@.subrange(0, i as int),
        decreases a@.len() - i,
    {
        v.push(a[i]);
        i = i + 1;
        assert(v@ =~= a@.subrange(0, i as int));
    }
    let mut j: usize = 0;
    while j < b.len()
        invariant
            j <= b@.len(),
            v@ == a@ + b@.subrange(0, j as int),
            a@.subrange(0, a@.len() as int) == a@,
        decreases b@.len() - j,
    {
        v.push(b[j]);
        j = j + 1;
        assert(v@ =~= a@ + b@.subrange(0, j as int));
    }
    assert(a@.subrange(0, a@.len() as int) =~= a@);
    assert(b@.subrange(0, b@.len() as int) =~= b@);
    v
}

/// Appends the characters of `b` to `v`.
pub fn push_all(v: &mut Vec<char>, b: &[char])
    ensures
        final(v)@ == old(v)@ + b@,
{
    let ghost start = v@;
    let mut j: usize = 0;
    while j < b.len()
        invariant
            j <= b@.len(),
            v@ == start + b@.subrange(0, j as int),
        decreases b@.len() - j,
    {
        v.push(b[j]);
        j = j + 1;
        assert(v@ =~= start + b@.subrange(0, j as int));
    }
    assert(b@.subrange(0, b@.len() as int) =~= b@);
}

/// The decimal digits of `n`, most significant first, without leading zeros
/// ("0" for zero), as `u64`'s `Display` writes them.
pub open spec fn decimal_chars(n: nat) -> Seq<char>
    decreases n,
{
    if n < 10 {
        seq![('0' as u32 + n) as char]
    } else {
        decimal_chars(n / 10) + seq![('0' as u32 + n % 10) as char]
    }
}

/// The decimal representation of `n`.
pub fn u64_decimal(n: u64) -> (res: Vec<char>)
    ensures
        res@ == decimal_chars(n as nat),
    decreases n,
{
    if n < 10 {
        let mut v = Vec::new();
        v.push(char_from_digit(n as u32));
        v
    } else {
        let mut v = u64_decimal(n / 10);
        v.push(char_from_digit((n % 10) as u32));
        v
    }
}

fn char_from_digit(d: u32) -> (c: char)
    requires
        d < 10,
    ensures
        c == ('0' as u32 + d) as char,
{
    if d == 0 {
        '0'
    } else if d == 1 {
        '1'
    } else if d == 2 {
        '2'
    } else if d == 3 {
        '3'
    } else if d == 4 {
        '4'
    } else if d == 5 {
        '5'
    } else if d == 6 {
        '6'
    } else if d == 7 {
        '7'
    } else if d == 8 {
        '8'
    } else {
        '9'
    }
}

/// The decimal representation of `n`, with a leading `-` when negative, as
/// `i64`'s `Display` writes it.
pub open spec fn signed_decimal_chars(n: int) -> Seq<char> {
    if n < 0 {
        seq!['-'] + decimal_chars((-n) as nat)
    } else {
        decimal_chars(n as nat)
    }
}

/// The decimal representation of a signed number.
pub fn i64_decimal(n: i64) -> (res: Vec<char>)
    ensures
        res@ == signed_decimal_chars(n as int),
{
    if n < 0 {
        let magnitude: u64 = if n == i64::MIN {
            9223372036854775808u64
        } else {
            (-n) as u64
        };
        let digits = u64_decimal(magnitude);
        let minus: [char; 1] = ['-'];
        let res = concat_chars(&minus, digits.as_slice());
        assert(minus@ =~= seq!['-']);
        res
    } else {
        u64_decimal(n as u64)
    }
}

/// `true` or `false`, as `bool`'s `Display` writes it.
pub open spec fn bool_chars(b: bool) -> Seq<char> {
    if b {
        seq!['t', 'r', 'u', 'e']
    } else {
        seq!['f', 'a', 'l', 's', 'e']
    }
}

/// The characters of `true` or `false`.
pub fn bool_text(b: bool) -> (res: Vec<char>)
    ensures
        res@ == bool_chars(b),
{
    let mut v = Vec::new();
    if b {
        v.push('t');
        v.push('r');
        v.push('u');
        v.push('e');
    } else {
        v.push('f');
        v.push('a');
        v.push('l');
        v.push('s');
        v.push('e');
    }
    assert(v@ =~= bool_chars(b));
    v
}

} // verus!

verus! {

/// What `s.parse::<u32>()` gives.
pub fn parse_u32_str(s: &str) -> (res: Option<u32>)
    ensures
        res == parse_u32(s@),
{
    let c = chars_of(s);
    assert(c@.subrange(0, c@.len() as int) =~= c@);
    parse_u32_chars(c.as_slice(), 0, c.len())
}

/// The code of `c` with ASCII upper-case letters mapped to lower case.
pub open spec fn ascii_lower_code(c: char) -> u32 {
    if 65 <= c as u32 <= 90 {
        (c as u32 + 32) as u32
    } else {
        c as u32
    }
}

/// `str::eq_ignore_ascii_case`: the same length, and the same characters
/// once ASCII letters are folded to lower case.
pub open spec fn eq_ignore_ascii_case(a: Seq<char>, b: Seq<char>) -> bool {
    a.len() == b.len() && forall|i: int|
        0 <= i < a.len() ==> ascii_lower_code(#[trigger] a[i]) == ascii_lower_code(b[i])
}

fn lower_code(c: char) -> (res: u32)
    ensures
        res == ascii_lower_code(c),
{
    let n = c as u32;
    if 65 <= n && n <= 90 {
        n + 32
    } else {
        n
    }
}

/// Whether two strings are equal once ASCII letters are folded to lower
/// case.
pub fn str_eq_ignore_ascii_case(a: &str, b: &str) -> (res: bool)
    ensures
        res == eq_ignore_ascii_case(a@, b@),
{
    let x = chars_of(a);
    let y = chars_of(b);
    if x.len() != y.len() {
        return false;
    }
    let mut i: usize = 0;
    while i < x.len()
        invariant
            x@ == a@,
            y@ == b@,
            x@.len() == y@.len(),
            i <= x@.len(),
            forall|k: int| 0 <= k < i ==> ascii_lower_code(#[trigger] x@[k]) == ascii_lower_code(
                y@[k],
            ),
        decreases x@.len() - i,
    {
        if lower_code(x[i]) != lower_code(y[i]) {
            return false;
        }
        i = i + 1;
    }
    true
}

/// Whether two strings hold the same characters.
pub fn str_eq(a: &str, b: &str) -> (res: bool)
    ensures
        res == (a@ == b@),
{
    let x = chars_of(a);
    let y = chars_of(b);
    if x.len() != y.len() {
        return false;
    }
    let mut i: usize = 0;
    while i < x.len()
        invariant
            x@ == a@,
            y@ == b@,
            x@.len() == y@.len(),
            i <= x@.len(),
            forall|k: int| 0 <= k < i ==> x@[k] == y@[k],
        decreases x@.len() - i,
    {
        if x[i] != y[i] {
            return false;
        }
        i = i + 1;
    }
    assert(x@ =~= y@);
    true
}

} // verus!

verus! {

/// The end of `s[..j]` once trailing whitespace is dropped.
pub open spec fn trailing_run(s: Seq<char>, j: int) -> int
    decreases j,
{
    if j <= 0 || j > s.len() || !is_whitespace(s[j - 1]) {
        j
    } else {
        trailing_run(s, j - 1)
    }
}

/// `str::trim_end`: `s` without its trailing whitespace.
pub open spec fn trim_end(s: Seq<char>) -> Seq<char> {
    s.subrange(0, trailing_run(s, s.len() as int))
}

/// `s.trim_end()`.
pub fn trim_end_str(s: &str) -> (res: String)
    ensures
        res@ == trim_end(s@),
{
    let c = chars_of(s);
    let mut j = c.len();
    while j > 0 && char_is_whitespace(c[j - 1])
        invariant
            j <= c@.len(),
            trailing_run(c@, j as int) == trailing_run(c@, c@.len() as int),
        decreases j,
    {
        j = j - 1;
    }
    let mut out: Vec<char> = Vec::new();
    let mut k: usize = 0;
    while k < j
        invariant
            k <= j <= c@.len(),
            out@ == c@.subrange(0, k as int),
        decreases j - k,
    {
        out.push(c[k]);
        k = k + 1;
        assert(out@ =~= c@.subrange(0, k as int));
    }
    string_from_chars(out.as_slice())
}

/// `str::trim`: `s` without its leading and trailing whitespace.
pub open spec fn trim(s: Seq<char>) -> Seq<char> {
    let a = whitespace_run(s, 0);
    if a >= s.len() {
        Seq::empty()
    } else {
        s.subrange(a, trailing_run(s, s.len() as int))
    }
}

/// Whether `s` holds nothing but whitespace.
pub open spec fn blank(s: Seq<char>) -> bool {
    forall|i: int| 0 <= i < s.len() ==> is_whitespace(#[trigger] s[i])
}

proof fn lemma_whitespace_run(s: Seq<char>, i: int)
    requires
        0 <= i <= s.len(),
    ensures
        i <= whitespace_run(s, i) <= s.len(),
        forall|k: int| i <= k < whitespace_run(s, i) ==> is_whitespace(#[trigger] s[k]),
        whitespace_run(s, i) < s.len() ==> !is_whitespace(s[whitespace_run(s, i)]),
    decreases s.len() - i,
{
    if i < s.len() && is_whitespace(s[i]) {
        lemma_whitespace_run(s, i + 1);
    }
}

proof fn lemma_trailing_run(s: Seq<char>, j: int, a: int)
    requires
        0 <= a < j <= s.len(),
        !is_whitespace(s[a]),
    ensures
        a < trailing_run(s, j) <= j,
        forall|k: int| trailing_run(s, j) <= k < j ==> is_whitespace(#[trigger] s[k]),
        !is_whitespace(s[trailing_run(s, j) - 1]),
    decreases j,
{
    if is_whitespace(s[j - 1]) {
        lemma_trailing_run(s, j - 1, a);
    }
}

/// `str::trim().is_empty()`: whether `s` holds nothing but whitespace.
pub proof fn lemma_trim_empty(s: Seq<char>)
    ensures
        (trim(s).len() == 0) == blank(s),
{
    lemma_whitespace_run(s, 0);
    let a = whitespace_run(s, 0);
    if a < s.len() {
        lemma_trailing_run(s, s.len() as int, a);
    }
}

/// `s.trim()`.
pub fn trim_str(s: &str) -> (res: String)
    ensures
        res@ == trim(s@),
{
    let c = chars_of(s);
    let a = skip_whitespace(c.as_slice(), 0);
    proof {
        lemma_whitespace_run(c@, 0);
    }
    if a >= c.len() {
        return String::new();
    }
    let mut j = c.len();
    while j > 0 && char_is_whitespace(c[j - 1])
        invariant
            j <= c@.len(),
            a < c@.len(),
            !is_whitespace(c@[a as int]),
            trailing_run(c@, j as int) == trailing_run(c@, c@.len() as int),
        decreases j,
    {
        j = j - 1;
    }
    proof {
        lemma_trailing_run(c@, c@.len() as int, a as int);
    }
    let mut out: Vec<char> = Vec::new();
    let mut k = a;
    while k < j
        invariant
            a <= k <= j <= c@.len(),
            out@ == c@.subrange(a as int, k as int),
        decreases j - k,
    {
        out.push(c[k]);
        k = k + 1;
        assert(out@ =~= c@.subrange(a as int, k as int));
    }
    string_from_chars(out.as_slice())
}

/// Whether `s` holds nothing but whitespace (`s.trim().is_empty()`).
pub fn is_blank(s: &str) -> (res: bool)
    ensures
        res == blank(s@),
        res == (trim(s@).len() == 0),
{
    proof {
        lemma_trim_empty(s@);
    }
    let c = chars_of(s);
    let mut i: usize = 0;
    while i < c.len()
        invariant
            c@ == s@,
            (trim(s@).len() == 0) == blank(s@),
            i <= c@.len(),
            forall|k: int| 0 <= k < i ==> is_whitespace(#[trigger] c@[k]),
        decreases c@.len() - i,
    {
        if !char_is_whitespace(c[i]) {
            return false;
        }
        i = i + 1;
    }
    true
}

} // verus!

verus! {

/// `s.replace(from, to)`: every occurrence of `from`, left to right and not
/// overlapping, becomes `to`.
pub open spec fn replace_all(s: Seq<char>, from: Seq<char>, to: Seq<char>) -> Seq<char>
    decreases s.len(),
{
    if from.len() > 0 && s.len() >= from.len() && s.subrange(0, from.len() as int) == from {
        to + replace_all(s.subrange(from.len() as int, s.len() as int), from, to)
    } else if s.len() == 0 {
        s
    } else {
        seq![s[0]] + replace_all(s.drop_first(), from, to)
    }
}

/// `s.replace(from, to)` for a pattern that is not empty.
pub fn replace_str(s: &str, from: &str, to: &str) -> (res: String)
    requires
        from@.len() > 0,
    ensures
        res@ == replace_all(s@, from@, to@),
{
    let c = chars_of(s);
    let f = chars_of(from);
    let t = chars_of(to);
    let mut out: Vec<char> = Vec::new();
    let mut i: usize = 0;
    assert(c@.subrange(0, c@.len() as int) =~= c@);
    assert(out@ + c@ =~= c@);
    while i < c.len()
        invariant
            c@ == s@,
            f@ == from@,
            t@ == to@,
            f@.len() > 0,
            i <= c@.len(),
            out@ + replace_all(c@.subrange(i as int, c@.len() as int), f@, t@) == replace_all(
                c@,
                f@,
                t@,
            ),
        decreases c@.len() - i,
    {
        let ghost rest = c@.subrange(i as int, c@.len() as int);
        if matches_at(c.as_slice(), f.as_slice(), i) {
            assert(rest.subrange(0, f@.len() as int) =~= c@.subrange(i as int, i + f@.len()));
            assert(rest.subrange(f@.len() as int, rest.len() as int) =~= c@.subrange(
                i + f@.len(),
                c@.len() as int,
            ));
            let ghost before = out@;
            push_all(&mut out, t.as_slice());
            proof {
                assert(before + (t@ + replace_all(
                    c@.subrange(i + f@.len(), c@.len() as int),
                    f@,
                    t@,
                )) =~= out@ + replace_all(c@.subrange(i + f@.len(), c@.len() as int), f@, t@));
            }
            i = i + f.len();
        } else {
            assert(!(rest.len() >= f@.len() && rest.subrange(0, f@.len() as int) == f@)) by {
                if rest.len() >= f@.len() && rest.subrange(0, f@.len() as int) == f@ {
                    assert(c@.subrange(i as int, i + f@.len()) =~= rest.subrange(
                        0,
                        f@.len() as int,
                    ));
                }
            }
            assert(rest.drop_first() =~= c@.subrange(i + 1, c@.len() as int));
            let ghost before = out@;
            out.push(c[i]);
            proof {
                assert(before + (seq![c@[i as int]] + replace_all(rest.drop_first(), f@, t@))
                    =~= out@ + replace_all(c@.subrange(i + 1, c@.len() as int), f@, t@));
            }
            i = i + 1;
        }
    }
    assert(c@.subrange(i as int, c@.len() as int) =~= Seq::<char>::empty());
    assert(out@ + Seq::<char>::empty() =~= out@);
    string_from_chars(out.as_slice())
}

} // verus!
