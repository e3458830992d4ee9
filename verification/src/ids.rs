//! Fresh identifiers: random UUIDs from the `uuid` crate, and the ids and
//! tokens made from them.

use vstd::prelude::*;

verus! {

broadcast use vstd::string::group_string_axioms;

/// A lower-case hexadecimal digit.
pub open spec fn is_lower_hex(c: char) -> bool {
    ('0' <= c && c <= '9') || ('a' <= c && c <= 'f')
}

/// The text of a UUID: 32 lower-case hexadecimal digits in groups of 8, 4,
/// 4, 4 and 12, joined by hyphens.
pub open spec fn uuid_text(s: Seq<char>) -> bool {
    &&& s.len() == 36
    &&& forall|i: int|
        0 <= i < 36 ==> if i == 8 || i == 13 || i == 18 || i == 23 {
            s[i] == '-'
        } else {
            is_lower_hex(#[trigger] s[i])
        }
}

/// `uuid::Uuid::new_v4().to_string()`: a random UUID in its hyphenated
/// lower-case text form, with the version digit `4` and a variant digit
/// among `8`, `9`, `a` and `b` (`new_v4` masks those bits in); the other
/// digits are random.
#[verifier::external_body]
pub(crate) fn new_uuid_text() -> (res: String)
    ensures
        uuid_text(res@),
        res@[14] == '4',
        res@[19] == '8' || res@[19] == '9' || res@[19] == 'a' || res@[19] == 'b',
{
    uuid::Uuid::new_v4().to_string()
}

/// The text without its hyphens.
pub open spec fn without_hyphens(s: Seq<char>) -> Seq<char>
    decreases s.len(),
{
    if s.len() == 0 {
        s
    } else if s.last() == '-' {
        without_hyphens(s.drop_last())
    } else {
        without_hyphens(s.drop_last()).push(s.last())
    }
}

proof fn lemma_without_hyphens_len(s: Seq<char>, n: int)
    requires
        0 <= n <= s.len(),
        forall|i: int| 0 <= i < n ==> s[i] != '-',
    ensures
        without_hyphens(s.subrange(0, n)).len() == n,
    decreases n,
{
    if n > 0 {
        assert(s.subrange(0, n).drop_last() =~= s.subrange(0, n - 1));
        lemma_without_hyphens_len(s, n - 1);
    }
}

proof fn lemma_uuid_digits(s: Seq<char>, n: int)
    requires
        uuid_text(s),
        0 <= n <= 36,
    ensures
        without_hyphens(s.subrange(0, n)).len() == n - (if n > 23 {
            4int
        } else if n > 18 {
            3int
        } else if n > 13 {
            2int
        } else if n > 8 {
            1int
        } else {
            0int
        }),
    decreases n,
{
    if n > 0 {
        assert(s.subrange(0, n).drop_last() =~= s.subrange(0, n - 1));
        assert(s.subrange(0, n).last() == s[n - 1]);
        lemma_uuid_digits(s, n - 1);
        if !(n - 1 == 8 || n - 1 == 13 || n - 1 == 18 || n - 1 == 23) {
            assert(is_lower_hex(s[n - 1]));
        }
    }
}

/// `s.replace("-", "")`.
pub fn remove_hyphens(s: &str) -> (res: Vec<char>)
    ensures
        res@ == without_hyphens(s@),
{
    let c = crate::text::chars_of(s);
    let mut out: Vec<char> = Vec::new();
    let mut i: usize = 0;
    while i < c.len()
        invariant
            c@ == s@,
            i <= c@.len(),
            out@ == without_hyphens(c@.subrange(0, i as int)),
        decreases c@.len() - i,
    {
        assert(c@.subrange(0, i + 1).drop_last() =~= c@.subrange(0, i as int));
        if c[i] != '-' {
            out.push(c[i]);
        }
        i = i + 1;
    }
    assert(c@.subrange(0, c@.len() as int) =~= c@);
    out
}

/// The first sixteen hexadecimal digits of a UUID's text.
pub open spec fn token_from_uuid(u: Seq<char>) -> Seq<char> {
    without_hyphens(u).subrange(0, 16)
}

/// A fresh token: the first sixteen digits of a random UUID.
pub fn fresh_token() -> (res: String)
    ensures
        exists|u: Seq<char>| uuid_text(u) && res@ == #[trigger] token_from_uuid(u),
{
    let u = new_uuid_text();
    let digits = remove_hyphens(u.as_str());
    proof {
        lemma_uuid_digits(u@, 36);
        assert(u@.subrange(0, 36) =~= u@);
    }
    let mut out: Vec<char> = Vec::new();
    let mut i: usize = 0;
    while i < 16
        invariant
            digits@.len() == 32,
            i <= 16,
            out@ == digits@.subrange(0, i as int),
        decreases 16 - i,
    {
        out.push(digits[i]);
        i = i + 1;
        assert(out@ =~= digits@.subrange(0, i as int));
    }
    let res = crate::text::string_from_chars(out.as_slice());
    assert(res@ == token_from_uuid(u@));
    res
}

/// A lower-case ASCII letter in upper case; other characters unchanged.
pub open spec fn ascii_upper(c: char) -> char {
    if 'a' <= c && c <= 'z' {
        ((c as u32) - 32) as char
    } else {
        c
    }
}

fn upper_char(c: char) -> (res: char)
    ensures
        res == ascii_upper(c),
{
    if 'a' <= c && c <= 'z' {
        let n = (c as u32) - 32;
        let b = n as u8;
        assert(b as u32 == n);
        b as char
    } else {
        c
    }
}

/// A UUID's text in upper case.
pub open spec fn upper_id(u: Seq<char>) -> Seq<char> {
    u.map_values(|c: char| ascii_upper(c))
}

/// A fresh unique id: a random UUID's text in upper case.
pub fn fresh_unique_id() -> (res: String)
    ensures
        exists|u: Seq<char>| uuid_text(u) && res@ == #[trigger] upper_id(u),
{
    let u = new_uuid_text();
    let c = crate::text::chars_of(u.as_str());
    let mut out: Vec<char> = Vec::new();
    let mut i: usize = 0;
    while i < c.len()
        invariant
            i <= c@.len(),
            out@ == c@.subrange(0, i as int).map_values(|c: char| ascii_upper(c)),
        decreases c@.len() - i,
    {
        out.push(upper_char(c[i]));
        i = i + 1;
        assert(out@ =~= c@.subrange(0, i as int).map_values(|c: char| ascii_upper(c)));
    }
    assert(c@.subrange(0, c@.len() as int) =~= c@);
    let res = crate::text::string_from_chars(out.as_slice());
    assert(res@ == upper_id(u@));
    res
}

} // verus!
