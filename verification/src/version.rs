//! Release-version comparison for the update checks of the agent and the
//! clients: dotted versions, an optional leading `v`, parts read as `u32`
//! (a part that does not read as a number counts as 0, missing parts too).

use crate::text::{chars_of, parse_u32, parse_u32_chars};
use vstd::prelude::*;

verus! {

/// The first index at or after `i` where `c` occurs.
pub open spec fn index_of_from(s: Seq<char>, c: char, i: int) -> Option<int>
    decreases s.len() - i,
{
    if i < 0 || i >= s.len() {
        None
    } else if s[i] == c {
        Some(i)
    } else {
        index_of_from(s, c, i + 1)
    }
}

/// `s` split on every `sep`, as `str::split` with a character gives it
/// (always at least one piece).
pub open spec fn split_on(s: Seq<char>, sep: char) -> Seq<Seq<char>>
    decreases s.len(),
{
    match index_of_from(s, sep, 0) {
        None => seq![s],
        Some(i) => {
            proof {
                lemma_index_of_from_bounds(s, sep, 0);
            }
            seq![s.subrange(0, i)] + split_on(s.subrange(i + 1, s.len() as int), sep)
        },
    }
}

pub proof fn lemma_index_of_from_bounds(s: Seq<char>, c: char, i: int)
    ensures
        index_of_from(s, c, i) matches Some(k) ==> i <= k < s.len() && s[k] == c,
    decreases s.len() - i,
{
    if i >= 0 && i < s.len() && s[i] != c {
        lemma_index_of_from_bounds(s, c, i + 1);
    }
}

proof fn lemma_index_of_shift(s: Seq<char>, c: char, start: int, i: int)
    requires
        0 <= start <= i <= s.len(),
        forall|k: int| start <= k < i ==> s[k] != c,
    ensures
        index_of_from(s.subrange(start, s.len() as int), c, 0) == match index_of_from(s, c, i) {
            Some(k) => Some(k - start),
            None => None,
        },
    decreases i - start,
{
    let t = s.subrange(start, s.len() as int);
    lemma_index_of_shift_gen(s, c, start, 0);
    lemma_index_skip(s, c, start, i);
}

proof fn lemma_index_of_shift_gen(s: Seq<char>, c: char, start: int, j: int)
    requires
        0 <= start <= s.len(),
        0 <= j,
    ensures
        index_of_from(s.subrange(start, s.len() as int), c, j) == match index_of_from(
            s,
            c,
            start + j,
        ) {
            Some(k) => Some(k - start),
            None => None,
        },
    decreases s.len() - start - j,
{
    if start + j < s.len() && s[start + j] != c {
        lemma_index_of_shift_gen(s, c, start, j + 1);
    }
}

proof fn lemma_index_skip(s: Seq<char>, c: char, start: int, i: int)
    requires
        0 <= start <= i <= s.len(),
        forall|k: int| start <= k < i ==> s[k] != c,
    ensures
        index_of_from(s, c, start) == index_of_from(s, c, i),
    decreases i - start,
{
    if start < i {
        lemma_index_skip(s, c, start + 1, i);
    }
}

/// `s` with every leading `c` removed (`trim_start_matches`).
pub open spec fn trim_start_char(s: Seq<char>, c: char) -> Seq<char>
    decreases s.len(),
{
    if s.len() > 0 && s[0] == c {
        trim_start_char(s.drop_first(), c)
    } else {
        s
    }
}

/// Part `i` of a split version as a number: 0 when missing or not a number.
pub open spec fn version_part(parts: Seq<Seq<char>>, i: int) -> u32 {
    if 0 <= i < parts.len() {
        match parse_u32(parts[i]) {
            Some(v) => v,
            None => 0,
        }
    } else {
        0
    }
}

/// Whether `latest` is ahead of `current` from part `i` on: the first part
/// where they differ decides.
pub open spec fn ahead_from(latest: Seq<Seq<char>>, current: Seq<Seq<char>>, i: int) -> bool
    decreases (if latest.len() > current.len() { latest.len() } else { current.len() }) - i,
{
    if i < 0 || (i >= latest.len() && i >= current.len()) {
        false
    } else if version_part(latest, i) > version_part(current, i) {
        true
    } else if version_part(current, i) > version_part(latest, i) {
        false
    } else {
        ahead_from(latest, current, i + 1)
    }
}

/// Whether dotted version `latest` is newer than `current`.
pub open spec fn spec_version_newer(latest: Seq<char>, current: Seq<char>) -> bool {
    ahead_from(split_on(latest, '.'), split_on(current, '.'), 0)
}

/// The pieces of `s` between the occurrences of `sep`.
pub fn split_chars(s: &[char], sep: char) -> (res: Vec<Vec<char>>)
    ensures
        res@.len() == split_on(s@, sep).len(),
        forall|k: int| 0 <= k < res@.len() ==> #[trigger] res@[k]@ == split_on(s@, sep)[k],
{
    let mut parts: Vec<Vec<char>> = Vec::new();
    let mut piece: Vec<char> = Vec::new();
    let mut start: usize = 0;
    let mut i: usize = 0;
    let ghost whole = split_on(s@, sep);
    assert(s@.subrange(0, s@.len() as int) =~= s@);
    while i < s.len()
        invariant
            start <= i <= s@.len(),
            piece@ == s@.subrange(start as int, i as int),
            forall|k: int| start <= k < i ==> s@[k] != sep,
            parts@.len() + split_on(s@.subrange(start as int, s@.len() as int), sep).len() == whole.len(),
            forall|k: int| 0 <= k < parts@.len() ==> #[trigger] parts@[k]@ == whole[k],
            forall|k: int|
                0 <= k < split_on(s@.subrange(start as int, s@.len() as int), sep).len()
                    ==> #[trigger] split_on(s@.subrange(start as int, s@.len() as int), sep)[k]
                    == whole[parts@.len() + k],
        decreases s@.len() - i,
    {
        let c = s[i];
        if c == sep {
            let ghost t = s@.subrange(start as int, s@.len() as int);
            proof {
                lemma_index_of_shift(s@, sep, start as int, i as int);
                assert(index_of_from(t, sep, 0) == Some(i - start));
                assert(t.subrange(0, i - start) =~= piece@);
                assert(t.subrange(i - start + 1, t.len() as int) =~= s@.subrange(
                    i + 1,
                    s@.len() as int,
                ));
                assert(split_on(t, sep) == seq![piece@] + split_on(
                    s@.subrange(i + 1, s@.len() as int),
                    sep,
                ));
            }
            let ghost old_parts = parts@;
            let ghost rest_split = split_on(s@.subrange(i + 1, s@.len() as int), sep);
            assert(split_on(t, sep)[0] == whole[old_parts.len() as int + 0]);
            let done = piece;
            parts.push(done);
            piece = Vec::new();
            start = i + 1;
            i = i + 1;
            assert(piece@ =~= s@.subrange(start as int, i as int));
            assert forall|k: int| 0 <= k < parts@.len() implies #[trigger] parts@[k]@ == whole[k] by {
                if k < old_parts.len() {
                    assert(parts@[k] == old_parts[k]);
                }
            }
            assert forall|k: int| 0 <= k < rest_split.len() implies #[trigger] rest_split[k]
                == whole[parts@.len() + k] by {
                assert(rest_split[k] == split_on(t, sep)[k + 1]);
            }
        } else {
            piece.push(c);
            i = i + 1;
            assert(piece@ =~= s@.subrange(start as int, i as int));
        }
    }
    proof {
        let t = s@.subrange(start as int, s@.len() as int);
        lemma_index_of_shift(s@, sep, start as int, i as int);
        assert(index_of_from(s@, sep, i as int) is None);
        assert(split_on(t, sep) == seq![t]);
        assert(piece@ =~= t);
        assert(split_on(t, sep)[0] == whole[parts@.len() as int + 0]);
    }
    let ghost old_parts = parts@;
    parts.push(piece);
    assert forall|k: int| 0 <= k < parts@.len() implies #[trigger] parts@[k]@ == split_on(s@, sep)[k] by {
        if k < old_parts.len() {
            assert(parts@[k] == old_parts[k]);
        }
    }
    parts
}

/// `s` with every leading `c` removed.
pub fn trim_start_chars(s: &[char], c: char) -> (res: usize)
    ensures
        res <= s@.len(),
        s@.subrange(res as int, s@.len() as int) == trim_start_char(s@, c),
{
    let mut i: usize = 0;
    assert(s@.subrange(0, s@.len() as int) =~= s@);
    while i < s.len() && s[i] == c
        invariant
            i <= s@.len(),
            trim_start_char(s@, c) == trim_start_char(s@.subrange(i as int, s@.len() as int), c),
        decreases s@.len() - i,
    {
        assert(s@.subrange(i as int, s@.len() as int).drop_first() =~= s@.subrange(
            i + 1,
            s@.len() as int,
        ));
        i = i + 1;
    }
    i
}

fn part_value(parts: &Vec<Vec<char>>, i: usize) -> (res: u32)
    ensures
        res == version_part(parts@.map_values(|v: Vec<char>| v@), i as int),
{
    let ghost views = parts@.map_values(|v: Vec<char>| v@);
    if i < parts.len() {
        let p = &parts[i];
        assert(p@.subrange(0, p@.len() as int) =~= p@);
        match parse_u32_chars(p.as_slice(), 0, p.len()) {
            Some(v) => v,
            None => 0,
        }
    } else {
        0
    }
}

fn ahead(latest: &Vec<Vec<char>>, current: &Vec<Vec<char>>) -> (res: bool)
    ensures
        res == ahead_from(
            latest@.map_values(|v: Vec<char>| v@),
            current@.map_values(|v: Vec<char>| v@),
            0,
        ),
{
    let ghost lv = latest@.map_values(|v: Vec<char>| v@);
    let ghost cv = current@.map_values(|v: Vec<char>| v@);
    let n = if latest.len() > current.len() {
        latest.len()
    } else {
        current.len()
    };
    let mut i: usize = 0;
    while i < n
        invariant
            n == (if latest@.len() > current@.len() {
                latest@.len()
            } else {
                current@.len()
            }),
            i <= n,
            lv == latest@.map_values(|v: Vec<char>| v@),
            cv == current@.map_values(|v: Vec<char>| v@),
            ahead_from(lv, cv, 0) == ahead_from(lv, cv, i as int),
        decreases n - i,
    {
        let ln = part_value(latest, i);
        let cn = part_value(current, i);
        if ln > cn {
            return true;
        } else if cn > ln {
            return false;
        }
        i = i + 1;
    }
    false
}

fn split_views(s: &[char]) -> (res: Vec<Vec<char>>)
    ensures
        res@.map_values(|v: Vec<char>| v@) == split_on(s@, '.'),
{
    let parts = split_chars(s, '.');
    assert(parts@.map_values(|v: Vec<char>| v@) =~= split_on(s@, '.'));
    parts
}

/// Whether dotted version `latest` is newer than `current`, part by part.
pub fn compare_versions(latest: &str, current: &str) -> (res: bool)
    ensures
        res == spec_version_newer(latest@, current@),
{
    let l = chars_of(latest);
    let c = chars_of(current);
    let lp = split_views(l.as_slice());
    let cp = split_views(c.as_slice());
    ahead(&lp, &cp)
}

/// Whether release `latest` is newer than the running `current`, each with
/// any leading `v` removed.
pub fn is_newer_version(current: &str, latest: &str) -> (res: bool)
    ensures
        res == spec_version_newer(trim_start_char(latest@, 'v'), trim_start_char(current@, 'v')),
{
    let l = chars_of(latest);
    let c = chars_of(current);
    let ls = trim_start_chars(l.as_slice(), 'v');
    let cs = trim_start_chars(c.as_slice(), 'v');
    let l_clean = vstd::slice::slice_subrange(l.as_slice(), ls, l.len());
    let c_clean = vstd::slice::slice_subrange(c.as_slice(), cs, c.len());
    let lp = split_views(l_clean);
    let cp = split_views(c_clean);
    ahead(&lp, &cp)
}

/// A version is never newer than itself.
pub proof fn law_version_irreflexive(v: Seq<char>)
    ensures
        !spec_version_newer(v, v),
{
    lemma_ahead_irreflexive(split_on(v, '.'), 0);
}

proof fn lemma_ahead_irreflexive(p: Seq<Seq<char>>, i: int)
    ensures
        !ahead_from(p, p, i),
    decreases p.len() - i,
{
    if i >= 0 && i < p.len() {
        lemma_ahead_irreflexive(p, i + 1);
    }
}

/// Of two versions, at most one is newer than the other.
pub proof fn law_version_asymmetric(a: Seq<char>, b: Seq<char>)
    ensures
        !(spec_version_newer(a, b) && spec_version_newer(b, a)),
{
    lemma_ahead_asymmetric(split_on(a, '.'), split_on(b, '.'), 0);
}

proof fn lemma_ahead_asymmetric(a: Seq<Seq<char>>, b: Seq<Seq<char>>, i: int)
    ensures
        !(ahead_from(a, b, i) && ahead_from(b, a, i)),
    decreases (if a.len() > b.len() { a.len() } else { b.len() }) - i,
{
    if i >= 0 && !(i >= a.len() && i >= b.len()) && version_part(a, i) == version_part(b, i) {
        lemma_ahead_asymmetric(a, b, i + 1);
    }
}

proof fn lemma_ahead_zero_tail(p: Seq<Seq<char>>, q: Seq<Seq<char>>, i: int)
    requires
        i >= 0,
        forall|k: int| k >= i ==> #[trigger] version_part(p, k) == 0 && version_part(q, k) == 0,
    ensures
        !ahead_from(p, q, i),
    decreases (if p.len() > q.len() { p.len() } else { q.len() }) - i,
{
    if !(i >= p.len() && i >= q.len()) {
        assert(version_part(p, i) == 0 && version_part(q, i) == 0);
        lemma_ahead_zero_tail(p, q, i + 1);
    }
}

proof fn lemma_ahead_same_parts(
    p1: Seq<Seq<char>>,
    q1: Seq<Seq<char>>,
    p2: Seq<Seq<char>>,
    q2: Seq<Seq<char>>,
    i: int,
)
    requires
        i >= 0,
        forall|k: int| #[trigger] version_part(p1, k) == version_part(p2, k),
        forall|k: int| #[trigger] version_part(q1, k) == version_part(q2, k),
    ensures
        ahead_from(p1, q1, i) == ahead_from(p2, q2, i),
    decreases (if p1.len() > q1.len() { p1.len() } else { q1.len() }) + (if p2.len() > q2.len() {
        p2.len()
    } else {
        q2.len()
    }) - 2 * i,
{
    let stop1 = i >= p1.len() && i >= q1.len();
    let stop2 = i >= p2.len() && i >= q2.len();
    if stop1 {
        assert forall|k: int| k >= i implies #[trigger] version_part(p2, k) == 0 && version_part(q2, k)
            == 0 by {
            assert(version_part(p1, k) == 0 && version_part(q1, k) == 0);
        }
        lemma_ahead_zero_tail(p2, q2, i);
    } else if stop2 {
        assert forall|k: int| k >= i implies #[trigger] version_part(p1, k) == 0 && version_part(q1, k)
            == 0 by {
            assert(version_part(p2, k) == 0 && version_part(q2, k) == 0);
        }
        lemma_ahead_zero_tail(p1, q1, i);
    } else {
        assert(version_part(p1, i) == version_part(p2, i));
        assert(version_part(q1, i) == version_part(q2, i));
        lemma_ahead_same_parts(p1, q1, p2, q2, i + 1);
    }
}

proof fn lemma_index_in_prefix(s: Seq<char>, x: Seq<char>, c: char, j: int)
    requires
        0 <= j <= s.len(),
    ensures
        index_of_from(s + x, c, j) == match index_of_from(s, c, j) {
            Some(k) => Some(k),
            None => index_of_from(s + x, c, s.len() as int),
        },
    decreases s.len() - j,
{
    if j < s.len() {
        assert((s + x)[j] == s[j]);
        if s[j] != c {
            lemma_index_in_prefix(s, x, c, j + 1);
        }
    }
}

proof fn lemma_split_append(s: Seq<char>, t: Seq<char>, sep: char)
    requires
        !t.contains(sep),
    ensures
        split_on(s + seq![sep] + t, sep) == split_on(s, sep).push(t),
    decreases s.len(),
{
    let w = s + seq![sep] + t;
    assert(w =~= s + (seq![sep] + t));
    lemma_index_in_prefix(s, seq![sep] + t, sep, 0);
    lemma_index_of_from_bounds(s, sep, 0);
    match index_of_from(s, sep, 0) {
        None => {
            assert(w[s.len() as int] == sep);
            assert(index_of_from(w, sep, s.len() as int) == Some(s.len() as int));
            assert(w.subrange(0, s.len() as int) =~= s);
            assert(w.subrange(s.len() as int + 1, w.len() as int) =~= t);
            assert(index_of_from(t, sep, 0) is None) by {
                lemma_index_of_from_bounds(t, sep, 0);
                if let Some(k) = index_of_from(t, sep, 0) {
                    assert(t[k] == sep);
                }
            }
            assert(split_on(t, sep) == seq![t]);
            assert(index_of_from(w, sep, 0) == Some(s.len() as int));
            assert(split_on(w, sep) == seq![s] + split_on(t, sep));
            assert(split_on(s, sep) == seq![s]);
            assert(split_on(w, sep) =~= seq![s].push(t));
        },
        Some(k) => {
            let rest = s.subrange(k + 1, s.len() as int);
            assert(w.subrange(0, k) =~= s.subrange(0, k));
            assert(w.subrange(k + 1, w.len() as int) =~= rest + seq![sep] + t);
            lemma_split_append(rest, t, sep);
            assert(split_on(s, sep) == seq![s.subrange(0, k)] + split_on(rest, sep));
            assert(split_on(w, sep) == seq![s.subrange(0, k)] + split_on(rest + seq![sep] + t, sep));
            assert(seq![s.subrange(0, k)] + split_on(rest, sep).push(t) =~= (seq![s.subrange(0, k)]
                + split_on(rest, sep)).push(t));
        },
    }
}

/// A part that reads as zero (or as no number), added at the end of a
/// version, changes no comparison: `1.2` and `1.2.0` are alike.
pub proof fn law_version_trailing_zero(a: Seq<char>, b: Seq<char>, z: Seq<char>)
    requires
        !z.contains('.'),
        match parse_u32(z) {
            Some(v) => v == 0,
            None => true,
        },
    ensures
        spec_version_newer(a + seq!['.'] + z, b) == spec_version_newer(a, b),
        spec_version_newer(b, a + seq!['.'] + z) == spec_version_newer(b, a),
{
    lemma_split_append(a, z, '.');
    let pa = split_on(a, '.');
    let pz = pa.push(z);
    let pb = split_on(b, '.');
    assert forall|k: int| #[trigger] version_part(pz, k) == version_part(pa, k) by {
        if 0 <= k < pa.len() {
            assert(pz[k] == pa[k]);
        }
    }
    assert forall|k: int| #[trigger] version_part(pb, k) == version_part(pb, k) by {}
    lemma_ahead_same_parts(pz, pb, pa, pb, 0);
    lemma_ahead_same_parts(pb, pz, pb, pa, 0);
}

} // verus!
