//! AV1 Open Bitstream Unit (OBU) parsing and the Annex-B to low-overhead
//! conversion used before RTP packetization.

use bytes::Bytes;
use vstd::prelude::*;

verus! {

/// The index just past the terminating byte of the LEB128 number that starts
/// at `s[0]`, looking at no more than 8 bytes; `None` when no byte among the
/// first 8 (or among those present) clears the continuation bit.
pub open spec fn leb128_end(s: Seq<u8>, i: nat) -> Option<nat>
    decreases 8 - i,
{
    if i >= 8 || i >= s.len() {
        None
    } else if s[i as int] < 128 {
        Some(i + 1)
    } else {
        leb128_end(s, i + 1)
    }
}

/// The little-endian base-128 value of the 7-bit groups `s[0..n]`.
pub open spec fn leb128_value(s: Seq<u8>, n: nat) -> nat
    decreases n,
{
    if n == 0 {
        0
    } else {
        leb128_value(s, (n - 1) as nat) + (s[n - 1] % 128) as nat * pow128((n - 1) as nat)
    }
}

pub open spec fn pow128(e: nat) -> nat
    decreases e,
{
    if e == 0 {
        1
    } else {
        128 * pow128((e - 1) as nat)
    }
}

/// The bytes of `input` from `pos` on (empty when `pos` is past the end).
pub open spec fn suffix(input: Seq<u8>, pos: int) -> Seq<u8> {
    if 0 <= pos <= input.len() {
        input.subrange(pos, input.len() as int)
    } else {
        Seq::empty()
    }
}

/// What reading a LEB128 number at `pos` gives: the value and the position
/// just after it. A value that does not fit in a `usize` is no number.
pub open spec fn spec_read_leb128(input: Seq<u8>, pos: int) -> Option<(nat, int)> {
    match leb128_end(suffix(input, pos), 0) {
        Some(n) => if leb128_value(suffix(input, pos), n) <= usize::MAX {
            Some((leb128_value(suffix(input, pos), n), pos + n))
        } else {
            None
        },
        None => None,
    }
}

proof fn lemma_leb128_step(v: nat, m: nat, b: u8)
    requires
        v < m,
    ensures
        v + (b % 128) as nat * m < 128 * m,
{
    assert((b % 128) as nat * m <= 127 * m) by (nonlinear_arith)
        requires
            (b % 128) as nat <= 127,
    ;
}

proof fn lemma_leb128_end_skip(s: Seq<u8>, i: nat, j: nat)
    requires
        i <= j <= 8,
        j <= s.len(),
        forall|k: int| i <= k < j ==> s[k] >= 128,
    ensures
        leb128_end(s, i) == leb128_end(s, j),
    decreases j - i,
{
    if i < j {
        lemma_leb128_end_skip(s, i + 1, j);
    }
}

/// Reads a LEB128-encoded unsigned integer of at most 8 bytes from `input`
/// starting at `pos`; gives the value and the position after it.
pub fn read_av1_leb128(input: &[u8], pos: usize) -> (res: Option<(usize, usize)>)
    ensures
        res is Some == spec_read_leb128(input@, pos as int) is Some,
        res is Some ==> res.unwrap().0 as nat == spec_read_leb128(input@, pos as int).unwrap().0
            && res.unwrap().1 as int == spec_read_leb128(input@, pos as int).unwrap().1,
{
    let ghost s = suffix(input@, pos as int);
    let mut value: u64 = 0;
    let mut mult: u64 = 1;
    let mut p: usize = pos;
    let mut i: usize = 0;
    assert(pow128(0) == 1);
    assert(pow128(7) == 562949953421312) by {
        reveal_with_fuel(pow128, 8);
    }
    while i < 8
        invariant
            i <= 8,
            p == pos + i,
            s == suffix(input@, pos as int),
            pos <= input@.len() ==> i <= s.len(),
            i > 0 ==> pos < input@.len(),
            mult as nat == pow128(i as nat),
            i < 8 ==> mult <= 562949953421312,
            value as nat == leb128_value(s, i as nat),
            value < mult,
            forall|k: int| 0 <= k < i ==> s[k] >= 128,
            pos <= input@.len() ==> leb128_end(s, 0) == leb128_end(s, i as nat),
            pow128(7) == 562949953421312,
        decreases 8 - i,
    {
        if p >= input.len() {
            assert(s.len() == i) by {
                if pos > input@.len() {
                } else {
                }
            }
            return None;
        }
        let byte = input[p];
        assert(byte == s[i as int]);
        p = p + 1;
        proof {
            lemma_leb128_step(value as nat, mult as nat, byte);
        }
        assert((byte & 0x7f) == byte % 128) by (bit_vector);
        assert((byte & 0x80 == 0) == (byte < 128)) by (bit_vector);
        let group: u64 = (byte & 0x7f) as u64;
        value = value + group * mult;
        if byte & 0x80 == 0 {
            proof {
                lemma_leb128_end_skip(s, 0, i as nat);
            }
            if value > usize::MAX as u64 {
                return None;
            }
            return Some((value as usize, p));
        }
        if i < 7 {
            assert(pow128((i + 1) as nat) == 128 * pow128(i as nat));
            mult = mult * 128;
        } else {
            proof {
                lemma_leb128_end_skip(s, 0, 8);
            }
            return None;
        }
        i = i + 1;
        proof {
            assert(pow128(i as nat) <= pow128(7)) by {
                lemma_pow128_mono(i as nat, 7);
            }
        }
    }
    None
}

proof fn lemma_pow128_mono(a: nat, b: nat)
    requires
        a <= b,
    ensures
        pow128(a) <= pow128(b),
    decreases b,
{
    if a < b {
        lemma_pow128_mono(a, (b - 1) as nat);
    }
}

} // verus!

verus! {

proof fn lemma_leb128_end_after(s: Seq<u8>, i: nat)
    ensures
        leb128_end(s, i) matches Some(n) ==> i < n <= s.len() && n <= 8,
    decreases 8 - i,
{
    if i < 8 && i < s.len() && s[i as int] >= 128 {
        lemma_leb128_end_after(s, i + 1);
    }
}

/// A LEB128 number read at `pos` ends after `pos` and within the input.
pub proof fn lemma_read_leb128_advances(input: Seq<u8>, pos: int)
    ensures
        spec_read_leb128(input, pos) is Some ==> 0 <= pos < spec_read_leb128(input, pos).unwrap().1
            <= input.len() && spec_read_leb128(input, pos).unwrap().1 <= pos + 8,
{
    lemma_leb128_end_after(suffix(input, pos), 0);
    if !(0 <= pos <= input.len()) {
        assert(suffix(input, pos).len() == 0);
    }
}

/// The minimal LEB128 encoding of `n`: 7-bit groups, least significant
/// first, the continuation bit set on every byte but the last.
pub open spec fn leb128_encode(n: nat) -> Seq<u8>
    decreases n,
{
    if n < 128 {
        seq![n as u8]
    } else {
        seq![((n % 128) + 128) as u8] + leb128_encode(n / 128)
    }
}

proof fn lemma_leb128_encode_len(n: nat, k: nat)
    requires
        1 <= k,
        n < pow128(k),
    ensures
        1 <= leb128_encode(n).len() <= k,
    decreases n,
{
    if n >= 128 {
        assert(k >= 2) by {
            if k == 1 {
                assert(pow128(1) == 128 * pow128(0));
            }
        }
        let p = pow128((k - 1) as nat);
        assert(pow128(k) == 128 * p);
        assert(n / 128 < p) by (nonlinear_arith)
            requires
                n < 128 * p,
        ;
        lemma_leb128_encode_len(n / 128, (k - 1) as nat);
    }
}

proof fn lemma_leb128_encode_end(s: Seq<u8>, i: nat, n: nat)
    requires
        i + leb128_encode(n).len() <= 8,
        i + leb128_encode(n).len() <= s.len(),
        s.subrange(i as int, i + leb128_encode(n).len() as int) == leb128_encode(n),
    ensures
        leb128_end(s, i) == Some((i + leb128_encode(n).len()) as nat),
        leb128_value(s, (i + leb128_encode(n).len()) as nat) == leb128_value(s, i) + n * pow128(i),
    decreases n,
{
    let e = leb128_encode(n);
    assert(s[i as int] == e[0]);
    if n >= 128 {
        let t = leb128_encode(n / 128);
        assert(e.len() == 1 + t.len());
        assert(s.subrange(i + 1 as int, i + 1 + t.len() as int) =~= t) by {
            assert forall|k: int| 0 <= k < t.len() implies s.subrange(i + 1 as int, i + 1 + t.len() as int)[k]
                == t[k] by {
                assert(s.subrange(i as int, i + e.len() as int)[k + 1] == e[k + 1]);
            }
        }
        lemma_leb128_encode_end(s, i + 1, n / 128);
        assert(s[i as int] % 128 == n % 128);
        assert(pow128(i + 1) == 128 * pow128(i));
        let p = pow128(i);
        assert((n % 128) * p + (n / 128) * (128 * p) == n * p) by (nonlinear_arith)
            requires
                n == 128 * (n / 128) + n % 128,
        ;
    }
}

/// Reading a LEB128 number where the minimal encoding of `n` stands gives
/// `n` and the position just after the encoding, for any `n` that fits in
/// the eight bytes the reader looks at and in a `usize`.
pub proof fn lemma_read_leb128_encoded(input: Seq<u8>, pos: int, n: nat)
    requires
        n < pow128(8),
        n <= usize::MAX,
        0 <= pos,
        pos + leb128_encode(n).len() <= input.len(),
        input.subrange(pos, pos + leb128_encode(n).len()) == leb128_encode(n),
    ensures
        spec_read_leb128(input, pos) == Some((n, pos + leb128_encode(n).len())),
{
    let e = leb128_encode(n);
    let s = suffix(input, pos);
    lemma_leb128_encode_len(n, 8);
    assert(s.subrange(0, e.len() as int) =~= e) by {
        assert forall|k: int| 0 <= k < e.len() implies s.subrange(0, e.len() as int)[k] == e[k] by {
            assert(input.subrange(pos, pos + e.len())[k] == e[k]);
        }
    }
    lemma_leb128_encode_end(s, 0, n);
    assert(pow128(0) == 1);
}

/// The payload bytes of the LEB128-size-prefixed units in `input[pos..end]`
/// at nesting `depth`: at depth 0 each unit is an OBU whose bytes are kept;
/// at a greater depth each unit's body is itself a sequence of units one level
/// down that fills the body exactly. Size prefixes are read from the whole
/// input, as the parser does. `None` when a unit is empty, overruns its
/// enclosing range, or its size is malformed.
pub open spec fn unit_payload(input: Seq<u8>, pos: int, end: int, depth: nat) -> Option<Seq<u8>>
    decreases depth, end - pos,
{
    if pos >= end {
        Some(Seq::empty())
    } else {
        match spec_read_leb128(input, pos) {
            None => None,
            Some((size, next)) => {
                if size == 0 || next + size > end {
                    None
                } else {
                    proof {
                        lemma_read_leb128_advances(input, pos);
                    }
                    let body = if depth == 0 {
                        Some(input.subrange(next, next + size))
                    } else {
                        unit_payload(input, next, next + size, (depth - 1) as nat)
                    };
                    match body {
                        None => None,
                        Some(b) => match unit_payload(input, next + size, end, depth) {
                            None => None,
                            Some(rest) => Some(b + rest),
                        },
                    }
                }
            },
        }
    }
}

/// The conversion's result for one strategy: the extracted payload when it is
/// well formed and not empty.
pub open spec fn nonempty_payload(input: Seq<u8>, depth: nat) -> Option<Seq<u8>> {
    match unit_payload(input, 0, input.len() as int, depth) {
        Some(out) => if out.len() > 0 {
            Some(out)
        } else {
            None
        },
        None => None,
    }
}

/// Flat list of size-prefixed OBUs.
pub open spec fn spec_size_prefixed_obus(input: Seq<u8>) -> Option<Seq<u8>> {
    nonempty_payload(input, 0)
}

/// Annex-B hierarchy: temporal unit, frame unit, OBU.
pub open spec fn spec_annexb_temporal_units(input: Seq<u8>) -> Option<Seq<u8>> {
    nonempty_payload(input, 2)
}

/// Annex-B first, then the flat layout.
pub open spec fn spec_annexb_to_low_overhead(input: Seq<u8>) -> Option<Seq<u8>> {
    match spec_annexb_temporal_units(input) {
        Some(out) => Some(out),
        None => spec_size_prefixed_obus(input),
    }
}

/// Appends the payload of the units in `input[start..end]` at `depth` to
/// `out`; false when they are not well formed.
fn append_units(input: &[u8], start: usize, end: usize, depth: usize, out: &mut Vec<u8>) -> (ok: bool)
    requires
        start <= end <= input@.len(),
        depth <= 2,
    ensures
        ok == unit_payload(input@, start as int, end as int, depth as nat) is Some,
        ok ==> final(out)@ == old(out)@ + unit_payload(
            input@,
            start as int,
            end as int,
            depth as nat,
        )->0,
    decreases depth,
{
    let ghost whole = unit_payload(input@, start as int, end as int, depth as nat);
    let ghost base = out@;
    let mut pos = start;
    while pos < end
        invariant
            start <= pos <= end <= input@.len(),
            depth <= 2,
            whole == unit_payload(input@, start as int, end as int, depth as nat),
            base.len() <= out@.len(),
            out@.subrange(0, base.len() as int) == base,
            match unit_payload(input@, pos as int, end as int, depth as nat) {
                Some(r) => whole == Some(out@.subrange(base.len() as int, out@.len() as int) + r),
                None => whole is None,
            },
        decreases end - pos,
    {
        proof {
            lemma_read_leb128_advances(input@, pos as int);
        }
        let read = read_av1_leb128(input, pos);
        let (size, next) = match read {
            Some(r) => r,
            None => {
                return false;
            },
        };
        if size == 0 || next > end || size > end - next {
            return false;
        }
        let unit_end = next + size;
        let ghost before = out@;
        if depth == 0 {
            let mut k = next;
            while k < unit_end
                invariant
                    next <= k <= unit_end <= end <= input@.len(),
                    out@.len() == before.len() + (k - next),
                    out@.subrange(0, before.len() as int) == before,
                    out@.subrange(before.len() as int, out@.len() as int) == input@.subrange(
                        next as int,
                        k as int,
                    ),
                decreases unit_end - k,
            {
                out.push(input[k]);
                k = k + 1;
                assert(out@.subrange(before.len() as int, out@.len() as int) =~= input@.subrange(
                    next as int,
                    k as int,
                ));
                assert(out@.subrange(0, before.len() as int) =~= before);
            }
        } else {
            if !append_units(input, next, unit_end, depth - 1, out) {
                return false;
            }
        }
        pos = unit_end;
        assert(out@.subrange(0, base.len() as int) =~= base);
        assert(out@.subrange(base.len() as int, out@.len() as int) =~= before.subrange(
            base.len() as int,
            before.len() as int,
        ) + out@.subrange(before.len() as int, out@.len() as int));
    }
    assert(out@ =~= base + out@.subrange(base.len() as int, out@.len() as int));
    true
}

fn parse_units(input: &[u8], depth: usize) -> (res: Option<Vec<u8>>)
    requires
        depth <= 2,
    ensures
        match nonempty_payload(input@, depth as nat) {
            Some(o) => res matches Some(v) && v@ == o,
            None => res is None,
        },
{
    let mut out: Vec<u8> = Vec::new();
    if !append_units(input, 0, input.len(), depth, &mut out) {
        return None;
    }
    assert(out@ =~= unit_payload(input@, 0, input@.len() as int, depth as nat)->0);
    if out.len() == 0 {
        None
    } else {
        Some(out)
    }
}

/// Parses the Annex-B hierarchy (temporal unit, frame unit, OBU), each level
/// LEB128-size-prefixed, and gives the OBU bytes without their prefixes.
pub fn parse_av1_annexb_temporal_units(input: &[u8]) -> (res: Option<Vec<u8>>)
    ensures
        match spec_annexb_temporal_units(input@) {
            Some(o) => res matches Some(v) && v@ == o,
            None => res is None,
        },
{
    parse_units(input, 2)
}

/// Parses a flat list of LEB128-size-prefixed OBUs and gives their bytes
/// without the prefixes.
pub fn parse_av1_size_prefixed_obus(input: &[u8]) -> (res: Option<Vec<u8>>)
    ensures
        match spec_size_prefixed_obus(input@) {
            Some(o) => res matches Some(v) && v@ == o,
            None => res is None,
        },
{
    parse_units(input, 0)
}

/// The units one after another, each behind the minimal LEB128 encoding of
/// its length.
pub open spec fn size_prefixed(units: Seq<Seq<u8>>) -> Seq<u8>
    decreases units.len(),
{
    if units.len() == 0 {
        Seq::empty()
    } else {
        leb128_encode(units[0].len()) + units[0] + size_prefixed(units.drop_first())
    }
}

/// The units one after another, without prefixes.
pub open spec fn joined(units: Seq<Seq<u8>>) -> Seq<u8>
    decreases units.len(),
{
    if units.len() == 0 {
        Seq::empty()
    } else {
        units[0] + joined(units.drop_first())
    }
}

/// A length the parser can read back from a LEB128 prefix: not zero, within
/// the eight bytes it looks at, and within a `usize`.
pub open spec fn readable_len(n: nat) -> bool {
    0 < n && n < pow128(8) && n <= usize::MAX
}

/// Every unit has a readable length.
pub open spec fn units_fit(units: Seq<Seq<u8>>) -> bool {
    forall|i: int| 0 <= i < units.len() ==> readable_len(#[trigger] units[i].len())
}

proof fn lemma_subrange_of_subrange(input: Seq<u8>, pos: int, whole: Seq<u8>, a: int, b: int)
    requires
        0 <= pos,
        pos + whole.len() <= input.len(),
        input.subrange(pos, pos + whole.len()) == whole,
        0 <= a <= b <= whole.len(),
    ensures
        input.subrange(pos + a, pos + b) == whole.subrange(a, b),
{
    assert(input.subrange(pos + a, pos + b) =~= whole.subrange(a, b)) by {
        assert forall|k: int| 0 <= k < b - a implies input.subrange(pos + a, pos + b)[k]
            == whole.subrange(a, b)[k] by {
            assert(input.subrange(pos, pos + whole.len())[a + k] == whole[a + k]);
        }
    }
}

proof fn lemma_flat_units(input: Seq<u8>, pos: int, units: Seq<Seq<u8>>)
    requires
        units_fit(units),
        0 <= pos,
        pos + size_prefixed(units).len() <= input.len(),
        input.subrange(pos, pos + size_prefixed(units).len()) == size_prefixed(units),
    ensures
        unit_payload(input, pos, pos + size_prefixed(units).len(), 0) == Some(joined(units)),
    decreases units.len(),
{
    if units.len() > 0 {
        let whole = size_prefixed(units);
        let u = units[0];
        let e = leb128_encode(u.len());
        let rest = units.drop_first();
        assert(readable_len(units[0].len()));
        assert(whole =~= e + u + size_prefixed(rest));
        lemma_subrange_of_subrange(input, pos, whole, 0, e.len() as int);
        assert(whole.subrange(0, e.len() as int) =~= e);
        lemma_read_leb128_encoded(input, pos, u.len());
        let next = pos + e.len();
        let eu: int = e.len() as int + u.len() as int;
        lemma_subrange_of_subrange(input, pos, whole, e.len() as int, eu);
        assert(whole.subrange(e.len() as int, eu) =~= u);
        lemma_subrange_of_subrange(input, pos, whole, eu, whole.len() as int);
        assert(whole.subrange(eu, whole.len() as int) =~= size_prefixed(rest));
        assert(units_fit(rest)) by {
            assert forall|i: int| 0 <= i < rest.len() implies readable_len(#[trigger] rest[i].len()) by {
                assert(rest[i] == units[i + 1]);
            }
        }
        lemma_flat_units(input, next + u.len(), rest);
    }
}

proof fn lemma_joined_nonempty(units: Seq<Seq<u8>>)
    requires
        units.len() > 0,
        units[0].len() > 0,
    ensures
        joined(units).len() > 0,
{
}

proof fn lemma_level_units(
    input: Seq<u8>,
    pos: int,
    bodies: Seq<Seq<u8>>,
    payloads: Seq<Seq<u8>>,
    depth: nat,
)
    requires
        depth > 0,
        units_fit(bodies),
        bodies.len() == payloads.len(),
        0 <= pos,
        pos + size_prefixed(bodies).len() <= input.len(),
        input.subrange(pos, pos + size_prefixed(bodies).len()) == size_prefixed(bodies),
        forall|i: int, p: int|
            0 <= i < bodies.len() && 0 <= p && p + bodies[i].len() <= input.len()
                && input.subrange(p, p + bodies[i].len()) == bodies[i] ==> #[trigger] unit_payload(
                input,
                p,
                p + bodies[i].len(),
                (depth - 1) as nat,
            ) == Some(payloads[i]),
    ensures
        unit_payload(input, pos, pos + size_prefixed(bodies).len(), depth) == Some(joined(payloads)),
    decreases bodies.len(),
{
    if bodies.len() > 0 {
        let whole = size_prefixed(bodies);
        let u = bodies[0];
        let e = leb128_encode(u.len());
        let rest = bodies.drop_first();
        assert(readable_len(bodies[0].len()));
        assert(whole =~= e + u + size_prefixed(rest));
        lemma_subrange_of_subrange(input, pos, whole, 0, e.len() as int);
        assert(whole.subrange(0, e.len() as int) =~= e);
        lemma_read_leb128_encoded(input, pos, u.len());
        let next = pos + e.len();
        let eu: int = e.len() as int + u.len() as int;
        lemma_subrange_of_subrange(input, pos, whole, e.len() as int, eu);
        assert(whole.subrange(e.len() as int, eu) =~= u);
        assert(unit_payload(input, next, next + u.len(), (depth - 1) as nat) == Some(payloads[0]));
        lemma_subrange_of_subrange(input, pos, whole, eu, whole.len() as int);
        assert(whole.subrange(eu, whole.len() as int) =~= size_prefixed(rest));
        assert(units_fit(rest)) by {
            assert forall|i: int| 0 <= i < rest.len() implies readable_len(#[trigger] rest[i].len()) by {
                assert(rest[i] == bodies[i + 1]);
            }
        }
        let prest = payloads.drop_first();
        assert forall|i: int, p: int|
            0 <= i < rest.len() && 0 <= p && p + rest[i].len() <= input.len()
                && input.subrange(p, p + rest[i].len()) == rest[i] implies #[trigger] unit_payload(
            input,
            p,
            p + rest[i].len(),
            (depth - 1) as nat,
        ) == Some(prest[i]) by {
            assert(rest[i] == bodies[i + 1]);
            assert(prest[i] == payloads[i + 1]);
            assert(unit_payload(input, p, p + bodies[i + 1].len(), (depth - 1) as nat) == Some(
                payloads[i + 1],
            ));
        }
        lemma_level_units(input, next + u.len(), rest, prest, depth);
    }
}

/// The bytes of a temporal unit: its frame units, each size-prefixed, one
/// after another, each behind its own size prefix.
pub open spec fn temporal_unit_bytes(tu: Seq<Seq<Seq<u8>>>) -> Seq<u8> {
    size_prefixed(tu.map_values(|fu: Seq<Seq<u8>>| size_prefixed(fu)))
}

/// The OBU bytes of a temporal unit, in order.
pub open spec fn temporal_unit_payload(tu: Seq<Seq<Seq<u8>>>) -> Seq<u8> {
    joined(tu.map_values(|fu: Seq<Seq<u8>>| joined(fu)))
}

/// The Annex-B stream of the temporal units, each behind its size prefix.
pub open spec fn annexb_bytes(tus: Seq<Seq<Seq<Seq<u8>>>>) -> Seq<u8> {
    size_prefixed(tus.map_values(|tu: Seq<Seq<Seq<u8>>>| temporal_unit_bytes(tu)))
}

/// The OBU bytes of all the temporal units, in order.
pub open spec fn annexb_payload(tus: Seq<Seq<Seq<Seq<u8>>>>) -> Seq<u8> {
    joined(tus.map_values(|tu: Seq<Seq<Seq<u8>>>| temporal_unit_payload(tu)))
}

/// Every OBU and every frame unit of a temporal unit has a readable length.
pub open spec fn frame_units_fit(tu: Seq<Seq<Seq<u8>>>) -> bool {
    forall|i: int|
        0 <= i < tu.len() ==> units_fit(#[trigger] tu[i]) && readable_len(size_prefixed(tu[i]).len())
}

/// Every unit at every level of the stream has a readable length.
pub open spec fn annexb_fits(tus: Seq<Seq<Seq<Seq<u8>>>>) -> bool {
    forall|i: int|
        0 <= i < tus.len() ==> frame_units_fit(#[trigger] tus[i]) && readable_len(
            temporal_unit_bytes(tus[i]).len(),
        )
}

proof fn lemma_temporal_unit(input: Seq<u8>, pos: int, tu: Seq<Seq<Seq<u8>>>)
    requires
        frame_units_fit(tu),
        0 <= pos,
        pos + temporal_unit_bytes(tu).len() <= input.len(),
        input.subrange(pos, pos + temporal_unit_bytes(tu).len()) == temporal_unit_bytes(tu),
    ensures
        unit_payload(input, pos, pos + temporal_unit_bytes(tu).len(), 1) == Some(
            temporal_unit_payload(tu),
        ),
{
    let bodies = tu.map_values(|fu: Seq<Seq<u8>>| size_prefixed(fu));
    let payloads = tu.map_values(|fu: Seq<Seq<u8>>| joined(fu));
    assert(units_fit(bodies)) by {
        assert forall|i: int| 0 <= i < bodies.len() implies readable_len(#[trigger] bodies[i].len()) by {
            assert(units_fit(tu[i]) && readable_len(size_prefixed(tu[i]).len()));
        }
    }
    assert forall|i: int, p: int|
        0 <= i < bodies.len() && 0 <= p && p + bodies[i].len() <= input.len()
            && input.subrange(p, p + bodies[i].len()) == bodies[i] implies #[trigger] unit_payload(
        input,
        p,
        p + bodies[i].len(),
        0,
    ) == Some(payloads[i]) by {
        assert(units_fit(tu[i]) && readable_len(size_prefixed(tu[i]).len()));
        lemma_flat_units(input, p, tu[i]);
    }
    lemma_level_units(input, pos, bodies, payloads, 1);
}

/// A flat list of OBUs, each behind the minimal LEB128 encoding of its
/// length, parses back to the OBUs' bytes in order (each OBU not empty, and
/// short enough for a size the reader takes in eight bytes).
pub proof fn law_size_prefixed_round_trip(obus: Seq<Seq<u8>>)
    requires
        obus.len() > 0,
        units_fit(obus),
    ensures
        spec_size_prefixed_obus(size_prefixed(obus)) == Some(joined(obus)),
{
    let input = size_prefixed(obus);
    assert(input.subrange(0, input.len() as int) =~= input);
    lemma_flat_units(input, 0, obus);
    assert(readable_len(obus[0].len()));
    lemma_joined_nonempty(obus);
}

} // verus!

verus! {

/// `bytes::Bytes`, a shared immutable byte buffer.
#[verifier::external_type_specification]
#[verifier::external_body]
pub struct ExBytes(Bytes);

/// The bytes that a `Bytes` buffer holds.
pub uninterp spec fn bytes_content(b: Bytes) -> Seq<u8>;

/// `<Bytes as AsRef<[u8]>>::as_ref`: the buffer's bytes as a slice.
#[verifier::external_body]
fn bytes_as_slice(b: &Bytes) -> (res: &[u8])
    ensures
        res@ == bytes_content(*b),
{
    b.as_ref()
}

/// `<Bytes as From<Vec<u8>>>::from`: a buffer holding exactly the vector's bytes.
#[verifier::external_body]
fn bytes_from_vec(v: Vec<u8>) -> (res: Bytes)
    ensures
        bytes_content(res) == v@,
{
    Bytes::from(v)
}

/// Converts Annex-B formatted AV1 data to low-overhead OBUs: tries the full
/// temporal-unit hierarchy first, then a flat list of size-prefixed OBUs.
/// `None` when neither reading succeeds (the data is then taken to be
/// low-overhead already, or is malformed).
pub fn av1_annexb_to_low_overhead(data: &Bytes) -> (res: Option<Bytes>)
    ensures
        match spec_annexb_to_low_overhead(bytes_content(*data)) {
            Some(o) => res matches Some(b) && bytes_content(b) == o,
            None => res is None,
        },
{
    let input = bytes_as_slice(data);
    let converted = match parse_av1_annexb_temporal_units(input) {
        Some(out) => Some(out),
        None => parse_av1_size_prefixed_obus(input),
    };
    match converted {
        Some(out) => Some(bytes_from_vec(out)),
        None => None,
    }
}

/// An Annex-B stream (temporal units of frame units of OBUs, each unit
/// behind the minimal LEB128 encoding of its length) parses back to all the
/// OBUs' bytes in order (no unit at any level empty, and each short enough
/// for a size the reader takes in eight bytes).
pub proof fn law_annexb_round_trip(tus: Seq<Seq<Seq<Seq<u8>>>>)
    requires
        tus.len() > 0,
        annexb_fits(tus),
    ensures
        spec_annexb_temporal_units(annexb_bytes(tus)) == Some(annexb_payload(tus)),
{
    let input = annexb_bytes(tus);
    let bodies = tus.map_values(|tu: Seq<Seq<Seq<u8>>>| temporal_unit_bytes(tu));
    let payloads = tus.map_values(|tu: Seq<Seq<Seq<u8>>>| temporal_unit_payload(tu));
    assert(units_fit(bodies)) by {
        assert forall|i: int| 0 <= i < bodies.len() implies readable_len(#[trigger] bodies[i].len()) by {
            assert(frame_units_fit(tus[i]) && readable_len(temporal_unit_bytes(tus[i]).len()));
        }
    }
    assert forall|i: int, p: int|
        0 <= i < bodies.len() && 0 <= p && p + bodies[i].len() <= input.len()
            && input.subrange(p, p + bodies[i].len()) == bodies[i] implies #[trigger] unit_payload(
        input,
        p,
        p + bodies[i].len(),
        1,
    ) == Some(payloads[i]) by {
        assert(frame_units_fit(tus[i]) && readable_len(temporal_unit_bytes(tus[i]).len()));
        lemma_temporal_unit(input, p, tus[i]);
    }
    assert(input.subrange(0, input.len() as int) =~= input);
    lemma_level_units(input, 0, bodies, payloads, 2);
    // the payload is not empty: the first OBU of the first frame unit of the
    // first temporal unit has bytes
    let tu = tus[0];
    assert(frame_units_fit(tu) && readable_len(temporal_unit_bytes(tu).len()));
    let fus = tu.map_values(|fu: Seq<Seq<u8>>| size_prefixed(fu));
    assert(tu.len() > 0) by {
        if tu.len() == 0 {
            assert(fus.len() == 0);
            assert(size_prefixed(fus).len() == 0);
        }
    }
    let fu = tu[0];
    assert(units_fit(fu) && readable_len(size_prefixed(fu).len()));
    assert(fu.len() > 0) by {
        if fu.len() == 0 {
            assert(size_prefixed(fu).len() == 0);
        }
    }
    assert(readable_len(fu[0].len()));
    lemma_joined_nonempty(fu);
    let jfus = tu.map_values(|f: Seq<Seq<u8>>| joined(f));
    assert(jfus[0] == joined(fu));
    lemma_joined_nonempty(jfus);
    assert(payloads[0] == temporal_unit_payload(tu));
    lemma_joined_nonempty(payloads);
}

} // verus!
