//! The native client's video receive path: RTP packets put back in
//! sequence order before depacketizing, and H.264 access units held back
//! until a decodable keyframe, with the parameter sets cached for it.

use crate::rtp::{aggregated, aggregated_units, av1_length, buffers_view, read_av1_length, start_code};
use crate::stream::{elapsed, elapsed_ms};
use vstd::prelude::*;

verus! {

/// The distance from the expected sequence number to a received one, as a
/// signed 16-bit difference.
pub open spec fn seq_delta(next: u64, seq: u16) -> int {
    let d = (seq as int - (next as int % 65536)) % 65536;
    if d >= 32768 {
        d - 65536
    } else {
        d
    }
}

/// A 16-bit sequence number placed on the 64-bit count next to the expected
/// one (wrapping at 2^64).
pub open spec fn extend_seq(next: u64, seq: u16) -> u64 {
    ((next as int + seq_delta(next, seq)) % 0x1_0000_0000_0000_0000) as u64
}

/// The count after `n` (wrapping at 2^64).
pub open spec fn after(n: u64) -> u64 {
    if n == u64::MAX {
        0
    } else {
        (n + 1) as u64
    }
}

/// Keys strictly increasing.
pub open spec fn sorted_keys(p: Seq<(u64, Seq<u8>)>) -> bool {
    forall|i: int, j: int| 0 <= i < j < p.len() ==> p[i].0 < p[j].0
}

/// `p` with the packet `v` under `k`, in key order (replacing one already
/// held under `k`).
pub open spec fn insert_sorted(p: Seq<(u64, Seq<u8>)>, k: u64, v: Seq<u8>) -> Seq<(u64, Seq<u8>)>
    decreases p.len(),
{
    if p.len() == 0 {
        seq![(k, v)]
    } else if k < p[0].0 {
        seq![(k, v)] + p
    } else if k == p[0].0 {
        seq![(k, v)] + p.drop_first()
    } else {
        seq![p[0]] + insert_sorted(p.drop_first(), k, v)
    }
}

/// The packets that follow on from `next` without a gap leave the buffer,
/// in order: what stays, the count expected next, and the non-empty
/// payloads released.
pub open spec fn release(p: Seq<(u64, Seq<u8>)>, next: u64) -> (Seq<(u64, Seq<u8>)>, u64, Seq<Seq<u8>>)
    decreases p.len(),
{
    if p.len() > 0 && p[0].0 == next {
        let r = release(p.drop_first(), after(next));
        (r.0, r.1, if p[0].1.len() == 0 {
            r.2
        } else {
            seq![p[0].1] + r.2
        })
    } else {
        (p, next, Seq::empty())
    }
}

/// How many packets the buffer holds before it gives up on a missing one.
pub open spec fn max_held() -> int {
    64
}

/// What the reorder buffer is: the count it expects next (none before the
/// first packet), and the packets held for later, in key order.
#[verifier::ext_equal]
pub struct ReorderModel {
    pub next: Option<u64>,
    pub pending: Seq<(u64, Seq<u8>)>,
}

/// A packet arrives: its number is placed next to the expected one; one
/// from before it is dropped; else it is held, and once more than 64 wait,
/// the missing ones are given up (a loss) and the earliest held is expected;
/// then every packet that follows on without a gap is released.
pub open spec fn reorder_push(m: ReorderModel, seq: u16, payload: Seq<u8>) -> (ReorderModel, bool, Seq<Seq<u8>>) {
    let (next0, ext) = match m.next {
        None => (seq as u64, seq as u64),
        Some(n) => (n, extend_seq(n, seq)),
    };
    if ext < next0 {
        (ReorderModel { next: Some(next0), pending: m.pending }, false, Seq::empty())
    } else {
        let p1 = insert_sorted(m.pending, ext, payload);
        let lost = p1.len() > max_held();
        let next1 = if lost {
            p1[0].0
        } else {
            next0
        };
        let r = release(p1, next1);
        (ReorderModel { next: Some(r.1), pending: r.0 }, lost, r.2)
    }
}

/// Puts RTP packets back in sequence order.
pub struct ReorderBuffer {
    next: Option<u64>,
    pending: Vec<(u64, Vec<u8>)>,
}

/// The key and the bytes of each held packet.
pub open spec fn held_view(v: Seq<(u64, Vec<u8>)>) -> Seq<(u64, Seq<u8>)> {
    v.map_values(|e: (u64, Vec<u8>)| (e.0, e.1@))
}

impl View for ReorderBuffer {
    type V = ReorderModel;

    closed spec fn view(&self) -> ReorderModel {
        ReorderModel { next: self.next, pending: held_view(self.pending@) }
    }
}

impl ReorderModel {
    /// Held packets are in key order, all after the expected count (none
    /// before the first packet), and at most 64 of them.
    pub open spec fn wf(self) -> bool {
        &&& sorted_keys(self.pending)
        &&& self.pending.len() <= max_held()
        &&& match self.next {
            None => self.pending.len() == 0,
            Some(n) => forall|i: int| 0 <= i < self.pending.len() ==> #[trigger] self.pending[i].0 > n,
        }
    }
}

proof fn lemma_insert_sorted(p: Seq<(u64, Seq<u8>)>, k: u64, v: Seq<u8>, i: int)
    requires
        sorted_keys(p),
        0 <= i <= p.len(),
        forall|j: int| 0 <= j < i ==> #[trigger] p[j].0 < k,
        i < p.len() ==> p[i].0 >= k,
    ensures
        insert_sorted(p, k, v) == p.take(i) + seq![(k, v)] + (if i < p.len() && p[i].0 == k {
            p.skip(i + 1)
        } else {
            p.skip(i)
        }),
        sorted_keys(insert_sorted(p, k, v)),
        forall|j: int|
            0 <= j < insert_sorted(p, k, v).len() ==> (#[trigger] insert_sorted(p, k, v)[j].0 == k
                || exists|l: int| 0 <= l < p.len() && p[l].0 == insert_sorted(p, k, v)[j].0),
    decreases p.len(),
{
    if p.len() == 0 {
        assert(insert_sorted(p, k, v) =~= p.take(i) + seq![(k, v)] + p.skip(i));
    } else if i == 0 {
        if k < p[0].0 {
            assert(insert_sorted(p, k, v) =~= p.take(i) + seq![(k, v)] + p.skip(i));
        } else {
            assert(insert_sorted(p, k, v) =~= p.take(i) + seq![(k, v)] + p.skip(i + 1));
        }
        let q = insert_sorted(p, k, v);
        assert forall|j: int| 0 <= j < q.len() implies (#[trigger] q[j].0 == k || exists|l: int|
            0 <= l < p.len() && p[l].0 == q[j].0) by {
            if j > 0 {
                if k < p[0].0 {
                    assert(p[j - 1].0 == q[j].0);
                } else {
                    assert(p[j].0 == q[j].0);
                }
            }
        }
    } else {
        let t = p.drop_first();
        assert forall|j: int| 0 <= j < i - 1 implies #[trigger] t[j].0 < k by {
            assert(t[j] == p[j + 1]);
        }
        lemma_insert_sorted(t, k, v, i - 1);
        let r = insert_sorted(t, k, v);
        assert(t.take(i - 1) =~= p.take(i).drop_first());
        if i < p.len() && p[i].0 == k {
            assert(t.skip(i) =~= p.skip(i + 1));
        } else {
            assert(t.skip(i - 1) =~= p.skip(i));
        }
        assert(insert_sorted(p, k, v) =~= seq![p[0]] + r);
        assert(seq![p[0]] + t.take(i - 1) =~= p.take(i));
        let q = insert_sorted(p, k, v);
        assert forall|j: int| 0 <= j < q.len() implies (#[trigger] q[j].0 == k || exists|l: int|
            0 <= l < p.len() && p[l].0 == q[j].0) by {
            if j == 0 {
                assert(p[0].0 == q[0].0);
            } else {
                assert(q[j] == r[j - 1]);
                if r[j - 1].0 != k {
                    let l = choose|l: int| 0 <= l < t.len() && t[l].0 == r[j - 1].0;
                    assert(p[l + 1].0 == q[j].0);
                }
            }
        }
        assert forall|a: int, b: int| 0 <= a < b < q.len() implies q[a].0 < q[b].0 by {
            if a == 0 {
                assert(q[b] == r[b - 1]);
                if r[b - 1].0 != k {
                    let l = choose|l: int| 0 <= l < t.len() && t[l].0 == r[b - 1].0;
                    assert(p[l + 1].0 == r[b - 1].0);
                }
            } else {
                assert(q[a] == r[a - 1] && q[b] == r[b - 1]);
            }
        }
    }
}

proof fn lemma_release(p: Seq<(u64, Seq<u8>)>, next: u64)
    requires
        sorted_keys(p),
        forall|i: int| 0 <= i < p.len() ==> #[trigger] p[i].0 >= next,
    ensures
        sorted_keys(release(p, next).0),
        release(p, next).0.len() <= p.len(),
        p.len() > 0 && p[0].0 == next ==> release(p, next).0.len() < p.len(),
        forall|i: int|
            0 <= i < release(p, next).0.len() ==> #[trigger] release(p, next).0[i].0 > release(
                p,
                next,
            ).1,
    decreases p.len(),
{
    if p.len() > 0 && p[0].0 == next {
        let t = p.drop_first();
        assert forall|i: int| 0 <= i < t.len() implies #[trigger] t[i].0 >= after(next) by {
            assert(t[i] == p[i + 1]);
        }
        assert forall|a: int, b: int| 0 <= a < b < t.len() implies t[a].0 < t[b].0 by {
            assert(t[a] == p[a + 1] && t[b] == p[b + 1]);
        }
        lemma_release(t, after(next));
    } else if p.len() > 0 {
        assert forall|i: int| 0 <= i < p.len() implies #[trigger] p[i].0 > next by {
            if i > 0 {
                assert(p[0].0 < p[i].0);
            }
        }
    }
}

/// The 16-bit sequence number placed on the 64-bit count.
fn seq_extend(next: u64, seq: u16) -> (r: u64)
    ensures
        r == extend_seq(next, seq),
{
    let low: u16 = (next % 65536) as u16;
    let d: u32 = if seq >= low {
        (seq - low) as u32
    } else {
        seq as u32 + 65536 - low as u32
    };
    assert(d == (seq as int - (next as int % 65536)) % 65536);
    if d >= 32768 {
        let back: u64 = (65536 - d) as u64;
        let r = next.wrapping_sub(back);
        assert(r == ((next as int - back) % 0x1_0000_0000_0000_0000) as u64);
        r
    } else {
        let r = next.wrapping_add(d as u64);
        assert(r == ((next as int + d) % 0x1_0000_0000_0000_0000) as u64);
        r
    }
}

/// Holds a packet under its key, in key order.
fn insert_held(pending: &mut Vec<(u64, Vec<u8>)>, k: u64, v: Vec<u8>)
    requires
        sorted_keys(held_view(old(pending)@)),
    ensures
        held_view(final(pending)@) == insert_sorted(held_view(old(pending)@), k, v@),
{
    let ghost p = held_view(pending@);
    let mut i: usize = 0;
    while i < pending.len() && pending[i].0 < k
        invariant
            i <= pending@.len(),
            p == held_view(pending@),
            forall|j: int| 0 <= j < i ==> #[trigger] p[j].0 < k,
        decreases pending@.len() - i,
    {
        i = i + 1;
    }
    let ghost vv = v@;
    proof {
        lemma_insert_sorted(p, k, vv, i as int);
    }
    if i < pending.len() && pending[i].0 == k {
        pending.remove(i);
        pending.insert(i, (k, v));
        assert(held_view(pending@) =~= p.take(i as int) + seq![(k, vv)] + p.skip(i + 1));
    } else {
        pending.insert(i, (k, v));
        assert(held_view(pending@) =~= p.take(i as int) + seq![(k, vv)] + p.skip(i as int));
    }
}

/// Releases the held packets that follow on from `next`.
fn release_held(pending: &mut Vec<(u64, Vec<u8>)>, next: u64) -> (res: (u64, Vec<Vec<u8>>))
    ensures
        ({
            let r = release(held_view(old(pending)@), next);
            &&& held_view(final(pending)@) == r.0
            &&& res.0 == r.1
            &&& buffers_view(res.1@) == r.2
        }),
{
    let ghost p0 = held_view(pending@);
    let mut n = next;
    let mut out: Vec<Vec<u8>> = Vec::new();
    while pending.len() > 0 && pending[0].0 == n
        invariant
            ({
                let r = release(held_view(pending@), n);
                let r0 = release(p0, next);
                &&& r0.0 == r.0
                &&& r0.1 == r.1
                &&& r0.2 == buffers_view(out@) + r.2
            }),
        decreases pending@.len(),
    {
        let ghost hv = held_view(pending@);
        let (_k, v) = pending.remove(0);
        assert(held_view(pending@) =~= hv.drop_first());
        let ghost r1 = release(hv.drop_first(), after(n));
        if v.len() > 0 {
            let ghost before = out@;
            out.push(v);
            assert(buffers_view(out@) =~= buffers_view(before).push(hv[0].1));
            assert(buffers_view(before) + (seq![hv[0].1] + r1.2) =~= buffers_view(
                out@,
            ) + r1.2);
        } else {
            assert(hv[0].1.len() == 0);
        }
        let ghost n0 = n;
        n = n.wrapping_add(1);
        assert(n == after(n0));
    }
    (n, out)
}

impl ReorderBuffer {
    /// A buffer's held packets always satisfy `ReorderModel::wf`.
    #[verifier::type_invariant]
    spec fn inv(self) -> bool {
        self@.wf()
    }

    /// An empty buffer that has seen no packet.
    pub fn new() -> (r: ReorderBuffer)
        ensures
            r@.wf(),
            r@.next is None,
            r@.pending.len() == 0,
    {
        let r = ReorderBuffer { next: None, pending: Vec::new() };
        assert(held_view(r.pending@) =~= Seq::<(u64, Seq<u8>)>::empty());
        r
    }

    /// How many packets wait for an earlier one.
    pub fn held(&self) -> (n: usize)
        ensures
            n == self@.pending.len(),
    {
        self.pending.len()
    }

    /// Forgets the held packets and the expected count, as when the decoder
    /// falls too far behind.
    pub fn flush(&mut self)
        ensures
            final(self)@.wf(),
            final(self)@.next is None,
            final(self)@.pending.len() == 0,
    {
        self.pending = Vec::new();
        assert(held_view(self.pending@) =~= Seq::<(u64, Seq<u8>)>::empty());
        self.next = None;
    }

    /// Takes in a packet; gives whether packets were given up as lost (the
    /// depacketizers then drop what they gather and a keyframe is asked
    /// for, before the released payloads are read), and the payloads now in
    /// order.
    pub fn push(&mut self, seq: u16, payload: Vec<u8>) -> (res: (bool, Vec<Vec<u8>>))
        ensures
            old(self)@.wf(),
            final(self)@.wf(),
            ({
                let r = reorder_push(old(self)@, seq, payload@);
                &&& final(self)@ == r.0
                &&& res.0 == r.1
                &&& buffers_view(res.1@) == r.2
            }),
    {
        proof {
            use_type_invariant(&*self);
        }
        let ghost m = self@;
        let ghost pv = payload@;
        let (next0, ext) = match self.next {
            None => (seq as u64, seq as u64),
            Some(n) => (n, seq_extend(n, seq)),
        };
        if ext < next0 {
            self.next = Some(next0);
            return (false, Vec::new());
        }
        let mut pending: Vec<(u64, Vec<u8>)> = Vec::new();
        std::mem::swap(&mut pending, &mut self.pending);
        assert(held_view(pending@) == m.pending);
        insert_held(&mut pending, ext, payload);
        let ghost p1 = held_view(pending@);
        proof {
            lemma_insert_sorted_keys(m.pending, ext, pv, next0);
        }
        let lost = pending.len() > 64;
        let next1 = if lost {
            pending[0].0
        } else {
            next0
        };
        proof {
            if lost {
                assert forall|j: int| 0 <= j < p1.len() implies #[trigger] p1[j].0 >= next1 by {
                    if j > 0 {
                        assert(p1[0].0 < p1[j].0);
                    }
                }
            }
            lemma_release(p1, next1);
        }
        let (n2, out) = release_held(&mut pending, next1);
        self.next = Some(n2);
        self.pending = pending;
        (lost, out)
    }
}

/// Where `k` goes in `p`: after the keys below it.
proof fn split_point(p: Seq<(u64, Seq<u8>)>, k: u64, from: int) -> (i: int)
    requires
        sorted_keys(p),
        0 <= from <= p.len(),
        forall|j: int| 0 <= j < from ==> #[trigger] p[j].0 < k,
    ensures
        from <= i <= p.len(),
        forall|j: int| 0 <= j < i ==> #[trigger] p[j].0 < k,
        i < p.len() ==> p[i].0 >= k,
    decreases p.len() - from,
{
    if from < p.len() && p[from].0 < k {
        split_point(p, k, from + 1)
    } else {
        from
    }
}

proof fn lemma_insert_sorted_keys(p: Seq<(u64, Seq<u8>)>, k: u64, v: Seq<u8>, lo: u64)
    requires
        sorted_keys(p),
        p.len() <= max_held(),
        k >= lo,
        forall|j: int| 0 <= j < p.len() ==> #[trigger] p[j].0 >= lo,
    ensures
        sorted_keys(insert_sorted(p, k, v)),
        insert_sorted(p, k, v).len() <= p.len() + 1,
        forall|j: int| 0 <= j < insert_sorted(p, k, v).len() ==> #[trigger] insert_sorted(p, k, v)[j].0 >= lo,
{
    let i = split_point(p, k, 0);
    lemma_insert_sorted(p, k, v, i);
    let q = insert_sorted(p, k, v);
    assert forall|j: int| 0 <= j < q.len() implies #[trigger] q[j].0 >= lo by {
        if q[j].0 != k {
            let l = choose|l: int| 0 <= l < p.len() && p[l].0 == q[j].0;
            assert(p[l].0 >= lo);
        }
    }
}

/// A packet that arrives ahead of a missing one waits for it; when the
/// missing one arrives, both come out in sequence order.
pub proof fn law_reorder_restores_order(n: u64, a: Seq<u8>, b: Seq<u8>)
    requires
        n + 2 <= u64::MAX,
        a.len() > 0,
        b.len() > 0,
    ensures
        ({
            let m0 = ReorderModel { next: Some(n), pending: Seq::empty() };
            let s1 = reorder_push(m0, ((n + 1) % 65536) as u16, b);
            let s2 = reorder_push(s1.0, (n % 65536) as u16, a);
            &&& s1.2.len() == 0
            &&& !s1.1
            &&& s2.2 == seq![a, b]
            &&& !s2.1
            &&& s2.0 == (ReorderModel { next: Some((n + 2) as u64), pending: Seq::empty() })
        }),
{
    let m0 = ReorderModel { next: Some(n), pending: Seq::empty() };
    let q1 = ((n + 1) % 65536) as u16;
    assert(seq_delta(n, q1) == 1);
    assert(extend_seq(n, q1) == n + 1);
    let s1 = reorder_push(m0, q1, b);
    let p1 = insert_sorted(Seq::<(u64, Seq<u8>)>::empty(), (n + 1) as u64, b);
    assert(p1 =~= seq![((n + 1) as u64, b)]);
    assert(release(p1, n) == (p1, n, Seq::<Seq<u8>>::empty()));
    let q0 = (n % 65536) as u16;
    assert(seq_delta(n, q0) == 0);
    assert(extend_seq(n, q0) == n);
    let p2 = insert_sorted(p1, n, a);
    assert(p2 =~= seq![(n, a), ((n + 1) as u64, b)]);
    assert(p2.drop_first() =~= seq![((n + 1) as u64, b)]);
    assert(p2.drop_first().drop_first() =~= Seq::<(u64, Seq<u8>)>::empty());
    let r2 = release(p2.drop_first().drop_first(), (n + 2) as u64);
    assert(r2 == (Seq::<(u64, Seq<u8>)>::empty(), (n + 2) as u64, Seq::<Seq<u8>>::empty()));
    let r1 = release(p2.drop_first(), (n + 1) as u64);
    assert(r1.2 =~= seq![b]);
    let r0 = release(p2, n);
    assert(r0.2 =~= seq![a, b]);
}

/// A packet from before the expected one (a late duplicate) is dropped and
/// changes nothing.
pub proof fn law_late_packet_dropped(m: ReorderModel, payload: Seq<u8>)
    requires
        m.next matches Some(n) && n >= 1,
    ensures
        ({
            let n = m.next->Some_0;
            let r = reorder_push(m, ((n - 1) % 65536) as u16, payload);
            &&& r.0 == m
            &&& !r.1
            &&& r.2.len() == 0
        }),
{
    let n = m.next->Some_0;
    let q = ((n - 1) % 65536) as u16;
    assert(seq_delta(n, q) == -1);
    assert(extend_seq(n, q) == n - 1);
}

/// Whether the bytes `s` begin with `p`.
pub open spec fn bytes_start_with(s: Seq<u8>, p: Seq<u8>) -> bool {
    p.len() <= s.len() && s.subrange(0, p.len() as int) == p
}

/// What goes to the decoder: a keyframe gets the cached parameter sets in
/// front unless it already starts with them.
pub open spec fn access_unit(config: Seq<u8>, buf: Seq<u8>, is_idr: bool) -> Seq<u8> {
    if is_idr && config.len() > 0 && !bytes_start_with(buf, config) {
        config + buf
    } else {
        buf
    }
}

/// What the H.264 receiver holds: the access unit being gathered, the
/// cached parameter sets (SPS, then PPS) behind start codes, whether any
/// was seen, whether it waits for a keyframe, whether it skips the rest of
/// a fragmented unit, and whether that unit is a keyframe slice.
#[verifier::ext_equal]
pub struct H264Model {
    pub buf: Seq<u8>,
    pub config: Seq<u8>,
    pub seen_config: bool,
    pub wait_for_idr: bool,
    pub dropping_fragment: bool,
    pub fragment_is_idr: bool,
}

/// What the receiver asks for after a unit.
pub enum UnitModel {
    Nothing,
    RequestKeyframe,
    Decode(Seq<u8>),
}

/// What the receiver asks for after a unit.
#[derive(Debug, PartialEq)]
pub enum UnitAction {
    Nothing,
    /// Ask the sender for a keyframe.
    RequestKeyframe,
    /// Hand these bytes to the decoder, then report how it went.
    Decode(Vec<u8>),
}

pub open spec fn action_view(a: UnitAction) -> UnitModel {
    match a {
        UnitAction::Nothing => UnitModel::Nothing,
        UnitAction::RequestKeyframe => UnitModel::RequestKeyframe,
        UnitAction::Decode(b) => UnitModel::Decode(b@),
    }
}

/// A whole NAL unit (single, or from an aggregation packet): parameter
/// sets are cached (an SPS starts the cache anew) and every unit joins the
/// access unit; a slice ends it: slices before the first decodable keyframe
/// are dropped, a keyframe before any parameter set is dropped and a
/// keyframe asked for, and any other slice goes to the decoder.
pub open spec fn nal_step(m: H264Model, nal: Seq<u8>) -> (H264Model, UnitModel) {
    let t = nal[0] & 0x1F;
    let is_config = t == 7 || t == 8;
    let is_vcl = 1 <= t <= 5;
    let is_idr = t == 5;
    let config = if is_config {
        (if t == 7 {
            Seq::empty()
        } else {
            m.config
        }) + start_code() + nal
    } else {
        m.config
    };
    let seen = m.seen_config || is_config;
    let buf = m.buf + start_code() + nal;
    let m1 = H264Model { buf, config, seen_config: seen, ..m };
    if !is_vcl {
        (m1, UnitModel::Nothing)
    } else if m.wait_for_idr && !is_idr {
        (H264Model { buf: Seq::empty(), ..m1 }, UnitModel::Nothing)
    } else if is_idr && !seen {
        (H264Model { buf: Seq::empty(), wait_for_idr: true, ..m1 }, UnitModel::RequestKeyframe)
    } else {
        (H264Model { buf: Seq::empty(), ..m1 }, UnitModel::Decode(access_unit(config, buf, is_idr)))
    }
}

/// The end of a fragmented unit hands it to the decoder.
pub open spec fn fragment_finish(m: H264Model, end: bool) -> (H264Model, UnitModel) {
    if end {
        (
            H264Model { dropping_fragment: false, buf: Seq::empty(), ..m },
            UnitModel::Decode(access_unit(m.config, m.buf, m.fragment_is_idr)),
        )
    } else {
        (m, UnitModel::Nothing)
    }
}

/// A fragmentation unit (FU-A, at least two bytes): its first fragment
/// starts the unit anew behind a start code and the rebuilt header (or
/// drops it, as slices are dropped, until its last fragment); a later one
/// extends it, unless the unit is being dropped or none was started; the
/// last one hands it to the decoder.
pub open spec fn fragment_step(m: H264Model, p: Seq<u8>) -> (H264Model, UnitModel) {
    let fu = p[1];
    let start = fu & 0x80 != 0;
    let end = fu & 0x40 != 0;
    let inner = fu & 0x1F;
    let body = p.subrange(2, p.len() as int);
    if start {
        let is_idr = inner == 5;
        let m0 = H264Model {
            fragment_is_idr: is_idr,
            dropping_fragment: false,
            buf: Seq::empty(),
            ..m
        };
        if m.wait_for_idr && !is_idr {
            (H264Model { dropping_fragment: true, ..m0 }, UnitModel::Nothing)
        } else if is_idr && !m.seen_config {
            (
                H264Model { dropping_fragment: true, wait_for_idr: true, ..m0 },
                UnitModel::RequestKeyframe,
            )
        } else {
            fragment_finish(
                H264Model { buf: start_code() + seq![(p[0] & 0xE0) | inner] + body, ..m0 },
                end,
            )
        }
    } else if m.dropping_fragment || m.buf.len() == 0 {
        (
            if end {
                H264Model { dropping_fragment: false, ..m }
            } else {
                m
            },
            UnitModel::Nothing,
        )
    } else {
        fragment_finish(H264Model { buf: m.buf + body, ..m }, end)
    }
}

/// Gathers H.264 access units for the decoder, holding them back until a
/// keyframe can be decoded.
pub struct H264Receiver {
    buf: Vec<u8>,
    config: Vec<u8>,
    seen_config: bool,
    wait_for_idr: bool,
    dropping_fragment: bool,
    fragment_is_idr: bool,
}

impl View for H264Receiver {
    type V = H264Model;

    closed spec fn view(&self) -> H264Model {
        H264Model {
            buf: self.buf@,
            config: self.config@,
            seen_config: self.seen_config,
            wait_for_idr: self.wait_for_idr,
            dropping_fragment: self.dropping_fragment,
            fragment_is_idr: self.fragment_is_idr,
        }
    }
}

fn append(v: &mut Vec<u8>, b: &[u8])
    ensures
        final(v)@ == old(v)@ + b@,
{
    let mut i: usize = 0;
    while i < b.len()
        invariant
            i <= b@.len(),
            v@ == old(v)@ + b@.take(i as int),
        decreases b@.len() - i,
    {
        v.push(b[i]);
        i = i + 1;
        assert(v@ =~= old(v)@ + b@.take(i as int));
    }
    assert(b@.take(b@.len() as int) =~= b@);
}

fn append_start_code(v: &mut Vec<u8>)
    ensures
        final(v)@ == old(v)@ + start_code(),
{
    v.push(0);
    v.push(0);
    v.push(0);
    v.push(1);
    assert(v@ =~= old(v)@ + start_code());
}

fn starts_with_bytes(s: &[u8], p: &[u8]) -> (res: bool)
    ensures
        res == bytes_start_with(s@, p@),
{
    if p.len() > s.len() {
        return false;
    }
    let mut i: usize = 0;
    while i < p.len()
        invariant
            p@.len() <= s@.len(),
            i <= p@.len(),
            s@.subrange(0, i as int) == p@.take(i as int),
        decreases p@.len() - i,
    {
        if s[i] != p[i] {
            assert(s@.subrange(0, p@.len() as int)[i as int] != p@[i as int]);
            return false;
        }
        i = i + 1;
        assert(s@.subrange(0, i as int) =~= p@.take(i as int));
    }
    assert(p@.take(p@.len() as int) =~= p@);
    true
}

fn access_unit_of(config: &Vec<u8>, buf: &Vec<u8>, is_idr: bool) -> (res: Vec<u8>)
    ensures
        res@ == access_unit(config@, buf@, is_idr),
{
    let mut out: Vec<u8> = Vec::new();
    if is_idr && config.len() > 0 && !starts_with_bytes(buf.as_slice(), config.as_slice()) {
        append(&mut out, config.as_slice());
    }
    append(&mut out, buf.as_slice());
    out
}

impl H264Receiver {
    /// A receiver that waits for a keyframe and has no parameter sets.
    pub fn new() -> (r: H264Receiver)
        ensures
            r@ == (H264Model {
                buf: Seq::empty(),
                config: Seq::empty(),
                seen_config: false,
                wait_for_idr: true,
                dropping_fragment: false,
                fragment_is_idr: false,
            }),
    {
        H264Receiver {
            buf: Vec::new(),
            config: Vec::new(),
            seen_config: false,
            wait_for_idr: true,
            dropping_fragment: false,
            fragment_is_idr: false,
        }
    }

    /// Takes a whole NAL unit.
    pub fn on_nal(&mut self, nal: &[u8]) -> (a: UnitAction)
        requires
            nal@.len() > 0,
        ensures
            (final(self)@, action_view(a)) == nal_step(old(self)@, nal@),
    {
        let t = nal[0] & 0x1F;
        let is_config = t == 7 || t == 8;
        let is_vcl = 1 <= t && t <= 5;
        let is_idr = t == 5;
        if is_config {
            if t == 7 {
                self.config = Vec::new();
            }
            self.seen_config = true;
            append_start_code(&mut self.config);
            append(&mut self.config, nal);
        }
        append_start_code(&mut self.buf);
        append(&mut self.buf, nal);
        if !is_vcl {
            return UnitAction::Nothing;
        }
        if self.wait_for_idr && !is_idr {
            self.buf = Vec::new();
            return UnitAction::Nothing;
        }
        if is_idr && !self.seen_config {
            self.buf = Vec::new();
            self.wait_for_idr = true;
            return UnitAction::RequestKeyframe;
        }
        let au = access_unit_of(&self.config, &self.buf, is_idr);
        self.buf = Vec::new();
        UnitAction::Decode(au)
    }

    fn finish_fragment(&mut self, end: bool) -> (a: UnitAction)
        ensures
            (final(self)@, action_view(a)) == fragment_finish(old(self)@, end),
    {
        if end {
            self.dropping_fragment = false;
            let au = access_unit_of(&self.config, &self.buf, self.fragment_is_idr);
            self.buf = Vec::new();
            UnitAction::Decode(au)
        } else {
            UnitAction::Nothing
        }
    }

    /// Takes a fragmentation unit (its whole RTP payload).
    pub fn on_fragment(&mut self, p: &[u8]) -> (a: UnitAction)
        requires
            p@.len() >= 2,
        ensures
            (final(self)@, action_view(a)) == fragment_step(old(self)@, p@),
    {
        let fu = p[1];
        let start = fu & 0x80 != 0;
        let end = fu & 0x40 != 0;
        let inner = fu & 0x1F;
        let body = slice_from(p, 2);
        if start {
            let is_idr = inner == 5;
            self.fragment_is_idr = is_idr;
            self.dropping_fragment = false;
            self.buf = Vec::new();
            if self.wait_for_idr && !is_idr {
                self.dropping_fragment = true;
                return UnitAction::Nothing;
            }
            if is_idr && !self.seen_config {
                self.dropping_fragment = true;
                self.wait_for_idr = true;
                return UnitAction::RequestKeyframe;
            }
            let hdr = (p[0] & 0xE0) | inner;
            append_start_code(&mut self.buf);
            self.buf.push(hdr);
            append(&mut self.buf, body.as_slice());
            assert(self.buf@ =~= start_code() + seq![hdr] + p@.subrange(2, p@.len() as int));
            self.finish_fragment(end)
        } else if self.dropping_fragment || self.buf.len() == 0 {
            if end {
                self.dropping_fragment = false;
            }
            UnitAction::Nothing
        } else {
            append(&mut self.buf, body.as_slice());
            self.finish_fragment(end)
        }
    }

    /// The decoder's verdict on the bytes last handed out: a failure makes
    /// the receiver wait for a keyframe again, and asks for one (the
    /// result); a success ends the wait.
    pub fn decoded(&mut self, ok: bool) -> (request_keyframe: bool)
        ensures
            final(self)@ == (H264Model { wait_for_idr: !ok, ..old(self)@ }),
            request_keyframe == !ok,
    {
        self.wait_for_idr = !ok;
        !ok
    }

    /// Packets were lost: the unit being gathered is dropped and the
    /// receiver waits for a keyframe; the parameter sets stay cached.
    pub fn on_loss(&mut self)
        ensures
            final(self)@ == (H264Model {
                buf: Seq::empty(),
                wait_for_idr: true,
                dropping_fragment: false,
                ..old(self)@
            }),
    {
        self.buf = Vec::new();
        self.wait_for_idr = true;
        self.dropping_fragment = false;
    }
}

fn slice_from(p: &[u8], from: usize) -> (res: Vec<u8>)
    requires
        from <= p@.len(),
    ensures
        res@ == p@.subrange(from as int, p@.len() as int),
{
    let mut v: Vec<u8> = Vec::new();
    let mut i = from;
    while i < p.len()
        invariant
            from <= i <= p@.len(),
            v@ == p@.subrange(from as int, i as int),
        decreases p@.len() - i,
    {
        v.push(p[i]);
        i = i + 1;
        assert(v@ =~= p@.subrange(from as int, i as int));
    }
    v
}

proof fn lemma_aggregated_nonempty(p: Seq<u8>, off: int)
    ensures
        forall|k: int|
            0 <= k < aggregated_units(p, off).len() ==> #[trigger] aggregated_units(p, off)[k].len() > 0,
    decreases p.len() - off,
{
    if off < 0 || off + 2 > p.len() {
    } else {
        let size = p[off] as int * 256 + p[off + 1] as int;
        let start = off + 2;
        if start + size > p.len() {
        } else if size == 0 {
            lemma_aggregated_nonempty(p, start);
        } else {
            lemma_aggregated_nonempty(p, start + size);
            let rest = aggregated_units(p, start + size);
            let all = aggregated_units(p, off);
            assert(all == seq![p.subrange(start, start + size)] + rest);
            assert forall|k: int| 0 <= k < all.len() implies #[trigger] all[k].len() > 0 by {
                if k > 0 {
                    assert(all[k] == rest[k - 1]);
                }
            }
        }
    }
}

/// How an H.264 RTP payload is read: whole NAL units (a single one, types
/// 1 to 23, or those of an aggregation packet, type 24), a fragmentation
/// unit (type 28, at least two bytes), or nothing usable.
pub enum H264Payload {
    Units(Vec<Vec<u8>>),
    Fragment,
    Ignored,
}

pub open spec fn h264_units(p: Seq<u8>) -> Option<Seq<Seq<u8>>> {
    if p.len() == 0 {
        None
    } else {
        let t = p[0] & 0x1F;
        if 1 <= t <= 23 {
            Some(seq![p])
        } else if t == 24 {
            Some(aggregated_units(p, 1))
        } else {
            None
        }
    }
}

pub open spec fn h264_fragment(p: Seq<u8>) -> bool {
    p.len() >= 2 && p[0] & 0x1F == 28
}

/// Reads an H.264 RTP payload; every unit it gives is non-empty.
pub fn classify_h264(p: &[u8]) -> (res: H264Payload)
    ensures
        match res {
            H264Payload::Units(u) => h264_units(p@) == Some(buffers_view(u@)) && forall|k: int|
                0 <= k < u@.len() ==> (#[trigger] u@[k])@.len() > 0,
            H264Payload::Fragment => h264_units(p@) is None && h264_fragment(p@),
            H264Payload::Ignored => h264_units(p@) is None && !h264_fragment(p@),
        },
{
    if p.len() == 0 {
        return H264Payload::Ignored;
    }
    let t = p[0] & 0x1F;
    if 1 <= t && t <= 23 {
        let mut v: Vec<Vec<u8>> = Vec::new();
        v.push(slice_from(p, 0));
        assert(p@.subrange(0, p@.len() as int) =~= p@);
        assert(buffers_view(v@) =~= seq![p@]);
        H264Payload::Units(v)
    } else if t == 24 {
        let u = aggregated(p, 1);
        proof {
            lemma_aggregated_nonempty(p@, 1);
            assert forall|k: int| 0 <= k < u@.len() implies (#[trigger] u@[k])@.len() > 0 by {
                assert(buffers_view(u@)[k] == u@[k]@);
            }
        }
        H264Payload::Units(u)
    } else if t == 28 && p.len() >= 2 {
        H264Payload::Fragment
    } else {
        H264Payload::Ignored
    }
}

/// While the receiver waits for a keyframe, a whole slice reaches the
/// decoder only if it is a keyframe and parameter sets are known; and a
/// keyframe reaches it with the parameter sets in front.
pub proof fn law_keyframe_gate(m: H264Model, nal: Seq<u8>)
    requires
        nal.len() > 0,
    ensures
        ({
            let r = nal_step(m, nal);
            let t = nal[0] & 0x1F;
            &&& (m.wait_for_idr && r.1 is Decode) ==> t == 5 && r.0.seen_config
            &&& r.1 matches UnitModel::Decode(au) ==> (t == 5 ==> bytes_start_with(au, r.0.config))
        }),
{
    let r = nal_step(m, nal);
    let t = nal[0] & 0x1F;
    if let UnitModel::Decode(au) = r.1 {
        if t == 5 {
            let buf = m.buf + start_code() + nal;
            if r.0.config.len() > 0 && !bytes_start_with(buf, r.0.config) {
                assert((r.0.config + buf).subrange(0, r.0.config.len() as int) =~= r.0.config);
            } else if r.0.config.len() == 0 {
                assert(au.subrange(0, 0) =~= r.0.config);
            }
        }
    }
}

/// An H.265 NAL unit joins the access unit; a slice (types up to 31) hands
/// the unit to the decoder.
pub open spec fn h265_nal_step(buf: Seq<u8>, nal: Seq<u8>) -> (Seq<u8>, Option<Seq<u8>>) {
    let b = buf + start_code() + nal;
    if (nal[0] & 0x7E) >> 1u8 <= 31 {
        (Seq::empty(), Some(b))
    } else {
        (b, None)
    }
}

/// An H.265 fragmentation unit (at least three bytes): the first fragment
/// adds a start code and the rebuilt two-byte header, every fragment adds
/// its body, and the last hands the unit to the decoder.
pub open spec fn h265_fragment_step(buf: Seq<u8>, p: Seq<u8>) -> (Seq<u8>, Option<Seq<u8>>) {
    let fu = p[2];
    let body = p.subrange(3, p.len() as int);
    let b = if fu & 0x80 != 0 {
        buf + start_code() + seq![(p[0] & 0x81) | ((fu & 0x3F) << 1u8), p[1]] + body
    } else {
        buf + body
    };
    if fu & 0x40 != 0 {
        (Seq::empty(), Some(b))
    } else {
        (b, None)
    }
}

/// How an H.265 RTP payload is read: whole NAL units (a single one, types
/// up to 47, or those of an aggregation packet, type 48), a fragmentation
/// unit (type 49, at least three bytes), or nothing usable.
pub open spec fn h265_units(p: Seq<u8>) -> Option<Seq<Seq<u8>>> {
    if p.len() == 0 {
        None
    } else {
        let t = (p[0] & 0x7E) >> 1u8;
        if t <= 47 {
            Some(seq![p])
        } else if t == 48 {
            Some(aggregated_units(p, 2))
        } else {
            None
        }
    }
}

pub open spec fn h265_fragment(p: Seq<u8>) -> bool {
    p.len() >= 3 && (p[0] & 0x7E) >> 1u8 == 49
}

/// Reads an H.265 RTP payload; every unit it gives is non-empty.
pub fn classify_h265(p: &[u8]) -> (res: H264Payload)
    ensures
        match res {
            H264Payload::Units(u) => h265_units(p@) == Some(buffers_view(u@)) && forall|k: int|
                0 <= k < u@.len() ==> (#[trigger] u@[k])@.len() > 0,
            H264Payload::Fragment => h265_units(p@) is None && h265_fragment(p@),
            H264Payload::Ignored => h265_units(p@) is None && !h265_fragment(p@),
        },
{
    if p.len() == 0 {
        return H264Payload::Ignored;
    }
    let t = (p[0] & 0x7E) >> 1u8;
    if t <= 47 {
        let mut v: Vec<Vec<u8>> = Vec::new();
        v.push(slice_from(p, 0));
        assert(p@.subrange(0, p@.len() as int) =~= p@);
        assert(buffers_view(v@) =~= seq![p@]);
        H264Payload::Units(v)
    } else if t == 48 {
        let u = aggregated(p, 2);
        proof {
            lemma_aggregated_nonempty(p@, 2);
            assert forall|k: int| 0 <= k < u@.len() implies (#[trigger] u@[k])@.len() > 0 by {
                assert(buffers_view(u@)[k] == u@[k]@);
            }
        }
        H264Payload::Units(u)
    } else if t == 49 && p.len() >= 3 {
        H264Payload::Fragment
    } else {
        H264Payload::Ignored
    }
}

/// Gathers H.265 access units for the decoder.
pub struct H265Receiver {
    buf: Vec<u8>,
}

impl View for H265Receiver {
    type V = Seq<u8>;

    closed spec fn view(&self) -> Seq<u8> {
        self.buf@
    }
}

fn copy_of(v: &Vec<u8>) -> (res: Vec<u8>)
    ensures
        res@ == v@,
{
    let mut out: Vec<u8> = Vec::new();
    append(&mut out, v.as_slice());
    assert(out@ =~= v@);
    out
}

impl H265Receiver {
    pub fn new() -> (r: H265Receiver)
        ensures
            r@ == Seq::<u8>::empty(),
    {
        H265Receiver { buf: Vec::new() }
    }

    /// Takes a whole NAL unit; gives the access unit to decode, if it ends.
    pub fn on_nal(&mut self, nal: &[u8]) -> (res: Option<Vec<u8>>)
        requires
            nal@.len() > 0,
        ensures
            (final(self)@, match res {
                Some(b) => Some(b@),
                None => None,
            }) == h265_nal_step(old(self)@, nal@),
    {
        append_start_code(&mut self.buf);
        append(&mut self.buf, nal);
        if (nal[0] & 0x7E) >> 1u8 <= 31 {
            let au = copy_of(&self.buf);
            self.buf = Vec::new();
            Some(au)
        } else {
            None
        }
    }

    /// Takes a fragmentation unit (its whole RTP payload).
    pub fn on_fragment(&mut self, p: &[u8]) -> (res: Option<Vec<u8>>)
        requires
            p@.len() >= 3,
        ensures
            (final(self)@, match res {
                Some(b) => Some(b@),
                None => None,
            }) == h265_fragment_step(old(self)@, p@),
    {
        let fu = p[2];
        let body = slice_from(p, 3);
        if fu & 0x80 != 0 {
            let h1 = (p[0] & 0x81) | ((fu & 0x3F) << 1u8);
            append_start_code(&mut self.buf);
            self.buf.push(h1);
            self.buf.push(p[1]);
        }
        append(&mut self.buf, body.as_slice());
        if fu & 0x40 != 0 {
            let au = copy_of(&self.buf);
            self.buf = Vec::new();
            Some(au)
        } else {
            None
        }
    }

    /// Packets were lost: the unit being gathered is dropped.
    pub fn on_loss(&mut self)
        ensures
            final(self)@ == Seq::<u8>::empty(),
    {
        self.buf = Vec::new();
    }
}

/// The OBU elements of an AV1 payload whose elements all carry a length,
/// from `off` on, each with whether it ends the packet; the walk stops at a
/// length that does not read or runs past the end.
pub open spec fn av1_sized_elements(p: Seq<u8>, off: int) -> Seq<(Seq<u8>, bool)>
    decreases p.len() - off,
{
    if off < 0 || off >= p.len() {
        Seq::empty()
    } else {
        match av1_length(p, off) {
            None => Seq::empty(),
            Some((size, start)) => if start + size > p.len() || start <= off {
                Seq::empty()
            } else {
                let end = start + size;
                seq![(p.subrange(start, end), end >= p.len())] + av1_sized_elements(p, end)
            },
        }
    }
}

/// The elements of an AV1 payload that counts `w` of them, from element
/// `i` at `off` on: all but the last carry a length; the last runs to the
/// end (and is skipped when nothing is left).
pub open spec fn av1_counted_elements(p: Seq<u8>, off: int, i: int, w: int) -> Seq<(Seq<u8>, bool)>
    decreases w - i,
{
    if i >= w || off < 0 {
        Seq::empty()
    } else if i == w - 1 {
        if off < p.len() {
            seq![(p.subrange(off, p.len() as int), true)]
        } else {
            Seq::empty()
        }
    } else {
        match av1_length(p, off) {
            None => Seq::empty(),
            Some((size, start)) => if start + size > p.len() {
                Seq::empty()
            } else {
                seq![(p.subrange(start, start + size), false)] + av1_counted_elements(
                    p,
                    start + size,
                    i + 1,
                    w,
                )
            },
        }
    }
}

/// The OBU elements of an AV1 RTP payload, after its aggregation header
/// (whose `w` counts them, 0 when each carries a length).
pub open spec fn av1_elements(p: Seq<u8>) -> Seq<(Seq<u8>, bool)> {
    if p.len() == 0 {
        Seq::empty()
    } else {
        let w = (p[0] & 0x30) >> 4u8;
        if w == 0 {
            av1_sized_elements(p, 1)
        } else {
            av1_counted_elements(p, 1, 0, w as int)
        }
    }
}

/// Each element's bytes and whether it ends the packet.
pub open spec fn elements_view(v: Seq<(Vec<u8>, bool)>) -> Seq<(Seq<u8>, bool)> {
    v.map_values(|e: (Vec<u8>, bool)| (e.0@, e.1))
}

fn push_element(out: &mut Vec<(Vec<u8>, bool)>, p: &[u8], from: usize, to: usize, last: bool)
    requires
        from <= to <= p@.len(),
    ensures
        elements_view(final(out)@) == elements_view(old(out)@).push(
            (p@.subrange(from as int, to as int), last),
        ),
{
    let mut e: Vec<u8> = Vec::new();
    let mut i = from;
    while i < to
        invariant
            from <= i <= to <= p@.len(),
            e@ == p@.subrange(from as int, i as int),
        decreases to - i,
    {
        e.push(p[i]);
        i = i + 1;
        assert(e@ =~= p@.subrange(from as int, i as int));
    }
    let ghost before = elements_view(out@);
    out.push((e, last));
    assert(elements_view(out@) =~= before.push((p@.subrange(from as int, to as int), last)));
}

/// The OBU elements of an AV1 RTP payload.
pub fn av1_payload_elements(p: &[u8]) -> (res: Vec<(Vec<u8>, bool)>)
    ensures
        elements_view(res@) == av1_elements(p@),
{
    let mut out: Vec<(Vec<u8>, bool)> = Vec::new();
    let n = p.len();
    if n == 0 {
        assert(elements_view(out@) =~= Seq::<(Seq<u8>, bool)>::empty());
        return out;
    }
    let h = p[0];
    let w = (h & 0x30) >> 4u8;
    assert((h & 0x30) >> 4u8 <= 3) by (bit_vector);
    let mut off: usize = 1;
    let mut done = false;
    if w == 0 {
        while off < n && !done
            invariant
                n == p@.len(),
                1 <= off,
                elements_view(out@) + av1_sized_elements(p@, off as int) == av1_sized_elements(p@, 1),
                done ==> av1_sized_elements(p@, off as int) == Seq::<(Seq<u8>, bool)>::empty(),
            decreases n - off, (if done { 0int } else { 1int }),
        {
            match read_av1_length(p, off) {
                None => {
                    done = true;
                },
                Some((size, start)) => {
                    if start <= off || size > (n - start) as u64 {
                        done = true;
                    } else {
                        let end = start + size as usize;
                        let ghost before = elements_view(out@);
                        push_element(&mut out, p, start, end, end >= n);
                        proof {
                            let rest = av1_sized_elements(p@, end as int);
                            let e = (p@.subrange(start as int, end as int), end >= n);
                            assert(before.push(e) + rest =~= before + (seq![e] + rest));
                        }
                        off = end;
                    }
                },
            }
        }
        assert(elements_view(out@) + Seq::<(Seq<u8>, bool)>::empty() =~= elements_view(out@));
        out
    } else {
        let mut i: u8 = 0;
        while i < w && !done
            invariant
                n == p@.len(),
                1 <= w <= 3,
                i <= w,
                elements_view(out@) + av1_counted_elements(p@, off as int, i as int, w as int)
                    == av1_counted_elements(p@, 1, 0, w as int),
                done ==> av1_counted_elements(p@, off as int, i as int, w as int) == Seq::<
                    (Seq<u8>, bool),
                >::empty(),
                !done ==> off <= n,
            decreases w - i, (if done { 0int } else { 1int }),
        {
            let ghost before = elements_view(out@);
            if i == w - 1 {
                if off < n {
                    push_element(&mut out, p, off, n, true);
                    proof {
                        let e = (p@.subrange(off as int, n as int), true);
                        assert(av1_counted_elements(p@, off as int, i as int, w as int) == seq![e]);
                        assert(av1_counted_elements(p@, n as int, (i + 1) as int, w as int)
                            == Seq::<(Seq<u8>, bool)>::empty());
                        assert(before.push(e) + Seq::<(Seq<u8>, bool)>::empty() =~= before
                            + seq![e]);
                    }
                    off = n;
                    i = i + 1;
                } else {
                    done = true;
                }
            } else {
                match read_av1_length(p, off) {
                    None => {
                        done = true;
                    },
                    Some((size, start)) => {
                        if size > (n - start) as u64 {
                            done = true;
                        } else {
                            let end = start + size as usize;
                            push_element(&mut out, p, start, end, false);
                            proof {
                                let e = (p@.subrange(start as int, end as int), false);
                                let rest = av1_counted_elements(p@, end as int, (i + 1) as int, w as int);
                                assert(before.push(e) + rest =~= before + (seq![e] + rest));
                            }
                            off = end;
                            i = i + 1;
                        }
                    },
                }
            }
        }
        assert(elements_view(out@) + Seq::<(Seq<u8>, bool)>::empty() =~= elements_view(out@));
        out
    }
}

/// The aggregation header's `z` (the first element continues an open OBU)
/// and `y` (the last element leaves one open).
pub fn av1_flags(p: &[u8]) -> (res: (bool, bool))
    requires
        p@.len() > 0,
    ensures
        res == (p@[0] & 0x80 != 0, p@[0] & 0x40 != 0),
{
    (p[0] & 0x80 != 0, p[0] & 0x40 != 0)
}

/// Before an element: unless it continues the open OBU (the first element
/// with `z` set), the OBU gathered so far, if any, goes to the decoder.
pub open spec fn av1_pending(buf: Seq<u8>, first: bool, z: bool) -> Option<Seq<u8>> {
    if !(first && z) && buf.len() > 0 {
        Some(buf)
    } else {
        None
    }
}

/// The element joins the OBU, which a failed decode of it (`pending_ok`
/// false) emptied first; unless it is the last element and `y` is set, the
/// OBU goes to the decoder. A decoded OBU is kept.
pub open spec fn av1_join(
    buf: Seq<u8>,
    e: Seq<u8>,
    first: bool,
    z: bool,
    last: bool,
    y: bool,
    pending_ok: bool,
) -> (Seq<u8>, Option<Seq<u8>>) {
    let b0 = if av1_pending(buf, first, z) is Some && !pending_ok {
        Seq::empty()
    } else {
        buf
    };
    let b1 = b0 + e;
    (b1, if last && y {
        None
    } else {
        Some(b1)
    })
}

/// Gathers AV1 OBUs for the decoder.
pub struct Av1Receiver {
    buf: Vec<u8>,
}

impl View for Av1Receiver {
    type V = Seq<u8>;

    closed spec fn view(&self) -> Seq<u8> {
        self.buf@
    }
}

impl Av1Receiver {
    pub fn new() -> (r: Av1Receiver)
        ensures
            r@ == Seq::<u8>::empty(),
    {
        Av1Receiver { buf: Vec::new() }
    }

    /// What goes to the decoder before an element.
    pub fn pending(&self, first: bool, z: bool) -> (res: Option<Vec<u8>>)
        ensures
            match res {
                Some(b) => av1_pending(self@, first, z) == Some(b@),
                None => av1_pending(self@, first, z) is None,
            },
    {
        if !(first && z) && self.buf.len() > 0 {
            Some(copy_of(&self.buf))
        } else {
            None
        }
    }

    /// Adds an element, told how the decode of what `pending` gave went
    /// (true when there was none); gives what goes to the decoder next.
    pub fn join(
        &mut self,
        e: &[u8],
        first: bool,
        z: bool,
        last: bool,
        y: bool,
        pending_ok: bool,
    ) -> (res: Option<Vec<u8>>)
        ensures
            (final(self)@, match res {
                Some(b) => Some(b@),
                None => None,
            }) == av1_join(old(self)@, e@, first, z, last, y, pending_ok),
    {
        if !(first && z) && self.buf.len() > 0 && !pending_ok {
            self.buf = Vec::new();
        }
        append(&mut self.buf, e);
        if last && y {
            None
        } else {
            Some(copy_of(&self.buf))
        }
    }

    /// The decoder's verdict on what `join` gave: a failure empties the OBU.
    pub fn decoded(&mut self, ok: bool)
        ensures
            final(self)@ == (if ok {
                old(self)@
            } else {
                Seq::<u8>::empty()
            }),
    {
        if !ok {
            self.buf = Vec::new();
        }
    }

    /// Packets were lost: the OBU being gathered is dropped.
    pub fn on_loss(&mut self)
        ensures
            final(self)@ == Seq::<u8>::empty(),
    {
        self.buf = Vec::new();
    }
}

/// Whether the decoder has fallen too far behind the network: more than
/// 150 packets wait for it, and the queue is flushed.
pub fn decoder_lagging(queued: usize) -> (res: bool)
    ensures
        res == (queued > 150),
{
    queued > 150
}

/// Spaces out the client's keyframe requests: one goes out only when more
/// than half a second has passed since the last (or since the stream
/// started).
pub struct KeyframeRequests {
    pub last_ms: u64,
}

impl KeyframeRequests {
    pub fn new(now_ms: u64) -> (k: KeyframeRequests)
        ensures
            k.last_ms == now_ms,
    {
        KeyframeRequests { last_ms: now_ms }
    }

    /// Whether a request made now goes out; if so it becomes the last.
    pub fn request(&mut self, now_ms: u64) -> (sent: bool)
        ensures
            sent == (elapsed(now_ms, old(self).last_ms) > 500),
            final(self).last_ms == (if sent {
                now_ms
            } else {
                old(self).last_ms
            }),
    {
        if elapsed_ms(now_ms, self.last_ms) > 500 {
            self.last_ms = now_ms;
            true
        } else {
            false
        }
    }
}

} // verus!
