//! Turning the payloads of H.264 and H.265 RTP packets back into Annex B
//! NAL units for the decoder: single units, aggregation packets, and
//! fragmentation units reassembled across packets.

use vstd::prelude::*;

verus! {

/// The Annex B start code put before each NAL unit.
pub open spec fn start_code() -> Seq<u8> {
    seq![0u8, 0u8, 0u8, 1u8]
}

/// The NAL units of an aggregation packet from byte `off` on: each a
/// two-byte big-endian size and that many bytes; the walk stops at a size
/// that runs past the end; empty units are skipped.
pub open spec fn aggregated_units(p: Seq<u8>, off: int) -> Seq<Seq<u8>>
    decreases p.len() - off,
{
    if off < 0 || off + 2 > p.len() {
        Seq::empty()
    } else {
        let size = p[off] as int * 256 + p[off + 1] as int;
        let start = off + 2;
        if start + size > p.len() {
            Seq::empty()
        } else if size == 0 {
            aggregated_units(p, start)
        } else {
            seq![p.subrange(start, start + size)] + aggregated_units(p, start + size)
        }
    }
}

/// Each unit behind a start code.
pub open spec fn with_start_codes(units: Seq<Seq<u8>>) -> Seq<Seq<u8>> {
    units.map_values(|u: Seq<u8>| start_code() + u)
}

/// The bytes of each buffer.
pub open spec fn buffers_view(v: Seq<Vec<u8>>) -> Seq<Seq<u8>> {
    v.map_values(|b: Vec<u8>| b@)
}

/// What an aggregation packet gives: its units behind start codes, and the
/// reassembly buffer left holding the last of them (unchanged when none).
pub open spec fn aggregation_step(buf: Seq<u8>, p: Seq<u8>, first: int) -> (Seq<u8>, Seq<Seq<u8>>) {
    let units = with_start_codes(aggregated_units(p, first));
    (if units.len() == 0 {
        buf
    } else {
        units.last()
    }, units)
}

/// What a fragment gives: a fragment with the start bit begins a new unit
/// behind a start code and the rebuilt header; any other fragment extends
/// the unit being reassembled; a fragment with the end bit hands the unit
/// to the decoder.
pub open spec fn fragment_step(buf: Seq<u8>, header: Seq<u8>, fu: u8, body: Seq<u8>) -> (
    Seq<u8>,
    Seq<Seq<u8>>,
) {
    let nb = if fu & 0x80 != 0 {
        start_code() + header + body
    } else {
        buf + body
    };
    (nb, if fu & 0x40 != 0 {
        seq![nb]
    } else {
        Seq::empty()
    })
}

/// What one H.264 RTP payload gives, with the reassembly buffer before and
/// after: a single NAL unit (types 1 to 23) is decoded as is; a STAP-A (24)
/// gives its units; an FU-A (28) adds to the unit being reassembled; other
/// payloads, and empty ones, give nothing.
pub open spec fn h264_step(buf: Seq<u8>, p: Seq<u8>) -> (Seq<u8>, Seq<Seq<u8>>) {
    if p.len() == 0 {
        (buf, Seq::empty())
    } else {
        let t = p[0] & 0x1F;
        if 1 <= t <= 23 {
            (start_code() + p, seq![start_code() + p])
        } else if t == 24 {
            aggregation_step(buf, p, 1)
        } else if t == 28 {
            if p.len() < 2 {
                (buf, Seq::empty())
            } else {
                fragment_step(
                    buf,
                    seq![(p[0] & 0xE0) | (p[1] & 0x1F)],
                    p[1],
                    p.subrange(2, p.len() as int),
                )
            }
        } else {
            (buf, Seq::empty())
        }
    }
}

/// What one H.265 RTP payload gives: a single NAL unit (types up to 47) is
/// decoded as is; an aggregation packet (48) gives its units; a
/// fragmentation unit (49) adds to the unit being reassembled; other
/// payloads, and empty ones, give nothing.
pub open spec fn h265_step(buf: Seq<u8>, p: Seq<u8>) -> (Seq<u8>, Seq<Seq<u8>>) {
    if p.len() == 0 {
        (buf, Seq::empty())
    } else {
        let t = (p[0] & 0x7E) >> 1u8;
        if t <= 47 {
            (start_code() + p, seq![start_code() + p])
        } else if t == 48 {
            aggregation_step(buf, p, 2)
        } else if t == 49 {
            if p.len() < 3 {
                (buf, Seq::empty())
            } else {
                fragment_step(
                    buf,
                    seq![(p[0] & 0x81) | ((p[2] & 0x3F) << 1u8), p[1]],
                    p[2],
                    p.subrange(3, p.len() as int),
                )
            }
        } else {
            (buf, Seq::empty())
        }
    }
}

fn start_code_then(bytes: &[u8], from: usize) -> (res: Vec<u8>)
    requires
        from <= bytes@.len(),
    ensures
        res@ == start_code() + bytes@.subrange(from as int, bytes@.len() as int),
{
    let mut v: Vec<u8> = Vec::new();
    v.push(0);
    v.push(0);
    v.push(0);
    v.push(1);
    extend_from(&mut v, bytes, from, bytes.len());
    assert(v@ =~= start_code() + bytes@.subrange(from as int, bytes@.len() as int));
    v
}

fn extend_from(v: &mut Vec<u8>, bytes: &[u8], from: usize, to: usize)
    requires
        from <= to <= bytes@.len(),
    ensures
        final(v)@ == old(v)@ + bytes@.subrange(from as int, to as int),
{
    let mut i = from;
    while i < to
        invariant
            from <= i <= to <= bytes@.len(),
            v@ == old(v)@ + bytes@.subrange(from as int, i as int),
        decreases to - i,
    {
        v.push(bytes[i]);
        i = i + 1;
        assert(v@ =~= old(v)@ + bytes@.subrange(from as int, i as int));
    }
}

fn copy_bytes(v: &Vec<u8>) -> (res: Vec<u8>)
    ensures
        res@ == v@,
{
    let mut out: Vec<u8> = Vec::new();
    extend_from(&mut out, v.as_slice(), 0, v.len());
    assert(out@ =~= v@);
    out
}

proof fn lemma_aggregated_tail(p: Seq<u8>, off: int)
    requires
        0 <= off,
        off + 2 <= p.len(),
        off + 2 + (p[off] as int * 256 + p[off + 1] as int) <= p.len(),
    ensures
        ({
            let size = p[off] as int * 256 + p[off + 1] as int;
            aggregated_units(p, off) == if size == 0 {
                aggregated_units(p, off + 2)
            } else {
                seq![p.subrange(off + 2, off + 2 + size)] + aggregated_units(p, off + 2 + size)
            }
        }),
{
}

/// The units of an aggregation packet from byte `first` on.
pub fn aggregated(p: &[u8], first: usize) -> (res: Vec<Vec<u8>>)
    requires
        first <= 2,
    ensures
        buffers_view(res@) == aggregated_units(p@, first as int),
{
    let mut out: Vec<Vec<u8>> = Vec::new();
    let mut off = first;
    let mut done = false;
    let n = p.len();
    while off <= n && n - off >= 2 && !done
        invariant
            n == p@.len(),
            first <= off,
            off <= n + 2,
            buffers_view(out@) + aggregated_units(p@, off as int) == aggregated_units(
                p@,
                first as int,
            ),
            done ==> aggregated_units(p@, off as int) == Seq::<Seq<u8>>::empty(),
        decreases n + 2 - off, (if done { 0int } else { 1int }),
    {
        let size = (p[off] as usize) * 256 + (p[off + 1] as usize);
        let start = off + 2;
        if size > n - start {
            done = true;
        } else {
            proof {
                lemma_aggregated_tail(p@, off as int);
            }
            if size > 0 {
                let mut unit: Vec<u8> = Vec::new();
                extend_from(&mut unit, p, start, start + size);
                let ghost before = buffers_view(out@);
                out.push(unit);
                proof {
                    let u = p@.subrange(start as int, start + size);
                    assert(buffers_view(out@) =~= before.push(u));
                    let rest = aggregated_units(p@, start + size);
                    assert(before.push(u) + rest =~= before + (seq![u] + rest));
                }
            }
            off = start + size;
        }
    }
    assert(buffers_view(out@) + Seq::<Seq<u8>>::empty() =~= buffers_view(out@));
    out
}

/// The units of an aggregation packet from byte `first` on, each behind a
/// start code; the buffer is left holding the last one.
fn aggregation(buf: &mut Vec<u8>, p: &[u8], first: usize) -> (res: Vec<Vec<u8>>)
    requires
        first <= 2,
    ensures
        (final(buf)@, buffers_view(res@)) == aggregation_step(old(buf)@, p@, first as int),
{
    let units = aggregated(p, first);
    let ghost us = buffers_view(units@);
    let mut out: Vec<Vec<u8>> = Vec::new();
    let mut i: usize = 0;
    while i < units.len()
        invariant
            i <= units@.len(),
            us == buffers_view(units@),
            us == aggregated_units(p@, first as int),
            buffers_view(out@) == with_start_codes(us.take(i as int)),
        decreases units@.len() - i,
    {
        let u = start_code_then(units[i].as_slice(), 0);
        assert(units[i as int]@.subrange(0, units[i as int]@.len() as int) =~= units[i as int]@);
        let ghost before = buffers_view(out@);
        out.push(u);
        assert(buffers_view(out@) =~= before.push(start_code() + us[i as int]));
        assert(us.take(i + 1) =~= us.take(i as int).push(us[i as int]));
        assert(with_start_codes(us.take(i + 1)) =~= with_start_codes(us.take(i as int)).push(
            start_code() + us[i as int],
        ));
        i = i + 1;
    }
    assert(us.take(us.len() as int) =~= us);
    if out.len() > 0 {
        let last = copy_bytes(&out[out.len() - 1]);
        *buf = last;
    }
    out
}

/// The unit a fragment belongs to: a new one behind a start code and the
/// rebuilt header when the start bit is set, else the buffer extended; it
/// is handed out when the end bit is set.
fn fragment(buf: &mut Vec<u8>, header: &[u8], fu: u8, p: &[u8], body_from: usize) -> (res: Vec<
    Vec<u8>,
>)
    requires
        body_from <= p@.len(),
    ensures
        (final(buf)@, buffers_view(res@)) == fragment_step(
            old(buf)@,
            header@,
            fu,
            p@.subrange(body_from as int, p@.len() as int),
        ),
{
    if fu & 0x80 != 0 {
        let mut v: Vec<u8> = Vec::new();
        v.push(0);
        v.push(0);
        v.push(0);
        v.push(1);
        extend_from(&mut v, header, 0, header.len());
        extend_from(&mut v, p, body_from, p.len());
        assert(header@.subrange(0, header@.len() as int) =~= header@);
        assert(v@ =~= start_code() + header@ + p@.subrange(body_from as int, p@.len() as int));
        *buf = v;
    } else {
        extend_from(buf, p, body_from, p.len());
    }
    let mut out: Vec<Vec<u8>> = Vec::new();
    if fu & 0x40 != 0 {
        out.push(copy_bytes(buf));
        assert(buffers_view(out@) =~= seq![buf@]);
    } else {
        assert(buffers_view(out@) =~= Seq::<Seq<u8>>::empty());
    }
    out
}

/// The Annex B units one H.264 RTP payload completes, in order; `buf`
/// carries the unit being reassembled from packet to packet.
pub fn push_h264(buf: &mut Vec<u8>, p: &[u8]) -> (res: Vec<Vec<u8>>)
    ensures
        (final(buf)@, buffers_view(res@)) == h264_step(old(buf)@, p@),
{
    let mut out: Vec<Vec<u8>> = Vec::new();
    if p.len() == 0 {
        assert(buffers_view(out@) =~= Seq::<Seq<u8>>::empty());
        return out;
    }
    let t = p[0] & 0x1F;
    if 1 <= t && t <= 23 {
        let unit = start_code_then(p, 0);
        assert(p@.subrange(0, p@.len() as int) =~= p@);
        *buf = copy_bytes(&unit);
        out.push(unit);
        assert(buffers_view(out@) =~= seq![start_code() + p@]);
        out
    } else if t == 24 {
        aggregation(buf, p, 1)
    } else if t == 28 {
        if p.len() < 2 {
            assert(buffers_view(out@) =~= Seq::<Seq<u8>>::empty());
            return out;
        }
        let header = [(p[0] & 0xE0) | (p[1] & 0x1F)];
        let hs: &[u8] = &header;
        assert(hs@ =~= seq![(p@[0] & 0xE0) | (p@[1] & 0x1F)]);
        fragment(buf, hs, p[1], p, 2)
    } else {
        assert(buffers_view(out@) =~= Seq::<Seq<u8>>::empty());
        out
    }
}

/// The Annex B units one H.265 RTP payload completes, in order; `buf`
/// carries the unit being reassembled from packet to packet.
pub fn push_h265(buf: &mut Vec<u8>, p: &[u8]) -> (res: Vec<Vec<u8>>)
    ensures
        (final(buf)@, buffers_view(res@)) == h265_step(old(buf)@, p@),
{
    let mut out: Vec<Vec<u8>> = Vec::new();
    if p.len() == 0 {
        assert(buffers_view(out@) =~= Seq::<Seq<u8>>::empty());
        return out;
    }
    let t = (p[0] & 0x7E) >> 1u8;
    if t <= 47 {
        let unit = start_code_then(p, 0);
        assert(p@.subrange(0, p@.len() as int) =~= p@);
        *buf = copy_bytes(&unit);
        out.push(unit);
        assert(buffers_view(out@) =~= seq![start_code() + p@]);
        out
    } else if t == 48 {
        aggregation(buf, p, 2)
    } else if t == 49 {
        if p.len() < 3 {
            assert(buffers_view(out@) =~= Seq::<Seq<u8>>::empty());
            return out;
        }
        let header = [(p[0] & 0x81) | ((p[2] & 0x3F) << 1u8), p[1]];
        let hs: &[u8] = &header;
        assert(hs@ =~= seq![(p@[0] & 0x81) | ((p@[2] & 0x3F) << 1u8), p@[1]]);
        fragment(buf, hs, p[2], p, 3)
    } else {
        assert(buffers_view(out@) =~= Seq::<Seq<u8>>::empty());
        out
    }
}

/// The payloads, in order, fed through the H.264 reassembly from `buf`: the
/// buffer left at the end and every unit completed, in order.
pub open spec fn feed_h264(buf: Seq<u8>, ps: Seq<Seq<u8>>) -> (Seq<u8>, Seq<Seq<u8>>)
    decreases ps.len(),
{
    if ps.len() == 0 {
        (buf, Seq::empty())
    } else {
        let first = h264_step(buf, ps[0]);
        let rest = feed_h264(first.0, ps.drop_first());
        (rest.0, first.1 + rest.1)
    }
}

/// The chunks joined in order.
pub open spec fn joined(chunks: Seq<Seq<u8>>) -> Seq<u8>
    decreases chunks.len(),
{
    if chunks.len() == 0 {
        Seq::empty()
    } else {
        joined(chunks.drop_last()) + chunks.last()
    }
}

/// The FU-A header of fragment `i` of `n`: the start bit on the first, the
/// end bit on the last, and the unit's type.
pub open spec fn fu_a_header(i: int, n: int, nal_type: u8) -> u8 {
    (if i == 0 {
        0x80u8
    } else {
        0u8
    }) | (if i == n - 1 {
        0x40u8
    } else {
        0u8
    }) | nal_type
}

/// A NAL unit sent as FU-A fragments: each payload is the FU indicator, the
/// FU header and one chunk of the unit's body.
pub open spec fn fu_a_packets(indicator: u8, nal_type: u8, chunks: Seq<Seq<u8>>) -> Seq<Seq<u8>> {
    Seq::new(
        chunks.len(),
        |i: int| seq![indicator, fu_a_header(i, chunks.len() as int, nal_type)] + chunks[i],
    )
}

proof fn lemma_fu_a_bits(first: bool, last: bool, t: u8, ind: u8)
    requires
        t < 32,
        ind & 0x1F == 28,
    ensures
        ({
            let h = (if first {
                0x80u8
            } else {
                0u8
            }) | (if last {
                0x40u8
            } else {
                0u8
            }) | t;
            &&& (h & 0x80 != 0) == first
            &&& (h & 0x40 != 0) == last
            &&& h & 0x1F == t
        }),
{
    if first && last {
        assert((0x80u8 | 0x40u8 | t) & 0x80 != 0 && (0x80u8 | 0x40u8 | t) & 0x40 != 0 && (0x80u8
            | 0x40u8 | t) & 0x1F == t) by (bit_vector)
            requires
                t < 32,
        ;
    } else if first {
        assert((0x80u8 | 0u8 | t) & 0x80 != 0 && (0x80u8 | 0u8 | t) & 0x40 == 0 && (0x80u8 | 0u8
            | t) & 0x1F == t) by (bit_vector)
            requires
                t < 32,
        ;
    } else if last {
        assert((0u8 | 0x40u8 | t) & 0x80 == 0 && (0u8 | 0x40u8 | t) & 0x40 != 0 && (0u8 | 0x40u8
            | t) & 0x1F == t) by (bit_vector)
            requires
                t < 32,
        ;
    } else {
        assert((0u8 | 0u8 | t) & 0x80 == 0 && (0u8 | 0u8 | t) & 0x40 == 0 && (0u8 | 0u8 | t)
            & 0x1F == t) by (bit_vector)
            requires
                t < 32,
        ;
    }
}

proof fn lemma_fu_a_rest(indicator: u8, nal_type: u8, chunks: Seq<Seq<u8>>, k: int, buf: Seq<u8>)
    requires
        indicator & 0x1F == 28,
        nal_type < 32,
        1 <= k <= chunks.len(),
        buf == start_code() + seq![(indicator & 0xE0) | nal_type] + joined(chunks.take(k)),
    ensures
        feed_h264(buf, fu_a_packets(indicator, nal_type, chunks).subrange(k, chunks.len() as int)).1
            == (if k == chunks.len() {
            Seq::<Seq<u8>>::empty()
        } else {
            seq![start_code() + seq![(indicator & 0xE0) | nal_type] + joined(chunks)]
        }),
    decreases chunks.len() - k,
{
    let n = chunks.len() as int;
    let ps = fu_a_packets(indicator, nal_type, chunks);
    let hdr = seq![(indicator & 0xE0) | nal_type];
    if k == n {
        assert(ps.subrange(k, n).len() == 0);
    } else {
        let p = ps[k];
        lemma_fu_a_bits(false, k == n - 1, nal_type, indicator);
        assert(p[0] == indicator);
        assert(p[1] == fu_a_header(k, n, nal_type));
        assert(p[0] & 0x1F == 28);
        assert(p.subrange(2, p.len() as int) =~= chunks[k]);
        let next = buf + chunks[k];
        assert(chunks.take(k + 1).drop_last() =~= chunks.take(k));
        assert(joined(chunks.take(k + 1)) == joined(chunks.take(k)) + chunks[k]);
        assert(next =~= start_code() + hdr + joined(chunks.take(k + 1)));
        assert(h264_step(buf, p).0 == next);
        assert(ps.subrange(k, n).drop_first() =~= ps.subrange(k + 1, n));
        lemma_fu_a_rest(indicator, nal_type, chunks, k + 1, next);
        if k + 1 == n {
            assert(chunks.take(k + 1) =~= chunks);
            assert(h264_step(buf, p).1 =~= seq![next]);
        } else {
            assert(h264_step(buf, p).1 =~= Seq::<Seq<u8>>::empty());
        }
        assert(ps.subrange(k, n)[0] == p);
    }
}

/// A NAL unit sent as FU-A fragments comes back whole: whatever the
/// reassembly buffer held, feeding the fragments in order completes exactly
/// one unit, the start code, the unit's header (the indicator's top bits and
/// the unit's type) and the chunks joined.
pub proof fn law_fu_a_reassembly(
    buf: Seq<u8>,
    indicator: u8,
    nal_type: u8,
    chunks: Seq<Seq<u8>>,
)
    requires
        indicator & 0x1F == 28,
        nal_type < 32,
        chunks.len() >= 1,
    ensures
        feed_h264(buf, fu_a_packets(indicator, nal_type, chunks)).1 == seq![
            start_code() + seq![(indicator & 0xE0) | nal_type] + joined(chunks),
        ],
{
    let n = chunks.len() as int;
    let ps = fu_a_packets(indicator, nal_type, chunks);
    let hdr = seq![(indicator & 0xE0) | nal_type];
    let p = ps[0];
    lemma_fu_a_bits(true, n == 1, nal_type, indicator);
    assert(p[0] == indicator);
    assert(p[1] == fu_a_header(0, n, nal_type));
    assert(p.subrange(2, p.len() as int) =~= chunks[0]);
    let b1 = start_code() + hdr + chunks[0];
    assert(chunks.take(1).drop_last() =~= Seq::<Seq<u8>>::empty());
    assert(joined(Seq::<Seq<u8>>::empty()) == Seq::<u8>::empty());
    assert(chunks.take(1).last() == chunks[0]);
    assert(joined(chunks.take(1)) =~= Seq::<u8>::empty() + chunks[0]);
    assert(Seq::<u8>::empty() + chunks[0] =~= chunks[0]);
    assert(h264_step(buf, p).0 == b1);
    assert(ps.drop_first() =~= ps.subrange(1, n));
    lemma_fu_a_rest(indicator, nal_type, chunks, 1, b1);
    if n == 1 {
        assert(chunks.take(1) =~= chunks);
        assert(h264_step(buf, p).1 =~= seq![b1]);
    } else {
        assert(h264_step(buf, p).1 =~= Seq::<Seq<u8>>::empty());
    }
}

/// The body of an aggregation packet carrying these units: each unit's size
/// as two big-endian bytes, then the unit.
pub open spec fn aggregation_body(units: Seq<Seq<u8>>) -> Seq<u8>
    decreases units.len(),
{
    if units.len() == 0 {
        Seq::empty()
    } else {
        seq![(units[0].len() / 256) as u8, (units[0].len() % 256) as u8] + units[0]
            + aggregation_body(units.drop_first())
    }
}

/// Units an aggregation packet can carry: not empty, and under 64 KiB.
pub open spec fn aggregatable(units: Seq<Seq<u8>>) -> bool {
    forall|i: int| 0 <= i < units.len() ==> 0 < (#[trigger] units[i]).len() < 65536
}

proof fn lemma_aggregation_walk(q: Seq<u8>, units: Seq<Seq<u8>>)
    requires
        aggregatable(units),
    ensures
        aggregated_units(q + aggregation_body(units), q.len() as int) == units,
    decreases units.len(),
{
    let p = q + aggregation_body(units);
    let off = q.len() as int;
    if units.len() == 0 {
        assert(p =~= q);
        assert(units =~= Seq::<Seq<u8>>::empty());
    } else {
        let u = units[0];
        let l = u.len() as int;
        let a = (u.len() / 256) as u8;
        let b = (u.len() % 256) as u8;
        let q2 = q + seq![a, b] + u;
        assert(p =~= q2 + aggregation_body(units.drop_first()));
        assert(p[off] == a && p[off + 1] == b);
        assert(a as int * 256 + b as int == l);
        assert(p.subrange(off + 2, off + 2 + l) =~= u);
        assert(aggregatable(units.drop_first())) by {
            assert forall|i: int| 0 <= i < units.drop_first().len() implies 0 < (
            #[trigger] units.drop_first()[i]).len() < 65536 by {
                assert(units.drop_first()[i] == units[i + 1]);
            }
        }
        lemma_aggregation_walk(q2, units.drop_first());
        assert(q2.len() == off + 2 + l);
        assert(units =~= seq![u] + units.drop_first());
    }
}

/// Units sent in one H.264 STAP-A packet come back, in order, each behind a
/// start code: whatever the reassembly buffer held, the packet's first byte
/// (NAL type 24) followed by each unit's size and bytes gives exactly the
/// units.
pub proof fn law_stap_a_round_trip(buf: Seq<u8>, indicator: u8, units: Seq<Seq<u8>>)
    requires
        indicator & 0x1F == 24,
        aggregatable(units),
    ensures
        h264_step(buf, seq![indicator] + aggregation_body(units)).1 == with_start_codes(units),
{
    let p = seq![indicator] + aggregation_body(units);
    assert(p[0] == indicator);
    lemma_aggregation_walk(seq![indicator], units);
}

/// The AV1 aggregation header's LEB128 length at `off`: up to five bytes,
/// seven bits each, least significant first; `None` when the input ends
/// first or a fifth byte still continues. Gives the value and where the
/// element starts.
pub open spec fn av1_length(p: Seq<u8>, off: int) -> Option<(nat, int)> {
    av1_length_from(p, off, 0, 0, 1)
}

/// The length's bytes from the `k`-th on, with `acc` read so far and `mult`
/// the weight of byte `k`.
pub open spec fn av1_length_from(p: Seq<u8>, off: int, k: nat, acc: nat, mult: nat) -> Option<
    (nat, int),
>
    decreases 5 - k,
{
    if k >= 5 || off < 0 || off + k >= p.len() {
        None
    } else {
        let b = p[off + k];
        let acc2 = acc + (b % 128) as nat * mult;
        if b < 128 {
            Some((acc2, off + k + 1))
        } else if k + 1 >= 5 {
            None
        } else {
            av1_length_from(p, off, k + 1, acc2, mult * 128)
        }
    }
}

/// One OBU element of an AV1 payload: the first element continues the OBU
/// left open by the last packet when `z` is set; otherwise a pending OBU is
/// handed out first and the element starts a new one. The last element
/// stays open for the next packet when `y` is set; otherwise the OBU is
/// handed out (whatever it holds).
pub open spec fn av1_element(buf: Seq<u8>, elem: Seq<u8>, first: bool, last: bool, z: bool, y: bool) -> (
    Seq<u8>,
    Seq<Seq<u8>>,
) {
    let b1 = if first && z {
        buf + elem
    } else {
        elem
    };
    let o1 = if first && z {
        Seq::empty()
    } else if buf.len() > 0 {
        seq![buf]
    } else {
        Seq::empty()
    };
    if last && y {
        (b1, o1)
    } else {
        (Seq::empty(), o1.push(b1))
    }
}

/// The elements of a payload whose elements all carry a length, from `off`
/// on; the walk stops at a length that does not read or runs past the end.
pub open spec fn av1_walk_sized(
    p: Seq<u8>,
    off: int,
    first: bool,
    buf: Seq<u8>,
    z: bool,
    y: bool,
) -> (Seq<u8>, Seq<Seq<u8>>)
    decreases p.len() - off,
{
    if off < 0 || off >= p.len() {
        (buf, Seq::empty())
    } else {
        match av1_length(p, off) {
            None => (buf, Seq::empty()),
            Some((size, start)) => if start + size > p.len() || start <= off {
                (buf, Seq::empty())
            } else {
                let end = start + size;
                let e = av1_element(buf, p.subrange(start, end), first, end >= p.len(), z, y);
                let rest = av1_walk_sized(p, end, false, e.0, z, y);
                (rest.0, e.1 + rest.1)
            },
        }
    }
}

/// The elements of a payload that counts `w` of them, from element `i` at
/// `off` on: all but the last carry a length; the last runs to the end (and
/// is skipped when nothing is left).
pub open spec fn av1_walk_counted(
    p: Seq<u8>,
    off: int,
    i: int,
    w: int,
    buf: Seq<u8>,
    z: bool,
    y: bool,
) -> (Seq<u8>, Seq<Seq<u8>>)
    decreases w - i,
{
    if i >= w || off < 0 {
        (buf, Seq::empty())
    } else if i == w - 1 {
        if off < p.len() {
            av1_element(buf, p.subrange(off, p.len() as int), i == 0, true, z, y)
        } else {
            (buf, Seq::empty())
        }
    } else {
        match av1_length(p, off) {
            None => (buf, Seq::empty()),
            Some((size, start)) => if start + size > p.len() {
                (buf, Seq::empty())
            } else {
                let end = start + size;
                let e = av1_element(buf, p.subrange(start, end), i == 0, false, z, y);
                let rest = av1_walk_counted(p, end, i + 1, w, e.0, z, y);
                (rest.0, e.1 + rest.1)
            },
        }
    }
}

/// What one AV1 RTP payload gives, with the OBU left open before and after:
/// the aggregation header's `z` (continues an OBU), `y` (leaves one open)
/// and `w` (element count, 0 when every element carries a length), then the
/// elements; an empty payload gives nothing.
pub open spec fn av1_step(buf: Seq<u8>, p: Seq<u8>) -> (Seq<u8>, Seq<Seq<u8>>) {
    if p.len() == 0 {
        (buf, Seq::empty())
    } else {
        let h = p[0];
        let z = h & 0x80 != 0;
        let y = h & 0x40 != 0;
        let w = (h & 0x30) >> 4u8;
        if w == 0 {
            av1_walk_sized(p, 1, true, buf, z, y)
        } else {
            av1_walk_counted(p, 1, 0, w as int, buf, z, y)
        }
    }
}

/// The weight of the `k`-th byte of a length: 128 to the `k`.
pub open spec fn av1_weight(k: int) -> nat {
    if k == 0 {
        1
    } else if k == 1 {
        128
    } else if k == 2 {
        16384
    } else if k == 3 {
        2097152
    } else {
        268435456
    }
}

/// Reads the LEB128 length at `off`.
pub(crate) fn read_av1_length(p: &[u8], off: usize) -> (res: Option<(u64, usize)>)
    ensures
        match av1_length(p@, off as int) {
            None => res is None,
            Some((v, next)) => res matches Some(r) && r.0 == v && r.1 == next,
        },
        res matches Some(r) ==> off < r.1 <= p@.len(),
{
    let mut value: u64 = 0;
    let mut mult: u64 = 1;
    let mut k: usize = 0;
    let n = p.len();
    if off >= n {
        return None;
    }
    while k < 5
        invariant
            n == p@.len(),
            off < n,
            k < 5,
            value < mult,
            mult == av1_weight(k as int),
            av1_length(p@, off as int) == av1_length_from(
                p@,
                off as int,
                k as nat,
                value as nat,
                mult as nat,
            ),
        decreases 5 - k,
    {
        if k >= n - off {
            return None;
        }
        let b = p[off + k];
        assert((b % 128) as nat * mult <= 127 * mult) by (nonlinear_arith)
            requires
                b % 128 <= 127,
        ;
        let next_value = value + ((b % 128) as u64) * mult;
        if b < 128 {
            return Some((next_value, off + k + 1));
        }
        if k + 1 >= 5 {
            return None;
        }
        assert(next_value < mult * 128) by (nonlinear_arith)
            requires
                next_value == value + (b % 128) * mult,
                value < mult,
                b % 128 <= 127,
        ;
        value = next_value;
        mult = mult * 128;
        k = k + 1;
    }
    None
}

/// Handles one OBU element `p[from..to]`, appending what it hands out.
fn av1_push_element(
    buf: &mut Vec<u8>,
    out: &mut Vec<Vec<u8>>,
    p: &[u8],
    from: usize,
    to: usize,
    first: bool,
    last: bool,
    z: bool,
    y: bool,
)
    requires
        from <= to <= p@.len(),
    ensures
        ({
            let e = av1_element(old(buf)@, p@.subrange(from as int, to as int), first, last, z, y);
            final(buf)@ == e.0 && buffers_view(final(out)@) == buffers_view(old(out)@) + e.1
        }),
{
    let ghost out0 = buffers_view(out@);
    let ghost elem = p@.subrange(from as int, to as int);
    if first && z {
        extend_from(buf, p, from, to);
        assert(buffers_view(out@) =~= out0 + Seq::<Seq<u8>>::empty());
    } else {
        if buf.len() > 0 {
            out.push(copy_bytes(buf));
            assert(buffers_view(out@) =~= out0 + seq![old(buf)@]);
        } else {
            assert(buffers_view(out@) =~= out0 + Seq::<Seq<u8>>::empty());
        }
        let mut fresh: Vec<u8> = Vec::new();
        extend_from(&mut fresh, p, from, to);
        assert(fresh@ =~= elem);
        *buf = fresh;
    }
    let ghost mid = buffers_view(out@);
    if !(last && y) {
        let done = copy_bytes(buf);
        out.push(done);
        *buf = Vec::new();
        assert(buffers_view(out@) =~= mid.push(done@));
        assert(final(buf)@ =~= Seq::<u8>::empty());
    }
    proof {
        let e = av1_element(old(buf)@, elem, first, last, z, y);
        let o1: Seq<Seq<u8>> = if first && z {
            Seq::empty()
        } else if old(buf)@.len() > 0 {
            seq![old(buf)@]
        } else {
            Seq::empty()
        };
        assert(mid == out0 + o1);
        if !(last && y) {
            assert(out0 + o1.push(e.1.last()) =~= (out0 + o1).push(e.1.last()));
        }
    }
}

/// The OBUs one AV1 RTP payload completes, in order; `buf` carries the OBU
/// left open from packet to packet.
pub fn push_av1(buf: &mut Vec<u8>, p: &[u8]) -> (res: Vec<Vec<u8>>)
    ensures
        (final(buf)@, buffers_view(res@)) == av1_step(old(buf)@, p@),
{
    let mut out: Vec<Vec<u8>> = Vec::new();
    let n = p.len();
    if n == 0 {
        assert(buffers_view(out@) =~= Seq::<Seq<u8>>::empty());
        return out;
    }
    let h = p[0];
    let z = h & 0x80 != 0;
    let y = h & 0x40 != 0;
    let w = (h & 0x30) >> 4u8;
    let ghost b0 = buf@;
    let mut off: usize = 1;
    if w == 0 {
        let mut first = true;
        let mut done = false;
        while off < n && !done
            invariant
                n == p@.len(),
                1 <= off,
                ({
                    let r = av1_walk_sized(p@, off as int, first, buf@, z, y);
                    (r.0, buffers_view(out@) + r.1) == av1_walk_sized(p@, 1, true, b0, z, y)
                }),
                done ==> av1_walk_sized(p@, off as int, first, buf@, z, y) == (
                    buf@,
                    Seq::<Seq<u8>>::empty(),
                ),
            decreases n - off, (if done { 0int } else { 1int }),
        {
            match read_av1_length(p, off) {
                None => {
                    done = true;
                },
                Some((size, start)) => {
                    if start <= off || size > (n - start) as u64 {
                        done = true;
                    } else {
                        let end = start + size as usize;
                        let ghost before_out = buffers_view(out@);
                        let ghost before_buf = buf@;
                        let ghost e = av1_element(
                            before_buf,
                            p@.subrange(start as int, end as int),
                            first,
                            end >= n,
                            z,
                            y,
                        );
                        av1_push_element(buf, &mut out, p, start, end, first, end >= n, z, y);
                        proof {
                            let rest = av1_walk_sized(p@, end as int, false, e.0, z, y);
                            assert(before_out + (e.1 + rest.1) =~= (before_out + e.1) + rest.1);
                        }
                        first = false;
                        off = end;
                    }
                },
            }
        }
        proof {
            if !done {
                assert(av1_walk_sized(p@, off as int, first, buf@, z, y) == (
                    buf@,
                    Seq::<Seq<u8>>::empty(),
                ));
            }
            assert(buffers_view(out@) + Seq::<Seq<u8>>::empty() =~= buffers_view(out@));
        }
        out
    } else {
        let mut i: u8 = 0;
        let mut done = false;
        while i < w && !done
            invariant
                n == p@.len(),
                1 <= off,
                i <= w,
                ({
                    let r = av1_walk_counted(p@, off as int, i as int, w as int, buf@, z, y);
                    (r.0, buffers_view(out@) + r.1) == av1_walk_counted(p@, 1, 0, w as int, b0, z, y)
                }),
                done ==> av1_walk_counted(p@, off as int, i as int, w as int, buf@, z, y) == (
                    buf@,
                    Seq::<Seq<u8>>::empty(),
                ),
            decreases w - i, (if done { 0int } else { 1int }),
        {
            let is_first = i == 0;
            if i == w - 1 {
                if off < n {
                    let ghost before_out = buffers_view(out@);
                    av1_push_element(buf, &mut out, p, off, n, is_first, true, z, y);
                }
                i = i + 1;
                proof {
                    assert(buffers_view(out@) + Seq::<Seq<u8>>::empty() =~= buffers_view(out@));
                }
            } else {
                match read_av1_length(p, off) {
                    None => {
                        done = true;
                    },
                    Some((size, start)) => {
                        if start > n || size > (n - start) as u64 {
                            done = true;
                        } else {
                            let end = start + size as usize;
                            let ghost before_out = buffers_view(out@);
                            let ghost e = av1_element(
                                buf@,
                                p@.subrange(start as int, end as int),
                                is_first,
                                false,
                                z,
                                y,
                            );
                            av1_push_element(buf, &mut out, p, start, end, is_first, false, z, y);
                            proof {
                                let rest = av1_walk_counted(p@, end as int, i + 1, w as int, e.0, z, y);
                                assert(before_out + (e.1 + rest.1) =~= (before_out + e.1) + rest.1);
                            }
                            off = end;
                            i = i + 1;
                        }
                    },
                }
            }
        }
        proof {
            if !done {
                assert(av1_walk_counted(p@, off as int, i as int, w as int, buf@, z, y) == (
                    buf@,
                    Seq::<Seq<u8>>::empty(),
                ));
            }
            assert(buffers_view(out@) + Seq::<Seq<u8>>::empty() =~= buffers_view(out@));
        }
        out
    }
}

} // verus!
