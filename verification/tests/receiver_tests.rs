use lunaris::receiver::{
    av1_flags, av1_payload_elements, classify_h264, classify_h265, decoder_lagging, Av1Receiver,
    H264Payload, H264Receiver, H265Receiver, KeyframeRequests, ReorderBuffer, UnitAction,
};

fn units(p: H264Payload) -> Option<Vec<Vec<u8>>> {
    match p {
        H264Payload::Units(u) => Some(u),
        _ => None,
    }
}

#[test]
fn reorder_releases_in_sequence() {
    let mut r = ReorderBuffer::new();
    assert_eq!(r.push(100, vec![1]), (false, vec![vec![1]]));
    assert_eq!(r.push(102, vec![3]), (false, vec![]));
    assert_eq!(r.held(), 1);
    assert_eq!(r.push(101, vec![2]), (false, vec![vec![2], vec![3]]));
    assert_eq!(r.held(), 0);
    assert_eq!(r.push(100, vec![9]), (false, vec![]));
    assert_eq!(r.push(103, vec![]), (false, vec![]));
    assert_eq!(r.push(104, vec![5]), (false, vec![vec![5]]));
}

#[test]
fn reorder_wraps_sequence_numbers() {
    let mut r = ReorderBuffer::new();
    assert_eq!(r.push(65535, vec![1]), (false, vec![vec![1]]));
    assert_eq!(r.push(0, vec![2]), (false, vec![vec![2]]));
    assert_eq!(r.push(65535, vec![3]), (false, vec![]));
}

#[test]
fn reorder_gives_up_after_64_held() {
    let mut r = ReorderBuffer::new();
    assert_eq!(r.push(0, vec![0]), (false, vec![vec![0]]));
    for s in 2u16..66 {
        assert_eq!(r.push(s, vec![s as u8]), (false, vec![]));
    }
    assert_eq!(r.held(), 64);
    let (lost, out) = r.push(66, vec![66]);
    assert!(lost);
    assert_eq!(out.len(), 65);
    assert_eq!(out[0], vec![2]);
    assert_eq!(out[64], vec![66]);
    assert_eq!(r.held(), 0);
    r.flush();
    assert_eq!(r.push(500, vec![7]), (false, vec![vec![7]]));
}

const SPS: [u8; 3] = [0x67, 1, 2];
const PPS: [u8; 2] = [0x68, 3];
const IDR: [u8; 2] = [0x65, 9];
const P_SLICE: [u8; 2] = [0x41, 7];

fn with_codes(parts: &[&[u8]]) -> Vec<u8> {
    let mut v = Vec::new();
    for p in parts {
        v.extend_from_slice(&[0, 0, 0, 1]);
        v.extend_from_slice(p);
    }
    v
}

#[test]
fn h264_waits_for_a_decodable_keyframe() {
    let mut h = H264Receiver::new();
    assert_eq!(h.on_nal(&P_SLICE), UnitAction::Nothing);
    assert_eq!(h.on_nal(&IDR), UnitAction::RequestKeyframe);
    assert_eq!(h.on_nal(&SPS), UnitAction::Nothing);
    assert_eq!(h.on_nal(&PPS), UnitAction::Nothing);
    assert_eq!(h.on_nal(&IDR), UnitAction::Decode(with_codes(&[&SPS, &PPS, &IDR])));
    assert!(!h.decoded(true));
    assert_eq!(h.on_nal(&P_SLICE), UnitAction::Decode(with_codes(&[&P_SLICE])));
    assert_eq!(h.on_nal(&IDR), UnitAction::Decode(with_codes(&[&SPS, &PPS, &IDR])));
    assert!(h.decoded(false));
    assert_eq!(h.on_nal(&P_SLICE), UnitAction::Nothing);
}

#[test]
fn h264_fragments_reassemble_with_parameter_sets() {
    let mut h = H264Receiver::new();
    h.on_nal(&SPS);
    h.on_nal(&PPS);
    assert_eq!(h.on_fragment(&[0x7C, 0x81, 1]), UnitAction::Nothing);
    assert_eq!(h.on_fragment(&[0x7C, 0x41, 2]), UnitAction::Nothing);
    assert_eq!(h.on_fragment(&[0x7C, 0x85, 1, 2]), UnitAction::Nothing);
    assert_eq!(h.on_fragment(&[0x7C, 0x05, 3]), UnitAction::Nothing);
    assert_eq!(
        h.on_fragment(&[0x7C, 0x45, 4]),
        UnitAction::Decode(with_codes(&[&SPS, &PPS, &[0x65, 1, 2, 3, 4]]))
    );
    h.decoded(true);
    h.on_loss();
    assert_eq!(h.on_nal(&P_SLICE), UnitAction::Nothing);
    assert_eq!(h.on_fragment(&[0x7C, 0x85, 5]), UnitAction::Nothing);
    assert_eq!(
        h.on_fragment(&[0x7C, 0x45, 6]),
        UnitAction::Decode(with_codes(&[&SPS, &PPS, &[0x65, 5, 6]]))
    );
}

#[test]
fn h264_payloads_are_classified() {
    assert_eq!(units(classify_h264(&P_SLICE)), Some(vec![P_SLICE.to_vec()]));
    assert_eq!(
        units(classify_h264(&[0x18, 0, 2, 0x67, 1, 0, 0, 0, 1, 0x68])),
        Some(vec![vec![0x67, 1], vec![0x68]])
    );
    assert!(matches!(classify_h264(&[0x7C, 0x85]), H264Payload::Fragment));
    assert!(matches!(classify_h264(&[0x7C]), H264Payload::Ignored));
    assert!(matches!(classify_h264(&[0x1F, 1]), H264Payload::Ignored));
    assert!(matches!(classify_h264(&[]), H264Payload::Ignored));
}

#[test]
fn h265_receiver_units_and_fragments() {
    let mut h = H265Receiver::new();
    assert_eq!(h.on_nal(&[0x40, 1]), None);
    assert_eq!(h.on_nal(&[0x02, 1, 5]), Some(with_codes(&[&[0x40, 1], &[0x02, 1, 5]])));
    assert_eq!(h.on_fragment(&[0x62, 0x01, 0x93, 7, 8]), None);
    assert_eq!(h.on_fragment(&[0x62, 0x01, 0x53, 9]), Some(vec![0, 0, 0, 1, 0x26, 1, 7, 8, 9]));
    assert!(matches!(classify_h265(&[0x62, 1, 0x93]), H264Payload::Fragment));
    assert!(matches!(classify_h265(&[0x62, 1]), H264Payload::Ignored));
    assert_eq!(units(classify_h265(&[0x60, 1, 0, 2, 0x40, 1])), Some(vec![vec![0x40, 1]]));
}

#[test]
fn av1_elements_and_obus() {
    assert_eq!(
        av1_payload_elements(&[0x00, 2, 0xA, 0xB, 1, 0xC]),
        vec![(vec![0xA, 0xB], false), (vec![0xC], true)]
    );
    assert_eq!(
        av1_payload_elements(&[0x20, 2, 0xA, 0xB, 0xC, 0xD]),
        vec![(vec![0xA, 0xB], false), (vec![0xC, 0xD], true)]
    );
    assert_eq!(av1_flags(&[0xC0]), (true, true));
    let mut a = Av1Receiver::new();
    assert_eq!(a.pending(true, false), None);
    assert_eq!(a.join(&[1, 2], true, false, false, false, true), Some(vec![1, 2]));
    a.decoded(true);
    assert_eq!(a.pending(false, false), Some(vec![1, 2]));
    assert_eq!(a.join(&[3], false, false, true, true, false), None);
    assert_eq!(a.pending(true, true), None);
    assert_eq!(a.join(&[4], true, true, true, false, true), Some(vec![3, 4]));
}

#[test]
fn keyframe_requests_are_spaced() {
    let mut k = KeyframeRequests::new(1000);
    assert!(!k.request(1400));
    assert!(k.request(1501));
    assert!(!k.request(2001));
    assert!(k.request(2002));
    assert!(!decoder_lagging(150));
    assert!(decoder_lagging(151));
}
