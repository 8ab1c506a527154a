use fast_mic::codec::{decode_chunk, decode_sample, process_chunk, smooth_chunk, READ_CHUNK_BYTES};

#[test]
fn decode_single_samples() {
    assert_eq!(decode_sample(0x01, 0x00), 1);
    assert_eq!(decode_sample(0xFF, 0xFF), -1);
    assert_eq!(decode_sample(0x00, 0x80), -32768);
    assert_eq!(decode_sample(0xFF, 0x7F), 32767);
    assert_eq!(decode_sample(0x00, 0x00), 0);
}

#[test]
fn decode_matches_le_reference() {
    let values: Vec<i16> = vec![-32768, -300, -2, -1, 0, 1, 2, 127, 128, 255, 256, 300, 32767];
    for v in values {
        let b = v.to_le_bytes();
        assert_eq!(decode_sample(b[0], b[1]), v);
    }
}

#[test]
fn decode_chunk_in_wire_order() {
    let bytes = vec![0x01, 0x00, 0xFF, 0xFF, 0x00, 0x80, 0xFF, 0x7F];
    assert_eq!(decode_chunk(&bytes), vec![1, -1, -32768, 32767]);
}

fn encode(samples: &[i16]) -> Vec<u8> {
    let mut out = Vec::new();
    for s in samples {
        let b = s.to_le_bytes();
        out.push(b[0]);
        out.push(b[1]);
    }
    out
}

#[test]
fn smoothing_reference_values() {
    // y0 = (100 + 0) / 2 = 50, y1 = (-50 + 50) / 2 = 0, y2 = (30 + 0) / 2 = 15
    let xs = vec![100i16, -50, 30];
    let (ys, carry) = smooth_chunk(&xs, 0);
    assert_eq!(ys, vec![50, 0, 15]);
    assert_eq!(carry, 15);
}

#[test]
fn smoothing_truncates_towards_zero() {
    // -25 / 2 truncates to -12, not -13
    let (ys, carry) = smooth_chunk(&vec![-25i16], 0);
    assert_eq!(ys, vec![-12]);
    assert_eq!(carry, -12);
    // carry-in participates in the first step: (0 + -3) / 2 = -1
    let (ys, _) = smooth_chunk(&vec![0i16], -3);
    assert_eq!(ys, vec![-1]);
    // positive side truncates down: 25 / 2 = 12
    let (ys, _) = smooth_chunk(&vec![25i16], 0);
    assert_eq!(ys, vec![12]);
}

#[test]
fn smoothing_extremes_stay_in_range() {
    let (ys, carry) = smooth_chunk(&vec![-32768i16, -32768, 32767], -32768);
    assert_eq!(ys[0], -32768);
    assert_eq!(ys[1], -32768);
    // (32767 + -32768) / 2 == -1 / 2, which truncates to 0
    assert_eq!(ys[2], 0);
    assert_eq!(carry, 0);
}

#[test]
fn carry_runs_across_fills() {
    let first = encode(&[100, -50]);
    let second = encode(&[30]);
    let (ys1, carry1) = process_chunk(&first, 0);
    assert_eq!(ys1, vec![50, 0]);
    let (ys2, carry2) = process_chunk(&second, carry1);
    assert_eq!(ys2, vec![15]);
    assert_eq!(carry2, 15);
}

#[test]
fn zero_wire_stream_stays_zero() {
    let bytes = vec![0u8; READ_CHUNK_BYTES];
    let (ys, carry) = process_chunk(&bytes, 0);
    assert_eq!(ys.len(), READ_CHUNK_BYTES / 2);
    assert!(ys.iter().all(|s| *s == 0));
    assert_eq!(carry, 0);
}

#[test]
fn empty_chunk_keeps_carry() {
    let (ys, carry) = process_chunk(&Vec::new(), 17);
    assert!(ys.is_empty());
    assert_eq!(carry, 17);
}
