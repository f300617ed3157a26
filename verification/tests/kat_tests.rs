//! Replay tests for the documented operation sequences.
//!
//! Each test replays a fixed scenario twice, from two independently
//! constructed objects, comparing the full serialized state after every
//! operation, and checks the streaming and output guarantees that the
//! protocol makes for that scenario.

use strobe_rs::{SecParam, Strobe};

// Applies one step of the "seqtest" scenario; `k` selects the step.
// Returns the bytes the step output, if any.
fn seq_step(s: &mut Strobe, k: usize) -> Vec<u8> {
    match k {
        0 => {
            let mut buf = vec![0u8; 10];
            s.prf(&mut buf, false);
            buf
        }
        1 => {
            s.ad(b"Hello", false);
            Vec::new()
        }
        2 => {
            let mut buf = b"World".to_vec();
            s.send_enc(&mut buf, false);
            buf
        }
        3 => {
            s.send_clr(b"foo", false);
            Vec::new()
        }
        4 => {
            s.ratchet(32, false);
            Vec::new()
        }
        5 => {
            s.recv_clr(b"bar", false);
            Vec::new()
        }
        6 => {
            let mut buf = b"baz".to_vec();
            s.recv_enc(&mut buf, false);
            buf
        }
        7 => {
            let mut out = Vec::new();
            for i in 0..100 {
                let mut buf = vec![b'X'; i];
                s.send_enc(&mut buf, false);
                out.extend_from_slice(&buf);
            }
            out
        }
        8 => {
            let mut buf = vec![0u8; 123];
            s.prf(&mut buf, false);
            buf
        }
        _ => {
            let mut buf = vec![0u8; 16];
            s.send_mac(&mut buf, false);
            buf
        }
    }
}

// The "seqtest" scenario: PRF, AD, send_ENC, send_CLR, RATCHET, recv_CLR,
// recv_ENC, a hundred send_ENCs, PRF, send_MAC. Two independent replays
// must agree on every intermediate state and every output byte.
#[test]
fn simple_test() {
    let mut a = Strobe::new(b"seqtest", SecParam::B256);
    let mut b = Strobe::new(b"seqtest", SecParam::B256);
    let initial = a.to_bytes();
    assert_eq!(initial, b.to_bytes());

    for k in 0..10 {
        let out_a = seq_step(&mut a, k);
        let out_b = seq_step(&mut b, k);
        assert_eq!(out_a, out_b);
        assert_eq!(a.to_bytes(), b.to_bytes());
    }

    // The sequence must have moved the state.
    assert_ne!(a.to_bytes(), initial);
    // The PRF and MAC outputs of step 9 are not the zero buffer that went
    // in.
    let last = seq_step(&mut a, 9);
    assert_ne!(last, vec![0u8; 16]);
}

// The "metadatatest" scenario: meta and non-meta operations interleaved.
// The concatenated meta+data output of two independent replays must
// agree, and the meta variants must be domain-separated from the plain
// ones.
#[test]
fn meta_test() {
    let run = || -> (Vec<u8>, Strobe) {
        let mut s = Strobe::new(b"metadatatest", SecParam::B256);
        let mut output = Vec::new();

        let buf = b"meta1";
        s.meta_send_clr(buf, false);
        output.extend_from_slice(buf);

        s.key(b"key", false);

        let mut buf = vec![0u8; 10];
        s.meta_prf(&mut buf, false);
        output.extend_from_slice(&buf);

        s.prf(&mut buf, false);
        output.extend_from_slice(&buf);

        let buf = b"meta3";
        s.meta_send_clr(buf, false);
        output.extend_from_slice(buf);

        let mut buf = b"pt".to_vec();
        s.send_enc(&mut buf, false);
        output.extend_from_slice(&buf);

        (output, s)
    };
    let (out_a, a) = run();
    let (out_b, b) = run();
    assert_eq!(out_a, out_b);
    assert_eq!(a.to_bytes(), b.to_bytes());
    assert_eq!(out_a.len(), 5 + 10 + 10 + 5 + 2);

    // A meta operation must not land on the same state as its plain
    // counterpart.
    let mut plain = Strobe::new(b"metadatatest", SecParam::B256);
    let mut meta = Strobe::new(b"metadatatest", SecParam::B256);
    plain.ad(b"x", false);
    meta.meta_ad(b"x", false);
    assert_ne!(plain.to_bytes(), meta.to_bytes());
}

// The "streamingtest" scenario: every operation run in one piece must
// reach the same state as the same operation streamed in two pieces with
// `more = true`.
#[test]
fn streaming_test() {
    let one_shot = {
        let mut s = Strobe::new(b"streamingtest", SecParam::B256);

        s.ad(b"mynonce", false);

        let mut buf = b"hello there".to_vec();
        s.recv_enc(&mut buf, false);

        let mut mac = vec![0u8; 16];
        s.send_mac(&mut mac, false);

        s
    };
    let streamed = {
        let mut s = Strobe::new(b"streamingtest", SecParam::B256);

        s.ad(b"my", false);
        s.ad(b"nonce", true);

        let mut buf = b"hello".to_vec();
        s.recv_enc(&mut buf, false);

        let mut buf = b" there".to_vec();
        s.recv_enc(&mut buf, true);

        let mut mac1 = vec![0u8; 10];
        let mut mac2 = vec![0u8; 6];
        s.send_mac(&mut mac1, false);
        s.send_mac(&mut mac2, true);

        s
    };

    assert_eq!(one_shot.to_bytes(), streamed.to_bytes());
}

// Splits an AD / send_ENC / PRF of `len` bytes at every rate-relevant
// point and checks that the streamed run agrees with the one-shot run on
// state and output.
fn boundary_case(sec: SecParam, len: usize, split: usize) {
    let data = vec![0xabu8; len];

    // AD
    let mut one = Strobe::new(b"boundarytest", sec);
    one.ad(&data, false);
    let mut two = Strobe::new(b"boundarytest", sec);
    two.ad(&data[..split], false);
    two.ad(&data[split..], true);
    assert_eq!(one.to_bytes(), two.to_bytes());

    // send_ENC
    let mut one = Strobe::new(b"boundarytest", sec);
    let mut buf_one = data.clone();
    one.send_enc(&mut buf_one, false);
    let mut two = Strobe::new(b"boundarytest", sec);
    let mut buf_a = data[..split].to_vec();
    let mut buf_b = data[split..].to_vec();
    two.send_enc(&mut buf_a, false);
    two.send_enc(&mut buf_b, true);
    buf_a.extend_from_slice(&buf_b);
    assert_eq!(one.to_bytes(), two.to_bytes());
    assert_eq!(buf_one, buf_a);

    // PRF
    let mut one = Strobe::new(b"boundarytest", sec);
    let mut buf_one = vec![0u8; len];
    one.prf(&mut buf_one, false);
    let mut two = Strobe::new(b"boundarytest", sec);
    let mut buf_a = vec![0u8; split];
    let mut buf_b = vec![0u8; len - split];
    two.prf(&mut buf_a, false);
    two.prf(&mut buf_b, true);
    buf_a.extend_from_slice(&buf_b);
    assert_eq!(one.to_bytes(), two.to_bytes());
    assert_eq!(buf_one, buf_a);
}

// Operations whose total length is empty, R - 1, R, R + 1 and 2R must all
// succeed and agree between one-shot and streamed runs across the
// permutation boundary.
#[test]
fn boundary_test() {
    for (sec, rate) in [(SecParam::B128, 166usize), (SecParam::B256, 134usize)] {
        boundary_case(sec, 0, 0);
        for len in [rate - 1, rate, rate + 1, 2 * rate] {
            boundary_case(sec, len, 0);
            boundary_case(sec, len, len / 2);
            boundary_case(sec, len, rate - 1);
            if len > rate {
                boundary_case(sec, len, rate);
            }
        }
    }
}
