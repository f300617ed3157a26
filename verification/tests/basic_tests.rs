//! Basic tests: the permutation against its published zero-state vector,
//! initialization, the version string, cloning, encryption and MAC round
//! trips, tampering rejection, and the byte codec.

use strobe_rs::keccak::{keccakf, keccakf_u8};
use strobe_rs::{SecParam, Strobe};

// The published result of Keccak-f[1600] applied to the all-zero state.
const KECCAKF_ZERO_VECTOR: [u64; 25] = [
    0xF1258F7940E1DDE7,
    0x84D5CCF933C0478A,
    0xD598261EA65AA9EE,
    0xBD1547306F80494D,
    0x8B284E056253D057,
    0xFF97A42D7F8E6FD4,
    0x90FEE5A0A44647C4,
    0x8C5BDA0CD6192E76,
    0xAD30A6F71B19059C,
    0x30935AB7D08FFC64,
    0xEB5AA93F2317D635,
    0xA9A6E6260D712103,
    0x81A57C16DBCF555F,
    0x43B831CD0347C826,
    0x01F22F1A11A5569F,
    0x05E5635A21D9AE61,
    0x64BEFEF28CC970F2,
    0x613670957BC46611,
    0xB87C5A554FD00ECB,
    0x8C3EE88A1CCF32C8,
    0x940C7922AE3A2614,
    0x1841F924A2C509E4,
    0x16F53526E70465C2,
    0x75F644E97F30A13B,
    0xEAF1FF7B5CECA249,
];

// The permutation must match the published known-answer vector for the
// all-zero state, on the lane view.
#[test]
fn keccakf_zero_state_lanes() {
    let mut lanes = vec![0u64; 25];
    keccakf(&mut lanes);
    assert_eq!(&lanes[..], &KECCAKF_ZERO_VECTOR[..]);
}

// ... and on the byte view, little-endian within each lane.
#[test]
fn keccakf_zero_state_bytes() {
    let mut st = vec![0u8; 200];
    keccakf_u8(&mut st);
    let mut expected = Vec::new();
    for lane in KECCAKF_ZERO_VECTOR {
        expected.extend_from_slice(&lane.to_le_bytes());
    }
    assert_eq!(st, expected);
}

// Initialization is a fixed function of the protocol string and the
// security parameter: equal inputs give equal 200-byte states, different
// inputs give different ones.
#[test]
fn init_is_fixed_per_proto_and_sec() {
    let a = Strobe::new(b"", SecParam::B128);
    let b = Strobe::new(b"", SecParam::B128);
    assert_eq!(a.state_bytes(), b.state_bytes());
    assert_eq!(a.state_bytes().len(), 200);
    // R = 200 - sec/4 - 2
    assert_eq!(a.rate, 166);

    let c = Strobe::new(b"", SecParam::B256);
    assert_eq!(c.rate, 134);
    assert_ne!(a.state_bytes(), c.state_bytes());

    let d = Strobe::new(b"proto", SecParam::B128);
    assert_ne!(a.state_bytes(), d.state_bytes());

    let e = Strobe::new(b"proto", SecParam::B128);
    assert_eq!(d.to_bytes(), e.to_bytes());
}

#[test]
fn version_str_values() {
    let s = Strobe::new(b"", SecParam::B128);
    assert_eq!(s.version_str(), "Strobe-Keccak-128/1600-v1.0.2");
    let s = Strobe::new(b"", SecParam::B256);
    assert_eq!(s.version_str(), "Strobe-Keccak-256/1600-v1.0.2");
}

// A clone and its original stay identical under the same operation
// sequence.
#[test]
fn clone_tracks_original() {
    let mut a = Strobe::new(b"clonetest", SecParam::B128);
    a.key(b"k", false);
    let mut b = a.clone();
    assert_eq!(a.to_bytes(), b.to_bytes());

    for s in [&mut a, &mut b] {
        s.ad(b"associated data", false);
        let mut buf = b"plaintext".to_vec();
        s.send_enc(&mut buf, false);
        s.ratchet(7, false);
        let mut out = vec![0u8; 13];
        s.prf(&mut out, false);
    }
    assert_eq!(a.to_bytes(), b.to_bytes());
}

// Two identically initialized, identically keyed instances: one encrypts,
// the other decrypts the produced ciphertext back to the plaintext, and
// the sponge states agree afterwards.
#[test]
fn enc_round_trip_all_state_shared() {
    let mut tx = Strobe::new(b"enctest", SecParam::B128);
    let mut rx = Strobe::new(b"enctest", SecParam::B128);
    tx.key(b"key", false);
    rx.key(b"key", false);
    tx.ad(b"ad", false);
    rx.ad(b"ad", false);

    let plaintext = b"the quick brown fox";
    let mut buf = plaintext.to_vec();
    tx.send_enc(&mut buf, false);
    assert_ne!(&buf[..], &plaintext[..]);
    rx.recv_enc(&mut buf, false);
    assert_eq!(&buf[..], &plaintext[..]);

    // Everything but the latched direction agrees.
    assert_eq!(tx.state_bytes(), rx.state_bytes());
    let t = tx.to_bytes();
    let r = rx.to_bytes();
    assert_eq!(&t[..203], &r[..203]);
}

// send_MAC then the peer's recv_MAC succeeds and leaves both sponge
// states equal; any flipped bit of the tag makes recv_MAC fail.
#[test]
fn mac_round_trip_and_flip() {
    let mut tx = Strobe::new(b"flipmactest", SecParam::B256);
    let mut rx = Strobe::new(b"flipmactest", SecParam::B256);
    tx.key(b"0123456789abcdef", false);
    rx.key(b"0123456789abcdef", false);

    let mut tag = vec![0u8; 16];
    tx.send_mac(&mut tag, false);

    // Every single-bit corruption of the tag is rejected.
    for byte in 0..16 {
        for bit in 0..8 {
            let mut bad = tag.clone();
            bad[byte] ^= 1u8 << bit;
            let mut rx_try = rx.clone();
            assert!(rx_try.recv_mac(&mut bad, false).is_err());
        }
    }

    // The unmodified tag is accepted, and the cores agree.
    let mut good = tag.clone();
    assert!(rx.recv_mac(&mut good, false).is_ok());
    assert_eq!(good, vec![0u8; 16]);
    assert_eq!(tx.state_bytes(), rx.state_bytes());
}

// The complete session of the end-to-end scenario: key, encrypt,
// authenticate, decrypt, verify.
#[test]
fn end_to_end_session() {
    let mut tx = Strobe::new(b"correctnesstest", SecParam::B256);
    let mut rx = Strobe::new(b"correctnesstest", SecParam::B256);
    tx.key(b"the-combination-on-my-luggage", false);
    rx.key(b"the-combination-on-my-luggage", false);

    let plaintext = b"Attempting to breach the airlock";
    let mut buf = plaintext.to_vec();
    tx.send_enc(&mut buf, false);
    let mut mac = vec![0u8; 16];
    tx.send_mac(&mut mac, false);

    rx.recv_enc(&mut buf, false);
    assert_eq!(&buf[..], &plaintext[..]);
    assert!(rx.recv_mac(&mut mac, false).is_ok());
}

// Ratcheting moves the state, is length-sensitive, and streams like every
// other operation.
#[test]
fn ratchet_behaviour() {
    let mut a = Strobe::new(b"ratchettest", SecParam::B128);
    let before = a.to_bytes();
    a.ratchet(32, false);
    assert_ne!(a.to_bytes(), before);

    let mut b = Strobe::new(b"ratchettest", SecParam::B128);
    b.ratchet(31, false);
    assert_ne!(a.to_bytes(), b.to_bytes());

    let mut c = Strobe::new(b"ratchettest", SecParam::B128);
    c.ratchet(20, false);
    c.ratchet(12, true);
    assert_eq!(a.to_bytes(), c.to_bytes());

    let mut d = Strobe::new(b"ratchettest", SecParam::B128);
    d.meta_ratchet(32, false);
    assert_ne!(a.to_bytes(), d.to_bytes());
}

// Empty inputs are valid for every operation and still mark an operation
// boundary.
#[test]
fn empty_inputs() {
    let mut s = Strobe::new(b"emptytest", SecParam::B128);
    let before = s.to_bytes();
    s.ad(b"", false);
    assert_ne!(s.to_bytes(), before);
    s.key(b"", false);
    let mut buf = Vec::new();
    s.send_enc(&mut buf, false);
    assert_eq!(buf, Vec::<u8>::new());
    s.prf(&mut buf, false);
    s.ratchet(0, false);
}

// The codec: a round trip is the identity, and malformed encodings are
// rejected.
#[test]
fn codec_round_trip_and_rejections() {
    let mut s = Strobe::new(b"codectest", SecParam::B256);
    s.key(b"k", false);
    let mut buf = b"msg".to_vec();
    s.send_enc(&mut buf, false);

    let encoded = s.to_bytes();
    assert_eq!(encoded.len(), 204);
    let restored = Strobe::from_bytes(&encoded).unwrap();
    assert_eq!(restored.to_bytes(), encoded);

    // Wrong length.
    assert!(Strobe::from_bytes(&encoded[..203]).is_none());
    // Unknown security tag.
    let mut bad = encoded.clone();
    bad[200] = 2;
    assert!(Strobe::from_bytes(&bad).is_none());
    // Position out of range for the encoded rate (B256: R = 134).
    let mut bad = encoded.clone();
    bad[201] = 134;
    assert!(Strobe::from_bytes(&bad).is_none());
    // pos_begin out of range.
    let mut bad = encoded.clone();
    bad[202] = 135;
    assert!(Strobe::from_bytes(&bad).is_none());
    // Unknown direction tag.
    let mut bad = encoded.clone();
    bad[203] = 3;
    assert!(Strobe::from_bytes(&bad).is_none());
}

// PRF output depends on everything absorbed before it.
#[test]
fn prf_depends_on_history() {
    let mut a = Strobe::new(b"prftest", SecParam::B128);
    let mut b = Strobe::new(b"prftest", SecParam::B128);
    a.key(b"key-one", false);
    b.key(b"key-two", false);
    let mut out_a = vec![0u8; 32];
    let mut out_b = vec![0u8; 32];
    a.prf(&mut out_a, false);
    b.prf(&mut out_b, false);
    assert_ne!(out_a, out_b);
    assert_ne!(out_a, vec![0u8; 32]);
}
