//! Laws of the STROBE operation algebra.
//!
//! The proof functions here state the guarantees that hold for all inputs:
//! a sender and a receiver that share a state agree on ciphertexts and
//! MACs; a tampered MAC is rejected; streaming an operation in pieces is
//! the same as running it in one piece; equal states stay equal under the
//! same operations.

use vstd::prelude::*;

use crate::model::{
    all_zero, spec_begin_op, spec_duplex, spec_mode, spec_operate, spec_operate_no_mutate,
    spec_step, DuplexMode, SpecStrobe, FLAG_A, FLAG_C, FLAG_I, FLAG_T,
};
use crate::model::lemma_duplex_len;

verus! {

/// Whether two states agree on everything but the latched direction: the
/// sponge state, the positions, the security parameter and the rate.
pub open spec fn same_core(a: SpecStrobe, b: SpecStrobe) -> bool {
    &&& a.st == b.st
    &&& a.pos == b.pos
    &&& a.pos_begin == b.pos_begin
    &&& a.sec == b.sec
    &&& a.rate == b.rate
}

/// XOR facts used by the round-trip and tampering proofs.
proof fn lemma_xor_facts()
    by (bit_vector)
    ensures
        forall|x: u8, y: u8| #[trigger] ((x ^ y) ^ x) == y,
        forall|x: u8, y: u8| (#[trigger] (x ^ y) == 0) <==> x == y,
{
}

/// Flag-byte facts used to evaluate the mode and the direction adjustment
/// on the transport operations.
proof fn lemma_law_flag_facts()
    by (bit_vector)
    ensures
        (FLAG_A | FLAG_C | FLAG_T) & FLAG_T != 0,
        (FLAG_A | FLAG_C | FLAG_T) & FLAG_I == 0,
        (FLAG_A | FLAG_C | FLAG_T) & FLAG_C != 0,
        ((FLAG_A | FLAG_C | FLAG_T) & !FLAG_I) == (FLAG_A | FLAG_C | FLAG_T),
        (FLAG_A | FLAG_C | FLAG_T) != (FLAG_I | FLAG_A | FLAG_C),
        (FLAG_I | FLAG_A | FLAG_C | FLAG_T) & FLAG_T != 0,
        (FLAG_I | FLAG_A | FLAG_C | FLAG_T) & FLAG_I != 0,
        (FLAG_I | FLAG_A | FLAG_C | FLAG_T) & FLAG_C != 0,
        ((FLAG_I | FLAG_A | FLAG_C | FLAG_T) & !FLAG_I) == (FLAG_A | FLAG_C | FLAG_T),
        (FLAG_I | FLAG_A | FLAG_C | FLAG_T) != (FLAG_I | FLAG_A | FLAG_C),
        (FLAG_C | FLAG_T) & FLAG_T != 0,
        (FLAG_C | FLAG_T) & FLAG_I == 0,
        (FLAG_C | FLAG_T) & FLAG_C != 0,
        ((FLAG_C | FLAG_T) & !FLAG_I) == (FLAG_C | FLAG_T),
        (FLAG_C | FLAG_T) != (FLAG_I | FLAG_A | FLAG_C),
        (FLAG_I | FLAG_C | FLAG_T) & FLAG_T != 0,
        (FLAG_I | FLAG_C | FLAG_T) & FLAG_I != 0,
        (FLAG_I | FLAG_C | FLAG_T) & FLAG_C != 0,
        ((FLAG_I | FLAG_C | FLAG_T) & !FLAG_I) == (FLAG_C | FLAG_T),
        (FLAG_I | FLAG_C | FLAG_T) != (FLAG_I | FLAG_A | FLAG_C),
{
}

/// Duplexing never touches the security parameter, the rate, or the
/// latched direction.
pub proof fn lemma_duplex_frame(m: SpecStrobe, data: Seq<u8>, mode: DuplexMode)
    ensures
        spec_duplex(m, data, mode).0.sec == m.sec,
        spec_duplex(m, data, mode).0.rate == m.rate,
        spec_duplex(m, data, mode).0.is_receiver == m.is_receiver,
    decreases data.len(),
{
    if data.len() > 0 {
        lemma_duplex_frame(m, data.drop_last(), mode);
    }
}

/// States that agree on their core agree after duplexing the same data,
/// and emit the same output.
proof fn lemma_duplex_core(a: SpecStrobe, b: SpecStrobe, data: Seq<u8>, mode: DuplexMode)
    requires
        same_core(a, b),
    ensures
        same_core(spec_duplex(a, data, mode).0, spec_duplex(b, data, mode).0),
        spec_duplex(a, data, mode).1 == spec_duplex(b, data, mode).1,
    decreases data.len(),
{
    if data.len() > 0 {
        lemma_duplex_core(a, b, data.drop_last(), mode);
    }
}

/// One step of decrypting what one step of encrypting produced recovers
/// the plaintext byte and the encrypting state.
proof fn lemma_step_inverse(m: SpecStrobe, p: u8)
    ensures
        spec_step(m, spec_step(m, p, DuplexMode::AbsorbAndSet).1, DuplexMode::Exchange).0
            == spec_step(m, p, DuplexMode::AbsorbAndSet).0,
        spec_step(m, spec_step(m, p, DuplexMode::AbsorbAndSet).1, DuplexMode::Exchange).1 == p,
{
    lemma_xor_facts();
}

/// Exchanging what absorb-and-set produced recovers the input sequence
/// and reaches the same state: the byte-level heart of the encryption and
/// MAC round trips.
proof fn lemma_duplex_inverse(m: SpecStrobe, p: Seq<u8>)
    ensures
        spec_duplex(m, spec_duplex(m, p, DuplexMode::AbsorbAndSet).1, DuplexMode::Exchange).0
            == spec_duplex(m, p, DuplexMode::AbsorbAndSet).0,
        spec_duplex(m, spec_duplex(m, p, DuplexMode::AbsorbAndSet).1, DuplexMode::Exchange).1 == p,
    decreases p.len(),
{
    let c = spec_duplex(m, p, DuplexMode::AbsorbAndSet).1;
    if p.len() == 0 {
        assert(spec_duplex(m, c, DuplexMode::Exchange).1 =~= p);
    } else {
        let p0 = p.drop_last();
        lemma_duplex_inverse(m, p0);
        let mid = spec_duplex(m, p0, DuplexMode::AbsorbAndSet).0;
        let c0 = spec_duplex(m, p0, DuplexMode::AbsorbAndSet).1;
        let cb = spec_step(mid, p.last(), DuplexMode::AbsorbAndSet).1;
        lemma_duplex_len(m, p0, DuplexMode::AbsorbAndSet);
        assert(c == c0.push(cb));
        assert(c.drop_last() =~= c0);
        assert(c.last() == cb);
        lemma_step_inverse(mid, p.last());
        assert(spec_duplex(m, c, DuplexMode::Exchange).1 =~= p);
    }
}

/// A sender and a receiver whose states agree on the core run a matching
/// pair of transport operations: what the receiver's exchange recovers is
/// the sender's input, and both cores agree afterwards.
proof fn lemma_round_trip_general(
    tx: SpecStrobe,
    rx: SpecStrobe,
    p: Seq<u8>,
    send_flags: u8,
    recv_flags: u8,
)
    requires
        same_core(tx, rx),
        tx.is_receiver is None || tx.is_receiver == Some(false),
        rx.is_receiver is None || rx.is_receiver == Some(true),
        send_flags & FLAG_T != 0,
        send_flags & FLAG_I == 0,
        send_flags & FLAG_C != 0,
        (send_flags & !FLAG_I) == send_flags,
        recv_flags & FLAG_T != 0,
        recv_flags & FLAG_I != 0,
        recv_flags & FLAG_C != 0,
        (recv_flags & !FLAG_I) == send_flags,
        spec_mode(send_flags) == DuplexMode::AbsorbAndSet,
        spec_mode(recv_flags) == DuplexMode::Exchange,
    ensures
        spec_operate(
            rx,
            recv_flags,
            spec_operate(tx, send_flags, p, false).1,
            false,
        ).1 == p,
        same_core(
            spec_operate(tx, send_flags, p, false).0,
            spec_operate(
                rx,
                recv_flags,
                spec_operate(tx, send_flags, p, false).1,
                false,
            ).0,
        ),
        spec_operate(tx, send_flags, p, false).0.is_receiver == Some(false),
        spec_operate(
            rx,
            recv_flags,
            spec_operate(tx, send_flags, p, false).1,
            false,
        ).0.is_receiver == Some(true),
{
    let btx = spec_begin_op(tx, send_flags);
    let brx = spec_begin_op(rx, recv_flags);
    // Both sides latch their role and then mix the same adjusted flag
    // byte, so the cores agree after the operation boundary.
    let m1tx = SpecStrobe { is_receiver: Some(false), pos_begin: tx.pos + 1, ..tx };
    let m1rx = SpecStrobe { is_receiver: Some(true), pos_begin: rx.pos + 1, ..rx };
    let prefix = seq![(tx.pos_begin as u8), send_flags];
    assert(same_core(m1tx, m1rx));
    lemma_duplex_core(m1tx, m1rx, prefix, DuplexMode::Absorb);
    lemma_duplex_frame(m1tx, prefix, DuplexMode::Absorb);
    lemma_duplex_frame(m1rx, prefix, DuplexMode::Absorb);
    assert(same_core(btx, brx));
    assert(btx.is_receiver == Some(false));
    assert(brx.is_receiver == Some(true));
    // The sender encrypts; the receiver exchanges the ciphertext back to
    // the plaintext, reaching the same core state.
    let c = spec_duplex(btx, p, DuplexMode::AbsorbAndSet).1;
    lemma_duplex_inverse(btx, p);
    lemma_duplex_core(btx, brx, c, DuplexMode::Exchange);
    lemma_duplex_frame(btx, p, DuplexMode::AbsorbAndSet);
    lemma_duplex_frame(brx, c, DuplexMode::Exchange);
}

/// Encryption round trip: if a sender and a receiver hold identical
/// states whose direction is not yet latched against their role, then
/// `send_ENC` of any plaintext on one side followed by `recv_ENC` of the
/// produced ciphertext on the other recovers the plaintext exactly, and
/// leaves the two states equal except for the (necessarily opposite)
/// latched directions.
pub proof fn lemma_enc_round_trip(tx: SpecStrobe, rx: SpecStrobe, p: Seq<u8>)
    requires
        same_core(tx, rx),
        tx.is_receiver is None || tx.is_receiver == Some(false),
        rx.is_receiver is None || rx.is_receiver == Some(true),
    ensures
        spec_operate(
            rx,
            FLAG_I | FLAG_A | FLAG_C | FLAG_T,
            spec_operate(tx, FLAG_A | FLAG_C | FLAG_T, p, false).1,
            false,
        ).1 == p,
        same_core(
            spec_operate(tx, FLAG_A | FLAG_C | FLAG_T, p, false).0,
            spec_operate(
                rx,
                FLAG_I | FLAG_A | FLAG_C | FLAG_T,
                spec_operate(tx, FLAG_A | FLAG_C | FLAG_T, p, false).1,
                false,
            ).0,
        ),
        spec_operate(tx, FLAG_A | FLAG_C | FLAG_T, p, false).0.is_receiver == Some(false),
        spec_operate(
            rx,
            FLAG_I | FLAG_A | FLAG_C | FLAG_T,
            spec_operate(tx, FLAG_A | FLAG_C | FLAG_T, p, false).1,
            false,
        ).0.is_receiver == Some(true),
{
    lemma_law_flag_facts();
    lemma_round_trip_general(tx, rx, p, FLAG_A | FLAG_C | FLAG_T, FLAG_I | FLAG_A | FLAG_C | FLAG_T);
}

/// MAC round trip: under the same conditions, `send_MAC` over a zero
/// buffer produces a tag that the peer's `recv_MAC` accepts (the exchange
/// result is all zero), and both cores agree afterwards.
pub proof fn lemma_mac_round_trip(tx: SpecStrobe, rx: SpecStrobe, n: nat)
    requires
        same_core(tx, rx),
        tx.is_receiver is None || tx.is_receiver == Some(false),
        rx.is_receiver is None || rx.is_receiver == Some(true),
    ensures
        all_zero(
            spec_operate(
                rx,
                FLAG_I | FLAG_C | FLAG_T,
                spec_operate(tx, FLAG_C | FLAG_T, Seq::new(n, |i: int| 0u8), false).1,
                false,
            ).1,
        ),
        same_core(
            spec_operate(tx, FLAG_C | FLAG_T, Seq::new(n, |i: int| 0u8), false).0,
            spec_operate(
                rx,
                FLAG_I | FLAG_C | FLAG_T,
                spec_operate(tx, FLAG_C | FLAG_T, Seq::new(n, |i: int| 0u8), false).1,
                false,
            ).0,
        ),
{
    lemma_law_flag_facts();
    lemma_round_trip_general(tx, rx, Seq::new(n, |i: int| 0u8), FLAG_C | FLAG_T, FLAG_I | FLAG_C | FLAG_T);
}

/// Output byte `j` of a duplex run is one step applied to the state after
/// the first `j` bytes.
proof fn lemma_duplex_prefix(m: SpecStrobe, data: Seq<u8>, mode: DuplexMode, j: int)
    requires
        0 <= j < data.len(),
    ensures
        spec_duplex(m, data, mode).1[j] == spec_step(
            spec_duplex(m, data.take(j), mode).0,
            data[j],
            mode,
        ).1,
    decreases data.len(),
{
    lemma_duplex_len(m, data.drop_last(), mode);
    if j == data.len() - 1 {
        assert(data.take(j) =~= data.drop_last());
    } else {
        lemma_duplex_prefix(m, data.drop_last(), mode, j);
        assert(data.drop_last().take(j) =~= data.take(j));
    }
}

/// Tampering detection at the duplex level: if exchanging a tag yields all
/// zeros, then exchanging any tag that differs at one position (with the
/// earlier positions intact) does not.
proof fn lemma_exchange_flip(m: SpecStrobe, t: Seq<u8>, t2: Seq<u8>, j: int)
    requires
        t2.len() == t.len(),
        0 <= j < t.len(),
        forall|k: int| 0 <= k < j ==> t2[k] == t[k],
        t2[j] != t[j],
        all_zero(spec_duplex(m, t, DuplexMode::Exchange).1),
    ensures
        !all_zero(spec_duplex(m, t2, DuplexMode::Exchange).1),
{
    lemma_xor_facts();
    lemma_duplex_prefix(m, t, DuplexMode::Exchange, j);
    lemma_duplex_prefix(m, t2, DuplexMode::Exchange, j);
    assert(t2.take(j) =~= t.take(j));
    let mid = spec_duplex(m, t.take(j), DuplexMode::Exchange).0;
    let s = mid.st[mid.pos as int];
    lemma_duplex_len(m, t, DuplexMode::Exchange);
    lemma_duplex_len(m, t2, DuplexMode::Exchange);
    assert(spec_duplex(m, t, DuplexMode::Exchange).1[j] == (t[j] ^ s));
    assert(spec_duplex(m, t2, DuplexMode::Exchange).1[j] == (t2[j] ^ s));
    assert((t[j] ^ s) == 0);
    assert((t2[j] ^ s) != 0);
}

/// A flipped tag is rejected: if `recv_MAC` of a tag `t` would succeed
/// from a given state, then `recv_MAC` of any tag that differs from `t`
/// at one position (with the earlier positions intact) fails from the
/// same state.
pub proof fn lemma_recv_mac_rejects_flip(m: SpecStrobe, t: Seq<u8>, t2: Seq<u8>, j: int)
    requires
        t2.len() == t.len(),
        0 <= j < t.len(),
        forall|k: int| 0 <= k < j ==> t2[k] == t[k],
        t2[j] != t[j],
        all_zero(spec_operate(m, FLAG_I | FLAG_C | FLAG_T, t, false).1),
    ensures
        !all_zero(spec_operate(m, FLAG_I | FLAG_C | FLAG_T, t2, false).1),
{
    lemma_law_flag_facts();
    let b = spec_begin_op(m, FLAG_I | FLAG_C | FLAG_T);
    lemma_exchange_flip(b, t, t2, j);
}

/// Splitting a duplex run into two pieces reaches the same state and
/// concatenates the outputs.
proof fn lemma_duplex_append(m: SpecStrobe, a: Seq<u8>, b: Seq<u8>, mode: DuplexMode)
    ensures
        spec_duplex(m, a + b, mode).0 == spec_duplex(spec_duplex(m, a, mode).0, b, mode).0,
        spec_duplex(m, a + b, mode).1 == spec_duplex(m, a, mode).1 + spec_duplex(
            spec_duplex(m, a, mode).0,
            b,
            mode,
        ).1,
    decreases b.len(),
{
    let mid = spec_duplex(m, a, mode).0;
    if b.len() == 0 {
        assert(a + b =~= a);
        assert(spec_duplex(m, a, mode).1 + spec_duplex(mid, b, mode).1 =~= spec_duplex(
            m,
            a,
            mode,
        ).1);
    } else {
        lemma_duplex_append(m, a, b.drop_last(), mode);
        assert((a + b).drop_last() =~= a + b.drop_last());
        assert((a + b).last() == b.last());
        assert(spec_duplex(m, a, mode).1 + spec_duplex(mid, b, mode).1 =~= spec_duplex(
            m,
            a + b,
            mode,
        ).1);
    }
}

/// Streaming an in-place operation is the same as running it in one
/// piece: for any split of the input, running the operation on the first
/// part and continuing it (`more = true`) on the second reaches the same
/// state and produces the concatenation of the outputs.
pub proof fn lemma_streaming_split(m: SpecStrobe, flags: u8, x1: Seq<u8>, x2: Seq<u8>, more: bool)
    ensures
        spec_operate(m, flags, x1 + x2, more).0 == spec_operate(
            spec_operate(m, flags, x1, more).0,
            flags,
            x2,
            true,
        ).0,
        spec_operate(m, flags, x1 + x2, more).1 == spec_operate(m, flags, x1, more).1
            + spec_operate(spec_operate(m, flags, x1, more).0, flags, x2, true).1,
{
    let m1 = if more {
        m
    } else {
        spec_begin_op(m, flags)
    };
    lemma_duplex_append(m1, x1, x2, spec_mode(flags));
}

/// Streaming a read-only operation is the same as running it in one
/// piece.
pub proof fn lemma_streaming_split_no_mutate(
    m: SpecStrobe,
    flags: u8,
    x1: Seq<u8>,
    x2: Seq<u8>,
    more: bool,
)
    ensures
        spec_operate_no_mutate(m, flags, x1 + x2, more) == spec_operate_no_mutate(
            spec_operate_no_mutate(m, flags, x1, more),
            flags,
            x2,
            true,
        ),
{
    let m1 = if more {
        m
    } else {
        spec_begin_op(m, flags)
    };
    lemma_duplex_append(m1, x1, x2, crate::model::spec_mode_no_mutate(flags));
}

/// Determinism: a STROBE object is a function of its abstract state, so
/// two objects with equal states — for instance an object and its clone —
/// stay equal under the same operation with the same input.
pub proof fn lemma_same_state_same_result(
    a: SpecStrobe,
    b: SpecStrobe,
    flags: u8,
    data: Seq<u8>,
    more: bool,
)
    requires
        a == b,
    ensures
        spec_operate(a, flags, data, more) == spec_operate(b, flags, data, more),
        spec_operate_no_mutate(a, flags, data, more) == spec_operate_no_mutate(b, flags, data, more),
{
}

} // verus!
