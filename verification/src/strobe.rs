//! The STROBE object and its operations.
//!
//! A `Strobe` value is a duplex sponge over Keccak-f[1600] driven by a small
//! algebra of flagged operations. Every method is specified against the
//! abstract model in `model`: the contract of each operation states exactly
//! which `SpecStrobe` the method leaves behind and which bytes it returns.

use vstd::prelude::*;

use crate::keccak::keccakf_u8;
use crate::model::{
    all_zero, spec_adjusted_flags, spec_begin_op, spec_duplex, spec_init_byte, spec_latched,
    spec_mode, spec_mode_no_mutate, spec_new, spec_operate, spec_operate_no_mutate, spec_rate,
    spec_run_f, DuplexMode, SecParam, SpecStrobe, FLAG_A, FLAG_C, FLAG_I, FLAG_K, FLAG_M, FLAG_T,
};
use crate::model::{lemma_duplex_len, lemma_duplex_out_identity, lemma_duplex_take_step};

verus! {

use vstd::pervasive::VecAdditionalExecFns;

/// An empty struct that just indicates that an error occurred in verifying
/// a MAC.
#[derive(Debug, PartialEq, Eq, Structural)]
pub struct AuthError;

/// The one-byte tag that encodes the security parameter.
pub open spec fn spec_sec_tag(sec: SecParam) -> u8 {
    match sec {
        SecParam::B128 => 0,
        SecParam::B256 => 1,
    }
}

/// The one-byte tag that encodes the latched direction.
pub open spec fn spec_recv_tag(r: Option<bool>) -> u8 {
    match r {
        None => 0,
        Some(false) => 1,
        Some(true) => 2,
    }
}

/// The stable 204-byte encoding of a STROBE object: the 200-byte state,
/// the security tag, the two positions, and the direction tag.
pub open spec fn spec_encode(m: SpecStrobe) -> Seq<u8> {
    m.st + seq![
        spec_sec_tag(m.sec),
        (m.pos as u8),
        (m.pos_begin as u8),
        spec_recv_tag(m.is_receiver),
    ]
}

/// Whether a byte string is a well-formed encoding: right length, known
/// tags, and positions within the rate that the security tag determines.
pub open spec fn spec_decodable(d: Seq<u8>) -> bool {
    &&& d.len() == 204
    &&& (d[200] == 0 || d[200] == 1)
    &&& (d[203] == 0 || d[203] == 1 || d[203] == 2)
    &&& (d[201] as nat) < spec_rate(if d[200] == 0 { SecParam::B128 } else { SecParam::B256 })
    &&& (d[202] as nat) <= spec_rate(if d[200] == 0 { SecParam::B128 } else { SecParam::B256 })
}

/// The object that a well-formed encoding denotes.
pub open spec fn spec_decoded(d: Seq<u8>) -> SpecStrobe {
    let sec = if d[200] == 0 {
        SecParam::B128
    } else {
        SecParam::B256
    };
    SpecStrobe {
        st: d.take(200),
        pos: d[201] as nat,
        pos_begin: d[202] as nat,
        sec: sec,
        rate: spec_rate(sec),
        is_receiver: if d[203] == 0 {
            None
        } else if d[203] == 1 {
            Some(false)
        } else {
            Some(true)
        },
    }
}

/// Serialization round trip: decoding what `to_bytes` encodes is a pure
/// identity on every well-formed object, so suspending and resuming a
/// session does not change it.
pub proof fn lemma_codec_round_trip(m: SpecStrobe)
    requires
        m.wf(),
    ensures
        spec_decodable(spec_encode(m)),
        spec_decoded(spec_encode(m)) == m,
{
    let d = spec_encode(m);
    assert(d.take(200) =~= m.st);
    assert(spec_decoded(d) =~= m);
}

/// The flag combinations of the named operations all leave the reserved K
/// bit clear.
proof fn lemma_flags_k_clear()
    by (bit_vector)
    ensures
        FLAG_A & FLAG_K == 0,
        (FLAG_A | FLAG_M) & FLAG_K == 0,
        (FLAG_A | FLAG_C) & FLAG_K == 0,
        (FLAG_A | FLAG_C | FLAG_M) & FLAG_K == 0,
        (FLAG_I | FLAG_A | FLAG_C) & FLAG_K == 0,
        (FLAG_I | FLAG_A | FLAG_C | FLAG_M) & FLAG_K == 0,
        (FLAG_A | FLAG_T) & FLAG_K == 0,
        (FLAG_A | FLAG_T | FLAG_M) & FLAG_K == 0,
        (FLAG_I | FLAG_A | FLAG_T) & FLAG_K == 0,
        (FLAG_I | FLAG_A | FLAG_T | FLAG_M) & FLAG_K == 0,
        (FLAG_A | FLAG_C | FLAG_T) & FLAG_K == 0,
        (FLAG_A | FLAG_C | FLAG_T | FLAG_M) & FLAG_K == 0,
        (FLAG_I | FLAG_A | FLAG_C | FLAG_T) & FLAG_K == 0,
        (FLAG_I | FLAG_A | FLAG_C | FLAG_T | FLAG_M) & FLAG_K == 0,
        (FLAG_C | FLAG_T) & FLAG_K == 0,
        (FLAG_C | FLAG_T | FLAG_M) & FLAG_K == 0,
        (FLAG_I | FLAG_C | FLAG_T) & FLAG_K == 0,
        (FLAG_I | FLAG_C | FLAG_T | FLAG_M) & FLAG_K == 0,
        FLAG_C & FLAG_K == 0,
        (FLAG_C | FLAG_M) & FLAG_K == 0,
{
}

/// ORing bytes yields zero exactly when both are zero.
proof fn lemma_or_zero()
    by (bit_vector)
    ensures
        forall|x: u8, y: u8| #[trigger] (x | y) == 0 <==> (x == 0 && y == 0),
{
}

/// Relies on subtle's `ConstantTimeEq` for `u8`: compares the two bytes for
/// equality in constant time.
#[verifier::external_body]
fn ct_u8_eq(a: u8, b: u8) -> (r: bool)
    ensures
        r == (a == b),
{
    bool::from(subtle::ConstantTimeEq::ct_eq(&a, &b))
}

/// The main STROBE object, limited to the Keccak-f[1600] permutation.
///
/// Most operations take the data to process and a `more` flag; passing
/// `more = true` continues the previous operation on further input instead
/// of beginning a new one.
pub struct Strobe {
    /// Internal Keccak state.
    st: Vec<u8>,
    /// Security parameter (128 or 256).
    pub sec: SecParam,
    /// This is the `R` parameter: the rate, in bytes.
    pub rate: usize,
    /// Next byte index in the rate region.
    pos: usize,
    /// One past the index at which the current operation began.
    pos_begin: usize,
    /// Whether this side is the receiver; unset until the first transport
    /// operation.
    is_receiver: Option<bool>,
}

impl View for Strobe {
    type V = SpecStrobe;

    closed spec fn view(&self) -> SpecStrobe {
        SpecStrobe {
            st: self.st@,
            pos: self.pos as nat,
            pos_begin: self.pos_begin as nat,
            sec: self.sec,
            rate: self.rate as nat,
            is_receiver: self.is_receiver,
        }
    }
}

impl Clone for Strobe {
    /// A deep copy: the clone has exactly the state of the original, so a
    /// forked session can be tried and discarded.
    fn clone(&self) -> (res: Self)
        ensures
            res@ == self@,
    {
        let st2 = self.st.clone();
        proof {
            assert forall|i: int| 0 <= i < self.st@.len() implies st2@[i] == self.st@[i] by {
                assert(vstd::pervasive::cloned::<u8>(self.st[i], st2[i]));
            }
            assert(st2@ =~= self.st@);
        }
        Strobe {
            st: st2,
            sec: self.sec,
            rate: self.rate,
            pos: self.pos,
            pos_begin: self.pos_begin,
            is_receiver: self.is_receiver,
        }
    }
}

impl Strobe {
    /// Makes a new `Strobe` object with a given protocol byte string and
    /// security parameter.
    pub fn new(proto: &[u8], sec: SecParam) -> (s: Strobe)
        ensures
            s@ == spec_new(proto@, sec),
            s@.wf(),
    {
        let rate: usize = match sec {
            SecParam::B128 => 166,
            SecParam::B256 => 134,
        };
        let mut st: Vec<u8> = vec![0u8; 200];
        st.set(0, 0x01);
        st.set(1, (rate as u8) + 2);
        st.set(2, 0x01);
        st.set(3, 0x00);
        st.set(4, 0x01);
        st.set(5, 0x60);
        st.set(6, 0x53);
        st.set(7, 0x54);
        st.set(8, 0x52);
        st.set(9, 0x4f);
        st.set(10, 0x42);
        st.set(11, 0x45);
        st.set(12, 0x76);
        st.set(13, 0x31);
        st.set(14, 0x2e);
        st.set(15, 0x30);
        st.set(16, 0x2e);
        st.set(17, 0x32);
        proof {
            assert(st@ =~= Seq::new(200, |j: int| spec_init_byte(j, spec_rate(sec))));
        }
        keccakf_u8(&mut st);
        let mut strobe = Strobe {
            st: st,
            sec: sec,
            rate: rate,
            pos: 0,
            pos_begin: 0,
            is_receiver: None,
        };
        strobe.meta_ad(proto, false);
        proof {
            assert(strobe@ =~= spec_new(proto@, sec));
        }
        strobe
    }

    /// Returns a string of the form `Strobe-Keccak-<sec>/<b>-v<ver>` where
    /// `sec` is the bits of security (128 or 256), `b` is the block size
    /// (in bits) of the Keccak permutation function, and `ver` is the
    /// protocol version.
    pub fn version_str(&self) -> (r: String)
        ensures
            self@.sec == SecParam::B128 ==> r@ == "Strobe-Keccak-128/1600-v1.0.2"@,
            self@.sec == SecParam::B256 ==> r@ == "Strobe-Keccak-256/1600-v1.0.2"@,
    {
        match self.sec {
            SecParam::B128 => "Strobe-Keccak-128/1600-v1.0.2".to_owned(),
            SecParam::B256 => "Strobe-Keccak-256/1600-v1.0.2".to_owned(),
        }
    }

    /// XOR the cSHAKE-style padding into the state, permute, and reset the
    /// position counters.
    fn run_f(&mut self)
        requires
            old(self)@.st.len() == 200,
            old(self)@.rate == spec_rate(old(self)@.sec),
            old(self)@.pos <= old(self)@.rate,
            old(self)@.pos_begin <= old(self)@.rate,
        ensures
            final(self)@ == spec_run_f(old(self)@),
            final(self)@.wf(),
    {
        let p = self.pos;
        let v0 = self.st[p] ^ (self.pos_begin as u8);
        self.st.set(p, v0);
        let v1 = self.st[p + 1] ^ 0x04;
        self.st.set(p + 1, v1);
        let r1 = self.rate + 1;
        let v2 = self.st[r1] ^ 0x80;
        self.st.set(r1, v2);
        keccakf_u8(&mut self.st);
        self.pos = 0;
        self.pos_begin = 0;
        proof {
            assert(self@ =~= spec_run_f(old(self)@));
        }
    }

    /// XORs the given data into the state. This is a special case of the
    /// duplex loop.
    fn absorb(&mut self, data: &[u8])
        requires
            old(self)@.wf(),
        ensures
            final(self)@ == spec_duplex(old(self)@, data@, DuplexMode::Absorb).0,
            final(self)@.wf(),
    {
        let n = data.len();
        for i in 0..n
            invariant
                old(self)@.wf(),
                data@.len() == n,
                self@ == spec_duplex(old(self)@, data@.take(i as int), DuplexMode::Absorb).0,
                self@.wf(),
        {
            let b = self.st[self.pos] ^ data[i];
            self.st.set(self.pos, b);
            self.pos = self.pos + 1;
            proof {
                lemma_duplex_take_step(old(self)@, data@, DuplexMode::Absorb, i as int);
            }
            if self.pos == self.rate {
                self.run_f();
            }
        }
        proof {
            assert(data@.take(n as int) =~= data@);
        }
    }

    /// XORs the given data into the state, then sets the data equal to the
    /// state: outbound ciphertext and MACs.
    #[verifier::rlimit(100)]
    fn absorb_and_set(&mut self, data: &mut Vec<u8>)
        requires
            old(self)@.wf(),
        ensures
            final(self)@ == spec_duplex(old(self)@, old(data)@, DuplexMode::AbsorbAndSet).0,
            final(data)@ == spec_duplex(old(self)@, old(data)@, DuplexMode::AbsorbAndSet).1,
            final(self)@.wf(),
    {
        let n = data.len();
        for i in 0..n
            invariant
                old(self)@.wf(),
                data@.len() == n,
                old(data)@.len() == n,
                self@ == spec_duplex(old(self)@, old(data)@.take(i as int), DuplexMode::AbsorbAndSet).0,
                data@ == spec_duplex(old(self)@, old(data)@.take(i as int), DuplexMode::AbsorbAndSet).1
                    + old(data)@.skip(i as int),
                self@.wf(),
        {
            proof {
                lemma_duplex_len(old(self)@, old(data)@.take(i as int), DuplexMode::AbsorbAndSet);
                assert(data@[i as int] == old(data)@[i as int]);
            }
            let b = data[i];
            let s = self.st[self.pos];
            let v = s ^ b;
            self.st.set(self.pos, v);
            data.set(i, v);
            self.pos = self.pos + 1;
            proof {
                lemma_duplex_take_step(old(self)@, old(data)@, DuplexMode::AbsorbAndSet, i as int);
                lemma_duplex_len(old(self)@, old(data)@.take(i as int + 1), DuplexMode::AbsorbAndSet);
                assert(data@ =~= spec_duplex(
                    old(self)@,
                    old(data)@.take(i as int + 1),
                    DuplexMode::AbsorbAndSet,
                ).1 + old(data)@.skip(i as int + 1));
            }
            if self.pos == self.rate {
                self.run_f();
            }
        }
        proof {
            assert(old(data)@.take(n as int) =~= old(data)@);
            lemma_duplex_len(old(self)@, old(data)@, DuplexMode::AbsorbAndSet);
            assert(data@ =~= spec_duplex(old(self)@, old(data)@, DuplexMode::AbsorbAndSet).1);
        }
    }

    /// Overwrites the state with the given data while XORing the given
    /// data with the old state: inbound ciphertext, MAC checks, and
    /// ratcheting.
    #[verifier::rlimit(100)]
    fn exchange(&mut self, data: &mut Vec<u8>)
        requires
            old(self)@.wf(),
        ensures
            final(self)@ == spec_duplex(old(self)@, old(data)@, DuplexMode::Exchange).0,
            final(data)@ == spec_duplex(old(self)@, old(data)@, DuplexMode::Exchange).1,
            final(self)@.wf(),
    {
        let n = data.len();
        for i in 0..n
            invariant
                old(self)@.wf(),
                data@.len() == n,
                old(data)@.len() == n,
                self@ == spec_duplex(old(self)@, old(data)@.take(i as int), DuplexMode::Exchange).0,
                data@ == spec_duplex(old(self)@, old(data)@.take(i as int), DuplexMode::Exchange).1
                    + old(data)@.skip(i as int),
                self@.wf(),
        {
            proof {
                lemma_duplex_len(old(self)@, old(data)@.take(i as int), DuplexMode::Exchange);
                assert(data@[i as int] == old(data)@[i as int]);
            }
            let b = data[i];
            let s = self.st[self.pos];
            let o = b ^ s;
            self.st.set(self.pos, b);
            data.set(i, o);
            self.pos = self.pos + 1;
            proof {
                lemma_duplex_take_step(old(self)@, old(data)@, DuplexMode::Exchange, i as int);
                lemma_duplex_len(old(self)@, old(data)@.take(i as int + 1), DuplexMode::Exchange);
                assert(data@ =~= spec_duplex(
                    old(self)@,
                    old(data)@.take(i as int + 1),
                    DuplexMode::Exchange,
                ).1 + old(data)@.skip(i as int + 1));
            }
            if self.pos == self.rate {
                self.run_f();
            }
        }
        proof {
            assert(old(data)@.take(n as int) =~= old(data)@);
            lemma_duplex_len(old(self)@, old(data)@, DuplexMode::Exchange);
            assert(data@ =~= spec_duplex(old(self)@, old(data)@, DuplexMode::Exchange).1);
        }
    }

    /// Overwrites the state with the given data without touching the
    /// input: the read-only special case of `exchange`.
    fn overwrite(&mut self, data: &[u8])
        requires
            old(self)@.wf(),
        ensures
            final(self)@ == spec_duplex(old(self)@, data@, DuplexMode::Overwrite).0,
            final(self)@.wf(),
    {
        let n = data.len();
        for i in 0..n
            invariant
                old(self)@.wf(),
                data@.len() == n,
                self@ == spec_duplex(old(self)@, data@.take(i as int), DuplexMode::Overwrite).0,
                self@.wf(),
        {
            self.st.set(self.pos, data[i]);
            self.pos = self.pos + 1;
            proof {
                lemma_duplex_take_step(old(self)@, data@, DuplexMode::Overwrite, i as int);
            }
            if self.pos == self.rate {
                self.run_f();
            }
        }
        proof {
            assert(data@.take(n as int) =~= data@);
        }
    }

    /// Copies the state into the given buffer and zeroes the copied state
    /// bytes: the PRF output path.
    #[verifier::rlimit(100)]
    fn squeeze(&mut self, data: &mut Vec<u8>)
        requires
            old(self)@.wf(),
        ensures
            final(self)@ == spec_duplex(old(self)@, old(data)@, DuplexMode::Squeeze).0,
            final(data)@ == spec_duplex(old(self)@, old(data)@, DuplexMode::Squeeze).1,
            final(self)@.wf(),
    {
        let n = data.len();
        for i in 0..n
            invariant
                old(self)@.wf(),
                data@.len() == n,
                old(data)@.len() == n,
                self@ == spec_duplex(old(self)@, old(data)@.take(i as int), DuplexMode::Squeeze).0,
                data@ == spec_duplex(old(self)@, old(data)@.take(i as int), DuplexMode::Squeeze).1
                    + old(data)@.skip(i as int),
                self@.wf(),
        {
            proof {
                lemma_duplex_len(old(self)@, old(data)@.take(i as int), DuplexMode::Squeeze);
                assert(data@[i as int] == old(data)@[i as int]);
            }
            let s = self.st[self.pos];
            self.st.set(self.pos, 0);
            data.set(i, s);
            self.pos = self.pos + 1;
            proof {
                lemma_duplex_take_step(old(self)@, old(data)@, DuplexMode::Squeeze, i as int);
                lemma_duplex_len(old(self)@, old(data)@.take(i as int + 1), DuplexMode::Squeeze);
                assert(data@ =~= spec_duplex(
                    old(self)@,
                    old(data)@.take(i as int + 1),
                    DuplexMode::Squeeze,
                ).1 + old(data)@.skip(i as int + 1));
            }
            if self.pos == self.rate {
                self.run_f();
            }
        }
        proof {
            assert(old(data)@.take(n as int) =~= old(data)@);
            lemma_duplex_len(old(self)@, old(data)@, DuplexMode::Squeeze);
            assert(data@ =~= spec_duplex(old(self)@, old(data)@, DuplexMode::Squeeze).1);
        }
    }

    /// Begin an operation: latch the direction on the first transport
    /// operation, absorb the two-byte boundary prefix, and permute if a
    /// cipher-bearing operation does not start on a fresh block.
    fn begin_op(&mut self, flags: u8)
        requires
            old(self)@.wf(),
        ensures
            final(self)@ == spec_begin_op(old(self)@, flags),
            final(self)@.wf(),
    {
        let mut f = flags;
        if f & FLAG_T != 0 {
            let is_op_receiving = f & FLAG_I != 0;
            if self.is_receiver.is_none() {
                self.is_receiver = Some(is_op_receiving);
            }
            let role = if let Some(r) = self.is_receiver {
                r
            } else {
                is_op_receiving
            };
            if role != is_op_receiving {
                f = f | FLAG_I;
            } else {
                f = f & !FLAG_I;
            }
        }
        proof {
            assert(self.is_receiver == spec_latched(old(self)@, flags));
            assert(f == spec_adjusted_flags(old(self)@, flags));
        }
        let old_pos_begin = self.pos_begin;
        self.pos_begin = self.pos + 1;
        let mut to_mix: Vec<u8> = Vec::new();
        to_mix.push(old_pos_begin as u8);
        to_mix.push(f);
        proof {
            assert(to_mix@ =~= seq![(old(self)@.pos_begin as u8), f]);
        }
        self.absorb(to_mix.as_slice());
        let force_f = f & FLAG_C != 0 || f & FLAG_K != 0;
        if force_f && self.pos != 0 {
            self.run_f();
        }
    }

    /// Performs an in-place operation: begin it (unless `more` continues a
    /// streamed one), then walk the data through the duplex mode that the
    /// flags select.
    pub(crate) fn operate(&mut self, flags: u8, data: &mut Vec<u8>, more: bool)
        requires
            old(self)@.wf(),
            flags & FLAG_K == 0,
        ensures
            final(self)@ == spec_operate(old(self)@, flags, old(data)@, more).0,
            final(data)@ == spec_operate(old(self)@, flags, old(data)@, more).1,
            final(data)@.len() == old(data)@.len(),
            final(self)@.wf(),
    {
        if !more {
            self.begin_op(flags);
        }
        if flags & FLAG_C != 0 && flags & FLAG_T != 0 && flags & FLAG_I == 0 {
            self.absorb_and_set(data);
        } else if flags == (FLAG_I | FLAG_A | FLAG_C) {
            self.squeeze(data);
        } else if flags & FLAG_C != 0 {
            self.exchange(data);
        } else {
            let ghost m1 = self@;
            self.absorb(data.as_slice());
            proof {
                lemma_duplex_out_identity(m1, data@, DuplexMode::Absorb);
            }
        }
        proof {
            let m1 = if more {
                old(self)@
            } else {
                spec_begin_op(old(self)@, flags)
            };
            lemma_duplex_len(m1, old(data)@, spec_mode(flags));
        }
    }

    /// Performs an operation that only reads its input (AD, KEY, and the
    /// CLR operations).
    pub(crate) fn operate_no_mutate(&mut self, flags: u8, data: &[u8], more: bool)
        requires
            old(self)@.wf(),
            flags & FLAG_K == 0,
        ensures
            final(self)@ == spec_operate_no_mutate(old(self)@, flags, data@, more),
            final(self)@.wf(),
    {
        if !more {
            self.begin_op(flags);
        }
        if flags & FLAG_C != 0 {
            self.overwrite(data);
        } else {
            self.absorb(data);
        }
    }

    /// Attempts to authenticate the current state against the given MAC.
    /// On failure, it returns an `AuthError`. It behooves the user of this
    /// library to check this return value and overreact on error.
    ///
    /// The check is constant-time: the result bytes are folded into one
    /// accumulator, and only the accumulator is compared (through subtle),
    /// so no byte position is leaked.
    #[must_use]
    pub fn recv_mac(&mut self, data: &mut Vec<u8>, more: bool) -> (res: Result<(), AuthError>)
        requires
            old(self)@.wf(),
        ensures
            final(self)@ == spec_operate(
                old(self)@,
                FLAG_I | FLAG_C | FLAG_T,
                old(data)@,
                more,
            ).0,
            final(data)@ == spec_operate(old(self)@, FLAG_I | FLAG_C | FLAG_T, old(data)@, more).1,
            final(self)@.wf(),
            res is Ok <==> all_zero(
                spec_operate(old(self)@, FLAG_I | FLAG_C | FLAG_T, old(data)@, more).1,
            ),
    {
        proof {
            lemma_flags_k_clear();
        }
        self.operate(FLAG_I | FLAG_C | FLAG_T, data, more);
        let mut acc: u8 = 0;
        let n = data.len();
        for i in 0..n
            invariant
                data@.len() == n,
                (acc == 0) <==> (forall|j: int| 0 <= j < i ==> data@[j] == 0),
        {
            proof {
                lemma_or_zero();
            }
            acc = acc | data[i];
        }
        if ct_u8_eq(acc, 0) {
            Ok(())
        } else {
            Err(AuthError)
        }
    }

    /// Attempts to authenticate the current state against the given MAC,
    /// domain-separated as metadata. On failure, it returns an
    /// `AuthError`.
    #[must_use]
    pub fn meta_recv_mac(&mut self, data: &mut Vec<u8>, more: bool) -> (res: Result<
        (),
        AuthError,
    >)
        requires
            old(self)@.wf(),
        ensures
            final(self)@ == spec_operate(
                old(self)@,
                FLAG_I | FLAG_C | FLAG_T | FLAG_M,
                old(data)@,
                more,
            ).0,
            final(data)@ == spec_operate(
                old(self)@,
                FLAG_I | FLAG_C | FLAG_T | FLAG_M,
                old(data)@,
                more,
            ).1,
            final(self)@.wf(),
            res is Ok <==> all_zero(
                spec_operate(old(self)@, FLAG_I | FLAG_C | FLAG_T | FLAG_M, old(data)@, more).1,
            ),
    {
        proof {
            lemma_flags_k_clear();
        }
        self.operate(FLAG_I | FLAG_C | FLAG_T | FLAG_M, data, more);
        let mut acc: u8 = 0;
        let n = data.len();
        for i in 0..n
            invariant
                data@.len() == n,
                (acc == 0) <==> (forall|j: int| 0 <= j < i ==> data@[j] == 0),
        {
            proof {
                lemma_or_zero();
            }
            acc = acc | data[i];
        }
        if ct_u8_eq(acc, 0) {
            Ok(())
        } else {
            Err(AuthError)
        }
    }

    /// Ratchets the internal state forward in an irreversible way by
    /// zeroing `bytes_to_zero` bytes of the rate region, permuting as the
    /// boundary is crossed.
    pub fn ratchet(&mut self, bytes_to_zero: usize, more: bool)
        requires
            old(self)@.wf(),
        ensures
            final(self)@ == spec_operate(
                old(self)@,
                FLAG_C,
                Seq::new(bytes_to_zero as nat, |i: int| 0u8),
                more,
            ).0,
            final(self)@.wf(),
    {
        proof {
            lemma_flags_k_clear();
        }
        let mut zeros: Vec<u8> = vec![0u8; bytes_to_zero];
        proof {
            assert(zeros@ =~= Seq::new(bytes_to_zero as nat, |i: int| 0u8));
        }
        self.operate(FLAG_C, &mut zeros, more);
    }

    /// Ratchets the internal state forward, domain-separated as metadata.
    pub fn meta_ratchet(&mut self, bytes_to_zero: usize, more: bool)
        requires
            old(self)@.wf(),
        ensures
            final(self)@ == spec_operate(
                old(self)@,
                FLAG_C | FLAG_M,
                Seq::new(bytes_to_zero as nat, |i: int| 0u8),
                more,
            ).0,
            final(self)@.wf(),
    {
        proof {
            lemma_flags_k_clear();
        }
        let mut zeros: Vec<u8> = vec![0u8; bytes_to_zero];
        proof {
            assert(zeros@ =~= Seq::new(bytes_to_zero as nat, |i: int| 0u8));
        }
        self.operate(FLAG_C | FLAG_M, &mut zeros, more);
    }

    /// Sends an encrypted message: the buffer is encrypted in place.
    pub fn send_enc(&mut self, data: &mut Vec<u8>, more: bool)
        requires
            old(self)@.wf(),
        ensures
            final(self)@ == spec_operate(
                old(self)@,
                FLAG_A | FLAG_C | FLAG_T,
                old(data)@,
                more,
            ).0,
            final(data)@ == spec_operate(old(self)@, FLAG_A | FLAG_C | FLAG_T, old(data)@, more).1,
            final(self)@.wf(),
    {
        proof {
            lemma_flags_k_clear();
        }
        self.operate(FLAG_A | FLAG_C | FLAG_T, data, more);
    }

    /// Sends an encrypted message, domain-separated as metadata.
    pub fn meta_send_enc(&mut self, data: &mut Vec<u8>, more: bool)
        requires
            old(self)@.wf(),
        ensures
            final(self)@ == spec_operate(
                old(self)@,
                FLAG_A | FLAG_C | FLAG_T | FLAG_M,
                old(data)@,
                more,
            ).0,
            final(data)@ == spec_operate(
                old(self)@,
                FLAG_A | FLAG_C | FLAG_T | FLAG_M,
                old(data)@,
                more,
            ).1,
            final(self)@.wf(),
    {
        proof {
            lemma_flags_k_clear();
        }
        self.operate(FLAG_A | FLAG_C | FLAG_T | FLAG_M, data, more);
    }

    /// Receives an encrypted message: the buffer is decrypted in place.
    pub fn recv_enc(&mut self, data: &mut Vec<u8>, more: bool)
        requires
            old(self)@.wf(),
        ensures
            final(self)@ == spec_operate(
                old(self)@,
                FLAG_I | FLAG_A | FLAG_C | FLAG_T,
                old(data)@,
                more,
            ).0,
            final(data)@ == spec_operate(
                old(self)@,
                FLAG_I | FLAG_A | FLAG_C | FLAG_T,
                old(data)@,
                more,
            ).1,
            final(self)@.wf(),
    {
        proof {
            lemma_flags_k_clear();
        }
        self.operate(FLAG_I | FLAG_A | FLAG_C | FLAG_T, data, more);
    }

    /// Receives an encrypted message, domain-separated as metadata.
    pub fn meta_recv_enc(&mut self, data: &mut Vec<u8>, more: bool)
        requires
            old(self)@.wf(),
        ensures
            final(self)@ == spec_operate(
                old(self)@,
                FLAG_I | FLAG_A | FLAG_C | FLAG_T | FLAG_M,
                old(data)@,
                more,
            ).0,
            final(data)@ == spec_operate(
                old(self)@,
                FLAG_I | FLAG_A | FLAG_C | FLAG_T | FLAG_M,
                old(data)@,
                more,
            ).1,
            final(self)@.wf(),
    {
        proof {
            lemma_flags_k_clear();
        }
        self.operate(FLAG_I | FLAG_A | FLAG_C | FLAG_T | FLAG_M, data, more);
    }

    /// Sends a MAC of the internal state: fills the given zero buffer with
    /// the tag.
    pub fn send_mac(&mut self, data: &mut Vec<u8>, more: bool)
        requires
            old(self)@.wf(),
        ensures
            final(self)@ == spec_operate(old(self)@, FLAG_C | FLAG_T, old(data)@, more).0,
            final(data)@ == spec_operate(old(self)@, FLAG_C | FLAG_T, old(data)@, more).1,
            final(self)@.wf(),
    {
        proof {
            lemma_flags_k_clear();
        }
        self.operate(FLAG_C | FLAG_T, data, more);
    }

    /// Sends a MAC of the internal state, domain-separated as metadata.
    pub fn meta_send_mac(&mut self, data: &mut Vec<u8>, more: bool)
        requires
            old(self)@.wf(),
        ensures
            final(self)@ == spec_operate(
                old(self)@,
                FLAG_C | FLAG_T | FLAG_M,
                old(data)@,
                more,
            ).0,
            final(data)@ == spec_operate(old(self)@, FLAG_C | FLAG_T | FLAG_M, old(data)@, more).1,
            final(self)@.wf(),
    {
        proof {
            lemma_flags_k_clear();
        }
        self.operate(FLAG_C | FLAG_T | FLAG_M, data, more);
    }

    /// Extracts pseudorandom data as a function of the internal state into
    /// the given buffer.
    pub fn prf(&mut self, data: &mut Vec<u8>, more: bool)
        requires
            old(self)@.wf(),
        ensures
            final(self)@ == spec_operate(
                old(self)@,
                FLAG_I | FLAG_A | FLAG_C,
                old(data)@,
                more,
            ).0,
            final(data)@ == spec_operate(old(self)@, FLAG_I | FLAG_A | FLAG_C, old(data)@, more).1,
            final(self)@.wf(),
    {
        proof {
            lemma_flags_k_clear();
        }
        self.operate(FLAG_I | FLAG_A | FLAG_C, data, more);
    }

    /// Extracts pseudorandom data, domain-separated as metadata.
    pub fn meta_prf(&mut self, data: &mut Vec<u8>, more: bool)
        requires
            old(self)@.wf(),
        ensures
            final(self)@ == spec_operate(
                old(self)@,
                FLAG_I | FLAG_A | FLAG_C | FLAG_M,
                old(data)@,
                more,
            ).0,
            final(data)@ == spec_operate(
                old(self)@,
                FLAG_I | FLAG_A | FLAG_C | FLAG_M,
                old(data)@,
                more,
            ).1,
            final(self)@.wf(),
    {
        proof {
            lemma_flags_k_clear();
        }
        self.operate(FLAG_I | FLAG_A | FLAG_C | FLAG_M, data, more);
    }

    /// Sends a plaintext message: absorbs it, leaving the buffer as it is.
    pub fn send_clr(&mut self, data: &[u8], more: bool)
        requires
            old(self)@.wf(),
        ensures
            final(self)@ == spec_operate_no_mutate(old(self)@, FLAG_A | FLAG_T, data@, more),
            final(self)@.wf(),
    {
        proof {
            lemma_flags_k_clear();
        }
        self.operate_no_mutate(FLAG_A | FLAG_T, data, more);
    }

    /// Sends a plaintext message, domain-separated as metadata.
    pub fn meta_send_clr(&mut self, data: &[u8], more: bool)
        requires
            old(self)@.wf(),
        ensures
            final(self)@ == spec_operate_no_mutate(
                old(self)@,
                FLAG_A | FLAG_T | FLAG_M,
                data@,
                more,
            ),
            final(self)@.wf(),
    {
        proof {
            lemma_flags_k_clear();
        }
        self.operate_no_mutate(FLAG_A | FLAG_T | FLAG_M, data, more);
    }

    /// Receives a plaintext message: absorbs it, leaving the buffer as it
    /// is.
    pub fn recv_clr(&mut self, data: &[u8], more: bool)
        requires
            old(self)@.wf(),
        ensures
            final(self)@ == spec_operate_no_mutate(
                old(self)@,
                FLAG_I | FLAG_A | FLAG_T,
                data@,
                more,
            ),
            final(self)@.wf(),
    {
        proof {
            lemma_flags_k_clear();
        }
        self.operate_no_mutate(FLAG_I | FLAG_A | FLAG_T, data, more);
    }

    /// Receives a plaintext message, domain-separated as metadata.
    pub fn meta_recv_clr(&mut self, data: &[u8], more: bool)
        requires
            old(self)@.wf(),
        ensures
            final(self)@ == spec_operate_no_mutate(
                old(self)@,
                FLAG_I | FLAG_A | FLAG_T | FLAG_M,
                data@,
                more,
            ),
            final(self)@.wf(),
    {
        proof {
            lemma_flags_k_clear();
        }
        self.operate_no_mutate(FLAG_I | FLAG_A | FLAG_T | FLAG_M, data, more);
    }

    /// Mixes associated data into the internal state.
    pub fn ad(&mut self, data: &[u8], more: bool)
        requires
            old(self)@.wf(),
        ensures
            final(self)@ == spec_operate_no_mutate(old(self)@, FLAG_A, data@, more),
            final(self)@.wf(),
    {
        proof {
            lemma_flags_k_clear();
        }
        self.operate_no_mutate(FLAG_A, data, more);
    }

    /// Mixes associated data into the internal state, domain-separated as
    /// metadata.
    pub fn meta_ad(&mut self, data: &[u8], more: bool)
        requires
            old(self)@.wf(),
        ensures
            final(self)@ == spec_operate_no_mutate(old(self)@, FLAG_A | FLAG_M, data@, more),
            final(self)@.wf(),
    {
        proof {
            lemma_flags_k_clear();
        }
        self.operate_no_mutate(FLAG_A | FLAG_M, data, more);
    }

    /// Sets a symmetric cipher key: the key bytes overwrite the rate
    /// region.
    pub fn key(&mut self, data: &[u8], more: bool)
        requires
            old(self)@.wf(),
        ensures
            final(self)@ == spec_operate_no_mutate(old(self)@, FLAG_A | FLAG_C, data@, more),
            final(self)@.wf(),
    {
        proof {
            lemma_flags_k_clear();
        }
        self.operate_no_mutate(FLAG_A | FLAG_C, data, more);
    }

    /// Sets a symmetric cipher key, domain-separated as metadata.
    pub fn meta_key(&mut self, data: &[u8], more: bool)
        requires
            old(self)@.wf(),
        ensures
            final(self)@ == spec_operate_no_mutate(
                old(self)@,
                FLAG_A | FLAG_C | FLAG_M,
                data@,
                more,
            ),
            final(self)@.wf(),
    {
        proof {
            lemma_flags_k_clear();
        }
        self.operate_no_mutate(FLAG_A | FLAG_C | FLAG_M, data, more);
    }

    /// Serializes the full object to its stable 204-byte encoding: the
    /// 200-byte state, the security tag, both positions, and the
    /// direction tag.
    pub fn to_bytes(&self) -> (r: Vec<u8>)
        requires
            self@.wf(),
        ensures
            r@ == spec_encode(self@),
    {
        let mut out = self.state_bytes();
        out.push(
            match self.sec {
                SecParam::B128 => 0,
                SecParam::B256 => 1,
            },
        );
        out.push(self.pos as u8);
        out.push(self.pos_begin as u8);
        out.push(
            match self.is_receiver {
                None => 0,
                Some(false) => 1,
                Some(true) => 2,
            },
        );
        proof {
            assert(out@ =~= spec_encode(self@));
        }
        out
    }

    /// Deserializes a suspended object from its 204-byte encoding.
    /// Returns `None` exactly when the bytes are not a well-formed
    /// encoding: wrong length, an unknown tag, or positions out of range
    /// for the encoded rate.
    pub fn from_bytes(data: &[u8]) -> (r: Option<Strobe>)
        ensures
            r is Some <==> spec_decodable(data@),
            r matches Some(s) ==> s@ == spec_decoded(data@) && s@.wf(),
    {
        if data.len() != 204 {
            return None;
        }
        let sec_tag = data[200];
        if sec_tag > 1 {
            return None;
        }
        let sec = if sec_tag == 0 {
            SecParam::B128
        } else {
            SecParam::B256
        };
        let rate: usize = match sec {
            SecParam::B128 => 166,
            SecParam::B256 => 134,
        };
        let pos = data[201] as usize;
        if pos >= rate {
            return None;
        }
        let pos_begin = data[202] as usize;
        if pos_begin > rate {
            return None;
        }
        let recv_tag = data[203];
        if recv_tag > 2 {
            return None;
        }
        let is_receiver = if recv_tag == 0 {
            None
        } else if recv_tag == 1 {
            Some(false)
        } else {
            Some(true)
        };
        let mut st: Vec<u8> = Vec::new();
        for i in 0..200usize
            invariant
                data@.len() == 204,
                st@.len() == i,
                forall|j: int| 0 <= j < i ==> st@[j] == data@[j],
        {
            st.push(data[i]);
        }
        proof {
            assert(st@ =~= data@.take(200));
        }
        Some(
            Strobe {
                st: st,
                sec: sec,
                rate: rate,
                pos: pos,
                pos_begin: pos_begin,
                is_receiver: is_receiver,
            },
        )
    }

    /// Returns a copy of the 200-byte Keccak state, for comparing sessions
    /// from outside.
    pub fn state_bytes(&self) -> (r: Vec<u8>)
        ensures
            r@ == self@.st,
    {
        let r = self.st.clone();
        proof {
            assert forall|i: int| 0 <= i < self.st@.len() implies r@[i] == self.st@[i] by {
                assert(vstd::pervasive::cloned::<u8>(self.st[i], r[i]));
            }
            assert(r@ =~= self.st@);
        }
        r
    }
}

} // verus!
