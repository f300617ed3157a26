//! The abstract model of a STROBE object.
//!
//! `SpecStrobe` is the mathematical value of a `Strobe` object: the 200-byte
//! sponge state, the position counters, the security parameter with its
//! derived rate, and the latched direction. The specification functions here
//! define every state transition exactly; the executable methods in
//! `strobe` are proved to compute them.

use vstd::prelude::*;

use crate::keccak::spec_keccak_f_bytes;

verus! {

/// Flag bit I: data moves inbound.
pub const FLAG_I: u8 = 0x01;

/// Flag bit A: data is exchanged with the application.
pub const FLAG_A: u8 = 0x02;

/// Flag bit C: the operation uses cipher output.
pub const FLAG_C: u8 = 0x04;

/// Flag bit T: data is sent for transport.
pub const FLAG_T: u8 = 0x08;

/// Flag bit M: the operation carries metadata.
pub const FLAG_M: u8 = 0x10;

/// Flag bit K: reserved; every operation must leave it clear.
pub const FLAG_K: u8 = 0x20;

/// Security parameter. Choice of 128 or 256 bits.
#[derive(Clone, Copy, PartialEq, Eq, Structural)]
pub enum SecParam {
    B128,
    B256,
}

/// The number of bits of a security parameter.
pub open spec fn sec_bits(sec: SecParam) -> nat {
    match sec {
        SecParam::B128 => 128,
        SecParam::B256 => 256,
    }
}

/// The rate R: how many bytes of the 200-byte state are written or read
/// between two permutation calls.
pub open spec fn spec_rate(sec: SecParam) -> nat {
    (200 - sec_bits(sec) / 4 - 2) as nat
}

/// The abstract state of a STROBE object.
#[verifier::ext_equal]
pub struct SpecStrobe {
    /// The 200-byte Keccak state.
    pub st: Seq<u8>,
    /// Next byte index in the rate region.
    pub pos: nat,
    /// One past the state index at which the current operation began;
    /// zero when no operation boundary is pending.
    pub pos_begin: nat,
    /// The security parameter.
    pub sec: SecParam,
    /// The rate R derived from the security parameter.
    pub rate: nat,
    /// The latched direction: unset until the first transport operation,
    /// then fixed to receiver (`true`) or sender (`false`).
    pub is_receiver: Option<bool>,
}

impl SpecStrobe {
    /// Well-formedness: what holds of a STROBE object between any two
    /// public operations.
    pub open spec fn wf(self) -> bool {
        &&& self.st.len() == 200
        &&& self.rate == spec_rate(self.sec)
        &&& self.pos < self.rate
        &&& self.pos_begin <= self.rate
    }
}

/// The four byte-wise duplex modes, plus the overwrite special case.
#[derive(PartialEq, Eq, Structural)]
pub enum DuplexMode {
    /// XOR the input byte into the state.
    Absorb,
    /// XOR the input byte into the state and emit the new state byte.
    AbsorbAndSet,
    /// Emit input XOR state, then overwrite the state byte with the input.
    Exchange,
    /// Overwrite the state byte with the input.
    Overwrite,
    /// Emit the state byte and zero it.
    Squeeze,
}

/// The permutation step: XOR the cSHAKE-style padding (`pos_begin`, 0x04,
/// and 0x80 at the end of the rate region) into the state, permute, and
/// reset both positions.
pub open spec fn spec_run_f(m: SpecStrobe) -> SpecStrobe {
    let b1 = m.st.update(m.pos as int, m.st[m.pos as int] ^ (m.pos_begin as u8));
    let b2 = b1.update(m.pos as int + 1, b1[m.pos as int + 1] ^ 0x04);
    let b3 = b2.update(m.rate as int + 1, b2[m.rate as int + 1] ^ 0x80);
    SpecStrobe { st: spec_keccak_f_bytes(b3), pos: 0, pos_begin: 0, ..m }
}

/// One byte of duplexing: transform the state byte at `pos` and the data
/// byte according to the mode, then advance, permuting when the rate
/// boundary is reached. Returns the new state and the output byte.
pub open spec fn spec_step(m: SpecStrobe, b: u8, mode: DuplexMode) -> (SpecStrobe, u8) {
    let s = m.st[m.pos as int];
    let newbyte = match mode {
        DuplexMode::Absorb => s ^ b,
        DuplexMode::AbsorbAndSet => s ^ b,
        DuplexMode::Exchange => b,
        DuplexMode::Overwrite => b,
        DuplexMode::Squeeze => 0,
    };
    let out = match mode {
        DuplexMode::Absorb => b,
        DuplexMode::AbsorbAndSet => s ^ b,
        DuplexMode::Exchange => b ^ s,
        DuplexMode::Overwrite => b,
        DuplexMode::Squeeze => s,
    };
    let m1 = SpecStrobe { st: m.st.update(m.pos as int, newbyte), pos: m.pos + 1, ..m };
    if m1.pos == m1.rate {
        (spec_run_f(m1), out)
    } else {
        (m1, out)
    }
}

/// Duplex a whole byte string through the state: the fold of `spec_step`
/// over the data, collecting the output bytes.
pub open spec fn spec_duplex(m: SpecStrobe, data: Seq<u8>, mode: DuplexMode) -> (SpecStrobe, Seq<
    u8,
>)
    decreases data.len(),
{
    if data.len() == 0 {
        (m, Seq::empty())
    } else {
        let r = spec_duplex(m, data.drop_last(), mode);
        let s = spec_step(r.0, data.last(), mode);
        (s.0, r.1.push(s.1))
    }
}

/// The direction latch after an operation with the given flags: the first
/// transport operation fixes the role to its declared direction.
pub open spec fn spec_latched(m: SpecStrobe, flags: u8) -> Option<bool> {
    if flags & FLAG_T != 0 && m.is_receiver is None {
        Some(flags & FLAG_I != 0)
    } else {
        m.is_receiver
    }
}

/// The flag byte actually mixed into the state: for transport operations
/// the I bit is set exactly when the declared direction disagrees with the
/// latched role, so that both endpoints mix the same byte.
pub open spec fn spec_adjusted_flags(m: SpecStrobe, flags: u8) -> u8 {
    if flags & FLAG_T != 0 {
        let role = match spec_latched(m, flags) {
            Some(r) => r,
            None => false,
        };
        if role != (flags & FLAG_I != 0) {
            flags | FLAG_I
        } else {
            flags & !FLAG_I
        }
    } else {
        flags
    }
}

/// Begin an operation: latch the direction, snapshot `pos_begin`, absorb
/// the two-byte prefix `[old pos_begin, adjusted flags]`, and force a
/// permutation for cipher-bearing operations that do not start on a fresh
/// block.
pub open spec fn spec_begin_op(m: SpecStrobe, flags: u8) -> SpecStrobe {
    let f = spec_adjusted_flags(m, flags);
    let m0 = SpecStrobe { is_receiver: spec_latched(m, flags), ..m };
    let old_pos_begin = m0.pos_begin;
    let m1 = SpecStrobe { pos_begin: m0.pos + 1, ..m0 };
    let m2 = spec_duplex(m1, seq![old_pos_begin as u8, f], DuplexMode::Absorb).0;
    if (f & FLAG_C != 0 || f & FLAG_K != 0) && m2.pos != 0 {
        spec_run_f(m2)
    } else {
        m2
    }
}

/// The duplex mode selected by a flag byte for an in-place operation.
///
/// The squeeze case tests the whole byte for equality with the PRF
/// combination, so the metadata variant of PRF selects exchange instead;
/// over the zeroed buffer that PRF operates on, the two modes emit the
/// same bytes and leave the same state.
pub open spec fn spec_mode(flags: u8) -> DuplexMode {
    if flags & FLAG_C != 0 && flags & FLAG_T != 0 && flags & FLAG_I == 0 {
        DuplexMode::AbsorbAndSet
    } else if flags == (FLAG_I | FLAG_A | FLAG_C) {
        DuplexMode::Squeeze
    } else if flags & FLAG_C != 0 {
        DuplexMode::Exchange
    } else {
        DuplexMode::Absorb
    }
}

/// The duplex mode selected by a flag byte for an operation that leaves
/// its input untouched.
pub open spec fn spec_mode_no_mutate(flags: u8) -> DuplexMode {
    if flags & FLAG_C != 0 {
        DuplexMode::Overwrite
    } else {
        DuplexMode::Absorb
    }
}

/// A whole in-place operation: begin it (unless it continues a streamed
/// one), then duplex the data in the mode the flags select. Returns the
/// new state and the transformed data.
pub open spec fn spec_operate(m: SpecStrobe, flags: u8, data: Seq<u8>, more: bool) -> (
    SpecStrobe,
    Seq<u8>,
) {
    let m1 = if more {
        m
    } else {
        spec_begin_op(m, flags)
    };
    spec_duplex(m1, data, spec_mode(flags))
}

/// A whole operation on borrowed input (AD, KEY, send/recv CLR): as
/// `spec_operate`, but the data is only read, and C-bearing operations
/// overwrite the state with it.
pub open spec fn spec_operate_no_mutate(
    m: SpecStrobe,
    flags: u8,
    data: Seq<u8>,
    more: bool,
) -> SpecStrobe {
    let m1 = if more {
        m
    } else {
        spec_begin_op(m, flags)
    };
    spec_duplex(m1, data, spec_mode_no_mutate(flags)).0
}

/// Byte `j` of the initial 200-byte buffer: the six-byte cSHAKE-style
/// header encoding `R + 2`, then the ASCII label `STROBEv1.0.2`, then
/// zeros.
pub open spec fn spec_init_byte(j: int, rate: nat) -> u8 {
    if j == 0 { 0x01 } else if j == 1 { (rate + 2) as u8 } else if j == 2 { 0x01 }
    else if j == 3 { 0x00 } else if j == 4 { 0x01 } else if j == 5 { 0x60 }
    else if j == 6 { 0x53 } else if j == 7 { 0x54 } else if j == 8 { 0x52 }
    else if j == 9 { 0x4f } else if j == 10 { 0x42 } else if j == 11 { 0x45 }
    else if j == 12 { 0x76 } else if j == 13 { 0x31 } else if j == 14 { 0x2e }
    else if j == 15 { 0x30 } else if j == 16 { 0x2e } else if j == 17 { 0x32 }
    else { 0 }
}

/// The state of a fresh STROBE object: permute the initial buffer, then
/// mix the protocol string in as meta-AD.
pub open spec fn spec_new(proto: Seq<u8>, sec: SecParam) -> SpecStrobe {
    let rate = spec_rate(sec);
    let m = SpecStrobe {
        st: spec_keccak_f_bytes(Seq::new(200, |j: int| spec_init_byte(j, rate))),
        pos: 0,
        pos_begin: 0,
        sec: sec,
        rate: rate,
        is_receiver: None,
    };
    spec_operate_no_mutate(m, FLAG_A | FLAG_M, proto, false)
}

/// Whether every byte of a sequence is zero: the MAC acceptance condition.
pub open spec fn all_zero(s: Seq<u8>) -> bool {
    forall|i: int| 0 <= i < s.len() ==> s[i] == 0
}

/// Duplexing emits exactly one output byte per input byte.
pub proof fn lemma_duplex_len(m: SpecStrobe, data: Seq<u8>, mode: DuplexMode)
    ensures
        spec_duplex(m, data, mode).1.len() == data.len(),
    decreases data.len(),
{
    if data.len() > 0 {
        lemma_duplex_len(m, data.drop_last(), mode);
    }
}

/// In the absorb and overwrite modes the output is the input itself.
pub proof fn lemma_duplex_out_identity(m: SpecStrobe, data: Seq<u8>, mode: DuplexMode)
    requires
        mode == DuplexMode::Absorb || mode == DuplexMode::Overwrite,
    ensures
        spec_duplex(m, data, mode).1 == data,
    decreases data.len(),
{
    if data.len() > 0 {
        lemma_duplex_out_identity(m, data.drop_last(), mode);
        assert(spec_duplex(m, data, mode).1 =~= data);
    }
}

/// Duplexing one more byte of a sequence applies one more step.
pub proof fn lemma_duplex_take_step(m: SpecStrobe, data: Seq<u8>, mode: DuplexMode, i: int)
    requires
        0 <= i < data.len(),
    ensures
        spec_duplex(m, data.take(i + 1), mode).0 == spec_step(
            spec_duplex(m, data.take(i), mode).0,
            data[i],
            mode,
        ).0,
        spec_duplex(m, data.take(i + 1), mode).1 == spec_duplex(m, data.take(i), mode).1.push(
            spec_step(spec_duplex(m, data.take(i), mode).0, data[i], mode).1,
        ),
{
    assert(data.take(i + 1).drop_last() =~= data.take(i));
    assert(data.take(i + 1).last() == data[i]);
}

} // verus!
