//! The Keccak-f[1600] permutation.
//!
//! The 1600-bit state is kept as 200 bytes; for the permutation it is read as
//! 25 lanes of 64 bits, little-endian within each lane. The specification
//! functions below define the permutation exactly (24 rounds of
//! theta/rho/pi/chi/iota, as in FIPS 202), and the executable code is proved
//! to compute it.

use vstd::prelude::*;

verus! {

use vstd::pervasive::VecAdditionalExecFns;

/// Left-rotation of a 64-bit lane by `n` bits, for `0 <= n < 64`.
pub open spec fn spec_rotl64(v: u64, n: u64) -> u64
    recommends
        n < 64,
{
    if n == 0 {
        v
    } else {
        (v << n) | (v >> ((64 - n) as u64))
    }
}

/// The rotation offset of lane `i` (lane `i` holds coordinates `x = i % 5`,
/// `y = i / 5`), reduced modulo 64.
pub open spec fn spec_rho_offset(i: int) -> u64 {
    if i == 0 { 0 } else if i == 1 { 1 } else if i == 2 { 62 } else if i == 3 { 28 }
    else if i == 4 { 27 } else if i == 5 { 36 } else if i == 6 { 44 } else if i == 7 { 6 }
    else if i == 8 { 55 } else if i == 9 { 20 } else if i == 10 { 3 } else if i == 11 { 10 }
    else if i == 12 { 43 } else if i == 13 { 25 } else if i == 14 { 39 } else if i == 15 { 41 }
    else if i == 16 { 45 } else if i == 17 { 15 } else if i == 18 { 21 } else if i == 19 { 8 }
    else if i == 20 { 18 } else if i == 21 { 2 } else if i == 22 { 61 } else if i == 23 { 56 }
    else { 14 }
}

/// The round constant mixed into lane 0 by iota in round `r`.
pub open spec fn spec_round_constant(r: int) -> u64 {
    if r == 0 { 0x0000000000000001 } else if r == 1 { 0x0000000000008082 }
    else if r == 2 { 0x800000000000808a } else if r == 3 { 0x8000000080008000 }
    else if r == 4 { 0x000000000000808b } else if r == 5 { 0x0000000080000001 }
    else if r == 6 { 0x8000000080008081 } else if r == 7 { 0x8000000000008009 }
    else if r == 8 { 0x000000000000008a } else if r == 9 { 0x0000000000000088 }
    else if r == 10 { 0x0000000080008009 } else if r == 11 { 0x000000008000000a }
    else if r == 12 { 0x000000008000808b } else if r == 13 { 0x800000000000008b }
    else if r == 14 { 0x8000000000008089 } else if r == 15 { 0x8000000000008003 }
    else if r == 16 { 0x8000000000008002 } else if r == 17 { 0x8000000000000080 }
    else if r == 18 { 0x000000000000800a } else if r == 19 { 0x800000008000000a }
    else if r == 20 { 0x8000000080008081 } else if r == 21 { 0x8000000000008080 }
    else if r == 22 { 0x0000000080000001 } else { 0x8000000080008008 }
}

/// The theta column parity: XOR of the five lanes in column `x`.
pub open spec fn spec_theta_c(a: Seq<u64>, x: int) -> u64 {
    a[x] ^ a[x + 5] ^ a[x + 10] ^ a[x + 15] ^ a[x + 20]
}

/// The value theta XORs into every lane of column `x`.
pub open spec fn spec_theta_d(a: Seq<u64>, x: int) -> u64 {
    spec_theta_c(a, (x + 4) % 5) ^ spec_rotl64(spec_theta_c(a, (x + 1) % 5), 1)
}

/// The theta step: each lane is XORed with the parity of its two neighbour
/// columns.
pub open spec fn spec_theta(a: Seq<u64>) -> Seq<u64> {
    Seq::new(25, |i: int| a[i] ^ spec_theta_d(a, i % 5))
}

/// The lane that the combined rho-pi step moves (rotated) into lane `i`:
/// destination `(x, y)` takes lane `((x + 3y) % 5, x)`.
pub open spec fn spec_pi_source(i: int) -> int {
    (i % 5 + 3 * (i / 5)) % 5 + 5 * (i % 5)
}

/// The combined rho and pi steps: permute the lanes, rotating each by its
/// offset.
pub open spec fn spec_rho_pi(a: Seq<u64>) -> Seq<u64> {
    Seq::new(25, |i: int| spec_rotl64(a[spec_pi_source(i)], spec_rho_offset(spec_pi_source(i))))
}

/// The chi step: each lane is XORed with the AND of the complement of the
/// next lane and the lane after that, within its row.
pub open spec fn spec_chi(a: Seq<u64>) -> Seq<u64> {
    Seq::new(
        25,
        |i: int|
            a[i] ^ ((!a[5 * (i / 5) + (i % 5 + 1) % 5]) & a[5 * (i / 5) + (i % 5 + 2) % 5]),
    )
}

/// The iota step: mix the round constant of round `r` into lane 0.
pub open spec fn spec_iota(a: Seq<u64>, r: int) -> Seq<u64> {
    a.update(0, a[0] ^ spec_round_constant(r))
}

/// One full round of Keccak-f[1600].
pub open spec fn spec_round(a: Seq<u64>, r: int) -> Seq<u64> {
    spec_iota(spec_chi(spec_rho_pi(spec_theta(a))), r)
}

/// The first `n` rounds of Keccak-f[1600], applied in order.
pub open spec fn spec_keccak_rounds(a: Seq<u64>, n: nat) -> Seq<u64>
    decreases n,
{
    if n == 0 {
        a
    } else {
        spec_round(spec_keccak_rounds(a, (n - 1) as nat), n - 1)
    }
}

/// The full 24-round Keccak-f[1600] permutation on 25 lanes.
pub open spec fn spec_keccak_f(a: Seq<u64>) -> Seq<u64> {
    spec_keccak_rounds(a, 24)
}

/// Lane `i` of a 200-byte state, read little-endian from bytes
/// `8i .. 8i + 8`.
pub open spec fn spec_lane(b: Seq<u8>, i: int) -> u64 {
    (b[8 * i] as u64) | ((b[8 * i + 1] as u64) << 8) | ((b[8 * i + 2] as u64) << 16)
        | ((b[8 * i + 3] as u64) << 24) | ((b[8 * i + 4] as u64) << 32)
        | ((b[8 * i + 5] as u64) << 40) | ((b[8 * i + 6] as u64) << 48)
        | ((b[8 * i + 7] as u64) << 56)
}

/// The 25 lanes of a 200-byte state.
pub open spec fn spec_lanes_of_bytes(b: Seq<u8>) -> Seq<u64> {
    Seq::new(25, |i: int| spec_lane(b, i))
}

/// Byte `j` of the 200-byte image of 25 lanes, little-endian within each
/// lane.
pub open spec fn spec_byte_of_lanes(l: Seq<u64>, j: int) -> u8 {
    ((l[j / 8] >> ((8 * (j % 8)) as u64)) & 0xff) as u8
}

/// The 200-byte image of 25 lanes.
pub open spec fn spec_bytes_of_lanes(l: Seq<u64>) -> Seq<u8> {
    Seq::new(200, |j: int| spec_byte_of_lanes(l, j))
}

/// Keccak-f[1600] on the 200-byte form of the state.
pub open spec fn spec_keccak_f_bytes(b: Seq<u8>) -> Seq<u8> {
    spec_bytes_of_lanes(spec_keccak_f(spec_lanes_of_bytes(b)))
}

fn rotl64(v: u64, n: u64) -> (r: u64)
    requires
        n < 64,
    ensures
        r == spec_rotl64(v, n),
{
    if n == 0 {
        v
    } else {
        (v << n) | (v >> ((64 - n) as u64))
    }
}

fn rho_offset(i: usize) -> (r: u64)
    requires
        i < 25,
    ensures
        r == spec_rho_offset(i as int),
        r < 64,
{
    if i == 0 { 0 } else if i == 1 { 1 } else if i == 2 { 62 } else if i == 3 { 28 }
    else if i == 4 { 27 } else if i == 5 { 36 } else if i == 6 { 44 } else if i == 7 { 6 }
    else if i == 8 { 55 } else if i == 9 { 20 } else if i == 10 { 3 } else if i == 11 { 10 }
    else if i == 12 { 43 } else if i == 13 { 25 } else if i == 14 { 39 } else if i == 15 { 41 }
    else if i == 16 { 45 } else if i == 17 { 15 } else if i == 18 { 21 } else if i == 19 { 8 }
    else if i == 20 { 18 } else if i == 21 { 2 } else if i == 22 { 61 } else if i == 23 { 56 }
    else { 14 }
}

fn round_constant(r: usize) -> (c: u64)
    requires
        r < 24,
    ensures
        c == spec_round_constant(r as int),
{
    if r == 0 { 0x0000000000000001 } else if r == 1 { 0x0000000000008082 }
    else if r == 2 { 0x800000000000808a } else if r == 3 { 0x8000000080008000 }
    else if r == 4 { 0x000000000000808b } else if r == 5 { 0x0000000080000001 }
    else if r == 6 { 0x8000000080008081 } else if r == 7 { 0x8000000000008009 }
    else if r == 8 { 0x000000000000008a } else if r == 9 { 0x0000000000000088 }
    else if r == 10 { 0x0000000080008009 } else if r == 11 { 0x000000008000000a }
    else if r == 12 { 0x000000008000808b } else if r == 13 { 0x800000000000008b }
    else if r == 14 { 0x8000000000008089 } else if r == 15 { 0x8000000000008003 }
    else if r == 16 { 0x8000000000008002 } else if r == 17 { 0x8000000000000080 }
    else if r == 18 { 0x000000000000800a } else if r == 19 { 0x800000008000000a }
    else if r == 20 { 0x8000000080008081 } else if r == 21 { 0x8000000000008080 }
    else if r == 22 { 0x0000000080000001 } else { 0x8000000080008008 }
}

fn theta(a: &Vec<u64>) -> (r: Vec<u64>)
    requires
        a@.len() == 25,
    ensures
        r@ == spec_theta(a@),
{
    let mut c: Vec<u64> = Vec::new();
    for x in 0..5
        invariant
            a@.len() == 25,
            c@.len() == x,
            forall|j: int| 0 <= j < x ==> c@[j] == spec_theta_c(a@, j),
    {
        c.push(a[x] ^ a[x + 5] ^ a[x + 10] ^ a[x + 15] ^ a[x + 20]);
    }
    let mut d: Vec<u64> = Vec::new();
    for x in 0..5
        invariant
            a@.len() == 25,
            c@.len() == 5,
            forall|j: int| 0 <= j < 5 ==> c@[j] == spec_theta_c(a@, j),
            d@.len() == x,
            forall|j: int| 0 <= j < x ==> d@[j] == spec_theta_d(a@, j),
    {
        d.push(c[(x + 4) % 5] ^ rotl64(c[(x + 1) % 5], 1));
    }
    let mut r: Vec<u64> = Vec::new();
    for i in 0..25
        invariant
            a@.len() == 25,
            d@.len() == 5,
            forall|j: int| 0 <= j < 5 ==> d@[j] == spec_theta_d(a@, j),
            r@.len() == i,
            forall|j: int| 0 <= j < i ==> r@[j] == a@[j] ^ spec_theta_d(a@, j % 5),
    {
        r.push(a[i] ^ d[i % 5]);
    }
    assert(r@ =~= spec_theta(a@));
    r
}

fn rho_pi(a: &Vec<u64>) -> (r: Vec<u64>)
    requires
        a@.len() == 25,
    ensures
        r@ == spec_rho_pi(a@),
{
    let mut r: Vec<u64> = Vec::new();
    for i in 0..25
        invariant
            a@.len() == 25,
            r@.len() == i,
            forall|j: int| 0 <= j < i ==> r@[j] == spec_rho_pi(a@)[j],
    {
        let s = (i % 5 + 3 * (i / 5)) % 5 + 5 * (i % 5);
        assert(s == spec_pi_source(i as int));
        r.push(rotl64(a[s], rho_offset(s)));
    }
    assert(r@ =~= spec_rho_pi(a@));
    r
}

fn chi(a: &Vec<u64>) -> (r: Vec<u64>)
    requires
        a@.len() == 25,
    ensures
        r@ == spec_chi(a@),
{
    let mut r: Vec<u64> = Vec::new();
    for i in 0..25
        invariant
            a@.len() == 25,
            r@.len() == i,
            forall|j: int| 0 <= j < i ==> r@[j] == spec_chi(a@)[j],
    {
        let row = 5 * (i / 5);
        r.push(a[i] ^ ((!a[row + (i % 5 + 1) % 5]) & a[row + (i % 5 + 2) % 5]));
    }
    assert(r@ =~= spec_chi(a@));
    r
}

/// The Keccak-f[1600] permutation on the 25-lane form of the state.
pub fn keccakf(lanes: &mut Vec<u64>)
    requires
        old(lanes)@.len() == 25,
    ensures
        final(lanes)@ == spec_keccak_f(old(lanes)@),
{
    for r in 0..24
        invariant
            lanes@.len() == 25,
            lanes@ == spec_keccak_rounds(old(lanes)@, r as nat),
    {
        let t = theta(lanes);
        let p = rho_pi(&t);
        let mut x = chi(&p);
        let c0 = x[0] ^ round_constant(r);
        x.set(0, c0);
        assert(x@ =~= spec_round(lanes@, r as int));
        *lanes = x;
    }
}

/// The Keccak-f[1600] permutation on the 200-byte form of the state.
pub fn keccakf_u8(st: &mut Vec<u8>)
    requires
        old(st)@.len() == 200,
    ensures
        final(st)@ == spec_keccak_f_bytes(old(st)@),
{
    let mut lanes: Vec<u64> = Vec::new();
    for i in 0..25
        invariant
            st@.len() == 200,
            st@ == old(st)@,
            lanes@.len() == i,
            forall|j: int| 0 <= j < i ==> lanes@[j] == spec_lane(st@, j),
    {
        let b = 8 * i;
        lanes.push(
            (st[b] as u64) | ((st[b + 1] as u64) << 8) | ((st[b + 2] as u64) << 16)
                | ((st[b + 3] as u64) << 24) | ((st[b + 4] as u64) << 32)
                | ((st[b + 5] as u64) << 40) | ((st[b + 6] as u64) << 48)
                | ((st[b + 7] as u64) << 56),
        );
    }
    assert(lanes@ =~= spec_lanes_of_bytes(old(st)@));
    keccakf(&mut lanes);
    for j in 0..200
        invariant
            st@.len() == 200,
            lanes@.len() == 25,
            lanes@ == spec_keccak_f(spec_lanes_of_bytes(old(st)@)),
            forall|k: int| 0 <= k < j ==> st@[k] == spec_byte_of_lanes(lanes@, k),
    {
        st.set(j, ((lanes[j / 8] >> ((8 * (j % 8)) as u64)) & 0xff) as u8);
    }
    assert(st@ =~= spec_keccak_f_bytes(old(st)@));
}

} // verus!
