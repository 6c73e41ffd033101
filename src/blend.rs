//! Source-over blending of one RGBA pixel onto another, computed exactly as
//! single-precision arithmetic computes it, in integers.
//!
//! A single-precision value `v` in the range used here is held as the integer
//! `v * 2^32`: every such value that the blend meets is zero or at least
//! `1/255`, so its last significant bit is worth at least `2^-32`.

use vstd::prelude::*;

verus! {

/// `2^32`, the integer that stands for `1.0`.
pub const ONE: u64 = 0x1_0000_0000;

/// A power of two.
pub open spec fn two_pow(e: nat) -> nat
    decreases e,
{
    if e == 0 {
        1
    } else {
        2 * two_pow((e - 1) as nat)
    }
}

/// The least step `e`, from `e` on, at which `n / d` is below `2^(e + 24)`:
/// a value with 24 significant bits then has its last bit worth `2^e`.
pub open spec fn round_step(n: nat, d: nat, e: nat) -> nat
    decreases 64 - e,
{
    if e >= 64 || n < d * two_pow(e) * 0x100_0000 {
        e
    } else {
        round_step(n, d, e + 1)
    }
}

/// `n / d`, for a value of at least `2^-9` (`2^23` in the integer scale),
/// rounded to 24 significant bits, to the nearest, ties to an even
/// significand: the rounding of an IEEE single-precision operation.
pub open spec fn round_f32(n: nat, d: nat) -> nat {
    let p = two_pow(round_step(n, d, 0));
    let g = d * p;
    let q = n / g;
    let r = n % g;
    let q2 = if 2 * r > g || (2 * r == g && q % 2 == 1) {
        q + 1
    } else {
        q
    };
    q2 * p
}

proof fn lemma_two_pow_pos(e: nat)
    ensures
        two_pow(e) >= 1,
    decreases e,
{
    if e > 0 {
        lemma_two_pow_pos((e - 1) as nat);
    }
}

proof fn lemma_two_pow_split(e: nat, k: nat)
    requires
        e <= k,
    ensures
        two_pow(k) == two_pow(e) * two_pow((k - e) as nat),
    decreases k,
{
    if e < k {
        lemma_two_pow_split(e, (k - 1) as nat);
        let a = two_pow(e);
        let b = two_pow((k - 1 - e) as nat);
        assert(two_pow((k - e) as nat) == 2 * b);
        assert(two_pow(k) == 2 * two_pow((k - 1) as nat));
        let c = two_pow((k - e) as nat);
        let t = two_pow(k);
        assert(t == a * c) by (nonlinear_arith)
            requires
                c == 2 * b,
                t == 2 * two_pow((k - 1) as nat),
                two_pow((k - 1) as nat) == a * b,
        ;
    } else {
        assert(two_pow(0) == 1);
        assert((k - e) as nat == 0);
        assert(two_pow(k) == two_pow(e) * 1);
    }
}

proof fn lemma_multiple_of_step(m: nat, e: nat)
    requires
        e <= 17,
        m % 0x20000 == 0,
    ensures
        m % two_pow(e) == 0,
        two_pow(e) <= 0x20000,
{
    reveal_with_fuel(two_pow, 18);
    assert(two_pow(17) == 0x20000);
    lemma_two_pow_split(e, 17);
    lemma_two_pow_pos(e);
    lemma_two_pow_pos((17 - e) as nat);
    let p = two_pow(e);
    let j = two_pow((17 - e) as nat);
    let k = m / 0x20000;
    assert(p <= 0x20000) by (nonlinear_arith)
        requires
            0x20000 == p * j,
            j >= 1,
    ;
    assert(m == 0x20000 * k) by {
        vstd::arithmetic::div_mod::lemma_fundamental_div_mod(m as int, 0x20000);
    }
    assert(m == (j * k) * p) by (nonlinear_arith)
        requires
            m == 0x20000 * k,
            0x20000 == p * j,
    ;
    vstd::arithmetic::div_mod::lemma_mod_multiples_basic((j * k) as int, p as int);
}

/// Rounds `n / d` as a single-precision operation rounds (see `round_f32`).
/// The result is no greater than any multiple `m` of `2^17` with
/// `n <= m * d`: such an `m` is representable, and rounding never passes it.
pub fn round_ratio(n: u64, d: u64) -> (r: u64)
    requires
        1 <= d <= 255,
        n < 0x200_0000_0000,
    ensures
        r == round_f32(n as nat, d as nat),
        forall|m: nat| #![trigger m % 0x20000] m % 0x20000 == 0 && n <= m * d ==> r <= m,
{
    let mut e: u64 = 0;
    let mut p: u64 = 1;
    let mut g: u64 = d;
    let mut lim: u64 = d * 0x100_0000;
    while n >= lim
        invariant
            1 <= d <= 255,
            n < 0x200_0000_0000,
            e <= 17,
            p == two_pow(e as nat),
            p <= 0x20000,
            g == d * p,
            lim == g * 0x100_0000,
            round_step(n as nat, d as nat, 0) == round_step(n as nat, d as nat, e as nat),
        decreases 17 - e,
    {
        assert(p * 0x100_0000 <= lim) by (nonlinear_arith)
            requires
                lim == g * 0x100_0000,
                g == d * p,
                d >= 1,
        ;
        assert(p < 0x20000);
        assert(e < 17) by {
            if e == 17 {
                reveal_with_fuel(two_pow, 18);
            }
        }
        let ghost p0 = p;
        let ghost g0 = g;
        e = e + 1;
        p = p * 2;
        g = g * 2;
        lim = lim * 2;
        proof {
            assert(two_pow(e as nat) == 2 * two_pow((e - 1) as nat));
            lemma_multiple_of_step(0, e as nat);
            assert(g == d * p) by (nonlinear_arith)
                requires
                    g == 2 * g0,
                    p == 2 * p0,
                    g0 == d * p0,
            ;
        }
    }
    assert(round_step(n as nat, d as nat, e as nat) == e as nat);
    proof {
        lemma_two_pow_pos(e as nat);
    }
    let q: u64 = n / g;
    let rem: u64 = n % g;
    assert(q < 0x100_0000) by (nonlinear_arith)
        requires
            n < g * 0x100_0000,
            q == n / g,
            g >= 1,
    ;
    let q2: u64 = if 2 * rem > g || (2 * rem == g && q % 2 == 1) {
        q + 1
    } else {
        q
    };
    assert(q2 * p <= 0x100_0000 * 0x20000) by (nonlinear_arith)
        requires
            q2 <= 0x100_0000,
            p <= 0x20000,
    ;
    let r: u64 = q2 * p;
    assert forall|m: nat| #![trigger m % 0x20000] m % 0x20000 == 0 && n <= m * d implies r <= m by {
        lemma_multiple_of_step(m, e as nat);
        let t = m / (p as nat);
        assert(m == p * t) by {
            vstd::arithmetic::div_mod::lemma_fundamental_div_mod(m as int, p as int);
        }
        assert(n == q * g + rem) by {
            vstd::arithmetic::div_mod::lemma_fundamental_div_mod(n as int, g as int);
        }
        assert(q * p * d <= n) by (nonlinear_arith)
            requires
                n == q * g + rem,
                g == d * p,
                rem >= 0,
        ;
        assert(q <= t) by (nonlinear_arith)
            requires
                q * p * d <= n,
                n <= m * d,
                m == p * t,
                d >= 1,
                p >= 1,
        ;
        if q == t {
            assert(rem == 0) by (nonlinear_arith)
                requires
                    n == q * g + rem,
                    g == d * p,
                    n <= m * d,
                    m == p * t,
                    q == t,
            ;
            assert(q2 == q);
        }
        assert(q2 * p <= t * p) by (nonlinear_arith)
            requires
                q2 <= t,
        ;
    }
    r
}

/// The single-precision value of `sa / 255`.
pub open spec fn alpha_of(sa: u8) -> nat {
    round_f32(sa as nat * ONE as nat, 255)
}

/// The single-precision value of `1 - sa / 255`.
pub open spec fn inv_alpha_of(sa: u8) -> nat {
    round_f32((ONE as nat - alpha_of(sa)) as nat, 1)
}

/// A non-negative value cast to `u8`: truncated toward zero, saturating at 255.
pub open spec fn to_u8(v: nat) -> u8 {
    if v / (ONE as nat) >= 255 {
        255
    } else {
        (v / (ONE as nat)) as u8
    }
}

/// A colour channel blended over a destination channel:
/// `s * a + d * (1 - a)` in single precision, with `a = sa / 255`, then truncated.
pub open spec fn blend_channel(s: u8, d: u8, sa: u8) -> u8 {
    to_u8(
        round_f32(
            round_f32(s as nat * alpha_of(sa), 1) + round_f32(d as nat * inv_alpha_of(sa), 1),
            1,
        ),
    )
}

/// The alpha channel blended over a destination alpha:
/// `min(255, sa + da * (1 - sa / 255))` in single precision, then truncated.
pub open spec fn blend_alpha(sa: u8, da: u8) -> u8 {
    to_u8(round_f32(sa as nat * ONE as nat + round_f32(da as nat * inv_alpha_of(sa), 1), 1))
}

/// An RGBA pixel `src` drawn over the RGBA pixel `dst`: a fully transparent
/// source leaves the destination as it is.
pub open spec fn over(src: Seq<u8>, dst: Seq<u8>) -> Seq<u8> {
    if src[3] == 0 {
        dst
    } else {
        seq![
            blend_channel(src[0], dst[0], src[3]),
            blend_channel(src[1], dst[1], src[3]),
            blend_channel(src[2], dst[2], src[3]),
            blend_alpha(src[3], dst[3]),
        ]
    }
}

fn truncate(t: u64) -> (r: u8)
    ensures
        r == to_u8(t as nat),
{
    let v: u64 = t / ONE;
    if v >= 255 {
        255
    } else {
        v as u8
    }
}

fn mix(s: u8, d: u8, a: u64, inv: u64) -> (r: u8)
    requires
        a <= ONE,
        inv <= ONE,
    ensures
        r == to_u8(round_f32(round_f32(s as nat * a as nat, 1) + round_f32(d as nat * inv as nat, 1), 1)),
{
    let ghost big: nat = 255 * ONE as nat;
    assert(big % 0x20000 == 0);
    assert(s as nat * a as nat <= big * 1) by (nonlinear_arith)
        requires
            s <= 255,
            a <= ONE,
            big == 255 * ONE as nat,
    ;
    assert(d as nat * inv as nat <= big * 1) by (nonlinear_arith)
        requires
            d <= 255,
            inv <= ONE,
            big == 255 * ONE as nat,
    ;
    let x: u64 = round_ratio(s as u64 * a, 1);
    let y: u64 = round_ratio(d as u64 * inv, 1);
    let t: u64 = round_ratio(x + y, 1);
    truncate(t)
}

/// Draws the RGBA pixel `src` over `dst` (see `over`).
pub fn blend_pixel(src: [u8; 4], dst: [u8; 4]) -> (r: [u8; 4])
    ensures
        r@ == over(src@, dst@),
{
    if src[3] == 0 {
        return dst;
    }
    let sa: u8 = src[3];
    let ghost one: nat = ONE as nat;
    assert(one % 0x20000 == 0);
    assert(sa as nat * ONE as nat <= one * 255) by (nonlinear_arith)
        requires
            sa <= 255,
            one == ONE as nat,
    ;
    let a: u64 = round_ratio(sa as u64 * ONE, 255);
    assert((ONE - a) as nat <= one * 1);
    let inv: u64 = round_ratio(ONE - a, 1);
    let ghost big: nat = 255 * ONE as nat;
    assert(big % 0x20000 == 0);
    assert(dst[3] as nat * inv as nat <= big * 1) by (nonlinear_arith)
        requires
            dst[3] <= 255,
            inv <= ONE,
            big == 255 * ONE as nat,
    ;
    let y: u64 = round_ratio(dst[3] as u64 * inv, 1);
    let t: u64 = round_ratio(sa as u64 * ONE + y, 1);
    let r: [u8; 4] = [
        mix(src[0], dst[0], a, inv),
        mix(src[1], dst[1], a, inv),
        mix(src[2], dst[2], a, inv),
        truncate(t),
    ];
    assert(r@ =~= over(src@, dst@));
    r
}

/// A fully transparent source pixel leaves every channel of the
/// destination pixel as it was.
pub proof fn lemma_transparent_source_keeps_destination(src: Seq<u8>, dst: Seq<u8>)
    requires
        src.len() == 4,
        dst.len() == 4,
        src[3] == 0,
    ensures
        over(src, dst) == dst,
{
}

proof fn lemma_round_step_bound(n: nat, d: nat, e: nat, k: nat)
    requires
        e <= k < 64,
        n < d * two_pow(k) * 0x100_0000,
    ensures
        round_step(n, d, e) <= k,
    decreases 64 - e,
{
    if !(n < d * two_pow(e) * 0x100_0000) {
        assert(e != k);
        lemma_round_step_bound(n, d, e + 1, k);
    }
}

/// Rounding is exact on a value `m = n / d` that is a multiple of `2^17`
/// below `2^41`: it has no more than 24 significant bits.
proof fn lemma_round_exact(n: nat, d: nat, m: nat)
    requires
        d >= 1,
        n == d * m,
        m % 0x20000 == 0,
        m < 0x200_0000_0000,
    ensures
        round_f32(n, d) == m,
{
    reveal_with_fuel(two_pow, 18);
    assert(two_pow(17) == 0x20000);
    assert(n < d * two_pow(17) * 0x100_0000) by (nonlinear_arith)
        requires
            n == d * m,
            m < 0x200_0000_0000,
            d >= 1,
            two_pow(17) == 0x20000,
    ;
    lemma_round_step_bound(n, d, 0, 17);
    let e = round_step(n, d, 0);
    lemma_multiple_of_step(m, e);
    lemma_two_pow_pos(e);
    let p = two_pow(e);
    let t = m / p;
    let g = d * p;
    assert(m == p * t) by {
        vstd::arithmetic::div_mod::lemma_fundamental_div_mod(m as int, p as int);
    }
    assert(n == t * g) by (nonlinear_arith)
        requires
            n == d * m,
            m == p * t,
            g == d * p,
    ;
    assert(g >= 1) by (nonlinear_arith)
        requires
            g == d * p,
            d >= 1,
            p >= 1,
    ;
    vstd::arithmetic::div_mod::lemma_div_multiples_vanish(t as int, g as int);
    vstd::arithmetic::div_mod::lemma_mod_multiples_basic(t as int, g as int);
    assert(g * t == t * g) by (nonlinear_arith);
    assert(n / g == t);
    assert(n % g == 0);
    assert(t * p == m) by (nonlinear_arith)
        requires
            m == p * t,
    ;
}

proof fn lemma_opaque_channel(s: u8, d: u8)
    ensures
        blend_channel(s, d, 255) == s,
        blend_alpha(255, d) == 255,
{
    let one = ONE as nat;
    lemma_round_exact(255 * one, 255, one);
    assert(alpha_of(255) == one);
    lemma_round_exact(0, 1, 0);
    assert(inv_alpha_of(255) == 0);
    let v = s as nat * one;
    assert(v == (s as nat * 0x8000) * 0x20000);
    vstd::arithmetic::div_mod::lemma_mod_multiples_basic((s as nat * 0x8000) as int, 0x20000);
    lemma_round_exact(v, 1, v);
    assert(d as nat * inv_alpha_of(255) == 0);
    lemma_round_exact(v + 0, 1, v);
    vstd::arithmetic::div_mod::lemma_div_multiples_vanish(s as int, one as int);
    assert(v / one == s);
    let w = 255 * one;
    lemma_round_exact(w, 1, w);
    assert(w / one == 255);
}

/// A fully opaque source pixel replaces the destination pixel exactly.
pub proof fn lemma_opaque_source_replaces_destination(src: Seq<u8>, dst: Seq<u8>)
    requires
        src.len() == 4,
        src[3] == 255,
    ensures
        over(src, dst) == src,
{
    lemma_opaque_channel(src[0], dst[0]);
    lemma_opaque_channel(src[1], dst[1]);
    lemma_opaque_channel(src[2], dst[2]);
    lemma_opaque_channel(src[3], dst[3]);
    assert(over(src, dst) =~= src);
}

} // verus!
