//! Natural numbers of any size, as little-endian vectors of 64-bit limbs:
//! enough arithmetic (product with a limb, sum, comparison) to compare sums
//! of ratios exactly.
use vstd::prelude::*;

verus! {

/// The base of one limb, 2^64.
pub open spec fn limb_base() -> nat {
    0x1_0000_0000_0000_0000
}

/// The weight of limb `i`: 2^(64 i).
pub open spec fn weight(i: nat) -> nat
    decreases i,
{
    if i == 0 {
        1
    } else {
        limb_base() * weight((i - 1) as nat)
    }
}

/// Limb `i` of `s`, zero beyond its end.
pub open spec fn limb(s: Seq<u64>, i: int) -> nat {
    if 0 <= i < s.len() {
        s[i] as nat
    } else {
        0
    }
}

/// The value of the lowest `n` limbs of `s`.
pub open spec fn value_upto(s: Seq<u64>, n: nat) -> nat
    decreases n,
{
    if n == 0 {
        0
    } else {
        value_upto(s, (n - 1) as nat) + limb(s, n - 1) * weight((n - 1) as nat)
    }
}

/// The number that the limbs `s` stand for.
pub open spec fn value(s: Seq<u64>) -> nat {
    value_upto(s, s.len())
}

proof fn lemma_weight_pos(i: nat)
    ensures
        weight(i) >= 1,
    decreases i,
{
    if i > 0 {
        lemma_weight_pos((i - 1) as nat);
        assert(limb_base() * weight((i - 1) as nat) >= 1) by (nonlinear_arith)
            requires
                weight((i - 1) as nat) >= 1,
        ;
    }
}

/// Two limb sequences that agree below `n` have the same value there.
proof fn lemma_value_upto_agree(s: Seq<u64>, t: Seq<u64>, n: nat)
    requires
        forall|j: int| 0 <= j < n ==> limb(s, j) == limb(t, j),
    ensures
        value_upto(s, n) == value_upto(t, n),
    decreases n,
{
    if n > 0 {
        lemma_value_upto_agree(s, t, (n - 1) as nat);
        assert(limb(s, n - 1) == limb(t, n - 1));
    }
}

/// Limbs beyond the end add nothing.
proof fn lemma_value_upto_beyond(s: Seq<u64>, n: nat)
    requires
        n >= s.len(),
    ensures
        value_upto(s, n) == value(s),
    decreases n,
{
    if n > s.len() {
        lemma_value_upto_beyond(s, (n - 1) as nat);
    }
}

/// Appending a limb adds it at the next weight.
proof fn lemma_value_push(s: Seq<u64>, l: u64)
    ensures
        value(s.push(l)) == value(s) + l * weight(s.len()),
{
    let t = s.push(l);
    assert forall|j: int| 0 <= j < s.len() implies limb(t, j) == limb(s, j) by {}
    lemma_value_upto_agree(t, s, s.len());
    assert(limb(t, s.len() as int) == l);
}

/// The limbs of a single `u64`.
pub fn from_u64(v: u64) -> (r: Vec<u64>)
    ensures
        value(r@) == v,
{
    let mut r: Vec<u64> = Vec::new();
    let ghost e = r@;
    proof {
        lemma_value_push(e, v);
        assert(value(e) == 0);
        assert(e.len() == 0);
        assert(weight(0) == 1);
        let w0 = weight(0);
        assert(v * w0 == v) by (nonlinear_arith)
            requires
                w0 == 1,
        ;
    }
    r.push(v);
    assert(r@ == e.push(v));
    r
}

/// The product of the number `x` with the limb `m`.
pub fn mul_limb(x: &Vec<u64>, m: u64) -> (r: Vec<u64>)
    ensures
        value(r@) == value(x@) * m,
{
    let mut out: Vec<u64> = Vec::new();
    let mut carry: u64 = 0;
    let mut i: usize = 0;
    assert(value(out@) == 0 && value_upto(x@, 0) == 0);
    while i < x.len()
        invariant
            i <= x@.len(),
            out@.len() == i,
            value(out@) + carry * weight(i as nat) == value_upto(x@, i as nat) * m,
        decreases x@.len() - i,
    {
        let xi = x[i];
        assert((xi as int) * (m as int) <= 0xffff_ffff_ffff_ffff * 0xffff_ffff_ffff_ffff) by (nonlinear_arith)
            requires
                xi <= 0xffff_ffff_ffff_ffff,
                m <= 0xffff_ffff_ffff_ffff,
                xi >= 0,
                m >= 0,
        ;
        let t: u128 = (xi as u128) * (m as u128) + (carry as u128);
        let lo: u64 = (t % 0x1_0000_0000_0000_0000u128) as u64;
        let hi: u64 = (t / 0x1_0000_0000_0000_0000u128) as u64;
        proof {
            let w = weight(i as nat);
            let v = value(out@);
            let p = value_upto(x@, i as nat);
            assert(t == lo + hi * limb_base());
            assert(limb(x@, i as int) == xi);
            assert(value_upto(x@, (i + 1) as nat) == p + xi * w);
            assert(weight((i + 1) as nat) == limb_base() * w);
            lemma_value_push(out@, lo);
            assert(v + lo * w + hi * (limb_base() * w) == (p + xi * w) * m) by (nonlinear_arith)
                requires
                    v + carry * w == p * m,
                    t == lo + hi * limb_base(),
                    t == xi * m + carry,
            ;
        }
        out.push(lo);
        carry = hi;
        i = i + 1;
    }
    proof {
        lemma_value_push(out@, carry);
    }
    out.push(carry);
    out
}

/// The sum of the numbers `x` and `y`.
pub fn plus(x: &Vec<u64>, y: &Vec<u64>) -> (r: Vec<u64>)
    ensures
        value(r@) == value(x@) + value(y@),
{
    let n = if x.len() >= y.len() {
        x.len()
    } else {
        y.len()
    };
    let mut out: Vec<u64> = Vec::new();
    let mut carry: u64 = 0;
    let mut i: usize = 0;
    assert(value(out@) == 0 && value_upto(x@, 0) == 0 && value_upto(y@, 0) == 0);
    while i < n
        invariant
            i <= n,
            n >= x@.len(),
            n >= y@.len(),
            out@.len() == i,
            carry <= 1,
            value(out@) + carry * weight(i as nat) == value_upto(x@, i as nat) + value_upto(y@, i as nat),
        decreases n - i,
    {
        let a: u64 = if i < x.len() {
            x[i]
        } else {
            0
        };
        let b: u64 = if i < y.len() {
            y[i]
        } else {
            0
        };
        let t: u128 = (a as u128) + (b as u128) + (carry as u128);
        let lo: u64 = (t % 0x1_0000_0000_0000_0000u128) as u64;
        let hi: u64 = (t / 0x1_0000_0000_0000_0000u128) as u64;
        proof {
            let w = weight(i as nat);
            let v = value(out@);
            assert(t == lo + hi * limb_base());
            assert(limb(x@, i as int) == a);
            assert(limb(y@, i as int) == b);
            assert(weight((i + 1) as nat) == limb_base() * w);
            lemma_value_push(out@, lo);
            assert(v + lo * w + hi * (limb_base() * w) == v + carry * w + a * w + b * w) by (nonlinear_arith)
                requires
                    t == lo + hi * limb_base(),
                    t == a + b + carry,
            ;
        }
        out.push(lo);
        carry = hi;
        i = i + 1;
    }
    proof {
        lemma_value_push(out@, carry);
        lemma_value_upto_beyond(x@, n as nat);
        lemma_value_upto_beyond(y@, n as nat);
    }
    out.push(carry);
    out
}

/// Whether the number `x` is at least the number `y`.
pub fn at_least(x: &Vec<u64>, y: &Vec<u64>) -> (r: bool)
    ensures
        r == (value(x@) >= value(y@)),
{
    let n = if x.len() >= y.len() {
        x.len()
    } else {
        y.len()
    };
    let mut borrow: bool = false;
    let mut i: usize = 0;
    assert(value_upto(x@, 0) == 0 && value_upto(y@, 0) == 0 && weight(0) == 1);
    while i < n
        invariant
            i <= n,
            n >= x@.len(),
            n >= y@.len(),
            0 <= value_upto(x@, i as nat) - value_upto(y@, i as nat) + (if borrow {
                weight(i as nat) as int
            } else {
                0int
            }) < weight(i as nat),
        decreases n - i,
    {
        let a: u64 = if i < x.len() {
            x[i]
        } else {
            0
        };
        let b: u64 = if i < y.len() {
            y[i]
        } else {
            0
        };
        let ghost w = weight(i as nat);
        let ghost d = value_upto(x@, i as nat) - value_upto(y@, i as nat);
        proof {
            assert(limb(x@, i as int) == a);
            assert(limb(y@, i as int) == b);
            assert(weight((i + 1) as nat) == limb_base() * w);
            assert(value_upto(x@, (i + 1) as nat) - value_upto(y@, (i + 1) as nat) == d + (a - b) * w) by (
            nonlinear_arith)
                requires
                    value_upto(x@, (i + 1) as nat) == value_upto(x@, i as nat) + a * w,
                    value_upto(y@, (i + 1) as nat) == value_upto(y@, i as nat) + b * w,
                    d == value_upto(x@, i as nat) - value_upto(y@, i as nat),
            ;
        }
        let next: bool = if borrow {
            a <= b
        } else {
            a < b
        };
        proof {
            let bw: int = if borrow {
                w as int
            } else {
                0int
            };
            assert(0 <= d + bw < w);
            let big = limb_base() * w;
            if !borrow && !next {
                assert(0 <= d + (a - b) * w < big) by (nonlinear_arith)
                    requires
                        0 <= d < w,
                        a >= b,
                        a < limb_base(),
                        b >= 0,
                        w >= 1,
                        big == limb_base() * w,
                ;
            } else if !borrow && next {
                assert(0 <= d + (a - b) * w + big < big) by (nonlinear_arith)
                    requires
                        0 <= d < w,
                        a < b,
                        b < limb_base(),
                        a >= 0,
                        w >= 1,
                        big == limb_base() * w,
                ;
            } else if borrow && !next {
                assert(0 <= d + (a - b) * w < big) by (nonlinear_arith)
                    requires
                        0 <= d + w < w,
                        a > b,
                        a < limb_base(),
                        b >= 0,
                        w >= 1,
                        big == limb_base() * w,
                ;
            } else {
                assert(0 <= d + (a - b) * w + big < big) by (nonlinear_arith)
                    requires
                        0 <= d + w < w,
                        a <= b,
                        b < limb_base(),
                        a >= 0,
                        w >= 1,
                        big == limb_base() * w,
                ;
            }
        }
        borrow = next;
        i = i + 1;
    }
    proof {
        lemma_value_upto_beyond(x@, n as nat);
        lemma_value_upto_beyond(y@, n as nat);
    }
    !borrow
}

} // verus!
