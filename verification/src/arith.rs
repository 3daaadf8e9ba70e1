use vstd::prelude::*;

verus! {

/// `a - b`, or 0 where `b` exceeds `a`.
pub open spec fn sat_sub(a: u64, b: u64) -> u64 {
    if a < b {
        0
    } else {
        (a - b) as u64
    }
}

/// `a - b` for signed integers, clamped to the range of `i64`.
pub open spec fn sat_sub_i64(a: i64, b: i64) -> i64 {
    if a - b > i64::MAX {
        i64::MAX
    } else if a - b < i64::MIN {
        i64::MIN
    } else {
        (a - b) as i64
    }
}

/// The smaller of two amounts.
pub open spec fn min_u64(a: u64, b: u64) -> u64 {
    if a < b {
        a
    } else {
        b
    }
}

/// `a * b / d`, rounded down and computed without overflow, or `u64::MAX`
/// where that quotient does not fit.
pub open spec fn mul_div_clamped(a: u64, b: u64, d: u64) -> u64 {
    if a * b / d as int > u64::MAX {
        u64::MAX
    } else {
        (a * b / d as int) as u64
    }
}

/// Computes `a * b / d` rounded down through a 128-bit product, clamped to
/// `u64::MAX`.
pub fn mul_div(a: u64, b: u64, d: u64) -> (r: u64)
    requires
        d > 0,
    ensures
        r == mul_div_clamped(a, b, d),
{
    assert((a as int) * (b as int) <= u128::MAX) by (nonlinear_arith)
        requires
            a <= u64::MAX,
            b <= u64::MAX,
    ;
    let p: u128 = (a as u128) * (b as u128);
    let q: u128 = p / (d as u128);
    if q > u64::MAX as u128 {
        u64::MAX
    } else {
        q as u64
    }
}

/// `x * num / den` rounded down, for a 128-bit `x`.
pub open spec fn share_of(x: u128, num: u128, den: u128) -> int {
    (x as int * num as int) / (den as int)
}

proof fn lemma_share_split(x: int, num: int, den: int, q: int, rem: int)
    requires
        0 < den,
        0 <= num <= den,
        x == q * den + rem,
        0 <= rem < den,
        0 <= q,
    ensures
        (x * num) / den == q * num + (rem * num) / den,
        (rem * num) / den <= rem,
        q * num + (rem * num) / den <= x,
{
    assert(x * num == (q * num) * den + rem * num) by (nonlinear_arith)
        requires
            x == q * den + rem,
    ;
    assert((q * num * den + rem * num) / den == q * num + (rem * num) / den) by (nonlinear_arith)
        requires
            0 < den,
            0 <= rem * num,
    ;
    assert((rem * num) / den <= rem) by (nonlinear_arith)
        requires
            0 < den,
            0 <= num <= den,
            0 <= rem,
    ;
    assert(q * num <= q * den) by (nonlinear_arith)
        requires
            0 <= q,
            num <= den,
    ;
}

/// Computes `x * num / den` rounded down without forming `x * num`, for
/// `num <= den`; the result never exceeds `x`.
pub fn share(x: u128, num: u128, den: u128) -> (r: u128)
    requires
        0 < den,
        num <= den,
        den <= u64::MAX,
    ensures
        r == share_of(x, num, den),
        r <= x,
{
    let q = x / den;
    let rem = x % den;
    proof {
        assert(x as int == q as int * den as int + rem as int) by (nonlinear_arith)
            requires
                q == x / den,
                rem == x % den,
                den > 0,
        ;
        lemma_share_split(x as int, num as int, den as int, q as int, rem as int);
        assert(rem as int * num as int <= u128::MAX) by (nonlinear_arith)
            requires
                rem < den,
                num <= den,
                den <= u64::MAX,
        ;
        assert(q as int * num as int <= x as int) by (nonlinear_arith)
            requires
                q as int * num as int + (rem as int * num as int) / (den as int) <= x as int,
                0 <= (rem as int * num as int) / (den as int),
        ;
    }
    let hi: u128 = q * num;
    let lo: u128 = rem * num / den;
    hi + lo
}

/// Saturating subtraction of two amounts.
pub fn saturating_sub(a: u64, b: u64) -> (r: u64)
    ensures
        r == sat_sub(a, b),
{
    if a < b {
        0
    } else {
        a - b
    }
}

/// Saturating subtraction of two signed times.
pub fn saturating_sub_i64(a: i64, b: i64) -> (r: i64)
    ensures
        r == sat_sub_i64(a, b),
{
    match a.checked_sub(b) {
        Some(d) => d,
        None => {
            if b < 0 {
                i64::MAX
            } else {
                i64::MIN
            }
        },
    }
}

} // verus!
