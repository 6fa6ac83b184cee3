//! Visibility as a whole percentage.

use vstd::arithmetic::div_mod::{lemma_fundamental_div_mod, lemma_fundamental_div_mod_converse};
use vstd::prelude::*;

verus! {

/// The visible share of `max`, in whole percent, rounded down.
///
/// A scope without area (`max <= 0`) counts as not visible at all. The result
/// is kept within a byte: readings below zero count as 0 and readings above
/// 255 as 255. A reading with `0 <= current <= max` never leaves 0..=100
/// (see [`lemma_percent_at_most_hundred`]).
pub open spec fn percent_of(current: int, max: int) -> int {
    if max > 0 {
        let exact = (current * 100) / max;
        if exact < 0 {
            0
        } else if exact > 255 {
            255
        } else {
            exact
        }
    } else {
        0
    }
}

/// A reading that lies within its area is between 0 and 100 percent.
pub proof fn lemma_percent_at_most_hundred(current: int, max: int)
    requires
        0 <= current <= max,
    ensures
        0 <= percent_of(current, max) <= 100,
{
    if max > 0 {
        assert((current * 100) / max <= 100) by (nonlinear_arith)
            requires
                0 <= current <= max,
                max > 0,
        ;
    }
}

/// `floor(100 * rem / max)` for `rem < max`, without forming `100 * rem`.
///
/// The aggregate of many monitors can come close to the top of the 128-bit
/// range, where a multiplication by 100 is not available; a hundred additions
/// with a running remainder always are.
fn hundredths(rem: u128, max: u128) -> (t: u8)
    requires
        rem < max,
        max <= i128::MAX,
    ensures
        t == (100 * rem) / (max as int),
        t < 100,
{
    let mut t: u8 = 0;
    let mut acc: u128 = 0;
    let mut i: u8 = 0;
    while i < 100
        invariant
            i <= 100,
            rem < max,
            max <= i128::MAX,
            acc < max,
            t <= i,
            i * rem == t * max + acc,
            i > 0 ==> t < i,
        decreases 100 - i,
    {
        let ghost before = (i as int, t as int, acc as int);
        acc = acc + rem;
        if acc >= max {
            acc = acc - max;
            t = t + 1;
        }
        i = i + 1;
        assert(i * rem == t * max + acc) by (nonlinear_arith)
            requires
                before.0 * rem == before.1 * max + before.2,
                i == before.0 + 1,
                (t == before.1 && acc == before.2 + rem) || (t == before.1 + 1 && acc == before.2
                    + rem - max),
        ;
        assert(t < i) by (nonlinear_arith)
            requires
                i * rem == t * max + acc,
                rem < max,
                0 <= acc,
                i > 0,
                t <= i,
        ;
    }
    proof {
        lemma_fundamental_div_mod_converse(100 * rem, max as int, t as int, acc as int);
    }
    t
}

/// The percentage of two wide totals; see [`percent_of`].
pub fn percent_of_totals(current: i128, max: i128) -> (p: u8)
    ensures
        p == percent_of(current as int, max as int),
{
    if max <= 0 {
        return 0;
    }
    if current <= 0 {
        assert((current * 100) / (max as int) <= 0) by (nonlinear_arith)
            requires
                current <= 0,
                max > 0,
        ;
        return 0;
    }
    let c: u128 = current as u128;
    let m: u128 = max as u128;
    let whole: u128 = c / m;
    let rem: u128 = c % m;
    proof {
        lemma_fundamental_div_mod(current as int, max as int);
        assert(current == whole * max + rem) by (nonlinear_arith)
            requires
                current == max * whole + rem,
        ;
    }
    if whole >= 3 {
        assert((current * 100) / (max as int) > 255) by (nonlinear_arith)
            requires
                max > 0,
                whole >= 3,
                current == whole * max + rem,
                0 <= rem,
        ;
        return 255;
    }
    let t: u8 = hundredths(rem, m);
    let total: u16 = 100 * (whole as u16) + (t as u16);
    proof {
        let left: int = 100 * rem - t * max;
        assert(0 <= left < max) by (nonlinear_arith)
            requires
                t == (100 * rem) / (max as int),
                left == 100 * rem - t * max,
                max > 0,
                rem >= 0,
        ;
        assert(current * 100 == total * max + left) by (nonlinear_arith)
            requires
                current == whole * max + rem,
                total == 100 * whole + t,
                left == 100 * rem - t * max,
        ;
        lemma_fundamental_div_mod_converse(current * 100, max as int, total as int, left);
    }
    if total > 255 {
        255
    } else {
        total as u8
    }
}

/// The percentage of one monitor's reading; see [`percent_of`].
pub fn visibility_percent(current: i64, max: i64) -> (p: u8)
    ensures
        p == percent_of(current as int, max as int),
{
    percent_of_totals(current as i128, max as i128)
}

} // verus!
