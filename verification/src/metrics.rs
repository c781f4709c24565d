//! Derived compression metrics.
//!
//! The status endpoint reports how much smaller the output is than the
//! input: `(1 - compressed/original) * 100` percent.  The library computes
//! it exactly, in hundredths of a percent, truncated toward zero; a
//! presentation layer may divide by 100 for display.  With an original
//! size of zero the reduction is defined as zero — never a division
//! error.

use vstd::prelude::*;

verus! {

/// `(1 - compressed/original) * 100` percent, in hundredths of a percent,
/// truncated toward zero; `0` when `original` is zero.  Negative when the
/// output grew.
pub open spec fn spec_reduction_hundredths(original: u64, compressed: u64) -> int {
    if original == 0 {
        0
    } else if compressed <= original {
        ((original - compressed) * 10000) / (original as int)
    } else {
        -(((compressed - original) * 10000) / (original as int))
    }
}

/// Computes the reduction percentage in hundredths of a percent.
///
/// A 10 MB input compressed to 3 MB yields `7000`, i.e. 70.00 %.
pub fn reduction_percent_hundredths(original: u64, compressed: u64) -> (r: i128)
    ensures
        r == spec_reduction_hundredths(original, compressed),
        original == 0 ==> r == 0,
        compressed <= original ==> 0 <= r <= 10000,
    {
    if original == 0 {
        return 0;
    }
    if compressed <= original {
        let diff: u128 = (original - compressed) as u128;
        let r: u128 = diff * 10000 / (original as u128);
        proof {
            lemma_reduction_bound(original as int, (original - compressed) as int);
        }
        r as i128
    } else {
        let diff: u128 = (compressed - original) as u128;
        let r: u128 = diff * 10000 / (original as u128);
        proof {
            lemma_growth_bound(original as int, (compressed - original) as int);
        }
        -(r as i128)
    }
}

/// The scaled quotient of a difference no larger than the original stays
/// within one hundred percent.
proof fn lemma_reduction_bound(original: int, diff: int)
    requires
        0 < original,
        0 <= diff <= original,
    ensures
        0 <= (diff * 10000) / original <= 10000,
{
    assert(0 <= (diff * 10000) / original <= 10000) by (nonlinear_arith)
        requires
            0 < original,
            0 <= diff <= original,
    ;
}

/// The scaled quotient of any u64-sized growth stays well inside i128.
proof fn lemma_growth_bound(original: int, diff: int)
    requires
        0 < original,
        0 <= diff < 0x1_0000_0000_0000_0000,
    ensures
        0 <= (diff * 10000) / original <= diff * 10000,
{
    assert(0 <= (diff * 10000) / original <= diff * 10000) by (nonlinear_arith)
        requires
            0 < original,
            0 <= diff,
    ;
}

} // verus!
