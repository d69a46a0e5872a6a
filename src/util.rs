use vstd::prelude::*;

verus! {

/// `num / den` rounded to the nearest integer, halves away from zero (for non-negative values).
pub open spec fn round_div(num: int, den: int) -> int
    recommends
        den > 0,
{
    (2 * num + den) / (2 * den)
}

/// The completion of a clone in percent: received objects and indexed objects each weigh
/// half, every ratio counting as zero while the total is still unknown (zero).
pub open spec fn unified_percent(received: int, indexed: int, total: int) -> int {
    if total == 0 {
        0
    } else {
        round_div(50 * received + 50 * indexed, total)
    }
}

/// Various Git utilities.
pub struct Git;

impl Git {
    /// Converts the progress of a clone into a value between 0 and 100 (more only where the
    /// counts exceed the total), saturating at `u64::MAX`.
    ///
    /// Transfer and indexing count for half of the work each: an approximation, since one is
    /// bound by I/O and the other by the CPU.
    pub fn clone_progress(received: u64, indexed: u64, total: u64) -> (r: u64)
        ensures
            r == if unified_percent(received as int, indexed as int, total as int) > u64::MAX {
                u64::MAX as int
            } else {
                unified_percent(received as int, indexed as int, total as int)
            },
            total == 0 ==> r == 0,
            received <= total && indexed <= total ==> r <= 100,
    {
        if total == 0 {
            return 0;
        }
        let num: u128 = 50 * (received as u128) + 50 * (indexed as u128);
        let den: u128 = total as u128;
        let q: u128 = (2 * num + den) / (2 * den);
        proof {
            if received <= total && indexed <= total {
                assert(2 * num + den <= 201 * den);
                assert((2 * num + den) / (2 * den) <= 100) by (nonlinear_arith)
                    requires
                        2 * num + den <= 201 * den,
                        den > 0,
                ;
            }
        }
        if q > u64::MAX as u128 {
            u64::MAX
        } else {
            q as u64
        }
    }
}

} // verus!
