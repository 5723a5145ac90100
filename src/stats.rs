use vstd::prelude::*;

verus! {

/// Positions in the ascending-sorted samples whose values are averaged to
/// give the median: the two middle ones for an even count, the middle one
/// twice for an odd count.
pub open spec fn median_spec(n: nat) -> (int, int) {
    let half = (n / 2) as int;
    if n % 2 == 0 {
        (half - 1, half)
    } else {
        (half, half)
    }
}

/// Nearest-rank position of the `pct`-th percentile among `n` sorted
/// samples: `floor(n * pct / 100) - 1`, clamped at the first sample.
pub open spec fn percentile_spec(n: nat, pct: nat) -> int {
    let rank = (n * pct) / 100;
    if rank == 0 {
        0
    } else {
        rank - 1
    }
}

/// Where the median is read from in `n >= 1` ascending-sorted samples.
pub fn median_positions(n: usize) -> (r: (usize, usize))
    requires
        n >= 1,
    ensures
        (r.0 as int, r.1 as int) == median_spec(n as nat),
        r.0 <= r.1 < n,
{
    if n % 2 == 0 {
        (n / 2 - 1, n / 2)
    } else {
        (n / 2, n / 2)
    }
}

/// Where the `pct`-th percentile is read from in `n >= 1` ascending-sorted
/// samples; never before the first or past the last sample.
pub fn percentile_position(n: usize, pct: usize) -> (r: usize)
    requires
        n >= 1,
        pct <= 100,
    ensures
        r as int == percentile_spec(n as nat, pct as nat),
        r < n,
{
    let q: usize = n / 100;
    let m: usize = n % 100;
    proof {
        assert(q * pct <= n) by (nonlinear_arith)
            requires
                q == n / 100,
                pct <= 100,
        ;
        assert(m * pct < 10000) by (nonlinear_arith)
            requires
                m < 100,
                pct <= 100,
        ;
        assert((n * pct) / 100 == q * pct + (m * pct) / 100) by (nonlinear_arith)
            requires
                q == n / 100,
                m == n % 100,
        ;
        assert((n * pct) / 100 <= n) by (nonlinear_arith)
            requires
                pct <= 100,
        ;
    }
    let rank: usize = q * pct + (m * pct) / 100;
    if rank == 0 {
        0
    } else {
        rank - 1
    }
}

} // verus!
