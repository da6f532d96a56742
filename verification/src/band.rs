//! The price band around a mark price.
//!
//! An alert matches a mark price when its target lies within a fraction of
//! the mark price on either side. The fraction is given in basis points, and
//! the comparison is exact: no rounding decides a match.

use vstd::prelude::*;

verus! {

/// Basis points in one whole.
pub const BPS_SCALE: u64 = 10_000;

/// `BPS_SCALE` times the lower edge of the band around `mark`.
pub open spec fn scaled_lower(mark: u64, band_bps: u32) -> int {
    mark * (BPS_SCALE - band_bps)
}

/// `BPS_SCALE` times the upper edge of the band around `mark`.
pub open spec fn scaled_upper(mark: u64, band_bps: u32) -> int {
    mark * (BPS_SCALE + band_bps)
}

/// Whether `target` lies in the band around `mark`, that is in
/// `[mark * (1 - e), mark * (1 + e)]` for `e = band_bps / BPS_SCALE`.
pub open spec fn in_band(target: u64, mark: u64, band_bps: u32) -> bool {
    scaled_lower(mark, band_bps) <= target * BPS_SCALE <= scaled_upper(mark, band_bps)
}

/// The least price in the band around `mark`, if the band holds any.
pub open spec fn band_lower(mark: u64, band_bps: u32) -> int {
    if band_bps >= BPS_SCALE {
        0
    } else {
        (scaled_lower(mark, band_bps) + BPS_SCALE - 1) / (BPS_SCALE as int)
    }
}

/// The greatest price in the band around `mark`, if the band holds any; it is
/// capped at the greatest price there is.
pub open spec fn band_upper(mark: u64, band_bps: u32) -> int {
    let edge = scaled_upper(mark, band_bps) / (BPS_SCALE as int);
    if edge > u64::MAX {
        u64::MAX as int
    } else {
        edge
    }
}

/// The prices between `band_lower` and `band_upper` are those in the band.
pub proof fn lemma_band_bounds(target: u64, mark: u64, band_bps: u32)
    ensures
        in_band(target, mark, band_bps) <==> band_lower(mark, band_bps) <= target <= band_upper(
            mark,
            band_bps,
        ),
{
    let lo = scaled_lower(mark, band_bps);
    let hi = scaled_upper(mark, band_bps);
    if band_bps >= BPS_SCALE {
        assert(lo <= 0) by (nonlinear_arith)
            requires
                lo == mark * (BPS_SCALE - band_bps),
                band_bps >= BPS_SCALE,
        ;
    }
    assert(hi >= 0) by (nonlinear_arith)
        requires
            hi == mark * (BPS_SCALE + band_bps),
    ;
}

/// The band around `mark` as a closed interval of prices.
pub fn price_band(mark: u64, band_bps: u32) -> (band: (u64, u64))
    ensures
        band.0 == band_lower(mark, band_bps),
        band.1 == band_upper(mark, band_bps),
        forall|target: u64|
            band.0 <= target <= band.1 <==> #[trigger] in_band(target, mark, band_bps),
{
    let scale: u128 = BPS_SCALE as u128;
    let lower: u64 = if band_bps as u64 >= BPS_SCALE {
        0
    } else {
        let width: u128 = (BPS_SCALE - band_bps as u64) as u128;
        assert(mark * width <= mark * 10_000 <= u64::MAX * 10_000) by (nonlinear_arith)
            requires
                0 <= width <= 10_000,
        ;
        let edge: u128 = (mark as u128 * width + (scale - 1)) / scale;
        edge as u64
    };
    let width: u128 = BPS_SCALE as u128 + band_bps as u128;
    assert(0 <= mark * width <= u64::MAX * (10_000 + u32::MAX)) by (nonlinear_arith)
        requires
            0 <= width <= 10_000 + u32::MAX,
    ;
    let edge: u128 = (mark as u128 * width) / scale;
    let upper: u64 = if edge > u64::MAX as u128 {
        u64::MAX
    } else {
        edge as u64
    };
    proof {
        assert forall|target: u64| lower <= target <= upper <==> #[trigger] in_band(
            target,
            mark,
            band_bps,
        ) by {
            lemma_band_bounds(target, mark, band_bps);
        }
    }
    (lower, upper)
}

} // verus!
