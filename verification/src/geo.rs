//! Integer geometry for proximity queries.
//!
//! Coordinates are degrees scaled by one million (microdegrees).  The
//! distance between two points is a planar approximation in whole meters:
//! the Euclidean length of the coordinate difference, converted at the
//! equatorial scale of one degree to 111,319 meters.  The persistence
//! port owes its callers *some* total distance measure; this is the one
//! the in-memory port implements, and every proximity contract is stated
//! against it exactly.

use vstd::prelude::*;

verus! {

/// Largest legal longitude in microdegrees (180 degrees).
pub const LON_LIMIT: i64 = 180_000_000;

/// Largest legal latitude in microdegrees (90 degrees).
pub const LAT_LIMIT: i64 = 90_000_000;

/// Meters per degree of arc on the model sphere.
pub const METERS_PER_DEGREE: u64 = 111_319;

/// Whether `[longitude, latitude]` lies in the legal coordinate range.
pub open spec fn spec_coords_ok(lon: int, lat: int) -> bool {
    -(LON_LIMIT as int) <= lon <= LON_LIMIT as int && -(LAT_LIMIT as int) <= lat <= LAT_LIMIT
        as int
}

pub fn coords_ok(lon: i64, lat: i64) -> (r: bool)
    ensures
        r == spec_coords_ok(lon as int, lat as int),
{
    -LON_LIMIT <= lon && lon <= LON_LIMIT && -LAT_LIMIT <= lat && lat <= LAT_LIMIT
}

/// The integer square root, rounded down.
pub open spec fn sqrt_floor(n: nat) -> nat
    decreases n,
{
    if n == 0 {
        0
    } else {
        let r = sqrt_floor((n - 1) as nat);
        if (r + 1) * (r + 1) <= n {
            r + 1
        } else {
            r
        }
    }
}

pub proof fn lemma_sqrt_floor_bounds(n: nat)
    ensures
        sqrt_floor(n) * sqrt_floor(n) <= n,
        n < (sqrt_floor(n) + 1) * (sqrt_floor(n) + 1),
    decreases n,
{
    if n == 0 {
        assert(sqrt_floor(0) == 0);
        assert(n < (sqrt_floor(n) + 1) * (sqrt_floor(n) + 1)) by (nonlinear_arith)
            requires
                n == 0nat && sqrt_floor(n) == 0nat,
        ;
    } else {
        lemma_sqrt_floor_bounds((n - 1) as nat);
        let r = sqrt_floor((n - 1) as nat);
        assert(r * r <= n - 1);
        assert(n - 1 < (r + 1) * (r + 1));
        if (r + 1) * (r + 1) <= n {
            assert(sqrt_floor(n) == r + 1);
            assert((r + 1 + 1) * (r + 1 + 1) > (r + 1) * (r + 1)) by (nonlinear_arith);
            assert(n < (sqrt_floor(n) + 1) * (sqrt_floor(n) + 1));
        } else {
            assert(sqrt_floor(n) == r);
            assert(n < (sqrt_floor(n) + 1) * (sqrt_floor(n) + 1));
        }
    }
}

/// `sqrt_floor` is the only value with the square-root bracketing property.
pub proof fn lemma_sqrt_floor_unique(n: nat, r: nat)
    requires
        r * r <= n,
        n < (r + 1) * (r + 1),
    ensures
        r == sqrt_floor(n),
{
    let s = sqrt_floor(n);
    lemma_sqrt_floor_bounds(n);
    if r < s {
        assert((r + 1) * (r + 1) <= s * s) by (nonlinear_arith)
            requires
                r + 1 <= s,
        ;
    } else if s < r {
        assert((s + 1) * (s + 1) <= r * r) by (nonlinear_arith)
            requires
                s + 1 <= r,
        ;
    }
}

/// The integer square root of `n`, by binary search.
pub fn isqrt(n: u64) -> (r: u64)
    ensures
        r as nat == sqrt_floor(n as nat),
{
    let mut lo: u64 = 0;
    let mut hi: u64 = 4_294_967_296;
    proof {
        assert((hi as nat) * (hi as nat) > n as nat) by (nonlinear_arith)
            requires
                hi == 4_294_967_296u64 && n <= u64::MAX,
        ;
    }
    while lo + 1 < hi
        invariant
            lo < hi <= 4_294_967_296,
            (lo as nat) * (lo as nat) <= n as nat,
            (n as nat) < (hi as nat) * (hi as nat),
        decreases hi - lo,
    {
        let mid = lo + (hi - lo) / 2;
        proof {
            assert(mid < hi);
            assert((mid as nat) * (mid as nat) <= 0xffff_ffff_0000_0000 + 1) by (nonlinear_arith)
                requires
                    mid <= 4_294_967_295u64,
            ;
        }
        if mid * mid <= n {
            lo = mid;
        } else {
            hi = mid;
        }
    }
    proof {
        lemma_sqrt_floor_unique(n as nat, lo as nat);
    }
    lo
}

/// Distance in whole meters between two coordinate pairs, as the in-memory
/// port measures it: Euclidean length in microdegrees, scaled to meters.
pub open spec fn spec_distance_m(lon1: int, lat1: int, lon2: int, lat2: int) -> int {
    METERS_PER_DEGREE as int * sqrt_floor(
        ((lon1 - lon2) * (lon1 - lon2) + (lat1 - lat2) * (lat1 - lat2)) as nat,
    ) / 1_000_000
}

/// Distance in whole meters between two in-range coordinate pairs.
pub fn distance_m(lon1: i64, lat1: i64, lon2: i64, lat2: i64) -> (d: i64)
    requires
        spec_coords_ok(lon1 as int, lat1 as int),
        spec_coords_ok(lon2 as int, lat2 as int),
    ensures
        d == spec_distance_m(lon1 as int, lat1 as int, lon2 as int, lat2 as int),
        0 <= d <= 57_000_000,
{
    let dlon: u64 = if lon1 >= lon2 {
        (lon1 - lon2) as u64
    } else {
        (lon2 - lon1) as u64
    };
    let dlat: u64 = if lat1 >= lat2 {
        (lat1 - lat2) as u64
    } else {
        (lat2 - lat1) as u64
    };
    proof {
        assert((dlon as nat) * (dlon as nat) == (lon1 - lon2) * (lon1 - lon2)
            && (dlon as nat) * (dlon as nat) <= 360_000_000 * 360_000_000) by (nonlinear_arith)
            requires
                dlon as int == if lon1 >= lon2 {
                    lon1 - lon2
                } else {
                    lon2 - lon1
                } && -360_000_000 <= lon1 - lon2 <= 360_000_000,
        ;
        assert((dlat as nat) * (dlat as nat) == (lat1 - lat2) * (lat1 - lat2)
            && (dlat as nat) * (dlat as nat) <= 180_000_000 * 180_000_000) by (nonlinear_arith)
            requires
                dlat as int == if lat1 >= lat2 {
                    lat1 - lat2
                } else {
                    lat2 - lat1
                } && -180_000_000 <= lat1 - lat2 <= 180_000_000,
        ;
    }
    let sq: u64 = dlon * dlon + dlat * dlat;
    let root = isqrt(sq);
    proof {
        lemma_sqrt_floor_bounds(sq as nat);
        assert(sqrt_floor(sq as nat) <= 510_000_000) by (nonlinear_arith)
            requires
                sqrt_floor(sq as nat) * sqrt_floor(sq as nat) <= sq as nat && sq
                    <= 162_000_000_000_000_000u64,
        ;
    }
    (METERS_PER_DEGREE * root / 1_000_000) as i64
}

} // verus!
