//! The integer bookkeeping of the chaos search and of trajectory sampling:
//! coefficient counts, sample sizes, and the split of a packed parameter list.
use vstd::prelude::*;

verus! {

/// Coefficients of a quadratic map of two variables.
pub const QUADRATIC_PARAMS: usize = 6;

/// Coefficients of a cubic map of two variables.
pub const CUBIC_PARAMS: usize = 10;

/// Most points sampled from an accepted map in one go.
pub const DEFAULT_BATCH_SIZE: usize = 1_000_000;

/// Fewest and most steps spent reaching the attractor before bounds are tracked.
pub const MIN_WARMUP: usize = 500;

pub const MAX_WARMUP: usize = 10_000;

pub open spec fn spec_param_count(is_cubic: bool) -> usize {
    if is_cubic {
        CUBIC_PARAMS
    } else {
        QUADRATIC_PARAMS
    }
}

/// The number of coefficients of one coordinate's map.
pub fn param_count(is_cubic: bool) -> (r: usize)
    ensures
        r == spec_param_count(is_cubic),
{
    if is_cubic {
        CUBIC_PARAMS
    } else {
        QUADRATIC_PARAMS
    }
}

/// Whether both coefficient lists are long enough for the map's degree.
pub fn has_params(x_len: usize, y_len: usize, is_cubic: bool) -> (r: bool)
    ensures
        r == (x_len >= spec_param_count(is_cubic) && y_len >= spec_param_count(is_cubic)),
{
    let required = param_count(is_cubic);
    x_len >= required && y_len >= required
}

/// How many points of an accepted map to sample: what was asked for, but
/// no more than `DEFAULT_BATCH_SIZE`.
pub fn discovery_points(n_plot: usize) -> (r: usize)
    ensures
        r == if n_plot < DEFAULT_BATCH_SIZE { n_plot } else { DEFAULT_BATCH_SIZE },
{
    if n_plot < DEFAULT_BATCH_SIZE {
        n_plot
    } else {
        DEFAULT_BATCH_SIZE
    }
}

/// Held between the two warm-up limits and then cut to `n_points`, the
/// warm-up comes to `n_points` up to `MAX_WARMUP`.
pub open spec fn spec_warmup_steps(n_points: usize) -> usize {
    if n_points > MAX_WARMUP {
        MAX_WARMUP
    } else {
        n_points
    }
}

/// Steps spent reaching the attractor before bounds are tracked: `n_points`
/// held between `MIN_WARMUP` and `MAX_WARMUP`, and never more than `n_points`.
pub fn warmup_steps(n_points: usize) -> (r: usize)
    ensures
        r == spec_warmup_steps(n_points),
        r <= n_points,
{
    let held = if n_points < MIN_WARMUP {
        MIN_WARMUP
    } else if n_points > MAX_WARMUP {
        MAX_WARMUP
    } else {
        n_points
    };
    if held < n_points {
        held
    } else {
        n_points
    }
}

/// Steps over which bounds are tracked after the warm-up: what is left of
/// `n_points`, and at least one.
pub fn tracking_steps(n_points: usize) -> (r: usize)
    ensures
        r == if n_points - spec_warmup_steps(n_points) > 1 {
            n_points - spec_warmup_steps(n_points)
        } else {
            1
        },
        r >= 1,
{
    let rest = n_points - warmup_steps(n_points);
    if rest > 1 {
        rest
    } else {
        1
    }
}

/// Reads a packed list of both maps' coefficients, x map first: a list
/// longer than two quadratic maps' worth is taken as cubic. Gives the degree
/// and the count per map when the list holds exactly two maps' worth, and
/// `None` otherwise.
pub fn split_params(len: usize) -> (r: Option<(bool, usize)>)
    ensures
        r == if len == 2 * spec_param_count(len > 2 * QUADRATIC_PARAMS) {
            Some((len > 2 * QUADRATIC_PARAMS, spec_param_count(len > 2 * QUADRATIC_PARAMS)))
        } else {
            None::<(bool, usize)>
        },
{
    let is_cubic = len > 2 * QUADRATIC_PARAMS;
    let count = param_count(is_cubic);
    if len == 2 * count {
        Some((is_cubic, count))
    } else {
        None
    }
}

} // verus!
