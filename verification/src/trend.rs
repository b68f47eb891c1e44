use vstd::prelude::*;

use crate::MathResult;
use crate::arith::{fadd, fdiv, fmul, fsub, ieee_add, ieee_div, ieee_mul, ieee_sub};
use crate::errors::MathError;
use crate::fbits::{
    F64_ONE, F64_POS_ZERO, F64_TWO, check_finite, check_gt_zero, ge_zero_bits, is_finite_bits,
    gt_zero_bits, negate, negate_bits,
};
use crate::kalman::{
    FailKind, all_finite, err_matches, fail_empty, fail_innov_var, fail_obs_not_finite,
    fail_param, result_matches, spec_clamp, spec_validate_variance, clamp_small_negative,
    validate_variance, zero_seq, zero_vec,
};

verus! {

// ---------------------------------------------------------------------------
// The local-linear-trend recursion: a two-state filter whose level
// accumulates its trend, with the symmetric 2x2 covariance held as the
// three scalars (p00, p01, p11).
// ---------------------------------------------------------------------------

/// The trend filter's state: posterior means of level and trend and the
/// three distinct entries of their symmetric covariance.
pub ghost struct TrendState {
    pub level: u64,
    pub trend: u64,
    pub p00: u64,
    pub p01: u64,
    pub p11: u64,
}

/// A mid-recursion numerical failure of the trend filter, tagged with the
/// operation that raised it.
pub open spec fn fail_num_trend(reason: Seq<char>) -> FailKind {
    FailKind::NumericalError { reason, operation: "kalman_local_linear_trend_filter_into"@ }
}

/// One predict/update step of the local-linear-trend filter under the
/// transition `[[1,1],[0,1]]` and observation `[1,0]`: predict the state
/// and the covariance (diagonal entries under the clamp, the off-diagonal
/// checked finite), form the innovation variance `s = p00_pred + r`, the
/// gain `(k0, k1) = (p00_pred, p01_pred) / s`, correct both states by the
/// innovation, and close with the Joseph-form covariance, its diagonal
/// under the clamp.
pub open spec fn llt_step(
    st: TrendState,
    y_t: u64,
    r: u64,
    q_level: u64,
    q_trend: u64,
) -> Result<TrendState, FailKind> {
    let level_pred = ieee_add(st.level, st.trend);
    let trend_pred = st.trend;
    match spec_clamp(
        ieee_add(ieee_add(ieee_add(st.p00, ieee_mul(F64_TWO, st.p01)), st.p11), q_level),
    ) {
        Err(k) => Err(k),
        Ok(p00_pred) => {
            let p01_pred = ieee_add(st.p01, st.p11);
            match spec_clamp(ieee_add(st.p11, q_trend)) {
                Err(k) => Err(k),
                Ok(p11_pred) => if !is_finite_bits(p01_pred) {
                    Err(fail_num_trend("kalman: non-finite predicted covariance"@))
                } else {
                    let s = ieee_add(p00_pred, r);
                    if !(is_finite_bits(s) && gt_zero_bits(s)) {
                        Err(fail_innov_var())
                    } else {
                        let k0 = ieee_div(p00_pred, s);
                        let k1 = ieee_div(p01_pred, s);
                        if !(is_finite_bits(k0) && is_finite_bits(k1)) {
                            Err(fail_num_trend("kalman: non-finite gain"@))
                        } else {
                            let innov = ieee_sub(y_t, level_pred);
                            if !is_finite_bits(innov) {
                                Err(fail_num_trend("kalman: non-finite innovation"@))
                            } else {
                                let level_upd = ieee_add(level_pred, ieee_mul(k0, innov));
                                let trend_upd = ieee_add(trend_pred, ieee_mul(k1, innov));
                                if !(is_finite_bits(level_upd) && is_finite_bits(trend_upd)) {
                                    Err(fail_num_trend("kalman: non-finite updated state"@))
                                } else {
                                    llt_step_covariance(
                                        level_upd,
                                        trend_upd,
                                        p00_pred,
                                        p01_pred,
                                        p11_pred,
                                        k0,
                                        k1,
                                        r,
                                    )
                                }
                            }
                        }
                    }
                },
            }
        },
    }
}

/// The Joseph-form covariance close of one trend step, on the predicted
/// covariance and the gain: `P = (I-KH) P_pred (I-KH)^T + K R K^T`, written
/// out for `I-KH = [[1-k0, 0], [-k1, 1]]`.
pub open spec fn llt_step_covariance(
    level_upd: u64,
    trend_upd: u64,
    p00_pred: u64,
    p01_pred: u64,
    p11_pred: u64,
    k0: u64,
    k1: u64,
    r: u64,
) -> Result<TrendState, FailKind> {
    let omk0 = ieee_sub(F64_ONE, k0);
    let a00 = ieee_mul(omk0, p00_pred);
    let a01 = ieee_mul(omk0, p01_pred);
    let a10 = ieee_add(ieee_mul(negate_bits(k1), p00_pred), p01_pred);
    let a11 = ieee_add(ieee_mul(negate_bits(k1), p01_pred), p11_pred);
    let p00_new = ieee_add(ieee_mul(a00, omk0), ieee_mul(ieee_mul(k0, k0), r));
    let p01_new = ieee_add(ieee_add(ieee_mul(a00, negate_bits(k1)), a01), ieee_mul(ieee_mul(k0, k1), r));
    let p11_new = ieee_add(ieee_add(ieee_mul(a10, negate_bits(k1)), a11), ieee_mul(ieee_mul(k1, k1), r));
    if !(is_finite_bits(p00_new) && is_finite_bits(p01_new) && is_finite_bits(p11_new)) {
        Err(fail_num_trend("kalman: non-finite updated covariance"@))
    } else {
        match spec_clamp(p00_new) {
            Err(k) => Err(k),
            Ok(p00_upd) => match spec_clamp(p11_new) {
                Err(k) => Err(k),
                Ok(p11_upd) => Ok(
                    TrendState {
                        level: level_upd,
                        trend: trend_upd,
                        p00: p00_upd,
                        p01: p01_new,
                        p11: p11_upd,
                    },
                ),
            },
        }
    }
}

/// The trend filter's state after the first `t` observations; the first
/// failing step's error, once reached, is final.
pub open spec fn llt_state(
    y: Seq<u64>,
    r: u64,
    q_level: u64,
    q_trend: u64,
    init: TrendState,
    t: int,
) -> Result<TrendState, FailKind>
    decreases t,
{
    if t <= 0 {
        Ok(init)
    } else {
        match llt_state(y, r, q_level, q_trend, init, t - 1) {
            Err(k) => Err(k),
            Ok(st) => llt_step(st, y[t - 1], r, q_level, q_trend),
        }
    }
}

/// The initial trend-filter state built from the caller's parameters: the
/// two initial means on the diagonal of the covariance, the off-diagonal
/// starting at +0.0.
pub open spec fn llt_init(
    init_level: u64,
    init_trend: u64,
    init_var_level: u64,
    init_var_trend: u64,
) -> TrendState {
    TrendState {
        level: init_level,
        trend: init_trend,
        p00: init_var_level,
        p01: F64_POS_ZERO,
        p11: init_var_trend,
    }
}

/// The whole validation gate of the trend filter, in the order the checks
/// run: non-empty all-finite observations, the four output buffer lengths,
/// finite initial state, observation noise `r` (strictly positive), the two
/// process noises and the two initial variances (non-negative).
pub open spec fn spec_validate_llt(
    y: Seq<u64>,
    r: u64,
    q_level: u64,
    q_trend: u64,
    init_level: u64,
    init_trend: u64,
    init_var_level: u64,
    init_var_trend: u64,
    out_level_len: int,
    out_trend_len: int,
    out_var_level_len: int,
    out_var_trend_len: int,
) -> Result<(), FailKind> {
    if y.len() == 0 {
        Err(fail_empty())
    } else if !all_finite(y) {
        Err(fail_obs_not_finite())
    } else if out_level_len != y.len() || out_trend_len != y.len() || out_var_level_len != y.len()
        || out_var_trend_len != y.len() {
        Err(fail_param("out"@, F64_POS_ZERO, "all output slices must match y length"@))
    } else if !is_finite_bits(init_level) || !is_finite_bits(init_trend) {
        Err(
            fail_param(
                "init_state"@,
                F64_POS_ZERO,
                "init_level and init_trend must be finite"@,
            ),
        )
    } else {
        match spec_validate_variance("r"@, r, false) {
            Err(k) => Err(k),
            Ok(()) => match spec_validate_variance("q_level"@, q_level, true) {
                Err(k) => Err(k),
                Ok(()) => match spec_validate_variance("q_trend"@, q_trend, true) {
                    Err(k) => Err(k),
                    Ok(()) => match spec_validate_variance(
                        "init_var_level"@,
                        init_var_level,
                        true,
                    ) {
                        Err(k) => Err(k),
                        Ok(()) => spec_validate_variance("init_var_trend"@, init_var_trend, true),
                    },
                },
            },
        }
    }
}

/// What one trend filtering call leaves behind: its result and the final
/// contents of the four output buffers.
pub ghost struct TrendOutcome {
    pub res: Result<(), FailKind>,
    pub levels: Seq<u64>,
    pub trends: Seq<u64>,
    pub var_levels: Seq<u64>,
    pub var_trends: Seq<u64>,
}

/// The full effect of the in-place trend filter on buffers that held
/// `level0`, `trend0`, `var_level0` and `var_trend0` at entry: a validation
/// failure leaves them unchanged, and otherwise entry `t` holds the
/// posterior level, trend and the two covariance diagonal entries after
/// observation `t` wherever step `t` was reached, the entries at and after
/// a failing step keeping their old values.
pub open spec fn spec_trend_into(
    y: Seq<u64>,
    r: u64,
    q_level: u64,
    q_trend: u64,
    init: TrendState,
    level0: Seq<u64>,
    trend0: Seq<u64>,
    var_level0: Seq<u64>,
    var_trend0: Seq<u64>,
) -> TrendOutcome {
    match spec_validate_llt(
        y,
        r,
        q_level,
        q_trend,
        init.level,
        init.trend,
        init.p00,
        init.p11,
        level0.len() as int,
        trend0.len() as int,
        var_level0.len() as int,
        var_trend0.len() as int,
    ) {
        Err(k) => TrendOutcome {
            res: Err(k),
            levels: level0,
            trends: trend0,
            var_levels: var_level0,
            var_trends: var_trend0,
        },
        Ok(()) => TrendOutcome {
            res: match llt_state(y, r, q_level, q_trend, init, y.len() as int) {
                Ok(_) => Ok(()),
                Err(k) => Err(k),
            },
            levels: Seq::new(
                level0.len(),
                |i: int| match llt_state(y, r, q_level, q_trend, init, i + 1) {
                    Ok(st) => st.level,
                    Err(_) => level0[i],
                },
            ),
            trends: Seq::new(
                trend0.len(),
                |i: int| match llt_state(y, r, q_level, q_trend, init, i + 1) {
                    Ok(st) => st.trend,
                    Err(_) => trend0[i],
                },
            ),
            var_levels: Seq::new(
                var_level0.len(),
                |i: int| match llt_state(y, r, q_level, q_trend, init, i + 1) {
                    Ok(st) => st.p00,
                    Err(_) => var_level0[i],
                },
            ),
            var_trends: Seq::new(
                var_trend0.len(),
                |i: int| match llt_state(y, r, q_level, q_trend, init, i + 1) {
                    Ok(st) => st.p11,
                    Err(_) => var_trend0[i],
                },
            ),
        },
    }
}

/// Once a step of the trend recursion has failed, every later state carries
/// that same failure.
pub proof fn lemma_llt_state_stays_err(
    y: Seq<u64>,
    r: u64,
    q_level: u64,
    q_trend: u64,
    init: TrendState,
    t: int,
    u: int,
)
    requires
        0 <= t <= u,
        llt_state(y, r, q_level, q_trend, init, t) is Err,
    ensures
        llt_state(y, r, q_level, q_trend, init, u) == llt_state(y, r, q_level, q_trend, init, t),
    decreases u - t,
{
    if u > t {
        lemma_llt_state_stays_err(y, r, q_level, q_trend, init, t, u - 1);
    }
}

proof fn lemma_llt_state_err_range(
    y: Seq<u64>,
    r: u64,
    q_level: u64,
    q_trend: u64,
    init: TrendState,
    t: int,
)
    requires
        0 <= t,
        llt_state(y, r, q_level, q_trend, init, t) is Err,
    ensures
        forall|u: int|
            t <= u ==> llt_state(y, r, q_level, q_trend, init, u) == llt_state(
                y,
                r,
                q_level,
                q_trend,
                init,
                t,
            ),
{
    assert forall|u: int|
        t <= u implies llt_state(y, r, q_level, q_trend, init, u) == llt_state(
        y,
        r,
        q_level,
        q_trend,
        init,
        t,
    ) by {
        lemma_llt_state_stays_err(y, r, q_level, q_trend, init, t, u);
    }
}

/// In-place local-linear-trend Kalman filter over the observation patterns
/// in `y`. On success entry `t` of the four buffers holds the filtered
/// posterior level, trend, level variance and trend variance after
/// observation `t`; on a mid-recursion failure the entries of the completed
/// steps remain written. The whole behaviour is `spec_trend_into`.
pub fn kalman_local_linear_trend_filter_into(
    y: &Vec<u64>,
    r: u64,
    q_level: u64,
    q_trend: u64,
    init_level: u64,
    init_trend: u64,
    init_var_level: u64,
    init_var_trend: u64,
    out_level: &mut Vec<u64>,
    out_trend: &mut Vec<u64>,
    out_var_level: &mut Vec<u64>,
    out_var_trend: &mut Vec<u64>,
) -> (res: MathResult<()>)
    ensures
        ({
            let o = spec_trend_into(
                y@,
                r,
                q_level,
                q_trend,
                llt_init(init_level, init_trend, init_var_level, init_var_trend),
                old(out_level)@,
                old(out_trend)@,
                old(out_var_level)@,
                old(out_var_trend)@,
            );
            &&& final(out_level)@ == o.levels
            &&& final(out_trend)@ == o.trends
            &&& final(out_var_level)@ == o.var_levels
            &&& final(out_var_trend)@ == o.var_trends
            &&& result_matches(res, o.res)
        }),
{
    if y.len() == 0 {
        return Err(MathError::InsufficientDataAlgo { required: 1, actual: 0 });
    }
    let n = y.len();
    let mut i: usize = 0;
    while i < n
        invariant
            n == y@.len(),
            i <= n,
            forall|j: int| 0 <= j < i ==> is_finite_bits(y@[j]),
        decreases n - i,
    {
        if !check_finite(y[i]) {
            return Err(MathError::InvalidData(
                String::from_str("kalman: all observations must be finite"),
            ));
        }
        i += 1;
    }
    if out_level.len() != n || out_trend.len() != n || out_var_level.len() != n
        || out_var_trend.len() != n {
        return Err(MathError::InvalidParameter {
            parameter: String::from_str("out"),
            value: F64_POS_ZERO,
            constraint: String::from_str("all output slices must match y length"),
        });
    }
    if !check_finite(init_level) || !check_finite(init_trend) {
        return Err(MathError::InvalidParameter {
            parameter: String::from_str("init_state"),
            value: F64_POS_ZERO,
            constraint: String::from_str("init_level and init_trend must be finite"),
        });
    }
    match validate_variance("r", r, false) {
        Err(e) => {
            return Err(e);
        },
        Ok(()) => {},
    }
    match validate_variance("q_level", q_level, true) {
        Err(e) => {
            return Err(e);
        },
        Ok(()) => {},
    }
    match validate_variance("q_trend", q_trend, true) {
        Err(e) => {
            return Err(e);
        },
        Ok(()) => {},
    }
    match validate_variance("init_var_level", init_var_level, true) {
        Err(e) => {
            return Err(e);
        },
        Ok(()) => {},
    }
    match validate_variance("init_var_trend", init_var_trend, true) {
        Err(e) => {
            return Err(e);
        },
        Ok(()) => {},
    }

    let ghost init = llt_init(init_level, init_trend, init_var_level, init_var_trend);
    let ghost o = spec_trend_into(
        y@,
        r,
        q_level,
        q_trend,
        init,
        old(out_level)@,
        old(out_trend)@,
        old(out_var_level)@,
        old(out_var_trend)@,
    );

    let mut level = init_level;
    let mut trend = init_trend;
    let mut p00 = init_var_level;
    let mut p01 = F64_POS_ZERO;
    let mut p11 = init_var_trend;

    let mut t: usize = 0;
    while t < n
        invariant
            n == y@.len(),
            t <= n,
            init == llt_init(init_level, init_trend, init_var_level, init_var_trend),
            spec_validate_llt(
                y@,
                r,
                q_level,
                q_trend,
                init_level,
                init_trend,
                init_var_level,
                init_var_trend,
                old(out_level)@.len() as int,
                old(out_trend)@.len() as int,
                old(out_var_level)@.len() as int,
                old(out_var_trend)@.len() as int,
            ) is Ok,
            o == spec_trend_into(
                y@,
                r,
                q_level,
                q_trend,
                init,
                old(out_level)@,
                old(out_trend)@,
                old(out_var_level)@,
                old(out_var_trend)@,
            ),
            out_level@.len() == old(out_level)@.len() == n,
            out_trend@.len() == old(out_trend)@.len() == n,
            out_var_level@.len() == old(out_var_level)@.len() == n,
            out_var_trend@.len() == old(out_var_trend)@.len() == n,
            llt_state(y@, r, q_level, q_trend, init, t as int) == Ok::<TrendState, FailKind>(
                TrendState { level, trend, p00, p01, p11 },
            ),
            forall|i: int|
                0 <= i < t ==> ((#[trigger] llt_state(y@, r, q_level, q_trend, init, i + 1))
                    matches Ok(st) && out_level@[i] == st.level && out_trend@[i] == st.trend
                    && out_var_level@[i] == st.p00 && out_var_trend@[i] == st.p11),
            forall|i: int|
                t <= i < n ==> out_level@[i] == old(out_level)@[i] && out_trend@[i] == old(
                    out_trend,
                )@[i] && out_var_level@[i] == old(out_var_level)@[i] && out_var_trend@[i] == old(
                    out_var_trend,
                )@[i],
        decreases n - t,
    {
        let ghost st0 = TrendState { level, trend, p00, p01, p11 };
        let obs = y[t];

        // Predict: x^- = F x with F = [[1,1],[0,1]].
        let level_pred = fadd(level, trend);
        let trend_pred = trend;

        // P^- = F P F^T + Q with Q = diag(q_level, q_trend):
        // p00' = p00 + 2*p01 + p11 + q_level, p01' = p01 + p11, p11' = p11 + q_trend.
        let p00_pred_raw = fadd(fadd(fadd(p00, fmul(F64_TWO, p01)), p11), q_level);
        let p00_pred = match clamp_small_negative(p00_pred_raw) {
            Ok(v) => v,
            Err(e) => {
                proof {
                    lemma_llt_state_err_range(y@, r, q_level, q_trend, init, t as int + 1);
                    assert(out_level@ =~= o.levels);
                    assert(out_trend@ =~= o.trends);
                    assert(out_var_level@ =~= o.var_levels);
                    assert(out_var_trend@ =~= o.var_trends);
                }
                return Err(e);
            },
        };
        let p01_pred = fadd(p01, p11);
        let p11_pred = match clamp_small_negative(fadd(p11, q_trend)) {
            Ok(v) => v,
            Err(e) => {
                proof {
                    lemma_llt_state_err_range(y@, r, q_level, q_trend, init, t as int + 1);
                    assert(out_level@ =~= o.levels);
                    assert(out_trend@ =~= o.trends);
                    assert(out_var_level@ =~= o.var_levels);
                    assert(out_var_trend@ =~= o.var_trends);
                }
                return Err(e);
            },
        };
        if !check_finite(p01_pred) {
            proof {
                lemma_llt_state_err_range(y@, r, q_level, q_trend, init, t as int + 1);
                assert(out_level@ =~= o.levels);
                assert(out_trend@ =~= o.trends);
                assert(out_var_level@ =~= o.var_levels);
                assert(out_var_trend@ =~= o.var_trends);
            }
            return Err(MathError::NumericalError {
                reason: String::from_str("kalman: non-finite predicted covariance"),
                operation: Some(String::from_str("kalman_local_linear_trend_filter_into")),
            });
        }

        // Update with H = [1,0]: S = p00_pred + r.
        let s = fadd(p00_pred, r);
        if !(check_finite(s) && check_gt_zero(s)) {
            proof {
                lemma_llt_state_err_range(y@, r, q_level, q_trend, init, t as int + 1);
                assert(out_level@ =~= o.levels);
                assert(out_trend@ =~= o.trends);
                assert(out_var_level@ =~= o.var_levels);
                assert(out_var_trend@ =~= o.var_trends);
            }
            return Err(MathError::NumericalInstability(
                String::from_str("kalman: invalid innovation variance"),
            ));
        }

        // K = P^- H^T / S.
        let k0 = fdiv(p00_pred, s);
        let k1 = fdiv(p01_pred, s);
        if !(check_finite(k0) && check_finite(k1)) {
            proof {
                lemma_llt_state_err_range(y@, r, q_level, q_trend, init, t as int + 1);
                assert(out_level@ =~= o.levels);
                assert(out_trend@ =~= o.trends);
                assert(out_var_level@ =~= o.var_levels);
                assert(out_var_trend@ =~= o.var_trends);
            }
            return Err(MathError::NumericalError {
                reason: String::from_str("kalman: non-finite gain"),
                operation: Some(String::from_str("kalman_local_linear_trend_filter_into")),
            });
        }

        let innov = fsub(obs, level_pred);
        if !check_finite(innov) {
            proof {
                lemma_llt_state_err_range(y@, r, q_level, q_trend, init, t as int + 1);
                assert(out_level@ =~= o.levels);
                assert(out_trend@ =~= o.trends);
                assert(out_var_level@ =~= o.var_levels);
                assert(out_var_trend@ =~= o.var_trends);
            }
            return Err(MathError::NumericalError {
                reason: String::from_str("kalman: non-finite innovation"),
                operation: Some(String::from_str("kalman_local_linear_trend_filter_into")),
            });
        }

        level = fadd(level_pred, fmul(k0, innov));
        trend = fadd(trend_pred, fmul(k1, innov));
        if !(check_finite(level) && check_finite(trend)) {
            proof {
                lemma_llt_state_err_range(y@, r, q_level, q_trend, init, t as int + 1);
                assert(out_level@ =~= o.levels);
                assert(out_trend@ =~= o.trends);
                assert(out_var_level@ =~= o.var_levels);
                assert(out_var_trend@ =~= o.var_trends);
            }
            return Err(MathError::NumericalError {
                reason: String::from_str("kalman: non-finite updated state"),
                operation: Some(String::from_str("kalman_local_linear_trend_filter_into")),
            });
        }

        // Joseph form: P = (I-KH) P^- (I-KH)^T + K R K^T,
        // with I-KH = [[1-k0, 0], [-k1, 1]].
        let one_minus_k0 = fsub(F64_ONE, k0);
        let a00 = fmul(one_minus_k0, p00_pred);
        let a01 = fmul(one_minus_k0, p01_pred);
        let a10 = fadd(fmul(negate(k1), p00_pred), p01_pred);
        let a11 = fadd(fmul(negate(k1), p01_pred), p11_pred);

        let p00_new = fadd(fmul(a00, one_minus_k0), fmul(fmul(k0, k0), r));
        let p01_new = fadd(fadd(fmul(a00, negate(k1)), a01), fmul(fmul(k0, k1), r));
        let p11_new = fadd(fadd(fmul(a10, negate(k1)), a11), fmul(fmul(k1, k1), r));

        if !(check_finite(p00_new) && check_finite(p01_new) && check_finite(p11_new)) {
            proof {
                lemma_llt_state_err_range(y@, r, q_level, q_trend, init, t as int + 1);
                assert(out_level@ =~= o.levels);
                assert(out_trend@ =~= o.trends);
                assert(out_var_level@ =~= o.var_levels);
                assert(out_var_trend@ =~= o.var_trends);
            }
            return Err(MathError::NumericalError {
                reason: String::from_str("kalman: non-finite updated covariance"),
                operation: Some(String::from_str("kalman_local_linear_trend_filter_into")),
            });
        }

        p00 = match clamp_small_negative(p00_new) {
            Ok(v) => v,
            Err(e) => {
                proof {
                    lemma_llt_state_err_range(y@, r, q_level, q_trend, init, t as int + 1);
                    assert(out_level@ =~= o.levels);
                    assert(out_trend@ =~= o.trends);
                    assert(out_var_level@ =~= o.var_levels);
                    assert(out_var_trend@ =~= o.var_trends);
                }
                return Err(e);
            },
        };
        p11 = match clamp_small_negative(p11_new) {
            Ok(v) => v,
            Err(e) => {
                proof {
                    lemma_llt_state_err_range(y@, r, q_level, q_trend, init, t as int + 1);
                    assert(out_level@ =~= o.levels);
                    assert(out_trend@ =~= o.trends);
                    assert(out_var_level@ =~= o.var_levels);
                    assert(out_var_trend@ =~= o.var_trends);
                }
                return Err(e);
            },
        };
        p01 = p01_new;

        out_level.set(t, level);
        out_trend.set(t, trend);
        out_var_level.set(t, p00);
        out_var_trend.set(t, p11);
        proof {
            assert(llt_state(y@, r, q_level, q_trend, init, t as int + 1)
                == Ok::<TrendState, FailKind>(TrendState { level, trend, p00, p01, p11 }));
        }
        t += 1;
    }
    proof {
        assert(out_level@ =~= o.levels);
        assert(out_trend@ =~= o.trends);
        assert(out_var_level@ =~= o.var_levels);
        assert(out_var_trend@ =~= o.var_trends);
    }
    Ok(())
}

/// Allocating local-linear-trend filter: runs
/// `kalman_local_linear_trend_filter_into` over four fresh zero-filled
/// buffers and returns them on success as (level, trend, level variance,
/// trend variance).
pub fn kalman_local_linear_trend_filter(
    y: &Vec<u64>,
    r: u64,
    q_level: u64,
    q_trend: u64,
    init_level: u64,
    init_trend: u64,
    init_var_level: u64,
    init_var_trend: u64,
) -> (res: MathResult<(Vec<u64>, Vec<u64>, Vec<u64>, Vec<u64>)>)
    ensures
        ({
            let o = spec_trend_into(
                y@,
                r,
                q_level,
                q_trend,
                llt_init(init_level, init_trend, init_var_level, init_var_trend),
                zero_seq(y@.len()),
                zero_seq(y@.len()),
                zero_seq(y@.len()),
                zero_seq(y@.len()),
            );
            match res {
                Ok(out) => o.res is Ok && out.0@ == o.levels && out.1@ == o.trends && out.2@
                    == o.var_levels && out.3@ == o.var_trends,
                Err(e) => o.res matches Err(k) && err_matches(e, k),
            }
        }),
{
    let mut level = zero_vec(y.len());
    let mut trend = zero_vec(y.len());
    let mut var_level = zero_vec(y.len());
    let mut var_trend = zero_vec(y.len());
    match kalman_local_linear_trend_filter_into(
        y,
        r,
        q_level,
        q_trend,
        init_level,
        init_trend,
        init_var_level,
        init_var_trend,
        &mut level,
        &mut trend,
        &mut var_level,
        &mut var_trend,
    ) {
        Ok(()) => Ok((level, trend, var_level, var_trend)),
        Err(e) => Err(e),
    }
}

/// Determinism of the trend filter: the outcome — result and all four
/// output sequences — is a function of the observations, the parameters and
/// the buffers' initial contents alone, so two calls on identical inputs
/// leave bit-identical outputs.
pub proof fn lemma_trend_deterministic(
    y: Seq<u64>,
    r: u64,
    q_level: u64,
    q_trend: u64,
    init: TrendState,
    level0: Seq<u64>,
    trend0: Seq<u64>,
    var_level0: Seq<u64>,
    var_trend0: Seq<u64>,
    o1: TrendOutcome,
    o2: TrendOutcome,
)
    requires
        o1 == spec_trend_into(y, r, q_level, q_trend, init, level0, trend0, var_level0, var_trend0),
        o2 == spec_trend_into(y, r, q_level, q_trend, init, level0, trend0, var_level0, var_trend0),
    ensures
        o1 == o2,
        o1.levels == o2.levels,
        o1.trends == o2.trends,
        o1.var_levels == o2.var_levels,
        o1.var_trends == o2.var_trends,
        o1.res == o2.res,
{
}


/// Every state the trend recursion accepts out of a step has finite level
/// and trend means and finite, non-negative level and trend variances.
proof fn lemma_llt_step_wellformed(st: TrendState, y_t: u64, r: u64, q_level: u64, q_trend: u64)
    ensures
        llt_step(st, y_t, r, q_level, q_trend) matches Ok(upd) ==> is_finite_bits(upd.level)
            && is_finite_bits(upd.trend) && is_finite_bits(upd.p00) && ge_zero_bits(upd.p00)
            && is_finite_bits(upd.p11) && ge_zero_bits(upd.p11),
{
    crate::kalman::lemma_clamp_wellformed(
        ieee_add(ieee_add(ieee_add(st.p00, ieee_mul(F64_TWO, st.p01)), st.p11), q_level),
    );
    match spec_clamp(
        ieee_add(ieee_add(ieee_add(st.p00, ieee_mul(F64_TWO, st.p01)), st.p11), q_level),
    ) {
        Err(_) => {},
        Ok(p00_pred) => {
            let p01_pred = ieee_add(st.p01, st.p11);
            crate::kalman::lemma_clamp_wellformed(ieee_add(st.p11, q_trend));
            match spec_clamp(ieee_add(st.p11, q_trend)) {
                Err(_) => {},
                Ok(p11_pred) => {
                    let s = ieee_add(p00_pred, r);
                    let k0 = ieee_div(p00_pred, s);
                    let k1 = ieee_div(p01_pred, s);
                    let omk0 = ieee_sub(F64_ONE, k0);
                    let a00 = ieee_mul(omk0, p00_pred);
                    let a10 = ieee_add(ieee_mul(negate_bits(k1), p00_pred), p01_pred);
                    let a11 = ieee_add(ieee_mul(negate_bits(k1), p01_pred), p11_pred);
                    let p00_new = ieee_add(ieee_mul(a00, omk0), ieee_mul(ieee_mul(k0, k0), r));
                    let p11_new = ieee_add(
                        ieee_add(ieee_mul(a10, negate_bits(k1)), a11),
                        ieee_mul(ieee_mul(k1, k1), r),
                    );
                    crate::kalman::lemma_clamp_wellformed(p00_new);
                    crate::kalman::lemma_clamp_wellformed(p11_new);
                },
            }
        },
    }
}

proof fn lemma_llt_state_wellformed(
    y: Seq<u64>,
    r: u64,
    q_level: u64,
    q_trend: u64,
    init: TrendState,
    t: int,
)
    requires
        1 <= t,
    ensures
        llt_state(y, r, q_level, q_trend, init, t) matches Ok(st) ==> is_finite_bits(st.level)
            && is_finite_bits(st.trend) && is_finite_bits(st.p00) && ge_zero_bits(st.p00)
            && is_finite_bits(st.p11) && ge_zero_bits(st.p11),
{
    match llt_state(y, r, q_level, q_trend, init, t - 1) {
        Err(_) => {},
        Ok(prev) => {
            lemma_llt_step_wellformed(prev, y[t - 1], r, q_level, q_trend);
        },
    }
}

/// Well-formedness of everything a successful trend call writes: each
/// filtered level and trend is finite and each filtered variance is finite
/// and non-negative, whatever the (accepted) inputs were.
pub proof fn lemma_trend_outputs_wellformed(
    y: Seq<u64>,
    r: u64,
    q_level: u64,
    q_trend: u64,
    init: TrendState,
    level0: Seq<u64>,
    trend0: Seq<u64>,
    var_level0: Seq<u64>,
    var_trend0: Seq<u64>,
    i: int,
)
    requires
        0 <= i < y.len(),
        spec_trend_into(
            y,
            r,
            q_level,
            q_trend,
            init,
            level0,
            trend0,
            var_level0,
            var_trend0,
        ).res is Ok,
    ensures
        ({
            let o = spec_trend_into(
                y,
                r,
                q_level,
                q_trend,
                init,
                level0,
                trend0,
                var_level0,
                var_trend0,
            );
            &&& is_finite_bits(o.levels[i])
            &&& is_finite_bits(o.trends[i])
            &&& is_finite_bits(o.var_levels[i])
            &&& ge_zero_bits(o.var_levels[i])
            &&& is_finite_bits(o.var_trends[i])
            &&& ge_zero_bits(o.var_trends[i])
        }),
{
    if llt_state(y, r, q_level, q_trend, init, i + 1) is Err {
        lemma_llt_state_stays_err(y, r, q_level, q_trend, init, i + 1, y.len() as int);
    }
    lemma_llt_state_wellformed(y, r, q_level, q_trend, init, i + 1);
}

} // verus!
