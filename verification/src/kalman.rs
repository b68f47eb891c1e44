use vstd::prelude::*;

use crate::MathResult;
use crate::arith::{fadd, fdiv, fmul, fsub, ieee_add, ieee_div, ieee_mul, ieee_sub};
use crate::errors::MathError;
use crate::fbits::{
    F64_ONE, F64_POS_ZERO, check_finite, check_gt_zero, check_lt_zero, check_le_zero,
    check_ge_zero, check_within_neg_tol, ge_zero_bits, gt_zero_bits, is_finite_bits,
    le_zero_bits, lt_zero_bits, within_neg_tol,
};

verus! {

// ---------------------------------------------------------------------------
// The failure taxonomy at the specification level.
// ---------------------------------------------------------------------------

/// The mathematical image of a `MathError`: the same five failure kinds the
/// filters raise, with every message as a character sequence.
pub ghost enum FailKind {
    InsufficientData { required: int, actual: int },
    InvalidParameter { parameter: Seq<char>, value: u64, constraint: Seq<char> },
    InvalidData { detail: Seq<char> },
    NumericalError { reason: Seq<char>, operation: Seq<char> },
    NumericalInstability { detail: Seq<char> },
}

/// The runtime error `e` carries exactly the failure `k`.
pub open spec fn err_matches(e: MathError, k: FailKind) -> bool {
    match k {
        FailKind::InsufficientData { required, actual } => (
            e matches MathError::InsufficientDataAlgo { required: r2, actual: a2 }
                && r2 as int == required && a2 as int == actual
        ),
        FailKind::InvalidParameter { parameter, value, constraint } => (
            e matches MathError::InvalidParameter { parameter: p2, value: v2, constraint: c2 }
                && p2@ == parameter && v2 == value && c2@ == constraint
        ),
        FailKind::InvalidData { detail } => (
            e matches MathError::InvalidData(d2) && d2@ == detail
        ),
        FailKind::NumericalError { reason, operation } => (
            e matches MathError::NumericalError { reason: r2, operation: op2 }
                && r2@ == reason && (op2 matches Some(o2) && o2@ == operation)
        ),
        FailKind::NumericalInstability { detail } => (
            e matches MathError::NumericalInstability(d2) && d2@ == detail
        ),
    }
}

/// The runtime result `r` carries exactly the outcome `s`.
pub open spec fn result_matches<T>(r: Result<T, MathError>, s: Result<T, FailKind>) -> bool {
    match r {
        Ok(v) => s matches Ok(w) && v == w,
        Err(e) => s matches Err(k) && err_matches(e, k),
    }
}

/// A covariance fell below zero by more than the round-off tolerance.
pub open spec fn fail_cov_negative() -> FailKind {
    FailKind::NumericalInstability { detail: "kalman: covariance became negative"@ }
}

/// The innovation variance was not finite and strictly positive.
pub open spec fn fail_innov_var() -> FailKind {
    FailKind::NumericalInstability { detail: "kalman: invalid innovation variance"@ }
}

/// The observation sequence was empty.
pub open spec fn fail_empty() -> FailKind {
    FailKind::InsufficientData { required: 1, actual: 0 }
}

/// An observation was not finite.
pub open spec fn fail_obs_not_finite() -> FailKind {
    FailKind::InvalidData { detail: "kalman: all observations must be finite"@ }
}

/// A scalar parameter broke its domain constraint.
pub open spec fn fail_param(parameter: Seq<char>, value: u64, constraint: Seq<char>) -> FailKind {
    FailKind::InvalidParameter { parameter, value, constraint }
}

// ---------------------------------------------------------------------------
// The numerical stability guard.
// ---------------------------------------------------------------------------

/// The guarded variance clamp: a finite non-negative candidate passes
/// through, a finite negative one within 1e-15 of zero snaps to +0.0, and
/// anything else is numerical instability.
pub open spec fn spec_clamp(x: u64) -> Result<u64, FailKind> {
    if is_finite_bits(x) && ge_zero_bits(x) {
        Ok(x)
    } else if is_finite_bits(x) && lt_zero_bits(x) && within_neg_tol(x) {
        Ok(F64_POS_ZERO)
    } else {
        Err(fail_cov_negative())
    }
}

pub(crate) fn clamp_small_negative(x: u64) -> (r: MathResult<u64>)
    ensures
        result_matches(r, spec_clamp(x)),
{
    if check_finite(x) && check_ge_zero(x) {
        Ok(x)
    } else if check_finite(x) && check_lt_zero(x) && check_within_neg_tol(x) {
        Ok(F64_POS_ZERO)
    } else {
        Err(MathError::NumericalInstability(String::from_str("kalman: covariance became negative")))
    }
}

/// The parameter domain check: `value` must be finite, and non-negative or
/// strictly positive according to `allow_zero`.
pub open spec fn spec_validate_variance(name: Seq<char>, v: u64, allow_zero: bool) -> Result<
    (),
    FailKind,
> {
    if !is_finite_bits(v) {
        Err(fail_param(name, v, "must be finite"@))
    } else if allow_zero && lt_zero_bits(v) {
        Err(fail_param(name, v, "must be >= 0"@))
    } else if !allow_zero && le_zero_bits(v) {
        Err(fail_param(name, v, "must be > 0"@))
    } else {
        Ok(())
    }
}

pub(crate) fn validate_variance(name: &str, v: u64, allow_zero: bool) -> (r: MathResult<()>)
    ensures
        result_matches(r, spec_validate_variance(name@, v, allow_zero)),
{
    if !check_finite(v) {
        return Err(MathError::InvalidParameter {
            parameter: String::from_str(name),
            value: v,
            constraint: String::from_str("must be finite"),
        });
    }
    if allow_zero {
        if check_lt_zero(v) {
            return Err(MathError::InvalidParameter {
                parameter: String::from_str(name),
                value: v,
                constraint: String::from_str("must be >= 0"),
            });
        }
    } else if check_le_zero(v) {
        return Err(MathError::InvalidParameter {
            parameter: String::from_str(name),
            value: v,
            constraint: String::from_str("must be > 0"),
        });
    }
    Ok(())
}

// ---------------------------------------------------------------------------
// The validation gate.
// ---------------------------------------------------------------------------

/// Every observation is finite.
pub open spec fn all_finite(y: Seq<u64>) -> bool {
    forall|i: int| 0 <= i < y.len() ==> is_finite_bits(y[i])
}

/// The shape checks of the local-level filter: a non-empty, all-finite
/// observation sequence and two output buffers of matching length.
pub open spec fn spec_validate_series(y: Seq<u64>, out_mean_len: int, out_var_len: int) -> Result<
    (),
    FailKind,
> {
    if y.len() == 0 {
        Err(fail_empty())
    } else if !all_finite(y) {
        Err(fail_obs_not_finite())
    } else if out_mean_len != y.len() || out_var_len != y.len() {
        Err(fail_param("out"@, F64_POS_ZERO, "out_mean and out_var must match y length"@))
    } else {
        Ok(())
    }
}

fn validate_series(y: &Vec<u64>, out_mean_len: usize, out_var_len: usize) -> (r: MathResult<()>)
    ensures
        result_matches(r, spec_validate_series(y@, out_mean_len as int, out_var_len as int)),
{
    if y.len() == 0 {
        return Err(MathError::InsufficientDataAlgo { required: 1, actual: 0 });
    }
    let n = y.len();
    let mut i: usize = 0;
    while i < n
        invariant
            n == y@.len(),
            i <= n,
            forall|j: int| 0 <= j < i ==> is_finite_bits(y@[j]),
        decreases n - i,
    {
        if !check_finite(y[i]) {
            return Err(MathError::InvalidData(
                String::from_str("kalman: all observations must be finite"),
            ));
        }
        i += 1;
    }
    if out_mean_len != n || out_var_len != n {
        return Err(MathError::InvalidParameter {
            parameter: String::from_str("out"),
            value: F64_POS_ZERO,
            constraint: String::from_str("out_mean and out_var must match y length"),
        });
    }
    Ok(())
}

/// The whole validation gate of the local-level filter, in the order the
/// checks run: series shape, initial mean, observation noise `r` (strictly
/// positive), process noise `q` and initial variance (non-negative).
pub open spec fn spec_validate_ll(
    y: Seq<u64>,
    r: u64,
    q: u64,
    init_mean: u64,
    init_var: u64,
    out_mean_len: int,
    out_var_len: int,
) -> Result<(), FailKind> {
    match spec_validate_series(y, out_mean_len, out_var_len) {
        Err(k) => Err(k),
        Ok(()) => if !is_finite_bits(init_mean) {
            Err(fail_param("init_mean"@, init_mean, "must be finite"@))
        } else {
            match spec_validate_variance("r"@, r, false) {
                Err(k) => Err(k),
                Ok(()) => match spec_validate_variance("q"@, q, true) {
                    Err(k) => Err(k),
                    Ok(()) => spec_validate_variance("init_var"@, init_var, true),
                },
            }
        },
    }
}

// ---------------------------------------------------------------------------
// The local-level recursion.
// ---------------------------------------------------------------------------

/// One predict/update step of the local-level filter on the prior mean `x`
/// and prior variance `p`: predict `p + q` under the clamp, form the
/// innovation variance `s = p_pred + r` (finite and strictly positive), the
/// gain `k = p_pred / s`, correct the mean by `k * (y_t - x)` (finite), and
/// close with the Joseph-form variance `(1-k)^2 * p_pred + k^2 * r` under
/// the clamp.
pub open spec fn ll_step(x: u64, p: u64, y_t: u64, r: u64, q: u64) -> Result<(u64, u64), FailKind> {
    match spec_clamp(ieee_add(p, q)) {
        Err(k) => Err(k),
        Ok(p_pred) => {
            let s = ieee_add(p_pred, r);
            if !(is_finite_bits(s) && gt_zero_bits(s)) {
                Err(fail_innov_var())
            } else {
                let gain = ieee_div(p_pred, s);
                let innov = ieee_sub(y_t, x);
                let x_upd = ieee_add(x, ieee_mul(gain, innov));
                if !is_finite_bits(x_upd) {
                    Err(FailKind::NumericalError {
                        reason: "kalman: non-finite updated mean"@,
                        operation: "kalman_local_level_filter_into"@,
                    })
                } else {
                    let omk = ieee_sub(F64_ONE, gain);
                    let p_upd = ieee_add(
                        ieee_mul(ieee_mul(omk, omk), p_pred),
                        ieee_mul(ieee_mul(gain, gain), r),
                    );
                    match spec_clamp(p_upd) {
                        Err(k) => Err(k),
                        Ok(p_new) => Ok((x_upd, p_new)),
                    }
                }
            }
        },
    }
}

/// The filter state after the first `t` observations: the initial state for
/// `t == 0`, otherwise the step applied to the state after `t - 1`
/// observations; the first failing step's error, once reached, is final.
pub open spec fn ll_state(
    y: Seq<u64>,
    r: u64,
    q: u64,
    init_mean: u64,
    init_var: u64,
    t: int,
) -> Result<(u64, u64), FailKind>
    decreases t,
{
    if t <= 0 {
        Ok((init_mean, init_var))
    } else {
        match ll_state(y, r, q, init_mean, init_var, t - 1) {
            Err(k) => Err(k),
            Ok(st) => ll_step(st.0, st.1, y[t - 1], r, q),
        }
    }
}

/// What one local-level filtering call leaves behind: its result and the
/// final contents of the two output buffers.
pub ghost struct LLOutcome {
    pub res: Result<(), FailKind>,
    pub means: Seq<u64>,
    pub vars: Seq<u64>,
}

/// The full effect of the in-place local-level filter on buffers that held
/// `mean0` and `var0` at entry: a validation failure leaves them unchanged,
/// and otherwise entry `t` holds the posterior after observation `t`
/// wherever step `t` was reached, the entry at and after a failing step
/// keeping its old value.
pub open spec fn spec_local_level_into(
    y: Seq<u64>,
    r: u64,
    q: u64,
    init_mean: u64,
    init_var: u64,
    mean0: Seq<u64>,
    var0: Seq<u64>,
) -> LLOutcome {
    match spec_validate_ll(y, r, q, init_mean, init_var, mean0.len() as int, var0.len() as int) {
        Err(k) => LLOutcome { res: Err(k), means: mean0, vars: var0 },
        Ok(()) => LLOutcome {
            res: match ll_state(y, r, q, init_mean, init_var, y.len() as int) {
                Ok(_) => Ok(()),
                Err(k) => Err(k),
            },
            means: Seq::new(
                mean0.len(),
                |i: int| match ll_state(y, r, q, init_mean, init_var, i + 1) {
                    Ok(st) => st.0,
                    Err(_) => mean0[i],
                },
            ),
            vars: Seq::new(
                var0.len(),
                |i: int| match ll_state(y, r, q, init_mean, init_var, i + 1) {
                    Ok(st) => st.1,
                    Err(_) => var0[i],
                },
            ),
        },
    }
}

/// Once a step of the local-level recursion has failed, every later state
/// carries that same failure.
pub proof fn lemma_ll_state_stays_err(
    y: Seq<u64>,
    r: u64,
    q: u64,
    init_mean: u64,
    init_var: u64,
    t: int,
    u: int,
)
    requires
        0 <= t <= u,
        ll_state(y, r, q, init_mean, init_var, t) is Err,
    ensures
        ll_state(y, r, q, init_mean, init_var, u) == ll_state(y, r, q, init_mean, init_var, t),
    decreases u - t,
{
    if u > t {
        lemma_ll_state_stays_err(y, r, q, init_mean, init_var, t, u - 1);
    }
}

proof fn lemma_ll_state_err_range(y: Seq<u64>, r: u64, q: u64, init_mean: u64, init_var: u64, t: int)
    requires
        0 <= t,
        ll_state(y, r, q, init_mean, init_var, t) is Err,
    ensures
        forall|u: int|
            t <= u ==> ll_state(y, r, q, init_mean, init_var, u) == ll_state(
                y,
                r,
                q,
                init_mean,
                init_var,
                t,
            ),
{
    assert forall|u: int|
        t <= u implies ll_state(y, r, q, init_mean, init_var, u) == ll_state(
        y,
        r,
        q,
        init_mean,
        init_var,
        t,
    ) by {
        lemma_ll_state_stays_err(y, r, q, init_mean, init_var, t, u);
    }
}

/// In-place local-level (random walk plus noise) Kalman filter over the
/// observation patterns in `y`. On success `out_mean[t]` and `out_var[t]`
/// hold the filtered posterior mean and variance after observation `t`; on
/// a mid-recursion failure the entries of the completed steps remain
/// written. The whole behaviour is `spec_local_level_into`.
pub fn kalman_local_level_filter_into(
    y: &Vec<u64>,
    r: u64,
    q: u64,
    init_mean: u64,
    init_var: u64,
    out_mean: &mut Vec<u64>,
    out_var: &mut Vec<u64>,
) -> (res: MathResult<()>)
    ensures
        ({
            let o = spec_local_level_into(
                y@,
                r,
                q,
                init_mean,
                init_var,
                old(out_mean)@,
                old(out_var)@,
            );
            &&& final(out_mean)@ == o.means
            &&& final(out_var)@ == o.vars
            &&& result_matches(res, o.res)
        }),
{
    match validate_series(y, out_mean.len(), out_var.len()) {
        Err(e) => {
            return Err(e);
        },
        Ok(()) => {},
    }
    if !check_finite(init_mean) {
        return Err(MathError::InvalidParameter {
            parameter: String::from_str("init_mean"),
            value: init_mean,
            constraint: String::from_str("must be finite"),
        });
    }
    match validate_variance("r", r, false) {
        Err(e) => {
            return Err(e);
        },
        Ok(()) => {},
    }
    match validate_variance("q", q, true) {
        Err(e) => {
            return Err(e);
        },
        Ok(()) => {},
    }
    match validate_variance("init_var", init_var, true) {
        Err(e) => {
            return Err(e);
        },
        Ok(()) => {},
    }

    let ghost o = spec_local_level_into(
        y@,
        r,
        q,
        init_mean,
        init_var,
        old(out_mean)@,
        old(out_var)@,
    );
    let mut x = init_mean;
    let mut p = init_var;
    let n = y.len();
    let mut t: usize = 0;
    while t < n
        invariant
            n == y@.len(),
            t <= n,
            spec_validate_ll(
                y@,
                r,
                q,
                init_mean,
                init_var,
                old(out_mean)@.len() as int,
                old(out_var)@.len() as int,
            ) is Ok,
            o == spec_local_level_into(
                y@,
                r,
                q,
                init_mean,
                init_var,
                old(out_mean)@,
                old(out_var)@,
            ),
            out_mean@.len() == old(out_mean)@.len() == n,
            out_var@.len() == old(out_var)@.len() == n,
            ll_state(y@, r, q, init_mean, init_var, t as int) == Ok::<(u64, u64), FailKind>(
                (x, p),
            ),
            forall|i: int|
                0 <= i < t ==> ((#[trigger] ll_state(y@, r, q, init_mean, init_var, i + 1))
                    matches Ok(st) && out_mean@[i] == st.0 && out_var@[i] == st.1),
            forall|i: int|
                t <= i < n ==> out_mean@[i] == old(out_mean)@[i] && out_var@[i] == old(
                    out_var,
                )@[i],
        decreases n - t,
    {
        let ghost x0 = x;
        let ghost p0 = p;
        let obs = y[t];

        // Predict.
        let pq = fadd(p, q);
        let p_pred = match clamp_small_negative(pq) {
            Ok(v) => v,
            Err(e) => {
                proof {
                    lemma_ll_state_err_range(y@, r, q, init_mean, init_var, t as int + 1);
                    assert(out_mean@ =~= o.means);
                    assert(out_var@ =~= o.vars);
                }
                return Err(e);
            },
        };

        // Update.
        let s = fadd(p_pred, r);
        if !(check_finite(s) && check_gt_zero(s)) {
            proof {
                lemma_ll_state_err_range(y@, r, q, init_mean, init_var, t as int + 1);
                assert(out_mean@ =~= o.means);
                assert(out_var@ =~= o.vars);
            }
            return Err(MathError::NumericalInstability(
                String::from_str("kalman: invalid innovation variance"),
            ));
        }
        let gain = fdiv(p_pred, s);
        let innov = fsub(obs, x);
        x = fadd(x, fmul(gain, innov));
        if !check_finite(x) {
            proof {
                lemma_ll_state_err_range(y@, r, q, init_mean, init_var, t as int + 1);
                assert(out_mean@ =~= o.means);
                assert(out_var@ =~= o.vars);
            }
            return Err(MathError::NumericalError {
                reason: String::from_str("kalman: non-finite updated mean"),
                operation: Some(String::from_str("kalman_local_level_filter_into")),
            });
        }

        // Joseph form (1D): P = (1-K)^2 P_pred + K^2 R
        let one_minus_k = fsub(F64_ONE, gain);
        let p_upd = fadd(fmul(fmul(one_minus_k, one_minus_k), p_pred), fmul(fmul(gain, gain), r));
        p = match clamp_small_negative(p_upd) {
            Ok(v) => v,
            Err(e) => {
                proof {
                    lemma_ll_state_err_range(y@, r, q, init_mean, init_var, t as int + 1);
                    assert(out_mean@ =~= o.means);
                    assert(out_var@ =~= o.vars);
                }
                return Err(e);
            },
        };

        out_mean.set(t, x);
        out_var.set(t, p);
        proof {
            assert(ll_state(y@, r, q, init_mean, init_var, t as int + 1)
                == Ok::<(u64, u64), FailKind>((x, p)));
        }
        t += 1;
    }
    proof {
        assert(out_mean@ =~= o.means);
        assert(out_var@ =~= o.vars);
    }
    Ok(())
}

/// A sequence of `n` copies of the +0.0 pattern: the initial contents of
/// the buffers the allocating entry points create.
pub open spec fn zero_seq(n: nat) -> Seq<u64> {
    Seq::new(n, |i: int| F64_POS_ZERO)
}

pub(crate) fn zero_vec(n: usize) -> (v: Vec<u64>)
    ensures
        v@ == zero_seq(n as nat),
{
    let mut v: Vec<u64> = Vec::new();
    let mut i: usize = 0;
    while i < n
        invariant
            i <= n,
            v@.len() == i,
            forall|j: int| 0 <= j < i ==> v@[j] == F64_POS_ZERO,
        decreases n - i,
    {
        v.push(F64_POS_ZERO);
        i += 1;
    }
    proof {
        assert(v@ =~= zero_seq(n as nat));
    }
    v
}

/// Allocating local-level filter: runs `kalman_local_level_filter_into`
/// over two fresh zero-filled buffers and returns them on success.
pub fn kalman_local_level_filter(
    y: &Vec<u64>,
    r: u64,
    q: u64,
    init_mean: u64,
    init_var: u64,
) -> (res: MathResult<(Vec<u64>, Vec<u64>)>)
    ensures
        ({
            let o = spec_local_level_into(
                y@,
                r,
                q,
                init_mean,
                init_var,
                zero_seq(y@.len()),
                zero_seq(y@.len()),
            );
            match res {
                Ok(pair) => o.res is Ok && pair.0@ == o.means && pair.1@ == o.vars,
                Err(e) => o.res matches Err(k) && err_matches(e, k),
            }
        }),
{
    let mut mean = zero_vec(y.len());
    let mut var = zero_vec(y.len());
    match kalman_local_level_filter_into(y, r, q, init_mean, init_var, &mut mean, &mut var) {
        Ok(()) => Ok((mean, var)),
        Err(e) => Err(e),
    }
}

/// Determinism of the local-level filter: the outcome — result and both
/// output sequences — is a function of the observations, the parameters and
/// the buffers' initial contents alone, so two calls on identical inputs
/// leave bit-identical outputs.
pub proof fn lemma_local_level_deterministic(
    y: Seq<u64>,
    r: u64,
    q: u64,
    init_mean: u64,
    init_var: u64,
    mean0: Seq<u64>,
    var0: Seq<u64>,
    o1: LLOutcome,
    o2: LLOutcome,
)
    requires
        o1 == spec_local_level_into(y, r, q, init_mean, init_var, mean0, var0),
        o2 == spec_local_level_into(y, r, q, init_mean, init_var, mean0, var0),
    ensures
        o1 == o2,
        o1.means == o2.means,
        o1.vars == o2.vars,
        o1.res == o2.res,
{
}


/// The variance clamp only ever accepts a finite, non-negative pattern.
pub proof fn lemma_clamp_wellformed(x: u64)
    ensures
        spec_clamp(x) matches Ok(v) ==> is_finite_bits(v) && ge_zero_bits(v),
{
    assert(0u64 & 0x7FF0_0000_0000_0000u64 == 0u64 && 0u64 & 0x8000_0000_0000_0000u64 == 0u64)
        by (bit_vector);
}

/// Every state the local-level recursion accepts out of a step has a finite
/// mean and a finite, non-negative variance.
proof fn lemma_ll_step_wellformed(x: u64, p: u64, y_t: u64, r: u64, q: u64)
    ensures
        ll_step(x, p, y_t, r, q) matches Ok(st) ==> is_finite_bits(st.0) && is_finite_bits(st.1)
            && ge_zero_bits(st.1),
{
    lemma_clamp_wellformed(ieee_add(p, q));
    match spec_clamp(ieee_add(p, q)) {
        Err(_) => {},
        Ok(p_pred) => {
            let s = ieee_add(p_pred, r);
            let gain = ieee_div(p_pred, s);
            let omk = ieee_sub(F64_ONE, gain);
            let p_upd = ieee_add(
                ieee_mul(ieee_mul(omk, omk), p_pred),
                ieee_mul(ieee_mul(gain, gain), r),
            );
            lemma_clamp_wellformed(p_upd);
        },
    }
}

proof fn lemma_ll_state_wellformed(
    y: Seq<u64>,
    r: u64,
    q: u64,
    init_mean: u64,
    init_var: u64,
    t: int,
)
    requires
        1 <= t,
    ensures
        ll_state(y, r, q, init_mean, init_var, t) matches Ok(st) ==> is_finite_bits(st.0)
            && is_finite_bits(st.1) && ge_zero_bits(st.1),
{
    match ll_state(y, r, q, init_mean, init_var, t - 1) {
        Err(_) => {},
        Ok(prev) => {
            lemma_ll_step_wellformed(prev.0, prev.1, y[t - 1], r, q);
        },
    }
}

/// Well-formedness of everything a successful local-level call writes: each
/// filtered mean is finite and each filtered variance is finite and
/// non-negative, whatever the (accepted) inputs were.
pub proof fn lemma_local_level_outputs_wellformed(
    y: Seq<u64>,
    r: u64,
    q: u64,
    init_mean: u64,
    init_var: u64,
    mean0: Seq<u64>,
    var0: Seq<u64>,
    i: int,
)
    requires
        0 <= i < y.len(),
        spec_local_level_into(y, r, q, init_mean, init_var, mean0, var0).res is Ok,
    ensures
        ({
            let o = spec_local_level_into(y, r, q, init_mean, init_var, mean0, var0);
            &&& is_finite_bits(o.means[i])
            &&& is_finite_bits(o.vars[i])
            &&& ge_zero_bits(o.vars[i])
        }),
{
    if ll_state(y, r, q, init_mean, init_var, i + 1) is Err {
        lemma_ll_state_stays_err(y, r, q, init_mean, init_var, i + 1, y.len() as int);
    }
    lemma_ll_state_wellformed(y, r, q, init_mean, init_var, i + 1);
}

} // verus!
