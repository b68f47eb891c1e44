use kalman::{
    kalman_local_level_filter, kalman_local_level_filter_into, kalman_local_linear_trend_filter,
    kalman_local_linear_trend_filter_into, MathError,
};

fn bits_of(values: &[f64]) -> Vec<u64> {
    values.iter().map(|v| v.to_bits()).collect()
}

fn zeros(n: usize) -> Vec<u64> {
    vec![0u64; n]
}

fn gen_seeded(n: usize, seed: u64) -> Vec<f64> {
    let mut x = Vec::with_capacity(n);
    let mut s = seed;
    for _ in 0..n {
        s = s
            .wrapping_mul(6364136223846793005)
            .wrapping_add(1442695040888963407);
        let u = ((s >> 11) as f64) * (1.0 / ((1u64 << 53) as f64));
        x.push(2.0 * u - 1.0);
    }
    x
}

#[test]
fn test_kalman_local_level_failure_contracts() {
    let y = bits_of(&[1.0, 2.0, 3.0]);
    let mut m = zeros(3);
    let mut v = zeros(3);

    assert!(kalman_local_level_filter_into(
        &y,
        0.0f64.to_bits(),
        0.0f64.to_bits(),
        0.0f64.to_bits(),
        1.0f64.to_bits(),
        &mut m,
        &mut v
    )
    .is_err());
    assert!(kalman_local_level_filter_into(
        &y,
        1.0f64.to_bits(),
        (-1.0f64).to_bits(),
        0.0f64.to_bits(),
        1.0f64.to_bits(),
        &mut m,
        &mut v
    )
    .is_err());
    assert!(kalman_local_level_filter_into(
        &y,
        1.0f64.to_bits(),
        0.0f64.to_bits(),
        f64::NAN.to_bits(),
        1.0f64.to_bits(),
        &mut m,
        &mut v
    )
    .is_err());
    assert!(kalman_local_level_filter_into(
        &y,
        1.0f64.to_bits(),
        0.0f64.to_bits(),
        0.0f64.to_bits(),
        (-1.0f64).to_bits(),
        &mut m,
        &mut v
    )
    .is_err());

    let y_bad = bits_of(&[1.0, f64::NAN, 3.0]);
    assert!(kalman_local_level_filter_into(
        &y_bad,
        1.0f64.to_bits(),
        0.0f64.to_bits(),
        0.0f64.to_bits(),
        1.0f64.to_bits(),
        &mut m,
        &mut v
    )
    .is_err());

    let mut short = zeros(2);
    assert!(kalman_local_level_filter_into(
        &y,
        1.0f64.to_bits(),
        0.0f64.to_bits(),
        0.0f64.to_bits(),
        1.0f64.to_bits(),
        &mut short,
        &mut v
    )
    .is_err());
}

#[test]
fn test_kalman_local_level_constant_signal_converges() -> kalman::MathResult<()> {
    let n = 500usize;
    let y = bits_of(&vec![7.0f64; n]);
    let r = 1.0f64.to_bits();
    let q = 0.0f64.to_bits();
    let mut mean = zeros(n);
    let mut var = zeros(n);
    kalman_local_level_filter_into(&y, r, q, 0.0f64.to_bits(), 100.0f64.to_bits(), &mut mean, &mut var)?;

    // Converge near 7.
    let last = f64::from_bits(mean[n - 1]);
    assert!((last - 7.0).abs() <= 2e-4, "last={last}");

    // Variance should decrease and stay non-negative.
    for i in 1..n {
        let vi = f64::from_bits(var[i]);
        let prev = f64::from_bits(var[i - 1]);
        assert!(vi.is_finite() && vi >= 0.0);
        assert!(vi <= prev + 1e-12);
    }
    Ok(())
}

#[test]
fn test_kalman_local_level_determinism() -> kalman::MathResult<()> {
    let n = 1000usize;
    let y = bits_of(&gen_seeded(n, 11));
    let r = 0.5f64.to_bits();
    let q = 0.1f64.to_bits();

    let mut m1 = zeros(n);
    let mut v1 = zeros(n);
    let mut m2 = zeros(n);
    let mut v2 = zeros(n);

    kalman_local_level_filter_into(&y, r, q, 0.0f64.to_bits(), 1.0f64.to_bits(), &mut m1, &mut v1)?;
    kalman_local_level_filter_into(&y, r, q, 0.0f64.to_bits(), 1.0f64.to_bits(), &mut m2, &mut v2)?;
    assert_eq!(m1, m2);
    assert_eq!(v1, v2);
    Ok(())
}

#[test]
fn test_kalman_local_level_numerical_stability_large_offset() -> kalman::MathResult<()> {
    let n = 1000usize;
    let mut y = Vec::with_capacity(n);
    for i in 0..n {
        y.push(1e12 + (i as f64) * 1e-3);
    }
    let y = bits_of(&y);
    let mut mean = zeros(n);
    let mut var = zeros(n);
    kalman_local_level_filter_into(
        &y,
        1.0f64.to_bits(),
        0.01f64.to_bits(),
        1e12f64.to_bits(),
        1.0f64.to_bits(),
        &mut mean,
        &mut var,
    )?;
    assert!(mean.iter().all(|v| f64::from_bits(*v).is_finite()));
    assert!(var
        .iter()
        .all(|v| f64::from_bits(*v).is_finite() && f64::from_bits(*v) >= 0.0));
    Ok(())
}

#[test]
fn test_kalman_local_linear_trend_tracks_perfect_line_low_noise() -> kalman::MathResult<()> {
    let n = 300usize;
    let intercept = 10.0;
    let slope = 0.25;
    let mut y = Vec::with_capacity(n);
    for i in 0..n {
        y.push(intercept + slope * (i as f64));
    }
    let yb = bits_of(&y);

    let r = 1e-9f64.to_bits();
    let q_level = 0.0f64.to_bits();
    let q_trend = 0.0f64.to_bits();

    let mut level = zeros(n);
    let mut trend = zeros(n);
    let mut var_level = zeros(n);
    let mut var_trend = zeros(n);

    kalman_local_linear_trend_filter_into(
        &yb,
        r,
        q_level,
        q_trend,
        0.0f64.to_bits(),
        0.0f64.to_bits(),
        1e6f64.to_bits(),
        1e6f64.to_bits(),
        &mut level,
        &mut trend,
        &mut var_level,
        &mut var_trend,
    )?;

    assert!((f64::from_bits(level[n - 1]) - y[n - 1]).abs() <= 1e-6);
    assert!((f64::from_bits(trend[n - 1]) - slope).abs() <= 1e-6);
    assert!(f64::from_bits(var_level[n - 1]) >= 0.0 && f64::from_bits(var_trend[n - 1]) >= 0.0);
    Ok(())
}

#[test]
fn test_kalman_local_linear_trend_failure_contracts() {
    let y = bits_of(&[1.0, 2.0, 3.0]);
    let mut level = zeros(3);
    let mut trend = zeros(3);
    let mut vl = zeros(3);
    let mut vt = zeros(3);

    let err = kalman_local_linear_trend_filter_into(
        &y,
        0.0f64.to_bits(),
        0.0f64.to_bits(),
        0.0f64.to_bits(),
        0.0f64.to_bits(),
        0.0f64.to_bits(),
        1.0f64.to_bits(),
        1.0f64.to_bits(),
        &mut level,
        &mut trend,
        &mut vl,
        &mut vt,
    )
    .unwrap_err();
    assert!(matches!(err, MathError::InvalidParameter { .. }));

    let y_bad = bits_of(&[1.0, f64::NAN, 3.0]);
    let err = kalman_local_linear_trend_filter_into(
        &y_bad,
        1.0f64.to_bits(),
        0.0f64.to_bits(),
        0.0f64.to_bits(),
        0.0f64.to_bits(),
        0.0f64.to_bits(),
        1.0f64.to_bits(),
        1.0f64.to_bits(),
        &mut level,
        &mut trend,
        &mut vl,
        &mut vt,
    )
    .unwrap_err();
    assert!(matches!(err, MathError::InvalidData(_)));
}

#[test]
fn test_kalman_no_panic_on_error_paths() {
    let y = bits_of(&[1.0, 2.0, 3.0]);
    let mut m = zeros(3);
    let mut v = zeros(3);
    let r = kalman_local_level_filter_into(
        &y,
        0.0f64.to_bits(),
        0.0f64.to_bits(),
        0.0f64.to_bits(),
        1.0f64.to_bits(),
        &mut m,
        &mut v,
    );
    assert!(r.is_err());
}

#[test]
fn test_local_level_single_step_exact_values() {
    // One observation; every intermediate is computed here in hardware
    // floating point and compared bit for bit against the filter's output.
    let y = bits_of(&[5.0]);
    let mut m = zeros(1);
    let mut v = zeros(1);
    let res = kalman_local_level_filter_into(
        &y,
        1.0f64.to_bits(),
        0.0f64.to_bits(),
        0.0f64.to_bits(),
        1.0f64.to_bits(),
        &mut m,
        &mut v,
    );
    assert!(res.is_ok());

    let p_pred = 1.0f64 + 0.0;
    let s = p_pred + 1.0;
    let k = p_pred / s;
    let innov = 5.0f64 - 0.0;
    let x = 0.0 + k * innov;
    let one_minus_k = 1.0 - k;
    let p = (one_minus_k * one_minus_k) * p_pred + (k * k) * 1.0;
    assert_eq!(m[0], x.to_bits());
    assert_eq!(v[0], p.to_bits());
    assert_eq!(f64::from_bits(m[0]), 2.5);
    assert_eq!(f64::from_bits(v[0]), 0.5);
}

#[test]
fn test_trend_single_step_exact_values() {
    // One observation of the trend filter, replayed here in hardware
    // floating point and compared bit for bit.
    let y = bits_of(&[3.0]);
    let mut level = zeros(1);
    let mut trend = zeros(1);
    let mut vl = zeros(1);
    let mut vt = zeros(1);
    let res = kalman_local_linear_trend_filter_into(
        &y,
        1.0f64.to_bits(),
        0.0f64.to_bits(),
        0.0f64.to_bits(),
        0.0f64.to_bits(),
        0.0f64.to_bits(),
        1.0f64.to_bits(),
        1.0f64.to_bits(),
        &mut level,
        &mut trend,
        &mut vl,
        &mut vt,
    );
    assert!(res.is_ok());

    let (p00, p01, p11) = (1.0f64, 0.0f64, 1.0f64);
    let level_pred = 0.0f64 + 0.0;
    let trend_pred = 0.0f64;
    let p00_pred = p00 + 2.0 * p01 + p11 + 0.0;
    let p01_pred = p01 + p11;
    let p11_pred = p11 + 0.0;
    let s = p00_pred + 1.0;
    let k0 = p00_pred / s;
    let k1 = p01_pred / s;
    let innov = 3.0 - level_pred;
    let level_upd = level_pred + k0 * innov;
    let trend_upd = trend_pred + k1 * innov;
    let one_minus_k0 = 1.0 - k0;
    let a00 = one_minus_k0 * p00_pred;
    let a01 = one_minus_k0 * p01_pred;
    let a10 = -k1 * p00_pred + p01_pred;
    let a11 = -k1 * p01_pred + p11_pred;
    let mut p00_new = a00 * one_minus_k0;
    let mut p11_new = a10 * (-k1) + a11;
    p00_new += (k0 * k0) * 1.0;
    let p01_new = a00 * (-k1) + a01 + (k0 * k1) * 1.0;
    let _ = p01_new;
    p11_new += (k1 * k1) * 1.0;

    assert_eq!(level[0], level_upd.to_bits());
    assert_eq!(trend[0], trend_upd.to_bits());
    assert_eq!(vl[0], p00_new.to_bits());
    assert_eq!(vt[0], p11_new.to_bits());
}

#[test]
fn test_local_level_empty_input() {
    let y: Vec<u64> = Vec::new();
    let mut m = zeros(0);
    let mut v = zeros(0);
    let err = kalman_local_level_filter_into(
        &y,
        1.0f64.to_bits(),
        0.0f64.to_bits(),
        0.0f64.to_bits(),
        1.0f64.to_bits(),
        &mut m,
        &mut v,
    )
    .unwrap_err();
    assert_eq!(err, MathError::InsufficientDataAlgo { required: 1, actual: 0 });
}

#[test]
fn test_local_level_instability_on_variance_overflow() {
    // p + q overflows to infinity: the clamp reports numerical instability.
    let y = bits_of(&[1.0]);
    let mut m = zeros(1);
    let mut v = zeros(1);
    let err = kalman_local_level_filter_into(
        &y,
        1.0f64.to_bits(),
        1e308f64.to_bits(),
        0.0f64.to_bits(),
        1e308f64.to_bits(),
        &mut m,
        &mut v,
    )
    .unwrap_err();
    assert!(matches!(err, MathError::NumericalInstability(_)));
    // The failure struck before anything was written.
    assert_eq!(m, zeros(1));
    assert_eq!(v, zeros(1));
}

#[test]
fn test_local_level_numerical_error_on_nonfinite_mean() {
    // The innovation overflows to infinity, so the updated mean is
    // non-finite and the filter reports a numerical error.
    let y = bits_of(&[1e308]);
    let mut m = zeros(1);
    let mut v = zeros(1);
    let err = kalman_local_level_filter_into(
        &y,
        1.0f64.to_bits(),
        0.0f64.to_bits(),
        (-1e308f64).to_bits(),
        1.0f64.to_bits(),
        &mut m,
        &mut v,
    )
    .unwrap_err();
    assert!(matches!(err, MathError::NumericalError { .. }));
}

#[test]
fn test_local_level_error_fields() {
    // r = 0 is rejected with the parameter's name, value and constraint.
    let y = bits_of(&[1.0]);
    let mut m = zeros(1);
    let mut v = zeros(1);
    let err = kalman_local_level_filter_into(
        &y,
        0.0f64.to_bits(),
        0.0f64.to_bits(),
        0.0f64.to_bits(),
        1.0f64.to_bits(),
        &mut m,
        &mut v,
    )
    .unwrap_err();
    assert_eq!(
        err,
        MathError::InvalidParameter {
            parameter: "r".to_string(),
            value: 0.0f64.to_bits(),
            constraint: "must be > 0".to_string(),
        }
    );
}

#[test]
fn test_local_level_allocating_matches_in_place() -> kalman::MathResult<()> {
    let n = 64usize;
    let y = bits_of(&gen_seeded(n, 7));
    let r = 2.0f64.to_bits();
    let q = 0.25f64.to_bits();
    let m0 = 0.5f64.to_bits();
    let v0 = 3.0f64.to_bits();

    let (mean_a, var_a) = kalman_local_level_filter(&y, r, q, m0, v0)?;
    let mut mean_b = zeros(n);
    let mut var_b = zeros(n);
    kalman_local_level_filter_into(&y, r, q, m0, v0, &mut mean_b, &mut var_b)?;
    assert_eq!(mean_a, mean_b);
    assert_eq!(var_a, var_b);
    Ok(())
}

#[test]
fn test_trend_allocating_matches_in_place() -> kalman::MathResult<()> {
    let n = 64usize;
    let y = bits_of(&gen_seeded(n, 3));
    let r = 1.0f64.to_bits();
    let ql = 0.01f64.to_bits();
    let qt = 0.001f64.to_bits();
    let zero = 0.0f64.to_bits();
    let one = 1.0f64.to_bits();

    let (la, ta, vla, vta) = kalman_local_linear_trend_filter(&y, r, ql, qt, zero, zero, one, one)?;
    let mut lb = zeros(n);
    let mut tb = zeros(n);
    let mut vlb = zeros(n);
    let mut vtb = zeros(n);
    kalman_local_linear_trend_filter_into(
        &y, r, ql, qt, zero, zero, one, one, &mut lb, &mut tb, &mut vlb, &mut vtb,
    )?;
    assert_eq!(la, lb);
    assert_eq!(ta, tb);
    assert_eq!(vla, vlb);
    assert_eq!(vta, vtb);
    Ok(())
}

#[test]
fn test_trend_determinism() -> kalman::MathResult<()> {
    let n = 200usize;
    let y = bits_of(&gen_seeded(n, 42));
    let r = 0.75f64.to_bits();
    let ql = 0.05f64.to_bits();
    let qt = 0.002f64.to_bits();
    let zero = 0.0f64.to_bits();
    let one = 1.0f64.to_bits();

    let o1 = kalman_local_linear_trend_filter(&y, r, ql, qt, zero, zero, one, one)?;
    let o2 = kalman_local_linear_trend_filter(&y, r, ql, qt, zero, zero, one, one)?;
    assert_eq!(o1, o2);
    Ok(())
}

#[test]
fn test_clamp_snaps_tiny_negative_variance_to_zero() {
    // With q = 0 and a zero initial variance, the Joseph form can only give
    // a non-negative variance; drive a case where the posterior variance is
    // exactly zero and stays there.
    let y = bits_of(&[1.0, 1.0]);
    let mut m = zeros(2);
    let mut v = zeros(2);
    let res = kalman_local_level_filter_into(
        &y,
        1.0f64.to_bits(),
        0.0f64.to_bits(),
        1.0f64.to_bits(),
        0.0f64.to_bits(),
        &mut m,
        &mut v,
    );
    assert!(res.is_ok());
    // Zero prior variance and zero process noise: the gain is zero, the
    // mean never moves and the variance stays +0.0.
    assert_eq!(f64::from_bits(m[0]), 1.0);
    assert_eq!(f64::from_bits(m[1]), 1.0);
    assert_eq!(v[0], 0.0f64.to_bits());
    assert_eq!(v[1], 0.0f64.to_bits());
}

#[test]
fn test_partial_writes_remain_on_midstream_failure() {
    // The second observation sends the mean to infinity; the first step's
    // outputs stay written, the rest keep the buffers' old contents.
    let y = bits_of(&[-1e308, 1e308, 2.0]);
    let mut m = vec![9.0f64.to_bits(); 3];
    let mut v = vec![9.0f64.to_bits(); 3];
    let err = kalman_local_level_filter_into(
        &y,
        1.0f64.to_bits(),
        0.0f64.to_bits(),
        (-1e308f64).to_bits(),
        1.0f64.to_bits(),
        &mut m,
        &mut v,
    )
    .unwrap_err();
    assert!(matches!(err, MathError::NumericalError { .. }));
    assert!(f64::from_bits(m[0]).is_finite());
    assert_eq!(f64::from_bits(m[2]), 9.0);
    assert_eq!(f64::from_bits(v[2]), 9.0);
}

#[test]
fn test_bit_constants_match_f64_values() {
    assert_eq!(kalman::fbits::F64_POS_ZERO, 0.0f64.to_bits());
    assert_eq!(kalman::fbits::F64_ONE, 1.0f64.to_bits());
    assert_eq!(kalman::fbits::F64_TWO, 2.0f64.to_bits());
    assert_eq!(kalman::fbits::TINY_NEG_CLAMP, 1e-15f64.to_bits());
    assert_eq!(kalman::fbits::F64_SIGN_MASK, (-0.0f64).to_bits());
    assert_eq!(kalman::fbits::F64_EXP_MASK, f64::INFINITY.to_bits());
}

#[test]
fn test_classification_matches_f64_semantics() {
    let samples = [
        0.0,
        -0.0,
        1.0,
        -1.0,
        1e-320,
        -1e-320,
        1e308,
        -1e308,
        f64::INFINITY,
        f64::NEG_INFINITY,
        f64::NAN,
        1e-15,
        -1e-15,
        -2e-15,
    ];
    for x in samples {
        let b = x.to_bits();
        assert_eq!(kalman::fbits::check_finite(b), x.is_finite(), "finite {x}");
        assert_eq!(kalman::fbits::check_lt_zero(b), x < 0.0, "lt {x}");
        assert_eq!(kalman::fbits::check_le_zero(b), x <= 0.0, "le {x}");
        assert_eq!(kalman::fbits::check_gt_zero(b), x > 0.0, "gt {x}");
        assert_eq!(kalman::fbits::check_ge_zero(b), x >= 0.0, "ge {x}");
        assert_eq!(kalman::fbits::negate(b), (-x).to_bits(), "neg {x}");
        if x.is_finite() {
            assert_eq!(
                kalman::fbits::check_within_neg_tol(b),
                x.abs() <= 1e-15,
                "tol {x}"
            );
        }
    }
}
