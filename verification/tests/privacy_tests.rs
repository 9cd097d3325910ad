//! Privacy layer: budget validation, boundedness, and the sampled
//! distribution (mean and variance of the Laplace mechanism).

use netpulse::{PrivacyError, PrivacyLayer};
use rand::Rng;

#[test]
fn test_privacy_layer() {
    let privacy = PrivacyLayer::new(1_000_000, 1_000_000).unwrap();
    let original: i64 = 100_000_000;
    let privatized = privacy.privatize(original);

    // Privatized value should be different
    assert_ne!(original, privatized);
}

#[test]
fn invalid_budget_zero_epsilon() {
    assert_eq!(
        PrivacyLayer::new(0, 1_000_000).unwrap_err(),
        PrivacyError::InvalidBudget
    );
}

#[test]
fn invalid_budget_negative_epsilon() {
    assert_eq!(
        PrivacyLayer::new(-5, 1_000_000).unwrap_err(),
        PrivacyError::InvalidBudget
    );
}

#[test]
fn invalid_budget_zero_sensitivity() {
    assert_eq!(
        PrivacyLayer::new(1_000_000, 0).unwrap_err(),
        PrivacyError::InvalidBudget
    );
}

#[test]
fn invalid_budget_negative_sensitivity() {
    assert_eq!(
        PrivacyLayer::new(1_000_000, -1).unwrap_err(),
        PrivacyError::InvalidBudget
    );
}

#[test]
fn valid_budget_accepted() {
    assert!(PrivacyLayer::new(1, 1).is_ok());
    assert!(PrivacyLayer::new(2_500_000, 10_000).is_ok());
}

#[test]
fn noise_scale_is_sensitivity_over_epsilon() {
    // epsilon 2.0, sensitivity 1.0 -> b = 0.5 (500_000 in millionths).
    let layer = PrivacyLayer::new(2_000_000, 1_000_000).unwrap();
    assert_eq!(layer.noise_scale_micros(), 500_000);
}

#[test]
fn noise_scale_is_capped() {
    // A tiny epsilon cannot demand an unbounded scale.
    let layer = PrivacyLayer::new(1, 1_000_000_000).unwrap();
    assert_eq!(layer.noise_scale_micros(), 1_000_000_000_000);
}

#[test]
fn sampler_sign_follows_top_bit() {
    let layer = PrivacyLayer::new(1_000_000, 1_000_000).unwrap();
    let mut rng = rand::thread_rng();
    for _ in 0..1000 {
        let u: u64 = rng.gen();
        let n = layer.sample_laplace(u);
        if u >> 63 == 0 {
            assert!(n >= 0);
        } else {
            assert!(n <= 0);
        }
    }
}

#[test]
fn sampler_zero_at_center() {
    let layer = PrivacyLayer::new(1_000_000, 1_000_000).unwrap();
    assert_eq!(layer.sample_laplace(0), 0);
    assert_eq!(layer.sample_laplace(1u64 << 63), 0);
}

#[test]
fn laplace_mean_and_variance_converge() {
    // b = sensitivity / epsilon = 1.0 (1_000_000 microunits).
    let layer = PrivacyLayer::new(1_000_000, 1_000_000).unwrap();
    let b = 1_000_000f64;
    let n = 200_000usize;
    let mut rng = rand::thread_rng();
    let mut sum = 0f64;
    let mut sum_sq = 0f64;
    for _ in 0..n {
        let draw = layer.sample_laplace(rng.gen()) as f64;
        sum += draw;
        sum_sq += draw * draw;
    }
    let mean = sum / n as f64;
    let variance = sum_sq / n as f64 - mean * mean;
    // Mean converges to 0: the standard error is b * sqrt(2 / n).
    let mean_tolerance = 10.0 * b * (2.0 / n as f64).sqrt();
    assert!(mean.abs() < mean_tolerance, "sample mean {mean} too far from 0");
    // Variance converges to 2 b^2.
    let expected = 2.0 * b * b;
    assert!(
        (variance - expected).abs() < 0.2 * expected,
        "sample variance {variance} too far from {expected}"
    );
}

#[test]
fn privatize_mean_converges_to_value() {
    let layer = PrivacyLayer::new(1_000_000, 1_000_000).unwrap();
    let value: i64 = 42_000_000;
    let n = 50_000usize;
    let mut sum = 0f64;
    for _ in 0..n {
        sum += layer.privatize(value) as f64;
    }
    let mean = sum / n as f64;
    let tolerance = 10.0 * 1_000_000f64 * (2.0 / n as f64).sqrt();
    assert!((mean - value as f64).abs() < tolerance);
}
