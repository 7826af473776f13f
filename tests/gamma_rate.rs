use infectiousness::{GammaRate, InfectiousnessRateFn, RateFnError, Rational};

fn whole(n: i64) -> Rational {
    Rational::from_int(n)
}

fn frac(num: i64, den: i64) -> Rational {
    Rational::new(num, den)
}

fn gamma(r: Rational, d: Rational) -> GammaRate {
    match GammaRate::new(r, d) {
        Ok(g) => g,
        Err(e) => panic!("unexpected error: {}", e.message()),
    }
}

/// Test that a negative rate of infection for `GammaRate` returns an error
#[test]
fn test_gamma_rate_errors_r_negative() {
    let e: Option<RateFnError> = GammaRate::new(whole(-5), whole(1)).err();
    match e {
        Some(RateFnError::InvalidParameter(msg)) => {
            assert_eq!(
                msg,
                "The rate of infection must be non-negative.".to_string()
            );
        }
        None => panic!("Expected an error. Instead, created a gamma rate struct with no errors."),
    }
}

#[test]
fn negative_duration_is_rejected() {
    let e = GammaRate::new(whole(2), whole(-1)).err();
    assert_eq!(
        e,
        Some(RateFnError::InvalidParameter(
            "The duration of infection must be non-negative.".to_string()
        ))
    );
}

#[test]
fn negative_fractional_duration_is_rejected() {
    let e = GammaRate::new(frac(1, 3), frac(-1, 1000)).err().unwrap();
    assert_eq!(e.message(), "The duration of infection must be non-negative.");
}

#[test]
fn negative_rate_is_reported_before_negative_duration() {
    let e = GammaRate::new(whole(-1), whole(-1)).err().unwrap();
    assert_eq!(e.message(), "The rate of infection must be non-negative.");
}

#[test]
fn negative_rate_message_scenario() {
    let e = GammaRate::new(whole(-1), whole(5)).err().unwrap();
    assert_eq!(e.message(), "The rate of infection must be non-negative.");
}

#[test]
fn negative_fractional_rate_is_rejected() {
    let e = GammaRate::new(frac(-1, 3), whole(5)).err().unwrap();
    assert_eq!(e.message(), "The rate of infection must be non-negative.");
}

#[test]
fn non_negative_parameters_are_accepted() {
    assert!(GammaRate::new(whole(0), whole(0)).is_ok());
    assert!(GammaRate::new(whole(0), whole(5)).is_ok());
    assert!(GammaRate::new(whole(3), whole(0)).is_ok());
    assert!(GammaRate::new(frac(1, 7), frac(22, 7)).is_ok());
}

#[test]
fn constant_rate_scenario() {
    let g = gamma(whole(2), whole(5));
    assert!(g.rate(whole(3)) == whole(2));
    assert!(g.rate(whole(6)) == whole(0));
    assert!(g.cum_rate(whole(3)) == whole(6));
    assert!(g.cum_rate(whole(10)) == whole(10));
    assert_eq!(g.inverse_cum_rate(whole(6)), Some(whole(3)));
    assert_eq!(g.inverse_cum_rate(whole(20)), None);
    assert!(g.infection_duration() == whole(5));
}

#[test]
fn rate_at_the_duration_is_the_full_rate() {
    let g = gamma(whole(2), whole(5));
    assert!(g.rate(whole(5)) == whole(2));
    assert!(g.rate(frac(501, 100)) == whole(0));
    assert!(g.rate(whole(0)) == whole(2));
}

#[test]
fn zero_rate_scenario() {
    let g = gamma(whole(0), whole(5));
    for t in [whole(0), whole(1), frac(5, 2), whole(5), whole(100)] {
        assert!(g.cum_rate(t) == whole(0));
    }
    assert_eq!(g.inverse_cum_rate(whole(0)), Some(whole(0)));
    assert_eq!(g.inverse_cum_rate(whole(1)), None);
}

#[test]
fn zero_duration_is_never_infectious_after_zero() {
    let g = gamma(whole(4), whole(0));
    assert!(g.rate(whole(0)) == whole(4));
    assert!(g.rate(frac(1, 10)) == whole(0));
    assert!(g.cum_rate(whole(3)) == whole(0));
    assert_eq!(g.inverse_cum_rate(whole(0)), Some(whole(0)));
    assert_eq!(g.inverse_cum_rate(frac(1, 10)), None);
}

#[test]
fn fractional_parameters() {
    let g = gamma(frac(3, 2), frac(7, 2));
    assert!(g.cum_rate(whole(2)) == whole(3));
    assert!(g.cum_rate(whole(9)) == frac(21, 4));
    assert_eq!(g.inverse_cum_rate(whole(3)), Some(whole(2)));
    assert_eq!(g.inverse_cum_rate(frac(21, 4)), Some(frac(7, 2)));
    assert_eq!(g.inverse_cum_rate(frac(11, 2)), None);
    assert_eq!(g.inverse_cum_rate(whole(1)), Some(frac(2, 3)));
}

#[test]
fn cum_rate_starts_at_zero() {
    for g in [gamma(whole(2), whole(5)), gamma(whole(0), whole(5)), gamma(frac(3, 2), whole(0))] {
        assert!(g.cum_rate(whole(0)) == whole(0));
    }
}

#[test]
fn cum_rate_is_monotone_on_samples() {
    let g = gamma(frac(5, 3), whole(4));
    let ts = [whole(0), frac(1, 2), whole(1), frac(7, 2), whole(4), frac(9, 2), whole(50)];
    for i in 0..ts.len() {
        for j in i..ts.len() {
            assert!(g.cum_rate(ts[i]).le(&g.cum_rate(ts[j])));
        }
    }
}

#[test]
fn cum_rate_is_constant_after_duration() {
    let g = gamma(whole(3), frac(5, 2));
    assert!(g.cum_rate(whole(3)) == g.cum_rate(frac(5, 2)));
    assert!(g.cum_rate(whole(1000)) == frac(15, 2));
}

#[test]
fn rate_is_zero_after_duration_on_samples() {
    let g = gamma(frac(9, 4), whole(2));
    for t in [frac(201, 100), whole(3), whole(1000)] {
        assert!(g.rate(t) == whole(0));
    }
}

#[test]
fn inverse_of_cum_rate_round_trips() {
    let g = gamma(frac(5, 3), whole(4));
    for t in [whole(0), frac(1, 2), whole(1), frac(7, 2), whole(4)] {
        let back = g.inverse_cum_rate(g.cum_rate(t)).unwrap();
        assert!(back == t);
    }
}

#[test]
fn inverse_beyond_total_is_none() {
    let g = gamma(whole(2), whole(5));
    assert_eq!(g.inverse_cum_rate(whole(10)), Some(whole(5)));
    assert_eq!(g.inverse_cum_rate(frac(1001, 100)), None);
    assert_eq!(g.inverse_cum_rate(whole(11)), None);
}
