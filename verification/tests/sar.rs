use theory_craft_ta::config::ConfigError;
use theory_craft_ta::sar::{
    finalize_bar, overlap_sar_state_init, overlap_sar_state_next, revise_current_bar, SARState,
    Trend,
};
use theory_craft_ta::scalar::{OrderedScalar, Scalar};

#[derive(Clone, Copy, Debug, PartialEq)]
struct Real(f64);

impl Scalar for Real {
    fn from_i64(n: i64) -> Real {
        Real(n as f64)
    }
    fn plus(self, rhs: Real) -> Real {
        Real(self.0 + rhs.0)
    }
    fn minus(self, rhs: Real) -> Real {
        Real(self.0 - rhs.0)
    }
    fn times(self, rhs: Real) -> Real {
        Real(self.0 * rhs.0)
    }
    fn over(self, rhs: Real) -> Real {
        Real(self.0 / rhs.0)
    }
    fn negated(self) -> Real {
        Real(-self.0)
    }
    fn magnitude(self) -> Real {
        Real(self.0.abs())
    }
    fn le(self, rhs: Real) -> bool {
        self.0 <= rhs.0
    }
    fn same(self, rhs: Real) -> bool {
        self.0 == rhs.0
    }
}

// The order of doubles is reflexive and transitive, and adding a number
// above zero lowers no sum, for every number but NaN; there is nothing to run.
impl OrderedScalar for Real {
    fn le_reflexive(_a: Real) {}
    fn le_transitive(_a: Real, _b: Real, _c: Real) {}
    fn plus_positive_grows(_a: Real, _b: Real) {}
}

fn close(got: Option<Real>, want: f64) -> bool {
    match got {
        Some(Real(v)) => (v - want).abs() <= 1e-12 * (1.0 + want.abs()),
        None => false,
    }
}

fn fresh() -> SARState<Real> {
    overlap_sar_state_init(Real(0.02), Real(0.2)).unwrap()
}

fn after(bars: &[(f64, f64)]) -> SARState<Real> {
    let mut state = fresh();
    for (high, low) in bars {
        state = overlap_sar_state_next(&state, Real(*high), Real(*low), true).1;
    }
    state
}

#[test]
fn bounds_must_be_above_zero_and_in_order() {
    for (step, cap) in [(0.0, 0.2), (-0.02, 0.2), (0.02, 0.0), (0.02, -0.2), (0.3, 0.2)] {
        assert!(matches!(
            overlap_sar_state_init(Real(step), Real(cap)),
            Err(ConfigError::InvalidAcceleration)
        ));
    }
    assert!(overlap_sar_state_init(Real(0.02), Real(0.2)).is_ok());
    assert!(overlap_sar_state_init(Real(0.2), Real(0.2)).is_ok());
}

#[test]
fn the_first_bar_has_no_value_and_the_second_sets_the_trend() {
    let state = fresh();
    let (first, state) = overlap_sar_state_next(&state, Real(10.0), Real(9.0), true);
    assert_eq!(first, None);
    assert_eq!(state.snapshot().trend_direction, None);
    let (second, state) = overlap_sar_state_next(&state, Real(11.0), Real(9.5), true);
    assert_eq!(second, Some(Real(9.0)));
    let known = state.snapshot();
    assert_eq!(known.trend_direction, Some(Trend::Long));
    assert_eq!(known.extreme_point, Some(Real(11.0)));
    assert_eq!(known.current_acceleration_factor, Real(0.02));
    assert_eq!(known.bars_seen, 2);
}

#[test]
fn a_larger_fall_than_rise_starts_a_downtrend() {
    let state = after(&[(10.0, 9.0)]);
    let (value, state) = overlap_sar_state_next(&state, Real(10.2), Real(8.0), true);
    assert_eq!(value, Some(Real(10.0)));
    let known = state.snapshot();
    assert_eq!(known.trend_direction, Some(Trend::Short));
    assert_eq!(known.extreme_point, Some(Real(8.0)));
}

#[test]
fn equal_moves_start_a_downtrend() {
    let state = after(&[(10.0, 9.0)]);
    let (value, state) = overlap_sar_state_next(&state, Real(11.0), Real(8.0), true);
    assert_eq!(value, Some(Real(10.0)));
    assert_eq!(state.snapshot().trend_direction, Some(Trend::Short));
}

#[test]
fn the_stop_closes_in_on_the_extreme_and_flips_when_crossed() {
    let state = after(&[(10.0, 9.0), (11.0, 9.5)]);
    let (third, state) = overlap_sar_state_next(&state, Real(12.0), Real(10.0), true);
    assert!(close(third, 9.0 + 0.02 * (11.0 - 9.0)));
    let known = state.snapshot();
    assert_eq!(known.extreme_point, Some(Real(12.0)));
    assert!(close(Some(known.current_acceleration_factor), 0.04));
    assert_eq!(known.trend_direction, Some(Trend::Long));

    let (fourth, state) = overlap_sar_state_next(&state, Real(12.5), Real(9.0), true);
    assert_eq!(fourth, Some(Real(12.0)));
    let known = state.snapshot();
    assert_eq!(known.trend_direction, Some(Trend::Short));
    assert_eq!(known.extreme_point, Some(Real(9.0)));
    assert_eq!(known.current_acceleration_factor, Real(0.02));

    let (fifth, state) = overlap_sar_state_next(&state, Real(11.0), Real(8.5), true);
    assert!(close(fifth, 12.0 + 0.02 * (9.0 - 12.0)));
    let known = state.snapshot();
    assert_eq!(known.trend_direction, Some(Trend::Short));
    assert_eq!(known.extreme_point, Some(Real(8.5)));
    assert!(close(Some(known.current_acceleration_factor), 0.04));
}

#[test]
fn the_factor_stays_when_the_extreme_does_not_advance() {
    let state = after(&[(10.0, 9.0), (11.0, 9.5)]);
    let (_, state) = overlap_sar_state_next(&state, Real(10.8), Real(9.6), true);
    let known = state.snapshot();
    assert_eq!(known.extreme_point, Some(Real(11.0)));
    assert_eq!(known.current_acceleration_factor, Real(0.02));
}

#[test]
fn the_factor_never_falls_within_a_trend_and_stops_at_the_cap() {
    let mut state = after(&[(10.0, 9.0), (11.0, 10.5)]);
    let mut last = state.snapshot().current_acceleration_factor.0;
    for i in 0..30 {
        let high = 12.0 + 2.0 * i as f64;
        let (_, next) = overlap_sar_state_next(&state, Real(high), Real(high - 0.5), true);
        let known = next.snapshot();
        assert_eq!(known.trend_direction, Some(Trend::Long));
        assert!(known.current_acceleration_factor.0 >= last);
        assert!(known.current_acceleration_factor.0 <= 0.2);
        last = known.current_acceleration_factor.0;
        state = next;
    }
    assert_eq!(last, 0.2);
}

#[test]
fn a_revision_takes_the_bar_back_and_applies_it_again() {
    let base = after(&[(10.0, 9.0), (11.0, 9.5), (12.0, 10.0)]);
    let (_, opened) = finalize_bar(&base, Real(12.4), Real(11.0));
    let (_, once) = revise_current_bar(&opened, Real(12.6), Real(10.5));
    let (revised, twice) = revise_current_bar(&once, Real(12.5), Real(9.0));
    let (direct, direct_state) = finalize_bar(&base, Real(12.5), Real(9.0));
    assert_eq!(revised, direct);
    assert_eq!(revised, Some(Real(12.0)));
    assert_eq!(
        twice.snapshot().trend_direction,
        direct_state.snapshot().trend_direction
    );
    assert_eq!(
        finalize_bar(&twice, Real(11.0), Real(8.5)).0,
        finalize_bar(&direct_state, Real(11.0), Real(8.5)).0
    );
}

#[test]
fn a_revision_of_the_second_bar_can_turn_the_trend_round() {
    let base = after(&[(10.0, 9.0)]);
    let (_, opened) = overlap_sar_state_next(&base, Real(11.0), Real(9.5), true);
    assert_eq!(opened.snapshot().trend_direction, Some(Trend::Long));
    let (value, revised) = overlap_sar_state_next(&opened, Real(10.1), Real(8.0), false);
    assert_eq!(value, Some(Real(10.0)));
    assert_eq!(revised.snapshot().trend_direction, Some(Trend::Short));
}

#[test]
fn a_revision_of_the_first_bar_still_has_no_value() {
    let (_, opened) = overlap_sar_state_next(&fresh(), Real(10.0), Real(9.0), true);
    let (value, revised) = overlap_sar_state_next(&opened, Real(10.5), Real(9.5), false);
    assert_eq!(value, None);
    assert_eq!(revised.snapshot().bars_seen, 1);
    let (second, _) = overlap_sar_state_next(&revised, Real(11.5), Real(10.0), true);
    assert_eq!(second, Some(Real(9.5)));
}

#[test]
fn every_bar_is_counted() {
    let mut state = fresh();
    for i in 1..=6u64 {
        let high = 10.0 + i as f64;
        state = overlap_sar_state_next(&state, Real(high), Real(high - 0.5), true).1;
        assert_eq!(state.snapshot().bars_seen, i);
        let revised = overlap_sar_state_next(&state, Real(high + 0.1), Real(high - 0.4), false).1;
        assert_eq!(revised.snapshot().bars_seen, i);
    }
}

#[test]
fn four_bars_with_a_reversal_on_the_last() {
    let bars = [(10.0, 9.0), (11.0, 9.5), (12.0, 10.5), (11.5, 9.0)];
    let mut state = fresh();
    let mut values = Vec::new();
    let mut factors = Vec::new();
    for (high, low) in bars {
        let (value, next) = overlap_sar_state_next(&state, Real(high), Real(low), true);
        values.push(value);
        factors.push(next.snapshot().current_acceleration_factor.0);
        state = next;
    }
    assert_eq!(values[0], None);
    assert_eq!(values[1], Some(Real(9.0)));
    assert!(close(values[2], 9.04));
    assert_eq!(values[3], Some(Real(12.0)));
    assert_eq!(factors[1], 0.02);
    assert!((factors[2] - 0.04).abs() < 1e-15);
    assert_eq!(factors[3], 0.02);
    let known = state.snapshot();
    assert_eq!(known.trend_direction, Some(Trend::Short));
    assert_eq!(known.extreme_point, Some(Real(9.0)));
}
