use theory_craft_ta::config::ConfigError;
use theory_craft_ta::dema::{overlap_dema_state_init, overlap_dema_state_next};
use theory_craft_ta::ema::{overlap_ema_state_init, overlap_ema_state_next, EMAState};
use theory_craft_ta::scalar::Scalar;
use theory_craft_ta::t3::{overlap_t3_state_init, overlap_t3_state_next};
use theory_craft_ta::tema::{overlap_tema_state_init, overlap_tema_state_next};

#[derive(Clone, Copy, Debug, PartialEq)]
struct Real(f64);

impl Scalar for Real {
    fn from_i64(n: i64) -> Real {
        Real(n as f64)
    }
    fn plus(self, rhs: Real) -> Real {
        Real(self.0 + rhs.0)
    }
    fn minus(self, rhs: Real) -> Real {
        Real(self.0 - rhs.0)
    }
    fn times(self, rhs: Real) -> Real {
        Real(self.0 * rhs.0)
    }
    fn over(self, rhs: Real) -> Real {
        Real(self.0 / rhs.0)
    }
    fn negated(self) -> Real {
        Real(-self.0)
    }
    fn magnitude(self) -> Real {
        Real(self.0.abs())
    }
    fn le(self, rhs: Real) -> bool {
        self.0 <= rhs.0
    }
    fn same(self, rhs: Real) -> bool {
        self.0 == rhs.0
    }
}

fn close(got: Option<Real>, want: f64) -> bool {
    match got {
        Some(Real(v)) => (v - want).abs() <= 1e-12 * (1.0 + want.abs()),
        None => false,
    }
}

/// The values of an average over `xs`, fed only where `xs` has a value.
fn ema_of(period: i32, xs: &[Option<f64>]) -> Vec<Option<f64>> {
    let mut state: EMAState<Real> = overlap_ema_state_init(period).unwrap();
    let mut out = Vec::new();
    for x in xs {
        match x {
            None => out.push(None),
            Some(v) => {
                let (value, next) = overlap_ema_state_next(&state, Real(*v), true);
                out.push(value.map(|r| r.0));
                state = next;
            }
        }
    }
    out
}

fn dema_outputs(period: i32, xs: &[f64]) -> Vec<Option<Real>> {
    let mut state = overlap_dema_state_init::<Real>(period).unwrap();
    let mut out = Vec::new();
    for x in xs {
        let (value, next) = overlap_dema_state_next(&state, Real(*x), true);
        out.push(value);
        state = next;
    }
    out
}

fn tema_outputs(period: i32, xs: &[f64]) -> Vec<Option<Real>> {
    let mut state = overlap_tema_state_init::<Real>(period).unwrap();
    let mut out = Vec::new();
    for x in xs {
        let (value, next) = overlap_tema_state_next(&state, Real(*x), true);
        out.push(value);
        state = next;
    }
    out
}

fn t3_outputs(period: i32, vfactor: f64, xs: &[f64]) -> Vec<Option<Real>> {
    let mut state = overlap_t3_state_init(period, Real(vfactor)).unwrap();
    let mut out = Vec::new();
    for x in xs {
        let (value, next) = overlap_t3_state_next(&state, Real(*x), true);
        out.push(value);
        state = next;
    }
    out
}

fn history() -> Vec<f64> {
    vec![
        3.0, 1.0, 4.0, 1.0, 5.0, 9.0, 2.0, 6.0, 5.0, 3.0, 5.0, 8.0, 9.0, 7.0, 9.0, 3.0, 2.0, 3.0,
        8.0, 4.0,
    ]
}

#[test]
fn dema_period_two_over_odd_numbers() {
    let out = dema_outputs(2, &[1.0, 3.0, 5.0, 7.0, 9.0]);
    assert_eq!(out[0], None);
    assert_eq!(out[1], None);
    assert!(close(out[2], 5.0));
    assert!(close(out[3], 7.0));
    assert!(close(out[4], 9.0));
}

#[test]
fn chains_refuse_a_period_below_two() {
    for period in [1, 0, -1] {
        assert!(matches!(
            overlap_dema_state_init::<Real>(period),
            Err(ConfigError::InvalidPeriod)
        ));
        assert!(matches!(
            overlap_tema_state_init::<Real>(period),
            Err(ConfigError::InvalidPeriod)
        ));
        assert!(matches!(
            overlap_t3_state_init(period, Real(0.7)),
            Err(ConfigError::InvalidPeriod)
        ));
    }
    assert!(overlap_dema_state_init::<Real>(2).is_ok());
    assert!(overlap_tema_state_init::<Real>(2).is_ok());
    assert!(overlap_t3_state_init(2, Real(0.7)).is_ok());
}

#[test]
fn a_chain_matures_after_its_windows_less_the_bars_they_share() {
    let xs: Vec<f64> = (0..40).map(|i| ((i * 7) % 11) as f64).collect();
    for period in 2..=5usize {
        let dema = dema_outputs(period as i32, &xs);
        let tema = tema_outputs(period as i32, &xs);
        let t3 = t3_outputs(period as i32, 0.7, &xs);
        for i in 0..xs.len() {
            assert_eq!(dema[i].is_some(), i + 1 >= 2 * period - 1);
            assert_eq!(tema[i].is_some(), i + 1 >= 3 * period - 2);
            assert_eq!(t3[i].is_some(), i + 1 >= 6 * period - 5);
        }
    }
}

#[test]
fn dema_combines_the_average_and_the_average_of_the_average() {
    let xs = history();
    let raw: Vec<Option<f64>> = xs.iter().map(|x| Some(*x)).collect();
    let e1 = ema_of(3, &raw);
    let e2 = ema_of(3, &e1);
    let out = dema_outputs(3, &xs);
    for i in 0..xs.len() {
        match (e1[i], e2[i]) {
            (Some(a), Some(b)) => assert_eq!(out[i], Some(Real(2.0 * a - b))),
            _ => assert_eq!(out[i], None),
        }
    }
    assert!(out[4].is_some());
}

#[test]
fn tema_combines_three_stages() {
    let xs = history();
    let raw: Vec<Option<f64>> = xs.iter().map(|x| Some(*x)).collect();
    let e1 = ema_of(3, &raw);
    let e2 = ema_of(3, &e1);
    let e3 = ema_of(3, &e2);
    let out = tema_outputs(3, &xs);
    for i in 0..xs.len() {
        match (e1[i], e2[i], e3[i]) {
            (Some(a), Some(b), Some(c)) => {
                assert_eq!(out[i], Some(Real(3.0 * a - 3.0 * b + c)))
            }
            _ => assert_eq!(out[i], None),
        }
    }
    assert!(out[6].is_some());
}

#[test]
fn t3_weights_the_last_four_of_six_stages() {
    let xs = history();
    let v: f64 = 0.7;
    let raw: Vec<Option<f64>> = xs.iter().map(|x| Some(*x)).collect();
    let e1 = ema_of(2, &raw);
    let e2 = ema_of(2, &e1);
    let e3 = ema_of(2, &e2);
    let e4 = ema_of(2, &e3);
    let e5 = ema_of(2, &e4);
    let e6 = ema_of(2, &e5);
    let c1: f64 = -v * v * v;
    let c2: f64 = 3.0 * v * v + 3.0 * v * v * v;
    let c3: f64 = -6.0 * v * v - 3.0 * v - 3.0 * v * v * v;
    let c4: f64 = 1.0 + 3.0 * v + v * v * v + 3.0 * v * v;
    assert!((c1 + c2 + c3 + c4 - 1.0).abs() < 1e-12);
    let out = t3_outputs(2, v, &xs);
    for i in 0..xs.len() {
        match (e3[i], e4[i], e5[i], e6[i]) {
            (Some(a3), Some(a4), Some(a5), Some(a6)) => {
                assert_eq!(out[i], Some(Real(c1 * a6 + c2 * a5 + c3 * a4 + c4 * a3)))
            }
            _ => assert_eq!(out[i], None),
        }
    }
    assert_eq!(out[5], None);
    assert!(out[6].is_some());
}

#[test]
fn t3_of_a_constant_series_is_the_constant() {
    let out = t3_outputs(2, 1.0, &[5.0; 9]);
    assert!(close(out[6], 5.0));
    assert!(close(out[8], 5.0));
}

#[test]
fn chain_revisions_equal_opening_the_bar_with_the_last_revision() {
    let xs = history();
    let mut dema = overlap_dema_state_init::<Real>(3).unwrap();
    let mut tema = overlap_tema_state_init::<Real>(2).unwrap();
    let mut t3 = overlap_t3_state_init(2, Real(0.7)).unwrap();
    for (i, x) in xs.iter().enumerate() {
        let final_value = Real(*x);
        let (d_direct, d_next) = overlap_dema_state_next(&dema, final_value, true);
        let (_, d_open) = overlap_dema_state_next(&dema, Real(x + 10.0), true);
        let (_, d_mid) = overlap_dema_state_next(&d_open, Real(x - 3.0), false);
        let (d_revised, d_after) = overlap_dema_state_next(&d_mid, final_value, false);
        assert_eq!(d_revised, d_direct);
        let probe = Real(i as f64);
        assert_eq!(
            overlap_dema_state_next(&d_after, probe, true).0,
            overlap_dema_state_next(&d_next, probe, true).0
        );
        dema = d_next;

        let (t_direct, t_next) = overlap_tema_state_next(&tema, final_value, true);
        let (_, t_open) = overlap_tema_state_next(&tema, Real(x * 2.0), true);
        let (t_revised, t_after) = overlap_tema_state_next(&t_open, final_value, false);
        assert_eq!(t_revised, t_direct);
        assert_eq!(
            overlap_tema_state_next(&t_after, probe, true).0,
            overlap_tema_state_next(&t_next, probe, true).0
        );
        tema = t_next;

        let (q_direct, q_next) = overlap_t3_state_next(&t3, final_value, true);
        let (_, q_open) = overlap_t3_state_next(&t3, Real(x + 1.0), true);
        let (q_revised, q_after) = overlap_t3_state_next(&q_open, final_value, false);
        assert_eq!(q_revised, q_direct);
        assert_eq!(
            overlap_t3_state_next(&q_after, probe, true).0,
            overlap_t3_state_next(&q_next, probe, true).0
        );
        t3 = q_next;
    }
}

#[test]
fn chain_values_on_a_quickening_series() {
    let xs = [1.0, 2.0, 4.0, 7.0, 11.0, 16.0, 22.0, 29.0];
    let dema = dema_outputs(2, &xs);
    let want_dema = [
        4.0,
        6.851851851851851,
        10.790123456790123,
        15.765432098765432,
        21.755829903978054,
        28.75217192501143,
    ];
    assert_eq!(&dema[..2], &[None, None]);
    for (i, want) in want_dema.iter().enumerate() {
        assert!(close(dema[i + 2], *want));
    }
    let tema = tema_outputs(2, &xs);
    let want_tema = [
        6.851851851851851,
        10.930041152263374,
        15.968449931412895,
        21.98628257887517,
        28.99420819996952,
    ];
    assert_eq!(&tema[..3], &[None, None, None]);
    for (i, want) in want_tema.iter().enumerate() {
        assert!(close(tema[i + 3], *want));
    }
    let t3 = t3_outputs(2, 0.7, &xs);
    assert_eq!(&t3[..6], &[None, None, None, None, None, None]);
    assert!(close(t3[6], 19.069006452268468));
    assert!(close(t3[7], 25.61607170316178));
}

#[test]
fn a_chain_counts_every_new_bar_and_no_revision() {
    let mut dema = overlap_dema_state_init::<Real>(2).unwrap();
    let mut tema = overlap_tema_state_init::<Real>(2).unwrap();
    let mut t3 = overlap_t3_state_init(2, Real(0.7)).unwrap();
    assert_eq!(dema.lookback_count(), 0);
    for i in 1..=12u64 {
        let x = Real(i as f64);
        dema = overlap_dema_state_next(&dema, x, true).1;
        tema = overlap_tema_state_next(&tema, x, true).1;
        t3 = overlap_t3_state_next(&t3, x, true).1;
        assert_eq!(dema.lookback_count(), i);
        assert_eq!(tema.lookback_count(), i);
        assert_eq!(t3.lookback_count(), i);
        assert_eq!(overlap_dema_state_next(&dema, x, false).1.lookback_count(), i);
        assert_eq!(overlap_tema_state_next(&tema, x, false).1.lookback_count(), i);
        assert_eq!(overlap_t3_state_next(&t3, x, false).1.lookback_count(), i);
    }
    assert_eq!(dema.period(), 2);
    assert_eq!(tema.period(), 2);
    assert_eq!(t3.period(), 2);
}
