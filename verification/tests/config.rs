use fancurve::binary64::Binary64;
use fancurve::config::{default_hw_curve, Config, ConfigError, CurvePoint, FanConfig, FanMode};

fn b(x: f64) -> Binary64 {
    Binary64 { bits: x.to_bits() }
}

fn pt(temp: f64, pwm: f64) -> CurvePoint {
    CurvePoint { temp: b(temp), pwm: b(pwm) }
}

fn fan(points: &[(f64, f64)]) -> FanConfig {
    FanConfig {
        mode: FanMode::Curve,
        manual_pwm: b(50.0),
        curve: points.iter().map(|&(t, p)| pt(t, p)).collect(),
        hw_curve: default_hw_curve(),
    }
}

fn config_with(f: FanConfig) -> Config {
    Config { poll_interval_ms: 2000, fans: vec![f] }
}

fn as_f64(x: Binary64) -> f64 {
    f64::from_bits(x.bits)
}

#[test]
fn default_config_is_valid() {
    Config::default().validate().unwrap();
}

#[test]
fn hw_curve_must_be_monotonic() {
    let mut cfg = Config::default();
    cfg.fans[0].hw_curve[1].pwm = b(5.0); // duty decreases after point 0
    assert!(cfg.validate().is_err());
}

#[test]
fn default_config_contents() {
    let cfg = Config::default();
    assert_eq!(cfg.poll_interval_ms, 2000);
    assert_eq!(cfg.fans.len(), 2);
    for f in &cfg.fans {
        assert_eq!(f.mode, FanMode::Auto);
        assert_eq!(as_f64(f.manual_pwm), 50.0);
        let curve: Vec<(f64, f64)> = f.curve.iter().map(|p| (as_f64(p.temp), as_f64(p.pwm))).collect();
        assert_eq!(
            curve,
            vec![(40.0, 20.0), (50.0, 30.0), (60.0, 45.0), (70.0, 65.0), (80.0, 85.0), (85.0, 100.0)]
        );
        let hw: Vec<(f64, f64)> = f.hw_curve.iter().map(|p| (as_f64(p.temp), as_f64(p.pwm))).collect();
        assert_eq!(hw, vec![(40.0, 20.0), (55.0, 30.0), (70.0, 50.0), (80.0, 75.0), (90.0, 100.0)]);
    }
}

#[test]
fn poll_interval_bounds() {
    let mut cfg = Config::default();
    cfg.poll_interval_ms = 249;
    assert!(matches!(cfg.validate(), Err(ConfigError::PollInterval)));
    cfg.poll_interval_ms = 250;
    assert!(cfg.validate().is_ok());
    cfg.poll_interval_ms = 60_000;
    assert!(cfg.validate().is_ok());
    cfg.poll_interval_ms = 60_001;
    assert!(matches!(cfg.validate(), Err(ConfigError::PollInterval)));
}

#[test]
fn fan_count_bounds() {
    let mut cfg = Config::default();
    cfg.fans.clear();
    assert!(matches!(cfg.validate(), Err(ConfigError::FanCount { count: 0 })));
    let one = Config::default().fans[0].clone();
    cfg.fans = vec![one.clone(); 8];
    assert!(cfg.validate().is_ok());
    cfg.fans.push(one);
    assert!(matches!(cfg.validate(), Err(ConfigError::FanCount { count: 9 })));
}

#[test]
fn manual_pwm_out_of_range() {
    let mut f = fan(&[(40.0, 20.0), (60.0, 40.0)]);
    f.manual_pwm = b(100.5);
    assert!(matches!(config_with(f.clone()).validate(), Err(ConfigError::ManualPwmOutOfRange { fan: 1 })));
    f.manual_pwm = b(f64::NAN);
    assert!(matches!(config_with(f.clone()).validate(), Err(ConfigError::ManualPwmOutOfRange { fan: 1 })));
    f.manual_pwm = b(-0.0);
    assert!(config_with(f).validate().is_ok());
}

#[test]
fn curve_too_short() {
    let f = fan(&[(40.0, 20.0)]);
    assert!(matches!(config_with(f).validate(), Err(ConfigError::CurveTooShort { fan: 1 })));
}

#[test]
fn curve_point_out_of_range_reports_first() {
    let f = fan(&[(40.0, 20.0), (130.0, 50.0), (140.0, 101.0)]);
    match config_with(f).validate() {
        Err(ConfigError::CurvePointOutOfRange { fan: 1, point }) => {
            assert_eq!(as_f64(point.temp), 130.0);
            assert_eq!(as_f64(point.pwm), 50.0);
        }
        other => panic!("unexpected verdict {other:?}"),
    }
}

#[test]
fn curve_must_be_sorted() {
    let f = fan(&[(40.0, 20.0), (60.0, 40.0), (50.0, 60.0)]);
    assert!(matches!(config_with(f).validate(), Err(ConfigError::CurveNotSorted { fan: 1 })));
    // equal temperatures are allowed
    let f = fan(&[(40.0, 20.0), (40.0, 40.0)]);
    assert!(config_with(f).validate().is_ok());
}

#[test]
fn hw_curve_length_bounds() {
    let mut f = fan(&[(40.0, 20.0), (60.0, 40.0)]);
    f.hw_curve.truncate(1);
    assert!(matches!(config_with(f.clone()).validate(), Err(ConfigError::HwCurveLength { fan: 1 })));
    f.hw_curve = (0..8).map(|i| pt(40.0 + i as f64, 50.0)).collect();
    assert!(matches!(config_with(f.clone()).validate(), Err(ConfigError::HwCurveLength { fan: 1 })));
    f.hw_curve.truncate(7);
    assert!(config_with(f).validate().is_ok());
}

#[test]
fn hw_curve_point_out_of_range() {
    let mut f = fan(&[(40.0, 20.0), (60.0, 40.0)]);
    f.hw_curve[2].temp = b(-1.0);
    assert!(matches!(
        config_with(f).validate(),
        Err(ConfigError::HwCurvePointOutOfRange { fan: 1, .. })
    ));
}

#[test]
fn hw_curve_temperatures_must_not_drop() {
    let mut f = fan(&[(40.0, 20.0), (60.0, 40.0)]);
    f.hw_curve[3].temp = b(60.0);
    assert!(matches!(config_with(f).validate(), Err(ConfigError::HwCurveNotMonotonic { fan: 1 })));
}

#[test]
fn later_fan_is_numbered() {
    let mut cfg = Config::default();
    cfg.fans[1].curve.truncate(1);
    assert!(matches!(cfg.validate(), Err(ConfigError::CurveTooShort { fan: 2 })));
}

#[test]
fn fan_check_order_manual_first() {
    let mut f = fan(&[(40.0, 20.0)]);
    f.manual_pwm = b(200.0);
    assert!(matches!(f.check(3), Err(ConfigError::ManualPwmOutOfRange { fan: 3 })));
}
