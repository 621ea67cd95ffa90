use fancurve::binary64::Binary64;
use fancurve::config::{default_hw_curve, CurvePoint, FanConfig, FanMode};
use fancurve::control::{
    control_temp, fan_step, fan_target, FanAction, FanRuntime, FanStage, ModeSwitch, SensorReading, Target,
};

fn hw_fan(mode: FanMode) -> FanConfig {
    FanConfig {
        mode,
        manual_pwm: Binary64 { bits: 50.0f64.to_bits() },
        curve: default_hw_curve(),
        hw_curve: default_hw_curve(),
    }
}

fn percent(t: Target) -> Option<f64> {
    match t {
        Target::Percent(p) => Some(f64::from_bits(p.bits)),
        _ => None,
    }
}

#[test]
fn targets() {
    assert!(matches!(fan_target(None, true), Target::Unmanaged));
    assert!(matches!(fan_target(Some(&hw_fan(FanMode::Auto)), true), Target::Unmanaged));
    assert!(matches!(fan_target(Some(&hw_fan(FanMode::Hardware)), false), Target::Unmanaged));
    assert_eq!(percent(fan_target(Some(&hw_fan(FanMode::Manual)), false)), Some(50.0));
    assert!(matches!(fan_target(Some(&hw_fan(FanMode::Curve)), true), Target::Curve));
}

#[test]
fn curve_without_temperature_runs_full_speed() {
    assert_eq!(percent(fan_target(Some(&hw_fan(FanMode::Curve)), false)), Some(100.0));
}

/// Drive one fan's part of a tick, with the outcomes of its actions.
fn drive(rt: &mut FanRuntime, cfg: Option<&FanConfig>, raw: Option<u8>, outcomes: &[bool]) -> Vec<FanAction> {
    let mut actions = Vec::new();
    let mut stage = FanStage::Start;
    let mut ok = false;
    loop {
        let (next, action) = fan_step(rt, stage, cfg, raw, ok);
        stage = next;
        let Some(a) = action else { break };
        ok = outcomes.get(actions.len()).copied().unwrap_or(false);
        actions.push(a);
    }
    actions
}

#[test]
fn tick_switches_programs_and_writes_in_order() {
    let mut rt = FanRuntime::new();
    let manual = hw_fan(FanMode::Manual);
    assert_eq!(drive(&mut rt, Some(&manual), Some(128), &[true, true]), vec![FanAction::SelectManual, FanAction::WritePwm(128)]);
    // nothing changed: nothing is touched
    assert_eq!(drive(&mut rt, Some(&manual), Some(128), &[]), vec![]);
    // a new duty is written
    assert_eq!(drive(&mut rt, Some(&manual), Some(200), &[true]), vec![FanAction::WritePwm(200)]);
    // hardware mode needs no switch write, only the curve
    let hw = hw_fan(FanMode::Hardware);
    assert_eq!(drive(&mut rt, Some(&hw), None, &[true]), vec![FanAction::ProgramHwCurve]);
    assert_eq!(drive(&mut rt, Some(&hw), None, &[]), vec![]);
    // no configuration: back to automatic control
    assert_eq!(drive(&mut rt, None, None, &[true]), vec![FanAction::RestoreAuto]);
}

#[test]
fn failed_actions_are_retried() {
    let mut rt = FanRuntime::new();
    let manual = hw_fan(FanMode::Manual);
    // the switch fails: the duty is still attempted, and the switch is asked again next tick
    assert_eq!(drive(&mut rt, Some(&manual), Some(10), &[false, false]), vec![FanAction::SelectManual, FanAction::WritePwm(10)]);
    assert_eq!(drive(&mut rt, Some(&manual), Some(10), &[true, false]), vec![FanAction::SelectManual, FanAction::WritePwm(10)]);
    assert_eq!(drive(&mut rt, Some(&manual), Some(10), &[true]), vec![FanAction::WritePwm(10)]);
    assert_eq!(drive(&mut rt, Some(&manual), Some(10), &[]), vec![]);
}

#[test]
fn equal_ticks_make_equal_calls() {
    let manual = hw_fan(FanMode::Curve);
    let mut a = FanRuntime::new();
    let mut b = FanRuntime::new();
    let first = drive(&mut a, Some(&manual), Some(99), &[true, false]);
    let second = drive(&mut b, Some(&manual), Some(99), &[true, false]);
    assert_eq!(first, second);
    assert_eq!((a.last_mode, a.last_raw), (b.last_mode, b.last_raw));
}

#[test]
fn control_temperature_ignores_other_sensors() {
    let a = vec![
        SensorReading { control: true, milli_celsius: Some(45_000) },
        SensorReading { control: false, milli_celsius: Some(90_000) },
    ];
    let b = vec![
        SensorReading { control: true, milli_celsius: Some(45_000) },
        SensorReading { control: false, milli_celsius: None },
    ];
    assert_eq!(control_temp(&a), control_temp(&b));
}

#[test]
fn mode_switches() {
    let rt = FanRuntime::new();
    assert_eq!(rt.mode_switch(None), None);
    assert_eq!(rt.mode_switch(Some(FanMode::Auto)), Some(ModeSwitch::RestoreAuto));
    assert_eq!(rt.mode_switch(Some(FanMode::Curve)), Some(ModeSwitch::SelectManual));
    assert_eq!(rt.mode_switch(Some(FanMode::Manual)), Some(ModeSwitch::SelectManual));
    assert_eq!(rt.mode_switch(Some(FanMode::Hardware)), Some(ModeSwitch::Hardware));
}

#[test]
fn applied_mode_settles_and_resets_duty() {
    let mut rt = FanRuntime::new();
    rt.pwm_written(128);
    assert!(!rt.needs_pwm_write(128));
    rt.mode_applied(Some(FanMode::Curve));
    assert_eq!(rt.mode_switch(Some(FanMode::Curve)), None);
    assert!(rt.needs_pwm_write(128));
    assert_eq!(rt.mode_switch(None), Some(ModeSwitch::RestoreAuto));
}

#[test]
fn duty_is_written_only_when_it_changes() {
    let mut rt = FanRuntime::new();
    assert!(rt.needs_pwm_write(0));
    rt.pwm_written(77);
    assert!(!rt.needs_pwm_write(77));
    assert!(rt.needs_pwm_write(78));
}

#[test]
fn hardware_curve_programmed_once_until_it_changes() {
    let mut rt = FanRuntime::new();
    let mut cfg = hw_fan(FanMode::Hardware);
    assert!(rt.needs_hw_program(&cfg));
    rt.hw_programmed(&cfg.hw_curve);
    assert!(!rt.needs_hw_program(&cfg));
    cfg.hw_curve[0] = CurvePoint { temp: Binary64 { bits: 41.0f64.to_bits() }, pwm: cfg.hw_curve[0].pwm };
    assert!(rt.needs_hw_program(&cfg));
    // a switch of mode forgets the programmed curve
    rt.hw_programmed(&cfg.hw_curve);
    rt.mode_applied(Some(FanMode::Hardware));
    assert!(rt.needs_hw_program(&cfg));
    // fans outside hardware mode are never programmed
    assert!(!rt.needs_hw_program(&hw_fan(FanMode::Curve)));
}

#[test]
fn control_temperature_is_max_of_control_sensors() {
    let readings = vec![
        SensorReading { control: true, milli_celsius: Some(45_000) },
        SensorReading { control: false, milli_celsius: Some(70_000) },
        SensorReading { control: true, milli_celsius: None },
        SensorReading { control: true, milli_celsius: Some(52_500) },
    ];
    assert_eq!(control_temp(&readings), Some(52_500));
    let unreadable = vec![
        SensorReading { control: true, milli_celsius: None },
        SensorReading { control: false, milli_celsius: Some(30_000) },
    ];
    assert_eq!(control_temp(&unreadable), None);
    assert_eq!(control_temp(&vec![]), None);
}
