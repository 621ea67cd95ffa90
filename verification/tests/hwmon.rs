use fancurve::hwmon::{
    coretemp_channels, fan_controller_chip, find_chips, join, nvme_model, read_milli, read_u32, temp_channel, ChipKind,
    DiscoverError, Hardware, HwmonEntry, PwmFan, SensorKind, SysfsError, TempSensor, HWMON_ROOT,
};

fn entry(file_name: &str, chip_name: Option<&str>) -> HwmonEntry {
    HwmonEntry { file_name: file_name.to_string(), chip_name: chip_name.map(|s| s.to_string()) }
}

#[test]
fn reading_numbers() {
    let path = "/x/pwm1".to_string();
    assert_eq!(read_u32(&path, "128\n").unwrap(), 128);
    assert_eq!(read_u32(&path, "  +7 \t").unwrap(), 7);
    assert_eq!(read_u32(&path, "4294967295").unwrap(), u32::MAX);
    for bad in ["", "\n", "-1", "4294967296", "12a", "+", "1 2"] {
        match read_u32(&path, bad) {
            Err(SysfsError::Parse { path: p }) => assert_eq!(p, path),
            Ok(v) => panic!("{bad:?} read as {v}"),
        }
    }
    assert_eq!(read_milli(&path, "-1500\n").unwrap(), -1500);
    assert_eq!(read_milli(&path, "45000").unwrap(), 45000);
    assert_eq!(read_milli(&path, "-9223372036854775808").unwrap(), i64::MIN);
    assert!(read_milli(&path, "9223372036854775808").is_err());
    assert!(read_milli(&path, "-").is_err());
}

#[test]
fn fan_files() {
    let fan = PwmFan::new("/sys/class/hwmon/hwmon3", 2, 5);
    assert_eq!(fan.pwm, "/sys/class/hwmon/hwmon3/pwm2");
    assert_eq!(fan.enable, "/sys/class/hwmon/hwmon3/pwm2_enable");
    assert_eq!(fan.fan_input, "/sys/class/hwmon/hwmon3/fan2_input");
    assert_eq!(fan.rpm("1234\n").unwrap(), 1234);
    assert_eq!(fan.pwm_raw("255\n").unwrap(), 255);
    assert_eq!(fan.enable_value("5\n").unwrap(), 5);
    assert!(matches!(fan.rpm("x"), Err(SysfsError::Parse { path }) if path == fan.fan_input));
}

#[test]
fn fan_writes() {
    let fan = PwmFan::new("/sys/class/hwmon/hwmon3", 1, 5);
    let manual = fan.set_manual();
    assert_eq!((manual.path.as_str(), manual.contents.as_str()), (fan.enable.as_str(), "1"));
    let auto = fan.set_auto();
    assert_eq!((auto.path.as_str(), auto.contents.as_str()), (fan.enable.as_str(), "5"));
    let duty = fan.set_pwm_raw(200);
    assert_eq!((duty.path.as_str(), duty.contents.as_str()), (fan.pwm.as_str(), "200"));
}

#[test]
fn written_values_read_back() {
    let fan = PwmFan::new("/sys/class/hwmon/hwmon0", 1, 4_000_000_000);
    for v in [0u8, 9, 10, 99, 100, 128, 255] {
        let w = fan.set_pwm_raw(v);
        assert_eq!(fan.pwm_raw(&w.contents).unwrap(), v as u32);
    }
    assert_eq!(fan.enable_value(&fan.set_auto().contents).unwrap(), 4_000_000_000);
}

#[test]
fn path_joining() {
    assert_eq!(join("/a", "b"), "/a/b");
    assert_eq!(join("/a/", "b"), "/a/b");
    assert_eq!(join("", "b"), "b");
    assert_eq!(join("/a", "/c"), "/c");
    assert_eq!(join("/a", ""), "/a/");
}

#[test]
fn channel_names() {
    assert_eq!(temp_channel("temp12_input"), Some(12));
    assert_eq!(temp_channel("temp1_input"), Some(1));
    assert_eq!(temp_channel("temp_input"), None);
    assert_eq!(temp_channel("temp1_label"), None);
    assert_eq!(temp_channel("fan1_input"), None);
    assert_eq!(temp_channel("temp+3_input"), Some(3));
}

#[test]
fn channels_sorted() {
    let names: Vec<String> = ["temp10_input", "name", "temp2_input", "temp1_label", "temp1_input", "temp6_input"]
        .iter()
        .map(|s| s.to_string())
        .collect();
    assert_eq!(coretemp_channels(&names), vec![1, 2, 6, 10]);
}

#[test]
fn coretemp_sensors() {
    let pkg = TempSensor::coretemp("/sys/class/hwmon/hwmon2", 1, Some("Package id 0\n"));
    assert_eq!(pkg.label, "Package id 0");
    assert!(pkg.control);
    assert_eq!(pkg.kind, SensorKind::Cpu);
    assert_eq!(pkg.kind.as_str(), "cpu");
    assert_eq!(pkg.input, "/sys/class/hwmon/hwmon2/temp1_input");
    assert!(pkg.model.is_none());
    let core = TempSensor::coretemp("/sys/class/hwmon/hwmon2", 4, Some("Core 4"));
    assert!(!core.control);
    assert_eq!(core.kind.as_str(), "core");
    let unlabelled = TempSensor::coretemp("/sys/class/hwmon/hwmon2", 7, None);
    assert_eq!(unlabelled.label, "temp7");
    assert!(!unlabelled.control);
    assert_eq!(TempSensor::coretemp_label_file("/h", 3), "/h/temp3_label");
    assert_eq!(pkg.read("51000\n").unwrap(), 51000);
}

#[test]
fn nvme_sensors() {
    let s = TempSensor::nvme("/sys/class/hwmon/hwmon5", "nvme0", Some("Samsung 990".to_string()));
    assert_eq!(s.label, "nvme0");
    assert!(!s.control);
    assert_eq!(s.kind.as_str(), "nvme");
    assert_eq!(s.input, "/sys/class/hwmon/hwmon5/temp1_input");
    assert_eq!(TempSensor::nvme_input_file("/sys/class/hwmon/hwmon5"), s.input);
}

#[test]
fn nvme_models() {
    let out = "smartctl 7.4\n=== START ===\nModel Number:                       WD_BLACK SN850X 2000GB\r\nSerial Number: 123\n";
    assert_eq!(nvme_model(Some(out), Some("other")), Some("WD_BLACK SN850X 2000GB".to_string()));
    assert_eq!(nvme_model(Some("no model here\n"), Some("  Fallback  \n")), Some("Fallback".to_string()));
    assert_eq!(nvme_model(None, Some("   \n")), None);
    assert_eq!(nvme_model(None, None), None);
    assert_eq!(nvme_model(Some("x\nModel Number:"), None), Some(String::new()));
    assert_eq!(nvme_model(Some(" Model Number: A\n"), None), None);
}

#[test]
fn chips_found_by_name_and_sorted() {
    let entries = vec![
        entry("hwmon7", Some("nct6798\n")),
        entry("hwmon1", Some("coretemp\n")),
        entry("hwmon4", Some("nvme\n")),
        entry("hwmon10", Some("nvme\n")),
        entry("hwmon2", None),
        entry("hwmon3", Some("acpitz\n")),
        entry("hwmon0", Some("nvme\n")),
    ];
    assert_eq!(find_chips(HWMON_ROOT, &entries, ChipKind::FanController), vec!["/sys/class/hwmon/hwmon7"]);
    assert_eq!(find_chips(HWMON_ROOT, &entries, ChipKind::CoreTemp), vec!["/sys/class/hwmon/hwmon1"]);
    assert_eq!(
        find_chips(HWMON_ROOT, &entries, ChipKind::Nvme),
        vec!["/sys/class/hwmon/hwmon0", "/sys/class/hwmon/hwmon10", "/sys/class/hwmon/hwmon4"]
    );
    assert!(ChipKind::FanController.matches("nct6775"));
    assert!(!ChipKind::CoreTemp.matches("coretemp2"));
}

#[test]
fn hardware_needs_a_control_sensor() {
    let fans = vec![PwmFan::new("/h", 1, 5), PwmFan::new("/h", 2, 2)];
    let sensors = vec![TempSensor::nvme("/n", "nvme0", None)];
    assert!(matches!(Hardware::assemble(fans, sensors), Err(DiscoverError::NoControlSensor)));
    let fans = vec![PwmFan::new("/h", 1, 5), PwmFan::new("/h", 2, 2)];
    let sensors = vec![
        TempSensor::nvme("/n", "nvme0", None),
        TempSensor::coretemp("/c", 1, Some("Package id 0")),
    ];
    let hw = Hardware::assemble(fans, sensors).unwrap();
    assert_eq!(hw.sensors.len(), 2);
    let writes = hw.restore_auto();
    assert_eq!(writes.len(), 2);
    assert_eq!(writes[0].len(), 1);
    assert_eq!((writes[0][0].path.as_str(), writes[0][0].contents.as_str()), ("/h/pwm1_enable", "5"));
    assert_eq!((writes[1][0].path.as_str(), writes[1][0].contents.as_str()), ("/h/pwm2_enable", "2"));
}

#[test]
fn fan_controller_is_first_nct_chip() {
    let entries = vec![
        entry("hwmon9", Some("nct6798\n")),
        entry("hwmon5", Some("nct6775\n")),
        entry("hwmon1", Some("coretemp\n")),
    ];
    assert_eq!(fan_controller_chip(HWMON_ROOT, &entries).unwrap(), "/sys/class/hwmon/hwmon5");
    let none = vec![entry("hwmon1", Some("coretemp\n"))];
    assert!(matches!(fan_controller_chip(HWMON_ROOT, &none), Err(DiscoverError::NoFanController)));
}

#[test]
fn hardware_curve_writes() {
    let fan = PwmFan::new("/h", 2, 5);
    assert_eq!(fan.auto_point_pwm_file(3), "/h/pwm2_auto_point3_pwm");
    let writes = fan.hardware_curve_writes(&vec![(40_000, 51), (-1_500, 255)]);
    assert_eq!(fan.auto_point_temp_file(1), "/h/pwm2_auto_point1_temp");
    let pairs: Vec<(&str, &str)> = writes.iter().map(|w| (w.path.as_str(), w.contents.as_str())).collect();
    assert_eq!(
        pairs,
        vec![
            ("/h/pwm2_auto_point1_temp", "40000"),
            ("/h/pwm2_auto_point1_pwm", "51"),
            ("/h/pwm2_auto_point2_temp", "-1500"),
            ("/h/pwm2_auto_point2_pwm", "255"),
            ("/h/pwm2_enable", "5"),
        ]
    );
}

#[test]
fn auto_restores_startup_points_then_enable() {
    let mut fan = PwmFan::new("/h", 1, 5);
    fan.original_points = vec![(30_000, 40), (60_000, 128)];
    let pairs: Vec<(String, String)> =
        fan.auto_writes().into_iter().map(|w| (w.path, w.contents)).collect();
    let expected: Vec<(String, String)> = [
        ("/h/pwm1_auto_point1_temp", "30000"),
        ("/h/pwm1_auto_point1_pwm", "40"),
        ("/h/pwm1_auto_point2_temp", "60000"),
        ("/h/pwm1_auto_point2_pwm", "128"),
        ("/h/pwm1_enable", "5"),
    ]
    .iter()
    .map(|(p, c)| (p.to_string(), c.to_string()))
    .collect();
    assert_eq!(pairs, expected);
    let hw = Hardware::assemble(vec![fan], vec![TempSensor::coretemp("/c", 1, Some("Package id 0"))]).unwrap();
    assert_eq!(hw.restore_auto()[0].len(), 5);
}

#[test]
fn assemble_names_missing_control_sensor() {
    match Hardware::assemble(vec![], vec![]) {
        Err(DiscoverError::NoControlSensor) => {}
        other => panic!("unexpected {:?}", other.map(|_| ())),
    }
}
