use std::collections::VecDeque;
use std::rc::Rc;

use fischys_fancontrol::commands::list_sensors::{listing, ListSensorsArgs};
use fischys_fancontrol::controllers::nvml::{fan_key, fans_to_scan, policy_for, runs_automatically, FanCount, FanPolicy};
use fischys_fancontrol::controllers::pwm::{HwmonDirectory, HWMON_PATTERN, PWM_PATTERN};
use fischys_fancontrol::controllers::Pwm;
use fischys_fancontrol::curves::{default_interpolation_mode, interpolation_indices, InterpolationMode, SensorMergeOperation};
use fischys_fancontrol::fan_configuration::Error as ConfigurationError;
use fischys_fancontrol::fan_discovery::{describe_affected, fan_associations, join_borrowed};
use fischys_fancontrol::groupie::{Adapter, OwnedKey, Sensor, SensorKind};
use fischys_fancontrol::ordering::to_ordering;
use fischys_fancontrol::pattern::Pattern;
use fischys_fancontrol::text::{format_signed, TextOrder};
use fischys_fancontrol::utils::{
    display_join, error_group_text, retry_round, return_to_auto, switch_chosen, AutoSwitch, ErrorGroup, ExitStatusError,
    MalformedDataError, SimpleError, MAX_AUTO_RETRIES_ON_EXIT,
};
use fischys_fancontrol::{path_to_config, CONFIG_PATH, CURVES_FILE};

fn strings(v: &[&str]) -> Vec<String> {
    v.iter().map(|s| s.to_string()).collect()
}

#[test]
fn error_group_collects() {
    let mut g: ErrorGroup<&str> = ErrorGroup::new();
    assert!(g.is_empty());
    g.push("a");
    g.push_box(Box::new("b"));
    assert!(!g.is_empty());
    let errors = g.ok().err().unwrap().into_errors();
    assert_eq!(errors, vec!["a", "b"]);
    let empty: ErrorGroup<u8> = ErrorGroup::default();
    assert!(empty.ok().is_ok());
}

#[test]
fn ok_or_store_splits_results() {
    let mut g: ErrorGroup<String> = ErrorGroup::new();
    g.push("before".to_string());
    let results: VecDeque<Result<u32, String>> =
        VecDeque::from(vec![Ok(1), Err("x".to_string()), Ok(2), Err("y".to_string())]);
    let oks = g.ok_or_store(results).collect_oks();
    assert_eq!(oks, vec![1, 2]);
    assert_eq!(g.into_errors(), strings(&["before", "x", "y"]));

    let mut h: ErrorGroup<String> = ErrorGroup::new();
    let all_err: VecDeque<Result<u32, String>> = VecDeque::from(vec![Err("p".to_string()), Err("q".to_string())]);
    assert!(h.ok_or_store(all_err).collect_oks().is_empty());
    assert_eq!(h.into_errors().len(), 2);
}

#[test]
fn collect_oks_into_the_group() {
    let mut g: ErrorGroup<&str> = ErrorGroup::new();
    g.push("old");
    let oks = g.collect_oks(VecDeque::from(vec![Ok(1u8), Err("a"), Ok(2), Err("b")]));
    assert_eq!(oks, vec![1, 2]);
    assert_eq!(g.into_errors(), vec!["old", "a", "b"]);
}

#[test]
fn push_until_ok_stops_at_first_ok() {
    let mut g: ErrorGroup<&str> = ErrorGroup::new();
    let mut q: VecDeque<Result<u32, &str>> = VecDeque::from(vec![Err("e1"), Err("e2"), Ok(5), Err("e3"), Ok(6)]);
    assert_eq!(g.push_until_ok(&mut q), Some(5));
    assert_eq!(q.len(), 2);
    assert_eq!(g.push_until_ok(&mut q), Some(6));
    assert_eq!(g.push_until_ok(&mut q), None);
    assert_eq!(g.into_errors(), vec!["e1", "e2", "e3"]);

    let mut g2: ErrorGroup<&str> = ErrorGroup::new();
    let mut it = g2.ok_or_store(VecDeque::from(vec![Err("a"), Ok(1u8)]));
    assert_eq!(it.next(), Some(1));
    assert_eq!(it.next(), None);
    assert_eq!(g2.into_errors(), vec!["a"]);
}

#[test]
fn error_texts() {
    assert_eq!(SimpleError::new("boom".to_string()).message(), "boom");
    assert_eq!(SimpleError::from_slice("b").message(), "b");
    assert_eq!(SimpleError::new("boom".to_string()).describe(), r#"SimpleError { message: "boom" }"#);
    assert_eq!(SimpleError::from_slice("a \"q\"\n").describe(), format!("SimpleError {{ message: {:?} }}", "a \"q\"\n"));
    assert_eq!(MalformedDataError::new("bad").message(), "bad");
    assert_eq!(MalformedDataError::new_with_string("worse".to_string()).message(), "worse");
    assert_eq!(error_group_text(&strings(&["one", "two"])), "ErrorGroup[\n  - one,  - two,]");
    assert_eq!(error_group_text(&vec![]), "ErrorGroup[\n]");
    let cfg = ConfigurationError::new("no fans".to_string());
    assert_eq!(cfg.to_string(), "Error(FanConfiguration: no fans)");
}

#[test]
fn exit_status_descriptions() {
    let e = ExitStatusError { code: Some(2), stderr: b"no sensors found\n".to_vec() };
    assert_eq!(e.describe(), "Exit with code Some(2): no sensors found\n");
    let neg = ExitStatusError { code: Some(-11), stderr: vec![] };
    assert_eq!(neg.describe(), "Exit with code Some(-11): ");
    let killed = ExitStatusError { code: None, stderr: vec![0x66, 0xff, 0x6f] };
    assert_eq!(killed.describe(), "Exit with code None: f\u{fffd}o");
    let min = ExitStatusError { code: Some(i32::MIN), stderr: vec![] };
    assert_eq!(min.describe(), format!("Exit with code {:?}: ", Some(i32::MIN)));
}

#[test]
fn joins() {
    let items = strings(&["a", "b", "c"]);
    assert_eq!(display_join(&items, ", ").render(), "a, b, c");
    assert_eq!(display_join(&items[..1], ", ").render(), "a");
    assert_eq!(display_join(&[], ", ").render(), "");
    assert_eq!(join_borrowed(&vec!["fan1", "fan2"], ' '), "fan1 fan2 ");
    assert_eq!(join_borrowed(&vec![], ' '), "");
}

struct Flaky {
    failures_left: u32,
    auto: bool,
}

impl AutoSwitch for Flaky {
    type Error = ();

    fn set_auto(&mut self, auto: bool) -> Result<(), ()> {
        if self.failures_left > 0 {
            self.failures_left -= 1;
            Err(())
        } else {
            self.auto = auto;
            Ok(())
        }
    }
}

#[test]
fn returning_to_auto_retries() {
    let mut controllers = vec![
        Flaky { failures_left: 0, auto: false },
        Flaky { failures_left: 3, auto: false },
        Flaky { failures_left: 100, auto: false },
    ];
    let failed = return_to_auto(&mut controllers);
    assert_eq!(failed, 1);
    assert!(controllers[0].auto && controllers[1].auto && !controllers[2].auto);
    assert_eq!(controllers[2].failures_left, 100 - MAX_AUTO_RETRIES_ON_EXIT as u32);
    let mut none: Vec<Flaky> = vec![];
    assert_eq!(return_to_auto(&mut none), 0);

    assert_eq!(retry_round(&vec![4, 7, 9], &vec![true, false, false]), vec![7, 9]);
    assert!(retry_round(&vec![], &vec![]).is_empty());
}

#[test]
fn switching_chosen_controllers_goes_on_past_failures() {
    let mut controllers = vec![
        Flaky { failures_left: 1, auto: true },
        Flaky { failures_left: 0, auto: true },
        Flaky { failures_left: 2, auto: true },
        Flaky { failures_left: 0, auto: true },
    ];
    let outcome = switch_chosen(&mut controllers, &vec![0, 2, 3], false);
    let errors = outcome.err().unwrap().into_errors();
    assert_eq!(errors.len(), 2);
    assert!(controllers[0].auto && controllers[1].auto && controllers[2].auto && !controllers[3].auto);
    assert_eq!(controllers[0].failures_left, 0);
    assert_eq!(controllers[2].failures_left, 1);

    assert!(switch_chosen(&mut controllers, &vec![0, 1], false).is_ok());
    assert!(!controllers[0].auto && !controllers[1].auto);
    assert!(switch_chosen(&mut controllers, &vec![], true).is_ok());
}

#[test]
fn pwm_scan_finds_sorted_controls() {
    let hwmon = Pattern::new(HWMON_PATTERN).ok().unwrap();
    let pwm = Pattern::new(PWM_PATTERN).ok().unwrap();
    let dirs = vec![
        HwmonDirectory {
            name: "hwmon2".to_string(),
            path: "/sys/class/hwmon/hwmon2".to_string(),
            files: strings(&["pwm2", "pwm1", "pwm1_enable", "fan1_input", "pwm0"]),
        },
        HwmonDirectory { name: "power".to_string(), path: "/sys/class/hwmon/power".to_string(), files: strings(&["pwm1"]) },
        HwmonDirectory {
            name: "hwmon1".to_string(),
            path: "/sys/class/hwmon/hwmon1".to_string(),
            files: strings(&["pwm10", "pwm3"]),
        },
    ];
    let found = Pwm::scan(dirs, &hwmon, &pwm);
    let paths: Vec<String> = found.iter().map(|p| p.base_path()).collect();
    assert_eq!(
        paths,
        strings(&[
            "/sys/class/hwmon/hwmon1/pwm10",
            "/sys/class/hwmon/hwmon1/pwm3",
            "/sys/class/hwmon/hwmon2/pwm1",
            "/sys/class/hwmon/hwmon2/pwm2",
        ])
    );
    assert_eq!(found[0].get_key(), "pwm10");
    assert_eq!(found[2].special_file("enable"), "/sys/class/hwmon/hwmon2/pwm1_enable");
    assert!(Pwm::is_monitor_dir("hwmon0", &hwmon));
    assert!(!Pwm::is_monitor_dir("hwmon", &hwmon));
    assert!(Pwm::scan(vec![], &hwmon, &pwm).is_empty());
}

#[test]
fn hwmon_scan_uses_the_hwmon_patterns() {
    let dirs = vec![
        HwmonDirectory { name: "hwmon0".to_string(), path: "/h/hwmon0".to_string(), files: strings(&["pwm2", "pwm1", "pwm0", "pwm1_enable"]) },
        HwmonDirectory { name: "nothwmon".to_string(), path: "/h/nothwmon".to_string(), files: strings(&["pwm1"]) },
    ];
    let found = Pwm::scan_hwmon(dirs).ok().unwrap();
    let paths: Vec<String> = found.iter().map(|p| p.base_path()).collect();
    assert_eq!(paths, strings(&["/h/hwmon0/pwm1", "/h/hwmon0/pwm2"]));
}

#[test]
fn pwm_files() {
    assert_eq!(Pwm::auto_from_enable("1\n"), Some(false));
    assert_eq!(Pwm::auto_from_enable("2"), Some(true));
    assert_eq!(Pwm::auto_from_enable(" 5 "), Some(true));
    assert_eq!(Pwm::auto_from_enable("0"), Some(false));
    assert_eq!(Pwm::auto_from_enable("256"), None);
    assert_eq!(Pwm::auto_from_enable("auto"), None);
    assert_eq!(Pwm::enable_value(true), "5");
    assert_eq!(Pwm::enable_value(false), "1");
    assert_eq!(Pwm::value_text(0), "0");
    assert_eq!(Pwm::value_text(255), "255");
    let p = Pwm::new("/d".to_string(), "pwm4".to_string());
    assert_eq!(p.base_path(), "/d/pwm4");
}

#[test]
fn gpu_fan_policies() {
    assert!(runs_automatically(FanPolicy::TemperatureContinousSw));
    assert!(!runs_automatically(FanPolicy::Manual));
    assert_eq!(policy_for(true), FanPolicy::TemperatureContinousSw);
    assert_eq!(policy_for(false), FanPolicy::Manual);
}

#[test]
fn curve_brackets() {
    // points 10, 20, 30 with sensor value 25: 10 and 20 lie at or below
    assert_eq!(interpolation_indices(&vec![true, true, false]), (Some(1), Some(2)));
    // below all points
    assert_eq!(interpolation_indices(&vec![false, false, false]), (None, Some(0)));
    // above all points
    assert_eq!(interpolation_indices(&vec![true, true, true]), (Some(2), None));
    // unsorted curve: the last point at or below wins
    assert_eq!(interpolation_indices(&vec![true, false, true, false]), (Some(2), Some(3)));
    assert_eq!(interpolation_indices(&vec![]), (None, Some(0)));
    assert_eq!(default_interpolation_mode(), InterpolationMode::LinearInterpolation);
    assert!(SensorMergeOperation::SUM.has_identity());
    assert!(SensorMergeOperation::PRODUCT.has_identity());
    assert!(!SensorMergeOperation::MEDIAN.has_identity());
    assert!(!SensorMergeOperation::MIN.has_identity());
}

#[test]
fn configuration_paths() {
    assert_eq!(path_to_config(CURVES_FILE), "/etc/fischys-fancontrol/fan-curves.json");
    assert_eq!(path_to_config("/abs"), "/abs");
    assert_eq!(CONFIG_PATH, "/etc/fischys-fancontrol");
}

#[test]
fn orderings_and_signed_numbers() {
    assert_eq!(to_ordering(TextOrder::Less), std::cmp::Ordering::Less);
    assert_eq!(to_ordering(TextOrder::Equal), std::cmp::Ordering::Equal);
    assert_eq!(to_ordering(TextOrder::Greater), std::cmp::Ordering::Greater);
    for v in [0i64, 7, -7, i64::MAX, i64::MIN] {
        assert_eq!(format_signed(v), v.to_string());
    }
}

fn sensor(adapter: &Rc<Adapter>, name: &str, kind: SensorKind) -> Sensor {
    Sensor { name: name.to_string(), adapter: Rc::clone(adapter), kind }
}

#[test]
fn sensor_listing_is_sorted_and_grouped() {
    let b = Rc::new(Adapter { key: "b".to_string(), name: "B".to_string() });
    let a = Rc::new(Adapter { key: "a".to_string(), name: "A".to_string() });
    let sensors = vec![
        sensor(&b, "temp1", SensorKind::Temperature),
        sensor(&a, "fan2", SensorKind::Fan),
        sensor(&a, "fan1", SensorKind::Fan),
        sensor(&b, "fan1", SensorKind::Fan),
    ];
    let refs: Vec<&Sensor> = sensors.iter().collect();
    let all = ListSensorsArgs { kind: None, adapter_key: None, sensor_key: None, repeat_interval: None };
    assert_eq!(listing(&refs, &all), vec![(2, true), (1, false), (3, true), (0, false)]);

    let fans = ListSensorsArgs { kind: Some(SensorKind::Fan), adapter_key: None, sensor_key: None, repeat_interval: None };
    assert_eq!(listing(&refs, &fans), vec![(2, true), (1, false), (3, true)]);

    // `adapter_key` filters sensor names, `sensor_key` filters adapter keys
    let by_name = ListSensorsArgs {
        kind: None,
        adapter_key: Some(Pattern::new("^fan1$").ok().unwrap()),
        sensor_key: Some(Pattern::new("^b$").ok().unwrap()),
        repeat_interval: None,
    };
    assert_eq!(listing(&refs, &by_name), vec![(3, true)]);
    assert!(by_name.should_list(&sensors[3]));
    assert!(!by_name.should_list(&sensors[2]));
    assert!(listing(&vec![], &all).is_empty());
}

#[test]
fn fan_associations_from_measurements() {
    let fans = vec![OwnedKey::from_parts("nct", "fan1"), OwnedKey::from_parts("nct", "fan2"), OwnedKey::from_parts("gpu", "fan0")];
    let pwms = strings(&["pwm1", "pwm2", "pwm3"]);
    let influence = vec![vec![1], vec![], vec![0, 2]];
    let assoc = fan_associations(&pwms, &fans, &influence);
    assert_eq!(assoc.len(), 3);
    assert_eq!(assoc[0].pwm, "pwm1");
    assert_eq!(assoc[0].fans.iter().map(|k| k.to_string()).collect::<Vec<_>>(), strings(&["nct/fan2"]));
    assert!(assoc[1].fans.is_empty());
    assert_eq!(assoc[2].fans.iter().map(|k| k.to_string()).collect::<Vec<_>>(), strings(&["nct/fan1", "gpu/fan0"]));
    assert_eq!(describe_affected(&fans, &vec![2, 0]), "gpu/fan0 nct/fan1 ");
    assert_eq!(describe_affected(&fans, &vec![]), "");
}

#[test]
fn enable_value_reads_back() {
    for auto in [true, false] {
        assert_eq!(Pwm::auto_from_enable(Pwm::enable_value(auto)), Some(auto));
    }
}

#[test]
fn nvidia_fan_keys_and_counts() {
    assert_eq!(fan_key("GPU-abc", 0), "GPU-abc/0");
    assert_eq!(fan_key("GPU-abc", 12), "GPU-abc/12");
    assert_eq!(fans_to_scan(FanCount::Count(3)).ok(), Some(3));
    assert_eq!(fans_to_scan(FanCount::NotSupported).ok(), Some(0));
    assert!(matches!(
        fans_to_scan(FanCount::Failed(nvml_wrapper::error::NvmlError::NoPermission)),
        Err(nvml_wrapper::error::NvmlError::NoPermission)
    ));
}
