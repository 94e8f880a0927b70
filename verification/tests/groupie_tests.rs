use std::rc::Rc;

use fischys_fancontrol::groupie::libsensors::{chip_adapter, chip_key, feature_query, sensor_kind_from_feature_type};
use fischys_fancontrol::groupie::lm_sensors::{
    adapter_name, from_lm_sensors_name, parse_reading_key, sensor_readings, ReadingField, MISSING_SEPARATOR, NOT_A_NUMBER,
};
use fischys_fancontrol::groupie::nvidia::check_record_length;
use fischys_fancontrol::controllers::nvml::FanCount;
use fischys_fancontrol::groupie::nvml::{gpu_device_sensors, gpu_sensor_names, GpuQuery};
use fischys_fancontrol::groupie::storage::{PluginStorage, SensorPlugin, SensorStorage, StorageError};
use fischys_fancontrol::groupie::{Adapter, KeyWriter, OwnedKey, Sensor, SensorKey, SensorKind};
use fischys_fancontrol::libsensors::chips::{Bus, BusType, ChipName};
use fischys_fancontrol::libsensors::error::Error as LibsensorsError;
use fischys_fancontrol::libsensors::features::{can_get, can_set, FeatureKind, GenericSubfeature, SubfeatureKind};
use fischys_fancontrol::libsensors::LibSensors;
use fischys_fancontrol::text::TextOrder;

fn adapter(key: &str, name: &str) -> Rc<Adapter> {
    Rc::new(Adapter { key: key.to_string(), name: name.to_string() })
}

fn sensor(adapter: &Rc<Adapter>, name: &str, kind: SensorKind) -> Sensor {
    Sensor { name: name.to_string(), adapter: Rc::clone(adapter), kind }
}

#[test]
fn kind_names_read_back() {
    for k in SensorKind::variants() {
        assert_eq!(SensorKind::from_name(k.name()), Some(k));
    }
    assert_eq!(SensorKind::from_name("voltmeter"), Some(SensorKind::Voltmeter));
    assert_eq!(SensorKind::from_name("Fan"), None);
    assert_eq!(SensorKind::from_name(""), None);
    assert_eq!(SensorKind::variants().len(), 7);
}

#[test]
fn kind_units() {
    assert_eq!(SensorKind::Temperature.get_unit(), "°C");
    assert_eq!(SensorKind::Fan.get_unit(), "RPM");
    assert_eq!(SensorKind::Beep.get_unit(), "");
    assert_eq!(SensorKind::Power.get_unit(), "W");
    assert_eq!(SensorKind::Voltmeter.get_unit(), "V");
    assert_eq!(SensorKind::Current.get_unit(), "A");
    assert_eq!(SensorKind::Energy.get_unit(), "J");
}

#[test]
fn keys_order_adapter_first() {
    let a = ("A", "a");
    let b = ("A", "b");
    let c = ("B", "a");
    assert_eq!(a.cmp_by_sensor_key(b), TextOrder::Less);
    assert_eq!(b.cmp_by_sensor_key(c), TextOrder::Less);
    assert_eq!(a.cmp_by_sensor_key(c), TextOrder::Less);
    assert_eq!(c.cmp_by_sensor_key(a), TextOrder::Greater);
    assert_eq!(b.cmp_by_sensor_key(b), TextOrder::Equal);
    let owned = OwnedKey::from_parts("B", "a");
    assert_eq!(owned.cmp_by_sensor_key(("A", "z")), TextOrder::Greater);
}

#[test]
fn owned_keys() {
    let k = OwnedKey::from_pair(("nct6798-isa-0".to_string(), "fan1".to_string()));
    assert_eq!(k.to_string(), "nct6798-isa-0/fan1");
    assert_eq!(k.get_sensor_name(), "fan1");
    assert_eq!(k.get_adapter_key(), "nct6798-isa-0");
    assert!(k.same_as(&OwnedKey::from_parts("nct6798-isa-0", "fan1")));
    assert!(!k.same_as(&OwnedKey::from_parts("nct6798-isa-0", "fan2")));
    let (a, n) = k.into_pair();
    assert_eq!((a.as_str(), n.as_str()), ("nct6798-isa-0", "fan1"));
    assert_eq!(KeyWriter("x", "y").to_string(), "x/y");
    let s = ("ad".to_string(), "se".to_string());
    assert_eq!(s.display().to_string(), "ad/se");
    assert_eq!(s.get_owned_key().to_string(), "ad/se");
}

#[test]
fn adapters_compare_by_key() {
    let a = Adapter { key: "k".to_string(), name: "one".to_string() };
    let b = Adapter { key: "k".to_string(), name: "two".to_string() };
    let c = Adapter { key: "l".to_string(), name: "one".to_string() };
    assert!(a == b);
    assert!(a != c);
    assert_eq!(a.cmp_by_key(&c), TextOrder::Less);
    assert_eq!(a.to_string(), "one");
}

#[test]
fn duplicated_sensor_shares_adapter() {
    let ad = adapter("gpu", "GPU");
    let s = sensor(&ad, "fan0", SensorKind::Fan);
    let d = s.duplicate();
    assert_eq!(d.name, "fan0");
    assert_eq!(d.kind, SensorKind::Fan);
    assert!(Rc::ptr_eq(&d.adapter, &ad));
    assert_eq!(d.get_sensor_key(), ("gpu", "fan0"));
}

#[test]
fn lm_sensors_names() {
    assert_eq!(from_lm_sensors_name("temp1"), Some(SensorKind::Temperature));
    assert_eq!(from_lm_sensors_name("temp12"), Some(SensorKind::Temperature));
    assert_eq!(from_lm_sensors_name("fan3"), Some(SensorKind::Fan));
    assert_eq!(from_lm_sensors_name("in0"), Some(SensorKind::Voltmeter));
    assert_eq!(from_lm_sensors_name("beep"), Some(SensorKind::Beep));
    assert_eq!(from_lm_sensors_name("power1"), None);
    assert_eq!(from_lm_sensors_name("1temp"), None);
    assert_eq!(from_lm_sensors_name(""), None);
    // non-ASCII letters count as alphabetic
    assert_eq!(from_lm_sensors_name("tempé"), None);
}

#[test]
fn reading_keys() {
    let (kind, field) = parse_reading_key("temp1_input").ok().unwrap();
    assert_eq!(kind, Some(SensorKind::Temperature));
    assert_eq!(field, ReadingField::Input);
    let (kind, field) = parse_reading_key("fan2_min").ok().unwrap();
    assert_eq!((kind, field), (Some(SensorKind::Fan), ReadingField::Min));
    let (kind, field) = parse_reading_key("in0_max_alarm").ok().unwrap();
    assert_eq!((kind, field), (Some(SensorKind::Voltmeter), ReadingField::Max));
    let (kind, field) = parse_reading_key("temp1_crit").ok().unwrap();
    assert_eq!((kind, field), (Some(SensorKind::Temperature), ReadingField::Other));
    let (kind, field) = parse_reading_key("curr1_input").ok().unwrap();
    assert_eq!((kind, field), (None, ReadingField::Input));
    let e = parse_reading_key("temp1").err().unwrap();
    assert_eq!(e.message(), MISSING_SEPARATOR);
}

#[test]
fn sensor_reading_plans() {
    let readings = vec![
        ("curr1_input".to_string(), true),
        ("fan1_input".to_string(), true),
        ("temp1_min".to_string(), true),
        ("fan1_pulses".to_string(), true),
    ];
    let (kind, fields) = sensor_readings(&readings).ok().unwrap();
    assert_eq!(kind, Some(SensorKind::Fan));
    assert_eq!(fields, vec![ReadingField::Input, ReadingField::Input, ReadingField::Min, ReadingField::Other]);

    let (kind, fields) = sensor_readings(&vec![]).ok().unwrap();
    assert_eq!(kind, None);
    assert!(fields.is_empty());

    let not_number = vec![("temp1_input".to_string(), true), ("temp1_max".to_string(), false)];
    assert_eq!(sensor_readings(&not_number).err().unwrap().message(), NOT_A_NUMBER);

    let no_separator = vec![("temp1".to_string(), true), ("temp1_max".to_string(), false)];
    assert_eq!(sensor_readings(&no_separator).err().unwrap().message(), MISSING_SEPARATOR);
}

#[test]
fn bus_types_read_back() {
    for n in -2i16..12 {
        match BusType::from_repr(n) {
            Some(t) => assert_eq!(t.to_repr(), n),
            None => assert!(n < 0 || n > 8),
        }
    }
    assert_eq!(BusType::from_repr(4), Some(BusType::VIRTUAL));
    assert_eq!(BusType::VIRTUAL.str_repr(), "virt");
    assert_eq!(BusType::SCSI.str_repr(), "scsi");
}

#[test]
fn buses_and_chips() {
    let bus = Bus::try_from(1, 0).ok().unwrap();
    assert_eq!(bus.to_string(), "isa-0");
    assert!(Bus::try_from(9, 0).is_err());
    let neg = Bus::try_from(0, -3).ok().unwrap();
    assert_eq!(neg.to_string(), "i2c--3");

    assert_eq!(chip_key("nct6798", &bus, 0x290), "nct6798-isa-0b0@290");
    let i2c = Bus::try_from(0, 5).ok().unwrap();
    assert_eq!(chip_key("lm75", &i2c, 0x48), "lm75-i2c-0b101@48");
    assert_eq!(chip_key("x", &neg, -1), format!("x-i2c-0b{:b}@{:X}", -3i16, -1i32));

    let name = ChipName { prefix: "nct6798".to_string(), bus: Bus::try_from(1, 0).ok().unwrap(), addr: 0x290 };
    assert_eq!(name.to_string(), "nct6798-isa-0-0290");
    let zero = ChipName { prefix: "k10temp".to_string(), bus: Bus::try_from(2, 0).ok().unwrap(), addr: 0xc3 };
    assert_eq!(zero.to_string(), "k10temp-pci-0-c3");
    let none = ChipName { prefix: "acpitz".to_string(), bus: Bus::try_from(5, 0).ok().unwrap(), addr: 0 };
    assert_eq!(none.to_string(), "acpitz-acpi-0-");
}

#[test]
fn chip_adapters() {
    let named = chip_adapter("k".to_string(), Some("Name".to_string()));
    assert_eq!((named.key.as_str(), named.name.as_str()), ("k", "Name"));
    let unnamed = chip_adapter("k".to_string(), None);
    assert_eq!((unnamed.key.as_str(), unnamed.name.as_str()), ("k", "k"));
}

#[test]
fn features_and_subfeatures() {
    assert_eq!(sensor_kind_from_feature_type(FeatureKind::Curr), Some(SensorKind::Current));
    assert_eq!(sensor_kind_from_feature_type(FeatureKind::Humidity), None);
    assert_eq!(GenericSubfeature::Input.to_primitive(FeatureKind::Temp), Some(SubfeatureKind::TempInput));
    assert_eq!(GenericSubfeature::Min.to_primitive(FeatureKind::Energy), None);
    assert_eq!(GenericSubfeature::Max.to_primitive(FeatureKind::Power), Some(SubfeatureKind::PowerMax));

    let q = feature_query(FeatureKind::Fan).unwrap();
    assert_eq!(q.kind, SensorKind::Fan);
    assert_eq!(q.input, SubfeatureKind::FanInput);
    assert_eq!(q.min, Some(SubfeatureKind::FanMin));
    assert_eq!(q.max, Some(SubfeatureKind::FanMax));
    let e = feature_query(FeatureKind::Energy).unwrap();
    assert_eq!((e.min, e.max), (None, None));
    assert!(feature_query(FeatureKind::Humidity).is_none());
    assert!(feature_query(FeatureKind::Vid).is_none());

    assert!(can_get(1) && !can_set(1));
    assert!(can_get(3) && can_set(3));
    assert!(!can_get(2) && can_set(2));
}

#[test]
fn libsensors_status_codes() {
    assert_eq!(LibsensorsError::convert_cint(5).ok(), Some(5));
    assert!(LibsensorsError::convert_cint(-1).is_err());
    assert_eq!(LibsensorsError::convert_cint(0).err().map(|e| e.code), Some(0));
    assert_eq!(LibsensorsError::convert_cint(-2).err().map(|e| e.code), Some(-2));
}

#[test]
fn chip_walk_stops_after_last() {
    let libsensors = LibSensors {};
    let mut it = libsensors.get_chips();
    assert_eq!(it.index(), 0);
    it.record(true);
    it.record(true);
    assert_eq!(it.index(), 2);
    it.record(false);
    assert_eq!(it.index(), 2);
}

#[test]
fn gpu_sensors() {
    let all = gpu_sensor_names(2, true, true);
    let names: Vec<(&str, SensorKind)> = all.iter().map(|(n, k)| (n.as_str(), *k)).collect();
    assert_eq!(
        names,
        vec![
            ("fan0", SensorKind::Fan),
            ("fan1", SensorKind::Fan),
            ("power", SensorKind::Power),
            ("gpu_temperature", SensorKind::Temperature),
        ]
    );
    assert!(gpu_sensor_names(0, false, false).is_empty());
    let twelve = gpu_sensor_names(12, false, true);
    assert_eq!(twelve[11].0, "fan11");
    assert_eq!(twelve.len(), 13);
}

struct FakePlugin {
    adapter: Rc<Adapter>,
    names: Vec<&'static str>,
    readings: Vec<(OwnedKey, u32)>,
    fail_discovery: bool,
    discoveries: usize,
}

impl SensorPlugin<u32> for FakePlugin {
    type Error = String;

    fn discover_sensors(&mut self) -> (Vec<Sensor>, Result<(), String>) {
        self.discoveries += 1;
        let found = self.names.iter().map(|n| sensor(&self.adapter, n, SensorKind::Temperature)).collect();
        (found, if self.fail_discovery { Err("discovery failed".to_string()) } else { Ok(()) })
    }

    fn update(&mut self) -> (Vec<(OwnedKey, u32)>, Result<(), String>) {
        (self.readings.iter().map(|(k, v)| (OwnedKey::from_parts(&k.adapter, &k.name), *v)).collect(), Ok(()))
    }

    fn reports_unknown_sensors(&self) -> bool {
        true
    }
}

#[test]
fn storage_finds_what_plugins_report() {
    let cpu = FakePlugin {
        adapter: adapter("cpu", "CPU"),
        names: vec!["temp1", "temp2"],
        readings: vec![(OwnedKey::from_parts("cpu", "temp1"), 40)],
        fail_discovery: false,
        discoveries: 0,
    };
    let gpu = FakePlugin {
        adapter: adapter("gpu", "GPU"),
        names: vec!["edge"],
        readings: vec![(OwnedKey::from_parts("gpu", "edge"), 55), (OwnedKey::from_parts("gpu", "ghost"), 1)],
        fail_discovery: true,
        discoveries: 0,
    };
    let mut storage = SensorStorage::new(vec![cpu, gpu]);
    assert!(storage.get_sensor(&("cpu", "temp1")).is_none());

    let errors = storage.update().err().unwrap().into_errors();
    assert_eq!(errors.len(), 2);
    let mut plugin_errors = 0;
    let mut unknown = 0;
    for e in &errors {
        match e {
            StorageError::Plugin(m) => {
                assert_eq!(m, "discovery failed");
                plugin_errors += 1;
            },
            StorageError::UnknownSensor(k) => {
                assert_eq!(k.to_string(), "gpu/ghost");
                unknown += 1;
            },
        }
    }
    assert_eq!((plugin_errors, unknown), (1, 1));

    // sensors found even though the discovery reported an error
    assert_eq!(storage.get_sensor(&("gpu", "edge")).unwrap().name, "edge");
    let (s, v) = storage.get_sensor_data(&("cpu", "temp1")).unwrap();
    assert_eq!((s.name.as_str(), *v), ("temp1", 40));
    assert_eq!(*storage.get_sensor_data(&("gpu", "edge")).unwrap().1, 55);
    // registered but never read
    assert!(storage.get_sensor(&("cpu", "temp2")).is_some());
    assert!(storage.get_sensor_data(&("cpu", "temp2")).is_none());
    assert!(storage.get_sensor(&("cpu", "nope")).is_none());

    assert_eq!(storage.iter().len(), 3);
    assert_eq!(storage.iter_sensors().len(), 3);
    assert_eq!(storage.iter_data().len(), 2);

    // discovery happens once; later updates only read
    let second = storage.update();
    assert_eq!(second.err().unwrap().into_errors().len(), 1);
    assert_eq!(storage.iter().len(), 3);
}

#[test]
fn registered_sensors_take_readings() {
    let plugin = FakePlugin { adapter: adapter("x", "X"), names: vec![], readings: vec![], fail_discovery: false, discoveries: 0 };
    let mut storage = SensorStorage::new(vec![plugin]);
    let ad = adapter("chip", "Chip");
    storage.register_sensors(0, vec![sensor(&ad, "temp1", SensorKind::Temperature), sensor(&ad, "temp2", SensorKind::Temperature)]);
    assert!(storage.get_sensor(&("chip", "temp1")).is_some());
    assert!(storage.get_sensor_data(&("chip", "temp1")).is_none());

    let unknown = storage.apply_readings(
        0,
        vec![(OwnedKey::from_parts("chip", "temp1"), 31), (OwnedKey::from_parts("chip", "temp9"), 99), (OwnedKey::from_parts("chip", "temp1"), 32)],
    );
    assert_eq!(unknown.iter().map(|k| k.to_string()).collect::<Vec<_>>(), vec!["chip/temp9".to_string()]);
    // the last reading of a sensor is the one kept
    assert_eq!(*storage.get_sensor_data(&("chip", "temp1")).unwrap().1, 32);
    assert!(storage.get_sensor(&("chip", "temp9")).is_none());
    assert_eq!(storage.iter().len(), 2);
}

#[test]
fn nvidia_smi_records() {
    assert!(check_record_length(5).is_ok());
    assert!(check_record_length(7).is_ok());
    assert_eq!(check_record_length(3), Err("Unexpected record length. Expected 5, found 3".to_string()));
    assert_eq!(check_record_length(0), Err("Unexpected record length. Expected 5, found 0".to_string()));
}

#[test]
fn polls_are_recorded() {
    let plugin = FakePlugin { adapter: adapter("x", "X"), names: vec![], readings: vec![], fail_discovery: false, discoveries: 0 };
    let other = FakePlugin { adapter: adapter("y", "Y"), names: vec![], readings: vec![], fail_discovery: false, discoveries: 0 };
    let mut storage = SensorStorage::new(vec![plugin, other]);
    let ad = adapter("chip", "Chip");
    let found = vec![
        (vec![sensor(&ad, "temp1", SensorKind::Temperature)], Ok(())),
        (vec![], Err("no chips".to_string())),
    ];
    let answers = vec![
        (vec![(OwnedKey::from_parts("chip", "temp1"), 7u32), (OwnedKey::from_parts("chip", "gone"), 8)], Ok(()), true),
        (vec![(OwnedKey::from_parts("chip", "temp1"), 9)], Err("poll failed".to_string()), false),
    ];
    let errors = storage.record_poll(found, answers).err().unwrap().into_errors();
    // discovery failure, then plugin 0's unknown sensor; plugin 1's unknown reading is dropped
    assert_eq!(errors.len(), 3);
    assert!(matches!(&errors[0], StorageError::Plugin(m) if m == "no chips"));
    assert!(matches!(&errors[1], StorageError::UnknownSensor(k) if k.to_string() == "chip/gone"));
    assert!(matches!(&errors[2], StorageError::Plugin(m) if m == "poll failed"));
    assert_eq!(*storage.get_sensor_data(&("chip", "temp1")).unwrap().1, 7);

    // a later poll ignores what is passed as found
    let again = storage.record_poll(vec![], vec![(vec![(OwnedKey::from_parts("chip", "temp1"), 1)], Ok(()), true), (vec![], Ok(()), true)]);
    assert!(again.is_ok());
    assert_eq!(*storage.get_sensor_data(&("chip", "temp1")).unwrap().1, 1);

    assert_eq!(storage.clear_state(&("chip", "temp1")), Some(1));
    assert!(storage.get_sensor_data(&("chip", "temp1")).is_none());
    assert!(storage.get_sensor(&("chip", "temp1")).is_some());
    assert_eq!(storage.clear_state(&("chip", "nope")), None);
}

#[test]
fn adapter_entries() {
    assert_eq!(adapter_name("{}", true, Some("ISA adapter")).ok(), Some("ISA adapter".to_string()));
    assert_eq!(
        adapter_name("3", false, None).err().unwrap().message(),
        "Expected object for adapter, not 3"
    );
    assert_eq!(
        adapter_name("{}", true, None).err().unwrap().message(),
        "Key value Adapter for Adapter not found or of incorrect type"
    );
}

#[test]
fn gpu_device_sensors_follow_the_answers() {
    let (sensors, registered) =
        gpu_device_sensors("GPU-1".to_string(), "Card".to_string(), 3, FanCount::Count(2), true, false).unwrap();
    let names: Vec<&str> = sensors.iter().map(|s| s.name.as_str()).collect();
    assert_eq!(names, vec!["fan0", "fan1", "power"]);
    assert!(sensors.iter().all(|s| s.adapter.key == "GPU-1" && s.adapter.name == "Card"));
    assert_eq!(sensors[2].kind, SensorKind::Power);
    let queries: Vec<GpuQuery> = registered.iter().map(|r| r.2).collect();
    assert_eq!(queries, vec![GpuQuery::Fan(0), GpuQuery::Fan(1), GpuQuery::Power]);
    assert!(registered.iter().all(|r| r.1 == 3 && r.0.adapter == "GPU-1"));
    assert_eq!(registered[1].0.name, "fan1");

    let (sensors, registered) =
        gpu_device_sensors("GPU-2".to_string(), "Other".to_string(), 0, FanCount::NotSupported, false, true).unwrap();
    assert_eq!(sensors.len(), 1);
    assert_eq!(sensors[0].name, "gpu_temperature");
    assert_eq!(sensors[0].kind, SensorKind::Temperature);
    assert_eq!(registered[0].2, GpuQuery::Temperature);

    let failed = gpu_device_sensors(
        "GPU-3".to_string(),
        "Broken".to_string(),
        1,
        FanCount::Failed(nvml_wrapper::error::NvmlError::Uninitialized),
        true,
        true,
    );
    assert!(failed.is_none());
}

#[test]
fn plugin_storage_has_no_state_for_unknown_sensors() {
    let mut storage: PluginStorage<u8> = PluginStorage::new();
    let key = OwnedKey::from_parts("x", "temp1");
    assert!(storage.get_state_mut(&key).is_none());
    assert!(storage.get_both_mut(&key).is_none());
    assert!(storage.put_state(&key, 3).is_err());
    assert!(storage.get_state(&key).is_none());
}
