//! Which sensors an NVIDIA GPU offers through NVML.

use std::rc::Rc;
use vstd::prelude::*;

use nvml_wrapper::enum_wrappers::device::TemperatureSensor;
use nvml_wrapper::error::NvmlError;
use nvml_wrapper::{Device, Nvml};

use super::{share, Adapter, KeyView, OwnedKey, Sensor, SensorKey, SensorKind};
use crate::controllers::nvml::{device_index, device_uuid, num_fans, FanCount};
use crate::nvml_extensions::{DeviceIterator, NvmlExtensions};
use crate::text::{format_radix, radix_text};

verus! {

/// The name of the sensor for fan `i` of a GPU.
pub open spec fn gpu_fan_name(i: nat) -> Seq<char> {
    seq!['f', 'a', 'n'] + radix_text(i, 10, false)
}

/// The sensors of a GPU, by name and kind: one per fan (`fan0`, `fan1`, ...), then `power`
/// where power usage can be read, then `gpu_temperature` where the core temperature can be read.
pub open spec fn gpu_sensors(fan_count: nat, power_supported: bool, temperature_supported: bool) -> Seq<(Seq<char>, SensorKind)> {
    let fans = Seq::new(fan_count, |i: int| (gpu_fan_name(i as nat), SensorKind::Fan));
    let with_power = if power_supported {
        fans.push((seq!['p', 'o', 'w', 'e', 'r'], SensorKind::Power))
    } else {
        fans
    };
    if temperature_supported {
        with_power.push((seq!['g', 'p', 'u', '_', 't', 'e', 'm', 'p', 'e', 'r', 'a', 't', 'u', 'r', 'e'], SensorKind::Temperature))
    } else {
        with_power
    }
}

/// The sensors to register for a GPU with `fan_count` fans (see [`gpu_sensors`]).
pub fn gpu_sensor_names(fan_count: u32, power_supported: bool, temperature_supported: bool) -> (r: Vec<(String, SensorKind)>)
    ensures
        r@.map_values(|x: (String, SensorKind)| (x.0@, x.1)) == gpu_sensors(fan_count as nat, power_supported, temperature_supported),
{
    let mut out: Vec<(String, SensorKind)> = Vec::new();
    proof {
        reveal_strlit("fan");
        reveal_strlit("power");
        reveal_strlit("gpu_temperature");
        assert("fan"@ == seq!['f', 'a', 'n']);
        assert("power"@ == seq!['p', 'o', 'w', 'e', 'r']);
        assert("gpu_temperature"@ == seq!['g', 'p', 'u', '_', 't', 'e', 'm', 'p', 'e', 'r', 'a', 't', 'u', 'r', 'e']);
    }
    for i in 0..fan_count
        invariant
            out@.map_values(|x: (String, SensorKind)| (x.0@, x.1)) == Seq::new(i as nat, |j: int| (gpu_fan_name(j as nat), SensorKind::Fan)),
    {
        proof {
            reveal_strlit("fan");
            assert("fan"@ == seq!['f', 'a', 'n']);
        }
        let mut name = String::from_str("fan");
        let digits = format_radix(i as u64, 10, false);
        name.append(digits.as_str());
        assert(name@ == gpu_fan_name(i as nat));
        let ghost before = out@.map_values(|x: (String, SensorKind)| (x.0@, x.1));
        out.push((name, SensorKind::Fan));
        proof {
            assert(out@.map_values(|x: (String, SensorKind)| (x.0@, x.1)) =~= before.push((gpu_fan_name(i as nat), SensorKind::Fan)));
            assert(Seq::new((i + 1) as nat, |j: int| (gpu_fan_name(j as nat), SensorKind::Fan)) =~= before.push((gpu_fan_name(i as nat), SensorKind::Fan)));
        }
    }
    if power_supported {
        let ghost before = out@.map_values(|x: (String, SensorKind)| (x.0@, x.1));
        let name = String::from_str("power");
        assert(name@ == seq!['p', 'o', 'w', 'e', 'r']);
        out.push((name, SensorKind::Power));
        proof {
            assert(out@.map_values(|x: (String, SensorKind)| (x.0@, x.1)) =~= before.push((seq!['p', 'o', 'w', 'e', 'r'], SensorKind::Power)));
        }
    }
    if temperature_supported {
        let ghost before = out@.map_values(|x: (String, SensorKind)| (x.0@, x.1));
        let name = String::from_str("gpu_temperature");
        assert(name@ == seq!['g', 'p', 'u', '_', 't', 'e', 'm', 'p', 'e', 'r', 'a', 't', 'u', 'r', 'e']);
        out.push((name, SensorKind::Temperature));
        proof {
            assert(out@.map_values(|x: (String, SensorKind)| (x.0@, x.1)) =~= before.push((seq!['g', 'p', 'u', '_', 't', 'e', 'm', 'p', 'e', 'r', 'a', 't', 'u', 'r', 'e'], SensorKind::Temperature)));
        }
    }
    out
}

/// Which value of a GPU a sensor reads.
#[derive(Debug, Clone, Copy, PartialEq, Eq, Structural)]
pub enum GpuQuery {
    /// The speed of the fan with this index.
    Fan(u32),
    /// The power usage.
    Power,
    /// The core temperature.
    Temperature,
}

/// How many fans NVML's answer stands for: none where the GPU does not report its fans,
/// nothing where asking failed.
pub open spec fn reported_fans(fans: FanCount) -> Option<nat> {
    match fans {
        FanCount::Count(n) => Some(n as nat),
        FanCount::NotSupported => Some(0),
        FanCount::Failed(_) => None,
    }
}

/// What the sensor at position `i` of [`gpu_sensors`] reads for a GPU with `fan_count` fans.
pub open spec fn gpu_query_at(i: int, fan_count: nat, power_supported: bool) -> GpuQuery {
    if i < fan_count {
        GpuQuery::Fan(i as u32)
    } else if i == fan_count && power_supported {
        GpuQuery::Power
    } else {
        GpuQuery::Temperature
    }
}

/// What NVML reported of one GPU: its UUID, its name, its index, how many fans it has, and
/// whether its power usage and its core temperature can be read.
pub type GpuReport = (Seq<char>, Seq<char>, u32, nat, bool, bool);

/// A sensor as (adapter key, adapter name, sensor name, kind).
pub open spec fn sensor_view(s: Sensor) -> (Seq<char>, Seq<char>, Seq<char>, SensorKind) {
    (s.adapter.key@, s.adapter.name@, s.name@, s.kind)
}

/// A registered GPU sensor as (sensor key, device index, what it reads).
pub open spec fn registration_view(x: (OwnedKey, u32, GpuQuery)) -> (KeyView, u32, GpuQuery) {
    (x.0@, x.1, x.2)
}

/// The sensors of a reported GPU, in the order of [`gpu_sensors`], on an adapter keyed by
/// the GPU's UUID and named by its name.
pub open spec fn report_sensors(g: GpuReport) -> Seq<(Seq<char>, Seq<char>, Seq<char>, SensorKind)> {
    let names = gpu_sensors(g.3, g.4, g.5);
    Seq::new(names.len(), |i: int| (g.0, g.1, names[i].0, names[i].1))
}

/// The registrations of a reported GPU: each of its sensors with the GPU's index and what
/// the sensor reads (fan `i` reads the speed of fan `i`).
pub open spec fn report_registrations(g: GpuReport) -> Seq<(KeyView, u32, GpuQuery)> {
    let names = gpu_sensors(g.3, g.4, g.5);
    Seq::new(names.len(), |i: int| ((g.0, names[i].0), g.2, gpu_query_at(i, g.3, g.4)))
}

/// The sensors of the reported GPUs, GPU after GPU.
pub open spec fn reports_sensors(gs: Seq<GpuReport>) -> Seq<(Seq<char>, Seq<char>, Seq<char>, SensorKind)>
    decreases gs.len(),
{
    if gs.len() == 0 {
        Seq::empty()
    } else {
        reports_sensors(gs.drop_last()) + report_sensors(gs.last())
    }
}

/// The registrations of the reported GPUs, GPU after GPU.
pub open spec fn reports_registrations(gs: Seq<GpuReport>) -> Seq<(KeyView, u32, GpuQuery)>
    decreases gs.len(),
{
    if gs.len() == 0 {
        Seq::empty()
    } else {
        reports_registrations(gs.drop_last()) + report_registrations(gs.last())
    }
}

/// The sensors of one GPU and what each reads, from what NVML answered about it: nothing
/// where asking for its fans failed; else its sensors (see [`gpu_sensors`], a GPU that does not
/// report its fans has none) on an adapter keyed by `uuid` and named `name`, each registered
/// with the GPU's `index`, fan `i` reading the speed of fan `i`.
pub fn gpu_device_sensors(
    uuid: String,
    name: String,
    index: u32,
    fans: FanCount,
    power_supported: bool,
    temperature_supported: bool,
) -> (r: Option<(Vec<Sensor>, Vec<(OwnedKey, u32, GpuQuery)>)>)
    ensures
        reported_fans(fans) is None <==> r is None,
        r matches Some((sensors, registered)) ==> {
            let g = (uuid@, name@, index, reported_fans(fans)->0, power_supported, temperature_supported);
            &&& sensors@.map_values(|s: Sensor| sensor_view(s)) == report_sensors(g)
            &&& registered@.map_values(|x: (OwnedKey, u32, GpuQuery)| registration_view(x)) == report_registrations(g)
        },
{
    let fan_count: u32 = match fans {
        FanCount::Count(n) => n,
        FanCount::NotSupported => 0,
        FanCount::Failed(_) => {
            return None;
        },
    };
    let ghost g = (uuid@, name@, index, fan_count as nat, power_supported, temperature_supported);
    let names = gpu_sensor_names(fan_count, power_supported, temperature_supported);
    let adapter = Rc::new(Adapter { key: uuid, name });
    let mut sensors: Vec<Sensor> = Vec::new();
    let mut registered: Vec<(OwnedKey, u32, GpuQuery)> = Vec::new();
    let m = names.len();
    let ghost expected = gpu_sensors(fan_count as nat, power_supported, temperature_supported);
    for i in 0..m
        invariant
            m == names@.len(),
            expected == gpu_sensors(fan_count as nat, power_supported, temperature_supported),
            names@.map_values(|x: (String, SensorKind)| (x.0@, x.1)) == expected,
            g == (adapter.key@, adapter.name@, index, fan_count as nat, power_supported, temperature_supported),
            sensors@.map_values(|s: Sensor| sensor_view(s)) == report_sensors(g).take(i as int),
            registered@.map_values(|x: (OwnedKey, u32, GpuQuery)| registration_view(x)) == report_registrations(g).take(i as int),
    {
        assert(names@.map_values(|x: (String, SensorKind)| (x.0@, x.1))[i as int] == (names@[i as int].0@, names@[i as int].1));
        let sensor_name = names[i].0.clone();
        let kind = names[i].1;
        let query = if (i as u64) < (fan_count as u64) {
            GpuQuery::Fan(i as u32)
        } else if (i as u64) == (fan_count as u64) && power_supported {
            GpuQuery::Power
        } else {
            GpuQuery::Temperature
        };
        let sensor = Sensor { name: sensor_name, adapter: share(&adapter), kind };
        let key = sensor.get_owned_key();
        let ghost s_before = sensors@.map_values(|s: Sensor| sensor_view(s));
        let ghost r_before = registered@.map_values(|x: (OwnedKey, u32, GpuQuery)| registration_view(x));
        registered.push((key, index, query));
        sensors.push(sensor);
        proof {
            assert(sensors@.map_values(|s: Sensor| sensor_view(s)) =~= s_before.push(report_sensors(g)[i as int]));
            assert(report_sensors(g).take(i + 1) =~= report_sensors(g).take(i as int).push(report_sensors(g)[i as int]));
            assert(registered@.map_values(|x: (OwnedKey, u32, GpuQuery)| registration_view(x)) =~= r_before.push(report_registrations(g)[i as int]));
            assert(report_registrations(g).take(i + 1) =~= report_registrations(g).take(i as int).push(report_registrations(g)[i as int]));
        }
    }
    proof {
        assert(report_sensors(g).take(m as int) =~= report_sensors(g));
        assert(report_registrations(g).take(m as int) =~= report_registrations(g));
    }
    Some((sensors, registered))
}

/// The product name of `device` (calls `Device::name`). What the driver answers is not stated.
#[verifier::external_body]
fn device_name(device: &Device) -> (r: Result<String, NvmlError>) {
    device.name()
}

/// Whether NVML can read the power usage of `device` (calls `Device::power_usage`): false
/// exactly when it answers `NotSupported`. What the driver answers is not stated.
#[verifier::external_body]
fn power_usage_supported(device: &Device) -> (r: bool) {
    match device.power_usage() {
        Err(NvmlError::NotSupported) => false,
        _ => true,
    }
}

/// Whether NVML can read the core temperature of `device` (calls `Device::temperature` for
/// the GPU die): false exactly when it answers `NotSupported`. What the driver answers is
/// not stated.
#[verifier::external_body]
fn core_temperature_supported(device: &Device) -> (r: bool) {
    match device.temperature(TemperatureSensor::Gpu) {
        Err(NvmlError::NotSupported) => false,
        _ => true,
    }
}

/// The sensors of every GPU that NVML reports, and what each reads. A GPU about which
/// NVML answers with an error (its UUID, name, index or fan count) is skipped; it does not
/// end the walk. The error is that of asking for the GPUs at all, where that fails, and then
/// nothing is found. The GPUs' sensors are those of [`gpu_device_sensors`], GPU after GPU;
/// which GPUs there are and what they report is the driver's answer.
pub fn discover_gpu_sensors(nvml: &Nvml) -> (r: (Vec<Sensor>, Vec<(OwnedKey, u32, GpuQuery)>, Result<(), NvmlError>))
    ensures
        r.2 is Err ==> r.0@.len() == 0 && r.1@.len() == 0,
        r.2 is Ok ==> exists|reports: Seq<GpuReport>| {
            &&& #[trigger] reports_sensors(reports) == r.0@.map_values(|s: Sensor| sensor_view(s))
            &&& reports_registrations(reports) == r.1@.map_values(|x: (OwnedKey, u32, GpuQuery)| registration_view(x))
        },
{
    let mut found: Vec<Sensor> = Vec::new();
    let mut registered: Vec<(OwnedKey, u32, GpuQuery)> = Vec::new();
    let mut devices: DeviceIterator = match nvml.get_devices() {
        Ok(it) => it,
        Err(e) => {
            return (found, registered, Err(e));
        },
    };
    let ghost mut reports: Seq<GpuReport> = Seq::empty();
    let mut remaining: u32 = devices.size_hint();
    loop
        invariant
            devices.position() <= devices.count(),
            remaining as int == devices.count() - devices.position(),
            reports_sensors(reports) == found@.map_values(|s: Sensor| sensor_view(s)),
            reports_registrations(reports) == registered@.map_values(|x: (OwnedKey, u32, GpuQuery)| registration_view(x)),
        decreases remaining,
    {
        let device = match devices.next() {
            None => {
                break;
            },
            Some(answer) => {
                remaining = remaining - 1;
                match answer {
                    Ok(d) => d,
                    Err(_) => {
                        continue;
                    },
                }
            },
        };
        let uuid = match device_uuid(&device) {
            Ok(u) => u,
            Err(_) => {
                continue;
            },
        };
        let name = match device_name(&device) {
            Ok(n) => n,
            Err(_) => {
                continue;
            },
        };
        let index = match device_index(&device) {
            Ok(i) => i,
            Err(_) => {
                continue;
            },
        };
        let fans = num_fans(&device);
        let power = power_usage_supported(&device);
        let temperature = core_temperature_supported(&device);
        let ghost g = (uuid@, name@, index, reported_fans(fans)->0, power, temperature);
        match gpu_device_sensors(uuid, name, index, fans, power, temperature) {
            None => {},
            Some((mut sensors, mut regs)) => {
                let ghost fb = found@;
                let ghost rb = registered@;
                let ghost sv = sensors@;
                let ghost rv = regs@;
                found.append(&mut sensors);
                registered.append(&mut regs);
                proof {
                    let next = reports.push(g);
                    assert(next.drop_last() == reports);
                    assert(found@.map_values(|s: Sensor| sensor_view(s)) =~= fb.map_values(|s: Sensor| sensor_view(s))
                        + sv.map_values(|s: Sensor| sensor_view(s)));
                    assert(registered@.map_values(|x: (OwnedKey, u32, GpuQuery)| registration_view(x))
                        =~= rb.map_values(|x: (OwnedKey, u32, GpuQuery)| registration_view(x))
                        + rv.map_values(|x: (OwnedKey, u32, GpuQuery)| registration_view(x)));
                    reports = next;
                }
            },
        }
    }
    (found, registered, Ok(()))
}

} // verus!
