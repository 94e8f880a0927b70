//! The libsensors sensor plugin's naming rules: chip keys, adapters and sensor kinds.

use vstd::prelude::*;

use super::{Adapter, SensorKind};
use crate::libsensors::chips::{bus_type_name, Bus};
use crate::libsensors::features::{subfeature_for, FeatureKind, GenericSubfeature, SubfeatureKind};
use crate::text::{concat_str, format_radix, push_char, radix_text};

verus! {

/// `v` as an unsigned number of `bits` bits in two's complement.
pub open spec fn twos_complement(v: int, bits: nat) -> nat {
    if v < 0 {
        (v + vstd::arithmetic::power2::pow2(bits)) as nat
    } else {
        v as nat
    }
}

/// The key that identifies a chip: `<prefix>-<bus type>-0b<bus number in binary>@<address in
/// upper-case hexadecimal>` (negative numbers are written in two's complement, as `{:b}` and
/// `{:X}` do).
pub open spec fn chip_key_text(prefix: Seq<char>, bus: Bus, addr: i32) -> Seq<char> {
    prefix + seq!['-'] + bus_type_name(bus.type_) + seq!['-', '0', 'b'] + radix_text(
        twos_complement(bus.nr as int, 16),
        2,
        false,
    ) + seq!['@'] + radix_text(twos_complement(addr as int, 32), 16, true)
}

/// Builds the key that identifies a chip from its name prefix, bus and address.
pub fn chip_key(prefix: &str, bus: &Bus, addr: i32) -> (r: String)
    ensures
        r@ == chip_key_text(prefix@, *bus, addr),
{
    let mut s = concat_str(prefix, "-");
    proof {
        reveal_strlit("-");
        reveal_strlit("-0b");
        vstd::arithmetic::power2::lemma2_to64();
    }
    s.append(bus.type_.str_repr());
    s.append("-0b");
    let nr: u64 = if bus.nr < 0 { (bus.nr as i64 + 65536) as u64 } else { bus.nr as u64 };
    let nr_text = format_radix(nr, 2, false);
    s.append(nr_text.as_str());
    push_char(&mut s, '@');
    let a: u64 = if addr < 0 { (addr as i64 + 0x1_0000_0000i64) as u64 } else { addr as u64 };
    let addr_text = format_radix(a, 16, true);
    s.append(addr_text.as_str());
    s
}

/// The adapter of a chip: keyed by the chip key, named by the chip's name,
/// or by its key if it has no name.
pub fn chip_adapter(key: String, name: Option<String>) -> (r: Adapter)
    ensures
        r.key@ == key@,
        name matches Some(n) ==> r.name@ == n@,
        name is None ==> r.name@ == key@,
{
    let display = match name {
        Some(n) => n,
        None => key.clone(),
    };
    Adapter { name: display, key }
}

/// The sensor kind of each feature kind that is read as a sensor.
pub open spec fn feature_sensor_kind(feature_type: FeatureKind) -> Option<SensorKind> {
    match feature_type {
        FeatureKind::Curr => Some(SensorKind::Current),
        FeatureKind::Energy => Some(SensorKind::Energy),
        FeatureKind::Fan => Some(SensorKind::Fan),
        FeatureKind::In => Some(SensorKind::Voltmeter),
        FeatureKind::Power => Some(SensorKind::Power),
        FeatureKind::Temp => Some(SensorKind::Temperature),
        _ => None,
    }
}

/// Each libsensors feature that measures something is read as a sensor of the kind it
/// measures: temperature, fan speed, voltage, power, energy and current. Humidity, VID,
/// intrusion, beep-enable and unknown features are not read. Every feature that is read has an
/// input subfeature, so [`feature_query`] finds something to read for each of them.
pub proof fn measured_features_are_read_as_their_kind()
    ensures
        feature_sensor_kind(FeatureKind::Temp) == Some(SensorKind::Temperature),
        feature_sensor_kind(FeatureKind::Fan) == Some(SensorKind::Fan),
        feature_sensor_kind(FeatureKind::In) == Some(SensorKind::Voltmeter),
        feature_sensor_kind(FeatureKind::Power) == Some(SensorKind::Power),
        feature_sensor_kind(FeatureKind::Energy) == Some(SensorKind::Energy),
        feature_sensor_kind(FeatureKind::Curr) == Some(SensorKind::Current),
        feature_sensor_kind(FeatureKind::Humidity) is None,
        feature_sensor_kind(FeatureKind::Vid) is None,
        feature_sensor_kind(FeatureKind::Intrusion) is None,
        feature_sensor_kind(FeatureKind::BeepEnable) is None,
        feature_sensor_kind(FeatureKind::Unknown) is None,
        forall|f: FeatureKind| #[trigger] feature_sensor_kind(f) is Some ==> subfeature_for(GenericSubfeature::Input, f) is Some,
{
}

/// The sensor kind of a feature, or `None` for features that are not read as sensors.
pub fn sensor_kind_from_feature_type(feature_type: FeatureKind) -> (r: Option<SensorKind>)
    ensures
        r == feature_sensor_kind(feature_type),
{
    match feature_type {
        FeatureKind::Curr => Some(SensorKind::Current),
        FeatureKind::Energy => Some(SensorKind::Energy),
        FeatureKind::Fan => Some(SensorKind::Fan),
        FeatureKind::In => Some(SensorKind::Voltmeter),
        FeatureKind::Power => Some(SensorKind::Power),
        FeatureKind::Temp => Some(SensorKind::Temperature),
        _ => None,
    }
}

/// What to read of a feature that is read as a sensor: the sensor's kind and the subfeatures
/// that hold its input and, where the feature kind has them, its minimum and maximum.
#[derive(Debug, Clone, Copy, PartialEq, Eq, Structural)]
pub struct FeatureQuery {
    pub kind: SensorKind,
    pub input: SubfeatureKind,
    pub min: Option<SubfeatureKind>,
    pub max: Option<SubfeatureKind>,
}

/// What to read of a feature of kind `feature_type`: nothing (the feature is skipped) if it is
/// not read as a sensor or has no input subfeature.
pub fn feature_query(feature_type: FeatureKind) -> (r: Option<FeatureQuery>)
    ensures
        (feature_sensor_kind(feature_type) is None || subfeature_for(GenericSubfeature::Input, feature_type) is None)
            <==> r is None,
        r matches Some(q) ==> {
            &&& feature_sensor_kind(feature_type) == Some(q.kind)
            &&& subfeature_for(GenericSubfeature::Input, feature_type) == Some(q.input)
            &&& q.min == subfeature_for(GenericSubfeature::Min, feature_type)
            &&& q.max == subfeature_for(GenericSubfeature::Max, feature_type)
        },
{
    let kind = match sensor_kind_from_feature_type(feature_type) {
        Some(k) => k,
        None => {
            return None;
        },
    };
    let input = match GenericSubfeature::Input.to_primitive(feature_type) {
        Some(i) => i,
        None => {
            return None;
        },
    };
    Some(FeatureQuery {
        kind,
        input,
        min: GenericSubfeature::Min.to_primitive(feature_type),
        max: GenericSubfeature::Max.to_primitive(feature_type),
    })
}

} // verus!
