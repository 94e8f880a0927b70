//! Features (in Groupie terms: sensors) and subfeatures (their values) of chips.

use vstd::prelude::*;

verus! {

/// The kind of a feature, as libsensors classifies them.
#[derive(Debug, Clone, Copy, PartialEq, Eq, Structural)]
pub enum FeatureKind {
    In,
    Fan,
    Temp,
    Power,
    Energy,
    Curr,
    Humidity,
    Vid,
    Intrusion,
    BeepEnable,
    Unknown,
}

/// The subfeature kinds that this program reads.
#[derive(Debug, Clone, Copy, PartialEq, Eq, Structural)]
pub enum SubfeatureKind {
    InInput,
    InMin,
    InMax,
    FanInput,
    FanMin,
    FanMax,
    TempInput,
    TempMin,
    TempMax,
    PowerInput,
    PowerMin,
    PowerMax,
    EnergyInput,
    CurrInput,
    CurrMin,
    CurrMax,
    HumidityInput,
}

/// Feature-independent names for the commonly used subfeatures.
#[derive(Debug, Clone, Copy, PartialEq, Eq, Structural)]
pub enum GenericSubfeature {
    Input,
    Min,
    Max,
}

/// The subfeature of a feature of kind `feature` that `generic` stands for, if it has one.
pub open spec fn subfeature_for(generic: GenericSubfeature, feature: FeatureKind) -> Option<SubfeatureKind> {
    match generic {
        GenericSubfeature::Input => match feature {
            FeatureKind::In => Some(SubfeatureKind::InInput),
            FeatureKind::Fan => Some(SubfeatureKind::FanInput),
            FeatureKind::Temp => Some(SubfeatureKind::TempInput),
            FeatureKind::Power => Some(SubfeatureKind::PowerInput),
            FeatureKind::Energy => Some(SubfeatureKind::EnergyInput),
            FeatureKind::Curr => Some(SubfeatureKind::CurrInput),
            FeatureKind::Humidity => Some(SubfeatureKind::HumidityInput),
            _ => None,
        },
        GenericSubfeature::Min => match feature {
            FeatureKind::In => Some(SubfeatureKind::InMin),
            FeatureKind::Fan => Some(SubfeatureKind::FanMin),
            FeatureKind::Temp => Some(SubfeatureKind::TempMin),
            FeatureKind::Power => Some(SubfeatureKind::PowerMin),
            FeatureKind::Curr => Some(SubfeatureKind::CurrMin),
            _ => None,
        },
        GenericSubfeature::Max => match feature {
            FeatureKind::In => Some(SubfeatureKind::InMax),
            FeatureKind::Fan => Some(SubfeatureKind::FanMax),
            FeatureKind::Temp => Some(SubfeatureKind::TempMax),
            FeatureKind::Power => Some(SubfeatureKind::PowerMax),
            FeatureKind::Curr => Some(SubfeatureKind::CurrMax),
            _ => None,
        },
    }
}

impl GenericSubfeature {
    /// The concrete subfeature this stands for on a feature of kind `feature_type`, if any.
    pub fn to_primitive(self, feature_type: FeatureKind) -> (r: Option<SubfeatureKind>)
        ensures
            r == subfeature_for(self, feature_type),
    {
        match self {
            GenericSubfeature::Input => match feature_type {
                FeatureKind::In => Some(SubfeatureKind::InInput),
                FeatureKind::Fan => Some(SubfeatureKind::FanInput),
                FeatureKind::Temp => Some(SubfeatureKind::TempInput),
                FeatureKind::Power => Some(SubfeatureKind::PowerInput),
                FeatureKind::Energy => Some(SubfeatureKind::EnergyInput),
                FeatureKind::Curr => Some(SubfeatureKind::CurrInput),
                FeatureKind::Humidity => Some(SubfeatureKind::HumidityInput),
                _ => None,
            },
            GenericSubfeature::Min => match feature_type {
                FeatureKind::In => Some(SubfeatureKind::InMin),
                FeatureKind::Fan => Some(SubfeatureKind::FanMin),
                FeatureKind::Temp => Some(SubfeatureKind::TempMin),
                FeatureKind::Power => Some(SubfeatureKind::PowerMin),
                FeatureKind::Curr => Some(SubfeatureKind::CurrMin),
                _ => None,
            },
            GenericSubfeature::Max => match feature_type {
                FeatureKind::In => Some(SubfeatureKind::InMax),
                FeatureKind::Fan => Some(SubfeatureKind::FanMax),
                FeatureKind::Temp => Some(SubfeatureKind::TempMax),
                FeatureKind::Power => Some(SubfeatureKind::PowerMax),
                FeatureKind::Curr => Some(SubfeatureKind::CurrMax),
                _ => None,
            },
        }
    }
}

/// The libsensors mode bit of a readable subfeature.
pub const SENSORS_MODE_R: u32 = 1;
/// The libsensors mode bit of a writable subfeature.
pub const SENSORS_MODE_W: u32 = 2;

/// Whether subfeature mode `flags` allow reading the value.
pub fn can_get(flags: u32) -> (r: bool)
    ensures
        r == (flags & SENSORS_MODE_R != 0),
{
    flags & SENSORS_MODE_R != 0
}

/// Whether subfeature mode `flags` allow writing the value.
pub fn can_set(flags: u32) -> (r: bool)
    ensures
        r == (flags & SENSORS_MODE_W != 0),
{
    flags & SENSORS_MODE_W != 0
}

} // verus!
