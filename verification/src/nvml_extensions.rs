//! Walking the GPUs that NVML reports, by index.

use vstd::prelude::*;

use nvml_wrapper::error::NvmlError;
use nvml_wrapper::{Device, Nvml};

verus! {

#[verifier::external_type_specification]
#[verifier::external_body]
pub struct ExNvml(Nvml);

#[verifier::external_type_specification]
#[verifier::external_body]
pub struct ExDevice<'a>(Device<'a>);

#[verifier::external_type_specification]
#[verifier::external_body]
pub struct ExNvmlError(NvmlError);

/// What asking NVML for the device at an index gave.
pub enum DeviceLookup<'a> {
    /// The device.
    Found(Device<'a>),
    /// NVML rejected the index (an `InvalidArg` error): there is no device there.
    InvalidIndex(NvmlError),
    /// Some other error.
    Failed(NvmlError),
}

/// What [`DeviceIterator::step`] returns for an answer: nothing for a rejected index, else
/// the device or the error.
pub open spec fn lookup_outcome<'a>(lookup: DeviceLookup<'a>) -> Option<Result<Device<'a>, NvmlError>> {
    match lookup {
        DeviceLookup::InvalidIndex(_) => None,
        DeviceLookup::Found(d) => Some(Ok(d)),
        DeviceLookup::Failed(e) => Some(Err(e)),
    }
}

/// Asks NVML how many devices there are (calls `Nvml::device_count`).
/// What the driver answers is not stated.
#[verifier::external_body]
fn device_count(nvml: &Nvml) -> (r: Result<u32, NvmlError>) {
    nvml.device_count()
}

/// Asks NVML for the device at `index` (calls `Nvml::device_by_index`), telling an
/// `InvalidArg` error apart from the others. What the driver answers is not stated.
#[verifier::external_body]
pub(crate) fn device_at<'a>(nvml: &'a Nvml, index: u32) -> (r: DeviceLookup<'a>) {
    match nvml.device_by_index(index) {
        Ok(d) => DeviceLookup::Found(d),
        Err(e @ NvmlError::InvalidArg) => DeviceLookup::InvalidIndex(e),
        Err(e) => DeviceLookup::Failed(e),
    }
}

/// Walks the devices `0..device_count` of NVML by index.
pub struct DeviceIterator<'a> {
    nvml: &'a Nvml,
    index: u32,
    device_count: u32,
}

impl<'a> DeviceIterator<'a> {
    /// The index of the device to ask for next.
    pub closed spec fn position(&self) -> int {
        self.index as int
    }

    /// How many devices NVML reported when the walk began.
    pub closed spec fn count(&self) -> int {
        self.device_count as int
    }

    /// Whether [`Self::next`] has nothing left to give.
    pub open spec fn exhausted(&self) -> bool {
        self.position() >= self.count()
    }

    /// Takes NVML's answer for the device at [`Self::position`]: an index that NVML rejects
    /// ends the walk (nothing is returned and the position stays); a device or another error
    /// is returned and the walk moves on by one.
    pub fn step(&mut self, lookup: DeviceLookup<'a>) -> (r: Option<Result<Device<'a>, NvmlError>>)
        requires
            !old(self).exhausted(),
        ensures
            r == lookup_outcome(lookup),
            final(self).count() == old(self).count(),
            r is None ==> final(self).position() == old(self).position(),
            r is Some ==> final(self).position() == old(self).position() + 1,
    {
        match lookup {
            DeviceLookup::InvalidIndex(_) => None,
            DeviceLookup::Found(d) => {
                self.index = self.index + 1;
                Some(Ok(d))
            },
            DeviceLookup::Failed(e) => {
                self.index = self.index + 1;
                Some(Err(e))
            },
        }
    }

    /// The next device, or an error in its place. Nothing once every index has been asked
    /// for; otherwise NVML is asked for the device at [`Self::position`] and its answer is
    /// taken by [`Self::step`].
    pub fn next(&mut self) -> (r: Option<Result<Device<'a>, NvmlError>>)
        ensures
            old(self).exhausted() ==> r is None && *final(self) == *old(self),
            !old(self).exhausted() ==> exists|lookup: DeviceLookup<'a>| #[trigger] lookup_outcome(lookup) == r,
            final(self).count() == old(self).count(),
            r is None ==> final(self).position() == old(self).position(),
            r is Some ==> !old(self).exhausted() && final(self).position() == old(self).position() + 1,
    {
        if self.index >= self.device_count {
            return None;
        }
        let lookup = device_at(self.nvml, self.index);
        self.step(lookup)
    }

    /// How many devices the walk covers in all.
    pub fn size_hint(&self) -> (r: u32)
        ensures
            r as int == self.count(),
    {
        self.device_count
    }
}

/// Walking the devices of an NVML handle.
pub trait NvmlExtensions {
    /// A walk over the devices that NVML reports, from the first one.
    fn get_devices(&self) -> Result<DeviceIterator<'_>, NvmlError>;
}

impl NvmlExtensions for Nvml {
    /// Starts a walk over the devices that NVML reports, at the first one; the error of asking
    /// for their number if that fails.
    fn get_devices(&self) -> (r: Result<DeviceIterator<'_>, NvmlError>)
        ensures
            r matches Ok(it) ==> it.position() == 0,
    {
        match device_count(self) {
            Ok(device_count) => Ok(DeviceIterator { nvml: self, index: 0, device_count }),
            Err(e) => Err(e),
        }
    }
}

} // verus!
