//! The fans of NVIDIA GPUs, controlled through NVML.

use vstd::prelude::*;

use nvml_wrapper::enums::device::FanControlPolicy;
use nvml_wrapper::error::NvmlError;
use nvml_wrapper::{Device, Nvml};

use crate::nvml_extensions::{device_at, DeviceIterator, DeviceLookup, NvmlExtensions};
use crate::text::{format_radix, push_char, radix_text};
use crate::utils::AutoSwitch;

verus! {

/// Who sets the speed of a GPU fan.
#[derive(Debug, Clone, Copy, PartialEq, Eq, Structural)]
pub enum FanPolicy {
    /// The driver, following the temperature.
    TemperatureContinousSw,
    /// This program.
    Manual,
}

/// What asking NVML for the number of fans of a device gave.
pub enum FanCount {
    Count(u32),
    /// The device does not report its fans.
    NotSupported,
    Failed(NvmlError),
}

/// Asks NVML how many fans `device` has (calls `Device::num_fans`), telling a `NotSupported`
/// error apart from the others. What the driver answers is not stated.
#[verifier::external_body]
pub(crate) fn num_fans(device: &Device) -> (r: FanCount) {
    match device.num_fans() {
        Ok(n) => FanCount::Count(n),
        Err(NvmlError::NotSupported) => FanCount::NotSupported,
        Err(e) => FanCount::Failed(e),
    }
}

/// The index of `device` among NVML's devices (calls `Device::index`). Not stated.
#[verifier::external_body]
pub(crate) fn device_index(device: &Device) -> (r: Result<u32, NvmlError>) {
    device.index()
}

/// The UUID of `device` (calls `Device::uuid`). Not stated.
#[verifier::external_body]
pub(crate) fn device_uuid(device: &Device) -> (r: Result<String, NvmlError>) {
    device.uuid()
}

/// The control policy of the fan of `controller` (calls `Device::fan_control_policy` on its
/// device with its fan index). What the driver answers is not stated.
#[verifier::external_body]
fn fan_control_policy(controller: &NVIDIAFanController) -> (r: Result<FanPolicy, NvmlError>) {
    match controller.device.fan_control_policy(controller.fan_idx) {
        Ok(FanControlPolicy::TemperatureContinousSw) => Ok(FanPolicy::TemperatureContinousSw),
        Ok(FanControlPolicy::Manual) => Ok(FanPolicy::Manual),
        Err(e) => Err(e),
    }
}

/// Sets the control policy of the fan of `controller` (calls `Device::set_fan_control_policy`
/// on its device with its fan index). Trusted: `policy` is what was handed to the driver, which
/// the controller's ghost record of the last policy sent now holds; the rest of the controller
/// is unchanged. Whether the driver accepts it is not stated.
#[verifier::external_body]
fn set_fan_control_policy(controller: &mut NVIDIAFanController, policy: FanPolicy) -> (r: Result<(), NvmlError>)
    ensures
        final(controller).policy_sent@ == Some(policy),
        final(controller).fan_idx == old(controller).fan_idx,
        final(controller).key == old(controller).key,
        final(controller).speed_sent == old(controller).speed_sent,
        final(controller).switched == old(controller).switched,
        final(controller).gpu_fans == old(controller).gpu_fans,
{
    let p = match policy {
        FanPolicy::TemperatureContinousSw => FanControlPolicy::TemperatureContinousSw,
        FanPolicy::Manual => FanControlPolicy::Manual,
    };
    controller.device.set_fan_control_policy(controller.fan_idx, p)
}

/// The speed of the fan of `controller`, in percent (calls `Device::fan_speed` on its device
/// with its fan index). What the driver answers is not stated.
#[verifier::external_body]
fn fan_speed(controller: &NVIDIAFanController) -> (r: Result<u32, NvmlError>) {
    controller.device.fan_speed(controller.fan_idx)
}

/// Sets the speed of the fan of `controller`, in percent (calls `Device::set_fan_speed` on its
/// device with its fan index). Trusted: `speed` is what was handed to the driver, which the
/// controller's ghost record of the last speed sent now holds; the rest of the controller is
/// unchanged. Whether the driver accepts it is not stated.
#[verifier::external_body]
fn set_fan_speed(controller: &mut NVIDIAFanController, speed: u32) -> (r: Result<(), NvmlError>)
    ensures
        final(controller).speed_sent@ == Some(speed),
        final(controller).fan_idx == old(controller).fan_idx,
        final(controller).key == old(controller).key,
        final(controller).policy_sent == old(controller).policy_sent,
        final(controller).switched == old(controller).switched,
        final(controller).gpu_fans == old(controller).gpu_fans,
{
    controller.device.set_fan_speed(controller.fan_idx, speed)
}

/// The lowest and highest speed, in percent, that the fans of `device` accept (calls
/// `Device::min_max_fan_speed`). Not stated.
#[verifier::external_body]
fn min_max_fan_speed(device: &Device) -> (r: Result<(u32, u32), NvmlError>) {
    device.min_max_fan_speed()
}

/// The key of fan `fan_idx` of the GPU with UUID `uuid`: `<uuid>/<fan index>`.
pub open spec fn gpu_fan_key(uuid: Seq<char>, fan_idx: u32) -> Seq<char> {
    uuid + seq!['/'] + radix_text(fan_idx as nat, 10, false)
}

/// Whether a fan under `policy` runs automatically: under any policy but manual control.
pub open spec fn runs_under(policy: FanPolicy) -> bool {
    policy != FanPolicy::Manual
}

/// The policy that `set_auto(auto)` hands to the driver is one under which `is_auto` reads
/// `auto` back (see [`runs_automatically`]): automatic for `true`, manual for `false`.
pub proof fn sent_policy_reads_back(auto: bool)
    ensures
        runs_under(if auto { FanPolicy::TemperatureContinousSw } else { FanPolicy::Manual }) == auto,
{
}

/// Whether a fan under `policy` runs automatically: under any policy but manual control.
pub fn runs_automatically(policy: FanPolicy) -> (r: bool)
    ensures
        r == (policy != FanPolicy::Manual),
{
    match policy {
        FanPolicy::Manual => false,
        _ => true,
    }
}

/// The policy that makes a fan run automatically (`auto`), following the temperature, or
/// under this program's control.
pub fn policy_for(auto: bool) -> (r: FanPolicy)
    ensures
        auto ==> r == FanPolicy::TemperatureContinousSw,
        !auto ==> r == FanPolicy::Manual,
{
    if auto {
        FanPolicy::TemperatureContinousSw
    } else {
        FanPolicy::Manual
    }
}

/// The fans to scan on a GPU, from NVML's answer on how many it has: none where it does
/// not report its fans, the error where asking failed.
pub fn fans_to_scan(answer: FanCount) -> (r: Result<u32, NvmlError>)
    ensures
        match answer {
            FanCount::Count(n) => r == Ok::<u32, NvmlError>(n),
            FanCount::NotSupported => r == Ok::<u32, NvmlError>(0),
            FanCount::Failed(e) => r == Err::<u32, NvmlError>(e),
        },
{
    match answer {
        FanCount::Count(n) => Ok(n),
        FanCount::NotSupported => Ok(0),
        FanCount::Failed(e) => Err(e),
    }
}

/// The key of fan `fan_idx` of the GPU with UUID `uuid` (see [`gpu_fan_key`]).
pub fn fan_key(uuid: &str, fan_idx: u32) -> (r: String)
    ensures
        r@ == gpu_fan_key(uuid@, fan_idx),
{
    let mut key = String::from_str(uuid);
    push_char(&mut key, '/');
    let digits = format_radix(fan_idx as u64, 10, false);
    key.append(digits.as_str());
    key
}

/// The (key, fan index) of each fan of the scanned GPUs, GPU after GPU and fan after fan,
/// where `gpus[g][i]` is the UUID that GPU `g` reported when its fan `i` was scanned.
pub open spec fn scanned_fan_keys(gpus: Seq<Seq<Seq<char>>>) -> Seq<(Seq<char>, u32)>
    decreases gpus.len(),
{
    if gpus.len() == 0 {
        Seq::empty()
    } else {
        scanned_fan_keys(gpus.drop_last()) + gpu_fan_keys(gpus.last())
    }
}

/// The (key, fan index) of each fan of one GPU, where `uuids[i]` is the UUID it reported for
/// fan `i`.
pub open spec fn gpu_fan_keys(uuids: Seq<Seq<char>>) -> Seq<(Seq<char>, u32)> {
    Seq::new(uuids.len(), |i: int| (gpu_fan_key(uuids[i], i as u32), i as u32))
}

/// How many fans NVML's answer reports: none where the GPU does not report its fans or
/// asking failed.
pub open spec fn answered_fan_count(answer: FanCount) -> nat {
    match answer {
        FanCount::Count(n) => n as nat,
        _ => 0,
    }
}

/// For each fan of the scanned GPUs (as in [`scanned_fan_keys`]), how many fans its GPU has.
pub open spec fn scanned_fan_counts(gpus: Seq<Seq<Seq<char>>>) -> Seq<nat>
    decreases gpus.len(),
{
    if gpus.len() == 0 {
        Seq::empty()
    } else {
        scanned_fan_counts(gpus.drop_last()) + Seq::new(gpus.last().len(), |i: int| gpus.last().len())
    }
}

/// Every scanned fan is numbered below the fan count of its GPU, and a GPU reported with `n`
/// fans gives exactly the fans `0` to `n - 1`, in order.
pub proof fn scanned_fans_are_numbered_below_count(gpus: Seq<Seq<Seq<char>>>)
    requires
        forall|g: int| 0 <= g < gpus.len() ==> (#[trigger] gpus[g]).len() <= u32::MAX,
    ensures
        scanned_fan_keys(gpus).len() == scanned_fan_counts(gpus).len(),
        forall|i: int| 0 <= i < scanned_fan_keys(gpus).len() ==> (#[trigger] scanned_fan_keys(gpus)[i]).1 < scanned_fan_counts(gpus)[i],
    decreases gpus.len(),
{
    if gpus.len() > 0 {
        let rest = gpus.drop_last();
        assert forall|g: int| 0 <= g < rest.len() implies (#[trigger] rest[g]).len() <= u32::MAX by {
            assert(rest[g] == gpus[g]);
        }
        scanned_fans_are_numbered_below_count(rest);
        assert(gpus.last() == gpus[gpus.len() - 1]);
        let keys = scanned_fan_keys(gpus);
        let counts = scanned_fan_counts(gpus);
        let m = scanned_fan_keys(rest).len();
        assert forall|i: int| 0 <= i < keys.len() implies (#[trigger] keys[i]).1 < counts[i] by {
            if i < m {
                assert(keys[i] == scanned_fan_keys(rest)[i]);
                assert(counts[i] == scanned_fan_counts(rest)[i]);
            } else {
                let k = i - m;
                assert(keys[i] == gpu_fan_keys(gpus.last())[k]);
                assert(counts[i] == gpus.last().len());
            }
        }
    }
}

/// How many fans NVML reported for the GPU of each controller of `cs`.
pub open spec fn controller_fan_counts(cs: Seq<NVIDIAFanController>) -> Seq<nat> {
    cs.map_values(|c: NVIDIAFanController| c.reported_fan_count())
}

/// The (key, fan index) of each controller of `cs`.
pub open spec fn controller_keys(cs: Seq<NVIDIAFanController>) -> Seq<(Seq<char>, u32)> {
    cs.map_values(|c: NVIDIAFanController| (c.key_text(), c.fan_index()))
}

/// One fan of an NVIDIA GPU.
pub struct NVIDIAFanController<'nvml> {
    device: Device<'nvml>,
    fan_idx: u32,
    key: String,
    /// The control policy last handed to the driver for this fan, if any.
    policy_sent: Ghost<Option<FanPolicy>>,
    /// The speed last handed to the driver for this fan, if any.
    speed_sent: Ghost<Option<u32>>,
    /// Whether the driver accepted the last policy change.
    switched: Ghost<bool>,
    /// How many fans NVML reported for this fan's GPU when it was scanned.
    gpu_fans: Ghost<nat>,
}

impl<'nvml> NVIDIAFanController<'nvml> {
    /// The key of this controller.
    pub closed spec fn key_text(&self) -> Seq<char> {
        self.key@
    }

    /// The index of the fan on its GPU.
    pub closed spec fn fan_index(&self) -> u32 {
        self.fan_idx
    }

    /// The speed, in percent, that this program last handed to the driver for this fan, if any.
    pub closed spec fn speed_sent(&self) -> Option<u32> {
        self.speed_sent@
    }

    /// The control policy that this program last handed to the driver for this fan, if any.
    pub closed spec fn policy_sent(&self) -> Option<FanPolicy> {
        self.policy_sent@
    }

    /// How many fans NVML reported for this fan's GPU when it was scanned.
    pub closed spec fn reported_fan_count(&self) -> nat {
        self.gpu_fans@
    }

    /// One controller per fan of every GPU that reports its fans, in device order and then fan
    /// order; GPUs that do not report their fans are skipped (see [`fans_to_scan`]). The first
    /// other error ends the scan. Each key is the GPU's UUID, a `/` and the fan's index (see
    /// [`fan_key`]); which GPUs there are and what they report is the driver's answer. Each
    /// controller records how many fans NVML reported for its GPU, and the controllers of a GPU
    /// are exactly its fans `0` up to that count.
    pub fn scan(nvml: &'nvml Nvml) -> (r: Result<Vec<NVIDIAFanController<'nvml>>, NvmlError>)
        ensures
            r matches Ok(v) ==> exists|gpus: Seq<Seq<Seq<char>>>| {
                &&& #[trigger] scanned_fan_keys(gpus) == controller_keys(v@)
                &&& scanned_fan_counts(gpus) == controller_fan_counts(v@)
            },
            r matches Ok(v) ==> forall|i: int| 0 <= i < v@.len() ==> {
                &&& (#[trigger] v@[i]).speed_sent() is None
                &&& v@[i].policy_sent() is None
                &&& v@[i].fan_index() < v@[i].reported_fan_count()
            },
    {
        let mut devices: DeviceIterator<'nvml> = match nvml.get_devices() {
            Ok(it) => it,
            Err(e) => {
                return Err(e);
            },
        };
        let mut output: Vec<NVIDIAFanController<'nvml>> = Vec::new();
        let ghost mut gpus: Seq<Seq<Seq<char>>> = Seq::empty();
        let total = devices.size_hint();
        let mut remaining: u32 = total;
        loop
            invariant
                scanned_fan_keys(gpus) == controller_keys(output@),
                scanned_fan_counts(gpus) == controller_fan_counts(output@),
                forall|g: int| 0 <= g < gpus.len() ==> (#[trigger] gpus[g]).len() <= u32::MAX,
                forall|i: int| 0 <= i < output@.len() ==> {
                    &&& (#[trigger] output@[i]).speed_sent() is None
                    &&& output@[i].policy_sent() is None
                },
                devices.position() <= devices.count(),
                remaining as int == devices.count() - devices.position(),
            decreases remaining,
        {
            let device = match devices.next() {
                None => {
                    break;
                },
                Some(Ok(d)) => d,
                Some(Err(e)) => {
                    return Err(e);
                },
            };
            remaining = remaining - 1;
            let answer = num_fans(&device);
            let ghost reported = answered_fan_count(answer);
            let fan_count = match fans_to_scan(answer) {
                Ok(n) => n,
                Err(e) => {
                    return Err(e);
                },
            };
            let ghost mut uuids: Seq<Seq<char>> = Seq::empty();
            for fan_idx in 0..fan_count
                invariant
                    uuids.len() == fan_idx,
                    fan_count as nat == reported,
                    scanned_fan_keys(gpus) + gpu_fan_keys(uuids) == controller_keys(output@),
                    scanned_fan_counts(gpus) + Seq::new(fan_idx as nat, |i: int| reported) == controller_fan_counts(output@),
                    forall|i: int| 0 <= i < output@.len() ==> {
                        &&& (#[trigger] output@[i]).speed_sent() is None
                        &&& output@[i].policy_sent() is None
                    },
            {
                let index = match device_index(&device) {
                    Ok(i) => i,
                    Err(e) => {
                        return Err(e);
                    },
                };
                let copy = match device_at(nvml, index) {
                    DeviceLookup::Found(d) => d,
                    DeviceLookup::InvalidIndex(e) => {
                        return Err(e);
                    },
                    DeviceLookup::Failed(e) => {
                        return Err(e);
                    },
                };
                let uuid = match device_uuid(&device) {
                    Ok(u) => u,
                    Err(e) => {
                        return Err(e);
                    },
                };
                let key = fan_key(uuid.as_str(), fan_idx);
                let c = NVIDIAFanController {
                    device: copy,
                    fan_idx,
                    key,
                    policy_sent: Ghost(None),
                    speed_sent: Ghost(None),
                    switched: Ghost(true),
                    gpu_fans: Ghost(reported),
                };
                let ghost before = output@;
                output.push(c);
                proof {
                    let next = uuids.push(uuid@);
                    assert(gpu_fan_keys(next) =~= gpu_fan_keys(uuids).push((gpu_fan_key(uuid@, fan_idx), fan_idx)));
                    assert(controller_keys(output@) =~= controller_keys(before).push((gpu_fan_key(uuid@, fan_idx), fan_idx)));
                    assert(scanned_fan_keys(gpus) + gpu_fan_keys(next) =~= (scanned_fan_keys(gpus) + gpu_fan_keys(uuids)).push((gpu_fan_key(uuid@, fan_idx), fan_idx)));
                    assert(controller_fan_counts(output@) =~= controller_fan_counts(before).push(reported));
                    assert(scanned_fan_counts(gpus) + Seq::new((fan_idx + 1) as nat, |i: int| reported) =~= (scanned_fan_counts(gpus) + Seq::new(fan_idx as nat, |i: int| reported)).push(reported));
                    uuids = next;
                }
            }
            proof {
                let next = gpus.push(uuids);
                assert(next.drop_last() == gpus);
                assert(Seq::new(uuids.len(), |i: int| uuids.len()) =~= Seq::new(fan_count as nat, |i: int| reported));
                assert forall|g: int| 0 <= g < next.len() implies (#[trigger] next[g]).len() <= u32::MAX by {
                    if g < gpus.len() {
                        assert(next[g] == gpus[g]);
                    }
                }
                gpus = next;
            }
        }
        proof {
            scanned_fans_are_numbered_below_count(gpus);
            assert forall|i: int| 0 <= i < output@.len() implies (#[trigger] output@[i]).fan_index() < output@[i].reported_fan_count() by {
                assert(controller_keys(output@)[i] == (output@[i].key_text(), output@[i].fan_index()));
                assert(controller_fan_counts(output@)[i] == output@[i].reported_fan_count());
            }
        }
        Ok(output)
    }

    /// The key of this controller: `<GPU UUID>/<fan index>`.
    pub fn get_key(&self) -> (r: &str)
        ensures
            r@ == self.key_text(),
    {
        self.key.as_str()
    }

    /// The current speed of the fan, in percent.
    pub fn speed(&self) -> (r: Result<u32, NvmlError>) {
        fan_speed(self)
    }

    /// Sets the speed of the fan, in percent: exactly `speed` is handed to the driver for this
    /// fan, and nothing else about the controller changes.
    pub fn set_speed(&mut self, speed: u32) -> (r: Result<(), NvmlError>)
        ensures
            final(self).key_text() == old(self).key_text(),
            final(self).fan_index() == old(self).fan_index(),
            final(self).speed_sent() == Some(speed),
            final(self).policy_sent() == old(self).policy_sent(),
            final(self).reported_fan_count() == old(self).reported_fan_count(),
    {
        set_fan_speed(self, speed)
    }

    /// The lowest and highest speed, in percent, that the fan accepts.
    pub fn min_max_speed(&self) -> (r: Result<(u32, u32), NvmlError>) {
        min_max_fan_speed(&self.device)
    }

    /// Whether the driver runs the fan automatically (see [`runs_automatically`]).
    pub fn is_auto(&self) -> (r: Result<bool, NvmlError>) {
        match fan_control_policy(self) {
            Ok(p) => Ok(runs_automatically(p)),
            Err(e) => Err(e),
        }
    }
}

impl<'nvml> AutoSwitch for NVIDIAFanController<'nvml> {
    type Error = NvmlError;

    closed spec fn requested_auto(&self) -> Option<bool> {
        match self.policy_sent@ {
            Some(p) => Some(runs_under(p)),
            None => None,
        }
    }

    closed spec fn last_switch_ok(&self) -> bool {
        self.switched@
    }

    /// Hands the fan to the driver's temperature-following control (`true`) or to manual
    /// control by this program (`false`): exactly the policy [`policy_for`] gives is handed to
    /// the driver for this fan.
    fn set_auto(&mut self, auto: bool) -> (r: Result<(), NvmlError>)
        ensures
            final(self).key_text() == old(self).key_text(),
            final(self).fan_index() == old(self).fan_index(),
            final(self).policy_sent() == Some(if auto { FanPolicy::TemperatureContinousSw } else { FanPolicy::Manual }),
            final(self).speed_sent() == old(self).speed_sent(),
            final(self).reported_fan_count() == old(self).reported_fan_count(),
    {
        let policy = policy_for(auto);
        let r = set_fan_control_policy(self, policy);
        self.switched = Ghost(r is Ok);
        r
    }
}

} // verus!
