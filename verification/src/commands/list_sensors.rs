//! Which sensors `list-sensors` shows.

use vstd::prelude::*;

use crate::groupie::{key_lt, KeyView, Sensor, SensorKey, SensorKind};
use crate::pattern::{regex_is_match, Pattern};
use crate::text::{text_eq, TextOrder};

verus! {

/// The filters of `list-sensors`.
pub struct ListSensorsArgs {
    pub kind: Option<SensorKind>,
    /// Matched against the sensor's name.
    pub adapter_key: Option<Pattern>,
    /// Matched against the key of the sensor's adapter.
    pub sensor_key: Option<Pattern>,
    /// Seconds between repeated listings; list once if absent.
    pub repeat_interval: Option<u64>,
}

impl ListSensorsArgs {
    /// Whether `sensor` passes every filter that is set: its kind is the chosen kind, its name
    /// matches the `adapter_key` pattern, and its adapter's key matches the `sensor_key` pattern.
    pub open spec fn lists(&self, sensor: Sensor) -> bool {
        &&& (self.kind matches Some(k) ==> sensor.kind == k)
        &&& (self.adapter_key matches Some(p) ==> regex_is_match(p.source(), sensor.name@))
        &&& (self.sensor_key matches Some(p) ==> regex_is_match(p.source(), sensor.adapter.key@))
    }

    /// Whether `sensor` passes every filter that is set (see [`Self::lists`]).
    pub fn should_list(&self, sensor: &Sensor) -> (r: bool)
        ensures
            r == self.lists(*sensor),
    {
        let kind_ok = match self.kind {
            Some(k) => sensor.kind == k,
            None => true,
        };
        let name_ok = match &self.adapter_key {
            Some(p) => p.is_match(sensor.name.as_str()),
            None => true,
        };
        let adapter_ok = match &self.sensor_key {
            Some(p) => p.is_match(sensor.adapter.key.as_str()),
            None => true,
        };
        kind_ok && name_ok && adapter_ok
    }
}

/// The keys of `sensors`, in order.
pub open spec fn sensor_keys(sensors: Seq<&Sensor>) -> Seq<KeyView> {
    sensors.map_values(|s: &Sensor| s.sensor_key())
}

/// Whether the sensor at position `a` is listed before the one at position `b`: by key
/// (adapter key, then name), and in the given order among equal keys.
pub open spec fn listed_before(keys: Seq<KeyView>, a: int, b: int) -> bool {
    key_lt(keys[a], keys[b]) || (keys[a] == keys[b] && a < b)
}

/// The positions of the sensors that the filters let through, in order.
pub open spec fn passing_positions(sensors: Seq<&Sensor>, args: ListSensorsArgs) -> Seq<int>
    decreases sensors.len(),
{
    if sensors.len() == 0 {
        Seq::empty()
    } else {
        let before = passing_positions(sensors.drop_last(), args);
        if args.lists(*sensors.last()) {
            before.push(sensors.len() - 1)
        } else {
            before
        }
    }
}

/// Whether a row for the sensor at `rows[j]` starts a new adapter group: it is the first row,
/// or its adapter's key differs from that of the row before.
pub open spec fn starts_group(sensors: Seq<&Sensor>, rows: Seq<int>, j: int) -> bool {
    j == 0 || sensors[rows[j]].adapter.key@ != sensors[rows[j - 1]].adapter.key@
}

proof fn lemma_listed_before_transitive(keys: Seq<KeyView>, a: int, b: int, c: int)
    requires
        listed_before(keys, a, b),
        listed_before(keys, b, c),
    ensures
        listed_before(keys, a, c),
{
    if key_lt(keys[a], keys[b]) && key_lt(keys[b], keys[c]) {
        crate::groupie::key_order_transitive(keys[a], keys[b], keys[c]);
    }
}

/// Whether the key of `a` comes before the key of `b`.
fn key_before(a: &Sensor, b: &Sensor) -> (r: bool)
    ensures
        r == key_lt(a.sensor_key(), b.sensor_key()),
{
    proof {
        crate::groupie::key_order_total(a.sensor_key(), b.sensor_key());
        crate::groupie::key_order_irreflexive(a.sensor_key());
    }
    match a.cmp_by_sensor_key(b.get_sensor_key()) {
        TextOrder::Less => true,
        _ => false,
    }
}

/// The rows that `list-sensors` prints: each is the position of a sensor that the filters let
/// through, with whether an adapter heading comes before it; sorted by sensor key (equal keys
/// in the given order), a heading wherever the adapter changes.
pub fn listing(sensors: &Vec<&Sensor>, args: &ListSensorsArgs) -> (r: Vec<(usize, bool)>)
    ensures
        r@.map_values(|x: (usize, bool)| x.0 as int).to_multiset() == passing_positions(sensors@, *args).to_multiset(),
        forall|i: int, j: int| 0 <= i < j < r@.len() ==> listed_before(sensor_keys(sensors@), #[trigger] r@[i].0 as int, #[trigger] r@[j].0 as int),
        forall|j: int| 0 <= j < r@.len() ==> (#[trigger] r@[j]).1 == starts_group(sensors@, r@.map_values(|x: (usize, bool)| x.0 as int), j),
{
    let ghost ks = sensor_keys(sensors@);
    let n = sensors.len();
    let mut order: Vec<usize> = Vec::new();
    proof {
        assert(sensors@.take(0) =~= Seq::<&Sensor>::empty());
        assert(order@.map_values(|i: usize| i as int) =~= Seq::<int>::empty());
    }
    for i in 0..n
        invariant
            n == sensors@.len(),
            ks == sensor_keys(sensors@),
            forall|j: int| 0 <= j < order@.len() ==> (#[trigger] order@[j]) < i,
            forall|a: int, b: int| 0 <= a < b < order@.len() ==> listed_before(ks, #[trigger] order@[a] as int, #[trigger] order@[b] as int),
            order@.map_values(|i: usize| i as int).to_multiset() == passing_positions(sensors@.take(i as int), *args).to_multiset(),
    {
        proof {
            assert(sensors@.take(i + 1).drop_last() == sensors@.take(i as int));
            assert(sensors@.take(i + 1).last() == sensors@[i as int]);
        }
        if args.should_list(sensors[i]) {
            let m = order.len();
            let mut pos: usize = 0;
            while pos < m
                invariant
                    m == order@.len(),
                    n == sensors@.len(),
                    i < n,
                    ks == sensor_keys(sensors@),
                    pos <= m,
                    forall|j: int| 0 <= j < m ==> (#[trigger] order@[j]) < i,
                    forall|j: int| 0 <= j < pos ==> listed_before(ks, #[trigger] order@[j] as int, i as int),
                ensures
                    pos <= m,
                    forall|j: int| 0 <= j < pos ==> listed_before(ks, #[trigger] order@[j] as int, i as int),
                    pos < m ==> listed_before(ks, i as int, order@[pos as int] as int),
                decreases m - pos,
            {
                let o = order[pos];
                let before = key_before(sensors[i], sensors[o]);
                proof {
                    assert(ks[i as int] == sensors@[i as int].sensor_key());
                    assert(ks[o as int] == sensors@[o as int].sensor_key());
                    crate::groupie::key_order_total(ks[i as int], ks[o as int]);
                }
                if before {
                    break;
                }
                pos = pos + 1;
            }
            let ghost old_order = order@;
            proof {
                assert forall|j: int| pos <= j < m implies listed_before(ks, i as int, #[trigger] old_order[j] as int) by {
                    if j > pos {
                        assert(listed_before(ks, old_order[pos as int] as int, old_order[j] as int));
                        lemma_listed_before_transitive(ks, i as int, old_order[pos as int] as int, old_order[j] as int);
                    }
                }
            }
            order.insert(pos, i);
            proof {
                let old_pos = old_order.map_values(|i: usize| i as int);
                assert(order@.map_values(|i: usize| i as int) =~= old_pos.insert(pos as int, i as int));
                vstd::seq_lib::to_multiset_insert(old_pos, pos as int, i as int);
                let prev = passing_positions(sensors@.take(i as int), *args);
                vstd::seq_lib::to_multiset_insert(prev, prev.len() as int, i as int);
                assert(prev.insert(prev.len() as int, i as int) =~= prev.push(i as int));
                assert forall|a: int, b: int| 0 <= a < b < order@.len() implies listed_before(ks, #[trigger] order@[a] as int, #[trigger] order@[b] as int) by {
                    if b < pos {
                        assert(order@[a] == old_order[a] && order@[b] == old_order[b]);
                        assert(listed_before(ks, old_order[a] as int, old_order[b] as int));
                    } else if b == pos {
                        assert(order@[a] == old_order[a]);
                    } else if a < pos {
                        assert(order@[a] == old_order[a] && order@[b] == old_order[b - 1]);
                        lemma_listed_before_transitive(ks, order@[a] as int, i as int, order@[b] as int);
                    } else if a == pos {
                        assert(order@[b] == old_order[b - 1]);
                    } else {
                        assert(order@[a] == old_order[a - 1] && order@[b] == old_order[b - 1]);
                        assert(listed_before(ks, old_order[a - 1] as int, old_order[b - 1] as int));
                    }
                }
            }
        }
    }
    proof {
        assert(sensors@.take(n as int) == sensors@);
    }
    let ghost rows = order@.map_values(|i: usize| i as int);
    let mut out: Vec<(usize, bool)> = Vec::new();
    let m = order.len();
    for j in 0..m
        invariant
            m == order@.len(),
            n == sensors@.len(),
            rows == order@.map_values(|i: usize| i as int),
            forall|k: int| 0 <= k < order@.len() ==> (#[trigger] order@[k]) < n,
            out@.len() == j,
            forall|k: int| 0 <= k < j ==> (#[trigger] out@[k]).0 == order@[k],
            forall|k: int| 0 <= k < j ==> (#[trigger] out@[k]).1 == starts_group(sensors@, rows, k),
    {
        let header = if j == 0 {
            true
        } else {
            !text_eq(sensors[order[j]].adapter.key.as_str(), sensors[order[j - 1]].adapter.key.as_str())
        };
        out.push((order[j], header));
    }
    proof {
        assert(out@.map_values(|x: (usize, bool)| x.0 as int) =~= rows);
    }
    out
}

/// In a listing the sensors of an adapter come one after the other: a row between two rows of
/// the same adapter belongs to that adapter too, so each adapter is listed under one heading.
pub proof fn adapters_are_contiguous(sensors: Seq<&Sensor>, rows: Seq<int>, i: int, j: int, k: int)
    requires
        forall|a: int, b: int| 0 <= a < b < rows.len() ==> listed_before(sensor_keys(sensors), #[trigger] rows[a], #[trigger] rows[b]),
        forall|a: int| 0 <= a < rows.len() ==> 0 <= #[trigger] rows[a] < sensors.len(),
        0 <= i < j < k < rows.len(),
        sensors[rows[i]].adapter.key@ == sensors[rows[k]].adapter.key@,
    ensures
        sensors[rows[j]].adapter.key@ == sensors[rows[i]].adapter.key@,
{
    let ks = sensor_keys(sensors);
    assert(listed_before(ks, rows[i], rows[j]));
    assert(listed_before(ks, rows[j], rows[k]));
    assert(ks[rows[i]].0 == sensors[rows[i]].adapter.key@);
    assert(ks[rows[j]].0 == sensors[rows[j]].adapter.key@);
    assert(ks[rows[k]].0 == sensors[rows[k]].adapter.key@);
    crate::text::lemma_text_lt_trichotomy(ks[rows[i]].0, ks[rows[j]].0);
    crate::text::lemma_text_lt_trichotomy(ks[rows[j]].0, ks[rows[k]].0);
}

} // verus!
