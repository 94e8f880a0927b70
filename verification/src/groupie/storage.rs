//! Storage of sensors and their states: [`PluginStorage`] holds what one plugin found,
//! [`SensorStorage`] holds all plugins and knows which plugin owns which sensor.

use vstd::prelude::*;

use super::{KeyView, OwnedKey, Sensor, SensorKey};
use crate::utils::ErrorGroup;

verus! {

/// A hash map from sensor keys to positions (a `hashbrown::HashMap`).
#[verifier::external_body]
pub struct KeyIndex {
    map: hashbrown::HashMap<(String, String), usize>,
}

/// What a [`KeyIndex`] holds: each (adapter key, sensor name) it knows, with its position.
pub uninterp spec fn key_index_contents(index: KeyIndex) -> Map<KeyView, usize>;

/// An empty index (calls `hashbrown::HashMap::new`).
/// Trusted: a new map holds nothing.
#[verifier::external_body]
fn key_index_new() -> (r: KeyIndex)
    ensures
        key_index_contents(r).dom() == Set::<KeyView>::empty(),
{
    KeyIndex { map: hashbrown::HashMap::new() }
}

/// Looks a key up (calls `hashbrown::HashMap::get`).
/// Trusted: the map returns the position stored under a key equal to (`adapter`, `name`),
/// or nothing if there is none; keys are compared as `String`s, i.e. by their text.
#[verifier::external_body]
fn key_index_get(index: &KeyIndex, adapter: &str, name: &str) -> (r: Option<usize>)
    ensures
        key_index_contents(*index).contains_key((adapter@, name@)) ==> r == Some(
            key_index_contents(*index)[(adapter@, name@)],
        ),
        !key_index_contents(*index).contains_key((adapter@, name@)) ==> r is None,
{
    index.map.get(&(adapter.to_string(), name.to_string())).copied()
}

/// Stores a position under a key (calls `hashbrown::HashMap::insert`).
/// Trusted: afterwards the key maps to `value` and every other key is unchanged;
/// the position previously stored under the key is returned.
#[verifier::external_body]
fn key_index_insert(index: &mut KeyIndex, adapter: String, name: String, value: usize) -> (r: Option<usize>)
    ensures
        key_index_contents(*final(index)) == key_index_contents(*old(index)).insert((adapter@, name@), value),
        key_index_contents(*old(index)).contains_key((adapter@, name@)) ==> r == Some(
            key_index_contents(*old(index))[(adapter@, name@)],
        ),
        !key_index_contents(*old(index)).contains_key((adapter@, name@)) ==> r is None,
{
    index.map.insert((adapter, name), value)
}

/// Releases spare capacity (calls `hashbrown::HashMap::shrink_to_fit`).
/// Trusted: the contents are unchanged.
#[verifier::external_body]
fn key_index_shrink(index: &mut KeyIndex)
    ensures
        key_index_contents(*final(index)) == key_index_contents(*old(index)),
{
    index.map.shrink_to_fit()
}

/// The key of a stored entry.
pub open spec fn entry_key<S>(e: (Sensor, Option<S>)) -> KeyView {
    (e.0.adapter.key@, e.0.name@)
}

/// A store for the sensors of one plugin, each with its latest state (if it has one).
///
/// There is no plain `insert`: plugins may only change the states of sensors that
/// exist, which keeps the bookkeeping of [`SensorStorage`] intact.
pub struct PluginStorage<S> {
    index: KeyIndex,
    entries: Vec<(Sensor, Option<S>)>,
}

impl<S> PluginStorage<S> {
    /// The index and the entries agree: the index maps the key of each entry to the
    /// entry's position, and nothing else.
    pub closed spec fn well_formed(&self) -> bool {
        let m = key_index_contents(self.index);
        &&& forall|k: KeyView| #[trigger] m.contains_key(k) ==> m[k] < self.entries@.len() && entry_key(self.entries@[m[k] as int]) == k
        &&& forall|i: int| 0 <= i < self.entries@.len() ==> m.contains_key(#[trigger] entry_key(self.entries@[i])) && m[entry_key(self.entries@[i])] == i
    }

    /// Every stored sensor, by its key, with its state.
    pub closed spec fn contents(&self) -> Map<KeyView, (Sensor, Option<S>)> {
        let m = key_index_contents(self.index);
        Map::new(|k: KeyView| m.contains_key(k), |k: KeyView| self.entries@[m[k] as int])
    }

    /// Every stored sensor is stored under its own key.
    pub proof fn stored_under_own_key(&self, k: KeyView)
        requires
            self.well_formed(),
            self.contents().contains_key(k),
        ensures
            self.contents()[k].0.sensor_key() == k,
    {
    }

    /// Create a newly constructed, empty storage.
    pub fn new() -> (r: Self)
        ensures
            r.well_formed(),
            r.contents().dom() == Set::<KeyView>::empty(),
    {
        let r = PluginStorage { index: key_index_new(), entries: Vec::new() };
        assert(r.contents().dom() =~= Set::<KeyView>::empty());
        r
    }

    /// Releases spare memory; the contents are unchanged.
    pub fn trim_to_size(&mut self)
        requires
            old(self).well_formed(),
        ensures
            final(self).well_formed(),
            final(self).contents() == old(self).contents(),
    {
        key_index_shrink(&mut self.index);
        assert(self.contents() =~= old(self).contents());
    }

    fn position_of<K: SensorKey>(&self, key: &K) -> (r: Option<usize>)
        requires
            self.well_formed(),
        ensures
            self.contents().contains_key(key.sensor_key()) ==> (r matches Some(i) && i < self.entries@.len()
                && self.contents()[key.sensor_key()] == self.entries@[i as int]),
            !self.contents().contains_key(key.sensor_key()) ==> r is None,
    {
        let (adapter, name) = key.get_sensor_key();
        key_index_get(&self.index, adapter, name)
    }

    /// Returns the sensor metadata, if a sensor for that key exists.
    pub fn get_sensor<K: SensorKey>(&self, key: &K) -> (r: Option<&Sensor>)
        requires
            self.well_formed(),
        ensures
            self.contents().contains_key(key.sensor_key()) ==> r == Some(&self.contents()[key.sensor_key()].0),
            !self.contents().contains_key(key.sensor_key()) ==> r is None,
            r matches Some(x) ==> x.sensor_key() == key.sensor_key(),
    {
        match self.position_of(key) {
            Some(i) => Some(&self.entries[i].0),
            None => None,
        }
    }

    /// Returns the state of the sensor referenced by `key`.
    /// Returns `None` if the sensor does not exist, or it does not have a state.
    pub fn get_state<K: SensorKey>(&self, key: &K) -> (r: Option<&S>)
        requires
            self.well_formed(),
        ensures
            self.contents().contains_key(key.sensor_key()) && self.contents()[key.sensor_key()].1 is Some
                ==> r == Some(&self.contents()[key.sensor_key()].1->0),
            !(self.contents().contains_key(key.sensor_key()) && self.contents()[key.sensor_key()].1 is Some)
                ==> r is None,
    {
        match self.position_of(key) {
            Some(i) => match &self.entries[i].1 {
                Some(s) => Some(s),
                None => None,
            },
            None => None,
        }
    }

    /// The combined metadata and state of a sensor on this key, if it is available.
    /// If no sensor for the key exists, or it does not have a state, returns `None`.
    pub fn get<K: SensorKey>(&self, key: &K) -> (r: Option<(&Sensor, &S)>)
        requires
            self.well_formed(),
        ensures
            self.contents().contains_key(key.sensor_key()) && self.contents()[key.sensor_key()].1 is Some
                ==> r == Some((&self.contents()[key.sensor_key()].0, &self.contents()[key.sensor_key()].1->0)),
            !(self.contents().contains_key(key.sensor_key()) && self.contents()[key.sensor_key()].1 is Some)
                ==> r is None,
    {
        match self.position_of(key) {
            Some(i) => {
                let entry = &self.entries[i];
                match &entry.1 {
                    Some(s) => Some((&entry.0, s)),
                    None => None,
                }
            },
            None => None,
        }
    }

    /// Adds a sensor without a state, replacing a sensor with the same key;
    /// returns what was stored under that key before.
    pub(crate) fn put_sensor(&mut self, sensor: Sensor) -> (r: Option<(Sensor, Option<S>)>)
        requires
            old(self).well_formed(),
        ensures
            final(self).well_formed(),
            final(self).contents() == old(self).contents().insert(sensor.sensor_key(), (sensor, None::<S>)),
            old(self).contents().contains_key(sensor.sensor_key()) ==> r == Some(old(self).contents()[sensor.sensor_key()]),
            !old(self).contents().contains_key(sensor.sensor_key()) ==> r is None,
    {
        let ghost k = sensor.sensor_key();
        match self.position_of(&sensor) {
            Some(i) => {
                let mut entry = (sensor, None);
                self.entries.set_and_swap(i, &mut entry);
                proof {
                    let m = key_index_contents(self.index);
                    assert forall|j: int| 0 <= j < self.entries@.len() implies m.contains_key(#[trigger] entry_key(self.entries@[j])) && m[entry_key(self.entries@[j])] == j by {
                        if j != i {
                            assert(self.entries@[j] == old(self).entries@[j]);
                        }
                    }
                    assert(self.contents() =~= old(self).contents().insert(k, (sensor, None::<S>)));
                }
                Some(entry)
            },
            None => {
                let pos = self.entries.len();
                let key = sensor.get_owned_key();
                self.entries.push((sensor, None));
                let _ = key_index_insert(&mut self.index, key.adapter, key.name, pos);
                proof {
                    let m0 = key_index_contents(old(self).index);
                    let m = key_index_contents(self.index);
                    assert forall|kk: KeyView| #[trigger] m.contains_key(kk) implies m[kk] < self.entries@.len() && entry_key(self.entries@[m[kk] as int]) == kk by {
                        if kk != k {
                            assert(m0.contains_key(kk));
                        }
                    }
                    assert forall|j: int| 0 <= j < self.entries@.len() implies m.contains_key(#[trigger] entry_key(self.entries@[j])) && m[entry_key(self.entries@[j])] == j by {
                        if j < pos {
                            assert(self.entries@[j] == old(self).entries@[j]);
                            assert(m0.contains_key(entry_key(old(self).entries@[j])));
                            assert(entry_key(self.entries@[j]) != k);
                        }
                    }
                    assert(self.contents() =~= old(self).contents().insert(k, (sensor, None::<S>)));
                }
                None
            },
        }
    }

    /// Stores a state for the sensor referred to by `key`, returning its previous state.
    ///
    /// Returns an `Err` holding the passed state, if no sensor for that key exists.
    pub fn put_state<K: SensorKey>(&mut self, key: &K, state: S) -> (r: Result<Option<S>, S>)
        requires
            old(self).well_formed(),
        ensures
            final(self).well_formed(),
            old(self).contents().contains_key(key.sensor_key()) ==> {
                &&& r matches Ok(prev) && prev == old(self).contents()[key.sensor_key()].1
                &&& final(self).contents() == old(self).contents().insert(
                    key.sensor_key(),
                    (old(self).contents()[key.sensor_key()].0, Some(state)),
                )
            },
            !old(self).contents().contains_key(key.sensor_key()) ==> {
                &&& r matches Err(back) && back == state
                &&& final(self).contents() == old(self).contents()
            },
    {
        match self.position_of(key) {
            Some(i) => {
                let ghost k = key.sensor_key();
                let mut entry = (self.entries[i].0.duplicate(), Some(state));
                self.entries.set_and_swap(i, &mut entry);
                proof {
                    let m = key_index_contents(self.index);
                    assert forall|j: int| 0 <= j < self.entries@.len() implies m.contains_key(#[trigger] entry_key(self.entries@[j])) && m[entry_key(self.entries@[j])] == j by {
                        if j != i {
                            assert(self.entries@[j] == old(self).entries@[j]);
                        }
                    }
                    assert(self.contents() =~= old(self).contents().insert(k, (old(self).contents()[k].0, Some(state))));
                }
                Ok(entry.1)
            },
            None => Err(state),
        }
    }

    /// The state of the sensor referred to by `key`, to read or change (or delete); `None` if no
    /// sensor for that key exists. Whatever is written there becomes the sensor's state.
    pub fn get_state_mut<K: SensorKey>(&mut self, key: &K) -> (r: Option<&mut Option<S>>)
        requires
            old(self).well_formed(),
        ensures
            old(self).contents().contains_key(key.sensor_key()) ==> {
                &&& r is Some
                &&& *r->0 == old(self).contents()[key.sensor_key()].1
                &&& final(self).well_formed()
                &&& final(self).contents() == old(self).contents().insert(
                    key.sensor_key(),
                    (old(self).contents()[key.sensor_key()].0, *final(r->0)),
                )
            },
            !old(self).contents().contains_key(key.sensor_key()) ==> r is None && *final(self) == *old(self),
    {
        match self.position_of(key) {
            Some(i) => {
                let entry = &mut self.entries[i];
                Some(&mut entry.1)
            },
            None => None,
        }
    }

    /// The sensor referred to by `key` together with its state, to read or change (or
    /// delete); `None` if no sensor for that key exists. Whatever is written there becomes the
    /// sensor's state.
    pub fn get_both_mut<K: SensorKey>(&mut self, key: &K) -> (r: Option<(&Sensor, &mut Option<S>)>)
        requires
            old(self).well_formed(),
        ensures
            old(self).contents().contains_key(key.sensor_key()) ==> {
                &&& r is Some
                &&& *(r->0).0 == old(self).contents()[key.sensor_key()].0
                &&& *(r->0).1 == old(self).contents()[key.sensor_key()].1
                &&& final(self).well_formed()
                &&& final(self).contents() == old(self).contents().insert(
                    key.sensor_key(),
                    (old(self).contents()[key.sensor_key()].0, *final((r->0).1)),
                )
            },
            !old(self).contents().contains_key(key.sensor_key()) ==> r is None && *final(self) == *old(self),
    {
        match self.position_of(key) {
            Some(i) => {
                let entry = &mut self.entries[i];
                Some((&entry.0, &mut entry.1))
            },
            None => None,
        }
    }

    /// Deletes the state of the sensor referred to by `key`, keeping the sensor; returns the
    /// state it had. Nothing changes if no sensor for that key exists.
    pub fn clear_state<K: SensorKey>(&mut self, key: &K) -> (r: Option<S>)
        requires
            old(self).well_formed(),
        ensures
            final(self).well_formed(),
            old(self).contents().contains_key(key.sensor_key()) ==> {
                &&& r == old(self).contents()[key.sensor_key()].1
                &&& final(self).contents() == old(self).contents().insert(
                    key.sensor_key(),
                    (old(self).contents()[key.sensor_key()].0, None::<S>),
                )
            },
            !old(self).contents().contains_key(key.sensor_key()) ==> {
                &&& r is None
                &&& final(self).contents() == old(self).contents()
            },
    {
        match self.position_of(key) {
            Some(i) => {
                let ghost k = key.sensor_key();
                let mut entry = (self.entries[i].0.duplicate(), None);
                self.entries.set_and_swap(i, &mut entry);
                proof {
                    let m = key_index_contents(self.index);
                    assert forall|j: int| 0 <= j < self.entries@.len() implies m.contains_key(#[trigger] entry_key(self.entries@[j])) && m[entry_key(self.entries@[j])] == j by {
                        if j != i {
                            assert(self.entries@[j] == old(self).entries@[j]);
                        }
                    }
                    assert(self.contents() =~= old(self).contents().insert(k, (old(self).contents()[k].0, None::<S>)));
                }
                entry.1
            },
            None => None,
        }
    }

    /// All stored sensors with their states, each exactly once, in an unspecified order.
    pub fn iter(&self) -> (r: Vec<&(Sensor, Option<S>)>)
        requires
            self.well_formed(),
        ensures
            r@.len() == self.contents().dom().len(),
            forall|i: int| 0 <= i < r@.len() ==> self.contents().contains_key(entry_key(*#[trigger] r@[i]))
                && self.contents()[entry_key(*r@[i])] == *r@[i],
            forall|i: int, j: int| 0 <= i < r@.len() && 0 <= j < r@.len() && i != j ==> entry_key(*#[trigger] r@[i]) != entry_key(*#[trigger] r@[j]),
            forall|k: KeyView| #[trigger] self.contents().contains_key(k) ==> exists|i: int| 0 <= i < r@.len() && entry_key(*r@[i]) == k,
    {
        let mut out: Vec<&(Sensor, Option<S>)> = Vec::new();
        let n = self.entries.len();
        for i in 0..n
            invariant
                n == self.entries@.len(),
                self.well_formed(),
                out@.len() == i,
                forall|j: int| 0 <= j < i ==> *#[trigger] out@[j] == self.entries@[j],
        {
            out.push(&self.entries[i]);
        }
        proof {
            let m = key_index_contents(self.index);
            assert forall|i: int| 0 <= i < out@.len() implies self.contents().contains_key(entry_key(*#[trigger] out@[i]))
                && self.contents()[entry_key(*out@[i])] == *out@[i] by {
                assert(m.contains_key(entry_key(self.entries@[i])));
            }
            assert forall|i: int, j: int| 0 <= i < out@.len() && 0 <= j < out@.len() && i != j implies entry_key(*#[trigger] out@[i]) != entry_key(*#[trigger] out@[j]) by {
                assert(m[entry_key(self.entries@[i])] == i);
                assert(m[entry_key(self.entries@[j])] == j);
            }
            assert forall|k: KeyView| #[trigger] self.contents().contains_key(k) implies exists|i: int| 0 <= i < out@.len() && entry_key(*out@[i]) == k by {
                let i = m[k] as int;
                assert(entry_key(*out@[i]) == k);
            }
            lemma_dom_len(self, out@);
        }
        out
    }
}

/// The number of keys of a well-formed storage is its number of entries.
proof fn lemma_dom_len<S>(st: &PluginStorage<S>, refs: Seq<&(Sensor, Option<S>)>)
    requires
        st.well_formed(),
        refs.len() == st.entries@.len(),
        forall|j: int| 0 <= j < refs.len() ==> *#[trigger] refs[j] == st.entries@[j],
    ensures
        refs.len() == st.contents().dom().len(),
{
    let m = key_index_contents(st.index);
    let keys = st.entries@.map_values(|e: (Sensor, Option<S>)| entry_key(e));
    assert forall|i: int, j: int| 0 <= i < keys.len() && 0 <= j < keys.len() && i != j implies keys[i] != keys[j] by {
        assert(m[entry_key(st.entries@[i])] == i);
        assert(m[entry_key(st.entries@[j])] == j);
    }
    assert(keys.no_duplicates());
    keys.unique_seq_to_set();
    assert(keys.to_set() =~= st.contents().dom()) by {
        assert forall|k: KeyView| keys.to_set().contains(k) <==> st.contents().dom().contains(k) by {
            if st.contents().dom().contains(k) {
                let i = m[k] as int;
                assert(keys[i] == k);
            }
            if keys.to_set().contains(k) {
                let i = choose|i: int| 0 <= i < keys.len() && keys[i] == k;
                assert(m.contains_key(entry_key(st.entries@[i])));
            }
        }
    }
}

/// The storage contents after adding `sensors`, in order, each without a state
/// (a later sensor replaces an earlier one with the same key).
pub open spec fn with_sensors<S>(m: Map<KeyView, (Sensor, Option<S>)>, sensors: Seq<Sensor>) -> Map<KeyView, (Sensor, Option<S>)>
    decreases sensors.len(),
{
    if sensors.len() == 0 {
        m
    } else {
        with_sensors(m, sensors.drop_last()).insert(sensors.last().sensor_key(), (sensors.last(), None::<S>))
    }
}

/// The registry after recording `plugin` as the owner of each of `sensors`.
pub open spec fn with_owner(reg: Map<KeyView, usize>, sensors: Seq<Sensor>, plugin: usize) -> Map<KeyView, usize>
    decreases sensors.len(),
{
    if sensors.len() == 0 {
        reg
    } else {
        with_owner(reg, sensors.drop_last(), plugin).insert(sensors.last().sensor_key(), plugin)
    }
}

/// The storage contents after storing each reading whose sensor exists, in order
/// (a reading for an unknown sensor changes nothing).
pub open spec fn with_readings<S>(m: Map<KeyView, (Sensor, Option<S>)>, readings: Seq<(OwnedKey, S)>) -> Map<KeyView, (Sensor, Option<S>)>
    decreases readings.len(),
{
    if readings.len() == 0 {
        m
    } else {
        let before = with_readings(m, readings.drop_last());
        let (k, s) = readings.last();
        if before.contains_key(k@) {
            before.insert(k@, (before[k@].0, Some(s)))
        } else {
            before
        }
    }
}

/// The keys of the readings whose sensor is not in `m`, in order.
pub open spec fn unknown_keys<S>(m: Map<KeyView, (Sensor, Option<S>)>, readings: Seq<(OwnedKey, S)>) -> Seq<KeyView>
    decreases readings.len(),
{
    if readings.len() == 0 {
        Seq::empty()
    } else {
        let rest = unknown_keys(m, readings.drop_last());
        if m.contains_key(readings.last().0@) {
            rest
        } else {
            rest.push(readings.last().0@)
        }
    }
}

proof fn lemma_with_readings_keeps_keys<S>(m: Map<KeyView, (Sensor, Option<S>)>, readings: Seq<(OwnedKey, S)>)
    ensures
        with_readings(m, readings).dom() == m.dom(),
    decreases readings.len(),
{
    if readings.len() > 0 {
        lemma_with_readings_keeps_keys(m, readings.drop_last());
        let before = with_readings(m, readings.drop_last());
        let (k, s) = readings.last();
        if before.contains_key(k@) {
            assert(before.insert(k@, (before[k@].0, Some(s))).dom() =~= before.dom());
        }
    }
}

/// The sequence of `n` copies of `v`.
pub open spec fn repeat_int(v: int, n: nat) -> Seq<int> {
    Seq::new(n, |x: int| v)
}

/// Appends the references of `part` to `out`.
fn append_refs<'a, T>(out: &mut Vec<&'a T>, part: Vec<&'a T>)
    ensures
        final(out)@ == old(out)@ + part@,
{
    let ghost start = out@;
    let ghost all = part@;
    for r in it: part.into_iter()
        invariant
            it.seq() == all,
            out@ == start + all.take(it.index() as int),
    {
        out.push(r);
        proof {
            assert(all.take(it.index() + 1) == all.take(it.index() as int).push(r));
        }
    }
    proof {
        assert(all.take(all.len() as int) == all);
    }
}

/// Stores an error for each key of a sensor that some plugin reported but never registered.
fn push_unknown_sensors<E>(errors: &mut ErrorGroup<StorageError<E>>, unknown: Vec<OwnedKey>)
    ensures
        final(errors)@.len() == old(errors)@.len() + unknown@.len(),
{
    let ghost n0 = errors@.len();
    for k in it: unknown.into_iter()
        invariant
            errors@.len() == n0 + it.index(),
    {
        errors.push(StorageError::UnknownSensor(k));
    }
}

/// Reading a sensor back after adding it gives that sensor, without a state; every other
/// key reads as before.
pub proof fn put_sensor_then_get<S>(m: Map<KeyView, (Sensor, Option<S>)>, sensor: Sensor, other: KeyView)
    ensures
        m.insert(sensor.sensor_key(), (sensor, None::<S>)).contains_key(sensor.sensor_key()),
        m.insert(sensor.sensor_key(), (sensor, None::<S>))[sensor.sensor_key()] == (sensor, None::<S>),
        other != sensor.sensor_key() ==> m.insert(sensor.sensor_key(), (sensor, None::<S>)).contains_key(other) == m.contains_key(other),
        other != sensor.sensor_key() && m.contains_key(other) ==> m.insert(sensor.sensor_key(), (sensor, None::<S>))[other] == m[other],
{
}

/// Reading a state back after storing it for an existing sensor gives that state and the same
/// sensor; the set of sensors does not change.
pub proof fn put_state_then_get<S>(m: Map<KeyView, (Sensor, Option<S>)>, k: KeyView, state: S)
    requires
        m.contains_key(k),
    ensures
        m.insert(k, (m[k].0, Some(state)))[k] == (m[k].0, Some(state)),
        m.insert(k, (m[k].0, Some(state))).dom() == m.dom(),
{
    assert(m.insert(k, (m[k].0, Some(state))).dom() =~= m.dom());
}

/// Reporting states never adds or removes sensors: a plugin can only fill in the states of
/// the sensors it registered.
pub proof fn readings_keep_sensors<S>(m: Map<KeyView, (Sensor, Option<S>)>, readings: Seq<(OwnedKey, S)>)
    ensures
        with_readings(m, readings).dom() == m.dom(),
{
    lemma_with_readings_keeps_keys(m, readings);
}

/// After registering `sensors` for `plugin`, each of them is found: the registry names that
/// plugin as its owner and the plugin's storage holds a sensor under its key.
pub proof fn registered_sensors_are_found<S>(
    m: Map<KeyView, (Sensor, Option<S>)>,
    reg: Map<KeyView, usize>,
    sensors: Seq<Sensor>,
    plugin: usize,
    i: int,
)
    requires
        0 <= i < sensors.len(),
    ensures
        with_owner(reg, sensors, plugin).contains_key(sensors[i].sensor_key()),
        with_owner(reg, sensors, plugin)[sensors[i].sensor_key()] == plugin,
        with_sensors(m, sensors).contains_key(sensors[i].sensor_key()),
    decreases sensors.len(),
{
    if i < sensors.len() - 1 {
        registered_sensors_are_found(m, reg, sensors.drop_last(), plugin, i);
        assert(sensors.drop_last()[i] == sensors[i]);
    }
}

/// A source of sensors: finds them once, then reports their states on each poll.
/// Implemented by the plugins of the application (libsensors, NVML, ...).
pub trait SensorPlugin<S> {
    type Error;

    /// Whether this implementation keeps the records below of what it last answered. An
    /// implementation checked by Verus may say so and is then held to it; the default, `false`,
    /// holds an implementation to nothing, so no implementation written outside Verus is trusted.
    closed spec fn keeps_answer_records() -> bool {
        false
    }

    /// The sensors that the last discovery returned.
    closed spec fn found_record(&self) -> Seq<Sensor> {
        Seq::empty()
    }

    /// The outcome that the last discovery returned.
    closed spec fn discovery_record(&self) -> Result<(), Self::Error> {
        Ok(())
    }

    /// The states that the last poll returned.
    closed spec fn readings_record(&self) -> Seq<(OwnedKey, S)> {
        Seq::empty()
    }

    /// The outcome that the last poll returned.
    closed spec fn poll_record(&self) -> Result<(), Self::Error> {
        Ok(())
    }

    /// What [`Self::reports_unknown_sensors`] answers.
    closed spec fn counts_unknown_record(&self) -> bool {
        false
    }

    /// Discover all sensors available from this plugin.
    /// Returns the sensors found (also when some could not be read) and the outcome.
    /// This method will generally run exactly once per plugin instance.
    fn discover_sensors(&mut self) -> (r: (Vec<Sensor>, Result<(), Self::Error>))
        ensures
            Self::keeps_answer_records() ==> final(self).found_record() == r.0@ && final(self).discovery_record() == r.1,
    ;

    /// Poll the sensors: returns a state for each sensor that could be read, and the outcome.
    fn update(&mut self) -> (r: (Vec<(OwnedKey, S)>, Result<(), Self::Error>))
        ensures
            Self::keeps_answer_records() ==> {
                &&& final(self).readings_record() == r.0@
                &&& final(self).poll_record() == r.1
                &&& final(self).found_record() == old(self).found_record()
                &&& final(self).discovery_record() == old(self).discovery_record()
            },
    ;

    /// Whether a state this plugin reports for a sensor it never registered counts as an
    /// error (`true`) or is dropped (`false`).
    fn reports_unknown_sensors(&self) -> (r: bool)
        ensures
            Self::keeps_answer_records() ==> r == self.counts_unknown_record(),
    ;
}

/// The sensors each plugin found, in plugin order.
pub open spec fn found_sensors<E>(found: Seq<(Vec<Sensor>, Result<(), E>)>) -> Seq<Seq<Sensor>> {
    found.map_values(|x: (Vec<Sensor>, Result<(), E>)| x.0@)
}

/// The outcome of each plugin's discovery, in plugin order.
pub open spec fn found_results<E>(found: Seq<(Vec<Sensor>, Result<(), E>)>) -> Seq<Result<(), E>> {
    found.map_values(|x: (Vec<Sensor>, Result<(), E>)| x.1)
}

/// The states each plugin reported, in plugin order.
pub open spec fn answer_readings<S, E>(answers: Seq<(Vec<(OwnedKey, S)>, Result<(), E>, bool)>) -> Seq<Seq<(OwnedKey, S)>> {
    answers.map_values(|x: (Vec<(OwnedKey, S)>, Result<(), E>, bool)| x.0@)
}

/// The outcome of each plugin's poll, in plugin order.
pub open spec fn answer_results<S, E>(answers: Seq<(Vec<(OwnedKey, S)>, Result<(), E>, bool)>) -> Seq<Result<(), E>> {
    answers.map_values(|x: (Vec<(OwnedKey, S)>, Result<(), E>, bool)| x.1)
}

/// Whether each plugin counts states of unknown sensors as errors, in plugin order.
pub open spec fn answer_strict<S, E>(answers: Seq<(Vec<(OwnedKey, S)>, Result<(), E>, bool)>) -> Seq<bool> {
    answers.map_values(|x: (Vec<(OwnedKey, S)>, Result<(), E>, bool)| x.2)
}

/// How many errors a result holds: none for `Ok`.
pub open spec fn error_count<E>(r: Result<(), ErrorGroup<E>>) -> nat {
    match r {
        Ok(_) => 0,
        Err(g) => g@.len(),
    }
}

/// How many of `outcomes` are errors.
pub open spec fn failures<E>(outcomes: Seq<Result<(), E>>) -> nat
    decreases outcomes.len(),
{
    if outcomes.len() == 0 {
        0
    } else {
        failures(outcomes.drop_last()) + if outcomes.last() is Err { 1nat } else { 0nat }
    }
}

/// The registry after recording each plugin (by position) as the owner of the sensors it
/// found, plugin by plugin.
pub open spec fn owners(reg: Map<KeyView, usize>, found: Seq<Seq<Sensor>>) -> Map<KeyView, usize>
    decreases found.len(),
{
    if found.len() == 0 {
        reg
    } else {
        with_owner(owners(reg, found.drop_last()), found.last(), (found.len() - 1) as usize)
    }
}

/// An error met while updating a [`SensorStorage`].
#[derive(Debug)]
pub enum StorageError<E> {
    /// A plugin reported an error.
    Plugin(E),
    /// A plugin reported a state for a sensor it never registered.
    UnknownSensor(OwnedKey),
}

/// The central data holder: all plugins, each with its [`PluginStorage`],
/// and a registry of which plugin owns which sensor.
pub struct SensorStorage<P, S> {
    plugins: Vec<P>,
    /// The storage of each plugin, at the plugin's position.
    storages: Vec<PluginStorage<S>>,
    /// Every key in here appears in the storage of the plugin it maps to.
    sensor_to_plugin: KeyIndex,
    has_discovered_sensors: bool,
}

impl<P: SensorPlugin<S>, S> SensorStorage<P, S> {
    /// Each plugin storage is well formed, and each registered key belongs to an
    /// existing plugin whose storage holds a sensor with that key.
    pub closed spec fn well_formed(&self) -> bool {
        let reg = key_index_contents(self.sensor_to_plugin);
        &&& self.plugins@.len() == self.storages@.len()
        &&& forall|i: int| 0 <= i < self.storages@.len() ==> (#[trigger] self.storages@[i]).well_formed()
        &&& forall|k: KeyView| #[trigger] reg.contains_key(k) ==> reg[k] < self.storages@.len()
            && self.storages@[reg[k] as int].contents().contains_key(k)
        &&& forall|i: int, k: KeyView| 0 <= i < self.storages@.len() && #[trigger] self.storages@[i].contents().contains_key(k)
            ==> reg.contains_key(k)
    }

    /// Every stored sensor is registered and stored under its own key, and the plugin the
    /// registry names for its key holds a sensor under that key.
    pub proof fn stored_sensors_are_registered(&self, i: int, k: KeyView)
        requires
            self.well_formed(),
            0 <= i < self.plugin_count(),
            self.storage_of(i).contains_key(k),
        ensures
            self.registry().contains_key(k),
            self.registry()[k] < self.plugin_count(),
            self.storage_of(self.registry()[k] as int).contains_key(k),
            self.storage_of(i)[k].0.sensor_key() == k,
    {
        self.storages@[i].stored_under_own_key(k);
    }

    /// How many plugins this storage holds.
    pub closed spec fn plugin_count(&self) -> nat {
        self.storages@.len()
    }

    /// The plugins, in order.
    pub closed spec fn plugin_seq(&self) -> Seq<P> {
        self.plugins@
    }

    /// The sensors that each plugin's last discovery returned, in plugin order.
    pub open spec fn plugins_found(&self) -> Seq<Seq<Sensor>> {
        Seq::new(self.plugin_seq().len(), |i: int| self.plugin_seq()[i].found_record())
    }

    /// The outcome of each plugin's last discovery, in plugin order.
    pub open spec fn plugins_discovery(&self) -> Seq<Result<(), P::Error>> {
        Seq::new(self.plugin_seq().len(), |i: int| self.plugin_seq()[i].discovery_record())
    }

    /// The states that each plugin's last poll returned, in plugin order.
    pub open spec fn plugins_readings(&self) -> Seq<Seq<(OwnedKey, S)>> {
        Seq::new(self.plugin_seq().len(), |i: int| self.plugin_seq()[i].readings_record())
    }

    /// The outcome of each plugin's last poll, in plugin order.
    pub open spec fn plugins_polls(&self) -> Seq<Result<(), P::Error>> {
        Seq::new(self.plugin_seq().len(), |i: int| self.plugin_seq()[i].poll_record())
    }

    /// Whether each plugin counts states of unknown sensors as errors, in plugin order.
    pub open spec fn plugins_strict(&self) -> Seq<bool> {
        Seq::new(self.plugin_seq().len(), |i: int| self.plugin_seq()[i].counts_unknown_record())
    }

    /// The sensors and states held for plugin `i`.
    pub closed spec fn storage_of(&self, i: int) -> Map<KeyView, (Sensor, Option<S>)> {
        self.storages@[i].contents()
    }

    /// Which plugin owns each registered sensor.
    pub closed spec fn registry(&self) -> Map<KeyView, usize> {
        key_index_contents(self.sensor_to_plugin)
    }

    /// Whether sensor discovery has run.
    pub closed spec fn discovered(&self) -> bool {
        self.has_discovered_sensors
    }

    /// A storage holding the given plugins, with no sensors and no data.
    pub fn new(plugins: Vec<P>) -> (r: Self)
        ensures
            r.well_formed(),
            r.plugin_count() == plugins@.len(),
            forall|i: int| 0 <= i < plugins@.len() ==> (#[trigger] r.storage_of(i)).dom() == Set::<KeyView>::empty(),
            r.registry().dom() == Set::<KeyView>::empty(),
            !r.discovered(),
    {
        let mut storages: Vec<PluginStorage<S>> = Vec::new();
        let n = plugins.len();
        for i in 0..n
            invariant
                storages@.len() == i,
                forall|j: int| 0 <= j < storages@.len() ==> (#[trigger] storages@[j]).well_formed()
                    && storages@[j].contents().dom() == Set::<KeyView>::empty(),
        {
            storages.push(PluginStorage::new());
        }
        SensorStorage { plugins, storages, sensor_to_plugin: key_index_new(), has_discovered_sensors: false }
    }

    /// Records `sensors`, found by plugin `plugin`: each is stored (without a state) in that
    /// plugin's storage and registered as owned by that plugin.
    pub fn register_sensors(&mut self, plugin: usize, sensors: Vec<Sensor>)
        requires
            old(self).well_formed(),
            plugin < old(self).plugin_count(),
        ensures
            final(self).well_formed(),
            final(self).plugin_count() == old(self).plugin_count(),
            final(self).storage_of(plugin as int) == with_sensors(old(self).storage_of(plugin as int), sensors@),
            forall|i: int| 0 <= i < old(self).plugin_count() && i != plugin ==> #[trigger] final(self).storage_of(i) == old(self).storage_of(i),
            final(self).registry() == with_owner(old(self).registry(), sensors@, plugin),
            final(self).discovered() == old(self).discovered(),
            final(self).plugin_seq() == old(self).plugin_seq(),
    {
        let ghost all = sensors@;
        let ghost start_storage = self.storage_of(plugin as int);
        let ghost start_reg = self.registry();
        let ghost start_storages = self.storages@;
        for sensor in it: sensors.into_iter()
            invariant
                it.seq() == all,
                self.well_formed(),
                plugin < self.storages@.len(),
                self.storages@.len() == start_storages.len(),
                self.storage_of(plugin as int) == with_sensors(start_storage, all.take(it.index() as int)),
                forall|i: int| 0 <= i < start_storages.len() && i != plugin ==> #[trigger] self.storages@[i] == start_storages[i],
                self.registry() == with_owner(start_reg, all.take(it.index() as int), plugin),
                self.has_discovered_sensors == old(self).has_discovered_sensors,
                self.plugins == old(self).plugins,
        {
            let ghost k = sensor.sensor_key();
            let ghost before_storages = self.storages@;
            let key = sensor.get_owned_key();
            let _ = key_index_insert(&mut self.sensor_to_plugin, key.adapter, key.name, plugin);
            let _ = self.storages[plugin].put_sensor(sensor);
            proof {
                let idx = it.index() as int;
                assert(all.take(idx + 1).drop_last() == all.take(idx));
                assert(all.take(idx + 1).last() == sensor);
                let reg = key_index_contents(self.sensor_to_plugin);
                assert forall|i: int| 0 <= i < self.storages@.len() implies (#[trigger] self.storages@[i]).well_formed() by {
                    if i != plugin {
                        assert(self.storages@[i] == before_storages[i]);
                    }
                }
                assert forall|kk: KeyView| #[trigger] reg.contains_key(kk) implies reg[kk] < self.storages@.len()
                    && self.storages@[reg[kk] as int].contents().contains_key(kk) by {
                    if kk != k {
                        let owner = reg[kk] as int;
                        if owner != plugin {
                            assert(self.storages@[owner] == before_storages[owner]);
                        }
                    }
                }
                assert forall|i: int| 0 <= i < start_storages.len() && i != plugin implies #[trigger] self.storages@[i] == start_storages[i] by {
                    assert(self.storages@[i] == before_storages[i]);
                }
            }
        }
        proof {
            assert(all.take(all.len() as int) == all);
        }
    }

    /// The sensors and states held for plugin `i` once the discovery of a poll is done:
    /// with the sensors it `found` added on the first poll, unchanged on later ones.
    pub open spec fn discovered_storage(&self, found: Seq<Seq<Sensor>>, i: int) -> Map<KeyView, (Sensor, Option<S>)> {
        if self.discovered() {
            self.storage_of(i)
        } else {
            with_sensors(self.storage_of(i), found[i])
        }
    }

    /// How many readings of the first `k` plugins are for sensors they never registered, counting
    /// only plugins that report those (`strict`).
    pub open spec fn unknown_total(
        &self,
        found: Seq<Seq<Sensor>>,
        readings: Seq<Seq<(OwnedKey, S)>>,
        strict: Seq<bool>,
        k: int,
    ) -> nat
        decreases k,
    {
        if k <= 0 {
            0
        } else {
            self.unknown_total(found, readings, strict, k - 1) + if strict[k - 1] {
                unknown_keys(self.discovered_storage(found, k - 1), readings[k - 1]).len()
            } else {
                0nat
            }
        }
    }

    /// `after` is this storage after a poll in which the plugins found `found` with the
    /// outcomes `found_outcomes` (only on the first poll; empty on later ones), reported
    /// `readings` with the outcomes `read_outcomes`, and said by `strict` whether unknown
    /// sensors count as errors; `errors` is how many errors that poll gives: one per failed
    /// plugin call and one per counted reading of an unknown sensor.
    pub open spec fn polled(
        &self,
        after: Self,
        found: Seq<Seq<Sensor>>,
        found_outcomes: Seq<Result<(), P::Error>>,
        readings: Seq<Seq<(OwnedKey, S)>>,
        read_outcomes: Seq<Result<(), P::Error>>,
        strict: Seq<bool>,
        errors: nat,
    ) -> bool {
        let n = self.plugin_count();
        &&& after.plugin_count() == n
        &&& after.discovered()
        &&& readings.len() == n && read_outcomes.len() == n && strict.len() == n
        &&& if self.discovered() {
            &&& found.len() == 0 && found_outcomes.len() == 0
            &&& after.registry() == self.registry()
        } else {
            &&& found.len() == n && found_outcomes.len() == n
            &&& after.registry() == owners(self.registry(), found)
        }
        &&& forall|i: int| 0 <= i < n ==> #[trigger] after.storage_of(i) == with_readings(self.discovered_storage(found, i), readings[i])
        &&& errors == failures(found_outcomes) + failures(read_outcomes) + self.unknown_total(found, readings, strict, n as int)
    }

    /// Discovery runs on the first poll only: once a poll has been made, a later poll takes
    /// no discovery answers, keeps the registry as it is (every sensor stays owned by the
    /// plugin that found it), and its errors are only those of reading.
    pub proof fn discovery_runs_once(
        &self,
        first: Self,
        found: Seq<Seq<Sensor>>,
        found_outcomes: Seq<Result<(), P::Error>>,
        readings: Seq<Seq<(OwnedKey, S)>>,
        read_outcomes: Seq<Result<(), P::Error>>,
        strict: Seq<bool>,
        errors: nat,
        second: Self,
        found2: Seq<Seq<Sensor>>,
        found_outcomes2: Seq<Result<(), P::Error>>,
        readings2: Seq<Seq<(OwnedKey, S)>>,
        read_outcomes2: Seq<Result<(), P::Error>>,
        strict2: Seq<bool>,
        errors2: nat,
    )
        requires
            self.polled(first, found, found_outcomes, readings, read_outcomes, strict, errors),
            first.polled(second, found2, found_outcomes2, readings2, read_outcomes2, strict2, errors2),
        ensures
            first.discovered(),
            second.discovered(),
            found2.len() == 0,
            found_outcomes2.len() == 0,
            second.registry() == first.registry(),
            second.plugin_count() == self.plugin_count(),
            errors2 == failures(read_outcomes2) + first.unknown_total(found2, readings2, strict2, first.plugin_count() as int),
    {
        assert(failures(found_outcomes2) == 0);
    }

    /// Records a poll, given what the plugins answered: `found` holds, for each plugin in
    /// order, the sensors its discovery found and its outcome (used only if no discovery has
    /// run yet); `answers` holds, for each plugin, the states it reported, its outcome and
    /// whether it counts states of unknown sensors as errors. The storage becomes the poll
    /// of these answers (see [`Self::polled`]); `Ok` exactly when the poll gives no error,
    /// else `Err` with the errors: discovery failures, then for each plugin the unknown
    /// sensors it counts and its own failure.
    #[verifier::loop_isolation(false)]
    pub fn record_poll(
        &mut self,
        found: Vec<(Vec<Sensor>, Result<(), P::Error>)>,
        answers: Vec<(Vec<(OwnedKey, S)>, Result<(), P::Error>, bool)>,
    ) -> (r: Result<(), ErrorGroup<StorageError<P::Error>>>)
        requires
            old(self).well_formed(),
            answers@.len() == old(self).plugin_count(),
            !old(self).discovered() ==> found@.len() == old(self).plugin_count(),
        ensures
            final(self).well_formed(),
            old(self).polled(
                *final(self),
                if old(self).discovered() { Seq::empty() } else { found_sensors(found@) },
                if old(self).discovered() { Seq::empty() } else { found_results(found@) },
                answer_readings(answers@),
                answer_results(answers@),
                answer_strict(answers@),
                error_count(r),
            ),
            r matches Err(g) ==> g@.len() > 0,
            final(self).plugin_seq() == old(self).plugin_seq(),
    {
        let mut errors: ErrorGroup<StorageError<P::Error>> = ErrorGroup::new();
        let n = self.storages.len();
        let ghost start = *self;
        let ghost found_all = found@;
        let ghost fseq: Seq<Seq<Sensor>> = if start.discovered() { Seq::empty() } else { found_sensors(found@) };
        let ghost fres: Seq<Result<(), P::Error>> = if start.discovered() { Seq::empty() } else { found_results(found@) };
        if !self.has_discovered_sensors {
            let mut i: usize = 0;
            proof {
                assert(fseq.take(0) =~= Seq::<Seq<Sensor>>::empty());
                assert(fres.take(0) =~= Seq::<Result<(), P::Error>>::empty());
            }
            for entry in it: found.into_iter()
                invariant
                    it.seq() == found_all,
                    i == it.index(),
                    found_all.len() == n,
                    self.well_formed(),
                    n == self.storages@.len(),
                    !self.has_discovered_sensors,
                    self.plugins@ == start.plugins@,
                    fseq == found_sensors(found_all),
                    fres == found_results(found_all),
                    errors@.len() == failures(fres.take(i as int)),
                    self.registry() == owners(start.registry(), fseq.take(i as int)),
                    forall|j: int| 0 <= j < i ==> #[trigger] self.storage_of(j) == with_sensors(start.storage_of(j), fseq[j]),
                    forall|j: int| i <= j < n ==> #[trigger] self.storage_of(j) == start.storage_of(j),
            {
                let (sensors, outcome) = entry;
                let ghost head = *self;
                proof {
                    assert(fseq[i as int] == sensors@);
                    assert(fres[i as int] == outcome);
                    assert(fseq.take(i + 1).drop_last() == fseq.take(i as int));
                    assert(fres.take(i + 1).drop_last() == fres.take(i as int));
                    assert(head.storage_of(i as int) == start.storage_of(i as int));
                }
                self.register_sensors(i, sensors);
                proof {
                    assert forall|j: int| 0 <= j < i + 1 implies #[trigger] self.storage_of(j) == with_sensors(start.storage_of(j), fseq[j]) by {
                        if j < i {
                            assert(self.storage_of(j) == head.storage_of(j));
                        }
                    }
                    assert forall|j: int| i + 1 <= j < n implies #[trigger] self.storage_of(j) == start.storage_of(j) by {
                        assert(self.storage_of(j) == head.storage_of(j));
                    }
                }
                if let Err(e) = outcome {
                    errors.push(StorageError::Plugin(e));
                }
                i = i + 1;
            }
            proof {
                assert(fseq.take(n as int) == fseq);
                assert(fres.take(n as int) == fres);
            }
            let ghost looped = *self;
            self.has_discovered_sensors = true;
            assert(self.storages@ == looped.storages@);
            assert forall|j: int| 0 <= j < n implies #[trigger] self.storage_of(j) == start.discovered_storage(fseq, j) by {
                assert(self.storage_of(j) == looped.storage_of(j));
            }
        }
        let ghost disc = *self;
        let ghost answers_all = answers@;
        let ghost rseq = answer_readings(answers@);
        let ghost rres = answer_results(answers@);
        let ghost strict = answer_strict(answers@);
        proof {
            assert forall|j: int| 0 <= j < n implies #[trigger] disc.storage_of(j) == start.discovered_storage(fseq, j) by {}
            assert(rres.take(0) =~= Seq::<Result<(), P::Error>>::empty());
        }
        let mut i: usize = 0;
        for answer in it: answers.into_iter()
            invariant
                it.seq() == answers_all,
                i == it.index(),
                answers_all.len() == n,
                self.well_formed(),
                n == self.storages@.len(),
                self.has_discovered_sensors,
                self.plugins@ == start.plugins@,
                self.registry() == disc.registry(),
                rseq == answer_readings(answers_all),
                rres == answer_results(answers_all),
                strict == answer_strict(answers_all),
                errors@.len() == failures(fres) + failures(rres.take(i as int)) + start.unknown_total(fseq, rseq, strict, i as int),
                forall|j: int| 0 <= j < i ==> #[trigger] self.storage_of(j) == with_readings(start.discovered_storage(fseq, j), rseq[j]),
                forall|j: int| i <= j < n ==> #[trigger] self.storage_of(j) == start.discovered_storage(fseq, j),
        {
            let (readings, outcome, counts) = answer;
            let ghost head = *self;
            proof {
                assert(rseq[i as int] == readings@);
                assert(rres[i as int] == outcome);
                assert(strict[i as int] == counts);
                assert(rres.take(i + 1).drop_last() == rres.take(i as int));
                assert(head.storage_of(i as int) == start.discovered_storage(fseq, i as int));
            }
            let unknown = self.apply_readings(i, readings);
            proof {
                assert(unknown@.len() == unknown_keys(start.discovered_storage(fseq, i as int), rseq[i as int]).len()) by {
                    assert(unknown@.map_values(|k: OwnedKey| k@).len() == unknown@.len());
                }
                assert forall|j: int| 0 <= j < i + 1 implies #[trigger] self.storage_of(j) == with_readings(start.discovered_storage(fseq, j), rseq[j]) by {
                    if j < i {
                        assert(self.storage_of(j) == head.storage_of(j));
                    }
                }
                assert forall|j: int| i + 1 <= j < n implies #[trigger] self.storage_of(j) == start.discovered_storage(fseq, j) by {
                    assert(self.storage_of(j) == head.storage_of(j));
                }
            }
            if counts {
                push_unknown_sensors(&mut errors, unknown);
            }
            if let Err(e) = outcome {
                errors.push(StorageError::Plugin(e));
            }
            i = i + 1;
        }
        proof {
            assert(rres.take(n as int) == rres);
            assert(start.polled(*self, fseq, fres, rseq, rres, strict, errors@.len()));
        }
        let r = errors.ok();
        proof {
            assert(start.polled(*self, fseq, fres, rseq, rres, strict, error_count(r)));
        }
        r
    }

    /// Repolls all sensors. On the first call, every plugin first discovers its sensors,
    /// which are registered as owned by it. Then every plugin is asked for the states of
    /// its sensors, which are stored. All errors are collected; `Err` is returned if any occurred.
    ///
    /// What the plugins answer is up to them: the storage becomes the poll (see
    /// [`Self::polled`]) of their answers, recorded by [`Self::record_poll`]. Where the plugins
    /// keep records of their answers, the poll is made of exactly those answers: the sensors and
    /// outcomes their discovery returned (on the first poll), and the states and outcomes their
    /// poll returned, so each failed plugin call gives one error.
    pub fn update(&mut self) -> (r: Result<(), ErrorGroup<StorageError<P::Error>>>)
        requires
            old(self).well_formed(),
        ensures
            final(self).well_formed(),
            exists|found: Seq<Seq<Sensor>>, found_outcomes: Seq<Result<(), P::Error>>,
                readings: Seq<Seq<(OwnedKey, S)>>, read_outcomes: Seq<Result<(), P::Error>>, strict: Seq<bool>|
                #[trigger] old(self).polled(*final(self), found, found_outcomes, readings, read_outcomes, strict, error_count(r)),
            r matches Err(g) ==> g@.len() > 0,
            P::keeps_answer_records() ==> old(self).polled(
                *final(self),
                if old(self).discovered() { Seq::empty() } else { final(self).plugins_found() },
                if old(self).discovered() { Seq::empty() } else { final(self).plugins_discovery() },
                final(self).plugins_readings(),
                final(self).plugins_polls(),
                final(self).plugins_strict(),
                error_count(r),
            ),
    {
        let n = self.plugins.len();
        let mut found: Vec<(Vec<Sensor>, Result<(), P::Error>)> = Vec::new();
        if !self.has_discovered_sensors {
            for i in 0..n
                invariant
                    n == self.plugins@.len(),
                    self.storages@ == old(self).storages@,
                    self.sensor_to_plugin == old(self).sensor_to_plugin,
                    self.has_discovered_sensors == old(self).has_discovered_sensors,
                    found@.len() == i,
                    P::keeps_answer_records() ==> forall|j: int| 0 <= j < i ==> {
                        &&& found@[j].0@ == (#[trigger] self.plugins@[j]).found_record()
                        &&& found@[j].1 == self.plugins@[j].discovery_record()
                    },
            {
                let answer = self.plugins[i].discover_sensors();
                found.push(answer);
            }
        }
        let ghost disc_plugins = self.plugins@;
        let mut answers: Vec<(Vec<(OwnedKey, S)>, Result<(), P::Error>, bool)> = Vec::new();
        for i in 0..n
            invariant
                n == self.plugins@.len(),
                self.storages@ == old(self).storages@,
                self.sensor_to_plugin == old(self).sensor_to_plugin,
                self.has_discovered_sensors == old(self).has_discovered_sensors,
                answers@.len() == i,
                disc_plugins.len() == n,
                forall|j: int| i <= j < n ==> #[trigger] self.plugins@[j] == disc_plugins[j],
                P::keeps_answer_records() ==> forall|j: int| 0 <= j < n ==> {
                    &&& (#[trigger] self.plugins@[j]).found_record() == disc_plugins[j].found_record()
                    &&& self.plugins@[j].discovery_record() == disc_plugins[j].discovery_record()
                },
                P::keeps_answer_records() ==> forall|j: int| 0 <= j < i ==> {
                    &&& answers@[j].0@ == (#[trigger] self.plugins@[j]).readings_record()
                    &&& answers@[j].1 == self.plugins@[j].poll_record()
                    &&& answers@[j].2 == self.plugins@[j].counts_unknown_record()
                },
        {
            let (readings, outcome) = self.plugins[i].update();
            let counts = self.plugins[i].reports_unknown_sensors();
            answers.push((readings, outcome, counts));
        }
        let ghost asked = *self;
        proof {
            assert(asked.storages@ == old(self).storages@);
            assert forall|j: int| 0 <= j < n implies #[trigger] asked.storage_of(j) == old(self).storage_of(j) by {}
            assert(asked.registry() == old(self).registry());
        }
        let ghost fseq = if asked.discovered() { Seq::<Seq<Sensor>>::empty() } else { found_sensors(found@) };
        let ghost fres = if asked.discovered() { Seq::<Result<(), P::Error>>::empty() } else { found_results(found@) };
        let ghost rseq = answer_readings(answers@);
        let ghost rres = answer_results(answers@);
        let ghost strict = answer_strict(answers@);
        let ghost polled_plugins = self.plugins@;
        proof {
            if P::keeps_answer_records() {
                assert(rseq =~= Seq::new(n as nat, |j: int| polled_plugins[j].readings_record()));
                assert(rres =~= Seq::new(n as nat, |j: int| polled_plugins[j].poll_record()));
                assert(strict =~= Seq::new(n as nat, |j: int| polled_plugins[j].counts_unknown_record()));
                if !asked.discovered() {
                    assert(fseq =~= Seq::new(n as nat, |j: int| polled_plugins[j].found_record()));
                    assert(fres =~= Seq::new(n as nat, |j: int| polled_plugins[j].discovery_record()));
                }
            }
        }
        let r = self.record_poll(found, answers);
        proof {
            assert(self.plugin_seq() == polled_plugins);
            assert(asked.polled(*self, fseq, fres, rseq, rres, strict, error_count(r)));
            assert forall|j: int| 0 <= j < n implies #[trigger] asked.discovered_storage(fseq, j) == old(self).discovered_storage(fseq, j) by {}
            assert forall|k: int| 0 <= k <= n implies #[trigger] asked.unknown_total(fseq, rseq, strict, k) == old(self).unknown_total(fseq, rseq, strict, k) by {
                Self::lemma_unknown_total_same(asked, *old(self), fseq, rseq, strict, k);
            }
            assert(old(self).polled(*self, fseq, fres, rseq, rres, strict, error_count(r)));
        }
        r
    }

    /// Two storages with the same contents and discovery state count the same unknown sensors.
    proof fn lemma_unknown_total_same(a: Self, b: Self, found: Seq<Seq<Sensor>>, readings: Seq<Seq<(OwnedKey, S)>>, strict: Seq<bool>, k: int)
        requires
            a.discovered() == b.discovered(),
            a.plugin_count() == b.plugin_count(),
            forall|j: int| 0 <= j < a.plugin_count() ==> #[trigger] a.storage_of(j) == b.storage_of(j),
            k <= a.plugin_count(),
        ensures
            a.unknown_total(found, readings, strict, k) == b.unknown_total(found, readings, strict, k),
        decreases k,
    {
        if k > 0 {
            Self::lemma_unknown_total_same(a, b, found, readings, strict, k - 1);
            assert(a.storage_of(k - 1) == b.storage_of(k - 1));
        }
    }

    /// The metadata of a sensor, if some plugin registered it.
    pub fn get_sensor<K: SensorKey>(&self, key: &K) -> (r: Option<&Sensor>)
        requires
            self.well_formed(),
        ensures
            self.registry().contains_key(key.sensor_key()) ==> r == Some(
                &self.storage_of(self.registry()[key.sensor_key()] as int)[key.sensor_key()].0,
            ),
            !self.registry().contains_key(key.sensor_key()) ==> r is None,
            r matches Some(x) ==> x.sensor_key() == key.sensor_key(),
    {
        let (adapter, name) = key.get_sensor_key();
        match key_index_get(&self.sensor_to_plugin, adapter, name) {
            Some(p) => self.storages[p].get_sensor(key),
            None => None,
        }
    }

    /// The metadata and state of the sensor with key `k`, if it is registered and has a state.
    pub open spec fn data_for(&self, k: KeyView) -> Option<(Sensor, S)> {
        let reg = self.registry();
        if reg.contains_key(k) && self.storage_of(reg[k] as int)[k].1 is Some {
            Some((self.storage_of(reg[k] as int)[k].0, self.storage_of(reg[k] as int)[k].1->0))
        } else {
            None
        }
    }

    /// Deletes the state of the registered sensor referred to by `key`, keeping the sensor;
    /// returns the state it had. Nothing changes if no sensor is registered under that key.
    pub fn clear_state<K: SensorKey>(&mut self, key: &K) -> (r: Option<S>)
        requires
            old(self).well_formed(),
        ensures
            final(self).well_formed(),
            final(self).plugin_count() == old(self).plugin_count(),
            final(self).registry() == old(self).registry(),
            final(self).discovered() == old(self).discovered(),
            old(self).registry().contains_key(key.sensor_key()) ==> {
                let p = old(self).registry()[key.sensor_key()] as int;
                let m = old(self).storage_of(p);
                &&& r == m[key.sensor_key()].1
                &&& final(self).storage_of(p) == m.insert(key.sensor_key(), (m[key.sensor_key()].0, None::<S>))
                &&& forall|i: int| 0 <= i < old(self).plugin_count() && i != p ==> #[trigger] final(self).storage_of(i) == old(self).storage_of(i)
            },
            !old(self).registry().contains_key(key.sensor_key()) ==> {
                &&& r is None
                &&& forall|i: int| 0 <= i < old(self).plugin_count() ==> #[trigger] final(self).storage_of(i) == old(self).storage_of(i)
            },
    {
        let (adapter, name) = key.get_sensor_key();
        match key_index_get(&self.sensor_to_plugin, adapter, name) {
            Some(p) => {
                let ghost before = self.storages@;
                let r = self.storages[p].clear_state(key);
                proof {
                    let k = key.sensor_key();
                    assert(self.storages@[p as int].contents().dom() =~= before[p as int].contents().dom());
                    assert forall|i: int| 0 <= i < self.storages@.len() && i != p implies #[trigger] self.storages@[i] == before[i] by {}
                    assert forall|i: int, kk: KeyView| 0 <= i < self.storages@.len() && #[trigger] self.storages@[i].contents().contains_key(kk)
                        implies key_index_contents(self.sensor_to_plugin).contains_key(kk) by {
                        assert(before[i].contents().contains_key(kk));
                    }
                    assert forall|kk: KeyView| #[trigger] key_index_contents(self.sensor_to_plugin).contains_key(kk)
                        implies self.storages@[key_index_contents(self.sensor_to_plugin)[kk] as int].contents().contains_key(kk) by {
                        assert(before[key_index_contents(self.sensor_to_plugin)[kk] as int].contents().contains_key(kk));
                    }
                }
                r
            },
            None => None,
        }
    }

    /// The metadata and state of a sensor combined.
    ///
    /// Returns `None` if the sensor does not exist _or_ it does not have any data.
    pub fn get_sensor_data<K: SensorKey>(&self, key: &K) -> (r: Option<(&Sensor, &S)>)
        requires
            self.well_formed(),
        ensures
            match self.data_for(key.sensor_key()) {
                Some(d) => (r matches Some(x) && *x.0 == d.0 && *x.1 == d.1),
                None => r is None,
            },
            r matches Some(x) ==> x.0.sensor_key() == key.sensor_key(),
    {
        let (adapter, name) = key.get_sensor_key();
        match key_index_get(&self.sensor_to_plugin, adapter, name) {
            Some(p) => self.storages[p].get(key),
            None => None,
        }
    }

    /// Some plugin's storage holds `e` under its key.
    pub open spec fn held_by_some_plugin(&self, e: (Sensor, Option<S>)) -> bool {
        exists|p: int| 0 <= p < self.plugin_count() && #[trigger] self.storage_of(p).contains_key(entry_key(e))
            && self.storage_of(p)[entry_key(e)] == e
    }

    /// Every entry that [`Self::iter`] gives is found again by its key: the registry knows the
    /// key, and the plugin it names holds a sensor under that key, which [`Self::get_sensor`]
    /// returns, carrying the same key.
    pub proof fn iterated_sensors_are_found(&self, e: (Sensor, Option<S>))
        requires
            self.well_formed(),
            self.held_by_some_plugin(e),
        ensures
            self.registry().contains_key(e.0.sensor_key()),
            self.registry()[e.0.sensor_key()] < self.plugin_count(),
            self.storage_of(self.registry()[e.0.sensor_key()] as int).contains_key(e.0.sensor_key()),
            self.storage_of(self.registry()[e.0.sensor_key()] as int)[e.0.sensor_key()].0.sensor_key() == e.0.sensor_key(),
    {
        let p = choose|p: int| 0 <= p < self.plugin_count() && #[trigger] self.storage_of(p).contains_key(entry_key(e))
            && self.storage_of(p)[entry_key(e)] == e;
        self.stored_sensors_are_registered(p, entry_key(e));
        let q = self.registry()[entry_key(e)] as int;
        self.stored_sensors_are_registered(q, entry_key(e));
    }

    /// Some plugin's storage holds the sensor `s` under its key.
    pub open spec fn sensor_held(&self, s: Sensor) -> bool {
        exists|p: int| 0 <= p < self.plugin_count() && #[trigger] self.storage_of(p).contains_key(s.sensor_key())
            && self.storage_of(p)[s.sensor_key()].0 == s
    }

    /// Each of `out` is stored, under its key, by the plugin that `owner` names, one below `p`.
    spec fn refs_sound(&self, out: Seq<&(Sensor, Option<S>)>, owner: Seq<int>, p: int) -> bool {
        &&& owner.len() == out.len()
        &&& forall|i: int| 0 <= i < out.len() ==> #[trigger] self.step_ok(out, owner, p, i)
    }

    /// Element `i` of `out` is stored, under its key, by plugin `owner[i]`, which is below `p`.
    spec fn step_ok(&self, out: Seq<&(Sensor, Option<S>)>, owner: Seq<int>, p: int, i: int) -> bool {
        &&& 0 <= owner[i] < p
        &&& self.storage_of(owner[i]).contains_key(entry_key(*out[i]))
        &&& self.storage_of(owner[i])[entry_key(*out[i])] == *out[i]
    }

    /// Everything stored by the plugins below `p` is among `out`.
    spec fn refs_complete(&self, out: Seq<&(Sensor, Option<S>)>, p: int) -> bool {
        forall|q: int, k: KeyView| 0 <= q < p && #[trigger] self.storage_of(q).contains_key(k)
            ==> exists|i: int| 0 <= i < out.len() && *out[i] == self.storage_of(q)[k]
    }

    proof fn lemma_iter_step(
        &self,
        before: Seq<&(Sensor, Option<S>)>,
        owner_before: Seq<int>,
        part: Seq<&(Sensor, Option<S>)>,
        p: int,
    )
        requires
            self.well_formed(),
            0 <= p < self.plugin_count(),
            self.refs_sound(before, owner_before, p),
            self.refs_complete(before, p),
            forall|i: int| 0 <= i < part.len() ==> self.storage_of(p).contains_key(entry_key(*#[trigger] part[i]))
                && self.storage_of(p)[entry_key(*part[i])] == *part[i],
            forall|k: KeyView| #[trigger] self.storage_of(p).contains_key(k) ==> exists|i: int| 0 <= i < part.len() && entry_key(*part[i]) == k,
        ensures
            self.refs_sound(before + part, owner_before + repeat_int(p, part.len()), p + 1),
            self.refs_complete(before + part, p + 1),
    {
        let out = before + part;
        let owner = owner_before + repeat_int(p, part.len());
        assert(owner.len() == out.len());
        assert forall|i: int| 0 <= i < out.len() implies #[trigger] self.step_ok(out, owner, p + 1, i) by {
            if i < before.len() {
                assert(out[i] == before[i]);
                assert(owner[i] == owner_before[i]);
                assert(self.step_ok(before, owner_before, p, i));
            } else {
                let jj = i - before.len();
                assert(out[i] == part[jj]);
                assert(owner[i] == p);
            }
        }
        assert forall|q: int, k: KeyView| 0 <= q < p + 1 && #[trigger] self.storage_of(q).contains_key(k)
            implies exists|i: int| 0 <= i < out.len() && *out[i] == self.storage_of(q)[k] by {
            if q < p {
                let i0 = choose|i: int| 0 <= i < before.len() && *before[i] == self.storage_of(q)[k];
                assert(out[i0] == before[i0]);
            } else {
                let jj = choose|i: int| 0 <= i < part.len() && entry_key(*part[i]) == k;
                assert(out[before.len() + jj] == part[jj]);
            }
        }
    }

    /// All sensors of all plugins with their states, in an unspecified order.
    pub fn iter(&self) -> (r: Vec<&(Sensor, Option<S>)>)
        requires
            self.well_formed(),
        ensures
            forall|i: int| 0 <= i < r@.len() ==> self.held_by_some_plugin(*#[trigger] r@[i]),
            forall|p: int, k: KeyView| 0 <= p < self.plugin_count() && #[trigger] self.storage_of(p).contains_key(k)
                ==> exists|i: int| 0 <= i < r@.len() && *r@[i] == self.storage_of(p)[k],
    {
        let mut out: Vec<&(Sensor, Option<S>)> = Vec::new();
        let ghost mut owner: Seq<int> = Seq::empty();
        let n = self.storages.len();
        let mut p: usize = 0;
        while p < n
            invariant
                self.well_formed(),
                n == self.storages@.len(),
                p <= n,
                self.refs_sound(out@, owner, p as int),
                self.refs_complete(out@, p as int),
            decreases n - p,
        {
            let part = self.storages[p].iter();
            let ghost before = out@;
            let ghost owner_before = owner;
            append_refs(&mut out, part);
            proof {
                self.lemma_iter_step(before, owner_before, part@, p as int);
                owner = owner_before + repeat_int(p as int, part@.len());
            }
            p = p + 1;
        }
        proof {
            assert forall|i: int| 0 <= i < out@.len() implies self.held_by_some_plugin(*#[trigger] out@[i]) by {
                assert(self.step_ok(out@, owner, n as int, i));
            }
        }
        out
    }

    /// All sensors of all plugins, in an unspecified order.
    pub fn iter_sensors(&self) -> (r: Vec<&Sensor>)
        requires
            self.well_formed(),
        ensures
            forall|i: int| 0 <= i < r@.len() ==> self.sensor_held(*#[trigger] r@[i]),
            forall|p: int, k: KeyView| 0 <= p < self.plugin_count() && #[trigger] self.storage_of(p).contains_key(k)
                ==> exists|i: int| 0 <= i < r@.len() && *r@[i] == self.storage_of(p)[k].0,
    {
        let all = self.iter();
        let mut out: Vec<&Sensor> = Vec::new();
        let n = all.len();
        for i in 0..n
            invariant
                n == all@.len(),
                out@.len() == i,
                forall|j: int| 0 <= j < i ==> *#[trigger] out@[j] == all@[j].0,
        {
            out.push(&all[i].0);
        }
        proof {
            assert forall|i: int| 0 <= i < out@.len() implies self.sensor_held(*#[trigger] out@[i]) by {
                assert(self.held_by_some_plugin(*all@[i]));
                let p = choose|p: int| 0 <= p < self.plugin_count() && #[trigger] self.storage_of(p).contains_key(entry_key(*all@[i]))
                    && self.storage_of(p)[entry_key(*all@[i])] == *all@[i];
                assert(self.storage_of(p).contains_key(out@[i].sensor_key()));
            }
            assert forall|p: int, k: KeyView| 0 <= p < self.plugin_count() && #[trigger] self.storage_of(p).contains_key(k)
                implies exists|i: int| 0 <= i < out@.len() && *out@[i] == self.storage_of(p)[k].0 by {
                let i = choose|i: int| 0 <= i < all@.len() && *all@[i] == self.storage_of(p)[k];
                assert(*out@[i] == all@[i].0);
            }
        }
        out
    }

    /// All sensors that have a state, each with its state, in an unspecified order.
    pub fn iter_data(&self) -> (r: Vec<(&Sensor, &S)>)
        requires
            self.well_formed(),
        ensures
            forall|i: int| 0 <= i < r@.len() ==> self.held_by_some_plugin((*(#[trigger] r@[i]).0, Some(*r@[i].1))),
            forall|p: int, k: KeyView| 0 <= p < self.plugin_count() && #[trigger] self.storage_of(p).contains_key(k)
                && self.storage_of(p)[k].1 is Some
                ==> exists|i: int| 0 <= i < r@.len() && *r@[i].0 == self.storage_of(p)[k].0 && Some(*r@[i].1) == self.storage_of(p)[k].1,
    {
        let all = self.iter();
        let mut out: Vec<(&Sensor, &S)> = Vec::new();
        let ghost mut source: Seq<int> = Seq::empty();
        let n = all.len();
        for i in 0..n
            invariant
                n == all@.len(),
                source.len() == out@.len(),
                forall|j: int| 0 <= j < out@.len() ==> 0 <= #[trigger] source[j] < i
                    && *out@[j].0 == all@[source[j]].0 && Some(*out@[j].1) == all@[source[j]].1,
                forall|j: int| 0 <= j < i && (#[trigger] all@[j]).1 is Some ==> exists|m: int| 0 <= m < out@.len() && source[m] == j,
        {
            let entry = all[i];
            match &entry.1 {
                Some(state) => {
                    let ghost source_before = source;
                    out.push((&entry.0, state));
                    proof {
                        source = source.push(i as int);
                        assert(source[out@.len() - 1] == i);
                        assert forall|j: int| 0 <= j < i + 1 && (#[trigger] all@[j]).1 is Some implies exists|m: int| 0 <= m < out@.len() && source[m] == j by {
                            if j < i {
                                let m = choose|m: int| 0 <= m < source_before.len() && source_before[m] == j;
                                assert(source[m] == source_before[m]);
                            } else {
                                assert(source[out@.len() - 1] == i);
                            }
                        }
                    }
                },
                None => {},
            }
        }
        proof {
            assert forall|i: int| 0 <= i < out@.len() implies self.held_by_some_plugin((*(#[trigger] out@[i]).0, Some(*out@[i].1))) by {
                let j = source[i];
                assert(self.held_by_some_plugin(*all@[j]));
                assert((*out@[i].0, Some(*out@[i].1)) == *all@[j]);
            }
            assert forall|p: int, k: KeyView| 0 <= p < self.plugin_count() && #[trigger] self.storage_of(p).contains_key(k)
                && self.storage_of(p)[k].1 is Some
                implies exists|i: int| 0 <= i < out@.len() && *out@[i].0 == self.storage_of(p)[k].0 && Some(*out@[i].1) == self.storage_of(p)[k].1 by {
                let j = choose|j: int| 0 <= j < all@.len() && *all@[j] == self.storage_of(p)[k];
                assert(all@[j].1 is Some);
                let m = choose|m: int| 0 <= m < out@.len() && source[m] == j;
                assert(*out@[m].0 == all@[j].0);
            }
        }
        out
    }

    /// Stores the states that plugin `plugin` reported. Returns the keys of the readings
    /// for which that plugin's storage holds no sensor (those readings are dropped).
    pub fn apply_readings(&mut self, plugin: usize, readings: Vec<(OwnedKey, S)>) -> (r: Vec<OwnedKey>)
        requires
            old(self).well_formed(),
            plugin < old(self).plugin_count(),
        ensures
            final(self).well_formed(),
            final(self).plugin_count() == old(self).plugin_count(),
            final(self).storage_of(plugin as int) == with_readings(old(self).storage_of(plugin as int), readings@),
            forall|i: int| 0 <= i < old(self).plugin_count() && i != plugin ==> #[trigger] final(self).storage_of(i) == old(self).storage_of(i),
            r@.map_values(|k: OwnedKey| k@) == unknown_keys(old(self).storage_of(plugin as int), readings@),
            final(self).registry() == old(self).registry(),
            final(self).discovered() == old(self).discovered(),
            final(self).plugin_seq() == old(self).plugin_seq(),
    {
        let ghost all = readings@;
        let ghost start_storage = self.storage_of(plugin as int);
        let ghost start_storages = self.storages@;
        let mut unknown: Vec<OwnedKey> = Vec::new();
        for reading in it: readings.into_iter()
            invariant
                it.seq() == all,
                self.well_formed(),
                plugin < self.storages@.len(),
                self.storages@.len() == start_storages.len(),
                self.storage_of(plugin as int) == with_readings(start_storage, all.take(it.index() as int)),
                forall|i: int| 0 <= i < start_storages.len() && i != plugin ==> #[trigger] self.storages@[i] == start_storages[i],
                unknown@.map_values(|k: OwnedKey| k@) == unknown_keys(start_storage, all.take(it.index() as int)),
                self.registry() == old(self).registry(),
                self.has_discovered_sensors == old(self).has_discovered_sensors,
                self.plugins == old(self).plugins,
        {
            let ghost before_storages = self.storages@;
            let ghost before_unknown = unknown@;
            let (key, state) = reading;
            proof {
                let idx = it.index() as int;
                assert(all.take(idx + 1).drop_last() == all.take(idx));
                assert(all.take(idx + 1).last() == reading);
                lemma_with_readings_keeps_keys(start_storage, all.take(idx));
            }
            match self.storages[plugin].put_state(&key, state) {
                Ok(_) => {},
                Err(_) => {
                    unknown.push(key);
                },
            }
            proof {
                let idx = it.index() as int;
                assert(unknown@.map_values(|k: OwnedKey| k@) =~= unknown_keys(start_storage, all.take(idx + 1)));
                let reg = key_index_contents(self.sensor_to_plugin);
                assert forall|i: int| 0 <= i < self.storages@.len() implies (#[trigger] self.storages@[i]).well_formed() by {
                    if i != plugin {
                        assert(self.storages@[i] == before_storages[i]);
                    }
                }
                assert forall|kk: KeyView| #[trigger] reg.contains_key(kk) implies reg[kk] < self.storages@.len()
                    && self.storages@[reg[kk] as int].contents().contains_key(kk) by {
                    let owner = reg[kk] as int;
                    if owner != plugin {
                        assert(self.storages@[owner] == before_storages[owner]);
                    }
                }
                assert forall|i: int| 0 <= i < start_storages.len() && i != plugin implies #[trigger] self.storages@[i] == start_storages[i] by {
                    assert(self.storages@[i] == before_storages[i]);
                }
            }
        }
        proof {
            assert(all.take(all.len() as int) == all);
        }
        unknown
    }
}

} // verus!
