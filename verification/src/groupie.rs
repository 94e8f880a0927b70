//! Groupie is the central sensor managing API.
//! All sensor data is collected in a single [`SensorStorage`],
//! which holds one [`PluginStorage`] per enabled [`SensorPlugin`].
//!
//! This module also contains the data structures needed to work with sensor data,
//! most notably the [`SensorKey`] trait and the [`OwnedKey`] struct.

use std::rc::Rc;
use vstd::prelude::*;

use crate::text::{compare_text, concat_str, text_eq, text_lt, text_order, TextOrder};

pub mod libsensors;
pub mod nvidia;
pub mod lm_sensors;
pub mod nvml;
pub mod storage;

verus! {

/// The pair that identifies a sensor: its adapter key, then its name.
pub type KeyView = (Seq<char>, Seq<char>);

/// Strict order on sensor keys: lexicographic, first by adapter key, then by sensor name.
pub open spec fn key_lt(a: KeyView, b: KeyView) -> bool {
    text_lt(a.0, b.0) || (a.0 == b.0 && text_lt(a.1, b.1))
}

/// The three-way comparison that `key_lt` induces.
pub open spec fn key_order(a: KeyView, b: KeyView) -> TextOrder {
    if a == b {
        TextOrder::Equal
    } else if key_lt(a, b) {
        TextOrder::Less
    } else {
        TextOrder::Greater
    }
}

/// A helper for displaying a [`SensorKey`] as `<adapter key>/<sensor name>`.
/// Made by [`SensorKey::display`].
pub struct KeyWriter<'a>(pub &'a str, pub &'a str);

impl<'a> KeyWriter<'a> {
    /// The displayed text: the first part, a `/`, then the second part.
    pub fn to_string(&self) -> (r: String)
        ensures
            r@ == self.0@ + seq!['/'] + self.1@,
    {
        let mut s = concat_str(self.0, "/");
        proof {
            reveal_strlit("/");
        }
        s.append(self.1);
        s
    }
}

/// A sensor key is any data structure that can be used to uniquely identify a [`Sensor`].
///
/// Two things uniquely identify a sensor: the key of its adapter and its name.
/// The core of this trait is [`Self::get_sensor_key`], which retrieves this pair.
pub trait SensorKey {
    /// The (adapter key, sensor name) pair that this value identifies.
    spec fn sensor_key(&self) -> KeyView;

    /// Get the uniquely identifying sensor key contained in this data structure.
    ///
    /// The first value is the adapter key and the second the sensor name.
    fn get_sensor_key(&self) -> (r: (&str, &str))
        ensures
            (r.0@, r.1@) == self.sensor_key(),
    ;

    /// Like [`Self::get_sensor_key`], but returns an [`OwnedKey`] instead.
    fn get_owned_key(&self) -> (r: OwnedKey)
        ensures
            r@ == self.sensor_key(),
    {
        let (adapter, name) = self.get_sensor_key();
        OwnedKey { adapter: String::from_str(adapter), name: String::from_str(name) }
    }

    /// Three-way comparison of two sensor keys. The order is lexicographic, with highest
    /// priority on the adapter key and secondary comparison on the sensor name, so that
    /// (A, a), (A, b), (B, a), (B, b) is in order.
    ///
    /// The other key is given as the (adapter key, sensor name) pair that
    /// [`Self::get_sensor_key`] returns.
    fn cmp_by_sensor_key(&self, theirs: (&str, &str)) -> (r: TextOrder)
        ensures
            r == key_order(self.sensor_key(), (theirs.0@, theirs.1@)),
    {
        let mine = self.get_sensor_key();
        proof {
            crate::text::lemma_text_lt_trichotomy(mine.0@, theirs.0@);
            crate::text::lemma_text_lt_trichotomy(mine.1@, theirs.1@);
        }
        match compare_text(mine.0, theirs.0) {
            TextOrder::Equal => compare_text(mine.1, theirs.1),
            x => x,
        }
    }

    /// Returns a helper for displaying a sensor key, formatted as `<adapter key>/<sensor name>`.
    fn display(&self) -> (r: KeyWriter<'_>)
        ensures
            (r.0@, r.1@) == self.sensor_key(),
    {
        let (name, adapter) = self.get_sensor_key();
        KeyWriter(name, adapter)
    }

    /// Returns only the second part of the sensor key.
    fn get_sensor_name(&self) -> (r: &str)
        ensures
            r@ == self.sensor_key().1,
    {
        self.get_sensor_key().1
    }

    /// Returns only the first part of the sensor key.
    fn get_adapter_key(&self) -> (r: &str)
        ensures
            r@ == self.sensor_key().0,
    {
        self.get_sensor_key().0
    }
}

impl<'a, 'b> SensorKey for (&'a str, &'b str) {
    open spec fn sensor_key(&self) -> KeyView {
        (self.0@, self.1@)
    }

    fn get_sensor_key(&self) -> (r: (&str, &str)) {
        (self.0, self.1)
    }
}

impl SensorKey for (String, String) {
    open spec fn sensor_key(&self) -> KeyView {
        (self.0@, self.1@)
    }

    fn get_sensor_key(&self) -> (r: (&str, &str)) {
        (self.0.as_str(), self.1.as_str())
    }
}

/// An owned implementor of [`SensorKey`].
#[derive(Debug, Clone, Hash)]
pub struct OwnedKey {
    pub adapter: String,
    pub name: String,
}

impl View for OwnedKey {
    type V = KeyView;

    open spec fn view(&self) -> KeyView {
        (self.adapter@, self.name@)
    }
}

impl OwnedKey {
    /// Builds a key from an (adapter key, sensor name) pair.
    pub fn from_pair(value: (String, String)) -> (r: OwnedKey)
        ensures
            r@ == (value.0@, value.1@),
    {
        OwnedKey { adapter: value.0, name: value.1 }
    }

    /// Splits the key into its (adapter key, sensor name) pair.
    pub fn into_pair(self) -> (r: (String, String))
        ensures
            (r.0@, r.1@) == self@,
    {
        (self.adapter, self.name)
    }

    /// Builds an owned key from borrowed parts.
    pub fn from_parts(adapter: &str, name: &str) -> (r: OwnedKey)
        ensures
            r@ == (adapter@, name@),
    {
        OwnedKey { adapter: String::from_str(adapter), name: String::from_str(name) }
    }

    /// Whether the two keys are equal.
    pub fn same_as(&self, other: &OwnedKey) -> (r: bool)
        ensures
            r == (self@ == other@),
    {
        text_eq(self.adapter.as_str(), other.adapter.as_str()) && text_eq(self.name.as_str(), other.name.as_str())
    }

    /// The key displayed as `<adapter key>/<sensor name>`.
    pub fn to_string(&self) -> (r: String)
        ensures
            r@ == self.adapter@ + seq!['/'] + self.name@,
    {
        self.display().to_string()
    }
}

impl SensorKey for OwnedKey {
    open spec fn sensor_key(&self) -> KeyView {
        self@
    }

    fn get_sensor_key(&self) -> (r: (&str, &str)) {
        (self.adapter.as_str(), self.name.as_str())
    }
}

/// An adapter (or chip, or bus, or device) is a logical object on which sensors can be found.
/// What qualifies as an adapter is left to each sensor plugin.
#[derive(Debug)]
pub struct Adapter {
    /// The key uniquely identifies this adapter.
    /// Two different logical adapters should never be referred to by the same key.
    pub key: String,
    /// A human-readable name for this adapter. It need not be unique.
    pub name: String,
}

impl PartialEq for Adapter {
    /// Adapters are equal when their keys are.
    fn eq(&self, other: &Self) -> (r: bool) {
        self.key == other.key
    }
}

impl vstd::std_specs::cmp::PartialEqSpecImpl for Adapter {
    open spec fn obeys_eq_spec() -> bool {
        true
    }

    open spec fn eq_spec(&self, other: &Adapter) -> bool {
        self.key@ == other.key@
    }
}

impl Adapter {
    /// Orders adapters by their keys.
    pub fn cmp_by_key(&self, other: &Adapter) -> (r: TextOrder)
        ensures
            r == text_order(self.key@, other.key@),
    {
        compare_text(self.key.as_str(), other.key.as_str())
    }

    /// What an adapter is displayed as: its name.
    pub fn to_string(&self) -> (r: String)
        ensures
            r@ == self.name@,
    {
        self.name.clone()
    }
}

/// The kind of value a sensor is storing. This also corresponds to a particular unit.
///
/// Units are kept in their "everyday" format, but scaled down to their base unit where
/// applicable (e.g. [`Self::Fan`] uses RPM, but [`Self::Power`] uses watts, not milliwatts).
#[derive(Debug, Clone, Copy, Hash, PartialEq, Eq, Structural, PartialOrd, Ord)]
pub enum SensorKind {
    Temperature,
    Fan,
    Beep,
    Power,
    Voltmeter,
    Current,
    Energy,
}

/// The unit affix of each kind of sensor.
pub open spec fn unit_of(kind: SensorKind) -> Seq<char> {
    match kind {
        SensorKind::Temperature => seq!['°', 'C'],
        SensorKind::Fan => seq!['R', 'P', 'M'],
        SensorKind::Beep => Seq::empty(),
        SensorKind::Power => seq!['W'],
        SensorKind::Voltmeter => seq!['V'],
        SensorKind::Current => seq!['A'],
        SensorKind::Energy => seq!['J'],
    }
}

/// The kebab-case name of each kind (as used on the command line and in configuration).
pub open spec fn kind_name(kind: SensorKind) -> Seq<char> {
    match kind {
        SensorKind::Temperature => seq!['t', 'e', 'm', 'p', 'e', 'r', 'a', 't', 'u', 'r', 'e'],
        SensorKind::Fan => seq!['f', 'a', 'n'],
        SensorKind::Beep => seq!['b', 'e', 'e', 'p'],
        SensorKind::Power => seq!['p', 'o', 'w', 'e', 'r'],
        SensorKind::Voltmeter => seq!['v', 'o', 'l', 't', 'm', 'e', 't', 'e', 'r'],
        SensorKind::Current => seq!['c', 'u', 'r', 'r', 'e', 'n', 't'],
        SensorKind::Energy => seq!['e', 'n', 'e', 'r', 'g', 'y'],
    }
}

impl SensorKind {
    /// All kinds, in declaration order.
    pub fn variants() -> (r: Vec<SensorKind>)
        ensures
            r@ == seq![
                SensorKind::Temperature,
                SensorKind::Fan,
                SensorKind::Beep,
                SensorKind::Power,
                SensorKind::Voltmeter,
                SensorKind::Current,
                SensorKind::Energy,
            ],
    {
        vec![
            SensorKind::Temperature,
            SensorKind::Fan,
            SensorKind::Beep,
            SensorKind::Power,
            SensorKind::Voltmeter,
            SensorKind::Current,
            SensorKind::Energy,
        ]
    }

    /// Get the unit affix for this kind of sensor.
    pub fn get_unit(self) -> (r: &'static str)
        ensures
            r@ == unit_of(self),
    {
        proof {
            reveal_strlit("°C");
            reveal_strlit("RPM");
            reveal_strlit("");
            reveal_strlit("W");
            reveal_strlit("V");
            reveal_strlit("A");
            reveal_strlit("J");
        }
        match self {
            SensorKind::Temperature => "°C",
            SensorKind::Fan => "RPM",
            SensorKind::Beep => "",
            SensorKind::Power => "W",
            SensorKind::Voltmeter => "V",
            SensorKind::Current => "A",
            SensorKind::Energy => "J",
        }
    }

    /// The kebab-case name of this kind.
    pub fn name(self) -> (r: &'static str)
        ensures
            r@ == kind_name(self),
    {
        proof {
            reveal_strlit("temperature");
            reveal_strlit("fan");
            reveal_strlit("beep");
            reveal_strlit("power");
            reveal_strlit("voltmeter");
            reveal_strlit("current");
            reveal_strlit("energy");
        }
        match self {
            SensorKind::Temperature => "temperature",
            SensorKind::Fan => "fan",
            SensorKind::Beep => "beep",
            SensorKind::Power => "power",
            SensorKind::Voltmeter => "voltmeter",
            SensorKind::Current => "current",
            SensorKind::Energy => "energy",
        }
    }

    /// The kind whose kebab-case name is `s`, if any.
    pub fn from_name(s: &str) -> (r: Option<SensorKind>)
        ensures
            r matches Some(k) ==> kind_name(k) == s@,
            r is None ==> forall|k: SensorKind| kind_name(k) != s@,
    {
        let all = SensorKind::variants();
        let n = all.len();
        for i in 0..n
            invariant
                n == all@.len(),
                all@ == seq![
                    SensorKind::Temperature,
                    SensorKind::Fan,
                    SensorKind::Beep,
                    SensorKind::Power,
                    SensorKind::Voltmeter,
                    SensorKind::Current,
                    SensorKind::Energy,
                ],
                forall|j: int| 0 <= j < i ==> kind_name(#[trigger] all@[j]) != s@,
        {
            let k = all[i];
            if text_eq(k.name(), s) {
                return Some(k);
            }
        }
        proof {
            assert forall|k: SensorKind| kind_name(k) != s@ by {
                match k {
                    SensorKind::Temperature => assert(kind_name(all@[0]) != s@),
                    SensorKind::Fan => assert(kind_name(all@[1]) != s@),
                    SensorKind::Beep => assert(kind_name(all@[2]) != s@),
                    SensorKind::Power => assert(kind_name(all@[3]) != s@),
                    SensorKind::Voltmeter => assert(kind_name(all@[4]) != s@),
                    SensorKind::Current => assert(kind_name(all@[5]) != s@),
                    SensorKind::Energy => assert(kind_name(all@[6]) != s@),
                }
            }
        }
        None
    }
}

/// Duplicates a shared pointer (calls `Rc::clone`).
/// Trusted: the new pointer points to the same value.
#[verifier::external_body]
pub(crate) fn share<T>(r: &Rc<T>) -> (c: Rc<T>)
    ensures
        *c == **r,
{
    Rc::clone(r)
}

/// The unchanging metadata about a sensor.
/// Collected by [`SensorStorage`] during the first [`SensorStorage::update`] call
/// and expected to be permanent for the entire runtime of the program.
#[derive(Debug)]
pub struct Sensor {
    pub name: String,
    pub adapter: Rc<Adapter>,
    pub kind: SensorKind,
}

impl Sensor {
    /// A copy of this sensor's metadata (sharing its adapter).
    pub fn duplicate(&self) -> (r: Sensor)
        ensures
            r == *self,
    {
        Sensor { name: self.name.clone(), adapter: share(&self.adapter), kind: self.kind }
    }
}

impl SensorKey for Sensor {
    open spec fn sensor_key(&self) -> KeyView {
        (self.adapter.key@, self.name@)
    }

    fn get_sensor_key(&self) -> (r: (&str, &str)) {
        (self.adapter.key.as_str(), self.name.as_str())
    }
}

/// `key_lt` never relates a key to itself.
pub proof fn key_order_irreflexive(a: KeyView)
    ensures
        !key_lt(a, a),
{
    crate::text::lemma_text_lt_irreflexive(a.0);
    crate::text::lemma_text_lt_irreflexive(a.1);
}

/// Any two distinct keys are ordered exactly one way round.
pub proof fn key_order_total(a: KeyView, b: KeyView)
    ensures
        a != b ==> (key_lt(a, b) || key_lt(b, a)),
        !(key_lt(a, b) && key_lt(b, a)),
{
    crate::text::lemma_text_lt_trichotomy(a.0, b.0);
    crate::text::lemma_text_lt_trichotomy(a.1, b.1);
}

/// `key_lt` is transitive.
pub proof fn key_order_transitive(a: KeyView, b: KeyView, c: KeyView)
    requires
        key_lt(a, b),
        key_lt(b, c),
    ensures
        key_lt(a, c),
{
    crate::text::lemma_text_lt_trichotomy(a.0, b.0);
    crate::text::lemma_text_lt_trichotomy(b.0, c.0);
    if text_lt(a.0, b.0) && text_lt(b.0, c.0) {
        crate::text::lemma_text_lt_transitive(a.0, b.0, c.0);
    }
    if text_lt(a.1, b.1) && text_lt(b.1, c.1) {
        crate::text::lemma_text_lt_transitive(a.1, b.1, c.1);
    }
}

/// Comparing `a` with `b` gives the reverse of comparing `b` with `a`.
pub proof fn key_order_antisymmetric(a: KeyView, b: KeyView)
    ensures
        key_order(a, b) == TextOrder::Less <==> key_order(b, a) == TextOrder::Greater,
        key_order(a, b) == TextOrder::Equal <==> a == b,
{
    key_order_total(a, b);
    key_order_irreflexive(a);
}

/// Different sensor kinds have different names, so reading back the name of a kind
/// (`SensorKind::from_name` of `SensorKind::name`) gives that kind again.
pub proof fn kind_name_round_trip(a: SensorKind, b: SensorKind)
    ensures
        kind_name(a) == kind_name(b) ==> a == b,
{
    if kind_name(a) == kind_name(b) {
        assert(kind_name(a).len() == kind_name(b).len());
    }
}

} // verus!
