//! Discovery of which fans each PWM controller drives: the bookkeeping around the measurements.

use vstd::prelude::*;

use crate::groupie::storage::{SensorPlugin, SensorStorage};
use crate::groupie::{KeyView, OwnedKey, Sensor, SensorKey};
use crate::text::push_char;

verus! {

/// A PWM controller and the fans (by sensor key) that it drives.
pub struct Pwm2Fan {
    pub pwm: String,
    pub fans: Vec<OwnedKey>,
}

/// Each of `items` followed by `separator`, all concatenated.
pub open spec fn join_each(items: Seq<Seq<char>>, separator: char) -> Seq<char>
    decreases items.len(),
{
    if items.len() == 0 {
        Seq::empty()
    } else {
        join_each(items.drop_last(), separator) + items.last().push(separator)
    }
}

/// Concatenates `items`, each followed by `separator`.
pub fn join_borrowed(items: &Vec<&str>, separator: char) -> (r: String)
    ensures
        r@ == join_each(items@.map_values(|s: &str| s@), separator),
{
    let ghost all = items@.map_values(|s: &str| s@);
    let mut out = String::new();
    let n = items.len();
    for i in 0..n
        invariant
            n == items@.len(),
            all == items@.map_values(|s: &str| s@),
            out@ == join_each(all.take(i as int), separator),
    {
        proof {
            assert(all.take(i + 1).drop_last() == all.take(i as int));
            assert(all.take(i + 1).last() == items@[i as int]@);
        }
        out.append(items[i]);
        push_char(&mut out, separator);
    }
    proof {
        assert(all.take(n as int) == all);
    }
    out
}

/// The fans at positions `affected` of `fans`, each as `<adapter key>/<sensor name> `.
pub open spec fn affected_text(fans: Seq<OwnedKey>, affected: Seq<usize>) -> Seq<char>
    decreases affected.len(),
{
    if affected.len() == 0 {
        Seq::empty()
    } else {
        let k = fans[affected.last() as int];
        affected_text(fans, affected.drop_last()) + k.adapter@ + seq!['/'] + k.name@ + seq![' ']
    }
}

/// Describes the fans that a controller was found to drive.
pub fn describe_affected(fans: &Vec<OwnedKey>, affected: &Vec<usize>) -> (r: String)
    requires
        forall|i: int| 0 <= i < affected@.len() ==> (#[trigger] affected@[i]) < fans@.len(),
    ensures
        r@ == affected_text(fans@, affected@),
{
    let mut out = String::new();
    let n = affected.len();
    for i in 0..n
        invariant
            n == affected@.len(),
            forall|j: int| 0 <= j < affected@.len() ==> (#[trigger] affected@[j]) < fans@.len(),
            out@ == affected_text(fans@, affected@.take(i as int)),
    {
        proof {
            assert(affected@.take(i + 1).drop_last() == affected@.take(i as int));
            assert(affected@.take(i + 1).last() == affected@[i as int]);
        }
        let k = &fans[affected[i]];
        out.append(k.adapter.as_str());
        push_char(&mut out, '/');
        out.append(k.name.as_str());
        push_char(&mut out, ' ');
    }
    proof {
        assert(affected@.take(n as int) == affected@);
    }
    out
}

/// The data that `state` holds for each of `keys`, in order; keys without data are skipped.
pub open spec fn all_data<P: SensorPlugin<S>, S>(state: SensorStorage<P, S>, keys: Seq<OwnedKey>) -> Seq<(Sensor, S)>
    decreases keys.len(),
{
    if keys.len() == 0 {
        Seq::empty()
    } else {
        let before = all_data(state, keys.drop_last());
        match state.data_for(keys.last()@) {
            Some(d) => before.push(d),
            None => before,
        }
    }
}

/// The data of each of `keys` that `state` holds, in order; keys without data are skipped.
pub fn get_all_in<'a, P: SensorPlugin<S>, S>(keys: &Vec<OwnedKey>, state: &'a SensorStorage<P, S>) -> (r: Vec<(&'a Sensor, &'a S)>)
    requires
        state.well_formed(),
    ensures
        r@.map_values(|d: (&Sensor, &S)| (*d.0, *d.1)) == all_data(*state, keys@),
{
    let mut out: Vec<(&'a Sensor, &'a S)> = Vec::new();
    let n = keys.len();
    for i in 0..n
        invariant
            n == keys@.len(),
            state.well_formed(),
            out@.map_values(|d: (&Sensor, &S)| (*d.0, *d.1)) == all_data(*state, keys@.take(i as int)),
    {
        proof {
            assert(keys@.take(i + 1).drop_last() == keys@.take(i as int));
            assert(keys@.take(i + 1).last() == keys@[i as int]);
        }
        let ghost before = out@;
        match state.get_sensor_data(&keys[i]) {
            Some(d) => {
                out.push(d);
                proof {
                    assert(out@.map_values(|d: (&Sensor, &S)| (*d.0, *d.1)) == before.map_values(|d: (&Sensor, &S)| (*d.0, *d.1)).push((*d.0, *d.1)));
                }
            },
            None => {},
        }
    }
    proof {
        assert(keys@.take(n as int) == keys@);
    }
    out
}

/// The keys of the fans at positions `affected` of `fans`, in order.
pub open spec fn affected_keys(fans: Seq<OwnedKey>, affected: Seq<usize>) -> Seq<KeyView> {
    affected.map_values(|i: usize| fans[i as int]@)
}

/// The keys of the fans at positions `affected` of `fans`.
fn owned_keys_at(fans: &Vec<OwnedKey>, affected: &Vec<usize>) -> (r: Vec<OwnedKey>)
    requires
        forall|i: int| 0 <= i < affected@.len() ==> (#[trigger] affected@[i]) < fans@.len(),
    ensures
        r@.map_values(|k: OwnedKey| k@) == affected_keys(fans@, affected@),
{
    let mut out: Vec<OwnedKey> = Vec::new();
    let n = affected.len();
    for i in 0..n
        invariant
            n == affected@.len(),
            forall|j: int| 0 <= j < affected@.len() ==> (#[trigger] affected@[j]) < fans@.len(),
            out@.len() == i,
            forall|j: int| 0 <= j < i ==> (#[trigger] out@[j])@ == fans@[affected@[j] as int]@,
    {
        out.push(fans[affected[i]].get_owned_key());
    }
    proof {
        assert(out@.map_values(|k: OwnedKey| k@) =~= affected_keys(fans@, affected@));
    }
    out
}

/// Pairs each controller (by key, in the order they were tested) with the fans that the test
/// found it to drive: `influence[i]` holds the positions in `fans` of the fans that slowed down
/// when controller `i` was turned down.
pub fn fan_associations(pwm_keys: &Vec<String>, fans: &Vec<OwnedKey>, influence: &Vec<Vec<usize>>) -> (r: Vec<Pwm2Fan>)
    requires
        influence@.len() <= pwm_keys@.len(),
        forall|i: int, j: int|
            0 <= i < influence@.len() && 0 <= j < influence@[i]@.len() ==> (#[trigger] influence@[i]@[j]) < fans@.len(),
    ensures
        r@.len() == influence@.len(),
        forall|i: int| 0 <= i < r@.len() ==> (#[trigger] r@[i]).pwm@ == pwm_keys@[i]@,
        forall|i: int| 0 <= i < r@.len() ==> (#[trigger] r@[i]).fans@.map_values(|k: OwnedKey| k@) == affected_keys(fans@, influence@[i]@),
{
    let mut out: Vec<Pwm2Fan> = Vec::new();
    let n = influence.len();
    for i in 0..n
        invariant
            n == influence@.len(),
            n <= pwm_keys@.len(),
            forall|i: int, j: int|
                0 <= i < influence@.len() && 0 <= j < influence@[i]@.len() ==> (#[trigger] influence@[i]@[j]) < fans@.len(),
            out@.len() == i,
            forall|j: int| 0 <= j < i ==> (#[trigger] out@[j]).pwm@ == pwm_keys@[j]@,
            forall|j: int| 0 <= j < i ==> (#[trigger] out@[j]).fans@.map_values(|k: OwnedKey| k@) == affected_keys(fans@, influence@[j]@),
    {
        let affected = &influence[i];
        proof {
            assert forall|j: int| 0 <= j < affected@.len() implies (#[trigger] affected@[j]) < fans@.len() by {
                assert(influence@[i as int]@[j] == affected@[j]);
            }
        }
        let keys = owned_keys_at(fans, affected);
        out.push(Pwm2Fan { pwm: pwm_keys[i].clone(), fans: keys });
    }
    out
}

} // verus!
