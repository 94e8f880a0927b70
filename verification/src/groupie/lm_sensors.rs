//! Naming conventions of the `sensors -j` (lm-sensors) output.

use vstd::prelude::*;

use super::SensorKind;
use crate::text::{chars_of, find_char, find_from, is_alphabetic, string_from_range, text_eq, unicode_alphabetic};
use crate::utils::MalformedDataError;

verus! {

/// The error for a reading key without a `_`.
pub const MISSING_SEPARATOR: &'static str = "Sensor key does not contain an _ (should be <key>_<dtype>)";
/// The error for an adapter entry without a textual `Adapter` name.
pub const ADAPTER_NAME_MISSING: &'static str = "Key value Adapter for Adapter not found or of incorrect type";
/// The start of the error for an adapter entry that is not an object.
pub const ADAPTER_NOT_OBJECT: &'static str = "Expected object for adapter, not ";
/// The error for a reading whose value is not a number.
pub const NOT_A_NUMBER: &'static str = "Expected f64 in sensor value";

/// `s` without its trailing characters that are not alphabetic
/// (what `str::trim_end_matches(|c: char| !c.is_alphabetic())` gives).
pub open spec fn trim_trailing_non_alphabetic(s: Seq<char>) -> Seq<char>
    decreases s.len(),
{
    if s.len() == 0 || unicode_alphabetic(s.last()) {
        s
    } else {
        trim_trailing_non_alphabetic(s.drop_last())
    }
}

/// The sensor kind that an lm-sensors name prefix stands for.
pub open spec fn lm_sensors_kind(prefix: Seq<char>) -> Option<SensorKind> {
    if prefix == seq!['t', 'e', 'm', 'p'] {
        Some(SensorKind::Temperature)
    } else if prefix == seq!['f', 'a', 'n'] {
        Some(SensorKind::Fan)
    } else if prefix == seq!['i', 'n'] {
        Some(SensorKind::Voltmeter)
    } else if prefix == seq!['b', 'e', 'e', 'p'] {
        Some(SensorKind::Beep)
    } else {
        None
    }
}

/// Determines the kind of a sensor from its name (a name is similar to "temp1", "temp12", or "beep"):
/// trailing characters that are not alphabetic are dropped, and what is left must be
/// "temp", "fan", "in" or "beep".
pub fn from_lm_sensors_name(name: &str) -> (r: Option<SensorKind>)
    ensures
        r == lm_sensors_kind(trim_trailing_non_alphabetic(name@)),
{
    let c = chars_of(name);
    let mut end = c.len();
    assert(c@.take(end as int) == c@);
    while end > 0 && !is_alphabetic(c[end - 1])
        invariant
            c@ == name@,
            end <= c@.len(),
            trim_trailing_non_alphabetic(c@.take(end as int)) == trim_trailing_non_alphabetic(c@),
        decreases end,
    {
        proof {
            assert(c@.take(end as int).drop_last() == c@.take(end - 1));
        }
        end = end - 1;
    }
    proof {
        if end > 0 {
            assert(c@.take(end as int).last() == c@[end - 1]);
        }
        assert(trim_trailing_non_alphabetic(c@.take(end as int)) == c@.take(end as int));
    }
    let kind = string_from_range(c.as_slice(), 0, end);
    let ghost k = c@.take(end as int);
    assert(kind@ == k);
    assert(k == c@.subrange(0, end as int));
    proof {
        reveal_strlit("temp");
        reveal_strlit("fan");
        reveal_strlit("in");
        reveal_strlit("beep");
        assert("temp"@ == seq!['t', 'e', 'm', 'p']);
        assert("fan"@ == seq!['f', 'a', 'n']);
        assert("in"@ == seq!['i', 'n']);
        assert("beep"@ == seq!['b', 'e', 'e', 'p']);
    }
    if text_eq(kind.as_str(), "temp") {
        Some(SensorKind::Temperature)
    } else if text_eq(kind.as_str(), "fan") {
        Some(SensorKind::Fan)
    } else if text_eq(kind.as_str(), "in") {
        Some(SensorKind::Voltmeter)
    } else if text_eq(kind.as_str(), "beep") {
        Some(SensorKind::Beep)
    } else {
        None
    }
}

/// Which value of a sensor a reading of `sensors -j` holds (the part after the `_` of its key).
#[derive(Debug, Clone, Copy, PartialEq, Eq, Structural)]
pub enum ReadingField {
    Input,
    Min,
    Max,
    /// Any other value, which is ignored.
    Other,
}

/// The field that a second key part names.
pub open spec fn reading_field(part: Seq<char>) -> ReadingField {
    if part == seq!['i', 'n', 'p', 'u', 't'] {
        ReadingField::Input
    } else if part == seq!['m', 'i', 'n'] {
        ReadingField::Min
    } else if part == seq!['m', 'a', 'x'] {
        ReadingField::Max
    } else {
        ReadingField::Other
    }
}

/// The first part of a reading key: everything before its first `_`.
pub open spec fn key_first_part(key: Seq<char>) -> Seq<char> {
    key.take(find_from(key, '_', 0))
}

/// The second part of a reading key: everything between its first and its second `_`
/// (or its end).
pub open spec fn key_second_part(key: Seq<char>) -> Seq<char> {
    let first = find_from(key, '_', 0);
    key.subrange(first + 1, find_from(key, '_', first + 1))
}

/// Splits the key of a reading of `sensors -j` (such as `temp1_input`) at its `_`s:
/// the first part names the kind of the sensor (see [`from_lm_sensors_name`]),
/// the second which value the reading holds.
/// A key without `_` is malformed.
pub fn parse_reading_key(key: &str) -> (r: Result<(Option<SensorKind>, ReadingField), MalformedDataError>)
    ensures
        find_from(key@, '_', 0) == key@.len() <==> r is Err,
        r matches Err(e) ==> e.text() == MISSING_SEPARATOR@,
        r matches Ok((kind, field)) ==> {
            &&& kind == lm_sensors_kind(trim_trailing_non_alphabetic(key_first_part(key@)))
            &&& field == reading_field(key_second_part(key@))
        },
{
    let c = chars_of(key);
    let first = find_char(c.as_slice(), '_', 0);
    let first_part = string_from_range(c.as_slice(), 0, first);
    assert(first_part@ == key_first_part(key@));
    let kind = from_lm_sensors_name(first_part.as_str());
    if first == c.len() {
        return Err(MalformedDataError::new(MISSING_SEPARATOR));
    }
    let second = find_char(c.as_slice(), '_', first + 1);
    let second_part = string_from_range(c.as_slice(), first + 1, second);
    assert(second_part@ == key_second_part(key@));
    proof {
        reveal_strlit("input");
        reveal_strlit("min");
        reveal_strlit("max");
        assert("input"@ == seq!['i', 'n', 'p', 'u', 't']);
        assert("min"@ == seq!['m', 'i', 'n']);
        assert("max"@ == seq!['m', 'a', 'x']);
    }
    let field = if text_eq(second_part.as_str(), "input") {
        ReadingField::Input
    } else if text_eq(second_part.as_str(), "min") {
        ReadingField::Min
    } else if text_eq(second_part.as_str(), "max") {
        ReadingField::Max
    } else {
        ReadingField::Other
    };
    Ok((kind, field))
}

/// Why the readings of a sensor could not be used.
#[derive(Debug, Clone, Copy, PartialEq, Eq, Structural)]
pub enum ReadingProblem {
    /// A reading's value is not a number.
    NotANumber,
    /// A reading's key has no `_`.
    MissingSeparator,
}

/// What the readings of one sensor in the `sensors -j` output give, each reading being its key
/// and whether its value is a number: the sensor's kind, from the first reading key that names
/// one, and the field that each reading sets; or the problem of the first reading that has one.
pub open spec fn reading_plan(readings: Seq<(Seq<char>, bool)>) -> Result<(Option<SensorKind>, Seq<ReadingField>), ReadingProblem>
    decreases readings.len(),
{
    if readings.len() == 0 {
        Ok((None, Seq::empty()))
    } else {
        match reading_plan(readings.drop_last()) {
            Err(p) => Err(p),
            Ok((kind, fields)) => {
                let key = readings.last().0;
                if !readings.last().1 {
                    Err(ReadingProblem::NotANumber)
                } else if find_from(key, '_', 0) == key.len() {
                    Err(ReadingProblem::MissingSeparator)
                } else {
                    let named = lm_sensors_kind(trim_trailing_non_alphabetic(key_first_part(key)));
                    Ok((if kind is Some { kind } else { named }, fields.push(reading_field(key_second_part(key)))))
                }
            },
        }
    }
}

/// The error text of each problem.
pub open spec fn problem_text(p: ReadingProblem) -> Seq<char> {
    match p {
        ReadingProblem::NotANumber => NOT_A_NUMBER@,
        ReadingProblem::MissingSeparator => MISSING_SEPARATOR@,
    }
}

/// Works out, from the readings of one sensor (each its key and whether its value is a number),
/// the sensor's kind and the field each reading sets (see [`reading_plan`]).
pub fn sensor_readings(readings: &Vec<(String, bool)>) -> (r: Result<(Option<SensorKind>, Vec<ReadingField>), MalformedDataError>)
    ensures
        match reading_plan(readings@.map_values(|x: (String, bool)| (x.0@, x.1))) {
            Ok((kind, fields)) => r matches Ok((k, f)) && k == kind && f@ == fields,
            Err(p) => r matches Err(e) && e.text() == problem_text(p),
        },
{
    let ghost all = readings@.map_values(|x: (String, bool)| (x.0@, x.1));
    let mut kind: Option<SensorKind> = None;
    let mut fields: Vec<ReadingField> = Vec::new();
    let n = readings.len();
    proof {
        assert(all.take(0) =~= Seq::<(Seq<char>, bool)>::empty());
    }
    for i in 0..n
        invariant
            n == readings@.len(),
            all == readings@.map_values(|x: (String, bool)| (x.0@, x.1)),
            reading_plan(all.take(i as int)) == Ok::<(Option<SensorKind>, Seq<ReadingField>), ReadingProblem>((kind, fields@)),
    {
        proof {
            assert(all.take(i + 1).drop_last() == all.take(i as int));
            assert(all.take(i + 1).last() == (readings@[i as int].0@, readings@[i as int].1));
        }
        let (key, numeric) = &readings[i];
        if !*numeric {
            proof {
                lemma_plan_stays_failed(all, i + 1);
            }
            return Err(MalformedDataError::new(NOT_A_NUMBER));
        }
        match parse_reading_key(key.as_str()) {
            Err(e) => {
                proof {
                    lemma_plan_stays_failed(all, i + 1);
                }
                return Err(e);
            },
            Ok((named, field)) => {
                if kind.is_none() {
                    kind = named;
                }
                fields.push(field);
            },
        }
    }
    proof {
        assert(all.take(n as int) == all);
    }
    Ok((kind, fields))
}

/// Once a prefix of the readings has a problem, every longer prefix has the same one.
proof fn lemma_plan_stays_failed(all: Seq<(Seq<char>, bool)>, k: int)
    requires
        0 <= k <= all.len(),
        reading_plan(all.take(k)) is Err,
    ensures
        reading_plan(all) == reading_plan(all.take(k)),
    decreases all.len() - k,
{
    if k < all.len() {
        assert(all.take(k + 1).drop_last() == all.take(k));
        lemma_plan_stays_failed(all, k + 1);
    } else {
        assert(all.take(k) == all);
    }
}

/// The name of an adapter in the `sensors -j` output, from its entry: `is_object` tells
/// whether the entry is a JSON object (`entry_text` is the entry as JSON text), `name` is its
/// `Adapter` value if that is a string. An entry that is not an object, or has no such name,
/// is malformed.
pub fn adapter_name(entry_text: &str, is_object: bool, name: Option<&str>) -> (r: Result<String, MalformedDataError>)
    ensures
        !is_object ==> (r matches Err(e) && e.text() == ADAPTER_NOT_OBJECT@ + entry_text@),
        is_object && name is None ==> (r matches Err(e) && e.text() == ADAPTER_NAME_MISSING@),
        is_object && name is Some ==> (r matches Ok(n) && n@ == name->0@),
{
    if !is_object {
        let mut message = String::from_str(ADAPTER_NOT_OBJECT);
        message.append(entry_text);
        return Err(MalformedDataError::new_with_string(message));
    }
    match name {
        Some(n) => Ok(String::from_str(n)),
        None => Err(MalformedDataError::new(ADAPTER_NAME_MISSING)),
    }
}

} // verus!
