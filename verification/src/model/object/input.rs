use vstd::prelude::*;
use crate::utils::str_eq;

verus! {

/// What the decoding of inputs reads of an input value: a dictionary with its entries in
/// order, a string, an integer, or some other value.
#[derive(Debug)]
pub enum InputValue {
    Dictionary(Vec<(String, InputValue)>),
    Str(String),
    Int(i64),
    Other,
}

/// What an input gives for a field: a value to set, or an atomic update to apply.
#[derive(Debug)]
pub enum Input<'a> {
    SetValue(&'a InputValue),
    AtomicUpdater(&'a InputValue),
}

/// The value of the first entry of `entries` named `key`.
pub open spec fn entry_value(entries: Seq<(String, InputValue)>, key: Seq<char>) -> Option<InputValue>
    decreases entries.len(),
{
    if entries.len() == 0 {
        None
    } else if entries[0].0@ == key {
        Some(entries[0].1)
    } else {
        entry_value(entries.drop_first(), key)
    }
}

/// The first entry of `entries` named `key`.
pub(crate) fn find_entry<'a>(entries: &'a Vec<(String, InputValue)>, key: &str) -> (r: Option<&'a InputValue>)
    ensures
        (match r {
            Some(v) => Some(*v),
            None => None,
        }) == entry_value(entries@, key@),
{
    let mut i: usize = 0;
    assert(entries@.skip(0) =~= entries@);
    while i < entries.len()
        invariant
            i <= entries@.len(),
            entry_value(entries@.skip(i as int), key@) == entry_value(entries@, key@),
        decreases entries@.len() - i,
    {
        assert(entries@.skip(i as int)[0] == entries@[i as int]);
        assert(entries@.skip(i as int).drop_first() =~= entries@.skip(i + 1));
        if str_eq(entries[i].0.as_str(), key) {
            return Some(&entries[i].1);
        }
        i = i + 1;
    }
    assert(entries@.skip(i as int).len() == 0);
    None
}

impl<'a> Input<'a> {
    /// Decodes the input for a field: a dictionary whose first key is `set` sets the value of
    /// that entry; any other dictionary is an atomic update; any other value is set as it is.
    pub fn decode_field(updator: &'a InputValue) -> (r: Input<'a>)
        requires
            updator matches InputValue::Dictionary(entries) ==> entries@.len() > 0,
        ensures
            (match *updator {
                InputValue::Dictionary(entries) => if entries@[0].0@ == "set"@ {
                    r matches Input::SetValue(v) && *v == entries@[0].1
                } else {
                    r matches Input::AtomicUpdater(v) && *v == *updator
                },
                _ => r matches Input::SetValue(v) && *v == *updator,
            }),
    {
        match updator {
            InputValue::Dictionary(entries) => {
                if str_eq(entries[0].0.as_str(), "set") {
                    Input::SetValue(&entries[0].1)
                } else {
                    Input::AtomicUpdater(updator)
                }
            },
            _ => Input::SetValue(updator),
        }
    }

    /// The first entry of a dictionary input, its name and its value.
    pub fn key_value(value: &'a Vec<(String, InputValue)>) -> (r: (&'a str, &'a InputValue))
        requires
            value@.len() > 0,
        ensures
            r.0@ == value@[0].0@,
            *r.1 == value@[0].1,
    {
        (value[0].0.as_str(), &value[0].1)
    }

    /// Whether the entries of a filter ask for case-insensitive matching: their `mode` is the
    /// string `caseInsensitive`.
    pub fn has_i_mode(map: &Vec<(String, InputValue)>) -> (r: bool)
        ensures
            r == (entry_value(map@, "mode"@) matches Some(InputValue::Str(s)) && s@ == "caseInsensitive"@),
    {
        match find_entry(map, "mode") {
            Some(InputValue::Str(s)) => str_eq(s.as_str(), "caseInsensitive"),
            _ => false,
        }
    }

    /// Whether the input is a dictionary whose `take` is a negative integer.
    pub fn has_negative_take(json_value: &InputValue) -> (r: bool)
        ensures
            r == (json_value matches InputValue::Dictionary(entries)
                && entry_value(entries@, "take"@) matches Some(InputValue::Int(n)) && n < 0),
    {
        match json_value {
            InputValue::Dictionary(entries) => match find_entry(entries, "take") {
                Some(InputValue::Int(n)) => *n < 0,
                _ => false,
            },
            _ => false,
        }
    }
}

} // verus!
