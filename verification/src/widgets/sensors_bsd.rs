//! The sensors widget for systems that report their sensors by `sysctl`.

use crate::pattern::{captures, matches_view, regex_matches, search_view, Groups, GroupsView};
use crate::strings::{decimal, owned, push_decimal, str_eq};
use crate::text::{Attributes, Text, TextView};
use vstd::prelude::*;

verus! {

/// One reading of a sensor: a whole number and its unit, as it is shown.
#[derive(Debug, PartialEq, Eq)]
pub struct Value {
    pub value: u64,
    pub units: String,
}

/// One reading of a sensor as `sysctl` writes it: the number, still as text,
/// and the unit as it is shown.
#[derive(Debug, PartialEq, Eq)]
pub struct Reading {
    pub value: String,
    pub units: String,
}

/// Why the output of `sysctl` could not be read.
#[derive(Clone, Copy, Debug, PartialEq, Eq, Structural)]
pub enum SensorsError {
    /// The pattern that describes a reading was not accepted.
    Pattern,
    /// A reading was found without a value.
    MissingValue,
    /// A reading was found without a unit.
    MissingUnits,
}

/// The pattern that describes one reading in the output of `sysctl`: a line
/// with a name, `=`, a value, a blank and a unit.
pub open spec fn reading_pattern() -> Seq<char> {
    "(?P<name>[^=]+)=(?P<value>[^ ]+) (?P<units>[^ \\n]+).*\\n"@
}

/// How a unit is shown.
pub open spec fn shown_units(units: Seq<char>) -> Seq<char> {
    if units == "degC"@ {
        "Â°C"@
    } else if units == "RPM"@ {
        " RPM"@
    } else {
        units
    }
}

/// The readings that a list of matches holds, in their order: the value and
/// the unit as it is shown. The first match that lacks its value, or else its
/// unit, decides the error.
pub open spec fn collected(found: Seq<GroupsView>) -> Result<
    Seq<(Seq<char>, Seq<char>)>,
    SensorsError,
>
    decreases found.len(),
{
    if found.len() == 0 {
        Ok(Seq::empty())
    } else {
        match collected(found.drop_last()) {
            Err(e) => Err(e),
            Ok(readings) => match found.last() {
                (_, None, _) => Err(SensorsError::MissingValue),
                (_, Some(_), None) => Err(SensorsError::MissingUnits),
                (_, Some(value), Some(units)) => Ok(readings.push((value, shown_units(units)))),
            },
        }
    }
}

/// The readings that the outcome of a search holds.
pub open spec fn readings_of(found: Option<Seq<GroupsView>>) -> Result<
    Seq<(Seq<char>, Seq<char>)>,
    SensorsError,
> {
    match found {
        None => Err(SensorsError::Pattern),
        Some(matches) => collected(matches),
    }
}

/// A list of readings as mathematical values.
pub open spec fn readings_view(readings: Seq<Reading>) -> Seq<(Seq<char>, Seq<char>)> {
    Seq::new(readings.len(), |i: int| (readings[i].value@, readings[i].units@))
}

/// Readings that cannot be collected up to some match cannot be collected at
/// all, and fail for the same reason.
proof fn lemma_collected_prefix(found: Seq<GroupsView>, k: int)
    requires
        0 <= k <= found.len(),
        collected(found.take(k)) is Err,
    ensures
        collected(found) == collected(found.take(k)),
    decreases found.len() - k,
{
    if k < found.len() {
        assert(found.take(k + 1).drop_last() =~= found.take(k));
        lemma_collected_prefix(found, k + 1);
    } else {
        assert(found.take(k) =~= found);
    }
}

/// What is found of the readings in the output of `sysctl`.
pub open spec fn found_in(output: Seq<char>) -> Seq<GroupsView> {
    regex_matches(reading_pattern(), output, "name"@, "value"@, "units"@)
}

/// Reads what `sysctl` reports of the sensors.
#[derive(Clone, Copy, Debug)]
pub struct OpenBsd;

impl Default for OpenBsd {
    fn default() -> (r: OpenBsd) {
        OpenBsd
    }
}

impl OpenBsd {
    /// How a unit is shown: degrees and turns per minute get their sign,
    /// any other unit is shown as it is written.
    pub fn parse_units(&self, units: &str) -> (r: String)
        ensures
            r@ == shown_units(units@),
    {
        if str_eq(units, "degC") {
            owned("Â°C")
        } else if str_eq(units, "RPM") {
            owned(" RPM")
        } else {
            owned(units)
        }
    }

    /// Collects the readings that a search for [`reading_pattern`] gave.
    pub fn readings_from(&self, found: Option<Vec<Groups>>) -> (r: Result<
        Vec<Reading>,
        SensorsError,
    >)
        ensures
            match r {
                Ok(readings) => readings_of(search_view(found)) == Ok::<
                    Seq<(Seq<char>, Seq<char>)>,
                    SensorsError,
                >(readings_view(readings@)),
                Err(e) => readings_of(search_view(found)) == Err::<
                    Seq<(Seq<char>, Seq<char>)>,
                    SensorsError,
                >(e),
            },
    {
        let mut matches = match found {
            Some(matches) => matches,
            None => {
                return Err(SensorsError::Pattern);
            },
        };
        let ghost all = matches_view(matches@);
        let mut readings: Vec<Reading> = Vec::new();
        let mut i: usize = 0;
        proof {
            assert(all.take(0) =~= Seq::<GroupsView>::empty());
            assert(readings_view(readings@) =~= Seq::empty());
        }
        while i < matches.len()
            invariant
                i <= matches.len(),
                matches.len() == all.len(),
                search_view(found) == Some(all),
                forall|k: int| i <= k < matches.len() ==> matches_view(matches@)[k] == all[k],
                collected(all.take(i as int)) == Ok::<Seq<(Seq<char>, Seq<char>)>, SensorsError>(
                    readings_view(readings@),
                ),
            decreases matches.len() - i,
        {
            proof {
                assert(all.take(i + 1).drop_last() =~= all.take(i as int));
                assert(all.take(i + 1).last() == all[i as int]);
                assert(matches_view(matches@)[i as int] == all[i as int]);
            }
            let value = match matches[i].1.take() {
                Some(value) => value,
                None => {
                    proof {
                        lemma_collected_prefix(all, i + 1);
                    }
                    return Err(SensorsError::MissingValue);
                },
            };
            let units = match matches[i].2.take() {
                Some(units) => units,
                None => {
                    proof {
                        lemma_collected_prefix(all, i + 1);
                    }
                    return Err(SensorsError::MissingUnits);
                },
            };
            let units = self.parse_units(units.as_str());
            let ghost before = readings_view(readings@);
            readings.push(Reading { value, units });
            assert(readings_view(readings@) =~= before.push((all[i as int].1.unwrap(), shown_units(all[i as int].2.unwrap()))));
            i = i + 1;
        }
        proof {
            assert(all.take(i as int) =~= all);
        }
        Ok(readings)
    }

    /// Reads the output of `sysctl` for some sensors: the value of each, as
    /// text, and its unit as it is shown.
    ///
    /// The readings are those that [`reading_pattern`] finds in the output.
    /// The error is [`SensorsError::Pattern`] where the pattern was not taken,
    /// which the search for it decides.
    pub fn load_values(&self, output: &str) -> (r: Result<Vec<Reading>, SensorsError>)
        ensures
            match r {
                Ok(readings) => collected(found_in(output@)) == Ok::<
                    Seq<(Seq<char>, Seq<char>)>,
                    SensorsError,
                >(readings_view(readings@)),
                Err(e) => e == SensorsError::Pattern || collected(found_in(output@)) == Err::<
                    Seq<(Seq<char>, Seq<char>)>,
                    SensorsError,
                >(e),
            },
    {
        let found = captures(
            "(?P<name>[^=]+)=(?P<value>[^ ]+) (?P<units>[^ \\n]+).*\\n",
            output,
            "name",
            "value",
            "units",
        );
        self.readings_from(found)
    }
}

/// Shows the value from one or more hardware sensors.
///
/// This shows the values reported by one or more sensors available through
/// `sysctl`.
pub struct Sensors {
    /// The seconds between two readings.
    pub update_interval: u64,
    pub attr: Attributes,
    pub sensors: Vec<String>,
    pub info: OpenBsd,
}

impl Sensors {
    /// Creates a new Sensors widget.
    ///
    /// A list of sensor names should be passed as the `sensors` argument.
    pub fn new(attr: Attributes, sensors: Vec<String>) -> (r: Sensors)
        ensures
            r.update_interval == 60,
            r.attr@ == attr@,
            r.sensors@ == sensors@,
    {
        Sensors { update_interval: 60, attr, sensors, info: OpenBsd }
    }

    /// The text that the widget shows for a reading: the number and then the
    /// unit.
    pub open spec fn shown(self, value: u64, units: Seq<char>) -> TextView {
        TextView {
            attr: self.attr@,
            text: decimal(value as nat) + units,
            stretch: false,
            markup: false,
        }
    }

    /// The texts for the readings, one for each in their order.
    pub fn tick(&self, values: Vec<Value>) -> (r: Vec<Text>)
        ensures
            r@.len() == values@.len(),
            forall|i: int|
                0 <= i < r@.len() ==> (#[trigger] r@[i])@ == self.shown(
                    values@[i].value,
                    values@[i].units@,
                ),
    {
        let mut texts: Vec<Text> = Vec::new();
        let mut i: usize = 0;
        while i < values.len()
            invariant
                i <= values.len(),
                texts@.len() == i,
                forall|k: int|
                    0 <= k < i ==> (#[trigger] texts@[k])@ == self.shown(
                        values@[k].value,
                        values@[k].units@,
                    ),
            decreases values.len() - i,
        {
            let mut text = String::new();
            push_decimal(&mut text, values[i].value);
            text.append(values[i].units.as_str());
            assert(text@ =~= decimal(values@[i as int].value as nat) + values@[i as int].units@);
            texts.push(Text { attr: self.attr.clone(), text, stretch: false, markup: false });
            i = i + 1;
        }
        texts
    }
}

} // verus!
