//! The sensors widget for systems with the `sensors` tool of `lm_sensors`.

use crate::pattern::{captures, regex_matches, search_view, Groups, GroupsView};
use crate::strings::str_eq;
use crate::text::{Attributes, Text, TextView};
use vstd::prelude::*;

verus! {

/// One reading of a sensor: the temperature as it was written, and its unit.
#[derive(Debug, PartialEq, Eq)]
pub struct Value {
    pub temp: String,
    pub units: String,
}

/// A [`Value`] as mathematical values: the temperature and the unit.
pub type ValueView = (Seq<char>, Seq<char>);

impl View for Value {
    type V = ValueView;

    open spec fn view(&self) -> ValueView {
        (self.temp@, self.units@)
    }
}

/// Why the output of `sensors` could not be read.
#[derive(Clone, Copy, Debug, PartialEq, Eq, Structural)]
pub enum SensorsError {
    /// The pattern that describes a reading was not accepted.
    Pattern,
    /// A reading was found without a name, a temperature or a unit.
    Incomplete,
}

/// The pattern that describes one reading in the output of `sensors`: a line
/// that begins with the sensor's name and a colon, then the temperature, with
/// its sign unless that is `+`, and its unit.
pub open spec fn reading_pattern() -> Seq<char> {
    "\\n(?P<name>[\\w ]+):\\s+\\+?(?P<temp>-?\\d+\\.\\d+).(?P<units>[C|F])"@
}

/// The readings that a list of matches holds, by the sensor's name. A later
/// reading of a sensor replaces an earlier one. `None` where a match lacks a
/// group.
pub open spec fn collected(found: Seq<GroupsView>) -> Option<Map<Seq<char>, ValueView>>
    decreases found.len(),
{
    if found.len() == 0 {
        Some(Map::empty())
    } else {
        match (collected(found.drop_last()), found.last()) {
            (Some(readings), (Some(name), Some(temp), Some(units))) => Some(
                readings.insert(name, (temp, units)),
            ),
            _ => None,
        }
    }
}

/// The readings that the outcome of a search holds.
pub open spec fn readings_of(found: Option<Seq<GroupsView>>) -> Result<
    Map<Seq<char>, ValueView>,
    SensorsError,
> {
    match found {
        None => Err(SensorsError::Pattern),
        Some(matches) => match collected(matches) {
            Some(readings) => Ok(readings),
            None => Err(SensorsError::Incomplete),
        },
    }
}

/// The readings of the sensors, by name. No name occurs twice.
#[derive(Debug)]
pub struct Readings {
    names: Vec<String>,
    values: Vec<Value>,
}

impl View for Readings {
    type V = Map<Seq<char>, ValueView>;

    closed spec fn view(&self) -> Map<Seq<char>, ValueView> {
        Map::new(
            |name: Seq<char>| exists|i: int| 0 <= i < self.names.len() && self.names[i]@ == name,
            |name: Seq<char>|
                self.values[choose|i: int| 0 <= i < self.names.len() && self.names[i]@ == name]@,
        )
    }
}

impl Readings {
    /// Whether the readings are in order: each name has its value, and no
    /// name occurs twice.
    pub closed spec fn wf(&self) -> bool {
        &&& self.names.len() == self.values.len()
        &&& forall|i: int, j: int|
            0 <= i < j < self.names.len() ==> self.names[i]@ != self.names[j]@
        &&& self@.dom().finite()
        &&& self@.dom().len() == self.names.len()
    }

    /// No readings.
    pub fn new() -> (r: Readings)
        ensures
            r.wf(),
            r@ == Map::<Seq<char>, ValueView>::empty(),
    {
        let r = Readings { names: Vec::new(), values: Vec::new() };
        assert(r@ =~= Map::<Seq<char>, ValueView>::empty());
        r
    }

    fn position(&self, name: &str) -> (r: Option<usize>)
        requires
            self.wf(),
        ensures
            match r {
                Some(i) => i < self.names.len() && self.names[i as int]@ == name@,
                None => forall|i: int| 0 <= i < self.names.len() ==> self.names[i]@ != name@,
            },
    {
        let mut i: usize = 0;
        while i < self.names.len()
            invariant
                i <= self.names.len(),
                forall|k: int| 0 <= k < i ==> self.names[k]@ != name@,
            decreases self.names.len() - i,
        {
            if str_eq(self.names[i].as_str(), name) {
                return Some(i);
            }
            i = i + 1;
        }
        None
    }

    /// Takes a reading in. It replaces what was known of the sensor.
    pub fn insert(&mut self, name: String, value: Value)
        requires
            old(self).wf(),
        ensures
            final(self).wf(),
            final(self)@ == old(self)@.insert(name@, value@),
    {
        let ghost before = *self;
        match self.position(name.as_str()) {
            Some(i) => {
                self.values[i] = value;
                assert(self@ =~= before@.insert(name@, value@)) by {
                    assert forall|n: Seq<char>| self@.dom().contains(n) implies #[trigger] self@[n]
                        == before@.insert(name@, value@)[n] by {
                        let k = choose|k: int| 0 <= k < self.names.len() && self.names[k]@ == n;
                        let m = choose|m: int|
                            0 <= m < before.names.len() && before.names[m]@ == n;
                        assert(k == m);
                    }
                }
                assert(before@.dom().contains(name@));
            },
            None => {
                self.names.push(name);
                self.values.push(value);
                assert(self@ =~= before@.insert(name@, value@)) by {
                    assert forall|n: Seq<char>| self@.dom().contains(n) implies before@.insert(
                        name@,
                        value@,
                    ).dom().contains(n) && #[trigger] self@[n] == before@.insert(name@, value@)[n] by {
                        let k = choose|k: int| 0 <= k < self.names.len() && self.names[k]@ == n;
                        if k < before.names.len() {
                            assert(before.names[k]@ == n);
                            let m = choose|m: int|
                                0 <= m < before.names.len() && before.names[m]@ == n;
                            assert(k == m);
                        }
                    }
                    assert forall|n: Seq<char>|
                        before@.insert(name@, value@).dom().contains(n) implies self@.dom().contains(
                        n,
                    ) by {
                        if n == name@ {
                            assert(self.names[before.names.len() as int]@ == n);
                        } else {
                            let m = choose|m: int|
                                0 <= m < before.names.len() && before.names[m]@ == n;
                            assert(self.names[m]@ == n);
                        }
                    }
                }
                assert(!before@.dom().contains(name@));
            },
        }
    }

    /// The reading of the sensor with the given name, where there is one.
    pub fn get(&self, name: &str) -> (r: Option<&Value>)
        requires
            self.wf(),
        ensures
            match r {
                Some(value) => self@.dom().contains(name@) && self@[name@] == value@,
                None => !self@.dom().contains(name@),
            },
    {
        match self.position(name) {
            Some(i) => {
                proof {
                    let k = choose|k: int| 0 <= k < self.names.len() && self.names[k]@ == name@;
                    assert(k == i);
                }
                Some(&self.values[i])
            },
            None => None,
        }
    }

    /// How many sensors have a reading.
    pub fn len(&self) -> (r: usize)
        requires
            self.wf(),
        ensures
            r == self@.dom().len(),
    {
        self.names.len()
    }

    /// Collects the readings that a search for [`reading_pattern`] gave.
    pub fn from_captures(found: Option<Vec<Groups>>) -> (r: Result<Readings, SensorsError>)
        ensures
            match r {
                Ok(readings) => readings.wf() && readings_of(search_view(found)) == Ok::<
                    Map<Seq<char>, ValueView>,
                    SensorsError,
                >(readings@),
                Err(e) => readings_of(search_view(found)) == Err::<
                    Map<Seq<char>, ValueView>,
                    SensorsError,
                >(e),
            },
    {
        let mut matches = match found {
            Some(matches) => matches,
            None => {
                return Err(SensorsError::Pattern);
            },
        };
        let ghost all = crate::pattern::matches_view(matches@);
        let mut readings = Readings::new();
        let mut i: usize = 0;
        proof {
            assert(all.take(0) =~= Seq::<GroupsView>::empty());
        }
        while i < matches.len()
            invariant
                i <= matches.len(),
                matches.len() == all.len(),
                search_view(found) == Some(all),
                forall|k: int|
                    i <= k < matches.len() ==> crate::pattern::matches_view(matches@)[k] == all[k],
                readings.wf(),
                collected(all.take(i as int)) == Some(readings@),
            decreases matches.len() - i,
        {
            proof {
                assert(all.take(i + 1).drop_last() =~= all.take(i as int));
                assert(all.take(i + 1).last() == all[i as int]);
                assert(crate::pattern::matches_view(matches@)[i as int] == all[i as int]);
            }
            let name = matches[i].0.take();
            let temp = matches[i].1.take();
            let units = matches[i].2.take();
            match (name, temp, units) {
                (Some(name), Some(temp), Some(units)) => {
                    readings.insert(name, Value { temp, units });
                },
                _ => {
                    proof {
                        assert(collected(all.take(i + 1)).is_none());
                        lemma_collected_prefix(all, i + 1);
                    }
                    return Err(SensorsError::Incomplete);
                },
            }
            i = i + 1;
        }
        proof {
            assert(all.take(i as int) =~= all);
        }
        Ok(readings)
    }
}

/// Readings that cannot be collected up to some match cannot be collected at
/// all.
proof fn lemma_collected_prefix(found: Seq<GroupsView>, k: int)
    requires
        0 <= k <= found.len(),
        collected(found.take(k)).is_none(),
    ensures
        collected(found).is_none(),
    decreases found.len() - k,
{
    if k < found.len() {
        assert(found.take(k + 1).drop_last() =~= found.take(k));
        lemma_collected_prefix(found, k + 1);
    } else {
        assert(found.take(k) =~= found);
    }
}

/// What is found of the readings in the output of `sensors`.
pub open spec fn found_in(output: Seq<char>) -> Seq<GroupsView> {
    regex_matches(reading_pattern(), output, "name"@, "temp"@, "units"@)
}

/// Parses the output of the `sensors` executable from `lm_sensors`.
///
/// The readings are those that [`reading_pattern`] finds in the output. The
/// error is [`SensorsError::Pattern`] where the pattern was not taken, which
/// the search for it decides.
pub fn parse_sensors_output(output: &str) -> (r: Result<Readings, SensorsError>)
    ensures
        match r {
            Ok(readings) => readings.wf() && collected(found_in(output@)) == Some(readings@),
            Err(e) => e == SensorsError::Pattern || (e == SensorsError::Incomplete && collected(
                found_in(output@),
            ).is_none()),
        },
{
    let found = captures(
        // Note: we ignore + but capture -
        "\\n(?P<name>[\\w ]+):\\s+\\+?(?P<temp>-?\\d+\\.\\d+).(?P<units>[C|F])",
        output,
        "name",
        "temp",
        "units",
    );
    Readings::from_captures(found)
}

/// Shows the temperature from one or more sensors.
///
/// This widget shows the temperature reported by one or more sensors from the
/// output of the `sensors` command, which is part of the `lm_sensors`
/// package.
pub struct Sensors {
    /// The seconds between two readings.
    pub update_interval: u64,
    pub attr: Attributes,
    pub sensors: Vec<String>,
}

impl Sensors {
    /// Creates a new Sensors widget.
    ///
    /// Creates a new `Sensors` widget, whose text will be displayed with the
    /// given [`Attributes`].
    ///
    /// A list of sensor names should be passed as the `sensors` argument. (You
    /// can discover the names by running the `sensors` utility in a terminal).
    pub fn new(attr: Attributes, sensors: Vec<String>) -> (r: Sensors)
        ensures
            r.update_interval == 60,
            r.attr@ == attr@,
            r.sensors@ == sensors@,
    {
        Sensors { update_interval: 60, attr, sensors }
    }

    /// What the widget writes for a sensor: its temperature and unit, or
    /// `Invalid` where it has no reading.
    pub open spec fn reading_text(readings: Map<Seq<char>, ValueView>, name: Seq<char>) -> Seq<
        char,
    > {
        if readings.dom().contains(name) {
            readings[name].0 + "°"@ + readings[name].1
        } else {
            "Invalid"@
        }
    }

    /// The text that the widget shows for the sensor with the given name.
    pub open spec fn shown(self, readings: Map<Seq<char>, ValueView>, name: Seq<char>) -> TextView {
        TextView {
            attr: self.attr@,
            text: Self::reading_text(readings, name),
            stretch: false,
            markup: false,
        }
    }

    /// The texts for the sensors of the widget, one for each in their order.
    pub fn render(&self, readings: &Readings) -> (r: Vec<Text>)
        requires
            readings.wf(),
        ensures
            r@.len() == self.sensors@.len(),
            forall|i: int|
                0 <= i < r@.len() ==> (#[trigger] r@[i])@ == self.shown(
                    readings@,
                    self.sensors@[i]@,
                ),
    {
        let mut texts: Vec<Text> = Vec::new();
        let mut i: usize = 0;
        while i < self.sensors.len()
            invariant
                i <= self.sensors.len(),
                readings.wf(),
                texts@.len() == i,
                forall|k: int|
                    0 <= k < i ==> (#[trigger] texts@[k])@ == self.shown(
                        readings@,
                        self.sensors@[k]@,
                    ),
            decreases self.sensors.len() - i,
        {
            let text = match readings.get(self.sensors[i].as_str()) {
                Some(value) => {
                    let mut text = value.temp.clone();
                    text.append("°");
                    text.append(value.units.as_str());
                    text
                },
                None => String::from_str("Invalid"),
            };
            texts.push(Text { attr: self.attr.clone(), text, stretch: false, markup: false });
            i = i + 1;
        }
        texts
    }

    /// Turns the output of `sensors` into the texts of the widget.
    pub fn tick(&self, output: &str) -> (r: Result<Vec<Text>, SensorsError>)
        ensures
            match r {
                Ok(texts) => {
                    let found = collected(found_in(output@));
                    &&& found is Some
                    &&& texts@.len() == self.sensors@.len()
                    &&& forall|i: int|
                        0 <= i < texts@.len() ==> (#[trigger] texts@[i])@ == self.shown(
                            found.unwrap(),
                            self.sensors@[i]@,
                        )
                },
                Err(e) => e == SensorsError::Pattern || (e == SensorsError::Incomplete
                    && collected(found_in(output@)).is_none()),
            },
    {
        match parse_sensors_output(output) {
            Ok(readings) => Ok(self.render(&readings)),
            Err(e) => Err(e),
        }
    }
}

} // verus!
