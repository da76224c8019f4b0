//! The battery widget for systems that report the battery in files under
//! `/sys/class/power_supply`.

use crate::strings::{decimal, parse_unsigned, parsed_number, push_decimal, str_eq, trim, trimmed, ParseError};
use crate::text::{Attributes, AttributesView, Color, Text, TextView};
use vstd::prelude::*;

verus! {

/// Represent Battery's operating status
#[derive(Clone, Copy, Debug, PartialEq, Eq, Structural)]
pub enum Status {
    Full,
    Charging,
    Discharging,
    Unknown,
}

/// Why what was read of a battery could not be understood.
#[derive(Clone, Copy, Debug, PartialEq, Eq, Structural)]
pub enum BatteryError {
    /// The status is none of `Full`, `Charging`, `Discharging`, `Unknown`.
    UnknownStatus,
    /// The capacity is no number from 0 to 255.
    Capacity(ParseError),
}

/// The status that a word stands for.
pub open spec fn status_of(s: Seq<char>) -> Option<Status> {
    if s == "Full"@ {
        Some(Status::Full)
    } else if s == "Charging"@ {
        Some(Status::Charging)
    } else if s == "Discharging"@ {
        Some(Status::Discharging)
    } else if s == "Unknown"@ {
        Some(Status::Unknown)
    } else {
        None
    }
}

impl Status {
    /// Reads a status as the system writes it.
    pub fn parse(s: &str) -> (r: Result<Status, BatteryError>)
        ensures
            match r {
                Ok(status) => status_of(s@) == Some(status),
                Err(e) => e == BatteryError::UnknownStatus && status_of(s@).is_none(),
            },
    {
        if str_eq(s, "Full") {
            Ok(Status::Full)
        } else if str_eq(s, "Charging") {
            Ok(Status::Charging)
        } else if str_eq(s, "Discharging") {
            Ok(Status::Discharging)
        } else if str_eq(s, "Unknown") {
            Ok(Status::Unknown)
        } else {
            Err(BatteryError::UnknownStatus)
        }
    }
}

impl core::str::FromStr for Status {
    type Err = BatteryError;

    fn from_str(s: &str) -> (r: Result<Status, BatteryError>)
        ensures
            match r {
                Ok(status) => status_of(s@) == Some(status),
                Err(e) => e == BatteryError::UnknownStatus && status_of(s@).is_none(),
            },
    {
        Status::parse(s)
    }
}

/// Represent Battery information
#[derive(Clone, Copy, Debug, PartialEq, Eq, Structural)]
pub struct BatteryInfo {
    /// Battery Status
    pub status: Status,
    /// Capacity in percentage
    pub capacity: u8,
}

/// What the two files of a battery say: `capacity` and `status`. White space
/// around what they hold is passed over. The capacity is read first.
pub open spec fn info_of(capacity: Seq<char>, status: Seq<char>) -> Result<
    BatteryInfo,
    BatteryError,
> {
    match parsed_number(trimmed(capacity), false, 0, u8::MAX as int) {
        Err(e) => Err(BatteryError::Capacity(e)),
        Ok(c) => match status_of(trimmed(status)) {
            None => Err(BatteryError::UnknownStatus),
            Some(s) => Ok(BatteryInfo { capacity: c as u8, status: s }),
        },
    }
}

/// Whether a battery is about to run out: it is discharging and holds a
/// tenth of its charge or less.
pub open spec fn is_low(info: BatteryInfo) -> bool {
    info.status == Status::Discharging && info.capacity <= 10
}

/// Shows battery charge percentage
///
/// This widget shows the battery's current charge percentage.
///
/// When the battery is discharging and has no more than 10% charge remaining,
/// the widget's text will change to the specified `warning_color`.
///
/// Battery charge information is read from files under
/// `/sys/class/power_supply/`.
pub struct Battery {
    /// The seconds between two readings.
    pub update_interval: u64,
    pub battery: String,
    pub attr: Attributes,
    pub warning_color: Color,
}

impl Battery {
    ///  Creates a new Battery widget.
    ///
    ///  Creates a new `Battery` widget, whose text will be displayed with the
    ///  given [`Attributes`]. The caller can provide use the `warning_color`
    ///  argument, to control the [`Color`] of the text once the battery has
    ///  no more than 10% charge remaining. The widget reads the battery named
    ///  `battery`, or `BAT0` where none is named.
    pub fn new(attr: Attributes, warning_color: Color, battery: Option<String>) -> (r: Battery)
        ensures
            r.update_interval == 60,
            r.attr@ == attr@,
            r.warning_color == warning_color,
            r.battery@ == match battery {
                Some(name) => name@,
                None => "BAT0"@,
            },
    {
        let battery = match battery {
            Some(name) => name,
            None => String::from_str("BAT0"),
        };
        Battery { update_interval: 60, battery, attr, warning_color }
    }

    /// Where the system keeps the value named `file` of this battery.
    pub fn value_path(&self, file: &str) -> (path: String)
        ensures
            path@ == "/sys/class/power_supply/"@ + self.battery@ + "/"@ + file@,
    {
        let mut path = String::from_str("/sys/class/power_supply/");
        path.append(self.battery.as_str());
        path.append("/");
        path.append(file);
        path
    }

    /// Reads what the files `capacity` and `status` of the battery hold.
    pub fn get_value(&self, capacity: &str, status: &str) -> (r: Result<BatteryInfo, BatteryError>)
        ensures
            r == info_of(capacity@, status@),
    {
        let capacity = match parse_unsigned(trim(capacity), 255) {
            Ok(c) => c as u8,
            Err(e) => {
                return Err(BatteryError::Capacity(e));
            },
        };
        let status = match Status::parse(trim(status)) {
            Ok(s) => s,
            Err(e) => {
                return Err(e);
            },
        };
        Ok(BatteryInfo { capacity, status })
    }

    /// The one text that the widget shows for a battery. `rendered` is what
    /// the caller's own way of writing the battery gave, where there is one;
    /// it is then taken as it is and may hold markup.
    pub open spec fn shown(self, info: BatteryInfo, rendered: Option<Seq<char>>) -> TextView {
        TextView {
            attr: AttributesView {
                fg_color: if is_low(info) {
                    self.warning_color
                } else {
                    self.attr.fg_color
                },
                ..self.attr@
            },
            text: match rendered {
                Some(text) => text,
                None => "("@ + decimal(info.capacity as nat) + "%)"@,
            },
            stretch: false,
            markup: rendered.is_some(),
        }
    }

    /// The texts for a battery of which `info` is known.
    pub fn tick(&self, info: &BatteryInfo, rendered: Option<String>) -> (r: Vec<Text>)
        ensures
            r@.len() == 1,
            r@[0]@ == self.shown(
                *info,
                match rendered {
                    Some(text) => Some(text@),
                    None => None,
                },
            ),
    {
        let markup = rendered.is_some();
        let text = match rendered {
            Some(text) => text,
            None => {
                let mut text = String::from_str("(");
                push_decimal(&mut text, info.capacity as u64);
                text.append("%)");
                assert(text@ =~= "("@ + decimal(info.capacity as nat) + "%)"@);
                text
            },
        };

        // If we're discharging and have <=10% left, then render with a
        // special warning color.
        let mut attr = self.attr.clone();
        if info.status == Status::Discharging && info.capacity <= 10 {
            attr.fg_color = self.warning_color;
        }
        let mut texts = Vec::new();
        texts.push(Text { attr, text, stretch: false, markup });
        texts
    }
}

} // verus!
