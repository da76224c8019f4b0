//! The battery widget for systems on which `apm` reports the battery.

use crate::strings::{
    decimal, parse_unsigned, parsed_number, push_decimal, push_two_digits, str_eq, trim, trimmed,
    two_digits, ParseError,
};
use crate::text::{Attributes, AttributesView, Color, Text, TextView};
use vstd::prelude::*;

verus! {

/// Whether the battery is being charged.
#[derive(Clone, Copy, Debug, PartialEq, Eq, Structural)]
pub enum Status {
    Charging,
    Discharging,
    Unknown,
}

/// What is known of the battery.
#[derive(Clone, Copy, Debug, PartialEq, Eq, Structural)]
pub struct Info {
    pub status: Status,
    /// The minutes until the battery is full or empty, where they are known.
    pub minutes: Option<u16>,
    /// The charge, from 0 to 100.
    pub percentage: u8,
}

impl Info {
    /// The time that remains as hours and minutes.
    pub open spec fn spec_time_remaining(self) -> Option<(u16, u16)> {
        match self.minutes {
            Some(minutes) => Some((minutes / 60, minutes % 60)),
            None => None,
        }
    }

    /// The time that remains as hours and minutes: the minutes are less than
    /// sixty.
    pub fn time_remaining(&self) -> (r: Option<(u16, u16)>)
        ensures
            r == self.spec_time_remaining(),
    {
        if let Some(minutes) = self.minutes {
            let hours = minutes / 60;
            let minutes = minutes % 60;
            return Some((hours, minutes));
        }
        None
    }
}

/// The status that `apm -a` reports: `0` for a battery that is discharging,
/// `1` for one that is charging.
pub open spec fn status_of(output: Seq<char>) -> Status {
    if trimmed(output) == "0"@ {
        Status::Discharging
    } else if trimmed(output) == "1"@ {
        Status::Charging
    } else {
        Status::Unknown
    }
}

/// The charge that `apm -l` reports.
pub open spec fn percentage_of(output: Seq<char>) -> Result<u8, ParseError> {
    match parsed_number(trimmed(output), false, 0, u8::MAX as int) {
        Ok(v) => Ok(v as u8),
        Err(e) => Err(e),
    }
}

/// The minutes that `apm -m` reports, where it knows them.
pub open spec fn minutes_of(output: Seq<char>) -> Result<Option<u16>, ParseError> {
    if trimmed(output) == "unknown"@ {
        Ok(None)
    } else {
        match parsed_number(trimmed(output), false, 0, u16::MAX as int) {
            Ok(v) => Ok(Some(v as u16)),
            Err(e) => Err(e),
        }
    }
}

/// What the three reports of `apm` say together. The first report that
/// cannot be read decides the error.
pub open spec fn info_of(status: Seq<char>, percentage: Seq<char>, minutes: Seq<char>) -> Result<
    Info,
    ParseError,
> {
    match percentage_of(percentage) {
        Err(e) => Err(e),
        Ok(p) => match minutes_of(minutes) {
            Err(e) => Err(e),
            Ok(m) => Ok(Info { status: status_of(status), percentage: p, minutes: m }),
        },
    }
}

/// Reads what `apm` reports of the battery.
#[derive(Clone, Copy, Debug)]
pub struct OpenBsd;

impl Default for OpenBsd {
    fn default() -> (r: OpenBsd) {
        OpenBsd
    }
}

impl OpenBsd {
    /// Reads the output of `apm -a`.
    pub fn load_status(&self, output: &str) -> (r: Status)
        ensures
            r == status_of(output@),
    {
        let string = trim(output);
        if str_eq(string, "0") {
            Status::Discharging
        } else if str_eq(string, "1") {
            Status::Charging
        } else {
            Status::Unknown
        }
    }

    /// Reads the output of `apm -l`.
    pub fn load_percentage(&self, output: &str) -> (r: Result<u8, ParseError>)
        ensures
            r == percentage_of(output@),
    {
        match parse_unsigned(trim(output), 255) {
            Ok(v) => Ok(v as u8),
            Err(e) => Err(e),
        }
    }

    /// Reads the output of `apm -m`.
    pub fn load_time_remaining(&self, output: &str) -> (r: Result<Option<u16>, ParseError>)
        ensures
            r == minutes_of(output@),
    {
        let string = trim(output);
        if str_eq(string, "unknown") {
            return Ok(None);
        }
        match parse_unsigned(string, 65535) {
            Ok(v) => Ok(Some(v as u16)),
            Err(e) => Err(e),
        }
    }

    /// Reads the three reports of `apm`: the output of `apm -a`, of `apm -l`
    /// and of `apm -m`.
    pub fn load_info(&self, status: &str, percentage: &str, minutes: &str) -> (r: Result<
        Info,
        ParseError,
    >)
        ensures
            r == info_of(status@, percentage@, minutes@),
    {
        let status = self.load_status(status);
        let percentage = match self.load_percentage(percentage) {
            Ok(p) => p,
            Err(e) => {
                return Err(e);
            },
        };
        let minutes = match self.load_time_remaining(minutes) {
            Ok(m) => m,
            Err(e) => {
                return Err(e);
            },
        };
        Ok(Info { status, percentage, minutes })
    }
}

/// What the widget writes for a battery: the charge in per cent and, where
/// it is known, the time that remains, in brackets. A battery that is being
/// charged is marked.
pub open spec fn battery_text(info: Info) -> Seq<char> {
    (if info.status == Status::Charging {
        "(⚡ "@
    } else {
        "("@
    }) + decimal(info.percentage as nat) + "%"@ + (match info.spec_time_remaining() {
        Some((hours, minutes)) => " - "@ + decimal(hours as nat) + ":"@ + two_digits(
            minutes as nat,
        ) + ")"@,
        None => ")"@,
    })
}

/// Whether a battery is about to run out: it is discharging and holds a
/// tenth of its charge or less.
pub open spec fn is_low(info: Info) -> bool {
    info.status == Status::Discharging && info.percentage <= 10
}

/// Shows battery charge percentage and (dis)charge time.
///
/// This widget shows the battery's current charge percentage and the amount of
/// remaining (dis)charge time, depending on whether the battery is charging or
/// discharging. The format of the output is `(PP% - H:MM)`.
///
/// When the battery is discharging and has no more than 10% charge remaining,
/// the widget's text will change to the specified `warning_color`.
pub struct Battery {
    /// The seconds between two readings.
    pub update_interval: u64,
    pub info: OpenBsd,
    pub attr: Attributes,
    pub warning_color: Color,
}

impl Battery {
    /// Creates a new Battery widget.
    ///
    /// The `warning_color` attributes are used when there is no more than 10%
    /// battery charge remaining.
    pub fn new(attr: Attributes, warning_color: Color) -> (r: Battery)
        ensures
            r.update_interval == 60,
            r.attr@ == attr@,
            r.warning_color == warning_color,
    {
        Battery { update_interval: 60, info: OpenBsd, attr, warning_color }
    }

    /// The one text that the widget shows for a battery.
    pub open spec fn shown(self, info: Info) -> TextView {
        TextView {
            attr: AttributesView {
                fg_color: if is_low(info) {
                    self.warning_color
                } else {
                    self.attr.fg_color
                },
                ..self.attr@
            },
            text: battery_text(info),
            stretch: false,
            markup: false,
        }
    }

    /// The texts for a battery of which `info` is known.
    pub fn render(&self, info: &Info) -> (r: Vec<Text>)
        ensures
            r@.len() == 1,
            r@[0]@ == self.shown(*info),
    {
        let mut text = match info.status {
            Status::Charging => String::from_str("(⚡ "),
            _ => String::from_str("("),
        };
        push_decimal(&mut text, info.percentage as u64);
        text.append("%");
        if let Some((hours, minutes)) = info.time_remaining() {
            text.append(" - ");
            push_decimal(&mut text, hours as u64);
            text.append(":");
            push_two_digits(&mut text, minutes as u64);
            text.append(")");
        } else {
            text.append(")");
        }
        assert(text@ =~= battery_text(*info));

        // If we're discharging and have <=10% left, then render with a
        // special warning color.
        let mut attr = self.attr.clone();
        if info.status == Status::Discharging && info.percentage <= 10 {
            attr.fg_color = self.warning_color;
        }
        let mut texts = Vec::new();
        texts.push(Text { attr, text, stretch: false, markup: false });
        texts
    }

    /// Turns the three reports of `apm` into the texts of the widget: the
    /// output of `apm -a`, of `apm -l` and of `apm -m`.
    pub fn tick(&self, status: &str, percentage: &str, minutes: &str) -> (r: Result<
        Vec<Text>,
        ParseError,
    >)
        ensures
            match r {
                Ok(texts) => {
                    &&& info_of(status@, percentage@, minutes@) is Ok
                    &&& texts@.len() == 1
                    &&& texts@[0]@ == self.shown(info_of(status@, percentage@, minutes@).unwrap())
                },
                Err(e) => info_of(status@, percentage@, minutes@) == Err::<Info, ParseError>(e),
            },
    {
        match self.info.load_info(status, percentage, minutes) {
            Ok(info) => Ok(self.render(&info)),
            Err(e) => Err(e),
        }
    }
}

} // verus!
