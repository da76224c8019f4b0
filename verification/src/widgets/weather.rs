//! The weather widget.

use crate::strings::{decimal, push_char, push_decimal, str_eq};
use crate::text::{Attributes, Text, TextView};
use vstd::prelude::*;

verus! {

/// The sign that stands for a sky condition. The first line that names the
/// condition decides.
pub open spec fn sky_sign(condition: Seq<char>) -> Seq<char> {
    if condition == "clear"@ {
        "🌣"@
    } else if condition == "sunny"@ {
        "🌣"@
    } else if condition == "mostly clear"@ {
        "🌤"@
    } else if condition == "mostly sunny"@ {
        "🌤"@
    } else if condition == "partly sunny"@ {
        "⛅"@
    } else if condition == "fair"@ {
        "🌑"@
    } else if condition == "cloudy"@ {
        "☁"@
    } else if condition == "overcast"@ {
        "☁"@
    } else if condition == "partly cloudy"@ {
        "⛅"@
    } else if condition == "mostly cloudy"@ {
        "🌧"@
    } else if condition == "considerable cloudines"@ {
        "☔"@
    } else {
        "🌑"@
    }
}

/// The sign that stands for a sky condition, as a weather report names it.
/// A condition without a sign of its own gets that of a fair sky.
pub fn weather_sky_condition(condition: String) -> (r: &'static str)
    ensures
        r@ == sky_sign(condition@),
{
    let condition = condition.as_str();
    if str_eq(condition, "clear") {
        "🌣"
    } else if str_eq(condition, "sunny") {
        "🌣"
    } else if str_eq(condition, "mostly clear") {
        "🌤"
    } else if str_eq(condition, "mostly sunny") {
        "🌤"
    } else if str_eq(condition, "partly sunny") {
        "⛅"
    } else if str_eq(condition, "fair") {
        "🌑"
    } else if str_eq(condition, "cloudy") {
        "☁"
    } else if str_eq(condition, "overcast") {
        "☁"
    } else if str_eq(condition, "partly cloudy") {
        "⛅"
    } else if str_eq(condition, "mostly cloudy") {
        "🌧"
    } else if str_eq(condition, "considerable cloudines") {
        "☔"
    } else {
        "🌑"
    }
}

/// A whole number in decimal digits, with a `-` before it where it is
/// negative.
pub open spec fn signed_decimal(n: int) -> Seq<char> {
    if n < 0 {
        seq!['-'] + decimal((-n) as nat)
    } else {
        decimal(n as nat)
    }
}

/// Represents Weather widget used to show current weather information.
pub struct Weather {
    pub attr: Attributes,
    pub station_code: String,
}

impl Weather {
    /// Creates a new [`Weather`] widget.
    ///
    /// Arguments
    ///
    /// * `attr` - Represents `Attributes` which controls properties like
    /// `Font`, foreground and background color etc.
    ///
    /// * `station_code` - Represents weather station code from the
    /// Federal Climate Complex ISD.
    pub fn new(attr: Attributes, station_code: String) -> (r: Weather)
        ensures
            r.attr@ == attr@,
            r.station_code@ == station_code@,
    {
        Weather { attr, station_code }
    }

    /// The one text that the widget shows. `rendered` is what the caller's
    /// own way of writing the weather gave, where there is one.
    pub open spec fn shown(self, celsius: i16, rendered: Option<Seq<char>>) -> TextView {
        TextView {
            attr: self.attr@,
            text: match rendered {
                Some(text) => text,
                None => "Temp: "@ + signed_decimal(celsius as int) + "°C"@,
            },
            stretch: false,
            markup: true,
        }
    }

    /// The texts for a report that gives the temperature `celsius`.
    pub fn tick(&self, celsius: i16, rendered: Option<String>) -> (r: Vec<Text>)
        ensures
            r@.len() == 1,
            r@[0]@ == self.shown(
                celsius,
                match rendered {
                    Some(text) => Some(text@),
                    None => None,
                },
            ),
    {
        let text = match rendered {
            Some(text) => text,
            None => {
                let mut text = String::from_str("Temp: ");
                if celsius < 0 {
                    push_char(&mut text, '-');
                    push_decimal(&mut text, (-(celsius as i32)) as u64);
                } else {
                    push_decimal(&mut text, celsius as u64);
                }
                text.append("°C");
                assert(text@ =~= "Temp: "@ + signed_decimal(celsius as int) + "°C"@);
                text
            },
        };
        let mut texts = Vec::new();
        texts.push(Text { attr: self.attr.clone(), text, stretch: false, markup: true });
        texts
    }
}

} // verus!
