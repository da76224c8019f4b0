//! The volume widget for systems with `sndio`.

use crate::strings::{decimal, owned, push_decimal, str_eq};
use crate::text::{Attributes, Text, TextView};
use vstd::prelude::*;

verus! {

/// What is known of the output.
#[derive(Clone, Copy, Debug, PartialEq, Eq, Structural)]
pub enum State {
    Unknown,
    Muted,
    /// The output sounds, at so many per cent of its full level.
    Unmuted { percentage: u8 },
}

/// A level from 0 to 255 in per cent of the full level, rounded to the
/// nearest whole number.
pub open spec fn percentage_of(value: u8) -> u8 {
    ((value * 200 + 255) / 510) as u8
}

/// Follows the controls of the sound system and knows from them whether the
/// output is muted and how loud it is.
#[derive(Clone, Copy, Debug, PartialEq, Eq, Structural)]
pub struct OpenBsd {
    /// What was last told to the widget.
    pub state: State,
    pub muted: bool,
    pub percentage: u8,
}

/// What a control of the sound system says.
pub open spec fn controlled(before: OpenBsd, name: Seq<char>, func: Seq<char>, value: u8)
    -> OpenBsd {
    let muted = if name == "output"@ && func == "mute"@ && value == 1 {
        true
    } else if name == "output"@ && func == "mute"@ && value == 0 {
        false
    } else {
        before.muted
    };
    let percentage = if name == "output"@ && func == "level"@ {
        percentage_of(value)
    } else {
        before.percentage
    };
    let state = if muted {
        State::Muted
    } else {
        State::Unmuted { percentage }
    };
    OpenBsd { state, muted, percentage }
}

impl OpenBsd {
    /// Nothing is known yet: the output counts as sounding at one per cent
    /// until the controls say otherwise.
    pub fn new() -> (r: OpenBsd)
        ensures
            r == (OpenBsd { state: State::Unknown, muted: false, percentage: 1 }),
    {
        OpenBsd { state: State::Unknown, muted: false, percentage: 1 }
    }

    /// A level from 0 to 255 in per cent.
    pub fn percentage(&self, value: u8) -> (r: u8)
        ensures
            r == percentage_of(value),
    {
        ((value as u32 * 200 + 255) / 510) as u8
    }

    /// Takes in what a control of the sound system says. Hands back the new
    /// state where it is another than the last one told.
    pub fn on_control(&mut self, name: &str, func: &str, value: u8) -> (r: Option<State>)
        ensures
            *final(self) == controlled(*old(self), name@, func@, value),
            r == if final(self).state == old(self).state {
                None
            } else {
                Some(final(self).state)
            },
    {
        let output = str_eq(name, "output");
        let mute = str_eq(func, "mute");
        if output && mute && value == 1 {
            self.muted = true;
        } else if output && mute && value == 0 {
            self.muted = false;
        } else if output && str_eq(func, "level") {
            self.percentage = self.percentage(value);
        }
        proof {
            reveal_strlit("mute");
            reveal_strlit("level");
            assert("mute"@ != "level"@) by {
                assert("mute"@.len() == 4);
                assert("level"@.len() == 5);
            }
        }
        let new = if self.muted {
            State::Muted
        } else {
            State::Unmuted { percentage: self.percentage }
        };
        if self.state != new {
            self.state = new;
            Some(new)
        } else {
            None
        }
    }
}

/// What the widget writes for a state of the output.
pub open spec fn volume_text(state: State) -> Seq<char> {
    match state {
        State::Unknown => "?"@,
        State::Muted => "M"@,
        State::Unmuted { percentage } => decimal(percentage as nat) + "%"@,
    }
}

/// Shows the current volume of the output.
pub struct Volume {
    pub attr: Attributes,
}

impl Volume {
    /// Creates a new Volume widget.
    pub fn new(attr: Attributes) -> (r: Volume)
        ensures
            r.attr@ == attr@,
    {
        Volume { attr }
    }

    /// The one text that the widget shows for a state of the output.
    pub open spec fn shown(self, state: State) -> TextView {
        TextView { attr: self.attr@, text: volume_text(state), stretch: false, markup: false }
    }

    /// The texts for a state of the output.
    pub fn on_change(&self, state: State) -> (r: Vec<Text>)
        ensures
            r@.len() == 1,
            r@[0]@ == self.shown(state),
    {
        let text = match state {
            State::Unknown => owned("?"),
            State::Muted => owned("M"),
            State::Unmuted { percentage } => {
                let mut text = String::new();
                push_decimal(&mut text, percentage as u64);
                text.append("%");
                assert(text@ =~= decimal(percentage as nat) + "%"@);
                text
            },
        };
        let mut texts = Vec::new();
        texts.push(Text { attr: self.attr.clone(), text, stretch: false, markup: false });
        texts
    }
}

} // verus!
