//! The widget that shows what a command prints.

use crate::strings::owned;
use crate::text::{Attributes, Text, TextView};
use vstd::prelude::*;

verus! {

/// Shows the output of a command.
pub struct Command {
    pub attr: Attributes,
    pub command: String,
    /// The seconds between two runs of the command.
    pub update_interval: u64,
}

impl Command {
    /// Creates a new [`Command`] widget.
    ///
    /// Arguments
    ///
    /// * `attr` - Represents `Attributes` which controls properties like
    /// `Font`, foreground and background color etc.
    ///
    /// * `command` - Command to be executed.
    ///
    /// * `update_interval` - Time interval between updates, in seconds.
    pub fn new(attr: Attributes, command: String, update_interval: u64) -> (r: Command)
        ensures
            r.attr@ == attr@,
            r.command@ == command@,
            r.update_interval == update_interval,
    {
        Command { attr, command, update_interval }
    }

    /// The one text that the widget shows.
    pub open spec fn shown(self, output: Option<Seq<char>>) -> TextView {
        TextView {
            attr: self.attr@,
            text: match output {
                Some(text) => text,
                None => "error"@,
            },
            stretch: false,
            markup: true,
        }
    }

    /// The texts for what the command printed. `None` stands for output that
    /// is no text: the widget then shows `error`.
    pub fn tick(&self, output: Option<String>) -> (r: Vec<Text>)
        ensures
            r@.len() == 1,
            r@[0]@ == self.shown(
                match output {
                    Some(text) => Some(text@),
                    None => None,
                },
            ),
    {
        let text = match output {
            Some(text) => text,
            None => owned("error"),
        };
        let mut texts = Vec::new();
        texts.push(Text { attr: self.attr.clone(), text, stretch: false, markup: true });
        texts
    }
}

} // verus!
