//! The clock widget.

use crate::strings::owned;
use crate::text::{Attributes, Text, TextView};
use vstd::prelude::*;

verus! {

/// Shows the current time and date.
///
/// This widget shows the current time and date, in the form
/// `%a %m-%d-%Y %I:%M %p`, e.g. `Fri 09-01-2017 12:51 PM`, unless it is given
/// a form of its own.
pub struct Clock {
    pub attr: Attributes,
    pub format_str: Option<String>,
}

impl Clock {
    // Creates a new Clock widget.
    pub fn new(attr: Attributes, format_str: Option<String>) -> (r: Clock)
        ensures
            r.attr@ == attr@,
            r.format_str == format_str,
    {
        Clock { attr, format_str }
    }

    /// The form in which the widget writes the time.
    pub open spec fn spec_format(self) -> Seq<char> {
        match self.format_str {
            Some(format) => format@,
            None => "%a %m-%d-%Y %I:%M %p"@,
        }
    }

    /// The form in which the widget writes the time: its own, or the usual
    /// one where it has none.
    pub fn format(&self) -> (r: String)
        ensures
            r@ == self.spec_format(),
    {
        match &self.format_str {
            Some(format) => format.clone(),
            None => owned("%a %m-%d-%Y %I:%M %p"),
        }
    }

    /// The one text that the widget shows.
    pub open spec fn shown(self, now: Seq<char>) -> TextView {
        TextView { attr: self.attr@, text: now, stretch: false, markup: true }
    }

    /// The texts for the time `now`, which is written in the form that
    /// [`Clock::format`] gives.
    pub fn tick(&self, now: String) -> (r: Vec<Text>)
        ensures
            r@.len() == 1,
            r@[0]@ == self.shown(now@),
    {
        let mut texts = Vec::new();
        texts.push(Text { attr: self.attr.clone(), text: now, stretch: false, markup: true });
        texts
    }
}

} // verus!
