//! The widget that shows the title of the focused window.

use crate::text::{Attributes, Text, TextView};
use vstd::prelude::*;

verus! {

/// Shows the title of the currently focused window.
///
/// The widgets content stretches to fill all available space. If the title is
/// too large for the available space, it will be truncated.
pub struct ActiveWindowTitle {
    pub attr: Attributes,
}

impl ActiveWindowTitle {
    /// Creates a new Active Window Title widget.
    pub fn new(attr: Attributes) -> (r: ActiveWindowTitle)
        ensures
            r.attr@ == attr@,
    {
        ActiveWindowTitle { attr }
    }

    /// The one text that the widget shows.
    pub open spec fn shown(self, title: Option<Seq<char>>) -> TextView {
        TextView {
            attr: self.attr@,
            text: match title {
                Some(text) => text,
                None => Seq::empty(),
            },
            stretch: true,
            markup: false,
        }
    }

    /// The texts for the title of the focused window. `None` stands for a
    /// title that could not be had: the widget is then empty.
    pub fn on_change(&self, title: Option<String>) -> (r: Vec<Text>)
        ensures
            r@.len() == 1,
            r@[0]@ == self.shown(
                match title {
                    Some(text) => Some(text@),
                    None => None,
                },
            ),
    {
        let title = match title {
            Some(text) => text,
            None => String::new(),
        };
        let mut texts = Vec::new();
        texts.push(Text { attr: self.attr.clone(), text: title, stretch: true, markup: false });
        texts
    }
}

} // verus!
