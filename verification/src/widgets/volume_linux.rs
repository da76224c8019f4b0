//! The volume widget for systems with ALSA.

use crate::strings::owned;
use crate::text::{Attributes, Text, TextView};
use vstd::prelude::*;

verus! {

/// What the widget writes: a sign for a muted output, and else the volume in
/// per cent, as `percentage` writes it, in grey brackets.
pub open spec fn volume_text(muted: bool, percentage: Seq<char>) -> Seq<char> {
    if muted {
        "🔇"@
    } else {
        "<span foreground=\"#808080\">[</span>🔈 "@ + percentage
            + "%<span foreground=\"#808080\">]</span>"@
    }
}

/// Shows the current volume of the default ALSA output.
///
/// This widget shows the current volume of the default ALSA output, or a
/// sign for it if the output is muted.
pub struct Volume {
    pub attr: Attributes,
}

impl Volume {
    /// Creates a new Volume widget.
    ///
    /// Creates a new `Volume` widget, whose text will be displayed
    /// with the given [`Attributes`].
    pub fn new(attr: Attributes) -> (r: Volume)
        ensures
            r.attr@ == attr@,
    {
        Volume { attr }
    }

    /// The one text that the widget shows.
    pub open spec fn shown(self, playback_switch: i32, percentage: Seq<char>) -> TextView {
        TextView {
            attr: self.attr@,
            text: volume_text(playback_switch == 0, percentage),
            stretch: false,
            markup: true,
        }
    }

    /// The texts for an output whose playback switch and volume are given.
    /// A switch at zero says that the output is muted. `percentage` is the
    /// volume in per cent, written out.
    pub fn on_change(&self, playback_switch: i32, percentage: &str) -> (r: Vec<Text>)
        ensures
            r@.len() == 1,
            r@[0]@ == self.shown(playback_switch, percentage@),
    {
        let mute = playback_switch == 0;
        let text = if !mute {
            let mut text = owned("<span foreground=\"#808080\">[</span>🔈 ");
            text.append(percentage);
            text.append("%<span foreground=\"#808080\">]</span>");
            text
        } else {
            owned("🔇")
        };
        let mut texts = Vec::new();
        texts.push(Text { attr: self.attr.clone(), text, stretch: false, markup: true });
        texts
    }
}

/// The stream of the changes of the mixer. The first time it is asked
/// it answers at once, so that the widget shows the volume as it is.
#[derive(Clone, Copy, Debug, PartialEq, Eq, Structural)]
pub struct AlsaEventStream {
    pub initial: bool,
}

impl AlsaEventStream {
    pub fn new() -> (r: AlsaEventStream)
        ensures
            r.initial,
    {
        AlsaEventStream { initial: true }
    }

    /// Whether the stream answers without waiting for the mixer. It does so
    /// once, the first time it is asked.
    pub fn poll_next(&mut self) -> (r: bool)
        ensures
            r == old(self).initial,
            !final(self).initial,
    {
        if self.initial {
            self.initial = false;
            return true;
        }
        false
    }
}

} // verus!
