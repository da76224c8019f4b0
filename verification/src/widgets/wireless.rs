//! The wireless widget.

use crate::strings::{decimal, owned, push_decimal};
use crate::text::{Attributes, Text, TextView, Threshold};
use vstd::prelude::*;

verus! {

/// What is known of the wireless network.
#[derive(Debug)]
pub struct WirelessInfo {
    /// ESSID identifying the name of the wireless network
    pub wi_essid: String,
    /// Quality of the wireless network
    pub wi_quality: u8,
}

/// What the widget writes: the name of the network and its quality in per
/// cent. Where there are limits, the quality is written in the colour that
/// they give it, and all of it in grey brackets. `NA` where nothing is known.
pub open spec fn wireless_text(info: Option<(Seq<char>, u8)>, threshold: Option<Threshold>) -> Seq<
    char,
> {
    match info {
        Some((essid, quality)) => match threshold {
            Some(limits) => "<span foreground=\"#808080\">[</span>"@ + essid
                + " <span foreground=\""@ + limits.spec_color_for(quality).hex() + "\">"@ + decimal(
                quality as nat,
            ) + "%</span><span foreground=\"#808080\">]</span>"@,
            None => essid + " "@ + decimal(quality as nat) + "%"@,
        },
        None => "NA"@,
    }
}

/// Wireless widget to show wireless information for a particular ESSID
pub struct Wireless {
    pub attr: Attributes,
    pub interface: String,
    /// The seconds between two readings.
    pub update_interval: u64,
    pub threshold: Option<Threshold>,
}

impl Wireless {
    /// Creates a new [`Wireless`] widget.
    ///
    /// Arguments
    ///
    /// * `attr` - Represents `Attributes` which controls properties like
    /// `Font`, foreground and background color etc.
    ///
    /// * `interface` - String representing the name name of the network
    /// interface for your wireless hardware.
    ///
    /// * `threshold` - Represents threshold values to determine if
    /// the wireless strength is low, normal or high.
    pub fn new(attr: Attributes, interface: String, threshold: Option<Threshold>) -> (r: Wireless)
        ensures
            r.update_interval == 3600,
            r.attr@ == attr@,
            r.interface@ == interface@,
            r.threshold == threshold,
    {
        Wireless { update_interval: 3600, interface, attr, threshold }
    }

    /// The one text that the widget shows.
    pub open spec fn shown(self, info: Option<(Seq<char>, u8)>) -> TextView {
        TextView {
            attr: self.attr@,
            text: wireless_text(info, self.threshold),
            stretch: false,
            markup: self.threshold.is_some(),
        }
    }

    /// The texts for what is known of the network, if anything.
    pub fn tick(&self, wireless_info: Option<WirelessInfo>) -> (r: Vec<Text>)
        ensures
            r@.len() == 1,
            r@[0]@ == self.shown(
                match wireless_info {
                    Some(info) => Some((info.wi_essid@, info.wi_quality)),
                    None => None,
                },
            ),
    {
        let text = match wireless_info {
            Some(info) => match &self.threshold {
                Some(thold) => {
                    let color = thold.color_for(info.wi_quality);
                    let mut text = owned("<span foreground=\"#808080\">[</span>");
                    text.append(info.wi_essid.as_str());
                    text.append(" <span foreground=\"");
                    text.append(color.to_hex().as_str());
                    text.append("\">");
                    push_decimal(&mut text, info.wi_quality as u64);
                    text.append("%</span><span foreground=\"#808080\">]</span>");
                    assert(text@ =~= wireless_text(
                        Some((info.wi_essid@, info.wi_quality)),
                        self.threshold,
                    ));
                    text
                },
                None => {
                    let mut text = info.wi_essid.clone();
                    text.append(" ");
                    push_decimal(&mut text, info.wi_quality as u64);
                    text.append("%");
                    assert(text@ =~= wireless_text(
                        Some((info.wi_essid@, info.wi_quality)),
                        self.threshold,
                    ));
                    text
                },
            },
            None => owned("NA"),
        };
        let mut texts = Vec::new();
        texts.push(
            Text {
                attr: self.attr.clone(),
                text,
                stretch: false,
                markup: self.threshold.is_some(),
            },
        );
        texts
    }
}

} // verus!
