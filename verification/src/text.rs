//! Types to represent text to be displayed by widgets.
//!
//! A [`Text`] is one segment as a widget produces it. A [`ComputedText`] is
//! the same segment once it has been measured: it carries a position and a
//! size, in whole pixels.

use crate::strings::{hex_byte, owned, push_char, push_hex_byte};
use vstd::prelude::*;
use vstd::std_specs::cmp::PartialEqSpecImpl;

verus! {

/// A colour, one byte for each of red, green and blue.
#[derive(Clone, Copy, Debug, PartialEq, Eq, Structural)]
pub struct Color {
    pub red: u8,
    pub green: u8,
    pub blue: u8,
}

/// What a colour written in hexadecimal stands for, as the `colors_transform`
/// crate reads it: the three channels, or `None` where it reads no colour.
pub uninterp spec fn parsed_hex(hex: Seq<char>) -> Option<(u8, u8, u8)>;

/// Reads a colour written in hexadecimal, such as `#1e1e2e` or `#0C7`.
///
/// Calls `colors_transform::Rgb::from_hex_str` and hands back the three
/// channels it found, each a whole number from 0 to 255, or `None` where it
/// reports a parse error. The result depends on the text alone.
#[verifier::external_body]
fn rgb_from_hex_str(hex: &str) -> (r: Option<(u8, u8, u8)>)
    ensures
        r == parsed_hex(hex@),
{
    match colors_transform::Rgb::from_hex_str(hex) {
        Ok(rgb) => {
            let (red, green, blue) = colors_transform::Color::as_tuple(&rgb);
            Some((red as u8, green as u8, blue as u8))
        },
        Err(_) => None,
    }
}

impl Color {
    /// The colour `#FF0000`.
    pub fn red() -> (c: Color)
        ensures
            c == (Color { red: 255, green: 0, blue: 0 }),
    {
        Color { red: 255, green: 0, blue: 0 }
    }

    /// The colour `#00FF00`.
    pub fn green() -> (c: Color)
        ensures
            c == (Color { red: 0, green: 255, blue: 0 }),
    {
        Color { red: 0, green: 255, blue: 0 }
    }

    /// The colour `#0000FF`.
    pub fn blue() -> (c: Color)
        ensures
            c == (Color { red: 0, green: 0, blue: 255 }),
    {
        Color { red: 0, green: 0, blue: 255 }
    }

    /// The colour `#FFFFFF`.
    pub fn white() -> (c: Color)
        ensures
            c == (Color { red: 255, green: 255, blue: 255 }),
    {
        Color { red: 255, green: 255, blue: 255 }
    }

    /// The colour `#000000`.
    pub fn black() -> (c: Color)
        ensures
            c == (Color { red: 0, green: 0, blue: 0 }),
    {
        Color { red: 0, green: 0, blue: 0 }
    }

    /// The colour `#FFFF00`.
    pub fn yellow() -> (c: Color)
        ensures
            c == (Color { red: 255, green: 255, blue: 0 }),
    {
        Color { red: 255, green: 255, blue: 0 }
    }

    /// The colour with the given channels.
    pub fn from_rgb(r: u8, g: u8, b: u8) -> (c: Color)
        ensures
            c == (Color { red: r, green: g, blue: b }),
    {
        Color { red: r, green: g, blue: b }
    }

    /// The colour that a parsed hexadecimal text stands for: its three
    /// channels, or black where the text was no colour.
    pub open spec fn of_parsed(parsed: Option<(u8, u8, u8)>) -> Color {
        match parsed {
            Some((r, g, b)) => Color { red: r, green: g, blue: b },
            None => Color { red: 0, green: 0, blue: 0 },
        }
    }

    /// Turns the outcome of reading a hexadecimal colour into a colour.
    pub fn from_parsed(parsed: Option<(u8, u8, u8)>) -> (c: Color)
        ensures
            c == Color::of_parsed(parsed),
    {
        match parsed {
            Some((r, g, b)) => Color::from_rgb(r, g, b),
            None => Color::from_rgb(0, 0, 0),
        }
    }

    /// Parses a string as a hexadecimal colour. Text that is no colour gives
    /// black.
    pub fn from_hex(hex: &str) -> (c: Color)
        ensures
            c == Color::of_parsed(parsed_hex(hex@)),
    {
        Color::from_parsed(rgb_from_hex_str(hex))
    }

    /// The colour as `#RRGGBB`, in upper-case hexadecimal.
    pub open spec fn hex(self) -> Seq<char> {
        seq!['#'] + hex_byte(self.red) + hex_byte(self.green) + hex_byte(self.blue)
    }

    /// Writes the colour as `#RRGGBB`, in upper-case hexadecimal.
    pub fn to_hex(&self) -> (s: String)
        ensures
            s@ == self.hex(),
    {
        let mut s = String::new();
        push_char(&mut s, '#');
        push_hex_byte(&mut s, self.red);
        push_hex_byte(&mut s, self.green);
        push_hex_byte(&mut s, self.blue);
        assert(s@ =~= self.hex());
        s
    }
}

/// The room left free around a text, in pixels.
#[derive(Clone, Copy, Debug, PartialEq, Eq, Structural)]
pub struct Padding {
    pub left: u32,
    pub right: u32,
    pub top: u32,
    pub bottom: u32,
}

impl Padding {
    pub fn new(left: u32, right: u32, top: u32, bottom: u32) -> (p: Padding)
        ensures
            p == (Padding { left, right, top, bottom }),
    {
        Padding { left, right, top, bottom }
    }
}

/// A font, by its description, such as `SourceCodePro 21`.
#[derive(Debug)]
pub struct Font {
    pub name: String,
}

impl View for Font {
    type V = Seq<char>;

    open spec fn view(&self) -> Seq<char> {
        self.name@
    }
}

impl Font {
    pub fn new(name: &str) -> (f: Font)
        ensures
            f@ == name@,
    {
        Font { name: name.to_owned() }
    }
}

impl Clone for Font {
    fn clone(&self) -> (r: Font)
        ensures
            r@ == self@,
    {
        Font { name: self.name.clone() }
    }
}

impl PartialEq for Font {
    fn eq(&self, other: &Font) -> (r: bool) {
        self.name == other.name
    }
}

impl PartialEqSpecImpl for Font {
    open spec fn obeys_eq_spec() -> bool {
        true
    }

    open spec fn eq_spec(&self, other: &Font) -> bool {
        self@ == other@
    }
}

/// How a text is to be displayed.
#[derive(Debug)]
pub struct Attributes {
    pub font: Font,
    pub fg_color: Color,
    pub bg_color: Option<Color>,
    pub padding: Padding,
}

/// What an [`Attributes`] holds, as mathematical values.
pub struct AttributesView {
    pub font: Seq<char>,
    pub fg_color: Color,
    pub bg_color: Option<Color>,
    pub padding: Padding,
}

impl View for Attributes {
    type V = AttributesView;

    open spec fn view(&self) -> AttributesView {
        AttributesView {
            font: self.font@,
            fg_color: self.fg_color,
            bg_color: self.bg_color,
            padding: self.padding,
        }
    }
}

impl Clone for Attributes {
    fn clone(&self) -> (r: Attributes)
        ensures
            r@ == self@,
    {
        Attributes {
            font: self.font.clone(),
            fg_color: self.fg_color,
            bg_color: self.bg_color,
            padding: self.padding,
        }
    }
}

impl PartialEq for Attributes {
    fn eq(&self, other: &Attributes) -> (r: bool) {
        self.font == other.font && self.fg_color == other.fg_color && self.bg_color
            == other.bg_color && self.padding == other.padding
    }
}

impl PartialEqSpecImpl for Attributes {
    open spec fn obeys_eq_spec() -> bool {
        true
    }

    open spec fn eq_spec(&self, other: &Attributes) -> bool {
        self@ == other@
    }
}

/// The attributes that a pager gives to its workspaces.
pub struct PagerAttributes {
    /// Active attributes are applied to the currently active workspace
    pub active_attr: Attributes,
    /// Inactive attributes are applied to workspaces that are not active and contain no windows
    pub inactive_attr: Attributes,
    /// Non empty attributes are applied to workspaces that are not active and contain windows
    pub non_empty_attr: Attributes,
}

/// One segment of text as a widget produces it.
#[derive(Debug)]
pub struct Text {
    pub attr: Attributes,
    pub text: String,
    /// A stretching text takes an even share of the room that the other
    /// texts leave, whatever its own size.
    pub stretch: bool,
    /// Whether `text` holds inline markup.
    pub markup: bool,
}

/// What a [`Text`] holds, as mathematical values.
pub struct TextView {
    pub attr: AttributesView,
    pub text: Seq<char>,
    pub stretch: bool,
    pub markup: bool,
}

impl View for Text {
    type V = TextView;

    open spec fn view(&self) -> TextView {
        TextView { attr: self.attr@, text: self.text@, stretch: self.stretch, markup: self.markup }
    }
}

impl Clone for Text {
    fn clone(&self) -> (r: Text)
        ensures
            r@ == self@,
    {
        Text {
            attr: self.attr.clone(),
            text: self.text.clone(),
            stretch: self.stretch,
            markup: self.markup,
        }
    }
}

impl PartialEq for Text {
    fn eq(&self, other: &Text) -> (r: bool) {
        self.attr == other.attr && self.text == other.text && self.stretch == other.stretch
            && self.markup == other.markup
    }
}

impl PartialEqSpecImpl for Text {
    open spec fn obeys_eq_spec() -> bool {
        true
    }

    open spec fn eq_spec(&self, other: &Text) -> bool {
        self@ == other@
    }
}

/// A segment with its place on the bar: `x` and `y` of its top left corner,
/// its `width` and its `height`, in pixels.
#[derive(Debug)]
pub struct ComputedText {
    pub attr: Attributes,
    pub text: String,
    pub stretch: bool,
    pub x: u64,
    pub y: u64,
    pub width: u64,
    pub height: u64,
    pub markup: bool,
}

/// What a [`ComputedText`] holds, as mathematical values.
pub struct ComputedTextView {
    pub attr: AttributesView,
    pub text: Seq<char>,
    pub stretch: bool,
    pub x: nat,
    pub y: nat,
    pub width: nat,
    pub height: nat,
    pub markup: bool,
}

impl View for ComputedText {
    type V = ComputedTextView;

    open spec fn view(&self) -> ComputedTextView {
        ComputedTextView {
            attr: self.attr@,
            text: self.text@,
            stretch: self.stretch,
            x: self.x as nat,
            y: self.y as nat,
            width: self.width as nat,
            height: self.height as nat,
            markup: self.markup,
        }
    }
}

impl Clone for ComputedText {
    fn clone(&self) -> (r: ComputedText)
        ensures
            r@ == self@,
    {
        ComputedText {
            attr: self.attr.clone(),
            text: self.text.clone(),
            stretch: self.stretch,
            x: self.x,
            y: self.y,
            width: self.width,
            height: self.height,
            markup: self.markup,
        }
    }
}

impl PartialEq for ComputedText {
    fn eq(&self, other: &ComputedText) -> (r: bool) {
        self.attr == other.attr && self.text == other.text && self.stretch == other.stretch
            && self.x == other.x && self.y == other.y && self.width == other.width && self.height
            == other.height && self.markup == other.markup
    }
}

impl PartialEqSpecImpl for ComputedText {
    open spec fn obeys_eq_spec() -> bool {
        true
    }

    open spec fn eq_spec(&self, other: &ComputedText) -> bool {
        self@ == other@
    }
}

/// Whether a text and a placed text show the same thing in the same style:
/// the same attributes, the same characters and the same stretch flag.
/// Place and size play no part, nor does the markup flag.
pub open spec fn same_text(text: TextView, placed: ComputedTextView) -> bool {
    text.attr == placed.attr && text.text == placed.text && text.stretch == placed.stretch
}

// This impl allows us to see whether a widget's text has changed without
// having to measure it first.
impl PartialEq<ComputedText> for Text {
    fn eq(&self, other: &ComputedText) -> (r: bool) {
        self.attr == other.attr && self.text == other.text && self.stretch == other.stretch
    }
}

impl PartialEqSpecImpl<ComputedText> for Text {
    open spec fn obeys_eq_spec() -> bool {
        true
    }

    open spec fn eq_spec(&self, other: &ComputedText) -> bool {
        same_text(self@, other@)
    }
}

/// The size of a text along one axis: what was measured, taken as zero where
/// it is negative, and the padding on both sides.
pub open spec fn padded(measured: int, before: u32, after: u32) -> nat {
    ((if measured < 0 { 0 } else { measured }) + before + after) as nat
}

fn pad(measured: i32, before: u32, after: u32) -> (r: u64)
    ensures
        r == padded(measured as int, before, after),
{
    let inner: u64 = if measured < 0 {
        0
    } else {
        measured as u64
    };
    inner + before as u64 + after as u64
}

impl Text {
    /// The text, measured but not yet placed.
    pub open spec fn computed(self, text_width: int, text_height: int) -> ComputedTextView {
        ComputedTextView {
            attr: self.attr@,
            text: self.text@,
            stretch: self.stretch,
            x: 0,
            y: 0,
            width: padded(text_width, self.attr.padding.left, self.attr.padding.right),
            height: padded(text_height, self.attr.padding.top, self.attr.padding.bottom),
            markup: self.markup,
        }
    }

    /// Gives the text its natural size. `text_width` and `text_height` are
    /// what the text measures in its font, in pixels; the padding is added
    /// to them. The result sits at the origin until the bar places it.
    pub fn compute(self, text_width: i32, text_height: i32) -> (c: ComputedText)
        ensures
            c@ == self.computed(text_width as int, text_height as int),
    {
        let width = pad(text_width, self.attr.padding.left, self.attr.padding.right);
        let height = pad(text_height, self.attr.padding.top, self.attr.padding.bottom);
        ComputedText {
            attr: self.attr,
            text: self.text,
            stretch: self.stretch,
            x: 0,
            y: 0,
            width,
            height,
            markup: self.markup,
        }
    }
}

/// What is to be drawn for one placed text: a filled rectangle, and the text
/// inside it, cut off where it does not fit.
#[derive(Clone, Copy, Debug, PartialEq, Eq, Structural)]
pub struct Rendering {
    /// The rectangle to fill with `background`.
    pub x: u64,
    pub y: u64,
    pub width: u64,
    pub height: u64,
    pub background: Color,
    pub foreground: Color,
    /// Where the text starts, measured from the rectangle's corner.
    pub text_left: u32,
    pub text_top: u32,
    /// The room that the text may take.
    pub text_width: u64,
    pub text_height: u64,
}

/// What is left of a length once the padding on both sides is taken off, and
/// zero where the padding is larger.
pub open spec fn inner(outer: nat, before: u32, after: u32) -> nat {
    if outer >= before + after {
        (outer - before - after) as nat
    } else {
        0
    }
}

fn unpad(outer: u64, before: u32, after: u32) -> (r: u64)
    ensures
        r == inner(outer as nat, before, after),
{
    let padding: u64 = before as u64 + after as u64;
    if outer >= padding {
        outer - padding
    } else {
        0
    }
}

impl ComputedText {
    /// What [`ComputedText::render`] hands back.
    pub open spec fn rendering(self) -> Rendering {
        Rendering {
            x: self.x,
            y: self.y,
            width: self.width,
            height: self.height,
            background: match self.attr.bg_color {
                Some(c) => c,
                None => Color { red: 0, green: 0, blue: 0 },
            },
            foreground: self.attr.fg_color,
            text_left: self.attr.padding.left,
            text_top: self.attr.padding.top,
            text_width: inner(
                self.width as nat,
                self.attr.padding.left,
                self.attr.padding.right,
            ) as u64,
            text_height: inner(
                self.height as nat,
                self.attr.padding.top,
                self.attr.padding.bottom,
            ) as u64,
        }
    }

    /// Says what to draw for this text: its rectangle in the background
    /// colour, black where it has none, and the text inside the padding.
    pub fn render(&self) -> (r: Rendering)
        ensures
            r == self.rendering(),
    {
        let background = match self.attr.bg_color {
            Some(c) => c,
            None => Color::black(),
        };
        Rendering {
            x: self.x,
            y: self.y,
            width: self.width,
            height: self.height,
            background,
            foreground: self.attr.fg_color,
            text_left: self.attr.padding.left,
            text_top: self.attr.padding.top,
            text_width: unpad(self.width, self.attr.padding.left, self.attr.padding.right),
            text_height: unpad(self.height, self.attr.padding.top, self.attr.padding.bottom),
        }
    }
}

/// A limit and the colour to use up to it.
#[derive(Clone, Copy, Debug, PartialEq, Eq, Structural)]
pub struct ThresholdValue {
    pub threshold: u8,
    pub color: Color,
}

/// The limits that tell a low, a normal and a high reading apart.
#[derive(Clone, Copy, Debug, PartialEq, Eq, Structural)]
pub struct Threshold {
    pub low: ThresholdValue,
    pub normal: ThresholdValue,
    pub high: ThresholdValue,
}

impl Threshold {
    /// Red up to 40, yellow up to 60, green up to 100.
    pub open spec fn standard() -> Threshold {
        Threshold {
            low: ThresholdValue { threshold: 40, color: Color { red: 255, green: 0, blue: 0 } },
            normal: ThresholdValue {
                threshold: 60,
                color: Color { red: 255, green: 255, blue: 0 },
            },
            high: ThresholdValue {
                threshold: 100,
                color: Color { red: 0, green: 255, blue: 0 },
            },
        }
    }

    /// The colour for a reading: that of the first limit which the reading
    /// does not exceed, and that of `high` above them all.
    pub open spec fn spec_color_for(self, value: u8) -> Color {
        if value <= self.low.threshold {
            self.low.color
        } else if value <= self.normal.threshold {
            self.normal.color
        } else {
            self.high.color
        }
    }

    pub fn color_for(&self, value: u8) -> (c: Color)
        ensures
            c == self.spec_color_for(value),
    {
        if value <= self.low.threshold {
            self.low.color
        } else if value <= self.normal.threshold {
            self.normal.color
        } else {
            self.high.color
        }
    }
}

impl Default for Threshold {
    fn default() -> (t: Threshold)
        ensures
            t == Threshold::standard(),
    {
        Threshold {
            low: ThresholdValue { threshold: 40, color: Color::red() },
            normal: ThresholdValue { threshold: 60, color: Color::yellow() },
            high: ThresholdValue { threshold: 100, color: Color::green() },
        }
    }
}

/// A text in grey square brackets: `start_text`, a blank, and then `text` in
/// the given colour.
pub open spec fn markup_text(color: Color, start_text: Seq<char>, text: Seq<char>) -> Seq<char> {
    "<span foreground=\"#808080\">[</span>"@ + start_text + " <span foreground=\""@ + color.hex()
        + "\">"@ + text + "</span><span foreground=\"#808080\">]</span>"@
}

/// A text in grey square brackets, followed by an empty stretch in the given
/// colour.
pub open spec fn markup_single_text(color: Color, start_text: Seq<char>) -> Seq<char> {
    "<span foreground=\"#808080\">[</span>"@ + start_text + "<span foreground=\""@ + color.hex()
        + "\"></span><span foreground=\"#808080\">]</span>"@
}

/// Writes markup for `start_text` and, after a blank, `text` in the given
/// colour, all in grey square brackets.
pub fn pango_markup_render(color: Color, start_text: String, text: String) -> (r: String)
    ensures
        r@ == markup_text(color, start_text@, text@),
{
    let mut out = owned("<span foreground=\"#808080\">[</span>");
    out.append(start_text.as_str());
    out.append(" <span foreground=\"");
    out.append(color.to_hex().as_str());
    out.append("\">");
    out.append(text.as_str());
    out.append("</span><span foreground=\"#808080\">]</span>");
    out
}

/// Writes markup for `start_text` in grey square brackets.
pub fn pango_markup_single_render(color: Color, start_text: String) -> (r: String)
    ensures
        r@ == markup_single_text(color, start_text@),
{
    let mut out = owned("<span foreground=\"#808080\">[</span>");
    out.append(start_text.as_str());
    out.append("<span foreground=\"");
    out.append(color.to_hex().as_str());
    out.append("\"></span><span foreground=\"#808080\">]</span>");
    out
}

} // verus!
