//! Compact text styling for constrained targets.
//!
//! Text is interleaved with styled runs of the form
//! `START fg bg attr <text> END`, where `fg` and `bg` are color codes
//! and `attr` is a five-bit attribute set.
use vstd::prelude::*;

pub mod decode;
pub mod encode;
pub mod laws;

verus! {

/// Byte that opens a styled run.
pub const START: char = '\x01';

/// Byte that closes a styled run.
pub const END: char = '\x02';

/// Number of bytes that a styled run adds around its text.
pub const STYLE_LEN: usize = 5;

/// Number of bytes in a style descriptor.
pub const DESCRIPTOR_LEN: usize = 3;

/// A run of text together with its style.
#[derive(Clone, Debug)]
pub struct Span {
    /// The text of the run.
    pub text: String,
    /// The style of the run.
    pub style: Style,
}

impl View for Span {
    type V = (Seq<char>, Style);

    open spec fn view(&self) -> (Seq<char>, Style) {
        (self.text@, self.style)
    }
}

impl PartialEq for Span {
    fn eq(&self, other: &Span) -> (r: bool)
        ensures
            r == (self@ == other@),
    {
        self.text == other.text && self.style == other.style
    }
}

impl vstd::std_specs::cmp::PartialEqSpecImpl for Span {
    open spec fn obeys_eq_spec() -> bool {
        true
    }

    open spec fn eq_spec(&self, other: &Span) -> bool {
        self@ == other@
    }
}

impl Eq for Span {}

impl Default for Span {
    fn default() -> (r: Span)
        ensures
            r@ == (Seq::<char>::empty(), Style::default_spec()),
    {
        Span { text: String::new(), style: Style::default() }
    }
}

impl Span {
    /// Creates a span from its text and style.
    pub fn new(text: String, style: Style) -> (r: Span)
        ensures
            r.text@ == text@,
            r.style == style,
    {
        Span { text, style }
    }

    /// Replaces the text of the span.
    pub fn with_text(self, text: String) -> (r: Span)
        ensures
            r.text@ == text@,
            r.style == self.style,
    {
        let mut s = self;
        s.text = text;
        s
    }

    /// Replaces the style of the span.
    pub fn with_style(self, style: Style) -> (r: Span)
        ensures
            r.text@ == self.text@,
            r.style == style,
    {
        let mut s = self;
        s.style = style;
        s
    }
}

/// Foreground color, background color and attributes of a run.
#[derive(Copy, Clone, Debug, PartialEq, Eq, Hash, Structural)]
pub struct Style {
    /// The color of the text.
    pub foreground: Color,
    /// The color behind the text.
    pub background: Color,
    /// The text attributes.
    pub attributes: Attributes,
}

impl Default for Style {
    fn default() -> (r: Style)
        ensures
            r == Style::default_spec(),
    {
        Style::new(Color::NoColor, Color::NoColor, Attributes::empty())
    }
}

impl Style {
    /// The default style: no colors and no attributes.
    pub open spec fn default_spec() -> Style {
        Style {
            foreground: Color::NoColor,
            background: Color::NoColor,
            attributes: attributes_empty(),
        }
    }

    /// Creates a style from its three parts.
    pub fn new(foreground: Color, background: Color, attributes: Attributes) -> (r: Style)
        ensures
            r == (Style { foreground, background, attributes }),
    {
        Style { foreground, background, attributes }
    }

    /// Replaces the foreground color.
    pub fn with_foreground(self, foreground: Color) -> (r: Style)
        ensures
            r == (Style { foreground, ..self }),
    {
        Style { foreground, ..self }
    }

    /// Replaces the background color.
    pub fn with_background(self, background: Color) -> (r: Style)
        ensures
            r == (Style { background, ..self }),
    {
        Style { background, ..self }
    }

    /// Replaces the attributes.
    pub fn with_attribute(self, attributes: Attributes) -> (r: Style)
        ensures
            r == (Style { attributes, ..self }),
    {
        Style { attributes, ..self }
    }
}

/// The color palette: a sentinel for "no color", then seven hues in five
/// shades each. Each color has a one-byte code, `NoColor` being 0 and the
/// palette following densely from 1 to 35.
#[derive(Copy, Clone, Debug, PartialEq, Eq, Hash, Default, Structural)]
pub enum Color {
    /// No color: a renderer uses its own default.
    #[default]
    NoColor,
    /// Gray: rgb(128, 128, 128)
    Gray,
    /// Bright gray: rgb(192, 192, 192)
    BrightGray,
    /// Brighter gray: rgb(255, 255, 255)
    BrighterGray,
    /// Dark gray: rgb(64, 64, 64)
    DarkGray,
    /// Darker gray: rgb(0, 0, 0)
    DarkerGray,
    /// Red: rgb(255, 0, 0)
    Red,
    /// Bright red: rgb(255, 64, 64)
    BrightRed,
    /// Brighter red: rgb(255, 128, 128)
    BrighterRed,
    /// Dark red: rgb(128, 0, 0)
    DarkRed,
    /// Darker red: rgb(64, 0, 0)
    DarkerRed,
    /// Green: rgb(0, 255, 0)
    Green,
    /// Bright green: rgb(64, 255, 64)
    BrightGreen,
    /// Brighter green: rgb(128, 255, 128)
    BrighterGreen,
    /// Dark green: rgb(0, 128, 0)
    DarkGreen,
    /// Darker green: rgb(0, 64, 0)
    DarkerGreen,
    /// Yellow: rgb(255, 255, 0)
    Yellow,
    /// Bright yellow: rgb(255, 255, 64)
    BrightYellow,
    /// Brighter yellow: rgb(255, 255, 128)
    BrighterYellow,
    /// Dark yellow: rgb(128, 128, 0)
    DarkYellow,
    /// Darker yellow: rgb(64, 64, 0)
    DarkerYellow,
    /// Blue: rgb(0, 0, 255)
    Blue,
    /// Bright blue: rgb(64, 64, 255)
    BrightBlue,
    /// Brighter blue: rgb(128, 128, 255)
    BrighterBlue,
    /// Dark blue: rgb(0, 0, 128)
    DarkBlue,
    /// Darker blue: rgb(0, 0, 64)
    DarkerBlue,
    /// Purple: rgb(128, 0, 128)
    Purple,
    /// Bright purple: rgb(192, 64, 192)
    BrightPurple,
    /// Brighter purple: rgb(224, 128, 224)
    BrighterPurple,
    /// Dark purple: rgb(64, 0, 64)
    DarkPurple,
    /// Darker purple: rgb(32, 0, 32)
    DarkerPurple,
    /// Cyan: rgb(0, 255, 255)
    Cyan,
    /// Bright cyan: rgb(64, 255, 255)
    BrightCyan,
    /// Brighter cyan: rgb(128, 255, 255)
    BrighterCyan,
    /// Dark cyan: rgb(0, 128, 128)
    DarkCyan,
    /// Darker cyan: rgb(0, 64, 64)
    DarkerCyan,
}

/// The color whose code is `b`, if there is one.
pub open spec fn color_of(b: u8) -> Option<Color> {
    if b <= 35 {
        Some(choose|c: Color| c.code() == b)
    } else {
        None
    }
}

/// Distinct colors have distinct codes.
pub broadcast proof fn lemma_code_injective(a: Color, b: Color)
    ensures
        #[trigger] a.code() == #[trigger] b.code() ==> a == b,
{
}

/// A color decodes back from its code.
pub proof fn lemma_color_round_trip(c: Color)
    ensures
        color_of(c.code()) == Some(c),
{
    broadcast use lemma_code_injective;
    assert(c.code() <= 35);
}

impl Color {
    /// The one-byte code of the color.
    pub open spec fn code(self) -> u8 {
        match self {
            Color::NoColor => 0,
            Color::Gray => 1,
            Color::BrightGray => 2,
            Color::BrighterGray => 3,
            Color::DarkGray => 4,
            Color::DarkerGray => 5,
            Color::Red => 6,
            Color::BrightRed => 7,
            Color::BrighterRed => 8,
            Color::DarkRed => 9,
            Color::DarkerRed => 10,
            Color::Green => 11,
            Color::BrightGreen => 12,
            Color::BrighterGreen => 13,
            Color::DarkGreen => 14,
            Color::DarkerGreen => 15,
            Color::Yellow => 16,
            Color::BrightYellow => 17,
            Color::BrighterYellow => 18,
            Color::DarkYellow => 19,
            Color::DarkerYellow => 20,
            Color::Blue => 21,
            Color::BrightBlue => 22,
            Color::BrighterBlue => 23,
            Color::DarkBlue => 24,
            Color::DarkerBlue => 25,
            Color::Purple => 26,
            Color::BrightPurple => 27,
            Color::BrighterPurple => 28,
            Color::DarkPurple => 29,
            Color::DarkerPurple => 30,
            Color::Cyan => 31,
            Color::BrightCyan => 32,
            Color::BrighterCyan => 33,
            Color::DarkCyan => 34,
            Color::DarkerCyan => 35,
        }
    }

    /// The red, green and blue levels of the color; none for `NoColor`.
    pub open spec fn rgb(self) -> Option<(u8, u8, u8)> {
        match self {
            Color::NoColor => None,
            Color::Gray => Some((128, 128, 128)),
            Color::BrightGray => Some((192, 192, 192)),
            Color::BrighterGray => Some((255, 255, 255)),
            Color::DarkGray => Some((64, 64, 64)),
            Color::DarkerGray => Some((0, 0, 0)),
            Color::Red => Some((255, 0, 0)),
            Color::BrightRed => Some((255, 64, 64)),
            Color::BrighterRed => Some((255, 128, 128)),
            Color::DarkRed => Some((128, 0, 0)),
            Color::DarkerRed => Some((64, 0, 0)),
            Color::Green => Some((0, 255, 0)),
            Color::BrightGreen => Some((64, 255, 64)),
            Color::BrighterGreen => Some((128, 255, 128)),
            Color::DarkGreen => Some((0, 128, 0)),
            Color::DarkerGreen => Some((0, 64, 0)),
            Color::Yellow => Some((255, 255, 0)),
            Color::BrightYellow => Some((255, 255, 64)),
            Color::BrighterYellow => Some((255, 255, 128)),
            Color::DarkYellow => Some((128, 128, 0)),
            Color::DarkerYellow => Some((64, 64, 0)),
            Color::Blue => Some((0, 0, 255)),
            Color::BrightBlue => Some((64, 64, 255)),
            Color::BrighterBlue => Some((128, 128, 255)),
            Color::DarkBlue => Some((0, 0, 128)),
            Color::DarkerBlue => Some((0, 0, 64)),
            Color::Purple => Some((128, 0, 128)),
            Color::BrightPurple => Some((192, 64, 192)),
            Color::BrighterPurple => Some((224, 128, 224)),
            Color::DarkPurple => Some((64, 0, 64)),
            Color::DarkerPurple => Some((32, 0, 32)),
            Color::Cyan => Some((0, 255, 255)),
            Color::BrightCyan => Some((64, 255, 255)),
            Color::BrighterCyan => Some((128, 255, 255)),
            Color::DarkCyan => Some((0, 128, 128)),
            Color::DarkerCyan => Some((0, 64, 64)),
        }
    }

    /// Reads a color from its code; fails for any byte above 35.
    pub fn parse(byte: u8) -> (r: Option<Color>)
        ensures
            r == color_of(byte),
    {
        proof {
            broadcast use lemma_code_injective;
        }
        let r = match byte {
            0 => Some(Color::NoColor),
            1 => Some(Color::Gray),
            2 => Some(Color::BrightGray),
            3 => Some(Color::BrighterGray),
            4 => Some(Color::DarkGray),
            5 => Some(Color::DarkerGray),
            6 => Some(Color::Red),
            7 => Some(Color::BrightRed),
            8 => Some(Color::BrighterRed),
            9 => Some(Color::DarkRed),
            10 => Some(Color::DarkerRed),
            11 => Some(Color::Green),
            12 => Some(Color::BrightGreen),
            13 => Some(Color::BrighterGreen),
            14 => Some(Color::DarkGreen),
            15 => Some(Color::DarkerGreen),
            16 => Some(Color::Yellow),
            17 => Some(Color::BrightYellow),
            18 => Some(Color::BrighterYellow),
            19 => Some(Color::DarkYellow),
            20 => Some(Color::DarkerYellow),
            21 => Some(Color::Blue),
            22 => Some(Color::BrightBlue),
            23 => Some(Color::BrighterBlue),
            24 => Some(Color::DarkBlue),
            25 => Some(Color::DarkerBlue),
            26 => Some(Color::Purple),
            27 => Some(Color::BrightPurple),
            28 => Some(Color::BrighterPurple),
            29 => Some(Color::DarkPurple),
            30 => Some(Color::DarkerPurple),
            31 => Some(Color::Cyan),
            32 => Some(Color::BrightCyan),
            33 => Some(Color::BrighterCyan),
            34 => Some(Color::DarkCyan),
            35 => Some(Color::DarkerCyan),
            _ => None,
        };
        proof {
            if let Some(c) = r {
                assert(c.code() == byte);
            }
        }
        r
    }

    /// The one-byte code of the color.
    pub fn to_byte(&self) -> (r: u8)
        ensures
            r == self.code(),
            r <= 35,
    {
        match self {
            Color::NoColor => 0,
            Color::Gray => 1,
            Color::BrightGray => 2,
            Color::BrighterGray => 3,
            Color::DarkGray => 4,
            Color::DarkerGray => 5,
            Color::Red => 6,
            Color::BrightRed => 7,
            Color::BrighterRed => 8,
            Color::DarkRed => 9,
            Color::DarkerRed => 10,
            Color::Green => 11,
            Color::BrightGreen => 12,
            Color::BrighterGreen => 13,
            Color::DarkGreen => 14,
            Color::DarkerGreen => 15,
            Color::Yellow => 16,
            Color::BrightYellow => 17,
            Color::BrighterYellow => 18,
            Color::DarkYellow => 19,
            Color::DarkerYellow => 20,
            Color::Blue => 21,
            Color::BrightBlue => 22,
            Color::BrighterBlue => 23,
            Color::DarkBlue => 24,
            Color::DarkerBlue => 25,
            Color::Purple => 26,
            Color::BrightPurple => 27,
            Color::BrighterPurple => 28,
            Color::DarkPurple => 29,
            Color::DarkerPurple => 30,
            Color::Cyan => 31,
            Color::BrightCyan => 32,
            Color::BrighterCyan => 33,
            Color::DarkCyan => 34,
            Color::DarkerCyan => 35,
        }
    }

    /// The red, green and blue levels of the color; none for `NoColor`.
    pub fn to_rgb(&self) -> (r: Option<(u8, u8, u8)>)
        ensures
            r == self.rgb(),
            r is None <==> *self == Color::NoColor,
    {
        match self {
            Color::NoColor => None,
            Color::Gray => Some((128, 128, 128)),
            Color::BrightGray => Some((192, 192, 192)),
            Color::BrighterGray => Some((255, 255, 255)),
            Color::DarkGray => Some((64, 64, 64)),
            Color::DarkerGray => Some((0, 0, 0)),
            Color::Red => Some((255, 0, 0)),
            Color::BrightRed => Some((255, 64, 64)),
            Color::BrighterRed => Some((255, 128, 128)),
            Color::DarkRed => Some((128, 0, 0)),
            Color::DarkerRed => Some((64, 0, 0)),
            Color::Green => Some((0, 255, 0)),
            Color::BrightGreen => Some((64, 255, 64)),
            Color::BrighterGreen => Some((128, 255, 128)),
            Color::DarkGreen => Some((0, 128, 0)),
            Color::DarkerGreen => Some((0, 64, 0)),
            Color::Yellow => Some((255, 255, 0)),
            Color::BrightYellow => Some((255, 255, 64)),
            Color::BrighterYellow => Some((255, 255, 128)),
            Color::DarkYellow => Some((128, 128, 0)),
            Color::DarkerYellow => Some((64, 64, 0)),
            Color::Blue => Some((0, 0, 255)),
            Color::BrightBlue => Some((64, 64, 255)),
            Color::BrighterBlue => Some((128, 128, 255)),
            Color::DarkBlue => Some((0, 0, 128)),
            Color::DarkerBlue => Some((0, 0, 64)),
            Color::Purple => Some((128, 0, 128)),
            Color::BrightPurple => Some((192, 64, 192)),
            Color::BrighterPurple => Some((224, 128, 224)),
            Color::DarkPurple => Some((64, 0, 64)),
            Color::DarkerPurple => Some((32, 0, 32)),
            Color::Cyan => Some((0, 255, 255)),
            Color::BrightCyan => Some((64, 255, 255)),
            Color::BrighterCyan => Some((128, 255, 255)),
            Color::DarkCyan => Some((0, 128, 128)),
            Color::DarkerCyan => Some((0, 64, 64)),
        }
    }
}

/// A set of text attributes held in the low five bits of a byte: bold,
/// italic, underline, strikethrough and hidden. The top three bits are
/// always clear.
#[derive(Copy, Clone, Debug, PartialEq, Eq, Hash, Structural)]
pub struct Attributes {
    bits: u8,
}

impl View for Attributes {
    type V = u8;

    closed spec fn view(&self) -> u8 {
        self.bits
    }
}

/// The attribute set whose bits are `b`, if `b` uses only the five flag bits.
pub open spec fn attributes_of(b: u8) -> Option<Attributes> {
    if b < 32 {
        Some(choose|a: Attributes| a@ == b)
    } else {
        None
    }
}

/// The empty attribute set.
pub open spec fn attributes_empty() -> Attributes {
    choose|a: Attributes| a@ == 0
}

/// Attribute sets with the same bits are equal.
pub broadcast proof fn lemma_attributes_view_injective(a: Attributes, b: Attributes)
    ensures
        #[trigger] a@ == #[trigger] b@ ==> a == b,
{
}

/// An attribute set in range reads back from its bits.
pub proof fn lemma_attributes_round_trip(a: Attributes)
    requires
        a@ < 32,
    ensures
        attributes_of(a@) == Some(a),
{
    broadcast use lemma_attributes_view_injective;

}

/// Every byte is the bits of some attribute value.
pub proof fn lemma_attributes_onto(b: u8)
    ensures
        exists|a: Attributes| a@ == b,
{
    let a = Attributes { bits: b };
    assert(a@ == b);
}

impl Default for Attributes {
    fn default() -> (r: Attributes)
        ensures
            r@ == 0,
    {
        Attributes::empty()
    }
}

impl Attributes {
    #[verifier::type_invariant]
    spec fn inv(self) -> bool {
        self.bits < 32
    }

    /// Bold text.
    pub const BOLD: u8 = 1;

    /// Italic text.
    pub const ITALIC: u8 = 2;

    /// Underlined text.
    pub const UNDERLINE: u8 = 4;

    /// Struck-through text.
    pub const STRIKETHROUGH: u8 = 8;

    /// Hidden text.
    pub const HIDDEN: u8 = 16;

    /// Every flag bit.
    pub const ALL_BITS: u8 = 31;

    /// The set with no attribute.
    pub fn empty() -> (r: Attributes)
        ensures
            r@ == 0,
            r == attributes_empty(),
    {
        proof {
            broadcast use lemma_attributes_view_injective;
            lemma_attributes_onto(0);
        }
        Attributes { bits: 0 }
    }

    /// The set with every attribute.
    pub fn all() -> (r: Attributes)
        ensures
            r@ == 31,
    {
        Attributes { bits: Self::ALL_BITS }
    }

    /// The set with the given bits; fails if a bit outside the five flags is set.
    pub fn from_bits(bits: u8) -> (r: Option<Attributes>)
        ensures
            r == attributes_of(bits),
    {
        proof {
            broadcast use lemma_attributes_view_injective;
            lemma_attributes_onto(bits);
        }
        if bits < 32 {
            Some(Attributes { bits })
        } else {
            None
        }
    }

    /// The bits of the set.
    pub fn bits(&self) -> (r: u8)
        ensures
            r == self@,
            r < 32,
    {
        proof {
            use_type_invariant(self);
        }
        self.bits
    }

    /// Whether every flag of `flags` is in the set.
    pub fn contains(&self, flags: u8) -> (r: bool)
        ensures
            r == (self@ & flags == flags),
    {
        self.bits & flags == flags
    }

    /// The set with the flags of both sets.
    pub fn union(self, other: Attributes) -> (r: Attributes)
        ensures
            r@ == self@ | other@,
    {
        proof {
            use_type_invariant(&self);
            use_type_invariant(&other);
            let (x, y) = (self.bits, other.bits);
            assert(x < 32 && y < 32 ==> x | y < 32) by (bit_vector);
        }
        Attributes { bits: self.bits | other.bits }
    }

    /// Reads an attribute set from its byte; fails if a bit outside the five
    /// flags is set.
    pub fn parse(byte: u8) -> (r: Option<Attributes>)
        ensures
            r == attributes_of(byte),
    {
        Self::from_bits(byte)
    }

    /// The byte of the set.
    pub fn to_byte(&self) -> (r: u8)
        ensures
            r == self@,
            r < 32,
    {
        self.bits()
    }
}

} // verus!
