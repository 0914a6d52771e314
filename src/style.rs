//! Fill and stroke colours of a country, by render style and three-letter code.
use vstd::prelude::*;
use crate::models::Country;

verus! {

/// Steps per colour channel: a channel of `COLOR_SCALE` is full intensity.
pub const COLOR_SCALE: u16 = 260;

/// An RGB colour, each channel in steps of `1 / COLOR_SCALE`.
#[derive(Clone, Copy, Debug, PartialEq, Eq, Structural)]
pub struct Color {
    pub r: u16,
    pub g: u16,
    pub b: u16,
}

/// How a country is drawn: normally (visited or not), or as selected or not selected
/// while a selection is shown.
#[derive(Clone, Copy, Debug, PartialEq, Eq, Structural)]
pub enum CountryRenderStyle {
    Normal(bool),
    Selected,
    Unselected,
}

/// Whether `code` is three upper-case ASCII letters.
pub open spec fn is_letter_code(code: Seq<char>) -> bool {
    code.len() == 3 && forall|i: int| 0 <= i < 3 ==> 'A' <= #[trigger] code[i] <= 'Z'
}

/// The channel that a letter gives: its place in the alphabet over 26.
pub open spec fn channel_of(c: int) -> int {
    (c - 'A' as int) * (COLOR_SCALE as int) / 26
}

/// A letter pulled one eighth of the way (rounded down) towards 'Z'.
pub open spec fn lightened(c: int) -> int {
    'Z' as int - ('Z' as int - c) / 8
}

/// The colour that three letter values give, one channel each.
pub open spec fn color_of(c0: int, c1: int, c2: int) -> Color {
    Color { r: channel_of(c0) as u16, g: channel_of(c1) as u16, b: channel_of(c2) as u16 }
}

/// The colour of a code.
pub open spec fn code_color(code: Seq<char>) -> Color {
    color_of(code[0] as int, code[1] as int, code[2] as int)
}

/// The paler colour of a code, for countries not visited.
pub open spec fn pale_code_color(code: Seq<char>) -> Color {
    color_of(lightened(code[0] as int), lightened(code[1] as int), lightened(code[2] as int))
}

/// The neutral grey of countries outside a selection: 0.7 on each channel.
pub open spec fn grey() -> Color {
    Color { r: 182, g: 182, b: 182 }
}

/// The fill colour of a country of the given code in the given style.
pub open spec fn fill_of(style: CountryRenderStyle, code: Seq<char>) -> Color {
    match style {
        CountryRenderStyle::Normal(true) => code_color(code),
        CountryRenderStyle::Normal(false) => pale_code_color(code),
        CountryRenderStyle::Selected => code_color(code),
        CountryRenderStyle::Unselected => grey(),
    }
}

/// The stroke colour of the given style: green for the selected country, black else.
pub open spec fn stroke_of(style: CountryRenderStyle) -> Color {
    match style {
        CountryRenderStyle::Selected => Color { r: 0, g: COLOR_SCALE, b: 0 },
        _ => Color { r: 0, g: 0, b: 0 },
    }
}

/// Whether `code` is three upper-case ASCII letters, the codes that give a colour.
pub fn is_letter_code_text(code: &str) -> (r: bool)
    ensures
        r == is_letter_code(code@),
{
    if code.unicode_len() != 3 {
        return false;
    }
    let mut i: usize = 0;
    while i < 3
        invariant
            code@.len() == 3,
            i <= 3,
            forall|j: int| 0 <= j < i ==> 'A' <= #[trigger] code@[j] <= 'Z',
        decreases 3 - i,
    {
        let c = code.get_char(i);
        if c < 'A' || c > 'Z' {
            return false;
        }
        i = i + 1;
    }
    true
}

/// The channel of one upper-case letter.
fn color_component_from_ascii(c: u8) -> (r: u16)
    requires
        'A' as u8 <= c <= 'Z' as u8,
    ensures
        r == channel_of(c as int),
{
    let k = (c - 65u8) as u16;
    k * COLOR_SCALE / 26
}

/// The colour of three upper-case letters, one channel each.
fn color_from_ascii(c0: u8, c1: u8, c2: u8) -> (r: Color)
    requires
        'A' as u8 <= c0 <= 'Z' as u8,
        'A' as u8 <= c1 <= 'Z' as u8,
        'A' as u8 <= c2 <= 'Z' as u8,
    ensures
        r == color_of(c0 as int, c1 as int, c2 as int),
{
    Color {
        r: color_component_from_ascii(c0),
        g: color_component_from_ascii(c1),
        b: color_component_from_ascii(c2),
    }
}

/// A letter pulled one eighth of the way towards 'Z'.
fn lighten(c: u8) -> (r: u8)
    requires
        'A' as u8 <= c <= 'Z' as u8,
    ensures
        r == lightened(c as int),
        'A' as u8 <= r <= 'Z' as u8,
{
    let diff = 90u8 - c;
    90u8 - diff / 8
}

impl CountryRenderStyle {
    /// The fill colour of `country` in this style. The code must be three upper-case
    /// letters, but for `Unselected`, which does not read it.
    pub fn get_fill_color(&self, country: &Country) -> (r: Color)
        requires
            *self == CountryRenderStyle::Unselected || is_letter_code(country.iso3@),
        ensures
            r == fill_of(*self, country.iso3@),
    {
        match self {
            CountryRenderStyle::Unselected => Color { r: 182, g: 182, b: 182 },
            _ => {
                let code = country.iso3.as_str();
                let c0 = code.get_char(0) as u32 as u8;
                let c1 = code.get_char(1) as u32 as u8;
                let c2 = code.get_char(2) as u32 as u8;
                match self {
                    CountryRenderStyle::Normal(false) => color_from_ascii(
                        lighten(c0),
                        lighten(c1),
                        lighten(c2),
                    ),
                    _ => color_from_ascii(c0, c1, c2),
                }
            },
        }
    }

    /// The stroke colour of this style.
    pub fn get_stroke_style(&self) -> (r: Color)
        ensures
            r == stroke_of(*self),
    {
        match self {
            CountryRenderStyle::Selected => Color { r: 0, g: COLOR_SCALE, b: 0 },
            _ => Color { r: 0, g: 0, b: 0 },
        }
    }
}

/// The fill colour is a function of the style and the three-letter code alone: two
/// countries with the same code get the same colour in the same style, whatever their
/// other fields.
pub proof fn lemma_fill_color_deterministic(style: CountryRenderStyle, a: Country, b: Country)
    requires
        a.iso3@ == b.iso3@,
    ensures
        fill_of(style, a.iso3@) == fill_of(style, b.iso3@),
{
}

/// The first letter gives no intensity and the last letter 25/26 of full intensity.
pub proof fn lemma_channel_extremes()
    ensures
        channel_of('A' as int) == 0,
        channel_of('Z' as int) * 26 == 25 * COLOR_SCALE,
{
}

} // verus!
