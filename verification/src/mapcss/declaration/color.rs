//! Colors: their channels, their text form, and the named colors of CSS.

use crate::text::{chars_of, spells};
use std::str::FromStr;
use vstd::prelude::*;
use vstd::string::StringExecFns;

verus! {

/// A color of four 8-bit channels.
#[derive(Debug, PartialEq, Eq, Copy, Clone, Structural)]
pub struct RGBA {
    pub red: u8,
    pub green: u8,
    pub blue: u8,
    pub alpha: u8,
}

#[derive(Debug, PartialEq, Eq, Copy, Clone, Structural)]
pub enum ColorParseError {
    InvalidInput,
}

/// The color with the given channels and no transparency.
pub open spec fn opaque(red: u8, green: u8, blue: u8) -> RGBA {
    RGBA { red, green, blue, alpha: 255 }
}

/// The value of a hexadecimal digit of either case; `None` for any other character.
pub open spec fn hex_value(c: char) -> Option<int> {
    if '0' <= c && c <= '9' {
        Some(c as int - '0' as int)
    } else if 'a' <= c && c <= 'f' {
        Some(c as int - 'a' as int + 10)
    } else if 'A' <= c && c <= 'F' {
        Some(c as int - 'A' as int + 10)
    } else {
        None
    }
}

/// The channel that two characters denote: two hexadecimal digits, or a plus
/// sign followed by one hexadecimal digit.
pub open spec fn hex_pair_value(high: char, low: char) -> Option<int> {
    match hex_value(low) {
        Some(l) => if high == '+' {
            Some(l)
        } else {
            match hex_value(high) {
                Some(h) => Some(16 * h + l),
                None => None,
            }
        },
        None => None,
    }
}

/// `c` with an ASCII capital letter turned into its small letter.
pub open spec fn ascii_lower_char(c: char) -> char {
    if 'A' <= c && c <= 'Z' {
        ((c as u8) + 32) as char
    } else {
        c
    }
}

/// `s` with every ASCII capital letter turned into its small letter.
pub open spec fn ascii_lower(s: Seq<char>) -> Seq<char> {
    Seq::new(s.len(), |i: int| ascii_lower_char(s[i]))
}

/// The color that a CSS color name stands for. Names are written in small letters.
pub open spec fn named_color(name: Seq<char>) -> Option<RGBA> {
    if name == "aliceblue"@ {
        Some(opaque(240, 248, 255))
    } else if name == "antiquewhite"@ {
        Some(opaque(250, 235, 215))
    } else if name == "aqua"@ {
        Some(opaque(0, 255, 255))
    } else if name == "aquamarine"@ {
        Some(opaque(127, 255, 212))
    } else if name == "azure"@ {
        Some(opaque(240, 255, 255))
    } else if name == "beige"@ {
        Some(opaque(245, 245, 220))
    } else if name == "bisque"@ {
        Some(opaque(255, 228, 196))
    } else if name == "black"@ {
        Some(opaque(0, 0, 0))
    } else if name == "blanchedalmond"@ {
        Some(opaque(255, 235, 205))
    } else if name == "blue"@ {
        Some(opaque(0, 0, 255))
    } else if name == "blueviolet"@ {
        Some(opaque(138, 43, 226))
    } else if name == "brown"@ {
        Some(opaque(165, 42, 42))
    } else if name == "burlywood"@ {
        Some(opaque(222, 184, 135))
    } else if name == "cadetblue"@ {
        Some(opaque(95, 158, 160))
    } else if name == "chartreuse"@ {
        Some(opaque(127, 255, 0))
    } else if name == "chocolate"@ {
        Some(opaque(210, 105, 30))
    } else if name == "coral"@ {
        Some(opaque(255, 127, 80))
    } else if name == "cornflowerblue"@ {
        Some(opaque(100, 149, 237))
    } else if name == "cornsilk"@ {
        Some(opaque(255, 248, 220))
    } else if name == "crimson"@ {
        Some(opaque(220, 20, 60))
    } else if name == "cyan"@ {
        Some(opaque(0, 255, 255))
    } else if name == "darkblue"@ {
        Some(opaque(0, 0, 139))
    } else if name == "darkcyan"@ {
        Some(opaque(0, 139, 139))
    } else if name == "darkgoldenrod"@ {
        Some(opaque(184, 134, 11))
    } else if name == "darkgray"@ {
        Some(opaque(169, 169, 169))
    } else if name == "darkgreen"@ {
        Some(opaque(0, 100, 0))
    } else if name == "darkgrey"@ {
        Some(opaque(169, 169, 169))
    } else if name == "darkkhaki"@ {
        Some(opaque(189, 183, 107))
    } else if name == "darkmagenta"@ {
        Some(opaque(139, 0, 139))
    } else if name == "darkolivegreen"@ {
        Some(opaque(85, 107, 47))
    } else if name == "darkorange"@ {
        Some(opaque(255, 140, 0))
    } else if name == "darkorchid"@ {
        Some(opaque(153, 50, 204))
    } else if name == "darkred"@ {
        Some(opaque(139, 0, 0))
    } else if name == "darksalmon"@ {
        Some(opaque(233, 150, 122))
    } else if name == "darkseagreen"@ {
        Some(opaque(143, 188, 143))
    } else if name == "darkslateblue"@ {
        Some(opaque(72, 61, 139))
    } else if name == "darkslategray"@ {
        Some(opaque(47, 79, 79))
    } else if name == "darkslategrey"@ {
        Some(opaque(47, 79, 79))
    } else if name == "darkturquoise"@ {
        Some(opaque(0, 206, 209))
    } else if name == "darkviolet"@ {
        Some(opaque(148, 0, 211))
    } else if name == "deeppink"@ {
        Some(opaque(255, 20, 147))
    } else if name == "deepskyblue"@ {
        Some(opaque(0, 191, 255))
    } else if name == "dimgray"@ {
        Some(opaque(105, 105, 105))
    } else if name == "dimgrey"@ {
        Some(opaque(105, 105, 105))
    } else if name == "dodgerblue"@ {
        Some(opaque(30, 144, 255))
    } else if name == "firebrick"@ {
        Some(opaque(178, 34, 34))
    } else if name == "floralwhite"@ {
        Some(opaque(255, 250, 240))
    } else if name == "forestgreen"@ {
        Some(opaque(34, 139, 34))
    } else if name == "fuchsia"@ {
        Some(opaque(255, 0, 255))
    } else if name == "gainsboro"@ {
        Some(opaque(220, 220, 220))
    } else if name == "ghostwhite"@ {
        Some(opaque(248, 248, 255))
    } else if name == "gold"@ {
        Some(opaque(255, 215, 0))
    } else if name == "goldenrod"@ {
        Some(opaque(218, 165, 32))
    } else if name == "gray"@ {
        Some(opaque(128, 128, 128))
    } else if name == "green"@ {
        Some(opaque(0, 128, 0))
    } else if name == "greenyellow"@ {
        Some(opaque(173, 255, 47))
    } else if name == "grey"@ {
        Some(opaque(128, 128, 128))
    } else if name == "honeydew"@ {
        Some(opaque(240, 255, 240))
    } else if name == "hotpink"@ {
        Some(opaque(255, 105, 180))
    } else if name == "indianred"@ {
        Some(opaque(205, 92, 92))
    } else if name == "indigo"@ {
        Some(opaque(75, 0, 130))
    } else if name == "ivory"@ {
        Some(opaque(255, 255, 240))
    } else if name == "khaki"@ {
        Some(opaque(240, 230, 140))
    } else if name == "lavender"@ {
        Some(opaque(230, 230, 250))
    } else if name == "lavenderblush"@ {
        Some(opaque(255, 240, 245))
    } else if name == "lawngreen"@ {
        Some(opaque(124, 252, 0))
    } else if name == "lemonchiffon"@ {
        Some(opaque(255, 250, 205))
    } else if name == "lightblue"@ {
        Some(opaque(173, 216, 230))
    } else if name == "lightcoral"@ {
        Some(opaque(240, 128, 128))
    } else if name == "lightcyan"@ {
        Some(opaque(224, 255, 255))
    } else if name == "lightgoldenrodyellow"@ {
        Some(opaque(250, 250, 210))
    } else if name == "lightgray"@ {
        Some(opaque(211, 211, 211))
    } else if name == "lightgreen"@ {
        Some(opaque(144, 238, 144))
    } else if name == "lightgrey"@ {
        Some(opaque(211, 211, 211))
    } else if name == "lightpink"@ {
        Some(opaque(255, 182, 193))
    } else if name == "lightsalmon"@ {
        Some(opaque(255, 160, 122))
    } else if name == "lightseagreen"@ {
        Some(opaque(32, 178, 170))
    } else if name == "lightskyblue"@ {
        Some(opaque(135, 206, 250))
    } else if name == "lightslategray"@ {
        Some(opaque(119, 136, 153))
    } else if name == "lightslategrey"@ {
        Some(opaque(119, 136, 153))
    } else if name == "lightsteelblue"@ {
        Some(opaque(176, 196, 222))
    } else if name == "lightyellow"@ {
        Some(opaque(255, 255, 224))
    } else if name == "lime"@ {
        Some(opaque(0, 255, 0))
    } else if name == "limegreen"@ {
        Some(opaque(50, 205, 50))
    } else if name == "linen"@ {
        Some(opaque(250, 240, 230))
    } else if name == "magenta"@ {
        Some(opaque(255, 0, 255))
    } else if name == "maroon"@ {
        Some(opaque(128, 0, 0))
    } else if name == "mediumaquamarine"@ {
        Some(opaque(102, 205, 170))
    } else if name == "mediumblue"@ {
        Some(opaque(0, 0, 205))
    } else if name == "mediumorchid"@ {
        Some(opaque(186, 85, 211))
    } else if name == "mediumpurple"@ {
        Some(opaque(147, 112, 219))
    } else if name == "mediumseagreen"@ {
        Some(opaque(60, 179, 113))
    } else if name == "mediumslateblue"@ {
        Some(opaque(123, 104, 238))
    } else if name == "mediumspringgreen"@ {
        Some(opaque(0, 250, 154))
    } else if name == "mediumturquoise"@ {
        Some(opaque(72, 209, 204))
    } else if name == "mediumvioletred"@ {
        Some(opaque(199, 21, 133))
    } else if name == "midnightblue"@ {
        Some(opaque(25, 25, 112))
    } else if name == "mintcream"@ {
        Some(opaque(245, 255, 250))
    } else if name == "mistyrose"@ {
        Some(opaque(255, 228, 225))
    } else if name == "moccasin"@ {
        Some(opaque(255, 228, 181))
    } else if name == "navajowhite"@ {
        Some(opaque(255, 222, 173))
    } else if name == "navy"@ {
        Some(opaque(0, 0, 128))
    } else if name == "oldlace"@ {
        Some(opaque(253, 245, 230))
    } else if name == "olive"@ {
        Some(opaque(128, 128, 0))
    } else if name == "olivedrab"@ {
        Some(opaque(107, 142, 35))
    } else if name == "orange"@ {
        Some(opaque(255, 165, 0))
    } else if name == "orangered"@ {
        Some(opaque(255, 69, 0))
    } else if name == "orchid"@ {
        Some(opaque(218, 112, 214))
    } else if name == "palegoldenrod"@ {
        Some(opaque(238, 232, 170))
    } else if name == "palegreen"@ {
        Some(opaque(152, 251, 152))
    } else if name == "paleturquoise"@ {
        Some(opaque(175, 238, 238))
    } else if name == "palevioletred"@ {
        Some(opaque(219, 112, 147))
    } else if name == "papayawhip"@ {
        Some(opaque(255, 239, 213))
    } else if name == "peachpuff"@ {
        Some(opaque(255, 218, 185))
    } else if name == "peru"@ {
        Some(opaque(205, 133, 63))
    } else if name == "pink"@ {
        Some(opaque(255, 192, 203))
    } else if name == "plum"@ {
        Some(opaque(221, 160, 221))
    } else if name == "powderblue"@ {
        Some(opaque(176, 224, 230))
    } else if name == "purple"@ {
        Some(opaque(128, 0, 128))
    } else if name == "rebeccapurple"@ {
        Some(opaque(102, 51, 153))
    } else if name == "red"@ {
        Some(opaque(255, 0, 0))
    } else if name == "rosybrown"@ {
        Some(opaque(188, 143, 143))
    } else if name == "royalblue"@ {
        Some(opaque(65, 105, 225))
    } else if name == "saddlebrown"@ {
        Some(opaque(139, 69, 19))
    } else if name == "salmon"@ {
        Some(opaque(250, 128, 114))
    } else if name == "sandybrown"@ {
        Some(opaque(244, 164, 96))
    } else if name == "seagreen"@ {
        Some(opaque(46, 139, 87))
    } else if name == "seashell"@ {
        Some(opaque(255, 245, 238))
    } else if name == "sienna"@ {
        Some(opaque(160, 82, 45))
    } else if name == "silver"@ {
        Some(opaque(192, 192, 192))
    } else if name == "skyblue"@ {
        Some(opaque(135, 206, 235))
    } else if name == "slateblue"@ {
        Some(opaque(106, 90, 205))
    } else if name == "slategray"@ {
        Some(opaque(112, 128, 144))
    } else if name == "slategrey"@ {
        Some(opaque(112, 128, 144))
    } else if name == "snow"@ {
        Some(opaque(255, 250, 250))
    } else if name == "springgreen"@ {
        Some(opaque(0, 255, 127))
    } else if name == "steelblue"@ {
        Some(opaque(70, 130, 180))
    } else if name == "tan"@ {
        Some(opaque(210, 180, 140))
    } else if name == "teal"@ {
        Some(opaque(0, 128, 128))
    } else if name == "thistle"@ {
        Some(opaque(216, 191, 216))
    } else if name == "tomato"@ {
        Some(opaque(255, 99, 71))
    } else if name == "turquoise"@ {
        Some(opaque(64, 224, 208))
    } else if name == "violet"@ {
        Some(opaque(238, 130, 238))
    } else if name == "wheat"@ {
        Some(opaque(245, 222, 179))
    } else if name == "white"@ {
        Some(opaque(255, 255, 255))
    } else if name == "whitesmoke"@ {
        Some(opaque(245, 245, 245))
    } else if name == "yellow"@ {
        Some(opaque(255, 255, 0))
    } else if name == "yellowgreen"@ {
        Some(opaque(154, 205, 50))
    } else if name == "transparent"@ {
        Some(opaque(0, 0, 0))
    } else {
        None
    }
}

/// The color that the digits after a `#` denote: three single digits, or
/// three or four pairs.
pub open spec fn hex_color(digits: Seq<char>) -> Option<RGBA> {
    if digits.len() == 3 {
        match (hex_value(digits[0]), hex_value(digits[1]), hex_value(digits[2])) {
            (Some(r), Some(g), Some(b)) => Some(
                RGBA { red: r as u8, green: g as u8, blue: b as u8, alpha: 255 },
            ),
            _ => None,
        }
    } else if digits.len() == 6 {
        match (
            hex_pair_value(digits[0], digits[1]),
            hex_pair_value(digits[2], digits[3]),
            hex_pair_value(digits[4], digits[5]),
        ) {
            (Some(r), Some(g), Some(b)) => Some(
                RGBA { red: r as u8, green: g as u8, blue: b as u8, alpha: 255 },
            ),
            _ => None,
        }
    } else if digits.len() == 8 {
        match (
            hex_pair_value(digits[0], digits[1]),
            hex_pair_value(digits[2], digits[3]),
            hex_pair_value(digits[4], digits[5]),
            hex_pair_value(digits[6], digits[7]),
        ) {
            (Some(r), Some(g), Some(b), Some(a)) => Some(
                RGBA { red: r as u8, green: g as u8, blue: b as u8, alpha: a as u8 },
            ),
            _ => None,
        }
    } else {
        None
    }
}

/// The color that a text denotes: `#` and hexadecimal digits, or a CSS color
/// name in any mix of cases.
pub open spec fn parse_color(text: Seq<char>) -> Result<RGBA, ColorParseError> {
    let found = if text.len() > 0 && text[0] == '#' {
        hex_color(text.skip(1))
    } else {
        named_color(ascii_lower(text))
    };
    match found {
        Some(color) => Ok(color),
        None => Err(ColorParseError::InvalidInput),
    }
}

/// The small hexadecimal digit for a value below sixteen.
pub open spec fn hex_char(n: int) -> char {
    if n < 10 {
        (('0' as u8) + n) as char
    } else {
        (('a' as u8) + (n - 10)) as char
    }
}

/// A channel as two small hexadecimal digits.
pub open spec fn channel_text(channel: u8) -> Seq<char> {
    seq![hex_char(channel as int / 16), hex_char(channel as int % 16)]
}

/// A color as text: `#`, then red, green and blue as two hexadecimal digits
/// each, then alpha in the same form unless the color is fully opaque.
pub open spec fn color_text(color: RGBA) -> Seq<char> {
    seq!['#'] + channel_text(color.red) + channel_text(color.green) + channel_text(color.blue) + (
    if color.alpha != 255 {
        channel_text(color.alpha)
    } else {
        Seq::empty()
    })
}

fn hex_digit(c: char) -> (value: Option<u8>)
    ensures
        match value {
            Some(v) => hex_value(c) == Some(v as int) && v < 16,
            None => hex_value(c) is None,
        },
{
    if '0' <= c && c <= '9' {
        Some(c as u8 - '0' as u8)
    } else if 'a' <= c && c <= 'f' {
        Some(c as u8 - 'a' as u8 + 10)
    } else if 'A' <= c && c <= 'F' {
        Some(c as u8 - 'A' as u8 + 10)
    } else {
        None
    }
}

fn hex_pair(high: char, low: char) -> (value: Option<u8>)
    ensures
        match value {
            Some(v) => hex_pair_value(high, low) == Some(v as int),
            None => hex_pair_value(high, low) is None,
        },
{
    match hex_digit(low) {
        Some(l) => if high == '+' {
            Some(l)
        } else {
            match hex_digit(high) {
                Some(h) => Some(16 * h + l),
                None => None,
            }
        },
        None => None,
    }
}

/// `chars` with every ASCII capital letter turned into its small letter.
pub fn lowered(chars: &Vec<char>) -> (lower: Vec<char>)
    ensures
        lower@ == ascii_lower(chars@),
{
    let mut lower: Vec<char> = Vec::new();
    let mut i: usize = 0;
    while i < chars.len()
        invariant
            i <= chars.len(),
            lower@.len() == i,
            forall|j: int| 0 <= j < i ==> lower@[j] == ascii_lower_char(chars@[j]),
        decreases chars.len() - i,
    {
        let c = chars[i];
        if 'A' <= c && c <= 'Z' {
            lower.push((c as u8 + 32) as char);
        } else {
            lower.push(c);
        }
        i = i + 1;
    }
    assert(lower@ =~= ascii_lower(chars@));
    lower
}

fn lookup_named_color(name: &Vec<char>) -> (color: Option<RGBA>)
    ensures
        color == named_color(name@),
{
    if spells(name, "aliceblue") {
        Some(RGBA { red: 240, green: 248, blue: 255, alpha: 255 })
    } else if spells(name, "antiquewhite") {
        Some(RGBA { red: 250, green: 235, blue: 215, alpha: 255 })
    } else if spells(name, "aqua") {
        Some(RGBA { red: 0, green: 255, blue: 255, alpha: 255 })
    } else if spells(name, "aquamarine") {
        Some(RGBA { red: 127, green: 255, blue: 212, alpha: 255 })
    } else if spells(name, "azure") {
        Some(RGBA { red: 240, green: 255, blue: 255, alpha: 255 })
    } else if spells(name, "beige") {
        Some(RGBA { red: 245, green: 245, blue: 220, alpha: 255 })
    } else if spells(name, "bisque") {
        Some(RGBA { red: 255, green: 228, blue: 196, alpha: 255 })
    } else if spells(name, "black") {
        Some(RGBA { red: 0, green: 0, blue: 0, alpha: 255 })
    } else if spells(name, "blanchedalmond") {
        Some(RGBA { red: 255, green: 235, blue: 205, alpha: 255 })
    } else if spells(name, "blue") {
        Some(RGBA { red: 0, green: 0, blue: 255, alpha: 255 })
    } else if spells(name, "blueviolet") {
        Some(RGBA { red: 138, green: 43, blue: 226, alpha: 255 })
    } else if spells(name, "brown") {
        Some(RGBA { red: 165, green: 42, blue: 42, alpha: 255 })
    } else if spells(name, "burlywood") {
        Some(RGBA { red: 222, green: 184, blue: 135, alpha: 255 })
    } else if spells(name, "cadetblue") {
        Some(RGBA { red: 95, green: 158, blue: 160, alpha: 255 })
    } else if spells(name, "chartreuse") {
        Some(RGBA { red: 127, green: 255, blue: 0, alpha: 255 })
    } else if spells(name, "chocolate") {
        Some(RGBA { red: 210, green: 105, blue: 30, alpha: 255 })
    } else if spells(name, "coral") {
        Some(RGBA { red: 255, green: 127, blue: 80, alpha: 255 })
    } else if spells(name, "cornflowerblue") {
        Some(RGBA { red: 100, green: 149, blue: 237, alpha: 255 })
    } else if spells(name, "cornsilk") {
        Some(RGBA { red: 255, green: 248, blue: 220, alpha: 255 })
    } else if spells(name, "crimson") {
        Some(RGBA { red: 220, green: 20, blue: 60, alpha: 255 })
    } else if spells(name, "cyan") {
        Some(RGBA { red: 0, green: 255, blue: 255, alpha: 255 })
    } else if spells(name, "darkblue") {
        Some(RGBA { red: 0, green: 0, blue: 139, alpha: 255 })
    } else if spells(name, "darkcyan") {
        Some(RGBA { red: 0, green: 139, blue: 139, alpha: 255 })
    } else if spells(name, "darkgoldenrod") {
        Some(RGBA { red: 184, green: 134, blue: 11, alpha: 255 })
    } else if spells(name, "darkgray") {
        Some(RGBA { red: 169, green: 169, blue: 169, alpha: 255 })
    } else if spells(name, "darkgreen") {
        Some(RGBA { red: 0, green: 100, blue: 0, alpha: 255 })
    } else if spells(name, "darkgrey") {
        Some(RGBA { red: 169, green: 169, blue: 169, alpha: 255 })
    } else if spells(name, "darkkhaki") {
        Some(RGBA { red: 189, green: 183, blue: 107, alpha: 255 })
    } else if spells(name, "darkmagenta") {
        Some(RGBA { red: 139, green: 0, blue: 139, alpha: 255 })
    } else if spells(name, "darkolivegreen") {
        Some(RGBA { red: 85, green: 107, blue: 47, alpha: 255 })
    } else if spells(name, "darkorange") {
        Some(RGBA { red: 255, green: 140, blue: 0, alpha: 255 })
    } else if spells(name, "darkorchid") {
        Some(RGBA { red: 153, green: 50, blue: 204, alpha: 255 })
    } else if spells(name, "darkred") {
        Some(RGBA { red: 139, green: 0, blue: 0, alpha: 255 })
    } else if spells(name, "darksalmon") {
        Some(RGBA { red: 233, green: 150, blue: 122, alpha: 255 })
    } else if spells(name, "darkseagreen") {
        Some(RGBA { red: 143, green: 188, blue: 143, alpha: 255 })
    } else if spells(name, "darkslateblue") {
        Some(RGBA { red: 72, green: 61, blue: 139, alpha: 255 })
    } else if spells(name, "darkslategray") {
        Some(RGBA { red: 47, green: 79, blue: 79, alpha: 255 })
    } else if spells(name, "darkslategrey") {
        Some(RGBA { red: 47, green: 79, blue: 79, alpha: 255 })
    } else if spells(name, "darkturquoise") {
        Some(RGBA { red: 0, green: 206, blue: 209, alpha: 255 })
    } else if spells(name, "darkviolet") {
        Some(RGBA { red: 148, green: 0, blue: 211, alpha: 255 })
    } else if spells(name, "deeppink") {
        Some(RGBA { red: 255, green: 20, blue: 147, alpha: 255 })
    } else if spells(name, "deepskyblue") {
        Some(RGBA { red: 0, green: 191, blue: 255, alpha: 255 })
    } else if spells(name, "dimgray") {
        Some(RGBA { red: 105, green: 105, blue: 105, alpha: 255 })
    } else if spells(name, "dimgrey") {
        Some(RGBA { red: 105, green: 105, blue: 105, alpha: 255 })
    } else if spells(name, "dodgerblue") {
        Some(RGBA { red: 30, green: 144, blue: 255, alpha: 255 })
    } else if spells(name, "firebrick") {
        Some(RGBA { red: 178, green: 34, blue: 34, alpha: 255 })
    } else if spells(name, "floralwhite") {
        Some(RGBA { red: 255, green: 250, blue: 240, alpha: 255 })
    } else if spells(name, "forestgreen") {
        Some(RGBA { red: 34, green: 139, blue: 34, alpha: 255 })
    } else if spells(name, "fuchsia") {
        Some(RGBA { red: 255, green: 0, blue: 255, alpha: 255 })
    } else if spells(name, "gainsboro") {
        Some(RGBA { red: 220, green: 220, blue: 220, alpha: 255 })
    } else if spells(name, "ghostwhite") {
        Some(RGBA { red: 248, green: 248, blue: 255, alpha: 255 })
    } else if spells(name, "gold") {
        Some(RGBA { red: 255, green: 215, blue: 0, alpha: 255 })
    } else if spells(name, "goldenrod") {
        Some(RGBA { red: 218, green: 165, blue: 32, alpha: 255 })
    } else if spells(name, "gray") {
        Some(RGBA { red: 128, green: 128, blue: 128, alpha: 255 })
    } else if spells(name, "green") {
        Some(RGBA { red: 0, green: 128, blue: 0, alpha: 255 })
    } else if spells(name, "greenyellow") {
        Some(RGBA { red: 173, green: 255, blue: 47, alpha: 255 })
    } else if spells(name, "grey") {
        Some(RGBA { red: 128, green: 128, blue: 128, alpha: 255 })
    } else if spells(name, "honeydew") {
        Some(RGBA { red: 240, green: 255, blue: 240, alpha: 255 })
    } else if spells(name, "hotpink") {
        Some(RGBA { red: 255, green: 105, blue: 180, alpha: 255 })
    } else if spells(name, "indianred") {
        Some(RGBA { red: 205, green: 92, blue: 92, alpha: 255 })
    } else if spells(name, "indigo") {
        Some(RGBA { red: 75, green: 0, blue: 130, alpha: 255 })
    } else if spells(name, "ivory") {
        Some(RGBA { red: 255, green: 255, blue: 240, alpha: 255 })
    } else if spells(name, "khaki") {
        Some(RGBA { red: 240, green: 230, blue: 140, alpha: 255 })
    } else if spells(name, "lavender") {
        Some(RGBA { red: 230, green: 230, blue: 250, alpha: 255 })
    } else if spells(name, "lavenderblush") {
        Some(RGBA { red: 255, green: 240, blue: 245, alpha: 255 })
    } else if spells(name, "lawngreen") {
        Some(RGBA { red: 124, green: 252, blue: 0, alpha: 255 })
    } else if spells(name, "lemonchiffon") {
        Some(RGBA { red: 255, green: 250, blue: 205, alpha: 255 })
    } else if spells(name, "lightblue") {
        Some(RGBA { red: 173, green: 216, blue: 230, alpha: 255 })
    } else if spells(name, "lightcoral") {
        Some(RGBA { red: 240, green: 128, blue: 128, alpha: 255 })
    } else if spells(name, "lightcyan") {
        Some(RGBA { red: 224, green: 255, blue: 255, alpha: 255 })
    } else if spells(name, "lightgoldenrodyellow") {
        Some(RGBA { red: 250, green: 250, blue: 210, alpha: 255 })
    } else if spells(name, "lightgray") {
        Some(RGBA { red: 211, green: 211, blue: 211, alpha: 255 })
    } else if spells(name, "lightgreen") {
        Some(RGBA { red: 144, green: 238, blue: 144, alpha: 255 })
    } else if spells(name, "lightgrey") {
        Some(RGBA { red: 211, green: 211, blue: 211, alpha: 255 })
    } else if spells(name, "lightpink") {
        Some(RGBA { red: 255, green: 182, blue: 193, alpha: 255 })
    } else if spells(name, "lightsalmon") {
        Some(RGBA { red: 255, green: 160, blue: 122, alpha: 255 })
    } else if spells(name, "lightseagreen") {
        Some(RGBA { red: 32, green: 178, blue: 170, alpha: 255 })
    } else if spells(name, "lightskyblue") {
        Some(RGBA { red: 135, green: 206, blue: 250, alpha: 255 })
    } else if spells(name, "lightslategray") {
        Some(RGBA { red: 119, green: 136, blue: 153, alpha: 255 })
    } else if spells(name, "lightslategrey") {
        Some(RGBA { red: 119, green: 136, blue: 153, alpha: 255 })
    } else if spells(name, "lightsteelblue") {
        Some(RGBA { red: 176, green: 196, blue: 222, alpha: 255 })
    } else if spells(name, "lightyellow") {
        Some(RGBA { red: 255, green: 255, blue: 224, alpha: 255 })
    } else if spells(name, "lime") {
        Some(RGBA { red: 0, green: 255, blue: 0, alpha: 255 })
    } else if spells(name, "limegreen") {
        Some(RGBA { red: 50, green: 205, blue: 50, alpha: 255 })
    } else if spells(name, "linen") {
        Some(RGBA { red: 250, green: 240, blue: 230, alpha: 255 })
    } else if spells(name, "magenta") {
        Some(RGBA { red: 255, green: 0, blue: 255, alpha: 255 })
    } else if spells(name, "maroon") {
        Some(RGBA { red: 128, green: 0, blue: 0, alpha: 255 })
    } else if spells(name, "mediumaquamarine") {
        Some(RGBA { red: 102, green: 205, blue: 170, alpha: 255 })
    } else if spells(name, "mediumblue") {
        Some(RGBA { red: 0, green: 0, blue: 205, alpha: 255 })
    } else if spells(name, "mediumorchid") {
        Some(RGBA { red: 186, green: 85, blue: 211, alpha: 255 })
    } else if spells(name, "mediumpurple") {
        Some(RGBA { red: 147, green: 112, blue: 219, alpha: 255 })
    } else if spells(name, "mediumseagreen") {
        Some(RGBA { red: 60, green: 179, blue: 113, alpha: 255 })
    } else if spells(name, "mediumslateblue") {
        Some(RGBA { red: 123, green: 104, blue: 238, alpha: 255 })
    } else if spells(name, "mediumspringgreen") {
        Some(RGBA { red: 0, green: 250, blue: 154, alpha: 255 })
    } else if spells(name, "mediumturquoise") {
        Some(RGBA { red: 72, green: 209, blue: 204, alpha: 255 })
    } else if spells(name, "mediumvioletred") {
        Some(RGBA { red: 199, green: 21, blue: 133, alpha: 255 })
    } else if spells(name, "midnightblue") {
        Some(RGBA { red: 25, green: 25, blue: 112, alpha: 255 })
    } else if spells(name, "mintcream") {
        Some(RGBA { red: 245, green: 255, blue: 250, alpha: 255 })
    } else if spells(name, "mistyrose") {
        Some(RGBA { red: 255, green: 228, blue: 225, alpha: 255 })
    } else if spells(name, "moccasin") {
        Some(RGBA { red: 255, green: 228, blue: 181, alpha: 255 })
    } else if spells(name, "navajowhite") {
        Some(RGBA { red: 255, green: 222, blue: 173, alpha: 255 })
    } else if spells(name, "navy") {
        Some(RGBA { red: 0, green: 0, blue: 128, alpha: 255 })
    } else if spells(name, "oldlace") {
        Some(RGBA { red: 253, green: 245, blue: 230, alpha: 255 })
    } else if spells(name, "olive") {
        Some(RGBA { red: 128, green: 128, blue: 0, alpha: 255 })
    } else if spells(name, "olivedrab") {
        Some(RGBA { red: 107, green: 142, blue: 35, alpha: 255 })
    } else if spells(name, "orange") {
        Some(RGBA { red: 255, green: 165, blue: 0, alpha: 255 })
    } else if spells(name, "orangered") {
        Some(RGBA { red: 255, green: 69, blue: 0, alpha: 255 })
    } else if spells(name, "orchid") {
        Some(RGBA { red: 218, green: 112, blue: 214, alpha: 255 })
    } else if spells(name, "palegoldenrod") {
        Some(RGBA { red: 238, green: 232, blue: 170, alpha: 255 })
    } else if spells(name, "palegreen") {
        Some(RGBA { red: 152, green: 251, blue: 152, alpha: 255 })
    } else if spells(name, "paleturquoise") {
        Some(RGBA { red: 175, green: 238, blue: 238, alpha: 255 })
    } else if spells(name, "palevioletred") {
        Some(RGBA { red: 219, green: 112, blue: 147, alpha: 255 })
    } else if spells(name, "papayawhip") {
        Some(RGBA { red: 255, green: 239, blue: 213, alpha: 255 })
    } else if spells(name, "peachpuff") {
        Some(RGBA { red: 255, green: 218, blue: 185, alpha: 255 })
    } else if spells(name, "peru") {
        Some(RGBA { red: 205, green: 133, blue: 63, alpha: 255 })
    } else if spells(name, "pink") {
        Some(RGBA { red: 255, green: 192, blue: 203, alpha: 255 })
    } else if spells(name, "plum") {
        Some(RGBA { red: 221, green: 160, blue: 221, alpha: 255 })
    } else if spells(name, "powderblue") {
        Some(RGBA { red: 176, green: 224, blue: 230, alpha: 255 })
    } else if spells(name, "purple") {
        Some(RGBA { red: 128, green: 0, blue: 128, alpha: 255 })
    } else if spells(name, "rebeccapurple") {
        Some(RGBA { red: 102, green: 51, blue: 153, alpha: 255 })
    } else if spells(name, "red") {
        Some(RGBA { red: 255, green: 0, blue: 0, alpha: 255 })
    } else if spells(name, "rosybrown") {
        Some(RGBA { red: 188, green: 143, blue: 143, alpha: 255 })
    } else if spells(name, "royalblue") {
        Some(RGBA { red: 65, green: 105, blue: 225, alpha: 255 })
    } else if spells(name, "saddlebrown") {
        Some(RGBA { red: 139, green: 69, blue: 19, alpha: 255 })
    } else if spells(name, "salmon") {
        Some(RGBA { red: 250, green: 128, blue: 114, alpha: 255 })
    } else if spells(name, "sandybrown") {
        Some(RGBA { red: 244, green: 164, blue: 96, alpha: 255 })
    } else if spells(name, "seagreen") {
        Some(RGBA { red: 46, green: 139, blue: 87, alpha: 255 })
    } else if spells(name, "seashell") {
        Some(RGBA { red: 255, green: 245, blue: 238, alpha: 255 })
    } else if spells(name, "sienna") {
        Some(RGBA { red: 160, green: 82, blue: 45, alpha: 255 })
    } else if spells(name, "silver") {
        Some(RGBA { red: 192, green: 192, blue: 192, alpha: 255 })
    } else if spells(name, "skyblue") {
        Some(RGBA { red: 135, green: 206, blue: 235, alpha: 255 })
    } else if spells(name, "slateblue") {
        Some(RGBA { red: 106, green: 90, blue: 205, alpha: 255 })
    } else if spells(name, "slategray") {
        Some(RGBA { red: 112, green: 128, blue: 144, alpha: 255 })
    } else if spells(name, "slategrey") {
        Some(RGBA { red: 112, green: 128, blue: 144, alpha: 255 })
    } else if spells(name, "snow") {
        Some(RGBA { red: 255, green: 250, blue: 250, alpha: 255 })
    } else if spells(name, "springgreen") {
        Some(RGBA { red: 0, green: 255, blue: 127, alpha: 255 })
    } else if spells(name, "steelblue") {
        Some(RGBA { red: 70, green: 130, blue: 180, alpha: 255 })
    } else if spells(name, "tan") {
        Some(RGBA { red: 210, green: 180, blue: 140, alpha: 255 })
    } else if spells(name, "teal") {
        Some(RGBA { red: 0, green: 128, blue: 128, alpha: 255 })
    } else if spells(name, "thistle") {
        Some(RGBA { red: 216, green: 191, blue: 216, alpha: 255 })
    } else if spells(name, "tomato") {
        Some(RGBA { red: 255, green: 99, blue: 71, alpha: 255 })
    } else if spells(name, "turquoise") {
        Some(RGBA { red: 64, green: 224, blue: 208, alpha: 255 })
    } else if spells(name, "violet") {
        Some(RGBA { red: 238, green: 130, blue: 238, alpha: 255 })
    } else if spells(name, "wheat") {
        Some(RGBA { red: 245, green: 222, blue: 179, alpha: 255 })
    } else if spells(name, "white") {
        Some(RGBA { red: 255, green: 255, blue: 255, alpha: 255 })
    } else if spells(name, "whitesmoke") {
        Some(RGBA { red: 245, green: 245, blue: 245, alpha: 255 })
    } else if spells(name, "yellow") {
        Some(RGBA { red: 255, green: 255, blue: 0, alpha: 255 })
    } else if spells(name, "yellowgreen") {
        Some(RGBA { red: 154, green: 205, blue: 50, alpha: 255 })
    } else if spells(name, "transparent") {
        Some(RGBA { red: 0, green: 0, blue: 0, alpha: 255 })
    } else {
        None
    }
}

fn parse_hex_color(chars: &Vec<char>) -> (color: Option<RGBA>)
    requires
        chars@.len() > 0,
    ensures
        color == hex_color(chars@.skip(1)),
{
    let ghost digits = chars@.skip(1);
    let count = chars.len() - 1;
    if count == 3 {
        assert(digits[0] == chars@[1] && digits[1] == chars@[2] && digits[2] == chars@[3]);
        match (hex_digit(chars[1]), hex_digit(chars[2]), hex_digit(chars[3])) {
            (Some(red), Some(green), Some(blue)) => Some(RGBA { red, green, blue, alpha: 255 }),
            _ => None,
        }
    } else if count == 6 || count == 8 {
        assert(digits[0] == chars@[1] && digits[1] == chars@[2] && digits[2] == chars@[3]);
        assert(digits[3] == chars@[4] && digits[4] == chars@[5] && digits[5] == chars@[6]);
        match (
            hex_pair(chars[1], chars[2]),
            hex_pair(chars[3], chars[4]),
            hex_pair(chars[5], chars[6]),
        ) {
            (Some(red), Some(green), Some(blue)) => {
                if count == 8 {
                    assert(digits[6] == chars@[7] && digits[7] == chars@[8]);
                    match hex_pair(chars[7], chars[8]) {
                        Some(alpha) => Some(RGBA { red, green, blue, alpha }),
                        None => None,
                    }
                } else {
                    Some(RGBA { red, green, blue, alpha: 255 })
                }
            },
            _ => None,
        }
    } else {
        None
    }
}

fn hex_digit_text(n: u8) -> (text: &'static str)
    requires
        n < 16,
    ensures
        text@ == seq![hex_char(n as int)],
{
    proof {
        reveal_strlit("0");
        reveal_strlit("1");
        reveal_strlit("2");
        reveal_strlit("3");
        reveal_strlit("4");
        reveal_strlit("5");
        reveal_strlit("6");
        reveal_strlit("7");
        reveal_strlit("8");
        reveal_strlit("9");
        reveal_strlit("a");
        reveal_strlit("b");
        reveal_strlit("c");
        reveal_strlit("d");
        reveal_strlit("e");
        reveal_strlit("f");
    }
    let text = match n {
        0 => "0",
        1 => "1",
        2 => "2",
        3 => "3",
        4 => "4",
        5 => "5",
        6 => "6",
        7 => "7",
        8 => "8",
        9 => "9",
        10 => "a",
        11 => "b",
        12 => "c",
        13 => "d",
        14 => "e",
        _ => "f",
    };
    assert(text@ =~= seq![hex_char(n as int)]);
    text
}

fn append_channel(text: &mut String, channel: u8)
    ensures
        final(text)@ == old(text)@ + channel_text(channel),
{
    text.append(hex_digit_text(channel / 16));
    text.append(hex_digit_text(channel % 16));
    assert(final(text)@ =~= old(text)@ + channel_text(channel));
}

impl RGBA {
    /// Reads a color from text. Text that denotes no color gives `InvalidInput`.
    pub fn parse(string: &str) -> (color: Result<RGBA, ColorParseError>)
        ensures
            color == parse_color(string@),
    {
        let chars = chars_of(string);
        let found = if chars.len() > 0 && chars[0] == '#' {
            parse_hex_color(&chars)
        } else {
            let lower = lowered(&chars);
            lookup_named_color(&lower)
        };
        match found {
            Some(color) => Ok(color),
            None => Err(ColorParseError::InvalidInput),
        }
    }

    /// The color as text, in the form that `parse` reads.
    pub fn to_string(&self) -> (text: String)
        ensures
            text@ == color_text(*self),
    {
        proof {
            reveal_strlit("#");
        }
        let mut text = "#".to_owned();
        assert(text@ =~= seq!['#']);
        append_channel(&mut text, self.red);
        append_channel(&mut text, self.green);
        append_channel(&mut text, self.blue);
        if self.alpha != 255 {
            append_channel(&mut text, self.alpha);
        }
        assert(text@ =~= color_text(*self));
        text
    }

    /// The four channels in the order red, green, blue, alpha.
    pub fn channels(&self) -> (channels: [u8; 4])
        ensures
            channels@ == seq![self.red, self.green, self.blue, self.alpha],
    {
        let channels = [self.red, self.green, self.blue, self.alpha];
        assert(channels@ =~= seq![self.red, self.green, self.blue, self.alpha]);
        channels
    }
}

impl FromStr for RGBA {
    type Err = ColorParseError;

    fn from_str(string: &str) -> (color: Result<Self, Self::Err>)
        ensures
            color == parse_color(string@),
    {
        RGBA::parse(string)
    }
}

/// A hexadecimal digit reads back as the value it was written for.
pub proof fn lemma_hex_char_value(n: int)
    requires
        0 <= n < 16,
    ensures
        hex_value(hex_char(n)) == Some(n),
        hex_char(n) != '+',
{
}

/// The two digits of a channel read back as the channel.
pub proof fn lemma_channel_reads_back(channel: u8)
    ensures
        channel_text(channel).len() == 2,
        hex_pair_value(channel_text(channel)[0], channel_text(channel)[1]) == Some(channel as int),
{
    lemma_hex_char_value(channel as int / 16);
    lemma_hex_char_value(channel as int % 16);
}

/// The text of a color reads back as the color.
pub proof fn law_color_text_reads_back(color: RGBA)
    ensures
        parse_color(color_text(color)) == Ok::<RGBA, ColorParseError>(color),
{
    let text = color_text(color);
    let digits = text.skip(1);
    let red = channel_text(color.red);
    let green = channel_text(color.green);
    let blue = channel_text(color.blue);
    let alpha = channel_text(color.alpha);
    lemma_channel_reads_back(color.red);
    lemma_channel_reads_back(color.green);
    lemma_channel_reads_back(color.blue);
    lemma_channel_reads_back(color.alpha);
    assert(text[0] == '#');
    if color.alpha != 255 {
        assert(digits =~= red + green + blue + alpha);
        assert(digits[0] == red[0] && digits[1] == red[1]);
        assert(digits[2] == green[0] && digits[3] == green[1]);
        assert(digits[4] == blue[0] && digits[5] == blue[1]);
        assert(digits[6] == alpha[0] && digits[7] == alpha[1]);
    } else {
        assert(digits =~= red + green + blue);
        assert(digits[0] == red[0] && digits[1] == red[1]);
        assert(digits[2] == green[0] && digits[3] == green[1]);
        assert(digits[4] == blue[0] && digits[5] == blue[1]);
    }
}

} // verus!
