use vstd::prelude::*;

verus! {

/// Colour and icon settings read from the configuration file.
#[derive(Default, Debug, Clone, PartialEq)]
pub struct MirrorsConfig {
    pub colours: Option<Colours>,
    pub icons: Option<Icons>,
}

#[derive(Default, Debug, Clone, PartialEq)]
pub struct Colours {
    pub action_key: Option<String>,
    pub available_mirrors: Option<AvailableMirrors>,
    pub countries: Option<Countries>,
    pub mirrors: Option<Mirrors>,
    pub info: Option<Info>,
}

#[derive(Default, Debug, Clone, PartialEq)]
pub struct AvailableMirrors {
    pub heading: Option<String>,
    pub border: Option<String>,
    pub highlight_fg: Option<String>,
    pub highlight_bg: Option<String>,
    pub reverse: Option<bool>,
}

#[derive(Default, Debug, Clone, PartialEq)]
pub struct Countries {
    pub heading: Option<String>,
    pub border: Option<String>,
    pub highlight_fg: Option<String>,
    pub highlight_bg: Option<String>,
    pub reverse: Option<bool>,
}

#[derive(Default, Debug, Clone, PartialEq)]
pub struct Mirrors {
    pub heading: Option<String>,
    pub border: Option<String>,
    pub reverse: Option<bool>,
}

#[derive(Default, Debug, Clone, PartialEq)]
pub struct Info {
    pub os: Option<String>,
    pub app: Option<String>,
    pub countries: Option<String>,
    pub mirrors: Option<String>,
    pub last_checked: Option<String>,
    pub now: Option<String>,
}

#[derive(Default, Debug, Clone, PartialEq)]
pub struct Icons {
    pub os: Option<String>,
    pub countries: Option<String>,
    pub mirrors: Option<String>,
    pub last_checked: Option<String>,
    pub now: Option<String>,
    pub highlight_symbol_countries: Option<char>,
    pub highlight_symbol_mirrors: Option<char>,
}

/// Value of a hexadecimal digit, either case.
pub open spec fn hex_digit(c: char) -> Option<u8> {
    if '0' <= c && c <= '9' {
        Some((c as u32 - '0' as u32) as u8)
    } else if 'a' <= c && c <= 'f' {
        Some((c as u32 - 'a' as u32 + 10) as u8)
    } else if 'A' <= c && c <= 'F' {
        Some((c as u32 - 'A' as u32 + 10) as u8)
    } else {
        None
    }
}

/// A colour channel written with two characters: two hexadecimal digits,
/// or a plus sign and one digit.
pub open spec fn channel(a: char, b: char) -> Option<u8> {
    if a == '+' {
        hex_digit(b)
    } else {
        match (hex_digit(a), hex_digit(b)) {
            (Some(x), Some(y)) => Some((x * 16 + y) as u8),
            _ => None,
        }
    }
}

/// The colour that a setting of six characters names. A setting of any
/// other length stands for white.
pub open spec fn rgb_of(s: Seq<char>) -> Option<(u8, u8, u8)> {
    if s.len() != 6 {
        Some((255, 255, 255))
    } else {
        match (channel(s[0], s[1]), channel(s[2], s[3]), channel(s[4], s[5])) {
            (Some(r), Some(g), Some(b)) => Some((r, g, b)),
            _ => None,
        }
    }
}

fn hex_digit_of(c: char) -> (r: Option<u8>)
    ensures
        r == hex_digit(c),
{
    if '0' <= c && c <= '9' {
        Some((c as u32 - '0' as u32) as u8)
    } else if 'a' <= c && c <= 'f' {
        Some((c as u32 - 'a' as u32 + 10) as u8)
    } else if 'A' <= c && c <= 'F' {
        Some((c as u32 - 'A' as u32 + 10) as u8)
    } else {
        None
    }
}

fn channel_of(a: char, b: char) -> (r: Option<u8>)
    ensures
        r == channel(a, b),
{
    if a == '+' {
        return hex_digit_of(b);
    }
    match (hex_digit_of(a), hex_digit_of(b)) {
        (Some(x), Some(y)) => {
            assert(x < 16 && y < 16);
            Some(x * 16 + y)
        },
        _ => None,
    }
}

/// Reads a colour written as six hexadecimal digits (`rrggbb`). A value
/// of another length gives white; six characters that are not all
/// digits give `None`.
pub fn rgb_from_hex(val: String) -> (r: Option<(u8, u8, u8)>)
    ensures
        r == rgb_of(val@),
{
    let s = val.as_str();
    if s.unicode_len() != 6 {
        return Some((255, 255, 255));
    }
    let red = channel_of(s.get_char(0), s.get_char(1));
    let green = channel_of(s.get_char(2), s.get_char(3));
    let blue = channel_of(s.get_char(4), s.get_char(5));
    match (red, green, blue) {
        (Some(r), Some(g), Some(b)) => Some((r, g, b)),
        _ => None,
    }
}

/// The colour that an optional setting names; `None` when the setting is
/// absent or unreadable, so that the caller uses its default.
pub fn configured_rgb(setting: &Option<String>) -> (r: Option<(u8, u8, u8)>)
    ensures
        r == match setting {
            Some(s) => rgb_of(s@),
            None => None,
        },
{
    match setting {
        Some(s) => rgb_from_hex(s.clone()),
        None => None,
    }
}

} // verus!
