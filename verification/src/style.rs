//! The SGR style resolver: colors, text attributes, and the cumulative
//! application of `CSI ... m` parameter codes onto a current style.

use vstd::prelude::*;
use crate::params::{parse_uint, parse_uint_chars, split_semis, split_params};

verus! {

/// A terminal color: one of the sixteen named colors, an indexed palette
/// color, or the terminal's default (unset).
#[derive(Clone, Copy, Debug, PartialEq, Eq, Structural)]
pub enum Color {
    Default,
    Black,
    Red,
    Green,
    Yellow,
    Blue,
    Magenta,
    Cyan,
    White,
    Gray,
    DarkGray,
    LightRed,
    LightGreen,
    LightYellow,
    LightBlue,
    LightMagenta,
    LightCyan,
    Indexed(u8),
}

/// A cell style: foreground, background and the three attributes the
/// interpreter tracks.
#[derive(Clone, Copy, Debug, PartialEq, Eq, Structural)]
pub struct Style {
    pub fg: Color,
    pub bg: Color,
    pub bold: bool,
    pub underline: bool,
    pub reversed: bool,
}

/// The style every session starts from: white foreground, no background, no
/// attributes.
pub open spec fn spec_default_style() -> Style {
    Style { fg: Color::White, bg: Color::Default, bold: false, underline: false, reversed: false }
}

pub fn default_style() -> (r: Style)
    ensures
        r == spec_default_style(),
{
    Style { fg: Color::White, bg: Color::Default, bold: false, underline: false, reversed: false }
}

impl Default for Style {
    fn default() -> (r: Style)
        ensures
            r == spec_default_style(),
    {
        default_style()
    }
}

/// The effect of a single simple SGR code (given as its parameter text) on a
/// style; unknown codes leave the style unchanged.
pub open spec fn spec_apply_sgr_code(st: Style, p: Seq<char>) -> Style {
    if p.len() == 1 {
        if p[0] == '0' {
            spec_default_style()
        } else if p[0] == '1' {
            Style { bold: true, ..st }
        } else if p[0] == '4' {
            Style { underline: true, ..st }
        } else if p[0] == '7' {
            Style { reversed: true, ..st }
        } else {
            st
        }
    } else if p.len() == 2 && p[0] == '3' {
        if p[1] == '0' {
            Style { fg: Color::Black, ..st }
        } else if p[1] == '1' {
            Style { fg: Color::Red, ..st }
        } else if p[1] == '2' {
            Style { fg: Color::Green, ..st }
        } else if p[1] == '3' {
            Style { fg: Color::Yellow, ..st }
        } else if p[1] == '4' {
            Style { fg: Color::Blue, ..st }
        } else if p[1] == '5' {
            Style { fg: Color::Magenta, ..st }
        } else if p[1] == '6' {
            Style { fg: Color::Cyan, ..st }
        } else if p[1] == '7' {
            Style { fg: Color::White, ..st }
        } else {
            st
        }
    } else if p.len() == 2 && p[0] == '9' {
        if p[1] == '0' {
            Style { fg: Color::DarkGray, ..st }
        } else if p[1] == '1' {
            Style { fg: Color::LightRed, ..st }
        } else if p[1] == '2' {
            Style { fg: Color::LightGreen, ..st }
        } else if p[1] == '3' {
            Style { fg: Color::LightYellow, ..st }
        } else if p[1] == '4' {
            Style { fg: Color::LightBlue, ..st }
        } else if p[1] == '5' {
            Style { fg: Color::LightMagenta, ..st }
        } else if p[1] == '6' {
            Style { fg: Color::LightCyan, ..st }
        } else if p[1] == '7' {
            Style { fg: Color::Gray, ..st }
        } else {
            st
        }
    } else if p.len() == 2 && p[0] == '4' {
        if p[1] == '0' {
            Style { bg: Color::Black, ..st }
        } else if p[1] == '1' {
            Style { bg: Color::Red, ..st }
        } else if p[1] == '2' {
            Style { bg: Color::Green, ..st }
        } else if p[1] == '3' {
            Style { bg: Color::Yellow, ..st }
        } else if p[1] == '4' {
            Style { bg: Color::Blue, ..st }
        } else if p[1] == '5' {
            Style { bg: Color::Magenta, ..st }
        } else if p[1] == '6' {
            Style { bg: Color::Cyan, ..st }
        } else if p[1] == '7' {
            Style { bg: Color::White, ..st }
        } else {
            st
        }
    } else {
        st
    }
}

/// Whether a parameter names an extended (indexed) foreground or background
/// color introducer, `38` or `48`.
pub open spec fn spec_is_extended(p: Seq<char>) -> bool {
    p.len() == 2 && (p[0] == '3' || p[0] == '4') && p[1] == '8'
}

pub open spec fn spec_is_five(p: Seq<char>) -> bool {
    p.len() == 1 && p[0] == '5'
}

/// Folds SGR parameter parts onto a style from index `i` on. An extended
/// color introducer followed by `5` and an index consumes three parts and
/// sets the indexed color (or nothing, if the index does not parse); a
/// malformed extended sequence is skipped without effect.
pub open spec fn spec_sgr_fold(parts: Seq<Seq<char>>, i: int, st: Style) -> Style
    decreases parts.len() - i,
{
    if i < 0 || i >= parts.len() {
        st
    } else {
        let p = parts[i];
        if spec_is_extended(p) {
            if i + 2 < parts.len() && spec_is_five(parts[i + 1]) {
                let st2 = match parse_uint(parts[i + 2], 255) {
                    Some(n) => if p[0] == '3' {
                        Style { fg: Color::Indexed(n as u8), ..st }
                    } else {
                        Style { bg: Color::Indexed(n as u8), ..st }
                    },
                    None => st,
                };
                spec_sgr_fold(parts, i + 3, st2)
            } else {
                spec_sgr_fold(parts, i + 1, st)
            }
        } else {
            spec_sgr_fold(parts, i + 1, spec_apply_sgr_code(st, p))
        }
    }
}

/// The effect of a whole SGR parameter string on a style: an empty string or
/// the single code `0` resets to the default style, anything else is split on
/// `;` and applied cumulatively.
pub open spec fn spec_apply_sgr(params: Seq<char>, st: Style) -> Style {
    if params.len() == 0 || (params.len() == 1 && params[0] == '0') {
        spec_default_style()
    } else {
        spec_sgr_fold(split_semis(params), 0, st)
    }
}

fn apply_sgr_code(st: Style, p: &Vec<char>) -> (r: Style)
    ensures
        r == spec_apply_sgr_code(st, p@),
{
    if p.len() == 1 {
        let c = p[0];
        if c == '0' {
            default_style()
        } else if c == '1' {
            Style { bold: true, ..st }
        } else if c == '4' {
            Style { underline: true, ..st }
        } else if c == '7' {
            Style { reversed: true, ..st }
        } else {
            st
        }
    } else if p.len() == 2 {
        let a = p[0];
        let b = p[1];
        if a == '3' {
            if b == '0' {
                Style { fg: Color::Black, ..st }
            } else if b == '1' {
                Style { fg: Color::Red, ..st }
            } else if b == '2' {
                Style { fg: Color::Green, ..st }
            } else if b == '3' {
                Style { fg: Color::Yellow, ..st }
            } else if b == '4' {
                Style { fg: Color::Blue, ..st }
            } else if b == '5' {
                Style { fg: Color::Magenta, ..st }
            } else if b == '6' {
                Style { fg: Color::Cyan, ..st }
            } else if b == '7' {
                Style { fg: Color::White, ..st }
            } else {
                st
            }
        } else if a == '9' {
            if b == '0' {
                Style { fg: Color::DarkGray, ..st }
            } else if b == '1' {
                Style { fg: Color::LightRed, ..st }
            } else if b == '2' {
                Style { fg: Color::LightGreen, ..st }
            } else if b == '3' {
                Style { fg: Color::LightYellow, ..st }
            } else if b == '4' {
                Style { fg: Color::LightBlue, ..st }
            } else if b == '5' {
                Style { fg: Color::LightMagenta, ..st }
            } else if b == '6' {
                Style { fg: Color::LightCyan, ..st }
            } else if b == '7' {
                Style { fg: Color::Gray, ..st }
            } else {
                st
            }
        } else if a == '4' {
            if b == '0' {
                Style { bg: Color::Black, ..st }
            } else if b == '1' {
                Style { bg: Color::Red, ..st }
            } else if b == '2' {
                Style { bg: Color::Green, ..st }
            } else if b == '3' {
                Style { bg: Color::Yellow, ..st }
            } else if b == '4' {
                Style { bg: Color::Blue, ..st }
            } else if b == '5' {
                Style { bg: Color::Magenta, ..st }
            } else if b == '6' {
                Style { bg: Color::Cyan, ..st }
            } else if b == '7' {
                Style { bg: Color::White, ..st }
            } else {
                st
            }
        } else {
            st
        }
    } else {
        st
    }
}

/// Applies an SGR parameter string cumulatively onto `st`, as
/// `spec_apply_sgr` describes.
pub fn apply_sgr(params: &Vec<char>, st: Style) -> (r: Style)
    ensures
        r == spec_apply_sgr(params@, st),
{
    if params.len() == 0 || (params.len() == 1 && params[0] == '0') {
        return default_style();
    }
    let parts = split_params(params);
    let ghost gparts: Seq<Seq<char>> = parts@.map_values(|p: Vec<char>| p@);
    let ghost st0: Style = st;
    let mut st = st;
    let mut i: usize = 0;
    while i < parts.len()
        invariant
            i <= parts.len(),
            gparts == parts@.map_values(|p: Vec<char>| p@),
            spec_sgr_fold(gparts, i as int, st) == spec_sgr_fold(gparts, 0, st0),
        decreases parts.len() - i,
    {
        let p = &parts[i];
        proof {
            assert(gparts[i as int] == p@);
        }
        if p.len() == 2 && (p[0] == '3' || p[0] == '4') && p[1] == '8' {
            if parts.len() - i > 2 && parts[i + 1].len() == 1 && parts[i + 1][0] == '5' {
                proof {
                    assert(gparts[i + 1] == parts@[i + 1]@);
                    assert(gparts[i + 2] == parts@[i + 2]@);
                }
                match parse_uint_chars(&parts[i + 2], 255) {
                    Some(n) => {
                        if p[0] == '3' {
                            st = Style { fg: Color::Indexed(n as u8), ..st };
                        } else {
                            st = Style { bg: Color::Indexed(n as u8), ..st };
                        }
                    },
                    None => {},
                }
                i = i + 3;
            } else {
                proof {
                    if i + 2 < gparts.len() {
                        assert(gparts[i + 1] == parts@[i + 1]@);
                    }
                }
                i = i + 1;
            }
        } else {
            st = apply_sgr_code(st, p);
            i = i + 1;
        }
    }
    st
}

} // verus!
