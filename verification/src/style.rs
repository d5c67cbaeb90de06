//! Terminal text styles: colours, modifiers, and how one style is laid over
//! another.
use vstd::prelude::*;

verus! {

#[derive(Clone, Copy, Debug, PartialEq, Eq, Structural)]
pub enum Color {
    Reset,
    Black,
    Red,
    Green,
    Yellow,
    Blue,
    Magenta,
    Cyan,
    Gray,
    DarkGray,
    LightRed,
    LightGreen,
    LightYellow,
    LightBlue,
    LightMagenta,
    LightCyan,
    White,
    Rgb(u8, u8, u8),
    Indexed(u8),
}

/// A set of text modifiers (bold, italic, ...), one bit each.
#[derive(Clone, Copy, Debug, PartialEq, Eq, Structural)]
pub struct Modifier {
    pub bits: u16,
}

impl Modifier {
    pub fn empty() -> (m: Modifier)
        ensures
            m.bits == 0,
    {
        Modifier { bits: 0 }
    }
}

#[derive(Clone, Copy, Debug, PartialEq, Eq, Structural)]
pub struct Style {
    pub fg: Option<Color>,
    pub bg: Option<Color>,
    pub add_modifier: Modifier,
    pub sub_modifier: Modifier,
}

/// `a` if it is set, else `b`.
pub open spec fn or_else<T>(a: Option<T>, b: Option<T>) -> Option<T> {
    match a {
        Some(x) => Some(x),
        None => b,
    }
}

impl Style {
    /// The style that changes nothing.
    pub open spec fn empty_style() -> Style {
        Style {
            fg: None,
            bg: None,
            add_modifier: Modifier { bits: 0 },
            sub_modifier: Modifier { bits: 0 },
        }
    }

    /// `self` with `other` laid over it: the colours `other` sets win, the
    /// modifiers it adds or removes are added or removed.
    pub open spec fn patched(self, other: Style) -> Style {
        Style {
            fg: or_else(other.fg, self.fg),
            bg: or_else(other.bg, self.bg),
            add_modifier: Modifier {
                bits: (self.add_modifier.bits & !other.sub_modifier.bits)
                    | other.add_modifier.bits,
            },
            sub_modifier: Modifier {
                bits: (self.sub_modifier.bits & !other.add_modifier.bits)
                    | other.sub_modifier.bits,
            },
        }
    }

    pub fn new() -> (s: Style)
        ensures
            s == Style::empty_style(),
    {
        Style { fg: None, bg: None, add_modifier: Modifier::empty(), sub_modifier: Modifier::empty() }
    }

    pub fn patch(self, other: Style) -> (s: Style)
        ensures
            s == self.patched(other),
    {
        Style {
            fg: match other.fg {
                Some(c) => Some(c),
                None => self.fg,
            },
            bg: match other.bg {
                Some(c) => Some(c),
                None => self.bg,
            },
            add_modifier: Modifier {
                bits: (self.add_modifier.bits & !other.sub_modifier.bits)
                    | other.add_modifier.bits,
            },
            sub_modifier: Modifier {
                bits: (self.sub_modifier.bits & !other.add_modifier.bits)
                    | other.sub_modifier.bits,
            },
        }
    }
}

/// Laying the empty style over a style leaves it unchanged.
pub proof fn lemma_patch_empty_is_identity(s: Style)
    ensures
        s.patched(Style::empty_style()) == s,
{
    let a = s.add_modifier.bits;
    let b = s.sub_modifier.bits;
    assert((a & !0u16) | 0u16 == a) by (bit_vector);
    assert((b & !0u16) | 0u16 == b) by (bit_vector);
}

} // verus!
