//! Colors, modifier flags and the patchable `Style` applied to cells.
use vstd::prelude::*;

verus! {

/// A terminal color, either a named ANSI color, an indexed palette entry
/// or a direct RGB value. `Reset` stands for the terminal's default.
#[derive(Debug, Default, Clone, Copy, PartialEq, Eq, Hash, Structural)]
pub enum Color {
    /// The terminal's default color.
    #[default]
    Reset,
    /// ANSI black.
    Black,
    /// ANSI red.
    Red,
    /// ANSI green.
    Green,
    /// ANSI yellow.
    Yellow,
    /// ANSI blue.
    Blue,
    /// ANSI magenta.
    Magenta,
    /// ANSI cyan.
    Cyan,
    /// ANSI light gray.
    Gray,
    /// ANSI dark gray.
    DarkGray,
    /// ANSI bright red.
    LightRed,
    /// ANSI bright green.
    LightGreen,
    /// ANSI bright yellow.
    LightYellow,
    /// ANSI bright blue.
    LightBlue,
    /// ANSI bright magenta.
    LightMagenta,
    /// ANSI bright cyan.
    LightCyan,
    /// ANSI white.
    White,
    /// A direct 24-bit color.
    Rgb(u8, u8, u8),
    /// An entry of the 256-color palette.
    Indexed(u8),
}

/// A set of text attribute flags (bold, italic, ...), stored as a bitset.
#[derive(Debug, Default, Clone, Copy, PartialEq, Eq, Hash, Structural)]
pub struct Modifier {
    /// The raw flag bits.
    pub bits: u16,
}

impl Modifier {
    /// Bold text.
    pub fn bold() -> (r: Modifier)
        ensures
            r.bits == 0x0001u16,
    {
        Modifier { bits: 0x0001 }
    }

    /// Dimmed text.
    pub fn dim() -> (r: Modifier)
        ensures
            r.bits == 0x0002u16,
    {
        Modifier { bits: 0x0002 }
    }

    /// Italic text.
    pub fn italic() -> (r: Modifier)
        ensures
            r.bits == 0x0004u16,
    {
        Modifier { bits: 0x0004 }
    }

    /// Underlined text.
    pub fn underlined() -> (r: Modifier)
        ensures
            r.bits == 0x0008u16,
    {
        Modifier { bits: 0x0008 }
    }

    /// Slowly blinking text.
    pub fn slow_blink() -> (r: Modifier)
        ensures
            r.bits == 0x0010u16,
    {
        Modifier { bits: 0x0010 }
    }

    /// Rapidly blinking text.
    pub fn rapid_blink() -> (r: Modifier)
        ensures
            r.bits == 0x0020u16,
    {
        Modifier { bits: 0x0020 }
    }

    /// Foreground and background swapped.
    pub fn reversed() -> (r: Modifier)
        ensures
            r.bits == 0x0040u16,
    {
        Modifier { bits: 0x0040 }
    }

    /// Hidden text.
    pub fn hidden() -> (r: Modifier)
        ensures
            r.bits == 0x0080u16,
    {
        Modifier { bits: 0x0080 }
    }

    /// Struck-through text.
    pub fn crossed_out() -> (r: Modifier)
        ensures
            r.bits == 0x0100u16,
    {
        Modifier { bits: 0x0100 }
    }

    /// The union of the two flag sets.
    pub fn union(self, other: Modifier) -> (r: Modifier)
        ensures
            r.bits == self.bits | other.bits,
    {
        Modifier { bits: self.bits | other.bits }
    }

    /// The flags of `self` that are not in `other`.
    pub fn difference(self, other: Modifier) -> (r: Modifier)
        ensures
            r.bits == self.bits & !other.bits,
    {
        Modifier { bits: self.bits & !other.bits }
    }

    /// Whether the two flag sets share at least one flag.
    pub fn intersects(self, other: Modifier) -> (r: bool)
        ensures
            r == ((self.bits & other.bits) != 0),
    {
        (self.bits & other.bits) != 0
    }

    /// Whether every flag of `other` is set in `self`.
    pub fn contains(self, other: Modifier) -> (r: bool)
        ensures
            r == ((self.bits & other.bits) == other.bits),
    {
        (self.bits & other.bits) == other.bits
    }

    /// The empty set of flags.
    pub fn empty() -> (r: Modifier)
        ensures
            r.bits == 0,
    {
        Modifier { bits: 0 }
    }
}

/// How the style of the cells it is applied to changes: colors to replace,
/// flags to add and flags to remove.
///
/// A `Style` is not a final appearance but a patch: `None` colors leave the
/// cell's colors alone, and the two modifier sets are applied on top of the
/// flags the cell already has. Patches compose with [`Style::patch`].
#[derive(Debug, Default, Clone, Copy, PartialEq, Eq, Hash, Structural)]
pub struct Style {
    /// The foreground color to set, if any.
    pub fg: Option<Color>,
    /// The background color to set, if any.
    pub bg: Option<Color>,
    /// The flags this style adds.
    pub add_modifier: Modifier,
    /// The flags this style removes.
    pub sub_modifier: Modifier,
}

/// The spec-level result of patching `base` with `patch`.
pub open spec fn spec_patch(base: Style, patch: Style) -> Style {
    Style {
        fg: if patch.fg is Some {
            patch.fg
        } else {
            base.fg
        },
        bg: if patch.bg is Some {
            patch.bg
        } else {
            base.bg
        },
        add_modifier: Modifier {
            bits: (base.add_modifier.bits & !patch.sub_modifier.bits) | patch.add_modifier.bits,
        },
        sub_modifier: Modifier {
            bits: (base.sub_modifier.bits & !patch.add_modifier.bits) | patch.sub_modifier.bits,
        },
    }
}

impl Style {
    /// A style that changes nothing.
    pub fn new() -> (r: Style)
        ensures
            r == Style::spec_new(),
    {
        Style { fg: None, bg: None, add_modifier: Modifier { bits: 0 }, sub_modifier: Modifier { bits: 0 } }
    }

    /// The spec value of the neutral style.
    pub open spec fn spec_new() -> Style {
        Style {
            fg: None,
            bg: None,
            add_modifier: Modifier { bits: 0 },
            sub_modifier: Modifier { bits: 0 },
        }
    }

    /// A style that resets colors and removes every flag.
    pub fn reset() -> (r: Style)
        ensures
            r == Style::spec_reset(),
    {
        Style {
            fg: Some(Color::Reset),
            bg: Some(Color::Reset),
            add_modifier: Modifier { bits: 0 },
            sub_modifier: Modifier { bits: 0xFFFF },
        }
    }

    /// The spec value of the resetting style.
    pub open spec fn spec_reset() -> Style {
        Style {
            fg: Some(Color::Reset),
            bg: Some(Color::Reset),
            add_modifier: Modifier { bits: 0 },
            sub_modifier: Modifier { bits: 0xFFFF },
        }
    }

    /// Set the foreground color.
    pub fn fg(self, color: Color) -> (r: Style)
        ensures
            r == (Style { fg: Some(color), ..self }),
    {
        Style { fg: Some(color), ..self }
    }

    /// Set the background color.
    pub fn bg(self, color: Color) -> (r: Style)
        ensures
            r == (Style { bg: Some(color), ..self }),
    {
        Style { bg: Some(color), ..self }
    }

    /// Add the given flags to the style.
    pub fn add_modifier(self, modifier: Modifier) -> (r: Style)
        ensures
            r.fg == self.fg,
            r.bg == self.bg,
            r.add_modifier.bits == self.add_modifier.bits | modifier.bits,
            r.sub_modifier.bits == self.sub_modifier.bits & !modifier.bits,
    {
        Style {
            add_modifier: self.add_modifier.union(modifier),
            sub_modifier: self.sub_modifier.difference(modifier),
            ..self
        }
    }

    /// Remove the given flags from the style.
    pub fn remove_modifier(self, modifier: Modifier) -> (r: Style)
        ensures
            r.fg == self.fg,
            r.bg == self.bg,
            r.add_modifier.bits == self.add_modifier.bits & !modifier.bits,
            r.sub_modifier.bits == self.sub_modifier.bits | modifier.bits,
    {
        Style {
            add_modifier: self.add_modifier.difference(modifier),
            sub_modifier: self.sub_modifier.union(modifier),
            ..self
        }
    }

    /// Combine two styles: what `other` sets wins, what it leaves `None`
    /// falls through to `self`.
    pub fn patch(self, other: Style) -> (r: Style)
        ensures
            r == spec_patch(self, other),
    {
        let fg = match other.fg {
            Some(c) => Some(c),
            None => self.fg,
        };
        let bg = match other.bg {
            Some(c) => Some(c),
            None => self.bg,
        };
        Style {
            fg,
            bg,
            add_modifier: self.add_modifier.difference(other.sub_modifier).union(other.add_modifier),
            sub_modifier: self.sub_modifier.difference(other.add_modifier).union(other.sub_modifier),
        }
    }

    /// Black foreground.
    pub fn black(self) -> (r: Style)
        ensures
            r == (Style { fg: Some(Color::Black), ..self }),
    {
        self.fg(Color::Black)
    }

    /// Red foreground.
    pub fn red(self) -> (r: Style)
        ensures
            r == (Style { fg: Some(Color::Red), ..self }),
    {
        self.fg(Color::Red)
    }

    /// Green foreground.
    pub fn green(self) -> (r: Style)
        ensures
            r == (Style { fg: Some(Color::Green), ..self }),
    {
        self.fg(Color::Green)
    }

    /// Yellow foreground.
    pub fn yellow(self) -> (r: Style)
        ensures
            r == (Style { fg: Some(Color::Yellow), ..self }),
    {
        self.fg(Color::Yellow)
    }

    /// Blue foreground.
    pub fn blue(self) -> (r: Style)
        ensures
            r == (Style { fg: Some(Color::Blue), ..self }),
    {
        self.fg(Color::Blue)
    }

    /// White foreground.
    pub fn white(self) -> (r: Style)
        ensures
            r == (Style { fg: Some(Color::White), ..self }),
    {
        self.fg(Color::White)
    }

    /// Blue background.
    pub fn on_blue(self) -> (r: Style)
        ensures
            r == (Style { bg: Some(Color::Blue), ..self }),
    {
        self.bg(Color::Blue)
    }

    /// Green background.
    pub fn on_green(self) -> (r: Style)
        ensures
            r == (Style { bg: Some(Color::Green), ..self }),
    {
        self.bg(Color::Green)
    }

    /// White background.
    pub fn on_white(self) -> (r: Style)
        ensures
            r == (Style { bg: Some(Color::White), ..self }),
    {
        self.bg(Color::White)
    }

    /// Add the bold flag.
    pub fn bold(self) -> (r: Style)
        ensures
            r.fg == self.fg,
            r.bg == self.bg,
            r.add_modifier.bits == self.add_modifier.bits | 0x0001u16,
            r.sub_modifier.bits == self.sub_modifier.bits & !0x0001u16,
    {
        self.add_modifier(Modifier::bold())
    }

    /// Add the italic flag.
    pub fn italic(self) -> (r: Style)
        ensures
            r.fg == self.fg,
            r.bg == self.bg,
            r.add_modifier.bits == self.add_modifier.bits | 0x0004u16,
            r.sub_modifier.bits == self.sub_modifier.bits & !0x0004u16,
    {
        self.add_modifier(Modifier::italic())
    }

    /// Add the underlined flag.
    pub fn underlined(self) -> (r: Style)
        ensures
            r.fg == self.fg,
            r.bg == self.bg,
            r.add_modifier.bits == self.add_modifier.bits | 0x0008u16,
            r.sub_modifier.bits == self.sub_modifier.bits & !0x0008u16,
    {
        self.add_modifier(Modifier::underlined())
    }

    /// Add the reversed flag.
    pub fn reversed(self) -> (r: Style)
        ensures
            r.fg == self.fg,
            r.bg == self.bg,
            r.add_modifier.bits == self.add_modifier.bits | 0x0040u16,
            r.sub_modifier.bits == self.sub_modifier.bits & !0x0040u16,
    {
        self.add_modifier(Modifier::reversed())
    }

    /// Remove the crossed-out flag.
    pub fn not_crossed_out(self) -> (r: Style)
        ensures
            r.fg == self.fg,
            r.bg == self.bg,
            r.add_modifier.bits == self.add_modifier.bits & !0x0100u16,
            r.sub_modifier.bits == self.sub_modifier.bits | 0x0100u16,
    {
        self.remove_modifier(Modifier::crossed_out())
    }
}

impl From<Color> for Style {
    /// A style that only sets the foreground color.
    fn from(color: Color) -> (r: Style) {
        Style { fg: Some(color), bg: None, add_modifier: Modifier { bits: 0 }, sub_modifier: Modifier { bits: 0 } }
    }
}

impl vstd::std_specs::convert::FromSpecImpl<Color> for Style {
    open spec fn obeys_from_spec() -> bool {
        true
    }

    open spec fn from_spec(color: Color) -> Style {
        Style {
            fg: Some(color),
            bg: None,
            add_modifier: Modifier { bits: 0 },
            sub_modifier: Modifier { bits: 0 },
        }
    }
}

impl From<Modifier> for Style {
    /// A style that only adds the given flags.
    fn from(modifier: Modifier) -> (r: Style) {
        Style { fg: None, bg: None, add_modifier: modifier, sub_modifier: Modifier { bits: 0 } }
    }
}

impl vstd::std_specs::convert::FromSpecImpl<Modifier> for Style {
    open spec fn obeys_from_spec() -> bool {
        true
    }

    open spec fn from_spec(modifier: Modifier) -> Style {
        Style { fg: None, bg: None, add_modifier: modifier, sub_modifier: Modifier { bits: 0 } }
    }
}

} // verus!
