//! Colors, modifiers and the style descriptor that graphic-rendition codes
//! are resolved into.

use vstd::prelude::*;

verus! {

/// A terminal color. `Reset` stands for "no color set".
#[derive(Clone, Copy, Debug, PartialEq, Eq, Structural)]
pub enum Color {
    Reset,
    Black,
    Red,
    Green,
    Yellow,
    Blue,
    Magenta,
    Cyan,
    Gray,
    DarkGray,
    LightRed,
    LightGreen,
    LightYellow,
    LightBlue,
    LightMagenta,
    LightCyan,
    White,
    Rgb(u8, u8, u8),
    Indexed(u8),
}

/// One of the nine independent text attributes.
#[derive(Clone, Copy, Debug, PartialEq, Eq, Structural)]
pub enum Modifier {
    Bold,
    Dim,
    Italic,
    Underlined,
    SlowBlink,
    RapidBlink,
    Reversed,
    Hidden,
    CrossedOut,
}

/// What a renderer needs to paint a run of text: two colors and nine flags.
/// A color of `Color::Reset` means that the color is unset.
#[derive(Clone, Copy, Debug, PartialEq, Eq, Structural)]
pub struct Style {
    pub fg: Color,
    pub bg: Color,
    pub bold: bool,
    pub dim: bool,
    pub italic: bool,
    pub underlined: bool,
    pub slow_blink: bool,
    pub rapid_blink: bool,
    pub reversed: bool,
    pub hidden: bool,
    pub crossed_out: bool,
}

impl Style {
    /// The descriptor with both colors unset and every flag off.
    pub open spec fn plain() -> Style {
        Style {
            fg: Color::Reset,
            bg: Color::Reset,
            bold: false,
            dim: false,
            italic: false,
            underlined: false,
            slow_blink: false,
            rapid_blink: false,
            reversed: false,
            hidden: false,
            crossed_out: false,
        }
    }

    pub open spec fn with_fg(self, color: Color) -> Style {
        Style { fg: color, ..self }
    }

    pub open spec fn with_bg(self, color: Color) -> Style {
        Style { bg: color, ..self }
    }

    /// The descriptor with the flag `m` set to `on` and everything else kept.
    pub open spec fn with_modifier(self, m: Modifier, on: bool) -> Style {
        match m {
            Modifier::Bold => Style { bold: on, ..self },
            Modifier::Dim => Style { dim: on, ..self },
            Modifier::Italic => Style { italic: on, ..self },
            Modifier::Underlined => Style { underlined: on, ..self },
            Modifier::SlowBlink => Style { slow_blink: on, ..self },
            Modifier::RapidBlink => Style { rapid_blink: on, ..self },
            Modifier::Reversed => Style { reversed: on, ..self },
            Modifier::Hidden => Style { hidden: on, ..self },
            Modifier::CrossedOut => Style { crossed_out: on, ..self },
        }
    }

    pub open spec fn modifier(self, m: Modifier) -> bool {
        match m {
            Modifier::Bold => self.bold,
            Modifier::Dim => self.dim,
            Modifier::Italic => self.italic,
            Modifier::Underlined => self.underlined,
            Modifier::SlowBlink => self.slow_blink,
            Modifier::RapidBlink => self.rapid_blink,
            Modifier::Reversed => self.reversed,
            Modifier::Hidden => self.hidden,
            Modifier::CrossedOut => self.crossed_out,
        }
    }

    /// Same as `Style::default()`: nothing set.
    pub fn reset() -> (r: Style)
        ensures
            r == Style::plain(),
    {
        Style {
            fg: Color::Reset,
            bg: Color::Reset,
            bold: false,
            dim: false,
            italic: false,
            underlined: false,
            slow_blink: false,
            rapid_blink: false,
            reversed: false,
            hidden: false,
            crossed_out: false,
        }
    }

    pub fn fg(self, color: Color) -> (r: Style)
        ensures
            r == self.with_fg(color),
    {
        Style { fg: color, ..self }
    }

    pub fn bg(self, color: Color) -> (r: Style)
        ensures
            r == self.with_bg(color),
    {
        Style { bg: color, ..self }
    }

    fn set_modifier(self, m: Modifier, on: bool) -> (r: Style)
        ensures
            r == self.with_modifier(m, on),
    {
        match m {
            Modifier::Bold => Style { bold: on, ..self },
            Modifier::Dim => Style { dim: on, ..self },
            Modifier::Italic => Style { italic: on, ..self },
            Modifier::Underlined => Style { underlined: on, ..self },
            Modifier::SlowBlink => Style { slow_blink: on, ..self },
            Modifier::RapidBlink => Style { rapid_blink: on, ..self },
            Modifier::Reversed => Style { reversed: on, ..self },
            Modifier::Hidden => Style { hidden: on, ..self },
            Modifier::CrossedOut => Style { crossed_out: on, ..self },
        }
    }

    pub fn add_modifier(self, m: Modifier) -> (r: Style)
        ensures
            r == self.with_modifier(m, true),
    {
        self.set_modifier(m, true)
    }

    pub fn remove_modifier(self, m: Modifier) -> (r: Style)
        ensures
            r == self.with_modifier(m, false),
    {
        self.set_modifier(m, false)
    }

    pub fn has_modifier(self, m: Modifier) -> (r: bool)
        ensures
            r == self.modifier(m),
    {
        match m {
            Modifier::Bold => self.bold,
            Modifier::Dim => self.dim,
            Modifier::Italic => self.italic,
            Modifier::Underlined => self.underlined,
            Modifier::SlowBlink => self.slow_blink,
            Modifier::RapidBlink => self.rapid_blink,
            Modifier::Reversed => self.reversed,
            Modifier::Hidden => self.hidden,
            Modifier::CrossedOut => self.crossed_out,
        }
    }
}

impl Default for Style {
    fn default() -> (r: Style)
        ensures
            r == Style::plain(),
    {
        Style::reset()
    }
}

} // verus!
