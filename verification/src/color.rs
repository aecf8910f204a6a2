//! Colors that SGR parameters select, and the CSS values that stand for them.

use vstd::prelude::*;
use vstd::string::*;
use crate::decimal::{append_decimal, decimal};

verus! {

/// The color of one slot, foreground or background.
///
/// `Reset` means that the slot carries no color of its own, so nothing is
/// rendered for it.
#[derive(Debug, Clone, Copy, PartialEq, Eq, Structural)]
pub enum SgrColor {
    /// No color override.
    Reset,
    /// One of the eight standard terminal colors, `0..=7`.
    Console(u8),
    /// An index into the extended palette of 256 colors.
    ExpandedConsole(u8),
    /// A 24-bit color: red, green, blue.
    True(u8, u8, u8),
}

/// The name of the standard terminal color `n`; empty beyond the eight colors.
pub open spec fn color_name(n: u8) -> Seq<char> {
    if n == 0 {
        "black"@
    } else if n == 1 {
        "red"@
    } else if n == 2 {
        "green"@
    } else if n == 3 {
        "yellow"@
    } else if n == 4 {
        "blue"@
    } else if n == 5 {
        "purple"@
    } else if n == 6 {
        "cyan"@
    } else if n == 7 {
        "gray"@
    } else {
        ""@
    }
}

/// The literal that holds the name of the standard terminal color `n`.
pub fn color_name_str(n: u8) -> (name: &'static str)
    ensures
        name@ == color_name(n),
{
    if n == 0 {
        "black"
    } else if n == 1 {
        "red"
    } else if n == 2 {
        "green"
    } else if n == 3 {
        "yellow"
    } else if n == 4 {
        "blue"
    } else if n == 5 {
        "purple"
    } else if n == 6 {
        "cyan"
    } else if n == 7 {
        "gray"
    } else {
        ""
    }
}

impl SgrColor {
    /// A standard color names one of the eight entries of the color table.
    pub open spec fn wf(self) -> bool {
        self matches SgrColor::Console(n) ==> n <= 7
    }

    /// Whether the slot renders a tag: every color but `Reset` does, a
    /// standard color only if it is one of the eight.
    pub open spec fn is_active(self) -> bool {
        match self {
            SgrColor::Reset => false,
            SgrColor::Console(n) => n <= 7,
            SgrColor::ExpandedConsole(_) => true,
            SgrColor::True(_, _, _) => true,
        }
    }

    /// The CSS value of an active color: a custom property named after the
    /// standard color, a custom property numbered by the palette index, or a
    /// literal `rgb(..)` triple.
    pub open spec fn css_value(self) -> Seq<char> {
        match self {
            SgrColor::Reset => Seq::empty(),
            SgrColor::Console(n) => "var(--color-"@ + color_name(n) + ")"@,
            SgrColor::ExpandedConsole(n) => "var(--terminal-color-"@ + decimal(n as nat) + ")"@,
            SgrColor::True(r, g, b) => "rgb("@ + decimal(r as nat) + ", "@ + decimal(g as nat)
                + ", "@ + decimal(b as nat) + ")"@,
        }
    }

    /// Tells whether the slot renders a tag.
    pub fn active(&self) -> (active: bool)
        ensures
            active == self.is_active(),
    {
        match *self {
            SgrColor::Reset => false,
            SgrColor::Console(n) => n <= 7,
            SgrColor::ExpandedConsole(_) => true,
            SgrColor::True(_, _, _) => true,
        }
    }

    /// Appends the CSS value of the color to `out`.
    pub fn append_css_value(&self, out: &mut String)
        ensures
            final(out)@ == old(out)@ + self.css_value(),
    {
        match *self {
            SgrColor::Reset => {},
            SgrColor::Console(n) => {
                out.append("var(--color-");
                out.append(color_name_str(n));
                out.append(")");
            },
            SgrColor::ExpandedConsole(n) => {
                out.append("var(--terminal-color-");
                append_decimal(out, n);
                out.append(")");
            },
            SgrColor::True(r, g, b) => {
                out.append("rgb(");
                append_decimal(out, r);
                out.append(", ");
                append_decimal(out, g);
                out.append(", ");
                append_decimal(out, b);
                out.append(")");
            },
        }
        assert(out@ =~= old(out)@ + self.css_value());
    }
}

impl Default for SgrColor {
    fn default() -> (color: Self)
        ensures
            color == SgrColor::Reset,
    {
        SgrColor::Reset
    }
}

} // verus!
