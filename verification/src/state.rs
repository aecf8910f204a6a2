//! The set of SGR attributes that is active at one point of the output.

use vstd::prelude::*;
use crate::color::SgrColor;

verus! {

/// The cumulative effect of the SGR parameters seen since the last reset.
///
/// Two states are equal when all their attributes are; the state equal to
/// [`GraphicsModeState::initial`] has no styling active.
#[derive(Debug, Clone, Copy, PartialEq, Eq, Structural)]
pub struct GraphicsModeState {
    pub bold: bool,
    pub italic: bool,
    pub underline: bool,
    pub strikethrough: bool,
    pub color: SgrColor,
    pub background_color: SgrColor,
}

impl GraphicsModeState {
    /// The state with every attribute off and both color slots reset.
    pub open spec fn initial() -> GraphicsModeState {
        GraphicsModeState {
            bold: false,
            italic: false,
            underline: false,
            strikethrough: false,
            color: SgrColor::Reset,
            background_color: SgrColor::Reset,
        }
    }

    /// Both color slots hold well-formed colors.
    pub open spec fn wf(self) -> bool {
        self.color.wf() && self.background_color.wf()
    }
}

impl Default for GraphicsModeState {
    fn default() -> (state: Self)
        ensures
            state == GraphicsModeState::initial(),
            state.wf(),
    {
        GraphicsModeState {
            bold: false,
            italic: false,
            underline: false,
            strikethrough: false,
            color: SgrColor::Reset,
            background_color: SgrColor::Reset,
        }
    }
}

} // verus!
