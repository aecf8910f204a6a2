//! The interpreter of SGR parameter sequences.
//!
//! A parameter sequence is read from left to right. At each position the
//! patterns of the table below are tried in order; the first that matches is
//! applied to the state and the scan goes on behind it. Where none matches,
//! one parameter is dropped. Nothing is ever an error.
//!
//! | parameters  | effect                              |
//! |-------------|-------------------------------------|
//! | `0`         | every attribute off, colors reset   |
//! | `1`         | bold                                |
//! | `3`         | italic                              |
//! | `4`         | underline                           |
//! | `9`         | strikethrough                       |
//! | `30..=37`   | foreground standard color `n - 30`  |
//! | `40..=47`   | background standard color `n - 40`  |
//! | `38 5 n`    | foreground palette color `n`        |
//! | `48 5 n`    | background palette color `n`        |
//! | `38 2 r g b`| foreground 24-bit color             |
//! | `48 2 r g b`| background 24-bit color             |
//! | `39`        | foreground reset                    |
//! | `49`        | background reset                    |

use vstd::prelude::*;
use crate::color::SgrColor;
use crate::state::GraphicsModeState;

verus! {

/// One update of the state, as a recognized pattern asks for it.
#[derive(Debug, Clone, Copy, PartialEq, Eq, Structural)]
pub enum SgrCommand {
    Reset,
    Bold,
    Italic,
    Underline,
    Strikethrough,
    Foreground(SgrColor),
    Background(SgrColor),
}

/// The first pattern of the table that matches at the head of `input`, as
/// the update it asks for and the number of parameters it takes; `None`
/// where no pattern matches there.
pub open spec fn first_match(input: Seq<u8>) -> Option<(SgrCommand, usize)> {
    if input.len() == 0 {
        None
    } else {
        let n = input[0];
        if n == 0 {
            Some((SgrCommand::Reset, 1usize))
        } else if n == 1 {
            Some((SgrCommand::Bold, 1usize))
        } else if n == 3 {
            Some((SgrCommand::Italic, 1usize))
        } else if n == 4 {
            Some((SgrCommand::Underline, 1usize))
        } else if n == 9 {
            Some((SgrCommand::Strikethrough, 1usize))
        } else if 30 <= n <= 37 {
            Some((SgrCommand::Foreground(SgrColor::Console((n - 30) as u8)), 1usize))
        } else if 40 <= n <= 47 {
            Some((SgrCommand::Background(SgrColor::Console((n - 40) as u8)), 1usize))
        } else if n == 38 && input.len() >= 3 && input[1] == 5 {
            Some((SgrCommand::Foreground(SgrColor::ExpandedConsole(input[2])), 3usize))
        } else if n == 48 && input.len() >= 3 && input[1] == 5 {
            Some((SgrCommand::Background(SgrColor::ExpandedConsole(input[2])), 3usize))
        } else if n == 38 && input.len() >= 5 && input[1] == 2 {
            Some((SgrCommand::Foreground(SgrColor::True(input[2], input[3], input[4])), 5usize))
        } else if n == 48 && input.len() >= 5 && input[1] == 2 {
            Some((SgrCommand::Background(SgrColor::True(input[2], input[3], input[4])), 5usize))
        } else if n == 39 {
            Some((SgrCommand::Foreground(SgrColor::Reset), 1usize))
        } else if n == 49 {
            Some((SgrCommand::Background(SgrColor::Reset), 1usize))
        } else {
            None
        }
    }
}

/// The number of parameters that one step of the scan takes from the head of
/// a non-empty `input`: those of the pattern that matches, or one.
pub open spec fn step_len(input: Seq<u8>) -> int {
    match first_match(input) {
        Some((_, len)) => len as int,
        None => 1,
    }
}

/// Finds the first pattern that matches `input` from position `at` on.
pub fn match_at(input: &[u8], at: usize) -> (found: Option<(SgrCommand, usize)>)
    requires
        at <= input@.len(),
    ensures
        found == first_match(input@.skip(at as int)),
        found matches Some((_, len)) ==> 1 <= len && at + len <= input@.len(),
{
    let rest: usize = input.len() - at;
    if rest == 0 {
        return None;
    }
    let n: u8 = input[at];
    if n == 0 {
        Some((SgrCommand::Reset, 1))
    } else if n == 1 {
        Some((SgrCommand::Bold, 1))
    } else if n == 3 {
        Some((SgrCommand::Italic, 1))
    } else if n == 4 {
        Some((SgrCommand::Underline, 1))
    } else if n == 9 {
        Some((SgrCommand::Strikethrough, 1))
    } else if 30 <= n && n <= 37 {
        Some((SgrCommand::Foreground(SgrColor::Console(n - 30)), 1))
    } else if 40 <= n && n <= 47 {
        Some((SgrCommand::Background(SgrColor::Console(n - 40)), 1))
    } else if n == 38 && rest >= 3 && input[at + 1] == 5 {
        Some((SgrCommand::Foreground(SgrColor::ExpandedConsole(input[at + 2])), 3))
    } else if n == 48 && rest >= 3 && input[at + 1] == 5 {
        Some((SgrCommand::Background(SgrColor::ExpandedConsole(input[at + 2])), 3))
    } else if n == 38 && rest >= 5 && input[at + 1] == 2 {
        Some(
            (SgrCommand::Foreground(SgrColor::True(input[at + 2], input[at + 3], input[at + 4])), 5),
        )
    } else if n == 48 && rest >= 5 && input[at + 1] == 2 {
        Some(
            (SgrCommand::Background(SgrColor::True(input[at + 2], input[at + 3], input[at + 4])), 5),
        )
    } else if n == 39 {
        Some((SgrCommand::Foreground(SgrColor::Reset), 1))
    } else if n == 49 {
        Some((SgrCommand::Background(SgrColor::Reset), 1))
    } else {
        None
    }
}

impl GraphicsModeState {
    /// The state after one update.
    pub open spec fn updated(self, command: SgrCommand) -> GraphicsModeState {
        match command {
            SgrCommand::Reset => GraphicsModeState::initial(),
            SgrCommand::Bold => GraphicsModeState { bold: true, ..self },
            SgrCommand::Italic => GraphicsModeState { italic: true, ..self },
            SgrCommand::Underline => GraphicsModeState { underline: true, ..self },
            SgrCommand::Strikethrough => GraphicsModeState { strikethrough: true, ..self },
            SgrCommand::Foreground(color) => GraphicsModeState { color: color, ..self },
            SgrCommand::Background(color) => GraphicsModeState { background_color: color, ..self },
        }
    }

    /// The state after the whole of `input` has been scanned.
    pub open spec fn scanned(self, input: Seq<u8>) -> GraphicsModeState
        decreases input.len(),
    {
        if input.len() == 0 {
            self
        } else {
            match first_match(input) {
                Some((command, len)) => self.updated(command).scanned(input.skip(len as int)),
                None => self.scanned(input.skip(1)),
            }
        }
    }

    /// Applies one update to the state.
    pub fn apply(&self, command: SgrCommand) -> (next: Self)
        ensures
            next == self.updated(command),
    {
        let mut next = *self;
        match command {
            SgrCommand::Reset => {
                next = GraphicsModeState::default();
            },
            SgrCommand::Bold => {
                next.bold = true;
            },
            SgrCommand::Italic => {
                next.italic = true;
            },
            SgrCommand::Underline => {
                next.underline = true;
            },
            SgrCommand::Strikethrough => {
                next.strikethrough = true;
            },
            SgrCommand::Foreground(color) => {
                next.color = color;
            },
            SgrCommand::Background(color) => {
                next.background_color = color;
            },
        }
        next
    }

    /// Applies the SGR parameters `input` to the state and returns the state
    /// that results; `self` is left as it was. Parameters that no pattern
    /// recognizes are dropped one by one, so every input gives a state.
    pub fn clone_from_scan(&self, input: &[u8]) -> (next: Self)
        ensures
            next == self.scanned(input@),
            self.wf() ==> next.wf(),
    {
        let mut state = *self;
        let mut at: usize = 0;
        assert(input@.skip(0) =~= input@);
        while at < input.len()
            invariant
                at <= input@.len(),
                state.scanned(input@.skip(at as int)) == self.scanned(input@),
                self.wf() ==> state.wf(),
            decreases input@.len() - at,
        {
            let ghost rest = input@.skip(at as int);
            match match_at(input, at) {
                Some((command, len)) => {
                    assert(rest.skip(len as int) =~= input@.skip(at + len));
                    state = state.apply(command);
                    at += len;
                },
                None => {
                    assert(rest.skip(1) =~= input@.skip(at + 1));
                    at += 1;
                },
            }
        }
        state
    }
}

/// Whether some pattern of the table begins with the parameter `n`.
pub open spec fn starts_pattern(n: u8) -> bool {
    n == 0 || n == 1 || n == 3 || n == 4 || n == 9 || 30 <= n <= 37 || 40 <= n <= 47 || n == 38
        || n == 48 || n == 39 || n == 49
}

/// Whether `input` begins a color pattern and ends before the pattern does:
/// `38` or `48` alone, with `5` but no index, or with `2` but fewer than
/// three channels. Only such an input is read differently once more
/// parameters follow it.
pub open spec fn is_cut_short(input: Seq<u8>) -> bool {
    input.len() >= 1 && (input[0] == 38 || input[0] == 48) && (input.len() == 1 || (input[1] == 5
        && input.len() < 3) || (input[1] == 2 && input.len() < 5))
}

/// Whether the scan of `input` comes to its end without a color pattern cut
/// short there, so that what follows `input` is scanned from a fresh
/// position.
pub open spec fn ends_whole(input: Seq<u8>) -> bool
    decreases input.len(),
{
    input.len() == 0 || (!is_cut_short(input) && ends_whole(input.skip(step_len(input))))
}

/// Reset is total: from any state, the parameter `0` gives the initial
/// state.
pub proof fn lemma_reset_is_total(state: GraphicsModeState)
    ensures
        state.scanned(seq![0u8]) == GraphicsModeState::initial(),
{
    let input = seq![0u8];
    assert(first_match(input) == Some((SgrCommand::Reset, 1usize)));
    assert(input.skip(1).len() == 0);
    assert(state.scanned(input) == state.updated(SgrCommand::Reset).scanned(input.skip(1)));
}

/// Every state that a scan gives keeps the colors well-formed.
pub proof fn lemma_scan_keeps_wf(state: GraphicsModeState, input: Seq<u8>)
    requires
        state.wf(),
    ensures
        state.scanned(input).wf(),
    decreases input.len(),
{
    if input.len() > 0 {
        match first_match(input) {
            Some((command, len)) => {
                lemma_scan_keeps_wf(state.updated(command), input.skip(len as int));
            },
            None => {
                lemma_scan_keeps_wf(state, input.skip(1));
            },
        }
    }
}

/// A scan can be split: where the scan of `first` ends whole, scanning
/// `first` and `second` in one sequence gives the state that scanning
/// `first` and then `second` gives.
pub proof fn lemma_scan_of_joined(state: GraphicsModeState, first: Seq<u8>, second: Seq<u8>)
    requires
        ends_whole(first),
    ensures
        state.scanned(first + second) == state.scanned(first).scanned(second),
    decreases first.len(),
{
    if first.len() == 0 {
        assert(first + second =~= second);
    } else {
        let joined = first + second;
        let len = step_len(first);
        assert(joined[0] == first[0]);
        assert(first.len() >= 2 ==> joined[1] == first[1]);
        assert(first.len() >= 3 ==> joined[2] == first[2]);
        assert(first.len() >= 5 ==> joined[3] == first[3] && joined[4] == first[4]);
        assert(first_match(joined) == first_match(first));
        assert(joined.skip(len) =~= first.skip(len) + second);
        match first_match(first) {
            Some((command, _)) => {
                lemma_scan_of_joined(state.updated(command), first.skip(len), second);
            },
            None => {
                lemma_scan_of_joined(state, first.skip(len), second);
            },
        }
    }
}

/// A parameter that no pattern begins with is dropped: the scan goes on
/// behind it with the state unchanged.
pub proof fn lemma_unrecognized_is_dropped(state: GraphicsModeState, n: u8, rest: Seq<u8>)
    requires
        !starts_pattern(n),
    ensures
        state.scanned(seq![n] + rest) == state.scanned(rest),
{
    let input = seq![n] + rest;
    assert(input[0] == n);
    assert(first_match(input) is None);
    assert(input.skip(1) =~= rest);
}

/// Unknown parameters are tolerated. A parameter that no pattern begins
/// with, standing where the scan of what precedes it ends whole, changes
/// nothing: the sequence with it gives the state that the sequence without
/// it gives, so every recognized parameter before and behind it is applied
/// as if it were not there.
pub proof fn lemma_unknown_parameter_is_tolerated(
    state: GraphicsModeState,
    before: Seq<u8>,
    n: u8,
    behind: Seq<u8>,
)
    requires
        ends_whole(before),
        !starts_pattern(n),
    ensures
        state.scanned(before + seq![n] + behind) == state.scanned(before + behind),
        state.scanned(before + seq![n] + behind) == state.scanned(before).scanned(behind),
{
    assert(before + seq![n] + behind =~= before + (seq![n] + behind));
    lemma_scan_of_joined(state, before, seq![n] + behind);
    lemma_unrecognized_is_dropped(state.scanned(before), n, behind);
    lemma_scan_of_joined(state, before, behind);
}

} // verus!
