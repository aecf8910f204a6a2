use umbrella::color::SgrColor;
use umbrella::scan::{match_at, SgrCommand};
use umbrella::state::GraphicsModeState;

fn styled() -> GraphicsModeState {
    GraphicsModeState {
        bold: true,
        italic: true,
        underline: true,
        strikethrough: true,
        color: SgrColor::True(1, 2, 3),
        background_color: SgrColor::ExpandedConsole(200),
    }
}

#[test]
fn default_state_has_nothing_active() {
    let state = GraphicsModeState::default();
    assert!(!state.bold);
    assert!(!state.italic);
    assert!(!state.underline);
    assert!(!state.strikethrough);
    assert_eq!(state.color, SgrColor::Reset);
    assert_eq!(state.background_color, SgrColor::Reset);
    assert_eq!(SgrColor::default(), SgrColor::Reset);
}

#[test]
fn empty_input_keeps_the_state() {
    assert_eq!(styled().clone_from_scan(&[]), styled());
    assert_eq!(
        GraphicsModeState::default().clone_from_scan(&[]),
        GraphicsModeState::default()
    );
}

#[test]
fn scan_leaves_the_receiver_alone() {
    let state = GraphicsModeState::default();
    let next = state.clone_from_scan(&[1]);
    assert!(next.bold);
    assert_eq!(state, GraphicsModeState::default());
}

#[test]
fn single_attributes_are_set() {
    let start = GraphicsModeState::default();
    assert_eq!(
        start.clone_from_scan(&[1]),
        GraphicsModeState { bold: true, ..start }
    );
    assert_eq!(
        start.clone_from_scan(&[3]),
        GraphicsModeState { italic: true, ..start }
    );
    assert_eq!(
        start.clone_from_scan(&[4]),
        GraphicsModeState { underline: true, ..start }
    );
    assert_eq!(
        start.clone_from_scan(&[9]),
        GraphicsModeState { strikethrough: true, ..start }
    );
}

#[test]
fn attributes_accumulate() {
    let start = GraphicsModeState::default();
    let next = start.clone_from_scan(&[1, 3]).clone_from_scan(&[4]);
    assert_eq!(
        next,
        GraphicsModeState { bold: true, italic: true, underline: true, ..start }
    );
}

#[test]
fn standard_foreground_colors() {
    let start = GraphicsModeState::default();
    for n in 30u8..=37 {
        assert_eq!(
            start.clone_from_scan(&[n]),
            GraphicsModeState { color: SgrColor::Console(n - 30), ..start }
        );
    }
}

#[test]
fn standard_background_colors() {
    let start = GraphicsModeState::default();
    for n in 40u8..=47 {
        assert_eq!(
            start.clone_from_scan(&[n]),
            GraphicsModeState { background_color: SgrColor::Console(n - 40), ..start }
        );
    }
}

#[test]
fn palette_colors() {
    let start = GraphicsModeState::default();
    assert_eq!(
        start.clone_from_scan(&[38, 5, 208]),
        GraphicsModeState { color: SgrColor::ExpandedConsole(208), ..start }
    );
    assert_eq!(
        start.clone_from_scan(&[48, 5, 0]),
        GraphicsModeState { background_color: SgrColor::ExpandedConsole(0), ..start }
    );
}

#[test]
fn true_colors() {
    let start = GraphicsModeState::default();
    assert_eq!(
        start.clone_from_scan(&[38, 2, 10, 20, 30]),
        GraphicsModeState { color: SgrColor::True(10, 20, 30), ..start }
    );
    assert_eq!(
        start.clone_from_scan(&[48, 2, 255, 0, 128]),
        GraphicsModeState { background_color: SgrColor::True(255, 0, 128), ..start }
    );
}

#[test]
fn color_slots_reset_separately() {
    let state = styled();
    assert_eq!(
        state.clone_from_scan(&[39]),
        GraphicsModeState { color: SgrColor::Reset, ..state }
    );
    assert_eq!(
        state.clone_from_scan(&[49]),
        GraphicsModeState { background_color: SgrColor::Reset, ..state }
    );
}

#[test]
fn reset_gives_the_default_state_from_any_state() {
    let default = GraphicsModeState::default();
    assert_eq!(styled().clone_from_scan(&[0]), default);
    assert_eq!(default.clone_from_scan(&[0]), default);
    let colored = GraphicsModeState { color: SgrColor::Console(3), ..default };
    assert_eq!(colored.clone_from_scan(&[0]), default);
    let odd = GraphicsModeState { background_color: SgrColor::Console(200), bold: true, ..default };
    assert_eq!(odd.clone_from_scan(&[0]), default);
}

#[test]
fn reset_in_the_middle_drops_what_came_before() {
    let start = GraphicsModeState::default();
    assert_eq!(
        start.clone_from_scan(&[1, 31, 0, 4]),
        GraphicsModeState { underline: true, ..start }
    );
}

#[test]
fn unknown_parameters_are_skipped() {
    let start = GraphicsModeState::default();
    let expected = GraphicsModeState { bold: true, underline: true, ..start };
    assert_eq!(start.clone_from_scan(&[1, 7, 4]), expected);
    assert_eq!(start.clone_from_scan(&[7, 1, 4]), expected);
    assert_eq!(start.clone_from_scan(&[1, 4, 7]), expected);
    assert_eq!(start.clone_from_scan(&[1, 4]), expected);
    assert_eq!(start.clone_from_scan(&[5, 2, 7, 8, 255]), start);
}

#[test]
fn unknown_parameter_behind_a_whole_color_pattern() {
    let start = GraphicsModeState::default();
    let expected = GraphicsModeState {
        color: SgrColor::ExpandedConsole(9),
        italic: true,
        ..start
    };
    assert_eq!(start.clone_from_scan(&[38, 5, 9, 7, 3]), expected);
    assert_eq!(start.clone_from_scan(&[38, 5, 9, 3]), expected);
}

#[test]
fn color_arguments_are_not_read_as_codes() {
    let start = GraphicsModeState::default();
    assert_eq!(
        start.clone_from_scan(&[38, 5, 1]),
        GraphicsModeState { color: SgrColor::ExpandedConsole(1), ..start }
    );
    assert_eq!(
        start.clone_from_scan(&[48, 2, 0, 1, 3]),
        GraphicsModeState { background_color: SgrColor::True(0, 1, 3), ..start }
    );
}

#[test]
fn cut_short_color_patterns_are_dropped_one_by_one() {
    let start = GraphicsModeState::default();
    assert_eq!(start.clone_from_scan(&[38]), start);
    assert_eq!(start.clone_from_scan(&[38, 5]), start);
    assert_eq!(start.clone_from_scan(&[48, 5]), start);
    assert_eq!(
        start.clone_from_scan(&[38, 2, 1]),
        GraphicsModeState { bold: true, ..start }
    );
    assert_eq!(
        start.clone_from_scan(&[48, 2, 9, 3]),
        GraphicsModeState { strikethrough: true, italic: true, ..start }
    );
    assert_eq!(
        start.clone_from_scan(&[38, 7, 4]),
        GraphicsModeState { underline: true, ..start }
    );
}

#[test]
fn an_unknown_parameter_behind_a_cut_short_pattern_completes_it() {
    let start = GraphicsModeState::default();
    assert_eq!(
        start.clone_from_scan(&[1, 38, 5]),
        GraphicsModeState { bold: true, ..start }
    );
    assert_eq!(
        start.clone_from_scan(&[1, 38, 5, 7]),
        GraphicsModeState { bold: true, color: SgrColor::ExpandedConsole(7), ..start }
    );
}

#[test]
fn later_parameters_override_earlier_ones() {
    let start = GraphicsModeState::default();
    assert_eq!(
        start.clone_from_scan(&[31, 32, 38, 5, 7, 34]),
        GraphicsModeState { color: SgrColor::Console(4), ..start }
    );
}

#[test]
fn match_at_reports_command_and_length() {
    let input = [7u8, 38, 5, 12, 48, 2, 1, 2, 3, 45, 38, 2, 1];
    assert_eq!(match_at(&input, 0), None);
    assert_eq!(
        match_at(&input, 1),
        Some((SgrCommand::Foreground(SgrColor::ExpandedConsole(12)), 3))
    );
    assert_eq!(
        match_at(&input, 4),
        Some((SgrCommand::Background(SgrColor::True(1, 2, 3)), 5))
    );
    assert_eq!(
        match_at(&input, 9),
        Some((SgrCommand::Background(SgrColor::Console(5)), 1))
    );
    assert_eq!(match_at(&input, 10), None);
    assert_eq!(match_at(&input, 12), Some((SgrCommand::Bold, 1)));
    assert_eq!(match_at(&input, 13), None);
}

#[test]
fn apply_performs_one_update() {
    let state = styled();
    assert_eq!(state.apply(SgrCommand::Reset), GraphicsModeState::default());
    assert_eq!(state.apply(SgrCommand::Bold), state);
    let start = GraphicsModeState::default();
    assert_eq!(
        start.apply(SgrCommand::Italic),
        GraphicsModeState { italic: true, ..start }
    );
    assert_eq!(
        start.apply(SgrCommand::Underline),
        GraphicsModeState { underline: true, ..start }
    );
    assert_eq!(
        start.apply(SgrCommand::Strikethrough),
        GraphicsModeState { strikethrough: true, ..start }
    );
    assert_eq!(
        start.apply(SgrCommand::Foreground(SgrColor::Console(2))),
        GraphicsModeState { color: SgrColor::Console(2), ..start }
    );
    assert_eq!(
        start.apply(SgrCommand::Background(SgrColor::True(9, 8, 7))),
        GraphicsModeState { background_color: SgrColor::True(9, 8, 7), ..start }
    );
}
