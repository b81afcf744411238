//! The cells of a pane.
use rmux::names::{PaneTarget, ProtoError, SessionName};
use rmux::protocol::Response;
use rmux::response::{PaneSnapshotCell, PaneSnapshotCursor};
use rmux::size::TerminalSize;
use rmux::snapshot::{
    blank_cell, collect_cells, compute_revision, cursor_coord_to_u16, handle_pane_snapshot,
    Screen, Transcript, MODE_CURSOR,
};
use rmux::state::HandlerState;

fn screen_with_size(cols: u16, rows: u16) -> Screen {
    Screen::new(TerminalSize { cols, rows })
}

fn snapshot_cursor(row: u16, col: u16) -> PaneSnapshotCursor {
    PaneSnapshotCursor {
        row,
        col,
        visible: true,
        style: 0,
    }
}

fn cell(text: &str, width: u8, padding: bool) -> PaneSnapshotCell {
    PaneSnapshotCell {
        text: text.to_owned(),
        width,
        padding,
        ..blank_cell()
    }
}

fn baseline_cell() -> PaneSnapshotCell {
    PaneSnapshotCell {
        text: "x".to_owned(),
        width: 1,
        padding: false,
        attributes: 0,
        fg: 8,
        bg: 8,
        us: 8,
        link: 0,
    }
}

#[test]
fn cursor_coord_to_u16_clamps_extreme_values() {
    assert_eq!(cursor_coord_to_u16(0), 0);
    assert_eq!(cursor_coord_to_u16(80), 80);
    assert_eq!(cursor_coord_to_u16(u16::MAX as u32), u16::MAX);
    assert_eq!(cursor_coord_to_u16(u16::MAX as u32 + 1), u16::MAX);
    assert_eq!(cursor_coord_to_u16(u32::MAX), u16::MAX);
}

#[test]
fn collect_cells_returns_empty_vec_when_either_dim_is_zero() {
    let screen = screen_with_size(0, 4);
    let cells = collect_cells(&screen, 0, 4, 0).expect("zero cols ok");
    assert!(cells.is_empty());

    let screen = screen_with_size(4, 0);
    let cells = collect_cells(&screen, 4, 0, 0).expect("zero rows ok");
    assert!(cells.is_empty());
}

#[test]
fn collect_cells_pads_short_rows_to_exactly_cols_blank_cells() {
    let screen = screen_with_size(4, 2);
    let cells = collect_cells(&screen, 4, 2, 0).expect("collect ok");
    assert_eq!(cells.len(), 8);
    for cell in &cells {
        assert!(!cell.padding);
        assert_eq!(cell.width, 1);
    }
}

#[test]
fn collect_cells_preserves_padding_metadata_for_wide_cells() {
    let mut screen = screen_with_size(4, 1);
    screen.lines[0] = vec![cell("界", 2, false), cell("", 0, true), cell("x", 1, false), blank_cell()];
    let cells = collect_cells(&screen, 4, 1, 0).expect("collect ok");
    assert_eq!(cells.len(), 4);
    assert!(!cells[0].padding);
    assert_eq!(cells[0].text, "界");
    assert_eq!(cells[0].width, 2);
    assert!(cells[1].padding);
    assert_eq!(cells[1].width, 0);
    assert!(!cells[2].padding);
    assert_eq!(cells[2].text, "x");
}

fn line(text: &str) -> Vec<PaneSnapshotCell> {
    text.chars().map(|c| cell(&c.to_string(), 1, false)).collect()
}

#[test]
fn collect_cells_skips_history_offset_and_returns_visible_rows() {
    let mut screen = screen_with_size(4, 2);
    screen.lines = vec![line("abcd"), line("efgh")];
    let cells = collect_cells(&screen, 4, 2, 0).expect("collect ok");
    assert_eq!(cells.len(), 8);
    let row0_text: String = cells[0..4].iter().map(|c| c.text.as_str()).collect();
    let row1_text: String = cells[4..8].iter().map(|c| c.text.as_str()).collect();
    assert_eq!(row0_text, "abcd");
    assert_eq!(row1_text, "efgh");
}

#[test]
fn compute_revision_is_never_zero_for_default_inputs() {
    let cursor = snapshot_cursor(0, 0);
    let revision = compute_revision(0, 0, &vec![], &cursor, 0, 0, 0, 0);
    assert_ne!(revision, 0);
}

#[test]
fn compute_revision_changes_with_each_observable_field() {
    let cursor = snapshot_cursor(0, 0);
    let none: Vec<PaneSnapshotCell> = Vec::new();
    let baseline = compute_revision(80, 24, &none, &cursor, 0, 0, 0, 1);

    assert_ne!(baseline, compute_revision(81, 24, &none, &cursor, 0, 0, 0, 1));
    assert_ne!(baseline, compute_revision(80, 25, &none, &cursor, 0, 0, 0, 1));
    assert_ne!(baseline, compute_revision(80, 24, &none, &cursor, 1, 0, 0, 1));
    assert_ne!(baseline, compute_revision(80, 24, &none, &cursor, 0, 1, 0, 1));
    assert_ne!(baseline, compute_revision(80, 24, &none, &cursor, 0, 0, 1, 1));
    assert_ne!(baseline, compute_revision(80, 24, &none, &cursor, 0, 0, 0, 2));
    assert_ne!(
        baseline,
        compute_revision(80, 24, &none, &snapshot_cursor(1, 0), 0, 0, 0, 1)
    );
    assert_ne!(
        baseline,
        compute_revision(80, 24, &vec![baseline_cell()], &cursor, 0, 0, 0, 1)
    );
}

#[test]
fn compute_revision_is_stable_for_identical_inputs() {
    let cursor = snapshot_cursor(2, 5);
    let cells = vec![baseline_cell(), baseline_cell(), baseline_cell(), baseline_cell()];
    let a = compute_revision(80, 24, &cells, &cursor, 7, 1, 100, 9);
    let b = compute_revision(80, 24, &cells, &cursor, 7, 1, 100, 9);
    assert_eq!(a, b);
}

#[test]
fn lines_above_the_screen_are_not_captured() {
    let mut screen = screen_with_size(2, 1);
    screen.lines = vec![line("ab"), line("cd")];
    let cells = collect_cells(&screen, 2, 1, 1).expect("collect ok");
    let text: String = cells.iter().map(|c| c.text.as_str()).collect();
    assert_eq!(text, "cd");
}

#[test]
fn short_lines_are_filled_up_and_long_ones_cut() {
    let mut screen = screen_with_size(3, 2);
    screen.lines = vec![line("a"), line("bcdef")];
    let cells = collect_cells(&screen, 3, 2, 0).expect("collect ok");
    let text: String = cells.iter().map(|c| c.text.as_str()).collect();
    assert_eq!(cells.len(), 6);
    assert_eq!(text, "a  bcd");
}

#[test]
fn a_snapshot_of_an_unknown_pane_is_refused() {
    let state = HandlerState::new();
    let target = PaneTarget::with_window(SessionName::new("alpha"), 0, 0);
    let transcript = Transcript {
        screen: screen_with_size(2, 1),
        output_sequence: 0,
    };
    let response = handle_pane_snapshot(&state, &target, Ok(transcript));
    match response {
        Response::Error(answer) => {
            assert_eq!(answer.error, ProtoError::SessionNotFound("alpha".to_owned()));
        }
        other => panic!("expected an error, got {other:?}"),
    }
    assert_eq!(MODE_CURSOR, 1);
}
