//! Sequences that go straight to the terminal.
use rmux::passthrough::{
    append_cursor_position, render_passthroughs, OpenAttachTarget, PaneGeometry,
    TerminalPassthrough,
};

fn target(kitty_graphics_passthrough: bool) -> OpenAttachTarget {
    OpenAttachTarget {
        active_pane_geometry: PaneGeometry::new(5, 6, 80, 24),
        kitty_graphics_passthrough,
    }
}

#[test]
fn cursor_position_is_absolute_and_one_based() {
    let mut frame = Vec::new();
    append_cursor_position(
        &mut frame,
        PaneGeometry::new(10, 4, 80, 24),
        &TerminalPassthrough::kitty_graphics(2, 3, b"Gf=100;AAAA".to_vec()),
    );
    assert_eq!(frame, b"\x1b[8;13H");
}

#[test]
fn render_passthroughs_wraps_kitty_apc_at_pane_cursor() {
    let frame = render_passthroughs(
        &target(true),
        &vec![TerminalPassthrough::kitty_graphics(
            1,
            2,
            b"Gf=100;AAAA".to_vec(),
        )],
    );
    assert_eq!(frame, b"\x1b[9;7H\x1b_Gf=100;AAAA\x1b\\");
}

#[test]
fn render_passthroughs_forwards_raw_queries_without_cursor_wrap() {
    let frame = render_passthroughs(
        &target(true),
        &vec![TerminalPassthrough::raw(0, 0, b"\x1b[c".to_vec())],
    );
    assert_eq!(frame, b"\x1b[c");
}

#[test]
fn a_terminal_without_graphics_gets_nothing() {
    let sequences = vec![TerminalPassthrough::raw(0, 0, b"\x1b[c".to_vec())];
    assert!(render_passthroughs(&target(false), &sequences).is_empty());
}

#[test]
fn sequences_keep_their_order() {
    let frame = render_passthroughs(
        &target(true),
        &vec![
            TerminalPassthrough::raw(0, 0, b"one".to_vec()),
            TerminalPassthrough::kitty_graphics(0, 0, b"Ga".to_vec()),
        ],
    );
    assert_eq!(frame, b"one\x1b[7;6H\x1b_Ga\x1b\\");
}

#[test]
fn a_cursor_far_away_stays_countable() {
    let mut frame = Vec::new();
    append_cursor_position(
        &mut frame,
        PaneGeometry::new(1, 1, 80, 24),
        &TerminalPassthrough::raw(u32::MAX, u32::MAX, Vec::new()),
    );
    assert_eq!(frame, b"\x1b[4294967295;4294967295H");
}
