//! Laws of captures.
use vstd::prelude::*;

use crate::names::{ErrorView, PaneSpot};
use crate::snapshot::{law_capture_is_rectangular, CellView, Transcript};
use crate::state::StateView;
use crate::text;

verus! {

/// The cell of a capture at a row and a column is that of the line which stands so
/// many lines behind the history of the screen, at that column. Where the screen has
/// no such cell it is a space, one column wide, in the colours of the terminal.
pub proof fn law_capture_shows_what_follows_the_history(
    transcript: Transcript,
    pane_id: u32,
    row: int,
    col: int,
)
    requires
        0 <= row < transcript.screen.size.rows,
        0 <= col < transcript.screen.size.cols,
    ensures
        ({
            let screen = transcript.screen;
            let cells = transcript.observed(pane_id).cells;
            let at = screen.history_size + row;
            let cell = cells[row * screen.size.cols + col];
            &&& 0 <= row * screen.size.cols + col < cells.len()
            &&& (at < screen.lines@.len() && col < screen.lines@[at]@.len()) ==> {
                let there = screen.lines@[at]@[col];
                &&& cell.text == there.text@
                &&& cell.width == there.width
                &&& cell.padding == there.padding
                &&& cell.attributes == there.attributes
                &&& cell.fg == there.fg
                &&& cell.bg == there.bg
                &&& cell.us == there.us
                &&& cell.link == there.link
            }
            &&& !(at < screen.lines@.len() && col < screen.lines@[at]@.len()) ==> cell == (
            CellView {
                text: " "@,
                width: 1,
                padding: false,
                attributes: 0,
                fg: 8,
                bg: 8,
                us: 8,
                link: 0,
            })
        }),
{
    let screen = transcript.screen;
    let rows = screen.size.rows as nat;
    let cols = screen.size.cols as nat;
    law_capture_is_rectangular(screen, screen.history_size as int, rows, cols);
    assert(screen.shown(screen.history_size as int, row, col) == screen.shown_rows(
        screen.history_size as int,
        rows,
        cols,
    )[row * cols + col]);
    assert(0 <= row * cols + col < rows * cols) by (nonlinear_arith)
        requires
            0 <= row < rows,
            0 <= col < cols,
    ;
}

/// A capture tells the size of the screen, the history, the amount of output and the
/// identity of the pane, and its cursor is that of the screen, cut down to the
/// greatest coordinate there is.
pub proof fn law_capture_tells_the_screen(transcript: Transcript, pane_id: u32)
    ensures
        ({
            let screen = transcript.screen;
            let seen = transcript.observed(pane_id);
            &&& seen.cols == screen.size.cols
            &&& seen.rows == screen.size.rows
            &&& seen.cells.len() == screen.size.rows * screen.size.cols
            &&& seen.output_sequence == transcript.output_sequence
            &&& seen.history_size == screen.history_size as u64
            &&& seen.history_bytes == screen.history_bytes as u64
            &&& seen.pane_id == pane_id
            &&& seen.cursor == transcript.cursor()
            &&& seen.cursor.style == screen.cursor_style
            &&& seen.cursor.visible == (screen.mode & 1 != 0)
            &&& screen.cursor_x <= 65535 ==> seen.cursor.col == screen.cursor_x
            &&& screen.cursor_x > 65535 ==> seen.cursor.col == 65535
            &&& screen.cursor_y <= 65535 ==> seen.cursor.row == screen.cursor_y
            &&& screen.cursor_y > 65535 ==> seen.cursor.row == 65535
        }),
{
    law_capture_is_rectangular(
        transcript.screen,
        transcript.screen.history_size as int,
        transcript.screen.size.rows as nat,
        transcript.screen.size.cols as nat,
    );
}

/// The pane of a place is the first of its window with that index; and why there is
/// none.
pub proof fn law_pane_of_a_place(state: StateView, spot: PaneSpot, i: int)
    ensures
        ({
            let (name, window, index) = spot;
            let panes = state.sessions[name].windows[window].panes;
            let found = state.pane_id(spot);
            if !state.sessions.contains_key(name) {
                found == Err::<u32, ErrorView>(ErrorView::SessionNotFound(name))
            } else if !state.sessions[name].windows.contains_key(window) {
                found == Err::<u32, ErrorView>(
                    ErrorView::InvalidTarget(
                        name + ":"@ + text::decimal(window as nat),
                        "window index does not exist in session"@,
                    ),
                )
            } else if 0 <= i < panes.len() && panes[i].index == index && forall|j: int|
                0 <= j < i ==> (#[trigger] panes[j]).index != index {
                found == Ok::<u32, ErrorView>(panes[i].id)
            } else if forall|j: int|
                0 <= j < panes.len() ==> (#[trigger] panes[j]).index != index {
                found == Err::<u32, ErrorView>(
                    ErrorView::InvalidTarget(
                        name + ":"@ + text::decimal(window as nat) + "."@ + text::decimal(
                            index as nat,
                        ),
                        "pane index does not exist in session"@,
                    ),
                )
            } else {
                true
            }
        }),
{
    let (name, window, index) = spot;
    let panes = state.sessions[name].windows[window].panes;
    if crate::snapshot::is_pane_at(panes, index, i) {
        let k = choose|k: int| crate::snapshot::is_pane_at(panes, index, k);
        assert(crate::snapshot::is_pane_at(panes, index, k));
        if k < i {
            assert(panes[k].index != index);
        } else if i < k {
            assert(panes[i].index != index);
        }
    }
}

} // verus!
