//! Terminal sizes.
use vstd::prelude::*;

verus! {

/// A terminal geometry request.
#[derive(Debug, Clone, Copy, PartialEq, Eq, Hash, Structural)]
pub struct TerminalSize {
    /// The requested column count.
    pub cols: u16,
    /// The requested row count.
    pub rows: u16,
}

impl Default for TerminalSize {
    fn default() -> (r: Self)
        ensures
            r == (TerminalSize { cols: 0, rows: 0 }),
    {
        TerminalSize { cols: 0, rows: 0 }
    }
}

impl TerminalSize {
    /// The size with these column and row counts.
    pub fn new(cols: u16, rows: u16) -> (r: TerminalSize)
        ensures
            r == (TerminalSize { cols, rows }),
    {
        TerminalSize { cols, rows }
    }
}

/// A window size as the kernel keeps it.
#[derive(Debug, Clone, Copy, PartialEq, Eq, Structural)]
pub struct Winsize {
    /// The number of rows.
    pub ws_row: u16,
    /// The number of columns.
    pub ws_col: u16,
    /// The width in pixels.
    pub ws_xpixel: u16,
    /// The height in pixels.
    pub ws_ypixel: u16,
}

/// The window size for a terminal size, without pixels.
pub fn into_winsize(size: TerminalSize) -> (r: Winsize)
    ensures
        r == spec_winsize(size),
        spec_size(r) == size,
{
    Winsize { ws_row: size.rows, ws_col: size.cols, ws_xpixel: 0, ws_ypixel: 0 }
}

/// The window size for a terminal size, without pixels.
pub open spec fn spec_winsize(size: TerminalSize) -> Winsize {
    Winsize { ws_row: size.rows, ws_col: size.cols, ws_xpixel: 0, ws_ypixel: 0 }
}

/// The terminal size of a window size.
pub open spec fn spec_size(winsize: Winsize) -> TerminalSize {
    TerminalSize { cols: winsize.ws_col, rows: winsize.ws_row }
}

/// The terminal size of a window size.
pub fn from_winsize(winsize: Winsize) -> (r: TerminalSize)
    ensures
        r == spec_size(winsize),
{
    TerminalSize { cols: winsize.ws_col, rows: winsize.ws_row }
}

/// A terminal size survives the way to the kernel and back.
pub proof fn law_size_survives(size: TerminalSize)
    ensures
        spec_size(spec_winsize(size)) == size,
{
}

} // verus!
