//! Answers to pane commands.
use vstd::prelude::*;

use crate::names::{PaneTarget, WindowTarget};
use crate::table::Dup;

verus! {

/// What a command prints.
#[derive(Debug, PartialEq, Eq)]
pub struct CommandOutput {
    /// The bytes for the standard output.
    pub stdout: Vec<u8>,
}

impl View for CommandOutput {
    type V = Seq<u8>;

    open spec fn view(&self) -> Seq<u8> {
        self.stdout@
    }
}

impl DeepView for CommandOutput {
    type V = Seq<u8>;

    open spec fn deep_view(&self) -> Seq<u8> {
        self.stdout@
    }
}

impl Clone for CommandOutput {
    fn clone(&self) -> (r: Self)
        ensures
            r@ == self@,
    {
        let stdout = self.stdout.clone();
        assert(stdout@ =~= self.stdout@);
        CommandOutput { stdout }
    }
}

impl Dup for CommandOutput {
    fn dup(&self) -> (r: Self) {
        self.clone()
    }
}

impl CommandOutput {
    /// The output that prints `stdout`.
    pub fn from_stdout(stdout: Vec<u8>) -> (r: CommandOutput)
        ensures
            r == (CommandOutput { stdout }),
    {
        CommandOutput { stdout }
    }

    /// The bytes for the standard output.
    pub fn stdout(&self) -> (r: &Vec<u8>)
        ensures
            *r == self.stdout,
    {
        &self.stdout
    }
}

/// How a pane is resized.
#[derive(Debug, Clone, Copy, PartialEq, Eq, Structural)]
pub enum ResizePaneAdjustment {
    /// Not at all.
    NoOp,
    /// Its upper edge moves by some cells.
    Up(u16),
    /// Its lower edge moves by some cells.
    Down(u16),
    /// Its left edge moves by some cells.
    Left(u16),
    /// Its right edge moves by some cells.
    Right(u16),
    /// It covers the window, or no longer does.
    Zoom,
}

/// Response payload for `split-window`.
#[derive(Debug, Clone, PartialEq, Eq)]
pub struct SplitWindowResponse {
    /// The newly created pane target.
    pub pane: PaneTarget,
}

/// Response payload for `swap-pane`.
#[derive(Debug, Clone, PartialEq, Eq)]
pub struct SwapPaneResponse {
    /// The source slot involved in the swap.
    pub source: PaneTarget,
    /// The destination slot involved in the swap.
    pub target: PaneTarget,
}

/// Response payload for `move-pane`.
#[derive(Debug, Clone, PartialEq, Eq)]
pub struct MovePaneResponse {
    /// The pane after it joined the destination window.
    pub target: PaneTarget,
}

/// Response payload for `last-pane`.
#[derive(Debug, Clone, PartialEq, Eq)]
pub struct LastPaneResponse {
    /// The pane that became active.
    pub target: PaneTarget,
}

/// Response payload for `join-pane`.
#[derive(Debug, Clone, PartialEq, Eq)]
pub struct JoinPaneResponse {
    /// The pane after it joined the destination window.
    pub target: PaneTarget,
}

/// Response payload for `break-pane`.
#[derive(Debug, Clone, PartialEq, Eq)]
pub struct BreakPaneResponse {
    /// The pane after it moved into its own window.
    pub target: PaneTarget,
    /// What `break-pane -P` prints.
    pub output: Option<CommandOutput>,
}

impl BreakPaneResponse {
    /// What the command prints, if anything.
    pub fn command_output(&self) -> (r: Option<&CommandOutput>)
        ensures
            match self.output {
                Some(output) => r == Some(&output),
                None => r is None,
            },
    {
        match &self.output {
            Some(output) => Some(output),
            None => None,
        }
    }
}

/// Response payload for `kill-pane`.
#[derive(Debug, Clone, PartialEq, Eq)]
pub struct KillPaneResponse {
    /// The pane that was removed.
    pub target: PaneTarget,
    /// Whether killing the pane also destroyed its window.
    pub window_destroyed: bool,
}

/// Response payload for `resize-pane`.
#[derive(Debug, Clone, PartialEq, Eq)]
pub struct ResizePaneResponse {
    /// The pane that was resized.
    pub target: PaneTarget,
    /// The applied resize semantics.
    pub adjustment: ResizePaneAdjustment,
}

/// Response payload for `display-panes`.
#[derive(Debug, Clone, PartialEq, Eq)]
pub struct DisplayPanesResponse {
    /// The active window that received the overlay.
    pub target: WindowTarget,
    /// The number of pane labels in the overlay.
    pub pane_count: u32,
}

/// Response payload for `pipe-pane`.
#[derive(Debug, Clone, PartialEq, Eq)]
pub struct PipePaneResponse {
    /// The addressed pane.
    pub target: PaneTarget,
}

/// Response payload for `respawn-pane`.
#[derive(Debug, Clone, PartialEq, Eq)]
pub struct RespawnPaneResponse {
    /// The respawned pane target.
    pub target: PaneTarget,
}

/// Response payload for `select-pane`.
#[derive(Debug, Clone, PartialEq, Eq)]
pub struct SelectPaneResponse {
    /// The pane that became active.
    pub target: PaneTarget,
}

/// Response payload for `send-keys`.
#[derive(Debug, Clone, PartialEq, Eq)]
pub struct SendKeysResponse {
    /// The number of key tokens accepted by the server.
    pub key_count: usize,
}

/// One captured cell of a pane.
///
/// The trailing column of a wide glyph is a padding cell: it has width zero,
/// and its text is a space.
#[derive(Debug, PartialEq, Eq)]
pub struct PaneSnapshotCell {
    /// The recorded glyph text.
    pub text: String,
    /// The recorded display width of the glyph; zero for padding cells.
    pub width: u8,
    /// Whether this cell pads the wide glyph in the preceding column.
    pub padding: bool,
    /// The raw attribute bits.
    pub attributes: u16,
    /// The raw foreground colour.
    pub fg: i32,
    /// The raw background colour.
    pub bg: i32,
    /// The raw underline colour.
    pub us: i32,
    /// The hyperlink number.
    pub link: u32,
}

impl Clone for PaneSnapshotCell {
    fn clone(&self) -> (r: Self)
        ensures
            r == *self,
    {
        PaneSnapshotCell {
            text: self.text.clone(),
            width: self.width,
            padding: self.padding,
            attributes: self.attributes,
            fg: self.fg,
            bg: self.bg,
            us: self.us,
            link: self.link,
        }
    }
}

/// The captured cursor of a pane.
#[derive(Debug, Clone, Copy, PartialEq, Eq, Structural)]
pub struct PaneSnapshotCursor {
    /// The row in the visible part, from zero.
    pub row: u16,
    /// The column in the visible part, from zero.
    pub col: u16,
    /// Whether the cursor is visible.
    pub visible: bool,
    /// The raw cursor style.
    pub style: u32,
}

/// The captured state of a pane.
///
/// `cells` holds `cols * rows` cells, row by row. The revision is never zero,
/// and is computed from every observable field.
#[derive(Debug, Clone, PartialEq, Eq)]
pub struct PaneSnapshotResponse {
    /// The visible width in columns.
    pub cols: u16,
    /// The visible height in rows.
    pub rows: u16,
    /// The cells, row by row.
    pub cells: Vec<PaneSnapshotCell>,
    /// The cursor.
    pub cursor: PaneSnapshotCursor,
    /// The revision of the captured state.
    pub revision: u64,
}

/// Response payload for `list-panes`.
#[derive(Debug, Clone, PartialEq, Eq)]
pub struct ListPanesResponse {
    /// What the command prints.
    pub output: CommandOutput,
}

impl ListPanesResponse {
    /// What the command prints.
    pub fn command_output(&self) -> (r: &CommandOutput)
        ensures
            *r == self.output,
    {
        &self.output
    }
}

} // verus!
