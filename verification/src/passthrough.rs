//! Sequences that a pane hands through to the terminal around it.
use vstd::prelude::*;

use crate::text;

verus! {

/// The place of a pane in the terminal.
#[derive(Debug, Clone, Copy, PartialEq, Eq, Structural)]
pub struct PaneGeometry {
    /// The column of its left edge.
    pub x: u16,
    /// The row of its upper edge.
    pub y: u16,
    /// Its width in columns.
    pub cols: u16,
    /// Its height in rows.
    pub rows: u16,
}

impl PaneGeometry {
    /// The place with these edges and this size.
    pub fn new(x: u16, y: u16, cols: u16, rows: u16) -> (r: PaneGeometry)
        ensures
            r == (PaneGeometry { x, y, cols, rows }),
    {
        PaneGeometry { x, y, cols, rows }
    }
}

/// What kind of sequence is handed through.
#[derive(Debug, Clone, Copy, PartialEq, Eq, Structural)]
pub enum TerminalPassthroughKind {
    /// A graphics command, which belongs to a place.
    KittyGraphics,
    /// Anything else.
    Raw,
}

/// A sequence that is handed through.
#[derive(Debug, PartialEq, Eq)]
pub struct TerminalPassthrough {
    /// What kind it is.
    pub kind: TerminalPassthroughKind,
    /// The column of the cursor in the pane.
    pub cursor_x: u32,
    /// The row of the cursor in the pane.
    pub cursor_y: u32,
    /// What it carries.
    pub payload: Vec<u8>,
}

impl TerminalPassthrough {
    /// A graphics command at a place.
    pub fn kitty_graphics(cursor_x: u32, cursor_y: u32, payload: Vec<u8>) -> (r:
        TerminalPassthrough)
        ensures
            r == (TerminalPassthrough {
                kind: TerminalPassthroughKind::KittyGraphics,
                cursor_x,
                cursor_y,
                payload,
            }),
    {
        TerminalPassthrough {
            kind: TerminalPassthroughKind::KittyGraphics,
            cursor_x,
            cursor_y,
            payload,
        }
    }

    /// Any other sequence.
    pub fn raw(cursor_x: u32, cursor_y: u32, payload: Vec<u8>) -> (r: TerminalPassthrough)
        ensures
            r == (TerminalPassthrough {
                kind: TerminalPassthroughKind::Raw,
                cursor_x,
                cursor_y,
                payload,
            }),
    {
        TerminalPassthrough { kind: TerminalPassthroughKind::Raw, cursor_x, cursor_y, payload }
    }

    /// The sequence as the terminal takes it: a graphics command stands between
    /// a start and an end sequence.
    pub open spec fn sequence(self) -> Seq<u8> {
        match self.kind {
            TerminalPassthroughKind::KittyGraphics => seq![0x1bu8, 0x5f] + self.payload@
                + seq![0x1bu8, 0x5c],
            TerminalPassthroughKind::Raw => self.payload@,
        }
    }

    /// Computes [`TerminalPassthrough::sequence`].
    pub fn render_sequence(&self) -> (r: Vec<u8>)
        ensures
            r@ == self.sequence(),
    {
        let mut out: Vec<u8> = Vec::new();
        match self.kind {
            TerminalPassthroughKind::KittyGraphics => {
                out.push(0x1b);
                out.push(0x5f);
                out.extend_from_slice(self.payload.as_slice());
                out.push(0x1b);
                out.push(0x5c);
            },
            TerminalPassthroughKind::Raw => {
                out.extend_from_slice(self.payload.as_slice());
            },
        }
        assert(out@ =~= self.sequence());
        out
    }
}

/// What is known of the terminal around a pane.
#[derive(Debug, PartialEq, Eq)]
pub struct OpenAttachTarget {
    /// The place of the active pane.
    pub active_pane_geometry: PaneGeometry,
    /// Whether the terminal understands graphics commands.
    pub kitty_graphics_passthrough: bool,
}

/// A sum, or the greatest number where it is too large.
pub open spec fn capped(n: int) -> u32 {
    if n > u32::MAX {
        u32::MAX
    } else {
        n as u32
    }
}

/// The text that puts the cursor of the terminal where the cursor of the pane
/// was. Rows and columns count from one.
pub open spec fn cursor_text(geometry: PaneGeometry, passthrough: TerminalPassthrough) -> Seq<char> {
    let row = capped(geometry.y + passthrough.cursor_y + 1);
    let col = capped(geometry.x + passthrough.cursor_x + 1);
    "\u{1b}["@ + text::decimal(row as nat) + ";"@ + text::decimal(col as nat) + "H"@
}

/// Appends the bytes of [`cursor_text`].
pub fn append_cursor_position(
    frame: &mut Vec<u8>,
    geometry: PaneGeometry,
    passthrough: &TerminalPassthrough,
)
    ensures
        final(frame)@ == old(frame)@ + text::bytes(cursor_text(geometry, *passthrough)),
{
    let row: u32 = (geometry.y as u32).saturating_add(passthrough.cursor_y).saturating_add(1);
    let col: u32 = (geometry.x as u32).saturating_add(passthrough.cursor_x).saturating_add(1);
    let mut out = "\u{1b}[".to_owned();
    let first = text::decimal_of(row as u64);
    out.append(&first);
    out.append(";");
    let second = text::decimal_of(col as u64);
    out.append(&second);
    out.append("H");
    let mut more = text::to_bytes(&out);
    frame.append(&mut more);
}

/// The bytes for one sequence: a graphics command is preceded by a cursor
/// position.
pub open spec fn rendered(geometry: PaneGeometry, passthrough: TerminalPassthrough) -> Seq<u8> {
    if passthrough.kind is KittyGraphics {
        text::bytes(cursor_text(geometry, passthrough)) + passthrough.sequence()
    } else {
        passthrough.sequence()
    }
}

/// The bytes for sequences, in order.
pub open spec fn all_rendered(geometry: PaneGeometry, passthroughs: Seq<TerminalPassthrough>) -> Seq<u8>
    decreases passthroughs.len(),
{
    if passthroughs.len() == 0 {
        Seq::empty()
    } else {
        all_rendered(geometry, passthroughs.drop_last()) + rendered(geometry, passthroughs.last())
    }
}

/// The bytes for the terminal: nothing, unless it understands graphics commands.
pub fn render_passthroughs(target: &OpenAttachTarget, passthroughs: &Vec<TerminalPassthrough>) -> (r:
    Vec<u8>)
    ensures
        r@ == if target.kitty_graphics_passthrough {
            all_rendered(target.active_pane_geometry, passthroughs@)
        } else {
            Seq::empty()
        },
{
    let mut frame: Vec<u8> = Vec::new();
    if !target.kitty_graphics_passthrough {
        return frame;
    }
    let geometry = target.active_pane_geometry;
    let mut i: usize = 0;
    assert(passthroughs@.take(0).len() == 0);
    while i < passthroughs.len()
        invariant
            i <= passthroughs@.len(),
            frame@ == all_rendered(geometry, passthroughs@.take(i as int)),
        decreases passthroughs.len() - i,
    {
        let ghost before = frame@;
        let passthrough = &passthroughs[i];
        proof {
            assert(passthroughs@.take(i + 1).drop_last() =~= passthroughs@.take(i as int));
        }
        match passthrough.kind {
            TerminalPassthroughKind::KittyGraphics => {
                append_cursor_position(&mut frame, geometry, passthrough);
            },
            TerminalPassthroughKind::Raw => {},
        }
        let mut sequence = passthrough.render_sequence();
        frame.append(&mut sequence);
        assert(frame@ =~= before + rendered(geometry, *passthrough));
        i = i + 1;
    }
    assert(passthroughs@.take(i as int) =~= passthroughs@);
    frame
}

} // verus!
