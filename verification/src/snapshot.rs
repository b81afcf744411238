//! Captures of the visible part of a pane.
use std::collections::hash_map::DefaultHasher;
use std::hash::Hasher;

use vstd::bytes::{
    lemma_auto_spec_u16_to_from_le_bytes, lemma_auto_spec_u32_to_from_le_bytes,
    lemma_auto_spec_u64_to_from_le_bytes, spec_u16_to_le_bytes, spec_u32_to_le_bytes,
    spec_u64_to_le_bytes, u16_to_le_bytes, u32_to_le_bytes, u64_to_le_bytes,
};
use vstd::prelude::*;
use vstd::std_specs::hash::DefaultHasherAdditionalSpecFns;

use crate::names::{session_not_found, ErrorView, PaneSpot, PaneTarget, ProtoError};
use crate::protocol::{ErrorResponse, Response};
use crate::response::{PaneSnapshotCell, PaneSnapshotCursor, PaneSnapshotResponse};
use crate::session::{no_window, no_window_error, Pane};
use crate::size::TerminalSize;
use crate::state::{HandlerState, StateView};
use crate::text;

verus! {

/// The bit of the screen mode that shows the cursor.
pub const MODE_CURSOR: u32 = 1;

/// The mathematical value of a [`PaneSnapshotCell`].
#[verifier::ext_equal]
pub struct CellView {
    /// The recorded glyph text.
    pub text: Seq<char>,
    /// The recorded display width of the glyph.
    pub width: u8,
    /// Whether this cell pads the wide glyph in the preceding column.
    pub padding: bool,
    /// The raw attribute bits.
    pub attributes: u16,
    /// The raw foreground colour.
    pub fg: i32,
    /// The raw background colour.
    pub bg: i32,
    /// The raw underline colour.
    pub us: i32,
    /// The hyperlink number.
    pub link: u32,
}

impl View for PaneSnapshotCell {
    type V = CellView;

    open spec fn view(&self) -> CellView {
        CellView {
            text: self.text@,
            width: self.width,
            padding: self.padding,
            attributes: self.attributes,
            fg: self.fg,
            bg: self.bg,
            us: self.us,
            link: self.link,
        }
    }
}

impl DeepView for PaneSnapshotCell {
    type V = CellView;

    open spec fn deep_view(&self) -> CellView {
        self@
    }
}

/// What a terminal shows: lines of cells, the history first.
#[derive(Debug, PartialEq, Eq)]
pub struct Screen {
    /// The size of the visible part.
    pub size: TerminalSize,
    /// The number of lines in the history.
    pub history_size: usize,
    /// The number of bytes in the history.
    pub history_bytes: usize,
    /// The column of the cursor.
    pub cursor_x: u32,
    /// The row of the cursor.
    pub cursor_y: u32,
    /// The mode bits.
    pub mode: u32,
    /// The raw cursor style.
    pub cursor_style: u32,
    /// The lines, the history first.
    pub lines: Vec<Vec<PaneSnapshotCell>>,
}

/// What a pane has written, as its terminal shows it.
#[derive(Debug, PartialEq, Eq)]
pub struct Transcript {
    /// What the terminal shows.
    pub screen: Screen,
    /// How much output it has taken in.
    pub output_sequence: u64,
}

/// Cuts a cursor coordinate down to what a snapshot can hold.
pub fn cursor_coord_to_u16(value: u32) -> (r: u16)
    ensures
        r == if value > u16::MAX {
            u16::MAX as int
        } else {
            value as int
        },
{
    if value > u16::MAX as u32 {
        u16::MAX
    } else {
        value as u16
    }
}

/// An empty cell: a space in the default colours.
pub open spec fn spec_blank() -> CellView {
    CellView {
        text: " "@,
        width: 1,
        padding: false,
        attributes: 0,
        fg: 8,
        bg: 8,
        us: 8,
        link: 0,
    }
}

/// An empty cell.
pub fn blank_cell() -> (r: PaneSnapshotCell)
    ensures
        r@ == spec_blank(),
{
    PaneSnapshotCell {
        text: " ".to_owned(),
        width: 1,
        padding: false,
        attributes: 0,
        fg: 8,
        bg: 8,
        us: 8,
        link: 0,
    }
}

impl Screen {
    /// A screen without history whose cells are all empty.
    pub fn new(size: TerminalSize) -> (r: Screen)
        ensures
            r.size == size,
            r.history_size == 0,
            r.lines@.len() == size.rows,
            forall|row: int, col: int|
                0 <= row < size.rows && 0 <= col < size.cols ==> #[trigger] r.shown(0, row, col)
                    == spec_blank(),
    {
        let mut lines: Vec<Vec<PaneSnapshotCell>> = Vec::new();
        let mut row: u16 = 0;
        while row < size.rows
            invariant
                row <= size.rows,
                lines@.len() == row,
                forall|i: int| 0 <= i < row ==> (#[trigger] lines@[i])@.len() == size.cols,
                forall|i: int, j: int|
                    0 <= i < row && 0 <= j < size.cols ==> (#[trigger] lines@[i]@[j])@
                        == spec_blank(),
            decreases size.rows - row,
        {
            let mut line: Vec<PaneSnapshotCell> = Vec::new();
            let mut col: u16 = 0;
            while col < size.cols
                invariant
                    col <= size.cols,
                    line@.len() == col,
                    forall|j: int| 0 <= j < col ==> (#[trigger] line@[j])@ == spec_blank(),
                decreases size.cols - col,
            {
                line.push(blank_cell());
                col = col + 1;
            }
            lines.push(line);
            row = row + 1;
        }
        Screen {
            size,
            history_size: 0,
            history_bytes: 0,
            cursor_x: 0,
            cursor_y: 0,
            mode: MODE_CURSOR,
            cursor_style: 0,
            lines,
        }
    }

    /// The cell at a place of the visible part. A place without one is empty.
    pub open spec fn shown(self, history: int, row: int, col: int) -> CellView {
        if history + row < self.lines@.len() && col < self.lines@[history + row]@.len() {
            self.lines@[history + row]@[col]@
        } else {
            spec_blank()
        }
    }

    /// The cells of one row of the visible part.
    pub open spec fn shown_row(self, history: int, row: int, cols: nat) -> Seq<CellView> {
        Seq::new(cols, |col: int| self.shown(history, row, col))
    }

    /// The cells of the first rows of the visible part, row by row.
    pub open spec fn shown_rows(self, history: int, rows: nat, cols: nat) -> Seq<CellView>
        decreases rows,
    {
        if rows == 0 {
            Seq::empty()
        } else {
            self.shown_rows(history, (rows - 1) as nat, cols) + self.shown_row(
                history,
                rows - 1,
                cols,
            )
        }
    }
}

/// A capture holds one cell for each place, row by row.
pub proof fn law_capture_is_rectangular(screen: Screen, history: int, rows: nat, cols: nat)
    ensures
        screen.shown_rows(history, rows, cols).len() == rows * cols,
        forall|row: int, col: int|
            0 <= row < rows && 0 <= col < cols ==> #[trigger] screen.shown(history, row, col)
                == screen.shown_rows(history, rows, cols)[row * cols + col],
    decreases rows,
{
    if rows > 0 {
        let before = (rows - 1) as nat;
        law_capture_is_rectangular(screen, history, before, cols);
        assert(rows * cols == before * cols + cols) by (nonlinear_arith)
            requires
                rows == before + 1,
        ;
        assert forall|row: int, col: int| 0 <= row < rows && 0 <= col < cols implies
            #[trigger] screen.shown(history, row, col) == screen.shown_rows(
            history,
            rows,
            cols,
        )[row * cols + col] by {
            if row < before {
                assert(0 <= row * cols + col < before * cols) by (nonlinear_arith)
                    requires
                        0 <= row < before,
                        0 <= col < cols,
                ;
            }
        }
    } else {
        assert(rows * cols == 0) by (nonlinear_arith)
            requires
                rows == 0,
        ;
    }
}

/// The cells of the visible part, row by row: exactly `cols` for each row, with
/// empty cells where the screen has none.
pub fn collect_cells(screen: &Screen, cols: u16, rows: u16, history_size: usize) -> (r: Result<
    Vec<PaneSnapshotCell>,
    ProtoError,
>)
    ensures
        r is Ok,
        r->Ok_0.deep_view() == screen.shown_rows(history_size as int, rows as nat, cols as nat),
        r->Ok_0@.len() == rows * cols,
{
    let mut cells: Vec<PaneSnapshotCell> = Vec::new();
    let mut row: u16 = 0;
    assert(cells.deep_view() =~= screen.shown_rows(history_size as int, 0, cols as nat));
    while row < rows
        invariant
            row <= rows,
            cells.deep_view() == screen.shown_rows(history_size as int, row as nat, cols as nat),
        decreases rows - row,
    {
        let ghost before = cells.deep_view();
        let place = history_size.checked_add(row as usize);
        let mut col: u16 = 0;
        assert(before + screen.shown_row(history_size as int, row as int, 0) =~= before);
        while col < cols
            invariant
                col <= cols,
                place == if history_size + row <= usize::MAX {
                    Some((history_size + row) as usize)
                } else {
                    None
                },
                cells.deep_view() == before + screen.shown_row(
                    history_size as int,
                    row as int,
                    col as nat,
                ),
            decreases cols - col,
        {
            let mut cell = blank_cell();
            if let Some(at) = place {
                if at < screen.lines.len() && (col as usize) < screen.lines[at].len() {
                    cell = screen.lines[at][col as usize].clone();
                }
            }
            proof {
                assert(screen.lines.len() <= usize::MAX);
                assert(cell@ == screen.shown(history_size as int, row as int, col as int));
            }
            let ghost earlier = cells.deep_view();
            cells.push(cell);
            assert(cells.deep_view() =~= earlier.push(cell@));
            assert(cells.deep_view() =~= before + screen.shown_row(
                history_size as int,
                row as int,
                (col + 1) as nat,
            ));
            col = col + 1;
        }
        row = row + 1;
    }
    proof {
        law_capture_is_rectangular(*screen, history_size as int, rows as nat, cols as nat);
        assert(cells@.len() == cells.deep_view().len());
    }
    Ok(cells)
}

/// Everything about a pane that a revision stands for.
#[verifier::ext_equal]
pub struct Observed {
    /// The visible width in columns.
    pub cols: u16,
    /// The visible height in rows.
    pub rows: u16,
    /// The cells, row by row.
    pub cells: Seq<CellView>,
    /// The cursor.
    pub cursor: PaneSnapshotCursor,
    /// How much output the pane has taken in.
    pub output_sequence: u64,
    /// The number of lines in the history.
    pub history_size: u64,
    /// The number of bytes in the history.
    pub history_bytes: u64,
    /// The identity of the pane.
    pub pane_id: u32,
}

/// A truth value as a byte.
pub open spec fn bool_byte(b: bool) -> u8 {
    if b {
        1
    } else {
        0
    }
}

/// A signed number in two's complement.
pub open spec fn complement(n: i32) -> u32 {
    if n >= 0 {
        n as u32
    } else {
        (n + 0x1_0000_0000) as u32
    }
}

/// Computes [`complement`].
fn complement_of(n: i32) -> (r: u32)
    ensures
        r == complement(n),
{
    if n >= 0 {
        n as u32
    } else {
        (n as i64 + 0x1_0000_0000i64) as u32
    }
}

/// The bytes of a cell without its text.
pub open spec fn fixed_code(cell: CellView) -> Seq<u8> {
    seq![cell.width, bool_byte(cell.padding)] + spec_u16_to_le_bytes(cell.attributes)
        + spec_u32_to_le_bytes(complement(cell.fg)) + spec_u32_to_le_bytes(complement(cell.bg))
        + spec_u32_to_le_bytes(complement(cell.us)) + spec_u32_to_le_bytes(cell.link)
}

/// The bytes of a cell: its text, a byte that no text holds, and the rest.
pub open spec fn cell_code(cell: CellView) -> Seq<u8> {
    text::bytes(cell.text) + seq![0xffu8] + fixed_code(cell)
}

/// The bytes of cells, one after the other.
pub open spec fn cells_code(cells: Seq<CellView>) -> Seq<u8>
    decreases cells.len(),
{
    if cells.len() == 0 {
        Seq::empty()
    } else {
        cell_code(cells[0]) + cells_code(cells.skip(1))
    }
}

impl Observed {
    /// The bytes in front of the cells.
    pub open spec fn head_code(self) -> Seq<u8> {
        spec_u16_to_le_bytes(self.cols) + spec_u16_to_le_bytes(self.rows) + spec_u16_to_le_bytes(
            self.cursor.row,
        ) + spec_u16_to_le_bytes(self.cursor.col) + seq![bool_byte(self.cursor.visible)]
            + spec_u32_to_le_bytes(self.cursor.style)
    }

    /// The bytes behind the cells.
    pub open spec fn tail_code(self) -> Seq<u8> {
        spec_u64_to_le_bytes(self.output_sequence) + spec_u64_to_le_bytes(self.history_size)
            + spec_u64_to_le_bytes(self.history_bytes) + spec_u32_to_le_bytes(self.pane_id)
    }

    /// The bytes that the revision is computed from.
    pub open spec fn code(self) -> Seq<u8> {
        self.head_code() + cells_code(self.cells) + self.tail_code()
    }

    /// The hash of all that is observed.
    pub open spec fn raw_hash(self) -> u64 {
        DefaultHasher::spec_finish(seq![self.code()])
    }

    /// The revision: a hash of all that is observed, kept off zero.
    pub open spec fn revision(self) -> u64 {
        if self.raw_hash() == 0 {
            u64::MAX
        } else {
            self.raw_hash()
        }
    }
}

/// A revision is never zero.
pub proof fn law_revision_is_not_zero(observed: Observed)
    ensures
        observed.revision() != 0,
{
}

/// No byte of a well-formed text is 0xff.
proof fn lemma_no_separator(bytes: Seq<u8>)
    requires
        vstd::utf8::valid_utf8(bytes),
    ensures
        !bytes.contains(0xff),
    decreases bytes.len(),
{
    if bytes.len() > 0 {
        let rest = vstd::utf8::pop_first_scalar(bytes);
        let n = vstd::utf8::length_of_first_scalar(bytes);
        assert(rest =~= bytes.skip(n));
        lemma_no_separator(rest);
        assert forall|i: int| 0 <= i < bytes.len() implies bytes[i] != 0xff by {
            if i >= n {
                assert(rest[i - n] == bytes[i]);
                assert(rest.contains(rest[i - n]));
            }
        }
    }
}

/// Where two texts stand in front of a separator, they can be told apart.
proof fn lemma_split_at_separator(a: Seq<u8>, p: Seq<u8>, b: Seq<u8>, q: Seq<u8>)
    requires
        !a.contains(0xff),
        !b.contains(0xff),
        a + seq![0xffu8] + p == b + seq![0xffu8] + q,
    ensures
        a == b,
        p == q,
{
    let x = a + seq![0xffu8] + p;
    let y = b + seq![0xffu8] + q;
    assert(x[a.len() as int] == 0xff);
    assert(y[b.len() as int] == 0xff);
    if a.len() < b.len() {
        assert(y[a.len() as int] == b[a.len() as int]);
        assert(b.contains(b[a.len() as int]));
    } else if b.len() < a.len() {
        assert(x[b.len() as int] == a[b.len() as int]);
        assert(a.contains(a[b.len() as int]));
    }
    assert(a =~= x.take(a.len() as int));
    assert(b =~= y.take(a.len() as int));
    assert(p =~= x.skip(a.len() as int + 1));
    assert(q =~= y.skip(a.len() as int + 1));
}

/// The bytes of a cell without its text tell all its fields.
proof fn lemma_fixed_code(a: CellView, b: CellView)
    requires
        fixed_code(a) == fixed_code(b),
    ensures
        a == (CellView { text: a.text, ..b }),
{
    lemma_auto_spec_u16_to_from_le_bytes();
    lemma_auto_spec_u32_to_from_le_bytes();
    let x = fixed_code(a);
    let y = fixed_code(b);
    assert(x[0] == a.width && y[0] == b.width);
    assert(x[1] == bool_byte(a.padding) && y[1] == bool_byte(b.padding));
    assert(x.subrange(2, 4) =~= spec_u16_to_le_bytes(a.attributes));
    assert(y.subrange(2, 4) =~= spec_u16_to_le_bytes(b.attributes));
    assert(x.subrange(4, 8) =~= spec_u32_to_le_bytes(complement(a.fg)));
    assert(y.subrange(4, 8) =~= spec_u32_to_le_bytes(complement(b.fg)));
    assert(x.subrange(8, 12) =~= spec_u32_to_le_bytes(complement(a.bg)));
    assert(y.subrange(8, 12) =~= spec_u32_to_le_bytes(complement(b.bg)));
    assert(x.subrange(12, 16) =~= spec_u32_to_le_bytes(complement(a.us)));
    assert(y.subrange(12, 16) =~= spec_u32_to_le_bytes(complement(b.us)));
    assert(x.subrange(16, 20) =~= spec_u32_to_le_bytes(a.link));
    assert(y.subrange(16, 20) =~= spec_u32_to_le_bytes(b.link));
}

/// The number of bytes of a cell without its text.
proof fn lemma_fixed_len(cell: CellView)
    ensures
        fixed_code(cell).len() == 20,
{
    lemma_auto_spec_u16_to_from_le_bytes();
    lemma_auto_spec_u32_to_from_le_bytes();
}

/// The bytes of cells tell the cells.
proof fn lemma_cells_code(a: Seq<CellView>, b: Seq<CellView>)
    requires
        cells_code(a) == cells_code(b),
    ensures
        a == b,
    decreases a.len(),
{
    if a.len() == 0 {
        if b.len() > 0 {
            lemma_fixed_len(b[0]);
        }
        assert(a =~= b);
    } else {
        lemma_fixed_len(a[0]);
        if b.len() == 0 {
            assert(false);
        }
        lemma_fixed_len(b[0]);
        let x = text::bytes(a[0].text);
        let y = text::bytes(b[0].text);
        vstd::utf8::encode_utf8_valid_utf8(a[0].text);
        vstd::utf8::encode_utf8_valid_utf8(b[0].text);
        lemma_no_separator(x);
        lemma_no_separator(y);
        let p = fixed_code(a[0]) + cells_code(a.skip(1));
        let q = fixed_code(b[0]) + cells_code(b.skip(1));
        assert(cells_code(a) =~= x + seq![0xffu8] + p);
        assert(cells_code(b) =~= y + seq![0xffu8] + q);
        lemma_split_at_separator(x, p, y, q);
        vstd::utf8::encode_utf8_decode_utf8(a[0].text);
        vstd::utf8::encode_utf8_decode_utf8(b[0].text);
        assert(fixed_code(a[0]) =~= p.take(20));
        assert(fixed_code(b[0]) =~= q.take(20));
        lemma_fixed_code(a[0], b[0]);
        assert(cells_code(a.skip(1)) =~= p.skip(20));
        assert(cells_code(b.skip(1)) =~= q.skip(20));
        lemma_cells_code(a.skip(1), b.skip(1));
        assert(a =~= seq![a[0]] + a.skip(1));
        assert(b =~= seq![b[0]] + b.skip(1));
    }
}

/// The bytes that a revision is computed from differ whenever anything that is
/// observed differs, be it the size, a cell, the cursor, the amount of output,
/// the history or the identity of the pane.
pub proof fn law_revision_sees_every_field(a: Observed, b: Observed)
    requires
        a.code() == b.code(),
    ensures
        a == b,
{
    lemma_auto_spec_u16_to_from_le_bytes();
    lemma_auto_spec_u32_to_from_le_bytes();
    lemma_auto_spec_u64_to_from_le_bytes();
    let x = a.code();
    let y = b.code();
    let n = x.len() as int;
    assert(a.head_code().len() == 13 && b.head_code().len() == 13);
    assert(a.tail_code().len() == 28 && b.tail_code().len() == 28);
    assert(x.subrange(0, 2) =~= spec_u16_to_le_bytes(a.cols));
    assert(y.subrange(0, 2) =~= spec_u16_to_le_bytes(b.cols));
    assert(x.subrange(2, 4) =~= spec_u16_to_le_bytes(a.rows));
    assert(y.subrange(2, 4) =~= spec_u16_to_le_bytes(b.rows));
    assert(x.subrange(4, 6) =~= spec_u16_to_le_bytes(a.cursor.row));
    assert(y.subrange(4, 6) =~= spec_u16_to_le_bytes(b.cursor.row));
    assert(x.subrange(6, 8) =~= spec_u16_to_le_bytes(a.cursor.col));
    assert(y.subrange(6, 8) =~= spec_u16_to_le_bytes(b.cursor.col));
    assert(x[8] == bool_byte(a.cursor.visible) && y[8] == bool_byte(b.cursor.visible));
    assert(x.subrange(9, 13) =~= spec_u32_to_le_bytes(a.cursor.style));
    assert(y.subrange(9, 13) =~= spec_u32_to_le_bytes(b.cursor.style));
    assert(x.subrange(13, n - 28) =~= cells_code(a.cells));
    assert(y.subrange(13, n - 28) =~= cells_code(b.cells));
    lemma_cells_code(a.cells, b.cells);
    assert(x.subrange(n - 28, n - 20) =~= spec_u64_to_le_bytes(a.output_sequence));
    assert(y.subrange(n - 28, n - 20) =~= spec_u64_to_le_bytes(b.output_sequence));
    assert(x.subrange(n - 20, n - 12) =~= spec_u64_to_le_bytes(a.history_size));
    assert(y.subrange(n - 20, n - 12) =~= spec_u64_to_le_bytes(b.history_size));
    assert(x.subrange(n - 12, n - 4) =~= spec_u64_to_le_bytes(a.history_bytes));
    assert(y.subrange(n - 12, n - 4) =~= spec_u64_to_le_bytes(b.history_bytes));
    assert(x.subrange(n - 4, n) =~= spec_u32_to_le_bytes(a.pane_id));
    assert(y.subrange(n - 4, n) =~= spec_u32_to_le_bytes(b.pane_id));
}

/// Where anything that is observed differs, the revision does too, unless the
/// hash takes two different texts of bytes to one number, or one of them to zero
/// and the other to the greatest number.
pub proof fn law_revisions_meet_only_with_hashes(a: Observed, b: Observed)
    requires
        a != b,
        a.revision() == b.revision(),
    ensures
        a.code() != b.code(),
        a.raw_hash() == b.raw_hash() || (a.raw_hash() == 0 && b.raw_hash() == u64::MAX) || (
        a.raw_hash() == u64::MAX && b.raw_hash() == 0),
{
    if a.code() == b.code() {
        law_revision_sees_every_field(a, b);
    }
}

/// A cell behind others adds its bytes behind theirs.
proof fn lemma_cells_code_push(cells: Seq<CellView>, cell: CellView)
    ensures
        cells_code(cells.push(cell)) == cells_code(cells) + cell_code(cell),
    decreases cells.len(),
{
    let all = cells.push(cell);
    assert(all[0] == if cells.len() == 0 {
        cell
    } else {
        cells[0]
    });
    if cells.len() == 0 {
        assert(all.skip(1) =~= Seq::empty());
        assert(cells_code(all.skip(1)) =~= Seq::empty());
        assert(cells_code(all) =~= cell_code(cell));
        assert(cells_code(cells) + cell_code(cell) =~= cell_code(cell));
    } else {
        lemma_cells_code_push(cells.skip(1), cell);
        assert(all.skip(1) =~= cells.skip(1).push(cell));
        assert(cells_code(all) == cell_code(cells[0]) + cells_code(cells.skip(1).push(cell)));
        assert(cells_code(all) =~= cells_code(cells) + cell_code(cell));
    }
}

/// Appends bytes.
fn put(buffer: &mut Vec<u8>, bytes: Vec<u8>)
    ensures
        final(buffer)@ == old(buffer)@ + bytes@,
{
    let mut more = bytes;
    buffer.append(&mut more);
}

/// A truth value as a byte.
fn bool_to_byte(b: bool) -> (r: u8)
    ensures
        r == bool_byte(b),
{
    if b {
        1
    } else {
        0
    }
}

/// Appends the bytes of a cell.
fn put_cell(buffer: &mut Vec<u8>, cell: &PaneSnapshotCell)
    ensures
        final(buffer)@ == old(buffer)@ + cell_code(cell@),
{
    let ghost before = buffer@;
    put(buffer, text::to_bytes(&cell.text));
    buffer.push(0xff);
    buffer.push(cell.width);
    buffer.push(bool_to_byte(cell.padding));
    put(buffer, u16_to_le_bytes(cell.attributes));
    put(buffer, u32_to_le_bytes(complement_of(cell.fg)));
    put(buffer, u32_to_le_bytes(complement_of(cell.bg)));
    put(buffer, u32_to_le_bytes(complement_of(cell.us)));
    put(buffer, u32_to_le_bytes(cell.link));
    assert(buffer@ =~= before + cell_code(cell@));
}

/// The revision of all that is observed; see [`Observed::revision`].
pub fn compute_revision(
    cols: u16,
    rows: u16,
    cells: &Vec<PaneSnapshotCell>,
    cursor: &PaneSnapshotCursor,
    output_sequence: u64,
    history_size: usize,
    history_bytes: usize,
    pane_id_value: u32,
) -> (r: u64)
    ensures
        r == (Observed {
            cols,
            rows,
            cells: cells.deep_view(),
            cursor: *cursor,
            output_sequence,
            history_size: history_size as u64,
            history_bytes: history_bytes as u64,
            pane_id: pane_id_value,
        }).revision(),
        r != 0,
{
    let ghost observed = Observed {
        cols,
        rows,
        cells: cells.deep_view(),
        cursor: *cursor,
        output_sequence,
        history_size: history_size as u64,
        history_bytes: history_bytes as u64,
        pane_id: pane_id_value,
    };
    let mut buffer: Vec<u8> = Vec::new();
    put(&mut buffer, u16_to_le_bytes(cols));
    put(&mut buffer, u16_to_le_bytes(rows));
    put(&mut buffer, u16_to_le_bytes(cursor.row));
    put(&mut buffer, u16_to_le_bytes(cursor.col));
    buffer.push(bool_to_byte(cursor.visible));
    put(&mut buffer, u32_to_le_bytes(cursor.style));
    assert(buffer@ =~= observed.head_code());
    let mut i: usize = 0;
    assert(buffer@ =~= observed.head_code() + cells_code(cells.deep_view().take(0)));
    while i < cells.len()
        invariant
            i <= cells@.len(),
            observed.cells == cells.deep_view(),
            buffer@ == observed.head_code() + cells_code(cells.deep_view().take(i as int)),
        decreases cells.len() - i,
    {
        let ghost earlier = cells.deep_view().take(i as int);
        proof {
            lemma_cells_code_push(earlier, cells@[i as int]@);
            assert(cells.deep_view().take(i + 1) =~= earlier.push(cells@[i as int]@));
        }
        put_cell(&mut buffer, &cells[i]);
        assert(buffer@ =~= observed.head_code() + cells_code(cells.deep_view().take(i + 1)));
        i = i + 1;
    }
    assert(cells.deep_view().take(i as int) =~= cells.deep_view());
    put(&mut buffer, u64_to_le_bytes(output_sequence));
    put(&mut buffer, u64_to_le_bytes(history_size as u64));
    put(&mut buffer, u64_to_le_bytes(history_bytes as u64));
    put(&mut buffer, u32_to_le_bytes(pane_id_value));
    assert(buffer@ =~= observed.code());
    let mut hasher = DefaultHasher::new();
    hasher.write(buffer.as_slice());
    assert(hasher@ =~= seq![observed.code()]);
    let raw: u64 = hasher.finish();
    if raw == 0 {
        0xFFFF_FFFF_FFFF_FFFF
    } else {
        raw
    }
}

/// The error for a pane that a window does not have.
pub open spec fn no_pane_index(spot: PaneSpot) -> ErrorView {
    ErrorView::InvalidTarget(
        crate::names::slot_text((spot.0, spot.1)) + "."@ + text::decimal(spot.2 as nat),
        "pane index does not exist in session"@,
    )
}

impl StateView {
    /// The identity of the pane at a place, or why there is none.
    pub open spec fn pane_id(self, spot: PaneSpot) -> Result<u32, ErrorView> {
        if !self.sessions.contains_key(spot.0) {
            Err(ErrorView::SessionNotFound(spot.0))
        } else if !self.sessions[spot.0].windows.contains_key(spot.1) {
            Err(no_window(spot.0, spot.1))
        } else {
            let panes = self.sessions[spot.0].windows[spot.1].panes;
            if exists|i: int| is_pane_at(panes, spot.2, i) {
                Ok(panes[choose|i: int| is_pane_at(panes, spot.2, i)].id)
            } else {
                Err(no_pane_index(spot))
            }
        }
    }
}

/// Whether `i` is the first place of the pane with an index.
pub open spec fn is_pane_at(panes: Seq<Pane>, index: u32, i: int) -> bool {
    &&& 0 <= i < panes.len()
    &&& panes[i].index == index
    &&& forall|j: int| 0 <= j < i ==> (#[trigger] panes[j]).index != index
}

/// The identity of the pane at a place.
pub fn pane_id_for_target(state: &HandlerState, target: &PaneTarget) -> (r: Result<
    u32,
    ProtoError,
>)
    ensures
        match r {
            Ok(id) => state@.pane_id(target@) == Ok::<u32, ErrorView>(id),
            Err(error) => state@.pane_id(target@) == Err::<u32, ErrorView>(error@),
        },
{
    let session = match state.sessions.get(&target.session_name) {
        Some(session) => session,
        None => {
            return Err(session_not_found(&target.session_name));
        },
    };
    let window = match session.window_at(target.window_index) {
        Some(window) => window,
        None => {
            return Err(no_window_error(&target.session_name, target.window_index));
        },
    };
    let mut i: usize = 0;
    while i < window.panes.len()
        invariant
            i <= window.panes@.len(),
            state@.sessions.contains_key(target@.0),
            state@.sessions[target@.0].windows.contains_key(target@.1),
            state@.sessions[target@.0].windows[target@.1] == window@,
            forall|j: int| 0 <= j < i ==> (#[trigger] window.panes@[j]).index != target.pane_index,
        decreases window.panes.len() - i,
    {
        if window.panes[i].index == target.pane_index {
            proof {
                let panes = state@.sessions[target@.0].windows[target@.1].panes;
                assert(is_pane_at(panes, target@.2, i as int));
                let k = choose|k: int| is_pane_at(panes, target@.2, k);
                assert(is_pane_at(panes, target@.2, k));
                assert(k == i) by {
                    if k < i {
                        assert(panes[k].index != target@.2);
                    } else if i < k {
                        assert(panes[i as int].index != target@.2);
                    }
                }
            }
            return Ok(window.panes[i].id);
        }
        i = i + 1;
    }
    let mut value = crate::names::slot_to_text(&target.session_name, target.window_index);
    value.append(".");
    let number = text::decimal_of(target.pane_index as u64);
    value.append(&number);
    Err(ProtoError::invalid_target(value, "pane index does not exist in session"))
}

impl Transcript {
    /// The cursor as a snapshot shows it.
    pub open spec fn cursor(self) -> PaneSnapshotCursor {
        PaneSnapshotCursor {
            row: clipped(self.screen.cursor_y),
            col: clipped(self.screen.cursor_x),
            visible: self.screen.mode & MODE_CURSOR != 0,
            style: self.screen.cursor_style,
        }
    }

    /// All that is observed of a pane.
    pub open spec fn observed(self, pane_id: u32) -> Observed {
        let screen = self.screen;
        Observed {
            cols: screen.size.cols,
            rows: screen.size.rows,
            cells: screen.shown_rows(
                screen.history_size as int,
                screen.size.rows as nat,
                screen.size.cols as nat,
            ),
            cursor: self.cursor(),
            output_sequence: self.output_sequence,
            history_size: screen.history_size as u64,
            history_bytes: screen.history_bytes as u64,
            pane_id,
        }
    }
}

/// A coordinate cut down to what a snapshot can hold.
pub open spec fn clipped(value: u32) -> u16 {
    if value > u16::MAX {
        u16::MAX
    } else {
        value as u16
    }
}

/// Answers a request for the cells of a pane, given what the pane has written
/// or why that cannot be had.
pub fn handle_pane_snapshot(
    state: &HandlerState,
    target: &PaneTarget,
    transcript: Result<Transcript, ProtoError>,
) -> (r: Response)
    ensures
        match state@.pane_id(target@) {
            Err(error) => r matches Response::Error(e) && e.error@ == error,
            Ok(pane_id) => match transcript {
                Err(error) => r == Response::Error(ErrorResponse { error }),
                Ok(transcript) => {
                    &&& r is PaneSnapshot
                    &&& r->PaneSnapshot_0.cols == transcript.screen.size.cols
                    &&& r->PaneSnapshot_0.rows == transcript.screen.size.rows
                    &&& r->PaneSnapshot_0.cells.deep_view() == transcript.observed(pane_id).cells
                    &&& r->PaneSnapshot_0.cursor == transcript.cursor()
                    &&& r->PaneSnapshot_0.revision == transcript.observed(pane_id).revision()
                },
            },
        },
{
    let pane_id: u32 = match pane_id_for_target(state, target) {
        Ok(pane_id) => pane_id,
        Err(error) => {
            return Response::Error(ErrorResponse { error });
        },
    };
    let transcript = match transcript {
        Ok(transcript) => transcript,
        Err(error) => {
            return Response::Error(ErrorResponse { error });
        },
    };
    let screen = &transcript.screen;
    let cols = screen.size.cols;
    let rows = screen.size.rows;
    let cursor = PaneSnapshotCursor {
        row: cursor_coord_to_u16(screen.cursor_y),
        col: cursor_coord_to_u16(screen.cursor_x),
        visible: (screen.mode & MODE_CURSOR) != 0,
        style: screen.cursor_style,
    };
    let cells = match collect_cells(screen, cols, rows, screen.history_size) {
        Ok(cells) => cells,
        Err(error) => {
            return Response::Error(ErrorResponse { error });
        },
    };
    let revision: u64 = compute_revision(
        cols,
        rows,
        &cells,
        &cursor,
        transcript.output_sequence,
        screen.history_size,
        screen.history_bytes,
        pane_id,
    );
    Response::PaneSnapshot(PaneSnapshotResponse { cols, rows, cells, cursor, revision })
}

} // verus!
