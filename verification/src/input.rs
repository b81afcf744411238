//! Cutting typed and pasted input into chunks.
//!
//! Input is sent on in chunks of limited size. A cut avoids the middle of a
//! character, and the middle of a mark that begins or ends a paste. Bytes that
//! only look like the beginning of a mark do not move it.
use vstd::prelude::*;
use vstd::slice::slice_subrange;
use vstd::utf8::{is_char_boundary, valid_utf8};

verus! {

/// How many bytes a chunk has, unless a mark at its end is kept whole.
pub const ATTACH_INPUT_CHUNK_LIMIT: usize = 4096;

/// How many bytes a mark has.
pub const MARKER_LEN: usize = 6;

/// The mark that begins a paste.
pub open spec fn paste_start() -> Seq<u8> {
    seq![0x1b, 0x5b, 0x32, 0x30, 0x30, 0x7e]
}

/// The mark that ends a paste.
pub open spec fn paste_end() -> Seq<u8> {
    seq![0x1b, 0x5b, 0x32, 0x30, 0x31, 0x7e]
}

/// The mark that begins a paste.
pub fn bracketed_paste_start() -> (r: Vec<u8>)
    ensures
        r@ == paste_start(),
{
    let r: Vec<u8> = vec![0x1b, 0x5b, 0x32, 0x30, 0x30, 0x7e];
    assert(r@ =~= paste_start());
    r
}

/// The mark that ends a paste.
pub fn bracketed_paste_end() -> (r: Vec<u8>)
    ensures
        r@ == paste_end(),
{
    let r: Vec<u8> = vec![0x1b, 0x5b, 0x32, 0x30, 0x31, 0x7e];
    assert(r@ =~= paste_end());
    r
}

/// Whether a byte goes on with a character that an earlier byte began.
pub open spec fn is_continuation(byte: u8) -> bool {
    0x80 <= byte <= 0xbf
}

/// Computes [`is_continuation`].
fn is_utf8_continuation(byte: u8) -> (r: bool)
    ensures
        r == is_continuation(byte),
{
    assert((byte & 0b1100_0000 == 0b1000_0000) == (0x80 <= byte && byte <= 0xbf)) by (bit_vector);
    byte & 0b1100_0000 == 0b1000_0000
}

/// The last place up to `end`, but not before `start`, that does not lie inside
/// a character.
pub open spec fn character_cut(bytes: Seq<u8>, start: int, end: int) -> int
    decreases end - start,
{
    if start < end < bytes.len() && is_continuation(bytes[end]) {
        character_cut(bytes, start, end - 1)
    } else {
        end
    }
}

/// Whether a whole mark stands at `at`.
pub open spec fn mark_at(bytes: Seq<u8>, at: int, marker: Seq<u8>) -> bool {
    &&& at + marker.len() <= bytes.len()
    &&& bytes.subrange(at, at + marker.len()) == marker
}

/// The end of the first mark that begins between `at` and `end`.
pub open spec fn mark_end(bytes: Seq<u8>, at: int, end: int, marker: Seq<u8>) -> Option<int>
    decreases end - at,
{
    if at >= end {
        None
    } else if mark_at(bytes, at, marker) {
        Some(at + marker.len())
    } else {
        mark_end(bytes, at + 1, end, marker)
    }
}

/// Where the search for a mark that a cut at `end` would split begins.
pub open spec fn search_start(start: int, end: int, marker: Seq<u8>) -> int {
    let back = end - (marker.len() - 1);
    if back > start {
        back
    } else {
        start
    }
}

/// The cut at `end`, put off to the end of a mark that it would split.
pub open spec fn marker_cut(bytes: Seq<u8>, start: int, end: int) -> int {
    match mark_end(bytes, search_start(start, end, paste_start()), end, paste_start()) {
        Some(cut) => cut,
        None => match mark_end(bytes, search_start(start, end, paste_end()), end, paste_end()) {
            Some(cut) => cut,
            None => end,
        },
    }
}

/// Where the chunk that begins at `start` ends.
pub open spec fn chunk_end(bytes: Seq<u8>, start: int) -> int {
    let ideal = start + ATTACH_INPUT_CHUNK_LIMIT;
    if ideal >= bytes.len() {
        bytes.len() as int
    } else {
        let cut = marker_cut(bytes, start, character_cut(bytes, start, ideal));
        if cut > start {
            cut
        } else {
            ideal
        }
    }
}

/// Computes [`character_cut`].
fn avoid_utf8_split(bytes: &[u8], start: usize, ideal_end: usize) -> (r: usize)
    requires
        start <= ideal_end <= bytes@.len(),
    ensures
        r == character_cut(bytes@, start as int, ideal_end as int),
        start <= r <= ideal_end,
{
    let mut end: usize = ideal_end;
    while end > start && end < bytes.len() && is_utf8_continuation(bytes[end])
        invariant
            start <= end <= ideal_end <= bytes@.len(),
            character_cut(bytes@, start as int, ideal_end as int) == character_cut(
                bytes@,
                start as int,
                end as int,
            ),
        decreases end,
    {
        end = end - 1;
    }
    end
}

/// Computes [`mark_at`].
fn stands_at(bytes: &[u8], at: usize, marker: &Vec<u8>) -> (r: bool)
    requires
        at <= bytes@.len(),
    ensures
        r == mark_at(bytes@, at as int, marker@),
{
    let size = marker.len();
    let length = bytes.len();
    if size > length - at {
        return false;
    }
    let mut i: usize = 0;
    while i < size
        invariant
            i <= size,
            size == marker@.len(),
            length == bytes@.len(),
            at + size <= length,
            forall|j: int| 0 <= j < i ==> bytes@[at + j] == marker@[j],
        decreases size - i,
    {
        if bytes[at + i] != marker[i] {
            assert(bytes@.subrange(at as int, at + size)[i as int] != marker@[i as int]);
            return false;
        }
        i = i + 1;
    }
    assert(bytes@.subrange(at as int, at + size) =~= marker@);
    true
}

/// Computes [`mark_end`] from [`search_start`] on.
fn marker_adjusted_end(bytes: &[u8], start: usize, end: usize, marker: &Vec<u8>) -> (r: Option<usize>)
    requires
        start <= end <= bytes@.len(),
        marker@.len() > 0,
    ensures
        match r {
            Some(cut) => mark_end(
                bytes@,
                search_start(start as int, end as int, marker@),
                end as int,
                marker@,
            ) == Some(cut as int),
            None => mark_end(
                bytes@,
                search_start(start as int, end as int, marker@),
                end as int,
                marker@,
            ) is None,
        },
{
    let back: usize = end.saturating_sub(marker.len() - 1);
    let mut at: usize = if back > start {
        back
    } else {
        start
    };
    let ghost first = at as int;
    let length = bytes.len();
    while at < end
        invariant
            first <= at <= end <= bytes@.len(),
            length == bytes@.len(),
            first == search_start(start as int, end as int, marker@),
            mark_end(bytes@, first, end as int, marker@) == mark_end(
                bytes@,
                at as int,
                end as int,
                marker@,
            ),
        decreases end - at,
    {
        if stands_at(bytes, at, marker) {
            return Some(at + marker.len());
        }
        at = at + 1;
    }
    None
}

/// Computes [`marker_cut`].
fn avoid_bracketed_paste_marker_split(bytes: &[u8], start: usize, end: usize) -> (r: usize)
    requires
        start <= end <= bytes@.len(),
    ensures
        r == marker_cut(bytes@, start as int, end as int),
{
    if let Some(adjusted) = marker_adjusted_end(bytes, start, end, &bracketed_paste_start()) {
        return adjusted;
    }
    if let Some(adjusted) = marker_adjusted_end(bytes, start, end, &bracketed_paste_end()) {
        return adjusted;
    }
    end
}

/// A mark that begins close to the cut ends after it and inside the input.
proof fn lemma_mark_end(bytes: Seq<u8>, at: int, end: int, marker: Seq<u8>)
    requires
        0 <= at,
        end <= bytes.len(),
        end - at < marker.len(),
    ensures
        mark_end(bytes, at, end, marker) matches Some(cut) ==> end < cut <= bytes.len() && cut
            <= end + marker.len() - 1,
    decreases end - at,
{
    if at < end && !mark_at(bytes, at, marker) {
        lemma_mark_end(bytes, at + 1, end, marker);
    }
}

/// The cut at a character lies between the two places.
proof fn lemma_character_cut(bytes: Seq<u8>, start: int, end: int)
    requires
        start <= end,
    ensures
        start <= character_cut(bytes, start, end) <= end,
    decreases end - start,
{
    if start < end < bytes.len() && is_continuation(bytes[end]) {
        lemma_character_cut(bytes, start, end - 1);
    }
}

/// A chunk is not empty, lies inside the input, and is longer than the limit by
/// less than a mark.
pub proof fn law_chunks_are_bounded(bytes: Seq<u8>, start: int)
    requires
        0 <= start < bytes.len(),
    ensures
        start < chunk_end(bytes, start) <= bytes.len(),
        chunk_end(bytes, start) - start <= ATTACH_INPUT_CHUNK_LIMIT + MARKER_LEN - 1,
{
    let ideal = start + ATTACH_INPUT_CHUNK_LIMIT;
    if ideal < bytes.len() {
        lemma_character_cut(bytes, start, ideal);
        let cut = character_cut(bytes, start, ideal);
        lemma_mark_end(bytes, search_start(start, cut, paste_start()), cut, paste_start());
        lemma_mark_end(bytes, search_start(start, cut, paste_end()), cut, paste_end());
    }
}

/// The chunks of the input from `start` on.
pub open spec fn chunks_from(bytes: Seq<u8>, start: int) -> Seq<Seq<u8>>
    decreases bytes.len() - start,
    when 0 <= start
{
    if start >= bytes.len() || !(start < chunk_end(bytes, start) <= bytes.len()) {
        Seq::empty()
    } else {
        seq![bytes.subrange(start, chunk_end(bytes, start))] + chunks_from(
            bytes,
            chunk_end(bytes, start),
        )
    }
}

/// Chunks, one after the other.
pub open spec fn concatenated(chunks: Seq<Seq<u8>>) -> Seq<u8>
    decreases chunks.len(),
{
    if chunks.len() == 0 {
        Seq::empty()
    } else {
        chunks[0] + concatenated(chunks.skip(1))
    }
}

/// The chunks, one after the other, are the input.
pub proof fn law_chunks_make_up_input(bytes: Seq<u8>, start: int)
    requires
        0 <= start <= bytes.len(),
    ensures
        concatenated(chunks_from(bytes, start)) == bytes.skip(start),
    decreases bytes.len() - start,
{
    if start < bytes.len() {
        law_chunks_are_bounded(bytes, start);
        let end = chunk_end(bytes, start);
        law_chunks_make_up_input(bytes, end);
        let chunks = chunks_from(bytes, start);
        assert(chunks.skip(1) =~= chunks_from(bytes, end));
        assert(bytes.skip(start) =~= bytes.subrange(start, end) + bytes.skip(end));
    } else {
        assert(bytes.skip(start) =~= Seq::empty());
    }
}

/// A mark that is found stands where it was looked for.
proof fn lemma_mark_found(bytes: Seq<u8>, at: int, end: int, marker: Seq<u8>)
    ensures
        mark_end(bytes, at, end, marker) matches Some(cut) ==> at <= cut - marker.len() < end
            && mark_at(bytes, cut - marker.len(), marker),
    decreases end - at,
{
    if at < end && !mark_at(bytes, at, marker) {
        lemma_mark_found(bytes, at + 1, end, marker);
    }
}

/// A mark that begins between two places is found, or one before it.
proof fn lemma_mark_is_found(bytes: Seq<u8>, from: int, at: int, end: int, marker: Seq<u8>)
    requires
        from <= at < end,
        mark_at(bytes, at, marker),
    ensures
        mark_end(bytes, from, end, marker) is Some,
    decreases at - from,
{
    if !mark_at(bytes, from, marker) {
        lemma_mark_is_found(bytes, from + 1, at, end, marker);
    }
}

/// Whether a mark of either kind stands at `at`.
pub open spec fn is_mark(bytes: Seq<u8>, at: int) -> bool {
    mark_at(bytes, at, paste_start()) || mark_at(bytes, at, paste_end())
}

/// The bytes of a mark: it begins with the escape byte, has it nowhere else,
/// and holds nothing but ASCII.
proof fn lemma_mark_bytes(bytes: Seq<u8>, at: int)
    requires
        0 <= at,
        is_mark(bytes, at),
    ensures
        bytes[at] == 0x1b,
        forall|i: int| at < i < at + MARKER_LEN ==> #[trigger] bytes[i] != 0x1b && bytes[i] < 0x80,
{
    let mark = bytes.subrange(at, at + MARKER_LEN);
    assert(mark[0] == bytes[at]);
    assert forall|i: int| at < i < at + MARKER_LEN implies #[trigger] bytes[i] != 0x1b && bytes[i]
        < 0x80 by {
        assert(mark[i - at] == bytes[i]);
    }
}

/// Where a cut is put off, it is to the end of a mark that begins before it.
proof fn lemma_marker_cut(bytes: Seq<u8>, start: int, end: int)
    requires
        0 <= start <= end <= bytes.len(),
    ensures
        ({
            let cut = marker_cut(bytes, start, end);
            cut == end || (end < cut <= bytes.len() && start <= cut - MARKER_LEN < end && is_mark(
                bytes,
                cut - MARKER_LEN,
            ))
        }),
{
    let first = search_start(start, end, paste_start());
    assert(first == search_start(start, end, paste_end()));
    lemma_mark_end(bytes, first, end, paste_start());
    lemma_mark_end(bytes, first, end, paste_end());
    lemma_mark_found(bytes, first, end, paste_start());
    lemma_mark_found(bytes, first, end, paste_end());
}

/// Every byte between the cut at a character and the limit goes on with one.
proof fn lemma_character_cut_skips(bytes: Seq<u8>, start: int, end: int)
    requires
        start <= end < bytes.len(),
    ensures
        forall|i: int|
            character_cut(bytes, start, end) < i <= end ==> is_continuation(#[trigger] bytes[i]),
    decreases end - start,
{
    if start < end && is_continuation(bytes[end]) {
        lemma_character_cut_skips(bytes, start, end - 1);
    }
}

/// No chunk ends inside a mark.
pub proof fn law_marks_stay_whole(bytes: Seq<u8>, start: int, at: int)
    requires
        0 <= start <= at,
        is_mark(bytes, at),
    ensures
        !(at < chunk_end(bytes, start) < at + MARKER_LEN),
{
    let ideal = start + ATTACH_INPUT_CHUNK_LIMIT;
    lemma_mark_bytes(bytes, at);
    if ideal < bytes.len() {
        lemma_character_cut(bytes, start, ideal);
        lemma_character_cut_skips(bytes, start, ideal);
        let end = character_cut(bytes, start, ideal);
        lemma_marker_cut(bytes, start, end);
        let cut = marker_cut(bytes, start, end);
        if cut > end {
            lemma_mark_bytes(bytes, cut - MARKER_LEN);
        } else if at < end < at + MARKER_LEN {
            let first = search_start(start, end, paste_start());
            if mark_at(bytes, at, paste_start()) {
                lemma_mark_is_found(bytes, first, at, end, paste_start());
                lemma_mark_end(bytes, first, end, paste_start());
            } else {
                lemma_mark_is_found(bytes, first, at, end, paste_end());
                lemma_mark_end(bytes, first, end, paste_end());
                lemma_mark_end(bytes, first, end, paste_start());
            }
        }
    }
}

/// Among any four bytes of a text in a row, one begins a character.
proof fn lemma_character_begins(bytes: Seq<u8>, i: int) -> (j: int)
    requires
        valid_utf8(bytes),
        0 <= i,
        i + 3 < bytes.len(),
    ensures
        i <= j <= i + 3,
        !is_continuation(bytes[j]),
    decreases bytes.len(),
{
    let n = vstd::utf8::length_of_first_scalar(bytes);
    let rest = vstd::utf8::pop_first_scalar(bytes);
    assert(rest =~= bytes.skip(n));
    if i == 0 {
        0
    } else if i >= n {
        let k = lemma_character_begins(rest, i - n);
        assert(rest[k] == bytes[k + n]);
        k + n
    } else {
        reveal_with_fuel(valid_utf8, 2);
        assert(n <= 4 && rest.len() > 0);
        assert(vstd::utf8::valid_first_scalar(rest));
        assert(rest[0] == bytes[n]);
        n
    }
}

/// The cut at a character is no earlier than any place that begins one.
proof fn lemma_character_cut_reaches(bytes: Seq<u8>, start: int, end: int, j: int)
    requires
        start < j <= end < bytes.len(),
        !is_continuation(bytes[j]),
    ensures
        j <= character_cut(bytes, start, end) <= end,
        !is_continuation(bytes[character_cut(bytes, start, end)]),
    decreases end - start,
{
    if is_continuation(bytes[end]) {
        lemma_character_cut_reaches(bytes, start, end - 1, j);
    }
}

/// In a text, what follows an ASCII byte is not inside a character.
proof fn lemma_after_ascii(bytes: Seq<u8>, i: int)
    requires
        valid_utf8(bytes),
        0 < i <= bytes.len(),
        bytes[i - 1] < 0x80,
    ensures
        is_char_boundary(bytes, i),
    decreases bytes.len(),
{
    let n = vstd::utf8::length_of_first_scalar(bytes);
    let rest = vstd::utf8::pop_first_scalar(bytes);
    assert(rest =~= bytes.skip(n));
    if i > n {
        assert(rest[i - n - 1] == bytes[i - 1]);
        lemma_after_ascii(rest, i - n);
    } else {
        assert(i == n);
        assert(is_char_boundary(rest, 0));
    }
}

/// In a text, no chunk ends inside a character.
pub proof fn law_characters_stay_whole(bytes: Seq<u8>, start: int)
    requires
        valid_utf8(bytes),
        0 <= start < bytes.len(),
    ensures
        is_char_boundary(bytes, chunk_end(bytes, start)),
{
    let ideal = start + ATTACH_INPUT_CHUNK_LIMIT;
    if ideal < bytes.len() {
        let j = lemma_character_begins(bytes, ideal - 3);
        lemma_character_cut_reaches(bytes, start, ideal, j);
        let end = character_cut(bytes, start, ideal);
        vstd::utf8::is_char_boundary_iff_not_is_continuation_byte(bytes, end);
        lemma_marker_cut(bytes, start, end);
        let cut = marker_cut(bytes, start, end);
        if cut > end {
            lemma_mark_bytes(bytes, cut - MARKER_LEN);
            lemma_after_ascii(bytes, cut);
        }
    } else {
        vstd::utf8::is_char_boundary_start_end_of_seq(bytes);
    }
}

/// The chunks of a text are texts.
pub proof fn law_chunks_of_text_are_texts(bytes: Seq<u8>, start: int)
    requires
        valid_utf8(bytes),
        0 <= start <= bytes.len(),
        is_char_boundary(bytes, start),
    ensures
        forall|i: int|
            0 <= i < chunks_from(bytes, start).len() ==> valid_utf8(
                #[trigger] chunks_from(bytes, start)[i],
            ),
    decreases bytes.len() - start,
{
    if start < bytes.len() {
        law_chunks_are_bounded(bytes, start);
        law_characters_stay_whole(bytes, start);
        let end = chunk_end(bytes, start);
        law_chunks_of_text_are_texts(bytes, end);
        lemma_between_boundaries(bytes, start, end);
        let chunks = chunks_from(bytes, start);
        assert forall|i: int| 0 <= i < chunks.len() implies valid_utf8(#[trigger] chunks[i]) by {
            if i > 0 {
                assert(chunks[i] == chunks_from(bytes, end)[i - 1]);
            }
        }
    }
}

/// What stands between two places of a text that are not inside a character is
/// a text.
proof fn lemma_between_boundaries(bytes: Seq<u8>, start: int, end: int)
    requires
        valid_utf8(bytes),
        0 <= start <= end <= bytes.len(),
        is_char_boundary(bytes, start),
        is_char_boundary(bytes, end),
    ensures
        valid_utf8(bytes.subrange(start, end)),
    decreases bytes.len(),
{
    if start == 0 {
        vstd::utf8::valid_utf8_split(bytes, end);
    } else {
        let n = vstd::utf8::length_of_first_scalar(bytes);
        let rest = vstd::utf8::pop_first_scalar(bytes);
        assert(rest =~= bytes.skip(n));
        assert(is_char_boundary(rest, start - n));
        assert(is_char_boundary(rest, end - n));
        assert(start - n >= 0);
        lemma_between_boundaries(rest, start - n, end - n);
        assert(rest.subrange(start - n, end - n) =~= bytes.subrange(start, end));
    }
}

/// Computes [`chunk_end`] where the input is longer than a chunk.
fn bounded_chunk_end(bytes: &[u8], start: usize, ideal_end: usize) -> (r: usize)
    requires
        start < ideal_end < bytes@.len(),
        ideal_end == start + ATTACH_INPUT_CHUNK_LIMIT,
    ensures
        r == chunk_end(bytes@, start as int),
{
    let end = avoid_utf8_split(bytes, start, ideal_end);
    let end = avoid_bracketed_paste_marker_split(bytes, start, end);
    if end > start {
        end
    } else {
        ideal_end
    }
}

/// The chunks of an input, one at a time.
#[derive(Debug)]
pub struct AttachInputChunks<'a> {
    /// The input.
    bytes: &'a [u8],
    /// Where the next chunk begins.
    offset: usize,
}

impl<'a> AttachInputChunks<'a> {
    /// The chunks that are still to come.
    pub closed spec fn coming(self) -> Seq<Seq<u8>> {
        chunks_from(self.bytes@, self.offset as int)
    }

    /// The next chunk, until the input is used up.
    pub fn next(&mut self) -> (r: Option<&'a [u8]>)
        ensures
            match r {
                Some(chunk) => {
                    &&& old(self).coming().len() > 0
                    &&& chunk@ == old(self).coming()[0]
                    &&& final(self).coming() == old(self).coming().skip(1)
                },
                None => old(self).coming().len() == 0 && final(self).coming().len() == 0,
            },
    {
        if self.offset >= self.bytes.len() {
            return None;
        }
        let start: usize = self.offset;
        proof {
            law_chunks_are_bounded(self.bytes@, start as int);
        }
        let end: usize = if self.bytes.len() - start <= ATTACH_INPUT_CHUNK_LIMIT {
            self.bytes.len()
        } else {
            bounded_chunk_end(self.bytes, start, start + ATTACH_INPUT_CHUNK_LIMIT)
        };
        let ghost before = self.coming();
        self.offset = end;
        assert(self.coming() =~= before.skip(1));
        Some(slice_subrange(self.bytes, start, end))
    }
}

/// The chunks of an input: one after the other, they are the input, and those of
/// a text are texts.
pub fn attach_input_chunks(bytes: &[u8]) -> (r: AttachInputChunks<'_>)
    ensures
        r.coming() == chunks_from(bytes@, 0),
        concatenated(r.coming()) == bytes@,
        valid_utf8(bytes@) ==> forall|i: int|
            0 <= i < r.coming().len() ==> valid_utf8(#[trigger] r.coming()[i]),
{
    proof {
        if valid_utf8(bytes@) {
            law_chunks_of_text_are_texts(bytes@, 0);
        }
        law_chunks_make_up_input(bytes@, 0);
        assert(bytes@.skip(0) =~= bytes@);
    }
    AttachInputChunks { bytes, offset: 0 }
}

} // verus!
