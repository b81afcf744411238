//! Typed and pasted input, cut into chunks.
use rmux::input::{
    attach_input_chunks, bracketed_paste_end, bracketed_paste_start, ATTACH_INPUT_CHUNK_LIMIT,
};

fn collect_chunks(input: &[u8]) -> Vec<Vec<u8>> {
    let mut chunks = attach_input_chunks(input);
    let mut out: Vec<Vec<u8>> = Vec::new();
    while let Some(chunk) = chunks.next() {
        out.push(chunk.to_vec());
    }
    out
}

#[test]
fn paste_chunks_preserve_bracketed_paste_markers() {
    let mut input = vec![b'a'; ATTACH_INPUT_CHUNK_LIMIT - 2];
    input.extend_from_slice(&bracketed_paste_start());
    input.extend_from_slice(b"line one\r\nline two");
    input.extend_from_slice(&bracketed_paste_end());

    let chunks = collect_chunks(&input);

    assert_eq!(chunks.concat(), input);
    assert_eq!(
        chunks[0].len(),
        ATTACH_INPUT_CHUNK_LIMIT - 2 + bracketed_paste_start().len()
    );
}

#[test]
fn paste_chunks_do_not_split_utf8_scalars() {
    let mut input = vec![b'a'; ATTACH_INPUT_CHUNK_LIMIT - 1];
    input.extend_from_slice("東".as_bytes());
    input.extend_from_slice(" tail".as_bytes());

    let chunks = collect_chunks(&input);

    assert_eq!(chunks.concat(), input);
    assert_eq!(chunks[0].len(), ATTACH_INPUT_CHUNK_LIMIT - 1);
    assert!(std::str::from_utf8(&chunks[1]).is_ok());
}

#[test]
fn paste_chunks_preserve_control_bytes() {
    let mut input = Vec::from([0x02, b'w', 0x03]);
    input.extend(vec![b'x'; ATTACH_INPUT_CHUNK_LIMIT + 32]);

    let chunks = collect_chunks(&input);

    assert_eq!(chunks.concat(), input);
    assert_eq!(&chunks[0][..3], &[0x02, b'w', 0x03]);
}

#[test]
fn marks_have_the_bytes_that_terminals_send() {
    assert_eq!(bracketed_paste_start(), b"\x1b[200~");
    assert_eq!(bracketed_paste_end(), b"\x1b[201~");
}

#[test]
fn no_input_gives_no_chunk() {
    assert!(collect_chunks(b"").is_empty());
}

#[test]
fn input_up_to_the_limit_stays_whole() {
    let input = vec![b'x'; ATTACH_INPUT_CHUNK_LIMIT];
    assert_eq!(collect_chunks(&input), vec![input.clone()]);
}

#[test]
fn chunks_stay_near_the_limit() {
    let input = vec![b'x'; 3 * ATTACH_INPUT_CHUNK_LIMIT + 7];
    let sizes: Vec<usize> = collect_chunks(&input).iter().map(|chunk| chunk.len()).collect();
    assert_eq!(
        sizes,
        vec![ATTACH_INPUT_CHUNK_LIMIT, ATTACH_INPUT_CHUNK_LIMIT, ATTACH_INPUT_CHUNK_LIMIT, 7]
    );
}

#[test]
fn an_end_mark_over_the_cut_stays_whole() {
    let mut input = vec![b'a'; ATTACH_INPUT_CHUNK_LIMIT - 1];
    input.extend_from_slice(&bracketed_paste_end());
    input.extend_from_slice(b"after");

    let chunks = collect_chunks(&input);

    assert_eq!(chunks.len(), 2);
    assert!(chunks[0].ends_with(&bracketed_paste_end()));
    assert_eq!(chunks[1], b"after");
}

#[test]
fn a_lone_escape_at_the_limit_moves_no_cut() {
    let mut input = vec![b'a'; ATTACH_INPUT_CHUNK_LIMIT - 1];
    input.push(0x1b);
    input.extend_from_slice("東東".as_bytes());

    let chunks = collect_chunks(&input);

    assert_eq!(chunks.concat(), input);
    assert_eq!(chunks[0].len(), ATTACH_INPUT_CHUNK_LIMIT);
    assert!(chunks.iter().all(|chunk| std::str::from_utf8(chunk).is_ok()));
}

#[test]
fn the_beginning_of_a_mark_that_goes_on_otherwise_moves_no_cut() {
    let mut input = vec![b'a'; ATTACH_INPUT_CHUNK_LIMIT - 3];
    input.extend_from_slice(b"\x1b[2");
    input.extend_from_slice(&bracketed_paste_start());
    input.extend_from_slice("東".as_bytes());

    let chunks = collect_chunks(&input);

    assert_eq!(chunks[0].len(), ATTACH_INPUT_CHUNK_LIMIT);
    assert!(chunks[1].starts_with(&bracketed_paste_start()));
}

#[test]
fn bytes_that_are_no_text_are_passed_on() {
    let input = vec![0x80; ATTACH_INPUT_CHUNK_LIMIT + 1];
    assert_eq!(collect_chunks(&input).concat(), input);
}
