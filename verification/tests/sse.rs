use lmoclient::sse::{assemble, FrameAssembler};

fn feed(chunks: &[&[u8]]) -> (Vec<String>, String) {
    let mut assembler = FrameAssembler::new();
    let mut records = Vec::new();
    for chunk in chunks {
        records.extend(assembler.push_chunk(chunk));
    }
    (records, assembler.pending_text())
}

#[test]
fn assembler_hands_out_complete_records() {
    let mut a = FrameAssembler::new();
    assert_eq!(a.pending_text(), "");
    let first = a.push_chunk(b"data: one\n\ndata: tw");
    assert_eq!(first, vec!["data: one".to_string()]);
    assert_eq!(a.pending_text(), "data: tw");
    let second = a.push_chunk(b"o\n\n\nrest");
    assert_eq!(second, vec!["data: two".to_string()]);
    assert_eq!(a.pending_text(), "\nrest");
}

#[test]
fn several_records_in_one_chunk_come_in_order() {
    let (records, rest) = feed(&[b"a\n\nb\n\n\n\nc\n\n"]);
    assert_eq!(records, vec!["a", "b", "", "c"]);
    assert_eq!(rest, "");
}

#[test]
fn blank_line_split_across_chunks_still_ends_the_record() {
    let (records, rest) = feed(&[b"a\n", b"\nb"]);
    assert_eq!(records, vec!["a"]);
    assert_eq!(rest, "b");
}

#[test]
fn three_line_feeds_end_one_record() {
    let (records, rest) = feed(&[b"a\n\n\n"]);
    assert_eq!(records, vec!["a"]);
    assert_eq!(rest, "\n");
    let (records, rest) = feed(&[b"a\n\n\n", b"\n"]);
    assert_eq!(records, vec!["a", ""]);
    assert_eq!(rest, "");
}

#[test]
fn carriage_returns_do_not_end_a_record() {
    let (records, rest) = feed(&[b"a\r\n\r\nb"]);
    assert!(records.is_empty());
    assert_eq!(rest, "a\r\n\r\nb");
}

#[test]
fn trailing_text_without_blank_line_is_held_back() {
    let (records, rest) = feed(&[b"data: last"]);
    assert!(records.is_empty());
    assert_eq!(rest, "data: last");
}

#[test]
fn chunk_that_is_not_utf8_is_dropped() {
    let mut a = FrameAssembler::new();
    assert!(a.push_chunk(b"a\n").is_empty());
    assert!(a.push_chunk(&[b'x', 0xff, b'\n', b'\n']).is_empty());
    assert_eq!(a.pending_text(), "a\n");
    assert_eq!(a.push_chunk(b"\nb"), vec!["a".to_string()]);
    assert_eq!(a.pending_text(), "b");
}

#[test]
fn character_cut_by_a_chunk_boundary_drops_both_chunks() {
    let text = "é\n\n".as_bytes();
    let (records, rest) = feed(&[&text[..1], &text[1..]]);
    assert!(records.is_empty());
    assert_eq!(rest, "");
    let (records, rest) = feed(&[text]);
    assert_eq!(records, vec!["é"]);
    assert_eq!(rest, "");
}

#[test]
fn push_text_appends_to_what_is_held_back() {
    let mut a = FrameAssembler::new();
    assert!(a.push_text("x").is_empty());
    assert_eq!(a.push_text("y\n\nz"), vec!["xy".to_string()]);
    assert_eq!(a.pending_text(), "z");
    assert!(a.push_text("").is_empty());
    assert_eq!(a.pending_text(), "z");
}

#[test]
fn records_do_not_depend_on_chunk_boundaries() {
    let input = "event: a\ndata: {\"k\":1}\n\n: ping\n\n\ndata: ü\n\n\n\ntail";
    let bytes = input.as_bytes();
    let whole = feed(&[bytes]);
    assert_eq!(whole.0, vec!["event: a\ndata: {\"k\":1}", ": ping", "\ndata: ü", ""]);
    assert_eq!(whole.1, "tail");
    for i in 0..=bytes.len() {
        if !input.is_char_boundary(i) {
            continue;
        }
        for j in i..=bytes.len() {
            if !input.is_char_boundary(j) {
                continue;
            }
            let cut = feed(&[&bytes[..i], &bytes[i..j], &bytes[j..]]);
            assert_eq!(cut, whole, "cut at {} and {}", i, j);
        }
    }
    let single: Vec<&[u8]> = input
        .char_indices()
        .map(|(i, c)| &bytes[i..i + c.len_utf8()])
        .collect();
    assert_eq!(feed(&single), whole);
}

#[test]
fn assembling_all_chunks_agrees_with_pushing_them() {
    let chunks: Vec<Vec<u8>> = vec![
        b"a\n".to_vec(),
        b"\nb\n\nc".to_vec(),
        vec![0xff],
        b"\n".to_vec(),
        b"\nd".to_vec(),
    ];
    let slices: Vec<&[u8]> = chunks.iter().map(|c| c.as_slice()).collect();
    assert_eq!(assemble(&chunks), feed(&slices));
    assert_eq!(assemble(&chunks), (vec!["a".to_string(), "b".to_string(), "c".to_string()], "d".to_string()));
    assert_eq!(assemble(&vec![]), (vec![], String::new()));
    let whole: Vec<u8> = chunks.iter().filter(|c| c.as_slice() != [0xff]).flatten().copied().collect();
    assert_eq!(assemble(&vec![whole]), assemble(&chunks));
}
