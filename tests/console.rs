use imorph_updater::pty::{clean_line_exec, strip_escape_sequences, LineAssembler, PollEvent};

#[test]
fn escape_sequences_are_stripped() {
    let mut lines = LineAssembler::new();
    let out = lines.push_chunk(&b"\x1b[31mHello\x1b[0m\n".to_vec());
    assert_eq!(out, vec![b"Hello".to_vec()]);
    assert!(lines.pending().is_empty());
}

#[test]
fn trailing_partial_line_is_flushed() {
    let mut lines = LineAssembler::new();
    let (out, keep) = lines.on_poll(PollEvent::Chunk(b"no newline here".to_vec()));
    assert!(out.is_empty());
    assert!(keep);
    let (out, keep) = lines.on_poll(PollEvent::Timeout { child_alive: false });
    assert!(out.is_empty());
    assert!(!keep);
    assert_eq!(lines.finish(), Some(b"no newline here".to_vec()));
    assert_eq!(lines.finish(), None);
}

#[test]
fn lines_split_across_chunks() {
    let mut lines = LineAssembler::new();
    assert!(lines.push_chunk(&b"par".to_vec()).is_empty());
    let out = lines.push_chunk(&b"tial\r\nnext\nrest".to_vec());
    assert_eq!(out, vec![b"partial".to_vec(), b"next".to_vec()]);
    assert_eq!(lines.pending(), &b"rest".to_vec());
}

#[test]
fn escape_split_across_chunks_is_stripped() {
    let mut lines = LineAssembler::new();
    assert!(lines.push_chunk(&b"\x1b[1;3".to_vec()).is_empty());
    let out = lines.push_chunk(&b"2mok\n".to_vec());
    assert_eq!(out, vec![b"ok".to_vec()]);
}

#[test]
fn poll_events_decide_the_loop() {
    let mut lines = LineAssembler::new();
    assert!(lines.on_poll(PollEvent::Timeout { child_alive: true }).1);
    assert!(!lines.on_poll(PollEvent::EndOfStream).1);
    assert!(!lines.on_poll(PollEvent::Disconnected).1);
}

#[test]
fn empty_lines_are_kept() {
    let mut lines = LineAssembler::new();
    let out = lines.push_chunk(&b"\n\r\n".to_vec());
    assert_eq!(out, vec![Vec::<u8>::new(), Vec::new()]);
    assert_eq!(lines.finish(), None);
}

#[test]
fn incomplete_escape_is_kept() {
    assert_eq!(strip_escape_sequences(&b"a\x1b[12;b".to_vec()), b"a".to_vec());
    assert_eq!(strip_escape_sequences(&b"a\x1b[12;".to_vec()), b"a\x1b[12;".to_vec());
    assert_eq!(strip_escape_sequences(&b"\x1b(x".to_vec()), b"\x1b(x".to_vec());
    assert_eq!(strip_escape_sequences(&b"\x1b\x1b[Kz".to_vec()), b"\x1bz".to_vec());
}

#[test]
fn clean_line_trims_only_line_endings() {
    assert_eq!(clean_line_exec(&b"  text \r\n\r\n".to_vec()), b"  text ".to_vec());
    assert_eq!(clean_line_exec(&b"\x1b[2K\r".to_vec()), Vec::<u8>::new());
}
