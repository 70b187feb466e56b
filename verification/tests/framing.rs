use chat_relay::framing::FrameBuffer;

#[test]
fn no_line_until_newline_arrives() {
    let mut fb = FrameBuffer::new();
    fb.feed(b"{\"author\":\"a\",");
    assert!(fb.take_line().is_none());
    fb.feed(b"\"text\":\"hi\"}");
    assert!(fb.take_line().is_none());
    fb.feed(b"\n");
    let line = fb.take_line().unwrap();
    assert_eq!(line, b"{\"author\":\"a\",\"text\":\"hi\"}\n");
    assert!(fb.take_line().is_none());
}

#[test]
fn line_keeps_its_newline() {
    let mut fb = FrameBuffer::new();
    fb.feed(b"abc\n");
    assert_eq!(fb.take_line().unwrap(), b"abc\n");
}

#[test]
fn one_chunk_many_lines() {
    let mut fb = FrameBuffer::new();
    fb.feed(b"one\ntwo\nthr");
    assert_eq!(fb.take_line().unwrap(), b"one\n");
    assert_eq!(fb.take_line().unwrap(), b"two\n");
    assert!(fb.take_line().is_none());
    fb.feed(b"ee\n");
    assert_eq!(fb.take_line().unwrap(), b"three\n");
}

#[test]
fn empty_line_is_a_line() {
    let mut fb = FrameBuffer::new();
    fb.feed(b"\n\n");
    assert_eq!(fb.take_line().unwrap(), b"\n");
    assert_eq!(fb.take_line().unwrap(), b"\n");
    assert!(fb.take_line().is_none());
}
