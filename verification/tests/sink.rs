use liars_dice::sink::{BrokenPipe, TerminalSink};

#[test]
fn writes_add_up() {
    let mut sink = TerminalSink::new();
    assert!(sink.pending().is_empty());
    assert_eq!(sink.write(b"ab"), 2);
    assert_eq!(sink.write(b""), 0);
    assert_eq!(sink.write(b"cde"), 3);
    assert_eq!(sink.pending(), b"abcde".to_vec());
    assert_eq!(sink.bytes, b"abcde".to_vec());
}

#[test]
fn a_flush_empties_the_sink() {
    let mut sink = TerminalSink::new();
    sink.write(b"ab");
    assert_eq!(sink.settle(true), Ok(()));
    assert!(sink.pending().is_empty());
}

#[test]
fn a_failed_flush_keeps_the_bytes() {
    let mut sink = TerminalSink::new();
    sink.write(b"ab");
    assert_eq!(sink.settle(false), Err(BrokenPipe));
    assert_eq!(sink.pending(), b"ab".to_vec());
}

#[test]
fn sent_and_waiting_bytes_are_those_written() {
    let mut sink = TerminalSink::new();
    let mut sent: Vec<u8> = vec![];
    let mut written: Vec<u8> = vec![];
    for (data, ok) in [(&b"one"[..], true), (b"two", false), (b"three", false), (b"4", true), (b"5", false)] {
        sink.write(data);
        written.extend_from_slice(data);
        let pending = sink.pending();
        if ok {
            sent.extend_from_slice(&pending);
        }
        assert_eq!(sink.settle(ok).is_ok(), ok);
    }
    assert_eq!(sent, b"onetwothree4".to_vec());
    sent.extend_from_slice(&sink.pending());
    assert_eq!(sent, written);
}
