use caller_id::reassembler::LineBuffer;

#[test]
fn completed_lines_are_trimmed_and_yielded() {
    let mut buf = LineBuffer::new();
    let lines = buf.feed("RING\r\nNMBR=5551234567\r\n");
    assert_eq!(lines, vec!["RING".to_string(), "NMBR=5551234567".to_string()]);
}

#[test]
fn partial_line_stays_buffered_until_terminated() {
    let mut buf = LineBuffer::new();
    assert_eq!(buf.feed("NMBR=555"), Vec::<String>::new());
    assert_eq!(buf.feed("1234567\r"), Vec::<String>::new());
    assert_eq!(buf.feed("\nRING"), vec!["NMBR=5551234567".to_string()]);
}

#[test]
fn empty_trimmed_lines_are_dropped() {
    let mut buf = LineBuffer::new();
    let lines = buf.feed("\n \r\n\t\nRING\n\n");
    assert_eq!(lines, vec!["RING".to_string()]);
}

#[test]
fn chunk_sizes_do_not_change_the_lines() {
    let text = "RING\r\nNMBR=5551234567\r\nDATE=0101\nleftover";
    let mut whole = LineBuffer::new();
    let at_once = whole.feed(text);

    let mut byte_wise = LineBuffer::new();
    let mut gathered: Vec<String> = Vec::new();
    for c in text.chars() {
        gathered.extend(byte_wise.feed(&c.to_string()));
    }
    assert_eq!(gathered, at_once);

    // Both buffers hold the same unterminated remainder: terminating it now
    // yields the same final line from each.
    assert_eq!(whole.feed("\n"), vec!["leftover".to_string()]);
    assert_eq!(byte_wise.feed("\n"), vec!["leftover".to_string()]);
}

#[test]
fn clear_drops_the_pending_text() {
    let mut buf = LineBuffer::new();
    buf.feed("half a li");
    buf.clear();
    assert_eq!(buf.feed("ne\n"), vec!["ne".to_string()]);
}
