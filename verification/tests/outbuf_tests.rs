use dualpane::outbuf::{OutputBuffer, OUTPUT_CAP, OUTPUT_EVICT};

#[test]
fn test_new_buffer_is_empty() {
    let buf = OutputBuffer::new();
    assert_eq!(buf.len(), 0);
    assert_eq!(buf.get_output(), "");
}

#[test]
fn test_append_and_decode() {
    let mut buf = OutputBuffer::new();
    buf.append(b"hello ");
    buf.append(b"world");
    assert_eq!(buf.len(), 11);
    assert_eq!(buf.get_output(), "hello world");
}

#[test]
fn test_invalid_bytes_replaced_not_failed() {
    let mut buf = OutputBuffer::new();
    buf.append(&[0x68, 0x69, 0xff, 0x21]);
    let out = buf.get_output();
    assert!(out.starts_with("hi"));
    assert!(out.ends_with('!'));
    assert!(out.contains('\u{fffd}'));
}

#[test]
fn test_cap_and_eviction() {
    let mut buf = OutputBuffer::new();
    let chunk = [b'x'; 8192];
    let mut total: usize = 0;
    while total + chunk.len() <= OUTPUT_CAP {
        buf.append(&chunk);
        total += chunk.len();
        assert_eq!(buf.len(), total);
    }
    // the next chunk pushes past the cap: the oldest half leaves at once
    buf.append(&chunk);
    total += chunk.len();
    assert_eq!(buf.len(), total - OUTPUT_EVICT);
    assert!(buf.len() <= OUTPUT_CAP);
    assert_eq!(buf.get_output().len(), buf.len());
}

#[test]
fn test_bytes_kept_in_arrival_order() {
    let mut buf = OutputBuffer::new();
    let first = vec![b'a'; OUTPUT_EVICT];
    let second = vec![b'b'; OUTPUT_EVICT];
    buf.append(&first);
    buf.append(&second);
    assert_eq!(buf.len(), OUTPUT_CAP);
    // one more byte exceeds the cap: the oldest 50,000 bytes (all of the
    // `a`s) leave, the `b`s and the new byte stay, in order
    buf.append(b"c");
    assert_eq!(buf.len(), OUTPUT_CAP - OUTPUT_EVICT + 1);
    let out = buf.get_output();
    assert!(out.starts_with('b'));
    assert!(out.ends_with('c'));
}

#[test]
fn test_clear_empties_buffer_and_cache() {
    let mut buf = OutputBuffer::new();
    buf.append(b"something");
    buf.clear();
    assert_eq!(buf.len(), 0);
    assert_eq!(buf.get_output(), "");
}
