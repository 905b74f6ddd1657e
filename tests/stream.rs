use raid_finder::stream::LineBuffer;

#[test]
fn records_split_across_chunks() {
    let mut lines = LineBuffer::new();
    assert!(lines.push(b"{\"id\":1").is_empty());
    let out = lines.push(b"}\r\n\r\n{\"id\":2}\n{\"id\"");
    assert_eq!(vec![b"{\"id\":1}".to_vec(), b"{\"id\":2}".to_vec()], out);
    assert_eq!(b"{\"id\"".to_vec(), lines.pending);
    assert_eq!(vec![b"{\"id\":3}".to_vec()], lines.push(b":3}\n"));
    assert!(lines.pending.is_empty());
    assert!(lines.push(b"\n\r\n").is_empty());
}
