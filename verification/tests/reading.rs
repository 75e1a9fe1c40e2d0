use hci_adapter::reader::{ParseOutcome, SocketReader};

fn read(n: i32) -> Result<i32, String> {
    Ok(n)
}

#[test]
fn nothing_is_pending_at_first() {
    assert!(SocketReader::new().pending().is_empty());
}

#[test]
fn bytes_read_are_pending() {
    let mut reader = SocketReader::new();
    assert!(reader.accept(&[1, 2, 3, 4], read(3)));
    assert_eq!(reader.pending(), &[1, 2, 3]);
}

#[test]
fn empty_and_failed_reads_change_nothing() {
    let mut reader = SocketReader::new();
    assert!(reader.accept(&[7, 7], read(2)));
    assert!(!reader.accept(&[1, 2, 3], read(0)));
    assert!(!reader.accept(&[1, 2, 3], Err("interrupted".to_string())));
    assert_eq!(reader.pending(), &[7, 7]);
}

#[test]
fn incomplete_messages_are_kept_and_joined() {
    let mut reader = SocketReader::new();
    let mut expected: Vec<u8> = vec![];
    for i in 0..100u8 {
        let chunk = [i; 33];
        assert!(reader.accept(&chunk, read(33)));
        expected.extend_from_slice(&chunk);
        assert_eq!(reader.pending(), &expected[..]);
        assert_eq!(reader.settle::<u8>(ParseOutcome::Incomplete), None);
        assert_eq!(reader.pending(), &expected[..]);
    }
}

#[test]
fn bytes_behind_a_message_stay() {
    let mut reader = SocketReader::new();
    reader.accept(&[1, 2, 3, 4], read(4));
    let left = reader.pending()[3..].to_vec();
    let message = reader.settle(ParseOutcome::Done { left, message: "first" });
    assert_eq!(message, Some("first"));
    assert_eq!(reader.pending(), &[4]);
    reader.accept(&[5], read(1));
    assert_eq!(reader.pending(), &[4, 5]);
    let message = reader.settle(ParseOutcome::Done { left: vec![], message: "second" });
    assert_eq!(message, Some("second"));
    assert!(reader.pending().is_empty());
}

#[test]
fn errors_drop_what_is_pending() {
    let mut reader = SocketReader::new();
    reader.accept(&[1, 2, 3, 4], read(4));
    assert_eq!(reader.settle::<u8>(ParseOutcome::Error), None);
    assert!(reader.pending().is_empty());
    reader.accept(&[9], read(1));
    assert_eq!(reader.pending(), &[9]);
}

// Messages of a length byte and that many bytes, cut at every place.
#[test]
fn a_stream_is_kept_however_it_is_cut() {
    let stream: Vec<u8> = vec![2, 10, 11, 0, 3, 20, 21, 22, 1, 30];
    for cut in 1..stream.len() {
        let mut reader = SocketReader::new();
        let mut taken: Vec<u8> = vec![];
        for chunk in stream.chunks(cut) {
            reader.accept(chunk, read(chunk.len() as i32));
            let seen = reader.pending().to_vec();
            let len = 1 + seen[0] as usize;
            let outcome = if seen.len() < len {
                ParseOutcome::Incomplete
            } else {
                ParseOutcome::Done { left: seen[len..].to_vec(), message: seen[..len].to_vec() }
            };
            if let Some(message) = reader.settle(outcome) {
                taken.extend(message);
            }
        }
        taken.extend_from_slice(reader.pending());
        assert_eq!(taken, stream);
    }
}

#[test]
fn there_is_room_below_the_limit() {
    let mut reader = SocketReader::new();
    let limit = usize::MAX / 4 - 64;
    assert!(reader.has_room(limit));
    assert!(!reader.has_room(limit + 1));
    reader.accept(&[1, 2, 3], read(3));
    assert!(reader.has_room(limit - 3));
    assert!(!reader.has_room(limit - 2));
    assert!(!reader.has_room(usize::MAX));
}
