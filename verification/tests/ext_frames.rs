use lemonkee::ext_frames::{frame, read_chunk, read_message, ChunkRead};
use lemonkee::platform::ByteOrder;

#[test]
fn frames_of_known_values() {
    assert_eq!(frame(&b"{}".to_vec(), ByteOrder::Little), Ok(b"\x02\0\0\0{}".to_vec()));
    assert_eq!(frame(&b"{}".to_vec(), ByteOrder::Big), Ok(b"\0\0\0\x02{}".to_vec()));
    let long = frame(&vec![7; 0x12345], ByteOrder::Little).unwrap();
    assert_eq!(long[..4], [0x45, 0x23, 0x01, 0x00]);
    assert_eq!(long.len(), 0x12345 + 4);
}

#[test]
fn messages_come_back_in_order() {
    for order in [ByteOrder::Little, ByteOrder::Big] {
        let messages = [b"first".to_vec(), vec![], vec![1; 10000]];
        let mut pending = vec![];
        for message in &messages {
            pending.extend(frame(message, order).unwrap());
        }
        for message in messages {
            assert_eq!(read_message(&mut pending, order), Ok(Some(message)));
        }
        assert_eq!(read_message(&mut pending, order), Ok(None));
        assert!(pending.is_empty());
    }
}

#[test]
fn portions_of_frames_do_not_matter() {
    let mut pending = vec![];
    for byte in frame(&b"hello".to_vec(), ByteOrder::Little).unwrap() {
        assert_eq!(read_message(&mut pending, ByteOrder::Little), Ok(None));
        read_chunk(&mut pending, ChunkRead::Data(vec![byte])).unwrap();
    }
    pending.push(9);
    assert_eq!(read_message(&mut pending, ByteOrder::Little), Ok(Some(b"hello".to_vec())));
    assert_eq!(pending, vec![9]);
}

#[test]
fn long_messages_are_refused() {
    let mut pending = 10001u32.to_le_bytes().to_vec();
    assert_eq!(
        read_message(&mut pending, ByteOrder::Little),
        Err("Incoming browser extension frame exceeds 10000 bytes".to_string())
    );
    assert_eq!(pending.len(), 4);
    let mut allowed = 10000u32.to_le_bytes().to_vec();
    assert_eq!(read_message(&mut allowed, ByteOrder::Little), Ok(None));
    let mut huge = vec![0xff; 4];
    assert!(read_message(&mut huge, ByteOrder::Big).is_err());
}

#[test]
fn chunks() {
    let mut pending = vec![1];
    assert_eq!(read_chunk(&mut pending, ChunkRead::Data(vec![2, 3])), Ok(()));
    assert_eq!(pending, vec![1, 2, 3]);
    assert_eq!(read_chunk(&mut pending, ChunkRead::Data(vec![])), Err("Connection closed".to_string()));
    assert_eq!(
        read_chunk(&mut pending, ChunkRead::Data(vec![0; 10001])),
        Err("Incoming browser extension chunk exceeds 10000 bytes".to_string())
    );
    assert_eq!(
        read_chunk(&mut pending, ChunkRead::Failed("reset".to_string())),
        Err("reset".to_string())
    );
    assert_eq!(pending, vec![1, 2, 3]);
    assert_eq!(read_chunk(&mut pending, ChunkRead::Data(vec![0; 10000])), Ok(()));
}
