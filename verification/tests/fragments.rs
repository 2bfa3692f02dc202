use websocketz::{Frame, FragmentsIterator, Message, OpCode};

#[test]
fn empty_payload_should_produce_one_frame() {
    let mut fragments = FragmentsIterator::new(OpCode::Text, Vec::new(), 10);

    assert_eq!(fragments.next(), Some(Frame::new(true, OpCode::Text, Vec::new())));
    assert_eq!(fragments.next(), None);
}

#[test]
fn zero_fragment_size_should_produce_non_final_frames_with_empty_payload() {
    let mut fragments = FragmentsIterator::new(OpCode::Text, vec![1, 2, 3], 0);

    assert_eq!(fragments.next(), Some(Frame::new(false, OpCode::Text, Vec::new())));
    assert_eq!(fragments.next(), Some(Frame::new(false, OpCode::Text, Vec::new())));
}

#[test]
fn less_than_payload_size() {
    let mut fragments = FragmentsIterator::new(OpCode::Binary, vec![1, 2, 3, 4, 5], 1);

    assert_eq!(fragments.next(), Some(Frame::new(false, OpCode::Binary, vec![1])));
    assert_eq!(fragments.next(), Some(Frame::new(false, OpCode::Continuation, vec![2])));
    assert_eq!(fragments.next(), Some(Frame::new(false, OpCode::Continuation, vec![3])));
    assert_eq!(fragments.next(), Some(Frame::new(false, OpCode::Continuation, vec![4])));
    assert_eq!(fragments.next(), Some(Frame::new(true, OpCode::Continuation, vec![5])));
    assert_eq!(fragments.next(), None);

    let mut fragments = FragmentsIterator::new(OpCode::Text, vec![1, 2, 3, 4, 5], 2);

    assert_eq!(fragments.next(), Some(Frame::new(false, OpCode::Text, vec![1, 2])));
    assert_eq!(fragments.next(), Some(Frame::new(false, OpCode::Continuation, vec![3, 4])));
    assert_eq!(fragments.next(), Some(Frame::new(true, OpCode::Continuation, vec![5])));
    assert_eq!(fragments.next(), None);
}

#[test]
fn equal_to_payload_size() {
    let mut fragments = FragmentsIterator::new(OpCode::Text, vec![1, 2, 3, 4, 5], 5);

    assert_eq!(fragments.next(), Some(Frame::new(true, OpCode::Text, vec![1, 2, 3, 4, 5])));
    assert_eq!(fragments.next(), None);
}

#[test]
fn greater_than_payload_size() {
    let mut fragments = FragmentsIterator::new(OpCode::Text, vec![1, 2, 3, 4, 5], 10);

    assert_eq!(fragments.next(), Some(Frame::new(true, OpCode::Text, vec![1, 2, 3, 4, 5])));
    assert_eq!(fragments.next(), None);
}

#[test]
fn fragments_concatenate_back_to_the_message() {
    // Collecting the fragments of a message and concatenating their
    // payloads restores the message; the flags follow the protocol.
    let payload: Vec<u8> = (0u8..23).collect();
    let message = Message::Binary(payload.clone());

    let mut it = message.fragments(4).unwrap();
    let mut frames = Vec::new();
    while let Some(f) = it.next() {
        frames.push(f);
    }

    assert_eq!(frames.len(), 6);
    let mut collected = Vec::new();
    for (i, f) in frames.iter().enumerate() {
        assert_eq!(f.is_final(), i == frames.len() - 1);
        if i == 0 {
            assert!(matches!(f.opcode(), OpCode::Binary));
        } else {
            assert!(matches!(f.opcode(), OpCode::Continuation));
        }
        collected.extend_from_slice(f.payload());
    }
    assert_eq!(collected, payload);
}
