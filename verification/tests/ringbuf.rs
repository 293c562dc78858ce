use kaze::ringbuf::{get_aligned_size, is_aligned_to, PushOutcome, RingBuffer, HDR_SIZE};

fn pushed(o: PushOutcome) -> bool {
    matches!(o, PushOutcome::Pushed { .. })
}

#[test]
fn test_basic() {
    let mut rb = RingBuffer::new(HDR_SIZE + 16);
    let (mut send, mut recv) = rb.split();
    assert!(recv.try_pop(&rb).is_none());
    assert!(pushed(send.try_push(&mut rb, &[1, 2, 3])));
    let r = recv.try_pop(&rb);
    assert!(r.is_some());
    assert!(r.unwrap().as_slice(&rb).0 == [1, 2, 3]);
}

#[test]
fn test_full() {
    let mut rb = RingBuffer::new(HDR_SIZE + 16);
    let (mut send, mut recv) = rb.split();
    assert!(pushed(send.try_push(&mut rb, &[1, 2, 3]))); // 8 bytes
    assert!(pushed(send.try_push(&mut rb, &[4, 5, 6]))); // 16 bytes
    assert!(!pushed(send.try_push(&mut rb, &[7, 8, 9]))); // failed

    let r1 = recv.try_pop(&rb);
    assert!(r1.is_some());
    let r1 = r1.unwrap();
    assert!(r1.as_slice(&rb).0 == [1, 2, 3]);
    r1.release(&mut rb);

    let r2 = recv.try_pop(&rb);
    assert!(r2.is_some());
    let r2 = r2.unwrap();
    assert!(r2.as_slice(&rb).0 == [4, 5, 6]);
    r2.release(&mut rb);

    assert!(recv.try_pop(&rb).is_none());
}

#[test]
fn test_push_pop_order() {
    let mut rb = RingBuffer::new(HDR_SIZE + 32);
    let (mut send, mut recv) = rb.split();
    assert!(pushed(send.try_push(&mut rb, &[1, 2, 3])));
    assert!(pushed(send.try_push(&mut rb, &[4, 5, 6])));
    let r1 = recv.try_pop(&rb);
    assert!(r1.is_some());
    let r1 = r1.unwrap();
    assert!(r1.as_slice(&rb).0 == [1, 2, 3]);
    r1.release(&mut rb);

    let r2 = recv.try_pop(&rb);
    assert!(r2.is_some());
    let r2 = r2.unwrap();
    assert!(r2.as_slice(&rb).0 == [4, 5, 6]);
    r2.release(&mut rb);
}

#[test]
fn alignment_helpers() {
    assert_eq!(get_aligned_size(0, 4), 0);
    assert_eq!(get_aligned_size(5, 4), 8);
    assert_eq!(get_aligned_size(8, 4), 8);
    assert_eq!(get_aligned_size(9, 16), 16);
    assert!(is_aligned_to(12, 4));
    assert!(!is_aligned_to(13, 4));
    assert!(is_aligned_to(0, 8));
}

#[test]
fn blocked_sender_is_woken_when_room_is_made() {
    let mut rb = RingBuffer::new(HDR_SIZE + 16);
    let (mut tx, mut rx) = rb.split();
    assert!(pushed(tx.try_push(&mut rb, &[1u8; 8])));
    assert!(matches!(tx.try_push(&mut rb, &[2u8; 4]), PushOutcome::NoSpace));
    assert_eq!(rb.need(), 4);
    let d = rx.try_pop(&rb).unwrap();
    assert!(d.release(&mut rb));
    assert!(pushed(tx.try_push(&mut rb, &[2u8; 4])));
}

#[test]
fn release_of_exactly_the_missing_space_does_not_wake() {
    let mut rb = RingBuffer::new(HDR_SIZE + 16);
    let (mut tx, mut rx) = rb.split();
    assert!(pushed(tx.try_push(&mut rb, &[1u8; 4])));
    assert!(pushed(tx.try_push(&mut rb, &[2u8; 4])));
    assert!(matches!(tx.try_push(&mut rb, &[3u8; 4]), PushOutcome::NoSpace));
    assert_eq!(rb.need(), 8);
    let d = rx.try_pop(&rb).unwrap();
    assert!(!d.release(&mut rb));
    assert!(pushed(tx.try_push(&mut rb, &[3u8; 4])));
}
