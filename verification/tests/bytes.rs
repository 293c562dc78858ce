use kaze::bytes::{Bytes, BytesMut, BytesUnsafe};
use kaze::queue_bytes;

#[test]
fn bytes_as_slice_follows_the_cursor() {
    let a = [1u8, 2, 3];
    let b = [4u8, 5];
    let mut bytes = Bytes::new((&a, &b));
    assert_eq!(bytes.len(), 5);
    assert_eq!(bytes.pos(), 0);
    assert_eq!(bytes.as_slice(), (&a[..], &b[..]));
    bytes.set_pos(2);
    assert_eq!(bytes.as_slice(), (&a[2..], &b[..]));
    bytes.set_pos(4);
    assert_eq!(bytes.as_slice(), (&b[1..], &[][..]));
    bytes.set_pos(5);
    assert_eq!(bytes.as_slice(), (&[][..], &[][..]));
    bytes.rewind();
    assert_eq!(bytes.pos(), 0);
}

#[test]
fn bytes_reads_across_both_slices() {
    let a = [1u8, 2, 3];
    let b = [4u8, 5];
    let mut bytes = Bytes::new((&a, &b));
    let mut out = Vec::new();
    while bytes.remaining() > 0 {
        let chunk = bytes.chunk();
        out.extend_from_slice(chunk);
        bytes.advance(chunk.len());
    }
    assert_eq!(out, vec![1, 2, 3, 4, 5]);
    assert_eq!(bytes.remaining(), 0);
}

#[test]
fn bytes_mut_writes_through_as_slice() {
    let mut a = [0u8; 3];
    let mut b = [0u8; 2];
    {
        let mut bytes = BytesMut::new((&mut a, &mut b));
        assert_eq!(bytes.len(), 5);
        bytes.advance_mut(1);
        assert_eq!(bytes.remaining_mut(), 4);
        let (x, y) = bytes.as_slice();
        assert_eq!((x.len(), y.len()), (2, 2));
        x.copy_from_slice(&[7, 8]);
        y.copy_from_slice(&[9, 10]);
        assert_eq!(bytes.pos(), 1);
        bytes.rewind();
        assert_eq!(bytes.pos(), 0);
    }
    assert_eq!(a, [0, 7, 8]);
    assert_eq!(b, [9, 10]);
}

#[test]
fn bytes_mut_chunk_mut_is_the_current_slice() {
    let mut a = [0u8; 2];
    let mut b = [0u8; 2];
    {
        let mut bytes = BytesMut::new((&mut a, &mut b));
        bytes.advance_mut(3);
        let c = bytes.chunk_mut();
        assert_eq!(c.len(), 1);
        c[0] = 5;
    }
    assert_eq!(b, [0, 5]);
}

#[test]
fn bytes_unsafe_as_slice_past_the_first_slice() {
    let a = [1u8, 2];
    let b = [3u8, 4, 5];
    let mut bytes = BytesUnsafe::new(&a, &b);
    assert_eq!(bytes.len(), 5);
    assert_eq!(bytes.as_slice(), (&a[..], &b[..]));
    bytes.set_pos(1);
    assert_eq!(bytes.as_slice(), (&a[1..], &b[..]));
    // past the first slice the prefix of the second slice comes back
    bytes.set_pos(3);
    assert_eq!(bytes.as_slice(), (&b[..1], &[][..]));
    assert_eq!(bytes.chunk(), &b[1..]);
    assert_eq!(bytes.remaining(), 2);
    bytes.advance(2);
    assert_eq!(bytes.remaining(), 0);
    bytes.rewind();
    assert_eq!(bytes.pos(), 0);
}

#[test]
fn queue_bytes_at_start_returns_both_slices() {
    let a = [1u8, 2];
    let b = [3u8];
    let mut bytes = queue_bytes::Bytes::new((&a, &b));
    assert_eq!(bytes.as_slice(), (&a[..], &b[..]));
    let copy = bytes.clone();
    bytes.set_pos(2);
    assert_eq!(bytes.as_slice(), (&b[..], &[][..]));
    assert_eq!(copy.pos(), 0);
    let mut c = [0u8; 1];
    let mut d = [0u8; 1];
    {
        let mut m = queue_bytes::BytesMut::new((&mut c, &mut d));
        let (x, y) = m.as_slice();
        x[0] = 1;
        y[0] = 2;
    }
    assert_eq!((c, d), ([1], [2]));
}
