use nova_core::error::Error;
use nova_core::sbuffer::SBuffer;

#[test]
fn write_spans_both_slices() {
    let mut buf1 = [0u8; 3];
    let mut buf2 = [0u8; 5];
    let mut sbuffer = SBuffer::new(vec![&mut buf1[..], &mut buf2[..]]);
    assert_eq!(sbuffer.write(b"hellowo"), Ok(()));
    assert_eq!(sbuffer.current_pos(), (1, 4));
    assert_eq!(sbuffer.total_remaining(), 1);
    assert_eq!(sbuffer.write(b"xy"), Err(Error::ENOSPC));
    assert_eq!(&buf1, b"hel");
    assert_eq!(&buf2, b"lowo\0");
}

#[test]
fn read_back_after_reset() {
    let mut buf1 = [0u8; 3];
    let mut buf2 = [0u8; 5];
    let mut sbuffer = SBuffer::new(vec![&mut buf1[..], &mut buf2[..]]);
    assert_eq!(sbuffer.write_byte(0x11), Ok(()));
    assert_eq!(sbuffer.write_dword(0x5544_3322), Ok(()));
    assert_eq!(sbuffer.write_word(0x7766), Ok(()));
    assert_eq!(sbuffer.total_remaining(), 1);
    sbuffer.reset_pos();
    assert_eq!(sbuffer.current_pos(), (0, 0));
    assert_eq!(sbuffer.read_byte(), Ok(0x11));
    assert_eq!(sbuffer.read_dword(), Ok(0x5544_3322));
    assert_eq!(sbuffer.read_word(), Ok(0x7766));
    assert_eq!(sbuffer.read_word(), Err(Error::EINVAL));
    assert_eq!(sbuffer.read_byte(), Ok(0));
    assert_eq!(sbuffer.read_byte(), Err(Error::EINVAL));
    assert_eq!(buf1, [0x11, 0x22, 0x33]);
    assert_eq!(buf2, [0x44, 0x55, 0x66, 0x77, 0]);
}

#[test]
fn writes_in_pieces_are_one_write() {
    let mut whole1 = [0u8; 4];
    let mut whole2 = [0u8; 4];
    let mut pieces1 = [0u8; 4];
    let mut pieces2 = [0u8; 4];
    let mut one = SBuffer::new(vec![&mut whole1[..], &mut whole2[..]]);
    let mut two = SBuffer::new(vec![&mut pieces1[..], &mut pieces2[..]]);
    assert_eq!(one.write(b"abcdefg"), Ok(()));
    assert_eq!(two.write_bytes(b"abc"), Ok(()));
    assert_eq!(two.write_str("def"), Ok(()));
    assert_eq!(two.write_slice(b"g"), Ok(()));
    assert_eq!(one.current_pos(), two.current_pos());
    assert_eq!(whole1, pieces1);
    assert_eq!(whole2, pieces2);
}

#[test]
fn full_slice_moves_to_the_next() {
    let mut buf1 = [0u8; 2];
    let mut buf2 = [0u8; 2];
    let mut sbuffer = SBuffer::new(vec![&mut buf1[..], &mut buf2[..]]);
    assert_eq!(sbuffer.write(b"ab"), Ok(()));
    assert_eq!(sbuffer.current_pos(), (1, 0));
    assert_eq!(sbuffer.write(b"cd"), Ok(()));
    assert_eq!(sbuffer.current_pos(), (2, 0));
    assert_eq!(sbuffer.total_remaining(), 0);
    assert_eq!(sbuffer.write(b""), Ok(()));
}

#[test]
fn seek_crosses_slices() {
    let mut buf1 = [1u8, 2, 3];
    let mut buf2 = [4u8, 5, 6];
    let mut sbuffer = SBuffer::new(vec![&mut buf1[..], &mut buf2[..]]);
    assert_eq!(sbuffer.total_capacity(), 6);
    assert_eq!(sbuffer.seek(4), Ok(()));
    assert_eq!(sbuffer.current_pos(), (1, 1));
    assert_eq!(sbuffer.seek(3), Err(Error::EINVAL));
    assert_eq!(sbuffer.current_pos(), (1, 1));
    assert_eq!(sbuffer.read_byte(), Ok(5));
    assert_eq!(sbuffer.seek(1), Ok(()));
    assert_eq!(sbuffer.current_pos(), (2, 0));
}

#[test]
fn failed_read_leaves_the_destination() {
    let mut buf1 = [1u8, 2];
    let mut sbuffer = SBuffer::new(vec![&mut buf1[..]]);
    let mut dst = [9u8; 3];
    assert_eq!(sbuffer.read_bytes(&mut dst), Err(Error::EINVAL));
    assert_eq!(dst, [9u8; 3]);
    assert_eq!(sbuffer.read(&mut dst[..2]), Ok(()));
    assert_eq!(dst, [1, 2, 9]);
}

#[test]
fn further_slices_are_ignored() {
    let mut buf1 = [0u8; 1];
    let mut buf2 = [0u8; 1];
    let mut buf3 = [0u8; 1];
    let mut sbuffer = SBuffer::new(vec![&mut buf1[..], &mut buf2[..], &mut buf3[..]]);
    assert_eq!(sbuffer.total_capacity(), 2);
    assert_eq!(sbuffer.write(b"abc"), Err(Error::ENOSPC));
    assert_eq!(sbuffer.write(b"ab"), Ok(()));
    assert_eq!((buf1, buf2, buf3), ([b'a'], [b'b'], [0]));
}

#[test]
fn empty_buffer_has_no_room() {
    let mut sbuffer = SBuffer::new(vec![]);
    assert_eq!(sbuffer.total_capacity(), 0);
    assert_eq!(sbuffer.write_byte(1), Err(Error::ENOSPC));
    assert_eq!(sbuffer.read_byte(), Err(Error::EINVAL));
    assert_eq!(sbuffer.seek(0), Ok(()));
}

#[test]
fn empty_first_slice_is_passed_over() {
    let mut buf1: [u8; 0] = [];
    let mut buf2 = [0u8; 2];
    let mut sbuffer = SBuffer::new(vec![&mut buf1[..], &mut buf2[..]]);
    assert_eq!(sbuffer.write(b"ab"), Ok(()));
    assert_eq!(&buf2, b"ab");
}

#[test]
fn iterator_yields_the_rest() {
    let mut buf1 = [1u8, 2];
    let mut buf2 = [3u8, 4];
    let mut sbuffer = SBuffer::new(vec![&mut buf1[..], &mut buf2[..]]);
    assert_eq!(sbuffer.seek(1), Ok(()));
    let mut it = sbuffer.byte_iter();
    assert_eq!(it.next(), Some(2));
    // Bytes come from the front at either end.
    assert_eq!(it.next_back(), Some(3));
    assert_eq!(it.next(), Some(4));
    assert_eq!(it.next(), None);
    assert_eq!(it.next_back(), None);
}

#[test]
fn read_str_reads_nothing() {
    let mut buf1 = [b'a', b'b'];
    let mut sbuffer = SBuffer::new(vec![&mut buf1[..]]);
    let s = sbuffer.read_str(2).unwrap();
    assert_eq!(s.to_bytes(), b"");
    assert_eq!(sbuffer.current_pos(), (0, 0));
}

#[test]
fn read_str_needs_a_possible_length() {
    let mut buf1 = [b'a', b'b'];
    let mut sbuffer = SBuffer::new(vec![&mut buf1[..]]);
    sbuffer.seek(1).unwrap();
    assert!(sbuffer.read_str(isize::MAX as usize).is_ok());
    assert!(matches!(sbuffer.read_str(isize::MAX as usize + 1), Err(Error::ENOMEM)));
    assert!(matches!(sbuffer.read_str(usize::MAX), Err(Error::ENOMEM)));
    assert_eq!(sbuffer.current_pos(), (0, 1));
}
