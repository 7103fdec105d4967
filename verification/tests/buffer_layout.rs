use bytebuffer::{Buffer, INITIAL, PREPEND};

fn repeated(byte: char, count: usize) -> String {
    let mut string = String::new();
    for _ in 0..count {
        string.push(byte);
    }
    string
}

#[test]
fn test_append_retrieve() {
    let mut buf: Buffer = Buffer::new(None);
    assert_eq!(buf.readable_bytes(), 0);
    assert_eq!(buf.writable_bytes(), INITIAL);
    assert_eq!(buf.prependable_bytes(), PREPEND);

    let string = repeated('x', 200);
    buf.append_string(&string);
    assert_eq!(buf.readable_bytes(), string.len());
    assert_eq!(buf.writable_bytes(), INITIAL - string.len());
    assert_eq!(buf.prependable_bytes(), PREPEND);

    let string2 = buf.retrieve_as_string(50).unwrap();
    assert_eq!(string2.len(), 50);
    assert_eq!(buf.readable_bytes(), string.len() - string2.len());
    assert_eq!(buf.writable_bytes(), INITIAL - string.len());
    assert_eq!(buf.prependable_bytes(), PREPEND + string2.len());

    buf.append_string(&string);
    assert_eq!(buf.readable_bytes(), 2 * string.len() - string2.len());
    assert_eq!(buf.writable_bytes(), INITIAL - 2 * string.len());
    assert_eq!(buf.prependable_bytes(), PREPEND + string2.len());

    let string3 = buf.retrieve_all_as_string().unwrap();
    assert_eq!(string3.len(), 350);
    assert_eq!(buf.readable_bytes(), 0);
    assert_eq!(buf.writable_bytes(), INITIAL);
    assert_eq!(buf.prependable_bytes(), PREPEND);
}

#[test]
fn test_buffer_grow() {
    let string = repeated('y', 400);
    let mut buf: Buffer = Buffer::new(None);
    buf.append_string(&string);
    assert_eq!(buf.readable_bytes(), 400);
    assert_eq!(buf.writable_bytes(), INITIAL - 400);

    buf.retrieve(50);
    assert_eq!(buf.readable_bytes(), 350);
    assert_eq!(buf.writable_bytes(), INITIAL - 400);
    assert_eq!(buf.prependable_bytes(), PREPEND + 50);

    let string2 = repeated('z', 1000);
    buf.append_string(&string2);
    assert_eq!(buf.readable_bytes(), 1350);
    assert_eq!(buf.writable_bytes(), 0);
    assert_eq!(buf.prependable_bytes(), PREPEND + 50);

    buf.retrieve_all();
    assert_eq!(buf.readable_bytes(), 0);
    assert_eq!(buf.writable_bytes(), 1400);
    assert_eq!(buf.prependable_bytes(), PREPEND);
}

#[test]
fn test_buffer_inside_grow() {
    let string = repeated('y', 800);
    let mut buf = Buffer::new(None);
    buf.append_string(&string);
    assert_eq!(buf.readable_bytes(), 800);
    assert_eq!(buf.writable_bytes(), INITIAL - 800);

    buf.retrieve(500);
    assert_eq!(buf.readable_bytes(), 300);
    assert_eq!(buf.writable_bytes(), INITIAL - 800);
    assert_eq!(buf.prependable_bytes(), PREPEND + 500);

    let string2 = repeated('z', 300);
    buf.append_string(&string2);
    assert_eq!(buf.readable_bytes(), 600);
    assert_eq!(buf.writable_bytes(), INITIAL - 600);
    assert_eq!(buf.prependable_bytes(), PREPEND);
}

#[test]
fn test_buffer_shrink() {
    let string = repeated('y', 2000);
    let mut buf = Buffer::new(None);
    buf.append_string(&string);
    assert_eq!(buf.readable_bytes(), 2000);
    assert_eq!(buf.writable_bytes(), 0);
    assert_eq!(buf.prependable_bytes(), PREPEND);

    buf.retrieve(1500);
    assert_eq!(buf.readable_bytes(), 500);
    assert_eq!(buf.writable_bytes(), 0);
    assert_eq!(buf.prependable_bytes(), PREPEND + 1500);

    let string2 = repeated('y', 500);
    buf.shrink(0);
    assert_eq!(buf.readable_bytes(), 500);
    assert_eq!(buf.writable_bytes(), 0);
    assert_eq!(buf.retrieve_all_as_string().unwrap(), string2);
    assert_eq!(buf.prependable_bytes(), PREPEND);
}

#[test]
fn test_buffer_prepend() {
    let string = repeated('y', 200);
    let mut buf: Buffer = Buffer::new(None);
    buf.append_string(&string);
    assert_eq!(buf.readable_bytes(), 200);
    assert_eq!(buf.writable_bytes(), INITIAL - 200);
    assert_eq!(buf.prependable_bytes(), PREPEND);

    let x: i32 = 0;
    let bytes: [u8; 4] = x.to_ne_bytes();
    buf.prepend_bytes(&bytes);
    assert_eq!(buf.readable_bytes(), 204);
    assert_eq!(buf.writable_bytes(), INITIAL - 200);
    assert_eq!(buf.prependable_bytes(), PREPEND - 4);
}

#[test]
fn test_buffer_read_int() {
    let mut buf: Buffer = Buffer::new(None);
    buf.append_string(&"HTTP".to_string());
    assert_eq!(buf.readable_bytes(), 4);
    assert_eq!(buf.peek_int8(), 'H' as i8);
    let top16 = buf.peek_int16();
    assert_eq!(top16, 'H' as i16 * 256 + 'T' as i16);
    assert_eq!(buf.peek_int32(), top16 as i32 * 65536 + 'T' as i32 * 256 + 'P' as i32);

    assert_eq!(buf.read_int8(), 'H' as i8);
    assert_eq!(buf.read_int16(), 'T' as i16 * 256 + 'T' as i16);
    assert_eq!(buf.read_int8(), 'P' as i8);
    assert_eq!(buf.readable_bytes(), 0);
    assert_eq!(buf.writable_bytes(), INITIAL);

    buf.append_int8(-1);
    buf.append_int16(-1);
    buf.append_int32(-1);
    assert_eq!(buf.readable_bytes(), 7);
    assert_eq!(buf.read_int8(), -1);
    assert_eq!(buf.read_int32(), -1);
    assert_eq!(buf.read_int16(), -1);
}

#[test]
fn test_buffer_find_eol() {
    let string = repeated('x', 100_000);
    let mut buf: Buffer = Buffer::new(None);
    buf.append_string(&string);
    assert_eq!(buf.find_eol(), None);
    assert_eq!(buf.find_eol_from(90_000), None);
}

#[test]
fn test_buffer_find_crlf() {
    let string = repeated('x', 100_000);
    let mut buf: Buffer = Buffer::new(None);
    buf.append_string(&string);
    assert_eq!(buf.find_crlf(), None);
}

#[test]
fn prepending_onto_readable_content_keeps_the_allocation() {
    let mut buf = Buffer::new(None);
    buf.append_bytes(&[b'y'; 200]);
    let capacity = buf.internal_capacity();
    assert!(capacity >= PREPEND + INITIAL);
    buf.prepend_int32(0);
    assert_eq!(buf.readable_bytes(), 204);
    assert_eq!(buf.prependable_bytes(), 4);
    assert_eq!(buf.internal_capacity(), capacity);
    assert_eq!(&buf.peek()[..4], &[0u8, 0, 0, 0]);
    assert_eq!(buf.peek()[4], b'y');
}

#[test]
fn new_buffer_has_the_requested_size() {
    let buf = Buffer::new(Some(16));
    assert_eq!(buf.readable_bytes(), 0);
    assert_eq!(buf.writable_bytes(), 16);
    assert_eq!(buf.prependable_bytes(), PREPEND);
    assert!(buf.peek().is_empty());

    let empty = Buffer::new(Some(0));
    assert_eq!(empty.writable_bytes(), 0);
    assert_eq!(empty.prependable_bytes(), 8);
    assert_eq!(INITIAL, 1024);
}

#[test]
fn appending_nothing_changes_nothing() {
    let mut buf = Buffer::new(Some(4));
    buf.append_bytes(&[]);
    buf.append_string(&String::new());
    assert_eq!(buf.readable_bytes(), 0);
    assert_eq!(buf.writable_bytes(), 4);
    buf.prepend_bytes(&[]);
    assert_eq!(buf.prependable_bytes(), PREPEND);
    assert_eq!(buf.retrieve_all_as_string().unwrap(), "");
}

#[test]
fn retrieve_moves_the_read_cursor_until_the_buffer_is_drained() {
    let mut buf = Buffer::new(None);
    buf.append_bytes(b"abcdef");
    buf.retrieve(2);
    assert_eq!(buf.peek(), b"cdef");
    assert_eq!(buf.prependable_bytes(), PREPEND + 2);
    buf.retrieve(0);
    assert_eq!(buf.peek(), b"cdef");
    buf.retrieve(4);
    assert_eq!(buf.readable_bytes(), 0);
    assert_eq!(buf.prependable_bytes(), PREPEND);
    assert_eq!(buf.writable_bytes(), INITIAL);
}

#[test]
fn retrieve_all_is_idempotent() {
    let mut buf = Buffer::new(Some(32));
    buf.append_bytes(b"0123456789");
    buf.retrieve(3);
    buf.prepend_bytes(b"ab");
    buf.retrieve_all();
    assert_eq!((buf.prependable_bytes(), buf.readable_bytes(), buf.writable_bytes()), (8, 0, 32));
    buf.retrieve_all();
    assert_eq!((buf.prependable_bytes(), buf.readable_bytes(), buf.writable_bytes()), (8, 0, 32));
}

#[test]
fn retrieve_until_consumes_up_to_an_offset() {
    let mut buf = Buffer::new(None);
    buf.append_bytes(b"GET /\r\nHost");
    let line_end = buf.find_crlf().unwrap();
    assert_eq!(line_end, PREPEND + 5);
    buf.retrieve_until(line_end + 2);
    assert_eq!(buf.peek(), b"Host");
    let end = PREPEND + 7 + 4;
    buf.retrieve_until(end);
    assert_eq!(buf.readable_bytes(), 0);
    assert_eq!(buf.prependable_bytes(), PREPEND);
}

#[test]
fn retrieve_int_helpers_consume_their_width() {
    let mut buf = Buffer::new(None);
    buf.append_bytes(&[0u8; 16]);
    buf.retrieve_int8();
    assert_eq!(buf.readable_bytes(), 15);
    buf.retrieve_int16();
    assert_eq!(buf.readable_bytes(), 13);
    buf.retrieve_int32();
    assert_eq!(buf.readable_bytes(), 9);
    buf.retrieve_int64();
    assert_eq!(buf.readable_bytes(), 1);
    assert_eq!(buf.prependable_bytes(), PREPEND + 15);
}

#[test]
fn unwrite_and_has_written_move_the_write_cursor() {
    let mut buf = Buffer::new(Some(8));
    buf.append_bytes(b"abcd");
    buf.unwrite(3);
    assert_eq!(buf.peek(), b"a");
    assert_eq!(buf.writable_bytes(), 7);
    buf.has_written(2);
    assert_eq!(buf.peek(), b"abc");
    assert_eq!(buf.writable_bytes(), 5);
}

#[test]
fn begin_write_exposes_the_writable_region() {
    let mut buf = Buffer::new(Some(8));
    buf.append_bytes(b"ab");
    {
        let writable = buf.begin_write();
        assert_eq!(writable.len(), 6);
        writable[0] = b'c';
        writable[1] = b'd';
    }
    assert_eq!(buf.peek(), b"ab");
    buf.has_written(2);
    assert_eq!(buf.peek(), b"abcd");
    assert_eq!(buf.writable_bytes(), 4);
}

#[test]
fn compaction_is_preferred_to_growth() {
    let mut buf = Buffer::new(Some(16));
    buf.append_bytes(b"0123456789abcdef");
    buf.retrieve(10);
    assert_eq!(buf.writable_bytes(), 0);
    let capacity = buf.internal_capacity();
    buf.append_bytes(b"ghijklmnop");
    assert_eq!(buf.prependable_bytes(), PREPEND);
    assert_eq!(buf.peek(), b"abcdefghijklmnop");
    assert_eq!(buf.writable_bytes(), 0);
    assert_eq!(buf.internal_capacity(), capacity);
}

#[test]
fn growth_adds_exactly_what_is_missing() {
    let mut buf = Buffer::new(Some(16));
    buf.append_bytes(b"0123456789abcdef");
    buf.retrieve(10);
    buf.append_bytes(b"ghijklmnopq");
    assert_eq!(buf.prependable_bytes(), PREPEND + 10);
    assert_eq!(buf.peek(), b"abcdefghijklmnopq");
    assert_eq!(buf.writable_bytes(), 0);
    buf.retrieve_all();
    assert_eq!(buf.writable_bytes(), 27);
}

#[test]
fn ensure_writable_bytes_is_a_no_op_with_room() {
    let mut buf = Buffer::new(Some(16));
    buf.append_bytes(b"abcd");
    buf.retrieve(2);
    buf.ensure_writable_bytes(12);
    assert_eq!((buf.prependable_bytes(), buf.readable_bytes(), buf.writable_bytes()), (10, 2, 12));
    buf.ensure_writable_bytes(13);
    assert_eq!((buf.prependable_bytes(), buf.readable_bytes(), buf.writable_bytes()), (8, 2, 14));
    assert_eq!(buf.peek(), b"cd");
    buf.ensure_writable_bytes(20);
    assert_eq!((buf.prependable_bytes(), buf.readable_bytes(), buf.writable_bytes()), (8, 2, 20));
    assert_eq!(buf.peek(), b"cd");
}

#[test]
fn make_space_slides_or_grows() {
    let mut buf = Buffer::new(Some(8));
    buf.append_bytes(b"abcdefgh");
    buf.retrieve(6);
    buf.make_space(6);
    assert_eq!((buf.prependable_bytes(), buf.readable_bytes(), buf.writable_bytes()), (8, 2, 6));
    assert_eq!(buf.peek(), b"gh");
    buf.make_space(7);
    assert_eq!((buf.prependable_bytes(), buf.readable_bytes(), buf.writable_bytes()), (8, 2, 7));
    assert_eq!(buf.peek(), b"gh");
}

#[test]
fn shrink_keeps_the_reserve() {
    let mut buf = Buffer::new(None);
    buf.append_bytes(&[7u8; 3000]);
    buf.retrieve(1000);
    buf.shrink(500);
    assert_eq!(buf.readable_bytes(), 2000);
    assert_eq!(buf.writable_bytes(), 500);
    assert_eq!(buf.prependable_bytes(), PREPEND);
    assert_eq!(buf.peek(), &[7u8; 2000][..]);
}

#[test]
fn shrink_copies_bytes_that_are_not_text() {
    let mut buf = Buffer::new(None);
    buf.append_bytes(&[0xff, 0xfe, 0x00]);
    buf.shrink(0);
    assert_eq!(buf.peek(), &[0xff, 0xfe, 0x00]);
    assert_eq!(buf.writable_bytes(), 0);
    assert_eq!(buf.prependable_bytes(), PREPEND);
}

#[test]
fn shrink_fits_a_small_buffer_exactly() {
    let mut buf = Buffer::new(None);
    buf.append_bytes(b"abcdef");
    buf.retrieve(2);
    buf.shrink(10);
    assert_eq!((buf.prependable_bytes(), buf.readable_bytes(), buf.writable_bytes()), (8, 4, 10));
    assert_eq!(buf.peek(), b"cdef");
    buf.retrieve_all();
    assert_eq!(buf.writable_bytes(), 14);

    let mut drained = Buffer::new(None);
    drained.shrink(0);
    assert_eq!(
        (drained.prependable_bytes(), drained.readable_bytes(), drained.writable_bytes()),
        (8, 0, 0)
    );
}

#[test]
fn swap_exchanges_two_buffers() {
    let mut left = Buffer::new(Some(4));
    let mut right = Buffer::new(Some(32));
    left.append_bytes(b"l");
    right.append_bytes(b"right");
    left.swap(&mut right);
    assert_eq!(left.peek(), b"right");
    assert_eq!(left.writable_bytes(), 27);
    assert_eq!(right.peek(), b"l");
    assert_eq!(right.writable_bytes(), 3);
}

#[test]
fn read_from_appends_what_was_read() {
    let mut buf = Buffer::new(Some(4));
    let scratch = *b"hello, world";
    let received: Result<usize, String> = buf.read_from(&scratch, Ok(5));
    assert_eq!(received, Ok(5));
    assert_eq!(buf.peek(), b"hello");
    let none: Result<usize, String> = buf.read_from(&scratch, Ok(0));
    assert_eq!(none, Ok(0));
    assert_eq!(buf.peek(), b"hello");
}

#[test]
fn read_from_hands_a_failure_on_unchanged() {
    let mut buf = Buffer::new(Some(4));
    buf.append_bytes(b"ab");
    let scratch = [1u8; 8];
    let received: Result<usize, String> = buf.read_from(&scratch, Err("reset".to_string()));
    assert_eq!(received, Err("reset".to_string()));
    assert_eq!(buf.peek(), b"ab");
    assert_eq!((buf.prependable_bytes(), buf.writable_bytes()), (8, 2));
}
