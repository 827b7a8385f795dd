use im_transport::buffer::{AutoBuffer, Seek};

#[test]
fn case_into() {
    let data: Vec<u8> = vec![12, 18, 19];
    let buf: AutoBuffer = (&data[..]).into();
    assert_eq!(&data, buf.as_slice(0));
}

#[test]
fn case_new_from() {
    let data: Vec<u8> = vec![12, 18, 19];
    let buf = AutoBuffer::new_from(&data);
    assert_eq!(&data, buf.as_slice(0));
}

#[test]
fn case_write() {
    let mut buf = AutoBuffer::default();
    let id: i32 = 10;
    let bytes = id.to_le_bytes();
    buf.write(&bytes);

    let buf_bytes = buf.read(bytes.len());
    assert_eq!(&[0u8; 0], &buf_bytes[..]);

    buf.seek(0, Seek::Start);
    let buf_bytes = buf.read(bytes.len());
    assert_eq!(bytes, &buf_bytes[..]);
}

#[test]
fn case_write_from_auto_buffer() {
    let mut buf = AutoBuffer::default();
    let id: i32 = 10;
    let bytes = id.to_le_bytes();
    buf.write(&bytes);

    let mut buf2 = AutoBuffer::default();
    buf2.write_from(&buf);

    assert_eq!(buf.as_slice(0), buf2.as_slice(0));
}

#[test]
fn case_read_to_buffer() {
    let data: Vec<u8> = vec![12, 18, 19];
    let mut buf = AutoBuffer::new_from(&data);
    buf.seek(0, Seek::Start);

    let mut buf2 = AutoBuffer::default();
    let read_len = buf.read_to_buffer(&mut buf2, data.len());
    assert_eq!(read_len, data.len());
    assert_eq!(&data, buf2.as_slice(0));
}

#[test]
fn case_clone() {
    let data: Vec<u8> = vec![12, 18, 19];
    let buf = AutoBuffer::new_from(&data);
    assert_eq!(&data, buf.as_slice(0));

    let cloned_buf = buf.clone();
    assert_eq!(&data, cloned_buf.as_slice(0));
}

fn pattern(len: usize, seed: u8) -> Vec<u8> {
    let mut out = Vec::with_capacity(len);
    for i in 0..len {
        out.push(seed.wrapping_add((i % 251) as u8));
    }
    out
}

#[test]
fn new_buffer_is_empty_and_unallocated() {
    let buf = AutoBuffer::new(16);
    assert_eq!(buf.len(), 0);
    assert_eq!(buf.pos(), 0);
    assert_eq!(buf.capacity(), 0);
    assert_eq!(buf.as_slice(0), &[0u8; 0][..]);
}

#[test]
fn default_buffer_grows_in_units_of_128() {
    let mut buf = AutoBuffer::default();
    buf.write(&[7]);
    assert_eq!(buf.capacity(), 128);
    buf.write(&pattern(127, 1));
    assert_eq!(buf.len(), 128);
    assert_eq!(buf.capacity(), 128);
    buf.write(&[9]);
    assert_eq!(buf.len(), 129);
    assert_eq!(buf.capacity(), 256);
}

#[test]
fn capacity_rounds_up_to_the_allocation_unit() {
    let mut buf = AutoBuffer::new(10);
    buf.write(&pattern(25, 0));
    assert_eq!(buf.capacity(), 30);
    buf.write(&pattern(5, 0));
    assert_eq!(buf.len(), 30);
    assert_eq!(buf.capacity(), 30);
    buf.write(&pattern(1, 0));
    assert_eq!(buf.capacity(), 40);
}

#[test]
fn capacity_never_shrinks() {
    let mut buf = AutoBuffer::new(8);
    buf.add_capacity(100);
    assert_eq!(buf.capacity(), 104);
    buf.write(&[1, 2, 3]);
    assert_eq!(buf.capacity(), 104);
    buf.add_capacity(1);
    assert_eq!(buf.capacity(), 104);
    buf.seek(0, Seek::Start);
    let _ = buf.read(3);
    assert_eq!(buf.capacity(), 104);
}

#[test]
fn writes_concatenate_whatever_the_unit() {
    let chunks: Vec<Vec<u8>> = vec![
        pattern(3, 10),
        pattern(0, 0),
        pattern(200, 20),
        pattern(1, 30),
        pattern(129, 40),
    ];
    let mut expected: Vec<u8> = Vec::new();
    for chunk in chunks.iter() {
        expected.extend_from_slice(chunk);
    }
    for unit in [1usize, 2, 7, 128, 1000] {
        let mut buf = AutoBuffer::new(unit);
        for chunk in chunks.iter() {
            buf.write(chunk);
        }
        assert_eq!(buf.len(), 333);
        assert_eq!(buf.pos(), 333);
        assert_eq!(buf.as_slice(0), &expected[..]);
        assert!(buf.capacity() >= 333);
        assert_eq!(buf.capacity() % unit, 0);
        assert!(buf.capacity() < 333 + unit);
    }
}

#[test]
fn seek_to_start_then_read_returns_what_was_written() {
    let data = pattern(300, 5);
    let mut buf = AutoBuffer::new(64);
    buf.write(&data[..100]);
    buf.write(&data[100..]);
    buf.seek(0, Seek::Start);
    let out = buf.read(300);
    assert_eq!(out, data);
    assert_eq!(buf.pos(), 300);
}

#[test]
fn read_past_the_end_returns_fewer_bytes() {
    let mut buf = AutoBuffer::new_from(&[1, 2, 3, 4, 5]);
    buf.seek(3, Seek::Start);
    let out = buf.read(10);
    assert_eq!(out, vec![4, 5]);
    assert_eq!(buf.pos(), 5);
    let out = buf.read(10);
    assert_eq!(out, Vec::<u8>::new());
    assert_eq!(buf.pos(), 5);
}

#[test]
fn read_of_part_advances_the_cursor() {
    let mut buf = AutoBuffer::new_from(&[1, 2, 3, 4, 5]);
    buf.seek(0, Seek::Start);
    assert_eq!(buf.read(2), vec![1, 2]);
    assert_eq!(buf.pos(), 2);
    assert_eq!(buf.read(0), Vec::<u8>::new());
    assert_eq!(buf.pos(), 2);
    assert_eq!(buf.read(2), vec![3, 4]);
    assert_eq!(buf.read(2), vec![5]);
}

#[test]
fn seek_is_clamped_to_the_written_bytes() {
    let mut buf = AutoBuffer::new_from(&[1, 2, 3, 4, 5]);
    assert_eq!(buf.pos(), 5);
    buf.seek(2, Seek::Start);
    assert_eq!(buf.pos(), 2);
    buf.seek(2, Seek::Cur);
    assert_eq!(buf.pos(), 4);
    buf.seek(2, Seek::Cur);
    assert_eq!(buf.pos(), 5);
    buf.seek(9, Seek::Start);
    assert_eq!(buf.pos(), 5);
    buf.seek(0, Seek::Start);
    buf.seek(0, Seek::End);
    assert_eq!(buf.pos(), 5);
    buf.seek(0, Seek::Start);
    buf.seek(3, Seek::End);
    assert_eq!(buf.pos(), 5);
    buf.seek(1, Seek::Start);
    buf.seek(usize::MAX, Seek::Cur);
    assert_eq!(buf.pos(), 5);
}

#[test]
fn as_slice_starts_at_the_offset() {
    let buf = AutoBuffer::new_from(&[1, 2, 3, 4, 5]);
    assert_eq!(buf.as_slice(0), &[1, 2, 3, 4, 5][..]);
    assert_eq!(buf.as_slice(2), &[3, 4, 5][..]);
    assert_eq!(buf.as_slice(5), &[0u8; 0][..]);
    assert_eq!(buf.as_slice(6), &[0u8; 0][..]);
    assert_eq!(buf.as_slice(usize::MAX), &[0u8; 0][..]);
}

#[test]
fn as_pos_slice_starts_at_the_cursor() {
    let mut buf = AutoBuffer::new_from(&[1, 2, 3, 4, 5]);
    assert_eq!(buf.as_pos_slice(), &[0u8; 0][..]);
    buf.seek(3, Seek::Start);
    assert_eq!(buf.as_pos_slice(), &[4, 5][..]);
    buf.seek(0, Seek::Start);
    assert_eq!(buf.as_pos_slice(), &[1, 2, 3, 4, 5][..]);
}

#[test]
fn room_made_holds_the_writes_that_fit() {
    let mut buf = AutoBuffer::new(8);
    buf.write(&[1, 2, 3]);
    buf.add_capacity(100);
    assert_eq!(buf.capacity(), 104);
    for _ in 0..10 {
        buf.write(&pattern(10, 0));
        assert_eq!(buf.capacity(), 104);
    }
    assert_eq!(buf.len(), 103);
    buf.write(&[1, 2]);
    assert_eq!(buf.capacity(), 112);
}

#[test]
fn add_capacity_leaves_bytes_and_cursor() {
    let mut buf = AutoBuffer::new(128);
    buf.write(&pattern(200, 3));
    assert_eq!(buf.capacity(), 256);
    buf.seek(50, Seek::Start);
    buf.add_capacity(100);
    assert_eq!(buf.capacity(), 256);
    buf.add_capacity(207);
    assert_eq!(buf.capacity(), 384);
    assert_eq!(buf.pos(), 50);
    assert_eq!(buf.len(), 200);
    assert_eq!(buf.as_slice(0), &pattern(200, 3)[..]);
}

#[test]
fn add_capacity_of_all_there_is_saturates() {
    let mut buf = AutoBuffer::new(128);
    buf.write(&[1]);
    buf.add_capacity(usize::MAX);
    assert_eq!(buf.capacity(), usize::MAX);
    assert_eq!(buf.as_slice(0), &[1][..]);
    buf.write(&[2]);
    assert_eq!(buf.capacity(), usize::MAX);
    assert_eq!(buf.as_slice(0), &[1, 2][..]);
}

#[test]
fn write_of_nothing_changes_nothing() {
    let mut buf = AutoBuffer::new(128);
    buf.write(&[]);
    assert_eq!(buf.len(), 0);
    assert_eq!(buf.pos(), 0);
    assert_eq!(buf.capacity(), 0);
    buf.write(&[1, 2]);
    buf.write(&[]);
    assert_eq!(buf.len(), 2);
    assert_eq!(buf.pos(), 2);
    assert_eq!(buf.capacity(), 128);
}

#[test]
fn write_of_nothing_at_any_position_changes_nothing() {
    let mut fresh = AutoBuffer::new(16);
    for pos in [0usize, 1, 7, usize::MAX] {
        fresh.write_at_pos(pos, &[]);
        assert_eq!(fresh.len(), 0);
        assert_eq!(fresh.pos(), 0);
        assert_eq!(fresh.capacity(), 0);
        assert_eq!(fresh.as_slice(0), &[0u8; 0][..]);
    }
    let mut buf = AutoBuffer::new(16);
    buf.write(&[1, 2, 3]);
    buf.seek(1, Seek::Start);
    for pos in [0usize, 2, 3, 4, 100, usize::MAX] {
        buf.write_at_pos(pos, &[]);
        assert_eq!(buf.len(), 3);
        assert_eq!(buf.pos(), 1);
        assert_eq!(buf.capacity(), 16);
        assert_eq!(buf.as_slice(0), &[1, 2, 3][..]);
    }
}

#[test]
fn write_at_the_end_appends_and_leaves_the_cursor() {
    let mut buf = AutoBuffer::new_from(&[1, 2, 3]);
    buf.seek(1, Seek::Start);
    buf.write_at_pos(3, &[4, 5]);
    assert_eq!(buf.as_slice(0), &[1, 2, 3, 4, 5][..]);
    assert_eq!(buf.pos(), 1);
    assert_eq!(buf.len(), 5);
}

#[test]
fn write_inside_overwrites_and_still_grows_by_the_span() {
    let mut buf = AutoBuffer::new_from(&[1, 2, 3, 4, 5]);
    buf.write_at_pos(1, &[9, 8]);
    assert_eq!(buf.len(), 7);
    assert_eq!(buf.as_slice(0), &[1, 9, 8, 4, 5, 0, 0][..]);
    buf.write_at_pos(6, &[7, 7, 7]);
    assert_eq!(buf.len(), 10);
    assert_eq!(buf.as_slice(0), &[1, 9, 8, 4, 5, 0, 7, 7, 7, 0][..]);
}

#[test]
fn write_at_the_cursor_inside_moves_the_cursor_behind_the_span() {
    let mut buf = AutoBuffer::new_from(&[1, 2, 3, 4]);
    buf.seek(3, Seek::Start);
    buf.write(&[9, 9]);
    assert_eq!(buf.pos(), 5);
    assert_eq!(buf.len(), 6);
    assert_eq!(buf.as_slice(0), &[1, 2, 3, 9, 9, 0][..]);
}

#[test]
fn read_at_pos_leaves_the_cursor() {
    let mut buf = AutoBuffer::new_from(&[1, 2, 3, 4, 5]);
    buf.seek(4, Seek::Start);
    let (count, out) = buf.read_at_pos(1, 3);
    assert_eq!(count, 3);
    assert_eq!(out, vec![2, 3, 4]);
    assert_eq!(buf.pos(), 4);
    let (count, out) = buf.read_at_pos(3, 9);
    assert_eq!(count, 2);
    assert_eq!(out, vec![4, 5]);
    let (count, out) = buf.read_at_pos(5, 9);
    assert_eq!(count, 0);
    assert_eq!(out, Vec::<u8>::new());
}

#[test]
fn read_to_buffer_moves_both_cursors() {
    let mut src = AutoBuffer::new_from(&[1, 2, 3, 4, 5]);
    src.seek(1, Seek::Start);
    let mut dst = AutoBuffer::new_from(&[7]);
    let count = src.read_to_buffer(&mut dst, 3);
    assert_eq!(count, 3);
    assert_eq!(src.pos(), 4);
    assert_eq!(dst.as_slice(0), &[7, 2, 3, 4][..]);
    assert_eq!(dst.pos(), 4);
    let count = src.read_to_buffer(&mut dst, 3);
    assert_eq!(count, 1);
    assert_eq!(dst.as_slice(0), &[7, 2, 3, 4, 5][..]);
    let count = src.read_to_buffer(&mut dst, 3);
    assert_eq!(count, 0);
    assert_eq!(dst.len(), 5);
}

#[test]
fn write_from_copies_all_bytes_of_the_source() {
    let mut src = AutoBuffer::new_from(&[1, 2, 3]);
    src.seek(2, Seek::Start);
    let mut dst = AutoBuffer::new_from(&[9]);
    dst.write_from(&src);
    assert_eq!(dst.as_slice(0), &[9, 1, 2, 3][..]);
    assert_eq!(dst.pos(), 4);
    assert_eq!(src.pos(), 2);
}

#[test]
fn clone_is_a_copy_of_its_own() {
    let mut buf = AutoBuffer::new(4);
    buf.write(&[1, 2, 3, 4, 5]);
    buf.seek(1, Seek::Start);
    let mut copy = buf.clone();
    assert_eq!(copy.as_slice(0), &[1, 2, 3, 4, 5][..]);
    assert_eq!(copy.pos(), 5);
    assert_eq!(copy.capacity(), 128);
    copy.write(&[6]);
    assert_eq!(copy.len(), 6);
    assert_eq!(buf.len(), 5);
    assert_eq!(buf.pos(), 1);
    assert_eq!(buf.capacity(), 8);
}

#[test]
fn from_slice_leaves_the_cursor_at_the_end() {
    let buf = AutoBuffer::from(&[1u8, 2, 3][..]);
    assert_eq!(buf.pos(), 3);
    assert_eq!(buf.len(), 3);
    assert_eq!(buf.capacity(), 128);
}
