use sio::llio::Buff;

#[test]
fn new_buffer_is_empty_and_all_room() {
    let b = Buff::with_capacity(16);
    assert_eq!(b.as_slice(), &[] as &[u8]);
    assert_eq!(b.remaining(), 16);
}

#[test]
fn write_then_read_back() {
    let mut b = Buff::with_capacity(8);
    b.write(&[1, 2, 3]);
    assert_eq!(b.as_slice(), &[1, 2, 3]);
    assert_eq!(b.remaining(), 5);
    b.write(&[4, 5]);
    assert_eq!(b.as_slice(), &[1, 2, 3, 4, 5]);
    b.advance_read(2);
    assert_eq!(b.as_slice(), &[3, 4, 5]);
    assert_eq!(b.remaining(), 5);
}

#[test]
fn ensure_with_room_changes_nothing() {
    let mut b = Buff::with_capacity(4);
    b.write(&[7]);
    b.ensure(3);
    assert_eq!(b.as_slice(), &[7]);
    assert_eq!(b.remaining(), 3);
}

#[test]
fn unchecked_write_appends() {
    let mut b = Buff::with_capacity(4);
    b.unchecked_write(&[9, 8]);
    assert_eq!(b.as_slice(), &[9, 8]);
}

#[test]
fn as_mut_slice_resets_when_all_read() {
    let mut b = Buff::with_capacity(4);
    b.write(&[1, 2, 3]);
    b.advance_read(3);
    let room = b.as_mut_slice();
    assert_eq!(room.len(), 4);
    assert_eq!(room[0], 1);
    assert_eq!(b.as_slice(), &[] as &[u8]);
}

#[test]
fn as_mut_slice_compacts_unread_bytes() {
    let mut b = Buff::with_capacity(6);
    b.write(&[1, 2, 3, 4]);
    b.advance_read(2);
    {
        let room = b.as_mut_slice();
        assert_eq!(room.len(), 4);
        room[0] = 5;
        room[1] = 6;
    }
    assert_eq!(b.as_slice(), &[3, 4]);
    b.advance_write(2);
    assert_eq!(b.as_slice(), &[3, 4, 5, 6]);
    assert_eq!(b.remaining(), 2);
}

#[test]
fn as_mut_slice_grows_a_full_buffer() {
    let mut b = Buff::with_capacity(4);
    b.write(&[1, 2, 3, 4]);
    {
        let room = b.as_mut_slice();
        assert!(room.len() >= 4);
        assert!(room.iter().all(|x| *x == 0));
        room[0] = 5;
    }
    b.advance_write(1);
    assert_eq!(b.as_slice(), &[1, 2, 3, 4, 5]);
    assert!(b.remaining() >= 3);
}

#[test]
fn as_mut_slice_leaves_fresh_room_alone() {
    let mut b = Buff::with_capacity(3);
    b.write(&[1]);
    let room = b.as_mut_slice();
    assert_eq!(room, &[0, 0]);
}
