use collaboration::text::buffer::Buffer;
use collaboration::text::clock::Global;

#[test]
fn anchors_stay_on_their_side_of_inserted_text() {
    let mut buffer = Buffer::new(0, "ab\ncd\n");
    let before = buffer.snapshot().anchor_before(1);
    let after = buffer.snapshot().anchor_after(1);
    buffer.edit(3..3, "xx\n");
    assert_eq!(buffer.snapshot().offset_of(&before), 3);
    assert_eq!(buffer.snapshot().offset_of(&after), 6);
}

#[test]
fn anchors_in_replaced_text_end_up_behind_it() {
    let mut buffer = Buffer::new(0, "ab\ncd\nef\n");
    let anchor = buffer.snapshot().anchor_before(1);
    buffer.edit(1..5, "X");
    assert_eq!(buffer.snapshot().offset_of(&anchor), 2);
    assert_eq!(buffer.snapshot().text(), b"aX\nef\n");
}

#[test]
fn rows_past_the_end_begin_at_the_end() {
    let buffer = Buffer::new(0, "ab\ncd");
    let anchor = buffer.snapshot().anchor_before(7);
    assert_eq!(buffer.snapshot().offset_of(&anchor), 5);
    let point = buffer.snapshot().point_of(&anchor);
    assert_eq!((point.row, point.column), (1, 2));
}

#[test]
fn versions_count_the_operations_of_each_replica() {
    let mut version = Global::new();
    let start = version.duplicate();
    version.observe(2);
    assert_eq!(version.get(2), 1);
    assert_eq!(version.get(0), 0);
    assert!(version.changed_since(&start));
    assert!(!start.changed_since(&version));
    assert!(!version.changed_since(&version.duplicate()));
}
