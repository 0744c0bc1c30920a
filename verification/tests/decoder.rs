use power_monitor::energy::aggregate;
use power_monitor::{ChannelDecoder, NativeHandle, RawChannel};

fn raw(name: &str, unit: &str, value: i64) -> Option<RawChannel> {
    Some(RawChannel { name: name.to_string(), unit: unit.to_string(), value })
}

fn handle(reference: usize) -> NativeHandle {
    NativeHandle::adopt(reference).unwrap()
}

#[test]
fn a_null_reference_gives_no_handle() {
    assert!(NativeHandle::adopt(0).is_none());
    let live = NativeHandle::adopt(0x1000).unwrap();
    assert_eq!(live.raw(), 0x1000);
    assert_eq!(live.release(), 0x1000);
}

#[test]
fn channels_come_out_in_order() {
    let items = vec![raw("CPU Energy", "mJ", 1), raw("GPU Energy", "uJ", 2), raw("ANE", "nJ", 3)];
    let mut decoder = ChannelDecoder::new(handle(7), Some(items));
    let first = decoder.next().unwrap();
    assert_eq!((first.name.as_str(), first.unit.as_str(), first.value), ("CPU Energy", "mJ", 1));
    let second = decoder.next().unwrap();
    assert_eq!((second.name.as_str(), second.unit.as_str(), second.value), ("GPU Energy", "uJ", 2));
    let third = decoder.next().unwrap();
    assert_eq!((third.name.as_str(), third.unit.as_str(), third.value), ("ANE", "nJ", 3));
    assert!(decoder.next().is_none());
    assert!(decoder.next().is_none());
    assert_eq!(decoder.finish().release(), 7);
}

#[test]
fn unreadable_items_are_passed_over() {
    let items = vec![None, raw("CPU", "mJ", 1), None, None, raw("GPU", "mJ", 2), None];
    let mut decoder = ChannelDecoder::new(handle(9), Some(items));
    assert_eq!(decoder.next().unwrap().name, "CPU");
    assert_eq!(decoder.next().unwrap().name, "GPU");
    assert!(decoder.next().is_none());
    assert_eq!(decoder.finish().release(), 9);
}

#[test]
fn a_list_of_unreadable_items_yields_nothing() {
    let mut decoder = ChannelDecoder::new(handle(3), Some(vec![None, None, None]));
    assert!(decoder.next().is_none());
    assert!(decoder.collect_remaining().is_empty());
}

#[test]
fn a_snapshot_without_a_list_yields_nothing() {
    let mut decoder = ChannelDecoder::new(handle(5), None);
    assert!(decoder.next().is_none());
    assert!(decoder.collect_remaining().is_empty());
    assert_eq!(decoder.finish().release(), 5);
    let mut decoder = ChannelDecoder::new(handle(6), Some(Vec::new()));
    assert!(decoder.next().is_none());
    assert_eq!(decoder.finish().release(), 6);
}

#[test]
fn unit_labels_lose_the_whitespace_around_them() {
    let items = vec![raw("CPU", "  mJ \n", 1000), raw("GPU", "\tnJ", 5), raw("ANE", "u J", 1)];
    let mut decoder = ChannelDecoder::new(handle(1), Some(items));
    let records = decoder.collect_remaining();
    assert_eq!(records[0].unit, "mJ");
    assert_eq!(records[1].unit, "nJ");
    assert_eq!(records[2].unit, "u J");
    // The trimmed label is what the unit is told by: 1000 mJ over 1 s is 1 W.
    let reading = aggregate(&records, 1_000_000_000);
    assert_eq!(reading.cpu.microwatts, 1_000_000);
}

#[test]
fn names_are_kept_as_they_are() {
    let items = vec![raw("  CPU Energy  ", "mJ", 1)];
    let mut decoder = ChannelDecoder::new(handle(1), Some(items));
    assert_eq!(decoder.next().unwrap().name, "  CPU Energy  ");
}

#[test]
fn collecting_takes_what_is_left() {
    let items = vec![raw("A", "mJ", 1), None, raw("B", "mJ", 2), raw("C", "mJ", 3)];
    let mut decoder = ChannelDecoder::new(handle(11), Some(items));
    assert_eq!(decoder.next().unwrap().name, "A");
    let rest = decoder.collect_remaining();
    assert_eq!(rest.len(), 2);
    assert_eq!((rest[0].name.as_str(), rest[0].value), ("B", 2));
    assert_eq!((rest[1].name.as_str(), rest[1].value), ("C", 3));
    assert!(decoder.next().is_none());
    assert!(decoder.collect_remaining().is_empty());
    assert_eq!(decoder.finish().release(), 11);
}

#[test]
fn the_snapshot_is_handed_back_however_much_was_read() {
    let items = vec![raw("A", "mJ", 1), raw("B", "mJ", 2)];
    let unread = ChannelDecoder::new(handle(21), Some(items));
    assert_eq!(unread.finish().release(), 21);
    let items = vec![raw("A", "mJ", 1), raw("B", "mJ", 2)];
    let mut half = ChannelDecoder::new(handle(22), Some(items));
    assert!(half.next().is_some());
    assert_eq!(half.finish().release(), 22);
}
