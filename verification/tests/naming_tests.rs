use segdash::naming::{decimal_string, segment_file_name, zero_padded};
use segdash::SegmentDescriptor;

#[test]
fn decimal_prints_plain_base_ten() {
    assert_eq!(decimal_string(0), "0");
    assert_eq!(decimal_string(7), "7");
    assert_eq!(decimal_string(42), "42");
    assert_eq!(decimal_string(90210), "90210");
    assert_eq!(decimal_string(u64::MAX), "18446744073709551615");
}

#[test]
fn zero_padding_widens_short_numbers_only() {
    assert_eq!(zero_padded(0, 5), "00000");
    assert_eq!(zero_padded(42, 5), "00042");
    assert_eq!(zero_padded(12345, 5), "12345");
    assert_eq!(zero_padded(123456, 5), "123456");
}

#[test]
fn segment_names_follow_the_zero_padded_scheme() {
    assert_eq!(segment_file_name(0), "segment_00000.ts");
    assert_eq!(segment_file_name(7), "segment_00007.ts");
    assert_eq!(segment_file_name(99999), "segment_99999.ts");
}

#[test]
fn segment_names_sort_in_playlist_order() {
    let names: Vec<String> = (0..500).map(segment_file_name).collect();
    let mut sorted = names.clone();
    sorted.sort();
    assert_eq!(names, sorted);
}

#[test]
fn descriptor_derives_its_file_name_from_the_index() {
    let d = SegmentDescriptor::new(3, "http://example.test/seg3.ts".to_string());
    assert_eq!(d.index(), 3);
    assert_eq!(d.source(), "http://example.test/seg3.ts");
    assert_eq!(d.file_name(), "segment_00003.ts");
}
