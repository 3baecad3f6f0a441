use peerwatch::clock::stamp_of;

#[test]
fn stamps_are_the_whole_milliseconds() {
    assert_eq!(stamp_of(None), None);
    assert_eq!(stamp_of(Some((0, 999_999))), Some(0));
    assert_eq!(stamp_of(Some((0, 1_000_000))), Some(1));
    assert_eq!(stamp_of(Some((1_700_000_000, 123_456_789))), Some(1_700_000_000_123));
}

#[test]
fn stamps_are_the_lowest_bits() {
    let since = std::time::Duration::new(u64::MAX, 999_999_999);
    let reading = (since.as_secs(), since.subsec_nanos());
    assert_eq!(stamp_of(Some(reading)), Some(since.as_millis() as u64));
}
