use tube_rs::download::{range_url, DownloadSession, RANGE_WINDOW};

#[test]
fn ten_mib_takes_two_ranges() {
    let total: u64 = 10 * 1024 * 1024;
    let mut s = DownloadSession::new(total);
    let mut ranges = Vec::new();
    while let Some((a, b)) = s.next_range() {
        ranges.push((a, b));
        s.record_chunk(b - a + 1);
    }
    assert_eq!(ranges, vec![(0, 9437183), (9437184, 10485759)]);
    assert_eq!(s.downloaded, total);
    assert!(s.is_complete());
}

#[test]
fn window_is_nine_mib() {
    assert_eq!(RANGE_WINDOW, 9 * 1024 * 1024);
}

#[test]
fn empty_download_asks_nothing() {
    let s = DownloadSession::new(0);
    assert_eq!(s.next_range(), None);
    assert!(s.is_complete());
}

#[test]
fn short_chunk_is_asked_again_from_where_it_stopped() {
    let mut s = DownloadSession::new(100);
    assert_eq!(s.next_range(), Some((0, 99)));
    s.record_chunk(40);
    assert_eq!(s.next_range(), Some((40, 99)));
}

#[test]
fn record_chunk_saturates() {
    let mut s = DownloadSession::new(10);
    s.record_chunk(u64::MAX);
    s.record_chunk(5);
    assert_eq!(s.downloaded, u64::MAX);
}

#[test]
fn range_url_format() {
    assert_eq!(range_url("https://a/b", 0, 9437183), "https://a/b?range=0-9437183");
    assert_eq!(range_url("u", 9437184, 10485759), "u?range=9437184-10485759");
}
