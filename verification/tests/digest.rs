use taskstream_core::digest::DownloadTally;
use taskstream_core::error::Error;

#[test]
fn tally_counts_and_hashes_the_chunks_in_order() {
    let mut t = DownloadTally::new(None);
    t.add(b"a").unwrap();
    t.add(b"bc").unwrap();
    assert_eq!(t.count(), 3);
    let info = t.finish();
    assert_eq!(info.bytes, 3);
    assert_eq!(info.sha256, "ba7816bf8f01cfea414140de5dae2223b00361a396177a9cb410ff61f20015ad");
    let empty = DownloadTally::new(Some(0)).finish();
    assert_eq!(empty.bytes, 0);
    assert_eq!(empty.sha256, "e3b0c44298fc1c149afbf4c8996fb92427ae41e4649b934ca495991b7852b855");
}

#[test]
fn tally_refuses_a_chunk_past_the_limit() {
    let mut t = DownloadTally::new(Some(3));
    t.add(b"ab").unwrap();
    match t.add(b"cd") {
        Err(Error::Usage(m)) => assert_eq!(m, "attachment exceeds max-bytes 3"),
        other => panic!("unexpected {other:?}"),
    }
    assert_eq!(t.count(), 2);
    t.add(b"c").unwrap();
    assert_eq!(t.count(), 3);
}
