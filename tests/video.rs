use canister_store::video::{decimal_text, StoreError, VideoStore};

fn store_with_video(now: u64) -> (VideoStore, String) {
    let mut store = VideoStore::new();
    let id = store.create_video(now, "v1".to_string(), "Title".to_string(), "About".to_string());
    (store, id)
}

#[test]
fn decimal_text_writes_digits() {
    assert_eq!(decimal_text(0), "0");
    assert_eq!(decimal_text(7), "7");
    assert_eq!(decimal_text(10), "10");
    assert_eq!(decimal_text(1_700_000_000_123_456_789), "1700000000123456789");
    assert_eq!(decimal_text(u64::MAX), "18446744073709551615");
}

#[test]
fn created_video_is_listed_under_clock_id() {
    let (store, id) = store_with_video(1_234_567);
    assert_eq!(id, "1234567");
    assert_eq!(store.get_video_info(&id), Ok("Title".to_string()));
    let list = store.get_video_list();
    assert_eq!(list.len(), 1);
    assert_eq!(
        list[0],
        ("1234567".to_string(), "Title".to_string(), "About".to_string(), String::new())
    );
}

#[test]
fn create_at_same_instant_replaces() {
    let (mut store, id) = store_with_video(5);
    store.upload_thumbnail(&id, vec![1, 2]).unwrap();
    let again = store.create_video(5, "v2".to_string(), "New".to_string(), "D".to_string());
    assert_eq!(again, id);
    assert_eq!(store.get_video_list().len(), 1);
    assert_eq!(store.get_video_info(&id), Ok("New".to_string()));
    assert_eq!(store.get_thumbnail(&id), Err(StoreError::ThumbnailNotFound));
}

#[test]
fn list_holds_each_video_once() {
    let mut store = VideoStore::new();
    store.create_video(1, String::new(), "a".to_string(), String::new());
    store.create_video(2, String::new(), "b".to_string(), String::new());
    store.create_video(3, String::new(), "c".to_string(), String::new());
    let mut ids: Vec<String> = store.get_video_list().into_iter().map(|e| e.0).collect();
    ids.sort();
    assert_eq!(ids, vec!["1".to_string(), "2".to_string(), "3".to_string()]);
}

#[test]
fn unknown_video_is_reported() {
    let mut store = VideoStore::new();
    assert_eq!(store.get_video_info("x"), Err(StoreError::VideoNotFound));
    assert_eq!(store.get_hls_playlist("x", "c"), Err(StoreError::VideoNotFound));
    assert_eq!(store.upload_playlist("x", "p".to_string()), Err(StoreError::VideoNotFound));
    assert_eq!(store.upload_ts_segment_chunk("x", 0, 0, 1, vec![1]), Err(StoreError::VideoNotFound));
    assert_eq!(store.get_segment_info("x").err(), Some(StoreError::VideoNotFound));
    assert_eq!(store.get_segment_chunk("x", 0, 0).err(), Some(StoreError::VideoNotFound));
    assert_eq!(store.upload_thumbnail("x", vec![1]), Err(StoreError::VideoNotFound));
    assert_eq!(store.get_thumbnail("x"), Err(StoreError::VideoNotFound));
    assert_eq!(store.upload_ts_segment("x", 0, vec![1]), Err(StoreError::VideoNotFound));
    assert_eq!(store.get_video_chunk("x", 0), Err(StoreError::VideoNotFound));
    assert_eq!(store.get_hls_segment("x", 0), Err(StoreError::VideoNotFound));
    assert_eq!(store.delete_video("x"), Err(StoreError::VideoNotFound));
    assert!(store.get_video_list().is_empty());
}

#[test]
fn playlist_round_trip() {
    let (mut store, id) = store_with_video(9);
    assert_eq!(store.get_hls_playlist(&id, "canister"), Err(StoreError::PlaylistNotFound));
    let text = "#EXTM3U\n#EXTINF:10,\nseg0.ts\n".to_string();
    assert_eq!(store.upload_playlist(&id, text.clone()), Ok(()));
    assert_eq!(store.get_hls_playlist(&id, "canister"), Ok(text));
}

#[test]
fn segment_chunks_fill_gaps_and_keep_first_count() {
    let (mut store, id) = store_with_video(11);
    assert_eq!(store.upload_ts_segment_chunk(&id, 2, 1, 3, vec![7, 8]), Ok(()));
    assert_eq!(store.upload_ts_segment_chunk(&id, 2, 0, 5, vec![6]), Ok(()));
    let info = store.get_segment_info(&id).unwrap();
    assert_eq!(info.len(), 3);
    assert_eq!((info[0].segment_id, info[0].total_chunk_count), (0, 0));
    assert_eq!((info[1].segment_id, info[1].total_chunk_count), (1, 0));
    assert_eq!((info[2].segment_id, info[2].total_chunk_count), (2, 3));
    let c1 = store.get_segment_chunk(&id, 2, 1).unwrap();
    assert_eq!(c1.segment_chunk_data, vec![7, 8]);
    assert_eq!(c1.total_chunk_count, 3);
    let c0 = store.get_segment_chunk(&id, 2, 0).unwrap();
    assert_eq!(c0.segment_chunk_data, vec![6]);
    assert_eq!(store.get_segment_chunk(&id, 1, 0).err(), Some(StoreError::ChunkNotFound));
    assert_eq!(store.get_segment_chunk(&id, 3, 0).err(), Some(StoreError::SegmentNotFound));
    assert_eq!(store.get_segment_chunk(&id, 2, 2).err(), Some(StoreError::ChunkNotFound));
}

#[test]
fn segment_chunk_overwrite() {
    let (mut store, id) = store_with_video(12);
    store.upload_ts_segment_chunk(&id, 0, 0, 1, vec![1]).unwrap();
    store.upload_ts_segment_chunk(&id, 0, 0, 1, vec![2, 3]).unwrap();
    assert_eq!(store.get_segment_chunk(&id, 0, 0).unwrap().segment_chunk_data, vec![2, 3]);
    assert_eq!(store.get_segment_info(&id).unwrap().len(), 1);
}

#[test]
fn new_video_has_no_segments() {
    let (store, id) = store_with_video(13);
    assert!(store.get_segment_info(&id).unwrap().is_empty());
    assert_eq!(store.get_segment_chunk(&id, 0, 0).err(), Some(StoreError::SegmentNotFound));
}

#[test]
fn thumbnail_round_trip() {
    let (mut store, id) = store_with_video(14);
    assert_eq!(store.get_thumbnail(&id), Err(StoreError::ThumbnailNotFound));
    assert_eq!(store.upload_thumbnail(&id, vec![0xff, 0xd8]), Ok(()));
    assert_eq!(store.get_thumbnail(&id), Ok(vec![0xff, 0xd8]));
}

#[test]
fn delete_removes_only_that_video() {
    let mut store = VideoStore::new();
    let a = store.create_video(1, String::new(), "a".to_string(), String::new());
    let b = store.create_video(2, String::new(), "b".to_string(), String::new());
    assert_eq!(store.delete_video(&a), Ok(()));
    assert_eq!(store.get_video_info(&a), Err(StoreError::VideoNotFound));
    assert_eq!(store.get_video_info(&b), Ok("b".to_string()));
    assert_eq!(store.delete_video(&a), Err(StoreError::VideoNotFound));
}

#[test]
fn chunk_upload_creates_video() {
    let mut store = VideoStore::new();
    store.upload_video_chunk("clip", 2, vec![3, 3]);
    assert_eq!(store.get_video_info("clip"), Ok(String::new()));
    assert_eq!(store.get_video_chunk("clip", 0), Ok(vec![]));
    assert_eq!(store.get_video_chunk("clip", 1), Ok(vec![]));
    assert_eq!(store.get_video_chunk("clip", 2), Ok(vec![3, 3]));
    assert_eq!(store.get_video_chunk("clip", 3), Err(StoreError::ChunkNotFound));
    store.upload_video_chunk("clip", 0, vec![1]);
    assert_eq!(store.get_video_chunk("clip", 0), Ok(vec![1]));
    assert_eq!(store.get_video_chunk("clip", 2), Ok(vec![3, 3]));
}

#[test]
fn segment_upload_creates_video_and_reads_back() {
    let mut store = VideoStore::new();
    store.upload_video_segment("live", vec![0x47, 0x40], 1);
    assert_eq!(store.get_hls_segment("live", 1), Ok(vec![0x47, 0x40]));
    assert_eq!(store.get_hls_segment("live", 0), Ok(vec![]));
    assert_eq!(store.get_hls_segment("live", 2), Err(StoreError::SegmentNotFound));
}

#[test]
fn ts_segment_needs_existing_video() {
    let (mut store, id) = store_with_video(15);
    assert_eq!(store.upload_ts_segment(&id, 0, vec![5]), Ok(()));
    assert_eq!(store.get_hls_segment(&id, 0), Ok(vec![5]));
    assert_eq!(store.upload_ts_segment("other", 0, vec![5]), Err(StoreError::VideoNotFound));
    assert_eq!(store.get_video_list().len(), 1);
}
