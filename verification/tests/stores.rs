use jane_doe::checkpoint::{Checkpoint, CheckpointStore};
use jane_doe::corpus::CorpusStore;
use jane_doe::models::database::{ArtistArtwork, Platform};

fn record(platform: Platform, original_id: u64, artist_id: Option<i64>, byte: u8) -> ArtistArtwork {
    ArtistArtwork { platform, original_id, artist_id, dhash: [byte; 8], scraped_at: 1_700_000_000 }
}

#[test]
fn absent_checkpoint_reads_as_zero() {
    let store = CheckpointStore::new();
    assert_eq!(store.get(1, Platform::Gelbooru), 0);
    assert_eq!(store.checkpoint(1, Platform::Gelbooru), None);
    assert_eq!(store.len(), 0);
}

#[test]
fn advance_then_lower_advance_keeps_the_watermark() {
    let mut store = CheckpointStore::new();
    assert!(store.advance(1, Platform::Danbooru, 5, 100));
    assert!(!store.advance(1, Platform::Danbooru, 3, 200));
    assert_eq!(store.get(1, Platform::Danbooru), 5);
    assert_eq!(
        store.checkpoint(1, Platform::Danbooru),
        Some(Checkpoint { artist_id: 1, platform: Platform::Danbooru, watermark: 5, last_run: 100 })
    );
    assert_eq!(store.len(), 1);
}

#[test]
fn advance_in_either_order_leaves_the_greater() {
    let mut store = CheckpointStore::new();
    assert!(store.advance(1, Platform::Danbooru, 3, 100));
    assert!(store.advance(1, Platform::Danbooru, 5, 200));
    assert_eq!(store.get(1, Platform::Danbooru), 5);
    assert_eq!(store.checkpoint(1, Platform::Danbooru).unwrap().last_run, 200);
}

#[test]
fn advance_to_the_same_watermark_writes_nothing() {
    let mut store = CheckpointStore::new();
    assert!(store.advance(1, Platform::Rule34, 5, 100));
    assert!(!store.advance(1, Platform::Rule34, 5, 200));
    assert_eq!(store.checkpoint(1, Platform::Rule34).unwrap().last_run, 100);
}

#[test]
fn advance_to_zero_writes_nothing() {
    let mut store = CheckpointStore::new();
    assert!(!store.advance(1, Platform::Rule34, 0, 100));
    assert_eq!(store.len(), 0);
    assert_eq!(store.get(1, Platform::Rule34), 0);
}

#[test]
fn checkpoints_are_kept_by_artist_and_platform() {
    let mut store = CheckpointStore::new();
    assert!(store.advance(1, Platform::Gelbooru, 10, 1));
    assert!(store.advance(1, Platform::Danbooru, 20, 2));
    assert!(store.advance(2, Platform::Gelbooru, 30, 3));
    assert!(store.advance(-7, Platform::Rule34, u64::MAX, 4));
    assert_eq!(store.get(1, Platform::Gelbooru), 10);
    assert_eq!(store.get(1, Platform::Danbooru), 20);
    assert_eq!(store.get(2, Platform::Gelbooru), 30);
    assert_eq!(store.get(-7, Platform::Rule34), u64::MAX);
    assert_eq!(store.get(2, Platform::Danbooru), 0);
    assert_eq!(store.get(1, Platform::Rule34), 0);
    assert_eq!(store.len(), 4);
    assert!(store.advance(1, Platform::Gelbooru, 11, 5));
    assert_eq!(store.get(1, Platform::Gelbooru), 11);
    assert_eq!(store.get(2, Platform::Gelbooru), 30);
    assert_eq!(store.len(), 4);
}

#[test]
fn corpus_starts_empty() {
    let store = CorpusStore::new();
    assert_eq!(store.len(), 0);
    assert!(!store.contains(Platform::Gelbooru, 1));
    assert_eq!(store.get(Platform::Gelbooru, 1), None);
    assert!(store.records().is_empty());
}

#[test]
fn insert_adds_a_record_once() {
    let mut store = CorpusStore::new();
    let first = record(Platform::Gelbooru, 10, Some(1), 0xaa);
    assert!(store.insert(first));
    assert!(!store.insert(first));
    assert_eq!(store.len(), 1);
    assert!(store.contains(Platform::Gelbooru, 10));
    assert_eq!(store.get(Platform::Gelbooru, 10), Some(first));
}

#[test]
fn second_insert_for_a_post_updates_nothing() {
    let mut store = CorpusStore::new();
    let first = record(Platform::Gelbooru, 10, Some(1), 0xaa);
    let second = record(Platform::Gelbooru, 10, None, 0xbb);
    assert!(store.insert(first));
    assert!(!store.insert(second));
    assert_eq!(store.records(), &vec![first]);
}

#[test]
fn same_id_on_another_platform_is_another_post() {
    let mut store = CorpusStore::new();
    assert!(store.insert(record(Platform::Gelbooru, 10, Some(1), 1)));
    assert!(store.insert(record(Platform::Danbooru, 10, Some(1), 2)));
    assert!(store.insert(record(Platform::Rule34, 10, Some(1), 3)));
    assert!(store.insert(record(Platform::Rule34, 11, None, 4)));
    assert_eq!(store.len(), 4);
    assert!(store.contains(Platform::Danbooru, 10));
    assert!(!store.contains(Platform::Danbooru, 11));
    assert_eq!(store.get(Platform::Rule34, 11).unwrap().artist_id, None);
}

#[test]
fn records_stay_in_the_order_of_ingestion() {
    let mut store = CorpusStore::new();
    let records = vec![
        record(Platform::Rule34, 3, Some(1), 1),
        record(Platform::Gelbooru, 1, Some(2), 2),
        record(Platform::Danbooru, 2, None, 3),
    ];
    for r in &records {
        assert!(store.insert(*r));
    }
    assert!(!store.insert(records[1]));
    assert_eq!(store.records(), &records);
}

#[test]
fn platforms_are_listed_once_each() {
    assert_eq!(Platform::all(), [Platform::Gelbooru, Platform::Danbooru, Platform::Rule34]);
    assert_eq!(Platform::Gelbooru.name(), "gelbooru");
    assert_eq!(Platform::Danbooru.name(), "danbooru");
    assert_eq!(Platform::Rule34.name(), "rule34");
}
