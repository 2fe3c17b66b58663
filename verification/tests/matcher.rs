use jane_doe::hashing::hamming_distance;
use jane_doe::hashing::DecodeError;
use jane_doe::matcher::{
    find_match, known_artworks, match_fingerprint, match_fingerprinted, match_image,
    same_fingerprint, KnownArtwork, MATCH_THRESHOLD,
};
use jane_doe::models::database::{AiArtist, ArtistArtwork, ArtworkMatch, Platform};

const F: [u8; 8] = [0x3c, 0x5a, 0x0f, 0xf0, 0x81, 0x7e, 0x99, 0x66];

/// `fingerprint` with its first `bits` bits flipped.
fn flipped(fingerprint: [u8; 8], bits: u32) -> [u8; 8] {
    let mut out = fingerprint;
    for bit in 0..bits {
        out[(bit / 8) as usize] ^= 1 << (bit % 8);
    }
    out
}

fn known(artist_id: i64, name: &str, dhash: [u8; 8]) -> KnownArtwork {
    KnownArtwork { artist_id, artist_name: name.to_string(), dhash }
}

fn percent(found: &ArtworkMatch) -> f64 {
    found.confidence_ppm as f64 / 10_000.0
}

#[test]
fn threshold_is_fifteen_bits() {
    assert_eq!(MATCH_THRESHOLD, 15);
}

#[test]
fn flipped_is_at_the_stated_distance() {
    for bits in [0, 1, 14, 15, 20, 30, 64] {
        assert_eq!(hamming_distance(&F, &flipped(F, bits)), bits);
    }
}

#[test]
fn same_fingerprint_compares_every_byte() {
    assert!(same_fingerprint(&F, &F));
    assert!(!same_fingerprint(&F, &flipped(F, 1)));
    let mut last = F;
    last[7] ^= 0x80;
    assert!(!same_fingerprint(&F, &last));
}

#[test]
fn exact_fingerprint_matches_with_full_confidence() {
    let corpus = vec![known(1, "A", F)];
    let matches = match_fingerprint(&corpus, &F);
    assert_eq!(
        matches,
        vec![ArtworkMatch {
            artist_name: "A".to_string(),
            confidence_ppm: 1_000_000,
            hash_distance: 0
        }]
    );
    assert_eq!(percent(&matches[0]), 100.0);
}

#[test]
fn exact_fingerprint_wins_over_near_ones() {
    let corpus = vec![known(1, "near", flipped(F, 1)), known(9, "A", F), known(2, "far", flipped(F, 40))];
    let found = find_match(&corpus, &F).unwrap();
    assert_eq!(found.artist_name, "A");
    assert_eq!(found.hash_distance, 0);
    assert_eq!(found.confidence_ppm, 1_000_000);
}

#[test]
fn distance_twenty_matches_nothing() {
    let query = flipped(F, 20);
    let corpus = vec![known(1, "A", F), known(2, "B", F), known(3, "C", F)];
    assert_eq!(match_fingerprint(&corpus, &query), Vec::new());
    assert_eq!(find_match(&corpus, &query), None);
}

#[test]
fn distance_fifteen_is_outside_and_fourteen_inside() {
    let corpus = vec![known(1, "A", F)];
    assert_eq!(find_match(&corpus, &flipped(F, 15)), None);
    let found = find_match(&corpus, &flipped(F, 14)).unwrap();
    assert_eq!(found.hash_distance, 14);
}

#[test]
fn distance_fourteen_gives_confidence_78_125() {
    let query = flipped(F, 14);
    let corpus = vec![
        known(1, "other", flipped(query, 30)),
        known(2, "A", F),
        known(3, "another", flipped(query, 30)),
    ];
    let matches = match_fingerprint(&corpus, &query);
    assert_eq!(matches.len(), 1);
    assert_eq!(matches[0].artist_name, "A");
    assert_eq!(matches[0].hash_distance, 14);
    assert_eq!(matches[0].confidence_ppm, 781_250);
    assert_eq!(percent(&matches[0]), 78.125);
    assert_eq!(percent(&matches[0]) as f32, (64 - 14) as f32 / 64.0 * 100.0);
}

#[test]
fn confidence_follows_the_distance() {
    let corpus = vec![known(1, "A", F)];
    for (bits, ppm) in [(0, 1_000_000), (1, 984_375), (2, 968_750), (7, 890_625), (13, 796_875)] {
        let found = find_match(&corpus, &flipped(F, bits)).unwrap();
        assert_eq!(found.hash_distance, bits);
        assert_eq!(found.confidence_ppm, ppm);
        assert_eq!(percent(&found) as f32, (64 - bits) as f32 / 64.0 * 100.0);
    }
}

#[test]
fn closest_candidate_wins_wherever_it_stands() {
    let query = F;
    let corpus = vec![known(1, "ten", flipped(F, 10)), known(2, "three", flipped(F, 3)), known(3, "five", flipped(F, 5))];
    assert_eq!(find_match(&corpus, &query).unwrap().artist_name, "three");
    let corpus = vec![known(2, "three", flipped(F, 3)), known(1, "ten", flipped(F, 10))];
    assert_eq!(find_match(&corpus, &query).unwrap().artist_name, "three");
}

#[test]
fn ties_go_to_the_lower_artist_id_then_to_the_first() {
    let mut other = F;
    other[7] ^= 0x80;
    let corpus = vec![known(7, "seven", flipped(F, 1)), known(4, "four", other), known(5, "five", flipped(F, 1))];
    assert_eq!(find_match(&corpus, &F).unwrap().artist_name, "four");
    let corpus = vec![known(4, "first", flipped(F, 1)), known(4, "second", other)];
    assert_eq!(find_match(&corpus, &F).unwrap().artist_name, "first");
    let corpus = vec![known(8, "eight", F), known(3, "three", F), known(5, "five", F)];
    assert_eq!(find_match(&corpus, &F).unwrap().artist_name, "three");
}

#[test]
fn empty_corpus_matches_nothing() {
    assert_eq!(match_fingerprint(&Vec::new(), &F), Vec::new());
}

#[test]
fn matching_leaves_the_corpus_alone() {
    let corpus = vec![known(1, "A", F), known(2, "B", flipped(F, 9))];
    let before = corpus.clone();
    let _ = match_fingerprint(&corpus, &flipped(F, 2));
    assert_eq!(corpus, before);
}

#[test]
fn large_corpus_is_scanned_in_full() {
    let mut corpus = Vec::new();
    for i in 0..5000i64 {
        corpus.push(known(i, "far", flipped(F, 20 + (i % 40) as u32)));
    }
    corpus[4321] = known(4321, "needle", flipped(F, 6));
    let found = find_match(&corpus, &F).unwrap();
    assert_eq!(found.artist_name, "needle");
    assert_eq!(found.hash_distance, 6);
}

#[test]
fn image_bytes_are_matched_by_their_fingerprint() {
    let img = image::RgbImage::from_fn(48, 48, |x, y| {
        let v = (x * 31 + y * 57 + (x * y) % 41) % 256;
        image::Rgb([v as u8, (255 - v) as u8, ((v * 3) % 256) as u8])
    });
    let mut bytes = std::io::Cursor::new(Vec::new());
    img.write_to(&mut bytes, image::ImageFormat::Png).unwrap();
    let bytes = bytes.into_inner();
    let fingerprint = jane_doe::hashing::fingerprint_image(&bytes).unwrap();
    let corpus = vec![known(1, "elsewhere", flipped(fingerprint, 33)), known(2, "A", fingerprint)];
    assert_eq!(
        match_image(&corpus, &bytes),
        vec![ArtworkMatch {
            artist_name: "A".to_string(),
            confidence_ppm: 1_000_000,
            hash_distance: 0
        }]
    );
    assert_eq!(match_image(&corpus, b"no image"), Vec::new());
}

#[test]
fn corpus_joins_records_with_their_artists() {
    let artists = vec![
        AiArtist { id: 1, name: "A".to_string(), aliases: vec!["a".to_string()] },
        AiArtist { id: 2, name: "B".to_string(), aliases: Vec::new() },
    ];
    let record = |platform, original_id, artist_id, dhash| ArtistArtwork {
        platform,
        original_id,
        artist_id,
        dhash,
        scraped_at: 0,
    };
    let records = vec![
        record(Platform::Gelbooru, 10, Some(2), F),
        record(Platform::Danbooru, 10, None, flipped(F, 1)),
        record(Platform::Rule34, 11, Some(1), flipped(F, 2)),
        record(Platform::Rule34, 12, Some(3), flipped(F, 3)),
    ];
    assert_eq!(
        known_artworks(&records, &artists),
        vec![known(2, "B", F), known(1, "A", flipped(F, 2))]
    );
    assert_eq!(known_artworks(&records, &Vec::new()), Vec::new());
    assert_eq!(known_artworks(&Vec::new(), &artists), Vec::new());
}

#[test]
fn an_image_without_a_fingerprint_matches_nothing() {
    let corpus = vec![known(1, "A", F), known(2, "B", flipped(F, 3))];
    assert_eq!(match_fingerprinted(&corpus, Err(DecodeError::Unreadable)), Vec::new());
    assert_eq!(match_fingerprinted(&corpus, Err(DecodeError::TooWide)), Vec::new());
    assert_eq!(
        match_fingerprinted(&corpus, Ok(flipped(F, 2))),
        vec![ArtworkMatch {
            artist_name: "B".to_string(),
            confidence_ppm: 984_375,
            hash_distance: 1
        }]
    );
    assert_eq!(match_fingerprinted(&corpus, Ok(flipped(F, 40))), Vec::new());
}
