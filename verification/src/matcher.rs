//! The corpus matcher: whether a fresh fingerprint is that of a known
//! artwork, or close to one, and with what confidence.
//!
//! The matcher keeps no state. Its answer depends on the query and on the
//! corpus alone, and among several candidates it is always the same one: the
//! closest, then the one of the artist with the lowest identifier, then the
//! one that comes first in the corpus.

use crate::hashing::{
    fingerprint_image, hamming, hamming_distance, image_fingerprint, lemma_distance_to_self,
    lemma_distance_zero_iff_equal, DecodeError,
};
use crate::models::database::{AiArtist, ArtistArtwork, ArtworkMatch};
use rayon::iter::{IntoParallelRefIterator, ParallelIterator};
use vstd::prelude::*;

verus! {

/// Fingerprints that differ in fewer bits than this are taken for the same
/// artwork, re-encoded or resized.
pub const MATCH_THRESHOLD: u32 = 15;

/// A fingerprint of the corpus with the artist to whom it belongs.
#[derive(Debug, Clone, PartialEq, Eq)]
pub struct KnownArtwork {
    pub artist_id: i64,
    pub artist_name: String,
    pub dhash: [u8; 8],
}

/// The number of bits in which an artwork of the corpus differs from the
/// query.
pub open spec fn distance_to(artwork: KnownArtwork, query: Seq<u8>) -> nat {
    hamming(artwork.dhash@, query)
}

/// Whether an artwork is close enough to the query to be a match.
pub open spec fn is_candidate(artwork: KnownArtwork, query: Seq<u8>) -> bool {
    distance_to(artwork, query) < MATCH_THRESHOLD
}

/// Whether the artwork at `i` is preferred to the one at `j`, or is the
/// same: it is closer to the query, or as close and of an artist with a lower
/// identifier, or as close, of the same artist, and not later in the corpus.
pub open spec fn ranks_before(corpus: Seq<KnownArtwork>, query: Seq<u8>, i: int, j: int) -> bool {
    let near = distance_to(corpus[i], query);
    let far = distance_to(corpus[j], query);
    ||| near < far
    ||| near == far && corpus[i].artist_id < corpus[j].artist_id
    ||| near == far && corpus[i].artist_id == corpus[j].artist_id && i <= j
}

/// Whether the artwork at `i` is the match: it is a candidate, and it is
/// preferred to every other artwork of the corpus.
pub open spec fn is_best(corpus: Seq<KnownArtwork>, query: Seq<u8>, i: int) -> bool {
    &&& 0 <= i < corpus.len()
    &&& is_candidate(corpus[i], query)
    &&& forall|j: int| 0 <= j < corpus.len() ==> ranks_before(corpus, query, i, j)
}

/// The confidence of a match at the given distance, in millionths: the share
/// of the 64 bits that agree. Distance 0 gives 1,000,000, which is 100 %.
pub open spec fn confidence_ppm(distance: nat) -> nat {
    ((64 - distance) * 15625) as nat
}

/// The match that an artwork of the corpus gives for a query.
pub open spec fn match_of(artwork: KnownArtwork, query: Seq<u8>) -> ArtworkMatch {
    ArtworkMatch {
        artist_name: artwork.artist_name,
        confidence_ppm: confidence_ppm(distance_to(artwork, query)) as u32,
        hash_distance: distance_to(artwork, query) as u32,
    }
}

/// The match of a query against a corpus, where there is one.
pub open spec fn best_match(corpus: Seq<KnownArtwork>, query: Seq<u8>) -> Option<ArtworkMatch> {
    if exists|i: int| is_best(corpus, query, i) {
        Some(match_of(corpus[choose|i: int| is_best(corpus, query, i)], query))
    } else {
        None
    }
}

/// At most one artwork of a corpus is the match.
pub proof fn lemma_best_is_unique(corpus: Seq<KnownArtwork>, query: Seq<u8>, i: int, j: int)
    requires
        is_best(corpus, query, i),
        is_best(corpus, query, j),
    ensures
        i == j,
{
    assert(ranks_before(corpus, query, i, j));
    assert(ranks_before(corpus, query, j, i));
}

/// There is a match exactly when the corpus holds a candidate.
pub proof fn lemma_match_iff_candidate(corpus: Seq<KnownArtwork>, query: Seq<u8>)
    ensures
        best_match(corpus, query) is Some <==> exists|i: int|
            0 <= i < corpus.len() && is_candidate(#[trigger] corpus[i], query),
{
    if exists|i: int| 0 <= i < corpus.len() && is_candidate(#[trigger] corpus[i], query) {
        let i = choose|i: int| 0 <= i < corpus.len() && is_candidate(#[trigger] corpus[i], query);
        lemma_least_exists(corpus, query, corpus.len() as int, i);
        assert(corpus.take(corpus.len() as int) =~= corpus);
    }
    if best_match(corpus, query) is Some {
        let i = choose|i: int| is_best(corpus, query, i);
        assert(is_candidate(corpus[i], query));
    }
}

/// Among the first `n` artworks, of which the one at `i` is a candidate, one
/// is preferred to all the others.
proof fn lemma_least_exists(corpus: Seq<KnownArtwork>, query: Seq<u8>, n: int, i: int)
    requires
        0 <= i < n <= corpus.len(),
        is_candidate(corpus[i], query),
    ensures
        exists|b: int| is_best(corpus.take(n), query, b),
    decreases n,
{
    let part = corpus.take(n);
    if n == 1 {
        assert(is_best(part, query, 0));
    } else if i == n - 1 && forall|k: int| 0 <= k < n - 1 ==> !is_candidate(corpus[k], query) {
        assert forall|j: int| 0 <= j < part.len() implies ranks_before(part, query, i, j) by {}
        assert(is_best(part, query, i));
    } else {
        let k = if i < n - 1 {
            i
        } else {
            choose|k: int| 0 <= k < n - 1 && is_candidate(corpus[k], query)
        };
        lemma_least_exists(corpus, query, n - 1, k);
        let rest = corpus.take(n - 1);
        let b = choose|b: int| is_best(rest, query, b);
        let winner = if ranks_before(part, query, b, n - 1) {
            b
        } else {
            n - 1
        };
        assert forall|j: int| 0 <= j < part.len() implies ranks_before(part, query, winner, j) by {
            if j < n - 1 {
                assert(ranks_before(rest, query, b, j));
            }
        }
        assert(is_best(part, query, winner));
    }
}

/// A query whose fingerprint the corpus holds is matched at distance 0 with
/// full confidence.
pub proof fn lemma_exact_match_wins(corpus: Seq<KnownArtwork>, query: Seq<u8>, i: int)
    requires
        0 <= i < corpus.len(),
        corpus[i].dhash@ == query,
    ensures
        best_match(corpus, query) matches Some(found) && found.hash_distance == 0
            && found.confidence_ppm == 1_000_000,
{
    lemma_distance_to_self(query);
    lemma_match_iff_candidate(corpus, query);
    let b = choose|b: int| is_best(corpus, query, b);
    assert(ranks_before(corpus, query, b, i));
}

/// The only artwork of its artist that holds the fingerprint of the query
/// gives the match its artist's name.
pub proof fn lemma_exact_match_names_artist(corpus: Seq<KnownArtwork>, query: Seq<u8>, i: int)
    requires
        query.len() == 8,
        0 <= i < corpus.len(),
        corpus[i].dhash@ == query,
        forall|j: int|
            0 <= j < corpus.len() && (#[trigger] corpus[j]).dhash@ == query
                ==> corpus[j].artist_name == corpus[i].artist_name,
    ensures
        best_match(corpus, query) == Some(
            ArtworkMatch {
                artist_name: corpus[i].artist_name,
                confidence_ppm: 1_000_000,
                hash_distance: 0,
            },
        ),
{
    lemma_exact_match_wins(corpus, query, i);
    let b = choose|b: int| is_best(corpus, query, b);
    lemma_distance_zero_iff_equal(corpus[b].dhash@, query);
}

/// A query that differs from every artwork of the corpus in 15 bits or more
/// is not matched.
pub proof fn lemma_far_query_is_not_matched(corpus: Seq<KnownArtwork>, query: Seq<u8>)
    requires
        forall|i: int|
            0 <= i < corpus.len() ==> distance_to(#[trigger] corpus[i], query) >= MATCH_THRESHOLD,
    ensures
        best_match(corpus, query) is None,
{
    lemma_match_iff_candidate(corpus, query);
}

/// Where one artwork is a candidate and no other is, it is the match, with
/// the confidence that its distance gives.
pub proof fn lemma_single_candidate_is_matched(corpus: Seq<KnownArtwork>, query: Seq<u8>, i: int)
    requires
        0 <= i < corpus.len(),
        is_candidate(corpus[i], query),
        forall|j: int| 0 <= j < corpus.len() && j != i ==> !is_candidate(#[trigger] corpus[j], query),
    ensures
        best_match(corpus, query) == Some(match_of(corpus[i], query)),
{
    lemma_match_iff_candidate(corpus, query);
    let b = choose|b: int| is_best(corpus, query, b);
    assert(is_candidate(corpus[b], query));
}

/// Calls rayon's `par_iter`, `map` and `collect` on the corpus, with the
/// distance to the query as the mapping. `collect` into a `Vec` keeps the
/// order of the source, so the result holds, for each artwork in turn, its
/// distance to the query.
#[verifier::external_body]
fn par_distances(corpus: &Vec<KnownArtwork>, query: &[u8; 8]) -> (distances: Vec<u32>)
    ensures
        distances@.len() == corpus@.len(),
        forall|i: int|
            0 <= i < corpus@.len() ==> #[trigger] distances@[i] == distance_to(corpus@[i], query@),
{
    corpus.par_iter().map(|artwork| hamming_distance(&artwork.dhash, query)).collect()
}

/// Whether two fingerprints are the same.
pub fn same_fingerprint(left: &[u8; 8], right: &[u8; 8]) -> (same: bool)
    ensures
        same == (left@ == right@),
{
    let mut i: usize = 0;
    while i < 8
        invariant
            i <= 8,
            forall|k: int| 0 <= k < i ==> left@[k] == right@[k],
        decreases 8 - i,
    {
        if left[i] != right[i] {
            return false;
        }
        i = i + 1;
    }
    assert(left@ =~= right@);
    true
}

/// The place of the preferred artwork among those that hold exactly the
/// fingerprint of the query.
fn find_exact(corpus: &Vec<KnownArtwork>, query: &[u8; 8]) -> (at: Option<usize>)
    ensures
        at matches Some(i) ==> is_best(corpus@, query@, i as int) && corpus@[i as int].dhash@
            == query@,
        at is None ==> forall|j: int|
            0 <= j < corpus@.len() ==> (#[trigger] corpus@[j]).dhash@ != query@,
{
    let mut best: Option<usize> = None;
    let mut i: usize = 0;
    while i < corpus.len()
        invariant
            i <= corpus@.len(),
            best matches Some(b) ==> b < i && corpus@[b as int].dhash@ == query@ && forall|j: int|
                0 <= j < i && (#[trigger] corpus@[j]).dhash@ == query@ ==> ranks_before(
                    corpus@,
                    query@,
                    b as int,
                    j,
                ),
            best is None ==> forall|j: int| 0 <= j < i ==> (#[trigger] corpus@[j]).dhash@ != query@,
        decreases corpus@.len() - i,
    {
        if same_fingerprint(&corpus[i].dhash, query) {
            proof {
                lemma_distance_to_self(query@);
            }
            match best {
                Some(b) => {
                    if corpus[i].artist_id < corpus[b].artist_id {
                        best = Some(i);
                    }
                },
                None => {
                    best = Some(i);
                },
            }
        }
        i = i + 1;
    }
    proof {
        if let Some(b) = best {
            lemma_distance_to_self(query@);
            assert forall|j: int| 0 <= j < corpus@.len() implies ranks_before(
                corpus@,
                query@,
                b as int,
                j,
            ) by {
                lemma_distance_zero_iff_equal(corpus@[j].dhash@, query@);
            }
        }
    }
    best
}

/// The place of the preferred artwork among the candidates, from the
/// distance of every artwork to the query.
fn find_closest(
    corpus: &Vec<KnownArtwork>,
    distances: &Vec<u32>,
    query: &[u8; 8],
) -> (at: Option<usize>)
    requires
        distances@.len() == corpus@.len(),
        forall|i: int|
            0 <= i < corpus@.len() ==> #[trigger] distances@[i] == distance_to(corpus@[i], query@),
    ensures
        at matches Some(i) ==> is_best(corpus@, query@, i as int),
        at is None ==> forall|j: int|
            0 <= j < corpus@.len() ==> !is_candidate(#[trigger] corpus@[j], query@),
{
    let mut best: Option<usize> = None;
    let mut i: usize = 0;
    while i < corpus.len()
        invariant
            i <= corpus@.len(),
            distances@.len() == corpus@.len(),
            forall|k: int|
                0 <= k < corpus@.len() ==> #[trigger] distances@[k] == distance_to(
                    corpus@[k],
                    query@,
                ),
            best matches Some(b) ==> b < i && is_candidate(corpus@[b as int], query@) && forall|
                j: int,
            |
                0 <= j < i ==> ranks_before(corpus@, query@, b as int, j),
            best is None ==> forall|j: int|
                0 <= j < i ==> !is_candidate(#[trigger] corpus@[j], query@),
        decreases corpus@.len() - i,
    {
        let ghost before = best;
        if distances[i] < MATCH_THRESHOLD {
            match best {
                Some(b) => {
                    if distances[i] < distances[b] || (distances[i] == distances[b]
                        && corpus[i].artist_id < corpus[b].artist_id) {
                        best = Some(i);
                    }
                },
                None => {
                    best = Some(i);
                },
            }
        }
        proof {
            if let Some(b) = best {
                assert forall|j: int| 0 <= j < i + 1 implies ranks_before(
                    corpus@,
                    query@,
                    b as int,
                    j,
                ) by {
                    if let Some(a) = before {
                        if j < i {
                            assert(ranks_before(corpus@, query@, a as int, j));
                        }
                    }
                }
            }
        }
        i = i + 1;
    }
    best
}

/// The match of a query against the corpus.
///
/// An artwork with the very fingerprint of the query is matched at distance
/// 0 with full confidence, without any distance being computed. Otherwise
/// the artworks that differ from the query in fewer than 15 bits are the
/// candidates, and the match is the closest of them; where several are as
/// close, the one of the artist with the lowest identifier, and then the
/// first in the corpus. Without a candidate there is no match.
pub fn find_match(corpus: &Vec<KnownArtwork>, query: &[u8; 8]) -> (found: Option<ArtworkMatch>)
    ensures
        found == best_match(corpus@, query@),
        found is Some <==> exists|i: int|
            0 <= i < corpus@.len() && is_candidate(#[trigger] corpus@[i], query@),
        found matches Some(m) ==> m.hash_distance < MATCH_THRESHOLD && m.confidence_ppm == (64
            - m.hash_distance) * 15625,
{
    proof {
        lemma_match_iff_candidate(corpus@, query@);
    }
    match find_exact(corpus, query) {
        Some(i) => {
            proof {
                let b = choose|b: int| is_best(corpus@, query@, b);
                lemma_best_is_unique(corpus@, query@, i as int, b);
                lemma_distance_to_self(query@);
            }
            Some(
                ArtworkMatch {
                    artist_name: corpus[i].artist_name.clone(),
                    confidence_ppm: 1_000_000,
                    hash_distance: 0,
                },
            )
        },
        None => {
            let distances = par_distances(corpus, query);
            match find_closest(corpus, &distances, query) {
                Some(i) => {
                    proof {
                        let b = choose|b: int| is_best(corpus@, query@, b);
                        lemma_best_is_unique(corpus@, query@, i as int, b);
                    }
                    let distance = distances[i];
                    Some(
                        ArtworkMatch {
                            artist_name: corpus[i].artist_name.clone(),
                            confidence_ppm: (64 - distance) * 15625,
                            hash_distance: distance,
                        },
                    )
                },
                None => None,
            }
        },
    }
}

/// The matches of a query against the corpus, as a list: the one match, or
/// nothing.
pub fn match_fingerprint(
    corpus: &Vec<KnownArtwork>,
    query: &[u8; 8],
) -> (matches: Vec<ArtworkMatch>)
    ensures
        matches@ == match best_match(corpus@, query@) {
            Some(found) => seq![found],
            None => Seq::<ArtworkMatch>::empty(),
        },
{
    let mut matches: Vec<ArtworkMatch> = Vec::new();
    match find_match(corpus, query) {
        Some(found) => {
            matches.push(found);
        },
        None => {},
    }
    matches
}

/// A match as a list: the one match, or nothing.
pub open spec fn match_list(found: Option<ArtworkMatch>) -> Seq<ArtworkMatch> {
    match found {
        Some(found) => seq![found],
        None => Seq::empty(),
    }
}

/// The matches that the outcome of fingerprinting gives: those of the
/// fingerprint, and nothing where there is none.
pub open spec fn matches_for(
    corpus: Seq<KnownArtwork>,
    fingerprint: Result<[u8; 8], DecodeError>,
) -> Seq<ArtworkMatch> {
    match fingerprint {
        Ok(fp) => match_list(best_match(corpus, fp@)),
        Err(_) => Seq::empty(),
    }
}

/// The matches of an encoded image against the corpus: the image is decoded
/// and fingerprinted, and the fingerprint is matched. Bytes that cannot be
/// fingerprinted match nothing. The corpus is not changed.
pub fn match_image(corpus: &Vec<KnownArtwork>, bytes: &[u8]) -> (matches: Vec<ArtworkMatch>)
    ensures
        matches@ == matches_for(corpus@, image_fingerprint(bytes@)),
{
    match_fingerprinted(corpus, fingerprint_image(bytes))
}

/// The matches of an image against the corpus, from the outcome of
/// fingerprinting it: the matches of the fingerprint, and nothing where the
/// image could not be fingerprinted.
pub fn match_fingerprinted(
    corpus: &Vec<KnownArtwork>,
    fingerprint: Result<[u8; 8], DecodeError>,
) -> (matches: Vec<ArtworkMatch>)
    ensures
        matches@ == matches_for(corpus@, fingerprint),
{
    match fingerprint {
        Ok(fp) => match_fingerprint(corpus, &fp),
        Err(_) => Vec::new(),
    }
}

/// The row that a record of the corpus and its artist give.
pub open spec fn row_of(record: ArtistArtwork, artist: AiArtist) -> KnownArtwork {
    KnownArtwork { artist_id: artist.id, artist_name: artist.name, dhash: record.dhash }
}

/// The rows of one record: one for each artist to whom it belongs, in the
/// order of the artists. A record without an artist, or of an artist who is
/// not listed, has none.
pub open spec fn rows_of_record(record: ArtistArtwork, artists: Seq<AiArtist>) -> Seq<KnownArtwork>
    decreases artists.len(),
{
    if artists.len() == 0 {
        Seq::empty()
    } else if record.artist_id == Some(artists.last().id) {
        rows_of_record(record, artists.drop_last()).push(row_of(record, artists.last()))
    } else {
        rows_of_record(record, artists.drop_last())
    }
}

/// The records joined with their artists, in the order of the records.
pub open spec fn joined(records: Seq<ArtistArtwork>, artists: Seq<AiArtist>) -> Seq<KnownArtwork>
    decreases records.len(),
{
    if records.len() == 0 {
        Seq::empty()
    } else {
        joined(records.drop_last(), artists) + rows_of_record(records.last(), artists)
    }
}

/// The corpus as the matcher reads it: every record with the name of the
/// artist to whom it belongs. Records without a listed artist are left out.
pub fn known_artworks(
    records: &Vec<ArtistArtwork>,
    artists: &Vec<AiArtist>,
) -> (corpus: Vec<KnownArtwork>)
    ensures
        corpus@ == joined(records@, artists@),
{
    let mut corpus: Vec<KnownArtwork> = Vec::new();
    let mut i: usize = 0;
    while i < records.len()
        invariant
            i <= records@.len(),
            corpus@ == joined(records@.take(i as int), artists@),
        decreases records@.len() - i,
    {
        let record = &records[i];
        let ghost before = corpus@;
        let mut k: usize = 0;
        while k < artists.len()
            invariant
                k <= artists@.len(),
                corpus@ == before + rows_of_record(*record, artists@.take(k as int)),
            decreases artists@.len() - k,
        {
            let artist = &artists[k];
            proof {
                assert(artists@.take(k + 1).drop_last() =~= artists@.take(k as int));
            }
            let belongs = match record.artist_id {
                Some(id) => id == artist.id,
                None => false,
            };
            if belongs {
                corpus.push(
                    KnownArtwork {
                        artist_id: artist.id,
                        artist_name: artist.name.clone(),
                        dhash: record.dhash,
                    },
                );
            }
            k = k + 1;
        }
        proof {
            assert(artists@.take(artists@.len() as int) =~= artists@);
            assert(records@.take(i + 1).drop_last() =~= records@.take(i as int));
        }
        i = i + 1;
    }
    assert(records@.take(records@.len() as int) =~= records@);
    corpus
}

} // verus!
