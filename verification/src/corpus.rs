//! The corpus store: the fingerprinted artworks, at most one for a post of a
//! platform. Ingesting a post a second time changes nothing.

use crate::models::database::{ArtistArtwork, Platform};
use vstd::prelude::*;

verus! {

/// Whether a record is the one of the given post.
pub open spec fn is_record_of(record: ArtistArtwork, platform: Platform, original_id: u64) -> bool {
    record.platform == platform && record.original_id == original_id
}

/// Whether the records hold one for the given post.
pub open spec fn holds_post(records: Seq<ArtistArtwork>, platform: Platform, original_id: u64) -> bool {
    exists|i: int| 0 <= i < records.len() && is_record_of(#[trigger] records[i], platform, original_id)
}

/// Whether no two records are of the same post.
pub open spec fn one_record_per_post(records: Seq<ArtistArtwork>) -> bool {
    forall|i: int, j: int|
        0 <= i < records.len() && 0 <= j < records.len() && i != j ==> !is_record_of(
            #[trigger] records[i],
            (#[trigger] records[j]).platform,
            records[j].original_id,
        )
}

/// The records after an attempt to add one: it is appended where its post
/// has no record yet, and dropped where it has one. A record is never
/// updated.
pub open spec fn inserted(records: Seq<ArtistArtwork>, record: ArtistArtwork) -> Seq<ArtistArtwork> {
    if holds_post(records, record.platform, record.original_id) {
        records
    } else {
        records.push(record)
    }
}

/// After an attempt to add a record, its post has one.
pub proof fn lemma_inserted_holds_post(records: Seq<ArtistArtwork>, record: ArtistArtwork)
    ensures
        holds_post(inserted(records, record), record.platform, record.original_id),
{
    if !holds_post(records, record.platform, record.original_id) {
        let after = records.push(record);
        assert(is_record_of(after[records.len() as int], record.platform, record.original_id));
    }
}

/// Ingesting a post again changes nothing, whatever the second attempt
/// holds: the corpus has exactly the records that the first attempt left.
pub proof fn lemma_insert_is_idempotent(
    records: Seq<ArtistArtwork>,
    first: ArtistArtwork,
    second: ArtistArtwork,
)
    requires
        first.platform == second.platform,
        first.original_id == second.original_id,
    ensures
        inserted(inserted(records, first), second) == inserted(records, first),
{
    lemma_inserted_holds_post(records, first);
}

/// The records after an attempt to add each record of a page in turn.
pub open spec fn inserted_all(
    records: Seq<ArtistArtwork>,
    page: Seq<ArtistArtwork>,
) -> Seq<ArtistArtwork>
    decreases page.len(),
{
    if page.len() == 0 {
        records
    } else {
        inserted(inserted_all(records, page.drop_last()), page.last())
    }
}

/// A post that has a record keeps it, whatever is added.
pub proof fn lemma_insert_keeps_posts(
    records: Seq<ArtistArtwork>,
    record: ArtistArtwork,
    platform: Platform,
    original_id: u64,
)
    requires
        holds_post(records, platform, original_id),
    ensures
        holds_post(inserted(records, record), platform, original_id),
{
    let i = choose|i: int| 0 <= i < records.len() && is_record_of(#[trigger] records[i], platform, original_id);
    let after = inserted(records, record);
    assert(is_record_of(after[i], platform, original_id));
}

/// After a page is ingested, each of its posts has a record.
pub proof fn lemma_inserted_all_holds_posts(
    records: Seq<ArtistArtwork>,
    page: Seq<ArtistArtwork>,
    i: int,
)
    requires
        0 <= i < page.len(),
    ensures
        holds_post(inserted_all(records, page), page[i].platform, page[i].original_id),
    decreases page.len(),
{
    let before = inserted_all(records, page.drop_last());
    if i == page.len() - 1 {
        lemma_inserted_holds_post(before, page.last());
    } else {
        lemma_inserted_all_holds_posts(records, page.drop_last(), i);
        lemma_insert_keeps_posts(before, page.last(), page[i].platform, page[i].original_id);
    }
}

/// Ingesting any part of a page again, after the page was ingested, changes
/// nothing.
proof fn lemma_replayed_part_changes_nothing(
    records: Seq<ArtistArtwork>,
    page: Seq<ArtistArtwork>,
    n: int,
)
    requires
        0 <= n <= page.len(),
    ensures
        inserted_all(inserted_all(records, page), page.take(n)) == inserted_all(records, page),
    decreases n,
{
    if n > 0 {
        assert(page.take(n).drop_last() =~= page.take(n - 1));
        lemma_replayed_part_changes_nothing(records, page, n - 1);
        lemma_inserted_all_holds_posts(records, page, n - 1);
    }
}

/// Replaying a page changes nothing: after the second time the corpus holds
/// exactly the records that the first time left, one for each post.
pub proof fn lemma_replay_is_idempotent(records: Seq<ArtistArtwork>, page: Seq<ArtistArtwork>)
    ensures
        inserted_all(inserted_all(records, page), page) == inserted_all(records, page),
{
    lemma_replayed_part_changes_nothing(records, page, page.len() as int);
    assert(page.take(page.len() as int) =~= page);
}

/// Adding a record keeps the corpus at one record per post.
pub proof fn lemma_insert_keeps_one_record_per_post(
    records: Seq<ArtistArtwork>,
    record: ArtistArtwork,
)
    requires
        one_record_per_post(records),
    ensures
        one_record_per_post(inserted(records, record)),
{
    if !holds_post(records, record.platform, record.original_id) {
        let after = records.push(record);
        assert forall|i: int, j: int|
            0 <= i < after.len() && 0 <= j < after.len() && i != j implies !is_record_of(
            #[trigger] after[i],
            (#[trigger] after[j]).platform,
            after[j].original_id,
        ) by {}
    }
}

/// The fingerprinted artworks, in the order in which they were ingested.
#[derive(Debug)]
pub struct CorpusStore {
    records: Vec<ArtistArtwork>,
}

impl View for CorpusStore {
    type V = Seq<ArtistArtwork>;

    closed spec fn view(&self) -> Seq<ArtistArtwork> {
        self.records@
    }
}

impl CorpusStore {
    /// No two records are of the same post.
    #[verifier::type_invariant]
    closed spec fn well_formed(self) -> bool {
        one_record_per_post(self.records@)
    }

    /// A corpus without records.
    pub fn new() -> (store: CorpusStore)
        ensures
            store@ == Seq::<ArtistArtwork>::empty(),
    {
        CorpusStore { records: Vec::new() }
    }

    /// The place of the record of a post.
    fn position(&self, platform: Platform, original_id: u64) -> (at: Option<usize>)
        ensures
            at matches Some(i) ==> i < self@.len() && is_record_of(
                self@[i as int],
                platform,
                original_id,
            ),
            at is None ==> !holds_post(self@, platform, original_id),
    {
        let mut i: usize = 0;
        while i < self.records.len()
            invariant
                i <= self.records@.len(),
                forall|j: int|
                    0 <= j < i ==> !is_record_of(#[trigger] self.records@[j], platform, original_id),
            decreases self.records@.len() - i,
        {
            if self.records[i].platform == platform && self.records[i].original_id == original_id {
                return Some(i);
            }
            i = i + 1;
        }
        None
    }

    /// Whether the corpus holds a record of the post.
    pub fn contains(&self, platform: Platform, original_id: u64) -> (found: bool)
        ensures
            found == holds_post(self@, platform, original_id),
    {
        self.position(platform, original_id).is_some()
    }

    /// The record of a post, where the corpus holds one.
    pub fn get(&self, platform: Platform, original_id: u64) -> (found: Option<ArtistArtwork>)
        ensures
            found is Some <==> holds_post(self@, platform, original_id),
            found matches Some(record) ==> self@.contains(record) && is_record_of(
                record,
                platform,
                original_id,
            ),
    {
        match self.position(platform, original_id) {
            Some(i) => {
                Some(self.records[i])
            },
            None => None,
        }
    }

    /// Adds the record unless the corpus holds one of the same post already;
    /// then nothing changes. Says whether the record was added.
    pub fn insert(&mut self, record: ArtistArtwork) -> (added: bool)
        ensures
            final(self)@ == inserted(old(self)@, record),
            added == !holds_post(old(self)@, record.platform, record.original_id),
    {
        proof {
            use_type_invariant(&*self);
            lemma_insert_keeps_one_record_per_post(self@, record);
        }
        match self.position(record.platform, record.original_id) {
            Some(_) => false,
            None => {
                let mut records: Vec<ArtistArtwork> = Vec::new();
                std::mem::swap(&mut records, &mut self.records);
                records.push(record);
                self.records = records;
                true
            },
        }
    }

    /// The number of records.
    pub fn len(&self) -> (len: usize)
        ensures
            len == self@.len(),
    {
        self.records.len()
    }

    /// The records, in the order in which they were ingested. No two are of
    /// the same post.
    pub fn records(&self) -> (records: &Vec<ArtistArtwork>)
        ensures
            records@ == self@,
            one_record_per_post(records@),
    {
        proof {
            use_type_invariant(self);
        }
        &self.records
    }
}

} // verus!
