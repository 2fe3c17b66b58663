//! The checkpoint store: for each artist and platform, the highest post
//! identifier that has been ingested. A watermark only ever rises.

use crate::models::database::Platform;
use vstd::prelude::*;

verus! {

/// How far the scrape of one platform has come for one artist.
#[derive(Debug, Clone, Copy, PartialEq, Eq)]
pub struct Checkpoint {
    pub artist_id: i64,
    pub platform: Platform,
    /// The highest post identifier that has been ingested.
    pub watermark: u64,
    /// When the watermark was last raised, in seconds since the Unix epoch.
    pub last_run: i64,
}

/// The watermark that a set of checkpoints holds for an artist and a
/// platform: 0 where it holds none, which stands for "never scraped".
pub open spec fn watermark_in(
    checkpoints: Map<(i64, Platform), Checkpoint>,
    artist_id: i64,
    platform: Platform,
) -> u64 {
    if checkpoints.contains_key((artist_id, platform)) {
        checkpoints[(artist_id, platform)].watermark
    } else {
        0
    }
}

/// The checkpoints after an attempt to raise a watermark. A watermark that
/// is not above the current one changes nothing; a higher one replaces the
/// whole checkpoint.
pub open spec fn advanced(
    checkpoints: Map<(i64, Platform), Checkpoint>,
    artist_id: i64,
    platform: Platform,
    new_watermark: u64,
    now: i64,
) -> Map<(i64, Platform), Checkpoint> {
    if new_watermark > watermark_in(checkpoints, artist_id, platform) {
        checkpoints.insert(
            (artist_id, platform),
            Checkpoint { artist_id, platform, watermark: new_watermark, last_run: now },
        )
    } else {
        checkpoints
    }
}

/// A watermark never falls: after an attempt to raise it, it is the greater
/// of what it was and what was offered.
pub proof fn lemma_advance_is_monotone(
    checkpoints: Map<(i64, Platform), Checkpoint>,
    artist_id: i64,
    platform: Platform,
    new_watermark: u64,
    now: i64,
)
    ensures
        watermark_in(advanced(checkpoints, artist_id, platform, new_watermark, now), artist_id, platform)
            == if new_watermark > watermark_in(checkpoints, artist_id, platform) {
            new_watermark
        } else {
            watermark_in(checkpoints, artist_id, platform)
        },
        watermark_in(advanced(checkpoints, artist_id, platform, new_watermark, now), artist_id, platform)
            >= watermark_in(checkpoints, artist_id, platform),
{
}

/// Raising the watermark of one artist and platform leaves every other
/// checkpoint as it was.
pub proof fn lemma_advance_touches_one_key(
    checkpoints: Map<(i64, Platform), Checkpoint>,
    artist_id: i64,
    platform: Platform,
    new_watermark: u64,
    now: i64,
    other_artist: i64,
    other_platform: Platform,
)
    requires
        other_artist != artist_id || other_platform != platform,
    ensures
        watermark_in(
            advanced(checkpoints, artist_id, platform, new_watermark, now),
            other_artist,
            other_platform,
        ) == watermark_in(checkpoints, other_artist, other_platform),
{
}

/// Two attempts leave the greatest of the three watermarks, in whichever
/// order they are made: a late call with a lower watermark undoes nothing.
pub proof fn lemma_advance_in_any_order(
    checkpoints: Map<(i64, Platform), Checkpoint>,
    artist_id: i64,
    platform: Platform,
    first: u64,
    second: u64,
    now: i64,
    later: i64,
)
    ensures
        watermark_in(
            advanced(
                advanced(checkpoints, artist_id, platform, first, now),
                artist_id,
                platform,
                second,
                later,
            ),
            artist_id,
            platform,
        ) == watermark_in(
            advanced(
                advanced(checkpoints, artist_id, platform, second, now),
                artist_id,
                platform,
                first,
                later,
            ),
            artist_id,
            platform,
        ),
        second <= first ==> advanced(
            advanced(checkpoints, artist_id, platform, first, now),
            artist_id,
            platform,
            second,
            later,
        ) == advanced(checkpoints, artist_id, platform, first, now),
{
}

/// The checkpoints, at most one for an artist and a platform.
#[derive(Debug)]
pub struct CheckpointStore {
    rows: Vec<Checkpoint>,
}

/// The artist and platform for which a checkpoint stands.
pub open spec fn key_of(checkpoint: Checkpoint) -> (i64, Platform) {
    (checkpoint.artist_id, checkpoint.platform)
}

/// Whether no two rows stand for the same artist and platform.
spec fn distinct_keys(rows: Seq<Checkpoint>) -> bool {
    forall|i: int, j: int|
        0 <= i < rows.len() && 0 <= j < rows.len() && i != j ==> key_of(#[trigger] rows[i])
            != key_of(#[trigger] rows[j])
}

/// Whether row `i` stands for the key.
spec fn row_for(rows: Seq<Checkpoint>, key: (i64, Platform), i: int) -> bool {
    0 <= i < rows.len() && key_of(rows[i]) == key
}

/// The rows as a map from artist and platform to checkpoint.
spec fn as_map(rows: Seq<Checkpoint>) -> Map<(i64, Platform), Checkpoint> {
    Map::new(
        |key: (i64, Platform)| exists|i: int| row_for(rows, key, i),
        |key: (i64, Platform)| rows[choose|i: int| row_for(rows, key, i)],
    )
}

/// Among distinct rows, each is the checkpoint of its artist and platform.
proof fn lemma_as_map_at(rows: Seq<Checkpoint>, i: int)
    requires
        distinct_keys(rows),
        0 <= i < rows.len(),
    ensures
        as_map(rows).contains_key(key_of(rows[i])),
        as_map(rows)[key_of(rows[i])] == rows[i],
{
    let key = key_of(rows[i]);
    assert(row_for(rows, key, i));
    let j = choose|j: int| row_for(rows, key, j);
    assert(i == j);
}

impl View for CheckpointStore {
    type V = Map<(i64, Platform), Checkpoint>;

    closed spec fn view(&self) -> Map<(i64, Platform), Checkpoint> {
        as_map(self.rows@)
    }
}

impl CheckpointStore {
    /// There is at most one row for an artist and a platform.
    #[verifier::type_invariant]
    closed spec fn well_formed(self) -> bool {
        distinct_keys(self.rows@)
    }

    /// A store without checkpoints: nothing was scraped yet.
    pub fn new() -> (store: CheckpointStore)
        ensures
            store@ == Map::<(i64, Platform), Checkpoint>::empty(),
    {
        let store = CheckpointStore { rows: Vec::new() };
        store
    }

    /// The place of the row for an artist and a platform.
    fn position(&self, artist_id: i64, platform: Platform) -> (at: Option<usize>)
        ensures
            at matches Some(i) ==> row_for(self.rows@, (artist_id, platform), i as int),
            at is None ==> !self@.contains_key((artist_id, platform)),
    {
        let mut i: usize = 0;
        while i < self.rows.len()
            invariant
                i <= self.rows@.len(),
                forall|j: int| 0 <= j < i ==> !row_for(self.rows@, (artist_id, platform), j),
            decreases self.rows@.len() - i,
        {
            if self.rows[i].artist_id == artist_id && self.rows[i].platform == platform {
                return Some(i);
            }
            i = i + 1;
        }
        None
    }

    /// The checkpoint of an artist on a platform, where there is one. A
    /// checkpoint is stored under its own artist and platform.
    pub fn checkpoint(&self, artist_id: i64, platform: Platform) -> (found: Option<Checkpoint>)
        ensures
            found == if self@.contains_key((artist_id, platform)) {
                Some(self@[(artist_id, platform)])
            } else {
                None
            },
            found matches Some(c) ==> c.artist_id == artist_id && c.platform == platform,
    {
        proof {
            use_type_invariant(self);
        }
        match self.position(artist_id, platform) {
            Some(i) => {
                proof {
                    lemma_as_map_at(self.rows@, i as int);
                }
                Some(self.rows[i])
            },
            None => None,
        }
    }

    /// The watermark of an artist on a platform: the highest post identifier
    /// ingested so far, and 0 where the platform was never scraped for the
    /// artist.
    pub fn get(&self, artist_id: i64, platform: Platform) -> (watermark: u64)
        ensures
            watermark == watermark_in(self@, artist_id, platform),
    {
        match self.checkpoint(artist_id, platform) {
            Some(checkpoint) => checkpoint.watermark,
            None => 0,
        }
    }

    /// Raises the watermark of an artist on a platform to `new_watermark`
    /// and notes `now` as the time of the run. Where `new_watermark` is not
    /// above the current watermark nothing is written. Says whether
    /// something was written.
    pub fn advance(
        &mut self,
        artist_id: i64,
        platform: Platform,
        new_watermark: u64,
        now: i64,
    ) -> (written: bool)
        ensures
            final(self)@ == advanced(old(self)@, artist_id, platform, new_watermark, now),
            written == (new_watermark > watermark_in(old(self)@, artist_id, platform)),
    {
        proof {
            use_type_invariant(&*self);
        }
        let row = Checkpoint { artist_id, platform, watermark: new_watermark, last_run: now };
        match self.position(artist_id, platform) {
            Some(i) => {
                proof {
                    lemma_as_map_at(self.rows@, i as int);
                }
                if new_watermark > self.rows[i].watermark {
                    let mut rows: Vec<Checkpoint> = Vec::new();
                    std::mem::swap(&mut rows, &mut self.rows);
                    proof {
                        lemma_replaced_row(rows@, i as int, row);
                    }
                    rows[i] = row;
                    self.rows = rows;
                    true
                } else {
                    false
                }
            },
            None => {
                if new_watermark > 0 {
                    let mut rows: Vec<Checkpoint> = Vec::new();
                    std::mem::swap(&mut rows, &mut self.rows);
                    proof {
                        lemma_added_row(rows@, row);
                    }
                    rows.push(row);
                    self.rows = rows;
                    true
                } else {
                    false
                }
            },
        }
    }

    /// The number of checkpoints.
    pub fn len(&self) -> (len: usize)
        ensures
            len == self@.dom().len(),
            self@.dom().finite(),
    {
        proof {
            use_type_invariant(self);
            lemma_as_map_size(self.rows@);
        }
        self.rows.len()
    }
}

/// Where `after` holds `row` at `i` and otherwise the rows of `rows` that
/// stand for other artists and platforms, each at its place, its map is
/// that of `rows` with the checkpoint of `row` put in.
proof fn lemma_map_with_row(rows: Seq<Checkpoint>, after: Seq<Checkpoint>, i: int, row: Checkpoint)
    requires
        distinct_keys(rows),
        distinct_keys(after),
        0 <= i < after.len(),
        after[i] == row,
        forall|j: int| 0 <= j < after.len() && j != i ==> j < rows.len() && after[j] == rows[j],
        forall|j: int|
            0 <= j < rows.len() && key_of(#[trigger] rows[j]) != key_of(row) ==> j < after.len()
                && after[j] == rows[j],
    ensures
        as_map(after) == as_map(rows).insert(key_of(row), row),
{
    let key = key_of(row);
    assert(row_for(after, key, i));
    assert forall|k: (i64, Platform)|
        as_map(after).contains_key(k) <==> as_map(rows).insert(key, row).contains_key(k) by {
        if as_map(after).contains_key(k) && k != key {
            let j = choose|j: int| row_for(after, k, j);
            assert(row_for(rows, k, j));
        }
        if as_map(rows).contains_key(k) && k != key {
            let j = choose|j: int| row_for(rows, k, j);
            assert(row_for(after, k, j));
        }
    }
    assert forall|k: (i64, Platform)| as_map(after).contains_key(k) implies as_map(after)[k]
        == as_map(rows).insert(key, row)[k] by {
        let j = choose|j: int| row_for(after, k, j);
        lemma_as_map_at(after, j);
        if k != key {
            lemma_as_map_at(rows, j);
        }
    }
    assert(as_map(after) =~= as_map(rows).insert(key, row));
}

/// Replacing a row by one for the same artist and platform replaces its
/// checkpoint in the map and keeps the rows distinct.
proof fn lemma_replaced_row(rows: Seq<Checkpoint>, i: int, row: Checkpoint)
    requires
        distinct_keys(rows),
        0 <= i < rows.len(),
        key_of(rows[i]) == key_of(row),
    ensures
        distinct_keys(rows.update(i, row)),
        as_map(rows.update(i, row)) == as_map(rows).insert(key_of(row), row),
{
    let after = rows.update(i, row);
    assert forall|a: int, b: int|
        0 <= a < after.len() && 0 <= b < after.len() && a != b implies key_of(#[trigger] after[a])
        != key_of(#[trigger] after[b]) by {
        assert(key_of(after[a]) == key_of(rows[a]));
        assert(key_of(after[b]) == key_of(rows[b]));
    }
    lemma_map_with_row(rows, after, i, row);
}

/// Adding a row for an artist and platform that have none adds its
/// checkpoint to the map and keeps the rows distinct.
proof fn lemma_added_row(rows: Seq<Checkpoint>, row: Checkpoint)
    requires
        distinct_keys(rows),
        !as_map(rows).contains_key(key_of(row)),
    ensures
        distinct_keys(rows.push(row)),
        as_map(rows.push(row)) == as_map(rows).insert(key_of(row), row),
{
    let after = rows.push(row);
    let key = key_of(row);
    assert forall|j: int| 0 <= j < rows.len() implies key_of(#[trigger] rows[j]) != key by {
        if key_of(rows[j]) == key {
            assert(row_for(rows, key, j));
        }
    }
    assert forall|a: int, b: int|
        0 <= a < after.len() && 0 <= b < after.len() && a != b implies key_of(#[trigger] after[a])
        != key_of(#[trigger] after[b]) by {
        if a < rows.len() {
            assert(after[a] == rows[a]);
        }
        if b < rows.len() {
            assert(after[b] == rows[b]);
        }
    }
    lemma_map_with_row(rows, after, rows.len() as int, row);
}

/// A map of distinct rows has as many keys as there are rows.
proof fn lemma_as_map_size(rows: Seq<Checkpoint>)
    requires
        distinct_keys(rows),
    ensures
        as_map(rows).dom().finite(),
        as_map(rows).dom().len() == rows.len(),
    decreases rows.len(),
{
    if rows.len() == 0 {
        assert(as_map(rows).dom() =~= Set::<(i64, Platform)>::empty());
    } else {
        let rest = rows.drop_last();
        let last = rows.last();
        assert(distinct_keys(rest)) by {
            assert forall|i: int, j: int|
                0 <= i < rest.len() && 0 <= j < rest.len() && i != j implies key_of(
                #[trigger] rest[i],
            ) != key_of(#[trigger] rest[j]) by {
                assert(rest[i] == rows[i]);
                assert(rest[j] == rows[j]);
            }
        }
        lemma_as_map_size(rest);
        assert(!as_map(rest).dom().contains(key_of(last))) by {
            if as_map(rest).dom().contains(key_of(last)) {
                let j = choose|j: int| row_for(rest, key_of(last), j);
                assert(key_of(rows[j]) == key_of(rows[rows.len() - 1]));
            }
        }
        assert(as_map(rows).dom() =~= as_map(rest).dom().insert(key_of(last))) by {
            assert forall|k: (i64, Platform)|
                as_map(rows).dom().contains(k) <==> as_map(rest).dom().insert(
                    key_of(last),
                ).contains(k) by {
                if as_map(rows).dom().contains(k) {
                    let j = choose|j: int| row_for(rows, k, j);
                    if j < rest.len() {
                        assert(row_for(rest, k, j));
                    }
                }
                if as_map(rest).dom().contains(k) {
                    let j = choose|j: int| row_for(rest, k, j);
                    assert(row_for(rows, k, j));
                }
                if k == key_of(last) {
                    assert(row_for(rows, k, rows.len() - 1));
                }
            }
        }
    }
}

} // verus!
