//! The decisions of one incremental scrape of one platform: which page to
//! ask for, which posts of a page are new, how they are batched, how the
//! outcomes are tallied, when paging ends, and whether the checkpoint moves.
//! The caller fetches, downloads and stores; every decision is taken here.

use crate::booru::{Page, PageToken, Post};
use crate::corpus::{inserted, CorpusStore};
use crate::hashing::{fingerprint_image, image_fingerprint, DecodeError};
use crate::models::database::{AiArtist, ArtistArtwork, Platform};
use rayon::iter::{IntoParallelRefIterator, ParallelIterator};
use vstd::prelude::*;

verus! {

/// The number of posts asked for per page.
pub const PAGE_SIZE: u64 = 100;

/// The number of posts that are downloaded, fingerprinted and stored at the
/// same time.
pub const BATCH_SIZE: usize = 5;

/// Why a post was not ingested. None of these ends a run.
#[derive(Debug, Clone, Copy, PartialEq, Eq, Structural)]
pub enum ItemError {
    /// The board gave no address for the image file.
    MissingUrl,
    /// The download failed.
    Transport,
    /// The downloaded bytes are no image.
    Decode,
    /// The record could not be written.
    Persistence,
}

/// The posts that lie past a watermark.
pub open spec fn newer_than(watermark: u64) -> spec_fn(Post) -> bool {
    |post: Post| post.id > watermark
}

/// The posts of a page that have not been ingested yet, in the order of the
/// page.
pub open spec fn new_posts(posts: Seq<Post>, watermark: u64) -> Seq<Post> {
    posts.filter(newer_than(watermark))
}

/// The posts behind a sequence of references.
pub open spec fn referents(items: Seq<&Post>) -> Seq<Post> {
    items.map_values(|post: &Post| *post)
}

/// Whether a post lies past the watermark.
pub fn is_new(post: &Post, watermark: u64) -> (new: bool)
    ensures
        new == newer_than(watermark)(*post),
{
    post.id > watermark
}

/// Calls rayon's `par_iter`, `filter` and `collect` on the posts. `filter`
/// keeps the items for which the closure holds, and `collect` into a `Vec`
/// keeps the order of the source, so the result holds the posts past the
/// watermark in the order of the page.
#[verifier::external_body]
fn par_filter_new<'a>(posts: &'a Vec<Post>, watermark: u64) -> (items: Vec<&'a Post>)
    ensures
        referents(items@) == new_posts(posts@, watermark),
{
    posts.par_iter().filter(|post| is_new(post, watermark)).collect()
}

/// The posts of a page that lie past the watermark, in the order of the
/// page. Posts at or below the watermark were ingested by an earlier run and
/// are dropped before anything is downloaded.
pub fn filter_new<'a>(posts: &'a Vec<Post>, watermark: u64) -> (items: Vec<&'a Post>)
    ensures
        referents(items@) == new_posts(posts@, watermark),
        forall|i: int| 0 <= i < items@.len() ==> (#[trigger] items@[i]).id > watermark,
        items@.len() <= posts@.len(),
{
    let items = par_filter_new(posts, watermark);
    proof {
        posts@.lemma_filter_len(newer_than(watermark));
        assert forall|i: int| 0 <= i < items@.len() implies (#[trigger] items@[i]).id
            > watermark by {
            posts@.lemma_filter_pred(newer_than(watermark), i);
        }
    }
    items
}

/// The greatest identifier among the posts, or `floor` where that is
/// greater.
pub open spec fn highest_id(posts: Seq<Post>, floor: u64) -> u64
    decreases posts.len(),
{
    if posts.len() == 0 {
        floor
    } else {
        let rest = highest_id(posts.drop_last(), floor);
        if posts.last().id > rest {
            posts.last().id
        } else {
            rest
        }
    }
}

/// `highest_id` is the least bound: it is at least `floor` and every
/// identifier, and it is `floor` or one of the identifiers.
pub proof fn lemma_highest_id_is_maximum(posts: Seq<Post>, floor: u64)
    ensures
        highest_id(posts, floor) >= floor,
        forall|i: int| 0 <= i < posts.len() ==> highest_id(posts, floor) >= (#[trigger] posts[i]).id,
        highest_id(posts, floor) == floor || exists|i: int|
            0 <= i < posts.len() && (#[trigger] posts[i]).id == highest_id(posts, floor),
    decreases posts.len(),
{
    if posts.len() > 0 {
        let rest = posts.drop_last();
        lemma_highest_id_is_maximum(rest, floor);
        assert forall|i: int| 0 <= i < posts.len() implies highest_id(posts, floor) >= (
        #[trigger] posts[i]).id by {
            if i < rest.len() {
                assert(rest[i] == posts[i]);
            }
        }
        if highest_id(posts, floor) != floor && posts.last().id <= highest_id(rest, floor) {
            let i = choose|i: int|
                0 <= i < rest.len() && (#[trigger] rest[i]).id == highest_id(rest, floor);
            assert(posts[i].id == highest_id(posts, floor));
        }
    }
}

/// The greatest identifier among the posts of a page, or `floor` where that
/// is greater. Every post that was fetched counts, whether or not it is
/// stored later.
pub fn highest_post_id(posts: &Vec<Post>, floor: u64) -> (highest: u64)
    ensures
        highest == highest_id(posts@, floor),
{
    let mut highest = floor;
    let mut i: usize = 0;
    while i < posts.len()
        invariant
            i <= posts@.len(),
            highest == highest_id(posts@.take(i as int), floor),
        decreases posts@.len() - i,
    {
        assert(posts@.take(i + 1).drop_last() =~= posts@.take(i as int));
        if posts[i].id > highest {
            highest = posts[i].id;
        }
        i = i + 1;
    }
    assert(posts@.take(posts@.len() as int) =~= posts@);
    highest
}

/// Where batch `k` of `len` items ends: five items on, or at the end.
pub open spec fn batch_end(k: int, len: int) -> int {
    if BATCH_SIZE * k + BATCH_SIZE <= len {
        BATCH_SIZE * k + BATCH_SIZE
    } else {
        len
    }
}

/// Whether `batches` are the items five by five, in order: every item is in
/// one batch, and every batch but the last holds five.
pub open spec fn is_batching<T>(batches: Seq<Vec<T>>, items: Seq<T>) -> bool {
    &&& batches.len() == (items.len() + BATCH_SIZE - 1) / (BATCH_SIZE as int)
    &&& forall|k: int|
        0 <= k < batches.len() ==> (#[trigger] batches[k])@ == items.subrange(
            BATCH_SIZE * k,
            batch_end(k, items.len() as int),
        )
}

/// Whether `batches` hold the posts five by five, in order.
pub open spec fn holds_in_batches(batches: Seq<Vec<&Post>>, posts: Seq<Post>) -> bool {
    &&& batches.len() == (posts.len() + BATCH_SIZE - 1) / (BATCH_SIZE as int)
    &&& forall|k: int|
        0 <= k < batches.len() ==> referents((#[trigger] batches[k])@) == posts.subrange(
            BATCH_SIZE * k,
            batch_end(k, posts.len() as int),
        )
}

/// Batches of references hold the posts behind them five by five.
proof fn lemma_batches_of_referents(batches: Seq<Vec<&Post>>, items: Seq<&Post>)
    requires
        is_batching(batches, items),
    ensures
        holds_in_batches(batches, referents(items)),
{
    let posts = referents(items);
    assert forall|k: int| 0 <= k < batches.len() implies referents((#[trigger] batches[k])@)
        == posts.subrange(BATCH_SIZE * k, batch_end(k, posts.len() as int)) by {
        assert(referents(batches[k]@) =~= posts.subrange(
            BATCH_SIZE * k,
            batch_end(k, posts.len() as int),
        ));
    }
}

/// Every batch holds between one and five items.
pub proof fn lemma_batch_sizes<T>(batches: Seq<Vec<T>>, items: Seq<T>, k: int)
    requires
        is_batching(batches, items),
        0 <= k < batches.len(),
    ensures
        1 <= batches[k]@.len() <= BATCH_SIZE,
        k + 1 < batches.len() ==> batches[k]@.len() == BATCH_SIZE,
{
}

/// The items five by five, in order. The last batch holds what is left, and
/// no batch is empty.
pub fn into_batches<T: Copy>(items: &Vec<T>) -> (batches: Vec<Vec<T>>)
    ensures
        is_batching(batches@, items@),
{
    let mut batches: Vec<Vec<T>> = Vec::new();
    let mut start: usize = 0;
    while start < items.len()
        invariant
            start <= items@.len(),
            start < items@.len() ==> start % BATCH_SIZE == 0,
            batches@.len() == (start + BATCH_SIZE - 1) / (BATCH_SIZE as int),
            forall|k: int|
                0 <= k < batches@.len() ==> (#[trigger] batches@[k])@ == items@.subrange(
                    BATCH_SIZE * k,
                    batch_end(k, items@.len() as int),
                ),
        decreases items@.len() - start,
    {
        let end: usize = if items.len() - start >= BATCH_SIZE {
            start + BATCH_SIZE
        } else {
            items.len()
        };
        let mut batch: Vec<T> = Vec::new();
        let mut i: usize = start;
        while i < end
            invariant
                start <= i <= end <= items@.len(),
                batch@ == items@.subrange(start as int, i as int),
            decreases end - i,
        {
            batch.push(items[i]);
            i = i + 1;
        }
        batches.push(batch);
        start = end;
    }
    batches
}

/// The number of pages after which a run ends whatever the board says: one
/// page more and the offset of the next would no longer fit in 64 bits.
pub const MAX_PAGES: u64 = 184_467_440_737_095_516;

/// What a [`ScrapeRun`] is at one moment.
pub struct RunView {
    /// The platform that is scraped.
    pub platform: Platform,
    /// The watermark with which the run began: the highest identifier that
    /// earlier runs have ingested, 0 where there was none.
    pub watermark: u64,
    /// The highest identifier seen so far, never below the watermark.
    pub highest: u64,
    /// The number of pages taken in.
    pub pages: u64,
    /// The number of posts that were ingested.
    pub successes: u64,
    /// The number of posts that failed.
    pub failures: u64,
    /// Whether paging has ended.
    pub done: bool,
}

/// The state in which a run begins.
pub open spec fn initial_run(platform: Platform, watermark: u64) -> RunView {
    RunView {
        platform,
        watermark,
        highest: watermark,
        pages: 0,
        successes: 0,
        failures: 0,
        done: false,
    }
}

/// The token that asks for the next page of a run. Gelbooru skips the posts
/// of the pages before, Rule34 counts pages from 0. Danbooru counts pages
/// from 1 while there is no watermark to resume from, and otherwise asks for
/// what follows the highest identifier seen.
pub open spec fn token_for(run: RunView) -> PageToken {
    match run.platform {
        Platform::Gelbooru => PageToken::Offset((run.pages * PAGE_SIZE) as u64),
        Platform::Rule34 => PageToken::Number(run.pages),
        Platform::Danbooru => if run.watermark == 0 {
            PageToken::Number((run.pages + 1) as u64)
        } else {
            PageToken::After(run.highest)
        },
    }
}

/// Whether the board's count of posts is reached once `pages` pages are
/// taken in.
pub open spec fn reached_total(total: Option<u64>, pages: int) -> bool {
    match total {
        Some(count) => pages * PAGE_SIZE >= count,
        None => false,
    }
}

/// Whether paging ends with the page taken in as page number `pages`: the
/// page is short, or holds nothing past the watermark, or the board's count
/// is reached, or the page counter is exhausted.
pub open spec fn paging_ends(posts: Seq<Post>, total: Option<u64>, watermark: u64, pages: int) -> bool {
    ||| posts.len() < PAGE_SIZE
    ||| new_posts(posts, watermark).len() == 0
    ||| reached_total(total, pages)
    ||| pages >= MAX_PAGES
}

/// The run after a page is taken in. A run that has ended takes no page.
pub open spec fn after_page(run: RunView, posts: Seq<Post>, total: Option<u64>) -> RunView {
    if run.done {
        run
    } else {
        RunView {
            highest: highest_id(posts, run.highest),
            pages: (run.pages + 1) as u64,
            done: paging_ends(posts, total, run.watermark, run.pages + 1),
            ..run
        }
    }
}

/// The posts of a page that a run hands on to be ingested: those past the
/// watermark, and none once the run has ended.
pub open spec fn accepted_posts(run: RunView, posts: Seq<Post>) -> Seq<Post> {
    if run.done {
        Seq::empty()
    } else {
        new_posts(posts, run.watermark)
    }
}

/// The number of successes among the outcomes of a batch.
pub open spec fn count_ok(outcomes: Seq<Result<(), ItemError>>) -> nat {
    outcomes.filter(|outcome: Result<(), ItemError>| outcome is Ok).len()
}

/// The run after the outcomes of a batch are tallied.
pub open spec fn after_batch(run: RunView, outcomes: Seq<Result<(), ItemError>>) -> RunView {
    RunView {
        successes: (run.successes + count_ok(outcomes)) as u64,
        failures: (run.failures + outcomes.len() - count_ok(outcomes)) as u64,
        ..run
    }
}

/// The watermark that a run leaves behind: the highest identifier seen, where
/// it lies past the watermark with which the run began.
pub open spec fn advanced_watermark(run: RunView) -> Option<u64> {
    if run.highest > run.watermark {
        Some(run.highest)
    } else {
        None
    }
}

/// A page scraped once more, from the watermark that its first scrape left
/// behind, holds nothing new.
pub proof fn lemma_replay_finds_nothing(posts: Seq<Post>, watermark: u64)
    ensures
        new_posts(posts, highest_id(posts, watermark)).len() == 0,
{
    let highest = highest_id(posts, watermark);
    lemma_highest_id_is_maximum(posts, watermark);
    assert forall|i: int| 0 <= i < posts.len() implies !newer_than(highest)(#[trigger] posts[i]) by {}
    posts.lemma_all_neg_filter_empty(newer_than(highest));
}

/// A later run skips what an earlier run has seen: once a run has taken in a
/// page, a run that begins at the watermark that it leaves behind, or at a
/// higher one, finds nothing new in that page.
pub proof fn lemma_next_run_skips_seen_posts(
    run: RunView,
    posts: Seq<Post>,
    total: Option<u64>,
    platform: Platform,
    later: u64,
)
    requires
        !run.done,
        later >= after_page(run, posts, total).highest,
    ensures
        accepted_posts(initial_run(platform, later), posts).len() == 0,
{
    lemma_highest_id_is_maximum(posts, run.highest);
    assert forall|i: int| 0 <= i < posts.len() implies !newer_than(later)(#[trigger] posts[i]) by {}
    posts.lemma_all_neg_filter_empty(newer_than(later));
}

/// A page never lowers the highest identifier seen, and leaves the
/// watermark, the tallies and the platform of a run alone.
pub proof fn lemma_page_keeps_order(run: RunView, posts: Seq<Post>, total: Option<u64>)
    requires
        run.highest >= run.watermark,
    ensures
        after_page(run, posts, total).highest >= run.highest,
        after_page(run, posts, total).highest >= after_page(run, posts, total).watermark,
        after_page(run, posts, total).watermark == run.watermark,
        after_page(run, posts, total).successes == run.successes,
        after_page(run, posts, total).failures == run.failures,
        after_page(run, posts, total).platform == run.platform,
{
    lemma_highest_id_is_maximum(posts, run.highest);
}

/// Every post of a page that a run takes in counts as seen: the watermark
/// that the run leaves behind is at least its identifier, whatever becomes of
/// the post afterwards.
pub proof fn lemma_seen_posts_are_not_retried(
    run: RunView,
    posts: Seq<Post>,
    total: Option<u64>,
    i: int,
)
    requires
        !run.done,
        run.highest >= run.watermark,
        0 <= i < posts.len(),
        posts[i].id > run.watermark,
    ensures
        advanced_watermark(after_page(run, posts, total)) matches Some(w) && w >= posts[i].id,
{
    lemma_highest_id_is_maximum(posts, run.highest);
}

/// Each outcome of a batch is tallied once, as a success or as a failure,
/// and the tally touches nothing else: failures do not hold the watermark
/// back.
pub proof fn lemma_batch_is_tallied(run: RunView, outcomes: Seq<Result<(), ItemError>>)
    requires
        run.successes + run.failures + outcomes.len() <= u64::MAX,
    ensures
        count_ok(outcomes) <= outcomes.len(),
        after_batch(run, outcomes).successes == run.successes + count_ok(outcomes),
        after_batch(run, outcomes).successes + after_batch(run, outcomes).failures
            == run.successes + run.failures + outcomes.len(),
        advanced_watermark(after_batch(run, outcomes)) == advanced_watermark(run),
        after_batch(run, outcomes).done == run.done,
        after_batch(run, outcomes).pages == run.pages,
{
    outcomes.lemma_filter_len(|outcome: Result<(), ItemError>| outcome is Ok);
}

/// One incremental scrape of one platform for one search term.
///
/// The caller asks [`ScrapeRun::next_page`] for a token, fetches the page,
/// and hands it to [`ScrapeRun::accept_page`], which gives back the new posts
/// in batches. It processes each batch and reports the outcomes to
/// [`ScrapeRun::record_batch`]. When no token is left it writes what
/// [`ScrapeRun::new_watermark`] gives, if anything.
#[derive(Debug)]
pub struct ScrapeRun {
    platform: Platform,
    watermark: u64,
    highest: u64,
    pages: u64,
    successes: u64,
    failures: u64,
    done: bool,
}

impl View for ScrapeRun {
    type V = RunView;

    closed spec fn view(&self) -> RunView {
        RunView {
            platform: self.platform,
            watermark: self.watermark,
            highest: self.highest,
            pages: self.pages,
            successes: self.successes,
            failures: self.failures,
            done: self.done,
        }
    }
}

impl ScrapeRun {
    /// The highest identifier seen is never below the watermark, and a run
    /// that goes on has room for one more page.
    #[verifier::type_invariant]
    closed spec fn well_formed(self) -> bool {
        &&& self.highest >= self.watermark
        &&& self.pages <= MAX_PAGES
        &&& !self.done ==> self.pages < MAX_PAGES
    }

    /// A run that begins at the given watermark: 0 where the platform was
    /// never scraped for this artist.
    pub fn start(platform: Platform, watermark: u64) -> (run: ScrapeRun)
        ensures
            run@ == initial_run(platform, watermark),
    {
        ScrapeRun {
            platform,
            watermark,
            highest: watermark,
            pages: 0,
            successes: 0,
            failures: 0,
            done: false,
        }
    }

    /// The token for the next page, or `None` once paging has ended.
    pub fn next_page(&self) -> (token: Option<PageToken>)
        ensures
            token == if self@.done {
                None
            } else {
                Some(token_for(self@))
            },
    {
        proof {
            use_type_invariant(self);
        }
        if self.done {
            None
        } else {
            match self.platform {
                Platform::Gelbooru => Some(PageToken::Offset(self.pages * PAGE_SIZE)),
                Platform::Rule34 => Some(PageToken::Number(self.pages)),
                Platform::Danbooru => if self.watermark == 0 {
                    Some(PageToken::Number(self.pages + 1))
                } else {
                    Some(PageToken::After(self.highest))
                },
            }
        }
    }

    /// Takes in a fetched page and gives back its new posts, five to a
    /// batch, in the order of the page. Every post of the page raises the
    /// highest identifier seen, also one that fails later. Paging ends with
    /// a short page, with a page that holds nothing new, and when the
    /// board's count is reached.
    pub fn accept_page<'a>(&mut self, page: &'a Page) -> (batches: Vec<Vec<&'a Post>>)
        ensures
            final(self)@ == after_page(old(self)@, page.posts@, page.total),
            holds_in_batches(batches@, accepted_posts(old(self)@, page.posts@)),
    {
        proof {
            use_type_invariant(&*self);
        }
        if self.done {
            let batches: Vec<Vec<&'a Post>> = Vec::new();
            return batches;
        }
        let items = filter_new(&page.posts, self.watermark);
        let pages = self.pages + 1;
        let short = (page.posts.len() as u64) < PAGE_SIZE;
        let reached = match page.total {
            Some(count) => pages * PAGE_SIZE >= count,
            None => false,
        };
        proof {
            lemma_highest_id_is_maximum(page.posts@, self.highest);
        }
        self.highest = highest_post_id(&page.posts, self.highest);
        self.done = short || items.len() == 0 || reached || pages >= MAX_PAGES;
        self.pages = pages;
        let batches = into_batches(&items);
        proof {
            lemma_batches_of_referents(batches@, items@);
        }
        batches
    }

    /// Ends paging after a page could not be fetched. What was seen before
    /// stays seen.
    pub fn page_failed(&mut self)
        ensures
            final(self)@ == (RunView { done: true, ..old(self)@ }),
    {
        proof {
            use_type_invariant(&*self);
        }
        self.done = true;
    }

    /// Tallies the outcomes of one batch: each `Ok` is a success, each `Err`
    /// a failure. Nothing else changes: a failure ends neither the batch nor
    /// the run.
    pub fn record_batch(&mut self, outcomes: &Vec<Result<(), ItemError>>)
        requires
            old(self)@.successes + old(self)@.failures + outcomes@.len() <= u64::MAX,
        ensures
            final(self)@ == after_batch(old(self)@, outcomes@),
    {
        proof {
            use_type_invariant(&*self);
        }
        let ghost is_ok = |outcome: Result<(), ItemError>| outcome is Ok;
        let mut successes: u64 = 0;
        let mut failures: u64 = 0;
        let mut i: usize = 0;
        while i < outcomes.len()
            invariant
                i <= outcomes@.len(),
                successes == outcomes@.take(i as int).filter(is_ok).len(),
                successes + failures == i,
                is_ok == |outcome: Result<(), ItemError>| outcome is Ok,
            decreases outcomes@.len() - i,
        {
            proof {
                let before = outcomes@.take(i as int);
                assert(outcomes@.take(i + 1) =~= before.push(outcomes@[i as int]));
                before.lemma_filter_push(outcomes@[i as int], is_ok);
            }
            match outcomes[i] {
                Ok(_) => {
                    successes = successes + 1;
                },
                Err(_) => {
                    failures = failures + 1;
                },
            }
            i = i + 1;
        }
        assert(outcomes@.take(outcomes@.len() as int) =~= outcomes@);
        self.successes = self.successes + successes;
        self.failures = self.failures + failures;
    }

    /// The watermark to write once the run is over: the highest identifier
    /// seen, where it lies past the watermark with which the run began, and
    /// `None` where nothing new was seen and the checkpoint stays as it is.
    pub fn new_watermark(&self) -> (watermark: Option<u64>)
        ensures
            watermark == advanced_watermark(self@),
            watermark matches Some(w) ==> w > self@.watermark,
    {
        if self.highest > self.watermark {
            Some(self.highest)
        } else {
            None
        }
    }

    /// The platform that is scraped.
    pub fn platform(&self) -> (platform: Platform)
        ensures
            platform == self@.platform,
    {
        self.platform
    }

    /// The watermark with which the run began.
    pub fn watermark(&self) -> (watermark: u64)
        ensures
            watermark == self@.watermark,
    {
        self.watermark
    }

    /// The highest identifier seen so far, never below the watermark.
    pub fn highest_seen(&self) -> (highest: u64)
        ensures
            highest == self@.highest,
            highest >= self@.watermark,
    {
        proof {
            use_type_invariant(self);
        }
        self.highest
    }

    /// The number of posts that were ingested.
    pub fn successes(&self) -> (successes: u64)
        ensures
            successes == self@.successes,
    {
        self.successes
    }

    /// The number of posts that failed.
    pub fn failures(&self) -> (failures: u64)
        ensures
            failures == self@.failures,
    {
        self.failures
    }

    /// Whether paging has ended.
    pub fn is_done(&self) -> (done: bool)
        ensures
            done == self@.done,
    {
        self.done
    }
}

/// The address from which the image of a post is downloaded. A post without
/// one fails before anything is downloaded.
pub fn download_url(post: &Post) -> (url: Result<&str, ItemError>)
    ensures
        match post.file_url {
            Some(address) => url matches Ok(found) && found@ == address@,
            None => url == Err::<&str, ItemError>(ItemError::MissingUrl),
        },
{
    match &post.file_url {
        Some(address) => Ok(address.as_str()),
        None => Err(ItemError::MissingUrl),
    }
}

/// The record of a post with the given fingerprint.
pub open spec fn record_of(
    artist_id: Option<i64>,
    platform: Platform,
    id: u64,
    fingerprint: [u8; 8],
    now: i64,
) -> ArtistArtwork {
    ArtistArtwork { platform, original_id: id, artist_id, dhash: fingerprint, scraped_at: now }
}

/// The corpus after a post is ingested with the outcome of fingerprinting
/// its image: the record of the post is added unless the post has one, and
/// nothing changes where there is no fingerprint.
pub open spec fn ingested(
    records: Seq<ArtistArtwork>,
    artist_id: Option<i64>,
    platform: Platform,
    id: u64,
    fingerprint: Result<[u8; 8], DecodeError>,
    now: i64,
) -> Seq<ArtistArtwork> {
    match fingerprint {
        Ok(fp) => inserted(records, record_of(artist_id, platform, id, fp, now)),
        Err(_) => records,
    }
}

/// What becomes of a post with the outcome of fingerprinting its image: it
/// succeeds with a fingerprint and fails with `ItemError::Decode` without.
pub open spec fn ingest_outcome(fingerprint: Result<[u8; 8], DecodeError>) -> Result<(), ItemError> {
    match fingerprint {
        Ok(_) => Ok(()),
        Err(_) => Err(ItemError::Decode),
    }
}

/// Stores the fingerprint of a post, unless the post has a record already or
/// there is no fingerprint: a post whose image could not be fingerprinted
/// fails with `ItemError::Decode` and leaves the corpus alone. A post that
/// has a record succeeds and leaves the corpus alone as well.
pub fn store_fingerprint(
    store: &mut CorpusStore,
    artist_id: Option<i64>,
    platform: Platform,
    id: u64,
    fingerprint: Result<[u8; 8], DecodeError>,
    now: i64,
) -> (outcome: Result<(), ItemError>)
    ensures
        outcome == ingest_outcome(fingerprint),
        final(store)@ == ingested(old(store)@, artist_id, platform, id, fingerprint, now),
{
    match fingerprint {
        Ok(fp) => {
            store.insert(
                ArtistArtwork { platform, original_id: id, artist_id, dhash: fp, scraped_at: now },
            );
            Ok(())
        },
        Err(_) => Err(ItemError::Decode),
    }
}

/// Ingests one post from what its download gave: the bytes are decoded and
/// fingerprinted, and the fingerprint is stored unless the post has a record
/// already. A failed download fails the post with its own error, bytes that
/// cannot be fingerprinted fail it with `ItemError::Decode`, and both leave
/// the corpus alone.
pub fn process_image(
    store: &mut CorpusStore,
    artist_id: Option<i64>,
    platform: Platform,
    id: u64,
    downloaded: Result<Vec<u8>, ItemError>,
    now: i64,
) -> (outcome: Result<(), ItemError>)
    ensures
        match downloaded {
            Err(e) => outcome == Err::<(), ItemError>(e) && final(store)@ == old(store)@,
            Ok(bytes) => outcome == ingest_outcome(image_fingerprint(bytes@)) && final(store)@
                == ingested(
                old(store)@,
                artist_id,
                platform,
                id,
                image_fingerprint(bytes@),
                now,
            ),
        },
{
    match downloaded {
        Err(e) => Err(e),
        Ok(bytes) => {
            let fingerprint = fingerprint_image(bytes.as_slice());
            store_fingerprint(store, artist_id, platform, id, fingerprint, now)
        },
    }
}

/// A name under which an artist is searched for. The aliases of an artist
/// are terms of their own that share the artist's identity.
#[derive(Debug, PartialEq, Eq)]
pub struct SearchTerm {
    pub artist_id: i64,
    pub term: String,
}

/// The terms that the names of the artists give, in the order of the
/// artists.
pub open spec fn name_terms(artists: Seq<AiArtist>) -> Seq<SearchTerm> {
    artists.map_values(|artist: AiArtist| SearchTerm { artist_id: artist.id, term: artist.name })
}

/// The terms that the aliases of one artist give, in their order.
pub open spec fn alias_terms_of(artist: AiArtist) -> Seq<SearchTerm> {
    artist.aliases@.map_values(|alias: String| SearchTerm { artist_id: artist.id, term: alias })
}

/// The terms that the aliases of the artists give: those of the first
/// artist, then those of the second, and so on.
pub open spec fn alias_terms(artists: Seq<AiArtist>) -> Seq<SearchTerm>
    decreases artists.len(),
{
    if artists.len() == 0 {
        Seq::empty()
    } else {
        alias_terms(artists.drop_last()) + alias_terms_of(artists.last())
    }
}

/// The search terms of a pass: the name of every artist, then every alias.
/// The terms are scraped one after the other, in this order.
pub fn search_terms(artists: &Vec<AiArtist>) -> (terms: Vec<SearchTerm>)
    ensures
        terms@ == name_terms(artists@) + alias_terms(artists@),
{
    let mut terms: Vec<SearchTerm> = Vec::new();
    let mut i: usize = 0;
    while i < artists.len()
        invariant
            i <= artists@.len(),
            terms@ == name_terms(artists@.take(i as int)),
        decreases artists@.len() - i,
    {
        terms.push(SearchTerm { artist_id: artists[i].id, term: artists[i].name.clone() });
        i = i + 1;
    }
    let mut i: usize = 0;
    while i < artists.len()
        invariant
            i <= artists@.len(),
            terms@ == name_terms(artists@) + alias_terms(artists@.take(i as int)),
        decreases artists@.len() - i,
    {
        let artist = &artists[i];
        let ghost before = terms@;
        let mut k: usize = 0;
        while k < artist.aliases.len()
            invariant
                k <= artist.aliases@.len(),
                terms@ == before + alias_terms_of(*artist).take(k as int),
            decreases artist.aliases@.len() - k,
        {
            terms.push(SearchTerm { artist_id: artist.id, term: artist.aliases[k].clone() });
            k = k + 1;
        }
        proof {
            assert(alias_terms_of(*artist).take(artist.aliases@.len() as int) =~= alias_terms_of(
                *artist,
            ));
            assert(artists@.take(i + 1).drop_last() =~= artists@.take(i as int));
        }
        i = i + 1;
    }
    assert(artists@.take(artists@.len() as int) =~= artists@);
    terms
}

/// The successes and failures of one platform.
#[derive(Debug, Clone, Copy, PartialEq, Eq, Structural)]
pub struct SourceTally {
    pub successes: u64,
    pub failures: u64,
}

/// What an ingestion pass reports when it is over: for each platform, how
/// many posts were ingested and how many failed, over all search terms.
#[derive(Debug, Clone, Copy, PartialEq, Eq, Structural)]
pub struct PassReport {
    pub gelbooru: SourceTally,
    pub danbooru: SourceTally,
    pub rule34: SourceTally,
}

impl PassReport {
    /// The tally of a platform.
    pub open spec fn of(self, platform: Platform) -> SourceTally {
        match platform {
            Platform::Gelbooru => self.gelbooru,
            Platform::Danbooru => self.danbooru,
            Platform::Rule34 => self.rule34,
        }
    }

    /// The report of a pass in which nothing has happened yet.
    pub fn new() -> (report: PassReport)
        ensures
            forall|platform: Platform|
                #[trigger] report.of(platform) == (SourceTally { successes: 0, failures: 0 }),
    {
        let zero = SourceTally { successes: 0, failures: 0 };
        PassReport { gelbooru: zero, danbooru: zero, rule34: zero }
    }

    /// The tally of a platform.
    pub fn tally(&self, platform: Platform) -> (tally: SourceTally)
        ensures
            tally == self.of(platform),
    {
        match platform {
            Platform::Gelbooru => self.gelbooru,
            Platform::Danbooru => self.danbooru,
            Platform::Rule34 => self.rule34,
        }
    }

    /// Adds the tallies of a run to those of its platform. The other
    /// platforms keep theirs.
    pub fn add_run(&mut self, run: &ScrapeRun)
        requires
            old(self).of(run@.platform).successes + run@.successes <= u64::MAX,
            old(self).of(run@.platform).failures + run@.failures <= u64::MAX,
        ensures
            final(self).of(run@.platform) == (SourceTally {
                successes: (old(self).of(run@.platform).successes + run@.successes) as u64,
                failures: (old(self).of(run@.platform).failures + run@.failures) as u64,
            }),
            forall|other: Platform|
                other != run@.platform ==> #[trigger] final(self).of(other) == old(self).of(other),
    {
        let before = self.tally(run.platform());
        let after = SourceTally {
            successes: before.successes + run.successes(),
            failures: before.failures + run.failures(),
        };
        match run.platform() {
            Platform::Gelbooru => {
                self.gelbooru = after;
            },
            Platform::Danbooru => {
                self.danbooru = after;
            },
            Platform::Rule34 => {
                self.rule34 = after;
            },
        }
    }
}

} // verus!
