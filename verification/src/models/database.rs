//! Rows of the persisted state, as plain values.

use vstd::prelude::*;

verus! {

/// An image board from which artwork is retrieved.
#[derive(Debug, Clone, Copy, PartialEq, Eq, PartialOrd, Hash, Structural)]
pub enum Platform {
    Gelbooru,
    Danbooru,
    Rule34,
}

impl Platform {
    /// The position of the platform among the supported ones.
    pub open spec fn index(self) -> nat {
        match self {
            Platform::Gelbooru => 0,
            Platform::Danbooru => 1,
            Platform::Rule34 => 2,
        }
    }

    /// The supported platforms, each once.
    pub fn all() -> (platforms: [Platform; 3])
        ensures
            platforms@ == seq![Platform::Gelbooru, Platform::Danbooru, Platform::Rule34],
            forall|p: Platform| #[trigger] platforms@[p.index() as int] == p,
    {
        let platforms = [Platform::Gelbooru, Platform::Danbooru, Platform::Rule34];
        platforms
    }

    /// The lower-case name under which the platform is stored.
    pub fn name(self) -> (name: &'static str)
        ensures
            name@ == match self {
                Platform::Gelbooru => "gelbooru"@,
                Platform::Danbooru => "danbooru"@,
                Platform::Rule34 => "rule34"@,
            },
    {
        match self {
            Platform::Gelbooru => "gelbooru",
            Platform::Danbooru => "danbooru",
            Platform::Rule34 => "rule34",
        }
    }
}

/// An artist whose work is tracked, with the other names under which the
/// artist is searched for.
#[derive(Debug, Clone, PartialEq, Eq)]
pub struct AiArtist {
    pub id: i64,
    pub name: String,
    pub aliases: Vec<String>,
}

/// One fingerprinted artwork of the corpus. There is at most one record for
/// a post of a platform.
#[derive(Debug, Clone, Copy, PartialEq, Eq)]
pub struct ArtistArtwork {
    /// The platform on which the post was found.
    pub platform: Platform,
    /// The identifier of the post on that platform.
    pub original_id: u64,
    /// The artist to whom the artwork belongs, where one is known.
    pub artist_id: Option<i64>,
    /// The fingerprint of the image.
    pub dhash: [u8; 8],
    /// When the record was made, in seconds since the Unix epoch.
    pub scraped_at: i64,
}

/// A match of a fresh image with a known artist.
#[derive(Debug, Clone, PartialEq, Eq)]
pub struct ArtworkMatch {
    pub artist_name: String,
    /// The share of the 64 fingerprint bits that agree, in millionths:
    /// 1,000,000 stands for 100 %.
    pub confidence_ppm: u32,
    /// The number of fingerprint bits that differ, from 0 to 64.
    pub hash_distance: u32,
}

} // verus!
