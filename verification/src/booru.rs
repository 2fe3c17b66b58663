//! What the image boards hand to the ingestion: credentials, posts, pages,
//! and the token that asks for the next page.

use vstd::prelude::*;

verus! {

/// The credentials for Gelbooru.
#[derive(Debug, Clone, PartialEq, Eq)]
pub struct GelbooruConfig {
    pub api_key: String,
    pub user_id: String,
}

/// The credentials for Rule34.
#[derive(Debug, Clone, PartialEq, Eq)]
pub struct Rule34Config {
    pub api_key: String,
    pub user_id: String,
}

/// The credentials for Danbooru.
#[derive(Debug, Clone, PartialEq, Eq)]
pub struct DanbooruConfig {
    pub api_key: String,
    pub login: String,
}

/// A post as every board reports it: its identifier on the board and, where
/// the board gives one, the address of the image file.
#[derive(Debug, PartialEq, Eq)]
pub struct Post {
    pub id: u64,
    pub file_url: Option<String>,
}

impl Clone for Post {
    fn clone(&self) -> (copy: Post)
        ensures
            copy == *self,
    {
        let file_url = match &self.file_url {
            Some(url) => Some(url.clone()),
            None => None,
        };
        Post { id: self.id, file_url }
    }
}

/// One page of posts, with the number of posts that the board says the
/// search has in all, where it says so.
#[derive(Debug, PartialEq, Eq)]
pub struct Page {
    pub posts: Vec<Post>,
    pub total: Option<u64>,
}

/// How the next page is asked for. Each board has its own idiom.
#[derive(Debug, Clone, Copy, PartialEq, Eq, Structural)]
pub enum PageToken {
    /// The number of posts to skip.
    Offset(u64),
    /// The number of the page.
    Number(u64),
    /// The posts that follow the post with this identifier.
    After(u64),
}

} // verus!
