use vstd::prelude::*;
use crate::models::author::Author;
use crate::models::post::Post;
use crate::store::Table;

verus! {

/// Cache key of the posts snapshot.
pub const POSTS_KEY: &'static str = "posts";

/// Cache key of the authors snapshot.
pub const AUTHORS_KEY: &'static str = "authors";

/// Whole-collection snapshots of the cached entity types. A snapshot is
/// absent until the first refresh and is only ever replaced whole.
pub struct Cache {
    pub posts: Option<Vec<Post>>,
    pub authors: Option<Vec<Author>>,
}

impl Cache {
    pub fn new() -> (r: Cache)
        ensures
            r.posts.is_none(),
            r.authors.is_none(),
    {
        Cache { posts: None, authors: None }
    }

    /// Replaces the posts snapshot with every row of `posts`.
    pub fn refresh_posts(&mut self, posts: &Table<Post>)
        ensures
            final(self).posts matches Some(v) && v@ == posts@,
            final(self).authors == old(self).authors,
    {
        self.posts = Some(posts.snapshot());
    }

    /// Replaces the authors snapshot with every row of `authors`.
    pub fn refresh_authors(&mut self, authors: &Table<Author>)
        ensures
            final(self).authors matches Some(v) && v@ == authors@,
            final(self).posts == old(self).posts,
    {
        self.authors = Some(authors.snapshot());
    }

    /// The posts snapshot, or nothing if it was never built.
    pub fn cached_posts(&self) -> (r: Option<&Vec<Post>>)
        ensures
            match r {
                Some(v) => self.posts == Some(*v),
                None => self.posts.is_none(),
            },
    {
        match &self.posts {
            Some(v) => Some(v),
            None => None,
        }
    }

    /// The authors snapshot, or nothing if it was never built.
    pub fn cached_authors(&self) -> (r: Option<&Vec<Author>>)
        ensures
            match r {
                Some(v) => self.authors == Some(*v),
                None => self.authors.is_none(),
            },
    {
        match &self.authors {
            Some(v) => Some(v),
            None => None,
        }
    }
}

} // verus!
