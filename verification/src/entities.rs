//! The content records that the feeds and listings read.
use vstd::prelude::*;

use crate::clock::Timestamp;

verus! {

/// Publication state of a post or page.
#[derive(Clone, Copy, Debug, PartialEq, Eq, Structural)]
pub enum PostStatus {
    Draft,
    PendingReview,
    Published,
    Scheduled,
    Archived,
}

/// Whether a content item is a blog post or a standalone page.
#[derive(Clone, Copy, Debug, PartialEq, Eq, Structural)]
pub enum PostType {
    Post,
    Page,
}

/// A stored post or page.
#[derive(Clone, Debug)]
pub struct Post {
    pub id: i32,
    pub slug: String,
    pub title: String,
    pub markdown: String,
    pub html: String,
    pub excerpt: Option<String>,
    pub status: PostStatus,
    pub post_type: PostType,
    pub author_id: i32,
    pub published_at: Option<Timestamp>,
    pub created_at: Timestamp,
    pub updated_at: Timestamp,
}

/// A post as the API hands it out, with its counters.
#[derive(Clone, Debug)]
pub struct PostResponse {
    pub post: Post,
    pub permalink: String,
    pub view_count: u64,
    pub comment_count: u64,
}

/// The site-wide settings that the feeds read.
#[derive(Clone, Debug)]
pub struct SiteSettings {
    pub title: String,
    pub description: String,
    pub base_url: Option<String>,
}

} // verus!
