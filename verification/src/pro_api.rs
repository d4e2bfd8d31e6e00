//! What the message service sends and takes.

use vstd::prelude::*;

verus! {

/// One message of the inbox.
#[derive(Debug)]
pub struct Message {
    pub message_type: String,
    pub id: i32,
    pub item_id: Option<i32>,
    pub created: i64,
    pub message: String,
    pub read: i32,
}

/// The messages of the inbox.
#[derive(Debug)]
pub struct MessageCollection {
    pub messages: Vec<Message>,
}

/// One comment below a post. A comment that answers no other has the parent 0.
#[derive(Debug)]
pub struct Comment {
    pub id: i32,
    pub parent: i32,
    pub content: String,
    pub created: i64,
}

/// A post, as far as its comments go.
#[derive(Debug)]
pub struct Post {
    pub comments: Vec<Comment>,
}

/// The counters of the inbox.
#[derive(Debug)]
pub struct Inbox {
    pub mentions: i32,
}

/// The state that the service reports on a sync.
#[derive(Debug)]
pub struct Sync {
    pub inbox: Inbox,
}

/// A comment to be posted.
#[derive(Debug)]
pub struct PostComment {
    pub comment: String,
    pub parent_id: i32,
    pub item_id: i32,
    pub nonce: String,
}

impl Sync {
    /// Whether there are mentions that have not been read.
    pub fn has_unread_mentions(&self) -> (unread: bool)
        ensures
            unread == (self.inbox.mentions > 0),
    {
        self.inbox.mentions > 0
    }
}

impl PostComment {
    /// The answer `comment` to the comment `parent_id` below the post
    /// `item_id`.
    pub fn new(item_id: i32, parent_id: i32, comment: String, nonce: String) -> (post: PostComment)
        ensures
            post.item_id == item_id,
            post.parent_id == parent_id,
            post.comment == comment,
            post.nonce == nonce,
    {
        PostComment { comment, parent_id, item_id, nonce }
    }
}

} // verus!
