//! Which messages call for the cleaner, and which comment an answer goes to.

use crate::pattern::{pattern_compiles, pattern_matches, Pattern, PatternError};
use crate::pro_api::{Comment, Message, MessageCollection, Post};
use vstd::prelude::*;
use vstd::string::StringExecFns;

verus! {

/// The pattern by which a message calls the cleaner: its name behind an at
/// sign, in upper or lower case.
pub const BOT_NAME_PATTERN: &'static str = "(?i)(@linkers)";

/// Recognizes the cleaner's name in a message.
#[derive(Debug)]
pub struct BotName {
    pattern: Pattern,
}

impl BotName {
    #[verifier::type_invariant]
    spec fn holds_name_pattern(self) -> bool {
        self.pattern@ == BOT_NAME_PATTERN@
    }

    /// Compiles the name pattern.
    pub fn new() -> (r: Result<BotName, PatternError>)
        ensures
            r is Ok <==> pattern_compiles(BOT_NAME_PATTERN@),
    {
        match Pattern::new(BOT_NAME_PATTERN) {
            Ok(pattern) => Ok(BotName { pattern }),
            Err(error) => Err(error),
        }
    }

    /// Whether the text names the cleaner.
    pub fn is_named_in(&self, text: &str) -> (named: bool)
        ensures
            named == pattern_matches(BOT_NAME_PATTERN@, text@),
    {
        proof {
            use_type_invariant(self);
        }
        self.pattern.is_match(text)
    }
}

/// Whether a message is a call to answer: an unread comment that names the
/// cleaner and belongs to a post.
pub open spec fn calls_cleaner(message: Message) -> bool {
    &&& message.read == 0
    &&& message.message_type@ == "comment"@
    &&& pattern_matches(BOT_NAME_PATTERN@, message.message@)
    &&& message.item_id is Some
}

/// Whether a message is a call to answer.
pub fn is_call(message: &Message, bot: &BotName) -> (call: bool)
    ensures
        call == calls_cleaner(*message),
{
    message.read == 0 && message.message_type == String::from_str("comment") && bot.is_named_in(
        message.message.as_str(),
    ) && message.item_id.is_some()
}

/// The calls among the messages, in their order.
pub open spec fn calls_among(messages: Seq<Message>) -> Seq<Message> {
    messages.filter(|message: Message| calls_cleaner(message))
}

/// Picks the messages that call for an answer, in the order of the inbox.
pub fn new_comments<'a>(
    collection: &'a MessageCollection,
    bot: &BotName,
) -> (calls: Vec<&'a Message>)
    ensures
        calls@.map_values(|message: &Message| *message) == calls_among(collection.messages@),
{
    let ghost all = collection.messages@;
    let mut calls: Vec<&'a Message> = Vec::new();
    let mut i: usize = 0;
    proof {
        reveal(Seq::filter);
        assert(all.take(0) =~= Seq::empty());
        assert(calls@.map_values(|message: &Message| *message) =~= calls_among(all.take(0)));
    }
    while i < collection.messages.len()
        invariant
            0 <= i <= collection.messages.len(),
            all == collection.messages@,
            calls@.map_values(|message: &Message| *message) == calls_among(all.take(i as int)),
        decreases collection.messages.len() - i,
    {
        let ghost chosen = calls@.map_values(|message: &Message| *message);
        proof {
            assert(all.take(i as int + 1) =~= all.take(i as int).push(all[i as int]));
            all.take(i as int).lemma_filter_push(
                all[i as int],
                |message: Message| calls_cleaner(message),
            );
        }
        if is_call(&collection.messages[i], bot) {
            calls.push(&collection.messages[i]);
            proof {
                assert(calls@.map_values(|message: &Message| *message) =~= chosen.push(
                    all[i as int],
                ));
            }
        }
        i = i + 1;
    }
    proof {
        assert(all.take(collection.messages.len() as int) =~= all);
    }
    calls
}

/// The first comment with the given id, if there is one.
pub open spec fn comment_with_id(comments: Seq<Comment>, id: i32) -> Option<Comment>
    decreases comments.len(),
{
    if comments.len() == 0 {
        None
    } else if comments[0].id == id {
        Some(comments[0])
    } else {
        comment_with_id(comments.drop_first(), id)
    }
}

/// Looks for the first comment with the given id.
pub fn find_comment(comments: &Vec<Comment>, id: i32) -> (found: Option<&Comment>)
    ensures
        match found {
            Some(comment) => comment_with_id(comments@, id) == Some(*comment),
            None => comment_with_id(comments@, id) is None,
        },
{
    let mut i: usize = 0;
    proof {
        assert(comments@.skip(0) =~= comments@);
    }
    while i < comments.len()
        invariant
            0 <= i <= comments.len(),
            comment_with_id(comments@, id) == comment_with_id(comments@.skip(i as int), id),
        decreases comments.len() - i,
    {
        if comments[i].id == id {
            return Some(&comments[i]);
        }
        proof {
            assert(comments@.skip(i as int).drop_first() =~= comments@.skip(i as int + 1));
        }
        i = i + 1;
    }
    None
}

/// Where an answer to a call goes: the comment whose links are to be cleaned,
/// and the id of the comment that the answer is posted under.
pub struct ReplyTarget<'a> {
    /// The comment that the call answers.
    pub parent: &'a Comment,
    /// The id of the comment that made the call.
    pub reply_to: i32,
}

/// The comment that a call answers, with the id of the call, where the call
/// is among the comments, answers another comment, and that one is among them
/// too.
pub open spec fn reply_plan(comments: Seq<Comment>, call_id: i32) -> Option<(Comment, i32)> {
    match comment_with_id(comments, call_id) {
        Some(call) => if call.parent == 0 {
            None
        } else {
            match comment_with_id(comments, call.parent) {
                Some(parent) => Some((parent, call.id)),
                None => None,
            }
        },
        None => None,
    }
}

/// Finds out where the answer to a call goes. There is nothing to answer
/// where the post does not hold the calling comment, where that comment
/// answers no other, or where the post does not hold the comment it answers.
pub fn reply_target<'a>(post: &'a Post, call_id: i32) -> (target: Option<ReplyTarget<'a>>)
    ensures
        match target {
            Some(target) => reply_plan(post.comments@, call_id) == Some(
                (*target.parent, target.reply_to),
            ),
            None => reply_plan(post.comments@, call_id) is None,
        },
{
    let Some(call) = find_comment(&post.comments, call_id) else {
        return None;
    };
    if call.parent == 0 {
        return None;
    }
    let Some(parent) = find_comment(&post.comments, call.parent) else {
        return None;
    };
    Some(ReplyTarget { parent, reply_to: call.id })
}

} // verus!
