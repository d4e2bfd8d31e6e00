use linkers::inbox::{find_comment, is_call, new_comments, reply_target, BotName};
use linkers::pipeline::{canonical_target, remove_amp, remove_redirects};
use linkers::pro_api::{Comment, Inbox, Message, MessageCollection, Post, PostComment, Sync};
use linkers::utils_api::{CanonicalInfo, Item, OriginInfo, RedirectorResponse, ResponseType};

fn message(id: i32, message_type: &str, text: &str, read: i32, item_id: Option<i32>) -> Message {
    Message {
        message_type: message_type.to_string(),
        id,
        item_id,
        created: 1_690_000_000,
        message: text.to_string(),
        read,
    }
}

fn comment(id: i32, parent: i32, content: &str) -> Comment {
    Comment { id, parent, content: content.to_string(), created: 1_690_000_000 }
}

fn canonical(url: &str, is_amp: bool) -> CanonicalInfo {
    CanonicalInfo {
        domain: "example.org".to_string(),
        is_alt: false,
        is_amp,
        is_cached: Some(false),
        is_valid: true,
        type_: "CANURL".to_string(),
        url: url.to_string(),
    }
}

fn item(amp_canonical: Option<CanonicalInfo>, canonical: Option<CanonicalInfo>) -> Item {
    Item {
        amp_canonical,
        canonical,
        origin: OriginInfo {
            domain: "google.com".to_string(),
            is_amp: true,
            is_cached: false,
            is_valid: true,
            url: "https://www.google.com/amp/s/example.org/a/amp/".to_string(),
        },
    }
}

fn answered<T>(answer: T) -> Result<T, String> {
    Ok(answer)
}

fn bot() -> BotName {
    BotName::new().expect("the name pattern compiles")
}

#[test]
fn bot_name_is_found_in_any_case() {
    let bot = bot();
    assert!(bot.is_named_in("hey @linkers please"));
    assert!(bot.is_named_in("@LiNkErS"));
    assert!(!bot.is_named_in("linkers without the sign"));
    assert!(!bot.is_named_in("@linker"));
}

#[test]
fn call_is_an_unread_comment_with_name_and_post() {
    let bot = bot();
    assert!(is_call(&message(1, "comment", "@linkers", 0, Some(5)), &bot));
    assert!(!is_call(&message(1, "comment", "@linkers", 1, Some(5)), &bot));
    assert!(!is_call(&message(1, "message", "@linkers", 0, Some(5)), &bot));
    assert!(!is_call(&message(1, "comments", "@linkers", 0, Some(5)), &bot));
    assert!(!is_call(&message(1, "comment", "hello", 0, Some(5)), &bot));
    assert!(!is_call(&message(1, "comment", "@linkers", 0, None), &bot));
}

#[test]
fn new_comments_are_picked_in_inbox_order() {
    let collection = MessageCollection {
        messages: vec![
            message(1, "comment", "@Linkers look", 0, Some(10)),
            message(2, "comment", "@linkers again", 1, Some(10)),
            message(3, "message", "@linkers", 0, None),
            message(4, "comment", "no name", 0, Some(11)),
            message(5, "comment", "well @linkers", 0, Some(12)),
        ],
    };
    let calls = new_comments(&collection, &bot());
    let ids: Vec<i32> = calls.iter().map(|call| call.id).collect();
    assert_eq!(ids, vec![1, 5]);
    assert!(new_comments(&MessageCollection { messages: Vec::new() }, &bot()).is_empty());
}

#[test]
fn find_comment_takes_the_first_with_the_id() {
    let comments = vec![comment(1, 0, "a"), comment(2, 1, "b"), comment(2, 0, "c")];
    assert_eq!(find_comment(&comments, 2).map(|found| found.content.as_str()), Some("b"));
    assert!(find_comment(&comments, 3).is_none());
    assert!(find_comment(&Vec::new(), 1).is_none());
}

#[test]
fn reply_target_is_the_parent_of_the_call() {
    let post = Post {
        comments: vec![
            comment(7, 0, "see https://example.com/x?utm_source=a"),
            comment(8, 7, "@linkers"),
            comment(9, 0, "@linkers"),
            comment(10, 99, "@linkers"),
        ],
    };
    let target = reply_target(&post, 8).expect("the call answers a comment");
    assert_eq!(target.parent.id, 7);
    assert_eq!(target.parent.content, "see https://example.com/x?utm_source=a");
    assert_eq!(target.reply_to, 8);
    assert!(reply_target(&post, 9).is_none());
    assert!(reply_target(&post, 10).is_none());
    assert!(reply_target(&post, 11).is_none());
}

#[test]
fn sync_tells_unread_mentions() {
    assert!(Sync { inbox: Inbox { mentions: 1 } }.has_unread_mentions());
    assert!(!Sync { inbox: Inbox { mentions: 0 } }.has_unread_mentions());
    assert!(!Sync { inbox: Inbox { mentions: -1 } }.has_unread_mentions());
}

#[test]
fn post_comment_holds_its_parts() {
    let post = PostComment::new(12, 8, "answer".to_string(), "n0nce".to_string());
    assert_eq!(post.item_id, 12);
    assert_eq!(post.parent_id, 8);
    assert_eq!(post.comment, "answer");
    assert_eq!(post.nonce, "n0nce");
}

#[test]
fn canonical_target_prefers_amp_canonical() {
    let both = vec![item(
        Some(canonical("https://example.org/a", false)),
        Some(canonical("https://example.org/b", false)),
    )];
    assert_eq!(canonical_target(&both).map(|url| url.as_str()), Some("https://example.org/a"));
    let amp_first = vec![item(
        Some(canonical("https://example.org/a", true)),
        Some(canonical("https://example.org/b", false)),
    )];
    assert_eq!(canonical_target(&amp_first).map(|url| url.as_str()), Some("https://example.org/b"));
    let only_canonical = vec![item(None, Some(canonical("https://example.org/b", false)))];
    assert_eq!(
        canonical_target(&only_canonical).map(|url| url.as_str()),
        Some("https://example.org/b")
    );
}

#[test]
fn canonical_target_needs_a_page_that_is_not_amp() {
    assert!(canonical_target(&Vec::new()).is_none());
    assert!(canonical_target(&vec![item(None, None)]).is_none());
    let all_amp = vec![item(
        Some(canonical("https://example.org/a", true)),
        Some(canonical("https://example.org/b", true)),
    )];
    assert!(canonical_target(&all_amp).is_none());
    let second_only = vec![
        item(None, None),
        item(Some(canonical("https://example.org/a", false)), None),
    ];
    assert!(canonical_target(&second_only).is_none());
}

#[test]
fn remove_amp_parses_the_target() {
    let items = vec![item(Some(canonical("HTTPS://Example.org/a", false)), None)];
    assert_eq!(
        remove_amp(&answered(items)).map(|url| url.as_str().to_string()),
        Some("https://example.org/a".to_string())
    );
    let unparseable = vec![item(
        Some(canonical("/relative/path", false)),
        Some(canonical("https://example.org/b", false)),
    )];
    assert!(remove_amp(&answered(unparseable)).is_none());
    assert!(remove_amp(&answered(Vec::new())).is_none());
    assert!(remove_amp(&Err::<Vec<Item>, String>("timed out".to_string())).is_none());
}

#[test]
fn remove_redirects_takes_the_result_url() {
    let found = RedirectorResponse {
        result_url: Some("https://roli.com/products/seaboard/rise2".to_string()),
        response_status: ResponseType::Okay,
        redirect_urls: None,
    };
    assert_eq!(
        remove_redirects(&answered(found)).map(|url| url.as_str().to_string()),
        Some("https://roli.com/products/seaboard/rise2".to_string())
    );
    let malformed = RedirectorResponse {
        result_url: None,
        response_status: ResponseType::UrlMalformed,
        redirect_urls: None,
    };
    assert!(remove_redirects(&answered(malformed)).is_none());
    let unparseable = RedirectorResponse {
        result_url: Some("no url".to_string()),
        response_status: ResponseType::Okay,
        redirect_urls: None,
    };
    assert!(remove_redirects(&answered(unparseable)).is_none());
    assert!(remove_redirects(&Err::<RedirectorResponse, String>("timed out".to_string())).is_none());
}
