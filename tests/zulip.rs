use triagebot::zulip::{Message, MessageApiRequest, Recipient, Request};

fn message(type_: &str, topic: Option<&str>) -> Message {
    Message {
        sender_id: 1,
        sender_email: "a@b.c".to_string(),
        recipient_id: 42,
        sender_short_name: "a".to_string(),
        sender_full_name: "A".to_string(),
        stream_id: None,
        topic: topic.map(|t| t.to_string()),
        type_: type_.to_string(),
    }
}

#[test]
fn narrow_of_private_conversation() {
    let r = Recipient::Private { id: 123, email: "x@y.z" };
    assert_eq!(r.narrow(), "pm-with/123-xxx");
}

#[test]
fn narrow_encodes_topic() {
    let r = Recipient::Stream { id: 7, topic: "foo bar.baz_~-Q9" };
    assert_eq!(r.narrow(), "stream/7-xxx/topic/foo.20bar.2Ebaz_~-Q9");
    let r = Recipient::Stream { id: 0, topic: "é" };
    assert_eq!(r.narrow(), "stream/0-xxx/topic/.C3.A9");
}

#[test]
fn url_links_to_the_narrow() {
    let req = MessageApiRequest {
        recipient: Recipient::Stream { id: 18446744073709551615, topic: "t" },
        content: "hi",
    };
    assert_eq!(
        req.url(),
        "https://rust-lang.zulipchat.com/#narrow/stream/18446744073709551615-xxx/topic/t"
    );
}

#[test]
fn reply_goes_back_where_the_message_came_from() {
    let m = message("private", None);
    assert_eq!(m.reply_recipient(), Some(Recipient::Private { id: 42, email: "a@b.c" }));
    let m = message("stream", Some("t"));
    assert_eq!(m.reply_recipient(), Some(Recipient::Stream { id: 42, topic: "t" }));
    assert_eq!(message("stream", None).reply_recipient(), None);
    assert_eq!(message("other", Some("t")).reply_recipient(), None);
}

#[test]
fn authorization_compares_tokens() {
    let req = Request::new("d".to_string(), message("private", None), "secret".to_string());
    assert!(req.is_authorized("secret"));
    assert!(!req.is_authorized("secreT"));
    assert!(!req.is_authorized("secret2"));
    assert!(!req.is_authorized(""));
}
