use tchat::chat::ChatKind;
use tchat::decode::event_of;
use tchat::handshake::AuthState;
use tchat::json::Json;
use tchat::message::RawContent;
use tchat::session::Event;
use tchat::users::Presence;

fn obj(fields: Vec<(&str, Json)>) -> Json {
    Json::Object(fields.into_iter().map(|(k, v)| (k.to_string(), v)).collect())
}

fn s(x: &str) -> Json {
    Json::Str(x.to_string())
}

fn tagged(tag: &str, mut fields: Vec<(&str, Json)>) -> Json {
    fields.insert(0, ("@type", s(tag)));
    obj(fields)
}

fn message(id: i64, chat_id: i64, content: Json) -> Json {
    tagged(
        "message",
        vec![
            ("id", Json::Int(id)),
            ("date", Json::Int(500)),
            ("chat_id", Json::Int(chat_id)),
            ("sender", tagged("messageSenderUser", vec![("user_id", Json::Int(9))])),
            ("can_be_edited", Json::Bool(true)),
            ("content", content),
        ],
    )
}

#[test]
fn user_update_is_read() {
    let j = tagged(
        "updateUser",
        vec![(
            "user",
            tagged(
                "user",
                vec![
                    ("id", Json::Int(4)),
                    ("first_name", s("Ann")),
                    ("last_name", s("Lee")),
                    ("type", tagged("userTypeRegular", vec![])),
                    ("status", tagged("userStatusOffline", vec![("was_online", Json::Int(77))])),
                ],
            ),
        )],
    );
    match event_of(&j, &Vec::new()) {
        Some(Event::User(u)) => {
            assert_eq!(u.id, 4);
            assert_eq!(u.first_name, "Ann");
            assert_eq!(u.last_name, "Lee");
            assert!(u.is_regular);
            assert!(u.status == Presence::Offline { was_online: 77 });
        }
        _ => panic!("expected a user"),
    }
}

#[test]
fn user_without_id_gives_nothing() {
    let j = tagged("updateUser", vec![("user", tagged("user", vec![("first_name", s("x"))]))]);
    assert!(event_of(&j, &Vec::new()).is_none());
}

#[test]
fn sticker_message_is_read_with_its_flag() {
    let content = tagged("messageSticker", vec![("sticker", tagged("sticker", vec![("emoji", s("🙂"))]))]);
    let j = tagged("updateNewMessage", vec![("message", message(3, 8, content))]);
    match event_of(&j, &vec![false]) {
        Some(Event::NewMessage(m)) => {
            assert_eq!(m.id, 3);
            assert_eq!(m.chat_id, 8);
            assert_eq!(m.sender_user_id, 9);
            assert_eq!(m.date, 500);
            assert!(m.can_be_edited);
            assert!(!m.decoded);
            assert!(matches!(m.content, RawContent::Sticker { ref emoji } if emoji == "🙂"));
        }
        _ => panic!("expected a message"),
    }
}

#[test]
fn text_message_with_preview_is_read() {
    let content = tagged(
        "messageText",
        vec![
            ("text", tagged("formattedText", vec![("text", s("look"))])),
            (
                "web_page",
                tagged(
                    "webPage",
                    vec![
                        ("site_name", s("S")),
                        ("title", s("T")),
                        ("description", tagged("formattedText", vec![("text", s("D"))])),
                    ],
                ),
            ),
        ],
    );
    let j = tagged("updateNewMessage", vec![("message", message(3, 8, content))]);
    match event_of(&j, &vec![true]) {
        Some(Event::NewMessage(m)) => {
            assert!(m.decoded);
            match m.content {
                RawContent::Text { text, web_page: Some(w) } => {
                    assert_eq!(text, "look");
                    assert_eq!(w.site_name, "S");
                    assert_eq!(w.title, "T");
                    assert_eq!(w.description, "D");
                }
                _ => panic!("expected text with a preview"),
            }
        }
        _ => panic!("expected a message"),
    }
}

#[test]
fn batch_uses_extra_then_first_message() {
    let text = || tagged("messageText", vec![("text", tagged("formattedText", vec![("text", s("a"))]))]);
    let with_extra = tagged(
        "messages",
        vec![
            ("@extra", Json::Int(77)),
            ("messages", Json::Array(vec![message(1, 8, text()), obj(vec![("id", Json::Int(2))]), message(3, 8, text())])),
        ],
    );
    match event_of(&with_extra, &vec![true, true, false]) {
        Some(Event::Messages { chat_id, messages }) => {
            assert_eq!(chat_id, 77);
            assert_eq!(messages.iter().map(|m| m.id).collect::<Vec<_>>(), vec![1, 3]);
            assert!(messages[0].decoded);
            assert!(!messages[1].decoded);
        }
        _ => panic!("expected a batch"),
    }
    let without = tagged("messages", vec![("messages", Json::Array(vec![message(1, 8, text())]))]);
    assert!(matches!(event_of(&without, &Vec::new()), Some(Event::Messages { chat_id: 8, .. })));
    let empty = tagged("messages", vec![("messages", Json::Array(Vec::new()))]);
    assert!(event_of(&empty, &Vec::new()).is_none());
    let empty_extra = tagged("messages", vec![("@extra", Json::Int(5)), ("messages", Json::Array(Vec::new()))]);
    assert!(matches!(event_of(&empty_extra, &Vec::new()), Some(Event::Messages { chat_id: 5, ref messages }) if messages.is_empty()));
}

#[test]
fn authorization_states_are_told_apart() {
    let ev = |t: &str| event_of(&tagged("updateAuthorizationState", vec![("authorization_state", tagged(t, vec![]))]), &Vec::new());
    assert!(matches!(ev("authorizationStateWaitCode"), Some(Event::AuthorizationState(AuthState::WaitCode))));
    assert!(matches!(ev("authorizationStateReady"), Some(Event::AuthorizationState(AuthState::Ready))));
    assert!(matches!(ev("authorizationStateClosed"), Some(Event::AuthorizationState(AuthState::Other))));
}

#[test]
fn new_chat_and_group_members_are_read() {
    let chat = tagged(
        "updateNewChat",
        vec![(
            "chat",
            tagged(
                "chat",
                vec![
                    ("id", Json::Int(12)),
                    ("title", s("Team")),
                    ("type", tagged("chatTypeBasicGroup", vec![("basic_group_id", Json::Int(3))])),
                ],
            ),
        )],
    );
    match event_of(&chat, &Vec::new()) {
        Some(Event::NewChat { id, title, kind }) => {
            assert_eq!(id, 12);
            assert_eq!(title, "Team");
            assert!(kind == ChatKind::BasicGroup { group_id: 3 });
        }
        _ => panic!("expected a chat"),
    }
    let info = tagged(
        "updateBasicGroupFullInfo",
        vec![
            ("basic_group_id", Json::Int(3)),
            (
                "basic_group_full_info",
                obj(vec![(
                    "members",
                    Json::Array(vec![
                        obj(vec![("user_id", Json::Int(1))]),
                        obj(vec![("member_id", obj(vec![("user_id", Json::Int(2))]))]),
                        obj(vec![]),
                    ]),
                )]),
            ),
        ],
    );
    match event_of(&info, &Vec::new()) {
        Some(Event::BasicGroupFullInfo { id, member_ids }) => {
            assert_eq!(id, 3);
            assert_eq!(member_ids, vec![1, 2]);
        }
        _ => panic!("expected group members"),
    }
}

#[test]
fn other_kinds_and_errors() {
    assert!(matches!(event_of(&tagged("updateOption", vec![]), &Vec::new()), Some(Event::Other)));
    assert!(event_of(&obj(vec![("id", Json::Int(1))]), &Vec::new()).is_none());
    assert!(matches!(event_of(&tagged("error", vec![("message", s("PHONE_CODE_INVALID"))]), &Vec::new()), Some(Event::Error { ref message }) if message == "PHONE_CODE_INVALID"));
    assert!(matches!(event_of(&tagged("user", vec![("id", Json::Int(6))]), &Vec::new()), Some(Event::Me { id: 6 })));
    let last = tagged("updateChatLastMessage", vec![("chat_id", Json::Int(2)), ("last_message", obj(vec![("date", Json::Int(9))]))]);
    assert!(matches!(event_of(&last, &Vec::new()), Some(Event::ChatLastMessage { chat_id: 2, date: 9 })));
    let no_last = tagged("updateChatLastMessage", vec![("chat_id", Json::Int(2)), ("last_message", Json::Null)]);
    assert!(event_of(&no_last, &Vec::new()).is_none());
}

