use tchat::chat::{ChatKind, Compose, Conversation};
use tchat::handshake::{
    classify_error, handshake_step, parse_code_arg, AuthState, Credentials, ErrorClass,
    HandshakeAction,
};
use tchat::message::{RawContent, RawMessage};
use tchat::registry::ChatList;
use tchat::request::{OutgoingQueue, Request};
use tchat::session::{App, Block, ChatStatus, Effect, Event, InputMode, Key, KeyOutcome};
use tchat::users::{Presence, UserInfo, Users};

fn creds() -> Credentials {
    Credentials { api_id: 11, api_hash: "hash".to_string(), phone_number: "+100".to_string() }
}

fn raw(id: i64, chat_id: i64, sender: i64, text: &str) -> RawMessage {
    RawMessage {
        id,
        date: 1000 + id,
        chat_id,
        sender_user_id: sender,
        content: RawContent::Text { text: text.to_string(), web_page: None },
        decoded: true,
        reply_to_message_id: 0,
        can_be_edited: true,
    }
}

fn user(id: i64, first: &str, status: Presence) -> UserInfo {
    UserInfo {
        id,
        first_name: first.to_string(),
        last_name: "Doe".to_string(),
        is_regular: true,
        status,
    }
}

fn apply(app: &mut App, ev: Event) -> Effect {
    app.apply_event(ev, &creds(), &None)
}

fn new_chat(app: &mut App, id: i64) {
    apply(app, Event::NewChat { id, title: format!("chat {}", id), kind: ChatKind::Other });
}

fn chat_with_date(id: i64, date: i64) -> Conversation {
    let mut c = Conversation::new(id, format!("c{}", id), ChatKind::Other);
    c.last_msg_date = date;
    c
}

#[test]
fn message_by_push_and_batch_is_stored_once() {
    let mut app = App::new();
    new_chat(&mut app, 5);
    apply(&mut app, Event::NewMessage(raw(42, 5, 1, "hi")));
    apply(&mut app, Event::Messages { chat_id: 5, messages: vec![raw(42, 5, 1, "hi"), raw(41, 5, 1, "old")] });
    let c = &app.chat_list.chat_vec[0];
    assert_eq!(c.history.iter().filter(|m| m.id == 42).count(), 1);
    assert_eq!(c.history.len(), 2);
}

#[test]
fn resort_keeps_selected_chat() {
    let mut l = ChatList::new();
    for (id, d) in [(1, 50), (2, 40), (3, 30), (4, 20), (5, 10)] {
        l.chat_vec.push(chat_with_date(id, d));
    }
    l.set_selected_index(2);
    l.chat_vec[2].last_msg_date = 99;
    l.sort();
    assert_eq!(l.selected_index(), 0);
    assert_eq!(l.get_chat_id_by_index(l.selected_index()), Some(3));
    let order: Vec<i64> = l.chat_vec.iter().map(|c| c.id).collect();
    assert_eq!(order, vec![3, 1, 2, 4, 5]);
}

#[test]
fn sort_is_stable_on_ties() {
    let mut l = ChatList::new();
    for (id, d) in [(1, 5), (2, 9), (3, 5), (4, 9)] {
        l.chat_vec.push(chat_with_date(id, d));
    }
    l.set_selected_index(3);
    l.sort();
    let order: Vec<i64> = l.chat_vec.iter().map(|c| c.id).collect();
    assert_eq!(order, vec![2, 4, 1, 3]);
    assert_eq!(l.selected_index(), 1);
    assert_eq!(l.chat_vec[1].id, 4);
}

#[test]
fn sort_without_selection_still_sorts() {
    let mut l = ChatList::new();
    l.sort();
    assert_eq!(l.get_len(), 0);
    assert_eq!(l.selected_index(), 0);
    l.chat_vec.push(chat_with_date(1, 1));
    l.chat_vec.push(chat_with_date(2, 2));
    l.set_selected_index(5);
    l.sort();
    assert_eq!(l.chat_vec[0].id, 2);
    assert_eq!(l.chat_vec[1].id, 1);
    assert_eq!(l.selected_index(), 5);
}

#[test]
fn live_message_raises_last_activity() {
    let mut app = App::new();
    new_chat(&mut app, 1);
    apply(&mut app, Event::ChatLastMessage { chat_id: 1, date: 5000 });
    apply(&mut app, Event::NewMessage(raw(7, 1, 3, "x")));
    assert_eq!(app.chat_list.chat_vec[0].last_msg_date, 5000);
    apply(&mut app, Event::NewMessage(raw(9000, 1, 3, "y")));
    assert_eq!(app.chat_list.chat_vec[0].last_msg_date, 10000);
}

#[test]
fn last_activity_for_unknown_chat_changes_nothing() {
    let mut app = App::new();
    new_chat(&mut app, 1);
    apply(&mut app, Event::ChatLastMessage { chat_id: 42, date: 5 });
    assert_eq!(app.chat_list.chat_vec[0].last_msg_date, -1);
    assert_eq!(app.chat_list.get_len(), 1);
}

#[test]
fn chat_list_scroll_wraps_and_empty_is_noop() {
    let mut l = ChatList::new();
    l.scroll_up();
    l.scroll_down();
    assert_eq!(l.selected_index(), 0);
    for id in 1..=3 {
        l.chat_vec.push(chat_with_date(id, 0));
    }
    l.scroll_up();
    assert_eq!(l.selected_index(), 2);
    l.scroll_down();
    assert_eq!(l.selected_index(), 0);
    l.scroll_down();
    assert_eq!(l.selected_index(), 1);
    assert_eq!(l.get_chat_by_id(3), Some(2));
    assert_eq!(l.get_chat_by_id(9), None);
}

#[test]
fn new_message_moves_chat_to_top_and_keeps_selection() {
    let mut app = App::new();
    new_chat(&mut app, 1);
    new_chat(&mut app, 2);
    apply(&mut app, Event::ChatLastMessage { chat_id: 1, date: 500 });
    assert_eq!(app.chat_list.chat_vec[0].id, 1);
    app.chat_list.set_selected_index(0);
    apply(&mut app, Event::NewMessage(raw(7, 2, 3, "x")));
    assert_eq!(app.chat_list.chat_vec[0].id, 2);
    assert_eq!(app.chat_list.chat_vec[app.chat_list.selected_index()].id, 1);
}

#[test]
fn message_for_unknown_chat_is_skipped() {
    let mut app = App::new();
    new_chat(&mut app, 1);
    let e = apply(&mut app, Event::NewMessage(raw(7, 99, 3, "x")));
    assert!(matches!(e, Effect::Log(_)));
    assert!(app.chat_list.chat_vec[0].history.is_empty());
}

#[test]
fn notification_for_message_from_someone_else() {
    let mut app = App::new();
    apply(&mut app, Event::Me { id: 1 });
    apply(&mut app, Event::User(user(3, "Bo", Presence::Unknown)));
    new_chat(&mut app, 5);
    match apply(&mut app, Event::NewMessage(raw(8, 5, 3, "yo"))) {
        Effect::Notify { summary, body } => {
            assert_eq!(summary, "Bo Doe");
            assert_eq!(body, "yo");
        }
        _ => panic!("expected a notification"),
    }
    assert!(matches!(apply(&mut app, Event::NewMessage(raw(9, 5, 1, "me"))), Effect::Nothing));
}

#[test]
fn empty_batch_marks_end_of_history() {
    let mut app = App::new();
    new_chat(&mut app, 5);
    apply(&mut app, Event::Messages { chat_id: 5, messages: Vec::new() });
    assert!(app.chat_list.chat_vec[0].end_of_history);
    let shown = app.render(40, 10);
    assert!(shown.is_some());
    assert_eq!(app.outgoing_queue.len(), 0);
}

#[test]
fn render_without_chats_is_none() {
    let mut app = App::new();
    assert!(app.render(40, 10).is_none());
}

#[test]
fn colors_are_assigned_once_in_palette_order() {
    let mut u = Users::new();
    for id in 0..14 {
        u.upsert(user(id, "x", Presence::Online));
    }
    assert_eq!(u.get(0).unwrap().color, 0);
    assert_eq!(u.get(12).unwrap().color, 12);
    assert_eq!(u.get(13).unwrap().color, 0);
    u.upsert(user(12, "renamed", Presence::Unknown));
    let p = u.get(12).unwrap();
    assert_eq!(p.color, 12);
    assert_eq!(p.info.first_name, "renamed");
    assert!(p.info.status == Presence::Online);
    u.set_status(12, Presence::Offline { was_online: 5 });
    assert!(u.get(12).unwrap().info.status == Presence::Offline { was_online: 5 });
    assert_eq!(u.len(), 14);
}

#[test]
fn group_status_counts_online_members() {
    let mut app = App::new();
    apply(&mut app, Event::User(user(1, "a", Presence::Online)));
    apply(&mut app, Event::User(user(2, "b", Presence::Unknown)));
    apply(&mut app, Event::User(user(3, "c", Presence::Online)));
    apply(&mut app, Event::BasicGroup { id: 9, member_count: 4 });
    apply(&mut app, Event::BasicGroupFullInfo { id: 9, member_ids: vec![1, 2, 3, 4] });
    apply(&mut app, Event::NewChat { id: 5, title: "g".to_string(), kind: ChatKind::BasicGroup { group_id: 9 } });
    assert!(app.chat_status() == ChatStatus::Group { members: 4, online: 2 });
}

#[test]
fn private_status_follows_presence() {
    let mut app = App::new();
    apply(&mut app, Event::User(user(1, "a", Presence::Offline { was_online: 77 })));
    apply(&mut app, Event::NewChat { id: 5, title: "p".to_string(), kind: ChatKind::Private { user_id: 1 } });
    assert!(app.chat_status() == ChatStatus::LastSeen { was_online: 77 });
    apply(&mut app, Event::UserStatus { user_id: 1, status: Presence::Online });
    assert!(app.chat_status() == ChatStatus::Online);
}

#[test]
fn handshake_sends_one_request_per_state() {
    let c = creds();
    match handshake_step(AuthState::WaitTdlibParameters, &c, &None) {
        HandshakeAction::Send(v) => {
            assert!(matches!(&v[..], [Request::SetParameters { api_id: 11, api_hash }] if api_hash == "hash"))
        }
        _ => panic!(),
    }
    match handshake_step(AuthState::WaitPhoneNumber, &c, &None) {
        HandshakeAction::Send(v) => {
            assert!(matches!(&v[..], [Request::SetPhoneNumber { phone_number }] if phone_number == "+100"))
        }
        _ => panic!(),
    }
    match handshake_step(AuthState::WaitCode, &c, &Some("123".to_string())) {
        HandshakeAction::Send(v) => assert!(matches!(&v[..], [Request::CheckCode { code }] if code == "123")),
        _ => panic!(),
    }
    match handshake_step(AuthState::Ready, &c, &None) {
        HandshakeAction::Send(v) => assert!(matches!(&v[..], [Request::GetChatList, Request::GetMe])),
        _ => panic!(),
    }
    match handshake_step(AuthState::WaitEncryptionKey, &c, &None) {
        HandshakeAction::Send(v) => assert!(matches!(&v[..], [Request::CheckEncryptionKey])),
        _ => panic!(),
    }
    assert!(matches!(handshake_step(AuthState::Other, &c, &None), HandshakeAction::Ignore));
}

#[test]
fn missing_code_is_fatal() {
    match handshake_step(AuthState::WaitCode, &creds(), &None) {
        HandshakeAction::Fatal(m) => assert_eq!(m, "Please re-run with --code={{code}}"),
        _ => panic!(),
    }
    let mut app = App::new();
    let e = app.apply_event(Event::AuthorizationState(AuthState::WaitCode), &creds(), &None);
    assert!(matches!(e, Effect::Exit(_)));
}

#[test]
fn ready_queues_bootstrap_requests() {
    let mut app = App::new();
    apply(&mut app, Event::AuthorizationState(AuthState::Ready));
    let v = app.outgoing_queue.drain();
    assert!(matches!(&v[..], [Request::GetChatList, Request::GetMe]));
}

#[test]
fn wrong_code_error_is_fatal_others_are_logged() {
    match classify_error(&"PHONE_CODE_INVALID".to_string()) {
        ErrorClass::Fatal(m) => assert_eq!(m, "Incorrect code. Please try again."),
        _ => panic!(),
    }
    match classify_error(&"FLOOD_WAIT".to_string()) {
        ErrorClass::Recoverable(m) => assert_eq!(m, "FLOOD_WAIT"),
        _ => panic!(),
    }
    let mut app = App::new();
    assert!(matches!(apply(&mut app, Event::Error { message: "PHONE_CODE_INVALID".to_string() }), Effect::Exit(_)));
    assert!(matches!(apply(&mut app, Event::Error { message: "OTHER".to_string() }), Effect::Log(_)));
}

#[test]
fn code_argument_is_read() {
    assert_eq!(parse_code_arg("--code=12345"), Some("12345".to_string()));
    assert_eq!(parse_code_arg("--code=1=2"), Some("1".to_string()));
    assert_eq!(parse_code_arg("--code="), Some(String::new()));
    assert_eq!(parse_code_arg("--cod"), None);
    assert_eq!(parse_code_arg("--other=1"), None);
    assert_eq!(parse_code_arg("--code= 42 \n"), Some("42".to_string()));
    assert_eq!(parse_code_arg("--code=   "), Some(String::new()));
}

#[test]
fn queue_drains_in_order() {
    let mut q = OutgoingQueue::new();
    q.push_back(Request::GetMe);
    q.push_back(Request::GetChatList);
    let v = q.drain();
    assert!(matches!(&v[..], [Request::GetMe, Request::GetChatList]));
    assert_eq!(q.len(), 0);
}

#[test]
fn keys_route_by_mode_and_focus() {
    let mut app = App::new();
    new_chat(&mut app, 1);
    new_chat(&mut app, 2);
    assert!(app.handle_key(Key::Char('j')) == KeyOutcome::Redraw);
    assert_eq!(app.chat_list.selected_index(), 1);
    app.handle_key(Key::Char('\t'));
    app.handle_key(Key::Char('\t'));
    assert!(app.selected_block() == Block::Input);
    app.handle_key(Key::Char('i'));
    assert!(app.curr_mode() == InputMode::Insert);
    for ch in ['h', 'i', 'x'] {
        app.handle_key(Key::Char(ch));
    }
    app.handle_key(Key::Backspace);
    assert_eq!(app.chat_list.chat_vec[1].input, vec!['h', 'i']);
    app.handle_key(Key::Char('\n'));
    let v = app.outgoing_queue.drain();
    assert!(matches!(&v[..], [Request::SendMessage { chat_id: 2, text, reply_to_message_id: 0 }] if text == &vec!['h', 'i']));
    assert!(app.handle_key(Key::Esc) == KeyOutcome::Quiet);
    assert!(app.curr_mode() == InputMode::Normal);
    assert!(app.handle_key(Key::F(1)) == KeyOutcome::Exit);
}

#[test]
fn visual_mode_edit_then_submit() {
    let mut app = App::new();
    new_chat(&mut app, 1);
    apply(&mut app, Event::NewMessage(raw(10, 1, 2, "abc")));
    app.render(40, 10);
    app.outgoing_queue.drain();
    app.handle_key(Key::Char('\t'));
    app.handle_key(Key::Char('v'));
    app.handle_key(Key::Char('e'));
    assert!(matches!(app.chat_list.chat_vec[0].compose, Compose::Editing { target: 10, .. }));
    app.handle_key(Key::Esc);
    app.handle_key(Key::Char('\t'));
    app.handle_key(Key::Char('i'));
    for _ in 0..3 {
        app.handle_key(Key::Backspace);
    }
    for ch in "hello".chars() {
        app.handle_key(Key::Char(ch));
    }
    app.handle_key(Key::Char('\n'));
    let v = app.outgoing_queue.drain();
    assert_eq!(v.len(), 1);
    assert!(matches!(&v[0], Request::EditMessage { chat_id: 1, message_id: 10, text } if text.iter().collect::<String>() == "hello"));
    assert!(matches!(app.chat_list.chat_vec[0].compose, Compose::Normal));
}

#[test]
fn new_chat_is_not_listed_twice() {
    let mut app = App::new();
    new_chat(&mut app, 1);
    new_chat(&mut app, 1);
    assert_eq!(app.chat_list.get_len(), 1);
}

#[test]
fn render_requests_history_for_selected_chat() {
    let mut app = App::new();
    new_chat(&mut app, 4);
    app.render(30, 10);
    let v = app.outgoing_queue.drain();
    assert!(matches!(&v[..], [Request::GetChatHistory { chat_id: 4, from_message_id: 0, limit: 20 }]));
}
