use tchat::chat::{ChatKind, Compose, Conversation, MsgAction, ScrollOp, NOT_RETRIEVING};
use tchat::message::{parse_msg, placeholder_text, Message, RawContent, RawMessage, WebPage};
use tchat::request::{OutgoingQueue, Request};
use tchat::users::{Presence, UserInfo, Users};
use tchat::viewport::{fit_window, keep_nonempty, message_lines, render_chat};

fn text_msg(id: i64, text: &str) -> Message {
    Message {
        id,
        chat_id: 7,
        sender_user_id: 1,
        date: id,
        text: Some(text.to_string()),
        reply_to_message_id: 0,
        can_be_edited: true,
    }
}

fn raw_text(id: i64, chat_id: i64, text: &str) -> RawMessage {
    RawMessage {
        id,
        date: 100 + id,
        chat_id,
        sender_user_id: 3,
        content: RawContent::Text { text: text.to_string(), web_page: None },
        decoded: true,
        reply_to_message_id: 0,
        can_be_edited: false,
    }
}

fn strings(v: &[&str]) -> Vec<String> {
    v.iter().map(|s| s.to_string()).collect()
}

fn ids(c: &Conversation) -> Vec<i64> {
    c.history.iter().map(|m| m.id).collect()
}

#[test]
fn first_render_of_empty_chat_requests_newest_history() {
    let mut c = Conversation::new(7, "chat".to_string(), ChatKind::Other);
    let users = Users::new();
    let mut q = OutgoingQueue::new();
    let shown = render_chat(&mut c, &users, &mut q, 40, 10);
    assert_eq!(shown.len(), 0);
    let reqs = q.drain();
    assert_eq!(reqs.len(), 1);
    match &reqs[0] {
        Request::GetChatHistory { chat_id, from_message_id, limit } => {
            assert_eq!(*chat_id, 7);
            assert_eq!(*from_message_id, 0);
            assert_eq!(*limit, 20);
        }
        _ => panic!("expected a history request"),
    }
    assert_eq!(c.retrieving, 0);
}

#[test]
fn second_render_does_not_repeat_request_in_flight() {
    let mut c = Conversation::new(7, "chat".to_string(), ChatKind::Other);
    let users = Users::new();
    let mut q = OutgoingQueue::new();
    render_chat(&mut c, &users, &mut q, 40, 10);
    render_chat(&mut c, &users, &mut q, 40, 10);
    render_chat(&mut c, &users, &mut q, 40, 10);
    assert_eq!(q.len(), 1);
}

#[test]
fn batch_answers_request_so_next_one_can_go() {
    let mut c = Conversation::new(7, "chat".to_string(), ChatKind::Other);
    let users = Users::new();
    let mut q = OutgoingQueue::new();
    render_chat(&mut c, &users, &mut q, 40, 10);
    c.append_batch(vec![text_msg(5, "a"), text_msg(4, "b")]);
    assert_eq!(c.retrieving, NOT_RETRIEVING);
    render_chat(&mut c, &users, &mut q, 40, 10);
    let reqs = q.drain();
    assert_eq!(reqs.len(), 2);
    match &reqs[1] {
        Request::GetChatHistory { from_message_id, .. } => assert_eq!(*from_message_id, 4),
        _ => panic!("expected a history request"),
    }
}

#[test]
fn duplicate_delivery_is_stored_once() {
    let mut c = Conversation::new(7, "chat".to_string(), ChatKind::Other);
    c.insert_newest(text_msg(42, "live"));
    c.append_batch(vec![text_msg(43, "x"), text_msg(42, "again"), text_msg(41, "y")]);
    assert_eq!(ids(&c), vec![42, 43, 41]);
    assert_eq!(c.history.iter().filter(|m| m.id == 42).count(), 1);
    c.insert_newest(text_msg(41, "late"));
    assert_eq!(ids(&c), vec![42, 43, 41]);
}

#[test]
fn empty_batch_ends_history_and_stops_backfill() {
    let mut c = Conversation::new(7, "chat".to_string(), ChatKind::Other);
    let users = Users::new();
    let mut q = OutgoingQueue::new();
    c.append_batch(Vec::new());
    assert!(c.end_of_history);
    render_chat(&mut c, &users, &mut q, 40, 10);
    assert_eq!(q.len(), 0);
    c.append_batch(vec![text_msg(1, "x")]);
    assert!(c.end_of_history);
    render_chat(&mut c, &users, &mut q, 40, 10);
    assert_eq!(q.len(), 0);
}

#[test]
fn oldest_id_is_zero_when_empty() {
    let mut c = Conversation::new(7, "chat".to_string(), ChatKind::Other);
    assert_eq!(c.get_oldest_id(), 0);
    c.append_batch(vec![text_msg(9, "a"), text_msg(3, "b")]);
    assert_eq!(c.get_oldest_id(), 3);
}

fn filled_chat(n: i64, onscreen: usize) -> Conversation {
    let mut c = Conversation::new(7, "chat".to_string(), ChatKind::Other);
    let mut v = Vec::new();
    for i in 0..n {
        v.push(text_msg(n - i, "m"));
    }
    c.append_batch(v);
    c.num_onscreen = onscreen;
    c
}

#[test]
fn scrolling_stays_within_history() {
    let mut c = filled_chat(10, 3);
    for _ in 0..20 {
        c.scroll_up();
    }
    assert_eq!(c.bottom_index, 7);
    for _ in 0..20 {
        c.page_up();
    }
    assert_eq!(c.bottom_index, 10);
    for _ in 0..30 {
        c.scroll_down();
    }
    assert_eq!(c.bottom_index, 0);
}

#[test]
fn page_down_snaps_to_newest_within_a_page() {
    let mut c = filled_chat(10, 3);
    c.page_up();
    c.page_up();
    assert_eq!(c.bottom_index, 6);
    c.page_down();
    assert_eq!(c.bottom_index, 3);
    c.scroll_up();
    assert_eq!(c.bottom_index, 4);
    c.scroll_down();
    assert_eq!(c.bottom_index, 3);
    c.scroll_down();
    assert_eq!(c.bottom_index, 0);
    c.page_up();
    c.page_down();
    assert_eq!(c.bottom_index, 0);
    c.scroll(ScrollOp::PageUp);
    c.go_to_bottom();
    assert_eq!(c.bottom_index, 0);
}

#[test]
fn page_up_is_capped_at_history_length() {
    let mut c = filled_chat(4, 3);
    c.page_up();
    assert_eq!(c.bottom_index, 3);
    c.page_up();
    assert_eq!(c.bottom_index, 4);
}

#[test]
fn edit_then_submit_sends_one_edit_request() {
    let mut c = filled_chat(3, 3);
    c.select_index = 1;
    c.select_msg(MsgAction::Edit);
    let target = c.history[1].id;
    assert!(matches!(c.compose, Compose::Editing { target: t, .. } if t == target));
    assert_eq!(c.input, vec!['m']);
    let mut q = OutgoingQueue::new();
    c.input.clear();
    for ch in "hello".chars() {
        c.input.push(ch);
    }
    c.send_message(&mut q);
    let reqs = q.drain();
    assert_eq!(reqs.len(), 1);
    match &reqs[0] {
        Request::EditMessage { chat_id, message_id, text } => {
            assert_eq!(*chat_id, 7);
            assert_eq!(*message_id, target);
            assert_eq!(text.iter().collect::<String>(), "hello");
        }
        _ => panic!("expected an edit"),
    }
    assert!(matches!(c.compose, Compose::Normal));
    assert!(c.input.is_empty());
}

#[test]
fn reply_sends_message_with_target() {
    let mut c = filled_chat(3, 3);
    c.select_index = 2;
    c.input = vec!['o', 'k'];
    c.select_msg(MsgAction::Reply);
    assert_eq!(c.input, vec!['o', 'k']);
    let mut q = OutgoingQueue::new();
    c.send_message(&mut q);
    match &q.drain()[0] {
        Request::SendMessage { reply_to_message_id, text, .. } => {
            assert_eq!(*reply_to_message_id, 1);
            assert_eq!(text.iter().collect::<String>(), "ok");
        }
        _ => panic!("expected a message"),
    }
}

#[test]
fn plain_submit_sends_message_without_target() {
    let mut c = filled_chat(1, 1);
    c.input = vec!['h', 'i'];
    let mut q = OutgoingQueue::new();
    c.send_message(&mut q);
    match &q.drain()[0] {
        Request::SendMessage { chat_id, reply_to_message_id, .. } => {
            assert_eq!(*chat_id, 7);
            assert_eq!(*reply_to_message_id, 0);
        }
        _ => panic!("expected a message"),
    }
}

#[test]
fn edit_of_uneditable_message_stays_normal() {
    let mut c = filled_chat(2, 2);
    c.history[0].can_be_edited = false;
    c.input = vec!['x'];
    c.select_msg(MsgAction::Edit);
    assert!(matches!(c.compose, Compose::Normal));
    assert_eq!(c.input, vec!['x']);
}

#[test]
fn moving_selection_abandons_edit() {
    let mut c = filled_chat(3, 3);
    c.select_msg(MsgAction::Edit);
    assert!(!c.input.is_empty());
    c.select_up();
    assert!(c.input.is_empty());
    assert!(matches!(c.compose, Compose::Normal));
    assert_eq!(c.select_index, 1);
    c.select_down();
    c.select_down();
    assert_eq!(c.select_index, 2);
}

#[test]
fn select_down_with_nothing_on_screen_stays_at_zero() {
    let mut c = Conversation::new(1, "c".to_string(), ChatKind::Other);
    c.select_down();
    assert_eq!(c.select_index, 0);
    assert!(c.get_selected_msg().is_none());
}

#[test]
fn sticker_payload_gets_placeholder() {
    let raw = RawMessage {
        id: 5,
        date: 77,
        chat_id: 9,
        sender_user_id: 4,
        content: RawContent::Sticker { emoji: "😀".to_string() },
        decoded: false,
        reply_to_message_id: 3,
        can_be_edited: true,
    };
    let m = parse_msg(raw, 12);
    assert_eq!(m.text.as_deref(), Some("[😀 Sticker]"));
    assert_eq!(m.id, 5);
    assert_eq!(m.date, 77);
    assert_eq!(m.chat_id, 12);
    assert_eq!(m.sender_user_id, 4);
    assert!(!m.can_be_edited);
    assert_eq!(m.reply_to_message_id, 0);
}

#[test]
fn link_preview_payload_joins_its_parts() {
    let c = RawContent::Text {
        text: "see".to_string(),
        web_page: Some(WebPage {
            site_name: "Site".to_string(),
            title: "Title".to_string(),
            description: "Desc".to_string(),
        }),
    };
    assert_eq!(placeholder_text(&c), "see\nSite\nTitle\nDesc");
}

#[test]
fn unknown_payload_gets_none_placeholder() {
    let raw = RawMessage {
        id: 8,
        date: 1,
        chat_id: 2,
        sender_user_id: 3,
        content: RawContent::Other { tag: "messagePoll".to_string() },
        decoded: false,
        reply_to_message_id: 0,
        can_be_edited: false,
    };
    let m = parse_msg(raw, 2);
    assert_eq!(m.text.as_deref(), Some("[none]"));
    let plain = RawContent::Text { text: "t".to_string(), web_page: None };
    assert_eq!(placeholder_text(&plain), "[none]");
}

#[test]
fn decoded_payload_keeps_its_fields() {
    let mut raw = raw_text(6, 2, "hi");
    raw.can_be_edited = true;
    raw.reply_to_message_id = 4;
    let m = parse_msg(raw, 99);
    assert_eq!(m.text.as_deref(), Some("hi"));
    assert_eq!(m.chat_id, 2);
    assert!(m.can_be_edited);
    assert_eq!(m.reply_to_message_id, 4);
    let mut sticker = raw_text(7, 2, "");
    sticker.content = RawContent::Sticker { emoji: "x".to_string() };
    assert_eq!(parse_msg(sticker, 2).text, None);
}

#[test]
fn wrapping_breaks_long_text() {
    let users = Users::new();
    let m = text_msg(1, "hello world again");
    let lines = message_lines(&m, &users, 14);
    assert!(lines.len() > 1);
    assert_eq!(lines.concat().replace(' ', ""), "UnknownUser:helloworldagain");
    for l in &lines {
        assert!(l.chars().count() <= 14);
    }
}

#[test]
fn empty_lines_are_dropped() {
    let v = strings(&["a", "", "b", ""]);
    assert_eq!(keep_nonempty(&v), strings(&["a", "b"]));
}

#[test]
fn window_keeps_newest_lines_of_last_message() {
    let msgs = vec![strings(&["a1", "a2"]), strings(&["b1", "b2", "b3"]), strings(&["c1"])];
    let w = fit_window(msgs, 4);
    assert_eq!(w, vec![strings(&["a1", "a2"]), strings(&["b2", "b3"])]);
}

#[test]
fn window_with_room_shows_everything() {
    let msgs = vec![strings(&["a"]), strings(&["b"])];
    assert_eq!(fit_window(msgs.clone(), 10), msgs);
    assert_eq!(fit_window(Vec::new(), 3), Vec::<Vec<String>>::new());
}

#[test]
fn render_counts_shown_messages() {
    let mut users = Users::new();
    users.upsert(UserInfo {
        id: 1,
        first_name: "Ann".to_string(),
        last_name: "Lee".to_string(),
        is_regular: true,
        status: Presence::Online,
    });
    let mut c = filled_chat(5, 0);
    let mut q = OutgoingQueue::new();
    let shown = render_chat(&mut c, &users, &mut q, 40, 3);
    assert_eq!(shown.len(), 3);
    assert_eq!(c.num_onscreen, 3);
    assert_eq!(shown[0].lines, strings(&["Ann: m"]));
    assert_eq!(shown[0].sender_chars, 3);
    assert_eq!(shown[0].sender_color, 0);
    assert!(shown[2].complete);
    assert_eq!(q.len(), 1);
}

#[test]
fn preview_wraps_to_width() {
    let lines = tchat::viewport::preview_lines(&"aaa bbb ccc".to_string(), 4);
    assert_eq!(lines, strings(&["aaa", "bbb", "ccc"]));
}

#[test]
fn ended_history_is_never_requested_again() {
    let mut c = Conversation::new(7, "chat".to_string(), ChatKind::Other);
    c.append_batch(Vec::new());
    let mut q = OutgoingQueue::new();
    c.retrieve_history(&mut q, 55, 20);
    assert_eq!(q.len(), 0);
    assert_eq!(c.retrieving, NOT_RETRIEVING);
}

#[test]
fn retrieve_history_records_cursor_before_queueing() {
    let mut c = Conversation::new(7, "chat".to_string(), ChatKind::Other);
    let mut q = OutgoingQueue::new();
    c.retrieve_history(&mut q, 55, 20);
    c.retrieve_history(&mut q, 55, 20);
    assert_eq!(q.len(), 1);
    assert_eq!(c.retrieving, 55);
}

#[test]
fn widest_box_wraps_without_fault() {
    let lines = tchat::viewport::preview_lines(&"a b c d".to_string(), tchat::viewport::MAX_WRAP_WIDTH);
    assert_eq!(lines, strings(&["a b c d"]));
}

#[test]
fn long_text_is_wrapped_piece_by_piece() {
    let word = "abcdefg ";
    let text: String = word.repeat(2500);
    let lines = tchat::viewport::preview_lines(&text, 80);
    let total: usize = lines.iter().map(|l| l.chars().filter(|c| *c != ' ').count()).sum();
    assert_eq!(total, 7 * 2500);
    for l in &lines {
        assert!(l.chars().count() <= 80);
    }
}
