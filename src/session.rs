use vstd::prelude::*;
use vstd::string::*;

use crate::chat::{
    ChatKind,
    Compose,
    Conversation,
    MsgAction,
    ScrollOp,
    is_submit,
    issues_backfill,
    oldest_id,
    scroll_step,
    select_down_index,
    select_up_index,
    selection_applied,
    selection_moved,
    wants_backfill,
    with_batch,
    with_newest,
};
use crate::handshake::{
    AuthState,
    Credentials,
    ErrorClass,
    HandshakeAction,
    classify_error,
    handshake_fatal,
    handshake_sends,
    handshake_step,
};
use crate::message::{Message, RawMessage, parse_msg, parsed};
use crate::registry::{ChatList, has_chat, is_by_activity, lemma_sort_keeps, list_down, list_up, sorted_by_activity};
use crate::request::OutgoingQueue;
use crate::users::{Participant, Presence, UserInfo, Users, online_regular};
use crate::viewport::{ShownMessage, lines_from, render_chat, shown_lines, total_height, window};

verus! {

/// How keys are read.
#[derive(Clone, Copy, PartialEq, Eq, Structural)]
pub enum InputMode {
    Normal,
    Insert,
    Visual,
}

/// The part of the screen that has the focus.
#[derive(Clone, Copy, PartialEq, Eq, Structural)]
pub enum Block {
    ChatList,
    CurrChat,
    Input,
}

/// A key press.
#[derive(Clone, Copy, PartialEq, Eq, Structural)]
pub enum Key {
    Char(char),
    Ctrl(char),
    Backspace,
    Esc,
    F(u8),
    Other,
}

/// What the input loop does after a key.
#[derive(Clone, Copy, PartialEq, Eq, Structural)]
pub enum KeyOutcome {
    /// Redraw the screen.
    Redraw,
    /// Nothing to redraw.
    Quiet,
    /// End the session.
    Exit,
}

/// A basic group and its members.
pub struct BasicGroup {
    pub id: i64,
    pub member_count: i64,
    pub member_ids: Vec<i64>,
}

/// A backend event with its payload read out.
pub enum Event {
    AuthorizationState(AuthState),
    User(UserInfo),
    UserStatus { user_id: i64, status: Presence },
    BasicGroup { id: i64, member_count: i64 },
    BasicGroupFullInfo { id: i64, member_ids: Vec<i64> },
    NewChat { id: i64, title: String, kind: ChatKind },
    ChatLastMessage { chat_id: i64, date: i64 },
    NewMessage(RawMessage),
    /// An answer to a history request for `chat_id`.
    Messages { chat_id: i64, messages: Vec<RawMessage> },
    Error { message: String },
    Me { id: i64 },
    Other,
}

/// What the network worker does after an event, besides sending the queue.
pub enum Effect {
    Nothing,
    /// Show a desktop notification.
    Notify { summary: String, body: String },
    /// Write this to the diagnostic log.
    Log(String),
    /// End the session with this message.
    Exit(String),
}

/// What the header of a conversation says of its counterpart.
#[derive(Clone, Copy, PartialEq, Eq, Structural)]
pub enum ChatStatus {
    Online,
    LastSeen { was_online: i64 },
    Group { members: i64, online: usize },
    Unknown,
}

/// The block that Tab moves the focus to.
pub open spec fn next_block(b: Block) -> Block {
    match b {
        Block::ChatList => Block::CurrChat,
        Block::CurrChat => Block::Input,
        Block::Input => Block::ChatList,
    }
}

/// The keys that normal mode takes for itself: F1, Tab, `i` and `v`.
pub open spec fn is_mode_key(k: Key) -> bool {
    k == Key::F(1) || k == Key::Char('\t') || k == Key::Char('i') || k == Key::Char('v')
}

/// The move that a key makes in a conversation in normal mode.
pub open spec fn normal_key_op(k: Key) -> Option<ScrollOp> {
    match k {
        Key::Char('j') => Some(ScrollOp::ScrollDown),
        Key::Char('k') => Some(ScrollOp::ScrollUp),
        Key::Char('G') => Some(ScrollOp::GoToBottom),
        Key::Ctrl('f') => Some(ScrollOp::PageDown),
        Key::Ctrl('b') => Some(ScrollOp::PageUp),
        _ => None,
    }
}

/// The window's bottom index after a run of keys in normal mode.
pub open spec fn normal_keys_run(bottom: nat, onscreen: nat, len: nat, keys: Seq<Key>) -> nat
    decreases keys.len(),
{
    if keys.len() == 0 {
        bottom
    } else {
        let next = match normal_key_op(keys[0]) {
            Some(op) => scroll_step(bottom, onscreen, len, op),
            None => bottom,
        };
        normal_keys_run(next, onscreen, len, keys.drop_first())
    }
}

/// No run of keys in normal mode takes the window's bottom index past the
/// stored history.
pub proof fn lemma_normal_keys_bounds(bottom: nat, onscreen: nat, len: nat, keys: Seq<Key>)
    requires
        bottom <= len,
    ensures
        normal_keys_run(bottom, onscreen, len, keys) <= len,
    decreases keys.len(),
{
    if keys.len() > 0 {
        let next = match normal_key_op(keys[0]) {
            Some(op) => {
                crate::chat::lemma_scroll_bounds(bottom, onscreen, len, seq![op]);
                assert(seq![op].drop_first() =~= Seq::<ScrollOp>::empty());
                scroll_step(bottom, onscreen, len, op)
            },
            None => bottom,
        };
        lemma_normal_keys_bounds(next, onscreen, len, keys.drop_first());
    }
}

/// The number of ids of participants online with a regular account.
pub open spec fn count_online(ids: Seq<i64>, users: Seq<Participant>) -> nat
    decreases ids.len(),
{
    if ids.len() == 0 {
        0
    } else {
        count_online(ids.drop_last(), users) + if online_regular(users, ids.last()) {
            1nat
        } else {
            0nat
        }
    }
}

/// The name under which a notification shows a sender.
pub open spec fn full_name(users: Seq<Participant>, id: i64) -> Seq<char> {
    if crate::users::has_user(users, id) {
        let p = users[choose|i: int| 0 <= i < users.len() && users[i].info.id == id];
        p.info.first_name@ + " "@ + p.info.last_name@
    } else {
        "Unknown User"@
    }
}


/// The selected conversation is the same one before and after, or the
/// index is kept where it pointed at none.
pub open spec fn selection_kept(before: ChatList, after: ChatList) -> bool {
    if before.selected_index < before.chat_vec@.len() {
        &&& after.selected_index < after.chat_vec@.len()
        &&& after.chat_vec@[after.selected_index as int].id == before.chat_vec@[before.selected_index as int].id
    } else {
        after.selected_index == before.selected_index
    }
}

/// Whether this conversation is in the list.
pub open spec fn listed(s: Seq<Conversation>, c: Conversation) -> bool {
    exists|j: int| 0 <= j < s.len() && s[j] == c
}

/// Whether a basic group with this id is known.
pub open spec fn has_group(gs: Seq<BasicGroup>, id: i64) -> bool {
    exists|i: int| 0 <= i < gs.len() && gs[i].id == id
}

/// The position of the first basic group with this id.
pub open spec fn group_index(gs: Seq<BasicGroup>, id: i64) -> int {
    choose|i: int| 0 <= i < gs.len() && gs[i].id == id && forall|j: int| 0 <= j < i ==> gs[j].id != id
}

/// What a conversation's header says, from what is known of participants
/// and groups.
pub open spec fn status_of(kind: ChatKind, users: Seq<Participant>, gs: Seq<BasicGroup>) -> ChatStatus {
    match kind {
        ChatKind::Private { user_id } => if crate::users::has_user(users, user_id) {
            match users[choose|i: int| 0 <= i < users.len() && users[i].info.id == user_id].info.status {
                Presence::Online => ChatStatus::Online,
                Presence::Offline { was_online } => ChatStatus::LastSeen { was_online },
                Presence::Unknown => ChatStatus::Unknown,
            }
        } else {
            ChatStatus::Unknown
        },
        ChatKind::BasicGroup { group_id } => if has_group(gs, group_id) {
            let g = gs[group_index(gs, group_id)];
            ChatStatus::Group {
                members: g.member_count,
                online: count_online(g.member_ids@, users) as usize,
            }
        } else {
            ChatStatus::Unknown
        },
        ChatKind::Other => ChatStatus::Unknown,
    }
}

/// The position of the first conversation with this id.
pub open spec fn chat_index(s: Seq<Conversation>, id: i64) -> int {
    choose|i: int| 0 <= i < s.len() && s[i].id == id && forall|j: int| 0 <= j < i ==> s[j].id != id
}

/// Messages parsed from payloads, one for one.
pub open spec fn parsed_all(ms: Seq<Message>, raws: Seq<RawMessage>, chat_id: i64) -> bool {
    &&& ms.len() == raws.len()
    &&& forall|k: int| 0 <= k < ms.len() ==> (#[trigger] ms[k])@ == parsed(raws[k], chat_id)
}

/// Parses every payload of a batch.
pub fn parse_all(raws: Vec<RawMessage>, chat_id: i64) -> (r: Vec<Message>)
    ensures
        parsed_all(r@, raws@, chat_id),
{
    let ghost orig = raws@;
    let mut rest = raws;
    let mut out: Vec<Message> = Vec::new();
    while rest.len() > 0
        invariant
            out@.len() + rest@.len() == orig.len(),
            rest@ == orig.skip(out@.len() as int),
            forall|k: int| 0 <= k < out@.len() ==> (#[trigger] out@[k])@ == parsed(orig[k], chat_id),
        decreases rest@.len(),
    {
        let ghost r0 = rest@;
        let raw = rest.remove(0);
        assert(raw == orig[out@.len() as int]);
        let m = parse_msg(raw, chat_id);
        out.push(m);
        assert(rest@ =~= orig.skip(out@.len() as int));
    }
    out
}


/// The groups after a group's member count is reported: set on the known
/// group, or a new group without members is added.
pub open spec fn group_count_set(before: Seq<BasicGroup>, after: Seq<BasicGroup>, id: i64, count: i64) -> bool {
    if has_group(before, id) {
        let g = group_index(before, id);
        after == before.update(g, BasicGroup { member_count: count, ..before[g] })
    } else {
        &&& after.len() == before.len() + 1
        &&& after.drop_last() == before
        &&& after.last().id == id && after.last().member_count == count
        &&& after.last().member_ids@.len() == 0
    }
}

/// The groups after a group's members are reported: set on the known group;
/// an unknown group is ignored.
pub open spec fn group_members_set(before: Seq<BasicGroup>, after: Seq<BasicGroup>, id: i64, ids: Seq<i64>) -> bool {
    if has_group(before, id) {
        let g = group_index(before, id);
        &&& after.len() == before.len()
        &&& after[g].member_ids@ == ids
        &&& after == before.update(g, BasicGroup { member_ids: after[g].member_ids, ..before[g] })
    } else {
        after == before
    }
}

/// The conversation after a key in visual mode: `j` and `k` move the
/// selection, `r` and `e` start a reply or an edit of the selected message,
/// any other key changes nothing.
pub open spec fn visual_applied(c: Conversation, f: Conversation, key: Key) -> bool {
    if key == Key::Char('j') {
        selection_moved(c, f, select_down_index(c.select_index as nat, c.num_onscreen as nat))
    } else if key == Key::Char('k') {
        selection_moved(c, f, select_up_index(c.select_index as nat, c.num_onscreen as nat))
    } else if key == Key::Char('r') {
        selection_applied(c, f, MsgAction::Reply)
    } else if key == Key::Char('e') {
        selection_applied(c, f, MsgAction::Edit)
    } else {
        f == c
    }
}

/// The conversation after a live message `m` arrived in `c`: stored at the
/// newest end, last activity raised to its date, nothing else changed.
pub open spec fn new_message_in(after: Conversation, c: Conversation, m: Message) -> bool {
    &&& after.history@ == with_newest(c.history@, m)
    &&& after.last_msg_date == if m.date > c.last_msg_date {
        m.date
    } else {
        c.last_msg_date
    }
    &&& after == (Conversation {
        history: after.history,
        last_msg_date: after.last_msg_date,
        ..c
    })
}

/// The text a notification shows for a message.
pub open spec fn notified_text(m: crate::message::MessageView) -> Seq<char> {
    match m.text {
        Some(t) => t,
        None => "[none]"@,
    }
}

/// What a live message does to the state. For a listed conversation: the
/// message is stored once, the list is sorted by activity with the selection
/// kept, and someone else's message gives a notification. For another one:
/// nothing changes and the event is logged.
pub open spec fn new_message_applied(before: App, after: App, raw: RawMessage, r: Effect) -> bool {
    let l = before.chat_list.chat_vec@;
    if has_chat(l, raw.chat_id) {
        let c = l[chat_index(l, raw.chat_id)];
        &&& after.chat_list.chat_vec@.len() == l.len()
        &&& exists|j: int, m: Message|
            0 <= j < after.chat_list.chat_vec@.len() && m@ == parsed(raw, raw.chat_id)
                && #[trigger] new_message_in(after.chat_list.chat_vec@[j], c, m)
        &&& is_by_activity(after.chat_list.chat_vec@)
        &&& selection_kept(before.chat_list, after.chat_list)
        &&& (before.me_id > 0 && before.me_id != raw.sender_user_id) ==> {
            &&& r is Notify
            &&& r->Notify_summary@ == full_name(before.users@, raw.sender_user_id)
            &&& r->Notify_body@ == notified_text(parsed(raw, raw.chat_id))
        }
        &&& !(before.me_id > 0 && before.me_id != raw.sender_user_id) ==> r is Nothing
    } else {
        after.chat_list == before.chat_list && r is Log
    }
}

/// What a history batch does to the state: for a listed conversation, its
/// messages are stored at the oldest end, an empty batch ends its history, a
/// non-empty one clears the request in flight, and no other conversation
/// changes. For another one, nothing changes.
pub open spec fn batch_applied(before: App, after: App, chat_id: i64, messages: Seq<RawMessage>) -> bool {
    let l = before.chat_list.chat_vec@;
    if has_chat(l, chat_id) {
        let i = chat_index(l, chat_id);
        let c = after.chat_list.chat_vec@[i];
        &&& after.chat_list.chat_vec@.len() == l.len()
        &&& after.chat_list.selected_index == before.chat_list.selected_index
        &&& forall|k: int| 0 <= k < l.len() && k != i ==> #[trigger] after.chat_list.chat_vec@[k] == l[k]
        &&& exists|ms: Seq<Message>|
            parsed_all(ms, messages, chat_id) && c.history@ == with_batch(l[i].history@, ms)
        &&& c.end_of_history == (l[i].end_of_history || messages.len() == 0)
        &&& c.retrieving == if messages.len() == 0 {
            l[i].retrieving
        } else {
            crate::chat::NOT_RETRIEVING
        }
        &&& c == (Conversation {
            history: c.history,
            end_of_history: c.end_of_history,
            retrieving: c.retrieving,
            ..l[i]
        })
    } else {
        after.chat_list == before.chat_list
    }
}

/// What a new conversation does to the state: listed at the end unless one
/// with its id is listed already.
pub open spec fn new_chat_applied(before: App, after: App, id: i64, title: String, kind: ChatKind) -> bool {
    if has_chat(before.chat_list.chat_vec@, id) {
        after.chat_list == before.chat_list
    } else {
        let c = after.chat_list.chat_vec@.last();
        &&& after.chat_list.chat_vec@.len() == before.chat_list.chat_vec@.len() + 1
        &&& after.chat_list.chat_vec@.drop_last() == before.chat_list.chat_vec@
        &&& c.id == id && c.title == title && c.kind == kind
        &&& c.history@.len() == 0 && !c.end_of_history
        &&& after.chat_list.selected_index == before.chat_list.selected_index
    }
}

/// What a change of last activity does to the state: recorded on the listed
/// conversation, the list sorted with the selection kept; nothing for an
/// unlisted one.
pub open spec fn last_message_applied(before: App, after: App, chat_id: i64, date: i64) -> bool {
    let l = before.chat_list.chat_vec@;
    if has_chat(l, chat_id) {
        let c = l[chat_index(l, chat_id)];
        &&& after.chat_list.chat_vec@.len() == l.len()
        &&& exists|j: int|
            0 <= j < after.chat_list.chat_vec@.len() && #[trigger] after.chat_list.chat_vec@[j]
                == (Conversation { last_msg_date: date, ..c })
        &&& is_by_activity(after.chat_list.chat_vec@)
        &&& selection_kept(before.chat_list, after.chat_list)
    } else {
        after.chat_list == before.chat_list
    }
}

impl Conversation {
    /// A key in normal mode: `j` and `k` scroll, `G` goes to the newest
    /// message, Ctrl-f and Ctrl-b page.
    pub fn handle_input_normal(&mut self, key: Key)
        requires
            old(self).wf(),
        ensures
            final(self).wf(),
            final(self).bottom_index as nat == match normal_key_op(key) {
                Some(op) => scroll_step(
                    old(self).bottom_index as nat,
                    old(self).num_onscreen as nat,
                    old(self).history@.len(),
                    op,
                ),
                None => old(self).bottom_index as nat,
            },
            *final(self) == (Conversation { bottom_index: final(self).bottom_index, ..*old(self) }),
            normal_key_op(key) is None ==> *final(self) == *old(self),
    {
        match key {
            Key::Char('j') => self.scroll(ScrollOp::ScrollDown),
            Key::Char('k') => self.scroll(ScrollOp::ScrollUp),
            Key::Char('G') => self.scroll(ScrollOp::GoToBottom),
            Key::Ctrl('f') => self.scroll(ScrollOp::PageDown),
            Key::Ctrl('b') => self.scroll(ScrollOp::PageUp),
            _ => {},
        }
    }

    /// A key in visual mode: `j` and `k` move the selection, `r` starts a
    /// reply and `e` an edit of the selected message.
    pub fn handle_input_visual(&mut self, key: Key)
        requires
            old(self).wf(),
        ensures
            final(self).wf(),
            visual_applied(*old(self), *final(self), key),
    {
        match key {
            Key::Char('j') => self.select_down(),
            Key::Char('k') => self.select_up(),
            Key::Char('r') => self.select_msg(MsgAction::Reply),
            Key::Char('e') => self.select_msg(MsgAction::Edit),
            _ => {},
        }
    }

    /// A key in insert mode: Enter submits the buffer, a character is added
    /// to it and Backspace takes the last one off.
    pub fn handle_input_insert(&mut self, queue: &mut OutgoingQueue, key: Key)
        requires
            old(self).wf(),
        ensures
            final(self).wf(),
            key != Key::Char('\n') ==> *final(self) == (Conversation { input: final(self).input, ..*old(self) }),
            !(key is Char) && !(key is Backspace) ==> *final(self) == *old(self),
            key == Key::Char('\n') ==> {
                &&& final(queue)@.len() == old(queue)@.len() + 1
                &&& final(queue)@.take(old(queue)@.len() as int) == old(queue)@
                &&& is_submit(final(queue)@.last(), old(self).id, old(self).compose, old(self).input@)
                &&& final(self).input@ == Seq::<char>::empty()
                &&& final(self).compose is Normal
            },
            key != Key::Char('\n') ==> final(queue)@ == old(queue)@,
            (key is Char && key != Key::Char('\n')) ==> final(self).input@ == old(self).input@.push(
                key->Char_0,
            ),
            key is Backspace ==> final(self).input@ == if old(self).input@.len() == 0 {
                old(self).input@
            } else {
                old(self).input@.drop_last()
            },
            final(self).history@ == old(self).history@,
            final(self).bottom_index == old(self).bottom_index,
            final(self).id == old(self).id,
    {
        match key {
            Key::Char('\n') => {
                self.send_message(queue);
            },
            Key::Char(c) => {
                self.input.push(c);
            },
            Key::Backspace => {
                let _ = self.input.pop();
            },
            _ => {},
        }
    }
}

/// The whole state of a session.
pub struct App {
    pub curr_mode: InputMode,
    pub selected_block: Block,
    pub outgoing_queue: OutgoingQueue,
    pub users: Users,
    pub basic_groups: Vec<BasicGroup>,
    pub chat_list: ChatList,
    /// The local user's id, or 0 while unknown.
    pub me_id: i64,
}

impl App {
    pub open spec fn wf(&self) -> bool {
        self.users.wf() && self.chat_list.wf()
    }

    pub fn new() -> (a: App)
        ensures
            a.wf(),
            a.curr_mode == InputMode::Normal,
            a.selected_block == Block::ChatList,
            a.outgoing_queue@.len() == 0,
            a.users@.len() == 0,
            a.chat_list.chat_vec@.len() == 0,
            a.me_id == 0,
    {
        App {
            curr_mode: InputMode::Normal,
            selected_block: Block::ChatList,
            outgoing_queue: OutgoingQueue::new(),
            users: Users::new(),
            basic_groups: Vec::new(),
            chat_list: ChatList::new(),
            me_id: 0,
        }
    }

    pub fn set_selected_block(&mut self, b: Block)
        ensures
            final(self).selected_block == b,
            final(self).curr_mode == old(self).curr_mode,
            final(self).chat_list == old(self).chat_list,
    {
        self.selected_block = b;
    }

    pub fn selected_block(&self) -> (b: Block)
        ensures
            b == self.selected_block,
    {
        self.selected_block
    }

    pub fn set_curr_mode(&mut self, m: InputMode)
        ensures
            final(self).curr_mode == m,
            final(self).selected_block == old(self).selected_block,
            final(self).chat_list == old(self).chat_list,
    {
        self.curr_mode = m;
    }

    pub fn curr_mode(&self) -> (m: InputMode)
        ensures
            m == self.curr_mode,
    {
        self.curr_mode
    }

    /// Routes a key by mode and focus. Escape returns to normal mode. In
    /// normal mode F1 ends the session, Tab moves the focus, `i` and `v` enter
    /// insert and visual mode, and other keys go to the focused block. In
    /// insert mode keys go to the input of the selected conversation, in
    /// visual mode to its selection.
    pub fn handle_key(&mut self, key: Key) -> (r: KeyOutcome)
        requires
            old(self).wf(),
        ensures
            final(self).wf(),
            *final(self) == (App {
                chat_list: final(self).chat_list,
                outgoing_queue: final(self).outgoing_queue,
                curr_mode: final(self).curr_mode,
                selected_block: final(self).selected_block,
                ..*old(self)
            }),
            !(key == Key::Char('\n') && old(self).curr_mode == InputMode::Insert
                && old(self).selected_block == Block::Input) ==> final(self).outgoing_queue@
                == old(self).outgoing_queue@,
            forall|k: int|
                0 <= k < old(self).chat_list.chat_vec@.len() && k
                    != old(self).chat_list.selected_index ==> #[trigger] final(self).chat_list.chat_vec@[k]
                    == old(self).chat_list.chat_vec@[k],
            !(key != Key::Esc && old(self).curr_mode == InputMode::Normal && !is_mode_key(key)
                && old(self).selected_block == Block::ChatList) ==> final(self).chat_list.selected_index
                == old(self).chat_list.selected_index,
            (key == Key::Esc || (old(self).curr_mode == InputMode::Normal && is_mode_key(key)
                && key != Key::Char('v'))) ==> final(self).chat_list == old(self).chat_list,
            (key != Key::Esc && old(self).curr_mode == InputMode::Normal && !is_mode_key(key)
                && old(self).selected_block != Block::CurrChat) ==> final(self).chat_list.chat_vec@
                == old(self).chat_list.chat_vec@,
            (key != Key::Esc && old(self).curr_mode == InputMode::Insert && old(self).selected_block
                != Block::Input) ==> final(self).chat_list == old(self).chat_list,
            (key != Key::Esc && old(self).curr_mode == InputMode::Visual && old(self).selected_block
                != Block::CurrChat) ==> final(self).chat_list == old(self).chat_list,
            ({
                let sel = old(self).chat_list.selected_index as int;
                let n = old(self).chat_list.chat_vec@.len();
                let c = old(self).chat_list.chat_vec@[sel];
                let f = final(self).chat_list.chat_vec@[sel];
                &&& (key == Key::Char('v') && old(self).curr_mode == InputMode::Normal && sel < n)
                    ==> f == (Conversation { select_index: 0, ..c })
                &&& (key != Key::Esc && old(self).curr_mode == InputMode::Normal && !is_mode_key(key)
                    && old(self).selected_block == Block::CurrChat && sel < n) ==> f == (Conversation {
                    bottom_index: f.bottom_index,
                    ..c
                })
                &&& (key != Key::Esc && key != Key::Char('\n') && old(self).curr_mode
                    == InputMode::Insert && old(self).selected_block == Block::Input && sel < n)
                    ==> f == (Conversation { input: f.input, ..c })
            }),
            key == Key::Esc ==> r == KeyOutcome::Quiet && final(self).curr_mode
                == InputMode::Normal,
            key != Key::Esc && old(self).curr_mode == InputMode::Normal && key == Key::F(1) ==> r
                == KeyOutcome::Exit,
            key != Key::Esc && !(old(self).curr_mode == InputMode::Normal && key == Key::F(1)) ==> r
                == KeyOutcome::Redraw,
            key != Key::Esc && old(self).curr_mode == InputMode::Normal ==> {
                &&& key == Key::Char('\t') ==> final(self).selected_block == next_block(
                    old(self).selected_block,
                )
                &&& key == Key::Char('i') ==> final(self).curr_mode == InputMode::Insert
                &&& key == Key::Char('v') ==> final(self).curr_mode == InputMode::Visual
            },
            !(key != Key::Esc && old(self).curr_mode == InputMode::Normal && (key == Key::Char('i')
                || key == Key::Char('v'))) && key != Key::Esc ==> final(self).curr_mode == old(self).curr_mode,
            key != Key::Char('\t') ==> final(self).selected_block == old(self).selected_block,
            final(self).chat_list.chat_vec@.len() == old(self).chat_list.chat_vec@.len(),
            ({
                let sel = old(self).chat_list.selected_index;
                let n = old(self).chat_list.chat_vec@.len();
                let normal = key != Key::Esc && old(self).curr_mode == InputMode::Normal
                    && !is_mode_key(key);
                &&& (normal && old(self).selected_block == Block::ChatList && key == Key::Char('j'))
                    ==> final(self).chat_list.selected_index as nat == list_down(sel as nat, n)
                &&& (normal && old(self).selected_block == Block::ChatList && key == Key::Char('k'))
                    ==> final(self).chat_list.selected_index as nat == list_up(sel as nat, n)
                &&& (normal && old(self).selected_block == Block::CurrChat && sel < n) ==> final(self).chat_list.chat_vec@[sel as int].bottom_index as nat == match normal_key_op(key) {
                    Some(op) => scroll_step(
                        old(self).chat_list.chat_vec@[sel as int].bottom_index as nat,
                        old(self).chat_list.chat_vec@[sel as int].num_onscreen as nat,
                        old(self).chat_list.chat_vec@[sel as int].history@.len(),
                        op,
                    ),
                    None => old(self).chat_list.chat_vec@[sel as int].bottom_index as nat,
                }
                &&& (key == Key::Char('\n') && old(self).curr_mode == InputMode::Insert && old(self).selected_block == Block::Input && sel < n) ==> {
                    let c = old(self).chat_list.chat_vec@[sel as int];
                    &&& final(self).outgoing_queue@.len() == old(self).outgoing_queue@.len() + 1
                    &&& final(self).outgoing_queue@.take(old(self).outgoing_queue@.len() as int)
                        == old(self).outgoing_queue@
                    &&& is_submit(final(self).outgoing_queue@.last(), c.id, c.compose, c.input@)
                    &&& final(self).chat_list.chat_vec@[sel as int].input@ == Seq::<char>::empty()
                    &&& final(self).chat_list.chat_vec@[sel as int].compose is Normal
                }
                &&& (key is Char && key != Key::Char('\n') && old(self).curr_mode == InputMode::Insert
                    && old(self).selected_block == Block::Input && sel < n) ==> final(self).chat_list.chat_vec@[sel as int].input@ == old(self).chat_list.chat_vec@[sel as int].input@.push(key->Char_0)
                &&& (key != Key::Esc && old(self).curr_mode == InputMode::Visual
                    && old(self).selected_block == Block::CurrChat && sel < n) ==> visual_applied(
                    old(self).chat_list.chat_vec@[sel as int],
                    final(self).chat_list.chat_vec@[sel as int],
                    key,
                )
                &&& (key == Key::Char('v') && old(self).curr_mode == InputMode::Normal && sel < n)
                    ==> final(self).chat_list.chat_vec@[sel as int].select_index == 0
            }),
    {
        if key == Key::Esc {
            self.curr_mode = InputMode::Normal;
            return KeyOutcome::Quiet;
        }
        let sel = self.chat_list.selected_index;
        let has_sel = sel < self.chat_list.chat_vec.len();
        match self.curr_mode {
            InputMode::Normal => {
                if key == Key::F(1) {
                    return KeyOutcome::Exit;
                }
                if key == Key::Char('\t') {
                    self.selected_block = match self.selected_block {
                        Block::ChatList => Block::CurrChat,
                        Block::CurrChat => Block::Input,
                        Block::Input => Block::ChatList,
                    };
                } else if key == Key::Char('i') {
                    self.curr_mode = InputMode::Insert;
                } else if key == Key::Char('v') {
                    self.curr_mode = InputMode::Visual;
                    if has_sel {
                        self.chat_list.chat_vec[sel].select_index = 0;
                    }
                } else {
                    match self.selected_block {
                        Block::ChatList => {
                            if key == Key::Char('j') {
                                self.chat_list.scroll_down();
                            } else if key == Key::Char('k') {
                                self.chat_list.scroll_up();
                            }
                        },
                        Block::CurrChat => {
                            if has_sel {
                                self.chat_list.chat_vec[sel].handle_input_normal(key);
                            }
                        },
                        Block::Input => {},
                    }
                }
            },
            InputMode::Insert => {
                if self.selected_block == Block::Input && has_sel {
                    self.chat_list.chat_vec[sel].handle_input_insert(&mut self.outgoing_queue, key);
                }
            },
            InputMode::Visual => {
                if self.selected_block == Block::CurrChat && has_sel {
                    self.chat_list.chat_vec[sel].handle_input_visual(key);
                }
            },
        }
        KeyOutcome::Redraw
    }

    /// The name under which notifications show a sender: first and last
    /// name, or "Unknown User".
    pub fn full_name_of(&self, id: i64) -> (r: String)
        requires
            self.wf(),
        ensures
            r@ == full_name(self.users@, id),
    {
        match self.users.get(id) {
            Some(p) => {
                let r = p.info.first_name.clone();
                let r = r.concat(" ");
                r.concat(p.info.last_name.as_str())
            },
            None => String::from_str("Unknown User"),
        }
    }

    /// The position of the basic group with this id.
    fn find_group(&self, id: i64) -> (r: Option<usize>)
        ensures
            match r {
                Some(i) => i < self.basic_groups@.len() && self.basic_groups@[i as int].id == id
                    && has_group(self.basic_groups@, id) && i == group_index(self.basic_groups@, id),
                None => !has_group(self.basic_groups@, id),
            },
    {
        let mut i: usize = 0;
        while i < self.basic_groups.len()
            invariant
                i <= self.basic_groups@.len(),
                forall|j: int| 0 <= j < i ==> self.basic_groups@[j].id != id,
            decreases self.basic_groups@.len() - i,
        {
            if self.basic_groups[i].id == id {
                proof {
                    let g = group_index(self.basic_groups@, id);
                    assert(g == i as int) by {
                        if g < i {
                        } else if g > i {
                        }
                    }
                }
                return Some(i);
            }
            i = i + 1;
        }
        None
    }

    /// Counts the members that are online with a regular account.
    pub fn count_online_members(&self, ids: &Vec<i64>) -> (n: usize)
        requires
            self.wf(),
        ensures
            n == count_online(ids@, self.users@),
    {
        let mut n: usize = 0;
        let mut i: usize = 0;
        while i < ids.len()
            invariant
                i <= ids@.len(),
                n == count_online(ids@.take(i as int), self.users@),
                n <= i,
                self.wf(),
            decreases ids@.len() - i,
        {
            let ghost t = ids@.take(i + 1);
            assert(t.drop_last() =~= ids@.take(i as int));
            match self.users.get(ids[i]) {
                Some(p) => {
                    if p.info.status == Presence::Online && p.info.is_regular {
                        n = n + 1;
                    } else {
                        assert(!online_regular(self.users@, ids@[i as int])) by {
                            if online_regular(self.users@, ids@[i as int]) {
                                let j = choose|j: int|
                                    0 <= j < self.users@.len() && self.users@[j].info.id == ids@[i as int]
                                        && self.users@[j].info.status == Presence::Online
                                        && self.users@[j].info.is_regular;
                                let c = choose|c: int|
                                    0 <= c < self.users@.len() && self.users@[c].info.id == ids@[i as int];
                                assert(j == c);
                            }
                        }
                    }
                },
                None => {},
            }
            i = i + 1;
        }
        assert(ids@.take(i as int) =~= ids@);
        n
    }

    /// What the header of the selected conversation says of its counterpart:
    /// the presence of the other participant of a private chat, or the size
    /// of a basic group and how many of its members are online.
    pub fn chat_status(&self) -> (r: ChatStatus)
        requires
            self.wf(),
        ensures
            self.chat_list.selected_index >= self.chat_list.chat_vec@.len() ==> r
                == ChatStatus::Unknown,
            self.chat_list.selected_index < self.chat_list.chat_vec@.len() ==> r == status_of(
                self.chat_list.chat_vec@[self.chat_list.selected_index as int].kind,
                self.users@,
                self.basic_groups@,
            ),
    {
        let sel = self.chat_list.selected_index;
        if sel >= self.chat_list.chat_vec.len() {
            return ChatStatus::Unknown;
        }
        match self.chat_list.chat_vec[sel].kind {
            ChatKind::Private { user_id } => match self.users.get(user_id) {
                Some(p) => match p.info.status {
                    Presence::Online => ChatStatus::Online,
                    Presence::Offline { was_online } => ChatStatus::LastSeen { was_online },
                    Presence::Unknown => ChatStatus::Unknown,
                },
                None => ChatStatus::Unknown,
            },
            ChatKind::BasicGroup { group_id } => match self.find_group(group_id) {
                Some(g) => {
                    let online = self.count_online_members(&self.basic_groups[g].member_ids);
                    ChatStatus::Group { members: self.basic_groups[g].member_count, online }
                },
                None => ChatStatus::Unknown,
            },
            ChatKind::Other => ChatStatus::Unknown,
        }
    }

    /// Redraws the selected conversation in a box of `width` by `height`, see
    /// `render_chat`; `None` when no conversation is selected.
    pub fn render(&mut self, width: u16, height: u16) -> (r: Option<Vec<ShownMessage>>)
        requires
            old(self).wf(),
            width <= crate::viewport::MAX_WRAP_WIDTH,
        ensures
            final(self).wf(),
            final(self).users == old(self).users,
            final(self).basic_groups@ == old(self).basic_groups@,
            final(self).me_id == old(self).me_id,
            final(self).curr_mode == old(self).curr_mode,
            final(self).selected_block == old(self).selected_block,
            forall|k: int|
                0 <= k < old(self).chat_list.chat_vec@.len() && k != old(self).chat_list.selected_index
                    ==> #[trigger] final(self).chat_list.chat_vec@[k] == old(self).chat_list.chat_vec@[k],
            r is None ==> final(self).chat_list == old(self).chat_list && final(self).outgoing_queue@
                == old(self).outgoing_queue@,
            r is Some ==> {
                let c = old(self).chat_list.chat_vec@[old(self).chat_list.selected_index as int];
                let f = final(self).chat_list.chat_vec@[old(self).chat_list.selected_index as int];
                f == (Conversation { num_onscreen: r->0@.len() as usize, retrieving: f.retrieving, ..c })
            },
            r is None <==> old(self).chat_list.selected_index >= old(self).chat_list.chat_vec@.len(),
            r is Some ==> {
                let c = old(self).chat_list.chat_vec@[old(self).chat_list.selected_index as int];
                let f = final(self).chat_list.chat_vec@[old(self).chat_list.selected_index as int];
                &&& shown_lines(r->0@) == window(
                    lines_from(c.history@, c.bottom_index as int, old(self).users@, width as nat),
                    height as nat,
                )
                &&& f.num_onscreen == r->0@.len()
                &&& f.history@ == c.history@
                &&& f.bottom_index == c.bottom_index
                &&& f.end_of_history == c.end_of_history
                &&& wants_backfill(
                    c.end_of_history,
                    total_height(shown_lines(r->0@)),
                    height as nat,
                    c.bottom_index as nat,
                    r->0@.len() as nat,
                    c.history@.len(),
                ) ==> f.retrieving == oldest_id(c.history@)
                &&& !wants_backfill(
                    c.end_of_history,
                    total_height(shown_lines(r->0@)),
                    height as nat,
                    c.bottom_index as nat,
                    r->0@.len() as nat,
                    c.history@.len(),
                ) ==> f.retrieving == c.retrieving
                &&& (wants_backfill(
                    c.end_of_history,
                    total_height(shown_lines(r->0@)),
                    height as nat,
                    c.bottom_index as nat,
                    r->0@.len() as nat,
                    c.history@.len(),
                ) && issues_backfill(c.retrieving, oldest_id(c.history@))) ==> final(self).outgoing_queue@ == old(self).outgoing_queue@.push(
                    crate::request::Request::GetChatHistory {
                        chat_id: c.id,
                        from_message_id: oldest_id(c.history@),
                        limit: crate::chat::backfill_limit(r->0@.len() as nat, height as nat) as i64,
                    },
                )
                &&& !(wants_backfill(
                    c.end_of_history,
                    total_height(shown_lines(r->0@)),
                    height as nat,
                    c.bottom_index as nat,
                    r->0@.len() as nat,
                    c.history@.len(),
                ) && issues_backfill(c.retrieving, oldest_id(c.history@))) ==> final(self).outgoing_queue@ == old(self).outgoing_queue@
            },
            final(self).chat_list.chat_vec@.len() == old(self).chat_list.chat_vec@.len(),
            final(self).chat_list.selected_index == old(self).chat_list.selected_index,
    {
        let sel = self.chat_list.selected_index;
        if sel >= self.chat_list.chat_vec.len() {
            return None;
        }
        let r = render_chat(
            &mut self.chat_list.chat_vec[sel],
            &self.users,
            &mut self.outgoing_queue,
            width,
            height,
        );
        proof {
            assert forall|i: int| 0 <= i < self.chat_list.chat_vec@.len() implies (#[trigger] self.chat_list.chat_vec@[i]).wf() by {
                if i != sel {
                    assert(self.chat_list.chat_vec@[i] == old(self).chat_list.chat_vec@[i]);
                }
            }
        }
        Some(r)
    }

    /// Sorts the chat list after a conversation changed, keeping track of it.
    fn resort(&mut self)
        requires
            old(self).wf(),
        ensures
            final(self).wf(),
            *final(self) == (App { chat_list: final(self).chat_list, ..*old(self) }),
            final(self).users == old(self).users,
            final(self).outgoing_queue == old(self).outgoing_queue,
            final(self).me_id == old(self).me_id,
            final(self).chat_list.chat_vec@.len() == old(self).chat_list.chat_vec@.len(),
            forall|i: int|
                0 <= i < old(self).chat_list.chat_vec@.len() ==> listed(
                    final(self).chat_list.chat_vec@,
                    #[trigger] old(self).chat_list.chat_vec@[i],
                ),
            final(self).basic_groups@ == old(self).basic_groups@,
            is_by_activity(final(self).chat_list.chat_vec@),
            selection_kept(old(self).chat_list, final(self).chat_list),
    {
        let ghost before = self.chat_list.chat_vec@;
        self.chat_list.sort();
        proof {
            assert forall|i: int| 0 <= i < before.len() implies listed(
                self.chat_list.chat_vec@,
                #[trigger] before[i],
            ) by {
                lemma_sort_keeps(before, i);
                let j = choose|j: int| 0 <= j < before.len() && sorted_by_activity(before)[j] == before[i];
                assert(self.chat_list.chat_vec@[j] == before[i]);
            }
        }
    }

    /// The wf facts that hold after one conversation changed in place.
    proof fn lemma_one_changed(&self, before: ChatList, i: int)
        requires
            before.wf(),
            self.chat_list.chat_vec@[i].id == before.chat_vec@[i].id,
            self.chat_list.chat_vec@.len() == before.chat_vec@.len(),
            0 <= i < before.chat_vec@.len(),
            self.chat_list.chat_vec@[i].wf(),
            forall|k: int|
                0 <= k < before.chat_vec@.len() && k != i ==> self.chat_list.chat_vec@[k]
                    == before.chat_vec@[k],
        ensures
            self.chat_list.wf(),
    {
        let l = self.chat_list.chat_vec@;
        assert forall|a: int, b: int| 0 <= a < l.len() && 0 <= b < l.len() && a != b implies l[a].id
            != l[b].id by {
            assert(l[a].id == before.chat_vec@[a].id);
            assert(l[b].id == before.chat_vec@[b].id);
        }
        assert forall|k: int| 0 <= k < self.chat_list.chat_vec@.len() implies (#[trigger] self.chat_list.chat_vec@[k]).wf() by {
            if k != i {
                assert(self.chat_list.chat_vec@[k] == before.chat_vec@[k]);
            }
        }
    }

    /// A live message: stored at the newest end of its conversation, whose
    /// last activity rises to the message's date; the list is then sorted
    /// again, keeping the selection. A notification is due when someone else
    /// sent it.
    fn on_new_message(&mut self, raw: RawMessage) -> (r: Effect)
        requires
            old(self).wf(),
        ensures
            final(self).wf(),
            *final(self) == (App { chat_list: final(self).chat_list, ..*old(self) }),
            new_message_applied(*old(self), *final(self), raw, r),
    {
        let chat_id = raw.chat_id;
        match self.chat_list.get_chat_by_id(chat_id) {
            None => Effect::Log(String::from_str("message for a chat that is not listed")),
            Some(i) => {
                let ghost before = self.chat_list;
                let ghost old_chat = self.chat_list.chat_vec@[i as int];
                proof {
                    assert(i == chat_index(old(self).chat_list.chat_vec@, chat_id));
                }
                let m = parse_msg(raw, chat_id);
                let sender = m.sender_user_id;
                let date = m.date;
                let effect = if self.me_id > 0 && self.me_id != sender {
                    let summary = self.full_name_of(sender);
                    let body = match &m.text {
                        Some(t) => t.clone(),
                        None => String::from_str("[none]"),
                    };
                    Effect::Notify { summary, body }
                } else {
                    Effect::Nothing
                };
                let ghost mg = m;
                self.chat_list.chat_vec[i].insert_newest(m);
                if date > self.chat_list.chat_vec[i].last_msg_date {
                    self.chat_list.chat_vec[i].last_msg_date = date;
                }
                let ghost changed = self.chat_list.chat_vec@[i as int];
                proof {
                    self.lemma_one_changed(before, i as int);
                }
                let ghost mid = self.chat_list;
                self.resort();
                proof {
                    assert(mid.chat_vec@[i as int] == changed);
                    assert(listed(self.chat_list.chat_vec@, mid.chat_vec@[i as int]));
                    let j = choose|j: int|
                        0 <= j < self.chat_list.chat_vec@.len() && self.chat_list.chat_vec@[j]
                            == mid.chat_vec@[i as int];
                    assert(self.chat_list.chat_vec@[j].id == chat_id);
                    assert(new_message_in(self.chat_list.chat_vec@[j], old_chat, mg));
                    if old(self).chat_list.selected_index < old(self).chat_list.chat_vec@.len() {
                        let s = old(self).chat_list.selected_index as int;
                        if s != i {
                            assert(mid.chat_vec@[s] == old(self).chat_list.chat_vec@[s]);
                        }
                    }
                }
                effect
            },
        }
    }

    /// A batch answering a history request: stored at the oldest end of its
    /// conversation; an empty one ends its history.
    fn on_messages(&mut self, chat_id: i64, messages: Vec<RawMessage>) -> (r: Effect)
        requires
            old(self).wf(),
        ensures
            final(self).wf(),
            *final(self) == (App { chat_list: final(self).chat_list, ..*old(self) }),
            batch_applied(*old(self), *final(self), chat_id, messages@),
            !has_chat(old(self).chat_list.chat_vec@, chat_id) ==> r is Log,
            has_chat(old(self).chat_list.chat_vec@, chat_id) ==> r is Nothing,
    {
        match self.chat_list.get_chat_by_id(chat_id) {
            None => Effect::Log(String::from_str("history for a chat that is not listed")),
            Some(i) => {
                let ghost before = self.chat_list;
                proof {
                    assert(i == chat_index(old(self).chat_list.chat_vec@, chat_id));
                }
                let ms = parse_all(messages, chat_id);
                self.chat_list.chat_vec[i].append_batch(ms);
                proof {
                    self.lemma_one_changed(before, i as int);
                }
                Effect::Nothing
            },
        }
    }

    /// A conversation not heard of before is listed at the end.
    fn on_new_chat(&mut self, id: i64, title: String, kind: ChatKind)
        requires
            old(self).wf(),
        ensures
            final(self).wf(),
            *final(self) == (App { chat_list: final(self).chat_list, ..*old(self) }),
            new_chat_applied(*old(self), *final(self), id, title, kind),
    {
        match self.chat_list.get_chat_by_id(id) {
            Some(_) => {},
            None => {
                let c = Conversation::new(id, title, kind);
                self.chat_list.chat_vec.push(c);
                proof {
                    assert(self.chat_list.chat_vec@.drop_last() =~= old(self).chat_list.chat_vec@);
                    assert forall|i: int| 0 <= i < self.chat_list.chat_vec@.len() implies (#[trigger] self.chat_list.chat_vec@[i]).wf() by {
                        if i < old(self).chat_list.chat_vec@.len() {
                            assert(self.chat_list.chat_vec@[i] == old(self).chat_list.chat_vec@[i]);
                        }
                    }
                    let l = self.chat_list.chat_vec@;
                    assert forall|a: int, b: int| 0 <= a < l.len() && 0 <= b < l.len() && a != b implies l[a].id != l[b].id by {
                        let n = old(self).chat_list.chat_vec@.len() as int;
                        if a < n && b < n {
                            assert(l[a] == old(self).chat_list.chat_vec@[a]);
                            assert(l[b] == old(self).chat_list.chat_vec@[b]);
                        } else if a < n {
                            assert(l[a] == old(self).chat_list.chat_vec@[a]);
                        } else if b < n {
                            assert(l[b] == old(self).chat_list.chat_vec@[b]);
                        }
                    }
                }
            },
        }
    }

    /// A conversation's last activity changed: recorded, and the list is
    /// sorted again, keeping the selection.
    fn on_chat_last_message(&mut self, chat_id: i64, date: i64)
        requires
            old(self).wf(),
        ensures
            final(self).wf(),
            *final(self) == (App { chat_list: final(self).chat_list, ..*old(self) }),
            last_message_applied(*old(self), *final(self), chat_id, date),
    {
        match self.chat_list.get_chat_by_id(chat_id) {
            Some(i) => {
                let ghost before = self.chat_list;
                let ghost old_chat = self.chat_list.chat_vec@[i as int];
                proof {
                    assert(i == chat_index(old(self).chat_list.chat_vec@, chat_id));
                }
                self.chat_list.chat_vec[i].last_msg_date = date;
                proof {
                    self.lemma_one_changed(before, i as int);
                }
                let ghost mid = self.chat_list;
                self.resort();
                proof {
                    assert(listed(self.chat_list.chat_vec@, mid.chat_vec@[i as int]));
                    let j = choose|j: int|
                        0 <= j < self.chat_list.chat_vec@.len() && self.chat_list.chat_vec@[j]
                            == mid.chat_vec@[i as int];
                    assert(self.chat_list.chat_vec@[j] == (Conversation { last_msg_date: date, ..old_chat }));
                    if old(self).chat_list.selected_index < old(self).chat_list.chat_vec@.len() {
                        let s = old(self).chat_list.selected_index as int;
                        if s != i {
                            assert(mid.chat_vec@[s] == old(self).chat_list.chat_vec@[s]);
                        }
                    }
                }
            },
            None => {},
        }
    }

    /// Basic group information: member count, then members.
    fn on_basic_group(&mut self, id: i64, member_count: i64, member_ids: Option<Vec<i64>>)
        requires
            old(self).wf(),
        ensures
            final(self).wf(),
            member_ids is Some ==> group_members_set(
                old(self).basic_groups@,
                final(self).basic_groups@,
                id,
                member_ids->0@,
            ),
            member_ids is None ==> group_count_set(
                old(self).basic_groups@,
                final(self).basic_groups@,
                id,
                member_count,
            ),
            *final(self) == (App { basic_groups: final(self).basic_groups, ..*old(self) }),
    {
        match self.find_group(id) {
            Some(g) => match member_ids {
                Some(ids) => {
                    self.basic_groups[g].member_ids = ids;
                    assert(self.basic_groups@ =~= old(self).basic_groups@.update(
                        g as int,
                        BasicGroup {
                            member_ids: self.basic_groups@[g as int].member_ids,
                            ..old(self).basic_groups@[g as int]
                        },
                    ));
                },
                None => {
                    self.basic_groups[g].member_count = member_count;
                    assert(self.basic_groups@ =~= old(self).basic_groups@.update(
                        g as int,
                        BasicGroup { member_count, ..old(self).basic_groups@[g as int] },
                    ));
                },
            },
            None => match member_ids {
                Some(_) => {},
                None => {
                    self.basic_groups.push(BasicGroup { id, member_count, member_ids: Vec::new() });
                    assert(self.basic_groups@.drop_last() =~= old(self).basic_groups@);
                },
            },
        }
    }

    /// Applies one backend event. Each kind of event changes only the part of
    /// the state it is about: registries, the chat list, the queue or the
    /// local identity. A message, a batch or a last activity for a
    /// conversation that is not listed changes nothing; a payload that does
    /// not decode still yields a message. An authorization state queues
    /// exactly its requests, or ends the session when it needs a code that
    /// was not given; a wrong confirmation code ends it too.
    pub fn apply_event(&mut self, ev: Event, creds: &Credentials, code: &Option<String>) -> (r:
        Effect)
        requires
            old(self).wf(),
        ensures
            final(self).wf(),
            match ev {
                Event::NewMessage(raw) => {
                    &&& *final(self) == (App { chat_list: final(self).chat_list, ..*old(self) })
                    &&& new_message_applied(*old(self), *final(self), raw, r)
                },
                Event::Messages { chat_id, messages } => {
                    &&& *final(self) == (App { chat_list: final(self).chat_list, ..*old(self) })
                    &&& batch_applied(*old(self), *final(self), chat_id, messages@)
                },
                Event::NewChat { id, title, kind } => {
                    &&& *final(self) == (App { chat_list: final(self).chat_list, ..*old(self) })
                    &&& new_chat_applied(*old(self), *final(self), id, title, kind)
                    &&& r is Nothing
                },
                Event::ChatLastMessage { chat_id, date } => {
                    &&& *final(self) == (App { chat_list: final(self).chat_list, ..*old(self) })
                    &&& last_message_applied(*old(self), *final(self), chat_id, date)
                    &&& r is Nothing
                },
                Event::User(u) => {
                    &&& *final(self) == (App { users: final(self).users, ..*old(self) })
                    &&& crate::users::upserted(old(self).users@, final(self).users@, u)
                    &&& r is Nothing
                },
                Event::UserStatus { user_id, status } => {
                    &&& *final(self) == (App { users: final(self).users, ..*old(self) })
                    &&& crate::users::status_set(old(self).users@, final(self).users@, user_id, status)
                    &&& r is Nothing
                },
                Event::BasicGroup { id, member_count } => {
                    &&& *final(self) == (App { basic_groups: final(self).basic_groups, ..*old(self) })
                    &&& group_count_set(old(self).basic_groups@, final(self).basic_groups@, id, member_count)
                    &&& r is Nothing
                },
                Event::BasicGroupFullInfo { id, member_ids } => {
                    &&& *final(self) == (App { basic_groups: final(self).basic_groups, ..*old(self) })
                    &&& group_members_set(old(self).basic_groups@, final(self).basic_groups@, id, member_ids@)
                    &&& r is Nothing
                },
                Event::AuthorizationState(s) => if handshake_fatal(s, *code) {
                    &&& *final(self) == *old(self)
                    &&& r is Exit && r->Exit_0@ == crate::handshake::NO_CODE_PROVIDED@
                } else if s == AuthState::Other {
                    *final(self) == *old(self) && r is Nothing
                } else {
                    &&& *final(self) == (App { outgoing_queue: final(self).outgoing_queue, ..*old(self) })
                    &&& exists|rs: Seq<crate::request::Request>|
                        handshake_sends(s, creds, *code, rs) && final(self).outgoing_queue@
                            == old(self).outgoing_queue@ + rs
                    &&& r is Nothing
                },
                Event::Error { message } => {
                    &&& *final(self) == *old(self)
                    &&& message@ == crate::handshake::PHONE_CODE_INVALID@ ==> r is Exit && r->Exit_0@
                        == crate::handshake::INCORRECT_CODE@
                    &&& message@ != crate::handshake::PHONE_CODE_INVALID@ ==> r is Log && r->Log_0@
                        == message@
                },
                Event::Me { id } => *final(self) == (App { me_id: id, ..*old(self) }) && r is Nothing,
                Event::Other => *final(self) == *old(self) && r is Nothing,
            },
    {
        match ev {
            Event::AuthorizationState(s) => match handshake_step(s, creds, code) {
                HandshakeAction::Send(reqs) => {
                    let ghost all = reqs@;
                    let mut reqs = reqs;
                    let ghost mut done: Seq<crate::request::Request> = Seq::empty();
                    while reqs.len() > 0
                        invariant
                            self.wf(),
                            *self == (App { outgoing_queue: self.outgoing_queue, ..*old(self) }),
                            done + reqs@ == all,
                            self.outgoing_queue@ == old(self).outgoing_queue@ + done,
                        decreases reqs@.len(),
                    {
                        let ghost r0 = reqs@;
                        let q = reqs.remove(0);
                        self.outgoing_queue.push_back(q);
                        proof {
                            assert(r0[0] == q);
                            assert(done.push(q) + reqs@ =~= done + r0);
                            assert(self.outgoing_queue@ =~= old(self).outgoing_queue@ + done.push(q));
                            done = done.push(q);
                        }
                    }
                    assert(done =~= all);
                    Effect::Nothing
                },
                HandshakeAction::Fatal(msg) => Effect::Exit(msg),
                HandshakeAction::Ignore => Effect::Nothing,
            },
            Event::User(u) => {
                self.users.upsert(u);
                Effect::Nothing
            },
            Event::UserStatus { user_id, status } => {
                self.users.set_status(user_id, status);
                Effect::Nothing
            },
            Event::BasicGroup { id, member_count } => {
                self.on_basic_group(id, member_count, None);
                Effect::Nothing
            },
            Event::BasicGroupFullInfo { id, member_ids } => {
                self.on_basic_group(id, 0, Some(member_ids));
                Effect::Nothing
            },
            Event::NewChat { id, title, kind } => {
                self.on_new_chat(id, title, kind);
                Effect::Nothing
            },
            Event::ChatLastMessage { chat_id, date } => {
                self.on_chat_last_message(chat_id, date);
                Effect::Nothing
            },
            Event::NewMessage(raw) => self.on_new_message(raw),
            Event::Messages { chat_id, messages } => self.on_messages(chat_id, messages),
            Event::Error { message } => match classify_error(&message) {
                ErrorClass::Fatal(m) => Effect::Exit(m),
                ErrorClass::Recoverable(m) => Effect::Log(m),
            },
            Event::Me { id } => {
                self.me_id = id;
                Effect::Nothing
            },
            Event::Other => Effect::Nothing,
        }
    }
}

} // verus!
