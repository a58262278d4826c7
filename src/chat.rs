use vstd::prelude::*;

use crate::message::Message;
use crate::request::{OutgoingQueue, Request};

verus! {

/// Who a conversation is with.
#[derive(Clone, Copy, PartialEq, Eq, Structural)]
pub enum ChatKind {
    Private { user_id: i64 },
    BasicGroup { group_id: i64 },
    Other,
}

/// What submitting the input buffer will do.
pub enum Compose {
    Normal,
    Replying { target: i64 },
    Editing { target: i64, original: Vec<char> },
}

/// The value of `retrieving` when no backfill is in flight.
pub const NOT_RETRIEVING: i64 = -1;

/// One conversation: its stored history, newest message first, the cursor of
/// the history request in flight, and what is on screen of it.
pub struct Conversation {
    pub id: i64,
    pub title: String,
    pub kind: ChatKind,
    pub history: Vec<Message>,
    pub end_of_history: bool,
    pub retrieving: i64,
    pub num_onscreen: usize,
    pub bottom_index: usize,
    pub last_msg_date: i64,
    pub select_index: usize,
    pub compose: Compose,
    pub input: Vec<char>,
}

/// The visual-mode selection after moving up (older), with `onscreen`
/// messages shown: past the last one it wraps to the newest.
pub open spec fn select_up_index(sel: nat, onscreen: nat) -> nat {
    if sel >= onscreen {
        0
    } else {
        sel + 1
    }
}

/// The visual-mode selection after moving down (newer): past the newest it
/// wraps to the last one shown.
pub open spec fn select_down_index(sel: nat, onscreen: nat) -> nat {
    if sel > 0 {
        (sel - 1) as nat
    } else if onscreen > 0 {
        (onscreen - 1) as nat
    } else {
        0
    }
}

/// The conversation after a reply to, or an edit of, the selected message
/// is started: a reply targets it and keeps the buffer; an edit needs an
/// editable text message, targets it and puts its text in the buffer;
/// otherwise the state is normal. Nothing else changes.
pub open spec fn selection_applied(c: Conversation, f: Conversation, action: MsgAction) -> bool {
    let idx = c.bottom_index + c.select_index;
    let h = c.history@;
    &&& f == (Conversation { compose: f.compose, input: f.input, ..c })
    &&& if idx >= h.len() {
        f.compose is Normal && f.input@ == c.input@
    } else if action == MsgAction::Reply {
        f.compose == (Compose::Replying { target: h[idx].id }) && f.input@ == c.input@
    } else if h[idx].can_be_edited && h[idx].text is Some {
        &&& f.compose is Editing
        &&& f.compose->Editing_target == h[idx].id
        &&& f.compose->Editing_original@ == h[idx].text->0@
        &&& f.input@ == h[idx].text->0@
    } else {
        f.compose is Normal && f.input@ == c.input@
    }
}

/// The conversation after the visual-mode selection moves: the index as
/// given, an edit in progress abandoned with its text, the compose state
/// normal, nothing else changed.
pub open spec fn selection_moved(c: Conversation, f: Conversation, index: nat) -> bool {
    &&& f == (Conversation { select_index: f.select_index, compose: f.compose, input: f.input, ..c })
    &&& f.select_index == index
    &&& f.compose is Normal
    &&& c.compose is Editing ==> f.input@ == Seq::<char>::empty()
    &&& !(c.compose is Editing) ==> f.input@ == c.input@
}

/// Whether a message with this id is stored.
pub open spec fn has_msg(h: Seq<Message>, id: i64) -> bool {
    exists|i: int| 0 <= i < h.len() && h[i].id == id
}

/// No two stored messages share an id.
pub open spec fn ids_unique(h: Seq<Message>) -> bool {
    forall|i: int, j: int| 0 <= i < h.len() && 0 <= j < h.len() && i != j ==> h[i].id != h[j].id
}

/// The history after a message arrives at the newest end: unchanged when its
/// id is already stored.
pub open spec fn with_newest(h: Seq<Message>, m: Message) -> Seq<Message> {
    if has_msg(h, m.id) {
        h
    } else {
        seq![m] + h
    }
}

/// The history after a message arrives at the oldest end: unchanged when its
/// id is already stored.
pub open spec fn with_oldest(h: Seq<Message>, m: Message) -> Seq<Message> {
    if has_msg(h, m.id) {
        h
    } else {
        h.push(m)
    }
}

/// The history after a batch of older messages arrives, in the batch's order.
pub open spec fn with_batch(h: Seq<Message>, ms: Seq<Message>) -> Seq<Message>
    decreases ms.len(),
{
    if ms.len() == 0 {
        h
    } else {
        with_batch(with_oldest(h, ms[0]), ms.drop_first())
    }
}

/// The id that a backfill starts from: the oldest stored message, or 0 (the
/// newest messages) when nothing is stored.
pub open spec fn oldest_id(h: Seq<Message>) -> i64 {
    if h.len() == 0 {
        0
    } else {
        h.last().id
    }
}

/// A move of the window over a conversation's history.
#[derive(Clone, Copy, PartialEq, Eq, Structural)]
pub enum ScrollOp {
    /// One message toward older ones.
    ScrollUp,
    /// One message toward newer ones.
    ScrollDown,
    /// A page toward older ones.
    PageUp,
    /// A page toward newer ones.
    PageDown,
    /// Straight to the newest message.
    GoToBottom,
}

/// What a request of the visual mode does with the selected message.
#[derive(Clone, Copy, PartialEq, Eq, Structural)]
pub enum MsgAction {
    Edit,
    Reply,
}

/// The window's bottom index after one move, with `onscreen` messages shown
/// and `len` stored. Older moves stop where the oldest message is in view;
/// newer moves stop at the newest message, and once within a page of it they
/// land flush on it.
pub open spec fn scroll_step(bottom: nat, onscreen: nat, len: nat, op: ScrollOp) -> nat {
    match op {
        ScrollOp::ScrollUp => if bottom + onscreen < len {
            bottom + 1
        } else {
            bottom
        },
        ScrollOp::ScrollDown => if bottom <= onscreen {
            0
        } else {
            (bottom - 1) as nat
        },
        ScrollOp::PageUp => if bottom + onscreen <= len {
            bottom + onscreen
        } else {
            len
        },
        ScrollOp::PageDown => if bottom <= onscreen {
            0
        } else {
            (bottom - onscreen) as nat
        },
        ScrollOp::GoToBottom => 0,
    }
}

/// The bottom index after a run of moves.
pub open spec fn scroll_run(bottom: nat, onscreen: nat, len: nat, ops: Seq<ScrollOp>) -> nat
    decreases ops.len(),
{
    if ops.len() == 0 {
        bottom
    } else {
        scroll_run(scroll_step(bottom, onscreen, len, ops[0]), onscreen, len, ops.drop_first())
    }
}

/// No run of moves takes the window's bottom index past the stored history.
pub proof fn lemma_scroll_bounds(bottom: nat, onscreen: nat, len: nat, ops: Seq<ScrollOp>)
    requires
        bottom <= len,
    ensures
        scroll_run(bottom, onscreen, len, ops) <= len,
    decreases ops.len(),
{
    if ops.len() > 0 {
        lemma_scroll_bounds(scroll_step(bottom, onscreen, len, ops[0]), onscreen, len, ops.drop_first());
    }
}

/// Whether a redraw asks for older messages: the history is not known to be
/// complete, and the window was not filled or fewer than two screens of
/// messages are stored above its bottom.
pub open spec fn wants_backfill(
    end_of_history: bool,
    filled: nat,
    box_height: nat,
    bottom: nat,
    onscreen: nat,
    len: nat,
) -> bool {
    !end_of_history && (filled < box_height || len < bottom + 2 * onscreen)
}

/// How many messages a backfill asks for.
pub open spec fn backfill_limit(onscreen: nat, box_height: nat) -> nat {
    if onscreen > 2 * box_height {
        onscreen
    } else {
        2 * box_height
    }
}

/// Whether asking for history from `start` sends a request, given the cursor
/// of the request in flight.
pub open spec fn issues_backfill(retrieving: i64, start: i64) -> bool {
    retrieving != start
}

/// Once a backfill from a cursor is sent, asking again from that cursor sends
/// nothing until a batch answers it.
pub proof fn lemma_backfill_at_most_once(retrieving: i64, start: i64)
    ensures
        !issues_backfill(if issues_backfill(retrieving, start) { start } else { retrieving }, start),
{
}

/// Once a conversation's history is known to be complete, no redraw asks for
/// more of it.
pub proof fn lemma_end_of_history_terminal(
    filled: nat,
    box_height: nat,
    bottom: nat,
    onscreen: nat,
    len: nat,
)
    ensures
        !wants_backfill(true, filled, box_height, bottom, onscreen, len),
{
}

/// The request that submitting `text` sends in compose state `compose`.
pub open spec fn is_submit(r: Request, chat: i64, compose: Compose, text: Seq<char>) -> bool {
    match compose {
        Compose::Editing { target, .. } => match r {
            Request::EditMessage { chat_id, message_id, text: t } => chat_id == chat
                && message_id == target && t@ == text,
            _ => false,
        },
        _ => match r {
            Request::SendMessage { chat_id, text: t, reply_to_message_id } => chat_id == chat
                && t@ == text && reply_to_message_id == (match compose {
                Compose::Replying { target } => target,
                _ => 0,
            }),
            _ => false,
        },
    }
}

/// A copy of a character buffer.
pub fn chars_of_vec(v: &Vec<char>) -> (r: Vec<char>)
    ensures
        r@ == v@,
{
    let mut r: Vec<char> = Vec::new();
    let mut i: usize = 0;
    while i < v.len()
        invariant
            i <= v@.len(),
            r@ == v@.take(i as int),
        decreases v@.len() - i,
    {
        r.push(v[i]);
        i = i + 1;
        assert(r@ =~= v@.take(i as int));
    }
    assert(r@ =~= v@);
    r
}

/// The characters of a string, one by one.
pub fn chars_of(s: &String) -> (v: Vec<char>)
    ensures
        v@ == s@,
{
    let n = s.as_str().unicode_len();
    let mut v: Vec<char> = Vec::new();
    let mut i: usize = 0;
    while i < n
        invariant
            n == s@.len(),
            i <= n,
            v@ == s@.take(i as int),
        decreases n - i,
    {
        let c = s.as_str().get_char(i);
        v.push(c);
        i = i + 1;
        assert(v@ =~= s@.take(i as int));
    }
    assert(v@ =~= s@);
    v
}

pub proof fn lemma_with_oldest_unique(h: Seq<Message>, m: Message)
    requires
        ids_unique(h),
    ensures
        ids_unique(with_oldest(h, m)),
        forall|id: i64| has_msg(with_oldest(h, m), id) <==> has_msg(h, id) || id == m.id,
        h.len() <= with_oldest(h, m).len(),
{
    let r = with_oldest(h, m);
    assert forall|id: i64| has_msg(r, id) <==> has_msg(h, id) || id == m.id by {
        if !has_msg(h, m.id) {
            if id == m.id {
                assert(r[h.len() as int] == m);
            }
            if has_msg(h, id) {
                let i = choose|i: int| 0 <= i < h.len() && h[i].id == id;
                assert(r[i] == h[i]);
            }
        }
    }
}

pub proof fn lemma_with_batch_unique(h: Seq<Message>, ms: Seq<Message>)
    requires
        ids_unique(h),
    ensures
        ids_unique(with_batch(h, ms)),
        h.len() <= with_batch(h, ms).len(),
    decreases ms.len(),
{
    if ms.len() > 0 {
        lemma_with_oldest_unique(h, ms[0]);
        lemma_with_batch_unique(with_oldest(h, ms[0]), ms.drop_first());
    }
}

/// A message delivered more than once, by a live push or in a batch, in any
/// order, is stored once: both ways of storing keep ids unique, and storing
/// a message whose id is stored changes nothing.
pub proof fn lemma_delivery_idempotent(h: Seq<Message>, m: Message, ms: Seq<Message>)
    requires
        ids_unique(h),
    ensures
        ids_unique(with_newest(h, m)),
        ids_unique(with_batch(h, ms)),
        with_newest(with_newest(h, m), m) == with_newest(h, m),
        with_batch(with_newest(h, m), seq![m]) == with_newest(h, m),
        with_newest(with_batch(h, seq![m]), m) == with_batch(h, seq![m]),
{
    lemma_with_batch_unique(h, ms);
    let n = with_newest(h, m);
    if !has_msg(h, m.id) {
        assert(n[0] == m);
        assert forall|i: int, j: int|
            0 <= i < n.len() && 0 <= j < n.len() && i != j implies n[i].id != n[j].id by {
            if i > 0 {
                assert(n[i] == h[i - 1]);
            }
            if j > 0 {
                assert(n[j] == h[j - 1]);
            }
        }
    }
    assert(has_msg(n, m.id)) by {
        if !has_msg(h, m.id) {
            assert(n[0] == m);
        }
    }
    let e = seq![m].drop_first();
    assert(e =~= Seq::<Message>::empty());
    assert(with_batch(with_oldest(h, m), e) == with_oldest(h, m));
    assert(with_batch(with_oldest(n, m), e) == with_oldest(n, m));
    assert(with_batch(n, seq![m]) == with_batch(with_oldest(n, m), e));
    let b = with_batch(h, seq![m]);
    assert(b == with_oldest(h, m));
    assert(has_msg(b, m.id)) by {
        if !has_msg(h, m.id) {
            assert(b[h.len() as int] == m);
        }
    }
}

/// How many stored messages carry this id.
pub open spec fn count_id(h: Seq<Message>, id: i64) -> nat
    decreases h.len(),
{
    if h.len() == 0 {
        0
    } else {
        count_id(h.drop_last(), id) + if h.last().id == id {
            1nat
        } else {
            0nat
        }
    }
}

proof fn lemma_count_unique(h: Seq<Message>, id: i64)
    requires
        ids_unique(h),
    ensures
        count_id(h, id) == if has_msg(h, id) {
            1nat
        } else {
            0nat
        },
    decreases h.len(),
{
    if h.len() > 0 {
        let p = h.drop_last();
        assert(ids_unique(p)) by {
            assert forall|i: int, j: int| 0 <= i < p.len() && 0 <= j < p.len() && i != j implies p[i].id
                != p[j].id by {
                assert(p[i] == h[i] && p[j] == h[j]);
            }
        }
        lemma_count_unique(p, id);
        if has_msg(p, id) {
            let k = choose|k: int| 0 <= k < p.len() && p[k].id == id;
            assert(h[k] == p[k]);
        } else if has_msg(h, id) {
            let k = choose|k: int| 0 <= k < h.len() && h[k].id == id;
            if k < p.len() {
                assert(p[k] == h[k]);
            }
        }
    }
}

proof fn lemma_batch_has(h: Seq<Message>, ms: Seq<Message>, id: i64)
    requires
        has_msg(h, id) || exists|k: int| 0 <= k < ms.len() && ms[k].id == id,
    ensures
        has_msg(with_batch(h, ms), id),
    decreases ms.len(),
{
    if ms.len() > 0 {
        let h2 = with_oldest(h, ms[0]);
        assert(has_msg(h2, ms[0].id)) by {
            if !has_msg(h, ms[0].id) {
                assert(h2[h.len() as int] == ms[0]);
            }
        }
        if has_msg(h, id) {
            let i = choose|i: int| 0 <= i < h.len() && h[i].id == id;
            assert(h2[i] == h[i]);
        }
        if !has_msg(h2, id) {
            let k = choose|k: int| 0 <= k < ms.len() && ms[k].id == id;
            assert(k != 0);
            assert(ms.drop_first()[k - 1] == ms[k]);
        }
        lemma_batch_has(h2, ms.drop_first(), id);
    }
}

/// A message delivered both live and in a history batch, in either order,
/// is stored exactly once.
pub proof fn lemma_double_delivery(h: Seq<Message>, m: Message, ms: Seq<Message>)
    requires
        ids_unique(h),
        exists|k: int| 0 <= k < ms.len() && ms[k].id == m.id,
    ensures
        count_id(with_batch(with_newest(h, m), ms), m.id) == 1,
        count_id(with_newest(with_batch(h, ms), m), m.id) == 1,
{
    lemma_delivery_idempotent(h, m, ms);
    let a = with_newest(h, m);
    lemma_with_batch_unique(a, ms);
    assert(has_msg(a, m.id)) by {
        if !has_msg(h, m.id) {
            assert(a[0] == m);
        }
    }
    lemma_batch_has(a, ms, m.id);
    lemma_count_unique(with_batch(a, ms), m.id);
    let b = with_batch(h, ms);
    lemma_with_batch_unique(h, ms);
    lemma_batch_has(h, ms, m.id);
    lemma_delivery_idempotent(b, m, ms);
    lemma_count_unique(with_newest(b, m), m.id);
}

/// A run of redraws over an unchanged history: whether each one wants a
/// backfill. Returns the cursor afterwards and how many requests were sent.
pub open spec fn passes(retrieving: i64, start: i64, wants: Seq<bool>) -> (i64, nat)
    decreases wants.len(),
{
    if wants.len() == 0 {
        (retrieving, 0)
    } else {
        let issued: nat = if wants[0] && issues_backfill(retrieving, start) {
            1
        } else {
            0
        };
        let next = if wants[0] {
            start
        } else {
            retrieving
        };
        let (r, n) = passes(next, start, wants.drop_first());
        (r, n + issued)
    }
}

/// Redraws over an unchanged history send at most one backfill request for
/// its oldest message, however many there are.
pub proof fn lemma_passes_at_most_once(retrieving: i64, start: i64, wants: Seq<bool>)
    ensures
        passes(retrieving, start, wants).1 <= 1,
        retrieving == start ==> passes(retrieving, start, wants).1 == 0,
    decreases wants.len(),
{
    if wants.len() > 0 {
        let next = if wants[0] {
            start
        } else {
            retrieving
        };
        lemma_passes_at_most_once(next, start, wants.drop_first());
        if wants[0] {
            lemma_passes_at_most_once(start, start, wants.drop_first());
        }
    }
}

/// The first redraw of an empty conversation, not known complete and with
/// nothing in flight, in a box of at least one line, asks for the newest
/// messages with room for two boxes; the next redraw asks nothing.
pub proof fn lemma_first_render(box_height: nat)
    requires
        box_height > 0,
    ensures
        wants_backfill(false, 0, box_height, 0, 0, 0),
        oldest_id(Seq::<Message>::empty()) == 0,
        issues_backfill(NOT_RETRIEVING, 0),
        backfill_limit(0, box_height) == 2 * box_height,
        !issues_backfill(0, 0),
{
}

impl Conversation {
    /// Stored ids are unique and the window starts within the history.
    pub open spec fn wf(&self) -> bool {
        &&& ids_unique(self.history@)
        &&& self.bottom_index <= self.history@.len()
    }

    /// A conversation with nothing stored and nothing requested yet.
    pub fn new(id: i64, title: String, kind: ChatKind) -> (c: Conversation)
        ensures
            c.wf(),
            c.id == id,
            c.title == title,
            c.kind == kind,
            c.history@ == Seq::<Message>::empty(),
            !c.end_of_history,
            c.retrieving == NOT_RETRIEVING,
            c.bottom_index == 0,
            c.num_onscreen == 0,
            c.last_msg_date == -1,
            c.select_index == 0,
            c.compose is Normal,
            c.input@ == Seq::<char>::empty(),
    {
        Conversation {
            id,
            title,
            kind,
            history: Vec::new(),
            end_of_history: false,
            retrieving: NOT_RETRIEVING,
            num_onscreen: 0,
            bottom_index: 0,
            last_msg_date: -1,
            select_index: 0,
            compose: Compose::Normal,
            input: Vec::new(),
        }
    }

    /// Whether a message with this id is stored.
    pub fn contains_id(&self, id: i64) -> (b: bool)
        ensures
            b == has_msg(self.history@, id),
    {
        let mut i: usize = 0;
        while i < self.history.len()
            invariant
                i <= self.history@.len(),
                forall|k: int| 0 <= k < i ==> self.history@[k].id != id,
            decreases self.history@.len() - i,
        {
            if self.history[i].id == id {
                return true;
            }
            i = i + 1;
        }
        false
    }

    /// Stores a message at the newest end; a message whose id is already
    /// stored is dropped, whichever way it came.
    pub fn insert_newest(&mut self, m: Message)
        requires
            old(self).wf(),
        ensures
            final(self).wf(),
            *final(self) == (Conversation { history: final(self).history, ..*old(self) }),
            final(self).history@ == with_newest(old(self).history@, m),
            has_msg(final(self).history@, m.id),
            final(self).end_of_history == old(self).end_of_history,
            final(self).retrieving == old(self).retrieving,
            final(self).bottom_index == old(self).bottom_index,
            final(self).num_onscreen == old(self).num_onscreen,
            final(self).id == old(self).id,
    {
        if !self.contains_id(m.id) {
            self.history.insert(0, m);
            proof {
                let h = self.history@;
                assert(h[0] == m);
                assert forall|i: int, j: int|
                    0 <= i < h.len() && 0 <= j < h.len() && i != j implies h[i].id
                    != h[j].id by {
                    if i > 0 && j > 0 {
                        assert(h[i] == old(self).history@[i - 1]);
                        assert(h[j] == old(self).history@[j - 1]);
                    } else if i == 0 {
                        assert(h[j] == old(self).history@[j - 1]);
                    } else {
                        assert(h[i] == old(self).history@[i - 1]);
                    }
                }
                assert(h =~= seq![m] + old(self).history@);
            }
        }
    }

    /// Stores a batch of older messages at the oldest end, in order, dropping
    /// any whose id is already stored. An empty batch means that the history
    /// has no more to give. Either way the request in flight is answered.
    pub fn append_batch(&mut self, msgs: Vec<Message>)
        requires
            old(self).wf(),
        ensures
            final(self).wf(),
            *final(self) == (Conversation {
                history: final(self).history,
                end_of_history: final(self).end_of_history,
                retrieving: final(self).retrieving,
                ..*old(self)
            }),
            final(self).history@ == with_batch(old(self).history@, msgs@),
            final(self).end_of_history == (old(self).end_of_history || msgs@.len()
                == 0),
            final(self).retrieving == if msgs@.len() == 0 {
                old(self).retrieving
            } else {
                NOT_RETRIEVING
            },
            final(self).bottom_index == old(self).bottom_index,
            final(self).num_onscreen == old(self).num_onscreen,
            final(self).id == old(self).id,
    {
        if msgs.len() == 0 {
            self.end_of_history = true;
            return;
        }
        let mut rest = msgs;
        let ghost start = self.history@;
        while rest.len() > 0
            invariant
                ids_unique(self.history@),
                start.len() <= self.history@.len(),
                with_batch(self.history@, rest@) == with_batch(start, msgs@),
                self.bottom_index == old(self).bottom_index,
                self.num_onscreen == old(self).num_onscreen,
                self.end_of_history == old(self).end_of_history,
                self.id == old(self).id,
                *self == (Conversation { history: self.history, ..*old(self) }),
            decreases rest@.len(),
        {
            let ghost before = self.history@;
            let ghost r0 = rest@;
            let m = rest.remove(0);
            assert(rest@ =~= r0.drop_first());
            proof {
                lemma_with_oldest_unique(before, m);
            }
            if !self.contains_id(m.id) {
                self.history.push(m);
            }
            assert(self.history@ == with_oldest(before, m));
        }
        self.retrieving = NOT_RETRIEVING;
    }

    /// The id that a backfill starts from.
    pub fn get_oldest_id(&self) -> (id: i64)
        ensures
            id == oldest_id(self.history@),
    {
        let n = self.history.len();
        if n == 0 {
            0
        } else {
            self.history[n - 1].id
        }
    }

    /// Moves the window by one move; nothing else changes.
    pub fn scroll(&mut self, op: ScrollOp)
        requires
            old(self).wf(),
        ensures
            final(self).wf(),
            *final(self) == (Conversation { bottom_index: final(self).bottom_index, ..*old(self) }),
            final(self).bottom_index as nat == scroll_step(
                old(self).bottom_index as nat,
                old(self).num_onscreen as nat,
                old(self).history@.len(),
                op,
            ),
            final(self).history@ == old(self).history@,
            final(self).num_onscreen == old(self).num_onscreen,
            final(self).end_of_history == old(self).end_of_history,
            final(self).retrieving == old(self).retrieving,
            final(self).id == old(self).id,
    {
        let len = self.history.len();
        let b = self.bottom_index;
        let n = self.num_onscreen;
        match op {
            ScrollOp::ScrollUp => {
                if n < len - b {
                    self.bottom_index = b + 1;
                }
            },
            ScrollOp::ScrollDown => {
                if b <= n {
                    self.bottom_index = 0;
                } else {
                    self.bottom_index = b - 1;
                }
            },
            ScrollOp::PageUp => {
                if n <= len - b {
                    self.bottom_index = b + n;
                } else {
                    self.bottom_index = len;
                }
            },
            ScrollOp::PageDown => {
                if b <= n {
                    self.bottom_index = 0;
                } else {
                    self.bottom_index = b - n;
                }
            },
            ScrollOp::GoToBottom => {
                self.bottom_index = 0;
            },
        }
    }

    /// One message toward older ones, while older ones are out of view.
    pub fn scroll_up(&mut self)
        requires
            old(self).wf(),
        ensures
            final(self).wf(),
            final(self).bottom_index as nat == scroll_step(
                old(self).bottom_index as nat,
                old(self).num_onscreen as nat,
                old(self).history@.len(),
                ScrollOp::ScrollUp,
            ),
            final(self).history@ == old(self).history@,
            final(self).num_onscreen == old(self).num_onscreen,
            final(self).id == old(self).id,
    {
        self.scroll(ScrollOp::ScrollUp);
    }

    /// One message toward newer ones; within a page of the newest, straight
    /// to it.
    pub fn scroll_down(&mut self)
        requires
            old(self).wf(),
        ensures
            final(self).wf(),
            final(self).bottom_index as nat == scroll_step(
                old(self).bottom_index as nat,
                old(self).num_onscreen as nat,
                old(self).history@.len(),
                ScrollOp::ScrollDown,
            ),
            final(self).history@ == old(self).history@,
            final(self).num_onscreen == old(self).num_onscreen,
            final(self).id == old(self).id,
    {
        self.scroll(ScrollOp::ScrollDown);
    }

    /// A page toward older ones: the topmost message shown becomes the bottom
    /// one, stopping at the oldest stored.
    pub fn page_up(&mut self)
        requires
            old(self).wf(),
        ensures
            final(self).wf(),
            final(self).bottom_index as nat == scroll_step(
                old(self).bottom_index as nat,
                old(self).num_onscreen as nat,
                old(self).history@.len(),
                ScrollOp::PageUp,
            ),
            final(self).history@ == old(self).history@,
            final(self).num_onscreen == old(self).num_onscreen,
            final(self).id == old(self).id,
    {
        self.scroll(ScrollOp::PageUp);
    }

    /// A page toward newer ones, flush with the newest message once within a
    /// page of it.
    pub fn page_down(&mut self)
        requires
            old(self).wf(),
        ensures
            final(self).wf(),
            final(self).bottom_index as nat == scroll_step(
                old(self).bottom_index as nat,
                old(self).num_onscreen as nat,
                old(self).history@.len(),
                ScrollOp::PageDown,
            ),
            final(self).history@ == old(self).history@,
            final(self).num_onscreen == old(self).num_onscreen,
            final(self).id == old(self).id,
    {
        self.scroll(ScrollOp::PageDown);
    }

    /// Straight to the newest message.
    pub fn go_to_bottom(&mut self)
        requires
            old(self).wf(),
        ensures
            final(self).wf(),
            final(self).bottom_index == 0,
            final(self).history@ == old(self).history@,
            final(self).num_onscreen == old(self).num_onscreen,
            final(self).id == old(self).id,
    {
        self.scroll(ScrollOp::GoToBottom);
    }

    /// Asks for up to `limit` messages older than `start_id`, unless a request
    /// from that id is already in flight. The cursor is recorded before the
    /// request is queued.
    pub fn retrieve_history(&mut self, queue: &mut OutgoingQueue, start_id: i64, limit: i64)
        requires
            old(self).wf(),
        ensures
            final(self).wf(),
            (old(self).end_of_history || !issues_backfill(old(self).retrieving, start_id)) ==> {
                &&& *final(self) == *old(self)
                &&& final(queue)@ == old(queue)@
            },
            (!old(self).end_of_history && issues_backfill(old(self).retrieving, start_id)) ==> {
                &&& *final(self) == (Conversation { retrieving: start_id, ..*old(self) })
                &&& final(queue)@ == old(queue)@.push(
                    Request::GetChatHistory { chat_id: old(self).id, from_message_id: start_id, limit },
                )
            },
    {
        if self.end_of_history || self.retrieving == start_id {
            return;
        }
        self.retrieving = start_id;
        queue.push_back(
            Request::GetChatHistory { chat_id: self.id, from_message_id: start_id, limit },
        );
    }

    /// After a redraw that filled `filled` of `box_height` lines: asks for
    /// older messages when the window is short of them and the history is not
    /// known to be complete.
    pub fn request_more_if_needed(&mut self, queue: &mut OutgoingQueue, filled: usize, box_height: u16)
        requires
            old(self).wf(),
        ensures
            final(self).wf(),
            wants_backfill(
                old(self).end_of_history,
                filled as nat,
                box_height as nat,
                old(self).bottom_index as nat,
                old(self).num_onscreen as nat,
                old(self).history@.len(),
            ) ==> {
                &&& final(self).retrieving == oldest_id(old(self).history@)
                &&& issues_backfill(old(self).retrieving, oldest_id(old(self).history@))
                    ==> final(queue)@ == old(queue)@.push(
                    Request::GetChatHistory {
                        chat_id: old(self).id,
                        from_message_id: oldest_id(old(self).history@),
                        limit: backfill_limit(old(self).num_onscreen as nat, box_height as nat)
                            as i64,
                    },
                )
                &&& !issues_backfill(old(self).retrieving, oldest_id(old(self).history@))
                    ==> final(queue)@ == old(queue)@
            },
            !wants_backfill(
                old(self).end_of_history,
                filled as nat,
                box_height as nat,
                old(self).bottom_index as nat,
                old(self).num_onscreen as nat,
                old(self).history@.len(),
            ) ==> final(queue)@ == old(queue)@ && final(self).retrieving == old(self).retrieving,
            *final(self) == (Conversation { retrieving: final(self).retrieving, ..*old(self) }),
    {
        if self.end_of_history {
            return;
        }
        let len = self.history.len();
        let short_of_lines = filled < box_height as usize;
        let few_above = len - self.bottom_index < self.num_onscreen || len - self.bottom_index
            - self.num_onscreen < self.num_onscreen;
        if short_of_lines || few_above {
            let h2: usize = 2 * (box_height as usize);
            let limit: usize = if self.num_onscreen > h2 {
                self.num_onscreen
            } else {
                h2
            };
            let start = self.get_oldest_id();
            self.retrieve_history(queue, start, limit as i64);
        }
    }

    /// The message under the visual-mode selection, when there is one.
    pub fn get_selected_msg(&self) -> (r: Option<&Message>)
        requires
            self.wf(),
        ensures
            self.bottom_index + self.select_index < self.history@.len() ==> r == Some(
                &self.history@[self.bottom_index + self.select_index],
            ),
            self.bottom_index + self.select_index >= self.history@.len() ==> r is None,
    {
        if self.select_index < self.history.len() - self.bottom_index {
            Some(&self.history[self.bottom_index + self.select_index])
        } else {
            None
        }
    }

    /// Leaving a message: an edit in progress is abandoned with its text, and
    /// the compose state returns to normal.
    fn selection_change(&mut self)
        ensures
            *final(self) == (Conversation { compose: final(self).compose, input: final(self).input, ..*old(self) }),
            final(self).compose is Normal,
            old(self).compose is Editing ==> final(self).input@ == Seq::<char>::empty(),
            !(old(self).compose is Editing) ==> final(self).input@ == old(self).input@,
            final(self).history@ == old(self).history@,
            final(self).bottom_index == old(self).bottom_index,
            final(self).num_onscreen == old(self).num_onscreen,
            final(self).select_index == old(self).select_index,
            final(self).end_of_history == old(self).end_of_history,
            final(self).retrieving == old(self).retrieving,
            final(self).id == old(self).id,
    {
        if let Compose::Editing { .. } = self.compose {
            self.input.clear();
        }
        self.compose = Compose::Normal;
    }

    /// Moves the selection one message up (older), wrapping to the newest
    /// past the last one shown.
    pub fn select_up(&mut self)
        requires
            old(self).wf(),
        ensures
            final(self).wf(),
            selection_moved(*old(self), *final(self), select_up_index(old(self).select_index as nat, old(self).num_onscreen as nat)),
            final(self).select_index as nat == select_up_index(
                old(self).select_index as nat,
                old(self).num_onscreen as nat,
            ),
            final(self).compose is Normal,
            old(self).compose is Editing ==> final(self).input@ == Seq::<char>::empty(),
            !(old(self).compose is Editing) ==> final(self).input@ == old(self).input@,
            final(self).history@ == old(self).history@,
            final(self).bottom_index == old(self).bottom_index,
            final(self).id == old(self).id,
            final(self).num_onscreen == old(self).num_onscreen,
    {
        self.selection_change();
        if self.select_index >= self.num_onscreen {
            self.select_index = 0;
        } else {
            self.select_index = self.select_index + 1;
        }
    }

    /// Moves the selection one message down (newer), wrapping to the last one
    /// shown past the newest.
    pub fn select_down(&mut self)
        requires
            old(self).wf(),
        ensures
            final(self).wf(),
            selection_moved(*old(self), *final(self), select_down_index(old(self).select_index as nat, old(self).num_onscreen as nat)),
            final(self).select_index as nat == select_down_index(
                old(self).select_index as nat,
                old(self).num_onscreen as nat,
            ),
            final(self).compose is Normal,
            old(self).compose is Editing ==> final(self).input@ == Seq::<char>::empty(),
            !(old(self).compose is Editing) ==> final(self).input@ == old(self).input@,
            final(self).history@ == old(self).history@,
            final(self).bottom_index == old(self).bottom_index,
            final(self).id == old(self).id,
            final(self).num_onscreen == old(self).num_onscreen,
    {
        self.selection_change();
        if self.select_index > 0 {
            self.select_index = self.select_index - 1;
        } else if self.num_onscreen > 0 {
            self.select_index = self.num_onscreen - 1;
        } else {
            self.select_index = 0;
        }
    }

    /// Starts a reply to, or an edit of, the selected message. An edit needs a
    /// text message that the backend still lets be edited; it puts that text in
    /// the input buffer. A reply leaves the buffer as it is. Without a
    /// selected message, or one that cannot be edited, the state is normal.
    pub fn select_msg(&mut self, action: MsgAction)
        requires
            old(self).wf(),
        ensures
            final(self).wf(),
            selection_applied(*old(self), *final(self), action),
    {
        let (target, text): (i64, Option<Vec<char>>) = match self.get_selected_msg() {
            None => {
                self.compose = Compose::Normal;
                return;
            },
            Some(m) => {
                let t = match &m.text {
                    Some(s) => if m.can_be_edited {
                        Some(chars_of(s))
                    } else {
                        None
                    },
                    None => None,
                };
                (m.id, t)
            },
        };
        match action {
            MsgAction::Reply => {
                self.compose = Compose::Replying { target };
            },
            MsgAction::Edit => match text {
                Some(t) => {
                    let copy = chars_of_vec(&t);
                    self.input = t;
                    self.compose = Compose::Editing { target, original: copy };
                },
                None => {
                    self.compose = Compose::Normal;
                },
            },
        }
    }

    /// Sends the input buffer: an edit of the target while editing, else a
    /// message, in reply to the target while replying. The buffer is emptied
    /// and the compose state returns to normal.
    pub fn send_message(&mut self, queue: &mut OutgoingQueue)
        requires
            old(self).wf(),
        ensures
            final(self).wf(),
            final(queue)@.len() == old(queue)@.len() + 1,
            final(queue)@.take(old(queue)@.len() as int) == old(queue)@,
            is_submit(final(queue)@.last(), old(self).id, old(self).compose, old(self).input@),
            final(self).input@ == Seq::<char>::empty(),
            final(self).compose is Normal,
            final(self).history@ == old(self).history@,
            final(self).bottom_index == old(self).bottom_index,
            final(self).num_onscreen == old(self).num_onscreen,
            final(self).select_index == old(self).select_index,
            final(self).end_of_history == old(self).end_of_history,
            final(self).retrieving == old(self).retrieving,
            final(self).id == old(self).id,
    {
        let mut text: Vec<char> = Vec::new();
        std::mem::swap(&mut text, &mut self.input);
        let req = match self.compose {
            Compose::Editing { target, .. } => Request::EditMessage {
                chat_id: self.id,
                message_id: target,
                text,
            },
            Compose::Replying { target } => Request::SendMessage {
                chat_id: self.id,
                text,
                reply_to_message_id: target,
            },
            Compose::Normal => Request::SendMessage {
                chat_id: self.id,
                text,
                reply_to_message_id: 0,
            },
        };
        queue.push_back(req);
        self.compose = Compose::Normal;
        assert(final(queue)@.take(old(queue)@.len() as int) =~= old(queue)@);
    }
}

} // verus!
