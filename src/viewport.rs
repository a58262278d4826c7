use vstd::prelude::*;

use crate::chat::{Conversation, backfill_limit, issues_backfill, oldest_id, wants_backfill};
use crate::message::Message;
use crate::request::{OutgoingQueue, Request};
use crate::users::{Users, sender_color, sender_name};

verus! {

/// The lines that word-wrapping `text` to `width` columns gives.
pub uninterp spec fn wrapped(text: Seq<char>, width: nat) -> Seq<Seq<char>>;

/// The widest box that text is wrapped to.
pub const MAX_WRAP_WIDTH: u16 = 256;

/// The longest text, in characters, handed to the wrapper in one call.
pub const MAX_WRAP_TEXT: usize = 8192;

/// Relies on textwrap::wrap: breaks a text into lines that fit `width`
/// columns; the lines depend on the text and the width alone.
///
/// Its optimal-fit search sums line costs in an `i32`: a break costs at most
/// 1050 plus the larger of the squared gap and 2500 for each column of
/// overflow. With `width <= 256` and at most 8192 characters (each at most
/// two columns) every sum stays below 600 million.
#[verifier::external_body]
fn wrap_text(text: &str, width: u16) -> (r: Vec<String>)
    requires
        width <= MAX_WRAP_WIDTH,
        text@.len() <= MAX_WRAP_TEXT,
    ensures
        strings_view(r@) == wrapped(text@, width as nat),
{
    textwrap::wrap(text, width as usize).into_iter().map(|l| l.into_owned()).collect()
}

/// The lines of a text of any length: wrapped piece by piece, each piece
/// at most `MAX_WRAP_TEXT` characters.
pub open spec fn wrapped_long(text: Seq<char>, width: nat) -> Seq<Seq<char>>
    decreases text.len(),
{
    if text.len() <= MAX_WRAP_TEXT {
        wrapped(text, width)
    } else {
        wrapped(text.take(MAX_WRAP_TEXT as int), width) + wrapped_long(
            text.skip(MAX_WRAP_TEXT as int),
            width,
        )
    }
}

/// Wraps a text of any length to `width` columns, piece by piece.
pub fn wrap_long(text: &String, width: u16) -> (r: Vec<String>)
    requires
        width <= MAX_WRAP_WIDTH,
    ensures
        strings_view(r@) == wrapped_long(text@, width as nat),
{
    let n = text.as_str().unicode_len();
    let mut out: Vec<String> = Vec::new();
    let mut start: usize = 0;
    assert(text@.skip(0) =~= text@);
    assert(strings_view(out@) =~= Seq::<Seq<char>>::empty());
    assert(Seq::<Seq<char>>::empty() + wrapped_long(text@, width as nat) =~= wrapped_long(
        text@,
        width as nat,
    ));
    while n - start > MAX_WRAP_TEXT
        invariant
            start <= n,
            n == text@.len(),
            width <= MAX_WRAP_WIDTH,
            strings_view(out@) + wrapped_long(text@.skip(start as int), width as nat)
                == wrapped_long(text@, width as nat),
        decreases n - start,
    {
        let piece = text.as_str().substring_char(start, start + MAX_WRAP_TEXT);
        let mut lines = wrap_text(piece, width);
        let ghost before = out@;
        let ghost lv = strings_view(lines@);
        out.append(&mut lines);
        proof {
            let t = text@.skip(start as int);
            assert(t.take(MAX_WRAP_TEXT as int) =~= piece@);
            assert(t.skip(MAX_WRAP_TEXT as int) =~= text@.skip(start + MAX_WRAP_TEXT));
            assert(strings_view(out@) =~= strings_view(before) + lv);
            assert(strings_view(before) + wrapped_long(t, width as nat) == wrapped_long(
                text@,
                width as nat,
            ));
            assert(wrapped_long(t, width as nat) == lv + wrapped_long(
                text@.skip(start + MAX_WRAP_TEXT),
                width as nat,
            ));
            assert(strings_view(before) + (lv + wrapped_long(
                text@.skip(start + MAX_WRAP_TEXT),
                width as nat,
            )) =~= strings_view(out@) + wrapped_long(text@.skip(start + MAX_WRAP_TEXT), width as nat));
        }
        start = start + MAX_WRAP_TEXT;
    }
    let piece = text.as_str().substring_char(start, n);
    let mut lines = wrap_text(piece, width);
    let ghost before = out@;
    let ghost lv = strings_view(lines@);
    out.append(&mut lines);
    proof {
        assert(text@.skip(start as int) =~= piece@);
        assert(strings_view(out@) =~= strings_view(before) + lv);
    }
    out
}

/// The characters of each string.
pub open spec fn strings_view(s: Seq<String>) -> Seq<Seq<char>> {
    s.map_values(|l: String| l@)
}

/// The lines of each item.
pub open spec fn items_view(s: Seq<Vec<String>>) -> Seq<Seq<Seq<char>>> {
    s.map_values(|v: Vec<String>| strings_view(v@))
}

/// The lines that are not empty, in order.
pub open spec fn nonempty_lines(ls: Seq<Seq<char>>) -> Seq<Seq<char>>
    decreases ls.len(),
{
    if ls.len() == 0 {
        ls
    } else {
        let r = nonempty_lines(ls.drop_last());
        if ls.last().len() > 0 {
            r.push(ls.last())
        } else {
            r
        }
    }
}

/// What a message shows as text.
pub open spec fn shown_text(m: Message) -> Seq<char> {
    match m.text {
        Some(t) => t@,
        None => "[none]"@,
    }
}

/// A message as one line of text before wrapping: `sender: text`.
pub open spec fn display_text(m: Message, users: Seq<crate::users::Participant>) -> Seq<char> {
    sender_name(users, m.sender_user_id) + ": "@ + shown_text(m)
}

/// The screen lines of a message at a given width.
pub open spec fn msg_lines(m: Message, users: Seq<crate::users::Participant>, width: nat) -> Seq<
    Seq<char>,
> {
    nonempty_lines(wrapped_long(display_text(m, users), width))
}

/// The screen lines of every message from `bottom` on, newest first.
pub open spec fn lines_from(
    h: Seq<Message>,
    bottom: int,
    users: Seq<crate::users::Participant>,
    width: nat,
) -> Seq<Seq<Seq<char>>> {
    h.skip(bottom).map_values(|m: Message| msg_lines(m, users, width))
}

/// The messages' lines that fill a box of `box_height` lines, newest message
/// first: whole messages while they fit, then the newest lines of the first
/// message that reaches the top of the box.
pub open spec fn window(ls: Seq<Seq<Seq<char>>>, box_height: nat) -> Seq<Seq<Seq<char>>>
    decreases ls.len(),
{
    if ls.len() == 0 {
        ls
    } else if ls[0].len() >= box_height {
        seq![ls[0].skip(ls[0].len() - box_height)]
    } else {
        seq![ls[0]] + window(ls.drop_first(), (box_height - ls[0].len()) as nat)
    }
}

/// Number of lines over all items.
pub open spec fn total_height(w: Seq<Seq<Seq<char>>>) -> nat
    decreases w.len(),
{
    if w.len() == 0 {
        0
    } else {
        total_height(w.drop_last()) + w.last().len()
    }
}

proof fn lemma_window_height(ls: Seq<Seq<Seq<char>>>, box_height: nat)
    ensures
        total_height(window(ls, box_height)) <= box_height,
        ls.len() > 0 ==> window(ls, box_height).len() > 0,
    decreases ls.len(),
{
    if ls.len() > 0 {
        if ls[0].len() >= box_height {
            let w = window(ls, box_height);
            assert(w.drop_last() =~= Seq::<Seq<Seq<char>>>::empty());
            assert(w.last().len() == box_height);
            assert(total_height(w.drop_last()) == 0);
        } else {
            let rest = window(ls.drop_first(), (box_height - ls[0].len()) as nat);
            lemma_window_height(ls.drop_first(), (box_height - ls[0].len()) as nat);
            lemma_total_prepend(ls[0], rest);
            assert(window(ls, box_height) == seq![ls[0]] + rest);
        }
    }
}

proof fn lemma_total_prepend(x: Seq<Seq<char>>, w: Seq<Seq<Seq<char>>>)
    ensures
        total_height(seq![x] + w) == x.len() + total_height(w),
    decreases w.len(),
{
    if w.len() > 0 {
        assert((seq![x] + w).drop_last() =~= seq![x] + w.drop_last());
        assert((seq![x] + w).last() == w.last());
        lemma_total_prepend(x, w.drop_last());
        assert(total_height(seq![x] + w) == total_height(seq![x] + w.drop_last()) + w.last().len());
        assert(total_height(w) == total_height(w.drop_last()) + w.last().len());
    } else {
        assert((seq![x] + w).drop_last() =~= Seq::<Seq<Seq<char>>>::empty());
        assert(total_height(seq![x] + w) == total_height((seq![x] + w).drop_last()) + x.len());
    }
}

/// One message on screen.
pub struct ShownMessage {
    /// Its lines, top to bottom.
    pub lines: Vec<String>,
    /// The palette index of its sender's name.
    pub sender_color: usize,
    /// Number of characters of the sender's name at the start of the first
    /// line, when the first line is shown.
    pub sender_chars: usize,
    /// Whether every line of it is shown.
    pub complete: bool,
}

/// A text word-wrapped to `width` columns, for a preview box.
pub fn preview_lines(text: &String, width: u16) -> (r: Vec<String>)
    requires
        width <= MAX_WRAP_WIDTH,
    ensures
        strings_view(r@) == wrapped_long(text@, width as nat),
{
    wrap_long(text, width)
}

/// Keeps the lines that are not empty.
pub fn keep_nonempty(lines: &Vec<String>) -> (r: Vec<String>)
    ensures
        strings_view(r@) == nonempty_lines(strings_view(lines@)),
{
    let mut r: Vec<String> = Vec::new();
    let mut i: usize = 0;
    while i < lines.len()
        invariant
            i <= lines@.len(),
            strings_view(r@) == nonempty_lines(strings_view(lines@.take(i as int))),
        decreases lines@.len() - i,
    {
        let ghost before = r@;
        if !lines[i].as_str().is_empty() {
            r.push(lines[i].clone());
        }
        proof {
            let t = strings_view(lines@.take(i + 1));
            assert(t.drop_last() =~= strings_view(lines@.take(i as int)));
            assert(t.last() == lines@[i as int]@);
            assert(strings_view(r@) =~= nonempty_lines(t));
        }
        i = i + 1;
    }
    assert(lines@.take(lines@.len() as int) =~= lines@);
    r
}

/// Fits the lines of messages, newest first, into a box of `box_height`
/// lines: whole messages while they fit, then the newest lines of the first
/// message that reaches the top. Returns the lines of each message shown.
pub fn fit_window(msgs: Vec<Vec<String>>, box_height: u16) -> (r: Vec<Vec<String>>)
    ensures
        items_view(r@) == window(items_view(msgs@), box_height as nat),
{
    let ghost all = items_view(msgs@);
    let mut rest = msgs;
    let mut out: Vec<Vec<String>> = Vec::new();
    let mut left: usize = box_height as usize;
    while rest.len() > 0
        invariant
            items_view(out@) + window(items_view(rest@), left as nat) == window(all, box_height as nat),
            left <= box_height,
            all == items_view(msgs@),
        decreases rest@.len(),
    {
        let ghost r0 = rest@;
        let mut ls = rest.remove(0);
        assert(items_view(rest@) =~= items_view(r0).drop_first());
        assert(items_view(r0)[0] == strings_view(ls@));
        let n = ls.len();
        if n >= left {
            let ghost l0 = ls@;
            while ls.len() > left
                invariant
                    ls@.len() >= left,
                    ls@.len() <= l0.len(),
                    ls@ == l0.skip(l0.len() - ls@.len()),
                decreases ls@.len(),
            {
                let ghost b = ls@;
                ls.remove(0);
                assert(ls@ =~= b.drop_first());
                assert(ls@ =~= l0.skip(l0.len() - ls@.len()));
            }
            proof {
                assert(strings_view(ls@) =~= strings_view(l0).skip(
                    strings_view(l0).len() - left,
                ));
            }
            let ghost before = items_view(out@);
            out.push(ls);
            proof {
                assert(window(items_view(r0), left as nat) == seq![strings_view(l0).skip(
                    strings_view(l0).len() - left,
                )]);
                assert(items_view(out@) =~= before + seq![strings_view(ls@)]);
                assert(items_view(out@) =~= before + window(items_view(r0), left as nat));
                assert(items_view(out@) =~= window(all, box_height as nat));
                assert(all == items_view(msgs@));
            }
            return out;
        }
        proof {
            assert(items_view(out@.push(ls)) =~= items_view(out@) + seq![strings_view(ls@)]);
            assert(items_view(out@.push(ls)) + window(items_view(rest@), (left - n) as nat) =~= items_view(out@) + window(items_view(r0), left as nat));
        }
        out.push(ls);
        left = left - n;
    }
    assert(window(items_view(rest@), left as nat) =~= Seq::<Seq<Seq<char>>>::empty());
    assert(items_view(out@) =~= window(all, box_height as nat));
    out
}


/// The lines of the messages shown.
pub open spec fn shown_lines(r: Seq<ShownMessage>) -> Seq<Seq<Seq<char>>> {
    r.map_values(|m: ShownMessage| strings_view(m.lines@))
}

/// A message as one line of text before wrapping: `sender: text`.
pub fn display_text_of(m: &Message, users: &Users) -> (r: String)
    requires
        users.wf(),
    ensures
        r@ == display_text(*m, users@),
{
    let name = match users.get(m.sender_user_id) {
        Some(p) => p.info.first_name.clone(),
        None => String::from_str("Unknown User"),
    };
    let r = name.concat(": ");
    match &m.text {
        Some(t) => r.concat(t.as_str()),
        None => r.concat("[none]"),
    }
}

/// The screen lines of a message at a given width.
pub fn message_lines(m: &Message, users: &Users, width: u16) -> (r: Vec<String>)
    requires
        width <= MAX_WRAP_WIDTH,
        users.wf(),
    ensures
        strings_view(r@) == msg_lines(*m, users@, width as nat),
{
    let text = display_text_of(m, users);
    let all = wrap_long(&text, width);
    keep_nonempty(&all)
}

/// The screen lines of every message from the window's bottom on.
fn lines_of_history(chat: &Conversation, users: &Users, width: u16, height: u16) -> (r: Vec<
    Vec<String>,
>)
    requires
        width <= MAX_WRAP_WIDTH,
        chat.wf(),
        users.wf(),
    ensures
        ({
            let all = lines_from(chat.history@, chat.bottom_index as int, users@, width as nat);
            &&& r@.len() <= all.len()
            &&& items_view(r@) == all.take(r@.len() as int)
            &&& r@.len() == all.len() || (r@.len() >= 1 && total_height(items_view(r@))
                >= height as nat)
        }),
{
    let ghost target = lines_from(chat.history@, chat.bottom_index as int, users@, width as nat);
    let mut r: Vec<Vec<String>> = Vec::new();
    let mut i: usize = chat.bottom_index;
    let mut acc: usize = 0;
    let mut done = false;
    while i < chat.history.len() && !done
        invariant
            chat.bottom_index <= i <= chat.history@.len(),
            target == lines_from(chat.history@, chat.bottom_index as int, users@, width as nat),
            target.len() == chat.history@.len() - chat.bottom_index,
            users.wf(),
            width <= MAX_WRAP_WIDTH,
            r@.len() == i - chat.bottom_index,
            items_view(r@) == target.take(i - chat.bottom_index),
            !done ==> acc == total_height(items_view(r@)) && acc <= height && (r@.len() == 0 || acc
                < height),
            done ==> r@.len() >= 1 && total_height(items_view(r@)) >= height as nat,
        decreases chat.history@.len() - i,
    {
        let ls = message_lines(&chat.history[i], users, width);
        let n = ls.len();
        let ghost before = r@;
        let ghost lv = strings_view(ls@);
        r.push(ls);
        proof {
            assert(chat.history@.skip(chat.bottom_index as int)[i - chat.bottom_index]
                == chat.history@[i as int]);
            assert(target[i - chat.bottom_index] == lv);
            assert(items_view(r@) =~= items_view(before).push(lv));
            lemma_total_push(items_view(before), lv);
        }
        if n >= height as usize - acc {
            done = true;
        } else {
            acc = acc + n;
        }
        i = i + 1;
        assert(items_view(r@) =~= target.take(i - chat.bottom_index));
    }
    r
}

proof fn lemma_total_push(w: Seq<Seq<Seq<char>>>, x: Seq<Seq<char>>)
    ensures
        total_height(w.push(x)) == total_height(w) + x.len(),
{
    assert(w.push(x).drop_last() =~= w);
}

/// The window over a prefix of the messages is the window over all of them,
/// once the prefix holds enough lines to reach the top of the box.
proof fn lemma_window_prefix(ls: Seq<Seq<Seq<char>>>, h: nat, k: int)
    requires
        0 <= k <= ls.len(),
        k == ls.len() || (k >= 1 && total_height(ls.take(k)) >= h),
    ensures
        window(ls.take(k), h) == window(ls, h),
    decreases ls.len(),
{
    if k == ls.len() {
        assert(ls.take(k) =~= ls);
    } else {
        let t = ls.take(k);
        assert(t[0] == ls[0]);
        if ls[0].len() < h {
            let rest = ls.drop_first();
            assert(t =~= seq![ls[0]] + rest.take(k - 1));
            lemma_total_prepend(ls[0], rest.take(k - 1));
            assert(t.drop_first() =~= rest.take(k - 1));
            lemma_window_prefix(rest, (h - ls[0].len()) as nat, k - 1);
        }
    }
}

/// The messages on screen for a conversation in a box of `width` by
/// `height`, newest first, starting at the window's bottom.
pub fn build_msg_list(chat: &Conversation, users: &Users, width: u16, height: u16) -> (r: Vec<
    ShownMessage,
>)
    requires
        width <= MAX_WRAP_WIDTH,
        chat.wf(),
        users.wf(),
    ensures
        shown_lines(r@) == window(
            lines_from(chat.history@, chat.bottom_index as int, users@, width as nat),
            height as nat,
        ),
        chat.bottom_index + r@.len() <= chat.history@.len(),
        forall|k: int|
            0 <= k < r@.len() ==> {
                let m = #[trigger] chat.history@[chat.bottom_index + k];
                &&& r@[k].sender_color == sender_color(users@, m.sender_user_id)
                &&& r@[k].sender_chars == sender_name(users@, m.sender_user_id).len()
                &&& r@[k].complete == (r@[k].lines@.len() == msg_lines(
                    m,
                    users@,
                    width as nat,
                ).len())
            },
{
    let part = lines_of_history(chat, users, width, height);
    let ghost all_v = lines_from(chat.history@, chat.bottom_index as int, users@, width as nat);
    let ghost part_v = items_view(part@);
    let mut rest = fit_window(part, height);
    let ghost w = items_view(rest@);
    proof {
        lemma_window_prefix(all_v, height as nat, part_v.len() as int);
        lemma_window_len(all_v, height as nat);
    }
    let mut out: Vec<ShownMessage> = Vec::new();
    let mut k: usize = 0;
    while rest.len() > 0
        invariant
            k + rest@.len() == w.len(),
            w.len() <= all_v.len(),
            all_v.len() == chat.history@.len() - chat.bottom_index,
            items_view(rest@) == w.skip(k as int),
            shown_lines(out@) == w.take(k as int),
            out@.len() == k,
            w == window(all_v, height as nat),
            all_v == lines_from(chat.history@, chat.bottom_index as int, users@, width as nat),
            chat.wf(),
            users.wf(),
            width <= MAX_WRAP_WIDTH,
            forall|j: int|
                0 <= j < k ==> {
                    let m = #[trigger] chat.history@[chat.bottom_index + j];
                    &&& out@[j].sender_color == sender_color(users@, m.sender_user_id)
                    &&& out@[j].sender_chars == sender_name(users@, m.sender_user_id).len()
                    &&& out@[j].complete == (out@[j].lines@.len() == msg_lines(
                        m,
                        users@,
                        width as nat,
                    ).len())
                },
        decreases rest@.len(),
    {
        let ghost r0 = rest@;
        let lines = rest.remove(0);
        assert(items_view(rest@) =~= items_view(r0).drop_first());
        assert(items_view(r0)[0] == strings_view(lines@));
        assert(items_view(r0) =~= w.skip(k as int));
        assert(items_view(rest@) =~= w.skip(k + 1));
        assert(strings_view(lines@) == w[k as int]);
        let hl = chat.history.len();
        assert(k < w.len());
        assert(chat.bottom_index + k < hl);
        let m = &chat.history[chat.bottom_index + k];
        let (color, chars) = match users.get(m.sender_user_id) {
            Some(p) => (p.color, p.info.first_name.as_str().unicode_len()),
            None => {
                proof {
                    reveal_strlit("Unknown User");
                }
                (0, 12)
            },
        };
        let full = message_lines(m, users, width);
        let complete = lines.len() == full.len();
        let ghost before = out@;
        out.push(ShownMessage { lines, sender_color: color, sender_chars: chars, complete });
        k = k + 1;
        assert(shown_lines(out@) =~= w.take(k as int));
        assert forall|j: int| 0 <= j < k implies {
            let m = #[trigger] chat.history@[chat.bottom_index + j];
            &&& out@[j].sender_color == sender_color(users@, m.sender_user_id)
            &&& out@[j].sender_chars == sender_name(users@, m.sender_user_id).len()
            &&& out@[j].complete == (out@[j].lines@.len() == msg_lines(
                m,
                users@,
                width as nat,
            ).len())
        } by {
            if j < k - 1 {
                assert(out@[j] == before[j]);
            }
        }
    }
    assert(w.take(k as int) =~= w);
    out
}

proof fn lemma_window_len(ls: Seq<Seq<Seq<char>>>, box_height: nat)
    ensures
        window(ls, box_height).len() <= ls.len(),
    decreases ls.len(),
{
    if ls.len() > 0 && ls[0].len() < box_height {
        lemma_window_len(ls.drop_first(), (box_height - ls[0].len()) as nat);
    }
}

/// Number of lines shown.
pub fn filled_height(r: &Vec<ShownMessage>) -> (n: usize)
    requires
        total_height(shown_lines(r@)) <= usize::MAX,
    ensures
        n == total_height(shown_lines(r@)),
{
    let mut n: usize = 0;
    let mut i: usize = 0;
    while i < r.len()
        invariant
            i <= r@.len(),
            n == total_height(shown_lines(r@).take(i as int)),
            total_height(shown_lines(r@)) <= usize::MAX,
        decreases r@.len() - i,
    {
        proof {
            let t = shown_lines(r@).take(i + 1);
            assert(t.drop_last() =~= shown_lines(r@).take(i as int));
            lemma_total_prefix(shown_lines(r@), i + 1);
        }
        n = n + r[i].lines.len();
        i = i + 1;
    }
    assert(shown_lines(r@).take(i as int) =~= shown_lines(r@));
    n
}

proof fn lemma_total_prefix(w: Seq<Seq<Seq<char>>>, i: int)
    requires
        0 <= i <= w.len(),
    ensures
        total_height(w.take(i)) <= total_height(w),
    decreases w.len() - i,
{
    if i < w.len() {
        lemma_total_prefix(w, i + 1);
        assert(w.take(i + 1).drop_last() =~= w.take(i));
        assert(total_height(w.take(i + 1)) == total_height(w.take(i + 1).drop_last()) + w.take(
            i + 1,
        ).last().len());
    } else {
        assert(w.take(i) =~= w);
    }
}

/// Redraws a conversation's window: computes the messages on screen, records
/// how many there are, and asks for older messages when the window falls
/// short of them (see `Conversation::request_more_if_needed`).
pub fn render_chat(
    chat: &mut Conversation,
    users: &Users,
    queue: &mut OutgoingQueue,
    width: u16,
    height: u16,
) -> (r: Vec<ShownMessage>)
    requires
        width <= MAX_WRAP_WIDTH,
        old(chat).wf(),
        users.wf(),
    ensures
        final(chat).wf(),
        shown_lines(r@) == window(
            lines_from(old(chat).history@, old(chat).bottom_index as int, users@, width as nat),
            height as nat,
        ),
        *final(chat) == (Conversation {
            num_onscreen: r@.len() as usize,
            retrieving: final(chat).retrieving,
            ..*old(chat)
        }),
        final(chat).num_onscreen == r@.len(),
        final(chat).history@ == old(chat).history@,
        final(chat).bottom_index == old(chat).bottom_index,
        final(chat).end_of_history == old(chat).end_of_history,
        ({
            let wanted = wants_backfill(
                old(chat).end_of_history,
                total_height(shown_lines(r@)),
                height as nat,
                old(chat).bottom_index as nat,
                r@.len() as nat,
                old(chat).history@.len(),
            );
            let start = oldest_id(old(chat).history@);
            &&& wanted ==> final(chat).retrieving == start
            &&& (wanted && issues_backfill(old(chat).retrieving, start)) ==> final(queue)@
                == old(queue)@.push(
                Request::GetChatHistory {
                    chat_id: old(chat).id,
                    from_message_id: start,
                    limit: backfill_limit(r@.len() as nat, height as nat) as i64,
                },
            )
            &&& !(wanted && issues_backfill(old(chat).retrieving, start)) ==> final(queue)@
                == old(queue)@
            &&& !wanted ==> final(chat).retrieving == old(chat).retrieving
        }),
{
    let r = build_msg_list(chat, users, width, height);
    proof {
        lemma_window_height(
            lines_from(chat.history@, chat.bottom_index as int, users@, width as nat),
            height as nat,
        );
    }
    let filled = filled_height(&r);
    chat.num_onscreen = r.len();
    chat.request_more_if_needed(queue, filled, height);
    r
}

} // verus!
