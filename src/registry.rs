use vstd::prelude::*;

use crate::chat::Conversation;

verus! {

/// The conversations, in display order, and which one is selected.
pub struct ChatList {
    pub chat_vec: Vec<Conversation>,
    pub selected_index: usize,
}

/// Where a conversation with last activity `d` goes in a list ordered by
/// activity, newest first: after every one at least as recent.
pub open spec fn insert_pos(s: Seq<Conversation>, d: i64) -> nat
    decreases s.len(),
{
    if s.len() == 0 {
        0
    } else if s[0].last_msg_date < d {
        0
    } else {
        1 + insert_pos(s.drop_first(), d)
    }
}

/// The conversations ordered by last activity, newest first; conversations
/// with equal activity keep their order.
pub open spec fn sorted_by_activity(s: Seq<Conversation>) -> Seq<Conversation>
    decreases s.len(),
{
    if s.len() == 0 {
        s
    } else {
        let r = sorted_by_activity(s.drop_last());
        r.insert(insert_pos(r, s.last().last_msg_date) as int, s.last())
    }
}

/// Whether a conversation with this id is listed.
pub open spec fn has_chat(s: Seq<Conversation>, id: i64) -> bool {
    exists|i: int| 0 <= i < s.len() && s[i].id == id
}

/// No two conversations share an id.
pub open spec fn chat_ids_unique(s: Seq<Conversation>) -> bool {
    forall|i: int, j: int| 0 <= i < s.len() && 0 <= j < s.len() && i != j ==> s[i].id != s[j].id
}

/// Sorting keeps conversation ids unique.
pub proof fn lemma_sort_unique(s: Seq<Conversation>)
    requires
        chat_ids_unique(s),
    ensures
        chat_ids_unique(sorted_by_activity(s)),
    decreases s.len(),
{
    if s.len() > 0 {
        let p = s.drop_last();
        assert(chat_ids_unique(p)) by {
            assert forall|i: int, j: int| 0 <= i < p.len() && 0 <= j < p.len() && i != j implies p[i].id
                != p[j].id by {
                assert(p[i] == s[i] && p[j] == s[j]);
            }
        }
        lemma_sort_unique(p);
        lemma_sort_len(p);
        let r = sorted_by_activity(p);
        let x = s.last();
        lemma_insert_pos_bound(r, x.last_msg_date);
        let pos = insert_pos(r, x.last_msg_date) as int;
        let out = r.insert(pos, x);
        assert forall|j: int| 0 <= j < r.len() implies r[j].id != x.id by {
            lemma_sort_member(p, j);
            let k = choose|k: int| 0 <= k < p.len() && r[j] == p[k];
            assert(p[k] == s[k]);
            assert(s[s.len() - 1] == x);
        }
        assert forall|i: int, j: int| 0 <= i < out.len() && 0 <= j < out.len() && i != j implies out[i].id
            != out[j].id by {
            let ri = if i < pos { i } else { i - 1 };
            let rj = if j < pos { j } else { j - 1 };
            if i != pos && j != pos {
                assert(out[i] == r[ri] && out[j] == r[rj]);
            } else if i == pos {
                assert(out[j] == r[rj]);
            } else {
                assert(out[i] == r[ri]);
            }
        }
    }
}

/// Ordered by last activity, newest first.
pub open spec fn is_by_activity(s: Seq<Conversation>) -> bool {
    forall|i: int, j: int| 0 <= i < j < s.len() ==> s[i].last_msg_date >= s[j].last_msg_date
}

proof fn lemma_insert_pos(s: Seq<Conversation>, d: i64, i: int)
    requires
        0 <= i <= s.len(),
        forall|j: int| 0 <= j < i ==> s[j].last_msg_date >= d,
        i == s.len() || s[i].last_msg_date < d,
    ensures
        insert_pos(s, d) == i,
    decreases s.len(),
{
    if s.len() > 0 && i > 0 {
        lemma_insert_pos(s.drop_first(), d, i - 1);
    }
}

proof fn lemma_insert_pos_bound(s: Seq<Conversation>, d: i64)
    ensures
        insert_pos(s, d) <= s.len(),
        forall|j: int| 0 <= j < insert_pos(s, d) ==> s[j].last_msg_date >= d,
        insert_pos(s, d) < s.len() ==> s[insert_pos(s, d) as int].last_msg_date < d,
    decreases s.len(),
{
    if s.len() > 0 && s[0].last_msg_date >= d {
        lemma_insert_pos_bound(s.drop_first(), d);
        assert forall|j: int| 0 <= j < insert_pos(s, d) implies s[j].last_msg_date >= d by {
            if j > 0 {
                assert(s[j] == s.drop_first()[j - 1]);
            }
        }
    }
}

/// Sorting keeps every conversation: each one listed before is listed after.
pub proof fn lemma_sort_keeps(s: Seq<Conversation>, k: int)
    requires
        0 <= k < s.len(),
    ensures
        sorted_by_activity(s).len() == s.len(),
        exists|j: int| 0 <= j < s.len() && sorted_by_activity(s)[j] == s[k],
    decreases s.len(),
{
    let p = s.drop_last();
    lemma_sort_len(p);
    let r = sorted_by_activity(p);
    lemma_insert_pos_bound(r, s.last().last_msg_date);
    let pos = insert_pos(r, s.last().last_msg_date) as int;
    let out = r.insert(pos, s.last());
    assert(out == sorted_by_activity(s));
    if k == s.len() - 1 {
        assert(out[pos] == s[k]);
    } else {
        lemma_sort_keeps(p, k);
        let j = choose|j: int| 0 <= j < p.len() && r[j] == p[k];
        if j < pos {
            assert(out[j] == s[k]);
        } else {
            assert(out[j + 1] == s[k]);
        }
    }
}

proof fn lemma_sort_len(s: Seq<Conversation>)
    ensures
        sorted_by_activity(s).len() == s.len(),
    decreases s.len(),
{
    if s.len() > 0 {
        lemma_sort_len(s.drop_last());
        lemma_insert_pos_bound(
            sorted_by_activity(s.drop_last()),
            s.last().last_msg_date,
        );
    }
}

/// The sorted list is ordered by last activity, newest first.
pub proof fn lemma_sort_ordered(s: Seq<Conversation>)
    ensures
        is_by_activity(sorted_by_activity(s)),
    decreases s.len(),
{
    if s.len() > 0 {
        let r = sorted_by_activity(s.drop_last());
        lemma_sort_ordered(s.drop_last());
        let d = s.last().last_msg_date;
        lemma_insert_pos_bound(r, d);
        let pos = insert_pos(r, d) as int;
        let out = r.insert(pos, s.last());
        assert forall|i: int, j: int| 0 <= i < j < out.len() implies out[i].last_msg_date
            >= out[j].last_msg_date by {
            if j < pos {
            } else if j == pos {
                assert(out[i] == r[i]);
            } else if i < pos {
                assert(out[j] == r[j - 1]);
                assert(r[pos].last_msg_date < d);
            } else if i == pos {
                assert(out[j] == r[j - 1]);
                assert(r[pos].last_msg_date < d);
                if j - 1 > pos {
                    assert(r[pos].last_msg_date >= r[j - 1].last_msg_date);
                }
            } else {
                assert(out[i] == r[i - 1]);
                assert(out[j] == r[j - 1]);
            }
        }
    }
}

/// The selection after moving up a list of `n` conversations: from the first
/// to the last.
pub open spec fn list_up(sel: nat, n: nat) -> nat {
    if n == 0 {
        sel
    } else if sel == 0 {
        (n - 1) as nat
    } else {
        ((sel - 1) as nat % n) as nat
    }
}

/// The selection after moving down a list of `n` conversations: from the
/// last to the first.
pub open spec fn list_down(sel: nat, n: nat) -> nat {
    if n == 0 {
        sel
    } else {
        ((sel + 1) % n) as nat
    }
}

impl ChatList {
    /// Every conversation is well formed.
    pub open spec fn wf(&self) -> bool {
        &&& forall|i: int| 0 <= i < self.chat_vec@.len() ==> (#[trigger] self.chat_vec@[i]).wf()
        &&& chat_ids_unique(self.chat_vec@)
    }

    pub fn new() -> (l: ChatList)
        ensures
            l.wf(),
            l.chat_vec@.len() == 0,
            l.selected_index == 0,
    {
        ChatList { chat_vec: Vec::new(), selected_index: 0 }
    }

    /// Number of conversations.
    pub fn get_len(&self) -> (n: usize)
        ensures
            n == self.chat_vec@.len(),
    {
        self.chat_vec.len()
    }

    pub fn selected_index(&self) -> (i: usize)
        ensures
            i == self.selected_index,
    {
        self.selected_index
    }

    pub fn set_selected_index(&mut self, i: usize)
        ensures
            final(self).selected_index == i,
            final(self).chat_vec@ == old(self).chat_vec@,
    {
        self.selected_index = i;
    }

    /// The position of the first conversation with this id.
    pub fn get_chat_by_id(&self, chat_id: i64) -> (r: Option<usize>)
        ensures
            match r {
                Some(i) => i < self.chat_vec@.len() && self.chat_vec@[i as int].id == chat_id
                    && forall|j: int| 0 <= j < i ==> self.chat_vec@[j].id != chat_id,
                None => !has_chat(self.chat_vec@, chat_id),
            },
    {
        let mut i: usize = 0;
        while i < self.chat_vec.len()
            invariant
                i <= self.chat_vec@.len(),
                forall|j: int| 0 <= j < i ==> self.chat_vec@[j].id != chat_id,
            decreases self.chat_vec@.len() - i,
        {
            if self.chat_vec[i].id == chat_id {
                return Some(i);
            }
            i = i + 1;
        }
        None
    }

    /// The id of the conversation at position `i`.
    pub fn get_chat_id_by_index(&self, i: usize) -> (r: Option<i64>)
        ensures
            i < self.chat_vec@.len() ==> r == Some(self.chat_vec@[i as int].id),
            i >= self.chat_vec@.len() ==> r is None,
    {
        if i < self.chat_vec.len() {
            Some(self.chat_vec[i].id)
        } else {
            None
        }
    }

    /// Selects the previous conversation, wrapping from the first to the last.
    /// An empty list is left as it is.
    pub fn scroll_up(&mut self)
        ensures
            final(self).chat_vec@ == old(self).chat_vec@,
            final(self).selected_index as nat == list_up(
                old(self).selected_index as nat,
                old(self).chat_vec@.len(),
            ),
    {
        let n = self.chat_vec.len();
        if n == 0 {
            return;
        }
        if self.selected_index == 0 {
            self.selected_index = n - 1;
        } else {
            self.selected_index = (self.selected_index - 1) % n;
        }
    }

    /// Selects the next conversation, wrapping from the last to the first.
    /// An empty list is left as it is.
    pub fn scroll_down(&mut self)
        ensures
            final(self).chat_vec@ == old(self).chat_vec@,
            final(self).selected_index as nat == list_down(
                old(self).selected_index as nat,
                old(self).chat_vec@.len(),
            ),
    {
        let n = self.chat_vec.len();
        if n == 0 {
            return;
        }
        let s = self.selected_index;
        let r = s % n;
        if r + 1 == n {
            self.selected_index = 0;
        } else {
            self.selected_index = r + 1;
        }
        assert((s as int + 1) % (n as int) == if (s as int % n as int) + 1 == n as int {
            0
        } else {
            (s as int % n as int) + 1
        }) by (nonlinear_arith)
            requires
                n > 0,
        ;
    }

    /// Orders the conversations by last activity, newest first, keeping the
    /// order of those with equal activity. The selected conversation stays
    /// selected: the index follows it to where it now stands.
    pub fn sort(&mut self)
        requires
            old(self).wf(),
        ensures
            final(self).wf(),
            final(self).chat_vec@.len() == old(self).chat_vec@.len(),
            final(self).chat_vec@ == sorted_by_activity(old(self).chat_vec@),
            is_by_activity(final(self).chat_vec@),
            old(self).selected_index >= old(self).chat_vec@.len() ==> final(self).selected_index
                == old(self).selected_index,
            old(self).selected_index < old(self).chat_vec@.len() ==> {
                &&& final(self).selected_index < final(self).chat_vec@.len()
                &&& final(self).chat_vec@[final(self).selected_index as int].id == old(
                    self,
                ).chat_vec@[old(self).selected_index as int].id
            },
    {
        let selected = self.get_chat_id_by_index(self.selected_index);
        let ghost orig = self.chat_vec@;
        let mut rest: Vec<Conversation> = Vec::new();
        std::mem::swap(&mut rest, &mut self.chat_vec);
        let mut out: Vec<Conversation> = Vec::new();
        let ghost mut k: int = 0;
        while rest.len() > 0
            invariant
                0 <= k <= orig.len(),
                rest@ == orig.skip(k),
                out@ == sorted_by_activity(orig.take(k)),
                forall|i: int| 0 <= i < orig.len() ==> (#[trigger] orig[i]).wf(),
            decreases rest@.len(),
        {
            let ghost r0 = rest@;
            let c = rest.remove(0);
            assert(c == orig[k]);
            assert(rest@ =~= orig.skip(k + 1));
            let d = c.last_msg_date;
            let mut p: usize = 0;
            while p < out.len() && out[p].last_msg_date >= d
                invariant
                    p <= out@.len(),
                    forall|j: int| 0 <= j < p ==> out@[j].last_msg_date >= d,
                decreases out@.len() - p,
            {
                p = p + 1;
            }
            proof {
                lemma_insert_pos(out@, d, p as int);
                assert(orig.take(k + 1).drop_last() =~= orig.take(k));
            }
            out.insert(p, c);
            proof {
                k = k + 1;
            }
        }
        assert(orig.take(k) =~= orig);
        self.chat_vec = out;
        proof {
            lemma_sort_len(orig);
            assert forall|i: int| 0 <= i < self.chat_vec@.len() implies (#[trigger] self.chat_vec@[
                i]).wf() by {
                lemma_sort_member(orig, i);
            }
            lemma_sort_ordered(orig);
            lemma_sort_unique(orig);
            if self.selected_index < orig.len() {
                lemma_sort_keeps(orig, self.selected_index as int);
            }
        }
        if let Some(id_of_selected) = selected {
            match self.get_chat_by_id(id_of_selected) {
                Some(i) => {
                    self.selected_index = i;
                },
                None => {},
            }
        }
    }
}

proof fn lemma_sort_member(s: Seq<Conversation>, j: int)
    requires
        0 <= j < sorted_by_activity(s).len(),
    ensures
        exists|k: int| 0 <= k < s.len() && sorted_by_activity(s)[j] == s[k],
    decreases s.len(),
{
    let p = s.drop_last();
    lemma_sort_len(p);
    lemma_sort_len(s);
    let r = sorted_by_activity(p);
    lemma_insert_pos_bound(r, s.last().last_msg_date);
    let pos = insert_pos(r, s.last().last_msg_date) as int;
    if j == pos {
        assert(sorted_by_activity(s)[j] == s[s.len() - 1]);
    } else if j < pos {
        lemma_sort_member(p, j);
        let k = choose|k: int| 0 <= k < p.len() && r[j] == p[k];
        assert(sorted_by_activity(s)[j] == s[k]);
    } else {
        lemma_sort_member(p, j - 1);
        let k = choose|k: int| 0 <= k < p.len() && r[j - 1] == p[k];
        assert(sorted_by_activity(s)[j] == s[k]);
    }
}

} // verus!
