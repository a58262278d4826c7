use vstd::prelude::*;

verus! {

/// Number of colors that participants' names are drawn in.
pub const PALETTE_LEN: usize = 13;

/// Whether a participant is reachable.
#[derive(Clone, Copy, PartialEq, Eq, Structural)]
pub enum Presence {
    Online,
    Offline { was_online: i64 },
    Unknown,
}

/// A participant as the backend describes it.
pub struct UserInfo {
    pub id: i64,
    pub first_name: String,
    pub last_name: String,
    /// A regular account, as opposed to a bot or a deleted one.
    pub is_regular: bool,
    pub status: Presence,
}

/// A participant with the color given to its name for the session.
pub struct Participant {
    pub info: UserInfo,
    pub color: usize,
}

/// The participants known so far.
pub struct Users {
    entries: Vec<Participant>,
}

pub open spec fn has_user(s: Seq<Participant>, id: i64) -> bool {
    exists|i: int| 0 <= i < s.len() && s[i].info.id == id
}

/// The first name under which a sender is shown.
pub open spec fn sender_name(s: Seq<Participant>, id: i64) -> Seq<char> {
    if has_user(s, id) {
        s[choose|i: int| 0 <= i < s.len() && s[i].info.id == id].info.first_name@
    } else {
        "Unknown User"@
    }
}

/// The palette index of a sender's name.
pub open spec fn sender_color(s: Seq<Participant>, id: i64) -> nat {
    if has_user(s, id) {
        s[choose|i: int| 0 <= i < s.len() && s[i].info.id == id].color as nat
    } else {
        0
    }
}

/// Whether a known participant is online and a regular account.
pub open spec fn online_regular(s: Seq<Participant>, id: i64) -> bool {
    exists|i: int|
        0 <= i < s.len() && s[i].info.id == id && s[i].info.status == Presence::Online
            && s[i].info.is_regular
}

/// The participants after the backend describes `u`: a new one is added
/// with the next palette color by count; a known one takes the new
/// description but keeps its color and presence.
pub open spec fn upserted(before: Seq<Participant>, after: Seq<Participant>, u: UserInfo) -> bool {
    if has_user(before, u.id) {
        exists|i: int|
            0 <= i < before.len() && before[i].info.id == u.id && after == before.update(
                i,
                Participant {
                    info: UserInfo { status: before[i].info.status, ..u },
                    color: before[i].color,
                },
            )
    } else {
        after == before.push(
            Participant { info: u, color: (before.len() % (PALETTE_LEN as nat)) as usize },
        )
    }
}

/// The participants after a presence update: the one with this id takes
/// the new presence, nothing else changes.
pub open spec fn status_set(before: Seq<Participant>, after: Seq<Participant>, id: i64, status: Presence) -> bool {
    &&& after.len() == before.len()
    &&& forall|i: int|
        0 <= i < before.len() ==> #[trigger] after[i] == if before[i].info.id == id {
            Participant { info: UserInfo { status, ..before[i].info }, ..before[i] }
        } else {
            before[i]
        }
}

impl View for Users {
    type V = Seq<Participant>;

    closed spec fn view(&self) -> Seq<Participant> {
        self.entries@
    }
}

impl Users {
    /// Ids are unique and every color is in the palette.
    pub open spec fn wf(&self) -> bool {
        &&& forall|i: int, j: int|
            0 <= i < j < self@.len() ==> self@[i].info.id != self@[j].info.id
        &&& forall|i: int| 0 <= i < self@.len() ==> self@[i].color < PALETTE_LEN
    }

    pub fn new() -> (u: Users)
        ensures
            u.wf(),
            u@ == Seq::<Participant>::empty(),
    {
        Users { entries: Vec::new() }
    }

    pub fn len(&self) -> (n: usize)
        ensures
            n == self@.len(),
    {
        self.entries.len()
    }

    /// The position of the participant with this id.
    pub fn find(&self, id: i64) -> (r: Option<usize>)
        requires
            self.wf(),
        ensures
            match r {
                Some(i) => i < self@.len() && self@[i as int].info.id == id,
                None => !has_user(self@, id),
            },
    {
        let mut i: usize = 0;
        while i < self.entries.len()
            invariant
                i <= self@.len(),
                forall|k: int| 0 <= k < i ==> self@[k].info.id != id,
            decreases self@.len() - i,
        {
            if self.entries[i].info.id == id {
                return Some(i);
            }
            i = i + 1;
        }
        None
    }

    pub fn get(&self, id: i64) -> (r: Option<&Participant>)
        requires
            self.wf(),
        ensures
            match r {
                Some(p) => has_user(self@, id) && p.info.id == id && *p == self@[choose|i: int|
                    0 <= i < self@.len() && self@[i].info.id == id],
                None => !has_user(self@, id),
            },
    {
        match self.find(id) {
            Some(i) => {
                proof {
                    let j = choose|j: int| 0 <= j < self@.len() && self@[j].info.id == id;
                    assert(j == i);
                }
                Some(&self.entries[i])
            },
            None => None,
        }
    }

    /// Records what the backend says of a participant. A participant seen for
    /// the first time gets the next color of the palette, by the number of
    /// participants known; one already known keeps its color and its presence.
    pub fn upsert(&mut self, u: UserInfo)
        requires
            old(self).wf(),
        ensures
            final(self).wf(),
            upserted(old(self)@, final(self)@, u),
    {
        match self.find(u.id) {
            Some(i) => {
                let st = self.entries[i].info.status;
                let c = self.entries[i].color;
                let mut u = u;
                u.status = st;
                self.entries[i] = Participant { info: u, color: c };
            },
            None => {
                let n = self.entries.len();
                let p = Participant { info: u, color: n % PALETTE_LEN };
                self.entries.push(p);
            },
        }
    }

    /// Records a participant's presence; an unknown participant is ignored.
    pub fn set_status(&mut self, id: i64, status: Presence)
        requires
            old(self).wf(),
        ensures
            final(self).wf(),
            status_set(old(self)@, final(self)@, id, status),
            final(self)@.len() == old(self)@.len(),
            forall|i: int|
                0 <= i < old(self)@.len() ==> (#[trigger] final(self)@[i]).color == old(
                    self,
                )@[i].color && final(self)@[i].info.id == old(self)@[i].info.id
                    && final(self)@[i].info.first_name == old(self)@[i].info.first_name
                    && final(self)@[i].info.last_name == old(self)@[i].info.last_name
                    && final(self)@[i].info.is_regular == old(self)@[i].info.is_regular
                    && final(self)@[i].info.status == (if final(self)@[i].info.id == id {
                    status
                } else {
                    old(self)@[i].info.status
                }),
    {
        match self.find(id) {
            Some(i) => {
                self.entries[i].info.status = status;
            },
            None => {},
        }
    }
}

} // verus!
