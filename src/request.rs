use vstd::prelude::*;

verus! {

/// A request to the messaging backend.
pub enum Request {
    SetParameters { api_id: i64, api_hash: String },
    CheckEncryptionKey,
    SetPhoneNumber { phone_number: String },
    CheckCode { code: String },
    GetChatList,
    GetMe,
    GetChatHistory { chat_id: i64, from_message_id: i64, limit: i64 },
    SendMessage { chat_id: i64, text: Vec<char>, reply_to_message_id: i64 },
    EditMessage { chat_id: i64, message_id: i64, text: Vec<char> },
}

/// Requests waiting to go to the backend, oldest first.
pub struct OutgoingQueue {
    items: Vec<Request>,
}

impl View for OutgoingQueue {
    type V = Seq<Request>;

    closed spec fn view(&self) -> Seq<Request> {
        self.items@
    }
}

impl OutgoingQueue {
    pub fn new() -> (q: OutgoingQueue)
        ensures
            q@ == Seq::<Request>::empty(),
    {
        OutgoingQueue { items: Vec::new() }
    }

    pub fn len(&self) -> (n: usize)
        ensures
            n == self@.len(),
    {
        self.items.len()
    }

    /// Adds a request behind all the waiting ones.
    pub fn push_back(&mut self, r: Request)
        ensures
            final(self)@ == old(self)@.push(r),
    {
        self.items.push(r);
    }

    /// Takes every waiting request, in the order they were added.
    pub fn drain(&mut self) -> (out: Vec<Request>)
        ensures
            out@ == old(self)@,
            final(self)@ == Seq::<Request>::empty(),
    {
        let mut out: Vec<Request> = Vec::new();
        out.append(&mut self.items);
        out
    }
}

} // verus!
