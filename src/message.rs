use vstd::prelude::*;
use vstd::string::*;

verus! {

/// A message as the conversation store keeps it.
pub struct Message {
    pub id: i64,
    pub chat_id: i64,
    pub sender_user_id: i64,
    pub date: i64,
    /// The message's text, when its content is text.
    pub text: Option<String>,
    /// The message this one answers, or 0.
    pub reply_to_message_id: i64,
    /// Whether the backend still allows this message to be edited.
    pub can_be_edited: bool,
}

/// The mathematical value of a message: its text as characters.
pub struct MessageView {
    pub id: i64,
    pub chat_id: i64,
    pub sender_user_id: i64,
    pub date: i64,
    pub text: Option<Seq<char>>,
    pub reply_to_message_id: i64,
    pub can_be_edited: bool,
}

pub open spec fn text_view(t: Option<String>) -> Option<Seq<char>> {
    match t {
        Some(s) => Some(s@),
        None => None,
    }
}

impl View for Message {
    type V = MessageView;

    open spec fn view(&self) -> MessageView {
        MessageView {
            id: self.id,
            chat_id: self.chat_id,
            sender_user_id: self.sender_user_id,
            date: self.date,
            text: text_view(self.text),
            reply_to_message_id: self.reply_to_message_id,
            can_be_edited: self.can_be_edited,
        }
    }
}

/// The link preview attached to a text message.
pub struct WebPage {
    pub site_name: String,
    pub title: String,
    pub description: String,
}

/// The content of a message payload, by its type tag.
pub enum RawContent {
    Text { text: String, web_page: Option<WebPage> },
    Sticker { emoji: String },
    Other { tag: String },
}

/// A message payload with its fields read out of the backend's event.
///
/// `decoded` records whether the payload matched the canonical message schema
/// as a whole; the identifying fields are present either way.
pub struct RawMessage {
    pub id: i64,
    pub date: i64,
    pub chat_id: i64,
    pub sender_user_id: i64,
    pub content: RawContent,
    pub decoded: bool,
    pub reply_to_message_id: i64,
    pub can_be_edited: bool,
}

/// The text that stands for a message whose payload did not decode.
pub open spec fn placeholder(c: RawContent) -> Seq<char> {
    match c {
        RawContent::Sticker { emoji } => "["@ + emoji@ + " Sticker]"@,
        RawContent::Text { text, web_page } => match web_page {
            Some(wp) => text@ + "\n"@ + wp.site_name@ + "\n"@ + wp.title@ + "\n"@
                + wp.description@,
            None => "[none]"@,
        },
        RawContent::Other { .. } => "[none]"@,
    }
}

/// The message that a payload yields: its own content when it decoded, else a
/// placeholder text, with the identifying fields taken from the payload.
pub open spec fn parsed(raw: RawMessage, chat_id: i64) -> MessageView {
    if raw.decoded {
        MessageView {
            id: raw.id,
            chat_id: raw.chat_id,
            sender_user_id: raw.sender_user_id,
            date: raw.date,
            text: match raw.content {
                RawContent::Text { text, .. } => Some(text@),
                _ => None,
            },
            reply_to_message_id: raw.reply_to_message_id,
            can_be_edited: raw.can_be_edited,
        }
    } else {
        MessageView {
            id: raw.id,
            chat_id,
            sender_user_id: raw.sender_user_id,
            date: raw.date,
            text: Some(placeholder(raw.content)),
            reply_to_message_id: 0,
            can_be_edited: false,
        }
    }
}

/// The placeholder text for a payload's content.
pub fn placeholder_text(c: &RawContent) -> (r: String)
    ensures
        r@ == placeholder(*c),
{
    match c {
        RawContent::Sticker { emoji } => {
            let r = String::from_str("[");
            let r = r.concat(emoji.as_str());
            r.concat(" Sticker]")
        },
        RawContent::Text { text, web_page } => match web_page {
            Some(wp) => {
                let r = text.clone();
                let r = r.concat("\n");
                let r = r.concat(wp.site_name.as_str());
                let r = r.concat("\n");
                let r = r.concat(wp.title.as_str());
                let r = r.concat("\n");
                r.concat(wp.description.as_str())
            },
            None => String::from_str("[none]"),
        },
        RawContent::Other { .. } => String::from_str("[none]"),
    }
}

/// Turns a payload into a message. This never fails: a payload that did not
/// decode still yields a message with its identifying fields and a placeholder
/// text.
pub fn parse_msg(raw: RawMessage, chat_id: i64) -> (m: Message)
    ensures
        m@ == parsed(raw, chat_id),
        m.id == raw.id,
        m.date == raw.date,
        m.sender_user_id == raw.sender_user_id,
        !raw.decoded ==> m.chat_id == chat_id && m.text.is_some(),
{
    if raw.decoded {
        let text = match raw.content {
            RawContent::Text { text, .. } => Some(text),
            _ => None,
        };
        Message {
            id: raw.id,
            chat_id: raw.chat_id,
            sender_user_id: raw.sender_user_id,
            date: raw.date,
            text,
            reply_to_message_id: raw.reply_to_message_id,
            can_be_edited: raw.can_be_edited,
        }
    } else {
        let text = placeholder_text(&raw.content);
        Message {
            id: raw.id,
            chat_id,
            sender_user_id: raw.sender_user_id,
            date: raw.date,
            text: Some(text),
            reply_to_message_id: 0,
            can_be_edited: false,
        }
    }
}

} // verus!
