use vstd::prelude::*;
use vstd::string::*;

use crate::chat::ChatKind;
use crate::handshake::AuthState;
use crate::json::{
    Json,
    bool_of,
    get_bool,
    get_int,
    get_member,
    get_text,
    int_of,
    is_text,
    member,
    opt_val,
    tag_of,
    text_or_empty,
};
use crate::message::{RawContent, RawMessage, WebPage};
use crate::session::Event;
use crate::users::{Presence, UserInfo};

verus! {

/// A participant's presence from its status object.
pub open spec fn presence_spec(o: Option<Json>) -> Presence {
    if tag_of(o) == Some("userStatusOnline"@) {
        Presence::Online
    } else if tag_of(o) == Some("userStatusOffline"@) {
        Presence::Offline {
            was_online: match int_of(member(o, "was_online"@)) {
                Some(n) => n,
                None => 0,
            },
        }
    } else {
        Presence::Unknown
    }
}

/// Reads a participant's presence.
pub fn presence_of(o: Option<&Json>) -> (r: Presence)
    ensures
        r == presence_spec(opt_val(o)),
{
    let t = get_member(o, "@type");
    if is_text(t, "userStatusOnline") {
        Presence::Online
    } else if is_text(t, "userStatusOffline") {
        let w = match get_int(get_member(o, "was_online")) {
            Some(n) => n,
            None => 0,
        };
        Presence::Offline { was_online: w }
    } else {
        Presence::Unknown
    }
}

/// A participant read from a user object.
pub open spec fn user_matches(u: UserInfo, o: Option<Json>) -> bool {
    &&& int_of(member(o, "id"@)) == Some(u.id)
    &&& u.first_name@ == text_or_empty(member(o, "first_name"@))
    &&& u.last_name@ == text_or_empty(member(o, "last_name"@))
    &&& u.is_regular == (tag_of(member(o, "type"@)) == Some("userTypeRegular"@))
    &&& u.status == presence_spec(member(o, "status"@))
}

/// Reads a participant; an object without an id gives none.
pub fn user_of(o: Option<&Json>) -> (r: Option<UserInfo>)
    ensures
        r is Some <==> int_of(member(opt_val(o), "id"@)) is Some,
        r is Some ==> user_matches(r->0, opt_val(o)),
{
    let id = match get_int(get_member(o, "id")) {
        Some(id) => id,
        None => return None,
    };
    Some(
        UserInfo {
            id,
            first_name: get_text(get_member(o, "first_name")),
            last_name: get_text(get_member(o, "last_name")),
            is_regular: is_text(get_member(get_member(o, "type"), "@type"), "userTypeRegular"),
            status: presence_of(get_member(o, "status")),
        },
    )
}

/// The sender of a message payload, under any of the names the backend has
/// used for it.
pub open spec fn sender_spec(m: Option<Json>) -> Option<i64> {
    match int_of(member(member(m, "sender"@), "user_id"@)) {
        Some(x) => Some(x),
        None => match int_of(member(member(m, "sender_id"@), "user_id"@)) {
            Some(x) => Some(x),
            None => int_of(member(m, "sender_user_id"@)),
        },
    }
}

/// Whether a message payload has the fields every message needs.
pub open spec fn raw_ok(m: Option<Json>) -> bool {
    &&& int_of(member(m, "id"@)) is Some
    &&& int_of(member(m, "date"@)) is Some
    &&& int_of(member(m, "chat_id"@)) is Some
    &&& sender_spec(m) is Some
}

/// A link preview read from its object; none when absent or null.
pub open spec fn web_page_matches(w: Option<WebPage>, o: Option<Json>) -> bool {
    match o {
        None => w is None,
        Some(Json::Null) => w is None,
        Some(_) => w is Some && w->0.site_name@ == text_or_empty(member(o, "site_name"@))
            && w->0.title@ == text_or_empty(member(o, "title"@)) && w->0.description@
            == text_or_empty(member(member(o, "description"@), "text"@)),
    }
}

/// A message content read from its object, by its type tag.
pub open spec fn content_matches(c: RawContent, o: Option<Json>) -> bool {
    if tag_of(o) == Some("messageText"@) {
        &&& c is Text
        &&& c->Text_text@ == text_or_empty(member(member(o, "text"@), "text"@))
        &&& web_page_matches(c->Text_web_page, member(o, "web_page"@))
    } else if tag_of(o) == Some("messageSticker"@) {
        c is Sticker && c->Sticker_emoji@ == text_or_empty(member(member(o, "sticker"@), "emoji"@))
    } else {
        c is Other && c->Other_tag@ == text_or_empty(member(o, "@type"@))
    }
}

/// A message payload read from its object.
pub open spec fn raw_matches(r: RawMessage, m: Option<Json>, decoded: bool) -> bool {
    &&& int_of(member(m, "id"@)) == Some(r.id)
    &&& int_of(member(m, "date"@)) == Some(r.date)
    &&& int_of(member(m, "chat_id"@)) == Some(r.chat_id)
    &&& sender_spec(m) == Some(r.sender_user_id)
    &&& content_matches(r.content, member(m, "content"@))
    &&& r.decoded == decoded
    &&& r.reply_to_message_id == match int_of(member(m, "reply_to_message_id"@)) {
        Some(n) => n,
        None => 0,
    }
    &&& r.can_be_edited == (bool_of(member(m, "can_be_edited"@)) == Some(true))
}

fn sender_of(m: Option<&Json>) -> (r: Option<i64>)
    ensures
        r == sender_spec(opt_val(m)),
{
    match get_int(get_member(get_member(m, "sender"), "user_id")) {
        Some(x) => Some(x),
        None => match get_int(get_member(get_member(m, "sender_id"), "user_id")) {
            Some(x) => Some(x),
            None => get_int(get_member(m, "sender_user_id")),
        },
    }
}

fn web_page_of(o: Option<&Json>) -> (r: Option<WebPage>)
    ensures
        web_page_matches(r, opt_val(o)),
{
    match o {
        None => None,
        Some(Json::Null) => None,
        Some(_) => Some(
            WebPage {
                site_name: get_text(get_member(o, "site_name")),
                title: get_text(get_member(o, "title")),
                description: get_text(get_member(get_member(o, "description"), "text")),
            },
        ),
    }
}

fn content_of(o: Option<&Json>) -> (r: RawContent)
    ensures
        content_matches(r, opt_val(o)),
{
    let t = get_member(o, "@type");
    if is_text(t, "messageText") {
        RawContent::Text {
            text: get_text(get_member(get_member(o, "text"), "text")),
            web_page: web_page_of(get_member(o, "web_page")),
        }
    } else if is_text(t, "messageSticker") {
        RawContent::Sticker { emoji: get_text(get_member(get_member(o, "sticker"), "emoji")) }
    } else {
        RawContent::Other { tag: get_text(t) }
    }
}

/// Reads a message payload. `decoded` says whether the payload as a whole
/// matched the backend's message schema. A payload without an id, a date, a
/// chat or a sender gives none.
pub fn raw_message_of(m: Option<&Json>, decoded: bool) -> (r: Option<RawMessage>)
    ensures
        r is Some <==> raw_ok(opt_val(m)),
        r is Some ==> raw_matches(r->0, opt_val(m), decoded),
{
    let id = match get_int(get_member(m, "id")) {
        Some(x) => x,
        None => return None,
    };
    let date = match get_int(get_member(m, "date")) {
        Some(x) => x,
        None => return None,
    };
    let chat_id = match get_int(get_member(m, "chat_id")) {
        Some(x) => x,
        None => return None,
    };
    let sender_user_id = match sender_of(m) {
        Some(x) => x,
        None => return None,
    };
    let reply_to_message_id = match get_int(get_member(m, "reply_to_message_id")) {
        Some(n) => n,
        None => 0,
    };
    let can_be_edited = match get_bool(get_member(m, "can_be_edited")) {
        Some(b) => b,
        None => false,
    };
    Some(
        RawMessage {
            id,
            date,
            chat_id,
            sender_user_id,
            content: content_of(get_member(m, "content")),
            decoded,
            reply_to_message_id,
            can_be_edited,
        },
    )
}

/// What kind of conversation a chat type object describes.
pub open spec fn chat_kind_spec(t: Option<Json>) -> ChatKind {
    if tag_of(t) == Some("chatTypePrivate"@) {
        ChatKind::Private {
            user_id: match int_of(member(t, "user_id"@)) {
                Some(n) => n,
                None => 0,
            },
        }
    } else if tag_of(t) == Some("chatTypeBasicGroup"@) {
        ChatKind::BasicGroup {
            group_id: match int_of(member(t, "basic_group_id"@)) {
                Some(n) => n,
                None => 0,
            },
        }
    } else {
        ChatKind::Other
    }
}

/// Reads what kind of conversation a chat type object describes.
pub fn chat_kind_of(t: Option<&Json>) -> (r: ChatKind)
    ensures
        r == chat_kind_spec(opt_val(t)),
{
    let tag = get_member(t, "@type");
    if is_text(tag, "chatTypePrivate") {
        let user_id = match get_int(get_member(t, "user_id")) {
            Some(n) => n,
            None => 0,
        };
        ChatKind::Private { user_id }
    } else if is_text(tag, "chatTypeBasicGroup") {
        let group_id = match get_int(get_member(t, "basic_group_id")) {
            Some(n) => n,
            None => 0,
        };
        ChatKind::BasicGroup { group_id }
    } else {
        ChatKind::Other
    }
}

/// The authorization state an object describes.
pub open spec fn auth_state_spec(o: Option<Json>) -> AuthState {
    let t = tag_of(o);
    if t == Some("authorizationStateWaitTdlibParameters"@) {
        AuthState::WaitTdlibParameters
    } else if t == Some("authorizationStateWaitEncryptionKey"@) {
        AuthState::WaitEncryptionKey
    } else if t == Some("authorizationStateWaitPhoneNumber"@) {
        AuthState::WaitPhoneNumber
    } else if t == Some("authorizationStateWaitCode"@) {
        AuthState::WaitCode
    } else if t == Some("authorizationStateReady"@) {
        AuthState::Ready
    } else {
        AuthState::Other
    }
}

/// Reads the authorization state an object describes.
pub fn auth_state_of(o: Option<&Json>) -> (r: AuthState)
    ensures
        r == auth_state_spec(opt_val(o)),
{
    let t = get_member(o, "@type");
    if is_text(t, "authorizationStateWaitTdlibParameters") {
        AuthState::WaitTdlibParameters
    } else if is_text(t, "authorizationStateWaitEncryptionKey") {
        AuthState::WaitEncryptionKey
    } else if is_text(t, "authorizationStateWaitPhoneNumber") {
        AuthState::WaitPhoneNumber
    } else if is_text(t, "authorizationStateWaitCode") {
        AuthState::WaitCode
    } else if is_text(t, "authorizationStateReady") {
        AuthState::Ready
    } else {
        AuthState::Other
    }
}

/// The user id of a group member object, under either name.
pub open spec fn member_id_spec(m: Json) -> Option<i64> {
    match int_of(member(Some(m), "user_id"@)) {
        Some(x) => Some(x),
        None => int_of(member(member(Some(m), "member_id"@), "user_id"@)),
    }
}

/// The ids of the member objects that have one, in order.
pub open spec fn member_ids_spec(arr: Seq<Json>) -> Seq<i64>
    decreases arr.len(),
{
    if arr.len() == 0 {
        Seq::empty()
    } else {
        let r = member_ids_spec(arr.drop_last());
        match member_id_spec(arr.last()) {
            Some(x) => r.push(x),
            None => r,
        }
    }
}

/// The array under a value, or nothing.
pub open spec fn array_of(o: Option<Json>) -> Seq<Json> {
    match o {
        Some(Json::Array(v)) => v@,
        _ => Seq::empty(),
    }
}

/// Reads the ids of a group's members.
pub fn member_ids_of(o: Option<&Json>) -> (r: Vec<i64>)
    ensures
        r@ == member_ids_spec(array_of(opt_val(o))),
{
    let arr = match o {
        Some(Json::Array(v)) => v,
        _ => return Vec::new(),
    };
    let mut out: Vec<i64> = Vec::new();
    let mut i: usize = 0;
    while i < arr.len()
        invariant
            i <= arr@.len(),
            out@ == member_ids_spec(arr@.take(i as int)),
        decreases arr@.len() - i,
    {
        let m = &arr[i];
        let id = match get_int(get_member(Some(m), "user_id")) {
            Some(x) => Some(x),
            None => get_int(get_member(get_member(Some(m), "member_id"), "user_id")),
        };
        match id {
            Some(x) => {
                out.push(x);
            },
            None => {},
        }
        proof {
            let t = arr@.take(i + 1);
            assert(t.drop_last() =~= arr@.take(i as int));
            assert(t.last() == arr@[i as int]);
        }
        i = i + 1;
    }
    assert(arr@.take(arr@.len() as int) =~= arr@);
    out
}

/// Whether the payload at position `k` of a batch decoded as a whole.
pub open spec fn flag(decoded: Seq<bool>, k: int) -> bool {
    if 0 <= k < decoded.len() {
        decoded[k]
    } else {
        false
    }
}

/// The payloads of a batch read one for one, skipping those without the
/// fields every message needs.
pub open spec fn batch_matches(rs: Seq<RawMessage>, arr: Seq<Json>, decoded: Seq<bool>) -> bool
    decreases arr.len(),
{
    if arr.len() == 0 {
        rs.len() == 0
    } else {
        let k = arr.len() - 1;
        if raw_ok(Some(arr[k])) {
            rs.len() > 0 && raw_matches(rs.last(), Some(arr[k]), flag(decoded, k))
                && batch_matches(rs.drop_last(), arr.drop_last(), decoded)
        } else {
            batch_matches(rs, arr.drop_last(), decoded)
        }
    }
}

/// Reads the payloads of a batch.
pub fn batch_of(o: Option<&Json>, decoded: &Vec<bool>) -> (r: Vec<RawMessage>)
    ensures
        batch_matches(r@, array_of(opt_val(o)), decoded@),
{
    let arr = match o {
        Some(Json::Array(v)) => v,
        _ => return Vec::new(),
    };
    let mut out: Vec<RawMessage> = Vec::new();
    let mut i: usize = 0;
    while i < arr.len()
        invariant
            i <= arr@.len(),
            batch_matches(out@, arr@.take(i as int), decoded@),
        decreases arr@.len() - i,
    {
        let d = if i < decoded.len() {
            decoded[i]
        } else {
            false
        };
        let ghost before = out@;
        match raw_message_of(Some(&arr[i]), d) {
            Some(r) => {
                out.push(r);
                assert(out@.drop_last() =~= before);
            },
            None => {},
        }
        proof {
            let t = arr@.take(i + 1);
            assert(t.drop_last() =~= arr@.take(i as int));
            assert(t[i as int] == arr@[i as int]);
        }
        i = i + 1;
    }
    assert(arr@.take(arr@.len() as int) =~= arr@);
    out
}


/// The event tags that carry something the session reads.
pub open spec fn known_tag(t: Seq<char>) -> bool {
    t == "updateAuthorizationState"@ || t == "updateUser"@ || t == "updateUserStatus"@ || t == "updateBasicGroup"@ || t == "updateBasicGroupFullInfo"@ || t == "updateNewChat"@ || t == "updateChatLastMessage"@ || t == "updateNewMessage"@ || t == "messages"@ || t == "error"@ || t == "user"@
}

/// The conversation a batch answers: the one named in the request's
/// `@extra`, else the one of its first message.
pub open spec fn batch_chat_spec(o: Option<Json>) -> Option<i64> {
    match int_of(member(o, "@extra"@)) {
        Some(x) => Some(x),
        None => {
            let arr = array_of(member(o, "messages"@));
            if arr.len() > 0 {
                int_of(member(Some(arr[0]), "chat_id"@))
            } else {
                None
            }
        },
    }
}

/// The conversation a batch answers.
fn batch_chat_of(o: Option<&Json>) -> (r: Option<i64>)
    ensures
        r == batch_chat_spec(opt_val(o)),
{
    match get_int(get_member(o, "@extra")) {
        Some(x) => Some(x),
        None => match get_member(o, "messages") {
            Some(Json::Array(v)) => {
                if v.len() > 0 {
                    get_int(get_member(Some(&v[0]), "chat_id"))
                } else {
                    None
                }
            },
            _ => None,
        },
    }
}

/// Classifies a backend event by its type tag and reads its payload.
/// `decoded` says, for each message payload in it, whether that payload
/// matched the backend's message schema as a whole. An event without a tag,
/// or without the fields its kind needs, gives none; one of a kind the
/// session does not read gives `Other`.
pub fn event_of(j: &Json, decoded: &Vec<bool>) -> (r: Option<Event>)
    ensures
        ({
            let o = Some(*j);
            let t = tag_of(o);
            &&& t is None ==> r is None
            &&& t == Some("updateAuthorizationState"@) ==> r == Some(
                Event::AuthorizationState(auth_state_spec(member(o, "authorization_state"@))),
            )
            &&& t == Some("updateUser"@) ==> (r is Some <==> int_of(
                member(member(o, "user"@), "id"@),
            ) is Some) && (r is Some ==> r->0 is User && user_matches(
                r->0->User_0,
                member(o, "user"@),
            ))
            &&& t == Some("updateUserStatus"@) ==> (r is Some <==> int_of(member(o, "user_id"@)) is Some)
                && (r is Some ==> r->0 == Event::UserStatus {
                user_id: int_of(member(o, "user_id"@))->0,
                status: presence_spec(member(o, "status"@)),
            })
            &&& t == Some("updateBasicGroup"@) ==> (r is Some <==> int_of(
                member(member(o, "basic_group"@), "id"@),
            ) is Some) && (r is Some ==> r->0 == Event::BasicGroup {
                id: int_of(member(member(o, "basic_group"@), "id"@))->0,
                member_count: match int_of(member(member(o, "basic_group"@), "member_count"@)) {
                    Some(n) => n,
                    None => 0,
                },
            })
            &&& t == Some("updateBasicGroupFullInfo"@) ==> (r is Some <==> int_of(
                member(o, "basic_group_id"@),
            ) is Some) && (r is Some ==> r->0 is BasicGroupFullInfo
                && r->0->BasicGroupFullInfo_id == int_of(member(o, "basic_group_id"@))->0
                && r->0->BasicGroupFullInfo_member_ids@ == member_ids_spec(
                array_of(member(member(o, "basic_group_full_info"@), "members"@)),
            ))
            &&& t == Some("updateNewChat"@) ==> (r is Some <==> int_of(
                member(member(o, "chat"@), "id"@),
            ) is Some) && (r is Some ==> r->0 is NewChat && r->0->NewChat_id == int_of(
                member(member(o, "chat"@), "id"@),
            )->0 && r->0->NewChat_title@ == text_or_empty(member(member(o, "chat"@), "title"@))
                && r->0->NewChat_kind == chat_kind_spec(member(member(o, "chat"@), "type"@)))
            &&& t == Some("updateChatLastMessage"@) ==> (r is Some <==> (int_of(
                member(o, "chat_id"@),
            ) is Some && int_of(member(member(o, "last_message"@), "date"@)) is Some)) && (r is Some
                ==> r->0 == Event::ChatLastMessage {
                chat_id: int_of(member(o, "chat_id"@))->0,
                date: int_of(member(member(o, "last_message"@), "date"@))->0,
            })
            &&& t == Some("updateNewMessage"@) ==> (r is Some <==> raw_ok(member(o, "message"@)))
                && (r is Some ==> r->0 is NewMessage && raw_matches(
                r->0->NewMessage_0,
                member(o, "message"@),
                flag(decoded@, 0),
            ))
            &&& t == Some("messages"@) ==> (r is Some <==> batch_chat_spec(o) is Some) && (r is Some
                ==> r->0 is Messages && r->0->Messages_chat_id == batch_chat_spec(o)->0
                && batch_matches(
                r->0->Messages_messages@,
                array_of(member(o, "messages"@)),
                decoded@,
            ))
            &&& t == Some("error"@) ==> r is Some && r->0 is Error && r->0->Error_message@
                == text_or_empty(member(o, "message"@))
            &&& t == Some("user"@) ==> (r is Some <==> int_of(member(o, "id"@)) is Some) && (r is Some
                ==> r->0 == Event::Me { id: int_of(member(o, "id"@))->0 })
            &&& (t is Some && !known_tag(t->0)) ==> r == Some(Event::Other)
        }),
{
    proof {
        reveal_strlit("updateAuthorizationState");
        reveal_strlit("updateUser");
        reveal_strlit("updateUserStatus");
        reveal_strlit("updateBasicGroup");
        reveal_strlit("updateBasicGroupFullInfo");
        reveal_strlit("updateNewChat");
        reveal_strlit("updateChatLastMessage");
        reveal_strlit("updateNewMessage");
        reveal_strlit("messages");
        reveal_strlit("error");
        reveal_strlit("user");
        // The tags differ in length, or else in one character.
        assert("updateAuthorizationState"@.len() == 24);
        assert("updateUser"@.len() == 10);
        assert("updateUserStatus"@.len() == 16);
        assert("updateBasicGroup"@.len() == 16);
        assert("updateBasicGroupFullInfo"@.len() == 24);
        assert("updateNewChat"@.len() == 13);
        assert("updateChatLastMessage"@.len() == 21);
        assert("updateNewMessage"@.len() == 16);
        assert("messages"@.len() == 8);
        assert("error"@.len() == 5);
        assert("user"@.len() == 4);
        assert("updateAuthorizationState"@[6] != "updateBasicGroupFullInfo"@[6]);
        assert("updateUserStatus"@[6] != "updateBasicGroup"@[6]);
        assert("updateUserStatus"@[6] != "updateNewMessage"@[6]);
        assert("updateBasicGroup"@[6] != "updateNewMessage"@[6]);
    }
    let o = Some(j);
    let t = get_member(o, "@type");
    match t {
        Some(Json::Str(_)) => {},
        _ => return None,
    }
    if is_text(t, "updateAuthorizationState") {
        Some(Event::AuthorizationState(auth_state_of(get_member(o, "authorization_state"))))
    } else if is_text(t, "updateUser") {
        match user_of(get_member(o, "user")) {
            Some(u) => Some(Event::User(u)),
            None => None,
        }
    } else if is_text(t, "updateUserStatus") {
        match get_int(get_member(o, "user_id")) {
            Some(user_id) => Some(
                Event::UserStatus { user_id, status: presence_of(get_member(o, "status")) },
            ),
            None => None,
        }
    } else if is_text(t, "updateBasicGroup") {
        let g = get_member(o, "basic_group");
        match get_int(get_member(g, "id")) {
            Some(id) => {
                let member_count = match get_int(get_member(g, "member_count")) {
                    Some(n) => n,
                    None => 0,
                };
                Some(Event::BasicGroup { id, member_count })
            },
            None => None,
        }
    } else if is_text(t, "updateBasicGroupFullInfo") {
        match get_int(get_member(o, "basic_group_id")) {
            Some(id) => {
                let member_ids = member_ids_of(
                    get_member(get_member(o, "basic_group_full_info"), "members"),
                );
                Some(Event::BasicGroupFullInfo { id, member_ids })
            },
            None => None,
        }
    } else if is_text(t, "updateNewChat") {
        let c = get_member(o, "chat");
        match get_int(get_member(c, "id")) {
            Some(id) => Some(
                Event::NewChat {
                    id,
                    title: get_text(get_member(c, "title")),
                    kind: chat_kind_of(get_member(c, "type")),
                },
            ),
            None => None,
        }
    } else if is_text(t, "updateChatLastMessage") {
        match (get_int(get_member(o, "chat_id")), get_int(get_member(get_member(o, "last_message"), "date"))) {
            (Some(chat_id), Some(date)) => Some(Event::ChatLastMessage { chat_id, date }),
            _ => None,
        }
    } else if is_text(t, "updateNewMessage") {
        let d = if decoded.len() > 0 {
            decoded[0]
        } else {
            false
        };
        match raw_message_of(get_member(o, "message"), d) {
            Some(m) => Some(Event::NewMessage(m)),
            None => None,
        }
    } else if is_text(t, "messages") {
        let list = get_member(o, "messages");
        match batch_chat_of(o) {
            Some(chat_id) => Some(Event::Messages { chat_id, messages: batch_of(list, decoded) }),
            None => None,
        }
    } else if is_text(t, "error") {
        Some(Event::Error { message: get_text(get_member(o, "message")) })
    } else if is_text(t, "user") {
        match get_int(get_member(o, "id")) {
            Some(id) => Some(Event::Me { id }),
            None => None,
        }
    } else {
        Some(Event::Other)
    }
}

} // verus!
