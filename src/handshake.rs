use vstd::prelude::*;
use vstd::string::*;

use crate::request::Request;

verus! {

/// The backend's authorization states.
#[derive(Clone, Copy, PartialEq, Eq, Structural)]
pub enum AuthState {
    WaitTdlibParameters,
    WaitEncryptionKey,
    WaitPhoneNumber,
    WaitCode,
    Ready,
    Other,
}

/// What the client authorizes with.
pub struct Credentials {
    pub api_id: i64,
    pub api_hash: String,
    pub phone_number: String,
}

/// What to do on an authorization state.
pub enum HandshakeAction {
    /// Send these requests, in order.
    Send(Vec<Request>),
    /// End the session with this message.
    Fatal(String),
    /// Nothing to do.
    Ignore,
}

/// The message shown when a confirmation code is needed and none was given.
pub const NO_CODE_PROVIDED: &'static str = "Please re-run with --code={{code}}";

/// The startup argument that carries the confirmation code.
pub const CODE_ARG: &'static str = "--code=";

/// The state needs a confirmation code and none was given.
pub open spec fn handshake_fatal(state: AuthState, code: Option<String>) -> bool {
    state == AuthState::WaitCode && code is None
}

/// The requests that an authorization state sends: parameters, the
/// encryption check, the phone number, the confirmation code, and, once
/// ready, the list of chats then the local identity.
pub open spec fn handshake_sends(
    state: AuthState,
    creds: &Credentials,
    code: Option<String>,
    rs: Seq<Request>,
) -> bool {
    match state {
        AuthState::WaitTdlibParameters => rs.len() == 1 && match rs[0] {
            Request::SetParameters { api_id, api_hash } => api_id == creds.api_id && api_hash@
                == creds.api_hash@,
            _ => false,
        },
        AuthState::WaitEncryptionKey => rs == seq![Request::CheckEncryptionKey],
        AuthState::WaitPhoneNumber => rs.len() == 1 && match rs[0] {
            Request::SetPhoneNumber { phone_number } => phone_number@ == creds.phone_number@,
            _ => false,
        },
        AuthState::WaitCode => match code {
            Some(c) => rs.len() == 1 && match rs[0] {
                Request::CheckCode { code: k } => k@ == c@,
                _ => false,
            },
            None => false,
        },
        AuthState::Ready => rs == seq![Request::GetChatList, Request::GetMe],
        AuthState::Other => false,
    }
}

/// The one action of each authorization state: parameters, the encryption
/// check, the phone number, the confirmation code (fatal when there is none),
/// and, once ready, the list of chats and the local identity.
pub fn handshake_step(state: AuthState, creds: &Credentials, code: &Option<String>) -> (r:
    HandshakeAction)
    ensures
        handshake_fatal(state, *code) ==> r is Fatal && r->Fatal_0@ == NO_CODE_PROVIDED@,
        state == AuthState::Other ==> r is Ignore,
        !handshake_fatal(state, *code) && state != AuthState::Other ==> r is Send
            && handshake_sends(state, creds, *code, r->Send_0@),
{
    match state {
        AuthState::WaitTdlibParameters => {
            let mut v: Vec<Request> = Vec::new();
            v.push(Request::SetParameters { api_id: creds.api_id, api_hash: creds.api_hash.clone() });
            HandshakeAction::Send(v)
        },
        AuthState::WaitEncryptionKey => {
            let mut v: Vec<Request> = Vec::new();
            v.push(Request::CheckEncryptionKey);
            assert(v@ =~= seq![Request::CheckEncryptionKey]);
            HandshakeAction::Send(v)
        },
        AuthState::WaitPhoneNumber => {
            let mut v: Vec<Request> = Vec::new();
            v.push(Request::SetPhoneNumber { phone_number: creds.phone_number.clone() });
            HandshakeAction::Send(v)
        },
        AuthState::WaitCode => match code {
            Some(c) => {
                let mut v: Vec<Request> = Vec::new();
                v.push(Request::CheckCode { code: c.clone() });
                HandshakeAction::Send(v)
            },
            None => HandshakeAction::Fatal(String::from_str(NO_CODE_PROVIDED)),
        },
        AuthState::Ready => {
            let mut v: Vec<Request> = Vec::new();
            v.push(Request::GetChatList);
            v.push(Request::GetMe);
            assert(v@ =~= seq![Request::GetChatList, Request::GetMe]);
            HandshakeAction::Send(v)
        },
        AuthState::Other => HandshakeAction::Ignore,
    }
}

/// How a backend error is handled.
pub enum ErrorClass {
    /// The session ends with this message.
    Fatal(String),
    /// The message is logged and the session goes on.
    Recoverable(String),
}

/// The error code for a wrong confirmation code.
pub const PHONE_CODE_INVALID: &'static str = "PHONE_CODE_INVALID";

/// The message shown for a wrong confirmation code.
pub const INCORRECT_CODE: &'static str = "Incorrect code. Please try again.";

/// A wrong confirmation code ends the session; any other error is logged.
pub fn classify_error(message: &String) -> (r: ErrorClass)
    ensures
        message@ == PHONE_CODE_INVALID@ ==> r is Fatal && r->Fatal_0@ == INCORRECT_CODE@,
        message@ != PHONE_CODE_INVALID@ ==> r is Recoverable && r->Recoverable_0@ == message@,
{
    let code = String::from_str(PHONE_CODE_INVALID);
    if *message == code {
        ErrorClass::Fatal(String::from_str(INCORRECT_CODE))
    } else {
        ErrorClass::Recoverable(message.clone())
    }
}

/// Whether a character is blank: space, tab, line feed or carriage return.
pub open spec fn is_blank(c: char) -> bool {
    c == ' ' || c == '\t' || c == '\n' || c == '\r'
}

/// The length of the part before the first `=`.
pub open spec fn field_len(s: Seq<char>) -> nat
    decreases s.len(),
{
    if s.len() == 0 {
        0
    } else if s[0] == '=' {
        0
    } else {
        1 + field_len(s.drop_first())
    }
}

proof fn lemma_field_len(s: Seq<char>, k: int)
    requires
        0 <= k <= s.len(),
        forall|j: int| 0 <= j < k ==> s[j] != '=',
        k == s.len() || s[k] == '=',
    ensures
        field_len(s) == k,
    decreases s.len(),
{
    if s.len() > 0 && k > 0 {
        lemma_field_len(s.drop_first(), k - 1);
    }
}

/// Whether `v` is `s` without its leading and trailing blanks.
pub open spec fn is_trimmed(s: Seq<char>, v: Seq<char>) -> bool {
    exists|a: int, b: int|
        0 <= a <= b <= s.len() && #[trigger] s.subrange(a, b) == v && (forall|j: int|
            0 <= j < a ==> is_blank(s[j])) && (forall|j: int| b <= j < s.len() ==> is_blank(s[j]))
            && (a < b ==> !is_blank(s[a]) && !is_blank(s[b - 1]))
}

fn blank(c: char) -> (r: bool)
    ensures
        r == is_blank(c),
{
    c == ' ' || c == '\t' || c == '\n' || c == '\r'
}

/// The confirmation code that a startup argument carries, if it is one: what
/// follows the prefix up to the next `=`, without surrounding blanks.
pub fn parse_code_arg(arg: &str) -> (r: Option<String>)
    ensures
        r is Some <==> (arg@.len() >= 7 && arg@.take(7) == CODE_ARG@),
        r is Some ==> {
            let rest = arg@.skip(7);
            is_trimmed(rest.take(field_len(rest) as int), r->0@)
        },
{
    proof {
        reveal_strlit("--code=");
    }
    let n = arg.unicode_len();
    if n < 7 {
        return None;
    }
    let prefix = CODE_ARG;
    let mut i: usize = 0;
    while i < 7
        invariant
            i <= 7,
            n == arg@.len(),
            n >= 7,
            prefix@ == CODE_ARG@,
            prefix@.len() == 7,
            forall|j: int| 0 <= j < i ==> arg@[j] == prefix@[j],
        decreases 7 - i,
    {
        if arg.get_char(i) != prefix.get_char(i) {
            assert(arg@.take(7)[i as int] != CODE_ARG@[i as int]);
            return None;
        }
        i = i + 1;
    }
    assert(arg@.take(7) =~= CODE_ARG@);
    let mut end: usize = 7;
    while end < n && arg.get_char(end) != '='
        invariant
            7 <= end <= n,
            n == arg@.len(),
            forall|j: int| 7 <= j < end ==> arg@[j] != '=',
        decreases n - end,
    {
        end = end + 1;
    }
    let ghost rest = arg@.skip(7);
    proof {
        lemma_field_len(rest, end - 7);
    }
    let mut a: usize = 7;
    while a < end && blank(arg.get_char(a))
        invariant
            7 <= a <= end <= n,
            n == arg@.len(),
            forall|j: int| 7 <= j < a ==> is_blank(arg@[j]),
        decreases end - a,
    {
        a = a + 1;
    }
    let mut b: usize = end;
    while b > a && blank(arg.get_char(b - 1))
        invariant
            7 <= a <= b <= end <= n,
            n == arg@.len(),
            forall|j: int| b <= j < end ==> is_blank(arg@[j]),
        decreases b - a,
    {
        b = b - 1;
    }
    let v = arg.substring_char(a, b);
    let r = String::from_str(v);
    proof {
        let f = rest.take(end - 7);
        let (x, y) = (a - 7, b - 7);
        assert(f.subrange(x, y) =~= r@);
        assert forall|j: int| 0 <= j < x implies is_blank(f[j]) by {
            assert(f[j] == arg@[j + 7]);
        }
        assert forall|j: int| y <= j < f.len() implies is_blank(f[j]) by {
            assert(f[j] == arg@[j + 7]);
        }
        if x < y {
            assert(f[x] == arg@[a as int]);
            assert(f[y - 1] == arg@[b - 1]);
        }
        assert(is_trimmed(f, r@));
    }
    Some(r)
}

} // verus!
