//! What the resolver asks of an HTTP client, and what it reads in a reply.
use vstd::prelude::*;

verus! {

/// A status code: a number of three digits.
#[derive(Debug, Clone, Copy, PartialEq, Eq)]
pub struct Status {
    code: u16,
}

/// Whether `code` has the three digits of a status code.
pub open spec fn is_status(code: u16) -> bool {
    100 <= code <= 999
}

/// The text of the status code `code`: its number and its reason phrase.
pub uninterp spec fn status_text(code: u16) -> Seq<char>;

/// The three digits of `code`.
pub open spec fn status_digits(code: u16) -> Seq<char> {
    seq![
        ('0' as int + code / 100) as char,
        ('0' as int + code / 10 % 10) as char,
        ('0' as int + code % 10) as char,
    ]
}

/// `Display` of `reqwest::StatusCode`: the number, a space and the reason phrase. The phrases are
/// named and not listed.
#[verifier::external_body]
fn write_status(code: u16) -> (text: String)
    requires
        is_status(code),
    ensures
        text@ == status_text(code),
        text@.len() > 4,
        text@.take(4) == status_digits(code).push(' '),
{
    reqwest::StatusCode::from_u16(code).unwrap().to_string()
}

/// `reqwest::StatusCode::is_success`: the codes from 200 to 299.
#[verifier::external_body]
fn status_is_success(code: u16) -> (success: bool)
    requires
        is_status(code),
    ensures
        success == (200 <= code <= 299),
{
    reqwest::StatusCode::from_u16(code).unwrap().is_success()
}

/// `reqwest::StatusCode::is_redirection`: the codes from 300 to 399.
#[verifier::external_body]
fn status_is_redirection(code: u16) -> (redirection: bool)
    requires
        is_status(code),
    ensures
        redirection == (300 <= code <= 399),
{
    reqwest::StatusCode::from_u16(code).unwrap().is_redirection()
}

/// Whether `byte` is printable ASCII or a tab.
pub open spec fn is_visible(byte: u8) -> bool {
    32 <= byte <= 126 || byte == 9
}

/// The text of a header value, which has one if each of its bytes is visible.
pub open spec fn header_text(value: Seq<u8>) -> Option<Seq<char>> {
    if forall|i: int| 0 <= i < value.len() ==> is_visible(#[trigger] value[i]) {
        Some(value.map_values(|byte: u8| byte as char))
    } else {
        None
    }
}

/// `reqwest::header::HeaderValue::to_str`: gives the text of a value whose bytes are all visible
/// ASCII or tabs, and fails on any other value.
#[verifier::external_body]
pub(crate) fn read_header(value: &Vec<u8>) -> (text: Option<String>)
    ensures
        header_text(value@) == match text {
            Some(text) => Some(text@),
            None => None::<Seq<char>>,
        },
{
    let value = reqwest::header::HeaderValue::from_bytes(value).ok()?;
    value.to_str().ok().map(|text| text.to_string())
}

impl View for Status {
    type V = u16;

    closed spec fn view(&self) -> u16 {
        self.code
    }
}

impl Status {
    #[verifier::type_invariant]
    spec fn has_three_digits(self) -> bool {
        is_status(self.code)
    }

    /// The status with the number `code`, if it is one.
    pub fn new(code: u16) -> (status: Option<Status>)
        ensures
            status is Some <==> is_status(code),
            status matches Some(status) ==> status@ == code,
    {
        if 100 <= code && code <= 999 {
            Some(Status { code })
        } else {
            None
        }
    }

    pub fn code(&self) -> (code: u16)
        ensures
            code == self@,
            is_status(code),
    {
        proof {
            use_type_invariant(self);
        }
        self.code
    }

    pub fn is_success(&self) -> (success: bool)
        ensures
            success == (200 <= self@ <= 299),
    {
        status_is_success(self.code())
    }

    pub fn is_redirection(&self) -> (redirection: bool)
        ensures
            redirection == (300 <= self@ <= 399),
    {
        status_is_redirection(self.code())
    }

    /// The number and the reason phrase.
    pub fn text(&self) -> (text: String)
        ensures
            text@ == status_text(self@),
            text@.len() > 4,
            text@.take(4) == status_digits(self@).push(' '),
    {
        write_status(self.code())
    }
}

/// What the resolver reads in the head of a response.
#[derive(Debug, PartialEq, Eq)]
pub struct Reply {
    pub status: Status,
    /// The bytes of the `Location` header.
    pub location: Option<Vec<u8>>,
}

/// What a [`Reply`] stands for.
#[verifier::ext_equal]
pub struct ReplyView {
    pub status: u16,
    pub location: Option<Seq<u8>>,
}

impl View for Reply {
    type V = ReplyView;

    open spec fn view(&self) -> ReplyView {
        ReplyView {
            status: self.status@,
            location: match self.location {
                Some(location) => Some(location@),
                None => None,
            },
        }
    }
}

/// A GET request.
#[derive(Debug, PartialEq, Eq)]
pub struct Request {
    pub url: String,
    /// The value of the `Authorization` header.
    pub authorization: Option<String>,
    /// Whether the client may follow redirects by itself.
    pub follow_redirects: bool,
}

/// What a [`Request`] stands for.
#[verifier::ext_equal]
pub struct RequestView {
    pub url: Seq<char>,
    pub authorization: Option<Seq<char>>,
    pub follow_redirects: bool,
}

impl View for Request {
    type V = RequestView;

    open spec fn view(&self) -> RequestView {
        RequestView {
            url: self.url@,
            authorization: match self.authorization {
                Some(authorization) => Some(authorization@),
                None => None,
            },
            follow_redirects: self.follow_redirects,
        }
    }
}

/// A header value of printable ASCII and tabs is the text of its bytes, one character for each;
/// any other has no text.
pub proof fn law_header_text_is_its_bytes(value: Seq<u8>)
    ensures
        (forall|i: int|
            0 <= i < value.len() ==> 32 <= #[trigger] value[i] <= 126 || value[i] == 9)
            <==> header_text(value) is Some,
        header_text(value) is Some ==> header_text(value)->0.len() == value.len(),
        header_text(value) is Some ==> forall|i: int|
            0 <= i < value.len() ==> #[trigger] header_text(value)->0[i] == value[i] as char,
{
    if header_text(value) is Some {
        assert forall|i: int| 0 <= i < value.len() implies 32 <= #[trigger] value[i] <= 126
            || value[i] == 9 by {
            assert(is_visible(value[i]));
        }
    } else {
        let i = choose|i: int| 0 <= i < value.len() && !is_visible(#[trigger] value[i]);
        assert(!(32 <= value[i] <= 126 || value[i] == 9));
    }
}

/// The numbers of three digits are statuses, each with its own number; those from 200 to 299 are
/// successes, those from 300 to 399 redirections, and none is both.
pub proof fn law_status_goes_by_its_number(
    code: u16,
    status: Option<Status>,
    number: u16,
    success: bool,
    redirection: bool,
)
    requires
        call_ensures(Status::new, (code,), status),
        status is Some ==> call_ensures(Status::code, (&status->0,), number),
        status is Some ==> call_ensures(Status::is_success, (&status->0,), success),
        status is Some ==> call_ensures(Status::is_redirection, (&status->0,), redirection),
    ensures
        status is Some <==> 100 <= code <= 999,
        status is Some ==> {
            &&& number == code
            &&& success <==> 200 <= code <= 299
            &&& redirection <==> 300 <= code <= 399
            &&& !(success && redirection)
        },
{
}

/// Nothing of a reply or a request is lost in what it stands for.
pub proof fn law_messages_stand_for_their_parts(reply: Reply, request: Request)
    ensures
        reply@.status == reply.status@,
        reply@.location is Some <==> reply.location is Some,
        reply.location is Some ==> reply@.location->0 == reply.location->0@,
        request@.url == request.url@,
        request@.authorization is Some <==> request.authorization is Some,
        request.authorization is Some ==> request@.authorization->0 == request.authorization->0@,
        request@.follow_redirects == request.follow_redirects,
{
}

/// The text of a status begins with its number, written in three digits, and goes on after a
/// space.
pub proof fn law_status_text_begins_with_its_number(status: Status, code: u16, text: String)
    requires
        call_ensures(Status::code, (&status,), code),
        call_ensures(Status::text, (&status,), text),
    ensures
        text@.len() > 4,
        forall|i: int| 0 <= i < 3 ==> '0' <= #[trigger] text@[i] <= '9',
        100 * (text@[0] as int - '0' as int) + 10 * (text@[1] as int - '0' as int) + (text@[2] as int
            - '0' as int) == code,
        text@[3] == ' ',
{
    let head = text@.take(4);
    assert(head == status_digits(code).push(' '));
    assert(head[0] == text@[0] && head[1] == text@[1] && head[2] == text@[2] && head[3]
        == text@[3]);
}

} // verus!
