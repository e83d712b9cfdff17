//! The fetching of one metadata file, as a machine that says what to do next and is told how it
//! went.
use crate::action::{self, parse_action_definition, Outcome, ResolvedAction};
use crate::http::{self, read_header, Reply, ReplyView, Request, RequestView, Status};
use crate::text;
use crate::yaml;
use vstd::prelude::*;

verus! {

/// The status of a file that is not there, or not without credentials.
pub const NOT_FOUND: u16 = 404;

/// A fetch under way.
#[derive(Debug, PartialEq, Eq)]
pub enum Fetch {
    /// The file is asked for without credentials.
    Plain { url: String },
    /// It was not found. The repository may be private, so a token is looked for.
    Token { url: String, status: Status },
    /// The file is asked for with the token, from a client that follows no redirects.
    Authenticated { url: String, token: String },
    /// The server redirects. The target is asked without credentials, so that the token does not
    /// leak to it.
    Redirected { url: String, target: String },
    /// The last reply was a success: its body is read.
    Body,
    Done { result: Result<ResolvedAction, String> },
}

/// What a [`Fetch`] stands for.
#[verifier::ext_equal]
pub enum FetchView {
    Plain { url: Seq<char> },
    Token { url: Seq<char>, status: u16 },
    Authenticated { url: Seq<char>, token: Seq<char> },
    Redirected { url: Seq<char>, target: Seq<char> },
    Body,
    Done { result: Outcome },
}

impl View for Fetch {
    type V = FetchView;

    open spec fn view(&self) -> FetchView {
        match *self {
            Fetch::Plain { url } => FetchView::Plain { url: url@ },
            Fetch::Token { url, status } => FetchView::Token { url: url@, status: status@ },
            Fetch::Authenticated { url, token } => FetchView::Authenticated { url: url@, token: token@ },
            Fetch::Redirected { url, target } => FetchView::Redirected { url: url@, target: target@ },
            Fetch::Body => FetchView::Body,
            Fetch::Done { result } => FetchView::Done { result: action::outcome(result) },
        }
    }
}

/// What a fetch wants done.
#[derive(Debug, PartialEq, Eq)]
pub enum Task {
    Send { request: Request },
    /// Look up `GITHUB_TOKEN`.
    FindToken,
    /// Read the body of the last response.
    ReadBody,
    Finish,
}

/// What an [`Task`] stands for.
#[verifier::ext_equal]
pub enum TaskView {
    Send { request: RequestView },
    FindToken,
    ReadBody,
    Finish,
}

impl View for Task {
    type V = TaskView;

    open spec fn view(&self) -> TaskView {
        match *self {
            Task::Send { request } => TaskView::Send { request: request@ },
            Task::FindToken => TaskView::FindToken,
            Task::ReadBody => TaskView::ReadBody,
            Task::Finish => TaskView::Finish,
        }
    }
}

/// How the task that a fetch set went.
#[derive(Debug, PartialEq, Eq)]
pub enum Event {
    /// The request was answered.
    Replied { reply: Reply },
    /// The request could not be sent or was not answered.
    Failed { message: String },
    /// The token that was looked up, where there is one.
    Token { token: Option<String> },
    /// The body was read.
    Body { content: String },
    /// The body could not be read.
    BodyFailed { message: String },
}

/// What an [`Event`] stands for.
#[verifier::ext_equal]
pub enum EventView {
    Replied { reply: ReplyView },
    Failed { message: Seq<char> },
    Token { token: Option<Seq<char>> },
    Body { content: Seq<char> },
    BodyFailed { message: Seq<char> },
}

impl View for Event {
    type V = EventView;

    open spec fn view(&self) -> EventView {
        match *self {
            Event::Replied { reply } => EventView::Replied { reply: reply@ },
            Event::Failed { message } => EventView::Failed { message: message@ },
            Event::Token { token } => EventView::Token {
                token: match token {
                    Some(token) => Some(token@),
                    None => None,
                },
            },
            Event::Body { content } => EventView::Body { content: content@ },
            Event::BodyFailed { message } => EventView::BodyFailed { message: message@ },
        }
    }
}

/// The address of `filename` at `version` of `repo`.
pub open spec fn file_url(
    base_url: Seq<char>,
    repo: Seq<char>,
    version: Seq<char>,
    filename: Seq<char>,
) -> Seq<char> {
    base_url + "/"@ + repo + "/"@ + version + "/"@ + filename
}

/// A fetch that ends with the error `message`.
pub open spec fn failed(message: Seq<char>) -> FetchView {
    FetchView::Done { result: Err(message) }
}

/// Where the last reply to the fetch of `url` leads: to its body if it was a success.
pub open spec fn settled(url: Seq<char>, status: u16) -> FetchView {
    if 200 <= status <= 299 {
        FetchView::Body
    } else {
        failed("HTTP "@ + http::status_text(status) + " fetching "@ + url)
    }
}

impl FetchView {
    /// What the fetch wants done.
    pub open spec fn task(self) -> TaskView {
        match self {
            FetchView::Plain { url } => TaskView::Send {
                request: RequestView { url, authorization: None, follow_redirects: true },
            },
            FetchView::Token { .. } => TaskView::FindToken,
            FetchView::Authenticated { url, token } => TaskView::Send {
                request: RequestView {
                    url,
                    authorization: Some("token "@ + token),
                    follow_redirects: false,
                },
            },
            FetchView::Redirected { url, target } => TaskView::Send {
                request: RequestView { url: target, authorization: None, follow_redirects: true },
            },
            FetchView::Body => TaskView::ReadBody,
            FetchView::Done { .. } => TaskView::Finish,
        }
    }

    /// Whether `event` says how the task that the fetch set went.
    pub open spec fn awaits(self, event: EventView) -> bool {
        match self.task() {
            TaskView::Send { .. } => event is Replied || event is Failed,
            TaskView::FindToken => event is Token,
            TaskView::ReadBody => event is Body || event is BodyFailed,
            TaskView::Finish => false,
        }
    }

    /// The fetch after `event`.
    pub open spec fn next(self, event: EventView) -> FetchView {
        match (self, event) {
            (FetchView::Plain { url }, EventView::Replied { reply }) => if reply.status == NOT_FOUND {
                FetchView::Token { url, status: reply.status }
            } else {
                settled(url, reply.status)
            },
            (FetchView::Plain { url }, EventView::Failed { message }) => failed(
                "Failed to fetch "@ + url + ": "@ + message,
            ),
            (FetchView::Token { url, status }, EventView::Token { token }) => match token {
                Some(token) => FetchView::Authenticated { url, token },
                None => settled(url, status),
            },
            (FetchView::Authenticated { url, token }, EventView::Replied { reply }) => if 300
                <= reply.status <= 399 {
                match reply.location {
                    Some(location) => match http::header_text(location) {
                        Some(target) => FetchView::Redirected { url, target },
                        None => failed("Invalid redirect URL encoding"@),
                    },
                    None => failed(
                        "HTTP "@ + http::status_text(reply.status)
                            + " (redirect with no Location header) fetching "@ + url,
                    ),
                }
            } else {
                settled(url, reply.status)
            },
            (FetchView::Authenticated { url, token }, EventView::Failed { message }) => failed(
                "Failed to fetch "@ + url + ": "@ + message,
            ),
            (FetchView::Redirected { url, target }, EventView::Replied { reply }) => settled(
                url,
                reply.status,
            ),
            (FetchView::Redirected { url, target }, EventView::Failed { message }) => failed(
                "Failed to follow redirect "@ + target + ": "@ + message,
            ),
            (FetchView::Body, EventView::Body { content }) => FetchView::Done {
                result: action::document_outcome(yaml::yaml_document(content)),
            },
            (FetchView::Body, EventView::BodyFailed { message }) => failed(
                "Failed to read response body: "@ + message,
            ),
            _ => self,
        }
    }

    /// The fetch after `events`, one after the other.
    pub open spec fn run(self, events: Seq<EventView>) -> FetchView
        decreases events.len(),
    {
        if events.len() == 0 {
            self
        } else {
            self.run(events.drop_last()).next(events.last())
        }
    }

    /// The most events that the fetch can still take in.
    pub open spec fn rank(self) -> nat {
        match self {
            FetchView::Plain { .. } => 5,
            FetchView::Token { .. } => 4,
            FetchView::Authenticated { .. } => 3,
            FetchView::Redirected { .. } => 2,
            FetchView::Body => 1,
            FetchView::Done { .. } => 0,
        }
    }
}

/// Starts to fetch and parse `filename` at `version` of `repo`.
pub fn fetch_and_parse(base_url: &str, repo: &str, version: &str, filename: &str) -> (fetch: Fetch)
    ensures
        fetch@ == (FetchView::Plain { url: file_url(base_url@, repo@, version@, filename@) }),
{
    let repository = text::concat3(base_url, "/", repo);
    let directory = text::concat3(repository.as_str(), "/", version);
    Fetch::Plain { url: text::concat3(directory.as_str(), "/", filename) }
}

/// The message of the error that a reply with the status `status` is.
pub fn http_error(status: &str, remark: &str, url: &str) -> (message: String)
    ensures
        message@ == "HTTP "@ + status@ + remark@ + url@,
{
    let head = text::concat3("HTTP ", status, remark);
    text::concat(head.as_str(), url)
}

fn settle(url: String, status: Status) -> (fetch: Fetch)
    ensures
        fetch@ == settled(url@, status@),
{
    if status.is_success() {
        Fetch::Body
    } else {
        Fetch::Done { result: Err(http_error(status.text().as_str(), " fetching ", url.as_str())) }
    }
}

fn fail(what: &str, url: &str, message: &str) -> (fetch: Fetch)
    ensures
        fetch@ == failed(what@ + url@ + ": "@ + message@),
{
    let head = text::concat3(what, url, ": ");
    Fetch::Done { result: Err(text::concat(head.as_str(), message)) }
}

impl Fetch {
    /// What is to be done next.
    pub fn task(&self) -> (task: Task)
        ensures
            task@ == self@.task(),
    {
        match self {
            Fetch::Plain { url } => Task::Send {
                request: Request { url: url.clone(), authorization: None, follow_redirects: true },
            },
            Fetch::Token { .. } => Task::FindToken,
            Fetch::Authenticated { url, token } => Task::Send {
                request: Request {
                    url: url.clone(),
                    authorization: Some(text::concat("token ", token.as_str())),
                    follow_redirects: false,
                },
            },
            Fetch::Redirected { target, .. } => Task::Send {
                request: Request {
                    url: target.clone(),
                    authorization: None,
                    follow_redirects: true,
                },
            },
            Fetch::Body => Task::ReadBody,
            Fetch::Done { .. } => Task::Finish,
        }
    }

    /// The fetch after `event`, which says how what was to be done went. Any other event leaves
    /// the fetch as it is.
    pub fn step(self, event: Event) -> (fetch: Fetch)
        ensures
            fetch@ == self@.next(event@),
    {
        match (self, event) {
            (Fetch::Plain { url }, Event::Replied { reply }) => {
                // Retry with auth if a token is available: the repo may be private.
                if reply.status.code() == NOT_FOUND {
                    Fetch::Token { url, status: reply.status }
                } else {
                    settle(url, reply.status)
                }
            },
            (Fetch::Plain { url }, Event::Failed { message }) => fail(
                "Failed to fetch ",
                url.as_str(),
                message.as_str(),
            ),
            (Fetch::Token { url, status }, Event::Token { token }) => match token {
                Some(token) => Fetch::Authenticated { url, token },
                None => settle(url, status),
            },
            (Fetch::Authenticated { url, .. }, Event::Replied { reply }) => {
                // The server may legitimately redirect (CDN routing). A 3xx is followed
                // without the auth header to avoid leaking the token.
                if reply.status.is_redirection() {
                    match &reply.location {
                        Some(location) => match read_header(location) {
                            Some(target) => Fetch::Redirected { url, target },
                            None => Fetch::Done {
                                result: Err("Invalid redirect URL encoding".to_owned()),
                            },
                        },
                        None => Fetch::Done {
                            result: Err(
                                http_error(
                                    reply.status.text().as_str(),
                                    " (redirect with no Location header) fetching ",
                                    url.as_str(),
                                ),
                            ),
                        },
                    }
                } else {
                    settle(url, reply.status)
                }
            },
            (Fetch::Authenticated { url, .. }, Event::Failed { message }) => fail(
                "Failed to fetch ",
                url.as_str(),
                message.as_str(),
            ),
            (Fetch::Redirected { url, .. }, Event::Replied { reply }) => settle(url, reply.status),
            (Fetch::Redirected { target, .. }, Event::Failed { message }) => fail(
                "Failed to follow redirect ",
                target.as_str(),
                message.as_str(),
            ),
            (Fetch::Body, Event::Body { content }) => Fetch::Done {
                result: parse_action_definition(content.as_str()),
            },
            (Fetch::Body, Event::BodyFailed { message }) => Fetch::Done {
                result: Err(text::concat("Failed to read response body: ", message.as_str())),
            },
            (fetch, _) => fetch,
        }
    }
}

/// Whether each of `events` is awaited when it comes.
pub open spec fn all_awaited(fetch: FetchView, events: Seq<EventView>) -> bool {
    forall|i: int|
        0 <= i < events.len() ==> fetch.run(events.take(i)).awaits(#[trigger] events[i])
}

/// A fetch ends: it takes in no more than five events, and the one that it can take no further
/// event after is done.
pub proof fn law_fetch_ends(url: Seq<char>, events: Seq<EventView>)
    requires
        all_awaited(FetchView::Plain { url }, events),
    ensures
        events.len() <= 5,
        events.len() + (FetchView::Plain { url }).run(events).rank() <= 5,
        (FetchView::Plain { url }).run(events).rank() == 0 <==> (FetchView::Plain { url }).run(
            events,
        ) is Done,
    decreases events.len(),
{
    if events.len() > 0 {
        let earlier = events.drop_last();
        assert forall|i: int| 0 <= i < earlier.len() implies (FetchView::Plain { url }).run(
            earlier.take(i),
        ).awaits(#[trigger] earlier[i]) by {
            assert(earlier.take(i) == events.take(i));
            assert(earlier[i] == events[i]);
        }
        law_fetch_ends(url, earlier);
        assert(events.take(events.len() - 1) == earlier);
        assert((FetchView::Plain { url }).run(earlier).awaits(events[events.len() - 1]));
    }
}

/// Whether the fetch of `url` was answered that the file is not there.
pub open spec fn was_not_found(events: Seq<EventView>) -> bool {
    exists|i: int|
        0 <= i < events.len() && (#[trigger] events[i] matches EventView::Replied { reply }
            && reply.status == NOT_FOUND)
}

/// What a fetch of `url` that has seen `events` may know of the token.
spec fn token_is_kept(url: Seq<char>, events: Seq<EventView>, fetch: FetchView) -> bool {
    match fetch {
        FetchView::Plain { url: asked } => asked == url,
        FetchView::Token { url: asked, .. } => asked == url && was_not_found(events),
        FetchView::Authenticated { url: asked, token } => {
            &&& asked == url
            &&& was_not_found(events)
            &&& events.contains(EventView::Token { token: Some(token) })
        },
        _ => true,
    }
}

proof fn lemma_token_is_kept(url: Seq<char>, events: Seq<EventView>)
    ensures
        token_is_kept(url, events, (FetchView::Plain { url }).run(events)),
    decreases events.len(),
{
    if events.len() > 0 {
        let earlier = events.drop_last();
        let last = events.len() - 1;
        lemma_token_is_kept(url, earlier);
        if was_not_found(earlier) {
            let i = choose|i: int|
                0 <= i < earlier.len() && (#[trigger] earlier[i] matches EventView::Replied { reply }
                    && reply.status == NOT_FOUND);
            assert(events[i] == earlier[i]);
        }
        let fetch = (FetchView::Plain { url }).run(earlier);
        if let FetchView::Authenticated { token, .. } = fetch {
            let i = choose|i: int|
                0 <= i < earlier.len() && earlier[i] == (EventView::Token { token: Some(token) });
            assert(events[i] == earlier[i]);
        }
        assert(events[last] == events.last());
    }
}

/// The token does not leak: whatever the servers answer, the one request that carries credentials
/// goes to the file's own address, through a client that follows no redirects. It carries the
/// token that was looked up, and comes only after the file was not found without it.
pub proof fn law_token_does_not_leak(url: Seq<char>, events: Seq<EventView>, request: RequestView)
    requires
        (FetchView::Plain { url }).run(events).task() == (TaskView::Send { request }),
        request.authorization is Some,
    ensures
        request.url == url,
        !request.follow_redirects,
        was_not_found(events),
        exists|token: Seq<char>|
            request.authorization == Some("token "@ + token) && #[trigger] events.contains(
                EventView::Token { token: Some(token) },
            ),
{
    lemma_token_is_kept(url, events);
    let fetch = (FetchView::Plain { url }).run(events);
    let token = fetch->Authenticated_token;
    assert(events.contains(EventView::Token { token: Some(token) }));
}

/// What the world outside answers to a fetch, where it is asked.
#[verifier::ext_equal]
pub struct Answers {
    /// To the request without credentials: a reply, or the message of the failure.
    pub plain: Result<ReplyView, Seq<char>>,
    pub token: Option<Seq<char>>,
    /// To the request with the token.
    pub authenticated: Result<ReplyView, Seq<char>>,
    /// To the request to the target of the redirect.
    pub redirected: Result<ReplyView, Seq<char>>,
    /// The body of the last reply, or the message of the failure to read it.
    pub body: Result<Seq<char>, Seq<char>>,
}

impl FetchView {
    /// The event that comes of the task that the fetch sets.
    pub open spec fn answered(self, answers: Answers) -> EventView {
        match self {
            FetchView::Plain { .. } => reply_event(answers.plain),
            FetchView::Token { .. } => EventView::Token { token: answers.token },
            FetchView::Authenticated { .. } => reply_event(answers.authenticated),
            FetchView::Redirected { .. } => reply_event(answers.redirected),
            _ => match answers.body {
                Ok(content) => EventView::Body { content },
                Err(message) => EventView::BodyFailed { message },
            },
        }
    }

    /// The fetch after `steps` tasks.
    pub open spec fn driven(self, answers: Answers, steps: nat) -> FetchView
        decreases steps,
    {
        if steps == 0 {
            self
        } else {
            self.next(self.answered(answers)).driven(answers, (steps - 1) as nat)
        }
    }
}

/// The event of an answer to a request.
pub open spec fn reply_event(answer: Result<ReplyView, Seq<char>>) -> EventView {
    match answer {
        Ok(reply) => EventView::Replied { reply },
        Err(message) => EventView::Failed { message },
    }
}

/// The status of the reply whose body counts, or the message of the error before it.
pub open spec fn last_status(url: Seq<char>, answers: Answers) -> Result<u16, Seq<char>> {
    match answers.plain {
        Err(message) => Err("Failed to fetch "@ + url + ": "@ + message),
        Ok(first) => if first.status != NOT_FOUND || answers.token is None {
            Ok(first.status)
        } else {
            match answers.authenticated {
                Err(message) => Err("Failed to fetch "@ + url + ": "@ + message),
                Ok(second) => if !(300 <= second.status <= 399) {
                    Ok(second.status)
                } else {
                    match second.location {
                        None => Err(
                            "HTTP "@ + http::status_text(second.status)
                                + " (redirect with no Location header) fetching "@ + url,
                        ),
                        Some(location) => match (http::header_text(location), answers.redirected) {
                            (None, _) => Err("Invalid redirect URL encoding"@),
                            (Some(target), Err(message)) => Err(
                                "Failed to follow redirect "@ + target + ": "@ + message,
                            ),
                            (Some(target), Ok(third)) => Ok(third.status),
                        },
                    }
                },
            }
        },
    }
}

/// What the fetch of `url` comes to when the world outside gives `answers`.
pub open spec fn fetch_result(url: Seq<char>, answers: Answers) -> Outcome {
    match last_status(url, answers) {
        Err(message) => Err(message),
        Ok(status) => if !(200 <= status <= 299) {
            Err("HTTP "@ + http::status_text(status) + " fetching "@ + url)
        } else {
            match answers.body {
                Err(message) => Err("Failed to read response body: "@ + message),
                Ok(content) => action::document_outcome(yaml::yaml_document(content)),
            }
        },
    }
}

/// A fetch whose every task is performed and answered is done after five steps at most, with
/// the result that the answers call for.
pub proof fn law_fetch_comes_to_its_result(url: Seq<char>, answers: Answers)
    ensures
        (FetchView::Plain { url }).driven(answers, 5) == (FetchView::Done {
            result: fetch_result(url, answers),
        }),
{
    reveal_with_fuel(FetchView::driven, 6);
}

/// The address of a file is its four parts in full: it begins with the base and the repository,
/// ends with the version and the name of the file, and has a slash between any two of them and
/// nothing else. It is asked for without credentials first.
pub proof fn law_address_has_its_parts_in_full(
    base_url: &str,
    repo: &str,
    version: &str,
    filename: &str,
    fetch: Fetch,
    task: Task,
)
    requires
        call_ensures(fetch_and_parse, (base_url, repo, version, filename), fetch),
        call_ensures(Fetch::task, (&fetch,), task),
    ensures
        task is Send,
        task->request.authorization is None,
        task->request.follow_redirects,
        (base_url@ + "/"@ + repo@ + "/"@).is_prefix_of(task->request.url@),
        ("/"@ + version@ + "/"@ + filename@).is_suffix_of(task->request.url@),
        task->request.url@.len() == base_url@.len() + repo@.len() + version@.len() + filename@.len()
            + 3,
{
    reveal_strlit("/");
    let url = file_url(base_url@, repo@, version@, filename@);
    assert(task@ == fetch@.task());
    assert(task->request@.url == url);
    let head = base_url@ + "/"@ + repo@ + "/"@;
    assert(url.subrange(0, head.len() as int) =~= head);
    let tail = "/"@ + version@ + "/"@ + filename@;
    assert(url.subrange(url.len() - tail.len(), url.len() as int) =~= tail);
}

/// Different versions of one repository have different addresses, and so have different files of
/// one version, and the same file of the same version in different repositories.
pub proof fn law_different_files_have_different_addresses(
    base_url: Seq<char>,
    repo: Seq<char>,
    version: Seq<char>,
    filename: Seq<char>,
    other: Seq<char>,
)
    ensures
        other != version ==> file_url(base_url, repo, version, filename) != file_url(
            base_url,
            repo,
            other,
            filename,
        ),
        other != filename ==> file_url(base_url, repo, version, filename) != file_url(
            base_url,
            repo,
            version,
            other,
        ),
        other != repo ==> file_url(base_url, repo, version, filename) != file_url(
            base_url,
            other,
            version,
            filename,
        ),
{
    lemma_parts_of_an_address(base_url, repo, version, filename);
    lemma_parts_of_an_address(base_url, repo, other, filename);
    lemma_parts_of_an_address(base_url, repo, version, other);
    lemma_parts_of_an_address(base_url, other, version, filename);
}

/// Where the parts of an address stand in it.
proof fn lemma_parts_of_an_address(
    base_url: Seq<char>,
    repo: Seq<char>,
    version: Seq<char>,
    filename: Seq<char>,
)
    ensures
        ({
            let url = file_url(base_url, repo, version, filename);
            let at_repo = base_url.len() as int + 1;
            let at_version = at_repo + repo.len() + 1;
            let at_name = at_version + version.len() + 1;
            &&& url.len() == at_name + filename.len()
            &&& url.subrange(at_repo, at_repo + repo.len()) == repo
            &&& url.subrange(at_version, at_version + version.len()) == version
            &&& url.subrange(at_name, at_name + filename.len()) == filename
        }),
{
    reveal_strlit("/");
    let url = file_url(base_url, repo, version, filename);
    let at_repo = base_url.len() as int + 1;
    let at_version = at_repo + repo.len() + 1;
    let at_name = at_version + version.len() + 1;
    assert(url.subrange(at_repo, at_repo + repo.len()) =~= repo);
    assert(url.subrange(at_version, at_version + version.len()) =~= version);
    assert(url.subrange(at_name, at_name + filename.len()) =~= filename);
}

/// The file was answered for without credentials: a 404 has the token looked for, a success has
/// the body read, and any other answer is an error that quotes the status and the address.
pub proof fn law_first_reply_decides(url: String, reply: Reply, after: Fetch)
    requires
        call_ensures(Fetch::step, (Fetch::Plain { url }, Event::Replied { reply }), after),
    ensures
        reply.status@ == 404 ==> after is Token && after->Token_url@ == url@
            && after->Token_status@ == 404,
        200 <= reply.status@ <= 299 ==> after is Body,
        reply.status@ != 404 && !(200 <= reply.status@ <= 299) ==> after is Done
            && after->result is Err && after->result->Err_0@ == "HTTP "@ + http::status_text(
            reply.status@,
        ) + " fetching "@ + url@,
{
    assert(after@ == (Fetch::Plain { url })@.next((Event::Replied { reply })@));
}

/// A token that was found is tried on the same address; without one the first answer stands.
pub proof fn law_token_is_tried_if_there_is_one(
    url: String,
    status: Status,
    token: Option<String>,
    after: Fetch,
)
    requires
        call_ensures(Fetch::step, (Fetch::Token { url, status }, Event::Token { token }), after),
    ensures
        token is Some ==> after is Authenticated && after->Authenticated_url@ == url@
            && after->token@ == token->0@,
        token is None && 200 <= status@ <= 299 ==> after is Body,
        token is None && !(200 <= status@ <= 299) ==> after is Done && after->result is Err
            && after->result->Err_0@ == "HTTP "@ + http::status_text(status@) + " fetching "@ + url@,
{
    assert(after@ == (Fetch::Token { url, status })@.next((Event::Token { token })@));
}

/// The file was answered for with the token: a redirect is followed to where it says, if that is
/// said in visible characters, a success has the body read, and anything else is an error.
pub proof fn law_authenticated_reply_decides(url: String, token: String, reply: Reply, after: Fetch)
    requires
        call_ensures(
            Fetch::step,
            (Fetch::Authenticated { url, token }, Event::Replied { reply }),
            after,
        ),
    ensures
        200 <= reply.status@ <= 299 ==> after is Body,
        !(200 <= reply.status@ <= 399) ==> after is Done && after->result is Err
            && after->result->Err_0@ == "HTTP "@ + http::status_text(reply.status@)
            + " fetching "@ + url@,
        300 <= reply.status@ <= 399 ==> match reply.location {
            None => after is Done && after->result is Err && after->result->Err_0@ == "HTTP "@
                + http::status_text(reply.status@)
                + " (redirect with no Location header) fetching "@ + url@,
            Some(location) => {
                let visible = forall|i: int|
                    0 <= i < location@.len() ==> 32 <= #[trigger] location@[i] <= 126
                        || location@[i] == 9;
                &&& !visible ==> after is Done && after->result is Err && after->result->Err_0@
                    == "Invalid redirect URL encoding"@
                &&& visible ==> {
                    &&& after is Redirected
                    &&& after->Redirected_url@ == url@
                    &&& after->target@.len() == location@.len()
                    &&& forall|i: int|
                        0 <= i < location@.len() ==> #[trigger] after->target@[i]
                            == location@[i] as char
                }
            },
        },
{
    assert(after@ == (Fetch::Authenticated { url, token })@.next((Event::Replied { reply })@));
    if let Some(location) = reply.location {
        http::law_header_text_is_its_bytes(location@);
        if 300 <= reply.status@ <= 399 && http::header_text(location@) is Some {
            assert(after@->target == http::header_text(location@)->0);
        }
    }
}

/// The target of the redirect was answered for: a success has the body read, and anything else is
/// an error that quotes the status and the address of the file.
pub proof fn law_redirected_reply_decides(url: String, target: String, reply: Reply, after: Fetch)
    requires
        call_ensures(
            Fetch::step,
            (Fetch::Redirected { url, target }, Event::Replied { reply }),
            after,
        ),
    ensures
        200 <= reply.status@ <= 299 ==> after is Body,
        !(200 <= reply.status@ <= 299) ==> after is Done && after->result is Err
            && after->result->Err_0@ == "HTTP "@ + http::status_text(reply.status@)
            + " fetching "@ + url@,
{
    assert(after@ == (Fetch::Redirected { url, target })@.next((Event::Replied { reply })@));
}

/// A request that is not answered ends the fetch, with an error that quotes the address that was
/// asked and the reason.
pub proof fn law_failed_request_ends_the_fetch(fetch: Fetch, message: String, after: Fetch)
    requires
        call_ensures(Fetch::step, (fetch, Event::Failed { message }), after),
    ensures
        fetch is Plain || fetch is Authenticated || fetch is Redirected ==> after is Done
            && after->result is Err,
        fetch is Plain ==> after->result->Err_0@ == "Failed to fetch "@ + fetch->Plain_url@
            + ": "@ + message@,
        fetch is Authenticated ==> after->result->Err_0@ == "Failed to fetch "@
            + fetch->Authenticated_url@ + ": "@ + message@,
        fetch is Redirected ==> after->result->Err_0@ == "Failed to follow redirect "@
            + fetch->target@ + ": "@ + message@,
{
    assert(after@ == fetch@.next((Event::Failed { message })@));
}

/// A body that was read ends the fetch with what it resolves to as an action.yml, and one that
/// was not with the reason.
pub proof fn law_body_is_resolved(
    content: String,
    text: &str,
    resolved: Result<ResolvedAction, String>,
    after: Fetch,
    message: String,
    failed: Fetch,
)
    requires
        text@ == content@,
        call_ensures(parse_action_definition, (text,), resolved),
        call_ensures(Fetch::step, (Fetch::Body, Event::Body { content }), after),
        call_ensures(Fetch::step, (Fetch::Body, Event::BodyFailed { message }), failed),
    ensures
        after is Done,
        after->result is Ok <==> resolved is Ok,
        resolved is Ok ==> after->result->Ok_0@ == resolved->Ok_0@,
        resolved is Err ==> after->result->Err_0@ == resolved->Err_0@,
        failed is Done,
        failed->result is Err,
        failed->result->Err_0@ == "Failed to read response body: "@ + message@,
{
    assert(after@ == FetchView::Body.next((Event::Body { content })@));
    assert(failed@ == FetchView::Body.next((Event::BodyFailed { message })@));
}

/// What a fetch wants done: requests to the file itself and to the target of the redirect, the one
/// with the token alone with credentials and without redirects, the token, and the body.
pub proof fn law_task_goes_by_the_state(fetch: Fetch, task: Task)
    requires
        call_ensures(Fetch::task, (&fetch,), task),
    ensures
        match fetch {
            Fetch::Plain { url } => task is Send && task->request.url@ == url@
                && task->request.authorization is None && task->request.follow_redirects,
            Fetch::Token { .. } => task is FindToken,
            Fetch::Authenticated { url, token } => task is Send && task->request.url@ == url@
                && task->request.authorization is Some && task->request.authorization->0@
                == "token "@ + token@ && !task->request.follow_redirects,
            Fetch::Redirected { target, .. } => task is Send && task->request.url@ == target@
                && task->request.authorization is None && task->request.follow_redirects,
            Fetch::Body => task is ReadBody,
            Fetch::Done { .. } => task is Finish,
        },
{
    assert(task@ == fetch@.task());
}

/// An event that does not answer the task changes nothing.
pub proof fn law_other_events_change_nothing(fetch: Fetch, event: Event, after: Fetch)
    requires
        call_ensures(Fetch::step, (fetch, event), after),
        match fetch {
            Fetch::Plain { .. } => !(event is Replied || event is Failed),
            Fetch::Token { .. } => event !is Token,
            Fetch::Authenticated { .. } => !(event is Replied || event is Failed),
            Fetch::Redirected { .. } => !(event is Replied || event is Failed),
            Fetch::Body => !(event is Body || event is BodyFailed),
            Fetch::Done { .. } => true,
        },
    ensures
        after@ == fetch@,
{
}

/// Nothing of a fetch, a task or an event is lost in what it stands for.
pub proof fn law_machine_stands_for_its_parts(fetch: Fetch, task: Task, event: Event)
    ensures
        match fetch {
            Fetch::Plain { url } => fetch@ is Plain && fetch@->Plain_url == url@,
            Fetch::Token { url, status } => fetch@ is Token && fetch@->Token_url == url@
                && fetch@->status == status@,
            Fetch::Authenticated { url, token } => fetch@ is Authenticated
                && fetch@->Authenticated_url == url@ && fetch@->token == token@,
            Fetch::Redirected { url, target } => fetch@ is Redirected && fetch@->Redirected_url
                == url@ && fetch@->target == target@,
            Fetch::Body => fetch@ is Body,
            Fetch::Done { result } => {
                &&& fetch@ is Done
                &&& result is Ok <==> fetch@->result is Ok
                &&& result is Ok ==> fetch@->result->Ok_0 == result->Ok_0@
                &&& result is Err ==> fetch@->result->Err_0 == result->Err_0@
            },
        },
        match task {
            Task::Send { request } => task@ is Send && task@->request == request@,
            Task::FindToken => task@ is FindToken,
            Task::ReadBody => task@ is ReadBody,
            Task::Finish => task@ is Finish,
        },
        match event {
            Event::Replied { reply } => event@ is Replied && event@->reply == reply@,
            Event::Failed { message } => event@ is Failed && event@->Failed_message == message@,
            Event::Token { token } => {
                &&& event@ is Token
                &&& event@->token is Some <==> token is Some
                &&& token is Some ==> event@->token->0 == token->0@
            },
            Event::Body { content } => event@ is Body && event@->content == content@,
            Event::BodyFailed { message } => event@ is BodyFailed && event@->BodyFailed_message
                == message@,
        },
{
}

/// The message about a reply is its four parts in full.
pub proof fn law_http_error_quotes_its_parts(status: &str, remark: &str, url: &str, message: String)
    requires
        call_ensures(http_error, (status, remark, url), message),
    ensures
        message@.len() == "HTTP "@.len() + status@.len() + remark@.len() + url@.len(),
        ("HTTP "@ + status@).is_prefix_of(message@),
        (remark@ + url@).is_suffix_of(message@),
{
    text::lemma_joined("HTTP "@ + status@, remark@ + url@);
    assert(message@ =~= ("HTTP "@ + status@) + (remark@ + url@));
}

} // verus!
