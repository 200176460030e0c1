use crate::modules::text::{contains, contains_text, lowercase, to_lowercase, trim_end, trim_end_matches};
use crate::modules::types::{Reply, WebFile, WebFileView, WebResponse, WebResponseView};
use vstd::prelude::*;
use vstd::string::StringExecFns;

verus! {

/// Seconds after which a request of a session is given up.
pub const SESSION_TIMEOUT_SECS: u64 = 30;

/// The submission strategies of a configuration, in its order.
#[derive(Debug)]
pub struct FetchersConfigs {
    pub fetchers: Vec<FetchersConfig>,
}

/// One configured submission strategy.
#[derive(Debug)]
pub enum FetchersConfig {
    QBFetcher(QBFetcher),
}

/// Submission to a download client that keeps a queue and is driven over
/// HTTP forms.
#[derive(Debug)]
pub struct QBFetcher {
    pub url: String,
    pub add_url: String,
    pub login_url: String,
    /// Empty where the client asks for no login.
    pub username: String,
    pub password: String,
    pub save_path: String,
}

/// Why a submission ended without an answer of the client.
#[derive(Debug, Clone, Copy, PartialEq, Eq, Structural)]
pub enum SubmissionError {
    /// The login request failed, or its answer did not confirm the login.
    LoginFailed,
    /// The request that adds the link failed.
    SubmitFailed,
    /// No session could be opened.
    Transport,
}

/// The settings of the HTTP session that one submission runs in.
#[derive(Debug)]
pub struct Session {
    pub user_agent: String,
    pub referer: String,
    pub timeout_secs: u64,
    /// Whether cookies that the client sets are sent back on later requests.
    pub cookies: bool,
}

/// A form to send with an HTTP POST within the session.
#[derive(Debug)]
pub struct Form {
    pub url: String,
    pub fields: Vec<(String, String)>,
}

/// What a submission asks its caller to do next.
#[derive(Debug)]
pub enum FetchRequest {
    /// Open the session. A reply with any text reports that it stands.
    Open(Session),
    /// Send the form and reply with the body of the response.
    Post(Form),
}

/// The mathematical value of a [`FetchRequest`].
pub enum FetchRequestView {
    Open { user_agent: Seq<char>, referer: Seq<char>, timeout_secs: nat, cookies: bool },
    Post { url: Seq<char>, fields: Seq<(Seq<char>, Seq<char>)> },
}

/// The views of the fields of a form, in order.
pub open spec fn field_views(fields: Seq<(String, String)>) -> Seq<(Seq<char>, Seq<char>)> {
    fields.map_values(|field: (String, String)| (field.0@, field.1@))
}

impl View for FetchRequest {
    type V = FetchRequestView;

    open spec fn view(&self) -> FetchRequestView {
        match self {
            FetchRequest::Open(session) => FetchRequestView::Open {
                user_agent: session.user_agent@,
                referer: session.referer@,
                timeout_secs: session.timeout_secs as nat,
                cookies: session.cookies,
            },
            FetchRequest::Post(form) => FetchRequestView::Post {
                url: form.url@,
                fields: field_views(form.fields@),
            },
        }
    }
}

/// The view of an optional request.
pub open spec fn request_view(request: Option<FetchRequest>) -> Option<FetchRequestView> {
    match request {
        Some(r) => Some(r@),
        None => None,
    }
}

/// How far one submission has come.
#[derive(Debug)]
pub enum Submission {
    /// The session is being opened.
    Connecting(WebFile),
    /// The answer to the login is awaited.
    LoggingIn(WebFile),
    /// The answer to the added link is awaited.
    Adding(WebFile),
    /// The client has answered.
    Done(WebResponse),
    /// The submission ended without an answer.
    Failed(SubmissionError),
}

/// The mathematical value of a [`Submission`].
pub enum SubmissionView {
    Connecting(WebFileView),
    LoggingIn(WebFileView),
    Adding(WebFileView),
    Done(WebResponseView),
    Failed(SubmissionError),
}

impl View for Submission {
    type V = SubmissionView;

    open spec fn view(&self) -> SubmissionView {
        match self {
            Submission::Connecting(file) => SubmissionView::Connecting(file@),
            Submission::LoggingIn(file) => SubmissionView::LoggingIn(file@),
            Submission::Adding(file) => SubmissionView::Adding(file@),
            Submission::Done(response) => SubmissionView::Done(response@),
            Submission::Failed(error) => SubmissionView::Failed(*error),
        }
    }
}

/// The user agent that every session names.
pub open spec fn agent() -> Seq<char> {
    "rusty-spider/1.0"@
}

/// The body with which the client confirms an added link.
pub open spec fn accepted() -> Seq<char> {
    "Ok."@
}

/// Whether `body` confirms a login: it holds `ok`, in any case of letters.
pub open spec fn confirms_login(body: Seq<char>) -> bool {
    contains(lowercase(body), "ok"@)
}

/// What the client answered to `file`: the body as it came, and whether it
/// is exactly the confirmation.
pub open spec fn answer(file: WebFileView, body: Seq<char>) -> WebResponseView {
    WebResponseView { content: file, response: body, success: body == accepted() }
}

/// A submission strategy: a protocol that hands a located link to a
/// download client through requests that the caller carries out for it.
///
/// `fetch` opens a submission. While `request` names a request, the caller
/// carries it out and hands the reply to `resume`. When `request` names
/// none, the submission has ended in `Done` or `Failed`.
pub trait Fetcher {
    /// The state in which a submission of `file` begins.
    spec fn started(&self, file: WebFileView) -> SubmissionView;

    /// The request that `state` waits for, if it waits for one.
    spec fn asked(&self, state: SubmissionView) -> Option<FetchRequestView>;

    /// The state that follows `state` on `reply`.
    spec fn resumed(&self, state: SubmissionView, reply: Option<Seq<char>>) -> SubmissionView;

    /// Opens a submission of `content`.
    fn fetch(&self, content: WebFile) -> (state: Submission)
        ensures
            state@ == self.started(content@),
    ;

    /// Names the request that `state` waits for, if it waits for one.
    fn request(&self, state: &Submission) -> (request: Option<FetchRequest>)
        ensures
            request_view(request) == self.asked(state@),
    ;

    /// Takes the submission on from `state` with the reply to its request.
    fn resume(&self, state: Submission, reply: Reply) -> (next: Submission)
        ensures
            next@ == self.resumed(state@, reply@),
    ;
}

impl QBFetcher {
    /// The address of the client without the slashes that it ends with.
    pub open spec fn base(&self) -> Seq<char> {
        trim_end(self.url@, '/')
    }

    /// The directory that the download of `file` is saved to: the
    /// configured path with the title of the item written behind it.
    pub open spec fn save_dir(&self, file: WebFileView) -> Seq<char> {
        self.save_path@ + file.content.title
    }

    /// The session that a submission runs in.
    pub open spec fn session(&self) -> FetchRequestView {
        FetchRequestView::Open {
            user_agent: agent(),
            referer: self.base(),
            timeout_secs: SESSION_TIMEOUT_SECS as nat,
            cookies: true,
        }
    }

    /// The form that logs in.
    pub open spec fn login_form(&self) -> FetchRequestView {
        FetchRequestView::Post {
            url: self.base() + self.login_url@,
            fields: seq![("username"@, self.username@), ("password"@, self.password@)],
        }
    }

    /// The form that adds the link of `file` to the queue.
    pub open spec fn add_form(&self, file: WebFileView) -> FetchRequestView {
        FetchRequestView::Post {
            url: self.base() + self.add_url@,
            fields: seq![("urls"@, file.link), ("savepath"@, self.save_dir(file))],
        }
    }

    /// Whether a login is configured.
    pub open spec fn logs_in(&self) -> bool {
        self.username@.len() > 0
    }

    /// The configured address followed by `path`.
    fn endpoint(&self, path: &String) -> (url: String)
        ensures
            url@ == self.base() + path@,
    {
        let mut url = trim_end_matches(self.url.as_str(), '/');
        url.append(path.as_str());
        url
    }

    fn open_session(&self) -> (request: FetchRequest)
        ensures
            request@ == self.session(),
    {
        FetchRequest::Open(
            Session {
                user_agent: String::from_str("rusty-spider/1.0"),
                referer: trim_end_matches(self.url.as_str(), '/'),
                timeout_secs: SESSION_TIMEOUT_SECS,
                cookies: true,
            },
        )
    }

    fn post_login(&self) -> (request: FetchRequest)
        ensures
            request@ == self.login_form(),
    {
        let fields = vec![
            (String::from_str("username"), self.username.clone()),
            (String::from_str("password"), self.password.clone()),
        ];
        let form = Form { url: self.endpoint(&self.login_url), fields };
        assert(field_views(form.fields@) =~= seq![
            ("username"@, self.username@),
            ("password"@, self.password@),
        ]);
        FetchRequest::Post(form)
    }

    fn post_add(&self, file: &WebFile) -> (request: FetchRequest)
        ensures
            request@ == self.add_form(file@),
    {
        let mut save_dir = self.save_path.clone();
        save_dir.append(file.content.title.as_str());
        let fields = vec![
            (String::from_str("urls"), file.link.clone()),
            (String::from_str("savepath"), save_dir),
        ];
        let form = Form { url: self.endpoint(&self.add_url), fields };
        assert(field_views(form.fields@) =~= seq![
            ("urls"@, file@.link),
            ("savepath"@, self.save_dir(file@)),
        ]);
        FetchRequest::Post(form)
    }
}

impl Fetcher for QBFetcher {
    open spec fn started(&self, file: WebFileView) -> SubmissionView {
        SubmissionView::Connecting(file)
    }

    open spec fn asked(&self, state: SubmissionView) -> Option<FetchRequestView> {
        match state {
            SubmissionView::Connecting(_) => Some(self.session()),
            SubmissionView::LoggingIn(_) => Some(self.login_form()),
            SubmissionView::Adding(file) => Some(self.add_form(file)),
            _ => None,
        }
    }

    open spec fn resumed(&self, state: SubmissionView, reply: Option<Seq<char>>) -> SubmissionView {
        match state {
            SubmissionView::Connecting(file) => match reply {
                None => SubmissionView::Failed(SubmissionError::Transport),
                Some(_) => if self.logs_in() {
                    SubmissionView::LoggingIn(file)
                } else {
                    SubmissionView::Adding(file)
                },
            },
            SubmissionView::LoggingIn(file) => match reply {
                None => SubmissionView::Failed(SubmissionError::LoginFailed),
                Some(body) => if confirms_login(body) {
                    SubmissionView::Adding(file)
                } else {
                    SubmissionView::Failed(SubmissionError::LoginFailed)
                },
            },
            SubmissionView::Adding(file) => match reply {
                None => SubmissionView::Failed(SubmissionError::SubmitFailed),
                Some(body) => SubmissionView::Done(answer(file, body)),
            },
            _ => state,
        }
    }

    fn fetch(&self, content: WebFile) -> (state: Submission) {
        Submission::Connecting(content)
    }

    fn request(&self, state: &Submission) -> (request: Option<FetchRequest>) {
        match state {
            Submission::Connecting(_) => Some(self.open_session()),
            Submission::LoggingIn(_) => Some(self.post_login()),
            Submission::Adding(file) => Some(self.post_add(file)),
            _ => None,
        }
    }

    fn resume(&self, state: Submission, reply: Reply) -> (next: Submission) {
        match state {
            Submission::Connecting(file) => match reply {
                Reply::Failed => Submission::Failed(SubmissionError::Transport),
                Reply::Text(_) => if self.username.as_str().is_empty() {
                    Submission::Adding(file)
                } else {
                    Submission::LoggingIn(file)
                },
            },
            Submission::LoggingIn(file) => match reply {
                Reply::Failed => Submission::Failed(SubmissionError::LoginFailed),
                Reply::Text(body) => {
                    let lower = to_lowercase(body.as_str());
                    if contains_text(lower.as_str(), "ok") {
                        Submission::Adding(file)
                    } else {
                        Submission::Failed(SubmissionError::LoginFailed)
                    }
                },
            },
            Submission::Adding(file) => match reply {
                Reply::Failed => Submission::Failed(SubmissionError::SubmitFailed),
                Reply::Text(body) => {
                    let success = body == String::from_str("Ok.");
                    Submission::Done(WebResponse { content: file, response: body, success })
                },
            },
            Submission::Done(response) => Submission::Done(response),
            Submission::Failed(error) => Submission::Failed(error),
        }
    }
}

impl Fetcher for FetchersConfig {
    open spec fn started(&self, file: WebFileView) -> SubmissionView {
        match self {
            FetchersConfig::QBFetcher(client) => client.started(file),
        }
    }

    open spec fn asked(&self, state: SubmissionView) -> Option<FetchRequestView> {
        match self {
            FetchersConfig::QBFetcher(client) => client.asked(state),
        }
    }

    open spec fn resumed(&self, state: SubmissionView, reply: Option<Seq<char>>) -> SubmissionView {
        match self {
            FetchersConfig::QBFetcher(client) => client.resumed(state, reply),
        }
    }

    fn fetch(&self, content: WebFile) -> (state: Submission) {
        match self {
            FetchersConfig::QBFetcher(client) => client.fetch(content),
        }
    }

    fn request(&self, state: &Submission) -> (request: Option<FetchRequest>) {
        match self {
            FetchersConfig::QBFetcher(client) => client.request(state),
        }
    }

    fn resume(&self, state: Submission, reply: Reply) -> (next: Submission) {
        match self {
            FetchersConfig::QBFetcher(client) => client.resume(state, reply),
        }
    }
}

/// What a submission that has ended gave.
pub open spec fn outcome_view(outcome: Option<Result<WebResponse, SubmissionError>>) -> Option<
    Result<WebResponseView, SubmissionError>,
> {
    match outcome {
        Some(Ok(response)) => Some(Ok(response@)),
        Some(Err(error)) => Some(Err(error)),
        None => None,
    }
}

impl Submission {
    /// What this submission gave, `None` while it waits for a reply.
    pub open spec fn result(state: SubmissionView) -> Option<
        Result<WebResponseView, SubmissionError>,
    > {
        match state {
            SubmissionView::Done(response) => Some(Ok(response)),
            SubmissionView::Failed(error) => Some(Err(error)),
            _ => None,
        }
    }

    /// What this submission gave, `None` while it waits for a reply.
    pub fn outcome(self) -> (outcome: Option<Result<WebResponse, SubmissionError>>)
        ensures
            outcome_view(outcome) == Self::result(self@),
    {
        match self {
            Submission::Done(response) => Some(Ok(response)),
            Submission::Failed(error) => Some(Err(error)),
            _ => None,
        }
    }
}

/// Whatever the client answers to an added link, the submission ends with
/// that answer and not with an error, and it counts as a success exactly
/// when the body is `Ok.`: a body that differs in case or lacks the full
/// stop is no success.
pub proof fn lemma_success_is_exact_confirmation(
    client: QBFetcher,
    file: WebFileView,
    body: Seq<char>,
)
    ensures
        client.resumed(SubmissionView::Adding(file), Some(body)) == SubmissionView::Done(
            answer(file, body),
        ),
        answer(file, body).response == body,
        answer(file, body).content == file,
        answer(file, body).success <==> body == "Ok."@,
        answer(file, "Ok."@).success,
        !answer(file, "ok"@).success,
        !answer(file, "Ok"@).success,
        !answer(file, "OK."@).success,
        !answer(file, Seq::empty()).success,
{
    reveal_strlit("Ok.");
    reveal_strlit("ok");
    reveal_strlit("Ok");
    reveal_strlit("OK.");
    assert("Ok."@.len() == 3);
    assert("ok"@.len() == 2);
    assert("Ok"@.len() == 2);
    assert("Ok."@[1] == 'k');
    assert("OK."@[1] == 'K');
}

/// A submission sends each request once: after the replies to the opening
/// of the session, to the login and to the added link it has ended, and an
/// ended submission asks for nothing and stays as it is. Without a
/// configured login it has ended after two replies.
pub proof fn lemma_submission_ends_after_three_replies(
    client: QBFetcher,
    file: WebFileView,
    first: Option<Seq<char>>,
    second: Option<Seq<char>>,
    third: Option<Seq<char>>,
    later: Option<Seq<char>>,
)
    ensures
        ({
            let end = client.resumed(
                client.resumed(client.resumed(client.started(file), first), second),
                third,
            );
            &&& end is Done || end is Failed
            &&& client.asked(end) is None
            &&& client.resumed(end, later) == end
            &&& end matches SubmissionView::Done(response) ==> response.content == file
        }),
        !client.logs_in() ==> ({
            let end = client.resumed(client.resumed(client.started(file), first), second);
            end is Done || end is Failed
        }),
{
}

} // verus!
