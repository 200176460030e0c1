use spider::modules::fetchers::{
    FetchRequest, Fetcher, FetchersConfig, FetchersConfigs, QBFetcher, Submission, SubmissionError,
    SESSION_TIMEOUT_SECS,
};
use spider::modules::types::{Content, Reply, WebFile};

fn client(username: &str) -> QBFetcher {
    QBFetcher {
        url: String::from("http://box:8080//"),
        add_url: String::from("/api/v2/torrents/add"),
        login_url: String::from("/api/v2/auth/login"),
        username: String::from(username),
        password: String::from("secret"),
        save_path: String::from("/data/shows/"),
    }
}

fn file() -> WebFile {
    WebFile {
        content: Content::new("", "Show", "S", 1, "E", 9, 2, ""),
        link: String::from("magnet:?xt=urn:btih:abc"),
    }
}

fn text(body: &str) -> Reply {
    Reply::Text(String::from(body))
}

fn form(request: Option<FetchRequest>) -> (String, Vec<(String, String)>) {
    match request {
        Some(FetchRequest::Post(form)) => (form.url, form.fields),
        other => panic!("no form: {:?}", other),
    }
}

fn pair(name: &str, value: &str) -> (String, String) {
    (String::from(name), String::from(value))
}

fn failure(state: Submission) -> SubmissionError {
    match state {
        Submission::Failed(error) => error,
        other => panic!("not failed: {:?}", other),
    }
}

fn adding(client: &QBFetcher) -> Submission {
    let state = client.resume(client.fetch(file()), text(""));
    let state = match state {
        Submission::LoggingIn(_) => client.resume(state, text("Ok.")),
        other => other,
    };
    assert!(matches!(state, Submission::Adding(_)));
    state
}

fn answered(body: &str) -> (bool, String) {
    let client = client("");
    match client.resume(adding(&client), text(body)).outcome() {
        Some(Ok(response)) => {
            assert_eq!(response.content, file());
            (response.success, response.response)
        }
        other => panic!("no answer: {:?}", other),
    }
}

#[test]
fn submission_opens_a_session_first() {
    let client = client("user");
    let state = client.fetch(file());
    match client.request(&state) {
        Some(FetchRequest::Open(session)) => {
            assert_eq!(session.user_agent, "rusty-spider/1.0");
            assert_eq!(session.referer, "http://box:8080");
            assert_eq!(session.timeout_secs, 30);
            assert!(session.cookies);
        }
        other => panic!("no session: {:?}", other),
    }
    assert_eq!(SESSION_TIMEOUT_SECS, 30);
}

#[test]
fn session_that_cannot_be_opened_is_a_transport_failure() {
    let client = client("user");
    let state = client.resume(client.fetch(file()), Reply::Failed);
    assert!(client.request(&state).is_none());
    assert_eq!(failure(state), SubmissionError::Transport);
}

#[test]
fn login_is_sent_when_a_username_is_configured() {
    let client = client("user");
    let state = client.resume(client.fetch(file()), text(""));
    assert!(matches!(state, Submission::LoggingIn(_)));
    let (url, fields) = form(client.request(&state));
    assert_eq!(url, "http://box:8080/api/v2/auth/login");
    assert_eq!(fields, vec![pair("username", "user"), pair("password", "secret")]);
}

#[test]
fn login_is_skipped_without_username() {
    let client = client("");
    let state = client.resume(client.fetch(file()), text(""));
    assert!(matches!(state, Submission::Adding(_)));
}

#[test]
fn login_is_confirmed_by_ok_in_any_case() {
    let client = client("user");
    for body in ["Ok.", "OK", "ok", "it is oK!", "token"] {
        let state = client.resume(client.fetch(file()), text(""));
        let state = client.resume(state, text(body));
        assert!(matches!(state, Submission::Adding(_)), "{}", body);
    }
}

#[test]
fn login_that_is_not_confirmed_fails() {
    let client = client("user");
    for body in ["Fails.", "", "o k", "K.O."] {
        let state = client.resume(client.fetch(file()), text(""));
        let state = client.resume(state, text(body));
        assert_eq!(failure(state), SubmissionError::LoginFailed, "{}", body);
    }
    let state = client.resume(client.fetch(file()), text(""));
    assert_eq!(failure(client.resume(state, Reply::Failed)), SubmissionError::LoginFailed);
}

#[test]
fn link_is_added_with_its_save_directory() {
    let client = client("user");
    let (url, fields) = form(client.request(&adding(&client)));
    assert_eq!(url, "http://box:8080/api/v2/torrents/add");
    assert_eq!(
        fields,
        vec![pair("urls", "magnet:?xt=urn:btih:abc"), pair("savepath", "/data/shows/Show")]
    );
}

#[test]
fn failed_add_request_is_a_submit_failure() {
    let client = client("");
    assert_eq!(failure(client.resume(adding(&client), Reply::Failed)), SubmissionError::SubmitFailed);
}

#[test]
fn exact_confirmation_is_a_success() {
    assert_eq!(answered("Ok."), (true, String::from("Ok.")));
}

#[test]
fn any_other_body_is_no_success_and_no_error() {
    for body in ["ok", "Ok", "OK.", "Ok.\n", " Ok.", "Fails.", ""] {
        assert_eq!(answered(body), (false, String::from(body)));
    }
}

#[test]
fn ended_submission_ignores_replies() {
    let client = client("");
    let state = client.resume(adding(&client), text("Ok."));
    assert!(client.request(&state).is_none());
    let state = client.resume(state, Reply::Failed);
    assert!(matches!(state, Submission::Done(_)));
    let state = client.resume(Submission::Failed(SubmissionError::LoginFailed), text("Ok."));
    assert_eq!(failure(state), SubmissionError::LoginFailed);
    assert!(client.fetch(file()).outcome().is_none());
}

#[test]
fn configured_client_behaves_as_its_variant() {
    let configs = FetchersConfigs { fetchers: vec![FetchersConfig::QBFetcher(client(""))] };
    let fetcher = &configs.fetchers[0];
    let state = fetcher.fetch(file());
    assert!(matches!(fetcher.request(&state), Some(FetchRequest::Open(_))));
    let state = fetcher.resume(state, text(""));
    let (url, _) = form(fetcher.request(&state));
    assert_eq!(url, "http://box:8080/api/v2/torrents/add");
    match fetcher.resume(state, text("Ok.")).outcome() {
        Some(Ok(response)) => assert!(response.success),
        other => panic!("no answer: {:?}", other),
    }
}
