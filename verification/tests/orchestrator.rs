use spider::modules::content::Searchable;
use spider::modules::crawlers::{Crawler, Discovery, DiscoveryError, TwoStageWeb};
use spider::modules::fetchers::{Fetcher, QBFetcher, Submission, SubmissionError};
use spider::modules::orchestrator::{Action, Event, Run};
use spider::modules::serialize::ContentFile;
use spider::modules::types::{Content, Reply, WebFile, WebResponse};

fn show(title: &str, first: u32, second: u32) -> Content {
    Content::new("", title, "S", first, "E", second, 2, "")
}

fn found(content: &Content) -> Event {
    Event::Discovered(Ok(WebFile { content: content.clone(), link: String::from("magnet:?x") }))
}

fn answered(file: &WebFile, body: &str) -> Event {
    Event::Submitted(Ok(WebResponse {
        content: file.clone(),
        response: String::from(body),
        success: body == "Ok.",
    }))
}

fn candidate(run: &Run) -> Content {
    match run.action() {
        Action::Discover(candidate) => candidate,
        other => panic!("no discovery: {:?}", other),
    }
}

fn submitted(run: &Run) -> WebFile {
    match run.action() {
        Action::Submit(file) => file,
        other => panic!("no submission: {:?}", other),
    }
}

fn saved(run: &Run) -> Vec<Content> {
    match run.action() {
        Action::Save(store) => store.content,
        other => panic!("no save: {:?}", other),
    }
}

/// Runs over `contents`; `available` says which candidates can be found, and
/// every found file is answered with `body`. Gives the store at the end and
/// the number of times it was saved.
fn run_with(contents: Vec<Content>, available: &[Content], body: &str) -> (Vec<Content>, usize) {
    let mut run = Run::start(ContentFile { content: contents });
    let mut saves = 0;
    for _ in 0..1000 {
        let event = match run.action() {
            Action::Discover(candidate) => {
                if available.contains(&candidate) {
                    found(&candidate)
                } else {
                    Event::Discovered(Err(DiscoveryError::FirstStageEmpty))
                }
            }
            Action::Submit(file) => answered(&file, body),
            Action::Save(_) => {
                saves += 1;
                Event::Saved
            }
            Action::Finish => {
                assert!(run.finished());
                return (run.store().content, saves);
            }
            Action::Halt(record) => panic!("halted at {:?}", record),
        };
        run = run.step(event);
    }
    panic!("the run does not end");
}

#[test]
fn empty_store_is_finished_at_once() {
    let (store, saves) = run_with(Vec::new(), &[], "Ok.");
    assert_eq!(store, Vec::<Content>::new());
    assert_eq!(saves, 0);
    assert_eq!(ContentFile::default().content, Vec::<Content>::new());
}

#[test]
fn one_record_found_and_accepted_advances_by_one_episode() {
    let run = Run::start(ContentFile { content: vec![show("A", 1, 5)] });
    assert_eq!(candidate(&run), show("A", 1, 6));
    let run = run.step(found(&show("A", 1, 6)));
    let file = submitted(&run);
    assert_eq!(file.content, show("A", 1, 6));
    assert_eq!(file.link, "magnet:?x");
    let run = run.step(answered(&file, "Ok."));
    assert_eq!(saved(&run), vec![show("A", 1, 6)]);
    let run = run.step(Event::Saved);
    assert!(run.finished());
    assert!(matches!(run.action(), Action::Finish));
    assert_eq!(run.store().content, vec![show("A", 1, 6)]);
}

#[test]
fn next_season_is_tried_after_next_episode() {
    let run = Run::start(ContentFile { content: vec![show("A", 1, 5)] });
    let run = run.step(Event::Discovered(Err(DiscoveryError::FetchFailed)));
    assert_eq!(candidate(&run), show("A", 2, 1));
    let run = run.step(found(&show("A", 2, 1)));
    let file = submitted(&run);
    let run = run.step(answered(&file, "Ok."));
    assert_eq!(saved(&run), vec![show("A", 2, 1)]);
}

#[test]
fn exhausted_candidates_leave_the_record() {
    let contents = vec![show("A", 1, 5), show("B", 3, 3)];
    let (store, saves) = run_with(contents.clone(), &[], "Ok.");
    assert_eq!(store, contents);
    assert_eq!(saves, 0);
}

#[test]
fn declined_submission_counts_as_failure() {
    let contents = vec![show("A", 1, 5)];
    let available = [show("A", 1, 6), show("A", 2, 1)];
    for body in ["ok", "Ok", "OK.", "Fails."] {
        let (store, saves) = run_with(contents.clone(), &available, body);
        assert_eq!(store, contents);
        assert_eq!(saves, 0);
    }
}

#[test]
fn failed_submission_moves_to_the_next_candidate() {
    let run = Run::start(ContentFile { content: vec![show("A", 1, 5), show("B", 1, 1)] });
    let run = run.step(found(&show("A", 1, 6)));
    let run = run.step(Event::Submitted(Err(SubmissionError::LoginFailed)));
    assert_eq!(candidate(&run), show("A", 2, 1));
    let run = run.step(found(&show("A", 2, 1)));
    let run = run.step(Event::Submitted(Err(SubmissionError::SubmitFailed)));
    assert_eq!(candidate(&run), show("B", 1, 2));
    assert_eq!(run.store().content, vec![show("A", 1, 5), show("B", 1, 1)]);
}

#[test]
fn each_advance_is_saved_with_the_whole_store() {
    let contents = vec![show("A", 1, 5), show("B", 2, 9), show("C", 7, 7)];
    let run = Run::start(ContentFile { content: contents });
    let run = run.step(found(&show("A", 1, 6)));
    let file = submitted(&run);
    let run = run.step(answered(&file, "Ok."));
    assert_eq!(saved(&run), vec![show("A", 1, 6), show("B", 2, 9), show("C", 7, 7)]);
    let run = run.step(Event::Saved);
    let run = run.step(Event::Discovered(Err(DiscoveryError::FirstStageEmpty)));
    let run = run.step(Event::Discovered(Err(DiscoveryError::SecondStageEmpty)));
    assert_eq!(candidate(&run), show("C", 7, 8));
    let run = run.step(Event::Discovered(Err(DiscoveryError::FirstStageEmpty)));
    let run = run.step(found(&show("C", 8, 1)));
    let file = submitted(&run);
    let run = run.step(answered(&file, "Ok."));
    assert_eq!(saved(&run), vec![show("A", 1, 6), show("B", 2, 9), show("C", 8, 1)]);
    let run = run.step(Event::Saved);
    assert!(run.finished());
}

#[test]
fn run_advances_each_record_at_most_once() {
    let contents = vec![show("A", 1, 5), show("B", 2, 9)];
    let available = [show("A", 1, 6), show("A", 1, 7), show("A", 2, 1), show("B", 3, 1)];
    let (store, saves) = run_with(contents, &available, "Ok.");
    assert_eq!(store, vec![show("A", 1, 6), show("B", 3, 1)]);
    assert_eq!(saves, 2);
}

#[test]
fn second_run_does_not_advance_again_while_nothing_new_is_found() {
    let available = [show("A", 1, 6)];
    let (store, saves) = run_with(vec![show("A", 1, 5)], &available, "Ok.");
    assert_eq!((store.clone(), saves), (vec![show("A", 1, 6)], 1));
    let (again, saves) = run_with(store, &available, "Ok.");
    assert_eq!((again, saves), (vec![show("A", 1, 6)], 0));
}

#[test]
fn events_that_are_not_awaited_change_nothing() {
    let run = Run::start(ContentFile { content: vec![show("A", 1, 5)] });
    let run = run.step(Event::Saved);
    let run = run.step(answered(&WebFile { content: show("A", 1, 6), link: String::new() }, "Ok."));
    assert_eq!(candidate(&run), show("A", 1, 6));
    let run = run.step(found(&show("A", 1, 6)));
    let run = run.step(found(&show("A", 9, 9)));
    let run = run.step(Event::Saved);
    let file = submitted(&run);
    assert_eq!(file.content, show("A", 1, 6));
    let run = run.step(answered(&file, "Ok."));
    let run = run.step(found(&show("A", 1, 7)));
    let run = run.step(answered(&WebFile { content: show("A", 1, 7), link: String::new() }, "Ok."));
    assert_eq!(saved(&run), vec![show("A", 1, 6)]);
    let run = run.step(Event::Saved);
    let run = run.step(Event::Saved);
    let run = run.step(found(&show("A", 1, 7)));
    assert!(run.finished());
    assert_eq!(run.store().content, vec![show("A", 1, 6)]);
}

#[test]
fn run_halts_at_a_record_with_a_counter_at_the_limit() {
    let contents = vec![show("A", 1, 5), show("B", u32::MAX, 1), show("C", 2, 2)];
    let run = Run::start(ContentFile { content: contents });
    let run = run.step(found(&show("A", 1, 6)));
    let file = submitted(&run);
    let run = run.step(answered(&file, "Ok."));
    assert_eq!(saved(&run), vec![show("A", 1, 6), show("B", u32::MAX, 1), show("C", 2, 2)]);
    let run = run.step(Event::Saved);
    match run.action() {
        Action::Halt(record) => assert_eq!(record, show("B", u32::MAX, 1)),
        other => panic!("not halted: {:?}", other),
    }
    assert!(!run.finished());
    let run = run.step(Event::Discovered(Err(DiscoveryError::FetchFailed)));
    let run = run.step(found(&show("C", 2, 3)));
    let run = run.step(Event::Saved);
    assert!(matches!(run.action(), Action::Halt(_)));
    assert_eq!(run.store().content, vec![show("A", 1, 6), show("B", u32::MAX, 1), show("C", 2, 2)]);
}

#[test]
fn run_halts_at_once_when_the_first_record_is_at_the_limit() {
    let run = Run::start(ContentFile { content: vec![show("A", 1, u32::MAX)] });
    match run.action() {
        Action::Halt(record) => assert_eq!(record, show("A", 1, u32::MAX)),
        other => panic!("not halted: {:?}", other),
    }
    let run = Run::start(ContentFile { content: vec![show("A", u32::MAX - 1, u32::MAX - 1)] });
    assert_eq!(candidate(&run), show("A", u32::MAX - 1, u32::MAX));
}

#[test]
fn store_copy_holds_the_same_items() {
    let contents = vec![show("A", 1, 5), show("B", 2, 9)];
    assert_eq!(ContentFile::holding(&contents).content, contents);
    assert_eq!(ContentFile { content: contents.clone() }.clone().content, contents);
}

fn web() -> TwoStageWeb {
    TwoStageWeb {
        url: String::from("https://index.example/"),
        search_page: String::from("search"),
        search_get_name: String::from("q"),
        categories: Vec::new(),
        categories_get_name: String::from("c"),
        user_agent: String::from("agent/1"),
        limit: 1,
        first_stage_match: String::from("a.result"),
        second_stage_match: String::from("a.download"),
    }
}

fn client() -> QBFetcher {
    QBFetcher {
        url: String::from("http://box/"),
        add_url: String::from("/add"),
        login_url: String::from("/login"),
        username: String::new(),
        password: String::new(),
        save_path: String::from("/data/"),
    }
}

/// Drives a discovery against an index that lists any query as its own
/// result and serves one fixed link on every result page.
fn discover(web: &TwoStageWeb, candidate: Content) -> Result<WebFile, DiscoveryError> {
    let query = candidate.to_query().to_lowercase().replace(' ', "-");
    let mut state = web.find(candidate);
    while let Some(request) = web.request(&state) {
        let page = if request.url.contains("/search") {
            format!("<a class=\"result\" href=\"/view/{}\">hit</a>", query)
        } else {
            String::from("<a class=\"download\" href=\"/get/fixed\">get</a>")
        };
        state = web.resume(state, Reply::Text(page));
    }
    state.outcome().unwrap()
}

/// Drives a submission against a client that answers every request with
/// `Ok.`.
fn submit(client: &QBFetcher, file: WebFile) -> Result<WebResponse, SubmissionError> {
    let mut state = client.fetch(file);
    while client.request(&state).is_some() {
        state = client.resume(state, Reply::Text(String::from("Ok.")));
    }
    state.outcome().unwrap()
}

#[test]
fn end_to_end_run_increments_the_second_counter_by_one() {
    let (web, client) = (web(), client());
    let mut run = Run::start(ContentFile { content: vec![show("Show", 1, 5)] });
    let mut written: Vec<Vec<Content>> = Vec::new();
    for _ in 0..100 {
        let event = match run.action() {
            Action::Discover(candidate) => Event::Discovered(discover(&web, candidate)),
            Action::Submit(file) => {
                assert_eq!(file.link, "https://index.example/get/fixed");
                Event::Submitted(submit(&client, file))
            }
            Action::Save(store) => {
                written.push(store.content);
                Event::Saved
            }
            Action::Finish => break,
            Action::Halt(record) => panic!("halted at {:?}", record),
        };
        run = run.step(event);
    }
    assert!(run.finished());
    assert_eq!(run.store().content, vec![show("Show", 1, 6)]);
    assert_eq!(written, vec![vec![show("Show", 1, 6)]]);
}

#[test]
fn discovery_outcome_of_a_waiting_state_is_none() {
    let web = web();
    let state = web.find(show("Show", 1, 5));
    assert!(matches!(state, Discovery::Searching { .. }));
    assert!(state.outcome().is_none());
    let client = client();
    let state = client.fetch(WebFile { content: show("Show", 1, 5), link: String::new() });
    assert!(matches!(state, Submission::Connecting(_)));
    assert!(state.outcome().is_none());
}
