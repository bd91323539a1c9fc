use kindle_pult::FailureKind;
use kindle_pult::pipeline::Action;
use kindle_pult::pipeline::Event;
use kindle_pult::pipeline::FetchPolicy;
use kindle_pult::pipeline::State;
use kindle_pult::pipeline::step;

const STORY_JSON: &str = "{\"title\":\"Story\",\"byline\":null,\"date\":null,\"content\":\"<img src=\\\"/pics/one.png\\\"><img src=\\\"https://cdn.example.com/two.jpg\\\">\",\"plain_content\":null}";

fn action_signature(a: &Action) -> String {
    match a {
        Action::FetchPage { url } => format!("fetch-page {}", url),
        Action::Extract { page_name, artifact_name } => {
            format!("extract {} {}", page_name, artifact_name)
        }
        Action::FetchImage { url } => format!("fetch-image {}", url),
        Action::Finish => "finish".to_string(),
        Action::Abort => "abort".to_string(),
        Action::Idle => "idle".to_string(),
    }
}

#[test]
fn invalid_input_aborts_without_fetching() {
    let (state, action) = step(
        State::Start,
        Event::Begin { input: "not a url".to_string() }, FetchPolicy::FailFast);
    assert!(matches!(action, Action::Abort));
    match state {
        State::Failed { kind } => assert_eq!(kind, FailureKind::InvalidUrl),
        _ => panic!("expected a failed run"),
    }
}

#[test]
fn page_fetch_failure_aborts_and_cleans_up() {
    let (state, _) = step(
        State::Start,
        Event::Begin { input: "https://news.example.com/story".to_string() }, FetchPolicy::FailFast);
    let (state, action) = step(state, Event::PageFetchFailed, FetchPolicy::FailFast);
    assert!(matches!(action, Action::Abort));
    match state {
        State::Failed { kind } => assert_eq!(kind, FailureKind::FetchFailed),
        _ => panic!("expected a failed run"),
    }
}

#[test]
fn article_without_content_finishes_with_no_downloads() {
    let (state, _) = step(
        State::Start,
        Event::Begin { input: "https://news.example.com/story".to_string() }, FetchPolicy::FailFast);
    let (state, _) = step(
        state,
        Event::PageFetched { final_url: "https://news.example.com/story".to_string() }, FetchPolicy::FailFast);
    let (state, action) = step(
        state,
        Event::Extracted { artifact: Some("{\"title\":\"bare\",\"content\":null}".to_string()) }, FetchPolicy::FailFast);
    assert!(matches!(action, Action::Finish));
    match state {
        State::Done { article, refs, skipped: _ } => {
            assert_eq!(article.title, Some("bare".to_string()));
            assert_eq!(refs.len(), 0);
        }
        _ => panic!("expected a finished run"),
    }
}

#[test]
fn failed_extraction_aborts() {
    let (state, _) = step(
        State::Start,
        Event::Begin { input: "https://news.example.com/story".to_string() }, FetchPolicy::FailFast);
    let (state, _) = step(
        state,
        Event::PageFetched { final_url: "https://news.example.com/story".to_string() }, FetchPolicy::FailFast);
    let (state, action) = step(state, Event::Extracted { artifact: None }, FetchPolicy::FailFast);
    assert!(matches!(action, Action::Abort));
    assert!(matches!(state, State::Failed { kind: FailureKind::ExtractionFailed }));
}

#[test]
fn malformed_artifact_aborts() {
    let (state, _) = step(
        State::Start,
        Event::Begin { input: "https://news.example.com/story".to_string() }, FetchPolicy::FailFast);
    let (state, _) = step(
        state,
        Event::PageFetched { final_url: "https://news.example.com/story".to_string() }, FetchPolicy::FailFast);
    let (state, action) = step(
        state,
        Event::Extracted { artifact: Some("this is not an artifact".to_string()) }, FetchPolicy::FailFast);
    assert!(matches!(action, Action::Abort));
    assert!(matches!(state, State::Failed { kind: FailureKind::MalformedArtifact }));
}

#[test]
fn image_fetch_failure_aborts() {
    let (state, _) = step(
        State::Start,
        Event::Begin { input: "https://news.example.com/story".to_string() }, FetchPolicy::FailFast);
    let (state, _) = step(
        state,
        Event::PageFetched { final_url: "https://news.example.com/story".to_string() }, FetchPolicy::FailFast);
    let (state, _) = step(state, Event::Extracted { artifact: Some(STORY_JSON.to_string()) }, FetchPolicy::FailFast);
    let (state, action) = step(state, Event::ImageFetchFailed, FetchPolicy::FailFast);
    assert!(matches!(action, Action::Abort));
    assert!(matches!(state, State::Failed { kind: FailureKind::FetchFailed }));
}

#[test]
fn full_run_stages_page_artifact_and_two_images() {
    let (state, action) = step(
        State::Start,
        Event::Begin { input: "https://news.example.com/story".to_string() }, FetchPolicy::FailFast);
    assert_eq!(action_signature(&action), "fetch-page https://news.example.com/story");

    let (state, action) = step(
        state,
        Event::PageFetched { final_url: "https://news.example.com/story".to_string() }, FetchPolicy::FailFast);
    assert_eq!(action_signature(&action), "extract story article.json");

    let (state, action) = step(state, Event::Extracted { artifact: Some(STORY_JSON.to_string()) }, FetchPolicy::FailFast);
    assert_eq!(
        action_signature(&action),
        "fetch-image https://news.example.com/pics/one.png"
    );

    let (state, action) = step(
        state,
        Event::ImageFetched { final_url: "https://news.example.com/pics/one.png".to_string() }, FetchPolicy::FailFast);
    assert_eq!(action_signature(&action), "fetch-image https://cdn.example.com/two.jpg");

    let (state, action) = step(
        state,
        Event::ImageFetched { final_url: "https://cdn.example.com/two.jpg".to_string() }, FetchPolicy::FailFast);
    assert_eq!(action_signature(&action), "finish");
    match state {
        State::Done { article, refs, skipped: _ } => {
            assert!(article.content.is_some());
            assert!(!article.content.unwrap().is_empty());
            assert_eq!(refs.len(), 2);
            assert_eq!(refs[0].local_path, Some("one.png".to_string()));
            assert_eq!(refs[1].local_path, Some("two.jpg".to_string()));
        }
        _ => panic!("expected a finished run"),
    }
}

fn scripted_events() -> Vec<Event> {
    vec![
        Event::Begin { input: "https://news.example.com/story".to_string() },
        Event::PageFetched { final_url: "https://news.example.com/story".to_string() },
        Event::Extracted { artifact: Some(STORY_JSON.to_string()) },
        Event::ImageFetched { final_url: "https://news.example.com/pics/one.png".to_string() },
        Event::ImageFetched { final_url: "https://cdn.example.com/two.jpg".to_string() },
    ]
}

fn run_actions(events: Vec<Event>) -> Vec<String> {
    let mut state = State::Start;
    let mut actions = Vec::new();
    for event in events {
        let (next, action) = step(state, event, FetchPolicy::FailFast);
        state = next;
        actions.push(action_signature(&action));
    }
    actions
}

#[test]
fn identical_runs_request_identical_actions() {
    let first = run_actions(scripted_events());
    let second = run_actions(scripted_events());
    assert_eq!(first, second);
    assert_eq!(first.last().map(|s| s.as_str()), Some("finish"));
}

#[test]
fn mismatched_event_changes_nothing() {
    let (state, action) = step(State::Start, Event::PageFetchFailed, FetchPolicy::FailFast);
    assert!(matches!(action, Action::Idle));
    assert!(matches!(state, State::Start));
}

const FLAWED_JSON: &str = "{\"content\":\"<img src=\\\"/good.png\\\"><img alt=\\\"none\\\"><img src=\\\"http://[\\\"><img src=\\\"https://cdn.example.com/also.jpg\\\">\"}";

#[test]
fn best_effort_skips_bad_references_and_reports_them() {
    let (state, _) = step(
        State::Start,
        Event::Begin { input: "https://news.example.com/story".to_string() },
        FetchPolicy::BestEffort,
    );
    let (state, _) = step(
        state,
        Event::PageFetched { final_url: "https://news.example.com/story".to_string() },
        FetchPolicy::BestEffort,
    );
    let (state, action) = step(
        state,
        Event::Extracted { artifact: Some(FLAWED_JSON.to_string()) },
        FetchPolicy::BestEffort,
    );
    assert_eq!(
        action_signature(&action),
        "fetch-image https://news.example.com/good.png"
    );
    match &state {
        State::Downloading { refs, skipped, .. } => {
            assert_eq!(refs.len(), 2);
            assert_eq!(skipped, &vec!["".to_string(), "http://[".to_string()]);
        }
        _ => panic!("expected the download stage"),
    }

    // the first download fails; best effort carries on
    let (state, action) = step(state, Event::ImageFetchFailed, FetchPolicy::BestEffort);
    assert_eq!(action_signature(&action), "fetch-image https://cdn.example.com/also.jpg");

    let (state, action) = step(
        state,
        Event::ImageFetched { final_url: "https://cdn.example.com/also.jpg".to_string() },
        FetchPolicy::BestEffort,
    );
    assert_eq!(action_signature(&action), "finish");
    match state {
        State::Done { refs, skipped, .. } => {
            assert_eq!(refs.len(), 2);
            assert_eq!(refs[0].local_path, None);
            assert_eq!(refs[1].local_path, Some("also.jpg".to_string()));
            assert_eq!(skipped.len(), 2);
        }
        _ => panic!("expected a finished run"),
    }
}

#[test]
fn fail_fast_rejects_what_best_effort_skips() {
    let (state, _) = step(
        State::Start,
        Event::Begin { input: "https://news.example.com/story".to_string() },
        FetchPolicy::FailFast,
    );
    let (state, _) = step(
        state,
        Event::PageFetched { final_url: "https://news.example.com/story".to_string() },
        FetchPolicy::FailFast,
    );
    let (state, action) = step(
        state,
        Event::Extracted { artifact: Some(FLAWED_JSON.to_string()) },
        FetchPolicy::FailFast,
    );
    assert!(matches!(action, Action::Abort));
    assert!(matches!(state, State::Failed { kind: FailureKind::ImageReferenceInvalid }));
}
