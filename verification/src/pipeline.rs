//! The pipeline orchestrator: a state machine over one linear path,
//! `Start → AwaitingPage → AwaitingArtifact → Downloading → Done`, with a
//! `Failed` terminal reachable from every non-terminal state.
//!
//! The machine decides; the caller performs. [`step`] consumes the
//! current state and the outcome of the last action, and returns the next
//! state with the next action: fetch the page, run the extraction
//! backend, fetch one image, finish, or abort. A failure at any stage is
//! final for that run; the caller may start the whole pipeline again.
//!
//! A [`FetchPolicy`] chooses how image trouble is treated: the default
//! fails the run on the first bad reference or failed download; the
//! best-effort option skips what cannot be resolved or fetched and
//! reports it instead.

use vstd::prelude::*;

use crate::FailureKind;
use crate::article::Article;
use crate::article::ArticleV;
use crate::codec::decode_article;
use crate::codec::decode_spec;
use crate::resolve::ImageRefV;
use crate::resolve::ImageReference;
use crate::resolve::resolve_content;
use crate::resolve::resolve_content_lenient;
use crate::resolve::resolve_references;
use crate::resolve::resolve_references_lenient;
use crate::urls::derive_filename;
use crate::urls::filename_spec;
use crate::urls::url_parse;
use crate::urls::validate_url;

verus! {

/// How one run treats a bad image reference or a failed image download.
#[derive(Clone, Copy, Debug, PartialEq, Eq, Structural)]
pub enum FetchPolicy {
    /// The default: the first bad reference or failed image download
    /// fails the whole run.
    FailFast,
    /// Skip what cannot be resolved or fetched and still finish: the
    /// skipped `src` texts and the references left without a local file
    /// report what failed.
    BestEffort,
}

/// The mathematical value of an [`Event`].
pub ghost enum EventV {
    Begin { input: Seq<char> },
    PageFetched { final_url: Seq<char> },
    PageFetchFailed,
    Extracted { artifact: Option<Seq<char>> },
    ImageFetched { final_url: Seq<char> },
    ImageFetchFailed,
}

/// What the caller reports back after performing an action.
pub enum Event {
    /// The user asked for this input to be downloaded as an article.
    Begin { input: String },
    /// The page fetch succeeded; the body is held by the caller and the
    /// final (post-redirect) URL is reported.
    PageFetched { final_url: String },
    /// The page fetch failed at the transport or protocol level.
    PageFetchFailed,
    /// The extraction backend ran: the artifact text where the backend
    /// exited cleanly and left the artifact behind, `None` otherwise.
    Extracted { artifact: Option<String> },
    /// One image fetch succeeded, with its final URL.
    ImageFetched { final_url: String },
    /// One image fetch failed.
    ImageFetchFailed,
}

impl View for Event {
    type V = EventV;

    open spec fn view(&self) -> EventV {
        match self {
            Event::Begin { input } => EventV::Begin { input: input@ },
            Event::PageFetched { final_url } => EventV::PageFetched { final_url: final_url@ },
            Event::PageFetchFailed => EventV::PageFetchFailed,
            Event::Extracted { artifact } => EventV::Extracted { artifact: artifact.deep_view() },
            Event::ImageFetched { final_url } => EventV::ImageFetched { final_url: final_url@ },
            Event::ImageFetchFailed => EventV::ImageFetchFailed,
        }
    }
}

/// The mathematical value of an [`Action`].
pub ghost enum ActionV {
    FetchPage { url: Seq<char> },
    Extract { page_name: Seq<char>, artifact_name: Seq<char> },
    FetchImage { url: Seq<char> },
    Finish,
    Abort,
    Idle,
}

/// What the caller must do next.
pub enum Action {
    /// Create the staging area, then fetch this absolute URL.
    FetchPage { url: String },
    /// Write the fetched page body under `page_name` in the staging
    /// area, run the extraction backend on it with `artifact_name` as
    /// the output path, and read the artifact back.
    Extract { page_name: String, artifact_name: String },
    /// Fetch this absolute image URL into the staging area.
    FetchImage { url: String },
    /// Success: keep the staging area and hand the article out.
    Finish,
    /// Failure: report it and remove the staging area if one was
    /// created.
    Abort,
    /// The event did not belong to the current state; nothing to do.
    Idle,
}

impl View for Action {
    type V = ActionV;

    open spec fn view(&self) -> ActionV {
        match self {
            Action::FetchPage { url } => ActionV::FetchPage { url: url@ },
            Action::Extract { page_name, artifact_name } => ActionV::Extract {
                page_name: page_name@,
                artifact_name: artifact_name@,
            },
            Action::FetchImage { url } => ActionV::FetchImage { url: url@ },
            Action::Finish => ActionV::Finish,
            Action::Abort => ActionV::Abort,
            Action::Idle => ActionV::Idle,
        }
    }
}

/// The mathematical value of a [`State`].
pub ghost enum StateV {
    Start,
    AwaitingPage { url: Seq<char> },
    AwaitingArtifact { url: Seq<char>, base: Seq<char>, page_name: Seq<char> },
    Downloading {
        article: ArticleV,
        refs: Seq<ImageRefV>,
        staged: Seq<ImageRefV>,
        skipped: Seq<Seq<char>>,
    },
    Done { article: ArticleV, refs: Seq<ImageRefV>, skipped: Seq<Seq<char>> },
    Failed { kind: FailureKind },
}

/// Where one run stands.
pub enum State {
    /// Nothing has happened yet.
    Start,
    /// The input validated as `url`; the page fetch is under way.
    AwaitingPage { url: String },
    /// The page was fetched and stored under `page_name`; `base` is the
    /// final URL, the base for relative image references; the extraction
    /// backend is under way.
    AwaitingArtifact { url: String, base: String, page_name: String },
    /// The article was decoded and its references resolved; `staged`
    /// holds the references already handled, each fetched one with its
    /// local file name, and the fetch of `refs[staged.len()]` is under
    /// way. `skipped` holds the `src` text of every reference the
    /// best-effort policy left behind.
    Downloading {
        article: Article,
        refs: Vec<ImageReference>,
        staged: Vec<ImageReference>,
        skipped: Vec<String>,
    },
    /// Terminal success: the article and its references; a reference
    /// without a local file name is a download the best-effort policy
    /// skipped, and `skipped` reports the references that never
    /// resolved.
    Done { article: Article, refs: Vec<ImageReference>, skipped: Vec<String> },
    /// Terminal failure.
    Failed { kind: FailureKind },
}

impl View for State {
    type V = StateV;

    open spec fn view(&self) -> StateV {
        match self {
            State::Start => StateV::Start,
            State::AwaitingPage { url } => StateV::AwaitingPage { url: url@ },
            State::AwaitingArtifact { url, base, page_name } => StateV::AwaitingArtifact {
                url: url@,
                base: base@,
                page_name: page_name@,
            },
            State::Downloading { article, refs, staged, skipped } => StateV::Downloading {
                article: article@,
                refs: refs.deep_view(),
                staged: staged.deep_view(),
                skipped: skipped.deep_view(),
            },
            State::Done { article, refs, skipped } => StateV::Done {
                article: article@,
                refs: refs.deep_view(),
                skipped: skipped.deep_view(),
            },
            State::Failed { kind } => StateV::Failed { kind: *kind },
        }
    }
}

/// The fallback file name for the fetched page.
pub open spec fn page_fallback() -> Seq<char> {
    seq!['t', 'm', 'p', '.', 'b', 'i', 'n']
}

/// The fallback file name for a fetched image.
pub open spec fn image_fallback() -> Seq<char> {
    seq!['t', 'm', 'p', '.', 'j', 'p', 'g']
}

/// The artifact file name inside the staging area.
pub open spec fn artifact_name() -> Seq<char> {
    seq!['a', 'r', 't', 'i', 'c', 'l', 'e', '.', 'j', 's', 'o', 'n']
}

/// Move the download stage one reference forward: stage
/// `refs[staged.len()]` with the given local file name (`None` for a
/// download the best-effort policy skipped), then either finish or ask
/// for the next image.
pub open spec fn spec_stage_next(
    article: ArticleV,
    refs: Seq<ImageRefV>,
    staged: Seq<ImageRefV>,
    skipped: Seq<Seq<char>>,
    local_path: Option<Seq<char>>,
) -> (StateV, ActionV)
    recommends
        staged.len() < refs.len(),
{
    let fetched = ImageRefV {
        raw_src: refs[staged.len() as int].raw_src,
        resolved_url: refs[staged.len() as int].resolved_url,
        local_path: local_path,
    };
    let staged2 = staged.push(fetched);
    if staged2.len() == refs.len() {
        (StateV::Done { article, refs: staged2, skipped }, ActionV::Finish)
    } else {
        (
            StateV::Downloading { article, refs, staged: staged2, skipped },
            ActionV::FetchImage { url: refs[staged2.len() as int].resolved_url },
        )
    }
}

/// What a decoded article leads to: its references resolved under the
/// policy, then straight to `Done` where there is nothing to fetch, or
/// into the download stage.
pub open spec fn spec_after_decode(a: ArticleV, base: Seq<char>, policy: FetchPolicy) -> (
    StateV,
    ActionV,
) {
    match policy {
        FetchPolicy::FailFast => match resolve_content(a.content, base) {
            Err(k) => (StateV::Failed { kind: k }, ActionV::Abort),
            Ok(refs) => if refs.len() == 0 {
                (
                    StateV::Done { article: a, refs: Seq::empty(), skipped: Seq::empty() },
                    ActionV::Finish,
                )
            } else {
                (
                    StateV::Downloading {
                        article: a,
                        refs,
                        staged: Seq::empty(),
                        skipped: Seq::empty(),
                    },
                    ActionV::FetchImage { url: refs[0].resolved_url },
                )
            },
        },
        FetchPolicy::BestEffort => {
            let resolved = resolve_content_lenient(a.content, base);
            if resolved.0.len() == 0 {
                (
                    StateV::Done { article: a, refs: Seq::empty(), skipped: resolved.1 },
                    ActionV::Finish,
                )
            } else {
                (
                    StateV::Downloading {
                        article: a,
                        refs: resolved.0,
                        staged: Seq::empty(),
                        skipped: resolved.1,
                    },
                    ActionV::FetchImage { url: resolved.0[0].resolved_url },
                )
            }
        },
    }
}

/// The transition relation of the orchestrator. One linear path with a
/// failure terminal reachable from every non-terminal state; an event
/// that does not belong to the state changes nothing.
pub open spec fn spec_step(s: StateV, e: EventV, policy: FetchPolicy) -> (StateV, ActionV) {
    match (s, e) {
        (StateV::Start, EventV::Begin { input }) => match url_parse(input) {
            Ok(u) => (StateV::AwaitingPage { url: u }, ActionV::FetchPage { url: u }),
            Err(_) => (StateV::Failed { kind: FailureKind::InvalidUrl }, ActionV::Abort),
        },
        (StateV::AwaitingPage { url }, EventV::PageFetched { final_url }) => (
            StateV::AwaitingArtifact {
                url: url,
                base: final_url,
                page_name: filename_spec(final_url, page_fallback()),
            },
            ActionV::Extract {
                page_name: filename_spec(final_url, page_fallback()),
                artifact_name: artifact_name(),
            },
        ),
        (StateV::AwaitingPage { url }, EventV::PageFetchFailed) => (
            StateV::Failed { kind: FailureKind::FetchFailed },
            ActionV::Abort,
        ),
        (StateV::AwaitingArtifact { url, base, page_name }, EventV::Extracted { artifact }) => match artifact {
            None => (StateV::Failed { kind: FailureKind::ExtractionFailed }, ActionV::Abort),
            Some(text) => match decode_spec(text) {
                None => (StateV::Failed { kind: FailureKind::MalformedArtifact }, ActionV::Abort),
                Some(a) => spec_after_decode(a, base, policy),
            },
        },
        (
            StateV::Downloading { article, refs, staged, skipped },
            EventV::ImageFetchFailed,
        ) => match policy {
            FetchPolicy::FailFast => (
                StateV::Failed { kind: FailureKind::FetchFailed },
                ActionV::Abort,
            ),
            FetchPolicy::BestEffort => if staged.len() < refs.len() {
                spec_stage_next(article, refs, staged, skipped, None)
            } else {
                (StateV::Downloading { article, refs, staged, skipped }, ActionV::Idle)
            },
        },
        (
            StateV::Downloading { article, refs, staged, skipped },
            EventV::ImageFetched { final_url },
        ) => if staged.len() < refs.len() {
            spec_stage_next(
                article,
                refs,
                staged,
                skipped,
                Some(filename_spec(final_url, image_fallback())),
            )
        } else {
            (StateV::Downloading { article, refs, staged, skipped }, ActionV::Idle)
        },
        (_, _) => (s, ActionV::Idle),
    }
}

/// Stage `refs[staged.len()]` with the given local file name and give
/// back the next state and action, as [`spec_stage_next`] says.
fn stage_next(
    article: Article,
    refs: Vec<ImageReference>,
    mut staged: Vec<ImageReference>,
    skipped: Vec<String>,
    local_path: Option<String>,
) -> (r: (State, Action))
    requires
        staged.len() < refs.len(),
    ensures
        (r.0@, r.1@) == spec_stage_next(
            article@,
            refs.deep_view(),
            staged.deep_view(),
            skipped.deep_view(),
            local_path.deep_view(),
        ),
{
    let next = &refs[staged.len()];
    let fetched = ImageReference {
        raw_src: next.raw_src.clone(),
        resolved_url: next.resolved_url.clone(),
        local_path,
    };
    let ghost staged_before = staged.deep_view();
    staged.push(fetched);
    proof {
        assert(staged.deep_view() =~= staged_before.push(fetched@));
    }
    if staged.len() == refs.len() {
        (State::Done { article, refs: staged, skipped }, Action::Finish)
    } else {
        let url = refs[staged.len()].resolved_url.clone();
        (State::Downloading { article, refs, staged, skipped }, Action::FetchImage { url })
    }
}

/// Perform one transition of the orchestrator: consume the state and the
/// outcome of the last action, give back the next state and action.
pub fn step(state: State, event: Event, policy: FetchPolicy) -> (r: (State, Action))
    ensures
        (r.0@, r.1@) == spec_step(state@, event@, policy),
{
    match (state, event) {
        (State::Start, Event::Begin { input }) => match validate_url(input.as_str()) {
            Ok(u) => {
                let action = Action::FetchPage { url: u.clone() };
                (State::AwaitingPage { url: u }, action)
            },
            Err(_) => (State::Failed { kind: FailureKind::InvalidUrl }, Action::Abort),
        },
        (State::AwaitingPage { url }, Event::PageFetched { final_url }) => {
            let name = derive_filename(final_url.as_str(), "tmp.bin");
            proof {
                reveal_strlit("tmp.bin");
                assert("tmp.bin"@ =~= page_fallback());
                reveal_strlit("article.json");
                assert("article.json"@ =~= artifact_name());
            }
            let action = Action::Extract {
                page_name: name.clone(),
                artifact_name: String::from_str("article.json"),
            };
            (State::AwaitingArtifact { url, base: final_url, page_name: name }, action)
        },
        (State::AwaitingPage { url }, Event::PageFetchFailed) => (
            State::Failed { kind: FailureKind::FetchFailed },
            Action::Abort,
        ),
        (State::AwaitingArtifact { url, base, page_name }, Event::Extracted { artifact }) => {
            let text = match artifact {
                None => {
                    return (State::Failed { kind: FailureKind::ExtractionFailed }, Action::Abort);
                },
                Some(text) => text,
            };
            let article = match decode_article(text.as_str()) {
                None => {
                    return (State::Failed { kind: FailureKind::MalformedArtifact }, Action::Abort);
                },
                Some(a) => a,
            };
            match policy {
                FetchPolicy::FailFast => {
                    let refs = match resolve_references(&article.content, base.as_str()) {
                        Err(k) => {
                            return (State::Failed { kind: k }, Action::Abort);
                        },
                        Ok(refs) => refs,
                    };
                    let skipped: Vec<String> = Vec::new();
                    proof {
                        assert(skipped.deep_view() =~= Seq::<Seq<char>>::empty());
                    }
                    if refs.len() == 0 {
                        proof {
                            assert(refs.deep_view() =~= Seq::<ImageRefV>::empty());
                        }
                        (State::Done { article, refs, skipped }, Action::Finish)
                    } else {
                        let first = refs[0].resolved_url.clone();
                        let staged: Vec<ImageReference> = Vec::new();
                        proof {
                            assert(staged.deep_view() =~= Seq::<ImageRefV>::empty());
                        }
                        (
                            State::Downloading { article, refs, staged, skipped },
                            Action::FetchImage { url: first },
                        )
                    }
                },
                FetchPolicy::BestEffort => {
                    let (refs, skipped) = resolve_references_lenient(
                        &article.content,
                        base.as_str(),
                    );
                    if refs.len() == 0 {
                        proof {
                            assert(refs.deep_view() =~= Seq::<ImageRefV>::empty());
                        }
                        (State::Done { article, refs, skipped }, Action::Finish)
                    } else {
                        let first = refs[0].resolved_url.clone();
                        let staged: Vec<ImageReference> = Vec::new();
                        proof {
                            assert(staged.deep_view() =~= Seq::<ImageRefV>::empty());
                        }
                        (
                            State::Downloading { article, refs, staged, skipped },
                            Action::FetchImage { url: first },
                        )
                    }
                },
            }
        },
        (State::Downloading { article, refs, staged, skipped }, Event::ImageFetchFailed) => {
            match policy {
                FetchPolicy::FailFast => (
                    State::Failed { kind: FailureKind::FetchFailed },
                    Action::Abort,
                ),
                FetchPolicy::BestEffort => {
                    if staged.len() < refs.len() {
                        stage_next(article, refs, staged, skipped, None)
                    } else {
                        (State::Downloading { article, refs, staged, skipped }, Action::Idle)
                    }
                },
            }
        },
        (
            State::Downloading { article, refs, staged, skipped },
            Event::ImageFetched { final_url },
        ) => {
            if staged.len() < refs.len() {
                let name = derive_filename(final_url.as_str(), "tmp.jpg");
                proof {
                    reveal_strlit("tmp.jpg");
                    assert("tmp.jpg"@ =~= image_fallback());
                }
                stage_next(article, refs, staged, skipped, Some(name))
            } else {
                (State::Downloading { article, refs, staged, skipped }, Action::Idle)
            }
        },
        (state, _) => (state, Action::Idle),
    }
}

/// An input that does not parse as a URL fails the run at once with
/// `InvalidUrl`, under either policy: the next action is `Abort`, never
/// a fetch, so nothing touches the network and no staging area is
/// created.
pub proof fn lemma_invalid_url_rejected(input: Seq<char>, policy: FetchPolicy)
    requires
        url_parse(input) is Err,
    ensures
        spec_step(StateV::Start, EventV::Begin { input }, policy) == (
            StateV::Failed { kind: FailureKind::InvalidUrl },
            ActionV::Abort,
        ),
{
}

/// A failed page fetch — an HTTP error status or a transport error, both
/// reported as the one `PageFetchFailed` event — ends the run with
/// `FetchFailed` under either policy (best effort concerns images
/// alone), and the `Abort` action has the staging area removed.
pub proof fn lemma_page_fetch_failure_aborts(url: Seq<char>, policy: FetchPolicy)
    ensures
        spec_step(StateV::AwaitingPage { url }, EventV::PageFetchFailed, policy) == (
            StateV::Failed { kind: FailureKind::FetchFailed },
            ActionV::Abort,
        ),
{
}

/// An artifact whose article has no content yields no image references:
/// the download stage is a no-op and the run still finishes
/// successfully, under either policy.
pub proof fn lemma_absent_content_succeeds(
    url: Seq<char>,
    base: Seq<char>,
    page_name: Seq<char>,
    text: Seq<char>,
    policy: FetchPolicy,
)
    requires
        decode_spec(text) is Some,
        decode_spec(text)->0.content is None,
    ensures
        spec_step(
            StateV::AwaitingArtifact { url, base, page_name },
            EventV::Extracted { artifact: Some(text) },
            policy,
        ) == (
            StateV::Done {
                article: decode_spec(text)->0,
                refs: Seq::<ImageRefV>::empty(),
                skipped: Seq::<Seq<char>>::empty(),
            },
            ActionV::Finish,
        ),
{
}

/// Under the best-effort policy a failed image download never fails the
/// run: the reference is staged without a local file — which is how the
/// failure is reported — and the machine moves on to the next image or
/// finishes.
pub proof fn lemma_best_effort_survives_image_failure(
    article: ArticleV,
    refs: Seq<ImageRefV>,
    staged: Seq<ImageRefV>,
    skipped: Seq<Seq<char>>,
)
    requires
        staged.len() < refs.len(),
    ensures
        spec_step(
            StateV::Downloading { article, refs, staged, skipped },
            EventV::ImageFetchFailed,
            FetchPolicy::BestEffort,
        ) == spec_stage_next(article, refs, staged, skipped, None),
        !(spec_stage_next(article, refs, staged, skipped, None).0 is Failed),
{
}

/// The download stage's bookkeeping: the staged references are a prefix
/// mirror of the resolved ones — same `src` text, same absolute URL, in
/// the same order — with only the local file name added.
pub open spec fn staged_matches(refs: Seq<ImageRefV>, staged: Seq<ImageRefV>) -> bool {
    staged.len() <= refs.len() && forall|i: int|
        0 <= i < staged.len() ==> (#[trigger] staged[i].raw_src == refs[i].raw_src && staged[i].resolved_url
            == refs[i].resolved_url)
}

/// What every reachable state owes: while downloading, the staged
/// references mirror the resolved ones.
pub open spec fn state_inv(s: StateV) -> bool {
    match s {
        StateV::Downloading { article, refs, staged, skipped } => staged_matches(refs, staged),
        _ => true,
    }
}

/// Every transition preserves the download stage's bookkeeping: however
/// a run unfolds, what is staged never strays from what the resolver
/// produced.
proof fn lemma_stage_next_keeps_match(
    article: ArticleV,
    refs: Seq<ImageRefV>,
    staged: Seq<ImageRefV>,
    skipped: Seq<Seq<char>>,
    local_path: Option<Seq<char>>,
)
    requires
        staged_matches(refs, staged),
        staged.len() < refs.len(),
    ensures
        state_inv(spec_stage_next(article, refs, staged, skipped, local_path).0),
{
    let fetched = ImageRefV {
        raw_src: refs[staged.len() as int].raw_src,
        resolved_url: refs[staged.len() as int].resolved_url,
        local_path: local_path,
    };
    let staged2 = staged.push(fetched);
    assert forall|i: int| 0 <= i < staged2.len() implies (#[trigger] staged2[i].raw_src
        == refs[i].raw_src && staged2[i].resolved_url == refs[i].resolved_url) by {
        if i < staged.len() {
            assert(staged2[i] == staged[i]);
        } else {
            assert(staged2[i] == fetched);
        }
    }
}

pub proof fn lemma_step_preserves_inv(s: StateV, e: EventV, policy: FetchPolicy)
    requires
        state_inv(s),
    ensures
        state_inv(spec_step(s, e, policy).0),
{
    match (s, e) {
        (StateV::Downloading { article, refs, staged, skipped }, EventV::ImageFetched { .. }) => {
            if staged.len() < refs.len() {
                lemma_stage_next_keeps_match(article, refs, staged, skipped, Some(filename_spec(e->ImageFetched_final_url, image_fallback())));
            }
        },
        (StateV::Downloading { article, refs, staged, skipped }, EventV::ImageFetchFailed) => {
            if policy is BestEffort && staged.len() < refs.len() {
                lemma_stage_next_keeps_match(article, refs, staged, skipped, None);
            }
        },
        (_, _) => {},
    }
}

/// The state and the actions after any prefix of a run: the machine
/// starts at `Start` and folds one event at a time.
pub open spec fn run_spec(events: Seq<EventV>, policy: FetchPolicy) -> (StateV, Seq<ActionV>)
    decreases events.len(),
{
    if events.len() == 0 {
        (StateV::Start, Seq::empty())
    } else {
        let prev = run_spec(events.drop_last(), policy);
        let next = spec_step(prev.0, events.last(), policy);
        (next.0, prev.1.push(next.1))
    }
}

/// The pipeline is a function of its events alone: two runs fed the same
/// outcomes — as happens when the same URL is fetched twice against a
/// stable remote resource — reach the same state and request the same
/// actions, so the staged files agree except for the staging
/// directory's own name.
pub proof fn lemma_run_deterministic(e1: Seq<EventV>, e2: Seq<EventV>, policy: FetchPolicy)
    requires
        e1 == e2,
    ensures
        run_spec(e1, policy) == run_spec(e2, policy),
{
}

} // verus!
