//! The resolution of a remote action: from the cache, or from the repository that holds it.
use crate::action::{self, Outcome, ResolvedAction, ResolvedActionView};
use crate::cache::{self, BoundedCache, CacheView};
use crate::fetch::{self, Task, TaskView, Answers, Event, EventView, Fetch, FetchView};
use crate::http::RequestView;
use crate::text;
use crate::workflow;
use vstd::prelude::*;

verus! {

pub const GITHUB_RAW_BASE_URL: &'static str = "https://raw.githubusercontent.com";

/// A resolution under way.
#[derive(Debug, PartialEq, Eq)]
pub enum Resolution {
    /// The cache had the action.
    Cached { action: ResolvedAction },
    /// `action.yml` is being fetched, or `action.yaml` if `action.yml` failed with the message
    /// `yml_error`.
    Fetching { repo: String, version: String, yml_error: Option<String>, fetch: Fetch },
    /// The action was fetched.
    Fetched { repo: String, version: String, action: ResolvedAction },
    Failed { message: String },
}

/// What a [`Resolution`] stands for.
#[verifier::ext_equal]
pub enum ResolutionView {
    Cached { action: ResolvedActionView },
    Fetching {
        repo: Seq<char>,
        version: Seq<char>,
        yml_error: Option<Seq<char>>,
        fetch: FetchView,
    },
    Fetched { repo: Seq<char>, version: Seq<char>, action: ResolvedActionView },
    Failed { message: Seq<char> },
}

impl View for Resolution {
    type V = ResolutionView;

    open spec fn view(&self) -> ResolutionView {
        match *self {
            Resolution::Cached { action } => ResolutionView::Cached { action: action@ },
            Resolution::Fetching { repo, version, yml_error, fetch } => ResolutionView::Fetching {
                repo: repo@,
                version: version@,
                yml_error: match yml_error {
                    Some(message) => Some(message@),
                    None => None,
                },
                fetch: fetch@,
            },
            Resolution::Fetched { repo, version, action } => ResolutionView::Fetched {
                repo: repo@,
                version: version@,
                action: action@,
            },
            Resolution::Failed { message } => ResolutionView::Failed { message: message@ },
        }
    }
}

/// The key of an action in the cache.
pub open spec fn key_of(repo: Seq<char>, version: Seq<char>) -> Seq<char> {
    repo + "@"@ + version
}

/// The address of the metadata file `filename` of an action.
pub open spec fn metadata_url(repo: Seq<char>, version: Seq<char>, filename: Seq<char>) -> Seq<char> {
    fetch::file_url(GITHUB_RAW_BASE_URL@, repo, version, filename)
}

/// The fetch of the metadata file `filename` of an action, before its first step.
pub open spec fn fetch_of(repo: Seq<char>, version: Seq<char>, filename: Seq<char>) -> FetchView {
    FetchView::Plain { url: metadata_url(repo, version, filename) }
}

/// The message of a resolution that found neither file.
pub open spec fn neither_message(yml_error: Seq<char>, yaml_error: Seq<char>) -> Seq<char> {
    "Neither action.yml ("@ + yml_error + ") nor action.yaml ("@ + yaml_error
        + ") could be resolved"@
}

impl ResolutionView {
    /// The resolution of `version` of `repo` against `cache`, before its first step.
    pub open spec fn start(cache: CacheView, repo: Seq<char>, version: Seq<char>) -> ResolutionView {
        if cache.entries.contains_key(key_of(repo, version)) {
            ResolutionView::Cached { action: cache.entries[key_of(repo, version)] }
        } else {
            ResolutionView::Fetching {
                repo,
                version,
                yml_error: None,
                fetch: fetch_of(repo, version, "action.yml"@),
            }
        }
    }

    /// What the resolution wants done.
    pub open spec fn task(self) -> TaskView {
        match self {
            ResolutionView::Fetching { fetch, .. } => fetch.task(),
            _ => TaskView::Finish,
        }
    }

    /// The resolution after its fetch has come to `fetch`.
    pub open spec fn with_fetch(
        repo: Seq<char>,
        version: Seq<char>,
        yml_error: Option<Seq<char>>,
        fetch: FetchView,
    ) -> ResolutionView {
        match fetch {
            FetchView::Done { result } => match (result, yml_error) {
                (Ok(action), _) => ResolutionView::Fetched { repo, version, action },
                (Err(message), None) => ResolutionView::Fetching {
                    repo,
                    version,
                    yml_error: Some(message),
                    fetch: fetch_of(repo, version, "action.yaml"@),
                },
                (Err(message), Some(yml_error)) => ResolutionView::Failed {
                    message: neither_message(yml_error, message),
                },
            },
            _ => ResolutionView::Fetching { repo, version, yml_error, fetch },
        }
    }

    /// The resolution after `event`.
    pub open spec fn next(self, event: EventView) -> ResolutionView {
        match self {
            ResolutionView::Fetching { repo, version, yml_error, fetch } => Self::with_fetch(
                repo,
                version,
                yml_error,
                fetch.next(event),
            ),
            _ => self,
        }
    }

    /// The resolution after `events`, one after the other.
    pub open spec fn run(self, events: Seq<EventView>) -> ResolutionView
        decreases events.len(),
    {
        if events.len() == 0 {
            self
        } else {
            self.run(events.drop_last()).next(events.last())
        }
    }

    /// What the resolution came to, once it wants nothing more done.
    pub open spec fn result(self) -> Option<Outcome> {
        match self {
            ResolutionView::Cached { action } => Some(Ok(action)),
            ResolutionView::Fetching { .. } => None,
            ResolutionView::Fetched { action, .. } => Some(Ok(action)),
            ResolutionView::Failed { message } => Some(Err(message)),
        }
    }

    /// What the resolution leaves in the cache: an action that was fetched.
    pub open spec fn stored(self, cache: CacheView) -> CacheView {
        match self {
            ResolutionView::Fetched { repo, version, action } => cache.insert(
                key_of(repo, version),
                action,
            ),
            _ => cache,
        }
    }
}

fn cache_key(repo: &str, version: &str) -> (key: String)
    ensures
        key@ == key_of(repo@, version@),
{
    text::concat3(repo, "@", version)
}

/// Starts to fetch and parse `action.yml` (or `action.yaml`) from a remote GitHub repository,
/// unless `cache` has the action.
pub fn resolve_remote_action(cache: &BoundedCache, repo: &str, version: &str) -> (resolution:
    Resolution)
    ensures
        resolution@ == ResolutionView::start(cache@, repo@, version@),
{
    match cache.get(cache_key(repo, version).as_str()) {
        Some(cached) => Resolution::Cached { action: cached.clone() },
        None => Resolution::Fetching {
            repo: repo.to_owned(),
            version: version.to_owned(),
            yml_error: None,
            fetch: fetch::fetch_and_parse(GITHUB_RAW_BASE_URL, repo, version, "action.yml"),
        },
    }
}

impl Resolution {
    /// What is to be done next.
    pub fn task(&self) -> (task: Task)
        ensures
            task@ == self@.task(),
    {
        match self {
            Resolution::Fetching { fetch, .. } => fetch.task(),
            _ => Task::Finish,
        }
    }

    /// The resolution after `event`, which says how what was to be done went. Any other event
    /// leaves the resolution as it is.
    pub fn step(self, event: Event) -> (resolution: Resolution)
        ensures
            resolution@ == self@.next(event@),
    {
        match self {
            Resolution::Fetching { repo, version, yml_error, fetch } => match fetch.step(event) {
                Fetch::Done { result } => match result {
                    Ok(action) => Resolution::Fetched { repo, version, action },
                    Err(message) => match yml_error {
                        None => {
                            let fetch = fetch::fetch_and_parse(
                                GITHUB_RAW_BASE_URL,
                                repo.as_str(),
                                version.as_str(),
                                "action.yaml",
                            );
                            Resolution::Fetching { repo, version, yml_error: Some(message), fetch }
                        },
                        Some(yml_error) => {
                            let head = text::concat3(
                                "Neither action.yml (",
                                yml_error.as_str(),
                                ") nor action.yaml (",
                            );
                            Resolution::Failed {
                                message: text::concat3(
                                    head.as_str(),
                                    message.as_str(),
                                    ") could be resolved",
                                ),
                            }
                        },
                    },
                },
                fetch => Resolution::Fetching { repo, version, yml_error, fetch },
            },
            other => other,
        }
    }

    /// What the resolution came to, or `None` if it is still under way. Only a successful fetch is
    /// cached: transient failures should be retryable.
    pub fn finish(self, cache: &mut BoundedCache) -> (result: Option<Result<ResolvedAction, String>>)
        requires
            old(cache).wf(),
        ensures
            final(cache).wf(),
            final(cache)@ == self@.stored(old(cache)@),
            self@.result() == match result {
                Some(result) => Some(action::outcome(result)),
                None => None::<Outcome>,
            },
    {
        match self {
            Resolution::Cached { action } => Some(Ok(action)),
            Resolution::Fetching { .. } => None,
            Resolution::Fetched { repo, version, action } => {
                cache.insert(cache_key(repo.as_str(), version.as_str()), action.clone());
                Some(Ok(action))
            },
            Resolution::Failed { message } => Some(Err(message)),
        }
    }
}

/// An action that the cache has is resolved from it, without any request.
pub proof fn law_cached_action_needs_no_request(cache: CacheView, repo: Seq<char>, version: Seq<char>)
    requires
        cache.entries.contains_key(key_of(repo, version)),
    ensures
        ResolutionView::start(cache, repo, version).task() == TaskView::Finish,
        ResolutionView::start(cache, repo, version).result() == Some(
            Ok::<ResolvedActionView, Seq<char>>(cache.entries[key_of(repo, version)]),
        ),
        ResolutionView::start(cache, repo, version).stored(cache) == cache,
{
}

/// Whether a resolution concerns `version` of `repo`, with a fetch that has steps to go where
/// there is one.
spec fn concerns(resolution: ResolutionView, repo: Seq<char>, version: Seq<char>) -> bool {
    match resolution {
        ResolutionView::Fetching { repo: r, version: v, fetch, .. } => r == repo && v == version
            && fetch !is Done,
        ResolutionView::Fetched { repo: r, version: v, .. } => r == repo && v == version,
        _ => true,
    }
}

proof fn lemma_run_concerns(
    cache: CacheView,
    repo: Seq<char>,
    version: Seq<char>,
    events: Seq<EventView>,
)
    ensures
        concerns(ResolutionView::start(cache, repo, version).run(events), repo, version),
    decreases events.len(),
{
    if events.len() > 0 {
        lemma_run_concerns(cache, repo, version, events.drop_last());
    }
}

/// What was fetched is found again: after a resolution that fetched the action, whatever `cache`
/// was by then, the next one has it from the cache.
pub proof fn law_fetched_action_is_found_again(
    before: CacheView,
    cache: CacheView,
    repo: Seq<char>,
    version: Seq<char>,
    events: Seq<EventView>,
)
    requires
        ResolutionView::start(before, repo, version).run(events) is Fetched,
    ensures
        ({
            let fetched = ResolutionView::start(before, repo, version).run(events);
            &&& fetched.result() == Some(Ok::<ResolvedActionView, Seq<char>>(fetched->Fetched_action))
            &&& ResolutionView::start(fetched.stored(cache), repo, version)
                == ResolutionView::Cached { action: fetched->Fetched_action }
        }),
{
    lemma_run_concerns(before, repo, version, events);
}

/// A failure is not cached: it leaves the cache as it is, so that the next resolution of an action
/// that the cache does not have asks for it anew.
pub proof fn law_failure_is_not_cached(
    resolution: ResolutionView,
    cache: CacheView,
    repo: Seq<char>,
    version: Seq<char>,
)
    requires
        resolution.result() matches Some(result) && result is Err,
    ensures
        resolution.stored(cache) == cache,
        !cache.entries.contains_key(key_of(repo, version)) ==> ResolutionView::start(
            resolution.stored(cache),
            repo,
            version,
        ).task() == fetch_of(repo, version, "action.yml"@).task(),
{
}

/// A resolution has a result exactly when it wants nothing more done.
pub proof fn law_resolution_finishes_with_a_result(
    cache: CacheView,
    repo: Seq<char>,
    version: Seq<char>,
    events: Seq<EventView>,
)
    ensures
        ResolutionView::start(cache, repo, version).run(events).result() is Some
            <==> ResolutionView::start(cache, repo, version).run(events).task()
            == TaskView::Finish,
{
    lemma_run_concerns(cache, repo, version, events);
}

/// The file that is being fetched, when `action.yml` has failed with `yml_error`, or not yet.
spec fn file_name(yml_error: Option<Seq<char>>) -> Seq<char> {
    if yml_error is None {
        "action.yml"@
    } else {
        "action.yaml"@
    }
}

/// Whether some events lead from `start` to `fetch`.
spec fn is_reached(start: FetchView, fetch: FetchView) -> bool {
    exists|events: Seq<EventView>| fetch == #[trigger] start.run(events)
}

/// Whether the fetch of a resolution is that of one of the two files of the action.
spec fn fetches_metadata(resolution: ResolutionView, repo: Seq<char>, version: Seq<char>) -> bool {
    resolution matches ResolutionView::Fetching { yml_error, fetch, .. } ==> is_reached(
        fetch_of(repo, version, file_name(yml_error)),
        fetch,
    )
}

proof fn lemma_run_fetches_metadata(
    cache: CacheView,
    repo: Seq<char>,
    version: Seq<char>,
    events: Seq<EventView>,
)
    ensures
        fetches_metadata(ResolutionView::start(cache, repo, version).run(events), repo, version),
    decreases events.len(),
{
    let start = ResolutionView::start(cache, repo, version);
    if events.len() == 0 {
        assert(fetch_of(repo, version, "action.yml"@).run(Seq::empty()) == fetch_of(
            repo,
            version,
            "action.yml"@,
        ));
    } else {
        let event = events.last();
        let before = start.run(events.drop_last());
        lemma_run_fetches_metadata(cache, repo, version, events.drop_last());
        lemma_run_concerns(cache, repo, version, events.drop_last());
        if let ResolutionView::Fetching { yml_error, fetch, .. } = before {
            let file = fetch_of(repo, version, file_name(yml_error));
            let seen = choose|seen: Seq<EventView>| fetch == #[trigger] file.run(seen);
            assert(seen.push(event).drop_last() =~= seen);
            assert(file.run(seen.push(event)) == fetch.next(event));
            let yaml = fetch_of(repo, version, "action.yaml"@);
            assert(yaml.run(Seq::empty()) == yaml);
        }
    }
}

/// The token does not leak: whatever the servers answer, a request with credentials goes to one
/// of the two metadata files of the action, through a client that follows no redirects.
pub proof fn law_token_goes_to_the_repository_alone(
    cache: CacheView,
    repo: Seq<char>,
    version: Seq<char>,
    events: Seq<EventView>,
    request: RequestView,
)
    requires
        ResolutionView::start(cache, repo, version).run(events).task() == (TaskView::Send {
            request,
        }),
        request.authorization is Some,
    ensures
        request.url == metadata_url(repo, version, "action.yml"@) || request.url == metadata_url(
            repo,
            version,
            "action.yaml"@,
        ),
        !request.follow_redirects,
{
    lemma_run_fetches_metadata(cache, repo, version, events);
    let resolution = ResolutionView::start(cache, repo, version).run(events);
    let name = file_name(resolution->yml_error);
    let seen = choose|seen: Seq<EventView>|
        resolution->fetch == #[trigger] fetch_of(repo, version, name).run(seen);
    fetch::law_token_does_not_leak(metadata_url(repo, version, name), seen, request);
}

impl ResolutionView {
    /// The resolution after `steps` tasks, where the world outside gives `yml` to the fetch of
    /// `action.yml` and `yaml` to that of `action.yaml`.
    pub open spec fn driven(self, yml: Answers, yaml: Answers, steps: nat) -> ResolutionView
        decreases steps,
    {
        if steps == 0 {
            self
        } else {
            self.next(self.answered(yml, yaml)).driven(yml, yaml, (steps - 1) as nat)
        }
    }

    /// The event that comes of the task that the resolution sets.
    pub open spec fn answered(self, yml: Answers, yaml: Answers) -> EventView {
        match self {
            ResolutionView::Fetching { yml_error, fetch, .. } => fetch.answered(
                if yml_error is None {
                    yml
                } else {
                    yaml
                },
            ),
            _ => EventView::Token { token: None },
        }
    }

    /// The most events that the resolution can still take in.
    pub open spec fn rank(self) -> nat {
        match self {
            ResolutionView::Fetching { yml_error, fetch, .. } => if yml_error is None {
                5 + fetch.rank()
            } else {
                fetch.rank()
            },
            _ => 0,
        }
    }
}

/// What the resolution of an action that the cache does not have comes to.
pub open spec fn resolution_result(
    repo: Seq<char>,
    version: Seq<char>,
    yml: Answers,
    yaml: Answers,
) -> Outcome {
    match fetch::fetch_result(metadata_url(repo, version, "action.yml"@), yml) {
        Ok(action) => Ok(action),
        Err(yml_error) => match fetch::fetch_result(
            metadata_url(repo, version, "action.yaml"@),
            yaml,
        ) {
            Ok(action) => Ok(action),
            Err(yaml_error) => Err(neither_message(yml_error, yaml_error)),
        },
    }
}

/// What a fetch under way comes to.
spec fn fetch_end(fetch: FetchView, answers: Answers) -> Outcome {
    fetch.driven(answers, 5)->Done_result
}

/// What a resolution under way comes to.
spec fn resolution_end(resolution: ResolutionView, yml: Answers, yaml: Answers) -> Outcome {
    match resolution {
        ResolutionView::Fetching { repo, version, yml_error, fetch } => match yml_error {
            None => match fetch_end(fetch, yml) {
                Ok(action) => Ok(action),
                Err(first) => match fetch_end(fetch_of(repo, version, "action.yaml"@), yaml) {
                    Ok(action) => Ok(action),
                    Err(second) => Err(neither_message(first, second)),
                },
            },
            Some(first) => match fetch_end(fetch, yaml) {
                Ok(action) => Ok(action),
                Err(second) => Err(neither_message(first, second)),
            },
        },
        _ => resolution.result()->0,
    }
}

proof fn lemma_fetch_end(fetch: FetchView, answers: Answers)
    ensures
        fetch.driven(answers, 5) is Done,
        fetch_end(fetch.next(fetch.answered(answers)), answers) == fetch_end(fetch, answers),
        fetch matches FetchView::Done { result } ==> fetch_end(fetch, answers) == result,
        fetch !is Done ==> fetch.next(fetch.answered(answers)).rank() < fetch.rank(),
{
    reveal_with_fuel(FetchView::driven, 7);
}

proof fn lemma_resolution_end(
    resolution: ResolutionView,
    repo: Seq<char>,
    version: Seq<char>,
    yml: Answers,
    yaml: Answers,
    steps: nat,
)
    requires
        concerns(resolution, repo, version),
        resolution.rank() <= steps,
    ensures
        resolution.driven(yml, yaml, steps).result() == Some(
            resolution_end(resolution, yml, yaml),
        ),
    decreases steps,
{
    if let ResolutionView::Fetching { yml_error, fetch, .. } = resolution {
        let answers = if yml_error is None {
            yml
        } else {
            yaml
        };
        let after = resolution.next(resolution.answered(yml, yaml));
        lemma_fetch_end(fetch, answers);
        lemma_fetch_end(fetch.next(fetch.answered(answers)), answers);
        assert(steps > 0);
        assert(after.rank() < resolution.rank());
        lemma_resolution_end(after, repo, version, yml, yaml, (steps - 1) as nat);
    } else if steps > 0 {
        lemma_resolution_end(resolution, repo, version, yml, yaml, (steps - 1) as nat);
    }
}

/// A resolution whose every task is performed and answered is finished after ten steps at most.
/// An action that the cache does not have comes from `action.yml`, or else from `action.yaml`; if
/// neither gives it, the message of the error quotes both.
pub proof fn law_resolution_comes_to_its_result(
    cache: CacheView,
    repo: Seq<char>,
    version: Seq<char>,
    yml: Answers,
    yaml: Answers,
)
    requires
        !cache.entries.contains_key(key_of(repo, version)),
    ensures
        ResolutionView::start(cache, repo, version).driven(yml, yaml, 10).result() == Some(
            resolution_result(repo, version, yml, yaml),
        ),
{
    let start = ResolutionView::start(cache, repo, version);
    lemma_resolution_end(start, repo, version, yml, yaml, 10);
    fetch::law_fetch_comes_to_its_result(metadata_url(repo, version, "action.yml"@), yml);
    fetch::law_fetch_comes_to_its_result(metadata_url(repo, version, "action.yaml"@), yaml);
}

/// The key of an action begins with its repository and ends with its version, both in full, with
/// an `@` between them and nothing else.
pub proof fn law_key_has_its_parts_in_full(repo: Seq<char>, version: Seq<char>)
    ensures
        repo.is_prefix_of(key_of(repo, version)),
        version.is_suffix_of(key_of(repo, version)),
        key_of(repo, version)[repo.len() as int] == '@',
        key_of(repo, version).len() == repo.len() + version.len() + 1,
{
    reveal_strlit("@");
    assert(key_of(repo, version) =~= repo + ("@"@ + version));
    text::lemma_joined(repo, "@"@ + version);
    text::lemma_joined(repo + "@"@, version);
}

/// Different actions have different keys, where their versions hold no `@`, or their repositories
/// hold none.
pub proof fn law_different_actions_have_different_keys(
    repo: Seq<char>,
    version: Seq<char>,
    other_repo: Seq<char>,
    other_version: Seq<char>,
)
    requires
        (!version.contains('@') && !other_version.contains('@')) || (!repo.contains('@')
            && !other_repo.contains('@')),
        key_of(repo, version) == key_of(other_repo, other_version),
    ensures
        repo == other_repo,
        version == other_version,
{
    reveal_strlit("@");
    let key = key_of(repo, version);
    let other_key = key_of(other_repo, other_version);
    let at = repo.len() as int;
    let other_at = other_repo.len() as int;
    assert(key[at] == '@' && other_key[other_at] == '@');
    if at < other_at {
        assert(key[other_at] == version[other_at - at - 1]);
        assert(other_key[at] == other_repo[at]);
    }
    if other_at < at {
        assert(other_key[at] == other_version[at - other_at - 1]);
        assert(key[other_at] == repo[other_at]);
    }
    assert(at == other_at);
    assert(key.subrange(0, at) =~= repo);
    assert(other_key.subrange(0, at) =~= other_repo);
    assert(key.subrange(at + 1, key.len() as int) =~= version);
    assert(other_key.subrange(at + 1, key.len() as int) =~= other_version);
}

/// References to different actions never share a key, whatever their paths and versions are.
pub proof fn law_references_share_no_key(action_ref: Seq<char>, other_ref: Seq<char>)
    requires
        ({
            let info = workflow::action_info(action_ref);
            let other = workflow::action_info(other_ref);
            info.repository != other.repository || info.version != other.version
        }),
    ensures
        ({
            let info = workflow::action_info(action_ref);
            let other = workflow::action_info(other_ref);
            key_of(info.repository, info.version) != key_of(other.repository, other.version)
        }),
{
    let info = workflow::action_info(action_ref);
    let other = workflow::action_info(other_ref);
    workflow::law_reference_parts(action_ref);
    workflow::law_reference_parts(other_ref);
    if key_of(info.repository, info.version) == key_of(other.repository, other.version) {
        law_different_actions_have_different_keys(
            info.repository,
            info.version,
            other.repository,
            other.version,
        );
    }
}

/// Storing an action that was fetched leaves the resolution of every other action what it was,
/// unless the cache was full and the other action was its oldest: that one is to be fetched again.
pub proof fn law_storing_leaves_other_actions(
    before: CacheView,
    cache: CacheView,
    repo: Seq<char>,
    version: Seq<char>,
    events: Seq<EventView>,
    other_repo: Seq<char>,
    other_version: Seq<char>,
)
    requires
        cache.wf(),
        ResolutionView::start(before, repo, version).run(events) is Fetched,
        !version.contains('@'),
        !other_version.contains('@'),
        repo != other_repo || version != other_version,
    ensures
        ({
            let stored = ResolutionView::start(before, repo, version).run(events).stored(cache);
            let makes_room = cache.order.len() == 256 && !cache.order.contains(
                repo + "@"@ + version,
            ) && cache.order.first() == other_repo + "@"@ + other_version;
            &&& !makes_room ==> ResolutionView::start(stored, other_repo, other_version)
                == ResolutionView::start(cache, other_repo, other_version)
            &&& makes_room ==> ResolutionView::start(stored, other_repo, other_version)
                == ResolutionView::start(CacheView::empty(), other_repo, other_version)
        }),
{
    lemma_run_concerns(before, repo, version, events);
    let key = repo + "@"@ + version;
    let other = other_repo + "@"@ + other_version;
    let action = ResolutionView::start(before, repo, version).run(events)->Fetched_action;
    if key == other {
        law_different_actions_have_different_keys(repo, version, other_repo, other_version);
    }
    cache::law_order_lists_the_entries(cache, key);
    cache::law_order_lists_the_entries(cache, other);
    if !cache.entries.contains_key(key) && cache.entries.contains_key(other) {
        cache::law_insert_evicts_the_oldest(cache, key, action, other);
    }
    if cache.insert(key, action).entries.contains_key(other) {
        cache::law_insert_concerns_its_key_alone(cache, key, action, other);
    }
}

/// An action is looked for in the cache under its repository, an `@` and its version. If it is
/// there, it is resolved to what the cache has; if not, `action.yml` is fetched from the
/// repository.
pub proof fn law_resolution_starts_from_the_cache(
    cache: &BoundedCache,
    repo: &str,
    version: &str,
    resolution: Resolution,
)
    requires
        call_ensures(resolve_remote_action, (cache, repo, version), resolution),
    ensures
        cache@.entries.contains_key(repo@ + "@"@ + version@) ==> resolution is Cached
            && resolution->Cached_action@ == cache@.entries[repo@ + "@"@ + version@],
        !cache@.entries.contains_key(repo@ + "@"@ + version@) ==> {
            &&& resolution is Fetching
            &&& resolution->Fetching_repo@ == repo@
            &&& resolution->Fetching_version@ == version@
            &&& resolution->yml_error is None
            &&& resolution->fetch is Plain
            &&& resolution->fetch->Plain_url@ == "https://raw.githubusercontent.com/"@ + repo@
                + "/"@ + version@ + "/action.yml"@
        },
{
    lemma_metadata_url(repo@, version@);
    assert(resolution@ == ResolutionView::start(cache@, repo@, version@));
    if !cache@.entries.contains_key(repo@ + "@"@ + version@) {
        assert(resolution->fetch@ == resolution@->fetch);
    }
}

proof fn lemma_metadata_url(repo: Seq<char>, version: Seq<char>)
    ensures
        metadata_url(repo, version, "action.yml"@) == "https://raw.githubusercontent.com/"@ + repo
            + "/"@ + version + "/action.yml"@,
        metadata_url(repo, version, "action.yaml"@) == "https://raw.githubusercontent.com/"@ + repo
            + "/"@ + version + "/action.yaml"@,
{
    reveal_strlit("https://raw.githubusercontent.com");
    reveal_strlit("https://raw.githubusercontent.com/");
    reveal_strlit("/");
    reveal_strlit("action.yml");
    reveal_strlit("/action.yml");
    reveal_strlit("action.yaml");
    reveal_strlit("/action.yaml");
    assert(metadata_url(repo, version, "action.yml"@) =~= "https://raw.githubusercontent.com/"@
        + repo + "/"@ + version + "/action.yml"@);
    assert(metadata_url(repo, version, "action.yaml"@) =~= "https://raw.githubusercontent.com/"@
        + repo + "/"@ + version + "/action.yaml"@);
}

/// A resolution goes on as its fetch does. When that is done, the action is fetched, or
/// `action.yaml` is asked for after `action.yml`, or the resolution fails with both messages.
pub proof fn law_resolution_follows_its_fetch(
    repo: String,
    version: String,
    yml_error: Option<String>,
    fetch: Fetch,
    event: Event,
    stepped: Fetch,
    after: Resolution,
)
    requires
        call_ensures(Fetch::step, (fetch, event), stepped),
        call_ensures(
            Resolution::step,
            (Resolution::Fetching { repo, version, yml_error, fetch }, event),
            after,
        ),
    ensures
        match stepped {
            Fetch::Done { result: Ok(action) } => {
                &&& after is Fetched
                &&& after->Fetched_repo@ == repo@
                &&& after->Fetched_version@ == version@
                &&& after->Fetched_action@ == action@
            },
            Fetch::Done { result: Err(message) } => match yml_error {
                None => {
                    &&& after is Fetching
                    &&& after->Fetching_repo@ == repo@
                    &&& after->Fetching_version@ == version@
                    &&& after->yml_error is Some
                    &&& after->yml_error->0@ == message@
                    &&& after->fetch is Plain
                    &&& after->fetch->Plain_url@ == "https://raw.githubusercontent.com/"@ + repo@
                        + "/"@ + version@ + "/action.yaml"@
                },
                Some(yml_error) => after is Failed && after->message@ == "Neither action.yml ("@
                    + yml_error@ + ") nor action.yaml ("@ + message@ + ") could be resolved"@,
            },
            _ => {
                &&& after is Fetching
                &&& after->Fetching_repo@ == repo@
                &&& after->Fetching_version@ == version@
                &&& after->yml_error is Some <==> yml_error is Some
                &&& yml_error is Some ==> after->yml_error->0@ == yml_error->0@
                &&& after->fetch@ == stepped@
            },
        },
{
    lemma_metadata_url(repo@, version@);
    let before = Resolution::Fetching { repo, version, yml_error, fetch };
    assert(after@ == before@.next(event@));
    assert(stepped@ == fetch@.next(event@));
    if after is Fetching {
        assert(after->fetch@ == after@->fetch);
        assert(match after->yml_error {
            Some(message) => after@->yml_error == Some(message@),
            None => after@->yml_error is None,
        });
    }
}

/// A resolution that is not fetching has nothing to do, and no event changes it; one that is
/// fetching wants done what its fetch wants.
pub proof fn law_resolution_rests_once_it_is_over(
    resolution: Resolution,
    task: Task,
    event: Event,
    after: Resolution,
)
    requires
        call_ensures(Resolution::task, (&resolution,), task),
        call_ensures(Resolution::step, (resolution, event), after),
    ensures
        resolution !is Fetching ==> task is Finish && after@ == resolution@,
        forall|wanted: Task|
            resolution is Fetching && #[trigger] call_ensures(
                Fetch::task,
                (&resolution->fetch,),
                wanted,
            ) ==> task@ == wanted@,
{
    assert(task@ == resolution@.task());
}

/// A resolution that is over has its action or its message for a result, and one that is not has
/// none. An action that was fetched is in the cache from then on; nothing else changes the cache.
pub proof fn law_result_is_what_was_found(resolution: Resolution, cache: CacheView)
    ensures
        match resolution {
            Resolution::Cached { action } => {
                &&& resolution@.result() == Some(Ok::<ResolvedActionView, Seq<char>>(action@))
                &&& resolution@.stored(cache) == cache
            },
            Resolution::Fetching { .. } => {
                &&& resolution@.result() is None
                &&& resolution@.stored(cache) == cache
            },
            Resolution::Fetched { repo, version, action } => {
                let key = repo@ + "@"@ + version@;
                let after = resolution@.stored(cache);
                &&& resolution@.result() == Some(Ok::<ResolvedActionView, Seq<char>>(action@))
                &&& after.entries.contains_key(key)
                &&& after.entries[key] == action@
                &&& after.order.last() == key || after.order == cache.order
                &&& forall|other: Seq<char>|
                    other != key && #[trigger] after.entries.contains_key(other)
                        ==> cache.entries.contains_key(other) && after.entries[other]
                        == cache.entries[other]
            },
            Resolution::Failed { message } => {
                &&& resolution@.result() == Some(Err::<ResolvedActionView, Seq<char>>(message@))
                &&& resolution@.stored(cache) == cache
            },
        },
{
}

/// Nothing of a resolution is lost in what it stands for.
pub proof fn law_resolution_stands_for_its_parts(resolution: Resolution)
    ensures
        match resolution {
            Resolution::Cached { action } => resolution@ is Cached && resolution@->Cached_action
                == action@,
            Resolution::Fetching { repo, version, yml_error, fetch } => {
                &&& resolution@ is Fetching
                &&& resolution@->Fetching_repo == repo@
                &&& resolution@->Fetching_version == version@
                &&& resolution@->yml_error is Some <==> yml_error is Some
                &&& yml_error is Some ==> resolution@->yml_error->0 == yml_error->0@
                &&& resolution@->fetch == fetch@
            },
            Resolution::Fetched { repo, version, action } => {
                &&& resolution@ is Fetched
                &&& resolution@->Fetched_repo == repo@
                &&& resolution@->Fetched_version == version@
                &&& resolution@->Fetched_action == action@
            },
            Resolution::Failed { message } => resolution@ is Failed && resolution@->message
                == message@,
        },
{
}

/// Finishing a resolution gives its action or its message, or nothing while it is under way, and
/// stores the action that was fetched under its repository, an `@` and its version, and no other.
pub proof fn law_finish_gives_and_stores_what_was_found(
    resolution: Resolution,
    cache: &mut BoundedCache,
    result: Option<Result<ResolvedAction, String>>,
)
    requires
        old(cache).wf(),
        call_ensures(Resolution::finish, (resolution, cache), result),
    ensures
        match resolution {
            Resolution::Cached { action } => {
                &&& result is Some && result->0 is Ok && result->0->Ok_0@ == action@
                &&& final(cache)@ == old(cache)@
            },
            Resolution::Fetching { .. } => result is None && final(cache)@ == old(cache)@,
            Resolution::Fetched { repo, version, action } => {
                let key = repo@ + "@"@ + version@;
                &&& result is Some && result->0 is Ok && result->0->Ok_0@ == action@
                &&& final(cache)@.entries.contains_key(key)
                &&& final(cache)@.entries[key] == action@
                &&& forall|other: Seq<char>|
                    other != key && #[trigger] final(cache)@.entries.contains_key(other)
                        ==> old(cache)@.entries.contains_key(other)
                        && final(cache)@.entries[other] == old(cache)@.entries[other]
                &&& forall|other: Seq<char>|
                    #[trigger] old(cache)@.entries.contains_key(other) && (old(
                        cache,
                    )@.order.len() < 256 || old(cache)@.entries.contains_key(key) || other
                        != old(cache)@.order.first()) ==> final(cache)@.entries.contains_key(other)
            },
            Resolution::Failed { message } => {
                &&& result is Some && result->0 is Err && result->0->Err_0@ == message@
                &&& final(cache)@ == old(cache)@
            },
        },
{
    assert(final(cache)@ == resolution@.stored(old(cache)@));
    assert(resolution@.result() == match result {
        Some(result) => Some(action::outcome(result)),
        None => None::<Outcome>,
    });
}

} // verus!
