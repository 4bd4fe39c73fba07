//! One run against the hosting service, as a chain of requests and answers.
//!
//! The crate sends nothing itself. A run says which address to ask next; the
//! caller asks, and hands back what came of it.

use vstd::prelude::*;
use crate::decode::{
    decode_pull_requests, decode_repositories, pull_requests_of, repositories_of, texts,
};
use crate::invariants::lemma_record_pulls_keeps_wf;
use crate::model::{
    pulls_view, OpenPullRequest, OpenPullRequestView, Organization, OrganizationView,
};

verus! {

/// Which of the two lists a request asks for.
#[derive(Debug, Clone, Copy, PartialEq, Eq, Structural)]
pub enum Stage {
    RepositoryList,
    PullRequestList,
}

/// Why a run ended without a result.
#[derive(Debug)]
pub enum FetchError {
    /// The request to `url` could not be completed.
    Network { stage: Stage, url: String },
    /// The answer from `url` could not be read as what was asked for.
    Parse { stage: Stage, url: String },
}

pub enum FetchErrorView {
    Network { stage: Stage, url: Seq<char> },
    Parse { stage: Stage, url: Seq<char> },
}

impl View for FetchError {
    type V = FetchErrorView;

    open spec fn view(&self) -> FetchErrorView {
        match self {
            FetchError::Network { stage, url } => FetchErrorView::Network { stage: *stage, url: url@ },
            FetchError::Parse { stage, url } => FetchErrorView::Parse { stage: *stage, url: url@ },
        }
    }
}

/// What came of a request.
#[derive(Debug)]
pub enum Event {
    /// The service answered, with this body.
    Answered(String),
    /// The service could not be reached, or refused.
    Unreachable,
    /// The service answered, and the body could not be taken in as text.
    Unreadable,
}

pub enum EventView {
    Answered(Seq<char>),
    Unreachable,
    Unreadable,
}

impl View for Event {
    type V = EventView;

    open spec fn view(&self) -> EventView {
        match self {
            Event::Answered(body) => EventView::Answered(body@),
            Event::Unreachable => EventView::Unreachable,
            Event::Unreadable => EventView::Unreadable,
        }
    }
}

/// What came of a request that got through with the status code `status`
/// and, where it could be taken in as text, the body `body`: only a status
/// from 200 to 299 counts as an answer.
pub open spec fn event_of(status: u16, body: Option<Seq<char>>) -> EventView {
    if 200 <= status <= 299 {
        match body {
            Some(text) => EventView::Answered(text),
            None => EventView::Unreadable,
        }
    } else {
        EventView::Unreachable
    }
}

impl Event {
    /// What came of a request that got through with the status code `status`
    /// and, where it could be taken in as text, the body `body`.
    pub fn from_response(status: u16, body: Option<String>) -> (event: Event)
        ensures
            event@ == event_of(
                status,
                match body {
                    Some(text) => Some(text@),
                    None => None,
                },
            ),
    {
        if 200 <= status && status <= 299 {
            match body {
                Some(text) => Event::Answered(text),
                None => Event::Unreadable,
            }
        } else {
            Event::Unreachable
        }
    }
}

/// A run that waits for an answer.
#[derive(Debug)]
pub struct Run {
    /// The organization that is asked about.
    pub organization: String,
    /// Whether the repository list was taken in.
    pub listed: bool,
    /// The names from the repository list, in its order.
    pub repositories: Vec<String>,
    /// The place of the repository whose pull requests are awaited.
    pub current: usize,
    /// What was put together so far.
    pub result: Organization,
}

pub struct RunView {
    pub organization: Seq<char>,
    pub listed: bool,
    pub repositories: Seq<Seq<char>>,
    pub current: int,
    pub result: OrganizationView,
}

impl View for Run {
    type V = RunView;

    open spec fn view(&self) -> RunView {
        RunView {
            organization: self.organization@,
            listed: self.listed,
            repositories: texts(self.repositories@),
            current: self.current as int,
            result: self.result@,
        }
    }
}

/// What a run does next.
#[derive(Debug)]
pub enum Step {
    /// Ask this address, and hand what comes of it to the run.
    Request(Run, String),
    /// The run is over, with this result.
    Finished(Organization),
    /// The run is over, without a result.
    Failed(FetchError),
}

pub enum StepView {
    Request(RunView, Seq<char>),
    Finished(OrganizationView),
    Failed(FetchErrorView),
}

impl View for Step {
    type V = StepView;

    open spec fn view(&self) -> StepView {
        match self {
            Step::Request(run, url) => StepView::Request(run@, url@),
            Step::Finished(result) => StepView::Finished(result@),
            Step::Failed(error) => StepView::Failed(error@),
        }
    }
}

/// The address of an organization's repository list.
pub open spec fn repositories_url_of(organization: Seq<char>) -> Seq<char> {
    "https://api.github.com/orgs/"@ + organization + "/repos"@
}

/// The address of a repository's list of open pull requests.
pub open spec fn pulls_url_of(organization: Seq<char>, repository: Seq<char>) -> Seq<char> {
    "https://api.github.com/repos/"@ + organization + "/"@ + repository + "/pulls?state=open"@
}

/// The value of the header that carries the access token.
pub open spec fn authorization_of(token: Seq<char>) -> Seq<char> {
    "Bearer "@ + token
}

/// What a failure reads like.
pub open spec fn message_of(error: FetchErrorView) -> Seq<char> {
    match error {
        FetchErrorView::Network { stage: Stage::RepositoryList, url } => {
            "Failed to fetch repositories from "@ + url
        },
        FetchErrorView::Network { stage: Stage::PullRequestList, url } => {
            "Failed to fetch pull requests from "@ + url
        },
        FetchErrorView::Parse { stage: Stage::RepositoryList, url } => {
            "Failed to parse repositories response from "@ + url
        },
        FetchErrorView::Parse { stage: Stage::PullRequestList, url } => {
            "Failed to parse pull requests from "@ + url
        },
    }
}

impl StepView {
    /// The result that the step carries is well formed.
    pub open spec fn result_wf(self) -> bool {
        match self {
            StepView::Request(run, _) => run.result.wf(),
            StepView::Finished(result) => result.wf(),
            StepView::Failed(_) => true,
        }
    }
}

impl RunView {
    /// A run that has seen nothing yet.
    pub open spec fn initial(organization: Seq<char>) -> RunView {
        RunView {
            organization,
            listed: false,
            repositories: Seq::empty(),
            current: 0,
            result: OrganizationView::empty(),
        }
    }

    /// The request that the run waits for: the repository list first, then
    /// the pull requests of each listed repository in turn, then nothing.
    pub open spec fn awaiting(self) -> Option<(Stage, Seq<char>)> {
        if !self.listed {
            Some((Stage::RepositoryList, repositories_url_of(self.organization)))
        } else if 0 <= self.current < self.repositories.len() {
            Some(
                (
                    Stage::PullRequestList,
                    pulls_url_of(self.organization, self.repositories[self.current]),
                ),
            )
        } else {
            None
        }
    }

    /// The step of a run that has taken in all it was given: the next
    /// request, or the end.
    pub open spec fn proceed(self) -> StepView {
        match self.awaiting() {
            Some((_, url)) => StepView::Request(self, url),
            None => StepView::Finished(self.result),
        }
    }

    /// The step after the repository list `names` came in.
    pub open spec fn take_repositories(self, names: Seq<Seq<char>>) -> StepView {
        RunView { listed: true, repositories: names, current: 0, ..self }.proceed()
    }

    /// The step after the pull requests of the current repository came in,
    /// or came in unreadable. A run that awaits no pull requests ignores
    /// them.
    pub open spec fn take_pull_requests(self, pulls: Option<Seq<OpenPullRequestView>>)
        -> StepView {
        match self.awaiting() {
            Some((Stage::PullRequestList, url)) => match pulls {
                Some(listed) => RunView {
                    current: self.current + 1,
                    result: self.result.record_pulls(self.repositories[self.current], listed),
                    ..self
                }.proceed(),
                None => StepView::Failed(
                    FetchErrorView::Parse { stage: Stage::PullRequestList, url },
                ),
            },
            _ => self.proceed(),
        }
    }

    /// The step after `event`. A request that failed ends the run; so does a
    /// list of pull requests that cannot be read. A repository list that
    /// cannot be read counts as empty.
    pub open spec fn step(self, event: EventView) -> StepView {
        match self.awaiting() {
            None => StepView::Finished(self.result),
            Some((stage, url)) => match event {
                EventView::Unreachable => StepView::Failed(FetchErrorView::Network { stage, url }),
                EventView::Unreadable => StepView::Failed(FetchErrorView::Parse { stage, url }),
                EventView::Answered(body) => match stage {
                    Stage::RepositoryList => self.take_repositories(repositories_of(body)),
                    Stage::PullRequestList => self.take_pull_requests(pull_requests_of(body)),
                },
            },
        }
    }
}

/// The address of an organization's repository list.
pub fn repositories_url(organization: &str) -> (url: String)
    ensures
        url@ == repositories_url_of(organization@),
{
    let mut url = String::from_str("https://api.github.com/orgs/");
    url.append(organization);
    url.append("/repos");
    url
}

/// The address of a repository's list of open pull requests.
pub fn pulls_url(organization: &str, repository: &str) -> (url: String)
    ensures
        url@ == pulls_url_of(organization@, repository@),
{
    let mut url = String::from_str("https://api.github.com/repos/");
    url.append(organization);
    url.append("/");
    url.append(repository);
    url.append("/pulls?state=open");
    url
}

/// The value of the header that carries the access token.
pub fn authorization(token: &str) -> (value: String)
    ensures
        value@ == authorization_of(token@),
{
    let mut value = String::from_str("Bearer ");
    value.append(token);
    value
}

/// The name under which every request is sent.
pub fn user_agent() -> (agent: &'static str)
    ensures
        agent@ == "ibr"@,
{
    "ibr"
}

impl FetchError {
    /// What the failure reads like: what was attempted, and at which address.
    pub fn message(&self) -> (text: String)
        ensures
            text@ == message_of(self@),
    {
        match self {
            FetchError::Network { stage, url } => {
                let mut text = match stage {
                    Stage::RepositoryList => String::from_str("Failed to fetch repositories from "),
                    Stage::PullRequestList => String::from_str(
                        "Failed to fetch pull requests from ",
                    ),
                };
                text.append(url.as_str());
                text
            },
            FetchError::Parse { stage, url } => {
                let mut text = match stage {
                    Stage::RepositoryList => String::from_str(
                        "Failed to parse repositories response from ",
                    ),
                    Stage::PullRequestList => String::from_str("Failed to parse pull requests from "),
                };
                text.append(url.as_str());
                text
            },
        }
    }
}

impl Run {
    /// The first step of a run on `organization`: the request for its
    /// repository list.
    pub fn start(organization: &str) -> (step: Step)
        ensures
            step@ == RunView::initial(organization@).proceed(),
            step@ == StepView::Request(
                RunView::initial(organization@),
                repositories_url_of(organization@),
            ),
            step@.result_wf(),
    {
        let run = Run {
            organization: String::from_str(organization),
            listed: false,
            repositories: Vec::new(),
            current: 0,
            result: Organization::new(),
        };
        assert(texts(run.repositories@) =~= Seq::empty());
        let url = repositories_url(organization);
        Step::Request(run, url)
    }

    /// The next request of a run that has taken in all it was given, or its
    /// end.
    pub fn proceed(self) -> (step: Step)
        ensures
            step@ == self@.proceed(),
    {
        if !self.listed {
            let url = repositories_url(self.organization.as_str());
            Step::Request(self, url)
        } else if self.current < self.repositories.len() {
            let url = pulls_url(
                self.organization.as_str(),
                self.repositories[self.current].as_str(),
            );
            Step::Request(self, url)
        } else {
            Step::Finished(self.result)
        }
    }

    /// Takes in the repository list and goes on to the first repository.
    pub fn take_repositories(self, names: Vec<String>) -> (step: Step)
        ensures
            step@ == self@.take_repositories(texts(names@)),
            self@.result.wf() ==> step@.result_wf(),
    {
        let run = Run {
            organization: self.organization,
            listed: true,
            repositories: names,
            current: 0,
            result: self.result,
        };
        run.proceed()
    }

    /// Takes in the pull requests of the current repository and goes on to
    /// the next; ends the run where they could not be read.
    pub fn take_pull_requests(self, pulls: Option<Vec<OpenPullRequest>>) -> (step: Step)
        ensures
            step@ == self@.take_pull_requests(
                match pulls {
                    Some(listed) => Some(pulls_view(listed@)),
                    None => None,
                },
            ),
            self@.result.wf() ==> step@.result_wf(),
    {
        if self.listed && self.current < self.repositories.len() {
            match pulls {
                Some(listed) => {
                    let mut run = self;
                    proof {
                        if run@.result.wf() {
                            lemma_record_pulls_keeps_wf(
                                run@.result,
                                run@.repositories[run@.current],
                                pulls_view(listed@),
                            );
                        }
                    }
                    run.result.record_pulls(run.repositories[run.current].as_str(), &listed);
                    run.current = run.current + 1;
                    run.proceed()
                },
                None => {
                    let url = pulls_url(
                        self.organization.as_str(),
                        self.repositories[self.current].as_str(),
                    );
                    Step::Failed(FetchError::Parse { stage: Stage::PullRequestList, url })
                },
            }
        } else {
            self.proceed()
        }
    }

    /// Takes in what came of the awaited request.
    pub fn step(self, event: Event) -> (step: Step)
        ensures
            step@ == self@.step(event@),
            self@.result.wf() ==> step@.result_wf(),
    {
        if !self.listed {
            match event {
                Event::Answered(body) => {
                    let names = decode_repositories(body.as_str());
                    self.take_repositories(names)
                },
                Event::Unreachable => {
                    let url = repositories_url(self.organization.as_str());
                    Step::Failed(FetchError::Network { stage: Stage::RepositoryList, url })
                },
                Event::Unreadable => {
                    let url = repositories_url(self.organization.as_str());
                    Step::Failed(FetchError::Parse { stage: Stage::RepositoryList, url })
                },
            }
        } else if self.current < self.repositories.len() {
            match event {
                Event::Answered(body) => {
                    let pulls = decode_pull_requests(body.as_str());
                    self.take_pull_requests(pulls)
                },
                Event::Unreachable => {
                    let url = pulls_url(
                        self.organization.as_str(),
                        self.repositories[self.current].as_str(),
                    );
                    Step::Failed(FetchError::Network { stage: Stage::PullRequestList, url })
                },
                Event::Unreadable => {
                    let url = pulls_url(
                        self.organization.as_str(),
                        self.repositories[self.current].as_str(),
                    );
                    Step::Failed(FetchError::Parse { stage: Stage::PullRequestList, url })
                },
            }
        } else {
            Step::Finished(self.result)
        }
    }
}

/// Whatever comes of a request, the step after it carries a well-formed
/// result where the run did: no name stands twice in it, and every record
/// names a registered repository.
pub proof fn lemma_step_keeps_wf(run: RunView, event: EventView)
    requires
        run.result.wf(),
    ensures
        run.step(event).result_wf(),
{
    if run.listed && 0 <= run.current < run.repositories.len() {
        if let EventView::Answered(body) = event {
            if let Some(listed) = pull_requests_of(body) {
                lemma_record_pulls_keeps_wf(run.result, run.repositories[run.current], listed);
            }
        }
    }
}

/// Where a run stands after what came of its requests, one after the other.
/// A run that is over stays as it is.
pub open spec fn outcome(step: StepView, events: Seq<EventView>) -> StepView
    decreases events.len(),
{
    if events.len() == 0 {
        step
    } else {
        match outcome(step, events.drop_last()) {
            StepView::Request(run, _) => run.step(events.last()),
            over => over,
        }
    }
}

/// Whatever the organization is called and whatever comes of the requests, a
/// run never holds a result in which a name stands twice, or in which a
/// record names a repository that is not registered.
pub proof fn lemma_every_outcome_wf(organization: Seq<char>, events: Seq<EventView>)
    ensures
        outcome(RunView::initial(organization).proceed(), events).result_wf(),
    decreases events.len(),
{
    let first = RunView::initial(organization).proceed();
    if events.len() == 0 {
        assert(RunView::initial(organization).result.wf());
    } else {
        lemma_every_outcome_wf(organization, events.drop_last());
        match outcome(first, events.drop_last()) {
            StepView::Request(run, _) => {
                lemma_step_keeps_wf(run, events.last());
            },
            _ => {},
        }
    }
}

/// A repository list that is no JSON text is taken as empty: the run goes on,
/// and ends at once with what it had.
pub proof fn lemma_unreadable_list_is_empty(run: RunView, body: Seq<char>)
    requires
        !run.listed,
        crate::json::parsed(body) is None,
    ensures
        repositories_of(body) == Seq::<Seq<char>>::empty(),
        run.step(EventView::Answered(body)) == StepView::Finished(run.result),
{
}

/// A list of pull requests that cannot be read ends the run without a
/// result, whatever was put together before.
pub proof fn lemma_unreadable_pulls_fail(run: RunView, body: Seq<char>)
    requires
        run.listed,
        0 <= run.current < run.repositories.len(),
        pull_requests_of(body) is None,
    ensures
        run.step(EventView::Answered(body)) == StepView::Failed(
            FetchErrorView::Parse {
                stage: Stage::PullRequestList,
                url: pulls_url_of(run.organization, run.repositories[run.current]),
            },
        ),
{
}

} // verus!
