//! The data of one aggregation run and its mathematical model.

use vstd::prelude::*;

verus! {

/// One open pull request as it is attached to one assignee.
#[derive(Debug, Clone)]
pub struct PullRequest {
    /// The pull request's number, as text.
    pub id: String,
    /// The address of the pull request's web page.
    pub url: String,
    /// The name of the repository that the pull request belongs to.
    pub repo_name: String,
}

/// A person who owes an answer on at least one open pull request.
#[derive(Debug)]
pub struct Reviewer {
    pub name: String,
    pub assigned_pull_requests: Vec<PullRequest>,
}

/// A repository of the organization.
#[derive(Debug)]
pub struct Repository {
    pub name: String,
}

/// The result of a run: assignees and repositories, each in the order in
/// which they were first seen.
#[derive(Debug)]
pub struct Organization {
    pub reviewers: Vec<Reviewer>,
    pub repositories: Vec<Repository>,
}

/// An open pull request as the hosting service lists it.
#[derive(Debug)]
pub struct OpenPullRequest {
    /// The pull request's number, as text.
    pub number: String,
    /// The address under which the service's interface serves the pull request.
    pub url: String,
    /// The logins of the assignees, in the listed order.
    pub requested_reviewers: Vec<String>,
}

pub struct PullRequestView {
    pub id: Seq<char>,
    pub url: Seq<char>,
    pub repo_name: Seq<char>,
}

pub struct ReviewerView {
    pub name: Seq<char>,
    pub assigned: Seq<PullRequestView>,
}

pub struct OrganizationView {
    pub reviewers: Seq<ReviewerView>,
    pub repositories: Seq<Seq<char>>,
}

pub struct OpenPullRequestView {
    pub number: Seq<char>,
    pub url: Seq<char>,
    pub requested_reviewers: Seq<Seq<char>>,
}

impl View for PullRequest {
    type V = PullRequestView;

    open spec fn view(&self) -> PullRequestView {
        PullRequestView { id: self.id@, url: self.url@, repo_name: self.repo_name@ }
    }
}

impl View for Reviewer {
    type V = ReviewerView;

    open spec fn view(&self) -> ReviewerView {
        ReviewerView {
            name: self.name@,
            assigned: self.assigned_pull_requests@.map_values(|p: PullRequest| p@),
        }
    }
}

impl View for Repository {
    type V = Seq<char>;

    open spec fn view(&self) -> Seq<char> {
        self.name@
    }
}

impl View for Organization {
    type V = OrganizationView;

    open spec fn view(&self) -> OrganizationView {
        OrganizationView {
            reviewers: self.reviewers@.map_values(|r: Reviewer| r@),
            repositories: self.repositories@.map_values(|r: Repository| r@),
        }
    }
}

impl View for OpenPullRequest {
    type V = OpenPullRequestView;

    open spec fn view(&self) -> OpenPullRequestView {
        OpenPullRequestView {
            number: self.number@,
            url: self.url@,
            requested_reviewers: self.requested_reviewers@.map_values(|s: String| s@),
        }
    }
}

/// The model of a list of listed pull requests.
pub open spec fn pulls_view(pulls: Seq<OpenPullRequest>) -> Seq<OpenPullRequestView> {
    pulls.map_values(|p: OpenPullRequest| p@)
}

impl OrganizationView {
    /// The result before anything was seen.
    pub open spec fn empty() -> OrganizationView {
        OrganizationView { reviewers: Seq::empty(), repositories: Seq::empty() }
    }

    /// The assignees' names, in order.
    pub open spec fn reviewer_names(self) -> Seq<Seq<char>> {
        self.reviewers.map_values(|r: ReviewerView| r.name)
    }

    /// `i` is the place of the first assignee called `login`.
    pub open spec fn is_first_named(self, login: Seq<char>, i: int) -> bool {
        &&& 0 <= i < self.reviewers.len()
        &&& self.reviewers[i].name == login
        &&& forall|j: int| 0 <= j < i ==> (#[trigger] self.reviewers[j]).name != login
    }

    /// The place of the first assignee called `login`, where there is one.
    pub open spec fn place_of(self, login: Seq<char>) -> int {
        choose|i: int| self.is_first_named(login, i)
    }

    /// What is assigned to `login`: nothing where no assignee has that name.
    pub open spec fn assigned_to(self, login: Seq<char>) -> Seq<PullRequestView> {
        if self.reviewer_names().contains(login) {
            self.reviewers[self.place_of(login)].assigned
        } else {
            Seq::empty()
        }
    }

    /// No assignee and no repository occurs twice, and every assigned pull
    /// request belongs to a repository of the result.
    pub open spec fn wf(self) -> bool {
        &&& self.reviewer_names().no_duplicates()
        &&& self.repositories.no_duplicates()
        &&& forall|i: int, j: int|
            0 <= i < self.reviewers.len() && 0 <= j < self.reviewers[i].assigned.len()
                ==> self.repositories.contains(
                (#[trigger] self.reviewers[i].assigned[j]).repo_name,
            )
    }
}

impl Organization {
    /// An empty result.
    pub fn new() -> (org: Organization)
        ensures
            org@ == OrganizationView::empty(),
            org@.wf(),
    {
        let org = Organization { reviewers: Vec::new(), repositories: Vec::new() };
        assert(org@.reviewers =~= Seq::empty());
        assert(org@.repositories =~= Seq::empty());
        org
    }
}

} // verus!
