//! Folding listed pull requests into the result.

use vstd::prelude::*;
use crate::model::{
    pulls_view, OpenPullRequest, OpenPullRequestView, Organization, OrganizationView, PullRequest,
    PullRequestView, Repository, Reviewer, ReviewerView,
};
use crate::invariants::{
    lemma_assign_all_keeps_wf, lemma_assign_keeps_wf, lemma_record_pulls_keeps_wf,
};
use crate::text::{same_text, web_url, web_url_of};

verus! {

impl OrganizationView {
    /// The result with `repo` registered.
    pub open spec fn with_repository(self, repo: Seq<char>) -> OrganizationView {
        if self.repositories.contains(repo) {
            self
        } else {
            OrganizationView { repositories: self.repositories.push(repo), ..self }
        }
    }

    /// The result with an assignee called `login`.
    pub open spec fn with_reviewer(self, login: Seq<char>) -> OrganizationView {
        if self.reviewer_names().contains(login) {
            self
        } else {
            OrganizationView {
                reviewers: self.reviewers.push(
                    ReviewerView { name: login, assigned: Seq::empty() },
                ),
                ..self
            }
        }
    }

    /// The result after `login` was asked to look at `pr`.
    pub open spec fn assign(self, login: Seq<char>, pr: PullRequestView) -> OrganizationView {
        let o = self.with_repository(pr.repo_name).with_reviewer(login);
        let i = o.place_of(login);
        OrganizationView {
            reviewers: o.reviewers.update(
                i,
                ReviewerView { name: login, assigned: o.reviewers[i].assigned.push(pr) },
            ),
            ..o
        }
    }

    /// The result after each of `logins`, in order, was asked to look at `pr`.
    pub open spec fn assign_all(self, logins: Seq<Seq<char>>, pr: PullRequestView)
        -> OrganizationView
        decreases logins.len(),
    {
        if logins.len() == 0 {
            self
        } else {
            self.assign_all(logins.drop_last(), pr).assign(logins.last(), pr)
        }
    }

    /// The record that a listed pull request of `repo` leaves with each of
    /// its assignees.
    pub open spec fn record_of(repo: Seq<char>, pull: OpenPullRequestView) -> PullRequestView {
        PullRequestView { id: pull.number, url: web_url_of(pull.url), repo_name: repo }
    }

    /// The result after one listed pull request of `repo`.
    pub open spec fn record_pull(self, repo: Seq<char>, pull: OpenPullRequestView)
        -> OrganizationView {
        self.assign_all(pull.requested_reviewers, Self::record_of(repo, pull))
    }

    /// The result after the listed pull requests of `repo`, in order.
    pub open spec fn record_pulls(self, repo: Seq<char>, pulls: Seq<OpenPullRequestView>)
        -> OrganizationView
        decreases pulls.len(),
    {
        if pulls.len() == 0 {
            self
        } else {
            self.record_pulls(repo, pulls.drop_last()).record_pull(repo, pulls.last())
        }
    }
}

impl Organization {
    /// Whether a repository called `name` is registered.
    pub fn has_repository(&self, name: &str) -> (found: bool)
        ensures
            found == self@.repositories.contains(name@),
    {
        let mut i: usize = 0;
        while i < self.repositories.len()
            invariant
                i <= self.repositories.len(),
                forall|j: int| 0 <= j < i ==> self@.repositories[j] != name@,
            decreases self.repositories.len() - i,
        {
            if same_text(self.repositories[i].name.as_str(), name) {
                assert(self@.repositories[i as int] == name@);
                return true;
            }
            i += 1;
        }
        false
    }

    /// The place of the first assignee called `login`.
    pub fn find_reviewer(&self, login: &str) -> (found: Option<usize>)
        ensures
            match found {
                Some(i) => self@.is_first_named(login@, i as int),
                None => !self@.reviewer_names().contains(login@),
            },
    {
        let mut i: usize = 0;
        while i < self.reviewers.len()
            invariant
                i <= self.reviewers.len(),
                forall|j: int| 0 <= j < i ==> (#[trigger] self@.reviewers[j]).name != login@,
            decreases self.reviewers.len() - i,
        {
            if same_text(self.reviewers[i].name.as_str(), login) {
                return Some(i);
            }
            i += 1;
        }
        assert forall|j: int| 0 <= j < self@.reviewer_names().len() implies self@.reviewer_names()[j]
            != login@ by {
            assert(self@.reviewers[j].name != login@);
        }
        None
    }

    /// Asks `login` to look at `pr`: registers the repository and the assignee
    /// where they are new, and appends `pr` to the assignee's assignments.
    pub fn assign(&mut self, login: &str, pr: PullRequest)
        ensures
            final(self)@ == old(self)@.assign(login@, pr@),
            old(self)@.wf() ==> final(self)@.wf(),
    {
        proof {
            if old(self)@.wf() {
                lemma_assign_keeps_wf(old(self)@, login@, pr@);
            }
        }
        let ghost login_v = login@;
        let ghost pr_v = pr@;
        if !self.has_repository(pr.repo_name.as_str()) {
            self.repositories.push(Repository { name: pr.repo_name.clone() });
            assert(self@.repositories =~= old(self)@.repositories.push(pr_v.repo_name));
        }
        assert(self@.reviewers =~= old(self)@.reviewers);
        assert(self@ == old(self)@.with_repository(pr_v.repo_name));
        let ghost with_repo = self@;
        let idx: usize = match self.find_reviewer(login) {
            Some(i) => {
                assert(self@.reviewer_names()[i as int] == login_v);
                i
            },
            None => {
                self.reviewers.push(
                    Reviewer { name: String::from_str(login), assigned_pull_requests: Vec::new() },
                );
                let ghost fresh = ReviewerView { name: login_v, assigned: Seq::empty() };
                assert(self.reviewers@.last()@.assigned =~= Seq::empty());
                assert(self@.reviewers =~= with_repo.reviewers.push(fresh));
                assert(self@.repositories =~= with_repo.repositories);
                assert forall|j: int| 0 <= j < with_repo.reviewers.len() implies (
                #[trigger] self@.reviewers[j]).name != login_v by {
                    assert(with_repo.reviewer_names()[j] == with_repo.reviewers[j].name);
                }
                self.reviewers.len() - 1
            },
        };
        let ghost o = self@;
        assert(o == with_repo.with_reviewer(login_v));
        assert(o.is_first_named(login_v, idx as int));
        assert(o.place_of(login_v) == idx as int);
        self.reviewers[idx].assigned_pull_requests.push(pr);
        assert(self@.reviewers[idx as int].assigned =~= o.reviewers[idx as int].assigned.push(pr_v));
        assert(self@.reviewers =~= o.reviewers.update(
            idx as int,
            ReviewerView { name: login_v, assigned: o.reviewers[idx as int].assigned.push(pr_v) },
        ));
        assert(self@.repositories =~= o.repositories);
    }
    /// Takes in one listed pull request of the repository `repo_name`: each
    /// assignee gets one record of it, all with the same number,
    /// web address and repository.
    pub fn record_pull(&mut self, repo_name: &str, pull: &OpenPullRequest)
        ensures
            final(self)@ == old(self)@.record_pull(repo_name@, pull@),
            old(self)@.wf() ==> final(self)@.wf(),
    {
        proof {
            if old(self)@.wf() {
                lemma_assign_all_keeps_wf(
                    old(self)@,
                    pull@.requested_reviewers,
                    OrganizationView::record_of(repo_name@, pull@),
                );
            }
        }
        let url = web_url(pull.url.as_str());
        let ghost logins = pull@.requested_reviewers;
        let ghost record = OrganizationView::record_of(repo_name@, pull@);
        let mut k: usize = 0;
        while k < pull.requested_reviewers.len()
            invariant
                k <= pull.requested_reviewers.len(),
                logins == pull@.requested_reviewers,
                record == OrganizationView::record_of(repo_name@, pull@),
                url@ == record.url,
                self@ == old(self)@.assign_all(logins.take(k as int), record),
            decreases pull.requested_reviewers.len() - k,
        {
            let pr = PullRequest {
                id: pull.number.clone(),
                url: url.clone(),
                repo_name: String::from_str(repo_name),
            };
            self.assign(pull.requested_reviewers[k].as_str(), pr);
            proof {
                assert(logins.take(k + 1).drop_last() =~= logins.take(k as int));
                assert(logins.take(k + 1).last() == logins[k as int]);
            }
            k += 1;
        }
        assert(logins.take(k as int) =~= logins);
    }

    /// Takes in the listed pull requests of the repository `repo_name`, in
    /// order.
    pub fn record_pulls(&mut self, repo_name: &str, pulls: &Vec<OpenPullRequest>)
        ensures
            final(self)@ == old(self)@.record_pulls(repo_name@, pulls_view(pulls@)),
            old(self)@.wf() ==> final(self)@.wf(),
    {
        proof {
            if old(self)@.wf() {
                lemma_record_pulls_keeps_wf(old(self)@, repo_name@, pulls_view(pulls@));
            }
        }
        let ghost listed = pulls_view(pulls@);
        let mut k: usize = 0;
        while k < pulls.len()
            invariant
                k <= pulls.len(),
                listed == pulls_view(pulls@),
                self@ == old(self)@.record_pulls(repo_name@, listed.take(k as int)),
            decreases pulls.len() - k,
        {
            self.record_pull(repo_name, &pulls[k]);
            proof {
                assert(listed.take(k + 1).drop_last() =~= listed.take(k as int));
                assert(listed.take(k + 1).last() == pulls[k as int]@);
            }
            k += 1;
        }
        assert(listed.take(k as int) =~= listed);
    }
}

} // verus!
