//! What holds of every result that the aggregation builds.

use vstd::prelude::*;
use crate::model::{OpenPullRequestView, OrganizationView, PullRequestView, ReviewerView};

verus! {

/// Where an assignee called `login` exists, `place_of` is the place of the
/// first of that name.
pub proof fn lemma_place_of(o: OrganizationView, login: Seq<char>)
    requires
        o.reviewer_names().contains(login),
    ensures
        o.is_first_named(login, o.place_of(login)),
{
    let names = o.reviewer_names();
    let k = choose|k: int| 0 <= k < names.len() && names[k] == login;
    assert(o.reviewers[k].name == login);
    lemma_first_exists(o, login, k);
}

proof fn lemma_first_exists(o: OrganizationView, login: Seq<char>, k: int)
    requires
        0 <= k < o.reviewers.len(),
        o.reviewers[k].name == login,
    ensures
        exists|i: int| o.is_first_named(login, i),
    decreases k,
{
    if exists|j: int| 0 <= j < k && o.reviewers[j].name == login {
        let j = choose|j: int| 0 <= j < k && o.reviewers[j].name == login;
        lemma_first_exists(o, login, j);
    } else {
        assert(o.is_first_named(login, k));
    }
}

/// What an assignment registers: afterwards the repository is there and an
/// assignee called `login` is, and appending the record changes no name.
proof fn lemma_assign_shape(o: OrganizationView, login: Seq<char>, pr: PullRequestView)
    ensures
        ({
            let mid = o.with_repository(pr.repo_name).with_reviewer(login);
            let i = mid.place_of(login);
            &&& mid.is_first_named(login, i)
            &&& mid.repositories.contains(pr.repo_name)
            &&& o.assign(login, pr).reviewer_names() == mid.reviewer_names()
            &&& o.assign(login, pr).repositories == mid.repositories
        }),
{
    let with_repo = o.with_repository(pr.repo_name);
    let mid = with_repo.with_reviewer(login);
    if !o.repositories.contains(pr.repo_name) {
        assert(with_repo.repositories.last() == pr.repo_name);
    }
    if !with_repo.reviewer_names().contains(login) {
        assert(mid.reviewer_names().last() == login);
    }
    lemma_place_of(mid, login);
    assert(o.assign(login, pr).reviewer_names() =~= mid.reviewer_names());
}

/// One assignment keeps a result well formed: no name comes to stand twice,
/// and the new record's repository is registered.
pub proof fn lemma_assign_keeps_wf(o: OrganizationView, login: Seq<char>, pr: PullRequestView)
    requires
        o.wf(),
    ensures
        o.assign(login, pr).wf(),
{
    let with_repo = o.with_repository(pr.repo_name);
    let mid = with_repo.with_reviewer(login);
    let after = o.assign(login, pr);
    lemma_assign_shape(o, login, pr);
    let i = mid.place_of(login);
    assert(with_repo.repositories.no_duplicates());
    assert forall|x: Seq<char>| o.repositories.contains(x) implies with_repo.repositories.contains(
        x,
    ) by {
        let k = choose|k: int| 0 <= k < o.repositories.len() && o.repositories[k] == x;
        assert(with_repo.repositories[k] == x);
    }
    assert(mid.reviewer_names().no_duplicates()) by {
        if !with_repo.reviewer_names().contains(login) {
            assert(mid.reviewer_names() =~= with_repo.reviewer_names().push(login));
        }
    }
    assert forall|a: int, b: int|
        0 <= a < after.reviewers.len() && 0 <= b < after.reviewers[a].assigned.len() implies after.repositories.contains(
        (#[trigger] after.reviewers[a].assigned[b]).repo_name,
    ) by {
        if a == i && b == mid.reviewers[i].assigned.len() {
        } else if a < o.reviewers.len() {
            assert(after.reviewers[a].assigned[b] == o.reviewers[a].assigned[b]);
            assert(o.repositories.contains(o.reviewers[a].assigned[b].repo_name));
        } else {
        }
    }
}

/// Assigning one record to several assignees keeps a result well formed.
pub proof fn lemma_assign_all_keeps_wf(
    o: OrganizationView,
    logins: Seq<Seq<char>>,
    pr: PullRequestView,
)
    requires
        o.wf(),
    ensures
        o.assign_all(logins, pr).wf(),
    decreases logins.len(),
{
    if logins.len() > 0 {
        lemma_assign_all_keeps_wf(o, logins.drop_last(), pr);
        lemma_assign_keeps_wf(o.assign_all(logins.drop_last(), pr), logins.last(), pr);
    }
}

/// Whatever is listed for whatever repository, a well-formed result stays
/// well formed: no two assignees and no two repositories of it have the same
/// name, and every record names a registered repository.
pub proof fn lemma_record_pulls_keeps_wf(
    o: OrganizationView,
    repo: Seq<char>,
    pulls: Seq<OpenPullRequestView>,
)
    requires
        o.wf(),
    ensures
        o.record_pulls(repo, pulls).wf(),
    decreases pulls.len(),
{
    if pulls.len() > 0 {
        lemma_record_pulls_keeps_wf(o, repo, pulls.drop_last());
        lemma_assign_all_keeps_wf(
            o.record_pulls(repo, pulls.drop_last()),
            pulls.last().requested_reviewers,
            OrganizationView::record_of(repo, pulls.last()),
        );
    }
}

/// Only one place holds the first assignee of a name.
proof fn lemma_first_unique(o: OrganizationView, login: Seq<char>, a: int, b: int)
    requires
        o.is_first_named(login, a),
        o.is_first_named(login, b),
    ensures
        a == b,
{
    if a < b {
        assert(o.reviewers[a].name != login);
    } else if b < a {
        assert(o.reviewers[b].name != login);
    }
}

/// One assignment appends the record to what `login` had, and leaves what
/// every other name had.
pub proof fn lemma_assign_adds_one(
    o: OrganizationView,
    login: Seq<char>,
    pr: PullRequestView,
    other: Seq<char>,
)
    ensures
        o.assign(login, pr).assigned_to(other) == if other == login {
            o.assigned_to(other).push(pr)
        } else {
            o.assigned_to(other)
        },
{
    let with_repo = o.with_repository(pr.repo_name);
    let mid = with_repo.with_reviewer(login);
    let after = o.assign(login, pr);
    lemma_assign_shape(o, login, pr);
    let i = mid.place_of(login);
    let had = o.reviewer_names().contains(login);
    assert(with_repo.reviewers == o.reviewers);
    if had {
        assert(mid.reviewers == o.reviewers);
    } else {
        assert(mid.reviewer_names() =~= o.reviewer_names().push(login));
        assert(i == o.reviewers.len()) by {
            if i < o.reviewers.len() {
                assert(o.reviewer_names()[i] == login);
            }
        }
    }
    if other == login {
        assert(after.reviewer_names()[i] == login);
        lemma_place_of(after, login);
        assert(after.is_first_named(login, i)) by {
            assert forall|j: int| 0 <= j < i implies (#[trigger] after.reviewers[j]).name
                != login by {
                assert(mid.reviewers[j].name != login);
            }
        }
        lemma_first_unique(after, login, i, after.place_of(login));
        if had {
            lemma_place_of(o, login);
            lemma_first_unique(mid, login, i, o.place_of(login));
        } else {
            assert(mid.reviewers[i].assigned.push(pr) =~= Seq::<PullRequestView>::empty().push(pr));
        }
    } else {
        if o.reviewer_names().contains(other) {
            lemma_place_of(o, other);
            let j = o.place_of(other);
            assert(j != i);
            assert(after.reviewer_names()[j] == other);
            assert(after.is_first_named(other, j)) by {
                assert forall|k: int| 0 <= k < j implies (#[trigger] after.reviewers[k]).name
                    != other by {
                    assert(o.reviewers[k].name != other);
                }
            }
            lemma_place_of(after, other);
            lemma_first_unique(after, other, j, after.place_of(other));
        } else {
            if after.reviewer_names().contains(other) {
                let k = choose|k: int|
                    0 <= k < after.reviewer_names().len() && after.reviewer_names()[k] == other;
                assert(mid.reviewer_names()[k] == other);
                if k < o.reviewers.len() {
                    assert(o.reviewer_names()[k] == other);
                }
            }
        }
    }
}

/// A record assigned to assignees of different names is appended once to what
/// each of them had; what every other name had stays.
pub proof fn lemma_assign_all_adds_one_each(
    o: OrganizationView,
    logins: Seq<Seq<char>>,
    pr: PullRequestView,
    other: Seq<char>,
)
    requires
        logins.no_duplicates(),
    ensures
        o.assign_all(logins, pr).assigned_to(other) == if logins.contains(other) {
            o.assigned_to(other).push(pr)
        } else {
            o.assigned_to(other)
        },
    decreases logins.len(),
{
    if logins.len() > 0 {
        let front = logins.drop_last();
        lemma_assign_all_adds_one_each(o, front, pr, other);
        lemma_assign_adds_one(o.assign_all(front, pr), logins.last(), pr, other);
        if other == logins.last() {
            assert(logins[logins.len() - 1] == other);
            if front.contains(other) {
                let k = choose|k: int| 0 <= k < front.len() && front[k] == other;
                assert(logins[k] == other);
            }
        } else if logins.contains(other) {
            let k = choose|k: int| 0 <= k < logins.len() && logins[k] == other;
            assert(front[k] == other);
        } else if front.contains(other) {
            let k = choose|k: int| 0 <= k < front.len() && front[k] == other;
            assert(logins[k] == other);
        }
    }
}

/// A listed pull request that asks two different assignees leaves exactly one
/// record with each of them, the same record for both: its number, its web
/// address and its repository.
pub proof fn lemma_fan_out(
    o: OrganizationView,
    repo: Seq<char>,
    pull: OpenPullRequestView,
    first: Seq<char>,
    second: Seq<char>,
)
    requires
        first != second,
        pull.requested_reviewers == seq![first, second],
    ensures
        o.record_pull(repo, pull).assigned_to(first) == o.assigned_to(first).push(
            OrganizationView::record_of(repo, pull),
        ),
        o.record_pull(repo, pull).assigned_to(second) == o.assigned_to(second).push(
            OrganizationView::record_of(repo, pull),
        ),
{
    let logins = pull.requested_reviewers;
    let pr = OrganizationView::record_of(repo, pull);
    assert(logins[0] == first && logins[1] == second);
    lemma_assign_all_adds_one_each(o, logins, pr, first);
    lemma_assign_all_adds_one_each(o, logins, pr, second);
}

/// Pull requests that ask nobody for an answer leave the result as it was: in
/// particular their repository is not registered.
pub proof fn lemma_no_reviewers_no_change(
    o: OrganizationView,
    repo: Seq<char>,
    pulls: Seq<OpenPullRequestView>,
)
    requires
        forall|k: int| 0 <= k < pulls.len() ==> (#[trigger] pulls[k]).requested_reviewers.len() == 0,
    ensures
        o.record_pulls(repo, pulls) == o,
    decreases pulls.len(),
{
    if pulls.len() > 0 {
        lemma_no_reviewers_no_change(o, repo, pulls.drop_last());
    }
}

/// Assigning a record registers its repository, where there is anyone to
/// assign it to, and no other.
pub proof fn lemma_assign_all_repositories(
    o: OrganizationView,
    logins: Seq<Seq<char>>,
    pr: PullRequestView,
)
    ensures
        o.assign_all(logins, pr).repositories == if logins.len() == 0 {
            o.repositories
        } else {
            o.with_repository(pr.repo_name).repositories
        },
    decreases logins.len(),
{
    if logins.len() > 0 {
        let front = logins.drop_last();
        lemma_assign_all_repositories(o, front, pr);
        let before = o.assign_all(front, pr);
        lemma_assign_shape(before, logins.last(), pr);
        if front.len() > 0 {
            let registered = o.with_repository(pr.repo_name);
            if !o.repositories.contains(pr.repo_name) {
                assert(registered.repositories.last() == pr.repo_name);
            }
            assert(before.repositories.contains(pr.repo_name));
        }
    }
}

/// The repositories after the listed pull requests of `repo`: `repo` is
/// registered, behind those that were there, exactly where it is new and one
/// of the pull requests asks somebody; nothing else changes.
pub proof fn lemma_record_pulls_repositories(
    o: OrganizationView,
    repo: Seq<char>,
    pulls: Seq<OpenPullRequestView>,
)
    ensures
        o.record_pulls(repo, pulls).repositories == if exists|k: int|
            0 <= k < pulls.len() && (#[trigger] pulls[k]).requested_reviewers.len() > 0 {
            o.with_repository(repo).repositories
        } else {
            o.repositories
        },
    decreases pulls.len(),
{
    if pulls.len() > 0 {
        let front = pulls.drop_last();
        lemma_record_pulls_repositories(o, repo, front);
        let before = o.record_pulls(repo, front);
        let record = OrganizationView::record_of(repo, pulls.last());
        lemma_assign_all_repositories(before, pulls.last().requested_reviewers, record);
        let asked_front = exists|k: int|
            0 <= k < front.len() && (#[trigger] front[k]).requested_reviewers.len() > 0;
        let asked = exists|k: int|
            0 <= k < pulls.len() && (#[trigger] pulls[k]).requested_reviewers.len() > 0;
        if asked_front {
            let k = choose|k: int|
                0 <= k < front.len() && (#[trigger] front[k]).requested_reviewers.len() > 0;
            assert(pulls[k].requested_reviewers.len() > 0);
            let registered = o.with_repository(repo);
            if !o.repositories.contains(repo) {
                assert(registered.repositories.last() == repo);
            }
            assert(before.repositories.contains(repo));
        } else if pulls.last().requested_reviewers.len() > 0 {
            assert(pulls[pulls.len() - 1].requested_reviewers.len() > 0);
        } else if asked {
            let k = choose|k: int|
                0 <= k < pulls.len() && (#[trigger] pulls[k]).requested_reviewers.len() > 0;
            assert(front[k].requested_reviewers.len() > 0);
        }
    }
}

/// One assignment keeps every name at its place: who was first seen earlier
/// stays earlier.
pub proof fn lemma_assign_keeps_order(o: OrganizationView, login: Seq<char>, pr: PullRequestView)
    ensures
        o.reviewer_names().is_prefix_of(o.assign(login, pr).reviewer_names()),
        o.repositories.is_prefix_of(o.assign(login, pr).repositories),
{
    lemma_assign_shape(o, login, pr);
}

/// Taking in listed pull requests keeps every name at its place: assignees
/// and repositories stand in the order in which they were first seen.
pub proof fn lemma_record_pulls_keeps_order(
    o: OrganizationView,
    repo: Seq<char>,
    pulls: Seq<OpenPullRequestView>,
)
    ensures
        o.reviewer_names().is_prefix_of(o.record_pulls(repo, pulls).reviewer_names()),
        o.repositories.is_prefix_of(o.record_pulls(repo, pulls).repositories),
    decreases pulls.len(),
{
    if pulls.len() > 0 {
        lemma_record_pulls_keeps_order(o, repo, pulls.drop_last());
        let before = o.record_pulls(repo, pulls.drop_last());
        lemma_assign_all_keeps_order(
            before,
            pulls.last().requested_reviewers,
            OrganizationView::record_of(repo, pulls.last()),
        );
    }
}

proof fn lemma_assign_all_keeps_order(
    o: OrganizationView,
    logins: Seq<Seq<char>>,
    pr: PullRequestView,
)
    ensures
        o.reviewer_names().is_prefix_of(o.assign_all(logins, pr).reviewer_names()),
        o.repositories.is_prefix_of(o.assign_all(logins, pr).repositories),
    decreases logins.len(),
{
    if logins.len() > 0 {
        lemma_assign_all_keeps_order(o, logins.drop_last(), pr);
        lemma_assign_keeps_order(o.assign_all(logins.drop_last(), pr), logins.last(), pr);
    }
}

/// The number of records that a list of assignees holds, all together.
pub open spec fn record_count(reviewers: Seq<ReviewerView>) -> nat
    decreases reviewers.len(),
{
    if reviewers.len() == 0 {
        0
    } else {
        record_count(reviewers.drop_last()) + reviewers.last().assigned.len()
    }
}

proof fn lemma_record_count_update(reviewers: Seq<ReviewerView>, i: int, r: ReviewerView)
    requires
        0 <= i < reviewers.len(),
    ensures
        record_count(reviewers.update(i, r)) + reviewers[i].assigned.len() == record_count(
            reviewers,
        ) + r.assigned.len(),
    decreases reviewers.len(),
{
    let updated = reviewers.update(i, r);
    if i == reviewers.len() - 1 {
        assert(updated.drop_last() =~= reviewers.drop_last());
    } else {
        assert(updated.drop_last() =~= reviewers.drop_last().update(i, r));
        lemma_record_count_update(reviewers.drop_last(), i, r);
    }
}

/// One assignment adds one record.
pub proof fn lemma_assign_counts_one(o: OrganizationView, login: Seq<char>, pr: PullRequestView)
    ensures
        record_count(o.assign(login, pr).reviewers) == record_count(o.reviewers) + 1,
{
    let mid = o.with_repository(pr.repo_name).with_reviewer(login);
    lemma_assign_shape(o, login, pr);
    let i = mid.place_of(login);
    if !o.reviewer_names().contains(login) {
        assert(mid.reviewers.drop_last() =~= o.reviewers);
    }
    lemma_record_count_update(
        mid.reviewers,
        i,
        ReviewerView { name: login, assigned: mid.reviewers[i].assigned.push(pr) },
    );
}

/// A listed pull request leaves exactly as many records as it has
/// assignees, whoever they are and whatever was there.
pub proof fn lemma_record_pull_counts(
    o: OrganizationView,
    repo: Seq<char>,
    pull: OpenPullRequestView,
)
    ensures
        record_count(o.record_pull(repo, pull).reviewers) == record_count(o.reviewers)
            + pull.requested_reviewers.len(),
{
    lemma_assign_all_counts(o, pull.requested_reviewers, OrganizationView::record_of(repo, pull));
}

proof fn lemma_assign_all_counts(o: OrganizationView, logins: Seq<Seq<char>>, pr: PullRequestView)
    ensures
        record_count(o.assign_all(logins, pr).reviewers) == record_count(o.reviewers)
            + logins.len(),
    decreases logins.len(),
{
    if logins.len() > 0 {
        lemma_assign_all_counts(o, logins.drop_last(), pr);
        lemma_assign_counts_one(o.assign_all(logins.drop_last(), pr), logins.last(), pr);
    }
}

} // verus!
