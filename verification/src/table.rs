//! What a table of the result shows: one row for each assignee, one column
//! for each repository.

use vstd::prelude::*;
use vstd::string::{StrSliceExecFns, StringExecFns};
use crate::model::{PullRequest, PullRequestView, Reviewer};
use crate::text::same_text;

verus! {

/// A name without its quotation marks.
pub open spec fn display_name_of(name: Seq<char>) -> Seq<char> {
    name.filter(|c: char| c != '"')
}

/// Those of `assigned` that belong to the repository `repo`, in order.
pub open spec fn assigned_in(assigned: Seq<PullRequestView>, repo: Seq<char>) -> Seq<
    PullRequestView,
> {
    assigned.filter(|p: PullRequestView| p.repo_name == repo)
}

/// The address of the picture that goes with a name.
pub open spec fn avatar_url_of(name: Seq<char>) -> Seq<char> {
    "https://github.com/"@ + display_name_of(name) + ".png"@
}

/// `name` with every quotation mark taken out.
pub fn display_name(name: &str) -> (shown: String)
    ensures
        shown@ == display_name_of(name@),
{
    let n: usize = name.unicode_len();
    let mut shown = String::new();
    let mut i: usize = 0;
    let ghost keep = |c: char| c != '"';
    proof {
        reveal(Seq::filter);
        assert(name@.take(0).filter(keep) =~= Seq::empty());
    }
    while i < n
        invariant
            i <= n,
            n == name@.len(),
            keep == (|c: char| c != '"'),
            shown@ == name@.take(i as int).filter(keep),
        decreases n - i,
    {
        let c = name.get_char(i);
        proof {
            reveal(Seq::filter);
            assert(name@.take(i + 1).drop_last() =~= name@.take(i as int));
            assert(name@.subrange(i as int, i + 1) =~= seq![c]);
            assert(shown@ + seq![c] =~= shown@.push(c));
        }
        if c != '"' {
            shown.append(name.substring_char(i, i + 1));
        }
        i += 1;
    }
    assert(name@.take(n as int) =~= name@);
    shown
}

/// The address of the picture that goes with `name`.
pub fn avatar_url(name: &str) -> (url: String)
    ensures
        url@ == avatar_url_of(name@),
{
    let mut url = String::from_str("https://github.com/");
    let shown = display_name(name);
    url.append(shown.as_str());
    url.append(".png");
    url
}

impl Reviewer {
    /// The name to show: the stored name without its quotation marks.
    pub fn display_name(&self) -> (shown: String)
        ensures
            shown@ == display_name_of(self@.name),
    {
        display_name(self.name.as_str())
    }

    /// The pull requests to show in the column of the repository
    /// `repo_name`: those assigned that belong to it, in order.
    pub fn pull_requests_in(&self, repo_name: &str) -> (cell: Vec<PullRequest>)
        ensures
            cell@.map_values(|p: PullRequest| p@) == assigned_in(self@.assigned, repo_name@),
    {
        let mut cell: Vec<PullRequest> = Vec::new();
        let mut i: usize = 0;
        let ghost belongs = |p: PullRequestView| p.repo_name == repo_name@;
        proof {
            reveal(Seq::filter);
            assert(cell@.map_values(|p: PullRequest| p@) =~= self@.assigned.take(0).filter(
                belongs,
            ));
        }
        while i < self.assigned_pull_requests.len()
            invariant
                i <= self.assigned_pull_requests.len(),
                belongs == (|p: PullRequestView| p.repo_name == repo_name@),
                cell@.map_values(|p: PullRequest| p@) == self@.assigned.take(i as int).filter(
                    belongs,
                ),
            decreases self.assigned_pull_requests.len() - i,
        {
            let pr = &self.assigned_pull_requests[i];
            let ghost before = cell@.map_values(|p: PullRequest| p@);
            proof {
                reveal(Seq::filter);
                assert(self@.assigned.take(i + 1).drop_last() =~= self@.assigned.take(i as int));
                assert(self@.assigned.take(i + 1).last() == pr@);
            }
            if same_text(pr.repo_name.as_str(), repo_name) {
                cell.push(
                    PullRequest {
                        id: pr.id.clone(),
                        url: pr.url.clone(),
                        repo_name: pr.repo_name.clone(),
                    },
                );
                assert(cell@.map_values(|p: PullRequest| p@) =~= before.push(pr@));
            }
            i += 1;
        }
        assert(self@.assigned.take(i as int) =~= self@.assigned);
        cell
    }
}

} // verus!
