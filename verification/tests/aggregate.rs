use ibr::model::{OpenPullRequest, Organization, PullRequest};

fn listed(number: &str, url: &str, logins: &[&str]) -> OpenPullRequest {
    OpenPullRequest {
        number: number.to_string(),
        url: url.to_string(),
        requested_reviewers: logins.iter().map(|l| l.to_string()).collect(),
    }
}

fn names(org: &Organization) -> Vec<String> {
    org.reviewers.iter().map(|r| r.name.clone()).collect()
}

fn repositories(org: &Organization) -> Vec<String> {
    org.repositories.iter().map(|r| r.name.clone()).collect()
}

fn has_duplicates(v: &[String]) -> bool {
    for i in 0..v.len() {
        for j in (i + 1)..v.len() {
            if v[i] == v[j] {
                return true;
            }
        }
    }
    false
}

#[test]
fn new_organization_is_empty() {
    let org = Organization::new();
    assert!(org.reviewers.is_empty());
    assert!(org.repositories.is_empty());
}

#[test]
fn two_repositories_scenario() {
    let mut org = Organization::new();
    org.record_pulls(
        "widgets",
        &vec![listed("1", "https://api.github.com/repos/acme/widgets/pulls/1", &["alice"])],
    );
    org.record_pulls(
        "gadgets",
        &vec![listed("7", "https://api.github.com/repos/acme/gadgets/pulls/7", &["alice", "bob"])],
    );
    assert_eq!(repositories(&org), vec!["widgets", "gadgets"]);
    assert_eq!(names(&org), vec!["alice", "bob"]);
    let alice = &org.reviewers[0];
    assert_eq!(alice.assigned_pull_requests.len(), 2);
    assert_eq!(alice.assigned_pull_requests[0].repo_name, "widgets");
    assert_eq!(alice.assigned_pull_requests[0].id, "1");
    assert_eq!(alice.assigned_pull_requests[0].url, "https://github.com/acme/widgets/pull/1");
    assert_eq!(alice.assigned_pull_requests[1].repo_name, "gadgets");
    assert_eq!(alice.assigned_pull_requests[1].id, "7");
    let bob = &org.reviewers[1];
    assert_eq!(bob.assigned_pull_requests.len(), 1);
    assert_eq!(bob.assigned_pull_requests[0].repo_name, "gadgets");
    assert_eq!(bob.assigned_pull_requests[0].id, "7");
    assert_eq!(bob.assigned_pull_requests[0].url, "https://github.com/acme/gadgets/pull/7");
}

#[test]
fn one_record_for_each_of_two_logins() {
    let mut org = Organization::new();
    org.record_pull(
        "widgets",
        &listed("42", "https://api.example.com/repos/acme/widgets/pulls/42", &["A", "B"]),
    );
    assert_eq!(names(&org), vec!["A", "B"]);
    for person in &org.reviewers {
        assert_eq!(person.assigned_pull_requests.len(), 1);
        let record = &person.assigned_pull_requests[0];
        assert_eq!(record.id, "42");
        assert_eq!(record.url, "https://example.com/acme/widgets/pull/42");
        assert_eq!(record.repo_name, "widgets");
    }
}

#[test]
fn names_never_stand_twice() {
    let mut org = Organization::new();
    let pulls = vec![
        listed("1", "u1", &["alice", "bob", "alice"]),
        listed("2", "u2", &["bob"]),
        listed("3", "u3", &["carol", "alice"]),
    ];
    org.record_pulls("widgets", &pulls);
    org.record_pulls("gadgets", &pulls);
    org.record_pulls("widgets", &pulls);
    assert!(!has_duplicates(&names(&org)));
    assert!(!has_duplicates(&repositories(&org)));
    assert_eq!(names(&org), vec!["alice", "bob", "carol"]);
    assert_eq!(repositories(&org), vec!["widgets", "gadgets"]);
    for person in &org.reviewers {
        for record in &person.assigned_pull_requests {
            assert!(org.has_repository(&record.repo_name));
        }
    }
    assert_eq!(org.reviewers[0].assigned_pull_requests.len(), 9);
    assert_eq!(org.reviewers[1].assigned_pull_requests.len(), 6);
    assert_eq!(org.reviewers[2].assigned_pull_requests.len(), 3);
}

#[test]
fn names_differing_in_case_are_different() {
    let mut org = Organization::new();
    org.record_pull("Widgets", &listed("1", "u", &["Alice", "alice"]));
    org.record_pull("widgets", &listed("2", "u", &["ALICE"]));
    assert_eq!(names(&org), vec!["Alice", "alice", "ALICE"]);
    assert_eq!(repositories(&org), vec!["Widgets", "widgets"]);
}

#[test]
fn pull_requests_that_ask_nobody_register_nothing() {
    let mut org = Organization::new();
    org.record_pulls("quiet", &vec![listed("1", "u1", &[]), listed("2", "u2", &[])]);
    assert!(org.repositories.is_empty());
    assert!(org.reviewers.is_empty());
    org.record_pulls("empty", &vec![]);
    assert!(org.repositories.is_empty());
}

#[test]
fn repository_is_registered_by_its_first_pull_request_that_asks_someone() {
    let mut org = Organization::new();
    org.record_pulls(
        "widgets",
        &vec![listed("1", "u1", &[]), listed("2", "u2", &["alice"]), listed("3", "u3", &[])],
    );
    assert_eq!(repositories(&org), vec!["widgets"]);
    assert_eq!(names(&org), vec!["alice"]);
    assert_eq!(org.reviewers[0].assigned_pull_requests.len(), 1);
    assert_eq!(org.reviewers[0].assigned_pull_requests[0].id, "2");
}

#[test]
fn assign_appends_to_the_named_person() {
    let mut org = Organization::new();
    let record = |id: &str, repo: &str| PullRequest {
        id: id.to_string(),
        url: format!("https://example.com/{}/{}", repo, id),
        repo_name: repo.to_string(),
    };
    org.assign("alice", record("1", "widgets"));
    org.assign("bob", record("2", "widgets"));
    org.assign("alice", record("3", "gadgets"));
    assert_eq!(org.find_reviewer("alice"), Some(0));
    assert_eq!(org.find_reviewer("bob"), Some(1));
    assert_eq!(org.find_reviewer("carol"), None);
    assert!(org.has_repository("widgets"));
    assert!(org.has_repository("gadgets"));
    assert!(!org.has_repository("Widgets"));
    let ids: Vec<&str> =
        org.reviewers[0].assigned_pull_requests.iter().map(|p| p.id.as_str()).collect();
    assert_eq!(ids, vec!["1", "3"]);
    assert_eq!(org.reviewers[1].assigned_pull_requests.len(), 1);
}
