use ibr::model::{PullRequest, Reviewer};
use ibr::table::{avatar_url, display_name};

#[test]
fn quotation_marks_are_taken_out() {
    assert_eq!(display_name("\"alice\""), "alice");
    assert_eq!(display_name("alice"), "alice");
    assert_eq!(display_name("\"\""), "");
    assert_eq!(display_name("a\"b\"c"), "abc");
    assert_eq!(display_name(""), "");
}

#[test]
fn picture_address() {
    assert_eq!(avatar_url("\"alice\""), "https://github.com/alice.png");
}

#[test]
fn cell_holds_the_pull_requests_of_its_repository() {
    let record = |id: &str, repo: &str| PullRequest {
        id: id.to_string(),
        url: format!("https://github.com/acme/{}/pull/{}", repo, id),
        repo_name: repo.to_string(),
    };
    let person = Reviewer {
        name: "\"alice\"".to_string(),
        assigned_pull_requests: vec![
            record("1", "widgets"),
            record("7", "gadgets"),
            record("9", "widgets"),
        ],
    };
    assert_eq!(person.display_name(), "alice");
    let cell = person.pull_requests_in("widgets");
    let ids: Vec<&str> = cell.iter().map(|p| p.id.as_str()).collect();
    assert_eq!(ids, vec!["1", "9"]);
    assert_eq!(cell[1].url, "https://github.com/acme/widgets/pull/9");
    assert_eq!(cell[1].repo_name, "widgets");
    assert_eq!(person.pull_requests_in("gadgets").len(), 1);
    assert!(person.pull_requests_in("Widgets").is_empty());
}
