use ibr::engine::{
    authorization, pulls_url, repositories_url, user_agent, Event, FetchError, Run, Stage, Step,
};
use ibr::model::Organization;

fn request(step: Step) -> (Run, String) {
    match step {
        Step::Request(run, url) => (run, url),
        other => panic!("expected a request, got {:?}", other),
    }
}

fn finished(step: Step) -> Organization {
    match step {
        Step::Finished(result) => result,
        other => panic!("expected the end of the run, got {:?}", other),
    }
}

fn failed(step: Step) -> FetchError {
    match step {
        Step::Failed(error) => error,
        other => panic!("expected a failure, got {:?}", other),
    }
}

fn pull(number: u32, repo: &str, logins: &[&str]) -> String {
    let people: Vec<String> = logins.iter().map(|l| format!("{{\"login\":\"{}\"}}", l)).collect();
    format!(
        "{{\"number\":{},\"state\":\"open\",\"url\":\"https://api.github.com/repos/acme/{}/pulls/{}\",\"requested_reviewers\":[{}]}}",
        number,
        repo,
        number,
        people.join(",")
    )
}

#[test]
fn addresses() {
    assert_eq!(repositories_url("acme"), "https://api.github.com/orgs/acme/repos");
    assert_eq!(
        pulls_url("acme", "widgets"),
        "https://api.github.com/repos/acme/widgets/pulls?state=open"
    );
}

#[test]
fn headers() {
    assert_eq!(authorization("t0ken"), "Bearer t0ken");
    assert_eq!(user_agent(), "ibr");
}

#[test]
fn messages() {
    let url = || "https://x/y".to_string();
    assert_eq!(
        FetchError::Network { stage: Stage::RepositoryList, url: url() }.message(),
        "Failed to fetch repositories from https://x/y"
    );
    assert_eq!(
        FetchError::Network { stage: Stage::PullRequestList, url: url() }.message(),
        "Failed to fetch pull requests from https://x/y"
    );
    assert_eq!(
        FetchError::Parse { stage: Stage::RepositoryList, url: url() }.message(),
        "Failed to parse repositories response from https://x/y"
    );
    assert_eq!(
        FetchError::Parse { stage: Stage::PullRequestList, url: url() }.message(),
        "Failed to parse pull requests from https://x/y"
    );
}

#[test]
fn run_starts_with_the_repository_list() {
    let (run, url) = request(Run::start("acme"));
    assert_eq!(url, "https://api.github.com/orgs/acme/repos");
    assert_eq!(run.organization, "acme");
    assert!(!run.listed);
    assert!(run.repositories.is_empty());
    assert!(run.result.reviewers.is_empty());
    assert!(run.result.repositories.is_empty());
}

#[test]
fn run_over_two_repositories() {
    let (run, _) = request(Run::start("acme"));
    let list = "[{\"name\":\"widgets\"},{\"name\":\"gadgets\"}]".to_string();
    let (run, url) = request(run.step(Event::Answered(list)));
    assert_eq!(url, "https://api.github.com/repos/acme/widgets/pulls?state=open");
    let body = format!("[{}]", pull(1, "widgets", &["alice"]));
    let (run, url) = request(run.step(Event::Answered(body)));
    assert_eq!(url, "https://api.github.com/repos/acme/gadgets/pulls?state=open");
    let body = format!("[{}]", pull(7, "gadgets", &["alice", "bob"]));
    let org = finished(run.step(Event::Answered(body)));

    let repositories: Vec<&str> = org.repositories.iter().map(|r| r.name.as_str()).collect();
    assert_eq!(repositories, vec!["widgets", "gadgets"]);
    let shown: Vec<String> = org.reviewers.iter().map(|r| r.display_name()).collect();
    assert_eq!(shown, vec!["alice", "bob"]);
    let stored: Vec<&str> = org.reviewers.iter().map(|r| r.name.as_str()).collect();
    assert_eq!(stored, vec!["\"alice\"", "\"bob\""]);
    let alice = &org.reviewers[0].assigned_pull_requests;
    assert_eq!(alice.len(), 2);
    assert_eq!((alice[0].repo_name.as_str(), alice[0].id.as_str()), ("widgets", "1"));
    assert_eq!(alice[0].url, "https://github.com/acme/widgets/pull/1");
    assert_eq!((alice[1].repo_name.as_str(), alice[1].id.as_str()), ("gadgets", "7"));
    assert_eq!(alice[1].url, "https://github.com/acme/gadgets/pull/7");
    let bob = &org.reviewers[1].assigned_pull_requests;
    assert_eq!(bob.len(), 1);
    assert_eq!((bob[0].repo_name.as_str(), bob[0].id.as_str()), ("gadgets", "7"));
    assert_eq!(bob[0].url, "https://github.com/acme/gadgets/pull/7");
}

#[test]
fn failure_at_the_second_repository_ends_the_run() {
    let (run, _) = request(Run::start("acme"));
    let list = "[{\"name\":\"widgets\"},{\"name\":\"gadgets\"}]".to_string();
    let (run, _) = request(run.step(Event::Answered(list)));
    let body = format!("[{}]", pull(1, "widgets", &["alice"]));
    let (run, url) = request(run.step(Event::Answered(body)));
    let error = failed(run.step(Event::Unreachable));
    match &error {
        FetchError::Network { stage, url: at } => {
            assert_eq!(*stage, Stage::PullRequestList);
            assert_eq!(at, &url);
            assert_eq!(at, "https://api.github.com/repos/acme/gadgets/pulls?state=open");
        }
        other => panic!("expected a network failure, got {:?}", other),
    }
    assert_eq!(
        error.message(),
        "Failed to fetch pull requests from https://api.github.com/repos/acme/gadgets/pulls?state=open"
    );
}

#[test]
fn failure_at_the_repository_list_ends_the_run() {
    let (run, _) = request(Run::start("acme"));
    let error = failed(run.step(Event::Unreachable));
    assert_eq!(
        error.message(),
        "Failed to fetch repositories from https://api.github.com/orgs/acme/repos"
    );
    let (run, _) = request(Run::start("acme"));
    let error = failed(run.step(Event::Unreadable));
    assert!(matches!(error, FetchError::Parse { stage: Stage::RepositoryList, .. }));
}

#[test]
fn unreadable_repository_list_gives_an_empty_result() {
    let (run, _) = request(Run::start("acme"));
    let org = finished(run.step(Event::Answered("<html>oops</html>".to_string())));
    assert!(org.repositories.is_empty());
    assert!(org.reviewers.is_empty());
}

#[test]
fn unreadable_pull_request_list_ends_the_run() {
    let (run, _) = request(Run::start("acme"));
    let (run, url) = request(run.step(Event::Answered("[{\"name\":\"widgets\"}]".to_string())));
    let error = failed(run.step(Event::Answered("<html>oops</html>".to_string())));
    match &error {
        FetchError::Parse { stage, url: at } => {
            assert_eq!(*stage, Stage::PullRequestList);
            assert_eq!(at, &url);
        }
        other => panic!("expected a parse failure, got {:?}", other),
    }
    assert_eq!(
        error.message(),
        "Failed to parse pull requests from https://api.github.com/repos/acme/widgets/pulls?state=open"
    );

    let (run, _) = request(Run::start("acme"));
    let (run, _) = request(run.step(Event::Answered("[{\"name\":\"widgets\"}]".to_string())));
    let body = "[{\"number\":1,\"url\":\"u\",\"requested_reviewers\":\"alice\"}]".to_string();
    let error = failed(run.step(Event::Answered(body)));
    assert!(matches!(error, FetchError::Parse { stage: Stage::PullRequestList, .. }));

    let (run, _) = request(Run::start("acme"));
    let (run, _) = request(run.step(Event::Answered("[{\"name\":\"widgets\"}]".to_string())));
    let error = failed(run.step(Event::Unreadable));
    assert!(matches!(error, FetchError::Parse { stage: Stage::PullRequestList, .. }));
}

#[test]
fn repository_whose_pull_requests_ask_nobody_is_left_out() {
    let (run, _) = request(Run::start("acme"));
    let list = "[{\"name\":\"quiet\"},{\"name\":\"widgets\"},{\"name\":\"bare\"}]".to_string();
    let (run, _) = request(run.step(Event::Answered(list)));
    let body = format!("[{},{}]", pull(1, "quiet", &[]), pull(2, "quiet", &[]));
    let (run, _) = request(run.step(Event::Answered(body)));
    let body = format!("[{}]", pull(3, "widgets", &["alice"]));
    let (run, url) = request(run.step(Event::Answered(body)));
    assert_eq!(url, "https://api.github.com/repos/acme/bare/pulls?state=open");
    let org = finished(run.step(Event::Answered("[]".to_string())));
    let repositories: Vec<&str> = org.repositories.iter().map(|r| r.name.as_str()).collect();
    assert_eq!(repositories, vec!["widgets"]);
    assert_eq!(org.reviewers.len(), 1);
}

#[test]
fn empty_repository_list_ends_the_run_at_once() {
    let (run, _) = request(Run::start("acme"));
    let org = finished(run.step(Event::Answered("[]".to_string())));
    assert!(org.repositories.is_empty());
    assert!(org.reviewers.is_empty());
}

#[test]
fn answers_taken_in_as_values() {
    let (run, _) = request(Run::start("acme"));
    let (run, url) = request(run.take_repositories(vec!["widgets".to_string()]));
    assert_eq!(url, "https://api.github.com/repos/acme/widgets/pulls?state=open");
    assert!(run.listed);
    assert_eq!(run.current, 0);
    let org = finished(run.take_pull_requests(Some(vec![])));
    assert!(org.repositories.is_empty());

    let (run, _) = request(Run::start("acme"));
    let (run, _) = request(run.take_repositories(vec!["widgets".to_string()]));
    let error = failed(run.take_pull_requests(None));
    assert!(matches!(error, FetchError::Parse { stage: Stage::PullRequestList, .. }));
}

#[test]
fn only_a_success_status_is_an_answer() {
    assert!(matches!(Event::from_response(200, Some("[]".to_string())), Event::Answered(b) if b == "[]"));
    assert!(matches!(Event::from_response(299, Some("x".to_string())), Event::Answered(b) if b == "x"));
    assert!(matches!(Event::from_response(204, None), Event::Unreadable));
    assert!(matches!(Event::from_response(199, Some("x".to_string())), Event::Unreachable));
    assert!(matches!(Event::from_response(300, Some("x".to_string())), Event::Unreachable));
    assert!(matches!(Event::from_response(401, Some("{}".to_string())), Event::Unreachable));
    assert!(matches!(Event::from_response(404, None), Event::Unreachable));
    assert!(matches!(Event::from_response(500, Some("x".to_string())), Event::Unreachable));
}

#[test]
fn error_status_at_the_second_repository_ends_the_run() {
    let (run, _) = request(Run::start("acme"));
    let list = "[{\"name\":\"widgets\"},{\"name\":\"gadgets\"}]".to_string();
    let (run, _) = request(run.step(Event::from_response(200, Some(list))));
    let body = format!("[{}]", pull(1, "widgets", &["alice"]));
    let (run, _) = request(run.step(Event::from_response(200, Some(body))));
    let body = "{\"message\":\"Server Error\"}".to_string();
    let error = failed(run.step(Event::from_response(502, Some(body))));
    match error {
        FetchError::Network { stage, url } => {
            assert_eq!(stage, Stage::PullRequestList);
            assert_eq!(url, "https://api.github.com/repos/acme/gadgets/pulls?state=open");
        }
        other => panic!("expected a network failure, got {:?}", other),
    }
}
