//! Reading the hosting service's answers.

use vstd::prelude::*;
use vstd::string::StringExecFns;
use serde_json::Value;
use crate::json::{elements, get, member, parse, parsed, render, rendered, string_of};
use crate::model::{pulls_view, OpenPullRequest, OpenPullRequestView};

verus! {

/// The key under which a listed repository holds its name.
pub open spec fn name_key() -> Seq<char> {
    seq!['n', 'a', 'm', 'e']
}

/// The key under which a listed person holds the login.
pub open spec fn login_key() -> Seq<char> {
    seq!['l', 'o', 'g', 'i', 'n']
}

/// The key under which a listed pull request holds its number.
pub open spec fn number_key() -> Seq<char> {
    seq!['n', 'u', 'm', 'b', 'e', 'r']
}

/// The key under which a listed pull request holds its address.
pub open spec fn url_key() -> Seq<char> {
    seq!['u', 'r', 'l']
}

/// The key under which a listed pull request holds the people it asks.
pub open spec fn reviewers_key() -> Seq<char> {
    seq![
        'r', 'e', 'q', 'u', 'e', 's', 't', 'e', 'd', '_', 'r', 'e', 'v', 'i', 'e', 'w', 'e', 'r',
        's',
    ]
}

/// The model of a list of strings.
pub open spec fn texts(v: Seq<String>) -> Seq<Seq<char>> {
    v.map_values(|s: String| s@)
}

/// The name of a listed repository: the string under `name`.
pub open spec fn repository_name_of(item: Value) -> Option<Seq<char>> {
    match member(item, name_key()) {
        Some(name) => string_of(name),
        None => None,
    }
}

/// The names of the listed repositories, where every element has one.
pub open spec fn repository_names_of(items: Seq<Value>) -> Option<Seq<Seq<char>>> {
    if forall|i: int| 0 <= i < items.len() ==> repository_name_of(#[trigger] items[i]) is Some {
        Some(items.map_values(|item: Value| repository_name_of(item).unwrap()))
    } else {
        None
    }
}

/// The repositories that a document lists: the names where it is an array
/// of objects that each have a name, and none for any other document.
pub open spec fn repositories_in(doc: Value) -> Seq<Seq<char>> {
    match elements(doc) {
        Some(items) => match repository_names_of(items) {
            Some(names) => names,
            None => Seq::empty(),
        },
        None => Seq::empty(),
    }
}

/// The repositories that an answer lists: none where it is no JSON text.
pub open spec fn repositories_of(body: Seq<char>) -> Seq<Seq<char>> {
    match parsed(body) {
        Some(doc) => repositories_in(doc),
        None => Seq::empty(),
    }
}

/// The login of an assignee: what stands under `login`, as the
/// document writes it (a string keeps its quotation marks).
pub open spec fn login_of(item: Value) -> Option<Seq<char>> {
    match member(item, login_key()) {
        Some(login) => Some(rendered(login)),
        None => None,
    }
}

/// The logins of the assignees, where every element has one.
pub open spec fn logins_of(items: Seq<Value>) -> Option<Seq<Seq<char>>> {
    if forall|i: int| 0 <= i < items.len() ==> login_of(#[trigger] items[i]) is Some {
        Some(items.map_values(|item: Value| login_of(item).unwrap()))
    } else {
        None
    }
}

/// A listed pull request: its number as the document writes it, the string
/// under `url`, and the logins in the array of assignees.
/// There is none where one of the three is missing or of another shape.
pub open spec fn pull_request_of(item: Value) -> Option<OpenPullRequestView> {
    match (member(item, number_key()), member(item, url_key()), member(item, reviewers_key())) {
        (Some(number), Some(url), Some(reviewers)) => match (
            string_of(url),
            elements(reviewers),
        ) {
            (Some(address), Some(items)) => match logins_of(items) {
                Some(logins) => Some(
                    OpenPullRequestView {
                        number: rendered(number),
                        url: address,
                        requested_reviewers: logins,
                    },
                ),
                None => None,
            },
            _ => None,
        },
        _ => None,
    }
}

/// The listed pull requests, where every element is one.
pub open spec fn pull_requests_among(items: Seq<Value>) -> Option<Seq<OpenPullRequestView>> {
    if forall|i: int| 0 <= i < items.len() ==> pull_request_of(#[trigger] items[i]) is Some {
        Some(items.map_values(|item: Value| pull_request_of(item).unwrap()))
    } else {
        None
    }
}

/// The pull requests that a document lists, where it is an array of them.
pub open spec fn pull_requests_in(doc: Value) -> Option<Seq<OpenPullRequestView>> {
    match elements(doc) {
        Some(items) => pull_requests_among(items),
        None => None,
    }
}

/// The pull requests that an answer lists, where it is JSON text of that
/// shape.
pub open spec fn pull_requests_of(body: Seq<char>) -> Option<Seq<OpenPullRequestView>> {
    match parsed(body) {
        Some(doc) => pull_requests_in(doc),
        None => None,
    }
}

/// The name of one listed repository.
pub fn read_repository_name(item: &Value) -> (name: Option<String>)
    ensures
        match name {
            Some(s) => repository_name_of(*item) == Some(s@),
            None => repository_name_of(*item) is None,
        },
{
    proof {
        reveal_strlit("name");
        assert("name"@ =~= name_key());
    }
    match get(item, "name") {
        Some(name) => match name.as_str() {
            Some(s) => Some(String::from_str(s)),
            None => None,
        },
        None => None,
    }
}

/// The repositories that a document lists; none where it has another shape.
pub fn read_repositories(doc: &Value) -> (names: Vec<String>)
    ensures
        texts(names@) == repositories_in(*doc),
{
    let mut names: Vec<String> = Vec::new();
    match doc.as_array() {
        Some(items) => {
            let mut i: usize = 0;
            while i < items.len()
                invariant
                    i <= items.len(),
                    elements(*doc) == Some(items@),
                    names@.len() == i,
                    forall|j: int|
                        0 <= j < i ==> repository_name_of(#[trigger] items@[j]) == Some(
                            names@[j]@,
                        ),
                decreases items.len() - i,
            {
                match read_repository_name(&items[i]) {
                    Some(name) => {
                        names.push(name);
                    },
                    None => {
                        let none: Vec<String> = Vec::new();
                        assert(texts(none@) =~= Seq::empty());
                        return none;
                    },
                }
                i += 1;
            }
            assert(texts(names@) =~= items@.map_values(
                |item: Value| repository_name_of(item).unwrap(),
            ));
            names
        },
        None => {
            assert(texts(names@) =~= Seq::empty());
            names
        },
    }
}

/// The repositories that an answer lists. An answer that cannot be read as
/// a list of repositories lists none: this never fails.
pub fn decode_repositories(body: &str) -> (names: Vec<String>)
    ensures
        texts(names@) == repositories_of(body@),
{
    match parse(body) {
        Ok(doc) => read_repositories(&doc),
        Err(_) => {
            let none: Vec<String> = Vec::new();
            assert(texts(none@) =~= Seq::empty());
            none
        },
    }
}

/// The logins in a list of assignees.
pub fn read_logins(items: &Vec<Value>) -> (logins: Option<Vec<String>>)
    ensures
        match logins {
            Some(v) => logins_of(items@) == Some(texts(v@)),
            None => logins_of(items@) is None,
        },
{
    proof {
        reveal_strlit("login");
        assert("login"@ =~= login_key());
    }
    let mut logins: Vec<String> = Vec::new();
    let mut i: usize = 0;
    while i < items.len()
        invariant
            i <= items.len(),
            "login"@ == login_key(),
            logins@.len() == i,
            forall|j: int| 0 <= j < i ==> login_of(#[trigger] items@[j]) == Some(logins@[j]@),
        decreases items.len() - i,
    {
        match get(&items[i], "login") {
            Some(login) => {
                logins.push(render(login));
            },
            None => {
                return None;
            },
        }
        i += 1;
    }
    assert(texts(logins@) =~= items@.map_values(|item: Value| login_of(item).unwrap()));
    Some(logins)
}

/// One listed pull request.
pub fn read_pull_request(item: &Value) -> (pull: Option<OpenPullRequest>)
    ensures
        match pull {
            Some(p) => pull_request_of(*item) == Some(p@),
            None => pull_request_of(*item) is None,
        },
{
    proof {
        reveal_strlit("number");
        reveal_strlit("url");
        reveal_strlit("requested_reviewers");
        assert("number"@ =~= number_key());
        assert("url"@ =~= url_key());
        assert("requested_reviewers"@ =~= reviewers_key());
    }
    let number = match get(item, "number") {
        Some(v) => v,
        None => { return None; },
    };
    let url = match get(item, "url") {
        Some(v) => v,
        None => { return None; },
    };
    let reviewers = match get(item, "requested_reviewers") {
        Some(v) => v,
        None => { return None; },
    };
    let address = match url.as_str() {
        Some(s) => s,
        None => { return None; },
    };
    let items = match reviewers.as_array() {
        Some(v) => v,
        None => { return None; },
    };
    match read_logins(items) {
        Some(logins) => Some(
            OpenPullRequest {
                number: render(number),
                url: String::from_str(address),
                requested_reviewers: logins,
            },
        ),
        None => None,
    }
}

/// The pull requests that a document lists.
pub fn read_pull_requests(doc: &Value) -> (pulls: Option<Vec<OpenPullRequest>>)
    ensures
        match pulls {
            Some(v) => pull_requests_in(*doc) == Some(pulls_view(v@)),
            None => pull_requests_in(*doc) is None,
        },
{
    let items = match doc.as_array() {
        Some(v) => v,
        None => { return None; },
    };
    let mut pulls: Vec<OpenPullRequest> = Vec::new();
    let mut i: usize = 0;
    while i < items.len()
        invariant
            i <= items.len(),
            elements(*doc) == Some(items@),
            pulls@.len() == i,
            forall|j: int|
                0 <= j < i ==> pull_request_of(#[trigger] items@[j]) == Some(pulls@[j]@),
        decreases items.len() - i,
    {
        match read_pull_request(&items[i]) {
            Some(pull) => {
                pulls.push(pull);
            },
            None => {
                return None;
            },
        }
        i += 1;
    }
    assert(pulls_view(pulls@) =~= items@.map_values(
        |item: Value| pull_request_of(item).unwrap(),
    ));
    Some(pulls)
}

/// The pull requests that an answer lists, or nothing where the answer is no
/// JSON text, no array, or holds an element that is no pull request with a
/// number, an address and a list of assignees.
pub fn decode_pull_requests(body: &str) -> (pulls: Option<Vec<OpenPullRequest>>)
    ensures
        match pulls {
            Some(v) => pull_requests_of(body@) == Some(pulls_view(v@)),
            None => pull_requests_of(body@) is None,
        },
{
    match parse(body) {
        Ok(doc) => read_pull_requests(&doc),
        Err(_) => None,
    }
}

} // verus!
