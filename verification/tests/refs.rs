use git_remote_s3::error::{Error, Failure};
use git_remote_s3::exchange::{Page, Reply, Request};
use git_remote_s3::refs::{line_of, plan, RefList};

const SHA_A: &str = "c000000000000000000000000000000000000000";
const SHA_B: &str = "c100000000000000000000000000000000000001";

fn page(keys: &[&str], status: u16) -> Page {
    Page { keys: keys.iter().map(|k| k.to_string()).collect(), status }
}

fn failure(error: Error) -> Option<Result<(), Failure>> {
    Some(Err(Failure { error, chain: Vec::new() }))
}

/// Runs a listing against the given pages and values, and returns what
/// was printed and how the listing ended.
fn run_list(pages: Vec<Page>, values: &[(&str, &[u8], u16)]) -> (Vec<String>, Result<(), Failure>) {
    let mut list = RefList::new("refs/".to_string());
    let mut printed = Vec::new();
    while !list.finished() {
        let reply = match list.request() {
            Request::List { prefix } => {
                assert_eq!(prefix, "refs/");
                Reply::Listing { pages: pages.clone() }
            }
            Request::Get { key } => {
                let (_, data, status) = values.iter().find(|(k, _, _)| *k == key).unwrap();
                Reply::Payload { data: data.to_vec(), status: *status }
            }
            Request::Print { line } => {
                printed.push(line);
                Reply::Printed
            }
            other => panic!("{:?}", other),
        };
        list = list.advance(reply);
    }
    (printed, list.outcome().unwrap())
}

#[test]
fn list_prints_value_then_key() {
    let (printed, outcome) = run_list(
        vec![page(&["refs/heads/main", "refs/heads/dev"], 200)],
        &[
            ("refs/heads/main", SHA_A.as_bytes(), 200),
            ("refs/heads/dev", SHA_B.as_bytes(), 200),
        ],
    );
    assert_eq!(outcome, Ok(()));
    assert_eq!(
        printed,
        vec![
            format!("{} refs/heads/main", SHA_A),
            format!("{} refs/heads/dev", SHA_B),
        ]
    );
}

#[test]
fn list_keeps_the_order_of_the_listing_over_pages() {
    let (printed, outcome) = run_list(
        vec![page(&["refs/z"], 200), page(&[], 200), page(&["refs/a", "refs/m"], 200)],
        &[
            ("refs/a", b"1", 200),
            ("refs/m", b"2", 200),
            ("refs/z", b"3", 200),
        ],
    );
    assert_eq!(outcome, Ok(()));
    assert_eq!(printed, vec!["3 refs/z", "1 refs/a", "2 refs/m"]);
}

#[test]
fn list_trims_the_value() {
    let (printed, outcome) = run_list(
        vec![page(&["refs/heads/main"], 200)],
        &[("refs/heads/main", b"  \tabc def\r\n\n", 200)],
    );
    assert_eq!(outcome, Ok(()));
    assert_eq!(printed, vec!["abc def refs/heads/main"]);
}

#[test]
fn list_of_nothing_prints_nothing() {
    assert_eq!(run_list(vec![], &[]), (vec![], Ok(())));
    assert_eq!(run_list(vec![page(&[], 200)], &[]), (vec![], Ok(())));
}

#[test]
fn list_fails_at_the_page_that_is_not_success() {
    let (printed, outcome) = run_list(
        vec![page(&["refs/a"], 200), page(&["refs/b"], 500), page(&["refs/c"], 200)],
        &[("refs/a", b"1", 200), ("refs/b", b"2", 200), ("refs/c", b"3", 200)],
    );
    assert_eq!(printed, vec!["1 refs/a"]);
    assert_eq!(
        outcome,
        Err(Failure {
            error: Error::RemoteProtocolError { key: "refs/".to_string(), status: 500 },
            chain: vec![],
        })
    );
    let (printed, outcome) = run_list(vec![page(&["refs/a"], 403)], &[]);
    assert!(printed.is_empty());
    assert_eq!(
        outcome,
        Err(Failure {
            error: Error::RemoteProtocolError { key: "refs/".to_string(), status: 403 },
            chain: vec![],
        })
    );
}

#[test]
fn list_fails_at_the_value_that_cannot_be_got() {
    let (printed, outcome) = run_list(
        vec![page(&["refs/a", "refs/b", "refs/c"], 200)],
        &[("refs/a", b"1", 200), ("refs/b", b"2", 500), ("refs/c", b"3", 200)],
    );
    assert_eq!(printed, vec!["1 refs/a"]);
    assert_eq!(
        outcome,
        Err(Failure {
            error: Error::RemoteProtocolError { key: "refs/b".to_string(), status: 500 },
            chain: vec![],
        })
    );
    let (_, outcome) = run_list(vec![page(&["refs/a"], 200)], &[("refs/a", b"", 404)]);
    assert_eq!(
        outcome,
        Err(Failure { error: Error::RemoteNotFound { key: "refs/a".to_string() }, chain: vec![] })
    );
}

#[test]
fn list_fails_at_a_value_that_is_no_text() {
    let (printed, outcome) =
        run_list(vec![page(&["refs/a"], 200)], &[("refs/a", &[0xc3, 0x28], 200)]);
    assert!(printed.is_empty());
    assert_eq!(
        outcome,
        Err(Failure { error: Error::InvalidRefValue { key: "refs/a".to_string() }, chain: vec![] })
    );
}

#[test]
fn list_fails_when_a_call_breaks_off() {
    let list = RefList::new("refs/".to_string()).advance(Reply::Failed);
    assert_eq!(list.outcome(), failure(Error::RemoteUnavailable { key: "refs/".to_string() }));
    let list = RefList::new("refs/".to_string())
        .advance(Reply::Listing { pages: vec![page(&["refs/a"], 200)] })
        .advance(Reply::Failed);
    assert_eq!(list.outcome(), failure(Error::RemoteUnavailable { key: "refs/a".to_string() }));
    let list = RefList::new("refs/".to_string())
        .advance(Reply::Listing { pages: vec![page(&["refs/a"], 200)] })
        .advance(Reply::Payload { data: b"1".to_vec(), status: 200 })
        .advance(Reply::Failed);
    assert_eq!(list.outcome(), failure(Error::StreamFailure));
    let list = RefList::new("refs/".to_string()).advance(Reply::Printed);
    assert_eq!(list.outcome(), failure(Error::UnexpectedReply));
}

#[test]
fn plan_collects_keys_up_to_the_first_failure() {
    assert_eq!(plan(&vec![]), (vec![], None));
    assert_eq!(
        plan(&vec![page(&["a", "b"], 200), page(&["c"], 200)]),
        (vec!["a".to_string(), "b".to_string(), "c".to_string()], None)
    );
    assert_eq!(
        plan(&vec![page(&["a"], 200), page(&["b"], 404), page(&["c"], 500)]),
        (vec!["a".to_string()], Some(404))
    );
}

#[test]
fn line_of_ref_is_value_space_key() {
    assert_eq!(line_of("abc\n", "refs/heads/main"), "abc refs/heads/main");
    assert_eq!(line_of("", "k"), " k");
    assert_eq!(line_of(" \u{a0}\u{3000}x y\u{2028}", ""), "x y ");
    assert_eq!(line_of("é\u{85}", "ü"), "é ü");
}
