use git_remote_s3::error::{Error, Failure};
use git_remote_s3::exchange::{Page, Reply, Request};
use git_remote_s3::fetch::Fetch;
use git_remote_s3::object::{Kind, ObjectId};
use git_remote_s3::walk::decode_children;

const BLOB_1: &str = "b100000000000000000000000000000000000001";
const BLOB_2: &str = "b200000000000000000000000000000000000002";
const TREE_0: &str = "a000000000000000000000000000000000000000";
const TREE_1: &str = "a100000000000000000000000000000000000001";
const COMMIT_0: &str = "c000000000000000000000000000000000000000";
const COMMIT_1: &str = "c100000000000000000000000000000000000001";
const MERGE: &str = "c200000000000000000000000000000000000002";

fn id(hex: &str) -> ObjectId {
    ObjectId::from_hex(hex).unwrap()
}

fn raw(hex: &str) -> Vec<u8> {
    let digits: Vec<u8> = hex
        .bytes()
        .map(|b| match b {
            b'0'..=b'9' => b - b'0',
            _ => b - b'a' + 10,
        })
        .collect();
    digits.chunks(2).map(|pair| pair[0] * 16 + pair[1]).collect()
}

fn commit_bytes(tree: &str, parents: &[&str]) -> Vec<u8> {
    let mut text = format!("tree {}\n", tree);
    for parent in parents {
        text.push_str(&format!("parent {}\n", parent));
    }
    text.push_str("author A U Thor <author@example.com> 1528473343 +0230\n");
    text.push_str("committer C O Mitter <committer@example.com> 1528473343 +0230\n");
    text.push_str("\nA message\n");
    text.into_bytes()
}

fn tree_bytes(entries: &[(&str, &str, &str)]) -> Vec<u8> {
    let mut bytes = Vec::new();
    for (mode, name, hex) in entries {
        bytes.extend_from_slice(mode.as_bytes());
        bytes.push(b' ');
        bytes.extend_from_slice(name.as_bytes());
        bytes.push(0);
        bytes.extend_from_slice(&raw(hex));
    }
    bytes
}

/// The objects of a small history: two commits in a row and a merge of
/// both, two trees of which one holds the other, and two blobs.
fn history() -> Vec<(String, Kind, Vec<u8>)> {
    vec![
        (BLOB_1.to_string(), Kind::Blob, b"hello".to_vec()),
        (BLOB_2.to_string(), Kind::Blob, b"world".to_vec()),
        (TREE_0.to_string(), Kind::Tree, tree_bytes(&[("100644", "a.txt", BLOB_1)])),
        (
            TREE_1.to_string(),
            Kind::Tree,
            tree_bytes(&[
                ("100644", "a.txt", BLOB_1),
                ("40000", "sub", TREE_0),
                ("100644", "b.txt", BLOB_2),
            ]),
        ),
        (COMMIT_0.to_string(), Kind::Commit, commit_bytes(TREE_0, &[])),
        (COMMIT_1.to_string(), Kind::Commit, commit_bytes(TREE_1, &[COMMIT_0])),
        (MERGE.to_string(), Kind::Commit, commit_bytes(TREE_1, &[COMMIT_1, COMMIT_0])),
    ]
}

/// Stores in memory that do what a driver does with the real ones.
struct World {
    objects: Vec<(String, Kind, Vec<u8>)>,
    local: Vec<String>,
    remote: Vec<(String, Vec<u8>)>,
    local_refs: Vec<(String, String)>,
    ancestors: Vec<(String, String)>,
    input: Vec<String>,
    output: Vec<String>,
    log: Vec<Request>,
    broken: Vec<(Request, Reply)>,
}

impl World {
    fn new() -> World {
        World {
            objects: history(),
            local: Vec::new(),
            remote: Vec::new(),
            local_refs: Vec::new(),
            ancestors: Vec::new(),
            input: Vec::new(),
            output: Vec::new(),
            log: Vec::new(),
            broken: Vec::new(),
        }
    }

    fn with_local(mut self, ids: &[&str]) -> World {
        for hex in ids {
            self.local.push(hex.to_string());
        }
        self
    }

    fn with_remote(mut self, ids: &[&str]) -> World {
        for hex in ids {
            let data = self.data_of(hex);
            self.remote.push((hex.to_string(), data));
        }
        self
    }

    fn data_of(&self, hex: &str) -> Vec<u8> {
        self.objects.iter().find(|(id, _, _)| id == hex).unwrap().2.clone()
    }

    fn children_of(&self, hex: &str) -> Vec<String> {
        let (_, kind, data) = self.objects.iter().find(|(id, _, _)| id == hex).unwrap();
        decode_children(*kind, data)
            .unwrap()
            .iter()
            .map(|link| link.id.as_str().to_string())
            .collect()
    }

    fn holds_remote(&self, key: &str) -> bool {
        self.remote.iter().any(|(k, _)| k == key)
    }

    fn remote_value(&self, key: &str) -> Option<Vec<u8>> {
        self.remote.iter().find(|(k, _)| k == key).map(|(_, v)| v.clone())
    }

    fn remote_is_closed(&self) -> bool {
        self.remote.iter().all(|(key, _)| {
            !self.objects.iter().any(|(id, _, _)| id == key)
                || self.children_of(key).iter().all(|child| self.holds_remote(child))
        })
    }

    fn gets(&self) -> Vec<String> {
        self.log
            .iter()
            .filter_map(|request| match request {
                Request::Get { key } => Some(key.clone()),
                _ => None,
            })
            .collect()
    }

    fn puts(&self) -> Vec<String> {
        self.log
            .iter()
            .filter_map(|request| match request {
                Request::Put { key, .. } => Some(key.clone()),
                _ => None,
            })
            .collect()
    }

    fn remote_calls(&self) -> usize {
        self.log
            .iter()
            .filter(|request| {
                matches!(request, Request::Get { .. } | Request::Put { .. } | Request::List { .. })
            })
            .count()
    }

    fn answer(&mut self, request: &Request) -> Reply {
        self.log.push(request.clone());
        if let Some((_, reply)) = self.broken.iter().find(|(r, _)| r == request) {
            return reply.clone();
        }
        match request {
            Request::ReadLine => Reply::Line {
                text: if self.input.is_empty() { String::new() } else { self.input.remove(0) },
            },
            Request::Print { line } => {
                self.output.push(line.clone());
                Reply::Printed
            }
            Request::FindObject { id } => Reply::Object {
                data: if self.local.iter().any(|held| held == id.as_str()) {
                    Some(self.data_of(id.as_str()))
                } else {
                    None
                },
            },
            Request::WriteObject { kind, data } => {
                for (id, k, d) in self.objects.iter() {
                    if k == kind && d == data && !self.local.contains(id) {
                        self.local.push(id.clone());
                    }
                }
                Reply::Written
            }
            Request::ReadRef { name } => Reply::RefText {
                text: self.local_refs.iter().find(|(n, _)| n == name).map(|(_, t)| t.clone()),
            },
            Request::IsAncestor { old, new } => Reply::Ancestry {
                holds: self.ancestors.iter().any(|(o, n)| o == old && n == new.as_str()),
            },
            Request::Get { key } => match self.remote_value(key) {
                Some(data) => Reply::Payload { data, status: 200 },
                None => Reply::Payload { data: b"<Error>NoSuchKey</Error>".to_vec(), status: 404 },
            },
            Request::Put { key, data } => {
                self.remote.retain(|(k, _)| k != key);
                self.remote.push((key.clone(), data.clone()));
                Reply::Stored { status: 200 }
            }
            Request::List { prefix } => Reply::Listing {
                pages: vec![Page {
                    keys: self
                        .remote
                        .iter()
                        .filter(|(k, _)| k.starts_with(prefix.as_str()))
                        .map(|(k, _)| k.clone())
                        .collect(),
                    status: 200,
                }],
            },
            Request::Stop => Reply::Failed,
        }
    }
}


fn run_fetch(world: &mut World, root: &str) -> Result<(), Failure> {
    let mut fetch = Fetch::new(id(root));
    let mut steps = 0;
    while !fetch.finished() {
        let request = fetch.request();
        let reply = world.answer(&request);
        fetch = fetch.advance(reply);
        steps += 1;
        assert!(steps < 1000);
    }
    assert_eq!(fetch.request(), Request::Stop);
    fetch.outcome().unwrap()
}

const ALL: [&str; 7] = [BLOB_1, BLOB_2, TREE_0, TREE_1, COMMIT_0, COMMIT_1, MERGE];

#[test]
fn fetch_brings_everything_that_the_root_reaches() {
    let mut world = World::new().with_remote(&ALL);
    assert_eq!(run_fetch(&mut world, MERGE), Ok(()));
    for hex in ALL {
        assert!(world.local.iter().any(|held| held == hex));
    }
    assert_eq!(world.local.len(), 7);
}

#[test]
fn fetch_walks_depth_first_tree_before_parents() {
    let mut world = World::new().with_remote(&ALL);
    assert_eq!(run_fetch(&mut world, MERGE), Ok(()));
    assert_eq!(
        world.gets(),
        vec![MERGE, TREE_1, BLOB_1, TREE_0, BLOB_2, COMMIT_1, COMMIT_0]
    );
    assert_eq!(
        world.local,
        vec![MERGE, TREE_1, BLOB_1, TREE_0, BLOB_2, COMMIT_1, COMMIT_0]
    );
}

#[test]
fn fetch_gets_each_object_once() {
    let mut world = World::new().with_remote(&ALL);
    assert_eq!(run_fetch(&mut world, MERGE), Ok(()));
    let mut gets = world.gets();
    gets.sort();
    gets.dedup();
    assert_eq!(gets.len(), 7);
    assert_eq!(world.gets().len(), 7);
    assert!(world.puts().is_empty());
}

#[test]
fn fetch_of_present_commit_makes_no_remote_call() {
    let mut world = World::new().with_local(&ALL).with_remote(&ALL);
    assert_eq!(run_fetch(&mut world, MERGE), Ok(()));
    assert_eq!(world.log, vec![Request::FindObject { id: id(MERGE) }]);
    assert_eq!(world.remote_calls(), 0);
}

#[test]
fn fetch_is_idempotent() {
    let mut world = World::new().with_remote(&ALL);
    assert_eq!(run_fetch(&mut world, COMMIT_1), Ok(()));
    let held = world.local.clone();
    world.log.clear();
    assert_eq!(run_fetch(&mut world, COMMIT_1), Ok(()));
    assert_eq!(world.remote_calls(), 0);
    assert_eq!(world.local, held);
}

#[test]
fn fetch_stops_at_what_is_local() {
    let mut world =
        World::new().with_local(&[BLOB_1, TREE_0, COMMIT_0]).with_remote(&ALL);
    assert_eq!(run_fetch(&mut world, COMMIT_1), Ok(()));
    assert_eq!(world.gets(), vec![COMMIT_1, TREE_1, BLOB_2]);
    assert_eq!(world.local.len(), 6);
}

#[test]
fn fetch_first_asks_the_local_database() {
    let fetch = Fetch::new(id(COMMIT_0));
    assert!(!fetch.finished());
    assert_eq!(fetch.request(), Request::FindObject { id: id(COMMIT_0) });
    let fetch = fetch.advance(Reply::Object { data: None });
    assert_eq!(fetch.request(), Request::Get { key: COMMIT_0.to_string() });
    let data = commit_bytes(TREE_0, &[]);
    let fetch = fetch.advance(Reply::Payload { data: data.clone(), status: 200 });
    assert_eq!(fetch.request(), Request::WriteObject { kind: Kind::Commit, data });
    let fetch = fetch.advance(Reply::Written);
    assert_eq!(fetch.request(), Request::FindObject { id: id(TREE_0) });
    assert_eq!(fetch.outcome(), None);
}

#[test]
fn fetch_fails_when_the_bucket_lacks_an_object() {
    let mut world = World::new().with_remote(&[COMMIT_1, TREE_1, BLOB_1]);
    assert_eq!(
        run_fetch(&mut world, COMMIT_1),
        Err(Failure {
            error: Error::RemoteNotFound { key: TREE_0.to_string() },
            chain: vec![id(TREE_1), id(COMMIT_1)],
        })
    );
    assert_eq!(world.gets(), vec![COMMIT_1, TREE_1, BLOB_1, TREE_0]);
}

#[test]
fn fetch_fails_on_a_status_that_is_not_success() {
    let mut world = World::new().with_remote(&ALL);
    world.broken.push((
        Request::Get { key: TREE_1.to_string() },
        Reply::Payload { data: Vec::new(), status: 503 },
    ));
    assert_eq!(
        run_fetch(&mut world, COMMIT_1),
        Err(Failure {
            error: Error::RemoteProtocolError { key: TREE_1.to_string(), status: 503 },
            chain: vec![id(COMMIT_1)],
        })
    );
    assert_eq!(world.local, vec![COMMIT_1.to_string()]);
}

#[test]
fn fetch_fails_when_a_call_breaks_off() {
    let mut world = World::new().with_remote(&ALL);
    world.broken.push((Request::Get { key: COMMIT_0.to_string() }, Reply::Failed));
    assert_eq!(
        run_fetch(&mut world, COMMIT_0),
        Err(Failure {
            error: Error::RemoteUnavailable { key: COMMIT_0.to_string() },
            chain: Vec::new(),
        })
    );
    let mut world = World::new().with_remote(&ALL);
    world.broken.push((Request::FindObject { id: id(TREE_0) }, Reply::Failed));
    assert_eq!(
        run_fetch(&mut world, COMMIT_0),
        Err(Failure { error: Error::LocalStoreFailure, chain: vec![id(COMMIT_0)] })
    );
    let mut world = World::new().with_remote(&ALL);
    world.broken.push((
        Request::WriteObject { kind: Kind::Blob, data: b"hello".to_vec() },
        Reply::Failed,
    ));
    assert_eq!(
        run_fetch(&mut world, COMMIT_0),
        Err(Failure { error: Error::LocalStoreFailure, chain: vec![id(TREE_0), id(COMMIT_0)] })
    );
}

#[test]
fn fetch_fails_on_bytes_that_do_not_decode() {
    let mut world = World::new();
    world.remote.push((COMMIT_0.to_string(), b"no commit at all".to_vec()));
    assert_eq!(
        run_fetch(&mut world, COMMIT_0),
        Err(Failure {
            error: Error::DecodeError { id: id(COMMIT_0), kind: Kind::Commit },
            chain: Vec::new(),
        })
    );
    assert_eq!(
        world.log.last(),
        Some(&Request::WriteObject { kind: Kind::Commit, data: b"no commit at all".to_vec() })
    );
}

#[test]
fn fetch_refuses_a_reply_out_of_turn() {
    let fetch = Fetch::new(id(COMMIT_0)).advance(Reply::Written);
    assert!(fetch.finished());
    assert_eq!(
        fetch.outcome(),
        Some(Err(Failure { error: Error::UnexpectedReply, chain: Vec::new() }))
    );
}

#[test]
fn fetch_that_has_ended_stays_as_it_is() {
    let fetch = Fetch::new(id(COMMIT_0)).advance(Reply::Object { data: Some(Vec::new()) });
    assert!(fetch.finished());
    let fetch = fetch.advance(Reply::Object { data: None });
    assert_eq!(fetch.request(), Request::Stop);
    assert_eq!(fetch.outcome(), Some(Ok(())));
}
