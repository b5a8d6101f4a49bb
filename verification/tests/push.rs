use git_remote_s3::error::{Error, Failure};
use git_remote_s3::exchange::{Page, Reply, Request};
use git_remote_s3::object::{Kind, ObjectId};
use git_remote_s3::push::{check_hash_remote, Push};
use git_remote_s3::walk::decode_children;

const BLOB_1: &str = "b100000000000000000000000000000000000001";
const BLOB_2: &str = "b200000000000000000000000000000000000002";
const TREE_0: &str = "a000000000000000000000000000000000000000";
const TREE_1: &str = "a100000000000000000000000000000000000001";
const COMMIT_0: &str = "c000000000000000000000000000000000000000";
const COMMIT_1: &str = "c100000000000000000000000000000000000001";
const MERGE: &str = "c200000000000000000000000000000000000002";

fn id(hex: &str) -> ObjectId {
    ObjectId::from_hex(hex).unwrap()
}

fn raw(hex: &str) -> Vec<u8> {
    let digits: Vec<u8> = hex
        .bytes()
        .map(|b| match b {
            b'0'..=b'9' => b - b'0',
            _ => b - b'a' + 10,
        })
        .collect();
    digits.chunks(2).map(|pair| pair[0] * 16 + pair[1]).collect()
}

fn commit_bytes(tree: &str, parents: &[&str]) -> Vec<u8> {
    let mut text = format!("tree {}\n", tree);
    for parent in parents {
        text.push_str(&format!("parent {}\n", parent));
    }
    text.push_str("author A U Thor <author@example.com> 1528473343 +0230\n");
    text.push_str("committer C O Mitter <committer@example.com> 1528473343 +0230\n");
    text.push_str("\nA message\n");
    text.into_bytes()
}

fn tree_bytes(entries: &[(&str, &str, &str)]) -> Vec<u8> {
    let mut bytes = Vec::new();
    for (mode, name, hex) in entries {
        bytes.extend_from_slice(mode.as_bytes());
        bytes.push(b' ');
        bytes.extend_from_slice(name.as_bytes());
        bytes.push(0);
        bytes.extend_from_slice(&raw(hex));
    }
    bytes
}

/// The objects of a small history: two commits in a row and a merge of
/// both, two trees of which one holds the other, and two blobs.
fn history() -> Vec<(String, Kind, Vec<u8>)> {
    vec![
        (BLOB_1.to_string(), Kind::Blob, b"hello".to_vec()),
        (BLOB_2.to_string(), Kind::Blob, b"world".to_vec()),
        (TREE_0.to_string(), Kind::Tree, tree_bytes(&[("100644", "a.txt", BLOB_1)])),
        (
            TREE_1.to_string(),
            Kind::Tree,
            tree_bytes(&[
                ("100644", "a.txt", BLOB_1),
                ("40000", "sub", TREE_0),
                ("100644", "b.txt", BLOB_2),
            ]),
        ),
        (COMMIT_0.to_string(), Kind::Commit, commit_bytes(TREE_0, &[])),
        (COMMIT_1.to_string(), Kind::Commit, commit_bytes(TREE_1, &[COMMIT_0])),
        (MERGE.to_string(), Kind::Commit, commit_bytes(TREE_1, &[COMMIT_1, COMMIT_0])),
    ]
}

/// Stores in memory that do what a driver does with the real ones.
struct World {
    objects: Vec<(String, Kind, Vec<u8>)>,
    local: Vec<String>,
    remote: Vec<(String, Vec<u8>)>,
    local_refs: Vec<(String, String)>,
    ancestors: Vec<(String, String)>,
    input: Vec<String>,
    output: Vec<String>,
    log: Vec<Request>,
    broken: Vec<(Request, Reply)>,
}

impl World {
    fn new() -> World {
        World {
            objects: history(),
            local: Vec::new(),
            remote: Vec::new(),
            local_refs: Vec::new(),
            ancestors: Vec::new(),
            input: Vec::new(),
            output: Vec::new(),
            log: Vec::new(),
            broken: Vec::new(),
        }
    }

    fn with_local(mut self, ids: &[&str]) -> World {
        for hex in ids {
            self.local.push(hex.to_string());
        }
        self
    }

    fn with_remote(mut self, ids: &[&str]) -> World {
        for hex in ids {
            let data = self.data_of(hex);
            self.remote.push((hex.to_string(), data));
        }
        self
    }

    fn data_of(&self, hex: &str) -> Vec<u8> {
        self.objects.iter().find(|(id, _, _)| id == hex).unwrap().2.clone()
    }

    fn children_of(&self, hex: &str) -> Vec<String> {
        let (_, kind, data) = self.objects.iter().find(|(id, _, _)| id == hex).unwrap();
        decode_children(*kind, data)
            .unwrap()
            .iter()
            .map(|link| link.id.as_str().to_string())
            .collect()
    }

    fn holds_remote(&self, key: &str) -> bool {
        self.remote.iter().any(|(k, _)| k == key)
    }

    fn remote_value(&self, key: &str) -> Option<Vec<u8>> {
        self.remote.iter().find(|(k, _)| k == key).map(|(_, v)| v.clone())
    }

    fn remote_is_closed(&self) -> bool {
        self.remote.iter().all(|(key, _)| {
            !self.objects.iter().any(|(id, _, _)| id == key)
                || self.children_of(key).iter().all(|child| self.holds_remote(child))
        })
    }

    fn gets(&self) -> Vec<String> {
        self.log
            .iter()
            .filter_map(|request| match request {
                Request::Get { key } => Some(key.clone()),
                _ => None,
            })
            .collect()
    }

    fn puts(&self) -> Vec<String> {
        self.log
            .iter()
            .filter_map(|request| match request {
                Request::Put { key, .. } => Some(key.clone()),
                _ => None,
            })
            .collect()
    }

    fn remote_calls(&self) -> usize {
        self.log
            .iter()
            .filter(|request| {
                matches!(request, Request::Get { .. } | Request::Put { .. } | Request::List { .. })
            })
            .count()
    }

    fn answer(&mut self, request: &Request) -> Reply {
        self.log.push(request.clone());
        if let Some((_, reply)) = self.broken.iter().find(|(r, _)| r == request) {
            return reply.clone();
        }
        match request {
            Request::ReadLine => Reply::Line {
                text: if self.input.is_empty() { String::new() } else { self.input.remove(0) },
            },
            Request::Print { line } => {
                self.output.push(line.clone());
                Reply::Printed
            }
            Request::FindObject { id } => Reply::Object {
                data: if self.local.iter().any(|held| held == id.as_str()) {
                    Some(self.data_of(id.as_str()))
                } else {
                    None
                },
            },
            Request::WriteObject { kind, data } => {
                for (id, k, d) in self.objects.iter() {
                    if k == kind && d == data && !self.local.contains(id) {
                        self.local.push(id.clone());
                    }
                }
                Reply::Written
            }
            Request::ReadRef { name } => Reply::RefText {
                text: self.local_refs.iter().find(|(n, _)| n == name).map(|(_, t)| t.clone()),
            },
            Request::IsAncestor { old, new } => Reply::Ancestry {
                holds: self.ancestors.iter().any(|(o, n)| o == old && n == new.as_str()),
            },
            Request::Get { key } => match self.remote_value(key) {
                Some(data) => Reply::Payload { data, status: 200 },
                None => Reply::Payload { data: b"<Error>NoSuchKey</Error>".to_vec(), status: 404 },
            },
            Request::Put { key, data } => {
                self.remote.retain(|(k, _)| k != key);
                self.remote.push((key.clone(), data.clone()));
                Reply::Stored { status: 200 }
            }
            Request::List { prefix } => Reply::Listing {
                pages: vec![Page {
                    keys: self
                        .remote
                        .iter()
                        .filter(|(k, _)| k.starts_with(prefix.as_str()))
                        .map(|(k, _)| k.clone())
                        .collect(),
                    status: 200,
                }],
            },
            Request::Stop => Reply::Failed,
        }
    }
}


const ALL: [&str; 7] = [BLOB_1, BLOB_2, TREE_0, TREE_1, COMMIT_0, COMMIT_1, MERGE];
const MAIN: &str = "refs/heads/main";

fn world_with_ref(tip: &str) -> World {
    let mut world = World::new().with_local(&ALL);
    world.local_refs.push((MAIN.to_string(), format!("{}\n", tip)));
    world
}

fn run_push(world: &mut World, src: &str, dst: &str, force: bool) -> Result<(), Failure> {
    let mut push = Push::new(src.to_string(), dst.to_string(), force);
    let mut steps = 0;
    while !push.finished() {
        let request = push.request();
        let reply = world.answer(&request);
        push = push.advance(reply);
        assert!(world.remote_is_closed());
        steps += 1;
        assert!(steps < 1000);
    }
    assert_eq!(push.request(), Request::Stop);
    push.outcome().unwrap()
}

#[test]
fn push_uploads_everything_and_moves_the_ref() {
    let mut world = world_with_ref(MERGE);
    assert_eq!(run_push(&mut world, MAIN, MAIN, false), Ok(()));
    for hex in ALL {
        assert_eq!(world.remote_value(hex), Some(world.data_of(hex)));
    }
    assert_eq!(world.remote_value(MAIN), Some(MERGE.as_bytes().to_vec()));
    assert_eq!(world.remote.len(), 8);
}

#[test]
fn push_puts_parts_before_the_whole() {
    let mut world = world_with_ref(MERGE);
    assert_eq!(run_push(&mut world, MAIN, MAIN, false), Ok(()));
    assert_eq!(
        world.puts(),
        vec![BLOB_1, TREE_0, BLOB_2, TREE_1, COMMIT_0, COMMIT_1, MERGE, MAIN]
    );
}

#[test]
fn push_never_leaves_an_object_without_its_parts() {
    let mut world = world_with_ref(MERGE);
    let mut push = Push::new(MAIN.to_string(), MAIN.to_string(), false);
    while !push.finished() {
        let request = push.request();
        if let Request::Put { key, .. } = &request {
            if key != MAIN {
                for child in world.children_of(key) {
                    assert!(world.holds_remote(&child));
                }
            }
        }
        let reply = world.answer(&request);
        push = push.advance(reply);
        assert!(world.remote_is_closed());
    }
    assert_eq!(push.outcome(), Some(Ok(())));
}

#[test]
fn push_of_present_root_puts_no_object() {
    let mut world = world_with_ref(MERGE).with_remote(&ALL);
    assert_eq!(run_push(&mut world, MAIN, MAIN, false), Ok(()));
    assert_eq!(world.puts(), vec![MAIN]);
    assert_eq!(
        world.log,
        vec![
            Request::ReadRef { name: MAIN.to_string() },
            Request::List { prefix: MERGE.to_string() },
            Request::Get { key: MAIN.to_string() },
            Request::Put { key: MAIN.to_string(), data: MERGE.as_bytes().to_vec() },
        ]
    );
}

#[test]
fn push_skips_what_the_bucket_holds() {
    let mut world = world_with_ref(COMMIT_1).with_remote(&[BLOB_1, TREE_0, COMMIT_0]);
    assert_eq!(run_push(&mut world, MAIN, MAIN, false), Ok(()));
    assert_eq!(world.puts(), vec![BLOB_2, TREE_1, COMMIT_1, MAIN]);
}

#[test]
fn push_trims_the_local_ref() {
    let mut world = World::new().with_local(&ALL);
    world.local_refs.push(("HEAD".to_string(), format!("  {}\r\n\n", COMMIT_0)));
    assert_eq!(run_push(&mut world, "HEAD", "refs/heads/x", false), Ok(()));
    assert_eq!(world.remote_value("refs/heads/x"), Some(COMMIT_0.as_bytes().to_vec()));
}

#[test]
fn push_without_local_ref_fails() {
    let mut world = World::new().with_local(&ALL);
    assert_eq!(
        run_push(&mut world, MAIN, MAIN, false),
        Err(Failure { error: Error::LocalRefNotFound { name: MAIN.to_string() }, chain: vec![] })
    );
    assert_eq!(world.remote_calls(), 0);
}

#[test]
fn push_of_a_ref_that_names_no_object_fails() {
    let mut world = World::new().with_local(&ALL);
    world.local_refs.push((MAIN.to_string(), "ref: refs/heads/other\n".to_string()));
    assert_eq!(
        run_push(&mut world, MAIN, MAIN, false),
        Err(Failure {
            error: Error::InvalidObjectId { text: "ref: refs/heads/other".to_string() },
            chain: vec![],
        })
    );
    assert_eq!(world.remote_calls(), 0);
}

#[test]
fn push_fails_when_an_object_is_not_local() {
    let mut world = World::new().with_local(&[COMMIT_1, TREE_1, BLOB_1, BLOB_2]);
    world.local_refs.push((MAIN.to_string(), COMMIT_1.to_string()));
    assert_eq!(
        run_push(&mut world, MAIN, MAIN, false),
        Err(Failure {
            error: Error::ObjectNotFoundLocally { id: id(TREE_0) },
            chain: vec![id(TREE_1), id(COMMIT_1)],
        })
    );
    assert_eq!(world.puts(), vec![BLOB_1]);
    assert_eq!(world.remote_value(MAIN), None);
}

#[test]
fn push_fails_on_a_status_that_is_not_success() {
    let mut world = world_with_ref(COMMIT_0);
    world.broken.push((
        Request::Put { key: TREE_0.to_string(), data: world.data_of(TREE_0) },
        Reply::Stored { status: 403 },
    ));
    assert_eq!(
        run_push(&mut world, MAIN, MAIN, false),
        Err(Failure {
            error: Error::RemoteProtocolError { key: TREE_0.to_string(), status: 403 },
            chain: vec![id(TREE_0), id(COMMIT_0)],
        })
    );
    assert!(!world.holds_remote(COMMIT_0));
    assert!(!world.holds_remote(MAIN));
}

#[test]
fn push_fails_when_the_listing_fails() {
    let mut world = world_with_ref(COMMIT_0);
    world.broken.push((
        Request::List { prefix: COMMIT_0.to_string() },
        Reply::Listing { pages: vec![Page { keys: vec![], status: 500 }] },
    ));
    assert_eq!(
        run_push(&mut world, MAIN, MAIN, false),
        Err(Failure {
            error: Error::RemoteProtocolError { key: COMMIT_0.to_string(), status: 500 },
            chain: vec![],
        })
    );
    let mut world = world_with_ref(COMMIT_0);
    world.broken.push((Request::List { prefix: COMMIT_0.to_string() }, Reply::Failed));
    assert_eq!(
        run_push(&mut world, MAIN, MAIN, false),
        Err(Failure {
            error: Error::RemoteUnavailable { key: COMMIT_0.to_string() },
            chain: vec![],
        })
    );
}

#[test]
fn push_fails_on_bytes_that_do_not_decode() {
    let mut world = World::new();
    world.objects.push((
        "dddddddddddddddddddddddddddddddddddddddd".to_string(),
        Kind::Commit,
        b"garbage".to_vec(),
    ));
    world.local.push("dddddddddddddddddddddddddddddddddddddddd".to_string());
    world.local_refs.push((MAIN.to_string(), "dddddddddddddddddddddddddddddddddddddddd".into()));
    assert_eq!(
        run_push(&mut world, MAIN, MAIN, false),
        Err(Failure {
            error: Error::DecodeError {
                id: id("dddddddddddddddddddddddddddddddddddddddd"),
                kind: Kind::Commit,
            },
            chain: vec![],
        })
    );
    assert!(world.puts().is_empty());
}

#[test]
fn push_forward_moves_the_ref() {
    let mut world = world_with_ref(COMMIT_1).with_remote(&ALL);
    world.remote.push((MAIN.to_string(), COMMIT_0.as_bytes().to_vec()));
    world.ancestors.push((COMMIT_0.to_string(), COMMIT_1.to_string()));
    assert_eq!(run_push(&mut world, MAIN, MAIN, false), Ok(()));
    assert_eq!(world.remote_value(MAIN), Some(COMMIT_1.as_bytes().to_vec()));
    assert!(world.log.contains(&Request::IsAncestor {
        old: COMMIT_0.to_string(),
        new: id(COMMIT_1),
    }));
}

#[test]
fn push_that_is_not_fast_forward_fails_and_keeps_the_ref() {
    let mut world = world_with_ref(COMMIT_0).with_remote(&ALL);
    world.remote.push((MAIN.to_string(), COMMIT_1.as_bytes().to_vec()));
    world.ancestors.push((COMMIT_0.to_string(), COMMIT_1.to_string()));
    assert_eq!(
        run_push(&mut world, MAIN, MAIN, false),
        Err(Failure {
            error: Error::NonFastForward {
                old: COMMIT_1.to_string(),
                new: COMMIT_0.to_string(),
            },
            chain: vec![],
        })
    );
    assert_eq!(world.remote_value(MAIN), Some(COMMIT_1.as_bytes().to_vec()));
    assert!(world.puts().is_empty());
}

#[test]
fn forced_push_moves_the_ref_regardless() {
    let mut world = world_with_ref(COMMIT_0).with_remote(&ALL);
    world.remote.push((MAIN.to_string(), COMMIT_1.as_bytes().to_vec()));
    assert_eq!(run_push(&mut world, MAIN, MAIN, true), Ok(()));
    assert_eq!(world.remote_value(MAIN), Some(COMMIT_0.as_bytes().to_vec()));
    assert_eq!(world.puts(), vec![MAIN]);
}

#[test]
fn push_to_a_new_ref_does_not_ask_for_ancestry() {
    let mut world = world_with_ref(COMMIT_0);
    assert_eq!(run_push(&mut world, MAIN, "refs/heads/new", false), Ok(()));
    assert!(!world.log.iter().any(|r| matches!(r, Request::IsAncestor { .. })));
    assert_eq!(world.remote_value("refs/heads/new"), Some(COMMIT_0.as_bytes().to_vec()));
}

#[test]
fn push_fails_when_ancestry_is_unknown() {
    let mut world = world_with_ref(COMMIT_1).with_remote(&ALL);
    world.remote.push((MAIN.to_string(), COMMIT_0.as_bytes().to_vec()));
    world.broken.push((
        Request::IsAncestor { old: COMMIT_0.to_string(), new: id(COMMIT_1) },
        Reply::Failed,
    ));
    assert_eq!(
        run_push(&mut world, MAIN, MAIN, true),
        Err(Failure {
            error: Error::AncestryUnknown {
                old: COMMIT_0.to_string(),
                new: COMMIT_1.to_string(),
            },
            chain: vec![],
        })
    );
}

#[test]
fn push_fails_on_a_remote_ref_that_is_no_text() {
    let mut world = world_with_ref(COMMIT_0).with_remote(&ALL);
    world.remote.push((MAIN.to_string(), vec![0xff, 0xfe, 0x00]));
    assert_eq!(
        run_push(&mut world, MAIN, MAIN, false),
        Err(Failure { error: Error::InvalidRefValue { key: MAIN.to_string() }, chain: vec![] })
    );
}

#[test]
fn push_fails_when_the_ref_cannot_be_written() {
    let mut world = world_with_ref(COMMIT_0).with_remote(&ALL);
    world.broken.push((
        Request::Put { key: MAIN.to_string(), data: COMMIT_0.as_bytes().to_vec() },
        Reply::Stored { status: 500 },
    ));
    assert_eq!(
        run_push(&mut world, MAIN, MAIN, false),
        Err(Failure {
            error: Error::RemoteProtocolError { key: MAIN.to_string(), status: 500 },
            chain: vec![],
        })
    );
}

#[test]
fn listing_tells_whether_the_key_exists() {
    assert_eq!(check_hash_remote(&vec![]), Ok(false));
    assert_eq!(check_hash_remote(&vec![Page { keys: vec![], status: 200 }]), Ok(false));
    assert_eq!(
        check_hash_remote(&vec![
            Page { keys: vec![], status: 200 },
            Page { keys: vec!["k".to_string()], status: 200 },
        ]),
        Ok(true)
    );
    assert_eq!(
        check_hash_remote(&vec![
            Page { keys: vec!["k".to_string()], status: 200 },
            Page { keys: vec![], status: 500 },
        ]),
        Ok(true)
    );
    assert_eq!(
        check_hash_remote(&vec![
            Page { keys: vec![], status: 200 },
            Page { keys: vec!["k".to_string()], status: 404 },
        ]),
        Err(404)
    );
    assert_eq!(
        check_hash_remote(&vec![Page { keys: vec!["k".to_string()], status: 201 }]),
        Err(201)
    );
}
