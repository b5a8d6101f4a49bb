//! Object ids and object kinds.

use vstd::prelude::*;
use crate::text::chars_of;
use git_object::immutable::object::decode::Error as CodecError;

verus! {

/// The kinds of object that are copied between the stores.
#[derive(Debug, Clone, Copy, PartialEq, Eq, Structural)]
pub enum Kind {
    Commit,
    Tree,
    Blob,
}

/// Whether `c` is a hexadecimal digit, in either case.
pub open spec fn is_hex_digit(c: char) -> bool {
    ('0' <= c && c <= '9') || ('a' <= c && c <= 'f') || ('A' <= c && c <= 'F')
}

/// Whether `s` is the text of an object id: forty hexadecimal digits.
pub open spec fn is_object_id(s: Seq<char>) -> bool {
    s.len() == 40 && forall|i: int| 0 <= i < 40 ==> is_hex_digit(#[trigger] s[i])
}

/// The content hash that names a commit, a tree or a blob, in hexadecimal.
#[derive(Debug, PartialEq, Eq, Hash)]
pub struct ObjectId {
    hex: String,
}

impl View for ObjectId {
    type V = Seq<char>;

    closed spec fn view(&self) -> Seq<char> {
        self.hex@
    }
}

impl Clone for ObjectId {
    fn clone(&self) -> (r: Self)
        ensures
            r@ == self@,
    {
        proof {
            use_type_invariant(self);
        }
        ObjectId { hex: self.hex.clone() }
    }
}

fn hex_digit(c: char) -> (r: bool)
    ensures
        r == is_hex_digit(c),
{
    ('0' <= c && c <= '9') || ('a' <= c && c <= 'f') || ('A' <= c && c <= 'F')
}

impl ObjectId {
    #[verifier::type_invariant]
    spec fn well_formed(self) -> bool {
        is_object_id(self.hex@)
    }

    /// Reads an object id from its hexadecimal text.
    pub fn from_hex(text: &str) -> (r: Option<ObjectId>)
        ensures
            r is Some <==> is_object_id(text@),
            r matches Some(id) ==> id@ == text@,
    {
        let v = chars_of(text);
        if v.len() != 40 {
            return None;
        }
        let mut i: usize = 0;
        while i < 40
            invariant
                v.len() == 40,
                v@ == text@,
                i <= 40,
                forall|k: int| 0 <= k < i ==> is_hex_digit(#[trigger] v@[k]),
            decreases 40 - i,
        {
            if !hex_digit(v[i]) {
                return None;
            }
            i += 1;
        }
        Some(ObjectId { hex: text.to_owned() })
    }

    /// The hexadecimal text of the id.
    pub fn as_str(&self) -> (s: &str)
        ensures
            s@ == self@,
            is_object_id(s@),
    {
        proof {
            use_type_invariant(self);
        }
        self.hex.as_str()
    }
}

/// The ids that a commit refers to: its tree and its parents, in the order
/// in which the commit lists them.
#[derive(Debug, PartialEq, Eq)]
pub struct CommitLinks {
    pub tree: ObjectId,
    pub parents: Vec<ObjectId>,
}

/// The mathematical value of [`CommitLinks`].
#[verifier::ext_equal]
pub struct CommitLinksView {
    pub tree: Seq<char>,
    pub parents: Seq<Seq<char>>,
}

impl View for CommitLinks {
    type V = CommitLinksView;

    open spec fn view(&self) -> CommitLinksView {
        CommitLinksView { tree: self.tree@, parents: self.parents@.map_values(|p: ObjectId| p@) }
    }
}

/// One entry of a tree: the mode, the name and the id of what it names.
#[derive(Debug, PartialEq, Eq)]
pub struct TreeEntry {
    pub mode: u16,
    pub name: Vec<u8>,
    pub id: ObjectId,
}

/// The mathematical value of a [`TreeEntry`].
#[verifier::ext_equal]
pub struct TreeEntryView {
    pub mode: u16,
    pub name: Seq<u8>,
    pub id: Seq<char>,
}

impl View for TreeEntry {
    type V = TreeEntryView;

    open spec fn view(&self) -> TreeEntryView {
        TreeEntryView { mode: self.mode, name: self.name@, id: self.id@ }
    }
}

/// The mode of a tree entry that names another tree.
pub const MODE_TREE: u16 = 0o040000;

/// What the codec reads out of the bytes of a commit: the ids it refers to,
/// or nothing where the bytes are no commit.
pub uninterp spec fn commit_links(data: Seq<u8>) -> Option<CommitLinksView>;

/// What the codec reads out of the bytes of a tree: its entries in their
/// order, or nothing where the bytes are no tree.
pub uninterp spec fn tree_entries(data: Seq<u8>) -> Option<Seq<TreeEntryView>>;

/// The error with which the codec refuses bytes.
#[verifier::external_type_specification]
#[verifier::external_body]
pub struct ExCodecError(CodecError);

/// Calls `git_object::immutable::Commit::from_bytes` and hands out the tree
/// (`Commit::tree`) and the parents (`Commit::parents`), each in hexadecimal
/// (`git_hash::ObjectId::to_sha1_hex_string`). The contract gives the
/// outcome its name, [`commit_links`]: the same bytes always decode alike.
/// It also says that each id is the text of an object id: the codec accepts
/// ids of forty lower-case hexadecimal digits only, and writes them so.
#[verifier::external_body]
pub(crate) fn decode_commit(data: &Vec<u8>) -> (res: Result<CommitLinks, CodecError>)
    ensures
        match res {
            Ok(links) => commit_links(data@) == Some(links@),
            Err(_) => commit_links(data@) is None,
        },
        res matches Ok(links) ==> is_object_id(links@.tree) && forall|i: int|
            0 <= i < links@.parents.len() ==> is_object_id(#[trigger] links@.parents[i]),
{
    let commit = git_object::immutable::Commit::from_bytes(data.as_slice())?;
    let tree = ObjectId { hex: commit.tree().to_sha1_hex_string() };
    let parents = commit.parents().map(|p| ObjectId { hex: p.to_sha1_hex_string() }).collect();
    Ok(CommitLinks { tree, parents })
}

/// Calls `git_object::immutable::Tree::from_bytes` and hands out, for each
/// entry in order, the mode as its number, the file name and the id in
/// hexadecimal (`git_hash::ObjectId::to_sha1_hex_string`). The contract
/// gives the outcome its name, [`tree_entries`]: the same bytes always
/// decode alike. It also says that each id is the text of an object id: the
/// codec takes twenty bytes for it, which are written as forty hexadecimal
/// digits.
#[verifier::external_body]
pub(crate) fn decode_tree(data: &Vec<u8>) -> (res: Result<Vec<TreeEntry>, CodecError>)
    ensures
        match res {
            Ok(entries) => tree_entries(data@) == Some(entries@.map_values(|e: TreeEntry| e@)),
            Err(_) => tree_entries(data@) is None,
        },
        res matches Ok(entries) ==> forall|i: int|
            0 <= i < entries@.len() ==> is_object_id((#[trigger] entries@[i])@.id),
{
    let tree = git_object::immutable::Tree::from_bytes(data.as_slice())?;
    Ok(tree.entries.iter().map(|e| TreeEntry {
        mode: e.mode as u16,
        name: e.filename.to_vec(),
        id: ObjectId { hex: git_hash::ObjectId::from(e.oid).to_sha1_hex_string() },
    }).collect())
}

} // verus!
