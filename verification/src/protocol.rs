//! The commands of the remote-helper protocol, as they are read from a
//! line of standard input: the line is parted at each space, and each part
//! is taken without the white space around it.

use vstd::prelude::*;
use crate::error::{Error, ErrorView};
use crate::text::{
    chars_of, cut, field, field_range, is_word, lemma_first_index, trim_range, trimmed,
};

verus! {

/// A command of the protocol.
#[derive(Debug, Clone, PartialEq, Eq)]
pub enum Command {
    /// `capabilities`: say what the helper can do.
    Capabilities,
    /// `list` or `list for-push`: list the refs of the remote.
    List { for_push: bool },
    /// `fetch <sha> <name>`: bring a commit into the local database.
    Fetch { sha: String, name: String },
    /// `push <src>:<dst>` or `push +<src>:<dst>`: upload a local ref and
    /// move the remote ref; the `+` forces the move.
    Push { src: String, dst: String, force: bool },
    /// Anything else: the session is over.
    Exit,
}

/// The mathematical value of a [`Command`].
#[verifier::ext_equal]
pub enum CommandView {
    Capabilities,
    List { for_push: bool },
    Fetch { sha: Seq<char>, name: Seq<char> },
    Push { src: Seq<char>, dst: Seq<char>, force: bool },
    Exit,
}

impl View for Command {
    type V = CommandView;

    open spec fn view(&self) -> CommandView {
        match *self {
            Command::Capabilities => CommandView::Capabilities,
            Command::List { for_push } => CommandView::List { for_push },
            Command::Fetch { sha, name } => CommandView::Fetch { sha: sha@, name: name@ },
            Command::Push { src, dst, force } => CommandView::Push { src: src@, dst: dst@, force },
            Command::Exit => CommandView::Exit,
        }
    }
}

/// The `k`-th word of a line, counted from zero: the `k`-th of the parts
/// between its spaces, without the white space around it.
pub open spec fn word(line: Seq<char>, k: nat) -> Option<Seq<char>> {
    match field(line, ' ', k) {
        Some(part) => Some(trimmed(part)),
        None => None,
    }
}

/// What the argument of `push` asks for: the text before the first `:` is
/// the local ref, forced where it starts with `+`, and the text between
/// the first `:` and the second is the remote ref. Nothing where there is
/// no `:` or nothing before it.
pub open spec fn push_of(arg: Seq<char>) -> Option<CommandView> {
    let head = field(arg, ':', 0)->Some_0;
    if head.len() == 0 {
        None
    } else {
        match field(arg, ':', 1) {
            Some(dst) => Some(
                CommandView::Push {
                    src: if head[0] == '+' {
                        head.skip(1)
                    } else {
                        head
                    },
                    dst,
                    force: head[0] == '+',
                },
            ),
            None => None,
        }
    }
}

/// The command that a line gives, or `MalformedCommand` where a `fetch` or
/// a `push` lacks an argument. A line whose first word is no command of
/// the protocol, an empty line among them, ends the session.
pub open spec fn command_of(line: Seq<char>) -> Result<CommandView, ErrorView> {
    let name = word(line, 0)->Some_0;
    if name == "capabilities"@ {
        Ok(CommandView::Capabilities)
    } else if name == "list"@ {
        Ok(CommandView::List { for_push: word(line, 1) == Some("for-push"@) })
    } else if name == "fetch"@ {
        match (word(line, 1), word(line, 2)) {
            (Some(sha), Some(name)) => Ok(CommandView::Fetch { sha, name }),
            _ => Err(ErrorView::MalformedCommand { line }),
        }
    } else if name == "push"@ {
        match word(line, 1) {
            Some(arg) => match push_of(arg) {
                Some(push) => Ok(push),
                None => Err(ErrorView::MalformedCommand { line }),
            },
            None => Err(ErrorView::MalformedCommand { line }),
        }
    } else {
        Ok(CommandView::Exit)
    }
}

/// Finds where the `k`-th word of the line starts and ends.
fn word_range(v: &Vec<char>, k: usize) -> (r: Option<(usize, usize)>)
    ensures
        match r {
            Some((a, b)) => a <= b <= v.len() && word(v@, k as nat) == Some(
                v@.subrange(a as int, b as int),
            ),
            None => word(v@, k as nat) is None,
        },
{
    assert(v@.subrange(0, v.len() as int) =~= v@);
    match field_range(v, 0, v.len(), ' ', k) {
        Some((a, b)) => Some(trim_range(v, a, b)),
        None => None,
    }
}

/// Reads the command that a line gives.
pub fn parse_command(line: &str) -> (r: Result<Command, Error>)
    ensures
        match command_of(line@) {
            Ok(command) => r matches Ok(c) && c@ == command,
            Err(error) => r matches Err(e) && e@ == error,
        },
{
    let v = chars_of(line);
    let (a, b) = match word_range(&v, 0) {
        Some(range) => range,
        None => {
            proof {
                lemma_first_index(v@, ' ');
            }
            (0, 0)
        },
    };
    if is_word(&v, a, b, "capabilities") {
        Ok(Command::Capabilities)
    } else if is_word(&v, a, b, "list") {
        let for_push = match word_range(&v, 1) {
            Some((c, d)) => is_word(&v, c, d, "for-push"),
            None => false,
        };
        Ok(Command::List { for_push })
    } else if is_word(&v, a, b, "fetch") {
        match word_range(&v, 1) {
            Some((c, d)) => match word_range(&v, 2) {
                Some((e, f)) => Ok(Command::Fetch { sha: cut(line, c, d), name: cut(line, e, f) }),
                None => Err(Error::MalformedCommand { line: line.to_owned() }),
            },
            None => Err(Error::MalformedCommand { line: line.to_owned() }),
        }
    } else if is_word(&v, a, b, "push") {
        match word_range(&v, 1) {
            Some((c, d)) => {
                let ghost arg = v@.subrange(c as int, d as int);
                let head = field_range(&v, c, d, ':', 0);
                proof {
                    lemma_first_index(arg, ':');
                }
                let (h0, h1) = match head {
                    Some(range) => range,
                    None => (c, c),
                };
                if h0 == h1 {
                    return Err(Error::MalformedCommand { line: line.to_owned() });
                }
                let force = v[h0] == '+';
                assert(v@.subrange(h0 as int, h1 as int)[0] == v@[h0 as int]);
                let from = if force {
                    h0 + 1
                } else {
                    h0
                };
                assert(force ==> v@.subrange(h0 as int, h1 as int).skip(1) =~= v@.subrange(
                    from as int,
                    h1 as int,
                ));
                match field_range(&v, c, d, ':', 1) {
                    Some((t0, t1)) => Ok(
                        Command::Push { src: cut(line, from, h1), dst: cut(line, t0, t1), force },
                    ),
                    None => Err(Error::MalformedCommand { line: line.to_owned() }),
                }
            },
            None => Err(Error::MalformedCommand { line: line.to_owned() }),
        }
    } else {
        Ok(Command::Exit)
    }
}

} // verus!
