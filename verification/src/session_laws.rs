//! What holds of every session.

use vstd::prelude::*;
use crate::error::{ErrorView, FailureView};
use crate::exchange::{ReplyView, RequestView};
use crate::model::Stores;
use crate::protocol::{command_of, push_of, word, CommandView};
use crate::remote::{capability_lines, end_of_answer, RemoteView, SessionView};
use crate::text::{
    field, first_index, is_space, lemma_first_index, trim_end, trim_start, trimmed,
};

verus! {

/// The names of the four commands are four different words.
proof fn lemma_names_differ()
    ensures
        "push"@ != "capabilities"@,
        "push"@ != "list"@,
        "push"@ != "fetch"@,
        "fetch"@ != "capabilities"@,
        "fetch"@ != "list"@,
        "list"@ != "capabilities"@,
        "push"@.len() == 4,
        "list"@.len() == 4,
        "fetch"@.len() == 5,
        "capabilities"@.len() == 12,
{
    reveal_strlit("capabilities");
    reveal_strlit("list");
    reveal_strlit("fetch");
    reveal_strlit("push");
    assert("push"@[0] == 'p');
    assert("list"@[0] == 'l');
    assert("fetch"@.len() == 5);
    assert("capabilities"@.len() == 12);
    assert("list"@.len() == 4);
    assert("push"@.len() == 4);
}

/// `capabilities` prints exactly `fetch`, then `push`, then the empty line
/// that ends the answer, and the session reads the next command.
pub proof fn law_capabilities(remote: RemoteView, line: Seq<char>)
    requires
        remote.session is Idle,
        word(line, 0) == Some("capabilities"@),
    ensures
        ({
            let first = remote.run(ReplyView::Line { text: line });
            let second = first.run(ReplyView::Printed);
            let third = second.run(ReplyView::Printed);
            let fourth = third.run(ReplyView::Printed);
            &&& remote.request() is ReadLine
            &&& first.request() == (RequestView::Print { line: "fetch"@ })
            &&& second.request() == (RequestView::Print { line: "push"@ })
            &&& third.request() == (RequestView::Print { line: Seq::<char>::empty() })
            &&& fourth.session is Idle
            &&& fourth.request() is ReadLine
        }),
{
    let lines = seq!["fetch"@, "push"@, Seq::<char>::empty()];
    let first = remote.run(ReplyView::Line { text: line });
    assert(first.session == (SessionView::Saying { lines })) by {
        assert(capability_lines() + end_of_answer() =~= lines);
    }
    let second = first.run(ReplyView::Printed);
    assert(lines.drop_first() =~= seq!["push"@, Seq::<char>::empty()]);
    let third = second.run(ReplyView::Printed);
    assert(seq!["push"@, Seq::<char>::empty()].drop_first() =~= seq![Seq::<char>::empty()]);
}

/// A line whose first word is no command of the protocol ends the session
/// well, and nothing more is asked for.
pub proof fn law_unknown_command_ends(remote: RemoteView, line: Seq<char>)
    requires
        remote.session is Idle,
        word(line, 0) != Some("capabilities"@),
        word(line, 0) != Some("list"@),
        word(line, 0) != Some("fetch"@),
        word(line, 0) != Some("push"@),
    ensures
        command_of(line) == Ok::<CommandView, ErrorView>(CommandView::Exit),
        remote.run(ReplyView::Line { text: line }).session == (SessionView::Closed {
            failure: None,
        }),
        remote.run(ReplyView::Line { text: line }).request() is Stop,
{
    lemma_first_index(line, ' ');
}

/// An empty line, with or without its line feed, is no command: it ends
/// the session well. So does the end of the input.
pub proof fn law_blank_line_ends(remote: RemoteView, line: Seq<char>)
    requires
        remote.session is Idle,
        line == Seq::<char>::empty() || line == seq!['\n'],
    ensures
        remote.run(ReplyView::Line { text: line }).session == (SessionView::Closed {
            failure: None,
        }),
{
    lemma_first_index(line, ' ');
    assert(first_index(line, ' ') is None) by {
        if line.len() > 0 {
            assert(line[0] == '\n');
        }
    }
    assert(field(line, ' ', 0) == Some(line));
    assert(trimmed(line).len() == 0) by {
        reveal_with_fuel(trim_start, 2);
        reveal_with_fuel(trim_end, 2);
        if line.len() > 0 {
            assert(is_space(line[0]));
            assert(line.drop_first() =~= Seq::<char>::empty());
        }
    }
    lemma_names_differ();
    law_unknown_command_ends(remote, line);
}

/// A `push` whose argument holds no `:` is malformed: the session ends
/// with `MalformedCommand` for that line, and nothing is asked of any
/// store.
pub proof fn law_malformed_push(remote: RemoteView, line: Seq<char>, arg: Seq<char>)
    requires
        remote.session is Idle,
        word(line, 0) == Some("push"@),
        word(line, 1) == Some(arg),
        first_index(arg, ':') is None,
    ensures
        command_of(line) == Err::<CommandView, ErrorView>(ErrorView::MalformedCommand { line }),
        remote.run(ReplyView::Line { text: line }).session == (SessionView::Closed {
            failure: Some(
                FailureView {
                    error: ErrorView::MalformedCommand { line },
                    chain: Seq::empty(),
                },
            ),
        }),
        remote.run(ReplyView::Line { text: line }).request() is Stop,
{
    lemma_names_differ();
    assert(field(arg, ':', 1) is None);
    assert(push_of(arg) is None);
}

/// A `push` or a `fetch` that lacks its argument is malformed too.
pub proof fn law_missing_argument(remote: RemoteView, line: Seq<char>)
    requires
        remote.session is Idle,
        word(line, 0) == Some("push"@) && word(line, 1) is None || word(line, 0) == Some("fetch"@)
            && word(line, 2) is None,
    ensures
        command_of(line) == Err::<CommandView, ErrorView>(ErrorView::MalformedCommand { line }),
        remote.run(ReplyView::Line { text: line }).request() is Stop,
{
    lemma_names_differ();
}

/// A session that is over stays over, asks for nothing, and leaves the
/// stores alone.
pub proof fn law_closed_session(
    remote: RemoteView,
    reply: ReplyView,
    stores: Stores,
    after: Stores,
)
    requires
        remote.session is Closed,
        stores.answers(remote.request(), reply, after),
    ensures
        remote.request() is Stop,
        remote.run(reply) == remote,
        after == stores,
{
}

/// Each command that was carried out is answered by exactly one empty
/// line, after which the next command is read.
pub proof fn law_answer_ends_with_empty_line(remote: RemoteView)
    requires
        remote.session == (SessionView::Saying { lines: end_of_answer() }),
    ensures
        remote.request() == (RequestView::Print { line: Seq::<char>::empty() }),
        remote.run(ReplyView::Printed).session is Idle,
{
}

} // verus!
