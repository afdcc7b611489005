//! The client's side of the protocol: the lines it sends, what it makes of
//! the server's first answer, and what a line typed by the user asks for.

use crate::protocol::{join_keyword, leave_keyword, msg_keyword, parse_line};
use crate::protocol::{lemma_split_framed, CommandView, ParseError};
use crate::text::{chars_of, same_text, trim_end, trimmed_len, trimmed_length};
use crate::text::{lemma_trimmed_len, lemma_trimmed_len_concat};
use vstd::prelude::*;
use vstd::string::StrSliceExecFns;
use vstd::string::StringExecFns;

verus! {

/// The line `JOIN <username>`, newline included.
pub open spec fn join_line(username: Seq<char>) -> Seq<char> {
    join_keyword() + seq![' '] + username + seq!['\n']
}

/// The line `MSG <text>`, newline included.
pub open spec fn msg_line(text: Seq<char>) -> Seq<char> {
    msg_keyword() + seq![' '] + text + seq!['\n']
}

/// The line `LEAVE`, newline included.
pub open spec fn leave_line() -> Seq<char> {
    leave_keyword() + seq!['\n']
}

/// Formats the request to register under `username`.
pub fn join(username: &str) -> (line: String)
    ensures
        line@ == join_line(username@),
{
    proof {
        reveal_strlit("JOIN ");
        reveal_strlit("\n");
    }
    let mut line = String::from_str("JOIN ");
    line.append(username);
    line.append("\n");
    assert(line@ =~= join_line(username@));
    line
}

/// Formats the request to broadcast `text`.
pub fn msg(text: &str) -> (line: String)
    ensures
        line@ == msg_line(text@),
{
    proof {
        reveal_strlit("MSG ");
        reveal_strlit("\n");
    }
    let mut line = String::from_str("MSG ");
    line.append(text);
    line.append("\n");
    assert(line@ =~= msg_line(text@));
    line
}

/// Formats the request to end the session.
pub fn leave() -> (line: String)
    ensures
        line@ == leave_line(),
{
    proof {
        reveal_strlit("LEAVE\n");
    }
    let line = String::from_str("LEAVE\n");
    assert(line@ =~= leave_line());
    line
}

/// Whether the server's answer is an error: a line that starts with `ERR`
/// and a space.
pub open spec fn is_error_line(line: Seq<char>) -> bool {
    seq!['E', 'R', 'R', ' '].is_prefix_of(line)
}

/// Tells whether the server's answer is an error.
pub fn is_error(line: &str) -> (error: bool)
    ensures
        error == is_error_line(line@),
{
    proof {
        reveal_strlit("ERR ");
    }
    if line.unicode_len() < 4 {
        return false;
    }
    let head = line.substring_char(0, 4);
    let error = same_text(head, "ERR ");
    assert(head@ =~= line@.subrange(0, 4));
    assert("ERR "@ =~= seq!['E', 'R', 'R', ' ']);
    error
}

/// What a line typed by the user asks for.
#[derive(Debug, PartialEq, Eq)]
pub enum Input {
    /// Nothing but whitespace: nothing to do.
    Blank,
    /// `send <text>`: broadcast the text.
    Send(String),
    /// `leave`: end the session.
    Leave,
    /// Anything else.
    Unknown,
}

/// An [`Input`] with its text as a character sequence.
pub enum InputView {
    Blank,
    Send(Seq<char>),
    Leave,
    Unknown,
}

impl View for Input {
    type V = InputView;

    open spec fn view(&self) -> InputView {
        match self {
            Input::Blank => InputView::Blank,
            Input::Send(text) => InputView::Send(text@),
            Input::Leave => InputView::Leave,
            Input::Unknown => InputView::Unknown,
        }
    }
}

/// The characters of `send` and the space that follows it.
pub open spec fn send_prefix() -> Seq<char> {
    seq!['s', 'e', 'n', 'd', ' ']
}

/// The characters of `leave`.
pub open spec fn leave_word() -> Seq<char> {
    seq!['l', 'e', 'a', 'v', 'e']
}

/// What a typed line means, trailing whitespace left out: after `send` and a
/// space comes the text to broadcast; `leave` alone ends the session.
pub open spec fn input_of(line: Seq<char>) -> InputView {
    let body = trim_end(line);
    if body.len() == 0 {
        InputView::Blank
    } else if send_prefix().is_prefix_of(body) {
        InputView::Send(body.subrange(5, body.len() as int))
    } else if body == leave_word() {
        InputView::Leave
    } else {
        InputView::Unknown
    }
}

/// Reads a line typed by the user.
pub fn read_input(line: &str) -> (input: Input)
    ensures
        input@ == input_of(line@),
{
    proof {
        lemma_trimmed_len(line@);
        reveal_strlit("send ");
        reveal_strlit("leave");
        assert("send "@ =~= send_prefix());
        assert("leave"@ =~= leave_word());
    }
    let chars = chars_of(line);
    let end = trimmed_length(&chars);
    if end == 0 {
        return Input::Blank;
    }
    let body = line.substring_char(0, end);
    assert(body@ =~= trim_end(line@));
    if end >= 5 {
        let head = line.substring_char(0, 5);
        assert(head@ =~= body@.subrange(0, 5));
        if same_text(head, "send ") {
            let text = line.substring_char(5, end);
            assert(text@ =~= body@.subrange(5, body@.len() as int));
            return Input::Send(String::from_str(text));
        }
    }
    if same_text(body, "leave") {
        Input::Leave
    } else {
        Input::Unknown
    }
}

/// What the client sends, the server reads as it was meant: a `JOIN` line
/// registers the username it was made of and a `MSG` line relays its text,
/// each without trailing whitespace; a `JOIN` line whose username is blank
/// throughout is refused for want of a username; a `LEAVE` line ends the
/// session.
pub proof fn lemma_requests_parse_back(text: Seq<char>)
    ensures
        parse_line(join_line(text)) == if trimmed_len(text) == 0 {
            Err::<CommandView, ParseError>(ParseError::MissingUsername)
        } else {
            Ok::<CommandView, ParseError>(CommandView::Join(trim_end(text)))
        },
        parse_line(msg_line(text)) == Ok::<CommandView, ParseError>(
            CommandView::Msg(trim_end(text)),
        ),
        parse_line(leave_line()) == Ok::<CommandView, ParseError>(CommandView::Leave),
{
    lemma_split_framed(join_keyword(), text);
    lemma_split_framed(msg_keyword(), text);
    lemma_trimmed_len(text);
    assert(join_keyword()[0] != msg_keyword()[0]);
    assert(join_keyword()[0] != leave_keyword()[0]);
    assert(msg_keyword()[0] != leave_keyword()[0]);
    if trimmed_len(text) == 0 {
        assert(trim_end(text) =~= Seq::<char>::empty());
    }
    let word = leave_keyword();
    lemma_trimmed_len_concat(word, seq!['\n']);
    assert(trimmed_len(seq!['\n']) == 0) by {
        assert(seq!['\n'].drop_last() =~= Seq::<char>::empty());
        assert(trimmed_len(seq!['\n'].drop_last()) == 0);
    }
    assert(trimmed_len(word) == word.len());
    let body = trim_end(leave_line());
    assert(body =~= word);
    body.index_of_first_ensures(' ');
}

} // verus!
