//! The line codec of the wire protocol.
//!
//! Every message is one line of text. A client sends `JOIN <username>`,
//! `MSG <text>` or `LEAVE`; the server answers with `INFO <text>`,
//! `ERR <text>` or `FROM <username> <text>`.

use crate::text::{chars_of, is_blank, same_text, trim_end, trimmed_len, trimmed_length};
use crate::text::{lemma_trimmed_len, lemma_trimmed_len_concat};
use vstd::prelude::*;
use vstd::string::StrSliceExecFns;
use vstd::string::StringExecFns;

verus! {

/// Keyword of the command that registers a username.
pub const CMD_JOIN: &'static str = "JOIN";

/// Keyword of the command that broadcasts a text.
pub const CMD_MSG: &'static str = "MSG";

/// Keyword of the command that ends the session.
pub const CMD_LEAVE: &'static str = "LEAVE";

/// The characters of `JOIN`.
pub open spec fn join_keyword() -> Seq<char> {
    seq!['J', 'O', 'I', 'N']
}

/// The characters of `MSG`.
pub open spec fn msg_keyword() -> Seq<char> {
    seq!['M', 'S', 'G']
}

/// The characters of `LEAVE`.
pub open spec fn leave_keyword() -> Seq<char> {
    seq!['L', 'E', 'A', 'V', 'E']
}

/// The line `INFO <text>`, newline included.
pub open spec fn info_line(text: Seq<char>) -> Seq<char> {
    seq!['I', 'N', 'F', 'O', ' '] + text + seq!['\n']
}

/// The line `ERR <text>`, newline included.
pub open spec fn err_line(text: Seq<char>) -> Seq<char> {
    seq!['E', 'R', 'R', ' '] + text + seq!['\n']
}

/// The line `FROM <user> <text>`, newline included.
pub open spec fn from_line(user: Seq<char>, text: Seq<char>) -> Seq<char> {
    seq!['F', 'R', 'O', 'M', ' '] + user + seq![' '] + text + seq!['\n']
}

/// Formats an informational line for a client.
pub fn info(msg: &str) -> (line: String)
    ensures
        line@ == info_line(msg@),
{
    proof {
        reveal_strlit("INFO ");
        reveal_strlit("\n");
    }
    let mut line = String::from_str("INFO ");
    line.append(msg);
    line.append("\n");
    assert(line@ =~= info_line(msg@));
    line
}

/// Formats an error line for a client.
pub fn err(msg: &str) -> (line: String)
    ensures
        line@ == err_line(msg@),
{
    proof {
        reveal_strlit("ERR ");
        reveal_strlit("\n");
    }
    let mut line = String::from_str("ERR ");
    line.append(msg);
    line.append("\n");
    assert(line@ =~= err_line(msg@));
    line
}

/// Formats the line that relays `text`, sent by `user`, to another client.
pub fn from(user: &str, text: &str) -> (line: String)
    ensures
        line@ == from_line(user@, text@),
{
    proof {
        reveal_strlit("FROM ");
        reveal_strlit(" ");
        reveal_strlit("\n");
    }
    let mut line = String::from_str("FROM ");
    line.append(user);
    line.append(" ");
    line.append(text);
    line.append("\n");
    assert(line@ =~= from_line(user@, text@));
    line
}

/// A line from a client, once parsed.
#[derive(Debug, PartialEq, Eq)]
pub enum Command {
    /// `JOIN <username>`: register under a username, which is not empty.
    Join(String),
    /// `MSG <text>`: relay a text, possibly empty, to everyone else.
    Msg(String),
    /// `LEAVE`: end the session.
    Leave,
    /// A keyword that is none of the three above. Whether this is an error is
    /// for the session to decide.
    UnknownCommand,
}

/// Why a line is no command at all.
#[derive(Clone, Copy, Debug, PartialEq, Eq)]
pub enum ParseError {
    /// The line holds nothing but whitespace, so it has no keyword.
    MissingCommand,
    /// `JOIN` without a username, or with an empty one.
    MissingUsername,
}

/// A [`Command`] with its texts as character sequences.
pub enum CommandView {
    Join(Seq<char>),
    Msg(Seq<char>),
    Leave,
    UnknownCommand,
}

impl View for Command {
    type V = CommandView;

    open spec fn view(&self) -> CommandView {
        match self {
            Command::Join(username) => CommandView::Join(username@),
            Command::Msg(text) => CommandView::Msg(text@),
            Command::Leave => CommandView::Leave,
            Command::UnknownCommand => CommandView::UnknownCommand,
        }
    }
}

/// The keyword of a trimmed line: what stands before its first space, or the
/// whole line where it has none.
pub open spec fn keyword_of(body: Seq<char>) -> Seq<char> {
    match body.index_of_first(' ') {
        Some(at) => body.subrange(0, at),
        None => body,
    }
}

/// The argument of a trimmed line: what follows its first space, if it has
/// one.
pub open spec fn argument_of(body: Seq<char>) -> Option<Seq<char>> {
    match body.index_of_first(' ') {
        Some(at) => Some(body.subrange(at + 1, body.len() as int)),
        None => None,
    }
}

/// What a line means. Trailing whitespace, the newline included, does not
/// count; the keyword ends at the first space and must match exactly.
pub open spec fn parse_line(line: Seq<char>) -> Result<CommandView, ParseError> {
    let body = trim_end(line);
    let keyword = keyword_of(body);
    let argument = argument_of(body);
    if body.len() == 0 {
        Err(ParseError::MissingCommand)
    } else if keyword == join_keyword() {
        match argument {
            Some(username) if username.len() > 0 => Ok(CommandView::Join(username)),
            _ => Err(ParseError::MissingUsername),
        }
    } else if keyword == msg_keyword() {
        match argument {
            Some(text) => Ok(CommandView::Msg(text)),
            None => Ok(CommandView::Msg(Seq::empty())),
        }
    } else if keyword == leave_keyword() {
        Ok(CommandView::Leave)
    } else {
        Ok(CommandView::UnknownCommand)
    }
}

/// Finds the first space among the first `end` characters.
fn first_space(chars: &Vec<char>, end: usize) -> (found: Option<usize>)
    requires
        end <= chars.len(),
    ensures
        match found {
            Some(at) => at < end && chars@.subrange(0, end as int).index_of_first(' ') == Some(
                at as int,
            ),
            None => chars@.subrange(0, end as int).index_of_first(' ') is None,
        },
{
    let ghost body = chars@.subrange(0, end as int);
    let mut at: usize = 0;
    while at < end
        invariant
            at <= end <= chars.len(),
            body == chars@.subrange(0, end as int),
            forall|k: int| 0 <= k < at ==> body[k] != ' ',
        decreases end - at,
    {
        if chars[at] == ' ' {
            proof {
                assert(body[at as int] == ' ');
                body.index_of_first_ensures(' ');
            }
            return Some(at);
        }
        at = at + 1;
    }
    proof {
        body.index_of_first_ensures(' ');
    }
    None
}

/// Parses one line from a client.
pub fn parse(line: &str) -> (parsed: Result<Command, ParseError>)
    ensures
        parsed matches Ok(command) ==> parse_line(line@) == Ok::<CommandView, ParseError>(command@),
        parsed matches Err(error) ==> parse_line(line@) == Err::<CommandView, ParseError>(error),
{
    let chars = chars_of(line);
    let end = trimmed_length(&chars);
    proof {
        lemma_trimmed_len(line@);
        reveal_strlit("JOIN");
        reveal_strlit("MSG");
        reveal_strlit("LEAVE");
        assert(CMD_JOIN@ =~= join_keyword());
        assert(CMD_MSG@ =~= msg_keyword());
        assert(CMD_LEAVE@ =~= leave_keyword());
    }
    if end == 0 {
        return Err(ParseError::MissingCommand);
    }
    let space = first_space(&chars, end);
    let keyword = match space {
        Some(at) => line.substring_char(0, at),
        None => line.substring_char(0, end),
    };
    assert(keyword@ =~= keyword_of(trim_end(line@)));
    if same_text(keyword, CMD_JOIN) {
        match space {
            Some(at) if at + 1 < end => {
                let username = line.substring_char(at + 1, end);
                assert(username@ =~= argument_of(trim_end(line@))->0);
                Ok(Command::Join(String::from_str(username)))
            },
            _ => Err(ParseError::MissingUsername),
        }
    } else if same_text(keyword, CMD_MSG) {
        match space {
            Some(at) => {
                let text = line.substring_char(at + 1, end);
                assert(text@ =~= argument_of(trim_end(line@))->0);
                Ok(Command::Msg(String::from_str(text)))
            },
            None => Ok(Command::Msg(String::new())),
        }
    } else if same_text(keyword, CMD_LEAVE) {
        Ok(Command::Leave)
    } else {
        Ok(Command::UnknownCommand)
    }
}

/// A keyword as it may open a line: not empty, without a space, and not
/// ending in whitespace.
pub open spec fn is_keyword(word: Seq<char>) -> bool {
    &&& word.len() > 0
    &&& !word.contains(' ')
    &&& !is_blank(word.last())
}

/// How a line made of a keyword, a space, an argument and a newline comes
/// apart: the keyword is found again, and the argument too, without its
/// trailing whitespace, unless nothing of it is left.
pub proof fn lemma_split_framed(word: Seq<char>, argument: Seq<char>)
    requires
        is_keyword(word),
    ensures
        ({
            let body = trim_end(word + seq![' '] + argument + seq!['\n']);
            &&& body.len() > 0
            &&& keyword_of(body) == word
            &&& argument_of(body) == if trimmed_len(argument) == 0 {
                None
            } else {
                Some(trim_end(argument))
            }
        }),
{
    let line = word + seq![' '] + argument + seq!['\n'];
    let body = trim_end(line);
    lemma_trimmed_len(argument);
    lemma_trimmed_len_concat(word + seq![' '] + argument, seq!['\n']);
    lemma_trimmed_len_concat(word + seq![' '], argument);
    lemma_trimmed_len_concat(word, seq![' ']);
    assert(trimmed_len(seq!['\n']) == 0) by {
        assert(seq!['\n'].drop_last() =~= Seq::<char>::empty());
        assert(trimmed_len(seq!['\n'].drop_last()) == 0);
    }
    assert(trimmed_len(seq![' ']) == 0) by {
        assert(seq![' '].drop_last() =~= Seq::<char>::empty());
        assert(trimmed_len(seq![' '].drop_last()) == 0);
    }
    assert(trimmed_len(word) == word.len());
    body.index_of_first_ensures(' ');
    if trimmed_len(argument) == 0 {
        assert(body =~= word);
    } else {
        let at = word.len() as int;
        assert(body =~= word + seq![' '] + trim_end(argument));
        assert(body[at] == ' ');
        assert(body.contains(' '));
        let found = body.index_of_first(' ')->0;
        if found < at {
            assert(word[found] == ' ');
            assert(word.contains(' '));
        }
        assert(found == at);
        assert(body.subrange(0, at) =~= word);
        assert(body.subrange(at + 1, body.len() as int) =~= trim_end(argument));
    }
}

/// What the server writes is never taken for a command of a client: an
/// `INFO`, `ERR` or `FROM` line, read as a command, has an unknown keyword
/// whatever its text.
pub proof fn lemma_server_lines_are_no_commands(user: Seq<char>, text: Seq<char>)
    ensures
        parse_line(info_line(text)) == Ok::<CommandView, ParseError>(CommandView::UnknownCommand),
        parse_line(err_line(text)) == Ok::<CommandView, ParseError>(CommandView::UnknownCommand),
        parse_line(from_line(user, text)) == Ok::<CommandView, ParseError>(
            CommandView::UnknownCommand,
        ),
{
    let info_word = seq!['I', 'N', 'F', 'O'];
    let err_word = seq!['E', 'R', 'R'];
    let from_word = seq!['F', 'R', 'O', 'M'];
    lemma_split_framed(info_word, text);
    lemma_split_framed(err_word, text);
    lemma_split_framed(from_word, user + seq![' '] + text);
    assert(info_line(text) =~= info_word + seq![' '] + text + seq!['\n']);
    assert(err_line(text) =~= err_word + seq![' '] + text + seq!['\n']);
    assert(from_line(user, text) =~= from_word + seq![' '] + (user + seq![' '] + text) + seq![
        '\n',
    ]);
    assert(info_word[0] != join_keyword()[0] && info_word[0] != msg_keyword()[0] && info_word[0]
        != leave_keyword()[0]);
    assert(err_word[0] != join_keyword()[0] && err_word[0] != msg_keyword()[0] && err_word[0]
        != leave_keyword()[0]);
    assert(from_word[0] != join_keyword()[0] && from_word[0] != msg_keyword()[0] && from_word[0]
        != leave_keyword()[0]);
}

} // verus!
