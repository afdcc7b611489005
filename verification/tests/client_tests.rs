use async_chat::client::{self, Input};
use async_chat::protocol::{self, Command, ParseError};

#[test]
fn requests_are_lines_of_the_protocol() {
    assert_eq!(client::join("tester"), "JOIN tester\n");
    assert_eq!(client::msg("hello there"), "MSG hello there\n");
    assert_eq!(client::msg(""), "MSG \n");
    assert_eq!(client::leave(), "LEAVE\n");
}

#[test]
fn requests_parse_back_on_the_server() {
    assert_eq!(
        protocol::parse(&client::join("tester")),
        Ok(Command::Join("tester".to_string()))
    );
    assert_eq!(
        protocol::parse(&client::msg("hello there")),
        Ok(Command::Msg("hello there".to_string()))
    );
    assert_eq!(protocol::parse(&client::msg("padded  ")), Ok(Command::Msg("padded".to_string())));
    assert_eq!(protocol::parse(&client::msg("")), Ok(Command::Msg(String::new())));
    assert_eq!(protocol::parse(&client::join("")), Err(ParseError::MissingUsername));
    assert_eq!(protocol::parse(&client::join(" \t")), Err(ParseError::MissingUsername));
    assert_eq!(protocol::parse(&client::leave()), Ok(Command::Leave));
}

#[test]
fn error_answers_start_with_err_and_a_space() {
    assert!(client::is_error("ERR username taken\n"));
    assert!(client::is_error("ERR "));
    assert!(client::is_error(&protocol::err("")));
    assert!(!client::is_error("INFO joined chat\n"));
    assert!(!client::is_error("ERR"));
    assert!(!client::is_error("ERR\n"));
    assert!(!client::is_error(" ERR x\n"));
    assert!(!client::is_error("err x\n"));
    assert!(!client::is_error(""));
    assert!(!client::is_error(&protocol::info("ERR ")));
}

#[test]
fn typed_send_carries_the_text() {
    assert_eq!(client::read_input("send hello\n"), Input::Send("hello".to_string()));
    assert_eq!(client::read_input("send hello world  \n"), Input::Send("hello world".to_string()));
    assert_eq!(client::read_input("send  x\n"), Input::Send(" x".to_string()));
    assert_eq!(client::read_input("send h\u{e9}\n"), Input::Send("h\u{e9}".to_string()));
}

#[test]
fn typed_leave_ends_the_session() {
    assert_eq!(client::read_input("leave\n"), Input::Leave);
    assert_eq!(client::read_input("leave"), Input::Leave);
    assert_eq!(client::read_input("leave  \r\n"), Input::Leave);
}

#[test]
fn typed_blank_line_asks_for_nothing() {
    assert_eq!(client::read_input(""), Input::Blank);
    assert_eq!(client::read_input("\n"), Input::Blank);
    assert_eq!(client::read_input(" \t\n"), Input::Blank);
}

#[test]
fn anything_else_typed_is_unknown() {
    assert_eq!(client::read_input("send\n"), Input::Unknown);
    assert_eq!(client::read_input("send \n"), Input::Unknown);
    assert_eq!(client::read_input("sendhello\n"), Input::Unknown);
    assert_eq!(client::read_input("leave now\n"), Input::Unknown);
    assert_eq!(client::read_input("LEAVE\n"), Input::Unknown);
    assert_eq!(client::read_input(" leave\n"), Input::Unknown);
    assert_eq!(client::read_input("quit\n"), Input::Unknown);
}
