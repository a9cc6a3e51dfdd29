use triagebot::manage_notifs::{
    parse_input, parse_position, Identifier, NotifCommand, NotifCommandKind, ParseError,
};
use triagebot::token::{LexError, Token, Tokenizer};

fn parse(text: &str) -> Result<Option<NotifCommand>, ParseError> {
    let mut toks = Tokenizer::new(text);
    NotifCommand::parse(&mut toks)
}

fn kind(text: &str) -> NotifCommandKind {
    parse(text).unwrap().unwrap().command
}

#[test]
fn tokenizer_reads_words_quotes_and_terminators() {
    let mut t = Tokenizer::new("add \"https://x/y\" see foo.rs; next.\nend");
    assert_eq!(t.next_token(), Ok(Some(Token::Word("add"))));
    assert_eq!(t.next_token(), Ok(Some(Token::Quote("https://x/y"))));
    assert_eq!(t.next_token(), Ok(Some(Token::Word("see"))));
    assert_eq!(t.next_token(), Ok(Some(Token::Word("foo.rs"))));
    assert_eq!(t.next_token(), Ok(Some(Token::Semi)));
    assert_eq!(t.next_token(), Ok(Some(Token::Word("next"))));
    assert_eq!(t.next_token(), Ok(Some(Token::Dot)));
    assert_eq!(t.next_token(), Ok(Some(Token::EndOfLine)));
    assert_eq!(t.next_token(), Ok(Some(Token::Word("end"))));
    assert_eq!(t.next_token(), Ok(None));
    assert_eq!(t.next_token(), Ok(None));
}

#[test]
fn peek_does_not_advance_and_copies_are_independent() {
    let mut t = Tokenizer::new("  one two");
    assert_eq!(t.peek_token(), Ok(Some(Token::Word("one"))));
    let mut copy = t;
    assert_eq!(copy.next_token(), Ok(Some(Token::Word("one"))));
    assert_eq!(copy.next_token(), Ok(Some(Token::Word("two"))));
    assert_eq!(t.position(), 0);
    assert_eq!(t.next_token(), Ok(Some(Token::Word("one"))));
}

#[test]
fn unterminated_quote_names_its_position() {
    let mut t = Tokenizer::new("ab \"cd");
    assert_eq!(t.next_token(), Ok(Some(Token::Word("ab"))));
    assert_eq!(t.next_token(), Err(LexError { position: 3 }));
    assert_eq!(t.position(), 2);
}

#[test]
fn add_with_description_stops_at_semicolon() {
    assert_eq!(
        kind("add \"https://x/y\" some description here;"),
        NotifCommandKind::Add("https://x/y".to_string(), "some description here".to_string())
    );
}

#[test]
fn add_without_description_is_empty() {
    assert_eq!(
        kind("add \"https://x/y\""),
        NotifCommandKind::Add("https://x/y".to_string(), String::new())
    );
    assert_eq!(
        kind("add \"https://x/y\"."),
        NotifCommandKind::Add("https://x/y".to_string(), String::new())
    );
}

#[test]
fn description_keeps_quotes_and_stops_at_line_end() {
    assert_eq!(
        kind("add \"u\" see \"this\" now\nmore"),
        NotifCommandKind::Add("u".to_string(), "see \"this\" now".to_string())
    );
}

#[test]
fn acknowledge_zero_is_an_error() {
    assert_eq!(parse("acknowledge 0"), Err(ParseError::InvalidPosition("0".to_string())));
    assert_eq!(parse("move 0 1"), Err(ParseError::InvalidPosition("0".to_string())));
    assert_eq!(parse("move 1 x"), Err(ParseError::InvalidPosition("x".to_string())));
}

#[test]
fn acknowledge_quoted_url_is_an_url() {
    assert_eq!(
        kind("ack \"https://x/y\""),
        NotifCommandKind::Acknowledge(Identifier::Url("https://x/y".to_string()))
    );
    assert_eq!(kind("ack 1"), NotifCommandKind::Acknowledge(Identifier::Index(1)));
    assert_eq!(kind("acknowledge 12"), NotifCommandKind::Acknowledge(Identifier::Index(12)));
}

#[test]
fn committed_keyword_with_bad_arguments_is_an_error() {
    assert_eq!(parse("ack"), Err(ParseError::ExpectedIdentifier));
    assert_eq!(parse("ack ;"), Err(ParseError::ExpectedIdentifier));
    assert_eq!(parse("add https://x/y"), Err(ParseError::ExpectedUrl));
    assert_eq!(parse("move 1"), Err(ParseError::ExpectedPosition));
    assert_eq!(parse("meta"), Err(ParseError::ExpectedPosition));
    assert_eq!(parse("add \"x"), Err(ParseError::Lex(LexError { position: 4 })));
}

#[test]
fn move_and_meta() {
    assert_eq!(kind("move 3 1"), NotifCommandKind::Move(3, 1));
    assert_eq!(
        kind("meta 2 waiting on a fix."),
        NotifCommandKind::Meta(2, "waiting on a fix".to_string())
    );
    assert_eq!(kind("meta 2"), NotifCommandKind::Meta(2, String::new()));
}

#[test]
fn delegation_prefix() {
    let c = parse("as alice ack 2").unwrap().unwrap();
    assert_eq!(c.user_override, Some("alice".to_string()));
    assert_eq!(c.command, NotifCommandKind::Acknowledge(Identifier::Index(2)));
    assert_eq!(parse("as"), Ok(None));
    assert_eq!(parse("as ;"), Ok(None));
}

#[test]
fn unknown_keyword_is_no_command_and_keeps_the_cursor() {
    let mut toks = Tokenizer::new("label +T-compiler");
    assert_eq!(NotifCommand::parse(&mut toks), Ok(None));
    assert_eq!(toks.position(), 0);
    assert_eq!(parse(""), Ok(None));
    assert_eq!(parse("\"ack\" 1"), Ok(None));
}

#[test]
fn cursor_moves_past_a_command() {
    let mut toks = Tokenizer::new("move 1 2; rest");
    assert!(NotifCommand::parse(&mut toks).unwrap().is_some());
    assert_eq!(toks.position(), 8);
    assert_eq!(toks.next_token(), Ok(Some(Token::Semi)));
}

#[test]
fn positions_parse_in_decimal() {
    assert_eq!(parse_position("1"), Some(1));
    assert_eq!(parse_position("0042"), Some(42));
    assert_eq!(parse_position("0"), None);
    assert_eq!(parse_position(""), None);
    assert_eq!(parse_position("-1"), None);
    assert_eq!(parse_position("18446744073709551615"), Some(usize::MAX));
    assert_eq!(parse_position("18446744073709551616"), None);
}

#[test]
fn error_descriptions() {
    assert_eq!(
        ParseError::InvalidPosition("0".to_string()).describe(),
        "invalid position `0`: positions start at 1"
    );
    assert_eq!(
        ParseError::Lex(LexError { position: 17 }).describe(),
        "unterminated quote at position 17"
    );
    assert_eq!(
        parse_input("move 0 1"),
        Err("Parsing label command failed: invalid position `0`: positions start at 1"
            .to_string())
    );
    assert_eq!(parse_input("hello"), Ok(None));
}

#[test]
fn delegation_notice_text() {
    assert_eq!(
        triagebot::manage_notifs::delegation_notice("Ann Lee", "ann", "ack 1", "Acknowledged:"),
        "Ann Lee (ann) ran `ack 1` with output `Acknowledged:` as you."
    );
}
