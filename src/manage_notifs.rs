//! Grammar of the notification-management commands:
//!
//! ```text
//! [as <user>] (acknowledge | ack) (<position> | "<url>")
//! [as <user>] add "<url>" <description...>
//! [as <user>] move <position> <position>
//! [as <user>] meta <position> <description...>
//! ```
//!
//! A description runs until `;`, a full stop, a line break or the end of the
//! text. Once a command keyword is read the grammar is committed: a malformed
//! rest is an error, never "no command".
use vstd::prelude::*;
use vstd::string::{StrSliceExecFns, StringExecFns};
use crate::text::{decimal, push_decimal, str_eq};
use crate::token::{lex, LexError, LexStep, Token, TokenModel, Tokenizer};

verus! {

/// What `acknowledge` names: a 1-based position or the URL of entries.
#[derive(Debug, Clone, PartialEq, Eq)]
pub enum Identifier {
    Index(usize),
    Url(String),
}

#[derive(Debug, Clone, PartialEq, Eq)]
pub enum NotifCommandKind {
    Acknowledge(Identifier),
    Add(String, String),
    Move(usize, usize),
    Meta(usize, String),
}

#[derive(Debug, Clone, PartialEq, Eq)]
pub struct NotifCommand {
    pub command: NotifCommandKind,
    pub user_override: Option<String>,
}

/// Why a recognized command could not be read.
#[derive(Debug, Clone, PartialEq, Eq)]
pub enum ParseError {
    /// A quote was left open.
    Lex(LexError),
    /// `acknowledge` not followed by a position or a quoted URL.
    ExpectedIdentifier,
    /// `add` not followed by a quoted URL.
    ExpectedUrl,
    /// `move` or `meta` not followed by a position.
    ExpectedPosition,
    /// A word where a position is due that is not a whole number from 1 up.
    InvalidPosition(String),
}

pub enum IdentifierModel {
    Index(int),
    Url(Seq<char>),
}

pub enum KindModel {
    Acknowledge(IdentifierModel),
    Add(Seq<char>, Seq<char>),
    Move(int, int),
    Meta(int, Seq<char>),
}

pub struct CommandModel {
    pub command: KindModel,
    pub user_override: Option<Seq<char>>,
}

pub enum ErrorModel {
    Lex(int),
    ExpectedIdentifier,
    ExpectedUrl,
    ExpectedPosition,
    InvalidPosition(Seq<char>),
}

impl View for Identifier {
    type V = IdentifierModel;

    open spec fn view(&self) -> IdentifierModel {
        match self {
            Identifier::Index(i) => IdentifierModel::Index(*i as int),
            Identifier::Url(u) => IdentifierModel::Url(u@),
        }
    }
}

impl View for NotifCommandKind {
    type V = KindModel;

    open spec fn view(&self) -> KindModel {
        match self {
            NotifCommandKind::Acknowledge(id) => KindModel::Acknowledge(id@),
            NotifCommandKind::Add(u, d) => KindModel::Add(u@, d@),
            NotifCommandKind::Move(a, b) => KindModel::Move(*a as int, *b as int),
            NotifCommandKind::Meta(p, d) => KindModel::Meta(*p as int, d@),
        }
    }
}

impl View for NotifCommand {
    type V = CommandModel;

    open spec fn view(&self) -> CommandModel {
        CommandModel {
            command: self.command@,
            user_override: match self.user_override {
                Some(u) => Some(u@),
                None => None,
            },
        }
    }
}

impl View for ParseError {
    type V = ErrorModel;

    open spec fn view(&self) -> ErrorModel {
        match self {
            ParseError::Lex(e) => ErrorModel::Lex(e.position as int),
            ParseError::ExpectedIdentifier => ErrorModel::ExpectedIdentifier,
            ParseError::ExpectedUrl => ErrorModel::ExpectedUrl,
            ParseError::ExpectedPosition => ErrorModel::ExpectedPosition,
            ParseError::InvalidPosition(w) => ErrorModel::InvalidPosition(w@),
        }
    }
}

pub open spec fn is_digit(c: char) -> bool {
    '0' <= c <= '9'
}

/// Value of a string of decimal digits.
pub open spec fn digits_value(w: Seq<char>) -> int
    decreases w.len(),
{
    if w.len() == 0 {
        0
    } else {
        digits_value(w.drop_last()) * 10 + (w.last() as int - '0' as int)
    }
}

/// A word that denotes a 1-based position that fits in a `usize`.
pub open spec fn valid_position(w: Seq<char>) -> bool {
    &&& w.len() > 0
    &&& forall|i: int| 0 <= i < w.len() ==> is_digit(#[trigger] w[i])
    &&& 1 <= digits_value(w) <= usize::MAX
}

/// How a token reads inside a description.
pub open spec fn piece(t: TokenModel) -> Seq<char> {
    match t {
        TokenModel::Word(w) => w,
        TokenModel::Quote(q) => seq!['"'] + q + seq!['"'],
        _ => seq![],
    }
}

pub open spec fn is_terminator(t: TokenModel) -> bool {
    t is Semi || t is Dot || t is EndOfLine
}

/// Pieces joined by single spaces.
pub open spec fn join_words(ps: Seq<Seq<char>>) -> Seq<char>
    decreases ps.len(),
{
    if ps.len() == 0 {
        seq![]
    } else if ps.len() == 1 {
        ps[0]
    } else {
        join_words(ps.drop_last()) + seq![' '] + ps.last()
    }
}

/// The tokens of a description from offset `pos`, and where it ends
/// (before its terminator); or the offset of an unterminated quote.
pub open spec fn description_from(s: Seq<char>, pos: int) -> Result<(Seq<Seq<char>>, int), int>
    decreases s.len() - pos,
{
    match lex(s, pos) {
        LexStep::Fail(at) => Err(at),
        LexStep::Done => Ok((seq![], pos)),
        LexStep::Tok(t, p) => {
            if is_terminator(t) || p <= pos || p > s.len() {
                Ok((seq![], pos))
            } else {
                match description_from(s, p) {
                    Err(at) => Err(at),
                    Ok((ps, e)) => Ok((seq![piece(t)] + ps, e)),
                }
            }
        },
    }
}

/// A position argument at `pos`: its value and the offset after it.
pub open spec fn position_arg(s: Seq<char>, pos: int) -> Result<(int, int), ErrorModel> {
    match lex(s, pos) {
        LexStep::Fail(at) => Err(ErrorModel::Lex(at)),
        LexStep::Tok(TokenModel::Word(w), p) => if valid_position(w) {
            Ok((digits_value(w), p))
        } else {
            Err(ErrorModel::InvalidPosition(w))
        },
        _ => Err(ErrorModel::ExpectedPosition),
    }
}

/// Reads a description at `pos` and builds a command from it.
pub open spec fn with_description(s: Seq<char>, pos: int, f: spec_fn(Seq<char>) -> KindModel) -> Result<(KindModel, int), ErrorModel> {
    match description_from(s, pos) {
        Err(at) => Err(ErrorModel::Lex(at)),
        Ok((ps, e)) => Ok((f(join_words(ps)), e)),
    }
}

/// The command that follows the keyword `kw`, read from `pos`.
pub open spec fn command_after(s: Seq<char>, kw: Seq<char>, pos: int) -> Result<(KindModel, int), ErrorModel> {
    if kw == "acknowledge"@ || kw == "ack"@ {
        match lex(s, pos) {
            LexStep::Fail(at) => Err(ErrorModel::Lex(at)),
            LexStep::Tok(TokenModel::Quote(u), p) => Ok(
                (KindModel::Acknowledge(IdentifierModel::Url(u)), p),
            ),
            LexStep::Tok(TokenModel::Word(_), _) => match position_arg(s, pos) {
                Err(e) => Err(e),
                Ok((v, p)) => Ok((KindModel::Acknowledge(IdentifierModel::Index(v)), p)),
            },
            _ => Err(ErrorModel::ExpectedIdentifier),
        }
    } else if kw == "add"@ {
        match lex(s, pos) {
            LexStep::Fail(at) => Err(ErrorModel::Lex(at)),
            LexStep::Tok(TokenModel::Quote(u), p) => with_description(
                s,
                p,
                |d: Seq<char>| KindModel::Add(u, d),
            ),
            _ => Err(ErrorModel::ExpectedUrl),
        }
    } else if kw == "move"@ {
        match position_arg(s, pos) {
            Err(e) => Err(e),
            Ok((from, p)) => match position_arg(s, p) {
                Err(e) => Err(e),
                Ok((to, q)) => Ok((KindModel::Move(from, to), q)),
            },
        }
    } else {
        match position_arg(s, pos) {
            Err(e) => Err(e),
            Ok((idx, p)) => with_description(s, p, |d: Seq<char>| KindModel::Meta(idx, d)),
        }
    }
}

pub open spec fn is_keyword(w: Seq<char>) -> bool {
    w == "acknowledge"@ || w == "ack"@ || w == "add"@ || w == "move"@ || w == "meta"@
}

/// The command read from `pos` without the delegation prefix, given the
/// delegate already read.
pub open spec fn command_from(s: Seq<char>, pos: int, user: Option<Seq<char>>) -> Result<Option<(CommandModel, int)>, ErrorModel> {
    match lex(s, pos) {
        LexStep::Fail(at) => Err(ErrorModel::Lex(at)),
        LexStep::Tok(TokenModel::Word(kw), p) => if is_keyword(kw) {
            match command_after(s, kw, p) {
                Err(e) => Err(e),
                Ok((k, e)) => Ok(Some((CommandModel { command: k, user_override: user }, e))),
            }
        } else {
            Ok(None)
        },
        _ => Ok(None),
    }
}

/// A notification command read from offset `pos` of `s`: no command, a
/// command and the offset after it, or an error.
pub open spec fn parse_notif(s: Seq<char>, pos: int) -> Result<Option<(CommandModel, int)>, ErrorModel> {
    match lex(s, pos) {
        LexStep::Fail(at) => Err(ErrorModel::Lex(at)),
        LexStep::Tok(TokenModel::Word(w), p) => if w == "as"@ {
            match lex(s, p) {
                LexStep::Fail(at) => Err(ErrorModel::Lex(at)),
                LexStep::Tok(TokenModel::Word(user), q) => command_from(s, q, Some(user)),
                _ => Ok(None),
            }
        } else {
            command_from(s, pos, None)
        },
        _ => Ok(None),
    }
}

pub open spec fn parse_result_view(r: Result<Option<NotifCommand>, ParseError>) -> Result<Option<CommandModel>, ErrorModel> {
    match r {
        Ok(None) => Ok(None),
        Ok(Some(c)) => Ok(Some(c@)),
        Err(e) => Err(e@),
    }
}

pub open spec fn spec_parse_result(m: Result<Option<(CommandModel, int)>, ErrorModel>) -> Result<Option<CommandModel>, ErrorModel> {
    match m {
        Ok(None) => Ok(None),
        Ok(Some((c, _))) => Ok(Some(c)),
        Err(e) => Err(e),
    }
}

proof fn lemma_digits_value_nonneg(w: Seq<char>)
    requires
        forall|i: int| 0 <= i < w.len() ==> is_digit(#[trigger] w[i]),
    ensures
        digits_value(w) >= 0,
    decreases w.len(),
{
    if w.len() > 0 {
        assert(is_digit(w[w.len() - 1]));
        lemma_digits_value_nonneg(w.drop_last());
    }
}

/// A prefix of a string of digits is worth no more than the whole.
proof fn lemma_digits_value_prefix(w: Seq<char>, k: int)
    requires
        0 <= k <= w.len(),
        forall|i: int| 0 <= i < w.len() ==> is_digit(#[trigger] w[i]),
    ensures
        digits_value(w.subrange(0, k)) <= digits_value(w),
    decreases w.len(),
{
    if k < w.len() {
        let d = w.drop_last();
        assert(d.subrange(0, k) =~= w.subrange(0, k));
        lemma_digits_value_prefix(d, k);
        lemma_digits_value_nonneg(d);
        assert(is_digit(w[w.len() - 1]));
    } else {
        assert(w.subrange(0, k) =~= w);
    }
}

/// Reads a 1-based position written in decimal.
pub fn parse_position(w: &str) -> (r: Option<usize>)
    ensures
        r.is_some() == valid_position(w@),
        r matches Some(v) ==> v as int == digits_value(w@),
{
    let n = w.unicode_len();
    if n == 0 {
        return None;
    }
    let mut acc: usize = 0;
    let mut i: usize = 0;
    while i < n
        invariant
            n == w@.len(),
            i <= n,
            forall|j: int| 0 <= j < i ==> is_digit(#[trigger] w@[j]),
            acc as int == digits_value(w@.subrange(0, i as int)),
        decreases n - i,
    {
        let c = w.get_char(i);
        if !('0' <= c && c <= '9') {
            assert(!is_digit(w@[i as int]));
            return None;
        }
        let d: usize = (c as u32 - '0' as u32) as usize;
        assert(w@.subrange(0, i + 1).drop_last() =~= w@.subrange(0, i as int));
        if acc > (usize::MAX - d) / 10 {
            proof {
                assert(acc * 10 + d > usize::MAX) by (nonlinear_arith)
                    requires
                        acc > (usize::MAX - d) / 10,
                        d <= 9,
                ;
                if forall|j: int| 0 <= j < w@.len() ==> is_digit(#[trigger] w@[j]) {
                    lemma_digits_value_prefix(w@, i + 1);
                }
            }
            return None;
        }
        acc = acc * 10 + d;
        i = i + 1;
    }
    assert(w@.subrange(0, n as int) =~= w@);
    if acc == 0 {
        return None;
    }
    Some(acc)
}

fn read_position(toks: &mut Tokenizer) -> (r: Result<usize, ParseError>)
    requires
        old(toks).wf(),
    ensures
        final(toks).wf(),
        final(toks).text() == old(toks).text(),
        match position_arg(old(toks).text(), old(toks).offset()) {
            Ok((v, p)) => r matches Ok(x) && x as int == v && final(toks).offset() == p,
            Err(e) => r matches Err(x) && x@ == e,
        },
{
    match toks.next_token() {
        Err(e) => Err(ParseError::Lex(e)),
        Ok(Some(Token::Word(w))) => match parse_position(w) {
            Some(v) => Ok(v),
            None => Err(ParseError::InvalidPosition(w.to_owned())),
        },
        _ => Err(ParseError::ExpectedPosition),
    }
}

fn read_description(toks: &mut Tokenizer) -> (r: Result<String, ParseError>)
    requires
        old(toks).wf(),
    ensures
        final(toks).wf(),
        final(toks).text() == old(toks).text(),
        match description_from(old(toks).text(), old(toks).offset()) {
            Ok((ps, e)) => r matches Ok(d) && d@ == join_words(ps) && final(toks).offset() == e,
            Err(at) => r matches Err(x) && x@ == ErrorModel::Lex(at),
        },
{
    let ghost s = toks.text();
    let ghost start = toks.offset();
    let ghost mut collected: Seq<Seq<char>> = seq![];
    let mut description = String::new();
    let mut empty = true;
    proof {
        reveal_strlit(" ");
        reveal_strlit("\"");
        assert(collected + seq![] =~= collected);
        assert forall|ps: Seq<Seq<char>>| collected + ps == ps by {
            assert(collected + ps =~= ps);
        }
    }
    loop
        invariant
            toks.wf(),
            toks.text() == s,
            s == old(toks).text(),
            start == old(toks).offset(),
            0 <= toks.offset() <= s.len(),
            description@ == join_words(collected),
            empty == (collected.len() == 0),
            description_from(s, start) == match description_from(s, toks.offset()) {
                Err(a) => Err(a),
                Ok((ps, e)) => Ok((collected + ps, e)),
            },
        decreases s.len() - toks.offset(),
    {
        let ghost cur = toks.offset();
        proof {
            crate::token::lemma_lex_bounds(s, cur);
        }
        let mut probe = *toks;
        let next = probe.next_token();
        let ghost pc = match next {
            Ok(Some(t)) => piece(t@),
            _ => seq![],
        };
        match next {
            Err(e) => {
                return Err(ParseError::Lex(e));
            },
            Ok(None) => {
                assert(collected + seq![] =~= collected);
                return Ok(description);
            },
            Ok(Some(Token::Semi)) | Ok(Some(Token::Dot)) | Ok(Some(Token::EndOfLine)) => {
                assert(collected + seq![] =~= collected);
                return Ok(description);
            },
            Ok(Some(Token::Word(w))) => {
                if !empty {
                    description.append(" ");
                }
                description.append(w);
            },
            Ok(Some(Token::Quote(q))) => {
                if !empty {
                    description.append(" ");
                }
                description.append("\"");
                description.append(q);
                description.append("\"");
            },
        }
        proof {
            reveal_strlit(" ");
            reveal_strlit("\"");
            let c2 = collected.push(pc);
            assert forall|ps: Seq<Seq<char>>| collected + (seq![pc] + ps) == c2 + ps by {
                assert(collected + (seq![pc] + ps) =~= c2 + ps);
            }
            if collected.len() > 0 {
                assert(c2.drop_last() =~= collected);
                assert(join_words(c2) == join_words(collected) + seq![' '] + pc);
            } else {
                assert(join_words(c2) == pc);
            }
            assert(description@ =~= join_words(c2));
            collected = c2;
        }
        *toks = probe;
        empty = false;
    }
}

impl NotifCommand {
    /// Reads a notification command at the cursor. On a command the cursor
    /// moves past it; on no command or an error it stays where it was.
    pub fn parse<'a>(input: &mut Tokenizer<'a>) -> (r: Result<Option<NotifCommand>, ParseError>)
        requires
            old(input).wf(),
        ensures
            final(input).wf(),
            parse_result_view(r) == spec_parse_result(
                parse_notif(old(input).text(), old(input).offset()),
            ),
            match parse_notif(old(input).text(), old(input).offset()) {
                Ok(Some((_, e))) => final(input).text() == old(input).text() && final(input).offset()
                    == e,
                _ => *final(input) == *old(input),
            },
    {
        let ghost s = input.text();
        let mut toks = *input;
        let mut user_override: Option<String> = None;
        match toks.next_token() {
            Err(e) => {
                return Err(ParseError::Lex(e));
            },
            Ok(Some(Token::Word(w))) => {
                if str_eq(w, "as") {
                    match toks.next_token() {
                        Err(e) => {
                            return Err(ParseError::Lex(e));
                        },
                        Ok(Some(Token::Word(user))) => {
                            user_override = Some(user.to_owned());
                        },
                        _ => {
                            return Ok(None);
                        },
                    }
                } else {
                    toks = *input;
                }
            },
            _ => {
                return Ok(None);
            },
        }
        let ghost user_model = match &user_override {
            Some(u) => Some(u@),
            None => None,
        };
        assert(parse_notif(s, input.offset()) == command_from(s, toks.offset(), user_model));
        let kw = match toks.next_token() {
            Err(e) => {
                return Err(ParseError::Lex(e));
            },
            Ok(Some(Token::Word(kw))) => kw,
            _ => {
                return Ok(None);
            },
        };
        let command = if str_eq(kw, "acknowledge") || str_eq(kw, "ack") {
            let mut probe = toks;
            match probe.next_token() {
                Err(e) => {
                    return Err(ParseError::Lex(e));
                },
                Ok(Some(Token::Quote(u))) => {
                    toks = probe;
                    NotifCommandKind::Acknowledge(Identifier::Url(u.to_owned()))
                },
                Ok(Some(Token::Word(_))) => match read_position(&mut toks) {
                    Ok(v) => NotifCommandKind::Acknowledge(Identifier::Index(v)),
                    Err(e) => {
                        return Err(e);
                    },
                },
                _ => {
                    return Err(ParseError::ExpectedIdentifier);
                },
            }
        } else if str_eq(kw, "add") {
            match toks.next_token() {
                Err(e) => {
                    return Err(ParseError::Lex(e));
                },
                Ok(Some(Token::Quote(u))) => match read_description(&mut toks) {
                    Ok(d) => NotifCommandKind::Add(u.to_owned(), d),
                    Err(e) => {
                        return Err(e);
                    },
                },
                _ => {
                    return Err(ParseError::ExpectedUrl);
                },
            }
        } else if str_eq(kw, "move") {
            let from = match read_position(&mut toks) {
                Ok(v) => v,
                Err(e) => {
                    return Err(e);
                },
            };
            let to = match read_position(&mut toks) {
                Ok(v) => v,
                Err(e) => {
                    return Err(e);
                },
            };
            NotifCommandKind::Move(from, to)
        } else if str_eq(kw, "meta") {
            let idx = match read_position(&mut toks) {
                Ok(v) => v,
                Err(e) => {
                    return Err(e);
                },
            };
            match read_description(&mut toks) {
                Ok(d) => NotifCommandKind::Meta(idx, d),
                Err(e) => {
                    return Err(e);
                },
            }
        } else {
            return Ok(None);
        };
        *input = toks;
        Ok(Some(NotifCommand { command, user_override }))
    }
}

pub open spec fn error_text(e: ErrorModel) -> Seq<char> {
    match e {
        ErrorModel::Lex(at) => "unterminated quote at position "@ + decimal(at as nat),
        ErrorModel::ExpectedIdentifier => "expected a position or a quoted URL"@,
        ErrorModel::ExpectedUrl => "expected a quoted URL"@,
        ErrorModel::ExpectedPosition => "expected a position"@,
        ErrorModel::InvalidPosition(w) => "invalid position `"@ + w + "`: positions start at 1"@,
    }
}

impl ParseError {
    /// A human-readable account of the error.
    pub fn describe(&self) -> (r: String)
        ensures
            r@ == error_text(self@),
    {
        match self {
            ParseError::Lex(e) => {
                let mut s = String::from_str("unterminated quote at position ");
                push_decimal(&mut s, e.position as u64);
                s
            },
            ParseError::ExpectedIdentifier => String::from_str(
                "expected a position or a quoted URL",
            ),
            ParseError::ExpectedUrl => String::from_str("expected a quoted URL"),
            ParseError::ExpectedPosition => String::from_str("expected a position"),
            ParseError::InvalidPosition(w) => {
                let mut s = String::from_str("invalid position `");
                s.append(w.as_str());
                s.append("`: positions start at 1");
                s
            },
        }
    }
}

/// Reads a notification command from the text of a chat message: no
/// command, a command, or the message that reports a malformed one.
pub fn parse_input(text: &str) -> (r: Result<Option<NotifCommand>, String>)
    ensures
        match parse_notif(text@, 0) {
            Ok(None) => r matches Ok(None),
            Ok(Some((c, _))) => r matches Ok(Some(x)) && x@ == c,
            Err(e) => r matches Err(m) && m@ == "Parsing label command failed: "@
                + error_text(e),
        },
{
    let mut toks = Tokenizer::new(text);
    match NotifCommand::parse(&mut toks) {
        Ok(c) => Ok(c),
        Err(e) => {
            // The chat handlers share this prefix, the relabel one included.
            let mut m = String::from_str("Parsing label command failed: ");
            let d = e.describe();
            m.append(d.as_str());
            Err(m)
        },
    }
}

pub open spec fn delegation_text(
    full_name: Seq<char>,
    short_name: Seq<char>,
    command: Seq<char>,
    output: Seq<char>,
) -> Seq<char> {
    full_name + " ("@ + short_name + ") ran `"@ + command + "` with output `"@ + output
        + "` as you."@
}

/// The notice sent to a user on whose behalf another user ran a command.
pub fn delegation_notice(full_name: &str, short_name: &str, command: &str, output: &str) -> (r:
    String)
    ensures
        r@ == delegation_text(full_name@, short_name@, command@, output@),
{
    let mut s = String::from_str(full_name);
    s.append(" (");
    s.append(short_name);
    s.append(") ran `");
    s.append(command);
    s.append("` with output `");
    s.append(output);
    s.append("` as you.");
    s
}

} // verus!
