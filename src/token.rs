//! Lexer for command text: words, quoted literals and the few punctuation
//! marks that end a command.
use vstd::prelude::*;
use vstd::string::StrSliceExecFns;

verus! {

/// A lexical token; text tokens borrow from the input.
#[derive(Debug, Clone, Copy, PartialEq, Eq)]
pub enum Token<'a> {
    Word(&'a str),
    Quote(&'a str),
    Semi,
    Dot,
    EndOfLine,
}

/// Mathematical model of a token.
pub enum TokenModel {
    Word(Seq<char>),
    Quote(Seq<char>),
    Semi,
    Dot,
    EndOfLine,
}

impl<'a> View for Token<'a> {
    type V = TokenModel;

    open spec fn view(&self) -> TokenModel {
        match *self {
            Token::Word(w) => TokenModel::Word(w@),
            Token::Quote(q) => TokenModel::Quote(q@),
            Token::Semi => TokenModel::Semi,
            Token::Dot => TokenModel::Dot,
            Token::EndOfLine => TokenModel::EndOfLine,
        }
    }
}

/// The only lexical failure: a `"` with no closing `"`.
#[derive(Debug, Clone, Copy, PartialEq, Eq)]
pub struct LexError {
    /// Character offset of the opening quote.
    pub position: usize,
}

/// One step of the lexer on `s` from offset `pos`.
pub enum LexStep {
    /// End of input: no token.
    Done,
    /// A token, and the offset just after it.
    Tok(TokenModel, int),
    /// An unterminated quote opening at the given offset.
    Fail(int),
}

pub open spec fn is_space(c: char) -> bool {
    c == ' ' || c == '\t' || c == '\r'
}

/// Characters that always end a word.
pub open spec fn is_separator(c: char) -> bool {
    is_space(c) || c == '\n' || c == ';' || c == '"'
}

/// A `.` is a full stop (not part of a word such as `foo.rs`) when it is the
/// last character or is followed by a separator or another `.`.
pub open spec fn is_dot_at(s: Seq<char>, j: int) -> bool {
    &&& 0 <= j < s.len()
    &&& s[j] == '.'
    &&& (j + 1 == s.len() || is_separator(s[j + 1]) || s[j + 1] == '.')
}

pub open spec fn in_word(s: Seq<char>, j: int) -> bool {
    0 <= j < s.len() && !is_separator(s[j]) && !is_dot_at(s, j)
}

/// First offset at or after `i` that is not whitespace.
pub open spec fn skip_space(s: Seq<char>, i: int) -> int
    decreases s.len() - i,
{
    if i < 0 || i >= s.len() || !is_space(s[i]) {
        i
    } else {
        skip_space(s, i + 1)
    }
}

/// First offset at or after `i` that does not continue a word.
pub open spec fn word_end(s: Seq<char>, i: int) -> int
    decreases s.len() - i,
{
    if i < 0 || !in_word(s, i) {
        i
    } else {
        word_end(s, i + 1)
    }
}

/// First offset at or after `i` holding `"`, or the length of `s`.
pub open spec fn quote_end(s: Seq<char>, i: int) -> int
    decreases s.len() - i,
{
    if i < 0 || i >= s.len() || s[i] == '"' {
        i
    } else {
        quote_end(s, i + 1)
    }
}

/// What the lexer reads from offset `pos` of `s`.
pub open spec fn lex(s: Seq<char>, pos: int) -> LexStep {
    let i = skip_space(s, pos);
    if i >= s.len() {
        LexStep::Done
    } else if s[i] == ';' {
        LexStep::Tok(TokenModel::Semi, i + 1)
    } else if s[i] == '\n' {
        LexStep::Tok(TokenModel::EndOfLine, i + 1)
    } else if is_dot_at(s, i) {
        LexStep::Tok(TokenModel::Dot, i + 1)
    } else if s[i] == '"' {
        let e = quote_end(s, i + 1);
        if e >= s.len() {
            LexStep::Fail(i)
        } else {
            LexStep::Tok(TokenModel::Quote(s.subrange(i + 1, e)), e + 1)
        }
    } else {
        let e = word_end(s, i);
        LexStep::Tok(TokenModel::Word(s.subrange(i, e)), e)
    }
}

/// What `next_token` returns for a lexer step.
pub open spec fn step_result(st: LexStep) -> Result<Option<TokenModel>, int> {
    match st {
        LexStep::Done => Ok(None),
        LexStep::Tok(t, _) => Ok(Some(t)),
        LexStep::Fail(at) => Err(at),
    }
}

/// Where the cursor stands after a lexer step from `pos` on `s`.
pub open spec fn step_pos(s: Seq<char>, pos: int, st: LexStep) -> int {
    match st {
        LexStep::Done => s.len() as int,
        LexStep::Tok(_, p) => p,
        LexStep::Fail(_) => pos,
    }
}

pub open spec fn token_result_view(r: Result<Option<Token>, LexError>) -> Result<
    Option<TokenModel>,
    int,
> {
    match r {
        Ok(None) => Ok(None),
        Ok(Some(t)) => Ok(Some(t@)),
        Err(e) => Err(e.position as int),
    }
}

proof fn lemma_skip_space_bounds(s: Seq<char>, i: int)
    requires
        0 <= i <= s.len(),
    ensures
        i <= skip_space(s, i) <= s.len(),
        skip_space(s, i) < s.len() ==> !is_space(s[skip_space(s, i)]),
    decreases s.len() - i,
{
    if i < s.len() && is_space(s[i]) {
        lemma_skip_space_bounds(s, i + 1);
    }
}

proof fn lemma_word_end_bounds(s: Seq<char>, i: int)
    requires
        0 <= i <= s.len(),
    ensures
        i <= word_end(s, i) <= s.len(),
    decreases s.len() - i,
{
    if in_word(s, i) {
        lemma_word_end_bounds(s, i + 1);
    }
}

proof fn lemma_quote_end_bounds(s: Seq<char>, i: int)
    requires
        0 <= i <= s.len(),
    ensures
        i <= quote_end(s, i) <= s.len(),
    decreases s.len() - i,
{
    if i < s.len() && s[i] != '"' {
        lemma_quote_end_bounds(s, i + 1);
    }
}

/// The lexer never moves backwards and never past the end of input.
pub proof fn lemma_lex_bounds(s: Seq<char>, pos: int)
    requires
        0 <= pos <= s.len(),
    ensures
        pos <= step_pos(s, pos, lex(s, pos)) <= s.len(),
        lex(s, pos) is Tok ==> pos < step_pos(s, pos, lex(s, pos)),
{
    lemma_skip_space_bounds(s, pos);
    let i = skip_space(s, pos);
    if i < s.len() {
        lemma_quote_end_bounds(s, i + 1);
        lemma_word_end_bounds(s, i);
        if !(s[i] == ';' || s[i] == '\n' || is_dot_at(s, i) || s[i] == '"') {
            assert(in_word(s, i));
            lemma_word_end_bounds(s, i + 1);
        }
    }
}

/// A cursor over a line of command text. Copying it is cheap, so a grammar
/// can try an interpretation on a copy and drop the copy to back out.
#[derive(Debug, Clone, Copy)]
pub struct Tokenizer<'a> {
    input: &'a str,
    pos: usize,
}

impl<'a> Tokenizer<'a> {
    pub closed spec fn text(&self) -> Seq<char> {
        self.input@
    }

    pub closed spec fn offset(&self) -> int {
        self.pos as int
    }

    pub open spec fn wf(&self) -> bool {
        0 <= self.offset() <= self.text().len()
    }

    pub fn new(input: &'a str) -> (r: Tokenizer<'a>)
        ensures
            r.wf(),
            r.text() == input@,
            r.offset() == 0,
    {
        Tokenizer { input, pos: 0 }
    }

    /// Character offset of the cursor.
    pub fn position(&self) -> (r: usize)
        ensures
            r == self.offset(),
    {
        self.pos
    }

    fn char_at(&self, i: usize) -> (c: char)
        requires
            self.wf(),
            i < self.input@.len(),
        ensures
            c == self.input@[i as int],
    {
        self.input.get_char(i)
    }

    /// Offset of the first character at or after the cursor that is not
    /// whitespace.
    pub fn skip_whitespace(&self) -> (r: usize)
        requires
            self.wf(),
        ensures
            r == skip_space(self.text(), self.offset()),
            self.offset() <= r <= self.text().len(),
    {
        let len = self.input.unicode_len();
        let mut i: usize = self.pos;
        while i < len && is_space_exec(self.char_at(i))
            invariant
                self.wf(),
                len == self.input@.len(),
                self.pos <= i <= len,
                skip_space(self.text(), self.offset()) == skip_space(self.text(), i as int),
            decreases len - i,
        {
            i = i + 1;
        }
        i
    }

    fn is_dot_exec(&self, j: usize) -> (r: bool)
        requires
            self.wf(),
            j < self.input@.len(),
        ensures
            r == is_dot_at(self.text(), j as int),
    {
        let len = self.input.unicode_len();
        if self.char_at(j) != '.' {
            return false;
        }
        if j + 1 == len {
            return true;
        }
        let c = self.char_at(j + 1);
        is_separator_exec(c) || c == '.'
    }

    /// Reads the token at the cursor and advances past it. On a lexical
    /// error the cursor stays where it was.
    pub fn next_token(&mut self) -> (r: Result<Option<Token<'a>>, LexError>)
        requires
            old(self).wf(),
        ensures
            final(self).wf(),
            final(self).text() == old(self).text(),
            token_result_view(r) == step_result(lex(old(self).text(), old(self).offset())),
            final(self).offset() == step_pos(
                old(self).text(),
                old(self).offset(),
                lex(old(self).text(), old(self).offset()),
            ),
    {
        let ghost s = self.input@;
        let len = self.input.unicode_len();
        let i = self.skip_whitespace();
        proof {
            lemma_skip_space_bounds(s, self.pos as int);
        }
        if i >= len {
            self.pos = len;
            return Ok(None);
        }
        let c = self.char_at(i);
        if c == ';' {
            self.pos = i + 1;
            return Ok(Some(Token::Semi));
        }
        if c == '\n' {
            self.pos = i + 1;
            return Ok(Some(Token::EndOfLine));
        }
        if self.is_dot_exec(i) {
            self.pos = i + 1;
            return Ok(Some(Token::Dot));
        }
        if c == '"' {
            let mut e: usize = i + 1;
            while e < len && self.char_at(e) != '"'
                invariant
                    self.wf(),
                    s == self.input@,
                    len == s.len(),
                    i + 1 <= e <= len,
                    quote_end(s, i + 1) == quote_end(s, e as int),
                decreases len - e,
            {
                e = e + 1;
            }
            if e >= len {
                return Err(LexError { position: i });
            }
            let body = self.input.substring_char(i + 1, e);
            self.pos = e + 1;
            return Ok(Some(Token::Quote(body)));
        }
        let mut e: usize = i;
        while e < len && !is_separator_exec(self.char_at(e)) && !self.is_dot_exec(e)
            invariant
                self.wf(),
                s == self.input@,
                len == s.len(),
                i <= e <= len,
                word_end(s, i as int) == word_end(s, e as int),
            decreases len - e,
        {
            e = e + 1;
        }
        let word = self.input.substring_char(i, e);
        self.pos = e;
        Ok(Some(Token::Word(word)))
    }

    /// Reads the token at the cursor without moving it.
    pub fn peek_token(&self) -> (r: Result<Option<Token<'a>>, LexError>)
        requires
            self.wf(),
        ensures
            token_result_view(r) == step_result(lex(self.text(), self.offset())),
    {
        let mut copy = *self;
        copy.next_token()
    }
}

pub fn is_space_exec(c: char) -> (r: bool)
    ensures
        r == is_space(c),
{
    c == ' ' || c == '\t' || c == '\r'
}

pub fn is_separator_exec(c: char) -> (r: bool)
    ensures
        r == is_separator(c),
{
    is_space_exec(c) || c == '\n' || c == ';' || c == '"'
}

} // verus!
