use crate::numbers::{num_of_lexeme, num_parse, spec_is_digit, spec_is_number_lexeme};
use crate::tokens::{init_tokens, keyword_kind_ok, Error, Token, TokensType, ValueType};
use vstd::prelude::*;

verus! {

/// What the scanner guarantees of each token it emits: a number token
/// carries the parsed value of its own lexeme, and a string token carries
/// the text between its two delimiters.
pub open spec fn token_wf(t: Token) -> bool {
    &&& t.token_type == TokensType::Number ==> (t.literal matches Some(v) && v matches
        ValueType::Number(b) && b == num_of_lexeme(t.lexeme@) && spec_is_number_lexeme(t.lexeme@))
    &&& t.token_type == TokensType::String ==> (t.literal matches Some(v) && v matches
        ValueType::String(sv) && t.lexeme@.len() == sv@.len() + 2 && t.lexeme@.subrange(
        1,
        t.lexeme@.len() - 1,
    ) == sv@)
}

/// How an identifier's spelling is classified: the first table entry with
/// that spelling gives the keyword's kind; a spelling in no entry is a
/// plain identifier.
pub open spec fn spec_keyword_kind(table: Seq<(String, TokensType)>, lex: Seq<char>) -> TokensType
    decreases table.len(),
{
    if table.len() == 0 {
        TokensType::Identifier
    } else if table.first().0@ == lex {
        table.first().1
    } else {
        spec_keyword_kind(table.drop_first(), lex)
    }
}

/// The token kind of a single-character lexeme, if the character is one.
pub open spec fn spec_simple_kind(c: char) -> Option<TokensType> {
    if c == '(' {
        Some(TokensType::LeftParen)
    } else if c == ')' {
        Some(TokensType::RightParen)
    } else if c == '{' {
        Some(TokensType::LeftBrace)
    } else if c == '}' {
        Some(TokensType::RightBrace)
    } else if c == ',' {
        Some(TokensType::Comma)
    } else if c == '.' {
        Some(TokensType::Dot)
    } else if c == '-' {
        Some(TokensType::Minus)
    } else if c == '+' {
        Some(TokensType::Plus)
    } else if c == ';' {
        Some(TokensType::Semicolon)
    } else if c == '*' {
        Some(TokensType::Star)
    } else {
        None
    }
}

/// The first character of a one- or two-character operator lexeme.
pub open spec fn spec_operator_start(c: char) -> bool {
    c == '!' || c == '=' || c == '<' || c == '>'
}

/// The kind of an operator token: doubled with `=` or alone.
pub open spec fn spec_operator_kind(c: char, doubled: bool) -> TokensType {
    if c == '!' {
        if doubled {
            TokensType::BangEqual
        } else {
            TokensType::Bang
        }
    } else if c == '=' {
        if doubled {
            TokensType::EqualEqual
        } else {
            TokensType::Equal
        }
    } else if c == '<' {
        if doubled {
            TokensType::LessEqual
        } else {
            TokensType::Less
        }
    } else {
        if doubled {
            TokensType::GreaterEqual
        } else {
            TokensType::Greater
        }
    }
}

/// One lexical step appended exactly one token of kind `kind` whose
/// lexeme is the `len` characters consumed from the cursor, and no error.
pub open spec fn stepped_token<'a>(
    post: Scanner<'a>,
    pre: Scanner<'a>,
    kind: TokensType,
    len: int,
) -> bool {
    &&& post.tokens@.len() == pre.tokens@.len() + 1
    &&& post.tokens@.last().token_type == kind
    &&& post.tokens@.last().lexeme@ == pre.src@.subrange(pre.pos as int, pre.pos + len)
    &&& post.pos == pre.pos + len
    &&& post.errors == pre.errors
}

/// The lexer: turns source text into a token stream ending with `Eof`.
/// Positions are 1-based; a newline starts the next line at column 1.
pub struct Scanner<'a> {
    pub src: &'a str,
    pub tokens: Vec<Token>,
    pub start: u32,
    pub current: u32,
    pub line: u32,
    pub pos: usize,
    pub n: usize,
    pub token_map: Vec<(String, TokensType)>,
    pub errors: Vec<Error>,
}

/// A column or line counter that sticks at its ceiling rather than wrap.
fn bump(c: u32) -> (r: u32)
    ensures
        c < u32::MAX ==> r == c + 1,
        c == u32::MAX ==> r == c,
{
    if c < u32::MAX {
        c + 1
    } else {
        c
    }
}

impl<'a> Scanner<'a> {
    pub open spec fn inv(self) -> bool {
        &&& self.n == self.src@.len()
        &&& self.pos <= self.n
        &&& forall|i: int| 0 <= i < self.tokens@.len() ==> token_wf(#[trigger] self.tokens@[i])
        &&& forall|i: int|
            0 <= i < self.token_map@.len() ==> keyword_kind_ok(#[trigger] self.token_map@[i].1)
    }

    pub fn new(source: &'a String) -> (r: Self)
        ensures
            r.inv(),
            r.src@ == source@,
            r.tokens@.len() == 0,
            r.pos == 0,
    {
        Self::new_with_keywords(source, init_tokens())
    }

    /// A scanner over a chosen keyword table; this is how the localized
    /// keyword set is selected in place of the English one.
    pub fn new_with_keywords(source: &'a String, token_map: Vec<(String, TokensType)>) -> (r: Self)
        requires
            forall|i: int|
                0 <= i < token_map@.len() ==> keyword_kind_ok(#[trigger] token_map@[i].1),
        ensures
            r.inv(),
            r.src@ == source@,
            r.tokens@.len() == 0,
            r.pos == 0,
    {
        let src = source.as_str();
        let n = src.unicode_len();
        Scanner {
            src,
            tokens: Vec::new(),
            start: 1,
            current: 1,
            line: 1,
            pos: 0,
            n,
            token_map,
            errors: Vec::new(),
        }
    }

    /// Scans the whole source. Afterwards the token stream is nonempty,
    /// every token is well formed, and the last token is `Eof`; lexical
    /// errors are collected in `errors`.
    pub fn scan(&mut self)
        requires
            old(self).inv(),
            old(self).tokens@.len() == 0,
        ensures
            final(self).inv(),
            final(self).tokens@.len() > 0,
            final(self).tokens@.last().token_type == TokensType::Eof,
            forall|i: int|
                0 <= i < final(self).tokens@.len() - 1 ==> (#[trigger] final(self).tokens@[i]).token_type != TokensType::Eof,
    {
        loop
            invariant
                self.inv(),
                forall|i: int|
                    0 <= i < self.tokens@.len() ==> (#[trigger] self.tokens@[i]).token_type
                        != TokensType::Eof,
            decreases self.n - self.pos,
        {
            self.start = self.current;
            if !self.scan_tokens() {
                break ;
            }
        }
        let t = Token {
            token_type: TokensType::Eof,
            lexeme: String::new(),
            line: self.line,
            column: self.start,
            literal: None,
        };
        self.tokens.push(t);
    }

    /// Scans one lexeme (or skips whitespace or a comment). Returns false
    /// exactly when the input is exhausted.
    fn scan_tokens(&mut self) -> (r: bool)
        requires
            old(self).inv(),
        ensures
            final(self).inv(),
            final(self).src == old(self).src,
            final(self).n == old(self).n,
            r == (old(self).pos < old(self).n),
            r ==> final(self).pos > old(self).pos,
            !r ==> *final(self) == *old(self),
            final(self).tokens@.len() <= old(self).tokens@.len() + 1,
            forall|i: int|
                0 <= i < old(self).tokens@.len() ==> #[trigger] final(self).tokens@[i] == old(self).tokens@[i],
            final(self).tokens@.len() > old(self).tokens@.len() ==> final(self).tokens@.last().token_type != TokensType::Eof,
            old(self).pos < old(self).n ==> ({
                let c = old(self).src@[old(self).pos as int];
                let doubled = old(self).pos + 1 < old(self).n && old(self).src@[old(self).pos + 1]
                    == '=';
                let comment = old(self).pos + 1 < old(self).n && old(self).src@[old(self).pos + 1]
                    == '/';
                &&& (spec_simple_kind(c) matches Some(k) ==> stepped_token(
                    *final(self),
                    *old(self),
                    k,
                    1,
                ))
                &&& (spec_operator_start(c) ==> stepped_token(
                    *final(self),
                    *old(self),
                    spec_operator_kind(c, doubled),
                    if doubled {
                        2int
                    } else {
                        1int
                    },
                ))
                &&& (c == '/' && !comment ==> stepped_token(
                    *final(self),
                    *old(self),
                    TokensType::Slash,
                    1,
                ))
                &&& (c == '/' && comment ==> final(self).tokens == old(self).tokens && final(self).errors == old(self).errors)
                &&& ((c == ' ' || c == '\r' || c == '\t' || c == '\n') ==> final(self).tokens
                    == old(self).tokens && final(self).errors == old(self).errors && final(self).pos
                    == old(self).pos + 1)
                &&& (spec_is_digit(c) ==> final(self).tokens@.len() == old(self).tokens@.len() + 1
                    && final(self).tokens@.last().token_type == TokensType::Number && final(self).tokens@.last().lexeme@ == old(self).src@.subrange(
                    old(self).pos as int,
                    final(self).pos as int,
                ) && final(self).errors == old(self).errors)
                &&& ((c == '"' || c == '\'') ==> final(self).tokens@.len() == old(self).tokens@.len() + 1 && final(self).tokens@.last().token_type == TokensType::String)
                &&& (spec_is_alpha(c) ==> final(self).tokens@.len() == old(self).tokens@.len() + 1
                    && final(self).tokens@.last().lexeme@ == old(self).src@.subrange(
                    old(self).pos as int,
                    final(self).pos as int,
                ) && final(self).tokens@.last().token_type == spec_keyword_kind(
                    old(self).token_map@,
                    final(self).tokens@.last().lexeme@,
                ) && final(self).errors == old(self).errors)
                &&& (spec_simple_kind(c) is None && !spec_operator_start(c) && c != '/' && c != ' '
                    && c != '\r' && c != '\t' && c != '\n' && c != '"' && c != '\''
                    && !spec_is_digit(c) && !spec_is_alpha(c) ==> final(self).tokens == old(self).tokens && final(self).errors@.len() == old(self).errors@.len() + 1 && final(self).errors@.last().message@ == "Unexpected character"@)
            }),
    {
        let start_pos = self.pos;
        let code = match self.advance() {
            Some(c) => c,
            None => {
                return false;
            },
        };
        match code {
            '(' => self.add_simple(TokensType::LeftParen, start_pos),
            ')' => self.add_simple(TokensType::RightParen, start_pos),
            '{' => self.add_simple(TokensType::LeftBrace, start_pos),
            '}' => self.add_simple(TokensType::RightBrace, start_pos),
            ',' => self.add_simple(TokensType::Comma, start_pos),
            '.' => self.add_simple(TokensType::Dot, start_pos),
            '-' => self.add_simple(TokensType::Minus, start_pos),
            '+' => self.add_simple(TokensType::Plus, start_pos),
            ';' => self.add_simple(TokensType::Semicolon, start_pos),
            '*' => self.add_simple(TokensType::Star, start_pos),
            '!' => {
                if self.match_char('=') {
                    self.advance();
                    self.add_simple(TokensType::BangEqual, start_pos);
                } else {
                    self.add_simple(TokensType::Bang, start_pos);
                }
            },
            '=' => {
                if self.match_char('=') {
                    self.advance();
                    self.add_simple(TokensType::EqualEqual, start_pos);
                } else {
                    self.add_simple(TokensType::Equal, start_pos);
                }
            },
            '<' => {
                if self.match_char('=') {
                    self.advance();
                    self.add_simple(TokensType::LessEqual, start_pos);
                } else {
                    self.add_simple(TokensType::Less, start_pos);
                }
            },
            '>' => {
                if self.match_char('=') {
                    self.advance();
                    self.add_simple(TokensType::GreaterEqual, start_pos);
                } else {
                    self.add_simple(TokensType::Greater, start_pos);
                }
            },
            '/' => {
                if self.match_char('/') {
                    loop
                        invariant
                            self.inv(),
                            self.src == old(self).src,
                            self.n == old(self).n,
                            self.pos > old(self).pos,
                            self.tokens == old(self).tokens,
                            self.errors == old(self).errors,
                        decreases self.n - self.pos,
                    {
                        match self.peek() {
                            Some(c) => {
                                if c == '\n' {
                                    break ;
                                }
                                self.advance();
                            },
                            None => {
                                break ;
                            },
                        }
                    }
                } else {
                    self.add_simple(TokensType::Slash, start_pos);
                }
            },
            ' ' | '\r' | '\t' => {},
            '\n' => {
                self.line = bump(self.line);
                self.current = 1;
            },
            '"' => self.handle_string(code, start_pos),
            '\'' => self.handle_string(code, start_pos),
            _ => {
                if is_digit_char(code) {
                    self.handle_digit(start_pos);
                } else if is_alpha_char(code) {
                    self.handle_alpha(start_pos);
                } else {
                    self.errors.push(
                        Error {
                            line: self.line,
                            column: self.start,
                            message: "Unexpected character".to_owned(),
                        },
                    );
                }
            },
        }
        true
    }

    /// Consumes and returns the next character, advancing the column.
    fn advance(&mut self) -> (r: Option<char>)
        requires
            old(self).inv(),
        ensures
            final(self).inv(),
            final(self).src == old(self).src,
            final(self).n == old(self).n,
            final(self).tokens == old(self).tokens,
            final(self).errors == old(self).errors,
            final(self).line == old(self).line,
            final(self).start == old(self).start,
            final(self).token_map == old(self).token_map,
            old(self).pos < old(self).n ==> r == Some(old(self).src@[old(self).pos as int])
                && final(self).pos == old(self).pos + 1,
            old(self).pos >= old(self).n ==> r is None && *final(self) == *old(self),
    {
        if self.pos < self.n {
            let c = self.src.get_char(self.pos);
            self.pos = self.pos + 1;
            self.current = bump(self.current);
            Some(c)
        } else {
            None
        }
    }

    fn peek(&self) -> (r: Option<char>)
        requires
            self.inv(),
        ensures
            self.pos < self.n ==> r == Some(self.src@[self.pos as int]),
            self.pos >= self.n ==> r is None,
    {
        if self.pos < self.n {
            Some(self.src.get_char(self.pos))
        } else {
            None
        }
    }

    fn peek_next(&self) -> (r: Option<char>)
        requires
            self.inv(),
        ensures
            self.pos + 1 < self.n ==> r == Some(self.src@[self.pos + 1]),
            self.pos + 1 >= self.n ==> r is None,
    {
        if self.pos < self.n && self.pos + 1 < self.n {
            Some(self.src.get_char(self.pos + 1))
        } else {
            None
        }
    }

    /// Whether the next character equals `expected`, without consuming it.
    fn match_char(&self, expected: char) -> (r: bool)
        requires
            self.inv(),
        ensures
            r == (self.pos < self.n && self.src@[self.pos as int] == expected),
    {
        match self.peek() {
            Some(c) => c == expected,
            None => false,
        }
    }

    /// Emits a token whose lexeme is the source slice from `start_pos` to
    /// the cursor and which carries no literal payload.
    fn add_simple(&mut self, token_type: TokensType, start_pos: usize)
        requires
            old(self).inv(),
            start_pos <= old(self).pos,
            token_type != TokensType::Number,
            token_type != TokensType::String,
            token_type != TokensType::Eof,
        ensures
            final(self).inv(),
            final(self).src == old(self).src,
            final(self).n == old(self).n,
            final(self).pos == old(self).pos,
            final(self).errors == old(self).errors,
            final(self).tokens@.len() == old(self).tokens@.len() + 1,
            forall|i: int|
                0 <= i < old(self).tokens@.len() ==> #[trigger] final(self).tokens@[i] == old(self).tokens@[i],
            final(self).tokens@.last().token_type == token_type,
            final(self).tokens@.last().lexeme@ == old(self).src@.subrange(
                start_pos as int,
                old(self).pos as int,
            ),
            final(self).tokens@.last().line == old(self).line,
            final(self).tokens@.last().column == old(self).start,
            final(self).tokens@.last().literal is None,
    {
        let lexeme = self.src.substring_char(start_pos, self.pos).to_owned();
        let t = Token {
            token_type,
            lexeme,
            line: self.line,
            column: self.start,
            literal: None,
        };
        self.tokens.push(t);
    }

    /// Scans the remainder of a string literal whose opening delimiter
    /// `code` (a double or single quote) has just been consumed. The token
    /// carries the text between the delimiters; a missing closing
    /// delimiter is an error.
    fn handle_string(&mut self, code: char, start_pos: usize)
        requires
            old(self).inv(),
            old(self).pos == start_pos + 1,
            start_pos < old(self).n,
            old(self).src@[start_pos as int] == code,
        ensures
            final(self).inv(),
            final(self).src == old(self).src,
            final(self).n == old(self).n,
            final(self).pos >= old(self).pos,
            final(self).tokens@.len() == old(self).tokens@.len() + 1,
            forall|i: int|
                0 <= i < old(self).tokens@.len() ==> #[trigger] final(self).tokens@[i] == old(self).tokens@[i],
            final(self).tokens@.last().token_type == TokensType::String,
            final(self).tokens@.last().literal matches Some(v) ==> v matches ValueType::String(sv)
                ==> final(self).tokens@.last().lexeme@ == seq![old(self).src@[start_pos as int]]
                + sv@ + seq![old(self).src@[start_pos as int]] && sv@ == old(self).src@.subrange(
                old(self).pos as int,
                old(self).pos + sv@.len(),
            ),
            final(self).tokens@.last().literal matches Some(v) ==> v matches ValueType::String(sv)
                ==> (forall|k: int|
                old(self).pos <= k < old(self).pos + sv@.len() ==> final(self).src@[k] != code),
            final(self).tokens@.last().literal matches Some(v) ==> v matches ValueType::String(sv)
                ==> ((final(self).pos == old(self).pos + sv@.len() + 1 && old(self).pos + sv@.len()
                < final(self).n && final(self).src@[old(self).pos + sv@.len()] == code && final(self).errors == old(self).errors) || (final(self).pos == final(self).n && final(self).pos
                == old(self).pos + sv@.len() && final(self).errors@.len() == old(self).errors@.len()
                + 1 && final(self).errors@.last().message@ == "Unterminated string"@)),
            final(self).tokens@.last().column == old(self).start,
    {
        let content_start = self.pos;
        let mut closed = false;
        loop
            invariant_except_break
                self.errors == old(self).errors,
                !closed,
            invariant
                self.inv(),
                self.src == old(self).src,
                self.n == old(self).n,
                self.errors@.len() >= old(self).errors@.len(),
                self.tokens == old(self).tokens,
                content_start == old(self).pos,
                content_start <= self.pos <= self.n,
                self.start == old(self).start,
                self.token_map == old(self).token_map,
                forall|k: int| content_start <= k < self.pos ==> self.src@[k] != code,
            ensures
                closed ==> self.pos < self.n && self.src@[self.pos as int] == code && self.errors
                    == old(self).errors,
                !closed ==> self.pos == self.n && self.errors@.len() == old(self).errors@.len() + 1
                    && self.errors@.last().message@ == "Unterminated string"@,
            decreases self.n - self.pos,
        {
            match self.peek() {
                Some(c) => {
                    if c != code {
                        if c == '\n' {
                            self.line = bump(self.line);
                        }
                        self.advance();
                    } else {
                        closed = true;
                        break ;
                    }
                },
                None => {
                    self.errors.push(
                        Error {
                            line: self.line,
                            column: self.start,
                            message: "Unterminated string".to_owned(),
                        },
                    );
                    break ;
                },
            }
        }
        let content_end = self.pos;
        if closed {
            self.advance();
        }
        let content = self.src.substring_char(content_start, content_end).to_owned();
        let quote = self.src.substring_char(start_pos, start_pos + 1);
        let mut lexeme = quote.to_owned();
        lexeme.append(content.as_str());
        lexeme.append(quote);
        proof {
            assert(lexeme@.len() == content@.len() + 2);
            assert(lexeme@.subrange(1, lexeme@.len() - 1) =~= content@);
            assert(quote@ =~= seq![old(self).src@[start_pos as int]]);
            assert(lexeme@ =~= seq![old(self).src@[start_pos as int]] + content@ + seq![
                old(self).src@[start_pos as int]
            ]);
            assert(content@ =~= old(self).src@.subrange(
                old(self).pos as int,
                old(self).pos + content@.len(),
            ));
        }
        let t = Token {
            token_type: TokensType::String,
            lexeme,
            line: self.line,
            column: self.start,
            literal: Some(ValueType::String(content)),
        };
        self.tokens.push(t);
    }

    /// Scans the remainder of a number literal whose first digit has just
    /// been consumed: digits, then optionally a dot followed by at least
    /// one digit. The token carries the parsed IEEE double value.
    fn handle_digit(&mut self, start_pos: usize)
        requires
            old(self).inv(),
            old(self).pos == start_pos + 1,
            start_pos < old(self).n,
            spec_is_digit(old(self).src@[start_pos as int]),
        ensures
            final(self).inv(),
            final(self).src == old(self).src,
            final(self).n == old(self).n,
            final(self).pos >= old(self).pos,
            final(self).errors == old(self).errors,
            final(self).tokens@.len() == old(self).tokens@.len() + 1,
            forall|i: int|
                0 <= i < old(self).tokens@.len() ==> #[trigger] final(self).tokens@[i] == old(self).tokens@[i],
            final(self).tokens@.last().token_type == TokensType::Number,
            final(self).tokens@.last().lexeme@ == old(self).src@.subrange(
                start_pos as int,
                final(self).pos as int,
            ),
            final(self).tokens@.last().literal matches Some(v) && v matches ValueType::Number(b)
                && b == crate::numbers::num_of_lexeme(final(self).tokens@.last().lexeme@),
            final(self).tokens@.last().line == old(self).line,
            final(self).tokens@.last().column == old(self).start,
            final(self).pos == final(self).n || !spec_is_digit(
                final(self).src@[final(self).pos as int],
            ),
            (forall|k: int|
                0 <= k < final(self).tokens@.last().lexeme@.len() ==> spec_is_digit(
                    #[trigger] final(self).tokens@.last().lexeme@[k],
                )) ==> final(self).pos == final(self).n || final(self).src@[final(self).pos as int] != '.' || final(self).pos + 1 >= final(self).n || !spec_is_digit(
                final(self).src@[final(self).pos + 1],
            ),
    {
        loop
            invariant
                self.inv(),
                self.src == old(self).src,
                self.n == old(self).n,
                self.errors == old(self).errors,
                self.tokens == old(self).tokens,
                self.line == old(self).line,
                self.start == old(self).start,
                self.token_map == old(self).token_map,
                start_pos < self.pos <= self.n,
                forall|k: int| start_pos <= k < self.pos ==> spec_is_digit(#[trigger] self.src@[k]),
            ensures
                self.pos == self.n || !spec_is_digit(self.src@[self.pos as int]),
            decreases self.n - self.pos,
        {
            match self.peek() {
                Some(c) => {
                    if is_digit_char(c) {
                        self.advance();
                    } else {
                        break ;
                    }
                },
                None => {
                    break ;
                },
            }
        }
        let ghost int_end = self.pos;
        let mut has_fraction = false;
        if self.pos < self.n {
            let c = self.src.get_char(self.pos);
            if c == '.' {
                match self.peek_next() {
                    Some(c_next) => {
                        if is_digit_char(c_next) {
                            has_fraction = true;
                            self.advance();
                            self.advance();
                            loop
                                invariant
                                    self.inv(),
                                    self.src == old(self).src,
                                    self.n == old(self).n,
                                    self.errors == old(self).errors,
                                    self.tokens == old(self).tokens,
                                    self.line == old(self).line,
                                    self.start == old(self).start,
                                    self.token_map == old(self).token_map,
                                    start_pos < int_end,
                                    int_end + 1 < self.pos <= self.n,
                                    self.src@[int_end as int] == '.',
                                    forall|k: int|
                                        start_pos <= k < int_end ==> spec_is_digit(
                                            #[trigger] self.src@[k],
                                        ),
                                    forall|k: int|
                                        int_end < k < self.pos ==> spec_is_digit(
                                            #[trigger] self.src@[k],
                                        ),
                                ensures
                                    self.pos == self.n || !spec_is_digit(
                                        self.src@[self.pos as int],
                                    ),
                                decreases self.n - self.pos,
                            {
                                match self.peek() {
                                    Some(pc) => {
                                        if is_digit_char(pc) {
                                            self.advance();
                                        } else {
                                            break ;
                                        }
                                    },
                                    None => {
                                        break ;
                                    },
                                }
                            }
                        }
                    },
                    None => {},
                }
            }
        }
        let lexeme = self.src.substring_char(start_pos, self.pos).to_owned();
        proof {
            let lx = lexeme@;
            assert(lx =~= self.src@.subrange(start_pos as int, self.pos as int));
            if has_fraction {
                let k = int_end - start_pos;
                assert(lx[k] == '.');
                assert(forall|i: int| 0 <= i < lx.len() && i != k ==> spec_is_digit(#[trigger] lx[i]));
                assert(crate::numbers::spec_dotted_digits(lx, k));
                assert(spec_is_number_lexeme(lx));
            } else {
                assert(forall|i: int| 0 <= i < lx.len() ==> spec_is_digit(#[trigger] lx[i]));
                assert(spec_is_number_lexeme(lx));
            }
        }
        let value = num_parse(lexeme.as_str());
        let t = Token {
            token_type: TokensType::Number,
            lexeme,
            line: self.line,
            column: self.start,
            literal: Some(ValueType::Number(value)),
        };
        self.tokens.push(t);
    }

    /// Scans the remainder of an identifier or keyword whose first
    /// character has just been consumed, and looks its spelling up in the
    /// keyword table.
    fn handle_alpha(&mut self, start_pos: usize)
        requires
            old(self).inv(),
            old(self).pos == start_pos + 1,
            start_pos < old(self).n,
        ensures
            final(self).inv(),
            final(self).src == old(self).src,
            final(self).n == old(self).n,
            final(self).pos >= old(self).pos,
            final(self).errors == old(self).errors,
            final(self).tokens@.len() == old(self).tokens@.len() + 1,
            forall|i: int|
                0 <= i < old(self).tokens@.len() ==> #[trigger] final(self).tokens@[i] == old(self).tokens@[i],
            final(self).tokens@.last().token_type == spec_keyword_kind(
                old(self).token_map@,
                final(self).tokens@.last().lexeme@,
            ),
            final(self).tokens@.last().token_type != TokensType::Eof,
            final(self).tokens@.last().lexeme@ == old(self).src@.subrange(
                start_pos as int,
                final(self).pos as int,
            ),
            final(self).tokens@.last().literal is None,
            final(self).tokens@.last().line == old(self).line,
            final(self).tokens@.last().column == old(self).start,
            final(self).pos == final(self).n || !(spec_is_digit(
                final(self).src@[final(self).pos as int],
            ) || spec_is_alpha(final(self).src@[final(self).pos as int])),
    {
        loop
            invariant
                self.inv(),
                self.src == old(self).src,
                self.n == old(self).n,
                self.errors == old(self).errors,
                self.tokens == old(self).tokens,
                self.line == old(self).line,
                self.start == old(self).start,
                self.token_map == old(self).token_map,
                start_pos < self.pos <= self.n,
            ensures
                self.pos == self.n || !(spec_is_digit(self.src@[self.pos as int]) || spec_is_alpha(
                    self.src@[self.pos as int],
                )),
            decreases self.n - self.pos,
        {
            match self.peek() {
                Some(c) => {
                    if is_digit_char(c) || is_alpha_char(c) {
                        self.advance();
                    } else {
                        break ;
                    }
                },
                None => {
                    break ;
                },
            }
        }
        let lexeme = self.src.substring_char(start_pos, self.pos).to_owned();
        let token_type = self.classify(&lexeme);
        let t = Token {
            token_type,
            lexeme,
            line: self.line,
            column: self.start,
            literal: None,
        };
        self.tokens.push(t);
    }
}

impl<'a> Scanner<'a> {
    /// Classifies a scanned spelling against the keyword table: the first
    /// entry with that spelling names the keyword; otherwise it is a
    /// plain identifier.
    fn classify(&self, lexeme: &String) -> (r: TokensType)
        requires
            self.inv(),
        ensures
            r == spec_keyword_kind(self.token_map@, lexeme@),
            r == TokensType::Identifier || keyword_kind_ok(r),
    {
        let m = self.token_map.len();
        assert(self.token_map@.skip(0) =~= self.token_map@);
        let mut i: usize = 0;
        while i < m
            invariant
                self.inv(),
                i <= m,
                m == self.token_map@.len(),
                spec_keyword_kind(self.token_map@, lexeme@) == spec_keyword_kind(
                    self.token_map@.skip(i as int),
                    lexeme@,
                ),
            decreases m - i,
        {
            assert(self.token_map@.skip(i as int).first() == self.token_map@[i as int]);
            assert(self.token_map@.skip(i as int).drop_first() =~= self.token_map@.skip(i + 1));
            if self.token_map[i].0 == *lexeme {
                return self.token_map[i].1;
            }
            i = i + 1;
        }
        assert(self.token_map@.skip(m as int) =~= Seq::<(String, TokensType)>::empty());
        TokensType::Identifier
    }
}

pub open spec fn spec_is_alpha(c: char) -> bool {
    (97 <= c as u32 <= 122) || (65 <= c as u32 <= 90) || c == '_' || (0x4E00 <= c as u32 <= 0x9FA5)
}

fn is_digit_char(c: char) -> (r: bool)
    ensures
        r == spec_is_digit(c),
{
    let u = c as u32;
    48 <= u && u <= 57
}

fn is_alpha_char(c: char) -> (r: bool)
    ensures
        r == spec_is_alpha(c),
{
    let u = c as u32;
    (97 <= u && u <= 122) || (65 <= u && u <= 90) || c == '_' || (0x4E00 <= u && u <= 0x9FA5)
}

} // verus!
