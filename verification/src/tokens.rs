use vstd::prelude::*;

verus! {

/// The kinds of token the lexer can produce.
#[derive(Debug, Clone, Copy, PartialEq, Eq, Structural)]
pub enum TokensType {
    LeftParen,
    RightParen,
    LeftBrace,
    RightBrace,
    Comma,
    Dot,
    Minus,
    Plus,
    Semicolon,
    Slash,
    Star,
    Bang,
    BangEqual,
    Equal,
    EqualEqual,
    Greater,
    GreaterEqual,
    Less,
    LessEqual,
    Identifier,
    String,
    Number,
    And,
    Class,
    Else,
    False,
    Fun,
    For,
    If,
    Nil,
    Or,
    Print,
    Return,
    Super,
    This,
    True,
    Var,
    While,
    Eof,
}

/// The literal payload carried by a number, string or boolean token.
/// A number is kept as the bit pattern of its IEEE double value.
pub enum ValueType {
    Number(u64),
    String(String),
    Bool(bool),
}

impl Clone for ValueType {
    fn clone(&self) -> (res: Self)
        ensures
            res == *self,
    {
        match self {
            ValueType::Number(n) => ValueType::Number(*n),
            ValueType::String(s) => ValueType::String(s.clone()),
            ValueType::Bool(b) => ValueType::Bool(*b),
        }
    }
}

/// One token of source text, with its position (1-based line and column).
pub struct Token {
    pub token_type: TokensType,
    pub lexeme: String,
    pub line: u32,
    pub column: u32,
    pub literal: Option<ValueType>,
}

impl Clone for Token {
    fn clone(&self) -> (res: Self)
        ensures
            res == *self,
    {
        Token {
            token_type: self.token_type,
            lexeme: self.lexeme.clone(),
            line: self.line,
            column: self.column,
            literal: match &self.literal {
                Some(v) => Some(v.clone()),
                None => None,
            },
        }
    }
}

/// A diagnostic: a message tied to the source position that provoked it.
#[derive(Debug, Clone)]
pub struct Error {
    pub line: u32,
    pub column: u32,
    pub message: String,
}

/// The decimal digits of `n`, most significant first.
pub open spec fn spec_decimal(n: nat) -> Seq<char>
    decreases n,
{
    if n < 10 {
        seq![spec_digit_char(n)]
    } else {
        spec_decimal(n / 10).push(spec_digit_char(n % 10))
    }
}

pub open spec fn spec_digit_char(d: nat) -> char {
    "0123456789"@[d as int]
}

/// The text of one decimal digit.
fn digit_str(d: u64) -> (r: &'static str)
    requires
        d < 10,
    ensures
        r@ =~= seq![spec_digit_char(d as nat)],
{
    proof {
        reveal_strlit("0123456789");
    }
    let s: &'static str = "0123456789";
    s.substring_char(d as usize, (d + 1) as usize)
}

/// Renders `n` in decimal.
pub fn decimal_string(n: u64) -> (r: String)
    ensures
        r@ == spec_decimal(n as nat),
    decreases n,
{
    if n < 10 {
        let d = digit_str(n);
        d.to_owned()
    } else {
        let mut head = decimal_string(n / 10);
        let d = digit_str(n % 10);
        head.append(d);
        assert(head@ =~= spec_decimal(n as nat));
        head
    }
}

/// The view of a formatted diagnostic: message, then line, then column.
pub open spec fn spec_error_text(line: nat, column: nat, message: Seq<char>) -> Seq<char> {
    message + " in line "@ + spec_decimal(line) + " column "@ + spec_decimal(column)
}

impl Error {
    /// Formats the diagnostic as `<message> in line <L> column <C>`.
    pub fn format(&self) -> (r: String)
        ensures
            r@ == spec_error_text(self.line as nat, self.column as nat, self.message@),
    {
        let mut r = self.message.clone();
        r.append(" in line ");
        let l = decimal_string(self.line as u64);
        r.append(l.as_str());
        r.append(" column ");
        let c = decimal_string(self.column as u64);
        r.append(c.as_str());
        r
    }
}

/// The table pairing each keyword's spelling with its token kind.
pub open spec fn spec_keywords() -> Seq<(Seq<char>, TokensType)> {
    seq![
        ("and"@, TokensType::And),
        ("class"@, TokensType::Class),
        ("else"@, TokensType::Else),
        ("false"@, TokensType::False),
        ("fun"@, TokensType::Fun),
        ("for"@, TokensType::For),
        ("if"@, TokensType::If),
        ("nil"@, TokensType::Nil),
        ("or"@, TokensType::Or),
        ("print"@, TokensType::Print),
        ("return"@, TokensType::Return),
        ("super"@, TokensType::Super),
        ("this"@, TokensType::This),
        ("true"@, TokensType::True),
        ("var"@, TokensType::Var),
        ("while"@, TokensType::While),
    ]
}

/// A keyword's token kind never carries a literal payload and never
/// stands for the end of input.
pub open spec fn keyword_kind_ok(t: TokensType) -> bool {
    t != TokensType::Number && t != TokensType::String && t != TokensType::Eof
}

/// Builds the keyword table the scanner matches identifiers against.
pub fn init_tokens() -> (r: Vec<(String, TokensType)>)
    ensures
        r@.len() == spec_keywords().len(),
        forall|i: int|
            0 <= i < r@.len() ==> #[trigger] r@[i].0@ == spec_keywords()[i].0 && r@[i].1
                == spec_keywords()[i].1,
        forall|i: int| 0 <= i < r@.len() ==> keyword_kind_ok(#[trigger] r@[i].1),
{
    let mut r: Vec<(String, TokensType)> = Vec::new();
    r.push(("and".to_owned(), TokensType::And));
    r.push(("class".to_owned(), TokensType::Class));
    r.push(("else".to_owned(), TokensType::Else));
    r.push(("false".to_owned(), TokensType::False));
    r.push(("fun".to_owned(), TokensType::Fun));
    r.push(("for".to_owned(), TokensType::For));
    r.push(("if".to_owned(), TokensType::If));
    r.push(("nil".to_owned(), TokensType::Nil));
    r.push(("or".to_owned(), TokensType::Or));
    r.push(("print".to_owned(), TokensType::Print));
    r.push(("return".to_owned(), TokensType::Return));
    r.push(("super".to_owned(), TokensType::Super));
    r.push(("this".to_owned(), TokensType::This));
    r.push(("true".to_owned(), TokensType::True));
    r.push(("var".to_owned(), TokensType::Var));
    r.push(("while".to_owned(), TokensType::While));
    r
}

/// The table pairing each localized keyword's spelling with its token
/// kind, mirroring `spec_keywords` entry for entry.
pub open spec fn spec_keywords_localized() -> Seq<(Seq<char>, TokensType)> {
    seq![
        ("\u{4e0e}\u{4e0a}"@, TokensType::And),
        ("\u{7c7b}"@, TokensType::Class),
        ("\u{5426}\u{5219}"@, TokensType::Else),
        ("\u{5047}\u{503c}"@, TokensType::False),
        ("\u{51fd}\u{6570}"@, TokensType::Fun),
        ("\u{5faa}\u{73af}"@, TokensType::For),
        ("\u{5982}\u{679c}"@, TokensType::If),
        ("\u{7a7a}\u{503c}"@, TokensType::Nil),
        ("\u{6216}\u{4e0a}"@, TokensType::Or),
        ("\u{6253}\u{5370}"@, TokensType::Print),
        ("\u{8fd4}\u{56de}"@, TokensType::Return),
        ("\u{7236}\u{7c7b}"@, TokensType::Super),
        ("\u{8fd9}\u{4e2a}"@, TokensType::This),
        ("\u{771f}\u{503c}"@, TokensType::True),
        ("\u{58f0}\u{660e}"@, TokensType::Var),
        ("\u{6bcf}\u{5f53}"@, TokensType::While),
    ]
}

/// Builds the localized keyword table; handing it to the scanner selects
/// the localized surface syntax in place of the English one.
pub fn init_tokens_localized() -> (r: Vec<(String, TokensType)>)
    ensures
        r@.len() == spec_keywords_localized().len(),
        forall|i: int|
            0 <= i < r@.len() ==> #[trigger] r@[i].0@ == spec_keywords_localized()[i].0 && r@[i].1
                == spec_keywords_localized()[i].1,
        forall|i: int| 0 <= i < r@.len() ==> keyword_kind_ok(#[trigger] r@[i].1),
{
    let mut r: Vec<(String, TokensType)> = Vec::new();
    r.push(("\u{4e0e}\u{4e0a}".to_owned(), TokensType::And));
    r.push(("\u{7c7b}".to_owned(), TokensType::Class));
    r.push(("\u{5426}\u{5219}".to_owned(), TokensType::Else));
    r.push(("\u{5047}\u{503c}".to_owned(), TokensType::False));
    r.push(("\u{51fd}\u{6570}".to_owned(), TokensType::Fun));
    r.push(("\u{5faa}\u{73af}".to_owned(), TokensType::For));
    r.push(("\u{5982}\u{679c}".to_owned(), TokensType::If));
    r.push(("\u{7a7a}\u{503c}".to_owned(), TokensType::Nil));
    r.push(("\u{6216}\u{4e0a}".to_owned(), TokensType::Or));
    r.push(("\u{6253}\u{5370}".to_owned(), TokensType::Print));
    r.push(("\u{8fd4}\u{56de}".to_owned(), TokensType::Return));
    r.push(("\u{7236}\u{7c7b}".to_owned(), TokensType::Super));
    r.push(("\u{8fd9}\u{4e2a}".to_owned(), TokensType::This));
    r.push(("\u{771f}\u{503c}".to_owned(), TokensType::True));
    r.push(("\u{58f0}\u{660e}".to_owned(), TokensType::Var));
    r.push(("\u{6bcf}\u{5f53}".to_owned(), TokensType::While));
    r
}

} // verus!
