//! The lexer: from characters to located tokens.
//!
//! What the lexer produces at a position is fixed by [`token_at`], a function
//! of the input alone; [`Lexer::next_token`] computes it and moves on.  The
//! lexer never fails: input that is no token comes out as an illegal token
//! that carries the offending text.

pub mod token;

use crate::lexer::token::{
    keyword, keyword_kind, token_views, Location, LocationView, Token, TokenKind, TokenView,
};
use crate::text::{chars_of, text_of};
use vstd::prelude::*;

verus! {

/// A letter of an identifier: an ASCII letter or the underscore.
pub open spec fn is_letter(c: char) -> bool {
    ('a' <= c <= 'z') || ('A' <= c <= 'Z') || c == '_'
}

/// A decimal digit.
pub open spec fn is_number(c: char) -> bool {
    '0' <= c <= '9'
}

/// White space between tokens: blank, tab, line feed, carriage return.
pub open spec fn is_whitespace(c: char) -> bool {
    c == ' ' || c == '\t' || c == '\n' || c == '\r'
}

/// An arithmetic or comparison sign or a round bracket.
pub open spec fn is_math_symbol(c: char) -> bool {
    c == '*' || c == '/' || c == '+' || c == '-' || c == ')' || c == '(' || c == '>' || c == '<'
        || c == '='
}

/// Whether `c` may stand directly behind a numeric literal.  The character
/// `'\0'` stands for the end of the input.
pub open spec fn valid_number_suffix(c: char) -> bool {
    is_math_symbol(c) || is_whitespace(c) || c == ';' || c == '{' || c == '&' || c == '\0' || c
        == '!' || c == ',' || c == ']' || is_number(c)
}

/// Whether `c` may stand directly behind a single `=`.
pub open spec fn valid_assign_suffix(c: char) -> bool {
    is_whitespace(c) || c == '"' || c == '(' || is_number(c) || is_letter(c)
}

/// The classes of characters that the lexer scans runs of.
#[derive(Debug, Clone, Copy, PartialEq, Eq, Structural)]
pub enum CharClass {
    /// White space between tokens.
    Space,
    /// Decimal digits.
    Digit,
    /// Letters and digits: the body of an identifier.
    Word,
    /// Everything but the double quote: the body of a string literal.
    Quoted,
}

impl CharClass {
    /// Whether `c` belongs to the class.
    pub open spec fn has(self, c: char) -> bool {
        match self {
            CharClass::Space => is_whitespace(c),
            CharClass::Digit => is_number(c),
            CharClass::Word => is_letter(c) || is_number(c),
            CharClass::Quoted => c != '"',
        }
    }

    /// Tells whether `c` belongs to the class.
    pub fn contains(&self, c: char) -> (b: bool)
        ensures
            b == self.has(c),
    {
        match self {
            CharClass::Space => Lexer::is_whitespace(Some(c)),
            CharClass::Digit => Lexer::is_number(Some(c)),
            CharClass::Word => Lexer::is_letter(Some(c)) || Lexer::is_number(Some(c)),
            CharClass::Quoted => c != '"',
        }
    }
}

/// The end of the longest run of characters of `class` that starts at `i`.
pub open spec fn run_end(s: Seq<char>, i: int, class: CharClass) -> int
    decreases s.len() - i,
{
    if 0 <= i < s.len() && class.has(s[i]) {
        run_end(s, i + 1, class)
    } else {
        i
    }
}

/// The character at `i`, or `'\0'` past the end of the input.
pub open spec fn char_at(s: Seq<char>, i: int) -> char {
    if 0 <= i < s.len() {
        s[i]
    } else {
        '\0'
    }
}

/// The number of line feeds among the first `i` characters.
pub open spec fn newlines(s: Seq<char>, i: int) -> nat
    decreases i,
{
    if i <= 0 || i > s.len() {
        0
    } else if s[i - 1] == '\n' {
        newlines(s, i - 1) + 1
    } else {
        newlines(s, i - 1)
    }
}

/// The index at which the line that holds position `i` starts.
pub open spec fn line_start(s: Seq<char>, i: int) -> int
    decreases i,
{
    if i <= 0 || i > s.len() {
        0
    } else if s[i - 1] == '\n' {
        i
    } else {
        line_start(s, i - 1)
    }
}

/// The location of position `i`: its offset within its line, the number of
/// the line, and the file.
pub open spec fn location_at(s: Seq<char>, file: Seq<char>, i: int) -> LocationView {
    LocationView {
        position: (i - line_start(s, i)) as nat,
        line: 1 + newlines(s, i),
        filename: file,
    }
}

/// What the lexer reads at the start of a token: the token's kind, its text,
/// and where the next token may start.
pub struct Lexed {
    pub kind: TokenKind,
    pub text: Option<Seq<char>>,
    pub next: int,
}

/// A token without text that is `width` characters long.
pub open spec fn plain(kind: TokenKind, start: int, width: int) -> Lexed {
    Lexed { kind, text: None, next: start + width }
}

/// The numeric literal that starts at `start` and whose digits start at
/// `digits`.  If the character behind the digits may not follow a number, the
/// literal is illegal and that character is skipped with it.
pub open spec fn number_at(s: Seq<char>, start: int, digits: int) -> Lexed {
    let end = run_end(s, digits, CharClass::Digit);
    if valid_number_suffix(char_at(s, end)) {
        Lexed { kind: TokenKind::Number, text: Some(s.subrange(start, end)), next: end }
    } else {
        Lexed { kind: TokenKind::Illegal, text: Some(s.subrange(start, end)), next: end + 1 }
    }
}

/// The string literal whose opening quote is at `start`: the text up to the
/// next quote, or an illegal token with the rest of the input if none follows.
pub open spec fn string_at(s: Seq<char>, start: int) -> Lexed {
    let end = run_end(s, start + 1, CharClass::Quoted);
    if end < s.len() {
        Lexed { kind: TokenKind::String, text: Some(s.subrange(start + 1, end)), next: end + 1 }
    } else {
        Lexed {
            kind: TokenKind::Illegal,
            text: Some(s.subrange(start + 1, s.len() as int)),
            next: s.len() as int,
        }
    }
}

/// The identifier or keyword that starts at `start`.
pub open spec fn word_at(s: Seq<char>, start: int) -> Lexed {
    let end = run_end(s, start, CharClass::Word);
    let word = s.subrange(start, end);
    match keyword_kind(word) {
        Some(kind) => Lexed { kind, text: None, next: end },
        None => Lexed { kind: TokenKind::Ident, text: Some(word), next: end },
    }
}

/// An illegal token made of the `width` characters at `start`, or of as many
/// as the input still has.
pub open spec fn illegal_at(s: Seq<char>, start: int, width: int) -> Lexed {
    let end = if start + width <= s.len() {
        start + width
    } else {
        s.len() as int
    };
    Lexed { kind: TokenKind::Illegal, text: Some(s.subrange(start, end)), next: end }
}

/// The token that starts at `start`, where `start` holds no white space.
pub open spec fn scan(s: Seq<char>, start: int) -> Lexed {
    if !(0 <= start < s.len()) {
        Lexed { kind: TokenKind::EOF, text: None, next: start }
    } else {
        let c = s[start];
        let n = char_at(s, start + 1);
        if c == '=' {
            if n == '=' {
                plain(TokenKind::Eq, start, 2)
            } else if valid_assign_suffix(n) {
                plain(TokenKind::Assign, start, 1)
            } else {
                illegal_at(s, start, 2)
            }
        } else if c == '+' {
            plain(TokenKind::Plus, start, 1)
        } else if c == '-' {
            if is_number(n) {
                number_at(s, start, start + 1)
            } else {
                plain(TokenKind::Minus, start, 1)
            }
        } else if c == '!' {
            if n == '=' {
                plain(TokenKind::Diff, start, 2)
            } else {
                plain(TokenKind::Bang, start, 1)
            }
        } else if c == '/' {
            plain(TokenKind::Slash, start, 1)
        } else if c == '*' {
            plain(TokenKind::Asterisk, start, 1)
        } else if c == '<' {
            if n == '=' {
                plain(TokenKind::Lte, start, 2)
            } else {
                plain(TokenKind::Lt, start, 1)
            }
        } else if c == '>' {
            if n == '=' {
                plain(TokenKind::Gte, start, 2)
            } else {
                plain(TokenKind::Gt, start, 1)
            }
        } else if c == '&' {
            if n == '&' {
                plain(TokenKind::And, start, 2)
            } else {
                illegal_at(s, start, 1)
            }
        } else if c == '|' {
            if n == '|' {
                plain(TokenKind::Or, start, 2)
            } else {
                illegal_at(s, start, 1)
            }
        } else if c == ';' {
            plain(TokenKind::Semicolon, start, 1)
        } else if c == '(' {
            plain(TokenKind::LParen, start, 1)
        } else if c == ')' {
            plain(TokenKind::RParen, start, 1)
        } else if c == '[' {
            plain(TokenKind::LSqBracket, start, 1)
        } else if c == ']' {
            plain(TokenKind::RSqBracket, start, 1)
        } else if c == ',' {
            plain(TokenKind::Comma, start, 1)
        } else if c == '{' {
            plain(TokenKind::LBrace, start, 1)
        } else if c == '}' {
            plain(TokenKind::Rbrace, start, 1)
        } else if c == '"' {
            string_at(s, start)
        } else if is_letter(c) {
            word_at(s, start)
        } else if is_number(c) {
            number_at(s, start, start)
        } else {
            illegal_at(s, start, 1)
        }
    }
}

/// Where the token that is read from position `pos` starts: behind the white
/// space at `pos`.
pub open spec fn token_start(s: Seq<char>, pos: int) -> int {
    run_end(s, pos, CharClass::Space)
}

/// The token that is read from position `pos` of the input `s` of file `file`.
pub open spec fn token_at(s: Seq<char>, file: Seq<char>, pos: int) -> TokenView {
    let start = token_start(s, pos);
    let lexed = scan(s, start);
    TokenView {
        kind: lexed.kind,
        text: lexed.text,
        location: Some(location_at(s, file, start)),
    }
}

/// The position from which the token after that one is read.
pub open spec fn token_end(s: Seq<char>, pos: int) -> int {
    scan(s, token_start(s, pos)).next
}

/// All the tokens from position `pos` on, the end-of-input token last.
pub open spec fn tokens_from(s: Seq<char>, file: Seq<char>, pos: int) -> Seq<TokenView>
    decreases s.len() - pos,
{
    let token = token_at(s, file, pos);
    if token.kind == TokenKind::EOF || !(0 <= pos <= s.len()) {
        seq![token]
    } else {
        proof {
            lemma_token_end(s, pos);
        }
        seq![token] + tokens_from(s, file, token_end(s, pos))
    }
}

/// A run ends within the input, at or behind its start, before a character
/// that is not of its class.
pub proof fn lemma_run_end(s: Seq<char>, i: int, class: CharClass)
    requires
        0 <= i <= s.len(),
    ensures
        i <= run_end(s, i, class) <= s.len(),
        run_end(s, i, class) < s.len() ==> !class.has(s[run_end(s, i, class)]),
        forall|j: int| i <= j < run_end(s, i, class) ==> class.has(#[trigger] s[j]),
    decreases s.len() - i,
{
    if i < s.len() && class.has(s[i]) {
        lemma_run_end(s, i + 1, class);
    }
}

/// Every token but the end of input takes at least one character, and no
/// token reaches beyond the input.
pub proof fn lemma_token_end(s: Seq<char>, pos: int)
    requires
        0 <= pos <= s.len(),
    ensures
        pos <= token_start(s, pos) <= token_end(s, pos) <= s.len(),
        token_start(s, pos) < s.len() ==> token_start(s, pos) < token_end(s, pos),
        scan(s, token_start(s, pos)).kind == TokenKind::EOF <==> token_start(s, pos) == s.len(),
{
    let start = token_start(s, pos);
    lemma_run_end(s, pos, CharClass::Space);
    if start < s.len() {
        lemma_run_end(s, start, CharClass::Digit);
        lemma_run_end(s, start + 1, CharClass::Digit);
        lemma_run_end(s, start, CharClass::Word);
        lemma_run_end(s, start + 1, CharClass::Quoted);
        lemma_keyword_is_not_eof(s.subrange(start, run_end(s, start, CharClass::Word)));
        let c = s[start];
        if c == '-' && is_number(char_at(s, start + 1)) {
            assert(run_end(s, start + 1, CharClass::Digit) > start + 1);
        }
        if is_number(c) {
            assert(run_end(s, start, CharClass::Digit) > start);
        }
        if is_letter(c) {
            assert(run_end(s, start, CharClass::Word) > start);
        }
    }
}

/// The token stream is finite and ends with the end-of-input token, which
/// stands nowhere else in it.
pub proof fn lemma_tokens_from(s: Seq<char>, file: Seq<char>, pos: int)
    requires
        0 <= pos <= s.len(),
    ensures
        tokens_from(s, file, pos).len() >= 1,
        tokens_from(s, file, pos).last().kind == TokenKind::EOF,
        forall|i: int|
            0 <= i < tokens_from(s, file, pos).len() - 1 ==> (#[trigger] tokens_from(
                s,
                file,
                pos,
            )[i]).kind != TokenKind::EOF,
    decreases s.len() - pos,
{
    let token = token_at(s, file, pos);
    lemma_token_end(s, pos);
    if token.kind != TokenKind::EOF {
        let rest = tokens_from(s, file, token_end(s, pos));
        lemma_tokens_from(s, file, token_end(s, pos));
        let all = tokens_from(s, file, pos);
        assert(all =~= seq![token] + rest);
        assert forall|i: int| 0 <= i < all.len() - 1 implies (#[trigger] all[i]).kind
            != TokenKind::EOF by {
            if i > 0 {
                assert(all[i] == rest[i - 1]);
            }
        }
    }
}

/// No keyword is the end of the input.
pub proof fn lemma_keyword_is_not_eof(word: Seq<char>)
    ensures
        keyword_kind(word) != Some(TokenKind::EOF),
{
}

pub proof fn lemma_line_bounds(s: Seq<char>, i: int)
    requires
        0 <= i <= s.len(),
    ensures
        newlines(s, i) <= i,
        0 <= line_start(s, i) <= i,
    decreases i,
{
    if i > 0 {
        lemma_line_bounds(s, i - 1);
    }
}

/// The lexer: the input, and how far it has been read.
#[derive(Debug)]
pub struct Lexer {
    input: Vec<char>,
    filename: String,
    /// The index of the next character to read.
    position: usize,
    /// The number of line feeds before `position`.
    line_feeds: usize,
    /// The start of the line that holds `position`.
    line_start: usize,
}

/// The model of a [`Lexer`]: the input, the name of its file, and the position
/// from which the next token is read.
pub struct LexerView {
    pub input: Seq<char>,
    pub filename: Seq<char>,
    pub position: int,
}

impl View for Lexer {
    type V = LexerView;

    closed spec fn view(&self) -> LexerView {
        LexerView {
            input: self.input@,
            filename: self.filename@,
            position: self.position as int,
        }
    }
}

impl Lexer {
    /// The lexer's invariant: the position lies within the input, whose length
    /// leaves room for one more line, and the line bookkeeping agrees with the
    /// input read so far.
    pub closed spec fn wf(&self) -> bool {
        &&& self.position <= self.input.len() < usize::MAX
        &&& self.line_feeds == newlines(self.input@, self.position as int)
        &&& self.line_start == line_start(self.input@, self.position as int)
    }

    /// A lexer at the start of `input`, which was read from file `filename`.
    pub fn new(input: String, filename: String) -> (lexer: Self)
        requires
            input@.len() < usize::MAX,
        ensures
            lexer.wf(),
            lexer@ == (LexerView { input: input@, filename: filename@, position: 0 }),
    {
        let chars = chars_of(input.as_str());
        Self { input: chars, filename, position: 0, line_feeds: 0, line_start: 0 }
    }

    /// Reads the next token and moves behind it.
    pub fn next_token(&mut self) -> (token: Token)
        requires
            old(self).wf(),
        ensures
            final(self).wf(),
            final(self)@.input == old(self)@.input,
            final(self)@.filename == old(self)@.filename,
            token@ == token_at(old(self)@.input, old(self)@.filename, old(self)@.position),
            final(self)@.position == token_end(old(self)@.input, old(self)@.position),
    {
        proof {
            lemma_token_end(self.input@, self.position as int);
        }
        self.skip_whitespace();
        let start = self.position;
        let location = Some(self.location());
        let n = self.input.len();
        if start >= n {
            return Token::EOF(location);
        }
        let c = self.input[start];
        let next = Self::peek_next_char(self, Some(1));
        let mut kind = TokenKind::Illegal;
        let mut text: Option<String> = None;
        let mut end: usize = start + 1;
        if c == '=' {
            if next == '=' {
                kind = TokenKind::Eq;
                end = start + 2;
            } else if Self::valid_assign_suffix(next) {
                kind = TokenKind::Assign;
            } else {
                end = if start + 2 <= n {
                    start + 2
                } else {
                    n
                };
                text = Some(text_of(&self.input, start, end));
            }
        } else if c == '+' {
            kind = TokenKind::Plus;
        } else if c == '-' {
            if Self::is_number(Some(next)) {
                let (number, number_text, number_end) = self.read_number(start, start + 1);
                kind = number;
                text = Some(number_text);
                end = number_end;
            } else {
                kind = TokenKind::Minus;
            }
        } else if c == '!' {
            if next == '=' {
                kind = TokenKind::Diff;
                end = start + 2;
            } else {
                kind = TokenKind::Bang;
            }
        } else if c == '/' {
            kind = TokenKind::Slash;
        } else if c == '*' {
            kind = TokenKind::Asterisk;
        } else if c == '<' {
            if next == '=' {
                kind = TokenKind::Lte;
                end = start + 2;
            } else {
                kind = TokenKind::Lt;
            }
        } else if c == '>' {
            if next == '=' {
                kind = TokenKind::Gte;
                end = start + 2;
            } else {
                kind = TokenKind::Gt;
            }
        } else if c == '&' {
            if next == '&' {
                kind = TokenKind::And;
                end = start + 2;
            } else {
                text = Some(text_of(&self.input, start, end));
            }
        } else if c == '|' {
            if next == '|' {
                kind = TokenKind::Or;
                end = start + 2;
            } else {
                text = Some(text_of(&self.input, start, end));
            }
        } else if c == ';' {
            kind = TokenKind::Semicolon;
        } else if c == '(' {
            kind = TokenKind::LParen;
        } else if c == ')' {
            kind = TokenKind::RParen;
        } else if c == '[' {
            kind = TokenKind::LSqBracket;
        } else if c == ']' {
            kind = TokenKind::RSqBracket;
        } else if c == ',' {
            kind = TokenKind::Comma;
        } else if c == '{' {
            kind = TokenKind::LBrace;
        } else if c == '}' {
            kind = TokenKind::Rbrace;
        } else if c == '"' {
            let (string, string_text, string_end) = self.read_string(start);
            kind = string;
            text = Some(string_text);
            end = string_end;
        } else if Self::is_letter(Some(c)) {
            let (word, word_text, word_end) = self.read_identifier(start);
            kind = word;
            text = word_text;
            end = word_end;
        } else if Self::is_number(Some(c)) {
            let (number, number_text, number_end) = self.read_number(start, start);
            kind = number;
            text = Some(number_text);
            end = number_end;
        } else {
            text = Some(text_of(&self.input, start, end));
        }
        self.advance_to(end);
        Token::make(kind, text, location)
    }

    /// Reads all the tokens that are left, the end-of-input token last.
    pub fn tokens(&mut self) -> (tokens: Vec<Token>)
        requires
            old(self).wf(),
        ensures
            final(self).wf(),
            final(self)@.input == old(self)@.input,
            final(self)@.filename == old(self)@.filename,
            final(self)@.position == old(self)@.input.len(),
            tokens.len() > 0,
            token_views(tokens@) == tokens_from(
                old(self)@.input,
                old(self)@.filename,
                old(self)@.position,
            ),
    {
        let mut tokens: Vec<Token> = Vec::new();
        let ghost s = self.input@;
        let ghost file = self.filename@;
        let ghost first = self.position as int;
        loop
            invariant
                self.wf(),
                self.input@ == s,
                self.filename@ == file,
                s == old(self)@.input,
                file == old(self)@.filename,
                first == old(self)@.position,
                0 <= first <= s.len(),
                token_views(tokens@) + tokens_from(s, file, self.position as int) == tokens_from(
                    s,
                    file,
                    first,
                ),
            decreases s.len() - self.position,
        {
            let ghost pos = self.position as int;
            proof {
                lemma_token_end(s, pos);
            }
            let token = self.next_token();
            let done = token.kind() == TokenKind::EOF;
            let ghost before = token_views(tokens@);
            tokens.push(token);
            proof {
                assert(token_views(tokens@) =~= before + seq![token@]);
                if !done {
                    assert(before + (seq![token@] + tokens_from(s, file, self.position as int))
                        =~= (before + seq![token@]) + tokens_from(s, file, self.position as int));
                }
            }
            if done {
                return tokens;
            }
        }
    }

    fn valid_number_suffix(ch: Option<char>) -> (b: bool)
        ensures
            b == (ch matches Some(c) && valid_number_suffix(c)),
    {
        if let Some(ch) = ch {
            Self::is_math_symbol(ch) || Self::is_whitespace(Some(ch)) || ch == ';' || ch == '{'
                || ch == '&' || ch == '\0' || ch == '!' || ch == ',' || ch == ']'
                || Self::is_number(Some(ch))
        } else {
            false
        }
    }

    fn valid_assign_suffix(ch: char) -> (b: bool)
        ensures
            b == valid_assign_suffix(ch),
    {
        Self::is_whitespace(Some(ch)) || ch == '"' || ch == '(' || Self::is_number(Some(ch))
            || Self::is_letter(Some(ch))
    }

    /// Moves over the white space at the position.
    fn skip_whitespace(&mut self)
        requires
            old(self).wf(),
        ensures
            final(self).wf(),
            final(self).input == old(self).input,
            final(self).filename == old(self).filename,
            final(self).position == token_start(old(self).input@, old(self).position as int),
    {
        proof {
            lemma_run_end(self.input@, self.position as int, CharClass::Space);
        }
        let end = self.run(self.position, CharClass::Space);
        self.advance_to(end);
    }

    /// Moves to position `to`, counting the lines on the way.
    fn advance_to(&mut self, to: usize)
        requires
            old(self).wf(),
            old(self).position <= to <= old(self).input.len(),
        ensures
            final(self).wf(),
            final(self).input == old(self).input,
            final(self).filename == old(self).filename,
            final(self).position == to,
    {
        while self.position < to
            invariant
                self.wf(),
                self.input == old(self).input,
                self.filename == old(self).filename,
                self.position <= to <= self.input.len(),
            decreases to - self.position,
        {
            proof {
                lemma_line_bounds(self.input@, self.position as int);
            }
            self.read_char();
        }
    }

    /// Moves over one character.
    fn read_char(&mut self)
        requires
            old(self).wf(),
            old(self).position < old(self).input.len(),
        ensures
            final(self).wf(),
            final(self).input == old(self).input,
            final(self).filename == old(self).filename,
            final(self).position == old(self).position + 1,
    {
        proof {
            lemma_line_bounds(self.input@, self.position as int);
        }
        let c = self.input[self.position];
        self.position += 1;
        if c == '\n' {
            self.line_feeds += 1;
            self.line_start = self.position;
        }
    }

    /// The end of the run of characters of `class` that starts at `from`.
    fn run(&self, from: usize, class: CharClass) -> (end: usize)
        requires
            from <= self.input.len(),
        ensures
            end == run_end(self.input@, from as int, class),
            from <= end <= self.input.len(),
    {
        let mut end = from;
        while end < self.input.len() && class.contains(self.input[end])
            invariant
                from <= end <= self.input.len(),
                run_end(self.input@, end as int, class) == run_end(self.input@, from as int, class),
            decreases self.input.len() - end,
        {
            end += 1;
        }
        end
    }

    /// Reads the numeric literal that starts at `start` and whose digits start
    /// at `digits`.
    fn read_number(&self, start: usize, digits: usize) -> (r: (TokenKind, String, usize))
        requires
            self.wf(),
            start <= digits <= self.input.len(),
            self.position <= start,
        ensures
            r.0 == number_at(self.input@, start as int, digits as int).kind,
            Some(r.1@) == number_at(self.input@, start as int, digits as int).text,
            r.2 == number_at(self.input@, start as int, digits as int).next,
            start <= r.2 <= self.input.len(),
    {
        let end = self.run(digits, CharClass::Digit);
        let text = text_of(&self.input, start, end);
        let suffix = if end < self.input.len() {
            self.input[end]
        } else {
            '\0'
        };
        if Self::valid_number_suffix(Some(suffix)) {
            (TokenKind::Number, text, end)
        } else {
            (TokenKind::Illegal, text, end + 1)
        }
    }

    /// Reads the identifier or keyword that starts at `start`.
    fn read_identifier(&self, start: usize) -> (r: (TokenKind, Option<String>, usize))
        requires
            start <= self.input.len(),
        ensures
            r.0 == word_at(self.input@, start as int).kind,
            crate::lexer::token::text_view(r.1) == word_at(self.input@, start as int).text,
            r.2 == word_at(self.input@, start as int).next,
            start <= r.2 <= self.input.len(),
    {
        let end = self.run(start, CharClass::Word);
        let word = text_of(&self.input, start, end);
        match keyword(word.as_str()) {
            Some(kind) => (kind, None, end),
            None => (TokenKind::Ident, Some(word), end),
        }
    }

    /// Reads the string literal whose opening quote is at `start`.
    fn read_string(&self, start: usize) -> (r: (TokenKind, String, usize))
        requires
            start < self.input.len(),
        ensures
            r.0 == string_at(self.input@, start as int).kind,
            Some(r.1@) == string_at(self.input@, start as int).text,
            r.2 == string_at(self.input@, start as int).next,
            start < r.2 <= self.input.len(),
    {
        let end = self.run(start + 1, CharClass::Quoted);
        let text = text_of(&self.input, start + 1, end);
        if end < self.input.len() {
            (TokenKind::String, text, end + 1)
        } else {
            (TokenKind::Illegal, text, end)
        }
    }

    /// The character `offset` places behind the position, or `'\0'` past the
    /// end of the input; without an offset, the character at the position.
    fn peek_next_char(input: &Self, offset: Option<usize>) -> (c: char)
        requires
            input.wf(),
        ensures
            c == char_at(
                input.input@,
                input.position + (match offset {
                    Some(o) => o as int,
                    None => 0,
                }),
            ),
    {
        let offset = if let Some(offset) = offset {
            offset
        } else {
            0
        };
        if offset < input.input.len() - input.position {
            input.input[input.position + offset]
        } else {
            '\0'
        }
    }

    /// The location of the position.
    fn location(&self) -> (l: Location)
        requires
            self.wf(),
        ensures
            l@ == location_at(self.input@, self.filename@, self.position as int),
    {
        proof {
            lemma_line_bounds(self.input@, self.position as int);
        }
        Location::new(self.position - self.line_start, self.line_feeds + 1, self.filename.clone())
    }

    fn is_letter(ch: Option<char>) -> (b: bool)
        ensures
            b == (ch matches Some(c) && is_letter(c)),
    {
        if let Some(ch) = ch {
            ('a' <= ch && ch <= 'z') || ('A' <= ch && ch <= 'Z') || ch == '_'
        } else {
            false
        }
    }

    fn is_number(ch: Option<char>) -> (b: bool)
        ensures
            b == (ch matches Some(c) && is_number(c)),
    {
        if let Some(ch) = ch {
            '0' <= ch && ch <= '9'
        } else {
            false
        }
    }

    fn is_whitespace(ch: Option<char>) -> (b: bool)
        ensures
            b == (ch matches Some(c) && is_whitespace(c)),
    {
        if let Some(ch) = ch {
            ch == ' ' || ch == '\t' || ch == '\n' || ch == '\r'
        } else {
            false
        }
    }

    fn is_math_symbol(ch: char) -> (b: bool)
        ensures
            b == is_math_symbol(ch),
    {
        ch == '*' || ch == '/' || ch == '+' || ch == '-' || ch == ')' || ch == '(' || ch == '>'
            || ch == '<' || ch == '='
    }
}

} // verus!
