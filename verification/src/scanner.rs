//! The scanner: what it makes of a program text, and the code that
//! does so.

use vstd::prelude::*;
use vstd::string::StrSliceExecFns;
use vstd::string::StringExecFns;

use crate::error::error_views;
use crate::error::LoxError;
use crate::error::LoxErrorView;
use crate::token::keyword_of;
use crate::token::parse_keyword;
use crate::token::token_views;
use crate::token::Number;
use crate::token::NumberView;
use crate::token::Token;
use crate::token::TokenLiteral;
use crate::token::TokenLiteralView;
use crate::token::TokenType;
use crate::token::TokenView;

verus! {

pub open spec fn is_digit(c: char) -> bool {
    '0' <= c && c <= '9'
}

pub open spec fn is_alpha(c: char) -> bool {
    ('a' <= c && c <= 'z') || ('A' <= c && c <= 'Z') || c == '_'
}

pub open spec fn is_alpha_numeric(c: char) -> bool {
    is_digit(c) || is_alpha(c)
}

/// The classes of character that the scanner reads in runs.
#[derive(Debug, Clone, Copy, PartialEq, Eq, Structural)]
pub enum CharClass {
    /// A decimal digit.
    Digit,
    /// A letter, an underscore or a decimal digit.
    Word,
    /// Anything but a line feed: the inside of a line comment.
    Comment,
    /// Anything but a double quote: the inside of a string.
    Quoted,
}

pub open spec fn in_class(class: CharClass, c: char) -> bool {
    match class {
        CharClass::Digit => is_digit(c),
        CharClass::Word => is_alpha_numeric(c),
        CharClass::Comment => c != '\n',
        CharClass::Quoted => c != '"',
    }
}

/// Where the longest run of characters of one class that starts at `from`
/// ends: the index of the first character outside the class, or the length
/// of the text.
pub open spec fn run_end(source: Seq<char>, from: int, class: CharClass) -> int
    decreases source.len() - from,
{
    if 0 <= from < source.len() && in_class(class, source[from]) {
        run_end(source, from + 1, class)
    } else {
        from
    }
}

/// Where a block comment whose body starts at `from` ends: just behind the
/// first `*/` at or after `from`, or at the end of the text when there is
/// none.
pub open spec fn comment_end(source: Seq<char>, from: int) -> int
    decreases source.len() - from,
{
    if from < 0 || from + 1 >= source.len() {
        source.len() as int
    } else if source[from] == '*' && source[from + 1] == '/' {
        from + 2
    } else {
        comment_end(source, from + 1)
    }
}

/// The number of line feeds among the characters from `from` up to `to`.
pub open spec fn newlines(source: Seq<char>, from: int, to: int) -> nat
    decreases to - from,
{
    if from < 0 || to > source.len() || from >= to {
        0
    } else {
        newlines(source, from, to - 1) + if source[to - 1] == '\n' {
            1nat
        } else {
            0nat
        }
    }
}

/// A line number moved on by a count of line feeds. It stops at the
/// largest number the machine can hold.
pub open spec fn bump(line: usize, count: nat) -> usize {
    if line + count > usize::MAX {
        usize::MAX
    } else {
        (line + count) as usize
    }
}

/// What the scanner makes of the text at one position: where it goes on,
/// the line it is on by then, and the token or the diagnostic, if any.
pub struct Lexed {
    pub next: int,
    pub line: usize,
    pub token: Option<TokenView>,
    pub error: Option<LoxErrorView>,
}

/// A token without a literal value, made of the characters from `pos` up
/// to `next`.
pub open spec fn plain(source: Seq<char>, pos: int, next: int, line: usize, token_type: TokenType) -> Lexed {
    Lexed {
        next,
        line,
        token: Some(
            TokenView { lexeme: source.subrange(pos, next), token_type, literal: None, line },
        ),
        error: None,
    }
}

/// Characters passed over without a token.
pub open spec fn skipped(next: int, line: usize) -> Lexed {
    Lexed { next, line, token: None, error: None }
}

/// A diagnostic in place of a token.
pub open spec fn refused(next: int, line: usize, message: Seq<char>) -> Lexed {
    Lexed {
        next,
        line,
        token: None,
        error: Some(LoxErrorView { line, location: Seq::empty(), message }),
    }
}

/// Whether the character behind the one at `pos` is `c`.
pub open spec fn followed_by(source: Seq<char>, pos: int, c: char) -> bool {
    pos + 1 < source.len() && source[pos + 1] == c
}

/// An operator of one character, or of two when `=` follows.
pub open spec fn one_or_two(
    source: Seq<char>,
    pos: int,
    line: usize,
    single: TokenType,
    double: TokenType,
) -> Lexed {
    if followed_by(source, pos, '=') {
        plain(source, pos, pos + 2, line, double)
    } else {
        plain(source, pos, pos + 1, line, single)
    }
}

/// Where the numeral that starts at `pos` ends: behind its digits, and
/// behind a fraction when a dot and at least one digit follow them.
pub open spec fn number_end(source: Seq<char>, pos: int) -> int {
    let whole = run_end(source, pos + 1, CharClass::Digit);
    if whole + 1 < source.len() && source[whole] == '.' && is_digit(source[whole + 1]) {
        run_end(source, whole + 2, CharClass::Digit)
    } else {
        whole
    }
}

/// The kind of a word: that of the keyword it spells, or an identifier.
pub open spec fn word_type(text: Seq<char>) -> TokenType {
    match keyword_of(text) {
        Some(token_type) => token_type,
        None => TokenType::IDENTIFIER,
    }
}

/// The string literal that opens at `pos`: a token when a closing quote
/// follows, a diagnostic when the text ends first. Line feeds inside the
/// literal count.
pub open spec fn scan_string(source: Seq<char>, pos: int, line: usize) -> Lexed {
    let close = run_end(source, pos + 1, CharClass::Quoted);
    let last_line = bump(line, newlines(source, pos + 1, close));
    if close >= source.len() {
        refused(close, last_line, "Unterminated string."@)
    } else {
        Lexed {
            next: close + 1,
            line: last_line,
            token: Some(
                TokenView {
                    lexeme: source.subrange(pos, close + 1),
                    token_type: TokenType::STRING,
                    literal: Some(TokenLiteralView::Text(source.subrange(pos + 1, close))),
                    line: last_line,
                },
            ),
            error: None,
        }
    }
}

/// The numeral that starts at `pos`. Its literal value is the numeral
/// itself.
pub open spec fn scan_number(source: Seq<char>, pos: int, line: usize) -> Lexed {
    let end = number_end(source, pos);
    let text = source.subrange(pos, end);
    Lexed {
        next: end,
        line,
        token: Some(
            TokenView {
                lexeme: text,
                token_type: TokenType::NUMBER,
                literal: Some(TokenLiteralView::Float(NumberView::Decimal(text))),
                line,
            },
        ),
        error: None,
    }
}

/// What starts with a slash: a comment up to the end of the line, a block
/// comment, or the division operator.
pub open spec fn scan_slash(source: Seq<char>, pos: int, line: usize) -> Lexed {
    if followed_by(source, pos, '/') {
        skipped(run_end(source, pos + 2, CharClass::Comment), line)
    } else if followed_by(source, pos, '*') {
        let end = comment_end(source, pos + 2);
        skipped(end, bump(line, newlines(source, pos + 2, end)))
    } else {
        plain(source, pos, pos + 1, line, TokenType::SLASH)
    }
}

/// What the scanner makes of the text at `pos`, which lies inside the text.
pub open spec fn scan_token(source: Seq<char>, pos: int, line: usize) -> Lexed {
    let c = source[pos];
    if c == '(' {
        plain(source, pos, pos + 1, line, TokenType::LEFTPAREN)
    } else if c == ')' {
        plain(source, pos, pos + 1, line, TokenType::RIGHTPAREN)
    } else if c == '{' {
        plain(source, pos, pos + 1, line, TokenType::LEFTBRACE)
    } else if c == '}' {
        plain(source, pos, pos + 1, line, TokenType::RIGHTBRACE)
    } else if c == ',' {
        plain(source, pos, pos + 1, line, TokenType::COMMA)
    } else if c == '.' {
        plain(source, pos, pos + 1, line, TokenType::DOT)
    } else if c == '-' {
        plain(source, pos, pos + 1, line, TokenType::MINUS)
    } else if c == '+' {
        plain(source, pos, pos + 1, line, TokenType::PLUS)
    } else if c == ';' {
        plain(source, pos, pos + 1, line, TokenType::SEMICOLON)
    } else if c == '*' {
        plain(source, pos, pos + 1, line, TokenType::STAR)
    } else if c == '?' {
        plain(source, pos, pos + 1, line, TokenType::QUESTION)
    } else if c == ':' {
        plain(source, pos, pos + 1, line, TokenType::COLON)
    } else if c == '!' {
        one_or_two(source, pos, line, TokenType::BANG, TokenType::BANGEQUAL)
    } else if c == '=' {
        one_or_two(source, pos, line, TokenType::EQUAL, TokenType::EQUALEQUAL)
    } else if c == '<' {
        one_or_two(source, pos, line, TokenType::LESS, TokenType::LESSEQUAL)
    } else if c == '>' {
        one_or_two(source, pos, line, TokenType::GREATER, TokenType::GREATEREQUAL)
    } else if c == '/' {
        scan_slash(source, pos, line)
    } else if c == ' ' || c == '\r' || c == '\t' {
        skipped(pos + 1, line)
    } else if c == '\n' {
        skipped(pos + 1, bump(line, 1))
    } else if c == '"' {
        scan_string(source, pos, line)
    } else if is_digit(c) {
        scan_number(source, pos, line)
    } else if is_alpha(c) {
        let end = run_end(source, pos + 1, CharClass::Word);
        plain(source, pos, end, line, word_type(source.subrange(pos, end)))
    } else {
        refused(pos + 1, line, "Unexpected character."@)
    }
}

/// The tokens and the diagnostics of a scan.
pub struct Scanned {
    pub tokens: Seq<TokenView>,
    pub errors: Seq<LoxErrorView>,
}

/// The token that closes every scan.
pub open spec fn end_token(line: usize) -> TokenView {
    TokenView { lexeme: Seq::empty(), token_type: TokenType::EOF, literal: None, line }
}

pub open spec fn optional<A>(item: Option<A>) -> Seq<A> {
    match item {
        Some(a) => seq![a],
        None => Seq::empty(),
    }
}

/// The scan of the text from `pos` on, begun on line `line`: the tokens in
/// the order of the text, then the closing token, and the diagnostics in
/// the order in which they were raised.
pub open spec fn scan_from(source: Seq<char>, pos: int, line: usize) -> Scanned
    decreases source.len() - pos,
{
    if pos < 0 || pos >= source.len() {
        Scanned { tokens: seq![end_token(line)], errors: Seq::empty() }
    } else {
        let step = scan_token(source, pos, line);
        if step.next <= pos || step.next > source.len() {
            Scanned { tokens: seq![end_token(line)], errors: Seq::empty() }
        } else {
            let rest = scan_from(source, step.next, step.line);
            Scanned {
                tokens: optional(step.token) + rest.tokens,
                errors: optional(step.error) + rest.errors,
            }
        }
    }
}

/// The scan of a whole text.
pub open spec fn scan(source: Seq<char>) -> Scanned {
    scan_from(source, 0, 1)
}

/// A run ends at or behind its start, inside the text, and on a character
/// outside the class unless the text ends there.
pub proof fn lemma_run_end(source: Seq<char>, from: int, class: CharClass)
    requires
        0 <= from <= source.len(),
    ensures
        from <= run_end(source, from, class) <= source.len(),
        run_end(source, from, class) < source.len() ==> !in_class(
            class,
            source[run_end(source, from, class)],
        ),
        forall|i: int| from <= i < run_end(source, from, class) ==> in_class(class, source[i]),
    decreases source.len() - from,
{
    if from < source.len() && in_class(class, source[from]) {
        lemma_run_end(source, from + 1, class);
    }
}

/// A block comment ends behind its start and inside the text.
pub proof fn lemma_comment_end(source: Seq<char>, from: int)
    requires
        0 <= from <= source.len(),
    ensures
        from <= comment_end(source, from) <= source.len(),
    decreases source.len() - from,
{
    if from + 1 < source.len() && !(source[from] == '*' && source[from + 1] == '/') {
        lemma_comment_end(source, from + 1);
    }
}

/// Every step of the scanner moves on by at least one character and stays
/// inside the text.
pub proof fn lemma_scan_token_advances(source: Seq<char>, pos: int, line: usize)
    requires
        0 <= pos < source.len(),
    ensures
        pos < scan_token(source, pos, line).next <= source.len(),
{
    lemma_run_end(source, pos + 1, CharClass::Digit);
    lemma_run_end(source, pos + 1, CharClass::Word);
    lemma_run_end(source, pos + 1, CharClass::Quoted);
    if pos + 2 <= source.len() {
        lemma_run_end(source, pos + 2, CharClass::Comment);
        lemma_comment_end(source, pos + 2);
    }
    let whole = run_end(source, pos + 1, CharClass::Digit);
    if whole + 2 <= source.len() {
        lemma_run_end(source, whole + 2, CharClass::Digit);
    }
}

/// No step of the scanner yields the closing token.
pub proof fn lemma_scan_token_kind(source: Seq<char>, pos: int, line: usize)
    requires
        0 <= pos < source.len(),
    ensures
        scan_token(source, pos, line).token matches Some(token) ==> token.token_type
            != TokenType::EOF,
{
}

/// Every scan ends with the closing token, and holds no other.
pub proof fn lemma_scan_ends_with_eof(source: Seq<char>, pos: int, line: usize)
    ensures
        scan_from(source, pos, line).tokens.len() >= 1,
        scan_from(source, pos, line).tokens.last().token_type == TokenType::EOF,
        forall|i: int|
            0 <= i < scan_from(source, pos, line).tokens.len() - 1 ==> (#[trigger] scan_from(
                source,
                pos,
                line,
            ).tokens[i]).token_type != TokenType::EOF,
    decreases source.len() - pos,
{
    if 0 <= pos < source.len() {
        let step = scan_token(source, pos, line);
        if pos < step.next <= source.len() {
            lemma_scan_ends_with_eof(source, step.next, step.line);
            lemma_scan_token_kind(source, pos, line);
            let rest = scan_from(source, step.next, step.line).tokens;
            let all = scan_from(source, pos, line).tokens;
            assert(all == optional(step.token) + rest);
            assert forall|i: int| 0 <= i < all.len() - 1 implies (#[trigger] all[i]).token_type
                != TokenType::EOF by {
                if i >= optional(step.token).len() {
                    assert(all[i] == rest[i - optional(step.token).len()]);
                }
            }
        }
    }
}

/// Reads a program text into tokens.
pub struct Scanner {
    source: String,
    chars: Vec<char>,
    tokens: Vec<Token>,
    errors: Vec<LoxError>,
    start: usize,
    curr: usize,
    line: usize,
    pub is_error: bool,
}

/// What a scanner holds: the text, the tokens and diagnostics made so far,
/// and where it stands in the text.
pub struct ScannerView {
    pub source: Seq<char>,
    pub tokens: Seq<TokenView>,
    pub errors: Seq<LoxErrorView>,
    pub start: usize,
    pub curr: usize,
    pub line: usize,
    pub is_error: bool,
}

impl View for Scanner {
    type V = ScannerView;

    closed spec fn view(&self) -> ScannerView {
        ScannerView {
            source: self.source@,
            tokens: token_views(self.tokens@),
            errors: error_views(self.errors@),
            start: self.start,
            curr: self.curr,
            line: self.line,
            is_error: self.is_error,
        }
    }
}

/// The characters of a text, one by one.
pub fn characters(text: &str) -> (chars: Vec<char>)
    ensures
        chars@ == text@,
{
    let mut chars: Vec<char> = Vec::new();
    for c in it: text.chars()
        invariant
            chars@ == it.seq().take(it.index()),
    {
        chars.push(c);
    }
    chars
}

/// A line number moved on by one line feed.
pub fn next_line(line: usize) -> (next: usize)
    ensures
        next == bump(line, 1),
{
    if line < usize::MAX {
        line + 1
    } else {
        line
    }
}

impl Scanner {
    /// Whether the scanner's own copies of the text agree and its position
    /// lies inside the text.
    pub closed spec fn wf(&self) -> bool {
        &&& self.chars@ == self.source@
        &&& self.start <= self.curr <= self.chars@.len() <= usize::MAX
    }

    /// Whether any diagnostic was raised so far.
    pub fn had_error(&self) -> (flag: bool)
        ensures
            flag == self@.is_error,
    {
        self.is_error
    }

    /// The diagnostics raised so far, in order.
    pub fn diagnostics(&self) -> (errors: Vec<LoxError>)
        ensures
            error_views(errors@) == self@.errors,
    {
        let mut errors: Vec<LoxError> = Vec::new();
        let mut i: usize = 0;
        while i < self.errors.len()
            invariant
                i <= self.errors@.len(),
                errors@.len() == i,
                forall|j: int| 0 <= j < i ==> errors@[j] == self.errors@[j],
            decreases self.errors@.len() - i,
        {
            errors.push(self.errors[i].duplicate());
            i += 1;
        }
        assert(errors@ =~= self.errors@);
        errors
    }

    pub fn new(source: String) -> (scanner: Scanner)
        ensures
            scanner.wf(),
            scanner@ == (ScannerView {
                source: source@,
                tokens: Seq::empty(),
                errors: Seq::empty(),
                start: 0,
                curr: 0,
                line: 1,
                is_error: false,
            }),
    {
        let chars = characters(source.as_str());
        assert(chars@.len() == chars.len());
        let scanner = Scanner {
            source,
            chars,
            is_error: false,
            tokens: Vec::new(),
            errors: Vec::new(),
            start: 0,
            curr: 0,
            line: 1,
        };
        assert(scanner@.tokens =~= Seq::empty());
        assert(scanner@.errors =~= Seq::empty());
        scanner
    }

    fn is_at_end(&self) -> (at_end: bool)
        ensures
            at_end == (self.curr >= self.chars@.len()),
    {
        self.curr >= self.chars.len()
    }

    /// Scans the rest of the text. The tokens made are added to those of
    /// earlier calls, the closing token comes last, and all of them are
    /// handed back.
    pub fn scan_tokens(&mut self) -> (tokens: Vec<Token>)
        requires
            old(self).wf(),
        ensures
            final(self).wf(),
            token_views(tokens@) == final(self)@.tokens,
            final(self)@ == (ScannerView {
                tokens: old(self)@.tokens + scan_from(
                    old(self)@.source,
                    old(self)@.curr as int,
                    old(self)@.line,
                ).tokens,
                errors: old(self)@.errors + scan_from(
                    old(self)@.source,
                    old(self)@.curr as int,
                    old(self)@.line,
                ).errors,
                is_error: old(self)@.is_error || scan_from(
                    old(self)@.source,
                    old(self)@.curr as int,
                    old(self)@.line,
                ).errors.len() > 0,
                ..final(self)@
            }),
            final(self)@.source == old(self)@.source,
            final(self)@.curr == old(self)@.source.len(),
    {
        let ghost source = self.source@;
        let ghost whole = scan_from(source, self.curr as int, self.line);
        let ghost tokens0 = self@.tokens;
        let ghost errors0 = self@.errors;
        let ghost flag0 = self.is_error;
        while !self.is_at_end()
            invariant
                self.wf(),
                self.source@ == source,
                tokens0 + whole.tokens == self@.tokens + scan_from(
                    source,
                    self.curr as int,
                    self.line,
                ).tokens,
                errors0 + whole.errors == self@.errors + scan_from(
                    source,
                    self.curr as int,
                    self.line,
                ).errors,
                self.is_error == (flag0 || whole.errors.len() > scan_from(
                    source,
                    self.curr as int,
                    self.line,
                ).errors.len()),
                whole.errors.len() >= scan_from(source, self.curr as int, self.line).errors.len(),
            decreases self.chars@.len() - self.curr,
        {
            self.start = self.curr;
            let ghost before = self@;
            proof {
                lemma_scan_token_advances(source, self.curr as int, self.line);
            }
            self.scan_token();
            proof {
                let step = scan_token(source, before.curr as int, before.line);
                let rest = scan_from(source, step.next, step.line);
                let here = scan_from(source, before.curr as int, before.line);
                assert(here.tokens == optional(step.token) + rest.tokens);
                assert(here.errors == optional(step.error) + rest.errors);
                assert(before.tokens + here.tokens =~= (before.tokens + optional(step.token))
                    + rest.tokens);
                assert(before.errors + here.errors =~= (before.errors + optional(step.error))
                    + rest.errors);
            }
        }
        let end = Token {
            lexeme: String::new(),
            token_type: TokenType::EOF,
            literal: None,
            line: self.line,
        };
        proof {
            assert(end@ == end_token(self.line));
            assert(token_views(self.tokens@.push(end)) =~= token_views(self.tokens@).push(end@));
            assert(scan_from(source, self.curr as int, self.line).tokens =~= seq![
                end_token(self.line),
            ]);
            assert(self@.tokens + seq![end_token(self.line)] =~= self@.tokens.push(end@));
            assert(self@.errors + Seq::<LoxErrorView>::empty() =~= self@.errors);
        }
        self.tokens.push(end);
        let mut tokens: Vec<Token> = Vec::new();
        let mut i: usize = 0;
        while i < self.tokens.len()
            invariant
                i <= self.tokens@.len(),
                tokens@.len() == i,
                forall|j: int| 0 <= j < i ==> tokens@[j] == self.tokens@[j],
            decreases self.tokens@.len() - i,
        {
            tokens.push(self.tokens[i].duplicate());
            i += 1;
        }
        assert(tokens@ =~= self.tokens@);
        tokens
    }

    fn get_char_from_source(&self, idx: usize) -> (c: char)
        ensures
            c == (if idx < self.chars@.len() {
                self.chars@[idx as int]
            } else {
                '\0'
            }),
    {
        if idx >= self.chars.len() {
            return '\0';
        }
        self.chars[idx]
    }

    fn advance(&mut self) -> (c: char)
        requires
            old(self).wf(),
            old(self).curr < old(self).chars@.len(),
        ensures
            final(self).wf(),
            c == old(self).chars@[old(self).curr as int],
            *final(self) == (Scanner { curr: (old(self).curr + 1) as usize, ..*old(self) }),
    {
        let c = self.get_char_from_source(self.curr);
        self.curr += 1;
        c
    }

    /// Scans one token, a comment or a blank at the current position.
    fn scan_token(&mut self)
        requires
            old(self).wf(),
            old(self).start == old(self).curr,
            old(self).curr < old(self).chars@.len(),
        ensures
            final(self).wf(),
            final(self).source == old(self).source,
            final(self).curr == scan_token(
                old(self).source@,
                old(self).curr as int,
                old(self).line,
            ).next,
            final(self).line == scan_token(
                old(self).source@,
                old(self).curr as int,
                old(self).line,
            ).line,
            final(self)@.tokens == old(self)@.tokens + optional(
                scan_token(old(self).source@, old(self).curr as int, old(self).line).token,
            ),
            final(self)@.errors == old(self)@.errors + optional(
                scan_token(old(self).source@, old(self).curr as int, old(self).line).error,
            ),
            final(self).is_error == (old(self).is_error || scan_token(
                old(self).source@,
                old(self).curr as int,
                old(self).line,
            ).error is Some),
    {
        let ghost source = self.source@;
        let ghost pos = self.curr as int;
        proof {
            lemma_scan_token_advances(source, pos, self.line);
            assert(self@.tokens + Seq::<TokenView>::empty() =~= self@.tokens);
            assert(self@.errors + Seq::<LoxErrorView>::empty() =~= self@.errors);
        }
        let c = self.advance();
        if c == '(' {
            self.add_token(TokenType::LEFTPAREN, None);
        } else if c == ')' {
            self.add_token(TokenType::RIGHTPAREN, None);
        } else if c == '{' {
            self.add_token(TokenType::LEFTBRACE, None);
        } else if c == '}' {
            self.add_token(TokenType::RIGHTBRACE, None);
        } else if c == ',' {
            self.add_token(TokenType::COMMA, None);
        } else if c == '.' {
            self.add_token(TokenType::DOT, None);
        } else if c == '-' {
            self.add_token(TokenType::MINUS, None);
        } else if c == '+' {
            self.add_token(TokenType::PLUS, None);
        } else if c == ';' {
            self.add_token(TokenType::SEMICOLON, None);
        } else if c == '*' {
            self.add_token(TokenType::STAR, None);
        } else if c == '?' {
            self.add_token(TokenType::QUESTION, None);
        } else if c == ':' {
            self.add_token(TokenType::COLON, None);
        } else if c == '!' {
            let curr_type = if self.match_char('=') {
                TokenType::BANGEQUAL
            } else {
                TokenType::BANG
            };
            self.add_token(curr_type, None);
        } else if c == '=' {
            let curr_type = if self.match_char('=') {
                TokenType::EQUALEQUAL
            } else {
                TokenType::EQUAL
            };
            self.add_token(curr_type, None);
        } else if c == '<' {
            let curr_type = if self.match_char('=') {
                TokenType::LESSEQUAL
            } else {
                TokenType::LESS
            };
            self.add_token(curr_type, None);
        } else if c == '>' {
            let curr_type = if self.match_char('=') {
                TokenType::GREATEREQUAL
            } else {
                TokenType::GREATER
            };
            self.add_token(curr_type, None);
        } else if c == '/' {
            let next = self.peek();
            if !self.is_at_end() && next == '/' {
                self.curr += 1;
                self.skip_run(CharClass::Comment);
            } else if !self.is_at_end() && next == '*' {
                self.curr += 1;
                self.comment_to_end();
            } else {
                self.add_token(TokenType::SLASH, None);
            }
        } else if c == ' ' || c == '\r' || c == '\t' {
        } else if c == '\n' {
            self.line = next_line(self.line);
        } else if c == '"' {
            self.string_to_end();
        } else if self.is_digit(c) {
            self.number_to_end();
        } else if self.is_alph(c) {
            self.identifier_to_end();
        } else {
            self.is_error = true;
            self.add_error("Unexpected character.");
        }
    }

    /// Moves on to the end of the run of characters of one class that
    /// starts at the current position.
    fn skip_run(&mut self, class: CharClass)
        requires
            old(self).wf(),
        ensures
            final(self).wf(),
            *final(self) == (Scanner {
                curr: run_end(old(self).source@, old(self).curr as int, class) as usize,
                ..*old(self)
            }),
            final(self).curr == run_end(old(self).source@, old(self).curr as int, class),
    {
        let ghost from = self.curr as int;
        let ghost before = *self;
        while self.curr < self.chars.len() && self.belongs(class, self.chars[self.curr])
            invariant
                self.wf(),
                from <= self.curr,
                *self == (Scanner { curr: self.curr, ..before }),
                run_end(self.source@, from, class) == run_end(
                    self.source@,
                    self.curr as int,
                    class,
                ),
            decreases self.chars@.len() - self.curr,
        {
            self.curr += 1;
        }
    }

    /// Whether a character is of a class.
    fn belongs(&self, class: CharClass, c: char) -> (b: bool)
        ensures
            b == in_class(class, c),
    {
        match class {
            CharClass::Digit => self.is_digit(c),
            CharClass::Word => self.is_alph_numeric(c),
            CharClass::Comment => c != '\n',
            CharClass::Quoted => c != '"',
        }
    }

    /// Moves on behind the block comment whose body starts at the current
    /// position, and counts its line feeds.
    fn comment_to_end(&mut self)
        requires
            old(self).wf(),
        ensures
            final(self).wf(),
            *final(self) == (Scanner {
                curr: comment_end(old(self).source@, old(self).curr as int) as usize,
                line: bump(
                    old(self).line,
                    newlines(
                        old(self).source@,
                        old(self).curr as int,
                        comment_end(old(self).source@, old(self).curr as int),
                    ),
                ),
                ..*old(self)
            }),
            final(self).curr == comment_end(old(self).source@, old(self).curr as int),
    {
        let ghost from = self.curr as int;
        let ghost before = *self;
        let ghost source = self.source@;
        let len = self.chars.len();
        while len - self.curr > 1 && !(self.chars[self.curr] == '*' && self.chars[self.curr + 1]
            == '/')
            invariant
                self.wf(),
                0 <= from,
                len == self.chars@.len(),
                source == self.source@,
                from <= self.curr,
                *self == (Scanner { curr: self.curr, line: self.line, ..before }),
                comment_end(source, from) == comment_end(source, self.curr as int),
                self.line == bump(before.line, newlines(source, from, self.curr as int)),
            decreases len - self.curr,
        {
            if self.chars[self.curr] == '\n' {
                self.line = next_line(self.line);
            }
            self.curr += 1;
        }
        if len - self.curr > 1 {
            assert(newlines(source, from, self.curr + 2) == newlines(source, from, self.curr + 1));
            assert(newlines(source, from, self.curr + 1) == newlines(
                source,
                from,
                self.curr as int,
            ));
            self.curr += 2;
        } else {
            while self.curr < len
                invariant
                    self.wf(),
                    len == self.chars@.len(),
                    source == self.source@,
                    0 <= from <= self.curr,
                    self.curr + 1 >= len,
                    *self == (Scanner { curr: self.curr, line: self.line, ..before }),
                    comment_end(source, from) == len,
                    self.line == bump(before.line, newlines(source, from, self.curr as int)),
                decreases len - self.curr,
            {
                if self.chars[self.curr] == '\n' {
                    self.line = next_line(self.line);
                }
                self.curr += 1;
            }
        }
    }

    fn identifier_to_end(&mut self)
        requires
            old(self).wf(),
            old(self).start + 1 == old(self).curr,
        ensures
            final(self).wf(),
            final(self).source == old(self).source,
            final(self).line == old(self).line,
            final(self).is_error == old(self).is_error,
            final(self).curr == run_end(old(self).source@, old(self).curr as int, CharClass::Word),
            final(self)@.errors == old(self)@.errors,
            final(self)@.tokens == old(self)@.tokens.push(
                TokenView {
                    lexeme: old(self).source@.subrange(
                        old(self).start as int,
                        final(self).curr as int,
                    ),
                    token_type: word_type(
                        old(self).source@.subrange(old(self).start as int, final(self).curr as int),
                    ),
                    literal: None,
                    line: old(self).line,
                },
            ),
    {
        proof {
            lemma_run_end(self.source@, self.curr as int, CharClass::Word);
        }
        self.skip_run(CharClass::Word);
        let text = self.sub_string(self.start, self.curr);
        let curr_type = match parse_keyword(text.as_str()) {
            Some(token_type) => token_type,
            None => TokenType::IDENTIFIER,
        };
        self.add_token(curr_type, None);
    }

    fn string_to_end(&mut self)
        requires
            old(self).wf(),
            old(self).start + 1 == old(self).curr,
        ensures
            final(self).wf(),
            final(self).source == old(self).source,
            final(self).curr == scan_string(
                old(self).source@,
                old(self).start as int,
                old(self).line,
            ).next,
            final(self).line == scan_string(
                old(self).source@,
                old(self).start as int,
                old(self).line,
            ).line,
            final(self)@.tokens == old(self)@.tokens + optional(
                scan_string(old(self).source@, old(self).start as int, old(self).line).token,
            ),
            final(self)@.errors == old(self)@.errors + optional(
                scan_string(old(self).source@, old(self).start as int, old(self).line).error,
            ),
            final(self).is_error == (old(self).is_error || scan_string(
                old(self).source@,
                old(self).start as int,
                old(self).line,
            ).error is Some),
    {
        let ghost from = self.curr as int;
        let ghost before = *self;
        let ghost source = self.source@;
        proof {
            lemma_run_end(source, from, CharClass::Quoted);
            assert(self@.tokens + Seq::<TokenView>::empty() =~= self@.tokens);
            assert(self@.errors + Seq::<LoxErrorView>::empty() =~= self@.errors);
        }
        while self.peek() != '"' && !self.is_at_end()
            invariant
                self.wf(),
                source == self.source@,
                0 <= from <= self.curr,
                *self == (Scanner { curr: self.curr, line: self.line, ..before }),
                run_end(source, from, CharClass::Quoted) == run_end(
                    source,
                    self.curr as int,
                    CharClass::Quoted,
                ),
                self.line == bump(before.line, newlines(source, from, self.curr as int)),
            decreases self.chars@.len() - self.curr,
        {
            if self.peek() == '\n' {
                self.line = next_line(self.line);
            }
            self.advance();
        }
        if self.is_at_end() {
            self.is_error = true;
            self.add_error("Unterminated string.");
            return ;
        }
        self.advance();
        let curr_str = self.sub_string(self.start + 1, self.curr - 1);
        self.add_token(TokenType::STRING, Some(TokenLiteral::Text(curr_str)));
    }

    fn number_to_end(&mut self)
        requires
            old(self).wf(),
            old(self).start + 1 == old(self).curr,
        ensures
            final(self).wf(),
            final(self).source == old(self).source,
            final(self).line == old(self).line,
            final(self).is_error == old(self).is_error,
            final(self).curr == number_end(old(self).source@, old(self).start as int),
            final(self)@.errors == old(self)@.errors,
            final(self)@.tokens == old(self)@.tokens + optional(
                scan_number(old(self).source@, old(self).start as int, old(self).line).token,
            ),
    {
        let ghost source = self.source@;
        proof {
            lemma_run_end(source, self.curr as int, CharClass::Digit);
        }
        self.skip_run(CharClass::Digit);
        if self.peek() == '.' && self.is_digit(self.peek_next()) {
            proof {
                lemma_run_end(source, self.curr + 2, CharClass::Digit);
                assert(run_end(source, self.curr + 1, CharClass::Digit) == run_end(
                    source,
                    self.curr + 2,
                    CharClass::Digit,
                ));
            }
            self.advance();
            self.skip_run(CharClass::Digit);
        }
        let num = self.sub_string(self.start, self.curr);
        let ghost shown = old(self)@.tokens.push(
            scan_number(source, old(self).start as int, old(self).line).token->0,
        );
        self.add_token(TokenType::NUMBER, Some(TokenLiteral::Float(Number::Decimal(num))));
        assert(self@.tokens == shown);
        assert(shown =~= old(self)@.tokens + optional(
            scan_number(source, old(self).start as int, old(self).line).token,
        ));
    }

    fn peek_next(&self) -> (c: char)
        ensures
            c == (if self.curr + 1 < self.chars@.len() {
                self.chars@[self.curr + 1]
            } else {
                '\0'
            }),
    {
        if self.curr >= self.chars.len() || self.curr + 1 >= self.chars.len() {
            return '\0';
        }
        self.get_char_from_source(self.curr + 1)
    }

    fn is_alph_numeric(&self, c: char) -> (b: bool)
        ensures
            b == is_alpha_numeric(c),
    {
        self.is_digit(c) || self.is_alph(c)
    }

    fn is_digit(&self, c: char) -> (b: bool)
        ensures
            b == is_digit(c),
    {
        c >= '0' && c <= '9'
    }

    fn is_alph(&self, c: char) -> (b: bool)
        ensures
            b == is_alpha(c),
    {
        (c >= 'a' && c <= 'z') || (c >= 'A' && c <= 'Z') || c == '_'
    }

    fn sub_string(&self, start: usize, end: usize) -> (text: String)
        requires
            self.wf(),
            start <= end <= self.chars@.len(),
        ensures
            text@ == self.source@.subrange(start as int, end as int),
    {
        String::from_str(self.source.as_str().substring_char(start, end))
    }

    fn peek(&self) -> (c: char)
        ensures
            c == (if self.curr < self.chars@.len() {
                self.chars@[self.curr as int]
            } else {
                '\0'
            }),
    {
        if self.is_at_end() {
            return '\0';
        }
        self.get_char_from_source(self.curr)
    }

    fn add_token(&mut self, token_type: TokenType, literal: Option<TokenLiteral>)
        requires
            old(self).wf(),
        ensures
            final(self).wf(),
            *final(self) == (Scanner { tokens: final(self).tokens, ..*old(self) }),
            final(self)@.errors == old(self)@.errors,
            final(self)@.tokens == old(self)@.tokens.push(
                TokenView {
                    lexeme: old(self).source@.subrange(
                        old(self).start as int,
                        old(self).curr as int,
                    ),
                    token_type,
                    literal: match literal {
                        Some(l) => Some(l@),
                        None => None,
                    },
                    line: old(self).line,
                },
            ),
    {
        let text = self.sub_string(self.start, self.curr);
        let token = Token { lexeme: text, token_type, literal, line: self.line };
        assert(token_views(self.tokens@.push(token)) =~= token_views(self.tokens@).push(token@));
        self.tokens.push(token);
    }

    /// Records a diagnostic for the current line.
    fn add_error(&mut self, message: &str)
        requires
            old(self).wf(),
        ensures
            final(self).wf(),
            *final(self) == (Scanner { errors: final(self).errors, ..*old(self) }),
            final(self)@.tokens == old(self)@.tokens,
            final(self)@.errors == old(self)@.errors.push(
                LoxErrorView { line: old(self).line, location: Seq::empty(), message: message@ },
            ),
    {
        let report = LoxError::error(self.line, String::from_str(message));
        assert(error_views(self.errors@.push(report)) =~= error_views(self.errors@).push(report@));
        self.errors.push(report);
    }

    fn match_char(&mut self, expected: char) -> (matched: bool)
        requires
            old(self).wf(),
        ensures
            final(self).wf(),
            matched == (old(self).curr < old(self).chars@.len() && old(self).chars@[old(
                self,
            ).curr as int] == expected),
            *final(self) == (Scanner {
                curr: if matched {
                    (old(self).curr + 1) as usize
                } else {
                    old(self).curr
                },
                ..*old(self)
            }),
    {
        if self.is_at_end() {
            return false;
        }
        if self.get_char_from_source(self.curr) != expected {
            return false;
        }
        self.curr += 1;
        true
    }
}

} // verus!
