//! The grammar, as functions from a position among the tokens to the
//! tree that is read there.

use vstd::prelude::*;

use crate::ast::expr::ExprView;
use crate::ast::expr::LiteralView;
use crate::error::token_location;
use crate::error::LoxErrorView;
use crate::parser::error::ParserErrorView;
use crate::stmt::FunctionView;
use crate::stmt::StmtView;
use crate::token::TokenLiteralView;
use crate::token::TokenType;
use crate::token::TokenView;

verus! {

/// Where a rule of the grammar starts: a position among the tokens, and
/// the diagnostics raised before it.
pub struct Cursor {
    pub pos: int,
    pub log: Seq<LoxErrorView>,
}

/// What a rule of the grammar yields: the tree or the syntax error, the
/// number of tokens taken since the rule started, and the diagnostics
/// raised so far.
pub struct Parsed<T> {
    pub result: Result<T, ParserErrorView>,
    pub used: nat,
    pub log: Seq<LoxErrorView>,
}

impl<T> Parsed<T> {
    /// The same outcome, reached after `count` more tokens were taken first.
    pub open spec fn after(self, count: nat) -> Parsed<T> {
        Parsed { result: self.result, used: self.used + count, log: self.log }
    }

    /// The syntax error of this outcome, as the outcome of a rule that
    /// yields another kind of tree.
    pub open spec fn failed<U>(self) -> Parsed<U> {
        Parsed { result: Err(self.result->Err_0), used: self.used, log: self.log }
    }
}

impl Cursor {
    /// The cursor behind the tokens that an outcome has taken since this
    /// cursor.
    pub open spec fn moved<T>(self, parsed: Parsed<T>) -> Cursor {
        Cursor { pos: self.pos + parsed.used, log: parsed.log }
    }

    /// The cursor `count` tokens on.
    pub open spec fn skip(self, count: nat) -> Cursor {
        Cursor { pos: self.pos + count, log: self.log }
    }
}

/// A tree that took `used` tokens.
pub open spec fn done<T>(value: T, used: nat, log: Seq<LoxErrorView>) -> Parsed<T> {
    Parsed { result: Ok(value), used, log }
}

/// The number of tokens from `pos` to the end of the sequence.
pub open spec fn remaining(tokens: Seq<TokenView>, pos: int) -> nat {
    if pos < tokens.len() {
        (tokens.len() - pos) as nat
    } else {
        0
    }
}

/// Whether the parser can read no further at `pos`: the closing token
/// stands there, or nothing at all.
pub open spec fn at_end(tokens: Seq<TokenView>, pos: int) -> bool {
    !(0 <= pos < tokens.len()) || tokens[pos].token_type == TokenType::EOF
}

/// Whether a token of the given kind stands at `pos`.
pub open spec fn check(tokens: Seq<TokenView>, pos: int, token_type: TokenType) -> bool {
    !at_end(tokens, pos) && tokens[pos].token_type == token_type
}

/// The diagnostic that reports a syntax error at a token.
pub open spec fn diagnostic(token: TokenView, message: Seq<char>) -> LoxErrorView {
    LoxErrorView { line: token.line, location: token_location(token), message }
}

/// A syntax error at the token under the cursor. It is reported at once.
pub open spec fn fail<T>(tokens: Seq<TokenView>, at: Cursor, message: Seq<char>) -> Parsed<T> {
    Parsed {
        result: Err(ParserErrorView { token: tokens[at.pos], message }),
        used: 0,
        log: at.log.push(diagnostic(tokens[at.pos], message)),
    }
}

/// Takes the token under the cursor if it is of the given kind, and fails
/// with the message otherwise.
pub open spec fn consume(
    tokens: Seq<TokenView>,
    at: Cursor,
    token_type: TokenType,
    message: Seq<char>,
) -> Parsed<TokenView> {
    if check(tokens, at.pos, token_type) {
        done(tokens[at.pos], 1, at.log)
    } else {
        fail(tokens, at, message)
    }
}

/// The value of a token that is a literal by itself.
pub open spec fn literal_of(token: TokenView) -> Option<LiteralView> {
    if token.token_type == TokenType::FALSE {
        Some(LiteralView::Boolean(false))
    } else if token.token_type == TokenType::TRUE {
        Some(LiteralView::Boolean(true))
    } else if token.token_type == TokenType::NIL {
        Some(LiteralView::Nil)
    } else if token.token_type == TokenType::NUMBER || token.token_type == TokenType::STRING {
        match token.literal {
            Some(TokenLiteralView::Float(number)) => Some(LiteralView::Number(number)),
            Some(TokenLiteralView::Text(text)) => Some(LiteralView::String(text)),
            None => None,
        }
    } else {
        None
    }
}

/// The most arguments of a call, and parameters of a function, that pass
/// without a diagnostic.
pub open spec fn list_limit() -> nat {
    255
}

/// The diagnostics so far, and one more if a list is already full when
/// another item is about to be read.
pub open spec fn limit_log(
    tokens: Seq<TokenView>,
    at: Cursor,
    count: nat,
    message: Seq<char>,
) -> Seq<LoxErrorView> {
    if count >= list_limit() {
        at.log.push(diagnostic(tokens[at.pos], message))
    } else {
        at.log
    }
}

/// primary: a literal, a name, or an expression in parentheses.
#[verifier::opaque]
pub open spec fn primary(tokens: Seq<TokenView>, at: Cursor) -> Parsed<ExprView>
    decreases remaining(tokens, at.pos), 1nat,
{
    if at_end(tokens, at.pos) {
        fail(tokens, at, "Expect expression."@)
    } else if literal_of(tokens[at.pos]) is Some {
        done(ExprView::Literal { value: literal_of(tokens[at.pos])->0 }, 1, at.log)
    } else if check(tokens, at.pos, TokenType::IDENTIFIER) {
        done(ExprView::Variable { name: tokens[at.pos] }, 1, at.log)
    } else if check(tokens, at.pos, TokenType::LEFTPAREN) {
        let inner = closed_expression(
            tokens,
            at.skip(1),
            TokenType::RIGHTPAREN,
            "Expect ')' after expression."@,
        ).after(1);
        if inner.result is Err {
            inner
        } else {
            done(
                ExprView::Grouping { expression: Box::new(inner.result->Ok_0) },
                inner.used,
                inner.log,
            )
        }
    } else {
        fail(tokens, at, "Expect expression."@)
    }
}

/// call: a primary followed by any number of argument lists.
#[verifier::opaque]
pub open spec fn call(tokens: Seq<TokenView>, at: Cursor) -> Parsed<ExprView>
    decreases remaining(tokens, at.pos), 3nat,
{
    let callee = primary(tokens, at);
    if callee.result is Err {
        callee
    } else {
        call_rest(tokens, at.moved(callee), callee.result->Ok_0).after(callee.used)
    }
}

/// The argument lists behind a callee, each a call of what stands before
/// it.
#[verifier::opaque]
pub open spec fn call_rest(tokens: Seq<TokenView>, at: Cursor, callee: ExprView) -> Parsed<
    ExprView,
>
    decreases remaining(tokens, at.pos), 2nat,
{
    if check(tokens, at.pos, TokenType::LEFTPAREN) {
        let list = arguments(tokens, at.skip(1)).after(1);
        if list.result is Err {
            list.failed()
        } else {
            let close = consume(
                tokens,
                at.moved(list),
                TokenType::RIGHTPAREN,
                "Expect ')' after arguments."@,
            ).after(list.used);
            if close.result is Err {
                close.failed()
            } else {
                call_rest(
                    tokens,
                    at.moved(close),
                    ExprView::Call {
                        callee: Box::new(callee),
                        paren: close.result->Ok_0,
                        arguments: list.result->Ok_0,
                    },
                ).after(close.used)
            }
        }
    } else {
        done(callee, 0, at.log)
    }
}

/// The arguments of a call, up to the closing parenthesis.
#[verifier::opaque]
pub open spec fn arguments(tokens: Seq<TokenView>, at: Cursor) -> Parsed<Seq<ExprView>>
    decreases remaining(tokens, at.pos), 29nat,
{
    if check(tokens, at.pos, TokenType::RIGHTPAREN) {
        done(Seq::empty(), 0, at.log)
    } else {
        arguments_rest(tokens, at, Seq::empty())
    }
}

/// One more argument, and those that follow it behind commas. A list
/// that is already full gets a diagnostic and is read on.
#[verifier::opaque]
pub open spec fn arguments_rest(tokens: Seq<TokenView>, at: Cursor, list: Seq<ExprView>) -> Parsed<
    Seq<ExprView>,
>
    decreases remaining(tokens, at.pos), 28nat,
{
    let warned = Cursor {
        pos: at.pos,
        log: limit_log(tokens, at, list.len(), "Can't have more than 255 arguments."@),
    };
    let item = assignment(tokens, warned);
    if item.result is Err {
        item.failed()
    } else if check(tokens, at.pos + item.used, TokenType::COMMA) {
        arguments_rest(tokens, at.moved(item).skip(1), list.push(item.result->Ok_0)).after(
            item.used + 1,
        )
    } else {
        done(list.push(item.result->Ok_0), item.used, item.log)
    }
}

/// unary: `!` or `-` before a unary, or a call.
#[verifier::opaque]
pub open spec fn unary(tokens: Seq<TokenView>, at: Cursor) -> Parsed<ExprView>
    decreases remaining(tokens, at.pos), 4nat,
{
    if check(tokens, at.pos, TokenType::BANG) || check(tokens, at.pos, TokenType::MINUS) {
        let right = unary(tokens, at.skip(1)).after(1);
        if right.result is Err {
            right
        } else {
            done(
                ExprView::Unary { operator: tokens[at.pos], right: Box::new(right.result->Ok_0) },
                right.used,
                right.log,
            )
        }
    } else {
        call(tokens, at)
    }
}

/// factor: a unary, and behind `*` or `/` another factor. A chain of
/// factors nests to the right.
#[verifier::opaque]
pub open spec fn factor(tokens: Seq<TokenView>, at: Cursor) -> Parsed<ExprView>
    decreases remaining(tokens, at.pos), 5nat,
{
    let left = unary(tokens, at);
    if left.result is Err {
        left
    } else if check(tokens, at.pos + left.used, TokenType::STAR) || check(
        tokens,
        at.pos + left.used,
        TokenType::SLASH,
    ) {
        let right = factor(tokens, at.moved(left).skip(1)).after(left.used + 1);
        if right.result is Err {
            right
        } else {
            done(
                ExprView::Binary {
                    operator: tokens[at.pos + left.used],
                    left: Box::new(left.result->Ok_0),
                    right: Box::new(right.result->Ok_0),
                },
                right.used,
                right.log,
            )
        }
    } else {
        left
    }
}

/// The levels of binary operator whose chains nest to the left.
#[derive(Debug, Clone, Copy, PartialEq, Eq, Structural)]
pub enum Level {
    Term,
    Comparison,
    Equality,
    And,
    Or,
}

/// Whether a kind of token is an operator of a level.
pub open spec fn operator_of(level: Level, token_type: TokenType) -> bool {
    match level {
        Level::Term => token_type == TokenType::MINUS || token_type == TokenType::PLUS,
        Level::Comparison => token_type == TokenType::GREATER || token_type
            == TokenType::GREATEREQUAL || token_type == TokenType::LESS || token_type
            == TokenType::LESSEQUAL,
        Level::Equality => token_type == TokenType::BANGEQUAL || token_type
            == TokenType::EQUALEQUAL,
        Level::And => token_type == TokenType::AND,
        Level::Or => token_type == TokenType::OR,
    }
}

/// The rank of a level: a higher level binds less tightly.
pub open spec fn rank(level: Level) -> nat {
    match level {
        Level::Term => 8,
        Level::Comparison => 12,
        Level::Equality => 16,
        Level::And => 20,
        Level::Or => 24,
    }
}

/// The node that an operator of a level makes of its operands.
pub open spec fn join(level: Level, left: ExprView, operator: TokenView, right: ExprView) -> ExprView {
    match level {
        Level::And | Level::Or => ExprView::Logical {
            operator,
            left: Box::new(left),
            right: Box::new(right),
        },
        _ => ExprView::Binary { operator, left: Box::new(left), right: Box::new(right) },
    }
}

/// An operand of a level: an expression of the level below.
#[verifier::opaque]
pub open spec fn operand(tokens: Seq<TokenView>, at: Cursor, level: Level) -> Parsed<ExprView>
    decreases remaining(tokens, at.pos), (rank(level) - 1) as nat,
{
    match level {
        Level::Term => factor(tokens, at),
        Level::Comparison => binary(tokens, at, Level::Term),
        Level::Equality => binary(tokens, at, Level::Comparison),
        Level::And => binary(tokens, at, Level::Equality),
        Level::Or => binary(tokens, at, Level::And),
    }
}

/// term, comparison, equality, and, or: operands of the level below,
/// joined by the operators of the level.
#[verifier::opaque]
pub open spec fn binary(tokens: Seq<TokenView>, at: Cursor, level: Level) -> Parsed<ExprView>
    decreases remaining(tokens, at.pos), rank(level),
{
    let left = operand(tokens, at, level);
    if left.result is Err {
        left
    } else {
        binary_rest(tokens, at.moved(left), level, left.result->Ok_0).after(left.used)
    }
}

/// The operators of a level behind a left operand, each with its right
/// operand.
#[verifier::opaque]
pub open spec fn binary_rest(
    tokens: Seq<TokenView>,
    at: Cursor,
    level: Level,
    left: ExprView,
) -> Parsed<ExprView>
    decreases remaining(tokens, at.pos), (rank(level) - 2) as nat,
{
    if !at_end(tokens, at.pos) && operator_of(level, tokens[at.pos].token_type) {
        let right = operand(tokens, at.skip(1), level).after(1);
        if right.result is Err {
            right
        } else {
            binary_rest(
                tokens,
                at.moved(right),
                level,
                join(level, left, tokens[at.pos], right.result->Ok_0),
            ).after(right.used)
        }
    } else {
        done(left, 0, at.log)
    }
}

/// assignment: a name, `=` and an assignment, or a logical `or`. What
/// stands before `=` must be a name.
#[verifier::opaque]
pub open spec fn assignment(tokens: Seq<TokenView>, at: Cursor) -> Parsed<ExprView>
    decreases remaining(tokens, at.pos), 26nat,
{
    let target = binary(tokens, at, Level::Or);
    if target.result is Err {
        target
    } else if check(tokens, at.pos + target.used, TokenType::EQUAL) {
        match target.result->Ok_0 {
            ExprView::Variable { name } => {
                let value = assignment(tokens, at.moved(target).skip(1)).after(target.used + 1);
                if value.result is Err {
                    value
                } else {
                    done(
                        ExprView::Assgin { name, value: Box::new(value.result->Ok_0) },
                        value.used,
                        value.log,
                    )
                }
            },
            _ => fail(tokens, at.moved(target), "Invalid assignment target."@).after(
                target.used + 1,
            ),
        }
    } else {
        target
    }
}

/// expression: an assignment, on which a conditional or a comma with
/// another expression may follow.
#[verifier::opaque]
pub open spec fn expression(tokens: Seq<TokenView>, at: Cursor) -> Parsed<ExprView>
    decreases remaining(tokens, at.pos), 27nat,
{
    let first = assignment(tokens, at);
    if first.result is Err {
        first
    } else if check(tokens, at.pos + first.used, TokenType::QUESTION) {
        let left = expression(tokens, at.moved(first).skip(1)).after(first.used + 1);
        if left.result is Err {
            left
        } else {
            let colon = consume(
                tokens,
                at.moved(left),
                TokenType::COLON,
                "Expect ')' after expression."@,
            ).after(left.used);
            if colon.result is Err {
                colon.failed()
            } else {
                let right = expression(tokens, at.moved(colon)).after(colon.used);
                if right.result is Err {
                    right
                } else {
                    done(
                        ExprView::Ternary {
                            condition: Box::new(first.result->Ok_0),
                            left: Box::new(left.result->Ok_0),
                            right: Box::new(right.result->Ok_0),
                        },
                        right.used,
                        right.log,
                    )
                }
            }
        }
    } else if check(tokens, at.pos + first.used, TokenType::COMMA) {
        let right = expression(tokens, at.moved(first).skip(1)).after(first.used + 1);
        if right.result is Err {
            right
        } else {
            done(
                ExprView::Separator {
                    left: Box::new(first.result->Ok_0),
                    right: Box::new(right.result->Ok_0),
                },
                right.used,
                right.log,
            )
        }
    } else {
        first
    }
}

/// An expression and the token that must close it.
#[verifier::opaque]
pub open spec fn closed_expression(
    tokens: Seq<TokenView>,
    at: Cursor,
    closing: TokenType,
    message: Seq<char>,
) -> Parsed<ExprView>
    decreases remaining(tokens, at.pos), 28nat,
{
    let value = expression(tokens, at);
    if value.result is Err {
        value
    } else {
        let close = consume(tokens, at.moved(value), closing, message).after(value.used);
        if close.result is Err {
            close.failed()
        } else {
            done(value.result->Ok_0, close.used, close.log)
        }
    }
}

/// The rest of a `print` statement, behind the keyword.
#[verifier::opaque]
pub open spec fn print_statement(tokens: Seq<TokenView>, at: Cursor) -> Parsed<StmtView> {
    let value = closed_expression(tokens, at, TokenType::SEMICOLON, "Expect ';' after value."@);
    if value.result is Err {
        value.failed()
    } else {
        done(StmtView::Print(value.result->Ok_0), value.used, value.log)
    }
}

/// An expression as a statement.
#[verifier::opaque]
pub open spec fn expression_statement(tokens: Seq<TokenView>, at: Cursor) -> Parsed<StmtView> {
    let value = closed_expression(
        tokens,
        at,
        TokenType::SEMICOLON,
        "Expect ';' after expression."@,
    );
    if value.result is Err {
        value.failed()
    } else {
        done(StmtView::Expresstion(value.result->Ok_0), value.used, value.log)
    }
}

/// The rest of a `return` statement, behind the keyword.
#[verifier::opaque]
pub open spec fn return_statement(tokens: Seq<TokenView>, at: Cursor, keyword: TokenView) -> Parsed<
    StmtView,
> {
    if check(tokens, at.pos, TokenType::SEMICOLON) {
        done(StmtView::Return(keyword, None), 1, at.log)
    } else {
        let value = closed_expression(
            tokens,
            at,
            TokenType::SEMICOLON,
            "Expect ';' after return value."@,
        );
        if value.result is Err {
            value.failed()
        } else {
            done(StmtView::Return(keyword, Some(value.result->Ok_0)), value.used, value.log)
        }
    }
}

/// The rest of a variable declaration, behind `var`. A missing name is
/// reported at once, and the error is handed back only when the rest of
/// the declaration has been read.
#[verifier::opaque]
pub open spec fn var_declaration(tokens: Seq<TokenView>, at: Cursor) -> Parsed<StmtView> {
    let name = consume(tokens, at, TokenType::IDENTIFIER, "Expect variable name."@);
    let value: Parsed<Option<ExprView>> = if check(tokens, at.pos + name.used, TokenType::EQUAL) {
        let init = expression(tokens, at.moved(name).skip(1)).after(name.used + 1);
        if init.result is Err {
            init.failed()
        } else {
            done(Some(init.result->Ok_0), init.used, init.log)
        }
    } else {
        done(None, name.used, name.log)
    };
    if value.result is Err {
        value.failed()
    } else {
        let close = consume(
            tokens,
            at.moved(value),
            TokenType::SEMICOLON,
            "Expect ';' after variable declaration."@,
        ).after(value.used);
        if close.result is Err {
            close.failed()
        } else if name.result is Err {
            Parsed { result: Err(name.result->Err_0), used: close.used, log: close.log }
        } else {
            done(StmtView::Var(name.result->Ok_0, value.result->Ok_0), close.used, close.log)
        }
    }
}

/// An opening parenthesis, an expression and a closing parenthesis.
#[verifier::opaque]
pub open spec fn condition(
    tokens: Seq<TokenView>,
    at: Cursor,
    opening: Seq<char>,
    closing: Seq<char>,
) -> Parsed<ExprView> {
    let open = consume(tokens, at, TokenType::LEFTPAREN, opening);
    if open.result is Err {
        open.failed()
    } else {
        closed_expression(tokens, at.moved(open), TokenType::RIGHTPAREN, closing).after(open.used)
    }
}

/// Whether a kind of token begins a statement: the parser stops skipping
/// in front of such a token when it recovers from a syntax error.
pub open spec fn starts_statement(token_type: TokenType) -> bool {
    token_type == TokenType::IF || token_type == TokenType::FUN || token_type == TokenType::FOR
        || token_type == TokenType::CLASS || token_type == TokenType::WHILE || token_type
        == TokenType::PRINT || token_type == TokenType::RETURN || token_type == TokenType::VAR
}

/// The number of tokens that the parser skips from `pos` on, once it has
/// skipped the one before: it stops behind a semicolon, in front of a
/// token that begins a statement, and at the end.
#[verifier::opaque]
pub open spec fn skipped_from(tokens: Seq<TokenView>, pos: int) -> nat
    decreases remaining(tokens, pos),
{
    if at_end(tokens, pos) || pos < 1 {
        0
    } else if tokens[pos - 1].token_type == TokenType::SEMICOLON {
        0
    } else if starts_statement(tokens[pos].token_type) {
        0
    } else {
        1 + skipped_from(tokens, pos + 1)
    }
}

/// The number of tokens that the parser skips at `pos` to recover from a
/// syntax error: at least one, unless it is at the end.
pub open spec fn synchronize(tokens: Seq<TokenView>, pos: int) -> nat {
    if at_end(tokens, pos) {
        0
    } else {
        1 + skipped_from(tokens, pos + 1)
    }
}

/// A statement as an optional item of a list.
pub open spec fn listed(stmt: Option<StmtView>) -> Seq<StmtView> {
    match stmt {
        Some(s) => seq![s],
        None => Seq::empty(),
    }
}

/// The `while` loop in a block that a `for` loop stands for: the
/// initializer, then the loop, whose body is the body of the `for` and
/// then its increment. A missing condition is `true`.
pub open spec fn desugared_for(
    initializer: Option<StmtView>,
    condition: Option<ExprView>,
    increment: Option<ExprView>,
    body: StmtView,
) -> StmtView {
    let test = match condition {
        Some(c) => c,
        None => ExprView::Literal { value: LiteralView::Boolean(true) },
    };
    let step = match increment {
        Some(e) => Some(StmtView::Expresstion(e)),
        None => None,
    };
    StmtView::Block(
        listed(initializer) + seq![
            StmtView::While(test, Box::new(StmtView::Block(seq![body] + listed(step)))),
        ],
    )
}

/// An expression, unless the closing token stands there already, and that
/// token.
#[verifier::opaque]
pub open spec fn optional_clause(
    tokens: Seq<TokenView>,
    at: Cursor,
    closing: TokenType,
    message: Seq<char>,
) -> Parsed<Option<ExprView>> {
    if check(tokens, at.pos, closing) {
        done(None, 1, at.log)
    } else {
        let value = closed_expression(tokens, at, closing, message);
        if value.result is Err {
            value.failed()
        } else {
            done(Some(value.result->Ok_0), value.used, value.log)
        }
    }
}

/// The initializer of a `for` loop: nothing but a semicolon, a variable
/// declaration, or an expression statement.
#[verifier::opaque]
pub open spec fn for_initializer(tokens: Seq<TokenView>, at: Cursor) -> Parsed<Option<StmtView>> {
    if check(tokens, at.pos, TokenType::SEMICOLON) {
        done(None, 1, at.log)
    } else {
        let first = if check(tokens, at.pos, TokenType::VAR) {
            var_declaration(tokens, at.skip(1)).after(1)
        } else {
            expression_statement(tokens, at)
        };
        if first.result is Err {
            first.failed()
        } else {
            done(Some(first.result->Ok_0), first.used, first.log)
        }
    }
}

/// The names of the parameters of a function, up to the closing
/// parenthesis.
#[verifier::opaque]
pub open spec fn parameters(tokens: Seq<TokenView>, at: Cursor) -> Parsed<Seq<TokenView>> {
    if check(tokens, at.pos, TokenType::RIGHTPAREN) {
        done(Seq::empty(), 0, at.log)
    } else {
        parameters_rest(tokens, at, Seq::empty())
    }
}

/// One more parameter, and those that follow it behind commas. A list
/// that is already full gets a diagnostic and is read on.
#[verifier::opaque]
pub open spec fn parameters_rest(tokens: Seq<TokenView>, at: Cursor, list: Seq<TokenView>) -> Parsed<
    Seq<TokenView>,
>
    decreases remaining(tokens, at.pos),
{
    let warned = Cursor {
        pos: at.pos,
        log: limit_log(tokens, at, list.len(), "Can't have more than 255 parameters."@),
    };
    let name = consume(tokens, warned, TokenType::IDENTIFIER, "Expect parameter name."@);
    if name.result is Err {
        name.failed()
    } else if check(tokens, at.pos + 1, TokenType::COMMA) {
        parameters_rest(tokens, at.moved(name).skip(1), list.push(name.result->Ok_0)).after(2)
    } else {
        done(list.push(name.result->Ok_0), 1, name.log)
    }
}

/// The head of a function declaration, behind `fun` and up to the brace
/// that opens the body: the name and the parameters.
#[verifier::opaque]
pub open spec fn function_head(tokens: Seq<TokenView>, at: Cursor) -> Parsed<
    (TokenView, Seq<TokenView>),
> {
    let name = consume(tokens, at, TokenType::IDENTIFIER, "Expect function name."@);
    if name.result is Err {
        name.failed()
    } else {
        let open = consume(
            tokens,
            at.moved(name),
            TokenType::LEFTPAREN,
            "Expect '(' after function name."@,
        ).after(name.used);
        if open.result is Err {
            open.failed()
        } else {
            let params = parameters(tokens, at.moved(open)).after(open.used);
            if params.result is Err {
                params.failed()
            } else {
                let close = consume(
                    tokens,
                    at.moved(params),
                    TokenType::RIGHTPAREN,
                    "Expect ')' after parameters."@,
                ).after(params.used);
                if close.result is Err {
                    close.failed()
                } else {
                    let brace = consume(
                        tokens,
                        at.moved(close),
                        TokenType::LEFTBRACE,
                        "Expect '{' before function body."@,
                    ).after(close.used);
                    if brace.result is Err {
                        brace.failed()
                    } else {
                        done((name.result->Ok_0, params.result->Ok_0), brace.used, brace.log)
                    }
                }
            }
        }
    }
}

/// The clauses of a `for` loop, behind the keyword and up to the body.
#[verifier::opaque]
pub open spec fn for_clauses(tokens: Seq<TokenView>, at: Cursor) -> Parsed<
    (Option<StmtView>, Option<ExprView>, Option<ExprView>),
> {
    let open = consume(tokens, at, TokenType::LEFTPAREN, "Expect '(' after 'for'."@);
    if open.result is Err {
        open.failed()
    } else {
        let initializer = for_initializer(tokens, at.moved(open)).after(open.used);
        if initializer.result is Err {
            initializer.failed()
        } else {
            let test = optional_clause(
                tokens,
                at.moved(initializer),
                TokenType::SEMICOLON,
                "Expect ';' after loop condition."@,
            ).after(initializer.used);
            if test.result is Err {
                test.failed()
            } else {
                let increment = optional_clause(
                    tokens,
                    at.moved(test),
                    TokenType::RIGHTPAREN,
                    "Expect ')' after for clauses."@,
                ).after(test.used);
                if increment.result is Err {
                    increment.failed()
                } else {
                    done(
                        (initializer.result->Ok_0, test.result->Ok_0, increment.result->Ok_0),
                        increment.used,
                        increment.log,
                    )
                }
            }
        }
    }
}

/// statement: one of the forms that begin with a keyword or a brace, or
/// an expression statement.
#[verifier::opaque]
pub open spec fn statement(tokens: Seq<TokenView>, at: Cursor) -> Parsed<StmtView>
    decreases remaining(tokens, at.pos), 30nat,
{
    if check(tokens, at.pos, TokenType::FOR) {
        let clauses = for_clauses(tokens, at.skip(1)).after(1);
        if clauses.result is Err {
            clauses.failed()
        } else {
            let body = statement(tokens, at.moved(clauses)).after(clauses.used);
            if body.result is Err {
                body
            } else {
                done(
                    desugared_for(
                        clauses.result->Ok_0.0,
                        clauses.result->Ok_0.1,
                        clauses.result->Ok_0.2,
                        body.result->Ok_0,
                    ),
                    body.used,
                    body.log,
                )
            }
        }
    } else if check(tokens, at.pos, TokenType::IF) {
        let test = condition(
            tokens,
            at.skip(1),
            "Expect '(' after 'if'."@,
            "Expect ')' after if condition."@,
        ).after(1);
        if test.result is Err {
            test.failed()
        } else {
            let then_branch = statement(tokens, at.moved(test)).after(test.used);
            if then_branch.result is Err {
                then_branch
            } else if check(tokens, at.pos + then_branch.used, TokenType::ELSE) {
                let else_branch = statement(tokens, at.moved(then_branch).skip(1)).after(
                    then_branch.used + 1,
                );
                if else_branch.result is Err {
                    else_branch
                } else {
                    done(
                        StmtView::If(
                            test.result->Ok_0,
                            Box::new(then_branch.result->Ok_0),
                            Some(Box::new(else_branch.result->Ok_0)),
                        ),
                        else_branch.used,
                        else_branch.log,
                    )
                }
            } else {
                done(
                    StmtView::If(test.result->Ok_0, Box::new(then_branch.result->Ok_0), None),
                    then_branch.used,
                    then_branch.log,
                )
            }
        }
    } else if check(tokens, at.pos, TokenType::PRINT) {
        print_statement(tokens, at.skip(1)).after(1)
    } else if check(tokens, at.pos, TokenType::RETURN) {
        return_statement(tokens, at.skip(1), tokens[at.pos]).after(1)
    } else if check(tokens, at.pos, TokenType::WHILE) {
        let test = condition(
            tokens,
            at.skip(1),
            "Expect '(' after 'while'."@,
            "Expect ')' after condition."@,
        ).after(1);
        if test.result is Err {
            test.failed()
        } else {
            let body = statement(tokens, at.moved(test)).after(test.used);
            if body.result is Err {
                body
            } else {
                done(
                    StmtView::While(test.result->Ok_0, Box::new(body.result->Ok_0)),
                    body.used,
                    body.log,
                )
            }
        }
    } else if check(tokens, at.pos, TokenType::BREAK) {
        let close = consume(
            tokens,
            at.skip(1),
            TokenType::SEMICOLON,
            "Expect ';' after 'break'."@,
        ).after(1);
        if close.result is Err {
            close.failed()
        } else {
            done(StmtView::Break, close.used, close.log)
        }
    } else if check(tokens, at.pos, TokenType::LEFTBRACE) {
        let body = block(tokens, at.skip(1), Seq::empty()).after(1);
        if body.result is Err {
            body.failed()
        } else {
            done(StmtView::Block(body.result->Ok_0), body.used, body.log)
        }
    } else {
        expression_statement(tokens, at)
    }
}

/// declaration: a function, a variable, or a statement.
#[verifier::opaque]
pub open spec fn declaration(tokens: Seq<TokenView>, at: Cursor) -> Parsed<StmtView>
    decreases remaining(tokens, at.pos), 31nat,
{
    if check(tokens, at.pos, TokenType::FUN) {
        let head = function_head(tokens, at.skip(1)).after(1);
        if head.result is Err {
            head.failed()
        } else {
            let body = block(tokens, at.moved(head), Seq::empty()).after(head.used);
            if body.result is Err {
                body.failed()
            } else {
                done(
                    StmtView::Function(
                        FunctionView {
                            name: head.result->Ok_0.0,
                            params: head.result->Ok_0.1,
                            body: body.result->Ok_0,
                        },
                    ),
                    body.used,
                    body.log,
                )
            }
        }
    } else if check(tokens, at.pos, TokenType::VAR) {
        var_declaration(tokens, at.skip(1)).after(1)
    } else {
        statement(tokens, at)
    }
}

/// The declarations of a block behind those in `list`, up to the closing
/// brace. After a syntax error in a declaration the parser skips to the
/// next statement and reads on, so that one block can report several
/// errors. (A declaration takes at least one token, and so does the
/// skipping, so the block is always read on behind where it stood.)
#[verifier::opaque]
pub open spec fn block(tokens: Seq<TokenView>, at: Cursor, list: Seq<StmtView>) -> Parsed<
    Seq<StmtView>,
>
    decreases remaining(tokens, at.pos), 32nat,
{
    if at_end(tokens, at.pos) || check(tokens, at.pos, TokenType::RIGHTBRACE) {
        let close = consume(tokens, at, TokenType::RIGHTBRACE, "Expect '}' after block."@);
        if close.result is Err {
            close.failed()
        } else {
            done(list, 1, close.log)
        }
    } else {
        let item = declaration(tokens, at);
        if item.result is Err {
            let skipped = item.used + synchronize(tokens, at.pos + item.used);
            if skipped == 0 {
                item.failed()
            } else {
                block(tokens, Cursor { pos: at.pos + skipped, log: item.log }, list).after(skipped)
            }
        } else if item.used == 0 {
            item.failed()
        } else {
            block(tokens, at.moved(item), list.push(item.result->Ok_0)).after(item.used)
        }
    }
}

/// What the parser makes of a whole token sequence: the statements read,
/// the number of tokens taken, and the diagnostics raised.
pub struct Program {
    pub statements: Seq<StmtView>,
    pub used: nat,
    pub log: Seq<LoxErrorView>,
}

/// The declarations of a program behind those in `list`. The first syntax
/// error ends the program: the statements read before it are kept.
#[verifier::opaque]
pub open spec fn program(tokens: Seq<TokenView>, at: Cursor, list: Seq<StmtView>) -> Program
    decreases remaining(tokens, at.pos),
{
    if at_end(tokens, at.pos) {
        Program { statements: list, used: 0, log: at.log }
    } else {
        let item = declaration(tokens, at);
        if item.result is Err || item.used == 0 {
            Program { statements: list, used: item.used, log: item.log }
        } else {
            let rest = program(tokens, at.moved(item), list.push(item.result->Ok_0));
            Program { statements: rest.statements, used: rest.used + item.used, log: rest.log }
        }
    }
}

} // verus!
