//! The parser: it reads what the grammar says.

use vstd::prelude::*;
use vstd::string::StringExecFns;

use crate::ast::expr::expr_views;
use crate::ast::expr::Expr;
use crate::ast::expr::ExprView;
use crate::ast::expr::LiteralValue;
use crate::error::error_views;
use crate::error::LoxError;
use crate::error::LoxErrorView;
use crate::parser::error::ParserError;
use crate::parser::error::ParserErrorView;
use crate::parser::grammar::arguments;
use crate::parser::grammar::arguments_rest;
use crate::parser::grammar::assignment;
use crate::parser::grammar::at_end;
use crate::parser::grammar::binary;
use crate::parser::grammar::binary_rest;
use crate::parser::grammar::block;
use crate::parser::grammar::call;
use crate::parser::grammar::call_rest;
use crate::parser::grammar::check;
use crate::parser::grammar::closed_expression;
use crate::parser::grammar::condition;
use crate::parser::grammar::consume;
use crate::parser::grammar::declaration;
use crate::parser::grammar::diagnostic;
use crate::parser::grammar::expression;
use crate::parser::grammar::expression_statement;
use crate::parser::grammar::factor;
use crate::parser::grammar::fail;
use crate::parser::grammar::for_clauses;
use crate::parser::grammar::for_initializer;
use crate::parser::grammar::function_head;
use crate::parser::grammar::listed;
use crate::parser::grammar::literal_of;
use crate::parser::grammar::operand;
use crate::parser::grammar::operator_of;
use crate::parser::grammar::optional_clause;
use crate::parser::grammar::parameters;
use crate::parser::grammar::parameters_rest;
use crate::parser::grammar::primary;
use crate::parser::grammar::print_statement;
use crate::parser::grammar::program;
use crate::parser::grammar::rank;
use crate::parser::grammar::remaining;
use crate::parser::grammar::return_statement;
use crate::parser::grammar::skipped_from;
use crate::parser::grammar::statement;
use crate::parser::grammar::synchronize;
use crate::parser::grammar::unary;
use crate::parser::grammar::var_declaration;
use crate::parser::grammar::Cursor;
use crate::parser::grammar::Level;
use crate::parser::grammar::Parsed;
use crate::scanner::end_token;
use crate::stmt::stmt_views;
use crate::stmt::FunctionStmt;
use crate::stmt::Stmt;
use crate::stmt::StmtView;
use crate::token::token_views;
use crate::token::Token;
use crate::token::TokenLiteral;
use crate::token::TokenType;
use crate::token::TokenView;

verus! {

/// Reads a sequence of tokens into statements, by recursive descent.
pub struct Parser {
    tokens: Vec<Token>,
    curr: usize,
    errors: Vec<LoxError>,
    pub has_error: bool,
}

/// What a parser holds: the tokens, its position among them, and the
/// diagnostics raised so far.
pub struct ParserView {
    pub tokens: Seq<TokenView>,
    pub curr: usize,
    pub errors: Seq<LoxErrorView>,
    pub has_error: bool,
}

impl View for Parser {
    type V = ParserView;

    closed spec fn view(&self) -> ParserView {
        ParserView {
            tokens: token_views(self.tokens@),
            curr: self.curr,
            errors: error_views(self.errors@),
            has_error: self.has_error,
        }
    }
}

/// A token sequence as the parser reads it: one that does not end with
/// the closing token gets one, on the line of its last token.
pub open spec fn terminated(tokens: Seq<TokenView>) -> Seq<TokenView> {
    if tokens.len() > 0 && tokens.last().token_type == TokenType::EOF {
        tokens
    } else {
        tokens.push(
            end_token(
                if tokens.len() > 0 {
                    tokens.last().line
                } else {
                    1
                },
            ),
        )
    }
}

/// Where a parser stands.
pub open spec fn start(view: ParserView) -> Cursor {
    Cursor { pos: view.curr as int, log: view.errors }
}

/// Whether a parser has gone from one state to another as an outcome of
/// the grammar says: over the same tokens, by the tokens taken, with the
/// diagnostics raised.
pub open spec fn follows<T>(before: ParserView, after: ParserView, parsed: Parsed<T>) -> bool {
    &&& after.tokens == before.tokens
    &&& after.curr == before.curr + parsed.used
    &&& after.errors == parsed.log
}

/// Whether what the parser hands back is what the grammar yields.
pub open spec fn agrees<T: View>(result: Result<T, ParserError>, model: Result<
    T::V,
    ParserErrorView,
>) -> bool {
    match result {
        Ok(value) => model is Ok && model->Ok_0 == value@,
        Err(error) => model is Err && model->Err_0 == error@,
    }
}

/// The same for a list of expressions.
pub open spec fn agrees_exprs(result: Result<Vec<Expr>, ParserError>, model: Result<
    Seq<ExprView>,
    ParserErrorView,
>) -> bool {
    match result {
        Ok(value) => model is Ok && model->Ok_0 == expr_views(value@),
        Err(error) => model is Err && model->Err_0 == error@,
    }
}

/// The same for a list of tokens.
pub open spec fn agrees_tokens(result: Result<Vec<Token>, ParserError>, model: Result<
    Seq<TokenView>,
    ParserErrorView,
>) -> bool {
    match result {
        Ok(value) => model is Ok && model->Ok_0 == token_views(value@),
        Err(error) => model is Err && model->Err_0 == error@,
    }
}

/// The same for a list of statements.
pub open spec fn agrees_stmts(result: Result<Vec<Stmt>, ParserError>, model: Result<
    Seq<StmtView>,
    ParserErrorView,
>) -> bool {
    match result {
        Ok(value) => model is Ok && model->Ok_0 == stmt_views(value@),
        Err(error) => model is Err && model->Err_0 == error@,
    }
}

pub open spec fn option_view<T: View>(item: Option<T>) -> Option<T::V> {
    match item {
        Some(value) => Some(value@),
        None => None,
    }
}

/// The same for an expression that may be missing.
pub open spec fn agrees_option<T: View>(result: Result<Option<T>, ParserError>, model: Result<
    Option<T::V>,
    ParserErrorView,
>) -> bool {
    match result {
        Ok(value) => model is Ok && model->Ok_0 == option_view(value),
        Err(error) => model is Err && model->Err_0 == error@,
    }
}

/// An expression with its closing token takes at least one token.
pub proof fn lemma_closed_expression_takes_tokens(
    tokens: Seq<TokenView>,
    at: Cursor,
    closing: TokenType,
    message: Seq<char>,
)
    ensures
        closed_expression(tokens, at, closing, message).result is Ok ==> closed_expression(
            tokens,
            at,
            closing,
            message,
        ).used >= 1,
{
    reveal_with_fuel(closed_expression, 1);
    reveal_with_fuel(expression, 1);
}

/// A statement that is read takes at least one token.
pub proof fn lemma_statement_takes_tokens(tokens: Seq<TokenView>, at: Cursor)
    ensures
        statement(tokens, at).result is Ok ==> statement(tokens, at).used >= 1,
{
    reveal_with_fuel(statement, 1);
    reveal_with_fuel(block, 1);
    reveal(expression_statement);
    lemma_closed_expression_takes_tokens(
        tokens,
        at,
        TokenType::SEMICOLON,
        "Expect ';' after expression."@,
    );
}

/// A declaration that is read takes at least one token.
pub proof fn lemma_declaration_takes_tokens(tokens: Seq<TokenView>, at: Cursor)
    ensures
        declaration(tokens, at).result is Ok ==> declaration(tokens, at).used >= 1,
{
    reveal_with_fuel(declaration, 1);
    reveal_with_fuel(statement, 1);
    reveal_with_fuel(block, 1);
    lemma_statement_takes_tokens(tokens, at);
}

/// Parsing is a function of the tokens: sequences of tokens that look
/// the same are read into the same statements, with the same
/// diagnostics.
pub proof fn lemma_parse_repeats(first: Seq<Token>, second: Seq<Token>)
    requires
        token_views(first) == token_views(second),
    ensures
        program(
            terminated(token_views(first)),
            Cursor { pos: 0, log: Seq::empty() },
            Seq::empty(),
        ) == program(
            terminated(token_views(second)),
            Cursor { pos: 0, log: Seq::empty() },
            Seq::empty(),
        ),
{
}

/// The parts of a `for` loop in front of its body.
pub struct ForClauses {
    pub initializer: Option<Stmt>,
    pub condition: Option<Expr>,
    pub increment: Option<Expr>,
}

impl Parser {
    /// Whether the token sequence ends with the closing token, the
    /// position lies inside it, and the flag says whether a diagnostic
    /// was raised.
    pub closed spec fn wf(&self) -> bool {
        &&& self.tokens@.len() > 0
        &&& self.tokens@.last().token_type == TokenType::EOF
        &&& self.curr < self.tokens@.len() <= usize::MAX
        &&& self.has_error == (self.errors@.len() > 0)
    }

    pub fn new(tokens: Vec<Token>) -> (parser: Parser)
        ensures
            parser.wf(),
            parser@ == (ParserView {
                tokens: terminated(token_views(tokens@)),
                curr: 0,
                errors: Seq::empty(),
                has_error: false,
            }),
    {
        let mut tokens = tokens;
        let ghost given = tokens@;
        let count = tokens.len();
        if count == 0 {
            tokens.push(Token::new(TokenType::EOF, String::new(), None, 1));
        } else if tokens[count - 1].token_type != TokenType::EOF {
            let line = tokens[count - 1].line;
            tokens.push(Token::new(TokenType::EOF, String::new(), None, line));
        }
        let parser = Parser { curr: 0, tokens, errors: Vec::new(), has_error: false };
        assert(parser@.tokens =~= terminated(token_views(given)));
        assert(parser@.errors =~= Seq::empty());
        assert(parser.tokens@.len() == parser.tokens.len());
        parser
    }

    /// Whether any diagnostic was raised so far.
    pub fn had_error(&self) -> (flag: bool)
        ensures
            flag == self@.has_error,
    {
        self.has_error
    }

    /// The diagnostics raised so far, in order.
    pub fn diagnostics(&self) -> (errors: Vec<LoxError>)
        ensures
            error_views(errors@) == self@.errors,
    {
        let mut errors: Vec<LoxError> = Vec::new();
        let mut i: usize = 0;
        while i < self.errors.len()
            invariant
                i <= self.errors@.len(),
                errors@.len() == i,
                forall|j: int| 0 <= j < i ==> errors@[j] == self.errors@[j],
            decreases self.errors@.len() - i,
        {
            errors.push(self.errors[i].duplicate());
            i += 1;
        }
        assert(errors@ =~= self.errors@);
        errors
    }

    /// Reads the tokens from the current position on into statements. The
    /// first syntax error outside a block ends the reading; the
    /// statements read before it are handed back.
    pub fn parse(&mut self) -> (statements: Vec<Stmt>)
        requires
            old(self).wf(),
        ensures
            final(self).wf(),
            final(self)@.tokens == old(self)@.tokens,
            stmt_views(statements@) == program(
                old(self)@.tokens,
                start(old(self)@),
                Seq::empty(),
            ).statements,
            final(self)@.curr == old(self)@.curr + program(
                old(self)@.tokens,
                start(old(self)@),
                Seq::empty(),
            ).used,
            final(self)@.errors == program(
                old(self)@.tokens,
                start(old(self)@),
                Seq::empty(),
            ).log,
            final(self)@.has_error == (final(self)@.errors.len() > 0),
    {
        reveal_with_fuel(program, 1);
        let mut statments: Vec<Stmt> = Vec::new();
        let ghost tokens = self@.tokens;
        let ghost origin = start(self@);
        let ghost whole = program(tokens, origin, Seq::empty());
        assert(stmt_views(statments@) =~= Seq::empty());
        while !self.is_at_end()
            invariant
                self.wf(),
                self@.tokens == tokens,
                tokens == old(self)@.tokens,
                origin == start(old(self)@),
                whole == program(tokens, origin, Seq::empty()),
                self@.curr >= origin.pos,
                whole.statements == program(tokens, start(self@), stmt_views(statments@)).statements,
                whole.used == program(tokens, start(self@), stmt_views(statments@)).used + (
                self@.curr - origin.pos),
                whole.log == program(tokens, start(self@), stmt_views(statments@)).log,
            decreases remaining(tokens, self@.curr as int),
        {
            reveal_with_fuel(program, 1);
            proof {
                lemma_declaration_takes_tokens(tokens, start(self@));
            }
            let ghost before = stmt_views(statments@);
            match self.declaration() {
                Ok(value) => {
                    statments.push(value);
                    assert(stmt_views(statments@) =~= before.push(value@));
                },
                Err(_) => {
                    return statments;
                },
            }
        }
        statments
    }

    #[verifier::spinoff_prover]
    fn declaration(&mut self) -> (r: Result<Stmt, ParserError>)
        requires
            old(self).wf(),
        ensures
            final(self).wf(),
            follows(old(self)@, final(self)@, declaration(old(self)@.tokens, start(old(self)@))),
            agrees(r, declaration(old(self)@.tokens, start(old(self)@)).result),
        decreases remaining(old(self)@.tokens, old(self)@.curr as int), 31nat,
    {
        reveal_with_fuel(declaration, 1);
        reveal_with_fuel(statement, 1);
        reveal_with_fuel(block, 1);
        if self.check(TokenType::FUN) {
            self.advance();
            let (name, params) = match self.function_head() {
                Ok(head) => head,
                Err(e) => {
                    return Err(e);
                },
            };
            let body = match self.block() {
                Ok(body) => body,
                Err(e) => {
                    return Err(e);
                },
            };
            return Ok(Stmt::function_stmt(FunctionStmt { name, params, body }));
        }
        if self.check(TokenType::VAR) {
            self.advance();
            return self.var_declaration();
        }
        self.statment()
    }

    /// The name and the parameters of a function, up to the brace that
    /// opens its body.
    fn function_head(&mut self) -> (r: Result<(Token, Vec<Token>), ParserError>)
        requires
            old(self).wf(),
        ensures
            final(self).wf(),
            follows(old(self)@, final(self)@, function_head(old(self)@.tokens, start(old(self)@))),
            match r {
                Ok(head) => function_head(old(self)@.tokens, start(old(self)@)).result == Ok::<
                    (TokenView, Seq<TokenView>),
                    ParserErrorView,
                >((head.0@, token_views(head.1@))),
                Err(e) => function_head(old(self)@.tokens, start(old(self)@)).result == Err::<
                    (TokenView, Seq<TokenView>),
                    ParserErrorView,
                >(e@),
            },
    {
        reveal(function_head);
        let name = match self.consume(TokenType::IDENTIFIER, "Expect function name.") {
            Ok(name) => name,
            Err(e) => {
                return Err(e);
            },
        };
        match self.consume(TokenType::LEFTPAREN, "Expect '(' after function name.") {
            Ok(_) => {},
            Err(e) => {
                return Err(e);
            },
        }
        let params = match self.parameters() {
            Ok(params) => params,
            Err(e) => {
                return Err(e);
            },
        };
        match self.consume(TokenType::RIGHTPAREN, "Expect ')' after parameters.") {
            Ok(_) => {},
            Err(e) => {
                return Err(e);
            },
        }
        match self.consume(TokenType::LEFTBRACE, "Expect '{' before function body.") {
            Ok(_) => {},
            Err(e) => {
                return Err(e);
            },
        }
        Ok((name, params))
    }

    /// The names of the parameters of a function.
    fn parameters(&mut self) -> (r: Result<Vec<Token>, ParserError>)
        requires
            old(self).wf(),
        ensures
            final(self).wf(),
            follows(old(self)@, final(self)@, parameters(old(self)@.tokens, start(old(self)@))),
            agrees_tokens(r, parameters(old(self)@.tokens, start(old(self)@)).result),
    {
        reveal(parameters);
        reveal_with_fuel(parameters_rest, 1);
        let mut params: Vec<Token> = Vec::new();
        if self.check(TokenType::RIGHTPAREN) {
            assert(token_views(params@) =~= Seq::empty());
            return Ok(params);
        }
        let ghost tokens = self@.tokens;
        let ghost origin = start(self@);
        let ghost whole = parameters_rest(tokens, origin, Seq::empty());
        assert(token_views(params@) =~= Seq::empty());
        loop
            invariant
                self.wf(),
                self@.tokens == tokens,
                tokens == old(self)@.tokens,
                origin == start(old(self)@),
                whole == parameters(tokens, origin),
                self@.curr >= origin.pos,
                whole == parameters_rest(tokens, start(self@), token_views(params@)).after(
                    (self@.curr - origin.pos) as nat,
                ),
            decreases remaining(tokens, self@.curr as int),
        {
            reveal_with_fuel(parameters_rest, 1);
            if params.len() >= 255 {
                self.report("Can't have more than 255 parameters.");
            }
            let ghost before = token_views(params@);
            let name = match self.consume(TokenType::IDENTIFIER, "Expect parameter name.") {
                Ok(name) => name,
                Err(e) => {
                    return Err(e);
                },
            };
            params.push(name);
            assert(token_views(params@) =~= before.push(name@));
            if self.check(TokenType::COMMA) {
                self.advance();
            } else {
                return Ok(params);
            }
        }
    }

    fn var_declaration(&mut self) -> (r: Result<Stmt, ParserError>)
        requires
            old(self).wf(),
        ensures
            final(self).wf(),
            follows(
                old(self)@,
                final(self)@,
                var_declaration(old(self)@.tokens, start(old(self)@)),
            ),
            agrees(r, var_declaration(old(self)@.tokens, start(old(self)@)).result),
    {
        reveal(var_declaration);
        let name = self.consume(TokenType::IDENTIFIER, "Expect variable name.");
        let mut initializer: Option<Expr> = None;
        if self.check(TokenType::EQUAL) {
            self.advance();
            match self.expression() {
                Ok(value) => {
                    initializer = Some(value);
                },
                Err(e) => {
                    return Err(e);
                },
            }
        }
        match self.consume(TokenType::SEMICOLON, "Expect ';' after variable declaration.") {
            Ok(_) => {},
            Err(err) => {
                return Err(err);
            },
        }
        match name {
            Ok(name) => Ok(Stmt::var_stmt(name, initializer)),
            Err(e) => Err(e),
        }
    }

    #[verifier::spinoff_prover]
    fn statment(&mut self) -> (r: Result<Stmt, ParserError>)
        requires
            old(self).wf(),
        ensures
            final(self).wf(),
            follows(old(self)@, final(self)@, statement(old(self)@.tokens, start(old(self)@))),
            agrees(r, statement(old(self)@.tokens, start(old(self)@)).result),
        decreases remaining(old(self)@.tokens, old(self)@.curr as int), 30nat,
    {
        reveal_with_fuel(statement, 1);
        reveal_with_fuel(block, 1);
        if self.check(TokenType::FOR) {
            self.advance();
            return self.for_statement();
        }
        if self.check(TokenType::IF) {
            self.advance();
            return self.if_statement();
        }
        if self.check(TokenType::PRINT) {
            self.advance();
            return self.print_statment();
        }
        if self.check(TokenType::RETURN) {
            let keyword = self.advance();
            return self.return_statement(keyword);
        }
        if self.check(TokenType::WHILE) {
            self.advance();
            return self.while_statement();
        }
        if self.check(TokenType::BREAK) {
            self.advance();
            return match self.consume(TokenType::SEMICOLON, "Expect ';' after 'break'.") {
                Ok(_) => Ok(Stmt::break_stmt()),
                Err(e) => Err(e),
            };
        }
        if self.check(TokenType::LEFTBRACE) {
            self.advance();
            return match self.block() {
                Ok(statements) => Ok(Stmt::block_stmt(statements)),
                Err(e) => Err(e),
            };
        }
        self.expression_statment()
    }

    /// The rest of a `for` loop, behind the keyword, as the `while` loop
    /// in a block that it stands for.
    #[verifier::spinoff_prover]
    fn for_statement(&mut self) -> (r: Result<Stmt, ParserError>)
        requires
            old(self).wf(),
            old(self)@.curr >= 1,
            check(old(self)@.tokens, old(self)@.curr - 1, TokenType::FOR),
        ensures
            final(self).wf(),
            final(self)@.curr + 1 == old(self)@.curr + statement(
                old(self)@.tokens,
                Cursor { pos: old(self)@.curr - 1, log: old(self)@.errors },
            ).used,
            final(self)@.tokens == old(self)@.tokens,
            final(self)@.errors == statement(
                old(self)@.tokens,
                Cursor { pos: old(self)@.curr - 1, log: old(self)@.errors },
            ).log,
            agrees(
                r,
                statement(
                    old(self)@.tokens,
                    Cursor { pos: old(self)@.curr - 1, log: old(self)@.errors },
                ).result,
            ),
        decreases remaining(old(self)@.tokens, old(self)@.curr as int), 33nat,
    {
        reveal_with_fuel(statement, 1);
        reveal_with_fuel(block, 1);
        let clauses = match self.for_clauses() {
            Ok(clauses) => clauses,
            Err(e) => {
                return Err(e);
            },
        };
        let body = match self.statment() {
            Ok(body) => body,
            Err(e) => {
                return Err(e);
            },
        };
        let ForClauses { initializer, condition, increment } = clauses;
        let ghost step = match option_view(increment) {
            Some(e) => Some(StmtView::Expresstion(e)),
            None => None,
        };
        let ghost first = option_view(initializer);
        let ghost body_view = body@;
        let mut inner: Vec<Stmt> = Vec::new();
        inner.push(body);
        match increment {
            Some(e) => {
                inner.push(Stmt::expresstion_stmt(e));
            },
            None => {},
        }
        let test = match condition {
            Some(c) => c,
            None => Expr::literal(LiteralValue::Boolean(true)),
        };
        assert(stmt_views(inner@) =~= seq![body_view] + listed(step));
        let looping = Stmt::while_stmt(test, Stmt::block_stmt(inner));
        let ghost looping_view = looping@;
        let mut outer: Vec<Stmt> = Vec::new();
        match initializer {
            Some(s) => {
                outer.push(s);
            },
            None => {},
        }
        outer.push(looping);
        assert(stmt_views(outer@) =~= listed(first) + seq![looping_view]);
        Ok(Stmt::block_stmt(outer))
    }

    /// The clauses of a `for` loop, in parentheses.
    fn for_clauses(&mut self) -> (r: Result<ForClauses, ParserError>)
        requires
            old(self).wf(),
        ensures
            final(self).wf(),
            follows(old(self)@, final(self)@, for_clauses(old(self)@.tokens, start(old(self)@))),
            match r {
                Ok(c) => for_clauses(old(self)@.tokens, start(old(self)@)).result == Ok::<
                    (Option<StmtView>, Option<ExprView>, Option<ExprView>),
                    ParserErrorView,
                >((option_view(c.initializer), option_view(c.condition), option_view(c.increment))),
                Err(e) => for_clauses(old(self)@.tokens, start(old(self)@)).result == Err::<
                    (Option<StmtView>, Option<ExprView>, Option<ExprView>),
                    ParserErrorView,
                >(e@),
            },
    {
        reveal(for_clauses);
        match self.consume(TokenType::LEFTPAREN, "Expect '(' after 'for'.") {
            Ok(_) => {},
            Err(e) => {
                return Err(e);
            },
        }
        let initializer = match self.for_initializer() {
            Ok(initializer) => initializer,
            Err(e) => {
                return Err(e);
            },
        };
        let condition = match self.optional_clause(
            TokenType::SEMICOLON,
            "Expect ';' after loop condition.",
        ) {
            Ok(condition) => condition,
            Err(e) => {
                return Err(e);
            },
        };
        let increment = match self.optional_clause(
            TokenType::RIGHTPAREN,
            "Expect ')' after for clauses.",
        ) {
            Ok(increment) => increment,
            Err(e) => {
                return Err(e);
            },
        };
        Ok(ForClauses { initializer, condition, increment })
    }

    /// The initializer of a `for` loop.
    fn for_initializer(&mut self) -> (r: Result<Option<Stmt>, ParserError>)
        requires
            old(self).wf(),
        ensures
            final(self).wf(),
            follows(
                old(self)@,
                final(self)@,
                for_initializer(old(self)@.tokens, start(old(self)@)),
            ),
            agrees_option(r, for_initializer(old(self)@.tokens, start(old(self)@)).result),
    {
        reveal(for_initializer);
        if self.check(TokenType::SEMICOLON) {
            self.advance();
            return Ok(None);
        }
        let first = if self.check(TokenType::VAR) {
            self.advance();
            self.var_declaration()
        } else {
            self.expression_statment()
        };
        match first {
            Ok(s) => Ok(Some(s)),
            Err(e) => Err(e),
        }
    }

    /// An expression, unless the closing token stands there already, and
    /// that token.
    fn optional_clause(&mut self, closing: TokenType, message: &str) -> (r: Result<
        Option<Expr>,
        ParserError,
    >)
        requires
            old(self).wf(),
        ensures
            final(self).wf(),
            follows(
                old(self)@,
                final(self)@,
                optional_clause(old(self)@.tokens, start(old(self)@), closing, message@),
            ),
            agrees_option(
                r,
                optional_clause(old(self)@.tokens, start(old(self)@), closing, message@).result,
            ),
    {
        reveal(optional_clause);
        if self.check(closing) {
            self.advance();
            return Ok(None);
        }
        match self.closed_expression(closing, message) {
            Ok(e) => Ok(Some(e)),
            Err(e) => Err(e),
        }
    }

    /// The rest of an `if` statement, behind the keyword.
    #[verifier::spinoff_prover]
    fn if_statement(&mut self) -> (r: Result<Stmt, ParserError>)
        requires
            old(self).wf(),
            old(self)@.curr >= 1,
            check(old(self)@.tokens, old(self)@.curr - 1, TokenType::IF),
        ensures
            final(self).wf(),
            final(self)@.curr + 1 == old(self)@.curr + statement(
                old(self)@.tokens,
                Cursor { pos: old(self)@.curr - 1, log: old(self)@.errors },
            ).used,
            final(self)@.tokens == old(self)@.tokens,
            final(self)@.errors == statement(
                old(self)@.tokens,
                Cursor { pos: old(self)@.curr - 1, log: old(self)@.errors },
            ).log,
            agrees(
                r,
                statement(
                    old(self)@.tokens,
                    Cursor { pos: old(self)@.curr - 1, log: old(self)@.errors },
                ).result,
            ),
        decreases remaining(old(self)@.tokens, old(self)@.curr as int), 33nat,
    {
        reveal_with_fuel(statement, 1);
        reveal_with_fuel(block, 1);
        let test = match self.condition("Expect '(' after 'if'.", "Expect ')' after if condition.") {
            Ok(test) => test,
            Err(e) => {
                return Err(e);
            },
        };
        let then_branch = match self.statment() {
            Ok(s) => s,
            Err(e) => {
                return Err(e);
            },
        };
        if self.check(TokenType::ELSE) {
            self.advance();
            let else_branch = match self.statment() {
                Ok(s) => s,
                Err(e) => {
                    return Err(e);
                },
            };
            return Ok(Stmt::if_stmt(test, Box::new(then_branch), Some(Box::new(else_branch))));
        }
        Ok(Stmt::if_stmt(test, Box::new(then_branch), None))
    }

    /// The rest of a `while` statement, behind the keyword.
    #[verifier::spinoff_prover]
    fn while_statement(&mut self) -> (r: Result<Stmt, ParserError>)
        requires
            old(self).wf(),
            old(self)@.curr >= 1,
            check(old(self)@.tokens, old(self)@.curr - 1, TokenType::WHILE),
        ensures
            final(self).wf(),
            final(self)@.curr + 1 == old(self)@.curr + statement(
                old(self)@.tokens,
                Cursor { pos: old(self)@.curr - 1, log: old(self)@.errors },
            ).used,
            final(self)@.tokens == old(self)@.tokens,
            final(self)@.errors == statement(
                old(self)@.tokens,
                Cursor { pos: old(self)@.curr - 1, log: old(self)@.errors },
            ).log,
            agrees(
                r,
                statement(
                    old(self)@.tokens,
                    Cursor { pos: old(self)@.curr - 1, log: old(self)@.errors },
                ).result,
            ),
        decreases remaining(old(self)@.tokens, old(self)@.curr as int), 33nat,
    {
        reveal_with_fuel(statement, 1);
        reveal_with_fuel(block, 1);
        let test = match self.condition(
            "Expect '(' after 'while'.",
            "Expect ')' after condition.",
        ) {
            Ok(test) => test,
            Err(e) => {
                return Err(e);
            },
        };
        match self.statment() {
            Ok(body) => Ok(Stmt::while_stmt(test, body)),
            Err(e) => Err(e),
        }
    }

    /// An opening parenthesis, an expression and a closing parenthesis.
    fn condition(&mut self, opening: &str, closing: &str) -> (r: Result<Expr, ParserError>)
        requires
            old(self).wf(),
        ensures
            final(self).wf(),
            follows(
                old(self)@,
                final(self)@,
                condition(old(self)@.tokens, start(old(self)@), opening@, closing@),
            ),
            agrees(r, condition(old(self)@.tokens, start(old(self)@), opening@, closing@).result),
    {
        reveal(condition);
        match self.consume(TokenType::LEFTPAREN, opening) {
            Ok(_) => {},
            Err(e) => {
                return Err(e);
            },
        }
        self.closed_expression(TokenType::RIGHTPAREN, closing)
    }

    /// The declarations of a block, up to its closing brace.
    #[verifier::spinoff_prover]
    fn block(&mut self) -> (r: Result<Vec<Stmt>, ParserError>)
        requires
            old(self).wf(),
        ensures
            final(self).wf(),
            follows(
                old(self)@,
                final(self)@,
                block(old(self)@.tokens, start(old(self)@), Seq::empty()),
            ),
            agrees_stmts(r, block(old(self)@.tokens, start(old(self)@), Seq::empty()).result),
        decreases remaining(old(self)@.tokens, old(self)@.curr as int), 32nat,
    {
        reveal_with_fuel(block, 1);
        reveal_with_fuel(declaration, 1);
        let mut statements: Vec<Stmt> = Vec::new();
        let ghost tokens = self@.tokens;
        let ghost origin = start(self@);
        let ghost whole = block(tokens, origin, Seq::empty());
        assert(stmt_views(statements@) =~= Seq::empty());
        while !self.check(TokenType::RIGHTBRACE) && !self.is_at_end()
            invariant
                self.wf(),
                self@.tokens == tokens,
                tokens == old(self)@.tokens,
                origin == start(old(self)@),
                self@.curr >= origin.pos,
                remaining(tokens, self@.curr as int) <= remaining(tokens, origin.pos),
                whole == block(tokens, start(self@), stmt_views(statements@)).after(
                    (self@.curr - origin.pos) as nat,
                ),
            decreases remaining(tokens, self@.curr as int),
        {
            reveal_with_fuel(block, 1);
            reveal_with_fuel(declaration, 1);
            proof {
                lemma_declaration_takes_tokens(tokens, start(self@));
            }
            let ghost before = stmt_views(statements@);
            match self.declaration() {
                Ok(value) => {
                    statements.push(value);
                    assert(stmt_views(statements@) =~= before.push(value@));
                },
                Err(_) => {
                    self.synchronize();
                },
            }
        }
        match self.consume(TokenType::RIGHTBRACE, "Expect '}' after block.") {
            Ok(_) => Ok(statements),
            Err(e) => Err(e),
        }
    }

    fn print_statment(&mut self) -> (r: Result<Stmt, ParserError>)
        requires
            old(self).wf(),
        ensures
            final(self).wf(),
            follows(
                old(self)@,
                final(self)@,
                print_statement(old(self)@.tokens, start(old(self)@)),
            ),
            agrees(r, print_statement(old(self)@.tokens, start(old(self)@)).result),
    {
        reveal(print_statement);
        match self.closed_expression(TokenType::SEMICOLON, "Expect ';' after value.") {
            Ok(value) => Ok(Stmt::print_stmt(value)),
            Err(e) => Err(e),
        }
    }

    /// The rest of a `return` statement, behind the keyword.
    fn return_statement(&mut self, keyword: Token) -> (r: Result<Stmt, ParserError>)
        requires
            old(self).wf(),
        ensures
            final(self).wf(),
            follows(
                old(self)@,
                final(self)@,
                return_statement(old(self)@.tokens, start(old(self)@), keyword@),
            ),
            agrees(r, return_statement(old(self)@.tokens, start(old(self)@), keyword@).result),
    {
        reveal(return_statement);
        if self.check(TokenType::SEMICOLON) {
            self.advance();
            return Ok(Stmt::return_stmt(keyword, None));
        }
        match self.closed_expression(TokenType::SEMICOLON, "Expect ';' after return value.") {
            Ok(value) => Ok(Stmt::return_stmt(keyword, Some(value))),
            Err(e) => Err(e),
        }
    }

    fn expression_statment(&mut self) -> (r: Result<Stmt, ParserError>)
        requires
            old(self).wf(),
        ensures
            final(self).wf(),
            follows(
                old(self)@,
                final(self)@,
                expression_statement(old(self)@.tokens, start(old(self)@)),
            ),
            agrees(r, expression_statement(old(self)@.tokens, start(old(self)@)).result),
    {
        reveal(expression_statement);
        match self.closed_expression(TokenType::SEMICOLON, "Expect ';' after expression.") {
            Ok(expr) => Ok(Stmt::expresstion_stmt(expr)),
            Err(e) => Err(e),
        }
    }

    /// An expression and the token that must close it.
    #[verifier::spinoff_prover]
    fn closed_expression(&mut self, closing: TokenType, message: &str) -> (r: Result<
        Expr,
        ParserError,
    >)
        requires
            old(self).wf(),
        ensures
            final(self).wf(),
            follows(
                old(self)@,
                final(self)@,
                closed_expression(old(self)@.tokens, start(old(self)@), closing, message@),
            ),
            agrees(
                r,
                closed_expression(old(self)@.tokens, start(old(self)@), closing, message@).result,
            ),
        decreases remaining(old(self)@.tokens, old(self)@.curr as int), 28nat,
    {
        reveal_with_fuel(closed_expression, 1);
        reveal_with_fuel(expression, 1);
        let value = match self.expression() {
            Ok(value) => value,
            Err(e) => {
                return Err(e);
            },
        };
        match self.consume(closing, message) {
            Ok(_) => Ok(value),
            Err(e) => Err(e),
        }
    }

    #[verifier::spinoff_prover]
    fn expression(&mut self) -> (r: Result<Expr, ParserError>)
        requires
            old(self).wf(),
        ensures
            final(self).wf(),
            follows(old(self)@, final(self)@, expression(old(self)@.tokens, start(old(self)@))),
            agrees(r, expression(old(self)@.tokens, start(old(self)@)).result),
        decreases remaining(old(self)@.tokens, old(self)@.curr as int), 27nat,
    {
        reveal_with_fuel(expression, 1);
        reveal_with_fuel(assignment, 1);
        let expr = match self.assignment() {
            Ok(expr) => expr,
            Err(e) => {
                return Err(e);
            },
        };
        if self.check(TokenType::QUESTION) {
            self.advance();
            let left = match self.expression() {
                Ok(left) => left,
                Err(e) => {
                    return Err(e);
                },
            };
            match self.consume(TokenType::COLON, "Expect ')' after expression.") {
                Ok(_) => {},
                Err(e) => {
                    return Err(e);
                },
            }
            let right = match self.expression() {
                Ok(right) => right,
                Err(e) => {
                    return Err(e);
                },
            };
            return Ok(Expr::ternary(expr, left, right));
        }
        if self.check(TokenType::COMMA) {
            self.advance();
            let right = match self.expression() {
                Ok(right) => right,
                Err(e) => {
                    return Err(e);
                },
            };
            return Ok(Expr::separator(expr, right));
        }
        Ok(expr)
    }

    /// A name, `=` and an assignment, or a logical `or`.
    #[verifier::spinoff_prover]
    fn assignment(&mut self) -> (r: Result<Expr, ParserError>)
        requires
            old(self).wf(),
        ensures
            final(self).wf(),
            follows(old(self)@, final(self)@, assignment(old(self)@.tokens, start(old(self)@))),
            agrees(r, assignment(old(self)@.tokens, start(old(self)@)).result),
        decreases remaining(old(self)@.tokens, old(self)@.curr as int), 26nat,
    {
        reveal_with_fuel(assignment, 1);
        reveal_with_fuel(binary, 1);
        let expr = match self.logical_or() {
            Ok(expr) => expr,
            Err(e) => {
                return Err(e);
            },
        };
        if self.check(TokenType::EQUAL) {
            match expr {
                Expr::Variable(target) => {
                    self.advance();
                    let value = match self.assignment() {
                        Ok(value) => value,
                        Err(e) => {
                            return Err(e);
                        },
                    };
                    return Ok(Expr::assign(target.name, value));
                },
                _ => {
                    let e = self.fail("Invalid assignment target.");
                    self.advance();
                    return Err(e);
                },
            }
        }
        Ok(expr)
    }

    fn logical_or(&mut self) -> (r: Result<Expr, ParserError>)
        requires
            old(self).wf(),
        ensures
            final(self).wf(),
            follows(
                old(self)@,
                final(self)@,
                binary(old(self)@.tokens, start(old(self)@), Level::Or),
            ),
            agrees(r, binary(old(self)@.tokens, start(old(self)@), Level::Or).result),
        decreases remaining(old(self)@.tokens, old(self)@.curr as int), 25nat,
    {
        self.binary(Level::Or)
    }

    fn logical_and(&mut self) -> (r: Result<Expr, ParserError>)
        requires
            old(self).wf(),
        ensures
            final(self).wf(),
            follows(
                old(self)@,
                final(self)@,
                binary(old(self)@.tokens, start(old(self)@), Level::And),
            ),
            agrees(r, binary(old(self)@.tokens, start(old(self)@), Level::And).result),
        decreases remaining(old(self)@.tokens, old(self)@.curr as int), 21nat,
    {
        self.binary(Level::And)
    }

    fn equality(&mut self) -> (r: Result<Expr, ParserError>)
        requires
            old(self).wf(),
        ensures
            final(self).wf(),
            follows(
                old(self)@,
                final(self)@,
                binary(old(self)@.tokens, start(old(self)@), Level::Equality),
            ),
            agrees(r, binary(old(self)@.tokens, start(old(self)@), Level::Equality).result),
        decreases remaining(old(self)@.tokens, old(self)@.curr as int), 17nat,
    {
        self.binary(Level::Equality)
    }

    fn comparison(&mut self) -> (r: Result<Expr, ParserError>)
        requires
            old(self).wf(),
        ensures
            final(self).wf(),
            follows(
                old(self)@,
                final(self)@,
                binary(old(self)@.tokens, start(old(self)@), Level::Comparison),
            ),
            agrees(r, binary(old(self)@.tokens, start(old(self)@), Level::Comparison).result),
        decreases remaining(old(self)@.tokens, old(self)@.curr as int), 13nat,
    {
        self.binary(Level::Comparison)
    }

    fn term(&mut self) -> (r: Result<Expr, ParserError>)
        requires
            old(self).wf(),
        ensures
            final(self).wf(),
            follows(
                old(self)@,
                final(self)@,
                binary(old(self)@.tokens, start(old(self)@), Level::Term),
            ),
            agrees(r, binary(old(self)@.tokens, start(old(self)@), Level::Term).result),
        decreases remaining(old(self)@.tokens, old(self)@.curr as int), 9nat,
    {
        self.binary(Level::Term)
    }

    /// An operand of a level: an expression of the level below.
    #[verifier::spinoff_prover]
    fn operand(&mut self, level: Level) -> (r: Result<Expr, ParserError>)
        requires
            old(self).wf(),
        ensures
            final(self).wf(),
            follows(
                old(self)@,
                final(self)@,
                operand(old(self)@.tokens, start(old(self)@), level),
            ),
            agrees(r, operand(old(self)@.tokens, start(old(self)@), level).result),
        decreases remaining(old(self)@.tokens, old(self)@.curr as int), (rank(level) - 1) as nat,
    {
        reveal_with_fuel(operand, 1);
        reveal_with_fuel(factor, 1);
        reveal_with_fuel(binary, 1);
        match level {
            Level::Term => self.factor(),
            Level::Comparison => self.term(),
            Level::Equality => self.comparison(),
            Level::And => self.equality(),
            Level::Or => self.logical_and(),
        }
    }

    /// Whether the token at the current position is an operator of a
    /// level.
    fn at_operator(&self, level: Level) -> (b: bool)
        requires
            self.wf(),
        ensures
            b == (!at_end(self@.tokens, self@.curr as int) && operator_of(
                level,
                self@.tokens[self@.curr as int].token_type,
            )),
    {
        match level {
            Level::Term => self.check(TokenType::MINUS) || self.check(TokenType::PLUS),
            Level::Comparison => self.check(TokenType::GREATER) || self.check(
                TokenType::GREATEREQUAL,
            ) || self.check(TokenType::LESS) || self.check(TokenType::LESSEQUAL),
            Level::Equality => self.check(TokenType::BANGEQUAL) || self.check(
                TokenType::EQUALEQUAL,
            ),
            Level::And => self.check(TokenType::AND),
            Level::Or => self.check(TokenType::OR),
        }
    }

    /// Operands of one level, joined by its operators from left to right.
    #[verifier::spinoff_prover]
    fn binary(&mut self, level: Level) -> (r: Result<Expr, ParserError>)
        requires
            old(self).wf(),
        ensures
            final(self).wf(),
            follows(old(self)@, final(self)@, binary(old(self)@.tokens, start(old(self)@), level)),
            agrees(r, binary(old(self)@.tokens, start(old(self)@), level).result),
        decreases remaining(old(self)@.tokens, old(self)@.curr as int), rank(level),
    {
        reveal_with_fuel(binary, 1);
        reveal_with_fuel(binary_rest, 1);
        reveal_with_fuel(operand, 1);
        let ghost tokens = self@.tokens;
        let ghost origin = start(self@);
        let mut expr = match self.operand(level) {
            Ok(expr) => expr,
            Err(e) => {
                return Err(e);
            },
        };
        let ghost first = start(self@);
        let ghost whole = binary_rest(tokens, first, level, expr@);
        while self.at_operator(level)
            invariant
                self.wf(),
                self@.tokens == tokens,
                tokens == old(self)@.tokens,
                origin == start(old(self)@),
                binary(tokens, origin, level) == whole.after((first.pos - origin.pos) as nat),
                self@.curr >= first.pos,
                first.pos >= origin.pos,
                remaining(tokens, first.pos) <= remaining(tokens, origin.pos),
                remaining(tokens, self@.curr as int) <= remaining(tokens, first.pos),
                whole == binary_rest(tokens, start(self@), level, expr@).after(
                    (self@.curr - first.pos) as nat,
                ),
            decreases remaining(tokens, self@.curr as int),
        {
            reveal_with_fuel(binary_rest, 1);
            reveal_with_fuel(operand, 1);
            let operator = self.advance();
            let right = match self.operand(level) {
                Ok(right) => right,
                Err(e) => {
                    return Err(e);
                },
            };
            expr = match level {
                Level::And | Level::Or => Expr::logical(expr, operator, right),
                _ => Expr::binary(expr, operator, right),
            };
        }
        Ok(expr)
    }

    #[verifier::spinoff_prover]
    fn factor(&mut self) -> (r: Result<Expr, ParserError>)
        requires
            old(self).wf(),
        ensures
            final(self).wf(),
            follows(old(self)@, final(self)@, factor(old(self)@.tokens, start(old(self)@))),
            agrees(r, factor(old(self)@.tokens, start(old(self)@)).result),
        decreases remaining(old(self)@.tokens, old(self)@.curr as int), 5nat,
    {
        reveal_with_fuel(factor, 1);
        reveal_with_fuel(unary, 1);
        let expr = match self.unary() {
            Ok(expr) => expr,
            Err(e) => {
                return Err(e);
            },
        };
        if self.match_token_types(vec![TokenType::STAR, TokenType::SLASH]) {
            let operator = self.previous();
            let right = match self.factor() {
                Ok(right) => right,
                Err(e) => {
                    return Err(e);
                },
            };
            return Ok(Expr::binary(expr, operator, right));
        }
        Ok(expr)
    }

    #[verifier::spinoff_prover]
    fn unary(&mut self) -> (r: Result<Expr, ParserError>)
        requires
            old(self).wf(),
        ensures
            final(self).wf(),
            follows(old(self)@, final(self)@, unary(old(self)@.tokens, start(old(self)@))),
            agrees(r, unary(old(self)@.tokens, start(old(self)@)).result),
        decreases remaining(old(self)@.tokens, old(self)@.curr as int), 4nat,
    {
        reveal_with_fuel(unary, 1);
        reveal_with_fuel(call, 1);
        if self.match_token_types(vec![TokenType::BANG, TokenType::MINUS]) {
            let operator = self.previous();
            let right = match self.unary() {
                Ok(right) => right,
                Err(e) => {
                    return Err(e);
                },
            };
            return Ok(Expr::unary(operator, right));
        }
        self.call()
    }

    /// A primary followed by any number of argument lists.
    #[verifier::spinoff_prover]
    fn call(&mut self) -> (r: Result<Expr, ParserError>)
        requires
            old(self).wf(),
        ensures
            final(self).wf(),
            follows(old(self)@, final(self)@, call(old(self)@.tokens, start(old(self)@))),
            agrees(r, call(old(self)@.tokens, start(old(self)@)).result),
        decreases remaining(old(self)@.tokens, old(self)@.curr as int), 3nat,
    {
        reveal_with_fuel(call, 1);
        reveal_with_fuel(primary, 1);
        reveal_with_fuel(call_rest, 1);
        match self.primary() {
            Ok(expr) => self.finish_call(expr),
            Err(e) => Err(e),
        }
    }

    /// The argument lists behind a callee, each a call of what stands
    /// before it.
    #[verifier::spinoff_prover]
    fn finish_call(&mut self, callee: Expr) -> (r: Result<Expr, ParserError>)
        requires
            old(self).wf(),
        ensures
            final(self).wf(),
            follows(
                old(self)@,
                final(self)@,
                call_rest(old(self)@.tokens, start(old(self)@), callee@),
            ),
            agrees(r, call_rest(old(self)@.tokens, start(old(self)@), callee@).result),
        decreases remaining(old(self)@.tokens, old(self)@.curr as int), 2nat,
    {
        reveal_with_fuel(call_rest, 1);
        reveal_with_fuel(arguments, 1);
        if !self.check(TokenType::LEFTPAREN) {
            return Ok(callee);
        }
        self.advance();
        let list = match self.arguments() {
            Ok(list) => list,
            Err(e) => {
                return Err(e);
            },
        };
        let paren = match self.consume(TokenType::RIGHTPAREN, "Expect ')' after arguments.") {
            Ok(paren) => paren,
            Err(e) => {
                return Err(e);
            },
        };
        self.finish_call(Expr::call(callee, paren, list))
    }

    /// The arguments of a call, up to the closing parenthesis.
    #[verifier::spinoff_prover]
    fn arguments(&mut self) -> (r: Result<Vec<Expr>, ParserError>)
        requires
            old(self).wf(),
        ensures
            final(self).wf(),
            follows(old(self)@, final(self)@, arguments(old(self)@.tokens, start(old(self)@))),
            agrees_exprs(r, arguments(old(self)@.tokens, start(old(self)@)).result),
        decreases remaining(old(self)@.tokens, old(self)@.curr as int), 29nat,
    {
        reveal_with_fuel(arguments, 1);
        reveal_with_fuel(arguments_rest, 1);
        reveal_with_fuel(assignment, 1);
        let mut list: Vec<Expr> = Vec::new();
        if self.check(TokenType::RIGHTPAREN) {
            assert(expr_views(list@) =~= Seq::empty());
            return Ok(list);
        }
        let ghost tokens = self@.tokens;
        let ghost origin = start(self@);
        let ghost whole = arguments_rest(tokens, origin, Seq::empty());
        assert(expr_views(list@) =~= Seq::empty());
        loop
            invariant
                self.wf(),
                self@.tokens == tokens,
                tokens == old(self)@.tokens,
                origin == start(old(self)@),
                whole == arguments(tokens, origin),
                self@.curr >= origin.pos,
                remaining(tokens, self@.curr as int) <= remaining(tokens, origin.pos),
                whole == arguments_rest(tokens, start(self@), expr_views(list@)).after(
                    (self@.curr - origin.pos) as nat,
                ),
            decreases remaining(tokens, self@.curr as int),
        {
            reveal_with_fuel(arguments_rest, 1);
            reveal_with_fuel(assignment, 1);
            if list.len() >= 255 {
                self.report("Can't have more than 255 arguments.");
            }
            let ghost before = expr_views(list@);
            let item = match self.assignment() {
                Ok(item) => item,
                Err(e) => {
                    return Err(e);
                },
            };
            list.push(item);
            assert(expr_views(list@) =~= before.push(item@));
            if self.check(TokenType::COMMA) {
                self.advance();
            } else {
                return Ok(list);
            }
        }
    }

    /// The value of the current token, if it is a literal by itself.
    fn literal(&self) -> (value: Option<LiteralValue>)
        requires
            self.wf(),
        ensures
            option_view(value) == literal_of(self@.tokens[self@.curr as int]),
    {
        let token = self.peek();
        match token.token_type {
            TokenType::FALSE => Some(LiteralValue::Boolean(false)),
            TokenType::TRUE => Some(LiteralValue::Boolean(true)),
            TokenType::NIL => Some(LiteralValue::Nil),
            TokenType::NUMBER | TokenType::STRING => match &token.literal {
                Some(TokenLiteral::Float(number)) => Some(LiteralValue::Number(number.duplicate())),
                Some(TokenLiteral::Text(text)) => Some(LiteralValue::String(text.clone())),
                None => None,
            },
            _ => None,
        }
    }

    #[verifier::spinoff_prover]
    fn primary(&mut self) -> (r: Result<Expr, ParserError>)
        requires
            old(self).wf(),
        ensures
            final(self).wf(),
            follows(old(self)@, final(self)@, primary(old(self)@.tokens, start(old(self)@))),
            agrees(r, primary(old(self)@.tokens, start(old(self)@)).result),
        decreases remaining(old(self)@.tokens, old(self)@.curr as int), 1nat,
    {
        reveal_with_fuel(primary, 1);
        reveal_with_fuel(closed_expression, 1);
        if self.is_at_end() {
            return Err(self.fail("Expect expression."));
        }
        match self.literal() {
            Some(value) => {
                self.advance();
                return Ok(Expr::literal(value));
            },
            None => {},
        }
        if self.check(TokenType::IDENTIFIER) {
            let name = self.advance();
            return Ok(Expr::variable(name));
        }
        if self.check(TokenType::LEFTPAREN) {
            self.advance();
            return match self.closed_expression(
                TokenType::RIGHTPAREN,
                "Expect ')' after expression.",
            ) {
                Ok(expr) => Ok(Expr::grouping(expr)),
                Err(err) => Err(err),
            };
        }
        Err(self.fail("Expect expression."))
    }

    /// Records a diagnostic at the current token.
    fn report(&mut self, message: &str)
        requires
            old(self).wf(),
        ensures
            final(self).wf(),
            final(self)@.tokens == old(self)@.tokens,
            final(self)@.curr == old(self)@.curr,
            final(self)@.errors == old(self)@.errors.push(
                diagnostic(old(self)@.tokens[old(self)@.curr as int], message@),
            ),
    {
        let report = LoxError::token_errro(&self.tokens[self.curr], String::from_str(message));
        assert(error_views(self.errors@.push(report)) =~= error_views(self.errors@).push(report@));
        self.errors.push(report);
        self.has_error = true;
    }

    /// Raises a syntax error at the current token, and reports it.
    fn fail(&mut self, message: &str) -> (error: ParserError)
        requires
            old(self).wf(),
        ensures
            final(self).wf(),
            final(self)@.tokens == old(self)@.tokens,
            final(self)@.curr == old(self)@.curr,
            final(self)@.errors == old(self)@.errors.push(
                diagnostic(old(self)@.tokens[old(self)@.curr as int], message@),
            ),
            error@ == (ParserErrorView {
                token: old(self)@.tokens[old(self)@.curr as int],
                message: message@,
            }),
    {
        self.report(message);
        ParserError::new(self.tokens[self.curr].duplicate(), String::from_str(message))
    }

    fn consume(&mut self, token_type: TokenType, error_message: &str) -> (r: Result<
        Token,
        ParserError,
    >)
        requires
            old(self).wf(),
        ensures
            final(self).wf(),
            follows(
                old(self)@,
                final(self)@,
                consume(old(self)@.tokens, start(old(self)@), token_type, error_message@),
            ),
            agrees(
                r,
                consume(old(self)@.tokens, start(old(self)@), token_type, error_message@).result,
            ),
    {
        if self.check(token_type) {
            Ok(self.advance())
        } else {
            Err(self.fail(error_message))
        }
    }

    /// Skips tokens to where a statement may begin, to read on after a
    /// syntax error.
    fn synchronize(&mut self)
        requires
            old(self).wf(),
        ensures
            final(self).wf(),
            final(self)@.tokens == old(self)@.tokens,
            final(self)@.errors == old(self)@.errors,
            final(self)@.curr == old(self)@.curr + synchronize(
                old(self)@.tokens,
                old(self)@.curr as int,
            ),
    {
        reveal_with_fuel(skipped_from, 1);
        if self.is_at_end() {
            return ;
        }
        self.advance();
        let ghost tokens = self@.tokens;
        let ghost first = self@.curr as int;
        while !self.is_at_end()
            invariant
                self.wf(),
                self@.tokens == tokens,
                tokens == old(self)@.tokens,
                first == old(self)@.curr + 1,
                !at_end(tokens, old(self)@.curr as int),
                self@.errors == old(self)@.errors,
                self@.curr >= first >= 1,
                skipped_from(tokens, first) == skipped_from(tokens, self@.curr as int) + (
                self@.curr - first),
            decreases remaining(tokens, self@.curr as int),
        {
            reveal_with_fuel(skipped_from, 1);
            if self.tokens[self.curr - 1].token_type == TokenType::SEMICOLON {
                return ;
            }
            match self.peek().token_type {
                TokenType::IF
                | TokenType::FUN
                | TokenType::FOR
                | TokenType::CLASS
                | TokenType::WHILE
                | TokenType::PRINT
                | TokenType::RETURN
                | TokenType::VAR => {
                    return ;
                },
                _ => {},
            }
            self.advance();
        }
    }

    fn check(&self, token_type: TokenType) -> (b: bool)
        requires
            self.wf(),
        ensures
            b == check(self@.tokens, self@.curr as int, token_type),
    {
        if self.is_at_end() {
            return false;
        }
        self.peek().token_type == token_type
    }

    /// Takes the current token if it is of one of the given kinds.
    fn match_token_types(&mut self, token_types: Vec<TokenType>) -> (matched: bool)
        requires
            old(self).wf(),
        ensures
            final(self).wf(),
            final(self)@.tokens == old(self)@.tokens,
            final(self)@.errors == old(self)@.errors,
            matched == (!at_end(old(self)@.tokens, old(self)@.curr as int) && token_types@.contains(
                old(self)@.tokens[old(self)@.curr as int].token_type,
            )),
            final(self)@.curr == old(self)@.curr + if matched {
                1int
            } else {
                0int
            },
    {
        let mut i: usize = 0;
        while i < token_types.len()
            invariant
                self.wf(),
                *self == *old(self),
                i <= token_types@.len(),
                forall|j: int|
                    0 <= j < i ==> !check(self@.tokens, self@.curr as int, token_types@[j]),
            decreases token_types@.len() - i,
        {
            if self.check(token_types[i]) {
                self.advance();
                return true;
            }
            i += 1;
        }
        false
    }

    fn previous(&self) -> (token: Token)
        requires
            self.wf(),
            self@.curr >= 1,
        ensures
            token@ == self@.tokens[self@.curr - 1],
    {
        self.tokens[self.curr - 1].duplicate()
    }

    /// Moves on by one token, unless the parser is at the end, and hands
    /// back the token that it stood on.
    fn advance(&mut self) -> (token: Token)
        requires
            old(self).wf(),
        ensures
            final(self).wf(),
            final(self)@.tokens == old(self)@.tokens,
            final(self)@.errors == old(self)@.errors,
            token@ == old(self)@.tokens[old(self)@.curr as int],
            final(self)@.curr == old(self)@.curr + if at_end(
                old(self)@.tokens,
                old(self)@.curr as int,
            ) {
                0int
            } else {
                1int
            },
    {
        let token = self.tokens[self.curr].duplicate();
        if !self.is_at_end() {
            self.curr += 1
        }
        token
    }

    fn peek(&self) -> (token: &Token)
        requires
            self.wf(),
        ensures
            token@ == self@.tokens[self@.curr as int],
    {
        &self.tokens[self.curr]
    }

    fn is_at_end(&self) -> (b: bool)
        requires
            self.wf(),
        ensures
            b == at_end(self@.tokens, self@.curr as int),
    {
        self.peek().token_type == TokenType::EOF
    }
}

} // verus!
