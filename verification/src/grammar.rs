//! The grammar of the language, as functions from a token stream and a
//! position to what the parser makes of the tokens from there.
//!
//! ```text
//! program        := function_list end
//! function_list  := function function_list | empty
//! function       := "fn" id "(" params? ")" "->" type "{" body "}"
//! params         := param ("," param)*
//! param          := id ":" type
//! type           := "i8"|"i16"|"i32"|"i64"|"u8"|"u16"|"u32"|"u64"|"void"
//! body           := statement*
//! statement      := block_stmt | non_block_stmt ";"
//! block_stmt     := if_stmt | while_stmt
//! non_block_stmt := decl_stmt | assign_stmt | return_stmt | expr
//! decl_stmt      := "let" id ":" type "=" expr
//! assign_stmt    := id "=" expr
//! return_stmt    := "return" expr?
//! if_stmt        := "if" expr "{" body "}" ("else" (if_stmt | "{" body "}"))?
//! while_stmt     := "while" expr "{" body "}"
//! expr           := term (("+"|"-") term)*
//! term           := factor (("*"|"/"|"%") factor)*
//! factor         := number | funcall | id | "(" expr ")"
//! funcall        := id "(" (expr ("," expr)*)? ")"
//! ```
//!
//! One token of lookahead decides every choice but two, which take a second
//! token: an identifier begins an assignment where `=` follows it, and a
//! call where `(` follows it. The comparison tokens `==`, `<`, `<=`, `>` and
//! `>=` occur in no production: a condition is an `expr` like any other.
//!
//! # Errors
//!
//! No input stops the parser, and each production yields a complete node.
//!
//! - Where a production requires one token and another is there, a
//!   diagnostic is recorded at the token that is there, and the production
//!   goes on as if the required token had been present. The token that is
//!   there is not consumed.
//! - Where a node is required and no production begins with the token that
//!   is there, a diagnostic is recorded and the node is a placeholder: the
//!   empty name, the type `u64`, a reference to the variable of the empty
//!   name, or a final `else` with the empty body. Nothing is consumed.
//! - A repetition continues only on a token that begins its next item, and
//!   that item consumes the token. Between functions, a token that is
//!   neither `fn` nor the end marker is recorded in one diagnostic and
//!   skipped together with the tokens after it, up to the next `fn` or the
//!   end marker.
//!
//! So the position only moves forward, and a parse ends at the first end
//! marker of the stream. A position past the last token reads as the end
//! marker.

use crate::ast::{Operator, SimpleType, Type};
use crate::model::{
    DeclarationModel, ExpressionModel, FunctionModel, IfModel, LiteralModel, ParameterModel,
    ProgramModel, StatementModel,
};
use crate::token::{end_marker, TokenKind, TokenModel};
use vstd::prelude::*;

verus! {

/// The mathematical value of a diagnostic: the position of the token that
/// the parser met, and the kinds that it could have gone on with.
pub struct DiagnosticModel {
    /// The line of the offending token.
    pub line: nat,
    /// The column of the offending token.
    pub column: nat,
    /// The kinds of token that were acceptable there.
    pub expected: Seq<TokenKind>,
}

/// Where the parser stands: the position of the next token to read, and the
/// diagnostics recorded so far.
pub struct Cursor {
    /// The position of the next token to read.
    pub position: nat,
    /// The diagnostics recorded so far, in order.
    pub errors: Seq<DiagnosticModel>,
}

/// What a production makes of the tokens from a cursor on.
pub struct Parsed<T> {
    /// The node that was built.
    pub node: T,
    /// The number of tokens that were consumed.
    pub consumed: nat,
    /// The diagnostics recorded so far: those of the cursor, followed by
    /// those that the production recorded.
    pub errors: Seq<DiagnosticModel>,
}

impl Cursor {
    /// The cursor before the first token, with nothing recorded.
    pub open spec fn start() -> Cursor {
        Cursor { position: 0, errors: Seq::empty() }
    }

    /// The cursor that `step`, made from this cursor, leads to.
    pub open spec fn after<T>(self, step: Parsed<T>) -> Cursor {
        Cursor { position: self.position + step.consumed, errors: step.errors }
    }

    /// The result of accepting the token at the cursor.
    pub open spec fn accept<T>(self, node: T) -> Parsed<T> {
        Parsed { node, consumed: 1, errors: self.errors }
    }

    /// The result of consuming nothing, without complaint.
    pub open spec fn pass<T>(self, node: T) -> Parsed<T> {
        Parsed { node, consumed: 0, errors: self.errors }
    }

    /// The result of consuming nothing and recording that the token at the
    /// cursor is none of `expected`.
    pub open spec fn reject<T>(self, node: T, tokens: Seq<TokenModel>, expected: Seq<TokenKind>)
        -> Parsed<T> {
        Parsed {
            node,
            consumed: 0,
            errors: self.errors.push(unexpected(tokens, self.position, expected)),
        }
    }
}

impl<T> Parsed<T> {
    /// This result followed by `next`, which was made from the cursor that
    /// this result leads to: the tokens of both, with the node and the
    /// diagnostics of `next`.
    pub open spec fn and<U>(self, next: Parsed<U>) -> Parsed<U> {
        Parsed { node: next.node, consumed: self.consumed + next.consumed, errors: next.errors }
    }

    /// This result with `node` in place of its node.
    pub open spec fn with<U>(self, node: U) -> Parsed<U> {
        Parsed { node, consumed: self.consumed, errors: self.errors }
    }
}

/// The token at the cursor; past the last token, the end marker.
pub open spec fn token_at(tokens: Seq<TokenModel>, i: nat) -> TokenModel {
    if i < tokens.len() {
        tokens[i as int]
    } else {
        end_marker()
    }
}

/// The kind of the token at the cursor.
pub open spec fn kind_at(tokens: Seq<TokenModel>, i: nat) -> TokenKind {
    token_at(tokens, i).kind
}

/// The number of tokens from position `i` on.
pub open spec fn tokens_left(tokens: Seq<TokenModel>, i: nat) -> nat {
    if i < tokens.len() {
        (tokens.len() - i) as nat
    } else {
        0
    }
}

/// The diagnostic for the token at the cursor, where one of `expected`
/// was required.
pub open spec fn unexpected(tokens: Seq<TokenModel>, i: nat, expected: Seq<TokenKind>)
    -> DiagnosticModel {
    DiagnosticModel { line: token_at(tokens, i).line, column: token_at(tokens, i).column, expected }
}

/// The node that stands for an expression that is missing.
pub open spec fn missing_expression() -> ExpressionModel {
    ExpressionModel::VariableReference(Seq::empty())
}

/// The node that stands for a statement that is missing.
pub open spec fn missing_statement() -> StatementModel {
    StatementModel::Expression(missing_expression())
}

/// The kinds that begin an expression.
pub open spec fn expression_starts() -> Seq<TokenKind> {
    seq![TokenKind::Num, TokenKind::Id, TokenKind::Lbra]
}

/// The kinds that begin a statement without a block.
pub open spec fn non_block_starts() -> Seq<TokenKind> {
    seq![TokenKind::Let, TokenKind::Id, TokenKind::Return, TokenKind::Num, TokenKind::Lbra]
}

/// The kinds that begin a statement with a block.
pub open spec fn block_starts() -> Seq<TokenKind> {
    seq![TokenKind::If, TokenKind::While]
}

/// The kinds that name a type.
pub open spec fn type_kinds() -> Seq<TokenKind> {
    seq![
        TokenKind::I8,
        TokenKind::I16,
        TokenKind::I32,
        TokenKind::I64,
        TokenKind::U8,
        TokenKind::U16,
        TokenKind::U32,
        TokenKind::U64,
        TokenKind::Void,
    ]
}

/// Whether an expression may begin with a token of this kind.
pub open spec fn starts_expression(kind: TokenKind) -> bool {
    kind == TokenKind::Num || kind == TokenKind::Id || kind == TokenKind::Lbra
}

/// Whether a statement without a block may begin with a token of this kind.
pub open spec fn starts_non_block(kind: TokenKind) -> bool {
    kind == TokenKind::Let || kind == TokenKind::Return || starts_expression(kind)
}

/// Whether a statement with a block may begin with a token of this kind.
pub open spec fn starts_block(kind: TokenKind) -> bool {
    kind == TokenKind::If || kind == TokenKind::While
}

/// Whether a statement may begin with a token of this kind.
pub open spec fn starts_statement(kind: TokenKind) -> bool {
    starts_non_block(kind) || starts_block(kind)
}

/// The type that a token of this kind names.
pub open spec fn simple_type_of(kind: TokenKind) -> Option<SimpleType> {
    match kind {
        TokenKind::I8 => Some(SimpleType::I8),
        TokenKind::I16 => Some(SimpleType::I16),
        TokenKind::I32 => Some(SimpleType::I32),
        TokenKind::I64 => Some(SimpleType::I64),
        TokenKind::U8 => Some(SimpleType::U8),
        TokenKind::U16 => Some(SimpleType::U16),
        TokenKind::U32 => Some(SimpleType::U32),
        TokenKind::U64 => Some(SimpleType::U64),
        TokenKind::Void => Some(SimpleType::Void),
        _ => None,
    }
}

/// The operator of `+` and `-`.
pub open spec fn additive_operator(kind: TokenKind) -> Option<Operator> {
    match kind {
        TokenKind::Plus => Some(Operator::Plus),
        TokenKind::Min => Some(Operator::Min),
        _ => None,
    }
}

/// The operator of `*`, `/` and `%`.
pub open spec fn multiplicative_operator(kind: TokenKind) -> Option<Operator> {
    match kind {
        TokenKind::Mul => Some(Operator::Mul),
        TokenKind::Div => Some(Operator::Div),
        TokenKind::Mod => Some(Operator::Mod),
        _ => None,
    }
}

/// A required token of kind `kind` at the cursor: consumed where it is
/// there, and reported as missing where another token is.
pub open spec fn eat(tokens: Seq<TokenModel>, at: Cursor, kind: TokenKind) -> Parsed<()> {
    if kind_at(tokens, at.position) == kind {
        at.accept(())
    } else {
        at.reject((), tokens, seq![kind])
    }
}

/// `id`: the text of the identifier at the cursor, or the empty name.
pub open spec fn identifier(tokens: Seq<TokenModel>, at: Cursor) -> Parsed<Seq<char>> {
    if kind_at(tokens, at.position) == TokenKind::Id {
        at.accept(token_at(tokens, at.position).text)
    } else {
        at.reject(Seq::empty(), tokens, seq![TokenKind::Id])
    }
}

/// `number`: the digits of the integer literal at the cursor, or no
/// digits.
pub open spec fn number(tokens: Seq<TokenModel>, at: Cursor) -> Parsed<Seq<char>> {
    if kind_at(tokens, at.position) == TokenKind::Num {
        at.accept(token_at(tokens, at.position).text)
    } else {
        at.reject(Seq::empty(), tokens, seq![TokenKind::Num])
    }
}

/// `type`: the type that the token at the cursor names, or `u64`.
pub open spec fn parse_type(tokens: Seq<TokenModel>, at: Cursor) -> Parsed<Type> {
    match simple_type_of(kind_at(tokens, at.position)) {
        Some(simple) => at.accept(Type::SimpleType(simple)),
        None => at.reject(Type::SimpleType(SimpleType::U64), tokens, type_kinds()),
    }
}

/// `factor := number | funcall | id | "(" expr ")"`
pub open spec fn factor(tokens: Seq<TokenModel>, at: Cursor) -> Parsed<ExpressionModel>
    decreases tokens_left(tokens, at.position), 1nat,
{
    match kind_at(tokens, at.position) {
        TokenKind::Num => {
            let digits = number(tokens, at);
            digits.with(ExpressionModel::Literal(LiteralModel::I64(digits.node)))
        },
        TokenKind::Id => if kind_at(tokens, at.position + 1) == TokenKind::Lbra {
            function_call(tokens, at)
        } else {
            let name = identifier(tokens, at);
            name.with(ExpressionModel::VariableReference(name.node))
        },
        TokenKind::Lbra => {
            let open = eat(tokens, at, TokenKind::Lbra);
            let inner = open.and(expression(tokens, at.after(open)));
            let close = inner.and(eat(tokens, at.after(inner), TokenKind::Rbra));
            close.with(inner.node)
        },
        _ => at.reject(missing_expression(), tokens, expression_starts()),
    }
}

/// `funcall := id "(" (expr ("," expr)*)? ")"`, at an identifier that `(`
/// follows. Anywhere else nothing is consumed, and the call is that of the
/// empty name without arguments.
pub open spec fn function_call(tokens: Seq<TokenModel>, at: Cursor) -> Parsed<ExpressionModel>
    decreases tokens_left(tokens, at.position), 0nat,
{
    if kind_at(tokens, at.position) == TokenKind::Id && kind_at(tokens, at.position + 1)
        == TokenKind::Lbra {
        let name = identifier(tokens, at);
        let open = name.and(eat(tokens, at.after(name), TokenKind::Lbra));
        let arguments = open.and(parameter_list(tokens, at.after(open)));
        let close = arguments.and(eat(tokens, at.after(arguments), TokenKind::Rbra));
        close.with(ExpressionModel::FunctionCall { name: name.node, parameters: arguments.node })
    } else {
        at.reject(
            ExpressionModel::FunctionCall { name: Seq::empty(), parameters: Seq::empty() },
            tokens,
            seq![TokenKind::Id],
        )
    }
}

/// `(expr ("," expr)*)?`: the arguments of a call.
pub open spec fn parameter_list(tokens: Seq<TokenModel>, at: Cursor) -> Parsed<Seq<ExpressionModel>>
    decreases tokens_left(tokens, at.position), 4nat,
{
    if starts_expression(kind_at(tokens, at.position)) {
        let first = expression(tokens, at);
        let rest = first.and(parameter_list_tail(tokens, at.after(first)));
        rest.with(seq![first.node] + rest.node)
    } else {
        at.pass(Seq::empty())
    }
}

/// `("," expr)*`: the arguments of a call after the first.
pub open spec fn parameter_list_tail(tokens: Seq<TokenModel>, at: Cursor) -> Parsed<
    Seq<ExpressionModel>,
>
    decreases tokens_left(tokens, at.position), 0nat,
{
    if kind_at(tokens, at.position) == TokenKind::Comma {
        let comma = eat(tokens, at, TokenKind::Comma);
        let first = comma.and(expression(tokens, at.after(comma)));
        let rest = first.and(parameter_list_tail(tokens, at.after(first)));
        rest.with(seq![first.node] + rest.node)
    } else {
        at.pass(Seq::empty())
    }
}

/// `term := factor (("*"|"/"|"%") factor)*`
pub open spec fn term(tokens: Seq<TokenModel>, at: Cursor) -> Parsed<ExpressionModel>
    decreases tokens_left(tokens, at.position), 2nat,
{
    let first = factor(tokens, at);
    first.and(term_prime(tokens, at.after(first), first.node))
}

/// `(("*"|"/"|"%") factor)*` after the operand `left`: each operator takes
/// all that stands before it as its left operand.
pub open spec fn term_prime(tokens: Seq<TokenModel>, at: Cursor, left: ExpressionModel) -> Parsed<
    ExpressionModel,
>
    decreases tokens_left(tokens, at.position), 0nat,
{
    match multiplicative_operator(kind_at(tokens, at.position)) {
        Some(op) => {
            let operator = eat(tokens, at, kind_at(tokens, at.position));
            let right = operator.and(factor(tokens, at.after(operator)));
            let operation = ExpressionModel::BinOp {
                left: Box::new(left),
                op,
                right: Box::new(right.node),
            };
            right.and(term_prime(tokens, at.after(right), operation))
        },
        None => at.pass(left),
    }
}

/// `expr := term (("+"|"-") term)*`
pub open spec fn expression(tokens: Seq<TokenModel>, at: Cursor) -> Parsed<ExpressionModel>
    decreases tokens_left(tokens, at.position), 3nat,
{
    let first = term(tokens, at);
    first.and(expression_prime(tokens, at.after(first), first.node))
}

/// `(("+"|"-") term)*` after the operand `left`: each operator takes all
/// that stands before it as its left operand.
pub open spec fn expression_prime(tokens: Seq<TokenModel>, at: Cursor, left: ExpressionModel)
    -> Parsed<ExpressionModel>
    decreases tokens_left(tokens, at.position), 0nat,
{
    match additive_operator(kind_at(tokens, at.position)) {
        Some(op) => {
            let operator = eat(tokens, at, kind_at(tokens, at.position));
            let right = operator.and(term(tokens, at.after(operator)));
            let operation = ExpressionModel::BinOp {
                left: Box::new(left),
                op,
                right: Box::new(right.node),
            };
            right.and(expression_prime(tokens, at.after(right), operation))
        },
        None => at.pass(left),
    }
}

/// `expr?`: an expression where one begins at the cursor.
pub open spec fn maybe_expression(tokens: Seq<TokenModel>, at: Cursor) -> Parsed<
    Option<ExpressionModel>,
> {
    if starts_expression(kind_at(tokens, at.position)) {
        let value = expression(tokens, at);
        value.with(Some(value.node))
    } else {
        at.pass(None)
    }
}

/// `return_stmt := "return" expr?`
pub open spec fn return_statement(tokens: Seq<TokenModel>, at: Cursor) -> Parsed<
    Option<ExpressionModel>,
> {
    let keyword = eat(tokens, at, TokenKind::Return);
    keyword.and(maybe_expression(tokens, at.after(keyword)))
}

/// The variable that an assignment assigns to: an identifier.
pub open spec fn lvalue(tokens: Seq<TokenModel>, at: Cursor) -> Parsed<Seq<char>> {
    identifier(tokens, at)
}

/// `assign_stmt := id "=" expr`
pub open spec fn assignment_statement(tokens: Seq<TokenModel>, at: Cursor) -> Parsed<
    StatementModel,
> {
    let variable = lvalue(tokens, at);
    let equals = variable.and(eat(tokens, at.after(variable), TokenKind::Eq));
    let value = equals.and(expression(tokens, at.after(equals)));
    value.with(StatementModel::VariableAssignment { variable: variable.node, value: value.node })
}

/// `decl_stmt := "let" id ":" type "=" expr`
pub open spec fn declaration_statement(tokens: Seq<TokenModel>, at: Cursor) -> Parsed<
    StatementModel,
> {
    let keyword = eat(tokens, at, TokenKind::Let);
    let variable = keyword.and(identifier(tokens, at.after(keyword)));
    let colon = variable.and(eat(tokens, at.after(variable), TokenKind::Colon));
    let datatype = colon.and(parse_type(tokens, at.after(colon)));
    let equals = datatype.and(eat(tokens, at.after(datatype), TokenKind::Eq));
    let value = equals.and(expression(tokens, at.after(equals)));
    value.with(
        StatementModel::Declaration {
            variable: variable.node,
            datatype: datatype.node,
            value: value.node,
        },
    )
}

/// `non_block_stmt := decl_stmt | assign_stmt | return_stmt | expr`
pub open spec fn non_block_statement(tokens: Seq<TokenModel>, at: Cursor) -> Parsed<
    StatementModel,
> {
    match kind_at(tokens, at.position) {
        TokenKind::Let => declaration_statement(tokens, at),
        TokenKind::Id => if kind_at(tokens, at.position + 1) == TokenKind::Eq {
            assignment_statement(tokens, at)
        } else {
            let value = expression(tokens, at);
            value.with(StatementModel::Expression(value.node))
        },
        TokenKind::Return => {
            let value = return_statement(tokens, at);
            value.with(StatementModel::Return(value.node))
        },
        TokenKind::Num | TokenKind::Lbra => {
            let value = expression(tokens, at);
            value.with(StatementModel::Expression(value.node))
        },
        _ => at.reject(missing_statement(), tokens, non_block_starts()),
    }
}

/// `body := statement*`
pub open spec fn body(tokens: Seq<TokenModel>, at: Cursor) -> Parsed<Seq<StatementModel>>
    decreases tokens_left(tokens, at.position), 3nat,
{
    if starts_statement(kind_at(tokens, at.position)) {
        let first = statement(tokens, at);
        if first.consumed > 0 {
            let rest = first.and(body(tokens, at.after(first)));
            rest.with(seq![first.node] + rest.node)
        } else {
            first.with(seq![first.node])
        }
    } else {
        at.pass(Seq::empty())
    }
}

/// `statement := block_stmt | non_block_stmt ";"`
pub open spec fn statement(tokens: Seq<TokenModel>, at: Cursor) -> Parsed<StatementModel>
    decreases tokens_left(tokens, at.position), 2nat,
{
    if starts_non_block(kind_at(tokens, at.position)) {
        let content = non_block_statement(tokens, at);
        let semicolon = content.and(eat(tokens, at.after(content), TokenKind::Semi));
        semicolon.with(content.node)
    } else if starts_block(kind_at(tokens, at.position)) {
        block_statement(tokens, at)
    } else {
        at.reject(missing_statement(), tokens, non_block_starts() + block_starts())
    }
}

/// `block_stmt := if_stmt | while_stmt`
pub open spec fn block_statement(tokens: Seq<TokenModel>, at: Cursor) -> Parsed<StatementModel>
    decreases tokens_left(tokens, at.position), 1nat,
{
    match kind_at(tokens, at.position) {
        TokenKind::If => {
            let chain = if_statement(tokens, at);
            chain.with(StatementModel::If(chain.node))
        },
        TokenKind::While => while_statement(tokens, at),
        _ => at.reject(missing_statement(), tokens, block_starts()),
    }
}

/// `if_stmt := "if" expr "{" body "}" ("else" (if_stmt | "{" body "}"))?`,
/// at an `if`.
pub open spec fn if_statement(tokens: Seq<TokenModel>, at: Cursor) -> Parsed<IfModel>
    decreases tokens_left(tokens, at.position), 0nat,
    when kind_at(tokens, at.position) == TokenKind::If
{
    let keyword = eat(tokens, at, TokenKind::If);
    let condition = keyword.and(expression(tokens, at.after(keyword)));
    let open = condition.and(eat(tokens, at.after(condition), TokenKind::Lcur));
    let block = open.and(body(tokens, at.after(open)));
    let close = block.and(eat(tokens, at.after(block), TokenKind::Rcur));
    let tail = close.and(maybe_else_statement(tokens, at.after(close)));
    tail.with(
        IfModel {
            condition: Some(condition.node),
            body: block.node,
            tail: match tail.node {
                Some(next) => Some(Box::new(next)),
                None => None,
            },
        },
    )
}

/// `("else" (if_stmt | "{" body "}"))?`
pub open spec fn maybe_else_statement(tokens: Seq<TokenModel>, at: Cursor) -> Parsed<
    Option<IfModel>,
>
    decreases tokens_left(tokens, at.position), 0nat,
{
    if kind_at(tokens, at.position) == TokenKind::Else {
        let keyword = eat(tokens, at, TokenKind::Else);
        let next = keyword.and(else_statement(tokens, at.after(keyword)));
        next.with(Some(next.node))
    } else {
        at.pass(None)
    }
}

/// `if_stmt | "{" body "}"`: what follows an `else`.
pub open spec fn else_statement(tokens: Seq<TokenModel>, at: Cursor) -> Parsed<IfModel>
    decreases tokens_left(tokens, at.position), 1nat,
{
    match kind_at(tokens, at.position) {
        TokenKind::If => if_statement(tokens, at),
        TokenKind::Lcur => {
            let open = eat(tokens, at, TokenKind::Lcur);
            let block = open.and(body(tokens, at.after(open)));
            let close = block.and(eat(tokens, at.after(block), TokenKind::Rcur));
            close.with(IfModel { condition: None, body: block.node, tail: None })
        },
        _ => at.reject(
            IfModel { condition: None, body: Seq::empty(), tail: None },
            tokens,
            seq![TokenKind::If, TokenKind::Lcur],
        ),
    }
}

/// `while_stmt := "while" expr "{" body "}"`, at a `while`.
pub open spec fn while_statement(tokens: Seq<TokenModel>, at: Cursor) -> Parsed<StatementModel>
    decreases tokens_left(tokens, at.position), 0nat,
    when kind_at(tokens, at.position) == TokenKind::While
{
    let keyword = eat(tokens, at, TokenKind::While);
    let condition = keyword.and(expression(tokens, at.after(keyword)));
    let open = condition.and(eat(tokens, at.after(condition), TokenKind::Lcur));
    let block = open.and(body(tokens, at.after(open)));
    let close = block.and(eat(tokens, at.after(block), TokenKind::Rcur));
    close.with(StatementModel::While { condition: condition.node, body: block.node })
}

/// `param := id ":" type`
pub open spec fn parameter_declaration(tokens: Seq<TokenModel>, at: Cursor) -> Parsed<
    ParameterModel,
> {
    let name = identifier(tokens, at);
    let colon = name.and(eat(tokens, at.after(name), TokenKind::Colon));
    let datatype = colon.and(parse_type(tokens, at.after(colon)));
    datatype.with(ParameterModel { name: name.node, datatype: datatype.node })
}

/// `params?`: the parameters of a function.
pub open spec fn parameter_declaration_list(tokens: Seq<TokenModel>, at: Cursor) -> Parsed<
    Seq<ParameterModel>,
> {
    if kind_at(tokens, at.position) == TokenKind::Id {
        let first = parameter_declaration(tokens, at);
        let rest = first.and(parameter_declaration_tail(tokens, at.after(first)));
        rest.with(seq![first.node] + rest.node)
    } else {
        at.pass(Seq::empty())
    }
}

/// `("," param)*`: the parameters of a function after the first.
pub open spec fn parameter_declaration_tail(tokens: Seq<TokenModel>, at: Cursor) -> Parsed<
    Seq<ParameterModel>,
>
    decreases tokens_left(tokens, at.position),
{
    if kind_at(tokens, at.position) == TokenKind::Comma {
        let comma = eat(tokens, at, TokenKind::Comma);
        let first = comma.and(parameter_declaration(tokens, at.after(comma)));
        let rest = first.and(parameter_declaration_tail(tokens, at.after(first)));
        rest.with(seq![first.node] + rest.node)
    } else {
        at.pass(Seq::empty())
    }
}

/// `function := "fn" id "(" params? ")" "->" type "{" body "}"`
pub open spec fn function(tokens: Seq<TokenModel>, at: Cursor) -> Parsed<FunctionModel> {
    let keyword = eat(tokens, at, TokenKind::Fn);
    let name = keyword.and(identifier(tokens, at.after(keyword)));
    let open = name.and(eat(tokens, at.after(name), TokenKind::Lbra));
    let parameters = open.and(parameter_declaration_list(tokens, at.after(open)));
    let close = parameters.and(eat(tokens, at.after(parameters), TokenKind::Rbra));
    let arrow = close.and(eat(tokens, at.after(close), TokenKind::Arrow));
    let return_type = arrow.and(parse_type(tokens, at.after(arrow)));
    let begin = return_type.and(eat(tokens, at.after(return_type), TokenKind::Lcur));
    let block = begin.and(body(tokens, at.after(begin)));
    let end = block.and(eat(tokens, at.after(block), TokenKind::Rcur));
    end.with(
        FunctionModel {
            name: name.node,
            parameters: parameters.node,
            return_type: return_type.node,
            body: block.node,
        },
    )
}

/// The number of tokens from position `i` up to the next `fn` or end
/// marker.
pub open spec fn stray_tokens(tokens: Seq<TokenModel>, i: nat) -> nat
    decreases tokens_left(tokens, i),
{
    if kind_at(tokens, i) == TokenKind::Fn || kind_at(tokens, i) == TokenKind::End {
        0
    } else {
        1 + stray_tokens(tokens, i + 1)
    }
}

/// `function_list := function function_list | empty`, up to the end marker.
/// Tokens between functions that are neither `fn` nor the end marker are
/// reported once, at the first of them, and skipped.
pub open spec fn function_list(tokens: Seq<TokenModel>, at: Cursor) -> Parsed<Seq<DeclarationModel>>
    decreases tokens_left(tokens, at.position),
{
    if kind_at(tokens, at.position) == TokenKind::Fn {
        let first = function(tokens, at);
        let rest = first.and(function_list(tokens, at.after(first)));
        rest.with(seq![DeclarationModel::Function(first.node)] + rest.node)
    } else if kind_at(tokens, at.position) == TokenKind::End {
        at.pass(Seq::empty())
    } else {
        let stray = Parsed {
            node: (),
            consumed: stray_tokens(tokens, at.position),
            errors: at.errors.push(
                unexpected(tokens, at.position, seq![TokenKind::Fn, TokenKind::End]),
            ),
        };
        stray.and(function_list(tokens, at.after(stray)))
    }
}

/// `program := function_list end`: the parse of a whole token stream.
pub open spec fn program(tokens: Seq<TokenModel>) -> Parsed<ProgramModel> {
    let declarations = function_list(tokens, Cursor::start());
    declarations.with(ProgramModel { declarations: declarations.node })
}

/// An expression consumes the token that it begins with: where an
/// expression may begin with the token at the cursor, parsing one moves the
/// position forward.
pub proof fn lemma_expression_consumes(tokens: Seq<TokenModel>, at: Cursor)
    requires
        starts_expression(kind_at(tokens, at.position)),
    ensures
        expression(tokens, at).consumed > 0,
{
    let first = factor(tokens, at);
    assert(first.consumed > 0) by {
        if kind_at(tokens, at.position) == TokenKind::Id && kind_at(tokens, at.position + 1)
            == TokenKind::Lbra {
            assert(function_call(tokens, at).consumed > 0);
        }
    }
    assert(term(tokens, at).consumed >= first.consumed);
}

/// A statement consumes the token that it begins with: where a statement
/// may begin with the token at the cursor, parsing one moves the position
/// forward.
pub proof fn lemma_statement_consumes(tokens: Seq<TokenModel>, at: Cursor)
    requires
        starts_statement(kind_at(tokens, at.position)),
    ensures
        statement(tokens, at).consumed > 0,
{
    let kind = kind_at(tokens, at.position);
    if starts_non_block(kind) {
        if starts_expression(kind) {
            lemma_expression_consumes(tokens, at);
        }
        if kind == TokenKind::Id && kind_at(tokens, at.position + 1) == TokenKind::Eq {
            assert(assignment_statement(tokens, at).consumed > 0);
        }
        if kind == TokenKind::Let {
            assert(declaration_statement(tokens, at).consumed > 0);
        }
        if kind == TokenKind::Return {
            assert(return_statement(tokens, at).consumed > 0);
        }
        assert(non_block_statement(tokens, at).consumed > 0);
    } else if kind == TokenKind::If {
        assert(if_statement(tokens, at).consumed > 0);
        assert(block_statement(tokens, at).consumed > 0);
    } else {
        assert(while_statement(tokens, at).consumed > 0);
        assert(block_statement(tokens, at).consumed > 0);
    }
}

} // verus!
