//! The productions of the grammar, as methods of the parser.
//!
//! Each method parses one production of [`crate::grammar`] from the position
//! on, and does what the function of its name there says: it builds that
//! node, moves the position over the tokens consumed, and appends the
//! diagnostics recorded.

use crate::ast::{
    BinOpExpression, Declaration, DeclarationStatement, Expression, FunctionCallExpression,
    FunctionDeclaration, FunctionParameterDeclaration, IfStatement, LiteralExpression, Operator,
    Program, SimpleType, Statement, Type, VariableAssignmentStatement, WhileStatement,
};
use crate::grammar;
use crate::grammar::{kind_at, stray_tokens, tokens_left, Cursor, Parsed};
use crate::model::{
    declaration_models, expression_model, expression_models, optional_expression_model,
    parameter_models, statement_model, statement_models, statements_well_formed,
    DeclarationModel, ProgramModel,
};
use crate::parser::Parser;
use crate::token::TokenKind;
use vstd::prelude::*;

verus! {

/// Whether an expression may begin with a token of this kind.
fn starts_expression(kind: TokenKind) -> (b: bool)
    ensures
        b == grammar::starts_expression(kind),
{
    match kind {
        TokenKind::Num | TokenKind::Id | TokenKind::Lbra => true,
        _ => false,
    }
}

/// Whether a statement without a block may begin with a token of this kind.
fn starts_non_block(kind: TokenKind) -> (b: bool)
    ensures
        b == grammar::starts_non_block(kind),
{
    match kind {
        TokenKind::Let | TokenKind::Return => true,
        _ => starts_expression(kind),
    }
}

/// Whether a statement with a block may begin with a token of this kind.
fn starts_block(kind: TokenKind) -> (b: bool)
    ensures
        b == grammar::starts_block(kind),
{
    match kind {
        TokenKind::If | TokenKind::While => true,
        _ => false,
    }
}

/// The operator of `+` and `-`.
fn additive_operator(kind: TokenKind) -> (operator: Option<Operator>)
    ensures
        operator == grammar::additive_operator(kind),
{
    match kind {
        TokenKind::Plus => Some(Operator::Plus),
        TokenKind::Min => Some(Operator::Min),
        _ => None,
    }
}

/// The operator of `*`, `/` and `%`.
fn multiplicative_operator(kind: TokenKind) -> (operator: Option<Operator>)
    ensures
        operator == grammar::multiplicative_operator(kind),
{
    match kind {
        TokenKind::Mul => Some(Operator::Mul),
        TokenKind::Div => Some(Operator::Div),
        TokenKind::Mod => Some(Operator::Mod),
        _ => None,
    }
}

/// The kinds that begin an expression.
fn expression_starts() -> (kinds: Vec<TokenKind>)
    ensures
        kinds@ == grammar::expression_starts(),
{
    let kinds = vec![TokenKind::Num, TokenKind::Id, TokenKind::Lbra];
    assert(kinds@ =~= grammar::expression_starts());
    kinds
}

/// The kinds that begin a statement without a block.
fn non_block_starts() -> (kinds: Vec<TokenKind>)
    ensures
        kinds@ == grammar::non_block_starts(),
{
    let kinds = vec![
        TokenKind::Let,
        TokenKind::Id,
        TokenKind::Return,
        TokenKind::Num,
        TokenKind::Lbra,
    ];
    assert(kinds@ =~= grammar::non_block_starts());
    kinds
}

/// The kinds that begin a statement with a block.
fn block_starts() -> (kinds: Vec<TokenKind>)
    ensures
        kinds@ == grammar::block_starts(),
{
    let kinds = vec![TokenKind::If, TokenKind::While];
    assert(kinds@ =~= grammar::block_starts());
    kinds
}

/// The kinds that name a type.
fn type_kinds() -> (kinds: Vec<TokenKind>)
    ensures
        kinds@ == grammar::type_kinds(),
{
    let kinds = vec![
        TokenKind::I8,
        TokenKind::I16,
        TokenKind::I32,
        TokenKind::I64,
        TokenKind::U8,
        TokenKind::U16,
        TokenKind::U32,
        TokenKind::U64,
        TokenKind::Void,
    ];
    assert(kinds@ =~= grammar::type_kinds());
    kinds
}

impl Parser {
    /// `id`: the name of the identifier at the position, or the empty name.
    pub(crate) fn parse_identifier(&mut self) -> (name: String)
        requires
            old(self).well_formed(),
        ensures
            final(self).advanced(
                *old(self),
                grammar::identifier(old(self).tokens(), old(self).cursor()),
            ),
            name@ == grammar::identifier(old(self).tokens(), old(self).cursor()).node,
    {
        if self.next_kind() == TokenKind::Id {
            let name = self.next_text();
            self.eat(TokenKind::Id);
            name
        } else {
            let expected = vec![TokenKind::Id];
            assert(expected@ =~= seq![TokenKind::Id]);
            self.error(expected);
            String::new()
        }
    }

    /// `number`: the digits of the integer literal at the position, or no
    /// digits.
    pub(crate) fn parse_number(&mut self) -> (digits: String)
        requires
            old(self).well_formed(),
        ensures
            final(self).advanced(
                *old(self),
                grammar::number(old(self).tokens(), old(self).cursor()),
            ),
            digits@ == grammar::number(old(self).tokens(), old(self).cursor()).node,
    {
        if self.next_kind() == TokenKind::Num {
            let digits = self.next_text();
            self.eat(TokenKind::Num);
            digits
        } else {
            let expected = vec![TokenKind::Num];
            assert(expected@ =~= seq![TokenKind::Num]);
            self.error(expected);
            String::new()
        }
    }

    /// `type`: the type that the token at the position names, or `u64`.
    pub(crate) fn parse_type(&mut self) -> (datatype: Type)
        requires
            old(self).well_formed(),
        ensures
            final(self).advanced(
                *old(self),
                grammar::parse_type(old(self).tokens(), old(self).cursor()),
            ),
            datatype == grammar::parse_type(old(self).tokens(), old(self).cursor()).node,
    {
        let kind = self.next_kind();
        let simple = match kind {
            TokenKind::I8 => SimpleType::I8,
            TokenKind::I16 => SimpleType::I16,
            TokenKind::I32 => SimpleType::I32,
            TokenKind::I64 => SimpleType::I64,
            TokenKind::U8 => SimpleType::U8,
            TokenKind::U16 => SimpleType::U16,
            TokenKind::U32 => SimpleType::U32,
            TokenKind::U64 => SimpleType::U64,
            TokenKind::Void => SimpleType::Void,
            _ => {
                self.error(type_kinds());
                return Type::SimpleType(SimpleType::U64);
            },
        };
        self.eat(kind);
        Type::SimpleType(simple)
    }

    /// `factor := number | funcall | id | "(" expr ")"`
    #[verifier::rlimit(50)]
    pub(crate) fn parse_factor(&mut self) -> (node: Expression)
        requires
            old(self).well_formed(),
        ensures
            final(self).advanced(
                *old(self),
                grammar::factor(old(self).tokens(), old(self).cursor()),
            ),
            node@ == grammar::factor(old(self).tokens(), old(self).cursor()).node,
        decreases tokens_left(old(self).tokens(), old(self).position()), 1nat,
    {
        match self.next_kind() {
            TokenKind::Num => {
                let value = self.parse_number();
                Expression::LiteralExpression(LiteralExpression::I64(value))
            },
            TokenKind::Id => {
                if self.next_next().get_type().kind() == TokenKind::Lbra {
                    Expression::FunctionCallExpression(self.parse_function_call())
                } else {
                    let value = self.parse_identifier();
                    Expression::VariableReferenceExpression(value)
                }
            },
            TokenKind::Lbra => {
                self.eat(TokenKind::Lbra);
                let expression = self.parse_expression();
                self.eat(TokenKind::Rbra);
                expression
            },
            _ => {
                self.error(expression_starts());
                Expression::VariableReferenceExpression(String::new())
            },
        }
    }

    /// `funcall := id "(" (expr ("," expr)*)? ")"`, at an identifier that `(`
    /// follows.
    #[verifier::rlimit(50)]
    pub(crate) fn parse_function_call(&mut self) -> (call: FunctionCallExpression)
        requires
            old(self).well_formed(),
        ensures
            final(self).advanced(
                *old(self),
                grammar::function_call(old(self).tokens(), old(self).cursor()),
            ),
            expression_model(Expression::FunctionCallExpression(call)) == grammar::function_call(
                old(self).tokens(),
                old(self).cursor(),
            ).node,
        decreases tokens_left(old(self).tokens(), old(self).position()), 0nat,
    {
        if self.next_kind() == TokenKind::Id && self.next_next().get_type().kind()
            == TokenKind::Lbra {
            let name = self.parse_identifier();
            let mut call = FunctionCallExpression::new(name);
            self.eat(TokenKind::Lbra);
            let parameters = self.parse_parameter_list();
            assert(call.parameters@ + parameters@ =~= parameters@);
            call.add_parameters(parameters);
            self.eat(TokenKind::Rbra);
            call
        } else {
            let expected = vec![TokenKind::Id];
            assert(expected@ =~= seq![TokenKind::Id]);
            self.error(expected);
            let call = FunctionCallExpression::new(String::new());
            assert(expression_models(call.parameters@) =~= Seq::empty());
            call
        }
    }

    /// `(expr ("," expr)*)?`: the arguments of a call.
    pub(crate) fn parse_parameter_list(&mut self) -> (parameters: Vec<Expression>)
        requires
            old(self).well_formed(),
        ensures
            final(self).advanced(
                *old(self),
                grammar::parameter_list(old(self).tokens(), old(self).cursor()),
            ),
            expression_models(parameters@) == grammar::parameter_list(
                old(self).tokens(),
                old(self).cursor(),
            ).node,
        decreases tokens_left(old(self).tokens(), old(self).position()), 4nat,
    {
        let mut parameters: Vec<Expression> = Vec::new();
        if starts_expression(self.next_kind()) {
            let expression = self.parse_expression();
            let ghost first = expression@;
            parameters.push(expression);
            let mut rest = self.parse_parameter_list_tail();
            let ghost others = expression_models(rest@);
            parameters.append(&mut rest);
            assert(expression_models(parameters@) =~= seq![first] + others);
        } else {
            assert(expression_models(parameters@) =~= Seq::empty());
        }
        parameters
    }

    /// `("," expr)*`: the arguments of a call after the first.
    pub(crate) fn parse_parameter_list_tail(&mut self) -> (parameters: Vec<Expression>)
        requires
            old(self).well_formed(),
        ensures
            final(self).advanced(
                *old(self),
                grammar::parameter_list_tail(old(self).tokens(), old(self).cursor()),
            ),
            expression_models(parameters@) == grammar::parameter_list_tail(
                old(self).tokens(),
                old(self).cursor(),
            ).node,
        decreases tokens_left(old(self).tokens(), old(self).position()), 0nat,
    {
        let ghost whole = grammar::parameter_list_tail(old(self).tokens(), old(self).cursor());
        let mut parameters: Vec<Expression> = Vec::new();
        assert(expression_models(parameters@) + whole.node =~= whole.node);
        while self.next_kind() == TokenKind::Comma
            invariant
                self.well_formed(),
                self.tokens() == old(self).tokens(),
                self.parsed() == old(self).parsed(),
                old(self).position() <= self.position(),
                whole.node == expression_models(parameters@) + grammar::parameter_list_tail(
                    self.tokens(),
                    self.cursor(),
                ).node,
                old(self).cursor().after(whole) == self.cursor().after(
                    grammar::parameter_list_tail(self.tokens(), self.cursor()),
                ),
            decreases tokens_left(self.tokens(), self.position()),
        {
            let ghost found = expression_models(parameters@);
            self.eat(TokenKind::Comma);
            let expression = self.parse_expression();
            let ghost next = expression@;
            parameters.push(expression);
            assert(expression_models(parameters@) =~= found.push(next));
            let ghost rest = grammar::parameter_list_tail(self.tokens(), self.cursor()).node;
            assert(found + (seq![next] + rest) =~= found.push(next) + rest);
        }
        assert(expression_models(parameters@) + Seq::empty() =~= expression_models(parameters@));
        parameters
    }

    /// `term := factor (("*"|"/"|"%") factor)*`
    pub(crate) fn parse_term(&mut self) -> (node: Expression)
        requires
            old(self).well_formed(),
        ensures
            final(self).advanced(*old(self), grammar::term(old(self).tokens(), old(self).cursor())),
            node@ == grammar::term(old(self).tokens(), old(self).cursor()).node,
        decreases tokens_left(old(self).tokens(), old(self).position()), 2nat,
    {
        let first = self.parse_factor();
        self.parse_term_prime(first)
    }

    /// `(("*"|"/"|"%") factor)*` after the operand `left`.
    pub(crate) fn parse_term_prime(&mut self, left: Expression) -> (node: Expression)
        requires
            old(self).well_formed(),
        ensures
            final(self).advanced(
                *old(self),
                grammar::term_prime(old(self).tokens(), old(self).cursor(), left@),
            ),
            node@ == grammar::term_prime(old(self).tokens(), old(self).cursor(), left@).node,
        decreases tokens_left(old(self).tokens(), old(self).position()), 0nat,
    {
        let ghost whole = grammar::term_prime(old(self).tokens(), old(self).cursor(), left@);
        let mut operand = left;
        loop
            invariant
                self.well_formed(),
                self.tokens() == old(self).tokens(),
                self.parsed() == old(self).parsed(),
                old(self).position() <= self.position(),
                whole == grammar::term_prime(old(self).tokens(), old(self).cursor(), left@),
                whole.node == grammar::term_prime(self.tokens(), self.cursor(), operand@).node,
                old(self).cursor().after(whole) == self.cursor().after(
                    grammar::term_prime(self.tokens(), self.cursor(), operand@),
                ),
            decreases tokens_left(self.tokens(), self.position()),
        {
            let kind = self.next_kind();
            match multiplicative_operator(kind) {
                Some(operator) => {
                    self.eat(kind);
                    let right = self.parse_factor();
                    operand = Expression::BinOpExpression(
                        BinOpExpression::new(operand, right, operator),
                    );
                },
                None => {
                    return operand;
                },
            }
        }
    }

    /// `expr := term (("+"|"-") term)*`
    pub(crate) fn parse_expression(&mut self) -> (node: Expression)
        requires
            old(self).well_formed(),
        ensures
            final(self).advanced(
                *old(self),
                grammar::expression(old(self).tokens(), old(self).cursor()),
            ),
            node@ == grammar::expression(old(self).tokens(), old(self).cursor()).node,
        decreases tokens_left(old(self).tokens(), old(self).position()), 3nat,
    {
        let first = self.parse_term();
        self.parse_expression_prime(first)
    }

    /// `(("+"|"-") term)*` after the operand `left`.
    pub(crate) fn parse_expression_prime(&mut self, left: Expression) -> (node: Expression)
        requires
            old(self).well_formed(),
        ensures
            final(self).advanced(
                *old(self),
                grammar::expression_prime(old(self).tokens(), old(self).cursor(), left@),
            ),
            node@ == grammar::expression_prime(old(self).tokens(), old(self).cursor(), left@).node,
        decreases tokens_left(old(self).tokens(), old(self).position()), 0nat,
    {
        let ghost whole = grammar::expression_prime(old(self).tokens(), old(self).cursor(), left@);
        let mut operand = left;
        loop
            invariant
                self.well_formed(),
                self.tokens() == old(self).tokens(),
                self.parsed() == old(self).parsed(),
                old(self).position() <= self.position(),
                whole == grammar::expression_prime(old(self).tokens(), old(self).cursor(), left@),
                whole.node == grammar::expression_prime(
                    self.tokens(),
                    self.cursor(),
                    operand@,
                ).node,
                old(self).cursor().after(whole) == self.cursor().after(
                    grammar::expression_prime(self.tokens(), self.cursor(), operand@),
                ),
            decreases tokens_left(self.tokens(), self.position()),
        {
            let kind = self.next_kind();
            match additive_operator(kind) {
                Some(operator) => {
                    self.eat(kind);
                    let right = self.parse_term();
                    operand = Expression::BinOpExpression(
                        BinOpExpression::new(operand, right, operator),
                    );
                },
                None => {
                    return operand;
                },
            }
        }
    }

    /// `expr?`: an expression where one begins at the position.
    pub(crate) fn parse_maybe_expression(&mut self) -> (value: Option<Expression>)
        requires
            old(self).well_formed(),
        ensures
            final(self).advanced(
                *old(self),
                grammar::maybe_expression(old(self).tokens(), old(self).cursor()),
            ),
            optional_expression_model(value) == grammar::maybe_expression(
                old(self).tokens(),
                old(self).cursor(),
            ).node,
    {
        if starts_expression(self.next_kind()) {
            Some(self.parse_expression())
        } else {
            None
        }
    }

    /// `return_stmt := "return" expr?`
    pub(crate) fn parse_return_statement(&mut self) -> (value: Option<Expression>)
        requires
            old(self).well_formed(),
        ensures
            final(self).advanced(
                *old(self),
                grammar::return_statement(old(self).tokens(), old(self).cursor()),
            ),
            optional_expression_model(value) == grammar::return_statement(
                old(self).tokens(),
                old(self).cursor(),
            ).node,
    {
        self.eat(TokenKind::Return);
        self.parse_maybe_expression()
    }

    /// The variable that an assignment assigns to: an identifier.
    pub(crate) fn parse_lvalue(&mut self) -> (name: String)
        requires
            old(self).well_formed(),
        ensures
            final(self).advanced(
                *old(self),
                grammar::lvalue(old(self).tokens(), old(self).cursor()),
            ),
            name@ == grammar::lvalue(old(self).tokens(), old(self).cursor()).node,
    {
        self.parse_identifier()
    }

    /// `assign_stmt := id "=" expr`
    pub(crate) fn parse_assignment_statement(&mut self) -> (statement: VariableAssignmentStatement)
        requires
            old(self).well_formed(),
        ensures
            final(self).advanced(
                *old(self),
                grammar::assignment_statement(old(self).tokens(), old(self).cursor()),
            ),
            statement_model(Statement::VariableAssignmentStatement(statement))
                == grammar::assignment_statement(
                old(self).tokens(),
                old(self).cursor(),
            ).node,
    {
        let variable = self.parse_lvalue();
        self.eat(TokenKind::Eq);
        let value = self.parse_expression();
        VariableAssignmentStatement::new(variable, value)
    }

    /// `decl_stmt := "let" id ":" type "=" expr`
    #[verifier::rlimit(50)]
    pub(crate) fn parse_declaration_statement(&mut self) -> (statement: DeclarationStatement)
        requires
            old(self).well_formed(),
        ensures
            final(self).advanced(
                *old(self),
                grammar::declaration_statement(old(self).tokens(), old(self).cursor()),
            ),
            statement_model(Statement::DeclarationStatement(statement))
                == grammar::declaration_statement(
                old(self).tokens(),
                old(self).cursor(),
            ).node,
    {
        self.eat(TokenKind::Let);
        let variable = self.parse_identifier();
        self.eat(TokenKind::Colon);
        let datatype = self.parse_type();
        self.eat(TokenKind::Eq);
        let value = self.parse_expression();
        DeclarationStatement::new(variable, datatype, value)
    }

    /// `non_block_stmt := decl_stmt | assign_stmt | return_stmt | expr`
    pub(crate) fn parse_non_block_statement(&mut self) -> (statement: Statement)
        requires
            old(self).well_formed(),
        ensures
            final(self).advanced(
                *old(self),
                grammar::non_block_statement(old(self).tokens(), old(self).cursor()),
            ),
            statement@ == grammar::non_block_statement(old(self).tokens(), old(self).cursor()).node,
            statement@.well_formed(),
    {
        match self.next_kind() {
            TokenKind::Let => Statement::DeclarationStatement(self.parse_declaration_statement()),
            TokenKind::Id => {
                if self.next_next().get_type().kind() == TokenKind::Eq {
                    Statement::VariableAssignmentStatement(self.parse_assignment_statement())
                } else {
                    Statement::Expression(self.parse_expression())
                }
            },
            TokenKind::Return => Statement::ReturnStatement(self.parse_return_statement()),
            TokenKind::Num | TokenKind::Lbra => Statement::Expression(self.parse_expression()),
            _ => {
                self.error(non_block_starts());
                Statement::Expression(Expression::VariableReferenceExpression(String::new()))
            },
        }
    }

    /// `body := statement*`
    #[verifier::rlimit(50)]
    pub(crate) fn parse_body(&mut self) -> (statements: Vec<Statement>)
        requires
            old(self).well_formed(),
        ensures
            final(self).advanced(*old(self), grammar::body(old(self).tokens(), old(self).cursor())),
            statement_models(statements@) == grammar::body(
                old(self).tokens(),
                old(self).cursor(),
            ).node,
            statements_well_formed(statement_models(statements@)),
        decreases tokens_left(old(self).tokens(), old(self).position()), 3nat,
    {
        let ghost whole = grammar::body(old(self).tokens(), old(self).cursor());
        let mut statements: Vec<Statement> = Vec::new();
        assert(statement_models(statements@) + whole.node =~= whole.node);
        while starts_non_block(self.next_kind()) || starts_block(self.next_kind())
            invariant
                self.well_formed(),
                self.tokens() == old(self).tokens(),
                self.parsed() == old(self).parsed(),
                old(self).position() <= self.position(),
                statements_well_formed(statement_models(statements@)),
                whole.node == statement_models(statements@) + grammar::body(
                    self.tokens(),
                    self.cursor(),
                ).node,
                old(self).cursor().after(whole) == self.cursor().after(
                    grammar::body(self.tokens(), self.cursor()),
                ),
            decreases tokens_left(self.tokens(), self.position()),
        {
            let ghost found = statement_models(statements@);
            proof {
                grammar::lemma_statement_consumes(self.tokens(), self.cursor());
            }
            let statement = self.parse_statement();
            let ghost next = statement@;
            statements.push(statement);
            assert(statement_models(statements@) =~= found.push(next));
            let ghost rest = grammar::body(self.tokens(), self.cursor()).node;
            assert(found + (seq![next] + rest) =~= found.push(next) + rest);
        }
        assert(statement_models(statements@) + Seq::empty() =~= statement_models(statements@));
        statements
    }

    /// `statement := block_stmt | non_block_stmt ";"`
    pub(crate) fn parse_statement(&mut self) -> (statement: Statement)
        requires
            old(self).well_formed(),
        ensures
            final(self).advanced(
                *old(self),
                grammar::statement(old(self).tokens(), old(self).cursor()),
            ),
            statement@ == grammar::statement(old(self).tokens(), old(self).cursor()).node,
            statement@.well_formed(),
        decreases tokens_left(old(self).tokens(), old(self).position()), 2nat,
    {
        let kind = self.next_kind();
        if starts_non_block(kind) {
            let statement = self.parse_non_block_statement();
            self.eat(TokenKind::Semi);
            statement
        } else if starts_block(kind) {
            self.parse_block_statement()
        } else {
            let mut expected = non_block_starts();
            let mut blocks = block_starts();
            expected.append(&mut blocks);
            self.error(expected);
            Statement::Expression(Expression::VariableReferenceExpression(String::new()))
        }
    }

    /// `block_stmt := if_stmt | while_stmt`
    pub(crate) fn parse_block_statement(&mut self) -> (statement: Statement)
        requires
            old(self).well_formed(),
        ensures
            final(self).advanced(
                *old(self),
                grammar::block_statement(old(self).tokens(), old(self).cursor()),
            ),
            statement@ == grammar::block_statement(old(self).tokens(), old(self).cursor()).node,
            statement@.well_formed(),
        decreases tokens_left(old(self).tokens(), old(self).position()), 1nat,
    {
        match self.next_kind() {
            TokenKind::If => Statement::IfStatement(self.parse_if_statement()),
            TokenKind::While => Statement::WhileStatement(self.parse_while_statement()),
            _ => {
                self.error(block_starts());
                Statement::Expression(Expression::VariableReferenceExpression(String::new()))
            },
        }
    }

    /// `if_stmt := "if" expr "{" body "}" ("else" (if_stmt | "{" body "}"))?`,
    /// at an `if`.
    #[verifier::rlimit(50)]
    pub(crate) fn parse_if_statement(&mut self) -> (chain: IfStatement)
        requires
            old(self).well_formed(),
            kind_at(old(self).tokens(), old(self).position()) == TokenKind::If,
        ensures
            final(self).advanced(
                *old(self),
                grammar::if_statement(old(self).tokens(), old(self).cursor()),
            ),
            chain@ == grammar::if_statement(old(self).tokens(), old(self).cursor()).node,
            chain@.well_formed(),
        decreases tokens_left(old(self).tokens(), old(self).position()), 0nat,
    {
        let ghost tokens = self.tokens();
        let ghost start = self.cursor();
        self.eat(TokenKind::If);
        let ghost keyword = grammar::eat(tokens, start, TokenKind::If);
        let condition = self.parse_expression();
        let ghost test = keyword.and(grammar::expression(tokens, start.after(keyword)));
        assert(self.cursor() == start.after(test));
        self.eat(TokenKind::Lcur);
        let ghost open = test.and(grammar::eat(tokens, start.after(test), TokenKind::Lcur));
        assert(self.cursor() == start.after(open));
        let body = self.parse_body();
        let ghost block = open.and(grammar::body(tokens, start.after(open)));
        assert(self.cursor() == start.after(block));
        self.eat(TokenKind::Rcur);
        let ghost close = block.and(grammar::eat(tokens, start.after(block), TokenKind::Rcur));
        assert(self.cursor() == start.after(close));
        let tail = self.parse_maybe_else_statement();
        let ghost rest = close.and(grammar::maybe_else_statement(tokens, start.after(close)));
        assert(self.cursor() == start.after(rest));
        let chain = IfStatement::new(condition, body, tail);
        assert(grammar::if_statement(tokens, start) == rest.with(chain@));
        chain
    }

    /// `("else" (if_stmt | "{" body "}"))?`
    pub(crate) fn parse_maybe_else_statement(&mut self) -> (tail: Option<IfStatement>)
        requires
            old(self).well_formed(),
        ensures
            final(self).advanced(
                *old(self),
                grammar::maybe_else_statement(old(self).tokens(), old(self).cursor()),
            ),
            match tail {
                Some(next) => {
                    &&& grammar::maybe_else_statement(
                        old(self).tokens(),
                        old(self).cursor(),
                    ).node == Some(next@)
                    &&& next@.well_formed()
                },
                None => grammar::maybe_else_statement(
                    old(self).tokens(),
                    old(self).cursor(),
                ).node is None,
            },
        decreases tokens_left(old(self).tokens(), old(self).position()), 0nat,
    {
        if self.next_kind() == TokenKind::Else {
            self.eat(TokenKind::Else);
            Some(self.parse_else_statement())
        } else {
            None
        }
    }

    /// `if_stmt | "{" body "}"`: what follows an `else`.
    #[verifier::rlimit(50)]
    pub(crate) fn parse_else_statement(&mut self) -> (chain: IfStatement)
        requires
            old(self).well_formed(),
        ensures
            final(self).advanced(
                *old(self),
                grammar::else_statement(old(self).tokens(), old(self).cursor()),
            ),
            chain@ == grammar::else_statement(old(self).tokens(), old(self).cursor()).node,
            chain@.well_formed(),
        decreases tokens_left(old(self).tokens(), old(self).position()), 1nat,
    {
        match self.next_kind() {
            TokenKind::If => self.parse_if_statement(),
            TokenKind::Lcur => {
                self.eat(TokenKind::Lcur);
                let body = self.parse_body();
                self.eat(TokenKind::Rcur);
                IfStatement::make_else(body)
            },
            _ => {
                let expected = vec![TokenKind::If, TokenKind::Lcur];
                assert(expected@ =~= seq![TokenKind::If, TokenKind::Lcur]);
                self.error(expected);
                let chain = IfStatement::make_else(Vec::new());
                assert(statement_models(chain.body@) =~= Seq::empty());
                chain
            },
        }
    }

    /// `while_stmt := "while" expr "{" body "}"`, at a `while`.
    #[verifier::rlimit(50)]
    pub(crate) fn parse_while_statement(&mut self) -> (statement: WhileStatement)
        requires
            old(self).well_formed(),
            kind_at(old(self).tokens(), old(self).position()) == TokenKind::While,
        ensures
            final(self).advanced(
                *old(self),
                grammar::while_statement(old(self).tokens(), old(self).cursor()),
            ),
            statement_model(Statement::WhileStatement(statement)) == grammar::while_statement(
                old(self).tokens(),
                old(self).cursor(),
            ).node,
            statement_model(Statement::WhileStatement(statement)).well_formed(),
        decreases tokens_left(old(self).tokens(), old(self).position()), 0nat,
    {
        self.eat(TokenKind::While);
        let condition = self.parse_expression();
        self.eat(TokenKind::Lcur);
        let body = self.parse_body();
        self.eat(TokenKind::Rcur);
        WhileStatement::new(condition, body)
    }

    /// `param := id ":" type`
    pub(crate) fn parameter_declaration(&mut self) -> (parameter: FunctionParameterDeclaration)
        requires
            old(self).well_formed(),
        ensures
            final(self).advanced(
                *old(self),
                grammar::parameter_declaration(old(self).tokens(), old(self).cursor()),
            ),
            parameter@ == grammar::parameter_declaration(
                old(self).tokens(),
                old(self).cursor(),
            ).node,
    {
        let name = self.parse_identifier();
        self.eat(TokenKind::Colon);
        let datatype = self.parse_type();
        FunctionParameterDeclaration::new(name, datatype)
    }

    /// `params?`: the parameters of a function.
    pub(crate) fn parameter_declaration_list(&mut self) -> (parameters: Vec<
        FunctionParameterDeclaration,
    >)
        requires
            old(self).well_formed(),
        ensures
            final(self).advanced(
                *old(self),
                grammar::parameter_declaration_list(old(self).tokens(), old(self).cursor()),
            ),
            parameter_models(parameters@) == grammar::parameter_declaration_list(
                old(self).tokens(),
                old(self).cursor(),
            ).node,
    {
        let mut parameters: Vec<FunctionParameterDeclaration> = Vec::new();
        if self.next_kind() == TokenKind::Id {
            let parameter = self.parameter_declaration();
            let ghost first = parameter@;
            parameters.push(parameter);
            let mut rest = self.parameter_declaration_tail();
            let ghost others = parameter_models(rest@);
            parameters.append(&mut rest);
            assert(parameter_models(parameters@) =~= seq![first] + others);
        } else {
            assert(parameter_models(parameters@) =~= Seq::empty());
        }
        parameters
    }

    /// `("," param)*`: the parameters of a function after the first.
    pub(crate) fn parameter_declaration_tail(&mut self) -> (parameters: Vec<
        FunctionParameterDeclaration,
    >)
        requires
            old(self).well_formed(),
        ensures
            final(self).advanced(
                *old(self),
                grammar::parameter_declaration_tail(old(self).tokens(), old(self).cursor()),
            ),
            parameter_models(parameters@) == grammar::parameter_declaration_tail(
                old(self).tokens(),
                old(self).cursor(),
            ).node,
    {
        let ghost whole = grammar::parameter_declaration_tail(
            old(self).tokens(),
            old(self).cursor(),
        );
        let mut parameters: Vec<FunctionParameterDeclaration> = Vec::new();
        assert(parameter_models(parameters@) + whole.node =~= whole.node);
        while self.next_kind() == TokenKind::Comma
            invariant
                self.well_formed(),
                self.tokens() == old(self).tokens(),
                self.parsed() == old(self).parsed(),
                old(self).position() <= self.position(),
                whole.node == parameter_models(parameters@) + grammar::parameter_declaration_tail(
                    self.tokens(),
                    self.cursor(),
                ).node,
                old(self).cursor().after(whole) == self.cursor().after(
                    grammar::parameter_declaration_tail(self.tokens(), self.cursor()),
                ),
            decreases tokens_left(self.tokens(), self.position()),
        {
            let ghost found = parameter_models(parameters@);
            self.eat(TokenKind::Comma);
            let parameter = self.parameter_declaration();
            let ghost next = parameter@;
            parameters.push(parameter);
            assert(parameter_models(parameters@) =~= found.push(next));
            let ghost rest = grammar::parameter_declaration_tail(self.tokens(), self.cursor()).node;
            assert(found + (seq![next] + rest) =~= found.push(next) + rest);
        }
        assert(parameter_models(parameters@) + Seq::empty() =~= parameter_models(parameters@));
        parameters
    }

    /// `function := "fn" id "(" params? ")" "->" type "{" body "}"`
    #[verifier::rlimit(50)]
    pub(crate) fn function(&mut self) -> (function: FunctionDeclaration)
        requires
            old(self).well_formed(),
        ensures
            final(self).advanced(
                *old(self),
                grammar::function(old(self).tokens(), old(self).cursor()),
            ),
            function@ == grammar::function(old(self).tokens(), old(self).cursor()).node,
            statements_well_formed(function@.body),
    {
        self.eat(TokenKind::Fn);
        let name = self.parse_identifier();
        self.eat(TokenKind::Lbra);
        let parameters = self.parameter_declaration_list();
        self.eat(TokenKind::Rbra);
        self.eat(TokenKind::Arrow);
        let return_type = self.parse_type();
        self.eat(TokenKind::Lcur);
        let body = self.parse_body();
        self.eat(TokenKind::Rcur);
        FunctionDeclaration::new(name, parameters, return_type, body)
    }

    /// Moves the position to the next `fn` or end marker.
    fn skip_stray_tokens(&mut self)
        requires
            old(self).well_formed(),
        ensures
            final(self).advanced(
                *old(self),
                Parsed {
                    node: (),
                    consumed: stray_tokens(old(self).tokens(), old(self).position()),
                    errors: old(self).diagnostics(),
                },
            ),
    {
        while !(self.next_kind() == TokenKind::Fn || self.next_kind() == TokenKind::End)
            invariant
                self.well_formed(),
                self.tokens() == old(self).tokens(),
                self.parsed() == old(self).parsed(),
                self.diagnostics() == old(self).diagnostics(),
                old(self).position() <= self.position(),
                self.position() + stray_tokens(self.tokens(), self.position()) == old(
                    self,
                ).position() + stray_tokens(old(self).tokens(), old(self).position()),
            decreases tokens_left(self.tokens(), self.position()),
        {
            self.skip();
        }
    }

    /// `function_list := function function_list | empty`, up to the end marker.
    /// Tokens between functions that are neither `fn` nor the end marker are
    /// reported once, at the first of them, and skipped.
    #[verifier::rlimit(50)]
    pub(crate) fn function_list(&mut self) -> (declarations: Vec<Declaration>)
        requires
            old(self).well_formed(),
        ensures
            final(self).advanced(
                *old(self),
                grammar::function_list(old(self).tokens(), old(self).cursor()),
            ),
            declaration_models(declarations@) == grammar::function_list(
                old(self).tokens(),
                old(self).cursor(),
            ).node,
            (ProgramModel { declarations: declaration_models(declarations@) }).well_formed(),
            kind_at(final(self).tokens(), final(self).position()) == TokenKind::End,
    {
        let ghost whole = grammar::function_list(old(self).tokens(), old(self).cursor());
        let mut declarations: Vec<Declaration> = Vec::new();
        assert(declaration_models(declarations@) + whole.node =~= whole.node);
        while self.next_kind() != TokenKind::End
            invariant
                self.well_formed(),
                self.tokens() == old(self).tokens(),
                self.parsed() == old(self).parsed(),
                old(self).position() <= self.position(),
                (ProgramModel { declarations: declaration_models(declarations@) }).well_formed(),
                whole.node == declaration_models(declarations@) + grammar::function_list(
                    self.tokens(),
                    self.cursor(),
                ).node,
                old(self).cursor().after(whole) == self.cursor().after(
                    grammar::function_list(self.tokens(), self.cursor()),
                ),
            decreases tokens_left(self.tokens(), self.position()),
        {
            let ghost found = declaration_models(declarations@);
            if self.next_kind() == TokenKind::Fn {
                let function = self.function();
                let ghost next = DeclarationModel::Function(function@);
                declarations.push(Declaration::FunctionDeclaration(function));
                assert(declaration_models(declarations@) =~= found.push(next));
                let ghost rest = grammar::function_list(self.tokens(), self.cursor()).node;
                assert(found + (seq![next] + rest) =~= found.push(next) + rest);
            } else {
                let expected = vec![TokenKind::Fn, TokenKind::End];
                assert(expected@ =~= seq![TokenKind::Fn, TokenKind::End]);
                self.error(expected);
                self.skip_stray_tokens();
            }
        }
        assert(declaration_models(declarations@) + Seq::empty() =~= declaration_models(
            declarations@,
        ));
        declarations
    }

    /// `program := function_list end`: the parse of the whole token stream,
    /// from its first token.
    pub(crate) fn program(&mut self) -> (program: Program)
        requires
            old(self).well_formed(),
            old(self).cursor() == Cursor::start(),
        ensures
            final(self).advanced(*old(self), grammar::program(old(self).tokens())),
            program@ == grammar::program(old(self).tokens()).node,
            program@.well_formed(),
            kind_at(final(self).tokens(), final(self).position()) == TokenKind::End,
    {
        let declarations = self.function_list();
        Program::new(declarations)
    }
}

} // verus!
