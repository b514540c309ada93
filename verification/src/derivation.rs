//! What the grammar accepts: for each production, the token ranges that it
//! derives, with the node that each range stands for.
//!
//! `derives_x(tokens, i, j, node)` says that the tokens from position `i` up
//! to, not including, position `j` are an `x` of the grammar, and that
//! `node` is its syntax tree. Operators of one level associate to the left:
//! `a - b - c` is derived as `(a - b) - c` only. Parentheses leave no node
//! of their own: `(e)` stands for the tree of `e`.
//!
//! These relations say nothing of how a range is found. That the parser
//! finds the tree of every range they derive is proved in [`crate::laws`].

use crate::ast::Type;
use crate::grammar::{
    additive_operator, kind_at, multiplicative_operator, simple_type_of, token_at,
};
use crate::model::{
    DeclarationModel, ExpressionModel, FunctionModel, IfModel, LiteralModel, ParameterModel,
    ProgramModel, StatementModel,
};
use crate::token::{TokenKind, TokenModel};
use vstd::prelude::*;

verus! {

/// Whether position `k` lies after position `i` and before position `j`.
pub open spec fn between(i: nat, k: nat, j: nat) -> bool {
    i < k < j
}

/// Whether the token at position `i` is the identifier `name`.
pub open spec fn identifier_at(tokens: Seq<TokenModel>, i: nat, name: Seq<char>) -> bool {
    kind_at(tokens, i) == TokenKind::Id && token_at(tokens, i).text == name
}

/// `type`: whether the token at position `i` names the type `datatype`.
pub open spec fn type_at(tokens: Seq<TokenModel>, i: nat, datatype: Type) -> bool {
    match simple_type_of(kind_at(tokens, i)) {
        Some(simple) => datatype == Type::SimpleType(simple),
        None => false,
    }
}

/// `factor := number | funcall | id | "(" expr ")"`
pub open spec fn derives_factor(tokens: Seq<TokenModel>, i: nat, j: nat, node: ExpressionModel)
    -> bool
    decreases j - i, 1nat,
{
    ||| j == i + 1 && kind_at(tokens, i) == TokenKind::Num && node == ExpressionModel::Literal(
        LiteralModel::I64(token_at(tokens, i).text),
    )
    ||| j == i + 1 && kind_at(tokens, i) == TokenKind::Id && node
        == ExpressionModel::VariableReference(token_at(tokens, i).text)
    ||| derives_function_call(tokens, i, j, node)
    ||| i + 2 <= j && kind_at(tokens, i) == TokenKind::Lbra && kind_at(tokens, (j - 1) as nat)
        == TokenKind::Rbra && derives_expression(tokens, i + 1, (j - 1) as nat, node)
}

/// `funcall := id "(" (expr ("," expr)*)? ")"`
pub open spec fn derives_function_call(
    tokens: Seq<TokenModel>,
    i: nat,
    j: nat,
    node: ExpressionModel,
) -> bool
    decreases j - i, 0nat,
{
    match node {
        ExpressionModel::FunctionCall { name, parameters } => {
            &&& i + 3 <= j
            &&& identifier_at(tokens, i, name)
            &&& kind_at(tokens, i + 1) == TokenKind::Lbra
            &&& kind_at(tokens, (j - 1) as nat) == TokenKind::Rbra
            &&& derives_arguments(tokens, i + 2, (j - 1) as nat, parameters)
        },
        _ => false,
    }
}

/// `(expr ("," expr)*)?`: the arguments of a call.
pub open spec fn derives_arguments(
    tokens: Seq<TokenModel>,
    i: nat,
    j: nat,
    nodes: Seq<ExpressionModel>,
) -> bool
    decreases j - i, 5nat,
{
    if nodes.len() == 0 {
        i == j
    } else {
        derives_argument_list(tokens, i, j, nodes)
    }
}

/// `expr ("," expr)*`: the arguments of a call that has some.
pub open spec fn derives_argument_list(
    tokens: Seq<TokenModel>,
    i: nat,
    j: nat,
    nodes: Seq<ExpressionModel>,
) -> bool
    decreases j - i, 4nat,
{
    if nodes.len() == 0 {
        false
    } else if nodes.len() == 1 {
        derives_expression(tokens, i, j, nodes[0])
    } else {
        exists|k: nat|
            {
                &&& #[trigger] between(i, k, j)
                &&& derives_expression(tokens, i, k, nodes[0])
                &&& kind_at(tokens, k) == TokenKind::Comma
                &&& derives_argument_list(tokens, k + 1, j, nodes.drop_first())
            }
    }
}

/// `term := factor (("*"|"/"|"%") factor)*`, with the operators taken from
/// left to right.
pub open spec fn derives_term(tokens: Seq<TokenModel>, i: nat, j: nat, node: ExpressionModel)
    -> bool
    decreases j - i, 2nat,
{
    ||| derives_factor(tokens, i, j, node)
    ||| match node {
        ExpressionModel::BinOp { left, op, right } => exists|k: nat|
            {
                &&& #[trigger] between(i, k, j)
                &&& derives_term(tokens, i, k, *left)
                &&& multiplicative_operator(kind_at(tokens, k)) == Some(op)
                &&& derives_factor(tokens, k + 1, j, *right)
            },
        _ => false,
    }
}

/// `expr := term (("+"|"-") term)*`, with the operators taken from left to
/// right.
pub open spec fn derives_expression(
    tokens: Seq<TokenModel>,
    i: nat,
    j: nat,
    node: ExpressionModel,
) -> bool
    decreases j - i, 3nat,
{
    ||| derives_term(tokens, i, j, node)
    ||| match node {
        ExpressionModel::BinOp { left, op, right } => exists|k: nat|
            {
                &&& #[trigger] between(i, k, j)
                &&& derives_expression(tokens, i, k, *left)
                &&& additive_operator(kind_at(tokens, k)) == Some(op)
                &&& derives_term(tokens, k + 1, j, *right)
            },
        _ => false,
    }
}

/// Whether position `k` lies after position `i` and not after position `j`.
pub open spec fn within(i: nat, k: nat, j: nat) -> bool {
    i < k <= j
}

/// `"{" body "}"`
pub open spec fn derives_block(tokens: Seq<TokenModel>, i: nat, j: nat, nodes: Seq<StatementModel>)
    -> bool
    decreases j - i, 0nat,
{
    &&& i + 2 <= j
    &&& kind_at(tokens, i) == TokenKind::Lcur
    &&& kind_at(tokens, (j - 1) as nat) == TokenKind::Rcur
    &&& derives_body(tokens, i + 1, (j - 1) as nat, nodes)
}

/// `expr "{" body "}"`: a condition and the block that it guards.
pub open spec fn derives_guarded(
    tokens: Seq<TokenModel>,
    i: nat,
    j: nat,
    condition: ExpressionModel,
    nodes: Seq<StatementModel>,
) -> bool
    decreases j - i, 1nat,
{
    exists|k: nat|
        {
            &&& #[trigger] between(i, k, j)
            &&& derives_expression(tokens, i, k, condition)
            &&& derives_block(tokens, k, j, nodes)
        }
}

/// `body := statement*`
pub open spec fn derives_body(tokens: Seq<TokenModel>, i: nat, j: nat, nodes: Seq<StatementModel>)
    -> bool
    decreases j - i, 4nat,
{
    if nodes.len() == 0 {
        i == j
    } else {
        exists|k: nat|
            {
                &&& #[trigger] within(i, k, j)
                &&& derives_statement(tokens, i, k, nodes[0])
                &&& derives_body(tokens, k, j, nodes.drop_first())
            }
    }
}

/// `statement := block_stmt | non_block_stmt ";"`, with
/// `block_stmt := if_stmt | while_stmt`,
/// `non_block_stmt := decl_stmt | assign_stmt | return_stmt | expr`,
/// `decl_stmt := "let" id ":" type "=" expr`, `assign_stmt := id "=" expr`,
/// `return_stmt := "return" expr?` and
/// `while_stmt := "while" expr "{" body "}"`.
pub open spec fn derives_statement(
    tokens: Seq<TokenModel>,
    i: nat,
    j: nat,
    node: StatementModel,
) -> bool
    decreases j - i, 3nat,
{
    match node {
        StatementModel::Declaration { variable, datatype, value } => {
            &&& i + 7 <= j
            &&& kind_at(tokens, i) == TokenKind::Let
            &&& identifier_at(tokens, i + 1, variable)
            &&& kind_at(tokens, i + 2) == TokenKind::Colon
            &&& type_at(tokens, i + 3, datatype)
            &&& kind_at(tokens, i + 4) == TokenKind::Eq
            &&& derives_expression(tokens, i + 5, (j - 1) as nat, value)
            &&& kind_at(tokens, (j - 1) as nat) == TokenKind::Semi
        },
        StatementModel::VariableAssignment { variable, value } => {
            &&& i + 4 <= j
            &&& identifier_at(tokens, i, variable)
            &&& kind_at(tokens, i + 1) == TokenKind::Eq
            &&& derives_expression(tokens, i + 2, (j - 1) as nat, value)
            &&& kind_at(tokens, (j - 1) as nat) == TokenKind::Semi
        },
        StatementModel::Return(None) => {
            &&& j == i + 2
            &&& kind_at(tokens, i) == TokenKind::Return
            &&& kind_at(tokens, i + 1) == TokenKind::Semi
        },
        StatementModel::Return(Some(value)) => {
            &&& i + 3 <= j
            &&& kind_at(tokens, i) == TokenKind::Return
            &&& derives_expression(tokens, i + 1, (j - 1) as nat, value)
            &&& kind_at(tokens, (j - 1) as nat) == TokenKind::Semi
        },
        StatementModel::Expression(value) => {
            &&& i + 2 <= j
            &&& derives_expression(tokens, i, (j - 1) as nat, value)
            &&& kind_at(tokens, (j - 1) as nat) == TokenKind::Semi
        },
        StatementModel::If(chain) => derives_if(tokens, i, j, chain),
        StatementModel::While { condition, body } => {
            &&& i < j
            &&& kind_at(tokens, i) == TokenKind::While
            &&& derives_guarded(tokens, i + 1, j, condition, body)
        },
    }
}

/// `if_stmt := "if" expr "{" body "}" ("else" (if_stmt | "{" body "}"))?`
pub open spec fn derives_if(tokens: Seq<TokenModel>, i: nat, j: nat, chain: IfModel) -> bool
    decreases j - i, 1nat,
{
    match chain.condition {
        Some(condition) => {
            &&& i < j
            &&& kind_at(tokens, i) == TokenKind::If
            &&& match chain.tail {
                None => derives_guarded(tokens, i + 1, j, condition, chain.body),
                Some(next) => exists|m: nat|
                    {
                        &&& #[trigger] between(i + 1, m, j)
                        &&& derives_guarded(tokens, i + 1, m, condition, chain.body)
                        &&& kind_at(tokens, m) == TokenKind::Else
                        &&& derives_else(tokens, m + 1, j, *next)
                    },
            }
        },
        None => false,
    }
}

/// `if_stmt | "{" body "}"`: what follows an `else`.
pub open spec fn derives_else(tokens: Seq<TokenModel>, i: nat, j: nat, chain: IfModel) -> bool
    decreases j - i, 2nat,
{
    match chain.condition {
        Some(_) => derives_if(tokens, i, j, chain),
        None => chain.tail is None && derives_block(tokens, i, j, chain.body),
    }
}

/// `param := id ":" type`, at position `i`.
pub open spec fn parameter_at(tokens: Seq<TokenModel>, i: nat, node: ParameterModel) -> bool {
    &&& identifier_at(tokens, i, node.name)
    &&& kind_at(tokens, i + 1) == TokenKind::Colon
    &&& type_at(tokens, i + 2, node.datatype)
}

/// `param ("," param)*`: the parameters of a function that has some.
pub open spec fn derives_parameter_list(
    tokens: Seq<TokenModel>,
    i: nat,
    j: nat,
    nodes: Seq<ParameterModel>,
) -> bool
    decreases nodes.len(),
{
    if nodes.len() == 0 {
        false
    } else if nodes.len() == 1 {
        parameter_at(tokens, i, nodes[0]) && j == i + 3
    } else {
        &&& parameter_at(tokens, i, nodes[0])
        &&& kind_at(tokens, i + 3) == TokenKind::Comma
        &&& derives_parameter_list(tokens, i + 4, j, nodes.drop_first())
    }
}

/// `params?`: the parameters of a function.
pub open spec fn derives_parameters(
    tokens: Seq<TokenModel>,
    i: nat,
    j: nat,
    nodes: Seq<ParameterModel>,
) -> bool {
    if nodes.len() == 0 {
        i == j
    } else {
        derives_parameter_list(tokens, i, j, nodes)
    }
}

/// `function := "fn" id "(" params? ")" "->" type "{" body "}"`
pub open spec fn derives_function(tokens: Seq<TokenModel>, i: nat, j: nat, node: FunctionModel)
    -> bool {
    &&& kind_at(tokens, i) == TokenKind::Fn
    &&& identifier_at(tokens, i + 1, node.name)
    &&& kind_at(tokens, i + 2) == TokenKind::Lbra
    &&& exists|p: nat|
        {
            &&& #[trigger] between(i + 2, p, j)
            &&& derives_parameters(tokens, i + 3, p, node.parameters)
            &&& kind_at(tokens, p) == TokenKind::Rbra
            &&& kind_at(tokens, p + 1) == TokenKind::Arrow
            &&& type_at(tokens, p + 2, node.return_type)
            &&& derives_block(tokens, p + 3, j, node.body)
        }
}

/// `function_list := function function_list | empty`
pub open spec fn derives_function_list(
    tokens: Seq<TokenModel>,
    i: nat,
    j: nat,
    nodes: Seq<DeclarationModel>,
) -> bool
    decreases nodes.len(),
{
    if nodes.len() == 0 {
        i == j
    } else {
        exists|k: nat|
            {
                &&& #[trigger] within(i, k, j)
                &&& derives_function(tokens, i, k, nodes[0]->Function_0)
                &&& derives_function_list(tokens, k, j, nodes.drop_first())
            }
    }
}

/// `program := function_list end`: whether the token stream, up to an end
/// marker, is a program of the grammar with the tree `node`.
pub open spec fn derives_program(tokens: Seq<TokenModel>, node: ProgramModel) -> bool {
    exists|n: nat|
        {
            &&& #[trigger] kind_at(tokens, n) == TokenKind::End
            &&& derives_function_list(tokens, 0, n, node.declarations)
        }
}

} // verus!
