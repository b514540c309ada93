//! The syntax tree that the parser builds.
//!
//! Every node owns its children. A tree is built bottom-up in one parse and
//! is not changed afterwards.

use crate::model::{statement_models, statements_well_formed, IfModel};
use vstd::prelude::*;

verus! {

/// A parsed source file: its declarations, in source order.
#[derive(PartialEq, Debug)]
pub struct Program {
    pub declarations: Vec<Declaration>,
}

impl Program {
    /// The program that holds `declarations`.
    pub fn new(declarations: Vec<Declaration>) -> (program: Self)
        ensures
            program.declarations == declarations,
    {
        Self { declarations }
    }
}

/// A top-level declaration.
#[derive(PartialEq, Debug)]
pub enum Declaration {
    FunctionDeclaration(FunctionDeclaration),
}

/// A function: its name, its parameters, the type it returns and the
/// statements of its body.
#[derive(PartialEq, Debug)]
pub struct FunctionDeclaration {
    pub name: String,
    pub parameters: Vec<FunctionParameterDeclaration>,
    pub return_type: Type,
    pub body: Vec<Statement>,
}

impl FunctionDeclaration {
    /// The function with the given name, parameters, return type and body.
    pub fn new(
        name: String,
        parameters: Vec<FunctionParameterDeclaration>,
        return_type: Type,
        body: Vec<Statement>,
    ) -> (function: Self)
        ensures
            function.name == name,
            function.parameters == parameters,
            function.return_type == return_type,
            function.body == body,
    {
        Self { name, parameters, return_type, body }
    }
}

/// A parameter of a function: its name and its type.
#[derive(PartialEq, Debug)]
pub struct FunctionParameterDeclaration {
    pub name: String,
    pub datatype: Type,
}

impl FunctionParameterDeclaration {
    /// The parameter `name` of type `datatype`.
    pub fn new(name: String, datatype: Type) -> (parameter: Self)
        ensures
            parameter.name == name,
            parameter.datatype == datatype,
    {
        Self { name, datatype }
    }
}

/// A statement of a function body.
#[derive(PartialEq, Debug)]
pub enum Statement {
    DeclarationStatement(DeclarationStatement),
    VariableAssignmentStatement(VariableAssignmentStatement),
    IfStatement(IfStatement),
    WhileStatement(WhileStatement),
    ReturnStatement(Option<Expression>),
    Expression(Expression),
}

/// A loop that runs its body while its condition holds.
#[derive(PartialEq, Debug)]
pub struct WhileStatement {
    pub condition: Expression,
    pub body: Vec<Statement>,
}

impl WhileStatement {
    /// The loop with the given condition and body.
    pub fn new(condition: Expression, body: Vec<Statement>) -> (statement: Self)
        ensures
            statement.condition == condition,
            statement.body == body,
    {
        Self { condition, body }
    }
}

/// One link of an `if` / `else if` / `else` chain.
///
/// A link with a condition is an `if` or an `else if`, and may be followed
/// by one further link. A link without a condition is the final `else`, and
/// is followed by none.
#[derive(PartialEq, Debug)]
pub struct IfStatement {
    pub condition: Option<Expression>,
    pub body: Vec<Statement>,
    pub tail_conditions: Option<Box<IfStatement>>,
}

impl IfStatement {
    /// The `if` or `else if` link with the given condition and body, followed
    /// by the chain `tail`.
    pub fn new(condition: Expression, body: Vec<Statement>, tail: Option<IfStatement>) -> (link:
        Self)
        ensures
            link.condition == Some(condition),
            link.body == body,
            link.tail_conditions == match tail {
                Some(next) => Some(Box::new(next)),
                None => None,
            },
            link@ == (IfModel {
                condition: Some(condition@),
                body: statement_models(body@),
                tail: match tail {
                    Some(next) => Some(Box::new(next@)),
                    None => None,
                },
            }),
            statements_well_formed(statement_models(body@)) && (tail matches Some(next)
                ==> next@.well_formed()) ==> link@.well_formed(),
    {
        let tail = match tail {
            Some(tail) => Some(Box::new(tail)),
            None => None,
        };
        Self { condition: Some(condition), body, tail_conditions: tail }
    }

    /// The final `else` link with the given body.
    pub fn make_else(body: Vec<Statement>) -> (link: Self)
        ensures
            link.condition is None,
            link.body == body,
            link.tail_conditions is None,
            link@ == (IfModel { condition: None, body: statement_models(body@), tail: None }),
            statements_well_formed(statement_models(body@)) ==> link@.well_formed(),
    {
        Self { condition: None, body, tail_conditions: None }
    }
}

/// The declaration of a variable with its type and its initial value.
#[derive(PartialEq, Debug)]
pub struct DeclarationStatement {
    pub variable: String,
    pub datatype: Type,
    pub value: Expression,
}

impl DeclarationStatement {
    /// The declaration of `variable` with type `datatype` and initial value
    /// `value`.
    pub fn new(variable: String, datatype: Type, value: Expression) -> (statement: Self)
        ensures
            statement.variable == variable,
            statement.datatype == datatype,
            statement.value == value,
    {
        Self { variable, datatype, value }
    }
}

/// The assignment of a value to a variable.
#[derive(PartialEq, Debug)]
pub struct VariableAssignmentStatement {
    pub variable: String,
    pub value: Expression,
}

impl VariableAssignmentStatement {
    /// The assignment of `value` to `variable`.
    pub fn new(variable: String, value: Expression) -> (statement: Self)
        ensures
            statement.variable == variable,
            statement.value == value,
    {
        Self { variable, value }
    }
}

/// A type of the language.
#[derive(Clone, Copy, PartialEq, Eq, Structural, Debug)]
pub enum Type {
    SimpleType(SimpleType),
}

/// A primitive type.
#[derive(Clone, Copy, PartialEq, Eq, Structural, Debug)]
pub enum SimpleType {
    I8,
    I16,
    I32,
    I64,
    U8,
    U16,
    U32,
    U64,
    Void,
}

/// An expression.
#[derive(PartialEq, Debug)]
pub enum Expression {
    BinOpExpression(BinOpExpression),
    LiteralExpression(LiteralExpression),
    VariableReferenceExpression(String),
    FunctionCallExpression(FunctionCallExpression),
}

/// A binary operation on two operands.
#[derive(PartialEq, Debug)]
pub struct BinOpExpression {
    pub left: Box<Expression>,
    pub op: Operator,
    pub right: Box<Expression>,
}

/// A binary operator.
#[derive(Clone, Copy, PartialEq, Eq, Structural, Debug)]
pub enum Operator {
    Plus,
    Min,
    Mul,
    Div,
    Mod,
}

impl BinOpExpression {
    /// The operation `op` on `left` and `right`.
    pub fn new(left: Expression, right: Expression, op: Operator) -> (operation: Self)
        ensures
            *operation.left == left,
            operation.op == op,
            *operation.right == right,
    {
        Self { left: Box::new(left), op, right: Box::new(right) }
    }
}

/// A call of a function with its arguments, in order.
#[derive(PartialEq, Debug)]
pub struct FunctionCallExpression {
    pub name: String,
    pub parameters: Vec<Expression>,
}

impl FunctionCallExpression {
    /// A call of the function `name` without arguments.
    pub fn new(name: String) -> (call: Self)
        ensures
            call.name == name,
            call.parameters@ == Seq::<Expression>::empty(),
    {
        Self { name, parameters: Vec::new() }
    }

    /// Appends `parameter` to the arguments of the call.
    pub fn add_parameter(&mut self, parameter: Expression)
        ensures
            final(self).name == old(self).name,
            final(self).parameters@ == old(self).parameters@.push(parameter),
    {
        self.parameters.push(parameter)
    }

    /// Appends `parameters`, in order, to the arguments of the call.
    pub fn add_parameters(&mut self, parameters: Vec<Expression>)
        ensures
            final(self).name == old(self).name,
            final(self).parameters@ == old(self).parameters@ + parameters@,
    {
        let mut parameters = parameters;
        self.parameters.append(&mut parameters);
    }
}

/// A literal: its digits as they stand in the source. The digits are not
/// read as a number here, nor checked against the width that the variant
/// names.
#[derive(PartialEq, Debug)]
pub enum LiteralExpression {
    I8(String),
    I16(String),
    I32(String),
    I64(String),
    U8(String),
    U16(String),
    U32(String),
    U64(String),
}

} // verus!
