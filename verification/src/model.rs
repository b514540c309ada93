//! The mathematical values of syntax trees.
//!
//! Each node of the tree in [`crate::ast`] has a model here, in which text is
//! a sequence of characters and a list of children is a sequence of models.
//! Contracts speak of these models; two trees with the same model are the
//! same tree.

use crate::ast::{
    BinOpExpression, Declaration, DeclarationStatement, Expression, FunctionCallExpression,
    FunctionDeclaration, FunctionParameterDeclaration, IfStatement, LiteralExpression, Operator,
    Program, Statement, Type, VariableAssignmentStatement, WhileStatement,
};
use vstd::prelude::*;

verus! {

/// The model of a literal.
pub enum LiteralModel {
    I8(Seq<char>),
    I16(Seq<char>),
    I32(Seq<char>),
    I64(Seq<char>),
    U8(Seq<char>),
    U16(Seq<char>),
    U32(Seq<char>),
    U64(Seq<char>),
}

/// The model of an expression.
pub enum ExpressionModel {
    BinOp { left: Box<ExpressionModel>, op: Operator, right: Box<ExpressionModel> },
    Literal(LiteralModel),
    VariableReference(Seq<char>),
    FunctionCall { name: Seq<char>, parameters: Seq<ExpressionModel> },
}

/// The model of a statement.
pub enum StatementModel {
    Declaration { variable: Seq<char>, datatype: Type, value: ExpressionModel },
    VariableAssignment { variable: Seq<char>, value: ExpressionModel },
    If(IfModel),
    While { condition: ExpressionModel, body: Seq<StatementModel> },
    Return(Option<ExpressionModel>),
    Expression(ExpressionModel),
}

/// The model of one link of an `if` / `else if` / `else` chain.
pub struct IfModel {
    pub condition: Option<ExpressionModel>,
    pub body: Seq<StatementModel>,
    pub tail: Option<Box<IfModel>>,
}

/// The model of a parameter of a function.
pub struct ParameterModel {
    pub name: Seq<char>,
    pub datatype: Type,
}

/// The model of a function.
pub struct FunctionModel {
    pub name: Seq<char>,
    pub parameters: Seq<ParameterModel>,
    pub return_type: Type,
    pub body: Seq<StatementModel>,
}

/// The model of a top-level declaration.
pub enum DeclarationModel {
    Function(FunctionModel),
}

/// The model of a program.
pub struct ProgramModel {
    pub declarations: Seq<DeclarationModel>,
}

impl IfModel {
    /// Whether the chain that starts at this link, and every chain inside
    /// its bodies, is well formed: a link without a condition is the last
    /// one of its chain.
    pub open spec fn well_formed(self) -> bool
        decreases self,
    {
        &&& self.condition is None ==> self.tail is None
        &&& statements_well_formed(self.body)
        &&& match self.tail {
            Some(tail) => tail.well_formed(),
            None => true,
        }
    }

    /// The number of links of the chain that starts at this link.
    pub open spec fn links(self) -> nat
        decreases self,
    {
        match self.tail {
            Some(tail) => 1 + tail.links(),
            None => 1,
        }
    }
}

impl StatementModel {
    /// Whether every `if` chain inside this statement is well formed.
    pub open spec fn well_formed(self) -> bool
        decreases self,
    {
        match self {
            StatementModel::If(link) => link.well_formed(),
            StatementModel::While { condition, body } => statements_well_formed(body),
            _ => true,
        }
    }
}

/// Whether every `if` chain inside these statements is well formed.
pub open spec fn statements_well_formed(statements: Seq<StatementModel>) -> bool
    decreases statements,
{
    forall|k: int| 0 <= k < statements.len() ==> (#[trigger] statements[k]).well_formed()
}

impl ProgramModel {
    /// Whether every `if` chain inside this program is well formed.
    pub open spec fn well_formed(self) -> bool {
        forall|k: int|
            0 <= k < self.declarations.len() ==> statements_well_formed(
                (#[trigger] self.declarations[k])->Function_0.body,
            )
    }
}

/// The model of a literal.
pub open spec fn literal_model(literal: LiteralExpression) -> LiteralModel {
    match literal {
        LiteralExpression::I8(digits) => LiteralModel::I8(digits@),
        LiteralExpression::I16(digits) => LiteralModel::I16(digits@),
        LiteralExpression::I32(digits) => LiteralModel::I32(digits@),
        LiteralExpression::I64(digits) => LiteralModel::I64(digits@),
        LiteralExpression::U8(digits) => LiteralModel::U8(digits@),
        LiteralExpression::U16(digits) => LiteralModel::U16(digits@),
        LiteralExpression::U32(digits) => LiteralModel::U32(digits@),
        LiteralExpression::U64(digits) => LiteralModel::U64(digits@),
    }
}

/// The model of an expression.
pub open spec fn expression_model(expression: Expression) -> ExpressionModel
    decreases expression,
{
    match expression {
        Expression::BinOpExpression(operation) => ExpressionModel::BinOp {
            left: Box::new(expression_model(*operation.left)),
            op: operation.op,
            right: Box::new(expression_model(*operation.right)),
        },
        Expression::LiteralExpression(literal) => ExpressionModel::Literal(literal_model(literal)),
        Expression::VariableReferenceExpression(name) => ExpressionModel::VariableReference(name@),
        Expression::FunctionCallExpression(call) => ExpressionModel::FunctionCall {
            name: call.name@,
            parameters: expression_models(call.parameters@),
        },
    }
}

/// The models of a sequence of expressions, in order.
pub open spec fn expression_models(expressions: Seq<Expression>) -> Seq<ExpressionModel>
    decreases expressions,
{
    Seq::new(
        expressions.len(),
        |k: int|
            if 0 <= k < expressions.len() {
                expression_model(expressions[k])
            } else {
                arbitrary()
            },
    )
}

/// The model of an optional expression.
pub open spec fn optional_expression_model(expression: Option<Expression>) -> Option<
    ExpressionModel,
> {
    match expression {
        Some(expression) => Some(expression_model(expression)),
        None => None,
    }
}

/// The model of a statement.
pub open spec fn statement_model(statement: Statement) -> StatementModel
    decreases statement,
{
    match statement {
        Statement::DeclarationStatement(declaration) => StatementModel::Declaration {
            variable: declaration.variable@,
            datatype: declaration.datatype,
            value: expression_model(declaration.value),
        },
        Statement::VariableAssignmentStatement(assignment) => StatementModel::VariableAssignment {
            variable: assignment.variable@,
            value: expression_model(assignment.value),
        },
        Statement::IfStatement(link) => StatementModel::If(if_model(link)),
        Statement::WhileStatement(repeat) => StatementModel::While {
            condition: expression_model(repeat.condition),
            body: statement_models(repeat.body@),
        },
        Statement::ReturnStatement(value) => StatementModel::Return(
            optional_expression_model(value),
        ),
        Statement::Expression(expression) => StatementModel::Expression(
            expression_model(expression),
        ),
    }
}

/// The models of a sequence of statements, in order.
pub open spec fn statement_models(statements: Seq<Statement>) -> Seq<StatementModel>
    decreases statements,
{
    Seq::new(
        statements.len(),
        |k: int|
            if 0 <= k < statements.len() {
                statement_model(statements[k])
            } else {
                arbitrary()
            },
    )
}

/// The model of one link of an `if` / `else if` / `else` chain.
pub open spec fn if_model(link: IfStatement) -> IfModel
    decreases link,
{
    IfModel {
        condition: optional_expression_model(link.condition),
        body: statement_models(link.body@),
        tail: match link.tail_conditions {
            Some(tail) => Some(Box::new(if_model(*tail))),
            None => None,
        },
    }
}

/// The model of a parameter of a function.
pub open spec fn parameter_model(parameter: FunctionParameterDeclaration) -> ParameterModel {
    ParameterModel { name: parameter.name@, datatype: parameter.datatype }
}

/// The models of a sequence of parameters, in order.
pub open spec fn parameter_models(parameters: Seq<FunctionParameterDeclaration>) -> Seq<
    ParameterModel,
> {
    Seq::new(parameters.len(), |k: int| parameter_model(parameters[k]))
}

/// The model of a function.
pub open spec fn function_model(function: FunctionDeclaration) -> FunctionModel {
    FunctionModel {
        name: function.name@,
        parameters: parameter_models(function.parameters@),
        return_type: function.return_type,
        body: statement_models(function.body@),
    }
}

/// The model of a top-level declaration.
pub open spec fn declaration_model(declaration: Declaration) -> DeclarationModel {
    match declaration {
        Declaration::FunctionDeclaration(function) => DeclarationModel::Function(
            function_model(function),
        ),
    }
}

/// The models of a sequence of declarations, in order.
pub open spec fn declaration_models(declarations: Seq<Declaration>) -> Seq<DeclarationModel> {
    Seq::new(declarations.len(), |k: int| declaration_model(declarations[k]))
}

impl View for Expression {
    type V = ExpressionModel;

    open spec fn view(&self) -> ExpressionModel {
        expression_model(*self)
    }
}

impl View for Statement {
    type V = StatementModel;

    open spec fn view(&self) -> StatementModel {
        statement_model(*self)
    }
}

impl View for IfStatement {
    type V = IfModel;

    open spec fn view(&self) -> IfModel {
        if_model(*self)
    }
}

impl View for FunctionParameterDeclaration {
    type V = ParameterModel;

    open spec fn view(&self) -> ParameterModel {
        parameter_model(*self)
    }
}

impl View for FunctionDeclaration {
    type V = FunctionModel;

    open spec fn view(&self) -> FunctionModel {
        function_model(*self)
    }
}

impl View for Declaration {
    type V = DeclarationModel;

    open spec fn view(&self) -> DeclarationModel {
        declaration_model(*self)
    }
}

impl View for Program {
    type V = ProgramModel;

    open spec fn view(&self) -> ProgramModel {
        ProgramModel { declarations: declaration_models(self.declarations@) }
    }
}

} // verus!
