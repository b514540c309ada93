//! What holds of every parse, proved from the grammar functions alone.

use crate::derivation::{
    between, derives_argument_list, derives_arguments, derives_block, derives_body,
    derives_else, derives_expression, derives_factor, derives_function_call, derives_guarded,
    derives_function, derives_function_list, derives_if, derives_parameter_list,
    derives_parameters, derives_program, derives_statement, derives_term, type_at, within,
};
use crate::grammar::{
    additive_operator, assignment_statement, block_statement, body, declaration_statement, eat,
    else_statement, expression, expression_prime, factor, function, function_call,
    function_list, identifier,
    if_statement, kind_at, lvalue, maybe_else_statement, maybe_expression,
    multiplicative_operator, non_block_statement, number, parameter_declaration,
    parameter_declaration_list, parameter_declaration_tail, parameter_list,
    parameter_list_tail, parse_type, program, return_statement, starts_expression, starts_non_block,
    starts_statement, statement, term,
    term_prime, token_at, while_statement, Cursor, DiagnosticModel, Parsed,
};
use crate::model::{
    DeclarationModel, ExpressionModel, FunctionModel, IfModel, ParameterModel, ProgramModel,
    StatementModel,
};
use crate::parser::Parser;
use crate::token::{TokenKind, TokenModel};
use vstd::prelude::*;

verus! {

/// The result of a production that consumes `width` tokens from the cursor
/// `at`, builds `node` and records nothing.
pub open spec fn accepted<T>(at: Cursor, node: T, width: nat) -> Parsed<T> {
    Parsed { node, consumed: width, errors: at.errors }
}

/// The result `rest`, made from the cursor `width` tokens after `at`, as a
/// result made from `at`.
pub open spec fn continued<T>(width: nat, rest: Parsed<T>) -> Parsed<T> {
    Parsed { node: rest.node, consumed: width + rest.consumed, errors: rest.errors }
}

/// The cursor `width` tokens after `at`, with nothing more recorded.
pub open spec fn moved(at: Cursor, width: nat) -> Cursor {
    Cursor { position: at.position + width, errors: at.errors }
}

/// Whether a token of this kind may stand after an expression: it is no
/// operator, and not the `(` that would make a call of an identifier.
pub open spec fn ends_expression(kind: TokenKind) -> bool {
    &&& additive_operator(kind) is None
    &&& multiplicative_operator(kind) is None
    &&& kind != TokenKind::Lbra
}

/// A range that derives a factor begins with a token that begins an
/// expression.
pub proof fn lemma_factor_start(tokens: Seq<TokenModel>, i: nat, j: nat, node: ExpressionModel)
    requires
        derives_factor(tokens, i, j, node),
    ensures
        i < j,
        starts_expression(kind_at(tokens, i)),
{
}

/// A range that derives a term begins with a token that begins an
/// expression.
pub proof fn lemma_term_start(tokens: Seq<TokenModel>, i: nat, j: nat, node: ExpressionModel)
    requires
        derives_term(tokens, i, j, node),
    ensures
        i < j,
        starts_expression(kind_at(tokens, i)),
    decreases j - i,
{
    if derives_factor(tokens, i, j, node) {
        lemma_factor_start(tokens, i, j, node);
    } else {
        let k = choose|k: nat|
            #[trigger] between(i, k, j) && derives_term(tokens, i, k, *node->BinOp_left)
                && multiplicative_operator(kind_at(tokens, k)) == Some(node->BinOp_op)
                && derives_factor(tokens, k + 1, j, *node->BinOp_right);
        lemma_term_start(tokens, i, k, *node->BinOp_left);
    }
}

/// A range that derives an expression begins with a token that begins an
/// expression.
pub proof fn lemma_expression_start(tokens: Seq<TokenModel>, i: nat, j: nat, node: ExpressionModel)
    requires
        derives_expression(tokens, i, j, node),
    ensures
        i < j,
        starts_expression(kind_at(tokens, i)),
    decreases j - i,
{
    if derives_term(tokens, i, j, node) {
        lemma_term_start(tokens, i, j, node);
    } else {
        let k = choose|k: nat|
            #[trigger] between(i, k, j) && derives_expression(tokens, i, k, *node->BinOp_left)
                && additive_operator(kind_at(tokens, k)) == Some(node->BinOp_op) && derives_term(
                tokens,
                k + 1,
                j,
                *node->BinOp_right,
            );
        lemma_expression_start(tokens, i, k, *node->BinOp_left);
    }
}

/// The parser finds the tree of a factor: where the tokens from the cursor
/// on derive a factor, and no `(` follows them, `factor` consumes exactly
/// these tokens, builds their tree and records nothing.
#[verifier::rlimit(50)]
pub proof fn lemma_factor(
    tokens: Seq<TokenModel>,
    i: nat,
    j: nat,
    node: ExpressionModel,
    at: Cursor,
)
    requires
        at.position == i,
        derives_factor(tokens, i, j, node),
        kind_at(tokens, j) != TokenKind::Lbra,
    ensures
        i < j,
        factor(tokens, at) == accepted(at, node, (j - i) as nat),
    decreases j - i, 1nat,
{
    if kind_at(tokens, i) == TokenKind::Num {
        assert(number(tokens, at) == at.accept(token_at(tokens, i).text));
    } else if kind_at(tokens, i) == TokenKind::Lbra {
        let inner = moved(at, 1);
        lemma_expression(tokens, i + 1, (j - 1) as nat, node, inner);
        assert(eat(tokens, at, TokenKind::Lbra) == at.accept(()));
    } else if derives_function_call(tokens, i, j, node) {
        lemma_function_call(tokens, i, j, node, at);
    } else {
        assert(identifier(tokens, at) == at.accept(token_at(tokens, i).text));
    }
}

/// The parser finds the tree of a call.
pub proof fn lemma_function_call(
    tokens: Seq<TokenModel>,
    i: nat,
    j: nat,
    node: ExpressionModel,
    at: Cursor,
)
    requires
        at.position == i,
        derives_function_call(tokens, i, j, node),
    ensures
        function_call(tokens, at) == accepted(at, node, (j - i) as nat),
    decreases j - i, 0nat,
{
    let name = identifier(tokens, at);
    assert(name == at.accept(token_at(tokens, i).text));
    let open = name.and(eat(tokens, at.after(name), TokenKind::Lbra));
    assert(at.after(open) == moved(at, 2));
    lemma_arguments(tokens, i + 2, (j - 1) as nat, node->parameters, moved(at, 2));
}

/// The parser finds the trees of the arguments of a call, which `)` ends.
pub proof fn lemma_arguments(
    tokens: Seq<TokenModel>,
    i: nat,
    j: nat,
    nodes: Seq<ExpressionModel>,
    at: Cursor,
)
    requires
        at.position == i,
        derives_arguments(tokens, i, j, nodes),
        kind_at(tokens, j) == TokenKind::Rbra,
    ensures
        parameter_list(tokens, at) == accepted(at, nodes, (j - i) as nat),
    decreases j - i, 7nat,
{
    if nodes.len() == 0 {
        assert(nodes =~= Seq::empty());
    } else {
        lemma_argument_list(tokens, i, j, nodes, at);
    }
}

/// The parser finds the trees of one or more arguments, which `)` ends.
#[verifier::rlimit(50)]
pub proof fn lemma_argument_list(
    tokens: Seq<TokenModel>,
    i: nat,
    j: nat,
    nodes: Seq<ExpressionModel>,
    at: Cursor,
)
    requires
        at.position == i,
        derives_argument_list(tokens, i, j, nodes),
        kind_at(tokens, j) == TokenKind::Rbra,
    ensures
        i < j,
        starts_expression(kind_at(tokens, i)),
        parameter_list(tokens, at) == accepted(at, nodes, (j - i) as nat),
    decreases j - i, 6nat,
{
    if nodes.len() == 1 {
        lemma_expression_start(tokens, i, j, nodes[0]);
        lemma_expression(tokens, i, j, nodes[0], at);
        let first = expression(tokens, at);
        assert(parameter_list_tail(tokens, at.after(first)) == at.after(first).pass(
            Seq::<ExpressionModel>::empty(),
        ));
        assert(seq![nodes[0]] + Seq::<ExpressionModel>::empty() =~= nodes);
    } else {
        let k = choose|k: nat|
            #[trigger] between(i, k, j) && derives_expression(tokens, i, k, nodes[0]) && kind_at(
                tokens,
                k,
            ) == TokenKind::Comma && derives_argument_list(tokens, k + 1, j, nodes.drop_first());
        lemma_expression_start(tokens, i, k, nodes[0]);
        lemma_expression(tokens, i, k, nodes[0], at);
        let first = expression(tokens, at);
        lemma_argument_tail(tokens, k, j, nodes.drop_first(), at.after(first));
        assert(seq![nodes[0]] + nodes.drop_first() =~= nodes);
    }
}

/// The parser finds the trees of the arguments after a comma, which `)`
/// ends.
#[verifier::rlimit(50)]
pub proof fn lemma_argument_tail(
    tokens: Seq<TokenModel>,
    k: nat,
    j: nat,
    nodes: Seq<ExpressionModel>,
    at: Cursor,
)
    requires
        at.position == k,
        kind_at(tokens, k) == TokenKind::Comma,
        derives_argument_list(tokens, k + 1, j, nodes),
        kind_at(tokens, j) == TokenKind::Rbra,
    ensures
        parameter_list_tail(tokens, at) == accepted(at, nodes, (j - k) as nat),
    decreases j - k, 3nat,
{
    let comma = eat(tokens, at, TokenKind::Comma);
    assert(comma == at.accept(()));
    let next = at.after(comma);
    if nodes.len() == 1 {
        lemma_expression_start(tokens, k + 1, j, nodes[0]);
        lemma_expression(tokens, k + 1, j, nodes[0], next);
        let first = comma.and(expression(tokens, next));
        assert(parameter_list_tail(tokens, at.after(first)) == at.after(first).pass(
            Seq::<ExpressionModel>::empty(),
        ));
        assert(seq![nodes[0]] + Seq::<ExpressionModel>::empty() =~= nodes);
    } else {
        let m = choose|m: nat|
            #[trigger] between(k + 1, m, j) && derives_expression(tokens, k + 1, m, nodes[0]) && kind_at(
                tokens,
                m,
            ) == TokenKind::Comma && derives_argument_list(tokens, m + 1, j, nodes.drop_first());
        lemma_expression_start(tokens, k + 1, m, nodes[0]);
        lemma_expression(tokens, k + 1, m, nodes[0], next);
        let first = comma.and(expression(tokens, next));
        lemma_argument_tail(tokens, m, j, nodes.drop_first(), at.after(first));
        assert(seq![nodes[0]] + nodes.drop_first() =~= nodes);
    }
}

/// Where the tokens from the cursor on derive a term, and no `(` follows
/// them, `term` reads them as that term and goes on from there.
#[verifier::rlimit(50)]
pub proof fn lemma_term_chain(
    tokens: Seq<TokenModel>,
    i: nat,
    j: nat,
    node: ExpressionModel,
    at: Cursor,
)
    requires
        at.position == i,
        derives_term(tokens, i, j, node),
        kind_at(tokens, j) != TokenKind::Lbra,
    ensures
        i < j,
        term(tokens, at) == continued(
            (j - i) as nat,
            term_prime(tokens, moved(at, (j - i) as nat), node),
        ),
    decreases j - i, 2nat,
{
    if derives_factor(tokens, i, j, node) {
        lemma_factor(tokens, i, j, node, at);
        assert(at.after(factor(tokens, at)) == moved(at, (j - i) as nat));
    } else {
        let k = choose|k: nat|
            #[trigger] between(i, k, j) && derives_term(tokens, i, k, *node->BinOp_left)
                && multiplicative_operator(kind_at(tokens, k)) == Some(node->BinOp_op)
                && derives_factor(tokens, k + 1, j, *node->BinOp_right);
        let left = *node->BinOp_left;
        let right = *node->BinOp_right;
        lemma_term_chain(tokens, i, k, left, at);
        let middle = moved(at, (k - i) as nat);
        let operator = eat(tokens, middle, kind_at(tokens, k));
        assert(operator == middle.accept(()));
        lemma_factor(tokens, k + 1, j, right, middle.after(operator));
        let after = operator.and(factor(tokens, middle.after(operator)));
        assert(middle.after(after) == moved(at, (j - i) as nat));
        assert(node == ExpressionModel::BinOp {
            left: Box::new(left),
            op: node->BinOp_op,
            right: Box::new(right),
        });
    }
}

/// The parser finds the tree of a term: where the tokens from the cursor on
/// derive a term, and neither `(` nor `*`, `/` or `%` follows them, `term`
/// consumes exactly these tokens, builds their tree and records nothing.
pub proof fn lemma_term(tokens: Seq<TokenModel>, i: nat, j: nat, node: ExpressionModel, at: Cursor)
    requires
        at.position == i,
        derives_term(tokens, i, j, node),
        kind_at(tokens, j) != TokenKind::Lbra,
        multiplicative_operator(kind_at(tokens, j)) is None,
    ensures
        i < j,
        term(tokens, at) == accepted(at, node, (j - i) as nat),
    decreases j - i, 3nat,
{
    lemma_term_chain(tokens, i, j, node, at);
    let end = moved(at, (j - i) as nat);
    assert(term_prime(tokens, end, node) == end.pass(node));
}

/// Where the tokens from the cursor on derive an expression, and neither
/// `(` nor `*`, `/` or `%` follows them, `expression` reads them as that
/// expression and goes on from there.
#[verifier::rlimit(50)]
pub proof fn lemma_expression_chain(
    tokens: Seq<TokenModel>,
    i: nat,
    j: nat,
    node: ExpressionModel,
    at: Cursor,
)
    requires
        at.position == i,
        derives_expression(tokens, i, j, node),
        kind_at(tokens, j) != TokenKind::Lbra,
        multiplicative_operator(kind_at(tokens, j)) is None,
    ensures
        i < j,
        expression(tokens, at) == continued(
            (j - i) as nat,
            expression_prime(tokens, moved(at, (j - i) as nat), node),
        ),
    decreases j - i, 4nat,
{
    if derives_term(tokens, i, j, node) {
        lemma_term(tokens, i, j, node, at);
        assert(at.after(term(tokens, at)) == moved(at, (j - i) as nat));
    } else {
        let k = choose|k: nat|
            #[trigger] between(i, k, j) && derives_expression(tokens, i, k, *node->BinOp_left)
                && additive_operator(kind_at(tokens, k)) == Some(node->BinOp_op) && derives_term(
                tokens,
                k + 1,
                j,
                *node->BinOp_right,
            );
        let left = *node->BinOp_left;
        let right = *node->BinOp_right;
        lemma_expression_chain(tokens, i, k, left, at);
        let middle = moved(at, (k - i) as nat);
        let operator = eat(tokens, middle, kind_at(tokens, k));
        assert(operator == middle.accept(()));
        lemma_term(tokens, k + 1, j, right, middle.after(operator));
        let after = operator.and(term(tokens, middle.after(operator)));
        assert(middle.after(after) == moved(at, (j - i) as nat));
        assert(node == ExpressionModel::BinOp {
            left: Box::new(left),
            op: node->BinOp_op,
            right: Box::new(right),
        });
    }
}

/// The parser finds the tree of an expression: where the tokens from the
/// cursor on derive an expression, and a token that may end one follows
/// them, `expression` consumes exactly these tokens, builds their tree and
/// records nothing.
pub proof fn lemma_expression(
    tokens: Seq<TokenModel>,
    i: nat,
    j: nat,
    node: ExpressionModel,
    at: Cursor,
)
    requires
        at.position == i,
        derives_expression(tokens, i, j, node),
        ends_expression(kind_at(tokens, j)),
    ensures
        i < j,
        expression(tokens, at) == accepted(at, node, (j - i) as nat),
    decreases j - i, 5nat,
{
    lemma_expression_chain(tokens, i, j, node, at);
    let end = moved(at, (j - i) as nat);
    assert(expression_prime(tokens, end, node) == end.pass(node));
}

/// Within a factor that begins with an identifier and has more tokens, no
/// `=` follows the identifier.
pub proof fn lemma_factor_second(tokens: Seq<TokenModel>, i: nat, j: nat, node: ExpressionModel)
    requires
        derives_factor(tokens, i, j, node),
        kind_at(tokens, i) == TokenKind::Id,
    ensures
        i + 1 < j ==> kind_at(tokens, i + 1) != TokenKind::Eq,
{
}

/// Within a term that begins with an identifier and has more tokens, no `=`
/// follows the identifier.
pub proof fn lemma_term_second(tokens: Seq<TokenModel>, i: nat, j: nat, node: ExpressionModel)
    requires
        derives_term(tokens, i, j, node),
        kind_at(tokens, i) == TokenKind::Id,
    ensures
        i + 1 < j ==> kind_at(tokens, i + 1) != TokenKind::Eq,
    decreases j - i,
{
    if derives_factor(tokens, i, j, node) {
        lemma_factor_second(tokens, i, j, node);
    } else {
        let k = choose|k: nat|
            #[trigger] between(i, k, j) && derives_term(tokens, i, k, *node->BinOp_left)
                && multiplicative_operator(kind_at(tokens, k)) == Some(node->BinOp_op)
                && derives_factor(tokens, k + 1, j, *node->BinOp_right);
        lemma_term_second(tokens, i, k, *node->BinOp_left);
    }
}

/// Within an expression that begins with an identifier and has more tokens,
/// no `=` follows the identifier.
pub proof fn lemma_expression_second(
    tokens: Seq<TokenModel>,
    i: nat,
    j: nat,
    node: ExpressionModel,
)
    requires
        derives_expression(tokens, i, j, node),
        kind_at(tokens, i) == TokenKind::Id,
    ensures
        i + 1 < j ==> kind_at(tokens, i + 1) != TokenKind::Eq,
    decreases j - i,
{
    if derives_term(tokens, i, j, node) {
        lemma_term_second(tokens, i, j, node);
    } else {
        let k = choose|k: nat|
            #[trigger] between(i, k, j) && derives_expression(tokens, i, k, *node->BinOp_left)
                && additive_operator(kind_at(tokens, k)) == Some(node->BinOp_op) && derives_term(
                tokens,
                k + 1,
                j,
                *node->BinOp_right,
            );
        lemma_expression_second(tokens, i, k, *node->BinOp_left);
    }
}

/// A range that derives a statement begins with a token that begins a
/// statement.
pub proof fn lemma_statement_start(tokens: Seq<TokenModel>, i: nat, j: nat, node: StatementModel)
    requires
        derives_statement(tokens, i, j, node),
    ensures
        i < j,
        starts_statement(kind_at(tokens, i)),
{
    match node {
        StatementModel::Expression(value) => {
            lemma_expression_start(tokens, i, (j - 1) as nat, value);
        },
        _ => {},
    }
}

/// The parser finds the trees of a condition and of the block that it
/// guards. The result is the position of the `{`.
#[verifier::rlimit(50)]
pub proof fn lemma_guarded(
    tokens: Seq<TokenModel>,
    i: nat,
    j: nat,
    condition: ExpressionModel,
    nodes: Seq<StatementModel>,
    at: Cursor,
) -> (k: nat)
    requires
        at.position == i,
        derives_guarded(tokens, i, j, condition, nodes),
    ensures
        i < k,
        k + 2 <= j,
        expression(tokens, at) == accepted(at, condition, (k - i) as nat),
        kind_at(tokens, k) == TokenKind::Lcur,
        body(tokens, moved(at, (k + 1 - i) as nat)) == accepted(
            moved(at, (k + 1 - i) as nat),
            nodes,
            (j - k - 2) as nat,
        ),
        kind_at(tokens, (j - 1) as nat) == TokenKind::Rcur,
    decreases j - i, 0nat,
{
    let k = choose|k: nat|
        #[trigger] between(i, k, j) && derives_expression(tokens, i, k, condition)
            && derives_block(tokens, k, j, nodes);
    lemma_expression(tokens, i, k, condition, at);
    lemma_body(tokens, k + 1, (j - 1) as nat, nodes, moved(at, (k + 1 - i) as nat));
    k
}

/// The parser finds the trees of the statements of a body, which `}` ends.
#[verifier::rlimit(50)]
pub proof fn lemma_body(
    tokens: Seq<TokenModel>,
    i: nat,
    j: nat,
    nodes: Seq<StatementModel>,
    at: Cursor,
)
    requires
        at.position == i,
        derives_body(tokens, i, j, nodes),
        kind_at(tokens, j) == TokenKind::Rcur,
    ensures
        i <= j,
        body(tokens, at) == accepted(at, nodes, (j - i) as nat),
    decreases j - i, 4nat,
{
    if nodes.len() == 0 {
        assert(nodes =~= Seq::empty());
    } else {
        let k = choose|k: nat|
            #[trigger] within(i, k, j) && derives_statement(tokens, i, k, nodes[0])
                && derives_body(tokens, k, j, nodes.drop_first());
        let rest = nodes.drop_first();
        lemma_statement_start(tokens, i, k, nodes[0]);
        if rest.len() > 0 {
            let m = choose|m: nat|
                #[trigger] within(k, m, j) && derives_statement(tokens, k, m, rest[0])
                    && derives_body(tokens, m, j, rest.drop_first());
            lemma_statement_start(tokens, k, m, rest[0]);
        }
        lemma_statement(tokens, i, k, nodes[0], at);
        let first = statement(tokens, at);
        lemma_body(tokens, k, j, rest, at.after(first));
        assert(seq![nodes[0]] + rest =~= nodes);
    }
}

/// The parser finds the tree of a statement without a block.
#[verifier::rlimit(50)]
pub proof fn lemma_non_block_statement(
    tokens: Seq<TokenModel>,
    i: nat,
    j: nat,
    node: StatementModel,
    at: Cursor,
)
    requires
        at.position == i,
        derives_statement(tokens, i, j, node),
        !(node is If),
        !(node is While),
    ensures
        i < j,
        starts_non_block(kind_at(tokens, i)),
        non_block_statement(tokens, at) == accepted(at, node, (j - 1 - i) as nat),
        kind_at(tokens, (j - 1) as nat) == TokenKind::Semi,
{
    let last = (j - 1) as nat;
    match node {
        StatementModel::Declaration { variable, datatype, value } => {
            lemma_expression(tokens, i + 5, last, value, moved(at, 5));
            let keyword = eat(tokens, at, TokenKind::Let);
            let name = keyword.and(identifier(tokens, at.after(keyword)));
            let colon = name.and(eat(tokens, at.after(name), TokenKind::Colon));
            let kind = colon.and(parse_type(tokens, at.after(colon)));
            let equals = kind.and(eat(tokens, at.after(kind), TokenKind::Eq));
            assert(at.after(equals) == moved(at, 5));
            assert(declaration_statement(tokens, at) == accepted(at, node, (last - i) as nat));
        },
        StatementModel::VariableAssignment { variable, value } => {
            lemma_expression(tokens, i + 2, last, value, moved(at, 2));
            let name = lvalue(tokens, at);
            let equals = name.and(eat(tokens, at.after(name), TokenKind::Eq));
            assert(at.after(equals) == moved(at, 2));
            assert(assignment_statement(tokens, at) == accepted(at, node, (last - i) as nat));
        },
        StatementModel::Return(None) => {
            let keyword = eat(tokens, at, TokenKind::Return);
            assert(at.after(keyword) == moved(at, 1));
            assert(maybe_expression(tokens, moved(at, 1)) == moved(at, 1).pass(
                None::<ExpressionModel>,
            ));
            assert(return_statement(tokens, at) == accepted(at, None::<ExpressionModel>, 1));
        },
        StatementModel::Return(Some(value)) => {
            lemma_expression_start(tokens, i + 1, last, value);
            lemma_expression(tokens, i + 1, last, value, moved(at, 1));
            let keyword = eat(tokens, at, TokenKind::Return);
            assert(at.after(keyword) == moved(at, 1));
            assert(maybe_expression(tokens, moved(at, 1)) == accepted(
                moved(at, 1),
                Some(value),
                (last - i - 1) as nat,
            ));
            assert(return_statement(tokens, at) == accepted(
                at,
                Some(value),
                (last - i) as nat,
            ));
        },
        StatementModel::Expression(value) => {
            lemma_expression_start(tokens, i, last, value);
            lemma_expression(tokens, i, last, value, at);
            if kind_at(tokens, i) == TokenKind::Id {
                lemma_expression_second(tokens, i, last, value);
            }
        },
        _ => {},
    }
}

/// The parser finds the tree of a `while` statement.
#[verifier::rlimit(50)]
pub proof fn lemma_while(
    tokens: Seq<TokenModel>,
    i: nat,
    j: nat,
    condition: ExpressionModel,
    block: Seq<StatementModel>,
    at: Cursor,
)
    requires
        at.position == i,
        i < j,
        kind_at(tokens, i) == TokenKind::While,
        derives_guarded(tokens, i + 1, j, condition, block),
    ensures
        while_statement(tokens, at) == accepted(
            at,
            StatementModel::While { condition, body: block },
            (j - i) as nat,
        ),
    decreases j - i, 1nat,
{
    let keyword = eat(tokens, at, TokenKind::While);
    assert(at.after(keyword) == moved(at, 1));
    let k = lemma_guarded(tokens, i + 1, j, condition, block, moved(at, 1));
    let test = keyword.and(expression(tokens, at.after(keyword)));
    assert(at.after(test) == moved(at, (k - i) as nat));
    let open = test.and(eat(tokens, at.after(test), TokenKind::Lcur));
    assert(at.after(open) == moved(at, (k + 1 - i) as nat));
    let inner = open.and(body(tokens, at.after(open)));
    assert(at.after(inner) == moved(at, (j - 1 - i) as nat));
}

/// The parser finds the tree of a statement: where the tokens from the
/// cursor on derive a statement, and no `else` follows them, `statement`
/// consumes exactly these tokens, builds their tree and records nothing.
#[verifier::rlimit(50)]
pub proof fn lemma_statement(
    tokens: Seq<TokenModel>,
    i: nat,
    j: nat,
    node: StatementModel,
    at: Cursor,
)
    requires
        at.position == i,
        derives_statement(tokens, i, j, node),
        kind_at(tokens, j) != TokenKind::Else,
    ensures
        i < j,
        statement(tokens, at) == accepted(at, node, (j - i) as nat),
    decreases j - i, 3nat,
{
    match node {
        StatementModel::If(chain) => {
            lemma_if(tokens, i, j, chain, at);
            assert(block_statement(tokens, at) == accepted(at, node, (j - i) as nat));
        },
        StatementModel::While { condition, body: block } => {
            lemma_while(tokens, i, j, condition, block, at);
            assert(block_statement(tokens, at) == accepted(at, node, (j - i) as nat));
        },
        _ => {
            lemma_non_block_statement(tokens, i, j, node, at);
            let content = non_block_statement(tokens, at);
            assert(at.after(content) == moved(at, (j - 1 - i) as nat));
        },
    }
}

/// The parser finds the tree of an `if` chain, which no `else` follows.
#[verifier::rlimit(50)]
pub proof fn lemma_if(tokens: Seq<TokenModel>, i: nat, j: nat, chain: IfModel, at: Cursor)
    requires
        at.position == i,
        derives_if(tokens, i, j, chain),
        kind_at(tokens, j) != TokenKind::Else,
    ensures
        i < j,
        if_statement(tokens, at) == accepted(at, chain, (j - i) as nat),
    decreases j - i, 1nat,
{
    let condition = chain.condition->0;
    let keyword = eat(tokens, at, TokenKind::If);
    assert(at.after(keyword) == moved(at, 1));
    match chain.tail {
        None => {
            let k = lemma_guarded(tokens, i + 1, j, condition, chain.body, moved(at, 1));
            let test = keyword.and(expression(tokens, at.after(keyword)));
            assert(at.after(test) == moved(at, (k - i) as nat));
            let open = test.and(eat(tokens, at.after(test), TokenKind::Lcur));
            assert(at.after(open) == moved(at, (k + 1 - i) as nat));
            let inner = open.and(body(tokens, at.after(open)));
            assert(at.after(inner) == moved(at, (j - 1 - i) as nat));
            let close = inner.and(eat(tokens, at.after(inner), TokenKind::Rcur));
            assert(at.after(close) == moved(at, (j - i) as nat));
            assert(maybe_else_statement(tokens, at.after(close)) == at.after(close).pass(
                None::<IfModel>,
            ));
        },
        Some(next) => {
            let m = choose|m: nat|
                #[trigger] between(i + 1, m, j) && derives_guarded(
                    tokens,
                    i + 1,
                    m,
                    condition,
                    chain.body,
                ) && kind_at(tokens, m) == TokenKind::Else && derives_else(
                    tokens,
                    m + 1,
                    j,
                    *next,
                );
            let k = lemma_guarded(tokens, i + 1, m, condition, chain.body, moved(at, 1));
            let test = keyword.and(expression(tokens, at.after(keyword)));
            assert(at.after(test) == moved(at, (k - i) as nat));
            let open = test.and(eat(tokens, at.after(test), TokenKind::Lcur));
            assert(at.after(open) == moved(at, (k + 1 - i) as nat));
            let inner = open.and(body(tokens, at.after(open)));
            assert(at.after(inner) == moved(at, (m - 1 - i) as nat));
            let close = inner.and(eat(tokens, at.after(inner), TokenKind::Rcur));
            let after = moved(at, (m - i) as nat);
            assert(at.after(close) == after);
            let word = eat(tokens, after, TokenKind::Else);
            assert(after.after(word) == moved(at, (m + 1 - i) as nat));
            lemma_else(tokens, m + 1, j, *next, moved(at, (m + 1 - i) as nat));
            assert(maybe_else_statement(tokens, after) == accepted(
                after,
                Some(*next),
                (j - m) as nat,
            ));
        },
    }
}

/// The parser finds the tree of what follows an `else`, which no further
/// `else` follows.
#[verifier::rlimit(50)]
pub proof fn lemma_else(tokens: Seq<TokenModel>, i: nat, j: nat, chain: IfModel, at: Cursor)
    requires
        at.position == i,
        derives_else(tokens, i, j, chain),
        kind_at(tokens, j) != TokenKind::Else,
    ensures
        i < j,
        else_statement(tokens, at) == accepted(at, chain, (j - i) as nat),
    decreases j - i, 2nat,
{
    match chain.condition {
        Some(_) => {
            lemma_if(tokens, i, j, chain, at);
        },
        None => {
            let open = eat(tokens, at, TokenKind::Lcur);
            assert(at.after(open) == moved(at, 1));
            lemma_body(tokens, i + 1, (j - 1) as nat, chain.body, moved(at, 1));
            let inner = open.and(body(tokens, at.after(open)));
            assert(at.after(inner) == moved(at, (j - 1 - i) as nat));
        },
    }
}

/// The parser finds the parameters after a comma, which no comma follows.
pub proof fn lemma_parameter_tail(
    tokens: Seq<TokenModel>,
    k: nat,
    j: nat,
    nodes: Seq<ParameterModel>,
    at: Cursor,
)
    requires
        at.position == k,
        kind_at(tokens, k) == TokenKind::Comma,
        derives_parameter_list(tokens, k + 1, j, nodes),
        kind_at(tokens, j) != TokenKind::Comma,
    ensures
        k < j,
        parameter_declaration_tail(tokens, at) == accepted(at, nodes, (j - k) as nat),
    decreases nodes.len(),
{
    let comma = eat(tokens, at, TokenKind::Comma);
    assert(at.after(comma) == moved(at, 1));
    let parameter = parameter_declaration(tokens, moved(at, 1));
    assert(parameter == accepted(moved(at, 1), nodes[0], 3));
    let first = comma.and(parameter);
    assert(at.after(first) == moved(at, 4));
    if nodes.len() == 1 {
        assert(parameter_declaration_tail(tokens, moved(at, 4)) == moved(at, 4).pass(
            Seq::<ParameterModel>::empty(),
        ));
        assert(seq![nodes[0]] + Seq::<ParameterModel>::empty() =~= nodes);
    } else {
        lemma_parameter_tail(tokens, k + 4, j, nodes.drop_first(), moved(at, 4));
        assert(seq![nodes[0]] + nodes.drop_first() =~= nodes);
    }
}

/// The parser finds the parameters of a function, which `)` ends.
pub proof fn lemma_parameters(
    tokens: Seq<TokenModel>,
    i: nat,
    j: nat,
    nodes: Seq<ParameterModel>,
    at: Cursor,
)
    requires
        at.position == i,
        derives_parameters(tokens, i, j, nodes),
        kind_at(tokens, j) == TokenKind::Rbra,
    ensures
        i <= j,
        parameter_declaration_list(tokens, at) == accepted(at, nodes, (j - i) as nat),
{
    if nodes.len() == 0 {
        assert(nodes =~= Seq::empty());
    } else {
        let parameter = parameter_declaration(tokens, at);
        assert(parameter == accepted(at, nodes[0], 3));
        assert(at.after(parameter) == moved(at, 3));
        if nodes.len() == 1 {
            assert(parameter_declaration_tail(tokens, moved(at, 3)) == moved(at, 3).pass(
                Seq::<ParameterModel>::empty(),
            ));
            assert(seq![nodes[0]] + Seq::<ParameterModel>::empty() =~= nodes);
        } else {
            lemma_parameter_tail(tokens, i + 3, j, nodes.drop_first(), moved(at, 3));
            assert(seq![nodes[0]] + nodes.drop_first() =~= nodes);
        }
    }
}

/// The parser finds the tree of a function.
#[verifier::rlimit(50)]
pub proof fn lemma_function(
    tokens: Seq<TokenModel>,
    i: nat,
    j: nat,
    node: FunctionModel,
    at: Cursor,
)
    requires
        at.position == i,
        derives_function(tokens, i, j, node),
    ensures
        i < j,
        function(tokens, at) == accepted(at, node, (j - i) as nat),
{
    let p = choose|p: nat|
        #[trigger] between(i + 2, p, j) && derives_parameters(tokens, i + 3, p, node.parameters)
            && kind_at(tokens, p) == TokenKind::Rbra && kind_at(tokens, p + 1) == TokenKind::Arrow
            && type_at(tokens, p + 2, node.return_type) && derives_block(
            tokens,
            p + 3,
            j,
            node.body,
        );
    let keyword = eat(tokens, at, TokenKind::Fn);
    let name = keyword.and(identifier(tokens, at.after(keyword)));
    let open = name.and(eat(tokens, at.after(name), TokenKind::Lbra));
    assert(at.after(open) == moved(at, 3));
    lemma_parameters(tokens, i + 3, p, node.parameters, moved(at, 3));
    let parameters = open.and(parameter_declaration_list(tokens, at.after(open)));
    assert(at.after(parameters) == moved(at, (p - i) as nat));
    let close = parameters.and(eat(tokens, at.after(parameters), TokenKind::Rbra));
    let arrow = close.and(eat(tokens, at.after(close), TokenKind::Arrow));
    assert(at.after(arrow) == moved(at, (p + 2 - i) as nat));
    let return_type = arrow.and(parse_type(tokens, at.after(arrow)));
    let begin = return_type.and(eat(tokens, at.after(return_type), TokenKind::Lcur));
    assert(at.after(begin) == moved(at, (p + 4 - i) as nat));
    lemma_body(tokens, p + 4, (j - 1) as nat, node.body, moved(at, (p + 4 - i) as nat));
    let block = begin.and(body(tokens, at.after(begin)));
    assert(at.after(block) == moved(at, (j - 1 - i) as nat));
}

/// The parser finds the trees of the functions of a program, which the end
/// marker ends.
pub proof fn lemma_function_list(
    tokens: Seq<TokenModel>,
    i: nat,
    j: nat,
    nodes: Seq<DeclarationModel>,
    at: Cursor,
)
    requires
        at.position == i,
        derives_function_list(tokens, i, j, nodes),
        kind_at(tokens, j) == TokenKind::End,
    ensures
        i <= j,
        function_list(tokens, at) == accepted(at, nodes, (j - i) as nat),
    decreases nodes.len(),
{
    if nodes.len() == 0 {
        assert(nodes =~= Seq::empty());
    } else {
        let k = choose|k: nat|
            #[trigger] within(i, k, j) && derives_function(tokens, i, k, nodes[0]->Function_0)
                && derives_function_list(tokens, k, j, nodes.drop_first());
        lemma_function(tokens, i, k, nodes[0]->Function_0, at);
        let first = function(tokens, at);
        lemma_function_list(tokens, k, j, nodes.drop_first(), at.after(first));
        assert(seq![DeclarationModel::Function(first.node)] + nodes.drop_first() =~= nodes);
    }
}

/// Every program of the grammar parses cleanly: where a token stream, up to
/// an end marker, is a program of the grammar, the parser builds the tree of
/// that program and records no diagnostic. The program then has one
/// declaration for each function of the source.
pub proof fn lemma_accepted_program_parses_cleanly(tokens: Seq<TokenModel>, node: ProgramModel)
    requires
        derives_program(tokens, node),
    ensures
        program(tokens).node == node,
        program(tokens).errors == Seq::<DiagnosticModel>::empty(),
        kind_at(tokens, program(tokens).consumed) == TokenKind::End,
{
    let n = choose|n: nat|
        #[trigger] kind_at(tokens, n) == TokenKind::End && derives_function_list(
            tokens,
            0,
            n,
            node.declarations,
        );
    lemma_function_list(tokens, 0, n, node.declarations, Cursor::start());
}

/// Parsing is a function of the tokens: two parsers that have parsed the
/// same token stream hold the same program and the same diagnostics, and
/// have stopped at the same position.
pub proof fn lemma_same_tokens_same_parse(first: Parser, second: Parser)
    requires
        first.holds(program(first.tokens())),
        second.holds(program(second.tokens())),
        first.tokens() == second.tokens(),
    ensures
        first.parsed() == second.parsed(),
        first.diagnostics() == second.diagnostics(),
        first.position() == second.position(),
{
}

} // verus!
