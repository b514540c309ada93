//! One declaration for each `fn`: what holds of the parse of every token
//! stream, valid or not.
//!
//! No production but `function` moves the position over a `fn`, and none
//! moves it over an end marker. So a parse ends at the first end marker of
//! the stream, and has made one declaration for each `fn` before it.

use crate::grammar::{
    additive_operator, assignment_statement, block_statement, body, declaration_statement, eat,
    else_statement, expression, expression_prime, factor, function, function_call,
    function_list, identifier, if_statement, kind_at, maybe_else_statement, maybe_expression,
    multiplicative_operator, non_block_statement, parameter_declaration,
    parameter_declaration_list, parameter_declaration_tail, parameter_list,
    parameter_list_tail, parse_type, program, return_statement, starts_block,
    starts_non_block, starts_statement, statement, stray_tokens, term, term_prime, tokens_left,
    unexpected, while_statement, Cursor,
};
use crate::model::ExpressionModel;
use crate::token::{TokenKind, TokenModel};
use vstd::prelude::*;

verus! {

/// The number of `fn` tokens among the first `n` tokens of the stream.
pub open spec fn fn_tokens(tokens: Seq<TokenModel>, n: nat) -> nat
    decreases n,
{
    if n == 0 {
        0
    } else if kind_at(tokens, (n - 1) as nat) == TokenKind::Fn {
        fn_tokens(tokens, (n - 1) as nat) + 1
    } else {
        fn_tokens(tokens, (n - 1) as nat)
    }
}

/// Whether the token at position `k` is neither a `fn` nor an end marker.
pub open spec fn plain_at(tokens: Seq<TokenModel>, k: nat) -> bool {
    kind_at(tokens, k) != TokenKind::Fn && kind_at(tokens, k) != TokenKind::End
}

/// Whether none of the `n` tokens from position `i` on is a `fn` or an end
/// marker.
pub open spec fn plain(tokens: Seq<TokenModel>, i: nat, n: nat) -> bool {
    forall|k: nat| i <= k < i + n ==> #[trigger] plain_at(tokens, k)
}

/// Plain tokens add nothing to the number of `fn` tokens.
proof fn lemma_plain_count(tokens: Seq<TokenModel>, i: nat, n: nat)
    requires
        plain(tokens, i, n),
    ensures
        fn_tokens(tokens, i + n) == fn_tokens(tokens, i),
    decreases n,
{
    if n > 0 {
        assert(plain_at(tokens, (i + n - 1) as nat));
        lemma_plain_count(tokens, i, (n - 1) as nat);
    }
}

/// `factor` moves over plain tokens only.
proof fn lemma_factor_plain(tokens: Seq<TokenModel>, at: Cursor)
    ensures
        plain(tokens, at.position, factor(tokens, at).consumed),
    decreases tokens_left(tokens, at.position), 1nat,
{
    let kind = kind_at(tokens, at.position);
    if kind == TokenKind::Id && kind_at(tokens, at.position + 1) == TokenKind::Lbra {
        lemma_function_call_plain(tokens, at);
    } else if kind == TokenKind::Lbra {
        let inner = Cursor { position: at.position + 1, errors: at.errors };
        lemma_expression_plain(tokens, inner);
    }
}

/// `function_call` moves over plain tokens only.
proof fn lemma_function_call_plain(tokens: Seq<TokenModel>, at: Cursor)
    ensures
        plain(tokens, at.position, function_call(tokens, at).consumed),
    decreases tokens_left(tokens, at.position), 0nat,
{
    if kind_at(tokens, at.position) == TokenKind::Id && kind_at(tokens, at.position + 1)
        == TokenKind::Lbra {
        let inner = Cursor { position: at.position + 2, errors: at.errors };
        lemma_parameter_list_plain(tokens, inner);
    }
}

/// `parameter_list` moves over plain tokens only.
proof fn lemma_parameter_list_plain(tokens: Seq<TokenModel>, at: Cursor)
    ensures
        plain(tokens, at.position, parameter_list(tokens, at).consumed),
    decreases tokens_left(tokens, at.position), 4nat,
{
    let first = expression(tokens, at);
    lemma_expression_plain(tokens, at);
    lemma_parameter_list_tail_plain(tokens, at.after(first));
}

/// `parameter_list_tail` moves over plain tokens only.
proof fn lemma_parameter_list_tail_plain(tokens: Seq<TokenModel>, at: Cursor)
    ensures
        plain(tokens, at.position, parameter_list_tail(tokens, at).consumed),
    decreases tokens_left(tokens, at.position), 0nat,
{
    if kind_at(tokens, at.position) == TokenKind::Comma {
        let next = Cursor { position: at.position + 1, errors: at.errors };
        let first = expression(tokens, next);
        lemma_expression_plain(tokens, next);
        lemma_parameter_list_tail_plain(tokens, next.after(first));
    }
}

/// `term` moves over plain tokens only.
proof fn lemma_term_plain(tokens: Seq<TokenModel>, at: Cursor)
    ensures
        plain(tokens, at.position, term(tokens, at).consumed),
    decreases tokens_left(tokens, at.position), 2nat,
{
    let first = factor(tokens, at);
    lemma_factor_plain(tokens, at);
    lemma_term_prime_plain(tokens, at.after(first), first.node);
}

/// `term_prime` moves over plain tokens only.
proof fn lemma_term_prime_plain(tokens: Seq<TokenModel>, at: Cursor, left: ExpressionModel)
    ensures
        plain(tokens, at.position, term_prime(tokens, at, left).consumed),
    decreases tokens_left(tokens, at.position), 0nat,
{
    let kind = kind_at(tokens, at.position);
    if kind == TokenKind::Mul || kind == TokenKind::Div || kind == TokenKind::Mod {
        let next = Cursor { position: at.position + 1, errors: at.errors };
        let right = factor(tokens, next);
        lemma_factor_plain(tokens, next);
        lemma_term_prime_plain(
            tokens,
            next.after(right),
            ExpressionModel::BinOp {
                left: Box::new(left),
                op: multiplicative_operator(kind)->0,
                right: Box::new(right.node),
            },
        );
    }
}

/// `expression` moves over plain tokens only.
proof fn lemma_expression_plain(tokens: Seq<TokenModel>, at: Cursor)
    ensures
        plain(tokens, at.position, expression(tokens, at).consumed),
    decreases tokens_left(tokens, at.position), 3nat,
{
    let first = term(tokens, at);
    lemma_term_plain(tokens, at);
    lemma_expression_prime_plain(tokens, at.after(first), first.node);
}

/// `expression_prime` moves over plain tokens only.
proof fn lemma_expression_prime_plain(tokens: Seq<TokenModel>, at: Cursor, left: ExpressionModel)
    ensures
        plain(tokens, at.position, expression_prime(tokens, at, left).consumed),
    decreases tokens_left(tokens, at.position), 0nat,
{
    let kind = kind_at(tokens, at.position);
    if kind == TokenKind::Plus || kind == TokenKind::Min {
        let next = Cursor { position: at.position + 1, errors: at.errors };
        let right = term(tokens, next);
        lemma_term_plain(tokens, next);
        lemma_expression_prime_plain(
            tokens,
            next.after(right),
            ExpressionModel::BinOp {
                left: Box::new(left),
                op: additive_operator(kind)->0,
                right: Box::new(right.node),
            },
        );
    }
}

/// `non_block_statement` moves over plain tokens only.
#[verifier::rlimit(50)]
proof fn lemma_non_block_statement_plain(tokens: Seq<TokenModel>, at: Cursor)
    ensures
        plain(tokens, at.position, non_block_statement(tokens, at).consumed),
{
    let kind = kind_at(tokens, at.position);
    if kind == TokenKind::Let {
        let found = declaration_statement(tokens, at);
        assert(plain(tokens, at.position, found.consumed)) by {
            let head = eat(tokens, at, TokenKind::Let);
            let name = head.and(identifier(tokens, at.after(head)));
            let colon = name.and(eat(tokens, at.after(name), TokenKind::Colon));
            let kind = colon.and(parse_type(tokens, at.after(colon)));
            let equals = kind.and(eat(tokens, at.after(kind), TokenKind::Eq));
            lemma_expression_plain(tokens, at.after(equals));
        }
    } else if kind == TokenKind::Id && kind_at(tokens, at.position + 1) == TokenKind::Eq {
        let found = assignment_statement(tokens, at);
        assert(plain(tokens, at.position, found.consumed)) by {
            let next = Cursor { position: at.position + 2, errors: at.errors };
            lemma_expression_plain(tokens, next);
        }
    } else if kind == TokenKind::Return {
        let found = return_statement(tokens, at);
        assert(plain(tokens, at.position, found.consumed)) by {
            let next = Cursor { position: at.position + 1, errors: at.errors };
            lemma_expression_plain(tokens, next);
            assert(maybe_expression(tokens, next).consumed <= expression(tokens, next).consumed);
        }
    } else {
        lemma_expression_plain(tokens, at);
    }
}

/// `body` moves over plain tokens only.
proof fn lemma_body_plain(tokens: Seq<TokenModel>, at: Cursor)
    ensures
        plain(tokens, at.position, body(tokens, at).consumed),
    decreases tokens_left(tokens, at.position), 4nat,
{
    if starts_statement(kind_at(tokens, at.position)) {
        let first = statement(tokens, at);
        lemma_statement_plain(tokens, at);
        if first.consumed > 0 {
            lemma_body_plain(tokens, at.after(first));
        }
    }
}

/// `statement` moves over plain tokens only.
proof fn lemma_statement_plain(tokens: Seq<TokenModel>, at: Cursor)
    ensures
        plain(tokens, at.position, statement(tokens, at).consumed),
    decreases tokens_left(tokens, at.position), 3nat,
{
    let kind = kind_at(tokens, at.position);
    if starts_non_block(kind) {
        lemma_non_block_statement_plain(tokens, at);
    } else if starts_block(kind) {
        lemma_block_statement_plain(tokens, at);
    }
}

/// `block_statement` moves over plain tokens only.
proof fn lemma_block_statement_plain(tokens: Seq<TokenModel>, at: Cursor)
    ensures
        plain(tokens, at.position, block_statement(tokens, at).consumed),
    decreases tokens_left(tokens, at.position), 2nat,
{
    let kind = kind_at(tokens, at.position);
    if kind == TokenKind::If {
        lemma_if_statement_plain(tokens, at);
    } else if kind == TokenKind::While {
        lemma_while_statement_plain(tokens, at);
    }
}

/// The tokens of a condition and of the block that it guards are plain.
/// The result is the number of these tokens.
#[verifier::rlimit(50)]
proof fn lemma_guarded_plain(tokens: Seq<TokenModel>, at: Cursor) -> (width: nat)
    requires
        kind_at(tokens, at.position) != TokenKind::End,
    ensures
        plain(tokens, at.position + 1, width),
        ({
            let next = Cursor { position: at.position + 1, errors: at.errors };
            let test = expression(tokens, next);
            let open = test.and(eat(tokens, next.after(test), TokenKind::Lcur));
            let block = open.and(body(tokens, next.after(open)));
            let close = block.and(eat(tokens, next.after(block), TokenKind::Rcur));
            width == close.consumed
        }),
    decreases tokens_left(tokens, at.position), 0nat,
{
    let next = Cursor { position: at.position + 1, errors: at.errors };
    let test = expression(tokens, next);
    lemma_expression_plain(tokens, next);
    let open = test.and(eat(tokens, next.after(test), TokenKind::Lcur));
    lemma_body_plain(tokens, next.after(open));
    let block = open.and(body(tokens, next.after(open)));
    let close = block.and(eat(tokens, next.after(block), TokenKind::Rcur));
    close.consumed
}

/// `if_statement` moves over plain tokens only.
#[verifier::rlimit(50)]
proof fn lemma_if_statement_plain(tokens: Seq<TokenModel>, at: Cursor)
    requires
        kind_at(tokens, at.position) == TokenKind::If,
    ensures
        plain(tokens, at.position, if_statement(tokens, at).consumed),
    decreases tokens_left(tokens, at.position), 1nat,
{
    lemma_guarded_plain(tokens, at);
    let next = Cursor { position: at.position + 1, errors: at.errors };
    let test = expression(tokens, next);
    let open = test.and(eat(tokens, next.after(test), TokenKind::Lcur));
    let block = open.and(body(tokens, next.after(open)));
    let close = block.and(eat(tokens, next.after(block), TokenKind::Rcur));
    lemma_maybe_else_statement_plain(tokens, next.after(close));
}

/// `maybe_else_statement` moves over plain tokens only.
proof fn lemma_maybe_else_statement_plain(tokens: Seq<TokenModel>, at: Cursor)
    ensures
        plain(tokens, at.position, maybe_else_statement(tokens, at).consumed),
    decreases tokens_left(tokens, at.position), 0nat,
{
    if kind_at(tokens, at.position) == TokenKind::Else {
        let next = Cursor { position: at.position + 1, errors: at.errors };
        lemma_else_statement_plain(tokens, next);
    }
}

/// `else_statement` moves over plain tokens only.
proof fn lemma_else_statement_plain(tokens: Seq<TokenModel>, at: Cursor)
    ensures
        plain(tokens, at.position, else_statement(tokens, at).consumed),
    decreases tokens_left(tokens, at.position), 2nat,
{
    let kind = kind_at(tokens, at.position);
    if kind == TokenKind::If {
        lemma_if_statement_plain(tokens, at);
    } else if kind == TokenKind::Lcur {
        let next = Cursor { position: at.position + 1, errors: at.errors };
        lemma_body_plain(tokens, next);
    }
}

/// `while_statement` moves over plain tokens only.
proof fn lemma_while_statement_plain(tokens: Seq<TokenModel>, at: Cursor)
    requires
        kind_at(tokens, at.position) == TokenKind::While,
    ensures
        plain(tokens, at.position, while_statement(tokens, at).consumed),
    decreases tokens_left(tokens, at.position), 1nat,
{
    lemma_guarded_plain(tokens, at);
}

/// `parameter_declaration_tail` moves over plain tokens only.
proof fn lemma_parameter_declaration_tail_plain(tokens: Seq<TokenModel>, at: Cursor)
    ensures
        plain(tokens, at.position, parameter_declaration_tail(tokens, at).consumed),
    decreases tokens_left(tokens, at.position),
{
    if kind_at(tokens, at.position) == TokenKind::Comma {
        let next = Cursor { position: at.position + 1, errors: at.errors };
        let first = parameter_declaration(tokens, next);
        lemma_parameter_declaration_tail_plain(tokens, next.after(first));
    }
}

/// `parameter_declaration_list` moves over plain tokens only.
proof fn lemma_parameter_declaration_list_plain(tokens: Seq<TokenModel>, at: Cursor)
    ensures
        plain(tokens, at.position, parameter_declaration_list(tokens, at).consumed),
{
    if kind_at(tokens, at.position) == TokenKind::Id {
        let first = parameter_declaration(tokens, at);
        lemma_parameter_declaration_tail_plain(tokens, at.after(first));
    }
}

/// Of the tokens of a function, only the first is a `fn`, and none is an
/// end marker.
#[verifier::rlimit(50)]
proof fn lemma_function_plain(tokens: Seq<TokenModel>, at: Cursor)
    requires
        kind_at(tokens, at.position) == TokenKind::Fn,
    ensures
        function(tokens, at).consumed >= 1,
        plain(tokens, at.position + 1, (function(tokens, at).consumed - 1) as nat),
{
    let keyword = eat(tokens, at, TokenKind::Fn);
    let name = keyword.and(identifier(tokens, at.after(keyword)));
    let open = name.and(eat(tokens, at.after(name), TokenKind::Lbra));
    lemma_parameter_declaration_list_plain(tokens, at.after(open));
    let parameters = open.and(parameter_declaration_list(tokens, at.after(open)));
    let close = parameters.and(eat(tokens, at.after(parameters), TokenKind::Rbra));
    let arrow = close.and(eat(tokens, at.after(close), TokenKind::Arrow));
    let return_type = arrow.and(parse_type(tokens, at.after(arrow)));
    let begin = return_type.and(
        eat(tokens, at.after(return_type), TokenKind::Lcur),
    );
    lemma_body_plain(tokens, at.after(begin));
}

/// The tokens up to the next `fn` or end marker are plain, and a `fn` or an
/// end marker follows them.
proof fn lemma_stray_tokens_plain(tokens: Seq<TokenModel>, i: nat)
    ensures
        plain(tokens, i, stray_tokens(tokens, i)),
        kind_at(tokens, i + stray_tokens(tokens, i)) == TokenKind::Fn || kind_at(
            tokens,
            i + stray_tokens(tokens, i),
        ) == TokenKind::End,
    decreases tokens_left(tokens, i),
{
    if !(kind_at(tokens, i) == TokenKind::Fn || kind_at(tokens, i) == TokenKind::End) {
        lemma_stray_tokens_plain(tokens, i + 1);
    }
}

/// A list of functions has one declaration for each `fn` that it moves
/// over; it moves over no end marker, and ends at one.
#[verifier::rlimit(50)]
proof fn lemma_function_list_count(tokens: Seq<TokenModel>, at: Cursor)
    ensures
        ({
            let found = function_list(tokens, at);
            &&& fn_tokens(tokens, at.position + found.consumed) == fn_tokens(tokens, at.position)
                + found.node.len()
            &&& kind_at(tokens, at.position + found.consumed) == TokenKind::End
            &&& forall|k: nat|
                at.position <= k < at.position + found.consumed ==> (#[trigger] plain_at(
                    tokens,
                    k,
                ) || kind_at(tokens, k) == TokenKind::Fn)
        }),
    decreases tokens_left(tokens, at.position),
{
    let kind = kind_at(tokens, at.position);
    if kind == TokenKind::Fn {
        let first = function(tokens, at);
        lemma_function_plain(tokens, at);
        lemma_plain_count(tokens, at.position + 1, (first.consumed - 1) as nat);
        lemma_function_list_count(tokens, at.after(first));
    } else if kind != TokenKind::End {
        let width = stray_tokens(tokens, at.position);
        lemma_stray_tokens_plain(tokens, at.position);
        lemma_plain_count(tokens, at.position, width);
        let next = Cursor {
            position: at.position + width,
            errors: at.errors.push(
                unexpected(
                    tokens,
                    at.position,
                    seq![TokenKind::Fn, TokenKind::End],
                ),
            ),
        };
        lemma_function_list_count(tokens, next);
    }
}

/// One declaration for each `fn`: whatever the tokens, the parse ends at
/// the first end marker of the stream, and the program has as many
/// declarations as there are `fn` tokens before that marker.
pub proof fn lemma_one_declaration_for_each_fn(tokens: Seq<TokenModel>)
    ensures
        program(tokens).node.declarations.len() == fn_tokens(tokens, program(tokens).consumed),
        kind_at(tokens, program(tokens).consumed) == TokenKind::End,
        forall|k: nat|
            k < program(tokens).consumed ==> #[trigger] kind_at(tokens, k) != TokenKind::End,
{
    lemma_function_list_count(tokens, Cursor::start());
    assert forall|k: nat| k < program(tokens).consumed implies #[trigger] kind_at(tokens, k)
        != TokenKind::End by {
        assert(plain_at(tokens, k) || kind_at(tokens, k) == TokenKind::Fn);
    }
}

} // verus!
