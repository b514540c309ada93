//! Diagnostics: what the parser records where the token stream departs from
//! the grammar.

use crate::grammar::DiagnosticModel;
use crate::text::{append_decimal, decimal};
use crate::token::{kind_name, TokenKind};
use vstd::prelude::*;
use vstd::string::*;

verus! {

/// A syntax error: the position of the token that the parser met, and the
/// kinds of token that it could have gone on with.
#[derive(PartialEq, Debug)]
pub struct Diagnostic {
    /// The line of the offending token, counted from 0.
    pub line: usize,
    /// The column of the offending token, counted from 0.
    pub column: usize,
    /// The kinds of token that were acceptable there.
    pub expected: Vec<TokenKind>,
}

impl View for Diagnostic {
    type V = DiagnosticModel;

    open spec fn view(&self) -> DiagnosticModel {
        DiagnosticModel {
            line: self.line as nat,
            column: self.column as nat,
            expected: self.expected@,
        }
    }
}

/// The mathematical values of a sequence of diagnostics, in order.
pub open spec fn diagnostic_models(diagnostics: Seq<Diagnostic>) -> Seq<DiagnosticModel> {
    Seq::new(diagnostics.len(), |k: int| diagnostics[k]@)
}

/// Alternative `k` of the list `kinds`, as a message names it: the name of
/// the kind in double quotes, followed by a comma or, for the last one,
/// preceded by `or`.
pub open spec fn alternative(kinds: Seq<TokenKind>, k: int) -> Seq<char> {
    if k + 1 == kinds.len() {
        "or \""@ + kind_name(kinds[k]) + "\""@
    } else {
        "\""@ + kind_name(kinds[k]) + "\", "@
    }
}

/// The first `n` alternatives of the list `kinds`, as a message names them.
pub open spec fn alternatives(kinds: Seq<TokenKind>, n: nat) -> Seq<char>
    decreases n,
{
    if n == 0 {
        Seq::empty()
    } else {
        alternatives(kinds, (n - 1) as nat) + alternative(kinds, n - 1)
    }
}

/// The message of a diagnostic:
/// `Wrong token at line:column, expected "A", "B", or "C"`.
pub open spec fn message_text(diagnostic: DiagnosticModel) -> Seq<char> {
    "Wrong token at "@ + decimal(diagnostic.line) + ":"@ + decimal(diagnostic.column)
        + ", expected "@ + alternatives(diagnostic.expected, diagnostic.expected.len())
}

impl Diagnostic {
    /// The message of this diagnostic, which names the position of the
    /// offending token and the kinds that were acceptable there.
    pub fn message(&self) -> (text: String)
        ensures
            text@ == message_text(self@),
    {
        let mut text = String::from_str("Wrong token at ");
        append_decimal(&mut text, self.line);
        text.append(":");
        append_decimal(&mut text, self.column);
        text.append(", expected ");
        let ghost head = text@;
        let mut k: usize = 0;
        assert(text@ =~= head + alternatives(self.expected@, 0));
        while k < self.expected.len()
            invariant
                k <= self.expected.len(),
                text@ == head + alternatives(self.expected@, k as nat),
            decreases self.expected.len() - k,
        {
            let name = self.expected[k].name();
            let mut item = String::new();
            if k + 1 == self.expected.len() {
                item.append("or \"");
                item.append(name);
                item.append("\"");
            } else {
                item.append("\"");
                item.append(name);
                item.append("\", ");
            }
            assert(item@ =~= alternative(self.expected@, k as int));
            text.append(item.as_str());
            k = k + 1;
            assert(text@ =~= head + alternatives(self.expected@, k as nat));
        }
        text
    }
}

} // verus!
