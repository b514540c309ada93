use minic::ast::{
    BinOpExpression, Declaration, DeclarationStatement, Expression, FunctionCallExpression,
    FunctionDeclaration, FunctionParameterDeclaration, IfStatement, LiteralExpression, Operator,
    Program, SimpleType, Statement, Type, VariableAssignmentStatement, WhileStatement,
};
use minic::diagnostic::Diagnostic;
use minic::lexer::Lexer;
use minic::parser::Parser;
use minic::token::{Token, TokenKind, TokenType};

fn parser_of(source: &str) -> Parser {
    let lines: Vec<String> = source.lines().map(String::from).collect();
    let mut lexer = Lexer::new("test");
    lexer.tokenise(&lines);
    assert!(lexer.get_errors().is_empty());
    Parser::new(lexer.get_tokens())
}

fn program_of(parser: &Parser) -> &Program {
    parser.get_program().as_ref().unwrap()
}

fn function_of(parser: &Parser, k: usize) -> &FunctionDeclaration {
    match &program_of(parser).declarations[k] {
        Declaration::FunctionDeclaration(function) => function,
    }
}

fn body_of(statements: &str) -> Vec<Statement> {
    let source = format!("fn f() -> void {{ {} }}", statements);
    let parser = parser_of(&source);
    assert_eq!(*parser.get_errors(), Vec::<Diagnostic>::new());
    let mut program = parser.into_program().unwrap();
    assert_eq!(program.declarations.len(), 1);
    match program.declarations.remove(0) {
        Declaration::FunctionDeclaration(function) => function.body,
    }
}

fn expression_of(text: &str) -> Expression {
    let mut body = body_of(&format!("{};", text));
    assert_eq!(body.len(), 1);
    match body.remove(0) {
        Statement::Expression(expression) => expression,
        other => panic!("not an expression statement: {:?}", other),
    }
}

fn num(digits: &str) -> Expression {
    Expression::LiteralExpression(LiteralExpression::I64(String::from(digits)))
}

fn var(name: &str) -> Expression {
    Expression::VariableReferenceExpression(String::from(name))
}

fn bin(left: Expression, op: Operator, right: Expression) -> Expression {
    Expression::BinOpExpression(BinOpExpression::new(left, right, op))
}

fn call(name: &str, arguments: Vec<Expression>) -> Expression {
    let mut call = FunctionCallExpression::new(String::from(name));
    call.add_parameters(arguments);
    Expression::FunctionCallExpression(call)
}

fn diagnostic(line: usize, column: usize, expected: Vec<TokenKind>) -> Diagnostic {
    Diagnostic { line, column, expected }
}

#[test]
fn dummy() {
    let mut parser = Parser::new(Vec::new());
    parser.parse();
}

#[test]
fn empty_stream_is_the_empty_program() {
    let mut parser = Parser::new(Vec::new());
    parser.parse();
    assert_eq!(*parser.get_program(), Some(Program::new(Vec::new())));
    assert!(parser.get_errors().is_empty());
    let parser = parser_of("");
    assert_eq!(*parser.get_program(), Some(Program::new(Vec::new())));
    assert!(parser.get_errors().is_empty());
}

#[test]
fn precedence_of_multiplication() {
    assert_eq!(
        expression_of("1 + 2 * 3"),
        bin(num("1"), Operator::Plus, bin(num("2"), Operator::Mul, num("3")))
    );
    assert_eq!(
        expression_of("1 * 2 + 3"),
        bin(bin(num("1"), Operator::Mul, num("2")), Operator::Plus, num("3"))
    );
}

#[test]
fn left_associativity() {
    assert_eq!(
        expression_of("8 - 3 - 2"),
        bin(bin(num("8"), Operator::Min, num("3")), Operator::Min, num("2"))
    );
    assert_eq!(
        expression_of("8 / 4 % 3 * 2"),
        bin(
            bin(bin(num("8"), Operator::Div, num("4")), Operator::Mod, num("3")),
            Operator::Mul,
            num("2")
        )
    );
}

#[test]
fn parentheses_reset_precedence() {
    assert_eq!(
        expression_of("(1 + 2) * 3"),
        bin(bin(num("1"), Operator::Plus, num("2")), Operator::Mul, num("3"))
    );
    assert_eq!(
        expression_of("8 - (3 - 2)"),
        bin(num("8"), Operator::Min, bin(num("3"), Operator::Min, num("2")))
    );
    assert_eq!(expression_of("((x))"), var("x"));
}

#[test]
fn call_or_variable() {
    assert_eq!(expression_of("foo()"), call("foo", vec![]));
    assert_eq!(expression_of("foo"), var("foo"));
    assert_eq!(
        expression_of("foo(1, x, g(y) + 2)"),
        call(
            "foo",
            vec![num("1"), var("x"), bin(call("g", vec![var("y")]), Operator::Plus, num("2"))]
        )
    );
    assert_eq!(
        expression_of("foo * (bar)"),
        bin(var("foo"), Operator::Mul, var("bar"))
    );
}

#[test]
fn if_else_chain() {
    let body = body_of("if a {} else if b {} else {}");
    let expected = IfStatement::new(
        var("a"),
        vec![],
        Some(IfStatement::new(var("b"), vec![], Some(IfStatement::make_else(vec![])))),
    );
    assert_eq!(body, vec![Statement::IfStatement(expected)]);
    match &body[0] {
        Statement::IfStatement(head) => {
            assert_eq!(head.condition, Some(var("a")));
            let second = head.tail_conditions.as_ref().unwrap();
            assert_eq!(second.condition, Some(var("b")));
            let last = second.tail_conditions.as_ref().unwrap();
            assert_eq!(last.condition, None);
            assert!(last.tail_conditions.is_none());
        }
        other => panic!("not an if statement: {:?}", other),
    }
}

#[test]
fn if_without_else() {
    let body = body_of("if a + 1 { x = 2; } y;");
    assert_eq!(
        body,
        vec![
            Statement::IfStatement(IfStatement::new(
                bin(var("a"), Operator::Plus, num("1")),
                vec![Statement::VariableAssignmentStatement(
                    VariableAssignmentStatement::new(String::from("x"), num("2"))
                )],
                None
            )),
            Statement::Expression(var("y")),
        ]
    );
}

#[test]
fn statements_of_every_kind() {
    let body = body_of(
        "let x: i32 = 1; x = x + 1; while x { f(x); } return; return x; 5; (x);",
    );
    assert_eq!(
        body,
        vec![
            Statement::DeclarationStatement(DeclarationStatement::new(
                String::from("x"),
                Type::SimpleType(SimpleType::I32),
                num("1")
            )),
            Statement::VariableAssignmentStatement(VariableAssignmentStatement::new(
                String::from("x"),
                bin(var("x"), Operator::Plus, num("1"))
            )),
            Statement::WhileStatement(WhileStatement::new(
                var("x"),
                vec![Statement::Expression(call("f", vec![var("x")]))]
            )),
            Statement::ReturnStatement(None),
            Statement::ReturnStatement(Some(var("x"))),
            Statement::Expression(num("5")),
            Statement::Expression(var("x")),
        ]
    );
}

#[test]
fn functions_with_parameters() {
    let parser =
        parser_of("fn a() -> void {}\nfn b(x: i8) -> u64 {}\nfn c(x: u16, y: i64, z: u8) -> i16 {}");
    assert!(parser.get_errors().is_empty());
    assert_eq!(program_of(&parser).declarations.len(), 3);
    assert_eq!(
        *function_of(&parser, 0),
        FunctionDeclaration::new(
            String::from("a"),
            vec![],
            Type::SimpleType(SimpleType::Void),
            vec![]
        )
    );
    assert_eq!(
        *function_of(&parser, 1),
        FunctionDeclaration::new(
            String::from("b"),
            vec![FunctionParameterDeclaration::new(
                String::from("x"),
                Type::SimpleType(SimpleType::I8)
            )],
            Type::SimpleType(SimpleType::U64),
            vec![]
        )
    );
    assert_eq!(
        function_of(&parser, 2).parameters,
        vec![
            FunctionParameterDeclaration::new(String::from("x"), Type::SimpleType(SimpleType::U16)),
            FunctionParameterDeclaration::new(String::from("y"), Type::SimpleType(SimpleType::I64)),
            FunctionParameterDeclaration::new(String::from("z"), Type::SimpleType(SimpleType::U8)),
        ]
    );
}

#[test]
fn every_type_keyword() {
    let parser = parser_of(
        "fn f(a: i8, b: i16, c: i32, d: i64, e: u8, f: u16, g: u32, h: u64) -> void {}",
    );
    assert!(parser.get_errors().is_empty());
    let types: Vec<Type> = function_of(&parser, 0).parameters.iter().map(|p| p.datatype).collect();
    assert_eq!(
        types,
        vec![
            Type::SimpleType(SimpleType::I8),
            Type::SimpleType(SimpleType::I16),
            Type::SimpleType(SimpleType::I32),
            Type::SimpleType(SimpleType::I64),
            Type::SimpleType(SimpleType::U8),
            Type::SimpleType(SimpleType::U16),
            Type::SimpleType(SimpleType::U32),
            Type::SimpleType(SimpleType::U64),
        ]
    );
    assert_eq!(function_of(&parser, 0).return_type, Type::SimpleType(SimpleType::Void));
}

#[test]
fn valid_program_has_no_diagnostics() {
    let source = "fn double(v: i32) -> i32 {\n\treturn v * 2;\n}\n\nfn main() -> void {\n\tlet x: i32 = double(4) + 1;\n\tif x { x = x - 1; } else if x % 2 { x = 0; } else { while x { x = x / 2; } }\n\tdouble(x);\n}\n";
    let parser = parser_of(source);
    assert_eq!(*parser.get_errors(), Vec::<Diagnostic>::new());
    assert_eq!(program_of(&parser).declarations.len(), 2);
    assert_eq!(function_of(&parser, 0).name, "double");
    assert_eq!(function_of(&parser, 1).name, "main");
    assert_eq!(function_of(&parser, 1).body.len(), 3);
}

#[test]
fn parsing_twice_gives_equal_programs() {
    let source = "fn f(a: i8) -> i8 { if a { return a * (a - 1); } return f(a, 2); }";
    let first = parser_of(source);
    let mut second = parser_of(source);
    assert_eq!(first.get_program(), second.get_program());
    assert_eq!(first.get_errors(), second.get_errors());
    second.parse();
    assert_eq!(first.get_program(), second.get_program());
    assert_eq!(first.get_errors(), second.get_errors());
}

#[test]
fn parse_again_does_not_repeat_diagnostics() {
    let mut parser = parser_of("fn f() -> void { x }");
    assert_eq!(parser.get_errors().len(), 1);
    parser.parse();
    assert_eq!(parser.get_errors().len(), 1);
    assert_eq!(program_of(&parser).declarations.len(), 1);
}

#[test]
fn missing_semicolon_is_one_diagnostic() {
    let parser = parser_of("fn f() -> void {\n  return 1\n}\nfn g() -> void {}");
    assert_eq!(*parser.get_errors(), vec![diagnostic(2, 0, vec![TokenKind::Semi])]);
    assert_eq!(program_of(&parser).declarations.len(), 2);
    assert_eq!(function_of(&parser, 0).body, vec![Statement::ReturnStatement(Some(num("1")))]);
}

#[test]
fn missing_semicolon_after_bare_return() {
    let parser = parser_of("fn f() -> void { return }");
    assert_eq!(*parser.get_errors(), vec![diagnostic(0, 24, vec![TokenKind::Semi])]);
    assert_eq!(function_of(&parser, 0).body, vec![Statement::ReturnStatement(None)]);
}

#[test]
fn missing_semicolon_between_statements() {
    let parser = parser_of("fn f() -> void { a b; }");
    assert_eq!(*parser.get_errors(), vec![diagnostic(0, 19, vec![TokenKind::Semi])]);
    assert_eq!(
        function_of(&parser, 0).body,
        vec![Statement::Expression(var("a")), Statement::Expression(var("b"))]
    );
}

#[test]
fn missing_punctuation_is_one_diagnostic_each() {
    let parser = parser_of("fn f) -> void {}");
    assert_eq!(*parser.get_errors(), vec![diagnostic(0, 4, vec![TokenKind::Lbra])]);
    let parser = parser_of("fn f() void {}");
    assert_eq!(*parser.get_errors(), vec![diagnostic(0, 7, vec![TokenKind::Arrow])]);
    let parser = parser_of("fn f() -> void { (1 + 2; }");
    assert_eq!(*parser.get_errors(), vec![diagnostic(0, 23, vec![TokenKind::Rbra])]);
    let parser = parser_of("fn f() -> void { if a b; } }");
    assert_eq!(*parser.get_errors(), vec![diagnostic(0, 22, vec![TokenKind::Lcur])]);
    let parser = parser_of("fn f() -> void { let x i8 = 1; }");
    assert_eq!(*parser.get_errors(), vec![diagnostic(0, 23, vec![TokenKind::Colon])]);
    let parser = parser_of("fn f() -> void {");
    assert_eq!(*parser.get_errors(), vec![diagnostic(0, 0, vec![TokenKind::Rcur])]);
}

#[test]
fn missing_name_is_the_empty_name() {
    let parser = parser_of("fn () -> void {}");
    assert_eq!(*parser.get_errors(), vec![diagnostic(0, 3, vec![TokenKind::Id])]);
    assert_eq!(function_of(&parser, 0).name, "");
    assert_eq!(function_of(&parser, 0).return_type, Type::SimpleType(SimpleType::Void));
}

#[test]
fn missing_type_is_u64() {
    let parser = parser_of("fn f() -> {}");
    assert_eq!(
        *parser.get_errors(),
        vec![diagnostic(
            0,
            10,
            vec![
                TokenKind::I8,
                TokenKind::I16,
                TokenKind::I32,
                TokenKind::I64,
                TokenKind::U8,
                TokenKind::U16,
                TokenKind::U32,
                TokenKind::U64,
                TokenKind::Void,
            ]
        )]
    );
    assert_eq!(function_of(&parser, 0).return_type, Type::SimpleType(SimpleType::U64));
}

#[test]
fn missing_operand_is_a_placeholder() {
    let parser = parser_of("fn f() -> void { x = 1 + ; }");
    assert_eq!(
        *parser.get_errors(),
        vec![diagnostic(0, 25, vec![TokenKind::Num, TokenKind::Id, TokenKind::Lbra])]
    );
    assert_eq!(
        function_of(&parser, 0).body,
        vec![Statement::VariableAssignmentStatement(VariableAssignmentStatement::new(
            String::from("x"),
            bin(num("1"), Operator::Plus, var(""))
        ))]
    );
}

#[test]
fn else_without_block_is_an_empty_else() {
    let parser = parser_of("fn f() -> void { if a {} else x; }");
    assert_eq!(
        *parser.get_errors(),
        vec![diagnostic(0, 30, vec![TokenKind::If, TokenKind::Lcur])]
    );
    assert_eq!(
        function_of(&parser, 0).body,
        vec![
            Statement::IfStatement(IfStatement::new(
                var("a"),
                vec![],
                Some(IfStatement::make_else(vec![]))
            )),
            Statement::Expression(var("x")),
        ]
    );
}

#[test]
fn stray_tokens_between_functions_are_skipped() {
    let parser = parser_of("x y z\nfn f() -> void {}\n; ;\nfn g() -> void {}");
    assert_eq!(
        *parser.get_errors(),
        vec![
            diagnostic(0, 0, vec![TokenKind::Fn, TokenKind::End]),
            diagnostic(2, 0, vec![TokenKind::Fn, TokenKind::End]),
        ]
    );
    assert_eq!(program_of(&parser).declarations.len(), 2);
    assert_eq!(function_of(&parser, 0).name, "f");
    assert_eq!(function_of(&parser, 1).name, "g");
}

#[test]
fn parsing_goes_on_after_a_broken_function() {
    let parser = parser_of("fn f() -> void { ) }\nfn g() -> void { return 1; }");
    assert_eq!(
        *parser.get_errors(),
        vec![
            diagnostic(0, 17, vec![TokenKind::Rcur]),
            diagnostic(0, 17, vec![TokenKind::Fn, TokenKind::End]),
        ]
    );
    assert_eq!(program_of(&parser).declarations.len(), 2);
    assert_eq!(function_of(&parser, 1).body, vec![Statement::ReturnStatement(Some(num("1")))]);
}

#[test]
fn comparison_tokens_are_in_no_production() {
    let parser = parser_of("fn f() -> void { if a < b {} }");
    assert_eq!(parser.get_errors()[0], diagnostic(0, 22, vec![TokenKind::Lcur]));
    assert_eq!(program_of(&parser).declarations.len(), 1);
}

#[test]
fn stream_without_end_marker() {
    let tokens = vec![
        Token::new(TokenType::Fn, 0, 0),
        Token::new(TokenType::Id(String::from("f")), 0, 3),
        Token::new(TokenType::Lbra, 0, 4),
        Token::new(TokenType::Rbra, 0, 5),
        Token::new(TokenType::Arrow, 0, 7),
        Token::new(TokenType::Void, 0, 10),
        Token::new(TokenType::Lcur, 0, 15),
        Token::new(TokenType::Rcur, 0, 16),
    ];
    let parser = Parser::new(tokens);
    assert!(parser.get_errors().is_empty());
    assert_eq!(program_of(&parser).declarations.len(), 1);
}

#[test]
fn tokens_after_the_end_marker_are_not_read() {
    let tokens = vec![
        Token::new(TokenType::End, 0, 0),
        Token::new(TokenType::Fn, 1, 0),
        Token::new(TokenType::Semi, 1, 3),
    ];
    let parser = Parser::new(tokens);
    assert!(parser.get_errors().is_empty());
    assert!(program_of(&parser).declarations.is_empty());
}

#[test]
fn one_declaration_for_each_fn() {
    let parser = parser_of("fn fn f( fn\n) fn g() -> void { fn }");
    assert_eq!(program_of(&parser).declarations.len(), 5);
    assert!(!parser.get_errors().is_empty());
}

#[test]
fn deep_nesting_parses() {
    let mut text = String::new();
    for _ in 0..200 {
        text.push('(');
    }
    text.push('1');
    for _ in 0..200 {
        text.push(')');
    }
    assert_eq!(expression_of(&text), num("1"));
}

#[test]
fn constructors_keep_their_arguments() {
    let mut call = FunctionCallExpression::new(String::from("f"));
    assert_eq!(call.name, "f");
    assert!(call.parameters.is_empty());
    call.add_parameter(num("1"));
    call.add_parameters(vec![var("x"), var("y")]);
    assert_eq!(call.parameters, vec![num("1"), var("x"), var("y")]);

    let operation = BinOpExpression::new(num("1"), num("2"), Operator::Mod);
    assert_eq!(*operation.left, num("1"));
    assert_eq!(*operation.right, num("2"));
    assert_eq!(operation.op, Operator::Mod);

    let link = IfStatement::new(var("a"), vec![], None);
    assert_eq!(link.condition, Some(var("a")));
    assert!(link.tail_conditions.is_none());
    let last = IfStatement::make_else(vec![Statement::ReturnStatement(None)]);
    assert_eq!(last.condition, None);
    assert_eq!(last.body, vec![Statement::ReturnStatement(None)]);
    assert!(last.tail_conditions.is_none());

    let repeat = WhileStatement::new(var("c"), vec![]);
    assert_eq!(repeat.condition, var("c"));
    assert!(repeat.body.is_empty());

    let declaration =
        DeclarationStatement::new(String::from("x"), Type::SimpleType(SimpleType::U8), num("3"));
    assert_eq!(declaration.variable, "x");
    assert_eq!(declaration.datatype, Type::SimpleType(SimpleType::U8));
    assert_eq!(declaration.value, num("3"));

    let assignment = VariableAssignmentStatement::new(String::from("y"), var("x"));
    assert_eq!(assignment.variable, "y");
    assert_eq!(assignment.value, var("x"));

    let parameter =
        FunctionParameterDeclaration::new(String::from("p"), Type::SimpleType(SimpleType::I64));
    assert_eq!(parameter.name, "p");
    assert_eq!(parameter.datatype, Type::SimpleType(SimpleType::I64));

    let program = Program::new(vec![]);
    assert!(program.declarations.is_empty());
}

#[test]
fn message_names_position_and_kinds() {
    assert_eq!(
        diagnostic(2, 0, vec![TokenKind::Semi]).message(),
        "Wrong token at 2:0, expected or \"SEMI\""
    );
    assert_eq!(
        diagnostic(10, 25, vec![TokenKind::Num, TokenKind::Id, TokenKind::Lbra]).message(),
        "Wrong token at 10:25, expected \"NUM\", \"ID\", or \"LBRA\""
    );
    assert_eq!(
        diagnostic(0, 3, vec![TokenKind::If, TokenKind::Lcur]).message(),
        "Wrong token at 0:3, expected \"IF\", or \"LCUR\""
    );
    assert_eq!(diagnostic(1, 1, vec![]).message(), "Wrong token at 1:1, expected ");
}

#[test]
fn parser_messages() {
    let parser = parser_of("fn f() -> void {\n  return 1\n}\nfn g() -> {}");
    assert_eq!(
        parser.get_messages(),
        vec![
            String::from("Wrong token at 2:0, expected or \"SEMI\""),
            String::from(
                "Wrong token at 3:10, expected \"i8\", \"i16\", \"i32\", \"i64\", \"u8\", \"u16\", \"u32\", \"u64\", or \"VOID\""
            ),
        ]
    );
}

#[test]
fn statement_outside_a_body_is_reported() {
    let parser = parser_of("fn f() -> void {} }");
    assert_eq!(*parser.get_errors(), vec![diagnostic(0, 18, vec![TokenKind::Fn, TokenKind::End])]);
    assert_eq!(program_of(&parser).declarations.len(), 1);
}

#[test]
fn into_program_gives_the_program() {
    let parser = parser_of("fn f() -> void {}\nfn g() -> void {}");
    let held = parser.get_program().as_ref().unwrap().declarations.len();
    let program = parser.into_program().unwrap();
    assert_eq!(program.declarations.len(), held);
    assert_eq!(held, 2);
}

#[test]
fn long_sequences_parse() {
    let mut source = String::from("fn f(");
    for k in 0..3000 {
        if k > 0 {
            source.push_str(", ");
        }
        source.push_str(&format!("p{}: i32", k));
    }
    source.push_str(") -> void {\n");
    for k in 0..20000 {
        source.push_str(&format!("x = x + {};\n", k));
    }
    source.push_str("g(");
    for k in 0..3000 {
        if k > 0 {
            source.push_str(", ");
        }
        source.push_str(&format!("{}", k));
    }
    source.push_str(");\ny = 1");
    for _ in 0..2000 {
        source.push_str(" + 2 * 3");
    }
    source.push_str(";\n}\n");
    for k in 0..5000 {
        source.push_str(&format!("fn g{}() -> void {{}}\n", k));
    }
    let parser = parser_of(&source);
    assert!(parser.get_errors().is_empty());
    assert_eq!(program_of(&parser).declarations.len(), 5001);
    assert_eq!(function_of(&parser, 0).parameters.len(), 3000);
    assert_eq!(function_of(&parser, 0).body.len(), 20002);
    match &function_of(&parser, 0).body[20000] {
        Statement::Expression(Expression::FunctionCallExpression(call)) => {
            assert_eq!(call.parameters.len(), 3000)
        }
        other => panic!("not a call: {:?}", other),
    }
}
