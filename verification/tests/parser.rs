use luagen::compiler::opcodes::{OpMode, OpName};
use luagen::compiler::CodeGen;
use luagen::parser::types::{Block, Expr, Node, ParserError, Stat, Var};
use luagen::parser::Parser;
use luagen::tokens::{FlagType, Token};

fn n(value: f64) -> Token {
    Token::Num(value.to_bits())
}

fn id(name: &str) -> Token {
    Token::Name(String::from(name))
}

fn f(flag: FlagType) -> Token {
    Token::Flag(flag)
}

fn num(value: f64) -> Box<Expr> {
    Box::new(Expr::Num(value.to_bits()))
}

fn var(name: &str) -> Box<Expr> {
    Box::new(Expr::Var(Var::Name(String::from(name))))
}

fn binop(flag: FlagType, left: Box<Expr>, right: Box<Expr>) -> Box<Expr> {
    Box::new(Expr::BinOp(flag, left, right))
}

fn assign(names: &[&str], exprs: Vec<Box<Expr>>) -> Box<Stat> {
    Box::new(Stat::Assign(
        names.iter().map(|v| Var::Name(String::from(*v))).collect(),
        exprs,
    ))
}

fn local(names: &[&str], exprs: Vec<Box<Expr>>) -> Box<Stat> {
    Box::new(Stat::AssignLocal(names.iter().map(|v| String::from(*v)).collect(), exprs))
}

fn program(stats: Vec<Box<Stat>>) -> Result<Box<Node>, ParserError> {
    Ok(Box::new(Node::Block(Block::new(stats, None))))
}

/// `x = <tokens>` followed by the end of the text
fn assigned(mut expr: Vec<Token>) -> Vec<Token> {
    let mut tokens = vec![id("x"), f(FlagType::Assign)];
    tokens.append(&mut expr);
    tokens.push(f(FlagType::EOF));
    tokens
}

#[test]
fn parses_assignments_and_locals() {
    // a, b = 2.5, 2 * 4  local c = (a + b) / 10.5
    let tokens = vec![
        id("a"),
        f(FlagType::Comma),
        id("b"),
        f(FlagType::Assign),
        n(2.5),
        f(FlagType::Comma),
        n(2.0),
        f(FlagType::Mul),
        n(4.0),
        f(FlagType::Local),
        id("c"),
        f(FlagType::Assign),
        f(FlagType::LParen),
        id("a"),
        f(FlagType::Plus),
        id("b"),
        f(FlagType::RParen),
        f(FlagType::Div),
        n(10.5),
        f(FlagType::EOF),
    ];
    assert_eq!(
        Parser::parse(tokens),
        program(vec![
            assign(&["a", "b"], vec![num(2.5), binop(FlagType::Mul, num(2.0), num(4.0))]),
            local(
                &["c"],
                vec![binop(
                    FlagType::Div,
                    binop(FlagType::Plus, var("a"), var("b")),
                    num(10.5)
                )]
            ),
        ])
    );
}

#[test]
fn factors_bind_tighter_than_terms_and_both_to_the_left() {
    // x = 1 - 2 * 3 / 4 - 5
    let tokens = assigned(vec![
        n(1.0),
        f(FlagType::Minus),
        n(2.0),
        f(FlagType::Mul),
        n(3.0),
        f(FlagType::Div),
        n(4.0),
        f(FlagType::Minus),
        n(5.0),
    ]);
    assert_eq!(
        Parser::parse(tokens),
        program(vec![assign(
            &["x"],
            vec![binop(
                FlagType::Minus,
                binop(
                    FlagType::Minus,
                    num(1.0),
                    binop(
                        FlagType::Div,
                        binop(FlagType::Mul, num(2.0), num(3.0)),
                        num(4.0)
                    )
                ),
                num(5.0)
            )]
        )])
    );
}

#[test]
fn connectives_bind_looser_than_equality() {
    // x = a == 1 and b or c ~= 2
    let tokens = assigned(vec![
        id("a"),
        f(FlagType::EQ),
        n(1.0),
        f(FlagType::AND),
        id("b"),
        f(FlagType::OR),
        id("c"),
        f(FlagType::NEQ),
        n(2.0),
    ]);
    assert_eq!(
        Parser::parse(tokens),
        program(vec![assign(
            &["x"],
            vec![binop(
                FlagType::OR,
                binop(
                    FlagType::AND,
                    binop(FlagType::EQ, var("a"), num(1.0)),
                    var("b")
                ),
                binop(FlagType::NEQ, var("c"), num(2.0))
            )]
        )])
    );
}

#[test]
fn signs_strings_and_booleans_are_factors() {
    // x = -+1, "s", true, false
    let tokens = assigned(vec![
        f(FlagType::Minus),
        f(FlagType::Plus),
        n(1.0),
        f(FlagType::Comma),
        Token::Str(String::from("s")),
        f(FlagType::Comma),
        f(FlagType::True),
        f(FlagType::Comma),
        f(FlagType::False),
    ]);
    assert_eq!(
        Parser::parse(tokens),
        program(vec![assign(
            &["x"],
            vec![
                Box::new(Expr::UnaryOp(
                    FlagType::Minus,
                    Box::new(Expr::UnaryOp(FlagType::Plus, num(1.0)))
                )),
                Box::new(Expr::Str(String::from("s"))),
                Box::new(Expr::Boole(true)),
                Box::new(Expr::Boole(false)),
            ]
        )])
    );
}

#[test]
fn calls_take_arguments_and_dots() {
    // x = g(), h(1, a), k(...), m(1, ...)
    let tokens = assigned(vec![
        id("g"),
        f(FlagType::LParen),
        f(FlagType::RParen),
        f(FlagType::Comma),
        id("h"),
        f(FlagType::LParen),
        n(1.0),
        f(FlagType::Comma),
        id("a"),
        f(FlagType::RParen),
        f(FlagType::Comma),
        id("k"),
        f(FlagType::LParen),
        f(FlagType::ThreeDot),
        f(FlagType::RParen),
        f(FlagType::Comma),
        id("m"),
        f(FlagType::LParen),
        n(1.0),
        f(FlagType::Comma),
        f(FlagType::ThreeDot),
        f(FlagType::RParen),
    ]);
    assert_eq!(
        Parser::parse(tokens),
        program(vec![assign(
            &["x"],
            vec![
                Box::new(Expr::FunctionCall(var("g"), vec![], false)),
                Box::new(Expr::FunctionCall(var("h"), vec![num(1.0), var("a")], false)),
                Box::new(Expr::FunctionCall(var("k"), vec![], true)),
                Box::new(Expr::FunctionCall(var("m"), vec![num(1.0)], true)),
            ]
        )])
    );
}

#[test]
fn function_definition_with_parameters_and_return() {
    // x = function(p, q, ...) local r = p return r, 1; end
    let tokens = assigned(vec![
        f(FlagType::Function),
        f(FlagType::LParen),
        id("p"),
        f(FlagType::Comma),
        id("q"),
        f(FlagType::Comma),
        f(FlagType::ThreeDot),
        f(FlagType::RParen),
        f(FlagType::Local),
        id("r"),
        f(FlagType::Assign),
        id("p"),
        f(FlagType::Return),
        id("r"),
        f(FlagType::Comma),
        n(1.0),
        f(FlagType::Colons),
        f(FlagType::End),
    ]);
    let body = Block::new(vec![local(&["r"], vec![var("p")])], Some(vec![var("r"), num(1.0)]));
    assert_eq!(
        Parser::parse(tokens),
        program(vec![assign(
            &["x"],
            vec![Box::new(Expr::FunctionDef(
                (vec![String::from("p"), String::from("q")], true),
                Box::new(body)
            ))]
        )])
    );
}

#[test]
fn program_may_end_in_a_return() {
    let tokens = vec![
        f(FlagType::Colons),
        f(FlagType::Break),
        f(FlagType::Colons),
        f(FlagType::Return),
        f(FlagType::EOF),
    ];
    assert_eq!(
        Parser::parse(tokens),
        Ok(Box::new(Node::Block(Block::new(vec![Box::new(Stat::Break)], Some(vec![])))))
    );
}

#[test]
fn if_with_branches_nests_to_the_right() {
    // if a then break elseif b then elseif c then x = 1 else y = 2 end
    let tokens = vec![
        f(FlagType::If),
        id("a"),
        f(FlagType::Then),
        f(FlagType::Break),
        f(FlagType::Elseif),
        id("b"),
        f(FlagType::Then),
        f(FlagType::Elseif),
        id("c"),
        f(FlagType::Then),
        id("x"),
        f(FlagType::Assign),
        n(1.0),
        f(FlagType::Else),
        id("y"),
        f(FlagType::Assign),
        n(2.0),
        f(FlagType::End),
        f(FlagType::EOF),
    ];
    let innermost = Stat::IfElse(
        var("c"),
        Box::new(Block::new(vec![assign(&["x"], vec![num(1.0)])], None)),
        Some(Box::new(Block::new(vec![assign(&["y"], vec![num(2.0)])], None))),
    );
    let middle = Stat::IfElse(
        var("b"),
        Box::new(Block::new(vec![], None)),
        Some(Box::new(Block::new(vec![Box::new(innermost)], None))),
    );
    let outer = Stat::IfElse(
        var("a"),
        Box::new(Block::new(vec![Box::new(Stat::Break)], None)),
        Some(Box::new(Block::new(vec![Box::new(middle)], None))),
    );
    assert_eq!(Parser::parse(tokens), program(vec![Box::new(outer)]));
}

#[test]
fn plain_if_has_no_else() {
    let tokens = vec![
        f(FlagType::If),
        f(FlagType::True),
        f(FlagType::Then),
        f(FlagType::End),
        f(FlagType::EOF),
    ];
    assert_eq!(
        Parser::parse(tokens),
        program(vec![Box::new(Stat::IfElse(
            Box::new(Expr::Boole(true)),
            Box::new(Block::new(vec![], None)),
            None
        ))])
    );
}

#[test]
fn while_and_for() {
    // while a do break end for i, j in t do
    let tokens = vec![
        f(FlagType::While),
        id("a"),
        f(FlagType::Do),
        f(FlagType::Break),
        f(FlagType::End),
        f(FlagType::For),
        id("i"),
        f(FlagType::Comma),
        id("j"),
        f(FlagType::In),
        id("t"),
        f(FlagType::Do),
        f(FlagType::EOF),
    ];
    assert_eq!(
        Parser::parse(tokens),
        program(vec![
            Box::new(Stat::While(
                var("a"),
                Box::new(Block::new(vec![Box::new(Stat::Break)], None))
            )),
            Box::new(Stat::ForRange(
                vec![String::from("i"), String::from("j")],
                vec![var("t")],
                Box::new(Block::new(vec![], None))
            )),
        ])
    );
}

#[test]
fn tokens_behind_the_block_are_left_alone() {
    let tokens = vec![f(FlagType::Break), f(FlagType::End), n(1.0), n(2.0)];
    assert_eq!(Parser::parse(tokens), program(vec![Box::new(Stat::Break)]));
}

#[test]
fn text_that_just_ends_is_a_syntax_error() {
    assert_eq!(Parser::parse(vec![]), Err(ParserError::SyntaxError));
    assert_eq!(Parser::parse(vec![f(FlagType::Break)]), Err(ParserError::SyntaxError));
    // x = <nothing>
    assert_eq!(
        Parser::parse(vec![id("x"), f(FlagType::Assign)]),
        Err(ParserError::SyntaxError)
    );
}

#[test]
fn local_without_assignment_is_a_syntax_error() {
    assert_eq!(
        Parser::parse(vec![f(FlagType::Local), id("a"), f(FlagType::EOF)]),
        Err(ParserError::SyntaxError)
    );
    assert_eq!(
        Parser::parse(vec![f(FlagType::Local), n(1.0), f(FlagType::EOF)]),
        Err(ParserError::SyntaxError)
    );
    // while a <no do>
    assert_eq!(
        Parser::parse(vec![f(FlagType::While), id("a"), f(FlagType::EOF)]),
        Err(ParserError::SyntaxError)
    );
    // f(1, <no argument>)
    assert_eq!(
        Parser::parse(assigned(vec![
            id("g"),
            f(FlagType::LParen),
            n(1.0),
            f(FlagType::Comma),
            f(FlagType::RParen)
        ])),
        Err(ParserError::SyntaxError)
    );
}

#[test]
fn what_the_parser_does_not_handle_fails() {
    // a statement that starts with a number
    assert_eq!(
        Parser::parse(vec![n(1.0), f(FlagType::EOF)]),
        Err(ParserError::ParseFailed)
    );
    // a call as a statement
    assert_eq!(
        Parser::parse(vec![
            id("g"),
            f(FlagType::LParen),
            f(FlagType::RParen),
            f(FlagType::EOF)
        ]),
        Err(ParserError::ParseFailed)
    );
    // a name followed by a dot
    assert_eq!(
        Parser::parse(assigned(vec![id("t"), f(FlagType::Dot), id("k")])),
        Err(ParserError::ParseFailed)
    );
    // a target that is no name
    assert_eq!(
        Parser::parse(vec![id("a"), f(FlagType::Comma), n(1.0), f(FlagType::EOF)]),
        Err(ParserError::ParseFailed)
    );
}

#[test]
fn unmet_expectation_ends_the_block() {
    // local x = (1  -- the expectation of `)` is not met, which ends the block
    let tokens = vec![
        f(FlagType::Break),
        f(FlagType::Local),
        id("x"),
        f(FlagType::Assign),
        f(FlagType::LParen),
        n(1.0),
        f(FlagType::EOF),
    ];
    assert_eq!(Parser::parse(tokens), program(vec![Box::new(Stat::Break)]));
    // x = (1  -- but a name must start an assignment
    let tokens = vec![id("x"), f(FlagType::Assign), f(FlagType::LParen), n(1.0), f(FlagType::EOF)];
    assert_eq!(Parser::parse(tokens), Err(ParserError::ParseFailed));
}

#[test]
fn return_list_that_does_not_parse_counts_as_none() {
    // return r, q;  -- a name followed by `;` is not parsed
    let tokens = vec![
        f(FlagType::Return),
        id("r"),
        f(FlagType::Comma),
        id("q"),
        f(FlagType::Colons),
        f(FlagType::EOF),
    ];
    assert_eq!(
        Parser::parse(tokens),
        Ok(Box::new(Node::Block(Block::new(vec![], Some(vec![])))))
    );
}

#[test]
fn peeking_does_not_take_the_token() {
    let parser = Parser::new(vec![id("a"), n(1.0)]);
    assert!(matches!(parser.peek_clone(), Some(Token::Name(name)) if name == "a"));
    assert!(matches!(parser.peek_clone(), Some(Token::Name(name)) if name == "a"));
    let empty = Parser::new(vec![]);
    assert!(empty.peek_clone().is_none());
}

#[test]
fn parsed_program_compiles() {
    // local a = 2  func = function(para) return a + para, 0 end
    // local b, c = func(1, 2)  local d = b + c
    let tokens = vec![
        f(FlagType::Local),
        id("a"),
        f(FlagType::Assign),
        n(2.0),
        id("func"),
        f(FlagType::Assign),
        f(FlagType::Function),
        f(FlagType::LParen),
        id("para"),
        f(FlagType::RParen),
        f(FlagType::Return),
        id("a"),
        f(FlagType::Plus),
        id("para"),
        f(FlagType::Comma),
        n(0.0),
        f(FlagType::End),
        f(FlagType::Local),
        id("b"),
        f(FlagType::Comma),
        id("c"),
        f(FlagType::Assign),
        id("func"),
        f(FlagType::LParen),
        n(1.0),
        f(FlagType::Comma),
        n(2.0),
        f(FlagType::RParen),
        f(FlagType::Local),
        id("d"),
        f(FlagType::Assign),
        id("b"),
        f(FlagType::Plus),
        id("c"),
        f(FlagType::EOF),
    ];
    let ast = Parser::parse(tokens).unwrap();
    let mut compiler = CodeGen::new();
    assert_eq!(compiler.compile(&ast), Ok(()));
    let root = compiler.root_function();
    assert_eq!(root.instructions.len(), 10);
    assert_eq!(root.instructions[7], OpMode::iABC(OpName::CALL, 2, 3, 3));
    assert_eq!(root.function_prototypes[0].para_num, 1);
}
