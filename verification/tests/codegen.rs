use luagen::compiler::opcodes::{OpMode, OpName};
use luagen::compiler::types::{CompileError, ConstType, FunctionChunk};
use luagen::compiler::CodeGen;
use luagen::parser::types::{Block, Expr, Node, Stat, Var};
use luagen::parser::Parser;
use luagen::tokens::{FlagType, Token};

fn num(value: f64) -> Box<Expr> {
    Box::new(Expr::Num(value.to_bits()))
}

fn number(value: f64) -> ConstType {
    ConstType::Real(value.to_bits())
}

fn text(value: &str) -> ConstType {
    ConstType::Str(String::from(value))
}

fn var(name: &str) -> Box<Expr> {
    Box::new(Expr::Var(Var::Name(String::from(name))))
}

fn target(name: &str) -> Var {
    Var::Name(String::from(name))
}

fn binop(flag: FlagType, left: Box<Expr>, right: Box<Expr>) -> Box<Expr> {
    Box::new(Expr::BinOp(flag, left, right))
}

fn unop(flag: FlagType, operand: Box<Expr>) -> Box<Expr> {
    Box::new(Expr::UnaryOp(flag, operand))
}

fn call(callee: Box<Expr>, args: Vec<Box<Expr>>) -> Box<Expr> {
    Box::new(Expr::FunctionCall(callee, args, false))
}

fn function(params: &[&str], stats: Vec<Box<Stat>>, ret: Option<Vec<Box<Expr>>>) -> Box<Expr> {
    let names = params.iter().map(|p| String::from(*p)).collect();
    Box::new(Expr::FunctionDef((names, false), Box::new(Block::new(stats, ret))))
}

fn assign(vars: &[&str], exprs: Vec<Box<Expr>>) -> Box<Stat> {
    Box::new(Stat::Assign(vars.iter().map(|v| target(v)).collect(), exprs))
}

fn local(names: &[&str], exprs: Vec<Box<Expr>>) -> Box<Stat> {
    Box::new(Stat::AssignLocal(names.iter().map(|n| String::from(*n)).collect(), exprs))
}

fn program(stats: Vec<Box<Stat>>) -> Node {
    Node::Block(Block::new(stats, None))
}

fn compiled(ast: &Node) -> CodeGen {
    let mut compiler = CodeGen::new();
    assert_eq!(compiler.compile(ast), Ok(()));
    compiler
}

fn abx(op: OpName, a: u32, bx: u32) -> OpMode {
    OpMode::iABx(op, a, bx)
}

fn abc(op: OpName, a: u32, b: u32, c: u32) -> OpMode {
    OpMode::iABC(op, a, b, c)
}

fn jmp(sbx: i32) -> OpMode {
    OpMode::iAsBx(OpName::JMP, 0, sbx)
}

/// Every register that an instruction names lies below `size`; the
/// instructions behind a CLOSURE are judged as bindings.
fn registers_below(chunk: &FunctionChunk) -> bool {
    let size = chunk.stack_size;
    let code = &chunk.instructions;
    let mut pc = 0;
    while pc < code.len() {
        let ok = match code[pc] {
            OpMode::iABx(OpName::CLOSURE, a, f) => {
                let n = chunk.function_prototypes[f as usize].upvalue_num as usize;
                let mut bound = a < size;
                for j in 0..n {
                    bound = bound
                        && match code[pc + 1 + j] {
                            OpMode::iABx(OpName::MOVE, slot, reg) => slot as usize == j && reg < size,
                            OpMode::iABx(OpName::GETUPVAL, slot, up) => {
                                slot as usize == j && up < chunk.upvalue_num
                            }
                            _ => false,
                        };
                }
                pc += n;
                bound
            }
            OpMode::iABx(OpName::MOVE, a, b) => a < size && b < size,
            OpMode::iABx(OpName::RETURN, a, b) => b < 2 || a + b - 2 < size,
            OpMode::iABx(OpName::LOADNIL, a, b) => a + b < size,
            OpMode::iABx(_, a, _) => a < size,
            OpMode::iABC(OpName::EQ, _, b, c)
            | OpMode::iABC(OpName::LT, _, b, c)
            | OpMode::iABC(OpName::LE, _, b, c) => b < size && c < size,
            OpMode::iABC(OpName::LOADBOOL, a, _, _) | OpMode::iABC(OpName::CALL, a, _, _) => a < size,
            OpMode::iABC(_, a, b, c) => a < size && b < size && c < size,
            OpMode::iAsBx(_, _, _) => true,
            OpMode::Label(_) => false,
        };
        if !ok {
            return false;
        }
        pc += 1;
    }
    chunk.function_prototypes.iter().all(registers_below)
}

fn jumps_land(chunk: &FunctionChunk) -> bool {
    let n = chunk.instructions.len() as i64;
    chunk.instructions.iter().enumerate().all(|(pc, op)| match op {
        OpMode::iAsBx(OpName::JMP, _, sbx) => {
            let to = pc as i64 + 1 + *sbx as i64;
            0 <= to && to < n
        }
        _ => true,
    }) && chunk.function_prototypes.iter().all(jumps_land)
}

fn global_arith_ast() -> Node {
    program(vec![
        assign(&["a", "b"], vec![num(2.5), binop(FlagType::Mul, num(2.0), num(4.0))]),
        local(
            &["c"],
            vec![binop(
                FlagType::Div,
                binop(FlagType::Plus, var("a"), var("b")),
                num(10.5),
            )],
        ),
    ])
}

fn function_def_ast() -> Node {
    program(vec![
        local(&["a"], vec![num(2.0)]),
        assign(
            &["func"],
            vec![function(
                &[],
                vec![local(&["b"], vec![num(3.0)])],
                Some(vec![
                    binop(FlagType::Plus, var("a"), var("b")),
                    binop(FlagType::Plus, var("b"), var("a")),
                ]),
            )],
        ),
    ])
}

fn tokens_of(words: &[&str]) -> Vec<Token> {
    let mut tokens: Vec<Token> = words
        .iter()
        .map(|word| match *word {
            "," => Token::Flag(FlagType::Comma),
            "=" => Token::Flag(FlagType::Assign),
            "+" => Token::Flag(FlagType::Plus),
            "*" => Token::Flag(FlagType::Mul),
            "/" => Token::Flag(FlagType::Div),
            "(" => Token::Flag(FlagType::LParen),
            ")" => Token::Flag(FlagType::RParen),
            "local" => Token::Flag(FlagType::Local),
            "function" => Token::Flag(FlagType::Function),
            "return" => Token::Flag(FlagType::Return),
            "end" => Token::Flag(FlagType::End),
            other => match other.parse::<f64>() {
                Ok(value) => Token::Num(value.to_bits()),
                Err(_) => Token::Name(String::from(other)),
            },
        })
        .collect();
    tokens.push(Token::Flag(FlagType::EOF));
    tokens
}

#[test]
fn global_arith() {
    let ast = Parser::parse(tokens_of(&[
        "a", ",", "b", "=", "2.5", ",", "2", "*", "4", //
        "local", "c", "=", "(", "a", "+", "b", ")", "/", "10.5",
    ]))
    .unwrap();
    assert_eq!(*ast, global_arith_ast());

    let mut compiler = CodeGen::new();
    assert_eq!(compiler.compile(&ast), Ok(()));
}

#[test]
fn function_def() {
    let ast = Parser::parse(tokens_of(&[
        "local", "a", "=", "2", //
        "func", "=", "function", "(", ")", //
        "local", "b", "=", "3", //
        "return", "a", "+", "b", ",", "b", "+", "a", //
        "end",
    ]))
    .unwrap();
    assert_eq!(*ast, function_def_ast());

    let mut compiler = CodeGen::new();
    assert_eq!(compiler.compile(&ast), Ok(()));
}

#[test]
fn function_call() {
    let ast = Parser::parse(tokens_of(&[
        "local", "a", "=", "2", //
        "func", "=", "function", "(", "para", ")", //
        "return", "a", "+", "para", ",", "0", //
        "end", //
        "local", "b", ",", "c", "=", "func", "(", "1", ",", "2", ")", //
        "local", "d", "=", "b", "+", "c",
    ]))
    .unwrap();
    assert_eq!(
        *ast,
        program(vec![
            local(&["a"], vec![num(2.0)]),
            assign(
                &["func"],
                vec![function(
                    &["para"],
                    vec![],
                    Some(vec![binop(FlagType::Plus, var("a"), var("para")), num(0.0)]),
                )],
            ),
            local(&["b", "c"], vec![call(var("func"), vec![num(1.0), num(2.0)])]),
            local(&["d"], vec![binop(FlagType::Plus, var("b"), var("c"))]),
        ])
    );
    let mut compiler = CodeGen::new();
    assert_eq!(compiler.compile(&ast), Ok(()));
    let root = compiler.root_function();
    assert_eq!(
        root.instructions,
        vec![
            abx(OpName::LOADK, 0, 0),
            abx(OpName::CLOSURE, 1, 0),
            abx(OpName::MOVE, 0, 0),
            abx(OpName::SETGLOBAL, 1, 1),
            abx(OpName::GETGLOBAL, 2, 1),
            abx(OpName::LOADK, 3, 2),
            abx(OpName::LOADK, 4, 0),
            abc(OpName::CALL, 2, 3, 3),
            abc(OpName::ADD, 5, 2, 3),
            abx(OpName::RETURN, 0, 1),
        ]
    );
    assert_eq!(root.constants, vec![number(2.0), text("func"), number(1.0)]);
    assert_eq!(root.stack_size, 6);
    let nested = &root.function_prototypes[0];
    assert_eq!(nested.para_num, 1);
    assert_eq!(nested.upvalue_num, 1);
    assert_eq!(
        nested.instructions,
        vec![
            abx(OpName::GETUPVAL, 3, 0),
            abc(OpName::ADD, 1, 3, 0),
            abx(OpName::LOADK, 2, 0),
            abx(OpName::RETURN, 1, 3),
            abx(OpName::RETURN, 0, 1),
        ]
    );
    assert_eq!(nested.constants, vec![number(0.0)]);
    assert!(registers_below(root));
}

#[test]
fn global_arithmetic_stream() {
    let compiler = compiled(&global_arith_ast());
    let root = compiler.root_function();
    assert_eq!(
        root.constants,
        vec![number(2.5), number(2.0), number(4.0), text("a"), text("b"), number(10.5)]
    );
    assert_eq!(
        root.instructions,
        vec![
            abx(OpName::LOADK, 0, 0),
            abx(OpName::LOADK, 1, 1),
            abx(OpName::LOADK, 2, 2),
            abc(OpName::MUL, 1, 1, 2),
            abx(OpName::SETGLOBAL, 0, 3),
            abx(OpName::SETGLOBAL, 1, 4),
            abx(OpName::GETGLOBAL, 3, 3),
            abx(OpName::GETGLOBAL, 4, 4),
            abc(OpName::ADD, 3, 3, 4),
            abx(OpName::LOADK, 5, 5),
            abc(OpName::DIV, 3, 3, 5),
            abx(OpName::RETURN, 0, 1),
        ]
    );
    assert_eq!(root.stack_size, 6);
    assert_eq!(root.para_num, 0);
    assert_eq!(root.upvalue_num, 0);
    assert!(root.is_vararg);
    assert!(root.function_prototypes.is_empty());
    assert!(registers_below(root));
}

#[test]
fn closure_capture() {
    let compiler = compiled(&function_def_ast());
    let root = compiler.root_function();
    assert_eq!(root.function_prototypes.len(), 1);
    assert_eq!(
        root.instructions,
        vec![
            abx(OpName::LOADK, 0, 0),
            abx(OpName::CLOSURE, 1, 0),
            abx(OpName::MOVE, 0, 0),
            abx(OpName::SETGLOBAL, 1, 1),
            abx(OpName::RETURN, 0, 1),
        ]
    );
    assert_eq!(root.constants, vec![number(2.0), text("func")]);
    assert_eq!(root.stack_size, 2);
    let nested = &root.function_prototypes[0];
    assert_eq!(nested.upvalue_num, 1);
    assert_eq!(nested.para_num, 0);
    assert!(!nested.is_vararg);
    assert_eq!(
        nested.instructions,
        vec![
            abx(OpName::LOADK, 0, 0),
            abx(OpName::GETUPVAL, 3, 0),
            abc(OpName::ADD, 1, 3, 0),
            abx(OpName::GETUPVAL, 4, 0),
            abc(OpName::ADD, 2, 0, 4),
            abx(OpName::RETURN, 1, 3),
            abx(OpName::RETURN, 0, 1),
        ]
    );
    assert_eq!(nested.constants, vec![number(3.0)]);
    assert_eq!(nested.stack_size, 5);
    assert!(registers_below(root));
}

#[test]
fn upvalue_is_relayed_through_the_function_in_between() {
    // local a = 1; f = function() g = function() return a end end
    let inner = function(&[], vec![], Some(vec![var("a")]));
    let outer = function(&[], vec![assign(&["g"], vec![inner])], None);
    let compiler = compiled(&program(vec![
        local(&["a"], vec![num(1.0)]),
        assign(&["f"], vec![outer]),
    ]));
    let root = compiler.root_function();
    assert_eq!(
        root.instructions,
        vec![
            abx(OpName::LOADK, 0, 0),
            abx(OpName::CLOSURE, 1, 0),
            abx(OpName::MOVE, 0, 0),
            abx(OpName::SETGLOBAL, 1, 1),
            abx(OpName::RETURN, 0, 1),
        ]
    );
    let middle = &root.function_prototypes[0];
    assert_eq!(middle.upvalue_num, 1);
    assert_eq!(
        middle.instructions,
        vec![
            abx(OpName::CLOSURE, 0, 0),
            abx(OpName::GETUPVAL, 0, 0),
            abx(OpName::SETGLOBAL, 0, 0),
            abx(OpName::RETURN, 0, 1),
        ]
    );
    let innermost = &middle.function_prototypes[0];
    assert_eq!(innermost.upvalue_num, 1);
    assert_eq!(
        innermost.instructions,
        vec![
            abx(OpName::GETUPVAL, 0, 0),
            abx(OpName::RETURN, 0, 2),
            abx(OpName::RETURN, 0, 1),
        ]
    );
    assert!(registers_below(root));
}

#[test]
fn multi_return_call() {
    let compiler = compiled(&program(vec![
        local(&["b", "c"], vec![call(var("func"), vec![num(1.0), num(2.0)])]),
        local(&["d"], vec![binop(FlagType::Plus, var("b"), var("c"))]),
    ]));
    let root = compiler.root_function();
    assert_eq!(
        root.instructions,
        vec![
            abx(OpName::GETGLOBAL, 0, 0),
            abx(OpName::LOADK, 1, 1),
            abx(OpName::LOADK, 2, 2),
            abc(OpName::CALL, 0, 3, 3),
            abc(OpName::ADD, 3, 0, 1),
            abx(OpName::RETURN, 0, 1),
        ]
    );
    assert_eq!(root.constants, vec![text("func"), number(1.0), number(2.0)]);
    assert_eq!(root.stack_size, 4);
    assert!(registers_below(root));
}

#[test]
fn boolean_short_circuit_materialization() {
    // local c = not (2 <= 3 or a == b)
    let predicate = unop(
        FlagType::Not,
        binop(
            FlagType::OR,
            binop(FlagType::LEQ, num(2.0), num(3.0)),
            binop(FlagType::EQ, var("a"), var("b")),
        ),
    );
    let compiler = compiled(&program(vec![local(&["c"], vec![predicate])]));
    let root = compiler.root_function();
    assert_eq!(
        root.instructions,
        vec![
            abx(OpName::LOADK, 1, 0),
            abx(OpName::LOADK, 2, 1),
            abc(OpName::LE, 1, 1, 2),
            jmp(4),
            abx(OpName::GETGLOBAL, 3, 2),
            abx(OpName::GETGLOBAL, 4, 3),
            abc(OpName::EQ, 0, 3, 4),
            jmp(1),
            abc(OpName::LOADBOOL, 0, 0, 1),
            abc(OpName::LOADBOOL, 0, 1, 0),
            abx(OpName::RETURN, 0, 1),
        ]
    );
    assert_eq!(root.constants, vec![number(2.0), number(3.0), text("a"), text("b")]);
    assert_eq!(root.stack_size, 5);
    assert!(jumps_land(root));
    assert!(registers_below(root));
}

#[test]
fn boolean() {
    // local a, b = true, false
    // local c = not ( 2 <= 3 or a == b )
    let predicate = unop(
        FlagType::Not,
        binop(
            FlagType::OR,
            binop(FlagType::LEQ, num(2.0), num(3.0)),
            binop(FlagType::EQ, var("a"), var("b")),
        ),
    );
    let ast = program(vec![
        local(
            &["a", "b"],
            vec![Box::new(Expr::Boole(true)), Box::new(Expr::Boole(false))],
        ),
        local(&["c"], vec![predicate]),
    ]);
    let mut compiler = CodeGen::new();
    assert_eq!(compiler.compile(&ast), Ok(()));
    let root = compiler.root_function();
    assert_eq!(
        root.instructions,
        vec![
            abc(OpName::LOADBOOL, 0, 1, 0),
            abc(OpName::LOADBOOL, 1, 0, 0),
            abx(OpName::LOADK, 3, 0),
            abx(OpName::LOADK, 4, 1),
            abc(OpName::LE, 1, 3, 4),
            jmp(2),
            abc(OpName::EQ, 0, 0, 1),
            jmp(1),
            abc(OpName::LOADBOOL, 2, 0, 1),
            abc(OpName::LOADBOOL, 2, 1, 0),
            abx(OpName::RETURN, 0, 1),
        ]
    );
    assert!(jumps_land(root));
    assert!(registers_below(root));
}

#[test]
fn conjunction_of_variables_and_literals() {
    // x = a and true
    let compiler = compiled(&program(vec![
        local(&["a"], vec![Box::new(Expr::Boole(false))]),
        assign(
            &["x"],
            vec![binop(FlagType::AND, var("a"), Box::new(Expr::Boole(true)))],
        ),
    ]));
    let root = compiler.root_function();
    assert_eq!(
        root.instructions,
        vec![
            abc(OpName::LOADBOOL, 0, 0, 0),
            abx(OpName::TEST, 0, 0),
            jmp(1),
            jmp(1),
            abc(OpName::LOADBOOL, 1, 0, 1),
            abc(OpName::LOADBOOL, 1, 1, 0),
            abx(OpName::SETGLOBAL, 1, 0),
            abx(OpName::RETURN, 0, 1),
        ]
    );
    assert!(jumps_land(root));
}

#[test]
fn relational_operators_choose_opcode_and_polarity() {
    let cases = [
        (FlagType::LESS, OpName::LT, 1),
        (FlagType::LEQ, OpName::LE, 1),
        (FlagType::GREATER, OpName::LE, 0),
        (FlagType::GEQ, OpName::LT, 0),
        (FlagType::EQ, OpName::EQ, 1),
        (FlagType::NEQ, OpName::EQ, 0),
    ];
    for (flag, op, polarity) in cases {
        let compiler = compiled(&program(vec![assign(
            &["x"],
            vec![binop(flag, num(1.0), num(2.0))],
        )]));
        let root = compiler.root_function();
        assert_eq!(
            root.instructions,
            vec![
                abx(OpName::LOADK, 1, 0),
                abx(OpName::LOADK, 2, 1),
                abc(op, polarity, 1, 2),
                jmp(1),
                abc(OpName::LOADBOOL, 0, 0, 1),
                abc(OpName::LOADBOOL, 0, 1, 0),
                abx(OpName::SETGLOBAL, 0, 2),
                abx(OpName::RETURN, 0, 1),
            ]
        );
    }
}

#[test]
fn tail_call_as_last_argument() {
    // x = f(1, g())
    let compiler = compiled(&program(vec![assign(
        &["x"],
        vec![call(var("f"), vec![num(1.0), call(var("g"), vec![])])],
    )]));
    let root = compiler.root_function();
    assert_eq!(
        root.instructions,
        vec![
            abx(OpName::GETGLOBAL, 0, 0),
            abx(OpName::LOADK, 1, 1),
            abx(OpName::GETGLOBAL, 2, 2),
            abc(OpName::CALL, 2, 1, 0),
            abc(OpName::CALL, 0, 0, 2),
            abx(OpName::SETGLOBAL, 0, 3),
            abx(OpName::RETURN, 0, 1),
        ]
    );
    assert_eq!(root.constants, vec![text("f"), number(1.0), text("g"), text("x")]);
    assert!(registers_below(root));
}

#[test]
fn arguments_beyond_the_results_get_registers() {
    // x = f(1, 2, 3)
    let compiler = compiled(&program(vec![assign(
        &["x"],
        vec![call(var("f"), vec![num(1.0), num(2.0), num(3.0)])],
    )]));
    let root = compiler.root_function();
    assert_eq!(
        root.instructions,
        vec![
            abx(OpName::GETGLOBAL, 0, 0),
            abx(OpName::LOADK, 1, 1),
            abx(OpName::LOADK, 2, 2),
            abx(OpName::LOADK, 3, 3),
            abc(OpName::CALL, 0, 4, 2),
            abx(OpName::SETGLOBAL, 0, 4),
            abx(OpName::RETURN, 0, 1),
        ]
    );
    assert_eq!(root.stack_size, 4);
    assert!(registers_below(root));
}

#[test]
fn imbalanced_local_assignment() {
    let compiler = compiled(&program(vec![local(&["a", "b", "c"], vec![num(1.0)])]));
    let root = compiler.root_function();
    assert_eq!(
        root.instructions,
        vec![
            abx(OpName::LOADK, 0, 0),
            abx(OpName::LOADNIL, 1, 1),
            abx(OpName::RETURN, 0, 1),
        ]
    );
    assert_eq!(root.stack_size, 3);
    assert!(registers_below(root));
}

#[test]
fn constant_deduplication() {
    // x = 1; y = 1
    let compiler = compiled(&program(vec![
        assign(&["x"], vec![num(1.0)]),
        assign(&["y"], vec![num(1.0)]),
    ]));
    let root = compiler.root_function();
    assert_eq!(root.constants, vec![number(1.0), text("x"), text("y")]);
    assert_eq!(
        root.instructions,
        vec![
            abx(OpName::LOADK, 0, 0),
            abx(OpName::SETGLOBAL, 0, 1),
            abx(OpName::LOADK, 1, 0),
            abx(OpName::SETGLOBAL, 1, 2),
            abx(OpName::RETURN, 0, 1),
        ]
    );
}

#[test]
fn destructive_reuse_of_a_temporary() {
    // x = (1 + 2) + 3: the sum of the first two is overwritten by the total
    let compiler = compiled(&program(vec![assign(
        &["x"],
        vec![binop(
            FlagType::Plus,
            binop(FlagType::Plus, num(1.0), num(2.0)),
            num(3.0),
        )],
    )]));
    let root = compiler.root_function();
    assert_eq!(
        root.instructions,
        vec![
            abx(OpName::LOADK, 0, 0),
            abx(OpName::LOADK, 1, 1),
            abc(OpName::ADD, 0, 0, 1),
            abx(OpName::LOADK, 2, 2),
            abc(OpName::ADD, 0, 0, 2),
            abx(OpName::SETGLOBAL, 0, 3),
            abx(OpName::RETURN, 0, 1),
        ]
    );
    assert_eq!(root.stack_size, 3);
}

#[test]
fn a_local_operand_is_not_overwritten() {
    // local a = 1; x = a - 2
    let compiler = compiled(&program(vec![
        local(&["a"], vec![num(1.0)]),
        assign(&["x"], vec![binop(FlagType::Minus, var("a"), num(2.0))]),
    ]));
    let root = compiler.root_function();
    assert_eq!(
        root.instructions,
        vec![
            abx(OpName::LOADK, 0, 0),
            abx(OpName::LOADK, 1, 1),
            abc(OpName::SUB, 2, 0, 1),
            abx(OpName::SETGLOBAL, 2, 2),
            abx(OpName::RETURN, 0, 1),
        ]
    );
}

#[test]
fn local_rename_emits_no_move() {
    // local x = 1 + 2; local y = x; x = y
    let compiler = compiled(&program(vec![
        local(&["x"], vec![binop(FlagType::Plus, num(1.0), num(2.0))]),
        local(&["y"], vec![var("x")]),
        assign(&["x"], vec![var("y")]),
    ]));
    let root = compiler.root_function();
    assert_eq!(
        root.instructions,
        vec![
            abx(OpName::LOADK, 0, 0),
            abx(OpName::LOADK, 1, 1),
            abc(OpName::ADD, 0, 0, 1),
            abx(OpName::MOVE, 2, 0),
            abx(OpName::MOVE, 0, 2),
            abx(OpName::RETURN, 0, 1),
        ]
    );
}

#[test]
fn tail_call_spread() {
    // local a, b, c = f()
    let compiler = compiled(&program(vec![local(
        &["a", "b", "c"],
        vec![call(var("f"), vec![])],
    )]));
    let root = compiler.root_function();
    assert_eq!(
        root.instructions,
        vec![
            abx(OpName::GETGLOBAL, 0, 0),
            abc(OpName::CALL, 0, 1, 4),
            abx(OpName::RETURN, 0, 1),
        ]
    );
    // the three results arrive in the callee's register and the two behind it
    assert_eq!(root.stack_size, 3);
    assert!(registers_below(root));
}

#[test]
fn returned_call_is_moved_to_the_return_register() {
    // return f()
    let ast = Node::Block(Block::new(vec![], Some(vec![call(var("f"), vec![])])));
    let compiler = compiled(&ast);
    let root = compiler.root_function();
    assert_eq!(
        root.instructions,
        vec![
            abx(OpName::GETGLOBAL, 1, 0),
            abc(OpName::CALL, 1, 1, 2),
            abx(OpName::MOVE, 0, 1),
            abx(OpName::RETURN, 0, 2),
            abx(OpName::RETURN, 0, 1),
        ]
    );
    assert_eq!(root.stack_size, 2);
    assert!(registers_below(root));
}

#[test]
fn call_as_an_argument_that_is_not_the_last_is_moved_into_place() {
    // x = g(f(), 1)
    let compiler = compiled(&program(vec![assign(
        &["x"],
        vec![call(var("g"), vec![call(var("f"), vec![]), num(1.0)])],
    )]));
    let root = compiler.root_function();
    assert_eq!(
        root.instructions,
        vec![
            abx(OpName::GETGLOBAL, 0, 0),
            abx(OpName::GETGLOBAL, 2, 1),
            abc(OpName::CALL, 2, 1, 2),
            abx(OpName::MOVE, 1, 2),
            abx(OpName::LOADK, 2, 2),
            abc(OpName::CALL, 0, 3, 2),
            abx(OpName::SETGLOBAL, 0, 3),
            abx(OpName::RETURN, 0, 1),
        ]
    );
    assert_eq!(root.constants, vec![text("g"), text("f"), number(1.0), text("x")]);
    assert_eq!(root.stack_size, 3);
    assert!(registers_below(root));
}

#[test]
fn called_callee_is_moved_to_the_callee_register() {
    // x = f()()
    let compiler = compiled(&program(vec![assign(
        &["x"],
        vec![call(call(var("f"), vec![]), vec![])],
    )]));
    let root = compiler.root_function();
    assert_eq!(
        root.instructions,
        vec![
            abx(OpName::GETGLOBAL, 1, 0),
            abc(OpName::CALL, 1, 1, 2),
            abx(OpName::MOVE, 0, 1),
            abc(OpName::CALL, 0, 1, 2),
            abx(OpName::SETGLOBAL, 0, 1),
            abx(OpName::RETURN, 0, 1),
        ]
    );
    assert!(registers_below(root));
}

#[test]
fn last_argument_call_lands_behind_the_other_arguments() {
    // local a, b = f(g()): the inner callee goes where the argument would
    let compiler = compiled(&program(vec![local(
        &["a", "b"],
        vec![call(var("f"), vec![call(var("g"), vec![])])],
    )]));
    let root = compiler.root_function();
    assert_eq!(
        root.instructions,
        vec![
            abx(OpName::GETGLOBAL, 0, 0),
            abx(OpName::GETGLOBAL, 1, 1),
            abc(OpName::CALL, 1, 1, 0),
            abc(OpName::CALL, 0, 0, 3),
            abx(OpName::RETURN, 0, 1),
        ]
    );
    assert_eq!(root.stack_size, 2);
    // x = f(1, 2, g(3)): behind two arguments
    let compiler = compiled(&program(vec![assign(
        &["x"],
        vec![call(
            var("f"),
            vec![num(1.0), num(2.0), call(var("g"), vec![num(3.0)])],
        )],
    )]));
    let root = compiler.root_function();
    assert_eq!(
        root.instructions,
        vec![
            abx(OpName::GETGLOBAL, 0, 0),
            abx(OpName::LOADK, 1, 1),
            abx(OpName::LOADK, 2, 2),
            abx(OpName::GETGLOBAL, 3, 3),
            abx(OpName::LOADK, 4, 4),
            abc(OpName::CALL, 3, 2, 0),
            abc(OpName::CALL, 0, 0, 2),
            abx(OpName::SETGLOBAL, 0, 5),
            abx(OpName::RETURN, 0, 1),
        ]
    );
    assert_eq!(root.stack_size, 5);
    assert!(registers_below(root));
}

#[test]
fn truncation() {
    // a = 1, 2, 3
    let compiler = compiled(&program(vec![assign(
        &["a"],
        vec![num(1.0), num(2.0), num(3.0)],
    )]));
    let root = compiler.root_function();
    assert_eq!(
        root.instructions,
        vec![
            abx(OpName::LOADK, 0, 0),
            abx(OpName::SETGLOBAL, 0, 1),
            abx(OpName::RETURN, 0, 1),
        ]
    );
    assert_eq!(root.constants, vec![number(1.0), text("a")]);
}

#[test]
fn explicit_return_is_followed_by_the_closing_one() {
    let ast = Node::Block(Block::new(vec![], Some(vec![num(7.0), var("x")])));
    let compiler = compiled(&ast);
    let root = compiler.root_function();
    assert_eq!(
        root.instructions,
        vec![
            abx(OpName::LOADK, 0, 0),
            abx(OpName::GETGLOBAL, 1, 1),
            abx(OpName::RETURN, 0, 3),
            abx(OpName::RETURN, 0, 1),
        ]
    );
}

#[test]
fn empty_program_is_a_single_return() {
    let compiler = compiled(&program(vec![]));
    let root = compiler.root_function();
    assert_eq!(root.instructions, vec![abx(OpName::RETURN, 0, 1)]);
    assert_eq!(root.stack_size, 0);
    assert!(root.constants.is_empty());
}

#[test]
fn unary_plus_passes_through() {
    let compiler = compiled(&program(vec![assign(
        &["x"],
        vec![unop(FlagType::Plus, num(5.0))],
    )]));
    assert_eq!(
        compiler.root_function().instructions,
        vec![
            abx(OpName::LOADK, 0, 0),
            abx(OpName::SETGLOBAL, 0, 1),
            abx(OpName::RETURN, 0, 1),
        ]
    );
}

#[test]
fn register_variable_stands_for_itself() {
    let compiler = compiled(&program(vec![
        local(&["a"], vec![num(1.0)]),
        assign(&["x"], vec![Box::new(Expr::Var(Var::Reg(0)))]),
    ]));
    assert_eq!(
        compiler.root_function().instructions,
        vec![
            abx(OpName::LOADK, 0, 0),
            abx(OpName::SETGLOBAL, 0, 1),
            abx(OpName::RETURN, 0, 1),
        ]
    );
}

#[test]
fn parameters_take_the_first_registers() {
    // f = function(p, q) return q end
    let compiler = compiled(&program(vec![assign(
        &["f"],
        vec![function(&["p", "q"], vec![], Some(vec![var("q")]))],
    )]));
    let nested = &compiler.root_function().function_prototypes[0];
    assert_eq!(nested.para_num, 2);
    assert_eq!(
        nested.instructions,
        vec![
            abx(OpName::MOVE, 2, 1),
            abx(OpName::RETURN, 2, 2),
            abx(OpName::RETURN, 0, 1),
        ]
    );
    assert_eq!(nested.stack_size, 3);
}

#[test]
fn unsupported_constructs_are_unimplemented() {
    let unsupported: Vec<Node> = vec![
        program(vec![Box::new(Stat::Break)]),
        program(vec![Box::new(Stat::Empty)]),
        program(vec![Box::new(Stat::While(
            Box::new(Expr::Boole(true)),
            Box::new(Block::new(vec![], None)),
        ))]),
        program(vec![Box::new(Stat::IfElse(
            Box::new(Expr::Boole(true)),
            Box::new(Block::new(vec![], None)),
            None,
        ))]),
        program(vec![Box::new(Stat::ForRange(
            vec![String::from("i")],
            vec![num(1.0)],
            Box::new(Block::new(vec![], None)),
        ))]),
        program(vec![assign(&["x"], vec![Box::new(Expr::Str(String::from("s")))])]),
        program(vec![assign(&["x"], vec![unop(FlagType::Minus, num(1.0))])]),
        program(vec![assign(&["x"], vec![unop(FlagType::Not, num(1.0))])]),
        program(vec![assign(&["x"], vec![binop(FlagType::Comma, num(1.0), num(2.0))])]),
        program(vec![assign(
            &["x"],
            vec![Box::new(Expr::Var(Var::PrefixExp(num(1.0))))],
        )]),
        program(vec![Box::new(Stat::Assign(vec![Var::Reg(0)], vec![num(1.0)]))]),
        // assignment to a captured variable
        program(vec![
            local(&["a"], vec![num(1.0)]),
            assign(
                &["f"],
                vec![function(&[], vec![assign(&["a"], vec![num(2.0)])], None)],
            ),
        ]),
    ];
    for ast in &unsupported {
        let mut compiler = CodeGen::new();
        assert_eq!(compiler.compile(ast), Err(CompileError::Unimplemented));
    }
}

#[test]
fn an_expression_is_no_unit() {
    let mut compiler = CodeGen::new();
    assert_eq!(
        compiler.compile(&Node::Expr(Expr::Num(1.0f64.to_bits()))),
        Err(CompileError::SyntaxError)
    );
}

#[test]
fn failed_compile_keeps_the_root_function() {
    let mut compiler = compiled(&global_arith_ast());
    let before = compiler.root_function().instructions.clone();
    assert_eq!(
        compiler.compile(&program(vec![Box::new(Stat::Break)])),
        Err(CompileError::Unimplemented)
    );
    assert_eq!(compiler.root_function().instructions, before);
}

#[test]
fn each_compile_starts_from_an_empty_table() {
    let mut compiler = compiled(&program(vec![local(&["a"], vec![num(1.0)])]));
    // `a` of the unit before is unknown here and read as a global
    assert_eq!(
        compiler.compile(&program(vec![assign(&["x"], vec![var("a")])])),
        Ok(())
    );
    assert_eq!(
        compiler.root_function().instructions,
        vec![
            abx(OpName::GETGLOBAL, 0, 0),
            abx(OpName::SETGLOBAL, 0, 1),
            abx(OpName::RETURN, 0, 1),
        ]
    );
}

#[test]
fn new_generator_has_an_empty_root() {
    let compiler = CodeGen::new();
    let root = compiler.root_function();
    assert!(root.instructions.is_empty());
    assert_eq!(root.stack_size, 0);
}

#[test]
fn every_stream_ends_in_return() {
    for ast in [global_arith_ast(), function_def_ast()] {
        let compiler = compiled(&ast);
        let root = compiler.root_function();
        assert_eq!(root.instructions.last(), Some(&abx(OpName::RETURN, 0, 1)));
        for nested in &root.function_prototypes {
            assert_eq!(nested.instructions.last(), Some(&abx(OpName::RETURN, 0, 1)));
        }
    }
}

#[test]
fn nested_functions_are_numbered_and_keep_to_themselves() {
    let inner = vec![local(&["b"], vec![num(2.0)]), assign(&["x"], vec![num(3.0)])];
    let ast = program(vec![
        local(&["a"], vec![num(1.0)]),
        assign(&["f"], vec![function(&[], inner, None)]),
        assign(&["g"], vec![function(&[], vec![], None)]),
    ]);
    let compiler = compiled(&ast);
    let root = compiler.root_function();
    assert_eq!(
        root.instructions,
        vec![
            abx(OpName::LOADK, 0, 0),
            abx(OpName::CLOSURE, 1, 0),
            abx(OpName::SETGLOBAL, 1, 1),
            abx(OpName::CLOSURE, 2, 1),
            abx(OpName::SETGLOBAL, 2, 2),
            abx(OpName::RETURN, 0, 1),
        ]
    );
    assert_eq!(root.constants, vec![number(1.0), text("f"), text("g")]);
    assert_eq!(root.stack_size, 3);
    assert_eq!(root.function_prototypes.len(), 2);
    let first = &root.function_prototypes[0];
    assert_eq!(
        first.instructions,
        vec![
            abx(OpName::LOADK, 0, 0),
            abx(OpName::LOADK, 1, 1),
            abx(OpName::SETGLOBAL, 1, 2),
            abx(OpName::RETURN, 0, 1),
        ]
    );
    assert_eq!(first.constants, vec![number(2.0), number(3.0), text("x")]);
    assert_eq!(first.stack_size, 2);
    let second = &root.function_prototypes[1];
    assert_eq!(second.instructions, vec![abx(OpName::RETURN, 0, 1)]);
    assert!(second.constants.is_empty());
    assert_eq!(second.stack_size, 0);
}
