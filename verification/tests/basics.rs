use luagen::compiler::opcodes::{flag_to_op, flag_to_test, OpName};
use luagen::compiler::types::{
    extract_expect_reg, Expect, FunctionChunk, FunctionPrototype, UpvalueDescriptor,
};
use luagen::parser::types::{Block, Expr, Node, PrefixExp, Stat};
use luagen::tokens::{FlagType, Token};

#[test]
fn arithmetic_tokens_have_opcodes() {
    assert_eq!(flag_to_op(FlagType::Plus), Some(OpName::ADD));
    assert_eq!(flag_to_op(FlagType::Minus), Some(OpName::SUB));
    assert_eq!(flag_to_op(FlagType::Mul), Some(OpName::MUL));
    assert_eq!(flag_to_op(FlagType::Div), Some(OpName::DIV));
    assert_eq!(flag_to_op(FlagType::EQ), None);
    assert_eq!(flag_to_op(FlagType::AND), None);
    assert_eq!(flag_to_op(FlagType::Comma), None);
}

#[test]
fn relational_tokens_have_tests() {
    assert_eq!(flag_to_test(FlagType::LESS), Some((OpName::LT, true)));
    assert_eq!(flag_to_test(FlagType::LEQ), Some((OpName::LE, true)));
    assert_eq!(flag_to_test(FlagType::GREATER), Some((OpName::LE, false)));
    assert_eq!(flag_to_test(FlagType::GEQ), Some((OpName::LT, false)));
    assert_eq!(flag_to_test(FlagType::EQ), Some((OpName::EQ, true)));
    assert_eq!(flag_to_test(FlagType::NEQ), Some((OpName::EQ, false)));
    assert_eq!(flag_to_test(FlagType::Plus), None);
    assert_eq!(flag_to_test(FlagType::OR), None);
}

#[test]
fn hint_names_its_register() {
    assert_eq!(extract_expect_reg(Some(Expect::Reg(4))), Some(4));
    assert_eq!(extract_expect_reg(None), None);
}

#[test]
fn prototype_pairs_function_and_upvalues() {
    let mut chunk = FunctionChunk::new();
    assert!(chunk.instructions.is_empty());
    assert!(chunk.constants.is_empty());
    assert!(chunk.function_prototypes.is_empty());
    assert!(!chunk.is_vararg);
    chunk.upvalue_num = 1;
    let list = vec![UpvalueDescriptor {
        is_immediate: true,
        slot_in_enclosing: 2,
        slot_in_closure: 0,
    }];
    let proto = FunctionPrototype::new(chunk, list.clone());
    assert_eq!(proto.prototype.upvalue_num, 1);
    assert_eq!(proto.upvalue_list, list);
}

#[test]
fn block_of_a_node() {
    let stats = vec![Box::new(Stat::Break)];
    let block = Block::new(stats, None);
    assert_eq!(block.stats.len(), 1);
    assert_eq!(block.ret, None);
    assert_eq!(
        Block::from_node_enum(Node::Block(Block::new(vec![], Some(vec![])))),
        Some(Block::new(vec![], Some(vec![])))
    );
    assert_eq!(Block::from_node_enum(Node::Expr(Expr::Boole(true))), None);
    assert_ne!(PrefixExp::FuncCall, PrefixExp::Var);
}

#[test]
fn token_kinds() {
    assert_eq!(Token::Num(1.0f64.to_bits()).flag(), FlagType::Integer);
    assert_eq!(Token::Name(String::from("a")).flag(), FlagType::Name);
    assert_eq!(Token::Str(String::from("a")).flag(), FlagType::Str);
    assert_eq!(Token::Flag(FlagType::Comma).flag(), FlagType::Comma);
}

#[test]
fn token_copy_is_the_same_token() {
    let token = Token::Name(String::from("abc"));
    assert!(matches!(token.duplicate(), Token::Name(name) if name == "abc"));
    assert!(matches!(Token::Num(7).duplicate(), Token::Num(7)));
    assert!(matches!(Token::Flag(FlagType::End).duplicate(), Token::Flag(FlagType::End)));
}
