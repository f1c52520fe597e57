use berg_compiler::ast::Ast;
use berg_compiler::block::BlockTexts;
use berg_compiler::identifiers::{known_identifiers, PLUS, TRUE};
use berg_compiler::block::{
    BlockFieldValue, BlockRef, BlockState, Blocks, Evaluation, FieldAssignment, FieldError, FieldLookup, ScopeRef,
};
use berg_compiler::error::{BergError, Error, ErrorVal, ExpressionErrorPosition, ExpressionRef};
use berg_compiler::index::{AstIndex, BlockIndex, FieldIndex, IdentifierIndex};
use berg_compiler::syntax::{AstBlock, ExpressionBoundary};

fn ast_blocks() -> Vec<AstBlock> {
    vec![
        AstBlock { boundary: ExpressionBoundary::Source, parent: BlockIndex(0), scope_start: FieldIndex(0) },
        AstBlock { boundary: ExpressionBoundary::CurlyBraces, parent: BlockIndex(0), scope_start: FieldIndex(2) },
    ]
}

fn is_circular_at(result: &Result<u32, ErrorVal<u32>>, root: u32) -> bool {
    matches!(
        result,
        Err(ErrorVal::Error(Error { error: BergError::CircularDependency, expression: ExpressionRef { root: AstIndex(r) } }))
            if *r == root
    )
}

fn root_block(blocks: &mut Blocks<u32>) -> BlockRef {
    BlockRef::new(blocks, AstIndex(0), BlockIndex(0), ScopeRef::Root, Ok(5))
}

#[test]
fn new_blocks_are_ready() {
    let mut blocks = Blocks::new(0u32);
    let r = root_block(&mut blocks);
    assert_eq!(r, BlockRef(0));
    assert!(matches!(blocks.data[0].state, BlockState::Ready));
    assert!(blocks.data[0].fields.is_empty());
    assert_eq!(blocks.data[0].parent, ScopeRef::Root);
    assert!(matches!(blocks.data[0].input, Ok(5)));
    let child = r.create_child_block(&mut blocks, AstIndex(3), BlockIndex(1));
    assert_eq!(child, BlockRef(1));
    assert_eq!(blocks.data[1].parent, ScopeRef::Block(r));
    assert_eq!(blocks.data[1].expression, AstIndex(3));
    assert!(matches!(blocks.data[1].input, Ok(0)));
}

#[test]
fn a_block_is_evaluated_once() {
    let mut blocks = Blocks::new(0u32);
    let r = root_block(&mut blocks);
    assert!(matches!(r.begin_evaluation(&mut blocks, 2), Ok(Evaluation::Run)));
    assert!(matches!(blocks.data[0].state, BlockState::Running));
    assert_eq!(blocks.data[0].fields.len(), 2);
    assert!(matches!(blocks.data[0].fields[1], BlockFieldValue::NotDeclared));
    // Asking again while it runs is a circular dependency.
    let again = r.begin_evaluation(&mut blocks, 2);
    assert!(matches!(
        again,
        Err(ErrorVal::Error(Error { error: BergError::CircularDependency, expression: ExpressionRef { root: AstIndex(0) } }))
    ));
    assert!(is_circular_at(&r.clone_result(&blocks), 0));
    r.finish_evaluation(&mut blocks, Ok(42));
    assert!(matches!(r.begin_evaluation(&mut blocks, 2), Ok(Evaluation::AlreadyComplete)));
    assert!(matches!(r.clone_result(&blocks), Ok(42)));
}

#[test]
fn taking_and_replacing_results() {
    let mut blocks = Blocks::new(0u32);
    let r = root_block(&mut blocks);
    r.begin_evaluation(&mut blocks, 0).unwrap();
    r.finish_evaluation(&mut blocks, Ok(42));
    assert!(matches!(r.take_result(&mut blocks, BlockState::NextVal), Ok(42)));
    assert!(matches!(blocks.data[0].state, BlockState::NextVal));
    assert!(is_circular_at(&r.clone_result(&blocks), 0));
    assert!(is_circular_at(&r.take_result(&mut blocks, BlockState::Ready), 0));
    r.replace_result(&mut blocks, Ok(43));
    assert!(matches!(r.clone_result(&blocks), Ok(43)));
    assert!(matches!(r.take_result(&mut blocks, BlockState::Complete(Ok(1))), Ok(43)));
    assert!(matches!(r.clone_result(&blocks), Ok(1)));
}

#[test]
fn declaring_fields_takes_from_the_input() {
    let mut blocks = Blocks::new(0u32);
    let r = root_block(&mut blocks);
    let ast = ast_blocks();
    r.begin_evaluation(&mut blocks, 2).unwrap();
    assert!(matches!(r.declare_field(&mut blocks, FieldIndex(0), &ast), Ok(Some(5))));
    assert!(matches!(
        blocks.data[0].input,
        Err(ErrorVal::ExpressionError(BergError::CircularDependency, ExpressionErrorPosition::Expression))
    ));
    r.finish_declare_field(&mut blocks, FieldIndex(0), &ast, Some((5, Ok(7))));
    assert!(matches!(blocks.data[0].fields[0], BlockFieldValue::Value(5)));
    assert!(matches!(blocks.data[0].input, Ok(7)));
    // A declared field is not declared again.
    assert!(matches!(r.declare_field(&mut blocks, FieldIndex(0), &ast), Ok(None)));
    assert!(matches!(r.declare_field(&mut blocks, FieldIndex(1), &ast), Ok(Some(7))));
    r.finish_declare_field(&mut blocks, FieldIndex(1), &ast, None);
    assert!(matches!(blocks.data[0].fields[1], BlockFieldValue::NotSet));
    assert!(matches!(r.local_field(&blocks, FieldIndex(0), &ast), FieldLookup::Found(Ok(5))));
    assert!(matches!(
        r.local_field(&blocks, FieldIndex(1), &ast),
        FieldLookup::Found(Err(ErrorVal::ExpressionError(BergError::FieldNotSet(FieldIndex(1)), ExpressionErrorPosition::Expression)))
    ));
}

#[test]
fn an_input_error_stops_declaration() {
    let mut blocks = Blocks::new(0u32);
    let r = BlockRef::new(&mut blocks, AstIndex(0), BlockIndex(0), ScopeRef::Root, BergError::DivideByZero.err());
    let ast = ast_blocks();
    r.begin_evaluation(&mut blocks, 1).unwrap();
    assert!(matches!(
        r.declare_field(&mut blocks, FieldIndex(0), &ast),
        Err(ErrorVal::ExpressionError(BergError::DivideByZero, ExpressionErrorPosition::Expression))
    ));
    assert!(matches!(blocks.data[0].fields[0], BlockFieldValue::NotDeclared));
}

#[test]
fn fields_fall_back_to_the_parent() {
    let mut blocks = Blocks::new(0u32);
    let r = root_block(&mut blocks);
    let ast = ast_blocks();
    r.begin_evaluation(&mut blocks, 2).unwrap();
    let child = r.create_child_block(&mut blocks, AstIndex(3), BlockIndex(1));
    child.begin_evaluation(&mut blocks, 1).unwrap();
    // Field 0 belongs to the parent block.
    assert_eq!(child.set_local_field(&mut blocks, FieldIndex(0), 11, &ast), FieldAssignment::Done);
    assert!(matches!(blocks.data[0].fields[0], BlockFieldValue::Value(11)));
    assert!(matches!(child.local_field(&blocks, FieldIndex(0), &ast), FieldLookup::Found(Ok(11))));
    // Field 2 is the child's own, not declared yet.
    assert!(matches!(
        child.local_field(&blocks, FieldIndex(2), &ast),
        FieldLookup::Found(Err(ErrorVal::ExpressionError(BergError::NoSuchField(FieldIndex(2)), ExpressionErrorPosition::Expression)))
    ));
    assert_eq!(child.set_local_field(&mut blocks, FieldIndex(2), 12, &ast), FieldAssignment::Done);
    assert!(matches!(child.local_field(&blocks, FieldIndex(2), &ast), FieldLookup::Found(Ok(12))));
    // Past the child's fields: no such field.
    assert!(matches!(
        child.local_field(&blocks, FieldIndex(3), &ast),
        FieldLookup::Found(Err(ErrorVal::ExpressionError(BergError::NoSuchField(FieldIndex(3)), ExpressionErrorPosition::Expression)))
    ));
}

#[test]
fn root_fields_go_to_the_root() {
    let mut blocks = Blocks::new(0u32);
    let r = BlockRef::new(&mut blocks, AstIndex(0), BlockIndex(1), ScopeRef::Root, Ok(5));
    let ast = ast_blocks();
    r.begin_evaluation(&mut blocks, 1).unwrap();
    assert!(matches!(r.local_field(&blocks, FieldIndex(1), &ast), FieldLookup::Root(FieldIndex(1))));
    assert_eq!(r.set_local_field(&mut blocks, FieldIndex(1), 3, &ast), FieldAssignment::Root(FieldIndex(1)));
    assert!(matches!(blocks.data[0].fields[0], BlockFieldValue::NotDeclared));
}

#[test]
fn applying_a_block_makes_a_fresh_one() {
    let mut blocks = Blocks::new(0u32);
    let r = root_block(&mut blocks);
    let child = r.create_child_block(&mut blocks, AstIndex(3), BlockIndex(1));
    child.begin_evaluation(&mut blocks, 1).unwrap();
    child.finish_evaluation(&mut blocks, Ok(8));
    let applied = child.apply(&mut blocks, Ok(9));
    assert_eq!(applied, BlockRef(2));
    assert!(matches!(blocks.data[2].state, BlockState::Ready));
    assert_eq!(blocks.data[2].expression, AstIndex(3));
    assert_eq!(blocks.data[2].index, BlockIndex(1));
    assert_eq!(blocks.data[2].parent, ScopeRef::Block(r));
    assert!(matches!(blocks.data[2].input, Ok(9)));
    assert!(matches!(child.clone_result(&blocks), Ok(8)));
}

#[test]
fn public_fields() {
    let mut blocks = Blocks::new(0u32);
    let r = root_block(&mut blocks);
    let ast = ast_blocks();
    r.begin_evaluation(&mut blocks, 2).unwrap();
    r.set_local_field(&mut blocks, FieldIndex(1), 21, &ast);
    r.finish_evaluation(&mut blocks, Ok(42));
    let name = IdentifierIndex(20);
    let missing: Result<u32, ErrorVal<u32>> = BergError::NoSuchPublicFieldOnValue(42, name).err();
    // The value lacks the field, so the block's own is used.
    assert!(matches!(r.field(&blocks, name, missing, Ok(FieldIndex(1)), &ast), FieldLookup::Found(Ok(21))));
    assert!(matches!(
        r.field(&blocks, name, missing, Err(FieldError::PrivateField), &ast),
        FieldLookup::Found(Err(ErrorVal::ExpressionError(BergError::PrivateField(BlockRef(0), IdentifierIndex(20)), ExpressionErrorPosition::Expression)))
    ));
    // The value's own answer stands otherwise.
    assert!(matches!(r.field(&blocks, name, Ok(3), Ok(FieldIndex(1)), &ast), FieldLookup::Found(Ok(3))));
    let other: Result<u32, ErrorVal<u32>> = BergError::DivideByZero.err();
    assert!(matches!(
        r.field(&blocks, name, other, Ok(FieldIndex(1)), &ast),
        FieldLookup::Found(Err(ErrorVal::ExpressionError(BergError::DivideByZero, _)))
    ));
    assert!(matches!(r.set_field(&mut blocks, name, 30, Ok(FieldIndex(0)), &ast), Ok(FieldAssignment::Done)));
    assert!(matches!(blocks.data[0].fields[0], BlockFieldValue::Value(30)));
    assert!(matches!(
        r.set_field(&mut blocks, name, 31, Err(FieldError::NoSuchPublicField), &ast),
        Err(ErrorVal::ExpressionError(BergError::NoSuchPublicField(BlockRef(0), IdentifierIndex(20)), ExpressionErrorPosition::Expression))
    ));
    let e: Result<(), ErrorVal<u32>> = r.field_error(FieldError::NoSuchPublicField, name);
    assert!(matches!(e, Err(ErrorVal::ExpressionError(BergError::NoSuchPublicField(BlockRef(0), IdentifierIndex(20)), _))));
}

#[test]
fn setting_a_field_of_a_running_block_is_circular() {
    let mut blocks = Blocks::new(0u32);
    let r = root_block(&mut blocks);
    let ast = ast_blocks();
    r.begin_evaluation(&mut blocks, 2).unwrap();
    let result = r.set_field(&mut blocks, IdentifierIndex(20), 1, Ok(FieldIndex(0)), &ast);
    assert!(matches!(
        result,
        Err(ErrorVal::Error(Error { error: BergError::CircularDependency, expression: ExpressionRef { root: AstIndex(0) } }))
    ));
    assert!(matches!(blocks.data[0].fields[0], BlockFieldValue::NotDeclared));
}

#[test]
fn errors_are_placed_at_the_block_expression() {
    let mut blocks = Blocks::new(0u32);
    let r = BlockRef::new(&mut blocks, AstIndex(6), BlockIndex(0), ScopeRef::Root, Ok(5));
    let e: Result<u8, ErrorVal<u32>> = r.delocalize_error(&blocks, BergError::DivideByZero);
    assert!(matches!(
        e,
        Err(ErrorVal::Error(Error { error: BergError::DivideByZero, expression: ExpressionRef { root: AstIndex(6) } }))
    ));
}

fn described(blocks: &Blocks<u32>, r: BlockRef, result: &str, input: Option<&str>, values: Vec<&str>) -> String {
    let mut ast: Ast<u8> = Ast::new(known_identifiers(), &vec![IdentifierIndex(TRUE), IdentifierIndex(PLUS)]);
    ast.blocks = ast_blocks();
    let texts = BlockTexts {
        result: String::from(result),
        input: input.map(String::from),
        values: values.into_iter().map(String::from).collect(),
        expression: String::from("a + b"),
    };
    r.to_string(blocks, &ast, &texts)
}

#[test]
fn blocks_describe_themselves() {
    let mut blocks = Blocks::new(0u32);
    let r = root_block(&mut blocks);
    assert_eq!(described(&blocks, r, "", Some("5"), vec![]), "block(Ready, input: 5, expression: a + b)");
    let ast = ast_blocks();
    r.begin_evaluation(&mut blocks, 2).unwrap();
    r.set_local_field(&mut blocks, FieldIndex(1), 8, &ast);
    assert_eq!(
        described(&blocks, r, "", None, vec!["?", "8"]),
        "block(Running, fields: {true: <undeclared>, +: 8}, expression: a + b)"
    );
    r.finish_declare_field(&mut blocks, FieldIndex(0), &ast, None);
    r.finish_evaluation(&mut blocks, Ok(42));
    assert_eq!(
        described(&blocks, r, "42", None, vec!["?", "8"]),
        "block(Complete(42), fields: {true: <not set>, +: 8}, expression: a + b)"
    );
    r.take_result(&mut blocks, BlockState::NextVal);
    assert_eq!(BlockState::<u32>::NextVal.to_string("x"), "NextVal");
    assert_eq!(BlockState::<u32>::Complete(Ok(1)).to_string("1"), "Complete(1)");
}

#[test]
fn next_values_come_out_of_a_result() {
    let mut blocks = Blocks::new(0u32);
    let r = root_block(&mut blocks);
    r.begin_evaluation(&mut blocks, 0).unwrap();
    r.finish_evaluation(&mut blocks, Ok(42));
    assert!(matches!(r.take_result(&mut blocks, BlockState::NextVal), Ok(42)));
    // The result's next value is 4, with 2 left.
    assert!(matches!(r.finish_next_val(&mut blocks, Ok(Some((4, Ok(2))))), Ok(Some((4, BlockRef(0))))));
    assert!(matches!(r.clone_result(&blocks), Ok(2)));
    r.take_result(&mut blocks, BlockState::NextVal).unwrap();
    assert!(matches!(r.finish_next_val(&mut blocks, Ok(None)), Ok(None)));
    assert!(matches!(blocks.data[0].state, BlockState::NextVal));
    let failed = r.finish_next_val(&mut blocks, Err(ErrorVal::ExpressionError(BergError::DivideByZero, ExpressionErrorPosition::Expression)));
    assert!(matches!(failed, Err(ErrorVal::ExpressionError(BergError::DivideByZero, _))));
}
