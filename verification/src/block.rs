//! Blocks: the running of an expression against a scope of fields and an
//! input. Blocks live in an arena (`Blocks`) and are referred to by
//! `BlockRef` handles, so several holders can share one block.
//!
//! Evaluating a block's expression is the evaluator's work. The block keeps
//! the state around it: `begin_evaluation` says whether to run the expression
//! (or reports a circular dependency), `finish_evaluation` stores what it
//! gave, and `take_result`, `clone_result`, `replace_result` and
//! `finish_next_val` hand out and update that result.

use crate::error::{BergError, BergResult, Error, ErrorVal, ExpressionErrorPosition, ExpressionRef};
use crate::index::{AstIndex, BlockIndex, FieldIndex, IdentifierIndex};
use crate::ast::Ast;
use crate::interner::interned;
use crate::syntax::AstBlock;
use vstd::prelude::*;

verus! {

/// A handle to a block in a `Blocks` arena. Two handles are equal exactly
/// when they refer to the same block.
#[derive(Debug, Clone, Copy, PartialEq, Eq, Structural)]
pub struct BlockRef(pub usize);

/// The scope a block's fields fall back to: the root, or a parent block.
#[derive(Debug, Clone, Copy, PartialEq, Eq, Structural)]
pub enum ScopeRef {
    Root,
    Block(BlockRef),
}

/// How far a block has come.
#[derive(Debug, Copy)]
pub enum BlockState<V> {
    /// Not evaluated yet.
    Ready,
    /// Its expression is being evaluated.
    Running,
    /// Its result is being split into a head and a tail.
    NextVal,
    /// Evaluated to this result.
    Complete(BergResult<V>),
}

/// The value of one of a block's fields.
#[derive(Debug, Clone, Copy)]
pub enum BlockFieldValue<V> {
    NotDeclared,
    NotSet,
    Value(V),
}

/// Why a public field could not be found.
#[derive(Debug, Clone, Copy, PartialEq, Eq, Structural)]
pub enum FieldError {
    NoSuchPublicField,
    PrivateField,
}

/// The data of one block.
#[derive(Debug)]
pub struct BlockData<V> {
    pub expression: AstIndex,
    pub index: BlockIndex,
    pub state: BlockState<V>,
    pub fields: Vec<BlockFieldValue<V>>,
    pub parent: ScopeRef,
    pub input: BergResult<V>,
}

/// All blocks, and the value a new child block gets as its input (the empty
/// tuple).
#[derive(Debug)]
pub struct Blocks<V> {
    pub data: Vec<BlockData<V>>,
    pub empty_tuple: V,
}

/// The outcome of looking up a field through a chain of blocks: a result, or
/// the field belongs to the root scope.
#[derive(Debug, Copy)]
pub enum FieldLookup<V> {
    Found(BergResult<V>),
    Root(FieldIndex),
}

/// The outcome of setting a field: done, or the field belongs to the root
/// scope.
#[derive(Debug, Clone, Copy, PartialEq, Eq, Structural)]
pub enum FieldAssignment {
    Done,
    Root(FieldIndex),
}

/// What `begin_evaluation` asks of the evaluator.
#[derive(Debug, Clone, Copy, PartialEq, Eq, Structural)]
pub enum Evaluation {
    /// Evaluate the block's expression now, then call `finish_evaluation`.
    Run,
    /// The block already has its result.
    AlreadyComplete,
}

impl<V: Copy> Clone for BlockState<V> {
    fn clone(&self) -> (r: Self)
        ensures
            r == *self,
    {
        *self
    }
}

impl<V: Copy> Clone for FieldLookup<V> {
    fn clone(&self) -> (r: Self)
        ensures
            r == *self,
    {
        *self
    }
}

/// The circular-dependency error of a block, placed at its expression.
pub open spec fn circular_error<V>(data: BlockData<V>) -> ErrorVal<V> {
    ErrorVal::Error(
        Error {
            error: BergError::CircularDependency,
            expression: ExpressionRef { root: data.expression },
        },
    )
}

/// A freshly made block: ready, with no fields.
pub open spec fn is_new_block<V>(
    data: BlockData<V>,
    expression: AstIndex,
    index: BlockIndex,
    parent: ScopeRef,
    input: BergResult<V>,
) -> bool {
    &&& data.expression == expression
    &&& data.index == index
    &&& data.state is Ready
    &&& data.fields@.len() == 0
    &&& data.parent == parent
    &&& data.input == input
}

/// Error for a field that is looked up but has no value.
pub open spec fn field_error_result<V>(error: BergError<V>) -> BergResult<V> {
    Err(ErrorVal::ExpressionError(error, ExpressionErrorPosition::Expression))
}

/// Looks field `index` up from block `b`: in the block's own fields when it is
/// one of them, else in the parent's.
pub open spec fn spec_local_field<V>(
    data: Seq<BlockData<V>>,
    b: int,
    index: FieldIndex,
    ast_blocks: Seq<AstBlock>,
) -> FieldLookup<V>
    decreases b,
{
    let block = data[b];
    let scope_start = ast_blocks[block.index.0 as int].scope_start;
    if index.0 >= scope_start.0 {
        let i = index.0 - scope_start.0;
        if i < block.fields@.len() {
            match block.fields@[i] {
                BlockFieldValue::Value(value) => FieldLookup::Found(Ok(value)),
                BlockFieldValue::NotSet => FieldLookup::Found(
                    field_error_result(BergError::FieldNotSet(index)),
                ),
                BlockFieldValue::NotDeclared => FieldLookup::Found(
                    field_error_result(BergError::NoSuchField(index)),
                ),
            }
        } else {
            FieldLookup::Found(field_error_result(BergError::NoSuchField(index)))
        }
    } else {
        match block.parent {
            ScopeRef::Root => FieldLookup::Root(index),
            ScopeRef::Block(p) => if 0 <= p.0 < b {
                spec_local_field(data, p.0 as int, index, ast_blocks)
            } else {
                FieldLookup::Root(index)
            },
        }
    }
}

/// The block that owns field `index` when starting from block `b`, if a
/// block does (rather than the root).
pub open spec fn field_owner<V>(
    data: Seq<BlockData<V>>,
    b: int,
    index: FieldIndex,
    ast_blocks: Seq<AstBlock>,
) -> Option<int>
    decreases b,
{
    let block = data[b];
    let scope_start = ast_blocks[block.index.0 as int].scope_start;
    if index.0 >= scope_start.0 {
        Some(b)
    } else {
        match block.parent {
            ScopeRef::Root => None,
            ScopeRef::Block(p) => if 0 <= p.0 < b {
                field_owner(data, p.0 as int, index, ast_blocks)
            } else {
                None
            },
        }
    }
}

/// Setting field `field_index` to `value`, starting from block `b`, turned
/// `before` into `after` with outcome `r`: the block that owns the field has
/// it set and nothing else changes; when the root owns it, nothing changes.
pub open spec fn sets_field<V>(
    before: Seq<BlockData<V>>,
    after: Seq<BlockData<V>>,
    b: int,
    field_index: FieldIndex,
    value: V,
    ast_blocks: Seq<AstBlock>,
    r: FieldAssignment,
) -> bool {
    match field_owner(before, b, field_index, ast_blocks) {
        None => r == FieldAssignment::Root(field_index) && after == before,
        Some(owner) => {
            let block = before[owner];
            let i = field_index.0 - ast_blocks[block.index.0 as int].scope_start.0;
            &&& r == FieldAssignment::Done
            &&& after.len() == before.len()
            &&& forall|j: int| 0 <= j < before.len() && j != owner ==> after[j] == before[j]
            &&& after[owner] == BlockData { fields: after[owner].fields, ..block }
            &&& after[owner].fields@ == block.fields@.update(i, BlockFieldValue::Value(value))
        },
    }
}

/// The block that owns a field is the starting block or one of its
/// ancestors.
pub proof fn lemma_field_owner_bounds<V>(
    data: Seq<BlockData<V>>,
    b: int,
    index: FieldIndex,
    ast_blocks: Seq<AstBlock>,
)
    requires
        0 <= b < data.len(),
    ensures
        field_owner(data, b, index, ast_blocks) matches Some(owner) ==> 0 <= owner <= b,
    decreases b,
{
    let block = data[b];
    if index.0 < ast_blocks[block.index.0 as int].scope_start.0 {
        if let ScopeRef::Block(p) = block.parent {
            if 0 <= p.0 < b {
                lemma_field_owner_bounds(data, p.0 as int, index, ast_blocks);
            }
        }
    }
}

/// Reading a field after setting it gives back the value that was set; when
/// the root owns the field, the read goes to the root too.
pub proof fn lemma_set_then_get<V>(
    before: Seq<BlockData<V>>,
    after: Seq<BlockData<V>>,
    b: int,
    index: FieldIndex,
    value: V,
    ast_blocks: Seq<AstBlock>,
    r: FieldAssignment,
)
    requires
        0 <= b < before.len(),
        sets_field(before, after, b, index, value, ast_blocks, r),
        field_owner(before, b, index, ast_blocks) matches Some(owner) ==> index.0
            - ast_blocks[before[owner].index.0 as int].scope_start.0 < before[owner].fields@.len(),
    ensures
        r == FieldAssignment::Done ==> spec_local_field(after, b, index, ast_blocks)
            == FieldLookup::Found(Ok::<V, ErrorVal<V>>(value)),
        r == FieldAssignment::Root(index) ==> spec_local_field(after, b, index, ast_blocks)
            == FieldLookup::<V>::Root(index),
    decreases b,
{
    lemma_field_owner_bounds(before, b, index, ast_blocks);
    let block = before[b];
    if index.0 >= ast_blocks[block.index.0 as int].scope_start.0 {
        let i = index.0 - ast_blocks[block.index.0 as int].scope_start.0;
        assert(after[b].fields@[i] == BlockFieldValue::Value(value));
    } else {
        match block.parent {
            ScopeRef::Root => {},
            ScopeRef::Block(p) => {
                if 0 <= p.0 < b {
                    lemma_set_then_get(before, after, p.0 as int, index, value, ast_blocks, r);
                    lemma_field_owner_bounds(before, p.0 as int, index, ast_blocks);
                }
            },
        }
    }
}

/// Taking a block's result: the result, with `replace_with` left in its
/// place; while the block is being evaluated, a circular dependency, with
/// nothing changed.
pub open spec fn spec_take_result<V>(data: BlockData<V>, replace_with: BlockState<V>) -> (
    BergResult<V>,
    BlockData<V>,
) {
    match data.state {
        BlockState::Complete(result) => (result, BlockData { state: replace_with, ..data }),
        _ => (Err(circular_error(data)), data),
    }
}

/// A copy of a block's result; while the block is being evaluated, a
/// circular dependency.
pub open spec fn spec_clone_result<V>(data: BlockData<V>) -> BergResult<V> {
    match data.state {
        BlockState::Complete(result) => result,
        _ => Err(circular_error(data)),
    }
}

/// After a result is taken and replaced by another, the block hands out the
/// replacement; and copying a result does not use it up: taking gives what
/// copying gives.
pub proof fn lemma_take_then_clone<V>(data: BlockData<V>, replacement: BergResult<V>)
    requires
        data.state is Complete,
    ensures
        spec_take_result(data, BlockState::Complete(replacement)).0 == spec_clone_result(data),
        spec_clone_result(spec_take_result(data, BlockState::Complete(replacement)).1)
            == replacement,
{
}

/// A block that is running reports a circular dependency, at its own
/// expression, whether its result is taken or copied, and is left as it was.
pub proof fn lemma_running_block_is_circular<V>(data: BlockData<V>, replace_with: BlockState<V>)
    requires
        data.state is Running || data.state is NextVal,
    ensures
        spec_take_result(data, replace_with) == (Err::<V, ErrorVal<V>>(circular_error(data)), data),
        spec_clone_result(data) == Err::<V, ErrorVal<V>>(circular_error(data)),
        circular_error(data) == ErrorVal::<V>::Error(
            Error {
                error: BergError::CircularDependency,
                expression: ExpressionRef { root: data.expression },
            },
        ),
{
}

impl<V: Copy> Blocks<V> {
    /// Parents come before their children, so following parents ends at the
    /// root.
    pub open spec fn wf(&self) -> bool {
        forall|i: int|
            0 <= i < self.data@.len() ==> match #[trigger] self.data@[i].parent {
                ScopeRef::Root => true,
                ScopeRef::Block(p) => p.0 < i,
            }
    }

    /// Every block's AST block is one of `ast_blocks`.
    pub open spec fn fits(&self, ast_blocks: Seq<AstBlock>) -> bool {
        forall|i: int|
            0 <= i < self.data@.len() ==> (#[trigger] self.data@[i]).index.0 < ast_blocks.len()
    }

    /// Whether `b` refers to a block of this arena.
    pub open spec fn contains(&self, b: BlockRef) -> bool {
        b.0 < self.data@.len()
    }

    /// An arena with no blocks.
    pub fn new(empty_tuple: V) -> (r: Self)
        ensures
            r.wf(),
            r.data@.len() == 0,
            r.empty_tuple == empty_tuple,
    {
        Blocks { data: Vec::new(), empty_tuple }
    }
}

impl BlockRef {
    /// Makes a new block that will run `expression` against the scope of
    /// `parent` with `input`.
    pub fn new<V: Copy>(
        blocks: &mut Blocks<V>,
        expression: AstIndex,
        index: BlockIndex,
        parent: ScopeRef,
        input: BergResult<V>,
    ) -> (r: BlockRef)
        requires
            old(blocks).wf(),
            parent matches ScopeRef::Block(p) ==> old(blocks).contains(p),
        ensures
            final(blocks).wf(),
            r.0 == old(blocks).data@.len(),
            final(blocks).data@.len() == old(blocks).data@.len() + 1,
            final(blocks).data@.drop_last() == old(blocks).data@,
            is_new_block(final(blocks).data@[r.0 as int], expression, index, parent, input),
            final(blocks).empty_tuple == old(blocks).empty_tuple,
    {
        let r = BlockRef(blocks.data.len());
        let data = BlockData {
            expression,
            index,
            state: BlockState::Ready,
            fields: Vec::new(),
            parent,
            input,
        };
        blocks.data.push(data);
        assert(final(blocks).data@.drop_last() =~= old(blocks).data@);
        r
    }

    /// Makes a block for `expression` whose fields fall back to this block's,
    /// with the empty tuple as input.
    pub fn create_child_block<V: Copy>(
        &self,
        blocks: &mut Blocks<V>,
        expression: AstIndex,
        index: BlockIndex,
    ) -> (r: BlockRef)
        requires
            old(blocks).wf(),
            old(blocks).contains(*self),
        ensures
            final(blocks).wf(),
            r.0 == old(blocks).data@.len(),
            final(blocks).data@.len() == old(blocks).data@.len() + 1,
            final(blocks).data@.drop_last() == old(blocks).data@,
            is_new_block(
                final(blocks).data@[r.0 as int],
                expression,
                index,
                ScopeRef::Block(*self),
                Ok(old(blocks).empty_tuple),
            ),
            final(blocks).empty_tuple == old(blocks).empty_tuple,
    {
        let input = Ok(blocks.empty_tuple);
        Self::new(blocks, expression, index, ScopeRef::Block(*self), input)
    }

    /// Makes a new block that runs this block's expression, in this block's
    /// parent scope, with `input`. The caller evaluates it (`begin_evaluation`,
    /// `finish_evaluation`) and takes its result with `take_result`.
    pub fn apply<V: Copy>(&self, blocks: &mut Blocks<V>, input: BergResult<V>) -> (r: BlockRef)
        requires
            old(blocks).wf(),
            old(blocks).contains(*self),
        ensures
            final(blocks).wf(),
            r.0 == old(blocks).data@.len(),
            final(blocks).data@.len() == old(blocks).data@.len() + 1,
            final(blocks).data@.drop_last() == old(blocks).data@,
            is_new_block(
                final(blocks).data@[r.0 as int],
                old(blocks).data@[self.0 as int].expression,
                old(blocks).data@[self.0 as int].index,
                old(blocks).data@[self.0 as int].parent,
                input,
            ),
            final(blocks).empty_tuple == old(blocks).empty_tuple,
    {
        let expression = blocks.data[self.0].expression;
        let index = blocks.data[self.0].index;
        let parent = blocks.data[self.0].parent;
        proof {
            assert(parent matches ScopeRef::Block(p) ==> p.0 < self.0);
        }
        Self::new(blocks, expression, index, parent, input)
    }

    /// The circular-dependency error, placed at this block's expression.
    pub fn delocalize_error<V: Copy, T>(&self, blocks: &Blocks<V>, error: BergError<V>) -> (r:
        Result<T, ErrorVal<V>>)
        requires
            blocks.contains(*self),
        ensures
            r == Err::<T, ErrorVal<V>>(
                ErrorVal::Error(
                    Error {
                        error,
                        expression: ExpressionRef { root: blocks.data@[self.0 as int].expression },
                    },
                ),
            ),
    {
        let expression = ExpressionRef { root: blocks.data[self.0].expression };
        Err(ErrorVal::Error(error.at_location(expression)))
    }

    /// Starts evaluating the block, unless it is already evaluated (then
    /// nothing changes) or being evaluated (a circular dependency). When the
    /// block is started its fields become `scope_count` undeclared fields.
    pub fn begin_evaluation<V: Copy>(&self, blocks: &mut Blocks<V>, scope_count: usize) -> (r:
        Result<Evaluation, ErrorVal<V>>)
        requires
            old(blocks).wf(),
            old(blocks).contains(*self),
        ensures
            final(blocks).wf(),
            final(blocks).empty_tuple == old(blocks).empty_tuple,
            final(blocks).data@.len() == old(blocks).data@.len(),
            forall|i: int|
                0 <= i < old(blocks).data@.len() && i != self.0 ==> final(blocks).data@[i]
                    == old(blocks).data@[i],
            ({
                let before = old(blocks).data@[self.0 as int];
                let after = final(blocks).data@[self.0 as int];
                match before.state {
                    BlockState::Running | BlockState::NextVal => r == Err::<Evaluation, ErrorVal<V>>(
                        circular_error(before),
                    ) && after == before,
                    BlockState::Complete(_) => r == Ok::<Evaluation, ErrorVal<V>>(
                        Evaluation::AlreadyComplete,
                    ) && after == before,
                    BlockState::Ready => {
                        &&& r == Ok::<Evaluation, ErrorVal<V>>(Evaluation::Run)
                        &&& after.state is Running
                        &&& after.fields@.len() == scope_count
                        &&& forall|k: int|
                            0 <= k < scope_count ==> #[trigger] after.fields@[k] is NotDeclared
                        &&& after.expression == before.expression
                        &&& after.index == before.index
                        &&& after.parent == before.parent
                        &&& after.input == before.input
                    },
                }
            }),
    {
        let i = self.0;
        match blocks.data[i].state {
            BlockState::Running | BlockState::NextVal => {
                return self.delocalize_error(blocks, BergError::CircularDependency);
            },
            BlockState::Complete(_) => {
                return Ok(Evaluation::AlreadyComplete);
            },
            BlockState::Ready => {},
        }
        let mut fields: Vec<BlockFieldValue<V>> = Vec::new();
        while fields.len() < scope_count
            invariant
                fields@.len() <= scope_count,
                forall|k: int| 0 <= k < fields@.len() ==> #[trigger] fields@[k] is NotDeclared,
            decreases scope_count - fields@.len(),
        {
            fields.push(BlockFieldValue::NotDeclared);
        }
        blocks.data[i].state = BlockState::Running;
        blocks.data[i].fields = fields;
        Ok(Evaluation::Run)
    }

    /// Stores the result of evaluating the block's expression.
    pub fn finish_evaluation<V: Copy>(&self, blocks: &mut Blocks<V>, result: BergResult<V>)
        requires
            old(blocks).wf(),
            old(blocks).contains(*self),
        ensures
            final(blocks).wf(),
            final(blocks).empty_tuple == old(blocks).empty_tuple,
            final(blocks).data@ == old(blocks).data@.update(
                self.0 as int,
                BlockData { state: BlockState::Complete(result), ..old(blocks).data@[self.0 as int] },
            ),
    {
        blocks.data[self.0].state = BlockState::Complete(result);
    }

    /// Takes the block's result, leaving `replace_with` in its place. While
    /// the block is being evaluated this is a circular dependency, and nothing
    /// changes.
    pub fn take_result<V: Copy>(&self, blocks: &mut Blocks<V>, replace_with: BlockState<V>) -> (r:
        BergResult<V>)
        requires
            old(blocks).wf(),
            old(blocks).contains(*self),
            !(old(blocks).data@[self.0 as int].state is Ready),
        ensures
            final(blocks).wf(),
            final(blocks).empty_tuple == old(blocks).empty_tuple,
            ({
                let (result, after) = spec_take_result(old(blocks).data@[self.0 as int], replace_with);
                &&& r == result
                &&& final(blocks).data@ == old(blocks).data@.update(self.0 as int, after)
            }),
    {
        match blocks.data[self.0].state {
            BlockState::Complete(result) => {
                blocks.data[self.0].state = replace_with;
                result
            },
            _ => self.delocalize_error(blocks, BergError::CircularDependency),
        }
    }

    /// Puts back the rest of a result after its head was taken.
    pub fn replace_result<V: Copy>(&self, blocks: &mut Blocks<V>, result: BergResult<V>)
        requires
            old(blocks).wf(),
            old(blocks).contains(*self),
            old(blocks).data@[self.0 as int].state is NextVal,
        ensures
            final(blocks).wf(),
            final(blocks).empty_tuple == old(blocks).empty_tuple,
            final(blocks).data@ == old(blocks).data@.update(
                self.0 as int,
                BlockData { state: BlockState::Complete(result), ..old(blocks).data@[self.0 as int] },
            ),
    {
        blocks.data[self.0].state = BlockState::Complete(result);
    }

    /// Finishes taking the next value out of the block's result (which
    /// `take_result` left in the `NextVal` state), given what the result's own
    /// next value was: an error or no next value leaves the block as it is;
    /// otherwise the rest becomes the block's result again, and the next value
    /// is the head, followed by this block.
    pub fn finish_next_val<V: Copy>(
        &self,
        blocks: &mut Blocks<V>,
        next: Result<Option<(V, BergResult<V>)>, ErrorVal<V>>,
    ) -> (r: Result<Option<(V, BlockRef)>, ErrorVal<V>>)
        requires
            old(blocks).wf(),
            old(blocks).contains(*self),
            old(blocks).data@[self.0 as int].state is NextVal,
        ensures
            final(blocks).wf(),
            final(blocks).empty_tuple == old(blocks).empty_tuple,
            match next {
                Err(error) => r == Err::<Option<(V, BlockRef)>, ErrorVal<V>>(error)
                    && final(blocks).data@ == old(blocks).data@,
                Ok(None) => r == Ok::<Option<(V, BlockRef)>, ErrorVal<V>>(None) && final(blocks).data@
                    == old(blocks).data@,
                Ok(Some((head, tail))) => {
                    &&& r == Ok::<Option<(V, BlockRef)>, ErrorVal<V>>(Some((head, *self)))
                    &&& final(blocks).data@ == old(blocks).data@.update(
                        self.0 as int,
                        BlockData {
                            state: BlockState::Complete(tail),
                            ..old(blocks).data@[self.0 as int]
                        },
                    )
                },
            },
    {
        match next {
            Err(error) => Err(error),
            Ok(None) => Ok(None),
            Ok(Some((head, tail))) => {
                self.replace_result(blocks, tail);
                Ok(Some((head, *self)))
            },
        }
    }

    /// A copy of the block's result; while the block is being evaluated this is
    /// a circular dependency.
    pub fn clone_result<V: Copy>(&self, blocks: &Blocks<V>) -> (r: BergResult<V>)
        requires
            blocks.contains(*self),
            !(blocks.data@[self.0 as int].state is Ready),
        ensures
            r == spec_clone_result(blocks.data@[self.0 as int]),
    {
        match blocks.data[self.0].state {
            BlockState::Complete(result) => result,
            _ => self.delocalize_error(blocks, BergError::CircularDependency),
        }
    }

    /// Looks field `index` up: in this block when it is one of its fields
    /// (an error if it is undeclared or not set), else in the parent scope.
    pub fn local_field<V: Copy>(
        &self,
        blocks: &Blocks<V>,
        index: FieldIndex,
        ast_blocks: &Vec<AstBlock>,
    ) -> (r: FieldLookup<V>)
        requires
            blocks.wf(),
            blocks.fits(ast_blocks@),
            blocks.contains(*self),
        ensures
            r == spec_local_field(blocks.data@, self.0 as int, index, ast_blocks@),
        decreases self.0,
    {
        let block = &blocks.data[self.0];
        let scope_start = ast_blocks[block.index.0 as usize].scope_start;
        if index.0 >= scope_start.0 {
            let scope_index = (index.0 - scope_start.0) as usize;
            if scope_index < block.fields.len() {
                match block.fields[scope_index] {
                    BlockFieldValue::Value(value) => FieldLookup::Found(Ok(value)),
                    BlockFieldValue::NotSet => FieldLookup::Found(
                        BergError::FieldNotSet(index).err(),
                    ),
                    BlockFieldValue::NotDeclared => FieldLookup::Found(
                        BergError::NoSuchField(index).err(),
                    ),
                }
            } else {
                FieldLookup::Found(BergError::NoSuchField(index).err())
            }
        } else {
            match block.parent {
                ScopeRef::Root => FieldLookup::Root(index),
                ScopeRef::Block(p) => {
                    assert(p.0 < self.0);
                    p.local_field(blocks, index, ast_blocks)
                },
            }
        }
    }

    /// The first step of declaring field `field_index` of this block: if it is
    /// already declared nothing happens (`Ok(None)`); if the block's input is
    /// an error, that error; otherwise the input is taken (a circular
    /// dependency stands in its place) and returned, for the evaluator to
    /// split into its next value and the rest (`finish_declare_field`).
    pub fn declare_field<V: Copy>(
        &self,
        blocks: &mut Blocks<V>,
        field_index: FieldIndex,
        ast_blocks: &Vec<AstBlock>,
    ) -> (r: Result<Option<V>, ErrorVal<V>>)
        requires
            old(blocks).wf(),
            old(blocks).fits(ast_blocks@),
            old(blocks).contains(*self),
            ({
                let block = old(blocks).data@[self.0 as int];
                let scope_start = ast_blocks@[block.index.0 as int].scope_start;
                &&& scope_start.0 <= field_index.0
                &&& field_index.0 - scope_start.0 < block.fields@.len()
                &&& block.fields@[field_index.0 - scope_start.0] is NotDeclared ==> block.state is Running
            }),
        ensures
            final(blocks).wf(),
            final(blocks).empty_tuple == old(blocks).empty_tuple,
            ({
                let block = old(blocks).data@[self.0 as int];
                let scope_start = ast_blocks@[block.index.0 as int].scope_start;
                if block.fields@[field_index.0 - scope_start.0] is NotDeclared {
                    match block.input {
                        Err(error) => r == Err::<Option<V>, ErrorVal<V>>(error)
                            && final(blocks).data@ == old(blocks).data@,
                        Ok(input) => {
                            &&& r == Ok::<Option<V>, ErrorVal<V>>(Some(input))
                            &&& final(blocks).data@ == old(blocks).data@.update(
                                self.0 as int,
                                BlockData {
                                    input: field_error_result(BergError::CircularDependency),
                                    ..block
                                },
                            )
                        },
                    }
                } else {
                    r == Ok::<Option<V>, ErrorVal<V>>(None) && final(blocks).data@ == old(
                        blocks,
                    ).data@
                }
            }),
    {
        let scope_start = ast_blocks[blocks.data[self.0].index.0 as usize].scope_start;
        let block_field_index = (field_index.0 - scope_start.0) as usize;
        match blocks.data[self.0].fields[block_field_index] {
            BlockFieldValue::NotDeclared => {},
            _ => {
                return Ok(None);
            },
        }
        match blocks.data[self.0].input {
            Err(error) => Err(error),
            Ok(input) => {
                blocks.data[self.0].input = BergError::CircularDependency.err();
                Ok(Some(input))
            },
        }
    }

    /// The second step of declaring a field: with no next value the field is
    /// declared but not set; otherwise it gets the head, and the tail becomes
    /// the block's input.
    pub fn finish_declare_field<V: Copy>(
        &self,
        blocks: &mut Blocks<V>,
        field_index: FieldIndex,
        ast_blocks: &Vec<AstBlock>,
        next_val: Option<(V, BergResult<V>)>,
    )
        requires
            old(blocks).wf(),
            old(blocks).fits(ast_blocks@),
            old(blocks).contains(*self),
            ({
                let block = old(blocks).data@[self.0 as int];
                let scope_start = ast_blocks@[block.index.0 as int].scope_start;
                &&& scope_start.0 <= field_index.0
                &&& field_index.0 - scope_start.0 < block.fields@.len()
            }),
        ensures
            final(blocks).wf(),
            final(blocks).fits(ast_blocks@),
            final(blocks).empty_tuple == old(blocks).empty_tuple,
            ({
                let block = old(blocks).data@[self.0 as int];
                let i = field_index.0 - ast_blocks@[block.index.0 as int].scope_start.0;
                final(blocks).data@ == old(blocks).data@.update(
                    self.0 as int,
                    match next_val {
                        None => BlockData {
                            fields: final(blocks).data@[self.0 as int].fields,
                            ..block
                        },
                        Some((head, tail)) => BlockData {
                            fields: final(blocks).data@[self.0 as int].fields,
                            input: tail,
                            ..block
                        },
                    },
                ) && final(blocks).data@[self.0 as int].fields@ == block.fields@.update(
                    i,
                    match next_val {
                        None => BlockFieldValue::NotSet,
                        Some((head, _)) => BlockFieldValue::Value(head),
                    },
                )
            }),
    {
        let scope_start = ast_blocks[blocks.data[self.0].index.0 as usize].scope_start;
        let block_field_index = (field_index.0 - scope_start.0) as usize;
        match next_val {
            None => {
                blocks.data[self.0].fields[block_field_index] = BlockFieldValue::NotSet;
            },
            Some((head, tail)) => {
                blocks.data[self.0].input = tail;
                blocks.data[self.0].fields[block_field_index] = BlockFieldValue::Value(head);
            },
        }
    }

    /// Sets field `field_index` in the block that owns it (this block or an
    /// ancestor), or says that the root owns it.
    pub fn set_local_field<V: Copy>(
        &self,
        blocks: &mut Blocks<V>,
        field_index: FieldIndex,
        value: V,
        ast_blocks: &Vec<AstBlock>,
    ) -> (r: FieldAssignment)
        requires
            old(blocks).wf(),
            old(blocks).fits(ast_blocks@),
            old(blocks).contains(*self),
            field_owner(old(blocks).data@, self.0 as int, field_index, ast_blocks@) matches Some(
                owner,
            ) ==> field_index.0 - ast_blocks@[old(blocks).data@[owner].index.0 as int].scope_start.0
                < old(blocks).data@[owner].fields@.len(),
        ensures
            final(blocks).wf(),
            final(blocks).fits(ast_blocks@),
            final(blocks).empty_tuple == old(blocks).empty_tuple,
            sets_field(
                old(blocks).data@,
                final(blocks).data@,
                self.0 as int,
                field_index,
                value,
                ast_blocks@,
                r,
            ),
        decreases self.0,
    {
        let scope_start = ast_blocks[blocks.data[self.0].index.0 as usize].scope_start;
        if field_index.0 < scope_start.0 {
            match blocks.data[self.0].parent {
                ScopeRef::Root => FieldAssignment::Root(field_index),
                ScopeRef::Block(p) => {
                    assert(p.0 < self.0);
                    p.set_local_field(blocks, field_index, value, ast_blocks)
                },
            }
        } else {
            let index = (field_index.0 - scope_start.0) as usize;
            blocks.data[self.0].fields[index] = BlockFieldValue::Value(value);
            FieldAssignment::Done
        }
    }

    /// The error for a field of this block that is missing or private.
    pub fn field_error<V: Copy, T>(&self, error: FieldError, name: IdentifierIndex) -> (r: Result<
        T,
        ErrorVal<V>,
    >)
        ensures
            r == Err::<T, ErrorVal<V>>(
                ErrorVal::ExpressionError(
                    match error {
                        FieldError::NoSuchPublicField => BergError::NoSuchPublicField(*self, name),
                        FieldError::PrivateField => BergError::PrivateField(*self, name),
                    },
                    ExpressionErrorPosition::Expression,
                ),
            ),
    {
        match error {
            FieldError::NoSuchPublicField => BergError::NoSuchPublicField(*self, name).err(),
            FieldError::PrivateField => BergError::PrivateField(*self, name).err(),
        }
    }

    /// Finishes looking up public field `name` on this block, given what
    /// looking it up on the block's result value gave (`value_field`) and the
    /// index the AST gives the block's public field of that name
    /// (`public_index`). When the value has no such public field, the block's
    /// own field is used (or the error of why it cannot be); otherwise the
    /// value's answer stands.
    pub fn field<V: Copy>(
        &self,
        blocks: &Blocks<V>,
        name: IdentifierIndex,
        value_field: BergResult<V>,
        public_index: Result<FieldIndex, FieldError>,
        ast_blocks: &Vec<AstBlock>,
    ) -> (r: FieldLookup<V>)
        requires
            blocks.wf(),
            blocks.fits(ast_blocks@),
            blocks.contains(*self),
        ensures
            r == (match value_field {
                Err(ErrorVal::ExpressionError(error, ExpressionErrorPosition::Expression)) if
                crate::error::spec_error_code(error) == crate::error::ErrorCode::NoSuchPublicField => {
                    match public_index {
                        Ok(index) => spec_local_field(blocks.data@, self.0 as int, index, ast_blocks@),
                        Err(FieldError::NoSuchPublicField) => FieldLookup::Found(
                            field_error_result(BergError::NoSuchPublicField(*self, name)),
                        ),
                        Err(FieldError::PrivateField) => FieldLookup::Found(
                            field_error_result(BergError::PrivateField(*self, name)),
                        ),
                    }
                },
                _ => FieldLookup::Found(value_field),
            }),
    {
        match value_field {
            Err(ErrorVal::ExpressionError(error, ExpressionErrorPosition::Expression)) => {
                if error.code() == crate::error::ErrorCode::NoSuchPublicField {
                    match public_index {
                        Ok(index) => self.local_field(blocks, index, ast_blocks),
                        Err(field_error) => FieldLookup::Found(self.field_error(field_error, name)),
                    }
                } else {
                    FieldLookup::Found(value_field)
                }
            },
            _ => FieldLookup::Found(value_field),
        }
    }

    /// Sets public field `name` of this (evaluated) block to `value`, given the
    /// index the AST gives the block's public field of that name. While the
    /// block is being evaluated this is a circular dependency.
    pub fn set_field<V: Copy>(
        &self,
        blocks: &mut Blocks<V>,
        name: IdentifierIndex,
        value: V,
        public_index: Result<FieldIndex, FieldError>,
        ast_blocks: &Vec<AstBlock>,
    ) -> (r: Result<FieldAssignment, ErrorVal<V>>)
        requires
            old(blocks).wf(),
            old(blocks).fits(ast_blocks@),
            old(blocks).contains(*self),
            !(old(blocks).data@[self.0 as int].state is Ready),
            public_index matches Ok(index) ==> (field_owner(
                old(blocks).data@,
                self.0 as int,
                index,
                ast_blocks@,
            ) matches Some(owner) ==> index.0 - ast_blocks@[old(
                blocks,
            ).data@[owner].index.0 as int].scope_start.0 < old(blocks).data@[owner].fields@.len()),
        ensures
            final(blocks).wf(),
            final(blocks).fits(ast_blocks@),
            match old(blocks).data@[self.0 as int].state {
                BlockState::Complete(_) => match public_index {
                    Ok(index) => r matches Ok(assignment) && sets_field(
                        old(blocks).data@,
                        final(blocks).data@,
                        self.0 as int,
                        index,
                        value,
                        ast_blocks@,
                        assignment,
                    ),
                    Err(FieldError::NoSuchPublicField) => r == Err::<FieldAssignment, ErrorVal<V>>(
                        ErrorVal::ExpressionError(
                            BergError::NoSuchPublicField(*self, name),
                            ExpressionErrorPosition::Expression,
                        ),
                    ) && final(blocks).data@ == old(blocks).data@,
                    Err(FieldError::PrivateField) => r == Err::<FieldAssignment, ErrorVal<V>>(
                        ErrorVal::ExpressionError(
                            BergError::PrivateField(*self, name),
                            ExpressionErrorPosition::Expression,
                        ),
                    ) && final(blocks).data@ == old(blocks).data@,
                },
                _ => r == Err::<FieldAssignment, ErrorVal<V>>(
                    circular_error(old(blocks).data@[self.0 as int]),
                ) && final(blocks).data@ == old(blocks).data@,
            },
    {
        match blocks.data[self.0].state {
            BlockState::Complete(_) => {},
            _ => {
                return self.delocalize_error(blocks, BergError::CircularDependency);
            },
        }
        match public_index {
            Ok(index) => Ok(self.set_local_field(blocks, index, value, ast_blocks)),
            Err(field_error) => self.field_error(field_error, name),
        }
    }
}


/// What a block's description needs that the block does not hold: how its
/// result displays (when it is complete), how its input displays (`None`
/// when the input is the empty tuple, which is not shown), how each of its
/// fields' values displays, and how its expression prints.
pub struct BlockTexts {
    pub result: String,
    pub input: Option<String>,
    pub values: Vec<String>,
    pub expression: String,
}

/// How a block's state is shown.
pub open spec fn state_text<V>(state: BlockState<V>, result: Seq<char>) -> Seq<char> {
    match state {
        BlockState::Complete(_) => "Complete("@ + result + ")"@,
        BlockState::Ready => "Ready"@,
        BlockState::Running => "Running"@,
        BlockState::NextVal => "NextVal"@,
    }
}

/// How one field is shown: its name, then its value or why it has none.
pub open spec fn field_text<V>(name: Seq<char>, value: BlockFieldValue<V>, value_text: Seq<char>) -> Seq<
    char,
> {
    name + ": "@ + match value {
        BlockFieldValue::Value(_) => value_text,
        BlockFieldValue::NotDeclared => "<undeclared>"@,
        BlockFieldValue::NotSet => "<not set>"@,
    }
}

/// The first `n` fields of a block, shown and separated by ", ".
pub open spec fn fields_text<V>(
    names: Seq<Seq<char>>,
    fields: Seq<BlockFieldValue<V>>,
    values: Seq<Seq<char>>,
    n: int,
) -> Seq<char>
    decreases n,
{
    if n <= 0 {
        seq![]
    } else if n == 1 {
        field_text(names[0], fields[0], values[0])
    } else {
        fields_text(names, fields, values, n - 1) + ", "@ + field_text(
            names[n - 1],
            fields[n - 1],
            values[n - 1],
        )
    }
}

/// The names of a block's fields: its AST block's fields, from its scope's
/// start.
pub open spec fn field_names<T>(ast: Ast<T>, scope_start: int, count: int) -> Seq<Seq<char>> {
    Seq::new(
        count as nat,
        |i: int| interned(ast.identifiers)[ast.fields@[scope_start + i].name.0 as int],
    )
}

/// How a block is shown: its state, its input unless it is the empty tuple,
/// its fields if it has any, and its expression.
pub open spec fn block_text<V>(
    data: BlockData<V>,
    names: Seq<Seq<char>>,
    result: Seq<char>,
    input: Option<Seq<char>>,
    values: Seq<Seq<char>>,
    expression: Seq<char>,
) -> Seq<char> {
    let count = data.fields@.len() as int;
    "block("@ + state_text(data.state, result) + match input {
        Some(text) => ", input: "@ + text,
        None => seq![],
    } + if count == 0 {
        seq![]
    } else {
        ", fields: {"@ + fields_text(names, data.fields@, values, count) + "}"@
    } + ", expression: "@ + expression + ")"@
}

impl<V: Copy> BlockState<V> {
    /// Shows the state; a complete block's result shows as `result`.
    pub fn to_string(&self, result: &str) -> (r: String)
        ensures
            r@ == state_text(*self, result@),
    {
        match self {
            BlockState::Complete(_) => {
                let mut s = String::from_str("Complete(");
                s.append(result);
                s.append(")");
                s
            },
            BlockState::Ready => String::from_str("Ready"),
            BlockState::Running => String::from_str("Running"),
            BlockState::NextVal => String::from_str("NextVal"),
        }
    }
}

impl BlockRef {
    /// Describes the block: its state, its input (unless it is the empty
    /// tuple), its fields by name with their values, and its expression.
    pub fn to_string<V: Copy, T: Copy>(&self, blocks: &Blocks<V>, ast: &Ast<T>, texts: &BlockTexts) -> (r:
        String)
        requires
            blocks.contains(*self),
            blocks.fits(ast.blocks@),
            ({
                let data = blocks.data@[self.0 as int];
                let scope_start = ast.blocks@[data.index.0 as int].scope_start.0 as int;
                &&& texts.values@.len() == data.fields@.len()
                &&& scope_start + data.fields@.len() <= ast.fields@.len()
                &&& forall|i: int|
                    0 <= i < data.fields@.len() ==> (#[trigger] ast.fields@[scope_start + i]).name.0
                        < interned(ast.identifiers).len()
            }),
        ensures
            ({
                let data = blocks.data@[self.0 as int];
                let scope_start = ast.blocks@[data.index.0 as int].scope_start.0 as int;
                r@ == block_text(
                    data,
                    field_names(*ast, scope_start, data.fields@.len() as int),
                    texts.result@,
                    match texts.input {
                        Some(text) => Some(text@),
                        None => None,
                    },
                    texts.values@.map_values(|v: String| v@),
                    texts.expression@,
                )
            }),
    {
        let block = &blocks.data[self.0];
        let ghost data = blocks.data@[self.0 as int];
        let mut f = String::from_str("block(");
        let state = block.state.to_string(texts.result.as_str());
        f.append(state.as_str());
        match &texts.input {
            Some(text) => {
                f.append(", input: ");
                f.append(text.as_str());
            },
            None => {},
        }
        let ghost prefix = f@;
        let scope_start = ast.blocks[block.index.0 as usize].scope_start.0 as usize;
        let ghost names = field_names(*ast, scope_start as int, data.fields@.len() as int);
        let ghost values = texts.values@.map_values(|v: String| v@);
        if block.fields.len() > 0 {
            f.append(", fields: {");
            let ghost start = f@;
            let field_count = ast.fields.len();
            let mut index: usize = 0;
            while index < block.fields.len()
                invariant
                    block == &blocks.data[self.0 as int],
                    data == blocks.data@[self.0 as int],
                    index <= block.fields@.len(),
                    texts.values@.len() == block.fields@.len(),
                    scope_start + block.fields@.len() <= ast.fields@.len(),
                    field_count == ast.fields@.len(),
                    forall|i: int|
                        0 <= i < block.fields@.len() ==> (#[trigger] ast.fields@[scope_start + i]).name.0
                            < interned(ast.identifiers).len(),
                    names == field_names(*ast, scope_start as int, data.fields@.len() as int),
                    values == texts.values@.map_values(|v: String| v@),
                    f@ == start + fields_text(names, data.fields@, values, index as int),
                decreases block.fields@.len() - index,
            {
                if index > 0 {
                    f.append(", ");
                }
                let name = ast.identifier_string(ast.fields[scope_start + index].name);
                f.append(name);
                f.append(": ");
                match block.fields[index] {
                    BlockFieldValue::Value(_) => f.append(texts.values[index].as_str()),
                    BlockFieldValue::NotDeclared => f.append("<undeclared>"),
                    BlockFieldValue::NotSet => f.append("<not set>"),
                }
                proof {
                    assert(names[index as int] == name@);
                    assert(values[index as int] == texts.values@[index as int]@);
                }
                index += 1;
            }
            f.append("}");
        }
        f.append(", expression: ");
        f.append(texts.expression.as_str());
        f.append(")");
        f
    }
}

} // verus!
