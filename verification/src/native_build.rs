//! Building machine code from the steps of a plan with Cranelift.
use cranelift_codegen::entity::EntityRef;
use cranelift_codegen::ir::condcodes::IntCC;
use cranelift_codegen::ir::{
    types, AbiParam, Block, BlockArg, FuncRef, InstBuilder, MemFlags, StackSlot, StackSlotData,
    StackSlotKind, TrapCode, UserFuncName, Value,
};
use cranelift_frontend::{FunctionBuilder, FunctionBuilderContext, Variable};
use cranelift_module::{FuncId, Linkage};
use cranelift_object::ObjectModule;
use vstd::prelude::*;
use crate::native::{Decl, Step};
use crate::native_frame::{frame, roomy};
use crate::native_mirror::{
    all_done, arg_done, follows_along, has_number, nothing_done, numbered, step_done, step_ready,
    well_made,
};
use crate::native_sound::fits;

verus! {

/// Cranelift's builder of one function.
#[verifier::external_type_specification]
#[verifier::external_body]
pub struct ExFunctionBuilder<'a>(FunctionBuilder<'a>);

/// What Cranelift's builder reuses from one function to the next.
#[verifier::external_type_specification]
#[verifier::external_body]
pub struct ExFunctionBuilderContext(FunctionBuilderContext);

/// A function that Cranelift compiles.
#[verifier::external_type_specification]
#[verifier::external_body]
pub struct ExContext(cranelift_codegen::Context);

/// An object file that is being written.
#[verifier::external_type_specification]
#[verifier::external_body]
pub struct ExObjectModule(ObjectModule);

/// Why Cranelift refused a function.
#[verifier::external_type_specification]
#[verifier::external_body]
pub struct ExModuleError(cranelift_module::ModuleError);

/// What a step yields.
#[derive(Debug, Clone, Copy, PartialEq, Eq, Structural)]
pub enum Kind {
    Block,
    Var,
    Slot,
    Ref,
    Value,
}

/// A step that was made: what it refers to is given by Cranelift's numbers.
pub struct Entry {
    pub step: Step,
    /// The arguments of a call.
    pub args: Seq<usize>,
    /// The number of what it yields.
    pub result: Option<usize>,
    /// How many values a function that is imported returns.
    pub results: nat,
}

pub open spec fn entry(step: Step, result: Option<usize>) -> Entry {
    Entry { step, args: Seq::empty(), result, results: 0 }
}

/// The steps that a builder has made.
pub uninterp spec fn log_of(b: FunctionBuilder<'_>) -> Seq<Entry>;

/// The signature of the function of a builder: how many parameters and results
/// it has.
pub uninterp spec fn signature_in(b: FunctionBuilder<'_>) -> (nat, nat);

pub open spec fn kind(s: Step) -> Option<Kind> {
    match s {
        Step::CreateBlock => Some(Kind::Block),
        Step::DeclareVar => Some(Kind::Var),
        Step::Slot(_, _) => Some(Kind::Slot),
        Step::Import(_) => Some(Kind::Ref),
        Step::Param(_, _) => Some(Kind::Value),
        Step::UseVar(_) => Some(Kind::Value),
        Step::Word(_) => Some(Kind::Value),
        Step::Byte(_) => Some(Kind::Value),
        Step::FuncAddr(_) => Some(Kind::Value),
        Step::BandImm(_, _) => Some(Kind::Value),
        Step::BorImm(_, _) => Some(Kind::Value),
        Step::BxorImm(_, _) => Some(Kind::Value),
        Step::IshlImm(_, _) => Some(Kind::Value),
        Step::SshrImm(_, _) => Some(Kind::Value),
        Step::EqualImm(_, _) => Some(Kind::Value),
        Step::NotEqualImm(_, _) => Some(Kind::Value),
        Step::Equal(_, _) => Some(Kind::Value),
        Step::Band(_, _) => Some(Kind::Value),
        Step::Bor(_, _) => Some(Kind::Value),
        Step::Bxor(_, _) => Some(Kind::Value),
        Step::Ishl(_, _) => Some(Kind::Value),
        Step::Sshr(_, _) => Some(Kind::Value),
        Step::Isub(_, _) => Some(Kind::Value),
        Step::Bnot(_) => Some(Kind::Value),
        Step::Select(_, _, _) => Some(Kind::Value),
        Step::Load(_, _) => Some(Kind::Value),
        Step::StackAddr(_) => Some(Kind::Value),
        Step::Reduce(_) => Some(Kind::Value),
        Step::Call(_, _) => Some(Kind::Value),
        _ => None,
    }
}

/// Whether an earlier step has yielded `n`.
#[verifier::opaque]
pub open spec fn given(log: Seq<Entry>, k: Kind, n: usize) -> bool {
    exists|i: int|
        0 <= i < log.len() && kind((#[trigger] log[i]).step) == Some(k) && log[i].result == Some(n)
}

/// Whether a number has not been yielded before.
pub open spec fn fresh(log: Seq<Entry>, k: Kind, r: Option<usize>) -> bool {
    r matches Some(n) ==> !given(log, k, n)
}

/// Whether a value is a byte; the others are words.
pub open spec fn byte_in(log: Seq<Entry>, n: usize) -> bool
    decreases log.len(),
{
    if log.len() == 0 {
        false
    } else {
        let e = log.last();
        if kind(e.step) == Some(Kind::Value) && e.result == Some(n) {
            match e.step {
                Step::Byte(_) | Step::Reduce(_) | Step::EqualImm(_, _) | Step::NotEqualImm(_, _)
                | Step::Equal(_, _) => true,
                Step::Band(a, _) | Step::Bor(a, _) | Step::Bxor(a, _) | Step::Ishl(a, _)
                | Step::Sshr(a, _) | Step::Isub(a, _) => byte_in(log.drop_last(), a),
                Step::BandImm(a, _) | Step::BorImm(a, _) | Step::BxorImm(a, _)
                | Step::IshlImm(a, _) | Step::SshrImm(a, _) => byte_in(log.drop_last(), a),
                Step::Bnot(a) => byte_in(log.drop_last(), a),
                Step::Select(_, a, _) => byte_in(log.drop_last(), a),
                _ => false,
            }
        } else {
            byte_in(log.drop_last(), n)
        }
    }
}

/// How many values the function with a reference returns.
pub open spec fn results_of(log: Seq<Entry>, n: usize) -> nat
    decreases log.len(),
{
    if log.len() == 0 {
        0
    } else if log.last().step is Import && log.last().result == Some(n) {
        log.last().results
    } else {
        results_of(log.drop_last(), n)
    }
}

/// How many parameters a block has in a function with `arity` parameters.
pub open spec fn params_of(log: Seq<Entry>, arity: nat, x: usize) -> nat
    decreases log.len(),
{
    if log.len() == 0 {
        0
    } else {
        params_of(log.drop_last(), arity, x) + match log.last().step {
            Step::AddParam(y) => if x == y {
                1
            } else {
                0
            },
            Step::FunctionParams(y) => if x == y {
                arity
            } else {
                0
            },
            _ => 0nat,
        }
    }
}

/// Whether everything that a step refers to was yielded before.
pub open spec fn refers(log: Seq<Entry>, s: Step) -> bool {
    match s {
        Step::CreateBlock => true,
        Step::AddParam(x) => given(log, Kind::Block, x),
        Step::FunctionParams(x) => given(log, Kind::Block, x),
        Step::SwitchTo(x) => given(log, Kind::Block, x),
        Step::Seal(x) => given(log, Kind::Block, x),
        Step::Param(x, _) => given(log, Kind::Block, x),
        Step::DeclareVar => true,
        Step::DefVar(x, y) => given(log, Kind::Var, x) && given(log, Kind::Value, y),
        Step::UseVar(x) => given(log, Kind::Var, x),
        Step::Word(_) => true,
        Step::Byte(_) => true,
        Step::FuncAddr(x) => given(log, Kind::Ref, x),
        Step::BandImm(x, _) => given(log, Kind::Value, x),
        Step::BorImm(x, _) => given(log, Kind::Value, x),
        Step::BxorImm(x, _) => given(log, Kind::Value, x),
        Step::IshlImm(x, _) => given(log, Kind::Value, x),
        Step::SshrImm(x, _) => given(log, Kind::Value, x),
        Step::EqualImm(x, _) => given(log, Kind::Value, x),
        Step::NotEqualImm(x, _) => given(log, Kind::Value, x),
        Step::Equal(x, y) => given(log, Kind::Value, x) && given(log, Kind::Value, y),
        Step::Band(x, y) => given(log, Kind::Value, x) && given(log, Kind::Value, y),
        Step::Bor(x, y) => given(log, Kind::Value, x) && given(log, Kind::Value, y),
        Step::Bxor(x, y) => given(log, Kind::Value, x) && given(log, Kind::Value, y),
        Step::Ishl(x, y) => given(log, Kind::Value, x) && given(log, Kind::Value, y),
        Step::Sshr(x, y) => given(log, Kind::Value, x) && given(log, Kind::Value, y),
        Step::Isub(x, y) => given(log, Kind::Value, x) && given(log, Kind::Value, y),
        Step::Bnot(x) => given(log, Kind::Value, x),
        Step::Select(x, y, z) => given(log, Kind::Value, x) && given(log, Kind::Value, y)
            && given(log, Kind::Value, z),
        Step::Load(x, _) => given(log, Kind::Value, x),
        Step::Store(x, y, _) => given(log, Kind::Value, x) && given(log, Kind::Value, y),
        Step::Slot(_, _) => true,
        Step::StackStore(x, y, _) => given(log, Kind::Value, x) && given(log, Kind::Slot, y),
        Step::StackAddr(x) => given(log, Kind::Slot, x),
        Step::Reduce(x) => given(log, Kind::Value, x),
        Step::Brif(x, y, z) => given(log, Kind::Value, x) && given(log, Kind::Block, y)
            && given(log, Kind::Block, z),
        Step::Jump(x) => given(log, Kind::Block, x),
        Step::JumpWith(x, y) => given(log, Kind::Block, x) && given(log, Kind::Value, y),
        Step::Trap => true,
        Step::Return(x) => given(log, Kind::Value, x),
        Step::Import(_) => true,
        Step::Call(x, _) => given(log, Kind::Ref, x),
        Step::Arg(_) => false,
    }
}

/// Where the builder stands: the block it fills, and the blocks that have
/// instructions, that are full, that are sealed and that are branched to.
pub struct Site {
    pub block: Option<usize>,
    pub started: Set<usize>,
    pub filled: Set<usize>,
    pub sealed: Set<usize>,
    pub targets: Set<usize>,
}

pub open spec fn outset() -> Site {
    Site {
        block: None,
        started: Set::empty(),
        filled: Set::empty(),
        sealed: Set::empty(),
        targets: Set::empty(),
    }
}

/// After an instruction.
pub open spec fn begun(at: Site) -> Site {
    match at.block {
        Some(b) => Site { started: at.started.insert(b), ..at },
        None => at,
    }
}

/// After the last instruction of a block.
pub open spec fn ended(at: Site) -> Site {
    match at.block {
        Some(b) => Site { started: at.started.insert(b), filled: at.filled.insert(b), ..at },
        None => at,
    }
}

pub open spec fn moved(at: Site, s: Step) -> Site {
    match s {
        Step::SwitchTo(x) => Site { block: Some(x), ..at },
        Step::Seal(x) => Site { sealed: at.sealed.insert(x), ..at },
        Step::Brif(_, y, z) => ended(Site { targets: at.targets.insert(y).insert(z), ..at }),
        Step::Jump(x) => ended(Site { targets: at.targets.insert(x), ..at }),
        Step::JumpWith(x, _) => ended(Site { targets: at.targets.insert(x), ..at }),
        Step::Trap => ended(at),
        Step::Return(_) => ended(at),
        Step::CreateBlock => at,
        Step::AddParam(_) => at,
        Step::FunctionParams(_) => at,
        Step::Param(_, _) => at,
        Step::DeclareVar => at,
        Step::DefVar(_, _) => at,
        Step::Slot(_, _) => at,
        Step::Import(_) => at,
        Step::Arg(_) => at,
        _ => begun(at),
    }
}

#[verifier::opaque]
pub open spec fn site(log: Seq<Entry>) -> Site
    decreases log.len(),
{
    if log.len() == 0 {
        outset()
    } else {
        moved(site(log.drop_last()), log.last().step)
    }
}

/// Whether an instruction may be inserted.
pub open spec fn is_open(at: Site) -> bool {
    at.block is Some && !at.filled.contains(at.block->Some_0)
}

/// Whether the block may be left.
pub open spec fn at_rest(at: Site) -> bool {
    at.block is Some ==> at.filled.contains(at.block->Some_0) || !at.started.contains(
        at.block->Some_0,
    )
}

/// Whether a step may be made at a place.
pub open spec fn allowed(at: Site, s: Step) -> bool {
    match s {
        Step::CreateBlock => true,
        Step::AddParam(x) => !at.started.contains(x),
        Step::FunctionParams(x) => !at.started.contains(x) && !at.targets.contains(x),
        Step::SwitchTo(x) => !at.filled.contains(x) && at_rest(at),
        Step::Seal(x) => !at.sealed.contains(x),
        Step::Param(_, _) => true,
        Step::DeclareVar => true,
        Step::DefVar(_, _) => at.block is Some,
        Step::UseVar(_) => is_open(at),
        Step::Word(_) => is_open(at),
        Step::Byte(_) => is_open(at),
        Step::FuncAddr(_) => is_open(at),
        Step::BandImm(_, _) => is_open(at),
        Step::BorImm(_, _) => is_open(at),
        Step::BxorImm(_, _) => is_open(at),
        Step::IshlImm(_, _) => is_open(at),
        Step::SshrImm(_, _) => is_open(at),
        Step::EqualImm(_, _) => is_open(at),
        Step::NotEqualImm(_, _) => is_open(at),
        Step::Equal(_, _) => is_open(at),
        Step::Band(_, _) => is_open(at),
        Step::Bor(_, _) => is_open(at),
        Step::Bxor(_, _) => is_open(at),
        Step::Ishl(_, _) => is_open(at),
        Step::Sshr(_, _) => is_open(at),
        Step::Isub(_, _) => is_open(at),
        Step::Bnot(_) => is_open(at),
        Step::Select(_, _, _) => is_open(at),
        Step::Load(_, _) => is_open(at),
        Step::Store(_, _, _) => is_open(at),
        Step::Slot(_, _) => true,
        Step::StackStore(_, _, _) => is_open(at),
        Step::StackAddr(_) => is_open(at),
        Step::Reduce(_) => is_open(at),
        Step::Brif(_, y, z) => is_open(at) && !at.sealed.contains(y) && !at.sealed.contains(z),
        Step::Jump(x) => is_open(at) && !at.sealed.contains(x),
        Step::JumpWith(x, _) => is_open(at) && !at.sealed.contains(x),
        Step::Trap => is_open(at),
        Step::Return(_) => is_open(at),
        Step::Import(_) => true,
        Step::Call(_, _) => is_open(at),
        Step::Arg(_) => false,
    }
}

/// Whether a step may be made: what it refers to is there, the block is open
/// for an instruction, and branches go to blocks that are not sealed.
#[verifier::opaque]
pub open spec fn valid(log: Seq<Entry>, s: Step, args: Seq<usize>) -> bool {
    &&& refers(log, s)
    &&& allowed(site(log), s)
    &&& forall|i: int| 0 <= i < args.len() ==> given(log, Kind::Value, #[trigger] args[i])
}

/// Whether every block that was started is full and sealed.
pub open spec fn complete(at: Site) -> bool {
    forall|b: usize| #[trigger]
        at.started.contains(b) ==> at.filled.contains(b) && at.sealed.contains(b)
}

/// [`cranelift_frontend::FunctionBuilder::create_block`]: makes a new block. Its number is the result.
#[verifier::external_body]
fn add_create_block(b: &mut FunctionBuilder<'_>) -> (r: Option<usize>)
    requires
        valid(log_of(*old(b)), Step::CreateBlock, Seq::empty()),
    ensures
        log_of(*final(b)) == log_of(*old(b)).push(entry(Step::CreateBlock, r)),
        signature_in(*final(b)) == signature_in(*old(b)),
        r is Some,
        fresh(log_of(*old(b)), Kind::Block, r),
{
    Some(b.create_block().index())
}

/// [`cranelift_frontend::FunctionBuilder::append_block_param`]: gives a block one more parameter, a word.
#[verifier::external_body]
fn add_add_param(b: &mut FunctionBuilder<'_>, x: usize) -> (r: Option<usize>)
    requires
        valid(log_of(*old(b)), Step::AddParam(x), Seq::empty()),
    ensures
        log_of(*final(b)) == log_of(*old(b)).push(entry(Step::AddParam(x), r)),
        signature_in(*final(b)) == signature_in(*old(b)),
        r is None,
{
    b.append_block_param(Block::new(x), types::I64);
    None
}

/// [`cranelift_frontend::FunctionBuilder::append_block_params_for_function_params`]: gives a block the parameters of the function.
#[verifier::external_body]
fn add_function_params(b: &mut FunctionBuilder<'_>, x: usize) -> (r: Option<usize>)
    requires
        valid(log_of(*old(b)), Step::FunctionParams(x), Seq::empty()),
    ensures
        log_of(*final(b)) == log_of(*old(b)).push(entry(Step::FunctionParams(x), r)),
        signature_in(*final(b)) == signature_in(*old(b)),
        r is None,
{
    b.append_block_params_for_function_params(Block::new(x));
    None
}

/// [`cranelift_frontend::FunctionBuilder::switch_to_block`]: what is inserted from here on goes into the block.
#[verifier::external_body]
fn add_switch_to(b: &mut FunctionBuilder<'_>, x: usize) -> (r: Option<usize>)
    requires
        valid(log_of(*old(b)), Step::SwitchTo(x), Seq::empty()),
    ensures
        log_of(*final(b)) == log_of(*old(b)).push(entry(Step::SwitchTo(x), r)),
        signature_in(*final(b)) == signature_in(*old(b)),
        r is None,
{
    b.switch_to_block(Block::new(x));
    None
}

/// [`cranelift_frontend::FunctionBuilder::seal_block`]: no branch to the block follows.
#[verifier::external_body]
fn add_seal(b: &mut FunctionBuilder<'_>, x: usize) -> (r: Option<usize>)
    requires
        valid(log_of(*old(b)), Step::Seal(x), Seq::empty()),
    ensures
        log_of(*final(b)) == log_of(*old(b)).push(entry(Step::Seal(x), r)),
        signature_in(*final(b)) == signature_in(*old(b)),
        r is None,
{
    b.seal_block(Block::new(x));
    None
}

/// [`cranelift_frontend::FunctionBuilder::block_params`]: the number of the parameter at an index, which is
/// there if the block was given so many.
#[verifier::external_body]
fn add_param(b: &mut FunctionBuilder<'_>, x: usize, y: usize) -> (r: Option<usize>)
    requires
        valid(log_of(*old(b)), Step::Param(x, y), Seq::empty()),
    ensures
        log_of(*final(b)) == log_of(*old(b)).push(entry(Step::Param(x, y), r)),
        signature_in(*final(b)) == signature_in(*old(b)),
        y < params_of(log_of(*old(b)), signature_in(*old(b)).0, x) ==> r is Some,
{
    b.block_params(Block::new(x)).get(y).map(|v| v.index())
}

/// [`cranelift_frontend::FunctionBuilder::declare_var`]: makes a new variable for words. Its number is the
/// result.
#[verifier::external_body]
fn add_declare_var(b: &mut FunctionBuilder<'_>) -> (r: Option<usize>)
    requires
        valid(log_of(*old(b)), Step::DeclareVar, Seq::empty()),
    ensures
        log_of(*final(b)) == log_of(*old(b)).push(entry(Step::DeclareVar, r)),
        signature_in(*final(b)) == signature_in(*old(b)),
        r is Some,
        fresh(log_of(*old(b)), Kind::Var, r),
{
    Some(b.declare_var(types::I64).index())
}

/// [`cranelift_frontend::FunctionBuilder::try_use_var`]: the number of the value that a variable has here.
#[verifier::external_body]
fn add_use_var(b: &mut FunctionBuilder<'_>, x: usize) -> (r: Option<usize>)
    requires
        valid(log_of(*old(b)), Step::UseVar(x), Seq::empty()),
    ensures
        log_of(*final(b)) == log_of(*old(b)).push(entry(Step::UseVar(x), r)),
        signature_in(*final(b)) == signature_in(*old(b)),
        r is Some,
{
    b.try_use_var(Variable::new(x)).ok().map(|v| v.index())
}

/// [`cranelift_frontend::FunctionBuilder::ins`] with `iconst`: a constant word: inserts the instruction. Its value has the number that comes back.
#[verifier::external_body]
fn add_word(b: &mut FunctionBuilder<'_>, x: i64) -> (r: Option<usize>)
    requires
        valid(log_of(*old(b)), Step::Word(x), Seq::empty()),
    ensures
        log_of(*final(b)) == log_of(*old(b)).push(entry(Step::Word(x), r)),
        signature_in(*final(b)) == signature_in(*old(b)),
        r is Some,
        fresh(log_of(*old(b)), Kind::Value, r),
{
    Some(b.ins().iconst(types::I64, x).index())
}

/// [`cranelift_frontend::FunctionBuilder::ins`] with `iconst`: a constant byte: inserts the instruction. Its value has the number that comes back.
#[verifier::external_body]
fn add_byte(b: &mut FunctionBuilder<'_>, x: i64) -> (r: Option<usize>)
    requires
        valid(log_of(*old(b)), Step::Byte(x), Seq::empty()),
    ensures
        log_of(*final(b)) == log_of(*old(b)).push(entry(Step::Byte(x), r)),
        signature_in(*final(b)) == signature_in(*old(b)),
        r is Some,
        fresh(log_of(*old(b)), Kind::Value, r),
{
    Some(b.ins().iconst(types::I8, x).index())
}

/// [`cranelift_frontend::FunctionBuilder::ins`] with `func_addr`: the address of a function: inserts the instruction. Its value has the number that comes back.
#[verifier::external_body]
fn add_func_addr(b: &mut FunctionBuilder<'_>, x: usize) -> (r: Option<usize>)
    requires
        valid(log_of(*old(b)), Step::FuncAddr(x), Seq::empty()),
    ensures
        log_of(*final(b)) == log_of(*old(b)).push(entry(Step::FuncAddr(x), r)),
        signature_in(*final(b)) == signature_in(*old(b)),
        r is Some,
        fresh(log_of(*old(b)), Kind::Value, r),
{
    Some(b.ins().func_addr(types::I64, FuncRef::new(x)).index())
}

/// [`cranelift_frontend::FunctionBuilder::ins`] with `band_imm`: inserts the instruction. Its value has the number that comes back.
#[verifier::external_body]
fn add_band_imm(b: &mut FunctionBuilder<'_>, x: usize, y: i64) -> (r: Option<usize>)
    requires
        valid(log_of(*old(b)), Step::BandImm(x, y), Seq::empty()),
    ensures
        log_of(*final(b)) == log_of(*old(b)).push(entry(Step::BandImm(x, y), r)),
        signature_in(*final(b)) == signature_in(*old(b)),
        r is Some,
        fresh(log_of(*old(b)), Kind::Value, r),
{
    Some(b.ins().band_imm(Value::new(x), y).index())
}

/// [`cranelift_frontend::FunctionBuilder::ins`] with `bor_imm`: inserts the instruction. Its value has the number that comes back.
#[verifier::external_body]
fn add_bor_imm(b: &mut FunctionBuilder<'_>, x: usize, y: i64) -> (r: Option<usize>)
    requires
        valid(log_of(*old(b)), Step::BorImm(x, y), Seq::empty()),
    ensures
        log_of(*final(b)) == log_of(*old(b)).push(entry(Step::BorImm(x, y), r)),
        signature_in(*final(b)) == signature_in(*old(b)),
        r is Some,
        fresh(log_of(*old(b)), Kind::Value, r),
{
    Some(b.ins().bor_imm(Value::new(x), y).index())
}

/// [`cranelift_frontend::FunctionBuilder::ins`] with `bxor_imm`: inserts the instruction. Its value has the number that comes back.
#[verifier::external_body]
fn add_bxor_imm(b: &mut FunctionBuilder<'_>, x: usize, y: i64) -> (r: Option<usize>)
    requires
        valid(log_of(*old(b)), Step::BxorImm(x, y), Seq::empty()),
    ensures
        log_of(*final(b)) == log_of(*old(b)).push(entry(Step::BxorImm(x, y), r)),
        signature_in(*final(b)) == signature_in(*old(b)),
        r is Some,
        fresh(log_of(*old(b)), Kind::Value, r),
{
    Some(b.ins().bxor_imm(Value::new(x), y).index())
}

/// [`cranelift_frontend::FunctionBuilder::ins`] with `ishl_imm`: inserts the instruction. Its value has the number that comes back.
#[verifier::external_body]
fn add_ishl_imm(b: &mut FunctionBuilder<'_>, x: usize, y: i64) -> (r: Option<usize>)
    requires
        valid(log_of(*old(b)), Step::IshlImm(x, y), Seq::empty()),
    ensures
        log_of(*final(b)) == log_of(*old(b)).push(entry(Step::IshlImm(x, y), r)),
        signature_in(*final(b)) == signature_in(*old(b)),
        r is Some,
        fresh(log_of(*old(b)), Kind::Value, r),
{
    Some(b.ins().ishl_imm(Value::new(x), y).index())
}

/// [`cranelift_frontend::FunctionBuilder::ins`] with `sshr_imm`: inserts the instruction. Its value has the number that comes back.
#[verifier::external_body]
fn add_sshr_imm(b: &mut FunctionBuilder<'_>, x: usize, y: i64) -> (r: Option<usize>)
    requires
        valid(log_of(*old(b)), Step::SshrImm(x, y), Seq::empty()),
    ensures
        log_of(*final(b)) == log_of(*old(b)).push(entry(Step::SshrImm(x, y), r)),
        signature_in(*final(b)) == signature_in(*old(b)),
        r is Some,
        fresh(log_of(*old(b)), Kind::Value, r),
{
    Some(b.ins().sshr_imm(Value::new(x), y).index())
}

/// [`cranelift_frontend::FunctionBuilder::ins`] with `icmp_imm` for equality: inserts the instruction. Its value has the number that comes back.
#[verifier::external_body]
fn add_equal_imm(b: &mut FunctionBuilder<'_>, x: usize, y: i64) -> (r: Option<usize>)
    requires
        valid(log_of(*old(b)), Step::EqualImm(x, y), Seq::empty()),
    ensures
        log_of(*final(b)) == log_of(*old(b)).push(entry(Step::EqualImm(x, y), r)),
        signature_in(*final(b)) == signature_in(*old(b)),
        r is Some,
        fresh(log_of(*old(b)), Kind::Value, r),
{
    Some(b.ins().icmp_imm(IntCC::Equal, Value::new(x), y).index())
}

/// [`cranelift_frontend::FunctionBuilder::ins`] with `icmp_imm` for inequality: inserts the instruction. Its value has the number that comes back.
#[verifier::external_body]
fn add_not_equal_imm(b: &mut FunctionBuilder<'_>, x: usize, y: i64) -> (r: Option<usize>)
    requires
        valid(log_of(*old(b)), Step::NotEqualImm(x, y), Seq::empty()),
    ensures
        log_of(*final(b)) == log_of(*old(b)).push(entry(Step::NotEqualImm(x, y), r)),
        signature_in(*final(b)) == signature_in(*old(b)),
        r is Some,
        fresh(log_of(*old(b)), Kind::Value, r),
{
    Some(b.ins().icmp_imm(IntCC::NotEqual, Value::new(x), y).index())
}

/// [`cranelift_frontend::FunctionBuilder::ins`] with `icmp` for equality: inserts the instruction. Its value has the number that comes back.
#[verifier::external_body]
fn add_equal(b: &mut FunctionBuilder<'_>, x: usize, y: usize) -> (r: Option<usize>)
    requires
        valid(log_of(*old(b)), Step::Equal(x, y), Seq::empty()),
    ensures
        log_of(*final(b)) == log_of(*old(b)).push(entry(Step::Equal(x, y), r)),
        signature_in(*final(b)) == signature_in(*old(b)),
        r is Some,
        fresh(log_of(*old(b)), Kind::Value, r),
{
    Some(b.ins().icmp(IntCC::Equal, Value::new(x), Value::new(y)).index())
}

/// [`cranelift_frontend::FunctionBuilder::ins`] with `band`: inserts the instruction. Its value has the number that comes back.
#[verifier::external_body]
fn add_band(b: &mut FunctionBuilder<'_>, x: usize, y: usize) -> (r: Option<usize>)
    requires
        valid(log_of(*old(b)), Step::Band(x, y), Seq::empty()),
    ensures
        log_of(*final(b)) == log_of(*old(b)).push(entry(Step::Band(x, y), r)),
        signature_in(*final(b)) == signature_in(*old(b)),
        r is Some,
        fresh(log_of(*old(b)), Kind::Value, r),
{
    Some(b.ins().band(Value::new(x), Value::new(y)).index())
}

/// [`cranelift_frontend::FunctionBuilder::ins`] with `bor`: inserts the instruction. Its value has the number that comes back.
#[verifier::external_body]
fn add_bor(b: &mut FunctionBuilder<'_>, x: usize, y: usize) -> (r: Option<usize>)
    requires
        valid(log_of(*old(b)), Step::Bor(x, y), Seq::empty()),
    ensures
        log_of(*final(b)) == log_of(*old(b)).push(entry(Step::Bor(x, y), r)),
        signature_in(*final(b)) == signature_in(*old(b)),
        r is Some,
        fresh(log_of(*old(b)), Kind::Value, r),
{
    Some(b.ins().bor(Value::new(x), Value::new(y)).index())
}

/// [`cranelift_frontend::FunctionBuilder::ins`] with `bxor`: inserts the instruction. Its value has the number that comes back.
#[verifier::external_body]
fn add_bxor(b: &mut FunctionBuilder<'_>, x: usize, y: usize) -> (r: Option<usize>)
    requires
        valid(log_of(*old(b)), Step::Bxor(x, y), Seq::empty()),
    ensures
        log_of(*final(b)) == log_of(*old(b)).push(entry(Step::Bxor(x, y), r)),
        signature_in(*final(b)) == signature_in(*old(b)),
        r is Some,
        fresh(log_of(*old(b)), Kind::Value, r),
{
    Some(b.ins().bxor(Value::new(x), Value::new(y)).index())
}

/// [`cranelift_frontend::FunctionBuilder::ins`] with `ishl`: inserts the instruction. Its value has the number that comes back.
#[verifier::external_body]
fn add_ishl(b: &mut FunctionBuilder<'_>, x: usize, y: usize) -> (r: Option<usize>)
    requires
        valid(log_of(*old(b)), Step::Ishl(x, y), Seq::empty()),
    ensures
        log_of(*final(b)) == log_of(*old(b)).push(entry(Step::Ishl(x, y), r)),
        signature_in(*final(b)) == signature_in(*old(b)),
        r is Some,
        fresh(log_of(*old(b)), Kind::Value, r),
{
    Some(b.ins().ishl(Value::new(x), Value::new(y)).index())
}

/// [`cranelift_frontend::FunctionBuilder::ins`] with `sshr`: inserts the instruction. Its value has the number that comes back.
#[verifier::external_body]
fn add_sshr(b: &mut FunctionBuilder<'_>, x: usize, y: usize) -> (r: Option<usize>)
    requires
        valid(log_of(*old(b)), Step::Sshr(x, y), Seq::empty()),
    ensures
        log_of(*final(b)) == log_of(*old(b)).push(entry(Step::Sshr(x, y), r)),
        signature_in(*final(b)) == signature_in(*old(b)),
        r is Some,
        fresh(log_of(*old(b)), Kind::Value, r),
{
    Some(b.ins().sshr(Value::new(x), Value::new(y)).index())
}

/// [`cranelift_frontend::FunctionBuilder::ins`] with `isub`: inserts the instruction. Its value has the number that comes back.
#[verifier::external_body]
fn add_isub(b: &mut FunctionBuilder<'_>, x: usize, y: usize) -> (r: Option<usize>)
    requires
        valid(log_of(*old(b)), Step::Isub(x, y), Seq::empty()),
    ensures
        log_of(*final(b)) == log_of(*old(b)).push(entry(Step::Isub(x, y), r)),
        signature_in(*final(b)) == signature_in(*old(b)),
        r is Some,
        fresh(log_of(*old(b)), Kind::Value, r),
{
    Some(b.ins().isub(Value::new(x), Value::new(y)).index())
}

/// [`cranelift_frontend::FunctionBuilder::ins`] with `bnot`: inserts the instruction. Its value has the number that comes back.
#[verifier::external_body]
fn add_bnot(b: &mut FunctionBuilder<'_>, x: usize) -> (r: Option<usize>)
    requires
        valid(log_of(*old(b)), Step::Bnot(x), Seq::empty()),
    ensures
        log_of(*final(b)) == log_of(*old(b)).push(entry(Step::Bnot(x), r)),
        signature_in(*final(b)) == signature_in(*old(b)),
        r is Some,
        fresh(log_of(*old(b)), Kind::Value, r),
{
    Some(b.ins().bnot(Value::new(x)).index())
}

/// [`cranelift_frontend::FunctionBuilder::ins`] with `select`: inserts the instruction. Its value has the number that comes back.
#[verifier::external_body]
fn add_select(b: &mut FunctionBuilder<'_>, x: usize, y: usize, z: usize) -> (r: Option<usize>)
    requires
        valid(log_of(*old(b)), Step::Select(x, y, z), Seq::empty()),
    ensures
        log_of(*final(b)) == log_of(*old(b)).push(entry(Step::Select(x, y, z), r)),
        signature_in(*final(b)) == signature_in(*old(b)),
        r is Some,
        fresh(log_of(*old(b)), Kind::Value, r),
{
    Some(b.ins().select(Value::new(x), Value::new(y), Value::new(z)).index())
}

/// [`cranelift_frontend::FunctionBuilder::ins`] with `load` of a word: inserts the instruction. Its value has the number that comes back.
#[verifier::external_body]
fn add_load(b: &mut FunctionBuilder<'_>, x: usize, y: i32) -> (r: Option<usize>)
    requires
        valid(log_of(*old(b)), Step::Load(x, y), Seq::empty()),
    ensures
        log_of(*final(b)) == log_of(*old(b)).push(entry(Step::Load(x, y), r)),
        signature_in(*final(b)) == signature_in(*old(b)),
        r is Some,
        fresh(log_of(*old(b)), Kind::Value, r),
{
    Some(b.ins().load(types::I64, MemFlags::new(), Value::new(x), y).index())
}

/// [`cranelift_frontend::FunctionBuilder::ins`] with `store`: inserts the instruction.
#[verifier::external_body]
fn add_store(b: &mut FunctionBuilder<'_>, x: usize, y: usize, z: i32) -> (r: Option<usize>)
    requires
        valid(log_of(*old(b)), Step::Store(x, y, z), Seq::empty()),
    ensures
        log_of(*final(b)) == log_of(*old(b)).push(entry(Step::Store(x, y, z), r)),
        signature_in(*final(b)) == signature_in(*old(b)),
        r is None,
{
    b.ins().store(MemFlags::new(), Value::new(x), Value::new(y), z);
    None
}

/// [`cranelift_frontend::FunctionBuilder::create_sized_stack_slot`]: makes a new stack slot. Its number
/// is the result.
#[verifier::external_body]
fn add_slot(b: &mut FunctionBuilder<'_>, x: u32, y: u8) -> (r: Option<usize>)
    requires
        valid(log_of(*old(b)), Step::Slot(x, y), Seq::empty()),
    ensures
        log_of(*final(b)) == log_of(*old(b)).push(entry(Step::Slot(x, y), r)),
        signature_in(*final(b)) == signature_in(*old(b)),
        r is Some,
        fresh(log_of(*old(b)), Kind::Slot, r),
{
    let data = StackSlotData::new(StackSlotKind::ExplicitSlot, x, y);
    Some(b.create_sized_stack_slot(data).index())
}

/// [`cranelift_frontend::FunctionBuilder::ins`] with `stack_store`: inserts the instruction.
#[verifier::external_body]
fn add_stack_store(b: &mut FunctionBuilder<'_>, x: usize, y: usize, z: i32) -> (r: Option<usize>)
    requires
        valid(log_of(*old(b)), Step::StackStore(x, y, z), Seq::empty()),
    ensures
        log_of(*final(b)) == log_of(*old(b)).push(entry(Step::StackStore(x, y, z), r)),
        signature_in(*final(b)) == signature_in(*old(b)),
        r is None,
{
    b.ins().stack_store(Value::new(x), StackSlot::new(y), z);
    None
}

/// [`cranelift_frontend::FunctionBuilder::ins`] with `stack_addr`: inserts the instruction. Its value has the number that comes back.
#[verifier::external_body]
fn add_stack_addr(b: &mut FunctionBuilder<'_>, x: usize) -> (r: Option<usize>)
    requires
        valid(log_of(*old(b)), Step::StackAddr(x), Seq::empty()),
    ensures
        log_of(*final(b)) == log_of(*old(b)).push(entry(Step::StackAddr(x), r)),
        signature_in(*final(b)) == signature_in(*old(b)),
        r is Some,
        fresh(log_of(*old(b)), Kind::Value, r),
{
    Some(b.ins().stack_addr(types::I64, StackSlot::new(x), 0).index())
}

/// [`cranelift_frontend::FunctionBuilder::ins`] with `ireduce` to a byte: inserts the instruction. Its value has the number that comes back.
#[verifier::external_body]
fn add_reduce(b: &mut FunctionBuilder<'_>, x: usize) -> (r: Option<usize>)
    requires
        valid(log_of(*old(b)), Step::Reduce(x), Seq::empty()),
    ensures
        log_of(*final(b)) == log_of(*old(b)).push(entry(Step::Reduce(x), r)),
        signature_in(*final(b)) == signature_in(*old(b)),
        r is Some,
        fresh(log_of(*old(b)), Kind::Value, r),
{
    Some(b.ins().ireduce(types::I8, Value::new(x)).index())
}

/// [`cranelift_frontend::FunctionBuilder::ins`] with `brif`: inserts the instruction.
#[verifier::external_body]
fn add_brif(b: &mut FunctionBuilder<'_>, x: usize, y: usize, z: usize) -> (r: Option<usize>)
    requires
        valid(log_of(*old(b)), Step::Brif(x, y, z), Seq::empty()),
    ensures
        log_of(*final(b)) == log_of(*old(b)).push(entry(Step::Brif(x, y, z), r)),
        signature_in(*final(b)) == signature_in(*old(b)),
        r is None,
{
    b.ins().brif(Value::new(x), Block::new(y), &[], Block::new(z), &[]);
    None
}

/// [`cranelift_frontend::FunctionBuilder::ins`] with `jump` without arguments: inserts the instruction.
#[verifier::external_body]
fn add_jump(b: &mut FunctionBuilder<'_>, x: usize) -> (r: Option<usize>)
    requires
        valid(log_of(*old(b)), Step::Jump(x), Seq::empty()),
    ensures
        log_of(*final(b)) == log_of(*old(b)).push(entry(Step::Jump(x), r)),
        signature_in(*final(b)) == signature_in(*old(b)),
        r is None,
{
    b.ins().jump(Block::new(x), &[]);
    None
}

/// [`cranelift_frontend::FunctionBuilder::ins`] with `jump` with one argument: inserts the instruction.
#[verifier::external_body]
fn add_jump_with(b: &mut FunctionBuilder<'_>, x: usize, y: usize) -> (r: Option<usize>)
    requires
        valid(log_of(*old(b)), Step::JumpWith(x, y), Seq::empty()),
    ensures
        log_of(*final(b)) == log_of(*old(b)).push(entry(Step::JumpWith(x, y), r)),
        signature_in(*final(b)) == signature_in(*old(b)),
        r is None,
{
    b.ins().jump(Block::new(x), &[BlockArg::Value(Value::new(y))]);
    None
}

/// [`cranelift_frontend::FunctionBuilder::ins`] with `trap`: inserts the instruction.
#[verifier::external_body]
fn add_trap(b: &mut FunctionBuilder<'_>) -> (r: Option<usize>)
    requires
        valid(log_of(*old(b)), Step::Trap, Seq::empty()),
    ensures
        log_of(*final(b)) == log_of(*old(b)).push(entry(Step::Trap, r)),
        signature_in(*final(b)) == signature_in(*old(b)),
        r is None,
{
    b.ins().trap(TrapCode::unwrap_user(1));
    None
}

/// [`cranelift_frontend::FunctionBuilder::ins`] with `return`: inserts the instruction.
#[verifier::external_body]
fn add_return(b: &mut FunctionBuilder<'_>, x: usize) -> (r: Option<usize>)
    requires
        valid(log_of(*old(b)), Step::Return(x), Seq::empty()),
    ensures
        log_of(*final(b)) == log_of(*old(b)).push(entry(Step::Return(x), r)),
        signature_in(*final(b)) == signature_in(*old(b)),
        r is None,
{
    b.ins().return_(&[Value::new(x)]);
    None
}

/// [`cranelift_frontend::FunctionBuilder::def_var`]: gives a variable a value from
/// here on. The value has to be a word, as variables are.
#[verifier::external_body]
fn add_def_var(b: &mut FunctionBuilder<'_>, x: usize, y: usize) -> (r: Option<usize>)
    requires
        valid(log_of(*old(b)), Step::DefVar(x, y), Seq::empty()),
        !byte_in(log_of(*old(b)), y),
    ensures
        log_of(*final(b)) == log_of(*old(b)).push(entry(Step::DefVar(x, y), r)),
        signature_in(*final(b)) == signature_in(*old(b)),
        r is None,
{
    b.def_var(Variable::new(x), Value::new(y));
    None
}

/// A function of an object file.
pub struct Declared {
    pub symbol: Seq<char>,
    pub params: nat,
    pub results: nat,
    pub export: bool,
    /// The steps that its body was built by, once it is defined.
    pub body: Option<Seq<Entry>>,
}

/// The declared functions of an object file.
pub uninterp spec fn declared_in(m: ObjectModule) -> Seq<Declared>;

/// [`cranelift_module::Module::declare_func_in_func`]: makes a declared
/// function known to the one that is built. The number of the reference, which
/// is new, is the result. The object file stays as it is.
#[verifier::external_body]
fn add_import(m: &mut ObjectModule, b: &mut FunctionBuilder<'_>, x: usize) -> (r: Option<usize>)
    requires
        x < declared_in(*old(m)).len(),
    ensures
        log_of(*final(b)) == log_of(*old(b)).push(
            (Entry {
                step: Step::Import(x),
                args: Seq::empty(),
                result: r,
                results: declared_in(*old(m))[x as int].results,
            }),
        ),
        signature_in(*final(b)) == signature_in(*old(b)),
        r is Some,
        fresh(log_of(*old(b)), Kind::Ref, r),
        *final(m) == *old(m),
{
    let id = FuncId::new(x);
    let r = cranelift_module::Module::declare_func_in_func(m, id, b.func);
    Some(r.index())
}

/// [`cranelift_frontend::FunctionBuilder::ins`] with `call`: inserts a call. Its
/// value, which it has if the function returns one, has the number that comes
/// back.
#[verifier::external_body]
fn add_call(b: &mut FunctionBuilder<'_>, x: usize, n: usize, args: &Vec<usize>) -> (r: Option<usize>)
    requires
        valid(log_of(*old(b)), Step::Call(x, n), args@),
    ensures
        log_of(*final(b)) == log_of(*old(b)).push(
            (Entry { step: Step::Call(x, n), args: args@, result: r, results: 0 }),
        ),
        signature_in(*final(b)) == signature_in(*old(b)),
        r is Some <==> results_of(log_of(*old(b)), x) > 0,
        fresh(log_of(*old(b)), Kind::Value, r),
{
    let vals: Vec<Value> = args.iter().map(|a| Value::new(*a)).collect();
    let call = b.ins().call(FuncRef::new(x), &vals);
    b.inst_results(call).first().map(|v| v.index())
}

/// Makes a step.
fn make(m: &mut ObjectModule, b: &mut FunctionBuilder<'_>, s: Step, args: &Vec<usize>) -> (r: Option<
    usize,
>)
    requires
        valid(log_of(*old(b)), s, args@),
        s matches Step::Import(x) ==> x < declared_in(*old(m)).len(),
        s matches Step::DefVar(_, y) ==> !byte_in(log_of(*old(b)), y),
        !(s is Call) ==> args@.len() == 0,
    ensures
        *final(m) == *old(m),
        signature_in(*final(b)) == signature_in(*old(b)),
        log_of(*final(b)) == log_of(*old(b)).push(
            (Entry {
                step: s,
                args: args@,
                result: r,
                results: match s {
                    Step::Import(x) => declared_in(*old(m))[x as int].results,
                    _ => 0,
                },
            }),
        ),
        match s {
            Step::Call(x, _) => r is Some <==> results_of(log_of(*old(b)), x) > 0,
            Step::Param(x, y) => y < params_of(log_of(*old(b)), signature_in(*old(b)).0, x) ==> r
                is Some,
            _ => kind(s) is Some ==> r is Some,
        },
        s is UseVar || s is Param || (kind(s) matches Some(k) ==> fresh(log_of(*old(b)), k, r)),
{
    proof {
        reveal(valid);
    }
    assert(!(s is Call) ==> args@ =~= Seq::empty());
    match s {
        Step::CreateBlock => add_create_block(b),
        Step::AddParam(x) => add_add_param(b, x),
        Step::FunctionParams(x) => add_function_params(b, x),
        Step::SwitchTo(x) => add_switch_to(b, x),
        Step::Seal(x) => add_seal(b, x),
        Step::Param(x, y) => add_param(b, x, y),
        Step::DeclareVar => add_declare_var(b),
        Step::DefVar(x, y) => add_def_var(b, x, y),
        Step::UseVar(x) => add_use_var(b, x),
        Step::Word(x) => add_word(b, x),
        Step::Byte(x) => add_byte(b, x),
        Step::FuncAddr(x) => add_func_addr(b, x),
        Step::BandImm(x, y) => add_band_imm(b, x, y),
        Step::BorImm(x, y) => add_bor_imm(b, x, y),
        Step::BxorImm(x, y) => add_bxor_imm(b, x, y),
        Step::IshlImm(x, y) => add_ishl_imm(b, x, y),
        Step::SshrImm(x, y) => add_sshr_imm(b, x, y),
        Step::EqualImm(x, y) => add_equal_imm(b, x, y),
        Step::NotEqualImm(x, y) => add_not_equal_imm(b, x, y),
        Step::Equal(x, y) => add_equal(b, x, y),
        Step::Band(x, y) => add_band(b, x, y),
        Step::Bor(x, y) => add_bor(b, x, y),
        Step::Bxor(x, y) => add_bxor(b, x, y),
        Step::Ishl(x, y) => add_ishl(b, x, y),
        Step::Sshr(x, y) => add_sshr(b, x, y),
        Step::Isub(x, y) => add_isub(b, x, y),
        Step::Bnot(x) => add_bnot(b, x),
        Step::Select(x, y, z) => add_select(b, x, y, z),
        Step::Load(x, y) => add_load(b, x, y),
        Step::Store(x, y, z) => add_store(b, x, y, z),
        Step::Slot(x, y) => add_slot(b, x, y),
        Step::StackStore(x, y, z) => add_stack_store(b, x, y, z),
        Step::StackAddr(x) => add_stack_addr(b, x),
        Step::Reduce(x) => add_reduce(b, x),
        Step::Brif(x, y, z) => add_brif(b, x, y, z),
        Step::Jump(x) => add_jump(b, x),
        Step::JumpWith(x, y) => add_jump_with(b, x, y),
        Step::Trap => add_trap(b),
        Step::Return(x) => add_return(b, x),
        Step::Import(x) => add_import(m, b, x),
        Step::Call(x, n) => add_call(b, x, n, args),
        Step::Arg(_) => None,
    }
}

/// Cranelift's number of what a step has yielded.
pub open spec fn number(ids: Seq<Option<usize>>, x: usize) -> usize {
    ids[x as int]->Some_0
}

/// A step with Cranelift's numbers in place of the places of steps.
pub open spec fn renumbered(s: Step, ids: Seq<Option<usize>>) -> Step {
    match s {
        Step::CreateBlock => s,
        Step::AddParam(x) => Step::AddParam(number(ids, x)),
        Step::FunctionParams(x) => Step::FunctionParams(number(ids, x)),
        Step::SwitchTo(x) => Step::SwitchTo(number(ids, x)),
        Step::Seal(x) => Step::Seal(number(ids, x)),
        Step::Param(x, y) => Step::Param(number(ids, x), y),
        Step::DeclareVar => s,
        Step::DefVar(x, y) => Step::DefVar(number(ids, x), number(ids, y)),
        Step::UseVar(x) => Step::UseVar(number(ids, x)),
        Step::Word(x) => Step::Word(x),
        Step::Byte(x) => Step::Byte(x),
        Step::FuncAddr(x) => Step::FuncAddr(number(ids, x)),
        Step::BandImm(x, y) => Step::BandImm(number(ids, x), y),
        Step::BorImm(x, y) => Step::BorImm(number(ids, x), y),
        Step::BxorImm(x, y) => Step::BxorImm(number(ids, x), y),
        Step::IshlImm(x, y) => Step::IshlImm(number(ids, x), y),
        Step::SshrImm(x, y) => Step::SshrImm(number(ids, x), y),
        Step::EqualImm(x, y) => Step::EqualImm(number(ids, x), y),
        Step::NotEqualImm(x, y) => Step::NotEqualImm(number(ids, x), y),
        Step::Equal(x, y) => Step::Equal(number(ids, x), number(ids, y)),
        Step::Band(x, y) => Step::Band(number(ids, x), number(ids, y)),
        Step::Bor(x, y) => Step::Bor(number(ids, x), number(ids, y)),
        Step::Bxor(x, y) => Step::Bxor(number(ids, x), number(ids, y)),
        Step::Ishl(x, y) => Step::Ishl(number(ids, x), number(ids, y)),
        Step::Sshr(x, y) => Step::Sshr(number(ids, x), number(ids, y)),
        Step::Isub(x, y) => Step::Isub(number(ids, x), number(ids, y)),
        Step::Bnot(x) => Step::Bnot(number(ids, x)),
        Step::Select(x, y, z) => Step::Select(number(ids, x), number(ids, y), number(ids, z)),
        Step::Load(x, y) => Step::Load(number(ids, x), y),
        Step::Store(x, y, z) => Step::Store(number(ids, x), number(ids, y), z),
        Step::Slot(x, y) => Step::Slot(x, y),
        Step::StackStore(x, y, z) => Step::StackStore(number(ids, x), number(ids, y), z),
        Step::StackAddr(x) => Step::StackAddr(number(ids, x)),
        Step::Reduce(x) => Step::Reduce(number(ids, x)),
        Step::Brif(x, y, z) => Step::Brif(number(ids, x), number(ids, y), number(ids, z)),
        Step::Jump(x) => Step::Jump(number(ids, x)),
        Step::JumpWith(x, y) => Step::JumpWith(number(ids, x), number(ids, y)),
        Step::Trap => s,
        Step::Return(x) => Step::Return(number(ids, x)),
        Step::Import(x) => Step::Import(x),
        Step::Call(x, n) => Step::Call(number(ids, x), n),
        Step::Arg(x) => Step::Arg(number(ids, x)),
    }
}

/// Cranelift's number of what a step has yielded.
fn number_of(ids: &Vec<Option<usize>>, x: usize) -> (r: usize)
    requires
        has_number(ids@, x),
    ensures
        r == number(ids@, x),
{
    match ids[x] {
        Some(n) => n,
        None => 0,
    }
}

/// A step with Cranelift's numbers in place of the places of steps.
fn renumber(s: Step, ids: &Vec<Option<usize>>) -> (r: Step)
    requires
        numbered(s, ids@),
    ensures
        r == renumbered(s, ids@),
{
    match s {
        Step::CreateBlock => s,
        Step::AddParam(x) => Step::AddParam(number_of(ids, x)),
        Step::FunctionParams(x) => Step::FunctionParams(number_of(ids, x)),
        Step::SwitchTo(x) => Step::SwitchTo(number_of(ids, x)),
        Step::Seal(x) => Step::Seal(number_of(ids, x)),
        Step::Param(x, y) => Step::Param(number_of(ids, x), y),
        Step::DeclareVar => s,
        Step::DefVar(x, y) => Step::DefVar(number_of(ids, x), number_of(ids, y)),
        Step::UseVar(x) => Step::UseVar(number_of(ids, x)),
        Step::Word(x) => Step::Word(x),
        Step::Byte(x) => Step::Byte(x),
        Step::FuncAddr(x) => Step::FuncAddr(number_of(ids, x)),
        Step::BandImm(x, y) => Step::BandImm(number_of(ids, x), y),
        Step::BorImm(x, y) => Step::BorImm(number_of(ids, x), y),
        Step::BxorImm(x, y) => Step::BxorImm(number_of(ids, x), y),
        Step::IshlImm(x, y) => Step::IshlImm(number_of(ids, x), y),
        Step::SshrImm(x, y) => Step::SshrImm(number_of(ids, x), y),
        Step::EqualImm(x, y) => Step::EqualImm(number_of(ids, x), y),
        Step::NotEqualImm(x, y) => Step::NotEqualImm(number_of(ids, x), y),
        Step::Equal(x, y) => Step::Equal(number_of(ids, x), number_of(ids, y)),
        Step::Band(x, y) => Step::Band(number_of(ids, x), number_of(ids, y)),
        Step::Bor(x, y) => Step::Bor(number_of(ids, x), number_of(ids, y)),
        Step::Bxor(x, y) => Step::Bxor(number_of(ids, x), number_of(ids, y)),
        Step::Ishl(x, y) => Step::Ishl(number_of(ids, x), number_of(ids, y)),
        Step::Sshr(x, y) => Step::Sshr(number_of(ids, x), number_of(ids, y)),
        Step::Isub(x, y) => Step::Isub(number_of(ids, x), number_of(ids, y)),
        Step::Bnot(x) => Step::Bnot(number_of(ids, x)),
        Step::Select(x, y, z) => Step::Select(number_of(ids, x), number_of(ids, y), number_of(ids, z)),
        Step::Load(x, y) => Step::Load(number_of(ids, x), y),
        Step::Store(x, y, z) => Step::Store(number_of(ids, x), number_of(ids, y), z),
        Step::Slot(x, y) => Step::Slot(x, y),
        Step::StackStore(x, y, z) => Step::StackStore(number_of(ids, x), number_of(ids, y), z),
        Step::StackAddr(x) => Step::StackAddr(number_of(ids, x)),
        Step::Reduce(x) => Step::Reduce(number_of(ids, x)),
        Step::Brif(x, y, z) => Step::Brif(number_of(ids, x), number_of(ids, y), number_of(ids, z)),
        Step::Jump(x) => Step::Jump(number_of(ids, x)),
        Step::JumpWith(x, y) => Step::JumpWith(number_of(ids, x), number_of(ids, y)),
        Step::Trap => s,
        Step::Return(x) => Step::Return(number_of(ids, x)),
        Step::Import(x) => Step::Import(x),
        Step::Call(x, n) => Step::Call(number_of(ids, x), n),
        Step::Arg(x) => Step::Arg(number_of(ids, x)),
    }
}

/// What a builder has made once it has made steps that yielded `ids`, and the
/// arguments of the call that follows.
pub open spec fn placed(funcs: Seq<Decl>, steps: Seq<Step>, ids: Seq<Option<usize>>) -> (
    Seq<Entry>,
    Seq<usize>,
)
    decreases steps.len(),
{
    if steps.len() == 0 {
        (Seq::empty(), Seq::empty())
    } else {
        let (log, args) = placed(funcs, steps.drop_last(), ids);
        let past = ids.take(steps.len() - 1);
        match steps.last() {
            Step::Arg(x) => (log, args.push(number(past, x))),
            s => (
                log.push(
                    Entry {
                        step: renumbered(s, past),
                        args,
                        result: ids[steps.len() - 1],
                        results: match s {
                            Step::Import(f) => funcs[f as int].results,
                            _ => 0,
                        },
                    },
                ),
                Seq::empty(),
            ),
        }
    }
}

proof fn lemma_placed_past(
    funcs: Seq<Decl>,
    steps: Seq<Step>,
    a: Seq<Option<usize>>,
    b: Seq<Option<usize>>,
)
    requires
        a.len() >= steps.len(),
        b.len() >= steps.len(),
        a.take(steps.len() as int) == b.take(steps.len() as int),
    ensures
        placed(funcs, steps, a) == placed(funcs, steps, b),
    decreases steps.len(),
{
    if steps.len() > 0 {
        let n = steps.len() - 1;
        assert(a.take(n) =~= a.take(n + 1).take(n));
        assert(b.take(n) =~= b.take(n + 1).take(n));
        assert(a[n] == a.take(n + 1)[n]);
        assert(b[n] == b.take(n + 1)[n]);
        lemma_placed_past(funcs, steps.drop_last(), a, b);
    }
}

/// Whether the functions of an object file are those of a plan, as far as
/// calls go.
pub open spec fn same_results(declared: Seq<Declared>, funcs: Seq<Decl>) -> bool {
    &&& declared.len() == funcs.len()
    &&& forall|i: int| 0 <= i < funcs.len() ==> (#[trigger] declared[i]).results == funcs[i].results
}

/// The steps that were made.
pub open spec fn made(log: Seq<Entry>) -> Seq<Step> {
    Seq::new(log.len(), |i: int| log[i].step)
}

/// Whether an instruction was inserted into a block.
pub open spec fn is_begun(at: Site) -> bool {
    exists|b: usize| #[trigger] at.started.contains(b)
}

/// Whether the functions that were imported are those that are declared.
#[verifier::opaque]
pub open spec fn imports_known(log: Seq<Entry>, declared: Seq<Declared>) -> bool {
    forall|i: int|
        0 <= i < log.len() ==> ((#[trigger] log[i]).step matches Step::Import(x) ==> x
            < declared.len() && log[i].results == declared[x as int].results)
}

proof fn lemma_import_known(log: Seq<Entry>, e: Entry, declared: Seq<Declared>)
    requires
        imports_known(log, declared),
        e.step matches Step::Import(x) ==> x < declared.len() && e.results
            == declared[x as int].results,
    ensures
        imports_known(log.push(e), declared),
{
    reveal(imports_known);
    assert forall|i: int| 0 <= i < log.push(e).len() implies ((
    #[trigger] log.push(e)[i]).step matches Step::Import(x) ==> x < declared.len() && log.push(
        e,
    )[i].results == declared[x as int].results) by {
        if i < log.len() {
            assert(log.push(e)[i] == log[i]);
        }
    }
}

/// Makes the steps of a function. The numbers of what they yield come back.
fn make_all(
    m: &mut ObjectModule,
    b: &mut FunctionBuilder<'_>,
    steps: &Vec<Step>,
    Ghost(funcs): Ghost<Seq<Decl>>,
) -> (ids: Vec<Option<usize>>)
    requires
        log_of(*old(b)) == Seq::<Entry>::empty(),
        fits(steps@, funcs, signature_in(*old(b)).0),
        same_results(declared_in(*old(m)), funcs),
    ensures
        *final(m) == *old(m),
        signature_in(*final(b)) == signature_in(*old(b)),
        ids@.len() == steps@.len(),
        log_of(*final(b)) == placed(funcs, steps@, ids@).0,
        complete(site(log_of(*final(b)))),
        is_begun(site(log_of(*final(b)))),
        frame(made(log_of(*final(b)))) == frame(steps@),
        imports_known(log_of(*final(b)), declared_in(*old(m))),
{
    let ghost arity = signature_in(*b).0;
    let ghost declared = declared_in(*m);
    let mut ids: Vec<Option<usize>> = Vec::new();
    let mut args: Vec<usize> = Vec::new();
    let mut i: usize = 0;
    proof {
        assert(steps.len() == steps@.len());
        nothing_done(steps@, funcs, arity);
        assert(ids@ =~= Seq::empty());
        assert(args@ =~= Seq::empty());
        assert(steps@.take(0) =~= Seq::empty());
        assert(made(log_of(*b)) =~= Seq::empty());
        reveal(imports_known);
    }
    while i < steps.len()
        invariant
            i <= steps@.len(),
            ids@.len() == i,
            *m == *old(m),
            declared == declared_in(*old(m)),
            same_results(declared, funcs),
            frame(made(log_of(*b))) == frame(steps@.take(i as int)),
            imports_known(log_of(*b), declared),
            signature_in(*b) == signature_in(*old(b)),
            arity == signature_in(*b).0,
            fits(steps@, funcs, arity),
            (log_of(*b), args@) == placed(funcs, steps@.take(i as int), ids@),
            follows_along(steps@, funcs, arity, ids@, log_of(*b), args@),
        decreases steps@.len() - i,
    {
        let s = steps[i];
        let ghost log = log_of(*b);
        let ghost past = ids@;
        let ghost given_args = args@;
        proof {
            assert(steps@.take(i as int + 1).drop_last() =~= steps@.take(i as int));
            step_ready(steps@, funcs, arity, past, log, given_args);
        }
        match s {
            Step::Arg(x) => {
                args.push(number_of(&ids, x));
                ids.push(None);
                proof {
                    arg_done(steps@, funcs, arity, past, log, given_args, x);
                }
            },
            _ => {
                let t = renumber(s, &ids);
                let n = make(m, b, t, &args);
                ids.push(n);
                args = Vec::new();
                proof {
                    let e = Entry {
                        step: t,
                        args: given_args,
                        result: n,
                        results: match s {
                            Step::Import(f) => funcs[f as int].results,
                            _ => 0,
                        },
                    };
                    assert(log_of(*b) == log.push(e));
                    assert(made(log.push(e)).drop_last() =~= made(log));
                    lemma_import_known(log, e, declared);
                    assert(kind(t) == kind(s));
                    assert(well_made(steps@, funcs, i as int, log, e));
                    step_done(steps@, funcs, arity, past, log, given_args, e);
                    assert(args@ =~= Seq::empty());
                }
            },
        }
        proof {
            assert(ids@.take(i as int) =~= past);
            assert(past.take(i as int) =~= past);
            lemma_placed_past(funcs, steps@.take(i as int), past, ids@);
        }
        i = i + 1;
    }
    proof {
        assert(steps@.take(i as int) =~= steps@);
        all_done(steps@, funcs, arity, ids@, log_of(*b), args@);
    }
    ids
}

/// The signature of a function that Cranelift compiles: how many parameters
/// and results it has.
pub uninterp spec fn signature_of(c: cranelift_codegen::Context) -> (nat, nat);

/// The steps that a function that Cranelift compiles was built by.
pub uninterp spec fn steps_of(c: cranelift_codegen::Context) -> Seq<Entry>;

/// [`cranelift_codegen::ir::Function::with_name_signature`]: a new function
/// whose parameters and results are words, and which was built by no step.
#[verifier::external_body]
fn new_function(m: &ObjectModule, params: usize, results: usize) -> (r: cranelift_codegen::Context)
    ensures
        signature_of(r) == (params as nat, results as nat),
        steps_of(r) == Seq::<Entry>::empty(),
{
    let mut sig = cranelift_module::Module::make_signature(m);
    sig.params = vec![AbiParam::new(types::I64); params];
    sig.returns = vec![AbiParam::new(types::I64); results];
    let f = cranelift_codegen::ir::Function::with_name_signature(UserFuncName::default(), sig);
    cranelift_codegen::Context::for_function(f)
}

/// Whether nothing is left of an earlier function in what a builder reuses.
pub uninterp spec fn is_idle(c: FunctionBuilderContext) -> bool;

/// [`cranelift_frontend::FunctionBuilderContext::new`]: nothing is left of an
/// earlier function.
#[verifier::external_body]
fn new_builder_context() -> (r: FunctionBuilderContext)
    ensures
        is_idle(r),
{
    FunctionBuilderContext::new()
}

/// [`cranelift_frontend::FunctionBuilder::new`]: a builder that has made no step.
/// The function is one that no step was made in either.
#[verifier::external_body]
fn new_builder<'a>(
    f: &'a mut cranelift_codegen::Context,
    c: &'a mut FunctionBuilderContext,
) -> (r: FunctionBuilder<'a>)
    requires
        steps_of(*old(f)) == Seq::<Entry>::empty(),
        is_idle(*old(c)),
    ensures
        log_of(r) == Seq::<Entry>::empty(),
        signature_in(r) == signature_of(*old(f)),
{
    FunctionBuilder::new(&mut f.func, c)
}

/// [`cranelift_frontend::FunctionBuilder::finalize`]: the function is built, by
/// the steps that the builder has made. The function is copied out of the
/// builder before: `finalize` changes it only where values are marked for stack
/// maps, and no step marks one.
#[verifier::external_body]
fn finish_builder(b: FunctionBuilder<'_>) -> (r: cranelift_codegen::Context)
    requires
        complete(site(log_of(b))),
    ensures
        steps_of(r) == log_of(b),
        signature_of(r) == signature_in(b),
{
    let f = b.func.clone();
    b.finalize();
    cranelift_codegen::Context::for_function(f)
}

/// The object file after a function was compiled into it, or what Cranelift says
/// against that.
pub uninterp spec fn defining(
    m: ObjectModule,
    func: usize,
    f: cranelift_codegen::Context,
) -> Result<ObjectModule, Seq<char>>;

/// Whether a function is one that can be handed to the compiler: an instruction
/// stands in a block, every block that was started is full and sealed, the slots
/// have room, and what it imports is declared in the object file.
pub open spec fn is_ready(log: Seq<Entry>, declared: Seq<Declared>) -> bool {
    &&& is_begun(site(log))
    &&& complete(site(log))
    &&& roomy(made(log))
    &&& imports_known(log, declared)
}

/// [`cranelift_module::Module::define_function`]: compiles a function and puts
/// it into the object file. What comes of it depends on the object file, the
/// place and the function. It succeeds only for a function that is exported and
/// not defined yet, which then has the body that was compiled; the object file
/// is otherwise as it was.
#[verifier::external_body]
fn define_function(m: &mut ObjectModule, func: usize, f: &mut cranelift_codegen::Context) -> (r:
    Result<(), cranelift_module::ModuleError>)
    requires
        func < declared_in(*old(m)).len(),
        signature_of(*old(f)) == (
            declared_in(*old(m))[func as int].params,
            declared_in(*old(m))[func as int].results,
        ),
        is_ready(steps_of(*old(f)), declared_in(*old(m))),
    ensures
        match r {
            Ok(_) => defining(*old(m), func, *old(f)) == Ok::<ObjectModule, Seq<char>>(*final(m)),
            Err(e) => defining(*old(m), func, *old(f)) == Err::<ObjectModule, Seq<char>>(
                said_of(e),
            ),
        },
        r is Ok ==> declared_in(*old(m))[func as int].export && declared_in(
            *old(m),
        )[func as int].body is None,
        r is Ok ==> declared_in(*final(m)) == declared_in(*old(m)).update(
            func as int,
            as_defined(declared_in(*old(m))[func as int], steps_of(*old(f))),
        ),
        r is Ok ==> made_as(*final(m)) == made_as(*old(m)),
{
    cranelift_module::Module::define_function(m, FuncId::new(func), f)
}

/// The same function, defined.
pub open spec fn as_defined(d: Declared, body: Seq<Entry>) -> Declared {
    Declared { body: Some(body), ..d }
}

/// The same function, exported if it was or if `export` says so.
pub open spec fn as_exported(d: Declared, export: bool) -> Declared {
    Declared { export: d.export || export, ..d }
}

/// The place of a symbol among declared functions.
pub open spec fn symbol_place(s: Seq<Declared>, symbol: Seq<char>) -> Option<int>
    decreases s.len(),
{
    if s.len() == 0 {
        None
    } else if s.last().symbol == symbol {
        Some(s.len() - 1)
    } else {
        symbol_place(s.drop_last(), symbol)
    }
}

/// [`cranelift_module::Module::declare_function`] for a function on words. The
/// result is its place. A symbol that is declared with the same signature keeps
/// its place; with another signature, or with a zero in the symbol, the
/// declaration fails. If it was not to be exported, what is declared is then as
/// it was.
#[verifier::external_body]
fn declare_function(
    m: &mut ObjectModule,
    symbol: &str,
    params: usize,
    results: usize,
    export: bool,
) -> (r: Result<usize, cranelift_module::ModuleError>)
    ensures
        made_as(*final(m)) == made_as(*old(m)),
        r is Err && !export ==> declared_in(*final(m)) == declared_in(*old(m)),
        symbol@.contains('\0') ==> r is Err,
        !symbol@.contains('\0') ==> match symbol_place(declared_in(*old(m)), symbol@) {
            Some(i) => {
                let d = declared_in(*old(m))[i];
                if d.params == params && d.results == results {
                    &&& r matches Ok(n) && n == i
                    &&& declared_in(*final(m)) == declared_in(*old(m)).update(
                        i,
                        as_exported(d, export),
                    )
                } else {
                    r is Err
                }
            },
            None => {
                &&& r matches Ok(n) && n == declared_in(*old(m)).len()
                &&& declared_in(*final(m)) == declared_in(*old(m)).push(
                    (Declared {
                        symbol: symbol@,
                        params: params as nat,
                        results: results as nat,
                        export,
                        body: None,
                    }),
                )
            },
        },
{
    let mut sig = cranelift_module::Module::make_signature(m);
    sig.params = vec![AbiParam::new(types::I64); params];
    sig.returns = vec![AbiParam::new(types::I64); results];
    let linkage = if export { Linkage::Export } else { Linkage::Import };
    cranelift_module::Module::declare_function(m, symbol, linkage, &sig).map(|id| id.index())
}

/// What an error of Cranelift says.
pub uninterp spec fn said_of(e: cranelift_module::ModuleError) -> Seq<char>;

/// The `Display` of [`cranelift_module::ModuleError`]: the words of the error.
#[verifier::external_body]
fn error_text(e: &cranelift_module::ModuleError) -> (r: String)
    ensures
        r@ == said_of(*e),
{
    format!("{}", e)
}

/// Whether a text is one that an error of Cranelift says.
pub open spec fn is_said(t: Seq<char>) -> bool {
    exists|e: cranelift_module::ModuleError| t == #[trigger] said_of(e)
}

/// Whether a function was built by steps of a plan.
pub open spec fn is_built(
    f: cranelift_codegen::Context,
    funcs: Seq<Decl>,
    func: usize,
    steps: Seq<Step>,
) -> bool {
    &&& signature_of(f) == (funcs[func as int].params, funcs[func as int].results)
    &&& exists|ids: Seq<Option<usize>>|
        ids.len() == steps.len() && steps_of(f) == #[trigger] placed(funcs, steps, ids).0
}

/// Builds a function and defines it. `Err` with Cranelift's words if it is
/// refused. The function that was compiled comes back.
pub(crate) fn build_function(
    m: &mut ObjectModule,
    func: usize,
    params: usize,
    results: usize,
    steps: &Vec<Step>,
    Ghost(funcs): Ghost<Seq<Decl>>,
) -> (r: (Result<(), String>, Ghost<cranelift_codegen::Context>))
    requires
        func < declared_in(*old(m)).len(),
        declared_in(*old(m))[func as int].params == params,
        declared_in(*old(m))[func as int].results == results,
        funcs[func as int].params == params,
        same_results(declared_in(*old(m)), funcs),
        fits(steps@, funcs, params as nat),
        roomy(steps@),
    ensures
        is_built(r.1@, funcs, func, steps@),
        match r.0 {
            Ok(_) => {
                &&& defining(*old(m), func, r.1@) == Ok::<ObjectModule, Seq<char>>(*final(m))
                &&& made_as(*final(m)) == made_as(*old(m))
                &&& declared_in(*old(m))[func as int].body is None
                &&& declared_in(*final(m)) == declared_in(*old(m)).update(
                    func as int,
                    as_defined(declared_in(*old(m))[func as int], steps_of(r.1@)),
                )
            },
            Err(t) => defining(*old(m), func, r.1@) == Err::<ObjectModule, Seq<char>>(t@),
        },
{
    let mut context = new_builder_context();
    let mut f = new_function(m, params, results);
    let mut b = new_builder(&mut f, &mut context);
    let ids = make_all(m, &mut b, steps, Ghost(funcs));
    let mut built = finish_builder(b);
    let ghost whole = built;
    assert(steps_of(built) == placed(funcs, steps@, ids@).0);
    match define_function(m, func, &mut built) {
        Ok(_) => (Ok(()), Ghost(whole)),
        Err(e) => (Err(error_text(&e)), Ghost(whole)),
    }
}

/// Declares a function. `Err` with Cranelift's words if it fails.
pub(crate) fn declare(m: &mut ObjectModule, symbol: &str, params: usize, results: usize, export: bool) -> (r:
    Result<usize, String>)
    ensures
        made_as(*final(m)) == made_as(*old(m)),
        r matches Err(t) ==> is_said(t@),
        r is Err && !export ==> declared_in(*final(m)) == declared_in(*old(m)),
        symbol@.contains('\0') ==> r is Err,
        !symbol@.contains('\0') ==> match symbol_place(declared_in(*old(m)), symbol@) {
            Some(i) => {
                let d = declared_in(*old(m))[i];
                if d.params == params && d.results == results {
                    &&& r matches Ok(n) && n == i
                    &&& declared_in(*final(m)) == declared_in(*old(m)).update(
                        i,
                        as_exported(d, export),
                    )
                } else {
                    r is Err
                }
            },
            None => {
                &&& r matches Ok(n) && n == declared_in(*old(m)).len()
                &&& declared_in(*final(m)) == declared_in(*old(m)).push(
                    (Declared {
                        symbol: symbol@,
                        params: params as nat,
                        results: results as nat,
                        export,
                        body: None,
                    }),
                )
            },
        },
{
    match declare_function(m, symbol, params, results, export) {
        Ok(i) => Ok(i),
        Err(e) => Err(error_text(&e)),
    }
}

/// Settings of Cranelift.
#[verifier::external_type_specification]
#[verifier::external_body]
pub struct ExFlags(cranelift_codegen::settings::Flags);

/// What an object file is made from.
#[verifier::external_type_specification]
#[verifier::external_body]
pub struct ExObjectBuilder(cranelift_object::ObjectBuilder);

/// The settings that were made.
pub uninterp spec fn set_in(f: cranelift_codegen::settings::Flags) -> Seq<(Seq<char>, Seq<char>)>;

/// [`cranelift_codegen::settings::Configurable::set`] on Cranelift's default
/// settings: one of them, the level of optimization, gets a value.
#[verifier::external_body]
fn settings_with(name: &str, value: &str) -> (r: cranelift_codegen::settings::Flags)
    requires
        name@ == "opt_level"@,
        value@ == "none"@ || value@ == "speed"@ || value@ == "speed_and_size"@,
    ensures
        set_in(r) == seq![(name@, value@)],
{
    let mut b = cranelift_codegen::settings::builder();
    cranelift_codegen::settings::Configurable::set(&mut b, name, value).unwrap();
    cranelift_codegen::settings::Flags::new(b)
}

/// What an object file is made as: its name, and the settings.
pub struct Making {
    pub name: Seq<char>,
    pub settings: Seq<(Seq<char>, Seq<char>)>,
}

/// What is made into an object file.
pub uninterp spec fn to_make(b: cranelift_object::ObjectBuilder) -> Making;

/// What an object file was made as.
pub uninterp spec fn made_as(m: ObjectModule) -> Making;

/// [`cranelift_object::ObjectBuilder::new`] for the machine that
/// [`cranelift_native::builder`] finds. The outer error says why there is no
/// such machine, or, with `true`, why it cannot be used; the inner one why
/// there can be no object file for it.
#[verifier::external_body]
fn object_builder(flags: cranelift_codegen::settings::Flags, name: &str) -> (r: Result<
    Result<cranelift_object::ObjectBuilder, cranelift_module::ModuleError>,
    (bool, String),
>)
    ensures
        r matches Ok(Ok(b)) ==> to_make(b) == (Making { name: name@, settings: set_in(flags) }),
{
    let host = cranelift_native::builder().map_err(|e| (false, e.to_owned()))?;
    let target = host.finish(flags).map_err(|e| (true, format!("{}", e)))?;
    let calls = cranelift_module::default_libcall_names();
    Ok(cranelift_object::ObjectBuilder::new(target, name.to_owned(), calls))
}

/// [`cranelift_object::ObjectModule::new`]: an object file without functions.
#[verifier::external_body]
fn object_module(b: cranelift_object::ObjectBuilder) -> (r: ObjectModule)
    ensures
        declared_in(r) == Seq::<Declared>::empty(),
        made_as(r) == to_make(b),
{
    ObjectModule::new(b)
}

/// The bytes of an object file, or why they cannot be written.
pub uninterp spec fn emission(m: ObjectModule) -> Result<Seq<u8>, Seq<char>>;

/// [`cranelift_object::ObjectModule::finish`] and
/// [`cranelift_object::ObjectProduct::emit`]: the bytes of the object file, or
/// why they cannot be written. Both depend on the object file alone.
#[verifier::external_body]
fn object_bytes(m: ObjectModule) -> (r: Result<Vec<u8>, String>)
    requires
        all_defined(declared_in(m)),
    ensures
        match r {
            Ok(bytes) => emission(m) == Ok::<Seq<u8>, Seq<char>>(bytes@),
            Err(t) => emission(m) == Err::<Seq<u8>, Seq<char>>(t@),
        },
{
    m.finish().emit().map_err(|e| format!("{}", e))
}

/// Whether every function that is exported is defined.
pub open spec fn all_defined(s: Seq<Declared>) -> bool {
    forall|i: int| 0 <= i < s.len() && (#[trigger] s[i]).export ==> s[i].body is Some
}

/// Whether an object file, or a text in place of one, is what this machine gives
/// for a making: a new object file, or why there can be none.
pub open spec fn is_given(r: Result<ObjectModule, Seq<char>>, making: Making) -> bool {
    match r {
        Ok(m) => declared_in(m) == Seq::<Declared>::empty() && made_as(m) == making,
        Err(t) => {
            ||| exists|words: Seq<char>| t == #[trigger] refusal(
                "failed to create native ISA builder: "@,
                words,
            )
            ||| exists|words: Seq<char>| t == #[trigger] refusal("failed to build ISA: "@, words)
            ||| exists|words: Seq<char>|
                t == #[trigger] refusal("ObjectBuilder error: "@, words) && is_said(words)
        },
    }
}

/// What is told of something that was refused.
pub open spec fn refusal(what: Seq<char>, words: Seq<char>) -> Seq<char> {
    what + words
}

/// How the object files of programs are made.
pub open spec fn program_making() -> Making {
    Making { name: "lux_native"@, settings: seq![("opt_level"@, "speed"@)] }
}

/// The view of an object file, or of why there is none.
pub open spec fn given_of(r: Result<ObjectModule, String>) -> Result<ObjectModule, Seq<char>> {
    match r {
        Ok(m) => Ok(m),
        Err(t) => Err(t@),
    }
}

/// An object file for this machine, or why there can be none.
pub(crate) fn host_object() -> (r: Result<ObjectModule, String>)
    ensures
        is_given(given_of(r), program_making()),
{
    match object_builder(settings_with("opt_level", "speed"), "lux_native") {
        Ok(Ok(b)) => Ok(object_module(b)),
        Ok(Err(e)) => {
            let words = error_text(&e);
            let mut t = "ObjectBuilder error: ".to_owned();
            t.append(words.as_str());
            assert(t@ == refusal("ObjectBuilder error: "@, words@));
            Err(t)
        },
        Err((found, e)) => {
            if found {
                let mut t = "failed to build ISA: ".to_owned();
                t.append(e.as_str());
                assert(t@ == refusal("failed to build ISA: "@, e@));
                Err(t)
            } else {
                let mut t = "failed to create native ISA builder: ".to_owned();
                t.append(e.as_str());
                assert(t@ == refusal("failed to create native ISA builder: "@, e@));
                Err(t)
            }
        },
    }
}

/// The bytes of an object file in which every exported function is defined.
pub(crate) fn emit_object(m: ObjectModule) -> (r: Result<Vec<u8>, String>)
    requires
        all_defined(declared_in(m)),
    ensures
        match r {
            Ok(bytes) => emission(m) == Ok::<Seq<u8>, Seq<char>>(bytes@),
            Err(t) => emission(m) is Err && t@ == refusal("object emit: "@, emission(m)->Err_0),
        },
{
    match object_bytes(m) {
        Ok(bytes) => Ok(bytes),
        Err(e) => {
            let mut t = "object emit: ".to_owned();
            t.append(e.as_str());
            Err(t)
        },
    }
}

} // verus!
