//! The code generator's and the session's dealings with Cranelift: the
//! types that pass through, what the library takes a function builder and
//! a module to hold, and one function for each call.
//!
//! Nothing in this file is proved. Each function's contract states what
//! the call does as Cranelift's sources show it; the contracts are what
//! the proofs elsewhere rest on.

use vstd::prelude::*;
use cranelift::codegen::isa;
use cranelift::codegen::settings;
use cranelift::codegen::Context;
use cranelift::prelude::{
    types, AbiParam, Block, EntityRef, FunctionBuilder, FunctionBuilderContext, InstBuilder, Type,
    Value, Variable,
};
use cranelift_jit::{JITBuilder, JITModule};
use cranelift_module::{default_libcall_names, FuncId, Linkage, Module, ModuleError};
use crate::calc::ir::{Built, Declaration, Inst, Loaded, Sig, Stage};

verus! {

#[verifier::external_type_specification]
#[verifier::external_body]
pub struct ExFunctionBuilder<'a>(FunctionBuilder<'a>);

#[verifier::external_type_specification]
#[verifier::external_body]
pub struct ExFunctionBuilderContext(FunctionBuilderContext);

#[verifier::external_type_specification]
#[verifier::external_body]
pub struct ExContext(Context);

#[verifier::external_type_specification]
#[verifier::external_body]
pub struct ExValue(Value);

#[verifier::external_type_specification]
#[verifier::external_body]
pub struct ExType(Type);

#[verifier::external_type_specification]
#[verifier::external_body]
pub struct ExBlock(Block);

#[verifier::external_type_specification]
#[verifier::external_body]
pub struct ExJITBuilder(JITBuilder);

#[verifier::external_type_specification]
#[verifier::external_body]
pub struct ExJITModule(JITModule);

#[verifier::external_type_specification]
#[verifier::external_body]
pub struct ExFuncId(FuncId);

#[verifier::external_type_specification]
#[verifier::external_body]
pub struct ExModuleError(ModuleError);

#[verifier::external_type_specification]
#[verifier::external_body]
pub struct ExIsaBuilder(isa::Builder);

#[verifier::external_type_specification]
#[verifier::external_body]
pub struct ExFlags(settings::Flags);

#[verifier::external_type_specification]
pub struct ExLinkage(Linkage);

/// What the function builder `b` holds: the instructions, values, slots
/// and blocks of the function under construction and the stage that the
/// builder is at.
pub uninterp spec fn built(b: FunctionBuilder) -> Built;

/// Whether the builder context `c` holds nothing: no block, no slot and no
/// definition, as when it is new or after a builder has finished with it.
pub uninterp spec fn is_clear(c: FunctionBuilderContext) -> bool;

/// Whether the function of `ctx` is empty: it holds no block, no value and
/// no instruction.
pub uninterp spec fn is_blank(ctx: Context) -> bool;

/// Whether the function of `ctx` has an entry block: a first block in its
/// layout.
pub uninterp spec fn entered(ctx: Context) -> bool;

/// The text that the `Display` of the function of `ctx` writes.
pub uninterp spec fn listing_of(ctx: Context) -> Seq<char>;

/// The integer type that is as wide as a pointer on the target of `m`.
pub uninterp spec fn word_of(m: JITModule) -> Type;

/// Whether `ty` is `types::I64`, the type of sixty-four-bit integers.
pub uninterp spec fn is_i64(ty: Type) -> bool;

/// The value types of the parameters and of the returns of the signature
/// of the function of `ctx`.
pub uninterp spec fn signature_of(ctx: Context) -> Sig;

/// Whether the shared settings `flags` ask for position-independent code.
pub uninterp spec fn flags_pic(flags: settings::Flags) -> bool;

/// Whether the target of `builder` is set to position-independent code.
pub uninterp spec fn builder_pic(builder: JITBuilder) -> bool;

/// What the module `m` holds: the functions that it has declared, those
/// that it has defined and those that are ready to run.
pub uninterp spec fn loaded(m: JITModule) -> Loaded;

/// The text that `ModuleError`'s `Display` writes for `e`.
pub uninterp spec fn error_text(e: ModuleError) -> Seq<char>;

/// `FunctionBuilderContext::new`: a context that holds nothing.
#[verifier::external_body]
pub(crate) fn new_builder_context() -> (c: FunctionBuilderContext)
    ensures
        is_clear(c),
{
    FunctionBuilderContext::new()
}

/// `FunctionBuilder::new` on the function of `ctx`. With an empty function
/// and a clear context the builder stands at no block, and there is no
/// instruction, no value, no slot and no block yet. Nothing that a builder
/// does changes the function's signature.
#[verifier::external_body]
pub(crate) fn new_builder<'a>(
    ctx: &'a mut Context,
    c: &'a mut FunctionBuilderContext,
) -> (builder: FunctionBuilder<'a>)
    requires
        is_blank(*old(ctx)),
        is_clear(*old(c)),
    ensures
        built(builder) == (Built {
            code: Seq::empty(),
            values: Map::empty(),
            declared: Map::empty(),
            bound: Map::empty(),
            blocks: Set::empty(),
            stage: Stage::Idle,
        }),
        signature_of(*final(ctx)) == signature_of(*old(ctx)),
{
    FunctionBuilder::new(&mut ctx.func, c)
}

/// `FunctionBuilder::create_block`: a new block, which joins those that
/// are waiting. Nothing else changes.
#[verifier::external_body]
pub(crate) fn create_block(b: &mut FunctionBuilder) -> (block: Block)
    ensures
        built(*final(b)) == (Built {
            blocks: built(*old(b)).blocks.insert(block),
            ..built(*old(b))
        }),
{
    b.create_block()
}

/// `FunctionBuilder::append_block_params_for_function_params` on a block
/// that is waiting: the block gets one parameter for each parameter of the
/// function's signature. Values may be added; nothing else changes.
#[verifier::external_body]
pub(crate) fn append_function_params(b: &mut FunctionBuilder, block: Block)
    requires
        built(*old(b)).blocks.contains(block),
    ensures
        built(*final(b)) == (Built { values: built(*final(b)).values, ..built(*old(b)) }),
        built(*old(b)).values.submap_of(built(*final(b)).values),
{
    b.append_block_params_for_function_params(block)
}

/// `FunctionBuilder::switch_to_block`, from no block to one that is
/// waiting: the builder stands at that block, which holds no instruction
/// and at which no slot has been written.
#[verifier::external_body]
pub(crate) fn switch_to_block(b: &mut FunctionBuilder, block: Block)
    requires
        built(*old(b)).stage == Stage::Idle,
        built(*old(b)).blocks.contains(block),
    ensures
        built(*final(b)) == (Built {
            stage: Stage::Entered(block),
            blocks: built(*old(b)).blocks.remove(block),
            code: Seq::<Inst>::empty(),
            bound: Map::<int, Value>::empty(),
            ..built(*old(b))
        }),
{
    b.switch_to_block(block)
}

/// `FunctionBuilder::seal_block` on the block just entered: the block is
/// sealed. Nothing else changes, as nothing was used at it before.
#[verifier::external_body]
pub(crate) fn seal_block(b: &mut FunctionBuilder, block: Block)
    requires
        built(*old(b)).stage == Stage::Entered(block),
    ensures
        built(*final(b)) == (Built { stage: Stage::Open, ..built(*old(b)) }),
{
    b.seal_block(block)
}

/// `iconst` with the sixty-four-bit integer type: appends the instruction
/// to the block. Its result is a new value of that type.
#[verifier::external_body]
pub(crate) fn emit_const(b: &mut FunctionBuilder, ty: Type, value: i64) -> (dst: Value)
    requires
        built(*old(b)).stage == Stage::Open,
        is_i64(ty),
    ensures
        !built(*old(b)).values.contains_key(dst),
        built(*final(b)) == (Built {
            code: built(*old(b)).code.push(Inst::Const { dst, value }),
            values: built(*old(b)).values.insert(dst, ty),
            ..built(*old(b))
        }),
{
    b.ins().iconst(ty, value)
}

/// `ineg`: appends the instruction to the block. Its result is a new value
/// of the type of `arg`.
#[verifier::external_body]
pub(crate) fn emit_neg(b: &mut FunctionBuilder, arg: Value) -> (dst: Value)
    requires
        built(*old(b)).stage == Stage::Open,
        built(*old(b)).values.contains_key(arg),
    ensures
        !built(*old(b)).values.contains_key(dst),
        built(*final(b)) == (Built {
            code: built(*old(b)).code.push(Inst::Neg { dst, arg }),
            values: built(*old(b)).values.insert(dst, built(*old(b)).values[arg]),
            ..built(*old(b))
        }),
{
    b.ins().ineg(arg)
}

/// `iadd`: appends the instruction to the block. Its result is a new value
/// of the type of `lhs`.
#[verifier::external_body]
pub(crate) fn emit_add(b: &mut FunctionBuilder, lhs: Value, rhs: Value) -> (dst: Value)
    requires
        built(*old(b)).stage == Stage::Open,
        built(*old(b)).values.contains_key(lhs),
        built(*old(b)).values.contains_key(rhs),
    ensures
        !built(*old(b)).values.contains_key(dst),
        built(*final(b)) == (Built {
            code: built(*old(b)).code.push(Inst::Add { dst, lhs, rhs }),
            values: built(*old(b)).values.insert(dst, built(*old(b)).values[lhs]),
            ..built(*old(b))
        }),
{
    b.ins().iadd(lhs, rhs)
}

/// `isub`: appends the instruction to the block. Its result is a new value
/// of the type of `lhs`.
#[verifier::external_body]
pub(crate) fn emit_sub(b: &mut FunctionBuilder, lhs: Value, rhs: Value) -> (dst: Value)
    requires
        built(*old(b)).stage == Stage::Open,
        built(*old(b)).values.contains_key(lhs),
        built(*old(b)).values.contains_key(rhs),
    ensures
        !built(*old(b)).values.contains_key(dst),
        built(*final(b)) == (Built {
            code: built(*old(b)).code.push(Inst::Sub { dst, lhs, rhs }),
            values: built(*old(b)).values.insert(dst, built(*old(b)).values[lhs]),
            ..built(*old(b))
        }),
{
    b.ins().isub(lhs, rhs)
}

/// `imul`: appends the instruction to the block. Its result is a new value
/// of the type of `lhs`.
#[verifier::external_body]
pub(crate) fn emit_mul(b: &mut FunctionBuilder, lhs: Value, rhs: Value) -> (dst: Value)
    requires
        built(*old(b)).stage == Stage::Open,
        built(*old(b)).values.contains_key(lhs),
        built(*old(b)).values.contains_key(rhs),
    ensures
        !built(*old(b)).values.contains_key(dst),
        built(*final(b)) == (Built {
            code: built(*old(b)).code.push(Inst::Mul { dst, lhs, rhs }),
            values: built(*old(b)).values.insert(dst, built(*old(b)).values[lhs]),
            ..built(*old(b))
        }),
{
    b.ins().imul(lhs, rhs)
}

/// `return_` with one value: appends the instruction, which ends the
/// block.
#[verifier::external_body]
pub(crate) fn emit_return(b: &mut FunctionBuilder, arg: Value)
    requires
        built(*old(b)).stage == Stage::Open,
        built(*old(b)).values.contains_key(arg),
    ensures
        built(*final(b)) == (Built {
            code: built(*old(b)).code.push(Inst::Return { arg }),
            stage: Stage::Closed,
            ..built(*old(b))
        }),
{
    b.ins().return_(&[arg]);
}

/// `FunctionBuilder::declare_var` on the variable with the number `slot`,
/// which has not been declared before, with the sixty-four-bit integer
/// type.
#[verifier::external_body]
pub(crate) fn declare_slot(b: &mut FunctionBuilder, slot: usize, ty: Type)
    requires
        slot < u32::MAX,
        is_i64(ty),
        !built(*old(b)).declared.contains_key(slot as int),
    ensures
        built(*final(b)) == (Built {
            declared: built(*old(b)).declared.insert(slot as int, ty),
            ..built(*old(b))
        }),
{
    b.declare_var(Variable::new(slot), ty)
}

/// `FunctionBuilder::def_var`: writes `value` to the declared variable
/// with the number `slot`, whose type is that of `value`.
#[verifier::external_body]
pub(crate) fn write_slot(b: &mut FunctionBuilder, slot: usize, value: Value)
    requires
        slot < u32::MAX,
        built(*old(b)).stage == Stage::Open,
        built(*old(b)).values.contains_key(value),
        built(*old(b)).declared.contains_key(slot as int),
        built(*old(b)).declared[slot as int] == built(*old(b)).values[value],
    ensures
        built(*final(b)) == (Built {
            bound: built(*old(b)).bound.insert(slot as int, value),
            ..built(*old(b))
        }),
{
    b.def_var(Variable::new(slot), value)
}

/// `FunctionBuilder::use_var` on a declared variable that has been written
/// at this block: the value written last. Nothing changes.
#[verifier::external_body]
pub(crate) fn read_slot(b: &mut FunctionBuilder, slot: usize) -> (value: Value)
    requires
        slot < u32::MAX,
        built(*old(b)).stage == Stage::Open,
        built(*old(b)).declared.contains_key(slot as int),
        built(*old(b)).bound.contains_key(slot as int),
    ensures
        value == built(*old(b)).bound[slot as int],
        built(*final(b)) == built(*old(b)),
{
    b.use_var(Variable::new(slot))
}

/// `FunctionBuilder::finalize`, once the block has its terminator.
#[verifier::external_body]
pub(crate) fn finish_function(b: &mut FunctionBuilder)
    requires
        built(*old(b)).stage == Stage::Closed,
{
    b.finalize()
}

/// Whether `ty` is `types::I64`.
#[verifier::external_body]
pub(crate) fn is_word(ty: Type) -> (r: bool)
    ensures
        r == is_i64(ty),
{
    ty == types::I64
}

/// `cranelift_native::builder`: a builder for the machine that the program
/// runs on, or the reason why there is none.
#[verifier::external_body]
pub(crate) fn native_isa_builder() -> Result<isa::Builder, &'static str> {
    cranelift_native::builder()
}

/// `settings::Flags::new` on `settings::builder()`: the shared settings at
/// their defaults, among which position-independent code is off.
/// `JITBuilder::new` would turn it on, and a module for such code writes a
/// jump table that exists for one kind of machine only.
#[verifier::external_body]
pub(crate) fn default_flags() -> (flags: settings::Flags)
    ensures
        !flags_pic(flags),
{
    settings::Flags::new(settings::builder())
}

/// `isa::Builder::finish` with `flags`, and `JITBuilder::with_isa` on the
/// target that it gives, with `default_libcall_names()`. The target is a
/// trait object, which is why the two calls stand together. A failure of
/// the first call is handed on as `ModuleError::from` makes it.
#[verifier::external_body]
pub(crate) fn new_jit_builder(target: isa::Builder, flags: settings::Flags) -> (r: Result<JITBuilder, ModuleError>)
    ensures
        r matches Ok(builder) ==> builder_pic(builder) == flags_pic(flags),
{
    match target.finish(flags) {
        Ok(isa) => Ok(JITBuilder::with_isa(isa, default_libcall_names())),
        Err(e) => Err(ModuleError::from(e)),
    }
}

/// `JITModule::new` on a builder without position-independent code: a
/// module that holds nothing.
#[verifier::external_body]
pub(crate) fn new_jit_module(builder: JITBuilder) -> (m: JITModule)
    requires
        !builder_pic(builder),
    ensures
        loaded(m) == (Loaded {
            pic: false,
            declared: Map::empty(),
            defined: Map::empty(),
            finalized: Set::empty(),
        }),
{
    JITModule::new(builder)
}

/// `Module::make_context`: a context with an empty function that has the
/// machine's calling convention, no parameter and no return.
#[verifier::external_body]
pub(crate) fn make_context(module: &JITModule) -> (ctx: Context)
    ensures
        is_blank(ctx),
        signature_of(ctx) == (Sig { params: Seq::empty(), returns: Seq::empty() }),
{
    module.make_context()
}

/// `Module::target_config().pointer_type()`: the integer type that is as
/// wide as a pointer on the machine.
#[verifier::external_body]
pub(crate) fn pointer_type(module: &JITModule) -> (ty: Type)
    ensures
        ty == word_of(*module),
{
    module.target_config().pointer_type()
}

/// Adds a return value of type `ty`, made by `AbiParam::new`, to the
/// signature of the function of `ctx`. The function's body is not touched.
#[verifier::external_body]
pub(crate) fn push_return(ctx: &mut Context, ty: Type)
    ensures
        is_blank(*final(ctx)) == is_blank(*old(ctx)),
        signature_of(*final(ctx)) == (Sig {
            returns: signature_of(*old(ctx)).returns.push(ty),
            ..signature_of(*old(ctx))
        }),
{
    ctx.func.signature.returns.push(AbiParam::new(ty))
}

/// The function of `ctx`, written out by its `Display`.
#[verifier::external_body]
pub(crate) fn function_text(ctx: &Context) -> (r: String)
    ensures
        r@ == listing_of(*ctx),
{
    ctx.func.display().to_string()
}

/// Whether the layout of the function of `ctx` has an entry block, by
/// `Layout::entry_block`.
#[verifier::external_body]
pub(crate) fn has_entry(ctx: &Context) -> (r: bool)
    ensures
        r == entered(*ctx),
{
    ctx.func.layout.entry_block().is_some()
}

/// `Module::declare_function` with the signature of the function of
/// `ctx`, on a module without position-independent code in which no
/// function has the name yet. Where it succeeds, the function that it
/// returns is new and declared as asked; where it fails, nothing changes.
#[verifier::external_body]
pub(crate) fn declare_function(module: &mut JITModule, name: &str, linkage: Linkage, ctx: &Context) -> (r: Result<FuncId, ModuleError>)
    requires
        !loaded(*old(module)).pic,
        forall|id: FuncId| #[trigger]
            loaded(*old(module)).declared.contains_key(id) ==> loaded(*old(module)).declared[id].name
                != name@,
    ensures
        match r {
            Ok(id) => !loaded(*old(module)).declared.contains_key(id) && loaded(*final(module)) == (
            Loaded {
                declared: loaded(*old(module)).declared.insert(
                    id,
                    Declaration { name: name@, linkage, sig: signature_of(*ctx) },
                ),
                ..loaded(*old(module))
            }),
            Err(_) => loaded(*final(module)) == loaded(*old(module)),
        },
{
    module.declare_function(name, linkage, &ctx.func.signature)
}

/// `Module::define_function` on a function that the module has declared,
/// with a function in `ctx` that has an entry block: compiles that
/// function as the body. Where it succeeds, the function is defined from
/// what `ctx` held; where it fails, the module is as before.
#[verifier::external_body]
pub(crate) fn define_function(module: &mut JITModule, id: FuncId, ctx: &mut Context) -> (r: Result<(), ModuleError>)
    requires
        loaded(*old(module)).declared.contains_key(id),
        entered(*old(ctx)),
    ensures
        match r {
            Ok(_) => loaded(*final(module)) == (Loaded {
                defined: loaded(*old(module)).defined.insert(id, listing_of(*old(ctx))),
                ..loaded(*old(module))
            }),
            Err(_) => loaded(*final(module)) == loaded(*old(module)),
        },
{
    module.define_function(id, ctx).map(|_| ())
}

/// `Module::clear_context`.
#[verifier::external_body]
pub(crate) fn clear_context(module: &JITModule, ctx: &mut Context) {
    module.clear_context(ctx)
}

/// `JITModule::finalize_definitions`: every function defined so far is
/// ready to run.
#[verifier::external_body]
pub(crate) fn finalize_definitions(module: &mut JITModule)
    ensures
        loaded(*final(module)) == (Loaded {
            finalized: loaded(*old(module)).defined.dom(),
            ..loaded(*old(module))
        }),
{
    module.finalize_definitions()
}

/// The text of `e`.
#[verifier::external_body]
pub(crate) fn describe(e: &ModuleError) -> (r: String)
    ensures
        r@ == error_text(*e),
{
    e.to_string()
}

} // verus!
