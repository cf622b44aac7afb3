//! The compiled path: the code generator, which lowers a tree into one
//! block of instructions, and the session that has the block compiled.

use vstd::prelude::*;
use cranelift::codegen::Context;
use cranelift::prelude::{FunctionBuilder, FunctionBuilderContext, Type, Value};
use cranelift_jit::JITModule;
use cranelift_module::{FuncId, Linkage, ModuleError};
use crate::calc::ast::{Expr, Term};
use crate::calc::backend::{
    append_function_params, built, clear_context, create_block, declare_function, declare_slot,
    default_flags, define_function, describe, emit_add, emit_const, emit_mul, emit_neg,
    emit_return, emit_sub, entered, error_text, finalize_definitions, finish_function,
    function_text, has_entry, listing_of, word_of, is_blank, is_clear, is_i64, is_word, loaded, make_context, native_isa_builder, new_builder,
    new_builder_context, new_jit_builder, new_jit_module, pointer_type, push_return, read_slot,
    seal_block, signature_of, switch_to_block, write_slot,
};
use crate::calc::error::{Error, ErrorView};
use crate::calc::interp::{eval_spec, source_value, value_of, Env};
use crate::calc::ir::{
    allot, lemma_ops_push, lemma_run_push, lowering, ops, returned, run, Arith, Built,
    Declaration, Inst, Loaded, Op, Sig, Stage, Table,
};
use crate::calc::parser::{parse, parse_spec};
use crate::calc::scope::Bindings;

verus! {

/// A machine that goes on from one that goes on from `a` goes on from `a`.
proof fn lemma_goes_on(a: Map<Value, i64>, b: Map<Value, i64>, c: Map<Value, i64>)
    requires
        a.submap_of(b),
        b.submap_of(c),
    ensures
        a.submap_of(c),
{
    assert forall|k: Value| #[trigger] a.dom().contains(k) implies c.dom().contains(k) && a[k]
        == c[k] by {
        assert(b.dom().contains(k));
    }
}

/// Appends the instruction of `op` on `lhs` and `rhs`.
fn emit_arith(b: &mut FunctionBuilder, op: Arith, lhs: Value, rhs: Value) -> (dst: Value)
    requires
        built(*old(b)).stage == Stage::Open,
        built(*old(b)).values.contains_key(lhs),
        built(*old(b)).values.contains_key(rhs),
    ensures
        !built(*old(b)).values.contains_key(dst),
        built(*final(b)) == (Built {
            code: built(*old(b)).code.push(op.inst(dst, lhs, rhs)),
            values: built(*old(b)).values.insert(dst, built(*old(b)).values[lhs]),
            ..built(*old(b))
        }),
{
    match op {
        Arith::Add => emit_add(b, lhs, rhs),
        Arith::Sub => emit_sub(b, lhs, rhs),
        Arith::Mul => emit_mul(b, lhs, rhs),
    }
}

/// The state of code generation for one function: the next free slot, the
/// integer type of the target, the slot of each name bound so far, and the
/// builder that takes the instructions.
pub struct FunctionTranslator<'a> {
    index: usize,
    word: Type,
    env: Bindings<usize>,
    builder: FunctionBuilder<'a>,
}

impl<'a> FunctionTranslator<'a> {
    /// The instructions emitted so far.
    pub closed spec fn code(&self) -> Seq<Inst> {
        built(self.builder).code
    }

    /// The number of slots handed out so far, which is the next free slot.
    /// Slots are numbered from zero upwards and a number is never used
    /// twice.
    pub closed spec fn slots(&self) -> nat {
        self.index as nat
    }

    /// The slot of each name bound so far.
    pub closed spec fn table(&self) -> Table {
        Map::new(|n: Seq<char>| self.env@.contains_key(n), |n: Seq<char>| self.env@[n] as nat)
    }

    /// What each name bound so far holds when the code emitted so far has
    /// run: the value last written to the name's slot.
    pub closed spec fn names(&self) -> Env {
        Map::new(
            |n: Seq<char>| self.env@.contains_key(n),
            |n: Seq<char>| run(built(self.builder).code)[built(self.builder).bound[self.env@[n] as int]],
        )
    }

    /// The builder stands at an open block; every value that the code
    /// defines, and every slot that is declared, has the integer type of
    /// the target, which is sixty-four bits wide; every slot declared has
    /// a number below the next free one, and every such number is that of
    /// a declared slot; every name's slot is declared and has been written
    /// with a value that the code defines.
    pub closed spec fn wf(&self) -> bool {
        let b = built(self.builder);
        &&& b.stage == Stage::Open
        &&& is_i64(self.word)
        &&& self.index <= u32::MAX
        &&& forall|v: Value| #[trigger]
            run(b.code).contains_key(v) ==> b.values.contains_key(v) && b.values[v] == self.word
        &&& forall|s: int| #[trigger] b.declared.contains_key(s) <==> 0 <= s < self.index
        &&& forall|s: int| #[trigger] b.declared.contains_key(s) ==> b.declared[s] == self.word
        &&& forall|n: Seq<char>| #[trigger]
            self.env@.contains_key(n) ==> {
                let s = self.env@[n] as int;
                &&& b.declared.contains_key(s)
                &&& b.bound.contains_key(s)
                &&& run(b.code).contains_key(b.bound[s])
            }
    }

    /// Whether `after` and `r` are what lowering the tree `t` makes of
    /// this state.
    ///
    /// The slot table and the next free slot are those that [`allot`]
    /// gives, and the result is a failure exactly where `allot` fails,
    /// with that name as the unbound name. The result is what the
    /// interpreter gives for `t` in the environment that the names stand
    /// for, and the names stand afterwards for the environment that the
    /// interpreter leaves. Instructions are only ever appended, on
    /// success those that [`lowering`] gives, and values defined before
    /// keep what they hold.
    pub open spec fn lowered(
        &self,
        after: &Self,
        t: Term,
        r: Result<Value, Error>,
    ) -> bool {
        let plan = allot(t, self.table(), self.slots());
        let meant = eval_spec(t, self.names());
        &&& after.wf()
        &&& after.table() == plan.table
        &&& after.slots() == plan.next
        &&& self.slots() <= after.slots() <= self.slots() + t.lets()
        &&& self.code().is_prefix_of(after.code())
        &&& run(self.code()).submap_of(run(after.code()))
        &&& after.names() == meant.1
        &&& match r {
            Ok(v) => {
                &&& plan.failed is None
                &&& run(after.code()).contains_key(v)
                &&& meant.0 == Ok::<i64, ErrorView>(run(after.code())[v])
                &&& after.slots() == self.slots() + t.lets()
                &&& ops(after.code()) == ops(self.code()) + lowering(t)
            },
            Err(f) => {
                &&& plan.failed is Some
                &&& f@ == ErrorView::UnboundName(plan.failed->0)
                &&& meant.0 == Err::<i64, ErrorView>(f@)
            },
        }
    }

    /// Lowers `e`: appends the instructions that compute it and returns
    /// the value that holds its result, or the first name met that is not
    /// bound.
    pub fn eval(&mut self, e: Expr) -> (r: Result<Value, Error>)
        requires
            old(self).wf(),
            old(self).slots() + e@.lets() <= u32::MAX,
        ensures
            old(self).lowered(final(self), e@, r),
        decreases e@.size(), 1int,
    {
        let ghost code0 = self.code();
        let ghost names0 = self.names();
        let ghost table0 = self.table();
        match e {
            Expr::Value(x) => {
                let v = emit_const(&mut self.builder, self.word, x);
                proof {
                    lemma_run_push(code0, Inst::Const { dst: v, value: x });
                    lemma_ops_push(code0, Inst::Const { dst: v, value: x });
                    assert(ops(code0).push(Op::Const(x)) =~= ops(code0) + seq![Op::Const(x)]);
                    assert(self.names() =~= names0);
                    assert(run(code0).submap_of(run(self.code())));
                }
                Ok(v)
            },
            Expr::EVar(n) => match self.env.get(&n) {
                Some(slot) => {
                    let v = read_slot(&mut self.builder, slot);
                    assert(ops(code0) =~= ops(code0) + Seq::<Op>::empty());
                    Ok(v)
                },
                None => Err(Error::UnboundName(n)),
            },
            Expr::ENeg(a) => match self.eval(*a) {
                Ok(x) => {
                    let ghost code1 = self.code();
                    let ghost names1 = self.names();
                    let v = emit_neg(&mut self.builder, x);
                    proof {
                        lemma_run_push(code1, Inst::Neg { dst: v, arg: x });
                        lemma_ops_push(code1, Inst::Neg { dst: v, arg: x });
                        assert((ops(code0) + lowering(a@)).push(Op::Neg) =~= ops(code0)
                            + lowering(a@).push(Op::Neg));
                        assert(self.names() =~= names1);
                        assert(run(code1).submap_of(run(self.code())));
                        lemma_goes_on(run(code0), run(code1), run(self.code()));
                    }
                    Ok(v)
                },
                Err(f) => Err(f),
            },
            Expr::EAdd(a, b) => self.binary(Arith::Add, *a, *b),
            Expr::ESub(a, b) => self.binary(Arith::Sub, *a, *b),
            Expr::EMul(a, b) => self.binary(Arith::Mul, *a, *b),
            Expr::ELet(n, a, b) => match self.eval(*a) {
                Ok(x) => {
                    let ghost code1 = self.code();
                    let ghost names1 = self.names();
                    let ghost table1 = self.table();
                    let ghost name = n@;
                    let ghost held = run(self.code())[x];
                    let slot = self.index;
                    self.index = self.index + 1;
                    self.env.insert(n, slot);
                    declare_slot(&mut self.builder, slot, self.word);
                    write_slot(&mut self.builder, slot, x);
                    proof {
                        assert(self.names() =~= names1.insert(name, held));
                        assert(self.table() =~= table1.insert(name, slot as nat));
                    }
                    let r = self.eval(*b);
                    proof {
                        lemma_goes_on(run(code0), run(code1), run(self.code()));
                        assert((ops(code0) + lowering(a@)) + lowering(b@) =~= ops(code0) + (lowering(
                            a@,
                        ) + lowering(b@)));
                    }
                    r
                },
                Err(f) => Err(f),
            },
        }
    }

    /// Lowers the operation `op` on `a` and `b`: first `a`, then `b`, then
    /// the instruction of `op` on their results.
    fn binary(&mut self, op: Arith, a: Expr, b: Expr) -> (r: Result<Value, Error>)
        requires
            old(self).wf(),
            old(self).slots() + a@.lets() + b@.lets() <= u32::MAX,
        ensures
            old(self).lowered(final(self), op.term(a@, b@), r),
        decreases a@.size() + b@.size() + 1, 0int,
    {
        let ghost code0 = self.code();
        match self.eval(a) {
            Ok(x) => {
                let ghost code1 = self.code();
                match self.eval(b) {
                    Ok(y) => {
                        let ghost code2 = self.code();
                        let ghost names2 = self.names();
                        proof {
                            lemma_goes_on(run(code0), run(code1), run(code2));
                            assert(run(code1).dom().contains(x));
                            assert(run(code2).contains_key(x));
                        }
                        let v = emit_arith(&mut self.builder, op, x, y);
                        proof {
                            lemma_run_push(code2, op.inst(v, x, y));
                            lemma_ops_push(code2, op.inst(v, x, y));
                            assert(((ops(code0) + lowering(a@)) + lowering(b@)).push(
                                crate::calc::ir::op_of(op.inst(v, x, y)),
                            ) =~= ops(code0) + (lowering(a@) + lowering(b@)).push(
                                crate::calc::ir::op_of(op.inst(v, x, y)),
                            ));
                            assert(self.names() =~= names2);
                            assert(run(code2).submap_of(run(self.code())));
                            lemma_goes_on(run(code0), run(code2), run(self.code()));
                        }
                        Ok(v)
                    },
                    Err(f) => {
                        proof {
                            lemma_goes_on(run(code0), run(code1), run(self.code()));
                        }
                        Err(f)
                    },
                }
            },
            Err(f) => Err(f),
        }
    }
}

/// The entry point of a compiled program as its module knows it: the
/// exported function `main`, which takes nothing and returns one integer
/// of the type `word`.
pub open spec fn entry_point(word: Type) -> Declaration {
    Declaration {
        name: "main"@,
        linkage: Linkage::Export,
        sig: Sig { params: Seq::empty(), returns: seq![word] },
    }
}

/// Whether `f` is a failure to compile that carries the text of what a
/// module refused.
pub open spec fn refused(f: ErrorView) -> bool {
    exists|e: ModuleError| f == ErrorView::CompilationError(#[trigger] error_text(e))
}

/// Whether `f` is the failure of a function that could not be compiled:
/// it has no entry block, or the module refused it.
pub open spec fn not_compiled(f: ErrorView) -> bool {
    f == ErrorView::CompilationError("the function has no entry block"@) || refused(f)
}

/// Whether `f` is a failure that compiling `t` may end in: the integer
/// type is not sixty-four bits wide, `t` has more bindings than there are
/// slots, the interpreter fails on `t` with `f`, or the module refused.
pub open spec fn explained(t: Term, f: ErrorView) -> bool {
    ||| f == ErrorView::CompilationError("the target's integer type is not 64 bits wide"@)
    ||| t.lets() > u32::MAX && f == ErrorView::CompilationError("too many bindings"@)
    ||| value_of(t) == Err::<i64, ErrorView>(f)
    ||| not_compiled(f)
}

/// The failure to report for what the module refused.
pub fn compilation_failure(e: &ModuleError) -> (r: Error)
    ensures
        r@ == ErrorView::CompilationError(error_text(*e)),
        refused(r@),
{
    Error::CompilationError(describe(e))
}

/// What the module answered, with a refusal as the failure that carries
/// its text.
pub fn or_refused<T>(answer: Result<T, ModuleError>) -> (r: Result<T, Error>)
    ensures
        match answer {
            Ok(v) => r == Ok::<T, Error>(v),
            Err(e) => r is Err && r->Err_0@ == ErrorView::CompilationError(error_text(e)),
        },
{
    match answer {
        Ok(v) => Ok(v),
        Err(e) => Err(compilation_failure(&e)),
    }
}

/// A program that has been compiled and made ready to run: the module
/// that owns its code, the function to call, and the function's body as
/// the code generator wrote it.
pub struct Compiled {
    module: JITModule,
    id: FuncId,
    listing: String,
    word: Ghost<Type>,
    code: Ghost<Seq<Inst>>,
}

impl Compiled {
    /// The instructions of the function.
    pub closed spec fn code(&self) -> Seq<Inst> {
        self.code@
    }

    /// The function's body as text.
    pub closed spec fn text(&self) -> Seq<char> {
        self.listing@
    }

    /// The module that owns the function's code.
    pub closed spec fn module(&self) -> JITModule {
        self.module
    }

    /// The function, as the module knows it.
    pub closed spec fn function(&self) -> FuncId {
        self.id
    }

    /// The integer type of the function's result.
    pub closed spec fn word(&self) -> Type {
        self.word@
    }

    /// What the function returns, by the meaning of its instructions.
    pub open spec fn meaning(&self) -> Option<i64> {
        returned(self.code())
    }

    /// The module holds the function and nothing else: it has declared it
    /// as the entry point, defined it from the function that the text
    /// lists, and made it ready to run. The function's result is
    /// sixty-four bits wide.
    pub open spec fn ready(&self) -> bool {
        &&& is_i64(self.word())
        &&& loaded(self.module()) == (Loaded {
            pic: false,
            declared: Map::empty().insert(self.function(), entry_point(self.word())),
            defined: Map::empty().insert(self.function(), self.text()),
            finalized: Set::empty().insert(self.function()),
        })
    }

    /// The function's body in the code generator's textual form.
    pub fn listing(&self) -> (r: &String)
        ensures
            r@ == self.text(),
    {
        &self.listing
    }

    /// The module that owns the code, and the function to call in it.
    pub fn into_parts(self) -> (r: (JITModule, FuncId))
        ensures
            r == (self.module(), self.function()),
    {
        (self.module, self.id)
    }
}

/// A program whose function has been generated and not yet compiled: the
/// session's module, still empty, and the function in its workspace.
pub struct Generated {
    module: JITModule,
    ctx: Context,
    listing: String,
    word: Ghost<Type>,
    code: Ghost<Seq<Inst>>,
}

impl Generated {
    #[verifier::type_invariant]
    spec fn pending(self) -> bool {
        &&& is_i64(self.word@)
        &&& signature_of(self.ctx) == (Sig { params: Seq::empty(), returns: seq![self.word@] })
        &&& self.listing@ == listing_of(self.ctx)
        &&& loaded(self.module) == (Loaded {
            pic: false,
            declared: Map::empty(),
            defined: Map::empty(),
            finalized: Set::empty(),
        })
    }

    /// The function, in the session's workspace.
    pub closed spec fn context(&self) -> Context {
        self.ctx
    }

    /// The instructions of the function.
    pub closed spec fn code(&self) -> Seq<Inst> {
        self.code@
    }

    /// The function's body as text.
    pub closed spec fn text(&self) -> Seq<char> {
        self.listing@
    }

    /// The integer type of the function's result.
    pub closed spec fn word(&self) -> Type {
        self.word@
    }

    /// What the function returns, by the meaning of its instructions.
    pub open spec fn meaning(&self) -> Option<i64> {
        returned(self.code())
    }

    /// The function's body in the code generator's textual form.
    pub fn listing(&self) -> (r: &String)
        ensures
            r@ == self.text(),
    {
        &self.listing
    }

    /// Has the function compiled: declares it in the module as the entry
    /// point, defines it, and makes it ready to run, in this order.
    ///
    /// A function without an entry block is not handed to the module: the
    /// result is a failure that says so. Where the module refuses the
    /// declaration or the definition, the result is the failure with the
    /// module's text, and nothing is made ready.
    pub fn finish(self) -> (r: Result<Compiled, Error>)
        ensures
            match r {
                Ok(c) => {
                    &&& entered(self.context())
                    &&& c.ready()
                    &&& c.word() == self.word()
                    &&& c.code() == self.code()
                    &&& c.text() == self.text()
                },
                Err(f) => if entered(self.context()) {
                    refused(f@)
                } else {
                    f@ == ErrorView::CompilationError("the function has no entry block"@)
                },
            },
    {
        proof {
            use_type_invariant(&self);
        }
        let Generated { mut module, mut ctx, listing, word, code } = self;
        if !has_entry(&ctx) {
            return Err(Error::CompilationError("the function has no entry block".to_owned()));
        }
        let id = match or_refused(declare_function(&mut module, "main", Linkage::Export, &ctx)) {
            Ok(id) => id,
            Err(f) => {
                return Err(f);
            },
        };
        match or_refused(define_function(&mut module, id, &mut ctx)) {
            Ok(()) => {},
            Err(f) => {
                return Err(f);
            },
        }
        clear_context(&module, &mut ctx);
        finalize_definitions(&mut module);
        Ok(Compiled { module, id, listing, word, code })
    }
}

/// Whether the compiled path's result `r` agrees with the interpreter's
/// result `expected`: a compiled function returns the interpreter's value,
/// and a failure is the interpreter's failure unless it is a failure to
/// compile.
pub open spec fn agrees(expected: Result<i64, ErrorView>, r: Result<Compiled, Error>) -> bool {
    match r {
        Ok(c) => c.meaning() is Some && expected == Ok::<i64, ErrorView>(c.meaning()->0),
        Err(f) => f@ is CompilationError || expected == Err::<i64, ErrorView>(f@),
    }
}

/// Whether `r`, if it is a compiled function, has the instructions that
/// `t` is lowered to, followed by the return of the result, and is ready
/// to run.
pub open spec fn lowers(t: Term, r: Result<Compiled, Error>) -> bool {
    r matches Ok(c) ==> c.ready() && ops(c.code()) == lowering(t).push(Op::Return)
}

/// The failure that `r` is, if it is one.
pub open spec fn failure_of<T>(r: Result<T, Error>) -> Option<ErrorView> {
    match r {
        Ok(_) => None,
        Err(f) => Some(f@),
    }
}

/// Whether `r` fails as the interpreter does where the interpreter fails.
pub open spec fn fails_alike<T>(expected: Result<i64, ErrorView>, r: Result<T, Error>) -> bool {
    expected is Err ==> failure_of(r) == Some(expected->Err_0)
}

/// A compilation session: the module that compiled code goes to and the
/// workspace for one function. A session compiles one program and is used
/// up by it.
pub struct StagedInterpreter {
    builder_context: FunctionBuilderContext,
    ctx: Context,
    module: JITModule,
}

impl StagedInterpreter {
    #[verifier::type_invariant]
    spec fn unused(self) -> bool {
        self.fresh()
    }

    /// The session's module.
    pub closed spec fn module(&self) -> JITModule {
        self.module
    }

    /// The session's function and its signature.
    pub closed spec fn context(&self) -> Context {
        self.ctx
    }

    /// The session's workspace for building the function.
    pub closed spec fn workspace(&self) -> FunctionBuilderContext {
        self.builder_context
    }

    /// Nothing has been done in the session: its module holds no function,
    /// its function is empty and takes and returns nothing, and its
    /// workspace is clear.
    pub open spec fn fresh(&self) -> bool {
        &&& loaded(self.module()) == (Loaded {
            pic: false,
            declared: Map::empty(),
            defined: Map::empty(),
            finalized: Set::empty(),
        })
        &&& is_blank(self.context())
        &&& signature_of(self.context()) == (Sig { params: Seq::empty(), returns: Seq::empty() })
        &&& is_clear(self.workspace())
    }

    /// A new session for the machine that the program runs on. The session
    /// is fresh, and its module does not make position-independent code.
    /// There is none where the code generator has no target for the
    /// machine.
    pub fn new() -> (r: Result<Self, Error>)
        ensures
            match r {
                Ok(s) => s.fresh(),
                Err(f) => f@ is CompilationError,
            },
    {
        let target = match native_isa_builder() {
            Ok(target) => target,
            Err(reason) => {
                return Err(Error::CompilationError(reason.to_owned()));
            },
        };
        let builder = match new_jit_builder(target, default_flags()) {
            Ok(b) => b,
            Err(e) => {
                return Err(compilation_failure(&e));
            },
        };
        let module = new_jit_module(builder);
        let builder_context = new_builder_context();
        let ctx = make_context(&module);
        Ok(StagedInterpreter { builder_context, ctx, module })
    }

    /// Generates the function for `e`, with the target's pointer-wide
    /// integer type.
    pub fn generate(self, e: Expr) -> (r: Result<Generated, Error>)
        ensures
            !is_i64(word_of(self.module())) ==> failure_of(r) == Some(
                ErrorView::CompilationError("the target's integer type is not 64 bits wide"@),
            ),
            is_i64(word_of(self.module())) && e@.lets() > u32::MAX ==> failure_of(r) == Some(
                ErrorView::CompilationError("too many bindings"@),
            ),
            is_i64(word_of(self.module())) && e@.lets() <= u32::MAX ==> (r is Ok <==> value_of(e@)
                is Ok),
            is_i64(word_of(self.module())) && e@.lets() <= u32::MAX ==> fails_alike(
                value_of(e@),
                r,
            ),
            r matches Ok(g) ==> g.word() == word_of(self.module()),
            match r {
                Ok(g) => {
                    &&& g.meaning() is Some
                    &&& value_of(e@) == Ok::<i64, ErrorView>(g.meaning()->0)
                    &&& ops(g.code()) == lowering(e@).push(Op::Return)
                },
                Err(f) => f@ is CompilationError || value_of(e@) == Err::<i64, ErrorView>(f@),
            },
    {
        proof {
            use_type_invariant(&self);
        }
        let word = pointer_type(&self.module);
        self.generate_as(e, word)
    }

    /// Generates the function for `e` with `word` as the target's integer
    /// type: one block that computes `e` and returns the result.
    ///
    /// Fails where `word` is not sixty-four bits wide or `e` holds more
    /// `ELet` nodes than there are slots. Otherwise fails with the
    /// interpreter's failure where the interpreter fails. Otherwise gives
    /// the function, whose instructions are those that `e` is lowered to
    /// and the return of the result.
    pub fn generate_as(self, e: Expr, word: Type) -> (r: Result<Generated, Error>)
        ensures
            !is_i64(word) ==> failure_of(r) == Some(
                ErrorView::CompilationError("the target's integer type is not 64 bits wide"@),
            ),
            is_i64(word) && e@.lets() > u32::MAX ==> failure_of(r) == Some(
                ErrorView::CompilationError("too many bindings"@),
            ),
            is_i64(word) && e@.lets() <= u32::MAX ==> match r {
                Ok(g) => {
                    &&& g.word() == word
                    &&& g.meaning() is Some
                    &&& value_of(e@) == Ok::<i64, ErrorView>(g.meaning()->0)
                    &&& ops(g.code()) == lowering(e@).push(Op::Return)
                },
                Err(f) => value_of(e@) == Err::<i64, ErrorView>(f@),
            },
    {
        proof {
            use_type_invariant(&self);
        }
        let StagedInterpreter { mut builder_context, mut ctx, module } = self;
        if !is_word(word) {
            return Err(
                Error::CompilationError("the target's integer type is not 64 bits wide".to_owned()),
            );
        }
        if e.let_count().is_none() {
            return Err(Error::CompilationError("too many bindings".to_owned()));
        }
        push_return(&mut ctx, word);
        let ghost sig = signature_of(ctx);
        let mut builder = new_builder(&mut ctx, &mut builder_context);
        let entry_block = create_block(&mut builder);
        append_function_params(&mut builder, entry_block);
        switch_to_block(&mut builder, entry_block);
        seal_block(&mut builder, entry_block);
        let mut translator = FunctionTranslator { index: 0, word, env: Bindings::new(), builder };
        assert(translator.names() =~= Env::empty());
        let v = match translator.eval(e) {
            Ok(v) => v,
            Err(f) => {
                return Err(f);
            },
        };
        let ghost body = translator.code();
        emit_return(&mut translator.builder, v);
        let code = Ghost(built(translator.builder).code);
        proof {
            lemma_run_push(body, Inst::Return { arg: v });
            lemma_ops_push(body, Inst::Return { arg: v });
            assert(ops(Seq::<Inst>::empty()) + lowering(e@) =~= lowering(e@));
        }
        finish_function(&mut translator.builder);
        let listing = function_text(&ctx);
        assert(signature_of(ctx) == sig);
        assert(sig.returns =~= seq![word]);
        Ok(Generated { module, ctx, listing, word: Ghost(word), code })
    }

    /// Compiles `e` into a function of the session's module and makes it
    /// ready to run.
    pub fn eval(self, e: Expr) -> (r: Result<Compiled, Error>)
        ensures
            !is_i64(word_of(self.module())) ==> failure_of(r) == Some(
                ErrorView::CompilationError("the target's integer type is not 64 bits wide"@),
            ),
            is_i64(word_of(self.module())) && e@.lets() > u32::MAX ==> failure_of(r) == Some(
                ErrorView::CompilationError("too many bindings"@),
            ),
            is_i64(word_of(self.module())) && e@.lets() <= u32::MAX ==> fails_alike(
                value_of(e@),
                r,
            ),
            is_i64(word_of(self.module())) && e@.lets() <= u32::MAX && value_of(e@) is Ok && r
                is Err ==> not_compiled(failure_of(r)->0),
            r matches Ok(c) ==> c.word() == word_of(self.module()),
            r matches Err(f) ==> explained(e@, f@),
            agrees(value_of(e@), r),
            lowers(e@, r),
    {
        proof {
            use_type_invariant(&self);
        }
        let word = pointer_type(&self.module);
        self.eval_as(e, word)
    }

    /// Compiles `e` with `word` as the target's integer type: generates
    /// the function as [`Self::generate_as`] does, and has it compiled as
    /// [`Generated::finish`] does.
    ///
    /// Where the function is generated, a failure is that of a function
    /// that could not be compiled.
    pub fn eval_as(self, e: Expr, word: Type) -> (r: Result<Compiled, Error>)
        ensures
            !is_i64(word) ==> failure_of(r) == Some(
                ErrorView::CompilationError("the target's integer type is not 64 bits wide"@),
            ),
            is_i64(word) && e@.lets() > u32::MAX ==> failure_of(r) == Some(
                ErrorView::CompilationError("too many bindings"@),
            ),
            is_i64(word) && e@.lets() <= u32::MAX ==> fails_alike(value_of(e@), r),
            is_i64(word) && e@.lets() <= u32::MAX && value_of(e@) is Ok && r is Err
                ==> not_compiled(failure_of(r)->0),
            r matches Ok(c) ==> c.word() == word,
            r matches Err(f) ==> explained(e@, f@),
            agrees(value_of(e@), r),
            lowers(e@, r),
    {
        match self.generate_as(e, word) {
            Ok(generated) => generated.finish(),
            Err(f) => Err(f),
        }
    }
}

/// Parses `src` and compiles the program in a session of its own.
///
/// A text that does not parse gives its syntax failure and nothing is
/// compiled.
pub fn eval_staged(src: &str) -> (r: Result<Compiled, Error>)
    ensures
        parse_spec(src@) is Err ==> failure_of(r) == Some(parse_spec(src@)->Err_0),
        agrees(source_value(src@), r),
        parse_spec(src@) matches Ok(t) ==> lowers(t, r),
{
    let ast = match parse(src) {
        Ok(ast) => ast,
        Err(f) => {
            return Err(f);
        },
    };
    let interp = match StagedInterpreter::new() {
        Ok(interp) => interp,
        Err(f) => {
            return Err(f);
        },
    };
    interp.eval(ast)
}

} // verus!
