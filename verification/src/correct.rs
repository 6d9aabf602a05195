//! The laws of the code generator.
//!
//! The central theorem: for every expression the generator accepts,
//! running the generated instructions on the machine model leaves in
//! the accumulator exactly the value the reference evaluator gives,
//! and touches no stack slot below the caller's frame. Determinism of
//! generation is stated alongside it.
use crate::ast::{Binds, Expr, Op1, Op2, binds_count, binds_size, expr_size};
use crate::codegen::{MAX_STACK_INDEX, bind_env, binds_ok, compile_ok, emit, emit_binds,
    env_names, lemma_bind_env_names, lemma_binds_count_le_size, lemma_lookup_names,
    lemma_lookup_push, lookup_def, lookup_env};
use crate::machine::{Instr, MState, init_state, irun, istep, lemma_irun_app, mread};
use crate::semantics::{eval, eval_binds};
use vstd::prelude::*;

verus! {

/// Every slot the environment points at lies below the first free
/// index: generated code never overwrites a live binding.
pub open spec fn env_wf(env: Seq<(Seq<char>, u64)>, si: int) -> bool {
    forall|j: int| 0 <= j < env.len() ==> ((#[trigger] env[j]).1 as int) < 8 * si
}

/// The machine state realizes the value environment: every lexically
/// bound name's slot holds its value, and every defined name the
/// lexical scope does not shadow has its session value.
pub open spec fn agree(
    env: Seq<(Seq<char>, u64)>,
    defs: Seq<(Seq<char>, i64)>,
    venv: Map<Seq<char>, i64>,
    mem: Map<u64, i64>,
) -> bool {
    &&& forall|x: Seq<char>|
        (#[trigger] lookup_env(env, x)) matches Some(off) ==> mread(mem, off) == venv[x]
    &&& forall|x: Seq<char>|
        (#[trigger] lookup_def(defs, x)) matches Some(v) ==> lookup_env(env, x) is None
            ==> venv[x] == v
}

/// Running a single instruction is stepping it.
pub proof fn lemma_irun_one(s: MState, i: Instr)
    ensures
        irun(s, seq![i]) == istep(s, i),
{
    assert(seq![i].drop_first() =~= Seq::<Instr>::empty());
    assert(irun(s, seq![i]) == istep(s, i)) by {
        reveal_with_fuel(irun, 2);
    }
}

/// Running three instructions is stepping them in order.
pub proof fn lemma_irun_three(s: MState, i1: Instr, i2: Instr, i3: Instr)
    ensures
        irun(s, seq![i1, i2, i3]) == istep(istep(istep(s, i1), i2), i3),
{
    assert(seq![i1, i2, i3].drop_first() =~= seq![i2, i3]);
    assert(seq![i2, i3].drop_first() =~= seq![i3]);
    assert(seq![i3].drop_first() =~= Seq::<Instr>::empty());
    assert(irun(s, seq![i1, i2, i3]) == istep(istep(istep(s, i1), i2), i3)) by {
        reveal_with_fuel(irun, 4);
    }
}

/// Compiler correctness: under any machine state that realizes the
/// value environment, the code generated for an accepted expression
/// computes the evaluator's value into the accumulator and leaves
/// every slot below the first free index untouched.
pub proof fn lemma_compile_correct(
    e: Expr,
    si: int,
    env: Seq<(Seq<char>, u64)>,
    defs: Seq<(Seq<char>, i64)>,
    s: MState,
    venv: Map<Seq<char>, i64>,
)
    requires
        compile_ok(e, env_names(env), defs),
        0 <= si,
        si + expr_size(e) <= MAX_STACK_INDEX,
        env_wf(env, si),
        agree(env, defs, venv, s.mem),
    ensures
        irun(s, emit(e, si, env, defs)).acc == eval(e, venv),
        forall|off: u64|
            (off as int) < 8 * si ==> #[trigger] mread(irun(s, emit(e, si, env, defs)).mem, off)
                == mread(s.mem, off),
    decreases e,
{
    match e {
        Expr::Number(n) => {
            lemma_irun_one(s, Instr::MovImm(n));
        },
        Expr::Id(x) => {
            lemma_lookup_names(env, x@);
            match lookup_env(env, x@) {
                Some(off) => {
                    lemma_irun_one(s, Instr::LoadSlot(off));
                },
                None => {
                    let v = lookup_def(defs, x@)->Some_0;
                    lemma_irun_one(s, Instr::MovImm(v));
                },
            }
        },
        Expr::UnOp(op, sub) => {
            let a = emit(*sub, si, env, defs);
            let t = match op {
                Op1::Add1 => seq![Instr::AddOne],
                Op1::Sub1 => seq![Instr::SubOne],
            };
            lemma_irun_app(s, a, t);
            lemma_compile_correct(*sub, si, env, defs, s, venv);
            lemma_irun_one(irun(s, a), t[0]);
            assert(t =~= seq![t[0]]);
        },
        Expr::BinOp(op, left, right) => {
            let off = (8 * si) as u64;
            let off2 = (8 * (si + 1)) as u64;
            let a = emit(*left, si, env, defs);
            let st = seq![Instr::StoreSlot(off)];
            let b = emit(*right, si + 1, env, defs);
            let t = match op {
                Op2::Plus => seq![Instr::AddSlot(off)],
                Op2::Times => seq![Instr::MulSlot(off)],
                Op2::Minus => seq![
                    Instr::StoreSlot(off2),
                    Instr::LoadSlot(off),
                    Instr::SubSlot(off2),
                ],
            };
            assert(emit(e, si, env, defs) == ((a + st) + b) + t);
            lemma_irun_app(s, (a + st) + b, t);
            lemma_irun_app(s, a + st, b);
            lemma_irun_app(s, a, st);

            lemma_compile_correct(*left, si, env, defs, s, venv);
            let s1 = irun(s, a);
            lemma_irun_one(s1, Instr::StoreSlot(off));
            let s2 = istep(s1, Instr::StoreSlot(off));

            // the spill slot is outside every environment offset, so the
            // state still realizes the environment at index si + 1
            assert forall|x: Seq<char>| (#[trigger] lookup_env(env, x)) is Some implies mread(
                s2.mem,
                lookup_env(env, x)->Some_0,
            ) == venv[x] by {
                lemma_lookup_at_index(env, x);
                let offx = lookup_env(env, x)->Some_0;
                assert(mread(s1.mem, offx) == mread(s.mem, offx));
            }
            lemma_compile_correct(*right, si + 1, env, defs, s2, venv);
            let s3 = irun(s2, b);
            assert(mread(s3.mem, off) == eval(*left, venv));
            assert(off as int == 8 * si);
            assert(off2 as int == 8 * si + 8);
            let sfinal = match op {
                Op2::Plus => istep(s3, Instr::AddSlot(off)),
                Op2::Times => istep(s3, Instr::MulSlot(off)),
                Op2::Minus => istep(
                    istep(istep(s3, Instr::StoreSlot(off2)), Instr::LoadSlot(off)),
                    Instr::SubSlot(off2),
                ),
            };
            match op {
                Op2::Plus => {
                    lemma_irun_one(s3, Instr::AddSlot(off));
                },
                Op2::Times => {
                    lemma_irun_one(s3, Instr::MulSlot(off));
                    let lv = eval(*left, venv);
                    let rv = eval(*right, venv);
                    assert(rv as int * lv as int == lv as int * rv as int) by (nonlinear_arith);
                },
                Op2::Minus => {
                    lemma_irun_three(s3, Instr::StoreSlot(off2), Instr::LoadSlot(off),
                        Instr::SubSlot(off2));
                },
            }
            assert(irun(s, emit(e, si, env, defs)) == sfinal);
            assert(sfinal.acc == eval(e, venv));
            assert forall|o: u64| (o as int) < 8 * si implies mread(sfinal.mem, o) == mread(
                s.mem,
                o,
            ) by {
                assert(mread(s3.mem, o) == mread(s2.mem, o));
                assert(mread(s2.mem, o) == mread(s1.mem, o));
                assert(mread(s1.mem, o) == mread(s.mem, o));
                assert(mread(sfinal.mem, o) == mread(s3.mem, o));
            }
        },
        Expr::Let(binds, body) => {
            lemma_binds_count_le_size(binds);
            lemma_bind_env_names(binds, si, env);
            let a = emit_binds(binds, si, env, defs);
            let si2 = si + binds_count(binds);
            let env2 = bind_env(binds, si, env);
            let b = emit(*body, si2, env2, defs);
            lemma_irun_app(s, a, b);
            lemma_binds_correct(binds, si, env, defs, s, venv);
            let s2 = irun(s, a);
            lemma_compile_correct(*body, si2, env2, defs, s2, eval_binds(binds, venv));
            let sfinal = irun(s2, b);
            assert(irun(s, emit(e, si, env, defs)) == sfinal);
            assert forall|o: u64| (o as int) < 8 * si implies mread(sfinal.mem, o) == mread(
                s.mem,
                o,
            ) by {
                assert(mread(sfinal.mem, o) == mread(s2.mem, o));
                assert(mread(s2.mem, o) == mread(s.mem, o));
            }
        },
        Expr::Define(_, sub) => {
            lemma_compile_correct(*sub, si, env, defs, s, venv);
        },
    }
}

/// Every offset an environment lookup can return belongs to some entry
/// of the environment.
pub proof fn lemma_lookup_at_index(env: Seq<(Seq<char>, u64)>, x: Seq<char>)
    ensures
        lookup_env(env, x) matches Some(off) ==> exists|j: int|
            0 <= j < env.len() && (#[trigger] env[j]).1 == off,
    decreases env.len(),
{
    if env.len() > 0 && env.last().0 != x {
        lemma_lookup_at_index(env.drop_last(), x);
        if lookup_env(env, x) is Some {
            let j = choose|j: int|
                0 <= j < env.drop_last().len() && (#[trigger] env.drop_last()[j]).1 == lookup_env(
                    env,
                    x,
                )->Some_0;
            assert(env[j].1 == lookup_env(env, x)->Some_0);
        }
    }
}

/// Correctness of a binding list: running its code extends the realized
/// environment by exactly the bindings' evaluated values, slot by slot,
/// touching nothing below the incoming free index.
pub proof fn lemma_binds_correct(
    b: Binds,
    si: int,
    env: Seq<(Seq<char>, u64)>,
    defs: Seq<(Seq<char>, i64)>,
    s: MState,
    venv: Map<Seq<char>, i64>,
)
    requires
        binds_ok(b, env_names(env), defs),
        0 <= si,
        si + binds_size(b) <= MAX_STACK_INDEX,
        env_wf(env, si),
        agree(env, defs, venv, s.mem),
    ensures
        ({
            let s2 = irun(s, emit_binds(b, si, env, defs));
            &&& forall|off: u64|
                (off as int) < 8 * si ==> #[trigger] mread(s2.mem, off) == mread(s.mem, off)
            &&& env_wf(bind_env(b, si, env), si + binds_count(b))
            &&& agree(bind_env(b, si, env), defs, eval_binds(b, venv), s2.mem)
        }),
    decreases b,
{
    match b {
        Binds::Nil => {},
        Binds::Cons(x, e1, rest) => {
            let off = (8 * si) as u64;
            let a = emit(*e1, si, env, defs);
            let st = seq![Instr::StoreSlot(off)];
            let env1 = env.push((x@, off));
            let c = emit_binds(*rest, si + 1, env1, defs);
            assert(emit_binds(b, si, env, defs) == (a + st) + c);
            lemma_irun_app(s, a + st, c);
            lemma_irun_app(s, a, st);

            lemma_compile_correct(*e1, si, env, defs, s, venv);
            let v = eval(*e1, venv);
            let s1 = irun(s, a);
            lemma_irun_one(s1, Instr::StoreSlot(off));
            let s2 = istep(s1, Instr::StoreSlot(off));
            let venv1 = venv.insert(x@, v);

            assert(env_names(env1) =~= env_names(env).push(x@));
            assert(env_wf(env1, si + 1));
            assert(agree(env1, defs, venv1, s2.mem)) by {
                assert forall|y: Seq<char>| (#[trigger] lookup_env(env1, y)) is Some implies
                    mread(s2.mem, lookup_env(env1, y)->Some_0) == venv1[y] by {
                    lemma_lookup_push(env, (x@, off), y);
                    if y != x@ && lookup_env(env, y) is Some {
                        lemma_lookup_at_index(env, y);
                        let offy = lookup_env(env, y)->Some_0;
                        assert(mread(s1.mem, offy) == mread(s.mem, offy));
                    }
                }
                assert forall|y: Seq<char>|
                    (#[trigger] lookup_def(defs, y)) is Some && lookup_env(env1, y) is None implies
                    venv1[y] == lookup_def(defs, y)->Some_0 by {
                    lemma_lookup_push(env, (x@, off), y);
                }
            }
            lemma_binds_correct(*rest, si + 1, env1, defs, s2, venv1);
            let sfinal = irun(s2, c);
            assert(irun(s, emit_binds(b, si, env, defs)) == sfinal);
            assert forall|o: u64| (o as int) < 8 * si implies mread(sfinal.mem, o) == mread(
                s.mem,
                o,
            ) by {
                assert(mread(sfinal.mem, o) == mread(s2.mem, o));
                assert(mread(s2.mem, o) == mread(s1.mem, o));
                assert(mread(s1.mem, o) == mread(s.mem, o));
            }
        },
    }
}

/// For a well-formed expression with no free identifiers, compiling
/// at the first free stack index and executing on a fresh machine
/// yields exactly the reference evaluation — under any value
/// environment at all, since nothing free is looked up.
pub proof fn lemma_closed_expression_correct(e: Expr, venv: Map<Seq<char>, i64>)
    requires
        compile_ok(e, Seq::empty(), Seq::empty()),
        expr_size(e) + 2 <= MAX_STACK_INDEX,
    ensures
        irun(init_state(), emit(e, 2, Seq::empty(), Seq::empty())).acc == eval(e, venv),
{
    assert(env_names(Seq::<(Seq<char>, u64)>::empty()) =~= Seq::<Seq<char>>::empty());
    lemma_compile_correct(e, 2, Seq::empty(), Seq::empty(), init_state(), venv);
}

/// Generation is deterministic: the instructions are a function of the
/// expression, the starting stack index and the two environments alone,
/// so compiling the same expression twice from equal starting state
/// yields identical code.
pub proof fn lemma_compile_deterministic(
    e: Expr,
    si: int,
    env: Seq<(Seq<char>, u64)>,
    defs: Seq<(Seq<char>, i64)>,
    code1: Seq<Instr>,
    code2: Seq<Instr>,
)
    requires
        code1 == emit(e, si, env, defs),
        code2 == emit(e, si, env, defs),
    ensures
        code1 == code2,
{
}

/// Slot assignment is deterministic too: the environment a binding
/// list builds — which name sits in which slot — is a function of the
/// list, the starting stack index and the outer environment alone.
pub proof fn lemma_slots_deterministic(
    b: Binds,
    si: int,
    env: Seq<(Seq<char>, u64)>,
    env1: Seq<(Seq<char>, u64)>,
    env2: Seq<(Seq<char>, u64)>,
)
    requires
        env1 == bind_env(b, si, env),
        env2 == bind_env(b, si, env),
    ensures
        env1 == env2,
{
}

/// An identifier with no enclosing binding and no prior definition is
/// refused as an unbound variable, whatever the mode: generation fails
/// on the reference itself.
pub proof fn lemma_unbound_variable(
    x: String,
    env: Seq<(Seq<char>, u64)>,
    defs: Seq<(Seq<char>, i64)>,
)
    requires
        lookup_env(env, x@) is None,
        lookup_def(defs, x@) is None,
    ensures
        !compile_ok(Expr::Id(x), env_names(env), defs),
        crate::codegen::compile_err(Expr::Id(x), env_names(env), defs)
            == crate::ast::CompileError::UnboundVariableError,
{
    lemma_lookup_names(env, x@);
}

} // verus!
