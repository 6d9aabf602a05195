//! The stack-slot code generator: lowers a validated expression into a
//! sequence of accumulator-machine instructions, using one accumulator
//! register and a growable stack frame for temporaries and bindings.
//!
//! The generator is a function of the expression, the first free stack
//! index, the compile-time environment (name → slot offset) and the
//! session's runtime definitions (name → value); `emit` says exactly
//! which instructions come out, `compile_ok` on which inputs generation
//! succeeds, and `compile_err` which error is reported otherwise.
use crate::ast::{Binds, CompileError, Expr, Op1, Op2, binds_count, binds_size, expr_size};
use crate::machine::Instr;
use vstd::prelude::*;

verus! {

/// Ceiling on the stack index plus the size of the expression being
/// compiled, so that byte offsets (index times word size) never leave
/// `u64` along any path.
pub const MAX_STACK_INDEX: u64 = 0x1000_0000_0000_0000;

/// Compile-time environment at the spec level: name → byte offset of
/// the slot holding the binding; later entries shadow earlier ones.
pub open spec fn lookup_env(env: Seq<(Seq<char>, u64)>, x: Seq<char>) -> Option<u64>
    decreases env.len(),
{
    if env.len() == 0 {
        None
    } else if env.last().0 == x {
        Some(env.last().1)
    } else {
        lookup_env(env.drop_last(), x)
    }
}

/// Runtime definition environment at the spec level: name → the value
/// the session computed for it.
pub open spec fn lookup_def(defs: Seq<(Seq<char>, i64)>, x: Seq<char>) -> Option<i64>
    decreases defs.len(),
{
    if defs.len() == 0 {
        None
    } else if defs.last().0 == x {
        Some(defs.last().1)
    } else {
        lookup_def(defs.drop_last(), x)
    }
}

/// The view of an executable compile-time environment.
pub open spec fn env_view(env: Seq<(String, u64)>) -> Seq<(Seq<char>, u64)> {
    env.map_values(|p: (String, u64)| (p.0@, p.1))
}

/// The view of an executable definition environment.
pub open spec fn defs_view(defs: Seq<(String, i64)>) -> Seq<(Seq<char>, i64)> {
    defs.map_values(|p: (String, i64)| (p.0@, p.1))
}

/// The names an environment binds, in order.
pub open spec fn env_names(env: Seq<(Seq<char>, u64)>) -> Seq<Seq<char>> {
    env.map_values(|p: (Seq<char>, u64)| p.0)
}

/// A name is found in an environment exactly when the environment
/// binds it.
pub proof fn lemma_lookup_names(env: Seq<(Seq<char>, u64)>, x: Seq<char>)
    ensures
        lookup_env(env, x) is Some <==> env_names(env).contains(x),
    decreases env.len(),
{
    let names = env_names(env);
    if env.len() == 0 {
    } else if env.last().0 == x {
        assert(names[env.len() - 1] == x);
        assert(names.contains(x));
    } else {
        lemma_lookup_names(env.drop_last(), x);
        assert(env_names(env.drop_last()) =~= names.drop_last());
        if lookup_env(env, x) is Some {
            let i = choose|i: int| 0 <= i < names.len() - 1 && names.drop_last()[i] == x;
            assert(names[i] == x);
        }
        if names.contains(x) {
            let i = choose|i: int| 0 <= i < names.len() && names[i] == x;
            assert(i < env.len() - 1);
            assert(names.drop_last()[i] == x);
        }
    }
}

/// Appending a binding shadows that one name and nothing else.
pub proof fn lemma_lookup_push(env: Seq<(Seq<char>, u64)>, p: (Seq<char>, u64), x: Seq<char>)
    ensures
        lookup_env(env.push(p), x) == if p.0 == x {
            Some(p.1)
        } else {
            lookup_env(env, x)
        },
{
    assert(env.push(p).drop_last() =~= env);
}

/// The scope the body of a `let` is compiled under: the outer scope's
/// names followed by the binding names, in binding order.
pub open spec fn binds_scope(binds: Binds, scope: Seq<Seq<char>>) -> Seq<Seq<char>>
    decreases binds,
{
    match binds {
        Binds::Nil => scope,
        Binds::Cons(x, _, rest) => binds_scope(*rest, scope.push(x@)),
    }
}

/// Does code generation succeed? It does exactly when every identifier
/// resolves in its scope or among the session's definitions, and no
/// `define` names something already defined this session.
pub open spec fn compile_ok(e: Expr, scope: Seq<Seq<char>>, defs: Seq<(Seq<char>, i64)>) -> bool
    decreases e,
{
    match e {
        Expr::Number(_) => true,
        Expr::Id(x) => scope.contains(x@) || lookup_def(defs, x@) is Some,
        Expr::Let(binds, body) => binds_ok(binds, scope, defs) && compile_ok(
            *body,
            binds_scope(binds, scope),
            defs,
        ),
        Expr::UnOp(_, sub) => compile_ok(*sub, scope, defs),
        Expr::BinOp(_, left, right) => compile_ok(*left, scope, defs) && compile_ok(
            *right,
            scope,
            defs,
        ),
        Expr::Define(x, sub) => lookup_def(defs, x@) is None && compile_ok(*sub, scope, defs),
    }
}

/// Success condition for a binding list: each binding's expression is
/// compiled under the scope accumulated so far.
pub open spec fn binds_ok(binds: Binds, scope: Seq<Seq<char>>, defs: Seq<(Seq<char>, i64)>) -> bool
    decreases binds,
{
    match binds {
        Binds::Nil => true,
        Binds::Cons(x, e, rest) => compile_ok(*e, scope, defs) && binds_ok(
            *rest,
            scope.push(x@),
            defs,
        ),
    }
}

/// The error reported when generation fails: the first one met in
/// evaluation order. Meaningful only when `compile_ok` is false.
pub open spec fn compile_err(e: Expr, scope: Seq<Seq<char>>, defs: Seq<(Seq<char>, i64)>) -> CompileError
    decreases e,
{
    match e {
        Expr::Number(_) => CompileError::SyntaxError,
        Expr::Id(_) => CompileError::UnboundVariableError,
        Expr::Let(binds, body) => if !binds_ok(binds, scope, defs) {
            binds_err(binds, scope, defs)
        } else {
            compile_err(*body, binds_scope(binds, scope), defs)
        },
        Expr::UnOp(_, sub) => compile_err(*sub, scope, defs),
        Expr::BinOp(_, left, right) => if !compile_ok(*left, scope, defs) {
            compile_err(*left, scope, defs)
        } else {
            compile_err(*right, scope, defs)
        },
        Expr::Define(x, sub) => if lookup_def(defs, x@) is Some {
            CompileError::DuplicateTopLevelDefinitionError
        } else {
            compile_err(*sub, scope, defs)
        },
    }
}

/// First error in a binding list. Meaningful only when `binds_ok` is
/// false.
pub open spec fn binds_err(binds: Binds, scope: Seq<Seq<char>>, defs: Seq<(Seq<char>, i64)>) -> CompileError
    decreases binds,
{
    match binds {
        Binds::Nil => CompileError::SyntaxError,
        Binds::Cons(x, e, rest) => if !compile_ok(*e, scope, defs) {
            compile_err(*e, scope, defs)
        } else {
            binds_err(*rest, scope.push(x@), defs)
        },
    }
}

/// The instructions generated for an expression, given the first free
/// stack index `si` and the two environments. Meaningful only when
/// `compile_ok` holds.
///
/// A binary operation compiles its left operand at `si`, spills it to
/// slot `8*si`, compiles its right operand at `si + 1` (so the right
/// side cannot clobber the spill), and combines. Subtraction reloads
/// the spilled left value so that the difference is left minus right.
pub open spec fn emit(
    e: Expr,
    si: int,
    env: Seq<(Seq<char>, u64)>,
    defs: Seq<(Seq<char>, i64)>,
) -> Seq<Instr>
    decreases e,
{
    match e {
        Expr::Number(n) => seq![Instr::MovImm(n)],
        Expr::Id(x) => match lookup_env(env, x@) {
            Some(off) => seq![Instr::LoadSlot(off)],
            None => match lookup_def(defs, x@) {
                Some(v) => seq![Instr::MovImm(v)],
                None => Seq::empty(),
            },
        },
        Expr::Let(binds, body) => emit_binds(binds, si, env, defs) + emit(
            *body,
            si + binds_count(binds),
            bind_env(binds, si, env),
            defs,
        ),
        Expr::UnOp(op, sub) => emit(*sub, si, env, defs) + match op {
            Op1::Add1 => seq![Instr::AddOne],
            Op1::Sub1 => seq![Instr::SubOne],
        },
        Expr::BinOp(op, left, right) => emit(*left, si, env, defs) + seq![
            Instr::StoreSlot((8 * si) as u64),
        ] + emit(*right, si + 1, env, defs) + match op {
            Op2::Plus => seq![Instr::AddSlot((8 * si) as u64)],
            Op2::Times => seq![Instr::MulSlot((8 * si) as u64)],
            Op2::Minus => seq![
                Instr::StoreSlot((8 * (si + 1)) as u64),
                Instr::LoadSlot((8 * si) as u64),
                Instr::SubSlot((8 * (si + 1)) as u64),
            ],
        },
        Expr::Define(_, sub) => emit(*sub, si, env, defs),
    }
}

/// Instructions for a binding list: each binding's expression is
/// compiled under the environment accumulated so far, its value stored
/// to a fresh slot, and the environment extended with that slot.
pub open spec fn emit_binds(
    binds: Binds,
    si: int,
    env: Seq<(Seq<char>, u64)>,
    defs: Seq<(Seq<char>, i64)>,
) -> Seq<Instr>
    decreases binds,
{
    match binds {
        Binds::Nil => Seq::empty(),
        Binds::Cons(x, e, rest) => emit(*e, si, env, defs) + seq![
            Instr::StoreSlot((8 * si) as u64),
        ] + emit_binds(*rest, si + 1, env.push((x@, (8 * si) as u64)), defs),
    }
}

/// The compile-time environment after a binding list, slots assigned
/// in binding order starting at `si`.
pub open spec fn bind_env(binds: Binds, si: int, env: Seq<(Seq<char>, u64)>) -> Seq<
    (Seq<char>, u64),
>
    decreases binds,
{
    match binds {
        Binds::Nil => env,
        Binds::Cons(x, _, rest) => bind_env(*rest, si + 1, env.push((x@, (8 * si) as u64))),
    }
}

/// A `let` claims no more slots than it has bindings, and a binding
/// list no more than its node count.
pub proof fn lemma_binds_count_le_size(binds: Binds)
    ensures
        binds_count(binds) <= binds_size(binds),
    decreases binds,
{
    match binds {
        Binds::Nil => {},
        Binds::Cons(_, _, rest) => lemma_binds_count_le_size(*rest),
    }
}

/// Binding a list extends the environment's names by exactly the
/// binding names, so the body's scope is the environment's names.
pub proof fn lemma_bind_env_names(binds: Binds, si: int, env: Seq<(Seq<char>, u64)>)
    ensures
        env_names(bind_env(binds, si, env)) == binds_scope(binds, env_names(env)),
    decreases binds,
{
    match binds {
        Binds::Nil => {},
        Binds::Cons(x, _, rest) => {
            assert(env_names(env.push((x@, (8 * si) as u64))) =~= env_names(env).push(x@));
            lemma_bind_env_names(*rest, si + 1, env.push((x@, (8 * si) as u64)));
        },
    }
}

/// Looks a name up in the executable compile-time environment, most
/// recent binding first.
pub fn lookup_slot(env: &Vec<(String, u64)>, x: &String) -> (r: Option<u64>)
    ensures
        r == lookup_env(env_view(env@), x@),
{
    let mut j: usize = env.len();
    proof {
        assert(env_view(env@).take(env@.len() as int) =~= env_view(env@));
    }
    while j > 0
        invariant
            j <= env@.len(),
            lookup_env(env_view(env@), x@) == lookup_env(env_view(env@).take(j as int), x@),
        decreases j,
    {
        j = j - 1;
        let p = &env[j];
        proof {
            assert(env_view(env@).take(j as int + 1).drop_last() =~= env_view(env@).take(
                j as int,
            ));
            assert(env_view(env@).take(j as int + 1).last() == (env@[j as int].0@, env@[
                j as int
            ].1));
        }
        if p.0 == *x {
            return Some(p.1);
        }
    }
    proof {
        assert(env_view(env@).take(0) =~= Seq::<(Seq<char>, u64)>::empty());
    }
    None
}

/// Looks a name up among the session's runtime definitions.
pub fn lookup_defined(defs: &Vec<(String, i64)>, x: &String) -> (r: Option<i64>)
    ensures
        r == lookup_def(defs_view(defs@), x@),
{
    let mut j: usize = defs.len();
    proof {
        assert(defs_view(defs@).take(defs@.len() as int) =~= defs_view(defs@));
    }
    while j > 0
        invariant
            j <= defs@.len(),
            lookup_def(defs_view(defs@), x@) == lookup_def(defs_view(defs@).take(j as int), x@),
        decreases j,
    {
        j = j - 1;
        let p = &defs[j];
        proof {
            assert(defs_view(defs@).take(j as int + 1).drop_last() =~= defs_view(defs@).take(
                j as int,
            ));
            assert(defs_view(defs@).take(j as int + 1).last() == (defs@[j as int].0@, defs@[
                j as int
            ].1));
        }
        if p.0 == *x {
            return Some(p.1);
        }
    }
    proof {
        assert(defs_view(defs@).take(0) =~= Seq::<(Seq<char>, i64)>::empty());
    }
    None
}

/// A copy of the compile-time environment, so a `let` can extend its
/// own scope without mutating its parent's.
fn clone_env(env: &Vec<(String, u64)>) -> (r: Vec<(String, u64)>)
    ensures
        r@ == env@,
{
    let mut r: Vec<(String, u64)> = Vec::new();
    let mut i: usize = 0;
    while i < env.len()
        invariant
            i <= env@.len(),
            r@ == env@.take(i as int),
        decreases env@.len() - i,
    {
        let p = &env[i];
        r.push((p.0.clone(), p.1));
        proof {
            assert(env@.take(i as int + 1) =~= env@.take(i as int).push(env@[i as int]));
        }
        i = i + 1;
    }
    proof {
        assert(env@.take(env@.len() as int) =~= env@);
    }
    r
}

/// Generates the instruction sequence that leaves the expression's
/// value in the accumulator: exactly `emit`, succeeding exactly when
/// `compile_ok` holds and reporting `compile_err` otherwise.
pub fn compile_ops(e: &Expr, si: u64, env: &Vec<(String, u64)>, defs: &Vec<(String, i64)>) -> (r:
    Result<Vec<Instr>, CompileError>)
    requires
        si + expr_size(*e) <= MAX_STACK_INDEX,
    ensures
        (r is Ok) == compile_ok(*e, env_names(env_view(env@)), defs_view(defs@)),
        r matches Ok(v) ==> v@ == emit(*e, si as int, env_view(env@), defs_view(defs@)),
        r matches Err(er) ==> er == compile_err(*e, env_names(env_view(env@)), defs_view(defs@)),
    decreases *e,
{
    match e {
        Expr::Number(n) => {
            let mut v: Vec<Instr> = Vec::new();
            v.push(Instr::MovImm(*n));
            proof {
                assert(v@ =~= emit(*e, si as int, env_view(env@), defs_view(defs@)));
            }
            Ok(v)
        },
        Expr::Id(x) => {
            proof {
                lemma_lookup_names(env_view(env@), x@);
            }
            match lookup_slot(env, x) {
                Some(off) => {
                    let mut v: Vec<Instr> = Vec::new();
                    v.push(Instr::LoadSlot(off));
                    proof {
                        assert(v@ =~= emit(*e, si as int, env_view(env@), defs_view(defs@)));
                    }
                    Ok(v)
                },
                None => match lookup_defined(defs, x) {
                    Some(val) => {
                        let mut v: Vec<Instr> = Vec::new();
                        v.push(Instr::MovImm(val));
                        proof {
                            assert(v@ =~= emit(*e, si as int, env_view(env@), defs_view(defs@)));
                        }
                        Ok(v)
                    },
                    None => Err(CompileError::UnboundVariableError),
                },
            }
        },
        Expr::UnOp(op, sub) => {
            match compile_ops(sub, si, env, defs) {
                Err(er) => Err(er),
                Ok(mut v) => {
                    let tail = match op {
                        Op1::Add1 => Instr::AddOne,
                        Op1::Sub1 => Instr::SubOne,
                    };
                    v.push(tail);
                    proof {
                        assert(v@ =~= emit(*e, si as int, env_view(env@), defs_view(defs@)));
                    }
                    Ok(v)
                },
            }
        },
        Expr::BinOp(op, left, right) => {
            match compile_ops(left, si, env, defs) {
                Err(er) => Err(er),
                Ok(mut v) => {
                    let off: u64 = 8 * si;
                    v.push(Instr::StoreSlot(off));
                    match compile_ops(right, si + 1, env, defs) {
                        Err(er) => Err(er),
                        Ok(mut v2) => {
                            v.append(&mut v2);
                            match op {
                                Op2::Plus => v.push(Instr::AddSlot(off)),
                                Op2::Times => v.push(Instr::MulSlot(off)),
                                Op2::Minus => {
                                    let off2: u64 = 8 * (si + 1);
                                    v.push(Instr::StoreSlot(off2));
                                    v.push(Instr::LoadSlot(off));
                                    v.push(Instr::SubSlot(off2));
                                },
                            }
                            proof {
                                assert(v@ =~= emit(*e, si as int, env_view(env@), defs_view(
                                    defs@,
                                )));
                            }
                            Ok(v)
                        },
                    }
                },
            }
        },
        Expr::Let(binds, body) => {
            proof {
                lemma_binds_count_le_size(*binds);
            }
            let mut env2 = clone_env(env);
            match compile_binds(binds, si, &mut env2, defs) {
                Err(er) => Err(er),
                Ok((mut v, si2)) => {
                    proof {
                        lemma_bind_env_names(*binds, si as int, env_view(env@));
                    }
                    match compile_ops(body, si2, &env2, defs) {
                        Err(er) => Err(er),
                        Ok(mut v2) => {
                            v.append(&mut v2);
                            proof {
                                assert(v@ =~= emit(*e, si as int, env_view(env@), defs_view(
                                    defs@,
                                )));
                            }
                            Ok(v)
                        },
                    }
                },
            }
        },
        Expr::Define(x, sub) => {
            match lookup_defined(defs, x) {
                Some(_) => Err(CompileError::DuplicateTopLevelDefinitionError),
                None => compile_ops(sub, si, env, defs),
            }
        },
    }
}

/// Compiles a binding list: appends each binding's code and store, and
/// extends the environment with the fresh slot, leaving the stack index
/// just past the last binding.
pub fn compile_binds(
    binds: &Binds,
    si: u64,
    env: &mut Vec<(String, u64)>,
    defs: &Vec<(String, i64)>,
) -> (r: Result<(Vec<Instr>, u64), CompileError>)
    requires
        si + binds_size(*binds) <= MAX_STACK_INDEX,
    ensures
        (r is Ok) == binds_ok(*binds, env_names(env_view(old(env)@)), defs_view(defs@)),
        r matches Ok(p) ==> p.0@ == emit_binds(*binds, si as int, env_view(old(env)@), defs_view(
            defs@,
        )) && p.1 == si + binds_count(*binds) && env_view(final(env)@) == bind_env(
            *binds,
            si as int,
            env_view(old(env)@),
        ),
        r matches Err(er) ==> er == binds_err(*binds, env_names(env_view(old(env)@)), defs_view(
            defs@,
        )),
    decreases *binds,
{
    match binds {
        Binds::Nil => Ok((Vec::new(), si)),
        Binds::Cons(x, e1, rest) => {
            match compile_ops(e1, si, env, defs) {
                Err(er) => Err(er),
                Ok(mut v) => {
                    let off: u64 = 8 * si;
                    v.push(Instr::StoreSlot(off));
                    env.push((x.clone(), off));
                    proof {
                        assert(env_view(env@) =~~= env_view(old(env)@).push((x@, off)));
                        assert(env_names(env_view(env@)) =~~= env_names(env_view(old(env)@)).push(
                            x@,
                        ));
                    }
                    match compile_binds(rest, si + 1, env, defs) {
                        Err(er) => Err(er),
                        Ok((mut v2, si2)) => {
                            v.append(&mut v2);
                            proof {
                                assert(v@ =~= emit_binds(*binds, si as int, env_view(old(env)@),
                                    defs_view(defs@)));
                            }
                            Ok((v, si2))
                        },
                    }
                },
            }
        },
    }
}

} // verus!
