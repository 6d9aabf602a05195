//! The reference semantics of the language: a spec-level evaluator
//! over a value environment, and a verified interpreter that computes
//! it. Arithmetic wraps at 64 bits, as the generated code's does.
use crate::ast::{Binds, CompileError, Expr, Op1, Op2};
use crate::codegen::{binds_err, binds_ok, binds_scope, compile_err, compile_ok, defs_view,
    lookup_def, lookup_defined};
use vstd::prelude::*;

verus! {

/// The names of a definition-style environment, in order.
pub open spec fn names_of(d: Seq<(Seq<char>, i64)>) -> Seq<Seq<char>> {
    d.map_values(|p: (Seq<char>, i64)| p.0)
}

/// A name is found in a definition environment exactly when the
/// environment holds it.
pub proof fn lemma_lookup_def_names(d: Seq<(Seq<char>, i64)>, x: Seq<char>)
    ensures
        lookup_def(d, x) is Some <==> names_of(d).contains(x),
    decreases d.len(),
{
    let names = names_of(d);
    if d.len() == 0 {
    } else if d.last().0 == x {
        assert(names[d.len() - 1] == x);
        assert(names.contains(x));
    } else {
        lemma_lookup_def_names(d.drop_last(), x);
        assert(names_of(d.drop_last()) =~= names.drop_last());
        if lookup_def(d, x) is Some {
            let i = choose|i: int| 0 <= i < names.len() - 1 && names.drop_last()[i] == x;
            assert(names[i] == x);
        }
        if names.contains(x) {
            let i = choose|i: int| 0 <= i < names.len() && names[i] == x;
            assert(i < d.len() - 1);
            assert(names.drop_last()[i] == x);
        }
    }
}

/// The map an association list denotes over a base map: entries are
/// inserted in order, so later entries shadow earlier ones and the
/// whole list shadows the base.
pub open spec fn map_of(pairs: Seq<(Seq<char>, i64)>, base: Map<Seq<char>, i64>) -> Map<
    Seq<char>,
    i64,
>
    decreases pairs.len(),
{
    if pairs.len() == 0 {
        base
    } else {
        map_of(pairs.drop_last(), base).insert(pairs.last().0, pairs.last().1)
    }
}

/// The value environment evaluation runs under: the session's
/// definitions, shadowed by the lexical bindings.
pub open spec fn venv_of(env: Seq<(Seq<char>, i64)>, defs: Seq<(Seq<char>, i64)>) -> Map<
    Seq<char>,
    i64,
> {
    map_of(env, map_of(defs, Map::empty()))
}

/// Association-list lookup agrees with the denoted map.
pub proof fn lemma_map_of_lookup(
    pairs: Seq<(Seq<char>, i64)>,
    base: Map<Seq<char>, i64>,
    x: Seq<char>,
)
    ensures
        match lookup_def(pairs, x) {
            Some(v) => map_of(pairs, base).contains_key(x) && map_of(pairs, base)[x] == v,
            None => map_of(pairs, base).contains_key(x) == base.contains_key(x) && (
            base.contains_key(x) ==> map_of(pairs, base)[x] == base[x]),
        },
    decreases pairs.len(),
{
    if pairs.len() > 0 {
        lemma_map_of_lookup(pairs.drop_last(), base, x);
    }
}

/// What an expression evaluates to under a value environment, with
/// 64-bit wrapping arithmetic. Meaningful only when every identifier
/// met is a key of the environment.
pub open spec fn eval(e: Expr, venv: Map<Seq<char>, i64>) -> i64
    decreases e,
{
    match e {
        Expr::Number(n) => n,
        Expr::Id(x) => venv[x@],
        Expr::Let(binds, body) => eval(*body, eval_binds(binds, venv)),
        Expr::UnOp(op, sub) => match op {
            Op1::Add1 => vstd::wrapping::i64_specs::wrapping_add(eval(*sub, venv), 1),
            Op1::Sub1 => vstd::wrapping::i64_specs::wrapping_sub(eval(*sub, venv), 1),
        },
        Expr::BinOp(op, left, right) => match op {
            Op2::Plus => vstd::wrapping::i64_specs::wrapping_add(
                eval(*left, venv),
                eval(*right, venv),
            ),
            Op2::Minus => vstd::wrapping::i64_specs::wrapping_sub(
                eval(*left, venv),
                eval(*right, venv),
            ),
            Op2::Times => vstd::wrapping::i64_specs::wrapping_mul(
                eval(*left, venv),
                eval(*right, venv),
            ),
        },
        Expr::Define(_, sub) => eval(*sub, venv),
    }
}

/// The value environment after a binding list: each binding's value is
/// computed under the environment accumulated so far (`let*` scoping).
pub open spec fn eval_binds(binds: Binds, venv: Map<Seq<char>, i64>) -> Map<Seq<char>, i64>
    decreases binds,
{
    match binds {
        Binds::Nil => venv,
        Binds::Cons(x, e, rest) => eval_binds(*rest, venv.insert(x@, eval(*e, venv))),
    }
}

/// A copy of a value environment, so a `let` can extend its own scope
/// without mutating its parent's.
fn clone_vals(env: &Vec<(String, i64)>) -> (r: Vec<(String, i64)>)
    ensures
        r@ == env@,
{
    let mut r: Vec<(String, i64)> = Vec::new();
    let mut i: usize = 0;
    while i < env.len()
        invariant
            i <= env@.len(),
            r@ == env@.take(i as int),
        decreases env@.len() - i,
    {
        let p = &env[i];
        r.push((p.0.clone(), p.1));
        proof {
            assert(env@.take(i as int + 1) =~= env@.take(i as int).push(env@[i as int]));
        }
        i = i + 1;
    }
    proof {
        assert(env@.take(env@.len() as int) =~= env@);
    }
    r
}

/// The reference interpreter: evaluates an expression directly, under
/// a lexical value environment and the session's definitions. It
/// accepts exactly the expressions the code generator accepts, returns
/// exactly what `eval` says, and reports exactly the generator's error
/// otherwise.
pub fn eval_expr(e: &Expr, env: &Vec<(String, i64)>, defs: &Vec<(String, i64)>) -> (r: Result<
    i64,
    CompileError,
>)
    ensures
        (r is Ok) == compile_ok(*e, names_of(defs_view(env@)), defs_view(defs@)),
        r matches Ok(v) ==> v == eval(*e, venv_of(defs_view(env@), defs_view(defs@))),
        r matches Err(er) ==> er == compile_err(*e, names_of(defs_view(env@)), defs_view(defs@)),
    decreases *e,
{
    let ghost venv = venv_of(defs_view(env@), defs_view(defs@));
    match e {
        Expr::Number(n) => Ok(*n),
        Expr::Id(x) => {
            proof {
                lemma_lookup_def_names(defs_view(env@), x@);
                lemma_map_of_lookup(defs_view(env@), map_of(defs_view(defs@), Map::empty()), x@);
                lemma_map_of_lookup(defs_view(defs@), Map::empty(), x@);
            }
            match lookup_defined(env, x) {
                Some(v) => Ok(v),
                None => match lookup_defined(defs, x) {
                    Some(v) => Ok(v),
                    None => Err(CompileError::UnboundVariableError),
                },
            }
        },
        Expr::UnOp(op, sub) => {
            match eval_expr(sub, env, defs) {
                Err(er) => Err(er),
                Ok(v) => match op {
                    Op1::Add1 => Ok(v.wrapping_add(1)),
                    Op1::Sub1 => Ok(v.wrapping_sub(1)),
                },
            }
        },
        Expr::BinOp(op, left, right) => {
            match eval_expr(left, env, defs) {
                Err(er) => Err(er),
                Ok(a) => match eval_expr(right, env, defs) {
                    Err(er) => Err(er),
                    Ok(b) => match op {
                        Op2::Plus => Ok(a.wrapping_add(b)),
                        Op2::Minus => Ok(a.wrapping_sub(b)),
                        Op2::Times => Ok(a.wrapping_mul(b)),
                    },
                },
            }
        },
        Expr::Let(binds, body) => {
            let mut env2 = clone_vals(env);
            match eval_binds_exec(binds, &mut env2, defs) {
                Err(er) => Err(er),
                Ok(()) => eval_expr(body, &env2, defs),
            }
        },
        Expr::Define(x, sub) => {
            match lookup_defined(defs, x) {
                Some(_) => Err(CompileError::DuplicateTopLevelDefinitionError),
                None => eval_expr(sub, env, defs),
            }
        },
    }
}

/// Evaluates a binding list in order, pushing each computed binding
/// onto the environment it extends.
fn eval_binds_exec(binds: &Binds, env: &mut Vec<(String, i64)>, defs: &Vec<(String, i64)>) -> (r:
    Result<(), CompileError>)
    ensures
        (r is Ok) == binds_ok(*binds, names_of(defs_view(old(env)@)), defs_view(defs@)),
        r is Ok ==> venv_of(defs_view(final(env)@), defs_view(defs@)) == eval_binds(
            *binds,
            venv_of(defs_view(old(env)@), defs_view(defs@)),
        ) && names_of(defs_view(final(env)@)) == binds_scope(
            *binds,
            names_of(defs_view(old(env)@)),
        ),
        r matches Err(er) ==> er == binds_err(*binds, names_of(defs_view(old(env)@)), defs_view(
            defs@,
        )),
    decreases *binds,
{
    match binds {
        Binds::Nil => Ok(()),
        Binds::Cons(x, e1, rest) => {
            match eval_expr(e1, env, defs) {
                Err(er) => Err(er),
                Ok(v) => {
                    env.push((x.clone(), v));
                    proof {
                        assert(defs_view(env@) =~~= defs_view(old(env)@).push((x@, v)));
                        assert(names_of(defs_view(env@)) =~~= names_of(defs_view(old(env)@)).push(
                            x@,
                        ));
                        assert(defs_view(env@).drop_last() =~= defs_view(old(env)@));
                        assert(venv_of(defs_view(env@), defs_view(defs@)) == venv_of(
                            defs_view(old(env)@),
                            defs_view(defs@),
                        ).insert(x@, v));
                    }
                    eval_binds_exec(rest, env, defs)
                },
            }
        },
    }
}

} // verus!
