//! The interactive session's state and per-turn decisions.
//!
//! The session holds the runtime definition environment: every name a
//! `define` has bound this session, with its last computed value. Each
//! turn, `plan` decides what the driver should do for a parsed
//! expression: print a stored value directly, or execute freshly
//! generated code and — for a `define` — record the result. The driver
//! performs the execution and hands the result back to `record`.
use crate::ast::{CompileError, Expr, binds_size, expr_size};
use crate::codegen::{MAX_STACK_INDEX, compile_err, compile_ok, compile_ops, defs_view, emit,
    env_names, env_view, lookup_def, lookup_defined};
use crate::machine::Instr;
use vstd::prelude::*;

verus! {

/// Expressions the session accepts per turn: far below the generator's
/// ceiling, and checkable by the driver through `checked_size`.
pub const SIZE_CAP: u64 = 0x2000_0000;

/// What a turn should do.
pub enum TurnPlan {
    /// A bare identifier already defined this session: print its stored
    /// value directly, generating and executing nothing.
    Print(i64),
    /// Execute these instructions (with the driver's return appended);
    /// if the turn was a `define`, record the result under this name
    /// instead of printing it.
    Run(Vec<Instr>, Option<String>),
}

/// A bare identifier's stored value, if the expression is one and the
/// session defines it.
pub open spec fn stored_id(e: Expr, defs: Seq<(Seq<char>, i64)>) -> Option<i64> {
    match e {
        Expr::Id(x) => lookup_def(defs, x@),
        _ => None,
    }
}

/// The name a `define` binds, if the expression is one.
pub open spec fn define_name(e: Expr) -> Option<Seq<char>> {
    match e {
        Expr::Define(x, _) => Some(x@),
        _ => None,
    }
}

/// The view of an optional name.
pub open spec fn opt_name(o: Option<String>) -> Option<Seq<char>> {
    match o {
        Some(s) => Some(s@),
        None => None,
    }
}

/// The long-lived state of one interactive session.
pub struct Session {
    defs: Vec<(String, i64)>,
}

impl Session {
    /// The runtime definition environment the session has built up.
    pub closed spec fn view(&self) -> Seq<(Seq<char>, i64)> {
        defs_view(self.defs@)
    }

    /// A fresh session: nothing defined yet.
    pub fn new() -> (s: Session)
        ensures
            s@ == Seq::<(Seq<char>, i64)>::empty(),
    {
        let s = Session { defs: Vec::new() };
        proof {
            assert(s@ =~= Seq::<(Seq<char>, i64)>::empty());
        }
        s
    }

    /// The value stored for a name, if any.
    pub fn defined_value(&self, x: &String) -> (r: Option<i64>)
        ensures
            r == lookup_def(self@, x@),
    {
        lookup_defined(&self.defs, x)
    }

    /// Decides one turn. A bare identifier the session defines is
    /// printed from the stored value; anything else is compiled at the
    /// first free stack index, against an empty lexical scope and the
    /// session's definitions, exactly as `emit` / `compile_ok` /
    /// `compile_err` say.
    pub fn plan(&self, e: &Expr) -> (r: Result<TurnPlan, CompileError>)
        requires
            expr_size(*e) + 2 <= MAX_STACK_INDEX,
        ensures
            stored_id(*e, self@) matches Some(v) ==> r == Ok::<_, CompileError>(TurnPlan::Print(v)),
            stored_id(*e, self@) is None ==> (r is Ok) == compile_ok(
                *e,
                Seq::empty(),
                self@,
            ),
            r matches Ok(p) ==> stored_id(*e, self@) is None ==> (p matches TurnPlan::Run(
                code,
                nm,
            ) && code@ == emit(*e, 2, Seq::empty(), self@) && opt_name(nm) == define_name(*e)),
            r matches Err(er) ==> er == compile_err(*e, Seq::empty(), self@),
    {
        if let Expr::Id(x) = e {
            match lookup_defined(&self.defs, x) {
                Some(v) => {
                    return Ok(TurnPlan::Print(v));
                },
                None => {},
            }
        }
        let empty_env: Vec<(String, u64)> = Vec::new();
        proof {
            assert(env_view(empty_env@) =~= Seq::<(Seq<char>, u64)>::empty());
            assert(env_names(Seq::<(Seq<char>, u64)>::empty()) =~= Seq::<Seq<char>>::empty());
        }
        match compile_ops(e, 2, &empty_env, &self.defs) {
            Err(er) => Err(er),
            Ok(code) => {
                let nm: Option<String> = match e {
                    Expr::Define(x, _) => Some(x.clone()),
                    _ => None,
                };
                Ok(TurnPlan::Run(code, nm))
            },
        }
    }

    /// Records a `define`'s computed value. A name may be defined at
    /// most once per session: if it is already present, nothing
    /// changes and the call reports failure.
    pub fn record(&mut self, name: String, value: i64) -> (r: bool)
        ensures
            r == (lookup_def(old(self)@, name@) is None),
            r ==> final(self)@ == old(self)@.push((name@, value)),
            !r ==> final(self)@ == old(self)@,
    {
        let ghost nv = name@;
        match lookup_defined(&self.defs, &name) {
            Some(_) => false,
            None => {
                self.defs.push((name, value));
                proof {
                    assert(self@ =~~= old(self)@.push((nv, value)));
                }
                true
            },
        }
    }
}

/// The node count of an expression, capped at `SIZE_CAP`: lets an
/// unverified driver establish the generator's stack-index ceiling
/// before compiling.
pub fn checked_size(e: &Expr) -> (n: u64)
    ensures
        n == if expr_size(*e) <= SIZE_CAP {
            expr_size(*e) as u64
        } else {
            SIZE_CAP
        },
    decreases *e,
{
    match e {
        Expr::Number(_) => 1,
        Expr::Id(_) => 1,
        Expr::UnOp(_, sub) => size_add(1, checked_size(sub)),
        Expr::Define(_, sub) => size_add(1, checked_size(sub)),
        Expr::BinOp(_, left, right) => size_add(
            1,
            size_add(checked_size(left), checked_size(right)),
        ),
        Expr::Let(binds, body) => size_add(1, size_add(checked_binds(binds), checked_size(body))),
    }
}

/// The node count of a binding list, capped at `SIZE_CAP`.
pub fn checked_binds(b: &crate::ast::Binds) -> (n: u64)
    ensures
        n == if binds_size(*b) <= SIZE_CAP {
            binds_size(*b) as u64
        } else {
            SIZE_CAP
        },
    decreases *b,
{
    match b {
        crate::ast::Binds::Nil => 0,
        crate::ast::Binds::Cons(_, e, rest) => size_add(
            1,
            size_add(checked_size(e), checked_binds(rest)),
        ),
    }
}

/// Saturating addition at the cap.
fn size_add(a: u64, b: u64) -> (r: u64)
    requires
        a <= SIZE_CAP,
        b <= SIZE_CAP,
    ensures
        r == if a + b <= SIZE_CAP {
            (a + b) as u64
        } else {
            SIZE_CAP
        },
{
    let s = a + b;
    if s > SIZE_CAP {
        SIZE_CAP
    } else {
        s
    }
}

} // verus!
