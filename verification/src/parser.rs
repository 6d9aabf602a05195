//! The AST builder and validator: turns a generic parenthesized-list
//! form into an expression, rejecting malformed shapes, duplicate
//! names in one `let` binding list, and any second (or non-interactive)
//! `define` in the same parsed unit.
//!
//! The definitions-seen counter is shared across the whole unit, so a
//! `define` nested anywhere still counts toward the one-per-unit limit.
use crate::ast::{Binds, CompileError, Expr, Form, Op1, Op2};
use vstd::prelude::*;
use vstd::string::StringExecFns;

verus! {

/// What building an expression from a form yields: the expression and
/// the definitions-seen counter after it, or the first error met.
pub open spec fn parse_form(f: Form, cnt: int, interactive: bool) -> Result<
    (Expr, int),
    CompileError,
>
    decreases f, 0nat,
{
    match f {
        Form::Int(n) => Ok((Expr::Number(n), cnt)),
        Form::Sym(s) => Ok((Expr::Id(s), cnt)),
        Form::List(items) => parse_list(items@, cnt, interactive),
    }
}

/// Dispatch over the shape of a list form.
pub open spec fn parse_list(items: Seq<Form>, cnt: int, interactive: bool) -> Result<
    (Expr, int),
    CompileError,
>
    decreases items, 0nat,
{
    if items.len() == 2 {
        match items[0] {
            Form::Sym(op) => if op@ == "add1"@ || op@ == "sub1"@ {
                let o = if op@ == "add1"@ {
                    Op1::Add1
                } else {
                    Op1::Sub1
                };
                match parse_form(items[1], cnt, interactive) {
                    Err(er) => Err(er),
                    Ok((sub, c1)) => Ok((Expr::UnOp(o, Box::new(sub)), c1)),
                }
            } else {
                Err(CompileError::SyntaxError)
            },
            _ => Err(CompileError::SyntaxError),
        }
    } else if items.len() == 3 {
        match items[0] {
            Form::Sym(op) => if op@ == "+"@ || op@ == "-"@ || op@ == "*"@ {
                let o = if op@ == "+"@ {
                    Op2::Plus
                } else if op@ == "-"@ {
                    Op2::Minus
                } else {
                    Op2::Times
                };
                match parse_form(items[1], cnt, interactive) {
                    Err(er) => Err(er),
                    Ok((e1, c1)) => match parse_form(items[2], c1, interactive) {
                        Err(er) => Err(er),
                        Ok((e2, c2)) => Ok((Expr::BinOp(o, Box::new(e1), Box::new(e2)), c2)),
                    },
                }
            } else if op@ == "define"@ {
                match items[1] {
                    Form::Sym(name) => if cnt >= 1 || !interactive {
                        Err(CompileError::MultipleDefinitionError)
                    } else {
                        match parse_form(items[2], cnt + 1, interactive) {
                            Err(er) => Err(er),
                            Ok((sub, c1)) => Ok((Expr::Define(name, Box::new(sub)), c1)),
                        }
                    },
                    _ => Err(CompileError::SyntaxError),
                }
            } else if op@ == "let"@ {
                match items[1] {
                    Form::List(bs) => match parse_binds(bs@, 0, Seq::empty(), cnt, interactive) {
                        Err(er) => Err(er),
                        Ok((binds, c1)) => match parse_form(items[2], c1, interactive) {
                            Err(er) => Err(er),
                            Ok((body, c2)) => Ok((Expr::Let(binds, Box::new(body)), c2)),
                        },
                    },
                    _ => Err(CompileError::SyntaxError),
                }
            } else {
                Err(CompileError::SyntaxError)
            },
            _ => Err(CompileError::SyntaxError),
        }
    } else {
        Err(CompileError::SyntaxError)
    }
}

/// Builds a binding list from index `i` on, under the names already
/// seen in the same list: each binding must be a two-element list of a
/// symbol and a form, and a name already seen is a duplicate binding.
pub open spec fn parse_binds(
    bs: Seq<Form>,
    i: int,
    seen: Seq<Seq<char>>,
    cnt: int,
    interactive: bool,
) -> Result<(Binds, int), CompileError>
    decreases bs, bs.len() - i,
{
    if i < 0 || i >= bs.len() {
        Ok((Binds::Nil, cnt))
    } else {
        match bs[i] {
            Form::List(pair) => if pair@.len() == 2 {
                match pair@[0] {
                    Form::Sym(name) => if seen.contains(name@) {
                        Err(CompileError::DuplicateBindingError)
                    } else {
                        match parse_form(pair@[1], cnt, interactive) {
                            Err(er) => Err(er),
                            Ok((e1, c1)) => match parse_binds(
                                bs,
                                i + 1,
                                seen.push(name@),
                                c1,
                                interactive,
                            ) {
                                Err(er) => Err(er),
                                Ok((rest, c2)) => Ok(
                                    (Binds::Cons(name, Box::new(e1), Box::new(rest)), c2),
                                ),
                            },
                        }
                    },
                    _ => Err(CompileError::SyntaxError),
                }
            } else {
                Err(CompileError::SyntaxError)
            },
            _ => Err(CompileError::SyntaxError),
        }
    }
}

/// The views of the names seen so far in a binding list.
pub open spec fn seen_view(seen: Seq<String>) -> Seq<Seq<char>> {
    seen.map_values(|x: String| x@)
}

/// Compares a parsed symbol against a keyword.
fn sym_is(s: &String, w: &str) -> (r: bool)
    ensures
        r == (s@ == w@),
{
    let t: String = w.to_owned();
    *s == t
}

/// Is this name among those already seen?
fn contains_name(seen: &Vec<String>, x: &String) -> (r: bool)
    ensures
        r == seen_view(seen@).contains(x@),
{
    let mut j: usize = 0;
    while j < seen.len()
        invariant
            j <= seen@.len(),
            forall|k: int| 0 <= k < j ==> seen_view(seen@)[k] != x@,
        decreases seen@.len() - j,
    {
        if seen[j] == *x {
            assert(seen_view(seen@)[j as int] == x@);
            return true;
        }
        j = j + 1;
    }
    false
}

/// Builds and validates one expression from a parenthesized-list form.
/// Exactly `parse_form`: the same expression, the same final counter
/// on success, and the same first error otherwise.
#[verifier::rlimit(100)]
pub fn parse_expr(f: &Form, define_cnt: &mut u32, interactive: bool) -> (r: Result<
    Expr,
    CompileError,
>)
    ensures
        (r is Ok) == (parse_form(*f, *old(define_cnt) as int, interactive) is Ok),
        r matches Ok(e) ==> parse_form(*f, *old(define_cnt) as int, interactive) == Ok::<
            _,
            CompileError,
        >((e, *final(define_cnt) as int)),
        r matches Err(er) ==> parse_form(*f, *old(define_cnt) as int, interactive) == Err::<
            (Expr, int),
            _,
        >(er),
    decreases *f, 0nat,
{
    match f {
        Form::Int(n) => Ok(Expr::Number(*n)),
        Form::Sym(s) => Ok(Expr::Id(s.clone())),
        Form::List(items) => {
            if items.len() == 2 {
                match &items[0] {
                    Form::Sym(op) => {
                        if sym_is(op, "add1") || sym_is(op, "sub1") {
                            let o = if sym_is(op, "add1") {
                                Op1::Add1
                            } else {
                                Op1::Sub1
                            };
                            match parse_expr(&items[1], define_cnt, interactive) {
                                Err(er) => Err(er),
                                Ok(sub) => Ok(Expr::UnOp(o, Box::new(sub))),
                            }
                        } else {
                            Err(CompileError::SyntaxError)
                        }
                    },
                    _ => Err(CompileError::SyntaxError),
                }
            } else if items.len() == 3 {
                match &items[0] {
                    Form::Sym(op) => {
                        if sym_is(op, "+") || sym_is(op, "-") || sym_is(op, "*") {
                            let o = if sym_is(op, "+") {
                                Op2::Plus
                            } else if sym_is(op, "-") {
                                Op2::Minus
                            } else {
                                Op2::Times
                            };
                            match parse_expr(&items[1], define_cnt, interactive) {
                                Err(er) => Err(er),
                                Ok(e1) => match parse_expr(&items[2], define_cnt, interactive) {
                                    Err(er) => Err(er),
                                    Ok(e2) => Ok(Expr::BinOp(o, Box::new(e1), Box::new(e2))),
                                },
                            }
                        } else if sym_is(op, "define") {
                            match &items[1] {
                                Form::Sym(name) => {
                                    if *define_cnt >= 1 || !interactive {
                                        Err(CompileError::MultipleDefinitionError)
                                    } else {
                                        *define_cnt = *define_cnt + 1;
                                        match parse_expr(&items[2], define_cnt, interactive) {
                                            Err(er) => Err(er),
                                            Ok(sub) => Ok(
                                                Expr::Define(name.clone(), Box::new(sub)),
                                            ),
                                        }
                                    }
                                },
                                _ => Err(CompileError::SyntaxError),
                            }
                        } else if sym_is(op, "let") {
                            match &items[1] {
                                Form::List(bs) => {
                                    let mut seen: Vec<String> = Vec::new();
                                    proof {
                                        assert(seen_view(seen@) =~= Seq::<Seq<char>>::empty());
                                    }
                                    match parse_bind_from(bs, 0, &mut seen, define_cnt,
                                        interactive) {
                                        Err(er) => Err(er),
                                        Ok(binds) => match parse_expr(&items[2], define_cnt,
                                            interactive) {
                                            Err(er) => Err(er),
                                            Ok(body) => Ok(Expr::Let(binds, Box::new(body))),
                                        },
                                    }
                                },
                                _ => Err(CompileError::SyntaxError),
                            }
                        } else {
                            Err(CompileError::SyntaxError)
                        }
                    },
                    _ => Err(CompileError::SyntaxError),
                }
            } else {
                Err(CompileError::SyntaxError)
            }
        },
    }
}

/// Builds a binding list from index `i` on, recording each accepted
/// name in `seen` so a repeated name in the same list is rejected.
pub fn parse_bind_from(
    bs: &Vec<Form>,
    i: usize,
    seen: &mut Vec<String>,
    define_cnt: &mut u32,
    interactive: bool,
) -> (r: Result<Binds, CompileError>)
    requires
        i <= bs@.len(),
    ensures
        (r is Ok) == (parse_binds(
            bs@,
            i as int,
            seen_view(old(seen)@),
            *old(define_cnt) as int,
            interactive,
        ) is Ok),
        r matches Ok(b) ==> parse_binds(
            bs@,
            i as int,
            seen_view(old(seen)@),
            *old(define_cnt) as int,
            interactive,
        ) == Ok::<_, CompileError>((b, *final(define_cnt) as int)),
        r matches Err(er) ==> parse_binds(
            bs@,
            i as int,
            seen_view(old(seen)@),
            *old(define_cnt) as int,
            interactive,
        ) == Err::<(Binds, int), _>(er),
    decreases bs@, bs@.len() - i,
{
    if i >= bs.len() {
        Ok(Binds::Nil)
    } else {
        match &bs[i] {
            Form::List(pair) => {
                if pair.len() == 2 {
                    match &pair[0] {
                        Form::Sym(name) => {
                            if contains_name(seen, name) {
                                Err(CompileError::DuplicateBindingError)
                            } else {
                                match parse_expr(&pair[1], define_cnt, interactive) {
                                    Err(er) => Err(er),
                                    Ok(e1) => {
                                        seen.push(name.clone());
                                        proof {
                                            assert(seen_view(seen@) =~~= seen_view(
                                                old(seen)@,
                                            ).push(name@));
                                        }
                                        match parse_bind_from(bs, i + 1, seen, define_cnt,
                                            interactive) {
                                            Err(er) => Err(er),
                                            Ok(rest) => Ok(
                                                Binds::Cons(
                                                    name.clone(),
                                                    Box::new(e1),
                                                    Box::new(rest),
                                                ),
                                            ),
                                        }
                                    },
                                }
                            }
                        },
                        _ => Err(CompileError::SyntaxError),
                    }
                } else {
                    Err(CompileError::SyntaxError)
                }
            },
            _ => Err(CompileError::SyntaxError),
        }
    }
}

/// Builds and validates a whole `let` binding list, as the `let` form
/// does: no name seen yet, shapes checked in order.
pub fn parse_bind(bindings: &Vec<Form>, define_cnt: &mut u32, interactive: bool) -> (r: Result<
    Binds,
    CompileError,
>)
    ensures
        (r is Ok) == (parse_binds(
            bindings@,
            0,
            Seq::empty(),
            *old(define_cnt) as int,
            interactive,
        ) is Ok),
        r matches Ok(b) ==> parse_binds(
            bindings@,
            0,
            Seq::empty(),
            *old(define_cnt) as int,
            interactive,
        ) == Ok::<_, CompileError>((b, *final(define_cnt) as int)),
        r matches Err(er) ==> parse_binds(
            bindings@,
            0,
            Seq::empty(),
            *old(define_cnt) as int,
            interactive,
        ) == Err::<(Binds, int), _>(er),
{
    let mut seen: Vec<String> = Vec::new();
    proof {
        assert(seen_view(seen@) =~= Seq::<Seq<char>>::empty());
    }
    parse_bind_from(bindings, 0, &mut seen, define_cnt, interactive)
}

} // verus!
