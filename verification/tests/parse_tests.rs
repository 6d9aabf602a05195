use adderc::ast::{Binds, CompileError, Expr, Form, Op1, Op2};
use adderc::parser::{parse_bind, parse_expr};

fn fint(n: i64) -> Form {
    Form::Int(n)
}

fn fsym(s: &str) -> Form {
    Form::Sym(s.to_string())
}

fn flist(items: Vec<Form>) -> Form {
    Form::List(items)
}

fn parse(f: &Form, interactive: bool) -> Result<Expr, CompileError> {
    let mut cnt: u32 = 0;
    parse_expr(f, &mut cnt, interactive)
}

#[test]
fn atoms_parse_to_leaves() {
    assert_eq!(parse(&fint(7), false), Ok(Expr::Number(7)));
    assert_eq!(parse(&fsym("abc"), false), Ok(Expr::Id("abc".to_string())));
}

#[test]
fn unary_forms_parse() {
    let f = flist(vec![fsym("add1"), fint(4)]);
    assert_eq!(
        parse(&f, false),
        Ok(Expr::UnOp(Op1::Add1, Box::new(Expr::Number(4))))
    );
    let g = flist(vec![fsym("sub1"), fint(4)]);
    assert_eq!(
        parse(&g, false),
        Ok(Expr::UnOp(Op1::Sub1, Box::new(Expr::Number(4))))
    );
}

#[test]
fn binary_forms_parse() {
    let f = flist(vec![fsym("-"), fint(10), fint(3)]);
    assert_eq!(
        parse(&f, false),
        Ok(Expr::BinOp(
            Op2::Minus,
            Box::new(Expr::Number(10)),
            Box::new(Expr::Number(3))
        ))
    );
}

#[test]
fn let_form_parses_with_sequential_bindings() {
    // (let ((a 5) (b (+ a 1))) (* a b))
    let f = flist(vec![
        fsym("let"),
        flist(vec![
            flist(vec![fsym("a"), fint(5)]),
            flist(vec![fsym("b"), flist(vec![fsym("+"), fsym("a"), fint(1)])]),
        ]),
        flist(vec![fsym("*"), fsym("a"), fsym("b")]),
    ]);
    let expected = Expr::Let(
        Binds::Cons(
            "a".to_string(),
            Box::new(Expr::Number(5)),
            Box::new(Binds::Cons(
                "b".to_string(),
                Box::new(Expr::BinOp(
                    Op2::Plus,
                    Box::new(Expr::Id("a".to_string())),
                    Box::new(Expr::Number(1)),
                )),
                Box::new(Binds::Nil),
            )),
        ),
        Box::new(Expr::BinOp(
            Op2::Times,
            Box::new(Expr::Id("a".to_string())),
            Box::new(Expr::Id("b".to_string())),
        )),
    );
    assert_eq!(parse(&f, false), Ok(expected));
}

#[test]
fn duplicate_binding_in_one_let_is_rejected() {
    // (let ((x 1) (x 2)) x) -> DuplicateBindingError, not 2
    let f = flist(vec![
        fsym("let"),
        flist(vec![
            flist(vec![fsym("x"), fint(1)]),
            flist(vec![fsym("x"), fint(2)]),
        ]),
        fsym("x"),
    ]);
    assert_eq!(parse(&f, false), Err(CompileError::DuplicateBindingError));
    assert_eq!(parse(&f, true), Err(CompileError::DuplicateBindingError));
}

#[test]
fn parse_bind_rejects_a_repeated_name() {
    let bindings = vec![
        flist(vec![fsym("x"), fint(1)]),
        flist(vec![fsym("x"), fint(2)]),
    ];
    let mut cnt: u32 = 0;
    assert_eq!(
        parse_bind(&bindings, &mut cnt, false),
        Err(CompileError::DuplicateBindingError)
    );
}

#[test]
fn parse_bind_accepts_distinct_names() {
    let bindings = vec![
        flist(vec![fsym("x"), fint(1)]),
        flist(vec![fsym("y"), fint(2)]),
    ];
    let mut cnt: u32 = 0;
    let b = parse_bind(&bindings, &mut cnt, false).unwrap();
    assert_eq!(
        b,
        Binds::Cons(
            "x".to_string(),
            Box::new(Expr::Number(1)),
            Box::new(Binds::Cons(
                "y".to_string(),
                Box::new(Expr::Number(2)),
                Box::new(Binds::Nil)
            ))
        )
    );
}

#[test]
fn define_is_rejected_outside_interactive_mode() {
    let f = flist(vec![fsym("define"), fsym("x"), fint(41)]);
    assert_eq!(parse(&f, false), Err(CompileError::MultipleDefinitionError));
}

#[test]
fn define_parses_in_interactive_mode() {
    let f = flist(vec![fsym("define"), fsym("x"), fint(41)]);
    assert_eq!(
        parse(&f, true),
        Ok(Expr::Define("x".to_string(), Box::new(Expr::Number(41))))
    );
}

#[test]
fn a_second_define_in_one_unit_is_rejected() {
    // (define x (define y 1)): the counter is shared across the tree
    let f = flist(vec![
        fsym("define"),
        fsym("x"),
        flist(vec![fsym("define"), fsym("y"), fint(1)]),
    ]);
    assert_eq!(parse(&f, true), Err(CompileError::MultipleDefinitionError));
}

#[test]
fn malformed_shapes_are_syntax_errors() {
    // wrong arity
    assert_eq!(
        parse(&flist(vec![fsym("+"), fint(1)]), false),
        Err(CompileError::SyntaxError)
    );
    // unknown head
    assert_eq!(
        parse(&flist(vec![fsym("frob"), fint(1)]), false),
        Err(CompileError::SyntaxError)
    );
    // empty list
    assert_eq!(parse(&flist(vec![]), false), Err(CompileError::SyntaxError));
    // let bindings not a list
    assert_eq!(
        parse(&flist(vec![fsym("let"), fsym("x"), fint(1)]), false),
        Err(CompileError::SyntaxError)
    );
    // binding pair that is not (name expr)
    assert_eq!(
        parse(
            &flist(vec![
                fsym("let"),
                flist(vec![flist(vec![fint(1), fint(2)])]),
                fint(3),
            ]),
            false
        ),
        Err(CompileError::SyntaxError)
    );
    // define of a non-symbol
    assert_eq!(
        parse(
            &flist(vec![fsym("define"), flist(vec![fsym("x")]), fint(1)]),
            true
        ),
        Err(CompileError::SyntaxError)
    );
}
