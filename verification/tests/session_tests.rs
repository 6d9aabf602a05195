use adderc::ast::{CompileError, Expr, Form};
use adderc::machine::run_instrs;
use adderc::parser::parse_expr;
use adderc::session::{checked_size, Session, TurnPlan, SIZE_CAP};

fn fint(n: i64) -> Form {
    Form::Int(n)
}

fn fsym(s: &str) -> Form {
    Form::Sym(s.to_string())
}

fn flist(items: Vec<Form>) -> Form {
    Form::List(items)
}

/// One interactive turn, as the driver performs it: parse, plan,
/// execute, and record a define's result.
fn turn(session: &mut Session, f: &Form) -> Result<Option<i64>, CompileError> {
    let mut cnt: u32 = 0;
    let e = parse_expr(f, &mut cnt, true)?;
    assert!(checked_size(&e) < SIZE_CAP);
    match session.plan(&e)? {
        TurnPlan::Print(v) => Ok(Some(v)),
        TurnPlan::Run(code, name) => {
            let result = run_instrs(&code);
            match name {
                Some(n) => {
                    assert!(session.record(n, result));
                    Ok(None)
                },
                None => Ok(Some(result)),
            }
        },
    }
}

#[test]
fn define_then_use_then_redefine() {
    let mut session = Session::new();

    // (define x 41): computed, recorded, not printed
    let def = flist(vec![fsym("define"), fsym("x"), fint(41)]);
    assert_eq!(turn(&mut session, &def), Ok(None));
    assert_eq!(session.defined_value(&"x".to_string()), Some(41));

    // (add1 x): prints 42
    let use_x = flist(vec![fsym("add1"), fsym("x")]);
    assert_eq!(turn(&mut session, &use_x), Ok(Some(42)));

    // a second (define x 1) in the same session is rejected, and x
    // keeps its value
    let redef = flist(vec![fsym("define"), fsym("x"), fint(1)]);
    assert_eq!(
        turn(&mut session, &redef),
        Err(CompileError::DuplicateTopLevelDefinitionError)
    );
    assert_eq!(session.defined_value(&"x".to_string()), Some(41));
}

#[test]
fn bare_defined_identifier_prints_its_stored_value() {
    let mut session = Session::new();
    let def = flist(vec![fsym("define"), fsym("v"), fint(9)]);
    assert_eq!(turn(&mut session, &def), Ok(None));
    assert_eq!(turn(&mut session, &fsym("v")), Ok(Some(9)));
}

#[test]
fn unbound_identifier_is_an_error_in_the_session_too() {
    let mut session = Session::new();
    assert_eq!(
        turn(&mut session, &fsym("nowhere")),
        Err(CompileError::UnboundVariableError)
    );
}

#[test]
fn defined_names_can_be_shadowed_by_let() {
    let mut session = Session::new();
    let def = flist(vec![fsym("define"), fsym("x"), fint(5)]);
    assert_eq!(turn(&mut session, &def), Ok(None));
    // (let ((x 2)) x) -> the lexical binding wins
    let shadow = flist(vec![
        fsym("let"),
        flist(vec![flist(vec![fsym("x"), fint(2)])]),
        fsym("x"),
    ]);
    assert_eq!(turn(&mut session, &shadow), Ok(Some(2)));
    // and the definition is untouched
    assert_eq!(turn(&mut session, &fsym("x")), Ok(Some(5)));
}

#[test]
fn record_refuses_a_duplicate_name() {
    let mut session = Session::new();
    assert!(session.record("a".to_string(), 1));
    assert!(!session.record("a".to_string(), 2));
    assert_eq!(session.defined_value(&"a".to_string()), Some(1));
}

#[test]
fn checked_size_counts_nodes() {
    let mut cnt: u32 = 0;
    let f = flist(vec![fsym("add1"), flist(vec![fsym("+"), fint(1), fint(2)])]);
    let e = parse_expr(&f, &mut cnt, false).unwrap();
    // add1, +, 1, 2
    assert_eq!(checked_size(&e), 4);
    assert_eq!(checked_size(&Expr::Number(0)), 1);
}
