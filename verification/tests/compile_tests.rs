use adderc::ast::{Binds, CompileError, Expr, Op1, Op2};
use adderc::codegen::compile_ops;
use adderc::machine::{run_instrs, Instr};
use adderc::render::{compile_expr, program_text};
use adderc::semantics::eval_expr;

fn num(n: i64) -> Expr {
    Expr::Number(n)
}

fn id(s: &str) -> Expr {
    Expr::Id(s.to_string())
}

fn add1(e: Expr) -> Expr {
    Expr::UnOp(Op1::Add1, Box::new(e))
}

fn sub1(e: Expr) -> Expr {
    Expr::UnOp(Op1::Sub1, Box::new(e))
}

fn bin(op: Op2, a: Expr, b: Expr) -> Expr {
    Expr::BinOp(op, Box::new(a), Box::new(b))
}

fn cons(name: &str, e: Expr, rest: Binds) -> Binds {
    Binds::Cons(name.to_string(), Box::new(e), Box::new(rest))
}

fn let_expr(binds: Binds, body: Expr) -> Expr {
    Expr::Let(binds, Box::new(body))
}

fn compile_and_run(e: &Expr) -> i64 {
    let env: Vec<(String, u64)> = Vec::new();
    let defs: Vec<(String, i64)> = Vec::new();
    let code = compile_ops(e, 2, &env, &defs).expect("expected the expression to compile");
    run_instrs(&code)
}

fn interpret(e: &Expr) -> Result<i64, CompileError> {
    let env: Vec<(String, i64)> = Vec::new();
    let defs: Vec<(String, i64)> = Vec::new();
    eval_expr(e, &env, &defs)
}

#[test]
fn number_compiles_to_itself() {
    assert_eq!(compile_and_run(&num(131)), 131);
    assert_eq!(compile_and_run(&num(-7)), -7);
}

#[test]
fn unary_ops_adjust_by_one() {
    assert_eq!(compile_and_run(&add1(num(41))), 42);
    assert_eq!(compile_and_run(&sub1(num(0))), -1);
}

#[test]
fn subtraction_order_is_preserved() {
    // (- 10 3) is 7, not -7: the left operand is the minuend
    assert_eq!(compile_and_run(&bin(Op2::Minus, num(10), num(3))), 7);
}

#[test]
fn arithmetic_matches_the_interpreter() {
    let exprs = vec![
        bin(Op2::Plus, num(2), num(3)),
        bin(Op2::Times, bin(Op2::Minus, num(9), num(4)), num(6)),
        add1(bin(Op2::Times, num(-3), num(5))),
        let_expr(
            cons("x", num(10), Binds::Nil),
            bin(Op2::Minus, id("x"), num(1)),
        ),
    ];
    for e in &exprs {
        assert_eq!(compile_and_run(e), interpret(e).unwrap());
    }
}

#[test]
fn let_star_scoping_sees_earlier_bindings() {
    // (let ((a 5) (b (+ a 1))) (* a b)) evaluates to 30
    let e = let_expr(
        cons(
            "a",
            num(5),
            cons("b", bin(Op2::Plus, id("a"), num(1)), Binds::Nil),
        ),
        bin(Op2::Times, id("a"), id("b")),
    );
    assert_eq!(compile_and_run(&e), 30);
    assert_eq!(interpret(&e).unwrap(), 30);
}

#[test]
fn shadowing_inner_let_wins() {
    // (let ((x 1)) (let ((x 2)) x)) -> 2; distinct lists, so no duplicate
    let e = let_expr(
        cons("x", num(1), Binds::Nil),
        let_expr(cons("x", num(2), Binds::Nil), id("x")),
    );
    assert_eq!(compile_and_run(&e), 2);
}

#[test]
fn unbound_variable_is_an_error_when_compiling() {
    let env: Vec<(String, u64)> = Vec::new();
    let defs: Vec<(String, i64)> = Vec::new();
    assert_eq!(
        compile_ops(&id("y"), 2, &env, &defs),
        Err(CompileError::UnboundVariableError)
    );
    assert_eq!(interpret(&id("y")), Err(CompileError::UnboundVariableError));
}

#[test]
fn compiling_twice_yields_identical_code() {
    let e = let_expr(
        cons("a", num(5), cons("b", add1(id("a")), Binds::Nil)),
        bin(Op2::Times, id("a"), id("b")),
    );
    let env: Vec<(String, u64)> = Vec::new();
    let defs: Vec<(String, i64)> = Vec::new();
    let c1 = compile_ops(&e, 2, &env, &defs).unwrap();
    let c2 = compile_ops(&e, 2, &env, &defs).unwrap();
    assert_eq!(c1, c2);
    let t1 = compile_expr(&e, 2, &env, &defs).unwrap();
    let t2 = compile_expr(&e, 2, &env, &defs).unwrap();
    assert_eq!(t1, t2);
}

#[test]
fn wrapping_addition_at_the_boundary() {
    let e = add1(num(i64::MAX));
    assert_eq!(compile_and_run(&e), i64::MIN);
    assert_eq!(interpret(&e).unwrap(), i64::MIN);
}

#[test]
fn assembly_text_for_subtraction() {
    let env: Vec<(String, u64)> = Vec::new();
    let defs: Vec<(String, i64)> = Vec::new();
    let text = compile_expr(&bin(Op2::Minus, num(10), num(3)), 2, &env, &defs).unwrap();
    assert_eq!(
        text,
        "mov rax, 10\n\
         mov [rsp - 16], rax\n\
         mov rax, 3\n\
         mov [rsp - 24], rax\n\
         mov rax, [rsp - 16]\n\
         sub rax, [rsp - 24]\n"
    );
}

#[test]
fn assembly_text_renders_negative_immediates() {
    let env: Vec<(String, u64)> = Vec::new();
    let defs: Vec<(String, i64)> = Vec::new();
    let text = compile_expr(&num(-205), 2, &env, &defs).unwrap();
    assert_eq!(text, "mov rax, -205\n");
}

#[test]
fn assembly_program_wraps_the_listing() {
    let p = program_text("mov rax, 5\n");
    assert_eq!(
        p,
        "section .text\nglobal our_code_starts_here\nour_code_starts_here:\nmov rax, 5\nret\n"
    );
}

#[test]
fn generated_instructions_for_a_number() {
    let env: Vec<(String, u64)> = Vec::new();
    let defs: Vec<(String, i64)> = Vec::new();
    let code = compile_ops(&num(5), 2, &env, &defs).unwrap();
    assert_eq!(code, vec![Instr::MovImm(5)]);
}

#[test]
fn unbound_error_is_reported_even_with_other_bindings() {
    // (let ((x 1)) (+ x z)) -> unbound z
    let e = let_expr(
        cons("x", num(1), Binds::Nil),
        bin(Op2::Plus, id("x"), id("z")),
    );
    let env: Vec<(String, u64)> = Vec::new();
    let defs: Vec<(String, i64)> = Vec::new();
    assert_eq!(
        compile_ops(&e, 2, &env, &defs),
        Err(CompileError::UnboundVariableError)
    );
}
