//! The textual emission target: renders a generated instruction
//! sequence as assembly text, one instruction per line, with stack
//! slots addressed as negative byte offsets from the stack pointer.
//! Number rendering is verified against a spec-level decimal form.
use crate::ast::{CompileError, Expr, expr_size};
use crate::codegen::{MAX_STACK_INDEX, compile_err, compile_ok, compile_ops, defs_view, emit,
    env_names, env_view};
use crate::machine::Instr;
use vstd::prelude::*;
use vstd::string::StringExecFns;

verus! {

/// The decimal digit character for a value below ten.
pub open spec fn dec_digit(d: int) -> char {
    if d == 0 {
        '0'
    } else if d == 1 {
        '1'
    } else if d == 2 {
        '2'
    } else if d == 3 {
        '3'
    } else if d == 4 {
        '4'
    } else if d == 5 {
        '5'
    } else if d == 6 {
        '6'
    } else if d == 7 {
        '7'
    } else if d == 8 {
        '8'
    } else {
        '9'
    }
}

/// The decimal rendering of a natural number, most significant digit
/// first, with no leading zeros (a lone zero for zero).
pub open spec fn dec_nat(n: nat) -> Seq<char>
    decreases n,
{
    if n < 10 {
        seq![dec_digit(n as int)]
    } else {
        dec_nat(n / 10).push(dec_digit((n % 10) as int))
    }
}

/// The decimal rendering of a signed number: a minus sign before the
/// magnitude when negative.
pub open spec fn dec_i64(n: int) -> Seq<char> {
    if n < 0 {
        seq!['-'] + dec_nat((-n) as nat)
    } else {
        dec_nat(n as nat)
    }
}

/// One digit as a string slice.
fn digit_str(d: u64) -> (r: &'static str)
    requires
        d < 10,
    ensures
        r@ == seq![dec_digit(d as int)],
{
    proof {
        reveal_strlit("0");
        reveal_strlit("1");
        reveal_strlit("2");
        reveal_strlit("3");
        reveal_strlit("4");
        reveal_strlit("5");
        reveal_strlit("6");
        reveal_strlit("7");
        reveal_strlit("8");
        reveal_strlit("9");
    }
    if d == 0 {
        "0"
    } else if d == 1 {
        "1"
    } else if d == 2 {
        "2"
    } else if d == 3 {
        "3"
    } else if d == 4 {
        "4"
    } else if d == 5 {
        "5"
    } else if d == 6 {
        "6"
    } else if d == 7 {
        "7"
    } else if d == 8 {
        "8"
    } else {
        "9"
    }
}

/// Renders an unsigned number in decimal.
fn u64_dec(n: u64) -> (s: String)
    ensures
        s@ == dec_nat(n as nat),
    decreases n,
{
    if n < 10 {
        digit_str(n).to_owned()
    } else {
        let mut s = u64_dec(n / 10);
        s.append(digit_str(n % 10));
        proof {
            assert(dec_nat(n as nat) =~= dec_nat((n / 10) as nat) + seq![
                dec_digit((n % 10) as int),
            ]);
        }
        s
    }
}

/// Renders a signed number in decimal.
fn i64_dec(n: i64) -> (s: String)
    ensures
        s@ == dec_i64(n as int),
{
    if n >= 0 {
        u64_dec(n as u64)
    } else {
        let m: u64 = (-(n as i128)) as u64;
        let mut s: String = String::from_str("-");
        let mag = u64_dec(m);
        s.append(mag.as_str());
        proof {
            reveal_strlit("-");
            assert("-"@ =~= seq!['-']);
        }
        s
    }
}

/// The text of one instruction, newline-terminated.
pub open spec fn instr_text(i: Instr) -> Seq<char> {
    match i {
        Instr::MovImm(n) => "mov rax, "@ + dec_i64(n as int) + "\n"@,
        Instr::LoadSlot(off) => "mov rax, [rsp - "@ + dec_nat(off as nat) + "]\n"@,
        Instr::StoreSlot(off) => "mov [rsp - "@ + dec_nat(off as nat) + "], rax\n"@,
        Instr::AddOne => "add rax, 1\n"@,
        Instr::SubOne => "sub rax, 1\n"@,
        Instr::AddSlot(off) => "add rax, [rsp - "@ + dec_nat(off as nat) + "]\n"@,
        Instr::SubSlot(off) => "sub rax, [rsp - "@ + dec_nat(off as nat) + "]\n"@,
        Instr::MulSlot(off) => "imul rax, [rsp - "@ + dec_nat(off as nat) + "]\n"@,
    }
}

/// The text of a whole instruction sequence, in order.
pub open spec fn listing_text(code: Seq<Instr>) -> Seq<char>
    decreases code.len(),
{
    if code.len() == 0 {
        Seq::empty()
    } else {
        instr_text(code.first()) + listing_text(code.drop_first())
    }
}

/// Appending one instruction appends its line.
pub proof fn lemma_listing_push(code: Seq<Instr>, i: Instr)
    ensures
        listing_text(code.push(i)) == listing_text(code) + instr_text(i),
    decreases code.len(),
{
    if code.len() == 0 {
        assert(code.push(i).drop_first() =~= Seq::<Instr>::empty());
        assert(code.push(i).first() == i);
        assert(listing_text(code.push(i)) == instr_text(i) + listing_text(
            Seq::<Instr>::empty(),
        )) by {
            reveal_with_fuel(listing_text, 2);
        }
        assert(listing_text(code.push(i)) =~= listing_text(code) + instr_text(i));
    } else {
        assert(code.push(i).first() == code.first());
        assert(code.push(i).drop_first() =~= code.drop_first().push(i));
        lemma_listing_push(code.drop_first(), i);
        assert(listing_text(code.push(i)) =~= listing_text(code) + instr_text(i));
    }
}

/// Appends one instruction's line of text.
fn render_instr(i: &Instr, out: &mut String)
    ensures
        final(out)@ == old(out)@ + instr_text(*i),
{
    proof {
        reveal_strlit("mov rax, ");
        reveal_strlit("mov rax, [rsp - ");
        reveal_strlit("mov [rsp - ");
        reveal_strlit("], rax\n");
        reveal_strlit("]\n");
        reveal_strlit("add rax, 1\n");
        reveal_strlit("sub rax, 1\n");
        reveal_strlit("add rax, [rsp - ");
        reveal_strlit("sub rax, [rsp - ");
        reveal_strlit("imul rax, [rsp - ");
        reveal_strlit("\n");
    }
    match i {
        Instr::MovImm(n) => {
            out.append("mov rax, ");
            let d = i64_dec(*n);
            out.append(d.as_str());
            out.append("\n");
            proof {
                assert(out@ =~= old(out)@ + instr_text(*i));
            }
        },
        Instr::LoadSlot(off) => {
            out.append("mov rax, [rsp - ");
            let d = u64_dec(*off);
            out.append(d.as_str());
            out.append("]\n");
            proof {
                assert(out@ =~= old(out)@ + instr_text(*i));
            }
        },
        Instr::StoreSlot(off) => {
            out.append("mov [rsp - ");
            let d = u64_dec(*off);
            out.append(d.as_str());
            out.append("], rax\n");
            proof {
                assert(out@ =~= old(out)@ + instr_text(*i));
            }
        },
        Instr::AddOne => {
            out.append("add rax, 1\n");
            proof {
                assert(out@ =~= old(out)@ + instr_text(*i));
            }
        },
        Instr::SubOne => {
            out.append("sub rax, 1\n");
            proof {
                assert(out@ =~= old(out)@ + instr_text(*i));
            }
        },
        Instr::AddSlot(off) => {
            out.append("add rax, [rsp - ");
            let d = u64_dec(*off);
            out.append(d.as_str());
            out.append("]\n");
            proof {
                assert(out@ =~= old(out)@ + instr_text(*i));
            }
        },
        Instr::SubSlot(off) => {
            out.append("sub rax, [rsp - ");
            let d = u64_dec(*off);
            out.append(d.as_str());
            out.append("]\n");
            proof {
                assert(out@ =~= old(out)@ + instr_text(*i));
            }
        },
        Instr::MulSlot(off) => {
            out.append("imul rax, [rsp - ");
            let d = u64_dec(*off);
            out.append(d.as_str());
            out.append("]\n");
            proof {
                assert(out@ =~= old(out)@ + instr_text(*i));
            }
        },
    }
}

/// Compiles an expression to assembly text: the rendering of exactly
/// the instruction sequence `emit` gives, succeeding exactly when
/// `compile_ok` holds and reporting `compile_err` otherwise.
pub fn compile_expr(e: &Expr, si: u64, env: &Vec<(String, u64)>, defs: &Vec<(String, i64)>) -> (r:
    Result<String, CompileError>)
    requires
        si + expr_size(*e) <= MAX_STACK_INDEX,
    ensures
        (r is Ok) == compile_ok(*e, env_names(env_view(env@)), defs_view(defs@)),
        r matches Ok(s) ==> s@ == listing_text(emit(*e, si as int, env_view(env@), defs_view(defs@))),
        r matches Err(er) ==> er == compile_err(*e, env_names(env_view(env@)), defs_view(defs@)),
{
    match compile_ops(e, si, env, defs) {
        Err(er) => Err(er),
        Ok(code) => {
            let mut out = String::new();
            let mut i: usize = 0;
            while i < code.len()
                invariant
                    i <= code@.len(),
                    out@ == listing_text(code@.take(i as int)),
                decreases code@.len() - i,
            {
                render_instr(&code[i], &mut out);
                proof {
                    assert(code@.take(i as int + 1) =~= code@.take(i as int).push(code@[i as int]));
                    lemma_listing_push(code@.take(i as int), code@[i as int]);
                }
                i = i + 1;
            }
            proof {
                assert(code@.take(code@.len() as int) =~= code@);
            }
            Ok(out)
        },
    }
}

/// Wraps an instruction listing in the on-disk assembly program shape:
/// a text section, the global entry symbol, the listing, and a final
/// return.
pub fn program_text(body: &str) -> (r: String)
    ensures
        r@ == "section .text\nglobal our_code_starts_here\nour_code_starts_here:\n"@ + body@
            + "ret\n"@,
{
    let mut out: String = String::from_str(
        "section .text\nglobal our_code_starts_here\nour_code_starts_here:\n",
    );
    out.append(body);
    out.append("ret\n");
    out
}

} // verus!
