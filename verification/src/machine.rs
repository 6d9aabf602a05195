//! The target of code generation: an accumulator machine with stack
//! slots addressed as byte offsets below the stack pointer, a spec-level
//! small-step semantics for it, and a verified executor that runs an
//! instruction sequence exactly as the semantics says.
use vstd::prelude::*;

verus! {

/// One machine operation of the single-accumulator target. `rax` is
/// the accumulator; a slot is addressed as `[rsp - off]` with `off` a
/// byte offset in word-size multiples.
#[derive(Debug, Clone, Copy, PartialEq, Eq, Structural)]
pub enum Instr {
    /// `mov rax, n`
    MovImm(i64),
    /// `mov rax, [rsp - off]`
    LoadSlot(u64),
    /// `mov [rsp - off], rax`
    StoreSlot(u64),
    /// `add rax, 1`
    AddOne,
    /// `sub rax, 1`
    SubOne,
    /// `add rax, [rsp - off]`
    AddSlot(u64),
    /// `sub rax, [rsp - off]`
    SubSlot(u64),
    /// `imul rax, [rsp - off]`
    MulSlot(u64),
}

/// The machine's state: the accumulator register and the stack slots,
/// a partial map from byte offset (below the stack pointer) to the
/// 64-bit word stored there.
pub struct MState {
    pub acc: i64,
    pub mem: Map<u64, i64>,
}

/// The machine starts with a cleared accumulator and no slot written.
pub open spec fn init_state() -> MState {
    MState { acc: 0, mem: Map::empty() }
}

/// Reading a slot that was never written yields zero; the generated
/// code only ever reads slots it has written, but the semantics is
/// total.
pub open spec fn mread(mem: Map<u64, i64>, off: u64) -> i64 {
    if mem.contains_key(off) {
        mem[off]
    } else {
        0
    }
}

/// One instruction. Arithmetic wraps, as the hardware's does.
pub open spec fn istep(s: MState, i: Instr) -> MState {
    match i {
        Instr::MovImm(n) => MState { acc: n, mem: s.mem },
        Instr::LoadSlot(off) => MState { acc: mread(s.mem, off), mem: s.mem },
        Instr::StoreSlot(off) => MState { acc: s.acc, mem: s.mem.insert(off, s.acc) },
        Instr::AddOne => MState {
            acc: vstd::wrapping::i64_specs::wrapping_add(s.acc, 1),
            mem: s.mem,
        },
        Instr::SubOne => MState {
            acc: vstd::wrapping::i64_specs::wrapping_sub(s.acc, 1),
            mem: s.mem,
        },
        Instr::AddSlot(off) => MState {
            acc: vstd::wrapping::i64_specs::wrapping_add(s.acc, mread(s.mem, off)),
            mem: s.mem,
        },
        Instr::SubSlot(off) => MState {
            acc: vstd::wrapping::i64_specs::wrapping_sub(s.acc, mread(s.mem, off)),
            mem: s.mem,
        },
        Instr::MulSlot(off) => MState {
            acc: vstd::wrapping::i64_specs::wrapping_mul(s.acc, mread(s.mem, off)),
            mem: s.mem,
        },
    }
}

/// Running a whole instruction sequence, first instruction first.
pub open spec fn irun(s: MState, code: Seq<Instr>) -> MState
    decreases code.len(),
{
    if code.len() == 0 {
        s
    } else {
        irun(istep(s, code.first()), code.drop_first())
    }
}

/// Running a concatenation is running the pieces in order.
pub proof fn lemma_irun_app(s: MState, a: Seq<Instr>, b: Seq<Instr>)
    ensures
        irun(s, a + b) == irun(irun(s, a), b),
    decreases a.len(),
{
    if a.len() == 0 {
        assert(a + b =~= b);
    } else {
        assert((a + b).first() == a.first());
        assert((a + b).drop_first() =~= a.drop_first() + b);
        lemma_irun_app(istep(s, a.first()), a.drop_first(), b);
    }
}

/// An instruction the executor can run: slot offsets are word-aligned
/// and small enough to index an in-memory slot array.
pub open spec fn instr_bounded(i: Instr) -> bool {
    match i {
        Instr::MovImm(_) => true,
        Instr::AddOne => true,
        Instr::SubOne => true,
        Instr::LoadSlot(off) => off % 8 == 0 && off < 0x2000_0000,
        Instr::StoreSlot(off) => off % 8 == 0 && off < 0x2000_0000,
        Instr::AddSlot(off) => off % 8 == 0 && off < 0x2000_0000,
        Instr::SubSlot(off) => off % 8 == 0 && off < 0x2000_0000,
        Instr::MulSlot(off) => off % 8 == 0 && off < 0x2000_0000,
    }
}

/// The slot array `slots` holds exactly what the semantics' slot map
/// holds: written offsets are aligned and within the array, and each
/// array entry agrees with `mread` at its offset.
pub open spec fn mem_match(slots: Seq<i64>, mem: Map<u64, i64>) -> bool {
    &&& slots.len() <= 0x2000_0000
    &&& forall|off: u64|
        mem.contains_key(off) ==> off % 8 == 0 && (off / 8) < slots.len()
    &&& forall|j: int|
        0 <= j < slots.len() ==> slots[j] == mread(mem, (8 * j) as u64)
}

/// Runs an instruction sequence on a fresh machine and returns the
/// accumulator it ends with. This is the reference executor: it does
/// step for step what the spec-level semantics does, so a test can
/// observe what generated code computes without assembling it.
pub fn run_instrs(code: &Vec<Instr>) -> (r: i64)
    requires
        forall|i: int| 0 <= i < code@.len() ==> instr_bounded(#[trigger] code@[i]),
    ensures
        r == irun(init_state(), code@).acc,
{
    let mut acc: i64 = 0;
    let mut slots: Vec<i64> = Vec::new();
    let mut i: usize = 0;
    while i < code.len()
        invariant
            forall|k: int| 0 <= k < code@.len() ==> instr_bounded(#[trigger] code@[k]),
            0 <= i <= code@.len(),
            acc == irun(init_state(), code@.take(i as int)).acc,
            mem_match(slots@, irun(init_state(), code@.take(i as int)).mem),
        decreases code@.len() - i,
    {
        let ghost pre = irun(init_state(), code@.take(i as int));
        proof {
            assert(code@.take(i as int + 1) =~= code@.take(i as int) + seq![code@[i as int]]);
            lemma_irun_app(init_state(), code@.take(i as int), seq![code@[i as int]]);
            assert(seq![code@[i as int]].drop_first() =~= Seq::<Instr>::empty());
            assert(seq![code@[i as int]].first() == code@[i as int]);
            assert(irun(pre, seq![code@[i as int]]) == istep(pre, code@[i as int])) by {
                reveal_with_fuel(irun, 2);
            }
        }
        match code[i] {
            Instr::MovImm(n) => {
                acc = n;
            },
            Instr::LoadSlot(off) => {
                let idx: usize = (off / 8) as usize;
                acc = if idx < slots.len() {
                    slots[idx]
                } else {
                    0
                };
            },
            Instr::StoreSlot(off) => {
                let idx: usize = (off / 8) as usize;
                while slots.len() <= idx
                    invariant
                        mem_match(slots@, pre.mem),
                        idx < 0x2000_0000,
                        slots@.len() <= 0x2000_0000,
                    decreases idx + 1 - slots.len(),
                {
                    slots.push(0);
                }
                slots.set(idx, acc);
                proof {
                    let m2 = pre.mem.insert(off, pre.acc);
                    assert forall|j: int| 0 <= j < slots@.len() implies slots@[j] == mread(
                        m2,
                        (8 * j) as u64,
                    ) by {
                        if j != idx as int {
                            assert((8 * j) as u64 != off);
                        }
                    }
                }
            },
            Instr::AddOne => {
                acc = acc.wrapping_add(1);
            },
            Instr::SubOne => {
                acc = acc.wrapping_sub(1);
            },
            Instr::AddSlot(off) => {
                let idx: usize = (off / 8) as usize;
                let v: i64 = if idx < slots.len() {
                    slots[idx]
                } else {
                    0
                };
                acc = acc.wrapping_add(v);
            },
            Instr::SubSlot(off) => {
                let idx: usize = (off / 8) as usize;
                let v: i64 = if idx < slots.len() {
                    slots[idx]
                } else {
                    0
                };
                acc = acc.wrapping_sub(v);
            },
            Instr::MulSlot(off) => {
                let idx: usize = (off / 8) as usize;
                let v: i64 = if idx < slots.len() {
                    slots[idx]
                } else {
                    0
                };
                acc = acc.wrapping_mul(v);
            },
        }
        i = i + 1;
    }
    proof {
        assert(code@.take(code@.len() as int) =~= code@);
    }
    acc
}

} // verus!
