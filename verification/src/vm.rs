//! The executable interpreter, verified against the small-step model.

use vstd::prelude::*;

use crate::machine::ErrorKind;
use crate::machine::Outcome;
use crate::machine::Profile;
use crate::machine::State;
use crate::machine::EXHAUSTED_INPUT;
use crate::machine::OP_DEC;
use crate::machine::OP_INC;
use crate::machine::OP_LEFT;
use crate::machine::OP_LOOP_CLOSE;
use crate::machine::OP_LOOP_OPEN;
use crate::machine::OP_READ;
use crate::machine::OP_RIGHT;
use crate::machine::OP_WRITE;
use crate::machine::SENTINEL;
use crate::machine::TAPE_LEN;
use crate::machine::iterate;
use crate::machine::low_byte;
use crate::machine::scan;
use crate::machine::step;
use crate::machine::wrap_dec;
use crate::machine::wrap_inc;

verus! {

/// What a completed run returns: the output bytes, and the number of
/// instructions executed when the profile keeps a count (`Host` does,
/// `Guest` does not).
#[derive(Debug)]
pub struct RunResult {
    pub output: Vec<u8>,
    pub instr_count: Option<u64>,
}

/// A fatal condition, reported with the program counter where it arose.
#[derive(Clone, Copy, Debug, PartialEq, Eq, Structural)]
pub struct VmError {
    pub kind: ErrorKind,
    pub pc: usize,
}

/// A fresh tape: `TAPE_LEN` cells, all zero.
fn zero_tape() -> (t: Vec<i64>)
    ensures
        t@ == Seq::new(TAPE_LEN as nat, |i: int| 0i64),
{
    let mut t: Vec<i64> = Vec::new();
    let mut n: usize = 0;
    while n < TAPE_LEN
        invariant
            n <= TAPE_LEN,
            t@.len() == n,
            forall|i: int| 0 <= i < n ==> t@[i] == 0i64,
        decreases TAPE_LEN - n,
    {
        t.push(0);
        n = n + 1;
    }
    proof {
        assert(t@ =~= Seq::new(TAPE_LEN as nat, |i: int| 0i64));
    }
    t
}

/// Increment a cell, wrapping at the i64 width.
fn cell_inc(x: i64) -> (r: i64)
    ensures
        r == wrap_inc(x),
{
    if x == i64::MAX {
        i64::MIN
    } else {
        x + 1
    }
}

/// Decrement a cell, wrapping at the i64 width.
fn cell_dec(x: i64) -> (r: i64)
    ensures
        r == wrap_dec(x),
{
    if x == i64::MIN {
        i64::MAX
    } else {
        x - 1
    }
}

/// The low 8 bits of a cell, as `.` writes them.
fn byte_of_cell(x: i64) -> (b: u8)
    ensures
        b == low_byte(x),
{
    #[verifier::truncate] ((x & 0xff) as u8)
}

/// Position of the `]` that closes the loop opened just before `start`:
/// the executable form of `scan`, rescanning the program linearly.
fn find_loop_end(program: &Vec<u32>, start: usize) -> (r: Option<usize>)
    requires
        1 <= start <= program@.len(),
    ensures
        (r matches Some(close) ==> start <= close < program@.len() && scan(
            program@,
            start as nat,
            1,
        ) == Some(close as nat)),
        (r matches None ==> scan(program@, start as nat, 1) == None::<nat>),
{
    let mut i: usize = start;
    let mut depth: usize = 1;
    loop
        invariant
            1 <= start <= i <= program@.len(),
            1 <= depth,
            depth <= i - start + 1,
            scan(program@, i as nat, depth as nat) == scan(program@, start as nat, 1nat),
        decreases program@.len() - i,
    {
        if i >= program.len() {
            return None;
        }
        let op = program[i];
        if op == OP_LOOP_CLOSE {
            if depth == 1 {
                return Some(i);
            }
            depth = depth - 1;
        } else if op == OP_LOOP_OPEN {
            depth = depth + 1;
        }
        i = i + 1;
    }
}

/// Run `program` over `inputs` under `profile`, executing at most
/// `max_steps` instructions.
///
/// On normal termination (the sentinel is fetched) the output bytes are
/// returned, together with the instruction count under the `Host`
/// profile; the count never exceeds `max_steps`.  A fatal condition is
/// reported with its kind and the program counter where it arose; if the
/// machine is still running after `max_steps` instructions with a real
/// instruction pending, the run stops with `StepLimitReached`.  The
/// contract ties every result to the small-step model `iterate`, so two
/// runs on the same program, input and profile return the same result.
pub fn run(program: &Vec<u32>, inputs: &Vec<i64>, profile: Profile, max_steps: u64) -> (r: Result<
    RunResult,
    VmError,
>)
    ensures
        (r matches Ok(res) ==> exists|n: nat|
            (#[trigger] iterate(program@, profile, inputs@, n)) matches Outcome::Done {
                output,
                count,
            } && n <= max_steps + 1 && output == res.output@ && count <= max_steps
                && res.instr_count == (if profile == Profile::Host {
                Some(count as u64)
            } else {
                None::<u64>
            })),
        (r matches Err(e) ==> (if e.kind == ErrorKind::StepLimitReached {
            (iterate(program@, profile, inputs@, max_steps as nat) matches Outcome::Running {
                state,
            } && state.pc == e.pc as nat && state.pc < program@.len() && program@[state.pc as int]
                != SENTINEL)
        } else {
            (exists|n: nat|
                (#[trigger] iterate(program@, profile, inputs@, n)) matches Outcome::Failed {
                    kind,
                    pc,
                    output,
                } && n <= max_steps + 1 && kind == e.kind && pc == e.pc as nat)
        })),
{
    let mut pc: usize = 0;
    let mut ptr: usize = 0;
    let mut mem: Vec<i64> = zero_tape();
    let mut stack: Vec<usize> = Vec::new();
    let ghost mut gstack: Seq<nat> = Seq::empty();
    let mut lo: usize = 0;
    let mut hi: usize = inputs.len();
    let mut output: Vec<u8> = Vec::new();
    let mut steps: u64 = 0;

    proof {
        assert(inputs@.subrange(0, inputs@.len() as int) =~= inputs@);
    }

    loop
        invariant
            ptr < TAPE_LEN,
            mem@.len() == TAPE_LEN,
            lo <= hi <= inputs@.len(),
            steps <= max_steps,
            gstack.len() == stack@.len(),
            forall|i: int| 0 <= i < gstack.len() ==> gstack[i] == stack@[i] as nat,
            iterate(program@, profile, inputs@, steps as nat) == (Outcome::Running {
                state: State {
                    pc: pc as nat,
                    ptr: ptr as nat,
                    mem: mem@,
                    stack: gstack,
                    input: inputs@.subrange(lo as int, hi as int),
                    output: output@,
                    count: steps as nat,
                },
            }),
        decreases max_steps - steps,
    {
        let ghost st = State {
            pc: pc as nat,
            ptr: ptr as nat,
            mem: mem@,
            stack: gstack,
            input: inputs@.subrange(lo as int, hi as int),
            output: output@,
            count: steps as nat,
        };

        if pc >= program.len() {
            proof {
                assert(iterate(program@, profile, inputs@, steps as nat + 1) == step(
                    program@,
                    profile,
                    st,
                ));
            }
            return Err(VmError { kind: ErrorKind::MalformedProgram, pc });
        }
        let op = program[pc];
        if op == SENTINEL {
            proof {
                assert(iterate(program@, profile, inputs@, steps as nat + 1) == step(
                    program@,
                    profile,
                    st,
                ));
            }
            let instr_count: Option<u64> = match profile {
                Profile::Host => Some(steps),
                Profile::Guest => None,
            };
            return Ok(RunResult { output, instr_count });
        }
        if steps == max_steps {
            return Err(VmError { kind: ErrorKind::StepLimitReached, pc });
        }

        if op == OP_RIGHT {
            if ptr + 1 >= TAPE_LEN {
                proof {
                    assert(iterate(program@, profile, inputs@, steps as nat + 1) == step(
                        program@,
                        profile,
                        st,
                    ));
                }
                return Err(VmError { kind: ErrorKind::OutOfBoundsAccess, pc });
            }
            ptr = ptr + 1;
            pc = pc + 1;
        } else if op == OP_LEFT {
            if ptr == 0 {
                proof {
                    assert(iterate(program@, profile, inputs@, steps as nat + 1) == step(
                        program@,
                        profile,
                        st,
                    ));
                }
                return Err(VmError { kind: ErrorKind::OutOfBoundsAccess, pc });
            }
            ptr = ptr - 1;
            pc = pc + 1;
        } else if op == OP_INC {
            let v = cell_inc(mem[ptr]);
            mem[ptr] = v;
            pc = pc + 1;
        } else if op == OP_DEC {
            let v = cell_dec(mem[ptr]);
            mem[ptr] = v;
            pc = pc + 1;
        } else if op == OP_READ {
            match profile {
                Profile::Host => {
                    if lo < hi {
                        let v = inputs[lo];
                        proof {
                            assert(inputs@.subrange(lo as int + 1, hi as int) =~= st
                                .input
                                .drop_first());
                            assert(v == st.input.first());
                        }
                        lo = lo + 1;
                        mem[ptr] = v;
                    } else {
                        mem[ptr] = EXHAUSTED_INPUT;
                    }
                },
                Profile::Guest => {
                    if lo < hi {
                        let v = inputs[hi - 1];
                        proof {
                            assert(inputs@.subrange(lo as int, hi as int - 1) =~= st
                                .input
                                .drop_last());
                            assert(v == st.input.last());
                        }
                        hi = hi - 1;
                        mem[ptr] = v;
                    } else {
                        proof {
                            assert(iterate(program@, profile, inputs@, steps as nat + 1) == step(
                                program@,
                                profile,
                                st,
                            ));
                        }
                        return Err(VmError { kind: ErrorKind::InputExhausted, pc });
                    }
                },
            }
            pc = pc + 1;
        } else if op == OP_WRITE {
            let b = byte_of_cell(mem[ptr]);
            output.push(b);
            pc = pc + 1;
        } else if op == OP_LOOP_OPEN {
            if mem[ptr] == 0 {
                match find_loop_end(program, pc + 1) {
                    Some(close) => {
                        pc = close + 1;
                    },
                    None => {
                        proof {
                            assert(iterate(program@, profile, inputs@, steps as nat + 1) == step(
                                program@,
                                profile,
                                st,
                            ));
                        }
                        return Err(VmError { kind: ErrorKind::MalformedProgram, pc });
                    },
                }
            } else {
                stack.push(pc);
                proof {
                    gstack = gstack.push(pc as nat);
                }
                pc = pc + 1;
            }
        } else if op == OP_LOOP_CLOSE {
            if stack.len() == 0 {
                proof {
                    assert(iterate(program@, profile, inputs@, steps as nat + 1) == step(
                        program@,
                        profile,
                        st,
                    ));
                }
                return Err(VmError { kind: ErrorKind::MalformedProgram, pc });
            }
            let ret = stack.pop().unwrap();
            proof {
                assert(ret as nat == st.stack.last());
                gstack = gstack.drop_last();
                assert(gstack =~= st.stack.drop_last());
            }
            pc = ret;
        } else {
            pc = pc + 1;
        }
        steps = steps + 1;
        proof {
            assert(iterate(program@, profile, inputs@, steps as nat) == step(
                program@,
                profile,
                st,
            ));
        }
    }
}

/// Turn raw program text into instruction codes: each byte is one code,
/// and the terminating sentinel is appended.
pub fn program_from_bytes(bytes: &Vec<u8>) -> (r: Vec<u32>)
    ensures
        r@ == bytes@.map_values(|b: u8| b as u32).push(SENTINEL),
{
    let mut r: Vec<u32> = Vec::new();
    let mut n: usize = 0;
    while n < bytes.len()
        invariant
            n <= bytes@.len(),
            r@.len() == n,
            forall|i: int| 0 <= i < n ==> r@[i] == bytes@[i] as u32,
        decreases bytes@.len() - n,
    {
        r.push(bytes[n] as u32);
        n = n + 1;
    }
    r.push(SENTINEL);
    proof {
        assert(r@ =~= bytes@.map_values(|b: u8| b as u32).push(SENTINEL));
    }
    r
}

} // verus!
