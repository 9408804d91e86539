//! Small-step specification of the Brainfuck virtual machine.
//!
//! A `State` holds the whole machine configuration; `step` performs one
//! fetch-dispatch-advance iteration; `iterate` chains `n` such iterations
//! from the initial configuration.  The executable interpreter in `vm` is
//! verified against `iterate`.

use vstd::prelude::*;

verus! {

/// Length of the memory tape: a fixed array of cells, all zero at start.
pub const TAPE_LEN: usize = 30000;

/// The terminating sentinel: fetching this code ends the run normally.
/// It is not itself an instruction and is never counted.
pub const SENTINEL: u32 = 0;

/// Code of `>`: move the data pointer one cell to the right.
pub const OP_RIGHT: u32 = 62;

/// Code of `<`: move the data pointer one cell to the left.
pub const OP_LEFT: u32 = 60;

/// Code of `+`: increment the current cell, wrapping at the i64 width.
pub const OP_INC: u32 = 43;

/// Code of `-`: decrement the current cell, wrapping at the i64 width.
pub const OP_DEC: u32 = 45;

/// Code of `,`: read one input value into the current cell.
pub const OP_READ: u32 = 44;

/// Code of `.`: append the low 8 bits of the current cell to the output.
pub const OP_WRITE: u32 = 46;

/// Code of `[`: enter a loop, or skip to the matching `]` on a zero cell.
pub const OP_LOOP_OPEN: u32 = 91;

/// Code of `]`: return to the matching `[`.
pub const OP_LOOP_CLOSE: u32 = 93;

/// Value stored by `,` when the tolerant discipline finds no input left.
pub const EXHAUSTED_INPUT: i64 = -1;

/// Execution profile: selects the input discipline, whether an exhausted
/// input stream is fatal, and whether instructions are counted.
///
/// - `Host`: input is consumed oldest-first (FIFO); an exhausted stream
///   yields `EXHAUSTED_INPUT` and the run continues; instructions are
///   counted.
/// - `Guest`: input is consumed newest-first (LIFO, the sequence acts as
///   a stack); an exhausted stream is a fatal error; no count is kept.
#[derive(Clone, Copy, Debug, PartialEq, Eq, Structural)]
pub enum Profile {
    Host,
    Guest,
}

/// The kind of a fatal condition that ends a run without a result.
#[derive(Clone, Copy, Debug, PartialEq, Eq, Structural)]
pub enum ErrorKind {
    /// The sentinel is missing (the fetch would read past the program's
    /// end), or a `]` was executed with no open `[` to return to.
    MalformedProgram,
    /// The data pointer would move before cell 0 or past the last cell.
    OutOfBoundsAccess,
    /// A `,` was executed with no input left, under the strict (guest)
    /// discipline.
    InputExhausted,
    /// The caller's step limit was reached before the machine halted.
    StepLimitReached,
}

/// One machine configuration: program counter, data pointer, tape,
/// loop-return stack, remaining input, output so far, and the number of
/// instructions executed so far.
pub struct State {
    pub pc: nat,
    pub ptr: nat,
    pub mem: Seq<i64>,
    pub stack: Seq<nat>,
    pub input: Seq<i64>,
    pub output: Seq<u8>,
    pub count: nat,
}

/// What one dispatch iteration yields: a next configuration, normal
/// termination with the final output and instruction count, or a fatal
/// condition with its kind, the program counter where it arose, and the
/// output produced before it.
pub enum Outcome {
    Running { state: State },
    Done { output: Seq<u8>, count: nat },
    Failed { kind: ErrorKind, pc: nat, output: Seq<u8> },
}

/// Increment wrapping at the i64 width.
pub open spec fn wrap_inc(x: i64) -> i64 {
    if x == i64::MAX {
        i64::MIN
    } else {
        (x + 1) as i64
    }
}

/// Decrement wrapping at the i64 width.
pub open spec fn wrap_dec(x: i64) -> i64 {
    if x == i64::MIN {
        i64::MAX
    } else {
        (x - 1) as i64
    }
}

/// The low 8 bits of a cell, as written by `.`.
pub open spec fn low_byte(x: i64) -> u8 {
    (x & 0xff) as u8
}

/// Position of the `]` that closes `depth` open loops, scanning forward
/// from `i`; `None` if the scan runs past the program's end.
pub open spec fn scan(prog: Seq<u32>, i: nat, depth: nat) -> Option<nat>
    decreases prog.len() - i,
{
    if i >= prog.len() {
        None
    } else if prog[i as int] == OP_LOOP_CLOSE {
        if depth <= 1 {
            Some(i)
        } else {
            scan(prog, i + 1, (depth - 1) as nat)
        }
    } else if prog[i as int] == OP_LOOP_OPEN {
        scan(prog, i + 1, depth + 1)
    } else {
        scan(prog, i + 1, depth)
    }
}

/// The configuration a run starts from: everything zero or empty, the
/// whole input still pending.
pub open spec fn init_state(input: Seq<i64>) -> State {
    State {
        pc: 0,
        ptr: 0,
        mem: Seq::new(TAPE_LEN as nat, |i: int| 0i64),
        stack: Seq::empty(),
        input,
        output: Seq::empty(),
        count: 0,
    }
}

/// One fetch-dispatch-advance iteration from configuration `s`.
///
/// Fetching past the program's end or executing an unmatched `]` fails
/// with `MalformedProgram`; moving the pointer off the tape fails with
/// `OutOfBoundsAccess`; a code that is no instruction is a counted no-op.
pub open spec fn step(prog: Seq<u32>, profile: Profile, s: State) -> Outcome {
    if s.pc >= prog.len() {
        Outcome::Failed { kind: ErrorKind::MalformedProgram, pc: s.pc, output: s.output }
    } else {
        let op = prog[s.pc as int];
        if op == SENTINEL {
            Outcome::Done { output: s.output, count: s.count }
        } else if op == OP_RIGHT {
            if s.ptr + 1 >= TAPE_LEN {
                Outcome::Failed { kind: ErrorKind::OutOfBoundsAccess, pc: s.pc, output: s.output }
            } else {
                Outcome::Running { state: State { pc: s.pc + 1, ptr: s.ptr + 1, count: s.count + 1, ..s } }
            }
        } else if op == OP_LEFT {
            if s.ptr == 0 {
                Outcome::Failed { kind: ErrorKind::OutOfBoundsAccess, pc: s.pc, output: s.output }
            } else {
                Outcome::Running { state: State { pc: s.pc + 1, ptr: (s.ptr - 1) as nat, count: s.count + 1, ..s } }
            }
        } else if op == OP_INC {
            Outcome::Running {
                state: State {
                    pc: s.pc + 1,
                    mem: s.mem.update(s.ptr as int, wrap_inc(s.mem[s.ptr as int])),
                    count: s.count + 1,
                    ..s
                },
            }
        } else if op == OP_DEC {
            Outcome::Running {
                state: State {
                    pc: s.pc + 1,
                    mem: s.mem.update(s.ptr as int, wrap_dec(s.mem[s.ptr as int])),
                    count: s.count + 1,
                    ..s
                },
            }
        } else if op == OP_READ {
            match profile {
                Profile::Host => {
                    if s.input.len() == 0 {
                        Outcome::Running {
                            state: State {
                                pc: s.pc + 1,
                                mem: s.mem.update(s.ptr as int, EXHAUSTED_INPUT),
                                count: s.count + 1,
                                ..s
                            },
                        }
                    } else {
                        Outcome::Running {
                            state: State {
                                pc: s.pc + 1,
                                mem: s.mem.update(s.ptr as int, s.input.first()),
                                input: s.input.drop_first(),
                                count: s.count + 1,
                                ..s
                            },
                        }
                    }
                },
                Profile::Guest => {
                    if s.input.len() == 0 {
                        Outcome::Failed { kind: ErrorKind::InputExhausted, pc: s.pc, output: s.output }
                    } else {
                        Outcome::Running {
                            state: State {
                                pc: s.pc + 1,
                                mem: s.mem.update(s.ptr as int, s.input.last()),
                                input: s.input.drop_last(),
                                count: s.count + 1,
                                ..s
                            },
                        }
                    }
                },
            }
        } else if op == OP_WRITE {
            Outcome::Running {
                state: State {
                    pc: s.pc + 1,
                    output: s.output.push(low_byte(s.mem[s.ptr as int])),
                    count: s.count + 1,
                    ..s
                },
            }
        } else if op == OP_LOOP_OPEN {
            if s.mem[s.ptr as int] == 0 {
                match scan(prog, s.pc + 1, 1) {
                    Some(close) => Outcome::Running {
                        state: State { pc: close + 1, count: s.count + 1, ..s },
                    },
                    None => Outcome::Failed {
                        kind: ErrorKind::MalformedProgram,
                        pc: s.pc,
                        output: s.output,
                    },
                }
            } else {
                Outcome::Running {
                    state: State { pc: s.pc + 1, stack: s.stack.push(s.pc), count: s.count + 1, ..s },
                }
            }
        } else if op == OP_LOOP_CLOSE {
            if s.stack.len() == 0 {
                Outcome::Failed { kind: ErrorKind::MalformedProgram, pc: s.pc, output: s.output }
            } else {
                Outcome::Running {
                    state: State {
                        pc: s.stack.last(),
                        stack: s.stack.drop_last(),
                        count: s.count + 1,
                        ..s
                    },
                }
            }
        } else {
            Outcome::Running { state: State { pc: s.pc + 1, count: s.count + 1, ..s } }
        }
    }
}

/// The outcome after `n` dispatch iterations on `prog` from the initial
/// configuration over `input`; terminal outcomes are absorbing.
pub open spec fn iterate(prog: Seq<u32>, profile: Profile, input: Seq<i64>, n: nat) -> Outcome
    decreases n,
{
    if n == 0 {
        Outcome::Running { state: init_state(input) }
    } else {
        match iterate(prog, profile, input, (n - 1) as nat) {
            Outcome::Running { state } => step(prog, profile, state),
            terminal => terminal,
        }
    }
}

} // verus!
