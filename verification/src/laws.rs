//! General laws of the machine, proved from the small-step model.

use vstd::prelude::*;

use crate::machine::ErrorKind;
use crate::machine::Outcome;
use crate::machine::Profile;
use crate::machine::State;
use crate::machine::OP_LOOP_CLOSE;
use crate::machine::OP_READ;
use crate::machine::iterate;

verus! {

/// Once the machine has halted or failed, further iterations change
/// nothing: terminal outcomes are absorbing.
pub proof fn lemma_terminal_stable(prog: Seq<u32>, profile: Profile, input: Seq<i64>, m: nat, n: nat)
    requires
        m <= n,
        !(iterate(prog, profile, input, m) matches Outcome::Running { .. }),
    ensures
        iterate(prog, profile, input, n) == iterate(prog, profile, input, m),
    decreases n,
{
    if n > m {
        lemma_terminal_stable(prog, profile, input, m, (n - 1) as nat);
    }
}

/// A configuration still running after `n` iterations has executed
/// exactly `n` instructions: every iteration counts once, no-op codes
/// included.
pub proof fn lemma_running_count(prog: Seq<u32>, profile: Profile, input: Seq<i64>, n: nat)
    requires
        iterate(prog, profile, input, n) matches Outcome::Running { .. },
    ensures
        iterate(prog, profile, input, n) matches Outcome::Running { state } && state.count == n,
    decreases n,
{
    if n > 0 {
        lemma_running_count(prog, profile, input, (n - 1) as nat);
    }
}

/// The instruction count of a completed run equals the number of
/// dispatch-loop iterations before the sentinel was fetched.
pub proof fn lemma_count_is_iterations(
    prog: Seq<u32>,
    profile: Profile,
    input: Seq<i64>,
    n: nat,
    output: Seq<u8>,
    count: nat,
)
    requires
        iterate(prog, profile, input, n) matches Outcome::Running { .. },
        iterate(prog, profile, input, n + 1) == (Outcome::Done { output, count }),
    ensures
        count == n,
{
    lemma_running_count(prog, profile, input, n);
}

/// Executing `]` with an empty loop-return stack fails at once with
/// `MalformedProgram`, at that very program counter and with no output
/// beyond what preceded the bracket.
pub proof fn lemma_unmatched_close_fails(
    prog: Seq<u32>,
    profile: Profile,
    input: Seq<i64>,
    n: nat,
    s: State,
)
    requires
        iterate(prog, profile, input, n) == (Outcome::Running { state: s }),
        s.pc < prog.len(),
        prog[s.pc as int] == OP_LOOP_CLOSE,
        s.stack.len() == 0,
    ensures
        iterate(prog, profile, input, n + 1) == (Outcome::Failed {
            kind: ErrorKind::MalformedProgram,
            pc: s.pc,
            output: s.output,
        }),
{
}

/// The machine is deterministic: however many iterations two observers
/// wait, a completed run shows both the same output and the same count.
/// Two runs of one program, input and profile therefore agree.
pub proof fn lemma_runs_deterministic(
    prog: Seq<u32>,
    profile: Profile,
    input: Seq<i64>,
    m: nat,
    n: nat,
    output1: Seq<u8>,
    count1: nat,
    output2: Seq<u8>,
    count2: nat,
)
    requires
        iterate(prog, profile, input, m) == (Outcome::Done { output: output1, count: count1 }),
        iterate(prog, profile, input, n) == (Outcome::Done { output: output2, count: count2 }),
    ensures
        output1 == output2,
        count1 == count2,
{
    if m <= n {
        lemma_terminal_stable(prog, profile, input, m, n);
    } else {
        lemma_terminal_stable(prog, profile, input, n, m);
    }
}

/// On a program with no read instruction the two profiles cannot be told
/// apart: every iteration yields the very same outcome, so output, count
/// and failures all agree.
pub proof fn lemma_profiles_agree_without_reads(
    prog: Seq<u32>,
    input: Seq<i64>,
    n: nat,
)
    requires
        forall|i: int| 0 <= i < prog.len() ==> prog[i] != OP_READ,
    ensures
        iterate(prog, Profile::Host, input, n) == iterate(prog, Profile::Guest, input, n),
    decreases n,
{
    if n > 0 {
        lemma_profiles_agree_without_reads(prog, input, (n - 1) as nat);
    }
}

} // verus!
