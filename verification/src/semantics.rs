//! The mathematical model of the machine: a small-step semantics over a
//! ghost state, together with the bracket-matching scans and the laws that
//! the executable interpreter is proved against.

use vstd::prelude::*;

verus! {

/// The length of the memory tape, in cells.
pub const MEMORY_SIZE: usize = 30000;

/// Instruction bytes. Any other byte is a no-op.
pub const MOVE_RIGHT: u8 = 62; // '>'

pub const MOVE_LEFT: u8 = 60; // '<'

pub const INCREMENT: u8 = 43; // '+'

pub const DECREMENT: u8 = 45; // '-'

pub const WRITE_BYTE: u8 = 46; // '.'

pub const READ_BYTE: u8 = 44; // ','

pub const OPEN_BRACKET: u8 = 91; // '['

pub const CLOSE_BRACKET: u8 = 93; // ']'

/// The whole state of an execution: the program text, the two pointers, the
/// tape, the input bytes not yet consumed, and the output bytes produced so
/// far.
#[verifier::ext_equal]
pub struct MachineState {
    pub program: Seq<u8>,
    pub ip: int,
    pub dp: int,
    pub mem: Seq<u8>,
    pub input: Seq<u8>,
    pub output: Seq<u8>,
}

/// A cell increment, wrapping modulo 256.
pub open spec fn wrap_inc(b: u8) -> u8 {
    if b == 255 {
        0
    } else {
        (b + 1) as u8
    }
}

/// A cell decrement, wrapping modulo 256.
pub open spec fn wrap_dec(b: u8) -> u8 {
    if b == 0 {
        255
    } else {
        (b - 1) as u8
    }
}

/// A data-pointer move to the right, wrapping at the end of the tape.
pub open spec fn ptr_right(dp: int) -> int {
    if dp + 1 == MEMORY_SIZE {
        0
    } else {
        dp + 1
    }
}

/// A data-pointer move to the left, wrapping at the start of the tape.
pub open spec fn ptr_left(dp: int) -> int {
    if dp == 0 {
        MEMORY_SIZE - 1
    } else {
        dp - 1
    }
}

/// How many occurrences of byte `b` stand in `s` at or after index `i`.
pub open spec fn count_byte_from(s: Seq<u8>, b: u8, i: int) -> nat
    decreases s.len() - i,
{
    if i < 0 || i >= s.len() {
        0
    } else {
        (if s[i] == b {
            1nat
        } else {
            0nat
        }) + count_byte_from(s, b, i + 1)
    }
}

/// How many occurrences of byte `b` stand in `s`.
pub open spec fn count_byte(s: Seq<u8>, b: u8) -> nat {
    count_byte_from(s, b, 0)
}

/// The index of the close bracket that ends the loop, scanning right from
/// `i` with `depth` inner loops still open; `None` when the scan runs off
/// the end of the program.
pub open spec fn scan_right(p: Seq<u8>, i: int, depth: nat) -> Option<int>
    decreases p.len() - i,
{
    if i < 0 || i >= p.len() {
        None
    } else if p[i] == CLOSE_BRACKET {
        if depth == 0 {
            Some(i)
        } else {
            scan_right(p, i + 1, (depth - 1) as nat)
        }
    } else if p[i] == OPEN_BRACKET {
        scan_right(p, i + 1, depth + 1)
    } else {
        scan_right(p, i + 1, depth)
    }
}

/// The index of the open bracket that starts the loop, scanning left from
/// `i` with `depth` inner loops still open; `None` when the scan runs off
/// the start of the program.
pub open spec fn scan_left(p: Seq<u8>, i: int, depth: nat) -> Option<int>
    decreases i + 1,
{
    if i < 0 || i >= p.len() {
        None
    } else if p[i] == OPEN_BRACKET {
        if depth == 0 {
            Some(i)
        } else {
            scan_left(p, i - 1, (depth - 1) as nat)
        }
    } else if p[i] == CLOSE_BRACKET {
        scan_left(p, i - 1, depth + 1)
    } else {
        scan_left(p, i - 1, depth)
    }
}

/// A state is well formed when the tape has its fixed length and the data
/// pointer addresses a cell of it.
pub open spec fn state_wf(s: MachineState) -> bool {
    &&& s.mem.len() == MEMORY_SIZE
    &&& 0 <= s.dp < MEMORY_SIZE
}

/// One step of execution: dispatch on the byte at the instruction pointer,
/// then advance the pointer by one (on top of a relocation by a bracket
/// jump, so a forward skip lands one past the matching close and a backward
/// jump lands on the first body instruction). `None` means a bracket scan
/// ran off the program: a malformed loop.
pub open spec fn step(s: MachineState) -> Option<MachineState>
    recommends
        state_wf(s),
        0 <= s.ip < s.program.len(),
{
    let c = s.program[s.ip];
    if c == MOVE_RIGHT {
        Some(MachineState { dp: ptr_right(s.dp), ip: s.ip + 1, ..s })
    } else if c == MOVE_LEFT {
        Some(MachineState { dp: ptr_left(s.dp), ip: s.ip + 1, ..s })
    } else if c == INCREMENT {
        Some(MachineState { mem: s.mem.update(s.dp, wrap_inc(s.mem[s.dp])), ip: s.ip + 1, ..s })
    } else if c == DECREMENT {
        Some(MachineState { mem: s.mem.update(s.dp, wrap_dec(s.mem[s.dp])), ip: s.ip + 1, ..s })
    } else if c == WRITE_BYTE {
        Some(MachineState { output: s.output.push(s.mem[s.dp]), ip: s.ip + 1, ..s })
    } else if c == READ_BYTE {
        if s.input.len() > 0 {
            Some(
                MachineState {
                    mem: s.mem.update(s.dp, s.input[0]),
                    input: s.input.skip(1),
                    ip: s.ip + 1,
                    ..s
                },
            )
        } else {
            // End of input: the cell is set to zero.
            Some(MachineState { mem: s.mem.update(s.dp, 0), ip: s.ip + 1, ..s })
        }
    } else if c == OPEN_BRACKET {
        if s.mem[s.dp] == 0 {
            match scan_right(s.program, s.ip + 1, 0) {
                Some(j) => Some(MachineState { ip: j + 1, ..s }),
                None => None,
            }
        } else {
            Some(MachineState { ip: s.ip + 1, ..s })
        }
    } else if c == CLOSE_BRACKET {
        if s.mem[s.dp] != 0 {
            match scan_left(s.program, s.ip - 1, 0) {
                Some(j) => Some(MachineState { ip: j + 1, ..s }),
                None => None,
            }
        } else {
            Some(MachineState { ip: s.ip + 1, ..s })
        }
    } else {
        Some(MachineState { ip: s.ip + 1, ..s })
    }
}

/// What a bounded run ends in: a normal halt (the instruction pointer left
/// the program), exhaustion of the step budget, or a malformed loop.
pub enum SpecOutcome {
    Halts(MachineState),
    OutOfFuel(MachineState),
    Malformed(MachineState),
}

/// Execution of at most `fuel` steps from `s`. An infinite loop is valid
/// program behaviour, so execution is bounded by a step budget rather than
/// expected to terminate.
pub open spec fn run_spec(s: MachineState, fuel: nat) -> SpecOutcome
    decreases fuel,
{
    if !(0 <= s.ip < s.program.len()) {
        SpecOutcome::Halts(s)
    } else if fuel == 0 {
        SpecOutcome::OutOfFuel(s)
    } else {
        match step(s) {
            Some(s2) => run_spec(s2, (fuel - 1) as nat),
            None => SpecOutcome::Malformed(s),
        }
    }
}

/// `n` cell increments in a row.
pub open spec fn iter_inc(b: u8, n: nat) -> u8
    decreases n,
{
    if n == 0 {
        b
    } else {
        wrap_inc(iter_inc(b, (n - 1) as nat))
    }
}

proof fn lemma_iter_inc_value(b: u8, n: nat)
    requires
        n <= 256,
    ensures
        iter_inc(b, n) == if b + n < 256 {
            b + n
        } else {
            b + n - 256
        },
    decreases n,
{
    if n > 0 {
        lemma_iter_inc_value(b, (n - 1) as nat);
    }
}

/// Law: cell arithmetic is modulo 256 — an increment applied 256 times
/// returns every cell value to itself.
pub proof fn lemma_increment_cycle(b: u8)
    ensures
        iter_inc(b, 256) == b,
{
    lemma_iter_inc_value(b, 256);
}

/// Law: an infinite loop is valid program behaviour, not an error — from a
/// state that steps back to itself (as a loop whose body never zeroes the
/// tested cell does), a bounded run ends by exhausting its step budget,
/// never by halting and never with a failure, whatever the budget. A
/// harness must therefore bound execution by a step counter rather than
/// expect natural termination.
pub proof fn lemma_infinite_loop_exhausts_budget(s: MachineState, fuel: nat)
    requires
        0 <= s.ip < s.program.len(),
        step(s) == Some(s),
    ensures
        run_spec(s, fuel) == SpecOutcome::OutOfFuel(s),
    decreases fuel,
{
    if fuel > 0 {
        lemma_infinite_loop_exhausts_budget(s, (fuel - 1) as nat);
    }
}

/// Law: pointer movement is modulo the tape length in both directions —
/// each move is the addition of 1 or of −1 modulo `MEMORY_SIZE`, moving
/// left from index 0 yields the last index, moving right from the last
/// index yields 0, and the two moves invert one another on the tape.
pub proof fn lemma_pointer_wrap()
    ensures
        ptr_left(0) == MEMORY_SIZE - 1,
        ptr_right(MEMORY_SIZE - 1) == 0,
        forall|dp: int|
            0 <= dp < MEMORY_SIZE ==> ptr_right(dp) == (dp + 1) % (MEMORY_SIZE as int),
        forall|dp: int|
            0 <= dp < MEMORY_SIZE ==> ptr_left(dp) == (dp - 1 + MEMORY_SIZE) % (MEMORY_SIZE as int),
        forall|dp: int| 0 <= dp < MEMORY_SIZE ==> ptr_left(ptr_right(dp)) == dp,
        forall|dp: int| 0 <= dp < MEMORY_SIZE ==> ptr_right(ptr_left(dp)) == dp,
{
    assert forall|dp: int| 0 <= dp < MEMORY_SIZE implies ptr_right(dp) == (dp + 1) % (
    MEMORY_SIZE as int) by {
        if dp + 1 == MEMORY_SIZE {
            assert((dp + 1) % (MEMORY_SIZE as int) == 0);
        } else {
            assert((dp + 1) % (MEMORY_SIZE as int) == dp + 1);
        }
    }
    assert forall|dp: int| 0 <= dp < MEMORY_SIZE implies ptr_left(dp) == (dp - 1 + MEMORY_SIZE) % (
    MEMORY_SIZE as int) by {
        if dp == 0 {
            assert((dp - 1 + MEMORY_SIZE) % (MEMORY_SIZE as int) == MEMORY_SIZE - 1);
        } else {
            assert((dp - 1 + MEMORY_SIZE) % (MEMORY_SIZE as int) == dp - 1) by {
                assert((dp - 1 + MEMORY_SIZE) - MEMORY_SIZE == dp - 1);
            }
        }
    }
}

} // verus!
