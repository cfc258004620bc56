//! The executable machine: construction with the bracket-count check, the
//! bounded execution loop, and the bracket scans, each proved against the
//! small-step semantics in `crate::semantics`.
//!
//! Construction deliberately validates only that the counts of open and
//! close brackets match, not that they nest properly; a balanced but
//! ill-nested program (such as `][`) constructs, and the bounds-checked
//! bracket scans then fail fast with [`MachineError::MalformedLoop`] the
//! moment a bracket's matching partner cannot be found during execution,
//! rather than reading out of bounds.

use vstd::prelude::*;

use crate::semantics::{
    count_byte, count_byte_from, run_spec, scan_left, scan_right, step, MachineState, SpecOutcome,
    CLOSE_BRACKET, DECREMENT, INCREMENT, MEMORY_SIZE, MOVE_LEFT, MOVE_RIGHT, OPEN_BRACKET,
    READ_BYTE, WRITE_BYTE,
};

verus! {

/// Which bracket a loop dispatch is for.
pub enum LoopOp {
    Open,
    Close,
}

/// The failures the machine itself can report: a bracket-count mismatch at
/// construction, and a bracket whose matching partner the scan never finds
/// during execution.
#[derive(Clone, Copy, Debug, PartialEq, Eq, Structural)]
pub enum MachineError {
    UnbalancedBrackets,
    MalformedLoop,
}

/// How a bounded run ended: the instruction pointer ran off the end of the
/// program, or the step budget was exhausted first.
#[derive(Clone, Copy, Debug, PartialEq, Eq, Structural)]
pub enum RunStatus {
    Halted,
    OutOfFuel,
}

/// The machine: the program text, the instruction pointer into it, the data
/// pointer into the tape, and the tape itself.
#[derive(Debug)]
pub struct BrainfuckMachine {
    pub program: Vec<u8>,
    pub instruction_pointer: usize,
    pub data_pointer: usize,
    pub memory: Vec<u8>,
}

/// What a forward bracket scan must have done: with a zero tested cell, the
/// instruction pointer lands exactly on the matching close bracket, or the
/// scan fails with the machine untouched; with a non-zero cell, nothing
/// happens.
pub open spec fn open_scan_post(
    pre: BrainfuckMachine,
    post: BrainfuckMachine,
    r: Result<(), MachineError>,
) -> bool {
    if pre.memory@[pre.data_pointer as int] == 0 {
        match scan_right(pre.program@, pre.instruction_pointer + 1, 0) {
            Some(j) => r == Ok::<(), MachineError>(()) && post.instruction_pointer == j,
            None => r == Err::<(), MachineError>(MachineError::MalformedLoop)
                && post.instruction_pointer == pre.instruction_pointer,
        }
    } else {
        r == Ok::<(), MachineError>(()) && post.instruction_pointer == pre.instruction_pointer
    }
}

/// What a backward bracket scan must have done: with a non-zero tested
/// cell, the instruction pointer lands exactly on the matching open
/// bracket, or the scan fails with the machine untouched; with a zero cell,
/// nothing happens.
pub open spec fn close_scan_post(
    pre: BrainfuckMachine,
    post: BrainfuckMachine,
    r: Result<(), MachineError>,
) -> bool {
    if pre.memory@[pre.data_pointer as int] != 0 {
        match scan_left(pre.program@, pre.instruction_pointer - 1, 0) {
            Some(j) => r == Ok::<(), MachineError>(()) && post.instruction_pointer == j,
            None => r == Err::<(), MachineError>(MachineError::MalformedLoop)
                && post.instruction_pointer == pre.instruction_pointer,
        }
    } else {
        r == Ok::<(), MachineError>(()) && post.instruction_pointer == pre.instruction_pointer
    }
}

impl BrainfuckMachine {
    /// The tape has its fixed length and the data pointer addresses a cell
    /// of it.
    pub open spec fn wf(&self) -> bool {
        &&& self.memory@.len() == MEMORY_SIZE
        &&& self.data_pointer < MEMORY_SIZE
    }

    /// The ghost state of this machine, joined with the given remaining
    /// input and accumulated output.
    pub open spec fn st(&self, input: Seq<u8>, output: Seq<u8>) -> MachineState {
        MachineState {
            program: self.program@,
            ip: self.instruction_pointer as int,
            dp: self.data_pointer as int,
            mem: self.memory@,
            input: input,
            output: output,
        }
    }

    /// Construction: the byte sequence is stored verbatim, both pointers
    /// start at 0, the tape is zero-filled, and the machine is returned if
    /// and only if the open- and close-bracket counts match.
    pub fn init(program: Vec<u8>) -> (r: Result<BrainfuckMachine, MachineError>)
        ensures
            (match r {
                Ok(m) => {
                    &&& count_byte(program@, OPEN_BRACKET) == count_byte(program@, CLOSE_BRACKET)
                    &&& m.wf()
                    &&& m.program@ == program@
                    &&& m.instruction_pointer == 0
                    &&& m.data_pointer == 0
                    &&& m.memory@.len() == MEMORY_SIZE
                    &&& forall|j: int| 0 <= j < MEMORY_SIZE ==> m.memory@[j] == 0
                },
                Err(e) => {
                    &&& e == MachineError::UnbalancedBrackets
                    &&& count_byte(program@, OPEN_BRACKET) != count_byte(program@, CLOSE_BRACKET)
                },
            }),
    {
        let mut memory: Vec<u8> = Vec::new();
        let mut i: usize = 0;
        while i < MEMORY_SIZE
            invariant
                i <= MEMORY_SIZE,
                memory@.len() == i,
                forall|j: int| 0 <= j < i ==> memory@[j] == 0,
            decreases MEMORY_SIZE - i,
        {
            memory.push(0);
            i = i + 1;
        }
        let bf = BrainfuckMachine { program, instruction_pointer: 0, data_pointer: 0, memory };
        if bf.is_valid_program() {
            Ok(bf)
        } else {
            Err(MachineError::UnbalancedBrackets)
        }
    }

    /// On an open bracket with a zero current cell, skip forward to the
    /// matching close bracket by a nesting-counted scan, leaving the
    /// instruction pointer on that bracket; fail with `MalformedLoop` when
    /// the scan runs off the end of the program. Otherwise do nothing.
    pub fn _handle_loop_open(&mut self) -> (r: Result<(), MachineError>)
        requires
            old(self).wf(),
            old(self).instruction_pointer < old(self).program@.len(),
            old(self).program@[old(self).instruction_pointer as int] == OPEN_BRACKET,
        ensures
            final(self).wf(),
            final(self).program@ == old(self).program@,
            final(self).memory@ == old(self).memory@,
            final(self).data_pointer == old(self).data_pointer,
            final(self).instruction_pointer < old(self).program@.len(),
            open_scan_post(*old(self), *final(self), r),
    {
        if self.memory[self.data_pointer] == 0 {
            let ghost p = self.program@;
            let ghost start = self.instruction_pointer as int;
            let n: usize = self.program.len();
            let mut i: usize = self.instruction_pointer + 1;
            let mut depth: usize = 0;
            while i < n
                invariant
                    *self == *old(self),
                    old(self).wf(),
                    p == old(self).program@,
                    n == p.len(),
                    start == old(self).instruction_pointer as int,
                    old(self).memory@[old(self).data_pointer as int] == 0,
                    0 <= start < p.len(),
                    start + 1 <= i <= p.len(),
                    depth <= i - (start + 1),
                    scan_right(p, i as int, depth as nat) == scan_right(p, start + 1, 0),
                decreases p.len() - i,
            {
                let c = self.program[i];
                if c == CLOSE_BRACKET {
                    if depth == 0 {
                        self.instruction_pointer = i;
                        return Ok(());
                    }
                    depth = depth - 1;
                } else if c == OPEN_BRACKET {
                    depth = depth + 1;
                }
                i = i + 1;
            }
            Err(MachineError::MalformedLoop)
        } else {
            Ok(())
        }
    }

    /// On a close bracket with a non-zero current cell, jump backward to
    /// the matching open bracket by a nesting-counted scan, leaving the
    /// instruction pointer on that bracket; fail with `MalformedLoop` when
    /// the scan runs off the start of the program. Otherwise do nothing.
    pub fn _handle_loop_close(&mut self) -> (r: Result<(), MachineError>)
        requires
            old(self).wf(),
            old(self).instruction_pointer < old(self).program@.len(),
            old(self).program@[old(self).instruction_pointer as int] == CLOSE_BRACKET,
        ensures
            final(self).wf(),
            final(self).program@ == old(self).program@,
            final(self).memory@ == old(self).memory@,
            final(self).data_pointer == old(self).data_pointer,
            final(self).instruction_pointer < old(self).program@.len(),
            close_scan_post(*old(self), *final(self), r),
    {
        if self.memory[self.data_pointer] != 0 {
            let ghost p = self.program@;
            let ghost start = self.instruction_pointer as int;
            let mut i: usize = self.instruction_pointer;
            let mut depth: usize = 0;
            while i > 0
                invariant
                    *self == *old(self),
                    old(self).wf(),
                    p == old(self).program@,
                    start == old(self).instruction_pointer as int,
                    old(self).memory@[old(self).data_pointer as int] != 0,
                    0 <= start < p.len(),
                    0 <= i <= start,
                    depth <= start - i,
                    scan_left(p, i as int - 1, depth as nat) == scan_left(p, start - 1, 0),
                decreases i,
            {
                let c = self.program[i - 1];
                if c == OPEN_BRACKET {
                    if depth == 0 {
                        self.instruction_pointer = i - 1;
                        return Ok(());
                    }
                    depth = depth - 1;
                } else if c == CLOSE_BRACKET {
                    depth = depth + 1;
                }
                i = i - 1;
            }
            Err(MachineError::MalformedLoop)
        } else {
            Ok(())
        }
    }

    /// Bracket dispatch: the forward scan for an open bracket, the backward
    /// scan for a close bracket; both directions share the contracts of the
    /// two scan procedures.
    pub fn handle_loop(&mut self, operation: &LoopOp) -> (r: Result<(), MachineError>)
        requires
            old(self).wf(),
            old(self).instruction_pointer < old(self).program@.len(),
            (match operation {
                LoopOp::Open => old(self).program@[old(self).instruction_pointer as int]
                    == OPEN_BRACKET,
                LoopOp::Close => old(self).program@[old(self).instruction_pointer as int]
                    == CLOSE_BRACKET,
            }),
        ensures
            final(self).wf(),
            final(self).program@ == old(self).program@,
            final(self).memory@ == old(self).memory@,
            final(self).data_pointer == old(self).data_pointer,
            final(self).instruction_pointer < old(self).program@.len(),
            (match operation {
                LoopOp::Open => open_scan_post(*old(self), *final(self), r),
                LoopOp::Close => close_scan_post(*old(self), *final(self), r),
            }),
    {
        match operation {
            LoopOp::Open => self._handle_loop_open(),
            LoopOp::Close => self._handle_loop_close(),
        }
    }

    /// Whether the program's open- and close-bracket counts match: the one
    /// validation performed at construction time.
    pub fn is_valid_program(&self) -> (r: bool)
        ensures
            r == (count_byte(self.program@, OPEN_BRACKET) == count_byte(
                self.program@,
                CLOSE_BRACKET,
            )),
    {
        let mut obc: usize = 0;
        let mut cbc: usize = 0;
        let mut i: usize = 0;
        while i < self.program.len()
            invariant
                i <= self.program@.len(),
                obc <= i,
                cbc <= i,
                obc + count_byte_from(self.program@, OPEN_BRACKET, i as int) == count_byte(
                    self.program@,
                    OPEN_BRACKET,
                ),
                cbc + count_byte_from(self.program@, CLOSE_BRACKET, i as int) == count_byte(
                    self.program@,
                    CLOSE_BRACKET,
                ),
            decreases self.program@.len() - i,
        {
            let c = self.program[i];
            if c == OPEN_BRACKET {
                obc = obc + 1;
            }
            if c == CLOSE_BRACKET {
                cbc = cbc + 1;
            }
            i = i + 1;
        }
        obc == cbc
    }

    /// Execute until the instruction pointer runs off the end of the
    /// program: dispatch on the byte at the instruction pointer, then
    /// advance the pointer by one (on top of a relocation by a bracket
    /// jump); unrecognised bytes are no-ops. A `,` consumes the next byte
    /// of `input`, or sets the cell to zero at end of input; a `.` appends
    /// the current cell to the returned output. At most `max_steps`
    /// instructions are executed, and the result says whether the machine
    /// halted or the budget ran out first; a bracket whose match no scan
    /// finds stops the run with `MalformedLoop`. The outcome is exactly
    /// `run_spec` applied to the starting state with `max_steps` of fuel.
    pub fn run(&mut self, input: &Vec<u8>, max_steps: u64) -> (r: Result<
        (RunStatus, Vec<u8>),
        MachineError,
    >)
        requires
            old(self).wf(),
        ensures
            final(self).wf(),
            final(self).program@ == old(self).program@,
            (match run_spec(old(self).st(input@, Seq::<u8>::empty()), max_steps as nat) {
                SpecOutcome::Halts(s1) => match r {
                    Ok(p) => p.0 == RunStatus::Halted && p.1@ == s1.output && final(self).st(
                        s1.input,
                        s1.output,
                    ) == s1,
                    Err(_) => false,
                },
                SpecOutcome::OutOfFuel(s1) => match r {
                    Ok(p) => p.0 == RunStatus::OutOfFuel && p.1@ == s1.output && final(self).st(
                        s1.input,
                        s1.output,
                    ) == s1,
                    Err(_) => false,
                },
                SpecOutcome::Malformed(s1) => match r {
                    Ok(_) => false,
                    Err(e) => e == MachineError::MalformedLoop && final(self).st(
                        s1.input,
                        s1.output,
                    ) == s1,
                },
            }),
    {
        let ghost s0 = old(self).st(input@, Seq::<u8>::empty());
        let ghost goal = run_spec(s0, max_steps as nat);
        let mut out: Vec<u8> = Vec::new();
        let mut in_pos: usize = 0;
        let mut steps: u64 = 0;
        proof {
            assert(input@.skip(0) =~= input@);
            assert(self.st(input@.skip(0), out@) =~= s0);
        }
        while self.instruction_pointer < self.program.len()
            invariant
                self.wf(),
                self.program@ == old(self).program@,
                in_pos <= input@.len(),
                steps <= max_steps,
                s0 == old(self).st(input@, Seq::<u8>::empty()),
                goal == run_spec(s0, max_steps as nat),
                run_spec(
                    self.st(input@.skip(in_pos as int), out@),
                    (max_steps - steps) as nat,
                ) == goal,
            decreases max_steps - steps,
        {
            if steps == max_steps {
                return Ok((RunStatus::OutOfFuel, out));
            }
            let ghost pre = self.st(input@.skip(in_pos as int), out@);
            let ghost fuel = (max_steps - steps) as nat;
            let ghost pre_in_pos = in_pos as int;
            let c = self.program[self.instruction_pointer];
            if c == MOVE_RIGHT {
                self.data_pointer = (self.data_pointer + 1) % MEMORY_SIZE;
            } else if c == MOVE_LEFT {
                if self.data_pointer == 0 {
                    self.data_pointer = MEMORY_SIZE - 1;
                } else {
                    self.data_pointer = self.data_pointer - 1;
                }
            } else if c == INCREMENT {
                let v = self.memory[self.data_pointer];
                let nv: u8 = if v == 255 {
                    0
                } else {
                    v + 1
                };
                self.memory[self.data_pointer] = nv;
            } else if c == DECREMENT {
                let v = self.memory[self.data_pointer];
                let nv: u8 = if v == 0 {
                    255
                } else {
                    v - 1
                };
                self.memory[self.data_pointer] = nv;
            } else if c == WRITE_BYTE {
                let b = self.memory[self.data_pointer];
                out.push(b);
            } else if c == READ_BYTE {
                if in_pos < input.len() {
                    let b = input[in_pos];
                    self.memory[self.data_pointer] = b;
                    in_pos = in_pos + 1;
                } else {
                    self.memory[self.data_pointer] = 0;
                }
            } else if c == OPEN_BRACKET {
                let res = self.handle_loop(&LoopOp::Open);
                match res {
                    Ok(_) => {},
                    Err(_) => {
                        proof {
                            assert(step(pre) is None);
                            assert(run_spec(pre, fuel) == SpecOutcome::Malformed(pre));
                        }
                        return Err(MachineError::MalformedLoop);
                    },
                }
            } else if c == CLOSE_BRACKET {
                let res = self.handle_loop(&LoopOp::Close);
                match res {
                    Ok(_) => {},
                    Err(_) => {
                        proof {
                            assert(step(pre) is None);
                            assert(run_spec(pre, fuel) == SpecOutcome::Malformed(pre));
                        }
                        return Err(MachineError::MalformedLoop);
                    },
                }
            }
            self.instruction_pointer = self.instruction_pointer + 1;
            steps = steps + 1;
            proof {
                let post = self.st(input@.skip(in_pos as int), out@);
                vstd::seq_lib::lemma_seq_skip_of_skip(input@, pre_in_pos, 1);
                vstd::seq_lib::lemma_seq_skip_index(input@, pre_in_pos, 0);
                assert(step(pre) == Some(post));
                assert(run_spec(post, (max_steps - steps) as nat) == goal);
            }
        }
        Ok((RunStatus::Halted, out))
    }
}

} // verus!
