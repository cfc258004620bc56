use brainfuck::machine::{BrainfuckMachine, MachineError, RunStatus};
use brainfuck::semantics::MEMORY_SIZE;

fn machine(src: &str) -> BrainfuckMachine {
    BrainfuckMachine::init(src.as_bytes().to_vec()).unwrap()
}

fn run_ok(src: &str, input: &[u8], fuel: u64) -> (RunStatus, Vec<u8>, BrainfuckMachine) {
    let mut m = machine(src);
    let (status, out) = m.run(&input.to_vec(), fuel).unwrap();
    (status, out, m)
}

#[test]
fn construction_accepts_balanced_counts() {
    assert!(BrainfuckMachine::init(b"".to_vec()).is_ok());
    assert!(BrainfuckMachine::init(b"[]".to_vec()).is_ok());
    assert!(BrainfuckMachine::init(b"+[>+<-]".to_vec()).is_ok());
    // Only the counts are checked: ill-nested but balanced text constructs.
    assert!(BrainfuckMachine::init(b"][".to_vec()).is_ok());
}

#[test]
fn construction_rejects_unbalanced_counts() {
    assert_eq!(
        BrainfuckMachine::init(b"[".to_vec()).unwrap_err(),
        MachineError::UnbalancedBrackets
    );
    assert_eq!(
        BrainfuckMachine::init(b"+[-]]".to_vec()).unwrap_err(),
        MachineError::UnbalancedBrackets
    );
    assert_eq!(
        BrainfuckMachine::init(b"]]][[".to_vec()).unwrap_err(),
        MachineError::UnbalancedBrackets
    );
}

#[test]
fn construction_zeroes_state() {
    let m = machine("+.");
    assert_eq!(m.instruction_pointer, 0);
    assert_eq!(m.data_pointer, 0);
    assert_eq!(m.memory.len(), MEMORY_SIZE);
    assert!(m.memory.iter().all(|&b| b == 0));
    assert_eq!(m.program, b"+.".to_vec());
}

#[test]
fn is_valid_program_compares_bracket_counts() {
    let m = BrainfuckMachine {
        program: b"[[]".to_vec(),
        instruction_pointer: 0,
        data_pointer: 0,
        memory: vec![0; MEMORY_SIZE],
    };
    assert!(!m.is_valid_program());
    let m = BrainfuckMachine {
        program: b"[x]y[]".to_vec(),
        instruction_pointer: 0,
        data_pointer: 0,
        memory: vec![0; MEMORY_SIZE],
    };
    assert!(m.is_valid_program());
}

#[test]
fn cell_arithmetic_wraps_modulo_256() {
    let src: String = "+".repeat(256);
    let (status, out, m) = run_ok(&src, &[], 1_000_000);
    assert_eq!(status, RunStatus::Halted);
    assert!(out.is_empty());
    assert_eq!(m.memory[0], 0);

    let src: String = "+".repeat(257);
    let (_, _, m) = run_ok(&src, &[], 1_000_000);
    assert_eq!(m.memory[0], 1);
}

#[test]
fn decrement_wraps_below_zero() {
    let (_, out, m) = run_ok("-.", &[], 1_000);
    assert_eq!(m.memory[0], 255);
    assert_eq!(out, vec![255]);
}

#[test]
fn pointer_wraps_left_from_zero() {
    let (status, _, m) = run_ok("<", &[], 1_000);
    assert_eq!(status, RunStatus::Halted);
    assert_eq!(m.data_pointer, MEMORY_SIZE - 1);
}

#[test]
fn pointer_wraps_right_from_last_cell() {
    let (status, _, m) = run_ok("<>", &[], 1_000);
    assert_eq!(status, RunStatus::Halted);
    assert_eq!(m.data_pointer, 0);
    let (_, _, m) = run_ok(">", &[], 1_000);
    assert_eq!(m.data_pointer, 1);
}

#[test]
fn infinite_loop_is_bounded_by_the_step_budget() {
    let mut m = machine("+[]");
    let (status, out) = m.run(&Vec::new(), 10_000).unwrap();
    assert_eq!(status, RunStatus::OutOfFuel);
    assert!(out.is_empty());
    assert_eq!(m.memory[0], 1);
}

#[test]
fn zero_step_budget_runs_nothing() {
    let mut m = machine("+");
    let (status, out) = m.run(&Vec::new(), 0).unwrap();
    assert_eq!(status, RunStatus::OutOfFuel);
    assert!(out.is_empty());
    assert_eq!(m.instruction_pointer, 0);
    assert_eq!(m.memory[0], 0);
}

#[test]
fn outputs_byte_value_two() {
    let (status, out, _) = run_ok("++.", &[], 1_000);
    assert_eq!(status, RunStatus::Halted);
    assert_eq!(out, vec![2]);
}

#[test]
fn loop_decrements_to_zero_and_halts() {
    let (status, out, m) = run_ok("+[-]", &[], 1_000);
    assert_eq!(status, RunStatus::Halted);
    assert!(out.is_empty());
    assert_eq!(m.memory[0], 0);
    // The run halts immediately after the matching close bracket.
    assert_eq!(m.instruction_pointer, 4);
}

#[test]
fn loop_moves_value_one_cell_right() {
    let (status, out, m) = run_ok("+[>+<-]", &[], 1_000);
    assert_eq!(status, RunStatus::Halted);
    assert!(out.is_empty());
    assert_eq!(m.memory[0], 0);
    assert_eq!(m.memory[1], 1);
}

#[test]
fn empty_loop_on_zero_cell_is_skipped() {
    let (status, out, m) = run_ok("[]", &[], 1_000);
    assert_eq!(status, RunStatus::Halted);
    assert!(out.is_empty());
    assert_eq!(m.instruction_pointer, 2);
    assert_eq!(m.data_pointer, 0);
    assert!(m.memory.iter().all(|&b| b == 0));
}

#[test]
fn forward_skip_handles_nested_brackets() {
    // The outer skip must consume the inner pair and land past the outer
    // close bracket, leaving the trailing increment as the only effect.
    let (status, _, m) = run_ok("[+[+]+]+", &[], 1_000);
    assert_eq!(status, RunStatus::Halted);
    assert_eq!(m.memory[0], 1);
    assert_eq!(m.instruction_pointer, 8);
}

#[test]
fn nested_loops_terminate_with_expected_cells() {
    let (status, out, m) = run_ok("++[>++[>++<-]<-]", &[], 1_000_000);
    assert_eq!(status, RunStatus::Halted);
    assert!(out.is_empty());
    assert_eq!(m.memory[0], 0);
    assert_eq!(m.memory[1], 0);
    assert_eq!(m.memory[2], 8);
    assert_eq!(m.data_pointer, 0);
}

#[test]
fn reads_one_byte_per_comma() {
    let (status, out, m) = run_ok(",>,.", &[7, 9], 1_000);
    assert_eq!(status, RunStatus::Halted);
    assert_eq!(out, vec![9]);
    assert_eq!(m.memory[0], 7);
    assert_eq!(m.memory[1], 9);
}

#[test]
fn read_at_end_of_input_zeroes_the_cell() {
    let (status, out, m) = run_ok("-,.", &[], 1_000);
    assert_eq!(status, RunStatus::Halted);
    assert_eq!(out, vec![0]);
    assert_eq!(m.memory[0], 0);
}

#[test]
fn unrecognised_bytes_are_no_ops() {
    let (status, out, m) = run_ok("a+b+c. #", &[], 1_000);
    assert_eq!(status, RunStatus::Halted);
    assert_eq!(out, vec![2]);
    assert_eq!(m.memory[0], 2);
}

#[test]
fn unmatched_open_bracket_fails_the_run() {
    // Balanced counts, but the open bracket at index 1 has no close after
    // it: the forward scan runs off the end.
    let mut m = machine("][");
    assert_eq!(m.run(&Vec::new(), 1_000).unwrap_err(), MachineError::MalformedLoop);
}

#[test]
fn unmatched_close_bracket_fails_the_run() {
    // Balanced counts, but the close bracket at index 1 has no open before
    // it: the backward scan runs off the start.
    let mut m = machine("+]x[");
    assert_eq!(m.run(&Vec::new(), 1_000).unwrap_err(), MachineError::MalformedLoop);
}

#[test]
fn empty_program_halts_at_once() {
    let (status, out, m) = run_ok("", &[], 0);
    assert_eq!(status, RunStatus::Halted);
    assert!(out.is_empty());
    assert_eq!(m.instruction_pointer, 0);
}

#[test]
fn running_a_halted_machine_does_nothing() {
    let mut m = machine("+.");
    let (status, out) = m.run(&Vec::new(), 1_000).unwrap();
    assert_eq!(status, RunStatus::Halted);
    assert_eq!(out, vec![1]);
    let (status, out) = m.run(&Vec::new(), 1_000).unwrap();
    assert_eq!(status, RunStatus::Halted);
    assert!(out.is_empty());
    assert_eq!(m.memory[0], 1);
}
