use brainfuck::error::{Resource, RuntimeError};
use brainfuck::machine::{run, Machine, RunResult};
use brainfuck::model::{Limits, RunStatus};
use brainfuck::program::parse;

fn run_source(source: &str, input: &[u8]) -> RunResult {
    run(parse(source).unwrap(), input, Limits::unlimited())
}

fn fresh(source: &str) -> Machine {
    Machine::new(parse(source).unwrap(), Limits::unlimited())
}

#[test]
fn three_increments_emit_three() {
    let result = run_source("+++.", &[]);
    assert_eq!(result.final_status, RunStatus::Halted);
    assert_eq!(result.output, vec![3u8]);
    assert_eq!(result.failure_reason(), None);
}

#[test]
fn loop_runs_once_and_clears_cell() {
    let result = run_source("+[-].", &[]);
    assert_eq!(result.final_status, RunStatus::Halted);
    assert_eq!(result.output, vec![0u8]);

    let mut machine = fresh("+[-].");
    machine.close_input();
    machine.run();
    // + [ - ] . : five instructions, the loop body once.
    assert_eq!(machine.steps(), 5);
    assert_eq!(machine.command_pointer(), 5);
}

#[test]
fn nested_count_multiplies_three_by_three() {
    let result = run_source(">+++[>+++<-]>.", &[]);
    assert_eq!(result.final_status, RunStatus::Halted);
    assert_eq!(result.output, vec![9u8]);

    let mut machine = fresh(">+++[>+++<-]>.");
    machine.run();
    assert_eq!(machine.status(), RunStatus::Halted);
    assert_eq!(machine.cell_at(0), 0);
    assert_eq!(machine.cell_at(1), 0);
    assert_eq!(machine.cell_at(2), 9);
    assert_eq!(machine.pointer(), 2);
    assert_eq!(machine.output(), 9);
}

#[test]
fn increment_wraps_at_255_and_decrement_at_0() {
    let mut up = String::new();
    for _ in 0..255 {
        up.push('+');
    }
    up.push_str(".+.");
    let result = run_source(&up, &[]);
    assert_eq!(result.output, vec![255u8, 0u8]);

    let result = run_source("-.", &[]);
    assert_eq!(result.output, vec![255u8]);

    let result = run_source("-+.", &[]);
    assert_eq!(result.output, vec![0u8]);

    let result = run_source("+-.", &[]);
    assert_eq!(result.output, vec![0u8]);

    let result = run_source("++-.", &[]);
    assert_eq!(result.output, vec![1u8]);
}

#[test]
fn moving_left_of_cell_zero_fails() {
    let result = run_source("<", &[]);
    assert_eq!(
        result.final_status,
        RunStatus::Failed(RuntimeError::PointerUnderflow)
    );
    assert_eq!(result.failure_reason(), Some(RuntimeError::PointerUnderflow));
    assert_eq!(result.output, Vec::<u8>::new());
}

#[test]
fn output_before_a_failure_is_kept() {
    let result = run_source("++.>+.<<.", &[]);
    assert_eq!(
        result.final_status,
        RunStatus::Failed(RuntimeError::PointerUnderflow)
    );
    assert_eq!(result.output, vec![2u8, 1u8]);
}

#[test]
fn same_program_and_input_give_same_result() {
    let source = ",[>+<-]>.,.>++[<+>-]<.<<";
    let program = parse(source).unwrap();
    let first = run(program.clone(), &[5, 7], Limits::unlimited());
    let second = run(program, &[5, 7], Limits::unlimited());
    assert_eq!(first, second);
    assert_eq!(first.output, vec![5u8, 7u8, 9u8]);
    assert_eq!(
        first.final_status,
        RunStatus::Failed(RuntimeError::PointerUnderflow)
    );
}

#[test]
fn empty_program_halts_at_once() {
    let result = run_source("", &[1, 2, 3]);
    assert_eq!(result.final_status, RunStatus::Halted);
    assert_eq!(result.output, Vec::<u8>::new());

    let mut machine = Machine::default();
    assert_eq!(machine.status(), RunStatus::Running);
    assert!(machine.is_running());
    machine.execute_command();
    assert_eq!(machine.status(), RunStatus::Halted);
    assert_eq!(machine.steps(), 0);
    machine.execute_command();
    assert_eq!(machine.status(), RunStatus::Halted);
}

#[test]
fn fresh_machine_starts_at_zero() {
    let machine = fresh("+");
    assert_eq!(machine.status(), RunStatus::Running);
    assert_eq!(machine.pointer(), 0);
    assert_eq!(machine.command_pointer(), 0);
    assert_eq!(machine.steps(), 0);
    assert_eq!(machine.tape_len(), 0);
    assert_eq!(machine.output(), 0);
    assert_eq!(machine.cell_at(1000), 0);
}

#[test]
fn pointer_moves_create_no_cells() {
    let mut machine = fresh(">>>");
    machine.run();
    assert_eq!(machine.status(), RunStatus::Halted);
    assert_eq!(machine.pointer(), 3);
    assert_eq!(machine.tape_len(), 0);
    assert_eq!(machine.output(), 0);
}

#[test]
fn fill_to_pointer_creates_zero_cells_up_to_pointer() {
    let mut machine = fresh("+>>>");
    machine.run();
    assert_eq!(machine.tape_len(), 1);
    machine.fill_to_pointer();
    assert_eq!(machine.tape_len(), 4);
    assert_eq!(machine.cell_at(0), 1);
    assert_eq!(machine.cell_at(1), 0);
    assert_eq!(machine.cell_at(2), 0);
    assert_eq!(machine.cell_at(3), 0);
    machine.fill_to_pointer();
    assert_eq!(machine.tape_len(), 4);
}

#[test]
fn fill_to_pointer_respects_tape_limit() {
    let limits = Limits { max_steps: None, max_tape_len: Some(2) };
    let mut machine = Machine::new(parse(">>").unwrap(), limits);
    machine.run();
    assert_eq!(machine.pointer(), 2);
    machine.fill_to_pointer();
    assert_eq!(machine.tape_len(), 0);

    let mut machine = Machine::new(parse(">").unwrap(), limits);
    machine.run();
    machine.fill_to_pointer();
    assert_eq!(machine.tape_len(), 2);
}

#[test]
fn reading_a_cell_materializes_it() {
    let mut machine = fresh(">>.");
    machine.run();
    assert_eq!(machine.tape_len(), 3);
    assert_eq!(machine.take_output(), vec![0u8]);
}

#[test]
fn steps_one_instruction_at_a_time() {
    let mut machine = fresh("+>-");
    machine.execute_command();
    assert_eq!(machine.command_pointer(), 1);
    assert_eq!(machine.steps(), 1);
    assert_eq!(machine.cell_at(0), 1);
    machine.execute_command();
    assert_eq!(machine.command_pointer(), 2);
    assert_eq!(machine.pointer(), 1);
    machine.execute_command();
    assert_eq!(machine.command_pointer(), 3);
    assert_eq!(machine.cell_at(1), 255);
    assert_eq!(machine.status(), RunStatus::Running);
    machine.execute_command();
    assert_eq!(machine.status(), RunStatus::Halted);
    assert_eq!(machine.steps(), 3);
    assert_eq!(machine.command_pointer(), 3);
}

#[test]
fn loop_start_skips_body_on_zero_cell() {
    let mut machine = fresh("[+++]>");
    machine.execute_command();
    assert_eq!(machine.command_pointer(), 5);
    assert_eq!(machine.steps(), 1);
    assert_eq!(machine.cell_at(0), 0);
}

#[test]
fn loop_end_jumps_back_behind_loop_start() {
    let mut machine = fresh("++[-]");
    machine.execute_command();
    machine.execute_command();
    machine.execute_command();
    assert_eq!(machine.command_pointer(), 3);
    machine.execute_command();
    assert_eq!(machine.cell_at(0), 1);
    assert_eq!(machine.command_pointer(), 4);
    machine.execute_command();
    assert_eq!(machine.command_pointer(), 3);
    machine.execute_command();
    machine.execute_command();
    assert_eq!(machine.command_pointer(), 5);
    assert_eq!(machine.cell_at(0), 0);
}

#[test]
fn input_bytes_are_read_in_order() {
    let result = run_source(",.,.,.", &[10, 20, 30]);
    assert_eq!(result.final_status, RunStatus::Halted);
    assert_eq!(result.output, vec![10u8, 20u8, 30u8]);
}

#[test]
fn input_at_end_of_stream_leaves_cell_unchanged() {
    let result = run_source("+++,.", &[]);
    assert_eq!(result.final_status, RunStatus::Halted);
    assert_eq!(result.output, vec![3u8]);

    let result = run_source(",.,.", &[7]);
    assert_eq!(result.output, vec![7u8, 7u8]);
}

#[test]
fn open_input_suspends_and_resumes_at_same_instruction() {
    let mut machine = fresh("+,.");
    machine.run();
    assert_eq!(machine.status(), RunStatus::AwaitingInput);
    assert_eq!(machine.command_pointer(), 1);
    assert_eq!(machine.steps(), 1);
    assert_eq!(machine.cell_at(0), 1);

    machine.run();
    assert_eq!(machine.status(), RunStatus::AwaitingInput);

    machine.feed(&[]);
    assert_eq!(machine.status(), RunStatus::Running);
    machine.run();
    assert_eq!(machine.status(), RunStatus::AwaitingInput);
    assert_eq!(machine.command_pointer(), 1);

    machine.feed(&[65, 66]);
    assert_eq!(machine.status(), RunStatus::Running);
    machine.run();
    assert_eq!(machine.status(), RunStatus::Halted);
    assert_eq!(machine.take_output(), vec![65u8]);
    assert_eq!(machine.steps(), 3);
}

#[test]
fn closing_input_wakes_a_waiting_machine() {
    let mut machine = fresh("++,.");
    machine.run();
    assert_eq!(machine.status(), RunStatus::AwaitingInput);
    machine.close_input();
    assert_eq!(machine.status(), RunStatus::Running);
    machine.run();
    assert_eq!(machine.status(), RunStatus::Halted);
    assert_eq!(machine.take_output(), vec![2u8]);
}

#[test]
fn input_source_failure_is_fatal() {
    let mut machine = fresh(".,.");
    machine.run();
    assert_eq!(machine.status(), RunStatus::AwaitingInput);
    machine.fail_input();
    assert_eq!(
        machine.status(),
        RunStatus::Failed(RuntimeError::InputSourceError)
    );
    machine.feed(&[1]);
    machine.run();
    assert_eq!(
        machine.status(),
        RunStatus::Failed(RuntimeError::InputSourceError)
    );
    assert_eq!(machine.take_output(), vec![0u8]);

    let mut halted = fresh("");
    halted.run();
    halted.fail_input();
    assert_eq!(halted.status(), RunStatus::Halted);
}

#[test]
fn cancel_stops_a_live_machine_only() {
    let mut machine = fresh("+[]");
    machine.execute_command();
    machine.execute_command();
    machine.cancel();
    assert_eq!(machine.status(), RunStatus::Cancelled);
    machine.run();
    assert_eq!(machine.status(), RunStatus::Cancelled);
    assert_eq!(machine.steps(), 2);

    let mut waiting = fresh(",");
    waiting.run();
    waiting.cancel();
    assert_eq!(waiting.status(), RunStatus::Cancelled);
    waiting.feed(&[1]);
    assert_eq!(waiting.status(), RunStatus::Cancelled);

    let mut failed = fresh("<");
    failed.run();
    failed.cancel();
    assert_eq!(
        failed.status(),
        RunStatus::Failed(RuntimeError::PointerUnderflow)
    );
}

#[test]
fn step_limit_ends_an_endless_loop() {
    let limits = Limits { max_steps: Some(1000), max_tape_len: None };
    let result = run(parse("+[]").unwrap(), &[], limits);
    assert_eq!(
        result.final_status,
        RunStatus::Failed(RuntimeError::ResourceExhausted { steps_or_tape: Resource::Steps })
    );
    assert_eq!(
        result.failure_reason(),
        Some(RuntimeError::ResourceExhausted { steps_or_tape: Resource::Steps })
    );

    let mut machine = Machine::new(parse("+[]").unwrap(), limits);
    machine.run();
    assert_eq!(machine.steps(), 1000);
}

#[test]
fn step_limit_counts_executed_instructions() {
    let exact = Limits { max_steps: Some(4), max_tape_len: None };
    let result = run(parse("+++.").unwrap(), &[], exact);
    assert_eq!(result.final_status, RunStatus::Halted);
    assert_eq!(result.output, vec![3u8]);

    let short = Limits { max_steps: Some(3), max_tape_len: None };
    let result = run(parse("+++.").unwrap(), &[], short);
    assert_eq!(
        result.final_status,
        RunStatus::Failed(RuntimeError::ResourceExhausted { steps_or_tape: Resource::Steps })
    );
    assert_eq!(result.output, Vec::<u8>::new());

    let none = Limits { max_steps: Some(0), max_tape_len: None };
    let result = run(parse("").unwrap(), &[], none);
    assert_eq!(result.final_status, RunStatus::Halted);
    let result = run(parse("+").unwrap(), &[], none);
    assert_eq!(
        result.final_status,
        RunStatus::Failed(RuntimeError::ResourceExhausted { steps_or_tape: Resource::Steps })
    );
}

#[test]
fn tape_limit_bounds_the_cells_that_exist() {
    let limits = Limits { max_steps: None, max_tape_len: Some(3) };
    let result = run(parse("+.>+.>+.").unwrap(), &[], limits);
    assert_eq!(result.final_status, RunStatus::Halted);
    assert_eq!(result.output, vec![1u8, 1u8, 1u8]);

    let result = run(parse("+.>+.>+.>+.").unwrap(), &[], limits);
    assert_eq!(
        result.final_status,
        RunStatus::Failed(RuntimeError::ResourceExhausted { steps_or_tape: Resource::Tape })
    );
    assert_eq!(result.output, vec![1u8, 1u8, 1u8]);

    // Moving alone creates no cell, so it stays within any limit.
    let result = run(parse(">>>>><<<<<.").unwrap(), &[], limits);
    assert_eq!(result.final_status, RunStatus::Halted);
    assert_eq!(result.output, vec![0u8]);

    let zero = Limits { max_steps: None, max_tape_len: Some(0) };
    let result = run(parse(".").unwrap(), &[], zero);
    assert_eq!(
        result.final_status,
        RunStatus::Failed(RuntimeError::ResourceExhausted { steps_or_tape: Resource::Tape })
    );
}

#[test]
fn limits_default_to_the_counters_largest_values() {
    assert_eq!(Limits::default(), Limits::unlimited());
    assert_eq!(Limits::unlimited().max_steps, None);
    assert_eq!(Limits::unlimited().max_tape_len, None);
    assert_eq!(Limits::unlimited().step_bound(), u64::MAX);
    assert_eq!(Limits::unlimited().tape_bound(), usize::MAX);
    let limits = Limits { max_steps: Some(12), max_tape_len: Some(34) };
    assert_eq!(limits.step_bound(), 12);
    assert_eq!(limits.tape_bound(), 34);
}

#[test]
fn take_output_drains_in_order() {
    let mut machine = fresh("+.+.+.");
    machine.execute_command();
    machine.execute_command();
    assert_eq!(machine.take_output(), vec![1u8]);
    assert_eq!(machine.take_output(), Vec::<u8>::new());
    machine.run();
    assert_eq!(machine.take_output(), vec![2u8, 3u8]);
}

#[test]
fn hello_world_runs_to_completion() {
    let source = "++++++++[>++++[>++>+++>+++>+<<<<-]>+>+>->>+[<]<-]>>.>---.+++++++..+++.>>.<-.<.+++.------.--------.>>+.>++.";
    let result = run_source(source, &[]);
    assert_eq!(result.final_status, RunStatus::Halted);
    assert_eq!(result.output, b"Hello World!\n".to_vec());
}
