use register_machine::machine::{Fault, Halt, Machine};
use register_machine::parser::program;
use std::collections::HashMap;

fn machine_for(text: &str, cells: &[(u32, i32)]) -> Machine {
    let mut machine = Machine::new();
    machine.load_program(program(text).expect("program parses"));
    let memory: HashMap<u32, i32> = cells.iter().cloned().collect();
    machine.set_memory(&memory);
    machine
}

fn run(machine: &mut Machine) -> Result<(Halt, u32), Fault> {
    let mut cycles = 0u32;
    loop {
        let halted = machine.advance()?;
        cycles += 1;
        if let Some(h) = halted {
            return Ok((h, cycles));
        }
    }
}

fn cell(machine: &Machine, a: u32) -> Option<i32> {
    machine.get_memory().get(&a).cloned()
}

#[test]
fn assignment_then_one_step() {
    let mut machine = machine_for("R[1]:=42+0;", &[]);
    assert_eq!(machine.step(), Ok(false));
    assert_eq!(cell(&machine, 1), Some(42));
}

#[test]
fn program_division_truncates() {
    let mut machine = machine_for("R[1]:=7/2;", &[]);
    machine.step().unwrap();
    assert_eq!(cell(&machine, 1), Some(3));
    let mut machine = machine_for("R[1]:=-7/2;", &[]);
    machine.step().unwrap();
    assert_eq!(cell(&machine, 1), Some(-3));
}

#[test]
fn indirect_target_is_written() {
    let mut machine = machine_for("R[R[1]]:=0+0;", &[(1, 2), (2, 42)]);
    machine.step().unwrap();
    assert_eq!(cell(&machine, 2), Some(0));
    assert_eq!(cell(&machine, 1), Some(2));
}

#[test]
fn taken_jump_skips_instruction() {
    let mut machine = machine_for("if 1==1 goto 3; R[1]:=1+0; R[1]:=2+0;", &[]);
    assert_eq!(machine.step(), Ok(true));
    assert_eq!(machine.program_counter(), 2);
    assert_eq!(run(&mut machine), Ok((Halt::ProgramEnd, 1)));
    assert_eq!(cell(&machine, 1), Some(2));
}

#[test]
fn failed_jump_falls_through() {
    let mut machine = machine_for("if 1==2 goto 3; R[1]:=1+0; R[1]:=2+0;", &[]);
    assert_eq!(machine.step(), Ok(true));
    assert_eq!(machine.program_counter(), 1);
    assert_eq!(machine.step(), Ok(true));
    assert_eq!(cell(&machine, 1), Some(1));
}

#[test]
fn unwritten_cell_read_faults_and_keeps_state() {
    let mut machine = machine_for("R[1]:=R[5]+1;", &[(1, 0)]);
    assert_eq!(machine.step(), Err(Fault::UninitializedRead(5)));
    assert_eq!(machine.program_counter(), 0);
    assert_eq!(cell(&machine, 1), Some(0));
    assert_eq!(machine.advance(), Err(Fault::UninitializedRead(5)));
}

#[test]
fn division_by_zero_faults() {
    let mut machine = machine_for("R[1]:=1/R[2];", &[(2, 0)]);
    assert_eq!(machine.advance(), Err(Fault::ArithmeticFault));
    assert_eq!(cell(&machine, 1), None);
}

#[test]
fn budget_stops_endless_loop() {
    let mut machine = machine_for("if 1==1 goto 1;", &[]);
    machine.set_remaining_steps(3);
    assert_eq!(machine.advance(), Ok(None));
    assert_eq!(machine.advance(), Ok(None));
    assert_eq!(machine.advance(), Ok(Some(Halt::StepBudgetExhausted)));
    assert!(machine.program_running());
    assert_eq!(machine.advance(), Ok(Some(Halt::StepBudgetExhausted)));
}

#[test]
fn budget_counts_executed_steps() {
    let mut machine = machine_for("R[1]:=0+0; R[1]:=R[1]+1; if 1==1 goto 2;", &[]);
    machine.set_remaining_steps(5);
    assert_eq!(run(&mut machine), Ok((Halt::StepBudgetExhausted, 5)));
    assert_eq!(cell(&machine, 1), Some(2));
}

#[test]
fn zero_budget_takes_no_step() {
    let mut machine = machine_for("R[1]:=1+0;", &[]);
    machine.set_remaining_steps(0);
    assert_eq!(machine.advance(), Ok(Some(Halt::StepBudgetExhausted)));
    assert_eq!(cell(&machine, 1), None);
}

#[test]
fn natural_end_is_distinct_from_budget() {
    let mut machine = machine_for("R[1]:=1+0; R[2]:=2+0;", &[]);
    machine.set_remaining_steps(10);
    assert_eq!(machine.advance(), Ok(None));
    assert_eq!(machine.advance(), Ok(Some(Halt::ProgramEnd)));
    assert!(!machine.program_running());
    assert_eq!(machine.advance(), Ok(Some(Halt::ProgramEnd)));
}

#[test]
fn out_of_range_jump_ends_program() {
    let mut machine = machine_for("if 0==0 goto 10; R[1]:=1+0;", &[]);
    assert_eq!(machine.step(), Ok(false));
    assert_eq!(machine.program_counter(), 9);
    let mut machine = machine_for("if 0==0 goto 0; R[1]:=1+0;", &[]);
    assert_eq!(machine.step(), Ok(false));
    assert_eq!(machine.program_counter(), u32::MAX);
    assert_eq!(cell(&machine, 1), None);
}

#[test]
fn halted_machine_step_changes_nothing() {
    let mut machine = Machine::new();
    assert!(!machine.program_running());
    assert_eq!(machine.step(), Ok(false));
    assert_eq!(machine.program_counter(), 0);
    assert!(machine.current_instruction().is_none());
}

#[test]
fn counting_loop_runs_to_end() {
    let text = "R[1] := 0 + 0;\nR[1] := R[1] + 1;\nif R[1] < 10 goto 2;\nR[2] := R[1] * 3;\n";
    let mut machine = machine_for(text, &[]);
    assert_eq!(run(&mut machine).map(|(h, _)| h), Ok(Halt::ProgramEnd));
    assert_eq!(cell(&machine, 1), Some(10));
    assert_eq!(cell(&machine, 2), Some(30));
}

#[test]
fn memory_and_flags_round_trip() {
    let mut machine = Machine::new();
    let memory: HashMap<u32, i32> = [(4, -4), (8, 8)].into_iter().collect();
    machine.set_memory(&memory);
    assert_eq!(machine.get_memory(), &memory);
    assert!(!machine.debug());
    machine.set_debug(true);
    assert!(machine.debug());
    machine.load_program(program("R[4]:=1+1;").unwrap());
    assert_eq!(machine.program().len(), 1);
    assert!(machine.current_instruction().is_some());
    machine.step().unwrap();
    assert_eq!(cell(&machine, 4), Some(2));
    assert_eq!(cell(&machine, 8), Some(8));
}
