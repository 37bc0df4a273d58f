use std::collections::HashMap;
use crate::instructions::Instruction;
use vstd::prelude::*;

verus! {

broadcast use vstd::std_specs::hash::group_hash_axioms;

/// Why execution stopped before the program was done.
#[derive(Debug, Clone, Copy, PartialEq, Eq, Structural)]
pub enum Fault {
    /// A cell was read that no instruction (and no seed) ever wrote.
    UninitializedRead(u32),
    /// Division by zero, or a result outside the signed 32-bit range.
    ArithmeticFault,
}

/// Reading a cell: its value, or the fault of a cell never written.
pub open spec fn read(m: Map<u32, i32>, address: u32) -> Result<i32, Fault> {
    if m.contains_key(address) {
        Ok(m[address])
    } else {
        Err(Fault::UninitializedRead(address))
    }
}

/// Sparse memory: only written cells hold a value.
pub struct Memory {
    memory: HashMap<u32, i32>,
}

impl View for Memory {
    type V = Map<u32, i32>;

    closed spec fn view(&self) -> Map<u32, i32> {
        self.memory@
    }
}

impl Memory {
    pub fn get(&self, address: u32) -> (r: Result<i32, Fault>)
        ensures
            r == read(self@, address),
    {
        match self.memory.get(&address) {
            Some(v) => Ok(*v),
            None => Err(Fault::UninitializedRead(address)),
        }
    }

    pub fn set(&mut self, address: u32, value: i32)
        ensures
            final(self)@ == old(self)@.insert(address, value),
    {
        self.memory.insert(address, value);
    }

    pub fn new() -> (r: Memory)
        ensures
            r@ == Map::<u32, i32>::empty(),
    {
        Memory { memory: HashMap::new() }
    }
}

/// Why a run stopped without a fault.
#[derive(Debug, Clone, Copy, PartialEq, Eq, Structural)]
pub enum Halt {
    /// The program counter left the program.
    ProgramEnd,
    /// The step budget reached zero.
    StepBudgetExhausted,
}

/// The abstract state of a machine.
pub struct MachineState {
    /// 0-based index of the next instruction.
    pub pc: u32,
    pub program: Seq<Instruction>,
    pub memory: Map<u32, i32>,
    /// Steps that may still be taken, when a budget was set.
    pub budget: Option<u32>,
    pub debug: bool,
}

/// Every instruction can be numbered by the 32-bit counter; a loaded
/// program always satisfies this.
pub open spec fn counter_spans(s: MachineState) -> bool {
    s.program.len() <= u32::MAX
}

pub open spec fn running(s: MachineState) -> bool {
    s.pc < s.program.len()
}

/// The counter after a jump to the 1-based instruction `target`; a jump to 0
/// leaves the program.
pub open spec fn jump_counter(target: u32) -> u32 {
    if target == 0 {
        u32::MAX
    } else {
        (target - 1) as u32
    }
}

/// One fetch-execute cycle; a halted machine stays as it is.
pub open spec fn step_state(s: MachineState) -> Result<MachineState, Fault> {
    if running(s) {
        match s.program[s.pc as int].outcome(s.memory) {
            Ok((m, jump)) => Ok(
                MachineState {
                    memory: m,
                    pc: match jump {
                        Some(t) => jump_counter(t),
                        None => (s.pc + 1) as u32,
                    },
                    ..s
                },
            ),
            Err(e) => Err(e),
        }
    } else {
        Ok(s)
    }
}

/// One cycle of a run: halts when the program is done or the budget is
/// spent, else takes one step and charges it to the budget.
pub open spec fn advance_state(s: MachineState) -> Result<(MachineState, Option<Halt>), Fault> {
    if !running(s) {
        Ok((s, Some(Halt::ProgramEnd)))
    } else if s.budget == Some(0u32) {
        Ok((s, Some(Halt::StepBudgetExhausted)))
    } else {
        match step_state(s) {
            Ok(t) => {
                let u = MachineState {
                    budget: match s.budget {
                        Some(k) => Some((k - 1) as u32),
                        None => None,
                    },
                    ..t
                };
                if u.budget == Some(0u32) {
                    Ok((u, Some(Halt::StepBudgetExhausted)))
                } else if !running(u) {
                    Ok((u, Some(Halt::ProgramEnd)))
                } else {
                    Ok((u, None))
                }
            },
            Err(e) => Err(e),
        }
    }
}

/// `n` steps from `s`, or the fault that stopped them.
pub open spec fn steps(s: MachineState, n: nat) -> Result<MachineState, Fault>
    decreases n,
{
    if n == 0 {
        Ok(s)
    } else {
        match steps(s, (n - 1) as nat) {
            Ok(t) => step_state(t),
            Err(e) => Err(e),
        }
    }
}

/// `n` cycles of a run from `s`; the cycles after a halt or a fault are not taken.
pub open spec fn run_cycles(s: MachineState, n: nat) -> Result<(MachineState, Option<Halt>), Fault>
    decreases n,
{
    if n == 0 {
        Ok((s, None))
    } else {
        match run_cycles(s, (n - 1) as nat) {
            Ok((t, None)) => advance_state(t),
            other => other,
        }
    }
}

/// A jump whose relation fails moves the counter to the next instruction,
/// whatever its target, and changes nothing else.
pub proof fn lemma_fallthrough(s: MachineState)
    requires
        running(s),
        s.program[s.pc as int] is ConditionalJump,
        s.program[s.pc as int].condition_in(s.memory) == Ok::<bool, Fault>(false),
    ensures
        step_state(s) == Ok::<MachineState, Fault>(MachineState { pc: (s.pc + 1) as u32, ..s }),
{
}

proof fn lemma_step_keeps_budget(s: MachineState, budget: Option<u32>)
    requires
        step_state(s) is Ok,
    ensures
        step_state(MachineState { budget, ..s }) == Ok::<MachineState, Fault>(
            MachineState { budget, ..step_state(s)->Ok_0 },
        ),
{
}

proof fn lemma_steps_keep_program(s: MachineState, n: nat)
    requires
        steps(s, n) is Ok,
    ensures
        steps(s, n)->Ok_0.program == s.program,
        steps(s, n)->Ok_0.budget == s.budget,
    decreases n,
{
    if n > 0 {
        lemma_steps_keep_program(s, (n - 1) as nat);
    }
}

proof fn lemma_budget_prefix(s: MachineState, b: u32, k: nat)
    requires
        s.budget == Some(b),
        0 < b,
        k <= b,
        forall|j: nat| j <= b ==> #[trigger] steps(s, j) is Ok && running(steps(s, j)->Ok_0),
    ensures
        run_cycles(s, k) == Ok::<(MachineState, Option<Halt>), Fault>(
            (
                MachineState { budget: Some((b - k) as u32), ..steps(s, k)->Ok_0 },
                if k == b {
                    Some(Halt::StepBudgetExhausted)
                } else {
                    None
                },
            ),
        ),
    decreases k,
{
    if k == 0 {
        assert(MachineState { budget: Some(b), ..s } == s);
    } else {
        let j = (k - 1) as nat;
        lemma_budget_prefix(s, b, j);
        assert(steps(s, j) is Ok && running(steps(s, j)->Ok_0));
        assert(steps(s, k) is Ok && running(steps(s, k)->Ok_0));
        lemma_steps_keep_program(s, j);
        lemma_steps_keep_program(s, k);
        let x = steps(s, j)->Ok_0;
        let u = MachineState { budget: Some((b - j) as u32), ..x };
        lemma_step_keeps_budget(x, Some((b - j) as u32));
        assert(steps(s, k) == step_state(x));
        let y = steps(s, k)->Ok_0;
        assert(step_state(u) == Ok::<MachineState, Fault>(
            MachineState { budget: Some((b - j) as u32), ..y },
        ));
        assert(run_cycles(s, k) == advance_state(u));
        let v = MachineState { budget: Some((b - k) as u32), ..y };
        assert(running(v));
        if k == b {
            assert(advance_state(u) == Ok::<(MachineState, Option<Halt>), Fault>(
                (v, Some(Halt::StepBudgetExhausted)),
            ));
        } else {
            assert(advance_state(u) == Ok::<(MachineState, Option<Halt>), Fault>((v, None)));
        }
    }
}

/// With a budget of `b` steps, a program that would still be running after
/// each of its first `b` steps is stopped by the budget after exactly `b`
/// cycles, with its counter still inside the program; no earlier cycle halts.
pub proof fn lemma_budget_halts(s: MachineState, b: u32)
    requires
        s.budget == Some(b),
        b > 0,
        forall|j: nat| j <= b ==> #[trigger] steps(s, j) is Ok && running(steps(s, j)->Ok_0),
    ensures
        forall|k: nat|
            k < b ==> #[trigger] run_cycles(s, k) == Ok::<(MachineState, Option<Halt>), Fault>(
                (MachineState { budget: Some((b - k) as u32), ..steps(s, k)->Ok_0 }, None),
            ),
        run_cycles(s, b as nat) == Ok::<(MachineState, Option<Halt>), Fault>(
            (
                MachineState { budget: Some(0u32), ..steps(s, b as nat)->Ok_0 },
                Some(Halt::StepBudgetExhausted),
            ),
        ),
        running(run_cycles(s, b as nat)->Ok_0.0),
{
    assert forall|k: nat| k < b implies #[trigger] run_cycles(s, k) == Ok::<
        (MachineState, Option<Halt>),
        Fault,
    >((MachineState { budget: Some((b - k) as u32), ..steps(s, k)->Ok_0 }, None)) by {
        lemma_budget_prefix(s, b, k);
    }
    lemma_budget_prefix(s, b, b as nat);
    assert(steps(s, b as nat) is Ok && running(steps(s, b as nat)->Ok_0));
}

pub struct Machine {
    program_counter: u32,
    program: Vec<Instruction>,
    memory: Memory,
    steps_remaining: Option<u32>,
    debug_output: bool,
}

impl View for Machine {
    type V = MachineState;

    closed spec fn view(&self) -> MachineState {
        MachineState {
            pc: self.program_counter,
            program: self.program@,
            memory: self.memory@,
            budget: self.steps_remaining,
            debug: self.debug_output,
        }
    }
}

impl Machine {
    pub fn new() -> (r: Machine)
        ensures
            r@ == (MachineState {
                pc: 0,
                program: Seq::empty(),
                memory: Map::empty(),
                budget: None,
                debug: false,
            }),
    {
        Machine {
            program_counter: 0,
            program: Vec::new(),
            memory: Memory::new(),
            steps_remaining: None,
            debug_output: false,
        }
    }

    /// Installs a program and puts the counter on its first instruction.
    pub fn load_program(&mut self, program: Vec<Instruction>)
        requires
            program.len() <= u32::MAX,
        ensures
            final(self)@ == (MachineState { program: program@, pc: 0, ..old(self)@ }),
    {
        self.program = program;
        self.program_counter = 0;
    }

    /// Takes one step; returns whether the counter is still inside the program.
    pub fn step(&mut self) -> (r: Result<bool, Fault>)
        requires
            counter_spans(old(self)@),
        ensures
            match step_state(old(self)@) {
                Ok(s) => final(self)@ == s && r == Ok::<bool, Fault>(running(s)),
                Err(e) => final(self)@ == old(self)@ && r == Err::<bool, Fault>(e),
            },
    {
        let pc = self.program_counter as usize;
        if pc < self.program.len() {
            let jump = match self.program[pc].execute(&mut self.memory) {
                Ok(j) => j,
                Err(e) => return Err(e),
            };
            match jump {
                Some(target) => self.goto(target),
                None => self.program_counter = self.program_counter + 1,
            }
        }
        Ok(self.program_running())
    }

    pub fn program_running(&self) -> (r: bool)
        ensures
            r == running(self@),
    {
        (self.program_counter as usize) < self.program.len()
    }

    /// One cycle of a run, with the step budget applied.
    pub fn advance(&mut self) -> (r: Result<Option<Halt>, Fault>)
        requires
            counter_spans(old(self)@),
        ensures
            match advance_state(old(self)@) {
                Ok((s, h)) => final(self)@ == s && r == Ok::<Option<Halt>, Fault>(h),
                Err(e) => final(self)@ == old(self)@ && r == Err::<Option<Halt>, Fault>(e),
            },
    {
        if !self.program_running() {
            return Ok(Some(Halt::ProgramEnd));
        }
        if self.steps_remaining == Some(0u32) {
            return Ok(Some(Halt::StepBudgetExhausted));
        }
        match self.step() {
            Ok(_) => {},
            Err(e) => return Err(e),
        }
        match self.steps_remaining {
            Some(k) => {
                self.steps_remaining = Some(k - 1);
                if k == 1 {
                    return Ok(Some(Halt::StepBudgetExhausted));
                }
            },
            None => {},
        }
        if self.program_running() {
            Ok(None)
        } else {
            Ok(Some(Halt::ProgramEnd))
        }
    }

    fn goto(&mut self, instruction: u32)
        ensures
            final(self)@ == (MachineState { pc: jump_counter(instruction), ..old(self)@ }),
    {
        self.program_counter = if instruction == 0 {
            u32::MAX
        } else {
            instruction - 1
        };
    }

    pub fn set_memory(&mut self, mem: &HashMap<u32, i32>)
        ensures
            final(self)@ == (MachineState { memory: mem@, ..old(self)@ }),
    {
        self.memory = Memory { memory: mem.clone() };
    }

    pub fn get_memory(&self) -> (r: &HashMap<u32, i32>)
        ensures
            r@ == self@.memory,
    {
        &self.memory.memory
    }

    pub fn set_remaining_steps(&mut self, remaining_steps: u32)
        ensures
            final(self)@ == (MachineState { budget: Some(remaining_steps), ..old(self)@ }),
    {
        self.steps_remaining = Some(remaining_steps);
    }

    pub fn program_counter(&self) -> (r: u32)
        ensures
            r == self@.pc,
    {
        self.program_counter
    }

    /// The instruction the next step executes, if the program is running.
    pub fn current_instruction(&self) -> (r: Option<&Instruction>)
        ensures
            running(self@) ==> r == Some(&self@.program[self@.pc as int]),
            !running(self@) ==> r is None,
    {
        if (self.program_counter as usize) < self.program.len() {
            Some(&self.program[self.program_counter as usize])
        } else {
            None
        }
    }

    pub fn program(&self) -> (r: &Vec<Instruction>)
        ensures
            r@ == self@.program,
    {
        &self.program
    }

    pub fn debug(&self) -> (r: bool)
        ensures
            r == self@.debug,
    {
        self.debug_output
    }

    pub fn set_debug(&mut self, debug: bool)
        ensures
            final(self)@ == (MachineState { debug: debug, ..old(self)@ }),
    {
        self.debug_output = debug;
    }
}

} // verus!
