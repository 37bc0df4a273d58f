use vstd::prelude::*;

verus! {

/// What a run of the interpreter was asked to do.
#[derive(Debug)]
pub struct Options {
    /// Path of the program text.
    pub program: String,
    pub verbose: bool,
    /// Trace each step with the counter, the instruction and the memory.
    pub debug: bool,
    /// Path of a memory seed, if any.
    pub memory: Option<String>,
    /// Whether to run the program after loading it.
    pub run: bool,
    pub print_program: bool,
    pub print_memory: bool,
    /// Step budget, if any.
    pub maximum_steps: Option<u32>,
}

impl Options {
    /// No program path yet, no seed, no budget; run, and print nothing extra.
    pub fn new() -> (r: Options)
        ensures
            r.program@ == Seq::<char>::empty(),
            !r.verbose,
            !r.debug,
            r.memory is None,
            r.run,
            !r.print_program,
            !r.print_memory,
            r.maximum_steps is None,
    {
        Options {
            program: String::new(),
            verbose: false,
            debug: false,
            memory: None,
            run: true,
            print_program: false,
            print_memory: false,
            maximum_steps: None,
        }
    }
}

} // verus!
