//! The execution engine: a program counter, a pointer into the tape, the
//! instruction sequence, and the tape itself, driven by a fetch-decode-execute
//! loop.
//!
//! The engine performs no I/O of its own: `Input` instructions consume bytes
//! from the front of an in-memory buffer and `Print` instructions append to
//! another, so a host can connect it to any source and sink and a test can
//! observe the exact byte streams.

use crate::matching::{find_matching, spec_find_matching, IteratorOrder};
use crate::token::BFToken;
use vstd::prelude::*;

verus! {

/// How many cells a tape allocated by `BrainfuckRuntime::new` starts with.
pub const DEFAULT_MEMORY_SIZE: usize = 30000;

/// A fatal condition that aborts a run.  The engine performs no local
/// recovery: the error is returned to the caller, who decides what to do.
#[derive(Debug, PartialEq, Eq, Clone, Copy, Structural)]
pub enum RuntimeError {
    /// A jump instruction was taken but has no balancing partner in the
    /// instruction sequence: the program is structurally invalid.
    UnbalancedBracket,
    /// An `Input` instruction executed with no byte left in the input buffer.
    InputExhausted,
}

/// How a bounded run ended.
#[derive(Debug, PartialEq, Eq, Clone, Copy, Structural)]
pub enum RunOutcome {
    /// The program counter reached the end of the instruction sequence.
    Halted,
    /// The step budget was exhausted before the program halted.
    OutOfSteps,
    /// A fatal condition aborted the run; the engine keeps the state reached
    /// at the point of failure for diagnostic purposes.
    Failed(RuntimeError),
}

/// The mathematical state of the machine: the tape with the pointer into it,
/// the program counter, and the two byte streams.
#[verifier::ext_equal]
pub struct MachineState {
    pub memory: Seq<u8>,
    pub pointer: int,
    pub instruction: int,
    pub input: Seq<u8>,
    pub output: Seq<u8>,
}

/// Incrementing a cell wraps 255 around to 0.
pub open spec fn spec_cell_inc(v: u8) -> u8 {
    (((v as int) + 1) % 256) as u8
}

/// Decrementing a cell wraps 0 around to 255.
pub open spec fn spec_cell_dec(v: u8) -> u8 {
    (((v as int) + 255) % 256) as u8
}

/// One step of the machine: the meaning of the instruction at the program
/// counter, as a function from state to next state or fatal error.
pub open spec fn spec_step(prog: Seq<BFToken>, s: MachineState) -> Result<
    MachineState,
    RuntimeError,
>
    recommends
        0 <= s.instruction < prog.len(),
        0 <= s.pointer < s.memory.len(),
{
    let cell = s.memory[s.pointer];
    match prog[s.instruction] {
        BFToken::CellAdd => Ok(
            MachineState {
                memory: s.memory.update(s.pointer, spec_cell_inc(cell)),
                instruction: s.instruction + 1,
                ..s
            },
        ),
        BFToken::CellSubtract => Ok(
            MachineState {
                memory: s.memory.update(s.pointer, spec_cell_dec(cell)),
                instruction: s.instruction + 1,
                ..s
            },
        ),
        BFToken::PtrLeft => if s.pointer == 0 {
            Ok(
                MachineState {
                    memory: seq![0u8] + s.memory,
                    pointer: 0,
                    instruction: s.instruction + 1,
                    ..s
                },
            )
        } else {
            Ok(MachineState { pointer: s.pointer - 1, instruction: s.instruction + 1, ..s })
        },
        BFToken::PtrRight => if s.pointer + 1 == s.memory.len() {
            Ok(
                MachineState {
                    memory: s.memory.push(0u8),
                    pointer: s.pointer + 1,
                    instruction: s.instruction + 1,
                    ..s
                },
            )
        } else {
            Ok(MachineState { pointer: s.pointer + 1, instruction: s.instruction + 1, ..s })
        },
        BFToken::Print => Ok(
            MachineState { output: s.output.push(cell), instruction: s.instruction + 1, ..s },
        ),
        BFToken::Input => if s.input.len() == 0 {
            Err(RuntimeError::InputExhausted)
        } else {
            Ok(
                MachineState {
                    memory: s.memory.update(s.pointer, s.input[0]),
                    input: s.input.drop_first(),
                    instruction: s.instruction + 1,
                    ..s
                },
            )
        },
        BFToken::JumpForwards => if cell == 0 {
            match spec_find_matching(
                prog,
                BFToken::JumpForwards,
                BFToken::JumpBackwards,
                s.instruction,
                true,
            ) {
                Some(j) => Ok(MachineState { instruction: j + 1, ..s }),
                None => Err(RuntimeError::UnbalancedBracket),
            }
        } else {
            Ok(MachineState { instruction: s.instruction + 1, ..s })
        },
        BFToken::JumpBackwards => if cell != 0 {
            match spec_find_matching(
                prog,
                BFToken::JumpForwards,
                BFToken::JumpBackwards,
                s.instruction,
                false,
            ) {
                Some(j) => Ok(MachineState { instruction: j + 1, ..s }),
                None => Err(RuntimeError::UnbalancedBracket),
            }
        } else {
            Ok(MachineState { instruction: s.instruction + 1, ..s })
        },
        BFToken::NoOP => Ok(MachineState { instruction: s.instruction + 1, ..s }),
    }
}

/// Running the machine for at most `fuel` steps: the outcome together with
/// the state in which the machine is left.
pub open spec fn spec_run(prog: Seq<BFToken>, s: MachineState, fuel: nat) -> (RunOutcome,
    MachineState)
    decreases fuel,
{
    if s.instruction >= prog.len() {
        (RunOutcome::Halted, s)
    } else if fuel == 0 {
        (RunOutcome::OutOfSteps, s)
    } else {
        match spec_step(prog, s) {
            Ok(s2) => spec_run(prog, s2, (fuel - 1) as nat),
            Err(e) => (RunOutcome::Failed(e), s),
        }
    }
}

/// The step budget is the host's bound, not part of the semantics: once a
/// run halts or fails within some budget, every larger budget yields the
/// same outcome and the same final state.
pub proof fn lemma_run_outcome_stable(prog: Seq<BFToken>, s: MachineState, n: nat, m: nat)
    requires
        n <= m,
        !(spec_run(prog, s, n).0 is OutOfSteps),
    ensures
        spec_run(prog, s, m) == spec_run(prog, s, n),
    decreases n,
{
    if s.instruction < prog.len() {
        match spec_step(prog, s) {
            Ok(s2) => {
                lemma_run_outcome_stable(prog, s2, (n - 1) as nat, (m - 1) as nat);
            },
            Err(_) => {},
        }
    }
}

/// The execution engine.  The tape starts as a block of zeroed cells and
/// grows by one zero cell whenever the pointer moves past either end, so a
/// run never walks off the tape.
#[derive(Debug, Clone)]
pub struct BrainfuckRuntime {
    pub pointer: usize,
    pub instruction: usize,
    pub instruction_stack: Vec<BFToken>,
    pub memory: Vec<u8>,
}

impl BrainfuckRuntime {
    /// The tape invariant: the pointer always addresses a live cell.
    pub open spec fn inv(self) -> bool {
        self.pointer < self.memory@.len()
    }

    /// The machine state that this engine, together with the contents of the
    /// input and output buffers, stands for.
    pub open spec fn machine_state(self, input: Seq<u8>, output: Seq<u8>) -> MachineState {
        MachineState {
            memory: self.memory@,
            pointer: self.pointer as int,
            instruction: self.instruction as int,
            input,
            output,
        }
    }

    /// Creates an engine whose tape starts with `DEFAULT_MEMORY_SIZE` zeroed
    /// cells.
    pub fn new() -> (r: Self)
        ensures
            r.inv(),
            r.pointer == 0,
            r.instruction == 0,
            r.instruction_stack@ == Seq::<BFToken>::empty(),
            r.memory@ == Seq::<u8>::new(DEFAULT_MEMORY_SIZE as nat, |i: int| 0u8),
    {
        Self::with_memory_size(DEFAULT_MEMORY_SIZE)
    }

    /// Creates an engine whose tape starts with `size` zeroed cells.  The
    /// tape always holds at least one cell, so that the pointer has a cell
    /// to address; it still grows without bound during a run.
    pub fn with_memory_size(size: usize) -> (r: Self)
        requires
            size >= 1,
        ensures
            r.inv(),
            r.pointer == 0,
            r.instruction == 0,
            r.instruction_stack@ == Seq::<BFToken>::empty(),
            r.memory@ == Seq::<u8>::new(size as nat, |i: int| 0u8),
    {
        Self {
            pointer: 0,
            instruction: 0,
            instruction_stack: Vec::new(),
            memory: zeroed_cells(size),
        }
    }

    /// Resets the engine to its initial state: program counter and pointer
    /// at zero, every tape cell cleared, and the instruction sequence
    /// emptied.  The tape keeps its current length.
    pub fn clean_env(&mut self)
        ensures
            final(self).pointer == 0,
            final(self).instruction == 0,
            final(self).instruction_stack@ == Seq::<BFToken>::empty(),
            final(self).memory@ == Seq::<u8>::new(old(self).memory@.len(), |i: int| 0u8),
            old(self).inv() ==> final(self).inv(),
    {
        self.pointer = 0;
        self.instruction = 0;
        self.instruction_stack = Vec::new();
        let n = self.memory.len();
        self.memory = zeroed_cells(n);
    }

    /// Appends a sequence of tokens to the instruction sequence.
    pub fn add_tokens(&mut self, tokens: Vec<BFToken>)
        ensures
            final(self).instruction_stack@ == old(self).instruction_stack@ + tokens@,
            final(self).memory@ == old(self).memory@,
            final(self).pointer == old(self).pointer,
            final(self).instruction == old(self).instruction,
    {
        let mut rest = tokens;
        self.instruction_stack.append(&mut rest);
    }

    /// Reads the active cell.  Thanks to the tape invariant this can never
    /// fail: the pointer always addresses a live cell.
    pub fn read_cell(&self) -> (r: u8)
        requires
            self.inv(),
        ensures
            r == self.memory@[self.pointer as int],
    {
        self.memory[self.pointer]
    }

    /// Writes the active cell.
    pub fn write_cell(&mut self, value: u8)
        requires
            old(self).inv(),
        ensures
            final(self).inv(),
            final(self).memory@ == old(self).memory@.update(old(self).pointer as int, value),
            final(self).pointer == old(self).pointer,
            final(self).instruction == old(self).instruction,
            final(self).instruction_stack@ == old(self).instruction_stack@,
    {
        self.memory.set(self.pointer, value);
    }

    /// Adds one to the active cell, wrapping 255 around to 0.
    pub fn op_add_to_cell(&mut self)
        requires
            old(self).inv(),
        ensures
            final(self).inv(),
            final(self).memory@ == old(self).memory@.update(
                old(self).pointer as int,
                spec_cell_inc(old(self).memory@[old(self).pointer as int]),
            ),
            final(self).pointer == old(self).pointer,
            final(self).instruction == old(self).instruction,
            final(self).instruction_stack@ == old(self).instruction_stack@,
    {
        let v = self.memory[self.pointer];
        let w: u8 = if v == 255 {
            0
        } else {
            v + 1
        };
        self.memory.set(self.pointer, w);
    }

    /// Subtracts one from the active cell, wrapping 0 around to 255.
    pub fn op_sub_from_cell(&mut self)
        requires
            old(self).inv(),
        ensures
            final(self).inv(),
            final(self).memory@ == old(self).memory@.update(
                old(self).pointer as int,
                spec_cell_dec(old(self).memory@[old(self).pointer as int]),
            ),
            final(self).pointer == old(self).pointer,
            final(self).instruction == old(self).instruction,
            final(self).instruction_stack@ == old(self).instruction_stack@,
    {
        let v = self.memory[self.pointer];
        let w: u8 = if v == 0 {
            255
        } else {
            v - 1
        };
        self.memory.set(self.pointer, w);
    }

    /// Moves the pointer one cell to the left.  At the left edge a fresh
    /// zero cell is prepended and the pointer stays on it, so the tape is
    /// effectively unbounded in both directions.
    pub fn op_ptr_left(&mut self)
        requires
            old(self).inv(),
        ensures
            final(self).inv(),
            old(self).pointer == 0 ==> final(self).pointer == 0 && final(self).memory@ == seq![0u8]
                + old(self).memory@ && final(self).memory@[final(self).pointer as int] == 0u8,
            old(self).pointer > 0 ==> final(self).pointer == old(self).pointer - 1 && final(self).memory@ == old(self).memory@,
            final(self).instruction == old(self).instruction,
            final(self).instruction_stack@ == old(self).instruction_stack@,
    {
        if self.pointer == 0 {
            self.memory.insert(0, 0u8);
            proof {
                assert(self.memory@ =~= seq![0u8] + old(self).memory@);
            }
        } else {
            self.pointer = self.pointer - 1;
        }
    }

    /// Moves the pointer one cell to the right, appending a fresh zero cell
    /// first when the pointer is on the last one.
    pub fn op_ptr_right(&mut self)
        requires
            old(self).inv(),
        ensures
            final(self).inv(),
            final(self).pointer == old(self).pointer + 1,
            old(self).pointer + 1 == old(self).memory@.len() ==> final(self).memory@ == old(
                self,
            ).memory@.push(0u8) && final(self).memory@[final(self).pointer as int] == 0u8,
            old(self).pointer + 1 < old(self).memory@.len() ==> final(self).memory@ == old(
                self,
            ).memory@,
            final(self).instruction == old(self).instruction,
            final(self).instruction_stack@ == old(self).instruction_stack@,
    {
        let n = self.memory.len();
        if self.pointer + 1 >= n {
            self.memory.push(0u8);
        }
        self.pointer = self.pointer + 1;
    }

    /// Appends the active cell's value to the output buffer.
    pub fn op_print_cell_as_char(&self, output: &mut Vec<u8>)
        requires
            self.inv(),
        ensures
            final(output)@ == old(output)@.push(self.memory@[self.pointer as int]),
    {
        let b = self.memory[self.pointer];
        output.push(b);
    }

    /// Reads exactly one byte from the front of the input buffer into the
    /// active cell; an empty buffer is the fatal `InputExhausted` condition
    /// and leaves everything unchanged.
    pub fn op_input_to_cell(&mut self, input: &mut Vec<u8>) -> (r: Result<(), RuntimeError>)
        requires
            old(self).inv(),
        ensures
            final(self).inv(),
            final(self).pointer == old(self).pointer,
            final(self).instruction == old(self).instruction,
            final(self).instruction_stack@ == old(self).instruction_stack@,
            match r {
                Ok(()) => old(input)@.len() > 0 && final(input)@ == old(input)@.drop_first()
                    && final(self).memory@ == old(self).memory@.update(
                    old(self).pointer as int,
                    old(input)@[0],
                ),
                Err(e) => e == RuntimeError::InputExhausted && old(input)@.len() == 0 && final(input)@ == old(input)@ && final(self).memory@ == old(self).memory@,
            },
    {
        if input.len() == 0 {
            return Err(RuntimeError::InputExhausted);
        }
        let b = input.remove(0);
        proof {
            assert(input@ =~= old(input)@.drop_first());
        }
        self.memory.set(self.pointer, b);
        Ok(())
    }

    /// When the active cell is zero, jumps the program counter to the
    /// balancing `JumpBackwards`; a missing partner is the fatal
    /// `UnbalancedBracket` condition.
    pub fn op_jump_forwards(&mut self) -> (r: Result<(), RuntimeError>)
        requires
            old(self).inv(),
            old(self).instruction < old(self).instruction_stack@.len(),
        ensures
            final(self).inv(),
            final(self).memory@ == old(self).memory@,
            final(self).pointer == old(self).pointer,
            final(self).instruction_stack@ == old(self).instruction_stack@,
            match r {
                Ok(()) => if old(self).memory@[old(self).pointer as int] == 0 {
                    spec_find_matching(
                        old(self).instruction_stack@,
                        BFToken::JumpForwards,
                        BFToken::JumpBackwards,
                        old(self).instruction as int,
                        true,
                    ) == Some(final(self).instruction as int) && final(self).instruction
                        < final(self).instruction_stack@.len()
                } else {
                    final(self).instruction == old(self).instruction
                },
                Err(e) => e == RuntimeError::UnbalancedBracket && old(self).memory@[old(
                    self,
                ).pointer as int] == 0 && spec_find_matching(
                    old(self).instruction_stack@,
                    BFToken::JumpForwards,
                    BFToken::JumpBackwards,
                    old(self).instruction as int,
                    true,
                ) is None && final(self).instruction == old(self).instruction,
            },
    {
        if self.memory[self.pointer] == 0 {
            match find_matching(
                &self.instruction_stack,
                BFToken::JumpForwards,
                BFToken::JumpBackwards,
                self.instruction,
                IteratorOrder::FrontToBack,
            ) {
                Some(j) => {
                    self.instruction = j;
                    Ok(())
                },
                None => Err(RuntimeError::UnbalancedBracket),
            }
        } else {
            Ok(())
        }
    }

    /// When the active cell is non-zero, jumps the program counter back to
    /// the balancing `JumpForwards`; a missing partner is the fatal
    /// `UnbalancedBracket` condition.
    pub fn op_jump_backwards(&mut self) -> (r: Result<(), RuntimeError>)
        requires
            old(self).inv(),
            old(self).instruction < old(self).instruction_stack@.len(),
        ensures
            final(self).inv(),
            final(self).memory@ == old(self).memory@,
            final(self).pointer == old(self).pointer,
            final(self).instruction_stack@ == old(self).instruction_stack@,
            match r {
                Ok(()) => if old(self).memory@[old(self).pointer as int] != 0 {
                    spec_find_matching(
                        old(self).instruction_stack@,
                        BFToken::JumpForwards,
                        BFToken::JumpBackwards,
                        old(self).instruction as int,
                        false,
                    ) == Some(final(self).instruction as int) && final(self).instruction
                        < final(self).instruction_stack@.len()
                } else {
                    final(self).instruction == old(self).instruction
                },
                Err(e) => e == RuntimeError::UnbalancedBracket && old(self).memory@[old(
                    self,
                ).pointer as int] != 0 && spec_find_matching(
                    old(self).instruction_stack@,
                    BFToken::JumpForwards,
                    BFToken::JumpBackwards,
                    old(self).instruction as int,
                    false,
                ) is None && final(self).instruction == old(self).instruction,
            },
    {
        if self.memory[self.pointer] != 0 {
            match find_matching(
                &self.instruction_stack,
                BFToken::JumpForwards,
                BFToken::JumpBackwards,
                self.instruction,
                IteratorOrder::BackToFront,
            ) {
                Some(j) => {
                    self.instruction = j;
                    Ok(())
                },
                None => Err(RuntimeError::UnbalancedBracket),
            }
        } else {
            Ok(())
        }
    }

    /// Fetches, decodes and executes the instruction at the program counter,
    /// then advances the counter past it (past the balancing bracket when a
    /// jump was taken).  The effect is exactly one `spec_step` of the
    /// machine; on a fatal error nothing changes.
    pub fn next_instruction(&mut self, input: &mut Vec<u8>, output: &mut Vec<u8>) -> (r: Result<
        (),
        RuntimeError,
    >)
        requires
            old(self).inv(),
            old(self).instruction < old(self).instruction_stack@.len(),
        ensures
            final(self).inv(),
            final(self).instruction_stack@ == old(self).instruction_stack@,
            final(self).instruction <= final(self).instruction_stack@.len(),
            match r {
                Ok(()) => spec_step(
                    old(self).instruction_stack@,
                    old(self).machine_state(old(input)@, old(output)@),
                ) == Ok::<MachineState, RuntimeError>(
                    final(self).machine_state(final(input)@, final(output)@),
                ),
                Err(e) => spec_step(
                    old(self).instruction_stack@,
                    old(self).machine_state(old(input)@, old(output)@),
                ) == Err::<MachineState, RuntimeError>(e) && final(self).memory@ == old(
                    self,
                ).memory@ && final(self).pointer == old(self).pointer && final(self).instruction
                    == old(self).instruction && final(input)@ == old(input)@ && final(output)@
                    == old(output)@,
            },
    {
        let t = self.instruction_stack[self.instruction];
        match t {
            BFToken::CellAdd => self.op_add_to_cell(),
            BFToken::CellSubtract => self.op_sub_from_cell(),
            BFToken::PtrLeft => self.op_ptr_left(),
            BFToken::PtrRight => self.op_ptr_right(),
            BFToken::Print => self.op_print_cell_as_char(output),
            BFToken::Input => {
                match self.op_input_to_cell(input) {
                    Ok(()) => {},
                    Err(e) => {
                        return Err(e);
                    },
                }
            },
            BFToken::JumpForwards => {
                match self.op_jump_forwards() {
                    Ok(()) => {},
                    Err(e) => {
                        return Err(e);
                    },
                }
            },
            BFToken::JumpBackwards => {
                match self.op_jump_backwards() {
                    Ok(()) => {},
                    Err(e) => {
                        return Err(e);
                    },
                }
            },
            BFToken::NoOP => {},
        }
        let n = self.instruction_stack.len();
        assert(self.instruction < n);
        self.instruction = self.instruction + 1;
        Ok(())
    }

    /// Runs the machine until it halts, fails, or has executed `max_steps`
    /// instructions, and says which of the three happened.  A program need
    /// not terminate on its own; the step budget is the host's externally
    /// imposed bound.
    pub fn run_full_stack(&mut self, input: &mut Vec<u8>, output: &mut Vec<u8>, max_steps: u64)
        -> (r: RunOutcome)
        requires
            old(self).inv(),
            old(self).instruction <= old(self).instruction_stack@.len(),
        ensures
            final(self).inv(),
            final(self).instruction_stack@ == old(self).instruction_stack@,
            ({
                let (outcome, fin) = spec_run(
                    old(self).instruction_stack@,
                    old(self).machine_state(old(input)@, old(output)@),
                    max_steps as nat,
                );
                r == outcome && final(self).machine_state(final(input)@, final(output)@) == fin
            }),
    {
        let ghost prog = self.instruction_stack@;
        let ghost s0 = self.machine_state(input@, output@);
        let mut steps: u64 = 0;
        while steps < max_steps
            invariant
                steps <= max_steps,
                self.inv(),
                self.instruction <= self.instruction_stack@.len(),
                self.instruction_stack@ == prog,
                prog == old(self).instruction_stack@,
                s0 == old(self).machine_state(old(input)@, old(output)@),
                spec_run(prog, s0, max_steps as nat) == spec_run(
                    prog,
                    self.machine_state(input@, output@),
                    (max_steps - steps) as nat,
                ),
            decreases max_steps - steps,
        {
            if self.instruction == self.instruction_stack.len() {
                return RunOutcome::Halted;
            }
            let ghost pre = self.machine_state(input@, output@);
            match self.next_instruction(input, output) {
                Ok(()) => {},
                Err(e) => {
                    proof {
                        assert(spec_run(prog, pre, (max_steps - steps) as nat) == (
                            RunOutcome::Failed(e),
                            pre,
                        ));
                    }
                    return RunOutcome::Failed(e);
                },
            }
            proof {
                assert(spec_run(prog, pre, (max_steps - steps) as nat) == spec_run(
                    prog,
                    self.machine_state(input@, output@),
                    (max_steps - steps - 1) as nat,
                ));
            }
            steps = steps + 1;
        }
        if self.instruction == self.instruction_stack.len() {
            RunOutcome::Halted
        } else {
            RunOutcome::OutOfSteps
        }
    }
}

impl Default for BrainfuckRuntime {
    /// The default engine is `BrainfuckRuntime::new`.
    fn default() -> (r: Self)
        ensures
            r.inv(),
            r.pointer == 0,
            r.instruction == 0,
            r.instruction_stack@ == Seq::<BFToken>::empty(),
            r.memory@ == Seq::<u8>::new(DEFAULT_MEMORY_SIZE as nat, |i: int| 0u8),
    {
        BrainfuckRuntime::new()
    }
}

/// A block of `n` zeroed tape cells.
fn zeroed_cells(n: usize) -> (r: Vec<u8>)
    ensures
        r@ == Seq::<u8>::new(n as nat, |i: int| 0u8),
{
    let mut cells: Vec<u8> = Vec::new();
    let mut i: usize = 0;
    while i < n
        invariant
            i <= n,
            cells@.len() == i,
            forall|k: int| 0 <= k < i ==> cells@[k] == 0u8,
        decreases n - i,
    {
        cells.push(0u8);
        i = i + 1;
    }
    proof {
        assert(cells@ =~= Seq::<u8>::new(n as nat, |i: int| 0u8));
    }
    cells
}

} // verus!
