//! An 8086 instruction decoder, disassembler and functional simulator.
//!
//! [`disassemble`] turns machine code into instructions, [`to_asm`] writes
//! instructions as a listing, and [`simulate`] runs machine code on a
//! processor with eight word registers, an instruction pointer, the zero and
//! sign flags and one mebibyte of memory, counting the cycles that it takes.

pub mod byte_stream;
pub mod cpu;
pub mod decoding;
pub mod error;
pub mod instructions;
pub mod registers;
pub mod tables;
pub mod text;

use crate::cpu::step;
use crate::cpu::CpuState;
use crate::cpu::CPU;
use crate::cpu::MEMORY_SIZE;
use crate::decoding::decode_spec;
use crate::decoding::lemma_decoded_length;
use crate::error::ErrorView;
use crate::error::IntelError;
use crate::instructions::Instruction;
use vstd::prelude::*;
use vstd::slice::slice_subrange;
use vstd::string::StringExecFns;

verus! {

/// The instructions that `bytes` holds, one after the other from the first
/// byte to the last.
pub open spec fn disassemble_spec(bytes: Seq<u8>) -> Result<Seq<Instruction>, ErrorView>
    decreases bytes.len(),
{
    if bytes.len() == 0 {
        Ok(Seq::empty())
    } else {
        match decode_spec(bytes) {
            Err(error) => Err(error),
            Ok(instruction) => {
                proof {
                    lemma_decoded_length(bytes);
                }
                match disassemble_spec(bytes.skip(instruction.len as int)) {
                    Err(error) => Err(error),
                    Ok(rest) => Ok(seq![instruction] + rest),
                }
            },
        }
    }
}

/// The bytes of the encodings of `instructions`, one after the other.
pub open spec fn encoded(instructions: Seq<Instruction>) -> Seq<u8>
    decreases instructions.len(),
{
    if instructions.len() == 0 {
        Seq::empty()
    } else {
        instructions[0].bytes() + encoded(instructions.drop_first())
    }
}

/// The instructions that a disassembly gives hold, one after the other,
/// exactly the bytes that were disassembled.
pub proof fn lemma_disassembly_covers_input(bytes: Seq<u8>)
    ensures
        disassemble_spec(bytes) matches Ok(instructions) ==> encoded(instructions) == bytes,
    decreases bytes.len(),
{
    if bytes.len() > 0 {
        if let Ok(instruction) = decode_spec(bytes) {
            lemma_decoded_length(bytes);
            let tail = bytes.skip(instruction.len as int);
            lemma_disassembly_covers_input(tail);
            if let Ok(rest) = disassemble_spec(tail) {
                let all = seq![instruction] + rest;
                assert(all[0] == instruction);
                assert(all.drop_first() =~= rest);
                assert(bytes.take(instruction.len as int) + tail =~= bytes);
            }
        }
    } else {
        assert(encoded(Seq::<Instruction>::empty()) =~= bytes);
    }
}

/// Decodes `bytes` from the first byte to the last.
pub fn disassemble(bytes: &[u8]) -> (instructions: Result<Vec<Instruction>, IntelError>)
    ensures
        match disassemble_spec(bytes@) {
            Ok(model) => instructions matches Ok(decoded) && decoded@ == model && encoded(model)
                == bytes@,
            Err(error) => instructions is Err && instructions->Err_0@ == error,
        },
{
    let mut instructions: Vec<Instruction> = Vec::new();
    let mut at: usize = 0;
    proof {
        assert(bytes@.skip(0) =~= bytes@);
        lemma_disassembly_covers_input(bytes@);
    }
    while at < bytes.len()
        invariant
            at <= bytes@.len(),
            disassemble_spec(bytes@) == prepend(
                instructions@,
                disassemble_spec(bytes@.skip(at as int)),
            ),
            disassemble_spec(bytes@) matches Ok(model) ==> encoded(model) == bytes@,
        decreases bytes@.len() - at,
    {
        let rest = slice_subrange(bytes, at, bytes.len());
        proof {
            assert(rest@ =~= bytes@.skip(at as int));
        }
        let instruction = Instruction::decode(rest)?;
        proof {
            let tail = rest@.skip(instruction.len as int);
            assert(tail =~= bytes@.skip(at + instruction.len));
            match disassemble_spec(tail) {
                Ok(following) => {
                    assert(instructions@ + (seq![instruction] + following)
                        =~= instructions@.push(instruction) + following);
                },
                Err(_) => {},
            }
        }
        at += instruction.len();
        instructions.push(instruction);
    }
    proof {
        assert(instructions@ + Seq::<Instruction>::empty() =~= instructions@);
    }
    Ok(instructions)
}

/// A disassembly that goes on after the instructions `done`.
pub open spec fn prepend(
    done: Seq<Instruction>,
    rest: Result<Seq<Instruction>, ErrorView>,
) -> Result<Seq<Instruction>, ErrorView> {
    match rest {
        Ok(following) => Ok(done + following),
        Err(error) => Err(error),
    }
}

/// The lines of a listing: each instruction as text, followed by a line feed.
pub open spec fn lines(instructions: Seq<Instruction>) -> Seq<char>
    decreases instructions.len(),
{
    if instructions.len() == 0 {
        Seq::empty()
    } else {
        lines(instructions.drop_last()) + instructions.last().text() + "\n"@
    }
}

/// The listing of `instructions`: the line `bits 16`, an empty line, then
/// one line for each instruction.
pub open spec fn listing(instructions: Seq<Instruction>) -> Seq<char> {
    "bits 16\n\n"@ + lines(instructions)
}

/// Writes `instructions` as a listing that an assembler takes.
pub fn to_asm(instructions: &Vec<Instruction>) -> (out: String)
    ensures
        out@ == listing(instructions@),
{
    let mut out = String::from_str("bits 16\n\n");
    let mut i: usize = 0;
    while i < instructions.len()
        invariant
            i <= instructions@.len(),
            out@ == "bits 16\n\n"@ + lines(instructions@.take(i as int)),
        decreases instructions@.len() - i,
    {
        let line = instructions[i].to_string();
        proof {
            assert(instructions@.take(i + 1).drop_last() =~= instructions@.take(i as int));
            assert(instructions@.take(i + 1).last() == instructions@[i as int]);
        }
        out.append(line.as_str());
        out.append("\n");
        proof {
            assert(out@ =~= "bits 16\n\n"@ + lines(instructions@.take(i + 1)));
        }
        i += 1;
    }
    proof {
        assert(instructions@.take(instructions@.len() as int) =~= instructions@);
    }
    out
}

/// How a run ended: the state it left, the instructions it executed in the
/// order of execution, and the cycles they took together.
pub struct Outcome {
    pub state: CpuState,
    pub executed: Seq<Instruction>,
    pub cycles: nat,
}

/// What the processor does next: the instruction that lies in memory at the
/// instruction pointer is decoded and executed. The result is the state that
/// this leaves, and the instruction with the cycles it took, or the error of
/// an instruction that cannot be decoded or executed.
#[verifier::opaque]
pub open spec fn fetch_execute(state: CpuState) -> (
    CpuState,
    Result<(Instruction, nat), ErrorView>,
) {
    match decode_spec(state.memory.skip(state.ip() as int)) {
        Err(error) => (state, Err(error)),
        Ok(instruction) => match step(state, instruction) {
            (next, Err(error)) => (next, Err(error)),
            (next, Ok(cycles)) => (next, Ok((instruction, cycles))),
        },
    }
}

/// A run of at most `steps` instructions. While the instruction pointer is
/// below `end`, the processor fetches and executes the next instruction. The
/// run ends when the instruction pointer is at `end` or beyond it, when
/// `steps` instructions are executed, or with the error of the instruction
/// that cannot be decoded or executed.
pub open spec fn run(state: CpuState, end: nat, steps: nat) -> Result<Outcome, ErrorView>
    decreases steps,
{
    if state.ip() >= end || steps == 0 {
        Ok(Outcome { state, executed: Seq::empty(), cycles: 0 })
    } else {
        match fetch_execute(state) {
            (_, Err(error)) => Err(error),
            (next, Ok((instruction, cycles))) => after(
                instruction,
                cycles,
                run(next, end, (steps - 1) as nat),
            ),
        }
    }
}

/// A run that goes on after `instruction`, which took `cycles`.
pub open spec fn after(
    instruction: Instruction,
    cycles: nat,
    rest: Result<Outcome, ErrorView>,
) -> Result<Outcome, ErrorView> {
    match rest {
        Err(error) => Err(error),
        Ok(outcome) => Ok(
            Outcome {
                state: outcome.state,
                executed: seq![instruction] + outcome.executed,
                cycles: cycles + outcome.cycles,
            },
        ),
    }
}

/// A run that goes on after the instructions `done`, which took `cycles`.
pub open spec fn after_all(
    done: Seq<Instruction>,
    cycles: nat,
    rest: Result<Outcome, ErrorView>,
) -> Result<Outcome, ErrorView> {
    match rest {
        Err(error) => Err(error),
        Ok(outcome) => Ok(
            Outcome {
                state: outcome.state,
                executed: done + outcome.executed,
                cycles: cycles + outcome.cycles,
            },
        ),
    }
}

/// A run that has executed `done` and cannot decode or execute the next
/// instruction ends with the error of that instruction.
proof fn lemma_run_fails(
    done: Seq<Instruction>,
    cycles: nat,
    state: CpuState,
    end: nat,
    steps: nat,
)
    requires
        steps > 0,
        state.ip() < end,
        fetch_execute(state).1 is Err,
    ensures
        after_all(done, cycles, run(state, end, steps)) == Err::<Outcome, ErrorView>(
            fetch_execute(state).1->Err_0,
        ),
{
}

/// A run that has executed `done` and has come to its end, or has no steps
/// left, has executed nothing else.
proof fn lemma_run_stops(
    done: Seq<Instruction>,
    cycles: nat,
    state: CpuState,
    end: nat,
    steps: nat,
)
    requires
        state.ip() >= end || steps == 0,
    ensures
        after_all(done, cycles, run(state, end, steps)) == Ok::<Outcome, ErrorView>(
            Outcome { state, executed: done, cycles },
        ),
{
    assert(done + Seq::<Instruction>::empty() =~= done);
}

/// A run that has executed `done` and then executes another instruction goes
/// on from the state that the instruction leaves.
proof fn lemma_run_goes_on(
    done: Seq<Instruction>,
    cycles: nat,
    state: CpuState,
    end: nat,
    steps: nat,
)
    requires
        steps > 0,
        state.ip() < end,
        fetch_execute(state).1 is Ok,
    ensures
        after_all(done, cycles, run(state, end, steps)) == after_all(
            done.push(fetch_execute(state).1->Ok_0.0),
            cycles + fetch_execute(state).1->Ok_0.1,
            run(fetch_execute(state).0, end, (steps - 1) as nat),
        ),
{
    let instruction = fetch_execute(state).1->Ok_0.0;
    match run(fetch_execute(state).0, end, (steps - 1) as nat) {
        Ok(outcome) => {
            assert(done + (seq![instruction] + outcome.executed) =~= done.push(instruction)
                + outcome.executed);
        },
        Err(_) => {},
    }
}

/// Decodes the instruction at the instruction pointer of `cpu` and executes
/// it.
fn execute_next(cpu: &mut CPU) -> (executed: Result<(Instruction, usize), IntelError>)
    ensures
        final(cpu)@ == fetch_execute(old(cpu)@).0,
        match fetch_execute(old(cpu)@).1 {
            Ok((instruction, cycles)) => executed matches Ok(pair) && pair.0 == instruction
                && pair.1 == cycles,
            Err(error) => executed is Err && executed->Err_0@ == error,
        },
{
    reveal(fetch_execute);
    let address = cpu.ip_address();
    let memory = cpu.get_memory();
    let bytestream = slice_subrange(memory, address, memory.len());
    proof {
        assert(bytestream@ =~= cpu@.memory.skip(address as int));
    }
    let instruction = Instruction::decode(bytestream)?;
    let cycles = cpu.simulate(&instruction)?;
    Ok((instruction, cycles))
}

/// The run of a program: loaded at address 0 of a processor after reset, and
/// run to its end, however many instructions that takes as far as a count
/// can tell. A program of [`MEMORY_SIZE`] bytes or more is refused.
pub open spec fn simulate_spec(program: Seq<u8>) -> Result<Outcome, ErrorView> {
    if program.len() >= MEMORY_SIZE {
        Err(ErrorView::ProgramTooBig(program.len() as usize, MEMORY_SIZE))
    } else {
        run(CpuState::reset().with_program(program), program.len(), usize::MAX as nat)
    }
}

/// What a simulation gives: the processor as the run left it, the
/// instructions in the order in which they were executed, and the cycles they
/// took together.
pub struct SimulationResult {
    pub cpu: CPU,
    pub executed_instructions: Vec<Instruction>,
    pub cycles: usize,
}

impl SimulationResult {
    /// Whether the result is what the run `outcome` gives; the cycles stop
    /// counting at `usize::MAX`.
    pub open spec fn is_outcome(&self, outcome: Outcome) -> bool {
        &&& self.cpu@ == outcome.state
        &&& self.executed_instructions@ == outcome.executed
        &&& self.cycles == if outcome.cycles > usize::MAX {
            usize::MAX as nat
        } else {
            outcome.cycles
        }
    }
}

/// Whether a simulation ended as the model says.
pub open spec fn simulated(
    result: Result<SimulationResult, IntelError>,
    model: Result<Outcome, ErrorView>,
) -> bool {
    match model {
        Ok(outcome) => result matches Ok(simulation) && simulation.is_outcome(outcome),
        Err(error) => result is Err && result->Err_0@ == error,
    }
}

/// A simulation is a function of the program: two results of simulating the
/// same program are the same, in state, instructions, cycles and error.
pub proof fn lemma_simulation_is_a_function(
    program: Seq<u8>,
    first: Result<SimulationResult, IntelError>,
    second: Result<SimulationResult, IntelError>,
)
    requires
        simulated(first, simulate_spec(program)),
        simulated(second, simulate_spec(program)),
    ensures
        first is Ok <==> second is Ok,
        first is Ok ==> {
            &&& first->Ok_0.cpu@ == second->Ok_0.cpu@
            &&& first->Ok_0.executed_instructions@ == second->Ok_0.executed_instructions@
            &&& first->Ok_0.cycles == second->Ok_0.cycles
        },
        first is Err ==> first->Err_0@ == second->Err_0@,
{
}

/// A run that ends without an error has either left the program or used up
/// its steps: it has executed at most `steps` instructions, and where it has
/// executed fewer, the instruction pointer is at `end` or beyond.
pub proof fn lemma_run_ends(state: CpuState, end: nat, steps: nat)
    ensures
        run(state, end, steps) matches Ok(outcome) ==> outcome.executed.len() <= steps && (
        outcome.executed.len() < steps ==> outcome.state.ip() >= end),
    decreases steps,
{
    if state.ip() < end && steps > 0 {
        if let (next, Ok((instruction, cycles))) = fetch_execute(state) {
            lemma_run_ends(next, end, (steps - 1) as nat);
        }
    }
}

/// Runs the processor `cpu` for at most `max_steps` instructions, while its
/// instruction pointer is below `end`.
///
/// Where the run ends because `max_steps` instructions are executed, the
/// instruction pointer of the result is still below `end`.
pub fn simulate_from(cpu: CPU, end: usize, max_steps: usize) -> (result: Result<
    SimulationResult,
    IntelError,
>)
    ensures
        simulated(result, run(cpu@, end as nat, max_steps as nat)),
{
    let ghost start = cpu@;
    let mut machine = cpu;
    let mut executed_instructions: Vec<Instruction> = Vec::new();
    let mut cycles: usize = 0;
    let mut steps: usize = 0;
    let ghost mut total: nat = 0;
    proof {
        match run(start, end as nat, max_steps as nat) {
            Ok(outcome) => {
                assert(executed_instructions@ + outcome.executed =~= outcome.executed);
            },
            Err(_) => {},
        }
    }
    while steps < max_steps && machine.ip_address() < end
        invariant
            steps <= max_steps,
            start == cpu@,
            cycles == if total > usize::MAX {
                usize::MAX as nat
            } else {
                total
            },
            run(start, end as nat, max_steps as nat) == after_all(
                executed_instructions@,
                total,
                run(machine@, end as nat, (max_steps - steps) as nat),
            ),
        decreases max_steps - steps,
    {
        let ghost before = machine@;
        let (instruction, charge) = match execute_next(&mut machine) {
            Ok(pair) => pair,
            Err(error) => {
                proof {
                    lemma_run_fails(
                        executed_instructions@,
                        total,
                        before,
                        end as nat,
                        (max_steps - steps) as nat,
                    );
                }
                return Err(error);
            },
        };
        proof {
            lemma_run_goes_on(
                executed_instructions@,
                total,
                before,
                end as nat,
                (max_steps - steps) as nat,
            );
            total = total + charge as nat;
        }
        cycles = cycles.saturating_add(charge);
        executed_instructions.push(instruction);
        steps += 1;
    }
    proof {
        lemma_run_stops(
            executed_instructions@,
            total,
            machine@,
            end as nat,
            (max_steps - steps) as nat,
        );
    }
    Ok(SimulationResult { cpu: machine, executed_instructions, cycles })
}

/// Loads `program` at address 0 of a processor after reset and runs it until
/// the instruction pointer leaves the program.
///
/// The result depends on nothing but `program`. A program that never leaves
/// its bytes is given up after `usize::MAX` instructions.
pub fn simulate(program: &[u8]) -> (result: Result<SimulationResult, IntelError>)
    ensures
        simulated(result, simulate_spec(program@)),
{
    let mut cpu = CPU::new();
    cpu.set_program(program)?;
    simulate_from(cpu, program.len(), usize::MAX)
}

} // verus!
