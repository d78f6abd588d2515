//! The meaning of a program, as mathematics.
//!
//! [`Machine`] is the part of an engine that instructions read and write.
//! [`step`] is one fetch-decode-execute cycle; [`run_steps`] repeats it;
//! [`run`] is a whole run, header check included. Nothing here is
//! executable: the engine in [`crate::vm`] is proved against these
//! definitions.
//!
//! Three choices that the instruction set leaves open are made here.
//!
//! * Register indices of 32 and above address nothing: they read as zero and
//!   a write to them is dropped. The floating-point bank is therefore out of
//!   the reach of every instruction.
//! * Arithmetic results that do not fit a register saturate at the limits of
//!   `i32`. Division by zero does not fault: the quotient saturates towards
//!   the sign of the dividend (and is zero for zero by zero), and the
//!   remainder is zero. A negative dividend leaves a remainder of zero.
//!   These are the results of doing the operation in double precision and
//!   converting back, stated over the integers.
//! * The program counter is a machine word, and jumps wrap around it. A
//!   wrapped counter nearly always lies past the end of the program, which
//!   ends the run there.

use vstd::prelude::*;
use crate::instructions::{decode, OpCode};
use crate::vm::VMEventType;

verus! {

/// The number of integer registers.
pub const REGISTER_COUNT: usize = 32;

/// The length of the magic header.
pub const HEADER_LEN: usize = 4;

/// The four bytes with which every program begins.
pub open spec fn magic() -> Seq<u8> {
    seq![78u8, 83u8, 75u8, 79u8]
}

/// Whether a program begins with the magic header. A program of fewer than
/// four bytes does not.
pub open spec fn header_ok(program: Seq<u8>) -> bool {
    &&& program.len() >= 4
    &&& program[0] == 78
    &&& program[1] == 83
    &&& program[2] == 75
    &&& program[3] == 79
}

/// The value nearest to `v` that a register can hold.
pub open spec fn saturate(v: int) -> i32 {
    if v < i32::MIN {
        i32::MIN
    } else if v > i32::MAX {
        i32::MAX
    } else {
        v as i32
    }
}

/// The absolute value of an integer.
pub open spec fn magnitude(v: int) -> int {
    if v < 0 {
        -v
    } else {
        v
    }
}

/// `a` divided by `b`, rounded towards zero. For `b == 0` it is the limit of
/// a register on the side of `a`'s sign, and zero for `a == 0`.
pub open spec fn quotient(a: int, b: int) -> int {
    if b == 0 {
        if a > 0 {
            i32::MAX as int
        } else if a < 0 {
            i32::MIN as int
        } else {
            0
        }
    } else if (a >= 0) == (b > 0) {
        magnitude(a) / magnitude(b)
    } else {
        -(magnitude(a) / magnitude(b))
    }
}

/// What a division leaves in the remainder cell: `a` modulo the magnitude of
/// `b` for a dividend that is not negative and a divisor that is not zero,
/// and zero otherwise.
pub open spec fn remainder(a: int, b: int) -> int {
    if b == 0 || a < 0 {
        0
    } else {
        a % magnitude(b)
    }
}

/// `x` reduced to a machine word.
pub open spec fn wrap(x: int) -> usize {
    (x % (usize::MAX as int + 1)) as usize
}

/// The state that instructions act on.
pub struct Machine {
    /// The integer registers, `REGISTER_COUNT` of them.
    pub registers: Seq<i32>,
    /// The remainder of the last division.
    pub remainder: usize,
    /// The result of the last comparison.
    pub eq_flag: bool,
    /// The offset in the program of the next byte to fetch.
    pub pc: usize,
}

impl Machine {
    /// A machine has exactly `REGISTER_COUNT` registers.
    pub open spec fn wf(self) -> bool {
        self.registers.len() == REGISTER_COUNT
    }

    /// The machine of a fresh engine: every cell zero, the flag down.
    pub open spec fn zero() -> Machine {
        Machine {
            registers: Seq::new(REGISTER_COUNT as nat, |i: int| 0i32),
            remainder: 0,
            eq_flag: false,
            pc: 0,
        }
    }

    /// The value of register `index`; zero where there is no such register.
    pub open spec fn read(self, index: int) -> int {
        if 0 <= index < REGISTER_COUNT {
            self.registers[index] as int
        } else {
            0
        }
    }

    /// This machine with `value`, saturated, in register `index`; this
    /// machine unchanged where there is no such register.
    pub open spec fn write(self, index: int, value: int) -> Machine {
        if 0 <= index < REGISTER_COUNT {
            Machine { registers: self.registers.update(index, saturate(value)), ..self }
        } else {
            self
        }
    }

    /// This machine with the program counter at `pc`.
    pub open spec fn at(self, pc: usize) -> Machine {
        Machine { pc, ..self }
    }

    /// This machine with the comparison flag set to `flag`.
    pub open spec fn flagged(self, flag: bool) -> Machine {
        Machine { eq_flag: flag, ..self }
    }
}

/// The event that ends a run when a fetch finds the program counter `pc` at or
/// past the end of the program: a crash for incomplete bytecode if the
/// counter has not even passed the header, the end of the program otherwise.
pub open spec fn exhausted(pc: int) -> VMEventType {
    if pc < HEADER_LEN {
        VMEventType::Crash { code: 2 }
    } else {
        VMEventType::GracefulStop { code: 1 }
    }
}

/// The machine after the instruction at `m.pc`, for an instruction that is
/// neither `Halt` nor `Illegal` and whose operand bytes all lie inside the
/// program.
pub open spec fn execute(program: Seq<u8>, m: Machine) -> Machine {
    let op = decode(program[m.pc as int]);
    let x = program[m.pc + 1] as int;
    let y = program[m.pc + 2] as int;
    let z = program[m.pc + 3] as int;
    let next = (m.pc + 1 + op.operand_width()) as usize;
    match op {
        OpCode::Load => m.write(x, y * 256 + z).at(next),
        OpCode::Add => m.write(z, m.read(x) + m.read(y)).at(next),
        OpCode::Sub => m.write(z, m.read(x) - m.read(y)).at(next),
        OpCode::Mul => m.write(z, m.read(x) * m.read(y)).at(next),
        OpCode::Div => Machine {
            remainder: remainder(m.read(x), m.read(y)) as usize,
            ..m.write(z, quotient(m.read(x), m.read(y)))
        }.at(next),
        OpCode::Eq => m.flagged(m.read(x) == m.read(y)).at(next),
        OpCode::Neq => m.flagged(m.read(x) != m.read(y)).at(next),
        OpCode::Gt => m.flagged(m.read(x) > m.read(y)).at(next),
        OpCode::Gte => m.flagged(m.read(x) >= m.read(y)).at(next),
        OpCode::Lt => m.flagged(m.read(x) < m.read(y)).at(next),
        OpCode::Lte => m.flagged(m.read(x) <= m.read(y)).at(next),
        OpCode::Jmp => m.at(wrap(m.read(x))),
        OpCode::JmpF => m.at(wrap(next + m.read(x))),
        OpCode::JmpB => m.at(wrap(next - m.read(x))),
        OpCode::Halt | OpCode::Illegal => m.at(next),
    }
}

/// One cycle: the machine after it, and the event that ends the run if the
/// cycle ended it.
///
/// Every fetch is checked against the end of the program. Where the opcode
/// cannot be fetched, nothing changes. Where the operands of an instruction
/// are cut off by the end of the program, the instruction has no effect and
/// the counter stops at the end. In both cases the run ends as [`exhausted`]
/// says.
pub open spec fn step(program: Seq<u8>, m: Machine) -> (Machine, Option<VMEventType>) {
    if m.pc >= program.len() {
        (m, Some(exhausted(m.pc as int)))
    } else {
        let op = decode(program[m.pc as int]);
        if m.pc + 1 + op.operand_width() > program.len() {
            (m.at(program.len() as usize), Some(exhausted(program.len() as int)))
        } else if op == OpCode::Halt {
            (m.at((m.pc + 1) as usize), Some(VMEventType::GracefulStop { code: 0 }))
        } else if op == OpCode::Illegal {
            (m.at((m.pc + 1) as usize), Some(VMEventType::Crash { code: 3 }))
        } else {
            (execute(program, m), None)
        }
    }
}

/// The machine after at most `n` cycles from `m`, stopping at the first cycle
/// that ends the run, with the event of that cycle if there was one.
pub open spec fn run_steps(program: Seq<u8>, m: Machine, n: nat) -> (Machine, Option<VMEventType>)
    decreases n,
{
    if n == 0 {
        (m, None)
    } else {
        let (after, outcome) = step(program, m);
        if outcome is Some {
            (after, outcome)
        } else {
            run_steps(program, after, (n - 1) as nat)
        }
    }
}

/// Whether the program, started on `m`, ends within `n` cycles.
pub open spec fn halts_within(program: Seq<u8>, m: Machine, n: nat) -> bool {
    run_steps(program, m, n).1 is Some
}

/// Whether the program, started on `m`, ever ends.
pub open spec fn halts(program: Seq<u8>, m: Machine) -> bool {
    exists|n: nat| halts_within(program, m, n)
}

/// The machine and the event at the end of the cycles of a program that
/// halts from `m`.
pub open spec fn run_to_halt(program: Seq<u8>, m: Machine) -> (Machine, VMEventType) {
    let end = run_steps(program, m, choose|n: nat| halts_within(program, m, n));
    (end.0, end.1->0)
}

/// The machine as the cycles find it after a good header: the counter moved
/// past the four magic bytes.
pub open spec fn enter(m: Machine) -> Machine {
    m.at(wrap(m.pc + HEADER_LEN))
}

/// Whether a whole run of the program on `m` ends: the header is refused, or
/// the cycles after it halt.
pub open spec fn terminates(program: Seq<u8>, m: Machine) -> bool {
    !header_ok(program) || halts(program, enter(m))
}

/// A whole run: the final machine and the terminal event. A bad header
/// crashes with reason 1 and leaves the machine as it was; after a good one
/// the machine is entered and cycles to its halt.
pub open spec fn run(program: Seq<u8>, m: Machine) -> (Machine, VMEventType) {
    if !header_ok(program) {
        (m, VMEventType::Crash { code: 1 })
    } else {
        run_to_halt(program, enter(m))
    }
}

/// A whole run cut off after `limit` cycles: the machine then, and the
/// terminal event if the run ended within them. A bad header ends the run
/// before the first cycle.
pub open spec fn run_for(program: Seq<u8>, m: Machine, limit: nat) -> (
    Machine,
    Option<VMEventType>,
) {
    if !header_ok(program) {
        (m, Some(VMEventType::Crash { code: 1 }))
    } else {
        run_steps(program, enter(m), limit)
    }
}

/// Once a run has ended, more cycles change nothing.
pub proof fn lemma_halted_stays(program: Seq<u8>, m: Machine, n: nat, k: nat)
    requires
        halts_within(program, m, n),
        n <= k,
    ensures
        run_steps(program, m, k) == run_steps(program, m, n),
    decreases n,
{
    if n > 0 {
        let (after, outcome) = step(program, m);
        if outcome is None {
            lemma_halted_stays(program, after, (n - 1) as nat, (k - 1) as nat);
        }
    }
}

/// Any number of cycles within which the program halts gives the end of the
/// run.
pub proof fn lemma_run_to_halt(program: Seq<u8>, m: Machine, n: nat)
    requires
        halts_within(program, m, n),
    ensures
        halts(program, m),
        run_to_halt(program, m) == (run_steps(program, m, n).0, run_steps(program, m, n).1->0),
{
    let c = choose|c: nat| halts_within(program, m, c);
    if c <= n {
        lemma_halted_stays(program, m, c, n);
    } else {
        lemma_halted_stays(program, m, n, c);
    }
}

/// A cycle that does not end the run uses up one of the cycles within which
/// the program halts.
pub proof fn lemma_step_continues(program: Seq<u8>, m: Machine, n: nat)
    requires
        halts_within(program, m, n),
        step(program, m).1 is None,
    ensures
        n > 0,
        halts_within(program, step(program, m).0, (n - 1) as nat),
        run_steps(program, m, n) == run_steps(program, step(program, m).0, (n - 1) as nat),
{
}

} // verus!
