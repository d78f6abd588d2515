//! What holds of every program and every machine.
//!
//! Each statement is about the definitions of [`crate::semantics`], which
//! the engine is proved to compute.

use vstd::prelude::*;
use crate::instructions::{decode, OpCode};
use crate::report::{error_text, grace_text};
use crate::semantics::{
    enter, halts_within, header_ok, lemma_run_to_halt, magic, run, run_for, run_steps, step,
    terminates, Machine, REGISTER_COUNT,
};
use crate::vm::{VMEventType, VM};

verus! {

/// A program has a good header exactly when it is at least four bytes long
/// and its first four bytes are the magic bytes.
pub proof fn header_is_the_magic_prefix(program: Seq<u8>)
    ensures
        header_ok(program) <==> program.len() >= 4 && program.subrange(0, 4) == magic(),
{
    if program.len() >= 4 {
        let head = program.subrange(0, 4);
        if header_ok(program) {
            assert(head =~= magic());
        }
    }
}

/// Whether an event can end a run: one of the two graceful stops or one of
/// the three crashes.
pub open spec fn is_ending(kind: VMEventType) -> bool {
    ||| kind == VMEventType::GracefulStop { code: 0 }
    ||| kind == VMEventType::GracefulStop { code: 1 }
    ||| kind == VMEventType::Crash { code: 1 }
    ||| kind == VMEventType::Crash { code: 2 }
    ||| kind == VMEventType::Crash { code: 3 }
}

/// Cycles keep the number of registers, and the event that ends them, if
/// any does, is an ending other than the bad header.
pub proof fn cycles_end_in_an_ending(program: Seq<u8>, m: Machine, n: nat)
    requires
        m.wf(),
    ensures
        run_steps(program, m, n).0.wf(),
        run_steps(program, m, n).1 matches Some(kind) ==> is_ending(kind) && kind
            != (VMEventType::Crash { code: 1 }),
    decreases n,
{
    if n > 0 {
        let (after, outcome) = step(program, m);
        if outcome is None {
            cycles_end_in_an_ending(program, after, (n - 1) as nat);
        }
    }
}

/// A run that ends, ends in exactly one ending, and it never ends in
/// `Start`. The machine keeps its 32 registers.
pub proof fn run_ends_in_an_ending(program: Seq<u8>, m: Machine)
    requires
        m.wf(),
        terminates(program, m),
    ensures
        is_ending(run(program, m).1),
        run(program, m).0.wf(),
{
    if header_ok(program) {
        let n = choose|n: nat| halts_within(program, enter(m), n);
        lemma_run_to_halt(program, enter(m), n);
        cycles_end_in_an_ending(program, enter(m), n);
    }
}

/// A run that was cut off after some number of cycles and had ended within
/// them is the whole run: it ends, in the same machine and with the same
/// event.
pub proof fn cut_off_run_agrees_with_whole_run(program: Seq<u8>, m: Machine, limit: nat)
    requires
        run_for(program, m, limit).1 is Some,
    ensures
        terminates(program, m),
        run(program, m) == (run_for(program, m, limit).0, run_for(program, m, limit).1->0),
{
    if header_ok(program) {
        lemma_run_to_halt(program, enter(m), limit);
    }
}

/// A run never ends in reason 2, incomplete bytecode: a program too short
/// to hold the header is refused for its header, and past a good header no
/// fetch can fail before the header's end. Only a cycle started by hand in
/// front of the header's end can report it (see [`fetch_past_the_end`]).
pub proof fn run_never_reports_incomplete_bytecode(program: Seq<u8>, m: Machine)
    requires
        terminates(program, m),
    ensures
        run(program, m).1 != (VMEventType::Crash { code: 2 }),
{
    if header_ok(program) {
        let n = choose|n: nat| halts_within(program, enter(m), n);
        lemma_run_to_halt(program, enter(m), n);
        lemma_no_incomplete_bytecode(program, enter(m), n);
    }
}

/// Cycles on a program of four bytes or more never report incomplete
/// bytecode.
proof fn lemma_no_incomplete_bytecode(program: Seq<u8>, m: Machine, n: nat)
    requires
        program.len() >= 4,
    ensures
        run_steps(program, m, n).1 != Some(VMEventType::Crash { code: 2 }),
    decreases n,
{
    if n > 0 {
        let (after, outcome) = step(program, m);
        if outcome is None {
            lemma_no_incomplete_bytecode(program, after, (n - 1) as nat);
        }
    }
}

/// A cycle leaves the program counter at or before the end of the program,
/// unless it executes a jump: only a jump can carry the counter past the
/// end, and the next cycle then ends the run.
pub proof fn counter_stays_inside_the_program(program: Seq<u8>, m: Machine)
    requires
        program.len() <= usize::MAX,
        m.pc <= program.len(),
        m.pc < program.len() ==> {
            let op = decode(program[m.pc as int]);
            op != OpCode::Jmp && op != OpCode::JmpF && op != OpCode::JmpB
        },
    ensures
        step(program, m).0.pc <= program.len(),
{
}

/// A register index of 32 or more addresses nothing: it reads as zero, and
/// a write to it changes nothing.
pub proof fn registers_past_the_bank_are_inert(m: Machine, index: int, value: int)
    requires
        index >= REGISTER_COUNT,
    ensures
        m.read(index) == 0,
        m.write(index, value) == m,
{
}

/// Every event that can end a run has a name of its own: none is described
/// as unknown.
pub proof fn every_ending_has_a_name(kind: VMEventType)
    requires
        is_ending(kind),
    ensures
        kind matches VMEventType::GracefulStop { code } ==> grace_text(code)
            != "Unknown Stop Code"@,
        kind matches VMEventType::Crash { code } ==> error_text(code) != "Unknown Error"@,
{
    reveal_strlit("Graceful Halt");
    reveal_strlit("End of Program");
    reveal_strlit("Unknown Stop Code");
    reveal_strlit("Invalid Header");
    reveal_strlit("Incomplete Bytecode");
    reveal_strlit("Unknown Opcode");
    reveal_strlit("Unknown Error");
    assert("Graceful Halt"@.len() != "Unknown Stop Code"@.len());
    assert("End of Program"@.len() != "Unknown Stop Code"@.len());
    assert("Invalid Header"@.len() != "Unknown Error"@.len());
    assert("Incomplete Bytecode"@.len() != "Unknown Error"@.len());
    assert("Unknown Opcode"@.len() != "Unknown Error"@.len());
}

/// A program whose header is good and whose first instruction is `Halt`
/// stops gracefully with reason 0, whatever follows the `Halt` byte. No
/// register, flag or remainder changes: on a fresh engine all registers
/// remain zero.
pub proof fn halt_after_header_stops_gracefully(program: Seq<u8>, m: Machine)
    requires
        header_ok(program),
        m.pc == 0,
        program.len() > 4,
        program[4] == 0,
    ensures
        terminates(program, m),
        run(program, m) == (m.at(5), VMEventType::GracefulStop { code: 0 }),
{
    lemma_enter_fresh(m);
    assert(halts_within(program, enter(m), 1)) by {
        reveal_with_fuel(run_steps, 2);
    }
    lemma_run_to_halt(program, enter(m), 1);
    reveal_with_fuel(run_steps, 2);
}

/// A program whose header is refused crashes with reason 1 before any
/// cycle: the machine, program counter included, is left as it was.
pub proof fn bad_header_crashes_before_any_cycle(program: Seq<u8>, m: Machine)
    requires
        !header_ok(program),
    ensures
        terminates(program, m),
        run(program, m) == (m, VMEventType::Crash { code: 1 }),
{
}

/// A program whose first four bytes are not the magic bytes is refused.
pub proof fn wrong_magic_is_refused(program: Seq<u8>, m: Machine)
    requires
        program.len() >= 4,
        program.subrange(0, 4) != magic(),
    ensures
        terminates(program, m),
        run(program, m) == (m, VMEventType::Crash { code: 1 }),
{
    header_is_the_magic_prefix(program);
}

/// A program of fewer than four bytes has no header to check and is refused
/// like a wrong one: the run crashes with reason 1.
pub proof fn short_program_is_refused(program: Seq<u8>, m: Machine)
    requires
        program.len() < 4,
    ensures
        terminates(program, m),
        run(program, m) == (m, VMEventType::Crash { code: 1 }),
{
}

/// A cycle that finds the program counter past the end of the program and
/// still inside the header crashes with reason 2, incomplete bytecode, and
/// changes nothing. Past the header the same cycle is the graceful end of
/// the program, reason 1.
pub proof fn fetch_past_the_end(program: Seq<u8>, m: Machine)
    requires
        m.pc >= program.len(),
    ensures
        m.pc < 4 ==> step(program, m) == (m, Some(VMEventType::Crash { code: 2 })),
        m.pc >= 4 ==> step(program, m) == (m, Some(VMEventType::GracefulStop { code: 1 })),
{
}

/// A program whose header is good and whose first opcode byte is above 14
/// crashes with reason 3, and no register, flag or remainder changes.
pub proof fn illegal_first_opcode_crashes(program: Seq<u8>, m: Machine)
    requires
        header_ok(program),
        m.pc == 0,
        program.len() > 4,
        program[4] > 14,
    ensures
        terminates(program, m),
        run(program, m) == (m.at(5), VMEventType::Crash { code: 3 }),
{
    lemma_enter_fresh(m);
    assert(halts_within(program, enter(m), 1)) by {
        reveal_with_fuel(run_steps, 2);
    }
    lemma_run_to_halt(program, enter(m), 1);
    reveal_with_fuel(run_steps, 2);
}

/// Two engines with the same program and the same machine end alike,
/// whatever their identities, their logs and their reserved storage: one
/// ends if the other does, in the same machine and with the same event.
/// Each engine's run is a function of that engine alone.
pub proof fn engines_do_not_interfere(a: VM, b: VM)
    requires
        a.program@ == b.program@,
        a.machine() == b.machine(),
    ensures
        a.terminates() == b.terminates(),
        run(a.program@, a.machine()) == run(b.program@, b.machine()),
{
}

/// The machine that the cycles of a fresh engine start on has its counter
/// just past the header.
proof fn lemma_enter_fresh(m: Machine)
    requires
        m.pc == 0,
    ensures
        enter(m) == m.at(4),
{
    vstd::arithmetic::div_mod::lemma_small_mod(4, (usize::MAX as int + 1) as nat);
}

} // verus!
