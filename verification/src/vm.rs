//! The execution engine.

use vstd::prelude::*;
use chrono::NaiveDateTime;
use uuid::Uuid;
use crate::host::{fresh_id, logical_core_count, now};
use crate::instructions::OpCode;
use crate::semantics::{
    enter, exhausted, halts_within, header_ok, lemma_run_to_halt, lemma_step_continues,
    magic, quotient, remainder, run, run_for, run_steps, run_to_halt, saturate, step, terminates, wrap,
    Machine, HEADER_LEN, REGISTER_COUNT,
};
use vstd::arithmetic::div_mod::{
    lemma_div_nonincreasing, lemma_mod_add_multiples_vanish, lemma_mod_sub_multiples_vanish,
    lemma_small_mod,
};

verus! {

/// What happened to an engine: it started, it stopped as programs are meant
/// to, or it crashed. The two endings carry a reason code.
#[derive(Clone, Copy, Debug, PartialEq, Eq, Structural)]
pub enum VMEventType {
    Start,
    GracefulStop { code: u32 },
    Crash { code: u32 },
}

impl VMEventType {
    /// The reason code of an ending; zero for `Start`.
    pub open spec fn code(self) -> u32 {
        match self {
            VMEventType::Start => 0,
            VMEventType::GracefulStop { code } => code,
            VMEventType::Crash { code } => code,
        }
    }

    /// The reason code of an ending; zero for `Start`.
    pub fn stop_code(&self) -> (code: u32)
        ensures
            code == self.code(),
    {
        match self {
            VMEventType::Start => 0,
            VMEventType::GracefulStop { code } => *code,
            VMEventType::Crash { code } => *code,
        }
    }
}

/// One entry of an engine's log: what happened, when, and to which engine.
#[derive(Clone, Copy, Debug)]
pub struct VMEvent {
    pub event: VMEventType,
    /// The moment of the event, in UTC.
    pub at: NaiveDateTime,
    /// The identity of the engine that logged the event.
    pub application_id: Uuid,
}

/// The number of bytes of heap that a fresh engine reserves.
pub const DEFAULT_HEAP_SIZE: usize = 64;

/// The number of stack words for which a fresh engine reserves room.
pub const DEFAULT_STACK_SIZE: usize = 1024 * 1024 * 2;

/// Whether the log `after` is the log `before` with one event of each of
/// `kinds` appended, in that order, each stamped with the identity `id`.
/// Nothing is said of the times of the events.
pub open spec fn logged(
    before: Seq<VMEvent>,
    after: Seq<VMEvent>,
    id: Uuid,
    kinds: Seq<VMEventType>,
) -> bool {
    &&& after.len() == before.len() + kinds.len()
    &&& after.subrange(0, before.len() as int) == before
    &&& forall|i: int|
        before.len() <= i < after.len() ==> {
            &&& (#[trigger] after[i]).event == kinds[i - before.len()]
            &&& after[i].application_id == id
        }
}

/// An engine: a machine, the program it runs, and the log of its events.
///
/// `float_registers` holds the floating-point bank as IEEE 754 bit patterns.
/// No instruction reaches that bank: a register index of 32 or more
/// addresses nothing. Nor does any instruction reach the heap or the stack.
/// `logical_cores` is the number of cores that the host reported when the
/// engine was made; nothing depends on it.
#[derive(Debug, Default)]
pub struct VM {
    pub registers: [i32; 32],
    pub float_registers: [u64; 32],
    pub program: Vec<u8>,
    pub logical_cores: usize,
    pub id: Uuid,
    pub remainder: usize,
    pub eq_flag: bool,
    /// The offset in the program of the next byte to fetch.
    pub pc: usize,
    pub heap: Vec<u8>,
    pub stack: Vec<i32>,
    /// The events logged so far, oldest first.
    pub events: Vec<VMEvent>,
}

impl Clone for VM {
    /// A second engine in the same state, with the same identity.
    fn clone(&self) -> (copy: VM)
        ensures
            copy.machine() == self.machine(),
            copy.same_frame(self),
            copy.events@ == self.events@,
    {
        let copy = VM {
            registers: self.registers,
            float_registers: self.float_registers,
            program: self.program.clone(),
            logical_cores: self.logical_cores,
            id: self.id,
            remainder: self.remainder,
            eq_flag: self.eq_flag,
            pc: self.pc,
            heap: self.heap.clone(),
            stack: self.stack.clone(),
            events: self.events.clone(),
        };
        copy
    }
}

impl VM {
    /// The part of this engine that instructions act on.
    pub open spec fn machine(&self) -> Machine {
        Machine {
            registers: self.registers@,
            remainder: self.remainder,
            eq_flag: self.eq_flag,
            pc: self.pc,
        }
    }

    /// Whether this engine has the program, the identity and the reserved
    /// storage of `other`: all that a cycle leaves alone.
    pub open spec fn same_frame(&self, other: &VM) -> bool {
        &&& self.program@ == other.program@
        &&& self.id == other.id
        &&& self.logical_cores == other.logical_cores
        &&& self.float_registers@ == other.float_registers@
        &&& self.heap@ == other.heap@
        &&& self.stack@ == other.stack@
    }

    /// Whether `after` differs from `self` in its machine alone.
    pub open spec fn cycled_to(&self, after: &VM) -> bool {
        &&& after.same_frame(self)
        &&& after.events@ == self.events@
    }

    /// Whether a run of this engine ends: its header is refused, or the
    /// cycles after the header reach a halt, the end of the program or an
    /// illegal opcode.
    pub open spec fn terminates(&self) -> bool {
        terminates(self.program@, self.machine())
    }

    /// `b` with the magic header in front of it.
    pub fn prepend_header(b: Vec<u8>) -> (program: Vec<u8>)
        ensures
            program@ == magic() + b@,
            header_ok(program@),
    {
        let mut b = b;
        let mut program: Vec<u8> = vec![78, 83, 75, 79];
        program.append(&mut b);
        program
    }

    /// Whether the program begins with the magic header. Reads nothing past
    /// the end of a short program, and changes nothing.
    pub fn verify_header(&mut self) -> (ok: bool)
        ensures
            ok == header_ok(old(self).program@),
            *final(self) == *old(self),
    {
        self.program.len() >= 4 && self.program[0] == 78 && self.program[1] == 83
            && self.program[2] == 75 && self.program[3] == 79
    }

    /// A fresh engine with the identity and the core count that the host
    /// gave for it: every register zero, no program, an empty log. The
    /// engine holds exactly the two values it was given, and neither has a
    /// part in anything else: two engines made with different identities
    /// have different identities and are alike in every other respect but
    /// the core count.
    pub fn with_host(id: Uuid, logical_cores: usize) -> (vm: VM)
        ensures
            vm.id == id,
            vm.logical_cores == logical_cores,
            vm.machine() == Machine::zero(),
            vm.program@ == Seq::<u8>::empty(),
            vm.events@ == Seq::<VMEvent>::empty(),
            vm.float_registers@ == Seq::new(32, |i: int| 0u64),
            vm.heap@ == Seq::new(DEFAULT_HEAP_SIZE as nat, |i: int| 0u8),
            vm.stack@ == Seq::<i32>::empty(),
    {
        let vm = VM {
            registers: [0; 32],
            float_registers: [0; 32],
            pc: 0,
            program: vec![],
            logical_cores,
            remainder: 0,
            eq_flag: false,
            id,
            heap: vec![0; DEFAULT_HEAP_SIZE],
            stack: Vec::with_capacity(DEFAULT_STACK_SIZE),
            events: Vec::new(),
        };
        assert(vm.machine().registers =~= Machine::zero().registers);
        vm
    }

    /// A fresh engine: [`VM::with_host`] on the number of logical cores that
    /// the host reports and on an identity drawn for this engine. Of those
    /// two values nothing is known beforehand; everything else is as
    /// `with_host` makes it.
    pub fn new() -> (vm: VM)
        ensures
            vm.machine() == Machine::zero(),
            vm.program@ == Seq::<u8>::empty(),
            vm.events@ == Seq::<VMEvent>::empty(),
            vm.float_registers@ == Seq::new(32, |i: int| 0u64),
            vm.heap@ == Seq::new(DEFAULT_HEAP_SIZE as nat, |i: int| 0u8),
            vm.stack@ == Seq::<i32>::empty(),
    {
        let logical_cores = logical_core_count();
        let id = fresh_id();
        VM::with_host(id, logical_cores)
    }

    /// Runs the program to its end and returns the whole log.
    ///
    /// Logs `Start`, checks the header, and cycles until a cycle ends the
    /// run; then logs the terminal event. The log grows by exactly these two
    /// events, both stamped with this engine's identity. The final machine
    /// and the terminal event are those of [`run`].
    ///
    /// A program that jumps in a circle never ends, and this function does
    /// not return on it: the contract speaks of the runs that end. For a run
    /// that is cut off after a number of cycles, see [`VM::run_for`].
    pub fn run(&mut self) -> (events: Vec<VMEvent>)
        requires
            old(self).terminates(),
        ensures
            final(self).machine() == run(old(self).program@, old(self).machine()).0,
            final(self).same_frame(old(self)),
            logged(
                old(self).events@,
                final(self).events@,
                old(self).id,
                seq![VMEventType::Start, run(old(self).program@, old(self).machine()).1],
            ),
            events@ == final(self).events@,
    {
        let ghost before = *self;
        self.record(VMEventType::Start);
        let ghost started = self.events@;
        if !self.verify_header() {
            self.record(VMEventType::Crash { code: 1 });
            proof {
                lemma_logged_twice(
                    before.events@,
                    started,
                    self.events@,
                    before.id,
                    VMEventType::Start,
                    VMEventType::Crash { code: 1 },
                );
            }
            return self.events.clone();
        }
        self.pc = displaced(self.pc, HEADER_LEN as i64);
        let ghost entered = self.machine();
        let ghost mut fuel: nat = choose|n: nat| halts_within(before.program@, entered, n);
        loop
            invariant
                before == *old(self),
                started == self.events@,
                header_ok(before.program@),
                entered == enter(before.machine()),
                halts_within(self.program@, self.machine(), fuel),
                run_to_halt(self.program@, self.machine()) == run_to_halt(
                    before.program@,
                    entered,
                ),
                self.same_frame(&before),
                logged(before.events@, self.events@, before.id, seq![VMEventType::Start]),
            decreases fuel,
        {
            let ghost current = self.machine();
            match self.step() {
                Some(kind) => {
                    self.record(kind);
                    proof {
                        lemma_run_to_halt(self.program@, current, 1);
                        lemma_logged_twice(
                            before.events@,
                            started,
                            self.events@,
                            before.id,
                            VMEventType::Start,
                            kind,
                        );
                    }
                    return self.events.clone();
                },
                None => {
                    proof {
                        lemma_step_continues(self.program@, current, fuel);
                        lemma_run_to_halt(self.program@, current, fuel);
                        lemma_run_to_halt(self.program@, self.machine(), (fuel - 1) as nat);
                        fuel = (fuel - 1) as nat;
                    }
                },
            }
        }
    }

    /// Runs the program for at most `limit` cycles, and returns the whole
    /// log if the run ended within them.
    ///
    /// Logs `Start` and checks the header as [`VM::run`] does. A refused
    /// header ends the run at once. Otherwise the machine is left as
    /// `limit` cycles leave it; if one of them ended the run, its event is
    /// logged and the log returned, and if none did, the result is `None`
    /// and the log has grown by `Start` alone.
    pub fn run_for(&mut self, limit: u64) -> (events: Option<Vec<VMEvent>>)
        ensures
            final(self).same_frame(old(self)),
            final(self).machine() == run_for(
                old(self).program@,
                old(self).machine(),
                limit as nat,
            ).0,
            match run_for(old(self).program@, old(self).machine(), limit as nat).1 {
                Some(kind) => {
                    &&& events matches Some(all)
                    &&& all@ == final(self).events@
                    &&& logged(
                        old(self).events@,
                        final(self).events@,
                        old(self).id,
                        seq![VMEventType::Start, kind],
                    )
                },
                None => {
                    &&& events is None
                    &&& logged(
                        old(self).events@,
                        final(self).events@,
                        old(self).id,
                        seq![VMEventType::Start],
                    )
                },
            },
    {
        let ghost before = *self;
        self.record(VMEventType::Start);
        let ghost started = self.events@;
        if !self.verify_header() {
            self.record(VMEventType::Crash { code: 1 });
            proof {
                lemma_logged_twice(
                    before.events@,
                    started,
                    self.events@,
                    before.id,
                    VMEventType::Start,
                    VMEventType::Crash { code: 1 },
                );
            }
            return Some(self.events.clone());
        }
        self.pc = displaced(self.pc, HEADER_LEN as i64);
        let ghost entered = self.machine();
        let mut done: u64 = 0;
        while done < limit
            invariant
                before == *old(self),
                started == self.events@,
                header_ok(before.program@),
                entered == enter(before.machine()),
                done <= limit,
                run_steps(self.program@, self.machine(), (limit - done) as nat) == run_steps(
                    before.program@,
                    entered,
                    limit as nat,
                ),
                self.same_frame(&before),
                logged(before.events@, self.events@, before.id, seq![VMEventType::Start]),
            decreases limit - done,
        {
            match self.step() {
                Some(kind) => {
                    self.record(kind);
                    proof {
                        lemma_logged_twice(
                            before.events@,
                            started,
                            self.events@,
                            before.id,
                            VMEventType::Start,
                            kind,
                        );
                    }
                    return Some(self.events.clone());
                },
                None => {
                    done += 1;
                },
            }
        }
        None
    }

    /// One fetch-decode-execute cycle. Returns the event that ends the run
    /// if this cycle ended it, and `None` if the run goes on. The log is not
    /// touched.
    pub fn step(&mut self) -> (outcome: Option<VMEventType>)
        ensures
            final(self).machine() == step(old(self).program@, old(self).machine()).0,
            outcome == step(old(self).program@, old(self).machine()).1,
            old(self).cycled_to(final(self)),
    {
        if self.pc >= self.program.len() {
            return Some(self.out_of_program());
        }
        let opcode = self.decode_opcode();
        if self.program.len() - self.pc < opcode.operands() {
            self.pc = self.program.len();
            return Some(self.out_of_program());
        }
        match opcode {
            OpCode::Halt => {
                return Some(VMEventType::GracefulStop { code: 0 });
            },
            OpCode::Load => {
                let register = self.next_8_bits() as usize;
                let value = self.next_16_bits();
                self.set_register(register, value as i64);
            },
            OpCode::Add => {
                let (r1, r2, r3) = self.next_three();
                let (a, b) = (self.get_register(r1), self.get_register(r2));
                self.set_register(r3, a + b);
            },
            OpCode::Sub => {
                let (r1, r2, r3) = self.next_three();
                let (a, b) = (self.get_register(r1), self.get_register(r2));
                self.set_register(r3, a - b);
            },
            OpCode::Mul => {
                let (r1, r2, r3) = self.next_three();
                let (a, b) = (self.get_register(r1), self.get_register(r2));
                assert(-0x4000_0000_0000_0000 <= a * b <= 0x4000_0000_0000_0000)
                    by (nonlinear_arith)
                    requires
                        -0x8000_0000 <= a <= 0x7fff_ffff,
                        -0x8000_0000 <= b <= 0x7fff_ffff,
                ;
                self.set_register(r3, a * b);
            },
            OpCode::Div => {
                let (r1, r2, r3) = self.next_three();
                let (a, b) = (self.get_register(r1), self.get_register(r2));
                let (q, r) = divide(a, b);
                self.set_register(r3, q);
                self.remainder = r;
            },
            OpCode::Eq => {
                let (r1, r2) = self.next_two();
                let (a, b) = (self.get_register(r1), self.get_register(r2));
                self.eq_flag = a == b;
            },
            OpCode::Neq => {
                let (r1, r2) = self.next_two();
                let (a, b) = (self.get_register(r1), self.get_register(r2));
                self.eq_flag = a != b;
            },
            OpCode::Jmp => {
                let register = self.next_8_bits() as usize;
                let target = self.get_register(register);
                self.pc = displaced(0, target);
            },
            OpCode::JmpF => {
                let register = self.next_8_bits() as usize;
                let target = self.get_register(register);
                self.pc = displaced(self.pc, target);
            },
            OpCode::JmpB => {
                let register = self.next_8_bits() as usize;
                let target = self.get_register(register);
                self.pc = displaced(self.pc, -target);
            },
            OpCode::Gt => {
                let (r1, r2) = self.next_two();
                let (a, b) = (self.get_register(r1), self.get_register(r2));
                self.eq_flag = a > b;
            },
            OpCode::Gte => {
                let (r1, r2) = self.next_two();
                let (a, b) = (self.get_register(r1), self.get_register(r2));
                self.eq_flag = a >= b;
            },
            OpCode::Lt => {
                let (r1, r2) = self.next_two();
                let (a, b) = (self.get_register(r1), self.get_register(r2));
                self.eq_flag = a < b;
            },
            OpCode::Lte => {
                let (r1, r2) = self.next_two();
                let (a, b) = (self.get_register(r1), self.get_register(r2));
                self.eq_flag = a <= b;
            },
            OpCode::Illegal => {
                return Some(VMEventType::Crash { code: 3 });
            },
        }
        None
    }

    /// Appends an event of the given kind to the log, stamped with the time
    /// and with this engine's identity.
    fn record(&mut self, kind: VMEventType)
        ensures
            final(self).machine() == old(self).machine(),
            final(self).same_frame(old(self)),
            logged(old(self).events@, final(self).events@, old(self).id, seq![kind]),
    {
        let event = VMEvent { event: kind, at: now(), application_id: self.id };
        self.events.push(event);
        assert(self.events@.subrange(0, old(self).events@.len() as int) =~= old(self).events@);
    }

    /// Stores `value`, saturated, in the integer register `register`; does
    /// nothing where there is no such register.
    fn set_register(&mut self, register: usize, value: i64)
        ensures
            final(self).machine() == old(self).machine().write(register as int, value as int),
            old(self).cycled_to(final(self)),
    {
        if register < REGISTER_COUNT {
            self.registers[register] = saturated(value);
        }
    }

    /// The value of the integer register `register`; zero where there is no
    /// such register.
    fn get_register(&self, register: usize) -> (value: i64)
        ensures
            value == self.machine().read(register as int),
            i32::MIN <= value <= i32::MAX,
    {
        if register < REGISTER_COUNT {
            self.registers[register] as i64
        } else {
            0
        }
    }

    /// The byte at the program counter, which moves past it.
    fn next_8_bits(&mut self) -> (bits: u8)
        requires
            old(self).pc < old(self).program.len(),
        ensures
            bits == old(self).program@[old(self).pc as int],
            final(self).machine() == old(self).machine().at((old(self).pc + 1) as usize),
            old(self).cycled_to(final(self)),
    {
        let bits = self.program[self.pc];
        self.pc += 1;
        bits
    }

    /// The two bytes at the program counter as one number, the first byte
    /// the high one. The counter moves past both.
    fn next_16_bits(&mut self) -> (bits: u16)
        requires
            old(self).pc + 1 < old(self).program.len(),
        ensures
            bits == old(self).program@[old(self).pc as int] * 256
                + old(self).program@[old(self).pc + 1],
            final(self).machine() == old(self).machine().at((old(self).pc + 2) as usize),
            old(self).cycled_to(final(self)),
    {
        let high = self.program[self.pc] as u16;
        let low = self.program[self.pc + 1] as u16;
        self.pc += 2;
        high * 256 + low
    }

    /// The operation that the byte at the program counter encodes. The
    /// counter moves past the byte.
    fn decode_opcode(&mut self) -> (opcode: OpCode)
        requires
            old(self).pc < old(self).program.len(),
        ensures
            opcode == crate::instructions::decode(old(self).program@[old(self).pc as int]),
            final(self).machine() == old(self).machine().at((old(self).pc + 1) as usize),
            old(self).cycled_to(final(self)),
    {
        let opcode = OpCode::from(self.program[self.pc]);
        self.pc += 1;
        opcode
    }

    /// The event that ends the run when a fetch finds the program counter at
    /// or past the end of the program.
    fn out_of_program(&self) -> (kind: VMEventType)
        ensures
            kind == exhausted(self.pc as int),
    {
        if self.pc < HEADER_LEN {
            VMEventType::Crash { code: 2 }
        } else {
            VMEventType::GracefulStop { code: 1 }
        }
    }

    /// The next two bytes of the program as register indices.
    fn next_two(&mut self) -> (indices: (usize, usize))
        requires
            old(self).pc + 1 < old(self).program.len(),
        ensures
            indices.0 == old(self).program@[old(self).pc as int],
            indices.1 == old(self).program@[old(self).pc + 1],
            final(self).machine() == old(self).machine().at((old(self).pc + 2) as usize),
            old(self).cycled_to(final(self)),
    {
        let first = self.next_8_bits() as usize;
        let second = self.next_8_bits() as usize;
        (first, second)
    }

    /// The next three bytes of the program as register indices.
    fn next_three(&mut self) -> (indices: (usize, usize, usize))
        requires
            old(self).pc + 2 < old(self).program.len(),
        ensures
            indices.0 == old(self).program@[old(self).pc as int],
            indices.1 == old(self).program@[old(self).pc + 1],
            indices.2 == old(self).program@[old(self).pc + 2],
            final(self).machine() == old(self).machine().at((old(self).pc + 3) as usize),
            old(self).cycled_to(final(self)),
    {
        let first = self.next_8_bits() as usize;
        let second = self.next_8_bits() as usize;
        let third = self.next_8_bits() as usize;
        (first, second, third)
    }
}

/// Two events logged one after the other are two events logged.
proof fn lemma_logged_twice(
    before: Seq<VMEvent>,
    between: Seq<VMEvent>,
    after: Seq<VMEvent>,
    id: Uuid,
    first: VMEventType,
    second: VMEventType,
)
    requires
        logged(before, between, id, seq![first]),
        logged(between, after, id, seq![second]),
    ensures
        logged(before, after, id, seq![first, second]),
{
    assert(after.subrange(0, before.len() as int) =~= before) by {
        assert forall|i: int| 0 <= i < before.len() implies after[i] == before[i] by {
            assert(after[i] == after.subrange(0, between.len() as int)[i]);
            assert(before[i] == between.subrange(0, before.len() as int)[i]);
        }
    }
    let at = before.len() as int;
    assert(after[at] == after.subrange(0, between.len() as int)[at]);
}

/// The value nearest to `value` that a register can hold.
fn saturated(value: i64) -> (stored: i32)
    ensures
        stored == saturate(value as int),
{
    if value < i32::MIN as i64 {
        i32::MIN
    } else if value > i32::MAX as i64 {
        i32::MAX
    } else {
        value as i32
    }
}

/// The quotient and the remainder that a division instruction leaves for
/// the register values `a` and `b`.
fn divide(a: i64, b: i64) -> (result: (i64, usize))
    requires
        i32::MIN <= a <= i32::MAX,
        i32::MIN <= b <= i32::MAX,
    ensures
        result.0 == quotient(a as int, b as int),
        result.1 == remainder(a as int, b as int),
{
    if b == 0 {
        let limit: i64 = if a > 0 {
            i32::MAX as i64
        } else if a < 0 {
            i32::MIN as i64
        } else {
            0
        };
        (limit, 0)
    } else {
        let dividend: u64 = if a < 0 { (-a) as u64 } else { a as u64 };
        let divisor: u64 = if b < 0 { (-b) as u64 } else { b as u64 };
        proof {
            lemma_div_nonincreasing(dividend as int, divisor as int);
        }
        let whole: u64 = dividend / divisor;
        let signed: i64 = if (a >= 0) == (b > 0) { whole as i64 } else { -(whole as i64) };
        let left: usize = if a < 0 { 0 } else { (dividend % divisor) as usize };
        (signed, left)
    }
}

/// The program counter `pc` moved by `delta`, wrapping around the machine
/// word.
fn displaced(pc: usize, delta: i64) -> (moved: usize)
    requires
        -0x8000_0000 <= delta <= 0x8000_0000,
    ensures
        moved == wrap(pc + delta),
{
    let ghost modulus = usize::MAX as int + 1;
    if delta >= 0 {
        let forward = delta as usize;
        if forward <= usize::MAX - pc {
            proof {
                lemma_small_mod((pc + delta) as nat, modulus as nat);
            }
            pc + forward
        } else {
            proof {
                lemma_small_mod((pc + delta - modulus) as nat, modulus as nat);
                lemma_mod_add_multiples_vanish(pc + delta - modulus, modulus);
            }
            forward - (usize::MAX - pc) - 1
        }
    } else {
        let backward = (-delta) as usize;
        if backward <= pc {
            proof {
                lemma_small_mod((pc + delta) as nat, modulus as nat);
            }
            pc - backward
        } else {
            proof {
                lemma_small_mod((pc + delta + modulus) as nat, modulus as nat);
                lemma_mod_sub_multiples_vanish(pc + delta + modulus, modulus);
            }
            usize::MAX - (backward - pc) + 1
        }
    }
}

} // verus!
