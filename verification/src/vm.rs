//! The execution engine: program memory, the program counter, the decoded
//! instruction, and the fetch-decode-execute cycle.
//!
//! Decoding does not strip the two tag bits out of the data value: the whole
//! word is reinterpreted as a signed 32-bit integer, both when it is pushed
//! as a literal and when it is masked down to an opcode. This asymmetry is
//! kept deliberately, as observable behaviour of the machine.
//!
//! Arithmetic wraps on two's-complement overflow; division is truncating.

use vstd::prelude::*;
use vstd::wrapping::i32_specs;

use crate::errors::VmError;
use crate::stack::VMStack;

verus! {

/// Tag of a word that is pushed as a (positive) data literal.
pub const CODE_TYPE_DATA_POSITIVE: u8 = 0;

/// Tag of a word that is pushed as a (negative) data literal.
pub const CODE_TYPE_DATA_NEGATIVE: u8 = 3;

/// Tag of a word that selects a primitive operation.
pub const CODE_TYPE_INSTRUCTION: u8 = 1;

/// Synthetic first word of program memory; never decoded under normal
/// control flow. It only aligns the program counter so that the first real
/// word sits at index 1.
pub const SENTINEL_WORD: u32 = 0xBADC0DE;

/// The tag of a word: its two most-significant bits.
pub open spec fn spec_tag(w: u32) -> u8 {
    ((w >> 30) & 3) as u8
}

/// The whole word reinterpreted as a signed 32-bit value, as a mathematical
/// integer.
pub open spec fn word_val(w: u32) -> int {
    if w < 0x8000_0000 {
        w as int
    } else {
        w - 0x1_0000_0000
    }
}

/// The data value decoded from a word: the signed reinterpretation of the
/// full word, tag bits included.
pub open spec fn decoded_data(w: u32) -> i32 {
    word_val(w) as i32
}

/// The opcode selected by a decoded data value: its low bits, with the two
/// bits under `0x300000` cleared.
pub open spec fn opcode_of(d: i32) -> i32 {
    d & 0xCFFFFF
}

/// Truncating division of `a` by `b`, wrapping on the one overflowing case
/// (`i32::MIN / -1`).
pub open spec fn div_wrap(a: i32, b: i32) -> i32
    recommends
        b != 0,
{
    match a.checked_div(b) {
        Some(q) => q,
        None => i32::MIN,
    }
}

/// The value an arithmetic primitive derives from the two popped operands:
/// `top_1` is the first value popped (the old top of stack), `top_2` the
/// second.
pub open spec fn binop_value(op: i32, top_1: i32, top_2: i32) -> i32
    recommends
        op == 1 || op == 2 || op == 3 || op == 4,
        op == 4 ==> top_2 != 0,
{
    if op == 1 {
        i32_specs::wrapping_add(top_1, top_2)
    } else if op == 2 {
        i32_specs::wrapping_sub(top_1, top_2)
    } else if op == 3 {
        i32_specs::wrapping_mul(top_1, top_2)
    } else {
        div_wrap(top_1, top_2)
    }
}

/// The effect of dispatching a decoded data value `d` to the primitive
/// operation table, on a stack holding `stack`: either the new stack
/// contents together with a flag telling whether the machine halted, or the
/// fatal error raised.
pub open spec fn primitive_step(d: i32, stack: Seq<i32>) -> Result<(Seq<i32>, bool), VmError> {
    let op = opcode_of(d);
    if op == 0 {
        Ok((stack, true))
    } else if op == 1 || op == 2 || op == 3 || op == 4 {
        if stack.len() < 2 {
            Err(VmError::StackUnderflow)
        } else {
            let top_1 = stack.last();
            let top_2 = stack[stack.len() - 2];
            if op == 4 && top_2 == 0 {
                Err(VmError::DivisionByZero)
            } else {
                Ok((stack.drop_last().drop_last().push(binop_value(op, top_1, top_2)), false))
            }
        }
    } else {
        Err(VmError::UndefinedInstruction)
    }
}

/// The effect of one execute phase on a stack of capacity `cap`: a word
/// tagged as a data literal is pushed, every other word is dispatched to the
/// primitive operation table.
pub open spec fn step_cycle(t: u8, d: i32, stack: Seq<i32>, cap: nat) -> Result<
    (Seq<i32>, bool),
    VmError,
> {
    if t == CODE_TYPE_DATA_POSITIVE || t == CODE_TYPE_DATA_NEGATIVE {
        if stack.len() < cap {
            Ok((stack.push(d), false))
        } else {
            Err(VmError::StackOverflow)
        }
    } else {
        primitive_step(d, stack)
    }
}

/// The result of running the machine from program counter `pc` with stack
/// contents `stack`: the final stack contents on a normal halt, or the fatal
/// error. Each cycle first advances the program counter, then decodes and
/// executes the word it now points at; a program counter that leaves no word
/// to decode means the program ended without a halt instruction.
pub open spec fn run_from(prog: Seq<u32>, pc: int, stack: Seq<i32>, cap: nat) -> Result<
    Seq<i32>,
    VmError,
>
    decreases prog.len() - pc,
{
    if !(0 <= pc && pc + 1 < prog.len()) {
        Err(VmError::UnterminatedProgram)
    } else {
        let w = prog[pc + 1];
        match step_cycle(spec_tag(w), decoded_data(w), stack, cap) {
            Ok((st2, halted)) => if halted {
                Ok(st2)
            } else {
                run_from(prog, pc + 1, st2, cap)
            },
            Err(e) => Err(e),
        }
    }
}

/// The abstract state of the machine.
#[verifier::ext_equal]
pub struct VMView {
    pub running: bool,
    pub pc: nat,
    pub type_info: u8,
    pub data: i32,
    pub stack: Seq<i32>,
    pub cap: nat,
    pub mem: Seq<u32>,
}

/// The virtual machine: program memory, program counter, the decoded
/// instruction, and the operand stack.
pub struct VM {
    running: bool,
    pc: usize,
    type_info: u8,
    data: i32,
    stack: VMStack,
    program_memory: Vec<u32>,
}

impl View for VM {
    type V = VMView;

    closed spec fn view(&self) -> VMView {
        VMView {
            running: self.running,
            pc: self.pc as nat,
            type_info: self.type_info,
            data: self.data,
            stack: self.stack@,
            cap: self.stack.cap(),
            mem: self.program_memory@,
        }
    }
}

impl VM {
    /// The operand stack never outgrows its capacity and the program counter
    /// never runs ahead of program memory by more than the final failing
    /// fetch.
    pub open spec fn wf(self) -> bool {
        self@.stack.len() <= self@.cap && self@.cap >= 1 && self@.pc <= self@.mem.len()
    }

    /// Creates a machine with empty program memory and an empty operand
    /// stack of capacity `stack_size`.
    pub fn new(stack_size: usize) -> (vm: VM)
        requires
            stack_size >= 1,
        ensures
            vm.wf(),
            vm@ == (VMView {
                running: true,
                pc: 0 as nat,
                type_info: 0 as u8,
                data: 0 as i32,
                stack: Seq::<i32>::empty(),
                cap: stack_size as nat,
                mem: Seq::<u32>::empty(),
            }),
    {
        VM {
            program_memory: Vec::new(),
            pc: 0,
            type_info: 0,
            data: 0,
            running: true,
            stack: VMStack::new(stack_size),
        }
    }

    /// Builds program memory: the sentinel word first, then every word of
    /// `instructions` in order. Nothing else of the machine state changes.
    pub fn load_program(&mut self, instructions: &Vec<u32>)
        requires
            old(self).wf(),
        ensures
            final(self).wf(),
            final(self)@ == (VMView {
                mem: old(self)@.mem.push(SENTINEL_WORD) + instructions@,
                ..old(self)@
            }),
    {
        let ghost pre = self@;
        self.program_memory.push(SENTINEL_WORD);
        let mut i: usize = 0;
        while i < instructions.len()
            invariant
                i <= instructions@.len(),
                self@ == (VMView {
                    mem: pre.mem.push(SENTINEL_WORD) + instructions@.take(i as int),
                    ..pre
                }),
            decreases instructions@.len() - i,
        {
            self.program_memory.push(instructions[i]);
            proof {
                assert(pre.mem.push(SENTINEL_WORD) + instructions@.take(i as int) + seq![
                    instructions@[i as int],
                ] =~= pre.mem.push(SENTINEL_WORD) + instructions@.take(i + 1));
                assert(self@ =~= (VMView {
                    mem: pre.mem.push(SENTINEL_WORD) + instructions@.take(i + 1),
                    ..pre
                }));
            }
            i = i + 1;
        }
        proof {
            assert(instructions@.take(instructions@.len() as int) =~= instructions@);
            assert(self@ =~= (VMView {
                mem: pre.mem.push(SENTINEL_WORD) + instructions@,
                ..pre
            }));
        }
    }

    /// Advances the program counter by one if it is still within program
    /// memory; otherwise the program has exhausted its memory without a halt
    /// and the machine fails with `UnterminatedProgram`.
    pub fn fetch(&mut self) -> (r: Result<(), VmError>)
        requires
            old(self).wf(),
        ensures
            final(self).wf(),
            old(self)@.pc < old(self)@.mem.len() ==> r is Ok && final(self)@ == (VMView {
                pc: (old(self)@.pc + 1) as nat,
                ..old(self)@
            }),
            old(self)@.pc >= old(self)@.mem.len() ==> r == Err::<(), VmError>(
                VmError::UnterminatedProgram,
            ) && final(self)@ == old(self)@,
    {
        if self.pc < self.program_memory.len() {
            self.pc = self.pc + 1;
            Ok(())
        } else {
            Err(VmError::UnterminatedProgram)
        }
    }

    /// Decodes the word the program counter points at: its tag and its full
    /// signed reinterpretation as the data value.
    pub fn decode(&mut self)
        requires
            old(self).wf(),
            old(self)@.pc < old(self)@.mem.len(),
        ensures
            final(self).wf(),
            final(self)@ == (VMView {
                type_info: spec_tag(old(self)@.mem[old(self)@.pc as int]),
                data: decoded_data(old(self)@.mem[old(self)@.pc as int]),
                ..old(self)@
            }),
    {
        let word = self.program_memory[self.pc];
        self.data = VM::get_data(word);
        self.type_info = VM::get_type(word);
    }

    /// Executes the decoded instruction: a data literal is pushed onto the
    /// operand stack, anything else is dispatched to the primitive table.
    fn exec_cycle(&mut self) -> (r: Result<(), VmError>)
        requires
            old(self).wf(),
        ensures
            final(self).wf(),
            final(self)@.mem == old(self)@.mem,
            final(self)@.pc == old(self)@.pc,
            final(self)@.type_info == old(self)@.type_info,
            final(self)@.data == old(self)@.data,
            final(self)@.cap == old(self)@.cap,
            match step_cycle(old(self)@.type_info, old(self)@.data, old(self)@.stack, old(self)@.cap) {
                Ok((st2, halted)) => r is Ok && final(self)@.stack == st2 && final(self)@.running
                    == (if halted { false } else { old(self)@.running }),
                Err(e) => r == Err::<(), VmError>(e) && final(self)@.stack == old(self)@.stack
                    && final(self)@.running == old(self)@.running,
            },
    {
        if self.current_instruction_type() == CODE_TYPE_DATA_POSITIVE
            || self.current_instruction_type() == CODE_TYPE_DATA_NEGATIVE {
            match self.stack.push(self.data) {
                Ok(()) => Ok(()),
                Err(e) => Err(e),
            }
        } else {
            self.do_primitive()
        }
    }

    /// Dispatches the decoded data value, masked down to an opcode, to the
    /// primitive operation table. On every failure the operand stack is left
    /// as it was.
    fn do_primitive(&mut self) -> (r: Result<(), VmError>)
        requires
            old(self).wf(),
        ensures
            final(self).wf(),
            final(self)@.mem == old(self)@.mem,
            final(self)@.pc == old(self)@.pc,
            final(self)@.type_info == old(self)@.type_info,
            final(self)@.data == old(self)@.data,
            final(self)@.cap == old(self)@.cap,
            match primitive_step(old(self)@.data, old(self)@.stack) {
                Ok((st2, halted)) => r is Ok && final(self)@.stack == st2 && final(self)@.running
                    == (if halted { false } else { old(self)@.running }),
                Err(e) => r == Err::<(), VmError>(e) && final(self)@.stack == old(self)@.stack
                    && final(self)@.running == old(self)@.running,
            },
    {
        let ghost st0 = self@.stack;
        let op = self.data & 0xCFFFFF;
        if op == 0 {
            // HALT
            self.set_running(false);
            Ok(())
        } else if op >= 1 && op <= 4 {
            let top_1 = match self.stack.pop() {
                Ok(v) => v,
                Err(e) => {
                    return Err(e);
                },
            };
            let top_2 = match self.stack.pop() {
                Ok(v) => v,
                Err(e) => {
                    let _ = self.stack.push(top_1);
                    proof {
                        assert(self@.stack =~= st0);
                    }
                    return Err(e);
                },
            };
            if op == 4 && top_2 == 0 {
                let _ = self.stack.push(top_2);
                let _ = self.stack.push(top_1);
                proof {
                    assert(self@.stack =~= st0);
                }
                return Err(VmError::DivisionByZero);
            }
            let result = if op == 1 {
                top_1.wrapping_add(top_2)
            } else if op == 2 {
                top_1.wrapping_sub(top_2)
            } else if op == 3 {
                top_1.wrapping_mul(top_2)
            } else {
                VM::div_wrapping(top_1, top_2)
            };
            let pushed = self.stack.push(result);
            proof {
                assert(pushed is Ok);
            }
            Ok(())
        } else {
            Err(VmError::UndefinedInstruction)
        }
    }

    /// Truncating division, wrapping on the one overflowing operand pair.
    fn div_wrapping(a: i32, b: i32) -> (r: i32)
        requires
            b != 0,
        ensures
            r == div_wrap(a, b),
    {
        match a.checked_div(b) {
            Some(q) => q,
            None => i32::MIN,
        }
    }

    /// Runs fetch-decode-execute cycles until a halt instruction stops the
    /// machine or a fatal error ends the run. The outcome, including the
    /// final stack contents on a normal halt, is exactly `run_from` applied
    /// to the starting state.
    #[verifier::loop_isolation(false)]
    pub fn run(&mut self) -> (r: Result<(), VmError>)
        requires
            old(self).wf(),
        ensures
            final(self).wf(),
            final(self)@.mem == old(self)@.mem,
            final(self)@.cap == old(self)@.cap,
            match run_from(old(self)@.mem, old(self)@.pc as int, old(self)@.stack, old(self)@.cap) {
                Ok(st) => r is Ok && final(self)@.stack == st && !final(self)@.running,
                Err(e) => r == Err::<(), VmError>(e),
            },
    {
        let ghost mem0 = self@.mem;
        let ghost cap0 = self@.cap;
        let ghost target = run_from(self@.mem, self@.pc as int, self@.stack, self@.cap);
        self.set_running(true);
        while self.running
            invariant
                self.wf(),
                self@.mem == mem0,
                self@.cap == cap0,
                self@.running ==> run_from(mem0, self@.pc as int, self@.stack, cap0) == target,
                !self@.running ==> target is Ok && target->Ok_0 == self@.stack,
            decreases mem0.len() + 1 - self@.pc,
        {
            let ghost pc_it = self@.pc as int;
            let ghost st_it = self@.stack;
            let fetch_r = self.fetch();
            if let Err(e) = fetch_r {
                proof {
                    assert(run_from(mem0, pc_it, st_it, cap0) == Err::<Seq<i32>, VmError>(
                        VmError::UnterminatedProgram,
                    ));
                }
                return Err(e);
            }
            if self.pc >= self.program_memory.len() {
                // the fetch moved past the last word: there is nothing left
                // to decode, so the program ended without a halt
                proof {
                    assert(run_from(mem0, pc_it, st_it, cap0) == Err::<Seq<i32>, VmError>(
                        VmError::UnterminatedProgram,
                    ));
                }
                return Err(VmError::UnterminatedProgram);
            }
            self.decode();
            let ghost w = mem0[pc_it + 1];
            let step_r = self.exec_cycle();
            match step_r {
                Ok(_) => {
                    proof {
                        assert(step_cycle(spec_tag(w), decoded_data(w), st_it, cap0) is Ok);
                    }
                },
                Err(e) => {
                    proof {
                        assert(run_from(mem0, pc_it, st_it, cap0) == Err::<Seq<i32>, VmError>(e));
                    }
                    return Err(e);
                },
            }
        }
        Ok(())
    }

    /// Whether the machine is still executing cycles.
    pub fn is_running(&self) -> (r: bool)
        ensures
            r == self@.running,
    {
        self.running
    }

    /// Sets the running flag; a halt instruction clears it.
    pub fn set_running(&mut self, state: bool)
        ensures
            final(self)@ == (VMView { running: state, ..old(self)@ }),
    {
        self.running = state;
    }

    /// The data value of the most recently decoded word.
    pub fn current_data(&self) -> (d: i32)
        ensures
            d == self@.data,
    {
        self.data
    }

    /// The tag of the most recently decoded word.
    pub fn current_instruction_type(&self) -> (t: u8)
        ensures
            t == self@.type_info,
    {
        self.type_info
    }

    /// A copy of the operand stack's contents, bottom first.
    pub fn stack_contents(&self) -> (v: Vec<i32>)
        ensures
            v@ == self@.stack,
    {
        self.stack.contents()
    }

    /// The tag of a word: its two most-significant bits.
    pub fn get_type(instruction: u32) -> (t: u8)
        ensures
            t == spec_tag(instruction),
            t <= 3,
            t as u32 == (instruction >> 30) & 3,
    {
        proof {
            assert(((instruction & 0xC0000000) >> 30) <= 3 && ((instruction & 0xC0000000) >> 30)
                == ((instruction >> 30) & 3)) by (bit_vector);
        }
        ((instruction & 0xC0000000) >> 30) as u8
    }

    /// The data value of a word: the whole word reinterpreted as a signed
    /// 32-bit integer, tag bits included.
    pub fn get_data(instruction: u32) -> (d: i32)
        ensures
            d == decoded_data(instruction),
            d as int == word_val(instruction),
    {
        if instruction < 0x8000_0000 {
            instruction as i32
        } else {
            let v: i64 = instruction as i64 - 0x1_0000_0000i64;
            v as i32
        }
    }
}

/// The tag of every word is its top two bits, and is always one of 0, 1, 2
/// or 3.
pub proof fn lemma_tag_in_range(w: u32)
    ensures
        spec_tag(w) as u32 == (w >> 30) & 3,
        spec_tag(w) <= 3,
{
    assert((((w >> 30) & 3) as u8) as u32 == (w >> 30) & 3 && (((w >> 30) & 3) as u8) <= 3)
        by (bit_vector);
}

/// Decoding is a pure function of the program memory entry: any two decodes
/// of equal words, at whatever position of whatever program, yield the same
/// tag and the same data value.
pub proof fn lemma_decode_pure(p1: Seq<u32>, i1: int, p2: Seq<u32>, i2: int)
    requires
        0 <= i1 < p1.len(),
        0 <= i2 < p2.len(),
        p1[i1] == p2[i2],
    ensures
        spec_tag(p1[i1]) == spec_tag(p2[i2]),
        decoded_data(p1[i1]) == decoded_data(p2[i2]),
{
}

/// An arithmetic primitive derives its result from the two operands on top
/// of the stack alone: re-deriving it, on whatever stack holds the same two
/// operands and however often, yields the same value.
pub proof fn lemma_arith_rederivation(d: i32, st1: Seq<i32>, st2: Seq<i32>)
    requires
        st1.len() >= 2,
        st2.len() >= 2,
        st1.last() == st2.last(),
        st1[st1.len() - 2] == st2[st2.len() - 2],
        opcode_of(d) == 1 || opcode_of(d) == 2 || opcode_of(d) == 3,
    ensures
        primitive_step(d, st1) is Ok,
        primitive_step(d, st2) is Ok,
        primitive_step(d, st1)->Ok_0.0.last() == primitive_step(d, st2)->Ok_0.0.last(),
{
}

/// Dividing with a zero divisor (the second popped operand) always fails
/// with `DivisionByZero`; together with `do_primitive`'s contract this means
/// the stack is never mutated by such a division.
pub proof fn lemma_div_by_zero(d: i32, st: Seq<i32>)
    requires
        opcode_of(d) == 4,
        st.len() >= 2,
        st[st.len() - 2] == 0,
    ensures
        primitive_step(d, st) == Err::<(Seq<i32>, bool), VmError>(VmError::DivisionByZero),
{
}

} // verus!
