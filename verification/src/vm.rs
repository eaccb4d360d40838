//! The register/memory capability and the character-stream channel of
//! one machine instance: ten register slots, a flat 65536-word memory,
//! and in-memory byte queues for character input and output. Every
//! operation is total over the 16-bit address space.

use vstd::prelude::*;

use crate::ops::Register;

verus! {

/// Index of the program counter among the ten register slots.
pub const R_PC: u16 = 8;

/// Index of the condition-flags register among the ten register slots.
pub const R_COND: u16 = 9;

/// The fixed reset address: where the program counter points after
/// initialization.
pub const R_PC_INIT: u16 = 0x3000;

/// Condition flag: the last flag-affecting result was positive.
pub const COND_P: u16 = 1;

/// Condition flag: the last flag-affecting result was zero.
pub const COND_Z: u16 = 2;

/// Condition flag: the last flag-affecting result was negative.
pub const COND_N: u16 = 4;

/// Number of words in the address space.
pub const MEM_LEN: usize = 0x10000;

/// An I/O failure from a service call. The in-memory channel fails
/// exactly when a byte is requested and none is queued.
#[derive(Clone, Copy, Debug, PartialEq, Eq, Structural)]
pub enum IoError {
    InputExhausted,
}

/// Wrapping 16-bit addition: all word arithmetic is modulo 65536 and
/// never fails on overflow.
pub open spec fn wadd(a: u16, b: u16) -> u16 {
    if a + b > 0xFFFF {
        (a + b - 0x10000) as u16
    } else {
        (a + b) as u16
    }
}

/// The wrapping sum is the mathematical sum reduced modulo 65536.
pub proof fn lemma_wadd_mod(a: u16, b: u16)
    ensures
        wadd(a, b) == (a + b) % 0x10000,
{
    assert(wadd(a, b) == (a + b) % 0x10000) by (nonlinear_arith)
        requires
            a <= 0xFFFF,
            b <= 0xFFFF,
    ;
}

/// Two chained wrapping additions reduce the full sum modulo 65536.
pub proof fn lemma_wadd_wadd_mod(a: u16, b: u16, c: u16)
    ensures
        wadd(wadd(a, b), c) == (a + b + c) % 0x10000,
{
    assert(wadd(wadd(a, b), c) == (a + b + c) % 0x10000) by (nonlinear_arith)
        requires
            a <= 0xFFFF,
            b <= 0xFFFF,
            c <= 0xFFFF,
    ;
}

/// The sign of a word read as a two's-complement value, expressed as
/// the one condition flag it sets: zero, positive (sign bit clear) or
/// negative (sign bit set).
pub open spec fn cond_of(v: u16) -> u16 {
    if v == 0 {
        COND_Z
    } else if v < 0x8000 {
        COND_P
    } else {
        COND_N
    }
}

/// The mathematical state of one machine instance: the ten register
/// slots, the 65536-word memory, the bytes character input has not yet
/// consumed, and the bytes character output has emitted so far.
#[verifier::ext_equal]
pub struct MachineState {
    pub regs: Seq<u16>,
    pub mem: Seq<u16>,
    pub input: Seq<u8>,
    pub output: Seq<u8>,
}

impl MachineState {
    pub open spec fn wf(self) -> bool {
        self.regs.len() == 10 && self.mem.len() == MEM_LEN
    }

    /// The word in register slot `i`.
    pub open spec fn reg(self, i: u16) -> u16 {
        self.regs[i as int]
    }

    /// The word at address `a`.
    pub open spec fn mem_at(self, a: u16) -> u16 {
        self.mem[a as int]
    }

    pub open spec fn with_reg(self, i: u16, v: u16) -> MachineState {
        MachineState { regs: self.regs.update(i as int, v), ..self }
    }

    pub open spec fn with_mem(self, a: u16, v: u16) -> MachineState {
        MachineState { mem: self.mem.update(a as int, v), ..self }
    }

    /// The state after the condition-flags register is set from the
    /// written value `v`: exactly one of the three flags.
    pub open spec fn set_cond(self, v: u16) -> MachineState {
        self.with_reg(R_COND, cond_of(v))
    }

    /// The state after character input consumed its first queued byte.
    pub open spec fn pop_input(self) -> MachineState {
        MachineState { input: self.input.skip(1), ..self }
    }

    /// The state after character output emitted `bs`.
    pub open spec fn push_output(self, bs: Seq<u8>) -> MachineState {
        MachineState { output: self.output + bs, ..self }
    }
}

/// The address of the zero terminator of the character run that starts
/// at `a`, or the end of the address space if no zero word follows.
pub open spec fn cstr_end(mem: Seq<u16>, a: int) -> int
    decreases MEM_LEN - a when 0 <= a <= MEM_LEN
{
    if a >= MEM_LEN {
        a
    } else if mem[a] == 0 {
        a
    } else {
        cstr_end(mem, a + 1)
    }
}

/// The character run that starts at `a`: one byte per word, up to and
/// excluding the first zero word.
pub open spec fn cstr_spec(mem: Seq<u16>, a: int) -> Seq<u8> {
    Seq::new((cstr_end(mem, a) - a) as nat, |i: int| mem[a + i] as u8)
}

/// Bounds and characterization of `cstr_end`: it is the first zero
/// word at or after `a`, when one exists.
pub proof fn lemma_cstr_end(mem: Seq<u16>, a: int)
    requires
        0 <= a <= MEM_LEN,
    ensures
        a <= cstr_end(mem, a) <= MEM_LEN,
        forall|j: int| a <= j < cstr_end(mem, a) ==> mem[j] != 0,
        cstr_end(mem, a) < MEM_LEN ==> mem[cstr_end(mem, a)] == 0,
    decreases MEM_LEN - a,
{
    if a < MEM_LEN && mem[a] != 0 {
        lemma_cstr_end(mem, a + 1);
    }
}

/// `cstr_end` is pinned down by its characterization: any address `e`
/// with only nonzero words before it and a zero word (or the end of
/// memory) at it is the terminator address.
pub proof fn lemma_cstr_end_unique(mem: Seq<u16>, a: int, e: int)
    requires
        0 <= a <= e <= MEM_LEN,
        forall|j: int| a <= j < e ==> mem[j] != 0,
        e < MEM_LEN ==> mem[e] == 0,
    ensures
        cstr_end(mem, a) == e,
    decreases e - a,
{
    if a < e {
        lemma_cstr_end_unique(mem, a + 1, e);
    }
}

/// One machine instance's state: registers, memory, and the two
/// character queues. Allocated once and owned exclusively by the
/// instance; the engine only reads and writes through its methods.
pub struct Vm {
    regs: Vec<u16>,
    mem: Vec<u16>,
    input: Vec<u8>,
    in_pos: usize,
    output: Vec<u8>,
}

impl View for Vm {
    type V = MachineState;

    closed spec fn view(&self) -> MachineState {
        MachineState {
            regs: self.regs@,
            mem: self.mem@,
            input: self.input@.skip(self.in_pos as int),
            output: self.output@,
        }
    }
}

impl Vm {
    pub closed spec fn wf(&self) -> bool {
        self.regs.len() == 10 && self.mem.len() == MEM_LEN && self.in_pos <= self.input.len()
    }

    /// A well-formed instance has a well-formed mathematical state.
    pub proof fn lemma_wf_state(&self)
        requires
            self.wf(),
        ensures
            self@.wf(),
    {
    }

    /// A fresh machine: all registers and memory words zero, no input
    /// queued, no output emitted.
    pub fn new() -> (vm: Vm)
        ensures
            vm.wf(),
            vm@.regs == Seq::new(10, |i: int| 0u16),
            vm@.mem == Seq::new(MEM_LEN as nat, |i: int| 0u16),
            vm@.input == Seq::<u8>::empty(),
            vm@.output == Seq::<u8>::empty(),
    {
        let vm = Vm {
            regs: zero_words(10),
            mem: zero_words(MEM_LEN),
            input: Vec::new(),
            in_pos: 0,
            output: Vec::new(),
        };
        proof {
            assert(vm@.regs =~= Seq::new(10, |i: int| 0u16));
            assert(vm@.mem =~= Seq::new(MEM_LEN as nat, |i: int| 0u16));
            assert(vm@.input =~= Seq::<u8>::empty());
        }
        vm
    }

    /// Read one of the ten register slots.
    pub fn read_reg(&self, r: Register) -> (v: u16)
        requires
            self.wf(),
            r.0 < 10,
        ensures
            v == self@.reg(r.0),
    {
        self.regs[r.0 as usize]
    }

    /// Write one of the ten register slots.
    pub fn write_reg(&mut self, r: Register, v: u16)
        requires
            old(self).wf(),
            r.0 < 10,
        ensures
            final(self).wf(),
            final(self)@ == old(self)@.with_reg(r.0, v),
    {
        self.regs.set(r.0 as usize, v);
        proof {
            assert(self@ =~= old(self)@.with_reg(r.0, v));
        }
    }

    /// Read the word at an address; total over the full address space.
    pub fn read_mem(&self, a: u16) -> (v: u16)
        requires
            self.wf(),
        ensures
            v == self@.mem_at(a),
    {
        self.mem[a as usize]
    }

    /// Write the word at an address; total over the full address space.
    pub fn write_mem(&mut self, a: u16, v: u16)
        requires
            old(self).wf(),
        ensures
            final(self).wf(),
            final(self)@ == old(self)@.with_mem(a, v),
    {
        self.mem.set(a as usize, v);
        proof {
            assert(self@ =~= old(self)@.with_mem(a, v));
        }
    }

    /// Blocking character input: the next queued byte, or an error
    /// exactly when the queue is empty.
    pub fn getc(&mut self) -> (r: Result<u8, IoError>)
        requires
            old(self).wf(),
        ensures
            final(self).wf(),
            old(self)@.input.len() > 0 ==> r == Ok::<u8, IoError>(old(self)@.input[0])
                && final(self)@ == old(self)@.pop_input(),
            old(self)@.input.len() == 0 ==> r == Err::<u8, IoError>(IoError::InputExhausted)
                && final(self)@ == old(self)@,
    {
        if self.in_pos < self.input.len() {
            let b = self.input[self.in_pos];
            self.in_pos = self.in_pos + 1;
            proof {
                assert(self@ =~= old(self)@.pop_input());
            }
            Ok(b)
        } else {
            Err(IoError::InputExhausted)
        }
    }

    /// Character output of one byte.
    pub fn putc(&mut self, b: u8) -> (r: Result<(), IoError>)
        requires
            old(self).wf(),
        ensures
            final(self).wf(),
            r == Ok::<(), IoError>(()),
            final(self)@ == old(self)@.push_output(seq![b]),
    {
        self.output.push(b);
        proof {
            assert(self@ =~= old(self)@.push_output(seq![b]));
        }
        Ok(())
    }

    /// Character output of a byte sequence, as one operation.
    pub fn puts(&mut self, bs: &Vec<u8>) -> (r: Result<(), IoError>)
        requires
            old(self).wf(),
        ensures
            final(self).wf(),
            r == Ok::<(), IoError>(()),
            final(self)@ == old(self)@.push_output(bs@),
    {
        let mut i: usize = 0;
        while i < bs.len()
            invariant
                old(self).wf(),
                self.wf(),
                i <= bs.len(),
                self@ == old(self)@.push_output(bs@.take(i as int)),
            decreases bs.len() - i,
        {
            let b = bs[i];
            self.output.push(b);
            i = i + 1;
            proof {
                assert(self@ =~= old(self)@.push_output(bs@.take(i as int)));
            }
        }
        proof {
            assert(bs@.take(bs@.len() as int) =~= bs@);
            assert(self@ =~= old(self)@.push_output(bs@));
        }
        Ok(())
    }

    /// The character run starting at `a`: one byte per word, stopping
    /// before the first zero word (or at the end of the address space
    /// when no zero word follows).
    pub fn c_str(&self, a: u16) -> (bs: Vec<u8>)
        requires
            self.wf(),
        ensures
            bs@ == cstr_spec(self@.mem, a as int),
    {
        let mut bs: Vec<u8> = Vec::new();
        let mut i: usize = a as usize;
        while i < MEM_LEN && self.mem[i] != 0
            invariant
                self.wf(),
                a as int <= i <= MEM_LEN,
                forall|j: int| a as int <= j < i ==> self@.mem[j] != 0,
                bs@ == Seq::new((i - a) as nat, |k: int| self@.mem[a + k] as u8),
            decreases MEM_LEN - i,
        {
            let w = self.mem[i];
            bs.push((w & 0xFF) as u8);
            proof {
                assert((w & 0xFF) as u8 == w as u8) by (bit_vector);
            }
            i = i + 1;
            proof {
                assert(bs@ =~= Seq::new((i - a) as nat, |k: int| self@.mem[a + k] as u8));
            }
        }
        proof {
            lemma_cstr_end_unique(self@.mem, a as int, i as int);
            assert(bs@ =~= cstr_spec(self@.mem, a as int));
        }
        bs
    }

    /// Queue one byte for character input.
    pub fn push_input(&mut self, b: u8)
        requires
            old(self).wf(),
        ensures
            final(self).wf(),
            final(self)@ == (MachineState { input: old(self)@.input.push(b), ..old(self)@ }),
    {
        self.input.push(b);
        proof {
            assert(self@ =~= (MachineState { input: old(self)@.input.push(b), ..old(self)@ }));
        }
    }

    /// The bytes character output has emitted so far.
    pub fn output_bytes(&self) -> (bs: &Vec<u8>)
        ensures
            bs@ == self@.output,
    {
        &self.output
    }
}

/// A vector of `n` zero words.
fn zero_words(n: usize) -> (v: Vec<u16>)
    ensures
        v@.len() == n as int,
        forall|i: int| 0 <= i < n ==> v@[i] == 0,
{
    let mut v: Vec<u16> = Vec::new();
    let mut i: usize = 0;
    while i < n
        invariant
            i <= n,
            v@.len() == i as int,
            forall|j: int| 0 <= j < i ==> v@[j] == 0,
        decreases n - i,
    {
        v.push(0);
        i = i + 1;
    }
    v
}

} // verus!
