//! The execution engine: fetch, decode, dispatch and effect one
//! instruction per step, with the condition-code update rule, the
//! post-increment PC-relative addressing, and trap dispatch to the
//! character-I/O and halt services. `tick_spec` is the mathematical
//! step function; the engine is proved to implement it exactly.

use vstd::prelude::*;

use crate::ops::Argument;
use crate::ops::Operation;
use crate::ops::Register;
use crate::ops_parse::ParseError;
use crate::ops_parse::lemma_parse_wf;
use crate::ops_parse::parse_spec;
use crate::vm::COND_N;
use crate::vm::COND_P;
use crate::vm::COND_Z;
use crate::vm::IoError;
use crate::vm::MachineState;
use crate::vm::R_COND;
use crate::vm::R_PC;
use crate::vm::R_PC_INIT;
use crate::vm::Vm;
use crate::vm::cond_of;
use crate::vm::cstr_spec;
use crate::vm::lemma_wadd_mod;
use crate::vm::lemma_wadd_wadd_mod;
use crate::vm::wadd;

verus! {

/// An operation the emulator does not support: the return-from-
/// interrupt instruction, or a trap vector outside the service layer.
#[derive(Clone, Copy, Debug, PartialEq, Eq, Structural)]
pub enum Unsupported {
    Rti,
    TrapVector(u16),
}

/// Why a step failed. Every failure is terminal to the run: a decode
/// failure, an I/O failure from a trap service call, or an operation
/// the emulator does not support.
#[derive(Clone, Copy, Debug, PartialEq, Eq, Structural)]
pub enum TickError {
    Io(IoError),
    Parse(ParseError),
    Unsupported(Unsupported),
}

/// The value of ADD's and AND's second operand: a register's content
/// or the sign-extended immediate.
pub open spec fn arg_val(s: MachineState, arg: Argument) -> u16 {
    match arg {
        Argument::Register(r) => s.reg(r.0),
        Argument::Immediate(imm) => imm,
    }
}

/// Whether a conditional branch is taken: each selected flag is tested
/// against the condition-flags register.
pub open spec fn br_taken(cond: u16, n: bool, z: bool, p: bool) -> bool {
    (n && COND_N & cond != 0) || (z && COND_Z & cond != 0) || (p && COND_P & cond != 0)
}

/// What trap dispatch does to the machine state, by vector: character
/// input into register 0, character output of register 0's low byte,
/// output of the zero-terminated character run register 0 points at,
/// halt, or an unsupported-vector error.
pub open spec fn trap_spec(s: MachineState, v: u16) -> (MachineState, Result<bool, TickError>) {
    match v {
        0x20 => if s.input.len() > 0 {
            (s.pop_input().with_reg(0, s.input[0] as u16), Ok(true))
        } else {
            (s, Err(TickError::Io(IoError::InputExhausted)))
        },
        0x21 => (s.push_output(seq![s.reg(0) as u8]), Ok(true)),
        0x22 => (s.push_output(cstr_spec(s.mem, s.reg(0) as int)), Ok(true)),
        0x25 => (s, Ok(false)),
        _ => (s, Err(TickError::Unsupported(Unsupported::TrapVector(v)))),
    }
}

/// The effect of one decoded instruction on the machine state, given
/// that the program counter has already been advanced past it. Returns
/// the new state and the step outcome: continue, halt, or an error.
pub open spec fn tick_op_spec(s: MachineState, op: Operation) -> (
    MachineState,
    Result<bool, TickError>,
) {
    match op {
        Operation::OpAdd { dr, sr1, arg } => {
            let v = wadd(s.reg(sr1.0), arg_val(s, arg));
            (s.with_reg(dr.0, v).set_cond(v), Ok(true))
        },
        Operation::OpAnd { dr, sr1, arg } => {
            let v = s.reg(sr1.0) & arg_val(s, arg);
            (s.with_reg(dr.0, v).set_cond(v), Ok(true))
        },
        Operation::OpBr { n, z, p, pc_offset } => if br_taken(s.reg(R_COND), n, z, p) {
            (s.with_reg(R_PC, wadd(s.reg(R_PC), pc_offset)), Ok(true))
        } else {
            (s, Ok(true))
        },
        Operation::OpJmp { base_r } => (s.with_reg(R_PC, s.reg(base_r.0)), Ok(true)),
        Operation::OpJsr { pc_offset } => {
            let s1 = s.with_reg(7, s.reg(R_PC));
            (s1.with_reg(R_PC, wadd(s1.reg(R_PC), pc_offset)), Ok(true))
        },
        Operation::OpJsrr { base_r } => {
            let s1 = s.with_reg(7, s.reg(R_PC));
            (s1.with_reg(R_PC, s1.reg(base_r.0)), Ok(true))
        },
        Operation::OpLd { dr, pc_offset } => {
            let v = s.mem_at(wadd(s.reg(R_PC), pc_offset));
            (s.with_reg(dr.0, v).set_cond(v), Ok(true))
        },
        Operation::OpLdi { dr, pc_offset } => {
            let v = s.mem_at(s.mem_at(wadd(s.reg(R_PC), pc_offset)));
            (s.with_reg(dr.0, v).set_cond(v), Ok(true))
        },
        Operation::OpLdr { dr, base_r, offset } => {
            let v = s.mem_at(wadd(s.reg(base_r.0), offset));
            (s.with_reg(dr.0, v).set_cond(v), Ok(true))
        },
        Operation::OpLea { dr, pc_offset } => {
            let v = wadd(s.reg(R_PC), pc_offset);
            (s.with_reg(dr.0, v).set_cond(v), Ok(true))
        },
        Operation::OpNot { dr, sr } => {
            let v = !s.reg(sr.0);
            (s.with_reg(dr.0, v).set_cond(v), Ok(true))
        },
        Operation::OpRti => (s, Err(TickError::Unsupported(Unsupported::Rti))),
        Operation::OpSt { sr, pc_offset } => (
            s.with_mem(wadd(s.reg(R_PC), pc_offset), s.reg(sr.0)),
            Ok(true),
        ),
        Operation::OpSti { sr, pc_offset } => (
            s.with_mem(s.mem_at(wadd(s.reg(R_PC), pc_offset)), s.reg(sr.0)),
            Ok(true),
        ),
        Operation::OpStr { sr, base_r, offset } => (
            s.with_mem(wadd(s.reg(base_r.0), offset), s.reg(sr.0)),
            Ok(true),
        ),
        Operation::OpTrap { trap_vector } => trap_spec(s.with_reg(7, s.reg(R_PC)), trap_vector),
    }
}

/// One full step: fetch the word at the program counter, decode it,
/// advance the program counter past it, then apply the instruction's
/// effect. A decode failure leaves the state unmodified.
pub open spec fn tick_spec(s: MachineState) -> (MachineState, Result<bool, TickError>) {
    let pc = s.reg(R_PC);
    match parse_spec(s.mem_at(pc)) {
        Ok(op) => tick_op_spec(s.with_reg(R_PC, wadd(pc, 1)), op),
        Err(e) => (s, Err(TickError::Parse(e))),
    }
}

/// The state after initialization: program counter at the reset
/// address, condition flags at Zero.
pub open spec fn init_spec(s: MachineState) -> MachineState {
    s.with_reg(R_PC, R_PC_INIT).with_reg(R_COND, COND_Z)
}

/// The state after `n` steps from `s`.
pub open spec fn steps(s: MachineState, n: nat) -> MachineState
    decreases n,
{
    if n == 0 {
        s
    } else {
        tick_spec(steps(s, (n - 1) as nat)).0
    }
}

/// The first `n` steps from `s` all continue: none halts or fails.
pub open spec fn runs_to(s: MachineState, n: nat) -> bool {
    forall|i: nat| i < n ==> (#[trigger] tick_spec(steps(s, i))).1 == Ok::<bool, TickError>(true)
}

/// The engine's interface: a machine that can initialize itself and
/// execute one instruction per step, exactly as `tick_spec` says.
pub trait VmSpec {
    /// The mathematical state of the machine.
    spec fn st(&self) -> MachineState;

    /// The machine's own well-formedness, preserved by every step.
    spec fn inv(&self) -> bool;

    /// Set the program counter to the reset address and the condition
    /// flags to Zero. Must run once before the first step.
    fn init(&mut self)
        requires
            old(self).inv(),
        ensures
            final(self).inv(),
            final(self).st() == init_spec(old(self).st()),
    ;

    /// Execute one instruction: fetch, decode, advance the program
    /// counter, apply the effect. `Ok(true)` continues, `Ok(false)`
    /// halts, an error is terminal.
    fn tick(&mut self) -> (r: Result<bool, TickError>)
        requires
            old(self).inv(),
        ensures
            final(self).inv(),
            final(self).st() == tick_spec(old(self).st()).0,
            r == tick_spec(old(self).st()).1,
    ;

    /// Apply one already-decoded instruction's effect, the program
    /// counter having been advanced past it.
    fn tick_op(&mut self, op: Operation) -> (r: Result<bool, TickError>)
        requires
            old(self).inv(),
            op.wf(),
        ensures
            final(self).inv(),
            final(self).st() == tick_op_spec(old(self).st(), op).0,
            r == tick_op_spec(old(self).st(), op).1,
    ;

    /// Dispatch one trap vector to the service layer.
    fn trap(&mut self, trap_vector: u16) -> (r: Result<bool, TickError>)
        requires
            old(self).inv(),
        ensures
            final(self).inv(),
            final(self).st() == trap_spec(old(self).st(), trap_vector).0,
            r == trap_spec(old(self).st(), trap_vector).1,
    ;
}

/// The driver loop: step at most `max_steps` times, until the machine
/// halts (`Ok(true)`), a step fails (that error), or the budget runs
/// out with the machine still going (`Ok(false)`). The result is
/// pinned to the step semantics: some `n` leading steps all continue,
/// and the step after them, if one was taken, is the one that halted
/// or failed.
pub fn run(vm: &mut impl VmSpec, max_steps: u64) -> (r: Result<bool, TickError>)
    requires
        old(vm).inv(),
    ensures
        final(vm).inv(),
        exists|n: nat|
            #[trigger] runs_to(old(vm).st(), n) && n <= max_steps && (match r {
                Ok(halted) => if halted {
                    n < max_steps && final(vm).st() == tick_spec(steps(old(vm).st(), n)).0
                        && tick_spec(steps(old(vm).st(), n)).1 == Ok::<bool, TickError>(false)
                } else {
                    n == max_steps && final(vm).st() == steps(old(vm).st(), n)
                },
                Err(e) => n < max_steps && final(vm).st() == tick_spec(steps(old(vm).st(), n)).0
                    && tick_spec(steps(old(vm).st(), n)).1 == Err::<bool, TickError>(e),
            }),
{
    let ghost s0 = old(vm).st();
    let mut i: u64 = 0;
    while i < max_steps
        invariant
            vm.inv(),
            i <= max_steps,
            runs_to(s0, i as nat),
            vm.st() == steps(s0, i as nat),
            s0 == old(vm).st(),
        decreases max_steps - i,
    {
        let ghost n = i as nat;
        match vm.tick() {
            Ok(true) => {
                proof {
                    assert(steps(s0, n + 1) == tick_spec(steps(s0, n)).0);
                    assert forall|j: nat| j < n + 1 implies (#[trigger] tick_spec(steps(s0, j))).1
                        == Ok::<bool, TickError>(true) by {
                        if j < n {
                            assert(runs_to(s0, n));
                        }
                    }
                }
                i = i + 1;
            },
            Ok(false) => {
                proof {
                    assert(runs_to(s0, n) && n <= max_steps && vm.st() == tick_spec(
                        steps(s0, n),
                    ).0 && tick_spec(steps(s0, n)).1 == Ok::<bool, TickError>(false));
                }
                return Ok(true);
            },
            Err(e) => {
                proof {
                    assert(runs_to(s0, n) && n <= max_steps && vm.st() == tick_spec(
                        steps(s0, n),
                    ).0 && tick_spec(steps(s0, n)).1 == Err::<bool, TickError>(e));
                }
                return Err(e);
            },
        }
    }
    proof {
        assert(runs_to(s0, i as nat) && i == max_steps && vm.st() == steps(s0, i as nat));
    }
    Ok(false)
}

/// Read the register just written and set the condition-flags register
/// from its signed reading: Zero, Positive or Negative, exactly one.
pub fn set_cond_reg(vm: &mut Vm, register: Register)
    requires
        old(vm).wf(),
        register.0 < 10,
    ensures
        final(vm).wf(),
        final(vm)@ == old(vm)@.set_cond(old(vm)@.reg(register.0)),
{
    let value = vm.read_reg(register);
    if value == 0 {
        vm.write_reg(Register(R_COND), COND_Z);
    } else if value < 0x8000 {
        vm.write_reg(Register(R_COND), COND_P);
    } else {
        vm.write_reg(Register(R_COND), COND_N);
    }
}

impl VmSpec for Vm {
    open spec fn st(&self) -> MachineState {
        self@
    }

    open spec fn inv(&self) -> bool {
        self.wf()
    }

    fn init(&mut self) {
        self.write_reg(Register(R_PC), R_PC_INIT);
        self.write_reg(Register(R_COND), COND_Z);
    }

    fn tick(&mut self) -> (r: Result<bool, TickError>) {
        let pc = self.read_reg(Register(R_PC));
        let w = self.read_mem(pc);
        match Operation::parse(w) {
            Ok(op) => {
                proof {
                    lemma_parse_wf(w);
                }
                self.write_reg(Register(R_PC), pc.wrapping_add(1));
                self.tick_op(op)
            },
            Err(e) => Err(TickError::Parse(e)),
        }
    }

    fn tick_op(&mut self, op: Operation) -> (r: Result<bool, TickError>) {
        proof {
            old(self).lemma_wf_state();
        }
        match op {
            Operation::OpAdd { dr, sr1, arg: Argument::Register(sr2) } => {
                let v = self.read_reg(sr1).wrapping_add(self.read_reg(sr2));
                self.write_reg(dr, v);
                set_cond_reg(self, dr);
                Ok(true)
            },
            Operation::OpAdd { dr, sr1, arg: Argument::Immediate(imm) } => {
                let v = self.read_reg(sr1).wrapping_add(imm);
                self.write_reg(dr, v);
                set_cond_reg(self, dr);
                Ok(true)
            },
            Operation::OpAnd { dr, sr1, arg: Argument::Register(sr2) } => {
                let v = self.read_reg(sr1) & self.read_reg(sr2);
                self.write_reg(dr, v);
                set_cond_reg(self, dr);
                Ok(true)
            },
            Operation::OpAnd { dr, sr1, arg: Argument::Immediate(imm) } => {
                let v = self.read_reg(sr1) & imm;
                self.write_reg(dr, v);
                set_cond_reg(self, dr);
                Ok(true)
            },
            Operation::OpBr { n, z, p, pc_offset } => {
                let cond = self.read_reg(Register(R_COND));
                if n && (COND_N & cond) != 0 || z && (COND_Z & cond) != 0 || p && (COND_P & cond)
                    != 0 {
                    let pcv = self.read_reg(Register(R_PC));
                    self.write_reg(Register(R_PC), pcv.wrapping_add(pc_offset));
                }
                Ok(true)
            },
            Operation::OpJmp { base_r } => {
                let t = self.read_reg(base_r);
                self.write_reg(Register(R_PC), t);
                Ok(true)
            },
            Operation::OpJsr { pc_offset } => {
                let pcv = self.read_reg(Register(R_PC));
                self.write_reg(Register(7), pcv);
                let pcv2 = self.read_reg(Register(R_PC));
                self.write_reg(Register(R_PC), pcv2.wrapping_add(pc_offset));
                Ok(true)
            },
            Operation::OpJsrr { base_r } => {
                let pcv = self.read_reg(Register(R_PC));
                self.write_reg(Register(7), pcv);
                let t = self.read_reg(base_r);
                self.write_reg(Register(R_PC), t);
                Ok(true)
            },
            Operation::OpLd { dr, pc_offset } => {
                let pcv = self.read_reg(Register(R_PC));
                let v = self.read_mem(pcv.wrapping_add(pc_offset));
                self.write_reg(dr, v);
                set_cond_reg(self, dr);
                Ok(true)
            },
            Operation::OpLdi { dr, pc_offset } => {
                let pcv = self.read_reg(Register(R_PC));
                let address = self.read_mem(pcv.wrapping_add(pc_offset));
                let v = self.read_mem(address);
                self.write_reg(dr, v);
                set_cond_reg(self, dr);
                Ok(true)
            },
            Operation::OpLdr { dr, base_r, offset } => {
                let base = self.read_reg(base_r);
                let v = self.read_mem(base.wrapping_add(offset));
                self.write_reg(dr, v);
                set_cond_reg(self, dr);
                Ok(true)
            },
            Operation::OpLea { dr, pc_offset } => {
                let pcv = self.read_reg(Register(R_PC));
                self.write_reg(dr, pcv.wrapping_add(pc_offset));
                set_cond_reg(self, dr);
                Ok(true)
            },
            Operation::OpNot { dr, sr } => {
                let v = !self.read_reg(sr);
                self.write_reg(dr, v);
                set_cond_reg(self, dr);
                Ok(true)
            },
            Operation::OpRti => Err(TickError::Unsupported(Unsupported::Rti)),
            Operation::OpSt { sr, pc_offset } => {
                let pcv = self.read_reg(Register(R_PC));
                let v = self.read_reg(sr);
                self.write_mem(pcv.wrapping_add(pc_offset), v);
                Ok(true)
            },
            Operation::OpSti { sr, pc_offset } => {
                let pcv = self.read_reg(Register(R_PC));
                let address = self.read_mem(pcv.wrapping_add(pc_offset));
                let v = self.read_reg(sr);
                self.write_mem(address, v);
                Ok(true)
            },
            Operation::OpStr { sr, base_r, offset } => {
                let base = self.read_reg(base_r);
                let v = self.read_reg(sr);
                self.write_mem(base.wrapping_add(offset), v);
                Ok(true)
            },
            Operation::OpTrap { trap_vector } => {
                let pcv = self.read_reg(Register(R_PC));
                self.write_reg(Register(7), pcv);
                self.trap(trap_vector)
            },
        }
    }

    fn trap(&mut self, trap_vector: u16) -> (r: Result<bool, TickError>) {
        match trap_vector {
            0x20 => match self.getc() {
                Ok(b) => {
                    self.write_reg(Register(0), b as u16);
                    proof {
                        assert(self@ =~= trap_spec(old(self)@, 0x20).0);
                    }
                    Ok(true)
                },
                Err(e) => Err(TickError::Io(e)),
            },
            0x21 => {
                let v = self.read_reg(Register(0));
                proof {
                    assert((v & 0xFF) as u8 == v as u8) by (bit_vector);
                }
                match self.putc((v & 0xFF) as u8) {
                    Ok(_) => Ok(true),
                    Err(e) => Err(TickError::Io(e)),
                }
            },
            0x22 => {
                let addr = self.read_reg(Register(0));
                let bs = self.c_str(addr);
                match self.puts(&bs) {
                    Ok(_) => Ok(true),
                    Err(e) => Err(TickError::Io(e)),
                }
            },
            0x25 => Ok(false),
            _ => Err(TickError::Unsupported(Unsupported::TrapVector(trap_vector))),
        }
    }
}

/// A step preserves well-formedness of the machine state: register
/// count and memory size never change.
pub proof fn lemma_tick_spec_wf(s: MachineState)
    requires
        s.wf(),
    ensures
        tick_spec(s).0.wf(),
{
    match parse_spec(s.mem_at(s.reg(R_PC))) {
        Ok(_) => lemma_parse_wf(s.mem_at(s.reg(R_PC))),
        Err(_) => {},
    }
}

/// For every flag-affecting instruction, execution leaves exactly one
/// of the three condition flags set, the one matching the signed
/// reading of the value written to the destination register: Zero for
/// 0, Positive for 1..32767, Negative for 32768..65535.
pub proof fn lemma_flag_invariant(s: MachineState, op: Operation)
    requires
        s.wf(),
        op.wf(),
        op.affects_flags(),
    ensures
        ({
            let s2 = tick_op_spec(s, op).0;
            let v = s2.reg(op.dest_reg().0);
            &&& s2.reg(R_COND) == cond_of(v)
            &&& (s2.reg(R_COND) == COND_N || s2.reg(R_COND) == COND_Z || s2.reg(R_COND) == COND_P)
            &&& (v == 0 ==> s2.reg(R_COND) == COND_Z)
            &&& (0 < v < 0x8000 ==> s2.reg(R_COND) == COND_P)
            &&& (0x8000 <= v ==> s2.reg(R_COND) == COND_N)
        }),
{
}

/// Instructions whose effect does not update the flags - branches,
/// jumps, stores and traps - leave the condition register exactly as
/// it was.
pub proof fn lemma_non_flag_ops_keep_cond(s: MachineState, op: Operation)
    requires
        s.wf(),
        op.wf(),
        !op.affects_flags(),
    ensures
        tick_op_spec(s, op).0.reg(R_COND) == s.reg(R_COND),
{
}

/// From initialization on, the condition-flags register always holds
/// exactly one of the three flags: initialization sets Zero, and each
/// step either leaves the register alone or writes exactly one flag.
pub proof fn lemma_cond_one_flag_preserved(s: MachineState)
    requires
        s.wf(),
        s.reg(R_COND) == COND_N || s.reg(R_COND) == COND_Z || s.reg(R_COND) == COND_P,
    ensures
        ({
            let c = tick_spec(s).0.reg(R_COND);
            c == COND_N || c == COND_Z || c == COND_P
        }),
        init_spec(s).reg(R_COND) == COND_Z,
{
    match parse_spec(s.mem_at(s.reg(R_PC))) {
        Ok(_) => lemma_parse_wf(s.mem_at(s.reg(R_PC))),
        Err(_) => {},
    }
}

/// ADD results, PC increments and PC-relative address computations
/// never fail on overflow: each is the mathematical sum reduced modulo
/// 65536 (and an AND result is simply the bitwise conjunction, which
/// cannot leave a word).
pub proof fn lemma_wraparound(s: MachineState, dr: Register, sr1: Register, arg: Argument)
    requires
        s.wf(),
        dr.wf(),
        sr1.wf(),
        arg.wf(),
    ensures
        tick_op_spec(s, Operation::OpAdd { dr, sr1, arg }).0.reg(dr.0) == (s.reg(sr1.0) + arg_val(
            s,
            arg,
        )) % 0x10000,
        tick_op_spec(s, Operation::OpAnd { dr, sr1, arg }).0.reg(dr.0) == s.reg(sr1.0) & arg_val(
            s,
            arg,
        ),
        forall|pc: u16| #[trigger] wadd(pc, 1) == (pc + 1) % 0x10000,
        forall|pc: u16, k: u16| #[trigger] wadd(wadd(pc, 1), k) == (pc + 1 + k) % 0x10000,
{
    lemma_wadd_mod(s.reg(sr1.0), arg_val(s, arg));
    assert forall|pc: u16| #[trigger] wadd(pc, 1) == (pc + 1) % 0x10000 by {
        lemma_wadd_mod(pc, 1);
    }
    assert forall|pc: u16, k: u16| #[trigger] wadd(wadd(pc, 1), k) == (pc + 1 + k) % 0x10000 by {
        lemma_wadd_wadd_mod(pc, 1, k);
    }
}

/// Fetch-then-increment: a PC-relative instruction fetched at address
/// A with offset k uses effective address (A+1+k) mod 65536, never
/// (A+k) - the program counter is advanced past the instruction before
/// any operand address is formed. Stated for each PC-relative opcode.
pub proof fn lemma_fetch_then_increment(s: MachineState)
    requires
        s.wf(),
    ensures
        ({
            let a = s.reg(R_PC);
            let w = s.mem_at(a);
            let s2 = tick_spec(s).0;
            &&& (parse_spec(w) matches Ok(Operation::OpLd { dr, pc_offset }) ==> s2.reg(dr.0)
                == s.mem[(a + 1 + pc_offset) % 0x10000])
            &&& (parse_spec(w) matches Ok(Operation::OpLea { dr, pc_offset }) ==> s2.reg(dr.0) == (
            a + 1 + pc_offset) % 0x10000)
            &&& (parse_spec(w) matches Ok(Operation::OpSt { sr, pc_offset }) ==> s2.mem[(a + 1
                + pc_offset) % 0x10000] == s.reg(sr.0))
            &&& (parse_spec(w) matches Ok(Operation::OpSti { sr, pc_offset }) ==> s2.mem[s.mem[(a
                + 1 + pc_offset) % 0x10000] as int] == s.reg(sr.0))
            &&& (parse_spec(w) matches Ok(Operation::OpBr { n, z, p, pc_offset }) ==> (br_taken(
                s.reg(R_COND),
                n,
                z,
                p,
            ) ==> s2.reg(R_PC) == (a + 1 + pc_offset) % 0x10000))
            &&& (parse_spec(w) matches Ok(Operation::OpJsr { pc_offset }) ==> s2.reg(R_PC) == (a
                + 1 + pc_offset) % 0x10000)
        }),
{
    let a = s.reg(R_PC);
    let w = s.mem_at(a);
    lemma_parse_wf(w);
    match parse_spec(w) {
        Ok(Operation::OpLd { dr, pc_offset }) => lemma_wadd_wadd_mod(a, 1, pc_offset),
        Ok(Operation::OpLea { dr, pc_offset }) => lemma_wadd_wadd_mod(a, 1, pc_offset),
        Ok(Operation::OpSt { sr, pc_offset }) => lemma_wadd_wadd_mod(a, 1, pc_offset),
        Ok(Operation::OpSti { sr, pc_offset }) => lemma_wadd_wadd_mod(a, 1, pc_offset),
        Ok(Operation::OpBr { n, z, p, pc_offset }) => lemma_wadd_wadd_mod(a, 1, pc_offset),
        Ok(Operation::OpJsr { pc_offset }) => lemma_wadd_wadd_mod(a, 1, pc_offset),
        _ => {},
    }
}

/// JSR/JSRR linkage: register 7 afterwards holds the address of the
/// word following the fetched instruction - the return address -
/// whatever the jump target was.
pub proof fn lemma_jsr_linkage(s: MachineState)
    requires
        s.wf(),
    ensures
        ({
            let a = s.reg(R_PC);
            let w = s.mem_at(a);
            let s2 = tick_spec(s).0;
            &&& (parse_spec(w) matches Ok(Operation::OpJsr { pc_offset }) ==> s2.reg(7) == (a + 1)
                % 0x10000)
            &&& (parse_spec(w) matches Ok(Operation::OpJsrr { base_r }) ==> s2.reg(7) == (a + 1)
                % 0x10000)
        }),
{
    lemma_wadd_mod(s.reg(R_PC), 1);
}

/// LDI double indirection: with the instruction at address A and
/// offset k, the pointer word is read from (A+1+k) mod 65536 and the
/// loaded value from the address that pointer word holds.
pub proof fn lemma_ldi_double_indirection(s: MachineState)
    requires
        s.wf(),
    ensures
        ({
            let a = s.reg(R_PC);
            let w = s.mem_at(a);
            let s2 = tick_spec(s).0;
            parse_spec(w) matches Ok(Operation::OpLdi { dr, pc_offset }) ==> ({
                let ptr = s.mem[(a + 1 + pc_offset) % 0x10000];
                s2.reg(dr.0) == s.mem[ptr as int]
            })
        }),
{
    let a = s.reg(R_PC);
    let w = s.mem_at(a);
    lemma_parse_wf(w);
    match parse_spec(w) {
        Ok(Operation::OpLdi { dr, pc_offset }) => lemma_wadd_wadd_mod(a, 1, pc_offset),
        _ => {},
    }
}

/// A word whose top 4 bits name no opcode yields a decode error, and
/// the failed step mutates nothing: every register, including the
/// program counter, and all of memory are left as they were.
pub proof fn lemma_unknown_opcode(s: MachineState)
    requires
        s.wf(),
    ensures
        s.mem_at(s.reg(R_PC)) >> 12 == 13 ==> (parse_spec(s.mem_at(s.reg(R_PC))) matches Err(_)),
        parse_spec(s.mem_at(s.reg(R_PC))) matches Err(e) ==> tick_spec(s) == (
            s,
            Err::<bool, TickError>(TickError::Parse(e)),
        ),
{
}

} // verus!
