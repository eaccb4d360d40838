use lc3_vm::ops::Register;
use lc3_vm::ops_parse::ParseError;
use lc3_vm::vm::COND_N;
use lc3_vm::vm::COND_P;
use lc3_vm::vm::COND_Z;
use lc3_vm::vm::IoError;
use lc3_vm::vm::R_COND;
use lc3_vm::vm::R_PC;
use lc3_vm::vm::R_PC_INIT;
use lc3_vm::vm::Vm;
use lc3_vm::vm_spec::TickError;
use lc3_vm::vm_spec::Unsupported;
use lc3_vm::vm_spec::VmSpec;
use lc3_vm::vm_spec::run;
use lc3_vm::vm_spec::set_cond_reg;

fn fresh() -> Vm {
    let mut vm = Vm::new();
    vm.init();
    vm
}

#[test]
fn init_sets_pc_and_flags() {
    let vm = fresh();
    assert_eq!(vm.read_reg(Register(R_PC)), R_PC_INIT);
    assert_eq!(vm.read_reg(Register(R_COND)), COND_Z);
}

#[test]
fn halt_scenario() {
    // ADD R0, R1, R2 at the reset address, with R1=5 and R2=7
    let mut vm = fresh();
    vm.write_mem(R_PC_INIT, 0x1042);
    vm.write_reg(Register(1), 5);
    vm.write_reg(Register(2), 7);
    assert_eq!(vm.tick(), Ok(true));
    assert_eq!(vm.read_reg(Register(0)), 12);
    assert_eq!(vm.read_reg(Register(R_COND)), COND_P);
    assert_eq!(vm.read_reg(Register(R_PC)), R_PC_INIT + 1);
    // TRAP 0x25 halts on the next step
    vm.write_mem(R_PC_INIT + 1, 0xF025);
    assert_eq!(vm.tick(), Ok(false));
}

#[test]
fn halt_scenario_through_driver() {
    let mut vm = fresh();
    vm.write_mem(R_PC_INIT, 0x1042);
    vm.write_reg(Register(1), 5);
    vm.write_reg(Register(2), 7);
    vm.write_mem(R_PC_INIT + 1, 0xF025);
    assert_eq!(run(&mut vm, 100), Ok(true));
    assert_eq!(vm.read_reg(Register(0)), 12);
}

#[test]
fn driver_budget_exhausted() {
    // BRnzp #-1 branches to itself forever
    let mut vm = fresh();
    vm.write_mem(R_PC_INIT, 0x0FFF);
    assert_eq!(run(&mut vm, 10), Ok(false));
    assert_eq!(vm.read_reg(Register(R_PC)), R_PC_INIT);
    let mut vm2 = fresh();
    vm2.write_mem(R_PC_INIT, 0xF025);
    assert_eq!(run(&mut vm2, 0), Ok(false));
}

#[test]
fn driver_surfaces_errors() {
    let mut vm = fresh();
    vm.write_mem(R_PC_INIT, 0xD000);
    assert_eq!(run(&mut vm, 100), Err(TickError::Parse(ParseError::UnknownOpcode(0xD000))));
}

#[test]
fn add_wraps_modulo_65536() {
    let mut vm = fresh();
    vm.write_mem(R_PC_INIT, 0x1042);
    vm.write_reg(Register(1), 0xFFFF);
    vm.write_reg(Register(2), 1);
    assert_eq!(vm.tick(), Ok(true));
    assert_eq!(vm.read_reg(Register(0)), 0);
    assert_eq!(vm.read_reg(Register(R_COND)), COND_Z);
}

#[test]
fn pc_wraps_at_end_of_memory() {
    let mut vm = fresh();
    vm.write_reg(Register(R_PC), 0xFFFF);
    vm.write_mem(0xFFFF, 0x1042);
    assert_eq!(vm.tick(), Ok(true));
    assert_eq!(vm.read_reg(Register(R_PC)), 0x0000);
}

#[test]
fn add_negative_sets_n() {
    // ADD R0, R1, #-1 with R1=0 writes 0xFFFF
    let mut vm = fresh();
    vm.write_mem(R_PC_INIT, 0x107F);
    vm.write_reg(Register(1), 0);
    assert_eq!(vm.tick(), Ok(true));
    assert_eq!(vm.read_reg(Register(0)), 0xFFFF);
    assert_eq!(vm.read_reg(Register(R_COND)), COND_N);
}

#[test]
fn and_masks_and_sets_flags() {
    // AND R0, R1, R2: 0101 000 001 0 00 010
    let mut vm = fresh();
    vm.write_mem(R_PC_INIT, 0x5042);
    vm.write_reg(Register(1), 0xF0F0);
    vm.write_reg(Register(2), 0x0FF0);
    assert_eq!(vm.tick(), Ok(true));
    assert_eq!(vm.read_reg(Register(0)), 0x00F0);
    assert_eq!(vm.read_reg(Register(R_COND)), COND_P);
    // AND R0, R1, #0 zeroes the register: 0101 000 001 1 00000
    vm.write_mem(R_PC_INIT + 1, 0x5060);
    assert_eq!(vm.tick(), Ok(true));
    assert_eq!(vm.read_reg(Register(0)), 0);
    assert_eq!(vm.read_reg(Register(R_COND)), COND_Z);
}

#[test]
fn not_complements() {
    // NOT R0, R1: 1001 000 001 111111
    let mut vm = fresh();
    vm.write_mem(R_PC_INIT, 0x907F);
    vm.write_reg(Register(1), 0x00FF);
    assert_eq!(vm.tick(), Ok(true));
    assert_eq!(vm.read_reg(Register(0)), 0xFF00);
    assert_eq!(vm.read_reg(Register(R_COND)), COND_N);
}

#[test]
fn fetch_then_increment_effective_address() {
    // LD R0, #-1 at A reads from (A+1-1) = A: the instruction word itself
    let mut vm = fresh();
    vm.write_mem(R_PC_INIT, 0x21FF);
    assert_eq!(vm.tick(), Ok(true));
    assert_eq!(vm.read_reg(Register(0)), 0x21FF);
    assert_eq!(vm.read_reg(Register(R_COND)), COND_P);
}

#[test]
fn ld_loads_pc_relative() {
    // LD R0, #2: 0010 000 000000010
    let mut vm = fresh();
    vm.write_mem(R_PC_INIT, 0x2002);
    vm.write_mem(R_PC_INIT + 3, 0x1234);
    assert_eq!(vm.tick(), Ok(true));
    assert_eq!(vm.read_reg(Register(0)), 0x1234);
}

#[test]
fn ldi_double_indirection() {
    // LDI R0, #2: 1010 000 000000010; pointer at 0x3003 names 0x5000
    let mut vm = fresh();
    vm.write_mem(R_PC_INIT, 0xA002);
    vm.write_mem(R_PC_INIT + 3, 0x5000);
    vm.write_mem(0x5000, 1234);
    assert_eq!(vm.tick(), Ok(true));
    assert_eq!(vm.read_reg(Register(0)), 1234);
    assert_eq!(vm.read_reg(Register(R_COND)), COND_P);
}

#[test]
fn ldr_base_plus_offset() {
    // LDR R0, R3, #2: 0110 000 011 000010
    let mut vm = fresh();
    vm.write_mem(R_PC_INIT, 0x60C2);
    vm.write_reg(Register(3), 0x5000);
    vm.write_mem(0x5002, 77);
    assert_eq!(vm.tick(), Ok(true));
    assert_eq!(vm.read_reg(Register(0)), 77);
}

#[test]
fn lea_loads_address_not_value() {
    // LEA R0, #5: 1110 000 000000101
    let mut vm = fresh();
    vm.write_mem(R_PC_INIT, 0xE005);
    vm.write_mem(R_PC_INIT + 6, 0xBEEF);
    assert_eq!(vm.tick(), Ok(true));
    assert_eq!(vm.read_reg(Register(0)), R_PC_INIT + 6);
    assert_eq!(vm.read_reg(Register(R_COND)), COND_P);
}

#[test]
fn st_sti_str_store() {
    // ST R2, #1: 0011 010 000000001
    let mut vm = fresh();
    vm.write_reg(Register(2), 0xBEEF);
    vm.write_mem(R_PC_INIT, 0x3401);
    assert_eq!(vm.tick(), Ok(true));
    assert_eq!(vm.read_mem(R_PC_INIT + 2), 0xBEEF);
    // STI R2, #2: 1011 010 000000010; pointer at 0x3004 names 0x5000
    vm.write_mem(R_PC_INIT + 1, 0xB402);
    vm.write_mem(R_PC_INIT + 4, 0x5000);
    assert_eq!(vm.tick(), Ok(true));
    assert_eq!(vm.read_mem(0x5000), 0xBEEF);
    // STR R2, R3, #1: 0111 010 011 000001
    vm.write_mem(R_PC_INIT + 2, 0x74C1);
    vm.write_reg(Register(3), 0x6000);
    assert_eq!(vm.tick(), Ok(true));
    assert_eq!(vm.read_mem(0x6001), 0xBEEF);
    // stores leave the flags alone
    assert_eq!(vm.read_reg(Register(R_COND)), COND_Z);
}

#[test]
fn br_taken_and_not_taken() {
    // flags start at Zero; BRz #4: 0000 010 000000100
    let mut vm = fresh();
    vm.write_mem(R_PC_INIT, 0x0404);
    assert_eq!(vm.tick(), Ok(true));
    assert_eq!(vm.read_reg(Register(R_PC)), R_PC_INIT + 5);
    // BRp not taken under Zero flags
    let mut vm2 = fresh();
    vm2.write_mem(R_PC_INIT, 0x0204);
    assert_eq!(vm2.tick(), Ok(true));
    assert_eq!(vm2.read_reg(Register(R_PC)), R_PC_INIT + 1);
}

#[test]
fn jmp_sets_pc_from_base() {
    // JMP R2: 1100 000 010 000000
    let mut vm = fresh();
    vm.write_reg(Register(2), 0x1234);
    vm.write_mem(R_PC_INIT, 0xC080);
    assert_eq!(vm.tick(), Ok(true));
    assert_eq!(vm.read_reg(Register(R_PC)), 0x1234);
}

#[test]
fn jsr_linkage() {
    // JSR #16
    let mut vm = fresh();
    vm.write_mem(R_PC_INIT, 0x4810);
    assert_eq!(vm.tick(), Ok(true));
    assert_eq!(vm.read_reg(Register(7)), R_PC_INIT + 1);
    assert_eq!(vm.read_reg(Register(R_PC)), R_PC_INIT + 0x11);
    // JSRR R3
    let mut vm2 = fresh();
    vm2.write_reg(Register(3), 0x4000);
    vm2.write_mem(R_PC_INIT, 0x40C0);
    assert_eq!(vm2.tick(), Ok(true));
    assert_eq!(vm2.read_reg(Register(7)), R_PC_INIT + 1);
    assert_eq!(vm2.read_reg(Register(R_PC)), 0x4000);
}

#[test]
fn jsrr_through_r7_jumps_to_return_address() {
    // JSRR R7 reads the base register after the linkage write
    let mut vm = fresh();
    vm.write_reg(Register(7), 0x4000);
    vm.write_mem(R_PC_INIT, 0x41C0);
    assert_eq!(vm.tick(), Ok(true));
    assert_eq!(vm.read_reg(Register(7)), R_PC_INIT + 1);
    assert_eq!(vm.read_reg(Register(R_PC)), R_PC_INIT + 1);
}

#[test]
fn unknown_opcode_mutates_nothing() {
    let mut vm = fresh();
    vm.write_mem(R_PC_INIT, 0xD123);
    vm.write_reg(Register(0), 42);
    assert_eq!(vm.tick(), Err(TickError::Parse(ParseError::UnknownOpcode(0xD123))));
    assert_eq!(vm.read_reg(Register(R_PC)), R_PC_INIT);
    assert_eq!(vm.read_reg(Register(0)), 42);
    assert_eq!(vm.read_reg(Register(R_COND)), COND_Z);
}

#[test]
fn rti_is_unsupported() {
    let mut vm = fresh();
    vm.write_mem(R_PC_INIT, 0x8000);
    assert_eq!(vm.tick(), Err(TickError::Unsupported(Unsupported::Rti)));
    // the step's fetch already advanced the program counter
    assert_eq!(vm.read_reg(Register(R_PC)), R_PC_INIT + 1);
}

#[test]
fn unknown_trap_vector_is_unsupported() {
    // TRAP 0xFF
    let mut vm = fresh();
    vm.write_mem(R_PC_INIT, 0xF0FF);
    assert_eq!(vm.tick(), Err(TickError::Unsupported(Unsupported::TrapVector(0xFF))));
    // linkage had already happened when dispatch refused the vector
    assert_eq!(vm.read_reg(Register(7)), R_PC_INIT + 1);
}

#[test]
fn getc_reads_queued_bytes_in_order() {
    let mut vm = fresh();
    vm.push_input(b'A');
    vm.push_input(b'B');
    vm.write_mem(R_PC_INIT, 0xF020);
    vm.write_mem(R_PC_INIT + 1, 0xF020);
    assert_eq!(vm.tick(), Ok(true));
    assert_eq!(vm.read_reg(Register(0)), 65);
    assert_eq!(vm.tick(), Ok(true));
    assert_eq!(vm.read_reg(Register(0)), 66);
}

#[test]
fn getc_without_input_is_an_io_error() {
    let mut vm = fresh();
    vm.write_mem(R_PC_INIT, 0xF020);
    assert_eq!(vm.tick(), Err(TickError::Io(IoError::InputExhausted)));
}

#[test]
fn putc_emits_low_byte() {
    let mut vm = fresh();
    vm.write_reg(Register(0), 0x1248);
    vm.write_mem(R_PC_INIT, 0xF021);
    assert_eq!(vm.tick(), Ok(true));
    assert_eq!(vm.output_bytes().as_slice(), &[0x48]);
}

#[test]
fn puts_boundary() {
    // character words "Hi", the terminator, and a word that must not
    // be read or emitted
    let mut vm = fresh();
    let base: u16 = 0x4000;
    for (i, w) in [72u16, 105, 0, 99].iter().enumerate() {
        vm.write_mem(base + i as u16, *w);
    }
    vm.write_reg(Register(0), base);
    vm.write_mem(R_PC_INIT, 0xF022);
    assert_eq!(vm.tick(), Ok(true));
    assert_eq!(vm.output_bytes().as_slice(), b"Hi");
    assert_eq!(vm.c_str(base).as_slice(), b"Hi");
}

#[test]
fn puts_stops_at_end_of_memory() {
    let mut vm = fresh();
    vm.write_mem(0xFFFF, 72);
    assert_eq!(vm.c_str(0xFFFF).as_slice(), &[72]);
    assert_eq!(vm.c_str(0x8000).as_slice(), b"");
}

#[test]
fn trap_halt_writes_linkage() {
    let mut vm = fresh();
    vm.write_mem(R_PC_INIT, 0xF025);
    assert_eq!(vm.tick(), Ok(false));
    assert_eq!(vm.read_reg(Register(7)), R_PC_INIT + 1);
}

#[test]
fn set_cond_reg_classifies_values() {
    let mut vm = fresh();
    vm.write_reg(Register(4), 0);
    set_cond_reg(&mut vm, Register(4));
    assert_eq!(vm.read_reg(Register(R_COND)), COND_Z);
    vm.write_reg(Register(4), 0x7FFF);
    set_cond_reg(&mut vm, Register(4));
    assert_eq!(vm.read_reg(Register(R_COND)), COND_P);
    vm.write_reg(Register(4), 0x8000);
    set_cond_reg(&mut vm, Register(4));
    assert_eq!(vm.read_reg(Register(R_COND)), COND_N);
}
