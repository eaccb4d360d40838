use lc3_vm::ops::Argument;
use lc3_vm::ops::Operation;
use lc3_vm::ops::Register;
use lc3_vm::ops_parse::ParseError;

fn round_trip(op: Operation) {
    let w = op.encode();
    assert_eq!(Operation::parse(w), Ok(op));
}

#[test]
fn round_trip_add_and() {
    for dr in 0..8u16 {
        round_trip(Operation::OpAdd {
            dr: Register(dr),
            sr1: Register(7 - dr),
            arg: Argument::Register(Register(2)),
        });
    }
    // immediates cover the full sign-extended 5-bit range
    for raw in 0..32u16 {
        let imm = if raw & 0x10 == 0 { raw } else { raw | 0xFFE0 };
        round_trip(Operation::OpAdd {
            dr: Register(1),
            sr1: Register(2),
            arg: Argument::Immediate(imm),
        });
        round_trip(Operation::OpAnd {
            dr: Register(3),
            sr1: Register(4),
            arg: Argument::Immediate(imm),
        });
    }
    round_trip(Operation::OpAnd {
        dr: Register(0),
        sr1: Register(1),
        arg: Argument::Register(Register(7)),
    });
}

#[test]
fn round_trip_branches_and_jumps() {
    for bits in 0..8u16 {
        round_trip(Operation::OpBr {
            n: bits & 4 != 0,
            z: bits & 2 != 0,
            p: bits & 1 != 0,
            pc_offset: 0x00FF,
        });
    }
    // 9-bit offsets: most positive, -1, most negative
    round_trip(Operation::OpBr { n: true, z: false, p: false, pc_offset: 0x00FF });
    round_trip(Operation::OpBr { n: true, z: true, p: true, pc_offset: 0xFFFF });
    round_trip(Operation::OpBr { n: false, z: true, p: false, pc_offset: 0xFF00 });
    round_trip(Operation::OpJmp { base_r: Register(5) });
    round_trip(Operation::OpJsr { pc_offset: 0x03FF });
    round_trip(Operation::OpJsr { pc_offset: 0xFC00 });
    round_trip(Operation::OpJsrr { base_r: Register(7) });
}

#[test]
fn round_trip_loads_and_stores() {
    round_trip(Operation::OpLd { dr: Register(0), pc_offset: 0x00FE });
    round_trip(Operation::OpLd { dr: Register(7), pc_offset: 0xFF00 });
    round_trip(Operation::OpLdi { dr: Register(2), pc_offset: 0xFFFF });
    round_trip(Operation::OpLdr { dr: Register(3), base_r: Register(4), offset: 0x001F });
    round_trip(Operation::OpLdr { dr: Register(3), base_r: Register(4), offset: 0xFFE0 });
    round_trip(Operation::OpLea { dr: Register(6), pc_offset: 0x0001 });
    round_trip(Operation::OpSt { sr: Register(1), pc_offset: 0xFFFE });
    round_trip(Operation::OpSti { sr: Register(5), pc_offset: 0x00F7 });
    round_trip(Operation::OpStr { sr: Register(6), base_r: Register(0), offset: 0xFFFF });
}

#[test]
fn round_trip_rest() {
    round_trip(Operation::OpNot { dr: Register(0), sr: Register(7) });
    round_trip(Operation::OpRti);
    for v in [0x20u16, 0x21, 0x22, 0x25, 0x00, 0xFF] {
        round_trip(Operation::OpTrap { trap_vector: v });
    }
}

#[test]
fn parse_concrete_words() {
    // ADD R0, R1, R2: 0001 000 001 0 00 010
    assert_eq!(
        Operation::parse(0x1042),
        Ok(Operation::OpAdd {
            dr: Register(0),
            sr1: Register(1),
            arg: Argument::Register(Register(2)),
        })
    );
    // ADD R0, R1, #-1: 0001 000 001 1 11111
    assert_eq!(
        Operation::parse(0x107F),
        Ok(Operation::OpAdd {
            dr: Register(0),
            sr1: Register(1),
            arg: Argument::Immediate(0xFFFF),
        })
    );
    // TRAP 0x25
    assert_eq!(Operation::parse(0xF025), Ok(Operation::OpTrap { trap_vector: 0x25 }));
    // LD R0, #-1: 0010 000 111111111
    assert_eq!(Operation::parse(0x21FF), Ok(Operation::OpLd { dr: Register(0), pc_offset: 0xFFFF }));
    // JSR #16: 0100 1 00000010000
    assert_eq!(Operation::parse(0x4810), Ok(Operation::OpJsr { pc_offset: 0x0010 }));
    // JSRR R7: 0100 0 00 111 000000
    assert_eq!(Operation::parse(0x41C0), Ok(Operation::OpJsrr { base_r: Register(7) }));
    // RTI
    assert_eq!(Operation::parse(0x8000), Ok(Operation::OpRti));
}

#[test]
fn parse_unknown_opcode() {
    // opcode 1101 names no instruction
    assert_eq!(Operation::parse(0xD000), Err(ParseError::UnknownOpcode(0xD000)));
    assert_eq!(Operation::parse(0xD123), Err(ParseError::UnknownOpcode(0xD123)));
    assert_eq!(Operation::parse(0xDFFF), Err(ParseError::UnknownOpcode(0xDFFF)));
}
