use std::cell::Cell;

use zinc64::cpu::{Cpu6510, Interrupt};
use zinc64::flags::Flag;
use zinc64::instruction::Instruction;
use zinc64::io::{IoPort, IrqLine};
use zinc64::memory::Ram;
use zinc64::operand::Operand;

fn setup_cpu() -> Cpu6510<Ram> {
    let cpu_io_port = IoPort::new(0x00, 0xff);
    let cpu_irq = IrqLine::new();
    let cpu_nmi = IrqLine::new();
    let mem = Ram::new();
    Cpu6510::new(cpu_io_port, cpu_irq, cpu_nmi, mem)
}

#[test]
fn adc_80_16() {
    let tick_fn = || {};
    let mut cpu = setup_cpu();
    cpu.set_a(80);
    cpu.set_flag(Flag::Carry, false);
    cpu.execute(&Instruction::ADC(Operand::Immediate(16), 1), &tick_fn);
    assert_eq!(96, cpu.get_a());
    assert_eq!(false, cpu.test_flag(Flag::Carry));
    assert_eq!(false, cpu.test_flag(Flag::Negative));
    assert_eq!(false, cpu.test_flag(Flag::Overflow));
}

#[test]
fn inc_with_overflow() {
    let tick_fn = || {};
    let mut cpu = setup_cpu();
    cpu.set_a(0xff);
    cpu.execute(&Instruction::INC(Operand::Accumulator, 1), &tick_fn);
    assert_eq!(0x00, cpu.get_a());
    assert_eq!(false, cpu.test_flag(Flag::Negative));
    assert_eq!(true, cpu.test_flag(Flag::Zero));
}

#[test]
fn interrupt_vectors() {
    assert_eq!(0xfffe, Interrupt::Break.vector());
    assert_eq!(0xfffe, Interrupt::Irq.vector());
    assert_eq!(0xfffa, Interrupt::Nmi.vector());
    assert_eq!(0xfffc, Interrupt::Reset.vector());
}

fn load_program(cpu: &mut Cpu6510<Ram>, address: u16, bytes: &[u8]) {
    for (i, b) in bytes.iter().enumerate() {
        cpu.write_debug(address.wrapping_add(i as u16), *b);
    }
}

fn peek(cpu: &mut Cpu6510<Ram>, address: u16) -> u8 {
    cpu.read(address, &|| {})
}

fn run(cpu: &mut Cpu6510<Ram>, instr: Instruction) {
    cpu.execute(&instr, &|| {});
}

#[test]
fn new_cpu_has_cleared_registers() {
    let cpu = setup_cpu();
    assert_eq!(0, cpu.get_a());
    assert_eq!(0, cpu.get_x());
    assert_eq!(0, cpu.get_y());
    assert_eq!(0, cpu.get_pc());
    assert_eq!("00 00 00 00 nvbdizc", cpu.status());
}

#[test]
fn io_port_reads_back_writes() {
    let mut cpu = setup_cpu();
    assert_eq!(0x00, peek(&mut cpu, 0x0000));
    assert_eq!(0xff, peek(&mut cpu, 0x0001));
    cpu.write(0x0000, 0x2f, &|| {});
    cpu.write(0x0001, 0x37, &|| {});
    assert_eq!(0x2f, peek(&mut cpu, 0x0000));
    assert_eq!(0x37, peek(&mut cpu, 0x0001));
}

#[test]
fn read_word_is_little_endian() {
    let mut cpu = setup_cpu();
    load_program(&mut cpu, 0x1234, &[0xcd, 0xab]);
    assert_eq!(0xabcd, cpu.read_word(0x1234, &|| {}));
}

#[test]
fn each_bus_access_ticks_once() {
    let ticks = Cell::new(0u32);
    let tick_fn = || ticks.set(ticks.get() + 1);
    let mut cpu = setup_cpu();
    cpu.read(0x2000, &tick_fn);
    cpu.write(0x2000, 1, &tick_fn);
    assert_eq!(2, ticks.get());
    cpu.read_word(0x2000, &tick_fn);
    assert_eq!(4, ticks.get());
}

#[test]
fn push_then_pop_returns_value() {
    let mut cpu = setup_cpu();
    cpu.execute(&Instruction::LDX(Operand::Immediate(0xff), 2), &|| {});
    run(&mut cpu, Instruction::TXS(2));
    cpu.push(0x42, &|| {});
    assert_eq!(0x42, peek(&mut cpu, 0x01ff));
    assert_eq!(0x42, cpu.pop(&|| {}));
}

#[test]
fn pha_then_pla_restores_accumulator() {
    let mut cpu = setup_cpu();
    cpu.set_a(0x80);
    run(&mut cpu, Instruction::PHA(3));
    run(&mut cpu, Instruction::LDA(Operand::Immediate(0x00), 2));
    assert!(cpu.test_flag(Flag::Zero));
    run(&mut cpu, Instruction::PLA(4));
    assert_eq!(0x80, cpu.get_a());
    assert!(cpu.test_flag(Flag::Negative));
    assert!(!cpu.test_flag(Flag::Zero));
}

#[test]
fn php_then_plp_sets_break_and_reserved() {
    let mut cpu = setup_cpu();
    cpu.set_flag(Flag::Carry, true);
    run(&mut cpu, Instruction::PHP(3));
    run(&mut cpu, Instruction::CLC(2));
    run(&mut cpu, Instruction::PLP(4));
    assert!(cpu.test_flag(Flag::Carry));
    assert!(cpu.test_flag(Flag::Break));
    assert!(cpu.test_flag(Flag::Reserved));
}

#[test]
fn jsr_then_rts_returns_after_call() {
    let mut cpu = setup_cpu();
    run(&mut cpu, Instruction::LDX(Operand::Immediate(0xff), 2));
    run(&mut cpu, Instruction::TXS(2));
    cpu.set_pc(0x0603);
    run(&mut cpu, Instruction::JSR(Operand::Absolute(0x1000), 6));
    assert_eq!(0x1000, cpu.get_pc());
    assert_eq!(0x06, peek(&mut cpu, 0x01ff));
    assert_eq!(0x02, peek(&mut cpu, 0x01fe));
    run(&mut cpu, Instruction::RTS(6));
    assert_eq!(0x0603, cpu.get_pc());
}

#[test]
fn irq_then_rti_resumes() {
    let mut cpu = setup_cpu();
    load_program(&mut cpu, 0xfffe, &[0x00, 0x40]);
    cpu.set_pc(0x1234);
    cpu.set_flag(Flag::Carry, true);
    assert_eq!(7, cpu.interrupt(Interrupt::Irq, &|| {}));
    assert_eq!(0x4000, cpu.get_pc());
    assert!(cpu.test_flag(Flag::IntDisable));
    run(&mut cpu, Instruction::RTI(6));
    assert_eq!(0x1234, cpu.get_pc());
    assert!(cpu.test_flag(Flag::Carry));
    assert!(!cpu.test_flag(Flag::IntDisable));
    assert!(!cpu.test_flag(Flag::Break));
}

#[test]
fn brk_then_rti_skips_padding_byte() {
    let mut cpu = setup_cpu();
    load_program(&mut cpu, 0xfffe, &[0x00, 0x50]);
    cpu.set_pc(0x2001);
    run(&mut cpu, Instruction::BRK(7));
    assert_eq!(0x5000, cpu.get_pc());
    run(&mut cpu, Instruction::RTI(6));
    assert_eq!(0x2002, cpu.get_pc());
    assert!(cpu.test_flag(Flag::Break));
    assert!(cpu.test_flag(Flag::Reserved));
}

#[test]
fn sta_then_lda_reads_back() {
    let mut cpu = setup_cpu();
    cpu.set_a(0x5a);
    cpu.set_x(0x03);
    run(&mut cpu, Instruction::STA(Operand::AbsoluteX(0x3000), 5));
    assert_eq!(0x5a, peek(&mut cpu, 0x3003));
    cpu.set_a(0);
    run(&mut cpu, Instruction::LDA(Operand::AbsoluteX(0x3000), 4));
    assert_eq!(0x5a, cpu.get_a());
}

#[test]
fn indexed_zero_page_wraps_within_page_zero() {
    let mut cpu = setup_cpu();
    cpu.set_x(0x10);
    load_program(&mut cpu, 0x0008, &[0x77]);
    run(&mut cpu, Instruction::LDA(Operand::ZeroPageX(0xf8), 4));
    assert_eq!(0x77, cpu.get_a());
}

#[test]
fn indirect_indexed_addressing() {
    let mut cpu = setup_cpu();
    load_program(&mut cpu, 0x0040, &[0x00, 0x30]);
    load_program(&mut cpu, 0x3005, &[0x99]);
    load_program(&mut cpu, 0x3010, &[0x88]);
    cpu.set_y(0x05);
    run(&mut cpu, Instruction::LDA(Operand::IndirectY(0x40), 5));
    assert_eq!(0x99, cpu.get_a());
    cpu.set_x(0x02);
    load_program(&mut cpu, 0x0042, &[0x10, 0x30]);
    run(&mut cpu, Instruction::LDA(Operand::IndirectX(0x40), 6));
    assert_eq!(0x88, cpu.get_a());
}

#[test]
fn indirect_jump_wraps_within_page() {
    let mut cpu = setup_cpu();
    load_program(&mut cpu, 0x30ff, &[0x80]);
    load_program(&mut cpu, 0x3000, &[0x50]);
    load_program(&mut cpu, 0x3100, &[0x40]);
    run(&mut cpu, Instruction::JMP(Operand::Indirect(0x30ff), 5));
    assert_eq!(0x5080, cpu.get_pc());
}

#[test]
fn adc_binary_overflow_and_carry() {
    let mut cpu = setup_cpu();
    cpu.set_a(0x50);
    run(&mut cpu, Instruction::ADC(Operand::Immediate(0x50), 2));
    assert_eq!(0xa0, cpu.get_a());
    assert!(cpu.test_flag(Flag::Overflow));
    assert!(cpu.test_flag(Flag::Negative));
    assert!(!cpu.test_flag(Flag::Carry));
    cpu.set_a(0xff);
    cpu.set_flag(Flag::Carry, true);
    run(&mut cpu, Instruction::ADC(Operand::Immediate(0x01), 2));
    assert_eq!(0x01, cpu.get_a());
    assert!(cpu.test_flag(Flag::Carry));
    assert!(!cpu.test_flag(Flag::Overflow));
}

#[test]
fn adc_decimal_adds_bcd() {
    let mut cpu = setup_cpu();
    run(&mut cpu, Instruction::SED(2));
    cpu.set_a(0x19);
    run(&mut cpu, Instruction::ADC(Operand::Immediate(0x28), 2));
    assert_eq!(0x47, cpu.get_a());
    assert!(!cpu.test_flag(Flag::Carry));
    cpu.set_a(0x99);
    run(&mut cpu, Instruction::ADC(Operand::Immediate(0x01), 2));
    assert_eq!(0x00, cpu.get_a());
    assert!(cpu.test_flag(Flag::Carry));
}

#[test]
fn sbc_binary_subtracts_with_borrow() {
    let mut cpu = setup_cpu();
    cpu.set_a(0x50);
    cpu.set_flag(Flag::Carry, true);
    run(&mut cpu, Instruction::SBC(Operand::Immediate(0x10), 2));
    assert_eq!(0x40, cpu.get_a());
    assert!(cpu.test_flag(Flag::Carry));
    cpu.set_flag(Flag::Carry, false);
    run(&mut cpu, Instruction::SBC(Operand::Immediate(0x40), 2));
    assert_eq!(0xff, cpu.get_a());
    assert!(!cpu.test_flag(Flag::Carry));
    cpu.set_a(0x50);
    cpu.set_flag(Flag::Carry, true);
    run(&mut cpu, Instruction::SBC(Operand::Immediate(0xb0), 2));
    assert_eq!(0xa0, cpu.get_a());
    assert!(cpu.test_flag(Flag::Overflow));
}

#[test]
fn sbc_decimal_subtracts_bcd() {
    let mut cpu = setup_cpu();
    run(&mut cpu, Instruction::SED(2));
    run(&mut cpu, Instruction::SEC(2));
    cpu.set_a(0x42);
    run(&mut cpu, Instruction::SBC(Operand::Immediate(0x13), 2));
    assert_eq!(0x29, cpu.get_a());
    assert!(cpu.test_flag(Flag::Carry));
    cpu.set_a(0x00);
    run(&mut cpu, Instruction::SBC(Operand::Immediate(0x01), 2));
    assert_eq!(0x99, cpu.get_a());
    assert!(!cpu.test_flag(Flag::Carry));
}

#[test]
fn compare_sets_carry_zero_negative() {
    let mut cpu = setup_cpu();
    cpu.set_a(0x40);
    run(&mut cpu, Instruction::CMP(Operand::Immediate(0x40), 2));
    assert!(cpu.test_flag(Flag::Carry) && cpu.test_flag(Flag::Zero));
    run(&mut cpu, Instruction::CMP(Operand::Immediate(0x41), 2));
    assert!(!cpu.test_flag(Flag::Carry) && !cpu.test_flag(Flag::Zero) && cpu.test_flag(Flag::Negative));
    cpu.set_x(0x10);
    run(&mut cpu, Instruction::CPX(Operand::Immediate(0x01), 2));
    assert!(cpu.test_flag(Flag::Carry) && !cpu.test_flag(Flag::Negative));
    cpu.set_y(0x00);
    run(&mut cpu, Instruction::CPY(Operand::Immediate(0x01), 2));
    assert!(!cpu.test_flag(Flag::Carry) && cpu.test_flag(Flag::Negative));
}

#[test]
fn shifts_and_rotates() {
    let mut cpu = setup_cpu();
    cpu.set_a(0x81);
    run(&mut cpu, Instruction::ASL(Operand::Accumulator, 2));
    assert_eq!(0x02, cpu.get_a());
    assert!(cpu.test_flag(Flag::Carry));
    run(&mut cpu, Instruction::ROL(Operand::Accumulator, 2));
    assert_eq!(0x05, cpu.get_a());
    assert!(!cpu.test_flag(Flag::Carry));
    run(&mut cpu, Instruction::LSR(Operand::Accumulator, 2));
    assert_eq!(0x02, cpu.get_a());
    assert!(cpu.test_flag(Flag::Carry));
    run(&mut cpu, Instruction::ROR(Operand::Accumulator, 2));
    assert_eq!(0x81, cpu.get_a());
    assert!(!cpu.test_flag(Flag::Carry));
    load_program(&mut cpu, 0x0010, &[0x01]);
    run(&mut cpu, Instruction::LSR(Operand::ZeroPage(0x10), 5));
    assert_eq!(0x00, peek(&mut cpu, 0x0010));
    assert!(cpu.test_flag(Flag::Zero) && cpu.test_flag(Flag::Carry));
}

#[test]
fn rol_then_ror_restores() {
    let mut cpu = setup_cpu();
    cpu.set_a(0xc3);
    cpu.set_flag(Flag::Carry, true);
    run(&mut cpu, Instruction::ROL(Operand::Accumulator, 2));
    run(&mut cpu, Instruction::ROR(Operand::Accumulator, 2));
    assert_eq!(0xc3, cpu.get_a());
    assert!(cpu.test_flag(Flag::Carry));
}

#[test]
fn increments_and_decrements_wrap() {
    let mut cpu = setup_cpu();
    run(&mut cpu, Instruction::DEX(2));
    assert_eq!(0xff, cpu.get_x());
    assert!(cpu.test_flag(Flag::Negative));
    run(&mut cpu, Instruction::INX(2));
    assert_eq!(0x00, cpu.get_x());
    assert!(cpu.test_flag(Flag::Zero));
    run(&mut cpu, Instruction::DEY(2));
    run(&mut cpu, Instruction::INY(2));
    assert_eq!(0x00, cpu.get_y());
    load_program(&mut cpu, 0x0020, &[0xff]);
    run(&mut cpu, Instruction::INC(Operand::ZeroPage(0x20), 5));
    assert_eq!(0x00, peek(&mut cpu, 0x0020));
    run(&mut cpu, Instruction::DEC(Operand::ZeroPage(0x20), 5));
    assert_eq!(0xff, peek(&mut cpu, 0x0020));
}

#[test]
fn logical_operations() {
    let mut cpu = setup_cpu();
    cpu.set_a(0xf0);
    run(&mut cpu, Instruction::AND(Operand::Immediate(0x3c), 2));
    assert_eq!(0x30, cpu.get_a());
    run(&mut cpu, Instruction::ORA(Operand::Immediate(0x0f), 2));
    assert_eq!(0x3f, cpu.get_a());
    run(&mut cpu, Instruction::EOR(Operand::Immediate(0xff), 2));
    assert_eq!(0xc0, cpu.get_a());
    run(&mut cpu, Instruction::EOR(Operand::Immediate(0xff), 2));
    assert_eq!(0x3f, cpu.get_a());
}

#[test]
fn bit_tests_memory() {
    let mut cpu = setup_cpu();
    load_program(&mut cpu, 0x0030, &[0xc0]);
    cpu.set_a(0x01);
    run(&mut cpu, Instruction::BIT(Operand::ZeroPage(0x30), 3));
    assert!(cpu.test_flag(Flag::Negative));
    assert!(cpu.test_flag(Flag::Overflow));
    assert!(cpu.test_flag(Flag::Zero));
    assert_eq!(0x01, cpu.get_a());
}

#[test]
fn transfers() {
    let mut cpu = setup_cpu();
    cpu.set_a(0x12);
    run(&mut cpu, Instruction::TAX(2));
    run(&mut cpu, Instruction::TAY(2));
    assert_eq!(0x12, cpu.get_x());
    assert_eq!(0x12, cpu.get_y());
    cpu.set_x(0x80);
    run(&mut cpu, Instruction::TXS(2));
    assert!(!cpu.test_flag(Flag::Negative));
    run(&mut cpu, Instruction::TSX(2));
    assert!(cpu.test_flag(Flag::Negative));
    run(&mut cpu, Instruction::TXA(2));
    assert_eq!(0x80, cpu.get_a());
    run(&mut cpu, Instruction::TYA(2));
    assert_eq!(0x12, cpu.get_a());
}

#[test]
fn branches() {
    let mut cpu = setup_cpu();
    cpu.set_pc(0x1010);
    run(&mut cpu, Instruction::BCC(Operand::Relative(-0x10), 2));
    assert_eq!(0x1000, cpu.get_pc());
    run(&mut cpu, Instruction::BCS(Operand::Relative(0x10), 2));
    assert_eq!(0x1000, cpu.get_pc());
    run(&mut cpu, Instruction::LDA(Operand::Immediate(0), 2));
    run(&mut cpu, Instruction::BEQ(Operand::Relative(0x7f), 2));
    assert_eq!(0x107f, cpu.get_pc());
    run(&mut cpu, Instruction::BNE(Operand::Relative(0x01), 2));
    assert_eq!(0x107f, cpu.get_pc());
    run(&mut cpu, Instruction::BPL(Operand::Relative(-0x80), 2));
    assert_eq!(0x0fff, cpu.get_pc());
}

#[test]
fn flag_instructions() {
    let mut cpu = setup_cpu();
    run(&mut cpu, Instruction::SEC(2));
    run(&mut cpu, Instruction::SED(2));
    run(&mut cpu, Instruction::SEI(2));
    assert!(cpu.test_flag(Flag::Carry) && cpu.test_flag(Flag::Decimal) && cpu.test_flag(Flag::IntDisable));
    assert_eq!("00 00 00 00 nvBDIzC", cpu.status());
    run(&mut cpu, Instruction::CLC(2));
    run(&mut cpu, Instruction::CLD(2));
    run(&mut cpu, Instruction::CLI(2));
    cpu.set_flag(Flag::Overflow, true);
    run(&mut cpu, Instruction::CLV(2));
    run(&mut cpu, Instruction::NOP(2));
    assert_eq!("00 00 00 00 nvbdizc", cpu.status());
}

#[test]
fn decode_documented_and_undocumented() {
    let mut cpu = setup_cpu();
    load_program(&mut cpu, 0x0200, &[0x42, 0x34, 0x12]);
    cpu.set_pc(0x0200);
    assert_eq!(Some(Instruction::LDA(Operand::Immediate(0x42), 2)), Instruction::decode(&mut cpu, 0xa9, &|| {}));
    assert_eq!(0x0201, cpu.get_pc());
    cpu.set_pc(0x0201);
    assert_eq!(Some(Instruction::JMP(Operand::Absolute(0x1234), 3)), Instruction::decode(&mut cpu, 0x4c, &|| {}));
    assert_eq!(0x0203, cpu.get_pc());
    assert_eq!(None, Instruction::decode(&mut cpu, 0x02, &|| {}));
    assert_eq!(0x0203, cpu.get_pc());
}

#[test]
fn reset_then_step_runs_a_program() {
    let mut cpu = setup_cpu();
    load_program(&mut cpu, 0xfffc, &[0x00, 0x10]);
    // LDA #$05; STA $20; INC $20; LDX $20; .byte $02
    load_program(&mut cpu, 0x1000, &[0xa9, 0x05, 0x85, 0x20, 0xe6, 0x20, 0xa6, 0x20, 0x02]);
    cpu.reset();
    assert_eq!(0x1000, cpu.get_pc());
    assert_eq!(0x2f, peek(&mut cpu, 0x0000));
    assert_eq!(0x1f, peek(&mut cpu, 0x0001));
    assert!(cpu.step(&|| {}));
    assert_eq!(0x05, cpu.get_a());
    assert!(cpu.step(&|| {}));
    assert!(cpu.step(&|| {}));
    assert!(cpu.step(&|| {}));
    assert_eq!(0x06, cpu.get_x());
    assert!(!cpu.step(&|| {}));
    assert_eq!(0x1009, cpu.get_pc());
}

#[test]
fn step_services_irq_unless_disabled() {
    let mut cpu = setup_cpu();
    load_program(&mut cpu, 0xfffe, &[0x00, 0x30]);
    load_program(&mut cpu, 0x3000, &[0xea]);
    load_program(&mut cpu, 0x1000, &[0xea]);
    cpu.set_pc(0x1000);
    cpu.set_flag(Flag::IntDisable, true);
    cpu.set_irq(0, true);
    assert!(cpu.step(&|| {}));
    assert_eq!(0x1001, cpu.get_pc());
    cpu.set_pc(0x1000);
    cpu.set_flag(Flag::IntDisable, false);
    assert!(cpu.step(&|| {}));
    assert_eq!(0x3001, cpu.get_pc());
    assert!(cpu.test_flag(Flag::IntDisable));
}

#[test]
fn step_services_nmi_and_releases_it() {
    let mut cpu = setup_cpu();
    load_program(&mut cpu, 0xfffa, &[0x00, 0x40]);
    load_program(&mut cpu, 0x4000, &[0xea, 0xea]);
    cpu.set_pc(0x1000);
    cpu.set_flag(Flag::IntDisable, true);
    cpu.set_nmi(3, true);
    assert!(cpu.step(&|| {}));
    assert_eq!(0x4001, cpu.get_pc());
    assert!(cpu.step(&|| {}));
    assert_eq!(0x4002, cpu.get_pc());
}

#[test]
fn brk_at_top_of_memory_is_not_run() {
    let mut cpu = setup_cpu();
    cpu.set_pc(0xfffe);
    assert!(!cpu.step(&|| {}));
    assert_eq!(0xffff, cpu.get_pc());
}

#[test]
fn irq_line_sources() {
    let mut line = IrqLine::new();
    assert!(!line.is_low());
    line.set_low(2, true);
    line.set_low(5, true);
    assert!(line.is_low());
    line.set_low(2, false);
    assert!(line.is_low());
    line.set_low(5, false);
    assert!(!line.is_low());
    line.set_low(1, true);
    line.reset();
    assert!(!line.is_low());
}

#[test]
fn write_debug_does_not_tick() {
    let ticks = Cell::new(0u32);
    let mut cpu = setup_cpu();
    cpu.write_debug(0x0001, 0x30);
    assert_eq!(0, ticks.get());
    assert_eq!(0x30, cpu.read(0x0001, &|| ticks.set(ticks.get() + 1)));
    assert_eq!(1, ticks.get());
}

#[test]
fn sbc_matches_adc_of_complement() {
    for (a, m, carry) in [(0x50u8, 0x10u8, true), (0x00, 0x01, false), (0x80, 0x7f, true), (0x7f, 0xff, false)] {
        let mut sub = setup_cpu();
        sub.set_a(a);
        sub.set_flag(Flag::Carry, carry);
        run(&mut sub, Instruction::SBC(Operand::Immediate(m), 2));
        let mut add = setup_cpu();
        add.set_a(a);
        add.set_flag(Flag::Carry, carry);
        run(&mut add, Instruction::ADC(Operand::Immediate(!m), 2));
        assert_eq!(add.get_a(), sub.get_a());
        assert_eq!(add.status(), sub.status());
    }
}

#[test]
fn fresh_ram_reads_zero() {
    let mut cpu = setup_cpu();
    assert_eq!(0, peek(&mut cpu, 0x1234));
    assert_eq!(0, peek(&mut cpu, 0xffff));
}

fn ticks_of(cpu: &mut Cpu6510<Ram>, instr: Instruction) -> u32 {
    let ticks = Cell::new(0u32);
    cpu.execute(&instr, &|| ticks.set(ticks.get() + 1));
    ticks.get()
}

#[test]
fn fetch_push_and_pop_tick_per_byte() {
    let ticks = Cell::new(0u32);
    let tick_fn = || ticks.set(ticks.get() + 1);
    let mut cpu = setup_cpu();
    cpu.set_pc(0x1000);
    cpu.fetch_byte(&tick_fn);
    assert_eq!(1, ticks.get());
    cpu.fetch_word(&tick_fn);
    assert_eq!(3, ticks.get());
    cpu.push(7, &tick_fn);
    assert_eq!(4, ticks.get());
    assert_eq!(7, cpu.pop(&tick_fn));
    assert_eq!(5, ticks.get());
}

#[test]
fn instruction_cycles_after_fetch() {
    let mut cpu = setup_cpu();
    assert_eq!(0, ticks_of(&mut cpu, Instruction::LDA(Operand::Immediate(1), 2)));
    assert_eq!(1, ticks_of(&mut cpu, Instruction::LDA(Operand::Absolute(0x2000), 4)));
    cpu.set_x(1);
    assert_eq!(1, ticks_of(&mut cpu, Instruction::LDA(Operand::AbsoluteX(0x2000), 4)));
    assert_eq!(2, ticks_of(&mut cpu, Instruction::LDA(Operand::AbsoluteX(0x20ff), 4)));
    assert_eq!(2, ticks_of(&mut cpu, Instruction::STA(Operand::AbsoluteX(0x2000), 5)));
    assert_eq!(3, ticks_of(&mut cpu, Instruction::INC(Operand::ZeroPage(0x10), 5)));
    assert_eq!(1, ticks_of(&mut cpu, Instruction::INC(Operand::Accumulator, 2)));
    assert_eq!(1, ticks_of(&mut cpu, Instruction::NOP(2)));
    assert_eq!(2, ticks_of(&mut cpu, Instruction::PHA(3)));
    assert_eq!(3, ticks_of(&mut cpu, Instruction::PLA(4)));
}

#[test]
fn branch_cycles() {
    let mut cpu = setup_cpu();
    cpu.set_pc(0x10f0);
    cpu.set_flag(Flag::Carry, true);
    assert_eq!(0, ticks_of(&mut cpu, Instruction::BCC(Operand::Relative(0x20), 2)));
    assert_eq!(0x10f0, cpu.get_pc());
    assert_eq!(1, ticks_of(&mut cpu, Instruction::BCS(Operand::Relative(0x02), 2)));
    assert_eq!(0x10f2, cpu.get_pc());
    assert_eq!(2, ticks_of(&mut cpu, Instruction::BCS(Operand::Relative(0x20), 2)));
    assert_eq!(0x1112, cpu.get_pc());
}

#[test]
fn interrupt_and_step_cycles() {
    let ticks = Cell::new(0u32);
    let tick_fn = || ticks.set(ticks.get() + 1);
    let mut cpu = setup_cpu();
    cpu.set_pc(0x1000);
    cpu.interrupt(Interrupt::Irq, &tick_fn);
    assert_eq!(6, ticks.get());
    let mut cpu = setup_cpu();
    load_program(&mut cpu, 0x1000, &[0xea]);
    cpu.set_pc(0x1000);
    ticks.set(0);
    assert!(cpu.step(&tick_fn));
    assert_eq!(2, ticks.get());
    assert_eq!(0x1001, cpu.get_pc());
}

#[test]
fn reset_runs_without_cycles_of_the_caller() {
    let mut cpu = setup_cpu();
    load_program(&mut cpu, 0xfffc, &[0x00, 0xc0]);
    cpu.reset();
    assert_eq!(0xc000, cpu.get_pc());
    assert_eq!(0x2f, peek(&mut cpu, 0x0000));
    assert_eq!(0x1f, peek(&mut cpu, 0x0001));
    cpu.reset();
    assert_eq!(0xc000, cpu.get_pc());
    assert_eq!(0x1f, peek(&mut cpu, 0x0001));
}
