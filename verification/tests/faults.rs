use chip8::{Vm, VmError};

fn any_vm(rom: &[u8]) -> Vm<fn() -> u8> {
    Vm::new(rom, || 0x00)
}

#[test]
fn return_on_empty_stack_faults_and_keeps_pc() {
    let rom = [0x00, 0xee];
    let mut vm = any_vm(&rom);

    let res = vm.tick();

    assert_eq!(res, Err(VmError::EmptyStack));
    // the pc keeps only the advance the fetch already made
    assert_eq!(vm.pc(), 0x202);
}

#[test]
fn fetch_past_end_of_memory_faults() {
    // jump to the last byte of memory, then step off the end
    let rom = [0x1f, 0xff];
    let mut vm = any_vm(&rom);

    assert!(vm.tick().is_ok());
    assert_eq!(vm.pc(), 0xfff);

    let res = vm.tick();
    assert_eq!(res, Err(VmError::InvalidAddress(0x1000)));
}

#[test]
fn invalid_opcode_faults_with_the_word() {
    let rom = [0xfa, 0x66];
    let mut vm = any_vm(&rom);

    let res = vm.tick();

    assert_eq!(res, Err(VmError::InvalidOpcode(0xfa66)));
    assert_eq!(vm.pc(), 0x202);
}

#[test]
fn skip_if_key_faults_on_bad_key_index() {
    let rom = [0xe0, 0x9e];
    let mut vm = any_vm(&rom);
    vm.set_v_register(0x0, 16);

    let res = vm.tick();

    assert_eq!(res, Err(VmError::InvalidKey(16)));
    assert_eq!(vm.pc(), 0x202);
}

#[test]
fn set_key_faults_on_bad_key_index() {
    let mut vm = any_vm(&[]);

    let res = vm.set_key(16, true);

    assert_eq!(res, Err(VmError::InvalidKey(16)));
}

#[test]
fn display_past_end_of_memory_faults_before_drawing() {
    let rom = [0xd0, 0x1f];
    let mut vm = any_vm(&rom);
    vm.set_i_register(4090);
    vm.set_v_register(0xf, 0x01);

    let res = vm.tick();

    assert_eq!(res, Err(VmError::InvalidAddress(4096)));
    // the flag was cleared before the sprite read, nothing was drawn
    assert_eq!(vm.v_register(0xf), 0x00);
    assert!(vm.display().iter().all(|&c| !c));
}

#[test]
fn bcd_keeps_partial_writes_on_fault() {
    let rom = [0xf0, 0x33];
    let mut vm = any_vm(&rom);
    vm.set_i_register(4095);
    vm.set_v_register(0x0, 255);

    let res = vm.tick();

    assert_eq!(res, Err(VmError::InvalidAddress(4096)));
    // the hundreds digit was written before the fault
    assert_eq!(vm.ram()[4095], 2);
}

#[test]
fn store_registers_faults_past_end_of_memory() {
    let rom = [0xf1, 0x55];
    let mut vm = any_vm(&rom);
    vm.set_i_register(4095);
    vm.set_v_register(0x0, 0xaa);
    vm.set_v_register(0x1, 0xbb);

    let res = vm.tick();

    assert_eq!(res, Err(VmError::InvalidAddress(4096)));
    assert_eq!(vm.ram()[4095], 0xaa);
    assert_eq!(vm.i_register(), 4096);
}

#[test]
fn register_block_round_trip() {
    // store V0..V2 at 0x300, clobber the registers, then load them back
    let rom = [0xf2, 0x55, 0xf2, 0x65];
    let mut vm = any_vm(&rom);
    vm.set_i_register(0x300);
    vm.set_v_register(0x0, 0xa);
    vm.set_v_register(0x1, 0xb);
    vm.set_v_register(0x2, 0xc);

    assert!(vm.tick().is_ok());
    assert_eq!(vm.i_register(), 0x303);

    vm.set_v_register(0x0, 0);
    vm.set_v_register(0x1, 0);
    vm.set_v_register(0x2, 0);
    vm.set_i_register(0x300);

    assert!(vm.tick().is_ok());
    assert_eq!(vm.v_register(0x0), 0xa);
    assert_eq!(vm.v_register(0x1), 0xb);
    assert_eq!(vm.v_register(0x2), 0xc);
    assert_eq!(vm.i_register(), 0x303);
}

#[test]
fn delay_timer_saturates_at_zero() {
    let mut vm = any_vm(&[]);
    vm.set_delay(1);

    vm.tick_timers();
    assert_eq!(vm.delay(), 0);
    vm.tick_timers();
    assert_eq!(vm.delay(), 0);
}

#[test]
fn shift_flags_come_from_the_source_register() {
    // shift-right of 0b011 gives 0b001 with the low bit shifted out
    let rom = [0x80, 0x16, 0x80, 0x1e];
    let mut vm = any_vm(&rom);
    vm.set_v_register(0x1, 0b011);
    assert!(vm.tick().is_ok());
    assert_eq!(vm.v_register(0x0), 0b001);
    assert_eq!(vm.v_register(0xf), 1);

    // shift-left of 0b1000_0001 gives 0x02 with the high bit shifted out
    vm.set_v_register(0x1, 0b1000_0001);
    assert!(vm.tick().is_ok());
    assert_eq!(vm.v_register(0x0), 0x02);
    assert_eq!(vm.v_register(0xf), 1);
}
