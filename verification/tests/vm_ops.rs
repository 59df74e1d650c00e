use chip8::{Vm, DISPLAY_LEN, DISPLAY_WIDTH};

fn any_vm(rom: &[u8]) -> Vm<fn() -> u8> {
    Vm::new(rom, || 0x00)
}

#[test]
fn set_key_updates_value() {
    let mut vm = any_vm(&[]);
    let res = vm.set_key(0xf, true);

    assert!(res.is_ok());
    assert_eq!(vm.key(0xf), true);
}

#[test]
fn does_not_tick_when_waiting() {
    let mut vm = any_vm(&[0x00, 0xe0]);
    vm.set_waiting(0x0);

    let res = vm.tick();

    assert!(res.is_ok());
    assert_eq!(vm.pc(), 0x200);
}

#[test]
fn stops_wait_and_loads_vx_after_key_down() {
    let mut vm = any_vm(&[]);
    vm.set_waiting(0xb);

    let _ = vm.set_key(0xa, false);
    assert_eq!(vm.is_waiting(), true);

    let _ = vm.set_key(0xa, true);
    assert_eq!(vm.is_waiting(), false);
    assert_eq!(vm.v_register(0xb), 0xa);
}

#[test]
fn ticks_timers() {
    let mut vm = any_vm(&[]);
    vm.set_delay(0x01);
    vm.set_sound(0x02);

    vm.tick_timers();
    assert_eq!(vm.delay(), 0x00);
    assert_eq!(vm.sound(), 0x01);

    vm.tick_timers();
    assert_eq!(vm.delay(), 0x00);
    assert_eq!(vm.sound(), 0x00);
}

#[test]
fn opcode_clear_screen() {
    let rom = [0x00, 0xe0];
    let mut vm = any_vm(&rom);
    vm.fill_display(true);

    let res = vm.tick();

    assert!(res.is_ok());
    assert_eq!(vm.pc(), 0x202);
    assert_eq!(vm.display().as_slice(), &[false; DISPLAY_LEN][..]);
}

#[test]
fn opcode_jump_absolute() {
    let rom = [0x1a, 0xbc];
    let mut vm = any_vm(&rom);

    let res = vm.tick();

    assert!(res.is_ok());
    assert_eq!(vm.pc(), 0xabc);
}

#[test]
fn opcode_load_vx() {
    let rom = [0x6a, 0xbc];
    let mut vm = any_vm(&rom);

    let res = vm.tick();

    assert!(res.is_ok());
    assert_eq!(vm.pc(), 0x202);
    assert_eq!(vm.v_register(0xa), 0xbc);
}

#[test]
fn opcode_add_vx() {
    let rom = [0x7a, 0xbc];
    let mut vm = any_vm(&rom);
    vm.set_v_register(0xa, 0x11);

    let res = vm.tick();

    assert!(res.is_ok());
    assert_eq!(vm.pc(), 0x202);
    assert_eq!(vm.v_register(0xa), 0x11 + 0xbc);
}

#[test]
fn opcode_skip_if_not_equal_vx_vy() {
    let rom = [0x90, 0x10];
    let mut vm = any_vm(&rom);
    vm.set_v_register(0x0, 0x00);
    vm.set_v_register(0x1, 0x01);

    let mut res = vm.tick();

    assert!(res.is_ok());
    assert_eq!(vm.pc(), 0x204);

    vm.set_pc(0x200);
    vm.set_v_register(0x0, 0x01);
    res = vm.tick();

    assert!(res.is_ok());
    assert_eq!(vm.pc(), 0x202);
}

#[test]
fn opcode_load_i() {
    let rom = [0xaa, 0xbc];
    let mut vm = any_vm(&rom);

    let res = vm.tick();

    assert!(res.is_ok());
    assert_eq!(vm.pc(), 0x202);
    assert_eq!(vm.i_register(), 0x0abc);
}

#[test]
fn opcode_display() {
    let rom = [0xd0, 0x14, 0xd0, 0x14, 0xff, 0x81, 0x81, 0xff];
    let mut vm = any_vm(&rom);
    vm.set_i_register(0x204);
    vm.set_v_register(0x0, 0x01);
    vm.set_v_register(0x1, 0x00);

    let mut res = vm.tick();

    assert!(res.is_ok());
    assert_eq!(vm.pc(), 0x202);
    assert_eq!(vm.v_register(0xf), 0x00);
    assert_eq!(vm.display()[1..9], [true; 8]);
    assert_eq!(
        vm.display()[(64 + 1)..(64 + 9)],
        [true, false, false, false, false, false, false, true]
    );
    assert_eq!(
        vm.display()[(64 * 2 + 1)..(64 * 2 + 9)],
        [true, false, false, false, false, false, false, true]
    );
    assert_eq!(vm.display()[(64 * 3 + 1)..(64 * 3 + 9)], [true; 8]);

    res = vm.tick();
    assert!(res.is_ok());
    assert_eq!(vm.pc(), 0x204);
    assert_eq!(vm.display().as_slice(), &[false; DISPLAY_LEN][..]);
    assert_eq!(vm.v_register(0xf), 0x01);
}

#[test]
fn opcode_display_with_wrap() {
    let rom = [0xd0, 0x12, 0xff, 0xff];
    let mut vm = any_vm(&rom);
    vm.set_i_register(0x202);
    vm.set_v_register(0x0, 60);
    vm.set_v_register(0x1, 31);

    let res = vm.tick();

    assert!(res.is_ok());
    assert_eq!(vm.display()[0..4], [true; 4]);
    assert_eq!(vm.display()[60..64], [true; 4]);
    assert_eq!(
        vm.display()[0 + 31 * DISPLAY_WIDTH..(4 + 31 * DISPLAY_WIDTH)],
        [true; 4]
    );
    assert_eq!(
        vm.display()[60 + 31 * DISPLAY_WIDTH..(64 + 31 * DISPLAY_WIDTH)],
        [true; 4]
    );
}

#[test]
fn opcode_skip_if_equal() {
    let rom = [0x30, 0xab];
    let mut vm = any_vm(&rom);
    vm.set_v_register(0x0, 0xab);

    let mut res = vm.tick();

    assert!(res.is_ok());
    assert_eq!(vm.pc(), 0x204);

    vm.set_pc(0x200);
    vm.set_v_register(0x0, 0x0);
    res = vm.tick();

    assert!(res.is_ok());
    assert_eq!(vm.pc(), 0x202);
}

#[test]
fn opcode_skip_if_not_equal() {
    let rom = [0x40, 0xab];
    let mut vm = any_vm(&rom);
    vm.set_v_register(0x0, 0x00);

    let mut res = vm.tick();

    assert!(res.is_ok());
    assert_eq!(vm.pc(), 0x204);

    vm.set_pc(0x200);
    vm.set_v_register(0x0, 0xab);
    res = vm.tick();

    assert!(res.is_ok());
    assert_eq!(vm.pc(), 0x202);
}

#[test]
fn opcode_skip_if_equal_vx_vy() {
    let rom = [0x50, 0x10];
    let mut vm = any_vm(&rom);
    vm.set_v_register(0x0, 0x00);
    vm.set_v_register(0x1, 0x00);

    let mut res = vm.tick();

    assert!(res.is_ok());
    assert_eq!(vm.pc(), 0x204);

    vm.set_pc(0x200);
    vm.set_v_register(0x0, 0xab);
    res = vm.tick();

    assert!(res.is_ok());
    assert_eq!(vm.pc(), 0x202);
}

#[test]
fn opcode_load_vx_vy() {
    let rom = [0x80, 0x10];
    let mut vm = any_vm(&rom);
    vm.set_v_register(0x1, 0xab);

    let res = vm.tick();

    assert!(res.is_ok());
    assert_eq!(vm.pc(), 0x202);
    assert_eq!(vm.v_register(0x0), 0xab);
}

#[test]
fn opcode_or_vx_vy() {
    let rom = [0x80, 0x11];
    let mut vm = any_vm(&rom);
    vm.set_v_register(0x0, 0x0f);
    vm.set_v_register(0x1, 0b_0101_0101);

    let res = vm.tick();

    assert!(res.is_ok());
    assert_eq!(vm.pc(), 0x202);
    assert_eq!(vm.v_register(0x0), 0b_0101_1111);
}

#[test]
fn opcode_and_vx_vy() {
    let rom = [0x80, 0x12];
    let mut vm = any_vm(&rom);
    vm.set_v_register(0x0, 0x0f);
    vm.set_v_register(0x1, 0b_0101_0101);

    let res = vm.tick();

    assert!(res.is_ok());
    assert_eq!(vm.pc(), 0x202);
    assert_eq!(vm.v_register(0x0), 0b_0000_0101);
}

#[test]
fn opcode_xor_vx_vy() {
    let rom = [0x80, 0x13];
    let mut vm = any_vm(&rom);
    vm.set_v_register(0x0, 0x0f);
    vm.set_v_register(0x1, 0b_0101_0101);

    let res = vm.tick();

    assert!(res.is_ok());
    assert_eq!(vm.pc(), 0x202);
    assert_eq!(vm.v_register(0x0), 0b_0101_1010);
}

#[test]
fn opcode_add_vx_vy() {
    let rom = [0x80, 0x14];
    let mut vm = any_vm(&rom);
    vm.set_v_register(0x0, 0x02);
    vm.set_v_register(0x1, 0x01);

    let res = vm.tick();

    assert!(res.is_ok());
    assert_eq!(vm.pc(), 0x202);
    assert_eq!(vm.v_register(0x0), 0x03);
    assert_eq!(vm.v_register(0xf), 0x00);
}

#[test]
fn opcode_add_vx_vy_with_carry() {
    let rom = [0x80, 0x14];
    let mut vm = any_vm(&rom);
    vm.set_v_register(0x0, 0xff);
    vm.set_v_register(0x1, 0x01);

    let res = vm.tick();

    assert!(res.is_ok());
    assert_eq!(vm.pc(), 0x202);
    assert_eq!(vm.v_register(0x0), 0x00);
    assert_eq!(vm.v_register(0xf), 0x01);
}

#[test]
fn opcode_sub_vx_vy() {
    let rom = [0x80, 0x15];
    let mut vm = any_vm(&rom);
    vm.set_v_register(0x0, 0x03);
    vm.set_v_register(0x1, 0x01);

    let res = vm.tick();

    assert!(res.is_ok());
    assert_eq!(vm.pc(), 0x202);
    assert_eq!(vm.v_register(0x0), 0x02);
    assert_eq!(vm.v_register(0xf), 0x01);
}

#[test]
fn opcode_sub_vx_vy_with_borrow() {
    let rom = [0x80, 0x15];
    let mut vm = any_vm(&rom);
    vm.set_v_register(0x0, 0x00);
    vm.set_v_register(0x1, 0x01);

    let res = vm.tick();

    assert!(res.is_ok());
    assert_eq!(vm.pc(), 0x202);
    assert_eq!(vm.v_register(0x0), 0xff);
    assert_eq!(vm.v_register(0xf), 0x00);
}

#[test]
fn opcode_shift_right() {
    let rom = [0x80, 0x16];
    let mut vm = any_vm(&rom);
    vm.set_v_register(0x0, 0x00);
    vm.set_v_register(0x1, 0b_0000_0011);

    let res = vm.tick();

    assert!(res.is_ok());
    assert_eq!(vm.pc(), 0x202);
    assert_eq!(vm.v_register(0x0), 0x01);
    assert_eq!(vm.v_register(0xf), 0x01);
}

#[test]
fn opcode_subn_vy_vx() {
    let rom = [0x80, 0x17];
    let mut vm = any_vm(&rom);
    vm.set_v_register(0x0, 0x01);
    vm.set_v_register(0x1, 0x03);

    let res = vm.tick();

    assert!(res.is_ok());
    assert_eq!(vm.pc(), 0x202);
    assert_eq!(vm.v_register(0x0), 0x02);
    assert_eq!(vm.v_register(0xf), 0x01);
}

#[test]
fn opcode_shift_left() {
    let rom = [0x80, 0x1e];
    let mut vm = any_vm(&rom);
    vm.set_v_register(0x0, 0x00);
    vm.set_v_register(0x1, 0b_1000_0001);

    let res = vm.tick();

    assert!(res.is_ok());
    assert_eq!(vm.pc(), 0x202);
    assert_eq!(vm.v_register(0x0), 0x02);
    assert_eq!(vm.v_register(0xf), 0x01);
}

#[test]
fn opcode_jump_offset() {
    let rom = [0xb2, 0x00];
    let mut vm = any_vm(&rom);
    vm.set_v_register(0x0, 0xab);

    let res = vm.tick();

    assert!(res.is_ok());
    assert_eq!(vm.pc(), 0x2ab);
}

#[test]
fn opcode_rand() {
    let rom = [0xc0, 0x0f];
    let mut vm = Vm::new(&rom, || 0b1010_1010);

    let res = vm.tick();

    assert!(res.is_ok());
    assert_eq!(vm.pc(), 0x202);
    assert_eq!(vm.v_register(0x0), 0b0000_1010);
}

#[test]
fn opcode_skip_if_key() {
    let rom = [0xe0, 0x9e];
    let mut vm = any_vm(&rom);
    vm.set_v_register(0x0, 0xa);
    vm.set_key(0xa, true).unwrap();

    let mut res = vm.tick();

    assert!(res.is_ok());
    assert_eq!(vm.pc(), 0x204);

    vm.set_pc(0x200);
    vm.set_key(0xa, false).unwrap();
    res = vm.tick();

    assert!(res.is_ok());
    assert_eq!(vm.pc(), 0x202);
}

#[test]
fn opcode_skip_if_not_key() {
    let rom = [0xe0, 0xa1];
    let mut vm = any_vm(&rom);
    vm.set_v_register(0x0, 0xa);
    vm.set_key(0xa, false).unwrap();

    let mut res = vm.tick();

    assert!(res.is_ok());
    assert_eq!(vm.pc(), 0x204);

    vm.set_pc(0x200);
    vm.set_key(0xa, true).unwrap();
    res = vm.tick();

    assert!(res.is_ok());
    assert_eq!(vm.pc(), 0x202);
}

#[test]
fn opcode_wait_for_key() {
    let rom = [0xf0, 0x0a];
    let mut vm = any_vm(&rom);

    let res = vm.tick();
    assert!(res.is_ok());
    assert_eq!(vm.is_waiting(), true);
    assert_eq!(vm.pc(), 0x202);

    let _ = vm.set_key(0xa, true);
    assert_eq!(vm.is_waiting(), false);
    assert_eq!(vm.v_register(0x0), 0xa);
}

#[test]
fn opcode_load_delay() {
    let rom = [0xf0, 0x07];
    let mut vm = any_vm(&rom);
    vm.set_delay(0xab);

    let res = vm.tick();

    assert!(res.is_ok());
    assert_eq!(vm.pc(), 0x202);
    assert_eq!(vm.v_register(0x0), 0xab);
}

#[test]
fn opcode_store_delay() {
    let rom = [0xf0, 0x15];
    let mut vm = any_vm(&rom);
    vm.set_delay(0x00);
    vm.set_v_register(0x0, 0xab);

    let res = vm.tick();

    assert!(res.is_ok());
    assert_eq!(vm.pc(), 0x202);
    assert_eq!(vm.delay(), 0xab);
}

#[test]
fn opcode_store_sound() {
    let rom = [0xf0, 0x18];
    let mut vm = any_vm(&rom);
    vm.set_sound(0x00);
    vm.set_v_register(0x0, 0xab);

    let res = vm.tick();

    assert!(res.is_ok());
    assert_eq!(vm.pc(), 0x202);
    assert_eq!(vm.sound(), 0xab);
}

#[test]
fn opcode_store_registers() {
    let rom = [0xf2, 0x55];
    let mut vm = any_vm(&rom);
    vm.set_i_register(0x300);
    vm.set_v_register(0x0, 0xa);
    vm.set_v_register(0x1, 0xb);
    vm.set_v_register(0x2, 0xc);

    let res = vm.tick();

    assert!(res.is_ok());
    assert_eq!(vm.pc(), 0x202);
    assert_eq!(vm.i_register(), 0x303);
    assert_eq!(vm.ram()[0x300..0x303], [0xa, 0xb, 0xc]);
}

#[test]
fn opcode_load_registers() {
    let rom = [0xf2, 0x65];
    let mut vm = any_vm(&rom);
    vm.set_i_register(0x300);
    vm.write_byte_at(0x300, 0xa).unwrap();
    vm.write_byte_at(0x301, 0xb).unwrap();
    vm.write_byte_at(0x302, 0xc).unwrap();

    let res = vm.tick();

    assert!(res.is_ok());
    assert_eq!(vm.pc(), 0x202);
    assert_eq!(vm.i_register(), 0x303);
    assert_eq!(
        [vm.v_register(0x0), vm.v_register(0x1), vm.v_register(0x2)],
        [0xa, 0xb, 0xc]
    );
}

#[test]
fn opcode_call() {
    let rom = [0x23, 0x00];
    let mut vm = any_vm(&rom);

    let res = vm.tick();

    assert!(res.is_ok());
    assert_eq!(vm.stack().len(), 1);
    assert_eq!(vm.pc(), 0x300);
}

#[test]
fn opcode_ret() {
    let rom = [0x00, 0xee];
    let mut vm = any_vm(&rom);
    vm.push_stack(0x300);

    let res = vm.tick();

    assert!(res.is_ok());
    assert!(vm.stack().is_empty());
    assert_eq!(vm.pc(), 0x300);
}

#[test]
fn opcode_bcd() {
    let rom = [0xf0, 0x33];
    let mut vm = any_vm(&rom);
    vm.set_i_register(0x300);
    vm.set_v_register(0x0, 128);

    let res = vm.tick();

    assert!(res.is_ok());
    assert_eq!(vm.pc(), 0x202);
    assert_eq!(vm.ram()[0x300..0x303], [1, 2, 8]);
}

#[test]
fn opcode_load_digit() {
    let rom = [0xf0, 0x29];
    let mut vm = any_vm(&rom);
    vm.set_v_register(0x0, 0xab);

    let res = vm.tick();

    assert!(res.is_ok());
    assert_eq!(vm.pc(), 0x202);
    assert_eq!(vm.i_register(), 0xb * 5);
}

#[test]
fn opcode_add_i() {
    let rom = [0xf0, 0x1e];
    let mut vm = any_vm(&rom);
    vm.set_v_register(0x0, 0xab);
    vm.set_i_register(0x300);

    let res = vm.tick();

    assert!(res.is_ok());
    assert_eq!(vm.pc(), 0x202);
    assert_eq!(vm.i_register(), 0x3ab);
}
