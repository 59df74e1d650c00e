mod error;
pub mod laws;
pub mod opcode;
pub mod state;

pub use error::VmError;
pub use opcode::Opcode;
pub use state::VmState;

use state::init_state;
use vstd::arithmetic::div_mod::{
    lemma_fundamental_div_mod, lemma_mod_bound, lemma_mod_multiples_vanish,
};
use vstd::prelude::*;

verus! {

/// Columns of the display grid.
pub const DISPLAY_WIDTH: usize = 64;

/// Rows of the display grid.
pub const DISPLAY_HEIGHT: usize = 32;

/// Cells of the display grid, row-major.
pub const DISPLAY_LEN: usize = DISPLAY_WIDTH * DISPLAY_HEIGHT;

/// The CHIP-8 machine: memory, registers, call stack, timers, keypad state,
/// wait-for-key state and display, plus an injected random-byte source used
/// by the random instruction.
pub struct Vm<R> where R: Fn() -> u8 {
    ram: Vec<u8>,
    pc: u16,
    i_register: u16,
    delay: u8,
    sound: u8,
    v_registers: Vec<u8>,
    stack: Vec<u16>,
    randomize: R,
    is_waiting: bool,
    vx_after_wait: u8,
    display: Vec<bool>,
    keys: Vec<bool>,
}

impl<R> View for Vm<R> where R: Fn() -> u8 {
    type V = VmState;

    closed spec fn view(&self) -> VmState {
        VmState {
            ram: self.ram@,
            pc: self.pc,
            i: self.i_register,
            delay: self.delay,
            sound: self.sound,
            v: self.v_registers@,
            stack: self.stack@,
            is_waiting: self.is_waiting,
            vx_after_wait: self.vx_after_wait,
            display: self.display@,
            keys: self.keys@,
        }
    }
}

impl<R> Vm<R> where R: Fn() -> u8 {
    /// The injected random-byte source can be called.
    pub closed spec fn rand_source_ok(&self) -> bool {
        call_requires(self.randomize, ())
    }

    /// A well-formed machine: a well-formed state model and a usable
    /// random-byte source.
    pub open spec fn wf(&self) -> bool {
        self@.wf() && self.rand_source_ok()
    }

    /// Builds a machine holding the program image `rom`: memory zeroed, the
    /// font table at address 0, the image at 0x200, the program counter at
    /// 0x200, and all registers, timers, stack, keys and display cleared.
    ///
    /// The image must fit in the 3584 bytes above the load address; use
    /// [`crate::load_rom`] to reject oversized images with an error instead.
    pub fn new(rom: &[u8], randomize: R) -> (v: Vm<R>)
        requires
            rom@.len() <= 3584,
            call_requires(randomize, ()),
        ensures
            v.wf(),
            v@ == init_state(rom@),
    {
        let mut ram: Vec<u8> = vec![0u8; 4096];
        let mut j: usize = 0;
        while j < rom.len()
            invariant
                rom@.len() <= 3584,
                j <= rom@.len(),
                ram@.len() == 4096,
                forall|k: int| 0 <= k < j ==> ram@[0x200 + k] == rom@[k],
                forall|k: int| 0 <= k < 4096 && !(0x200 <= k < 0x200 + j) ==> ram@[k] == 0u8,
            decreases rom@.len() - j,
        {
            ram[0x200 + j] = rom[j];
            j += 1;
        }

        let mut res = Vm {
            ram,
            pc: 0x200,
            i_register: 0,
            delay: 0,
            sound: 0,
            v_registers: vec![0u8; 16],
            stack: Vec::with_capacity(16),
            randomize,
            is_waiting: false,
            vx_after_wait: 0x0,
            display: vec![false; 2048],
            keys: vec![false; 16],
        };

        res.load_fonts();

        proof {
            assert(res@.ram =~= init_state(rom@).ram);
            assert(res@.v =~= init_state(rom@).v);
            assert(res@.stack =~= init_state(rom@).stack);
            assert(res@.display =~= init_state(rom@).display);
            assert(res@.keys =~= init_state(rom@).keys);
            assert(res@ =~= init_state(rom@));
        }
        res
    }

    /// Writes the 80-byte hexadecimal font table at address 0; the rest of
    /// the machine is untouched.
    #[verifier::rlimit(50)]
    fn load_fonts(&mut self)
        requires
            old(self).wf(),
        ensures
            final(self).wf(),
            final(self)@ == (VmState {
                ram: Seq::new(
                    4096,
                    |j: int|
                        if 0 <= j < 80 {
                            state::font_data()[j]
                        } else {
                            old(self)@.ram[j]
                        },
                ),
                ..old(self)@
            }),
    {
        let mut font: Vec<u8> = Vec::with_capacity(80);
        font.push(0xf0); font.push(0x90); font.push(0x90); font.push(0x90); font.push(0xf0);  // 0
        font.push(0x20); font.push(0x60); font.push(0x20); font.push(0x20); font.push(0x70);  // 1
        font.push(0xf0); font.push(0x10); font.push(0xf0); font.push(0x80); font.push(0xf0);  // 2
        font.push(0xf0); font.push(0x10); font.push(0xf0); font.push(0x10); font.push(0xf0);  // 3
        font.push(0x90); font.push(0x90); font.push(0xf0); font.push(0x10); font.push(0x10);  // 4
        font.push(0xf0); font.push(0x80); font.push(0xf0); font.push(0x10); font.push(0x10);  // 5
        font.push(0xf0); font.push(0x80); font.push(0xf0); font.push(0x90); font.push(0xf0);  // 6
        font.push(0xf0); font.push(0x10); font.push(0x20); font.push(0x40); font.push(0x40);  // 7
        font.push(0xf0); font.push(0x90); font.push(0xf0); font.push(0x90); font.push(0xf0);  // 8
        font.push(0xf0); font.push(0x90); font.push(0xf0); font.push(0x10); font.push(0xf0);  // 9
        font.push(0xf0); font.push(0x90); font.push(0xf0); font.push(0x90); font.push(0x90);  // A
        font.push(0xe0); font.push(0x90); font.push(0xe0); font.push(0x90); font.push(0xe0);  // B
        font.push(0xf0); font.push(0x80); font.push(0x80); font.push(0x80); font.push(0xf0);  // C
        font.push(0xe0); font.push(0x90); font.push(0x90); font.push(0x90); font.push(0xe0);  // D
        font.push(0xf0); font.push(0x80); font.push(0xf0); font.push(0x80); font.push(0xf0);  // E
        font.push(0xf0); font.push(0x80); font.push(0xf0); font.push(0x80); font.push(0x80);  // F

        proof {
            assert(font@ =~= state::font_data());
        }

        let mut j: usize = 0;
        while j < 80
            invariant
                font@ == state::font_data(),
                self.rand_source_ok(),
                j <= 80,
                self@.ram.len() == 4096,
                forall|k: int| 0 <= k < j ==> self@.ram[k] == state::font_data()[k],
                forall|k: int| j <= k < 4096 ==> self@.ram[k] == old(self)@.ram[k],
                self@ == (VmState { ram: self@.ram, ..old(self)@ }),
            decreases 80 - j,
        {
            self.ram[j] = font[j];
            j += 1;
        }

        proof {
            assert(self@.ram =~= (VmState {
                ram: Seq::new(
                    4096,
                    |j: int|
                        if 0 <= j < 80 {
                            state::font_data()[j]
                        } else {
                            old(self)@.ram[j]
                        },
                ),
                ..old(self)@
            }).ram);
            assert(self@ =~= (VmState {
                ram: Seq::new(
                    4096,
                    |j: int|
                        if 0 <= j < 80 {
                            state::font_data()[j]
                        } else {
                            old(self)@.ram[j]
                        },
                ),
                ..old(self)@
            }));
        }
    }

    /// The current program counter.
    pub fn pc(&self) -> (r: u16)
        ensures
            r == self@.pc,
    {
        self.pc
    }

    /// Sets the program counter.
    pub fn set_pc(&mut self, pc: u16)
        requires
            old(self).wf(),
        ensures
            final(self).wf(),
            final(self)@ == (VmState { pc: pc, ..old(self)@ }),
    {
        self.pc = pc;
    }

    /// The current index register.
    pub fn i_register(&self) -> (r: u16)
        ensures
            r == self@.i,
    {
        self.i_register
    }

    /// Sets the index register.
    pub fn set_i_register(&mut self, addr: u16)
        requires
            old(self).wf(),
        ensures
            final(self).wf(),
            final(self)@ == (VmState { i: addr, ..old(self)@ }),
    {
        self.i_register = addr;
    }

    /// The current delay timer value.
    pub fn delay(&self) -> (r: u8)
        ensures
            r == self@.delay,
    {
        self.delay
    }

    /// Sets the delay timer.
    pub fn set_delay(&mut self, value: u8)
        requires
            old(self).wf(),
        ensures
            final(self).wf(),
            final(self)@ == (VmState { delay: value, ..old(self)@ }),
    {
        self.delay = value;
    }

    /// The current sound timer value, for the host to decide whether to emit
    /// audio.
    pub fn sound(&self) -> (r: u8)
        ensures
            r == self@.sound,
    {
        self.sound
    }

    /// Sets the sound timer.
    pub fn set_sound(&mut self, value: u8)
        requires
            old(self).wf(),
        ensures
            final(self).wf(),
            final(self)@ == (VmState { sound: value, ..old(self)@ }),
    {
        self.sound = value;
    }

    /// The value of register `Vx`.
    pub fn v_register(&self, x: u8) -> (r: u8)
        requires
            x < 16,
            self.wf(),
        ensures
            r == self@.v[x as int],
    {
        self.v_registers[x as usize]
    }

    /// Sets register `Vx`.
    pub fn set_v_register(&mut self, x: u8, value: u8)
        requires
            x < 16,
            old(self).wf(),
        ensures
            final(self).wf(),
            final(self)@ == (VmState { v: old(self)@.v.update(x as int, value), ..old(self)@ }),
    {
        self.v_registers[x as usize] = value;
    }

    /// Whether the key with the given index is down.
    pub fn key(&self, key: u8) -> (r: bool)
        requires
            key < 16,
            self.wf(),
        ensures
            r == self@.keys[key as int],
    {
        self.keys[key as usize]
    }

    /// Whether the machine is suspended waiting for a key-down event.
    pub fn is_waiting(&self) -> (r: bool)
        ensures
            r == self@.is_waiting,
    {
        self.is_waiting
    }

    /// Suspends the machine as the wait-for-key instruction does: stepping
    /// becomes a no-op until a key-down event writes its key index into
    /// `Vtarget`.
    pub fn set_waiting(&mut self, target: u8)
        requires
            target < 16,
            old(self).wf(),
        ensures
            final(self).wf(),
            final(self)@ == (VmState { is_waiting: true, vx_after_wait: target, ..old(self)@ }),
    {
        self.is_waiting = true;
        self.vx_after_wait = target;
    }

    /// A read view of the display grid, row-major, 64 columns by 32 rows;
    /// `true` is lit. Any color mapping belongs to the host.
    pub fn display(&self) -> (r: &Vec<bool>)
        ensures
            r@ == self@.display,
    {
        &self.display
    }

    /// Sets every display cell to the given value.
    pub fn fill_display(&mut self, value: bool)
        requires
            old(self).wf(),
        ensures
            final(self).wf(),
            final(self)@ == (VmState {
                display: Seq::new(2048, |j: int| value),
                ..old(self)@
            }),
    {
        self.display = vec![value; 2048];
        proof {
            assert(self@.display =~= Seq::new(2048, |j: int| value));
            assert(self@ =~= (VmState { display: Seq::new(2048, |j: int| value), ..old(self)@ }));
        }
    }

    /// A read view of the memory.
    pub fn ram(&self) -> (r: &Vec<u8>)
        ensures
            r@ == self@.ram,
    {
        &self.ram
    }

    /// A read view of the call stack, newest return address last.
    pub fn stack(&self) -> (r: &Vec<u16>)
        ensures
            r@ == self@.stack,
    {
        &self.stack
    }

    /// Pushes a return address onto the call stack.
    pub fn push_stack(&mut self, addr: u16)
        requires
            old(self).wf(),
        ensures
            final(self).wf(),
            final(self)@ == (VmState { stack: old(self)@.stack.push(addr), ..old(self)@ }),
    {
        self.stack.push(addr);
    }

    /// Writes one byte of memory, faulting with the address when it lies
    /// outside 0..4096.
    pub fn write_byte_at(&mut self, addr: u16, value: u8) -> (r: Result<(), VmError>)
        requires
            old(self).wf(),
        ensures
            final(self).wf(),
            addr < 4096 ==> (r matches Ok(())
                && final(self)@ == (VmState {
                    ram: old(self)@.ram.update(addr as int, value),
                    ..old(self)@
                })),
            addr >= 4096 ==> (r matches Err(e) && e == VmError::InvalidAddress(addr)
                && final(self)@ == old(self)@),
    {
        if (addr as usize) < self.ram.len() {
            self.ram[addr as usize] = value;
            Ok(())
        } else {
            Err(VmError::InvalidAddress(addr))
        }
    }

    /// Reads one byte of memory, faulting with the address when it lies
    /// outside 0..4096.
    pub fn read_byte_at(&self, addr: u16) -> (r: Result<u8, VmError>)
        requires
            self.wf(),
        ensures
            addr < 4096 ==> r == Ok::<u8, VmError>(self@.ram[addr as int]),
            addr >= 4096 ==> r == Err::<u8, VmError>(VmError::InvalidAddress(addr)),
    {
        if (addr as usize) < self.ram.len() {
            Ok(self.ram[addr as usize])
        } else {
            Err(VmError::InvalidAddress(addr))
        }
    }

    /// Reads the byte at `pc` and advances `pc` by one (wrapping at 16
    /// bits) whether or not the read was in bounds.
    fn read_byte(&mut self) -> (r: Result<u8, VmError>)
        requires
            old(self).wf(),
        ensures
            final(self).wf(),
            final(self)@ == state::read_byte_s(old(self)@).0,
            r == state::read_byte_s(old(self)@).1,
    {
        let pc = self.pc;
        let res = if (pc as usize) < self.ram.len() {
            Ok(self.ram[pc as usize])
        } else {
            Err(VmError::InvalidAddress(pc))
        };
        self.pc = pc.wrapping_add(1);
        res
    }

    /// Fetches the big-endian instruction word at `pc`, advancing `pc` past
    /// the bytes it read.
    fn next_opcode(&mut self) -> (r: Result<u16, VmError>)
        requires
            old(self).wf(),
        ensures
            final(self).wf(),
            final(self)@ == state::fetch_s(old(self)@).0,
            r == state::fetch_s(old(self)@).1,
    {
        let hi = self.read_byte()?;
        let lo = self.read_byte()?;
        Ok((hi as u16) * 256 + (lo as u16))
    }

    /// Clear screen: sets every display cell unlit.
    fn exec_clear_screen(&mut self) -> (r: Result<(), VmError>)
        requires
            old(self).wf(),
        ensures
            final(self).wf(),
            r matches Ok(()),
            final(self)@ == state::eff_clear_screen(old(self)@),
    {
        self.display = vec![false; 2048];
        proof {
            assert(self@.display =~= Seq::new(2048, |j: int| false));
            assert(self@ =~= state::eff_clear_screen(old(self)@));
        }
        Ok(())
    }

    /// Jump: `pc` becomes the address operand.
    fn exec_jump_absolute(&mut self, addr: u16) -> (r: Result<(), VmError>)
        requires
            old(self).wf(),
        ensures
            final(self).wf(),
            r matches Ok(()),
            final(self)@ == state::eff_jump(old(self)@, addr),
    {
        self.pc = addr;
        Ok(())
    }

    /// Call: pushes the current `pc` onto the call stack, then jumps.
    fn exec_call(&mut self, addr: u16) -> (r: Result<(), VmError>)
        requires
            old(self).wf(),
        ensures
            final(self).wf(),
            r matches Ok(()),
            final(self)@ == state::eff_call(old(self)@, addr),
    {
        self.stack.push(self.pc);
        self.pc = addr;
        Ok(())
    }

    /// Return: pops the call stack into `pc`, faulting on an empty stack.
    fn exec_return(&mut self) -> (r: Result<(), VmError>)
        requires
            old(self).wf(),
        ensures
            final(self).wf(),
            final(self)@ == state::eff_ret(old(self)@).0,
            r == state::eff_ret(old(self)@).1,
    {
        match self.stack.pop() {
            Some(addr) => {
                self.pc = addr;
                Ok(())
            },
            None => Err(VmError::EmptyStack),
        }
    }

    /// Load immediate: `Vx := kk`.
    fn exec_load_vx(&mut self, x: u8, value: u8) -> (r: Result<(), VmError>)
        requires
            old(self).wf(),
            x < 16,
        ensures
            final(self).wf(),
            r matches Ok(()),
            final(self)@ == state::eff_load_vx(old(self)@, x, value),
    {
        self.v_registers[x as usize] = value;
        Ok(())
    }

    /// Add immediate: `Vx := Vx + kk` wrapping modulo 256, no flag effect.
    fn exec_add_vx(&mut self, x: u8, value: u8) -> (r: Result<(), VmError>)
        requires
            old(self).wf(),
            x < 16,
        ensures
            final(self).wf(),
            r matches Ok(()),
            final(self)@ == state::eff_add_vx(old(self)@, x, value),
    {
        self.v_registers[x as usize] = self.v_registers[x as usize].wrapping_add(value);
        Ok(())
    }

    /// Load index register: `i` becomes the address operand.
    fn exec_load_i(&mut self, addr: u16) -> (r: Result<(), VmError>)
        requires
            old(self).wf(),
        ensures
            final(self).wf(),
            r matches Ok(()),
            final(self)@ == state::eff_load_i(old(self)@, addr),
    {
        self.i_register = addr;
        Ok(())
    }

    /// Skip if `Vx` equals the immediate operand.
    fn exec_skip_if_equal(&mut self, vx: u8, value: u8) -> (r: Result<(), VmError>)
        requires
            old(self).wf(),
            vx < 16,
            old(self)@.pc + 2 <= 0xffff,
        ensures
            final(self).wf(),
            r matches Ok(()),
            final(self)@ == state::eff_skip_if(old(self)@, old(self)@.v[vx as int] == value),
    {
        if self.v_registers[vx as usize] == value {
            self.pc += 2;
        }
        Ok(())
    }

    /// Skip if `Vx` differs from the immediate operand.
    fn exec_skip_if_not_equal(&mut self, vx: u8, value: u8) -> (r: Result<(), VmError>)
        requires
            old(self).wf(),
            vx < 16,
            old(self)@.pc + 2 <= 0xffff,
        ensures
            final(self).wf(),
            r matches Ok(()),
            final(self)@ == state::eff_skip_if(old(self)@, old(self)@.v[vx as int] != value),
    {
        if self.v_registers[vx as usize] != value {
            self.pc += 2;
        }
        Ok(())
    }

    /// Skip if `Vx` equals `Vy`.
    fn exec_skip_if_equal_vx_vy(&mut self, vx: u8, vy: u8) -> (r: Result<(), VmError>)
        requires
            old(self).wf(),
            vx < 16,
            vy < 16,
            old(self)@.pc + 2 <= 0xffff,
        ensures
            final(self).wf(),
            r matches Ok(()),
            final(self)@ == state::eff_skip_if(
                old(self)@,
                old(self)@.v[vx as int] == old(self)@.v[vy as int],
            ),
    {
        if self.v_registers[vx as usize] == self.v_registers[vy as usize] {
            self.pc += 2;
        }
        Ok(())
    }

    /// Skip if `Vx` differs from `Vy`.
    fn exec_skip_if_not_equal_vx_vy(&mut self, vx: u8, vy: u8) -> (r: Result<(), VmError>)
        requires
            old(self).wf(),
            vx < 16,
            vy < 16,
            old(self)@.pc + 2 <= 0xffff,
        ensures
            final(self).wf(),
            r matches Ok(()),
            final(self)@ == state::eff_skip_if(
                old(self)@,
                old(self)@.v[vx as int] != old(self)@.v[vy as int],
            ),
    {
        if self.v_registers[vx as usize] != self.v_registers[vy as usize] {
            self.pc += 2;
        }
        Ok(())
    }

    /// Register copy: `Vx := Vy`.
    fn exec_load_vx_vy(&mut self, vx: u8, vy: u8) -> (r: Result<(), VmError>)
        requires
            old(self).wf(),
            vx < 16,
            vy < 16,
        ensures
            final(self).wf(),
            r matches Ok(()),
            final(self)@ == state::eff_load_vx_vy(old(self)@, vx, vy),
    {
        self.v_registers[vx as usize] = self.v_registers[vy as usize];
        Ok(())
    }

    /// Bitwise or: `Vx := Vx | Vy`.
    fn exec_or_vx_vy(&mut self, vx: u8, vy: u8) -> (r: Result<(), VmError>)
        requires
            old(self).wf(),
            vx < 16,
            vy < 16,
        ensures
            final(self).wf(),
            r matches Ok(()),
            final(self)@ == state::eff_or(old(self)@, vx, vy),
    {
        self.v_registers[vx as usize] = self.v_registers[vx as usize]
            | self.v_registers[vy as usize];
        Ok(())
    }

    /// Bitwise and: `Vx := Vx & Vy`.
    fn exec_and_vx_vy(&mut self, vx: u8, vy: u8) -> (r: Result<(), VmError>)
        requires
            old(self).wf(),
            vx < 16,
            vy < 16,
        ensures
            final(self).wf(),
            r matches Ok(()),
            final(self)@ == state::eff_and(old(self)@, vx, vy),
    {
        self.v_registers[vx as usize] = self.v_registers[vx as usize]
            & self.v_registers[vy as usize];
        Ok(())
    }

    /// Bitwise xor: `Vx := Vx ^ Vy`.
    fn exec_xor_vx_vy(&mut self, vx: u8, vy: u8) -> (r: Result<(), VmError>)
        requires
            old(self).wf(),
            vx < 16,
            vy < 16,
        ensures
            final(self).wf(),
            r matches Ok(()),
            final(self)@ == state::eff_xor(old(self)@, vx, vy),
    {
        self.v_registers[vx as usize] = self.v_registers[vx as usize]
            ^ self.v_registers[vy as usize];
        Ok(())
    }

    /// Register add: `Vx := Vx + Vy` wrapping; `VF` then becomes the carry
    /// bit, so the flag wins when the destination is `VF` itself.
    fn exec_add_vx_vy(&mut self, vx: u8, vy: u8) -> (r: Result<(), VmError>)
        requires
            old(self).wf(),
            vx < 16,
            vy < 16,
        ensures
            final(self).wf(),
            r matches Ok(()),
            final(self)@ == state::eff_add_vx_vy(old(self)@, vx, vy),
    {
        let a = self.v_registers[vx as usize];
        let b = self.v_registers[vy as usize];
        let carry = (a as u16) + (b as u16) > 255;
        self.v_registers[vx as usize] = a.wrapping_add(b);
        self.v_registers[0xf] = if carry {
            0x01
        } else {
            0x00
        };
        Ok(())
    }

    /// Register subtract: `Vx := Vx - Vy` wrapping; `VF` then becomes 1
    /// exactly when no borrow occurred.
    fn exec_sub_vx_vy(&mut self, vx: u8, vy: u8) -> (r: Result<(), VmError>)
        requires
            old(self).wf(),
            vx < 16,
            vy < 16,
        ensures
            final(self).wf(),
            r matches Ok(()),
            final(self)@ == state::eff_sub_vx_vy(old(self)@, vx, vy),
    {
        let a = self.v_registers[vx as usize];
        let b = self.v_registers[vy as usize];
        let no_borrow = a >= b;
        self.v_registers[vx as usize] = a.wrapping_sub(b);
        self.v_registers[0xf] = if no_borrow {
            0x01
        } else {
            0x00
        };
        Ok(())
    }

    /// Shift right: `Vx := Vy >> 1`; `VF` then becomes the bit shifted out.
    fn exec_shift_right(&mut self, vx: u8, vy: u8) -> (r: Result<(), VmError>)
        requires
            old(self).wf(),
            vx < 16,
            vy < 16,
        ensures
            final(self).wf(),
            r matches Ok(()),
            final(self)@ == state::eff_shift_right(old(self)@, vx, vy),
    {
        let y = self.v_registers[vy as usize];
        let shifted_out = y & 0b0000_0001;
        proof {
            assert(y & 1 == y % 2) by (bit_vector);
            assert(y >> 1 == y / 2) by (bit_vector);
        }
        self.v_registers[vx as usize] = y >> 1;
        self.v_registers[0xf] = shifted_out;
        Ok(())
    }

    /// Reverse subtract: `Vx := Vy - Vx` wrapping; `VF` then becomes 1
    /// exactly when no borrow occurred.
    fn exec_subn_vy_vx(&mut self, vx: u8, vy: u8) -> (r: Result<(), VmError>)
        requires
            old(self).wf(),
            vx < 16,
            vy < 16,
        ensures
            final(self).wf(),
            r matches Ok(()),
            final(self)@ == state::eff_subn_vy_vx(old(self)@, vx, vy),
    {
        let a = self.v_registers[vy as usize];
        let b = self.v_registers[vx as usize];
        let no_borrow = a >= b;
        self.v_registers[vx as usize] = a.wrapping_sub(b);
        self.v_registers[0xf] = if no_borrow {
            0x01
        } else {
            0x00
        };
        Ok(())
    }

    /// Shift left: `Vx := Vy << 1` wrapping to 8 bits; `VF` then becomes the
    /// bit shifted out.
    fn exec_shift_left(&mut self, vx: u8, vy: u8) -> (r: Result<(), VmError>)
        requires
            old(self).wf(),
            vx < 16,
            vy < 16,
        ensures
            final(self).wf(),
            r matches Ok(()),
            final(self)@ == state::eff_shift_left(old(self)@, vx, vy),
    {
        let y = self.v_registers[vy as usize];
        let shifted_out = (y & 0b1000_0000) >> 7;
        proof {
            assert((y & 0b1000_0000) >> 7 == y / 128) by (bit_vector);
            assert(y << 1 == (2 * y) % 256) by (bit_vector);
        }
        self.v_registers[vx as usize] = y << 1;
        self.v_registers[0xf] = shifted_out;
        Ok(())
    }

    /// Jump with offset: `pc := addr + V0`; a 12-bit address plus a byte
    /// never overflows 16 bits.
    fn exec_jump_offset(&mut self, addr: u16) -> (r: Result<(), VmError>)
        requires
            old(self).wf(),
            addr <= 0xfff,
        ensures
            final(self).wf(),
            r matches Ok(()),
            final(self)@ == state::eff_jump_offset(old(self)@, addr),
    {
        self.pc = addr + self.v_registers[0x0] as u16;
        Ok(())
    }

    /// Toggles one display cell, wrapping the coordinates to the grid, and
    /// reports whether the cell was lit before (and so was erased).
    fn put_pixel(&mut self, x: u8, y: u8) -> (erased: bool)
        requires
            old(self).wf(),
        ensures
            final(self).wf(),
            ({
                let idx = ((y as int) % 32) * 64 + ((x as int) % 64);
                &&& erased == old(self)@.display[idx]
                &&& final(self)@ == (VmState {
                    display: old(self)@.display.update(idx, !old(self)@.display[idx]),
                    ..old(self)@
                })
            }),
    {
        let x = x as usize % 64;
        let y = y as usize % 32;
        let i = y * 64 + x;

        let erased = self.display[i];
        self.display[i] = !erased;
        erased
    }

    /// Draw: clears `VF`, reads the `n`-byte sprite at `i` and xors its set
    /// pixels onto the display, wrapping each axis; `VF` ends 1 exactly when
    /// a lit cell was erased. A sprite that reaches past the end of memory
    /// faults before anything is drawn.
    fn exec_display(&mut self, vx: u8, vy: u8, rows: u8) -> (r: Result<(), VmError>)
        requires
            old(self).wf(),
            vx < 16,
            vy < 16,
            rows < 16,
        ensures
            final(self).wf(),
            final(self)@ == state::eff_display(old(self)@, vx, vy, rows).0,
            r == state::eff_display(old(self)@, vx, vy, rows).1,
    {
        let ghost pre = old(self)@;
        self.v_registers[0xf] = 0x00;
        proof {
            assert(self@ =~= (VmState { v: pre.v.update(0xf, 0u8), ..pre }));
        }

        let sprite_x = self.v_registers[vx as usize];
        let sprite_y = self.v_registers[vy as usize];
        let addr = self.i_register;

        if addr as usize + rows as usize > 4096 {
            let fault = if addr >= 4096 {
                addr
            } else {
                4096
            };
            return Err(VmError::InvalidAddress(fault));
        }

        // The whole sprite must lie in memory before anything is drawn.
        let mut sprite: Vec<u8> = Vec::with_capacity(rows as usize);
        let mut row: usize = 0;
        while row < rows as usize
            invariant
                self.rand_source_ok(),
                pre.wf(),
                self@ == (VmState { v: pre.v.update(0xf, 0u8), ..pre }),
                addr == pre.i,
                addr as int + rows as int <= 4096,
                row <= rows as usize,
                sprite@.len() == row as int,
                forall|t: int| 0 <= t < row ==> sprite@[t] == pre.ram[addr + t],
            decreases rows as int - row,
        {
            let b = self.ram[addr as usize + row];
            sprite.push(b);
            row += 1;
        }

        let ghost spr = pre.ram.subrange(pre.i as int, pre.i as int + rows as int);
        proof {
            assert(sprite@ =~= spr);
            state::lemma_covers_upto_zero(sprite_x, sprite_y, spr);
        }

        let total = rows as usize * 8;
        let mut k: usize = 0;
        while k < total
            invariant
                self.rand_source_ok(),
                pre.wf(),
                vx < 16,
                vy < 16,
                rows < 16,
                spr == pre.ram.subrange(pre.i as int, pre.i as int + rows as int),
                spr.len() == rows as int,
                sprite@ == spr,
                sprite_x == pre.v.update(0xf, 0u8)[vx as int],
                sprite_y == pre.v.update(0xf, 0u8)[vy as int],
                total == rows as usize * 8,
                k <= total,
                self@.display.len() == 2048,
                forall|idx: int|
                    0 <= idx < 2048 ==> self@.display[idx] == (if state::sprite_covers_upto(
                        sprite_x,
                        sprite_y,
                        spr,
                        idx,
                        k as int,
                    ) {
                        !pre.display[idx]
                    } else {
                        pre.display[idx]
                    }),
                self@.v.len() == 16,
                self@.v[15] == (if state::sprite_collides_upto(
                    sprite_x,
                    sprite_y,
                    spr,
                    pre.display,
                    k as int,
                ) {
                    1u8
                } else {
                    0u8
                }),
                forall|t: int| 0 <= t < 16 && t != 15 ==> self@.v[t] == pre.v[t],
                self@ == (VmState { v: self@.v, display: self@.display, ..pre }),
            decreases total - k,
        {
            let row = k / 8;
            let col = k % 8;
            proof {
                lemma_fundamental_div_mod(k as int, 8);
                lemma_mod_bound(k as int, 8);
                state::lemma_covers_upto_step(sprite_x, sprite_y, spr, k as int);
                state::lemma_collides_upto_step(sprite_x, sprite_y, spr, pre.display, k as int);
                state::lemma_display_index_bounds(sprite_x, sprite_y, row as int, col as int);
            }
            let pixel = (sprite[row] & (0x80u8 >> (col as u8))) != 0;
            proof {
                assert(pixel == state::sprite_bit(spr[row as int], col as int));
            }
            let ghost m = state::display_index(sprite_x, sprite_y, row as int, col as int);
            if pixel {
                let px = sprite_x.wrapping_add(col as u8);
                let py = sprite_y.wrapping_add(row as u8);
                proof {
                    lemma_mod_multiples_vanish(-4, sprite_x + col, 64);
                    lemma_mod_multiples_vanish(-8, sprite_y + row, 32);
                    assert((px as int) % 64 == (sprite_x + col as int) % 64);
                    assert((py as int) % 32 == (sprite_y + row as int) % 32);
                    // no earlier pixel already toggled this cell
                    if state::sprite_covers_upto(sprite_x, sprite_y, spr, m, k as int) {
                        let (r2, c2) = choose|r2: int, c2: int|
                            {
                                &&& 0 <= r2 < spr.len()
                                &&& 0 <= c2 < 8
                                &&& r2 * 8 + c2 < k as int
                                &&& state::sprite_bit(spr[r2], c2)
                                &&& m == #[trigger] state::display_index(
                                    sprite_x,
                                    sprite_y,
                                    r2,
                                    c2,
                                )
                            };
                        state::lemma_display_index_injective(
                            sprite_x,
                            sprite_y,
                            r2,
                            c2,
                            row as int,
                            col as int,
                        );
                        assert(false);
                    }
                }
                let did_erase = self.put_pixel(px, py);
                if did_erase {
                    self.v_registers[0xf] = 0x01;
                }
                proof {
                    assert(did_erase == pre.display[m]);
                    assert forall|idx: int| 0 <= idx < 2048 implies self@.display[idx] == (
                    if state::sprite_covers_upto(sprite_x, sprite_y, spr, idx, k as int + 1) {
                        !pre.display[idx]
                    } else {
                        pre.display[idx]
                    }) by {}
                }
            } else {
                proof {
                    assert forall|idx: int| 0 <= idx < 2048 implies self@.display[idx] == (
                    if state::sprite_covers_upto(sprite_x, sprite_y, spr, idx, k as int + 1) {
                        !pre.display[idx]
                    } else {
                        pre.display[idx]
                    }) by {}
                }
            }
            k += 1;
        }

        proof {
            state::lemma_covers_upto_full(sprite_x, sprite_y, spr);
            state::lemma_collides_upto_full(sprite_x, sprite_y, spr, pre.display);
            let eff = state::eff_display(pre, vx, vy, rows);
            assert(self@.display =~= eff.0.display);
            assert(self@.v =~= eff.0.v);
            assert(self@ =~= eff.0);
        }
        Ok(())
    }

    /// Store registers `V0..=Vx` at `i`, one byte per register, `i`
    /// advancing once per byte written; a write outside memory faults,
    /// keeping the bytes already written.
    fn exec_store_registers(&mut self, vx: u8) -> (r: Result<(), VmError>)
        requires
            old(self).wf(),
            vx < 16,
        ensures
            final(self).wf(),
            final(self)@ == state::eff_store_registers(old(self)@, vx).0,
            r == state::eff_store_registers(old(self)@, vx).1,
    {
        let count = vx as usize + 1;
        let mut j: usize = 0;
        while j < count
            invariant
                self.rand_source_ok(),
                old(self).wf(),
                vx < 16,
                count == vx as usize + 1,
                j <= state::writable_prefix(old(self)@.i, count as int),
                self@.i == old(self)@.i + j,
                self@.ram.len() == 4096,
                forall|t: int|
                    0 <= t < 4096 && !(old(self)@.i <= t < old(self)@.i + j) ==> self@.ram[t]
                        == old(self)@.ram[t],
                forall|t: int|
                    old(self)@.i <= t < old(self)@.i + j ==> self@.ram[t] == old(self)@.v[t - old(
                        self,
                    )@.i],
                self@ == (VmState { ram: self@.ram, i: self@.i, ..old(self)@ }),
            decreases count - j,
        {
            let value = self.v_registers[j];
            match self.write_byte_at(self.i_register, value) {
                Ok(()) => {},
                Err(e) => {
                    proof {
                        assert(j == state::writable_prefix(old(self)@.i, count as int));
                        assert(self@ =~= state::eff_store_registers(old(self)@, vx).0);
                    }
                    return Err(e);
                },
            }
            self.i_register = self.i_register + 1;
            j += 1;
        }
        proof {
            assert(count as int == state::writable_prefix(old(self)@.i, count as int));
            assert(self@ =~= state::eff_store_registers(old(self)@, vx).0);
        }
        Ok(())
    }

    /// Load registers `V0..=Vx` from memory at `i`, one byte per register,
    /// `i` advancing once per byte read; a read outside memory faults,
    /// keeping the registers already loaded.
    fn exec_load_registers(&mut self, vx: u8) -> (r: Result<(), VmError>)
        requires
            old(self).wf(),
            vx < 16,
        ensures
            final(self).wf(),
            final(self)@ == state::eff_load_registers(old(self)@, vx).0,
            r == state::eff_load_registers(old(self)@, vx).1,
    {
        let count = vx as usize + 1;
        let mut j: usize = 0;
        while j < count
            invariant
                self.rand_source_ok(),
                old(self).wf(),
                vx < 16,
                count == vx as usize + 1,
                j <= state::writable_prefix(old(self)@.i, count as int),
                self@.i == old(self)@.i + j,
                self@.v.len() == 16,
                forall|t: int| 0 <= t < j ==> self@.v[t] == old(self)@.ram[old(self)@.i + t],
                forall|t: int| j <= t < 16 ==> self@.v[t] == old(self)@.v[t],
                self@ == (VmState { v: self@.v, i: self@.i, ..old(self)@ }),
            decreases count - j,
        {
            let b = match self.read_byte_at(self.i_register) {
                Ok(b) => b,
                Err(e) => {
                    proof {
                        assert(j == state::writable_prefix(old(self)@.i, count as int));
                        assert(self@ =~= state::eff_load_registers(old(self)@, vx).0);
                    }
                    return Err(e);
                },
            };
            self.v_registers[j] = b;
            self.i_register = self.i_register + 1;
            j += 1;
        }
        proof {
            assert(count as int == state::writable_prefix(old(self)@.i, count as int));
            assert(self@ =~= state::eff_load_registers(old(self)@, vx).0);
        }
        Ok(())
    }

    /// Random: `Vx` becomes a byte drawn from the injected source, masked
    /// with the immediate operand.
    fn exec_rand(&mut self, vx: u8, value: u8) -> (r: Result<(), VmError>)
        requires
            old(self).wf(),
            vx < 16,
        ensures
            final(self).wf(),
            r matches Ok(()),
            state::rand_matches(old(self)@, vx, value, final(self)@),
            exists|rb: u8|
                final(self)@ == #[trigger] state::eff_rand(old(self)@, vx, value, rb)
                    && call_ensures(old(self).randomize, (), rb),
    {
        let rb = (self.randomize)();
        self.v_registers[vx as usize] = rb & value;
        proof {
            assert(self@ =~= state::eff_rand(old(self)@, vx, value, rb));
        }
        Ok(())
    }

    /// The state of the key indexed by `Vx`, faulting when `Vx` holds 16 or
    /// more.
    fn get_vx_key(&self, vx: u8) -> (r: Result<bool, VmError>)
        requires
            self.wf(),
            vx < 16,
        ensures
            ({
                let key = self@.v[vx as int];
                if key < 16 {
                    r == Ok::<bool, VmError>(self@.keys[key as int])
                } else {
                    r == Err::<bool, VmError>(VmError::InvalidKey(key))
                }
            }),
    {
        let key = self.v_registers[vx as usize];
        if (key as usize) < self.keys.len() {
            Ok(self.keys[key as usize])
        } else {
            Err(VmError::InvalidKey(key))
        }
    }

    /// Skip if the key indexed by `Vx` is down.
    fn exec_skip_if_key(&mut self, vx: u8) -> (r: Result<(), VmError>)
        requires
            old(self).wf(),
            vx < 16,
            old(self)@.pc + 2 <= 0xffff,
        ensures
            final(self).wf(),
            final(self)@ == state::eff_skip_if_key(old(self)@, vx).0,
            r == state::eff_skip_if_key(old(self)@, vx).1,
    {
        let state = match self.get_vx_key(vx) {
            Ok(b) => b,
            Err(e) => {
                return Err(e);
            },
        };
        if state {
            self.pc += 2;
        }
        Ok(())
    }

    /// Skip if the key indexed by `Vx` is up.
    fn exec_skip_if_not_key(&mut self, vx: u8) -> (r: Result<(), VmError>)
        requires
            old(self).wf(),
            vx < 16,
            old(self)@.pc + 2 <= 0xffff,
        ensures
            final(self).wf(),
            final(self)@ == state::eff_skip_if_not_key(old(self)@, vx).0,
            r == state::eff_skip_if_not_key(old(self)@, vx).1,
    {
        let state = match self.get_vx_key(vx) {
            Ok(b) => b,
            Err(e) => {
                return Err(e);
            },
        };
        if !state {
            self.pc += 2;
        }
        Ok(())
    }

    /// Wait for key: records `Vx` as the wait target and suspends stepping.
    fn exec_wait_for_key(&mut self, vx: u8) -> (r: Result<(), VmError>)
        requires
            old(self).wf(),
            vx < 16,
        ensures
            final(self).wf(),
            r matches Ok(()),
            final(self)@ == state::eff_wait_for_key(old(self)@, vx),
    {
        self.vx_after_wait = vx;
        self.is_waiting = true;
        Ok(())
    }

    /// Load delay timer into a register: `Vx := delay`.
    fn exec_load_delay(&mut self, vx: u8) -> (r: Result<(), VmError>)
        requires
            old(self).wf(),
            vx < 16,
        ensures
            final(self).wf(),
            r matches Ok(()),
            final(self)@ == state::eff_load_delay(old(self)@, vx),
    {
        self.v_registers[vx as usize] = self.delay;
        Ok(())
    }

    /// Store a register into the delay timer: `delay := Vx`.
    fn exec_store_delay(&mut self, vx: u8) -> (r: Result<(), VmError>)
        requires
            old(self).wf(),
            vx < 16,
        ensures
            final(self).wf(),
            r matches Ok(()),
            final(self)@ == state::eff_store_delay(old(self)@, vx),
    {
        self.delay = self.v_registers[vx as usize];
        Ok(())
    }

    /// Store a register into the sound timer: `sound := Vx`.
    fn exec_store_sound(&mut self, vx: u8) -> (r: Result<(), VmError>)
        requires
            old(self).wf(),
            vx < 16,
        ensures
            final(self).wf(),
            r matches Ok(()),
            final(self)@ == state::eff_store_sound(old(self)@, vx),
    {
        self.sound = self.v_registers[vx as usize];
        Ok(())
    }

    /// Add a register to the index register: `i := i + Vx`, wrapping at 16
    /// bits, no flag effect.
    fn exec_add_i(&mut self, vx: u8) -> (r: Result<(), VmError>)
        requires
            old(self).wf(),
            vx < 16,
        ensures
            final(self).wf(),
            r matches Ok(()),
            final(self)@ == state::eff_add_i(old(self)@, vx),
    {
        self.i_register = self.i_register.wrapping_add(self.v_registers[vx as usize] as u16);
        Ok(())
    }

    /// Load font digit address: `i := (Vx & 0xF) * 5`.
    fn exec_load_digit(&mut self, vx: u8) -> (r: Result<(), VmError>)
        requires
            old(self).wf(),
            vx < 16,
        ensures
            final(self).wf(),
            r matches Ok(()),
            final(self)@ == state::eff_load_digit(old(self)@, vx),
    {
        let value = self.v_registers[vx as usize];
        let nibble = value & 0x0f;
        proof {
            assert(value & 0x0f == value % 16) by (bit_vector);
        }
        self.i_register = nibble as u16 * 5;
        Ok(())
    }

    /// Store the decimal digits of `Vx` at `i`, `i + 1`, `i + 2`.
    fn exec_bcd(&mut self, vx: u8) -> (r: Result<(), VmError>)
        requires
            old(self).wf(),
            vx < 16,
        ensures
            final(self).wf(),
            final(self)@ == state::eff_bcd(old(self)@, vx).0,
            r == state::eff_bcd(old(self)@, vx).1,
    {
        let mut value = self.v_registers[vx as usize];
        proof {
            let v0 = value;
            assert((v0 - (v0 / 100) * 100) / 10 == (v0 / 10) % 10) by (bit_vector);
            assert(
                v0 - (v0 / 100) * 100 - ((v0 - (v0 / 100) * 100) / 10) * 10 == v0 % 10
            ) by (bit_vector);
        }
        let hundreds = value / 100;
        value -= hundreds * 100;
        let tens = value / 10;
        value -= tens * 10;

        self.write_byte_at(self.i_register, hundreds)?;
        self.write_byte_at(self.i_register + 1, tens)?;
        self.write_byte_at(self.i_register + 2, value)?;
        Ok(())
    }

    /// Updates one key state, faulting with the key index when it is 16 or
    /// more. A key-down event ends a pending wait: the wait flag clears and
    /// the key index is written into the register recorded when the wait
    /// began.
    pub fn set_key(&mut self, key: u8, value: bool) -> (r: Result<(), VmError>)
        requires
            old(self).wf(),
        ensures
            final(self).wf(),
            key >= 16 ==> (r matches Err(e) && e == VmError::InvalidKey(key)
                && final(self)@ == old(self)@),
            key < 16 ==> (r matches Ok(())
                && final(self)@ == state::eff_set_key(old(self)@, key, value)),
    {
        if (key as usize) < self.keys.len() {
            self.keys[key as usize] = value;
            if value && self.is_waiting {
                self.is_waiting = false;
                self.v_registers[self.vx_after_wait as usize] = key;
            }
            Ok(())
        } else {
            Err(VmError::InvalidKey(key))
        }
    }

    /// Advances the machine by one instruction: fetch, decode, execute.
    ///
    /// A waiting machine does nothing and succeeds. Otherwise the fetch
    /// faults on an out-of-bounds program counter, the decode faults on an
    /// unmatched word (the documented halt signal, distinguishable from the
    /// other faults), and the instruction executes as [`state::tick_post`]
    /// states, bit for bit.
    pub fn tick(&mut self) -> (r: Result<(), VmError>)
        requires
            old(self).wf(),
        ensures
            final(self).wf(),
            state::tick_post(old(self)@, final(self)@, r),
    {
        proof {
            reveal(state::tick_post);
        }
        if self.is_waiting {
            return Ok(());
        }

        let raw_opcode = self.next_opcode()?;
        let opcode = Opcode::try_from(raw_opcode)?;

        let ghost s1 = self@;

        let result = match opcode {
            Opcode::ClearScreen => self.exec_clear_screen(),
            Opcode::Ret => self.exec_return(),
            Opcode::Jump(addr) => self.exec_jump_absolute(addr),
            Opcode::Call(addr) => self.exec_call(addr),
            Opcode::LoadVx(x, value) => self.exec_load_vx(x, value),
            Opcode::SkipIfEq(x, value) => self.exec_skip_if_equal(x, value),
            Opcode::SkipIfNeq(x, value) => self.exec_skip_if_not_equal(x, value),
            Opcode::SkipEqVxVy(x, y) => self.exec_skip_if_equal_vx_vy(x, y),
            Opcode::AddVx(x, value) => self.exec_add_vx(x, value),
            Opcode::LoadVxVy(x, y) => self.exec_load_vx_vy(x, y),
            Opcode::Or(x, y) => self.exec_or_vx_vy(x, y),
            Opcode::And(x, y) => self.exec_and_vx_vy(x, y),
            Opcode::Xor(x, y) => self.exec_xor_vx_vy(x, y),
            Opcode::Add(x, y) => self.exec_add_vx_vy(x, y),
            Opcode::Sub(x, y) => self.exec_sub_vx_vy(x, y),
            Opcode::ShiftR(x, y) => self.exec_shift_right(x, y),
            Opcode::SubN(x, y) => self.exec_subn_vy_vx(x, y),
            Opcode::ShiftL(x, y) => self.exec_shift_left(x, y),
            Opcode::SkipNeqVxVy(x, y) => self.exec_skip_if_not_equal_vx_vy(x, y),
            Opcode::LoadI(addr) => self.exec_load_i(addr),
            Opcode::JumpOffset(addr) => self.exec_jump_offset(addr),
            Opcode::Rand(x, value) => self.exec_rand(x, value),
            Opcode::Display(x, y, rows) => self.exec_display(x, y, rows),
            Opcode::SkipIfKey(x) => self.exec_skip_if_key(x),
            Opcode::SkipIfNotKey(x) => self.exec_skip_if_not_key(x),
            Opcode::LoadDelay(x) => self.exec_load_delay(x),
            Opcode::WaitForKey(x) => self.exec_wait_for_key(x),
            Opcode::StoreDelay(x) => self.exec_store_delay(x),
            Opcode::StoreSound(x) => self.exec_store_sound(x),
            Opcode::AddI(x) => self.exec_add_i(x),
            Opcode::LoadDigit(x) => self.exec_load_digit(x),
            Opcode::Bcd(x) => self.exec_bcd(x),
            Opcode::StoreRegisters(x) => self.exec_store_registers(x),
            Opcode::LoadRegisters(x) => self.exec_load_registers(x),
            Opcode::NoOp => Ok(()),
        };

        proof {
            match opcode {
                Opcode::Rand(x, value) => {
                    assert(state::rand_matches(s1, x, value, self@));
                    let rb = choose|rb: u8| self@ == #[trigger] state::eff_rand(s1, x, value, rb);
                    assert(state::exec_matches(s1, opcode, rb, self@, result));
                },
                _ => {
                    assert(self@ == state::exec_spec(s1, opcode, 0u8).0);
                    assert(result == state::exec_spec(s1, opcode, 0u8).1) by {
                        let r2 = state::exec_spec(s1, opcode, 0u8).1;
                        match result {
                            Result::Ok(u) => {
                                assert(r2 is Ok);
                                assert(r2 == Ok::<(), VmError>(u));
                            },
                            Result::Err(e) => {
                                assert(r2 is Err);
                                assert(r2 == Err::<(), VmError>(e));
                            },
                        }
                    };
                    assert(state::exec_matches(s1, opcode, 0u8, self@, result));
                },
            }
        }

        result
    }

    /// Decrements both timers by one, saturating at zero.
    pub fn tick_timers(&mut self)
        requires
            old(self).wf(),
        ensures
            final(self).wf(),
            final(self)@ == (VmState {
                delay: if old(self)@.delay > 0 { (old(self)@.delay - 1) as u8 } else { 0u8 },
                sound: if old(self)@.sound > 0 { (old(self)@.sound - 1) as u8 } else { 0u8 },
                ..old(self)@
            }),
    {
        self.delay = self.delay.saturating_sub(1);
        self.sound = self.sound.saturating_sub(1);
    }
}

} // verus!
