use super::opcode::Opcode;
use super::VmError;
use vstd::arithmetic::div_mod::{
    lemma_fundamental_div_mod, lemma_fundamental_div_mod_converse, lemma_mod_bound,
};
use vstd::prelude::*;

verus! {

/// The mathematical model of the whole machine state.
///
/// Every contract of the machine speaks of this model, reached through the
/// view operator `@`.
#[verifier::ext_equal]
pub ghost struct VmState {
    /// The 4096 bytes of addressable memory.
    pub ram: Seq<u8>,
    /// Address of the next instruction to fetch.
    pub pc: u16,
    /// The index register used by memory-indexed instructions.
    pub i: u16,
    /// The delay timer, decremented towards zero by timer ticks.
    pub delay: u8,
    /// The sound timer, decremented towards zero by timer ticks.
    pub sound: u8,
    /// The sixteen general-purpose registers `V0`..`VF`.
    pub v: Seq<u8>,
    /// The call stack of return addresses, newest last.
    pub stack: Seq<u16>,
    /// While set, stepping is a no-op until a key-down event arrives.
    pub is_waiting: bool,
    /// The register that receives the key index that ends a wait.
    pub vx_after_wait: u8,
    /// The 64x32 display cells, row-major; `true` is lit.
    pub display: Seq<bool>,
    /// The sixteen key states; `true` is pressed.
    pub keys: Seq<bool>,
}

impl VmState {
    /// The structural invariant of the machine state: fixed sizes for memory,
    /// registers, display and keypad, and a register index as wait target.
    pub open spec fn wf(self) -> bool {
        &&& self.ram.len() == 4096
        &&& self.v.len() == 16
        &&& self.display.len() == 2048
        &&& self.keys.len() == 16
        &&& self.vx_after_wait < 16
    }
}

/// The 80-byte hexadecimal font table: sixteen 4x5-pixel glyphs for the
/// digits 0 to F, five bytes each, written at address 0 at initialization.
pub open spec fn font_data() -> Seq<u8> {
    seq![
        0xf0u8, 0x90, 0x90, 0x90, 0xf0,  // 0
        0x20, 0x60, 0x20, 0x20, 0x70,  // 1
        0xf0, 0x10, 0xf0, 0x80, 0xf0,  // 2
        0xf0, 0x10, 0xf0, 0x10, 0xf0,  // 3
        0x90, 0x90, 0xf0, 0x10, 0x10,  // 4
        0xf0, 0x80, 0xf0, 0x10, 0x10,  // 5
        0xf0, 0x80, 0xf0, 0x90, 0xf0,  // 6
        0xf0, 0x10, 0x20, 0x40, 0x40,  // 7
        0xf0, 0x90, 0xf0, 0x90, 0xf0,  // 8
        0xf0, 0x90, 0xf0, 0x10, 0xf0,  // 9
        0xf0, 0x90, 0xf0, 0x90, 0x90,  // A
        0xe0, 0x90, 0xe0, 0x90, 0xe0,  // B
        0xf0, 0x80, 0x80, 0x80, 0xf0,  // C
        0xe0, 0x90, 0x90, 0x90, 0xe0,  // D
        0xf0, 0x80, 0xf0, 0x80, 0xf0,  // E
        0xf0, 0x80, 0xf0, 0x80, 0x80,  // F
    ]
}

/// The machine state right after initialization with the program image
/// `rom`: the font at address 0, the image at 0x200, everything else zeroed,
/// and the program counter at the load address.
pub open spec fn init_state(rom: Seq<u8>) -> VmState {
    VmState {
        ram: Seq::new(
            4096,
            |j: int|
                if 0 <= j < 80 {
                    font_data()[j]
                } else if 0x200 <= j < 0x200 + rom.len() {
                    rom[j - 0x200]
                } else {
                    0u8
                },
        ),
        pc: 0x200,
        i: 0,
        delay: 0,
        sound: 0,
        v: Seq::new(16, |j: int| 0u8),
        stack: Seq::empty(),
        is_waiting: false,
        vx_after_wait: 0,
        display: Seq::new(2048, |j: int| false),
        keys: Seq::new(16, |j: int| false),
    }
}

/// Reading one byte at `pc`: the program counter advances by one (wrapping
/// at 16 bits) whether or not the read is in bounds; an out-of-bounds read
/// faults with the address it touched.
pub open spec fn read_byte_s(s: VmState) -> (VmState, Result<u8, VmError>) {
    let s1 = VmState {
        pc: if s.pc == 0xffff {
            0u16
        } else {
            ((s.pc + 1) as u16)
        },
        ..s
    };
    if s.pc < 4096 {
        (s1, Ok(s.ram[s.pc as int]))
    } else {
        (s1, Err(VmError::InvalidAddress(s.pc)))
    }
}

/// The big-endian 16-bit word formed by two consecutive bytes.
pub open spec fn word_be(hi: u8, lo: u8) -> u16 {
    ((hi * 256 + lo) as u16)
}

/// Fetching one instruction word: two byte reads at `pc` and `pc + 1`, each
/// advancing `pc`; the first out-of-bounds read faults and ends the fetch.
pub open spec fn fetch_s(s: VmState) -> (VmState, Result<u16, VmError>) {
    let (s1, r1) = read_byte_s(s);
    match r1 {
        Err(e) => (s1, Err(e)),
        Ok(hi) => {
            let (s2, r2) = read_byte_s(s1);
            match r2 {
                Err(e) => (s2, Err(e)),
                Ok(lo) => (s2, Ok(word_be(hi, lo))),
            }
        },
    }
}

/// Clear screen: every display cell unlit.
pub open spec fn eff_clear_screen(s: VmState) -> VmState {
    VmState { display: Seq::new(2048, |j: int| false), ..s }
}

/// Return: pops the call stack into `pc`; faults on an empty stack, leaving
/// the state unchanged.
pub open spec fn eff_ret(s: VmState) -> (VmState, Result<(), VmError>) {
    if s.stack.len() == 0 {
        (s, Err(VmError::EmptyStack))
    } else {
        (VmState { pc: s.stack.last(), stack: s.stack.drop_last(), ..s }, Ok(()))
    }
}

/// Jump: `pc` becomes the address operand.
pub open spec fn eff_jump(s: VmState, addr: u16) -> VmState {
    VmState { pc: addr, ..s }
}

/// Call: pushes the current `pc` and jumps. The call stack is unbounded; a
/// call always succeeds.
pub open spec fn eff_call(s: VmState, addr: u16) -> VmState {
    VmState { pc: addr, stack: s.stack.push(s.pc), ..s }
}

/// Skip the next instruction (advance `pc` by two) when `cond` holds.
pub open spec fn eff_skip_if(s: VmState, cond: bool) -> VmState {
    if cond {
        VmState { pc: ((s.pc + 2) as u16), ..s }
    } else {
        s
    }
}

/// Load immediate: `Vx := kk`.
pub open spec fn eff_load_vx(s: VmState, x: u8, kk: u8) -> VmState {
    VmState { v: s.v.update(x as int, kk), ..s }
}

/// Add immediate: `Vx := Vx + kk` wrapping modulo 256, no flag effect.
pub open spec fn eff_add_vx(s: VmState, x: u8, kk: u8) -> VmState {
    VmState { v: s.v.update(x as int, (((s.v[x as int] + kk) % 256) as u8)), ..s }
}

/// Register copy: `Vx := Vy`.
pub open spec fn eff_load_vx_vy(s: VmState, x: u8, y: u8) -> VmState {
    VmState { v: s.v.update(x as int, s.v[y as int]), ..s }
}

/// Bitwise or: `Vx := Vx | Vy`.
pub open spec fn eff_or(s: VmState, x: u8, y: u8) -> VmState {
    VmState { v: s.v.update(x as int, s.v[x as int] | s.v[y as int]), ..s }
}

/// Bitwise and: `Vx := Vx & Vy`.
pub open spec fn eff_and(s: VmState, x: u8, y: u8) -> VmState {
    VmState { v: s.v.update(x as int, s.v[x as int] & s.v[y as int]), ..s }
}

/// Bitwise xor: `Vx := Vx ^ Vy`.
pub open spec fn eff_xor(s: VmState, x: u8, y: u8) -> VmState {
    VmState { v: s.v.update(x as int, s.v[x as int] ^ s.v[y as int]), ..s }
}

/// Register add: `Vx := Vx + Vy` wrapping; `VF` becomes 1 exactly when the
/// sum overflowed 8 bits. The flag is written last, so it wins when `x` is
/// 0xF.
pub open spec fn eff_add_vx_vy(s: VmState, x: u8, y: u8) -> VmState {
    let sum = s.v[x as int] + s.v[y as int];
    let carry: u8 = if sum > 255 { 1u8 } else { 0u8 };
    VmState { v: s.v.update(x as int, ((sum % 256) as u8)).update(0xf, carry), ..s }
}

/// Register subtract: `Vx := Vx - Vy` wrapping; `VF` becomes 1 exactly when
/// no borrow occurred (`Vx >= Vy` beforehand). The flag is written last.
pub open spec fn eff_sub_vx_vy(s: VmState, x: u8, y: u8) -> VmState {
    let a = s.v[x as int];
    let b = s.v[y as int];
    let diff: u8 = if a >= b { ((a - b) as u8) } else { ((a + 256 - b) as u8) };
    let no_borrow: u8 = if a >= b { 1u8 } else { 0u8 };
    VmState { v: s.v.update(x as int, diff).update(0xf, no_borrow), ..s }
}

/// Reverse subtract: `Vx := Vy - Vx` wrapping; `VF` becomes 1 exactly when
/// no borrow occurred (`Vy >= Vx` beforehand). The flag is written last.
pub open spec fn eff_subn_vy_vx(s: VmState, x: u8, y: u8) -> VmState {
    let a = s.v[y as int];
    let b = s.v[x as int];
    let diff: u8 = if a >= b { ((a - b) as u8) } else { ((a + 256 - b) as u8) };
    let no_borrow: u8 = if a >= b { 1u8 } else { 0u8 };
    VmState { v: s.v.update(x as int, diff).update(0xf, no_borrow), ..s }
}

/// Shift right: `Vx := Vy >> 1`; `VF` becomes the bit shifted out (the low
/// bit of `Vy`). The flag is written last.
pub open spec fn eff_shift_right(s: VmState, x: u8, y: u8) -> VmState {
    let b = s.v[y as int];
    VmState { v: s.v.update(x as int, ((b / 2) as u8)).update(0xf, ((b % 2) as u8)), ..s }
}

/// Shift left: `Vx := Vy << 1` wrapping to 8 bits; `VF` becomes the bit
/// shifted out (the high bit of `Vy`). The flag is written last.
pub open spec fn eff_shift_left(s: VmState, x: u8, y: u8) -> VmState {
    let b = s.v[y as int];
    VmState { v: s.v.update(x as int, (((b * 2) % 256) as u8)).update(0xf, ((b / 128) as u8)), ..s }
}

/// Load index register: `i` becomes the address operand.
pub open spec fn eff_load_i(s: VmState, addr: u16) -> VmState {
    VmState { i: addr, ..s }
}

/// Jump with offset: `pc := addr + V0`. The address operand fits in 12 bits,
/// so the 16-bit sum never overflows.
pub open spec fn eff_jump_offset(s: VmState, addr: u16) -> VmState {
    VmState { pc: ((addr + s.v[0]) as u16), ..s }
}

/// Random: `Vx := rb & kk` for the byte `rb` the injected source returned.
pub open spec fn eff_rand(s: VmState, x: u8, kk: u8, rb: u8) -> VmState {
    VmState { v: s.v.update(x as int, rb & kk), ..s }
}

/// Whether `post` is `pre` after the random instruction wrote some byte,
/// masked with `kk`, into `Vx`.
pub open spec fn rand_matches(pre: VmState, x: u8, kk: u8, post: VmState) -> bool {
    exists|rb: u8| post == #[trigger] eff_rand(pre, x, kk, rb)
}

/// Bit `col` of a sprite row byte, counting column 0 as the leftmost pixel
/// (the most significant bit).
pub open spec fn sprite_bit(b: u8, col: int) -> bool {
    b & (0x80u8 >> (col as u8)) != 0
}

/// The row-major display cell that sprite pixel (`row`, `col`) of a sprite
/// anchored at (`px`, `py`) lands on: both axes wrap independently, columns
/// modulo 64 and rows modulo 32.
pub open spec fn display_index(px: u8, py: u8, row: int, col: int) -> int {
    ((py + row) % 32) * 64 + ((px + col) % 64)
}

/// Whether some set pixel of the sprite lands on display cell `idx`.
pub open spec fn sprite_covers(px: u8, py: u8, sprite: Seq<u8>, idx: int) -> bool {
    exists|row: int, col: int|
        {
            &&& 0 <= row < sprite.len()
            &&& 0 <= col < 8
            &&& sprite_bit(sprite[row], col)
            &&& idx == #[trigger] display_index(px, py, row, col)
        }
}

/// Whether drawing the sprite turns some previously lit cell unlit.
pub open spec fn sprite_collides(px: u8, py: u8, sprite: Seq<u8>, display: Seq<bool>) -> bool {
    exists|idx: int| 0 <= idx < 2048 && #[trigger] sprite_covers(px, py, sprite, idx) && display[idx]
}

/// Whether some set pixel among the first `k` sprite pixels, in row-major
/// order (pixel `j` is row `j / 8`, column `j % 8`), lands on display cell
/// `idx`.
pub open spec fn sprite_covers_upto(px: u8, py: u8, sprite: Seq<u8>, idx: int, k: int) -> bool {
    exists|row: int, col: int|
        {
            &&& 0 <= row < sprite.len()
            &&& 0 <= col < 8
            &&& row * 8 + col < k
            &&& sprite_bit(sprite[row], col)
            &&& idx == #[trigger] display_index(px, py, row, col)
        }
}

/// Whether drawing the first `k` sprite pixels turns some lit cell of
/// `display` unlit.
pub open spec fn sprite_collides_upto(
    px: u8,
    py: u8,
    sprite: Seq<u8>,
    display: Seq<bool>,
    k: int,
) -> bool {
    exists|idx: int|
        0 <= idx < 2048 && #[trigger] sprite_covers_upto(px, py, sprite, idx, k) && display[idx]
}

/// Distinct sprite pixels land on distinct display cells: rows stay distinct
/// modulo 32 because a sprite has at most 16 rows, and columns stay distinct
/// modulo 64 because a sprite is 8 pixels wide.
pub proof fn lemma_display_index_injective(px: u8, py: u8, r1: int, c1: int, r2: int, c2: int)
    requires
        0 <= r1 < 16,
        0 <= c1 < 8,
        0 <= r2 < 16,
        0 <= c2 < 8,
        display_index(px, py, r1, c1) == display_index(px, py, r2, c2),
    ensures
        r1 == r2,
        c1 == c2,
{
    let x1 = (px + c1) % 64;
    let x2 = (px + c2) % 64;
    let y1 = (py + r1) % 32;
    let y2 = (py + r2) % 32;
    lemma_mod_bound(px + c1, 64);
    lemma_mod_bound(px + c2, 64);
    lemma_mod_bound(py + r1, 32);
    lemma_mod_bound(py + r2, 32);
    assert(y1 * 64 + x1 == y2 * 64 + x2);
    assert(x1 == x2 && y1 == y2);
    lemma_fundamental_div_mod(px + c1, 64);
    lemma_fundamental_div_mod(px + c2, 64);
    assert(c1 - c2 == 64 * ((px + c1) / 64 - (px + c2) / 64));
    lemma_fundamental_div_mod(py + r1, 32);
    lemma_fundamental_div_mod(py + r2, 32);
    assert(r1 - r2 == 32 * ((py + r1) / 32 - (py + r2) / 32));
}

/// Extending the drawn prefix by one pixel covers exactly the cells covered
/// before, plus — when pixel `k` is set — the cell pixel `k` lands on.
pub proof fn lemma_covers_upto_step(px: u8, py: u8, sprite: Seq<u8>, k: int)
    requires
        sprite.len() <= 16,
        0 <= k < 8 * sprite.len(),
    ensures
        forall|idx: int|
            sprite_covers_upto(px, py, sprite, idx, k + 1) <==> (sprite_covers_upto(
                px,
                py,
                sprite,
                idx,
                k,
            ) || (sprite_bit(sprite[k / 8], k % 8) && idx == display_index(
                px,
                py,
                k / 8,
                k % 8,
            ))),
{
    let kr = k / 8;
    let kc = k % 8;
    lemma_fundamental_div_mod(k, 8);
    lemma_mod_bound(k, 8);
    assert(kr < sprite.len());
    assert forall|idx: int|
        sprite_covers_upto(px, py, sprite, idx, k + 1) implies (sprite_covers_upto(
        px,
        py,
        sprite,
        idx,
        k,
    ) || (sprite_bit(sprite[kr], kc) && idx == display_index(px, py, kr, kc))) by {
        let (row, col) = choose|row: int, col: int|
            {
                &&& 0 <= row < sprite.len()
                &&& 0 <= col < 8
                &&& row * 8 + col < k + 1
                &&& sprite_bit(sprite[row], col)
                &&& idx == #[trigger] display_index(px, py, row, col)
            };
        if row * 8 + col == k {
            lemma_fundamental_div_mod_converse(k, 8, row, col);
        }
    }
    assert forall|idx: int|
        (sprite_covers_upto(px, py, sprite, idx, k) || (sprite_bit(sprite[kr], kc) && idx
            == display_index(px, py, kr, kc))) implies sprite_covers_upto(
        px,
        py,
        sprite,
        idx,
        k + 1,
    ) by {
        if sprite_covers_upto(px, py, sprite, idx, k) {
            let (row, col) = choose|row: int, col: int|
                {
                    &&& 0 <= row < sprite.len()
                    &&& 0 <= col < 8
                    &&& row * 8 + col < k
                    &&& sprite_bit(sprite[row], col)
                    &&& idx == #[trigger] display_index(px, py, row, col)
                };
            assert(sprite_covers_upto(px, py, sprite, idx, k + 1));
        } else {
            assert(kr * 8 + kc < k + 1);
            assert(sprite_covers_upto(px, py, sprite, idx, k + 1));
        }
    }
}

/// After all `8 * len` pixels the drawn prefix covers exactly what the whole
/// sprite covers.
pub proof fn lemma_covers_upto_full(px: u8, py: u8, sprite: Seq<u8>)
    requires
        sprite.len() <= 16,
    ensures
        forall|idx: int|
            sprite_covers_upto(px, py, sprite, idx, 8 * sprite.len() as int) <==> #[trigger] sprite_covers(
                px,
                py,
                sprite,
                idx,
            ),
{
}

/// No cell is covered before any pixel has been drawn.
pub proof fn lemma_covers_upto_zero(px: u8, py: u8, sprite: Seq<u8>)
    ensures
        forall|idx: int| !sprite_covers_upto(px, py, sprite, idx, 0),
{
}

/// The cell a sprite pixel lands on is a valid display index.
pub proof fn lemma_display_index_bounds(px: u8, py: u8, row: int, col: int)
    requires
        0 <= row,
        0 <= col,
    ensures
        0 <= display_index(px, py, row, col) < 2048,
{
    lemma_mod_bound(px + col, 64);
    lemma_mod_bound(py + row, 32);
}

/// Extending the drawn prefix by one pixel collides exactly when the prefix
/// already collided or pixel `k` is set and lands on a lit cell.
pub proof fn lemma_collides_upto_step(px: u8, py: u8, sprite: Seq<u8>, display: Seq<bool>, k: int)
    requires
        sprite.len() <= 16,
        0 <= k < 8 * sprite.len(),
        display.len() == 2048,
    ensures
        sprite_collides_upto(px, py, sprite, display, k + 1) <==> (sprite_collides_upto(
            px,
            py,
            sprite,
            display,
            k,
        ) || (sprite_bit(sprite[k / 8], k % 8) && display[display_index(px, py, k / 8, k % 8)])),
{
    lemma_covers_upto_step(px, py, sprite, k);
    let kr = k / 8;
    let kc = k % 8;
    lemma_fundamental_div_mod(k, 8);
    lemma_mod_bound(k, 8);
    let m = display_index(px, py, kr, kc);
    lemma_display_index_bounds(px, py, kr, kc);
    if sprite_collides_upto(px, py, sprite, display, k + 1) {
        let idx = choose|idx: int|
            0 <= idx < 2048 && #[trigger] sprite_covers_upto(px, py, sprite, idx, k + 1)
                && display[idx];
        if sprite_covers_upto(px, py, sprite, idx, k) {
            assert(sprite_collides_upto(px, py, sprite, display, k));
        } else {
            assert(idx == m && sprite_bit(sprite[kr], kc));
        }
    }
    if sprite_collides_upto(px, py, sprite, display, k) {
        let idx = choose|idx: int|
            0 <= idx < 2048 && #[trigger] sprite_covers_upto(px, py, sprite, idx, k)
                && display[idx];
        assert(sprite_covers_upto(px, py, sprite, idx, k + 1));
        assert(sprite_collides_upto(px, py, sprite, display, k + 1));
    }
    if sprite_bit(sprite[kr], kc) && display[m] {
        assert(sprite_covers_upto(px, py, sprite, m, k + 1));
        assert(sprite_collides_upto(px, py, sprite, display, k + 1));
    }
}

/// After all `8 * len` pixels the drawn prefix collides exactly when the
/// whole sprite collides.
pub proof fn lemma_collides_upto_full(px: u8, py: u8, sprite: Seq<u8>, display: Seq<bool>)
    requires
        sprite.len() <= 16,
    ensures
        sprite_collides_upto(px, py, sprite, display, 8 * sprite.len() as int)
            <==> sprite_collides(px, py, sprite, display),
{
    lemma_covers_upto_full(px, py, sprite);
    let full = 8 * sprite.len() as int;
    if sprite_collides_upto(px, py, sprite, display, full) {
        let idx = choose|idx: int|
            0 <= idx < 2048 && #[trigger] sprite_covers_upto(px, py, sprite, idx, full)
                && display[idx];
        assert(sprite_covers(px, py, sprite, idx));
        assert(sprite_collides(px, py, sprite, display));
    }
    if sprite_collides(px, py, sprite, display) {
        let idx = choose|idx: int|
            0 <= idx < 2048 && #[trigger] sprite_covers(px, py, sprite, idx) && display[idx];
        assert(sprite_covers_upto(px, py, sprite, idx, full));
        assert(sprite_collides_upto(px, py, sprite, display, full));
    }
}

/// Draw: clears `VF` first, then reads the `n`-byte sprite at `i` and xors
/// its set pixels onto the display, wrapping per axis; `VF` ends 1 exactly
/// when a lit cell was erased. When the sprite bytes reach past the end of
/// memory nothing is drawn and the first out-of-bounds address faults — `VF`
/// has already been cleared. The anchor registers are read after the clear,
/// so an anchor register of 0xF reads 0.
pub open spec fn eff_display(s: VmState, x: u8, y: u8, n: u8) -> (VmState, Result<(), VmError>) {
    let s0 = VmState { v: s.v.update(0xf, 0u8), ..s };
    if s.i + n > 4096 {
        (s0, Err(VmError::InvalidAddress(if s.i >= 4096 { s.i } else { 4096u16 })))
    } else {
        let px = s0.v[x as int];
        let py = s0.v[y as int];
        let sprite = s.ram.subrange(s.i as int, s.i + n);
        let display = Seq::new(
            2048,
            |idx: int|
                if sprite_covers(px, py, sprite, idx) {
                    !s.display[idx]
                } else {
                    s.display[idx]
                },
        );
        let vf: u8 = if sprite_collides(px, py, sprite, s.display) {
            1u8
        } else {
            0u8
        };
        (VmState { display: display, v: s0.v.update(0xf, vf), ..s }, Ok(()))
    }
}

/// Skip if the key indexed by `Vx` is down; a key index of 16 or more
/// faults, leaving the state unchanged.
pub open spec fn eff_skip_if_key(s: VmState, x: u8) -> (VmState, Result<(), VmError>) {
    let key = s.v[x as int];
    if key >= 16 {
        (s, Err(VmError::InvalidKey(key)))
    } else {
        (eff_skip_if(s, s.keys[key as int]), Ok(()))
    }
}

/// Skip if the key indexed by `Vx` is up; a key index of 16 or more faults,
/// leaving the state unchanged.
pub open spec fn eff_skip_if_not_key(s: VmState, x: u8) -> (VmState, Result<(), VmError>) {
    let key = s.v[x as int];
    if key >= 16 {
        (s, Err(VmError::InvalidKey(key)))
    } else {
        (eff_skip_if(s, !s.keys[key as int]), Ok(()))
    }
}

/// Load delay timer into a register: `Vx := delay`.
pub open spec fn eff_load_delay(s: VmState, x: u8) -> VmState {
    VmState { v: s.v.update(x as int, s.delay), ..s }
}

/// Wait for key: records `Vx` as the wait target and suspends stepping; `pc`
/// keeps the advance the fetch already made.
pub open spec fn eff_wait_for_key(s: VmState, x: u8) -> VmState {
    VmState { is_waiting: true, vx_after_wait: x, ..s }
}

/// Store a register into the delay timer: `delay := Vx`.
pub open spec fn eff_store_delay(s: VmState, x: u8) -> VmState {
    VmState { delay: s.v[x as int], ..s }
}

/// Store a register into the sound timer: `sound := Vx`.
pub open spec fn eff_store_sound(s: VmState, x: u8) -> VmState {
    VmState { sound: s.v[x as int], ..s }
}

/// Add a register to the index register: `i := i + Vx` wrapping at 16 bits,
/// with no flag effect.
pub open spec fn eff_add_i(s: VmState, x: u8) -> VmState {
    VmState { i: (((s.i + s.v[x as int]) % 0x10000) as u16), ..s }
}

/// Load font digit address: `i := (Vx & 0xF) * 5`, the address of the glyph
/// for the low nibble of `Vx`.
pub open spec fn eff_load_digit(s: VmState, x: u8) -> VmState {
    VmState { i: (((s.v[x as int] % 16) * 5) as u16), ..s }
}

/// Store the binary-coded-decimal digits of `Vx` at `i`, `i + 1`, `i + 2`:
/// hundreds, tens, ones. The writes happen in that order and the first one
/// that falls outside memory faults with its address, keeping the writes
/// already made.
pub open spec fn eff_bcd(s: VmState, x: u8) -> (VmState, Result<(), VmError>) {
    let value = s.v[x as int];
    let hundreds: u8 = ((value / 100) as u8);
    let tens: u8 = (((value / 10) % 10) as u8);
    let ones: u8 = ((value % 10) as u8);
    if s.i >= 4096 {
        (s, Err(VmError::InvalidAddress(s.i)))
    } else if s.i + 1 >= 4096 {
        (
            VmState { ram: s.ram.update(s.i as int, hundreds), ..s },
            Err(VmError::InvalidAddress(((s.i + 1) as u16))),
        )
    } else if s.i + 2 >= 4096 {
        (
            VmState { ram: s.ram.update(s.i as int, hundreds).update(s.i + 1, tens), ..s },
            Err(VmError::InvalidAddress(((s.i + 2) as u16))),
        )
    } else {
        (
            VmState {
                ram: s.ram.update(s.i as int, hundreds).update(s.i + 1, tens).update(
                    s.i + 2,
                    ones,
                ),
                ..s
            },
            Ok(()),
        )
    }
}

/// How many of the `count` sequential byte accesses starting at address `i`
/// stay inside memory.
pub open spec fn writable_prefix(i: u16, count: int) -> int {
    if i >= 4096 {
        0
    } else if 4096 - i >= count {
        count
    } else {
        4096 - i
    }
}

/// Store registers `V0..=Vx` at `i`, one byte per register, `i` advancing
/// once per byte written. A write that falls outside memory faults with its
/// address, keeping the writes already made and the advanced `i`.
pub open spec fn eff_store_registers(s: VmState, x: u8) -> (VmState, Result<(), VmError>) {
    let count = x + 1;
    let k = writable_prefix(s.i, count);
    let ram = Seq::new(
        4096,
        |j: int| if s.i <= j < s.i + k { s.v[j - s.i] } else { s.ram[j] },
    );
    let s1 = VmState { ram: ram, i: ((s.i + k) as u16), ..s };
    if k == count {
        (s1, Ok(()))
    } else {
        (s1, Err(VmError::InvalidAddress(((s.i + k) as u16))))
    }
}

/// Load registers `V0..=Vx` from memory at `i`, one byte per register, `i`
/// advancing once per byte read. A read that falls outside memory faults
/// with its address, keeping the registers already loaded and the advanced
/// `i`.
pub open spec fn eff_load_registers(s: VmState, x: u8) -> (VmState, Result<(), VmError>) {
    let count = x + 1;
    let k = writable_prefix(s.i, count);
    let v = Seq::new(16, |j: int| if 0 <= j < k { s.ram[s.i + j] } else { s.v[j] });
    let s1 = VmState { v: v, i: ((s.i + k) as u16), ..s };
    if k == count {
        (s1, Ok(()))
    } else {
        (s1, Err(VmError::InvalidAddress(((s.i + k) as u16))))
    }
}

/// Updating one key state with a valid key index: the key state is stored;
/// a key-down event during a pending wait also clears the wait flag and
/// writes the key index into the recorded target register.
pub open spec fn eff_set_key(s: VmState, key: u8, value: bool) -> VmState {
    let s1 = VmState { keys: s.keys.update(key as int, value), ..s };
    if value && s.is_waiting {
        VmState { is_waiting: false, v: s1.v.update(s1.vx_after_wait as int, key), ..s1 }
    } else {
        s1
    }
}

/// The state transition and result of executing one decoded instruction on a
/// fetched state, with `rb` the byte the random source returned (read only
/// by the random instruction).
pub open spec fn exec_spec(s: VmState, op: Opcode, rb: u8) -> (VmState, Result<(), VmError>) {
    match op {
        Opcode::NoOp => (s, Ok(())),
        Opcode::ClearScreen => (eff_clear_screen(s), Ok(())),
        Opcode::Ret => eff_ret(s),
        Opcode::Jump(addr) => (eff_jump(s, addr), Ok(())),
        Opcode::Call(addr) => (eff_call(s, addr), Ok(())),
        Opcode::SkipIfEq(x, kk) => (eff_skip_if(s, s.v[x as int] == kk), Ok(())),
        Opcode::SkipIfNeq(x, kk) => (eff_skip_if(s, s.v[x as int] != kk), Ok(())),
        Opcode::SkipEqVxVy(x, y) => (eff_skip_if(s, s.v[x as int] == s.v[y as int]), Ok(())),
        Opcode::SkipNeqVxVy(x, y) => (eff_skip_if(s, s.v[x as int] != s.v[y as int]), Ok(())),
        Opcode::LoadVx(x, kk) => (eff_load_vx(s, x, kk), Ok(())),
        Opcode::AddVx(x, kk) => (eff_add_vx(s, x, kk), Ok(())),
        Opcode::LoadVxVy(x, y) => (eff_load_vx_vy(s, x, y), Ok(())),
        Opcode::Or(x, y) => (eff_or(s, x, y), Ok(())),
        Opcode::And(x, y) => (eff_and(s, x, y), Ok(())),
        Opcode::Xor(x, y) => (eff_xor(s, x, y), Ok(())),
        Opcode::Add(x, y) => (eff_add_vx_vy(s, x, y), Ok(())),
        Opcode::Sub(x, y) => (eff_sub_vx_vy(s, x, y), Ok(())),
        Opcode::ShiftR(x, y) => (eff_shift_right(s, x, y), Ok(())),
        Opcode::SubN(x, y) => (eff_subn_vy_vx(s, x, y), Ok(())),
        Opcode::ShiftL(x, y) => (eff_shift_left(s, x, y), Ok(())),
        Opcode::LoadI(addr) => (eff_load_i(s, addr), Ok(())),
        Opcode::JumpOffset(addr) => (eff_jump_offset(s, addr), Ok(())),
        Opcode::Rand(x, kk) => (eff_rand(s, x, kk, rb), Ok(())),
        Opcode::Display(x, y, n) => eff_display(s, x, y, n),
        Opcode::SkipIfKey(x) => eff_skip_if_key(s, x),
        Opcode::SkipIfNotKey(x) => eff_skip_if_not_key(s, x),
        Opcode::LoadDelay(x) => (eff_load_delay(s, x), Ok(())),
        Opcode::WaitForKey(x) => (eff_wait_for_key(s, x), Ok(())),
        Opcode::StoreDelay(x) => (eff_store_delay(s, x), Ok(())),
        Opcode::StoreSound(x) => (eff_store_sound(s, x), Ok(())),
        Opcode::AddI(x) => (eff_add_i(s, x), Ok(())),
        Opcode::LoadDigit(x) => (eff_load_digit(s, x), Ok(())),
        Opcode::Bcd(x) => eff_bcd(s, x),
        Opcode::StoreRegisters(x) => eff_store_registers(s, x),
        Opcode::LoadRegisters(x) => eff_load_registers(s, x),
    }
}

/// Whether executing `op` on `s` with random byte `rb` produces exactly the
/// state `post` and the result `r`.
pub open spec fn exec_matches(
    s: VmState,
    op: Opcode,
    rb: u8,
    post: VmState,
    r: Result<(), VmError>,
) -> bool {
    let (s2, r2) = exec_spec(s, op, rb);
    post == s2 && r == r2
}

/// The full contract of one step: a waiting machine does nothing; otherwise
/// the machine fetches (faulting on an out-of-bounds program counter),
/// decodes (faulting on an unmatched word), and executes the instruction
/// with some byte from the random source.
///
/// Opaque so that callers can hand the fact to the step lemmas unchanged;
/// proofs that need its content reveal it.
#[verifier::opaque]
pub open spec fn tick_post(pre: VmState, post: VmState, r: Result<(), VmError>) -> bool {
    if pre.is_waiting {
        post == pre && r == Ok::<(), VmError>(())
    } else {
        let (s1, fr) = fetch_s(pre);
        match fr {
            Err(e) => post == s1 && r == Err::<(), VmError>(e),
            Ok(word) => match super::opcode::spec_decode(word) {
                None => post == s1 && r == Err::<(), VmError>(VmError::InvalidOpcode(word)),
                Some(op) => exists|rb: u8| #[trigger] exec_matches(s1, op, rb, post, r),
            },
        }
    }
}

} // verus!
