use super::opcode::{spec_decode, Opcode};
use super::state::{
    display_index, eff_display, eff_load_registers, eff_store_registers, fetch_s,
    lemma_display_index_bounds, sprite_bit, sprite_collides, sprite_covers, tick_post, word_be,
    VmState,
};
use super::VmError;
use vstd::prelude::*;

verus! {

/// While the wait-for-key state is set, stepping is a no-op: the step
/// succeeds and every part of the machine state is unchanged.
pub proof fn lemma_wait_blocks_step(pre: VmState, post: VmState, r: Result<(), VmError>)
    requires
        pre.is_waiting,
        tick_post(pre, post, r),
    ensures
        post == pre,
        r == Ok::<(), VmError>(()),
{
    reveal(tick_post);
}

/// A step whose fetched word is the clear-screen instruction (0x00E0)
/// always succeeds, leaves every display cell unlit, and advances `pc` by
/// exactly 2.
pub proof fn lemma_clear_screen_step(pre: VmState, post: VmState, r: Result<(), VmError>)
    requires
        pre.wf(),
        !pre.is_waiting,
        pre.pc + 1 < 4096,
        word_be(pre.ram[pre.pc as int], pre.ram[pre.pc as int + 1]) == 0x00e0,
        tick_post(pre, post, r),
    ensures
        r == Ok::<(), VmError>(()),
        post.pc == pre.pc + 2,
        forall|idx: int| 0 <= idx < 2048 ==> !post.display[idx],
{
    reveal(tick_post);
    let (s1, fr) = fetch_s(pre);
    assert(fr == Ok::<u16, VmError>(0x00e0));
    assert((0x00e0u16 & 0xf000) >> 12 == 0) by (bit_vector);
    assert((0x00e0u16 & 0x0f00) >> 8 == 0) by (bit_vector);
    assert((0x00e0u16 & 0x00f0) >> 4 == 0xe) by (bit_vector);
    assert(0x00e0u16 & 0x000f == 0) by (bit_vector);
    assert(spec_decode(0x00e0) == Some(Opcode::ClearScreen));
    let rb = choose|rb: u8| super::state::exec_matches(s1, Opcode::ClearScreen, rb, post, r);
}

/// A step whose fetched word is the return instruction (0x00EE) on an empty
/// call stack yields the empty-stack fault and leaves the whole state as it
/// was right after the fetch: `pc` keeps only the fetch advance of 2, and
/// nothing else changes.
pub proof fn lemma_return_empty_stack(pre: VmState, post: VmState, r: Result<(), VmError>)
    requires
        pre.wf(),
        !pre.is_waiting,
        pre.pc + 1 < 4096,
        word_be(pre.ram[pre.pc as int], pre.ram[pre.pc as int + 1]) == 0x00ee,
        pre.stack.len() == 0,
        tick_post(pre, post, r),
    ensures
        r == Err::<(), VmError>(VmError::EmptyStack),
        post == (VmState { pc: ((pre.pc + 2) as u16), ..pre }),
        post.pc == pre.pc + 2,
{
    reveal(tick_post);
    let (s1, fr) = fetch_s(pre);
    assert(fr == Ok::<u16, VmError>(0x00ee));
    assert((0x00eeu16 & 0xf000) >> 12 == 0) by (bit_vector);
    assert((0x00eeu16 & 0x0f00) >> 8 == 0) by (bit_vector);
    assert((0x00eeu16 & 0x00f0) >> 4 == 0xe) by (bit_vector);
    assert(0x00eeu16 & 0x000f == 0xe) by (bit_vector);
    assert(spec_decode(0x00ee) == Some(Opcode::Ret));
    let rb = choose|rb: u8| super::state::exec_matches(s1, Opcode::Ret, rb, post, r);
    assert(post =~= (VmState { pc: ((pre.pc + 2) as u16), ..pre }));
}

/// A step that executes a wait-for-key instruction leaves `pc` advanced by
/// the fetch's 2 and suspends the machine with `Vx` recorded as the wait
/// target; registers, memory and display are untouched.
pub proof fn lemma_wait_for_key_step(pre: VmState, post: VmState, r: Result<(), VmError>, x: u8)
    requires
        pre.wf(),
        !pre.is_waiting,
        pre.pc + 1 < 4096,
        spec_decode(word_be(pre.ram[pre.pc as int], pre.ram[pre.pc as int + 1])) == Some(
            Opcode::WaitForKey(x),
        ),
        tick_post(pre, post, r),
    ensures
        r == Ok::<(), VmError>(()),
        post.is_waiting,
        post.vx_after_wait == x,
        post.pc == pre.pc + 2,
        post.v == pre.v,
        post.ram == pre.ram,
        post.display == pre.display,
{
    reveal(tick_post);
    let (s1, fr) = fetch_s(pre);
    let rb = choose|rb: u8| super::state::exec_matches(s1, Opcode::WaitForKey(x), rb, post, r);
}

/// Drawing a sprite twice with the same anchor registers and index register
/// restores the display: the draw is an exclusive-or, and each drawn cell is
/// toggled exactly once per draw. After the second draw the flag reports the
/// self-erasure: it is 1 exactly when some cell the sprite covers was unlit
/// before the first draw (the first draw lit it, the second erased it). In
/// particular, on a display that starts all unlit, a sprite with any set
/// pixel ends the second draw with the flag set. (When every covered cell
/// was already lit, the first draw erases them all and the second draw only
/// relights them, so the flag ends 0 there.)
///
/// The anchor registers must not be `VF`, which the draw itself overwrites.
pub proof fn lemma_draw_twice(s: VmState, x: u8, y: u8, n: u8)
    requires
        s.wf(),
        x < 16,
        y < 16,
        x != 0xf,
        y != 0xf,
        n < 16,
        s.i + n <= 4096,
    ensures
        ({
            let px = s.v[x as int];
            let py = s.v[y as int];
            let sprite = s.ram.subrange(s.i as int, s.i + n);
            let (s2, r2) = eff_display(s, x, y, n);
            let (s3, r3) = eff_display(s2, x, y, n);
            &&& r2 is Ok
            &&& r3 is Ok
            &&& s3.display == s.display
            &&& (s3.v[0xf] == 1 <==> exists|idx: int|
                0 <= idx < 2048 && #[trigger] sprite_covers(px, py, sprite, idx)
                    && !s.display[idx])
            &&& ((forall|idx: int| 0 <= idx < 2048 ==> !s.display[idx]) && (exists|row: int, col: int|
                0 <= row < n && 0 <= col < 8 && #[trigger] sprite_bit(sprite[row], col)))
                ==> s3.v[0xf] == 1
        }),
{
    let px = s.v[x as int];
    let py = s.v[y as int];
    let sprite = s.ram.subrange(s.i as int, s.i + n);
    let (s2, r2) = eff_display(s, x, y, n);
    let (s3, r3) = eff_display(s2, x, y, n);
    assert(s2.v.update(0xf, 0u8)[x as int] == px);
    assert(s2.v.update(0xf, 0u8)[y as int] == py);
    assert(s2.ram.subrange(s2.i as int, s2.i + n) == sprite);
    assert(s3.display =~= s.display);

    // the flag of the second draw, in terms of the display before the first
    if sprite_collides(px, py, sprite, s2.display) {
        let idx = choose|idx: int|
            0 <= idx < 2048 && #[trigger] sprite_covers(px, py, sprite, idx) && s2.display[idx];
        assert(s2.display[idx] == !s.display[idx]);
        assert(!s.display[idx]);
    }
    if exists|idx: int|
        0 <= idx < 2048 && #[trigger] sprite_covers(px, py, sprite, idx) && !s.display[idx] {
        let idx = choose|idx: int|
            0 <= idx < 2048 && #[trigger] sprite_covers(px, py, sprite, idx) && !s.display[idx];
        assert(s2.display[idx]);
        assert(sprite_collides(px, py, sprite, s2.display));
    }

    // a set pixel lands on some cell, unlit when the display starts clear
    if (forall|idx: int| 0 <= idx < 2048 ==> !s.display[idx]) && (exists|row: int, col: int|
        0 <= row < n && 0 <= col < 8 && #[trigger] sprite_bit(sprite[row], col)) {
        let (row, col) = choose|row: int, col: int|
            0 <= row < n && 0 <= col < 8 && #[trigger] sprite_bit(sprite[row], col);
        let m = display_index(px, py, row, col);
        lemma_display_index_bounds(px, py, row, col);
        assert(sprite_covers(px, py, sprite, m));
        assert(!s.display[m]);
    }
}

/// Register-block round trip: after storing `V0..=Vx` at the index address,
/// a machine holding that memory and the same index address loads the same
/// register values back, and the index register ends at the same place in
/// both directions.
pub proof fn lemma_register_block_round_trip(s: VmState, x: u8, t: VmState)
    requires
        s.wf(),
        t.wf(),
        x < 16,
        s.i + x + 1 <= 4096,
        t.ram == eff_store_registers(s, x).0.ram,
        t.i == s.i,
    ensures
        ({
            let (s2, r2) = eff_store_registers(s, x);
            let (s3, r3) = eff_load_registers(t, x);
            &&& r2 is Ok
            &&& r3 is Ok
            &&& s2.i == s.i + x + 1
            &&& s3.i == s2.i
            &&& forall|j: int| 0 <= j <= x ==> s3.v[j] == s.v[j]
        }),
{
}

} // verus!
