use vstd::prelude::*;
use crate::error::StepError;
use crate::font::{font, font_installed, glyph};
use crate::machine::{
    highest_key_down, is_set_delay_op, is_set_sound_op, op_class, op_kk, op_n, op_nnn, op_x, op_y,
    ticked, Machine,
};
use crate::sprite::{
    collides, draw, lemma_bit_lands, pixel_index, sprite_bit, sprite_covers, sprite_offset,
};

verus! {

/// The highest key that is down is down, no key above it is, and where none is
/// reported no key is down at all.
pub proof fn law_highest_key_down(keypad: Seq<bool>, below: int)
    requires
        0 <= below <= 256,
    ensures
        match highest_key_down(keypad, below) {
            Some(key) => 0 <= key < below && keypad[key as int] && forall|other: int|
                key < other < below ==> !keypad[other],
            None => forall|other: int| 0 <= other < below ==> !keypad[other],
        },
    decreases below,
{
    if below > 0 {
        law_highest_key_down(keypad, below - 1);
    }
}

/// The machine at power-on is well formed and holds the font.
pub proof fn law_initial_machine()
    ensures
        Machine::initial().wf(),
        font_installed(Machine::initial().memory),
{
    assert(Machine::initial().memory.subrange(0, 80) =~= font());
}

/// Loading a program keeps the machine well formed and leaves the font where it is.
/// The load succeeds exactly for an image of 1 to 3584 bytes.
pub proof fn law_load(m: Machine, rom: Seq<u8>)
    requires
        m.wf(),
    ensures
        m.load(rom) is Ok <==> 1 <= rom.len() <= 3584,
        m.load(rom) is Ok ==> m.load(rom)->Ok_0.wf(),
        m.load(rom) is Ok && font_installed(m.memory) ==> font_installed(m.load(rom)->Ok_0.memory),
{
    if m.load(rom) is Ok && font_installed(m.memory) {
        let loaded = m.load(rom)->Ok_0;
        assert forall|a: int| 0 <= a < 80 implies loaded.memory.subrange(0, 80)[a] == font()[a] by {
            assert(m.memory.subrange(0, 80)[a] == m.memory[a]);
        }
        assert(loaded.memory.subrange(0, 80) =~= font());
    }
}

/// Key events and timer ticks keep the machine well formed.
pub proof fn law_events_keep_wf(m: Machine, key: u8)
    requires
        m.wf(),
    ensures
        m.press(key).wf(),
        m.release(key).wf(),
        m.tick().wf(),
{
}

/// An instruction that was fetched and succeeds leaves a well-formed machine, and so
/// does a whole cycle.
pub proof fn law_cycle_keeps_wf(m: Machine, random: u8)
    requires
        m.wf(),
    ensures
        m.perform(random) is Ok ==> m.perform(random)->Ok_0.wf(),
        m.cycle(random) is Ok ==> m.cycle(random)->Ok_0.wf(),
{
    if m.perform(random) is Ok {
        let opcode = m.fetch()->Ok_0;
        let next = m.execute(opcode, random)->Ok_0;
        assert(next.wf());
    }
}

/// No instruction presses or releases a key: the keypad changes by key events alone.
pub proof fn law_instructions_keep_keypad(m: Machine, opcode: u16, random: u8)
    ensures
        m.execute(opcode, random) is Ok ==> m.execute(opcode, random)->Ok_0.keypad == m.keypad,
{
}

/// The call stack grows by a call alone and shrinks by a return alone; every other
/// instruction leaves it as it is.
pub proof fn law_stack_moves_by_call_and_return(m: Machine, opcode: u16, random: u8)
    requires
        m.execute(opcode, random) is Ok,
    ensures
        ({
            let next = m.execute(opcode, random)->Ok_0;
            if op_class(opcode) == 0x2 {
                next.stack == m.stack.push(m.pc)
            } else if opcode == 0x00EE {
                next.stack == m.stack.drop_last()
            } else {
                next.stack == m.stack
            }
        }),
{
}

/// Glyph lookup: with a digit `d` in register `x`, `Fx29` points I at `5 * d`, and the
/// five bytes there are glyph `d`, as long as the font is where power-on put it.
pub proof fn law_glyph_lookup(m: Machine, opcode: u16, random: u8)
    requires
        m.wf(),
        font_installed(m.memory),
        op_class(opcode) == 0xF,
        op_y(opcode) == 0x2,
        op_n(opcode) == 0x9,
        m.v[op_x(opcode)] < 16,
    ensures
        ({
            let digit = m.v[op_x(opcode)] as int;
            &&& m.execute(opcode, random) matches Ok(next)
            &&& next.i == 5 * digit
            &&& next.memory == m.memory
            &&& next.memory.subrange(next.i as int, next.i + 5) == glyph(digit)
        }),
{
    let digit = m.v[op_x(opcode)] as int;
    let next = m.execute(opcode, random)->Ok_0;
    assert forall|k: int| 0 <= k < 5 implies next.memory.subrange(5 * digit, 5 * digit + 5)[k]
        == glyph(digit)[k] by {
        assert(m.memory.subrange(0, 80)[5 * digit + k] == m.memory[5 * digit + k]);
    }
    assert(next.memory.subrange(5 * digit, 5 * digit + 5) =~= glyph(digit));
}

/// Adding an immediate: `7xkk` leaves in register `x` the sum modulo 256 and touches
/// no other register, so it writes no flag.
pub proof fn law_add_immediate(m: Machine, opcode: u16, random: u8)
    requires
        m.wf(),
        op_class(opcode) == 0x7,
    ensures
        ({
            let x = op_x(opcode);
            &&& m.execute(opcode, random) matches Ok(next)
            &&& next.v[x] == (m.v[x] + op_kk(opcode)) % 256
            &&& forall|r: int| 0 <= r < 16 && r != x ==> next.v[r] == m.v[r]
        }),
{
}

/// Carry: `8xy4` leaves in VF 1 if the sum went past 255 and 0 if it did not, and,
/// where `x` is not F, the sum modulo 256 in register `x`.
pub proof fn law_carry_flag(m: Machine, opcode: u16, random: u8)
    requires
        m.wf(),
        op_class(opcode) == 0x8,
        op_n(opcode) == 0x4,
    ensures
        ({
            let x = op_x(opcode);
            let sum = m.v[x] + m.v[op_y(opcode)];
            &&& m.execute(opcode, random) matches Ok(next)
            &&& next.v[0xF] == if sum > 255 {
                1int
            } else {
                0int
            }
            &&& x != 0xF ==> next.v[x] == sum % 256
        }),
{
}

/// Borrow: `8xy5` leaves in VF 0 if register `y` was the larger and 1 if it was not,
/// and, where `x` is not F, the difference modulo 256 in register `x`.
pub proof fn law_borrow_flag(m: Machine, opcode: u16, random: u8)
    requires
        m.wf(),
        op_class(opcode) == 0x8,
        op_n(opcode) == 0x5,
    ensures
        ({
            let x = op_x(opcode);
            let y = op_y(opcode);
            &&& m.execute(opcode, random) matches Ok(next)
            &&& next.v[0xF] == if m.v[x] < m.v[y] {
                0int
            } else {
                1int
            }
            &&& x != 0xF ==> next.v[x] == (m.v[x] - m.v[y]) % 256
        }),
{
}

/// Skip: `3xkk`, fetched at the program counter, moves it on by 4 if register `x`
/// holds `kk` and by 2 if it does not, and changes nothing else.
pub proof fn law_skip_if_equal(m: Machine, opcode: u16, random: u8)
    requires
        m.wf(),
        m.fetch() == Ok::<u16, StepError>(opcode),
        op_class(opcode) == 0x3,
    ensures
        ({
            let step = if m.v[op_x(opcode)] == op_kk(opcode) {
                4int
            } else {
                2int
            };
            &&& m.execute(opcode, random) matches Ok(next)
            &&& next.pc == m.pc + step
            &&& next == Machine { pc: next.pc, ..m }
            &&& m.cycle(random) matches Ok(after)
            &&& after.pc == m.pc + step
        }),
{
}

/// A set bit of the sprite lands on `p` exactly when some row and column of the sprite
/// hold a set bit whose destination is `p`.
pub proof fn law_sprite_covers(rows: Seq<u8>, vx: int, vy: int, p: int)
    requires
        rows.len() < 16,
        0 <= vx < 256,
        0 <= vy < 256,
        0 <= p < 2048,
    ensures
        sprite_covers(rows, vx, vy, p) <==> exists|row: int, col: int|
            0 <= row < rows.len() && 0 <= col < 8 && sprite_bit(rows[row], col)
                && #[trigger] pixel_index(vx, vy, row, col) == p,
{
    let offset = sprite_offset(vx, vy, p);
    if sprite_covers(rows, vx, vy, p) {
        lemma_bit_lands(vx, vy, offset / 64, offset % 64, p);
        assert(pixel_index(vx, vy, offset / 64, offset % 64) == p);
    }
    assert forall|row: int, col: int|
        0 <= row < rows.len() && 0 <= col < 8 && sprite_bit(rows[row], col)
            && #[trigger] pixel_index(vx, vy, row, col) == p
    implies sprite_covers(rows, vx, vy, p) by {
        lemma_bit_lands(vx, vy, row, col, p);
    }
}

/// Drawing is its own inverse: a sprite flips the pixels under its set bits, so
/// drawing it once more gives back the display that was there.
pub proof fn law_draw_is_involution(display: Seq<bool>, rows: Seq<u8>, vx: int, vy: int)
    ensures
        draw(draw(display, rows, vx, vy), rows, vx, vy) == display,
        collides(draw(display, rows, vx, vy), rows, vx, vy) <==> exists|p: int|
            0 <= p < display.len() && !display[p] && #[trigger] draw(display, rows, vx, vy)[p],
{
    let once = draw(display, rows, vx, vy);
    assert(draw(once, rows, vx, vy) =~= display);
    if collides(once, rows, vx, vy) {
        let p = choose|p: int|
            0 <= p < once.len() && #[trigger] once[p] && sprite_covers(rows, vx, vy, p);
        assert(!display[p] && draw(display, rows, vx, vy)[p]);
    }
    if exists|p: int|
        0 <= p < display.len() && !display[p] && #[trigger] draw(display, rows, vx, vy)[p] {
        let p = choose|p: int|
            0 <= p < display.len() && !display[p] && #[trigger] draw(display, rows, vx, vy)[p];
        assert(once[p] && sprite_covers(rows, vx, vy, p));
    }
}

/// Drawing twice: where `Dxyn` is executed twice in succession and the second draw is
/// at the position of the first, the display is back to what it was, and the second
/// draw sets VF exactly if the first had turned a pixel on.
///
/// The second draw is at the same position unless register F is one of the two
/// position registers and the first draw changed it.
pub proof fn law_draw_twice(m: Machine, opcode: u16, random: u8)
    requires
        m.wf(),
        op_class(opcode) == 0xD,
        m.execute(opcode, random) is Ok,
        m.execute(opcode, random)->Ok_0.v[op_x(opcode)] == m.v[op_x(opcode)],
        m.execute(opcode, random)->Ok_0.v[op_y(opcode)] == m.v[op_y(opcode)],
    ensures
        ({
            let once = m.execute(opcode, random)->Ok_0;
            &&& once.execute(opcode, random) matches Ok(twice)
            &&& twice.display == m.display
            &&& twice.v[0xF] == 1 <==> exists|p: int|
                0 <= p < 2048 && !m.display[p] && #[trigger] once.display[p]
            &&& twice.v[0xF] == 0 || twice.v[0xF] == 1
        }),
{
    let once = m.execute(opcode, random)->Ok_0;
    let n = op_n(opcode);
    assert(once.sprite_rows(n) =~= m.sprite_rows(n));
    law_draw_is_involution(
        m.display,
        m.sprite_rows(n),
        m.v[op_x(opcode)] as int,
        m.v[op_y(opcode)] as int,
    );
}

/// Call and return: a call that is at once followed by a return leaves the machine
/// as it was, but for the program counter, which stands behind the call.
pub proof fn law_call_then_return(m: Machine, opcode: u16, random: u8)
    requires
        m.wf(),
        m.fetch() == Ok::<u16, StepError>(opcode),
        op_class(opcode) == 0x2,
        m.stack.len() < 16,
    ensures
        ({
            &&& m.execute(opcode, random) matches Ok(called)
            &&& called.pc == op_nnn(opcode)
            &&& called.execute(0x00EE, random) matches Ok(back)
            &&& back.pc == m.pc + 2
            &&& back.stack == m.stack
            &&& back == Machine { pc: back.pc, ..m }
        }),
{
    let called = m.execute(opcode, random)->Ok_0;
    assert(called.stack.drop_last() =~= m.stack);
}

/// Call and return in two cycles: where the instruction at the target of a call is a
/// return, the cycle of the call and the cycle of the return leave the program
/// counter behind the call and the stack as it was.  But for the program counter and
/// the two ticks of the timers, the machine is as it was.
pub proof fn law_call_then_return_in_two_cycles(m: Machine, opcode: u16, first: u8, second: u8)
    requires
        m.wf(),
        m.fetch() == Ok::<u16, StepError>(opcode),
        op_class(opcode) == 0x2,
        m.stack.len() < 16,
        op_nnn(opcode) + 1 < 4096,
        m.memory[op_nnn(opcode) as int] == 0x00,
        m.memory[op_nnn(opcode) + 1] == 0xEE,
    ensures
        ({
            &&& m.cycle(first) matches Ok(called)
            &&& called.cycle(second) matches Ok(back)
            &&& back.pc == m.pc + 2
            &&& back.stack == m.stack
            &&& back == Machine { pc: back.pc, ..m }.tick().tick()
        }),
{
    let called = m.cycle(first)->Ok_0;
    assert(called.fetch() == Ok::<u16, StepError>(0x00EEu16));
    assert(called.stack.drop_last() =~= m.stack);
}

/// A cycle ticks the timers: after a cycle that succeeds, a timer that the
/// instruction did not set is one less than before, or zero if it was zero.
pub proof fn law_cycle_ticks(m: Machine, random: u8)
    requires
        m.cycle(random) is Ok,
    ensures
        ({
            let opcode = m.fetch()->Ok_0;
            let next = m.cycle(random)->Ok_0;
            &&& !is_set_delay_op(opcode) ==> next.delay_timer == ticked(m.delay_timer)
            &&& !is_set_sound_op(opcode) ==> next.sound_timer == ticked(m.sound_timer)
        }),
{
}

/// Timer decay: after `n` cycles that all succeed and of which none sets the delay
/// timer, the timer stands `n` lower, or at zero if it started below `n`.  It never
/// goes under zero and, once there, stays.
pub proof fn law_timer_decay(m: Machine, randoms: Seq<u8>)
    requires
        m.run(randoms) is Ok,
        m.leaves_delay_alone(randoms),
    ensures
        m.run(randoms)->Ok_0.delay_timer == if m.delay_timer >= randoms.len() {
            m.delay_timer - randoms.len()
        } else {
            0
        },
    decreases randoms.len(),
{
    if randoms.len() > 0 {
        let earlier = randoms.drop_last();
        law_timer_decay(m, earlier);
        law_cycle_ticks(m.run(earlier)->Ok_0, randoms.last());
    }
}

} // verus!
