use vstd::prelude::*;
use crate::decode::{class_of, kk_of, n_of, nnn_of, x_of, y_of};
use crate::error::{LoadError, StepError};
use crate::font::{font, FONTSET};
use crate::entropy::random_byte;
use crate::machine::{
    highest_key_down, op_kk, op_n, op_nnn, op_x, op_y, settles, Machine, MAX_PROGRAM_SIZE,
    MEMORY_SIZE, PROGRAM_START, STACK_DEPTH,
};
use crate::sprite::{
    collides, draw, lemma_bit_lands, pixel_index, sprite_bit, sprite_covers, sprite_offset,
    DISPLAY_HEIGHT, DISPLAY_SIZE, DISPLAY_WIDTH,
};

verus! {

/// The interpreter: the machine's state and the instructions that change it.
///
/// What a `State` holds is its view, a `Machine`, and every contract below is stated
/// over that view.  The view of a `State` is always well formed.
pub struct State {
    memory: [u8; MEMORY_SIZE],
    v: [u8; 16],
    i: u16,
    pc: u16,
    stack: CallStack,
    display: [bool; DISPLAY_SIZE],
    delay_timer: u8,
    sound_timer: u8,
    keypad: [bool; 16],
}

/// The call stack: sixteen slots for return addresses and the number of them in
/// use.  A return address is the address of the call that put it there, so it is
/// one at which an instruction was fetched.
struct CallStack {
    slots: [u16; STACK_DEPTH],
    sp: u8,
}

impl View for CallStack {
    type V = Seq<u16>;

    closed spec fn view(&self) -> Seq<u16> {
        self.slots@.take(self.sp as int)
    }
}

impl CallStack {
    #[verifier::type_invariant]
    spec fn inv(&self) -> bool {
        &&& self.sp <= 16
        &&& forall|k: int| 0 <= k < self.sp ==> #[trigger] self.slots@[k] + 1 < 4096
    }

    /// A stack with no call outstanding.
    fn new() -> (stack: CallStack)
        ensures
            stack@ == Seq::<u16>::empty(),
    {
        CallStack { slots: [0u16; STACK_DEPTH], sp: 0 }
    }

    /// Puts a return address on the stack, unless every slot is in use.
    fn push(&mut self, address: u16) -> (result: Result<(), StepError>)
        requires
            address + 1 < 4096,
        ensures
            old(self)@.len() < 16 ==> result is Ok && final(self)@ == old(self)@.push(address),
            old(self)@.len() >= 16 ==> result == Err::<(), StepError>(StepError::StackOverflow)
                && final(self)@ == old(self)@,
    {
        proof {
            use_type_invariant(&*self);
        }
        if self.sp >= 16 {
            return Err(StepError::StackOverflow);
        }
        self.slots[self.sp as usize] = address;
        self.sp += 1;
        assert(self@ =~= old(self)@.push(address));
        Ok(())
    }

    /// Takes the newest return address off the stack, if there is one.
    fn pop(&mut self) -> (result: Result<u16, StepError>)
        ensures
            old(self)@.len() > 0 ==> result == Ok::<u16, StepError>(old(self)@.last())
                && final(self)@ == old(self)@.drop_last() && old(self)@.last() + 1 < 4096,
            old(self)@.len() == 0 ==> result == Err::<u16, StepError>(StepError::StackUnderflow)
                && final(self)@ == old(self)@,
    {
        proof {
            use_type_invariant(&*self);
        }
        if self.sp == 0 {
            return Err(StepError::StackUnderflow);
        }
        self.sp -= 1;
        assert(self@ =~= old(self)@.drop_last());
        Ok(self.slots[self.sp as usize])
    }
}

impl View for State {
    type V = Machine;

    closed spec fn view(&self) -> Machine {
        Machine {
            memory: self.memory@,
            v: self.v@,
            i: self.i,
            pc: self.pc,
            stack: self.stack@,
            display: self.display@,
            delay_timer: self.delay_timer,
            sound_timer: self.sound_timer,
            keypad: self.keypad@,
        }
    }
}

/// Whether the sprite bit at `(row, col)` comes before `(r, c)` in drawing order.
spec fn drawn_before(row: int, col: int, r: int, c: int) -> bool {
    row < r || (row == r && col < c)
}

/// Whether a set bit that comes before `(r, c)` in drawing order lands on a pixel
/// that was lit.
spec fn collided_before(
    display: Seq<bool>,
    rows: Seq<u8>,
    vx: int,
    vy: int,
    r: int,
    c: int,
) -> bool {
    exists|p: int|
        0 <= p < 2048 && #[trigger] display[p] && covered_before(rows, vx, vy, p, r, c)
}

/// Whether a set bit that comes before `(r, c)` in drawing order lands on `p`.
spec fn covered_before(rows: Seq<u8>, vx: int, vy: int, p: int, r: int, c: int) -> bool {
    let offset = sprite_offset(vx, vy, p);
    sprite_covers(rows, vx, vy, p) && drawn_before(offset / 64, offset % 64, r, c)
}

impl State {
    /// A machine at power-on: the font at the bottom of memory, the program counter at
    /// the program start, everything else zero.
    pub fn new() -> (state: State)
        ensures
            state@ == Machine::initial(),
            state@.wf(),
    {
        let mut state = State {
            memory: [0u8; MEMORY_SIZE],
            v: [0u8; 16],
            i: 0,
            pc: 0x200,
            stack: CallStack::new(),
            display: [false; DISPLAY_SIZE],
            delay_timer: 0,
            sound_timer: 0,
            keypad: [false; 16],
        };
        state.load_font_set();
        proof {
            use_type_invariant(&state.stack);
        }
        state
    }

    /// Copies the font to the bottom of memory.
    fn load_font_set(&mut self)
        ensures
            final(self)@ == (Machine {
                memory: Seq::new(
                    4096,
                    |a: int|
                        if a < 80 {
                            font()[a]
                        } else {
                            old(self)@.memory[a]
                        },
                ),
                ..old(self)@
            }),
    {
        let mut k: usize = 0;
        while k < 80
            invariant
                k <= 80,
                self@ == (Machine { memory: self@.memory, ..old(self)@ }),
                forall|a: int| 0 <= a < k ==> self.memory@[a] == font()[a],
                forall|a: int| k <= a < 4096 ==> self.memory@[a] == old(self).memory@[a],
            decreases 80 - k,
        {
            self.memory[k] = FONTSET[k];
            k += 1;
        }
    }

    /// The display as it stands.  It is a snapshot: the next cycle may change it.
    pub fn get_display(&self) -> (display: &[bool; DISPLAY_SIZE])
        ensures
            display@ == self@.display,
    {
        &self.display
    }

    /// Whether the pixel in column `x` of row `y` is lit.  Outside the display no
    /// pixel is.
    pub fn is_pixel_on(&self, x: usize, y: usize) -> (lit: bool)
        ensures
            lit == (x < 64 && y < 32 && self@.display[y * 64 + x]),
    {
        x < DISPLAY_WIDTH && y < DISPLAY_HEIGHT && self.display[y * DISPLAY_WIDTH + x]
    }

    /// The memory as it stands.
    pub fn get_memory(&self) -> (memory: &[u8; MEMORY_SIZE])
        ensures
            memory@ == self@.memory,
    {
        &self.memory
    }

    /// The data registers V0 to VF.
    pub fn get_registers(&self) -> (registers: &[u8; 16])
        ensures
            registers@ == self@.v,
    {
        &self.v
    }

    /// The index register I.
    pub fn get_index(&self) -> (index: u16)
        ensures
            index == self@.i,
    {
        self.i
    }

    /// The program counter.
    pub fn get_pc(&self) -> (pc: u16)
        ensures
            pc == self@.pc,
    {
        self.pc
    }

    /// The number of calls that are outstanding.
    pub fn get_sp(&self) -> (depth: u8)
        ensures
            depth == self@.stack.len(),
            depth <= 16,
    {
        proof {
            use_type_invariant(&self.stack);
        }
        self.stack.sp
    }

    /// The stack slots.  The first `get_sp()` of them hold the return addresses of
    /// the outstanding calls, the oldest first; the others hold what was left there.
    pub fn get_stack(&self) -> (slots: &[u16; STACK_DEPTH])
        ensures
            self@.stack.len() <= 16,
            slots@.take(self@.stack.len() as int) == self@.stack,
    {
        proof {
            use_type_invariant(&self.stack);
        }
        &self.stack.slots
    }

    /// The delay timer.
    pub fn get_delay_timer(&self) -> (timer: u8)
        ensures
            timer == self@.delay_timer,
    {
        self.delay_timer
    }

    /// The sound timer.  A sound is due for as long as it is above zero.
    pub fn get_sound_timer(&self) -> (timer: u8)
        ensures
            timer == self@.sound_timer,
    {
        self.sound_timer
    }

    /// The keypad: which keys are held down.
    pub fn get_keypad(&self) -> (keypad: &[bool; 16])
        ensures
            keypad@ == self@.keypad,
    {
        &self.keypad
    }

    /// The instruction word at the program counter.
    fn fetch_opcode(&self) -> (fetched: Result<u16, StepError>)
        ensures
            fetched == self@.fetch(),
    {
        if self.pc >= 4095 {
            return Err(StepError::AddressOutOfRange);
        }
        let high = self.memory[self.pc as usize];
        let low = self.memory[self.pc as usize + 1];
        assert(((high as u16) << 8 | (low as u16)) == high * 256 + low) by (bit_vector);
        Ok((high as u16) << 8 | (low as u16))
    }

    /// Loads a program image at the program start and points the program counter at it.
    /// Nothing else is reset: a machine that has run keeps its registers, stack,
    /// timers, display and keypad, and whatever an earlier, longer image left in
    /// memory behind the new one.
    pub fn load_rom(&mut self, rom: &[u8]) -> (result: Result<(), LoadError>)
        ensures
            match old(self)@.load(rom@) {
                Ok(loaded) => result is Ok && final(self)@ == loaded,
                Err(e) => result == Err::<(), LoadError>(e) && final(self)@ == old(self)@,
            },
            final(self)@.wf(),
    {
        proof {
            use_type_invariant(&self.stack);
        }
        let length = rom.len();
        if length == 0 {
            return Err(LoadError::EmptyProgram);
        }
        if length > MAX_PROGRAM_SIZE {
            return Err(LoadError::ProgramTooLarge);
        }
        let mut offset: usize = 0;
        while offset < length
            invariant
                offset <= length <= 3584,
                length == rom@.len(),
                self@ == (Machine { memory: self@.memory, ..old(self)@ }),
                forall|a: int|
                    0 <= a < 4096 ==> #[trigger] self.memory@[a] == if 0x200 <= a < 0x200
                        + offset {
                        rom@[a - 0x200]
                    } else {
                        old(self)@.memory[a]
                    },
            decreases length - offset,
        {
            self.memory[0x200 + offset] = rom[offset];
            offset += 1;
        }
        self.pc = PROGRAM_START;
        assert(self@.memory =~= old(self)@.load(rom@)->Ok_0.memory);
        Ok(())
    }

    /// One cycle: fetch, execute, tick.  The byte for the random instruction is
    /// drawn from the thread's generator, and only when that instruction is next.
    ///
    /// Whatever byte was drawn, the machine has made the cycle that
    /// `emulate_cycle_with` makes with that byte; where the next instruction draws
    /// none, that is the cycle with any byte.
    pub fn emulate_cycle(&mut self) -> (result: Result<(), StepError>)
        ensures
            exists|random: u8|
                settles(old(self)@, #[trigger] old(self)@.cycle(random), final(self)@, result),
            !old(self)@.wants_random() ==> forall|random: u8|
                settles(old(self)@, #[trigger] old(self)@.cycle(random), final(self)@, result),
            final(self)@.wf(),
    {
        let random = match self.fetch_opcode() {
            Ok(opcode) => if class_of(opcode) == 0xC {
                random_byte()
            } else {
                0
            },
            Err(_) => 0,
        };
        self.emulate_cycle_with(random)
    }

    /// One cycle with the random byte given: the instruction at the program counter
    /// is fetched and executed, then both timers tick.  On an error the machine is
    /// left exactly as it was, timers included.
    pub fn emulate_cycle_with(&mut self, random: u8) -> (result: Result<(), StepError>)
        ensures
            settles(old(self)@, old(self)@.cycle(random), final(self)@, result),
            final(self)@.wf(),
    {
        let result = match self.execute_opcode(random) {
            Ok(()) => {
                self.update_timers();
                Ok(())
            },
            Err(e) => Err(e),
        };
        proof {
            use_type_invariant(&self.stack);
        }
        result
    }

    /// Fetches the instruction at the program counter and carries it out.
    fn execute_opcode(&mut self, random: u8) -> (result: Result<(), StepError>)
        ensures
            settles(old(self)@, old(self)@.perform(random), final(self)@, result),
    {
        let opcode = match self.fetch_opcode() {
            Ok(opcode) => opcode,
            Err(e) => {
                return Err(e);
            },
        };
        let nibbles = (class_of(opcode), x_of(opcode), y_of(opcode), n_of(opcode));
        match nibbles {
            (0x0, 0x0, 0xE, 0x0) => {
                self.op_00e0();
                Ok(())
            },
            (0x0, 0x0, 0xE, 0xE) => self.op_00ee(),
            (0x1, _, _, _) => {
                self.op_1nnn(opcode);
                Ok(())
            },
            (0x2, _, _, _) => self.op_2nnn(opcode),
            (0x3, _, _, _) => {
                self.op_3xkk(opcode);
                Ok(())
            },
            (0x4, _, _, _) => {
                self.op_4xkk(opcode);
                Ok(())
            },
            (0x5, _, _, 0x0) => {
                self.op_5xy0(opcode);
                Ok(())
            },
            (0x6, _, _, _) => {
                self.op_6xkk(opcode);
                Ok(())
            },
            (0x7, _, _, _) => {
                self.op_7xkk(opcode);
                Ok(())
            },
            (0x8, _, _, 0x0) => {
                self.op_8xy0(opcode);
                Ok(())
            },
            (0x8, _, _, 0x1) => {
                self.op_8xy1(opcode);
                Ok(())
            },
            (0x8, _, _, 0x2) => {
                self.op_8xy2(opcode);
                Ok(())
            },
            (0x8, _, _, 0x3) => {
                self.op_8xy3(opcode);
                Ok(())
            },
            (0x8, _, _, 0x4) => {
                self.op_8xy4(opcode);
                Ok(())
            },
            (0x8, _, _, 0x5) => {
                self.op_8xy5(opcode);
                Ok(())
            },
            (0x8, _, _, 0x6) => {
                self.op_8xy6(opcode);
                Ok(())
            },
            (0x8, _, _, 0x7) => {
                self.op_8xy7(opcode);
                Ok(())
            },
            (0x8, _, _, 0xE) => {
                self.op_8xye(opcode);
                Ok(())
            },
            (0x9, _, _, 0x0) => {
                self.op_9xy0(opcode);
                Ok(())
            },
            (0xA, _, _, _) => {
                self.op_annn(opcode);
                Ok(())
            },
            (0xB, _, _, _) => {
                self.op_bnnn(opcode);
                Ok(())
            },
            (0xC, _, _, _) => {
                self.op_cxkk(opcode, random);
                Ok(())
            },
            (0xD, _, _, _) => self.op_dxyn(opcode),
            (0xE, _, 0x9, 0xE) => self.op_ex9e(opcode),
            (0xE, _, 0xA, 0x1) => self.op_exa1(opcode),
            (0xF, _, 0x0, 0x7) => {
                self.op_fx07(opcode);
                Ok(())
            },
            (0xF, _, 0x0, 0xA) => {
                self.op_fx0a(opcode);
                Ok(())
            },
            (0xF, _, 0x1, 0x5) => {
                self.op_fx15(opcode);
                Ok(())
            },
            (0xF, _, 0x1, 0x8) => {
                self.op_fx18(opcode);
                Ok(())
            },
            (0xF, _, 0x1, 0xE) => {
                self.op_fx1e(opcode);
                Ok(())
            },
            (0xF, _, 0x2, 0x9) => {
                self.op_fx29(opcode);
                Ok(())
            },
            (0xF, _, 0x3, 0x3) => self.op_fx33(opcode),
            (0xF, _, 0x5, 0x5) => self.op_fx55(opcode),
            (0xF, _, 0x6, 0x5) => self.op_fx65(opcode),
            _ => {
                self.op_invalid();
                Ok(())
            },
        }
    }

    /// A word that is no instruction: the machine moves on to the next one.
    fn op_invalid(&mut self)
        requires
            old(self).pc + 1 < 4096,
        ensures
            final(self)@ == old(self)@.advance(2),
    {
        self.pc += 2;
    }

    /// Clear the display.
    fn op_00e0(&mut self)
        requires
            old(self).pc + 1 < 4096,
        ensures
            final(self)@ == old(self)@.clear_display(),
    {
        self.display = [false; DISPLAY_SIZE];
        self.pc += 2;
    }

    /// Return from a subroutine.
    fn op_00ee(&mut self) -> (result: Result<(), StepError>)
        ensures
            settles(old(self)@, old(self)@.return_from_subroutine(), final(self)@, result),
    {
        match self.stack.pop() {
            Ok(return_address) => {
                self.pc = return_address + 2;
                Ok(())
            },
            Err(e) => Err(e),
        }
    }

    /// Jump to address `nnn`.
    fn op_1nnn(&mut self, opcode: u16)
        ensures
            final(self)@ == old(self)@.jump(op_nnn(opcode)),
    {
        self.pc = nnn_of(opcode);
    }

    /// Call the subroutine at `nnn`.
    fn op_2nnn(&mut self, opcode: u16) -> (result: Result<(), StepError>)
        requires
            old(self).pc + 1 < 4096,
        ensures
            settles(
                old(self)@,
                old(self)@.call_subroutine(op_nnn(opcode)),
                final(self)@,
                result,
            ),
    {
        match self.stack.push(self.pc) {
            Ok(()) => {
                self.pc = nnn_of(opcode);
                Ok(())
            },
            Err(e) => Err(e),
        }
    }

    /// Skip the next instruction if Vx == kk.
    fn op_3xkk(&mut self, opcode: u16)
        requires
            old(self).pc + 1 < 4096,
        ensures
            final(self)@ == old(self)@.skip_if(old(self)@.v[op_x(opcode)] == op_kk(opcode)),
    {
        let x = x_of(opcode);
        let kk = kk_of(opcode);
        if self.v[x] == kk {
            self.pc += 4;
        } else {
            self.pc += 2;
        }
    }

    /// Skip the next instruction if Vx != kk.
    fn op_4xkk(&mut self, opcode: u16)
        requires
            old(self).pc + 1 < 4096,
        ensures
            final(self)@ == old(self)@.skip_if(old(self)@.v[op_x(opcode)] != op_kk(opcode)),
    {
        let x = x_of(opcode);
        let kk = kk_of(opcode);
        if self.v[x] != kk {
            self.pc += 4;
        } else {
            self.pc += 2;
        }
    }

    /// Skip the next instruction if Vx == Vy.
    fn op_5xy0(&mut self, opcode: u16)
        requires
            old(self).pc + 1 < 4096,
        ensures
            final(self)@ == old(self)@.skip_if(
                old(self)@.v[op_x(opcode)] == old(self)@.v[op_y(opcode)],
            ),
    {
        let x = x_of(opcode);
        let y = y_of(opcode);
        if self.v[x] == self.v[y] {
            self.pc += 4;
        } else {
            self.pc += 2;
        }
    }

    /// Set Vx = kk.
    fn op_6xkk(&mut self, opcode: u16)
        requires
            old(self).pc + 1 < 4096,
        ensures
            final(self)@ == old(self)@.with_register(op_x(opcode), op_kk(opcode)).advance(2),
    {
        let x = x_of(opcode);
        let kk = kk_of(opcode);
        self.v[x] = kk;
        self.pc += 2;
    }

    /// Set Vx = Vx + kk.
    fn op_7xkk(&mut self, opcode: u16)
        requires
            old(self).pc + 1 < 4096,
        ensures
            final(self)@ == old(self)@.add_immediate(op_x(opcode), op_kk(opcode)),
    {
        let x = x_of(opcode);
        let kk = kk_of(opcode);
        self.v[x] = self.v[x].wrapping_add(kk);
        self.pc += 2;
    }

    /// Set Vx = Vy.
    fn op_8xy0(&mut self, opcode: u16)
        requires
            old(self).pc + 1 < 4096,
        ensures
            final(self)@ == old(self)@.with_register(
                op_x(opcode),
                old(self)@.v[op_y(opcode)],
            ).advance(2),
    {
        let x = x_of(opcode);
        let y = y_of(opcode);
        self.v[x] = self.v[y];
        self.pc += 2;
    }

    /// Set Vx = Vx OR Vy.
    fn op_8xy1(&mut self, opcode: u16)
        requires
            old(self).pc + 1 < 4096,
        ensures
            final(self)@ == old(self)@.with_register(
                op_x(opcode),
                old(self)@.v[op_x(opcode)] | old(self)@.v[op_y(opcode)],
            ).advance(2),
    {
        let x = x_of(opcode);
        let y = y_of(opcode);
        self.v[x] = self.v[x] | self.v[y];
        self.pc += 2;
    }

    /// Set Vx = Vx AND Vy.
    fn op_8xy2(&mut self, opcode: u16)
        requires
            old(self).pc + 1 < 4096,
        ensures
            final(self)@ == old(self)@.with_register(
                op_x(opcode),
                old(self)@.v[op_x(opcode)] & old(self)@.v[op_y(opcode)],
            ).advance(2),
    {
        let x = x_of(opcode);
        let y = y_of(opcode);
        self.v[x] = self.v[x] & self.v[y];
        self.pc += 2;
    }

    /// Set Vx = Vx XOR Vy.
    fn op_8xy3(&mut self, opcode: u16)
        requires
            old(self).pc + 1 < 4096,
        ensures
            final(self)@ == old(self)@.with_register(
                op_x(opcode),
                old(self)@.v[op_x(opcode)] ^ old(self)@.v[op_y(opcode)],
            ).advance(2),
    {
        let x = x_of(opcode);
        let y = y_of(opcode);
        self.v[x] = self.v[x] ^ self.v[y];
        self.pc += 2;
    }

    /// Set Vx = Vx + Vy, set VF = carry.
    fn op_8xy4(&mut self, opcode: u16)
        requires
            old(self).pc + 1 < 4096,
        ensures
            final(self)@ == old(self)@.add_registers(op_x(opcode), op_y(opcode)),
    {
        let x = x_of(opcode);
        let y = y_of(opcode);
        let sum = self.v[x].wrapping_add(self.v[y]);
        let carry = self.v[x] as u16 + self.v[y] as u16 > 255;
        self.v[x] = sum;
        self.v[0xF] = if carry {
            1
        } else {
            0
        };
        self.pc += 2;
    }

    /// Set Vx = Vx - Vy, set VF = NOT borrow.
    fn op_8xy5(&mut self, opcode: u16)
        requires
            old(self).pc + 1 < 4096,
        ensures
            final(self)@ == old(self)@.subtract_registers(op_x(opcode), op_y(opcode)),
    {
        let x = x_of(opcode);
        let y = y_of(opcode);
        let difference = self.v[x].wrapping_sub(self.v[y]);
        let borrow = self.v[x] < self.v[y];
        self.v[x] = difference;
        self.v[0xF] = if borrow {
            0
        } else {
            1
        };
        self.pc += 2;
    }

    /// Set Vx = Vx SHR 1.
    fn op_8xy6(&mut self, opcode: u16)
        requires
            old(self).pc + 1 < 4096,
        ensures
            final(self)@ == old(self)@.shift_right(op_x(opcode)),
    {
        let x = x_of(opcode);
        let value = self.v[x];
        assert(value & 0x01 == value % 2 && value >> 1 == value / 2) by (bit_vector);
        self.v[x] = value >> 1;
        self.v[0xF] = value & 0x01;
        self.pc += 2;
    }

    /// Set Vx = Vy - Vx, set VF = NOT borrow.
    fn op_8xy7(&mut self, opcode: u16)
        requires
            old(self).pc + 1 < 4096,
        ensures
            final(self)@ == old(self)@.subtract_reversed(op_x(opcode), op_y(opcode)),
    {
        let x = x_of(opcode);
        let y = y_of(opcode);
        let difference = self.v[y].wrapping_sub(self.v[x]);
        let borrow = self.v[y] < self.v[x];
        self.v[x] = difference;
        self.v[0xF] = if borrow {
            0
        } else {
            1
        };
        self.pc += 2;
    }

    /// Set Vx = Vx SHL 1.
    fn op_8xye(&mut self, opcode: u16)
        requires
            old(self).pc + 1 < 4096,
        ensures
            final(self)@ == old(self)@.shift_left(op_x(opcode)),
    {
        let x = x_of(opcode);
        let value = self.v[x];
        assert((value & 0x80) >> 7 == value / 128 && value << 1 == (value * 2) % 256)
            by (bit_vector);
        self.v[x] = value << 1;
        self.v[0xF] = (value & 0x80) >> 7;
        self.pc += 2;
    }

    /// Skip the next instruction if Vx != Vy.
    fn op_9xy0(&mut self, opcode: u16)
        requires
            old(self).pc + 1 < 4096,
        ensures
            final(self)@ == old(self)@.skip_if(
                old(self)@.v[op_x(opcode)] != old(self)@.v[op_y(opcode)],
            ),
    {
        let x = x_of(opcode);
        let y = y_of(opcode);
        if self.v[x] != self.v[y] {
            self.pc += 4;
        } else {
            self.pc += 2;
        }
    }

    /// Set I = nnn.
    fn op_annn(&mut self, opcode: u16)
        requires
            old(self).pc + 1 < 4096,
        ensures
            final(self)@ == (Machine { i: op_nnn(opcode), ..old(self)@ }).advance(2),
    {
        self.i = nnn_of(opcode);
        self.pc += 2;
    }

    /// Jump to address nnn + V0.
    fn op_bnnn(&mut self, opcode: u16)
        ensures
            final(self)@ == old(self)@.jump_with_offset(op_nnn(opcode)),
    {
        let nnn = nnn_of(opcode);
        self.pc = nnn + self.v[0] as u16;
    }

    /// Set Vx = random byte AND kk.
    fn op_cxkk(&mut self, opcode: u16, random: u8)
        requires
            old(self).pc + 1 < 4096,
        ensures
            final(self)@ == old(self)@.with_register(
                op_x(opcode),
                random & op_kk(opcode),
            ).advance(2),
    {
        let x = x_of(opcode);
        let kk = kk_of(opcode);
        self.v[x] = random & kk;
        self.pc += 2;
    }

    fn op_dxyn(&mut self, opcode: u16) -> (result: Result<(), StepError>)
        requires
            old(self).pc + 1 < 4096,
        ensures
            settles(
                old(self)@,
                old(self)@.draw_sprite(op_x(opcode), op_y(opcode), op_n(opcode)),
                final(self)@,
                result,
            ),
    {
        let vx = self.v[x_of(opcode)];
        let vy = self.v[y_of(opcode)];
        let height = n_of(opcode);
        let base = self.i as usize;
        if height > 0 && base + height as usize > 4096 {
            return Err(StepError::AddressOutOfRange);
        }
        let ghost rows = old(self)@.sprite_rows(height as int);
        let ghost before = old(self)@.display;
        let mut collision = false;
        let mut row: u8 = 0;
        while row < height
            invariant
                row <= height < 16,
                height > 0 ==> base + height <= 4096,
                base == old(self).i,
                rows == old(self)@.sprite_rows(height as int),
                before == old(self)@.display,
                self@ == (Machine { display: self@.display, ..old(self)@ }),
                forall|p: int|
                    0 <= p < 2048 ==> #[trigger] self.display@[p] == (before[p] != covered_before(
                        rows,
                        vx as int,
                        vy as int,
                        p,
                        row as int,
                        0,
                    )),
                collision == collided_before(before, rows, vx as int, vy as int, row as int, 0),
            decreases height - row,
        {
            let sprite = self.memory[base + row as usize];
            let mut col: u8 = 0;
            while col < 8
                invariant
                    col <= 8,
                    row < height < 16,
                    base + height <= 4096,
                    base == old(self).i,
                    rows == old(self)@.sprite_rows(height as int),
                    before == old(self)@.display,
                    sprite == rows[row as int],
                        self@ == (Machine { display: self@.display, ..old(self)@ }),
                    forall|p: int|
                        0 <= p < 2048 ==> #[trigger] self.display@[p] == (before[p]
                            != covered_before(rows, vx as int, vy as int, p, row as int, col as int)),
                    collision == collided_before(
                        before,
                        rows,
                        vx as int,
                        vy as int,
                        row as int,
                        col as int,
                    ),
                decreases 8 - col,
            {
                let ghost shown = self.display@;
                let ghost collided = collision;
                if sprite & (0x80u8 >> col) != 0 {
                    let index = (vx as usize + col as usize + (vy as usize + row as usize) * 64)
                        % 2048;
                    proof {
                        lemma_bit_lands(vx as int, vy as int, row as int, col as int, index as int);
                    }
                    if self.display[index] {
                        collision = true;
                    }
                    self.display[index] = !self.display[index];
                }
                proof {
                    lemma_draw_step(
                        before,
                        rows,
                        vx as int,
                        vy as int,
                        row as int,
                        col as int,
                        shown,
                        collided,
                        self.display@,
                        collision,
                    );
                }
                col += 1;
            }
            proof {
                lemma_row_done(before, rows, vx as int, vy as int, row as int);
            }
            row += 1;
        }
        proof {
            lemma_rows_done(before, rows, vx as int, vy as int);
            assert(self.display@ =~= draw(before, rows, vx as int, vy as int));
        }
        self.v[0xF] = if collision {
            1
        } else {
            0
        };
        self.pc += 2;
        Ok(())
    }

    /// Skip the next instruction if the key in Vx is down.
    fn op_ex9e(&mut self, opcode: u16) -> (result: Result<(), StepError>)
        requires
            old(self).pc + 1 < 4096,
        ensures
            settles(
                old(self)@,
                old(self)@.skip_on_key(op_x(opcode), true),
                final(self)@,
                result,
            ),
    {
        let x = x_of(opcode);
        let key = self.v[x] as usize;
        if key >= 16 {
            return Err(StepError::AddressOutOfRange);
        }
        if self.keypad[key] {
            self.pc += 4;
        } else {
            self.pc += 2;
        }
        Ok(())
    }

    /// Skip the next instruction if the key in Vx is up.
    fn op_exa1(&mut self, opcode: u16) -> (result: Result<(), StepError>)
        requires
            old(self).pc + 1 < 4096,
        ensures
            settles(
                old(self)@,
                old(self)@.skip_on_key(op_x(opcode), false),
                final(self)@,
                result,
            ),
    {
        let x = x_of(opcode);
        let key = self.v[x] as usize;
        if key >= 16 {
            return Err(StepError::AddressOutOfRange);
        }
        if !self.keypad[key] {
            self.pc += 4;
        } else {
            self.pc += 2;
        }
        Ok(())
    }

    /// Set Vx = delay timer.
    fn op_fx07(&mut self, opcode: u16)
        requires
            old(self).pc + 1 < 4096,
        ensures
            final(self)@ == old(self)@.with_register(
                op_x(opcode),
                old(self)@.delay_timer,
            ).advance(2),
    {
        let x = x_of(opcode);
        self.v[x] = self.delay_timer;
        self.pc += 2;
    }

    /// Wait for a key, then set Vx = that key.
    fn op_fx0a(&mut self, opcode: u16)
        requires
            old(self).pc + 1 < 4096,
        ensures
            final(self)@ == old(self)@.wait_for_key(op_x(opcode)),
    {
        let x = x_of(opcode);
        let mut pressed: Option<u8> = None;
        let mut key: u8 = 0;
        while key < 16
            invariant
                key <= 16,
                pressed == highest_key_down(self.keypad@, key as int),
            decreases 16 - key,
        {
            if self.keypad[key as usize] {
                pressed = Some(key);
            }
            key += 1;
        }
        match pressed {
            Some(key) => {
                self.v[x] = key;
                self.pc += 2;
            },
            None => {},
        }
    }

    /// Set delay timer = Vx.
    fn op_fx15(&mut self, opcode: u16)
        requires
            old(self).pc + 1 < 4096,
        ensures
            final(self)@ == (Machine {
                delay_timer: old(self)@.v[op_x(opcode)],
                ..old(self)@
            }).advance(2),
    {
        let x = x_of(opcode);
        self.delay_timer = self.v[x];
        self.pc += 2;
    }

    /// Set sound timer = Vx.
    fn op_fx18(&mut self, opcode: u16)
        requires
            old(self).pc + 1 < 4096,
        ensures
            final(self)@ == (Machine {
                sound_timer: old(self)@.v[op_x(opcode)],
                ..old(self)@
            }).advance(2),
    {
        let x = x_of(opcode);
        self.sound_timer = self.v[x];
        self.pc += 2;
    }

    /// Set I = I + Vx.
    fn op_fx1e(&mut self, opcode: u16)
        requires
            old(self).pc + 1 < 4096,
        ensures
            final(self)@ == old(self)@.add_to_index(op_x(opcode)),
    {
        let x = x_of(opcode);
        self.i = self.i.wrapping_add(self.v[x] as u16);
        self.pc += 2;
    }

    /// Set I = address of the glyph for the digit in Vx.
    fn op_fx29(&mut self, opcode: u16)
        requires
            old(self).pc + 1 < 4096,
        ensures
            final(self)@ == old(self)@.point_at_glyph(op_x(opcode)),
    {
        let x = x_of(opcode);
        self.i = self.v[x] as u16 * 5;
        self.pc += 2;
    }

    /// Store the decimal digits of Vx at I, I + 1 and I + 2.
    fn op_fx33(&mut self, opcode: u16) -> (result: Result<(), StepError>)
        requires
            old(self).pc + 1 < 4096,
        ensures
            settles(old(self)@, old(self)@.store_decimal(op_x(opcode)), final(self)@, result),
    {
        let x = x_of(opcode);
        let vx = self.v[x];
        let base = self.i as usize;
        if base + 2 >= 4096 {
            return Err(StepError::AddressOutOfRange);
        }
        self.memory[base] = vx / 100;
        self.memory[base + 1] = (vx % 100) / 10;
        self.memory[base + 2] = vx % 10;
        self.pc += 2;
        Ok(())
    }

    /// Store V0 to Vx in memory from I on.
    fn op_fx55(&mut self, opcode: u16) -> (result: Result<(), StepError>)
        requires
            old(self).pc + 1 < 4096,
        ensures
            settles(
                old(self)@,
                old(self)@.store_registers(op_x(opcode)),
                final(self)@,
                result,
            ),
    {
        let x = x_of(opcode);
        let base = self.i as usize;
        if base + x >= 4096 {
            return Err(StepError::AddressOutOfRange);
        }
        let mut index: usize = 0;
        while index <= x
            invariant
                index <= x + 1,
                x < 16,
                base + x < 4096,
                base == old(self).i,
                self@ == (Machine { memory: self@.memory, ..old(self)@ }),
                forall|a: int|
                    0 <= a < 4096 ==> #[trigger] self.memory@[a] == if base <= a < base + index {
                        old(self)@.v[a - base]
                    } else {
                        old(self)@.memory[a]
                    },
            decreases x + 1 - index,
        {
            self.memory[base + index] = self.v[index];
            index += 1;
        }
        self.pc += 2;
        assert(self@.memory =~= old(self)@.store_registers(x as int)->Ok_0.memory);
        Ok(())
    }

    /// Load V0 to Vx from memory from I on.
    fn op_fx65(&mut self, opcode: u16) -> (result: Result<(), StepError>)
        requires
            old(self).pc + 1 < 4096,
        ensures
            settles(
                old(self)@,
                old(self)@.load_registers(op_x(opcode)),
                final(self)@,
                result,
            ),
    {
        let x = x_of(opcode);
        let base = self.i as usize;
        if base + x >= 4096 {
            return Err(StepError::AddressOutOfRange);
        }
        let mut index: usize = 0;
        while index <= x
            invariant
                index <= x + 1,
                x < 16,
                base + x < 4096,
                base == old(self).i,
                self@ == (Machine { v: self@.v, ..old(self)@ }),
                forall|r: int|
                    0 <= r < 16 ==> #[trigger] self.v@[r] == if r < index {
                        old(self)@.memory[base + r]
                    } else {
                        old(self)@.v[r]
                    },
            decreases x + 1 - index,
        {
            self.v[index] = self.memory[base + index];
            index += 1;
        }
        self.pc += 2;
        assert(self@.v =~= old(self)@.load_registers(x as int)->Ok_0.v);
        Ok(())
    }

    /// One tick of both timers: each goes down by one unless it is at zero.
    pub fn update_timers(&mut self)
        ensures
            final(self)@ == old(self)@.tick(),
            final(self)@.wf(),
    {
        proof {
            use_type_invariant(&self.stack);
        }
        if self.delay_timer > 0 {
            self.delay_timer -= 1;
        }
        if self.sound_timer > 0 {
            self.sound_timer -= 1;
        }
    }

    /// The key `key` goes down.  A key outside the keypad is ignored.
    pub fn key_down(&mut self, key: u8)
        ensures
            final(self)@ == old(self)@.press(key),
            final(self)@.wf(),
    {
        proof {
            use_type_invariant(&self.stack);
        }
        if key < 16 {
            self.keypad[key as usize] = true;
        }
    }

    /// The key `key` goes up.  A key outside the keypad is ignored.
    pub fn key_up(&mut self, key: u8)
        ensures
            final(self)@ == old(self)@.release(key),
            final(self)@.wf(),
    {
        proof {
            use_type_invariant(&self.stack);
        }
        if key < 16 {
            self.keypad[key as usize] = false;
        }
    }
}

/// One step of the drawing loop keeps the display and the collision flag in line
/// with the bits drawn so far.
proof fn lemma_draw_step(
    before: Seq<bool>,
    rows: Seq<u8>,
    vx: int,
    vy: int,
    r: int,
    c: int,
    shown: Seq<bool>,
    collided: bool,
    shown_next: Seq<bool>,
    collided_next: bool,
)
    requires
        before.len() == 2048,
        shown.len() == 2048,
        shown_next.len() == 2048,
        rows.len() < 16,
        0 <= vx < 256,
        0 <= vy < 256,
        0 <= r < rows.len(),
        0 <= c < 8,
        forall|p: int|
            0 <= p < 2048 ==> #[trigger] shown[p] == (before[p] != covered_before(
                rows,
                vx,
                vy,
                p,
                r,
                c,
            )),
        collided == collided_before(before, rows, vx, vy, r, c),
        sprite_bit(rows[r], c) ==> {
            let target = pixel_index(vx, vy, r, c);
            &&& shown_next == shown.update(target, !shown[target])
            &&& collided_next == (collided || shown[target])
        },
        !sprite_bit(rows[r], c) ==> shown_next == shown && collided_next == collided,
    ensures
        forall|p: int|
            0 <= p < 2048 ==> #[trigger] shown_next[p] == (before[p] != covered_before(
                rows,
                vx,
                vy,
                p,
                r,
                c + 1,
            )),
        collided_next == collided_before(before, rows, vx, vy, r, c + 1),
{
    let target = pixel_index(vx, vy, r, c);
    assert forall|p: int| 0 <= p < 2048 implies covered_before(rows, vx, vy, p, r, c + 1) == (
    covered_before(rows, vx, vy, p, r, c) || (p == target && sprite_bit(rows[r], c))) by {
        lemma_bit_lands(vx, vy, r, c, p);
    }
    lemma_bit_lands(vx, vy, r, c, target);
    assert(!covered_before(rows, vx, vy, target, r, c));
    if collided_next {
        if collided {
            let p = choose|p: int|
                0 <= p < 2048 && #[trigger] before[p] && covered_before(rows, vx, vy, p, r, c);
            assert(before[p] && covered_before(rows, vx, vy, p, r, c + 1));
        } else {
            assert(before[target] && covered_before(rows, vx, vy, target, r, c + 1));
        }
    }
    if collided_before(before, rows, vx, vy, r, c + 1) {
        let p = choose|p: int|
            0 <= p < 2048 && #[trigger] before[p] && covered_before(rows, vx, vy, p, r, c + 1);
        if covered_before(rows, vx, vy, p, r, c) {
            assert(before[p] && covered_before(rows, vx, vy, p, r, c));
        }
    }
}

/// A row that has been drawn to its last bit is a row that the next row starts after.
proof fn lemma_row_done(before: Seq<bool>, rows: Seq<u8>, vx: int, vy: int, r: int)
    ensures
        forall|p: int|
            covered_before(rows, vx, vy, p, r, 8) == covered_before(rows, vx, vy, p, r + 1, 0),
        collided_before(before, rows, vx, vy, r, 8) == collided_before(
            before,
            rows,
            vx,
            vy,
            r + 1,
            0,
        ),
{
    assert forall|p: int|
        covered_before(rows, vx, vy, p, r, 8) == covered_before(rows, vx, vy, p, r + 1, 0) by {}
    if collided_before(before, rows, vx, vy, r, 8) {
        let p = choose|p: int|
            0 <= p < 2048 && #[trigger] before[p] && covered_before(rows, vx, vy, p, r, 8);
        assert(before[p] && covered_before(rows, vx, vy, p, r + 1, 0));
    }
    if collided_before(before, rows, vx, vy, r + 1, 0) {
        let p = choose|p: int|
            0 <= p < 2048 && #[trigger] before[p] && covered_before(rows, vx, vy, p, r + 1, 0);
        assert(before[p] && covered_before(rows, vx, vy, p, r, 8));
    }
}

/// Once the last row has been drawn, every bit of the sprite has been.
proof fn lemma_rows_done(before: Seq<bool>, rows: Seq<u8>, vx: int, vy: int)
    requires
        before.len() == 2048,
    ensures
        forall|p: int|
            covered_before(rows, vx, vy, p, rows.len() as int, 0) == sprite_covers(rows, vx, vy, p),
        collided_before(before, rows, vx, vy, rows.len() as int, 0) == collides(
            before,
            rows,
            vx,
            vy,
        ),
{
    let n = rows.len() as int;
    if collided_before(before, rows, vx, vy, n, 0) {
        let p = choose|p: int|
            0 <= p < 2048 && #[trigger] before[p] && covered_before(rows, vx, vy, p, n, 0);
        assert(before[p] && sprite_covers(rows, vx, vy, p));
    }
    if collides(before, rows, vx, vy) {
        let p = choose|p: int|
            0 <= p < before.len() && #[trigger] before[p] && sprite_covers(rows, vx, vy, p);
        assert(before[p] && covered_before(rows, vx, vy, p, n, 0));
    }
}

} // verus!
