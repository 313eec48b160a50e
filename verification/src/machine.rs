use vstd::prelude::*;
use crate::error::{LoadError, StepError};
use crate::font::font;
use crate::sprite::{collides, draw};

verus! {

/// Bytes of addressable memory.
pub const MEMORY_SIZE: usize = 4096;

/// Address at which a program is loaded and at which execution starts.
pub const PROGRAM_START: u16 = 0x200;

/// Longest program that fits between the program start and the end of memory.
pub const MAX_PROGRAM_SIZE: usize = 3584;

/// Depth of the call stack.
pub const STACK_DEPTH: usize = 16;

/// The machine as a mathematical value: what a `State` holds, and nothing else.
/// Every contract of the interpreter is stated over this type.
#[verifier::ext_equal]
pub struct Machine {
    /// The 4096 bytes of memory.
    pub memory: Seq<u8>,
    /// The sixteen data registers V0 to VF.
    pub v: Seq<u8>,
    /// The index register I.
    pub i: u16,
    /// The program counter: the address of the next instruction.
    pub pc: u16,
    /// The return addresses of the calls that are outstanding, the oldest first.
    pub stack: Seq<u16>,
    /// The display, row by row, `true` for a lit pixel.
    pub display: Seq<bool>,
    /// The delay timer.
    pub delay_timer: u8,
    /// The sound timer.
    pub sound_timer: u8,
    /// The keypad, `true` for a key that is held down.
    pub keypad: Seq<bool>,
}

/// The first nibble of an instruction word, which selects its family.
pub open spec fn op_class(opcode: u16) -> int {
    opcode as int / 0x1000
}

/// The second nibble of an instruction word: the register operand `x`.
pub open spec fn op_x(opcode: u16) -> int {
    (opcode as int / 0x100) % 16
}

/// The third nibble of an instruction word: the register operand `y`.
pub open spec fn op_y(opcode: u16) -> int {
    (opcode as int / 0x10) % 16
}

/// The last nibble of an instruction word: the operand `n`.
pub open spec fn op_n(opcode: u16) -> int {
    opcode as int % 16
}

/// The low byte of an instruction word: the immediate operand `kk`.
pub open spec fn op_kk(opcode: u16) -> u8 {
    (opcode % 0x100) as u8
}

/// The low twelve bits of an instruction word: the address operand `nnn`.
pub open spec fn op_nnn(opcode: u16) -> u16 {
    (opcode % 0x1000) as u16
}

/// Whether an instruction word asks for a random byte.
pub open spec fn is_random_op(opcode: u16) -> bool {
    op_class(opcode) == 0xC
}

/// Whether an instruction word sets the delay timer.
pub open spec fn is_set_delay_op(opcode: u16) -> bool {
    op_class(opcode) == 0xF && op_y(opcode) == 0x1 && op_n(opcode) == 0x5
}

/// Whether an instruction word sets the sound timer.
pub open spec fn is_set_sound_op(opcode: u16) -> bool {
    op_class(opcode) == 0xF && op_y(opcode) == 0x1 && op_n(opcode) == 0x8
}

/// The highest key below `below` that is held down, if there is one.
pub open spec fn highest_key_down(keypad: Seq<bool>, below: int) -> Option<u8>
    decreases below,
{
    if below <= 0 {
        None
    } else if keypad[below - 1] {
        Some((below - 1) as u8)
    } else {
        highest_key_down(keypad, below - 1)
    }
}

/// Whether a call that was to take `before` to `expected` did so: on success the
/// machine is the expected one, on failure the error is the expected one and the
/// machine is as it was.
pub open spec fn settles(
    before: Machine,
    expected: Result<Machine, StepError>,
    after: Machine,
    result: Result<(), StepError>,
) -> bool {
    match expected {
        Ok(next) => result is Ok && after == next,
        Err(e) => result == Err::<(), StepError>(e) && after == before,
    }
}

/// A timer after one tick: one less, unless it has run down.
pub open spec fn ticked(timer: u8) -> u8 {
    if timer > 0 {
        (timer - 1) as u8
    } else {
        0
    }
}

impl Machine {
    /// Whether the value is a machine at all: every array has its size, at most
    /// sixteen calls are outstanding, and each return address is one at which an
    /// instruction was fetched.
    pub open spec fn wf(self) -> bool {
        &&& self.memory.len() == 4096
        &&& self.v.len() == 16
        &&& self.stack.len() <= 16
        &&& forall|k: int| 0 <= k < self.stack.len() ==> #[trigger] self.stack[k] + 1 < 4096
        &&& self.display.len() == 2048
        &&& self.keypad.len() == 16
    }

    /// The machine at power-on: the font at the bottom of memory, the program counter
    /// at the program start, everything else zero, dark and released.
    pub open spec fn initial() -> Machine {
        Machine {
            memory: Seq::new(4096, |a: int| if a < 80 { font()[a] } else { 0u8 }),
            v: Seq::new(16, |r: int| 0u8),
            i: 0,
            pc: 0x200,
            stack: Seq::empty(),
            display: Seq::new(2048, |p: int| false),
            delay_timer: 0,
            sound_timer: 0,
            keypad: Seq::new(16, |k: int| false),
        }
    }

    /// Loading a program image: the image is copied to the program start and the
    /// program counter is set there.  Registers, stack, timers, display and keypad,
    /// and the memory outside the image, are kept.
    pub open spec fn load(self, rom: Seq<u8>) -> Result<Machine, LoadError> {
        if rom.len() == 0 {
            Err(LoadError::EmptyProgram)
        } else if rom.len() > 3584 {
            Err(LoadError::ProgramTooLarge)
        } else {
            Ok(
                Machine {
                    memory: Seq::new(
                        4096,
                        |a: int|
                            if 0x200 <= a < 0x200 + rom.len() {
                                rom[a - 0x200]
                            } else {
                                self.memory[a]
                            },
                    ),
                    pc: 0x200,
                    ..self
                },
            )
        }
    }

    /// Pressing a key.  A key outside the keypad is ignored.
    pub open spec fn press(self, key: u8) -> Machine {
        if key < 16 {
            Machine { keypad: self.keypad.update(key as int, true), ..self }
        } else {
            self
        }
    }

    /// Releasing a key.  A key outside the keypad is ignored.
    pub open spec fn release(self, key: u8) -> Machine {
        if key < 16 {
            Machine { keypad: self.keypad.update(key as int, false), ..self }
        } else {
            self
        }
    }

    /// One tick of both timers.
    pub open spec fn tick(self) -> Machine {
        Machine {
            delay_timer: ticked(self.delay_timer),
            sound_timer: ticked(self.sound_timer),
            ..self
        }
    }

    /// The instruction word at the program counter, high byte first.  The fetch fails
    /// when either of its two bytes lies outside memory.
    pub open spec fn fetch(self) -> Result<u16, StepError> {
        if self.pc + 1 >= 4096 {
            Err(StepError::AddressOutOfRange)
        } else {
            Ok((self.memory[self.pc as int] * 256 + self.memory[self.pc + 1]) as u16)
        }
    }

    /// The program counter moved on by `by` bytes.
    pub open spec fn advance(self, by: int) -> Machine {
        Machine { pc: (self.pc + by) as u16, ..self }
    }

    /// The program counter moved past the next instruction if `skip`, else onto it.
    pub open spec fn skip_if(self, skip: bool) -> Machine {
        self.advance(
            if skip {
                4
            } else {
                2
            },
        )
    }

    /// Register `x` set to `value`.
    pub open spec fn with_register(self, x: int, value: u8) -> Machine {
        Machine { v: self.v.update(x, value), ..self }
    }

    /// Register `x` set to `value` and then the flag register VF set to `flag`.
    /// While an instruction that reports a flag executes, VF is its flag output and
    /// no general-purpose destination: the flag is written last, so where `x` is F
    /// the flag is what VF holds.
    pub open spec fn with_result_and_flag(self, x: int, value: u8, flag: bool) -> Machine {
        Machine {
            v: self.v.update(x, value).update(
                0xF,
                if flag {
                    1u8
                } else {
                    0u8
                },
            ),
            ..self
        }
    }

    /// `00E0`: every pixel is turned off.
    pub open spec fn clear_display(self) -> Machine {
        Machine { display: Seq::new(2048, |p: int| false), ..self }.advance(2)
    }

    /// `00EE`: the newest return address is taken off the stack, and execution goes on
    /// behind the call that put it there.
    pub open spec fn return_from_subroutine(self) -> Result<Machine, StepError> {
        if self.stack.len() == 0 {
            Err(StepError::StackUnderflow)
        } else {
            Ok(
                Machine {
                    pc: (self.stack.last() + 2) as u16,
                    stack: self.stack.drop_last(),
                    ..self
                },
            )
        }
    }

    /// `1nnn`: execution goes on at `nnn`.
    pub open spec fn jump(self, nnn: u16) -> Machine {
        Machine { pc: nnn, ..self }
    }

    /// `2nnn`: the address of the call itself is put on the stack, and execution goes
    /// on at `nnn`.
    pub open spec fn call_subroutine(self, nnn: u16) -> Result<Machine, StepError> {
        if self.stack.len() >= 16 {
            Err(StepError::StackOverflow)
        } else {
            Ok(Machine { pc: nnn, stack: self.stack.push(self.pc), ..self })
        }
    }

    /// `7xkk`: `kk` is added to register `x`, modulo 256.  No flag is written.
    pub open spec fn add_immediate(self, x: int, kk: u8) -> Machine {
        self.with_register(x, ((self.v[x] + kk) % 256) as u8).advance(2)
    }

    /// `8xy4`: register `y` is added to register `x`, modulo 256; the flag says
    /// whether the sum went past 255.
    pub open spec fn add_registers(self, x: int, y: int) -> Machine {
        let sum = self.v[x] + self.v[y];
        self.with_result_and_flag(x, (sum % 256) as u8, sum > 255).advance(2)
    }

    /// `8xy5`: register `y` is taken from register `x`, modulo 256; the flag says that
    /// nothing had to be borrowed.
    pub open spec fn subtract_registers(self, x: int, y: int) -> Machine {
        let difference = self.v[x] - self.v[y];
        self.with_result_and_flag(x, (difference % 256) as u8, difference >= 0).advance(2)
    }

    /// `8xy7`: register `x` becomes register `y` less register `x`, modulo 256; the
    /// flag says that nothing had to be borrowed.
    pub open spec fn subtract_reversed(self, x: int, y: int) -> Machine {
        let difference = self.v[y] - self.v[x];
        self.with_result_and_flag(x, (difference % 256) as u8, difference >= 0).advance(2)
    }

    /// `8xy6`: register `x` is halved; the flag is the bit that fell off.
    pub open spec fn shift_right(self, x: int) -> Machine {
        self.with_result_and_flag(x, (self.v[x] / 2) as u8, self.v[x] % 2 == 1).advance(2)
    }

    /// `8xyE`: register `x` is doubled, modulo 256; the flag is the bit that fell off.
    pub open spec fn shift_left(self, x: int) -> Machine {
        self.with_result_and_flag(x, ((self.v[x] * 2) % 256) as u8, self.v[x] >= 128).advance(2)
    }

    /// `Bnnn`: execution goes on at `nnn` plus register 0.
    pub open spec fn jump_with_offset(self, nnn: u16) -> Machine {
        Machine { pc: (nnn + self.v[0]) as u16, ..self }
    }

    /// The rows of the sprite that `Dxyn` draws: the `n` bytes of memory from I on.
    pub open spec fn sprite_rows(self, n: int) -> Seq<u8> {
        Seq::new(n as nat, |row: int| self.memory[self.i + row])
    }

    /// `Dxyn`: the `n` rows of the sprite at I are drawn at the position that registers
    /// `x` and `y` hold.  Every pixel under a set bit is flipped, and the flag says
    /// whether a lit pixel went dark.  A sprite of no rows reads no memory.
    pub open spec fn draw_sprite(self, x: int, y: int, n: int) -> Result<Machine, StepError> {
        if n > 0 && self.i + n > 4096 {
            Err(StepError::AddressOutOfRange)
        } else {
            let rows = self.sprite_rows(n);
            let vx = self.v[x] as int;
            let vy = self.v[y] as int;
            Ok(
                Machine {
                    display: draw(self.display, rows, vx, vy),
                    v: self.v.update(
                        0xF,
                        if collides(self.display, rows, vx, vy) {
                            1u8
                        } else {
                            0u8
                        },
                    ),
                    ..self
                }.advance(2),
            )
        }
    }

    /// `Ex9E` and `ExA1`: the next instruction is skipped if the key that register `x`
    /// names is down (`wanted`) or up (`!wanted`).  A register that names no key of
    /// the keypad is an addressing error.
    pub open spec fn skip_on_key(self, x: int, wanted: bool) -> Result<Machine, StepError> {
        if self.v[x] >= 16 {
            Err(StepError::AddressOutOfRange)
        } else {
            Ok(self.skip_if(self.keypad[self.v[x] as int] == wanted))
        }
    }

    /// `Fx0A`: while no key is down the machine stays on this instruction; once one is,
    /// register `x` receives its number, the highest if several are down.
    pub open spec fn wait_for_key(self, x: int) -> Machine {
        match highest_key_down(self.keypad, 16) {
            Some(key) => self.with_register(x, key).advance(2),
            None => self,
        }
    }

    /// `Fx1E`: register `x` is added to I, modulo 65536.
    pub open spec fn add_to_index(self, x: int) -> Machine {
        Machine { i: ((self.i + self.v[x]) % 0x10000) as u16, ..self }.advance(2)
    }

    /// `Fx29`: I becomes the address of the glyph for the digit in register `x`.
    pub open spec fn point_at_glyph(self, x: int) -> Machine {
        Machine { i: (self.v[x] * 5) as u16, ..self }.advance(2)
    }

    /// `Fx33`: the hundreds, tens and units of register `x` are stored at I, I + 1
    /// and I + 2.
    pub open spec fn store_decimal(self, x: int) -> Result<Machine, StepError> {
        if self.i + 2 >= 4096 {
            Err(StepError::AddressOutOfRange)
        } else {
            let value = self.v[x];
            Ok(
                Machine {
                    memory: self.memory.update(self.i as int, (value / 100) as u8).update(
                        self.i + 1,
                        ((value % 100) / 10) as u8,
                    ).update(self.i + 2, (value % 10) as u8),
                    ..self
                }.advance(2),
            )
        }
    }

    /// `Fx55`: registers 0 to `x` are stored in memory from I on.  I is kept.
    pub open spec fn store_registers(self, x: int) -> Result<Machine, StepError> {
        if self.i + x >= 4096 {
            Err(StepError::AddressOutOfRange)
        } else {
            Ok(
                Machine {
                    memory: Seq::new(
                        4096,
                        |a: int|
                            if self.i <= a <= self.i + x {
                                self.v[a - self.i]
                            } else {
                                self.memory[a]
                            },
                    ),
                    ..self
                }.advance(2),
            )
        }
    }

    /// `Fx65`: registers 0 to `x` are loaded from memory from I on.  I is kept.
    pub open spec fn load_registers(self, x: int) -> Result<Machine, StepError> {
        if self.i + x >= 4096 {
            Err(StepError::AddressOutOfRange)
        } else {
            Ok(
                Machine {
                    v: Seq::new(
                        16,
                        |r: int|
                            if r <= x {
                                self.memory[self.i + r]
                            } else {
                                self.v[r]
                            },
                    ),
                    ..self
                }.advance(2),
            )
        }
    }

    /// What one instruction does to the machine, for every instruction word.  `random`
    /// is the byte that `Cxkk` draws; no other instruction looks at it.  A word that
    /// is no instruction moves the program counter on and does nothing else.
    pub open spec fn execute(self, opcode: u16, random: u8) -> Result<Machine, StepError> {
        let class = op_class(opcode);
        let x = op_x(opcode);
        let y = op_y(opcode);
        let n = op_n(opcode);
        let kk = op_kk(opcode);
        let nnn = op_nnn(opcode);
        if class == 0x0 && x == 0x0 && y == 0xE && n == 0x0 {
            Ok(self.clear_display())
        } else if class == 0x0 && x == 0x0 && y == 0xE && n == 0xE {
            self.return_from_subroutine()
        } else if class == 0x1 {
            Ok(self.jump(nnn))
        } else if class == 0x2 {
            self.call_subroutine(nnn)
        } else if class == 0x3 {
            Ok(self.skip_if(self.v[x] == kk))
        } else if class == 0x4 {
            Ok(self.skip_if(self.v[x] != kk))
        } else if class == 0x5 && n == 0x0 {
            Ok(self.skip_if(self.v[x] == self.v[y]))
        } else if class == 0x6 {
            Ok(self.with_register(x, kk).advance(2))
        } else if class == 0x7 {
            Ok(self.add_immediate(x, kk))
        } else if class == 0x8 && n == 0x0 {
            Ok(self.with_register(x, self.v[y]).advance(2))
        } else if class == 0x8 && n == 0x1 {
            Ok(self.with_register(x, self.v[x] | self.v[y]).advance(2))
        } else if class == 0x8 && n == 0x2 {
            Ok(self.with_register(x, self.v[x] & self.v[y]).advance(2))
        } else if class == 0x8 && n == 0x3 {
            Ok(self.with_register(x, self.v[x] ^ self.v[y]).advance(2))
        } else if class == 0x8 && n == 0x4 {
            Ok(self.add_registers(x, y))
        } else if class == 0x8 && n == 0x5 {
            Ok(self.subtract_registers(x, y))
        } else if class == 0x8 && n == 0x6 {
            Ok(self.shift_right(x))
        } else if class == 0x8 && n == 0x7 {
            Ok(self.subtract_reversed(x, y))
        } else if class == 0x8 && n == 0xE {
            Ok(self.shift_left(x))
        } else if class == 0x9 && n == 0x0 {
            Ok(self.skip_if(self.v[x] != self.v[y]))
        } else if class == 0xA {
            Ok(Machine { i: nnn, ..self }.advance(2))
        } else if class == 0xB {
            Ok(self.jump_with_offset(nnn))
        } else if class == 0xC {
            Ok(self.with_register(x, random & kk).advance(2))
        } else if class == 0xD {
            self.draw_sprite(x, y, n)
        } else if class == 0xE && y == 0x9 && n == 0xE {
            self.skip_on_key(x, true)
        } else if class == 0xE && y == 0xA && n == 0x1 {
            self.skip_on_key(x, false)
        } else if class == 0xF && y == 0x0 && n == 0x7 {
            Ok(self.with_register(x, self.delay_timer).advance(2))
        } else if class == 0xF && y == 0x0 && n == 0xA {
            Ok(self.wait_for_key(x))
        } else if class == 0xF && y == 0x1 && n == 0x5 {
            Ok(Machine { delay_timer: self.v[x], ..self }.advance(2))
        } else if class == 0xF && y == 0x1 && n == 0x8 {
            Ok(Machine { sound_timer: self.v[x], ..self }.advance(2))
        } else if class == 0xF && y == 0x1 && n == 0xE {
            Ok(self.add_to_index(x))
        } else if class == 0xF && y == 0x2 && n == 0x9 {
            Ok(self.point_at_glyph(x))
        } else if class == 0xF && y == 0x3 && n == 0x3 {
            self.store_decimal(x)
        } else if class == 0xF && y == 0x5 && n == 0x5 {
            self.store_registers(x)
        } else if class == 0xF && y == 0x6 && n == 0x5 {
            self.load_registers(x)
        } else {
            Ok(self.advance(2))
        }
    }

    /// The instruction at the program counter is fetched and executed.
    pub open spec fn perform(self, random: u8) -> Result<Machine, StepError> {
        match self.fetch() {
            Ok(opcode) => self.execute(opcode, random),
            Err(e) => Err(e),
        }
    }

    /// One cycle: the instruction at the program counter is fetched and executed, and
    /// then both timers tick.  Where the fetch or the instruction fails, nothing ticks.
    pub open spec fn cycle(self, random: u8) -> Result<Machine, StepError> {
        match self.perform(random) {
            Ok(next) => Ok(next.tick()),
            Err(e) => Err(e),
        }
    }

    /// The machine after one cycle for each byte of `randoms`, the bytes being those
    /// that the random instruction draws, cycle by cycle.  The first cycle that fails
    /// ends the run with its error.
    pub open spec fn run(self, randoms: Seq<u8>) -> Result<Machine, StepError>
        decreases randoms.len(),
    {
        if randoms.len() == 0 {
            Ok(self)
        } else {
            match self.run(randoms.drop_last()) {
                Ok(reached) => reached.cycle(randoms.last()),
                Err(e) => Err(e),
            }
        }
    }

    /// Whether no cycle of the run fetches the instruction that sets the delay timer.
    pub open spec fn leaves_delay_alone(self, randoms: Seq<u8>) -> bool
        decreases randoms.len(),
    {
        randoms.len() == 0 || (self.leaves_delay_alone(randoms.drop_last()) && match self.run(
            randoms.drop_last(),
        ) {
            Ok(reached) => match reached.fetch() {
                Ok(opcode) => !is_set_delay_op(opcode),
                Err(_) => true,
            },
            Err(_) => true,
        })
    }

    /// Whether the next cycle draws a random byte.
    pub open spec fn wants_random(self) -> bool {
        match self.fetch() {
            Ok(opcode) => is_random_op(opcode),
            Err(_) => false,
        }
    }
}

} // verus!
