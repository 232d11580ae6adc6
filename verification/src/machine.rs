//! The mathematical model of the machine: its state, the instruction set and
//! what each instruction does to the state.
//!
//! Everything here is ghost. The interpreter in [`crate::vm`] is proved to
//! move its state exactly as [`Machine::step`] says.

use vstd::prelude::*;
use crate::font::FONT;

verus! {

/// Bytes of memory.
pub const RAM_SIZE: usize = 4096;

/// General registers, `V0` to `VF`.
pub const NUM_REG: usize = 16;

/// Where a program is loaded and where execution starts.
pub const START_ADDR: u16 = 0x200;

/// Pixels in a display row.
pub const SCREEN_WIDTH: usize = 64;

/// Rows of the display.
pub const SCREEN_HEIGHT: usize = 32;

/// Pixels of the display, stored row by row.
pub const SCREEN_SIZE: usize = 2048;

/// The longest program that fits between `START_ADDR` and the end of memory.
pub const MAX_PROGRAM_LEN: usize = 3584;

/// A condition under which the machine cannot run its next cycle.
#[derive(Clone, Copy, Debug, PartialEq, Eq, Structural)]
pub enum Fault {
    /// The program counter does not leave room for a two-byte instruction
    /// inside memory.
    FetchOutOfRange,
    /// A return with an empty call stack.
    StackUnderflow,
    /// The instruction would read or write memory past the last byte.
    MemoryOutOfRange,
}

/// A decoded instruction. `x` and `y` number registers, `n` is a 4-bit, `nn`
/// an 8-bit and `addr` a 12-bit immediate.
pub enum Op {
    /// `00E0`: blank the display.
    Clear,
    /// `00EE`: return from a subroutine.
    Return,
    /// `1nnn`: jump.
    Jump { addr: u16 },
    /// `2nnn`: call a subroutine.
    Call { addr: u16 },
    /// `3xnn`: skip the next instruction if `Vx == nn`.
    SkipEqImm { x: int, nn: u8 },
    /// `4xnn`: skip the next instruction if `Vx != nn`.
    SkipNeImm { x: int, nn: u8 },
    /// `5xy0`: skip the next instruction if `Vx == Vy`.
    SkipEqReg { x: int, y: int },
    /// `9xy0`: skip the next instruction if `Vx != Vy`.
    SkipNeReg { x: int, y: int },
    /// `6xnn`: `Vx = nn`.
    LoadImm { x: int, nn: u8 },
    /// `7xnn`: `Vx += nn`, wrapping, flag untouched.
    AddImm { x: int, nn: u8 },
    /// `8xy0`: `Vx = Vy`.
    Copy { x: int, y: int },
    /// `8xy1`: `Vx |= Vy`.
    Or { x: int, y: int },
    /// `8xy2`: `Vx &= Vy`.
    And { x: int, y: int },
    /// `8xy3`: `Vx ^= Vy`.
    Xor { x: int, y: int },
    /// `8xy4`: `Vx += Vy` with carry in `VF`.
    Add { x: int, y: int },
    /// `8xy5`: `Vx -= Vy` with "no borrow" in `VF`.
    Sub { x: int, y: int },
    /// `8xy7`: `Vx = Vy - Vx` with "no borrow" in `VF`.
    SubReversed { x: int, y: int },
    /// `8xy6`: shift right by one, the bit shifted out in `VF`.
    ShiftRight { x: int, y: int },
    /// `8xyE`: shift left by one, the bit shifted out in `VF`.
    ShiftLeft { x: int, y: int },
    /// `Annn`: `I = nnn`.
    LoadIndex { addr: u16 },
    /// `Bnnn`: jump to `V0 + nnn`.
    JumpOffset { addr: u16 },
    /// `Cxnn`: `Vx = random byte & nn`.
    Random { x: int, nn: u8 },
    /// `Dxyn`: draw an `n`-row sprite at `(Vx, Vy)`.
    Draw { x: int, y: int, n: int },
    /// `Ex9E`: skip the next instruction if key `Vx` is pressed.
    SkipIfKey { x: int },
    /// `ExA1`: skip the next instruction if key `Vx` is not pressed.
    SkipIfNotKey { x: int },
    /// `Fx07`: `Vx = delay timer`.
    ReadDelay { x: int },
    /// `Fx0A`: wait for a key and store it in `Vx`.
    AwaitKey { x: int },
    /// `Fx15`: `delay timer = Vx`.
    SetDelay { x: int },
    /// `Fx18`: `sound timer = Vx`.
    SetSound { x: int },
    /// `Fx1E`: `I += Vx`.
    AddIndex { x: int },
    /// `Fx29`: `I =` address of the glyph for `Vx`.
    FontPointer { x: int },
    /// `Fx33`: store the three decimal digits of `Vx` at `I`.
    Bcd { x: int },
    /// `Fx55`: store `V0..=Vx` at `I`.
    Store { x: int },
    /// `Fx65`: load `V0..=Vx` from `I`.
    Load { x: int },
}

/// The top four bits of an instruction word.
pub open spec fn family(word: u16) -> int {
    word as int / 0x1000
}

/// Bits 8 to 11 of an instruction word: the first register operand.
pub open spec fn operand_x(word: u16) -> int {
    (word as int / 0x100) % 0x10
}

/// Bits 4 to 7 of an instruction word: the second register operand.
pub open spec fn operand_y(word: u16) -> int {
    (word as int / 0x10) % 0x10
}

/// The low four bits of an instruction word.
pub open spec fn operand_n(word: u16) -> int {
    word as int % 0x10
}

/// The low byte of an instruction word.
pub open spec fn operand_nn(word: u16) -> u8 {
    (word as int % 0x100) as u8
}

/// The low twelve bits of an instruction word.
pub open spec fn operand_nnn(word: u16) -> u16 {
    (word as int % 0x1000) as u16
}

/// The fields of an instruction word as the masks and shifts that cut them
/// out of it.
pub proof fn lemma_operand_bits(word: u16)
    ensures
        family(word) == (word & 0xF000) >> 12,
        family(word) == word >> 12,
        operand_x(word) == (word & 0x0F00) >> 8,
        operand_x(word) == (word >> 8) & 0xF,
        operand_y(word) == (word & 0x00F0) >> 4,
        operand_y(word) == (word >> 4) & 0xF,
        operand_n(word) == word & 0x000F,
        operand_nn(word) == word & 0x00FF,
        operand_nnn(word) == word & 0x0FFF,
        operand_x(operand_nnn(word)) == operand_x(word),
        operand_y(operand_nnn(word)) == operand_y(word),
        operand_n(operand_nnn(word)) == operand_n(word),
        operand_nn(operand_nnn(word)) == operand_nn(word),
        0 <= family(word) < 16,
        0 <= operand_x(word) < 16,
        0 <= operand_y(word) < 16,
        0 <= operand_n(word) < 16,
        operand_nnn(word) < 0x1000,
{
    assert((word & 0xF000) >> 12 == word / 0x1000 && word >> 12 == word / 0x1000 && word & 0x0FFF
        == word % 0x1000 && (word & 0x0F00) >> 8 == (word / 0x100) % 0x10 && (word >> 8) & 0xF == (
    word / 0x100) % 0x10 && (word & 0x00F0) >> 4 == (word / 0x10) % 0x10 && (word >> 4) & 0xF == (
    word / 0x10) % 0x10 && word & 0x000F == word % 0x10 && word & 0x00FF == word % 0x100 && ((word
        % 0x1000) / 0x100) % 0x10 == (word / 0x100) % 0x10 && ((word % 0x1000) / 0x10) % 0x10 == (
    word / 0x10) % 0x10 && (word % 0x1000) % 0x10 == word % 0x10 && (word % 0x1000) % 0x100 == word
        % 0x100) by (bit_vector);
}

/// The instruction that a word encodes, or `None` where the word matches no
/// pattern of the instruction set.
pub open spec fn decode(word: u16) -> Option<Op> {
    let x = operand_x(word);
    let y = operand_y(word);
    let n = operand_n(word);
    let nn = operand_nn(word);
    let addr = operand_nnn(word);
    let f = family(word);
    if f == 0x0 {
        if addr == 0x0E0 {
            Some(Op::Clear)
        } else if addr == 0x0EE {
            Some(Op::Return)
        } else {
            None
        }
    } else if f == 0x1 {
        Some(Op::Jump { addr })
    } else if f == 0x2 {
        Some(Op::Call { addr })
    } else if f == 0x3 {
        Some(Op::SkipEqImm { x, nn })
    } else if f == 0x4 {
        Some(Op::SkipNeImm { x, nn })
    } else if f == 0x5 {
        if n == 0 {
            Some(Op::SkipEqReg { x, y })
        } else {
            None
        }
    } else if f == 0x6 {
        Some(Op::LoadImm { x, nn })
    } else if f == 0x7 {
        Some(Op::AddImm { x, nn })
    } else if f == 0x8 {
        if n == 0x0 {
            Some(Op::Copy { x, y })
        } else if n == 0x1 {
            Some(Op::Or { x, y })
        } else if n == 0x2 {
            Some(Op::And { x, y })
        } else if n == 0x3 {
            Some(Op::Xor { x, y })
        } else if n == 0x4 {
            Some(Op::Add { x, y })
        } else if n == 0x5 {
            Some(Op::Sub { x, y })
        } else if n == 0x6 {
            Some(Op::ShiftRight { x, y })
        } else if n == 0x7 {
            Some(Op::SubReversed { x, y })
        } else if n == 0xE {
            Some(Op::ShiftLeft { x, y })
        } else {
            None
        }
    } else if f == 0x9 {
        if n == 0 {
            Some(Op::SkipNeReg { x, y })
        } else {
            None
        }
    } else if f == 0xA {
        Some(Op::LoadIndex { addr })
    } else if f == 0xB {
        Some(Op::JumpOffset { addr })
    } else if f == 0xC {
        Some(Op::Random { x, nn })
    } else if f == 0xD {
        Some(Op::Draw { x, y, n })
    } else if f == 0xE {
        if nn == 0x9E {
            Some(Op::SkipIfKey { x })
        } else if nn == 0xA1 {
            Some(Op::SkipIfNotKey { x })
        } else {
            None
        }
    } else {
        if nn == 0x07 {
            Some(Op::ReadDelay { x })
        } else if nn == 0x0A {
            Some(Op::AwaitKey { x })
        } else if nn == 0x15 {
            Some(Op::SetDelay { x })
        } else if nn == 0x18 {
            Some(Op::SetSound { x })
        } else if nn == 0x1E {
            Some(Op::AddIndex { x })
        } else if nn == 0x29 {
            Some(Op::FontPointer { x })
        } else if nn == 0x33 {
            Some(Op::Bcd { x })
        } else if nn == 0x55 {
            Some(Op::Store { x })
        } else if nn == 0x65 {
            Some(Op::Load { x })
        } else {
            None
        }
    }
}

/// Whether pixel `col` of a sprite row is lit: the leftmost pixel is the most
/// significant bit.
pub open spec fn sprite_bit(row: u8, col: int) -> bool {
    row & (0x80u8 >> (col as u8)) != 0
}

/// The whole state of the machine.
#[verifier::ext_equal]
pub struct Machine {
    /// Program counter.
    pub pc: u16,
    /// Memory, `RAM_SIZE` bytes.
    pub ram: Seq<u8>,
    /// Return addresses, the most recent last.
    pub stack: Seq<u16>,
    /// The display, `SCREEN_SIZE` pixels: pixel `(col, row)` is at index
    /// `row * 64 + col`.
    pub display: Seq<bool>,
    /// Delay timer.
    pub delay: u8,
    /// Sound timer.
    pub sound: u8,
    /// Index register `I`.
    pub index: u16,
    /// General registers `V0..VF`.
    pub v: Seq<u8>,
    /// Whether the shift instructions copy `Vy` into `Vx` before shifting.
    pub legacy: bool,
}

impl Machine {
    /// The three arrays have their fixed sizes.
    pub open spec fn wf(self) -> bool {
        &&& self.ram.len() == RAM_SIZE
        &&& self.display.len() == SCREEN_SIZE
        &&& self.v.len() == NUM_REG
    }

    /// The machine right after construction: the font at `FONT_ADDR`, the
    /// program at `START_ADDR`, everything else zero, empty or blank.
    pub open spec fn boot(program: Seq<u8>, legacy: bool) -> Machine {
        Machine {
            pc: START_ADDR,
            ram: Seq::new(
                RAM_SIZE as nat,
                |a: int|
                    if 0x50 <= a < 0xA0 {
                        FONT@[a - 0x50]
                    } else if 0x200 <= a < 0x200 + program.len() {
                        program[a - 0x200]
                    } else {
                        0u8
                    },
            ),
            stack: Seq::empty(),
            display: Seq::new(SCREEN_SIZE as nat, |i: int| false),
            delay: 0,
            sound: 0,
            index: 0,
            v: Seq::new(NUM_REG as nat, |i: int| 0u8),
            legacy,
        }
    }

    /// Both timers one tick later: each counts down to zero and stays there.
    pub open spec fn tick(self) -> Machine {
        Machine {
            delay: if self.delay > 0 { (self.delay - 1) as u8 } else { 0 },
            sound: if self.sound > 0 { (self.sound - 1) as u8 } else { 0 },
            ..self
        }
    }

    /// Register `x` set to `value`.
    pub open spec fn with_reg(self, x: int, value: u8) -> Machine {
        Machine { v: self.v.update(x, value), ..self }
    }

    /// The program counter set to `pc`.
    pub open spec fn with_pc(self, pc: u16) -> Machine {
        Machine { pc, ..self }
    }

    /// The program counter moved past one more instruction if `cond` holds.
    pub open spec fn skip_if(self, cond: bool) -> Machine {
        if cond {
            self.with_pc((self.pc + 2) as u16)
        } else {
            self
        }
    }

    /// The two bytes at `addr` and `addr + 1` as one word, high byte first.
    pub open spec fn word_at(self, addr: int) -> u16 {
        (self.ram[addr] as int * 0x100 + self.ram[addr + 1] as int) as u16
    }

    /// The instruction word at the program counter.
    pub open spec fn next_word(self) -> u16 {
        self.word_at(self.pc as int)
    }

    /// The instruction at the program counter.
    pub open spec fn next_op(self) -> Option<Op> {
        decode(self.next_word())
    }

    /// The word at the program counter if it can be fetched and encodes no
    /// instruction: the next cycle passes over it.
    pub open spec fn unknown_word(self) -> Option<u16> {
        if self.pc + 2 <= RAM_SIZE && self.next_op() is None {
            Some(self.next_word())
        } else {
            None
        }
    }

    /// The program counter moved past the instruction it points at.
    pub open spec fn fetched(self) -> Machine {
        self.with_pc((self.pc + 2) as u16)
    }

    /// `00E0`.
    pub open spec fn clear(self) -> Machine {
        Machine { display: Seq::new(SCREEN_SIZE as nat, |i: int| false), ..self }
    }

    /// `2nnn`: the program counter is pushed and then set to `addr`.
    pub open spec fn call(self, addr: u16) -> Machine {
        Machine { stack: self.stack.push(self.pc), pc: addr, ..self }
    }

    /// `00EE`: the most recent return address is popped into the program
    /// counter.
    pub open spec fn ret(self) -> Machine
        recommends
            self.stack.len() > 0,
    {
        Machine { pc: self.stack.last(), stack: self.stack.drop_last(), ..self }
    }

    /// `8xy4`: `Vx` receives the low eight bits of `Vx + Vy`, and then `VF`
    /// receives the carry.
    pub open spec fn add_regs(self, x: int, y: int) -> Machine {
        let sum = self.v[x] + self.v[y];
        self.with_reg(x, (sum % 256) as u8).with_reg(0xF, if sum >= 256 { 1u8 } else { 0u8 })
    }

    /// `8xy5` and, with `reversed`, `8xy7`. Both operands are read before
    /// anything is written: the minuend is `Vx` (with `reversed`, `Vy`) and
    /// the subtrahend is the other. Then `VF` receives 1 if the minuend is at
    /// least the subtrahend and 0 otherwise, and after that `Vx` receives the
    /// difference of the two values read, modulo 256.
    pub open spec fn sub_regs(self, x: int, y: int, reversed: bool) -> Machine {
        let minuend = if reversed { self.v[y] } else { self.v[x] };
        let subtrahend = if reversed { self.v[x] } else { self.v[y] };
        self.with_reg(0xF, if minuend >= subtrahend { 1u8 } else { 0u8 }).with_reg(
            x,
            ((minuend - subtrahend) % 256) as u8,
        )
    }

    /// What the shift instructions shift: `Vx`, after `Vy` has been copied
    /// into it in legacy mode.
    pub open spec fn shift_source(self, x: int, y: int) -> Machine {
        if self.legacy {
            self.with_reg(x, self.v[y])
        } else {
            self
        }
    }

    /// `8xy6`: `VF` receives the lowest bit of the source, and then `Vx` is
    /// halved.
    pub open spec fn shift_right(self, x: int, y: int) -> Machine {
        let source = self.shift_source(x, y);
        let flagged = source.with_reg(0xF, (source.v[x] % 2) as u8);
        flagged.with_reg(x, (flagged.v[x] / 2) as u8)
    }

    /// `8xyE`: `VF` receives the highest bit of the source, and then `Vx` is
    /// doubled, modulo 256.
    pub open spec fn shift_left(self, x: int, y: int) -> Machine {
        let source = self.shift_source(x, y);
        let flagged = source.with_reg(0xF, (source.v[x] / 128) as u8);
        flagged.with_reg(x, ((flagged.v[x] * 2) % 256) as u8)
    }

    /// `Cxnn`: `Vx` receives the bits of `byte` that `mask` lets through.
    pub open spec fn random(self, x: int, mask: u8, byte: u8) -> Machine {
        self.with_reg(x, byte & mask)
    }

    /// `Fx0A`: with a key pressed, `Vx` receives the first key reported;
    /// with none, the program counter goes back to the instruction, which
    /// then runs again in the next cycle.
    pub open spec fn await_key(self, x: int, keys: Seq<u8>) -> Machine {
        if keys.len() > 0 {
            self.with_reg(x, keys[0])
        } else {
            self.with_pc((self.pc - 2) as u16)
        }
    }

    /// `Fx1E`: 16-bit addition without a flag.
    pub open spec fn add_index(self, x: int) -> Machine {
        Machine { index: ((self.index + self.v[x]) % 0x10000) as u16, ..self }
    }

    /// `Fx29`: of the sixteen glyphs, glyph `Vx` is the five bytes that `I`
    /// then points at.
    pub open spec fn font_pointer(self, x: int) -> Machine {
        Machine { index: (0x50 + self.v[x] * 5) as u16, ..self }
    }

    /// `Fx33`: hundreds, tens and ones of `Vx` at `I`, `I + 1` and `I + 2`.
    pub open spec fn bcd(self, x: int) -> Machine {
        let value = self.v[x] as int;
        let at = self.index as int;
        Machine {
            ram: self.ram.update(at, (value / 100) as u8).update(
                at + 1,
                (value / 10 % 10) as u8,
            ).update(at + 2, (value % 10) as u8),
            ..self
        }
    }

    /// `Fx55`: registers `V0..=Vx` copied to memory at `I..=I + x`.
    pub open spec fn store(self, x: int) -> Machine {
        let at = self.index as int;
        Machine {
            ram: Seq::new(
                self.ram.len(),
                |a: int|
                    if at <= a <= at + x {
                        self.v[a - at]
                    } else {
                        self.ram[a]
                    },
            ),
            ..self
        }
    }

    /// `Fx65`: memory at `I..=I + x` copied to registers `V0..=Vx`.
    pub open spec fn load(self, x: int) -> Machine {
        let at = self.index as int;
        Machine {
            v: Seq::new(
                self.v.len(),
                |i: int|
                    if i <= x {
                        self.ram[at + i]
                    } else {
                        self.v[i]
                    },
            ),
            ..self
        }
    }

    /// Column of the sprite origin of a draw at `(Vx, Vy)`.
    pub open spec fn origin_col(self, x: int) -> int {
        self.v[x] as int % 64
    }

    /// Row of the sprite origin of a draw at `(Vx, Vy)`.
    pub open spec fn origin_row(self, y: int) -> int {
        self.v[y] as int % 32
    }

    /// How many of the `n` sprite rows of a draw at row `Vy` land on the
    /// display; the others are dropped.
    pub open spec fn visible_rows(self, y: int, n: int) -> int {
        if n <= 32 - self.origin_row(y) {
            n
        } else {
            32 - self.origin_row(y)
        }
    }

    /// Whether a draw of `n` rows at `(Vx, Vy)` puts a lit sprite pixel on
    /// the display pixel `(col, row)`. Only the origin wraps: a sprite
    /// pixel that would land right of column 63 or below row 31 is dropped.
    pub open spec fn sprite_covers(self, x: int, y: int, n: int, col: int, row: int) -> bool {
        let left = self.origin_col(x);
        let top = self.origin_row(y);
        &&& top <= row < top + n
        &&& row < 32
        &&& left <= col < left + 8
        &&& col < 64
        &&& sprite_bit(self.ram[self.index + (row - top)], col - left)
    }

    /// Whether a draw of `n` rows at `(Vx, Vy)` meets a pixel that is
    /// already lit.
    pub open spec fn sprite_collides(self, x: int, y: int, n: int) -> bool {
        exists|i: int|
            0 <= i < 2048 && #[trigger] self.display[i] && self.sprite_covers(
                x,
                y,
                n,
                i % 64,
                i / 64,
            )
    }

    /// `Dxyn`: every display pixel that the sprite covers is flipped, and
    /// `VF` tells whether any of them was lit before.
    pub open spec fn draw(self, x: int, y: int, n: int) -> Machine {
        Machine {
            display: Seq::new(
                self.display.len(),
                |i: int| self.display[i] != self.sprite_covers(x, y, n, i % 64, i / 64),
            ),
            v: self.v.update(0xF, if self.sprite_collides(x, y, n) { 1u8 } else { 0u8 }),
            ..self
        }
    }

    /// The state after `op` has run. `keys` are the keys pressed, as the
    /// host reports them, and `random` is the byte that `Random` draws. The
    /// program counter has already moved past the instruction.
    pub open spec fn apply(self, op: Op, keys: Seq<u8>, random: u8) -> Machine {
        match op {
            Op::Clear => self.clear(),
            Op::Return => self.ret(),
            Op::Jump { addr } => self.with_pc(addr),
            Op::Call { addr } => self.call(addr),
            Op::SkipEqImm { x, nn } => self.skip_if(self.v[x] == nn),
            Op::SkipNeImm { x, nn } => self.skip_if(self.v[x] != nn),
            Op::SkipEqReg { x, y } => self.skip_if(self.v[x] == self.v[y]),
            Op::SkipNeReg { x, y } => self.skip_if(self.v[x] != self.v[y]),
            Op::LoadImm { x, nn } => self.with_reg(x, nn),
            Op::AddImm { x, nn } => self.with_reg(x, ((self.v[x] + nn) % 256) as u8),
            Op::Copy { x, y } => self.with_reg(x, self.v[y]),
            Op::Or { x, y } => self.with_reg(x, self.v[x] | self.v[y]),
            Op::And { x, y } => self.with_reg(x, self.v[x] & self.v[y]),
            Op::Xor { x, y } => self.with_reg(x, self.v[x] ^ self.v[y]),
            Op::Add { x, y } => self.add_regs(x, y),
            Op::Sub { x, y } => self.sub_regs(x, y, false),
            Op::SubReversed { x, y } => self.sub_regs(x, y, true),
            Op::ShiftRight { x, y } => self.shift_right(x, y),
            Op::ShiftLeft { x, y } => self.shift_left(x, y),
            Op::LoadIndex { addr } => Machine { index: addr, ..self },
            Op::JumpOffset { addr } => self.with_pc((self.v[0] + addr) as u16),
            Op::Random { x, nn } => self.random(x, nn, random),
            Op::Draw { x, y, n } => self.draw(x, y, n),
            Op::SkipIfKey { x } => self.skip_if(keys.contains(self.v[x])),
            Op::SkipIfNotKey { x } => self.skip_if(!keys.contains(self.v[x])),
            Op::ReadDelay { x } => self.with_reg(x, self.delay),
            Op::AwaitKey { x } => self.await_key(x, keys),
            Op::SetDelay { x } => Machine { delay: self.v[x], ..self },
            Op::SetSound { x } => Machine { sound: self.v[x], ..self },
            Op::AddIndex { x } => self.add_index(x),
            Op::FontPointer { x } => self.font_pointer(x),
            Op::Bcd { x } => self.bcd(x),
            Op::Store { x } => self.store(x),
            Op::Load { x } => self.load(x),
        }
    }

    /// The state after the instruction `word` has run: a word that encodes
    /// no instruction changes nothing.
    pub open spec fn execute(self, word: u16, keys: Seq<u8>, random: u8) -> Machine {
        match decode(word) {
            Some(op) => self.apply(op, keys, random),
            None => self,
        }
    }

    /// Whether `op` would leave memory or the call stack.
    pub open spec fn op_fault(self, op: Op) -> Option<Fault> {
        match op {
            Op::Return => if self.stack.len() == 0 {
                Some(Fault::StackUnderflow)
            } else {
                None
            },
            Op::Draw { x, y, n } => if n > 0 && self.index + self.visible_rows(y, n) > RAM_SIZE {
                Some(Fault::MemoryOutOfRange)
            } else {
                None
            },
            Op::Bcd { x } => if self.index + 3 > RAM_SIZE {
                Some(Fault::MemoryOutOfRange)
            } else {
                None
            },
            Op::Store { x } => if self.index + x + 1 > RAM_SIZE {
                Some(Fault::MemoryOutOfRange)
            } else {
                None
            },
            Op::Load { x } => if self.index + x + 1 > RAM_SIZE {
                Some(Fault::MemoryOutOfRange)
            } else {
                None
            },
            _ => None,
        }
    }

    /// The fault that the next cycle would run into, if any: the fetch
    /// comes first, then the instruction fetched.
    pub open spec fn fault(self) -> Option<Fault> {
        if self.pc + 2 > RAM_SIZE {
            Some(Fault::FetchOutOfRange)
        } else {
            match self.next_op() {
                Some(op) => self.op_fault(op),
                None => None,
            }
        }
    }

    /// One cycle: fetch the instruction at the program counter, move the
    /// counter past it, run the instruction.
    pub open spec fn step(self, keys: Seq<u8>, random: u8) -> Machine {
        self.fetched().execute(self.next_word(), keys, random)
    }
}

} // verus!
