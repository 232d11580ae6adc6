//! The interpreter: the machine's state in executable form and the
//! fetch-decode-execute cycle, each instruction proved against
//! [`crate::machine`].

use std::collections::VecDeque;
use vstd::prelude::*;
use vstd::slice::slice_subrange;
use crate::font::FONT;
use crate::machine::{
    decode, lemma_operand_bits, operand_n, operand_nn, operand_x, operand_y, Fault, Machine,
    MAX_PROGRAM_LEN, NUM_REG, RAM_SIZE, START_ADDR,
};
use crate::random::random_byte;

verus! {

/// A CHIP-8 machine. Its mathematical state is its view, a [`Machine`].
pub struct Core {
    pc: u16,
    ram: [u8; 4096],
    stack: VecDeque<u16>,
    /// The display, row by row: pixel `(col, row)` is `display[row * 64 + col]`.
    pub display: [bool; 2048],
    d_timer: u8,
    s_timer: u8,
    i_reg: u16,
    v_reg: [u8; 16],
    legacy: bool,
}

impl View for Core {
    type V = Machine;

    closed spec fn view(&self) -> Machine {
        Machine {
            pc: self.pc,
            ram: self.ram@,
            stack: self.stack@,
            display: self.display@,
            delay: self.d_timer,
            sound: self.s_timer,
            index: self.i_reg,
            v: self.v_reg@,
            legacy: self.legacy,
        }
    }
}

/// Copies `src` over `dst[at .. at + src.len()]` and leaves the rest of
/// `dst` as it was.
fn copy_bytes<const N: usize>(dst: &mut [u8; N], at: usize, src: &[u8])
    requires
        at + src@.len() <= N,
    ensures
        final(dst)@ == Seq::new(
            N as nat,
            |a: int|
                if at <= a < at + src@.len() {
                    src@[a - at]
                } else {
                    old(dst)@[a]
                },
        ),
{
    let ghost before = dst@;
    let mut i: usize = 0;
    while i < src.len()
        invariant
            i <= src@.len(),
            at + src@.len() <= N,
            dst@ == Seq::new(
                N as nat,
                |a: int|
                    if at <= a < at + i {
                        src@[a - at]
                    } else {
                        before[a]
                    },
            ),
        decreases src@.len() - i,
    {
        dst[at + i] = src[i];
        i += 1;
    }
}

/// The register that bits 8 to 11 of `rest` name.
fn field_x(rest: u16) -> (x: usize)
    ensures
        x == operand_x(rest),
        x < NUM_REG,
{
    proof {
        lemma_operand_bits(rest);
    }
    ((rest & 0xF00) >> 8) as usize
}

/// The register that bits 4 to 7 of `rest` name.
fn field_y(rest: u16) -> (y: usize)
    ensures
        y == operand_y(rest),
        y < NUM_REG,
{
    proof {
        lemma_operand_bits(rest);
    }
    ((rest & 0x0F0) >> 4) as usize
}

/// The low four bits of `rest`.
fn field_n(rest: u16) -> (n: u16)
    ensures
        n == operand_n(rest),
        n < 16,
{
    proof {
        lemma_operand_bits(rest);
    }
    rest & 0x00F
}

/// The low byte of `rest`.
fn field_nn(rest: u16) -> (nn: u8)
    ensures
        nn == operand_nn(rest),
{
    proof {
        lemma_operand_bits(rest);
    }
    (rest & 0x0FF) as u8
}

/// Whether `word` encodes an instruction.
pub fn is_instruction(word: u16) -> (known: bool)
    ensures
        known == decode(word) is Some,
{
    proof {
        lemma_operand_bits(word);
    }
    let nibble = (word & 0xF000) >> 12;
    let low = word & 0x00FF;
    let last = word & 0x000F;
    match nibble {
        0x0 => word == 0x00E0 || word == 0x00EE,
        0x5 => last == 0,
        0x9 => last == 0,
        0x8 => last <= 0x7 || last == 0xE,
        0xE => low == 0x9E || low == 0xA1,
        0xF => low == 0x07 || low == 0x0A || low == 0x15 || low == 0x18 || low == 0x1E || low
            == 0x29 || low == 0x33 || low == 0x55 || low == 0x65,
        _ => true,
    }
}

/// Whether `key` is among `keys`.
fn contains(keys: &[u8], key: u8) -> (found: bool)
    ensures
        found == keys@.contains(key),
{
    let mut i: usize = 0;
    while i < keys.len()
        invariant
            i <= keys@.len(),
            forall|j: int| 0 <= j < i ==> keys@[j] != key,
        decreases keys@.len() - i,
    {
        if keys[i] == key {
            return true;
        }
        i += 1;
    }
    false
}

/// Whether display pixel `i` is drawn before pixel `(col, row)`: a draw goes
/// through the display row by row, each row from left to right.
spec fn before(i: int, row: int, col: int) -> bool {
    i / 64 < row || (i / 64 == row && i % 64 < col)
}

/// Whether the part of a draw that comes before pixel `(col, row)` meets a
/// lit pixel.
spec fn collides_until(m: Machine, x: int, y: int, n: int, row: int, col: int) -> bool {
    exists|i: int|
        0 <= i < 2048 && #[trigger] m.display[i] && m.sprite_covers(x, y, n, i % 64, i / 64)
            && before(i, row, col)
}

/// The state of a draw that has come as far as pixel `(col, row)`.
spec fn draw_until(m: Machine, x: int, y: int, n: int, row: int, col: int) -> Machine {
    Machine {
        display: Seq::new(
            m.display.len(),
            |i: int|
                m.display[i] != (m.sprite_covers(x, y, n, i % 64, i / 64) && before(i, row, col)),
        ),
        v: m.v.update(0xF, if collides_until(m, x, y, n, row, col) { 1u8 } else { 0u8 }),
        ..m
    }
}

/// Two points of a draw between which the sprite covers no pixel are the
/// same state.
proof fn lemma_draw_skip(m: Machine, x: int, y: int, n: int, r1: int, c1: int, r2: int, c2: int)
    requires
        m.wf(),
        forall|i: int|
            0 <= i < 2048 && m.sprite_covers(x, y, n, i % 64, i / 64) ==> (#[trigger] before(
                i,
                r1,
                c1,
            ) == before(i, r2, c2)),
    ensures
        draw_until(m, x, y, n, r1, c1) == draw_until(m, x, y, n, r2, c2),
{
    assert(collides_until(m, x, y, n, r1, c1) == collides_until(m, x, y, n, r2, c2)) by {
        if collides_until(m, x, y, n, r1, c1) {
            let i = choose|i: int|
                0 <= i < 2048 && #[trigger] m.display[i] && m.sprite_covers(
                    x,
                    y,
                    n,
                    i % 64,
                    i / 64,
                ) && before(i, r1, c1);
            assert(before(i, r2, c2));
        }
        if collides_until(m, x, y, n, r2, c2) {
            let i = choose|i: int|
                0 <= i < 2048 && #[trigger] m.display[i] && m.sprite_covers(
                    x,
                    y,
                    n,
                    i % 64,
                    i / 64,
                ) && before(i, r2, c2);
            assert(before(i, r1, c1) == before(i, r2, c2));
        }
    }
    assert forall|i: int| 0 <= i < 2048 implies draw_until(m, x, y, n, r1, c1).display[i]
        == draw_until(m, x, y, n, r2, c2).display[i] by {
        assert(m.sprite_covers(x, y, n, i % 64, i / 64) ==> before(i, r1, c1) == before(
            i,
            r2,
            c2,
        ));
    }
    assert(draw_until(m, x, y, n, r1, c1) =~= draw_until(m, x, y, n, r2, c2));
}

/// A draw that has gone through the whole display is the draw.
proof fn lemma_draw_done(m: Machine, x: int, y: int, n: int, row: int)
    requires
        m.wf(),
        row >= 32 || row >= m.origin_row(y) + n,
    ensures
        draw_until(m, x, y, n, row, 0) == m.draw(x, y, n),
{
    assert(collides_until(m, x, y, n, row, 0) == m.sprite_collides(x, y, n)) by {
        if collides_until(m, x, y, n, row, 0) {
            let i = choose|i: int|
                0 <= i < 2048 && #[trigger] m.display[i] && m.sprite_covers(
                    x,
                    y,
                    n,
                    i % 64,
                    i / 64,
                ) && before(i, row, 0);
            assert(m.display[i] && m.sprite_covers(x, y, n, i % 64, i / 64));
        }
        if m.sprite_collides(x, y, n) {
            let i = choose|i: int|
                0 <= i < 2048 && #[trigger] m.display[i] && m.sprite_covers(
                    x,
                    y,
                    n,
                    i % 64,
                    i / 64,
                );
            assert(before(i, row, 0));
        }
    }
    assert(draw_until(m, x, y, n, row, 0) =~= m.draw(x, y, n));
}

/// Drawing one more pixel: the pixel flips if the sprite covers it, and
/// the draw collides if it did before or this pixel was lit and covered.
proof fn lemma_draw_pixel(m: Machine, x: int, y: int, n: int, row: int, col: int)
    requires
        m.wf(),
        0 <= row < 32,
        0 <= col < 64,
    ensures
        draw_until(m, x, y, n, row, col + 1).display == draw_until(
            m,
            x,
            y,
            n,
            row,
            col,
        ).display.update(
            row * 64 + col,
            m.display[row * 64 + col] != m.sprite_covers(x, y, n, col, row),
        ),
        draw_until(m, x, y, n, row, col).display[row * 64 + col] == m.display[row * 64 + col],
        collides_until(m, x, y, n, row, col + 1) == (collides_until(m, x, y, n, row, col) || (
        m.display[row * 64 + col] && m.sprite_covers(x, y, n, col, row))),
{
    let p = row * 64 + col;
    assert(p / 64 == row && p % 64 == col);
    assert forall|i: int| 0 <= i < 2048 implies #[trigger] before(i, row, col + 1) == (before(
        i,
        row,
        col,
    ) || i == p) by {}
    assert(collides_until(m, x, y, n, row, col + 1) == (collides_until(m, x, y, n, row, col) || (
    m.display[p] && m.sprite_covers(x, y, n, col, row)))) by {
        if collides_until(m, x, y, n, row, col + 1) {
            let i = choose|i: int|
                0 <= i < 2048 && #[trigger] m.display[i] && m.sprite_covers(
                    x,
                    y,
                    n,
                    i % 64,
                    i / 64,
                ) && before(i, row, col + 1);
            if i != p {
                assert(before(i, row, col));
            }
        }
        if collides_until(m, x, y, n, row, col) {
            let i = choose|i: int|
                0 <= i < 2048 && #[trigger] m.display[i] && m.sprite_covers(
                    x,
                    y,
                    n,
                    i % 64,
                    i / 64,
                ) && before(i, row, col);
            assert(before(i, row, col + 1));
        }
        if m.display[p] && m.sprite_covers(x, y, n, col, row) {
            assert(before(p, row, col + 1));
        }
    }
    assert(draw_until(m, x, y, n, row, col + 1).display =~= draw_until(
        m,
        x,
        y,
        n,
        row,
        col,
    ).display.update(p, m.display[p] != m.sprite_covers(x, y, n, col, row)));
}

impl Core {
    /// A machine with `program` loaded at `START_ADDR`, about to run its
    /// first instruction.
    pub fn new(program: &[u8], legacy: bool) -> (core: Core)
        requires
            program@.len() <= MAX_PROGRAM_LEN,
        ensures
            core@ == Machine::boot(program@, legacy),
    {
        let mut new_core = Core {
            pc: START_ADDR,
            ram: [0; 4096],
            stack: VecDeque::new(),
            display: [false; 2048],
            d_timer: 0,
            s_timer: 0,
            i_reg: 0,
            v_reg: [0; 16],
            legacy: legacy,
        };
        new_core.load_sprites();
        new_core.load_rom(program);
        assert(new_core@ =~= Machine::boot(program@, legacy));
        new_core
    }

    /// Copies the program into memory from `START_ADDR` on.
    pub fn load_rom(&mut self, program: &[u8])
        requires
            program@.len() <= MAX_PROGRAM_LEN,
        ensures
            final(self)@ == (Machine {
                ram: Seq::new(
                    RAM_SIZE as nat,
                    |a: int|
                        if 0x200 <= a < 0x200 + program@.len() {
                            program@[a - 0x200]
                        } else {
                            old(self)@.ram[a]
                        },
                ),
                ..old(self)@
            }),
    {
        copy_bytes(&mut self.ram, 0x200, program);
        assert(self@ =~= (Machine {
            ram: Seq::new(
                RAM_SIZE as nat,
                |a: int|
                    if 0x200 <= a < 0x200 + program@.len() {
                        program@[a - 0x200]
                    } else {
                        old(self)@.ram[a]
                    },
            ),
            ..old(self)@
        }));
    }

    /// Writes the font table into memory at `FONT_ADDR`.
    pub fn load_sprites(&mut self)
        ensures
            final(self)@ == (Machine {
                ram: Seq::new(
                    RAM_SIZE as nat,
                    |a: int|
                        if 0x50 <= a < 0xA0 {
                            FONT@[a - 0x50]
                        } else {
                            old(self)@.ram[a]
                        },
                ),
                ..old(self)@
            }),
    {
        copy_bytes(&mut self.ram, 0x50, &FONT);
        assert(self@ =~= (Machine {
            ram: Seq::new(
                RAM_SIZE as nat,
                |a: int|
                    if 0x50 <= a < 0xA0 {
                        FONT@[a - 0x50]
                    } else {
                        old(self)@.ram[a]
                    },
            ),
            ..old(self)@
        }));
    }

    /// Counts both timers down by one; a timer at zero stays at zero.
    pub fn decrement_timers(&mut self)
        ensures
            final(self)@ == old(self)@.tick(),
    {
        if self.d_timer > 0 {
            self.d_timer -= 1;
        }
        if self.s_timer > 0 {
            self.s_timer -= 1;
        }
    }
    /// The view has the fixed sizes of the machine.
    pub proof fn lemma_view_wf(&self)
        ensures
            self@.wf(),
    {
    }

    /// The display, as the public field holds it.
    pub fn display(&self) -> (display: &[bool; 2048])
        ensures
            display@ == self@.display,
    {
        &self.display
    }

    /// The program counter.
    pub fn pc(&self) -> (pc: u16)
        ensures
            pc == self@.pc,
    {
        self.pc
    }

    /// The index register `I`.
    pub fn index(&self) -> (index: u16)
        ensures
            index == self@.index,
    {
        self.i_reg
    }

    /// The general registers `V0..VF`.
    pub fn registers(&self) -> (v: &[u8; 16])
        ensures
            v@ == self@.v,
    {
        &self.v_reg
    }

    /// The whole memory.
    pub fn memory(&self) -> (ram: &[u8; 4096])
        ensures
            ram@ == self@.ram,
    {
        &self.ram
    }

    /// How many return addresses are on the call stack.
    pub fn stack_depth(&self) -> (depth: usize)
        ensures
            depth == self@.stack.len(),
    {
        self.stack.len()
    }

    /// The delay timer.
    pub fn delay_timer(&self) -> (delay: u8)
        ensures
            delay == self@.delay,
    {
        self.d_timer
    }

    /// The sound timer: a host sounds its tone while this is not zero.
    pub fn sound_timer(&self) -> (sound: u8)
        ensures
            sound == self@.sound,
    {
        self.s_timer
    }

    /// Whether the machine was built in legacy mode.
    pub fn is_legacy(&self) -> (legacy: bool)
        ensures
            legacy == self@.legacy,
    {
        self.legacy
    }

    /// Runs one cycle: fetches the instruction at the program counter and
    /// executes it. For every instruction but `Cxnn` the outcome does not
    /// depend on `random`, so that it is the one state that [`Machine::step`]
    /// gives; of `Cxnn` the contract says that some byte was drawn.
    pub fn cycle(&mut self, keys: &[u8])
        requires
            old(self)@.fault() is None,
        ensures
            exists|random: u8| final(self)@ == #[trigger] old(self)@.step(keys@, random),
    {
        let instruction = self.fetch();
        let ghost fetched = self@;
        self.decode_and_exec(instruction, keys);
        proof {
            let random = choose|random: u8|
                self@ == #[trigger] fetched.execute(instruction, keys@, random);
            assert(self@ == old(self)@.step(keys@, random));
        }
    }

    /// Runs one cycle unless a fault stands in its way; then it reports the
    /// fault and leaves the machine as it was.
    pub fn try_cycle(&mut self, keys: &[u8]) -> (result: Result<(), Fault>)
        ensures
            match old(self)@.fault() {
                Some(fault) => result == Err::<(), Fault>(fault) && final(self)@ == old(self)@,
                None => result is Ok && exists|random: u8|
                    final(self)@ == #[trigger] old(self)@.step(keys@, random),
            },
    {
        match self.fault() {
            Some(fault) => Err(fault),
            None => {
                self.cycle(keys);
                Ok(())
            },
        }
    }

    /// The fault that the next cycle would run into, if any.
    pub fn fault(&self) -> (fault: Option<Fault>)
        ensures
            fault == self@.fault(),
    {
        if self.pc > 4094 {
            return Some(Fault::FetchOutOfRange);
        }
        let instruction: u16 = self.peek();
        proof {
            lemma_operand_bits(instruction);
        }
        let nibble = (instruction & 0xF000) >> 12;
        let rest = instruction & 0x0FFF;
        if instruction == 0x00EE {
            if self.stack.len() == 0 {
                Some(Fault::StackUnderflow)
            } else {
                None
            }
        } else if nibble == 0xD {
            let rows: usize = field_n(rest) as usize;
            let room: usize = 32 - (self.v_reg[field_y(rest)] % 32) as usize;
            let visible: usize = if rows <= room {
                rows
            } else {
                room
            };
            if rows > 0 && self.i_reg as usize + visible > 4096 {
                Some(Fault::MemoryOutOfRange)
            } else {
                None
            }
        } else if nibble == 0xF {
            let low = field_nn(rest);
            if low == 0x33 {
                if self.i_reg as usize + 3 > 4096 {
                    Some(Fault::MemoryOutOfRange)
                } else {
                    None
                }
            } else if low == 0x55 || low == 0x65 {
                if self.i_reg as usize + field_x(rest) + 1 > 4096 {
                    Some(Fault::MemoryOutOfRange)
                } else {
                    None
                }
            } else {
                None
            }
        } else {
            None
        }
    }

    /// The word at the program counter if it can be fetched and encodes no
    /// instruction. The next cycle passes over such a word; a host that
    /// wants to report it asks here first.
    pub fn unknown_word(&self) -> (word: Option<u16>)
        ensures
            word == self@.unknown_word(),
    {
        if self.pc > 4094 {
            return None;
        }
        let instruction = self.peek();
        if is_instruction(instruction) {
            None
        } else {
            Some(instruction)
        }
    }

    /// Executes `instruction`, the program counter having moved past it. A
    /// word that encodes no instruction is passed over.
    pub fn decode_and_exec(&mut self, instruction: u16, keys: &[u8])
        requires
            2 <= old(self)@.pc,
            old(self)@.pc + 2 <= u16::MAX,
            decode(instruction) matches Some(op) ==> old(self)@.op_fault(op) is None,
        ensures
            exists|random: u8|
                final(self)@ == #[trigger] old(self)@.execute(instruction, keys@, random),
    {
        let nibble = (instruction & 0xF000) >> 12;
        let rest = instruction & 0x0FFF;
        let ghost before = self@;
        proof {
            lemma_operand_bits(instruction);
            lemma_operand_bits(rest);
        }
        match nibble {
            0x0 => match rest {
                0x000 => self.noop(),
                0x0E0 => self.clear_screen(),
                0x0EE => self.ret_subroutine(),
                _ => {},
            },
            0x1 => self.jump(rest),
            0x2 => self.call(rest),
            0x3 => self.skip_eq_val(rest),
            0x4 => self.skip_neq_val(rest),
            0x5 => if field_n(rest) == 0 {
                self.skip_eq_reg(rest)
            },
            0x9 => if field_n(rest) == 0 {
                self.skip_neq_reg(rest)
            },
            0x6 => self.set_v(rest),
            0x7 => self.add_v_no_carry(rest),
            0x8 => match rest & 0x00F {
                0x0 => self.set(rest),
                0x1 => self.or(rest),
                0x2 => self.and(rest),
                0x3 => self.xor(rest),
                0x4 => self.add(rest),
                0x5 => self.sub(rest),
                0x7 => self.sub(rest),
                0x6 => self.right_shift(rest),
                0xE => self.left_shift(rest),
                _ => {},
            },
            0xA => self.set_i(rest),
            0xB => self.jump_offset(rest),
            0xC => {
                self.rand(rest);
                proof {
                    let byte = choose|byte: u8|
                        self@ == #[trigger] before.random(
                            operand_x(rest),
                            operand_nn(rest),
                            byte,
                        );
                    assert(self@ == before.execute(instruction, keys@, byte));
                }
            },
            0xD => self.draw_sprite(rest),
            0xE => self.key_skip(rest, keys),
            0xF => match rest & 0x0FF {
                0x07 => {
                    self.v_reg[field_x(rest)] = self.d_timer;
                },
                0x15 => {
                    self.d_timer = self.v_reg[field_x(rest)];
                },
                0x18 => {
                    self.s_timer = self.v_reg[field_x(rest)];
                },
                0x0A => self.await_key(rest, keys),
                0x1E => {
                    self.i_reg = self.i_reg.wrapping_add(self.v_reg[field_x(rest)] as u16);
                },
                0x29 => self.set_i_font(rest),
                0x33 => self.bcd(rest),
                0x55 => self.store_mem(rest),
                0x65 => self.fill_mem(rest),
                _ => {},
            },
            _ => {},
        };
        proof {
            if nibble != 0xC {
                assert(self@ == before.execute(instruction, keys@, 0u8));
            }
        }
    }

    /// Reads the instruction at the program counter, high byte first, and
    /// moves the counter past it.
    pub fn fetch(&mut self) -> (word: u16)
        requires
            old(self)@.pc + 2 <= RAM_SIZE,
        ensures
            word == old(self)@.next_word(),
            final(self)@ == old(self)@.fetched(),
    {
        let word = self.peek();
        self.pc += 2;
        word
    }

    /// The instruction at the program counter, high byte first.
    fn peek(&self) -> (word: u16)
        requires
            self@.pc + 2 <= RAM_SIZE,
        ensures
            word == self@.next_word(),
    {
        let mut high_byte: u16 = self.ram[self.pc as usize] as u16;
        let low_byte: u16 = self.ram[self.pc as usize + 1] as u16;
        assert(high_byte << 8 == high_byte * 0x100) by (bit_vector)
            requires
                high_byte < 0x100,
        ;
        high_byte = high_byte << 8;
        high_byte + low_byte
    }

    /// Does nothing.
    pub fn noop(&self) {
    }

    /// `00E0`.
    pub fn clear_screen(&mut self)
        ensures
            final(self)@ == old(self)@.clear(),
    {
        self.display = [false; 2048];
        assert(self@ =~= old(self)@.clear());
    }

    /// `1nnn`.
    pub fn jump(&mut self, addr: u16)
        ensures
            final(self)@ == old(self)@.with_pc(addr),
    {
        self.pc = addr;
    }

    /// `2nnn`.
    pub fn call(&mut self, addr: u16)
        ensures
            final(self)@ == old(self)@.call(addr),
    {
        self.stack.push_back(self.pc);
        self.pc = addr;
    }

    /// `00EE`.
    pub fn ret_subroutine(&mut self)
        requires
            old(self)@.stack.len() > 0,
        ensures
            final(self)@ == old(self)@.ret(),
    {
        match self.stack.pop_back() {
            Some(addr) => {
                self.pc = addr;
            },
            None => {},
        }
        assert(self@ =~= old(self)@.ret());
    }

    /// `3xnn`.
    pub fn skip_eq_val(&mut self, rest: u16)
        requires
            old(self)@.pc + 2 <= u16::MAX,
        ensures
            final(self)@ == old(self)@.skip_if(old(self)@.v[operand_x(rest)] == operand_nn(rest)),
    {
        let x = field_x(rest);
        let val: u8 = field_nn(rest);

        if self.v_reg[x] == val {
            self.pc += 2;
        }
    }

    /// `4xnn`.
    pub fn skip_neq_val(&mut self, rest: u16)
        requires
            old(self)@.pc + 2 <= u16::MAX,
        ensures
            final(self)@ == old(self)@.skip_if(old(self)@.v[operand_x(rest)] != operand_nn(rest)),
    {
        let x = field_x(rest);
        let val: u8 = field_nn(rest);

        if self.v_reg[x] != val {
            self.pc += 2;
        }
    }

    /// `5xy0`.
    pub fn skip_eq_reg(&mut self, rest: u16)
        requires
            old(self)@.pc + 2 <= u16::MAX,
        ensures
            final(self)@ == old(self)@.skip_if(
                old(self)@.v[operand_x(rest)] == old(self)@.v[operand_y(rest)],
            ),
    {
        let x = field_x(rest);
        let y = field_y(rest);

        if self.v_reg[x] == self.v_reg[y] {
            self.pc += 2;
        }
    }

    /// `9xy0`.
    pub fn skip_neq_reg(&mut self, rest: u16)
        requires
            old(self)@.pc + 2 <= u16::MAX,
        ensures
            final(self)@ == old(self)@.skip_if(
                old(self)@.v[operand_x(rest)] != old(self)@.v[operand_y(rest)],
            ),
    {
        let x = field_x(rest);
        let y = field_y(rest);

        if self.v_reg[x] != self.v_reg[y] {
            self.pc += 2;
        }
    }

    /// `6xnn`.
    pub fn set_v(&mut self, rest: u16)
        ensures
            final(self)@ == old(self)@.with_reg(operand_x(rest), operand_nn(rest)),
    {
        let x = field_x(rest);
        self.v_reg[x] = field_nn(rest);
    }

    /// `7xnn`.
    pub fn add_v_no_carry(&mut self, rest: u16)
        ensures
            final(self)@ == old(self)@.with_reg(
                operand_x(rest),
                ((old(self)@.v[operand_x(rest)] + operand_nn(rest)) % 256) as u8,
            ),
    {
        let x = field_x(rest);
        self.v_reg[x] = self.v_reg[x].wrapping_add(field_nn(rest));
    }

    /// `8xy0`.
    pub fn set(&mut self, rest: u16)
        ensures
            final(self)@ == old(self)@.with_reg(operand_x(rest), old(self)@.v[operand_y(rest)]),
    {
        let x = field_x(rest);
        let y = field_y(rest);
        self.v_reg[x] = self.v_reg[y];
    }

    /// `8xy1`.
    pub fn or(&mut self, rest: u16)
        ensures
            final(self)@ == old(self)@.with_reg(
                operand_x(rest),
                old(self)@.v[operand_x(rest)] | old(self)@.v[operand_y(rest)],
            ),
    {
        let x = field_x(rest);
        let y = field_y(rest);
        self.v_reg[x] = self.v_reg[x] | self.v_reg[y];
    }

    /// `8xy2`.
    pub fn and(&mut self, rest: u16)
        ensures
            final(self)@ == old(self)@.with_reg(
                operand_x(rest),
                old(self)@.v[operand_x(rest)] & old(self)@.v[operand_y(rest)],
            ),
    {
        let x = field_x(rest);
        let y = field_y(rest);
        self.v_reg[x] = self.v_reg[x] & self.v_reg[y];
    }

    /// `8xy3`.
    pub fn xor(&mut self, rest: u16)
        ensures
            final(self)@ == old(self)@.with_reg(
                operand_x(rest),
                old(self)@.v[operand_x(rest)] ^ old(self)@.v[operand_y(rest)],
            ),
    {
        let x = field_x(rest);
        let y = field_y(rest);
        self.v_reg[x] = self.v_reg[x] ^ self.v_reg[y];
    }

    /// `8xy4`: the sum goes to `Vx` first and the carry to `VF` last, so
    /// that with `x = F` the carry is what stays.
    pub fn add(&mut self, rest: u16)
        ensures
            final(self)@ == old(self)@.add_regs(operand_x(rest), operand_y(rest)),
            final(self)@.v[0xF] == if old(self)@.v[operand_x(rest)] + old(self)@.v[operand_y(rest)]
                >= 256 {
                1u8
            } else {
                0u8
            },
            operand_x(rest) != 0xF ==> final(self)@.v[operand_x(rest)] == (old(self)@.v[operand_x(
                rest,
            )] + old(self)@.v[operand_y(rest)]) % 256,
    {
        let x = field_x(rest);
        let y = field_y(rest);
        let sum = self.v_reg[x] as u16 + self.v_reg[y] as u16;
        assert(sum & 0x00FF == sum % 256) by (bit_vector);

        self.v_reg[x] = (sum & 0x00FF) as u8;
        self.v_reg[0xF] = if sum < 256 {
            0
        } else {
            1
        };
    }

    /// `8xy5` and `8xy7`: the low four bits of `rest` tell which of the two
    /// registers is subtracted from which. Both are read before the flag is
    /// written, so that the difference is that of the values the registers
    /// held before the instruction, also where one of them is `VF`.
    pub fn sub(&mut self, rest: u16)
        ensures
            final(self)@ == old(self)@.sub_regs(
                operand_x(rest),
                operand_y(rest),
                operand_n(rest) != 5,
            ),
            operand_n(rest) == 5 ==> final(self)@.v[operand_x(rest)] == (old(
                self,
            )@.v[operand_x(rest)] - old(self)@.v[operand_y(rest)]) % 256,
            operand_n(rest) == 5 && operand_x(rest) != 0xF ==> final(self)@.v[0xF] == if old(
                self,
            )@.v[operand_x(rest)] >= old(self)@.v[operand_y(rest)] {
                1u8
            } else {
                0u8
            },
            operand_n(rest) != 5 ==> final(self)@.v[operand_x(rest)] == (old(
                self,
            )@.v[operand_y(rest)] - old(self)@.v[operand_x(rest)]) % 256,
            operand_n(rest) != 5 && operand_x(rest) != 0xF ==> final(self)@.v[0xF] == if old(
                self,
            )@.v[operand_y(rest)] >= old(self)@.v[operand_x(rest)] {
                1u8
            } else {
                0u8
            },
    {
        let x = field_x(rest);
        let y = field_y(rest);
        let forward = field_n(rest) == 5;
        let ghost before = self@;

        let minuend: u8 = if forward {
            self.v_reg[x]
        } else {
            self.v_reg[y]
        };
        let subtrahend: u8 = if forward {
            self.v_reg[y]
        } else {
            self.v_reg[x]
        };
        let flag: u8 = if minuend >= subtrahend {
            1
        } else {
            0
        };
        let difference: u8 = minuend.wrapping_sub(subtrahend);
        assert(difference == (minuend - subtrahend) % 256);

        self.v_reg[0xF] = flag;
        self.v_reg[x] = difference;
        assert(self@.v == before.v.update(0xF, flag).update(x as int, difference));
        assert(self@ =~= before.sub_regs(x as int, y as int, !forward));
    }

    /// `8xy6`.
    pub fn right_shift(&mut self, rest: u16)
        ensures
            final(self)@ == old(self)@.shift_right(operand_x(rest), operand_y(rest)),
            operand_x(rest) != 0xF ==> {
                let source = if old(self)@.legacy {
                    old(self)@.v[operand_y(rest)]
                } else {
                    old(self)@.v[operand_x(rest)]
                };
                &&& final(self)@.v[operand_x(rest)] == source / 2
                &&& final(self)@.v[0xF] == source % 2
            },
    {
        let x = field_x(rest);
        if self.legacy {
            let y: usize = field_y(rest);
            self.v_reg[x] = self.v_reg[y];
        }
        let source: u8 = self.v_reg[x];
        assert(source & 1 == source % 2) by (bit_vector);
        self.v_reg[0xF] = self.v_reg[x] & 1;
        let flagged: u8 = self.v_reg[x];
        assert(flagged >> 1 == flagged / 2) by (bit_vector);
        self.v_reg[x] >>= 1;
    }

    /// `8xyE`.
    pub fn left_shift(&mut self, rest: u16)
        ensures
            final(self)@ == old(self)@.shift_left(operand_x(rest), operand_y(rest)),
            operand_x(rest) != 0xF ==> {
                let source = if old(self)@.legacy {
                    old(self)@.v[operand_y(rest)]
                } else {
                    old(self)@.v[operand_x(rest)]
                };
                &&& final(self)@.v[operand_x(rest)] == (source * 2) % 256
                &&& final(self)@.v[0xF] == source / 128
            },
    {
        let x = field_x(rest);
        if self.legacy {
            let y: usize = field_y(rest);
            self.v_reg[x] = self.v_reg[y];
        }
        let source: u8 = self.v_reg[x];
        assert(source >> 7 == source / 128) by (bit_vector);
        self.v_reg[0xF] = self.v_reg[x] >> 7;
        let flagged: u8 = self.v_reg[x];
        assert(flagged << 1 == (flagged * 2) % 256) by (bit_vector);
        self.v_reg[x] <<= 1;
    }

    /// `Annn`.
    pub fn set_i(&mut self, addr: u16)
        ensures
            final(self)@ == (Machine { index: addr, ..old(self)@ }),
    {
        self.i_reg = addr;
    }

    /// `Bnnn`.
    pub fn jump_offset(&mut self, rest: u16)
        requires
            old(self)@.v[0] + rest <= u16::MAX,
        ensures
            final(self)@ == old(self)@.with_pc((old(self)@.v[0] + rest) as u16),
    {
        self.pc = (self.v_reg[0] as u16) + rest;
    }

    /// `Cxnn`: draws a byte and stores what the mask lets through.
    pub fn rand(&mut self, rest: u16)
        ensures
            exists|byte: u8|
                final(self)@ == #[trigger] old(self)@.random(
                    operand_x(rest),
                    operand_nn(rest),
                    byte,
                ),
    {
        let rand: u8 = random_byte();
        self.rand_with(rest, rand);
        assert(self@ == old(self)@.random(operand_x(rest), operand_nn(rest), rand));
    }

    /// What `Cxnn` does once `byte` has been drawn: `Vx = byte & nn`.
    pub fn rand_with(&mut self, rest: u16, byte: u8)
        ensures
            final(self)@ == old(self)@.random(operand_x(rest), operand_nn(rest), byte),
    {
        let x = field_x(rest);
        self.v_reg[x] = byte & field_nn(rest);
    }

    /// `Dxyn`. Only the origin wraps; rows below the display and columns
    /// right of it are dropped, and a dropped row is not read from memory.
    pub fn draw_sprite(&mut self, rest: u16)
        requires
            operand_n(rest) > 0 ==> old(self)@.index + old(self)@.visible_rows(
                operand_y(rest),
                operand_n(rest),
            ) <= RAM_SIZE,
        ensures
            final(self)@ == old(self)@.draw(operand_x(rest), operand_y(rest), operand_n(rest)),
    {
        let init_x: u8 = self.v_reg[field_x(rest)] % 64;
        let init_y: u8 = self.v_reg[field_y(rest)] % 32;

        let sprite_height: u16 = field_n(rest);
        let sprite_ptr: u16 = self.i_reg;
        let ghost m = self@;
        let ghost x = operand_x(rest);
        let ghost y = operand_y(rest);
        let ghost n = operand_n(rest);
        self.v_reg[0xF] = 0;
        proof {
            assert(!collides_until(m, x, y, n, init_y as int, 0));
            assert(self@ =~= draw_until(m, x, y, n, init_y as int, 0));
        }

        let mut r: u16 = 0;
        while r < sprite_height && init_y as u16 + r < 32
            invariant
                r <= sprite_height,
                sprite_height == n,
                sprite_height < 16,
                init_y < 32,
                sprite_ptr == m.index,
                init_x == m.origin_col(x),
                init_y == m.origin_row(y),
                n > 0 ==> m.index + m.visible_rows(y, n) <= RAM_SIZE,
                m.wf(),
                self@ == draw_until(m, x, y, n, init_y + r, 0),
            decreases sprite_height - r,
        {
            let sprite_row: u8 = self.ram[(sprite_ptr + r) as usize];
            let display_row_pos: usize = (init_y as u16 + r) as usize;
            proof {
                lemma_draw_skip(m, x, y, n, init_y + r, 0, init_y + r, init_x as int);
            }
            let mut c: u8 = 0;
            while c < 8 && init_x + c < 64
                invariant
                    c <= 8,
                    r < sprite_height,
                    sprite_height == n,
                    init_x < 64,
                    init_x == m.origin_col(x),
                    init_y == m.origin_row(y),
                    display_row_pos == init_y + r,
                    display_row_pos < 32,
                    sprite_row == m.ram[m.index + r],
                    m.wf(),
                    self@ == draw_until(m, x, y, n, init_y + r, init_x + c),
                decreases 8 - c,
            {
                let sprite_pixel: bool = sprite_row & (0b10000000 >> c) != 0;
                let display_col_pos: usize = (init_x + c) as usize;
                let display_index: usize = 64 * display_row_pos + display_col_pos;
                proof {
                    lemma_draw_pixel(m, x, y, n, init_y + r, init_x + c);
                    assert(m.sprite_covers(x, y, n, init_x + c, init_y + r) == sprite_pixel);
                }
                if sprite_pixel && self.display[display_index] {
                    self.display[display_index] = false;
                    self.v_reg[0xF] = 1;
                } else if sprite_pixel && !self.display[display_index] {
                    self.display[display_index] = true;
                }
                c += 1;
                assert(self@ =~= draw_until(m, x, y, n, init_y + r, init_x + c));
            }
            proof {
                lemma_draw_skip(m, x, y, n, init_y + r, init_x + c, init_y + r + 1, 0);
            }
            r += 1;
        }
        proof {
            lemma_draw_done(m, x, y, n, init_y + r);
        }
    }

    /// `Ex9E` and `ExA1`; any other low byte changes nothing.
    pub fn key_skip(&mut self, rest: u16, keys: &[u8])
        requires
            old(self)@.pc + 2 <= u16::MAX,
        ensures
            final(self)@ == if operand_nn(rest) == 0x9E {
                old(self)@.skip_if(keys@.contains(old(self)@.v[operand_x(rest)]))
            } else if operand_nn(rest) == 0xA1 {
                old(self)@.skip_if(!keys@.contains(old(self)@.v[operand_x(rest)]))
            } else {
                old(self)@
            },
    {
        let x = field_x(rest);
        let key_pressed = contains(keys, self.v_reg[x]);

        if field_nn(rest) == 0x9E {
            if key_pressed {
                self.pc += 2
            };
        } else if field_nn(rest) == 0xA1 {
            if !key_pressed {
                self.pc += 2
            }
        }
    }

    /// `Fx0A`.
    pub fn await_key(&mut self, rest: u16, keys: &[u8])
        requires
            old(self)@.pc >= 2,
        ensures
            final(self)@ == old(self)@.await_key(operand_x(rest), keys@),
    {
        let x = field_x(rest);
        let key_pressed = !keys.is_empty();

        if key_pressed {
            self.v_reg[x] = keys[0];
        } else {
            self.pc -= 2;
        }
    }

    /// `Fx29`.
    pub fn set_i_font(&mut self, rest: u16)
        ensures
            final(self)@ == old(self)@.font_pointer(operand_x(rest)),
    {
        let x = field_x(rest);
        let addr: u16 = 0x50 + (self.v_reg[x] as u16 * 5);
        self.i_reg = addr;
    }

    /// `Fx33`.
    pub fn bcd(&mut self, rest: u16)
        requires
            old(self)@.index + 3 <= RAM_SIZE,
        ensures
            final(self)@ == old(self)@.bcd(operand_x(rest)),
    {
        let value: u8 = self.v_reg[field_x(rest)];
        let mut x: u8 = value;
        let mut digits = [0u8;3];

        let mut i: usize = 3;
        while i > 0
            invariant
                i <= 3,
                i == 3 ==> x == value,
                i <= 2 ==> digits@[2] == value % 10,
                i == 2 ==> x == value / 10,
                i <= 1 ==> digits@[1] == value / 10 % 10,
                i == 1 ==> x == value / 100,
                i == 0 ==> digits@[0] == value / 100,
            decreases i,
        {
            i -= 1;
            digits[i] = x % 10;
            x /= 10;
        }
        let i: usize = self.i_reg as usize;
        copy_bytes(&mut self.ram, i, &digits);
        assert(self@ =~= old(self)@.bcd(operand_x(rest)));
    }

    /// `Fx55`.
    pub fn store_mem(&mut self, rest: u16)
        requires
            old(self)@.index + operand_x(rest) + 1 <= RAM_SIZE,
        ensures
            final(self)@ == old(self)@.store(operand_x(rest)),
    {
        let x = field_x(rest);
        let i: usize = self.i_reg as usize;
        let registers = slice_subrange(self.v_reg.as_slice(), 0, x + 1);
        copy_bytes(&mut self.ram, i, registers);
        assert(self@ =~= old(self)@.store(operand_x(rest)));
    }

    /// `Fx65`.
    pub fn fill_mem(&mut self, rest: u16)
        requires
            old(self)@.index + operand_x(rest) + 1 <= RAM_SIZE,
        ensures
            final(self)@ == old(self)@.load(operand_x(rest)),
    {
        let x = field_x(rest);
        let i: usize = self.i_reg as usize;
        let bytes = slice_subrange(self.ram.as_slice(), i, i + x + 1);
        copy_bytes(&mut self.v_reg, 0, bytes);
        assert(self@ =~= old(self)@.load(operand_x(rest)));
    }
}

} // verus!
