//! What holds of the instruction set, proved from the model in
//! [`crate::machine`]. The interpreter moves its state as the model says,
//! so each law holds of the interpreter too.

use vstd::prelude::*;
use crate::machine::{sprite_bit, Machine, Op, RAM_SIZE};

verus! {

/// A register number.
pub open spec fn is_reg(x: int) -> bool {
    0 <= x < 16
}

/// A cycle that can run keeps the sizes of memory, display and register
/// file, and never changes the legacy flag.
pub proof fn law_step_keeps_shape(m: Machine, keys: Seq<u8>, random: u8)
    requires
        m.wf(),
        m.fault() is None,
    ensures
        m.step(keys, random).wf(),
        m.step(keys, random).legacy == m.legacy,
{
}

/// A timer tick keeps the sizes and the legacy flag too, and touches
/// nothing but the two timers, neither of which goes below zero or up.
pub proof fn law_tick_only_counts_down(m: Machine)
    ensures
        m.tick() == (Machine { delay: m.tick().delay, sound: m.tick().sound, ..m }),
        m.tick().delay <= m.delay,
        m.tick().sound <= m.sound,
        m.delay > 0 ==> m.tick().delay == m.delay - 1,
        m.sound > 0 ==> m.tick().sound == m.sound - 1,
{
}

/// Only `Cxnn` looks at the random byte: with any other instruction next,
/// a cycle has one outcome.
pub proof fn law_only_random_is_random(m: Machine, keys: Seq<u8>, r1: u8, r2: u8)
    requires
        !(m.next_op() matches Some(Op::Random { .. })),
    ensures
        m.step(keys, r1) == m.step(keys, r2),
{
}

/// The display changes by clear and draw alone.
pub proof fn law_display_changes_by_clear_and_draw(m: Machine, keys: Seq<u8>, random: u8)
    requires
        !(m.next_op() matches Some(Op::Clear)),
        !(m.next_op() matches Some(Op::Draw { .. })),
    ensures
        m.step(keys, random).display == m.display,
{
}

/// `8xy4`: `VF` is 1 exactly if `Vx + Vy` reaches 256, whatever `x` and `y`
/// are, and `Vx` holds the sum modulo 256 unless `x` is `F`, where the
/// carry takes its place.
pub proof fn law_add_carry(m: Machine, x: int, y: int, keys: Seq<u8>, random: u8)
    requires
        m.wf(),
        is_reg(x),
        is_reg(y),
    ensures
        m.apply(Op::Add { x, y }, keys, random).v[0xF] == 1 <==> m.v[x] + m.v[y] >= 256,
        m.apply(Op::Add { x, y }, keys, random).v[0xF] == 0 <==> m.v[x] + m.v[y] < 256,
        x != 0xF ==> m.apply(Op::Add { x, y }, keys, random).v[x] == (m.v[x] + m.v[y]) % 256,
        forall|r: int|
            is_reg(r) && r != x && r != 0xF ==> #[trigger] m.apply(
                Op::Add { x, y },
                keys,
                random,
            ).v[r] == m.v[r],
{
}

/// `8xy5`: `Vx` holds `Vx - Vy` modulo 256 of the values that the two
/// registers held before the instruction, whatever `x` and `y` are; unless
/// `x` is `F`, where that difference takes its place, `VF` is 1 exactly if
/// `Vx >= Vy`.
pub proof fn law_sub_borrow(m: Machine, x: int, y: int, keys: Seq<u8>, random: u8)
    requires
        m.wf(),
        is_reg(x),
        is_reg(y),
    ensures
        m.apply(Op::Sub { x, y }, keys, random).v[x] == (m.v[x] - m.v[y]) % 256,
        x != 0xF ==> (m.apply(Op::Sub { x, y }, keys, random).v[0xF] == 1 <==> m.v[x] >= m.v[y]),
        x != 0xF ==> (m.apply(Op::Sub { x, y }, keys, random).v[0xF] == 0 <==> m.v[x] < m.v[y]),
        forall|r: int|
            is_reg(r) && r != x && r != 0xF ==> #[trigger] m.apply(
                Op::Sub { x, y },
                keys,
                random,
            ).v[r] == m.v[r],
{
}

/// `8xy7`: as `8xy5` with the operands exchanged: `Vx` holds `Vy - Vx`
/// modulo 256 of the values before the instruction, and unless `x` is `F`
/// the flag tells whether `Vy >= Vx`.
pub proof fn law_sub_reversed_borrow(m: Machine, x: int, y: int, keys: Seq<u8>, random: u8)
    requires
        m.wf(),
        is_reg(x),
        is_reg(y),
    ensures
        m.apply(Op::SubReversed { x, y }, keys, random).v[x] == (m.v[y] - m.v[x]) % 256,
        x != 0xF ==> (m.apply(Op::SubReversed { x, y }, keys, random).v[0xF] == 1 <==> m.v[y]
            >= m.v[x]),
        x != 0xF ==> (m.apply(Op::SubReversed { x, y }, keys, random).v[0xF] == 0 <==> m.v[y]
            < m.v[x]),
{
}

/// `8xy6` in the two modes. In legacy mode the shift is the copy of `Vy`
/// into `Vx` followed by the shift in place; without it `Vy` plays no part.
/// Unless `x` is `F`, `Vx` and `VF` together hold every bit of what was
/// shifted, so that the two modes end in different registers whenever `Vx`
/// and `Vy` differ.
pub proof fn law_shift_right_modes(m: Machine, x: int, y: int)
    requires
        m.wf(),
        is_reg(x),
        is_reg(y),
    ensures
        ({
            let legacy = Machine { legacy: true, ..m };
            let modern = Machine { legacy: false, ..m };
            let copied = modern.with_reg(x, m.v[y]);
            &&& legacy.shift_right(x, y).v == copied.shift_right(x, y).v
            &&& x != 0xF ==> {
                &&& modern.shift_right(x, y).v[x] == m.v[x] / 2
                &&& modern.shift_right(x, y).v[0xF] == m.v[x] % 2
                &&& legacy.shift_right(x, y).v[x] == m.v[y] / 2
                &&& legacy.shift_right(x, y).v[0xF] == m.v[y] % 2
            }
            &&& x != 0xF && m.v[x] != m.v[y] ==> legacy.shift_right(x, y).v != modern.shift_right(
                x,
                y,
            ).v
        }),
{
    let legacy = Machine { legacy: true, ..m };
    let modern = Machine { legacy: false, ..m };
    let a = m.v[x] as int;
    let b = m.v[y] as int;
    if x != 0xF {
        let lr = legacy.shift_right(x, y).v;
        let mr = modern.shift_right(x, y).v;
        assert(mr[x] == a / 2 && mr[0xF] == a % 2);
        assert(lr[x] == b / 2 && lr[0xF] == b % 2);
        if a != b {
            assert(a / 2 != b / 2 || a % 2 != b % 2);
            assert(lr[x] != mr[x] || lr[0xF] != mr[0xF]);
        }
    }
}

/// `8xyE` in the two modes: as for `8xy6`, with the highest bit in `VF` and
/// `Vx` doubled modulo 256.
pub proof fn law_shift_left_modes(m: Machine, x: int, y: int)
    requires
        m.wf(),
        is_reg(x),
        is_reg(y),
    ensures
        ({
            let legacy = Machine { legacy: true, ..m };
            let modern = Machine { legacy: false, ..m };
            let copied = modern.with_reg(x, m.v[y]);
            &&& legacy.shift_left(x, y).v == copied.shift_left(x, y).v
            &&& x != 0xF ==> {
                &&& modern.shift_left(x, y).v[x] == (m.v[x] * 2) % 256
                &&& modern.shift_left(x, y).v[0xF] == m.v[x] / 128
                &&& legacy.shift_left(x, y).v[x] == (m.v[y] * 2) % 256
                &&& legacy.shift_left(x, y).v[0xF] == m.v[y] / 128
            }
            &&& x != 0xF && m.v[x] != m.v[y] ==> legacy.shift_left(x, y).v != modern.shift_left(
                x,
                y,
            ).v
        }),
{
    let legacy = Machine { legacy: true, ..m };
    let modern = Machine { legacy: false, ..m };
    let a = m.v[x] as int;
    let b = m.v[y] as int;
    if x != 0xF {
        let ll = legacy.shift_left(x, y).v;
        let ml = modern.shift_left(x, y).v;
        assert(ml[x] == (a * 2) % 256 && ml[0xF] == a / 128);
        assert(ll[x] == (b * 2) % 256 && ll[0xF] == b / 128);
        if a != b {
            assert((a * 2) % 256 != (b * 2) % 256 || a / 128 != b / 128);
            assert(ll[x] != ml[x] || ll[0xF] != ml[0xF]);
        }
    }
}

/// After a jump the next instruction fetched is the one at the target:
/// the cycle leaves the program counter at `addr`, not behind the jump.
pub proof fn law_jump_then_fetch(m: Machine, addr: u16, keys: Seq<u8>, random: u8)
    requires
        m.wf(),
        m.fault() is None,
        m.next_op() == Some(Op::Jump { addr }),
    ensures
        m.step(keys, random) == m.with_pc(addr),
        m.step(keys, random).next_word() == m.word_at(addr as int),
{
}

/// A call followed at once by a return ends where the call's own fetch
/// had left the program counter, at the instruction after the call, with
/// the call stack as it was.
pub proof fn law_call_then_return(
    m: Machine,
    addr: u16,
    keys: Seq<u8>,
    random: u8,
    keys_after: Seq<u8>,
    random_after: u8,
)
    requires
        m.wf(),
        m.fault() is None,
        m.next_op() == Some(Op::Call { addr }),
        addr + 2 <= RAM_SIZE,
        m.step(keys, random).next_op() == Some(Op::Return),
    ensures
        m.step(keys, random).fault() is None,
        m.step(keys, random).step(keys_after, random_after) == m.fetched(),
        m.step(keys, random).step(keys_after, random_after).pc == m.pc + 2,
{
    let called = m.step(keys, random);
    assert(called == m.fetched().call(addr));
    assert(called.stack.drop_last() =~= m.stack);
    assert(called.step(keys_after, random_after) =~= m.fetched());
}

/// Drawing the same sprite twice at the same place undoes the first draw:
/// every pixel that the sprite covers is flipped and flipped back, and
/// the second draw reports a collision exactly if the first one lit a
/// pixel.
pub proof fn law_draw_twice(m: Machine, x: int, y: int, n: int)
    requires
        m.wf(),
        is_reg(x),
        is_reg(y),
        m.draw(x, y, n).origin_col(x) == m.origin_col(x),
        m.draw(x, y, n).origin_row(y) == m.origin_row(y),
    ensures
        m.draw(x, y, n).draw(x, y, n).display == m.display,
        forall|i: int|
            0 <= i < 2048 && m.sprite_covers(x, y, n, i % 64, i / 64) ==> #[trigger] m.draw(
                x,
                y,
                n,
            ).display[i] != m.display[i],
        m.draw(x, y, n).draw(x, y, n).v[0xF] == 1 <==> exists|i: int|
            0 <= i < 2048 && !#[trigger] m.display[i] && m.sprite_covers(x, y, n, i % 64, i / 64),
{
    let once = m.draw(x, y, n);
    let twice = once.draw(x, y, n);
    assert forall|col: int, row: int|
        once.sprite_covers(x, y, n, col, row) == m.sprite_covers(x, y, n, col, row) by {}
    assert(twice.display =~= m.display);
    if once.sprite_collides(x, y, n) {
        let i = choose|i: int|
            0 <= i < 2048 && #[trigger] once.display[i] && once.sprite_covers(
                x,
                y,
                n,
                i % 64,
                i / 64,
            );
        assert(!m.display[i] && m.sprite_covers(x, y, n, i % 64, i / 64));
    }
    if exists|i: int|
        0 <= i < 2048 && !#[trigger] m.display[i] && m.sprite_covers(x, y, n, i % 64, i / 64) {
        let i = choose|i: int|
            0 <= i < 2048 && !#[trigger] m.display[i] && m.sprite_covers(
                x,
                y,
                n,
                i % 64,
                i / 64,
            );
        assert(once.display[i] && once.sprite_covers(x, y, n, i % 64, i / 64));
    }
}

/// Whether a draw of `n` rows at `(Vx, Vy)` reaches display pixel `i`: the
/// pixel lies in one of the rows that stay on the display and in one of the
/// eight columns from the origin on.
pub open spec fn in_sprite_box(m: Machine, x: int, y: int, n: int, i: int) -> bool {
    &&& m.origin_row(y) <= i / 64 < m.origin_row(y) + m.visible_rows(y, n)
    &&& m.origin_col(x) <= i % 64 < m.origin_col(x) + 8
}

/// A sprite that reaches below the last row loses the rows that do not
/// fit and nothing else: the draw is the draw of the rows that fit, each
/// pixel in their box is flipped exactly if its sprite bit is set, every
/// pixel outside the box stays as it was, and the display keeps its size.
pub proof fn law_draw_clips(m: Machine, x: int, y: int, n: int)
    requires
        m.wf(),
        is_reg(x),
        is_reg(y),
        0 <= n < 16,
    ensures
        m.draw(x, y, n).display.len() == m.display.len(),
        m.draw(x, y, n) == m.draw(x, y, m.visible_rows(y, n)),
        forall|i: int|
            0 <= i < 2048 && in_sprite_box(m, x, y, n, i) ==> #[trigger] m.draw(x, y, n).display[i]
                == (m.display[i] != sprite_bit(
                m.ram[m.index + (i / 64 - m.origin_row(y))],
                i % 64 - m.origin_col(x),
            )),
        forall|i: int|
            0 <= i < 2048 && !in_sprite_box(m, x, y, n, i) ==> #[trigger] m.draw(
                x,
                y,
                n,
            ).display[i] == m.display[i],
{
    let rows = m.visible_rows(y, n);
    assert forall|col: int, row: int|
        m.sprite_covers(x, y, rows, col, row) == m.sprite_covers(x, y, n, col, row) by {}
    assert(m.sprite_collides(x, y, rows) == m.sprite_collides(x, y, n));
    assert(m.draw(x, y, n) =~= m.draw(x, y, rows));
}

/// A draw on a display just cleared shows the sprite and nothing else, on
/// the blank display of a machine just built, and reports no collision.
pub proof fn law_clear_then_draw(
    m: Machine,
    x: int,
    y: int,
    n: int,
    program: Seq<u8>,
    legacy: bool,
)
    requires
        m.wf(),
        is_reg(x),
        is_reg(y),
    ensures
        m.clear().display == Machine::boot(program, legacy).display,
        forall|i: int|
            0 <= i < 2048 ==> #[trigger] m.clear().draw(x, y, n).display[i] == m.sprite_covers(
                x,
                y,
                n,
                i % 64,
                i / 64,
            ),
        m.clear().draw(x, y, n).v[0xF] == 0,
{
    assert(m.clear().display =~= Machine::boot(program, legacy).display);
}

/// `Fx0A` with no key pressed leaves the whole machine as it was, the
/// program counter still at the instruction; with a key pressed the
/// counter moves on and `Vx` holds the first key reported.
pub proof fn law_await_key(m: Machine, x: int, keys: Seq<u8>, random: u8)
    requires
        m.wf(),
        m.fault() is None,
        m.next_op() == Some(Op::AwaitKey { x }),
    ensures
        keys.len() == 0 ==> m.step(keys, random) == m,
        keys.len() > 0 ==> m.step(keys, random) == m.fetched().with_reg(x, keys[0]),
{
}

} // verus!
