//! What a host needs around the machine: the keyboard layout, the scaling
//! of the display to a window, the pacing of cycles and timer ticks, and
//! the reading of the command line.

use vstd::prelude::*;
use vstd::string::StringExecFns;
use crate::machine::{Fault, Machine};
use crate::vm::Core;

verus! {

/// Width of the window in pixels.
pub const WIDTH: usize = 640;

/// Height of the window in pixels.
pub const HEIGHT: usize = 320;

/// Frames per second.
pub const FPS: usize = 60;

/// Instruction cycles per second.
pub const CPS: usize = 660;

/// Timer ticks per second.
pub const TIMER_FREQUENCY: u64 = 60;

/// Nanoseconds from one timer tick to the next.
pub const TIMER_PERIOD_NANOS: u64 = 1_000_000_000 / 60;

/// A key of the host's keyboard: the sixteen that stand for the keypad,
/// and `Other` for every other key.
#[derive(Clone, Copy, Debug, PartialEq, Eq, Structural)]
pub enum Key {
    Key1,
    Key2,
    Key3,
    Key4,
    Q,
    W,
    E,
    R,
    A,
    S,
    D,
    F,
    Z,
    X,
    C,
    V,
    Other,
}

/// The keypad code of a key. The four by four block `1234 / QWER / ASDF /
/// ZXCV` of the keyboard lies over the keypad `123C / 456D / 789E / A0BF`.
pub open spec fn key_code(key: Key) -> Option<u8> {
    match key {
        Key::Key1 => Some(0x1u8),
        Key::Key2 => Some(0x2u8),
        Key::Key3 => Some(0x3u8),
        Key::Key4 => Some(0xCu8),
        Key::Q => Some(0x4u8),
        Key::W => Some(0x5u8),
        Key::E => Some(0x6u8),
        Key::R => Some(0xDu8),
        Key::A => Some(0x7u8),
        Key::S => Some(0x8u8),
        Key::D => Some(0x9u8),
        Key::F => Some(0xEu8),
        Key::Z => Some(0xAu8),
        Key::X => Some(0x0u8),
        Key::C => Some(0xBu8),
        Key::V => Some(0xFu8),
        Key::Other => None,
    }
}

/// The keypad code of a key, or `None` for a key outside the block.
pub fn keymap(key: &Key) -> (code: Option<u8>)
    ensures
        code == key_code(*key),
{
    let translated: u8 = match key {
        Key::Key1 => 0x1,
        Key::Key2 => 0x2,
        Key::Key3 => 0x3,
        Key::Key4 => 0xC,
        Key::Q => 0x4,
        Key::W => 0x5,
        Key::E => 0x6,
        Key::R => 0xD,
        Key::A => 0x7,
        Key::S => 0x8,
        Key::D => 0x9,
        Key::F => 0xE,
        Key::Z => 0xA,
        Key::X => 0x0,
        Key::C => 0xB,
        Key::V => 0xF,
        _ => return None,
    };
    Some(translated)
}

/// The key that stands for a keypad code: the keypad rows `123C`, `456D`,
/// `789E` and `A0BF` read off the keyboard rows `1234`, `QWER`, `ASDF` and
/// `ZXCV`.
pub open spec fn key_of(code: u8) -> Key {
    if code == 0x1 {
        Key::Key1
    } else if code == 0x2 {
        Key::Key2
    } else if code == 0x3 {
        Key::Key3
    } else if code == 0xC {
        Key::Key4
    } else if code == 0x4 {
        Key::Q
    } else if code == 0x5 {
        Key::W
    } else if code == 0x6 {
        Key::E
    } else if code == 0xD {
        Key::R
    } else if code == 0x7 {
        Key::A
    } else if code == 0x8 {
        Key::S
    } else if code == 0x9 {
        Key::D
    } else if code == 0xE {
        Key::F
    } else if code == 0xA {
        Key::Z
    } else if code == 0x0 {
        Key::X
    } else if code == 0xB {
        Key::C
    } else if code == 0xF {
        Key::V
    } else {
        Key::Other
    }
}

/// The layout is one to one and onto the keypad: every code from `0` to `F`
/// belongs to a key, a key's code is at most `F` and leads back to the key,
/// and only `Other` has no code.
pub proof fn law_keymap_is_keypad()
    ensures
        forall|key: Key| #[trigger] key_code(key) is None <==> key == Key::Other,
        forall|key: Key|
            #[trigger] key_code(key) matches Some(code) ==> code <= 0xF && key_of(code) == key,
        forall|code: u8| code <= 0xF ==> key_code(#[trigger] key_of(code)) == Some(code),
{
}

/// The codes of the keys among `keys` that have one, in the order of `keys`.
pub open spec fn key_codes(keys: Seq<Key>) -> Seq<u8>
    decreases keys.len(),
{
    if keys.len() == 0 {
        Seq::empty()
    } else {
        match key_code(keys.last()) {
            Some(code) => key_codes(keys.drop_last()).push(code),
            None => key_codes(keys.drop_last()),
        }
    }
}

/// The keypad codes of the keys pressed, in the order in which the host
/// reports the keys: what a cycle takes as its key input.
pub fn pressed_codes(keys: &[Key]) -> (codes: Vec<u8>)
    ensures
        codes@ == key_codes(keys@),
{
    let mut codes: Vec<u8> = Vec::new();
    let mut i: usize = 0;
    while i < keys.len()
        invariant
            i <= keys@.len(),
            codes@ == key_codes(keys@.take(i as int)),
        decreases keys@.len() - i,
    {
        proof {
            assert(keys@.take(i + 1).drop_last() =~= keys@.take(i as int));
        }
        match keymap(&keys[i]) {
            Some(code) => {
                codes.push(code);
            },
            None => {},
        }
        i += 1;
    }
    proof {
        assert(keys@.take(keys@.len() as int) =~= keys@);
    }
    codes
}

/// The display pixel that window pixel `i` shows: the window is 640 pixels
/// wide, and each display pixel fills a square of ten by ten of them.
pub open spec fn source_pixel(i: int) -> int {
    64 * ((i / 640) / 10) + (i % 640) / 10
}

/// Fills the window buffer from the display: white where the display pixel
/// is lit, black where it is not.
pub fn write_to_buffer(display: &[bool], buffer: &mut Vec<u32>)
    requires
        forall|i: int| 0 <= i < old(buffer)@.len() ==> source_pixel(i) < display@.len(),
    ensures
        final(buffer)@.len() == old(buffer)@.len(),
        forall|i: int|
            0 <= i < final(buffer)@.len() ==> final(buffer)@[i] == if display@[source_pixel(i)] {
                0xFFFFFFFFu32
            } else {
                0x00000000u32
            },
{
    let mut i: usize = 0;
    while i < buffer.len()
        invariant
            i <= buffer@.len(),
            buffer@.len() == old(buffer)@.len(),
            forall|j: int| 0 <= j < buffer@.len() ==> source_pixel(j) < display@.len(),
            forall|j: int|
                0 <= j < i ==> buffer@[j] == if display@[source_pixel(j)] {
                    0xFFFFFFFFu32
                } else {
                    0x00000000u32
                },
        decreases buffer@.len() - i,
    {
        let (x, y) = (i % 640, i / 640);
        assert(64 * (y / 10) + x / 10 == source_pixel(i as int));
        let display_pixel = display[(64 * (y / 10)) + (x / 10)];

        buffer[i] = match display_pixel {
            true => 0xFFFFFFFF,
            false => 0x00000000,
        };
        i += 1;
    }
}

/// How many instruction cycles a frame holds.
pub fn cycles_per_frame() -> (cycles: usize)
    ensures
        cycles == 11,
{
    CPS / FPS
}

/// Whether a timer tick is due, `elapsed_nanos` nanoseconds after the last.
pub open spec fn tick_due(elapsed_nanos: u128) -> bool {
    elapsed_nanos >= TIMER_PERIOD_NANOS
}

/// The machine as a cycle of the frame loop finds it: one tick later if a
/// tick is due.
pub open spec fn paced(m: Machine, elapsed_nanos: u128) -> Machine {
    if tick_due(elapsed_nanos) {
        m.tick()
    } else {
        m
    }
}

/// One cycle of the frame loop: the timers tick if a tick is due, then the
/// machine runs a cycle. `Ok` tells whether the timers ticked, so that the
/// host can set its clock; `Err` tells that the cycle could not run, the
/// machine then being as the tick left it.
pub fn paced_cycle(core: &mut Core, keys: &[u8], elapsed_nanos: u128) -> (outcome: Result<
    bool,
    Fault,
>)
    ensures
        match paced(old(core)@, elapsed_nanos).fault() {
            Some(fault) => outcome == Err::<bool, Fault>(fault) && final(core)@ == paced(
                old(core)@,
                elapsed_nanos,
            ),
            None => outcome == Ok::<bool, Fault>(tick_due(elapsed_nanos)) && exists|random: u8|
                final(core)@ == #[trigger] paced(old(core)@, elapsed_nanos).step(keys@, random),
        },
{
    let due = elapsed_nanos >= TIMER_PERIOD_NANOS as u128;
    if due {
        core.decrement_timers();
    }
    match core.try_cycle(keys) {
        Ok(()) => Ok(due),
        Err(fault) => Err(fault),
    }
}

/// Where the program named by the first argument lies: `args[0]` is the
/// name of the executable, `args[1]` the file's name under `../roms/`.
/// `None` if there is no first argument.
pub fn program_path(args: &[String]) -> (path: Option<String>)
    ensures
        path is None <==> args@.len() < 2,
        path matches Some(p) ==> p@ == "../roms/"@ + args@[1]@,
{
    if args.len() < 2 {
        return None;
    }
    let file_path = String::from_str("../roms/").concat(args[1].as_str());
    Some(file_path)
}

/// Whether `--legacy` is among the arguments.
pub fn legacy_requested(args: &[String]) -> (legacy: bool)
    ensures
        legacy == exists|i: int| 0 <= i < args@.len() && #[trigger] args@[i]@ == "--legacy"@,
{
    let flag = String::from_str("--legacy");
    let mut i: usize = 0;
    while i < args.len()
        invariant
            i <= args@.len(),
            flag@ == "--legacy"@,
            forall|j: int| 0 <= j < i ==> #[trigger] args@[j]@ != "--legacy"@,
        decreases args@.len() - i,
    {
        if args[i] == flag {
            return true;
        }
        i += 1;
    }
    false
}

} // verus!
