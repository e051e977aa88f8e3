use vstd::prelude::*;

use crate::decode::{decode, Instruction};
use crate::machine::{
    advance, draw_hit, execute_spec, flag_value, MachineView, FLAG, RAM_SIZE, SCREEN_PIXELS,
    STACK_DEPTH,
};

verus! {

/// `7xkk` adds `kk` to register `x` modulo 256 and leaves every other register,
/// the flag register among them, as it was.
pub proof fn add_immediate_wraps(m: MachineView, x: u8, kk: u8, rnd: u8)
    requires
        m.wf(),
        x < 16,
    ensures
        execute_spec(m, (0x70 + x) as u8, kk, rnd) is Ok,
        ({
            let m2 = execute_spec(m, (0x70 + x) as u8, kk, rnd).unwrap();
            &&& m2.registers[x as int] == (m.registers[x as int] + kk) % 256
            &&& x != FLAG ==> m2.registers[FLAG as int] == m.registers[FLAG as int]
            &&& forall|i: int| 0 <= i < 16 && i != x ==> m2.registers[i] == m.registers[i]
        }),
{
    assert(decode((0x70 + x) as u8, kk) == Ok::<Instruction, crate::error::Chip8Error>(
        Instruction::AddImm { x, kk },
    ));
}

/// `8xy4` sets register `x` to the sum of registers `x` and `y` modulo 256 and
/// the flag register to 1 exactly when the sum exceeds 255. (With `x` the flag
/// register itself, the sum overwrites the flag.)
pub proof fn add_registers_carry(m: MachineView, x: u8, y: u8, rnd: u8)
    requires
        m.wf(),
        x < 16,
        y < 16,
        x != FLAG,
    ensures
        execute_spec(m, (0x80 + x) as u8, (y * 16 + 4) as u8, rnd) is Ok,
        ({
            let a = m.registers[x as int];
            let b = m.registers[y as int];
            let m2 = execute_spec(m, (0x80 + x) as u8, (y * 16 + 4) as u8, rnd).unwrap();
            &&& m2.registers[x as int] == (a + b) % 256
            &&& m2.registers[FLAG as int] == flag_value(a + b > 255)
            &&& (m2.registers[FLAG as int] == 1 <==> a + b > 255)
        }),
{
    assert(decode((0x80 + x) as u8, (y * 16 + 4) as u8) == Ok::<
        Instruction,
        crate::error::Chip8Error,
    >(Instruction::AddReg { x, y }));
}

/// `8xy5` sets the flag register to 1 exactly when register `x`, before the
/// subtraction, is greater than register `y`, and to 0 otherwise. (With `x` the
/// flag register itself, the difference overwrites the flag.)
pub proof fn subtract_registers_borrow(m: MachineView, x: u8, y: u8, rnd: u8)
    requires
        m.wf(),
        x < 16,
        y < 16,
        x != FLAG,
    ensures
        execute_spec(m, (0x80 + x) as u8, (y * 16 + 5) as u8, rnd) is Ok,
        ({
            let m2 = execute_spec(m, (0x80 + x) as u8, (y * 16 + 5) as u8, rnd).unwrap();
            &&& m2.registers[FLAG as int] == 1 <==> m.registers[x as int] > m.registers[y as int]
            &&& m2.registers[FLAG as int] == 0 <==> m.registers[x as int] <= m.registers[y as int]
            &&& m2.registers[x as int] == (m.registers[x as int] - m.registers[y as int] + 256) % 256
        }),
{
    assert(decode((0x80 + x) as u8, (y * 16 + 5) as u8) == Ok::<
        Instruction,
        crate::error::Chip8Error,
    >(Instruction::SubReg { x, y }));
}

/// A call `2nnn` followed by a return `00EE` brings the program counter to the
/// instruction after the call and the call stack back to its depth before it,
/// whenever the call finds room on the stack.
pub proof fn call_then_return(m: MachineView, hi: u8, lo: u8, rnd1: u8, rnd2: u8)
    requires
        m.wf(),
        hi < 16,
        m.sp < STACK_DEPTH,
    ensures
        execute_spec(m, (0x20 + hi) as u8, lo, rnd1) is Ok,
        execute_spec(execute_spec(m, (0x20 + hi) as u8, lo, rnd1).unwrap(), 0x00, 0xEE, rnd2) is Ok,
        ({
            let called = execute_spec(m, (0x20 + hi) as u8, lo, rnd1).unwrap();
            let back = execute_spec(called, 0x00, 0xEE, rnd2).unwrap();
            &&& called.pc == hi * 256 + lo
            &&& back.pc == advance(m.pc)
            &&& back.sp == m.sp
        }),
{
    let addr = (hi * 256 + lo) as u16;
    assert(decode((0x20 + hi) as u8, lo) == Ok::<Instruction, crate::error::Chip8Error>(
        Instruction::Call { addr },
    ));
    assert(decode(0x00, 0xEE) == Ok::<Instruction, crate::error::Chip8Error>(Instruction::Return));
}

/// `00E0` clears the whole framebuffer, so a second `00E0` leaves it as the
/// first one did.
pub proof fn clear_screen_idempotent(m: MachineView, rnd1: u8, rnd2: u8)
    requires
        m.wf(),
    ensures
        execute_spec(m, 0x00, 0xE0, rnd1) is Ok,
        execute_spec(execute_spec(m, 0x00, 0xE0, rnd1).unwrap(), 0x00, 0xE0, rnd2) is Ok,
        ({
            let once = execute_spec(m, 0x00, 0xE0, rnd1).unwrap();
            let twice = execute_spec(once, 0x00, 0xE0, rnd2).unwrap();
            &&& twice.screen == once.screen
            &&& forall|k: int| 0 <= k < SCREEN_PIXELS ==> !once.screen[k]
        }),
{
    assert(decode(0x00, 0xE0) == Ok::<Instruction, crate::error::Chip8Error>(
        Instruction::ClearScreen,
    ));
}

/// Drawing the same sprite twice at the same position gives back the framebuffer
/// from before the first draw, and the second draw reports a collision exactly
/// when the sprite covers a pixel that the first draw left set. (The position
/// registers must not be the flag register, which the first draw overwrites.)
pub proof fn draw_twice_restores(m: MachineView, x: u8, y: u8, n: u8, rnd1: u8, rnd2: u8)
    requires
        m.wf(),
        x < 16,
        y < 16,
        n < 16,
        x != FLAG,
        y != FLAG,
        m.address + n <= RAM_SIZE,
    ensures
        execute_spec(m, (0xD0 + x) as u8, (y * 16 + n) as u8, rnd1) is Ok,
        execute_spec(
            execute_spec(m, (0xD0 + x) as u8, (y * 16 + n) as u8, rnd1).unwrap(),
            (0xD0 + x) as u8,
            (y * 16 + n) as u8,
            rnd2,
        ) is Ok,
        ({
            let once = execute_spec(m, (0xD0 + x) as u8, (y * 16 + n) as u8, rnd1).unwrap();
            let twice = execute_spec(once, (0xD0 + x) as u8, (y * 16 + n) as u8, rnd2).unwrap();
            &&& twice.screen == m.screen
            &&& twice.registers[FLAG as int] == 1 <==> exists|k: int|
                0 <= k < SCREEN_PIXELS && #[trigger] draw_hit(m, x, y, n, k) && once.screen[k]
        }),
{
    let b1 = (0xD0 + x) as u8;
    let b2 = (y * 16 + n) as u8;
    assert(decode(b1, b2) == Ok::<Instruction, crate::error::Chip8Error>(
        Instruction::Draw { x, y, n },
    ));
    let once = execute_spec(m, b1, b2, rnd1).unwrap();
    let twice = execute_spec(once, b1, b2, rnd2).unwrap();
    let again = once.with_pc(advance(once.pc));
    assert forall|k: int| 0 <= k < SCREEN_PIXELS implies #[trigger] draw_hit(again, x, y, n, k)
        == draw_hit(m, x, y, n, k) by {}
    assert(twice.screen =~= m.screen);
    if exists|k: int| 0 <= k < SCREEN_PIXELS && #[trigger] draw_hit(m, x, y, n, k) && once.screen[k] {
        let k = choose|k: int|
            0 <= k < SCREEN_PIXELS && #[trigger] draw_hit(m, x, y, n, k) && once.screen[k];
        assert(draw_hit(again, x, y, n, k) && again.screen[k]);
    }
}

} // verus!
