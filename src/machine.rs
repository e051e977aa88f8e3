use vstd::prelude::*;

use crate::decode::{decode, Instruction};
use crate::error::Chip8Error;
use crate::sprite::{msb_bit, u8_to_8_bools};

verus! {

/// Size of the address space in bytes.
pub const RAM_SIZE: usize = 4096;

/// Number of general-purpose registers.
pub const REGISTER_COUNT: usize = 16;

/// Register written as a flag by arithmetic, shift and draw instructions.
pub const FLAG: usize = 15;

/// Capacity of the call stack.
pub const STACK_DEPTH: usize = 16;

/// Rows of the framebuffer.
pub const SCREEN_ROWS: usize = 31;

/// Columns of the framebuffer.
pub const SCREEN_COLS: usize = 63;

/// Pixels of the framebuffer, stored row by row.
pub const SCREEN_PIXELS: usize = 1953;

/// Address at which a program image is loaded and execution starts.
pub const PROGRAM_START: usize = 0x200;

/// The whole machine state as mathematical values. The framebuffer is stored row
/// by row: pixel `(row, col)` is `screen[row * 63 + col]`.
pub struct MachineView {
    pub registers: Seq<u8>,
    pub address: u16,
    pub pc: u16,
    pub sp: u8,
    pub stack: Seq<u16>,
    pub screen: Seq<bool>,
    pub ram: Seq<u8>,
    pub timer: u8,
}

impl MachineView {
    pub open spec fn wf(self) -> bool {
        &&& self.registers.len() == REGISTER_COUNT
        &&& self.stack.len() == STACK_DEPTH
        &&& self.screen.len() == SCREEN_PIXELS
        &&& self.ram.len() == RAM_SIZE
        &&& self.sp <= STACK_DEPTH
    }

    /// A freshly built machine: everything zero, the framebuffer clear.
    pub open spec fn initial() -> MachineView {
        MachineView {
            registers: Seq::new(REGISTER_COUNT as nat, |i: int| 0u8),
            address: 0,
            pc: 0,
            sp: 0,
            stack: Seq::new(STACK_DEPTH as nat, |i: int| 0u16),
            screen: Seq::new(SCREEN_PIXELS as nat, |i: int| false),
            ram: Seq::new(RAM_SIZE as nat, |i: int| 0u8),
            timer: 0,
        }
    }

    pub open spec fn pixel(self, row: int, col: int) -> bool {
        self.screen[row * SCREEN_COLS + col]
    }

    pub open spec fn with_register(self, i: int, v: u8) -> MachineView {
        MachineView { registers: self.registers.update(i, v), ..self }
    }

    pub open spec fn with_pc(self, pc: u16) -> MachineView {
        MachineView { pc, ..self }
    }

    pub open spec fn with_screen(self, screen: Seq<bool>) -> MachineView {
        MachineView { screen, ..self }
    }
}

/// The address two bytes further on, wrapping at 16 bits.
pub open spec fn advance(pc: u16) -> u16 {
    ((pc + 2) % 0x10000) as u16
}

pub open spec fn flag_value(b: bool) -> u8 {
    if b {
        1
    } else {
        0
    }
}

/// Row of the sprite that lands on pixel `k` when drawing at register `y`'s row,
/// counted from the sprite's first row and wrapping at the framebuffer's height.
pub open spec fn sprite_row(m: MachineView, y: u8, k: int) -> int {
    (k / SCREEN_COLS as int - m.registers[y as int] % 31 + 31) % 31
}

/// Bit of the sprite row that lands on pixel `k` when drawing at register `x`'s
/// column, wrapping at the framebuffer's width.
pub open spec fn sprite_col(m: MachineView, x: u8, k: int) -> int {
    (k % SCREEN_COLS as int - m.registers[x as int] % 63 + 63) % 63
}

/// The `n`-byte sprite at the address register, drawn at the position held in
/// registers `x` and `y`, has a set bit on pixel `k`.
pub open spec fn draw_hit(m: MachineView, x: u8, y: u8, n: u8, k: int) -> bool {
    &&& sprite_row(m, y, k) < n
    &&& sprite_col(m, x, k) < 8
    &&& msb_bit(m.ram[m.address + sprite_row(m, y, k)], sprite_col(m, x, k))
}

/// Drawing erases some pixel that was set.
pub open spec fn draw_collides(m: MachineView, x: u8, y: u8, n: u8) -> bool {
    exists|k: int| 0 <= k < SCREEN_PIXELS && #[trigger] draw_hit(m, x, y, n, k) && m.screen[k]
}

/// The framebuffer XOR-ed with the sprite, and the flag register set to whether a
/// set pixel was erased.
pub open spec fn draw_spec(m: MachineView, x: u8, y: u8, n: u8) -> MachineView {
    MachineView {
        screen: Seq::new(SCREEN_PIXELS as nat, |k: int| m.screen[k] != draw_hit(m, x, y, n, k)),
        registers: m.registers.update(FLAG as int, flag_value(draw_collides(m, x, y, n))),
        ..m
    }
}

/// The state after executing `ins` in `m`, with `rnd` as the random byte, or the
/// error that stops it. The program counter moves past the instruction before it
/// takes effect; skips move it two further, jumps, calls and returns replace it.
pub open spec fn apply_spec(m: MachineView, ins: Instruction, rnd: u8) -> Result<
    MachineView,
    Chip8Error,
> {
    let next = m.with_pc(advance(m.pc));
    let skip = next.with_pc(advance(next.pc));
    match ins {
        Instruction::ClearScreen => Ok(
            MachineView { screen: Seq::new(SCREEN_PIXELS as nat, |k: int| false), ..next },
        ),
        Instruction::Return => if m.sp == 0 {
            Err(Chip8Error::StackUnderflow)
        } else {
            Ok(MachineView { pc: m.stack[m.sp - 1], sp: (m.sp - 1) as u8, ..m })
        },
        Instruction::Jump { addr } => Ok(m.with_pc(addr)),
        Instruction::Call { addr } => if m.sp >= STACK_DEPTH {
            Err(Chip8Error::StackOverflow)
        } else {
            Ok(
                MachineView {
                    stack: m.stack.update(m.sp as int, advance(m.pc)),
                    sp: (m.sp + 1) as u8,
                    pc: addr,
                    ..m
                },
            )
        },
        Instruction::SkipIfEqualImm { x, kk } => Ok(
            if m.registers[x as int] == kk {
                skip
            } else {
                next
            },
        ),
        Instruction::SkipIfNotEqualImm { x, kk } => Ok(
            if m.registers[x as int] != kk {
                skip
            } else {
                next
            },
        ),
        Instruction::SkipIfEqualReg { x, y } => Ok(
            if m.registers[x as int] == m.registers[y as int] {
                skip
            } else {
                next
            },
        ),
        Instruction::SkipIfNotEqualReg { x, y } => Ok(
            if m.registers[x as int] != m.registers[y as int] {
                skip
            } else {
                next
            },
        ),
        Instruction::LoadImm { x, kk } => Ok(next.with_register(x as int, kk)),
        Instruction::AddImm { x, kk } => Ok(
            next.with_register(x as int, ((m.registers[x as int] + kk) % 256) as u8),
        ),
        Instruction::Move { x, y } => Ok(next.with_register(x as int, m.registers[y as int])),
        Instruction::Or { x, y } => Ok(
            next.with_register(x as int, m.registers[x as int] | m.registers[y as int]),
        ),
        Instruction::And { x, y } => Ok(
            next.with_register(x as int, m.registers[x as int] & m.registers[y as int]),
        ),
        Instruction::Xor { x, y } => Ok(
            next.with_register(x as int, m.registers[x as int] ^ m.registers[y as int]),
        ),
        Instruction::AddReg { x, y } => {
            let sum = m.registers[x as int] + m.registers[y as int];
            Ok(
                next.with_register(FLAG as int, flag_value(sum > 255)).with_register(
                    x as int,
                    (sum % 256) as u8,
                ),
            )
        },
        Instruction::SubReg { x, y } => {
            let vx = m.registers[x as int];
            let vy = m.registers[y as int];
            Ok(
                next.with_register(FLAG as int, flag_value(vx > vy)).with_register(
                    x as int,
                    ((vx - vy + 256) % 256) as u8,
                ),
            )
        },
        Instruction::ShiftRight { x } => {
            let vx = m.registers[x as int];
            Ok(next.with_register(FLAG as int, vx % 2).with_register(x as int, vx / 2))
        },
        Instruction::ShiftLeft { x } => {
            let vx = m.registers[x as int];
            Ok(
                next.with_register(FLAG as int, vx / 128).with_register(
                    x as int,
                    ((vx * 2) % 256) as u8,
                ),
            )
        },
        Instruction::SetAddress { addr } => Ok(MachineView { address: addr, ..next }),
        Instruction::Random { x, kk } => Ok(next.with_register(x as int, rnd & kk)),
        Instruction::Draw { x, y, n } => if m.address + n > RAM_SIZE {
            Err(Chip8Error::AddressOutOfRange)
        } else {
            Ok(draw_spec(next, x, y, n))
        },
        Instruction::SetDelayTimer { x } => Ok(MachineView { timer: m.registers[x as int], ..next }),
        Instruction::AddAddress { x } => Ok(
            MachineView { address: ((m.address + m.registers[x as int]) % 0x10000) as u16, ..next },
        ),
        Instruction::StoreBcd { x } => if m.address + 3 > RAM_SIZE {
            Err(Chip8Error::AddressOutOfRange)
        } else {
            let v = m.registers[x as int];
            let a = m.address as int;
            Ok(
                MachineView {
                    ram: m.ram.update(a, v / 100).update(a + 1, (v % 100) / 10).update(
                        a + 2,
                        v % 10,
                    ),
                    ..next
                },
            )
        },
        Instruction::StoreRegisters { x } => if m.address + x + 1 > RAM_SIZE {
            Err(Chip8Error::AddressOutOfRange)
        } else {
            Ok(
                MachineView {
                    ram: Seq::new(
                        RAM_SIZE as nat,
                        |a: int|
                            if m.address <= a <= m.address + x {
                                m.registers[a - m.address]
                            } else {
                                m.ram[a]
                            },
                    ),
                    ..next
                },
            )
        },
        Instruction::LoadRegisters { x } => if m.address + x + 1 > RAM_SIZE {
            Err(Chip8Error::AddressOutOfRange)
        } else {
            Ok(
                MachineView {
                    registers: Seq::new(
                        REGISTER_COUNT as nat,
                        |i: int|
                            if i <= x {
                                m.ram[m.address + i]
                            } else {
                                m.registers[i]
                            },
                    ),
                    ..next
                },
            )
        },
    }
}

/// The state after executing the instruction word `b1 b2` in `m`, with `rnd` as
/// the random byte, or the error that stops it.
pub open spec fn execute_spec(m: MachineView, b1: u8, b2: u8, rnd: u8) -> Result<
    MachineView,
    Chip8Error,
> {
    match decode(b1, b2) {
        Ok(ins) => apply_spec(m, ins, rnd),
        Err(e) => Err(e),
    }
}

/// A call that went from `before` to `after` returning `r` did what `expected`
/// says: it succeeded with that state, or failed with that error and changed nothing.
pub open spec fn outcome(
    before: MachineView,
    after: MachineView,
    r: Result<(), Chip8Error>,
    expected: Result<MachineView, Chip8Error>,
) -> bool {
    match expected {
        Ok(m) => r == Ok::<(), Chip8Error>(()) && after == m,
        Err(e) => r == Err::<(), Chip8Error>(e) && after == before,
    }
}

/// A CHIP-8 style machine: memory, registers, address register, program counter,
/// call stack, framebuffer and delay timer, all owned by the one value.
pub struct Chip8 {
    registers: [u8; REGISTER_COUNT],
    mem_addr: u16,
    program_counter: u16,
    stack_pointer: u8,
    stack: [u16; STACK_DEPTH],
    screen: [bool; SCREEN_PIXELS],
    ram: [u8; RAM_SIZE],
    timer: u8,
}

impl View for Chip8 {
    type V = MachineView;

    closed spec fn view(&self) -> MachineView {
        MachineView {
            registers: self.registers@,
            address: self.mem_addr,
            pc: self.program_counter,
            sp: self.stack_pointer,
            stack: self.stack@,
            screen: self.screen@,
            ram: self.ram@,
            timer: self.timer,
        }
    }
}

impl Chip8 {
    pub open spec fn wf(&self) -> bool {
        self@.wf()
    }

    /// A machine with zeroed memory, registers and stack, and a clear framebuffer.
    pub fn new() -> (r: Self)
        ensures
            r.wf(),
            r@ == MachineView::initial(),
    {
        let r = Chip8 {
            registers: [0; REGISTER_COUNT],
            mem_addr: 0,
            program_counter: 0,
            stack_pointer: 0,
            stack: [0; STACK_DEPTH],
            screen: [false; SCREEN_PIXELS],
            ram: [0; RAM_SIZE],
            timer: 0,
        };
        assert(r@.registers =~= MachineView::initial().registers);
        assert(r@.stack =~= MachineView::initial().stack);
        assert(r@.screen =~= MachineView::initial().screen);
        assert(r@.ram =~= MachineView::initial().ram);
        r
    }

    fn set_register(&mut self, i: usize, v: u8)
        requires
            old(self).wf(),
            i < REGISTER_COUNT,
        ensures
            final(self)@ == old(self)@.with_register(i as int, v),
    {
        self.registers[i] = v;
    }

    /// XORs the `n`-byte sprite at the address register onto the framebuffer at
    /// the position held in registers `x` and `y`, and records a collision in the
    /// flag register.
    fn draw(&mut self, x: u8, y: u8, n: u8)
        requires
            old(self).wf(),
            x < 16,
            y < 16,
            n < 16,
            old(self)@.address + n <= RAM_SIZE,
        ensures
            final(self)@ == draw_spec(old(self)@, x, y, n),
    {
        let ghost m = self@;
        let row0: usize = (self.registers[y as usize] % 31) as usize;
        let col0: usize = (self.registers[x as usize] % 63) as usize;
        let base: usize = self.mem_addr as usize;
        let mut erased = false;
        let mut i: usize = 0;
        while i < n as usize
            invariant
                m.wf(),
                x < 16,
                y < 16,
                n < 16,
                i <= n,
                base == m.address,
                base + n <= RAM_SIZE,
                row0 == m.registers[y as int] % 31,
                col0 == m.registers[x as int] % 63,
                self@ == m.with_screen(self@.screen),
                self@.screen.len() == SCREEN_PIXELS,
                forall|k: int|
                    0 <= k < SCREEN_PIXELS ==> self@.screen[k] == (m.screen[k] != (draw_hit(
                        m,
                        x,
                        y,
                        n,
                        k,
                    ) && sprite_row(m, y, k) < i)),
                erased == exists|k: int|
                    0 <= k < SCREEN_PIXELS && #[trigger] draw_hit(m, x, y, n, k) && sprite_row(
                        m,
                        y,
                        k,
                    ) < i && m.screen[k],
            decreases n - i,
        {
            let row: usize = (row0 + i) % 31;
            let bits = u8_to_8_bools(self.ram[base + i]);
            let mut j: usize = 0;
            while j < 8
                invariant
                    m.wf(),
                    x < 16,
                    y < 16,
                    n < 16,
                    i < n,
                    j <= 8,
                    base == m.address,
                    base + n <= RAM_SIZE,
                    row0 == m.registers[y as int] % 31,
                    col0 == m.registers[x as int] % 63,
                    row == (row0 + i) % 31,
                    forall|b: int| 0 <= b < 8 ==> bits[b] == msb_bit(m.ram[base + i], b),
                    self@ == m.with_screen(self@.screen),
                    self@.screen.len() == SCREEN_PIXELS,
                    forall|k: int|
                        0 <= k < SCREEN_PIXELS ==> self@.screen[k] == (m.screen[k] != (draw_hit(
                            m,
                            x,
                            y,
                            n,
                            k,
                        ) && (sprite_row(m, y, k) < i || (sprite_row(m, y, k) == i && sprite_col(
                            m,
                            x,
                            k,
                        ) < j)))),
                    erased == exists|k: int|
                        0 <= k < SCREEN_PIXELS && #[trigger] draw_hit(m, x, y, n, k) && (sprite_row(
                            m,
                            y,
                            k,
                        ) < i || (sprite_row(m, y, k) == i && sprite_col(m, x, k) < j))
                            && m.screen[k],
                decreases 8 - j,
            {
                let col: usize = (col0 + j) % 63;
                let k: usize = row * SCREEN_COLS + col;
                proof {
                    lemma_pixel_position(row0 as int, col0 as int, i as int, j as int);
                }
                let pixel = self.screen[k];
                if pixel && bits[j] {
                    erased = true;
                }
                self.screen[k] = pixel != bits[j];
                proof {
                    assert forall|k2: int| 0 <= k2 < SCREEN_PIXELS implies (sprite_row(m, y, k2) == i
                        && sprite_col(m, x, k2) == j) == (k2 == k) by {
                        lemma_pixel_position_unique(row0 as int, col0 as int, i as int, j as int, k2);
                    }
                    let kk = k as int;
                    assert(sprite_row(m, y, kk) == i && sprite_col(m, x, kk) == j);
                    assert(draw_hit(m, x, y, n, kk) == bits[j as int]);
                    assert(pixel == m.screen[kk]);
                    if pixel && bits[j as int] {
                        assert(draw_hit(m, x, y, n, kk) && m.screen[kk]);
                    }
                }
                j = j + 1;
            }
            i = i + 1;
        }
        self.registers[FLAG] = if erased {
            1
        } else {
            0
        };
        assert(self@.screen =~= draw_spec(m, x, y, n).screen);
    }
}

impl Chip8 {
    /// Executes one decoded instruction with `rnd` as the random byte. On failure
    /// the machine is left as it was.
    fn apply(&mut self, ins: Instruction, rnd: u8) -> (r: Result<(), Chip8Error>)
        requires
            old(self).wf(),
            ins.wf(),
        ensures
            final(self).wf(),
            outcome(old(self)@, final(self)@, r, apply_spec(old(self)@, ins, rnd)),
    {
        let ghost m = self@;
        let next = self.program_counter.wrapping_add(2);
        match ins {
            Instruction::ClearScreen => {
                self.program_counter = next;
                self.screen = [false; SCREEN_PIXELS];
                assert(self@.screen =~= Seq::new(SCREEN_PIXELS as nat, |k: int| false));
            },
            Instruction::Return => {
                if self.stack_pointer == 0 {
                    return Err(Chip8Error::StackUnderflow);
                }
                self.stack_pointer = self.stack_pointer - 1;
                self.program_counter = self.stack[self.stack_pointer as usize];
            },
            Instruction::Jump { addr } => {
                self.program_counter = addr;
            },
            Instruction::Call { addr } => {
                if self.stack_pointer as usize >= STACK_DEPTH {
                    return Err(Chip8Error::StackOverflow);
                }
                self.stack[self.stack_pointer as usize] = next;
                self.stack_pointer = self.stack_pointer + 1;
                self.program_counter = addr;
            },
            Instruction::SkipIfEqualImm { x, kk } => {
                self.program_counter = if self.registers[x as usize] == kk {
                    next.wrapping_add(2)
                } else {
                    next
                };
            },
            Instruction::SkipIfNotEqualImm { x, kk } => {
                self.program_counter = if self.registers[x as usize] != kk {
                    next.wrapping_add(2)
                } else {
                    next
                };
            },
            Instruction::SkipIfEqualReg { x, y } => {
                self.program_counter = if self.registers[x as usize] == self.registers[y as usize] {
                    next.wrapping_add(2)
                } else {
                    next
                };
            },
            Instruction::SkipIfNotEqualReg { x, y } => {
                self.program_counter = if self.registers[x as usize] != self.registers[y as usize] {
                    next.wrapping_add(2)
                } else {
                    next
                };
            },
            Instruction::LoadImm { x, kk } => {
                self.program_counter = next;
                self.set_register(x as usize, kk);
            },
            Instruction::AddImm { x, kk } => {
                self.program_counter = next;
                let v = self.registers[x as usize].wrapping_add(kk);
                self.set_register(x as usize, v);
            },
            Instruction::Move { x, y } => {
                self.program_counter = next;
                let v = self.registers[y as usize];
                self.set_register(x as usize, v);
            },
            Instruction::Or { x, y } => {
                self.program_counter = next;
                let v = self.registers[x as usize] | self.registers[y as usize];
                self.set_register(x as usize, v);
            },
            Instruction::And { x, y } => {
                self.program_counter = next;
                let v = self.registers[x as usize] & self.registers[y as usize];
                self.set_register(x as usize, v);
            },
            Instruction::Xor { x, y } => {
                self.program_counter = next;
                let v = self.registers[x as usize] ^ self.registers[y as usize];
                self.set_register(x as usize, v);
            },
            Instruction::AddReg { x, y } => {
                self.program_counter = next;
                let sum: u16 = self.registers[x as usize] as u16 + self.registers[y as usize] as u16;
                self.set_register(FLAG, if sum > 255 { 1 } else { 0 });
                self.set_register(x as usize, (sum % 256) as u8);
            },
            Instruction::SubReg { x, y } => {
                self.program_counter = next;
                let vx = self.registers[x as usize];
                let vy = self.registers[y as usize];
                self.set_register(FLAG, if vx > vy { 1 } else { 0 });
                self.set_register(x as usize, vx.wrapping_sub(vy));
            },
            Instruction::ShiftRight { x } => {
                self.program_counter = next;
                let vx = self.registers[x as usize];
                self.set_register(FLAG, vx % 2);
                self.set_register(x as usize, vx / 2);
            },
            Instruction::ShiftLeft { x } => {
                self.program_counter = next;
                let vx = self.registers[x as usize];
                self.set_register(FLAG, vx / 128);
                self.set_register(x as usize, vx.wrapping_mul(2));
            },
            Instruction::SetAddress { addr } => {
                self.program_counter = next;
                self.mem_addr = addr;
            },
            Instruction::Random { x, kk } => {
                self.program_counter = next;
                self.set_register(x as usize, rnd & kk);
            },
            Instruction::Draw { x, y, n } => {
                if self.mem_addr as usize + n as usize > RAM_SIZE {
                    return Err(Chip8Error::AddressOutOfRange);
                }
                self.program_counter = next;
                self.draw(x, y, n);
            },
            Instruction::SetDelayTimer { x } => {
                self.program_counter = next;
                self.timer = self.registers[x as usize];
            },
            Instruction::AddAddress { x } => {
                self.program_counter = next;
                self.mem_addr = self.mem_addr.wrapping_add(self.registers[x as usize] as u16);
            },
            Instruction::StoreBcd { x } => {
                let a = self.mem_addr as usize;
                if a + 3 > RAM_SIZE {
                    return Err(Chip8Error::AddressOutOfRange);
                }
                self.program_counter = next;
                let v = self.registers[x as usize];
                self.ram[a] = v / 100;
                self.ram[a + 1] = (v % 100) / 10;
                self.ram[a + 2] = v % 10;
            },
            Instruction::StoreRegisters { x } => {
                let a = self.mem_addr as usize;
                if a + x as usize + 1 > RAM_SIZE {
                    return Err(Chip8Error::AddressOutOfRange);
                }
                self.program_counter = next;
                let mut i: usize = 0;
                while i <= x as usize
                    invariant
                        m.wf(),
                        x < 16,
                        a == m.address,
                        a + x + 1 <= RAM_SIZE,
                        i <= x + 1,
                        self@ == (MachineView { ram: self@.ram, pc: next, ..m }),
                        self@.ram.len() == RAM_SIZE,
                        forall|b: int|
                            0 <= b < RAM_SIZE ==> self@.ram[b] == if a <= b < a + i {
                                m.registers[b - a]
                            } else {
                                m.ram[b]
                            },
                    decreases x + 1 - i,
                {
                    self.ram[a + i] = self.registers[i];
                    i = i + 1;
                }
                assert(self@.ram =~= apply_spec(m, ins, rnd).unwrap().ram);
            },
            Instruction::LoadRegisters { x } => {
                let a = self.mem_addr as usize;
                if a + x as usize + 1 > RAM_SIZE {
                    return Err(Chip8Error::AddressOutOfRange);
                }
                self.program_counter = next;
                let mut i: usize = 0;
                while i <= x as usize
                    invariant
                        m.wf(),
                        x < 16,
                        a == m.address,
                        a + x + 1 <= RAM_SIZE,
                        i <= x + 1,
                        self@ == (MachineView { registers: self@.registers, pc: next, ..m }),
                        self@.registers.len() == REGISTER_COUNT,
                        forall|b: int|
                            0 <= b < REGISTER_COUNT ==> self@.registers[b] == if b < i {
                                m.ram[a + b]
                            } else {
                                m.registers[b]
                            },
                    decreases x + 1 - i,
                {
                    self.registers[i] = self.ram[a + i];
                    i = i + 1;
                }
                assert(self@.registers =~= apply_spec(m, ins, rnd).unwrap().registers);
            },
        }
        Ok(())
    }
}

/// The state after loading the program image `rom` into `m`, or `RomTooLarge`
/// when it does not fit between the load offset and the end of memory.
pub open spec fn load_spec(m: MachineView, rom: Seq<u8>) -> Result<MachineView, Chip8Error> {
    if rom.len() > RAM_SIZE - PROGRAM_START {
        Err(Chip8Error::RomTooLarge)
    } else {
        Ok(
            MachineView {
                ram: Seq::new(
                    RAM_SIZE as nat,
                    |a: int|
                        if PROGRAM_START <= a < PROGRAM_START + rom.len() {
                            rom[a - PROGRAM_START]
                        } else {
                            m.ram[a]
                        },
                ),
                pc: PROGRAM_START as u16,
                ..m
            },
        )
    }
}

/// The instruction word `b1 b2` draws on the random byte.
pub open spec fn uses_random(b1: u8, b2: u8) -> bool {
    decode(b1, b2) matches Ok(Instruction::Random { .. })
}

/// The word at the program counter lies inside memory.
pub open spec fn can_fetch(m: MachineView) -> bool {
    m.pc + 1 < RAM_SIZE
}

/// Text of the register file: `Regs: ` and then the sixteen registers in hexadecimal.
pub uninterp spec fn registers_text(regs: Seq<u8>) -> Seq<char>;

/// Relies on `format!` with `{:x?}`: the text depends on the register values alone.
#[verifier::external_body]
fn format_registers(regs: &[u8; REGISTER_COUNT]) -> (r: String)
    ensures
        r@ == registers_text(regs@),
{
    format!("Regs: {:x?}", regs)
}

/// Relies on `rand::random::<u8>`: one byte from the thread-local generator.
/// Nothing is promised of its value.
#[verifier::external_body]
fn random_byte() -> (r: u8) {
    rand::random::<u8>()
}

impl Chip8 {
    /// Copies the program image `rom` into memory from the load offset on and
    /// points the program counter at it. An image longer than the memory above
    /// the load offset gives `RomTooLarge` and changes nothing.
    pub fn load_instructions(&mut self, rom: &[u8]) -> (r: Result<(), Chip8Error>)
        requires
            old(self).wf(),
        ensures
            final(self).wf(),
            outcome(old(self)@, final(self)@, r, load_spec(old(self)@, rom@)),
            r is Err <==> rom@.len() > RAM_SIZE - PROGRAM_START,
    {
        if rom.len() > RAM_SIZE - PROGRAM_START {
            return Err(Chip8Error::RomTooLarge);
        }
        let ghost m = self@;
        let mut i: usize = 0;
        while i < rom.len()
            invariant
                m.wf(),
                rom@.len() <= RAM_SIZE - PROGRAM_START,
                i <= rom@.len(),
                self@ == (MachineView { ram: self@.ram, ..m }),
                self@.ram.len() == RAM_SIZE,
                forall|a: int|
                    0 <= a < RAM_SIZE ==> self@.ram[a] == if PROGRAM_START <= a < PROGRAM_START + i {
                        rom@[a - PROGRAM_START]
                    } else {
                        m.ram[a]
                    },
            decreases rom@.len() - i,
        {
            self.ram[PROGRAM_START + i] = rom[i];
            i = i + 1;
        }
        self.program_counter = PROGRAM_START as u16;
        assert(self@.ram =~= load_spec(m, rom@).unwrap().ram);
        Ok(())
    }

    /// Executes the instruction word `byte1 byte2` (high byte first), with `random`
    /// as the byte that `Cxkk` draws. On failure the machine is left as it was.
    pub fn execute_with_random(&mut self, byte1: u8, byte2: u8, random: u8) -> (r: Result<
        (),
        Chip8Error,
    >)
        requires
            old(self).wf(),
        ensures
            final(self).wf(),
            outcome(old(self)@, final(self)@, r, execute_spec(old(self)@, byte1, byte2, random)),
    {
        match crate::decode::instruction_parser((byte1, byte2)) {
            Ok(ins) => self.apply(ins, random),
            Err(e) => Err(e),
        }
    }

    /// Executes the instruction word `byte1 byte2` (high byte first); `Cxkk` draws
    /// its byte from the thread-local random generator. On failure the machine is
    /// left as it was.
    pub fn execute_instruction(&mut self, byte1: u8, byte2: u8) -> (r: Result<(), Chip8Error>)
        requires
            old(self).wf(),
        ensures
            final(self).wf(),
            exists|v: u8|
                outcome(old(self)@, final(self)@, r, #[trigger] execute_spec(old(self)@, byte1, byte2, v)),
            !uses_random(byte1, byte2) ==> outcome(
                old(self)@,
                final(self)@,
                r,
                execute_spec(old(self)@, byte1, byte2, 0),
            ),
    {
        let random = match crate::decode::instruction_parser((byte1, byte2)) {
            Ok(Instruction::Random { .. }) => random_byte(),
            _ => 0,
        };
        self.execute_with_random(byte1, byte2, random)
    }

    /// Reads the two bytes at the program counter and executes them, with
    /// `random` as the byte that `Cxkk` draws. A program counter at the last byte
    /// of memory or past it gives `AddressOutOfRange`.
    pub fn step_with_random(&mut self, random: u8) -> (r: Result<(), Chip8Error>)
        requires
            old(self).wf(),
        ensures
            final(self).wf(),
            !can_fetch(old(self)@) ==> r == Err::<(), Chip8Error>(Chip8Error::AddressOutOfRange)
                && final(self)@ == old(self)@,
            can_fetch(old(self)@) ==> outcome(
                old(self)@,
                final(self)@,
                r,
                execute_spec(
                    old(self)@,
                    old(self)@.ram[old(self)@.pc as int],
                    old(self)@.ram[old(self)@.pc + 1],
                    random,
                ),
            ),
    {
        let pc = self.program_counter as usize;
        if pc + 1 >= RAM_SIZE {
            return Err(Chip8Error::AddressOutOfRange);
        }
        let byte1 = self.ram[pc];
        let byte2 = self.ram[pc + 1];
        self.execute_with_random(byte1, byte2, random)
    }

    /// Reads the two bytes at the program counter and executes them; `Cxkk` draws
    /// its byte from the thread-local random generator. A program counter at the
    /// last byte of memory or past it gives `AddressOutOfRange`.
    pub fn step(&mut self) -> (r: Result<(), Chip8Error>)
        requires
            old(self).wf(),
        ensures
            final(self).wf(),
            !can_fetch(old(self)@) ==> r == Err::<(), Chip8Error>(Chip8Error::AddressOutOfRange)
                && final(self)@ == old(self)@,
            can_fetch(old(self)@) ==> exists|v: u8|
                outcome(
                    old(self)@,
                    final(self)@,
                    r,
                    #[trigger] execute_spec(
                        old(self)@,
                        old(self)@.ram[old(self)@.pc as int],
                        old(self)@.ram[old(self)@.pc + 1],
                        v,
                    ),
                ),
    {
        let pc = self.program_counter as usize;
        if pc + 1 >= RAM_SIZE {
            return Err(Chip8Error::AddressOutOfRange);
        }
        let byte1 = self.ram[pc];
        let byte2 = self.ram[pc + 1];
        self.execute_instruction(byte1, byte2)
    }

    /// The register file as text, for diagnostics.
    pub fn state_to_string(&self) -> (r: String)
        ensures
            r@ == registers_text(self@.registers),
    {
        format_registers(&self.registers)
    }

    /// Register `i`.
    pub fn register(&self, i: usize) -> (r: u8)
        requires
            i < REGISTER_COUNT,
        ensures
            r == self@.registers[i as int],
    {
        self.registers[i]
    }

    pub fn program_counter(&self) -> (r: u16)
        ensures
            r == self@.pc,
    {
        self.program_counter
    }

    pub fn address_register(&self) -> (r: u16)
        ensures
            r == self@.address,
    {
        self.mem_addr
    }

    /// Number of return addresses on the call stack.
    pub fn stack_depth(&self) -> (r: u8)
        ensures
            r == self@.sp,
    {
        self.stack_pointer
    }

    pub fn delay_timer(&self) -> (r: u8)
        ensures
            r == self@.timer,
    {
        self.timer
    }

    /// Byte `addr` of memory.
    pub fn memory(&self, addr: usize) -> (r: u8)
        requires
            addr < RAM_SIZE,
        ensures
            r == self@.ram[addr as int],
    {
        self.ram[addr]
    }

    /// Pixel `(row, col)` of the framebuffer.
    pub fn pixel(&self, row: usize, col: usize) -> (r: bool)
        requires
            row < SCREEN_ROWS,
            col < SCREEN_COLS,
        ensures
            r == self@.pixel(row as int, col as int),
    {
        self.screen[row * SCREEN_COLS + col]
    }
}

/// The pixel that bit `j` of sprite row `i` lands on, for a sprite drawn at row
/// `row0` and column `col0`, lies inside the framebuffer.
proof fn lemma_pixel_position(row0: int, col0: int, i: int, j: int)
    requires
        0 <= row0 < 31,
        0 <= col0 < 63,
        0 <= i < 16,
        0 <= j < 8,
    ensures
        0 <= ((row0 + i) % 31) * 63 + (col0 + j) % 63 < SCREEN_PIXELS,
{
    assert(0 <= (row0 + i) % 31 < 31);
    assert(0 <= (col0 + j) % 63 < 63);
}

/// Pixel `k` receives bit `j` of sprite row `i` exactly when it is the pixel at
/// row `(row0 + i) % 31` and column `(col0 + j) % 63`.
proof fn lemma_pixel_position_unique(row0: int, col0: int, i: int, j: int, k: int)
    requires
        0 <= row0 < 31,
        0 <= col0 < 63,
        0 <= i < 16,
        0 <= j < 8,
        0 <= k < SCREEN_PIXELS,
    ensures
        ((k / 63 - row0 + 31) % 31 == i && (k % 63 - col0 + 63) % 63 == j) == (k == ((row0 + i)
            % 31) * 63 + (col0 + j) % 63),
{
    let r = k / 63;
    let c = k % 63;
    assert(k == r * 63 + c && 0 <= r < 31 && 0 <= c < 63) by (nonlinear_arith)
        requires 0 <= k < SCREEN_PIXELS, r == k / 63, c == k % 63;
    let rr = (row0 + i) % 31;
    let cc = (col0 + j) % 63;
    assert(0 <= rr < 31 && 0 <= cc < 63);
    if k == rr * 63 + cc {
        assert(r == rr && c == cc) by (nonlinear_arith)
            requires k == rr * 63 + cc, k == r * 63 + c, 0 <= r < 31, 0 <= c < 63, 0 <= rr < 31, 0 <= cc < 63;
    }
    if (r - row0 + 31) % 31 == i && (c - col0 + 63) % 63 == j {
        assert(r == rr);
        assert(c == cc);
    }
}

} // verus!
