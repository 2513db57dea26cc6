//! The machine as a mathematical value, and what each instruction does to it:
//! the definitions that the contracts of the engine are written in, together
//! with the machine's sizes and its two fixed tables.

use crate::insts::{decode, Instruction};
use vstd::prelude::*;

verus! {

/// Number of addressable bytes.
pub const MEMORY_SIZE: usize = 4096;

/// Address of the first byte of a loaded program.
pub const PROGRAM_START: usize = 0x200;

/// Number of pixel columns.
pub const WIDTH: usize = 64;

/// Number of pixel rows.
pub const HEIGHT: usize = 32;

/// The glyphs of the sixteen hexadecimal digits, five bytes each; each byte
/// is one row, its high four bits the pixels.
pub const FONT: [u8; 80] = [
    0xF0, 0x90, 0x90, 0x90, 0xF0,
    0x20, 0x60, 0x20, 0x20, 0x70,
    0xF0, 0x10, 0xF0, 0x80, 0xF0,
    0xF0, 0x10, 0xF0, 0x10, 0xF0,
    0x90, 0x90, 0xF0, 0x10, 0x10,
    0xF0, 0x80, 0xF0, 0x10, 0xF0,
    0xF0, 0x80, 0xF0, 0x90, 0xF0,
    0xF0, 0x10, 0x20, 0x40, 0x40,
    0xF0, 0x90, 0xF0, 0x90, 0xF0,
    0xF0, 0x90, 0xF0, 0x10, 0xF0,
    0xF0, 0x90, 0xF0, 0x90, 0x90,
    0xE0, 0x90, 0xE0, 0x90, 0xE0,
    0xF0, 0x80, 0x80, 0x80, 0xF0,
    0xE0, 0x90, 0x90, 0x90, 0xE0,
    0xF0, 0x80, 0xF0, 0x80, 0xF0,
    0xF0, 0x80, 0xF0, 0x80, 0x80,
];

/// For each value 0..16 that a program uses to name a key, the number under
/// which the host knows that key.
pub const KEYBOARDMAP: [u8; 16] = [13, 0, 1, 2, 4, 5, 6, 8, 9, 10, 12, 14, 3, 7, 11, 15];

/// Why a cycle could not be carried out. The machine is left as it was.
#[derive(Debug, Clone, Copy, PartialEq, Eq)]
pub enum Fatal {
    /// The opcode matches no instruction; it is carried along.
    Unrecognized(u16),
    /// A return with no call to return from.
    EmptyStack,
    /// A glyph was asked for a register value above 9; the value is carried along.
    SpriteDigit(u8),
    /// The program counter does not point at two bytes of memory.
    FetchOutOfRange,
    /// The instruction reads or writes memory at `I`, past the last byte.
    AccessOutOfRange,
}

/// What a cycle needs from the host before it can be carried out.
#[derive(Debug, Clone, Copy, PartialEq, Eq)]
pub enum Query {
    /// Nothing: the cycle depends on the machine alone.
    Nothing,
    /// Whether the key with this number is down.
    Key(u8),
    /// A random byte.
    Random,
}

/// One notification to the pixel host: the pixel at column `x`, row `y` is
/// now on or off.
pub struct Notice {
    pub x: int,
    pub y: int,
    pub on: bool,
}

/// One question to the keypad with its answer: whether the key with the
/// host's number `key` is down.
pub struct KeyAnswer {
    pub key: u8,
    pub pressed: bool,
}

/// The state of the machine.
pub struct State {
    /// The 4096 bytes of memory.
    pub memory: Seq<u8>,
    /// The registers `V0..=VF`.
    pub registers: Seq<u8>,
    /// The program counters of the calls not yet returned from, oldest first.
    pub stack: Seq<u16>,
    /// The index register `I`.
    pub i: u16,
    /// The program counter: the address of the next opcode.
    pub pc: int,
    /// The delay timer.
    pub delay: u8,
    /// The sound timer.
    pub sound: u8,
    /// The pixels, `screen[x][y]` for column `x` and row `y`.
    pub screen: Seq<Seq<bool>>,
}

/// A screen of the given pixels.
pub open spec fn screen_of(lit: spec_fn(int, int) -> bool) -> Seq<Seq<bool>> {
    Seq::new(WIDTH as nat, |x: int| Seq::new(HEIGHT as nat, |y: int| lit(x, y)))
}

/// Bit `k` of a byte, bit 0 being the lowest.
pub open spec fn bit(byte: u8, k: u8) -> bool {
    (byte >> k) & 1 == 1
}

/// The big-endian 16-bit value of two bytes.
pub open spec fn word(high: u8, low: u8) -> u16 {
    (high as int * 0x100 + low as int) as u16
}

/// Memory after a program image is loaded: the image from `PROGRAM_START` on,
/// cut off at the end of memory, and every other byte as before.
pub open spec fn loaded(memory: Seq<u8>, image: Seq<u8>) -> Seq<u8> {
    Seq::new(
        MEMORY_SIZE as nat,
        |a: int|
            if PROGRAM_START <= a < PROGRAM_START + image.len() {
                image[a - PROGRAM_START]
            } else {
                memory[a]
            },
    )
}

impl State {
    /// The sizes are those of the machine.
    pub open spec fn wf(self) -> bool {
        &&& self.memory.len() == MEMORY_SIZE
        &&& self.registers.len() == 16
        &&& self.screen.len() == WIDTH
        &&& forall|x: int| 0 <= x < WIDTH ==> (#[trigger] self.screen[x]).len() == HEIGHT
    }

    /// The machine as it is built: the font at address 0, the program counter
    /// at `PROGRAM_START`, everything else zero, the screen dark.
    pub open spec fn initial() -> State {
        State {
            memory: Seq::new(MEMORY_SIZE as nat, |a: int| if a < 80 { FONT@[a] } else { 0u8 }),
            registers: Seq::new(16, |k: int| 0u8),
            stack: Seq::empty(),
            i: 0,
            pc: PROGRAM_START as int,
            delay: 0,
            sound: 0,
            screen: screen_of(|x: int, y: int| false),
        }
    }

    /// Register `Vx`.
    pub open spec fn reg(self, x: int) -> u8 {
        self.registers[x]
    }

    /// The same machine with `Vx` set to `v`.
    pub open spec fn set_reg(self, x: int, v: u8) -> State {
        State { registers: self.registers.update(x, v), ..self }
    }

    /// The same machine with another screen.
    pub open spec fn with_screen(self, screen: Seq<Seq<bool>>) -> State {
        State { screen, ..self }
    }

    /// The same machine with another memory.
    pub open spec fn with_memory(self, memory: Seq<u8>) -> State {
        State { memory, ..self }
    }

    /// The same machine with other registers.
    pub open spec fn with_registers(self, registers: Seq<u8>) -> State {
        State { registers, ..self }
    }

    /// The same machine with the program counter at `pc`.
    pub open spec fn at(self, pc: int) -> State {
        State { pc, ..self }
    }

    /// The same machine, ready for the opcode after the current one.
    pub open spec fn next(self) -> State {
        self.at(self.pc + 2)
    }

    /// The same machine, past the next opcode if `skip` holds.
    pub open spec fn next_skipping(self, skip: bool) -> State {
        self.at(if skip { self.pc + 4 } else { self.pc + 2 })
    }

    /// Whether the pixel at column `x`, row `y` is on; off outside the screen.
    pub open spec fn lit(self, x: int, y: int) -> bool {
        0 <= x < WIDTH && 0 <= y < HEIGHT && self.screen[x][y]
    }

    /// One pixel written: forced off, or else inverted. A position outside
    /// the screen changes nothing.
    pub open spec fn plot(self, x: int, y: int, force_off: bool) -> State {
        if 0 <= x < WIDTH && 0 <= y < HEIGHT {
            State {
                screen: self.screen.update(
                    x,
                    self.screen[x].update(y, !force_off && !self.screen[x][y]),
                ),
                ..self
            }
        } else {
            self
        }
    }

    /// What the host is told when that pixel is written: the new state of the
    /// pixel, or nothing for a position outside the screen.
    pub open spec fn plot_calls(self, x: int, y: int, force_off: bool) -> Seq<Notice> {
        if 0 <= x < WIDTH && 0 <= y < HEIGHT {
            seq![Notice { x, y, on: !force_off && !self.screen[x][y] }]
        } else {
            Seq::empty()
        }
    }

    /// Both timers one lower, each stopping at zero.
    pub open spec fn ticked(self) -> State {
        State {
            delay: if self.delay > 0 { (self.delay - 1) as u8 } else { 0 },
            sound: if self.sound > 0 { (self.sound - 1) as u8 } else { 0 },
            ..self
        }
    }

    /// The opcode at the program counter, if both of its bytes are in memory.
    pub open spec fn fetch(self) -> Option<u16> {
        if 0 <= self.pc && self.pc + 1 < MEMORY_SIZE {
            Some(word(self.memory[self.pc], self.memory[self.pc + 1]))
        } else {
            None
        }
    }

    /// The host's number of the key that the value of `Vx` names, if it names one.
    pub open spec fn key(self, x: int) -> Option<u8> {
        if self.reg(x) < 16 {
            Some(KEYBOARDMAP@[self.reg(x) as int])
        } else {
            None
        }
    }

    /// What the host is asked before `inst` is carried out.
    pub open spec fn query(self, inst: Instruction) -> Query {
        match inst {
            Instruction::SkipIfPressed(x) | Instruction::SkipIfNotPressed(x)
            | Instruction::WaitKey(x) => match self.key(x as int) {
                Some(k) => Query::Key(k),
                None => Query::Nothing,
            },
            Instruction::Random(_, _) => Query::Random,
            _ => Query::Nothing,
        }
    }

    /// How many rows of an `n`-row sprite placed at row `y0` are looked at:
    /// those that start no lower than the line just under the screen.
    pub open spec fn sprite_rows(y0: int, n: int) -> int {
        if n <= HEIGHT + 1 - y0 {
            n
        } else {
            HEIGHT + 1 - y0
        }
    }

    /// Whether an `n`-row sprite read at `I` and placed with its top left
    /// corner at `(x0, y0)` has a set bit over the pixel `(x, y)`. Each byte
    /// is one row, its highest bit the leftmost pixel.
    pub open spec fn sprite_covers(self, x0: int, y0: int, n: int, x: int, y: int) -> bool {
        &&& 0 <= y - y0 < n
        &&& 0 <= x - x0 < 8
        &&& bit(self.memory[self.i + (y - y0)], (7 - (x - x0)) as u8)
    }

    /// The machine after the sprite is drawn: every pixel of the screen that
    /// the sprite covers is inverted.
    pub open spec fn drawn(self, x0: int, y0: int, n: int) -> State {
        State {
            screen: screen_of(
                |x: int, y: int| self.screen[x][y] != self.sprite_covers(x0, y0, n, x, y),
            ),
            ..self
        }
    }

    /// What the host is told while the first `cells` pixels are cleared,
    /// column by column from the left and each column from the top: that
    /// each of them is off.
    pub open spec fn clear_calls(cells: int) -> Seq<Notice> {
        Seq::new(
            cells as nat,
            |k: int| Notice { x: k / (HEIGHT as int), y: k % (HEIGHT as int), on: false },
        )
    }

    /// What the host is told while the first `cols` bits of the sprite row
    /// `byte` are drawn from column `x0` on in row `y`, the highest bit
    /// first: for each set bit over the screen, the inverse of the pixel
    /// under it.
    pub open spec fn row_calls(self, x0: int, y: int, byte: u8, cols: int) -> Seq<Notice>
        decreases cols,
    {
        if cols <= 0 {
            Seq::empty()
        } else {
            let x = x0 + cols - 1;
            let earlier = self.row_calls(x0, y, byte, cols - 1);
            if bit(byte, (8 - cols) as u8) && 0 <= x < WIDTH && 0 <= y < HEIGHT {
                earlier.push(Notice { x, y, on: !self.screen[x][y] })
            } else {
                earlier
            }
        }
    }

    /// What the host is told while the first `rows` rows of the sprite at
    /// `I` are drawn with the top left corner at `(x0, y0)`, from the top
    /// row down.
    pub open spec fn sprite_calls(self, x0: int, y0: int, rows: int) -> Seq<Notice>
        decreases rows,
    {
        if rows <= 0 {
            Seq::empty()
        } else {
            self.sprite_calls(x0, y0, rows - 1) + self.row_calls(
                x0,
                y0 + rows - 1,
                self.memory[self.i + rows - 1],
                8,
            )
        }
    }

    /// What the host is told while `inst` is carried out: every pixel that
    /// is written, in the order of writing. Only clearing and drawing write
    /// pixels.
    pub open spec fn notifications(self, inst: Instruction) -> Seq<Notice> {
        match inst {
            Instruction::ClearScreen => State::clear_calls(WIDTH * HEIGHT),
            Instruction::Draw(x, y, n) => {
                let x0 = self.reg(x as int) as int % WIDTH as int;
                let y0 = self.reg(y as int) as int % HEIGHT as int;
                self.sprite_calls(x0, y0, State::sprite_rows(y0, n as int))
            },
            _ => Seq::empty(),
        }
    }

    /// What the keypad is asked before `inst` is carried out, with its
    /// answer `pressed`: one question for the instructions that `query` says
    /// depend on a key, and else none.
    pub open spec fn keys_asked(self, inst: Instruction, pressed: bool) -> Seq<KeyAnswer> {
        match self.query(inst) {
            Query::Key(key) => seq![KeyAnswer { key, pressed }],
            _ => Seq::empty(),
        }
    }

    /// The random bytes that the host gives before `inst` is carried out:
    /// `byte` for the instruction that asks for one, and else none.
    pub open spec fn bytes_given(self, inst: Instruction, byte: u8) -> Seq<u8> {
        match self.query(inst) {
            Query::Random => seq![byte],
            _ => Seq::empty(),
        }
    }

    /// The machine after `inst`, where `pressed` is the host's answer about
    /// the key and `byte` its random byte (each matters only to the
    /// instructions that ask for it, see `query`). A register value that
    /// names no key counts as a key that is up.
    pub open spec fn apply(self, inst: Instruction, pressed: bool, byte: u8) -> Result<
        State,
        Fatal,
    > {
        let s = self;
        match inst {
            Instruction::ClearScreen => Ok(
                State { screen: screen_of(|x: int, y: int| false), ..s }.next(),
            ),
            Instruction::Ret => if s.stack.len() == 0 {
                Err(Fatal::EmptyStack)
            } else {
                Ok(State { stack: s.stack.drop_last(), ..s }.at(s.stack.last() + 2))
            },
            Instruction::Jump(nnn) => Ok(s.at(nnn as int)),
            Instruction::Call(nnn) => Ok(
                State { stack: s.stack.push(s.pc as u16), ..s }.at(nnn as int),
            ),
            Instruction::SkipNextInstruction(x, kk) => Ok(s.next_skipping(s.reg(x as int) == kk)),
            Instruction::NSkipNextInstruction(x, kk) => Ok(s.next_skipping(s.reg(x as int) != kk)),
            Instruction::R2SkipNextInstruction(x, y) => Ok(
                s.next_skipping(s.reg(x as int) == s.reg(y as int)),
            ),
            Instruction::NR2SkipNextInstruction(x, y) => Ok(
                s.next_skipping(s.reg(x as int) != s.reg(y as int)),
            ),
            Instruction::SetRegister(x, kk) => Ok(s.set_reg(x as int, kk).next()),
            Instruction::AddRegister(x, kk) => Ok(
                s.set_reg(x as int, ((s.reg(x as int) + kk) % 256) as u8).next(),
            ),
            Instruction::STORE(x, y) => Ok(s.set_reg(x as int, s.reg(y as int)).next()),
            Instruction::OR(x, y) => Ok(
                s.set_reg(x as int, s.reg(x as int) | s.reg(y as int)).next(),
            ),
            Instruction::AND(x, y) => Ok(
                s.set_reg(x as int, s.reg(x as int) & s.reg(y as int)).next(),
            ),
            Instruction::XOR(x, y) => Ok(
                s.set_reg(x as int, s.reg(x as int) ^ s.reg(y as int)).next(),
            ),
            Instruction::ADD(x, y) => {
                let sum = ((s.reg(x as int) + s.reg(y as int)) % 256) as u8;
                Ok(s.set_reg(x as int, sum).set_reg(15, sum).next())
            },
            Instruction::SUB(x, y) => {
                let a = s.reg(x as int);
                let b = s.reg(y as int);
                Ok(
                    s.set_reg(15, if a > b { 1u8 } else { 0u8 }).set_reg(
                        x as int,
                        ((a - b) % 256) as u8,
                    ).next(),
                )
            },
            Instruction::SHR(x) => {
                let a = s.reg(x as int);
                Ok(s.set_reg(15, (a % 2) as u8).set_reg(x as int, (a / 2) as u8).next())
            },
            Instruction::SUBN(x, y) => {
                let a = s.reg(x as int);
                let b = s.reg(y as int);
                Ok(
                    s.set_reg(15, if b > a { 1u8 } else { 0u8 }).set_reg(
                        x as int,
                        ((b - a) % 256) as u8,
                    ).next(),
                )
            },
            Instruction::SHL(x) => {
                let a = s.reg(x as int);
                Ok(
                    s.set_reg(15, if a >= 0x80 { 0x80u8 } else { 0u8 }).set_reg(
                        x as int,
                        ((2 * a) % 256) as u8,
                    ).next(),
                )
            },
            Instruction::SetI(nnn) => Ok(State { i: nnn, ..s }.next()),
            Instruction::Jump2(nnn) => Ok(s.at(nnn + s.reg(0))),
            Instruction::Random(x, kk) => Ok(s.set_reg(x as int, byte & (kk as u8)).next()),
            Instruction::Draw(x, y, n) => {
                let x0 = s.reg(x as int) as int % WIDTH as int;
                let y0 = s.reg(y as int) as int % HEIGHT as int;
                let rows = State::sprite_rows(y0, n as int);
                if rows > 0 && s.i + rows > MEMORY_SIZE {
                    Err(Fatal::AccessOutOfRange)
                } else {
                    Ok(s.drawn(x0, y0, n as int).next())
                }
            },
            Instruction::SkipIfPressed(x) => Ok(
                s.next_skipping(pressed && s.key(x as int) is Some),
            ),
            Instruction::SkipIfNotPressed(x) => Ok(
                s.next_skipping(!(pressed && s.key(x as int) is Some)),
            ),
            Instruction::WaitKey(x) => if pressed && s.key(x as int) is Some {
                Ok(s.next())
            } else {
                Ok(s)
            },
            Instruction::ReadDelay(x) => Ok(s.set_reg(x as int, s.delay).next()),
            Instruction::SetDelay(x) => Ok(State { delay: s.reg(x as int), ..s }.next()),
            Instruction::SetSound(x) => Ok(State { sound: s.reg(x as int), ..s }.next()),
            Instruction::AddI(x) => Ok(
                State { i: ((s.i + s.reg(x as int)) % 0x10000) as u16, ..s }.next(),
            ),
            Instruction::SpriteDigit(x) => if s.reg(x as int) > 9 {
                Err(Fatal::SpriteDigit(s.reg(x as int)))
            } else {
                Ok(State { i: (5 * s.reg(x as int)) as u16, ..s }.next())
            },
            Instruction::StoreBCD(x) => {
                let v = s.reg(x as int);
                if s.i + 2 >= MEMORY_SIZE {
                    Err(Fatal::AccessOutOfRange)
                } else {
                    Ok(
                        State {
                            memory: s.memory.update(s.i as int, (v / 100) as u8).update(
                                s.i + 1,
                                ((v / 10) % 10) as u8,
                            ).update(s.i + 2, (v % 10) as u8),
                            ..s
                        }.next(),
                    )
                }
            },
            Instruction::StoreRegisters(x) => if s.i + x >= MEMORY_SIZE {
                Err(Fatal::AccessOutOfRange)
            } else {
                Ok(
                    State {
                        memory: Seq::new(
                            MEMORY_SIZE as nat,
                            |a: int|
                                if s.i <= a <= s.i + x {
                                    s.registers[a - s.i]
                                } else {
                                    s.memory[a]
                                },
                        ),
                        ..s
                    }.next(),
                )
            },
            Instruction::ReadRegisters(x) => if s.i + x >= MEMORY_SIZE {
                Err(Fatal::AccessOutOfRange)
            } else {
                Ok(
                    State {
                        registers: Seq::new(
                            16,
                            |k: int|
                                if k <= x {
                                    s.memory[s.i + k]
                                } else {
                                    s.registers[k]
                                },
                        ),
                        ..s
                    }.next(),
                )
            },
            Instruction::ERROR(raw) => Err(Fatal::Unrecognized(raw)),
        }
    }

    /// `inst` carried out as the instruction at the program counter: what
    /// `apply` gives, provided that the program counter points at two bytes
    /// of memory.
    pub open spec fn execute(self, inst: Instruction, pressed: bool, byte: u8) -> Result<
        State,
        Fatal,
    > {
        if self.fetch() is Some {
            self.apply(inst, pressed, byte)
        } else {
            Err(Fatal::FetchOutOfRange)
        }
    }

    /// One whole cycle: fetch the opcode at the program counter, decode it,
    /// carry it out.
    pub open spec fn cycle(self, pressed: bool, byte: u8) -> Result<State, Fatal> {
        match self.fetch() {
            Some(raw) => self.apply(decode(raw), pressed, byte),
            None => Err(Fatal::FetchOutOfRange),
        }
    }

    /// What the pixel host is told while `inst` is carried out as the
    /// instruction at the program counter: its notifications, if it can be
    /// carried out, and else nothing.
    pub open spec fn execute_calls(self, inst: Instruction, pressed: bool, byte: u8) -> Seq<
        Notice,
    > {
        if self.execute(inst, pressed, byte) is Ok {
            self.notifications(inst)
        } else {
            Seq::empty()
        }
    }

    /// What the pixel host is told in the cycle that starts here.
    pub open spec fn cycle_calls(self, pressed: bool, byte: u8) -> Seq<Notice> {
        match self.fetch() {
            Some(raw) => self.execute_calls(decode(raw), pressed, byte),
            None => Seq::empty(),
        }
    }

    /// What the keypad is asked in the cycle that starts here, with its
    /// answer `pressed`.
    pub open spec fn cycle_keys(self, pressed: bool) -> Seq<KeyAnswer> {
        match self.fetch() {
            Some(raw) => self.keys_asked(decode(raw), pressed),
            None => Seq::empty(),
        }
    }

    /// The random bytes that the host gives in the cycle that starts here.
    pub open spec fn cycle_bytes(self, byte: u8) -> Seq<u8> {
        match self.fetch() {
            Some(raw) => self.bytes_given(decode(raw), byte),
            None => Seq::empty(),
        }
    }

    /// Whether the cycle that starts here writes pixels: it clears the screen
    /// or draws.
    pub open spec fn cycle_shows(self) -> bool {
        match self.fetch() {
            Some(raw) => decode(raw) is ClearScreen || decode(raw) is Draw,
            None => false,
        }
    }

    /// What the host is asked in the cycle that starts here.
    pub open spec fn cycle_query(self) -> Query {
        match self.fetch() {
            Some(raw) => self.query(decode(raw)),
            None => Query::Nothing,
        }
    }
}

/// A fallible operation was carried out: where `next` is a state, the
/// operation succeeded and `after` is that state; where it is an error, the
/// operation returned that error and left the machine as it was.
pub open spec fn carried_out(
    before: State,
    next: Result<State, Fatal>,
    res: Result<(), Fatal>,
    after: State,
) -> bool {
    match next {
        Ok(s) => res is Ok && after == s,
        Err(e) => res == Err::<(), Fatal>(e) && after == before,
    }
}

} // verus!
