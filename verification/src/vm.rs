//! The engine: the machine's storage, the three things it asks of its host,
//! and the operations that change it.

use crate::insts::Instruction;
use crate::state::{
    carried_out, loaded, screen_of, Fatal, KeyAnswer, Notice, Query, State, FONT, HEIGHT,
    KEYBOARDMAP,
    MEMORY_SIZE, PROGRAM_START, WIDTH,
};
use vstd::prelude::*;

verus! {

/// Where the host learns of every pixel that is written.
///
/// The host has a history, `told`, and `set_pixel` adds to it. Through it the
/// machine's contracts say what the host was told. A host that is verified
/// keeps the history in ghost state and says so in its own `told`; of a host
/// written outside of verified code nothing is checked, and for it the
/// machine's statements hold of the calls that it receives.
pub trait PixelHandler {
    /// Every notification that this host has received, oldest first. A
    /// verified host states its own; the body here is for the hosts that
    /// cannot state one, and tells nothing about them.
    closed spec fn told(&self) -> Seq<Notice> {
        arbitrary()
    }

    /// The pixel at column `x`, row `y` is now on or off.
    fn set_pixel(&mut self, x: usize, y: usize, on: bool)
        requires
            x < WIDTH,
            y < HEIGHT,
        ensures
            final(self).told() == old(self).told().push((Notice { x: x as int, y: y as int, on })),
    ;
}

/// Where the machine learns which keys are down.
///
/// The host has a history, `asked`, and `is_pressed` adds the question with
/// the answer that it gives. See `PixelHandler` on how a host keeps it.
pub trait KeyboardHandler {
    /// Every question that this host was asked, with its answer, oldest
    /// first. A verified host states its own; the body here is for the hosts
    /// that cannot state one, and tells nothing about them.
    closed spec fn asked(&self) -> Seq<KeyAnswer> {
        arbitrary()
    }

    /// Whether the key with the host's number `key` is down. The host knows
    /// the keys 0 to 15; what it says of any other number is its own affair.
    fn is_pressed(&mut self, key: u8) -> (pressed: bool)
        ensures
            final(self).asked() == old(self).asked().push((KeyAnswer { key, pressed })),
    ;
}

/// Where the machine gets its random bytes.
///
/// The host has a history, `given`, and `random` adds the byte that it
/// gives. See `PixelHandler` on how a host keeps it.
pub trait RandomHandler {
    /// Every byte that this host has given, oldest first. A verified host
    /// states its own; the body here is for the hosts that cannot state one,
    /// and tells nothing about them.
    closed spec fn given(&self) -> Seq<u8> {
        arbitrary()
    }

    /// Any byte.
    fn random(&mut self) -> (byte: u8)
        ensures
            final(self).given() == old(self).given().push(byte),
    ;
}

/// Whether the instruction decides where the program goes on: jumps, calls,
/// returns, skips, the wait for a key, and the opcode that is none.
spec fn steers(inst: Instruction) -> bool {
    match inst {
        Instruction::Jump(_) | Instruction::Call(_) | Instruction::Ret
        | Instruction::SkipNextInstruction(_, _) | Instruction::NSkipNextInstruction(_, _)
        | Instruction::R2SkipNextInstruction(_, _) | Instruction::NR2SkipNextInstruction(_, _)
        | Instruction::SkipIfPressed(_) | Instruction::SkipIfNotPressed(_)
        | Instruction::WaitKey(_) | Instruction::Jump2(_) | Instruction::ERROR(_) => true,
        _ => false,
    }
}

/// Whether the instruction computes a register and touches nothing else.
spec fn computes(inst: Instruction) -> bool {
    match inst {
        Instruction::SetRegister(_, _) | Instruction::AddRegister(_, _)
        | Instruction::STORE(_, _) | Instruction::OR(_, _) | Instruction::AND(_, _)
        | Instruction::XOR(_, _) | Instruction::ADD(_, _) | Instruction::SUB(_, _)
        | Instruction::SHR(_) | Instruction::SUBN(_, _) | Instruction::SHL(_)
        | Instruction::ReadDelay(_) | Instruction::Random(_, _) => true,
        _ => false,
    }
}

/// A machine together with its host.
pub struct VM<T: PixelHandler, T2: KeyboardHandler, T3: RandomHandler> {
    /// The font, a reserved area, and from `PROGRAM_START` on the program.
    pub memory: [u8; 4096],
    /// `V0..=VF`.
    registers: [u8; 16],
    /// The program counters of the calls not yet returned from.
    stack: Vec<u16>,
    /// The index register `I`.
    i: u16,
    /// The address of the next opcode.
    programcounter: usize,
    delaytimer: u8,
    soundtimer: u8,
    /// The host's screen.
    pub pixelhandler: T,
    /// The host's keypad.
    pub keyboardhandler: T2,
    /// The host's source of random bytes.
    pub rng: T3,
    /// The pixels as the machine knows them, `framebuffer[x][y]`.
    framebuffer: [[bool; 32]; 64],
}

impl<T: PixelHandler, T2: KeyboardHandler, T3: RandomHandler> View for VM<T, T2, T3> {
    type V = State;

    closed spec fn view(&self) -> State {
        State {
            memory: self.memory@,
            registers: self.registers@,
            stack: self.stack@,
            i: self.i,
            pc: self.programcounter as int,
            delay: self.delaytimer,
            sound: self.soundtimer,
            screen: Seq::new(WIDTH as nat, |x: int| self.framebuffer@[x]@),
        }
    }
}

impl<T: PixelHandler, T2: KeyboardHandler, T3: RandomHandler> VM<T, T2, T3> {
    /// The three hosts that the machine holds: for the pixels, for the keys
    /// and for the random bytes.
    pub closed spec fn hosts(&self) -> (T, T2, T3) {
        (self.pixelhandler, self.keyboardhandler, self.rng)
    }

    /// The state of a machine always has the machine's sizes.
    pub proof fn lemma_view_wf(&self)
        ensures
            self@.wf(),
    {
    }

    /// A machine at rest: the font in memory, the program counter at the
    /// start of the program area, an empty stack, a dark screen. It holds the
    /// three hosts as they were handed in: none of them was called.
    pub fn new(pixelhandler: T, keyboardhandler: T2, randomhandler: T3) -> (vm: Self)
        ensures
            vm@ == State::initial(),
            vm.hosts() == (pixelhandler, keyboardhandler, randomhandler),
    {
        let mut memory: [u8; 4096] = [0; 4096];
        let mut a: usize = 0;
        while a < 80
            invariant
                a <= 80,
                forall|k: int| 0 <= k < a ==> memory@[k] == FONT@[k],
                forall|k: int| a <= k < 4096 ==> memory@[k] == 0,
            decreases 80 - a,
        {
            memory[a] = FONT[a];
            a += 1;
        }
        let vm = VM {
            memory,
            registers: [0; 16],
            stack: Vec::new(),
            i: 0,
            programcounter: PROGRAM_START,
            delaytimer: 0,
            soundtimer: 0,
            pixelhandler,
            keyboardhandler,
            rng: randomhandler,
            framebuffer: [[false; 32]; 64],
        };
        assert(vm@.memory =~= State::initial().memory);
        assert(vm@.registers =~= State::initial().registers);
        assert(vm@.screen =~~= State::initial().screen);
        vm
    }

    /// Writes one pixel and tells the host: forced off, or else inverted.
    /// A position outside the screen is ignored.
    pub fn update_pixel(&mut self, x: usize, y: usize, forceblack: bool)
        ensures
            final(self)@ == old(self)@.plot(x as int, y as int, forceblack),
            final(self).hosts().0.told() == old(self).hosts().0.told() + old(self)@.plot_calls(
                x as int,
                y as int,
                forceblack,
            ),
            final(self).hosts().1 == old(self).hosts().1,
            final(self).hosts().2 == old(self).hosts().2,
            x >= WIDTH || y >= HEIGHT ==> final(self).hosts() == old(self).hosts(),
    {
        if x >= WIDTH || y >= HEIGHT {
            assert(self.hosts().0.told() + Seq::<Notice>::empty() =~= self.hosts().0.told());
            return ;
        }
        let on = !forceblack && !self.framebuffer[x][y];
        self.pixelhandler.set_pixel(x, y, on);
        self.framebuffer[x][y] = on;
        assert(self.hosts().0.told() =~= old(self).hosts().0.told() + old(self)@.plot_calls(
            x as int,
            y as int,
            forceblack,
        ));
        assert(self@.screen =~~= old(self)@.plot(x as int, y as int, forceblack).screen);
    }

    /// Asks the host whether the key with the host's number `key` is down,
    /// and hands its answer on. Every number goes to the host as it is.
    pub fn check_key(&mut self, key: u8) -> (pressed: bool)
        ensures
            final(self)@ == old(self)@,
            final(self).hosts().1.asked() == old(self).hosts().1.asked().push(
                (KeyAnswer { key, pressed }),
            ),
            final(self).hosts().0 == old(self).hosts().0,
            final(self).hosts().2 == old(self).hosts().2,
    {
        self.keyboardhandler.is_pressed(key)
    }

    /// Lowers both timers by one; a timer at zero stays there.
    pub fn decrease_timer(&mut self)
        ensures
            final(self)@ == old(self)@.ticked(),
            final(self).hosts() == old(self).hosts(),
    {
        if self.delaytimer > 0 {
            self.delaytimer -= 1;
        }
        if self.soundtimer > 0 {
            self.soundtimer -= 1;
        }
    }

    /// Loads a program image at `PROGRAM_START`. What does not fit into
    /// memory is left out.
    pub fn setmemory(&mut self, content: Vec<u8>)
        ensures
            final(self)@ == (State { memory: loaded(old(self)@.memory, content@), ..old(self)@ }),
            final(self).hosts() == old(self).hosts(),
    {
        let max_memory_size: usize = MEMORY_SIZE - PROGRAM_START;
        let memory_size: usize = if content.len() < max_memory_size {
            content.len()
        } else {
            max_memory_size
        };
        let mut k: usize = 0;
        while k < memory_size
            invariant
                k <= memory_size <= MEMORY_SIZE - PROGRAM_START,
                memory_size <= content.len(),
                forall|a: int|
                    PROGRAM_START <= a < PROGRAM_START + k ==> self.memory@[a] == content@[a
                        - PROGRAM_START],
                forall|a: int|
                    0 <= a < MEMORY_SIZE && !(PROGRAM_START <= a < PROGRAM_START + k)
                        ==> self.memory@[a] == old(self).memory@[a],
                self.registers == old(self).registers,
                self.stack == old(self).stack,
                self.i == old(self).i,
                self.programcounter == old(self).programcounter,
                self.delaytimer == old(self).delaytimer,
                self.soundtimer == old(self).soundtimer,
                self.framebuffer == old(self).framebuffer,
                self.hosts() == old(self).hosts(),
            decreases memory_size - k,
        {
            self.memory[PROGRAM_START + k] = content[k];
            k += 1;
        }
        assert(self@.memory =~= loaded(old(self)@.memory, content@));
    }

    /// Asks the host for a random byte, and hands it on.
    pub fn random(&mut self) -> (byte: u8)
        ensures
            final(self)@ == old(self)@,
            final(self).hosts().2.given() == old(self).hosts().2.given().push(byte),
            final(self).hosts().0 == old(self).hosts().0,
            final(self).hosts().1 == old(self).hosts().1,
    {
        self.rng.random()
    }

    /// The memory: the font, a reserved area, and from `PROGRAM_START` on the
    /// program.
    pub fn memory(&self) -> (memory: &[u8; 4096])
        ensures
            memory@ == self@.memory,
    {
        &self.memory
    }

    /// The registers `V0..=VF`.
    pub fn registers(&self) -> (regs: [u8; 16])
        ensures
            regs@ == self@.registers,
    {
        self.registers
    }

    /// The index register `I`.
    pub fn index(&self) -> (i: u16)
        ensures
            i == self@.i,
    {
        self.i
    }

    /// The address of the next opcode.
    pub fn program_counter(&self) -> (pc: usize)
        ensures
            pc == self@.pc,
    {
        self.programcounter
    }

    /// The delay timer.
    pub fn delay_timer(&self) -> (t: u8)
        ensures
            t == self@.delay,
    {
        self.delaytimer
    }

    /// The sound timer.
    pub fn sound_timer(&self) -> (t: u8)
        ensures
            t == self@.sound,
    {
        self.soundtimer
    }

    /// The program counters of the calls not yet returned from, oldest first.
    pub fn stack(&self) -> (stack: &Vec<u16>)
        ensures
            stack@ == self@.stack,
    {
        &self.stack
    }

    /// Whether the pixel at column `x`, row `y` is on. Outside the screen
    /// every pixel is off.
    pub fn pixel(&self, x: usize, y: usize) -> (on: bool)
        ensures
            on == self@.lit(x as int, y as int),
    {
        x < WIDTH && y < HEIGHT && self.framebuffer[x][y]
    }

    /// Reads the opcode at the program counter, high byte first.
    pub fn fetch(&self) -> (res: Result<u16, Fatal>)
        ensures
            res == match self@.fetch() {
                Some(raw) => Ok::<u16, Fatal>(raw),
                None => Err(Fatal::FetchOutOfRange),
            },
    {
        if self.programcounter >= MEMORY_SIZE - 1 {
            return Err(Fatal::FetchOutOfRange);
        }
        let high: u8 = self.memory[self.programcounter];
        let low: u8 = self.memory[self.programcounter + 1];
        assert(((high as u16) << 8) | (low as u16) == high * 0x100 + low) by (bit_vector);
        Ok(((high as u16) << 8) | low as u16)
    }

    /// Tells what the host has to be asked before `inst` can be carried out:
    /// the state of one key, a random byte, or nothing.
    pub fn query(&self, inst: Instruction) -> (q: Query)
        requires
            inst.well_formed(),
        ensures
            q == self@.query(inst),
    {
        match inst {
            Instruction::SkipIfPressed(x) | Instruction::SkipIfNotPressed(x)
            | Instruction::WaitKey(x) => {
                let val: u8 = self.registers[x as usize];
                if val < 16 {
                    Query::Key(KEYBOARDMAP[val as usize])
                } else {
                    Query::Nothing
                }
            },
            Instruction::Random(_, _) => Query::Random,
            _ => Query::Nothing,
        }
    }

    /// The machine is `goal` but for the program counter, which is two short
    /// of `goal`'s: the step that closes every cycle has yet to be taken.
    spec fn short_of(&self, goal: State) -> bool {
        &&& self@.at(goal.pc) == goal
        &&& vstd::wrapping::usize_specs::wrapping_add(self.programcounter, 2) == goal.pc
    }

    /// What each part of `execute` owes: on success the machine is short of
    /// the state that `apply` gives by the closing step alone, and on an
    /// error it is as it was.
    spec fn performed(
        &self,
        before: State,
        next: Result<State, Fatal>,
        res: Result<(), Fatal>,
    ) -> bool {
        match next {
            Ok(goal) => res is Ok && self.short_of(goal),
            Err(e) => res == Err::<(), Fatal>(e) && self@ == before,
        }
    }

    /// What the pixel host was told has grown by the notifications of `inst`,
    /// if it was carried out, and else not at all; the host was not called
    /// but to clear or to draw. The other two hosts were not called.
    spec fn notified(&self, before: &Self, inst: Instruction, res: Result<(), Fatal>) -> bool {
        &&& self.hosts().0.told() == before.hosts().0.told() + (if res is Ok {
            before@.notifications(inst)
        } else {
            Seq::empty()
        })
        &&& res is Err || !(inst is ClearScreen || inst is Draw) ==> self.hosts().0
            == before.hosts().0
        &&& self.hosts().1 == before.hosts().1
        &&& self.hosts().2 == before.hosts().2
    }

    /// The instructions that decide where the program goes on.
    fn perform_flow(&mut self, inst: Instruction, pressed: bool) -> (res: Result<(), Fatal>)
        requires
            inst.well_formed(),
            steers(inst),
            old(self)@.fetch() is Some,
        ensures
            forall|byte: u8|
                final(self).performed(
                    old(self)@,
                    #[trigger] old(self)@.apply(inst, pressed, byte),
                    res,
                ),
            final(self).notified(old(self), inst, res),
    {
        assert(self.hosts().0.told() + Seq::<Notice>::empty() =~= self.hosts().0.told());
        match inst {
            Instruction::Jump(val) => {
                self.programcounter = (val as usize).wrapping_sub(2);
            },
            Instruction::Call(addr) => {
                self.stack.push(self.programcounter as u16);
                self.programcounter = (addr as usize).wrapping_sub(2);
            },
            Instruction::Ret => {
                match self.stack.pop() {
                    Some(value) => {
                        self.programcounter = value as usize;
                    },
                    None => {
                        assert(self.stack@ =~= old(self).stack@);
                        return Err(Fatal::EmptyStack);
                    },
                }
            },
            Instruction::SkipNextInstruction(reg, val) => {
                if self.registers[reg as usize] as u16 == val {
                    self.programcounter += 2;
                }
            },
            Instruction::NSkipNextInstruction(reg, val) => {
                if self.registers[reg as usize] as u16 != val {
                    self.programcounter += 2;
                }
            },
            Instruction::R2SkipNextInstruction(reg1, reg2) => {
                if self.registers[reg1 as usize] == self.registers[reg2 as usize] {
                    self.programcounter += 2;
                }
            },
            Instruction::NR2SkipNextInstruction(reg1, reg2) => {
                if self.registers[reg1 as usize] != self.registers[reg2 as usize] {
                    self.programcounter += 2;
                }
            },
            Instruction::SkipIfPressed(x) => {
                if pressed && self.registers[x as usize] < 16 {
                    self.programcounter += 2;
                }
            },
            Instruction::SkipIfNotPressed(x) => {
                if !(pressed && self.registers[x as usize] < 16) {
                    self.programcounter += 2;
                }
            },
            Instruction::WaitKey(x) => {
                if !(pressed && self.registers[x as usize] < 16) {
                    self.programcounter = self.programcounter.wrapping_sub(2);
                }
            },
            Instruction::Jump2(val) => {
                let reg: u8 = self.registers[0];
                self.programcounter = (val as usize + reg as usize).wrapping_sub(2);
            },
            Instruction::ERROR(nb) => {
                return Err(Fatal::Unrecognized(nb));
            },
            _ => {},
        }
        Ok(())
    }

    /// The instructions that compute a register.
    fn perform_compute(&mut self, inst: Instruction, byte: u8) -> (res: Result<(), Fatal>)
        requires
            inst.well_formed(),
            computes(inst),
            old(self)@.fetch() is Some,
        ensures
            forall|pressed: bool|
                final(self).performed(
                    old(self)@,
                    #[trigger] old(self)@.apply(inst, pressed, byte),
                    res,
                ),
            final(self).notified(old(self), inst, res),
    {
        assert(self.hosts().0.told() + Seq::<Notice>::empty() =~= self.hosts().0.told());
        match inst {
            Instruction::SetRegister(reg, val) => {
                self.registers[reg as usize] = val;
            },
            Instruction::AddRegister(reg, val) => {
                self.registers[reg as usize] = self.registers[reg as usize].wrapping_add(val);
            },
            Instruction::STORE(a, b) => {
                self.registers[a as usize] = self.registers[b as usize];
            },
            Instruction::OR(a, b) => {
                self.registers[a as usize] = self.registers[a as usize] | self.registers[b as usize];
            },
            Instruction::AND(a, b) => {
                self.registers[a as usize] = self.registers[a as usize] & self.registers[b as usize];
            },
            Instruction::XOR(a, b) => {
                self.registers[a as usize] = self.registers[a as usize] ^ self.registers[b as usize];
            },
            Instruction::ADD(a, b) => {
                let tot: usize = self.registers[a as usize] as usize + self.registers[b as usize] as usize;
                self.registers[a as usize] = (tot % 256) as u8;
                self.registers[15] = (tot % 256) as u8;
            },
            Instruction::SUB(a, b) => {
                let reg1: u8 = self.registers[a as usize];
                let reg2: u8 = self.registers[b as usize];
                self.registers[15] = if reg1 > reg2 {
                    1
                } else {
                    0
                };
                self.registers[a as usize] = reg1.wrapping_sub(reg2);
            },
            Instruction::SHR(a) => {
                let reg1: u8 = self.registers[a as usize];
                self.registers[15] = reg1 % 2;
                self.registers[a as usize] = reg1 / 2;
            },
            Instruction::SUBN(a, b) => {
                let reg1: u8 = self.registers[a as usize];
                let reg2: u8 = self.registers[b as usize];
                self.registers[15] = if reg2 > reg1 {
                    1
                } else {
                    0
                };
                self.registers[a as usize] = reg2.wrapping_sub(reg1);
            },
            Instruction::SHL(a) => {
                let reg1: u8 = self.registers[a as usize];
                assert(reg1 & 0x80 == (if reg1 >= 0x80 {
                    0x80u8
                } else {
                    0u8
                })) by (bit_vector);
                self.registers[15] = reg1 & 0x80;
                self.registers[a as usize] = reg1.wrapping_mul(2);
            },
            Instruction::ReadDelay(a) => {
                self.registers[a as usize] = self.delaytimer;
            },
            Instruction::Random(x, kk) => {
                self.registers[x as usize] = byte & (kk as u8);
            },
            _ => {},
        }
        Ok(())
    }

    /// The instructions that write the index register, the timers, memory
    /// or the screen.
    fn perform_store(&mut self, inst: Instruction) -> (res: Result<(), Fatal>)
        requires
            inst.well_formed(),
            !steers(inst),
            !computes(inst),
            old(self)@.fetch() is Some,
        ensures
            forall|pressed: bool, byte: u8|
                final(self).performed(
                    old(self)@,
                    #[trigger] old(self)@.apply(inst, pressed, byte),
                    res,
                ),
            final(self).notified(old(self), inst, res),
    {
        assert(self.hosts().0.told() + Seq::<Notice>::empty() =~= self.hosts().0.told());
        match inst {
            Instruction::ClearScreen => {
                self.clear_screen();
            },
            Instruction::SetI(val) => {
                self.i = val;
            },
            Instruction::Draw(reg1, reg2, size) => {
                let x: u8 = self.registers[reg1 as usize] % 64;
                let y: u8 = self.registers[reg2 as usize] % 32;
                let room: u16 = 33 - y as u16;
                let rows: u16 = if size <= room {
                    size
                } else {
                    room
                };
                if rows > 0 && self.i as usize + rows as usize > MEMORY_SIZE {
                    return Err(Fatal::AccessOutOfRange);
                }
                self.draw(x, y, size);
            },
            Instruction::AddI(reg) => {
                self.i = self.i.wrapping_add(self.registers[reg as usize] as u16);
            },
            Instruction::SetDelay(a) => {
                self.delaytimer = self.registers[a as usize];
            },
            Instruction::SetSound(x) => {
                self.soundtimer = self.registers[x as usize];
            },
            Instruction::SpriteDigit(x) => {
                let val: u8 = self.registers[x as usize];
                if val > 9 {
                    return Err(Fatal::SpriteDigit(val));
                }
                self.i = 5 * val as u16;
            },
            Instruction::StoreRegisters(nb) => {
                if self.i as usize + nb as usize >= MEMORY_SIZE {
                    return Err(Fatal::AccessOutOfRange);
                }
                self.store_registers(nb);
            },
            Instruction::ReadRegisters(nb) => {
                if self.i as usize + nb as usize >= MEMORY_SIZE {
                    return Err(Fatal::AccessOutOfRange);
                }
                self.read_registers(nb);
            },
            Instruction::StoreBCD(reg) => {
                let val: u8 = self.registers[reg as usize];
                if self.i as usize + 2 >= MEMORY_SIZE {
                    return Err(Fatal::AccessOutOfRange);
                }
                self.memory[self.i as usize] = val / 100;
                self.memory[self.i as usize + 1] = (val / 10) % 10;
                self.memory[self.i as usize + 2] = val % 10;
            },
            _ => {},
        }
        Ok(())
    }

    /// Carries out `inst` as the instruction found at the program counter,
    /// given the host's answers: `pressed` for the key and `byte` for the
    /// random byte that `query` says it depends on. Where the program
    /// counter does not point into memory, no instruction can have been found
    /// there, and none is carried out. On an error nothing has changed.
    pub fn execute(&mut self, inst: Instruction, pressed: bool, byte: u8) -> (res: Result<
        (),
        Fatal,
    >)
        requires
            inst.well_formed(),
        ensures
            carried_out(old(self)@, old(self)@.execute(inst, pressed, byte), res, final(self)@),
            final(self).hosts().0.told() == old(self).hosts().0.told() + old(self)@.execute_calls(
                inst,
                pressed,
                byte,
            ),
            res is Err || !(inst is ClearScreen || inst is Draw) ==> final(self).hosts().0 == old(
                self,
            ).hosts().0,
            final(self).hosts().1 == old(self).hosts().1,
            final(self).hosts().2 == old(self).hosts().2,
    {
        if self.programcounter >= MEMORY_SIZE - 1 {
            assert(self.hosts().0.told() + Seq::<Notice>::empty() =~= self.hosts().0.told());
            return Err(Fatal::FetchOutOfRange);
        }
        let done = match inst {
            Instruction::Jump(_) | Instruction::Call(_) | Instruction::Ret
            | Instruction::SkipNextInstruction(_, _) | Instruction::NSkipNextInstruction(_, _)
            | Instruction::R2SkipNextInstruction(_, _)
            | Instruction::NR2SkipNextInstruction(_, _) | Instruction::SkipIfPressed(_)
            | Instruction::SkipIfNotPressed(_) | Instruction::WaitKey(_) | Instruction::Jump2(_)
            | Instruction::ERROR(_) => self.perform_flow(inst, pressed),
            Instruction::SetRegister(_, _) | Instruction::AddRegister(_, _)
            | Instruction::STORE(_, _) | Instruction::OR(_, _) | Instruction::AND(_, _)
            | Instruction::XOR(_, _) | Instruction::ADD(_, _) | Instruction::SUB(_, _)
            | Instruction::SHR(_) | Instruction::SUBN(_, _) | Instruction::SHL(_)
            | Instruction::ReadDelay(_) | Instruction::Random(_, _) => self.perform_compute(
                inst,
                byte,
            ),
            _ => self.perform_store(inst),
        };
        assert(self.performed(old(self)@, old(self)@.apply(inst, pressed, byte), done));
        match done {
            Ok(()) => {
                self.programcounter = self.programcounter.wrapping_add(2);
                Ok(())
            },
            Err(e) => Err(e),
        }
    }

    /// The machine and the histories of its hosts are what one cycle makes
    /// of `before`, where the keypad answers `pressed` and the random source
    /// gives `byte`, each if it is asked: the keypad's history has that
    /// answer and the random source's has that byte, the machine is what the
    /// cycle gives for them, and the pixel host was told what the cycle
    /// writes. A host that the cycle has no call for is as it was.
    pub open spec fn cycled(
        &self,
        before: &Self,
        pressed: bool,
        byte: u8,
        res: Result<(), Fatal>,
    ) -> bool {
        &&& carried_out(before@, before@.cycle(pressed, byte), res, self@)
        &&& self.hosts().0.told() == before.hosts().0.told() + before@.cycle_calls(pressed, byte)
        &&& self.hosts().1.asked() == before.hosts().1.asked() + before@.cycle_keys(pressed)
        &&& self.hosts().2.given() == before.hosts().2.given() + before@.cycle_bytes(byte)
        &&& res is Err || !before@.cycle_shows() ==> self.hosts().0 == before.hosts().0
        &&& !(before@.cycle_query() is Key) ==> self.hosts().1 == before.hosts().1
        &&& !(before@.cycle_query() is Random) ==> self.hosts().2 == before.hosts().2
    }

    /// Runs one cycle: fetches the opcode at the program counter, decodes it,
    /// asks the host for the key state or the random byte that the
    /// instruction depends on, and carries the instruction out. On an error
    /// nothing has changed. A host that the cycle has no call for is left as
    /// it was.
    pub fn process(&mut self) -> (res: Result<(), Fatal>)
        ensures
            exists|pressed: bool, byte: u8| final(self).cycled(old(self), pressed, byte, res),
            old(self)@.cycle_query() is Nothing ==> final(self).cycled(old(self), false, 0, res),
    {
        let raw = match self.fetch() {
            Ok(raw) => raw,
            Err(e) => {
                assert(self.hosts().0.told() + Seq::<Notice>::empty() =~= self.hosts().0.told());
                assert(self.hosts().1.asked() + Seq::<KeyAnswer>::empty()
                    =~= self.hosts().1.asked());
                assert(self.hosts().2.given() + Seq::<u8>::empty() =~= self.hosts().2.given());
                assert(self.cycled(old(self), false, 0, Err(e)));
                return Err(e);
            },
        };
        let inst = Instruction::new(raw);
        let mut pressed = false;
        let mut byte: u8 = 0;
        match self.query(inst) {
            Query::Key(key) => {
                pressed = self.check_key(key);
            },
            Query::Random => {
                byte = self.random();
            },
            Query::Nothing => {},
        }
        let res = self.execute(inst, pressed, byte);
        assert(self.hosts().1.asked() =~= old(self).hosts().1.asked() + old(self)@.cycle_keys(
            pressed,
        ));
        assert(self.hosts().2.given() =~= old(self).hosts().2.given() + old(self)@.cycle_bytes(
            byte,
        ));
        assert(self.cycled(old(self), pressed, byte, res));
        res
    }

    /// Switches every pixel off, telling the host of each.
    fn clear_screen(&mut self)
        ensures
            final(self)@ == (State {
                screen: screen_of(|x: int, y: int| false),
                ..old(self)@
            }),
            final(self).hosts().0.told() == old(self).hosts().0.told() + State::clear_calls(WIDTH * HEIGHT),
            final(self).hosts().1 == old(self).hosts().1,
            final(self).hosts().2 == old(self).hosts().2,
    {
        assert(self.hosts().0.told() =~= old(self).hosts().0.told() + State::clear_calls(0));
        let mut x: usize = 0;
        while x < WIDTH
            invariant
                x <= WIDTH,
                self@.with_screen(old(self)@.screen) == old(self)@,
                forall|c: int, r: int| 0 <= c < x && 0 <= r < HEIGHT ==> !self@.screen[c][r],
                self.hosts().0.told() == old(self).hosts().0.told() + State::clear_calls(HEIGHT * x),
                self.hosts().1 == old(self).hosts().1,
                self.hosts().2 == old(self).hosts().2,
            decreases WIDTH - x,
        {
            let mut y: usize = 0;
            while y < HEIGHT
                invariant
                    x < WIDTH,
                    y <= HEIGHT,
                    self@.with_screen(old(self)@.screen) == old(self)@,
                    forall|c: int, r: int| 0 <= c < x && 0 <= r < HEIGHT ==> !self@.screen[c][r],
                    forall|r: int| 0 <= r < y ==> !self@.screen[x as int][r],
                    self.hosts().0.told() == old(self).hosts().0.told() + State::clear_calls(HEIGHT * x + y),
                    self.hosts().1 == old(self).hosts().1,
                    self.hosts().2 == old(self).hosts().2,
                decreases HEIGHT - y,
            {
                let ghost sofar = self.hosts().0.told();
                self.update_pixel(x, y, true);
                assert(self.hosts().0.told() =~= old(self).hosts().0.told() + State::clear_calls(
                    HEIGHT * x + y + 1,
                )) by {
                    let k = HEIGHT * x + y;
                    assert(k / (HEIGHT as int) == x && k % (HEIGHT as int) == y);
                    assert(self.hosts().0.told() =~= sofar.push(
                        Notice { x: x as int, y: y as int, on: false },
                    ));
                }
                y += 1;
            }
            x += 1;
        }
        assert(self@.screen =~~= screen_of(|x: int, y: int| false));
    }

    /// Inverts the pixels under the set bits of the sprite at `I`, row by
    /// row from the top and in each row from the left, telling the host of
    /// each. Rows stop at the line just under the screen; what would lie to
    /// the right of or under the screen is not drawn.
    fn draw(&mut self, x0: u8, y0: u8, n: u16)
        requires
            x0 < WIDTH,
            y0 < HEIGHT,
            n < 16,
            State::sprite_rows(y0 as int, n as int) > 0 ==> old(self)@.i + State::sprite_rows(
                y0 as int,
                n as int,
            ) <= MEMORY_SIZE,
        ensures
            final(self)@ == old(self)@.drawn(x0 as int, y0 as int, n as int),
            final(self).hosts().0.told() == old(self).hosts().0.told() + old(self)@.sprite_calls(
                x0 as int,
                y0 as int,
                State::sprite_rows(y0 as int, n as int),
            ),
            final(self).hosts().1 == old(self).hosts().1,
            final(self).hosts().2 == old(self).hosts().2,
    {
        assert(self.hosts().0.told() =~= old(self).hosts().0.told() + old(self)@.sprite_calls(
            x0 as int,
            y0 as int,
            0,
        ));
        let mut row: u16 = 0;
        while row < n && y0 as u16 + row <= HEIGHT as u16
            invariant
                x0 < WIDTH,
                y0 < HEIGHT,
                n < 16,
                row <= n,
                row <= State::sprite_rows(y0 as int, n as int),
                State::sprite_rows(y0 as int, n as int) > 0 ==> old(self)@.i + State::sprite_rows(
                    y0 as int,
                    n as int,
                ) <= MEMORY_SIZE,
                self@.with_screen(old(self)@.screen) == old(self)@,
                forall|x: int, y: int|
                    0 <= x < WIDTH && 0 <= y < HEIGHT ==> #[trigger] self@.screen[x][y] == (old(
                        self,
                    )@.screen[x][y] != (old(self)@.sprite_covers(
                        x0 as int,
                        y0 as int,
                        n as int,
                        x,
                        y,
                    ) && y - y0 < row)),
                self.hosts().0.told() == old(self).hosts().0.told() + old(self)@.sprite_calls(
                    x0 as int,
                    y0 as int,
                    row as int,
                ),
                self.hosts().1 == old(self).hosts().1,
                self.hosts().2 == old(self).hosts().2,
            decreases n - row,
        {
            let byte: u8 = self.memory[self.i as usize + row as usize];
            let ghost above = self.hosts().0.told();
            assert(self.hosts().0.told() =~= above + old(self)@.row_calls(
                x0 as int,
                y0 + row,
                byte,
                0,
            ));
            let mut col: u8 = 0;
            while col < 8
                invariant
                    x0 < WIDTH,
                    y0 < HEIGHT,
                    row < n < 16,
                    y0 + row <= HEIGHT,
                    col <= 8,
                    old(self)@.i + row < MEMORY_SIZE,
                    byte == old(self)@.memory[old(self)@.i + row],
                    self@.with_screen(old(self)@.screen) == old(self)@,
                    forall|x: int, y: int|
                        0 <= x < WIDTH && 0 <= y < HEIGHT ==> #[trigger] self@.screen[x][y] == (old(
                            self,
                        )@.screen[x][y] != (old(self)@.sprite_covers(
                            x0 as int,
                            y0 as int,
                            n as int,
                            x,
                            y,
                        ) && (y - y0 < row || (y - y0 == row && x - x0 < col)))),
                    above == old(self).hosts().0.told() + old(self)@.sprite_calls(
                        x0 as int,
                        y0 as int,
                        row as int,
                    ),
                    self.hosts().0.told() == above + old(self)@.row_calls(
                        x0 as int,
                        y0 + row,
                        byte,
                        col as int,
                    ),
                    self.hosts().1 == old(self).hosts().1,
                    self.hosts().2 == old(self).hosts().2,
                decreases 8 - col,
            {
                let off: u8 = 7 - col;
                let ghost sofar = self.hosts().0.told();
                assert((((byte & (1u8 << off)) >> off) == 1) == ((byte >> off) & 1 == 1))
                    by (bit_vector)
                    requires
                        off < 8,
                ;
                if ((byte & (1u8 << off)) >> off) == 1 {
                    self.update_pixel(
                        x0 as usize + col as usize,
                        y0 as usize + row as usize,
                        false,
                    );
                }
                assert(self.hosts().0.told() =~= above + old(self)@.row_calls(
                    x0 as int,
                    y0 + row,
                    byte,
                    col + 1,
                ));
                col += 1;
            }
            assert(self.hosts().0.told() =~= old(self).hosts().0.told() + old(self)@.sprite_calls(
                x0 as int,
                y0 as int,
                row + 1,
            ));
            row += 1;
        }
        assert(row == State::sprite_rows(y0 as int, n as int));
        assert(self@.screen =~~= old(self)@.drawn(x0 as int, y0 as int, n as int).screen);
    }

    /// Copies `V0..=Vx` into memory from `I` on.
    fn store_registers(&mut self, x: u16)
        requires
            x < 16,
            old(self)@.i + x < MEMORY_SIZE,
        ensures
            final(self)@ == (State {
                memory: Seq::new(
                    MEMORY_SIZE as nat,
                    |a: int|
                        if old(self)@.i <= a <= old(self)@.i + x {
                            old(self)@.registers[a - old(self)@.i]
                        } else {
                            old(self)@.memory[a]
                        },
                ),
                ..old(self)@
            }),
            final(self).hosts() == old(self).hosts(),
    {
        let mut k: u16 = 0;
        while k <= x
            invariant
                x < 16,
                k <= x + 1,
                self@.i + x < MEMORY_SIZE,
                self.hosts() == old(self).hosts(),
                self@.with_memory(old(self)@.memory) == old(self)@,
                forall|a: int|
                    0 <= a < MEMORY_SIZE ==> #[trigger] self@.memory[a] == (if self@.i <= a < self@.i + k {
                        self@.registers[a - self@.i]
                    } else {
                        old(self)@.memory[a]
                    }),
            decreases x + 1 - k,
        {
            let ghost before = self@;
            self.memory[self.i as usize + k as usize] = self.registers[k as usize];
            assert(self@.memory == before.memory.update(self.i + k, self.registers[k as int]));
            k += 1;
        }
        assert(self@.memory =~= Seq::new(
            MEMORY_SIZE as nat,
            |a: int|
                if old(self)@.i <= a <= old(self)@.i + x {
                    old(self)@.registers[a - old(self)@.i]
                } else {
                    old(self)@.memory[a]
                },
        ));
    }

    /// Copies memory from `I` on into `V0..=Vx`.
    fn read_registers(&mut self, x: u16)
        requires
            x < 16,
            old(self)@.i + x < MEMORY_SIZE,
        ensures
            final(self)@ == (State {
                registers: Seq::new(
                    16,
                    |k: int|
                        if k <= x {
                            old(self)@.memory[old(self)@.i + k]
                        } else {
                            old(self)@.registers[k]
                        },
                ),
                ..old(self)@
            }),
            final(self).hosts() == old(self).hosts(),
    {
        let mut k: u16 = 0;
        while k <= x
            invariant
                x < 16,
                k <= x + 1,
                self@.i + x < MEMORY_SIZE,
                self.hosts() == old(self).hosts(),
                self@.with_registers(old(self)@.registers) == old(self)@,
                forall|j: int|
                    0 <= j < 16 ==> #[trigger] self@.registers[j] == (if j < k {
                        self@.memory[self@.i + j]
                    } else {
                        old(self)@.registers[j]
                    }),
            decreases x + 1 - k,
        {
            let ghost before = self@;
            self.registers[k as usize] = self.memory[self.i as usize + k as usize];
            assert(self@.registers == before.registers.update(k as int, self.memory[self.i + k]));
            k += 1;
        }
        assert(self@.registers =~= Seq::new(
            16,
            |k: int|
                if k <= x {
                    old(self)@.memory[old(self)@.i + k]
                } else {
                    old(self)@.registers[k]
                },
        ));
    }
}

} // verus!
