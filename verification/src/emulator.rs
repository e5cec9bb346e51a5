use std::collections::HashMap;
use vstd::prelude::*;
use vstd::slice::slice_to_vec;
use crate::constants::{KEYPAD_SIZE, RAM_SIZE, SCREEN_SIZE, STACK_SIZE, START_ADDR, V_SIZE};
use crate::error::EmuError;
use crate::fontset::{seed_font, GLYPH_SIZE};
use crate::instruction::Instruction;
use crate::keys::ChipKey;
use crate::machine::{
    blank_ram, blank_screen, flag, lemma_wrap16, lemma_wrap8, with_image, Machine,
};
use crate::random::random_byte;
use crate::sprite::{draw_sprite, draw_sprite_on};

verus! {

broadcast use vstd::std_specs::hash::group_hash_axioms;

/// The interpreter: the state of one machine, and the operations that the
/// host drives it with.
pub struct Emulator {
    counter: u16,
    ram: [u8; RAM_SIZE],
    rom: Vec<u8>,
    screen: [bool; SCREEN_SIZE],
    v_reg: [u8; V_SIZE],
    i_reg: u16,
    stack: [u16; STACK_SIZE],
    stack_ptr: u16,
    keys: [bool; KEYPAD_SIZE],
    waiting_for_key_reg: Option<u8>,
    delay_timer: u8,
    sound_timer: u8,
    is_paused: bool,
}

impl View for Emulator {
    type V = Machine;

    closed spec fn view(&self) -> Machine {
        Machine {
            counter: self.counter,
            ram: self.ram@,
            rom: self.rom@,
            screen: self.screen@,
            v: self.v_reg@,
            i: self.i_reg,
            stack: self.stack@.take(self.stack_ptr as int),
            keys: self.keys@,
            waiting: self.waiting_for_key_reg,
            delay: self.delay_timer,
            sound: self.sound_timer,
            paused: self.is_paused,
        }
    }
}

/// Whether a call that should take `before` to `outcome` did so: on success
/// the machine is the one that `outcome` holds; on failure the error is
/// reported and the machine is as it was.
pub open spec fn lands(
    before: Machine,
    outcome: Result<Machine, EmuError>,
    after: Machine,
    result: Result<(), EmuError>,
) -> bool {
    match outcome {
        Ok(m) => result is Ok && after == m,
        Err(e) => result == Err::<(), EmuError>(e) && after == before,
    }
}

impl Emulator {
    #[verifier::type_invariant]
    spec fn well_formed(self) -> bool {
        &&& self.stack_ptr <= 16
        &&& self.rom@.len() <= 4096 - 0x200
        &&& self.waiting_for_key_reg is Some ==> self.waiting_for_key_reg.unwrap() < 16
    }

    /// A machine with no program loaded.
    pub fn new() -> (emu: Emulator)
        ensures
            emu@ == Machine::fresh(),
            emu@.valid(),
    {
        let mut emu = Self {
            counter: START_ADDR,
            ram: [0; RAM_SIZE],
            rom: Vec::new(),
            screen: [false; SCREEN_SIZE],
            v_reg: [0; V_SIZE],
            i_reg: 0,
            stack: [0; STACK_SIZE],
            stack_ptr: 0,
            keys: [false; KEYPAD_SIZE],
            waiting_for_key_reg: None,
            delay_timer: 0,
            sound_timer: 0,
            is_paused: false,
        };
        seed_font(&mut emu.ram);
        proof {
            let m = Machine::fresh();
            assert(emu@.ram =~= m.ram);
            assert(emu@.rom =~= m.rom);
            assert(emu@.screen =~= m.screen);
            assert(emu@.v =~= m.v);
            assert(emu@.stack =~= m.stack);
            assert(emu@.keys =~= m.keys);
        }
        emu
    }

    /// The program counter.
    pub fn counter(&self) -> (counter: u16)
        ensures
            counter == self@.counter,
            self@.valid(),
    {
        proof {
            use_type_invariant(self);
        }
        self.counter
    }

    /// The index register.
    pub fn index(&self) -> (i: u16)
        ensures
            i == self@.i,
            self@.valid(),
    {
        proof {
            use_type_invariant(self);
        }
        self.i_reg
    }

    /// The registers V0 to VF.
    pub fn registers(&self) -> (v: &[u8; V_SIZE])
        ensures
            v@ == self@.v,
            self@.valid(),
    {
        proof {
            use_type_invariant(self);
        }
        &self.v_reg
    }

    /// The memory.
    pub fn memory(&self) -> (ram: &[u8; RAM_SIZE])
        ensures
            ram@ == self@.ram,
            self@.valid(),
    {
        proof {
            use_type_invariant(self);
        }
        &self.ram
    }

    /// The pixels of the screen, row by row.
    pub fn get_screen(&self) -> (screen: &[bool; SCREEN_SIZE])
        ensures
            screen@ == self@.screen,
            self@.valid(),
    {
        proof {
            use_type_invariant(self);
        }
        &self.screen
    }

    /// The delay timer.
    pub fn delay_timer(&self) -> (delay: u8)
        ensures
            delay == self@.delay,
            self@.valid(),
    {
        proof {
            use_type_invariant(self);
        }
        self.delay_timer
    }

    /// The sound timer.
    pub fn sound_timer(&self) -> (sound: u8)
        ensures
            sound == self@.sound,
            self@.valid(),
    {
        proof {
            use_type_invariant(self);
        }
        self.sound_timer
    }

    /// The register that waits for a key, while the machine is suspended.
    pub fn waiting_register(&self) -> (waiting: Option<u8>)
        ensures
            waiting == self@.waiting,
            waiting is Some ==> waiting.unwrap() < 16,
    {
        proof {
            use_type_invariant(self);
        }
        self.waiting_for_key_reg
    }

    /// The number of return addresses on the stack.
    pub fn stack_depth(&self) -> (depth: usize)
        ensures
            depth == self@.stack.len(),
            depth <= 16,
    {
        proof {
            use_type_invariant(self);
        }
        self.stack_ptr as usize
    }

    /// Pauses the machine, or lets a paused machine go on.
    pub fn pause_or_resume(&mut self)
        ensures
            final(self)@ == old(self)@.toggle_pause(),
            final(self)@.valid(),
    {
        proof {
            use_type_invariant(&*self);
        }
        self.is_paused = !self.is_paused;
    }

    /// Whether the host has paused the machine.
    pub fn is_paused(&self) -> (paused: bool)
        ensures
            paused == self@.paused,
            self@.valid(),
    {
        proof {
            use_type_invariant(self);
        }
        self.is_paused
    }

    /// Ticks both timers. The result says whether the sound timer went from
    /// one to zero, which is when a sound that plays has to stop.
    pub fn tick_timers(&mut self) -> (sound_stops: bool)
        ensures
            final(self)@ == old(self)@.tick_timers(),
            final(self)@.valid(),
            final(self)@.delay == if old(self)@.delay == 0 {
                0
            } else {
                old(self)@.delay - 1
            },
            final(self)@.sound == if old(self)@.sound == 0 {
                0
            } else {
                old(self)@.sound - 1
            },
            sound_stops == (old(self)@.sound == 1),
    {
        proof {
            use_type_invariant(&*self);
        }
        if self.delay_timer > 0 {
            self.delay_timer -= 1;
        }
        let mut sound_stops = false;
        if self.sound_timer > 0 {
            if self.sound_timer == 1 {
                sound_stops = true;
            }
            self.sound_timer -= 1;
        }
        sound_stops
    }

    /// Records that `key` went down.
    pub fn key_pressed(&mut self, key: ChipKey)
        ensures
            final(self)@ == old(self)@.press(key.hex()),
            final(self)@.valid(),
    {
        proof {
            use_type_invariant(&*self);
        }
        self.keys[key.to_hex() as usize] = true;
    }

    /// Records that `key` went up. If the machine waits for a key, the
    /// waiting register gets the key's number and the machine goes on.
    pub fn key_released(&mut self, key: ChipKey)
        ensures
            final(self)@ == old(self)@.release(key.hex()),
            final(self)@.valid(),
    {
        proof {
            use_type_invariant(&*self);
        }
        let idx: u8 = key.to_hex();
        self.keys[idx as usize] = false;
        if let Some(x) = self.waiting_for_key_reg {
            self.v_reg[x as usize] = idx;
            self.waiting_for_key_reg = None;
        }
    }

    /// Whether `key` is down.
    pub fn is_key_down(&self, key: ChipKey) -> (down: bool)
        ensures
            down == self@.keys[key.hex() as int],
            self@.valid(),
    {
        proof {
            use_type_invariant(self);
        }
        self.keys[key.to_hex() as usize]
    }

    /// The operation that the two bytes at `at` stand for. Nothing is
    /// changed.
    pub fn fetch(&self, at: usize) -> (fetched: Result<Instruction, EmuError>)
        ensures
            fetched == self@.fetch(at),
            self@.valid(),
    {
        proof {
            use_type_invariant(self);
        }
        if at >= RAM_SIZE - 1 {
            return Err(EmuError::MemoryOutOfRange { address: at });
        }
        let higher: u16 = self.ram[at] as u16;
        let lower: u16 = self.ram[at + 1] as u16;

        let op: u16 = (higher << 8) | lower;
        Ok(Instruction::from_opcode(op))
    }

    fn push(&mut self, v: u16) -> (pushed: Result<(), EmuError>)
        ensures
            old(self)@.stack.len() < 16 ==> pushed is Ok && final(self)@ == (Machine {
                stack: old(self)@.stack.push(v),
                ..old(self)@
            }),
            old(self)@.stack.len() >= 16 ==> pushed == Err::<(), EmuError>(EmuError::StackOverflow)
                && final(self)@ == old(self)@,
    {
        proof {
            use_type_invariant(&*self);
        }
        if self.stack_ptr as usize >= STACK_SIZE {
            return Err(EmuError::StackOverflow);
        }
        self.stack[self.stack_ptr as usize] = v;
        self.stack_ptr += 1;
        assert(self@.stack =~= old(self)@.stack.push(v));
        Ok(())
    }

    fn pop(&mut self) -> (popped: Result<u16, EmuError>)
        ensures
            old(self)@.stack.len() > 0 ==> popped == Ok::<u16, EmuError>(old(self)@.stack.last())
                && final(self)@ == (Machine { stack: old(self)@.stack.drop_last(), ..old(self)@ }),
            old(self)@.stack.len() == 0 ==> popped == Err::<u16, EmuError>(
                EmuError::StackUnderflow,
            ) && final(self)@ == old(self)@,
    {
        proof {
            use_type_invariant(&*self);
        }
        if self.stack_ptr == 0 {
            return Err(EmuError::StackUnderflow);
        }
        self.stack_ptr -= 1;
        assert(self@.stack =~= old(self)@.stack.drop_last());
        Ok(self.stack[self.stack_ptr as usize])
    }

    /// Moves the program counter past the next instruction if `condition`
    /// holds.
    fn skip_if(&mut self, condition: bool)
        ensures
            final(self)@ == old(self)@.skip_if(condition),
    {
        proof {
            use_type_invariant(&*self);
        }
        if condition {
            proof {
                lemma_wrap16(self.counter + 2);
            }
            self.counter = self.counter.wrapping_add(2);
        }
    }

    /// Puts `value` into register `x`, and then the flag into VF.
    fn set_v_and_flag(&mut self, x: usize, value: u8, f: bool)
        requires
            x < 16,
        ensures
            final(self)@ == old(self)@.set_v_and_flag(x as int, value, f),
    {
        proof {
            use_type_invariant(&*self);
        }
        self.v_reg[x] = value;
        self.v_reg[0xF] = if f {
            1
        } else {
            0
        };
    }

    /// Stores the registers V0 to V`x` in memory from the index register on.
    fn save_registers(&mut self, x: usize)
        requires
            x < 16,
            old(self)@.i + x < 4096,
        ensures
            final(self)@ == (Machine { ram: old(self)@.ram_with_registers(x as int), ..old(self)@ }),
    {
        proof {
            use_type_invariant(&*self);
        }
        let base: usize = self.i_reg as usize;
        let mut idx: usize = 0;
        while idx <= x
            invariant
                idx <= x + 1,
                x < 16,
                base == old(self)@.i,
                base + x < 4096,
                self@ == (Machine { ram: self@.ram, ..old(self)@ }),
                self@.ram.len() == 4096,
                forall|a: int|
                    0 <= a < 4096 ==> self@.ram[a] == if base <= a < base + idx {
                        old(self)@.v[a - base]
                    } else {
                        old(self)@.ram[a]
                    },
            decreases x + 1 - idx,
        {
            proof {
                use_type_invariant(&*self);
            }
            self.ram[base + idx] = self.v_reg[idx];
            idx += 1;
        }
        assert(self@.ram =~= old(self)@.ram_with_registers(x as int));
    }

    /// Loads the registers V0 to V`x` from memory at the index register on.
    fn load_registers(&mut self, x: usize)
        requires
            x < 16,
            old(self)@.i + x < 4096,
        ensures
            final(self)@ == (Machine { v: old(self)@.registers_from_ram(x as int), ..old(self)@ }),
    {
        proof {
            use_type_invariant(&*self);
        }
        let base: usize = self.i_reg as usize;
        let mut idx: usize = 0;
        while idx <= x
            invariant
                idx <= x + 1,
                x < 16,
                base == old(self)@.i,
                base + x < 4096,
                self@ == (Machine { v: self@.v, ..old(self)@ }),
                self@.v.len() == 16,
                forall|k: int|
                    0 <= k < 16 ==> self@.v[k] == if k < idx {
                        old(self)@.ram[base + k]
                    } else {
                        old(self)@.v[k]
                    },
            decreases x + 1 - idx,
        {
            proof {
                use_type_invariant(&*self);
            }
            self.v_reg[idx] = self.ram[base + idx];
            idx += 1;
        }
        assert(self@.v =~= old(self)@.registers_from_ram(x as int));
    }

    /// Sets the program counter.
    fn jump(&mut self, target: u16)
        ensures
            final(self)@ == (Machine { counter: target, ..old(self)@ }),
    {
        proof {
            use_type_invariant(&*self);
        }
        self.counter = target;
    }

    /// Sets the index register.
    fn set_index(&mut self, i: u16)
        ensures
            final(self)@ == (Machine { i, ..old(self)@ }),
    {
        proof {
            use_type_invariant(&*self);
        }
        self.i_reg = i;
    }

    /// Puts `value` into register `x`.
    fn set_v(&mut self, x: usize, value: u8)
        requires
            x < 16,
        ensures
            final(self)@ == old(self)@.set_v(x as int, value),
    {
        proof {
            use_type_invariant(&*self);
        }
        self.v_reg[x] = value;
    }

    /// Puts every pixel out.
    fn clear_screen(&mut self)
        ensures
            final(self)@ == (Machine { screen: blank_screen(), ..old(self)@ }),
    {
        proof {
            use_type_invariant(&*self);
        }
        self.screen = [false; SCREEN_SIZE];
        assert(self@.screen =~= blank_screen());
    }

    /// Stores the three decimal digits of `value` at the index register on.
    fn store_digits(&mut self, value: u8)
        requires
            old(self)@.i + 2 < 4096,
        ensures
            final(self)@ == (Machine { ram: old(self)@.ram_with_digits(value), ..old(self)@ }),
    {
        proof {
            use_type_invariant(&*self);
        }
        let base: usize = self.i_reg as usize;
        self.ram[base] = value / 100;
        self.ram[base + 1] = (value / 10) % 10;
        self.ram[base + 2] = value % 10;
    }

    /// Draws the `rows` bytes at the index register on as a sprite at
    /// column `x` and line `y`, and sets VF if a lit pixel was put out.
    fn draw(&mut self, x: u8, y: u8, rows: usize)
        requires
            old(self)@.i + rows <= 4096,
        ensures
            final(self)@ == ({
                let drawn = draw_sprite(
                    old(self)@.screen,
                    x as int,
                    y as int,
                    old(self)@.ram.subrange(old(self)@.i as int, old(self)@.i + rows),
                );
                Machine {
                    screen: drawn.0,
                    v: old(self)@.v.update(15, flag(drawn.1)),
                    ..old(self)@
                }
            }),
    {
        proof {
            use_type_invariant(&*self);
        }
        let any_flipped = draw_sprite_on(
            &mut self.screen,
            x,
            y,
            &self.ram,
            self.i_reg as usize,
            rows,
        );
        self.v_reg[0xF] = if any_flipped {
            1
        } else {
            0
        };
    }

    /// Returns from a subroutine: the program counter becomes the latest
    /// return address, which leaves the stack.
    fn ret(&mut self) -> (result: Result<(), EmuError>)
        ensures
            old(self)@.stack.len() > 0 ==> result is Ok && final(self)@ == (Machine {
                counter: old(self)@.stack.last(),
                stack: old(self)@.stack.drop_last(),
                ..old(self)@
            }),
            old(self)@.stack.len() == 0 ==> result == Err::<(), EmuError>(
                EmuError::StackUnderflow,
            ) && final(self)@ == old(self)@,
    {
        match self.pop() {
            Ok(address) => {
                self.jump(address);
                Ok(())
            },
            Err(e) => Err(e),
        }
    }

    /// Calls a subroutine: the program counter goes onto the stack and
    /// becomes `nnn`.
    fn call(&mut self, nnn: u16) -> (result: Result<(), EmuError>)
        ensures
            old(self)@.stack.len() < 16 ==> result is Ok && final(self)@ == (Machine {
                counter: nnn,
                stack: old(self)@.stack.push(old(self)@.counter),
                ..old(self)@
            }),
            old(self)@.stack.len() >= 16 ==> result == Err::<(), EmuError>(
                EmuError::StackOverflow,
            ) && final(self)@ == old(self)@,
    {
        match self.push(self.counter) {
            Ok(()) => {
                self.jump(nnn);
                Ok(())
            },
            Err(e) => Err(e),
        }
    }

    /// Executes one operation. `random` is the byte that `SetVxRnd` takes
    /// for its random number; no other operation reads it.
    ///
    /// An operation that cannot be executed is reported, and changes
    /// nothing.
    pub fn execute(&mut self, instruction: Instruction, random: u8) -> (result: Result<
        (),
        EmuError,
    >)
        ensures
            lands(old(self)@, old(self)@.execute(instruction, random), final(self)@, result),
            final(self)@.valid(),
    {
        proof {
            use_type_invariant(&*self);
        }
        if let Some(index) = instruction.find_missing_register() {
            return Err(EmuError::RegisterOutOfRange { index });
        }
        match instruction {
            Instruction::Nop => Ok(()),
            Instruction::ClearScreen => {
                self.clear_screen();
                Ok(())
            },
            Instruction::Ret => self.ret(),
            Instruction::Jump { nnn } => {
                self.jump(nnn);
                Ok(())
            },
            Instruction::JumpPlusV0 { nnn } => {
                let v0: u8 = self.v_reg[0];
                proof {
                    lemma_wrap16(nnn + v0);
                }
                self.jump(nnn.wrapping_add(v0 as u16));
                Ok(())
            },
            Instruction::Call { nnn } => self.call(nnn),
            Instruction::SkipVxEqNN { x, nn } => {
                self.skip_if(self.v_reg[x] == nn);
                Ok(())
            },
            Instruction::SkipVxNeqNN { x, nn } => {
                self.skip_if(self.v_reg[x] != nn);
                Ok(())
            },
            Instruction::SkipVxEqVy { x, y } => {
                self.skip_if(self.v_reg[x] == self.v_reg[y]);
                Ok(())
            },
            Instruction::SkipVxNeqVy { x, y } => {
                self.skip_if(self.v_reg[x] != self.v_reg[y]);
                Ok(())
            },
            Instruction::SetVxNN { x, nn } => {
                self.set_v(x, nn);
                Ok(())
            },
            Instruction::SetVxVy { x, y } => {
                self.set_v(x, self.v_reg[y]);
                Ok(())
            },
            Instruction::SetVxDt { x } => {
                self.set_v(x, self.delay_timer);
                Ok(())
            },
            Instruction::SetVxKey { x } => {
                self.waiting_for_key_reg = Some(x as u8);
                Ok(())
            },
            Instruction::SetVxRnd { x, nn } => {
                self.set_v(x, random & nn);
                Ok(())
            },
            Instruction::SetI { nnn } => {
                self.set_index(nnn);
                Ok(())
            },
            Instruction::SetVxFontToI { x } => {
                self.set_index(self.v_reg[x] as u16 * GLYPH_SIZE as u16);
                Ok(())
            },
            Instruction::SetVxBcdToI { x } => {
                if self.i_reg as usize + 2 >= RAM_SIZE {
                    return Err(EmuError::MemoryOutOfRange { address: self.i_reg as usize });
                }
                self.store_digits(self.v_reg[x]);
                Ok(())
            },
            Instruction::SetDtVx { x } => {
                self.delay_timer = self.v_reg[x];
                Ok(())
            },
            Instruction::SetStVx { x } => {
                self.sound_timer = self.v_reg[x];
                Ok(())
            },
            Instruction::AddVxNN { x, nn } => {
                let vx: u8 = self.v_reg[x];
                proof {
                    lemma_wrap8(vx + nn);
                }
                self.set_v(x, vx.wrapping_add(nn));
                Ok(())
            },
            Instruction::AddVxVy { x, y } => {
                let vx: u8 = self.v_reg[x];
                let vy: u8 = self.v_reg[y];
                let carry: bool = vx as u16 + vy as u16 > 255;
                proof {
                    lemma_wrap8(vx + vy);
                }
                self.set_v_and_flag(x, vx.wrapping_add(vy), carry);
                Ok(())
            },
            Instruction::SubVxVy { x, y } => {
                let vx: u8 = self.v_reg[x];
                let vy: u8 = self.v_reg[y];
                proof {
                    lemma_wrap8(vx - vy);
                }
                self.set_v_and_flag(x, vx.wrapping_sub(vy), vx >= vy);
                Ok(())
            },
            Instruction::SubVyVx { x, y } => {
                let vx: u8 = self.v_reg[x];
                let vy: u8 = self.v_reg[y];
                proof {
                    lemma_wrap8(vy - vx);
                }
                self.set_v_and_flag(x, vy.wrapping_sub(vx), vy >= vx);
                Ok(())
            },
            Instruction::AddVxToI { x } => {
                let vx: u8 = self.v_reg[x];
                proof {
                    lemma_wrap16(self.i_reg + vx);
                }
                self.set_index(self.i_reg.wrapping_add(vx as u16));
                Ok(())
            },
            Instruction::OrVxVy { x, y } => {
                self.set_v(x, self.v_reg[x] | self.v_reg[y]);
                Ok(())
            },
            Instruction::AndVxVy { x, y } => {
                self.set_v(x, self.v_reg[x] & self.v_reg[y]);
                Ok(())
            },
            Instruction::XorVxVy { x, y } => {
                self.set_v(x, self.v_reg[x] ^ self.v_reg[y]);
                Ok(())
            },
            Instruction::RShiftVx { x, y } => {
                let vy: u8 = self.v_reg[y];
                let least_sig: u8 = vy & 1;
                assert(vy >> 1 == vy / 2 && vy & 1 == vy % 2) by (bit_vector);
                self.set_v_and_flag(x, vy >> 1, least_sig == 1);
                Ok(())
            },
            Instruction::LShiftVx { x, y } => {
                let vy: u8 = self.v_reg[y];
                let most_sig: u8 = (vy >> 7) & 1;
                assert(vy << 1 == ((vy * 2) % 256) as u8 && ((vy >> 7) & 1 == 1 <==> vy >= 128))
                    by (bit_vector);
                self.set_v_and_flag(x, vy << 1, most_sig == 1);
                Ok(())
            },
            Instruction::SkipVxDown { x } => {
                let vx: u8 = self.v_reg[x];
                if vx as usize >= KEYPAD_SIZE {
                    return Err(EmuError::KeyOutOfRange { key: vx });
                }
                self.skip_if(self.keys[vx as usize]);
                Ok(())
            },
            Instruction::SkipVxUp { x } => {
                let vx: u8 = self.v_reg[x];
                if vx as usize >= KEYPAD_SIZE {
                    return Err(EmuError::KeyOutOfRange { key: vx });
                }
                self.skip_if(!self.keys[vx as usize]);
                Ok(())
            },
            Instruction::Draw { x, y, n } => {
                if self.i_reg as usize + n as usize > RAM_SIZE {
                    return Err(EmuError::MemoryOutOfRange { address: self.i_reg as usize });
                }
                self.draw(self.v_reg[x], self.v_reg[y], n as usize);
                Ok(())
            },
            Instruction::SaveVx { x } => {
                if self.i_reg as usize + x >= RAM_SIZE {
                    return Err(EmuError::MemoryOutOfRange { address: self.i_reg as usize });
                }
                self.save_registers(x);
                Ok(())
            },
            Instruction::LoadVx { x } => {
                if self.i_reg as usize + x >= RAM_SIZE {
                    return Err(EmuError::MemoryOutOfRange { address: self.i_reg as usize });
                }
                self.load_registers(x);
                Ok(())
            },
            Instruction::Unknown { opcode } => Err(EmuError::UnknownOpcode { opcode }),
        }
    }

    /// Copies the program image to the start address.
    fn load_rom(&mut self)
        ensures
            final(self)@ == (Machine {
                ram: with_image(old(self)@.ram, old(self)@.rom),
                ..old(self)@
            }),
    {
        proof {
            use_type_invariant(&*self);
        }
        let start: usize = START_ADDR as usize;
        let len: usize = self.rom.len();
        let mut k: usize = 0;
        while k < len
            invariant
                k <= len,
                len == self.rom@.len(),
                len <= 4096 - 0x200,
                start == 0x200,
                self@ == (Machine { ram: self@.ram, ..old(self)@ }),
                self@.ram.len() == 4096,
                forall|a: int|
                    0 <= a < 4096 ==> self@.ram[a] == if 0x200 <= a < 0x200 + k {
                        old(self)@.rom[a - 0x200]
                    } else {
                        old(self)@.ram[a]
                    },
            decreases len - k,
        {
            proof {
                use_type_invariant(&*self);
            }
            self.ram[start + k] = self.rom[k];
            k += 1;
        }
        assert(self@.ram =~= with_image(old(self)@.ram, old(self)@.rom));
    }

    /// Loads a program image: keeps it, and copies it to the start address.
    /// An image that does not fit between the start address and the end of
    /// memory is refused, and nothing is changed.
    pub fn load(&mut self, rom: &[u8]) -> (result: Result<(), EmuError>)
        ensures
            lands(old(self)@, old(self)@.load(rom@), final(self)@, result),
            result is Ok <==> rom@.len() <= 4096 - 0x200,
            final(self)@.valid(),
    {
        proof {
            use_type_invariant(&*self);
        }
        if rom.len() > RAM_SIZE - START_ADDR as usize {
            return Err(EmuError::RomTooLarge { len: rom.len() });
        }
        self.rom = slice_to_vec(rom);
        self.load_rom();
        proof {
            use_type_invariant(&*self);
        }
        Ok(())
    }

    /// Puts the machine back to where it started, with the program image
    /// that was loaded last in memory again. Only the pause stays.
    pub fn reset(&mut self)
        ensures
            final(self)@ == old(self)@.reset(),
            final(self)@.valid(),
    {
        proof {
            use_type_invariant(&*self);
        }
        self.counter = START_ADDR;
        self.ram = [0; RAM_SIZE];
        self.screen = [false; SCREEN_SIZE];
        self.v_reg = [0; V_SIZE];
        self.i_reg = 0;
        self.stack = [0; STACK_SIZE];
        self.stack_ptr = 0;
        self.keys = [false; KEYPAD_SIZE];
        self.waiting_for_key_reg = None;
        self.delay_timer = 0;
        self.sound_timer = 0;

        seed_font(&mut self.ram);
        assert(self@.ram =~= blank_ram());
        self.load_rom();
        proof {
            use_type_invariant(&*self);
            let m = old(self)@.reset();
            assert(self@.screen =~= m.screen);
            assert(self@.v =~= m.v);
            assert(self@.stack =~= m.stack);
            assert(self@.keys =~= m.keys);
        }
    }

    /// Makes one step, with `random` as the byte that `SetVxRnd` takes for
    /// its random number. A machine that waits for a key stays as it is.
    /// Any other fetches the instruction at the program counter, moves the
    /// counter past it, and executes the instruction.
    pub fn next_with(&mut self, random: u8) -> (result: Result<(), EmuError>)
        ensures
            lands(old(self)@, old(self)@.step(random), final(self)@, result),
            final(self)@.valid(),
    {
        proof {
            use_type_invariant(&*self);
        }
        if self.waiting_for_key_reg.is_some() {
            return Ok(());
        }
        let at: u16 = self.counter;
        let instruction = match self.fetch(at as usize) {
            Ok(instruction) => instruction,
            Err(e) => {
                return Err(e);
            },
        };
        self.counter = at + 2;
        let result = self.execute(instruction, random);
        if result.is_err() {
            proof {
                use_type_invariant(&*self);
            }
            self.counter = at;
        }
        result
    }

    /// Whether the next step draws a random number.
    fn draws_random(&self) -> (draws: bool)
        ensures
            draws == self@.draws_random(),
    {
        if self.waiting_for_key_reg.is_some() {
            return false;
        }
        match self.fetch(self.counter as usize) {
            Ok(Instruction::SetVxRnd { .. }) => true,
            _ => false,
        }
    }

    /// Makes one step, as `next_with` does, with a random number of the
    /// machine's own for `SetVxRnd`. A step that draws no random number
    /// does exactly what `next_with` does with any byte.
    pub fn next(&mut self) -> (result: Result<(), EmuError>)
        ensures
            exists|random: u8| lands(old(self)@, old(self)@.step(random), final(self)@, result),
            !old(self)@.draws_random() ==> lands(
                old(self)@,
                old(self)@.step(0),
                final(self)@,
                result,
            ),
            final(self)@.valid(),
    {
        let random: u8 = if self.draws_random() {
            random_byte()
        } else {
            0
        };
        let result = self.next_with(random);
        assert(lands(old(self)@, old(self)@.step(random), self@, result));
        result
    }

    /// Makes one step with `random`, unless the machine is paused.
    pub fn tick_with(&mut self, random: u8) -> (result: Result<(), EmuError>)
        ensures
            lands(old(self)@, old(self)@.tick(random), final(self)@, result),
            final(self)@.valid(),
    {
        proof {
            use_type_invariant(&*self);
        }
        if self.is_paused {
            return Ok(());
        }
        self.next_with(random)
    }

    /// Makes one step, unless the machine is paused.
    pub fn tick(&mut self) -> (result: Result<(), EmuError>)
        ensures
            exists|random: u8| lands(old(self)@, old(self)@.tick(random), final(self)@, result),
            !old(self)@.draws_random() ==> lands(
                old(self)@,
                old(self)@.tick(0),
                final(self)@,
                result,
            ),
            final(self)@.valid(),
    {
        proof {
            use_type_invariant(&*self);
        }
        if self.is_paused {
            assert(lands(old(self)@, old(self)@.tick(0), self@, Ok::<(), EmuError>(())));
            return Ok(());
        }
        let result = self.next();
        proof {
            let random = choose|random: u8|
                lands(old(self)@, old(self)@.step(random), self@, result);
            assert(lands(old(self)@, old(self)@.tick(random), self@, result));
        }
        result
    }

    /// Steps back with `random`: moves the program counter back by two
    /// instructions and makes one step. What the instruction before had
    /// changed stays changed. A program counter below 4 cannot be moved
    /// back.
    pub fn previous_with(&mut self, random: u8) -> (result: Result<(), EmuError>)
        ensures
            lands(old(self)@, old(self)@.step_back(random), final(self)@, result),
            final(self)@.valid(),
    {
        proof {
            use_type_invariant(&*self);
        }
        let at: u16 = self.counter;
        if at < 4 {
            return Err(EmuError::CounterUnderflow { counter: at });
        }
        self.counter = at - 4;
        let result = self.next_with(random);
        if result.is_err() {
            proof {
                use_type_invariant(&*self);
            }
            self.counter = at;
        }
        result
    }

    /// Steps back, as `previous_with` does, with a random number of the
    /// machine's own for `SetVxRnd`.
    pub fn previous(&mut self) -> (result: Result<(), EmuError>)
        ensures
            exists|random: u8|
                lands(old(self)@, old(self)@.step_back(random), final(self)@, result),
            !old(self)@.draws_random_stepping_back() ==> lands(
                old(self)@,
                old(self)@.step_back(0),
                final(self)@,
                result,
            ),
            final(self)@.valid(),
    {
        proof {
            use_type_invariant(&*self);
        }
        let at: u16 = self.counter;
        if at < 4 {
            assert(lands(
                old(self)@,
                old(self)@.step_back(0),
                self@,
                Err::<(), EmuError>(EmuError::CounterUnderflow { counter: at }),
            ));
            return Err(EmuError::CounterUnderflow { counter: at });
        }
        self.counter = at - 4;
        let ghost moved = self@;
        let result = self.next();
        let ghost random = choose|random: u8| lands(moved, moved.step(random), self@, result);
        if result.is_err() {
            proof {
                use_type_invariant(&*self);
            }
            self.counter = at;
        }
        proof {
            assert(lands(old(self)@, old(self)@.step_back(random), self@, result));
            if !old(self)@.draws_random_stepping_back() {
                assert(lands(old(self)@, old(self)@.step_back(0), self@, result));
            }
        }
        result
    }

    /// Makes up to `random.len()` steps, each with its byte of `random` in
    /// turn. A step that is refused ends the run: its error is reported,
    /// and the machine is as it was before that step.
    pub fn run_with(&mut self, random: &[u8]) -> (result: Result<(), EmuError>)
        ensures
            final(self)@ == old(self)@.run(random@).0,
            result is Ok <==> old(self)@.run(random@).1 is None,
            result is Err ==> old(self)@.run(random@).1 == Some(result->Err_0),
            final(self)@.valid(),
    {
        proof {
            use_type_invariant(&*self);
        }
        let mut k: usize = 0;
        while k < random.len()
            invariant
                k <= random@.len(),
                (self@, None::<EmuError>) == old(self)@.run(random@.take(k as int)),
                self@.valid(),
            decreases random@.len() - k,
        {
            let result = self.next_with(random[k]);
            proof {
                let upto = random@.take(k as int + 1);
                assert(upto.drop_last() =~= random@.take(k as int));
                assert(upto.last() == random@[k as int]);
            }
            if let Err(e) = result {
                proof {
                    Machine::lemma_run_ended(old(self)@, random@, k as int + 1);
                }
                return Err(e);
            }
            k += 1;
        }
        assert(random@.take(k as int) =~= random@);
        Ok(())
    }

    /// The state of every key, by the key's number.
    pub fn key_states(&self) -> (states: HashMap<u8, bool>)
        ensures
            forall|k: u8| states@.contains_key(k) <==> k < 16,
            forall|k: u8| k < 16 ==> states@[k] == self@.keys[k as int],
    {
        let mut states: HashMap<u8, bool> = HashMap::new();
        let mut i: u8 = 0;
        while i < 16
            invariant
                i <= 16,
                forall|k: u8| states@.contains_key(k) <==> k < i,
                forall|k: u8| k < i ==> states@[k] == self@.keys[k as int],
            decreases 16 - i,
        {
            states.insert(i, self.keys[i as usize]);
            i += 1;
        }
        states
    }
}

} // verus!
