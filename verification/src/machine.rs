use vstd::prelude::*;
use crate::error::EmuError;
use crate::fontset::{glyph_address, FONTSET};
use crate::instruction::{decode, Instruction};
use crate::sprite::{draw_sprite, lemma_draw_flips};

verus! {

/// The machine as a mathematical value. The contracts of the interpreter are
/// stated over it.
pub struct Machine {
    /// The program counter.
    pub counter: u16,
    /// The 4096 bytes of memory.
    pub ram: Seq<u8>,
    /// The program image that was loaded last.
    pub rom: Seq<u8>,
    /// The 64 x 32 pixels of the screen, row by row.
    pub screen: Seq<bool>,
    /// The registers V0 to VF.
    pub v: Seq<u8>,
    /// The index register.
    pub i: u16,
    /// The return addresses, the latest call last.
    pub stack: Seq<u16>,
    /// Which of the sixteen keys are down.
    pub keys: Seq<bool>,
    /// The register that waits for a key, while the machine is suspended.
    pub waiting: Option<u8>,
    /// The delay timer.
    pub delay: u8,
    /// The sound timer.
    pub sound: u8,
    /// Whether the host has paused the machine.
    pub paused: bool,
}

/// `n` cut to eight bits.
pub open spec fn wrap8(n: int) -> u8 {
    (n % 256) as u8
}

/// `n` cut to sixteen bits.
pub open spec fn wrap16(n: int) -> u16 {
    (n % 65536) as u16
}

/// What cutting to eight bits does to a sum or a difference of two bytes.
pub proof fn lemma_wrap8(n: int)
    ensures
        0 <= n < 256 ==> wrap8(n) == n,
        256 <= n < 512 ==> wrap8(n) == n - 256,
        -256 <= n < 0 ==> wrap8(n) == n + 256,
{
}

/// What cutting to sixteen bits does to a sum of two words.
pub proof fn lemma_wrap16(n: int)
    ensures
        0 <= n < 65536 ==> wrap16(n) == n,
        65536 <= n < 131072 ==> wrap16(n) == n - 65536,
{
}

/// The word that the two bytes `high` and `low` make.
pub open spec fn word_of(high: u8, low: u8) -> u16 {
    ((high as u16) << 8) | (low as u16)
}

/// The word of two bytes in arithmetic: the first byte counts 256 times.
pub proof fn lemma_word_of(high: u8, low: u8)
    by (bit_vector)
    ensures
        word_of(high, low) == 256 * high + low,
{
}

/// Memory with nothing in it but the font table at its start.
pub open spec fn blank_ram() -> Seq<u8> {
    Seq::new(
        4096,
        |a: int|
            if a < 80 {
                FONTSET@[a]
            } else {
                0u8
            },
    )
}

/// `ram` with the program image `rom` copied to the start address.
pub open spec fn with_image(ram: Seq<u8>, rom: Seq<u8>) -> Seq<u8> {
    Seq::new(
        ram.len(),
        |a: int|
            if 0x200 <= a < 0x200 + rom.len() {
                rom[a - 0x200]
            } else {
                ram[a]
            },
    )
}

/// A screen with no pixel lit.
pub open spec fn blank_screen() -> Seq<bool> {
    Seq::new(2048, |p: int| false)
}

/// The value of a flag in a register.
pub open spec fn flag(b: bool) -> u8 {
    if b {
        1
    } else {
        0
    }
}

impl Machine {
    /// What holds of every machine: the sizes of its parts, the bound of the
    /// stack, and that the program image fits into memory.
    pub open spec fn valid(self) -> bool {
        &&& self.ram.len() == 4096
        &&& self.rom.len() <= 4096 - 0x200
        &&& self.screen.len() == 2048
        &&& self.v.len() == 16
        &&& self.stack.len() <= 16
        &&& self.keys.len() == 16
        &&& self.waiting is Some ==> self.waiting.unwrap() < 16
    }

    /// The machine as it is made: no program, the font table in memory, the
    /// program counter at the start address, and everything else zero.
    pub open spec fn fresh() -> Machine {
        Machine {
            counter: 0x200,
            ram: blank_ram(),
            rom: Seq::empty(),
            screen: blank_screen(),
            v: Seq::new(16, |k: int| 0u8),
            i: 0,
            stack: Seq::empty(),
            keys: Seq::new(16, |k: int| false),
            waiting: None,
            delay: 0,
            sound: 0,
            paused: false,
        }
    }

    /// The machine after a reset: as it is made, but with the program image
    /// loaded again and the pause kept.
    pub open spec fn reset(self) -> Machine {
        Machine {
            ram: with_image(blank_ram(), self.rom),
            rom: self.rom,
            paused: self.paused,
            ..Machine::fresh()
        }
    }

    /// The machine after loading `rom`: the image is kept and copied to the
    /// start address, the rest stays. An image that does not fit is refused.
    pub open spec fn load(self, rom: Seq<u8>) -> Result<Machine, EmuError> {
        if rom.len() > 4096 - 0x200 {
            Err(EmuError::RomTooLarge { len: rom.len() as usize })
        } else {
            Ok(Machine { ram: with_image(self.ram, rom), rom, ..self })
        }
    }

    /// The operation that the two bytes at `at` stand for.
    pub open spec fn fetch(self, at: usize) -> Result<Instruction, EmuError> {
        if at + 1 >= 4096 {
            Err(EmuError::MemoryOutOfRange { address: at })
        } else {
            Ok(decode(word_of(self.ram[at as int], self.ram[at + 1])))
        }
    }

    /// The machine with `value` in register `x`.
    pub open spec fn set_v(self, x: int, value: u8) -> Machine {
        Machine { v: self.v.update(x, value), ..self }
    }

    /// The machine with `value` in register `x` and then the flag `f` in VF.
    /// Where `x` is VF itself, the flag is what stays.
    pub open spec fn set_v_and_flag(self, x: int, value: u8, f: bool) -> Machine {
        Machine { v: self.v.update(x, value).update(15, flag(f)), ..self }
    }

    /// The machine with the next instruction skipped if `condition` holds.
    pub open spec fn skip_if(self, condition: bool) -> Machine {
        if condition {
            Machine { counter: wrap16(self.counter + 2), ..self }
        } else {
            self
        }
    }

    /// Memory with the registers V0 to V`x` stored from the index register
    /// on.
    pub open spec fn ram_with_registers(self, x: int) -> Seq<u8> {
        Seq::new(
            4096,
            |a: int|
                if self.i <= a <= self.i + x {
                    self.v[a - self.i]
                } else {
                    self.ram[a]
                },
        )
    }

    /// The registers with V0 to V`x` loaded from memory at the index
    /// register on.
    pub open spec fn registers_from_ram(self, x: int) -> Seq<u8> {
        Seq::new(
            16,
            |k: int|
                if k <= x {
                    self.ram[self.i + k]
                } else {
                    self.v[k]
                },
        )
    }

    /// Memory with the three decimal digits of `value` at the index register
    /// on, hundreds first.
    pub open spec fn ram_with_digits(self, value: u8) -> Seq<u8> {
        self.ram.update(self.i as int, value / 100).update(
            self.i + 1,
            (value / 10) % 10,
        ).update(self.i + 2, value % 10)
    }

    /// The machine after one operation. `random` is the byte that `SetVxRnd`
    /// takes for its random number; no other operation reads it.
    ///
    /// An operation that names a register above 15, reaches beyond the end
    /// of memory, asks for a key above 15, overflows or underflows the
    /// stack, or is unknown, is refused.
    pub open spec fn execute(self, instruction: Instruction, random: u8) -> Result<
        Machine,
        EmuError,
    > {
        if instruction.missing_register() is Some {
            Err(EmuError::RegisterOutOfRange { index: instruction.missing_register().unwrap() })
        } else {
            match instruction {
                Instruction::Nop => Ok(self),
                Instruction::ClearScreen => Ok(Machine { screen: blank_screen(), ..self }),
                Instruction::Ret => if self.stack.len() == 0 {
                    Err(EmuError::StackUnderflow)
                } else {
                    Ok(Machine { counter: self.stack.last(), stack: self.stack.drop_last(), ..self })
                },
                Instruction::Jump { nnn } => Ok(Machine { counter: nnn, ..self }),
                Instruction::JumpPlusV0 { nnn } => Ok(
                    Machine { counter: wrap16(nnn + self.v[0]), ..self },
                ),
                Instruction::Call { nnn } => if self.stack.len() >= 16 {
                    Err(EmuError::StackOverflow)
                } else {
                    Ok(Machine { counter: nnn, stack: self.stack.push(self.counter), ..self })
                },
                Instruction::SkipVxEqNN { x, nn } => Ok(self.skip_if(self.v[x as int] == nn)),
                Instruction::SkipVxNeqNN { x, nn } => Ok(self.skip_if(self.v[x as int] != nn)),
                Instruction::SkipVxEqVy { x, y } => Ok(
                    self.skip_if(self.v[x as int] == self.v[y as int]),
                ),
                Instruction::SkipVxNeqVy { x, y } => Ok(
                    self.skip_if(self.v[x as int] != self.v[y as int]),
                ),
                Instruction::SetVxNN { x, nn } => Ok(self.set_v(x as int, nn)),
                Instruction::SetVxVy { x, y } => Ok(self.set_v(x as int, self.v[y as int])),
                Instruction::SetVxDt { x } => Ok(self.set_v(x as int, self.delay)),
                Instruction::SetVxKey { x } => Ok(Machine { waiting: Some(x as u8), ..self }),
                Instruction::SetVxRnd { x, nn } => Ok(self.set_v(x as int, random & nn)),
                Instruction::SetI { nnn } => Ok(Machine { i: nnn, ..self }),
                Instruction::SetVxFontToI { x } => Ok(
                    Machine { i: glyph_address(self.v[x as int]), ..self },
                ),
                Instruction::SetVxBcdToI { x } => if self.i + 2 >= 4096 {
                    Err(EmuError::MemoryOutOfRange { address: self.i as usize })
                } else {
                    Ok(Machine { ram: self.ram_with_digits(self.v[x as int]), ..self })
                },
                Instruction::SetDtVx { x } => Ok(Machine { delay: self.v[x as int], ..self }),
                Instruction::SetStVx { x } => Ok(Machine { sound: self.v[x as int], ..self }),
                Instruction::AddVxNN { x, nn } => Ok(
                    self.set_v(x as int, wrap8(self.v[x as int] + nn)),
                ),
                Instruction::AddVxVy { x, y } => {
                    let sum = self.v[x as int] + self.v[y as int];
                    Ok(self.set_v_and_flag(x as int, wrap8(sum), sum > 255))
                },
                Instruction::SubVxVy { x, y } => {
                    let difference = self.v[x as int] - self.v[y as int];
                    Ok(self.set_v_and_flag(x as int, wrap8(difference), difference >= 0))
                },
                Instruction::SubVyVx { x, y } => {
                    let difference = self.v[y as int] - self.v[x as int];
                    Ok(self.set_v_and_flag(x as int, wrap8(difference), difference >= 0))
                },
                Instruction::AddVxToI { x } => Ok(
                    Machine { i: wrap16(self.i + self.v[x as int]), ..self },
                ),
                Instruction::OrVxVy { x, y } => Ok(
                    self.set_v(x as int, self.v[x as int] | self.v[y as int]),
                ),
                Instruction::AndVxVy { x, y } => Ok(
                    self.set_v(x as int, self.v[x as int] & self.v[y as int]),
                ),
                Instruction::XorVxVy { x, y } => Ok(
                    self.set_v(x as int, self.v[x as int] ^ self.v[y as int]),
                ),
                Instruction::RShiftVx { x, y } => {
                    let vy = self.v[y as int];
                    Ok(self.set_v_and_flag(x as int, vy / 2, vy % 2 == 1))
                },
                Instruction::LShiftVx { x, y } => {
                    let vy = self.v[y as int];
                    Ok(self.set_v_and_flag(x as int, wrap8(vy * 2), vy >= 128))
                },
                Instruction::SkipVxDown { x } => {
                    let key = self.v[x as int];
                    if key >= 16 {
                        Err(EmuError::KeyOutOfRange { key })
                    } else {
                        Ok(self.skip_if(self.keys[key as int]))
                    }
                },
                Instruction::SkipVxUp { x } => {
                    let key = self.v[x as int];
                    if key >= 16 {
                        Err(EmuError::KeyOutOfRange { key })
                    } else {
                        Ok(self.skip_if(!self.keys[key as int]))
                    }
                },
                Instruction::Draw { x, y, n } => if self.i + n > 4096 {
                    Err(EmuError::MemoryOutOfRange { address: self.i as usize })
                } else {
                    let drawn = draw_sprite(
                        self.screen,
                        self.v[x as int] as int,
                        self.v[y as int] as int,
                        self.ram.subrange(self.i as int, self.i + n),
                    );
                    Ok(Machine { screen: drawn.0, v: self.v.update(15, flag(drawn.1)), ..self })
                },
                Instruction::SaveVx { x } => if self.i + x >= 4096 {
                    Err(EmuError::MemoryOutOfRange { address: self.i as usize })
                } else {
                    Ok(Machine { ram: self.ram_with_registers(x as int), ..self })
                },
                Instruction::LoadVx { x } => if self.i + x >= 4096 {
                    Err(EmuError::MemoryOutOfRange { address: self.i as usize })
                } else {
                    Ok(Machine { v: self.registers_from_ram(x as int), ..self })
                },
                Instruction::Unknown { opcode } => Err(EmuError::UnknownOpcode { opcode }),
            }
        }
    }

    /// The machine after one step. A machine that waits for a key stays as
    /// it is. Any other fetches the instruction at the program counter,
    /// moves the counter past it, and then executes it, so that the
    /// instruction may set the counter anew.
    pub open spec fn step(self, random: u8) -> Result<Machine, EmuError> {
        if self.waiting is Some {
            Ok(self)
        } else {
            match self.fetch(self.counter as usize) {
                Err(e) => Err(e),
                Ok(instruction) => Machine {
                    counter: (self.counter + 2) as u16,
                    ..self
                }.execute(instruction, random),
            }
        }
    }

    /// The machine after the host's tick: a step, unless it is paused.
    pub open spec fn tick(self, random: u8) -> Result<Machine, EmuError> {
        if self.paused {
            Ok(self)
        } else {
            self.step(random)
        }
    }

    /// The machine after stepping back: the program counter goes back by
    /// two instructions, and then one step is made. What the instruction
    /// before had changed stays changed.
    pub open spec fn step_back(self, random: u8) -> Result<Machine, EmuError> {
        if self.counter < 4 {
            Err(EmuError::CounterUnderflow { counter: self.counter })
        } else {
            Machine { counter: (self.counter - 4) as u16, ..self }.step(random)
        }
    }

    /// Whether the next step draws a random number: the machine does not
    /// wait for a key, and the instruction at the program counter is
    /// `SetVxRnd`.
    pub open spec fn draws_random(self) -> bool {
        self.waiting is None && self.fetch(self.counter as usize) is Ok && self.fetch(
            self.counter as usize,
        ).unwrap() is SetVxRnd
    }

    /// Whether stepping back draws a random number: the program counter can
    /// be moved back, and the step from there draws one.
    pub open spec fn draws_random_stepping_back(self) -> bool {
        self.counter >= 4 && Machine { counter: (self.counter - 4) as u16, ..self }.draws_random()
    }

    /// The machine after up to `random.len()` steps, each taking its random
    /// byte from `random` in turn, and the error that ended the run, if one
    /// did. A step that is refused ends the run and leaves the machine as
    /// it was before that step.
    pub open spec fn run(self, random: Seq<u8>) -> (Machine, Option<EmuError>)
        decreases random.len(),
    {
        if random.len() == 0 {
            (self, None)
        } else {
            let before = self.run(random.drop_last());
            if before.1 is Some {
                before
            } else {
                match before.0.step(random.last()) {
                    Ok(m) => (m, None),
                    Err(e) => (before.0, Some(e)),
                }
            }
        }
    }

    /// The machine after the timers were ticked: each goes down by one, and
    /// neither goes below zero.
    pub open spec fn tick_timers(self) -> Machine {
        Machine {
            delay: if self.delay > 0 {
                (self.delay - 1) as u8
            } else {
                0
            },
            sound: if self.sound > 0 {
                (self.sound - 1) as u8
            } else {
                0
            },
            ..self
        }
    }

    /// The machine after key `key` went down.
    pub open spec fn press(self, key: u8) -> Machine {
        Machine { keys: self.keys.update(key as int, true), ..self }
    }

    /// The machine after key `key` went up. If a register waits for a key,
    /// it gets the key's number and the machine goes on.
    pub open spec fn release(self, key: u8) -> Machine {
        let keys = self.keys.update(key as int, false);
        match self.waiting {
            Some(x) => Machine { keys, v: self.v.update(x as int, key), waiting: None, ..self },
            None => Machine { keys, ..self },
        }
    }

    /// The machine after the host paused it or let it go on.
    pub open spec fn toggle_pause(self) -> Machine {
        Machine { paused: !self.paused, ..self }
    }

    /// Only `SetVxRnd` reads the random byte: every other operation gives
    /// the same machine whatever the byte is.
    pub proof fn lemma_random_read_by_one(m: Machine, instruction: Instruction, a: u8, b: u8)
        ensures
            !(instruction is SetVxRnd) ==> m.execute(instruction, a) == m.execute(instruction, b),
    {
    }

    /// A run that was ended by an error stays ended: more random bytes
    /// change neither the machine nor the error.
    pub proof fn lemma_run_ended(m: Machine, random: Seq<u8>, k: int)
        requires
            0 <= k <= random.len(),
            m.run(random.take(k)).1 is Some,
        ensures
            m.run(random) == m.run(random.take(k)),
        decreases random.len(),
    {
        if k == random.len() {
            assert(random.take(k) =~= random);
        } else {
            assert(random.drop_last().take(k) =~= random.take(k));
            Self::lemma_run_ended(m, random.drop_last(), k);
        }
    }

    /// A machine that waits for a key does not move: whatever the random
    /// bytes are, a run leaves it as it is.
    pub proof fn lemma_waiting_machine_stays(m: Machine, random: Seq<u8>)
        requires
            m.waiting is Some,
        ensures
            m.run(random) == (m, None::<EmuError>),
        decreases random.len(),
    {
        if random.len() > 0 {
            Self::lemma_waiting_machine_stays(m, random.drop_last());
        }
    }

    /// The wait for a key: `SetVxKey` for register `x` suspends the
    /// machine; a key that goes down does not end the wait; the key that
    /// goes up ends it, and its number is in register `x` from then on.
    pub proof fn lemma_key_wait(m: Machine, x: usize, down: u8, up: u8, random: u8)
        requires
            m.valid(),
            x < 16,
            down < 16,
            up < 16,
        ensures
            m.execute(Instruction::SetVxKey { x }, random) is Ok,
            ({
                let waiting = m.execute(Instruction::SetVxKey { x }, random).unwrap();
                let released = waiting.press(down).release(up);
                &&& waiting.waiting == Some(x as u8)
                &&& waiting.step(random) == Ok::<Machine, EmuError>(waiting)
                &&& waiting.press(down).waiting == Some(x as u8)
                &&& waiting.press(down).step(random) == Ok::<Machine, EmuError>(
                    waiting.press(down),
                )
                &&& released.waiting is None
                &&& released.v[x as int] == up
                &&& released.counter == m.counter
                &&& released.valid()
            }),
    {
    }

    /// Ticking the timers never takes one below zero: a timer at zero stays
    /// at zero, and any other goes down by exactly one.
    pub proof fn lemma_timers_floor(m: Machine)
        ensures
            m.delay == 0 ==> m.tick_timers().delay == 0,
            m.sound == 0 ==> m.tick_timers().sound == 0,
            m.delay > 0 ==> m.tick_timers().delay == m.delay - 1,
            m.sound > 0 ==> m.tick_timers().sound == m.sound - 1,
            m.tick_timers().delay <= m.delay,
            m.tick_timers().sound <= m.sound,
    {
    }

    /// A reset forgets everything but the program image and the pause: two
    /// machines that agree on these are the same machine after a reset, and
    /// stay the same through a load of one image and a run on one sequence
    /// of random bytes.
    pub proof fn lemma_replay(a: Machine, b: Machine, rom: Seq<u8>, random: Seq<u8>)
        requires
            a.rom == b.rom,
            a.paused == b.paused,
        ensures
            a.reset() == b.reset(),
            a.reset().load(rom) == b.reset().load(rom),
            a.reset().load(rom) is Ok ==> a.reset().load(rom).unwrap().run(random)
                == b.reset().load(rom).unwrap().run(random),
    {
    }

    /// After a reset, a machine on which no image was loaded yet is the
    /// machine as it is made, but for the pause.
    pub proof fn lemma_reset_of_fresh(m: Machine)
        requires
            m.rom.len() == 0,
        ensures
            m.reset() == (Machine { paused: m.paused, ..Machine::fresh() }),
    {
        assert(with_image(blank_ram(), m.rom) =~= blank_ram());
        assert(m.rom =~= Seq::<u8>::empty());
    }

    /// A run over two sequences of random bytes, one after the other, is
    /// the run over the first followed by the run over the second.
    pub proof fn lemma_run_in_two(m: Machine, first: Seq<u8>, second: Seq<u8>)
        ensures
            m.run(first + second) == if m.run(first).1 is Some {
                m.run(first)
            } else {
                m.run(first).0.run(second)
            },
        decreases second.len(),
    {
        if second.len() == 0 {
            assert(first + second =~= first);
        } else {
            assert((first + second).drop_last() =~= first + second.drop_last());
            assert((first + second).last() == second.last());
            Self::lemma_run_in_two(m, first, second.drop_last());
        }
    }

    /// Every operation takes a valid machine to a valid machine.
    pub proof fn lemma_execute_keeps_valid(m: Machine, instruction: Instruction, random: u8)
        requires
            m.valid(),
            m.execute(instruction, random) is Ok,
        ensures
            m.execute(instruction, random).unwrap().valid(),
    {
        if let Instruction::Draw { x, y, n } = instruction {
            lemma_draw_flips(
                m.screen,
                m.v[x as int] as int,
                m.v[y as int] as int,
                m.ram.subrange(m.i as int, m.i + n),
            );
        }
    }

    /// Every step takes a valid machine to a valid machine.
    pub proof fn lemma_step_keeps_valid(m: Machine, random: u8)
        requires
            m.valid(),
            m.step(random) is Ok,
        ensures
            m.step(random).unwrap().valid(),
    {
        if m.waiting is None {
            let moved = Machine { counter: (m.counter + 2) as u16, ..m };
            Self::lemma_execute_keeps_valid(moved, m.fetch(m.counter as usize).unwrap(), random);
        }
    }

    /// Every run takes a valid machine to a valid machine.
    pub proof fn lemma_run_keeps_valid(m: Machine, random: Seq<u8>)
        requires
            m.valid(),
        ensures
            m.run(random).0.valid(),
        decreases random.len(),
    {
        if random.len() > 0 {
            Self::lemma_run_keeps_valid(m, random.drop_last());
            let before = m.run(random.drop_last());
            if before.1 is None && before.0.step(random.last()) is Ok {
                Self::lemma_step_keeps_valid(before.0, random.last());
            }
        }
    }

    /// The operations that report a carry, a borrow, a bit that was shifted
    /// out or a collision leave 0 or 1 in VF: it is the last register that
    /// they write.
    pub proof fn lemma_flag_is_bit(m: Machine, instruction: Instruction, random: u8)
        requires
            m.valid(),
            m.execute(instruction, random) is Ok,
            instruction is AddVxVy || instruction is SubVxVy || instruction is SubVyVx
                || instruction is RShiftVx || instruction is LShiftVx || instruction is Draw,
        ensures
            m.execute(instruction, random).unwrap().v[15] <= 1,
    {
    }

    /// The sums, the differences and the shifts lose nothing: the result
    /// and the flag together give back the exact value. A sum is the
    /// result plus 256 for the carry; a difference is the result minus 256
    /// where the flag is clear, which is when there was a borrow; a shift
    /// to the right halves, with the flag as the remainder; a shift to the
    /// left doubles, with the flag as the ninth bit. This is stated for a
    /// result register other than VF, in which the flag would replace the
    /// result.
    pub proof fn lemma_flag_completes_result(m: Machine, x: usize, y: usize, random: u8)
        requires
            m.valid(),
            x < 15,
            y < 16,
        ensures
            ({
                let vx = m.v[x as int];
                let vy = m.v[y as int];
                let sum = m.execute(Instruction::AddVxVy { x, y }, random).unwrap();
                let less = m.execute(Instruction::SubVxVy { x, y }, random).unwrap();
                let reverse = m.execute(Instruction::SubVyVx { x, y }, random).unwrap();
                let right = m.execute(Instruction::RShiftVx { x, y }, random).unwrap();
                let left = m.execute(Instruction::LShiftVx { x, y }, random).unwrap();
                &&& sum.v[x as int] + 256 * sum.v[15] == vx + vy
                &&& less.v[x as int] - 256 * (1 - less.v[15]) == vx - vy
                &&& reverse.v[x as int] - 256 * (1 - reverse.v[15]) == vy - vx
                &&& 2 * right.v[x as int] + right.v[15] == vy
                &&& left.v[x as int] + 256 * left.v[15] == 2 * vy
            }),
    {
        let vx = m.v[x as int];
        let vy = m.v[y as int];
        lemma_wrap8(vx + vy);
        lemma_wrap8(vx - vy);
        lemma_wrap8(vy - vx);
        lemma_wrap8(vy * 2);
    }

    /// The three bytes that `SetVxBcdToI` stores are the decimal digits of
    /// the value, hundreds first.
    pub proof fn lemma_digits_are_decimal(m: Machine, value: u8)
        requires
            m.valid(),
            m.i + 2 < 4096,
        ensures
            ({
                let ram = m.ram_with_digits(value);
                let at = m.i as int;
                &&& ram.len() == 4096
                &&& ram[at] <= 2 && ram[at + 1] <= 9 && ram[at + 2] <= 9
                &&& 100 * ram[at] + 10 * ram[at + 1] + ram[at + 2] == value
                &&& forall|a: int| 0 <= a < 4096 && !(at <= a <= at + 2) ==> ram[a] == m.ram[a]
            }),
    {
    }
}

} // verus!
