use vstd::prelude::*;
use vstd::string::StringExecFns;
use crate::emulator::Emulator;
use crate::hex::{decimal, push_decimal};
use crate::machine::Machine;

verus! {

/// How many addresses before the program counter, and how many from it on,
/// the list shows.
pub const LIST_REACH: u16 = 10;

/// The first address of the list: ten before the program counter, or zero
/// where the counter is below ten.
pub open spec fn list_from(counter: u16) -> u16 {
    if counter < 10 {
        0
    } else {
        (counter - 10) as u16
    }
}

/// The address at which the list ends: ten after the program counter, or
/// the last address of memory where that is nearer. The list stops before
/// it.
pub open spec fn list_to(counter: u16) -> u16 {
    if counter + 10 >= 4096 {
        4095
    } else {
        (counter + 10) as u16
    }
}

/// The line of the list for address `at`: a mark, `>` at the program
/// counter and a space elsewhere, then the address in decimal and the
/// instruction that the two bytes at the address stand for.
pub open spec fn list_line(m: Machine, at: u16) -> Seq<char> {
    (if at == m.counter {
        ">"@
    } else {
        " "@
    }) + " "@ + decimal(at as nat) + " > "@ + m.fetch(at as usize).unwrap().text()
}

/// The lines of the instruction list: one for each address from
/// `list_from` up to `list_to` of the program counter, every address, not
/// every second one. There is none where the program counter is at the end
/// of memory or beyond it.
pub fn instruction_lines(emu: &Emulator) -> (lines: Vec<String>)
    ensures
        lines@.len() == if list_from(emu@.counter) < list_to(emu@.counter) {
            list_to(emu@.counter) - list_from(emu@.counter)
        } else {
            0
        },
        forall|k: int|
            0 <= k < lines@.len() ==> (#[trigger] lines@[k])@ == list_line(
                emu@,
                (list_from(emu@.counter) + k) as u16,
            ),
{
    let counter: u16 = emu.counter();
    let from: u16 = if counter < LIST_REACH {
        0
    } else {
        counter - LIST_REACH
    };
    let to: u16 = if counter >= 4096 - LIST_REACH {
        4095
    } else {
        counter + LIST_REACH
    };
    let mut lines: Vec<String> = Vec::new();
    let mut at: u16 = from;
    while at < to
        invariant
            from == list_from(emu@.counter),
            to == list_to(emu@.counter),
            counter == emu@.counter,
            to <= 4095,
            from <= at,
            at <= to || (at == from && lines@.len() == 0),
            at <= to ==> lines@.len() == at - from,
            forall|k: int|
                0 <= k < lines@.len() ==> (#[trigger] lines@[k])@ == list_line(
                    emu@,
                    (from + k) as u16,
                ),
        decreases to - at,
    {
        let mut line = String::new();
        if at == counter {
            line.append(">");
        } else {
            line.append(" ");
        }
        line.append(" ");
        push_decimal(&mut line, at as usize);
        line.append(" > ");
        match emu.fetch(at as usize) {
            Ok(instruction) => {
                let text = instruction.to_string();
                line.append(text.as_str());
            },
            Err(_) => {},
        }
        assert(line@ =~= list_line(emu@, at));
        lines.push(line);
        at += 1;
    }
    lines
}

} // verus!
