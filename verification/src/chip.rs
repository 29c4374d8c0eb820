//! The machine: memory, call stack, registers, keypad, program counter and
//! pixel plane, with its mathematical model.

use crate::display::Display;
use crate::hex::{digits, hex_digits, pair_digits, paired};
use crate::keyboard::Keyboard;
use crate::registers::Registers;
use vstd::prelude::*;
use vstd::utf8::encode_utf8;

verus! {

/// Address at which programs are loaded and at which execution starts.
pub const PROGRAM_START: u16 = 0x200;

/// Mathematical model of the whole machine.
pub struct Machine {
    /// The 4096 bytes of memory.
    pub memory: Seq<u8>,
    /// The sixteen slots of the call stack; the slots below `sp` are in use.
    pub stack: Seq<u16>,
    /// The sixteen general registers, `v[15]` doubling as the flag register.
    pub v: Seq<u8>,
    /// The index register.
    pub i: u16,
    /// The delay timer.
    pub delay: u8,
    /// The sound timer.
    pub sound: u8,
    /// For each of the sixteen keys, whether it is down.
    pub keys: Seq<bool>,
    /// The program counter.
    pub pc: u16,
    /// The number of return addresses on the call stack.
    pub sp: u8,
    /// The 64 x 32 pixels, row by row.
    pub pixels: Seq<bool>,
}

impl Machine {
    pub open spec fn well_formed(self) -> bool {
        &&& self.memory.len() == 4096
        &&& self.stack.len() == 16
        &&& self.v.len() == 16
        &&& self.keys.len() == 16
        &&& self.pixels.len() == 2048
        &&& self.sp <= 16
    }

    /// The machine as it is switched on: the font in the first 80 bytes of
    /// memory, everything else zero, execution about to start at 0x200.
    pub open spec fn initial() -> Machine {
        Machine {
            memory: Seq::new(4096, |a: int| if a < 80 { font()[a] } else { 0u8 }),
            stack: Seq::new(16, |k: int| 0u16),
            v: Seq::new(16, |k: int| 0u8),
            i: 0,
            delay: 0,
            sound: 0,
            keys: Seq::new(16, |k: int| false),
            pc: 0x200,
            sp: 0,
            pixels: Seq::new(2048, |p: int| false),
        }
    }
}

/// The built-in font: sixteen glyphs of five rows each, for the hexadecimal
/// digits 0 to F in this order, each glyph four pixels wide.
pub open spec fn font() -> Seq<u8> {
    seq![
        0xF0u8, 0x90, 0x90, 0x90, 0xF0,
        0x20, 0x60, 0x20, 0x20, 0x70,
        0xF0, 0x10, 0xF0, 0x80, 0xF0,
        0xF0, 0x10, 0xF0, 0x10, 0xF0,
        0x90, 0x90, 0xF0, 0x10, 0x10,
        0xF0, 0x80, 0xF0, 0x10, 0xF0,
        0xF0, 0x80, 0xF0, 0x90, 0xF0,
        0xF0, 0x10, 0x20, 0x40, 0x40,
        0xF0, 0x90, 0xF0, 0x90, 0xF0,
        0xF0, 0x90, 0xF0, 0x10, 0xF0,
        0xF0, 0x90, 0xF0, 0x90, 0x90,
        0xE0, 0x90, 0xE0, 0x90, 0xE0,
        0xF0, 0x80, 0x80, 0x80, 0xF0,
        0xE0, 0x80, 0x80, 0x80, 0xE0,
        0xF0, 0x80, 0xF0, 0x80, 0xF0,
        0xF0, 0x80, 0xF0, 0x80, 0x80,
    ]
}

/// The built-in font, as an array.
pub fn glyphs() -> (r: [u8; 80])
    ensures
        r@ == font(),
{
    let r: [u8; 80] = [
        0xF0, 0x90, 0x90, 0x90, 0xF0,
        0x20, 0x60, 0x20, 0x20, 0x70,
        0xF0, 0x10, 0xF0, 0x80, 0xF0,
        0xF0, 0x10, 0xF0, 0x10, 0xF0,
        0x90, 0x90, 0xF0, 0x10, 0x10,
        0xF0, 0x80, 0xF0, 0x10, 0xF0,
        0xF0, 0x80, 0xF0, 0x90, 0xF0,
        0xF0, 0x10, 0x20, 0x40, 0x40,
        0xF0, 0x90, 0xF0, 0x90, 0xF0,
        0xF0, 0x90, 0xF0, 0x10, 0xF0,
        0xF0, 0x90, 0xF0, 0x90, 0x90,
        0xE0, 0x90, 0xE0, 0x90, 0xE0,
        0xF0, 0x80, 0x80, 0x80, 0xF0,
        0xE0, 0x80, 0x80, 0x80, 0xE0,
        0xF0, 0x80, 0xF0, 0x80, 0xF0,
        0xF0, 0x80, 0xF0, 0x80, 0x80,
    ];
    assert(r@ =~= font());
    r
}

pub struct Chip8 {
    pub memory: [u8; 4096],
    pub stack: [u16; 16],
    pub registers: Registers,
    pub keyboard: Keyboard,
    pub pc: u16,
    pub sp: u8,
    pub display: Display,
}

impl View for Chip8 {
    type V = Machine;

    open spec fn view(&self) -> Machine {
        Machine {
            memory: self.memory@,
            stack: self.stack@,
            v: self.registers@.v,
            i: self.registers@.i,
            delay: self.registers@.delay,
            sound: self.registers@.sound,
            keys: self.keyboard@,
            pc: self.pc,
            sp: self.sp,
            pixels: self.display@,
        }
    }
}

impl Chip8 {
    /// The call stack holds at most sixteen return addresses.
    pub open spec fn well_formed(&self) -> bool {
        self.sp <= 16
    }

    /// The model of a well-formed machine is well formed.
    pub proof fn lemma_model(&self)
        requires
            self.well_formed(),
        ensures
            self@.well_formed(),
    {
        self.registers.lemma_sixteen();
        self.keyboard.lemma_sixteen();
        self.display.lemma_size();
    }

    pub fn new() -> (r: Self)
        ensures
            r@ == Machine::initial(),
            r.well_formed(),
    {
        let mut res = Self {
            memory: [0; 4096],
            stack: [0; 16],
            registers: Registers::new(),
            keyboard: Keyboard::new(),
            pc: 0x200,
            sp: 0,
            display: Display::new(),
        };
        // the glyphs of the font stand at addresses 0 to 79
        let font = glyphs();
        let mut a: usize = 0;
        while a < 80
            invariant
                a <= 80,
                font@ == self::font(),
                forall|b: int| 0 <= b < a ==> res.memory@[b] == self::font()[b],
                forall|b: int| a <= b < 4096 ==> res.memory@[b] == 0,
                res.stack@ == Seq::new(16, |k: int| 0u16),
                res@ == (Machine { memory: res.memory@, ..Machine::initial() }),
            decreases 80 - a,
        {
            res.memory[a] = font[a];
            a += 1;
        }
        assert(res.memory@ =~= Machine::initial().memory);
        res
    }

    /// Writes the instruction word `instr` at address `start`, high byte first.
    pub fn set_instruction(&mut self, start: usize, instr: u16)
        requires
            start + 1 < 4096,
        ensures
            final(self)@ == (Machine {
                memory: old(self)@.memory.update(start as int, (instr / 256) as u8).update(
                    start + 1,
                    (instr % 256) as u8,
                ),
                ..old(self)@
            }),
    {
        assert((instr >> 8) as u8 == (instr / 256) as u8) by (bit_vector);
        assert(instr as u8 == (instr % 256) as u8) by (bit_vector);
        self.memory[start] = (instr >> 8) as u8;
        self.memory[start + 1] = instr as u8;
        assert(self@.memory =~= old(self)@.memory.update(start as int, (instr / 256) as u8).update(
            start + 1,
            (instr % 256) as u8,
        ));
    }

    /// Writes the bytes of the program to memory from address 0x200 on.
    pub fn load_program(&mut self, program: &Program)
        requires
            program.well_formed(),
            program.binary_data().len() <= 0xDFF,
        ensures
            final(self)@ == (Machine {
                memory: placed(old(self)@.memory, program.binary_data()),
                ..old(self)@
            }),
    {
        let data = program.get_binary_data();
        let mut i: usize = 0;
        assert(self.memory@ =~= placed(old(self)@.memory, data@.take(0)));
        while i < data.len()
            invariant
                i <= data@.len() <= 0xDFF,
                self.memory@ == placed(old(self)@.memory, data@.take(i as int)),
                self@ == (Machine { memory: self.memory@, ..old(self)@ }),
            decreases data@.len() - i,
        {
            self.memory[0x200 + i] = data[i];
            i += 1;
            assert(self.memory@ =~= placed(old(self)@.memory, data@.take(i as int)));
        }
        assert(data@.take(i as int) =~= data@);
    }
}

/// Memory with the bytes of a program written to it from address 0x200 on.
pub open spec fn placed(memory: Seq<u8>, data: Seq<u8>) -> Seq<u8> {
    Seq::new(
        memory.len(),
        |a: int|
            if 0x200 <= a < 0x200 + data.len() {
                data[a - 0x200]
            } else {
                memory[a]
            },
    )
}

/// A program: the bytes themselves, or a text that spells them in
/// hexadecimal digits.
pub enum Program {
    Text(String),
    Binary([u8; 0xDFF]),  // programs start at 0x200 and end at 0xFFF
}

impl Program {
    /// The hexadecimal digits that a program text holds, read from its UTF-8
    /// encoding, and no digits for a program that is given as bytes.
    pub open spec fn text_digits(&self) -> Seq<u8> {
        match self {
            Program::Text(t) => digits(encode_utf8(t@), encode_utf8(t@).len() as int),
            Program::Binary(_) => Seq::empty(),
        }
    }

    /// A program text must hold an even number of hexadecimal digits.
    pub open spec fn well_formed(&self) -> bool {
        self.text_digits().len() % 2 == 0
    }

    /// The bytes of the program.
    pub open spec fn binary_data(&self) -> Seq<u8> {
        match self {
            Program::Text(_) => paired(self.text_digits()),
            Program::Binary(data) => data@,
        }
    }

    /// Whether the program is well formed.
    pub fn is_well_formed(&self) -> (r: bool)
        ensures
            r == self.well_formed(),
    {
        match self {
            Program::Text(t) => {
                let found = hex_digits(t.as_str().as_bytes());
                found.len() % 2 == 0
            },
            Program::Binary(_) => true,
        }
    }

    /// The bytes of the program. In a text, every two hexadecimal digits make
    /// a byte; lines that start with two slashes are comments, and whatever
    /// else is no digit is ignored.
    pub fn get_binary_data(&self) -> (r: Vec<u8>)
        requires
            self.well_formed(),
        ensures
            r@ == self.binary_data(),
    {
        match self {
            Program::Binary(data) => {
                let mut res: Vec<u8> = Vec::new();
                let mut i: usize = 0;
                while i < 0xDFF
                    invariant
                        i <= 0xDFF,
                        res@ == data@.take(i as int),
                    decreases 0xDFF - i,
                {
                    res.push(data[i]);
                    i += 1;
                    assert(res@ =~= data@.take(i as int));
                }
                assert(data@.take(0xDFF) =~= data@);
                res
            },
            Program::Text(t) => {
                let found = hex_digits(t.as_str().as_bytes());
                pair_digits(&found)
            },
        }
    }
}

} // verus!
