//! The execution engine: what each instruction does to the machine, and the
//! fetch, decode and execute cycle.

use crate::chip::{Chip8, Machine};
use crate::display::{
    blit, collides, has_ink, lemma_blit_twice, lemma_redraw_collides, Sprite, SpriteView,
};
use crate::instructions::{decode, parse, Instruction};
use crate::keyboard::{first_pressed, is_first_pressed, lemma_first_pressed_unique, none_pressed};
use rand::Rng;
use vstd::prelude::*;

verus! {

/// How an instruction leaves the program counter.
#[derive(Clone, Copy, Debug, PartialEq, Eq, Structural)]
pub enum ExecuteRes {
    /// Execution goes on at this address.
    SetPc(u16),
    /// The instruction waits for a key: the program counter stays where it
    /// is, and the same instruction is to be executed again.
    Wait,
}

/// Why the machine cannot go on.
#[derive(Clone, Copy, Debug, PartialEq, Eq, Structural)]
pub enum Fault {
    /// The word at `pc`, made of `upper` and `lower`, is no instruction.
    Decode { upper: u8, lower: u8, pc: u16 },
    /// A call with sixteen return addresses already on the stack.
    StackOverflow,
    /// A return with no return address on the stack.
    StackUnderflow,
    /// An instruction word or an operand that lies beyond the end of memory.
    OutOfBounds,
}

/// What one cycle reports: where execution goes on, and whether the pixel
/// plane was written to.
#[derive(Clone, Copy, Debug, PartialEq, Eq, Structural)]
pub struct Step {
    pub res: ExecuteRes,
    pub redraw: bool,
}

/// Mathematical model of what an instruction does: the machine after it, where
/// execution goes on, and whether the pixel plane was written to.
pub struct Effect {
    pub machine: Machine,
    pub res: ExecuteRes,
    pub redraw: bool,
}

impl Machine {
    /// Whether the addresses of the next two instructions fit the program
    /// counter.
    pub open spec fn can_advance(self) -> bool {
        self.pc + 4 <= u16::MAX
    }

    /// The address of the next instruction.
    pub open spec fn next(self) -> u16 {
        (self.pc + 2) as u16
    }

    /// The address of the instruction after the next one.
    pub open spec fn skip(self) -> u16 {
        (self.pc + 4) as u16
    }

    /// The machine with register `x` set to `val`.
    pub open spec fn with_v(self, x: int, val: u8) -> Machine {
        Machine { v: self.v.update(x, val), ..self }
    }

    /// The sprite of `n` rows that stands in memory at the index register,
    /// placed where registers `x` and `y` say.
    pub open spec fn sprite(self, x: int, y: int, n: int) -> SpriteView {
        SpriteView {
            rows: Seq::new(n as nat, |k: int| self.memory[self.i + k]),
            x: self.v[x] as int,
            y: self.v[y] as int,
        }
    }

    /// The machine goes on at the next instruction.
    pub open spec fn proceed(self) -> Result<Effect, Fault> {
        Ok(Effect { machine: self, res: ExecuteRes::SetPc(self.next()), redraw: false })
    }

    /// The machine goes on at `pc`.
    pub open spec fn jump(self, pc: u16) -> Result<Effect, Fault> {
        Ok(Effect { machine: self, res: ExecuteRes::SetPc(pc), redraw: false })
    }

    /// The machine skips the next instruction if `cond` holds.
    pub open spec fn skip_if(self, cond: bool) -> Result<Effect, Fault> {
        self.jump(
            if cond {
                self.skip()
            } else {
                self.next()
            },
        )
    }
}

/// 1 if `b` holds, else 0: the value that the flag register takes.
pub open spec fn flag(b: bool) -> u8 {
    if b {
        1u8
    } else {
        0u8
    }
}

/// What `instr` does to machine `m`, where `rnd` is the byte that the random
/// number generator hands out. The program counter of the machine itself is
/// left as it is: the result says where execution goes on.
///
/// An arithmetic instruction writes the flag register first and its result
/// second, so that the result stands where the flag register is the
/// destination. A subtraction borrows only from a smaller minuend: equal
/// values leave 0 with the flag set. The key instructions look at the low
/// four bits of the register. A draw reads no memory for a sprite without
/// rows, wherever the index register points. The index register counts in
/// sixteen bits and wraps there.
pub open spec fn executed(m: Machine, instr: Instruction, rnd: u8) -> Result<Effect, Fault> {
    match instr {
        Instruction::Cls => Ok(
            Effect {
                machine: Machine { pixels: Seq::new(2048, |p: int| false), ..m },
                res: ExecuteRes::SetPc(m.next()),
                redraw: true,
            },
        ),
        Instruction::Ret => if m.sp == 0 {
            Err(Fault::StackUnderflow)
        } else {
            Machine { sp: (m.sp - 1) as u8, ..m }.jump(m.stack[m.sp - 1])
        },
        Instruction::Jump(addr) => m.jump(addr),
        Instruction::Call(addr) => if m.sp >= 16 {
            Err(Fault::StackOverflow)
        } else {
            Machine { stack: m.stack.update(m.sp as int, m.next()), sp: (m.sp + 1) as u8, ..m }.jump(
                addr,
            )
        },
        Instruction::SkipEqConst(x, byte) => m.skip_if(m.v[x as int] == byte),
        Instruction::SkipNotEqConst(x, byte) => m.skip_if(m.v[x as int] != byte),
        Instruction::SkipEqReg(x, y) => m.skip_if(m.v[x as int] == m.v[y as int]),
        Instruction::SkipNotEqReg(x, y) => m.skip_if(m.v[x as int] != m.v[y as int]),
        Instruction::LoadConst(x, byte) => m.with_v(x as int, byte).jump(m.next()),
        Instruction::AddConst(x, byte) => m.with_v(
            x as int,
            ((m.v[x as int] + byte) % 256) as u8,
        ).jump(m.next()),
        Instruction::LoadReg(x, y) => m.with_v(x as int, m.v[y as int]).jump(m.next()),
        Instruction::Or(x, y) => m.with_v(x as int, m.v[x as int] | m.v[y as int]).jump(m.next()),
        Instruction::And(x, y) => m.with_v(x as int, m.v[x as int] & m.v[y as int]).jump(m.next()),
        Instruction::Xor(x, y) => m.with_v(x as int, m.v[x as int] ^ m.v[y as int]).jump(m.next()),
        Instruction::Add(x, y) => {
            let sum = m.v[x as int] + m.v[y as int];
            m.with_v(15, flag(sum > 255)).with_v(x as int, (sum % 256) as u8).jump(m.next())
        },
        Instruction::Sub(x, y) => {
            let a = m.v[x as int];
            let b = m.v[y as int];
            m.with_v(15, flag(a >= b)).with_v(x as int, ((a + 256 - b) % 256) as u8).jump(m.next())
        },
        Instruction::ShiftRight(x, _) => {
            let a = m.v[x as int];
            m.with_v(15, a % 2).with_v(x as int, a / 2).jump(m.next())
        },
        Instruction::SubN(x, y) => {
            let a = m.v[x as int];
            let b = m.v[y as int];
            m.with_v(15, flag(b >= a)).with_v(x as int, ((b + 256 - a) % 256) as u8).jump(m.next())
        },
        Instruction::ShiftLeft(x, _) => {
            let a = m.v[x as int];
            m.with_v(15, a / 128).with_v(x as int, ((a % 128) * 2) as u8).jump(m.next())
        },
        Instruction::LoadAddr(addr) => Machine { i: addr, ..m }.jump(m.next()),
        Instruction::JumpOffset(addr) => m.jump((m.v[0] + addr) as u16),
        Instruction::Rand(x, mask) => m.with_v(x as int, mask & rnd).jump(m.next()),
        Instruction::Draw(x, y, n) => if n > 0 && m.i + n > 4096 {
            Err(Fault::OutOfBounds)
        } else {
            let sprite = m.sprite(x as int, y as int, n as int);
            Ok(
                Effect {
                    machine: Machine { pixels: blit(m.pixels, sprite), ..m }.with_v(
                        15,
                        flag(collides(m.pixels, sprite)),
                    ),
                    res: ExecuteRes::SetPc(m.next()),
                    redraw: true,
                },
            )
        },
        Instruction::SkipOnKeyPressed(x) => m.skip_if(m.keys[(m.v[x as int] % 16) as int]),
        Instruction::SkipKeyNotPressed(x) => m.skip_if(!m.keys[(m.v[x as int] % 16) as int]),
        Instruction::LoadDelay(x) => m.with_v(x as int, m.delay).jump(m.next()),
        Instruction::WaitKeyPress(x) => match first_pressed(m.keys) {
            None => Ok(Effect { machine: m, res: ExecuteRes::Wait, redraw: false }),
            Some(key) => m.with_v(x as int, key).jump(m.next()),
        },
        Instruction::SetDelay(x) => Machine { delay: m.v[x as int], ..m }.jump(m.next()),
        Instruction::SetSound(x) => Machine { sound: m.v[x as int], ..m }.jump(m.next()),
        Instruction::AddAddr(x) => Machine {
            i: ((m.i + m.v[x as int]) % 0x1_0000) as u16,
            ..m
        }.jump(m.next()),
        Instruction::SetSpriteAddr(x) => Machine { i: (m.v[x as int] * 5) as u16, ..m }.jump(
            m.next(),
        ),
        Instruction::BCD(x) => if m.i + 2 > 4095 {
            Err(Fault::OutOfBounds)
        } else {
            let a = m.v[x as int];
            Machine {
                memory: m.memory.update(m.i as int, a / 100).update(m.i + 1, (a % 100) / 10).update(
                    m.i + 2,
                    a % 10,
                ),
                ..m
            }.jump(m.next())
        },
        Instruction::Store(x) => if m.i + x > 4095 {
            Err(Fault::OutOfBounds)
        } else {
            Machine { memory: stored(m.memory, m.v, m.i as int, x + 1), ..m }.jump(m.next())
        },
        Instruction::Load(x) => if m.i + x > 4095 {
            Err(Fault::OutOfBounds)
        } else {
            Machine { v: loaded(m.v, m.memory, m.i as int, x + 1), ..m }.jump(m.next())
        },
    }
}

/// Memory after the first `count` registers have been written to it from
/// address `at` on.
pub open spec fn stored(memory: Seq<u8>, v: Seq<u8>, at: int, count: int) -> Seq<u8> {
    Seq::new(
        memory.len(),
        |a: int|
            if at <= a < at + count {
                v[a - at]
            } else {
                memory[a]
            },
    )
}

/// The registers after the first `count` of them have been read from memory
/// from address `at` on.
pub open spec fn loaded(v: Seq<u8>, memory: Seq<u8>, at: int, count: int) -> Seq<u8> {
    Seq::new(
        v.len(),
        |k: int|
            if k < count {
                memory[at + k]
            } else {
                v[k]
            },
    )
}

/// The instruction at the program counter. There is none where the program
/// counter is 4094 or more, nor where the word there matches no instruction.
pub open spec fn fetched(m: Machine) -> Result<Instruction, Fault> {
    if m.pc >= 4094 {
        Err(Fault::OutOfBounds)
    } else {
        match decode(m.memory[m.pc as int], m.memory[m.pc + 1]) {
            Ok(instr) => Ok(instr),
            Err(e) => Err(Fault::Decode { upper: e.upper, lower: e.lower, pc: m.pc }),
        }
    }
}

/// The machine with its program counter where `res` says: moved, or left in
/// place by an instruction that waits.
pub open spec fn landed(m: Machine, res: ExecuteRes) -> Machine {
    match res {
        ExecuteRes::SetPc(pc) => Machine { pc, ..m },
        ExecuteRes::Wait => m,
    }
}

/// What one cycle does to machine `m`: the instruction at the program counter
/// is fetched, decoded and executed, and the program counter moves where the
/// instruction says.
pub open spec fn stepped(m: Machine, rnd: u8) -> Result<Effect, Fault> {
    match fetched(m) {
        Err(fault) => Err(fault),
        Ok(instr) => match executed(m, instr, rnd) {
            Err(fault) => Err(fault),
            Ok(e) => Ok(Effect { machine: landed(e.machine, e.res), ..e }),
        },
    }
}

/// Whether going from `before` to `after` with result `r` is what `instr`
/// does when the random number generator hands out `rnd`. A fault leaves the
/// machine and the redraw mark as they were.
pub open spec fn carried_out(
    before: Machine,
    instr: Instruction,
    rnd: u8,
    after: Machine,
    r: Result<ExecuteRes, Fault>,
    mark_before: bool,
    mark_after: bool,
) -> bool {
    match executed(before, instr, rnd) {
        Ok(e) => r == Ok::<ExecuteRes, Fault>(e.res) && after == e.machine && mark_after == (
        mark_before || e.redraw),
        Err(fault) => r == Err::<ExecuteRes, Fault>(fault) && after == before && mark_after
            == mark_before,
    }
}

/// Whether going from `before` to `after` with result `r` is one cycle in
/// which the random number generator hands out `rnd`. A fault leaves the
/// machine as it was.
pub open spec fn cycled(before: Machine, rnd: u8, after: Machine, r: Result<Step, Fault>) -> bool {
    match stepped(before, rnd) {
        Ok(e) => r == Ok::<Step, Fault>(Step { res: e.res, redraw: e.redraw }) && after
            == e.machine,
        Err(fault) => r == Err::<Step, Fault>(fault) && after == before,
    }
}

/// The arithmetic instructions that write the flag register: add, subtract
/// either way, and the two shifts. Each writes the flag register first and
/// its result second.
fn arithmetic(instr: Instruction, chip: &mut Chip8) -> (r: Result<ExecuteRes, Fault>)
    requires
        old(chip).well_formed(),
        old(chip)@.can_advance(),
        instr.well_formed(),
        instr is Add || instr is Sub || instr is ShiftRight || instr is SubN || instr is ShiftLeft,
    ensures
        carried_out(old(chip)@, instr, 0, final(chip)@, r, false, false),
        final(chip).well_formed(),
{
    proof {
        chip.lemma_model();
    }
    let new_pc: u16 = chip.pc + 2;
    match instr {
        Instruction::Add(reg_x, reg_y) => {
            let x: u8 = chip.registers.get_value(reg_x);
            let y: u8 = chip.registers.get_value(reg_y);
            let val: u16 = (x as u16) + (y as u16);
            // a sum of more than eight bits sets the flag
            if val > 255 {
                chip.registers.set_value(0xF, 1);
            } else {
                chip.registers.set_value(0xF, 0);
            }
            chip.registers.set_value(reg_x, (val % 256) as u8);
            Ok(ExecuteRes::SetPc(new_pc))
        },
        Instruction::Sub(reg_x, reg_y) => {
            let mut x: u16 = chip.registers.get_value(reg_x) as u16;
            let y: u16 = chip.registers.get_value(reg_y) as u16;
            // the flag is set where nothing is borrowed
            if x >= y {
                chip.registers.set_value(0xF, 1);
            } else {
                chip.registers.set_value(0xF, 0);
                x += 256;
            }
            let val: u16 = x - y;
            chip.registers.set_value(reg_x, val as u8);
            Ok(ExecuteRes::SetPc(new_pc))
        },
        Instruction::ShiftRight(reg_x, _) => {
            let x: u8 = chip.registers.get_value(reg_x);
            assert(x & 1 == x % 2) by (bit_vector);
            assert(x >> 1 == x / 2) by (bit_vector);
            chip.registers.set_value(0xF, x & 1);
            chip.registers.set_value(reg_x, x >> 1);
            Ok(ExecuteRes::SetPc(new_pc))
        },
        Instruction::SubN(reg_x, reg_y) => {
            let x: u16 = chip.registers.get_value(reg_x) as u16;
            let mut y: u16 = chip.registers.get_value(reg_y) as u16;
            // the flag is set where nothing is borrowed
            if y >= x {
                chip.registers.set_value(0xF, 1);
            } else {
                chip.registers.set_value(0xF, 0);
                y += 256;
            }
            let val: u16 = y - x;
            chip.registers.set_value(reg_x, val as u8);
            Ok(ExecuteRes::SetPc(new_pc))
        },
        Instruction::ShiftLeft(reg_x, _) => {
            let x: u8 = chip.registers.get_value(reg_x);
            assert((x & 0x80) >> 7 == x / 128) by (bit_vector);
            assert(x << 1 == (x % 128) * 2) by (bit_vector);
            chip.registers.set_value(0xF, (x & 0x80) >> 7);
            chip.registers.set_value(reg_x, x << 1);
            Ok(ExecuteRes::SetPc(new_pc))
        },
        // no other instruction is handed to this function
        _ => unreached(),
    }
}

/// Composites the sprite of `n` rows that stands in memory at the index
/// register onto the pixel plane, at the position that registers `reg_x` and
/// `reg_y` hold, and sets the flag register where a pixel went off.
fn draw(chip: &mut Chip8, redraw: &mut bool, reg_x: u8, reg_y: u8, n: u8) -> (r: Result<
    ExecuteRes,
    Fault,
>)
    requires
        old(chip).well_formed(),
        old(chip)@.can_advance(),
        reg_x < 16,
        reg_y < 16,
        n < 16,
    ensures
        carried_out(
            old(chip)@,
            Instruction::Draw(reg_x, reg_y, n),
            0,
            final(chip)@,
            r,
            *old(redraw),
            *final(redraw),
        ),
        final(chip).well_formed(),
{
    let ghost m = chip@;
    proof {
        chip.lemma_model();
    }
    let start: usize = chip.registers.get_i() as usize;
    if n > 0 && start + n as usize > 4096 {
        return Err(Fault::OutOfBounds);
    }
    let x: usize = chip.registers.get_value(reg_x) as usize;
    let y: usize = chip.registers.get_value(reg_y) as usize;
    let mut sprite = Sprite { data: [0; 15], length: n, x, y };
    let mut i: usize = 0;
    while i < n as usize
        invariant
            i <= n < 16,
            n > 0 ==> start + n <= 4096,
            sprite.length == n,
            sprite.x == x,
            sprite.y == y,
            forall|k: int| 0 <= k < i ==> sprite.data@[k] == chip.memory@[start + k],
        decreases n - i,
    {
        sprite.data[i] = chip.memory[start + i];
        i += 1;
    }
    assert(sprite@.rows =~= m.sprite(reg_x as int, reg_y as int, n as int).rows);
    *redraw = true;
    let vf: u8 = chip.display.draw_sprite(&sprite);
    chip.registers.set_value(0xF, vf);
    Ok(ExecuteRes::SetPc(chip.pc + 2))
}

/// Writes the hundreds, tens and ones of register `reg_x` to the three bytes
/// of memory at the index register.
fn decimal(chip: &mut Chip8, reg_x: u8) -> (r: Result<ExecuteRes, Fault>)
    requires
        old(chip).well_formed(),
        old(chip)@.can_advance(),
        reg_x < 16,
    ensures
        carried_out(old(chip)@, Instruction::BCD(reg_x), 0, final(chip)@, r, false, false),
        final(chip).well_formed(),
{
    let ghost m = chip@;
    proof {
        chip.lemma_model();
    }
    let addr: usize = chip.registers.get_i() as usize;
    if addr + 2 > 4095 {
        return Err(Fault::OutOfBounds);
    }
    let x: u8 = chip.registers.get_value(reg_x);
    let i_0: u8 = x / 100;
    let i_1: u8 = (x % 100) / 10;
    let i_2: u8 = x % 10;
    chip.memory[addr] = i_0;
    chip.memory[addr + 1] = i_1;
    chip.memory[addr + 2] = i_2;
    assert(chip.memory@ =~= m.memory.update(addr as int, x / 100).update(
        addr + 1,
        (x % 100) / 10,
    ).update(addr + 2, x % 10));
    Ok(ExecuteRes::SetPc(chip.pc + 2))
}

/// Writes registers 0 to `reg_x`, that one included, to memory at the index
/// register.
fn store(chip: &mut Chip8, reg_x: u8) -> (r: Result<ExecuteRes, Fault>)
    requires
        old(chip).well_formed(),
        old(chip)@.can_advance(),
        reg_x < 16,
    ensures
        carried_out(old(chip)@, Instruction::Store(reg_x), 0, final(chip)@, r, false, false),
        final(chip).well_formed(),
{
    let ghost m = chip@;
    proof {
        chip.lemma_model();
    }
    let addr: usize = chip.registers.get_i() as usize;
    if addr + reg_x as usize > 4095 {
        return Err(Fault::OutOfBounds);
    }
    let mut i: u8 = 0;
    assert(chip.memory@ =~= stored(m.memory, m.v, addr as int, 0));
    while i <= reg_x
        invariant
            i <= reg_x + 1,
            reg_x < 16,
            addr + reg_x <= 4095,
            m.well_formed(),
            chip.well_formed(),
            chip.memory@ == stored(m.memory, m.v, addr as int, i as int),
            chip@ == (Machine { memory: chip.memory@, ..m }),
        decreases reg_x + 1 - i,
    {
        let val: u8 = chip.registers.get_value(i);
        chip.memory[addr + i as usize] = val;
        i += 1;
        assert(chip.memory@ =~= stored(m.memory, m.v, addr as int, i as int));
    }
    Ok(ExecuteRes::SetPc(chip.pc + 2))
}

/// Reads registers 0 to `reg_x`, that one included, from memory at the index
/// register.
fn load(chip: &mut Chip8, reg_x: u8) -> (r: Result<ExecuteRes, Fault>)
    requires
        old(chip).well_formed(),
        old(chip)@.can_advance(),
        reg_x < 16,
    ensures
        carried_out(old(chip)@, Instruction::Load(reg_x), 0, final(chip)@, r, false, false),
        final(chip).well_formed(),
{
    let ghost m = chip@;
    proof {
        chip.lemma_model();
    }
    let addr: usize = chip.registers.get_i() as usize;
    if addr + reg_x as usize > 4095 {
        return Err(Fault::OutOfBounds);
    }
    let mut i: u8 = 0;
    assert(chip@.v =~= loaded(m.v, m.memory, addr as int, 0));
    while i <= reg_x
        invariant
            i <= reg_x + 1,
            reg_x < 16,
            addr + reg_x <= 4095,
            m.well_formed(),
            chip.well_formed(),
            chip@.v == loaded(m.v, m.memory, addr as int, i as int),
            chip@ == (Machine { v: chip@.v, ..m }),
        decreases reg_x + 1 - i,
    {
        let val: u8 = chip.memory[addr + i as usize];
        chip.registers.set_value(i, val);
        i += 1;
        assert(chip@.v =~= loaded(m.v, m.memory, addr as int, i as int));
    }
    Ok(ExecuteRes::SetPc(chip.pc + 2))
}

/// The instructions that clear the screen or move the program counter:
/// clear, return, jump, call and jump with offset.
fn control(instr: Instruction, chip: &mut Chip8, redraw: &mut bool) -> (r: Result<ExecuteRes, Fault>)
    requires
        old(chip).well_formed(),
        old(chip)@.can_advance(),
        instr.well_formed(),
        instr is Cls
            || instr is Ret
            || instr is Jump
            || instr is Call
            || instr is JumpOffset,
    ensures
        carried_out(old(chip)@, instr, 0, final(chip)@, r, *old(redraw), *final(redraw)),
        final(chip).well_formed(),
{
    proof {
        chip.lemma_model();
    }
    let mut new_pc: u16 = chip.pc + 2;
    match instr {
        Instruction::Cls => {
            *redraw = true;
            chip.display.clear();
            Ok(ExecuteRes::SetPc(new_pc))
        },
        Instruction::Ret => {
            if chip.sp == 0 {
                return Err(Fault::StackUnderflow);
            }
            chip.sp -= 1;
            new_pc = chip.stack[chip.sp as usize];
            Ok(ExecuteRes::SetPc(new_pc))
        },
        Instruction::Jump(addr) => {
            new_pc = addr;
            Ok(ExecuteRes::SetPc(new_pc))
        },
        Instruction::Call(addr) => {
            if chip.sp >= 16 {
                return Err(Fault::StackOverflow);
            }
            chip.stack[chip.sp as usize] = new_pc;
            chip.sp += 1;
            new_pc = addr;
            Ok(ExecuteRes::SetPc(new_pc))
        },
        Instruction::JumpOffset(addr) => {
            let v0: u16 = chip.registers.get_value(0) as u16;
            new_pc = v0 + addr;
            Ok(ExecuteRes::SetPc(new_pc))
        },
        // no other instruction is handed to this function
        _ => unreached(),
    }
}

/// The instructions that skip the next instruction where a condition holds.
fn branch(instr: Instruction, chip: &Chip8) -> (r: Result<ExecuteRes, Fault>)
    requires
        chip.well_formed(),
        chip@.can_advance(),
        instr.well_formed(),
        instr is SkipEqConst
            || instr is SkipNotEqConst
            || instr is SkipEqReg
            || instr is SkipNotEqReg
            || instr is SkipOnKeyPressed
            || instr is SkipKeyNotPressed,
    ensures
        carried_out(chip@, instr, 0, chip@, r, false, false),
{
    proof {
        chip.lemma_model();
    }
    let mut new_pc: u16 = chip.pc + 2;
    match instr {
        Instruction::SkipEqConst(reg, byte) => {
            let reg_val: u8 = chip.registers.get_value(reg);
            if reg_val == byte {
                new_pc += 2;
            }
            Ok(ExecuteRes::SetPc(new_pc))
        },
        Instruction::SkipNotEqConst(reg, byte) => {
            let reg_val: u8 = chip.registers.get_value(reg);
            if reg_val != byte {
                new_pc += 2;
            }
            Ok(ExecuteRes::SetPc(new_pc))
        },
        Instruction::SkipEqReg(reg_x, reg_y) => {
            let x_val: u8 = chip.registers.get_value(reg_x);
            let y_val: u8 = chip.registers.get_value(reg_y);
            if x_val == y_val {
                new_pc += 2;
            }
            Ok(ExecuteRes::SetPc(new_pc))
        },
        Instruction::SkipNotEqReg(reg_x, reg_y) => {
            let x: u8 = chip.registers.get_value(reg_x);
            let y: u8 = chip.registers.get_value(reg_y);
            if x != y {
                new_pc += 2;
            }
            Ok(ExecuteRes::SetPc(new_pc))
        },
        Instruction::SkipOnKeyPressed(reg_x) => {
            let x: u8 = chip.registers.get_value(reg_x);
            if chip.keyboard.key_pressed(x % 16) {
                new_pc += 2;
            }
            Ok(ExecuteRes::SetPc(new_pc))
        },
        Instruction::SkipKeyNotPressed(reg_x) => {
            let x: u8 = chip.registers.get_value(reg_x);
            if !chip.keyboard.key_pressed(x % 16) {
                new_pc += 2;
            }
            Ok(ExecuteRes::SetPc(new_pc))
        },
        // no other instruction is handed to this function
        _ => unreached(),
    }
}

/// The instructions that put a value into one register and touch no flag.
/// `rnd` is the byte that the random number generator hands out.
fn assign(instr: Instruction, chip: &mut Chip8, rnd: u8) -> (r: Result<ExecuteRes, Fault>)
    requires
        old(chip).well_formed(),
        old(chip)@.can_advance(),
        instr.well_formed(),
        instr is LoadConst
            || instr is AddConst
            || instr is LoadReg
            || instr is Or
            || instr is And
            || instr is Xor
            || instr is Rand
            || instr is LoadDelay
            || instr is WaitKeyPress,
    ensures
        carried_out(old(chip)@, instr, rnd, final(chip)@, r, false, false),
        final(chip).well_formed(),
{
    proof {
        chip.lemma_model();
    }
    let new_pc: u16 = chip.pc + 2;
    match instr {
        Instruction::LoadConst(reg, byte) => {
            chip.registers.set_value(reg, byte);
            Ok(ExecuteRes::SetPc(new_pc))
        },
        Instruction::AddConst(reg, byte) => {
            let cur: u8 = chip.registers.get_value(reg);
            let res: u8 = cur.wrapping_add(byte);
            chip.registers.set_value(reg, res);
            Ok(ExecuteRes::SetPc(new_pc))
        },
        Instruction::LoadReg(reg_x, reg_y) => {
            let y_val: u8 = chip.registers.get_value(reg_y);
            chip.registers.set_value(reg_x, y_val);
            Ok(ExecuteRes::SetPc(new_pc))
        },
        Instruction::Or(reg_x, reg_y) => {
            let or = |x: u8, y: u8| -> (r: u8)
                ensures
                    r == (x | y),
                {
                    let r: u8 = x | y;
                    r
                };
            chip.registers.bitwise(reg_x, reg_y, or);
            Ok(ExecuteRes::SetPc(new_pc))
        },
        Instruction::And(reg_x, reg_y) => {
            let and = |x: u8, y: u8| -> (r: u8)
                ensures
                    r == (x & y),
                {
                    let r: u8 = x & y;
                    r
                };
            chip.registers.bitwise(reg_x, reg_y, and);
            Ok(ExecuteRes::SetPc(new_pc))
        },
        Instruction::Xor(reg_x, reg_y) => {
            let xor = |x: u8, y: u8| -> (r: u8)
                ensures
                    r == (x ^ y),
                {
                    let r: u8 = x ^ y;
                    r
                };
            chip.registers.bitwise(reg_x, reg_y, xor);
            Ok(ExecuteRes::SetPc(new_pc))
        },
        Instruction::Rand(reg_x, data) => {
            let val: u8 = data & rnd;
            chip.registers.set_value(reg_x, val);
            Ok(ExecuteRes::SetPc(new_pc))
        },
        Instruction::LoadDelay(reg_x) => {
            let delay: u8 = chip.registers.get_delay();
            chip.registers.set_value(reg_x, delay);
            Ok(ExecuteRes::SetPc(new_pc))
        },
        Instruction::WaitKeyPress(reg_x) => match chip.keyboard.next_key() {
            None => Ok(ExecuteRes::Wait),
            Some(key) => {
                chip.registers.set_value(reg_x, key);
                Ok(ExecuteRes::SetPc(new_pc))
            },
        },
        // no other instruction is handed to this function
        _ => unreached(),
    }
}

/// The instructions that set the index register or a timer.
fn configure(instr: Instruction, chip: &mut Chip8) -> (r: Result<ExecuteRes, Fault>)
    requires
        old(chip).well_formed(),
        old(chip)@.can_advance(),
        instr.well_formed(),
        instr is LoadAddr
            || instr is SetDelay
            || instr is SetSound
            || instr is AddAddr
            || instr is SetSpriteAddr,
    ensures
        carried_out(old(chip)@, instr, 0, final(chip)@, r, false, false),
        final(chip).well_formed(),
{
    proof {
        chip.lemma_model();
    }
    let new_pc: u16 = chip.pc + 2;
    match instr {
        Instruction::LoadAddr(addr) => {
            chip.registers.set_i(addr);
            Ok(ExecuteRes::SetPc(new_pc))
        },
        Instruction::SetDelay(reg_x) => {
            let x: u8 = chip.registers.get_value(reg_x);
            chip.registers.set_delay(x);
            Ok(ExecuteRes::SetPc(new_pc))
        },
        Instruction::SetSound(reg_x) => {
            let x: u8 = chip.registers.get_value(reg_x);
            chip.registers.set_sound(x);
            Ok(ExecuteRes::SetPc(new_pc))
        },
        Instruction::AddAddr(reg_x) => {
            let x: u8 = chip.registers.get_value(reg_x);
            chip.registers.increment_i(x as u16);
            Ok(ExecuteRes::SetPc(new_pc))
        },
        Instruction::SetSpriteAddr(reg_x) => {
            let x: u8 = chip.registers.get_value(reg_x);
            chip.registers.set_i((x as u16) * 5);
            Ok(ExecuteRes::SetPc(new_pc))
        },
        // no other instruction is handed to this function
        _ => unreached(),
    }
}

/// Executes `instr` on the machine, with `rnd` as the byte that the random
/// number generator hands out. The program counter is left as it is: the
/// result says where execution goes on. `redraw` is set where the instruction
/// writes to the pixel plane.
pub fn execute_with(instr: Instruction, chip: &mut Chip8, redraw: &mut bool, rnd: u8) -> (r: Result<
    ExecuteRes,
    Fault,
>)
    requires
        old(chip).well_formed(),
        old(chip)@.can_advance(),
        instr.well_formed(),
    ensures
        carried_out(old(chip)@, instr, rnd, final(chip)@, r, *old(redraw), *final(redraw)),
        final(chip).well_formed(),
{
    match instr {
        Instruction::Cls
        | Instruction::Ret
        | Instruction::Jump(_)
        | Instruction::Call(_)
        | Instruction::JumpOffset(_) => control(instr, chip, redraw),
        Instruction::SkipEqConst(_, _)
        | Instruction::SkipNotEqConst(_, _)
        | Instruction::SkipEqReg(_, _)
        | Instruction::SkipNotEqReg(_, _)
        | Instruction::SkipOnKeyPressed(_)
        | Instruction::SkipKeyNotPressed(_) => branch(instr, chip),
        Instruction::LoadConst(_, _)
        | Instruction::AddConst(_, _)
        | Instruction::LoadReg(_, _)
        | Instruction::Or(_, _)
        | Instruction::And(_, _)
        | Instruction::Xor(_, _)
        | Instruction::Rand(_, _)
        | Instruction::LoadDelay(_)
        | Instruction::WaitKeyPress(_) => assign(instr, chip, rnd),
        Instruction::Add(_, _)
        | Instruction::Sub(_, _)
        | Instruction::ShiftRight(_, _)
        | Instruction::SubN(_, _)
        | Instruction::ShiftLeft(_, _) => arithmetic(instr, chip),
        Instruction::LoadAddr(_)
        | Instruction::SetDelay(_)
        | Instruction::SetSound(_)
        | Instruction::AddAddr(_)
        | Instruction::SetSpriteAddr(_) => configure(instr, chip),
        Instruction::Draw(reg_x, reg_y, n) => draw(chip, redraw, reg_x, reg_y, n),
        Instruction::BCD(reg_x) => decimal(chip, reg_x),
        Instruction::Store(reg_x) => store(chip, reg_x),
        Instruction::Load(reg_x) => load(chip, reg_x),
    }
}

/// One byte from the thread-local generator of the `rand` crate: the call
/// `rand::thread_rng()` followed by `Rng::gen_range` over `0..=255`, which
/// for a range that spans the whole type hands on whatever byte the generator
/// gives. Nothing is claimed of the byte, so callers are proved for every
/// value of it.
#[verifier::external_body]
fn random_byte() -> (byte: u8) {
    let mut rng = rand::thread_rng();
    rng.gen_range(0..=255)
}

/// Executes `instr` on the machine, drawing a byte from the random number
/// generator where the instruction asks for one. What the machine does is
/// what `execute_with` does for the byte that was drawn.
pub fn execute(instr: Instruction, chip: &mut Chip8, redraw: &mut bool) -> (r: Result<
    ExecuteRes,
    Fault,
>)
    requires
        old(chip).well_formed(),
        old(chip)@.can_advance(),
        instr.well_formed(),
    ensures
        exists|rnd: u8|
            carried_out(old(chip)@, instr, rnd, final(chip)@, r, *old(redraw), *final(redraw)),
        final(chip).well_formed(),
{
    let rnd: u8 = match instr {
        Instruction::Rand(_, _) => random_byte(),
        _ => 0,
    };
    let r = execute_with(instr, chip, redraw, rnd);
    assert(carried_out(old(chip)@, instr, rnd, chip@, r, *old(redraw), *redraw));
    r
}

/// Reads and decodes the instruction at the program counter.
pub fn fetch(chip: &Chip8) -> (r: Result<Instruction, Fault>)
    ensures
        r == fetched(chip@),
        r matches Ok(instr) ==> instr.well_formed(),
{
    if chip.pc >= 4094 {
        return Err(Fault::OutOfBounds);
    }
    let upper: u8 = chip.memory[chip.pc as usize];
    let lower: u8 = chip.memory[(chip.pc + 1) as usize];
    match parse(upper, lower) {
        Ok(instr) => Ok(instr),
        Err(e) => Err(Fault::Decode { upper: e.upper, lower: e.lower, pc: chip.pc }),
    }
}

/// One cycle of the machine: the instruction at the program counter is
/// fetched, decoded and executed, and the program counter moves where the
/// instruction says. An instruction that waits for a key leaves the program
/// counter in place, so that the next cycle executes it again.
pub fn cycle(chip: &mut Chip8) -> (r: Result<Step, Fault>)
    requires
        old(chip).well_formed(),
    ensures
        exists|rnd: u8| cycled(old(chip)@, rnd, final(chip)@, r),
        final(chip).well_formed(),
{
    let instr = match fetch(chip) {
        Ok(instr) => instr,
        Err(fault) => {
            assert(cycled(chip@, 0, chip@, Err(fault)));
            return Err(fault);
        },
    };
    let mut redraw = false;
    let res = execute(instr, chip, &mut redraw);
    let ghost rnd = choose|rnd: u8| carried_out(old(chip)@, instr, rnd, chip@, res, false, redraw);
    let r = match res {
        Ok(ExecuteRes::SetPc(addr)) => {
            chip.pc = addr;
            Ok(Step { res: ExecuteRes::SetPc(addr), redraw })
        },
        Ok(ExecuteRes::Wait) => Ok(Step { res: ExecuteRes::Wait, redraw }),
        Err(fault) => Err(fault),
    };
    assert(cycled(old(chip)@, rnd, chip@, r));
    r
}

/// Adding two registers splits the sum into its low eight bits, which the
/// destination takes, and the carry, which the flag register takes. This
/// holds unless the flag register is itself the destination: it then holds
/// the low eight bits.
pub proof fn lemma_add_carries(m: Machine, x: u8, y: u8, rnd: u8)
    requires
        m.well_formed(),
        x < 15,
        y < 16,
    ensures
        executed(m, Instruction::Add(x, y), rnd) matches Ok(e) && {
            &&& e.machine.v[x as int] + 256 * e.machine.v[15] == m.v[x as int] + m.v[y as int]
            &&& e.machine.v[15] <= 1
        },
{
}

/// Adding 200 to 200 leaves 0x90 in the destination and 1 in the flag
/// register, whichever registers hold the two numbers, unless the flag
/// register is itself the destination.
pub proof fn lemma_add_overflows(m: Machine, x: u8, y: u8, rnd: u8)
    requires
        m.well_formed(),
        x < 15,
        y < 16,
        m.v[x as int] == 200,
        m.v[y as int] == 200,
    ensures
        executed(m, Instruction::Add(x, y), rnd) matches Ok(e) && e.machine.v[x as int] == 0x90
            && e.machine.v[15] == 1,
{
}

/// Subtracting a larger register from a smaller one borrows: the destination
/// takes the difference plus 256, and the flag register takes 0. Where nothing
/// is borrowed the destination takes the difference and the flag register 1.
/// This holds unless the flag register is itself the destination.
pub proof fn lemma_sub_borrows(m: Machine, x: u8, y: u8, rnd: u8)
    requires
        m.well_formed(),
        x < 15,
        y < 16,
    ensures
        executed(m, Instruction::Sub(x, y), rnd) matches Ok(e) && {
            &&& e.machine.v[15] == flag(m.v[x as int] >= m.v[y as int])
            &&& e.machine.v[x as int] == m.v[x as int] - m.v[y as int] + 256 * (1
                - e.machine.v[15])
        },
{
}

/// Shifting a register right sets the flag register to 1 where the register
/// held an odd value and to 0 where it held an even one, unless the flag
/// register is itself the register that is shifted.
pub proof fn lemma_shift_right_flag(m: Machine, x: u8, y: u8, rnd: u8)
    requires
        m.well_formed(),
        x < 15,
    ensures
        executed(m, Instruction::ShiftRight(x, y), rnd) matches Ok(e) && e.machine.v[15] == flag(
            m.v[x as int] % 2 == 1,
        ) && e.machine.v[x as int] == m.v[x as int] / 2,
{
}

/// A call followed by a return goes on behind the call and leaves the depth
/// of the stack as it was.
pub proof fn lemma_call_returns(m: Machine, addr: u16, rnd: u8)
    requires
        m.well_formed(),
        m.sp < 16,
    ensures
        executed(m, Instruction::Call(addr), rnd) matches Ok(called) && executed(
            landed(called.machine, called.res),
            Instruction::Ret,
            rnd,
        ) matches Ok(returned) && {
            &&& called.res == ExecuteRes::SetPc(addr)
            &&& called.machine.sp == m.sp + 1
            &&& returned.res == ExecuteRes::SetPc(m.next())
            &&& returned.machine.sp == m.sp
        },
{
}

/// Drawing the same sprite twice restores the pixel plane. Where none of the
/// pixels that the sprite lights was on, the first draw leaves 0 in the flag
/// register, and the second leaves 1 if the sprite has any set pixel. The
/// position must not be read from the flag register, which the first draw
/// overwrites.
pub proof fn lemma_draw_twice(m: Machine, x: u8, y: u8, n: u8, rnd: u8)
    requires
        m.well_formed(),
        x < 15,
        y < 15,
        n < 16,
        m.i + n <= 4096,
    ensures
        executed(m, Instruction::Draw(x, y, n), rnd) matches Ok(first) && executed(
            first.machine,
            Instruction::Draw(x, y, n),
            rnd,
        ) matches Ok(second) && {
            let sprite = m.sprite(x as int, y as int, n as int);
            &&& second.machine.pixels == m.pixels
            &&& !collides(m.pixels, sprite) ==> first.machine.v[15] == 0 && second.machine.v[15]
                == flag(has_ink(sprite))
        },
{
    let sprite = m.sprite(x as int, y as int, n as int);
    let first = executed(m, Instruction::Draw(x, y, n), rnd).unwrap();
    assert(first.machine.sprite(x as int, y as int, n as int).rows =~= sprite.rows);
    assert(first.machine.sprite(x as int, y as int, n as int) == sprite);
    lemma_blit_twice(m.pixels, sprite);
    if !collides(m.pixels, sprite) {
        lemma_redraw_collides(m.pixels, sprite);
    }
}

/// Storing registers 0 to `x` and loading them again from the same address
/// restores them, whatever the registers held in between.
pub proof fn lemma_store_load(m: Machine, between: Seq<u8>, x: u8, rnd: u8)
    requires
        m.well_formed(),
        between.len() == 16,
        x < 16,
        m.i + x <= 4095,
    ensures
        executed(m, Instruction::Store(x), rnd) matches Ok(saved) && executed(
            Machine { v: between, ..saved.machine },
            Instruction::Load(x),
            rnd,
        ) matches Ok(restored) && {
            &&& forall|k: int| 0 <= k <= x ==> restored.machine.v[k] == m.v[k]
            &&& forall|k: int| x < k < 16 ==> restored.machine.v[k] == between[k]
            &&& restored.machine.v.len() == 16
        },
{
}

/// While no key is down, a cycle at an instruction that waits for a key
/// changes nothing in the machine, the program counter included, so that any
/// number of cycles leaves the machine where it is.
pub proof fn lemma_wait_blocks(m: Machine, x: u8, rnd: u8)
    requires
        m.well_formed(),
        fetched(m) == Ok::<Instruction, Fault>(Instruction::WaitKeyPress(x)),
        none_pressed(m.keys),
    ensures
        stepped(m, rnd) == Ok::<Effect, Fault>(
            Effect { machine: m, res: ExecuteRes::Wait, redraw: false },
        ),
{
}

/// Once a key is down, a cycle at an instruction that waits for a key puts the
/// lowest key that is down into the register and moves the program counter on
/// by two.
pub proof fn lemma_wait_resumes(m: Machine, x: u8, key: u8, rnd: u8)
    requires
        m.well_formed(),
        fetched(m) == Ok::<Instruction, Fault>(Instruction::WaitKeyPress(x)),
        is_first_pressed(m.keys, key as int),
    ensures
        stepped(m, rnd) == Ok::<Effect, Fault>(
            Effect {
                machine: Machine { pc: (m.pc + 2) as u16, ..m.with_v(x as int, key) },
                res: ExecuteRes::SetPc((m.pc + 2) as u16),
                redraw: false,
            },
        ),
{
    lemma_first_pressed_unique(m.keys, key);
}

} // verus!
