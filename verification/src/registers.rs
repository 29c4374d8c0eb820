//! The register file: sixteen 8-bit registers, the 16-bit index register and
//! the delay and sound timers.

use vstd::prelude::*;

verus! {

/// Mathematical model of the register file.
pub struct RegistersView {
    /// The sixteen general registers, `v[15]` doubling as the flag register.
    pub v: Seq<u8>,
    /// The index register.
    pub i: u16,
    /// The delay timer.
    pub delay: u8,
    /// The sound timer.
    pub sound: u8,
}

/// What one timer holds after a 60 Hz tick: it counts down and stops at zero.
pub open spec fn ticked(t: u8) -> u8 {
    if t == 0 {
        0u8
    } else {
        (t - 1) as u8
    }
}

#[derive(Clone)]
pub struct Registers {
    i: u16,  // only the lower 12 bits address memory
    delay: u8,
    sound: u8,
    registers: [u8; 16],
}

impl View for Registers {
    type V = RegistersView;

    closed spec fn view(&self) -> RegistersView {
        RegistersView { v: self.registers@, i: self.i, delay: self.delay, sound: self.sound }
    }
}

impl Registers {
    /// Every register file holds exactly sixteen general registers.
    pub proof fn lemma_sixteen(&self)
        ensures
            self@.v.len() == 16,
    {
    }

    pub fn new() -> (r: Self)
        ensures
            r@ == (RegistersView { v: Seq::new(16, |k: int| 0u8), i: 0, delay: 0, sound: 0 }),
    {
        let r = Self { i: 0, sound: 0, delay: 0, registers: [0; 16] };
        assert(r@.v =~= Seq::new(16, |k: int| 0u8));
        r
    }

    #[inline]
    pub fn set_i(&mut self, addr: u16)
        ensures
            final(self)@ == (RegistersView { i: addr, ..old(self)@ }),
    {
        self.i = addr;
    }

    /// Adds `val` to the index register, wrapping at 16 bits and touching no flag.
    #[inline]
    pub fn increment_i(&mut self, val: u16)
        ensures
            final(self)@ == (RegistersView {
                i: ((old(self)@.i + val) % 0x1_0000) as u16,
                ..old(self)@
            }),
    {
        self.i = self.i.wrapping_add(val);
    }

    #[inline]
    pub fn get_i(&self) -> (r: u16)
        ensures
            r == self@.i,
    {
        self.i
    }

    #[inline]
    pub fn get_value(&self, reg: u8) -> (r: u8)
        requires
            reg < 16,
        ensures
            r == self@.v[reg as int],
    {
        self.registers[reg as usize]
    }

    #[inline]
    pub fn set_value(&mut self, reg: u8, val: u8)
        requires
            reg < 16,
        ensures
            final(self)@ == (RegistersView { v: old(self)@.v.update(reg as int, val), ..old(self)@ }),
    {
        self.registers[reg as usize] = val;
        assert(self@.v =~= old(self)@.v.update(reg as int, val));
    }

    #[inline]
    pub fn get_delay(&self) -> (r: u8)
        ensures
            r == self@.delay,
    {
        self.delay
    }

    #[inline]
    pub fn set_delay(&mut self, val: u8)
        ensures
            final(self)@ == (RegistersView { delay: val, ..old(self)@ }),
    {
        self.delay = val;
    }

    #[inline]
    pub fn get_sound(&self) -> (r: u8)
        ensures
            r == self@.sound,
    {
        self.sound
    }

    #[inline]
    pub fn set_sound(&mut self, val: u8)
        ensures
            final(self)@ == (RegistersView { sound: val, ..old(self)@ }),
    {
        self.sound = val;
    }

    /// One 60 Hz tick: each timer that is not yet zero counts down by one.
    pub fn tick(&mut self)
        ensures
            final(self)@ == (RegistersView {
                delay: ticked(old(self)@.delay),
                sound: ticked(old(self)@.sound),
                ..old(self)@
            }),
    {
        if self.delay > 0 {
            self.delay = self.delay - 1;
        }
        if self.sound > 0 {
            self.sound = self.sound - 1;
        }
    }

    /// Replaces register `reg_x` by `f` of registers `reg_x` and `reg_y`.
    pub fn bitwise<F: Fn(u8, u8) -> u8>(&mut self, reg_x: u8, reg_y: u8, f: F)
        requires
            reg_x < 16,
            reg_y < 16,
            call_requires(f, (old(self)@.v[reg_x as int], old(self)@.v[reg_y as int])),
        ensures
            call_ensures(
                f,
                (old(self)@.v[reg_x as int], old(self)@.v[reg_y as int]),
                final(self)@.v[reg_x as int],
            ),
            final(self)@ == (RegistersView {
                v: old(self)@.v.update(reg_x as int, final(self)@.v[reg_x as int]),
                ..old(self)@
            }),
    {
        let r_x: usize = reg_x as usize;
        let r_y: usize = reg_y as usize;
        let val: u8 = f(self.registers[r_x], self.registers[r_y]);
        self.registers[r_x] = val;
        assert(self@.v =~= old(self)@.v.update(reg_x as int, val));
    }
}

} // verus!
