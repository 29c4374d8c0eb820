//! The sixteen-key keypad: which keys are down, and which key of the host
//! keyboard stands for which key of the pad.

use vstd::prelude::*;

verus! {

/// A key of the host keyboard, as far as the keypad tells keys apart: the ten
/// digits of the numeric pad, the letters A to F, and any other key.
#[derive(Clone, Copy, Debug, PartialEq, Eq, Structural)]
pub enum Keycode {
    Kp0,
    Kp1,
    Kp2,
    Kp3,
    Kp4,
    Kp5,
    Kp6,
    Kp7,
    Kp8,
    Kp9,
    A,
    B,
    C,
    D,
    E,
    F,
    Other,
}

/// The key of the pad that a host key stands for, if any.
pub open spec fn key_of(code: Keycode) -> Option<u8> {
    match code {
        Keycode::Kp0 => Some(0u8),
        Keycode::Kp1 => Some(1u8),
        Keycode::Kp2 => Some(2u8),
        Keycode::Kp3 => Some(3u8),
        Keycode::Kp4 => Some(4u8),
        Keycode::Kp5 => Some(5u8),
        Keycode::Kp6 => Some(6u8),
        Keycode::Kp7 => Some(7u8),
        Keycode::Kp8 => Some(8u8),
        Keycode::Kp9 => Some(9u8),
        Keycode::A => Some(10u8),
        Keycode::B => Some(11u8),
        Keycode::C => Some(12u8),
        Keycode::D => Some(13u8),
        Keycode::E => Some(14u8),
        Keycode::F => Some(15u8),
        Keycode::Other => None,
    }
}

/// Whether `k` is the lowest key that is down.
pub open spec fn is_first_pressed(keys: Seq<bool>, k: int) -> bool {
    &&& 0 <= k < keys.len()
    &&& keys[k]
    &&& forall|j: int| 0 <= j < k ==> !keys[j]
}

/// Whether no key is down.
pub open spec fn none_pressed(keys: Seq<bool>) -> bool {
    forall|j: int| 0 <= j < keys.len() ==> !keys[j]
}

/// The lowest key that is down, if any key is.
pub open spec fn first_pressed(keys: Seq<bool>) -> Option<u8> {
    if none_pressed(keys) {
        None
    } else {
        Some(choose|k: u8| is_first_pressed(keys, k as int))
    }
}

/// `first_pressed` is `None` exactly when no key is down, and otherwise names
/// the lowest key that is down.
pub proof fn lemma_first_pressed(keys: Seq<bool>)
    requires
        keys.len() == 16,
    ensures
        match first_pressed(keys) {
            Some(k) => is_first_pressed(keys, k as int),
            None => none_pressed(keys),
        },
{
    if !none_pressed(keys) {
        let k = lowest_from(keys, 0);
        assert(is_first_pressed(keys, k as int));
    }
}

/// A key is the lowest one down only if `first_pressed` names it.
pub proof fn lemma_first_pressed_unique(keys: Seq<bool>, k: u8)
    requires
        keys.len() == 16,
        is_first_pressed(keys, k as int),
    ensures
        first_pressed(keys) == Some(k),
{
    lemma_first_pressed(keys);
    assert(keys[k as int]);
    let f = first_pressed(keys).unwrap();
    if f < k {
        assert(!keys[f as int]);
    }
    if k < f {
        assert(!keys[k as int]);
    }
}

proof fn lowest_from(keys: Seq<bool>, from: u8) -> (k: u8)
    requires
        keys.len() == 16,
        from <= 16,
        forall|j: int| 0 <= j < from ==> !keys[j],
        !none_pressed(keys),
    ensures
        is_first_pressed(keys, k as int),
    decreases 16 - from,
{
    if from == 16 {
        assert(none_pressed(keys));
        0
    } else if keys[from as int] {
        from
    } else {
        lowest_from(keys, (from + 1) as u8)
    }
}

pub struct Keyboard {
    data: [bool; 16],
}

impl View for Keyboard {
    type V = Seq<bool>;

    /// For each of the sixteen keys, whether it is down.
    closed spec fn view(&self) -> Seq<bool> {
        self.data@
    }
}

impl Keyboard {
    /// Every keypad has exactly sixteen keys.
    pub proof fn lemma_sixteen(&self)
        ensures
            self@.len() == 16,
    {
    }

    pub fn new() -> (r: Self)
        ensures
            r@ == Seq::new(16, |k: int| false),
    {
        let r = Self { data: [false; 16] };
        assert(r@ =~= Seq::new(16, |k: int| false));
        r
    }

    #[inline]
    pub fn key_pressed(&self, key: u8) -> (r: bool)
        requires
            key < 16,
        ensures
            r == self@[key as int],
    {
        self.data[key as usize]
    }

    /// The lowest key that is down, if any key is.
    pub fn next_key(&self) -> (r: Option<u8>)
        ensures
            r == first_pressed(self@),
    {
        let mut i: u8 = 0;
        while i < 16
            invariant
                i <= 16,
                forall|j: int| 0 <= j < i ==> !self@[j],
            decreases 16 - i,
        {
            if self.data[i as usize] {
                proof {
                    lemma_first_pressed_unique(self@, i);
                }
                return Some(i);
            }
            i += 1;
        }
        assert(none_pressed(self@));
        None
    }

    /// Records that key `key` of the pad went down or came up.
    pub fn set_key(&mut self, key: u8, down: bool)
        requires
            key < 16,
        ensures
            final(self)@ == old(self)@.update(key as int, down),
    {
        self.data[key as usize] = down;
        assert(self@ =~= old(self)@.update(key as int, down));
    }

    /// The key of the pad that a host key stands for, if any.
    pub fn key_index(code: Keycode) -> (r: Option<u8>)
        ensures
            r == key_of(code),
            r matches Some(k) ==> k < 16,
    {
        match code {
            Keycode::Kp0 => Some(0),
            Keycode::Kp1 => Some(1),
            Keycode::Kp2 => Some(2),
            Keycode::Kp3 => Some(3),
            Keycode::Kp4 => Some(4),
            Keycode::Kp5 => Some(5),
            Keycode::Kp6 => Some(6),
            Keycode::Kp7 => Some(7),
            Keycode::Kp8 => Some(8),
            Keycode::Kp9 => Some(9),
            Keycode::A => Some(10),
            Keycode::B => Some(11),
            Keycode::C => Some(12),
            Keycode::D => Some(13),
            Keycode::E => Some(14),
            Keycode::F => Some(15),
            Keycode::Other => None,
        }
    }

    /// Records that a host key went down or came up. A host key that stands
    /// for no key of the pad changes nothing.
    pub fn check_key(&mut self, code: Keycode, down: bool)
        ensures
            final(self)@ == match key_of(code) {
                Some(k) => old(self)@.update(k as int, down),
                None => old(self)@,
            },
    {
        match Self::key_index(code) {
            Some(k) => self.set_key(k, down),
            None => {},
        }
    }
}

} // verus!
