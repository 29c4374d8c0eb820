use chip8::registers::Registers;

#[test]
fn new_registers_are_zero() {
    let registers = Registers::new();
    for reg in 0..16 {
        assert_eq!(registers.get_value(reg), 0);
    }
    assert_eq!(registers.get_i(), 0);
    assert_eq!(registers.get_delay(), 0);
    assert_eq!(registers.get_sound(), 0);
}

#[test]
fn set_value_changes_one_register() {
    let mut registers = Registers::new();
    registers.set_value(3, 0x42);
    registers.set_value(15, 0xFF);
    for reg in 0..16 {
        let expected = match reg {
            3 => 0x42,
            15 => 0xFF,
            _ => 0,
        };
        assert_eq!(registers.get_value(reg), expected);
    }
}

#[test]
fn index_register_is_set_and_incremented() {
    let mut registers = Registers::new();
    registers.set_i(0x123);
    assert_eq!(registers.get_i(), 0x123);
    registers.increment_i(0x10);
    assert_eq!(registers.get_i(), 0x133);
}

#[test]
fn index_register_wraps_at_sixteen_bits() {
    let mut registers = Registers::new();
    registers.set_i(0xFFFF);
    registers.increment_i(2);
    assert_eq!(registers.get_i(), 1);
}

#[test]
fn timers_count_down_and_stop_at_zero() {
    let mut registers = Registers::new();
    registers.set_delay(2);
    registers.set_sound(1);
    registers.tick();
    assert_eq!(registers.get_delay(), 1);
    assert_eq!(registers.get_sound(), 0);
    registers.tick();
    assert_eq!(registers.get_delay(), 0);
    assert_eq!(registers.get_sound(), 0);
    registers.tick();
    assert_eq!(registers.get_delay(), 0);
    registers.set_sound(255);
    registers.tick();
    assert_eq!(registers.get_sound(), 254);
    assert_eq!(registers.get_delay(), 0);
}

#[test]
fn bitwise_combines_two_registers_into_the_first() {
    let mut registers = Registers::new();
    registers.set_value(1, 0b1100);
    registers.set_value(2, 0b1010);
    registers.bitwise(1, 2, |x, y| x | y);
    assert_eq!(registers.get_value(1), 0b1110);
    assert_eq!(registers.get_value(2), 0b1010);
    registers.bitwise(1, 2, |x, y| x & y);
    assert_eq!(registers.get_value(1), 0b1010);
    registers.bitwise(1, 2, |x, y| x ^ y);
    assert_eq!(registers.get_value(1), 0);
}

#[test]
fn clone_keeps_every_register() {
    let mut registers = Registers::new();
    registers.set_value(7, 9);
    registers.set_i(0x200);
    registers.set_delay(5);
    let copy = registers.clone();
    assert_eq!(copy.get_value(7), 9);
    assert_eq!(copy.get_i(), 0x200);
    assert_eq!(copy.get_delay(), 5);
}
