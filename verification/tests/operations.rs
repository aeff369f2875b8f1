use sillyverse::hardware::operations::{get_true_address, Address};
use sillyverse::hardware::Hardware;

/// Tests address type one.
#[test]
fn get_memory_type_one() {
    let hardware = Hardware::new(1);

    let address = get_true_address(&hardware, 0b0000_0000u8).unwrap();
    match address {
        Address::Register(register_number) => assert_eq!(register_number, 0),
        _ => assert!(false),
    }

    let address = get_true_address(&hardware, 0b0000_0101u8).unwrap();
    match address {
        Address::Register(register_number) => assert_eq!(register_number, 5),
        _ => assert!(false),
    }

    let address = get_true_address(&hardware, 0b0000_0111u8).unwrap();
    match address {
        Address::Register(register_number) => assert_eq!(register_number, 7),
        _ => assert!(false),
    }

    // Bad register address.
    let address = get_true_address(&hardware, 0b0000_1000u8);
    assert_eq!(address.is_err(), true);
}

/// Tests address type two.
#[test]
fn get_address_type_two() {
    let mut hardware = Hardware::new(10);

    hardware.set_register(0, 0);
    hardware.set_register(5, 3);
    hardware.set_register(7, 9);

    let address = get_true_address(&hardware, 0b0001_0000u8).unwrap();
    match address {
        Address::Memory(memory_address) => assert_eq!(memory_address, 0),
        _ => assert!(false),
    }

    let address = get_true_address(&hardware, 0b0001_0101u8).unwrap();
    match address {
        Address::Memory(memory_address) => assert_eq!(memory_address, 3),
        _ => assert!(false),
    }

    let address = get_true_address(&hardware, 0b0001_0111u8).unwrap();
    match address {
        Address::Memory(memory_address) => assert_eq!(memory_address, 9),
        _ => assert!(false),
    }

    // Bad address.
    hardware.set_register(1, 14);
    let address = get_true_address(&hardware, 0b0001_0001u8);
    assert_eq!(address.is_err(), true);
}

/// Tests address type three.
#[test]
fn get_address_type_three() {
    let mut hardware = Hardware::new(1);

    hardware.set_program_counter(9);
    hardware.set_register(2, 7);
    let address = get_true_address(&hardware, 0b0010_0010u8).unwrap();
    match address {
        Address::RegisterPlusPC(memory_address) => assert_eq!(memory_address, 16),
        _ => assert!(false),
    }

    hardware.set_program_counter(0);
    hardware.set_register(1, 18);
    let address = get_true_address(&hardware, 0b0010_0001u8).unwrap();
    match address {
        Address::RegisterPlusPC(memory_address) => assert_eq!(memory_address, 18),
        _ => assert!(false),
    }

    hardware.set_program_counter(12);
    hardware.set_register(3, 0);
    let address = get_true_address(&hardware, 0b0010_0011u8).unwrap();
    match address {
        Address::RegisterPlusPC(memory_address) => assert_eq!(memory_address, 12),
        _ => assert!(false),
    }

    // Saturating add
    hardware.set_program_counter(65000);
    hardware.set_register(6, 17000);
    let address = get_true_address(&hardware, 0b0010_0110u8).unwrap();
    match address {
        Address::RegisterPlusPC(memory_address) => assert_eq!(memory_address, 65535u16),
        _ => assert!(false),
    }
}

/// Tests address type four.
#[test]
fn get_address_type_four() {
    let mut hardware = Hardware::new(20);

    hardware.set_program_counter(9);
    hardware.set_register(2, 7);
    let address = get_true_address(&hardware, 0b0011_0010u8).unwrap();
    match address {
        Address::Memory(memory_address) => assert_eq!(memory_address, 16),
        _ => assert!(false),
    }

    hardware.set_program_counter(0);
    hardware.set_register(1, 18);
    let address = get_true_address(&hardware, 0b0011_0001u8).unwrap();
    match address {
        Address::Memory(memory_address) => assert_eq!(memory_address, 18),
        _ => assert!(false),
    }

    hardware.set_program_counter(12);
    hardware.set_register(3, 0);
    let address = get_true_address(&hardware, 0b0011_0011u8).unwrap();
    match address {
        Address::Memory(memory_address) => assert_eq!(memory_address, 12),
        _ => assert!(false),
    }

    // Overflow
    hardware.set_program_counter(65000);
    hardware.set_register(6, 17000);
    let address = get_true_address(&hardware, 0b0011_0110u8);
    assert_eq!(address.is_err(), true);

    // Out of memory.
    hardware.set_program_counter(11);
    hardware.set_register(0, 10);
    let address = get_true_address(&hardware, 0b0011_0000u8);
    assert_eq!(address.is_err(), true);
}
