use sillyverse::hardware::Hardware;
use sillyverse::{CPUState, SysCallback};

#[test]
fn mod_load() {
    let mut hardware = Hardware::new(12);

    let data = vec![128, 255, 0, 46, 72];

    hardware.load(&data, 7).expect("Failed to load data");

    assert_eq!(hardware.get_memory(0), 0);
    assert_eq!(hardware.get_memory(1), 0);
    assert_eq!(hardware.get_memory(2), 0);
    assert_eq!(hardware.get_memory(3), 0);
    assert_eq!(hardware.get_memory(4), 0);
    assert_eq!(hardware.get_memory(5), 0);
    assert_eq!(hardware.get_memory(6), 0);
    assert_eq!(hardware.get_memory(7), 128);
    assert_eq!(hardware.get_memory(8), 255);
    assert_eq!(hardware.get_memory(9), 0);
    assert_eq!(hardware.get_memory(10), 46);
    assert_eq!(hardware.get_memory(11), 72);

    let data_2 = vec![72, 0, 0, 1];
    hardware.load(&data_2, 6).expect("Could not load data_2");

    assert_eq!(hardware.get_memory(0), 0);
    assert_eq!(hardware.get_memory(1), 0);
    assert_eq!(hardware.get_memory(2), 0);
    assert_eq!(hardware.get_memory(3), 0);
    assert_eq!(hardware.get_memory(4), 0);
    assert_eq!(hardware.get_memory(5), 0);
    assert_eq!(hardware.get_memory(6), 72);
    assert_eq!(hardware.get_memory(7), 0);
    assert_eq!(hardware.get_memory(8), 0);
    assert_eq!(hardware.get_memory(9), 1);
    assert_eq!(hardware.get_memory(10), 46);
    assert_eq!(hardware.get_memory(11), 72);
}

#[test]
fn mod_load_out_of_memory() {
    let mut hardware = Hardware::new(1024);

    let data = vec![1, 2, 3, 4, 5];
    let load_result = hardware.load(&data, 1022);
    assert_eq!(load_result.is_err(), true);
}

#[test]
fn increase_memory() {
    let mut hardware = Hardware::new(3000);

    assert_eq!(hardware.get_memory_size(), 3000);

    let new_size = hardware.increase_memory(2500).unwrap();
    assert_eq!(hardware.get_memory_size(), 5500);
    assert_eq!(new_size, 5500);

    let new_size = hardware.increase_memory(1).unwrap();
    assert_eq!(hardware.get_memory_size(), 5501);
    assert_eq!(new_size, 5501);

    // Zero error.
    let result = hardware.increase_memory(0);
    assert_eq!(result.is_err(), true);

    // Too big memory error.
    let result = hardware.increase_memory(61000);
    assert_eq!(result.is_err(), true);
}

#[test]
fn mod_bad_program_counter() {
    let mut hardware = Hardware::new(2000);

    // Equal to size of memory.
    hardware.set_program_counter(2000);
    let clock_result = hardware.clock();
    assert_eq!(clock_result.is_err(), true);

    // Bigger than memory size.
    hardware.set_program_counter(2255);
    let clock_result = hardware.clock();
    assert_eq!(clock_result.is_err(), true);
}

#[test]
fn mod_instruction_nop() {
    let mut hardware = Hardware::new(3);

    let code = vec![0b0000000000000000u16, 0b0000000000000000u16];
    hardware.load(&code, 0).unwrap();

    assert_eq!(hardware.get_program_counter(), 0);

    hardware.clock().unwrap();

    assert_eq!(hardware.get_program_counter(), 1);
    // Nothing else should be changed.
    for i in 0..8 {
        assert_eq!(hardware.get_register(i), 0);
    }

    hardware.clock().unwrap();

    assert_eq!(hardware.get_program_counter(), 2);
    // Nothing else should be changed.
    for i in 0..8 {
        assert_eq!(hardware.get_register(i), 0);
    }
}

#[test]
fn instruction_jump() {
    // Testing all four types of addresses.

    let mut hardware = Hardware::new(11);

    let code = vec![
        0b0000_000001_000010u16, // register 2 is address 3
        0b0000000000000000u16,
        0b0000000000000000u16,
        0b0000_000001_010001u16, // register 1 points to address 7 in memory: 6
        0b0000000000000000u16,
        0b0000000000000000u16,
        0b0000_000001_100011u16, // register 3 (2) + PC (6) = 8 is address
        0b0000000000000000u16,
        0b0000_000001_110100u16, // Register 4 (2) + PC (8) = 10 points to address
        0b0000000000000110u16,   // 6
        0b0000000000000001u16,   // 1
    ];
    hardware.load(&code, 0).unwrap();

    hardware.set_register(2, 3);
    hardware.set_register(1, 9);
    hardware.set_register(3, 2);
    hardware.set_register(4, 2);

    assert_eq!(hardware.get_program_counter(), 0);

    hardware.clock().unwrap();
    assert_eq!(hardware.get_program_counter(), 3);

    hardware.clock().unwrap();
    assert_eq!(hardware.get_program_counter(), 6);

    hardware.clock().unwrap();
    assert_eq!(hardware.get_program_counter(), 8);

    hardware.clock().unwrap();
    assert_eq!(hardware.get_program_counter(), 1);
}

#[test]
fn instruction_skip_if_zero() {
    let mut hardware = Hardware::new(11);

    let code = vec![
        0b0000_000010_000000u16, // Register 0
        0b0000000000000000u16,
        0b0000_000010_010010u16, // Register 2 -> Memory 10
        0b0000_000010_110011u16, // Register 3 + PC -> Memory 9
        0b0000000000000000u16,
        0b0000_000010_100011u16, // Unsupported address type
        0b0000000000000000u16,
        0b0000000000000000u16,
        0b0000000000000100u16, // Non-zero
        0b0000000000000000u16, // Zero
        0b0000000000000100u16, // Non-zero
    ];
    hardware.load(&code, 0).unwrap();

    hardware.set_register(0, 0);
    hardware.clock().unwrap();
    assert_eq!(hardware.get_program_counter(), 2);

    hardware.set_register(2, 10);
    hardware.clock().unwrap();
    assert_eq!(hardware.get_program_counter(), 3);

    hardware.set_register(3, 6);
    hardware.clock().unwrap();
    assert_eq!(hardware.get_program_counter(), 5);

    let clock_result = hardware.clock();
    assert_eq!(clock_result.is_err(), true);
}

#[test]
fn instruction_copy() {
    let mut hardware = Hardware::new(19);

    // -> means "points", => means "copies"
    let code = vec![
        0b0001_000010_000111u16, // register two => seven
        0b0001_010011_000110u16, // Register 3 -> memory 9 => register six
        0b0001_010011_010100u16, // Register 3 -> memory 7 => Register 4 -> memory 12
        0b0001_110000_000001u16, // Register 0 + PC (3) -> Memory 15 => Register 1
        0b0001_010101_110110u16, // Register 5 -> Memory 18 => Register 6 + PC (4) -> Memory 17
        0b0001_100000_000000u16, // Unsupported address type.
        0b0000_000000_000000u16,
        // Data
        1200u16,
        0u16,
        2400u16,
        13u16, // Used as address
        0u16,
        1u16,
        12564u16,
        0u16,
        129u16,
        0u16,
        8u16,
        0u16,
    ];
    hardware.load(&code, 0).unwrap();

    // Copying two registers
    hardware.set_register(2, 256);
    hardware.clock().unwrap();
    assert_eq!(hardware.get_register(7), hardware.get_register(2));
    assert_eq!(hardware.get_program_counter(), 1);
    // Nothing else should be changed.
    assert_eq!(hardware.get_register(2), 256);

    hardware.set_register(3, 9);
    hardware.clock().unwrap();
    assert_eq!(hardware.get_register(6), hardware.get_memory(9));
    assert_eq!(hardware.get_program_counter(), 2);
    // Nothing else should be changed.
    assert_eq!(hardware.get_register(3), 9);
    assert_eq!(hardware.get_memory(9), 2400);

    hardware.set_register(3, 7);
    hardware.set_register(4, 12);
    hardware.clock().unwrap();
    assert_eq!(hardware.get_memory(7), hardware.get_memory(12));
    assert_eq!(hardware.get_program_counter(), 3);
    // Nothing else should be changed.
    assert_eq!(hardware.get_memory(7), 1200);
    assert_eq!(hardware.get_register(3), 7);
    assert_eq!(hardware.get_register(4), 12);

    hardware.set_register(0, 12);
    hardware.clock().unwrap();
    assert_eq!(hardware.get_memory(15), hardware.get_register(1));
    assert_eq!(hardware.get_program_counter(), 4);
    // Nothing else should be changed.
    assert_eq!(hardware.get_register(0), 12);
    assert_eq!(hardware.get_memory(15), 129);

    hardware.set_register(5, 18);
    hardware.set_register(6, 13);
    hardware.clock().unwrap();
    assert_eq!(hardware.get_memory(18), hardware.get_memory(17));
    assert_eq!(hardware.get_program_counter(), 5);
    // Nothing else should be changed.
    assert_eq!(hardware.get_memory(18), 0);
    assert_eq!(hardware.get_register(5), 18);
    assert_eq!(hardware.get_register(6), 13);

    // Error: Register plus PC is not supported.
    let clock_result = hardware.clock();
    assert_eq!(clock_result.is_err(), true);
}

#[test]
fn instruction_add() {
    let mut hardware = Hardware::new(19);

    // -> means "points"
    let code = vec![
        0b0010_000010_000111u16, // register two + register seven
        0b0010_010011_000110u16, // Register 3 -> memory 9 + register six
        0b0010_010011_010100u16, // Register 3 -> memory 7 + Register 4 -> memory 12
        0b0010_110000_000001u16, // [Register 0 + PC (3)] -> Memory 15 + Register 1
        0b0010_010101_110110u16, // Register 5 -> Memory 17 + [Register 6 + PC (4)] -> Memory 18
        0b0010_000100_000100u16, // Register 4 + Register 4
        0b0010_100000_000000u16, // Unsupported address type.
        // Data
        1200u16,
        0u16,
        2400u16,
        13u16, // Used as address
        0u16,
        1u16,
        12564u16,
        0u16,
        129u16,
        0u16,
        8u16,
        0u16,
    ];
    hardware.load(&code, 0).unwrap();

    hardware.set_register(2, 256);
    hardware.set_register(7, 100);
    hardware.clock().unwrap();
    assert_eq!(hardware.get_register(7), 356);
    assert_eq!(hardware.get_program_counter(), 1);
    // Nothing else should be changed.
    assert_eq!(hardware.get_register(2), 256);

    hardware.set_register(3, 9);
    hardware.set_register(6, 8000);
    hardware.clock().unwrap();
    assert_eq!(hardware.get_register(6), 10400);
    assert_eq!(hardware.get_program_counter(), 2);
    // Nothing else should be changed.
    assert_eq!(hardware.get_register(3), 9);
    assert_eq!(hardware.get_memory(9), 2400);

    hardware.set_register(3, 7);
    hardware.set_register(4, 12);
    hardware.clock().unwrap();
    assert_eq!(hardware.get_memory(12), 1201);
    assert_eq!(hardware.get_program_counter(), 3);
    // Nothing else should be changed.
    assert_eq!(hardware.get_memory(7), 1200);
    assert_eq!(hardware.get_register(3), 7);
    assert_eq!(hardware.get_register(4), 12);

    hardware.set_register(0, 12);
    hardware.set_register(1, 200);
    hardware.clock().unwrap();
    assert_eq!(hardware.get_register(1), 329);
    assert_eq!(hardware.get_program_counter(), 4);
    // Nothing else should be changed.
    assert_eq!(hardware.get_register(0), 12);
    assert_eq!(hardware.get_memory(15), 129);

    hardware.set_register(5, 17);
    hardware.set_register(6, 14);
    hardware.clock().unwrap();
    assert_eq!(hardware.get_memory(18), 8);
    assert_eq!(hardware.get_program_counter(), 5);
    // Nothing else should be changed.
    assert_eq!(hardware.get_memory(17), 8);
    assert_eq!(hardware.get_register(5), 17);
    assert_eq!(hardware.get_register(6), 14);

    // Saturating add
    hardware.set_register(4, 60000);
    hardware.clock().unwrap();
    assert_eq!(hardware.get_register(4), u16::MAX);
    assert_eq!(hardware.get_program_counter(), 6);

    // Error: Register plus PC is not supported.
    let clock_result = hardware.clock();
    assert_eq!(clock_result.is_err(), true);
}

#[test]
fn instruction_subtract() {
    let mut hardware = Hardware::new(19);

    // -> means "points"
    let code = vec![
        0b0011_000010_000111u16, // register two - register seven
        0b0011_010011_000110u16, // Register 3 -> memory 9 - register six
        0b0011_010011_010100u16, // Register 3 -> memory 7 - Register 4 -> memory 12
        0b0011_110000_000001u16, // Register 0 + PC (3) -> Memory 15 - Register 1
        0b0011_010101_110110u16, // Register 5 -> Memory 17 - Register 6 + PC (4) -> Memory 18
        0b0011_000101_000100u16, // Register 5 -> Memory 8 - Register 4
        0b0011_100000_000000u16, // Unsupported address type.
        // Data
        1200u16,
        0u16,
        2400u16,
        13u16, // Used as address
        0u16,
        1u16,
        12564u16,
        0u16,
        129u16,
        0u16,
        8u16,
        0u16,
    ];
    hardware.load(&code, 0).unwrap();

    hardware.set_register(2, 256);
    hardware.set_register(7, 100);
    hardware.clock().unwrap();
    assert_eq!(hardware.get_register(7), 156);
    assert_eq!(hardware.get_program_counter(), 1);
    // Nothing else should be changed.
    assert_eq!(hardware.get_register(2), 256);

    hardware.set_register(3, 9);
    hardware.set_register(6, 1400);
    hardware.clock().unwrap();
    assert_eq!(hardware.get_register(6), 1000);
    assert_eq!(hardware.get_program_counter(), 2);
    // Nothing else should be changed.
    assert_eq!(hardware.get_register(3), 9);
    assert_eq!(hardware.get_memory(9), 2400);

    hardware.set_register(3, 7);
    hardware.set_register(4, 12);
    hardware.clock().unwrap();
    assert_eq!(hardware.get_memory(12), 1199);
    assert_eq!(hardware.get_program_counter(), 3);
    // Nothing else should be changed.
    assert_eq!(hardware.get_memory(7), 1200);
    assert_eq!(hardware.get_register(3), 7);
    assert_eq!(hardware.get_register(4), 12);

    hardware.set_register(0, 12);
    hardware.set_register(1, 29);
    hardware.clock().unwrap();
    assert_eq!(hardware.get_register(1), 100);
    assert_eq!(hardware.get_program_counter(), 4);
    // Nothing else should be changed.
    assert_eq!(hardware.get_register(0), 12);
    assert_eq!(hardware.get_memory(15), 129);

    hardware.set_register(5, 17);
    hardware.set_register(6, 14);
    hardware.clock().unwrap();
    assert_eq!(hardware.get_memory(18), 8);
    assert_eq!(hardware.get_program_counter(), 5);
    // Nothing else should be changed.
    assert_eq!(hardware.get_memory(17), 8);
    assert_eq!(hardware.get_register(5), 17);
    assert_eq!(hardware.get_register(6), 14);

    hardware.set_register(5, 8);
    hardware.set_register(4, 17);
    hardware.clock().unwrap();
    assert_eq!(hardware.get_register(4), 0);
    assert_eq!(hardware.get_program_counter(), 6);
    // Nothing else should be changed.
    assert_eq!(hardware.get_register(5), 8);
    assert_eq!(hardware.get_memory(8), 0);

    // Error: Register plus PC is not supported.
    let clock_result = hardware.clock();
    assert_eq!(clock_result.is_err(), true);
}

#[test]
fn instruction_skip_if_equal() {
    let mut hardware = Hardware::new(11);

    let code = vec![
        0b0100_000000_000001u16, // Register 0 = Register 1
        0b0000000000000000u16,
        0b0100_010010_000110u16, // Register 2 -> Memory 8 = Register 6
        0b0100_110011_010101u16, // Register 3 + PC -> Memory 8 = Register 5 -> Memory 10
        0b0000000000000000u16,
        0b0100_000010_100011u16, // Unsupported address type
        0b0000000000000000u16,
        0b0000000000000000u16,
        0b0000000000000100u16, // 4
        0b0000000000000000u16,
        0b0000000000000100u16, // 4
    ];
    hardware.load(&code, 0).unwrap();

    hardware.set_register(0, 2000);
    hardware.set_register(1, 2000);
    hardware.clock().unwrap();
    assert_eq!(hardware.get_program_counter(), 2);

    hardware.set_register(2, 8);
    hardware.set_register(6, 7);
    hardware.clock().unwrap();
    assert_eq!(hardware.get_program_counter(), 3);

    hardware.set_register(3, 5);
    hardware.set_register(5, 10);
    hardware.clock().unwrap();
    assert_eq!(hardware.get_program_counter(), 5);

    let clock_result = hardware.clock();
    assert_eq!(clock_result.is_err(), true);
}

#[test]
fn instruction_skip_if_greater() {
    let mut hardware = Hardware::new(11);

    let code = vec![
        0b0101_000000_000001u16, // Register 0 > Register 1
        0b0000000000000000u16,
        0b0101_010010_000110u16, // Register 2 -> Memory 8 > Register 6
        0b0101_110011_010101u16, // Register 3 + PC -> Memory 8 > Register 5 -> Memory 10
        0b0000000000000000u16,
        0b0101_000010_100011u16, // Unsupported address type
        0b0000000000000000u16,
        0b0000000000000000u16,
        0b0100000000000101u16, // 16389
        0b0000000000000000u16,
        0b0001001001001101u16, // 4685
    ];
    hardware.load(&code, 0).unwrap();

    hardware.set_register(0, 2001);
    hardware.set_register(1, 2000);
    hardware.clock().unwrap();
    assert_eq!(hardware.get_program_counter(), 2);

    hardware.set_register(2, 8);
    hardware.set_register(6, 16390);
    hardware.clock().unwrap();
    assert_eq!(hardware.get_program_counter(), 3);

    hardware.set_register(3, 5);
    hardware.set_register(5, 10);
    hardware.clock().unwrap();
    assert_eq!(hardware.get_program_counter(), 5);

    let clock_result = hardware.clock();
    assert_eq!(clock_result.is_err(), true);
}

#[test]
fn instruction_set() {
    let mut hardware = Hardware::new(3);

    let code = vec![0b0110_010_001001101u16, 0b0110_111_111111111u16, 0b0110_010_000000000u16];
    hardware.load(&code, 0).unwrap();

    hardware.set_register(4, 100);
    hardware.set_register(3, 120);
    hardware.set_register(1, 140);
    hardware.set_register(0, 1000);

    hardware.clock().unwrap();
    assert_eq!(hardware.get_register(2), 0b0000_000_001001101u16);
    assert_eq!(hardware.get_program_counter(), 1);
    // Nothing else should change.
    assert_eq!(hardware.get_register(4), 100);
    assert_eq!(hardware.get_register(3), 120);
    assert_eq!(hardware.get_register(1), 140);
    assert_eq!(hardware.get_register(0), 1000);

    hardware.clock().unwrap();
    assert_eq!(hardware.get_register(7), 0b0000_000_111111111u16);
    assert_eq!(hardware.get_program_counter(), 2);
    // Nothing else should change.
    assert_eq!(hardware.get_register(2), 0b0000_000_001001101u16);
    assert_eq!(hardware.get_register(4), 100);
    assert_eq!(hardware.get_register(3), 120);
    assert_eq!(hardware.get_register(1), 140);
    assert_eq!(hardware.get_register(0), 1000);

    hardware.clock().unwrap();
    assert_eq!(hardware.get_register(2), 0u16);
    assert_eq!(hardware.get_program_counter(), 3);
    // Nothing else should change.
    assert_eq!(hardware.get_register(7), 0b0000_000_111111111u16);
    assert_eq!(hardware.get_register(4), 100);
    assert_eq!(hardware.get_register(3), 120);
    assert_eq!(hardware.get_register(1), 140);
    assert_eq!(hardware.get_register(0), 1000);
}

struct MockSyscall {}

impl SysCallback for MockSyscall {
    fn syscall(&mut self, cpu_state: &mut CPUState) {
        if cpu_state.get_register(0) == 1 {
            assert_eq!(cpu_state.get_error_flag(), false);
            cpu_state.set_error_flag(true);
            return;
        }

        assert_eq!(cpu_state.get_error_flag(), false);
        assert_eq!(cpu_state.get_register(0), 17);
        assert_eq!(cpu_state.get_register(1), 128);
        assert_eq!(cpu_state.get_register(7), 5);

        cpu_state.set_register(0, 0);
        cpu_state.set_register(3, 12);
        cpu_state.set_register(7, 2);
    }
}

#[test]
fn instruction_syscall() {
    let mut hardware = Hardware::new(3);

    hardware.register_sys_callback(Box::new(MockSyscall {}));

    let code = vec![0b0000000000_000001u16, 0b0000000000_000001u16];
    hardware.load(&code, 0).unwrap();

    hardware.set_register(0, 17);
    hardware.set_register(1, 128);
    hardware.set_register(7, 5);

    hardware.clock().unwrap();

    assert_eq!(hardware.get_register(0), 0);
    assert_eq!(hardware.get_register(3), 12);
    assert_eq!(hardware.get_register(7), 2);

    hardware.set_register(0, 1);
    let clock_result = hardware.clock();

    assert_eq!(clock_result.is_err(), true);
    assert_eq!(hardware.get_error_flag(), true);
}
