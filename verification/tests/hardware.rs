use sillyverse::hardware::Hardware;

#[test]
fn hardware_load() {
    let mut hardware = Hardware::new(12);

    let data = vec![128, 255, 0, 46, 72];

    hardware.load(&data, 7).expect("Failed to load data");

    assert_eq!(hardware.get_memory(0), 0);
    assert_eq!(hardware.get_memory(1), 0);
    assert_eq!(hardware.get_memory(2), 0);
    assert_eq!(hardware.get_memory(3), 0);
    assert_eq!(hardware.get_memory(4), 0);
    assert_eq!(hardware.get_memory(5), 0);
    assert_eq!(hardware.get_memory(6), 0);
    assert_eq!(hardware.get_memory(7), 128);
    assert_eq!(hardware.get_memory(8), 255);
    assert_eq!(hardware.get_memory(9), 0);
    assert_eq!(hardware.get_memory(10), 46);
    assert_eq!(hardware.get_memory(11), 72);

    let data_2 = vec![72, 0, 0, 1];
    hardware.load(&data_2, 6).expect("Could not load data_2");

    assert_eq!(hardware.get_memory(0), 0);
    assert_eq!(hardware.get_memory(1), 0);
    assert_eq!(hardware.get_memory(2), 0);
    assert_eq!(hardware.get_memory(3), 0);
    assert_eq!(hardware.get_memory(4), 0);
    assert_eq!(hardware.get_memory(5), 0);
    assert_eq!(hardware.get_memory(6), 72);
    assert_eq!(hardware.get_memory(7), 0);
    assert_eq!(hardware.get_memory(8), 0);
    assert_eq!(hardware.get_memory(9), 1);
    assert_eq!(hardware.get_memory(10), 46);
    assert_eq!(hardware.get_memory(11), 72);
}

#[test]
fn hardware_load_out_of_memory() {
    let mut hardware = Hardware::new(1024);

    let data = vec![1, 2, 3, 4, 5];
    let load_result = hardware.load(&data, 1022);
    assert_eq!(load_result.is_err(), true);
}

#[test]
fn hardware_bad_program_counter() {
    let mut hardware = Hardware::new(2000);

    // Equal to size of memory.
    hardware.set_program_counter(2000);
    let clock_result = hardware.clock();
    assert_eq!(clock_result.is_err(), true);

    // Bigger than memory size.
    hardware.set_program_counter(2255);
    let clock_result = hardware.clock();
    assert_eq!(clock_result.is_err(), true);
}

#[test]
fn hardware_instruction_nop() {
    let mut hardware = Hardware::new(3);

    let code = vec![0b0000000000000000u16, 0b0000000000000000u16];
    hardware.load(&code, 0).unwrap();

    assert_eq!(hardware.get_program_counter(), 0);

    hardware.clock().unwrap();

    assert_eq!(hardware.get_program_counter(), 1);
    // Nothing else should be changed.
    for i in 0..8 {
        assert_eq!(hardware.get_register(i), 0);
    }

    hardware.clock().unwrap();

    assert_eq!(hardware.get_program_counter(), 2);
    // Nothing else should be changed.
    for i in 0..8 {
        assert_eq!(hardware.get_register(i), 0);
    }
}

#[test]
fn get_operand_type_one() {
    let mut hardware = Hardware::new(1);

    hardware.set_register(0, 128);
    hardware.set_register(5, 254);
    hardware.set_register(7, 1);

    let operand = hardware.get_operand(0b0000_0000u8).unwrap();
    assert_eq!(operand, 128);

    let operand = hardware.get_operand(0b0000_0101u8).unwrap();
    assert_eq!(operand, 254);

    let operand = hardware.get_operand(0b0000_0111u8).unwrap();
    assert_eq!(operand, 1);

    // Bad register address.
    let operand = hardware.get_operand(0b0000_1000u8);
    assert_eq!(operand.is_err(), true);
}

#[test]
fn get_operand_type_two() {
    let mut hardware = Hardware::new(10);

    hardware.set_register(0, 0);
    hardware.set_register(5, 3);
    hardware.set_register(7, 9);

    hardware.set_memory(0, 128);
    hardware.set_memory(3, 64);
    hardware.set_memory(9, 1);

    let operand = hardware.get_operand(0b0001_0000u8).unwrap();
    assert_eq!(operand, 128);
    let operand = hardware.get_operand(0b0001_0101u8).unwrap();
    assert_eq!(operand, 64);
    let operand = hardware.get_operand(0b0001_0111u8).unwrap();
    assert_eq!(operand, 1);

    // Bad address.
    hardware.set_register(1, 14);
    let operand = hardware.get_operand(0b0001_0001u8);
    assert_eq!(operand.is_err(), true);
}

#[test]
fn get_operand_type_three() {
    let mut hardware = Hardware::new(1);

    hardware.set_program_counter(9);
    hardware.set_register(2, 7);
    let operand = hardware.get_operand(0b0010_0010u8).unwrap();
    assert_eq!(operand, 16);

    hardware.set_program_counter(0);
    hardware.set_register(1, 18);
    let operand = hardware.get_operand(0b0010_0001u8).unwrap();
    assert_eq!(operand, 18);

    hardware.set_program_counter(12);
    hardware.set_register(3, 0);
    let operand = hardware.get_operand(0b0010_0011u8).unwrap();
    assert_eq!(operand, 12);

    // Saturating add
    hardware.set_program_counter(65000);
    hardware.set_register(6, 17000);
    let operand = hardware.get_operand(0b0010_0110u8).unwrap();
    assert_eq!(operand, 65535u16);
}

#[test]
fn get_operand_type_four() {
    let mut hardware = Hardware::new(20);

    hardware.set_program_counter(9);
    hardware.set_register(2, 7);
    hardware.set_memory(16, 120);
    let operand = hardware.get_operand(0b0011_0010u8).unwrap();
    assert_eq!(operand, 120);

    hardware.set_program_counter(0);
    hardware.set_register(1, 18);
    hardware.set_memory(18, 254);
    let operand = hardware.get_operand(0b0011_0001u8).unwrap();
    assert_eq!(operand, 254);

    hardware.set_program_counter(12);
    hardware.set_register(3, 0);
    hardware.set_memory(12, 107);
    let operand = hardware.get_operand(0b0011_0011u8).unwrap();
    assert_eq!(operand, 107);

    // Overflow
    hardware.set_program_counter(65000);
    hardware.set_register(6, 17000);
    let operand = hardware.get_operand(0b0011_0110u8);
    assert_eq!(operand.is_err(), true);

    // Out of memory.
    hardware.set_program_counter(11);
    hardware.set_register(0, 10);
    let operand = hardware.get_operand(0b0011_0000u8);
    assert_eq!(operand.is_err(), true);
}
