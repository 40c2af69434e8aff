use iridium::VM;

fn get_test_vm() -> VM {
    VM::new()
}

/// The magic bytes, then zeros up to and including byte 64; code follows.
fn prepend_header(mut b: Vec<u8>) -> Vec<u8> {
    let mut prepension = vec![45, 50, 49, 45];
    while prepension.len() <= 64 {
        prepension.push(0);
    }
    prepension.append(&mut b);
    prepension
}

#[test]
fn test_create_vm() {
    let test_vm = VM::new();
    assert_eq!(test_vm.registers[0], 0)
}

#[test]
fn test_opcode_hlt() {
    let mut test_vm = VM::new();
    let test_bytes = vec![5, 0, 0, 0];
    test_vm.program = test_bytes;
    test_vm.program = prepend_header(test_vm.program);
    test_vm.run();
    assert_eq!(test_vm.pc, 66);
}

#[test]
fn test_opcode_igl() {
    let mut test_vm = VM::new();
    let test_bytes = vec![200, 0, 0, 0];
    test_vm.program = test_bytes;
    test_vm.program = prepend_header(test_vm.program);
    test_vm.run();
    assert_eq!(test_vm.pc, 66);
}

#[test]
fn test_load_opcode() {
    let mut test_vm = get_test_vm();
    test_vm.program = vec![0, 0, 1, 244];
    test_vm.program = prepend_header(test_vm.program);
    test_vm.run();
    assert_eq!(test_vm.registers[0], 500);
}

#[test]
fn test_add_opcode() {
    let mut test_vm = get_test_vm();
    test_vm.program = vec![0, 0, 1, 244, 0, 1, 1, 244, 1, 0, 1, 2];
    test_vm.program = prepend_header(test_vm.program);
    test_vm.run();
    assert_eq!(test_vm.registers[2], 1000);
}

#[test]
fn test_jmp_opcode() {
    let mut test_vm = get_test_vm();
    test_vm.registers[0] = 1;
    test_vm.program = vec![6, 0, 0, 0];
    test_vm.run_once();
    assert_eq!(test_vm.pc, 1);
}

#[test]
fn test_jmpf_opcode() {
    let mut test_vm = get_test_vm();
    test_vm.registers[0] = 2;
    test_vm.program = vec![7, 0, 0, 0, 6, 0, 0, 0];
    test_vm.run_once();
    assert_eq!(test_vm.pc, 4);
}

#[test]
fn test_eq_opcode() {
    let mut test_vm = get_test_vm();
    test_vm.registers[0] = 10;
    test_vm.registers[1] = 10;
    test_vm.program = vec![9, 0, 1, 0, 9, 0, 1, 0];
    test_vm.run_once();
    assert_eq!(test_vm.equal_flag, true);
    test_vm.registers[1] = 20;
    test_vm.run_once();
    assert_eq!(test_vm.equal_flag, false);
}

#[test]
fn test_jeq_opcode() {
    let mut test_vm = get_test_vm();
    test_vm.registers[0] = 7;
    test_vm.equal_flag = true;
    test_vm.program = vec![15, 0, 0, 0, 17, 0, 0, 0, 17, 0, 0, 0];
    test_vm.run_once();
    assert_eq!(test_vm.pc, 7);
}

#[test]
fn test_aloc_opcode() {
    let mut test_vm = get_test_vm();
    test_vm.registers[0] = 1024;
    test_vm.program = vec![17, 0, 0, 0];
    test_vm.run_once();
    assert_eq!(test_vm.heap.len(), 1024);
}

#[test]
fn test_mul_opcode() {
    let mut test_vm = get_test_vm();
    test_vm.program = vec![0, 0, 0, 2, 0, 1, 0, 25, 3, 0, 1, 2];
    test_vm.program = prepend_header(test_vm.program);
    test_vm.run();
    assert_eq!(test_vm.registers[2], 50);
}

#[test]
fn load_takes_the_full_16_bit_range() {
    for imm in [0u16, 1, 255, 256, 500, 65535] {
        let mut vm = VM::new();
        vm.program = vec![0, 3, (imm >> 8) as u8, imm as u8];
        vm.run_once();
        assert_eq!(vm.registers[3], imm as i32);
        assert_eq!(vm.pc, 4);
    }
}

#[test]
fn inc_then_dec_restores_registers() {
    let mut vm = VM::new();
    vm.registers[4] = i32::MAX;
    vm.registers[5] = -3;
    let before = vm.registers;
    vm.program = vec![18, 4, 0, 0, 19, 4, 0, 0];
    vm.run_once();
    assert_eq!(vm.registers[4], i32::MIN);
    vm.run_once();
    assert_eq!(vm.registers, before);
    assert_eq!(vm.pc, 8);
}

#[test]
fn comparing_a_register_with_itself() {
    let mut vm = VM::new();
    vm.registers[2] = -42;
    vm.program = vec![9, 2, 2, 0, 10, 2, 2, 0];
    vm.run_once();
    assert!(vm.equal_flag);
    vm.run_once();
    assert!(!vm.equal_flag);
}

#[test]
fn ordering_comparisons() {
    let mut vm = VM::new();
    vm.registers[0] = 3;
    vm.registers[1] = 7;
    vm.program = vec![11, 0, 1, 0, 12, 0, 1, 0, 13, 1, 1, 0, 14, 1, 0, 0];
    vm.run_once();
    assert!(!vm.equal_flag);
    vm.run_once();
    assert!(vm.equal_flag);
    vm.run_once();
    assert!(vm.equal_flag);
    vm.run_once();
    assert!(!vm.equal_flag);
}

#[test]
fn jump_forward_then_back_by_the_same_amount() {
    let mut vm = VM::new();
    vm.registers[0] = 6;
    vm.registers[1] = 6;
    // JMPF at 0 lands at 2 + 6 = 8, where JMPB takes it to 10 - 6 = 4.
    vm.program = vec![7, 0, 0, 0, 5, 0, 0, 0, 8, 1, 0, 0];
    vm.run_once();
    assert_eq!(vm.pc, 8);
    vm.run_once();
    assert_eq!(vm.pc, 4);
}

#[test]
fn jeq_without_flag_falls_through() {
    let mut vm = VM::new();
    vm.registers[0] = 7;
    vm.program = vec![15, 0, 0, 0];
    vm.run_once();
    assert_eq!(vm.pc, 2);
}

#[test]
fn div_stores_quotient_and_remainder() {
    let mut vm = VM::new();
    vm.registers[0] = 17;
    vm.registers[1] = 5;
    vm.program = vec![4, 0, 1, 2];
    vm.run_once();
    assert_eq!(vm.registers[2], 3);
    assert_eq!(vm.remainder, 2);

    let mut vm = VM::new();
    vm.registers[0] = -17;
    vm.registers[1] = 5;
    vm.program = vec![4, 0, 1, 2];
    vm.run_once();
    assert_eq!(vm.registers[2], -3);
    assert_eq!(vm.remainder, (-2i32) as u32);
}

#[test]
fn div_by_zero_halts() {
    let mut vm = VM::new();
    vm.registers[0] = 1;
    vm.program = prepend_header(vec![4, 0, 1, 2, 0, 3, 0, 9]);
    assert!(vm.run());
    assert_eq!(vm.registers[2], 0);
    assert_eq!(vm.registers[3], 0);
    assert_eq!(vm.pc, 69);
}

#[test]
fn arithmetic_wraps() {
    let mut vm = VM::new();
    vm.registers[0] = i32::MAX;
    vm.registers[1] = 2;
    vm.program = vec![1, 0, 1, 2, 2, 1, 0, 3, 3, 0, 1, 4];
    vm.run_once();
    vm.run_once();
    vm.run_once();
    assert_eq!(vm.registers[2], i32::MIN + 1);
    assert_eq!(vm.registers[3], 2i32.wrapping_sub(i32::MAX));
    assert_eq!(vm.registers[4], -2);
}

#[test]
fn register_out_of_range_halts() {
    let mut vm = VM::new();
    vm.program = prepend_header(vec![0, 32, 0, 1, 0, 0, 0, 1]);
    assert!(vm.run());
    assert_eq!(vm.registers[0], 0);
    assert_eq!(vm.pc, 69);
}

#[test]
fn aloc_grows_the_heap_and_ignores_negative_sizes() {
    let mut vm = VM::new();
    vm.registers[0] = 16;
    vm.registers[1] = -1;
    vm.program = vec![17, 0, 0, 0, 17, 0, 0, 0, 17, 1, 0, 0];
    vm.run_once();
    vm.run_once();
    assert_eq!(vm.heap.len(), 32);
    assert!(vm.heap.iter().all(|b| *b == 0));
    vm.run_once();
    assert_eq!(vm.heap.len(), 32);
}

#[test]
fn nop_skips_three_bytes() {
    let mut vm = VM::new();
    vm.program = vec![16, 9, 9, 9];
    vm.run_once();
    assert_eq!(vm.pc, 4);
}

#[test]
fn bad_header_runs_nothing() {
    let mut vm = VM::new();
    vm.program = vec![45, 50, 49, 46, 0, 0, 1, 0];
    assert!(!vm.run());
    assert_eq!(vm.pc, 0);
    let mut vm = VM::new();
    vm.program = vec![45, 50];
    assert!(!vm.run());
}

#[test]
fn stepping_past_the_end_does_nothing() {
    let mut vm = VM::new();
    vm.program = vec![];
    vm.run_once();
    assert_eq!(vm.pc, 0);
}

#[test]
fn add_bytes_appends_in_order() {
    let mut vm = VM::new();
    vm.add_byte(1);
    vm.add_bytes(vec![2, 3]);
    assert_eq!(vm.program, vec![1, 2, 3]);
}

#[test]
fn prts_outputs_the_string_from_read_only_data() {
    let mut program = vec![45, 50, 49, 45];
    program.resize(72, 0);
    program.extend_from_slice(b"Hi\0Yo\0");
    // PRTS 3 _, at the counter's first stop after the header check.
    program[65] = 20;
    program[66] = 0;
    program[67] = 3;
    program[68] = 0;
    program[69] = 5;
    let mut vm = VM::new();
    vm.program = program;
    assert!(vm.run());
    assert_eq!(vm.output, b"Yo".to_vec());
    assert_eq!(vm.pc, 70);
}
