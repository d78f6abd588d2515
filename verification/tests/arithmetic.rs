use nasko::vm::{VMEventType, VM};

fn operate(opcode: u8, a: i32, b: i32) -> VM {
    let mut vm = VM::new();
    vm.registers[0] = a;
    vm.registers[1] = b;
    vm.remainder = 12345;
    vm.program = vec![78, 83, 75, 79, opcode, 0, 1, 2];
    let events = vm.run();
    assert_eq!(events[1].event, VMEventType::GracefulStop { code: 1 });
    assert_eq!(vm.registers[0], a);
    assert_eq!(vm.registers[1], b);
    vm
}

fn samples() -> Vec<i32> {
    let mut values = vec![
        i32::MIN,
        i32::MIN + 1,
        -1_073_741_824,
        -65_536,
        -46_341,
        -46_340,
        -7,
        -3,
        -2,
        -1,
        0,
        1,
        2,
        3,
        7,
        46_340,
        46_341,
        65_535,
        1_073_741_824,
        i32::MAX - 1,
        i32::MAX,
    ];
    let mut seed: u64 = 0x2545_f491_4f6c_dd1d;
    for i in 0..60 {
        seed = seed
            .wrapping_mul(6_364_136_223_846_793_005)
            .wrapping_add(1_442_695_040_888_963_407);
        let wide = (seed >> 32) as u32 as i32;
        values.push(if i % 3 == 0 { wide % 1000 } else { wide });
    }
    values
}

#[test]
fn addition_is_double_precision_addition_saturated() {
    for a in samples() {
        for b in samples() {
            let vm = operate(2, a, b);
            assert_eq!(vm.registers[2], (a as f64 + b as f64) as i32, "{} + {}", a, b);
            assert_eq!(vm.registers[2], a.saturating_add(b));
            assert_eq!(vm.remainder, 12345);
        }
    }
}

#[test]
fn subtraction_is_double_precision_subtraction_saturated() {
    for a in samples() {
        for b in samples() {
            let vm = operate(3, a, b);
            assert_eq!(vm.registers[2], (a as f64 - b as f64) as i32, "{} - {}", a, b);
            assert_eq!(vm.registers[2], a.saturating_sub(b));
        }
    }
}

#[test]
fn multiplication_is_double_precision_multiplication_saturated() {
    for a in samples() {
        for b in samples() {
            let vm = operate(4, a, b);
            assert_eq!(vm.registers[2], (a as f64 * b as f64) as i32, "{} * {}", a, b);
            assert_eq!(vm.registers[2], a.saturating_mul(b));
        }
    }
}

#[test]
fn division_is_double_precision_division_truncated() {
    for a in samples() {
        for b in samples() {
            let vm = operate(5, a, b);
            assert_eq!(vm.registers[2], (a as f64 / b as f64) as i32, "{} / {}", a, b);
            assert_eq!(vm.remainder, (a as f64 % b as f64) as usize, "{} % {}", a, b);
        }
    }
}

#[test]
fn comparisons_are_comparisons_of_integers() {
    for a in samples() {
        for b in samples() {
            for (opcode, expected) in [
                (6u8, a == b),
                (7, a != b),
                (11, a > b),
                (12, a >= b),
                (13, a < b),
                (14, a <= b),
            ] {
                let mut vm = VM::new();
                vm.registers[0] = a;
                vm.registers[1] = b;
                vm.eq_flag = !expected;
                vm.program = vec![78, 83, 75, 79, opcode, 0, 1];
                vm.run();
                assert_eq!(vm.eq_flag, expected, "{} {} {}", opcode, a, b);
            }
        }
    }
}

#[test]
fn jump_is_the_register_as_a_machine_word() {
    for a in samples() {
        let mut vm = VM::new();
        vm.registers[0] = a;
        vm.program = vec![78, 83, 75, 79, 8, 0];
        vm.pc = 4;
        assert_eq!(vm.step(), None);
        assert_eq!(vm.pc, a as usize, "{}", a);
    }
}

#[test]
fn relative_jumps_wrap_around_the_machine_word() {
    for a in samples() {
        for start in [4usize, 5, 100] {
            let mut program = vec![0u8; start + 2];
            program[start] = 9;
            program[start + 1] = 0;
            let mut vm = VM::new();
            vm.registers[0] = a;
            vm.program = program.clone();
            vm.pc = start;
            assert_eq!(vm.step(), None);
            assert_eq!(vm.pc, (start + 2).wrapping_add(a as usize), "forward {}", a);
            program[start] = 10;
            vm.program = program;
            vm.pc = start;
            assert_eq!(vm.step(), None);
            assert_eq!(vm.pc, (start + 2).wrapping_sub(a as usize), "backward {}", a);
        }
    }
}
