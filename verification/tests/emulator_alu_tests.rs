use etd3200::emulator::{Cpu, Instruction, UnknownCpu};

#[test]
fn test_logic_left_shift_rd() {
    let mut cpu = Cpu::new_blank();
    let mut instruction = Instruction::from_opcode(0);
    instruction.r_dest_set(5);
    instruction.r_x_set(6);
    instruction.r_y_set(7);
    cpu.load_instruction(1, &instruction);
    cpu.write(6, 0x01);
    cpu.write(7, 1);
    cpu = match cpu.clock() {
        UnknownCpu::Runnable(ok) => ok,
        UnknownCpu::Inter(_) => panic!(),
    };
    assert_eq!(0x02, cpu.read(5));
}

#[test]
fn test_logic_left_shift_ri() {
    let mut cpu = Cpu::new_blank();
    let mut instruction = Instruction::from_opcode(1);
    instruction.r_dest_set(5);
    // Value
    instruction.r_x_set(6);
    cpu.write(6, 0x01);
    // Shift
    instruction.i_y_set(2);
    cpu.write(7, 1);
    cpu.load_instruction(1, &instruction);
    cpu = match cpu.clock() {
        UnknownCpu::Runnable(ok) => ok,
        UnknownCpu::Inter(_) => panic!(),
    };
    assert_eq!(0x04, cpu.read(5));
}

#[test]
fn test_logic_left_shift_ri_negitive() {
    // If shift value is negative then nothing should happen
    let mut cpu = Cpu::new_blank();
    let mut instruction = Instruction::from_opcode(0);
    instruction.r_dest_set(5);
    instruction.r_x_set(6);
    instruction.i_y_set(0x801);
    cpu.load_instruction(1, &instruction);
    cpu.write(6, 0x01);
    cpu = match cpu.clock() {
        UnknownCpu::Runnable(ok) => ok,
        UnknownCpu::Inter(_) => panic!(),
    };
    assert_eq!(0x01, cpu.read(5));
}

#[test]
fn test_logic_right_shift_rd() {
    let mut cpu = Cpu::new_blank();
    let mut instruction = Instruction::from_opcode(2);
    instruction.r_dest_set(5);
    instruction.r_x_set(6);
    instruction.r_y_set(7);
    cpu.load_instruction(1, &instruction);
    println!("{instruction:?}");
    cpu.write(6, 0x02);
    cpu.write(7, 1);
    cpu = match cpu.clock() {
        UnknownCpu::Runnable(ok) => ok,
        UnknownCpu::Inter(_) => panic!(),
    };
    assert_eq!(0x01, cpu.read(5));
}

#[test]
fn test_logic_right_shift_ri() {
    let mut cpu = Cpu::new_blank();
    let mut instruction = Instruction::from_opcode(3);
    instruction.r_dest_set(5);
    instruction.r_x_set(6);
    instruction.i_y_set(1);
    cpu.load_instruction(1, &instruction);
    cpu.write(6, 0x02);
    cpu = match cpu.clock() {
        UnknownCpu::Runnable(ok) => ok,
        UnknownCpu::Inter(_) => panic!(),
    };
    assert_eq!(0x01, cpu.read(5));
}

#[test]
fn test_logic_left_shift_overflow() {
    let mut cpu = Cpu::new_blank();
    let mut instruction = Instruction::from_opcode(0);
    instruction.r_dest_set(5);
    instruction.r_x_set(6);
    instruction.r_y_set(7);
    cpu.load_instruction(1, &instruction);
    cpu.write(6, 0x80);
    cpu.write(7, 1);
    cpu = match cpu.clock() {
        UnknownCpu::Runnable(ok) => ok,
        UnknownCpu::Inter(_) => panic!(),
    };
    assert_eq!(0x00, cpu.read(5));
}

#[test]
fn test_add() {
    let mut cpu = Cpu::new_blank();
    let mut instruction = Instruction::from_opcode(11);
    instruction.r_dest_set(5);
    instruction.r_x_set(6);
    instruction.r_y_set(7);
    cpu.load_instruction(1, &instruction);
    cpu.write(6, 0x0F);
    cpu.write(7, 1);
    cpu = match cpu.clock() {
        UnknownCpu::Runnable(ok) => ok,
        UnknownCpu::Inter(_) => panic!(),
    };
    assert_eq!(0x10, cpu.read(5));
}

#[test]
fn test_add_multiple() {
    let mut cpu = Cpu::new_blank();
    let mut instruction = Instruction::from_opcode(11);
    instruction.r_dest_set(1);
    instruction.r_x_set(2);
    instruction.r_y_set(3);
    cpu.load_instruction(0, &instruction);
    for i in 0..100 {
        cpu.program_counter = 0;
        cpu.write(2, i);
        cpu.write(3, i + 13);
        cpu = match cpu.clock() {
            UnknownCpu::Runnable(ok) => ok,
            UnknownCpu::Inter(_) => panic!(),
        };
        assert_eq!((2 * i + 13) & 0xFF, cpu.read(1));
    }
}

#[test]
fn test_rd_function_incs_program_counter() {
    let mut cpu = Cpu::new_blank();
    let mut instruction = Instruction::from_opcode(11);
    instruction.r_dest_set(1);
    instruction.r_x_set(2);
    instruction.r_y_set(3);
    cpu.load_instruction(0, &instruction);
    cpu.program_counter = 0;
    cpu = match cpu.clock() {
        UnknownCpu::Runnable(ok) => ok,
        UnknownCpu::Inter(_) => panic!(),
    };
    assert_eq!(4, cpu.program_counter);
}

#[test]
fn test_add_with_overflow() {
    let mut cpu = Cpu::new_blank();
    let mut instruction = Instruction::from_opcode(11);
    instruction.r_dest_set(5);
    instruction.r_x_set(6);
    instruction.r_y_set(7);
    cpu.load_instruction(1, &instruction);
    cpu.write(6, 0xFF);
    cpu.write(7, 2);
    cpu = match cpu.clock() {
        UnknownCpu::Runnable(ok) => ok,
        UnknownCpu::Inter(_) => panic!(),
    };
    assert_eq!(0x01, cpu.read(5));
}

#[test]
fn test_add_ri() {
    let mut cpu = Cpu::new_blank();
    let mut instruction = Instruction::from_opcode(12);
    instruction.r_dest_set(5);
    instruction.r_x_set(6);
    instruction.i_y_set(1);
    cpu.load_instruction(1, &instruction);
    cpu.write(6, 0x0F);
    cpu.write(7, 1);
    cpu = match cpu.clock() {
        UnknownCpu::Runnable(ok) => ok,
        UnknownCpu::Inter(_) => panic!(),
    };
    assert_eq!(0x10, cpu.read(5));
}

#[test]
fn test_add_ri_negative_i() {
    let mut cpu = Cpu::new_blank();
    let mut instruction = Instruction::from_opcode(12);
    instruction.r_dest_set(5);
    instruction.r_x_set(6);
    instruction.i_y_set(1 | (1 << 11));
    cpu.load_instruction(1, &instruction);
    cpu.write(6, 0xF1);
    cpu = match cpu.clock() {
        UnknownCpu::Runnable(ok) => ok,
        UnknownCpu::Inter(_) => panic!(),
    };
    assert_eq!(0xF0, cpu.read(5));
}

#[test]
fn test_add_multiple_ri() {
    let mut cpu = Cpu::new_blank();
    let mut instruction = Instruction::from_opcode(12);
    for i in 0..100 {
        cpu.program_counter = 0;
        instruction.r_dest_set(5);
        instruction.r_x_set(6);
        cpu.write(6, i);
        instruction.i_y_set((i + 13).into());
        cpu.load_instruction(0, &instruction);
        cpu = match cpu.clock() {
            UnknownCpu::Runnable(ok) => ok,
            UnknownCpu::Inter(_) => panic!(),
        };
        assert_eq!((2 * i + 13) & 0xFF, cpu.read(5));
    }
}

#[test]
fn test_add_with_overflow_ri() {
    let mut cpu = Cpu::new_blank();
    let mut instruction = Instruction::from_opcode(12);
    instruction.r_dest_set(5);
    instruction.r_x_set(6);
    instruction.i_y_set(2);
    cpu.load_instruction(1, &instruction);
    cpu.write(6, 0xFF);
    cpu.write(7, 2);
    cpu = match cpu.clock() {
        UnknownCpu::Runnable(ok) => ok,
        UnknownCpu::Inter(_) => panic!(),
    };
    assert_eq!(0x01, cpu.read(5));
}

#[test]
fn test_sub_rd() {
    let mut cpu = Cpu::new_blank();
    let mut instruction = Instruction::from_opcode(13);
    instruction.r_dest_set(5);
    instruction.r_x_set(6);
    instruction.r_y_set(7);
    cpu.load_instruction(1, &instruction);
    cpu.write(6, 0xF4);
    cpu.write(7, 4);
    cpu = match cpu.clock() {
        UnknownCpu::Runnable(ok) => ok,
        UnknownCpu::Inter(_) => panic!(),
    };
    assert_eq!(0xF0, cpu.read(5));
}

#[test]
fn test_sub_multiple_rd() {
    let mut cpu = Cpu::new_blank();
    let mut instruction = Instruction::from_opcode(13);
    for i in 0..100 {
        instruction.r_dest_set(5);
        instruction.r_x_set(6);
        cpu.write(6, i * 2 + 26);
        instruction.r_y_set(7);
        cpu.write(7, i + 13);
        cpu.load_instruction(1, &instruction);
        cpu.program_counter = 1;
        cpu = match cpu.clock() {
            UnknownCpu::Runnable(ok) => ok,
            UnknownCpu::Inter(_) => panic!(),
        };
        assert_eq!((i + 13) & 0xFF, cpu.read(5));
    }
}

#[test]
fn test_sub_with_underflow_rd() {
    let mut cpu = Cpu::new_blank();
    let mut instruction = Instruction::from_opcode(13);
    instruction.r_dest_set(5);
    instruction.r_x_set(6);
    cpu.write(6, 0x00);
    instruction.r_y_set(7);
    cpu.write(7, 2);
    cpu.load_instruction(1, &instruction);
    cpu = match cpu.clock() {
        UnknownCpu::Runnable(ok) => ok,
        UnknownCpu::Inter(_) => panic!(),
    };
    assert_eq!(0xFE, cpu.read(5));
}

#[test]
fn test_sub_ri() {
    let mut cpu = Cpu::new_blank();
    let mut instruction = Instruction::from_opcode(14);
    instruction.r_dest_set(5);
    instruction.r_x_set(6);
    cpu.write(6, 0xF4);
    instruction.i_y_set(4);
    cpu.load_instruction(1, &instruction);
    cpu = match cpu.clock() {
        UnknownCpu::Runnable(ok) => ok,
        UnknownCpu::Inter(_) => panic!(),
    };
    assert_eq!(0xF0, cpu.read(5));
}

#[test]
fn test_sub_multiple_ri() {
    let mut cpu = Cpu::new_blank();
    let mut instruction = Instruction::from_opcode(14);
    for i in 0..100 {
        instruction.r_dest_set(5);
        instruction.r_x_set(6);
        cpu.write(6, i * 2 + 26);
        instruction.i_y_set((i + 13).into());
        cpu.load_instruction(1, &instruction);
        cpu.program_counter = 1;
        cpu = match cpu.clock() {
            UnknownCpu::Runnable(ok) => ok,
            UnknownCpu::Inter(_) => panic!(),
        };
        assert_eq!((i + 13) & 0xFF, cpu.read(5));
    }
}

#[test]
fn test_sub_with_underflow_ri() {
    let mut cpu = Cpu::new_blank();
    let mut instruction = Instruction::from_opcode(14);
    instruction.r_dest_set(5);
    instruction.r_x_set(6);
    cpu.write(6, 0x00);
    instruction.i_y_set(2);
    cpu.load_instruction(1, &instruction);
    cpu = match cpu.clock() {
        UnknownCpu::Runnable(ok) => ok,
        UnknownCpu::Inter(_) => panic!(),
    };
    assert_eq!(0xFE, cpu.read(5));
}

#[test]
fn test_multipy() {
    let mut cpu = Cpu::new_blank();
    let mut instruction = Instruction::from_opcode(15);
    instruction.r_dest_set(5);
    instruction.r_x_set(6);
    instruction.r_y_set(7);
    cpu.load_instruction(1, &instruction);
    cpu.write(6, 6);
    cpu.write(7, 7);
    cpu = match cpu.clock() {
        UnknownCpu::Runnable(ok) => ok,
        UnknownCpu::Inter(_) => panic!(),
    };
    assert_eq!(6 * 7, cpu.read(5));
}

#[test]
fn test_multiply_multiple() {
    let mut cpu = Cpu::new_blank();
    let mut instruction = Instruction::from_opcode(15);
    for i in 0..100 {
        cpu.program_counter = 0;
        instruction.r_dest_set(5);
        instruction.r_x_set(6);
        instruction.r_y_set(7);
        cpu.load_instruction(0, &instruction);
        cpu.write(6, i);
        cpu.write(7, i + 13);
        cpu = match cpu.clock() {
            UnknownCpu::Runnable(ok) => ok,
            UnknownCpu::Inter(_) => panic!(),
        };
        assert_eq!(i.wrapping_mul(i + 13) & 0xFF, cpu.read(5));
    }
}

#[test]
fn test_multiply_with_overflow() {
    let mut cpu = Cpu::new_blank();
    let mut instruction = Instruction::from_opcode(15);
    instruction.r_dest_set(5);
    instruction.r_x_set(6);
    instruction.r_y_set(7);
    cpu.load_instruction(1, &instruction);
    cpu.write(6, 0xF0);
    cpu.write(7, 0x0F);
    cpu = match cpu.clock() {
        UnknownCpu::Runnable(ok) => ok,
        UnknownCpu::Inter(_) => panic!(),
    };
    assert_eq!(0x10, cpu.read(5));
}

#[test]
fn test_multply_ri() {
    let mut cpu = Cpu::new_blank();
    let mut instruction = Instruction::from_opcode(16);
    instruction.r_dest_set(5);
    instruction.r_x_set(6);
    instruction.i_y_set(6);
    cpu.load_instruction(1, &instruction);
    cpu.write(6, 0x7);
    cpu = match cpu.clock() {
        UnknownCpu::Runnable(ok) => ok,
        UnknownCpu::Inter(_) => panic!(),
    };
    assert_eq!(6 * 7, cpu.read(5));
}

#[test]
fn test_mutiply_multiple_ri() {
    let mut cpu = Cpu::new_blank();
    let mut instruction = Instruction::from_opcode(16);
    for i in 0..100 {
        instruction.r_dest_set(5);
        instruction.r_x_set(6);
        cpu.write(6, i);
        instruction.i_y_set((i + 13).into());
        cpu.load_instruction(0, &instruction);
        cpu.program_counter = 0;

        cpu = match cpu.clock() {
            UnknownCpu::Runnable(ok) => ok,
            UnknownCpu::Inter(_) => panic!(),
        };
        let y = i + 13;
        assert_eq!(i.wrapping_mul(i + 13) & 0xFF, cpu.read(5), "{i} * {y} isn't correct");
    }
}

#[test]
fn test_multiply_with_overflow_ri() {
    let mut cpu = Cpu::new_blank();
    let mut instruction = Instruction::from_opcode(16);
    instruction.r_dest_set(5);
    instruction.r_x_set(6);
    instruction.i_y_set(0xF0);
    cpu.load_instruction(1, &instruction);
    cpu.write(6, 0x0F);
    cpu = match cpu.clock() {
        UnknownCpu::Runnable(ok) => ok,
        UnknownCpu::Inter(_) => panic!(),
    };
    assert_eq!(0x10, cpu.read(5));
}

#[test]
fn test_carry_flag_set_ri() {
    let mut cpu = Cpu::new_blank();
    let mut instruction = Instruction::from_opcode(12);

    instruction.r_dest_set(1);
    instruction.r_x_set(2);
    cpu.write(2, 0xFF);
    instruction.i_y_set(42);
    cpu.load_instruction(1, &instruction);
    cpu = match cpu.clock() {
        UnknownCpu::Runnable(ok) => ok,
        UnknownCpu::Inter(_) => panic!(),
    };
    assert!(cpu.flags.carry);
}

#[test]
fn test_carry_flag_not_set_ri() {
    let mut cpu = Cpu::new_blank();
    let mut instruction = Instruction::from_opcode(12);

    instruction.r_dest_set(1);
    instruction.r_x_set(2);
    cpu.write(2, 0x4);
    instruction.i_set(2);
    cpu.load_instruction(1, &instruction);
    cpu = match cpu.clock() {
        UnknownCpu::Runnable(ok) => ok,
        UnknownCpu::Inter(_) => panic!(),
    };
    assert!(!cpu.flags.carry);
}

#[test]
fn test_carry_flag_set_rd() {
    let mut cpu = Cpu::new_blank();
    let mut instruction = Instruction::from_opcode(12);

    instruction.r_dest_set(1);
    instruction.r_x_set(2);
    cpu.write(2, 0x4);
    instruction.r_y_set(3);
    cpu.write(2, 0xFF);
    cpu.load_instruction(1, &instruction);
    cpu = match cpu.clock() {
        UnknownCpu::Runnable(ok) => ok,
        UnknownCpu::Inter(_) => panic!(),
    };
    assert!(cpu.flags.carry);
}

#[test]
fn test_carry_flag_not_set_rd() {
    let mut cpu = Cpu::new_blank();
    let mut instruction = Instruction::from_opcode(11);

    instruction.r_dest_set(1);
    instruction.r_x_set(2);
    cpu.write(2, 0x2);
    instruction.r_y_set(3);
    cpu.write(2, 0x32);
    cpu.load_instruction(1, &instruction);
    cpu = match cpu.clock() {
        UnknownCpu::Runnable(ok) => ok,
        UnknownCpu::Inter(_) => panic!(),
    };
    assert!(!cpu.flags.carry);
}

#[test]
fn test_greater_flag_set_rd() {
    let mut cpu = Cpu::new_blank();
    let mut instruction = Instruction::from_opcode(11);

    instruction.r_dest_set(1);
    instruction.r_x_set(2);
    cpu.write(2, 0x2);
    instruction.r_y_set(3);
    cpu.write(3, 0x32);
    cpu.load_instruction(1, &instruction);
    cpu = match cpu.clock() {
        UnknownCpu::Runnable(ok) => ok,
        UnknownCpu::Inter(_) => panic!(),
    };
    assert!(cpu.flags.greater);
}

#[test]
fn test_greater_flag_not_set_rd() {
    let mut cpu = Cpu::new_blank();
    let mut instruction = Instruction::from_opcode(11);

    instruction.r_dest_set(1);
    instruction.r_x_set(2);
    cpu.write(2, 0x0);
    instruction.r_y_set(3);
    cpu.write(3, 0x0);
    cpu.load_instruction(1, &instruction);
    cpu = match cpu.clock() {
        UnknownCpu::Runnable(ok) => ok,
        UnknownCpu::Inter(_) => panic!(),
    };
    assert!(!cpu.flags.greater);
}

#[test]
fn test_flag_skips_instuction() {
    let mut cpu = Cpu::new_blank();
    cpu.program_counter = 0;

    // 10. Add 1 + 1
    let mut i10 = Instruction::from_opcode(11);
    i10.r_x_set(1);
    cpu.write(1, 1);
    i10.r_y_set(2);
    cpu.write(2, 1);
    i10.r_dest_set(3);

    // 20. Jump if Zero to 5
    let mut i20 = Instruction::from_opcode(31);
    i20.i_set(20);
    i20.flags.set_all_flags(false);
    i20.flags.zero = true;
    // 30. Interrupt
    let i30 = Instruction::from_opcode(32);
    // 40. Nothing
    // 50. Interrupt
    let i50 = Instruction::from_opcode(32);
    // Should be at 30

    cpu.load_instruction(0, &i10);
    cpu.load_instruction(4, &i20);
    cpu.load_instruction(8, &i30);
    cpu.load_instruction(20, &i50);
    let mut count = 0;
    cpu = loop {
        println!("PC:{}|| {:?}", cpu.program_counter, cpu.current_instruction());
        count += 1;
        if count > 10 {
            panic!("Program is suck in a loop")
        };
        cpu = match cpu.clock() {
            UnknownCpu::Runnable(ok) => ok,
            UnknownCpu::Inter(ok) => break ok,
        };
    };
    assert_ne!(cpu.program_counter, 20, "Program jumped even though last result wasn't Zero");
    assert_eq!(cpu.program_counter, 8, "Program didn't jump expected location");
}

#[test]
fn test_flag_zero_gets_set() {
    let mut cpu = Cpu::new_blank();
    cpu.program_counter = 0;

    // 10. Add 0 + 0
    let mut i10 = Instruction::from_opcode(11);
    i10.r_x_set(1);
    i10.r_y_set(2);
    i10.r_dest_set(3);
    cpu.write(1, 0);
    cpu.write(2, 0);
    cpu.load_instruction(0, &i10);
    cpu = match cpu.clock() {
        UnknownCpu::Runnable(cpu) => cpu,
        UnknownCpu::Inter(_) => panic!(),
    };
    assert!(cpu.flags.zero);
}

#[test]
fn test_flag_zero_does_not_gets_set() {
    let mut cpu = Cpu::new_blank();
    cpu.program_counter = 0;

    // 10. Add 1 + 1
    let mut i10 = Instruction::from_opcode(11);
    i10.r_x_set(1);
    i10.r_y_set(2);
    i10.r_dest_set(3);
    cpu.load_instruction(0, &i10);
    cpu.write(1, 1);
    cpu.write(2, 1);

    cpu = match cpu.clock() {
        UnknownCpu::Runnable(cpu) => cpu,
        UnknownCpu::Inter(_) => panic!(),
    };
    assert!(!cpu.flags.zero);
}
