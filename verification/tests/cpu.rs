use soup_vm::cpu::Cpu;
use soup_vm::instruction::Instruction;

fn program() -> Vec<Option<Instruction>> {
    vec![
        Some(Instruction::Nop0),
        Some(Instruction::Nop1),
        Some(Instruction::Divide),
        None,
        Some(Instruction::Jmp),
        Some(Instruction::IncA),
    ]
}

#[test]
fn new_cpu_starts_at_head() {
    let cpu = Cpu::new(3, 5);
    assert_eq!(cpu, Cpu { program_counter: 3, head: 3, tail: 5 });
    let one_cell = Cpu::new(7, 7);
    assert_eq!(one_cell, Cpu { program_counter: 7, head: 7, tail: 7 });
}

#[test]
fn fetch_reads_the_cell_under_the_pointer() {
    let soup = program();
    let cpu = Cpu { program_counter: 2, head: 0, tail: 5 };
    assert_eq!(cpu.fetch(&soup), Some(Instruction::Divide));
    let cpu = Cpu { program_counter: 3, head: 0, tail: 5 };
    assert_eq!(cpu.fetch(&soup), None);
    assert_eq!(cpu, Cpu { program_counter: 3, head: 0, tail: 5 });
}

#[test]
fn tick_advances_by_one_cell() {
    let soup = program();
    let mut cpu = Cpu::new(0, 2);
    assert!(!cpu.tick(&soup));
    assert_eq!(cpu, Cpu { program_counter: 1, head: 0, tail: 2 });
    assert!(!cpu.tick(&soup));
    assert_eq!(cpu, Cpu { program_counter: 2, head: 0, tail: 2 });
}

#[test]
fn tick_wraps_from_tail_to_head() {
    let soup = program();
    let mut cpu = Cpu { program_counter: 5, head: 3, tail: 5 };
    assert!(!cpu.tick(&soup));
    assert_eq!(cpu, Cpu { program_counter: 3, head: 3, tail: 5 });
}

#[test]
fn replicate_advances_and_reports() {
    let soup = program();
    let mut cpu = Cpu { program_counter: 2, head: 0, tail: 2 };
    assert!(cpu.tick(&soup));
    assert_eq!(cpu, Cpu { program_counter: 0, head: 0, tail: 2 });

    let mut mid = Cpu { program_counter: 2, head: 1, tail: 4 };
    assert!(mid.tick(&soup));
    assert_eq!(mid, Cpu { program_counter: 3, head: 1, tail: 4 });
}

#[test]
fn only_divide_reports_replication() {
    let all = [
        Instruction::Adr,
        Instruction::Adrb,
        Instruction::Adrf,
        Instruction::Call,
        Instruction::DecC,
        Instruction::Divide,
        Instruction::IfCz,
        Instruction::IncA,
        Instruction::IncB,
        Instruction::IncC,
        Instruction::Jmp,
        Instruction::JumpB,
        Instruction::Mal,
        Instruction::MovAb,
        Instruction::MovCd,
        Instruction::MovIab,
        Instruction::Nop0,
        Instruction::Nop1,
        Instruction::Or1,
        Instruction::PopAx,
        Instruction::PopBx,
        Instruction::PopCx,
        Instruction::PopDx,
        Instruction::PushAx,
        Instruction::PushBx,
        Instruction::PushCx,
        Instruction::PushDx,
        Instruction::Ret,
        Instruction::Sh1,
        Instruction::SubAb,
        Instruction::SubAc,
        Instruction::Zero,
    ];
    for inst in all {
        let soup = vec![Some(inst), None];
        let mut cpu = Cpu::new(0, 1);
        assert_eq!(cpu.tick(&soup), inst == Instruction::Divide);
        assert_eq!(cpu, Cpu { program_counter: 1, head: 0, tail: 1 });
    }
}

#[test]
fn empty_cell_is_a_plain_step() {
    let soup: Vec<Option<Instruction>> = vec![None, None, None];
    let mut cpu = Cpu::new(1, 2);
    assert!(!cpu.tick(&soup));
    assert_eq!(cpu, Cpu { program_counter: 2, head: 1, tail: 2 });
    assert!(!cpu.tick(&soup));
    assert_eq!(cpu, Cpu { program_counter: 1, head: 1, tail: 2 });
}

#[test]
fn one_cell_window_stays_on_its_cell() {
    let soup = program();
    let mut cpu = Cpu::new(2, 2);
    for _ in 0..5 {
        assert!(cpu.tick(&soup));
        assert_eq!(cpu, Cpu { program_counter: 2, head: 2, tail: 2 });
    }
}

#[test]
fn pointer_stays_in_window_and_window_never_moves() {
    let soup = program();
    let mut cpu = Cpu { program_counter: 3, head: 1, tail: 4 };
    for n in 1..=100usize {
        cpu.tick(&soup);
        assert_eq!(cpu.head, 1);
        assert_eq!(cpu.tail, 4);
        assert!(cpu.head <= cpu.program_counter && cpu.program_counter <= cpu.tail);
        assert_eq!(cpu.program_counter, 1 + (2 + n) % 4);
    }
}

#[test]
fn pointer_after_ten_steps_on_three_cells() {
    let soup = program();
    let mut cpu = Cpu::new(0, 2);
    let mut replications = 0;
    for _ in 0..10 {
        if cpu.tick(&soup) {
            replications += 1;
        }
    }
    assert_eq!(cpu.program_counter, 1);
    assert_eq!(replications, 3);
}

#[test]
fn cpu_validity() {
    assert!(Cpu { program_counter: 0, head: 0, tail: 0 }.is_valid(1));
    assert!(Cpu { program_counter: 4, head: 3, tail: 5 }.is_valid(6));
    assert!(!Cpu { program_counter: 4, head: 3, tail: 5 }.is_valid(5));
    assert!(!Cpu { program_counter: 2, head: 3, tail: 5 }.is_valid(10));
    assert!(!Cpu { program_counter: 6, head: 3, tail: 5 }.is_valid(10));
    assert!(!Cpu { program_counter: 0, head: 0, tail: 0 }.is_valid(0));
    assert!(!Cpu::new(5, 3).is_valid(10));
}
