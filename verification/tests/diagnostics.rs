use soup_vm::instruction::{diagnostic, is_replicate, Instruction};

fn all_instructions() -> Vec<Instruction> {
    vec![
        Instruction::Adr,
        Instruction::Adrb,
        Instruction::Adrf,
        Instruction::Call,
        Instruction::DecC,
        Instruction::Divide,
        Instruction::IfCz,
        Instruction::IncA,
        Instruction::IncB,
        Instruction::IncC,
        Instruction::Jmp,
        Instruction::JumpB,
        Instruction::Mal,
        Instruction::MovAb,
        Instruction::MovCd,
        Instruction::MovIab,
        Instruction::Nop0,
        Instruction::Nop1,
        Instruction::Or1,
        Instruction::PopAx,
        Instruction::PopBx,
        Instruction::PopCx,
        Instruction::PopDx,
        Instruction::PushAx,
        Instruction::PushBx,
        Instruction::PushCx,
        Instruction::PushDx,
        Instruction::Ret,
        Instruction::Sh1,
        Instruction::SubAb,
        Instruction::SubAc,
        Instruction::Zero,
    ]
}

#[test]
fn the_instruction_set_has_thirty_two_opcodes() {
    let all = all_instructions();
    assert_eq!(all.len(), 32);
    for (i, a) in all.iter().enumerate() {
        for (j, b) in all.iter().enumerate() {
            assert_eq!(a == b, i == j);
        }
    }
}

#[test]
fn mnemonic_is_the_variant_name() {
    for inst in all_instructions() {
        assert_eq!(inst.mnemonic(), format!("{:?}", inst));
    }
}

#[test]
fn designated_opcodes_have_their_own_tags() {
    assert_eq!(diagnostic(Some(Instruction::Nop0)), "nop0");
    assert_eq!(diagnostic(Some(Instruction::Nop1)), "nop1");
    assert_eq!(diagnostic(Some(Instruction::Divide)), "divide");
    assert_ne!(diagnostic(Some(Instruction::Nop0)), diagnostic(Some(Instruction::Nop1)));
}

#[test]
fn empty_cell_reports_nothing() {
    assert_eq!(diagnostic(None), "nothing");
}

#[test]
fn other_opcodes_report_their_name() {
    assert_eq!(diagnostic(Some(Instruction::Adr)), "Adr");
    assert_eq!(diagnostic(Some(Instruction::MovIab)), "MovIab");
    assert_eq!(diagnostic(Some(Instruction::Zero)), "Zero");
    for inst in all_instructions() {
        if inst != Instruction::Nop0 && inst != Instruction::Nop1 && inst != Instruction::Divide {
            assert_eq!(diagnostic(Some(inst)), format!("{:?}", inst));
        }
    }
}

#[test]
fn diagnostics_tell_cells_apart() {
    let mut cells: Vec<Option<Instruction>> = vec![None];
    for inst in all_instructions() {
        cells.push(Some(inst));
    }
    for (i, a) in cells.iter().enumerate() {
        for (j, b) in cells.iter().enumerate() {
            assert_eq!(diagnostic(*a) == diagnostic(*b), i == j);
        }
    }
}

#[test]
fn replicate_is_divide_alone() {
    assert!(is_replicate(Some(Instruction::Divide)));
    assert!(!is_replicate(None));
    for inst in all_instructions() {
        assert_eq!(is_replicate(Some(inst)), inst == Instruction::Divide);
    }
}
