//! The closed set of opcodes that a memory cell can hold.

use vstd::prelude::*;

verus! {

/// One opcode. A cell of the shared memory holds `Some` opcode, or `None`
/// when it is unallocated.
#[derive(Clone, Copy, Debug, PartialEq, Eq, Structural)]
pub enum Instruction {
    Adr,
    Adrb,
    Adrf,
    Call,
    DecC,
    Divide,
    IfCz,
    IncA,
    IncB,
    IncC,
    Jmp,
    JumpB,
    Mal,
    MovAb,
    MovCd,
    MovIab,
    Nop0,
    Nop1,
    Or1,
    PopAx,
    PopBx,
    PopCx,
    PopDx,
    PushAx,
    PushBx,
    PushCx,
    PushDx,
    Ret,
    Sh1,
    SubAb,
    SubAc,
    Zero,
}

/// Whether executing `cell` completes a replication.
pub open spec fn replicates(cell: Option<Instruction>) -> bool {
    cell == Some(Instruction::Divide)
}

/// Decides `replicates` for a cell.
pub fn is_replicate(cell: Option<Instruction>) -> (r: bool)
    ensures
        r == replicates(cell),
{
    match cell {
        Some(Instruction::Divide) => true,
        _ => false,
    }
}

impl Instruction {
    /// The name of the opcode, spelled as its variant.
    pub open spec fn mnemonic_text(self) -> Seq<char> {
        match self {
            Instruction::Adr => "Adr"@,
            Instruction::Adrb => "Adrb"@,
            Instruction::Adrf => "Adrf"@,
            Instruction::Call => "Call"@,
            Instruction::DecC => "DecC"@,
            Instruction::Divide => "Divide"@,
            Instruction::IfCz => "IfCz"@,
            Instruction::IncA => "IncA"@,
            Instruction::IncB => "IncB"@,
            Instruction::IncC => "IncC"@,
            Instruction::Jmp => "Jmp"@,
            Instruction::JumpB => "JumpB"@,
            Instruction::Mal => "Mal"@,
            Instruction::MovAb => "MovAb"@,
            Instruction::MovCd => "MovCd"@,
            Instruction::MovIab => "MovIab"@,
            Instruction::Nop0 => "Nop0"@,
            Instruction::Nop1 => "Nop1"@,
            Instruction::Or1 => "Or1"@,
            Instruction::PopAx => "PopAx"@,
            Instruction::PopBx => "PopBx"@,
            Instruction::PopCx => "PopCx"@,
            Instruction::PopDx => "PopDx"@,
            Instruction::PushAx => "PushAx"@,
            Instruction::PushBx => "PushBx"@,
            Instruction::PushCx => "PushCx"@,
            Instruction::PushDx => "PushDx"@,
            Instruction::Ret => "Ret"@,
            Instruction::Sh1 => "Sh1"@,
            Instruction::SubAb => "SubAb"@,
            Instruction::SubAc => "SubAc"@,
            Instruction::Zero => "Zero"@,
        }
    }

    /// The name of the opcode, spelled as its variant.
    pub fn mnemonic(self) -> (name: &'static str)
        ensures
            name@ == self.mnemonic_text(),
    {
        match self {
            Instruction::Adr => "Adr",
            Instruction::Adrb => "Adrb",
            Instruction::Adrf => "Adrf",
            Instruction::Call => "Call",
            Instruction::DecC => "DecC",
            Instruction::Divide => "Divide",
            Instruction::IfCz => "IfCz",
            Instruction::IncA => "IncA",
            Instruction::IncB => "IncB",
            Instruction::IncC => "IncC",
            Instruction::Jmp => "Jmp",
            Instruction::JumpB => "JumpB",
            Instruction::Mal => "Mal",
            Instruction::MovAb => "MovAb",
            Instruction::MovCd => "MovCd",
            Instruction::MovIab => "MovIab",
            Instruction::Nop0 => "Nop0",
            Instruction::Nop1 => "Nop1",
            Instruction::Or1 => "Or1",
            Instruction::PopAx => "PopAx",
            Instruction::PopBx => "PopBx",
            Instruction::PopCx => "PopCx",
            Instruction::PopDx => "PopDx",
            Instruction::PushAx => "PushAx",
            Instruction::PushBx => "PushBx",
            Instruction::PushCx => "PushCx",
            Instruction::PushDx => "PushDx",
            Instruction::Ret => "Ret",
            Instruction::Sh1 => "Sh1",
            Instruction::SubAb => "SubAb",
            Instruction::SubAc => "SubAc",
            Instruction::Zero => "Zero",
        }
    }
}

/// What a processor reports when it executes `cell`. The two no-op opcodes
/// and the replicating opcode have tags of their own, every other opcode
/// reports its name, and an unallocated cell reports `nothing`.
pub open spec fn diagnostic_text(cell: Option<Instruction>) -> Seq<char> {
    match cell {
        Some(Instruction::Nop0) => "nop0"@,
        Some(Instruction::Nop1) => "nop1"@,
        Some(Instruction::Divide) => "divide"@,
        Some(inst) => inst.mnemonic_text(),
        None => "nothing"@,
    }
}

/// The diagnostic for executing `cell`. It has no part in what the step
/// does: the caller hands it to whatever log it keeps.
pub fn diagnostic(cell: Option<Instruction>) -> (text: &'static str)
    ensures
        text@ == diagnostic_text(cell),
{
    match cell {
        Some(Instruction::Nop0) => "nop0",
        Some(Instruction::Nop1) => "nop1",
        Some(Instruction::Divide) => "divide",
        Some(inst) => inst.mnemonic(),
        None => "nothing",
    }
}

/// Diagnostics tell cells apart: two different cells never report the
/// same text.
pub proof fn lemma_diagnostics_distinct(a: Option<Instruction>, b: Option<Instruction>)
    requires
        a != b,
    ensures
        diagnostic_text(a) != diagnostic_text(b),
{
    reveal_strlit("Adr");
    reveal_strlit("Adrb");
    reveal_strlit("Adrf");
    reveal_strlit("Call");
    reveal_strlit("DecC");
    reveal_strlit("Divide");
    reveal_strlit("IfCz");
    reveal_strlit("IncA");
    reveal_strlit("IncB");
    reveal_strlit("IncC");
    reveal_strlit("Jmp");
    reveal_strlit("JumpB");
    reveal_strlit("Mal");
    reveal_strlit("MovAb");
    reveal_strlit("MovCd");
    reveal_strlit("MovIab");
    reveal_strlit("Nop0");
    reveal_strlit("Nop1");
    reveal_strlit("Or1");
    reveal_strlit("PopAx");
    reveal_strlit("PopBx");
    reveal_strlit("PopCx");
    reveal_strlit("PopDx");
    reveal_strlit("PushAx");
    reveal_strlit("PushBx");
    reveal_strlit("PushCx");
    reveal_strlit("PushDx");
    reveal_strlit("Ret");
    reveal_strlit("Sh1");
    reveal_strlit("SubAb");
    reveal_strlit("SubAc");
    reveal_strlit("Zero");
    reveal_strlit("nop0");
    reveal_strlit("nop1");
    reveal_strlit("divide");
    reveal_strlit("nothing");
    let s = diagnostic_text(a);
    let t = diagnostic_text(b);
    if s == t {
        assert(s.len() == t.len());
        assert(s[0] == t[0]);
        assert(s[1] == t[1]);
        assert(s[2] == t[2]);
        assert(s[3] == t[3]);
        assert(s[4] == t[4]);
    }
}

} // verus!
