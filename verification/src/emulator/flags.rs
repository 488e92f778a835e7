use vstd::prelude::*;

verus! {

/// The four condition codes of the machine.
///
/// `less` is held but never derived by any ALU handler; it can only be
/// observed through conditional execution and through instruction flag bits.
#[derive(Debug, PartialEq, Eq, Structural, Clone, Copy)]
pub struct Flags {
    pub carry: bool,
    pub greater: bool,
    pub zero: bool,
    pub less: bool,
}

impl Flags {
    /// The conditional-execution gate: every condition code the instruction
    /// requests must currently be set on the CPU; unrequested codes are
    /// don't-care.
    pub open spec fn spec_can_run(cpu_flags: Flags, instruction_flags: Flags) -> bool {
        &&& !instruction_flags.zero || cpu_flags.zero
        &&& !instruction_flags.less || cpu_flags.less
        &&& !instruction_flags.greater || cpu_flags.greater
        &&& !instruction_flags.carry || cpu_flags.carry
    }

    pub fn new() -> (r: Flags)
        ensures
            r == (Flags { carry: false, greater: false, zero: false, less: false }),
    {
        Flags { carry: false, greater: false, zero: false, less: false }
    }

    pub fn set_all_flags(&mut self, state: bool)
        ensures
            *final(self) == (Flags { carry: state, greater: state, zero: state, less: state }),
    {
        self.carry = state;
        self.less = state;
        self.zero = state;
        self.greater = state;
    }

    pub fn instruction_can_run(cpu_flags: &Flags, instruction_flags: &Flags) -> (r: bool)
        ensures
            r == Flags::spec_can_run(*cpu_flags, *instruction_flags),
    {
        (!instruction_flags.zero || cpu_flags.zero) && (!instruction_flags.less
            || cpu_flags.less) && (!instruction_flags.greater || cpu_flags.greater) && (
        !instruction_flags.carry || cpu_flags.carry)
    }
}

/// Conditional execution blocks exactly when some requested condition code
/// is unset on the CPU; in particular an instruction that requests no codes
/// always runs, whatever the CPU's codes are.
pub proof fn lemma_gate_correct(cpu_flags: Flags, instruction_flags: Flags)
    ensures
        !Flags::spec_can_run(cpu_flags, instruction_flags) <==> {
            ||| instruction_flags.carry && !cpu_flags.carry
            ||| instruction_flags.less && !cpu_flags.less
            ||| instruction_flags.zero && !cpu_flags.zero
            ||| instruction_flags.greater && !cpu_flags.greater
        },
        (instruction_flags == Flags { carry: false, greater: false, zero: false, less: false })
            ==> Flags::spec_can_run(cpu_flags, instruction_flags),
{
}

} // verus!
