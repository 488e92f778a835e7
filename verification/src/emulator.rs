//! The execution engine: register file, program counter, flags, owned memory,
//! and the per-step state transition.

pub mod flags;
pub mod instruction;
pub mod memory;

use vstd::prelude::*;
pub use instruction::Instruction;
use instruction::{
    spec_decode, spec_encode, spec_i, spec_i_offset, spec_i_y, spec_legal, spec_r_dest, spec_r_x,
    spec_r_y,
};
use memory::{spec_read_u32, spec_write_u32, wrap_addr, Memory, SimpleMemory, MEMORY_SIZE};
use flags::Flags;

verus! {

/// The mathematical state of the machine: register bytes, stack pointer,
/// program counter, condition codes and memory bytes.
pub struct CpuView {
    pub regs: Seq<u8>,
    pub stack_pointer: u8,
    pub pc: u8,
    pub flags: Flags,
    pub mem: Seq<u8>,
}

/// What a register read yields: address `0` and addresses `30` and above are
/// the black-hole dead zone and always yield `0`; addresses `1` to `29` index
/// the general-purpose file.
pub open spec fn spec_reg_read(regs: Seq<u8>, addr: u8) -> u8 {
    if addr == 0 {
        0
    } else if addr <= 29 {
        regs[addr - 1]
    } else {
        0
    }
}

/// What a register write leaves behind: stores to the dead zone are
/// discarded, stores to `1` to `29` update the file.
pub open spec fn spec_reg_write(regs: Seq<u8>, addr: u8, value: u8) -> Seq<u8> {
    if 1 <= addr && addr <= 29 {
        regs.update(addr - 1, value)
    } else {
        regs
    }
}

/// A machine state whose register file has its full 29 cells.
pub open spec fn view_wf(s: CpuView) -> bool {
    s.regs.len() == 29
}

/// Whether the four instruction bytes at the program counter are readable.
pub open spec fn spec_fetch_ok(s: CpuView) -> bool {
    spec_read_u32(s.mem, s.pc) is Some
}

/// The instruction decoded from the word at the program counter.
pub open spec fn spec_fetched(s: CpuView) -> Instruction {
    spec_decode(spec_read_u32(s.mem, s.pc).unwrap())
}

/// The low byte of a signed value, as two's-complement truncation.
pub open spec fn spec_byte_of_int(v: int) -> u8 {
    (v % 256) as u8
}

/// Which opcodes of the ALU range take a register-immediate operand; the
/// others take register-register.
pub open spec fn spec_is_ri(opcode: u8) -> bool {
    ||| opcode == 1
    ||| opcode == 3
    ||| opcode == 5
    ||| opcode == 7
    ||| opcode == 9
    ||| opcode == 12
    ||| opcode == 14
    ||| opcode == 16
}

/// Result byte and carry of one ALU operation, selected by opcode.
/// Arithmetic wraps modulo 256 with the carry recording overflow; shift
/// amounts are taken modulo 8; the bitwise operations never carry.
pub open spec fn spec_alu(opcode: u8, x: u8, y: u8) -> (u8, bool) {
    if opcode <= 1 {
        ((((x as u32) << ((y & 7) as u32)) & 0xFF) as u8, false)
    } else if opcode <= 3 {
        (x >> (y & 7), false)
    } else if opcode <= 5 {
        (x & y, false)
    } else if opcode <= 7 {
        (x | y, false)
    } else if opcode <= 9 {
        (x ^ y, false)
    } else if opcode == 10 {
        (!x, false)
    } else if opcode <= 12 {
        ((((x as int) + (y as int)) % 256) as u8, x as int + y as int >= 256)
    } else if opcode <= 14 {
        ((((x as int) - (y as int)) % 256) as u8, (x as int) < (y as int))
    } else {
        ((((x as int) * (y as int)) % 256) as u8, x as int * y as int >= 256)
    }
}

/// The condition codes an ALU operation leaves behind: `carry` from the
/// operation, `zero` and `greater` from the result byte, `less` untouched.
pub open spec fn spec_alu_flags(old_flags: Flags, result: u8, carry: bool) -> Flags {
    Flags { carry: carry, greater: result > 0, zero: result == 0, less: old_flags.less }
}

/// One register-register ALU step: operands read from the `x` and `y`
/// registers, result written to `dest`, flags derived, counter advanced by 4.
pub open spec fn spec_alu_rd_step(s: CpuView, opsel: u8) -> CpuView {
    let inst = spec_fetched(s);
    let x = spec_reg_read(s.regs, spec_r_x(inst.operands));
    let y = spec_reg_read(s.regs, spec_r_y(inst.operands));
    let rc = spec_alu(opsel, x, y);
    CpuView {
        regs: spec_reg_write(s.regs, spec_r_dest(inst.operands), rc.0),
        flags: spec_alu_flags(s.flags, rc.0, rc.1),
        pc: wrap_addr(s.pc, 4),
        ..s
    }
}

/// One register-immediate ALU step: the second operand is the low byte of the
/// decoded signed immediate.
pub open spec fn spec_alu_ri_step(s: CpuView, opsel: u8) -> CpuView {
    let inst = spec_fetched(s);
    let x = spec_reg_read(s.regs, spec_r_x(inst.operands));
    let y = spec_byte_of_int(spec_i_y(inst.operands) as int);
    let rc = spec_alu(opsel, x, y);
    CpuView {
        regs: spec_reg_write(s.regs, spec_r_dest(inst.operands), rc.0),
        flags: spec_alu_flags(s.flags, rc.0, rc.1),
        pc: wrap_addr(s.pc, 4),
        ..s
    }
}

/// One byte moved from memory into a register: fails on a target register
/// outside the file and dead zone, or on an out-of-range address, leaving the
/// state unchanged.
pub open spec fn spec_copy_mem_to_reg(s: CpuView, from: u8, to: u8) -> (CpuView, bool) {
    if to >= 31 {
        (s, false)
    } else if from as int >= s.mem.len() {
        (s, false)
    } else {
        (CpuView { regs: spec_reg_write(s.regs, to, s.mem[from as int]), ..s }, true)
    }
}

/// `n` consecutive bytes moved from memory into consecutive registers,
/// stopping at the first failing byte with the earlier bytes committed.
pub open spec fn spec_copy_block_to_regs(s: CpuView, from: u8, to: u8, n: nat) -> (CpuView, bool)
    decreases n,
{
    if n == 0 {
        (s, true)
    } else {
        let r = spec_copy_mem_to_reg(s, from, to);
        if !r.1 {
            (r.0, false)
        } else {
            spec_copy_block_to_regs(r.0, wrap_addr(from, 1), wrap_addr(to, 1), (n - 1) as nat)
        }
    }
}

/// One byte moved from a register into memory: fails on a source register
/// outside the file and dead zone, or on an out-of-range address.
pub open spec fn spec_copy_reg_to_mem(s: CpuView, from: u8, to: u8) -> (CpuView, bool) {
    if from >= 31 {
        (s, false)
    } else if to as int >= s.mem.len() {
        (s, false)
    } else {
        (CpuView { mem: s.mem.update(to as int, spec_reg_read(s.regs, from)), ..s }, true)
    }
}

/// `n` consecutive registers stored to consecutive memory bytes, stopping at
/// the first failing byte with the earlier bytes committed.
pub open spec fn spec_copy_block_to_mem(s: CpuView, from: u8, to: u8, n: nat) -> (CpuView, bool)
    decreases n,
{
    if n == 0 {
        (s, true)
    } else {
        let r = spec_copy_reg_to_mem(s, from, to);
        if !r.1 {
            (r.0, false)
        } else {
            spec_copy_block_to_mem(r.0, wrap_addr(from, 1), wrap_addr(to, 1), (n - 1) as nat)
        }
    }
}

/// The effective address of the base+offset memory family: the base register
/// plus the low byte of the 12-bit offset, as an 8-bit wrapping sum.
pub open spec fn spec_bo_address(s: CpuView) -> u8 {
    let inst = spec_fetched(s);
    wrap_addr(spec_reg_read(s.regs, spec_r_x(inst.operands)), (spec_i_offset(inst.operands)
        & 0xFF) as u8)
}

/// The effective address of the base+index memory family: base register plus
/// index register, as an 8-bit wrapping sum.
pub open spec fn spec_bi_address(s: CpuView) -> u8 {
    let inst = spec_fetched(s);
    wrap_addr(
        spec_reg_read(s.regs, spec_r_x(inst.operands)),
        spec_reg_read(s.regs, spec_r_y(inst.operands)),
    )
}

/// One load step of `n` bytes into registers starting at `dest`: on success
/// the counter advances by 4; a failing byte halts in place, bytes already
/// copied staying committed.
pub open spec fn spec_load_step(s: CpuView, address: u8, n: nat) -> (CpuView, bool) {
    let dest = spec_r_dest(spec_fetched(s).operands);
    let r = spec_copy_block_to_regs(s, address, dest, n);
    if r.1 {
        (CpuView { pc: wrap_addr(r.0.pc, 4), ..r.0 }, false)
    } else {
        (r.0, true)
    }
}

/// One store step of `n` register bytes starting at `target` into memory; the
/// same success and partial-failure shape as a load step.
pub open spec fn spec_store_step(s: CpuView, address: u8, n: nat) -> (CpuView, bool) {
    let target = spec_r_dest(spec_fetched(s).operands);
    let r = spec_copy_block_to_mem(s, target, address, n);
    if r.1 {
        (CpuView { pc: wrap_addr(r.0.pc, 4), ..r.0 }, false)
    } else {
        (r.0, true)
    }
}

/// A relative jump: the counter moves by the signed 21-bit operand as an
/// 8-bit wrapping sum.
pub open spec fn spec_jump_offset_step(s: CpuView) -> CpuView {
    CpuView { pc: wrap_addr(s.pc, spec_byte_of_int(spec_i(spec_fetched(s).operands))), ..s }
}

/// An absolute jump to the value held in the `dest` register.
pub open spec fn spec_jump_rd_step(s: CpuView) -> CpuView {
    CpuView { pc: spec_reg_read(s.regs, spec_r_dest(spec_fetched(s).operands)), ..s }
}

/// An absolute jump to the signed immediate: targets outside the byte
/// address space halt the machine in place.
pub open spec fn spec_jump_i_step(s: CpuView) -> (CpuView, bool) {
    let target = spec_i(spec_fetched(s).operands);
    if 0 <= target <= 255 {
        (CpuView { pc: target as u8, ..s }, false)
    } else {
        (s, true)
    }
}

/// The whole machine step: fetch and decode at the counter, gate on the
/// requested condition codes (a gated-off instruction only advances the
/// counter by 4), then dispatch on the opcode. The boolean is true exactly
/// when the machine halts: on a software interrupt, an unimplemented opcode,
/// an out-of-range jump immediate, or a failing byte of a load or store.
pub open spec fn spec_step(s: CpuView) -> (CpuView, bool) {
    let inst = spec_fetched(s);
    if !Flags::spec_can_run(s.flags, inst.flags) {
        (CpuView { pc: wrap_addr(s.pc, 4), ..s }, false)
    } else if inst.opcode <= 16 {
        if spec_is_ri(inst.opcode) {
            (spec_alu_ri_step(s, inst.opcode), false)
        } else {
            (spec_alu_rd_step(s, inst.opcode), false)
        }
    } else if inst.opcode == 17 {
        spec_load_step(s, spec_bo_address(s), 1)
    } else if inst.opcode == 18 {
        spec_load_step(s, spec_bi_address(s), 1)
    } else if inst.opcode == 19 {
        spec_load_step(s, spec_bo_address(s), 2)
    } else if inst.opcode == 20 {
        spec_load_step(s, spec_bi_address(s), 2)
    } else if inst.opcode == 21 {
        spec_load_step(s, spec_bo_address(s), 4)
    } else if inst.opcode == 22 {
        spec_load_step(s, spec_bi_address(s), 4)
    } else if inst.opcode == 23 {
        spec_store_step(s, spec_bo_address(s), 1)
    } else if inst.opcode == 24 {
        spec_store_step(s, spec_bi_address(s), 1)
    } else if inst.opcode == 25 {
        spec_store_step(s, spec_bo_address(s), 2)
    } else if inst.opcode == 26 {
        spec_store_step(s, spec_bi_address(s), 2)
    } else if inst.opcode == 27 {
        spec_store_step(s, spec_bo_address(s), 4)
    } else if inst.opcode == 28 {
        spec_store_step(s, spec_bi_address(s), 4)
    } else if inst.opcode == 29 {
        (spec_jump_offset_step(s), false)
    } else if inst.opcode == 30 {
        (spec_jump_rd_step(s), false)
    } else if inst.opcode == 31 {
        spec_jump_i_step(s)
    } else {
        (s, true)
    }
}

/// A negative immediate multiply is a fatal configuration error, not a
/// runtime halt: a state about to run one is outside the engine's domain.
pub open spec fn spec_clock_safe(s: CpuView) -> bool {
    let inst = spec_fetched(s);
    (Flags::spec_can_run(s.flags, inst.flags) && inst.opcode == 16) ==> spec_i_y(inst.operands)
        >= 0
}

/// The outcome of one clock step: either a machine that can keep running, or
/// a halted machine carrying its full state for inspection.
#[must_use]
pub enum UnknownCpu<M: Memory> {
    Inter(Cpu<M>),
    Runnable(Cpu<M>),
}

impl<M: Memory> UnknownCpu<M> {
    /// The state carried, halted or not.
    pub open spec fn cpu_view(self) -> CpuView {
        match self {
            UnknownCpu::Inter(c) => c@,
            UnknownCpu::Runnable(c) => c@,
        }
    }

    pub open spec fn is_interrupted(self) -> bool {
        match self {
            UnknownCpu::Inter(_) => true,
            UnknownCpu::Runnable(_) => false,
        }
    }

    pub open spec fn cpu_wf(self) -> bool {
        match self {
            UnknownCpu::Inter(c) => c.wf(),
            UnknownCpu::Runnable(c) => c.wf(),
        }
    }
}

/// The machine: 29 general-purpose byte registers, a stack pointer, a byte
/// program counter, condition codes, and an owned memory backing reached
/// through the `Memory` capability.
pub struct Cpu<M: Memory> {
    general_purpose: Vec<u8>,
    stack_pointer: u8,
    pub program_counter: u8,
    pub flags: Flags,
    pub memory: M,
}

impl<M: Memory> View for Cpu<M> {
    type V = CpuView;

    closed spec fn view(&self) -> CpuView {
        CpuView {
            regs: self.general_purpose@,
            stack_pointer: self.stack_pointer,
            pc: self.program_counter,
            flags: self.flags,
            mem: self.memory.contents(),
        }
    }
}

impl<M: Memory> Cpu<M> {
    pub open spec fn wf(&self) -> bool {
        view_wf(self@)
    }

    fn is_valid_register(&self, value: u8) -> (r: bool)
        ensures
            r == (value < 31),
    {
        value < 31
    }

    fn copy_from_memory(&mut self, from: u8, to: u8) -> (r: Result<(), &'static str>)
        requires
            old(self).wf(),
        ensures
            final(self).wf(),
            final(self)@ == spec_copy_mem_to_reg(old(self)@, from, to).0,
            (r is Ok) == spec_copy_mem_to_reg(old(self)@, from, to).1,
    {
        if !self.is_valid_register(to) {
            return Err("Invalid register to write too");
        }
        let value = match self.memory.read(from) {
            Some(v) => v,
            None => {
                return Err("Invalid read from memory");
            },
        };
        self.write(to, value);
        Ok(())
    }

    fn copy_to_memory(&mut self, from: u8, to: u8) -> (r: Result<(), &'static str>)
        requires
            old(self).wf(),
        ensures
            final(self).wf(),
            final(self)@ == spec_copy_reg_to_mem(old(self)@, from, to).0,
            (r is Ok) == spec_copy_reg_to_mem(old(self)@, from, to).1,
    {
        if !self.is_valid_register(from) {
            return Err("Invalid register to write to");
        }
        let value = self.read(from);
        self.memory.write(to, value)?;
        Ok(())
    }

    /// What a register read yields, dead zone included.
    pub fn read(&self, addr: u8) -> (r: u8)
        requires
            self.wf(),
        ensures
            r == spec_reg_read(self@.regs, addr),
    {
        if addr == 0 {
            0
        } else if addr <= 29 {
            self.general_purpose[(addr - 1) as usize]
        } else {
            0
        }
    }

    /// A register write; stores to the dead zone are discarded.
    pub fn write(&mut self, addr: u8, value: u8)
        requires
            old(self).wf(),
        ensures
            final(self).wf(),
            final(self)@ == (CpuView {
                regs: spec_reg_write(old(self)@.regs, addr, value),
                ..old(self)@
            }),
    {
        if addr == 0 {
        } else if addr <= 29 {
            self.general_purpose[(addr - 1) as usize] = value;
        } else {
        }
    }

    /// The instruction decoded from the word at the program counter.
    pub fn current_instruction(&self) -> (r: Instruction)
        requires
            spec_fetch_ok(self@),
        ensures
            r == spec_fetched(self@),
            spec_legal(r),
    {
        self.instruction_at(self.program_counter)
    }

    fn instruction_at(&self, i: u8) -> (r: Instruction)
        requires
            spec_read_u32(self@.mem, i) is Some,
        ensures
            r == spec_decode(spec_read_u32(self@.mem, i).unwrap()),
            spec_legal(r),
    {
        Instruction::decode(self.memory.read_u32(i).unwrap())
    }

    /// Serializes the instruction into four consecutive memory bytes,
    /// little-endian, at the given byte address; all four bytes must be
    /// writable.
    pub fn load_instruction(&mut self, location: u8, instruction: &Instruction)
        requires
            old(self).wf(),
            spec_legal(*instruction),
            spec_write_u32(old(self)@.mem, location, spec_encode(*instruction)).1,
        ensures
            final(self).wf(),
            final(self)@ == (CpuView {
                mem: spec_write_u32(old(self)@.mem, location, spec_encode(*instruction)).0,
                ..old(self)@
            }),
    {
        match self.memory.write_u32(location, instruction.encode()) {
            Ok(_) => (),
            Err(_) => (),
        }
    }

    /// Simulates a rising edge on the clock: one whole machine step as given
    /// by `spec_step`, returning the halted alternative exactly when the
    /// step halts.
    pub fn clock(self) -> (r: UnknownCpu<M>)
        requires
            self.wf(),
            self@.pc <= 251,
            spec_fetch_ok(self@),
            spec_clock_safe(self@),
        ensures
            r.cpu_wf(),
            r.cpu_view() == spec_step(self@).0,
            r.is_interrupted() == spec_step(self@).1,
    {
        let mut cpu = self;
        let instruction = cpu.current_instruction();
        if !Flags::instruction_can_run(&cpu.flags, &instruction.flags) {
            cpu.program_counter = cpu.program_counter + 4;
            return UnknownCpu::Runnable(cpu);
        }
        match instruction.opcode {
            0 => InstSet::logical_left_shift_rd(cpu),
            1 => InstSet::logical_left_shift_ri(cpu),
            2 => InstSet::logical_right_shift_rd(cpu),
            3 => InstSet::logical_right_shift_ri(cpu),
            4 => InstSet::logical_and_rd(cpu),
            5 => InstSet::logical_and_ri(cpu),
            6 => InstSet::logical_or_rd(cpu),
            7 => InstSet::logical_or_ri(cpu),
            8 => InstSet::logical_xor_rd(cpu),
            9 => InstSet::logical_xor_ri(cpu),
            10 => InstSet::logical_not_rd(cpu),
            11 => InstSet::logical_add_rd(cpu),
            12 => InstSet::logical_add_ri(cpu),
            13 => InstSet::sub_rd(cpu),
            14 => InstSet::sub_ri(cpu),
            15 => InstSet::multiply_rd(cpu),
            16 => InstSet::multiply_ri(cpu),
            17 => InstSet::load_8_bo(cpu),
            18 => InstSet::load_8_bi(cpu),
            19 => InstSet::load_16_bo(cpu),
            20 => InstSet::load_16_bi(cpu),
            21 => InstSet::load_32_bo(cpu),
            22 => InstSet::load_32_bi(cpu),
            23 => InstSet::store_8_bo(cpu),
            24 => InstSet::store_8_bi(cpu),
            25 => InstSet::store_16_bo(cpu),
            26 => InstSet::store_16_bi(cpu),
            27 => InstSet::store_32_bo(cpu),
            28 => InstSet::store_32_bi(cpu),
            29 => InstSet::jump_offset(cpu),
            30 => InstSet::jump_to_rd(cpu),
            31 => InstSet::jump_to_i(cpu),
            32 => InstSet::trigger_interupt(cpu),
            _ => UnknownCpu::Inter(cpu),
        }
    }
}

impl Cpu<SimpleMemory> {
    /// A machine full of power-on noise: arbitrary register bytes and a
    /// memory whose cells all hold one and the same arbitrary byte; counter
    /// at 1, stack pointer 0, no condition codes set.
    pub fn new() -> (r: Cpu<SimpleMemory>)
        ensures
            r.wf(),
            r@.stack_pointer == 0,
            r@.pc == 1,
            r@.flags == (Flags { carry: false, greater: false, zero: false, less: false }),
            r@.mem.len() == MEMORY_SIZE as int,
            forall|i: int| 0 <= i < r@.mem.len() ==> #[trigger] r@.mem[i] == r@.mem[0],
    {
        let mut general_purpose: Vec<u8> = Vec::new();
        let mut i: usize = 0;
        while i < 29
            invariant
                i <= 29,
                general_purpose@.len() == i,
            decreases 29 - i,
        {
            general_purpose.push(memory::random_u8());
            i = i + 1;
        }
        Cpu {
            general_purpose,
            stack_pointer: 0,
            program_counter: 1,
            flags: Flags::new(),
            memory: SimpleMemory::new(),
        }
    }

    /// A deterministic all-zero machine: counter at 1, stack pointer 0, no
    /// condition codes set, registers and memory zeroed.
    pub fn new_blank() -> (r: Cpu<SimpleMemory>)
        ensures
            r.wf(),
            r@ == (CpuView {
                regs: Seq::new(29, |i: int| 0u8),
                stack_pointer: 0,
                pc: 1,
                flags: Flags { carry: false, greater: false, zero: false, less: false },
                mem: Seq::new(MEMORY_SIZE as nat, |i: int| 0u8),
            }),
    {
        let mut general_purpose: Vec<u8> = Vec::new();
        let mut i: usize = 0;
        while i < 29
            invariant
                i <= 29,
                general_purpose@.len() == i,
                forall|j: int| 0 <= j < i ==> general_purpose@[j] == 0u8,
            decreases 29 - i,
        {
            general_purpose.push(0);
            i = i + 1;
        }
        proof {
            assert(general_purpose@ =~= Seq::new(29, |i: int| 0u8));
        }
        Cpu {
            general_purpose,
            stack_pointer: 0,
            program_counter: 1,
            flags: Flags::new(),
            memory: SimpleMemory::new_blank(),
        }
    }
}

/// The result byte and carry of the ALU operation `opcode` selects.
fn alu_eval(opcode: u8, x: u8, y: u8) -> (r: (u8, bool))
    requires
        opcode <= 16,
    ensures
        r == spec_alu(opcode, x, y),
{
    if opcode <= 1 {
        let sh: u8 = y & 7;
        proof {
            assert((y & 7) < 8) by (bit_vector);
        }
        let wide: u32 = (x as u32) << (sh as u32);
        proof {
            let w = wide;
            assert((w & 0xFF) <= 0xFF) by (bit_vector);
        }
        ((wide & 0xFF) as u8, false)
    } else if opcode <= 3 {
        let sh: u8 = y & 7;
        proof {
            assert((y & 7) < 8) by (bit_vector);
        }
        (x >> sh, false)
    } else if opcode <= 5 {
        (x & y, false)
    } else if opcode <= 7 {
        (x | y, false)
    } else if opcode <= 9 {
        (x ^ y, false)
    } else if opcode == 10 {
        (!x, false)
    } else if opcode <= 12 {
        let sum: u16 = x as u16 + y as u16;
        ((sum % 256) as u8, sum >= 256)
    } else if opcode <= 14 {
        if x >= y {
            (x - y, false)
        } else {
            let wrapped: u16 = 256 + x as u16 - y as u16;
            proof {
                assert((x as int - y as int) % 256 == x as int - y as int + 256) by {
                    assert((x as int - y as int) / 256 == -1) by (nonlinear_arith)
                        requires
                            x < y,
                    ;
                }
            }
            ((wrapped % 256) as u8, true)
        }
    } else {
        proof {
            assert(x as int * y as int <= 255 * 255) by (nonlinear_arith)
                requires
                    x <= 255,
                    y <= 255,
            ;
        }
        let prod: u16 = (x as u16) * (y as u16);
        ((prod % 256) as u8, prod >= 256)
    }
}

/// The per-opcode state-transition handlers.
pub struct InstSet {}

impl InstSet {
    /// Shared body of the register-register ALU family.
    pub fn apply_rd_function<M: Memory>(mut cpu: Cpu<M>, opsel: u8) -> (r: UnknownCpu<M>)
        requires
            cpu.wf(),
            cpu@.pc <= 251,
            spec_fetch_ok(cpu@),
            opsel <= 16,
        ensures
            r.cpu_wf(),
            !r.is_interrupted(),
            r.cpu_view() == spec_alu_rd_step(cpu@, opsel),
    {
        let instruction = cpu.current_instruction();
        let x = cpu.read(instruction.r_x());
        let y = cpu.read(instruction.r_y());
        let rc = alu_eval(opsel, x, y);
        cpu.flags.carry = rc.1;
        cpu.flags.greater = rc.0 > 0;
        cpu.flags.zero = rc.0 == 0;
        cpu.write(instruction.r_dest(), rc.0);
        cpu.program_counter = cpu.program_counter + 4;
        UnknownCpu::Runnable(cpu)
    }

    /// Shared body of the register-immediate ALU family; the immediate is
    /// truncated to its low byte.
    pub fn apply_ri_function<M: Memory>(mut cpu: Cpu<M>, opsel: u8) -> (r: UnknownCpu<M>)
        requires
            cpu.wf(),
            cpu@.pc <= 251,
            spec_fetch_ok(cpu@),
            opsel <= 16,
        ensures
            r.cpu_wf(),
            !r.is_interrupted(),
            r.cpu_view() == spec_alu_ri_step(cpu@, opsel),
    {
        let instruction = cpu.current_instruction();
        let x = cpu.read(instruction.r_x());
        let yv: i16 = instruction.i_y();
        let y: u8 = #[verifier::truncate] (yv as u8);
        proof {
            assert((yv as u8) as int == (yv as int) % 256) by (bit_vector);
        }
        let rc = alu_eval(opsel, x, y);
        cpu.flags.carry = rc.1;
        cpu.flags.greater = rc.0 > 0;
        cpu.flags.zero = rc.0 == 0;
        cpu.write(instruction.r_dest(), rc.0);
        cpu.program_counter = cpu.program_counter + 4;
        UnknownCpu::Runnable(cpu)
    }

    pub fn logical_left_shift_rd<M: Memory>(cpu: Cpu<M>) -> (r: UnknownCpu<M>)
        requires
            cpu.wf(),
            cpu@.pc <= 251,
            spec_fetch_ok(cpu@),
        ensures
            r.cpu_wf(),
            !r.is_interrupted(),
            r.cpu_view() == spec_alu_rd_step(cpu@, 0),
    {
        InstSet::apply_rd_function(cpu, 0)
    }

    pub fn logical_left_shift_ri<M: Memory>(cpu: Cpu<M>) -> (r: UnknownCpu<M>)
        requires
            cpu.wf(),
            cpu@.pc <= 251,
            spec_fetch_ok(cpu@),
        ensures
            r.cpu_wf(),
            !r.is_interrupted(),
            r.cpu_view() == spec_alu_ri_step(cpu@, 1),
    {
        InstSet::apply_ri_function(cpu, 1)
    }

    pub fn logical_right_shift_rd<M: Memory>(cpu: Cpu<M>) -> (r: UnknownCpu<M>)
        requires
            cpu.wf(),
            cpu@.pc <= 251,
            spec_fetch_ok(cpu@),
        ensures
            r.cpu_wf(),
            !r.is_interrupted(),
            r.cpu_view() == spec_alu_rd_step(cpu@, 2),
    {
        InstSet::apply_rd_function(cpu, 2)
    }

    pub fn logical_right_shift_ri<M: Memory>(cpu: Cpu<M>) -> (r: UnknownCpu<M>)
        requires
            cpu.wf(),
            cpu@.pc <= 251,
            spec_fetch_ok(cpu@),
        ensures
            r.cpu_wf(),
            !r.is_interrupted(),
            r.cpu_view() == spec_alu_ri_step(cpu@, 3),
    {
        InstSet::apply_ri_function(cpu, 3)
    }

    pub fn logical_and_rd<M: Memory>(cpu: Cpu<M>) -> (r: UnknownCpu<M>)
        requires
            cpu.wf(),
            cpu@.pc <= 251,
            spec_fetch_ok(cpu@),
        ensures
            r.cpu_wf(),
            !r.is_interrupted(),
            r.cpu_view() == spec_alu_rd_step(cpu@, 4),
    {
        InstSet::apply_rd_function(cpu, 4)
    }

    pub fn logical_and_ri<M: Memory>(cpu: Cpu<M>) -> (r: UnknownCpu<M>)
        requires
            cpu.wf(),
            cpu@.pc <= 251,
            spec_fetch_ok(cpu@),
        ensures
            r.cpu_wf(),
            !r.is_interrupted(),
            r.cpu_view() == spec_alu_ri_step(cpu@, 5),
    {
        InstSet::apply_ri_function(cpu, 5)
    }

    pub fn logical_or_rd<M: Memory>(cpu: Cpu<M>) -> (r: UnknownCpu<M>)
        requires
            cpu.wf(),
            cpu@.pc <= 251,
            spec_fetch_ok(cpu@),
        ensures
            r.cpu_wf(),
            !r.is_interrupted(),
            r.cpu_view() == spec_alu_rd_step(cpu@, 6),
    {
        InstSet::apply_rd_function(cpu, 6)
    }

    pub fn logical_or_ri<M: Memory>(cpu: Cpu<M>) -> (r: UnknownCpu<M>)
        requires
            cpu.wf(),
            cpu@.pc <= 251,
            spec_fetch_ok(cpu@),
        ensures
            r.cpu_wf(),
            !r.is_interrupted(),
            r.cpu_view() == spec_alu_ri_step(cpu@, 7),
    {
        InstSet::apply_ri_function(cpu, 7)
    }

    pub fn logical_xor_rd<M: Memory>(cpu: Cpu<M>) -> (r: UnknownCpu<M>)
        requires
            cpu.wf(),
            cpu@.pc <= 251,
            spec_fetch_ok(cpu@),
        ensures
            r.cpu_wf(),
            !r.is_interrupted(),
            r.cpu_view() == spec_alu_rd_step(cpu@, 8),
    {
        InstSet::apply_rd_function(cpu, 8)
    }

    pub fn logical_xor_ri<M: Memory>(cpu: Cpu<M>) -> (r: UnknownCpu<M>)
        requires
            cpu.wf(),
            cpu@.pc <= 251,
            spec_fetch_ok(cpu@),
        ensures
            r.cpu_wf(),
            !r.is_interrupted(),
            r.cpu_view() == spec_alu_ri_step(cpu@, 9),
    {
        InstSet::apply_ri_function(cpu, 9)
    }

    pub fn logical_not_rd<M: Memory>(cpu: Cpu<M>) -> (r: UnknownCpu<M>)
        requires
            cpu.wf(),
            cpu@.pc <= 251,
            spec_fetch_ok(cpu@),
        ensures
            r.cpu_wf(),
            !r.is_interrupted(),
            r.cpu_view() == spec_alu_rd_step(cpu@, 10),
    {
        InstSet::apply_rd_function(cpu, 10)
    }

    pub fn logical_add_rd<M: Memory>(cpu: Cpu<M>) -> (r: UnknownCpu<M>)
        requires
            cpu.wf(),
            cpu@.pc <= 251,
            spec_fetch_ok(cpu@),
        ensures
            r.cpu_wf(),
            !r.is_interrupted(),
            r.cpu_view() == spec_alu_rd_step(cpu@, 11),
    {
        InstSet::apply_rd_function(cpu, 11)
    }

    pub fn logical_add_ri<M: Memory>(cpu: Cpu<M>) -> (r: UnknownCpu<M>)
        requires
            cpu.wf(),
            cpu@.pc <= 251,
            spec_fetch_ok(cpu@),
        ensures
            r.cpu_wf(),
            !r.is_interrupted(),
            r.cpu_view() == spec_alu_ri_step(cpu@, 12),
    {
        InstSet::apply_ri_function(cpu, 12)
    }

    pub fn sub_rd<M: Memory>(cpu: Cpu<M>) -> (r: UnknownCpu<M>)
        requires
            cpu.wf(),
            cpu@.pc <= 251,
            spec_fetch_ok(cpu@),
        ensures
            r.cpu_wf(),
            !r.is_interrupted(),
            r.cpu_view() == spec_alu_rd_step(cpu@, 13),
    {
        InstSet::apply_rd_function(cpu, 13)
    }

    pub fn sub_ri<M: Memory>(cpu: Cpu<M>) -> (r: UnknownCpu<M>)
        requires
            cpu.wf(),
            cpu@.pc <= 251,
            spec_fetch_ok(cpu@),
        ensures
            r.cpu_wf(),
            !r.is_interrupted(),
            r.cpu_view() == spec_alu_ri_step(cpu@, 14),
    {
        InstSet::apply_ri_function(cpu, 14)
    }

    pub fn multiply_rd<M: Memory>(cpu: Cpu<M>) -> (r: UnknownCpu<M>)
        requires
            cpu.wf(),
            cpu@.pc <= 251,
            spec_fetch_ok(cpu@),
        ensures
            r.cpu_wf(),
            !r.is_interrupted(),
            r.cpu_view() == spec_alu_rd_step(cpu@, 15),
    {
        InstSet::apply_rd_function(cpu, 15)
    }

    /// A negative immediate cannot be multiplied; such states are outside
    /// the engine's domain (see `spec_clock_safe`).
    pub fn multiply_ri<M: Memory>(cpu: Cpu<M>) -> (r: UnknownCpu<M>)
        requires
            cpu.wf(),
            cpu@.pc <= 251,
            spec_fetch_ok(cpu@),
            spec_i_y(spec_fetched(cpu@).operands) >= 0,
        ensures
            r.cpu_wf(),
            !r.is_interrupted(),
            r.cpu_view() == spec_alu_ri_step(cpu@, 16),
    {
        InstSet::apply_ri_function(cpu, 16)
    }

    /// Shared loop of the load family: `count` bytes from `address` into the
    /// registers starting at the instruction's `dest` field.
    #[verifier::rlimit(50)]
    #[verifier::loop_isolation(false)]
    fn finish_load<M: Memory>(mut cpu: Cpu<M>, address: u8, count: u8) -> (r: UnknownCpu<M>)
        requires
            cpu.wf(),
            cpu@.pc <= 251,
            spec_fetch_ok(cpu@),
        ensures
            r.cpu_wf(),
            r.cpu_view() == spec_load_step(cpu@, address, count as nat).0,
            r.is_interrupted() == spec_load_step(cpu@, address, count as nat).1,
    {
        let ghost s0 = cpu@;
        let dest = cpu.current_instruction().r_dest();
        let mut i: u8 = 0;
        while i < count
            invariant
                cpu.wf(),
                i <= count,
                cpu@.pc == s0.pc,
                dest == spec_r_dest(spec_fetched(s0).operands),
                spec_copy_block_to_regs(s0, address, dest, count as nat)
                    == spec_copy_block_to_regs(
                    cpu@,
                    wrap_addr(address, i),
                    wrap_addr(dest, i),
                    (count - i) as nat,
                ),
            decreases count - i,
        {
            let from_a = address.wrapping_add(i);
            let to_a = dest.wrapping_add(i);
            proof {
                assert(from_a == wrap_addr(address, i));
                assert(to_a == wrap_addr(dest, i));
            }
            match cpu.copy_from_memory(from_a, to_a) {
                Ok(_) => {},
                Err(_) => {
                    proof {
                        assert(spec_copy_block_to_regs(s0, address, dest, count as nat) == (
                        cpu@,
                        false,
                        ));
                        assert(spec_load_step(s0, address, count as nat) == (cpu@, true));
                    }
                    return UnknownCpu::Inter(cpu);
                },
            }
            proof {
                assert(wrap_addr(wrap_addr(address, i), 1) == wrap_addr(address, (i + 1) as u8));
                assert(wrap_addr(wrap_addr(dest, i), 1) == wrap_addr(dest, (i + 1) as u8));
            }
            i = i + 1;
        }
        cpu.program_counter = cpu.program_counter + 4;
        UnknownCpu::Runnable(cpu)
    }

    /// Shared loop of the store family: `count` register bytes starting at
    /// the instruction's `target` field into memory at `address`.
    #[verifier::rlimit(50)]
    #[verifier::loop_isolation(false)]
    fn finish_store<M: Memory>(mut cpu: Cpu<M>, address: u8, count: u8) -> (r: UnknownCpu<M>)
        requires
            cpu.wf(),
            cpu@.pc <= 251,
            spec_fetch_ok(cpu@),
        ensures
            r.cpu_wf(),
            r.cpu_view() == spec_store_step(cpu@, address, count as nat).0,
            r.is_interrupted() == spec_store_step(cpu@, address, count as nat).1,
    {
        let ghost s0 = cpu@;
        let target = cpu.current_instruction().r_target();
        let mut i: u8 = 0;
        while i < count
            invariant
                cpu.wf(),
                i <= count,
                cpu@.pc == s0.pc,
                target == spec_r_dest(spec_fetched(s0).operands),
                spec_copy_block_to_mem(s0, target, address, count as nat)
                    == spec_copy_block_to_mem(
                    cpu@,
                    wrap_addr(target, i),
                    wrap_addr(address, i),
                    (count - i) as nat,
                ),
            decreases count - i,
        {
            let from_a = target.wrapping_add(i);
            let to_a = address.wrapping_add(i);
            proof {
                assert(from_a == wrap_addr(target, i));
                assert(to_a == wrap_addr(address, i));
            }
            match cpu.copy_to_memory(from_a, to_a) {
                Ok(_) => {},
                Err(_) => {
                    proof {
                        assert(spec_copy_block_to_mem(s0, target, address, count as nat) == (
                        cpu@,
                        false,
                        ));
                        assert(spec_store_step(s0, address, count as nat) == (cpu@, true));
                    }
                    return UnknownCpu::Inter(cpu);
                },
            }
            proof {
                assert(wrap_addr(wrap_addr(target, i), 1) == wrap_addr(target, (i + 1) as u8));
                assert(wrap_addr(wrap_addr(address, i), 1) == wrap_addr(address, (i + 1) as u8));
            }
            i = i + 1;
        }
        cpu.program_counter = cpu.program_counter + 4;
        UnknownCpu::Runnable(cpu)
    }

    /// The base+offset effective address of the fetched instruction.
    fn bo_address<M: Memory>(cpu: &Cpu<M>) -> (r: u8)
        requires
            cpu.wf(),
            spec_fetch_ok(cpu@),
        ensures
            r == spec_bo_address(cpu@),
    {
        let instruction = cpu.current_instruction();
        let base = cpu.read(instruction.r_base());
        let off: u32 = instruction.i_offset();
        let off_byte: u8 = #[verifier::truncate] (off as u8);
        proof {
            assert((off as u8) as u32 == off & 0xFF) by (bit_vector);
        }
        base.wrapping_add(off_byte)
    }

    /// The base+index effective address of the fetched instruction.
    fn bi_address<M: Memory>(cpu: &Cpu<M>) -> (r: u8)
        requires
            cpu.wf(),
            spec_fetch_ok(cpu@),
        ensures
            r == spec_bi_address(cpu@),
    {
        let instruction = cpu.current_instruction();
        let base = cpu.read(instruction.r_base());
        let index = cpu.read(instruction.r_index());
        base.wrapping_add(index)
    }

    pub fn load_8_bo<M: Memory>(cpu: Cpu<M>) -> (r: UnknownCpu<M>)
        requires
            cpu.wf(),
            cpu@.pc <= 251,
            spec_fetch_ok(cpu@),
        ensures
            r.cpu_wf(),
            r.cpu_view() == spec_load_step(cpu@, spec_bo_address(cpu@), 1).0,
            r.is_interrupted() == spec_load_step(cpu@, spec_bo_address(cpu@), 1).1,
    {
        let memory_address = InstSet::bo_address(&cpu);
        InstSet::finish_load(cpu, memory_address, 1)
    }

    pub fn load_8_bi<M: Memory>(cpu: Cpu<M>) -> (r: UnknownCpu<M>)
        requires
            cpu.wf(),
            cpu@.pc <= 251,
            spec_fetch_ok(cpu@),
        ensures
            r.cpu_wf(),
            r.cpu_view() == spec_load_step(cpu@, spec_bi_address(cpu@), 1).0,
            r.is_interrupted() == spec_load_step(cpu@, spec_bi_address(cpu@), 1).1,
    {
        let memory_address = InstSet::bi_address(&cpu);
        InstSet::finish_load(cpu, memory_address, 1)
    }

    pub fn load_16_bo<M: Memory>(cpu: Cpu<M>) -> (r: UnknownCpu<M>)
        requires
            cpu.wf(),
            cpu@.pc <= 251,
            spec_fetch_ok(cpu@),
        ensures
            r.cpu_wf(),
            r.cpu_view() == spec_load_step(cpu@, spec_bo_address(cpu@), 2).0,
            r.is_interrupted() == spec_load_step(cpu@, spec_bo_address(cpu@), 2).1,
    {
        let memory_address = InstSet::bo_address(&cpu);
        InstSet::finish_load(cpu, memory_address, 2)
    }

    pub fn load_16_bi<M: Memory>(cpu: Cpu<M>) -> (r: UnknownCpu<M>)
        requires
            cpu.wf(),
            cpu@.pc <= 251,
            spec_fetch_ok(cpu@),
        ensures
            r.cpu_wf(),
            r.cpu_view() == spec_load_step(cpu@, spec_bi_address(cpu@), 2).0,
            r.is_interrupted() == spec_load_step(cpu@, spec_bi_address(cpu@), 2).1,
    {
        let memory_address = InstSet::bi_address(&cpu);
        InstSet::finish_load(cpu, memory_address, 2)
    }

    pub fn load_32_bo<M: Memory>(cpu: Cpu<M>) -> (r: UnknownCpu<M>)
        requires
            cpu.wf(),
            cpu@.pc <= 251,
            spec_fetch_ok(cpu@),
        ensures
            r.cpu_wf(),
            r.cpu_view() == spec_load_step(cpu@, spec_bo_address(cpu@), 4).0,
            r.is_interrupted() == spec_load_step(cpu@, spec_bo_address(cpu@), 4).1,
    {
        let memory_address = InstSet::bo_address(&cpu);
        InstSet::finish_load(cpu, memory_address, 4)
    }

    pub fn load_32_bi<M: Memory>(cpu: Cpu<M>) -> (r: UnknownCpu<M>)
        requires
            cpu.wf(),
            cpu@.pc <= 251,
            spec_fetch_ok(cpu@),
        ensures
            r.cpu_wf(),
            r.cpu_view() == spec_load_step(cpu@, spec_bi_address(cpu@), 4).0,
            r.is_interrupted() == spec_load_step(cpu@, spec_bi_address(cpu@), 4).1,
    {
        let memory_address = InstSet::bi_address(&cpu);
        InstSet::finish_load(cpu, memory_address, 4)
    }

    pub fn store_8_bo<M: Memory>(cpu: Cpu<M>) -> (r: UnknownCpu<M>)
        requires
            cpu.wf(),
            cpu@.pc <= 251,
            spec_fetch_ok(cpu@),
        ensures
            r.cpu_wf(),
            r.cpu_view() == spec_store_step(cpu@, spec_bo_address(cpu@), 1).0,
            r.is_interrupted() == spec_store_step(cpu@, spec_bo_address(cpu@), 1).1,
    {
        let memory_address = InstSet::bo_address(&cpu);
        InstSet::finish_store(cpu, memory_address, 1)
    }

    pub fn store_8_bi<M: Memory>(cpu: Cpu<M>) -> (r: UnknownCpu<M>)
        requires
            cpu.wf(),
            cpu@.pc <= 251,
            spec_fetch_ok(cpu@),
        ensures
            r.cpu_wf(),
            r.cpu_view() == spec_store_step(cpu@, spec_bi_address(cpu@), 1).0,
            r.is_interrupted() == spec_store_step(cpu@, spec_bi_address(cpu@), 1).1,
    {
        let memory_address = InstSet::bi_address(&cpu);
        InstSet::finish_store(cpu, memory_address, 1)
    }

    pub fn store_16_bo<M: Memory>(cpu: Cpu<M>) -> (r: UnknownCpu<M>)
        requires
            cpu.wf(),
            cpu@.pc <= 251,
            spec_fetch_ok(cpu@),
        ensures
            r.cpu_wf(),
            r.cpu_view() == spec_store_step(cpu@, spec_bo_address(cpu@), 2).0,
            r.is_interrupted() == spec_store_step(cpu@, spec_bo_address(cpu@), 2).1,
    {
        let memory_address = InstSet::bo_address(&cpu);
        InstSet::finish_store(cpu, memory_address, 2)
    }

    pub fn store_16_bi<M: Memory>(cpu: Cpu<M>) -> (r: UnknownCpu<M>)
        requires
            cpu.wf(),
            cpu@.pc <= 251,
            spec_fetch_ok(cpu@),
        ensures
            r.cpu_wf(),
            r.cpu_view() == spec_store_step(cpu@, spec_bi_address(cpu@), 2).0,
            r.is_interrupted() == spec_store_step(cpu@, spec_bi_address(cpu@), 2).1,
    {
        let memory_address = InstSet::bi_address(&cpu);
        InstSet::finish_store(cpu, memory_address, 2)
    }

    pub fn store_32_bo<M: Memory>(cpu: Cpu<M>) -> (r: UnknownCpu<M>)
        requires
            cpu.wf(),
            cpu@.pc <= 251,
            spec_fetch_ok(cpu@),
        ensures
            r.cpu_wf(),
            r.cpu_view() == spec_store_step(cpu@, spec_bo_address(cpu@), 4).0,
            r.is_interrupted() == spec_store_step(cpu@, spec_bo_address(cpu@), 4).1,
    {
        let memory_address = InstSet::bo_address(&cpu);
        InstSet::finish_store(cpu, memory_address, 4)
    }

    pub fn store_32_bi<M: Memory>(cpu: Cpu<M>) -> (r: UnknownCpu<M>)
        requires
            cpu.wf(),
            cpu@.pc <= 251,
            spec_fetch_ok(cpu@),
        ensures
            r.cpu_wf(),
            r.cpu_view() == spec_store_step(cpu@, spec_bi_address(cpu@), 4).0,
            r.is_interrupted() == spec_store_step(cpu@, spec_bi_address(cpu@), 4).1,
    {
        let memory_address = InstSet::bi_address(&cpu);
        InstSet::finish_store(cpu, memory_address, 4)
    }

    /// A software interrupt: unconditional halt, nothing mutated.
    pub fn trigger_interupt<M: Memory>(cpu: Cpu<M>) -> (r: UnknownCpu<M>)
        requires
            cpu.wf(),
        ensures
            r.cpu_wf(),
            r.is_interrupted(),
            r.cpu_view() == cpu@,
    {
        UnknownCpu::Inter(cpu)
    }

    pub fn jump_offset<M: Memory>(mut cpu: Cpu<M>) -> (r: UnknownCpu<M>)
        requires
            cpu.wf(),
            spec_fetch_ok(cpu@),
        ensures
            r.cpu_wf(),
            !r.is_interrupted(),
            r.cpu_view() == spec_jump_offset_step(cpu@),
    {
        let off: i32 = cpu.current_instruction().i();
        let off_byte: u8 = #[verifier::truncate] (off as u8);
        proof {
            assert((off as u8) as int == (off as int) % 256) by (bit_vector);
        }
        cpu.program_counter = cpu.program_counter.wrapping_add(off_byte);
        UnknownCpu::Runnable(cpu)
    }

    pub fn jump_to_rd<M: Memory>(mut cpu: Cpu<M>) -> (r: UnknownCpu<M>)
        requires
            cpu.wf(),
            spec_fetch_ok(cpu@),
        ensures
            r.cpu_wf(),
            !r.is_interrupted(),
            r.cpu_view() == spec_jump_rd_step(cpu@),
    {
        let jump_to = cpu.read(cpu.current_instruction().r_dest());
        cpu.program_counter = jump_to;
        UnknownCpu::Runnable(cpu)
    }

    pub fn jump_to_i<M: Memory>(mut cpu: Cpu<M>) -> (r: UnknownCpu<M>)
        requires
            cpu.wf(),
            spec_fetch_ok(cpu@),
        ensures
            r.cpu_wf(),
            r.cpu_view() == spec_jump_i_step(cpu@).0,
            r.is_interrupted() == spec_jump_i_step(cpu@).1,
    {
        let target: i32 = cpu.current_instruction().i();
        if target < 0 || target > 255 {
            UnknownCpu::Inter(cpu)
        } else {
            cpu.program_counter = target as u8;
            UnknownCpu::Runnable(cpu)
        }
    }
}

/// Writing any value into the black-hole register, address 0 or any address
/// of 30 and above, leaves a register that still reads as 0.
pub proof fn lemma_black_hole_register(regs: Seq<u8>, addr: u8, value: u8)
    requires
        addr == 0 || addr >= 30,
    ensures
        spec_reg_read(spec_reg_write(regs, addr, value), addr) == 0,
{
}

/// Serializing a legal instruction into memory and reading a 32-bit word
/// back from the same address gives the instruction's encoding: together
/// with the decode round trip, a loaded instruction is fetched unchanged.
pub proof fn lemma_load_then_fetch(mem: Seq<u8>, location: u8, i: Instruction)
    requires
        spec_legal(i),
        spec_write_u32(mem, location, spec_encode(i)).1,
    ensures
        spec_read_u32(spec_write_u32(mem, location, spec_encode(i)).0, location) == Some(
            spec_encode(i),
        ),
        spec_decode(spec_encode(i)) == i,
{
    instruction::lemma_decode_encode_roundtrip(i);
    let v = spec_encode(i);
    let m2 = spec_write_u32(mem, location, v).0;
    let a0 = location;
    let a1 = wrap_addr(location, 1);
    let a2 = wrap_addr(location, 2);
    let a3 = wrap_addr(location, 3);
    let b0 = (v & 0xFF) as u8;
    let b1 = ((v >> 8) & 0xFF) as u8;
    let b2 = ((v >> 16) & 0xFF) as u8;
    let b3 = ((v >> 24) & 0xFF) as u8;
    assert(a0 != a1 && a0 != a2 && a0 != a3 && a1 != a2 && a1 != a3 && a2 != a3);
    assert(m2.len() == mem.len());
    assert(m2[a0 as int] == b0 && m2[a1 as int] == b1 && m2[a2 as int] == b2 && m2[a3 as int]
        == b3);
    assert(((b0 as u32) | ((b1 as u32) << 8) | ((b2 as u32) << 16) | ((b3 as u32) << 24)) == v)
        by (bit_vector)
        requires
            b0 == (v & 0xFF) as u8,
            b1 == ((v >> 8) & 0xFF) as u8,
            b2 == ((v >> 16) & 0xFF) as u8,
            b3 == ((v >> 24) & 0xFF) as u8,
    ;
}

/// A block copy into registers touches nothing but the register file.
proof fn lemma_copy_block_to_regs_frame(s: CpuView, from: u8, to: u8, n: nat)
    ensures
        spec_copy_block_to_regs(s, from, to, n).0.pc == s.pc,
        spec_copy_block_to_regs(s, from, to, n).0.mem == s.mem,
        spec_copy_block_to_regs(s, from, to, n).0.flags == s.flags,
        spec_copy_block_to_regs(s, from, to, n).0.stack_pointer == s.stack_pointer,
    decreases n,
{
    if n > 0 {
        let r = spec_copy_mem_to_reg(s, from, to);
        if r.1 {
            lemma_copy_block_to_regs_frame(r.0, wrap_addr(from, 1), wrap_addr(to, 1), (n
                - 1) as nat);
        }
    }
}

/// A block copy into memory touches nothing but the memory bytes.
proof fn lemma_copy_block_to_mem_frame(s: CpuView, from: u8, to: u8, n: nat)
    ensures
        spec_copy_block_to_mem(s, from, to, n).0.pc == s.pc,
        spec_copy_block_to_mem(s, from, to, n).0.regs == s.regs,
        spec_copy_block_to_mem(s, from, to, n).0.flags == s.flags,
        spec_copy_block_to_mem(s, from, to, n).0.stack_pointer == s.stack_pointer,
    decreases n,
{
    if n > 0 {
        let r = spec_copy_reg_to_mem(s, from, to);
        if r.1 {
            lemma_copy_block_to_mem_frame(r.0, wrap_addr(from, 1), wrap_addr(to, 1), (n
                - 1) as nat);
        }
    }
}

/// Program-counter discipline, for every machine state: a gated-off
/// instruction and every non-jump, non-halting instruction advance the
/// counter by exactly 4; the relative jump moves it by the low byte of its
/// signed operand, wrapping; the jumps to register and to immediate set it
/// exactly to their target; and every halting step leaves it untouched.
pub proof fn lemma_program_counter_discipline(s: CpuView)
    ensures
        !Flags::spec_can_run(s.flags, spec_fetched(s).flags) ==> !spec_step(s).1 && spec_step(
            s,
        ).0.pc == wrap_addr(s.pc, 4),
        Flags::spec_can_run(s.flags, spec_fetched(s).flags) && spec_fetched(s).opcode < 29 && !spec_step(
            s,
        ).1 ==> spec_step(s).0.pc == wrap_addr(s.pc, 4),
        Flags::spec_can_run(s.flags, spec_fetched(s).flags) && spec_fetched(s).opcode == 29
            ==> !spec_step(s).1 && spec_step(s).0.pc == wrap_addr(
            s.pc,
            spec_byte_of_int(spec_i(spec_fetched(s).operands)),
        ),
        Flags::spec_can_run(s.flags, spec_fetched(s).flags) && spec_fetched(s).opcode == 30
            ==> !spec_step(s).1 && spec_step(s).0.pc == spec_reg_read(
            s.regs,
            spec_r_dest(spec_fetched(s).operands),
        ),
        Flags::spec_can_run(s.flags, spec_fetched(s).flags) && spec_fetched(s).opcode == 31
            && !spec_step(s).1 ==> spec_step(s).0.pc as int == spec_i(spec_fetched(s).operands),
        spec_step(s).1 ==> spec_step(s).0.pc == s.pc,
{
    let inst = spec_fetched(s);
    let dest = spec_r_dest(inst.operands);
    if Flags::spec_can_run(s.flags, inst.flags) {
        if inst.opcode == 17 {
            lemma_copy_block_to_regs_frame(s, spec_bo_address(s), dest, 1);
        } else if inst.opcode == 18 {
            lemma_copy_block_to_regs_frame(s, spec_bi_address(s), dest, 1);
        } else if inst.opcode == 19 {
            lemma_copy_block_to_regs_frame(s, spec_bo_address(s), dest, 2);
        } else if inst.opcode == 20 {
            lemma_copy_block_to_regs_frame(s, spec_bi_address(s), dest, 2);
        } else if inst.opcode == 21 {
            lemma_copy_block_to_regs_frame(s, spec_bo_address(s), dest, 4);
        } else if inst.opcode == 22 {
            lemma_copy_block_to_regs_frame(s, spec_bi_address(s), dest, 4);
        } else if inst.opcode == 23 {
            lemma_copy_block_to_mem_frame(s, dest, spec_bo_address(s), 1);
        } else if inst.opcode == 24 {
            lemma_copy_block_to_mem_frame(s, dest, spec_bi_address(s), 1);
        } else if inst.opcode == 25 {
            lemma_copy_block_to_mem_frame(s, dest, spec_bo_address(s), 2);
        } else if inst.opcode == 26 {
            lemma_copy_block_to_mem_frame(s, dest, spec_bi_address(s), 2);
        } else if inst.opcode == 27 {
            lemma_copy_block_to_mem_frame(s, dest, spec_bo_address(s), 4);
        } else if inst.opcode == 28 {
            lemma_copy_block_to_mem_frame(s, dest, spec_bi_address(s), 4);
        }
    }
}

} // verus!
