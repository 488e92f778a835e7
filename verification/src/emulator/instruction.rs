use vstd::prelude::*;
use crate::emulator::flags::Flags;

verus! {

/// Sign bit of the 22-bit operand field, used by the sign-magnitude jump
/// immediate.
pub const NEGITIVE_BIT: u32 = 1u32 << 21;

/// A decoded view of one 32-bit instruction word.
///
/// Bit layout, most significant bit first:
/// `carry(1) | less(1) | zero(1) | greater(1) | opcode(6) | operand(22)`.
/// The 22-bit operand payload is reinterpreted per opcode family through the
/// accessors below.
#[derive(Debug, PartialEq, Eq, Structural, Clone, Copy)]
pub struct Instruction {
    pub flags: Flags,
    pub opcode: u8,
    pub operands: u32,
}

/// Operand bits 21-17: the `dest`/`target` register index.
pub open spec fn spec_r_dest(operands: u32) -> u8 {
    (operands >> 17) as u8
}

/// Operand bits 16-12: the `x`/`base` register index.
pub open spec fn spec_r_x(operands: u32) -> u8 {
    ((operands >> 12) & 0x1F) as u8
}

/// Operand bits 11-7: the `y`/`index` register index.
pub open spec fn spec_r_y(operands: u32) -> u8 {
    ((operands >> 7) & 0x1F) as u8
}

/// Operand bits 4-0.
pub open spec fn spec_low_field(operands: u32) -> u8 {
    (operands & 0x1F) as u8
}

/// The signed 12-bit immediate of the register-immediate family, encoded
/// sign-magnitude: bit 11 is the sign, bits 10-0 the magnitude.
pub open spec fn spec_i_y(operands: u32) -> i16 {
    if operands & 0x800 == 0 {
        (operands & 0x7FF) as i16
    } else {
        (0 - ((operands & 0x7FF) as i16)) as i16
    }
}

/// The unsigned 12-bit offset of the base+offset memory family.
pub open spec fn spec_i_offset(operands: u32) -> u32 {
    operands & 0xFFF
}

/// The signed 21-bit jump immediate, encoded sign-magnitude over the whole
/// operand field: bit 21 is the sign, bits 20-0 the magnitude.
pub open spec fn spec_i(operands: u32) -> int {
    if operands & 0x200000 == 0 {
        (operands & 0x1FFFFF) as int
    } else {
        -((operands & 0x1FFFFF) as int)
    }
}

/// The 32-bit word an instruction encodes to.
pub open spec fn spec_encode(i: Instruction) -> u32 {
    (if i.flags.carry {
        1u32 << 31
    } else {
        0
    }) | (if i.flags.less {
        1u32 << 30
    } else {
        0
    }) | (if i.flags.zero {
        1u32 << 29
    } else {
        0
    }) | (if i.flags.greater {
        1u32 << 28
    } else {
        0
    }) | ((i.opcode as u32) << 22) | i.operands
}

/// The instruction any 32-bit word decodes to; decoding is total.
pub open spec fn spec_decode(value: u32) -> Instruction {
    Instruction {
        flags: Flags {
            carry: value >> 31 == 1,
            less: (value >> 30) & 1 == 1,
            zero: (value >> 29) & 1 == 1,
            greater: (value >> 28) & 1 == 1,
        },
        opcode: ((value >> 22) & 0x3F) as u8,
        operands: value & 0x3FFFFF,
    }
}

/// An instruction is legal exactly when its fields fit their encoding widths.
pub open spec fn spec_legal(i: Instruction) -> bool {
    i.opcode <= 0x3F && i.operands <= 0x3FFFFF
}

/// Encoding then decoding gives back every legal instruction unchanged:
/// `decode` and `encode` are exact inverses over opcodes of at most 6 bits
/// and operands of at most 22 bits.
pub proof fn lemma_decode_encode_roundtrip(i: Instruction)
    requires
        spec_legal(i),
    ensures
        spec_decode(spec_encode(i)) == i,
{
    let cb: u32 = if i.flags.carry { 1 } else { 0 };
    let lb: u32 = if i.flags.less { 1 } else { 0 };
    let zb: u32 = if i.flags.zero { 1 } else { 0 };
    let gb: u32 = if i.flags.greater { 1 } else { 0 };
    let op: u32 = i.opcode as u32;
    let ops: u32 = i.operands;
    let v: u32 = spec_encode(i);
    assert((0u32 << 31) == 0 && (0u32 << 30) == 0 && (0u32 << 29) == 0 && (0u32 << 28) == 0)
        by (bit_vector);
    assert(v == (cb << 31) | (lb << 30) | (zb << 29) | (gb << 28) | (op << 22) | ops);
    assert((v >> 31) == cb && ((v >> 30) & 1) == lb && ((v >> 29) & 1) == zb && ((v >> 28) & 1)
        == gb && ((v >> 22) & 0x3F) == op && (v & 0x3FFFFF) == ops) by (bit_vector)
        requires
            cb <= 1,
            lb <= 1,
            zb <= 1,
            gb <= 1,
            op <= 0x3F,
            ops <= 0x3FFFFF,
            v == (cb << 31) | (lb << 30) | (zb << 29) | (gb << 28) | (op << 22) | ops,
    ;
    assert(spec_decode(v).flags == i.flags);
    assert(spec_decode(v).opcode == i.opcode);
}

impl Instruction {
    /// A fresh instruction with the given opcode, no flag bits and an all-zero
    /// operand field.
    pub fn from_opcode(opcode: u8) -> (r: Instruction)
        ensures
            r == (Instruction { flags: Flags { carry: false, greater: false, zero: false, less: false }, opcode: opcode, operands: 0 }),
    {
        Instruction { flags: Flags::new(), opcode, operands: 0 }
    }

    /// Packs the fields into one 32-bit word. Oversized opcodes or operands
    /// cannot be encoded and are ruled out up front.
    pub fn encode(&self) -> (r: u32)
        requires
            spec_legal(*self),
        ensures
            r == spec_encode(*self),
    {
        (if self.flags.carry {
            1u32 << 31
        } else {
            0
        }) | (if self.flags.less {
            1u32 << 30
        } else {
            0
        }) | (if self.flags.zero {
            1u32 << 29
        } else {
            0
        }) | (if self.flags.greater {
            1u32 << 28
        } else {
            0
        }) | ((self.opcode as u32) << 22) | self.operands
    }

    /// Unpacks a 32-bit word; never fails, any word decodes to some
    /// instruction.
    pub fn decode(value: u32) -> (r: Instruction)
        ensures
            r == spec_decode(value),
            spec_legal(r),
    {
        proof {
            assert(((value >> 22) & 0x3F) <= 0x3F && (value & 0x3FFFFF) <= 0x3FFFFF)
                by (bit_vector);
        }
        let flags = Flags {
            carry: value >> 31 == 1,
            less: (value >> 30) & 1 == 1,
            zero: (value >> 29) & 1 == 1,
            greater: (value >> 28) & 1 == 1,
        };
        Instruction {
            flags,
            opcode: ((value >> 22) & 0x3F) as u8,
            operands: value & 0x3FFFFF,
        }
    }

    fn first(&self) -> (r: u8)
        ensures
            r == spec_r_dest(self.operands),
    {
        #[verifier::truncate] ((self.operands >> 17) as u8)
    }

    fn second(&self) -> (r: u8)
        ensures
            r == spec_r_x(self.operands),
    {
        let o = self.operands;
        proof {
            assert(((o >> 12) & 0x1F) <= 0x1F) by (bit_vector);
        }
        ((o >> 12) & 0x1F) as u8
    }

    fn third(&self) -> (r: u8)
        ensures
            r == spec_r_y(self.operands),
    {
        let o = self.operands;
        proof {
            assert(((o >> 7) & 0x1F) <= 0x1F) by (bit_vector);
        }
        ((o >> 7) & 0x1F) as u8
    }

    fn fourth(&self) -> (r: u8)
        ensures
            r == spec_low_field(self.operands),
    {
        let o = self.operands;
        proof {
            assert((o & 0x1F) <= 0x1F) by (bit_vector);
        }
        (o & 0x1F) as u8
    }

    pub fn r_dest(&self) -> (r: u8)
        ensures
            r == spec_r_dest(self.operands),
    {
        self.first()
    }

    /// Writes the `dest` register field, bits 21-17, leaving the other operand
    /// bits and every other field unchanged.
    pub fn r_dest_set(&mut self, value: u8)
        requires
            value <= 0x1F,
        ensures
            final(self).flags == old(self).flags,
            final(self).opcode == old(self).opcode,
            final(self).operands == (old(self).operands & !0x3E0000) | ((value as u32) << 17),
            old(self).operands <= 0x3FFFFF ==> final(self).operands <= 0x3FFFFF
                && spec_r_dest(final(self).operands) == value,
            spec_r_x(final(self).operands) == spec_r_x(old(self).operands),
            spec_r_y(final(self).operands) == spec_r_y(old(self).operands),
            final(self).operands & 0xFFF == old(self).operands & 0xFFF,
    {
        let o = self.operands;
        let n: u32 = (o & !0x3E0000) | ((value as u32) << 17);
        proof {
            assert((o <= 0x3FFFFF ==> n <= 0x3FFFFF && (n >> 17) as u8 == value) && ((n >> 12)
                & 0x1F) == ((o >> 12) & 0x1F) && ((n >> 7) & 0x1F) == ((o >> 7) & 0x1F) && (n
                & 0xFFF) == (o & 0xFFF)) by (bit_vector)
                requires
                    value <= 0x1F,
                    n == (o & !0x3E0000) | ((value as u32) << 17),
            ;
        }
        self.operands = n;
    }

    pub fn r_target(&self) -> (r: u8)
        ensures
            r == spec_r_dest(self.operands),
    {
        self.r_dest()
    }

    pub fn r_target_set(&mut self, value: u8)
        requires
            value <= 0x1F,
        ensures
            final(self).flags == old(self).flags,
            final(self).opcode == old(self).opcode,
            final(self).operands == (old(self).operands & !0x3E0000) | ((value as u32) << 17),
            old(self).operands <= 0x3FFFFF ==> final(self).operands <= 0x3FFFFF
                && spec_r_dest(final(self).operands) == value,
            spec_r_x(final(self).operands) == spec_r_x(old(self).operands),
            spec_r_y(final(self).operands) == spec_r_y(old(self).operands),
            final(self).operands & 0xFFF == old(self).operands & 0xFFF,
    {
        self.r_dest_set(value)
    }

    pub fn r_x(&self) -> (r: u8)
        ensures
            r == spec_r_x(self.operands),
    {
        self.second()
    }

    /// Writes the `x` register field, bits 16-12; the value is kept to its
    /// five field bits.
    pub fn r_x_set(&mut self, value: u8)
        ensures
            final(self).flags == old(self).flags,
            final(self).opcode == old(self).opcode,
            final(self).operands == (old(self).operands & !0x1F000) | (((value & 0x1F) as u32)
                << 12),
            spec_r_x(final(self).operands) == value & 0x1F,
            spec_r_dest(final(self).operands) == spec_r_dest(old(self).operands),
            spec_r_y(final(self).operands) == spec_r_y(old(self).operands),
            final(self).operands & 0xFFF == old(self).operands & 0xFFF,
    {
        let o = self.operands;
        let m: u8 = value & 0x1F;
        let n: u32 = (o & !0x1F000) | ((m as u32) << 12);
        proof {
            assert(((n >> 12) & 0x1F) == m && (n >> 17) == (o >> 17) && ((n >> 7) & 0x1F) == ((o
                >> 7) & 0x1F) && (n & 0xFFF) == (o & 0xFFF)) by (bit_vector)
                requires
                    m == value & 0x1F,
                    n == (o & !0x1F000) | ((m as u32) << 12),
            ;
        }
        self.operands = n;
    }

    pub fn r_base(&self) -> (r: u8)
        ensures
            r == spec_r_x(self.operands),
    {
        self.r_x()
    }

    pub fn r_base_set(&mut self, value: u8)
        ensures
            final(self).flags == old(self).flags,
            final(self).opcode == old(self).opcode,
            final(self).operands == (old(self).operands & !0x1F000) | (((value & 0x1F) as u32)
                << 12),
            spec_r_x(final(self).operands) == value & 0x1F,
            spec_r_dest(final(self).operands) == spec_r_dest(old(self).operands),
            spec_r_y(final(self).operands) == spec_r_y(old(self).operands),
            final(self).operands & 0xFFF == old(self).operands & 0xFFF,
    {
        self.r_x_set(value)
    }

    pub fn r_y(&self) -> (r: u8)
        ensures
            r == spec_r_y(self.operands),
    {
        self.third()
    }

    /// Writes the `y` register field, bits 11-7; the value is kept to its five
    /// field bits.
    pub fn r_y_set(&mut self, value: u8)
        ensures
            final(self).flags == old(self).flags,
            final(self).opcode == old(self).opcode,
            final(self).operands == (old(self).operands & !0xF80) | (((value & 0x1F) as u32) << 7),
            spec_r_y(final(self).operands) == value & 0x1F,
            spec_r_dest(final(self).operands) == spec_r_dest(old(self).operands),
            spec_r_x(final(self).operands) == spec_r_x(old(self).operands),
            final(self).operands & 0x7F == old(self).operands & 0x7F,
    {
        let o = self.operands;
        let m: u8 = value & 0x1F;
        let n: u32 = (o & !0xF80) | ((m as u32) << 7);
        proof {
            assert(((n >> 7) & 0x1F) == m && (n >> 17) == (o >> 17) && ((n >> 12) & 0x1F) == ((o
                >> 12) & 0x1F) && (n & 0x7F) == (o & 0x7F)) by (bit_vector)
                requires
                    m == value & 0x1F,
                    n == (o & !0xF80) | ((m as u32) << 7),
            ;
        }
        self.operands = n;
    }

    pub fn r_index(&self) -> (r: u8)
        ensures
            r == spec_r_y(self.operands),
    {
        self.r_y()
    }

    pub fn r_index_set(&mut self, value: u8)
        ensures
            final(self).flags == old(self).flags,
            final(self).opcode == old(self).opcode,
            final(self).operands == (old(self).operands & !0xF80) | (((value & 0x1F) as u32) << 7),
            spec_r_y(final(self).operands) == value & 0x1F,
            spec_r_dest(final(self).operands) == spec_r_dest(old(self).operands),
            spec_r_x(final(self).operands) == spec_r_x(old(self).operands),
            final(self).operands & 0x7F == old(self).operands & 0x7F,
    {
        self.r_y_set(value)
    }

    /// The signed register-immediate operand, decoded sign-magnitude.
    pub fn i_y(&self) -> (r: i16)
        ensures
            r == spec_i_y(self.operands),
    {
        let o = self.operands;
        proof {
            assert((o & 0x7FF) <= 0x7FF) by (bit_vector);
        }
        let mag: i16 = (o & 0x7FF) as i16;
        if o & 0x800 == 0 {
            mag
        } else {
            0 - mag
        }
    }

    /// Writes the raw 12-bit immediate field, bits 11-0; the value is kept to
    /// those twelve bits.
    pub fn i_y_set(&mut self, value: u16)
        ensures
            final(self).flags == old(self).flags,
            final(self).opcode == old(self).opcode,
            final(self).operands == (old(self).operands & !0xFFF) | ((value & 0xFFF) as u32),
            final(self).operands & 0xFFF == (value & 0xFFF) as u32,
            spec_r_dest(final(self).operands) == spec_r_dest(old(self).operands),
            spec_r_x(final(self).operands) == spec_r_x(old(self).operands),
    {
        let o = self.operands;
        let m: u16 = value & 0xFFF;
        let n: u32 = (o & !0xFFF) | (m as u32);
        proof {
            assert((n & 0xFFF) == (m as u32) && (n >> 17) == (o >> 17) && ((n >> 12) & 0x1F) == ((
            o >> 12) & 0x1F)) by (bit_vector)
                requires
                    m == value & 0xFFF,
                    n == (o & !0xFFF) | (m as u32),
            ;
        }
        self.operands = n;
    }

    /// The unsigned base+offset operand.
    pub fn i_offset(&self) -> (r: u32)
        ensures
            r == spec_i_offset(self.operands),
    {
        self.operands & 0xFFF
    }

    /// Writes the 12-bit offset field, bits 11-0; larger values do not fit the
    /// field.
    pub fn i_offset_set(&mut self, value: u32)
        requires
            value <= 0xFFF,
        ensures
            final(self).flags == old(self).flags,
            final(self).opcode == old(self).opcode,
            final(self).operands == (old(self).operands & !0xFFF) | value,
            spec_i_offset(final(self).operands) == value,
            spec_r_dest(final(self).operands) == spec_r_dest(old(self).operands),
            spec_r_x(final(self).operands) == spec_r_x(old(self).operands),
    {
        let o = self.operands;
        let n: u32 = (o & !0xFFF) | value;
        proof {
            assert((n & 0xFFF) == value && (n >> 17) == (o >> 17) && ((n >> 12) & 0x1F) == ((o
                >> 12) & 0x1F)) by (bit_vector)
                requires
                    value <= 0xFFF,
                    n == (o & !0xFFF) | value,
            ;
        }
        self.operands = n;
    }

    /// The signed 21-bit jump immediate, decoded sign-magnitude.
    pub fn i(&self) -> (r: i32)
        ensures
            r as int == spec_i(self.operands),
    {
        let o = self.operands;
        proof {
            assert((o & 0x1FFFFF) <= 0x1FFFFF) by (bit_vector);
        }
        let mag: i32 = (o & 0x1FFFFF) as i32;
        if o & 0x200000 == 0 {
            mag
        } else {
            0 - mag
        }
    }

    /// Writes the whole operand field as a sign-magnitude 21-bit immediate;
    /// magnitudes above 21 bits do not fit the field.
    pub fn i_set(&mut self, value: i32)
        requires
            -0x1FFFFF <= value <= 0x1FFFFF,
        ensures
            final(self).flags == old(self).flags,
            final(self).opcode == old(self).opcode,
            final(self).operands <= 0x3FFFFF,
            spec_i(final(self).operands) == value,
            value >= 0 ==> final(self).operands == value as u32,
            value < 0 ==> final(self).operands == NEGITIVE_BIT | ((-value) as u32),
    {
        if value >= 0 {
            let n: u32 = value as u32;
            proof {
                assert((n & 0x200000) == 0 && (n & 0x1FFFFF) == n) by (bit_vector)
                    requires
                        n <= 0x1FFFFF,
                ;
            }
            self.operands = n;
        } else {
            let mag: u32 = (0 - value) as u32;
            let n: u32 = NEGITIVE_BIT | mag;
            proof {
                assert((n & 0x200000) != 0 && (n & 0x1FFFFF) == mag && n <= 0x3FFFFF)
                    by (bit_vector)
                    requires
                        mag <= 0x1FFFFF,
                        n == (1u32 << 21) | mag,
                ;
            }
            self.operands = n;
        }
    }
}

} // verus!
