use vstd::prelude::*;

verus! {

/// Bytes of backing store the machine ships with; addresses `0` to `254`
/// are valid, address `255` is always out of range.
pub const MEMORY_SIZE: u8 = 255;

/// A byte address advanced by `k`, wrapping around the 8-bit address space.
pub open spec fn wrap_addr(a: u8, k: u8) -> u8 {
    ((a + k) % 256) as u8
}

/// The little-endian 32-bit word formed by the four consecutive (wrapping)
/// bytes starting at `address`.
pub open spec fn spec_word_at(mem: Seq<u8>, address: u8) -> u32 {
    (mem[address as int] as u32) | ((mem[wrap_addr(address, 1) as int] as u32) << 8) | ((mem[
        wrap_addr(address, 2) as int] as u32) << 16) | ((mem[wrap_addr(address, 3) as int] as u32)
        << 24)
}

/// Whether all four (wrapping) byte addresses of a word read are in range.
pub open spec fn spec_word_readable(mem: Seq<u8>, address: u8) -> bool {
    &&& (address as int) < mem.len()
    &&& (wrap_addr(address, 1) as int) < mem.len()
    &&& (wrap_addr(address, 2) as int) < mem.len()
    &&& (wrap_addr(address, 3) as int) < mem.len()
}

/// What a composite 32-bit read returns: the word, or nothing as soon as one
/// of the four bytes is unreadable.
pub open spec fn spec_read_u32(mem: Seq<u8>, address: u8) -> Option<u32> {
    if spec_word_readable(mem, address) {
        Some(spec_word_at(mem, address))
    } else {
        None
    }
}

/// One byte store: the updated contents and whether the address was in range
/// (out-of-range stores leave the contents unchanged).
pub open spec fn spec_write_byte(mem: Seq<u8>, address: u8, value: u8) -> (Seq<u8>, bool) {
    if (address as int) < mem.len() {
        (mem.update(address as int, value), true)
    } else {
        (mem, false)
    }
}

/// Whether all four (wrapping) byte addresses of a word store are in range;
/// a word is writable exactly where it is readable.
pub open spec fn spec_word_writable(mem: Seq<u8>, address: u8) -> bool {
    spec_word_readable(mem, address)
}

/// A composite 32-bit store, little-endian and atomic: all four bytes are
/// stored, or, as soon as any of the four addresses is out of range, none is
/// and the contents stay unchanged.
pub open spec fn spec_write_u32(mem: Seq<u8>, address: u8, value: u32) -> (Seq<u8>, bool) {
    if spec_word_writable(mem, address) {
        (
            mem.update(address as int, (value & 0xFF) as u8).update(
                wrap_addr(address, 1) as int,
                ((value >> 8) & 0xFF) as u8,
            ).update(wrap_addr(address, 2) as int, ((value >> 16) & 0xFF) as u8).update(
                wrap_addr(address, 3) as int,
                ((value >> 24) & 0xFF) as u8,
            ),
            true,
        )
    } else {
        (mem, false)
    }
}

/// The abstract capability the execution engine reads and writes memory
/// through, so that alternate backings can be substituted.
pub trait Memory: Sized {
    /// The bytes currently held, one sequence entry per address.
    spec fn contents(&self) -> Seq<u8>;

    /// A single byte load; empty exactly for out-of-range addresses.
    fn read(&self, address: u8) -> (r: Option<u8>)
        ensures
            r == (if (address as int) < self.contents().len() {
                Some(self.contents()[address as int])
            } else {
                None::<u8>
            }),
    ;

    /// A single byte store; fails exactly for out-of-range addresses, leaving
    /// the contents unchanged.
    fn write(&mut self, address: u8, value: u8) -> (r: Result<(), &'static str>)
        ensures
            final(self).contents() == spec_write_byte(old(self).contents(), address, value).0,
            (r is Ok) == spec_write_byte(old(self).contents(), address, value).1,
    ;

    /// Batches four consecutive byte reads into one little-endian 32-bit
    /// word; empty as soon as any of the four bytes is unreadable.
    fn read_u32(&self, address: u8) -> (r: Option<u32>)
        ensures
            r == spec_read_u32(self.contents(), address),
    {
        let b0 = self.read(address);
        let b1 = self.read(address.wrapping_add(1));
        let b2 = self.read(address.wrapping_add(2));
        let b3 = self.read(address.wrapping_add(3));
        match (b0, b1, b2, b3) {
            (Some(v0), Some(v1), Some(v2), Some(v3)) => Some(
                (v0 as u32) | ((v1 as u32) << 8) | ((v2 as u32) << 16) | ((v3 as u32) << 24),
            ),
            _ => None,
        }
    }

    /// Batches four byte stores into one little-endian 32-bit store. The
    /// store is atomic: all four addresses are validated up front, and an
    /// out-of-range word fails with the contents unchanged.
    fn write_u32(&mut self, address: u8, value: u32) -> (r: Result<(), &'static str>)
        ensures
            final(self).contents() == spec_write_u32(old(self).contents(), address, value).0,
            (r is Ok) == spec_write_u32(old(self).contents(), address, value).1,
            (r is Ok) == spec_word_writable(old(self).contents(), address),
    {
        proof {
            let v = value;
            assert((v & 0xFF) <= 0xFF && ((v >> 8) & 0xFF) <= 0xFF && ((v >> 16) & 0xFF) <= 0xFF
                && ((v >> 24) & 0xFF) <= 0xFF) by (bit_vector);
        }
        if self.read(address).is_none() || self.read(address.wrapping_add(1)).is_none()
            || self.read(address.wrapping_add(2)).is_none() || self.read(
            address.wrapping_add(3),
        ).is_none() {
            return Err("Address out of memory");
        }
        match self.write(address, (value & 0xFF) as u8) {
            Err(e) => {
                return Err(e);
            },
            Ok(_) => {},
        }
        match self.write(address.wrapping_add(1), ((value >> 8) & 0xFF) as u8) {
            Err(e) => {
                return Err(e);
            },
            Ok(_) => {},
        }
        match self.write(address.wrapping_add(2), ((value >> 16) & 0xFF) as u8) {
            Err(e) => {
                return Err(e);
            },
            Ok(_) => {},
        }
        match self.write(address.wrapping_add(3), ((value >> 24) & 0xFF) as u8) {
            Err(e) => {
                return Err(e);
            },
            Ok(_) => {},
        }
        Ok(())
    }
}

/// Relies on rand::random: draws one byte from the thread-local generator;
/// nothing is assumed of the value drawn.
#[verifier::external_body]
pub(crate) fn random_u8() -> u8 {
    rand::random::<u8>()
}

/// The stock backing store: a flat array of `MEMORY_SIZE` bytes.
#[derive(Debug)]
pub struct SimpleMemory {
    data: Vec<u8>,
}

impl SimpleMemory {
    /// Power-on noise: every cell of the fresh store holds one and the same
    /// arbitrary byte.
    pub fn new() -> (r: SimpleMemory)
        ensures
            r.contents().len() == MEMORY_SIZE as int,
            forall|i: int| 0 <= i < r.contents().len() ==> #[trigger] r.contents()[i]
                == r.contents()[0],
    {
        let b = random_u8();
        let mut data: Vec<u8> = Vec::new();
        let mut i: usize = 0;
        while i < MEMORY_SIZE as usize
            invariant
                i <= MEMORY_SIZE as usize,
                data@.len() == i,
                forall|j: int| 0 <= j < i ==> data@[j] == b,
            decreases MEMORY_SIZE as usize - i,
        {
            data.push(b);
            i = i + 1;
        }
        SimpleMemory { data }
    }

    /// A deterministic all-zero store.
    pub fn new_blank() -> (r: SimpleMemory)
        ensures
            r.contents() == Seq::new(MEMORY_SIZE as nat, |i: int| 0u8),
    {
        let mut data: Vec<u8> = Vec::new();
        let mut i: usize = 0;
        while i < MEMORY_SIZE as usize
            invariant
                i <= MEMORY_SIZE as usize,
                data@.len() == i,
                forall|j: int| 0 <= j < i ==> data@[j] == 0u8,
            decreases MEMORY_SIZE as usize - i,
        {
            data.push(0);
            i = i + 1;
        }
        proof {
            assert(data@ =~= Seq::new(MEMORY_SIZE as nat, |i: int| 0u8));
        }
        SimpleMemory { data }
    }
}

impl Memory for SimpleMemory {
    closed spec fn contents(&self) -> Seq<u8> {
        self.data@
    }

    fn read(&self, address: u8) -> (r: Option<u8>) {
        if (address as usize) < self.data.len() {
            Some(self.data[address as usize])
        } else {
            None
        }
    }

    fn write(&mut self, address: u8, value: u8) -> (r: Result<(), &'static str>) {
        if (address as usize) >= self.data.len() {
            Err("Address out of memory")
        } else {
            self.data[address as usize] = value;
            Ok(())
        }
    }
}

} // verus!
