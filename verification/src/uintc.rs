//! Bookkeeping for the user-interrupt controller: the allocator of table
//! indices, the entry of a sender table and the status word of a receiver.

use vstd::prelude::*;
use bit_field::BitField;

verus! {

pub const UINTC_ENTRY_NUM: usize = 512;

/// Whether bit `b` of a byte is set.
pub open spec fn byte_bit(w: u8, b: usize) -> bool {
    w & (1u8 << (b as u8)) != 0
}

/// Whether index `i` is taken in a bitmap of bytes, eight indices to a byte.
pub open spec fn index_taken(bitmap: Seq<u8>, i: int) -> bool {
    byte_bit(bitmap[i / 8], (i % 8) as usize)
}

proof fn lemma_byte_or(w: u8, b: usize, c: usize)
    requires
        b < 8,
        c < 8,
    ensures
        byte_bit(w | (1u8 << (b as u8)), c) == (c == b || byte_bit(w, c)),
{
    let bb = b as u8;
    let cc = c as u8;
    assert(((w | (1u8 << bb)) & (1u8 << cc) != 0) == (cc == bb || w & (1u8 << cc) != 0)) by (bit_vector)
        requires
            bb < 8,
            cc < 8,
    ;
}

proof fn lemma_byte_clear(w: u8, b: usize, c: usize)
    requires
        b < 8,
        c < 8,
    ensures
        byte_bit(w & !(1u8 << (b as u8)), c) == (c != b && byte_bit(w, c)),
{
    let bb = b as u8;
    let cc = c as u8;
    assert(((w & !(1u8 << bb)) & (1u8 << cc) != 0) == (cc != bb && w & (1u8 << cc) != 0)) by (bit_vector)
        requires
            bb < 8,
            cc < 8,
    ;
}

proof fn lemma_byte_zero(c: usize)
    requires
        c < 8,
    ensures
        !byte_bit(0u8, c),
{
    let cc = c as u8;
    assert(0u8 & (1u8 << cc) == 0) by (bit_vector);
}

/// An allocator of the indices below `SIZE`, lowest first.
pub struct IndexAllocator<const SIZE: usize> {
    pub bitmap: Vec<u8>,
}

impl<const SIZE: usize> View for IndexAllocator<SIZE> {
    type V = Set<int>;

    /// The indices that are taken.
    open spec fn view(&self) -> Set<int> {
        Set::new(|i: int| 0 <= i < SIZE && index_taken(self.bitmap@, i))
    }
}

impl<const SIZE: usize> IndexAllocator<SIZE> {
    /// The bitmap has a bit for every index.
    pub open spec fn wf(&self) -> bool {
        self.bitmap@.len() == (SIZE + 7) / 8
    }

    /// An allocator in which every index is free.
    pub fn new() -> (r: Self)
        requires
            SIZE + 7 <= usize::MAX,
        ensures
            r.wf(),
            r@ == Set::<int>::empty(),
    {
        let mut bitmap: Vec<u8> = Vec::new();
        let n: usize = (SIZE + 7) / 8;
        let mut i: usize = 0;
        while i < n
            invariant
                i <= n,
                bitmap@.len() == i,
                forall|j: int| 0 <= j < i ==> bitmap@[j] == 0u8,
            decreases n - i,
        {
            bitmap.push(0u8);
            i = i + 1;
        }
        let r = IndexAllocator { bitmap };
        proof {
            assert forall|j: int| !(0 <= j < SIZE && index_taken(r.bitmap@, j)) by {
                if 0 <= j < SIZE {
                    lemma_byte_zero((j % 8) as usize);
                }
            }
            assert(r@ =~= Set::<int>::empty());
        }
        r
    }

    /// Takes the lowest index that is free, if there is one.
    pub fn allocate(&mut self) -> (r: Option<usize>)
        requires
            old(self).wf(),
        ensures
            final(self).wf(),
            match r {
                Some(index) => {
                    &&& index < SIZE
                    &&& !old(self)@.contains(index as int)
                    &&& forall|j: int| 0 <= j < index ==> old(self)@.contains(j)
                    &&& final(self)@ == old(self)@.insert(index as int)
                },
                None => {
                    &&& forall|j: int| 0 <= j < SIZE ==> old(self)@.contains(j)
                    &&& final(self)@ == old(self)@
                },
            },
    {
        let mut i: usize = 0;
        while i < SIZE
            invariant
                i <= SIZE,
                self.wf(),
                *self == *old(self),
                forall|j: int| 0 <= j < i ==> old(self)@.contains(j),
            decreases SIZE - i,
        {
            let byte: u8 = self.bitmap[i / 8];
            if byte & (1u8 << ((i % 8) as u8)) == 0 {
                self.bitmap[i / 8] = byte | (1u8 << ((i % 8) as u8));
                proof {
                    assert forall|j: int| final(self)@.contains(j) == old(self)@.insert(i as int).contains(
                        j,
                    ) by {
                        if 0 <= j < SIZE && j / 8 == i / 8 {
                            lemma_byte_or(byte, (i % 8) as usize, (j % 8) as usize);
                        }
                    }
                    assert(final(self)@ =~= old(self)@.insert(i as int));
                }
                return Some(i);
            }
            i = i + 1;
        }
        None
    }

    /// Gives an index back.
    pub fn release(&mut self, index: usize)
        requires
            old(self).wf(),
            index < SIZE,
        ensures
            final(self).wf(),
            final(self)@ == old(self)@.remove(index as int),
    {
        let byte: u8 = self.bitmap[index / 8];
        self.bitmap[index / 8] = byte & !(1u8 << ((index % 8) as u8));
        proof {
            assert forall|j: int| final(self)@.contains(j) == old(self)@.remove(index as int).contains(j) by {
                if 0 <= j < SIZE && j / 8 == index / 8 {
                    lemma_byte_clear(byte, (index % 8) as usize, (j % 8) as usize);
                }
            }
            assert(final(self)@ =~= old(self)@.remove(index as int));
        }
    }
}

/// Sets or clears one bit of a word with `BitField::set_bit` of the crate
/// `bit_field`: bit `bit` of the result is `value` and every other bit is as
/// it was in `word`. The outside function panics for a bit beyond the word,
/// which the precondition leaves out.
#[verifier::external_body]
fn word_with_bit(word: u64, bit: usize, value: bool) -> (r: u64)
    requires
        bit < 64,
    ensures
        r == (if value {
            word | (1u64 << (bit as u64))
        } else {
            word & !(1u64 << (bit as u64))
        }),
{
    let mut w = word;
    w.set_bit(bit, value);
    w
}

pub const UISTE_VEC_MASK: u64 = 0xffff_0000;

pub const UISTE_INDEX_MASK: u64 = 0xffff_0000_0000_0000;

/// An entry of a sender table: the vector to send in bits 16 to 31, the
/// index of the receiver in bits 48 to 63, and an enable bit in bit 0.
#[derive(Debug)]
pub struct UIntrSTEntry(pub u64);

impl UIntrSTEntry {
    /// The vector that the entry holds.
    pub open spec fn vec(self) -> u64 {
        (self.0 & UISTE_VEC_MASK) >> 16
    }

    /// The receiver index that the entry holds.
    pub open spec fn index(self) -> u64 {
        (self.0 & UISTE_INDEX_MASK) >> 48
    }

    /// Whether the highest bit of the entry is set.
    pub fn is_valid(&self) -> (r: bool)
        ensures
            r == (self.0 >> 63 != 0),
    {
        (self.0 >> 63) != 0
    }

    /// Sets or clears the enable bit, bit 0, and leaves the vector and the
    /// index as they are.
    pub fn set_valid(&mut self, valid: bool)
        ensures
            final(self).0 == (if valid {
                old(self).0 | 1u64
            } else {
                old(self).0 & !1u64
            }),
            final(self).vec() == old(self).vec(),
            final(self).index() == old(self).index(),
    {
        let w: u64 = self.0;
        let r: u64 = word_with_bit(w, 0, valid);
        proof {
            assert(1u64 << 0u64 == 1u64) by (bit_vector);
            assert(((w | 1u64) & 0xffff_0000u64) >> 16 == (w & 0xffff_0000u64) >> 16) by (bit_vector);
            assert(((w & !1u64) & 0xffff_0000u64) >> 16 == (w & 0xffff_0000u64) >> 16) by (bit_vector);
            assert(((w | 1u64) & 0xffff_0000_0000_0000u64) >> 48 == (w & 0xffff_0000_0000_0000u64) >> 48)
                by (bit_vector);
            assert(((w & !1u64) & 0xffff_0000_0000_0000u64) >> 48 == (w & 0xffff_0000_0000_0000u64) >> 48)
                by (bit_vector);
        }
        self.0 = r;
    }

    /// Sets the vector to the sixteen lowest bits of `vec` and leaves the
    /// rest of the entry as it is.
    pub fn set_vec(&mut self, vec: usize)
        ensures
            final(self).0 == (old(self).0 & !UISTE_VEC_MASK) | (((vec as u64) << 16) & UISTE_VEC_MASK),
            final(self).vec() == (vec as u64) & 0xffff,
            final(self).index() == old(self).index(),
    {
        let w: u64 = self.0;
        let v: u64 = vec as u64;
        proof {
            assert((((w & !0xffff_0000u64) | ((v << 16) & 0xffff_0000u64)) & 0xffff_0000u64) >> 16 == v
                & 0xffff) by (bit_vector);
            assert((((w & !0xffff_0000u64) | ((v << 16) & 0xffff_0000u64)) & 0xffff_0000_0000_0000u64)
                >> 48 == (w & 0xffff_0000_0000_0000u64) >> 48) by (bit_vector);
        }
        self.0 = (w & !UISTE_VEC_MASK) | ((v << 16) & UISTE_VEC_MASK);
    }

    /// The vector of the entry.
    pub fn get_vec(&self) -> (r: usize)
        ensures
            r == self.vec(),
    {
        let w: u64 = self.0;
        proof {
            assert((w & 0xffff_0000u64) >> 16 <= 0xffff) by (bit_vector);
        }
        ((w & UISTE_VEC_MASK) >> 16) as usize
    }

    /// Sets the receiver index to the sixteen lowest bits of `index` and
    /// leaves the rest of the entry as it is.
    pub fn set_index(&mut self, index: usize)
        ensures
            final(self).0 == (old(self).0 & !UISTE_INDEX_MASK) | (((index as u64) << 48)
                & UISTE_INDEX_MASK),
            final(self).index() == (index as u64) & 0xffff,
            final(self).vec() == old(self).vec(),
    {
        let w: u64 = self.0;
        let v: u64 = index as u64;
        proof {
            assert((((w & !0xffff_0000_0000_0000u64) | ((v << 48) & 0xffff_0000_0000_0000u64))
                & 0xffff_0000_0000_0000u64) >> 48 == v & 0xffff) by (bit_vector);
            assert((((w & !0xffff_0000_0000_0000u64) | ((v << 48) & 0xffff_0000_0000_0000u64))
                & 0xffff_0000u64) >> 16 == (w & 0xffff_0000u64) >> 16) by (bit_vector);
        }
        self.0 = (w & !UISTE_INDEX_MASK) | ((v << 48) & UISTE_INDEX_MASK);
    }

    /// The receiver index of the entry.
    pub fn get_index(&self) -> (r: usize)
        ensures
            r == self.index(),
    {
        let w: u64 = self.0;
        proof {
            assert((w & 0xffff_0000_0000_0000u64) >> 48 <= 0xffff) by (bit_vector);
        }
        ((w & UISTE_INDEX_MASK) >> 48) as usize
    }
}

/// The status of a receiver of user interrupts as the controller holds it:
/// a mode and the hart in the low word, the pending interrupts in the high
/// word.
#[derive(Debug)]
pub struct UIntrReceiver {
    pub mode: u16,
    pub hartid: u16,
    pub _reserved: u32,
    pub irq: u64,
}

impl UIntrReceiver {
    /// The status that the two words read from the controller stand for.
    pub fn from(low: u64, high: u64) -> (r: Self)
        ensures
            r.mode == low & 0xffff,
            r.hartid == (low >> 16) & 0xffff,
            r._reserved == 0,
            r.irq == high,
    {
        proof {
            assert(low & 0xffff <= 0xffff) by (bit_vector);
            assert((low >> 16) & 0xffff <= 0xffff) by (bit_vector);
        }
        UIntrReceiver {
            mode: (low & 0xffff) as u16,
            hartid: ((low >> 16) & 0xffff) as u16,
            _reserved: 0,
            irq: high,
        }
    }

    /// The two words to write to the controller for this status: the low
    /// word holds the mode and, from bit 16 on, the hart; the high word holds
    /// the pending interrupts.
    pub fn sync(&self) -> (r: (u64, u64))
        ensures
            r.0 == (self.mode as u64) | ((self.hartid as u64) << 16),
            r.1 == self.irq,
            r.0 & 0xffff == self.mode,
            (r.0 >> 16) & 0xffff == self.hartid,
    {
        let m: u64 = self.mode as u64;
        let h: u64 = self.hartid as u64;
        proof {
            assert((m | (h << 16)) & 0xffff == m) by (bit_vector)
                requires
                    m <= 0xffff,
                    h <= 0xffff,
            ;
            assert(((m | (h << 16)) >> 16) & 0xffff == h) by (bit_vector)
                requires
                    m <= 0xffff,
                    h <= 0xffff,
            ;
        }
        (m | (h << 16), self.irq)
    }
}

} // verus!
