//! The rights a capability can carry: read, write, grant and grant-reply.

use vstd::prelude::*;

verus! {

/// A set of rights. Masking a capability intersects its rights with such a set.
#[derive(Clone, Copy, Debug, PartialEq, Eq, Structural)]
pub struct seL4_CapRights_t {
    pub capAllowGrantReply: bool,
    pub capAllowGrant: bool,
    pub capAllowRead: bool,
    pub capAllowWrite: bool,
}

impl seL4_CapRights_t {
    /// The rights that both sets hold.
    pub open spec fn intersect(self, other: seL4_CapRights_t) -> seL4_CapRights_t {
        seL4_CapRights_t {
            capAllowGrantReply: self.capAllowGrantReply && other.capAllowGrantReply,
            capAllowGrant: self.capAllowGrant && other.capAllowGrant,
            capAllowRead: self.capAllowRead && other.capAllowRead,
            capAllowWrite: self.capAllowWrite && other.capAllowWrite,
        }
    }

    /// Intersection of two sets of rights.
    pub fn and(&self, other: &seL4_CapRights_t) -> (r: seL4_CapRights_t)
        ensures
            r == self.intersect(*other),
    {
        seL4_CapRights_t {
            capAllowGrantReply: self.capAllowGrantReply && other.capAllowGrantReply,
            capAllowGrant: self.capAllowGrant && other.capAllowGrant,
            capAllowRead: self.capAllowRead && other.capAllowRead,
            capAllowWrite: self.capAllowWrite && other.capAllowWrite,
        }
    }
}

/// The rights that a message word encodes: bit 0 write, bit 1 read,
/// bit 2 grant, bit 3 grant-reply. Higher bits are ignored.
pub open spec fn rights_of_word(w: u64) -> seL4_CapRights_t {
    seL4_CapRights_t {
        capAllowGrantReply: (w / 8) % 2 == 1,
        capAllowGrant: (w / 4) % 2 == 1,
        capAllowRead: (w / 2) % 2 == 1,
        capAllowWrite: w % 2 == 1,
    }
}

/// The word that encodes a set of rights, with all higher bits clear.
pub open spec fn word_of_rights(r: seL4_CapRights_t) -> u64 {
    ((if r.capAllowWrite { 1int } else { 0 }) + (if r.capAllowRead { 2int } else { 0 }) + (
    if r.capAllowGrant { 4int } else { 0 }) + (if r.capAllowGrantReply { 8int } else { 0 })) as u64
}

/// Decodes a set of rights from a message word.
pub fn rightsFromWord(w: u64) -> (r: seL4_CapRights_t)
    ensures
        r == rights_of_word(w),
{
    seL4_CapRights_t {
        capAllowGrantReply: (w / 8) % 2 == 1,
        capAllowGrant: (w / 4) % 2 == 1,
        capAllowRead: (w / 2) % 2 == 1,
        capAllowWrite: w % 2 == 1,
    }
}

/// Encodes a set of rights as a message word.
pub fn wordFromRights(rights: &seL4_CapRights_t) -> (w: u64)
    ensures
        w == word_of_rights(*rights),
        w < 16,
{
    let a: u64 = if rights.capAllowWrite { 1 } else { 0 };
    let b: u64 = if rights.capAllowRead { 2 } else { 0 };
    let c: u64 = if rights.capAllowGrant { 4 } else { 0 };
    let d: u64 = if rights.capAllowGrantReply { 8 } else { 0 };
    a + b + c + d
}

/// The grant-reply right as a number.
pub fn seL4_CapRights_get_capAllowGrantReply(rights: &seL4_CapRights_t) -> (r: usize)
    ensures
        r == (if rights.capAllowGrantReply { 1usize } else { 0usize }),
{
    if rights.capAllowGrantReply { 1 } else { 0 }
}

/// The grant right as a number.
pub fn seL4_CapRights_get_capAllowGrant(rights: &seL4_CapRights_t) -> (r: usize)
    ensures
        r == (if rights.capAllowGrant { 1usize } else { 0usize }),
{
    if rights.capAllowGrant { 1 } else { 0 }
}

/// The read right as a number.
pub fn seL4_CapRights_get_capAllowRead(rights: &seL4_CapRights_t) -> (r: usize)
    ensures
        r == (if rights.capAllowRead { 1usize } else { 0usize }),
{
    if rights.capAllowRead { 1 } else { 0 }
}

/// The write right as a number.
pub fn seL4_CapRights_get_capAllowWrite(rights: &seL4_CapRights_t) -> (r: usize)
    ensures
        r == (if rights.capAllowWrite { 1usize } else { 0usize }),
{
    if rights.capAllowWrite { 1 } else { 0 }
}

/// Encoding a set of rights and decoding the word gives the set back.
pub proof fn lemma_rights_word_round_trip(r: seL4_CapRights_t)
    ensures
        rights_of_word(word_of_rights(r)) == r,
{
}

} // verus!
