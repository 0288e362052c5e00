//! The fixed file header.

use vstd::prelude::*;

use crate::elements::encode::push_u32_le;
use crate::elements::encode::push_u8;
use crate::elements::encode::spec_le32;

verus! {

/// The fixed 11-byte file header: a 5-byte ASCII signature, a 1-byte
/// format-version constant, the 4-byte little-endian total file size, and
/// a 1-byte image count.
pub struct Prefix {
    pub size: u32,
    pub nb_images: u8,
}

impl Prefix {
    /// The exact bytes of the encoded header.
    pub open spec fn spec_bytes(&self) -> Seq<u8> {
        seq![0x44u8, 0x66u8, 0x75u8, 0x53u8, 0x65u8, 0x01u8] + spec_le32(self.size) + seq![self.nb_images]
    }

    pub fn new(size: u32, nb_images: u8) -> (p: Prefix)
        ensures
            p.size == size,
            p.nb_images == nb_images,
    {
        Prefix { size, nb_images }
    }

    /// The encoded size of the header: always 11 bytes.
    pub fn size() -> (r: usize)
        ensures
            r == 11,
    {
        11
    }

    /// Appends the encoded header to `out`.
    pub fn write_to(&self, out: &mut Vec<u8>)
        ensures
            final(out)@ == old(out)@ + self.spec_bytes(),
    {
        push_u8(out, 0x44u8);
        push_u8(out, 0x66u8);
        push_u8(out, 0x75u8);
        push_u8(out, 0x53u8);
        push_u8(out, 0x65u8);
        push_u8(out, 0x01u8);
        push_u32_le(out, self.size);
        push_u8(out, self.nb_images);
        proof {
            assert(out@ =~= old(out)@ + self.spec_bytes());
        }
    }
}

/// The encoded header is always exactly 11 bytes.
pub proof fn lemma_prefix_bytes_len(p: Prefix)
    ensures
        p.spec_bytes().len() == 11,
{
}

} // verus!
