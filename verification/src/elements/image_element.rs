//! The addressed binary element record.

use vstd::prelude::*;

use crate::elements::encode::push_u32_be;
use crate::elements::encode::spec_be32;

verus! {

/// One addressed binary blob: a 32-bit start address and its payload.
/// Encoded as the 4-byte big-endian address, the 4-byte big-endian payload
/// length, and the raw payload bytes.
pub struct ImageElement {
    pub start_adress: u32,
    pub data: Vec<u8>,
}

impl ImageElement {
    /// The encoded record fits the format's 4-byte length fields.
    pub open spec fn wf(&self) -> bool {
        8 + self.data@.len() <= 0xFFFF_FFFF
    }

    /// The encoded size of the record.
    pub open spec fn spec_size(&self) -> nat {
        8 + self.data@.len()
    }

    /// The exact bytes of the encoded record.
    pub open spec fn spec_bytes(&self) -> Seq<u8> {
        spec_be32(self.start_adress) + spec_be32(self.data@.len() as u32) + self.data@
    }

    pub fn new(start_adress: u32, data: Vec<u8>) -> (e: ImageElement)
        ensures
            e.start_adress == start_adress,
            e.data == data,
    {
        ImageElement { start_adress, data }
    }

    /// The encoded size: 8 bytes of address and length, plus the payload.
    pub fn size(&self) -> (r: usize)
        requires
            self.wf(),
        ensures
            r == self.spec_size(),
    {
        8 + self.data.len()
    }

    /// Appends the encoded record to `out`.
    pub fn write_to(&self, out: &mut Vec<u8>)
        requires
            self.wf(),
        ensures
            final(out)@ == old(out)@ + self.spec_bytes(),
    {
        push_u32_be(out, self.start_adress);
        push_u32_be(out, self.data.len() as u32);

        let mut i: usize = 0;
        while i < self.data.len()
            invariant
                self.wf(),
                i <= self.data@.len(),
                out@ == old(out)@ + spec_be32(self.start_adress) + spec_be32(
                    self.data@.len() as u32,
                ) + self.data@.take(i as int),
            decreases self.data@.len() - i,
        {
            let b: u8 = self.data[i];
            out.push(b);
            proof {
                assert(self.data@.take(i + 1) =~= self.data@.take(i as int).push(b));
                assert(out@ =~= old(out)@ + spec_be32(self.start_adress) + spec_be32(
                    self.data@.len() as u32,
                ) + self.data@.take(i + 1));
            }
            i = i + 1;
        }
        proof {
            assert(self.data@.take(self.data@.len() as int) =~= self.data@);
            assert(out@ =~= old(out)@ + self.spec_bytes());
        }
    }
}

/// The encoded element is exactly `spec_size` bytes: 8 plus the payload
/// length.
pub proof fn lemma_image_element_bytes_len(e: ImageElement)
    ensures
        e.spec_bytes().len() == e.spec_size(),
{
}

} // verus!
