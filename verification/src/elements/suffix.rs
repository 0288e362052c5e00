//! The fixed trailer block.

use vstd::prelude::*;

use crate::elements::encode::push_u16_le;
use crate::elements::encode::push_u8;
use crate::elements::encode::spec_le16;

verus! {

/// The fixed 12-byte trailer: firmware version, USB product id and USB
/// vendor id (each 2 bytes, little-endian), a 2-byte sub-format version
/// constant, a 3-byte magic marker, and a 1-byte trailer-size constant
/// that counts the trailer together with the 4-byte checksum.
pub struct Suffix {
    pub fw_version: u16,
    pub usb_pid: u16,
    pub usb_vid: u16,
}

impl Suffix {
    /// The exact bytes of the encoded trailer.
    pub open spec fn spec_bytes(&self) -> Seq<u8> {
        spec_le16(self.fw_version) + spec_le16(self.usb_pid) + spec_le16(self.usb_vid) + spec_le16(
            0x011Au16,
        ) + seq![0x55u8, 0x46u8, 0x44u8, 16u8]
    }

    /// A trailer with every settable field at its default `0xFFFF`.
    pub fn new() -> (s: Suffix)
        ensures
            s.fw_version == 0xFFFFu16,
            s.usb_pid == 0xFFFFu16,
            s.usb_vid == 0xFFFFu16,
    {
        Suffix { fw_version: 0xFFFF, usb_pid: 0xFFFF, usb_vid: 0xFFFF }
    }

    /// The encoded size of the trailer, without the checksum: always 12
    /// bytes.
    pub fn size() -> (r: usize)
        ensures
            r == 12,
    {
        12
    }

    /// Appends the encoded trailer to `out`.
    pub fn write_to(&self, out: &mut Vec<u8>)
        ensures
            final(out)@ == old(out)@ + self.spec_bytes(),
    {
        push_u16_le(out, self.fw_version);
        push_u16_le(out, self.usb_pid);
        push_u16_le(out, self.usb_vid);
        push_u16_le(out, 0x011Au16);
        push_u8(out, 0x55u8);
        push_u8(out, 0x46u8);
        push_u8(out, 0x44u8);
        push_u8(out, 16u8);
        proof {
            assert(out@ =~= old(out)@ + self.spec_bytes());
        }
    }
}

/// The encoded trailer is always exactly 12 bytes.
pub proof fn lemma_suffix_bytes_len(s: Suffix)
    ensures
        s.spec_bytes().len() == 12,
{
}

} // verus!
