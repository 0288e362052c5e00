//! The per-image sub-header record.

use vstd::prelude::*;
use vstd::utf8::encode_utf8;

use crate::elements::encode::push_u32_be;
use crate::elements::encode::push_u32_le;
use crate::elements::encode::push_u8;
use crate::elements::encode::spec_be32;
use crate::elements::encode::spec_le32;
use crate::elements::encode::spec_zeros;

verus! {

/// The fixed 255-byte name field: the first bytes of the name (at most
/// 254 of them, so the field always ends in at least one zero byte),
/// zero-padded on the right; all zero when the image is unnamed.
pub open spec fn spec_name_field(name: Option<Seq<u8>>) -> Seq<u8> {
    match name {
        Option::None => spec_zeros(255),
        Option::Some(n) => {
            let k: nat = if n.len() <= 254 {
                n.len()
            } else {
                254
            };
            n.take(k as int) + spec_zeros((255 - k) as nat)
        },
    }
}

/// The bytes of an optional name: the UTF-8 encoding of its text.
pub open spec fn spec_name_bytes(name: Option<String>) -> Option<Seq<u8>> {
    match name {
        Option::None => Option::None,
        Option::Some(s) => Option::Some(encode_utf8(s@)),
    }
}

/// The fixed 274-byte image sub-header: a 6-byte ASCII signature, the
/// 1-byte alternate-setting id, a 4-byte big-endian named flag (1 when the
/// image has a name, else 0), the fixed 255-byte name field, the 4-byte
/// little-endian payload size, and the 4-byte little-endian element count.
pub struct TargetPrefix {
    pub name: Option<String>,
    pub alternate: u8,
    pub image_size: u32,
    pub nb_elements: u32,
}

impl TargetPrefix {
    /// The exact bytes of the encoded sub-header.
    pub open spec fn spec_bytes(&self) -> Seq<u8> {
        seq![0x54u8, 0x61u8, 0x72u8, 0x67u8, 0x65u8, 0x74u8, self.alternate] + spec_be32(
            if self.name is Some {
                1u32
            } else {
                0u32
            },
        ) + spec_name_field(spec_name_bytes(self.name)) + spec_le32(self.image_size) + spec_le32(
            self.nb_elements,
        )
    }

    pub fn new(name: Option<String>, alternate: u8, image_size: u32, nb_elements: u32) -> (t:
        TargetPrefix)
        ensures
            t.name == name,
            t.alternate == alternate,
            t.image_size == image_size,
            t.nb_elements == nb_elements,
    {
        TargetPrefix { name, alternate, image_size, nb_elements }
    }

    /// The encoded size of the sub-header: always 274 bytes, whatever the
    /// name.
    pub fn size() -> (r: usize)
        ensures
            r == 274,
    {
        274
    }

    /// Appends the encoded sub-header to `out`.
    pub fn write_to(&self, out: &mut Vec<u8>)
        ensures
            final(out)@ == old(out)@ + self.spec_bytes(),
    {
        push_u8(out, 0x54u8);
        push_u8(out, 0x61u8);
        push_u8(out, 0x72u8);
        push_u8(out, 0x67u8);
        push_u8(out, 0x65u8);
        push_u8(out, 0x74u8);
        push_u8(out, self.alternate);

        let ghost head: Seq<u8> = seq![0x54u8, 0x61u8, 0x72u8, 0x67u8, 0x65u8, 0x74u8, self.alternate];
        proof {
            assert(out@ =~= old(out)@ + head);
        }

        match &self.name {
            Option::Some(txt) => {
                push_u32_be(out, 0x01);

                let bs: &[u8] = txt.as_str().as_bytes();
                proof {
                    assert(bs@ == encode_utf8(txt@));
                }
                let limit: usize = if bs.len() < 254 {
                    bs.len()
                } else {
                    254
                };

                let mut i: usize = 0;
                while i < limit
                    invariant
                        i <= limit,
                        limit <= bs@.len(),
                        out@ == old(out)@ + head + spec_be32(1u32) + bs@.take(i as int),
                    decreases limit - i,
                {
                    let b: u8 = bs[i];
                    out.push(b);
                    proof {
                        assert(bs@.take(i + 1) =~= bs@.take(i as int).push(b));
                        assert(out@ =~= old(out)@ + head + spec_be32(1u32) + bs@.take(i + 1));
                    }
                    i = i + 1;
                }
                while i < 255
                    invariant
                        limit <= i <= 255,
                        limit <= bs@.len(),
                        out@ == old(out)@ + head + spec_be32(1u32) + bs@.take(limit as int)
                            + spec_zeros((i - limit) as nat),
                    decreases 255 - i,
                {
                    out.push(0u8);
                    proof {
                        assert(spec_zeros((i + 1 - limit) as nat) =~= spec_zeros(
                            (i - limit) as nat,
                        ).push(0u8));
                        assert(out@ =~= old(out)@ + head + spec_be32(1u32) + bs@.take(
                            limit as int,
                        ) + spec_zeros((i + 1 - limit) as nat));
                    }
                    i = i + 1;
                }
                proof {
                    assert(self.name == Option::Some(*txt));
                    assert(bs@.take(limit as int) + spec_zeros((255 - limit) as nat)
                        =~= spec_name_field(spec_name_bytes(self.name)));
                }
            },
            Option::None => {
                push_u32_be(out, 0x00);

                let mut i: usize = 0;
                while i < 255
                    invariant
                        i <= 255,
                        out@ == old(out)@ + head + spec_be32(0u32) + spec_zeros(i as nat),
                    decreases 255 - i,
                {
                    out.push(0u8);
                    proof {
                        assert(spec_zeros((i + 1) as nat) =~= spec_zeros(i as nat).push(0u8));
                        assert(out@ =~= old(out)@ + head + spec_be32(0u32) + spec_zeros(
                            (i + 1) as nat,
                        ));
                    }
                    i = i + 1;
                }
            },
        }

        push_u32_le(out, self.image_size);
        push_u32_le(out, self.nb_elements);
        proof {
            assert(out@ =~= old(out)@ + self.spec_bytes());
        }
    }
}

/// The encoded sub-header is exactly 274 bytes for every name: absent,
/// short, or longer than the name field.
pub proof fn lemma_target_prefix_bytes_len(t: TargetPrefix)
    ensures
        t.spec_bytes().len() == 274,
{
}

} // verus!
