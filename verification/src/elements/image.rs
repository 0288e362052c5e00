//! The image record: a sub-header followed by its ordered elements.

use vstd::prelude::*;

use crate::elements::image_element::ImageElement;
use crate::elements::image_element::lemma_image_element_bytes_len;
use crate::elements::target_prefix::TargetPrefix;
use crate::elements::target_prefix::lemma_target_prefix_bytes_len;

verus! {

/// Sum of the encoded sizes of a sequence of elements.
pub open spec fn spec_elements_size(elems: Seq<ImageElement>) -> nat
    decreases elems.len(),
{
    if elems.len() == 0 {
        0
    } else {
        spec_elements_size(elems.drop_last()) + elems.last().spec_size()
    }
}

/// The concatenated encodings of a sequence of elements, in order.
pub open spec fn spec_elements_bytes(elems: Seq<ImageElement>) -> Seq<u8>
    decreases elems.len(),
{
    if elems.len() == 0 {
        Seq::empty()
    } else {
        spec_elements_bytes(elems.drop_last()) + elems.last().spec_bytes()
    }
}

/// The concatenated encodings are exactly as long as the summed sizes.
pub proof fn lemma_elements_bytes_len(elems: Seq<ImageElement>)
    ensures
        spec_elements_bytes(elems).len() == spec_elements_size(elems),
    decreases elems.len(),
{
    if elems.len() > 0 {
        lemma_elements_bytes_len(elems.drop_last());
        lemma_image_element_bytes_len(elems.last());
    }
}

/// A shorter front of the elements never sums to more than all of them.
pub proof fn lemma_elements_size_take_le(elems: Seq<ImageElement>, i: int)
    requires
        0 <= i <= elems.len(),
    ensures
        spec_elements_size(elems.take(i)) <= spec_elements_size(elems),
    decreases elems.len() - i,
{
    if i == elems.len() {
        assert(elems.take(i) =~= elems);
    } else {
        assert(elems.take(i + 1).drop_last() =~= elems.take(i));
        assert(elems.take(i + 1).last() == elems[i]);
        lemma_elements_size_take_le(elems, i + 1);
    }
}

/// A named or unnamed logical firmware slice: an optional name, the USB
/// alternate-setting id, and an ordered non-empty sequence of elements.
/// Encoded as the fixed 274-byte sub-header followed by each element's
/// record, in order.
pub struct Image {
    pub name: Option<String>,
    pub alternate: u8,
    pub elements: Vec<ImageElement>,
}

impl Image {
    /// The elements are present and fit the format's 4-byte size and
    /// count fields.
    pub open spec fn wf(&self) -> bool {
        &&& self.elements@.len() >= 1
        &&& forall|i: int| 0 <= i < self.elements@.len() ==> self.elements@[i].wf()
        &&& self.elements@.len() <= 0xFFFF_FFFF
        &&& 274 + spec_elements_size(self.elements@) <= 0xFFFF_FFFF
    }

    /// The encoded size of the whole image record.
    pub open spec fn spec_size(&self) -> nat {
        274 + spec_elements_size(self.elements@)
    }

    /// The sub-header that the image encodes in front of its elements.
    pub open spec fn spec_target_prefix(&self) -> TargetPrefix {
        TargetPrefix {
            name: self.name,
            alternate: self.alternate,
            image_size: spec_elements_size(self.elements@) as u32,
            nb_elements: self.elements@.len() as u32,
        }
    }

    /// The exact bytes of the encoded image record.
    pub open spec fn spec_bytes(&self) -> Seq<u8> {
        self.spec_target_prefix().spec_bytes() + spec_elements_bytes(self.elements@)
    }

    /// The encoded size: the fixed sub-header plus the summed element
    /// sizes.
    pub fn size(&self) -> (r: usize)
        requires
            self.wf(),
        ensures
            r == self.spec_size(),
    {
        274 + self.elements_size()
    }

    fn elements_size(&self) -> (r: usize)
        requires
            self.wf(),
        ensures
            r == spec_elements_size(self.elements@),
    {
        let mut sum: usize = 0;
        let mut i: usize = 0;
        while i < self.elements.len()
            invariant
                self.wf(),
                i <= self.elements@.len(),
                sum == spec_elements_size(self.elements@.take(i as int)),
            decreases self.elements@.len() - i,
        {
            let e: &ImageElement = &self.elements[i];
            let s: usize = e.size();
            proof {
                assert(self.elements@.take(i + 1).drop_last() =~= self.elements@.take(i as int));
                assert(self.elements@.take(i + 1).last() == self.elements@[i as int]);
                lemma_elements_size_take_le(self.elements@, i + 1);
            }
            sum = sum + s;
            i = i + 1;
        }
        proof {
            assert(self.elements@.take(self.elements@.len() as int) =~= self.elements@);
        }
        sum
    }

    /// Appends the encoded image record to `out`.
    pub fn write_to(&self, out: &mut Vec<u8>)
        requires
            self.wf(),
        ensures
            final(out)@ == old(out)@ + self.spec_bytes(),
    {
        let name: Option<String> = match &self.name {
            Option::Some(txt) => Option::Some(txt.clone()),
            Option::None => Option::None,
        };
        let target = TargetPrefix::new(
            name,
            self.alternate,
            self.elements_size() as u32,
            self.elements.len() as u32,
        );
        proof {
            assert(target == self.spec_target_prefix());
        }
        target.write_to(out);

        let mut i: usize = 0;
        while i < self.elements.len()
            invariant
                self.wf(),
                i <= self.elements@.len(),
                out@ == old(out)@ + self.spec_target_prefix().spec_bytes() + spec_elements_bytes(
                    self.elements@.take(i as int),
                ),
            decreases self.elements@.len() - i,
        {
            let e: &ImageElement = &self.elements[i];
            e.write_to(out);
            proof {
                assert(self.elements@.take(i + 1).drop_last() =~= self.elements@.take(i as int));
                assert(self.elements@.take(i + 1).last() == self.elements@[i as int]);
                assert(out@ =~= old(out)@ + self.spec_target_prefix().spec_bytes()
                    + spec_elements_bytes(self.elements@.take(i + 1)));
            }
            i = i + 1;
        }
        proof {
            assert(self.elements@.take(self.elements@.len() as int) =~= self.elements@);
            assert(out@ =~= old(out)@ + self.spec_bytes());
        }
    }
}

/// The encoded image record is exactly `spec_size` bytes: the fixed
/// 274-byte sub-header plus the summed element sizes.
pub proof fn lemma_image_bytes_len(img: Image)
    ensures
        img.spec_bytes().len() == img.spec_size(),
{
    lemma_target_prefix_bytes_len(img.spec_target_prefix());
    lemma_elements_bytes_len(img.elements@);
}

/// The encoded size of an image does not depend on its name: two images
/// with the same elements have the same encoded size, whatever their
/// names.
pub proof fn lemma_image_size_ignores_name(a: Image, b: Image)
    requires
        a.elements@ == b.elements@,
    ensures
        a.spec_size() == b.spec_size(),
        a.spec_bytes().len() == b.spec_bytes().len(),
{
    lemma_image_bytes_len(a);
    lemma_image_bytes_len(b);
}

} // verus!
