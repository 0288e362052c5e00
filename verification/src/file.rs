//! The container builder: an ordered collection of images plus trailer
//! metadata, written out as header, images, trailer and checksum in one
//! pass through the checksumming sink.

use vstd::prelude::*;

use crate::elements::Image;
use crate::elements::ImageElement;
use crate::elements::Prefix;
use crate::elements::Suffix;
use crate::elements::encode::spec_le32;
use crate::elements::lemma_image_bytes_len;
use crate::elements::spec_elements_size;
use crate::tools::BufWriterWithCRC;
use crate::tools::crc::spec_crc32;

verus! {

/// Sum of the encoded sizes of a sequence of images.
pub open spec fn spec_images_size(imgs: Seq<Image>) -> nat
    decreases imgs.len(),
{
    if imgs.len() == 0 {
        0
    } else {
        spec_images_size(imgs.drop_last()) + imgs.last().spec_size()
    }
}

/// The concatenated encodings of a sequence of images, in order.
pub open spec fn spec_images_bytes(imgs: Seq<Image>) -> Seq<u8>
    decreases imgs.len(),
{
    if imgs.len() == 0 {
        Seq::empty()
    } else {
        spec_images_bytes(imgs.drop_last()) + imgs.last().spec_bytes()
    }
}

/// The concatenated image encodings are exactly as long as the summed
/// image sizes.
pub proof fn lemma_images_bytes_len(imgs: Seq<Image>)
    ensures
        spec_images_bytes(imgs).len() == spec_images_size(imgs),
    decreases imgs.len(),
{
    if imgs.len() > 0 {
        lemma_images_bytes_len(imgs.drop_last());
        lemma_image_bytes_len(imgs.last());
    }
}

/// A shorter front of the images never sums to more than all of them.
pub proof fn lemma_images_size_take_le(imgs: Seq<Image>, i: int)
    requires
        0 <= i <= imgs.len(),
    ensures
        spec_images_size(imgs.take(i)) <= spec_images_size(imgs),
    decreases imgs.len() - i,
{
    if i == imgs.len() {
        assert(imgs.take(i) =~= imgs);
    } else {
        assert(imgs.take(i + 1).drop_last() =~= imgs.take(i));
        assert(imgs.take(i + 1).last() == imgs[i]);
        lemma_images_size_take_le(imgs, i + 1);
    }
}

/// The summed size of a sequence of images depends only on their
/// elements, never on their names.
pub proof fn lemma_images_size_ignores_names(a: Seq<Image>, b: Seq<Image>)
    requires
        a.len() == b.len(),
        forall|i: int| 0 <= i < a.len() ==> a[i].elements@ == b[i].elements@,
    ensures
        spec_images_size(a) == spec_images_size(b),
    decreases a.len(),
{
    if a.len() > 0 {
        assert(forall|i: int|
            0 <= i < a.drop_last().len() ==> a.drop_last()[i].elements@ == b.drop_last()[i].elements@);
        lemma_images_size_ignores_names(a.drop_last(), b.drop_last());
    }
}

/// A container file being built: an ordered sequence of images and the
/// trailer metadata.  The total encoded size is the 11-byte header, the
/// image records, the 12-byte trailer and the 4-byte checksum.
pub struct DfuseFile {
    images: Vec<Image>,
    suffix: Suffix,
}

impl DfuseFile {
    /// The images of the container, in emission order.
    pub closed spec fn spec_images(&self) -> Seq<Image> {
        self.images@
    }

    /// The trailer metadata of the container.
    pub closed spec fn spec_suffix(&self) -> Suffix {
        self.suffix
    }

    /// Every image is well formed, and the container fits the format's
    /// 1-byte image count and 4-byte total-size fields.
    pub open spec fn wf(&self) -> bool {
        &&& forall|i: int| 0 <= i < self.spec_images().len() ==> self.spec_images()[i].wf()
        &&& self.spec_images().len() <= 255
        &&& self.spec_size() <= 0xFFFF_FFFF
    }

    /// The total encoded size of the file, checksum included.
    pub open spec fn spec_size(&self) -> nat {
        11 + spec_images_size(self.spec_images()) + 12 + 4
    }

    /// The file header the container encodes: the total size and the
    /// image count.
    pub open spec fn spec_prefix(&self) -> Prefix {
        Prefix { size: self.spec_size() as u32, nb_images: self.spec_images().len() as u8 }
    }

    /// Every byte of the encoded file before the checksum: header, image
    /// records in order, trailer.
    pub open spec fn spec_body(&self) -> Seq<u8> {
        self.spec_prefix().spec_bytes() + spec_images_bytes(self.spec_images())
            + self.spec_suffix().spec_bytes()
    }

    /// The exact bytes of the whole encoded file: the body followed by
    /// the little-endian check value of the body.
    pub open spec fn spec_encoding(&self) -> Seq<u8> {
        self.spec_body() + spec_le32(spec_crc32(self.spec_body()))
    }

    /// Creates an empty container: no images, every trailer field at its
    /// default `0xFFFF`.
    pub fn new() -> (f: DfuseFile)
        ensures
            f.wf(),
            f.spec_images() == Seq::<Image>::empty(),
            f.spec_suffix().fw_version == 0xFFFFu16,
            f.spec_suffix().usb_pid == 0xFFFFu16,
            f.spec_suffix().usb_vid == 0xFFFFu16,
    {
        DfuseFile { images: Vec::new(), suffix: Suffix::new() }
    }

    /// Appends a named image holding one element with the given start
    /// address and payload.
    pub fn add_image(&mut self, name: &str, alternate: u8, start_adress: u32, data: Vec<u8>)
        requires
            old(self).wf(),
            old(self).spec_images().len() < 255,
            old(self).spec_size() + 282 + data@.len() <= 0xFFFF_FFFF,
        ensures
            final(self).wf(),
            final(self).spec_images().len() == old(self).spec_images().len() + 1,
            final(self).spec_images().take(old(self).spec_images().len() as int) == old(
                self,
            ).spec_images(),
            final(self).spec_images().last().name is Some,
            final(self).spec_images().last().name.unwrap()@ == name@,
            final(self).spec_images().last().alternate == alternate,
            final(self).spec_images().last().elements@.len() == 1,
            final(self).spec_images().last().elements@[0].start_adress == start_adress,
            final(self).spec_images().last().elements@[0].data@ == data@,
            final(self).spec_suffix() == old(self).spec_suffix(),
            final(self).spec_size() == old(self).spec_size() + 282 + data@.len(),
    {
        let element = ImageElement { start_adress, data };

        let mut elements: Vec<ImageElement> = Vec::new();
        elements.push(element);

        let image = Image { name: Option::Some(name.to_owned()), alternate, elements };

        proof {
            assert(image.elements@.drop_last() =~= Seq::<ImageElement>::empty());
            assert(spec_elements_size(Seq::<ImageElement>::empty()) == 0);
            assert(spec_elements_size(image.elements@) == image.elements@.last().spec_size());
            assert(image.wf());
            assert(self.images@.push(image).drop_last() =~= self.images@);
            assert(spec_images_size(self.images@.push(image)) == spec_images_size(self.images@)
                + image.spec_size());
            assert(self.images@.push(image).take(self.images@.len() as int) =~= self.images@);
        }
        self.images.push(image);
    }

    /// Appends an unnamed image holding one element with the given start
    /// address and payload.
    pub fn add_unamed_image(&mut self, alternate: u8, start_adress: u32, data: Vec<u8>)
        requires
            old(self).wf(),
            old(self).spec_images().len() < 255,
            old(self).spec_size() + 282 + data@.len() <= 0xFFFF_FFFF,
        ensures
            final(self).wf(),
            final(self).spec_images().len() == old(self).spec_images().len() + 1,
            final(self).spec_images().take(old(self).spec_images().len() as int) == old(
                self,
            ).spec_images(),
            final(self).spec_images().last().name is None,
            final(self).spec_images().last().alternate == alternate,
            final(self).spec_images().last().elements@.len() == 1,
            final(self).spec_images().last().elements@[0].start_adress == start_adress,
            final(self).spec_images().last().elements@[0].data@ == data@,
            final(self).spec_suffix() == old(self).spec_suffix(),
            final(self).spec_size() == old(self).spec_size() + 282 + data@.len(),
    {
        let element = ImageElement { start_adress, data };

        let mut elements: Vec<ImageElement> = Vec::new();
        elements.push(element);

        let image = Image { name: Option::None, alternate, elements };

        proof {
            assert(image.elements@.drop_last() =~= Seq::<ImageElement>::empty());
            assert(spec_elements_size(Seq::<ImageElement>::empty()) == 0);
            assert(spec_elements_size(image.elements@) == image.elements@.last().spec_size());
            assert(image.wf());
            assert(self.images@.push(image).drop_last() =~= self.images@);
            assert(spec_images_size(self.images@.push(image)) == spec_images_size(self.images@)
                + image.spec_size());
            assert(self.images@.push(image).take(self.images@.len() as int) =~= self.images@);
        }
        self.images.push(image);
    }

    /// Sets the trailer's USB vendor id.
    pub fn set_vendor_id(&mut self, vid: u16)
        ensures
            final(self).spec_images() == old(self).spec_images(),
            final(self).spec_suffix().usb_vid == vid,
            final(self).spec_suffix().usb_pid == old(self).spec_suffix().usb_pid,
            final(self).spec_suffix().fw_version == old(self).spec_suffix().fw_version,
            old(self).wf() ==> final(self).wf(),
    {
        self.suffix.usb_vid = vid;
    }

    /// Sets the trailer's USB product id.
    pub fn set_product_id(&mut self, pid: u16)
        ensures
            final(self).spec_images() == old(self).spec_images(),
            final(self).spec_suffix().usb_pid == pid,
            final(self).spec_suffix().usb_vid == old(self).spec_suffix().usb_vid,
            final(self).spec_suffix().fw_version == old(self).spec_suffix().fw_version,
            old(self).wf() ==> final(self).wf(),
    {
        self.suffix.usb_pid = pid;
    }

    /// Sets the trailer's firmware version.
    pub fn set_version(&mut self, ver: u16)
        ensures
            final(self).spec_images() == old(self).spec_images(),
            final(self).spec_suffix().fw_version == ver,
            final(self).spec_suffix().usb_pid == old(self).spec_suffix().usb_pid,
            final(self).spec_suffix().usb_vid == old(self).spec_suffix().usb_vid,
            old(self).wf() ==> final(self).wf(),
    {
        self.suffix.fw_version = ver;
    }

    /// The total encoded size of the file, recomputed from the current
    /// contents: header, images, trailer, checksum.
    pub fn size(&self) -> (r: usize)
        requires
            self.wf(),
        ensures
            r == self.spec_size(),
    {
        let mut sum: usize = Prefix::size() + Suffix::size() + CRC_SIZE;
        let mut i: usize = 0;
        while i < self.images.len()
            invariant
                self.wf(),
                i <= self.images@.len(),
                sum == 27 + spec_images_size(self.images@.take(i as int)),
            decreases self.images@.len() - i,
        {
            let img: &Image = &self.images[i];
            let s: usize = img.size();
            proof {
                assert(self.images@.take(i + 1).drop_last() =~= self.images@.take(i as int));
                assert(self.images@.take(i + 1).last() == self.images@[i as int]);
                lemma_images_size_take_le(self.images@, i + 1);
            }
            sum = sum + s;
            i = i + 1;
        }
        proof {
            assert(self.images@.take(self.images@.len() as int) =~= self.images@);
        }
        sum
    }

    /// Encodes the whole file into `out`, in one pass through the
    /// checksumming sink: header with the current total size and image
    /// count, each image in append order, the trailer, and the check
    /// value of everything before it.
    pub fn write_to(&self, out: &mut Vec<u8>)
        requires
            self.wf(),
        ensures
            final(out)@ == old(out)@ + self.spec_encoding(),
    {
        let mut w = BufWriterWithCRC::new(Vec::new());

        let total: usize = self.size();
        let prefix = Prefix::new(total as u32, self.images.len() as u8);
        proof {
            assert(prefix == self.spec_prefix());
        }
        let mut tmp: Vec<u8> = Vec::new();
        prefix.write_to(&mut tmp);
        w.write(tmp.as_slice());
        proof {
            assert(w.spec_buf() =~= self.spec_prefix().spec_bytes());
            assert(w.spec_written() =~= self.spec_prefix().spec_bytes());
            assert(spec_images_bytes(self.images@.take(0)) =~= Seq::<u8>::empty());
            assert(w.spec_buf() =~= self.spec_prefix().spec_bytes() + spec_images_bytes(
                self.images@.take(0),
            ));
        }

        let mut i: usize = 0;
        while i < self.images.len()
            invariant
                self.wf(),
                i <= self.images@.len(),
                w.wf(),
                w.spec_buf() == self.spec_prefix().spec_bytes() + spec_images_bytes(
                    self.images@.take(i as int),
                ),
                w.spec_written() == w.spec_buf(),
            decreases self.images@.len() - i,
        {
            let img: &Image = &self.images[i];
            let mut timg: Vec<u8> = Vec::new();
            img.write_to(&mut timg);
            w.write(timg.as_slice());
            proof {
                assert(self.images@.take(i + 1).drop_last() =~= self.images@.take(i as int));
                assert(self.images@.take(i + 1).last() == self.images@[i as int]);
                assert(w.spec_buf() =~= self.spec_prefix().spec_bytes() + spec_images_bytes(
                    self.images@.take(i + 1),
                ));
            }
            i = i + 1;
        }
        proof {
            assert(self.images@.take(self.images@.len() as int) =~= self.images@);
        }

        let mut tsuf: Vec<u8> = Vec::new();
        self.suffix.write_to(&mut tsuf);
        w.write(tsuf.as_slice());
        proof {
            assert(w.spec_buf() =~= self.spec_body());
            assert(w.spec_written() =~= self.spec_body());
        }

        w.write_crc();

        let mut inner: Vec<u8> = w.into_inner();
        proof {
            assert(inner@ =~= self.spec_encoding());
        }
        out.append(&mut inner);
    }
}

const CRC_SIZE: usize = 0x4;

/// The encoded file is exactly `spec_size` bytes long: the 11-byte
/// header, the image records, the 12-byte trailer and the 4-byte check
/// value.
pub proof fn lemma_file_bytes_len(f: DfuseFile)
    ensures
        f.spec_encoding().len() == f.spec_size(),
        f.spec_body().len() == f.spec_size() - 4,
{
    lemma_images_bytes_len(f.spec_images());
}

/// The last four bytes of the encoded file are the little-endian check
/// value of every byte before them.
pub proof fn lemma_encoding_ends_with_crc(f: DfuseFile)
    ensures
        f.spec_encoding() == f.spec_body() + spec_le32(spec_crc32(f.spec_body())),
        f.spec_encoding().len() == f.spec_size(),
{
    lemma_file_bytes_len(f);
}

/// Encoding is deterministic: without mutation in between, two encodings
/// of the same container are byte-identical, and two size computations
/// agree.
pub proof fn lemma_encoding_deterministic(f: DfuseFile, b1: Seq<u8>, b2: Seq<u8>)
    requires
        b1 == f.spec_encoding(),
        b2 == f.spec_encoding(),
    ensures
        b1 == b2,
{
}

/// The total file size does not depend on any image name: two containers
/// whose images carry the same elements have the same total size,
/// whatever the images are named.
pub proof fn lemma_file_size_ignores_names(f: DfuseFile, g: DfuseFile)
    requires
        f.spec_images().len() == g.spec_images().len(),
        forall|i: int|
            0 <= i < f.spec_images().len() ==> f.spec_images()[i].elements@
                == g.spec_images()[i].elements@,
    ensures
        f.spec_size() == g.spec_size(),
{
    lemma_images_size_ignores_names(f.spec_images(), g.spec_images());
}

} // verus!
