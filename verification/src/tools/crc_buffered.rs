//! The checksumming byte sink: a growable byte buffer decorated with the
//! checksum engine, so that every byte written through it is also folded
//! into the running check.

use vstd::prelude::*;

use crate::elements::encode::push_u32_le;
use crate::elements::encode::spec_le32;
use crate::tools::crc::CRC32;
use crate::tools::crc::CRC_INITIAL;
use crate::tools::crc::lemma_crc_fold_push;
use crate::tools::crc::spec_crc32;
use crate::tools::crc::spec_crc_fold;
use crate::tools::crc::spec_swap32;

verus! {

/// A byte destination that checksums what it accepts.  `write` appends
/// bytes to the buffer and folds each one into the engine; `write_crc`
/// appends the finished 4-byte check value without folding it back in.
pub struct BufWriterWithCRC {
    buf: Vec<u8>,
    crc: CRC32,
    written: Ghost<Seq<u8>>,
}

impl BufWriterWithCRC {
    /// The engine's accumulator is exactly the fold of every byte written
    /// since the last checksum was taken.
    pub closed spec fn wf(&self) -> bool {
        &&& self.crc.wf()
        &&& self.crc.spec_value() == spec_crc_fold(CRC_INITIAL, self.written@)
    }

    /// All bytes the sink's buffer holds.
    pub closed spec fn spec_buf(&self) -> Seq<u8> {
        self.buf@
    }

    /// The bytes written since the last checksum was taken: the stream the
    /// next check value covers.
    pub closed spec fn spec_written(&self) -> Seq<u8> {
        self.written@
    }

    /// Wraps an existing buffer.  Bytes already in it are kept but are not
    /// part of the checksummed stream.
    pub fn new(inner: Vec<u8>) -> (w: BufWriterWithCRC)
        ensures
            w.wf(),
            w.spec_buf() == inner@,
            w.spec_written() == Seq::<u8>::empty(),
    {
        BufWriterWithCRC { buf: inner, crc: CRC32::new_jam(), written: Ghost(Seq::empty()) }
    }

    /// Appends `data` to the buffer and folds every byte of it into the
    /// running check.
    pub fn write(&mut self, data: &[u8])
        requires
            old(self).wf(),
        ensures
            final(self).wf(),
            final(self).spec_buf() == old(self).spec_buf() + data@,
            final(self).spec_written() == old(self).spec_written() + data@,
    {
        let mut i: usize = 0;
        while i < data.len()
            invariant
                i <= data@.len(),
                self.wf(),
                self.buf@ == old(self).buf@ + data@.take(i as int),
                self.written@ == old(self).written@ + data@.take(i as int),
            decreases data@.len() - i,
        {
            let b: u8 = data[i];
            self.buf.push(b);
            self.crc.add(b);
            proof {
                lemma_crc_fold_push(CRC_INITIAL, self.written@, b);
                assert(data@.take(i + 1) =~= data@.take(i as int).push(b));
                assert(old(self).buf@ + data@.take(i + 1) =~= (old(self).buf@ + data@.take(
                    i as int,
                )).push(b));
                assert(old(self).written@ + data@.take(i + 1) =~= (old(self).written@ + data@.take(
                    i as int,
                )).push(b));
            }
            self.written = Ghost(self.written@.push(b));
            i = i + 1;
        }
        proof {
            assert(data@.take(data@.len() as int) =~= data@);
        }
    }

    /// Finalizes the engine, appends the check value of the written stream
    /// as 4 little-endian bytes — without folding them back into the check
    /// — and resets the engine for a further stream.
    pub fn write_crc(&mut self)
        requires
            old(self).wf(),
        ensures
            final(self).wf(),
            final(self).spec_buf() == old(self).spec_buf() + spec_le32(
                spec_crc32(old(self).spec_written()),
            ),
            final(self).spec_written() == Seq::<u8>::empty(),
    {
        let v: u32 = self.crc.get_and_reset();
        push_u32_le(&mut self.buf, v);
        self.written = Ghost(Seq::empty());
    }

    /// Resets the engine: the checksummed stream starts afresh, while the
    /// buffer keeps its bytes.
    pub fn reset_crc(&mut self)
        requires
            old(self).wf(),
        ensures
            final(self).wf(),
            final(self).spec_buf() == old(self).spec_buf(),
            final(self).spec_written() == Seq::<u8>::empty(),
    {
        self.crc.reset();
        self.written = Ghost(Seq::empty());
    }

    /// Hands the buffer back.
    pub fn into_inner(self) -> (buf: Vec<u8>)
        ensures
            buf@ == self.spec_buf(),
    {
        self.buf
    }
}

} // verus!
