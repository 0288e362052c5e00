//! Reflected 32-bit cyclic redundancy check engine.
//!
//! The engine is configured with the degree-32 polynomial `0x04C11DB7`,
//! initial accumulator `0xFFFFFFFF`, bit-reflection of both input bytes and
//! the final accumulator, and no final exclusive-or.  Over the nine ASCII
//! bytes `"123456789"` this configuration yields `0x340BC6D9`.
//!
//! Processing is table driven: a 256-entry table, built once at
//! construction, holds the result of eight polynomial-division shift steps
//! for every possible top byte, so that a stream is folded in one table
//! lookup per byte.

use vstd::prelude::*;

verus! {

/// The generator polynomial of the check.
pub const CRC_POLY: u32 = 0x04C1_1DB7;

/// The initial value of the accumulator.
pub const CRC_INITIAL: u32 = 0xFFFF_FFFF;

/// The low `n` bits of `v`, written in reverse order into the top of an
/// 8-bit value: bit `i` of `v` becomes bit `7 - i` of the result.
pub open spec fn swap8_rec(v: u8, n: nat) -> u8
    decreases n,
{
    if n == 0 {
        0u8
    } else {
        swap8_rec(v, (n - 1) as nat) | (((v >> ((n - 1) as u8)) & 1u8) << ((8 - n) as u8))
    }
}

/// `v` with its eight bits in reverse order.
pub open spec fn spec_swap8(v: u8) -> u8 {
    swap8_rec(v, 8)
}

/// The low `n` bits of `v`, written in reverse order into the top of a
/// 32-bit value: bit `i` of `v` becomes bit `31 - i` of the result.
pub open spec fn swap32_rec(v: u32, n: nat) -> u32
    decreases n,
{
    if n == 0 {
        0u32
    } else {
        swap32_rec(v, (n - 1) as nat) | (((v >> ((n - 1) as u32)) & 1u32) << ((32 - n) as u32))
    }
}

/// `v` with its thirty-two bits in reverse order.
pub open spec fn spec_swap32(v: u32) -> u32 {
    swap32_rec(v, 32)
}

/// One shift step of the polynomial division: shift left, and fold the
/// polynomial in when a one bit falls off the top.
pub open spec fn crc_table_step(cur: u32) -> u32 {
    if cur & 0x8000_0000u32 != 0 {
        (cur << 1u32) ^ CRC_POLY
    } else {
        cur << 1u32
    }
}

/// `n` shift steps of the polynomial division applied to `cur`.
pub open spec fn crc_table_steps(cur: u32, n: nat) -> u32
    decreases n,
{
    if n == 0 {
        cur
    } else {
        crc_table_step(crc_table_steps(cur, (n - 1) as nat))
    }
}

/// Entry `i` of the transformation table: byte value `i` fed through eight
/// shift steps of the polynomial division.
pub open spec fn spec_table_entry(i: u32) -> u32 {
    crc_table_steps(i << 24u32, 8)
}

/// The accumulator after folding one further input byte into `acc`: the
/// byte is bit-reflected, combined with the top accumulator byte to select
/// a table entry, and the accumulator is shifted one byte left and mixed
/// with that entry.
pub open spec fn spec_crc_add(acc: u32, b: u8) -> u32 {
    (acc << 8u32) ^ spec_table_entry(
        ((acc ^ ((spec_swap8(b) as u32) << 24u32)) >> 24u32) as u8 as u32,
    )
}

/// The accumulator after folding every byte of `s` into `acc`, in order.
pub open spec fn spec_crc_fold(acc: u32, s: Seq<u8>) -> u32
    decreases s.len(),
{
    if s.len() == 0 {
        acc
    } else {
        spec_crc_fold(spec_crc_add(acc, s[0]), s.drop_first())
    }
}

/// The finished check value of a byte sequence: the accumulator is started
/// at the initial value, folded over every byte, and bit-reflected.
pub open spec fn spec_crc32(s: Seq<u8>) -> u32 {
    spec_swap32(spec_crc_fold(CRC_INITIAL, s))
}

/// Folding one more byte after a whole sequence is one further `add` step.
pub proof fn lemma_crc_fold_push(acc: u32, s: Seq<u8>, b: u8)
    ensures
        spec_crc_fold(acc, s.push(b)) == spec_crc_add(spec_crc_fold(acc, s), b),
    decreases s.len(),
{
    if s.len() == 0 {
        assert(s.push(b)[0] == b);
        assert(s.push(b).drop_first() =~= Seq::<u8>::empty());
        assert(spec_crc_fold(acc, s.push(b)) == spec_crc_fold(
            spec_crc_add(acc, b),
            Seq::<u8>::empty(),
        ));
    } else {
        assert(s.push(b)[0] == s[0]);
        assert(s.push(b).drop_first() =~= s.drop_first().push(b));
        lemma_crc_fold_push(spec_crc_add(acc, s[0]), s.drop_first(), b);
    }
}

fn swap8(in_v: u8) -> (out: u8)
    ensures
        out == spec_swap8(in_v),
{
    let mut out_v: u8 = 0;
    for pos in 0..8u8
        invariant
            out_v == swap8_rec(in_v, pos as nat),
    {
        let bit: u8 = (in_v & (1u8 << pos)) >> pos;
        proof {
            assert((in_v & (1u8 << pos)) >> pos == (in_v >> pos) & 1u8) by (bit_vector)
                requires
                    pos < 8u8,
            ;
        }
        out_v = out_v | (bit << (7 - pos));
    }
    out_v
}

fn swap32(in_v: u32) -> (out: u32)
    ensures
        out == spec_swap32(in_v),
{
    let mut out_v: u32 = 0;
    for pos in 0..32u32
        invariant
            out_v == swap32_rec(in_v, pos as nat),
    {
        let bit: u32 = (in_v & (1u32 << pos)) >> pos;
        proof {
            assert((in_v & (1u32 << pos)) >> pos == (in_v >> pos) & 1u32) by (bit_vector)
                requires
                    pos < 32u32,
            ;
        }
        out_v = out_v | (bit << (31 - pos));
    }
    out_v
}

/// The checksum engine: configuration, current accumulator, and the
/// precomputed transformation table.
pub struct CRC32 {
    poly: u32,
    ref_in: bool,
    ref_out: bool,
    initial: u32,
    xor_out: u32,
    value: u32,
    table: [u32; 256],
}

impl CRC32 {
    /// The engine is configured as the reflected check with polynomial
    /// `0x04C11DB7`, initial value `0xFFFFFFFF` and no final exclusive-or,
    /// and its table holds the transformation of every byte value.
    pub closed spec fn wf(&self) -> bool {
        &&& self.poly == CRC_POLY
        &&& self.ref_in
        &&& self.ref_out
        &&& self.initial == CRC_INITIAL
        &&& self.xor_out == 0u32
        &&& forall|i: int| 0 <= i < 256 ==> self.table[i] == spec_table_entry(i as u32)
    }

    /// The current accumulator value.
    pub closed spec fn spec_value(&self) -> u32 {
        self.value
    }

    /// Creates an engine in the configuration described by [`CRC32::wf`],
    /// with the accumulator at its initial value.
    pub fn new_jam() -> (crc: CRC32)
        ensures
            crc.wf(),
            crc.spec_value() == CRC_INITIAL,
    {
        let crc = CRC32 {
            poly: CRC_POLY,
            ref_in: true,
            ref_out: true,
            initial: CRC_INITIAL,
            xor_out: 0,
            value: 0,
            table: [0u32; 256],
        };

        crc._new()
    }

    /// Fills the table and resets the accumulator.
    fn _new(self) -> (crc: CRC32)
        requires
            self.poly == CRC_POLY,
            self.ref_in,
            self.ref_out,
            self.initial == CRC_INITIAL,
            self.xor_out == 0u32,
        ensures
            crc.wf(),
            crc.spec_value() == CRC_INITIAL,
    {
        let mut crc = self;
        crc._init_table();
        crc.reset();
        crc
    }

    #[inline]
    fn _init_table(&mut self)
        requires
            old(self).poly == CRC_POLY,
        ensures
            forall|i: int| 0 <= i < 256 ==> final(self).table[i] == spec_table_entry(i as u32),
            final(self).poly == old(self).poly,
            final(self).ref_in == old(self).ref_in,
            final(self).ref_out == old(self).ref_out,
            final(self).initial == old(self).initial,
            final(self).xor_out == old(self).xor_out,
            final(self).value == old(self).value,
    {
        for i in 0..256u32
            invariant
                self.poly == CRC_POLY,
                self.ref_in == old(self).ref_in,
                self.ref_out == old(self).ref_out,
                self.initial == old(self).initial,
                self.xor_out == old(self).xor_out,
                self.value == old(self).value,
                forall|j: int| 0 <= j < i ==> self.table[j] == spec_table_entry(j as u32),
        {
            let mut cur: u32 = i << 24;

            for step in 0..8u32
                invariant
                    self.poly == CRC_POLY,
                    cur == crc_table_steps((i << 24u32), step as nat),
            {
                if (cur & 0x80000000) != 0 {
                    cur = cur << 1;
                    cur = cur ^ self.poly;
                } else {
                    cur = cur << 1;
                }
            }

            self.table[i as usize] = cur;
        }
    }

    /// Sets the accumulator back to the initial value.
    pub fn reset(&mut self)
        ensures
            old(self).wf() ==> final(self).wf(),
            old(self).wf() ==> final(self).spec_value() == CRC_INITIAL,
    {
        self.value = self.initial;
    }

    /// Folds one input byte into the accumulator.
    #[inline]
    pub fn add(&mut self, b: u8)
        requires
            old(self).wf(),
        ensures
            final(self).wf(),
            final(self).spec_value() == spec_crc_add(old(self).spec_value(), b),
    {
        let b: u8 = match self.ref_in {
            true => swap8(b),
            false => b,
        };

        let pos: u8 = ((self.value ^ ((b as u32) << 24)) >> 24) as u8;

        self.value = (self.value << 8) ^ (self.table[pos as usize]);
    }

    /// The finished value for the current accumulator: bit-reflected, with
    /// no final exclusive-or.
    #[inline]
    fn _finalize(&mut self) -> (out: u32)
        requires
            old(self).wf(),
        ensures
            *final(self) == *old(self),
            out == spec_swap32(old(self).spec_value()),
    {
        let value: u32 = match self.ref_out {
            true => swap32(self.value),
            false => self.value,
        };
        proof {
            assert(value ^ 0u32 == value) by (bit_vector);
        }
        value ^ self.xor_out
    }

    /// Consumes the engine and returns the finished check value.
    pub fn finalize(self) -> (out: u32)
        requires
            self.wf(),
        ensures
            out == spec_swap32(self.spec_value()),
    {
        let mut crc = self;
        crc._finalize()
    }

    /// Returns the finished check value and resets the accumulator, so the
    /// engine can checksum a further stream.
    pub fn get_and_reset(&mut self) -> (out: u32)
        requires
            old(self).wf(),
        ensures
            final(self).wf(),
            out == spec_swap32(old(self).spec_value()),
            final(self).spec_value() == CRC_INITIAL,
    {
        let v: u32 = self._finalize();
        self.reset();
        v
    }
}

} // verus!
