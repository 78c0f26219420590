//! The layout of the special-register block.
//!
//! The registry and the wire treat a register block as so many bytes. These
//! types say what the 312 bytes of a special-register block hold, field by
//! field, for whoever wants to fill one or read one: every field little
//! endian, in the order and with the padding of the C structures.

use vstd::prelude::*;
use crate::dispatch::sregs_block;
use crate::wire::{
    le_bytes, lemma_le_bytes_injective, lemma_le_bytes_len, lemma_radix_pow_values, push_le,
    read_le, SREGS_SIZE,
};

verus! {

/// Bytes of a segment register in the block.
pub const SEGMENT_SIZE: usize = 24;

/// Bytes of a descriptor-table register in the block.
pub const DTABLE_SIZE: usize = 16;

/// A segment register.
#[allow(non_camel_case_types)]
#[derive(Clone, Copy, Debug, PartialEq, Eq)]
pub struct kvm_segment {
    pub base: u64,
    pub limit: u32,
    pub selector: u16,
    pub type_: u8,
    pub present: u8,
    pub dpl: u8,
    pub db: u8,
    pub s: u8,
    pub l: u8,
    pub g: u8,
    pub avl: u8,
    pub unusable: u8,
    pub padding: u8,
}

/// A descriptor-table register.
#[allow(non_camel_case_types)]
#[derive(Clone, Copy, Debug, PartialEq, Eq)]
pub struct kvm_dtable {
    pub base: u64,
    pub limit: u16,
    pub padding: [u16; 3],
}

/// The special registers of a CPU.
#[allow(non_camel_case_types)]
#[derive(Clone, Copy, Debug, PartialEq, Eq)]
pub struct kvm_sregs {
    pub cs: kvm_segment,
    pub ds: kvm_segment,
    pub es: kvm_segment,
    pub fs: kvm_segment,
    pub gs: kvm_segment,
    pub ss: kvm_segment,
    pub tr: kvm_segment,
    pub ldt: kvm_segment,
    pub gdt: kvm_dtable,
    pub idt: kvm_dtable,
    pub cr0: u64,
    pub cr2: u64,
    pub cr3: u64,
    pub cr4: u64,
    pub cr8: u64,
    pub efer: u64,
    pub apic_base: u64,
    pub interrupt_bitmap: [u64; 4],
}

impl kvm_segment {
    /// The 24 bytes of the register.
    pub open spec fn wire(self) -> Seq<u8> {
        le_bytes(self.base as nat, 8) + le_bytes(self.limit as nat, 4) + le_bytes(
            self.selector as nat,
            2,
        ) + seq![
            self.type_,
            self.present,
            self.dpl,
            self.db,
            self.s,
            self.l,
            self.g,
            self.avl,
            self.unusable,
            self.padding,
        ]
    }

    /// The register takes 24 bytes.
    pub proof fn lemma_wire_len(self)
        ensures
            self.wire().len() == SEGMENT_SIZE,
    {
        lemma_le_bytes_len(self.base as nat, 8);
        lemma_le_bytes_len(self.limit as nat, 4);
        lemma_le_bytes_len(self.selector as nat, 2);
    }

    /// Appends the register's bytes.
    pub(crate) fn write(&self, out: &mut Vec<u8>)
        ensures
            final(out)@ == old(out)@ + self.wire(),
    {
        push_le(out, self.base, 8);
        push_le(out, self.limit as u64, 4);
        push_le(out, self.selector as u64, 2);
        out.push(self.type_);
        out.push(self.present);
        out.push(self.dpl);
        out.push(self.db);
        out.push(self.s);
        out.push(self.l);
        out.push(self.g);
        out.push(self.avl);
        out.push(self.unusable);
        out.push(self.padding);
        assert(out@ =~= old(out)@ + self.wire());
    }

    /// The register whose bytes are the 24 from `at`.
    pub(crate) fn read(bytes: &[u8], at: usize) -> (r: kvm_segment)
        requires
            at + SEGMENT_SIZE <= bytes@.len(),
        ensures
            r.wire() == bytes@.subrange(at as int, at + SEGMENT_SIZE),
    {
        proof {
            assert(bytes@.len() == bytes.len());
        }
        let r = kvm_segment {
            base: read_le(bytes, at, 8),
            limit: read_le(bytes, at + 8, 4) as u32,
            selector: read_le(bytes, at + 12, 2) as u16,
            type_: bytes[at + 14],
            present: bytes[at + 15],
            dpl: bytes[at + 16],
            db: bytes[at + 17],
            s: bytes[at + 18],
            l: bytes[at + 19],
            g: bytes[at + 20],
            avl: bytes[at + 21],
            unusable: bytes[at + 22],
            padding: bytes[at + 23],
        };
        proof {
            lemma_radix_pow_values();
            r.lemma_wire_len();
            assert(r.wire() =~= bytes@.subrange(at as int, at + SEGMENT_SIZE));
        }
        r
    }
}

impl kvm_dtable {
    /// The 16 bytes of the register.
    pub open spec fn wire(self) -> Seq<u8> {
        le_bytes(self.base as nat, 8) + le_bytes(self.limit as nat, 2) + le_bytes(
            self.padding[0] as nat,
            2,
        ) + le_bytes(self.padding[1] as nat, 2) + le_bytes(self.padding[2] as nat, 2)
    }

    /// The register takes 16 bytes.
    pub proof fn lemma_wire_len(self)
        ensures
            self.wire().len() == DTABLE_SIZE,
    {
        lemma_le_bytes_len(self.base as nat, 8);
        lemma_le_bytes_len(self.limit as nat, 2);
        lemma_le_bytes_len(self.padding[0] as nat, 2);
        lemma_le_bytes_len(self.padding[1] as nat, 2);
        lemma_le_bytes_len(self.padding[2] as nat, 2);
    }

    /// Appends the register's bytes.
    pub(crate) fn write(&self, out: &mut Vec<u8>)
        ensures
            final(out)@ == old(out)@ + self.wire(),
    {
        push_le(out, self.base, 8);
        push_le(out, self.limit as u64, 2);
        push_le(out, self.padding[0] as u64, 2);
        push_le(out, self.padding[1] as u64, 2);
        push_le(out, self.padding[2] as u64, 2);
        assert(out@ =~= old(out)@ + self.wire());
    }

    /// The register whose bytes are the 16 from `at`.
    pub(crate) fn read(bytes: &[u8], at: usize) -> (r: kvm_dtable)
        requires
            at + DTABLE_SIZE <= bytes@.len(),
        ensures
            r.wire() == bytes@.subrange(at as int, at + DTABLE_SIZE),
    {
        proof {
            assert(bytes@.len() == bytes.len());
            lemma_radix_pow_values();
        }
        let r = kvm_dtable {
            base: read_le(bytes, at, 8),
            limit: read_le(bytes, at + 8, 2) as u16,
            padding: [
                read_le(bytes, at + 10, 2) as u16,
                read_le(bytes, at + 12, 2) as u16,
                read_le(bytes, at + 14, 2) as u16,
            ],
        };
        proof {
            r.lemma_wire_len();
            assert(r.wire() =~= bytes@.subrange(at as int, at + DTABLE_SIZE));
        }
        r
    }
}

impl kvm_sregs {
    /// The eight segment registers, 192 bytes.
    pub open spec fn segments_wire(self) -> Seq<u8> {
        self.cs.wire() + self.ds.wire() + self.es.wire() + self.fs.wire() + self.gs.wire()
            + self.ss.wire() + self.tr.wire() + self.ldt.wire()
    }

    /// The two descriptor-table registers, 32 bytes.
    pub open spec fn tables_wire(self) -> Seq<u8> {
        self.gdt.wire() + self.idt.wire()
    }

    /// The seven control registers, 56 bytes.
    pub open spec fn controls_wire(self) -> Seq<u8> {
        le_bytes(self.cr0 as nat, 8) + le_bytes(self.cr2 as nat, 8) + le_bytes(self.cr3 as nat, 8)
            + le_bytes(self.cr4 as nat, 8) + le_bytes(self.cr8 as nat, 8) + le_bytes(
            self.efer as nat,
            8,
        ) + le_bytes(self.apic_base as nat, 8)
    }

    /// The interrupt bitmap, 32 bytes.
    pub open spec fn bitmap_wire(self) -> Seq<u8> {
        le_bytes(self.interrupt_bitmap[0] as nat, 8) + le_bytes(self.interrupt_bitmap[1] as nat, 8)
            + le_bytes(self.interrupt_bitmap[2] as nat, 8) + le_bytes(
            self.interrupt_bitmap[3] as nat,
            8,
        )
    }

    /// The 312 bytes of the block: the segment registers, the table
    /// registers, the control registers and the interrupt bitmap.
    pub open spec fn wire(self) -> Seq<u8> {
        self.segments_wire() + self.tables_wire() + self.controls_wire() + self.bitmap_wire()
    }

    /// The block is as wide as the protocol says.
    pub proof fn lemma_wire_len(self)
        ensures
            self.segments_wire().len() == 192,
            self.tables_wire().len() == 32,
            self.controls_wire().len() == 56,
            self.bitmap_wire().len() == 32,
            self.wire().len() == SREGS_SIZE,
    {
        self.cs.lemma_wire_len();
        self.ds.lemma_wire_len();
        self.es.lemma_wire_len();
        self.fs.lemma_wire_len();
        self.gs.lemma_wire_len();
        self.ss.lemma_wire_len();
        self.tr.lemma_wire_len();
        self.ldt.lemma_wire_len();
        self.gdt.lemma_wire_len();
        self.idt.lemma_wire_len();
        lemma_le_bytes_len(self.cr0 as nat, 8);
        lemma_le_bytes_len(self.cr2 as nat, 8);
        lemma_le_bytes_len(self.cr3 as nat, 8);
        lemma_le_bytes_len(self.cr4 as nat, 8);
        lemma_le_bytes_len(self.cr8 as nat, 8);
        lemma_le_bytes_len(self.efer as nat, 8);
        lemma_le_bytes_len(self.apic_base as nat, 8);
        lemma_le_bytes_len(self.interrupt_bitmap[0] as nat, 8);
        lemma_le_bytes_len(self.interrupt_bitmap[1] as nat, 8);
        lemma_le_bytes_len(self.interrupt_bitmap[2] as nat, 8);
        lemma_le_bytes_len(self.interrupt_bitmap[3] as nat, 8);
    }

    /// The block as it goes over the wire.
    pub fn encode(&self) -> (block: [u8; SREGS_SIZE])
        ensures
            block@ == self.wire(),
    {
        let mut out: Vec<u8> = Vec::new();
        self.cs.write(&mut out);
        self.ds.write(&mut out);
        self.es.write(&mut out);
        self.fs.write(&mut out);
        self.gs.write(&mut out);
        self.ss.write(&mut out);
        self.tr.write(&mut out);
        self.ldt.write(&mut out);
        assert(out@ =~= self.segments_wire());
        self.gdt.write(&mut out);
        self.idt.write(&mut out);
        assert(out@ =~= self.segments_wire() + self.tables_wire());
        push_le(&mut out, self.cr0, 8);
        push_le(&mut out, self.cr2, 8);
        push_le(&mut out, self.cr3, 8);
        push_le(&mut out, self.cr4, 8);
        push_le(&mut out, self.cr8, 8);
        push_le(&mut out, self.efer, 8);
        push_le(&mut out, self.apic_base, 8);
        assert(out@ =~= self.segments_wire() + self.tables_wire() + self.controls_wire());
        push_le(&mut out, self.interrupt_bitmap[0], 8);
        push_le(&mut out, self.interrupt_bitmap[1], 8);
        push_le(&mut out, self.interrupt_bitmap[2], 8);
        push_le(&mut out, self.interrupt_bitmap[3], 8);
        assert(out@ =~= self.wire());
        proof {
            self.lemma_wire_len();
        }
        sregs_block(out.as_slice())
    }

    /// The registers that a block holds: those whose bytes are the block's.
    pub fn decode(block: &[u8; SREGS_SIZE]) -> (r: kvm_sregs)
        ensures
            r.wire() == block@,
    {
        let bytes = block.as_slice();
        let r = kvm_sregs {
            cs: kvm_segment::read(bytes, 0),
            ds: kvm_segment::read(bytes, 24),
            es: kvm_segment::read(bytes, 48),
            fs: kvm_segment::read(bytes, 72),
            gs: kvm_segment::read(bytes, 96),
            ss: kvm_segment::read(bytes, 120),
            tr: kvm_segment::read(bytes, 144),
            ldt: kvm_segment::read(bytes, 168),
            gdt: kvm_dtable::read(bytes, 192),
            idt: kvm_dtable::read(bytes, 208),
            cr0: read_le(bytes, 224, 8),
            cr2: read_le(bytes, 232, 8),
            cr3: read_le(bytes, 240, 8),
            cr4: read_le(bytes, 248, 8),
            cr8: read_le(bytes, 256, 8),
            efer: read_le(bytes, 264, 8),
            apic_base: read_le(bytes, 272, 8),
            interrupt_bitmap: [
                read_le(bytes, 280, 8),
                read_le(bytes, 288, 8),
                read_le(bytes, 296, 8),
                read_le(bytes, 304, 8),
            ],
        };
        proof {
            r.lemma_wire_len();
            assert(r.segments_wire() =~= block@.subrange(0, 192)) by {
                r.cs.lemma_wire_len();
                r.ds.lemma_wire_len();
                r.es.lemma_wire_len();
                r.fs.lemma_wire_len();
                r.gs.lemma_wire_len();
                r.ss.lemma_wire_len();
                r.tr.lemma_wire_len();
                r.ldt.lemma_wire_len();
            }
            assert(r.tables_wire() =~= block@.subrange(192, 224)) by {
                r.gdt.lemma_wire_len();
                r.idt.lemma_wire_len();
            }
            assert(r.controls_wire() =~= block@.subrange(224, 280));
            assert(r.bitmap_wire() =~= block@.subrange(280, 312));
            assert(r.wire() =~= block@);
        }
        r
    }
}

impl kvm_segment {
    /// Two registers with the same bytes are the same register.
    pub proof fn lemma_wire_injective(self, other: kvm_segment)
        requires
            self.wire() == other.wire(),
        ensures
            self == other,
    {
        let w = self.wire();
        lemma_radix_pow_values();
        lemma_le_bytes_len(self.base as nat, 8);
        lemma_le_bytes_len(self.limit as nat, 4);
        lemma_le_bytes_len(self.selector as nat, 2);
        lemma_le_bytes_len(other.base as nat, 8);
        lemma_le_bytes_len(other.limit as nat, 4);
        lemma_le_bytes_len(other.selector as nat, 2);
        assert(w.subrange(0, 8) =~= le_bytes(self.base as nat, 8));
        assert(w.subrange(0, 8) =~= le_bytes(other.base as nat, 8));
        assert(w.subrange(8, 12) =~= le_bytes(self.limit as nat, 4));
        assert(w.subrange(8, 12) =~= le_bytes(other.limit as nat, 4));
        assert(w.subrange(12, 14) =~= le_bytes(self.selector as nat, 2));
        assert(w.subrange(12, 14) =~= le_bytes(other.selector as nat, 2));
        lemma_le_bytes_injective(self.base as nat, other.base as nat, 8);
        lemma_le_bytes_injective(self.limit as nat, other.limit as nat, 4);
        lemma_le_bytes_injective(self.selector as nat, other.selector as nat, 2);
        assert(self.type_ == w[14] && other.type_ == w[14]);
        assert(self.present == w[15] && other.present == w[15]);
        assert(self.dpl == w[16] && other.dpl == w[16]);
        assert(self.db == w[17] && other.db == w[17]);
        assert(self.s == w[18] && other.s == w[18]);
        assert(self.l == w[19] && other.l == w[19]);
        assert(self.g == w[20] && other.g == w[20]);
        assert(self.avl == w[21] && other.avl == w[21]);
        assert(self.unusable == w[22] && other.unusable == w[22]);
        assert(self.padding == w[23] && other.padding == w[23]);
    }
}

impl kvm_dtable {
    /// Two registers with the same bytes are the same register.
    pub proof fn lemma_wire_injective(self, other: kvm_dtable)
        requires
            self.wire() == other.wire(),
        ensures
            self == other,
    {
        let w = self.wire();
        lemma_radix_pow_values();
        self.lemma_wire_len();
        other.lemma_wire_len();
        lemma_le_bytes_len(self.base as nat, 8);
        lemma_le_bytes_len(self.limit as nat, 2);
        lemma_le_bytes_len(self.padding[0] as nat, 2);
        lemma_le_bytes_len(self.padding[1] as nat, 2);
        lemma_le_bytes_len(self.padding[2] as nat, 2);
        lemma_le_bytes_len(other.base as nat, 8);
        lemma_le_bytes_len(other.limit as nat, 2);
        lemma_le_bytes_len(other.padding[0] as nat, 2);
        lemma_le_bytes_len(other.padding[1] as nat, 2);
        lemma_le_bytes_len(other.padding[2] as nat, 2);
        assert(w.subrange(0, 8) =~= le_bytes(self.base as nat, 8));
        assert(w.subrange(0, 8) =~= le_bytes(other.base as nat, 8));
        assert(w.subrange(8, 10) =~= le_bytes(self.limit as nat, 2));
        assert(w.subrange(8, 10) =~= le_bytes(other.limit as nat, 2));
        assert(w.subrange(10, 12) =~= le_bytes(self.padding[0] as nat, 2));
        assert(w.subrange(10, 12) =~= le_bytes(other.padding[0] as nat, 2));
        assert(w.subrange(12, 14) =~= le_bytes(self.padding[1] as nat, 2));
        assert(w.subrange(12, 14) =~= le_bytes(other.padding[1] as nat, 2));
        assert(w.subrange(14, 16) =~= le_bytes(self.padding[2] as nat, 2));
        assert(w.subrange(14, 16) =~= le_bytes(other.padding[2] as nat, 2));
        lemma_le_bytes_injective(self.base as nat, other.base as nat, 8);
        lemma_le_bytes_injective(self.limit as nat, other.limit as nat, 2);
        lemma_le_bytes_injective(self.padding[0] as nat, other.padding[0] as nat, 2);
        lemma_le_bytes_injective(self.padding[1] as nat, other.padding[1] as nat, 2);
        lemma_le_bytes_injective(self.padding[2] as nat, other.padding[2] as nat, 2);
        assert(self.padding =~= other.padding);
    }
}

impl kvm_sregs {
    /// Two sets of registers with the same block are the same registers: a
    /// block stands for exactly one set.
    pub proof fn lemma_wire_injective(self, other: kvm_sregs)
        requires
            self.wire() == other.wire(),
        ensures
            self == other,
    {
        let w = self.wire();
        lemma_radix_pow_values();
        self.lemma_wire_len();
        other.lemma_wire_len();
        self.lemma_parts(w);
        other.lemma_parts(w);
        self.cs.lemma_wire_injective(other.cs);
        self.ds.lemma_wire_injective(other.ds);
        self.es.lemma_wire_injective(other.es);
        self.fs.lemma_wire_injective(other.fs);
        self.gs.lemma_wire_injective(other.gs);
        self.ss.lemma_wire_injective(other.ss);
        self.tr.lemma_wire_injective(other.tr);
        self.ldt.lemma_wire_injective(other.ldt);
        self.gdt.lemma_wire_injective(other.gdt);
        self.idt.lemma_wire_injective(other.idt);
        lemma_le_bytes_injective(self.cr0 as nat, other.cr0 as nat, 8);
        lemma_le_bytes_injective(self.cr2 as nat, other.cr2 as nat, 8);
        lemma_le_bytes_injective(self.cr3 as nat, other.cr3 as nat, 8);
        lemma_le_bytes_injective(self.cr4 as nat, other.cr4 as nat, 8);
        lemma_le_bytes_injective(self.cr8 as nat, other.cr8 as nat, 8);
        lemma_le_bytes_injective(self.efer as nat, other.efer as nat, 8);
        lemma_le_bytes_injective(self.apic_base as nat, other.apic_base as nat, 8);
        lemma_le_bytes_injective(
            self.interrupt_bitmap[0] as nat,
            other.interrupt_bitmap[0] as nat,
            8,
        );
        lemma_le_bytes_injective(
            self.interrupt_bitmap[1] as nat,
            other.interrupt_bitmap[1] as nat,
            8,
        );
        lemma_le_bytes_injective(
            self.interrupt_bitmap[2] as nat,
            other.interrupt_bitmap[2] as nat,
            8,
        );
        lemma_le_bytes_injective(
            self.interrupt_bitmap[3] as nat,
            other.interrupt_bitmap[3] as nat,
            8,
        );
        assert(self.interrupt_bitmap =~= other.interrupt_bitmap);
    }

    /// Where each register lies in the block.
    proof fn lemma_parts(self, w: Seq<u8>)
        requires
            w == self.wire(),
        ensures
            w.subrange(0, 24) == self.cs.wire(),
            w.subrange(24, 48) == self.ds.wire(),
            w.subrange(48, 72) == self.es.wire(),
            w.subrange(72, 96) == self.fs.wire(),
            w.subrange(96, 120) == self.gs.wire(),
            w.subrange(120, 144) == self.ss.wire(),
            w.subrange(144, 168) == self.tr.wire(),
            w.subrange(168, 192) == self.ldt.wire(),
            w.subrange(192, 208) == self.gdt.wire(),
            w.subrange(208, 224) == self.idt.wire(),
            w.subrange(224, 232) == le_bytes(self.cr0 as nat, 8),
            w.subrange(232, 240) == le_bytes(self.cr2 as nat, 8),
            w.subrange(240, 248) == le_bytes(self.cr3 as nat, 8),
            w.subrange(248, 256) == le_bytes(self.cr4 as nat, 8),
            w.subrange(256, 264) == le_bytes(self.cr8 as nat, 8),
            w.subrange(264, 272) == le_bytes(self.efer as nat, 8),
            w.subrange(272, 280) == le_bytes(self.apic_base as nat, 8),
            w.subrange(280, 288) == le_bytes(self.interrupt_bitmap[0] as nat, 8),
            w.subrange(288, 296) == le_bytes(self.interrupt_bitmap[1] as nat, 8),
            w.subrange(296, 304) == le_bytes(self.interrupt_bitmap[2] as nat, 8),
            w.subrange(304, 312) == le_bytes(self.interrupt_bitmap[3] as nat, 8),
    {
        self.lemma_wire_len();
        self.cs.lemma_wire_len();
        self.ds.lemma_wire_len();
        self.es.lemma_wire_len();
        self.fs.lemma_wire_len();
        self.gs.lemma_wire_len();
        self.ss.lemma_wire_len();
        self.tr.lemma_wire_len();
        self.ldt.lemma_wire_len();
        self.gdt.lemma_wire_len();
        self.idt.lemma_wire_len();
        lemma_le_bytes_len(self.cr0 as nat, 8);
        lemma_le_bytes_len(self.cr2 as nat, 8);
        lemma_le_bytes_len(self.cr3 as nat, 8);
        lemma_le_bytes_len(self.cr4 as nat, 8);
        lemma_le_bytes_len(self.cr8 as nat, 8);
        lemma_le_bytes_len(self.efer as nat, 8);
        lemma_le_bytes_len(self.apic_base as nat, 8);
        lemma_le_bytes_len(self.interrupt_bitmap[0] as nat, 8);
        lemma_le_bytes_len(self.interrupt_bitmap[1] as nat, 8);
        lemma_le_bytes_len(self.interrupt_bitmap[2] as nat, 8);
        lemma_le_bytes_len(self.interrupt_bitmap[3] as nat, 8);
        assert(w.subrange(0, 24) =~= self.cs.wire());
        assert(w.subrange(24, 48) =~= self.ds.wire());
        assert(w.subrange(48, 72) =~= self.es.wire());
        assert(w.subrange(72, 96) =~= self.fs.wire());
        assert(w.subrange(96, 120) =~= self.gs.wire());
        assert(w.subrange(120, 144) =~= self.ss.wire());
        assert(w.subrange(144, 168) =~= self.tr.wire());
        assert(w.subrange(168, 192) =~= self.ldt.wire());
        assert(w.subrange(192, 208) =~= self.gdt.wire());
        assert(w.subrange(208, 224) =~= self.idt.wire());
        assert(w.subrange(224, 232) =~= le_bytes(self.cr0 as nat, 8));
        assert(w.subrange(232, 240) =~= le_bytes(self.cr2 as nat, 8));
        assert(w.subrange(240, 248) =~= le_bytes(self.cr3 as nat, 8));
        assert(w.subrange(248, 256) =~= le_bytes(self.cr4 as nat, 8));
        assert(w.subrange(256, 264) =~= le_bytes(self.cr8 as nat, 8));
        assert(w.subrange(264, 272) =~= le_bytes(self.efer as nat, 8));
        assert(w.subrange(272, 280) =~= le_bytes(self.apic_base as nat, 8));
        assert(w.subrange(280, 288) =~= le_bytes(self.interrupt_bitmap[0] as nat, 8));
        assert(w.subrange(288, 296) =~= le_bytes(self.interrupt_bitmap[1] as nat, 8));
        assert(w.subrange(296, 304) =~= le_bytes(self.interrupt_bitmap[2] as nat, 8));
        assert(w.subrange(304, 312) =~= le_bytes(self.interrupt_bitmap[3] as nat, 8));
    }
}

} // verus!
