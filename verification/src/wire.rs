//! Request framing and the operation catalogue.
//!
//! A request is the operation code as eight little-endian bytes followed by
//! the argument bytes, with no length prefix: both ends know from the code how
//! many argument bytes follow and how many bytes answer.

use vstd::prelude::*;

verus! {

/// Bytes in a request header (the operation code).
pub const HEADER_SIZE: usize = 8;

/// Bytes in a general-purpose register block.
pub const REGS_SIZE: usize = 184;

/// Bytes in a special-register block.
pub const SREGS_SIZE: usize = 312;

/// Bytes in a memory-region descriptor.
pub const REGION_SIZE: usize = 40;

/// Bytes in an identifier response.
pub const ID_SIZE: usize = 8;

/// Bytes in an acknowledgement and in the answer to an unknown operation.
pub const ACK_SIZE: usize = 8;

/// Bytes in the answer to a run request.
pub const EXIT_SIZE: usize = 4;

/// The byte that fills an acknowledgement.
pub const ACK_BYTE: u8 = 1;

/// First byte of the answer to an unknown operation.
pub const ECHO_SENTINEL: u8 = 0xFF;

/// Code of the request to create a machine.
pub const KVM_CREATE_VM: u64 = 0xAE01;

/// Code of the request to create a CPU.
pub const KVM_CREATE_VCPU: u64 = 0xAE41;

/// Code of the request to register guest memory.
pub const KVM_SET_USER_MEMORY_REGION: u64 = 0xAE02;

/// Code of the request to set the register block.
pub const KVM_SET_REGS: u64 = 0xAE40;

/// Code of the request to read the register block.
pub const KVM_GET_REGS: u64 = 0x8090AE81;

/// Code of the request to set the special-register block.
pub const KVM_SET_SREGS: u64 = 0x4138AE81;

/// Code of the request to read the special-register block.
pub const KVM_GET_SREGS: u64 = 0x8138AE80;

/// Code of the request to run the guest for one step.
pub const KVM_RUN: u64 = 0xAE44;

/// Exit reason of a guest that executed a halt.
pub const KVM_EXIT_HLT: u32 = 5;

/// Exit reason of a guest that touched an I/O port.
pub const KVM_EXIT_IO: u32 = 2;

/// The operations of the protocol. Every code outside the catalogue is
/// `Unknown`.
#[derive(Clone, Copy, Debug, PartialEq, Eq, Structural)]
pub enum Operation {
    CreateVm,
    CreateVcpu,
    SetMemoryRegion,
    SetRegs,
    GetRegs,
    SetSregs,
    GetSregs,
    Run,
    Unknown,
}

/// The operation that a code stands for.
pub open spec fn operation_of(code: u64) -> Operation {
    if code == KVM_CREATE_VM {
        Operation::CreateVm
    } else if code == KVM_CREATE_VCPU {
        Operation::CreateVcpu
    } else if code == KVM_SET_USER_MEMORY_REGION {
        Operation::SetMemoryRegion
    } else if code == KVM_SET_REGS {
        Operation::SetRegs
    } else if code == KVM_GET_REGS {
        Operation::GetRegs
    } else if code == KVM_SET_SREGS {
        Operation::SetSregs
    } else if code == KVM_GET_SREGS {
        Operation::GetSregs
    } else if code == KVM_RUN {
        Operation::Run
    } else {
        Operation::Unknown
    }
}

impl Operation {
    /// Number of argument bytes that follow the header of this operation.
    pub open spec fn argument_len(self) -> nat {
        match self {
            Operation::SetMemoryRegion => REGION_SIZE as nat,
            Operation::SetRegs => REGS_SIZE as nat,
            Operation::SetSregs => SREGS_SIZE as nat,
            _ => 0,
        }
    }

    /// Number of bytes in the answer to this operation.
    pub open spec fn response_len(self) -> nat {
        match self {
            Operation::CreateVm | Operation::CreateVcpu => ID_SIZE as nat,
            Operation::SetMemoryRegion | Operation::SetRegs | Operation::SetSregs => ACK_SIZE as nat,
            Operation::GetRegs => REGS_SIZE as nat,
            Operation::GetSregs => SREGS_SIZE as nat,
            Operation::Run => EXIT_SIZE as nat,
            Operation::Unknown => ACK_SIZE as nat,
        }
    }

    /// Looks a code up in the catalogue.
    pub fn from_code(code: u64) -> (op: Operation)
        ensures
            op == operation_of(code),
    {
        if code == KVM_CREATE_VM {
            Operation::CreateVm
        } else if code == KVM_CREATE_VCPU {
            Operation::CreateVcpu
        } else if code == KVM_SET_USER_MEMORY_REGION {
            Operation::SetMemoryRegion
        } else if code == KVM_SET_REGS {
            Operation::SetRegs
        } else if code == KVM_GET_REGS {
            Operation::GetRegs
        } else if code == KVM_SET_SREGS {
            Operation::SetSregs
        } else if code == KVM_GET_SREGS {
            Operation::GetSregs
        } else if code == KVM_RUN {
            Operation::Run
        } else {
            Operation::Unknown
        }
    }

    /// Number of argument bytes that follow the header of this operation.
    pub fn arg_len(&self) -> (n: usize)
        ensures
            n == self.argument_len(),
    {
        match self {
            Operation::SetMemoryRegion => REGION_SIZE,
            Operation::SetRegs => REGS_SIZE,
            Operation::SetSregs => SREGS_SIZE,
            _ => 0,
        }
    }

    /// Number of bytes in the answer to this operation.
    pub fn resp_len(&self) -> (n: usize)
        ensures
            n == self.response_len(),
    {
        match self {
            Operation::CreateVm | Operation::CreateVcpu => ID_SIZE,
            Operation::SetMemoryRegion | Operation::SetRegs | Operation::SetSregs => ACK_SIZE,
            Operation::GetRegs => REGS_SIZE,
            Operation::GetSregs => SREGS_SIZE,
            Operation::Run => EXIT_SIZE,
            Operation::Unknown => ACK_SIZE,
        }
    }
}

/// The `width` low-order base-256 digits of `x`, least significant first.
pub open spec fn le_bytes(x: nat, width: nat) -> Seq<u8>
    decreases width,
{
    if width == 0 {
        Seq::empty()
    } else {
        seq![(x % 256) as u8] + le_bytes(x / 256, (width - 1) as nat)
    }
}

/// The number whose base-256 digits, least significant first, are `s`.
pub open spec fn le_value(s: Seq<u8>) -> nat
    decreases s.len(),
{
    if s.len() == 0 {
        0
    } else {
        s[0] as nat + 256 * le_value(s.subrange(1, s.len() as int))
    }
}

/// 256 to the power `width`.
pub open spec fn radix_pow(width: nat) -> nat
    decreases width,
{
    if width == 0 {
        1
    } else {
        256 * radix_pow((width - 1) as nat)
    }
}

/// A number written in `width` digits has `width` digits.
pub proof fn lemma_le_bytes_len(x: nat, width: nat)
    ensures
        le_bytes(x, width).len() == width,
    decreases width,
{
    if width > 0 {
        lemma_le_bytes_len(x / 256, (width - 1) as nat);
    }
}

/// Reading back the digits of a number that fits in `width` digits gives the
/// number.
pub proof fn lemma_le_value_of_bytes(x: nat, width: nat)
    requires
        x < radix_pow(width),
    ensures
        le_value(le_bytes(x, width)) == x,
    decreases width,
{
    if width > 0 {
        let rest = le_bytes(x / 256, (width - 1) as nat);
        let all = le_bytes(x, width);
        lemma_le_bytes_len(x / 256, (width - 1) as nat);
        assert(all.subrange(1, all.len() as int) =~= rest);
        lemma_le_value_of_bytes(x / 256, (width - 1) as nat);
    }
}

/// Writing out the number that a digit string stands for gives the string.
pub proof fn lemma_le_bytes_of_value(s: Seq<u8>)
    ensures
        le_bytes(le_value(s), s.len()) == s,
        le_value(s) < radix_pow(s.len()),
    decreases s.len(),
{
    if s.len() > 0 {
        let tail = s.subrange(1, s.len() as int);
        lemma_le_bytes_of_value(tail);
        let v = le_value(s);
        assert(v % 256 == s[0] as nat && v / 256 == le_value(tail)) by {
            assert(v == s[0] as nat + 256 * le_value(tail));
        }
        assert(le_bytes(v, s.len()) =~= s);
    }
}

/// Two numbers that fit in `width` digits and have the same digits are the
/// same number.
pub proof fn lemma_le_bytes_injective(x: nat, y: nat, width: nat)
    requires
        x < radix_pow(width),
        y < radix_pow(width),
        le_bytes(x, width) == le_bytes(y, width),
    ensures
        x == y,
{
    lemma_le_value_of_bytes(x, width);
    lemma_le_value_of_bytes(y, width);
}

/// The powers of 256 that bound 16, 32 and 64 bits.
pub proof fn lemma_radix_pow_values()
    ensures
        radix_pow(2) == 0x1_0000,
        radix_pow(4) == 0x1_0000_0000,
        radix_pow(8) == 0x1_0000_0000_0000_0000,
{
    reveal_with_fuel(radix_pow, 9);
}

/// Appends the `width` low-order bytes of `x`, least significant first.
pub fn push_le(out: &mut Vec<u8>, x: u64, width: usize)
    ensures
        final(out)@ == old(out)@ + le_bytes(x as nat, width as nat),
{
    let mut rest: u64 = x;
    let mut i: usize = 0;
    proof {
        assert(le_bytes(x as nat, width as nat).subrange(0, 0) =~= Seq::<u8>::empty());
        assert(out@ + Seq::<u8>::empty() =~= out@);
        lemma_le_bytes_len(x as nat, width as nat);
    }
    while i < width
        invariant
            i <= width,
            out@ == old(out)@ + le_bytes(x as nat, width as nat).subrange(0, i as int),
            le_bytes(x as nat, width as nat).len() == width,
            le_bytes(x as nat, width as nat).subrange(i as int, width as int) == le_bytes(
                rest as nat,
                (width - i) as nat,
            ),
        decreases width - i,
    {
        let ghost all = le_bytes(x as nat, width as nat);
        let ghost tail = le_bytes((rest / 256) as nat, (width - i - 1) as nat);
        proof {
            lemma_le_bytes_len(rest as nat, (width - i) as nat);
            assert(le_bytes(rest as nat, (width - i) as nat) == seq![(rest % 256) as u8] + tail);
            assert(all[i as int] == all.subrange(i as int, width as int)[0]);
            assert(all.subrange(i as int + 1, width as int) =~= all.subrange(
                i as int,
                width as int,
            ).subrange(1, width - i));
            assert((seq![(rest % 256) as u8] + tail).subrange(1, width - i) =~= tail);
        }
        out.push((rest % 256) as u8);
        rest = rest / 256;
        i = i + 1;
        assert(out@ =~= old(out)@ + all.subrange(0, i as int));
    }
    proof {
        let all = le_bytes(x as nat, width as nat);
        assert(all.subrange(0, width as int) =~= all);
    }
}

/// The number that the `width` bytes from `at` stand for, least significant
/// first.
pub(crate) fn read_le(bytes: &[u8], at: usize, width: usize) -> (x: u64)
    requires
        width <= 8,
        at + width <= bytes@.len(),
    ensures
        x == le_value(bytes@.subrange(at as int, at + width)),
        le_bytes(x as nat, width as nat) == bytes@.subrange(at as int, at + width),
        x < radix_pow(width as nat),
{
    let mut x: u64 = 0;
    let mut i: usize = width;
    let ghost field = bytes@.subrange(at as int, at + width);
    proof {
        assert(field.subrange(width as int, width as int) =~= Seq::<u8>::empty());
        assert(bytes@.len() == bytes.len());
        lemma_radix_pow_values();
    }
    while i > 0
        invariant
            i <= width <= 8,
            at + width <= bytes@.len() <= usize::MAX,
            field == bytes@.subrange(at as int, at + width),
            x == le_value(field.subrange(i as int, width as int)),
            x < radix_pow((width - i) as nat),
            radix_pow(8) == 0x1_0000_0000_0000_0000,
        decreases i,
    {
        i = i - 1;
        proof {
            let cur = field.subrange(i as int, width as int);
            assert(cur.subrange(1, cur.len() as int) =~= field.subrange(i as int + 1, width as int));
            assert(cur[0] == bytes@[at + i]);
            lemma_le_bytes_of_value(cur);
            lemma_radix_pow_mono((width - i) as nat, 8);
        }
        x = x * 256 + bytes[at + i] as u64;
    }
    proof {
        assert(field.subrange(0, width as int) =~= field);
        lemma_le_bytes_of_value(field);
    }
    x
}

/// The eight little-endian bytes of `x`.
pub fn u64_to_le(x: u64) -> (out: Vec<u8>)
    ensures
        out@ == le_bytes(x as nat, 8),
        out@.len() == 8,
{
    let mut out: Vec<u8> = Vec::new();
    push_le(&mut out, x, 8);
    proof {
        lemma_le_bytes_len(x as nat, 8);
        assert(Seq::<u8>::empty() + le_bytes(x as nat, 8) =~= le_bytes(x as nat, 8));
    }
    out
}

/// The four little-endian bytes of `x`.
pub fn u32_to_le(x: u32) -> (out: Vec<u8>)
    ensures
        out@ == le_bytes(x as nat, 4),
        out@.len() == 4,
{
    let mut out: Vec<u8> = Vec::new();
    push_le(&mut out, x as u64, 4);
    proof {
        lemma_le_bytes_len(x as nat, 4);
        assert(Seq::<u8>::empty() + le_bytes(x as nat, 4) =~= le_bytes(x as nat, 4));
    }
    out
}

/// The number that eight little-endian bytes stand for.
pub(crate) fn u64_from_le(bytes: &[u8]) -> (x: u64)
    requires
        bytes@.len() == 8,
    ensures
        x == le_value(bytes@),
{
    assert(bytes@.subrange(0, 8) =~= bytes@);
    read_le(bytes, 0, 8)
}

/// The number that four little-endian bytes stand for.
pub(crate) fn u32_from_le(bytes: &[u8]) -> (x: u32)
    requires
        bytes@.len() == 4,
    ensures
        x == le_value(bytes@),
{
    assert(bytes@.subrange(0, 4) =~= bytes@);
    proof {
        lemma_radix_pow_values();
    }
    read_le(bytes, 0, 4) as u32
}

/// A higher power of 256 is no smaller, and none is zero.
pub proof fn lemma_radix_pow_mono(a: nat, b: nat)
    requires
        a <= b,
    ensures
        radix_pow(a) <= radix_pow(b),
        radix_pow(a) >= 1,
    decreases b,
{
    if b > 0 {
        if a == b {
            lemma_radix_pow_mono((a - 1) as nat, (b - 1) as nat);
        } else {
            lemma_radix_pow_mono(a, (b - 1) as nat);
        }
    }
}

/// The bytes of a request: the code as eight little-endian bytes, then the
/// argument as it is.
pub open spec fn request_bytes(code: u64, arg: Seq<u8>) -> Seq<u8> {
    le_bytes(code as nat, 8) + arg
}

/// What a complete request holds: its code and argument, if the bytes after
/// the header are exactly as many as the code's operation takes.
pub open spec fn parse_request(frame: Seq<u8>) -> Option<(u64, Seq<u8>)> {
    if frame.len() < 8 {
        None
    } else {
        let code = le_value(frame.subrange(0, 8)) as u64;
        let arg = frame.subrange(8, frame.len() as int);
        if arg.len() == operation_of(code).argument_len() {
            Some((code, arg))
        } else {
            None
        }
    }
}

/// Frames a request.
pub fn encode(code: u64, arg: Option<&[u8]>) -> (out: Vec<u8>)
    ensures
        out@ == request_bytes(
            code,
            match arg {
                Some(a) => a@,
                None => Seq::empty(),
            },
        ),
{
    let mut out = u64_to_le(code);
    match arg {
        Some(a) => {
            append_bytes(&mut out, a);
        },
        None => {
            assert(out@ + Seq::<u8>::empty() =~= out@);
        },
    }
    out
}

/// Appends `src` to `dst`.
pub(crate) fn append_bytes(dst: &mut Vec<u8>, src: &[u8])
    ensures
        final(dst)@ == old(dst)@ + src@,
{
    let mut i: usize = 0;
    while i < src.len()
        invariant
            i <= src@.len(),
            dst@ == old(dst)@ + src@.subrange(0, i as int),
        decreases src@.len() - i,
    {
        dst.push(src[i]);
        i = i + 1;
        assert(dst@ =~= old(dst)@ + src@.subrange(0, i as int));
    }
    assert(src@.subrange(0, src@.len() as int) =~= src@);
}

/// A copy of `src[from..to]`.
pub(crate) fn copy_range(src: &[u8], from: usize, to: usize) -> (out: Vec<u8>)
    requires
        from <= to <= src@.len(),
    ensures
        out@ == src@.subrange(from as int, to as int),
{
    let mut out: Vec<u8> = Vec::new();
    let mut i: usize = from;
    while i < to
        invariant
            from <= i <= to <= src@.len(),
            out@ == src@.subrange(from as int, i as int),
        decreases to - i,
    {
        out.push(src[i]);
        i = i + 1;
        assert(out@ =~= src@.subrange(from as int, i as int));
    }
    out
}

/// Splits a complete request into its code and argument. `None` when the
/// bytes are fewer than a header or the argument has not the length that the
/// code's operation takes.
pub fn decode(frame: &[u8]) -> (r: Option<(u64, Vec<u8>)>)
    ensures
        match r {
            Some((code, arg)) => parse_request(frame@) == Some((code, arg@)),
            None => parse_request(frame@) is None,
        },
{
    if frame.len() < HEADER_SIZE {
        return None;
    }
    let header = copy_range(frame, 0, HEADER_SIZE);
    let code = u64_from_le(header.as_slice());
    proof {
        lemma_le_bytes_of_value(header@);
        lemma_radix_pow_values();
    }
    if frame.len() - HEADER_SIZE != Operation::from_code(code).arg_len() {
        return None;
    }
    let arg = copy_range(frame, HEADER_SIZE, frame.len());
    Some((code, arg))
}

/// Encoding a request whose argument has the length that its operation takes,
/// then decoding the bytes, gives back the code and the argument.
pub proof fn lemma_request_roundtrip(code: u64, arg: Seq<u8>)
    requires
        arg.len() == operation_of(code).argument_len(),
    ensures
        parse_request(request_bytes(code, arg)) == Some((code, arg)),
{
    let frame = request_bytes(code, arg);
    lemma_le_bytes_len(code as nat, 8);
    lemma_radix_pow_values();
    lemma_le_value_of_bytes(code as nat, 8);
    assert(frame.subrange(0, 8) =~= le_bytes(code as nat, 8));
    assert(frame.subrange(8, frame.len() as int) =~= arg);
}

/// A memory-region descriptor: where a stretch of guest-physical memory
/// begins, how long it is and what backs it.
#[derive(Clone, Copy, Debug, PartialEq, Eq, Structural)]
pub struct MemoryRegion {
    pub slot: u32,
    pub flags: u32,
    pub guest_phys_addr: u64,
    pub memory_size: u64,
    pub userspace_addr: u64,
}

/// The forty bytes of a descriptor: its five fields in order, each little
/// endian, then eight zero bytes.
pub open spec fn region_bytes(r: MemoryRegion) -> Seq<u8> {
    le_bytes(r.slot as nat, 4) + le_bytes(r.flags as nat, 4) + le_bytes(r.guest_phys_addr as nat, 8)
        + le_bytes(r.memory_size as nat, 8) + le_bytes(r.userspace_addr as nat, 8) + le_bytes(0, 8)
}

/// The descriptor whose fields forty bytes hold; the last eight bytes are
/// not looked at.
pub open spec fn parse_region(bytes: Seq<u8>) -> MemoryRegion {
    MemoryRegion {
        slot: le_value(bytes.subrange(0, 4)) as u32,
        flags: le_value(bytes.subrange(4, 8)) as u32,
        guest_phys_addr: le_value(bytes.subrange(8, 16)) as u64,
        memory_size: le_value(bytes.subrange(16, 24)) as u64,
        userspace_addr: le_value(bytes.subrange(24, 32)) as u64,
    }
}

impl MemoryRegion {
    /// The descriptor as it goes over the wire.
    pub fn encode(&self) -> (out: Vec<u8>)
        ensures
            out@ == region_bytes(*self),
            out@.len() == REGION_SIZE,
    {
        let mut out: Vec<u8> = Vec::new();
        push_le(&mut out, self.slot as u64, 4);
        push_le(&mut out, self.flags as u64, 4);
        push_le(&mut out, self.guest_phys_addr, 8);
        push_le(&mut out, self.memory_size, 8);
        push_le(&mut out, self.userspace_addr, 8);
        push_le(&mut out, 0, 8);
        proof {
            lemma_region_roundtrip(*self);
            assert(out@ =~= region_bytes(*self));
        }
        out
    }

    /// Reads a descriptor. `None` unless there are exactly forty bytes.
    pub fn decode(bytes: &[u8]) -> (r: Option<MemoryRegion>)
        ensures
            r == if bytes@.len() == REGION_SIZE {
                Some(parse_region(bytes@))
            } else {
                None
            },
    {
        if bytes.len() != REGION_SIZE {
            return None;
        }
        proof {
            lemma_radix_pow_values();
        }
        Some(
            MemoryRegion {
                slot: read_le(bytes, 0, 4) as u32,
                flags: read_le(bytes, 4, 4) as u32,
                guest_phys_addr: read_le(bytes, 8, 8),
                memory_size: read_le(bytes, 16, 8),
                userspace_addr: read_le(bytes, 24, 8),
            },
        )
    }
}

/// A descriptor that was written out is the descriptor that is read back.
pub proof fn lemma_region_roundtrip(r: MemoryRegion)
    ensures
        region_bytes(r).len() == REGION_SIZE,
        parse_region(region_bytes(r)) == r,
{
    let b = region_bytes(r);
    lemma_radix_pow_values();
    lemma_le_bytes_len(r.slot as nat, 4);
    lemma_le_bytes_len(r.flags as nat, 4);
    lemma_le_bytes_len(r.guest_phys_addr as nat, 8);
    lemma_le_bytes_len(r.memory_size as nat, 8);
    lemma_le_bytes_len(r.userspace_addr as nat, 8);
    lemma_le_bytes_len(0, 8);
    assert(b.subrange(0, 4) =~= le_bytes(r.slot as nat, 4));
    assert(b.subrange(4, 8) =~= le_bytes(r.flags as nat, 4));
    assert(b.subrange(8, 16) =~= le_bytes(r.guest_phys_addr as nat, 8));
    assert(b.subrange(16, 24) =~= le_bytes(r.memory_size as nat, 8));
    assert(b.subrange(24, 32) =~= le_bytes(r.userspace_addr as nat, 8));
    lemma_le_value_of_bytes(r.slot as nat, 4);
    lemma_le_value_of_bytes(r.flags as nat, 4);
    lemma_le_value_of_bytes(r.guest_phys_addr as nat, 8);
    lemma_le_value_of_bytes(r.memory_size as nat, 8);
    lemma_le_value_of_bytes(r.userspace_addr as nat, 8);
}

} // verus!
