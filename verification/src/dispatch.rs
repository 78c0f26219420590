//! The server's answer to one request.
//!
//! Each request is carried out on the registry and answered with a fixed
//! number of bytes. The wire has no way to say that something went wrong: a
//! request to set something on a machine or CPU that does not exist is still
//! acknowledged, and a request to read from one is met with silence. What
//! really happened is told beside the answer, in its [`Outcome`].

use vstd::prelude::*;
use crate::frame::{
    encode_ppm, frame_of, framebuffer, ppm_image, FRAMEBUFFER_OFFSET, FRAME_BYTES, HEIGHT, WIDTH,
};
use crate::registry::{
    allocatable, lemma_create_vcpu_wf, lemma_create_vm_wf, lemma_remap_wf, lemma_set_regs_wf,
    lemma_set_sregs_wf, Place, RegistryModel, State, DEFAULT_VM_MEMORY,
};
use crate::wire::{
    copy_range, le_bytes, lemma_le_bytes_len, operation_of, parse_region, u32_to_le, u64_to_le,
    MemoryRegion, Operation, ACK_BYTE, ACK_SIZE, ECHO_SENTINEL, KVM_EXIT_HLT, REGS_SIZE,
    SREGS_SIZE,
};

verus! {

/// What became of a request.
#[derive(Clone, Copy, Debug, PartialEq, Eq, Structural)]
pub enum Outcome {
    /// The request was carried out.
    Done,
    /// The machine or CPU that the request means does not exist; nothing was
    /// changed but a counter that the request spends.
    NotFound,
    /// The counter has no identifier left; nothing was changed.
    Exhausted,
    /// The memory asked for cannot be allocated; nothing was changed.
    TooLarge,
    /// The argument has not the length that the operation takes; nothing was
    /// changed.
    BadArgument,
    /// The code is not in the catalogue; nothing was changed.
    Unknown,
}

/// The server's answer to a request.
#[derive(Debug, PartialEq, Eq)]
pub struct Reply {
    /// The bytes to write back.
    pub bytes: Vec<u8>,
    /// The image to store, if the request produced one.
    pub frame: Option<Vec<u8>>,
    /// What became of the request.
    pub outcome: Outcome,
}

/// An answer as a value.
pub struct ReplyModel {
    pub bytes: Seq<u8>,
    pub frame: Option<Seq<u8>>,
    pub outcome: Outcome,
}

impl View for Reply {
    type V = ReplyModel;

    open spec fn view(&self) -> ReplyModel {
        ReplyModel {
            bytes: self.bytes@,
            frame: match self.frame {
                Some(f) => Some(f@),
                None => None,
            },
            outcome: self.outcome,
        }
    }
}

/// The acknowledgement: eight bytes of value one.
pub open spec fn ack_bytes() -> Seq<u8> {
    Seq::new(ACK_SIZE as nat, |i: int| ACK_BYTE)
}

/// The answer to an unknown operation: the sentinel, then seven zero bytes.
pub open spec fn echo_bytes() -> Seq<u8> {
    Seq::new(ACK_SIZE as nat, |i: int| if i == 0 { ECHO_SENTINEL } else { 0u8 })
}

/// The answer to a run request: the exit reason of a halted guest.
pub open spec fn exit_bytes() -> Seq<u8> {
    le_bytes(KVM_EXIT_HLT as nat, 4)
}

/// The size that a memory-region descriptor declares.
pub open spec fn region_size(arg: Seq<u8>) -> nat {
    parse_region(arg).memory_size as nat
}

/// An answer without an image.
pub open spec fn plain(bytes: Seq<u8>, outcome: Outcome) -> ReplyModel {
    ReplyModel { bytes, frame: None, outcome }
}

/// The image that a run request stores: the frame in the first machine's
/// memory, if that memory reaches beyond the frame's end.
pub open spec fn run_frame(m: RegistryModel) -> Option<Seq<u8>> {
    if m.vms.len() > 0 && m.vms[0].memory.len() > FRAMEBUFFER_OFFSET + FRAME_BYTES {
        Some(ppm_image(WIDTH as nat, HEIGHT as nat, frame_of(m.vms[0].memory)))
    } else {
        None
    }
}

/// The registry after a request.
pub open spec fn registry_after(m: RegistryModel, code: u64, arg: Seq<u8>) -> RegistryModel {
    let op = operation_of(code);
    if arg.len() != op.argument_len() {
        m
    } else {
        match op {
            Operation::CreateVm => if m.next_vm_id < u64::MAX {
                m.create_vm(DEFAULT_VM_MEMORY as nat)
            } else {
                m
            },
            Operation::CreateVcpu => if m.next_vcpu_id < u64::MAX {
                m.create_vcpu()
            } else {
                m
            },
            Operation::SetMemoryRegion => if m.vms.len() > 0 && allocatable(region_size(arg)) {
                m.remap(0, region_size(arg))
            } else {
                m
            },
            Operation::SetRegs => if m.holds(Place { vm: 0, slot: 0 }) {
                m.set_regs(Place { vm: 0, slot: 0 }, arg)
            } else {
                m
            },
            Operation::SetSregs => if m.holds(Place { vm: 0, slot: 0 }) {
                m.set_sregs(Place { vm: 0, slot: 0 }, arg)
            } else {
                m
            },
            _ => m,
        }
    }
}

/// The answer to a request.
pub open spec fn reply_to(m: RegistryModel, code: u64, arg: Seq<u8>) -> ReplyModel {
    let op = operation_of(code);
    let first = Place { vm: 0, slot: 0 };
    if arg.len() != op.argument_len() {
        plain(Seq::empty(), Outcome::BadArgument)
    } else {
        match op {
            Operation::CreateVm => if m.next_vm_id < u64::MAX {
                plain(le_bytes(m.next_vm_id as nat, 8), Outcome::Done)
            } else {
                plain(Seq::empty(), Outcome::Exhausted)
            },
            Operation::CreateVcpu => if m.next_vcpu_id == u64::MAX {
                plain(Seq::empty(), Outcome::Exhausted)
            } else if m.vms.len() > 0 {
                plain(le_bytes(m.next_vcpu_id as nat, 8), Outcome::Done)
            } else {
                plain(le_bytes(m.next_vcpu_id as nat, 8), Outcome::NotFound)
            },
            Operation::SetMemoryRegion => if m.vms.len() == 0 {
                plain(ack_bytes(), Outcome::NotFound)
            } else if allocatable(region_size(arg)) {
                plain(ack_bytes(), Outcome::Done)
            } else {
                plain(ack_bytes(), Outcome::TooLarge)
            },
            Operation::SetRegs | Operation::SetSregs => if m.holds(first) {
                plain(ack_bytes(), Outcome::Done)
            } else {
                plain(ack_bytes(), Outcome::NotFound)
            },
            Operation::GetRegs => if m.holds(first) {
                plain(m.vcpu_at(first).regs, Outcome::Done)
            } else {
                plain(Seq::empty(), Outcome::NotFound)
            },
            Operation::GetSregs => if m.holds(first) {
                plain(m.vcpu_at(first).sregs, Outcome::Done)
            } else {
                plain(Seq::empty(), Outcome::NotFound)
            },
            Operation::Run => ReplyModel {
                bytes: exit_bytes(),
                frame: run_frame(m),
                outcome: if m.vms.len() > 0 {
                    Outcome::Done
                } else {
                    Outcome::NotFound
                },
            },
            Operation::Unknown => plain(echo_bytes(), Outcome::Unknown),
        }
    }
}

/// The acknowledgement as bytes.
pub fn ack() -> (v: Vec<u8>)
    ensures
        v@ == ack_bytes(),
{
    let mut v: Vec<u8> = Vec::new();
    let mut i: usize = 0;
    while i < ACK_SIZE
        invariant
            i <= ACK_SIZE,
            v@.len() == i,
            forall|k: int| 0 <= k < i ==> v@[k] == ACK_BYTE,
        decreases ACK_SIZE - i,
    {
        v.push(ACK_BYTE);
        i = i + 1;
    }
    assert(v@ =~= ack_bytes());
    v
}

/// The answer to an unknown operation as bytes.
pub fn echo() -> (v: Vec<u8>)
    ensures
        v@ == echo_bytes(),
{
    let mut v: Vec<u8> = Vec::new();
    v.push(ECHO_SENTINEL);
    let mut i: usize = 1;
    while i < ACK_SIZE
        invariant
            1 <= i <= ACK_SIZE,
            v@.len() == i,
            v@[0] == ECHO_SENTINEL,
            forall|k: int| 1 <= k < i ==> v@[k] == 0,
        decreases ACK_SIZE - i,
    {
        v.push(0u8);
        i = i + 1;
    }
    assert(v@ =~= echo_bytes());
    v
}

/// A register block from bytes.
pub(crate) fn regs_block(bytes: &[u8]) -> (block: [u8; REGS_SIZE])
    requires
        bytes@.len() == REGS_SIZE,
    ensures
        block@ == bytes@,
{
    let mut block = [0u8; REGS_SIZE];
    let mut i: usize = 0;
    while i < REGS_SIZE
        invariant
            i <= REGS_SIZE,
            bytes@.len() == REGS_SIZE,
            forall|k: int| 0 <= k < i ==> block@[k] == bytes@[k],
        decreases REGS_SIZE - i,
    {
        block[i] = bytes[i];
        i = i + 1;
    }
    assert(block@ =~= bytes@);
    block
}

/// A special-register block from bytes.
pub(crate) fn sregs_block(bytes: &[u8]) -> (block: [u8; SREGS_SIZE])
    requires
        bytes@.len() == SREGS_SIZE,
    ensures
        block@ == bytes@,
{
    let mut block = [0u8; SREGS_SIZE];
    let mut i: usize = 0;
    while i < SREGS_SIZE
        invariant
            i <= SREGS_SIZE,
            bytes@.len() == SREGS_SIZE,
            forall|k: int| 0 <= k < i ==> block@[k] == bytes@[k],
        decreases SREGS_SIZE - i,
    {
        block[i] = bytes[i];
        i = i + 1;
    }
    assert(block@ =~= bytes@);
    block
}

/// Carries out one request on the registry and says what to answer.
///
/// `req` is the operation code and `arg` the argument bytes that followed
/// it. The answer is [`reply_to`] and the registry afterwards is
/// [`registry_after`], both of the registry before.
pub fn handle_ioctl(req: u64, arg: &[u8], state: &mut State) -> (reply: Reply)
    ensures
        final(state)@ == registry_after(old(state)@, req, arg@),
        reply@ == reply_to(old(state)@, req, arg@),
{
    let op = Operation::from_code(req);
    if arg.len() != op.arg_len() {
        return Reply { bytes: Vec::new(), frame: None, outcome: Outcome::BadArgument };
    }
    match op {
        Operation::CreateVm => {
            assert(allocatable(DEFAULT_VM_MEMORY as nat));
            match state.create_vm(DEFAULT_VM_MEMORY) {
                Ok(id) => Reply { bytes: u64_to_le(id), frame: None, outcome: Outcome::Done },
                Err(_) => Reply { bytes: Vec::new(), frame: None, outcome: Outcome::Exhausted },
            }
        },
        Operation::CreateVcpu => {
            match state.create_vcpu() {
                Ok(made) => Reply {
                    bytes: u64_to_le(made.id),
                    frame: None,
                    outcome: if made.vm.is_some() {
                        Outcome::Done
                    } else {
                        Outcome::NotFound
                    },
                },
                Err(_) => Reply { bytes: Vec::new(), frame: None, outcome: Outcome::Exhausted },
            }
        },
        Operation::SetMemoryRegion => {
            let declared: u64 = match MemoryRegion::decode(arg) {
                Some(region) => region.memory_size,
                None => 0,
            };
            let outcome = if state.vm_count() == 0 {
                Outcome::NotFound
            } else if declared > isize::MAX as u64 {
                Outcome::TooLarge
            } else {
                let _ = state.set_memory_region(None, declared as usize);
                Outcome::Done
            };
            Reply { bytes: ack(), frame: None, outcome }
        },
        Operation::SetRegs => {
            let block = regs_block(arg);
            let outcome = match state.set_registers(None, &block) {
                Ok(_) => Outcome::Done,
                Err(_) => Outcome::NotFound,
            };
            Reply { bytes: ack(), frame: None, outcome }
        },
        Operation::SetSregs => {
            let block = sregs_block(arg);
            let outcome = match state.set_special_registers(None, &block) {
                Ok(_) => Outcome::Done,
                Err(_) => Outcome::NotFound,
            };
            Reply { bytes: ack(), frame: None, outcome }
        },
        Operation::GetRegs => {
            match state.get_registers(None) {
                Ok(block) => {
                    let bytes = copy_range(block.as_slice(), 0, REGS_SIZE);
                    assert(bytes@ =~= block@);
                    Reply { bytes, frame: None, outcome: Outcome::Done }
                },
                Err(_) => Reply { bytes: Vec::new(), frame: None, outcome: Outcome::NotFound },
            }
        },
        Operation::GetSregs => {
            match state.get_special_registers(None) {
                Ok(block) => {
                    let bytes = copy_range(block.as_slice(), 0, SREGS_SIZE);
                    assert(bytes@ =~= block@);
                    Reply { bytes, frame: None, outcome: Outcome::Done }
                },
                Err(_) => Reply { bytes: Vec::new(), frame: None, outcome: Outcome::NotFound },
            }
        },
        Operation::Run => {
            let (frame, outcome) = match state.memory(None) {
                Ok(memory) => {
                    if memory.len() > FRAMEBUFFER_OFFSET + FRAME_BYTES {
                        match framebuffer(memory.as_slice()) {
                            Some(pixels) => (
                                encode_ppm(WIDTH, HEIGHT, pixels.as_slice()),
                                Outcome::Done,
                            ),
                            None => (None, Outcome::Done),
                        }
                    } else {
                        (None, Outcome::Done)
                    }
                },
                Err(_) => (None, Outcome::NotFound),
            };
            Reply { bytes: u32_to_le(KVM_EXIT_HLT), frame, outcome }
        },
        Operation::Unknown => Reply { bytes: echo(), frame: None, outcome: Outcome::Unknown },
    }
}

/// An answer has exactly the length that the catalogue gives its operation,
/// or no byte at all. It has none only where the wire has no way to answer:
/// when a register block is asked of a CPU that does not exist, or a counter
/// is spent.
pub proof fn lemma_answer_length(m: RegistryModel, code: u64, arg: Seq<u8>)
    requires
        m.wf(),
        arg.len() == operation_of(code).argument_len(),
    ensures
        ({
            let op = operation_of(code);
            let reply = reply_to(m, code, arg);
            let silent = reply.outcome == Outcome::Exhausted || (reply.outcome == Outcome::NotFound
                && (op == Operation::GetRegs || op == Operation::GetSregs));
            &&& silent ==> reply.bytes.len() == 0
            &&& !silent ==> reply.bytes.len() == op.response_len()
        }),
{
    let first = Place { vm: 0, slot: 0 };
    lemma_le_bytes_len(m.next_vm_id as nat, 8);
    lemma_le_bytes_len(m.next_vcpu_id as nat, 8);
    lemma_le_bytes_len(KVM_EXIT_HLT as nat, 4);
    if m.holds(first) {
        assert(m.vcpu_at(first).wf());
    }
}

/// Whether a request creates a machine: it is a create request with no
/// argument and the counter has an identifier left.
pub open spec fn creates_vm(m: RegistryModel, code: u64, arg: Seq<u8>) -> bool {
    operation_of(code) == Operation::CreateVm && arg.len() == 0 && m.next_vm_id < u64::MAX
}

/// Whatever the request, the registry stays well-formed, the machine counter
/// does not fall, and every machine that was there is still there. A request
/// that creates a machine is answered with the counter's identifier, which
/// named no machine before and names one afterwards.
pub proof fn lemma_request_keeps_registry(m: RegistryModel, code: u64, arg: Seq<u8>)
    requires
        m.wf(),
    ensures
        registry_after(m, code, arg).wf(),
        registry_after(m, code, arg).next_vm_id >= m.next_vm_id,
        forall|id: u64| m.has_vm(id) ==> registry_after(m, code, arg).has_vm(id),
        forall|id: u64|
            registry_after(m, code, arg).has_vm(id) ==> id < registry_after(m, code, arg).next_vm_id,
        creates_vm(m, code, arg) ==> ({
            &&& reply_to(m, code, arg) == plain(le_bytes(m.next_vm_id as nat, 8), Outcome::Done)
            &&& registry_after(m, code, arg).next_vm_id == m.next_vm_id + 1
            &&& !m.has_vm(m.next_vm_id)
            &&& registry_after(m, code, arg).has_vm(m.next_vm_id)
        }),
{
    let after = registry_after(m, code, arg);
    let op = operation_of(code);
    let first = Place { vm: 0, slot: 0 };
    if arg.len() == op.argument_len() {
        match op {
            Operation::CreateVm => {
                if m.next_vm_id < u64::MAX {
                    lemma_create_vm_wf(m, DEFAULT_VM_MEMORY as nat);
                }
            },
            Operation::CreateVcpu => {
                if m.next_vcpu_id < u64::MAX {
                    lemma_create_vcpu_wf(m);
                }
            },
            Operation::SetMemoryRegion => {
                if m.vms.len() > 0 && allocatable(region_size(arg)) {
                    lemma_remap_wf(m, None, region_size(arg));
                }
            },
            Operation::SetRegs => {
                if m.holds(first) {
                    lemma_set_regs_wf(m, None, arg);
                }
            },
            Operation::SetSregs => {
                if m.holds(first) {
                    lemma_set_sregs_wf(m, None, arg);
                }
            },
            _ => {},
        }
    }
    assert forall|id: u64| after.has_vm(id) implies id < after.next_vm_id by {
        assert(after.vms[after.vm_slot(id)].id == id);
    }
}

/// The registry after the requests of a list were carried out one after
/// another.
pub open spec fn after_requests(m: RegistryModel, requests: Seq<(u64, Seq<u8>)>) -> RegistryModel
    decreases requests.len(),
{
    if requests.len() == 0 {
        m
    } else {
        registry_after(
            after_requests(m, requests.drop_last()),
            requests.last().0,
            requests.last().1,
        )
    }
}

/// The registry that request `k` of a list finds.
pub open spec fn registry_before(m: RegistryModel, requests: Seq<(u64, Seq<u8>)>, k: int)
    -> RegistryModel {
    after_requests(m, requests.take(k))
}

/// Requests that are carried out one after another keep the registry
/// well-formed and lose no machine.
pub proof fn lemma_requests_keep_registry(m: RegistryModel, requests: Seq<(u64, Seq<u8>)>, k: int)
    requires
        m.wf(),
        0 <= k <= requests.len(),
    ensures
        after_requests(m, requests).wf(),
        registry_before(m, requests, k).wf(),
        registry_before(m, requests, k).next_vm_id <= after_requests(m, requests).next_vm_id,
        forall|id: u64|
            registry_before(m, requests, k).has_vm(id) ==> after_requests(m, requests).has_vm(id),
    decreases requests.len(),
{
    if k == requests.len() {
        assert(requests.take(k) =~= requests);
        if requests.len() > 0 {
            lemma_requests_keep_registry(m, requests.drop_last(), requests.len() - 1);
            lemma_request_keeps_registry(
                after_requests(m, requests.drop_last()),
                requests.last().0,
                requests.last().1,
            );
        }
    } else {
        let init = requests.drop_last();
        assert(requests.take(k) =~= init.take(k));
        lemma_requests_keep_registry(m, init, k);
        lemma_request_keeps_registry(after_requests(m, init), requests.last().0, requests.last().1);
        assert forall|id: u64| registry_before(m, requests, k).has_vm(id) implies after_requests(
            m,
            requests,
        ).has_vm(id) by {
            assert(after_requests(m, init).has_vm(id));
        }
    }
}

/// No creation is lost, in whatever order the requests of all connections
/// are served. When the requests are carried out one at a time, two of them
/// that each create a machine are answered with different identifiers, the
/// later one with the greater, and both machines are in the registry at the
/// end.
pub proof fn lemma_creations_in_any_order(
    m: RegistryModel,
    requests: Seq<(u64, Seq<u8>)>,
    i: int,
    j: int,
)
    requires
        m.wf(),
        0 <= i < j < requests.len(),
        creates_vm(registry_before(m, requests, i), requests[i].0, requests[i].1),
        creates_vm(registry_before(m, requests, j), requests[j].0, requests[j].1),
    ensures
        ({
            let first = registry_before(m, requests, i).next_vm_id;
            let second = registry_before(m, requests, j).next_vm_id;
            &&& reply_to(registry_before(m, requests, i), requests[i].0, requests[i].1).bytes
                == le_bytes(first as nat, 8)
            &&& reply_to(registry_before(m, requests, j), requests[j].0, requests[j].1).bytes
                == le_bytes(second as nat, 8)
            &&& first < second
            &&& after_requests(m, requests).has_vm(first)
            &&& after_requests(m, requests).has_vm(second)
        }),
{
    let upto_i = requests.take(i + 1);
    let upto_j = requests.take(j + 1);
    lemma_requests_keep_registry(m, requests, i);
    lemma_requests_keep_registry(m, requests, j);
    lemma_request_keeps_registry(registry_before(m, requests, i), requests[i].0, requests[i].1);
    lemma_request_keeps_registry(registry_before(m, requests, j), requests[j].0, requests[j].1);
    assert(upto_i.drop_last() =~= requests.take(i));
    assert(upto_i.last() == requests[i]);
    assert(upto_j.drop_last() =~= requests.take(j));
    assert(upto_j.last() == requests[j]);
    assert(requests.take(j).take(i + 1) =~= upto_i);
    lemma_requests_keep_registry(m, requests.take(j), i + 1);
    lemma_requests_keep_registry(m, requests, i + 1);
    lemma_requests_keep_registry(m, requests, j + 1);
}

} // verus!
