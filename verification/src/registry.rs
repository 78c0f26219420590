//! The registry of virtual machines and virtual CPUs.
//!
//! A machine owns its guest memory and its CPUs; a CPU owns two register
//! blocks of fixed width. Identifiers come from two counters that only grow,
//! so none is handed out twice. A request that names no machine or CPU means
//! the first machine, or the first CPU of the first machine.
//!
//! The registry is a plain value: whoever shares it between connections
//! holds it behind one lock and calls one operation at a time. Every
//! registry is well-formed, whatever was asked of it: no operation has a
//! precondition.

use vstd::prelude::*;
use crate::wire::{REGS_SIZE, SREGS_SIZE};

verus! {

/// Bytes of guest memory that a machine created over the wire begins with.
pub const DEFAULT_VM_MEMORY: usize = 0x40_0000;

/// The identifier that each counter starts from.
pub const FIRST_ID: u64 = 1;

/// `n` zero bytes.
pub open spec fn zeros(n: nat) -> Seq<u8> {
    Seq::new(n, |i: int| 0u8)
}

/// A virtual CPU as a value.
pub struct VcpuModel {
    pub id: u64,
    pub regs: Seq<u8>,
    pub sregs: Seq<u8>,
}

/// A virtual machine as a value; its CPUs stand in the order of their
/// creation.
pub struct VmModel {
    pub id: u64,
    pub memory: Seq<u8>,
    pub vcpus: Seq<VcpuModel>,
}

/// The registry as a value; its machines stand in the order of their
/// creation.
pub struct RegistryModel {
    pub vms: Seq<VmModel>,
    pub next_vm_id: u64,
    pub next_vcpu_id: u64,
}

impl VcpuModel {
    /// A CPU as it is created: both register blocks zero.
    pub open spec fn fresh(id: u64) -> VcpuModel {
        VcpuModel { id, regs: zeros(REGS_SIZE as nat), sregs: zeros(SREGS_SIZE as nat) }
    }

    /// Both blocks have the width that the protocol gives them.
    pub open spec fn wf(self) -> bool {
        self.regs.len() == REGS_SIZE && self.sregs.len() == SREGS_SIZE
    }
}

impl VmModel {
    /// A machine as it is created: zeroed memory and no CPU.
    pub open spec fn fresh(id: u64, size: nat) -> VmModel {
        VmModel { id, memory: zeros(size), vcpus: Seq::empty() }
    }

    /// The machine with one more CPU.
    pub open spec fn attach(self, id: u64) -> VmModel {
        VmModel { vcpus: self.vcpus.push(VcpuModel::fresh(id)), ..self }
    }

    /// The machine with its memory replaced by `size` zero bytes.
    pub open spec fn remap(self, size: nat) -> VmModel {
        VmModel { memory: zeros(size), ..self }
    }

    /// The machine with CPU `slot` replaced.
    pub open spec fn with_vcpu(self, slot: int, vcpu: VcpuModel) -> VmModel {
        VmModel { vcpus: self.vcpus.update(slot, vcpu), ..self }
    }
}

/// Where a CPU stands: the index of its machine and its index there.
pub struct Place {
    pub vm: int,
    pub slot: int,
}

impl RegistryModel {
    /// The empty registry.
    pub open spec fn fresh() -> RegistryModel {
        RegistryModel { vms: Seq::empty(), next_vm_id: FIRST_ID, next_vcpu_id: FIRST_ID }
    }

    /// Whether `p` is the place of a CPU.
    pub open spec fn holds(self, p: Place) -> bool {
        0 <= p.vm < self.vms.len() && 0 <= p.slot < self.vms[p.vm].vcpus.len()
    }

    /// The CPU at a place.
    pub open spec fn vcpu_at(self, p: Place) -> VcpuModel {
        self.vms[p.vm].vcpus[p.slot]
    }

    /// Every identifier in the registry lies below its counter, no two
    /// machines and no two CPUs share one, and every register block has its
    /// width.
    pub open spec fn wf(self) -> bool {
        &&& self.next_vm_id >= FIRST_ID
        &&& self.next_vcpu_id >= FIRST_ID
        &&& forall|i: int|
            0 <= i < self.vms.len() ==> FIRST_ID <= (#[trigger] self.vms[i]).id < self.next_vm_id
        &&& forall|i: int, j: int|
            0 <= i < j < self.vms.len() ==> (#[trigger] self.vms[i]).id < (
            #[trigger] self.vms[j]).id
        &&& forall|p: Place| #[trigger]
            self.holds(p) ==> self.vcpu_at(p).wf() && FIRST_ID <= self.vcpu_at(p).id
                < self.next_vcpu_id
        &&& forall|p: Place, q: Place|
            #[trigger] self.holds(p) && #[trigger] self.holds(q) && self.vcpu_at(p).id
                == self.vcpu_at(q).id ==> p == q
    }

    /// Whether a machine has the identifier `id`.
    pub open spec fn has_vm(self, id: u64) -> bool {
        exists|i: int| 0 <= i < self.vms.len() && (#[trigger] self.vms[i]).id == id
    }

    /// Whether a CPU has the identifier `id`.
    pub open spec fn has_vcpu(self, id: u64) -> bool {
        exists|p: Place| #[trigger] self.holds(p) && self.vcpu_at(p).id == id
    }

    /// The index of a machine with the identifier `id`, if there is one.
    pub open spec fn vm_slot(self, id: u64) -> int {
        choose|i: int| 0 <= i < self.vms.len() && (#[trigger] self.vms[i]).id == id
    }

    /// The place of a CPU with the identifier `id`, if there is one.
    pub open spec fn vcpu_slot(self, id: u64) -> Place {
        choose|p: Place| #[trigger] self.holds(p) && self.vcpu_at(p).id == id
    }

    /// The index of the machine that a request means: the one with the
    /// identifier it names, or the first one if it names none.
    pub open spec fn vm_index(self, target: Option<u64>) -> Option<int> {
        match target {
            None => if self.vms.len() > 0 {
                Some(0int)
            } else {
                None
            },
            Some(id) => if self.has_vm(id) {
                Some(self.vm_slot(id))
            } else {
                None
            },
        }
    }

    /// The place of the CPU that a request means: the one with the identifier
    /// it names, or the first CPU of the first machine if it names none.
    pub open spec fn vcpu_place(self, target: Option<u64>) -> Option<Place> {
        match target {
            None => if self.holds(Place { vm: 0, slot: 0 }) {
                Some(Place { vm: 0, slot: 0 })
            } else {
                None
            },
            Some(id) => if self.has_vcpu(id) {
                Some(self.vcpu_slot(id))
            } else {
                None
            },
        }
    }

    /// The registry after a machine with `size` bytes of memory was created;
    /// its identifier is the old `next_vm_id`.
    pub open spec fn create_vm(self, size: nat) -> RegistryModel {
        RegistryModel {
            vms: self.vms.push(VmModel::fresh(self.next_vm_id, size)),
            next_vm_id: (self.next_vm_id + 1) as u64,
            ..self
        }
    }

    /// The registry after a CPU was created; its identifier is the old
    /// `next_vcpu_id`. The CPU joins the first machine; with no machine the
    /// identifier is spent and nothing else changes.
    pub open spec fn create_vcpu(self) -> RegistryModel {
        RegistryModel {
            vms: if self.vms.len() > 0 {
                self.vms.update(0, self.vms[0].attach(self.next_vcpu_id))
            } else {
                self.vms
            },
            next_vcpu_id: (self.next_vcpu_id + 1) as u64,
            ..self
        }
    }

    /// The registry after the memory of machine `i` was replaced by `size`
    /// zero bytes.
    pub open spec fn remap(self, i: int, size: nat) -> RegistryModel {
        RegistryModel { vms: self.vms.update(i, self.vms[i].remap(size)), ..self }
    }

    /// The registry with the CPU at `p` replaced.
    pub open spec fn with_vcpu(self, p: Place, vcpu: VcpuModel) -> RegistryModel {
        RegistryModel { vms: self.vms.update(p.vm, self.vms[p.vm].with_vcpu(p.slot, vcpu)), ..self }
    }

    /// The registry after the register block of the CPU at `p` was set.
    pub open spec fn set_regs(self, p: Place, block: Seq<u8>) -> RegistryModel {
        self.with_vcpu(p, VcpuModel { regs: block, ..self.vcpu_at(p) })
    }

    /// The registry after the special-register block of the CPU at `p` was
    /// set.
    pub open spec fn set_sregs(self, p: Place, block: Seq<u8>) -> RegistryModel {
        self.with_vcpu(p, VcpuModel { sregs: block, ..self.vcpu_at(p) })
    }
}

/// Why a registry operation did nothing.
#[derive(Clone, Copy, Debug, PartialEq, Eq, Structural)]
pub enum RegistryError {
    /// The machine or CPU that the request means does not exist.
    NotFound,
    /// The counter has no identifier left to hand out.
    Exhausted,
    /// The memory asked for is more than a buffer can hold.
    TooLarge,
}

/// A CPU identifier that was handed out, and the machine that the CPU joined.
#[derive(Clone, Copy, Debug, PartialEq, Eq, Structural)]
pub struct NewVcpu {
    /// The identifier of the new CPU.
    pub id: u64,
    /// The machine that the CPU joined; `None` when no machine exists, and
    /// then no CPU was made.
    pub vm: Option<u64>,
}

/// Whether a buffer of `size` bytes can be allocated at all.
pub open spec fn allocatable(size: nat) -> bool {
    size <= isize::MAX
}

struct Vcpu {
    id: u64,
    regs: [u8; REGS_SIZE],
    sregs: [u8; SREGS_SIZE],
}

struct Vm {
    id: u64,
    memory: Vec<u8>,
    vcpus: Vec<Vcpu>,
}

/// The registry: every machine with its CPUs, and the two counters.
pub struct State {
    vms: Vec<Vm>,
    next_vm_id: u64,
    next_vcpu_id: u64,
}

impl View for Vcpu {
    type V = VcpuModel;

    closed spec fn view(&self) -> VcpuModel {
        VcpuModel { id: self.id, regs: self.regs@, sregs: self.sregs@ }
    }
}

impl View for Vm {
    type V = VmModel;

    closed spec fn view(&self) -> VmModel {
        VmModel {
            id: self.id,
            memory: self.memory@,
            vcpus: self.vcpus@.map_values(|c: Vcpu| c@),
        }
    }
}

impl View for State {
    type V = RegistryModel;

    closed spec fn view(&self) -> RegistryModel {
        RegistryModel {
            vms: self.vms@.map_values(|vm: Vm| vm@),
            next_vm_id: self.next_vm_id,
            next_vcpu_id: self.next_vcpu_id,
        }
    }
}

/// A buffer of `n` zero bytes.
fn zeroed(n: usize) -> (v: Vec<u8>)
    requires
        allocatable(n as nat),
    ensures
        v@ == zeros(n as nat),
{
    let v = vec![0u8; n];
    assert(v@ =~= zeros(n as nat));
    v
}

impl State {
    /// Every registry is well-formed: see [`RegistryModel::wf`].
    #[verifier::type_invariant]
    closed spec fn inv(self) -> bool {
        self@.wf()
    }

    /// The empty registry; both counters start at one.
    pub fn new() -> (s: State)
        ensures
            s@.wf(),
            s@ == RegistryModel::fresh(),
    {
        let s = State { vms: Vec::new(), next_vm_id: FIRST_ID, next_vcpu_id: FIRST_ID };
        assert(s@.vms =~= Seq::<VmModel>::empty());
        s
    }

    /// An empty registry whose counters start at the given identifiers, so
    /// that none below them is ever handed out. An identifier below the
    /// first one stands for the first.
    pub fn starting_at(next_vm_id: u64, next_vcpu_id: u64) -> (s: State)
        ensures
            s@.wf(),
            s@ == (RegistryModel {
                vms: Seq::empty(),
                next_vm_id: if next_vm_id < FIRST_ID {
                    FIRST_ID
                } else {
                    next_vm_id
                },
                next_vcpu_id: if next_vcpu_id < FIRST_ID {
                    FIRST_ID
                } else {
                    next_vcpu_id
                },
            }),
    {
        let s = State {
            vms: Vec::new(),
            next_vm_id: if next_vm_id < FIRST_ID {
                FIRST_ID
            } else {
                next_vm_id
            },
            next_vcpu_id: if next_vcpu_id < FIRST_ID {
                FIRST_ID
            } else {
                next_vcpu_id
            },
        };
        assert(s@.vms =~= Seq::<VmModel>::empty());
        s
    }

    /// Number of machines.
    pub fn vm_count(&self) -> (n: usize)
        ensures
            self@.wf(),
            n == self@.vms.len(),
    {
        proof {
            use_type_invariant(self);
        }
        self.vms.len()
    }

    /// Takes the machines out of the registry, which is left without any.
    /// A method that changes a machine works on the machines taken out and
    /// puts them back, so that the registry is well-formed whenever it is
    /// whole.
    fn take_vms(&mut self) -> (vms: Vec<Vm>)
        ensures
            vms == old(self).vms,
            final(self).vms@.len() == 0,
            final(self).next_vm_id == old(self).next_vm_id,
            final(self).next_vcpu_id == old(self).next_vcpu_id,
    {
        proof {
            use_type_invariant(&*self);
        }
        let mut vms: Vec<Vm> = Vec::new();
        core::mem::swap(&mut self.vms, &mut vms);
        vms
    }

    /// Puts machines into a registry that has none.
    fn put_vms(&mut self, vms: Vec<Vm>)
        requires
            old(self).vms@.len() == 0,
            (RegistryModel {
                vms: vms@.map_values(|vm: Vm| vm@),
                next_vm_id: old(self).next_vm_id,
                next_vcpu_id: old(self).next_vcpu_id,
            }).wf(),
        ensures
            final(self).vms == vms,
            final(self).next_vm_id == old(self).next_vm_id,
            final(self).next_vcpu_id == old(self).next_vcpu_id,
    {
        let mut vms = vms;
        core::mem::swap(&mut self.vms, &mut vms);
    }

    fn find_vm(&self, target: Option<u64>) -> (r: Option<usize>)
        ensures
            self@.wf(),
            match r {
                Some(i) => self@.vm_index(target) == Some(i as int) && i < self.vms@.len(),
                None => self@.vm_index(target) is None,
            },
    {
        proof {
            use_type_invariant(self);
        }
        match target {
            None => {
                if self.vms.len() > 0 {
                    Some(0)
                } else {
                    None
                }
            },
            Some(id) => {
                let mut i: usize = 0;
                while i < self.vms.len()
                    invariant
                        self@.wf(),
                        target == Some(id),
                        i <= self.vms@.len(),
                        forall|k: int| 0 <= k < i ==> (#[trigger] self@.vms[k]).id != id,
                    decreases self.vms@.len() - i,
                {
                    if self.vms[i].id == id {
                        proof {
                            assert(self@.vms[i as int].id == id);
                            assert(self@.has_vm(id));
                            let c = self@.vm_slot(id);
                            assert(c == i) by {
                                if c < i {
                                    assert(self@.vms[c].id < self@.vms[i as int].id);
                                } else if c > i {
                                    assert(self@.vms[i as int].id < self@.vms[c].id);
                                }
                            }
                        }
                        return Some(i);
                    }
                    i = i + 1;
                }
                None
            },
        }
    }

    fn find_vcpu(&self, target: Option<u64>) -> (r: Option<(usize, usize)>)
        ensures
            self@.wf(),
            match r {
                Some((i, j)) => {
                    &&& self@.vcpu_place(target) == Some(Place { vm: i as int, slot: j as int })
                    &&& i < self.vms@.len()
                    &&& j < self.vms@[i as int].vcpus@.len()
                },
                None => self@.vcpu_place(target) is None,
            },
    {
        proof {
            use_type_invariant(self);
        }
        match target {
            None => {
                if self.vms.len() > 0 && self.vms[0].vcpus.len() > 0 {
                    assert(self@.holds(Place { vm: 0, slot: 0 }));
                    Some((0, 0))
                } else {
                    assert(!self@.holds(Place { vm: 0, slot: 0 }));
                    None
                }
            },
            Some(id) => {
                let mut i: usize = 0;
                while i < self.vms.len()
                    invariant
                        self@.wf(),
                        target == Some(id),
                        i <= self.vms@.len(),
                        forall|p: Place| #[trigger]
                            self@.holds(p) && p.vm < i ==> self@.vcpu_at(p).id != id,
                    decreases self.vms@.len() - i,
                {
                    let mut j: usize = 0;
                    while j < self.vms[i].vcpus.len()
                        invariant
                            self@.wf(),
                            target == Some(id),
                            i < self.vms@.len(),
                            j <= self.vms@[i as int].vcpus@.len(),
                            forall|p: Place| #[trigger]
                                self@.holds(p) && p.vm < i ==> self@.vcpu_at(p).id != id,
                            forall|p: Place| #[trigger]
                                self@.holds(p) && p.vm == i && p.slot < j ==> self@.vcpu_at(p).id
                                    != id,
                        decreases self.vms@[i as int].vcpus@.len() - j,
                    {
                        if self.vms[i].vcpus[j].id == id {
                            proof {
                                let here = Place { vm: i as int, slot: j as int };
                                assert(self@.holds(here));
                                assert(self@.vcpu_at(here).id == id);
                                assert(self@.has_vcpu(id));
                                let c = self@.vcpu_slot(id);
                                assert(self@.holds(c) && self@.vcpu_at(c).id == id);
                                assert(c == here);
                            }
                            return Some((i, j));
                        }
                        j = j + 1;
                    }
                    i = i + 1;
                }
                proof {
                    assert forall|p: Place| #[trigger] self@.holds(p) implies self@.vcpu_at(p).id
                        != id by {}
                }
                None
            },
        }
    }

    /// Whether a machine has the identifier `id`.
    pub fn contains_vm(&self, id: u64) -> (b: bool)
        ensures
            self@.wf(),
            b == self@.has_vm(id),
    {
        self.find_vm(Some(id)).is_some()
    }

    /// Whether a CPU has the identifier `id`.
    pub fn contains_vcpu(&self, id: u64) -> (b: bool)
        ensures
            self@.wf(),
            b == self@.has_vcpu(id),
    {
        self.find_vcpu(Some(id)).is_some()
    }

    /// Creates a machine with `memory_size` zero bytes of guest memory and no
    /// CPU, and returns its identifier, which is the next of the counter.
    /// Fails, and changes nothing, when the counter is spent or the memory
    /// cannot be allocated.
    pub fn create_vm(&mut self, memory_size: usize) -> (r: Result<u64, RegistryError>)
        ensures
            final(self)@.wf(),
            match r {
                Ok(id) => {
                    &&& old(self)@.next_vm_id < u64::MAX
                    &&& allocatable(memory_size as nat)
                    &&& id == old(self)@.next_vm_id
                    &&& final(self)@ == old(self)@.create_vm(memory_size as nat)
                },
                Err(e) => {
                    &&& final(self)@ == old(self)@
                    &&& e == if old(self)@.next_vm_id == u64::MAX {
                        RegistryError::Exhausted
                    } else {
                        RegistryError::TooLarge
                    }
                    &&& old(self)@.next_vm_id == u64::MAX || !allocatable(memory_size as nat)
                },
            },
    {
        proof {
            use_type_invariant(&*self);
        }
        if self.next_vm_id == u64::MAX {
            return Err(RegistryError::Exhausted);
        }
        if memory_size > isize::MAX as usize {
            return Err(RegistryError::TooLarge);
        }
        let id = self.next_vm_id;
        let made = Vm { id, memory: zeroed(memory_size), vcpus: Vec::new() };
        let mut vms = self.take_vms();
        vms.push(made);
        proof {
            let vm = vms@[vms@.len() - 1];
            assert(vm@.vcpus =~= Seq::<VcpuModel>::empty());
            assert(vm@ == VmModel::fresh(id, memory_size as nat));
            assert(vms@.map_values(|vm: Vm| vm@) =~= old(self)@.vms.push(
                VmModel::fresh(id, memory_size as nat),
            ));
            lemma_create_vm_wf(old(self)@, memory_size as nat);
        }
        self.next_vm_id = id + 1;
        self.put_vms(vms);
        Ok(id)
    }

    /// Hands out the next CPU identifier and attaches a zeroed CPU with it to
    /// the first machine. With no machine the identifier is spent all the
    /// same and `vm` is `None`. Fails, and changes nothing, when the counter
    /// is spent.
    pub fn create_vcpu(&mut self) -> (r: Result<NewVcpu, RegistryError>)
        ensures
            final(self)@.wf(),
            match r {
                Ok(made) => {
                    &&& old(self)@.next_vcpu_id < u64::MAX
                    &&& made.id == old(self)@.next_vcpu_id
                    &&& made.vm == if old(self)@.vms.len() > 0 {
                        Some(old(self)@.vms[0].id)
                    } else {
                        None
                    }
                    &&& final(self)@ == old(self)@.create_vcpu()
                },
                Err(e) => {
                    &&& e == RegistryError::Exhausted
                    &&& old(self)@.next_vcpu_id == u64::MAX
                    &&& final(self)@ == old(self)@
                },
            },
    {
        proof {
            use_type_invariant(&*self);
        }
        if self.next_vcpu_id == u64::MAX {
            return Err(RegistryError::Exhausted);
        }
        let id = self.next_vcpu_id;
        proof {
            lemma_create_vcpu_wf(old(self)@);
        }
        let mut vms = self.take_vms();
        self.next_vcpu_id = id + 1;
        let vm = if vms.len() > 0 {
            let vm_id = vms[0].id;
            vms[0].vcpus.push(Vcpu { id, regs: [0u8; REGS_SIZE], sregs: [0u8; SREGS_SIZE] });
            proof {
                let made = vms@[0].vcpus@[vms@[0].vcpus@.len() - 1];
                assert(made@.regs =~= zeros(REGS_SIZE as nat));
                assert(made@.sregs =~= zeros(SREGS_SIZE as nat));
                assert(vms@[0]@.vcpus =~= old(self).vms@[0]@.vcpus.push(VcpuModel::fresh(id)));
                assert(vms@.map_values(|vm: Vm| vm@) =~= old(self)@.create_vcpu().vms);
            }
            Some(vm_id)
        } else {
            assert(vms@.map_values(|vm: Vm| vm@) =~= old(self)@.vms);
            None
        };
        self.put_vms(vms);
        Ok(NewVcpu { id, vm })
    }

    /// Replaces the guest memory of a machine by `size` zero bytes. Fails,
    /// and changes nothing, when the machine does not exist or the memory
    /// cannot be allocated.
    pub fn set_memory_region(&mut self, target: Option<u64>, size: usize) -> (r: Result<
        (),
        RegistryError,
    >)
        ensures
            final(self)@.wf(),
            match old(self)@.vm_index(target) {
                None => r == Err::<(), RegistryError>(RegistryError::NotFound) && final(self)@
                    == old(self)@,
                Some(i) => if allocatable(size as nat) {
                    &&& r is Ok
                    &&& final(self)@ == old(self)@.remap(i, size as nat)
                    &&& final(self)@.vm_index(target) == Some(i)
                    &&& final(self)@.vms[i].memory.len() == size
                    &&& forall|k: int| 0 <= k < size ==> final(self)@.vms[i].memory[k] == 0
                } else {
                    r == Err::<(), RegistryError>(RegistryError::TooLarge) && final(self)@ == old(
                        self,
                    )@
                },
            },
    {
        match self.find_vm(target) {
            None => Err(RegistryError::NotFound),
            Some(i) => {
                if size > isize::MAX as usize {
                    return Err(RegistryError::TooLarge);
                }
                let memory = zeroed(size);
                let mut vms = self.take_vms();
                vms[i].memory = memory;
                proof {
                    assert(vms@[i as int]@.vcpus =~= old(self).vms@[i as int]@.vcpus);
                    assert(vms@.map_values(|vm: Vm| vm@) =~= old(self)@.remap(
                        i as int,
                        size as nat,
                    ).vms);
                    lemma_remap_wf(old(self)@, target, size as nat);
                }
                self.put_vms(vms);
                Ok(())
            },
        }
    }

    /// The guest memory of a machine.
    pub fn memory(&self, target: Option<u64>) -> (r: Result<&Vec<u8>, RegistryError>)
        ensures
            self@.wf(),
            match self@.vm_index(target) {
                None => r == Err::<&Vec<u8>, RegistryError>(RegistryError::NotFound),
                Some(i) => r is Ok && r->Ok_0@ == self@.vms[i].memory,
            },
    {
        match self.find_vm(target) {
            None => Err(RegistryError::NotFound),
            Some(i) => Ok(&self.vms[i].memory),
        }
    }

    /// The register block of a CPU.
    pub fn get_registers(&self, target: Option<u64>) -> (r: Result<[u8; REGS_SIZE], RegistryError>)
        ensures
            self@.wf(),
            match self@.vcpu_place(target) {
                None => r == Err::<[u8; REGS_SIZE], RegistryError>(RegistryError::NotFound),
                Some(p) => r is Ok && r->Ok_0@ == self@.vcpu_at(p).regs,
            },
    {
        match self.find_vcpu(target) {
            None => Err(RegistryError::NotFound),
            Some((i, j)) => Ok(self.vms[i].vcpus[j].regs),
        }
    }

    /// The special-register block of a CPU.
    pub fn get_special_registers(&self, target: Option<u64>) -> (r: Result<
        [u8; SREGS_SIZE],
        RegistryError,
    >)
        ensures
            self@.wf(),
            match self@.vcpu_place(target) {
                None => r == Err::<[u8; SREGS_SIZE], RegistryError>(RegistryError::NotFound),
                Some(p) => r is Ok && r->Ok_0@ == self@.vcpu_at(p).sregs,
            },
    {
        match self.find_vcpu(target) {
            None => Err(RegistryError::NotFound),
            Some((i, j)) => Ok(self.vms[i].vcpus[j].sregs),
        }
    }

    /// Sets the register block of a CPU. Fails, and changes nothing, when the
    /// CPU does not exist.
    pub fn set_registers(&mut self, target: Option<u64>, block: &[u8; REGS_SIZE]) -> (r: Result<
        (),
        RegistryError,
    >)
        ensures
            final(self)@.wf(),
            match old(self)@.vcpu_place(target) {
                None => r == Err::<(), RegistryError>(RegistryError::NotFound) && final(self)@
                    == old(self)@,
                Some(p) => r is Ok && final(self)@ == old(self)@.set_regs(p, block@),
            },
    {
        match self.find_vcpu(target) {
            None => Err(RegistryError::NotFound),
            Some((i, j)) => {
                let mut vms = self.take_vms();
                vms[i].vcpus[j].regs = *block;
                proof {
                    let p = Place { vm: i as int, slot: j as int };
                    let after = old(self)@.set_regs(p, block@);
                    assert(vms@[i as int]@.vcpus =~= after.vms[i as int].vcpus);
                    assert(vms@.map_values(|vm: Vm| vm@) =~= after.vms);
                    lemma_set_regs_wf(old(self)@, target, block@);
                }
                self.put_vms(vms);
                Ok(())
            },
        }
    }

    /// Sets the special-register block of a CPU. Fails, and changes nothing,
    /// when the CPU does not exist.
    pub fn set_special_registers(&mut self, target: Option<u64>, block: &[u8; SREGS_SIZE]) -> (r:
        Result<(), RegistryError>)
        ensures
            final(self)@.wf(),
            match old(self)@.vcpu_place(target) {
                None => r == Err::<(), RegistryError>(RegistryError::NotFound) && final(self)@
                    == old(self)@,
                Some(p) => r is Ok && final(self)@ == old(self)@.set_sregs(p, block@),
            },
    {
        match self.find_vcpu(target) {
            None => Err(RegistryError::NotFound),
            Some((i, j)) => {
                let mut vms = self.take_vms();
                vms[i].vcpus[j].sregs = *block;
                proof {
                    let p = Place { vm: i as int, slot: j as int };
                    let after = old(self)@.set_sregs(p, block@);
                    assert(vms@[i as int]@.vcpus =~= after.vms[i as int].vcpus);
                    assert(vms@.map_values(|vm: Vm| vm@) =~= after.vms);
                    lemma_set_sregs_wf(old(self)@, target, block@);
                }
                self.put_vms(vms);
                Ok(())
            },
        }
    }
}

/// Creating a machine keeps the registry well-formed, leaves every older
/// machine as it was, and adds one that no older identifier names.
pub proof fn lemma_create_vm_wf(m: RegistryModel, size: nat)
    requires
        m.wf(),
        m.next_vm_id < u64::MAX,
    ensures
        m.create_vm(size).wf(),
        !m.has_vm(m.next_vm_id),
        m.create_vm(size).has_vm(m.next_vm_id),
        forall|id: u64| m.has_vm(id) ==> m.create_vm(size).has_vm(id),
        m.create_vm(size).vm_index(Some(m.next_vm_id)) == Some(m.vms.len() as int),
{
    let n = m.create_vm(size);
    let last = m.vms.len() as int;
    assert(n.vms[last].id == m.next_vm_id);
    assert forall|p: Place| #[trigger] n.holds(p) implies m.holds(p) && n.vcpu_at(p) == m.vcpu_at(
        p,
    ) by {
        if p.vm == last {
            assert(n.vms[last].vcpus.len() == 0);
        }
    }
    assert forall|id: u64| m.has_vm(id) implies n.has_vm(id) by {
        let i = m.vm_slot(id);
        assert(n.vms[i].id == id);
    }
    assert(n.has_vm(m.next_vm_id));
    let c = n.vm_slot(m.next_vm_id);
    assert(c == last) by {
        if c < last {
            assert(n.vms[c] == m.vms[c]);
        }
    }
}

/// Creating a CPU keeps the registry well-formed.
pub proof fn lemma_create_vcpu_wf(m: RegistryModel)
    requires
        m.wf(),
        m.next_vcpu_id < u64::MAX,
    ensures
        m.create_vcpu().wf(),
        !m.has_vcpu(m.next_vcpu_id),
        m.vms.len() > 0 ==> m.create_vcpu().has_vcpu(m.next_vcpu_id),
        forall|id: u64| m.has_vcpu(id) ==> m.create_vcpu().has_vcpu(id),
        forall|id: u64| m.has_vm(id) <==> m.create_vcpu().has_vm(id),
{
    let n = m.create_vcpu();
    assert(n.vms.len() == m.vms.len());
    assert forall|i: int| 0 <= i < n.vms.len() implies (#[trigger] n.vms[i]).id == m.vms[i].id by {}
    if m.vms.len() > 0 {
        let added = Place { vm: 0, slot: m.vms[0].vcpus.len() as int };
        assert(n.holds(added));
        assert(n.vcpu_at(added) == VcpuModel::fresh(m.next_vcpu_id));
        assert forall|p: Place| #[trigger] n.holds(p) && p != added implies m.holds(p)
            && n.vcpu_at(p) == m.vcpu_at(p) by {}
        assert forall|p: Place| #[trigger] m.holds(p) implies n.holds(p) && n.vcpu_at(p)
            == m.vcpu_at(p) by {}
        assert forall|p: Place| #[trigger] n.holds(p) implies n.vcpu_at(p).wf() && FIRST_ID
            <= n.vcpu_at(p).id < n.next_vcpu_id by {
            if p != added {
                assert(m.holds(p));
            }
        }
        assert forall|p: Place, q: Place|
            #[trigger] n.holds(p) && #[trigger] n.holds(q) && n.vcpu_at(p).id == n.vcpu_at(
                q,
            ).id implies p == q by {
            if p != added {
                assert(m.holds(p));
            }
            if q != added {
                assert(m.holds(q));
            }
        }
    } else {
        assert forall|p: Place| #[trigger] n.holds(p) implies m.holds(p) by {}
    }
    assert forall|id: u64| m.has_vcpu(id) implies n.has_vcpu(id) by {
        let p = m.vcpu_slot(id);
        assert(n.holds(p) && n.vcpu_at(p).id == id);
    }
    assert forall|id: u64| m.has_vm(id) <==> n.has_vm(id) by {
        if m.has_vm(id) {
            let i = m.vm_slot(id);
            assert(n.vms[i].id == id);
        }
        if n.has_vm(id) {
            let i = n.vm_slot(id);
            assert(m.vms[i].id == id);
        }
    }
    if m.has_vcpu(m.next_vcpu_id) {
        let p = m.vcpu_slot(m.next_vcpu_id);
        assert(m.holds(p));
    }
}

/// Replacing a machine's memory keeps the registry well-formed and the
/// machine where it was.
pub proof fn lemma_remap_wf(m: RegistryModel, target: Option<u64>, size: nat)
    requires
        m.wf(),
        m.vm_index(target) is Some,
    ensures
        m.remap(m.vm_index(target)->0, size).wf(),
        m.remap(m.vm_index(target)->0, size).vm_index(target) == m.vm_index(target),
        0 <= m.vm_index(target)->0 < m.vms.len(),
        forall|id: u64| m.has_vm(id) <==> m.remap(m.vm_index(target)->0, size).has_vm(id),
{
    let i = m.vm_index(target)->0;
    lemma_vm_index_bounds(m, target);
    let n = m.remap(i, size);
    assert forall|k: int| 0 <= k < n.vms.len() implies (#[trigger] n.vms[k]).id == m.vms[k].id
        && n.vms[k].vcpus == m.vms[k].vcpus by {}
    assert forall|id: u64| m.has_vm(id) <==> n.has_vm(id) by {
        if m.has_vm(id) {
            assert(n.vms[m.vm_slot(id)].id == id);
        }
        if n.has_vm(id) {
            assert(m.vms[n.vm_slot(id)].id == id);
        }
    }
    assert forall|p: Place| #[trigger] n.holds(p) implies m.holds(p) && n.vcpu_at(p) == m.vcpu_at(
        p,
    ) by {}
    match target {
        None => {},
        Some(id) => {
            assert(n.vms[i].id == id);
            let c = n.vm_slot(id);
            assert(c == i) by {
                if c < i {
                    assert(n.vms[c].id < n.vms[i].id);
                } else if c > i {
                    assert(n.vms[i].id < n.vms[c].id);
                }
            }
        },
    }
}

/// The machine that a request means is one of the registry's.
pub proof fn lemma_vm_index_bounds(m: RegistryModel, target: Option<u64>)
    requires
        m.vm_index(target) is Some,
    ensures
        0 <= m.vm_index(target)->0 < m.vms.len(),
        target matches Some(id) ==> m.vms[m.vm_index(target)->0].id == id,
{
}

/// The CPU that a request means is one of the registry's.
pub proof fn lemma_vcpu_place_holds(m: RegistryModel, target: Option<u64>)
    requires
        m.vcpu_place(target) is Some,
    ensures
        m.holds(m.vcpu_place(target)->0),
        target matches Some(id) ==> m.vcpu_at(m.vcpu_place(target)->0).id == id,
{
}

/// Replacing a CPU by one with the same identifier and well-formed blocks
/// keeps the registry well-formed and every CPU where it was.
pub proof fn lemma_with_vcpu_wf(m: RegistryModel, target: Option<u64>, vcpu: VcpuModel)
    requires
        m.wf(),
        m.vcpu_place(target) is Some,
        vcpu.wf(),
        vcpu.id == m.vcpu_at(m.vcpu_place(target)->0).id,
    ensures
        m.with_vcpu(m.vcpu_place(target)->0, vcpu).wf(),
        m.with_vcpu(m.vcpu_place(target)->0, vcpu).vcpu_place(target) == m.vcpu_place(target),
        m.with_vcpu(m.vcpu_place(target)->0, vcpu).vcpu_at(m.vcpu_place(target)->0) == vcpu,
        forall|id: u64| m.has_vm(id) <==> m.with_vcpu(m.vcpu_place(target)->0, vcpu).has_vm(id),
{
    let at = m.vcpu_place(target)->0;
    lemma_vcpu_place_holds(m, target);
    let n = m.with_vcpu(at, vcpu);
    assert forall|k: int| 0 <= k < n.vms.len() implies (#[trigger] n.vms[k]).id == m.vms[k].id by {}
    assert forall|id: u64| m.has_vm(id) <==> n.has_vm(id) by {
        if m.has_vm(id) {
            assert(n.vms[m.vm_slot(id)].id == id);
        }
        if n.has_vm(id) {
            assert(m.vms[n.vm_slot(id)].id == id);
        }
    }
    assert forall|p: Place| #[trigger] n.holds(p) <==> m.holds(p) by {}
    assert forall|p: Place| #[trigger] n.holds(p) implies n.vcpu_at(p).id == m.vcpu_at(p).id
        && n.vcpu_at(p).wf() by {
        assert(m.holds(p));
    }
    assert forall|p: Place, q: Place|
        #[trigger] n.holds(p) && #[trigger] n.holds(q) && n.vcpu_at(p).id == n.vcpu_at(q).id implies p
        == q by {
        assert(m.holds(p) && m.holds(q));
    }
    assert(n.holds(at));
    match target {
        None => {},
        Some(id) => {
            assert(n.vcpu_at(at).id == id);
            assert(n.has_vcpu(id));
            let c = n.vcpu_slot(id);
            assert(n.holds(c));
        },
    }
}

/// Setting a CPU's register block keeps the registry well-formed.
pub proof fn lemma_set_regs_wf(m: RegistryModel, target: Option<u64>, block: Seq<u8>)
    requires
        m.wf(),
        m.vcpu_place(target) is Some,
        block.len() == REGS_SIZE,
    ensures
        m.set_regs(m.vcpu_place(target)->0, block).wf(),
        m.set_regs(m.vcpu_place(target)->0, block).vcpu_place(target) == m.vcpu_place(target),
        forall|id: u64| m.has_vm(id) <==> m.set_regs(m.vcpu_place(target)->0, block).has_vm(id),
{
    let at = m.vcpu_place(target)->0;
    lemma_vcpu_place_holds(m, target);
    lemma_with_vcpu_wf(m, target, VcpuModel { regs: block, ..m.vcpu_at(at) });
}

/// Setting a CPU's special-register block keeps the registry well-formed.
pub proof fn lemma_set_sregs_wf(m: RegistryModel, target: Option<u64>, block: Seq<u8>)
    requires
        m.wf(),
        m.vcpu_place(target) is Some,
        block.len() == SREGS_SIZE,
    ensures
        m.set_sregs(m.vcpu_place(target)->0, block).wf(),
        m.set_sregs(m.vcpu_place(target)->0, block).vcpu_place(target) == m.vcpu_place(target),
        forall|id: u64| m.has_vm(id) <==> m.set_sregs(m.vcpu_place(target)->0, block).has_vm(id),
{
    let at = m.vcpu_place(target)->0;
    lemma_vcpu_place_holds(m, target);
    lemma_with_vcpu_wf(m, target, VcpuModel { sregs: block, ..m.vcpu_at(at) });
}

/// The registry after machines of the given memory sizes were created one
/// after another.
pub open spec fn after_vm_creations(m: RegistryModel, sizes: Seq<nat>) -> RegistryModel
    decreases sizes.len(),
{
    if sizes.len() == 0 {
        m
    } else {
        after_vm_creations(m, sizes.drop_last()).create_vm(sizes.last())
    }
}

/// The registry after `count` CPUs were created one after another.
pub open spec fn after_vcpu_creations(m: RegistryModel, count: nat) -> RegistryModel
    decreases count,
{
    if count == 0 {
        m
    } else {
        after_vcpu_creations(m, (count - 1) as nat).create_vcpu()
    }
}

/// Machines created one after another get consecutive identifiers: creation
/// `k` (from zero) hands out the counter's start plus `k`. So the identifiers
/// are strictly increasing and no two are equal; each names a machine of the
/// registry afterwards.
pub proof fn lemma_vm_ids_increase(m: RegistryModel, sizes: Seq<nat>)
    requires
        m.wf(),
        m.next_vm_id + sizes.len() <= u64::MAX,
    ensures
        after_vm_creations(m, sizes).wf(),
        after_vm_creations(m, sizes).next_vm_id == m.next_vm_id + sizes.len(),
        after_vm_creations(m, sizes).next_vcpu_id == m.next_vcpu_id,
        after_vm_creations(m, sizes).vms.len() == m.vms.len() + sizes.len(),
        forall|k: int|
            0 <= k < sizes.len() ==> #[trigger] after_vm_creations(m, sizes.take(k)).next_vm_id
                == m.next_vm_id + k,
        forall|i: int, j: int|
            0 <= i < j < sizes.len() ==> #[trigger] after_vm_creations(m, sizes.take(i)).next_vm_id
                < #[trigger] after_vm_creations(m, sizes.take(j)).next_vm_id,
        forall|k: int|
            0 <= k < sizes.len() ==> after_vm_creations(m, sizes).has_vm(
                #[trigger] after_vm_creations(m, sizes.take(k)).next_vm_id,
            ),
        forall|id: u64| m.has_vm(id) ==> after_vm_creations(m, sizes).has_vm(id),
    decreases sizes.len(),
{
    if sizes.len() == 0 {
    } else {
        let init = sizes.drop_last();
        let before = after_vm_creations(m, init);
        lemma_vm_ids_increase(m, init);
        lemma_create_vm_wf(before, sizes.last());
        let all = after_vm_creations(m, sizes);
        assert forall|k: int| 0 <= k < sizes.len() implies #[trigger] after_vm_creations(
            m,
            sizes.take(k),
        ).next_vm_id == m.next_vm_id + k && all.has_vm(
            after_vm_creations(m, sizes.take(k)).next_vm_id,
        ) by {
            if k < init.len() {
                assert(sizes.take(k) =~= init.take(k));
                assert(before.has_vm(after_vm_creations(m, init.take(k)).next_vm_id));
            } else {
                assert(sizes.take(k) =~= init);
            }
        }
    }
}

/// CPUs created one after another get consecutive identifiers: creation `k`
/// (from zero) hands out the counter's start plus `k`. So the identifiers are
/// strictly increasing and no two are equal.
pub proof fn lemma_vcpu_ids_increase(m: RegistryModel, count: nat)
    requires
        m.wf(),
        m.next_vcpu_id + count <= u64::MAX,
    ensures
        after_vcpu_creations(m, count).wf(),
        after_vcpu_creations(m, count).next_vcpu_id == m.next_vcpu_id + count,
        after_vcpu_creations(m, count).next_vm_id == m.next_vm_id,
        forall|k: nat|
            k < count ==> #[trigger] after_vcpu_creations(m, k).next_vcpu_id == m.next_vcpu_id + k,
        forall|i: nat, j: nat|
            i < j < count ==> #[trigger] after_vcpu_creations(m, i).next_vcpu_id
                < #[trigger] after_vcpu_creations(m, j).next_vcpu_id,
        forall|k: nat|
            k < count && m.vms.len() > 0 ==> after_vcpu_creations(m, count).has_vcpu(
                #[trigger] after_vcpu_creations(m, k).next_vcpu_id,
            ),
    decreases count,
{
    if count > 0 {
        let before = after_vcpu_creations(m, (count - 1) as nat);
        lemma_vcpu_ids_increase(m, (count - 1) as nat);
        lemma_create_vcpu_wf(before);
        lemma_vcpu_creations_keep_vms(m, (count - 1) as nat);
        let all = after_vcpu_creations(m, count);
        assert forall|k: nat| k < count && m.vms.len() > 0 implies all.has_vcpu(
            #[trigger] after_vcpu_creations(m, k).next_vcpu_id,
        ) by {
            if k < count - 1 {
                assert(before.has_vcpu(after_vcpu_creations(m, k).next_vcpu_id));
            }
        }
    }
}

/// Creating CPUs adds no machine and takes none away.
pub proof fn lemma_vcpu_creations_keep_vms(m: RegistryModel, count: nat)
    ensures
        after_vcpu_creations(m, count).vms.len() == m.vms.len(),
    decreases count,
{
    if count > 0 {
        lemma_vcpu_creations_keep_vms(m, (count - 1) as nat);
    }
}

/// A register block that was set is the block that is read back, byte for
/// byte, whether the request names the CPU or means the first one.
pub proof fn lemma_set_then_get_registers(m: RegistryModel, target: Option<u64>, block: Seq<u8>)
    requires
        m.wf(),
        m.vcpu_place(target) is Some,
        block.len() == REGS_SIZE,
    ensures
        ({
            let after = m.set_regs(m.vcpu_place(target)->0, block);
            &&& after.wf()
            &&& after.vcpu_place(target) is Some
            &&& after.vcpu_at(after.vcpu_place(target)->0).regs == block
            &&& after.vcpu_at(after.vcpu_place(target)->0).sregs == m.vcpu_at(
                m.vcpu_place(target)->0,
            ).sregs
        }),
{
    let at = m.vcpu_place(target)->0;
    lemma_vcpu_place_holds(m, target);
    lemma_with_vcpu_wf(m, target, VcpuModel { regs: block, ..m.vcpu_at(at) });
}

/// A special-register block that was set is the block that is read back,
/// byte for byte, whether the request names the CPU or means the first one.
pub proof fn lemma_set_then_get_special_registers(
    m: RegistryModel,
    target: Option<u64>,
    block: Seq<u8>,
)
    requires
        m.wf(),
        m.vcpu_place(target) is Some,
        block.len() == SREGS_SIZE,
    ensures
        ({
            let after = m.set_sregs(m.vcpu_place(target)->0, block);
            &&& after.wf()
            &&& after.vcpu_place(target) is Some
            &&& after.vcpu_at(after.vcpu_place(target)->0).sregs == block
            &&& after.vcpu_at(after.vcpu_place(target)->0).regs == m.vcpu_at(
                m.vcpu_place(target)->0,
            ).regs
        }),
{
    let at = m.vcpu_place(target)->0;
    lemma_vcpu_place_holds(m, target);
    lemma_with_vcpu_wf(m, target, VcpuModel { sregs: block, ..m.vcpu_at(at) });
}

/// After a machine's memory region was set to `size` bytes, its memory has
/// exactly `size` bytes and every one is zero.
pub proof fn lemma_region_is_zeroed(m: RegistryModel, target: Option<u64>, size: nat)
    requires
        m.wf(),
        m.vm_index(target) is Some,
    ensures
        ({
            let after = m.remap(m.vm_index(target)->0, size);
            &&& after.wf()
            &&& after.vm_index(target) == m.vm_index(target)
            &&& after.vms[after.vm_index(target)->0].memory.len() == size
            &&& forall|k: int|
                0 <= k < size ==> after.vms[after.vm_index(target)->0].memory[k] == 0
        }),
{
    lemma_remap_wf(m, target, size);
}

/// Two machines created one after the other, in whichever order the two
/// requests were served, have different identifiers, and both are found in
/// the registry afterwards, each with its own memory.
pub proof fn lemma_creations_are_not_lost(m: RegistryModel, first: nat, second: nat)
    requires
        m.wf(),
        m.next_vm_id + 2 <= u64::MAX,
    ensures
        ({
            let one = m.create_vm(first);
            let both = one.create_vm(second);
            let a = m.next_vm_id;
            let b = one.next_vm_id;
            &&& both.wf()
            &&& a != b
            &&& both.vm_index(Some(a)) is Some
            &&& both.vm_index(Some(b)) is Some
            &&& both.vm_index(Some(a)) != both.vm_index(Some(b))
            &&& both.vms[both.vm_index(Some(a))->0].memory == zeros(first)
            &&& both.vms[both.vm_index(Some(b))->0].memory == zeros(second)
            &&& both.vms.len() == m.vms.len() + 2
        }),
{
    let one = m.create_vm(first);
    let both = one.create_vm(second);
    lemma_create_vm_wf(m, first);
    lemma_create_vm_wf(one, second);
    let a = m.next_vm_id;
    let ia = m.vms.len() as int;
    assert(both.vms[ia].id == a);
    assert(both.has_vm(a));
    let c = both.vm_slot(a);
    assert(c == ia) by {
        if c < ia {
            assert(both.vms[c].id < both.vms[ia].id);
        } else if c > ia {
            assert(both.vms[ia].id < both.vms[c].id);
        }
    }
}

} // verus!
