//! The driver's side: requests, answers, and the loop that runs the guest.
//!
//! The loop is a state machine. The program around the library owns the
//! stream, the clock and the guest image; it performs each command that the
//! machine hands out and reports what came of it. The script is fixed:
//! create a machine and a CPU, register guest memory, load the image, take a
//! baseline of both register blocks, then frame by frame set both blocks,
//! run, and push the frame, until the frame count or the time is used up or
//! the guest stops for a reason that the loop does not know.

use vstd::prelude::*;
use crate::dispatch::{regs_block, sregs_block};
use crate::frame::{
    encode_ppm, frame_of, frame_transfer, framebuffer, holds_frame, ppm_image, transfer_bytes,
    GUEST_BASE, HEIGHT, WIDTH,
};
use crate::registry::{allocatable, zeros};
use crate::wire::{
    encode, le_bytes, le_value, lemma_le_bytes_len, lemma_le_bytes_of_value,
    lemma_le_value_of_bytes, lemma_radix_pow_values, lemma_region_roundtrip,
    lemma_request_roundtrip, operation_of, parse_request, region_bytes, request_bytes,
    u32_from_le, u64_from_le, MemoryRegion, ACK_BYTE, ACK_SIZE, EXIT_SIZE, ID_SIZE,
    KVM_CREATE_VCPU, KVM_CREATE_VM, KVM_EXIT_HLT, KVM_EXIT_IO, KVM_GET_REGS, KVM_GET_SREGS,
    KVM_RUN, KVM_SET_REGS, KVM_SET_SREGS, KVM_SET_USER_MEMORY_REGION, REGS_SIZE, SREGS_SIZE,
};

verus! {

/// Bytes of guest memory that the driver asks for by default.
pub const GUEST_MEMORY: usize = 0x2020_0000;

/// Frames that the loop runs by default.
pub const MAX_FRAMES: u64 = 300;

/// Milliseconds after which the loop starts no further frame by default.
pub const TIMEOUT_MS: u64 = 10_000;

/// Milliseconds that the loop rests after each frame by default.
pub const FRAME_PAUSE_MS: u64 = 40;

/// A request of the catalogue with its argument.
#[derive(Debug, PartialEq, Eq)]
pub enum Request {
    CreateVm,
    CreateVcpu,
    SetMemoryRegion(MemoryRegion),
    SetRegs([u8; REGS_SIZE]),
    GetRegs,
    SetSregs([u8; SREGS_SIZE]),
    GetSregs,
    Run,
}

impl Request {
    /// The operation code.
    pub open spec fn code(self) -> u64 {
        match self {
            Request::CreateVm => KVM_CREATE_VM,
            Request::CreateVcpu => KVM_CREATE_VCPU,
            Request::SetMemoryRegion(_) => KVM_SET_USER_MEMORY_REGION,
            Request::SetRegs(_) => KVM_SET_REGS,
            Request::GetRegs => KVM_GET_REGS,
            Request::SetSregs(_) => KVM_SET_SREGS,
            Request::GetSregs => KVM_GET_SREGS,
            Request::Run => KVM_RUN,
        }
    }

    /// The argument bytes.
    pub open spec fn argument(self) -> Seq<u8> {
        match self {
            Request::SetMemoryRegion(region) => region_bytes(region),
            Request::SetRegs(block) => block@,
            Request::SetSregs(block) => block@,
            _ => Seq::empty(),
        }
    }

    /// The request as it goes over the wire.
    pub open spec fn wire(self) -> Seq<u8> {
        request_bytes(self.code(), self.argument())
    }

    /// Number of bytes that answer the request.
    pub open spec fn answer_len(self) -> nat {
        operation_of(self.code()).response_len()
    }

    /// Frames the request.
    pub fn encode(&self) -> (out: Vec<u8>)
        ensures
            out@ == self.wire(),
    {
        match self {
            Request::CreateVm => encode(KVM_CREATE_VM, None),
            Request::CreateVcpu => encode(KVM_CREATE_VCPU, None),
            Request::SetMemoryRegion(region) => {
                let arg = region.encode();
                encode(KVM_SET_USER_MEMORY_REGION, Some(arg.as_slice()))
            },
            Request::SetRegs(block) => encode(KVM_SET_REGS, Some(block.as_slice())),
            Request::GetRegs => encode(KVM_GET_REGS, None),
            Request::SetSregs(block) => encode(KVM_SET_SREGS, Some(block.as_slice())),
            Request::GetSregs => encode(KVM_GET_SREGS, None),
            Request::Run => encode(KVM_RUN, None),
        }
    }

    /// Number of bytes that answer the request.
    pub fn response_len(&self) -> (n: usize)
        ensures
            n == self.answer_len(),
    {
        match self {
            Request::CreateVm | Request::CreateVcpu => ID_SIZE,
            Request::SetMemoryRegion(_) | Request::SetRegs(_) | Request::SetSregs(_) => ACK_SIZE,
            Request::GetRegs => REGS_SIZE,
            Request::GetSregs => SREGS_SIZE,
            Request::Run => EXIT_SIZE,
        }
    }
}

/// The identifier in the answer to a create request. `None` unless the
/// answer has eight bytes.
pub fn parse_id(answer: &[u8]) -> (r: Option<u64>)
    ensures
        r == if answer@.len() == ID_SIZE {
            Some(le_value(answer@) as u64)
        } else {
            None
        },
{
    if answer.len() != ID_SIZE {
        None
    } else {
        proof {
            lemma_le_bytes_of_value(answer@);
            lemma_radix_pow_values();
        }
        Some(u64_from_le(answer))
    }
}

/// Whether an answer acknowledges: it does when its first byte is one.
pub fn is_ack(answer: &[u8]) -> (ok: bool)
    ensures
        ok == (answer@.len() > 0 && answer@[0] == ACK_BYTE),
{
    answer.len() > 0 && answer[0] == ACK_BYTE
}

/// The exit reason in the answer to a run request. `None` unless the answer
/// has four bytes.
pub fn parse_exit(answer: &[u8]) -> (r: Option<u32>)
    ensures
        r == if answer@.len() == EXIT_SIZE {
            Some(le_value(answer@) as u32)
        } else {
            None
        },
{
    if answer.len() != EXIT_SIZE {
        None
    } else {
        proof {
            lemma_le_bytes_of_value(answer@);
            lemma_radix_pow_values();
        }
        Some(u32_from_le(answer))
    }
}

/// The kinds of exit that the loop tells apart.
#[derive(Clone, Copy, Debug, PartialEq, Eq, Structural)]
pub enum ExitClass {
    /// The guest halted: a frame is ready.
    Halt,
    /// The guest touched an I/O port.
    Io,
    /// Anything else: the loop ends.
    Other,
}

/// The kind of an exit reason.
pub open spec fn exit_class(reason: u32) -> ExitClass {
    if reason == KVM_EXIT_HLT {
        ExitClass::Halt
    } else if reason == KVM_EXIT_IO {
        ExitClass::Io
    } else {
        ExitClass::Other
    }
}

/// The kind of an exit reason.
pub fn classify_exit(reason: u32) -> (class: ExitClass)
    ensures
        class == exit_class(reason),
{
    if reason == KVM_EXIT_HLT {
        ExitClass::Halt
    } else if reason == KVM_EXIT_IO {
        ExitClass::Io
    } else {
        ExitClass::Other
    }
}

/// Why the loop ended.
#[derive(Clone, Copy, Debug, PartialEq, Eq, Structural)]
pub enum Stop {
    /// Every frame was run.
    Completed,
    /// The time was used up before the next frame began.
    TimedOut,
    /// The guest stopped for a reason that the loop does not know.
    Exit(u32),
    /// A request that the loop cannot go on without had no usable answer.
    Failed,
    /// Guest memory ends before the frame does.
    NoFrame,
}

/// Where the loop stands: what it has asked for and waits to hear of.
#[derive(Clone, Copy, Debug, PartialEq, Eq, Structural)]
pub enum Phase {
    CreatingVm,
    CreatingVcpu,
    SettingMemory,
    LoadingImage,
    GettingSregs,
    GettingRegs,
    SettingSregs,
    SettingRegs,
    Running,
    Transferring,
    Pausing,
    Finished(Stop),
}

/// The policy of the loop: it alone decides when the loop ends.
#[derive(Clone, Copy, Debug, PartialEq, Eq, Structural)]
pub struct Config {
    /// Bytes of guest memory.
    pub memory_size: usize,
    /// The loop runs at most this many frames.
    pub max_frames: u64,
    /// The loop starts no frame once more than this many milliseconds have
    /// gone by.
    pub timeout_ms: u64,
    /// Milliseconds to rest after each frame.
    pub pause_ms: u64,
}

/// What the program reports to the loop.
#[derive(Debug, PartialEq, Eq)]
pub enum Input {
    /// The answer to the request, in full.
    Response(Vec<u8>),
    /// The guest image.
    Image(Vec<u8>),
    /// The command was performed and has nothing to report.
    Done,
    /// The command could not be performed.
    Failed,
}

/// What the loop asks the program to do.
#[derive(Debug, PartialEq, Eq)]
pub enum Command {
    /// Write `bytes`, then read exactly `response_len` bytes and report them.
    Request { bytes: Vec<u8>, response_len: usize },
    /// Read the guest image and report it.
    LoadImage,
    /// Write these bytes: the frame tag and the raw pixels.
    Transfer(Vec<u8>),
    /// Rest for this many milliseconds.
    Pause(u64),
    /// End the loop.
    Stop(Stop),
}

/// An input as a value.
pub enum InputModel {
    Response(Seq<u8>),
    Image(Seq<u8>),
    Done,
    Failed,
}

/// A command as a value.
pub enum CommandModel {
    Request { bytes: Seq<u8>, response_len: nat },
    LoadImage,
    Transfer(Seq<u8>),
    Pause(u64),
    Stop(Stop),
}

impl View for Input {
    type V = InputModel;

    open spec fn view(&self) -> InputModel {
        match self {
            Input::Response(bytes) => InputModel::Response(bytes@),
            Input::Image(bytes) => InputModel::Image(bytes@),
            Input::Done => InputModel::Done,
            Input::Failed => InputModel::Failed,
        }
    }
}

impl View for Command {
    type V = CommandModel;

    open spec fn view(&self) -> CommandModel {
        match self {
            Command::Request { bytes, response_len } => CommandModel::Request {
                bytes: bytes@,
                response_len: *response_len as nat,
            },
            Command::LoadImage => CommandModel::LoadImage,
            Command::Transfer(bytes) => CommandModel::Transfer(bytes@),
            Command::Pause(ms) => CommandModel::Pause(*ms),
            Command::Stop(why) => CommandModel::Stop(*why),
        }
    }
}

/// The driver's machine as a value.
pub struct VmmModel {
    pub vm_id: u64,
    pub vcpu_id: u64,
    pub guest_mem: Seq<u8>,
    pub regs: Seq<u8>,
    pub sregs: Seq<u8>,
    pub phase: Phase,
    pub frame: u64,
    pub config: Config,
}

/// The driver's machine: the identifiers it was given, its own copy of guest
/// memory, the register blocks it sends before each run, and where the loop
/// stands.
pub struct Vmm {
    vm_id: u64,
    vcpu_id: u64,
    guest_mem: Vec<u8>,
    regs: [u8; REGS_SIZE],
    sregs: [u8; SREGS_SIZE],
    phase: Phase,
    frame: u64,
    config: Config,
}

impl View for Vmm {
    type V = VmmModel;

    closed spec fn view(&self) -> VmmModel {
        VmmModel {
            vm_id: self.vm_id,
            vcpu_id: self.vcpu_id,
            guest_mem: self.guest_mem@,
            regs: self.regs@,
            sregs: self.sregs@,
            phase: self.phase,
            frame: self.frame,
            config: self.config,
        }
    }
}

/// The command that sends a request.
pub open spec fn ask(request: Request) -> CommandModel {
    CommandModel::Request { bytes: request.wire(), response_len: request.answer_len() }
}

/// The region that the driver registers: all of guest memory, from the guest
/// base address.
pub open spec fn guest_region(config: Config) -> MemoryRegion {
    MemoryRegion {
        slot: 0,
        flags: 0,
        guest_phys_addr: GUEST_BASE as u64,
        memory_size: config.memory_size as u64,
        userspace_addr: 0,
    }
}

/// Guest memory after an image was loaded: the image lies at the start, cut
/// off at `limit` bytes and at the end of memory; the rest is as it was.
pub open spec fn loaded(mem: Seq<u8>, image: Seq<u8>, limit: nat) -> Seq<u8> {
    let len = if image.len() <= limit {
        image.len()
    } else {
        limit
    };
    let len = if len <= mem.len() {
        len
    } else {
        mem.len()
    };
    image.subrange(0, len as int) + mem.subrange(len as int, mem.len() as int)
}

/// A register block of `width` bytes taken from an answer; zero when there
/// is no answer or it has another length.
pub open spec fn block_or_zero(answer: Option<Seq<u8>>, width: nat) -> Seq<u8> {
    match answer {
        Some(bytes) => if bytes.len() == width {
            bytes
        } else {
            zeros(width)
        },
        None => zeros(width),
    }
}

/// The bytes of a response, if the input is one.
pub open spec fn response_of(input: InputModel) -> Option<Seq<u8>> {
    match input {
        InputModel::Response(bytes) => Some(bytes),
        _ => None,
    }
}

impl VmmModel {
    /// The machine as the loop begins: zeroed memory and blocks, no frame
    /// run, waiting for the machine's identifier.
    pub open spec fn fresh(config: Config) -> VmmModel {
        VmmModel {
            vm_id: 0,
            vcpu_id: 0,
            guest_mem: zeros(config.memory_size as nat),
            regs: zeros(REGS_SIZE as nat),
            sregs: zeros(SREGS_SIZE as nat),
            phase: Phase::CreatingVm,
            frame: 0,
            config,
        }
    }

    /// The loop ends for the reason `why`.
    pub open spec fn stop(self, why: Stop) -> (VmmModel, CommandModel) {
        (VmmModel { phase: Phase::Finished(why), ..self }, CommandModel::Stop(why))
    }

    /// The loop moves to `phase` and sends `request`.
    pub open spec fn send(self, phase: Phase, request: Request) -> (VmmModel, CommandModel) {
        (VmmModel { phase, ..self }, ask(request))
    }

    /// The start of a frame, `elapsed_ms` after the loop began: the loop ends
    /// when every frame was run or the time is used up, and else sends the
    /// special-register block.
    pub open spec fn begin_frame(self, elapsed_ms: u64) -> (VmmModel, CommandModel) {
        if self.frame >= self.config.max_frames {
            self.stop(Stop::Completed)
        } else if elapsed_ms > self.config.timeout_ms {
            self.stop(Stop::TimedOut)
        } else {
            (
                VmmModel { phase: Phase::SettingSregs, ..self },
                CommandModel::Request {
                    bytes: request_bytes(KVM_SET_SREGS, self.sregs),
                    response_len: ACK_SIZE as nat,
                },
            )
        }
    }

    /// What the loop does with the answer to a run request.
    pub open spec fn after_run(self, input: InputModel) -> (VmmModel, CommandModel) {
        match response_of(input) {
            Some(answer) => if answer.len() != EXIT_SIZE {
                self.stop(Stop::Failed)
            } else {
                let reason = le_value(answer) as u32;
                if exit_class(reason) == ExitClass::Other {
                    self.stop(Stop::Exit(reason))
                } else if holds_frame(self.guest_mem.len()) {
                    (
                        VmmModel { phase: Phase::Transferring, ..self },
                        CommandModel::Transfer(transfer_bytes(self.guest_mem)),
                    )
                } else {
                    self.stop(Stop::NoFrame)
                }
            },
            None => self.stop(Stop::Failed),
        }
    }

    /// The step of the loop on an input that arrives `elapsed_ms` after the
    /// loop began: the machine afterwards and the next command.
    pub open spec fn drive(self, input: InputModel, elapsed_ms: u64) -> (VmmModel, CommandModel) {
        match self.phase {
            Phase::CreatingVm => match response_of(input) {
                Some(answer) => if answer.len() == ID_SIZE {
                    VmmModel { vm_id: le_value(answer) as u64, ..self }.send(
                        Phase::CreatingVcpu,
                        Request::CreateVcpu,
                    )
                } else {
                    self.stop(Stop::Failed)
                },
                None => self.stop(Stop::Failed),
            },
            Phase::CreatingVcpu => match response_of(input) {
                Some(answer) => if answer.len() == ID_SIZE {
                    VmmModel { vcpu_id: le_value(answer) as u64, ..self }.send(
                        Phase::SettingMemory,
                        Request::SetMemoryRegion(guest_region(self.config)),
                    )
                } else {
                    self.stop(Stop::Failed)
                },
                None => self.stop(Stop::Failed),
            },
            Phase::SettingMemory => match response_of(input) {
                Some(answer) => if answer.len() > 0 && answer[0] == ACK_BYTE {
                    (VmmModel { phase: Phase::LoadingImage, ..self }, CommandModel::LoadImage)
                } else {
                    self.stop(Stop::Failed)
                },
                None => self.stop(Stop::Failed),
            },
            Phase::LoadingImage => {
                let mem = match input {
                    InputModel::Image(image) => loaded(
                        self.guest_mem,
                        image,
                        self.config.memory_size as nat,
                    ),
                    _ => self.guest_mem,
                };
                VmmModel { guest_mem: mem, ..self }.send(Phase::GettingSregs, Request::GetSregs)
            },
            Phase::GettingSregs => VmmModel {
                sregs: block_or_zero(response_of(input), SREGS_SIZE as nat),
                ..self
            }.send(Phase::GettingRegs, Request::GetRegs),
            Phase::GettingRegs => VmmModel {
                regs: block_or_zero(response_of(input), REGS_SIZE as nat),
                ..self
            }.begin_frame(elapsed_ms),
            Phase::SettingSregs => (
                VmmModel { phase: Phase::SettingRegs, ..self },
                CommandModel::Request {
                    bytes: request_bytes(KVM_SET_REGS, self.regs),
                    response_len: ACK_SIZE as nat,
                },
            ),
            Phase::SettingRegs => self.send(Phase::Running, Request::Run),
            Phase::Running => self.after_run(input),
            Phase::Transferring => (
                VmmModel { phase: Phase::Pausing, ..self },
                CommandModel::Pause(self.config.pause_ms),
            ),
            Phase::Pausing => VmmModel {
                frame: if self.frame < u64::MAX {
                    (self.frame + 1) as u64
                } else {
                    self.frame
                },
                ..self
            }.begin_frame(elapsed_ms),
            Phase::Finished(why) => (self, CommandModel::Stop(why)),
        }
    }
}

/// Begins the loop: allocates the driver's copy of guest memory, zeroed, and
/// hands out the first command, the request to create a machine. `None`
/// when the memory cannot be allocated.
pub fn create_vm(config: Config) -> (r: Option<(Vmm, Command)>)
    ensures
        match r {
            Some((vm, command)) => {
                &&& allocatable(config.memory_size as nat)
                &&& vm@ == VmmModel::fresh(config)
                &&& command@ == ask(Request::CreateVm)
            },
            None => !allocatable(config.memory_size as nat),
        },
{
    if config.memory_size > isize::MAX as usize {
        return None;
    }
    let guest_mem = vec![0u8; config.memory_size];
    let vm = Vmm {
        vm_id: 0,
        vcpu_id: 0,
        guest_mem,
        regs: [0u8; REGS_SIZE],
        sregs: [0u8; SREGS_SIZE],
        phase: Phase::CreatingVm,
        frame: 0,
        config,
    };
    proof {
        assert(vm@.guest_mem =~= zeros(config.memory_size as nat));
        assert(vm@.regs =~= zeros(REGS_SIZE as nat));
        assert(vm@.sregs =~= zeros(SREGS_SIZE as nat));
    }
    let command = request(Request::CreateVm);
    Some((vm, command))
}

/// The command that sends a request.
fn request(what: Request) -> (command: Command)
    ensures
        command@ == ask(what),
{
    Command::Request { bytes: what.encode(), response_len: what.response_len() }
}

/// Copies a guest image to the start of the machine's guest memory. At most
/// `guest_mem_size` bytes are copied, and none beyond the end of the memory.
pub fn load_guest_kernel(vm: &mut Vmm, data: &[u8], guest_mem_size: usize)
    ensures
        final(vm)@ == (VmmModel {
            guest_mem: loaded(old(vm)@.guest_mem, data@, guest_mem_size as nat),
            ..old(vm)@
        }),
{
    let mut len: usize = data.len();
    if guest_mem_size < len {
        len = guest_mem_size;
    }
    if vm.guest_mem.len() < len {
        len = vm.guest_mem.len();
    }
    let mut i: usize = 0;
    while i < len
        invariant
            i <= len,
            len <= data@.len(),
            len <= vm.guest_mem@.len(),
            vm.guest_mem@.len() == old(vm).guest_mem@.len(),
            forall|k: int| 0 <= k < i ==> vm.guest_mem@[k] == data@[k],
            forall|k: int| i <= k < vm.guest_mem@.len() ==> vm.guest_mem@[k] == old(vm).guest_mem@[k],
            vm.vm_id == old(vm).vm_id,
            vm.vcpu_id == old(vm).vcpu_id,
            vm.regs == old(vm).regs,
            vm.sregs == old(vm).sregs,
            vm.phase == old(vm).phase,
            vm.frame == old(vm).frame,
            vm.config == old(vm).config,
        decreases len - i,
    {
        vm.guest_mem[i] = data[i];
        i = i + 1;
    }
    assert(vm.guest_mem@ =~= loaded(old(vm)@.guest_mem, data@, guest_mem_size as nat));
}

/// The image of the frame in the machine's guest memory. `None` when the
/// memory ends before the frame does.
pub fn dump_frame(vm: &Vmm) -> (r: Option<Vec<u8>>)
    ensures
        match r {
            Some(image) => {
                &&& holds_frame(vm@.guest_mem.len())
                &&& image@ == ppm_image(WIDTH as nat, HEIGHT as nat, frame_of(vm@.guest_mem))
            },
            None => !holds_frame(vm@.guest_mem.len()),
        },
{
    match framebuffer(vm.guest_mem.as_slice()) {
        Some(pixels) => encode_ppm(WIDTH, HEIGHT, pixels.as_slice()),
        None => None,
    }
}

impl Vmm {
    /// The identifier of the machine, zero until it is known.
    pub fn vm_id(&self) -> (id: u64)
        ensures
            id == self@.vm_id,
    {
        self.vm_id
    }

    /// The identifier of the CPU, zero until it is known.
    pub fn vcpu_id(&self) -> (id: u64)
        ensures
            id == self@.vcpu_id,
    {
        self.vcpu_id
    }

    /// Where the loop stands.
    pub fn phase(&self) -> (phase: Phase)
        ensures
            phase == self@.phase,
    {
        self.phase
    }

    /// Number of frames that were run to the end.
    pub fn frame(&self) -> (frame: u64)
        ensures
            frame == self@.frame,
    {
        self.frame
    }

    /// The driver's copy of guest memory.
    pub fn guest_mem(&self) -> (mem: &Vec<u8>)
        ensures
            mem@ == self@.guest_mem,
    {
        &self.guest_mem
    }

    fn stop(&mut self, why: Stop) -> (command: Command)
        ensures
            (final(self)@, command@) == old(self)@.stop(why),
    {
        self.phase = Phase::Finished(why);
        Command::Stop(why)
    }

    fn begin_frame(&mut self, elapsed_ms: u64) -> (command: Command)
        ensures
            (final(self)@, command@) == old(self)@.begin_frame(elapsed_ms),
    {
        if self.frame >= self.config.max_frames {
            self.stop(Stop::Completed)
        } else if elapsed_ms > self.config.timeout_ms {
            self.stop(Stop::TimedOut)
        } else {
            self.phase = Phase::SettingSregs;
            request(Request::SetSregs(self.sregs))
        }
    }

    fn after_run(&mut self, input: Input) -> (command: Command)
        ensures
            (final(self)@, command@) == old(self)@.after_run(input@),
    {
        match input {
            Input::Response(answer) => match parse_exit(answer.as_slice()) {
                Some(reason) => match classify_exit(reason) {
                    ExitClass::Other => self.stop(Stop::Exit(reason)),
                    _ => match frame_transfer(self.guest_mem.as_slice()) {
                        Some(bytes) => {
                            self.phase = Phase::Transferring;
                            Command::Transfer(bytes)
                        },
                        None => self.stop(Stop::NoFrame),
                    },
                },
                None => self.stop(Stop::Failed),
            },
            _ => self.stop(Stop::Failed),
        }
    }

    /// Takes one step of the loop. `input` reports what came of the last
    /// command and `elapsed_ms` is the time since the loop began. The machine
    /// afterwards and the command returned are [`VmmModel::drive`] of the
    /// machine before.
    pub fn advance(&mut self, input: Input, elapsed_ms: u64) -> (command: Command)
        ensures
            (final(self)@, command@) == old(self)@.drive(input@, elapsed_ms),
    {
        match self.phase {
            Phase::CreatingVm => {
                let id = match input {
                    Input::Response(answer) => parse_id(answer.as_slice()),
                    _ => None,
                };
                match id {
                    Some(id) => {
                        self.vm_id = id;
                        self.phase = Phase::CreatingVcpu;
                        request(Request::CreateVcpu)
                    },
                    None => self.stop(Stop::Failed),
                }
            },
            Phase::CreatingVcpu => {
                let id = match input {
                    Input::Response(answer) => parse_id(answer.as_slice()),
                    _ => None,
                };
                match id {
                    Some(id) => {
                        self.vcpu_id = id;
                        self.phase = Phase::SettingMemory;
                        request(
                            Request::SetMemoryRegion(
                                MemoryRegion {
                                    slot: 0,
                                    flags: 0,
                                    guest_phys_addr: GUEST_BASE as u64,
                                    memory_size: self.config.memory_size as u64,
                                    userspace_addr: 0,
                                },
                            ),
                        )
                    },
                    None => self.stop(Stop::Failed),
                }
            },
            Phase::SettingMemory => {
                let acknowledged = match input {
                    Input::Response(answer) => is_ack(answer.as_slice()),
                    _ => false,
                };
                if acknowledged {
                    self.phase = Phase::LoadingImage;
                    Command::LoadImage
                } else {
                    self.stop(Stop::Failed)
                }
            },
            Phase::LoadingImage => {
                match input {
                    Input::Image(image) => {
                        let limit = self.config.memory_size;
                        load_guest_kernel(self, image.as_slice(), limit);
                    },
                    _ => {},
                }
                self.phase = Phase::GettingSregs;
                request(Request::GetSregs)
            },
            Phase::GettingSregs => {
                self.sregs = match input {
                    Input::Response(answer) => if answer.len() == SREGS_SIZE {
                        sregs_block(answer.as_slice())
                    } else {
                        [0u8; SREGS_SIZE]
                    },
                    _ => [0u8; SREGS_SIZE],
                };
                assert(self.sregs@ =~= block_or_zero(response_of(input@), SREGS_SIZE as nat));
                self.phase = Phase::GettingRegs;
                request(Request::GetRegs)
            },
            Phase::GettingRegs => {
                self.regs = match input {
                    Input::Response(answer) => if answer.len() == REGS_SIZE {
                        regs_block(answer.as_slice())
                    } else {
                        [0u8; REGS_SIZE]
                    },
                    _ => [0u8; REGS_SIZE],
                };
                assert(self.regs@ =~= block_or_zero(response_of(input@), REGS_SIZE as nat));
                self.begin_frame(elapsed_ms)
            },
            Phase::SettingSregs => {
                self.phase = Phase::SettingRegs;
                request(Request::SetRegs(self.regs))
            },
            Phase::SettingRegs => {
                self.phase = Phase::Running;
                request(Request::Run)
            },
            Phase::Running => self.after_run(input),
            Phase::Transferring => {
                self.phase = Phase::Pausing;
                Command::Pause(self.config.pause_ms)
            },
            Phase::Pausing => {
                if self.frame < u64::MAX {
                    self.frame = self.frame + 1;
                }
                self.begin_frame(elapsed_ms)
            },
            Phase::Finished(why) => Command::Stop(why),
        }
    }
}

/// The script up to the first frame. When both identifiers arrive and the
/// memory region is acknowledged, the loop sends, in this order: the request
/// to create a CPU, the request to register all of guest memory, the command
/// to load the image, the requests to read the special registers and the
/// registers, and then, if there is a frame to run and time to run it, the
/// baseline of the special registers. The identifiers and the baseline are
/// what the answers held.
pub proof fn lemma_script(
    config: Config,
    vm_answer: Seq<u8>,
    vcpu_answer: Seq<u8>,
    acked: Seq<u8>,
    image: InputModel,
    sregs_answer: Seq<u8>,
    regs_answer: Seq<u8>,
    elapsed_ms: u64,
)
    requires
        vm_answer.len() == ID_SIZE,
        vcpu_answer.len() == ID_SIZE,
        acked.len() > 0 && acked[0] == ACK_BYTE,
        sregs_answer.len() == SREGS_SIZE,
        regs_answer.len() == REGS_SIZE,
        config.max_frames > 0,
        elapsed_ms <= config.timeout_ms,
    ensures
        ({
            let d0 = VmmModel::fresh(config);
            let (d1, c1) = d0.drive(InputModel::Response(vm_answer), elapsed_ms);
            let (d2, c2) = d1.drive(InputModel::Response(vcpu_answer), elapsed_ms);
            let (d3, c3) = d2.drive(InputModel::Response(acked), elapsed_ms);
            let (d4, c4) = d3.drive(image, elapsed_ms);
            let (d5, c5) = d4.drive(InputModel::Response(sregs_answer), elapsed_ms);
            let (d6, c6) = d5.drive(InputModel::Response(regs_answer), elapsed_ms);
            &&& c1 == ask(Request::CreateVcpu)
            &&& c2 == ask(Request::SetMemoryRegion(guest_region(config)))
            &&& c3 == CommandModel::LoadImage
            &&& c4 == ask(Request::GetSregs)
            &&& c5 == ask(Request::GetRegs)
            &&& c6 == CommandModel::Request {
                bytes: request_bytes(KVM_SET_SREGS, sregs_answer),
                response_len: ACK_SIZE as nat,
            }
            &&& d6.phase == Phase::SettingSregs
            &&& d6.vm_id == le_value(vm_answer)
            &&& d6.vcpu_id == le_value(vcpu_answer)
            &&& d6.sregs == sregs_answer
            &&& d6.regs == regs_answer
            &&& d6.frame == 0
            &&& image is Image ==> d6.guest_mem == loaded(
                zeros(config.memory_size as nat),
                image->Image_0,
                config.memory_size as nat,
            )
            &&& !(image is Image) ==> d6.guest_mem == zeros(config.memory_size as nat)
        }),
{
    lemma_le_bytes_of_value(vm_answer);
    lemma_le_bytes_of_value(vcpu_answer);
    lemma_radix_pow_values();
}

/// A frame in which the guest halts pushes exactly one frame. From the start
/// of the frame the loop sends the register block, then the run request;
/// on the halt it hands out one transfer, of the frame in guest memory; then
/// it rests; and the step after that begins the next frame or ends the loop.
/// Whatever the program reports in between, no other step of the frame hands
/// out a transfer.
pub proof fn lemma_halt_pushes_one_frame(
    d: VmmModel,
    acked: InputModel,
    acked_again: InputModel,
    sent: InputModel,
    rested: InputModel,
    t1: u64,
    t2: u64,
    t3: u64,
    t4: u64,
    t5: u64,
)
    requires
        d.phase == Phase::SettingSregs,
        holds_frame(d.guest_mem.len()),
    ensures
        ({
            let halted = InputModel::Response(le_bytes(KVM_EXIT_HLT as nat, 4));
            let (d1, c1) = d.drive(acked, t1);
            let (d2, c2) = d1.drive(acked_again, t2);
            let (d3, c3) = d2.drive(halted, t3);
            let (d4, c4) = d3.drive(sent, t4);
            let (d5, c5) = d4.drive(rested, t5);
            &&& c1 == CommandModel::Request {
                bytes: request_bytes(KVM_SET_REGS, d.regs),
                response_len: ACK_SIZE as nat,
            }
            &&& c2 == ask(Request::Run)
            &&& c3 == CommandModel::Transfer(transfer_bytes(d.guest_mem))
            &&& c4 == CommandModel::Pause(d.config.pause_ms)
            &&& !(c5 is Transfer)
            &&& d5.phase == Phase::SettingSregs || d5.phase is Finished
            &&& d.frame < u64::MAX ==> d5.frame == d.frame + 1
            &&& d5.guest_mem == d.guest_mem
        }),
{
    lemma_le_bytes_len(KVM_EXIT_HLT as nat, 4);
    lemma_radix_pow_values();
    lemma_le_value_of_bytes(KVM_EXIT_HLT as nat, 4);
}

/// An exit for a reason that is neither a halt nor I/O ends the loop at once:
/// the step that hears of it hands out no transfer but the stop, and so does
/// every step after it.
pub proof fn lemma_unknown_exit_ends_loop(
    d: VmmModel,
    reason: u32,
    later: InputModel,
    t1: u64,
    t2: u64,
)
    requires
        d.phase == Phase::Running,
        exit_class(reason) == ExitClass::Other,
    ensures
        ({
            let (d1, c1) = d.drive(InputModel::Response(le_bytes(reason as nat, 4)), t1);
            let (d2, c2) = d1.drive(later, t2);
            &&& c1 == CommandModel::Stop(Stop::Exit(reason))
            &&& d1.phase == Phase::Finished(Stop::Exit(reason))
            &&& c2 == CommandModel::Stop(Stop::Exit(reason))
            &&& d2 == d1
        }),
{
    lemma_le_bytes_len(reason as nat, 4);
    lemma_radix_pow_values();
    lemma_le_value_of_bytes(reason as nat, 4);
}

/// The loop hands out a transfer only on the answer to a run request, and
/// only when that answer is a halt or an I/O exit.
pub proof fn lemma_transfer_follows_run(d: VmmModel, input: InputModel, elapsed_ms: u64)
    requires
        d.drive(input, elapsed_ms).1 is Transfer,
    ensures
        d.phase == Phase::Running,
        input is Response,
        input->Response_0.len() == EXIT_SIZE,
        exit_class(le_value(input->Response_0) as u32) != ExitClass::Other,
        d.drive(input, elapsed_ms).1 == CommandModel::Transfer(transfer_bytes(d.guest_mem)),
{
}

/// Every request that the loop sends is framed as the catalogue says: the
/// server reads back its code and its argument.
pub proof fn lemma_request_is_well_framed(request: Request)
    ensures
        parse_request(request.wire()) == Some((request.code(), request.argument())),
{
    match request {
        Request::SetMemoryRegion(region) => {
            lemma_region_roundtrip(region);
        },
        _ => {},
    }
    lemma_request_roundtrip(request.code(), request.argument());
}

} // verus!
