use mykvm::connection::{open, step, Action, Conn, Event};
use mykvm::driver::{
    classify_exit, create_vm, dump_frame, is_ack, load_guest_kernel, parse_exit, parse_id, Command,
    Config, ExitClass, Input, Phase, Request, Stop, Vmm, FRAME_PAUSE_MS, GUEST_MEMORY, MAX_FRAMES,
    TIMEOUT_MS,
};
use mykvm::registry::State;
use mykvm::wire::{decode, MemoryRegion};

const FRAME_END: usize = 0x1FF0_0000 + 1228800;

fn config(memory_size: usize, max_frames: u64) -> Config {
    Config { memory_size, max_frames, timeout_ms: 10_000, pause_ms: 40 }
}

fn ask(bytes: Vec<u8>, response_len: usize) -> Command {
    Command::Request { bytes, response_len }
}

/// Brings a machine to the start of its first frame.
fn ready(memory_size: usize, max_frames: u64) -> (Vmm, Command) {
    let (mut vm, _) = create_vm(config(memory_size, max_frames)).unwrap();
    vm.advance(Input::Response(vec![1, 0, 0, 0, 0, 0, 0, 0]), 0);
    vm.advance(Input::Response(vec![1, 0, 0, 0, 0, 0, 0, 0]), 0);
    vm.advance(Input::Response(vec![1; 8]), 0);
    vm.advance(Input::Failed, 0);
    vm.advance(Input::Response(vec![0x33; 312]), 0);
    let command = vm.advance(Input::Response(vec![0x44; 184]), 0);
    (vm, command)
}

#[test]
fn defaults() {
    assert_eq!(GUEST_MEMORY, 0x2020_0000);
    assert_eq!(MAX_FRAMES, 300);
    assert_eq!(TIMEOUT_MS, 10_000);
    assert_eq!(FRAME_PAUSE_MS, 40);
    assert!(GUEST_MEMORY >= FRAME_END);
}

#[test]
fn requests_on_the_wire() {
    assert_eq!(Request::CreateVm.encode(), vec![0x01, 0xAE, 0, 0, 0, 0, 0, 0]);
    assert_eq!(Request::CreateVcpu.encode(), vec![0x41, 0xAE, 0, 0, 0, 0, 0, 0]);
    assert_eq!(Request::Run.encode(), vec![0x44, 0xAE, 0, 0, 0, 0, 0, 0]);
    assert_eq!(Request::GetRegs.encode(), vec![0x81, 0xAE, 0x90, 0x80, 0, 0, 0, 0]);
    assert_eq!(Request::GetSregs.encode(), vec![0x80, 0xAE, 0x38, 0x81, 0, 0, 0, 0]);
    let mut expected = vec![0x40, 0xAE, 0, 0, 0, 0, 0, 0];
    expected.extend([9u8; 184]);
    assert_eq!(Request::SetRegs([9; 184]).encode(), expected);
    let mut expected = vec![0x81, 0xAE, 0x38, 0x41, 0, 0, 0, 0];
    expected.extend([8u8; 312]);
    assert_eq!(Request::SetSregs([8; 312]).encode(), expected);
    let region = MemoryRegion { slot: 0, flags: 0, guest_phys_addr: 0x10_0000, memory_size: 64, userspace_addr: 0 };
    let mut expected = vec![0x02, 0xAE, 0, 0, 0, 0, 0, 0];
    expected.extend(region.encode());
    assert_eq!(Request::SetMemoryRegion(region).encode(), expected);
}

#[test]
fn every_request_is_read_back_by_the_server() {
    let region = MemoryRegion { slot: 3, flags: 1, guest_phys_addr: 5, memory_size: 6, userspace_addr: 7 };
    let requests = vec![
        (Request::CreateVm, 8),
        (Request::CreateVcpu, 8),
        (Request::SetMemoryRegion(region), 8),
        (Request::SetRegs([1; 184]), 8),
        (Request::GetRegs, 184),
        (Request::SetSregs([2; 312]), 8),
        (Request::GetSregs, 312),
        (Request::Run, 4),
    ];
    for (request, answer) in requests {
        let bytes = request.encode();
        let (code, arg) = decode(&bytes).unwrap();
        assert_eq!(mykvm::wire::encode(code, Some(&arg)), bytes);
        assert_eq!(request.response_len(), answer);
        assert_eq!(mykvm::wire::Operation::from_code(code).resp_len(), answer);
    }
}

#[test]
fn answers_are_parsed() {
    assert_eq!(parse_id(&[7, 0, 0, 0, 0, 0, 0, 0]), Some(7));
    assert_eq!(parse_id(&[0xFF; 8]), Some(u64::MAX));
    assert_eq!(parse_id(&[7, 0, 0, 0, 0, 0, 0]), None);
    assert_eq!(parse_id(&[7, 0, 0, 0, 0, 0, 0, 0, 0]), None);
    assert_eq!(parse_exit(&[5, 0, 0, 0]), Some(5));
    assert_eq!(parse_exit(&[0, 1, 0, 0]), Some(256));
    assert_eq!(parse_exit(&[5, 0, 0]), None);
    assert_eq!(parse_exit(&[5, 0, 0, 0, 0]), None);
    assert!(is_ack(&[1; 8]));
    assert!(is_ack(&[1, 0, 0, 0, 0, 0, 0, 0]));
    assert!(!is_ack(&[0xFF, 0, 0, 0, 0, 0, 0, 0]));
    assert!(!is_ack(&[0, 1, 1, 1, 1, 1, 1, 1]));
    assert!(!is_ack(&[]));
}

#[test]
fn exits_are_classified() {
    assert_eq!(classify_exit(5), ExitClass::Halt);
    assert_eq!(classify_exit(2), ExitClass::Io);
    for reason in [0u32, 1, 3, 4, 6, 8, 255, u32::MAX] {
        assert_eq!(classify_exit(reason), ExitClass::Other);
    }
}

#[test]
fn loop_begins_by_creating_a_machine() {
    let (vm, command) = create_vm(config(64, 3)).unwrap();
    assert_eq!(command, ask(vec![0x01, 0xAE, 0, 0, 0, 0, 0, 0], 8));
    assert_eq!(vm.phase(), Phase::CreatingVm);
    assert_eq!(vm.frame(), 0);
    assert_eq!(vm.vm_id(), 0);
    assert_eq!(vm.vcpu_id(), 0);
    assert_eq!(vm.guest_mem(), &vec![0u8; 64]);
}

#[test]
fn loop_refuses_memory_that_cannot_be_allocated() {
    assert!(create_vm(config(usize::MAX, 3)).is_none());
    assert!(create_vm(config(isize::MAX as usize + 1, 3)).is_none());
    assert!(create_vm(config(0, 3)).is_some());
}

#[test]
fn script_runs_in_order() {
    let (mut vm, _) = create_vm(config(64, 2)).unwrap();
    let command = vm.advance(Input::Response(vec![0x21, 0, 0, 0, 0, 0, 0, 0]), 0);
    assert_eq!(command, ask(vec![0x41, 0xAE, 0, 0, 0, 0, 0, 0], 8));
    assert_eq!(vm.vm_id(), 0x21);
    assert_eq!(vm.phase(), Phase::CreatingVcpu);

    let command = vm.advance(Input::Response(vec![0x22, 1, 0, 0, 0, 0, 0, 0]), 1);
    let region = MemoryRegion { slot: 0, flags: 0, guest_phys_addr: 0x10_0000, memory_size: 64, userspace_addr: 0 };
    assert_eq!(command, ask(Request::SetMemoryRegion(region).encode(), 8));
    assert_eq!(vm.vcpu_id(), 0x122);
    assert_eq!(vm.phase(), Phase::SettingMemory);

    let command = vm.advance(Input::Response(vec![1; 8]), 2);
    assert_eq!(command, Command::LoadImage);
    assert_eq!(vm.phase(), Phase::LoadingImage);

    let command = vm.advance(Input::Image(vec![0xC3; 10]), 3);
    assert_eq!(command, ask(Request::GetSregs.encode(), 312));
    assert_eq!(&vm.guest_mem()[..10], &[0xC3; 10]);
    assert_eq!(&vm.guest_mem()[10..], &[0; 54]);

    let command = vm.advance(Input::Response(vec![0x33; 312]), 4);
    assert_eq!(command, ask(Request::GetRegs.encode(), 184));

    let command = vm.advance(Input::Response(vec![0x44; 184]), 5);
    assert_eq!(command, ask(Request::SetSregs([0x33; 312]).encode(), 8));
    assert_eq!(vm.phase(), Phase::SettingSregs);

    let command = vm.advance(Input::Response(vec![1; 8]), 6);
    assert_eq!(command, ask(Request::SetRegs([0x44; 184]).encode(), 8));

    let command = vm.advance(Input::Response(vec![1; 8]), 7);
    assert_eq!(command, ask(Request::Run.encode(), 4));
    assert_eq!(vm.phase(), Phase::Running);
}

#[test]
fn creation_without_answer_is_fatal() {
    let (mut vm, _) = create_vm(config(64, 2)).unwrap();
    assert_eq!(vm.advance(Input::Failed, 0), Command::Stop(Stop::Failed));
    assert_eq!(vm.phase(), Phase::Finished(Stop::Failed));
    assert_eq!(vm.advance(Input::Response(vec![1; 8]), 0), Command::Stop(Stop::Failed));

    let (mut vm, _) = create_vm(config(64, 2)).unwrap();
    assert_eq!(vm.advance(Input::Response(vec![1; 7]), 0), Command::Stop(Stop::Failed));

    let (mut vm, _) = create_vm(config(64, 2)).unwrap();
    vm.advance(Input::Response(vec![1; 8]), 0);
    assert_eq!(vm.advance(Input::Done, 0), Command::Stop(Stop::Failed));

    let (mut vm, _) = create_vm(config(64, 2)).unwrap();
    vm.advance(Input::Response(vec![1; 8]), 0);
    vm.advance(Input::Response(vec![1; 8]), 0);
    assert_eq!(
        vm.advance(Input::Response(vec![0xFF, 0, 0, 0, 0, 0, 0, 0]), 0),
        Command::Stop(Stop::Failed)
    );
}

#[test]
fn baseline_falls_back_to_zero_blocks() {
    let (mut vm, _) = create_vm(config(64, 2)).unwrap();
    vm.advance(Input::Response(vec![1; 8]), 0);
    vm.advance(Input::Response(vec![1; 8]), 0);
    vm.advance(Input::Response(vec![1; 8]), 0);
    vm.advance(Input::Failed, 0);
    vm.advance(Input::Failed, 0);
    let command = vm.advance(Input::Response(vec![9; 100]), 0);
    assert_eq!(command, ask(Request::SetSregs([0; 312]).encode(), 8));
    let command = vm.advance(Input::Failed, 0);
    assert_eq!(command, ask(Request::SetRegs([0; 184]).encode(), 8));
}

#[test]
fn halt_pushes_exactly_one_frame_each_iteration() {
    let (mut vm, first) = ready(FRAME_END, 3);
    let mut command = first;
    let mut transfers = 0;
    let mut pauses = 0;
    let mut runs = 0;
    let mut steps = 0;
    loop {
        steps += 1;
        assert!(steps < 100);
        let input = match &command {
            Command::Request { response_len: 4, .. } => {
                runs += 1;
                Input::Response(vec![5, 0, 0, 0])
            }
            Command::Request { response_len, .. } => Input::Response(vec![1; *response_len]),
            Command::Transfer(bytes) => {
                transfers += 1;
                assert_eq!(bytes.len(), 11 + 1228800);
                assert_eq!(&bytes[..11], b"FRAMEBUFFER");
                assert_eq!(transfers, runs);
                Input::Done
            }
            Command::Pause(ms) => {
                pauses += 1;
                assert_eq!(*ms, 40);
                Input::Done
            }
            Command::LoadImage => Input::Failed,
            Command::Stop(why) => {
                assert_eq!(*why, Stop::Completed);
                break;
            }
        };
        command = vm.advance(input, 0);
    }
    assert_eq!(runs, 3);
    assert_eq!(transfers, 3);
    assert_eq!(pauses, 3);
    assert_eq!(vm.frame(), 3);
    assert_eq!(vm.phase(), Phase::Finished(Stop::Completed));
}

#[test]
fn io_exit_pushes_the_frame_too() {
    let (mut vm, _) = ready(FRAME_END, 3);
    vm.advance(Input::Response(vec![1; 8]), 0);
    vm.advance(Input::Response(vec![1; 8]), 0);
    let command = vm.advance(Input::Response(vec![2, 0, 0, 0]), 0);
    assert!(matches!(command, Command::Transfer(_)));
    assert_eq!(vm.phase(), Phase::Transferring);
}

#[test]
fn unknown_exit_ends_the_loop_without_a_transfer() {
    for reason in [0u32, 1, 3, 4, 6, 17, u32::MAX] {
        let (mut vm, _) = ready(FRAME_END, 3);
        vm.advance(Input::Response(vec![1; 8]), 0);
        vm.advance(Input::Response(vec![1; 8]), 0);
        let command = vm.advance(Input::Response(reason.to_le_bytes().to_vec()), 0);
        assert_eq!(command, Command::Stop(Stop::Exit(reason)));
        assert_eq!(vm.phase(), Phase::Finished(Stop::Exit(reason)));
        assert_eq!(vm.frame(), 0);
        assert_eq!(vm.advance(Input::Done, 0), Command::Stop(Stop::Exit(reason)));
        assert_eq!(vm.advance(Input::Response(vec![5, 0, 0, 0]), 0), Command::Stop(Stop::Exit(reason)));
    }
}

#[test]
fn run_without_answer_ends_the_loop() {
    let (mut vm, _) = ready(FRAME_END, 3);
    vm.advance(Input::Response(vec![1; 8]), 0);
    vm.advance(Input::Response(vec![1; 8]), 0);
    assert_eq!(vm.advance(Input::Failed, 0), Command::Stop(Stop::Failed));

    let (mut vm, _) = ready(FRAME_END, 3);
    vm.advance(Input::Response(vec![1; 8]), 0);
    vm.advance(Input::Response(vec![1; 8]), 0);
    assert_eq!(vm.advance(Input::Response(vec![5, 0, 0]), 0), Command::Stop(Stop::Failed));
}

#[test]
fn halt_without_room_for_the_frame_ends_the_loop() {
    let (mut vm, _) = ready(FRAME_END - 1, 3);
    vm.advance(Input::Response(vec![1; 8]), 0);
    vm.advance(Input::Response(vec![1; 8]), 0);
    assert_eq!(vm.advance(Input::Response(vec![5, 0, 0, 0]), 0), Command::Stop(Stop::NoFrame));
}

#[test]
fn refused_set_does_not_end_the_loop() {
    let (mut vm, _) = ready(FRAME_END, 3);
    let command = vm.advance(Input::Response(vec![0xFF, 0, 0, 0, 0, 0, 0, 0]), 0);
    assert_eq!(command, ask(Request::SetRegs([0x44; 184]).encode(), 8));
    let command = vm.advance(Input::Failed, 0);
    assert_eq!(command, ask(Request::Run.encode(), 4));
}

#[test]
fn failed_transfer_does_not_end_the_loop() {
    let (mut vm, _) = ready(FRAME_END, 3);
    vm.advance(Input::Response(vec![1; 8]), 0);
    vm.advance(Input::Response(vec![1; 8]), 0);
    vm.advance(Input::Response(vec![5, 0, 0, 0]), 0);
    assert_eq!(vm.advance(Input::Failed, 0), Command::Pause(40));
    let command = vm.advance(Input::Done, 0);
    assert_eq!(command, ask(Request::SetSregs([0x33; 312]).encode(), 8));
    assert_eq!(vm.frame(), 1);
}

#[test]
fn timeout_is_checked_at_the_start_of_a_frame() {
    let (vm, command) = ready(64, 3);
    assert_eq!(vm.phase(), Phase::SettingSregs);
    assert!(matches!(command, Command::Request { .. }));

    let (mut vm, _) = create_vm(config(64, 3)).unwrap();
    vm.advance(Input::Response(vec![1; 8]), 20_000);
    vm.advance(Input::Response(vec![1; 8]), 20_000);
    vm.advance(Input::Response(vec![1; 8]), 20_000);
    vm.advance(Input::Failed, 20_000);
    vm.advance(Input::Failed, 20_000);
    assert_eq!(vm.advance(Input::Failed, 10_000), ask(Request::SetSregs([0; 312]).encode(), 8));

    let (mut vm, _) = create_vm(config(64, 3)).unwrap();
    vm.advance(Input::Response(vec![1; 8]), 0);
    vm.advance(Input::Response(vec![1; 8]), 0);
    vm.advance(Input::Response(vec![1; 8]), 0);
    vm.advance(Input::Failed, 0);
    vm.advance(Input::Failed, 0);
    assert_eq!(vm.advance(Input::Failed, 10_001), Command::Stop(Stop::TimedOut));
    assert_eq!(vm.phase(), Phase::Finished(Stop::TimedOut));
}

#[test]
fn timeout_ends_the_loop_between_frames() {
    let (mut vm, _) = ready(FRAME_END, 300);
    vm.advance(Input::Response(vec![1; 8]), 20_000);
    vm.advance(Input::Response(vec![1; 8]), 20_000);
    let command = vm.advance(Input::Response(vec![5, 0, 0, 0]), 20_000);
    assert!(matches!(command, Command::Transfer(_)));
    assert_eq!(vm.advance(Input::Done, 20_000), Command::Pause(40));
    assert_eq!(vm.advance(Input::Done, 20_000), Command::Stop(Stop::TimedOut));
    assert_eq!(vm.frame(), 1);
}

#[test]
fn no_frames_to_run() {
    let (vm, command) = ready(64, 0);
    assert_eq!(command, Command::Stop(Stop::Completed));
    assert_eq!(vm.phase(), Phase::Finished(Stop::Completed));
}

#[test]
fn image_is_cut_at_the_limit_and_at_the_end_of_memory() {
    let (mut vm, _) = create_vm(config(8, 1)).unwrap();
    load_guest_kernel(&mut vm, &[1, 2, 3], 8);
    assert_eq!(vm.guest_mem(), &vec![1, 2, 3, 0, 0, 0, 0, 0]);
    load_guest_kernel(&mut vm, &[9; 16], 5);
    assert_eq!(vm.guest_mem(), &vec![9, 9, 9, 9, 9, 0, 0, 0]);
    load_guest_kernel(&mut vm, &[7; 16], 100);
    assert_eq!(vm.guest_mem(), &vec![7; 8]);
    load_guest_kernel(&mut vm, &[], 100);
    assert_eq!(vm.guest_mem(), &vec![7; 8]);
    load_guest_kernel(&mut vm, &[1; 4], 0);
    assert_eq!(vm.guest_mem(), &vec![7; 8]);
}

#[test]
fn dump_is_the_image_of_the_guest_frame() {
    let (mut vm, _) = create_vm(config(FRAME_END, 1)).unwrap();
    let mut image = vec![0u8; FRAME_END];
    image[0x1FF0_0000] = 0x12;
    image[0x1FF0_0000 + 1] = 0x34;
    image[0x1FF0_0000 + 2] = 0x56;
    image[0x1FF0_0000 + 3] = 0x78;
    load_guest_kernel(&mut vm, &image, FRAME_END);
    let ppm = dump_frame(&vm).unwrap();
    assert_eq!(&ppm[..15], b"P6\n640 480\n255\n");
    assert_eq!(&ppm[15..18], &[0x12, 0x34, 0x56]);
    assert_eq!(ppm.len(), 15 + 640 * 480 * 3);
    assert!(ppm[18..].iter().all(|b| *b == 0));

    let (vm, _) = create_vm(config(FRAME_END - 1, 1)).unwrap();
    assert_eq!(dump_frame(&vm), None);
}

/// Runs the driver's loop against the server's connection, bytes passing
/// between them in memory.
#[test]
fn driver_and_server_agree() {
    let mut state = State::new();
    let (mut conn, actions) = open();
    assert_eq!(actions, vec![Action::Read(8)]);
    let mut want = 8usize;
    let mut stored: Vec<Vec<u8>> = Vec::new();

    let (mut vm, mut command) = create_vm(config(FRAME_END, 2)).unwrap();
    let mut rounds = 0;
    loop {
        rounds += 1;
        assert!(rounds < 100);
        let (to_server, response_len) = match &command {
            Command::Request { bytes, response_len } => (bytes.clone(), *response_len),
            Command::Transfer(bytes) => (bytes.clone(), 0),
            Command::LoadImage => {
                command = vm.advance(Input::Image(vec![0xF4]), 0);
                continue;
            }
            Command::Pause(_) => {
                command = vm.advance(Input::Done, 0);
                continue;
            }
            Command::Stop(why) => {
                assert_eq!(*why, Stop::Completed);
                break;
            }
        };
        let mut at = 0usize;
        let mut answer = Vec::new();
        while at < to_server.len() {
            let event = Event::Read(to_server[at..at + want].to_vec());
            at += want;
            let (next, actions) = step(conn, event, &mut state);
            conn = next;
            let mut pending = actions;
            loop {
                let mut read = None;
                for action in pending {
                    match action {
                        Action::Read(n) => read = Some(n),
                        Action::Write(bytes) => answer.extend(bytes),
                        Action::Store(image) => stored.push(image),
                        Action::Close => panic!("the server closed"),
                    }
                }
                match read {
                    Some(n) => {
                        want = n;
                        break;
                    }
                    None => {
                        let (next, actions) = step(conn, Event::Done, &mut state);
                        conn = next;
                        pending = actions;
                    }
                }
            }
        }
        assert_eq!(conn, Conn::AwaitingRequestHeader);
        assert_eq!(answer.len(), response_len);
        let input = if response_len == 0 { Input::Done } else { Input::Response(answer) };
        command = vm.advance(input, 0);
    }
    assert_eq!(vm.vm_id(), 1);
    assert_eq!(vm.vcpu_id(), 1);
    assert_eq!(state.vm_count(), 1);
    assert_eq!(state.memory(None).unwrap().len(), FRAME_END);
    assert_eq!(stored.len(), 2);
    assert_eq!(stored[0].len(), 15 + 640 * 480 * 3);
}
