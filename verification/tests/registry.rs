use mykvm::registry::{NewVcpu, RegistryError, State, DEFAULT_VM_MEMORY};

#[test]
fn new_registry_is_empty() {
    let state = State::new();
    assert_eq!(state.vm_count(), 0);
    assert!(!state.contains_vm(1));
    assert!(!state.contains_vcpu(1));
    assert_eq!(state.memory(None).err(), Some(RegistryError::NotFound));
}

#[test]
fn vm_ids_start_at_one_and_increase() {
    let mut state = State::new();
    let mut last = 0;
    for n in 1..=50u64 {
        let id = state.create_vm(16).unwrap();
        assert_eq!(id, n);
        assert!(id > last);
        last = id;
    }
    assert_eq!(state.vm_count(), 50);
    for n in 1..=50u64 {
        assert!(state.contains_vm(n));
    }
    assert!(!state.contains_vm(51));
    assert!(!state.contains_vm(0));
}

#[test]
fn vcpu_ids_start_at_one_and_increase() {
    let mut state = State::new();
    let vm = state.create_vm(0).unwrap();
    for n in 1..=20u64 {
        assert_eq!(state.create_vcpu(), Ok(NewVcpu { id: n, vm: Some(vm) }));
        assert!(state.contains_vcpu(n));
    }
    assert!(!state.contains_vcpu(21));
}

#[test]
fn vm_and_vcpu_counters_are_independent() {
    let mut state = State::new();
    assert_eq!(state.create_vm(0), Ok(1));
    assert_eq!(state.create_vm(0), Ok(2));
    assert_eq!(state.create_vcpu().unwrap().id, 1);
    assert_eq!(state.create_vm(0), Ok(3));
    assert_eq!(state.create_vcpu().unwrap().id, 2);
}

#[test]
fn vcpu_without_a_machine_spends_its_id() {
    let mut state = State::new();
    assert_eq!(state.create_vcpu(), Ok(NewVcpu { id: 1, vm: None }));
    assert!(!state.contains_vcpu(1));
    let vm = state.create_vm(0).unwrap();
    assert_eq!(state.create_vcpu(), Ok(NewVcpu { id: 2, vm: Some(vm) }));
    assert!(state.contains_vcpu(2));
    assert!(!state.contains_vcpu(1));
}

#[test]
fn vcpus_join_the_first_machine() {
    let mut state = State::new();
    let first = state.create_vm(0).unwrap();
    let _second = state.create_vm(0).unwrap();
    assert_eq!(state.create_vcpu().unwrap().vm, Some(first));
    assert_eq!(state.create_vcpu().unwrap().vm, Some(first));
}

#[test]
fn new_machine_memory_is_zeroed() {
    let mut state = State::new();
    let id = state.create_vm(DEFAULT_VM_MEMORY).unwrap();
    let memory = state.memory(Some(id)).unwrap();
    assert_eq!(memory.len(), 0x40_0000);
    assert!(memory.iter().all(|b| *b == 0));
}

#[test]
fn new_vcpu_blocks_are_zeroed() {
    let mut state = State::new();
    state.create_vm(0).unwrap();
    let id = state.create_vcpu().unwrap().id;
    assert_eq!(state.get_registers(Some(id)), Ok([0u8; 184]));
    assert_eq!(state.get_special_registers(Some(id)), Ok([0u8; 312]));
    assert_eq!(state.get_registers(None), Ok([0u8; 184]));
}

#[test]
fn set_then_get_registers() {
    let mut state = State::new();
    state.create_vm(0).unwrap();
    let id = state.create_vcpu().unwrap().id;
    let mut block = [0u8; 184];
    for (i, b) in block.iter_mut().enumerate() {
        *b = (i as u8).wrapping_mul(3).wrapping_add(1);
    }
    assert_eq!(state.set_registers(None, &block), Ok(()));
    assert_eq!(state.get_registers(None), Ok(block));
    assert_eq!(state.get_registers(Some(id)), Ok(block));
    assert_eq!(state.get_special_registers(None), Ok([0u8; 312]));
}

#[test]
fn set_then_get_special_registers() {
    let mut state = State::new();
    state.create_vm(0).unwrap();
    let id = state.create_vcpu().unwrap().id;
    let mut block = [0u8; 312];
    for (i, b) in block.iter_mut().enumerate() {
        *b = (i % 251) as u8;
    }
    assert_eq!(state.set_special_registers(Some(id), &block), Ok(()));
    assert_eq!(state.get_special_registers(None), Ok(block));
    assert_eq!(state.get_registers(None), Ok([0u8; 184]));
}

#[test]
fn registers_of_one_cpu_do_not_touch_another() {
    let mut state = State::new();
    state.create_vm(0).unwrap();
    let a = state.create_vcpu().unwrap().id;
    let b = state.create_vcpu().unwrap().id;
    assert_eq!(state.set_registers(Some(b), &[0xBB; 184]), Ok(()));
    assert_eq!(state.get_registers(Some(a)), Ok([0u8; 184]));
    assert_eq!(state.get_registers(Some(b)), Ok([0xBB; 184]));
    assert_eq!(state.get_registers(None), Ok([0u8; 184]));
    assert_eq!(state.set_registers(None, &[0xAA; 184]), Ok(()));
    assert_eq!(state.get_registers(Some(a)), Ok([0xAA; 184]));
    assert_eq!(state.get_registers(Some(b)), Ok([0xBB; 184]));
}

#[test]
fn missing_cpu_is_not_found() {
    let mut state = State::new();
    assert_eq!(state.get_registers(None), Err(RegistryError::NotFound));
    assert_eq!(state.get_special_registers(None), Err(RegistryError::NotFound));
    assert_eq!(state.set_registers(None, &[1; 184]), Err(RegistryError::NotFound));
    assert_eq!(state.set_special_registers(None, &[1; 312]), Err(RegistryError::NotFound));
    state.create_vm(0).unwrap();
    assert_eq!(state.get_registers(None), Err(RegistryError::NotFound));
    assert_eq!(state.set_registers(Some(1), &[1; 184]), Err(RegistryError::NotFound));
    state.create_vcpu().unwrap();
    assert_eq!(state.get_registers(Some(2)), Err(RegistryError::NotFound));
    assert_eq!(state.set_special_registers(Some(9), &[1; 312]), Err(RegistryError::NotFound));
}

#[test]
fn memory_region_replaces_memory_with_zeros() {
    let mut state = State::new();
    let id = state.create_vm(8).unwrap();
    assert_eq!(state.set_memory_region(None, 4096), Ok(()));
    let memory = state.memory(Some(id)).unwrap();
    assert_eq!(memory.len(), 4096);
    assert!(memory.iter().all(|b| *b == 0));
    assert_eq!(state.set_memory_region(Some(id), 0), Ok(()));
    assert_eq!(state.memory(None).unwrap().len(), 0);
}

#[test]
fn memory_region_of_one_machine_leaves_the_other() {
    let mut state = State::new();
    let a = state.create_vm(10).unwrap();
    let b = state.create_vm(20).unwrap();
    assert_eq!(state.set_memory_region(Some(b), 30), Ok(()));
    assert_eq!(state.memory(Some(a)).unwrap().len(), 10);
    assert_eq!(state.memory(Some(b)).unwrap().len(), 30);
    assert_eq!(state.set_memory_region(None, 5), Ok(()));
    assert_eq!(state.memory(Some(a)).unwrap().len(), 5);
    assert_eq!(state.memory(Some(b)).unwrap().len(), 30);
}

#[test]
fn memory_region_keeps_cpus() {
    let mut state = State::new();
    state.create_vm(8).unwrap();
    state.create_vcpu().unwrap();
    state.set_registers(None, &[7; 184]).unwrap();
    state.set_memory_region(None, 64).unwrap();
    assert_eq!(state.get_registers(None), Ok([7; 184]));
}

#[test]
fn memory_region_on_missing_machine_is_not_found() {
    let mut state = State::new();
    assert_eq!(state.set_memory_region(None, 16), Err(RegistryError::NotFound));
    state.create_vm(0).unwrap();
    assert_eq!(state.set_memory_region(Some(2), 16), Err(RegistryError::NotFound));
    assert_eq!(state.memory(Some(2)).err(), Some(RegistryError::NotFound));
}

#[test]
fn memory_too_large_is_refused() {
    let mut state = State::new();
    assert_eq!(state.create_vm(usize::MAX), Err(RegistryError::TooLarge));
    assert_eq!(state.vm_count(), 0);
    assert_eq!(state.create_vm(0), Ok(1));
    assert_eq!(state.set_memory_region(None, usize::MAX), Err(RegistryError::TooLarge));
    assert_eq!(state.set_memory_region(None, isize::MAX as usize + 1), Err(RegistryError::TooLarge));
    assert_eq!(state.memory(None).unwrap().len(), 0);
    assert_eq!(state.set_memory_region(Some(5), usize::MAX), Err(RegistryError::NotFound));
}

#[test]
fn two_creations_are_both_kept() {
    let mut state = State::new();
    let a = state.create_vm(3).unwrap();
    let b = state.create_vm(4).unwrap();
    assert_ne!(a, b);
    assert_eq!(state.memory(Some(a)).unwrap().len(), 3);
    assert_eq!(state.memory(Some(b)).unwrap().len(), 4);
    assert_eq!(state.vm_count(), 2);
}

#[test]
fn counters_can_start_later() {
    let mut state = State::starting_at(100, 7);
    assert_eq!(state.vm_count(), 0);
    assert_eq!(state.create_vm(0), Ok(100));
    assert_eq!(state.create_vm(0), Ok(101));
    assert_eq!(state.create_vcpu(), Ok(NewVcpu { id: 7, vm: Some(100) }));
    assert!(state.contains_vm(100));
    assert!(!state.contains_vm(1));
    let mut state = State::starting_at(0, 0);
    assert_eq!(state.create_vm(0), Ok(1));
    assert_eq!(state.create_vcpu().unwrap().id, 1);
}

#[test]
fn spent_vm_counter_hands_out_nothing() {
    let mut state = State::starting_at(u64::MAX - 1, 1);
    assert_eq!(state.create_vm(0), Ok(u64::MAX - 1));
    assert_eq!(state.create_vm(0), Err(RegistryError::Exhausted));
    assert_eq!(state.create_vm(usize::MAX), Err(RegistryError::Exhausted));
    assert_eq!(state.vm_count(), 1);
    assert!(!state.contains_vm(u64::MAX));
    assert_eq!(state.create_vcpu().unwrap().id, 1);
}

#[test]
fn spent_vcpu_counter_hands_out_nothing() {
    let mut state = State::starting_at(1, u64::MAX - 1);
    state.create_vm(0).unwrap();
    assert_eq!(state.create_vcpu().unwrap().id, u64::MAX - 1);
    assert_eq!(state.create_vcpu(), Err(RegistryError::Exhausted));
    assert!(!state.contains_vcpu(u64::MAX));
    assert!(state.contains_vcpu(u64::MAX - 1));
    assert_eq!(state.create_vm(0), Ok(2));
}
