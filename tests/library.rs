use vmm::boot::{
    firmware_load_address, pci_device_space_size, physical_bits, plan_kernel, pmu_irq,
    KernelLoadResult, KernelPlan,
};
use vmm::cmdline::generate_cmdline;
use vmm::config::{
    DeviceConfig, HotplugMethod, MemoryConfig, MemoryZoneConfig, VmConfig, CPU_DEVICES_CHANGED,
    MEMORY_DEVICES_CHANGED, PCI_DEVICES_CHANGED,
};
use vmm::lifecycle::{active_vcpus, ClockData, ComponentSnapshot, Step, Vm};
use vmm::migration::{
    memory_fd_payload, memory_fd_reply_action, merge_dirty_tables, FdReplyAction, RangeTransfer,
};
use vmm::numa::{create_numa_nodes, MemoryZoneLayout, NumaConfig, NumaDistance};
use vmm::signals::{handled_signals, signal_actions, SignalAction, SIGINT, SIGTERM, SIGWINCH};
use vmm::state::{Error, VmState};
use vmm::tdx::{
    address_in_range, check_payload_header, hob_offset, memory_registrations, section_action,
    tdvf_allocations, tdx_memory_resources, temp_memory_sections, SectionAction, TdvfSection, TdvfSectionType,
};
use vmm::vmops::{read_action, route_pio, write_action, zero_fill, BusOutcome, PioRoute, TrapAction};

const MIB: u64 = 1 << 20;

fn device(id: &str) -> DeviceConfig {
    DeviceConfig {
        id: Some(id.to_string()),
        params: format!("path=/dev/{}", id),
    }
}

fn base_config() -> VmConfig {
    VmConfig {
        boot_vcpus: 1,
        max_phys_bits: 46,
        memory: MemoryConfig {
            size: 128 * MIB,
            hotplug_method: HotplugMethod::Acpi,
            hotplugged_size: None,
            zones: None,
        },
        balloon_size: None,
        cmdline: "console=ttyS0".to_string(),
        disks: Some(vec![device("disk0")]),
        net: Some(Vec::new()),
        pmem: None,
        vdpa: None,
        fs: None,
        devices: None,
        user_devices: None,
        vsock: None,
    }
}

fn ids(list: &Option<Vec<DeviceConfig>>) -> Option<Vec<String>> {
    list.as_ref()
        .map(|v| v.iter().map(|d| d.id.clone().unwrap_or_default()).collect())
}

#[test]
fn physical_bits_takes_the_smaller() {
    assert_eq!(physical_bits(46, 52), 46);
    assert_eq!(physical_bits(46, 40), 40);
    assert_eq!(physical_bits(46, 46), 46);
    let mut last = 0;
    for max in 0..=u8::MAX {
        let bits = physical_bits(39, max);
        assert!(bits >= last);
        assert!(bits <= 39);
        last = bits;
    }
}

#[test]
fn firmware_is_placed_below_four_gib() {
    assert_eq!(firmware_load_address(2 * MIB), Ok(0x1_0000_0000 - 2 * MIB));
    assert_eq!(firmware_load_address(4 * MIB), Ok(0x1_0000_0000 - 4 * MIB));
    assert_eq!(firmware_load_address(4 * MIB + 1), Err(Error::FirmwareTooLarge));
}

#[test]
fn firmware_only_boot_has_no_entry_point() {
    let plan = plan_kernel(KernelLoadResult::NotElf { file_size: 2 * MIB }).unwrap();
    match plan {
        KernelPlan::Firmware { load_address, size } => {
            assert_eq!(load_address + size, 0x1_0000_0000);
            assert_eq!(size, 2 * MIB);
        }
        KernelPlan::Kernel { .. } => panic!("raw firmware must not have an entry point"),
    }
}

#[test]
fn kernel_plans() {
    assert_eq!(
        plan_kernel(KernelLoadResult::Loaded { pvh_entry: Some(0x1000_000) }),
        Ok(KernelPlan::Kernel { entry: 0x1000_000 })
    );
    assert_eq!(
        plan_kernel(KernelLoadResult::Loaded { pvh_entry: None }),
        Err(Error::KernelMissingPvhHeader)
    );
    assert_eq!(plan_kernel(KernelLoadResult::Failed), Err(Error::KernelLoad));
    assert_eq!(
        plan_kernel(KernelLoadResult::NotElf { file_size: 8 * MIB }),
        Err(Error::FirmwareTooLarge)
    );
}

#[test]
fn cmdline_joins_and_trims() {
    let args = "  console=ttyS0 root=/dev/vda1 ".to_string();
    let additions = vec!["virtio_mmio.device=4K@0xd0000000:5".to_string()];
    assert_eq!(
        generate_cmdline(&args, &additions).unwrap(),
        "console=ttyS0 root=/dev/vda1 virtio_mmio.device=4K@0xd0000000:5"
    );
    assert_eq!(generate_cmdline(&"quiet".to_string(), &Vec::new()).unwrap(), "quiet");
}

#[test]
fn cmdline_refuses_bad_text_and_overflow() {
    assert_eq!(
        generate_cmdline(&"bad\u{1}arg".to_string(), &Vec::new()),
        Err(Error::CmdLineInsertStr)
    );
    let huge = "x".repeat(0x10000);
    assert_eq!(generate_cmdline(&huge, &Vec::new()), Err(Error::CmdLineInsertStr));
    let fits = "x".repeat(0xffff);
    assert_eq!(generate_cmdline(&fits, &Vec::new()).unwrap().len(), 0xffff);
}

fn numa(id: u32, distances: Vec<(u32, u8)>) -> NumaConfig {
    NumaConfig {
        guest_numa_id: id,
        cpus: Some(vec![id as u8]),
        distances: Some(
            distances
                .into_iter()
                .map(|(destination, distance)| NumaDistance { destination, distance })
                .collect(),
        ),
        memory_zones: None,
        sgx_epc_sections: None,
    }
}

#[test]
fn numa_nodes_are_built_in_order() {
    let zones = vec![MemoryZoneLayout {
        id: "mem0".to_string(),
        regions: vec![(0, 0x1000_0000)],
        hotplug_region: Some((0x1_0000_0000, 0x1000_0000)),
    }];
    let mut first = numa(0, vec![(1, 20)]);
    first.memory_zones = Some(vec!["mem0".to_string()]);
    let configs = Some(vec![first, numa(1, vec![(0, 20)])]);
    let nodes = create_numa_nodes(&configs, &zones, &None).unwrap();
    assert_eq!(nodes.len(), 2);
    assert_eq!(nodes[0].guest_numa_id, 0);
    assert_eq!(nodes[0].memory_regions, vec![(0, 0x1000_0000)]);
    assert_eq!(nodes[0].hotplug_regions, vec![(0x1_0000_0000, 0x1000_0000)]);
    assert_eq!(nodes[0].memory_zones, vec!["mem0".to_string()]);
    assert_eq!(nodes[0].distances, vec![(1, 20)]);
    assert_eq!(nodes[1].cpus, vec![1]);
    assert!(create_numa_nodes(&None, &zones, &None).unwrap().is_empty());
}

#[test]
fn numa_duplicate_id_fails() {
    let configs = Some(vec![numa(0, vec![]), numa(0, vec![])]);
    assert_eq!(
        create_numa_nodes(&configs, &Vec::new(), &None).map(|n| n.len()),
        Err(Error::InvalidNumaConfig)
    );
}

#[test]
fn numa_unknown_destination_fails() {
    let configs = Some(vec![numa(0, vec![(3, 20)]), numa(1, vec![])]);
    assert_eq!(
        create_numa_nodes(&configs, &Vec::new(), &None).map(|n| n.len()),
        Err(Error::InvalidNumaConfig)
    );
}

#[test]
fn numa_duplicate_destination_fails() {
    let configs = Some(vec![numa(0, vec![(1, 20), (1, 30)]), numa(1, vec![])]);
    assert_eq!(
        create_numa_nodes(&configs, &Vec::new(), &None).map(|n| n.len()),
        Err(Error::InvalidNumaConfig)
    );
}

#[test]
fn numa_unknown_zone_and_epc_fail() {
    let mut c = numa(0, vec![]);
    c.memory_zones = Some(vec!["nowhere".to_string()]);
    assert_eq!(
        create_numa_nodes(&Some(vec![c]), &Vec::new(), &None).map(|n| n.len()),
        Err(Error::InvalidNumaConfig)
    );
    let mut e = numa(0, vec![]);
    e.sgx_epc_sections = Some(vec!["epc0".to_string()]);
    assert_eq!(
        create_numa_nodes(&Some(vec![e.clone()]), &Vec::new(), &None).map(|n| n.len()),
        Err(Error::InvalidNumaConfig)
    );
    let known = Some(vec!["epc0".to_string()]);
    let nodes = create_numa_nodes(&Some(vec![e]), &Vec::new(), &known).unwrap();
    assert_eq!(nodes[0].sgx_epc_sections, vec!["epc0".to_string()]);
}

#[test]
fn hotplug_then_unplug_restores_config() {
    let mut vm = Vm::new(base_config(), false, false, false);
    let before = ids(&vm.get_config().disks);
    assert_eq!(vm.add_disk(device("disk1")), PCI_DEVICES_CHANGED);
    assert_eq!(
        ids(&vm.get_config().disks),
        Some(vec!["disk0".to_string(), "disk1".to_string()])
    );
    assert_eq!(vm.remove_device(&"disk1".to_string()), PCI_DEVICES_CHANGED);
    assert_eq!(ids(&vm.get_config().disks), before);

    assert_eq!(vm.add_net(device("net0")), PCI_DEVICES_CHANGED);
    vm.remove_device(&"net0".to_string());
    assert_eq!(ids(&vm.get_config().net), Some(Vec::new()));
}

#[test]
fn hotplug_into_absent_list_creates_it() {
    let mut vm = Vm::new(base_config(), false, false, false);
    vm.add_pmem(device("pmem0"));
    assert_eq!(ids(&vm.get_config().pmem), Some(vec!["pmem0".to_string()]));
    vm.add_fs(device("fs0"));
    vm.add_vdpa(device("vdpa0"));
    vm.add_device(device("vfio0"));
    vm.add_user_device(device("user0"));
    vm.remove_device(&"pmem0".to_string());
    assert_eq!(ids(&vm.get_config().pmem), Some(Vec::new()));
    assert_eq!(ids(&vm.get_config().fs), Some(vec!["fs0".to_string()]));
}

#[test]
fn second_vsock_is_refused() {
    let mut vm = Vm::new(base_config(), false, false, false);
    assert_eq!(vm.add_vsock(device("vsock0")), Ok(PCI_DEVICES_CHANGED));
    assert_eq!(vm.add_vsock(device("vsock1")), Err(Error::TooManyVsockDevices));
    assert_eq!(
        vm.get_config().vsock.as_ref().and_then(|v| v.id.clone()),
        Some("vsock0".to_string())
    );
    vm.remove_device(&"vsock0".to_string());
    assert!(vm.get_config().vsock.is_none());
}

#[test]
fn cold_boot_and_shutdown() {
    let mut vm = Vm::new(base_config(), false, false, false);
    let (target, steps) = vm.boot().unwrap();
    assert_eq!(target, VmState::Running);
    assert_eq!(steps.first(), Some(&Step::CreateAcpiTables));
    assert_eq!(steps.last(), Some(&Step::StartBootVcpus));
    vm.commit(target);
    assert_eq!(vm.get_state(), VmState::Running);
    let steps = vm.shutdown().unwrap();
    assert_eq!(steps.last(), Some(&Step::JoinThreads));
    vm.commit(VmState::Shutdown);
    assert_eq!(vm.get_state(), VmState::Shutdown);
}

#[test]
fn boot_with_stop_on_boot_and_tdx() {
    let vm = Vm::new(base_config(), true, true, true);
    let (target, steps) = vm.boot().unwrap();
    assert_eq!(target, VmState::BreakPoint);
    assert!(!steps.contains(&Step::StartBootVcpus));
    assert!(!steps.contains(&Step::CreateAcpiTables));
    let init = steps.iter().position(|s| *s == Step::InitTdx).unwrap();
    let create = steps.iter().position(|s| *s == Step::CreateBootVcpus).unwrap();
    let populate = steps.iter().position(|s| *s == Step::PopulateTdxSections).unwrap();
    assert!(init < create && create < populate);
    assert_eq!(steps.last(), Some(&Step::FinalizeTdx));
}

#[test]
fn pause_snapshot_restore() {
    let mut vm = Vm::new(base_config(), false, false, false);
    let (target, _) = vm.boot().unwrap();
    vm.commit(target);
    assert_eq!(vm.snapshot(vec![1], vec![2], vec![], vec![], vec![]).map(|_| ()), Err(Error::Snapshot));
    let steps = vm.pause().unwrap();
    assert_eq!(
        steps,
        vec![
            Step::SaveClock,
            Step::ActivateVirtioDevices,
            Step::PauseCpus,
            Step::PauseDevices
        ]
    );
    vm.save_clock(ClockData { clock: 12345, flags: 2 });
    vm.commit(VmState::Paused);
    let tree = vm.snapshot(vec![1, 2, 3], vec![4], vec![10], vec![11], vec![12]).unwrap();
    assert_eq!(tree.id, "vm");
    assert_eq!(tree.data_section_id, "vm-section");
    let ids: Vec<&str> = tree.children.iter().map(|c| c.id.as_str()).collect();
    assert_eq!(ids, vec!["cpu-manager", "memory-manager", "device-manager"]);
    assert_eq!(tree.children[1].data, vec![11]);
    let snap = tree.data.clone();
    assert_eq!(snap.clock, Some(ClockData { clock: 12345, flags: 0 }));
    assert_eq!(snap.state, Some(vec![1, 2, 3]));
    assert_eq!(snap.common_cpuid, Some(vec![4]));

    let mut restored = Vm::new(base_config(), false, false, false);
    let steps = restored.restore(&tree).unwrap();
    assert_eq!(restored.load_clock_from_snapshot(&snap), Some(ClockData { clock: 12345, flags: 0 }));
    assert_eq!(restored.saved_clock(), Some(ClockData { clock: 12345, flags: 0 }));
    assert_eq!(steps.last(), Some(&Step::SetupTty));
    restored.commit(VmState::Paused);
    let steps = restored.resume().unwrap();
    assert_eq!(steps, vec![Step::ResumeCpus, Step::RestoreClock, Step::ResumeDevices]);
    restored.commit(VmState::Running);
    assert_eq!(restored.get_state(), VmState::Running);
    assert_eq!(active_vcpus(1, restored.get_config().boot_vcpus), 1);
    assert_eq!(active_vcpus(0, 2), 2);
    assert_eq!(active_vcpus(3, 2), 3);
}

#[test]
fn trusted_domain_cannot_be_snapshotted() {
    let mut vm = Vm::new(base_config(), false, true, false);
    vm.commit(VmState::Paused);
    assert_eq!(vm.snapshot(Vec::new(), Vec::new(), Vec::new(), Vec::new(), Vec::new()).map(|_| ()), Err(Error::Snapshot));
}

#[test]
fn booting_a_paused_vm_resumes_it() {
    let mut vm = Vm::new(base_config(), false, false, false);
    vm.commit(VmState::Paused);
    let (target, steps) = vm.boot().unwrap();
    assert_eq!(target, VmState::Running);
    assert_eq!(steps, vec![Step::ResumeCpus, Step::RestoreClock, Step::ResumeDevices]);
}

#[test]
fn rejected_transitions_are_wrapped() {
    // The transition table allows Created -> Running, so resuming a VM that
    // was never booted is accepted; resuming a running VM is not.
    let vm = Vm::new(base_config(), false, false, false);
    assert!(vm.resume().is_ok());
    let mut running = Vm::new(base_config(), false, false, false);
    running.commit(VmState::Running);
    assert_eq!(
        running.resume(),
        Err(Error::Resume(VmState::Running, VmState::Running))
    );
    let mut stopped = Vm::new(base_config(), false, false, false);
    stopped.commit(VmState::Running);
    stopped.commit(VmState::Shutdown);
    let mut paused = Vm::new(base_config(), false, false, false);
    paused.commit(VmState::Paused);
    let tree = paused.snapshot(vec![], vec![], vec![], vec![], vec![]).unwrap();
    assert_eq!(stopped.restore(&tree), Err(Error::Restore));
    assert_eq!(
        Vm::new(base_config(), false, false, false).shutdown(),
        Err(Error::InvalidStateTransition(VmState::Created, VmState::Shutdown))
    );
    running.commit(VmState::Paused);
    assert_eq!(
        running.pause(),
        Err(Error::Pause(VmState::Paused, VmState::Paused))
    );
}

#[test]
fn memory_resize_under_acpi() {
    let mut vm = Vm::new(base_config(), false, false, false);
    let steps = vm.resize(None, Some(256 * MIB), None, false, true);
    assert_eq!(
        steps,
        vec![Step::UpdateMemory, Step::NotifyHotplug { flags: MEMORY_DEVICES_CHANGED }]
    );
    assert_eq!(vm.get_config().memory.size, 256 * MIB);
    let before = vm.get_config().clone();
    let steps = vm.resize(Some(4), None, Some(64 * MIB), true, false);
    assert_eq!(steps, vec![Step::NotifyHotplug { flags: CPU_DEVICES_CHANGED }]);
    assert_eq!(vm.get_config().cmdline, before.cmdline);
    assert_eq!(vm.get_config().max_phys_bits, before.max_phys_bits);
    assert_eq!(vm.get_config().boot_vcpus, 4);
    assert_eq!(vm.get_config().balloon_size, None);
}

#[test]
fn memory_resize_under_virtio_mem() {
    let mut config = base_config();
    config.memory.hotplug_method = HotplugMethod::VirtioMem;
    config.balloon_size = Some(0);
    let mut vm = Vm::new(config, false, false, false);
    let steps = vm.resize(None, Some(256 * MIB), Some(32 * MIB), false, true);
    assert_eq!(steps, vec![Step::UpdateMemory]);
    assert_eq!(vm.get_config().memory.size, 128 * MIB);
    assert_eq!(vm.get_config().memory.hotplugged_size, Some(128 * MIB));
    assert_eq!(vm.get_config().balloon_size, Some(32 * MIB));
    vm.resize(None, Some(64 * MIB), None, false, false);
    assert_eq!(vm.get_config().memory.hotplugged_size, None);
}

#[test]
fn resize_zone_only_grows() {
    let mut config = base_config();
    config.memory.zones = Some(vec![
        MemoryZoneConfig { id: "mem0".to_string(), size: 64 * MIB, hotplugged_size: None },
        MemoryZoneConfig { id: "mem1".to_string(), size: 32 * MIB, hotplugged_size: None },
    ]);
    let mut vm = Vm::new(config, false, false, false);
    assert_eq!(vm.resize_zone(&"mem1".to_string(), 96 * MIB), Ok(64 * MIB));
    let zones = vm.get_config().memory.zones.clone().unwrap();
    assert_eq!(zones[1].hotplugged_size, Some(64 * MIB));
    assert_eq!(zones[0].hotplugged_size, None);
    assert_eq!(vm.resize_zone(&"mem0".to_string(), 32 * MIB), Err(Error::ResizeZone));
    assert_eq!(vm.resize_zone(&"missing".to_string(), 32 * MIB), Err(Error::ResizeZone));
    let mut plain = Vm::new(base_config(), false, false, false);
    assert_eq!(plain.resize_zone(&"mem0".to_string(), 32 * MIB), Err(Error::ResizeZone));
}

#[test]
fn mmio_write_barrier_blocks_only_with_barrier() {
    assert_eq!(write_action(BusOutcome::Barrier), TrapAction::WaitOnBarrier);
    assert_eq!(write_action(BusOutcome::Done), TrapAction::Complete);
    assert_eq!(write_action(BusOutcome::MissingAddressRange), TrapAction::WarnUnregistered);
    assert_eq!(write_action(BusOutcome::Failed), TrapAction::Fail);
    assert_eq!(read_action(BusOutcome::MissingAddressRange), TrapAction::WarnUnregistered);
    assert_eq!(read_action(BusOutcome::Done), TrapAction::Complete);
    assert_eq!(read_action(BusOutcome::Failed), TrapAction::Fail);
    let mut buf = vec![0xffu8; 4];
    zero_fill(&mut buf);
    assert_eq!(buf, vec![0, 0, 0, 0]);
}

#[test]
fn pio_routes_pci_config_ports() {
    assert_eq!(route_pio(0xcf8), PioRoute::PciConfig { offset: 0 });
    assert_eq!(route_pio(0xcff), PioRoute::PciConfig { offset: 7 });
    assert_eq!(route_pio(0xd00), PioRoute::Bus);
    assert_eq!(route_pio(0x3f8), PioRoute::Bus);
}

#[test]
fn migration_range_resumes_partial_writes() {
    let source: Vec<u8> = (0..10_000u32).map(|i| (i % 251) as u8).collect();
    let mut sink: Vec<u8> = Vec::new();
    let mut transfer = RangeTransfer::new(0x1000, source.len() as u64);
    let mut calls = 0;
    loop {
        let (gpa, remaining) = transfer.next_chunk();
        // A writer that never takes more than 333 bytes at a time.
        let n = remaining.min(333);
        let start = (gpa - 0x1000) as usize;
        sink.extend_from_slice(&source[start..start + n as usize]);
        calls += 1;
        if transfer.advance(n) {
            break;
        }
    }
    assert_eq!(transfer.offset(), source.len() as u64);
    assert!(transfer.is_done());
    assert_eq!(sink, source);
    assert_eq!(calls, 31);
}

#[test]
fn memory_fd_payload_is_little_endian() {
    assert_eq!(memory_fd_payload(0x0403_0201), vec![1, 2, 3, 4]);
    assert_eq!(memory_fd_payload(7), vec![7, 0, 0, 0]);
    assert_eq!(merge_dirty_tables(vec![(0, 1)], vec![(8, 2)]), vec![(0, 1), (8, 2)]);
}

fn typed(address: u64, size: u64, section_type: TdvfSectionType) -> TdvfSection {
    TdvfSection { address, size, section_type, ..Default::default() }
}

#[test]
fn tdvf_sections_are_planned() {
    let sections = vec![
        TdvfSection {
            data_offset: 0x100,
            data_size: 0x2000,
            address: 0xffc0_0000,
            size: 0x40_0000,
            section_type: TdvfSectionType::Bfv,
            attributes: 1,
        },
        typed(0x80_0000, 0x1000, TdvfSectionType::TdHob),
        typed(0x90_0000, 0x1000, TdvfSectionType::TempMem),
        typed(0x70_0000, 0x1000, TdvfSectionType::TempMem),
        typed(0x100_0000, 0x100_0000, TdvfSectionType::Payload),
    ];
    let ram: Vec<(u64, u64)> = vec![(0, 0x8000_0000)];
    assert!(address_in_range(0x80_0000, &ram));
    assert!(!address_in_range(0x8000_0000, &ram));
    assert_eq!(tdvf_allocations(&sections, &ram), vec![(0xffc0_0000, 0x40_0000)]);
    assert_eq!(hob_offset(&sections), Ok(0x80_0000));
    assert_eq!(hob_offset(&sections[2..].to_vec()), Err(Error::MissingHobSection));
    let temps = temp_memory_sections(&sections);
    assert_eq!(
        temps.iter().map(|s| s.address).collect::<Vec<_>>(),
        vec![0x90_0000, 0x70_0000]
    );
    assert_eq!(
        section_action(&sections[0]),
        SectionAction::CopyFirmware { offset: 0x100, size: 0x2000, address: 0xffc0_0000 }
    );
    assert_eq!(section_action(&sections[1]), SectionAction::RecordHob { address: 0x80_0000 });
    assert_eq!(section_action(&sections[4]), SectionAction::CopyPayload { address: 0x100_0000 });
    assert_eq!(section_action(&sections[2]), SectionAction::Nothing);
    assert_eq!(
        tdx_memory_resources(&sections, &ram),
        vec![
            (0, 0x70_0000, true),
            (0x70_0000, 0x1000, false),
            (0x70_1000, 0x1f_f000, true),
            (0x90_0000, 0x1000, false),
            (0x90_1000, 0x7f6f_f000, true),
        ]
    );
    let regs = memory_registrations(&sections);
    assert_eq!(regs[0], (0xffc0_0000, 0x40_0000, true));
    assert_eq!(regs[1], (0x80_0000, 0x1000, false));
}

fn setup_header(signature: u32, version: u16, loadflags: u8) -> Vec<u8> {
    let mut h = vec![0u8; 0x7b];
    h[0x11..0x15].copy_from_slice(&signature.to_le_bytes());
    h[0x15..0x17].copy_from_slice(&version.to_le_bytes());
    h[0x20] = loadflags;
    h
}

#[test]
fn payload_header_is_checked() {
    assert_eq!(check_payload_header(&setup_header(0x5372_6448, 0x020f, 1)), Ok(()));
    assert_eq!(
        check_payload_header(&setup_header(0x5372_6449, 0x020f, 1)),
        Err(Error::InvalidPayloadType)
    );
    assert_eq!(
        check_payload_header(&setup_header(0x5372_6448, 0x01ff, 1)),
        Err(Error::InvalidPayloadType)
    );
    assert_eq!(
        check_payload_header(&setup_header(0x5372_6448, 0x0200, 0)),
        Err(Error::InvalidPayloadType)
    );
    assert_eq!(check_payload_header(&vec![0u8; 0x10]), Err(Error::InvalidPayloadType));
}

#[test]
fn signals_are_dispatched() {
    assert_eq!(handled_signals(), vec![28, 15, 2]);
    assert_eq!(signal_actions(SIGWINCH, true), vec![SignalAction::ResizeConsole]);
    assert_eq!(
        signal_actions(SIGTERM, true),
        vec![SignalAction::RestoreTerminal, SignalAction::SignalExit]
    );
    assert_eq!(signal_actions(SIGINT, false), vec![SignalAction::SignalExit]);
    assert!(signal_actions(10, true).is_empty());
}

#[test]
fn restore_needs_every_manager_snapshot() {
    let mut paused = Vm::new(base_config(), false, false, false);
    paused.commit(VmState::Paused);
    let full = paused.snapshot(vec![], vec![], vec![1], vec![2], vec![3]).unwrap();
    let fresh = Vm::new(base_config(), false, false, false);
    assert!(fresh.restore(&full).is_ok());
    for missing in ["cpu-manager", "memory-manager", "device-manager"] {
        let mut tree = full.clone();
        tree.children.retain(|c| c.id != missing);
        assert_eq!(fresh.restore(&tree), Err(Error::Restore));
    }
    let mut extra = full.clone();
    extra.children.push(ComponentSnapshot { id: "gic-v3-its".to_string(), data: vec![] });
    assert!(fresh.restore(&extra).is_ok());
}

#[test]
fn memory_fd_reply_decides_abort() {
    assert_eq!(memory_fd_reply_action(true), FdReplyAction::Continue);
    assert_eq!(memory_fd_reply_action(false), FdReplyAction::Abandon);
}

#[test]
fn system_configuration_helpers() {
    assert_eq!(pmu_irq(7), 23);
    assert_eq!(pci_device_space_size(0x1000, 0x1fff), 0x1000);
}

#[test]
fn resize_keeps_untouched_fields_and_orders_steps() {
    let mut vm = Vm::new(base_config(), false, false, false);
    let before = vm.get_config().clone();
    let steps = vm.resize(Some(2), Some(512 * MIB), None, true, true);
    assert_eq!(
        steps,
        vec![
            Step::NotifyHotplug { flags: CPU_DEVICES_CHANGED },
            Step::UpdateMemory,
            Step::NotifyHotplug { flags: MEMORY_DEVICES_CHANGED },
        ]
    );
    let after = vm.get_config();
    assert_eq!(after.memory.size, 512 * MIB);
    assert_eq!(after.boot_vcpus, 2);
    assert_eq!(after.cmdline, before.cmdline);
    assert_eq!(after.max_phys_bits, before.max_phys_bits);
    assert_eq!(ids(&after.disks), ids(&before.disks));
}
