use vmm::state::{Error, VmState};
use vmm::tdx::{hob_memory_resources, TdvfSection};

fn test_vm_state_transitions(state: VmState) {
    match state {
        VmState::Created => {
            // Check the transitions from Created
            assert!(state.valid_transition(VmState::Created).is_err());
            assert!(state.valid_transition(VmState::Running).is_ok());
            assert!(state.valid_transition(VmState::Shutdown).is_err());
            assert!(state.valid_transition(VmState::Paused).is_ok());
            assert!(state.valid_transition(VmState::BreakPoint).is_ok());
        }
        VmState::Running => {
            // Check the transitions from Running
            assert!(state.valid_transition(VmState::Created).is_err());
            assert!(state.valid_transition(VmState::Running).is_err());
            assert!(state.valid_transition(VmState::Shutdown).is_ok());
            assert!(state.valid_transition(VmState::Paused).is_ok());
            assert!(state.valid_transition(VmState::BreakPoint).is_ok());
        }
        VmState::Shutdown => {
            // Check the transitions from Shutdown
            assert!(state.valid_transition(VmState::Created).is_err());
            assert!(state.valid_transition(VmState::Running).is_ok());
            assert!(state.valid_transition(VmState::Shutdown).is_err());
            assert!(state.valid_transition(VmState::Paused).is_err());
            assert!(state.valid_transition(VmState::BreakPoint).is_err());
        }
        VmState::Paused => {
            // Check the transitions from Paused
            assert!(state.valid_transition(VmState::Created).is_err());
            assert!(state.valid_transition(VmState::Running).is_ok());
            assert!(state.valid_transition(VmState::Shutdown).is_ok());
            assert!(state.valid_transition(VmState::Paused).is_err());
            assert!(state.valid_transition(VmState::BreakPoint).is_err());
        }
        VmState::BreakPoint => {
            // Check the transitions from Breakpoint
            assert!(state.valid_transition(VmState::Created).is_ok());
            assert!(state.valid_transition(VmState::Running).is_ok());
            assert!(state.valid_transition(VmState::Shutdown).is_err());
            assert!(state.valid_transition(VmState::Paused).is_err());
            assert!(state.valid_transition(VmState::BreakPoint).is_err());
        }
    }
}

#[test]
fn test_vm_created_transitions() {
    test_vm_state_transitions(VmState::Created);
}

#[test]
fn test_vm_running_transitions() {
    test_vm_state_transitions(VmState::Running);
}

#[test]
fn test_vm_shutdown_transitions() {
    test_vm_state_transitions(VmState::Shutdown);
}

#[test]
fn test_vm_paused_transitions() {
    test_vm_state_transitions(VmState::Paused);
}

#[test]
fn test_vm_breakpoint_transitions() {
    test_vm_state_transitions(VmState::BreakPoint);
}

#[test]
fn invalid_transition_names_both_states() {
    assert_eq!(
        VmState::Created.valid_transition(VmState::Shutdown),
        Err(Error::InvalidStateTransition(VmState::Created, VmState::Shutdown))
    );
    assert_eq!(
        VmState::BreakPoint.valid_transition(VmState::Paused),
        Err(Error::InvalidStateTransition(VmState::BreakPoint, VmState::Paused))
    );
}

#[test]
fn transition_table_is_total() {
    let all = [
        VmState::Created,
        VmState::Running,
        VmState::Shutdown,
        VmState::Paused,
        VmState::BreakPoint,
    ];
    let mut ok = 0;
    for s in all {
        for t in all {
            if s.valid_transition(t).is_ok() {
                ok += 1;
            }
        }
    }
    assert_eq!(ok, 11);
}

fn section(address: u64, size: u64) -> TdvfSection {
    TdvfSection {
        address,
        size,
        ..Default::default()
    }
}

#[test]
fn test_hob_memory_resources() {
    // Case 1: Two TDVF sections in the middle of the RAM
    let sections = vec![section(0xc000, 0x1000), section(0x1000, 0x4000)];
    let guest_ranges: Vec<(u64, u64)> = vec![(0, 0x1000_0000)];
    let expected = vec![
        (0, 0x1000, true),
        (0x1000, 0x4000, false),
        (0x5000, 0x7000, true),
        (0xc000, 0x1000, false),
        (0xd000, 0x0fff_3000, true),
    ];
    assert_eq!(expected, hob_memory_resources(sections, &guest_ranges));

    // Case 2: Two TDVF sections with no conflict with the RAM
    let sections = vec![section(0x1000_1000, 0x1000), section(0, 0x1000)];
    let guest_ranges: Vec<(u64, u64)> = vec![(0x1000, 0x1000_0000)];
    let expected = vec![
        (0, 0x1000, false),
        (0x1000, 0x1000_0000, true),
        (0x1000_1000, 0x1000, false),
    ];
    assert_eq!(expected, hob_memory_resources(sections, &guest_ranges));

    // Case 3: Two TDVF sections with partial conflicts with the RAM
    let sections = vec![section(0x1000_0000, 0x2000), section(0, 0x2000)];
    let guest_ranges: Vec<(u64, u64)> = vec![(0x1000, 0x1000_0000)];
    let expected = vec![
        (0, 0x2000, false),
        (0x2000, 0x0fff_e000, true),
        (0x1000_0000, 0x2000, false),
    ];
    assert_eq!(expected, hob_memory_resources(sections, &guest_ranges));

    // Case 4: Two TDVF sections with no conflict before the RAM and two
    // more additional sections with no conflict after the RAM.
    let sections = vec![
        section(0x2000_1000, 0x1000),
        section(0x2000_0000, 0x1000),
        section(0x1000, 0x1000),
        section(0, 0x1000),
    ];
    let guest_ranges: Vec<(u64, u64)> = vec![(0x4000, 0x1000_0000)];
    let expected = vec![
        (0, 0x1000, false),
        (0x1000, 0x1000, false),
        (0x4000, 0x1000_0000, true),
        (0x2000_0000, 0x1000, false),
        (0x2000_1000, 0x1000, false),
    ];
    assert_eq!(expected, hob_memory_resources(sections, &guest_ranges));

    // Case 5: One TDVF section overriding the entire RAM
    let sections = vec![section(0, 0x2000_0000)];
    let guest_ranges: Vec<(u64, u64)> = vec![(0x1000, 0x1000_0000)];
    let expected = vec![(0, 0x2000_0000, false)];
    assert_eq!(expected, hob_memory_resources(sections, &guest_ranges));

    // Case 6: Two TDVF sections with no conflict with 2 RAM regions
    let sections = vec![section(0x1000_2000, 0x2000), section(0, 0x2000)];
    let guest_ranges: Vec<(u64, u64)> = vec![(0x2000, 0x1000_0000), (0x1000_4000, 0x1000_0000)];
    let expected = vec![
        (0, 0x2000, false),
        (0x2000, 0x1000_0000, true),
        (0x1000_2000, 0x2000, false),
        (0x1000_4000, 0x1000_0000, true),
    ];
    assert_eq!(expected, hob_memory_resources(sections, &guest_ranges));

    // Case 7: Two TDVF sections with partial conflicts with 2 RAM regions
    let sections = vec![section(0x1000_0000, 0x4000), section(0, 0x4000)];
    let guest_ranges: Vec<(u64, u64)> = vec![(0x1000, 0x1000_0000), (0x1000_3000, 0x1000_0000)];
    let expected = vec![
        (0, 0x4000, false),
        (0x4000, 0x0fff_c000, true),
        (0x1000_0000, 0x4000, false),
        (0x1000_4000, 0x0fff_f000, true),
    ];
    assert_eq!(expected, hob_memory_resources(sections, &guest_ranges));
}

#[test]
fn hob_without_sections_is_all_ram() {
    let guest_ranges: Vec<(u64, u64)> = vec![(0, 0x1000), (0x4000, 0x2000)];
    assert_eq!(
        hob_memory_resources(Vec::new(), &guest_ranges),
        vec![(0, 0x1000, true), (0x4000, 0x2000, true)]
    );
}

#[test]
fn hob_without_ram_lists_sections() {
    let sections = vec![section(0x3000, 0x1000), section(0x1000, 0x1000)];
    assert_eq!(
        hob_memory_resources(sections, &Vec::new()),
        vec![(0x1000, 0x1000, false), (0x3000, 0x1000, false)]
    );
}

fn assert_partition(triples: &[(u64, u64, bool)], ram: &[(u64, u64)]) {
    for pair in triples.windows(2) {
        let (a, a_size, _) = pair[0];
        let (b, _, _) = pair[1];
        assert!(a + a_size <= b, "{:x?} overlaps {:x?}", pair[0], pair[1]);
    }
    for &(start, len) in ram {
        let mut covered = 0u64;
        for &(s, size, _) in triples {
            let lo = s.max(start);
            let hi = (s + size).min(start + len);
            if lo < hi {
                covered += hi - lo;
            }
        }
        assert_eq!(covered, len);
    }
}

#[test]
fn hob_scenarios_partition_the_address_space() {
    let cases: Vec<(Vec<TdvfSection>, Vec<(u64, u64)>)> = vec![
        (vec![section(0xc000, 0x1000), section(0x1000, 0x4000)], vec![(0, 0x1000_0000)]),
        (vec![section(0x1000_1000, 0x1000), section(0, 0x1000)], vec![(0x1000, 0x1000_0000)]),
        (vec![section(0x1000_0000, 0x2000), section(0, 0x2000)], vec![(0x1000, 0x1000_0000)]),
        (
            vec![
                section(0x2000_1000, 0x1000),
                section(0x2000_0000, 0x1000),
                section(0x1000, 0x1000),
                section(0, 0x1000),
            ],
            vec![(0x4000, 0x1000_0000)],
        ),
        (vec![section(0, 0x2000_0000)], vec![(0x1000, 0x1000_0000)]),
        (
            vec![section(0x1000_2000, 0x2000), section(0, 0x2000)],
            vec![(0x2000, 0x1000_0000), (0x1000_4000, 0x1000_0000)],
        ),
        (
            vec![section(0x1000_0000, 0x4000), section(0, 0x4000)],
            vec![(0x1000, 0x1000_0000), (0x1000_3000, 0x1000_0000)],
        ),
    ];
    for (sections, ram) in cases {
        let first = hob_memory_resources(sections.clone(), &ram);
        let second = hob_memory_resources(sections, &ram);
        assert_eq!(first, second);
        assert_partition(&first, &ram);
    }
}
