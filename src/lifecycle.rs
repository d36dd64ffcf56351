use crate::config::{
    DeviceConfig,
    DeviceKind,
    VmConfig,
    devices_add,
    devices_remove,
    device_view,
    first_zone,
    lemma_first_zone_range,
    memory_after_resize,
    HotplugMethod,
    MemoryZoneConfig,
    CPU_DEVICES_CHANGED,
    MEMORY_DEVICES_CHANGED,
    PCI_DEVICES_CHANGED,
};
use crate::state::{Error, VmState, transition_allowed};
use vstd::prelude::*;

verus! {

/// One step of a lifecycle operation, performed by the caller in the order
/// given.
#[derive(Clone, Copy, Debug, PartialEq, Eq, Structural)]
pub enum Step {
    /// Write the ACPI tables into guest memory.
    CreateAcpiTables,
    /// Start the signal dispatcher thread.
    SetupSignalHandler,
    /// Put the terminal in raw mode when attached to one.
    SetupTty,
    /// Wait for the kernel load and take its entry point.
    JoinKernelLoad,
    /// Initialise the trusted domain (before any vCPU exists).
    InitTdx,
    /// Create the boot vCPUs at the entry point.
    CreateBootVcpus,
    /// Back, copy and describe the firmware sections; build the hand-off
    /// block.
    PopulateTdxSections,
    /// Write the architecture's boot structures, when the kernel has an
    /// entry point.
    ConfigureSystem,
    /// Hand the hand-off block address to the vCPUs.
    InitializeTdxVcpus,
    /// Register the firmware sections with the hypervisor.
    RegisterTdxMemory,
    /// Finalise the trusted domain's measurement.
    FinalizeTdx,
    /// Start the boot vCPUs.
    StartBootVcpus,
    /// Save the hypervisor clock.
    SaveClock,
    /// Activate the virtio devices waiting for activation.
    ActivateVirtioDevices,
    /// Pause the vCPUs.
    PauseCpus,
    /// Pause the device emulation.
    PauseDevices,
    /// Resume the vCPUs.
    ResumeCpus,
    /// Restore the saved hypervisor clock, if one was saved.
    RestoreClock,
    /// Resume the device emulation.
    ResumeDevices,
    /// Put the terminal back in canonical mode.
    RestoreTerminal,
    /// Close the signal dispatcher.
    CloseSignalHandler,
    /// Shut the vCPUs down.
    ShutdownCpus,
    /// Join the VM's background threads.
    JoinThreads,
    /// Restore the memory manager from its snapshot.
    RestoreMemoryManager,
    /// Restore the device manager's structure from its snapshot.
    RestoreDeviceManager,
    /// Restore the CPU manager (and the vCPU states) from its snapshot.
    RestoreCpuManager,
    /// Wire the restored devices to their runtime resources.
    RestoreDevices,
    /// Start the restored vCPUs.
    StartRestoredVcpus,
    /// Hand the memory region just added to the device manager.
    UpdateMemory,
    /// Send the guest a hotplug notification with these flags.
    NotifyHotplug { flags: u32 },
}

/// Steps that follow a resize once the managers have answered: notify the
/// CPU change; hand a new memory region to the devices and then, under
/// ACPI hotplug, notify the memory change.
pub open spec fn resize_steps(
    vcpus: bool,
    vcpus_changed: bool,
    memory: bool,
    memory_region_added: bool,
    method: HotplugMethod,
) -> Seq<Step> {
    (if vcpus && vcpus_changed {
        seq![Step::NotifyHotplug { flags: CPU_DEVICES_CHANGED }]
    } else {
        Seq::empty()
    }) + (if memory && memory_region_added {
        seq![Step::UpdateMemory] + if method == HotplugMethod::Acpi {
            seq![Step::NotifyHotplug { flags: MEMORY_DEVICES_CHANGED }]
        } else {
            Seq::empty()
        }
    } else {
        Seq::empty()
    })
}

/// The hypervisor clock as saved on pause.
#[derive(Clone, Copy, Debug, PartialEq, Eq, Structural)]
pub struct ClockData {
    pub clock: u64,
    pub flags: u32,
}

/// The VM's own part of a snapshot: the saved clock, the hypervisor's VM
/// state and the common CPU features, the latter two as serialised bytes.
#[derive(Clone, Debug)]
pub struct VmSnapshot {
    pub clock: Option<ClockData>,
    pub state: Option<Vec<u8>>,
    pub common_cpuid: Option<Vec<u8>>,
}

/// One sub-component's snapshot in the snapshot tree: its identifier and
/// its serialised state.
#[derive(Clone, Debug)]
pub struct ComponentSnapshot {
    pub id: String,
    pub data: Vec<u8>,
}

/// The VM's snapshot tree: the root's identifier, the sub-managers'
/// snapshots as children, and the VM's own data section with its
/// identifier.
#[derive(Clone, Debug)]
pub struct SnapshotTree {
    pub id: String,
    pub children: Vec<ComponentSnapshot>,
    pub data_section_id: String,
    pub data: VmSnapshot,
}

/// Identifier of the snapshot tree's root.
pub open spec fn vm_snapshot_id() -> Seq<char> {
    seq!['v', 'm']
}

/// Identifier of the VM's data section.
pub open spec fn vm_section_id() -> Seq<char> {
    vm_snapshot_id() + seq!['-', 's', 'e', 'c', 't', 'i', 'o', 'n']
}

/// Identifier of the CPU manager's snapshot.
pub open spec fn cpu_manager_id() -> Seq<char> {
    seq!['c', 'p', 'u', '-', 'm', 'a', 'n', 'a', 'g', 'e', 'r']
}

/// Identifier of the memory manager's snapshot.
pub open spec fn memory_manager_id() -> Seq<char> {
    seq!['m', 'e', 'm', 'o', 'r', 'y', '-', 'm', 'a', 'n', 'a', 'g', 'e', 'r']
}

/// Identifier of the device manager's snapshot.
pub open spec fn device_manager_id() -> Seq<char> {
    seq!['d', 'e', 'v', 'i', 'c', 'e', '-', 'm', 'a', 'n', 'a', 'g', 'e', 'r']
}

/// The tree has a child called `id`.
pub open spec fn has_child(tree: SnapshotTree, id: Seq<char>) -> bool {
    exists|i: int| 0 <= i < tree.children@.len() && (#[trigger] tree.children@[i]).id@ == id
}

fn vm_snapshot_name() -> (r: String)
    ensures
        r@ == vm_snapshot_id(),
{
    proof {
        reveal_strlit("vm");
    }
    assert("vm"@ =~= vm_snapshot_id());
    "vm".to_owned()
}

fn vm_section_name() -> (r: String)
    ensures
        r@ == vm_section_id(),
{
    proof {
        reveal_strlit("vm-section");
    }
    assert("vm-section"@ =~= vm_section_id());
    "vm-section".to_owned()
}

fn cpu_manager_name() -> (r: String)
    ensures
        r@ == cpu_manager_id(),
{
    proof {
        reveal_strlit("cpu-manager");
    }
    assert("cpu-manager"@ =~= cpu_manager_id());
    "cpu-manager".to_owned()
}

fn memory_manager_name() -> (r: String)
    ensures
        r@ == memory_manager_id(),
{
    proof {
        reveal_strlit("memory-manager");
    }
    assert("memory-manager"@ =~= memory_manager_id());
    "memory-manager".to_owned()
}

fn device_manager_name() -> (r: String)
    ensures
        r@ == device_manager_id(),
{
    proof {
        reveal_strlit("device-manager");
    }
    assert("device-manager"@ =~= device_manager_id());
    "device-manager".to_owned()
}

fn tree_has_child(tree: &SnapshotTree, id: &String) -> (r: bool)
    ensures
        r == has_child(*tree, id@),
{
    let mut i: usize = 0;
    while i < tree.children.len()
        invariant
            i <= tree.children@.len(),
            forall|j: int| 0 <= j < i ==> tree.children@[j].id@ != id@,
        decreases tree.children@.len() - i,
    {
        if tree.children[i].id == *id {
            return true;
        }
        i += 1;
    }
    false
}

/// The lifecycle controller: the VM's state, its configuration, and the
/// decisions of each lifecycle operation.
pub struct Vm {
    state: VmState,
    saved_clock: Option<ClockData>,
    config: VmConfig,
    /// Stop at a breakpoint instead of running once booted.
    stop_on_boot: bool,
    /// The VM is a trusted domain.
    tdx: bool,
    /// The standard input is a terminal.
    on_tty: bool,
}

/// Steps of a boot to `target`.
pub open spec fn boot_steps(tdx: bool, target: VmState) -> Seq<Step> {
    (if tdx {
        seq![Step::SetupSignalHandler, Step::SetupTty, Step::JoinKernelLoad, Step::InitTdx]
    } else {
        seq![
            Step::CreateAcpiTables,
            Step::SetupSignalHandler,
            Step::SetupTty,
            Step::JoinKernelLoad,
        ]
    }) + seq![Step::CreateBootVcpus] + (if tdx {
        seq![Step::PopulateTdxSections]
    } else {
        Seq::empty()
    }) + seq![Step::ConfigureSystem] + (if tdx {
        seq![Step::InitializeTdxVcpus, Step::RegisterTdxMemory, Step::FinalizeTdx]
    } else {
        Seq::empty()
    }) + (if target == VmState::Running {
        seq![Step::StartBootVcpus]
    } else {
        Seq::empty()
    })
}

/// Steps of a pause.
pub open spec fn pause_steps() -> Seq<Step> {
    seq![Step::SaveClock, Step::ActivateVirtioDevices, Step::PauseCpus, Step::PauseDevices]
}

/// Steps of a resume.
pub open spec fn resume_steps() -> Seq<Step> {
    seq![Step::ResumeCpus, Step::RestoreClock, Step::ResumeDevices]
}

/// Steps of a shutdown.
pub open spec fn shutdown_steps(on_tty: bool) -> Seq<Step> {
    (if on_tty {
        seq![Step::RestoreTerminal]
    } else {
        Seq::empty()
    }) + seq![
        Step::CloseSignalHandler,
        Step::ResumeDevices,
        Step::ShutdownCpus,
        Step::JoinThreads,
    ]
}

/// Steps of a restore.
pub open spec fn restore_steps() -> Seq<Step> {
    seq![
        Step::RestoreClock,
        Step::RestoreMemoryManager,
        Step::RestoreDeviceManager,
        Step::RestoreCpuManager,
        Step::RestoreDevices,
        Step::StartRestoredVcpus,
        Step::SetupSignalHandler,
        Step::SetupTty,
    ]
}

fn steps_of(s: &[Step]) -> (r: Vec<Step>)
    ensures
        r@ == s@,
{
    let mut out: Vec<Step> = Vec::new();
    let mut i: usize = 0;
    while i < s.len()
        invariant
            i <= s@.len(),
            out@ == s@.take(i as int),
        decreases s@.len() - i,
    {
        out.push(s[i]);
        i += 1;
        assert(out@ == s@.take(i as int));
    }
    assert(s@.take(i as int) == s@);
    out
}

impl Vm {
    /// A VM in the `Created` state.
    pub fn new(config: VmConfig, stop_on_boot: bool, tdx: bool, on_tty: bool) -> (r: Vm)
        ensures
            r.spec_state() == VmState::Created,
            r.spec_config() == config,
            r.spec_stop_on_boot() == stop_on_boot,
            r.spec_tdx() == tdx,
            r.spec_on_tty() == on_tty,
            r.spec_saved_clock() is None,
    {
        Vm { state: VmState::Created, saved_clock: None, config, stop_on_boot, tdx, on_tty }
    }

    /// The VM's lifecycle state.
    pub closed spec fn spec_state(&self) -> VmState {
        self.state
    }

    /// The VM's configuration.
    pub closed spec fn spec_config(&self) -> VmConfig {
        self.config
    }

    /// Whether the VM stops at a breakpoint once booted.
    pub closed spec fn spec_stop_on_boot(&self) -> bool {
        self.stop_on_boot
    }

    /// Whether the VM is a trusted domain.
    pub closed spec fn spec_tdx(&self) -> bool {
        self.tdx
    }

    /// Whether the standard input is a terminal.
    pub closed spec fn spec_on_tty(&self) -> bool {
        self.on_tty
    }

    /// The clock saved by the last pause or loaded from a snapshot.
    pub closed spec fn spec_saved_clock(&self) -> Option<ClockData> {
        self.saved_clock
    }

    /// Keeps the hypervisor clock read while pausing, with its flags
    /// cleared, so that resuming restores it.
    pub fn save_clock(&mut self, clock: ClockData)
        ensures
            final(self).spec_saved_clock() == Some(ClockData { flags: 0, ..clock }),
            final(self).spec_state() == old(self).spec_state(),
            final(self).spec_config() == old(self).spec_config(),
    {
        self.saved_clock = Some(ClockData { clock: clock.clock, flags: 0 });
    }

    /// The clock to restore on resume, if one was saved.
    pub fn saved_clock(&self) -> (r: Option<ClockData>)
        ensures
            r == self.spec_saved_clock(),
    {
        self.saved_clock
    }

    /// Takes the saved clock from a snapshot being restored.
    pub fn load_clock_from_snapshot(&mut self, snapshot: &VmSnapshot) -> (r: Option<ClockData>)
        ensures
            r == snapshot.clock,
            final(self).spec_saved_clock() == snapshot.clock,
            final(self).spec_state() == old(self).spec_state(),
            final(self).spec_config() == old(self).spec_config(),
    {
        self.saved_clock = snapshot.clock;
        self.saved_clock
    }

    /// The VM's lifecycle state.
    pub fn get_state(&self) -> (r: VmState)
        ensures
            r == self.spec_state(),
    {
        self.state
    }

    /// The VM's configuration.
    pub fn get_config(&self) -> (r: &VmConfig)
        ensures
            *r == self.spec_config(),
    {
        &self.config
    }

    /// Commits the state reached by a completed operation. Only a legal
    /// transition can be committed.
    pub fn commit(&mut self, new_state: VmState)
        requires
            transition_allowed(old(self).spec_state(), new_state),
        ensures
            final(self).spec_state() == new_state,
            final(self).spec_config() == old(self).spec_config(),
            final(self).spec_stop_on_boot() == old(self).spec_stop_on_boot(),
            final(self).spec_tdx() == old(self).spec_tdx(),
            final(self).spec_on_tty() == old(self).spec_on_tty(),
            final(self).spec_saved_clock() == old(self).spec_saved_clock(),
    {
        self.state = new_state;
    }

    /// Plans a boot. A paused VM is resumed instead. Otherwise the target
    /// is `BreakPoint` when the VM stops on boot and `Running` if not, and
    /// the steps keep the boot order: ACPI tables (x86 without a trusted
    /// domain), signals and terminal, the kernel load, trusted-domain
    /// initialisation before any vCPU exists, vCPU creation, section
    /// population after it, system configuration, trusted-domain
    /// finalisation, and the start of the vCPUs last.
    pub fn boot(&self) -> (r: Result<(VmState, Vec<Step>), Error>)
        ensures
            self.spec_state() == VmState::Paused ==> (r is Ok && r->Ok_0.0
                == VmState::Running && r->Ok_0.1@ == resume_steps()),
            self.spec_state() != VmState::Paused ==> {
                let t = if self.spec_stop_on_boot() {
                    VmState::BreakPoint
                } else {
                    VmState::Running
                };
                if transition_allowed(self.spec_state(), t) {
                    r is Ok && r->Ok_0.0 == t && r->Ok_0.1@ == boot_steps(self.spec_tdx(), t)
                } else {
                    r == Err::<(VmState, Vec<Step>), Error>(
                        Error::InvalidStateTransition(self.spec_state(), t),
                    )
                }
            },
    {
        if self.state == VmState::Paused {
            let steps = steps_of(&[Step::ResumeCpus, Step::RestoreClock, Step::ResumeDevices]);
            return Ok((VmState::Running, steps));
        }
        let target = if self.stop_on_boot {
            VmState::BreakPoint
        } else {
            VmState::Running
        };
        self.state.valid_transition(target)?;
        let mut steps: Vec<Step> = Vec::new();
        if !self.tdx {
            steps.push(Step::CreateAcpiTables);
        }
        steps.push(Step::SetupSignalHandler);
        steps.push(Step::SetupTty);
        steps.push(Step::JoinKernelLoad);
        if self.tdx {
            steps.push(Step::InitTdx);
        }
        steps.push(Step::CreateBootVcpus);
        if self.tdx {
            steps.push(Step::PopulateTdxSections);
        }
        steps.push(Step::ConfigureSystem);
        if self.tdx {
            steps.push(Step::InitializeTdxVcpus);
            steps.push(Step::RegisterTdxMemory);
            steps.push(Step::FinalizeTdx);
        }
        if target == VmState::Running {
            steps.push(Step::StartBootVcpus);
        }
        assert(steps@ =~= boot_steps(self.tdx, target));
        Ok((target, steps))
    }

    /// Plans a shutdown: restore the terminal, close the signal dispatcher,
    /// wake the device threads so they see the exit, shut the vCPUs down
    /// and join the threads; then commit `Shutdown`.
    pub fn shutdown(&self) -> (r: Result<Vec<Step>, Error>)
        ensures
            transition_allowed(self.spec_state(), VmState::Shutdown) ==> (r is Ok
                && r->Ok_0@ == shutdown_steps(self.spec_on_tty())),
            !transition_allowed(self.spec_state(), VmState::Shutdown) ==> r == Err::<
                Vec<Step>,
                Error,
            >(Error::InvalidStateTransition(self.spec_state(), VmState::Shutdown)),
    {
        self.state.valid_transition(VmState::Shutdown)?;
        let mut steps: Vec<Step> = Vec::new();
        if self.on_tty {
            steps.push(Step::RestoreTerminal);
        }
        steps.push(Step::CloseSignalHandler);
        steps.push(Step::ResumeDevices);
        steps.push(Step::ShutdownCpus);
        steps.push(Step::JoinThreads);
        assert(steps@ =~= shutdown_steps(self.on_tty));
        Ok(steps)
    }

    /// Plans a pause: save the clock, activate pending virtio devices, stop
    /// the vCPUs, then quiesce the devices; then commit `Paused`.
    pub fn pause(&self) -> (r: Result<Vec<Step>, Error>)
        ensures
            transition_allowed(self.spec_state(), VmState::Paused) ==> (r is Ok
                && r->Ok_0@ == pause_steps()),
            !transition_allowed(self.spec_state(), VmState::Paused) ==> r == Err::<
                Vec<Step>,
                Error,
            >(Error::Pause(self.spec_state(), VmState::Paused)),
    {
        if self.state.valid_transition(VmState::Paused).is_err() {
            return Err(Error::Pause(self.state, VmState::Paused));
        }
        Ok(
            steps_of(
                &[Step::SaveClock, Step::ActivateVirtioDevices, Step::PauseCpus, Step::PauseDevices],
            ),
        )
    }

    /// Plans a resume: resume the vCPUs, restore the saved clock, resume
    /// the devices; then commit `Running`.
    pub fn resume(&self) -> (r: Result<Vec<Step>, Error>)
        ensures
            transition_allowed(self.spec_state(), VmState::Running) ==> (r is Ok
                && r->Ok_0@ == resume_steps()),
            !transition_allowed(self.spec_state(), VmState::Running) ==> r == Err::<
                Vec<Step>,
                Error,
            >(Error::Resume(self.spec_state(), VmState::Running)),
    {
        if self.state.valid_transition(VmState::Running).is_err() {
            return Err(Error::Resume(self.state, VmState::Running));
        }
        Ok(steps_of(&[Step::ResumeCpus, Step::RestoreClock, Step::ResumeDevices]))
    }

    /// Builds the snapshot tree: refused for a trusted domain and unless
    /// the VM is paused. The root is `vm`; its children are the CPU,
    /// memory and device managers' snapshots (`cpu-manager`,
    /// `memory-manager`, `device-manager`, in that order); its data
    /// section `vm-section` holds the saved clock and the hypervisor state
    /// and CPU features read by the caller.
    pub fn snapshot(
        &self,
        vm_state: Vec<u8>,
        common_cpuid: Vec<u8>,
        cpu_manager: Vec<u8>,
        memory_manager: Vec<u8>,
        device_manager: Vec<u8>,
    ) -> (r: Result<SnapshotTree, Error>)
        ensures
            r is Ok <==> !self.spec_tdx() && self.spec_state() == VmState::Paused,
            r is Err ==> r == Err::<SnapshotTree, Error>(Error::Snapshot),
            r matches Ok(t) ==> {
                &&& t.id@ == vm_snapshot_id()
                &&& t.data_section_id@ == vm_section_id()
                &&& t.children@.len() == 3
                &&& t.children@[0].id@ == cpu_manager_id() && t.children@[0].data == cpu_manager
                &&& t.children@[1].id@ == memory_manager_id() && t.children@[1].data
                    == memory_manager
                &&& t.children@[2].id@ == device_manager_id() && t.children@[2].data
                    == device_manager
                &&& t.data.clock == self.spec_saved_clock()
                &&& t.data.state == Some(vm_state)
                &&& t.data.common_cpuid == Some(common_cpuid)
            },
    {
        if self.tdx || self.state != VmState::Paused {
            return Err(Error::Snapshot);
        }
        let mut children: Vec<ComponentSnapshot> = Vec::new();
        children.push(ComponentSnapshot { id: cpu_manager_name(), data: cpu_manager });
        children.push(ComponentSnapshot { id: memory_manager_name(), data: memory_manager });
        children.push(ComponentSnapshot { id: device_manager_name(), data: device_manager });
        Ok(
            SnapshotTree {
                id: vm_snapshot_name(),
                children,
                data_section_id: vm_section_name(),
                data: VmSnapshot {
                    clock: self.saved_clock,
                    state: Some(vm_state),
                    common_cpuid: Some(common_cpuid),
                },
            },
        )
    }

    /// Plans restoring `snapshot` into this VM. The VM must be able to move
    /// to `Paused` and the snapshot must hold the memory, device and CPU
    /// managers' snapshots; otherwise nothing is done and `Restore` is
    /// returned. The steps restore the clock, the memory manager, the
    /// device structure, the CPU manager, then the devices' runtime wiring,
    /// the restored vCPUs, signals and terminal; then commit `Paused`.
    pub fn restore(&self, snapshot: &SnapshotTree) -> (r: Result<Vec<Step>, Error>)
        ensures
            (r is Ok) <==> (transition_allowed(self.spec_state(), VmState::Paused) && has_child(
                *snapshot,
                memory_manager_id(),
            ) && has_child(*snapshot, device_manager_id()) && has_child(
                *snapshot,
                cpu_manager_id(),
            )),
            r is Ok ==> r->Ok_0@ == restore_steps(),
            r is Err ==> r == Err::<Vec<Step>, Error>(Error::Restore),
    {
        if self.state.valid_transition(VmState::Paused).is_err() {
            return Err(Error::Restore);
        }
        if !tree_has_child(snapshot, &memory_manager_name()) || !tree_has_child(
            snapshot,
            &device_manager_name(),
        ) || !tree_has_child(snapshot, &cpu_manager_name()) {
            return Err(Error::Restore);
        }
        Ok(
            steps_of(
                &[
                    Step::RestoreClock,
                    Step::RestoreMemoryManager,
                    Step::RestoreDeviceManager,
                    Step::RestoreCpuManager,
                    Step::RestoreDevices,
                    Step::StartRestoredVcpus,
                    Step::SetupSignalHandler,
                    Step::SetupTty,
                ],
            ),
        )
    }

    /// Records a passthrough (VFIO) device that the device manager hot-plugged, so that a
    /// reboot recreates it; returns the notification to send to the guest.
    pub fn add_device(&mut self, device_cfg: DeviceConfig) -> (r: u32)
        ensures
            r == PCI_DEVICES_CHANGED,
            final(self).spec_config().devices_view() == devices_add(
                old(self).spec_config().devices_view(),
                DeviceKind::Device,
                device_view(device_cfg),
            ),
            final(self).spec_config().same_but_devices(&old(self).spec_config()),
            final(self).spec_state() == old(self).spec_state(),
    {
        self.record_hotplug(DeviceKind::Device, device_cfg)
    }

    /// Records a user-space (vfio-user) device that the device manager hot-plugged, so that a
    /// reboot recreates it; returns the notification to send to the guest.
    pub fn add_user_device(&mut self, device_cfg: DeviceConfig) -> (r: u32)
        ensures
            r == PCI_DEVICES_CHANGED,
            final(self).spec_config().devices_view() == devices_add(
                old(self).spec_config().devices_view(),
                DeviceKind::UserDevice,
                device_view(device_cfg),
            ),
            final(self).spec_config().same_but_devices(&old(self).spec_config()),
            final(self).spec_state() == old(self).spec_state(),
    {
        self.record_hotplug(DeviceKind::UserDevice, device_cfg)
    }

    /// Records a disk that the device manager hot-plugged, so that a
    /// reboot recreates it; returns the notification to send to the guest.
    pub fn add_disk(&mut self, device_cfg: DeviceConfig) -> (r: u32)
        ensures
            r == PCI_DEVICES_CHANGED,
            final(self).spec_config().devices_view() == devices_add(
                old(self).spec_config().devices_view(),
                DeviceKind::Disk,
                device_view(device_cfg),
            ),
            final(self).spec_config().same_but_devices(&old(self).spec_config()),
            final(self).spec_state() == old(self).spec_state(),
    {
        self.record_hotplug(DeviceKind::Disk, device_cfg)
    }

    /// Records a shared filesystem that the device manager hot-plugged, so that a
    /// reboot recreates it; returns the notification to send to the guest.
    pub fn add_fs(&mut self, device_cfg: DeviceConfig) -> (r: u32)
        ensures
            r == PCI_DEVICES_CHANGED,
            final(self).spec_config().devices_view() == devices_add(
                old(self).spec_config().devices_view(),
                DeviceKind::Fs,
                device_view(device_cfg),
            ),
            final(self).spec_config().same_but_devices(&old(self).spec_config()),
            final(self).spec_state() == old(self).spec_state(),
    {
        self.record_hotplug(DeviceKind::Fs, device_cfg)
    }

    /// Records a persistent-memory device that the device manager hot-plugged, so that a
    /// reboot recreates it; returns the notification to send to the guest.
    pub fn add_pmem(&mut self, device_cfg: DeviceConfig) -> (r: u32)
        ensures
            r == PCI_DEVICES_CHANGED,
            final(self).spec_config().devices_view() == devices_add(
                old(self).spec_config().devices_view(),
                DeviceKind::Pmem,
                device_view(device_cfg),
            ),
            final(self).spec_config().same_but_devices(&old(self).spec_config()),
            final(self).spec_state() == old(self).spec_state(),
    {
        self.record_hotplug(DeviceKind::Pmem, device_cfg)
    }

    /// Records a network device that the device manager hot-plugged, so that a
    /// reboot recreates it; returns the notification to send to the guest.
    pub fn add_net(&mut self, device_cfg: DeviceConfig) -> (r: u32)
        ensures
            r == PCI_DEVICES_CHANGED,
            final(self).spec_config().devices_view() == devices_add(
                old(self).spec_config().devices_view(),
                DeviceKind::Net,
                device_view(device_cfg),
            ),
            final(self).spec_config().same_but_devices(&old(self).spec_config()),
            final(self).spec_state() == old(self).spec_state(),
    {
        self.record_hotplug(DeviceKind::Net, device_cfg)
    }

    /// Records a vDPA device that the device manager hot-plugged, so that a
    /// reboot recreates it; returns the notification to send to the guest.
    pub fn add_vdpa(&mut self, device_cfg: DeviceConfig) -> (r: u32)
        ensures
            r == PCI_DEVICES_CHANGED,
            final(self).spec_config().devices_view() == devices_add(
                old(self).spec_config().devices_view(),
                DeviceKind::Vdpa,
                device_view(device_cfg),
            ),
            final(self).spec_config().same_but_devices(&old(self).spec_config()),
            final(self).spec_state() == old(self).spec_state(),
    {
        self.record_hotplug(DeviceKind::Vdpa, device_cfg)
    }

    /// Records the vsock device that the device manager hot-plugged; a VM
    /// has at most one, so a second one is refused.
    pub fn add_vsock(&mut self, vsock_cfg: DeviceConfig) -> (r: Result<u32, Error>)
        ensures
            old(self).spec_config().vsock is Some ==> r == Err::<u32, Error>(
                Error::TooManyVsockDevices,
            ) && *final(self) == *old(self),
            old(self).spec_config().vsock is None ==> r == Ok::<u32, Error>(PCI_DEVICES_CHANGED)
                && final(self).spec_config().devices_view() == devices_add(
                old(self).spec_config().devices_view(),
                DeviceKind::Vsock,
                device_view(vsock_cfg),
            ) && final(self).spec_config().same_but_devices(&old(self).spec_config())
                && final(self).spec_state() == old(self).spec_state(),
    {
        if self.config.vsock.is_some() {
            return Err(Error::TooManyVsockDevices);
        }
        Ok(self.record_hotplug(DeviceKind::Vsock, vsock_cfg))
    }

    /// Records that the device called `id` was unplugged: it leaves every
    /// device list of the configuration. Returns the notification to send.
    pub fn remove_device(&mut self, id: &String) -> (r: u32)
        ensures
            r == PCI_DEVICES_CHANGED,
            final(self).spec_config().devices_view() == devices_remove(
                old(self).spec_config().devices_view(),
                id@,
            ),
            final(self).spec_config().same_but_devices(&old(self).spec_config()),
            final(self).spec_state() == old(self).spec_state(),
    {
        self.config.remove_device(id);
        PCI_DEVICES_CHANGED
    }

    /// Records a resize in the configuration (see `VmConfig::resize`) and
    /// returns the steps to take next, in order. `vcpus_changed` tells
    /// whether the CPU manager changed the vCPU count and
    /// `memory_region_added` whether the memory manager added a region.
    pub fn resize(
        &mut self,
        desired_vcpus: Option<u8>,
        desired_memory: Option<u64>,
        desired_balloon: Option<u64>,
        vcpus_changed: bool,
        memory_region_added: bool,
    ) -> (steps: Vec<Step>)
        ensures
            final(self).spec_config() == (VmConfig {
                boot_vcpus: match desired_vcpus {
                    Some(v) => v,
                    None => old(self).spec_config().boot_vcpus,
                },
                memory: match desired_memory {
                    Some(m) => memory_after_resize(old(self).spec_config().memory, m),
                    None => old(self).spec_config().memory,
                },
                balloon_size: match (old(self).spec_config().balloon_size, desired_balloon) {
                    (Some(_), Some(b)) => Some(b),
                    _ => old(self).spec_config().balloon_size,
                },
                ..old(self).spec_config()
            }),
            final(self).spec_state() == old(self).spec_state(),
            final(self).spec_saved_clock() == old(self).spec_saved_clock(),
            steps@ == resize_steps(
                desired_vcpus is Some,
                vcpus_changed,
                desired_memory is Some,
                memory_region_added,
                old(self).spec_config().memory.hotplug_method,
            ),
    {
        let method = self.config.memory.hotplug_method;
        let _ = self.config.resize(
            desired_vcpus,
            desired_memory,
            desired_balloon,
            vcpus_changed,
            memory_region_added,
        );
        let mut steps: Vec<Step> = Vec::new();
        if desired_vcpus.is_some() && vcpus_changed {
            steps.push(Step::NotifyHotplug { flags: CPU_DEVICES_CHANGED });
        }
        if desired_memory.is_some() && memory_region_added {
            steps.push(Step::UpdateMemory);
            if method == HotplugMethod::Acpi {
                steps.push(Step::NotifyHotplug { flags: MEMORY_DEVICES_CHANGED });
            }
        }
        assert(steps@ =~= resize_steps(
            desired_vcpus is Some,
            vcpus_changed,
            desired_memory is Some,
            memory_region_added,
            old(self).spec_config().memory.hotplug_method,
        ));
        steps
    }

    /// Grows a memory zone (see `VmConfig::resize_zone`) and returns how many
    /// bytes to hot-plug into it.
    pub fn resize_zone(&mut self, id: &String, desired_memory: u64) -> (r: Result<u64, Error>)
        ensures
            r is Err ==> r == Err::<u64, Error>(Error::ResizeZone) && *final(self) == *old(self),
            r matches Ok(delta) ==> match old(self).spec_config().memory.zones {
                Some(zs) => {
                    let k = first_zone(zs@, id@, 0);
                    &&& 0 <= k < zs@.len()
                    &&& desired_memory >= zs@[k].size
                    &&& delta == desired_memory - zs@[k].size
                    &&& final(self).spec_config().memory.zones matches Some(nz) && nz@
                        == zs@.update(
                        k,
                        MemoryZoneConfig { hotplugged_size: Some(delta), ..zs@[k] },
                    )
                },
                None => false,
            },
            r is Err <==> match old(self).spec_config().memory.zones {
                Some(zs) => {
                    let k = first_zone(zs@, id@, 0);
                    k < 0 || desired_memory < zs@[k].size
                },
                None => true,
            },
            final(self).spec_state() == old(self).spec_state(),
    {
        if let Some(zs) = &self.config.memory.zones {
            proof {
                lemma_first_zone_range(zs@, id@, 0);
            }
        }
        self.config.resize_zone(id, desired_memory)
    }

    /// Records a hot-plugged device in the configuration and returns the
    /// notification to send.
    fn record_hotplug(&mut self, kind: DeviceKind, d: DeviceConfig) -> (r: u32)
        ensures
            r == PCI_DEVICES_CHANGED,
            final(self).spec_config().devices_view() == devices_add(
                old(self).spec_config().devices_view(),
                kind,
                device_view(d),
            ),
            final(self).spec_config().same_but_devices(&old(self).spec_config()),
            final(self).spec_state() == old(self).spec_state(),
    {
        self.config.add_device_of_kind(kind, d);
        PCI_DEVICES_CHANGED
    }
}

/// The number of vCPUs to report: the active ones once the VM runs, the
/// boot count before.
pub fn active_vcpus(active: usize, boot_vcpus: u8) -> (r: usize)
    ensures
        r == if active > 0 {
            active
        } else {
            boot_vcpus as usize
        },
{
    if active > 0 {
        active
    } else {
        boot_vcpus as usize
    }
}

} // verus!
