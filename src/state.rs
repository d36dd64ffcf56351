use vstd::prelude::*;

verus! {

/// The lifecycle state of a virtual machine.
#[derive(Clone, Copy, Debug, PartialEq, Eq, Structural)]
pub enum VmState {
    Created,
    Running,
    Shutdown,
    Paused,
    BreakPoint,
}

/// Errors of VM management that this library decides.
#[derive(Clone, Debug, PartialEq, Eq)]
pub enum Error {
    /// The requested lifecycle transition is not one of the legal edges.
    InvalidStateTransition(VmState, VmState),
    /// Pausing the VM failed; holds the refused transition's origin and target.
    Pause(VmState, VmState),
    /// Resuming the VM failed; holds the refused transition's origin and target.
    Resume(VmState, VmState),
    /// Restoring the VM failed.
    Restore,
    /// Snapshotting the VM failed.
    Snapshot,
    /// The NUMA configuration is inconsistent.
    InvalidNumaConfig,
    /// A memory zone cannot be resized as requested.
    ResizeZone,
    /// The kernel command line could not be built.
    CmdLineInsertStr,
    /// The kernel loader rejected the kernel image.
    KernelLoad,
    /// A raw firmware image is larger than the firmware window.
    FirmwareTooLarge,
    /// The kernel image carries no PVH entry point.
    KernelMissingPvhHeader,
    /// The trusted-domain payload is not a bootable bzImage.
    InvalidPayloadType,
    /// The trusted-domain firmware has no hand-off block section.
    MissingHobSection,
    /// A second vsock device was requested.
    TooManyVsockDevices,
    /// The firmware image could not be read.
    FirmwareFile,
    /// A bus failed a guest access.
    BusAccess,
}

/// The legal edges of the lifecycle state machine.
pub open spec fn transition_allowed(from: VmState, to: VmState) -> bool {
    match from {
        VmState::Created => to == VmState::Running || to == VmState::Paused || to
            == VmState::BreakPoint,
        VmState::Running => to == VmState::Shutdown || to == VmState::Paused || to
            == VmState::BreakPoint,
        VmState::Shutdown => to == VmState::Running,
        VmState::Paused => to == VmState::Running || to == VmState::Shutdown,
        VmState::BreakPoint => to == VmState::Created || to == VmState::Running,
    }
}

impl VmState {
    /// Checks that moving from `self` to `new_state` is a legal transition.
    pub fn valid_transition(self, new_state: VmState) -> (r: Result<(), Error>)
        ensures
            transition_allowed(self, new_state) <==> r is Ok,
            !transition_allowed(self, new_state) ==> r == Err::<(), Error>(
                Error::InvalidStateTransition(self, new_state),
            ),
    {
        let ok = match self {
            VmState::Created => match new_state {
                VmState::Created | VmState::Shutdown => false,
                VmState::Running | VmState::Paused | VmState::BreakPoint => true,
            },
            VmState::Running => match new_state {
                VmState::Created | VmState::Running => false,
                VmState::Paused | VmState::Shutdown | VmState::BreakPoint => true,
            },
            VmState::Shutdown => match new_state {
                VmState::Running => true,
                _ => false,
            },
            VmState::Paused => match new_state {
                VmState::Running | VmState::Shutdown => true,
                _ => false,
            },
            VmState::BreakPoint => match new_state {
                VmState::Created | VmState::Running => true,
                _ => false,
            },
        };
        if ok {
            Ok(())
        } else {
            Err(Error::InvalidStateTransition(self, new_state))
        }
    }
}

/// Every state has exactly the documented set of successors: a transition
/// into a state is accepted precisely on the edges of the table, and no
/// state may move to itself.
pub proof fn lemma_transition_table(s: VmState, t: VmState)
    ensures
        transition_allowed(s, t) <==> (s == VmState::Created && (t == VmState::Running || t
            == VmState::Paused || t == VmState::BreakPoint)) || (s == VmState::Running && (t
            == VmState::Shutdown || t == VmState::Paused || t == VmState::BreakPoint)) || (s
            == VmState::Shutdown && t == VmState::Running) || (s == VmState::Paused && (t
            == VmState::Running || t == VmState::Shutdown)) || (s == VmState::BreakPoint && (t
            == VmState::Created || t == VmState::Running)),
        !transition_allowed(s, s),
{
}

} // verus!
