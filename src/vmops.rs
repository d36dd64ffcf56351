use vstd::prelude::*;

verus! {

/// First port of the legacy PCI configuration mechanism.
pub const PCI_CONFIG_IO_PORT: u64 = 0xcf8;

/// Number of ports of the legacy PCI configuration mechanism.
pub const PCI_CONFIG_IO_PORT_SIZE: u64 = 0x8;

/// Where a port access goes.
#[derive(Clone, Copy, Debug, PartialEq, Eq, Structural)]
pub enum PioRoute {
    /// To the PCI configuration device, at `offset` from its first port.
    PciConfig { offset: u64 },
    /// To the port I/O bus.
    Bus,
}

/// Routes a port access: the legacy PCI configuration ports go to the
/// configuration device, every other port to the I/O bus.
pub fn route_pio(port: u64) -> (r: PioRoute)
    ensures
        PCI_CONFIG_IO_PORT <= port < PCI_CONFIG_IO_PORT + PCI_CONFIG_IO_PORT_SIZE ==> r
            == (PioRoute::PciConfig { offset: (port - PCI_CONFIG_IO_PORT) as u64 }),
        !(PCI_CONFIG_IO_PORT <= port < PCI_CONFIG_IO_PORT + PCI_CONFIG_IO_PORT_SIZE) ==> r
            == (PioRoute::Bus),
{
    if PCI_CONFIG_IO_PORT <= port && port < PCI_CONFIG_IO_PORT + PCI_CONFIG_IO_PORT_SIZE {
        PioRoute::PciConfig { offset: port - PCI_CONFIG_IO_PORT }
    } else {
        PioRoute::Bus
    }
}

/// What a bus returned for a guest access.
#[derive(Clone, Copy, Debug, PartialEq, Eq, Structural)]
pub enum BusOutcome {
    /// The device handled the access.
    Done,
    /// The device handled a write and handed back a barrier to wait on.
    Barrier,
    /// No device is registered at the address.
    MissingAddressRange,
    /// The bus failed otherwise.
    Failed,
}

/// What the trapping vCPU does next.
#[derive(Clone, Copy, Debug, PartialEq, Eq, Structural)]
pub enum TrapAction {
    /// Return to the guest.
    Complete,
    /// Block on the barrier until the quiescing thread arrives, then return.
    WaitOnBarrier,
    /// Log the unregistered address and return; a read sees zeroes.
    WarnUnregistered,
    /// Report the bus error to the hypervisor.
    Fail,
}

/// Decides the end of a guest read: an unregistered address is tolerated
/// (the guest reads zeroes), any other bus error is reported.
pub fn read_action(outcome: BusOutcome) -> (r: TrapAction)
    ensures
        r == match outcome {
            BusOutcome::MissingAddressRange => TrapAction::WarnUnregistered,
            BusOutcome::Failed => TrapAction::Fail,
            _ => TrapAction::Complete,
        },
{
    match outcome {
        BusOutcome::MissingAddressRange => TrapAction::WarnUnregistered,
        BusOutcome::Failed => TrapAction::Fail,
        _ => TrapAction::Complete,
    }
}

/// Decides the end of a guest write. The vCPU waits exactly when the
/// device handed back a barrier; otherwise it returns at once. An
/// unregistered address is tolerated and any other bus error reported.
pub fn write_action(outcome: BusOutcome) -> (r: TrapAction)
    ensures
        (r == TrapAction::WaitOnBarrier) <==> (outcome == BusOutcome::Barrier),
        outcome == BusOutcome::Done ==> r == TrapAction::Complete,
        outcome == BusOutcome::MissingAddressRange ==> r == TrapAction::WarnUnregistered,
        outcome == BusOutcome::Failed ==> r == TrapAction::Fail,
{
    match outcome {
        BusOutcome::Done => TrapAction::Complete,
        BusOutcome::Barrier => TrapAction::WaitOnBarrier,
        BusOutcome::MissingAddressRange => TrapAction::WarnUnregistered,
        BusOutcome::Failed => TrapAction::Fail,
    }
}

/// Fills a read buffer with zeroes, as a read of an unregistered address
/// returns.
pub fn zero_fill(data: &mut Vec<u8>)
    ensures
        final(data)@.len() == old(data)@.len(),
        forall|i: int| 0 <= i < final(data)@.len() ==> final(data)@[i] == 0,
{
    let mut i: usize = 0;
    while i < data.len()
        invariant
            i <= data@.len(),
            data@.len() == old(data)@.len(),
            forall|k: int| 0 <= k < i ==> data@[k] == 0,
        decreases data@.len() - i,
    {
        data.set(i, 0);
        i += 1;
    }
}

} // verus!
