use crate::state::Error;
use vstd::prelude::*;

verus! {

/// The number of physical address bits the guest gets: the requested
/// maximum, bounded by what the host supports.
pub fn physical_bits(host_phys_bits: u8, max_phys_bits: u8) -> (r: u8)
    ensures
        r == if host_phys_bits < max_phys_bits {
            host_phys_bits
        } else {
            max_phys_bits
        },
{
    if host_phys_bits < max_phys_bits {
        host_phys_bits
    } else {
        max_phys_bits
    }
}

/// The guest's physical address width: the smaller of the host's and the
/// requested maximum.
pub open spec fn spec_physical_bits(host: u8, max: u8) -> u8 {
    if host < max {
        host
    } else {
        max
    }
}

/// Asking for more address bits never gives fewer, and never more than the
/// host has.
pub proof fn lemma_physical_bits_bounded(host: u8, a: u8, b: u8)
    requires
        a <= b,
    ensures
        spec_physical_bits(host, a) <= spec_physical_bits(host, b),
        spec_physical_bits(host, b) <= host,
        spec_physical_bits(host, b) <= b,
        b >= host ==> spec_physical_bits(host, b) == host,
{
}

/// Interrupt number of the performance monitoring unit: its private
/// peripheral interrupt number, offset past the 16 software-generated
/// interrupts.
pub fn pmu_irq(ppi: u32) -> (r: u32)
    requires
        ppi + 16 <= u32::MAX,
    ensures
        r == ppi + 16,
{
    ppi + 16
}

/// Size of a PCI segment's device area `[start, end]` (both inclusive).
pub fn pci_device_space_size(start: u64, end: u64) -> (r: u64)
    requires
        start <= end,
        end - start + 1 <= u64::MAX,
    ensures
        r == end - start + 1,
{
    end - start + 1
}

/// Largest raw firmware image that fits the firmware window.
pub const FIRMWARE_MAX_SIZE: u64 = 0x40_0000;

/// A raw firmware image ends at this guest address (4 GiB).
pub const FIRMWARE_END: u64 = 0x1_0000_0000;

/// Where a raw firmware image of `size` bytes is loaded so that it ends at
/// 4 GiB; images over 4 MiB are refused.
pub fn firmware_load_address(size: u64) -> (r: Result<u64, Error>)
    ensures
        size > FIRMWARE_MAX_SIZE ==> r == Err::<u64, Error>(Error::FirmwareTooLarge),
        size <= FIRMWARE_MAX_SIZE ==> r == Ok::<u64, Error>((FIRMWARE_END - size) as u64),
{
    if size > FIRMWARE_MAX_SIZE {
        return Err(Error::FirmwareTooLarge);
    }
    Ok(FIRMWARE_END - size)
}

/// What the ELF loader made of the kernel image.
#[derive(Clone, Copy, Debug, PartialEq, Eq, Structural)]
pub enum KernelLoadResult {
    /// An ELF kernel was loaded; it advertises a PVH entry point or not.
    Loaded { pvh_entry: Option<u64> },
    /// The image has no ELF magic; it is `file_size` bytes long.
    NotElf { file_size: u64 },
    /// The loader failed for another reason.
    Failed,
}

/// How the kernel image is booted.
#[derive(Clone, Copy, Debug, PartialEq, Eq, Structural)]
pub enum KernelPlan {
    /// Write the command line and enter the kernel at `entry`.
    Kernel { entry: u64 },
    /// Copy the image as raw firmware to `load_address`; the firmware
    /// supplies its own reset vector, so there is no entry point.
    Firmware { load_address: u64, size: u64 },
}

/// Decides how to boot the kernel image from what the ELF loader reported.
pub fn plan_kernel(loaded: KernelLoadResult) -> (r: Result<KernelPlan, Error>)
    ensures
        match loaded {
            KernelLoadResult::Loaded { pvh_entry: Some(e) } => r == Ok::<KernelPlan, Error>(
                KernelPlan::Kernel { entry: e },
            ),
            KernelLoadResult::Loaded { pvh_entry: None } => r == Err::<KernelPlan, Error>(
                Error::KernelMissingPvhHeader,
            ),
            KernelLoadResult::NotElf { file_size } => if file_size > FIRMWARE_MAX_SIZE {
                r == Err::<KernelPlan, Error>(Error::FirmwareTooLarge)
            } else {
                r == Ok::<KernelPlan, Error>(
                    KernelPlan::Firmware {
                        load_address: (FIRMWARE_END - file_size) as u64,
                        size: file_size,
                    },
                )
            },
            KernelLoadResult::Failed => r == Err::<KernelPlan, Error>(Error::KernelLoad),
        },
{
    match loaded {
        KernelLoadResult::Loaded { pvh_entry } => match pvh_entry {
            Some(e) => Ok(KernelPlan::Kernel { entry: e }),
            None => Err(Error::KernelMissingPvhHeader),
        },
        KernelLoadResult::NotElf { file_size } => {
            let load_address = firmware_load_address(file_size)?;
            Ok(KernelPlan::Firmware { load_address, size: file_size })
        },
        KernelLoadResult::Failed => Err(Error::KernelLoad),
    }
}

} // verus!
