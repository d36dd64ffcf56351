use crate::state::Error;
use vstd::prelude::*;
use vstd::multiset::Multiset;
use vstd::seq_lib::group_to_multiset_ensures;

verus! {

/// The kind of a section of trusted-domain virtual firmware.
#[derive(Clone, Copy, Debug, PartialEq, Eq, Structural, Default)]
pub enum TdvfSectionType {
    /// Boot firmware volume: code copied from the firmware file.
    Bfv,
    /// Configuration firmware volume: data copied from the firmware file.
    Cfv,
    /// Where the hand-off block is built.
    TdHob,
    /// Temporary memory used by the firmware while it runs.
    TempMem,
    /// Permanent memory reserved for the firmware.
    PermMem,
    /// Where the payload (the guest kernel) is copied.
    Payload,
    /// Where the payload's command line is written.
    PayloadParam,
    /// Any other kind.
    #[default]
    Reserved,
}

/// One entry of the firmware's section table.
#[derive(Clone, Copy, Debug, PartialEq, Eq, Structural, Default)]
pub struct TdvfSection {
    /// Offset of the section's data in the firmware file.
    pub data_offset: u32,
    /// Number of bytes of data in the firmware file.
    pub data_size: u32,
    /// Guest physical address of the section.
    pub address: u64,
    /// Size of the section in guest memory.
    pub size: u64,
    /// What the section holds.
    pub section_type: TdvfSectionType,
    /// Section attributes; 1 asks for the region to be measured.
    pub attributes: u32,
}

/// Last byte of a guest RAM region given as `(start, length)`.
pub open spec fn region_last(r: (u64, u64)) -> int {
    r.0 + r.1 - 1
}

/// A guest RAM region that is non-empty and whose end fits in 64 bits.
pub open spec fn region_ok(r: (u64, u64)) -> bool {
    r.1 >= 1 && r.0 + r.1 <= u64::MAX
}

/// A section whose end fits in 64 bits.
pub open spec fn section_ok(s: TdvfSection) -> bool {
    s.address + s.size <= u64::MAX
}

/// The memory resources of the hand-off block, as `(start, size, is_ram)`.
///
/// `secs` is a stack of temporary-memory sections: the next one to place is
/// the last. `regs` are the guest RAM regions in order and `next` is the
/// cursor. Within a region, a section that starts at or below the cursor is
/// emitted as non-RAM and the cursor moves past it; otherwise RAM is emitted
/// from the cursor up to just before the next section or to the end of the
/// region. Sections left once every region is covered are emitted last.
pub open spec fn hob_walk(secs: Seq<TdvfSection>, regs: Seq<(u64, u64)>, next: int) -> Seq<
    (u64, u64, bool),
>
    decreases regs.len(), secs.len(), if regs.len() > 0 {
        region_last(regs[0]) + 1 - next
    } else {
        0
    },
{
    if regs.len() == 0 {
        if secs.len() == 0 {
            Seq::empty()
        } else {
            let s = secs.last();
            seq![(s.address, s.size, false)] + hob_walk(secs.drop_last(), regs, next)
        }
    } else {
        let rs = regs[0].0 as int;
        let re = region_last(regs[0]);
        let n = if rs > next {
            rs
        } else {
            next
        };
        if n > re {
            hob_walk(secs, regs.drop_first(), n)
        } else if secs.len() > 0 && secs.last().address <= n {
            let s = secs.last();
            seq![(s.address, s.size, false)] + hob_walk(
                secs.drop_last(),
                regs,
                s.address + s.size,
            )
        } else {
            let last = if secs.len() > 0 && secs.last().address - 1 < re {
                secs.last().address - 1
            } else {
                re
            };
            seq![(n as u64, (last - n + 1) as u64, true)] + hob_walk(secs, regs, last + 1)
        }
    }
}

proof fn lemma_walk_cursor(secs: Seq<TdvfSection>, regs: Seq<(u64, u64)>, next: int)
    requires
        regs.len() > 0,
        next < regs[0].0,
    ensures
        hob_walk(secs, regs, next) == hob_walk(secs, regs, regs[0].0 as int),
{
}

/// Interleaves the guest RAM regions with the temporary-memory sections.
///
/// `sorted_sections` holds the sections with the lowest address last;
/// `guest_regions` holds the boot RAM regions as `(start, length)`, in
/// ascending order.
pub fn hob_memory_resources(sorted_sections: Vec<TdvfSection>, guest_regions: &Vec<(u64, u64)>) -> (r:
    Vec<(u64, u64, bool)>)
    requires
        forall|i: int| 0 <= i < sorted_sections@.len() ==> section_ok(#[trigger] sorted_sections@[i]),
        forall|i: int| 0 <= i < guest_regions@.len() ==> region_ok(#[trigger] guest_regions@[i]),
    ensures
        r@ == hob_walk(sorted_sections@, guest_regions@, 0),
{
    let ghost goal = hob_walk(sorted_sections@, guest_regions@, 0);
    let mut secs = sorted_sections;
    let mut list: Vec<(u64, u64, bool)> = Vec::new();
    let mut next: u64 = 0;
    let mut j: usize = 0;
    proof {
        assert(guest_regions@.skip(0) == guest_regions@);
    }
    while j < guest_regions.len()
        invariant
            j <= guest_regions@.len(),
            forall|i: int| 0 <= i < secs@.len() ==> section_ok(#[trigger] secs@[i]),
            forall|i: int| 0 <= i < guest_regions@.len() ==> region_ok(#[trigger] guest_regions@[i]),
            list@ + hob_walk(secs@, guest_regions@.skip(j as int), next as int) == goal,
        decreases guest_regions@.len() - j,
    {
        let ghost regs = guest_regions@.skip(j as int);
        let (rs, len) = guest_regions[j];
        let re: u64 = rs + (len - 1);
        if rs > next {
            next = rs;
        }
        while next <= re
            invariant
                forall|i: int| 0 <= i < secs@.len() ==> section_ok(#[trigger] secs@[i]),
                regs.len() > 0,
                regs[0] == (rs, len),
                re == region_last(regs[0]),
                rs <= next,
                re < u64::MAX,
                list@ + hob_walk(secs@, regs, next as int) == goal,
            decreases secs@.len(), re + 1 - next,
        {
            let n = secs.len();
            if n > 0 && secs[n - 1].address <= next {
                let ghost old_secs = secs@;
                let s = secs.pop().unwrap();
                assert(old_secs.drop_last() == secs@);
                assert(section_ok(old_secs[n - 1]));
                list.push((s.address, s.size, false));
                let ghost after = s.address + s.size;
                next = s.address + s.size;
                if rs > next {
                    proof {
                        lemma_walk_cursor(secs@, regs, after);
                    }
                }
                if rs > next {
                    next = rs;
                }
            } else {
                let last: u64 = if n > 0 && secs[n - 1].address - 1 < re {
                    secs[n - 1].address - 1
                } else {
                    re
                };
                list.push((next, last - next + 1, true));
                next = last + 1;
            }
        }
        proof {
            assert(regs.drop_first() == guest_regions@.skip(j + 1));
        }
        j += 1;
    }
    proof {
        assert(guest_regions@.skip(j as int) == Seq::<(u64, u64)>::empty());
    }
    while secs.len() > 0
        invariant
            list@ + hob_walk(secs@, Seq::<(u64, u64)>::empty(), next as int) == goal,
        decreases secs@.len(),
    {
        let ghost old_secs = secs@;
        let s = secs.pop().unwrap();
        assert(old_secs.drop_last() == secs@);
        list.push((s.address, s.size, false));
    }
    list
}

/// Start of the 32-bit device window.
pub const MEM_32BIT_DEVICES_START: u64 = 0xc000_0000;

/// Start of the local APIC's MMIO page, the end of the 32-bit device window.
pub const APIC_START: u64 = 0xfee0_0000;

/// Signature of a Linux boot setup header ("HdrS").
pub const SETUP_HEADER_MAGIC: u32 = 0x5372_6448;

/// Lowest boot protocol version that the payload path accepts.
pub const SETUP_HEADER_MIN_VERSION: u16 = 0x0200;

/// Offset of the signature within the setup header.
pub const SETUP_HEADER_SIGNATURE_OFFSET: usize = 0x11;

/// Offset of the boot protocol version within the setup header.
pub const SETUP_HEADER_VERSION_OFFSET: usize = 0x15;

/// Offset of the load flags within the setup header.
pub const SETUP_HEADER_LOADFLAGS_OFFSET: usize = 0x20;

/// Offset of the setup header within a bzImage file.
pub const SETUP_HEADER_FILE_OFFSET: u64 = 0x1f1;

/// The temporary-memory sections of `s`, in the order given.
pub open spec fn temp_sections(s: Seq<TdvfSection>) -> Seq<TdvfSection>
    decreases s.len(),
{
    if s.len() == 0 {
        Seq::empty()
    } else {
        let r = temp_sections(s.drop_last());
        if s.last().section_type == TdvfSectionType::TempMem {
            r.push(s.last())
        } else {
            r
        }
    }
}

/// Addresses never increase along `s`.
pub open spec fn descending(s: Seq<TdvfSection>) -> bool {
    forall|i: int, j: int| 0 <= i < j < s.len() ==> s[i].address >= s[j].address
}

/// Picks the temporary-memory sections and orders them by descending
/// address, ready for `hob_memory_resources`.
pub fn temp_memory_sections(sections: &Vec<TdvfSection>) -> (r: Vec<TdvfSection>)
    ensures
        r@.to_multiset() == temp_sections(sections@).to_multiset(),
        descending(r@),
{
    broadcast use group_to_multiset_ensures;

    let mut pool: Vec<TdvfSection> = Vec::new();
    let mut i: usize = 0;
    while i < sections.len()
        invariant
            i <= sections@.len(),
            pool@ == temp_sections(sections@.take(i as int)),
        decreases sections@.len() - i,
    {
        assert(sections@.take(i + 1).drop_last() == sections@.take(i as int));
        if sections[i].section_type == TdvfSectionType::TempMem {
            pool.push(sections[i]);
        }
        i += 1;
    }
    assert(sections@.take(i as int) == sections@);
    let ghost all = pool@;
    let mut out: Vec<TdvfSection> = Vec::new();
    while pool.len() > 0
        invariant
            out@.to_multiset().add(pool@.to_multiset()) == all.to_multiset(),
            descending(out@),
            forall|a: int, b: int|
                0 <= a < out@.len() && 0 <= b < pool@.len() ==> out@[a].address
                    >= pool@[b].address,
        decreases pool@.len(),
    {
        let mut best: usize = 0;
        let mut k: usize = 1;
        while k < pool.len()
            invariant
                0 <= best < pool@.len(),
                1 <= k <= pool@.len(),
                forall|b: int| 0 <= b < k ==> pool@[best as int].address >= pool@[b].address,
            decreases pool@.len() - k,
        {
            if pool[k].address > pool[best].address {
                best = k;
            }
            k += 1;
        }
        let ghost before = pool@;
        let s = pool.remove(best);
        proof {
            before.to_multiset_ensures();
            out@.to_multiset_ensures();
        }
        assert(before.remove(best as int).to_multiset() == before.to_multiset().remove(s));
        assert(before.contains(s)) by {
            assert(before[best as int] == s);
        }
        assert(before.to_multiset().count(s) > 0);
        assert forall|b: int| 0 <= b < pool@.len() implies s.address >= pool@[b].address by {
            if b < best {
                assert(pool@[b] == before[b]);
            } else {
                assert(pool@[b] == before[b + 1]);
            }
        }
        assert forall|a: int, b: int|
            0 <= a < out@.len() && 0 <= b < pool@.len() implies out@[a].address
            >= pool@[b].address by {
            if b < best {
                assert(pool@[b] == before[b]);
            } else {
                assert(pool@[b] == before[b + 1]);
            }
        }
        out.push(s);
        assert(out@.to_multiset().add(pool@.to_multiset()) =~= all.to_multiset());
    }
    assert(pool@.to_multiset() =~= Multiset::empty());
    assert(out@.to_multiset() =~= all.to_multiset());
    out
}

/// `a` lies in the region `r`.
pub open spec fn in_region(a: u64, r: (u64, u64)) -> bool {
    r.0 <= a && a <= region_last(r)
}

/// `a` lies in one of the regions.
pub open spec fn in_guest_ram(a: u64, regs: Seq<(u64, u64)>) -> bool {
    exists|i: int| 0 <= i < regs.len() && in_region(a, #[trigger] regs[i])
}

/// Whether `addr` falls inside one of the guest RAM regions.
pub fn address_in_range(addr: u64, regions: &Vec<(u64, u64)>) -> (r: bool)
    requires
        forall|i: int| 0 <= i < regions@.len() ==> region_ok(#[trigger] regions@[i]),
    ensures
        r == in_guest_ram(addr, regions@),
{
    let mut j: usize = 0;
    while j < regions.len()
        invariant
            j <= regions@.len(),
            forall|i: int| 0 <= i < regions@.len() ==> region_ok(#[trigger] regions@[i]),
            forall|i: int| 0 <= i < j ==> !in_region(addr, #[trigger] regions@[i]),
        decreases regions@.len() - j,
    {
        let (start, len) = regions[j];
        if start <= addr && addr <= start + (len - 1) {
            assert(in_region(addr, regions@[j as int]));
            return true;
        }
        j += 1;
    }
    false
}

/// The `(address, size)` of each section that boot RAM does not already
/// back, in section order.
pub open spec fn section_allocations(s: Seq<TdvfSection>, regs: Seq<(u64, u64)>) -> Seq<
    (u64, u64),
>
    decreases s.len(),
{
    if s.len() == 0 {
        Seq::empty()
    } else {
        let r = section_allocations(s.drop_last(), regs);
        if in_guest_ram(s.last().address, regs) {
            r
        } else {
            r.push((s.last().address, s.last().size))
        }
    }
}

/// The RAM regions to add so that every firmware section is backed; a
/// section whose address already lies in boot RAM reuses that RAM.
pub fn tdvf_allocations(sections: &Vec<TdvfSection>, boot_regions: &Vec<(u64, u64)>) -> (r: Vec<
    (u64, u64),
>)
    requires
        forall|i: int| 0 <= i < boot_regions@.len() ==> region_ok(#[trigger] boot_regions@[i]),
    ensures
        r@ == section_allocations(sections@, boot_regions@),
{
    let mut out: Vec<(u64, u64)> = Vec::new();
    let mut i: usize = 0;
    while i < sections.len()
        invariant
            i <= sections@.len(),
            forall|k: int| 0 <= k < boot_regions@.len() ==> region_ok(#[trigger] boot_regions@[k]),
            out@ == section_allocations(sections@.take(i as int), boot_regions@),
        decreases sections@.len() - i,
    {
        assert(sections@.take(i + 1).drop_last() == sections@.take(i as int));
        let s = sections[i];
        if !address_in_range(s.address, boot_regions) {
            out.push((s.address, s.size));
        }
        i += 1;
    }
    assert(sections@.take(i as int) == sections@);
    out
}

/// Address of the last hand-off block section, if there is one.
pub open spec fn last_hob(s: Seq<TdvfSection>) -> Option<u64>
    decreases s.len(),
{
    if s.len() == 0 {
        None
    } else if s.last().section_type == TdvfSectionType::TdHob {
        Some(s.last().address)
    } else {
        last_hob(s.drop_last())
    }
}

/// Where the hand-off block is built: the address of the last hand-off
/// block section.
pub fn hob_offset(sections: &Vec<TdvfSection>) -> (r: Result<u64, Error>)
    ensures
        match last_hob(sections@) {
            Some(a) => r == Ok::<u64, Error>(a),
            None => r == Err::<u64, Error>(Error::MissingHobSection),
        },
{
    let mut i: usize = sections.len();
    assert(sections@.take(i as int) == sections@);
    while i > 0
        invariant
            i <= sections@.len(),
            last_hob(sections@) == last_hob(sections@.take(i as int)),
        decreases i,
    {
        assert(sections@.take(i as int).drop_last() == sections@.take(i - 1));
        if sections[i - 1].section_type == TdvfSectionType::TdHob {
            return Ok(sections[i - 1].address);
        }
        i -= 1;
    }
    Err(Error::MissingHobSection)
}

/// What to do with a section once its memory is backed.
#[derive(Clone, Copy, Debug, PartialEq, Eq, Structural)]
pub enum SectionAction {
    /// Copy `size` bytes at `offset` of the firmware file to `address`.
    CopyFirmware { offset: u32, size: u32, address: u64 },
    /// The hand-off block goes at `address`; nothing is copied.
    RecordHob { address: u64 },
    /// Copy the whole payload file to `address` and hand its entry over.
    CopyPayload { address: u64 },
    /// Write the kernel command line at `address`.
    WriteCommandLine { address: u64 },
    /// Nothing is copied.
    Nothing,
}

/// The action that a section's type calls for.
pub open spec fn spec_section_action(s: TdvfSection) -> SectionAction {
    match s.section_type {
        TdvfSectionType::Bfv | TdvfSectionType::Cfv => SectionAction::CopyFirmware {
            offset: s.data_offset,
            size: s.data_size,
            address: s.address,
        },
        TdvfSectionType::TdHob => SectionAction::RecordHob { address: s.address },
        TdvfSectionType::Payload => SectionAction::CopyPayload { address: s.address },
        TdvfSectionType::PayloadParam => SectionAction::WriteCommandLine { address: s.address },
        _ => SectionAction::Nothing,
    }
}

/// Decides how a section is populated.
pub fn section_action(s: &TdvfSection) -> (r: SectionAction)
    ensures
        r == spec_section_action(*s),
{
    match s.section_type {
        TdvfSectionType::Bfv | TdvfSectionType::Cfv => SectionAction::CopyFirmware {
            offset: s.data_offset,
            size: s.data_size,
            address: s.address,
        },
        TdvfSectionType::TdHob => SectionAction::RecordHob { address: s.address },
        TdvfSectionType::Payload => SectionAction::CopyPayload { address: s.address },
        TdvfSectionType::PayloadParam => SectionAction::WriteCommandLine { address: s.address },
        _ => SectionAction::Nothing,
    }
}

/// Little-endian 32-bit word at `o`.
pub open spec fn le_u32(b: Seq<u8>, o: int) -> int {
    b[o] + b[o + 1] * 256 + b[o + 2] * 65536 + b[o + 3] * 16777216
}

/// Little-endian 16-bit word at `o`.
pub open spec fn le_u16(b: Seq<u8>, o: int) -> int {
    b[o] + b[o + 1] * 256
}

/// A setup header (the bytes from offset 0x1f1 of a bzImage) that announces
/// a bootable kernel: signature "HdrS", protocol 2.00 or later, and the
/// load-high flag set.
pub open spec fn payload_header_ok(b: Seq<u8>) -> bool {
    &&& b.len() > SETUP_HEADER_LOADFLAGS_OFFSET
    &&& le_u32(b, SETUP_HEADER_SIGNATURE_OFFSET as int) == SETUP_HEADER_MAGIC
    &&& le_u16(b, SETUP_HEADER_VERSION_OFFSET as int) >= SETUP_HEADER_MIN_VERSION
    &&& b[SETUP_HEADER_LOADFLAGS_OFFSET as int] % 2 == 1
}

/// Checks the setup header of a trusted-domain payload.
pub fn check_payload_header(header: &Vec<u8>) -> (r: Result<(), Error>)
    ensures
        r is Ok <==> payload_header_ok(header@),
        r is Err ==> r == Err::<(), Error>(Error::InvalidPayloadType),
{
    if header.len() <= SETUP_HEADER_LOADFLAGS_OFFSET {
        return Err(Error::InvalidPayloadType);
    }
    let o = SETUP_HEADER_SIGNATURE_OFFSET;
    let signature: u32 = header[o] as u32 + header[o + 1] as u32 * 256 + header[o + 2] as u32
        * 65536 + header[o + 3] as u32 * 16777216;
    let v = SETUP_HEADER_VERSION_OFFSET;
    let version: u16 = header[v] as u16 + header[v + 1] as u16 * 256;
    let loadflags: u8 = header[SETUP_HEADER_LOADFLAGS_OFFSET];
    if signature != SETUP_HEADER_MAGIC {
        return Err(Error::InvalidPayloadType);
    }
    if version < SETUP_HEADER_MIN_VERSION || loadflags % 2 == 0 {
        return Err(Error::InvalidPayloadType);
    }
    Ok(())
}

/// How each section is registered with the hypervisor: its address, its
/// size, and whether its contents extend the measurement.
pub fn memory_registrations(sections: &Vec<TdvfSection>) -> (r: Vec<(u64, u64, bool)>)
    ensures
        r@.len() == sections@.len(),
        forall|i: int|
            0 <= i < sections@.len() ==> #[trigger] r@[i] == (
                sections@[i].address,
                sections@[i].size,
                sections@[i].attributes == 1,
            ),
{
    let mut out: Vec<(u64, u64, bool)> = Vec::new();
    let mut i: usize = 0;
    while i < sections.len()
        invariant
            i <= sections@.len(),
            out@.len() == i,
            forall|k: int|
                0 <= k < i ==> #[trigger] out@[k] == (
                    sections@[k].address,
                    sections@[k].size,
                    sections@[k].attributes == 1,
                ),
        decreases sections@.len() - i,
    {
        let s = sections[i];
        out.push((s.address, s.size, s.attributes == 1));
        i += 1;
    }
    out
}

/// The MMIO resources of the hand-off block: the 32-bit device window up to
/// the APIC page, then the device area `[start, end)` of guest memory.
pub fn hob_mmio_resources(start_of_device_area: u64, end_of_device_area: u64) -> (r: Vec<
    (u64, u64),
>)
    requires
        start_of_device_area <= end_of_device_area,
    ensures
        r@ == seq![
            (MEM_32BIT_DEVICES_START, (APIC_START - MEM_32BIT_DEVICES_START) as u64),
            (start_of_device_area, (end_of_device_area - start_of_device_area) as u64),
        ],
{
    let mut out: Vec<(u64, u64)> = Vec::new();
    out.push((MEM_32BIT_DEVICES_START, APIC_START - MEM_32BIT_DEVICES_START));
    out.push((start_of_device_area, end_of_device_area - start_of_device_area));
    out
}

proof fn lemma_temp_sections_from(s: Seq<TdvfSection>)
    ensures
        forall|i: int|
            0 <= i < temp_sections(s).len() ==> s.contains(#[trigger] temp_sections(s)[i]),
    decreases s.len(),
{
    if s.len() > 0 {
        lemma_temp_sections_from(s.drop_last());
        let r = temp_sections(s.drop_last());
        assert forall|i: int| 0 <= i < temp_sections(s).len() implies s.contains(
            #[trigger] temp_sections(s)[i],
        ) by {
            if i < r.len() {
                let j = choose|j: int| 0 <= j < s.drop_last().len() && s.drop_last()[j] == r[i];
                assert(s[j] == r[i]);
            } else {
                assert(s[s.len() - 1] == s.last());
            }
        }
    }
}

/// The memory resources of the hand-off block for the given firmware
/// sections and boot RAM: the temporary-memory sections, ordered by
/// address, interleaved with the RAM regions.
pub fn tdx_memory_resources(sections: &Vec<TdvfSection>, boot_regions: &Vec<(u64, u64)>) -> (r: Vec<
    (u64, u64, bool),
>)
    requires
        forall|i: int| 0 <= i < sections@.len() ==> section_ok(#[trigger] sections@[i]),
        forall|i: int| 0 <= i < boot_regions@.len() ==> region_ok(#[trigger] boot_regions@[i]),
    ensures
        exists|sorted: Seq<TdvfSection>|
            sorted.to_multiset() == temp_sections(sections@).to_multiset() && descending(sorted)
                && r@ == hob_walk(sorted, boot_regions@, 0),
{
    broadcast use group_to_multiset_ensures;

    let sorted = temp_memory_sections(sections);
    proof {
        lemma_temp_sections_from(sections@);
        assert forall|i: int| 0 <= i < sorted@.len() implies section_ok(#[trigger] sorted@[i]) by {
            assert(sorted@.to_multiset().count(sorted@[i]) > 0);
            assert(temp_sections(sections@).contains(sorted@[i]));
            let j = choose|j: int|
                0 <= j < temp_sections(sections@).len() && temp_sections(sections@)[j]
                    == sorted@[i];
            assert(sections@.contains(temp_sections(sections@)[j]));
        }
    }
    let ghost s = sorted@;
    let r = hob_memory_resources(sorted, boot_regions);
    assert(s.to_multiset() == temp_sections(sections@).to_multiset() && descending(s) && r@
        == hob_walk(s, boot_regions@, 0));
    r
}

/// Each triple is non-empty and starts at or after the end of the one
/// before it, the first at or after `f`.
pub open spec fn chain_from(t: Seq<(u64, u64, bool)>, f: int) -> bool
    decreases t.len(),
{
    t.len() == 0 || (t[0].0 >= f && t[0].1 > 0 && chain_from(t.drop_first(), t[0].0 + t[0].1))
}

/// A stack of sections (next one last) that are non-empty, fit in 64 bits,
/// and follow each other without overlapping.
pub open spec fn sections_stacked(secs: Seq<TdvfSection>) -> bool {
    &&& forall|i: int| 0 <= i < secs.len() ==> (#[trigger] secs[i]).size > 0 && section_ok(secs[i])
    &&& forall|i: int, j: int|
        0 <= i < j < secs.len() ==> secs[j].address + secs[j].size <= secs[i].address
}

proof fn lemma_stacked_drop_last(secs: Seq<TdvfSection>)
    requires
        secs.len() > 0,
        sections_stacked(secs),
    ensures
        sections_stacked(secs.drop_last()),
        secs.len() > 1 ==> secs.last().address + secs.last().size <= secs.drop_last().last().address,
{
    let d = secs.drop_last();
    assert forall|i: int| 0 <= i < d.len() implies (#[trigger] d[i]).size > 0 && section_ok(d[i]) by {
        assert(d[i] == secs[i]);
    }
    assert forall|i: int, j: int| 0 <= i < j < d.len() implies d[j].address + d[j].size
        <= d[i].address by {
        assert(d[i] == secs[i] && d[j] == secs[j]);
    }
    if secs.len() > 1 {
        assert(d.last() == secs[secs.len() - 2]);
    }
}

proof fn lemma_prepend_chain(x: (u64, u64, bool), rest: Seq<(u64, u64, bool)>, f: int)
    requires
        x.0 >= f,
        x.1 > 0,
        chain_from(rest, x.0 + x.1),
    ensures
        chain_from(seq![x] + rest, f),
{
    assert((seq![x] + rest).drop_first() == rest);
    assert((seq![x] + rest)[0] == x);
}

proof fn lemma_walk_chain(secs: Seq<TdvfSection>, regs: Seq<(u64, u64)>, next: int, f: int)
    requires
        sections_stacked(secs),
        forall|i: int| 0 <= i < regs.len() ==> region_ok(#[trigger] regs[i]),
        regs.len() > 0 ==> f <= next,
        secs.len() > 0 ==> f <= secs.last().address,
    ensures
        chain_from(hob_walk(secs, regs, next), f),
    decreases regs.len(), secs.len(), if regs.len() > 0 {
        region_last(regs[0]) + 1 - next
    } else {
        0
    },
{
    if regs.len() == 0 {
        if secs.len() > 0 {
            let s = secs.last();
            assert(s == secs[secs.len() - 1]);
            lemma_stacked_drop_last(secs);
            lemma_walk_chain(secs.drop_last(), regs, next, s.address + s.size);
            lemma_prepend_chain(
                (s.address, s.size, false),
                hob_walk(secs.drop_last(), regs, next),
                f,
            );
        }
    } else {
        let rs = regs[0].0 as int;
        let re = region_last(regs[0]);
        let n = if rs > next {
            rs
        } else {
            next
        };
        assert(region_ok(regs[0]));
        if n > re {
            assert forall|i: int| 0 <= i < regs.drop_first().len() implies region_ok(
                #[trigger] regs.drop_first()[i],
            ) by {
                assert(regs.drop_first()[i] == regs[i + 1]);
            }
            lemma_walk_chain(secs, regs.drop_first(), n, f);
        } else if secs.len() > 0 && secs.last().address <= n {
            let s = secs.last();
            assert(s == secs[secs.len() - 1]);
            lemma_stacked_drop_last(secs);
            lemma_walk_chain(secs.drop_last(), regs, s.address + s.size, s.address + s.size);
            lemma_prepend_chain(
                (s.address, s.size, false),
                hob_walk(secs.drop_last(), regs, s.address + s.size),
                f,
            );
        } else {
            let last = if secs.len() > 0 && secs.last().address - 1 < re {
                secs.last().address - 1
            } else {
                re
            };
            lemma_walk_chain(secs, regs, last + 1, last + 1);
            lemma_prepend_chain(
                (n as u64, (last - n + 1) as u64, true),
                hob_walk(secs, regs, last + 1),
                f,
            );
        }
    }
}

proof fn lemma_chain_sorted(t: Seq<(u64, u64, bool)>, f: int)
    requires
        chain_from(t, f),
    ensures
        forall|i: int| 0 <= i < t.len() ==> (#[trigger] t[i]).1 > 0 && t[i].0 >= f,
        forall|i: int, j: int| 0 <= i < j < t.len() ==> t[i].0 + t[i].1 <= t[j].0,
    decreases t.len(),
{
    if t.len() > 0 {
        let r = t.drop_first();
        lemma_chain_sorted(r, t[0].0 + t[0].1);
        assert forall|i: int| 0 <= i < t.len() implies (#[trigger] t[i]).1 > 0 && t[i].0 >= f by {
            if i > 0 {
                assert(t[i] == r[i - 1]);
            }
        }
        assert forall|i: int, j: int| 0 <= i < j < t.len() implies t[i].0 + t[i].1 <= t[j].0 by {
            assert(t[j] == r[j - 1]);
            if i > 0 {
                assert(t[i] == r[i - 1]);
            }
        }
    }
}

/// The hand-off block's memory resources are non-empty and sorted by
/// address without overlapping, whenever the sections (lowest address
/// last) are non-empty and do not overlap each other and every RAM region
/// is non-empty.
pub proof fn lemma_hob_sorted_disjoint(secs: Seq<TdvfSection>, regs: Seq<(u64, u64)>)
    requires
        sections_stacked(secs),
        forall|i: int| 0 <= i < regs.len() ==> region_ok(#[trigger] regs[i]),
    ensures
        forall|i: int| 0 <= i < hob_walk(secs, regs, 0).len() ==> (#[trigger] hob_walk(
            secs,
            regs,
            0,
        )[i]).1 > 0,
        forall|i: int, j: int|
            0 <= i < j < hob_walk(secs, regs, 0).len() ==> hob_walk(secs, regs, 0)[i].0 + hob_walk(
                secs,
                regs,
                0,
            )[i].1 <= hob_walk(secs, regs, 0)[j].0,
{
    if secs.len() > 0 {
        assert(secs.last() == secs[secs.len() - 1]);
    }
    lemma_walk_chain(secs, regs, 0, 0);
    lemma_chain_sorted(hob_walk(secs, regs, 0), 0);
}

/// Address `a` lies in one of the triples.
pub open spec fn covered(t: Seq<(u64, u64, bool)>, a: int) -> bool
    decreases t.len(),
{
    t.len() > 0 && ((t[0].0 <= a < t[0].0 + t[0].1) || covered(t.drop_first(), a))
}

/// Address `a` lies in one of the sections.
pub open spec fn in_sections(secs: Seq<TdvfSection>, a: int) -> bool
    decreases secs.len(),
{
    secs.len() > 0 && ((secs.last().address <= a < secs.last().address + secs.last().size)
        || in_sections(secs.drop_last(), a))
}

/// Address `a` lies in one of the RAM regions.
pub open spec fn in_regions(regs: Seq<(u64, u64)>, a: int) -> bool
    decreases regs.len(),
{
    regs.len() > 0 && ((regs[0].0 <= a <= region_last(regs[0])) || in_regions(
        regs.drop_first(),
        a,
    ))
}

/// Each RAM region ends before the next one starts.
pub open spec fn regions_ascending(regs: Seq<(u64, u64)>) -> bool {
    forall|i: int, j: int| 0 <= i < j < regs.len() ==> region_last(regs[i]) < regs[j].0
}

proof fn lemma_covered_prepend(x: (u64, u64, bool), rest: Seq<(u64, u64, bool)>, a: int)
    ensures
        covered(seq![x] + rest, a) == ((x.0 <= a < x.0 + x.1) || covered(rest, a)),
{
    assert((seq![x] + rest).drop_first() == rest);
    assert((seq![x] + rest)[0] == x);
}

proof fn lemma_regions_after(regs: Seq<(u64, u64)>, a: int)
    requires
        regs.len() > 0,
        regions_ascending(regs),
        in_regions(regs.drop_first(), a),
    ensures
        a > region_last(regs[0]),
    decreases regs.len(),
{
    let d = regs.drop_first();
    if d[0].0 <= a <= region_last(d[0]) {
        assert(d[0] == regs[1]);
    } else {
        assert forall|i: int, j: int| 0 <= i < j < d.len() implies region_last(d[i]) < d[j].0 by {
            assert(d[i] == regs[i + 1] && d[j] == regs[j + 1]);
        }
        let e = regs.remove(1);
        assert(e.drop_first() == d.drop_first());
        assert forall|i: int, j: int| 0 <= i < j < e.len() implies region_last(e[i]) < e[j].0 by {
            if i == 0 {
                assert(e[i] == regs[0]);
            } else {
                assert(e[i] == regs[i + 1]);
            }
            assert(e[j] == regs[j + 1]);
        }
        assert(e[0] == regs[0]);
        lemma_regions_after(e, a);
    }
}

proof fn lemma_walk_covers(secs: Seq<TdvfSection>, regs: Seq<(u64, u64)>, next: int, a: int)
    requires
        forall|i: int| 0 <= i < regs.len() ==> region_ok(#[trigger] regs[i]),
        regions_ascending(regs),
        sections_stacked(secs),
        secs.len() == 0 || secs.last().address >= next || (regs.len() > 0 && next <= regs[0].0),
    ensures
        covered(hob_walk(secs, regs, next), a) == (in_sections(secs, a) || (in_regions(regs, a)
            && a >= next)),
    decreases regs.len(), secs.len(), if regs.len() > 0 {
        region_last(regs[0]) + 1 - next
    } else {
        0
    },
{
    if regs.len() == 0 {
        if secs.len() > 0 {
            let s = secs.last();
            assert(s == secs[secs.len() - 1]);
            lemma_stacked_drop_last(secs);
            lemma_walk_covers(secs.drop_last(), regs, next, a);
            lemma_covered_prepend(
                (s.address, s.size, false),
                hob_walk(secs.drop_last(), regs, next),
                a,
            );
        }
    } else {
        let rs = regs[0].0 as int;
        let re = region_last(regs[0]);
        let n = if rs > next {
            rs
        } else {
            next
        };
        assert(region_ok(regs[0]));
        let d = regs.drop_first();
        assert forall|i: int| 0 <= i < d.len() implies region_ok(#[trigger] d[i]) by {
            assert(d[i] == regs[i + 1]);
        }
        assert forall|i: int, j: int| 0 <= i < j < d.len() implies region_last(d[i]) < d[j].0 by {
            assert(d[i] == regs[i + 1] && d[j] == regs[j + 1]);
        }
        if in_regions(d, a) {
            lemma_regions_after(regs, a);
        }
        if n > re {
            lemma_walk_covers(secs, d, n, a);
        } else if secs.len() > 0 && secs.last().address <= n {
            let s = secs.last();
            assert(s == secs[secs.len() - 1]);
            lemma_stacked_drop_last(secs);
            lemma_walk_covers(secs.drop_last(), regs, s.address + s.size, a);
            lemma_covered_prepend(
                (s.address, s.size, false),
                hob_walk(secs.drop_last(), regs, s.address + s.size),
                a,
            );
        } else {
            let last = if secs.len() > 0 && secs.last().address - 1 < re {
                secs.last().address - 1
            } else {
                re
            };
            lemma_walk_covers(secs, regs, last + 1, a);
            lemma_covered_prepend(
                (n as u64, (last - n + 1) as u64, true),
                hob_walk(secs, regs, last + 1),
                a,
            );
        }
    }
}

/// The hand-off block's memory resources cover exactly the sections and
/// the RAM regions: an address lies in some triple if and only if it lies
/// in a section or in a RAM region, whenever the sections (lowest address
/// last) are non-empty and do not overlap, and the regions are non-empty
/// and ascending.
pub proof fn lemma_hob_exhaustive(secs: Seq<TdvfSection>, regs: Seq<(u64, u64)>, a: int)
    requires
        sections_stacked(secs),
        forall|i: int| 0 <= i < regs.len() ==> region_ok(#[trigger] regs[i]),
        regions_ascending(regs),
        a >= 0,
    ensures
        covered(hob_walk(secs, regs, 0), a) == (in_sections(secs, a) || in_regions(regs, a)),
{
    if secs.len() > 0 {
        assert(secs.last() == secs[secs.len() - 1]);
    }
    lemma_walk_covers(secs, regs, 0, a);
}

} // verus!
