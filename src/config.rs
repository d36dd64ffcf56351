use crate::state::Error;
use vstd::prelude::*;

verus! {

/// A hot-pluggable device as the configuration records it: its optional
/// identifier and the rest of its parameters, kept as given.
#[derive(Clone, Debug)]
pub struct DeviceConfig {
    pub id: Option<String>,
    pub params: String,
}

/// How memory is hot-plugged.
#[derive(Clone, Copy, Debug, PartialEq, Eq, Structural)]
pub enum HotplugMethod {
    Acpi,
    VirtioMem,
}

/// A memory zone of the configuration.
#[derive(Clone, Debug)]
pub struct MemoryZoneConfig {
    pub id: String,
    pub size: u64,
    pub hotplugged_size: Option<u64>,
}

/// Guest memory of the configuration.
#[derive(Clone, Debug)]
pub struct MemoryConfig {
    pub size: u64,
    pub hotplug_method: HotplugMethod,
    pub hotplugged_size: Option<u64>,
    pub zones: Option<Vec<MemoryZoneConfig>>,
}

/// The VM configuration, kept in step with hotplug and resizing so that a
/// reboot reproduces the current topology.
#[derive(Clone, Debug)]
pub struct VmConfig {
    pub boot_vcpus: u8,
    pub max_phys_bits: u8,
    pub memory: MemoryConfig,
    /// Size of the balloon, when the VM has one.
    pub balloon_size: Option<u64>,
    pub cmdline: String,
    pub disks: Option<Vec<DeviceConfig>>,
    pub net: Option<Vec<DeviceConfig>>,
    pub pmem: Option<Vec<DeviceConfig>>,
    pub vdpa: Option<Vec<DeviceConfig>>,
    pub fs: Option<Vec<DeviceConfig>>,
    pub devices: Option<Vec<DeviceConfig>>,
    pub user_devices: Option<Vec<DeviceConfig>>,
    pub vsock: Option<DeviceConfig>,
}

/// The value of a device entry.
pub type DeviceView = (Option<Seq<char>>, Seq<char>);

/// The value of a device entry.
pub open spec fn device_view(d: DeviceConfig) -> DeviceView {
    (
        match d.id {
            Some(s) => Some(s@),
            None => None,
        },
        d.params@,
    )
}

/// The value of a device list.
pub open spec fn list_view(l: Option<Vec<DeviceConfig>>) -> Option<Seq<DeviceView>> {
    match l {
        Some(v) => Some(v@.map_values(|d: DeviceConfig| device_view(d))),
        None => None,
    }
}

/// The device lists of a configuration, by value.
pub struct DevicesView {
    pub disks: Option<Seq<DeviceView>>,
    pub net: Option<Seq<DeviceView>>,
    pub pmem: Option<Seq<DeviceView>>,
    pub vdpa: Option<Seq<DeviceView>>,
    pub fs: Option<Seq<DeviceView>>,
    pub devices: Option<Seq<DeviceView>>,
    pub user_devices: Option<Seq<DeviceView>>,
    pub vsock: Option<DeviceView>,
}

/// Which list of the configuration a hot-plugged device joins.
#[derive(Clone, Copy, Debug, PartialEq, Eq, Structural)]
pub enum DeviceKind {
    Device,
    UserDevice,
    Disk,
    Fs,
    Pmem,
    Net,
    Vdpa,
    Vsock,
}

impl VmConfig {
    /// The device lists of this configuration, by value.
    pub open spec fn devices_view(&self) -> DevicesView {
        DevicesView {
            disks: list_view(self.disks),
            net: list_view(self.net),
            pmem: list_view(self.pmem),
            vdpa: list_view(self.vdpa),
            fs: list_view(self.fs),
            devices: list_view(self.devices),
            user_devices: list_view(self.user_devices),
            vsock: match self.vsock {
                Some(d) => Some(device_view(d)),
                None => None,
            },
        }
    }

    /// Every field but the device lists.
    pub open spec fn same_but_devices(&self, o: &VmConfig) -> bool {
        &&& self.boot_vcpus == o.boot_vcpus
        &&& self.max_phys_bits == o.max_phys_bits
        &&& self.memory == o.memory
        &&& self.balloon_size == o.balloon_size
        &&& self.cmdline == o.cmdline
    }
}

/// A list after a device joins it; an absent list starts with the device.
pub open spec fn list_add(l: Option<Seq<DeviceView>>, d: DeviceView) -> Option<Seq<DeviceView>> {
    match l {
        Some(s) => Some(s.push(d)),
        None => Some(seq![d]),
    }
}

/// The entries of `s` whose identifier is not `id`.
pub open spec fn retain_other(s: Seq<DeviceView>, id: Seq<char>) -> Seq<DeviceView>
    decreases s.len(),
{
    if s.len() == 0 {
        s
    } else {
        let r = retain_other(s.drop_last(), id);
        if s.last().0 == Some(id) {
            r
        } else {
            r.push(s.last())
        }
    }
}

/// A list without the device called `id`; an absent list stays absent.
pub open spec fn list_remove(l: Option<Seq<DeviceView>>, id: Seq<char>) -> Option<Seq<DeviceView>> {
    match l {
        Some(s) => Some(retain_other(s, id)),
        None => None,
    }
}

/// The device lists after `d` is hot-plugged as a device of kind `k`.
pub open spec fn devices_add(v: DevicesView, k: DeviceKind, d: DeviceView) -> DevicesView {
    match k {
        DeviceKind::Device => DevicesView { devices: list_add(v.devices, d), ..v },
        DeviceKind::UserDevice => DevicesView { user_devices: list_add(v.user_devices, d), ..v },
        DeviceKind::Disk => DevicesView { disks: list_add(v.disks, d), ..v },
        DeviceKind::Fs => DevicesView { fs: list_add(v.fs, d), ..v },
        DeviceKind::Pmem => DevicesView { pmem: list_add(v.pmem, d), ..v },
        DeviceKind::Net => DevicesView { net: list_add(v.net, d), ..v },
        DeviceKind::Vdpa => DevicesView { vdpa: list_add(v.vdpa, d), ..v },
        DeviceKind::Vsock => DevicesView { vsock: Some(d), ..v },
    }
}

/// The device lists after the device called `id` is unplugged: it leaves
/// every list, and the vsock device goes if it is the one.
pub open spec fn devices_remove(v: DevicesView, id: Seq<char>) -> DevicesView {
    DevicesView {
        disks: list_remove(v.disks, id),
        net: list_remove(v.net, id),
        pmem: list_remove(v.pmem, id),
        vdpa: list_remove(v.vdpa, id),
        fs: list_remove(v.fs, id),
        devices: list_remove(v.devices, id),
        user_devices: list_remove(v.user_devices, id),
        vsock: match v.vsock {
            Some(d) => if d.0 == Some(id) {
                None
            } else {
                Some(d)
            },
            None => None,
        },
    }
}

fn add_to_list(list: &mut Option<Vec<DeviceConfig>>, d: DeviceConfig)
    ensures
        list_view(*final(list)) == list_add(list_view(*old(list)), device_view(d)),
{
    match list {
        Some(v) => {
            let ghost before = v@;
            v.push(d);
            assert(v@.map_values(|x: DeviceConfig| device_view(x)) =~= before.map_values(
                |x: DeviceConfig| device_view(x),
            ).push(device_view(d)));
        },
        None => {
            let mut v: Vec<DeviceConfig> = Vec::new();
            v.push(d);
            assert(v@.map_values(|x: DeviceConfig| device_view(x)) =~= seq![device_view(d)]);
            *list = Some(v);
        },
    }
}

fn copy_device(d: &DeviceConfig) -> (r: DeviceConfig)
    ensures
        device_view(r) == device_view(*d),
{
    DeviceConfig {
        id: match &d.id {
            Some(s) => Some(s.clone()),
            None => None,
        },
        params: d.params.clone(),
    }
}

fn id_matches(d: &DeviceConfig, id: &String) -> (r: bool)
    ensures
        r == (device_view(*d).0 == Some(id@)),
{
    match &d.id {
        Some(s) => *s == *id,
        None => false,
    }
}

fn remove_from_list(list: &mut Option<Vec<DeviceConfig>>, id: &String)
    ensures
        list_view(*final(list)) == list_remove(list_view(*old(list)), id@),
{
    if let Some(v) = list {
        let ghost src = v@.map_values(|x: DeviceConfig| device_view(x));
        let mut kept: Vec<DeviceConfig> = Vec::new();
        let mut i: usize = 0;
        while i < v.len()
            invariant
                i <= v@.len(),
                src == v@.map_values(|x: DeviceConfig| device_view(x)),
                kept@.map_values(|x: DeviceConfig| device_view(x)) == retain_other(
                    src.take(i as int),
                    id@,
                ),
            decreases v@.len() - i,
        {
            assert(src.take(i + 1).drop_last() == src.take(i as int));
            let ghost before = kept@;
            if !id_matches(&v[i], id) {
                kept.push(copy_device(&v[i]));
                assert(kept@.map_values(|x: DeviceConfig| device_view(x)) =~= before.map_values(
                    |x: DeviceConfig| device_view(x),
                ).push(device_view(v@[i as int])));
            }
            i += 1;
        }
        assert(src.take(i as int) == src);
        *v = kept;
    }
}

/// Every list, and the vsock slot, lacks a device called `id`.
pub open spec fn id_absent(v: DevicesView, id: Seq<char>) -> bool {
    &&& list_lacks(v.disks, id)
    &&& list_lacks(v.net, id)
    &&& list_lacks(v.pmem, id)
    &&& list_lacks(v.vdpa, id)
    &&& list_lacks(v.fs, id)
    &&& list_lacks(v.devices, id)
    &&& list_lacks(v.user_devices, id)
    &&& match v.vsock {
        Some(d) => d.0 != Some(id),
        None => true,
    }
}

/// No entry of the list is called `id`.
pub open spec fn list_lacks(l: Option<Seq<DeviceView>>, id: Seq<char>) -> bool {
    match l {
        Some(s) => forall|i: int| 0 <= i < s.len() ==> (#[trigger] s[i]).0 != Some(id),
        None => true,
    }
}

/// The list that a device of kind `k` joins is already present (the vsock
/// slot is empty).
pub open spec fn slot_ready(v: DevicesView, k: DeviceKind) -> bool {
    match k {
        DeviceKind::Device => v.devices is Some,
        DeviceKind::UserDevice => v.user_devices is Some,
        DeviceKind::Disk => v.disks is Some,
        DeviceKind::Fs => v.fs is Some,
        DeviceKind::Pmem => v.pmem is Some,
        DeviceKind::Net => v.net is Some,
        DeviceKind::Vdpa => v.vdpa is Some,
        DeviceKind::Vsock => v.vsock is None,
    }
}

proof fn lemma_retain_none(s: Seq<DeviceView>, id: Seq<char>)
    requires
        forall|i: int| 0 <= i < s.len() ==> (#[trigger] s[i]).0 != Some(id),
    ensures
        retain_other(s, id) == s,
    decreases s.len(),
{
    if s.len() > 0 {
        assert forall|i: int| 0 <= i < s.drop_last().len() implies (
        #[trigger] s.drop_last()[i]).0 != Some(id) by {
            assert(s.drop_last()[i] == s[i]);
        }
        lemma_retain_none(s.drop_last(), id);
        assert(s.drop_last().push(s.last()) == s);
    }
}

proof fn lemma_list_round_trip(l: Option<Seq<DeviceView>>, d: DeviceView, id: Seq<char>)
    requires
        l is Some,
        list_lacks(l, id),
        d.0 == Some(id),
    ensures
        list_remove(list_add(l, d), id) == l,
{
    let s = l->Some_0;
    assert(s.push(d).drop_last() == s);
    lemma_retain_none(s, id);
}

proof fn lemma_list_untouched(l: Option<Seq<DeviceView>>, id: Seq<char>)
    requires
        list_lacks(l, id),
    ensures
        list_remove(l, id) == l,
{
    if let Some(s) = l {
        lemma_retain_none(s, id);
    }
}

/// Hot-plugging a device and then unplugging it by its identifier leaves
/// the device lists as they were, provided no device had that identifier
/// before and the list it joins (or the vsock slot) was already set up.
pub proof fn lemma_hotplug_round_trip(v: DevicesView, k: DeviceKind, d: DeviceView, id: Seq<char>)
    requires
        d.0 == Some(id),
        id_absent(v, id),
        slot_ready(v, k),
    ensures
        devices_remove(devices_add(v, k, d), id) == v,
{
    lemma_list_untouched(v.disks, id);
    lemma_list_untouched(v.net, id);
    lemma_list_untouched(v.pmem, id);
    lemma_list_untouched(v.vdpa, id);
    lemma_list_untouched(v.fs, id);
    lemma_list_untouched(v.devices, id);
    lemma_list_untouched(v.user_devices, id);
    match k {
        DeviceKind::Device => lemma_list_round_trip(v.devices, d, id),
        DeviceKind::UserDevice => lemma_list_round_trip(v.user_devices, d, id),
        DeviceKind::Disk => lemma_list_round_trip(v.disks, d, id),
        DeviceKind::Fs => lemma_list_round_trip(v.fs, d, id),
        DeviceKind::Pmem => lemma_list_round_trip(v.pmem, d, id),
        DeviceKind::Net => lemma_list_round_trip(v.net, d, id),
        DeviceKind::Vdpa => lemma_list_round_trip(v.vdpa, d, id),
        DeviceKind::Vsock => {},
    }
}

impl VmConfig {
    /// Records a hot-plugged device of kind `kind`.
    pub fn add_device_of_kind(&mut self, kind: DeviceKind, d: DeviceConfig)
        ensures
            final(self).devices_view() == devices_add(
                old(self).devices_view(),
                kind,
                device_view(d),
            ),
            final(self).same_but_devices(old(self)),
    {
        match kind {
            DeviceKind::Device => add_to_list(&mut self.devices, d),
            DeviceKind::UserDevice => add_to_list(&mut self.user_devices, d),
            DeviceKind::Disk => add_to_list(&mut self.disks, d),
            DeviceKind::Fs => add_to_list(&mut self.fs, d),
            DeviceKind::Pmem => add_to_list(&mut self.pmem, d),
            DeviceKind::Net => add_to_list(&mut self.net, d),
            DeviceKind::Vdpa => add_to_list(&mut self.vdpa, d),
            DeviceKind::Vsock => {
                self.vsock = Some(d);
            },
        }
    }

    /// Records that the device called `id` was unplugged.
    pub fn remove_device(&mut self, id: &String)
        ensures
            final(self).devices_view() == devices_remove(old(self).devices_view(), id@),
            final(self).same_but_devices(old(self)),
    {
        remove_from_list(&mut self.devices, id);
        remove_from_list(&mut self.user_devices, id);
        remove_from_list(&mut self.disks, id);
        remove_from_list(&mut self.fs, id);
        remove_from_list(&mut self.net, id);
        remove_from_list(&mut self.pmem, id);
        remove_from_list(&mut self.vdpa, id);
        let drop_vsock = match &self.vsock {
            Some(v) => id_matches(v, id),
            None => false,
        };
        if drop_vsock {
            self.vsock = None;
        }
    }
}

/// Hotplug notification: the set of CPUs changed.
pub const CPU_DEVICES_CHANGED: u32 = 0b1;

/// Hotplug notification: the set of memory devices changed.
pub const MEMORY_DEVICES_CHANGED: u32 = 0b10;

/// Hotplug notification: the set of PCI devices changed.
pub const PCI_DEVICES_CHANGED: u32 = 0b100;

/// Guest memory configuration after a resize to `desired` bytes: under
/// ACPI hotplug the size itself changes; under virtio-mem the boot size
/// stays and the excess (if any) is recorded as hot-plugged.
pub open spec fn memory_after_resize(m: MemoryConfig, desired: u64) -> MemoryConfig {
    match m.hotplug_method {
        HotplugMethod::Acpi => MemoryConfig { size: desired, ..m },
        HotplugMethod::VirtioMem => MemoryConfig {
            hotplugged_size: if desired > m.size {
                Some((desired - m.size) as u64)
            } else {
                None
            },
            ..m
        },
    }
}

/// Index of the first zone called `id` at or after `from`, or -1.
pub open spec fn first_zone(zs: Seq<MemoryZoneConfig>, id: Seq<char>, from: int) -> int
    decreases zs.len() - from,
{
    if from < 0 || from >= zs.len() {
        -1
    } else if zs[from].id@ == id {
        from
    } else {
        first_zone(zs, id, from + 1)
    }
}

/// The first matching zone is a zone of the list, and it matches.
pub proof fn lemma_first_zone_range(zs: Seq<MemoryZoneConfig>, id: Seq<char>, from: int)
    ensures
        -1 <= first_zone(zs, id, from) < zs.len(),
        first_zone(zs, id, from) >= 0 ==> zs[first_zone(zs, id, from)].id@ == id,
    decreases zs.len() - from,
{
    if from >= 0 && from < zs.len() && zs[from].id@ != id {
        lemma_first_zone_range(zs, id, from + 1);
    }
}

fn find_zone_index(zones: &Vec<MemoryZoneConfig>, id: &String) -> (r: Option<usize>)
    ensures
        match r {
            Some(k) => k < zones@.len() && first_zone(zones@, id@, 0) == k,
            None => first_zone(zones@, id@, 0) < 0,
        },
{
    let mut i: usize = 0;
    while i < zones.len()
        invariant
            i <= zones@.len(),
            first_zone(zones@, id@, 0) == first_zone(zones@, id@, i as int),
        decreases zones@.len() - i,
    {
        if zones[i].id == *id {
            return Some(i);
        }
        i += 1;
    }
    None
}

impl VmConfig {
    /// Records a resize. `vcpus_changed` tells whether the CPU manager
    /// changed the vCPU count and `memory_region_added` whether the memory
    /// manager added a region; the result lists the hotplug notifications
    /// to send, in order.
    ///
    /// The configuration takes the requested values whether or not the
    /// guest has reacted yet, so that a reboot uses them.
    pub fn resize(
        &mut self,
        desired_vcpus: Option<u8>,
        desired_memory: Option<u64>,
        desired_balloon: Option<u64>,
        vcpus_changed: bool,
        memory_region_added: bool,
    ) -> (notifications: Vec<u32>)
        ensures
            *final(self) == (VmConfig {
                boot_vcpus: match desired_vcpus {
                    Some(v) => v,
                    None => old(self).boot_vcpus,
                },
                memory: match desired_memory {
                    Some(m) => memory_after_resize(old(self).memory, m),
                    None => old(self).memory,
                },
                balloon_size: match (old(self).balloon_size, desired_balloon) {
                    (Some(_), Some(b)) => Some(b),
                    _ => old(self).balloon_size,
                },
                ..*old(self)
            }),
            notifications@ == (if desired_vcpus is Some && vcpus_changed {
                seq![CPU_DEVICES_CHANGED]
            } else {
                Seq::<u32>::empty()
            }) + (if desired_memory is Some && memory_region_added && old(self).memory.hotplug_method
                == HotplugMethod::Acpi {
                seq![MEMORY_DEVICES_CHANGED]
            } else {
                Seq::<u32>::empty()
            }),
    {
        let mut notifications: Vec<u32> = Vec::new();
        if let Some(v) = desired_vcpus {
            if vcpus_changed {
                notifications.push(CPU_DEVICES_CHANGED);
            }
            self.boot_vcpus = v;
        }
        if let Some(m) = desired_memory {
            if memory_region_added && self.memory.hotplug_method == HotplugMethod::Acpi {
                notifications.push(MEMORY_DEVICES_CHANGED);
            }
            match self.memory.hotplug_method {
                HotplugMethod::Acpi => {
                    self.memory.size = m;
                },
                HotplugMethod::VirtioMem => {
                    if m > self.memory.size {
                        self.memory.hotplugged_size = Some(m - self.memory.size);
                    } else {
                        self.memory.hotplugged_size = None;
                    }
                },
            }
        }
        if let Some(b) = desired_balloon {
            if self.balloon_size.is_some() {
                self.balloon_size = Some(b);
            }
        }
        assert(notifications@ =~= (if desired_vcpus is Some && vcpus_changed {
            seq![CPU_DEVICES_CHANGED]
        } else {
            Seq::<u32>::empty()
        }) + (if desired_memory is Some && memory_region_added && old(self).memory.hotplug_method
            == HotplugMethod::Acpi {
            seq![MEMORY_DEVICES_CHANGED]
        } else {
            Seq::<u32>::empty()
        }));
        notifications
    }

    /// Grows the memory zone called `id` to `desired_memory` bytes and
    /// returns how many bytes to hot-plug into it.
    ///
    /// Only growth is allowed: asking for less than the zone's boot size,
    /// or naming no zone, fails with `ResizeZone` and changes nothing. On
    /// success the zone records the hot-plugged size, whether or not the
    /// guest has taken the memory yet.
    pub fn resize_zone(&mut self, id: &String, desired_memory: u64) -> (r: Result<u64, Error>)
        ensures
            match old(self).memory.zones {
                None => r == Err::<u64, Error>(Error::ResizeZone) && *final(self) == *old(self),
                Some(zs) => {
                    let k = first_zone(zs@, id@, 0);
                    if k < 0 || desired_memory < zs@[k].size {
                        r == Err::<u64, Error>(Error::ResizeZone) && *final(self) == *old(self)
                    } else {
                        &&& r == Ok::<u64, Error>((desired_memory - zs@[k].size) as u64)
                        &&& final(self).memory.zones matches Some(nz) && nz@ == zs@.update(
                            k,
                            MemoryZoneConfig {
                                hotplugged_size: Some((desired_memory - zs@[k].size) as u64),
                                ..zs@[k]
                            },
                        )
                        &&& final(self).memory.size == old(self).memory.size
                        &&& final(self).memory.hotplug_method == old(self).memory.hotplug_method
                        &&& final(self).memory.hotplugged_size == old(self).memory.hotplugged_size
                        &&& final(self).same_devices_and_cpus(old(self))
                    }
                },
            },
    {
        let (k, size) = match &self.memory.zones {
            None => {
                return Err(Error::ResizeZone);
            },
            Some(zones) => match find_zone_index(zones, id) {
                None => {
                    return Err(Error::ResizeZone);
                },
                Some(k) => (k, zones[k].size),
            },
        };
        if desired_memory < size {
            return Err(Error::ResizeZone);
        }
        let delta = desired_memory - size;
        if let Some(zones) = &mut self.memory.zones {
            let z = MemoryZoneConfig { id: zones[k].id.clone(), size, hotplugged_size: Some(delta) };
            zones.set(k, z);
        }
        Ok(delta)
    }

    /// Every field but the memory configuration.
    pub open spec fn same_devices_and_cpus(&self, o: &VmConfig) -> bool {
        &&& self.boot_vcpus == o.boot_vcpus
        &&& self.max_phys_bits == o.max_phys_bits
        &&& self.balloon_size == o.balloon_size
        &&& self.cmdline == o.cmdline
        &&& self.devices_view() == o.devices_view()
    }
}

} // verus!
