use crate::state::Error;
use vstd::prelude::*;

verus! {

/// Distance from one NUMA node to another.
#[derive(Clone, Copy, Debug, PartialEq, Eq, Structural)]
pub struct NumaDistance {
    pub destination: u32,
    pub distance: u8,
}

/// One NUMA node as the user configured it.
#[derive(Clone, Debug)]
pub struct NumaConfig {
    pub guest_numa_id: u32,
    pub cpus: Option<Vec<u8>>,
    pub distances: Option<Vec<NumaDistance>>,
    pub memory_zones: Option<Vec<String>>,
    pub sgx_epc_sections: Option<Vec<String>>,
}

/// A memory zone as the memory manager laid it out: its boot RAM regions
/// and, under virtio-mem, the region that hotplug may fill.
#[derive(Clone, Debug)]
pub struct MemoryZoneLayout {
    pub id: String,
    pub regions: Vec<(u64, u64)>,
    pub hotplug_region: Option<(u64, u64)>,
}

/// A validated NUMA node.
#[derive(Clone, Debug)]
pub struct NumaNode {
    pub guest_numa_id: u32,
    pub memory_regions: Vec<(u64, u64)>,
    pub hotplug_regions: Vec<(u64, u64)>,
    pub memory_zones: Vec<String>,
    pub cpus: Vec<u8>,
    /// `(destination, distance)` pairs, destinations distinct.
    pub distances: Vec<(u32, u8)>,
    pub sgx_epc_sections: Vec<String>,
}

/// The views of a list of names.
pub open spec fn names_view(v: Seq<String>) -> Seq<Seq<char>> {
    v.map_values(|s: String| s@)
}

/// Some zone is called `name`.
pub open spec fn zone_known(zones: Seq<MemoryZoneLayout>, name: Seq<char>) -> bool {
    exists|k: int| 0 <= k < zones.len() && (#[trigger] zones[k]).id@ == name
}

/// The zone called `name`.
pub open spec fn zone_named(zones: Seq<MemoryZoneLayout>, name: Seq<char>) -> MemoryZoneLayout {
    zones[choose|k: int| 0 <= k < zones.len() && (#[trigger] zones[k]).id@ == name]
}

/// The memory manager names each zone once.
pub open spec fn zone_ids_unique(zones: Seq<MemoryZoneLayout>) -> bool {
    forall|a: int, b: int| 0 <= a < b < zones.len() ==> zones[a].id@ != zones[b].id@
}

/// Boot RAM of the named zones, zone after zone.
pub open spec fn zone_regions(names: Seq<String>, zones: Seq<MemoryZoneLayout>) -> Seq<(u64, u64)>
    decreases names.len(),
{
    if names.len() == 0 {
        Seq::empty()
    } else {
        zone_regions(names.drop_last(), zones) + zone_named(zones, names.last()@).regions@
    }
}

/// Hotplug regions of the named zones that have one.
pub open spec fn zone_hotplug(names: Seq<String>, zones: Seq<MemoryZoneLayout>) -> Seq<(u64, u64)>
    decreases names.len(),
{
    if names.len() == 0 {
        Seq::empty()
    } else {
        let r = zone_hotplug(names.drop_last(), zones);
        match zone_named(zones, names.last()@).hotplug_region {
            Some(h) => r.push(h),
            None => r,
        }
    }
}

/// The list behind an optional list, empty when absent.
pub open spec fn or_empty<T>(o: Option<Vec<T>>) -> Seq<T> {
    match o {
        Some(v) => v@,
        None => Seq::empty(),
    }
}

/// One node's configuration is consistent with the memory layout and with
/// the other nodes.
pub open spec fn node_config_ok(
    c: NumaConfig,
    all: Seq<NumaConfig>,
    zones: Seq<MemoryZoneLayout>,
    epc: Option<Vec<String>>,
) -> bool {
    &&& forall|z: int|
        0 <= z < or_empty(c.memory_zones).len() ==> zone_known(
            zones,
            (#[trigger] or_empty(c.memory_zones)[z])@,
        )
    &&& distances_ok(or_empty(c.distances), all)
    &&& match c.sgx_epc_sections {
        None => true,
        Some(wanted) => match epc {
            None => false,
            Some(known) => forall|w: int|
                0 <= w < wanted@.len() ==> names_view(known@).contains((#[trigger] wanted@[w])@),
        },
    }
}

/// A NUMA configuration is valid: ids are distinct, zones and enclave
/// sections exist, and distances point once each at declared nodes.
pub open spec fn numa_config_ok(
    configs: Seq<NumaConfig>,
    zones: Seq<MemoryZoneLayout>,
    epc: Option<Vec<String>>,
) -> bool {
    &&& forall|a: int, b: int|
        0 <= a < b < configs.len() ==> configs[a].guest_numa_id != configs[b].guest_numa_id
    &&& forall|i: int| 0 <= i < configs.len() ==> node_config_ok(#[trigger] configs[i], configs, zones, epc)
}

/// The node built from a valid configuration entry.
pub open spec fn node_matches(n: NumaNode, c: NumaConfig, zones: Seq<MemoryZoneLayout>) -> bool {
    &&& n.guest_numa_id == c.guest_numa_id
    &&& names_view(n.memory_zones@) == names_view(or_empty(c.memory_zones))
    &&& n.memory_regions@ == zone_regions(or_empty(c.memory_zones), zones)
    &&& n.hotplug_regions@ == zone_hotplug(or_empty(c.memory_zones), zones)
    &&& n.cpus@ == or_empty(c.cpus)
    &&& n.distances@ == or_empty(c.distances).map_values(
        |d: NumaDistance| (d.destination, d.distance),
    )
    &&& names_view(n.sgx_epc_sections@) == names_view(or_empty(c.sgx_epc_sections))
}

fn find_zone(zones: &Vec<MemoryZoneLayout>, name: &String) -> (r: Option<usize>)
    requires
        zone_ids_unique(zones@),
    ensures
        match r {
            Some(k) => k < zones@.len() && zones@[k as int].id@ == name@ && zone_named(
                zones@,
                name@,
            ) == zones@[k as int],
            None => !zone_known(zones@, name@),
        },
{
    let mut k: usize = 0;
    while k < zones.len()
        invariant
            zone_ids_unique(zones@),
            k <= zones@.len(),
            forall|j: int| 0 <= j < k ==> zones@[j].id@ != name@,
        decreases zones@.len() - k,
    {
        if zones[k].id == *name {
            assert(zone_known(zones@, name@));
            let ghost c = choose|j: int| 0 <= j < zones@.len() && (#[trigger] zones@[j]).id@ == name@;
            assert(c == k) by {
                if c < k {
                } else if c > k {
                    assert(zones@[k as int].id@ != zones@[c].id@);
                }
            }
            return Some(k);
        }
        k += 1;
    }
    None
}

fn contains_name(list: &Vec<String>, name: &String) -> (r: bool)
    ensures
        r == names_view(list@).contains(name@),
{
    let mut k: usize = 0;
    while k < list.len()
        invariant
            k <= list@.len(),
            forall|j: int| 0 <= j < k ==> list@[j]@ != name@,
        decreases list@.len() - k,
    {
        if list[k] == *name {
            assert(names_view(list@)[k as int] == name@);
            return true;
        }
        k += 1;
    }
    assert forall|j: int| 0 <= j < names_view(list@).len() implies names_view(list@)[j] != name@ by {
        assert(names_view(list@)[j] == list@[j]@);
    }
    false
}

fn clone_names(v: &Vec<String>) -> (r: Vec<String>)
    ensures
        names_view(r@) == names_view(v@),
{
    let mut out: Vec<String> = Vec::new();
    let mut k: usize = 0;
    while k < v.len()
        invariant
            k <= v@.len(),
            out@.len() == k,
            forall|j: int| 0 <= j < k ==> out@[j]@ == v@[j]@,
        decreases v@.len() - k,
    {
        out.push(v[k].clone());
        k += 1;
    }
    assert(names_view(out@) =~= names_view(v@));
    out
}

/// Some entry declares node `id`.
pub open spec fn declared(all: Seq<NumaConfig>, id: u32) -> bool {
    exists|k: int| 0 <= k < all.len() && (#[trigger] all[k]).guest_numa_id == id
}

/// The distances of `list` point at declared nodes, each at most once.
pub open spec fn distances_ok(list: Seq<NumaDistance>, all: Seq<NumaConfig>) -> bool {
    &&& forall|d: int| 0 <= d < list.len() ==> #[trigger] declared(all, list[d].destination)
    &&& forall|a: int, b: int| 0 <= a < b < list.len() ==> list[a].destination != list[b].destination
}

fn check_distances(list: &Vec<NumaDistance>, all: &Vec<NumaConfig>) -> (r: Result<Vec<(u32, u8)>, Error>)
    ensures
        r is Ok <==> distances_ok(list@, all@),
        r is Err ==> r == Err::<Vec<(u32, u8)>, Error>(Error::InvalidNumaConfig),
        r matches Ok(v) ==> v@ == list@.map_values(|x: NumaDistance| (x.destination, x.distance)),
{
    let mut distances: Vec<(u32, u8)> = Vec::new();
    let mut d: usize = 0;
    while d < list.len()
        invariant
            d <= list@.len(),
            distances@ == list@.take(d as int).map_values(
                |x: NumaDistance| (x.destination, x.distance),
            ),
            forall|j: int| 0 <= j < d ==> #[trigger] declared(all@, list@[j].destination),
            forall|a: int, b: int| 0 <= a < b < d ==> list@[a].destination != list@[b].destination,
        decreases list@.len() - d,
    {
        let dest = list[d].destination;
        let mut k: usize = 0;
        let mut found = false;
        while k < all.len()
            invariant
                k <= all@.len(),
                found <==> exists|j: int| 0 <= j < k && (#[trigger] all@[j]).guest_numa_id == dest,
            decreases all@.len() - k,
        {
            if all[k].guest_numa_id == dest {
                found = true;
            }
            k += 1;
        }
        if !found {
            assert(!distances_ok(list@, all@)) by {
                assert(list@[d as int].destination == dest);
                assert(!declared(all@, dest));
            }
            return Err(Error::InvalidNumaConfig);
        }
        let mut e: usize = 0;
        while e < distances.len()
            invariant
                d < list@.len(),
                dest == list@[d as int].destination,
                e <= distances@.len(),
                distances@.len() == d,
                distances@ == list@.take(d as int).map_values(
                    |x: NumaDistance| (x.destination, x.distance),
                ),
                forall|j: int| 0 <= j < e ==> list@[j].destination != dest,
            decreases distances@.len() - e,
        {
            assert(distances@[e as int].0 == list@[e as int].destination);
            if distances[e].0 == dest {
                assert(!distances_ok(list@, all@)) by {
                    assert(list@[e as int].destination == list@[d as int].destination);
                }
                return Err(Error::InvalidNumaConfig);
            }
            e += 1;
        }
        distances.push((dest, list[d].distance));
        d += 1;
        assert(distances@ =~= list@.take(d as int).map_values(
            |x: NumaDistance| (x.destination, x.distance),
        ));
    }
    assert(list@.take(d as int) == list@);
    Ok(distances)
}

/// Builds the node of one configuration entry, or fails when the entry does
/// not fit the memory layout or the other entries.
fn build_node(
    c: &NumaConfig,
    all: &Vec<NumaConfig>,
    zones: &Vec<MemoryZoneLayout>,
    epc: &Option<Vec<String>>,
) -> (r: Result<NumaNode, Error>)
    requires
        zone_ids_unique(zones@),
    ensures
        r is Ok <==> node_config_ok(*c, all@, zones@, *epc),
        r matches Ok(n) ==> node_matches(n, *c, zones@),
        r is Err ==> r == Err::<NumaNode, Error>(Error::InvalidNumaConfig),
{
    let mut memory_regions: Vec<(u64, u64)> = Vec::new();
    let mut hotplug_regions: Vec<(u64, u64)> = Vec::new();
    let mut memory_zones: Vec<String> = Vec::new();
    let ghost names = or_empty(c.memory_zones);
    if let Some(wanted) = &c.memory_zones {
        let mut z: usize = 0;
        while z < wanted.len()
            invariant
                names == wanted@,
                names == or_empty(c.memory_zones),
                zone_ids_unique(zones@),
                z <= wanted@.len(),
                forall|j: int| 0 <= j < z ==> zone_known(zones@, (#[trigger] wanted@[j])@),
                memory_regions@ == zone_regions(wanted@.take(z as int), zones@),
                hotplug_regions@ == zone_hotplug(wanted@.take(z as int), zones@),
                memory_zones@.len() == z,
                forall|j: int| 0 <= j < z ==> (#[trigger] memory_zones@[j])@ == wanted@[j]@,
            decreases wanted@.len() - z,
        {
            assert(wanted@.take(z + 1).drop_last() == wanted@.take(z as int));
            match find_zone(zones, &wanted[z]) {
                Some(k) => {
                    let mut r: usize = 0;
                    let ghost base = memory_regions@;
                    while r < zones[k].regions.len()
                        invariant
                            k < zones@.len(),
                            r <= zones@[k as int].regions@.len(),
                            memory_regions@ == base + zones@[k as int].regions@.take(r as int),
                        decreases zones@[k as int].regions@.len() - r,
                    {
                        memory_regions.push(zones[k].regions[r]);
                        r += 1;
                        assert(memory_regions@ =~= base + zones@[k as int].regions@.take(r as int));
                    }
                    assert(zones@[k as int].regions@.take(r as int) == zones@[k as int].regions@);
                    if let Some(h) = zones[k].hotplug_region {
                        hotplug_regions.push(h);
                    }
                    memory_zones.push(wanted[z].clone());
                },
                None => {
                    assert(!node_config_ok(*c, all@, zones@, *epc)) by {
                        assert(or_empty(c.memory_zones)[z as int] == wanted@[z as int]);
                    }
                    return Err(Error::InvalidNumaConfig);
                },
            }
            z += 1;
        }
        assert(wanted@.take(z as int) == wanted@);
        assert(names_view(memory_zones@) =~= names_view(names));
    } else {
        assert(names_view(memory_zones@) =~= names_view(names));
    }
    let cpus: Vec<u8> = match &c.cpus {
        Some(v) => v.clone(),
        None => Vec::new(),
    };
    let distances = match &c.distances {
        Some(list) => match check_distances(list, all) {
            Ok(v) => v,
            Err(e) => {
                return Err(e);
            },
        },
        None => Vec::new(),
    };
    assert(distances@ =~= or_empty(c.distances).map_values(
        |x: NumaDistance| (x.destination, x.distance),
    ));
    let mut sgx_epc_sections: Vec<String> = Vec::new();
    if let Some(wanted) = &c.sgx_epc_sections {
        match epc {
            None => {
                return Err(Error::InvalidNumaConfig);
            },
            Some(known) => {
                let mut w: usize = 0;
                while w < wanted.len()
                    invariant
                        or_empty(c.sgx_epc_sections) == wanted@,
                        c.sgx_epc_sections == Some(*wanted),
                        *epc == Some(*known),
                        w <= wanted@.len(),
                        forall|j: int|
                            0 <= j < w ==> names_view(known@).contains((#[trigger] wanted@[j])@),
                    decreases wanted@.len() - w,
                {
                    if !contains_name(known, &wanted[w]) {
                        assert(!node_config_ok(*c, all@, zones@, *epc)) by {
                            assert(!names_view(known@).contains(wanted@[w as int]@));
                        }
                        return Err(Error::InvalidNumaConfig);
                    }
                    w += 1;
                }
                sgx_epc_sections = clone_names(wanted);
            },
        }
    } else {
        assert(names_view(sgx_epc_sections@) =~= names_view(or_empty(c.sgx_epc_sections)));
    }
    assert(forall|z: int|
        0 <= z < or_empty(c.memory_zones).len() ==> zone_known(
            zones@,
            (#[trigger] or_empty(c.memory_zones)[z])@,
        ));
    assert(match c.sgx_epc_sections {
        None => true,
        Some(wanted) => match *epc {
            None => false,
            Some(known) => forall|w: int|
                0 <= w < wanted@.len() ==> names_view(known@).contains((#[trigger] wanted@[w])@),
        },
    });
    assert(node_config_ok(*c, all@, zones@, *epc));
    Ok(
        NumaNode {
            guest_numa_id: c.guest_numa_id,
            memory_regions,
            hotplug_regions,
            memory_zones,
            cpus,
            distances,
            sgx_epc_sections,
        },
    )
}

/// Validates the NUMA configuration against the memory layout and builds
/// one node per entry, in configuration order (not sorted by id). The ids
/// are distinct, so the result is a map from `guest_numa_id` to node.
///
/// Fails with `InvalidNumaConfig` when two entries share a `guest_numa_id`,
/// an entry names an unknown memory zone or enclave section (or enclave
/// sections without an enclave region), or a distance names an undeclared
/// node or the same destination twice.
pub fn create_numa_nodes(
    configs: &Option<Vec<NumaConfig>>,
    zones: &Vec<MemoryZoneLayout>,
    sgx_epc_sections: &Option<Vec<String>>,
) -> (r: Result<Vec<NumaNode>, Error>)
    requires
        zone_ids_unique(zones@),
    ensures
        r is Ok <==> numa_config_ok(or_empty(*configs), zones@, *sgx_epc_sections),
        r is Err ==> r == Err::<Vec<NumaNode>, Error>(Error::InvalidNumaConfig),
        r matches Ok(nodes) ==> nodes@.len() == or_empty(*configs).len() && forall|i: int|
            0 <= i < nodes@.len() ==> node_matches(
                #[trigger] nodes@[i],
                or_empty(*configs)[i],
                zones@,
            ),
{
    let mut nodes: Vec<NumaNode> = Vec::new();
    match configs {
        None => {
            return Ok(nodes);
        },
        Some(all) => {
            let mut i: usize = 0;
            while i < all.len()
                invariant
                    or_empty(*configs) == all@,
                    zone_ids_unique(zones@),
                    i <= all@.len(),
                    nodes@.len() == i,
                    forall|a: int, b: int|
                        0 <= a < b < i ==> all@[a].guest_numa_id != all@[b].guest_numa_id,
                    forall|j: int|
                        0 <= j < i ==> node_config_ok(
                            #[trigger] all@[j],
                            all@,
                            zones@,
                            *sgx_epc_sections,
                        ),
                    forall|j: int| 0 <= j < i ==> node_matches(#[trigger] nodes@[j], all@[j], zones@),
                decreases all@.len() - i,
            {
                let mut k: usize = 0;
                while k < i
                    invariant
                        or_empty(*configs) == all@,
                        k <= i,
                        i < all@.len(),
                        nodes@.len() == i,
                        forall|j: int| 0 <= j < k ==> all@[j].guest_numa_id != all@[i as int].guest_numa_id,
                        forall|j: int| 0 <= j < i ==> node_matches(#[trigger] nodes@[j], all@[j], zones@),
                    decreases i - k,
                {
                    if nodes[k].guest_numa_id == all[i].guest_numa_id {
                        assert(node_matches(nodes@[k as int], all@[k as int], zones@));
                        assert(!numa_config_ok(all@, zones@, *sgx_epc_sections)) by {
                            assert(all@[k as int].guest_numa_id == all@[i as int].guest_numa_id);
                        }
                        return Err(Error::InvalidNumaConfig);
                    }
                    k += 1;
                }
                let node = match build_node(&all[i], all, zones, sgx_epc_sections) {
                    Ok(n) => n,
                    Err(e) => {
                        assert(!numa_config_ok(all@, zones@, *sgx_epc_sections)) by {
                            assert(!node_config_ok(all@[i as int], all@, zones@, *sgx_epc_sections));
                        }
                        return Err(e);
                    },
                };
                nodes.push(node);
                i += 1;
            }
            Ok(nodes)
        },
    }
}

} // verus!
