//! The device layer: handles, device errors, query results, the service
//! interface, and the device tree itself — a registry from UUID-derived
//! ids to the embedding kernel's device tokens, probing past collisions.
use vstd::prelude::*;

verus! {

/// A device resource handle: the device and the resource within it.
#[derive(Clone, Copy, Debug, PartialEq, Eq, Structural)]
pub struct Handle {
    pub device_id: u128,
    pub device_resource_id: u128,
}

#[derive(Debug, Clone, Copy, PartialEq, Eq, Structural)]
pub enum DeviceErrorCode {
    NotImplemented,
    Malfunction,
    DeviceNativeError(u64),
}

/// A device operation's failure.
#[derive(Debug, Clone, Copy)]
pub struct DeviceError {
    error_code: DeviceErrorCode,
}

impl DeviceError {
    pub closed spec fn spec_error_code(self) -> DeviceErrorCode {
        self.error_code
    }

    pub fn new(error_code: DeviceErrorCode) -> (r: Self)
        ensures
            r.spec_error_code() == error_code,
    {
        DeviceError { error_code }
    }

    pub fn error_code(&self) -> (r: DeviceErrorCode)
        ensures
            r == self.spec_error_code(),
    {
        self.error_code
    }
}

/// The built-in device that represents the device tree itself.
pub struct DeviceTreeDevice {}

impl DeviceTreeDevice {
    pub fn new() -> DeviceTreeDevice {
        DeviceTreeDevice {  }
    }

    /// The device tree is always ready.
    pub fn ready(&self) -> (r: bool)
        ensures
            r,
    {
        true
    }

    /// The device's name in the tree.
    pub fn name(&self) -> (r: String)
        ensures
            r@ == "DEVICE_TREE"@,
    {
        broadcast use vstd::string::to_string_from_display_ensures_for_str;

        "DEVICE_TREE".to_string()
    }
}

#[derive(Clone, Copy, Debug, PartialEq, Eq, Structural)]
pub enum DeviceState {
    Unknown,
    NoService,
    Locked,
    Disabled,
    Operational,
}

/// One row of a device query: the device and how it is served.
#[derive(Clone, Copy, Debug, PartialEq, Eq, Structural)]
pub struct DeviceQueryResult {
    pub id: u64,
    pub class_id: u64,
    pub subclass_id: u64,
    pub device_type_id: u64,
    pub service_id: u64,
}

/// The registry of devices a service answers queries from.
pub struct DeviceRegistry {
    devices: Vec<(u64, DeviceQueryResult)>,
}

impl DeviceRegistry {
    pub closed spec fn spec_devices(self) -> Seq<(u64, DeviceQueryResult)> {
        self.devices@
    }

    pub fn new() -> (r: DeviceRegistry)
        ensures
            r.spec_devices().len() == 0,
    {
        DeviceRegistry { devices: Vec::new() }
    }
}

/// The device id one slot past `uuid + d` in the wrapping 128-bit key
/// space the registry probes through.
pub open spec fn spec_key_wrap(uuid: u128, d: int) -> u128 {
    ((uuid + d) % 0x100000000000000000000000000000000int) as u128
}

/// The device registered under `id` in an association list, if any.
pub open spec fn spec_device_lookup(s: Seq<(u128, u64)>, id: u128) -> Option<u64>
    decreases s.len(),
{
    if s.len() == 0 {
        None
    } else if s.last().0 == id {
        Some(s.last().1)
    } else {
        spec_device_lookup(s.drop_last(), id)
    }
}

/// Whether some entry carries `id`.
pub open spec fn spec_device_registered(s: Seq<(u128, u64)>, id: u128) -> bool {
    exists|j: int| 0 <= j < s.len() && (#[trigger] s[j]).0 == id
}

/// A found entry pins the lookup, and no entry means none.
proof fn lemma_device_lookup_find(s: Seq<(u128, u64)>, id: u128)
    requires
        forall|a: int, b: int| 0 <= a < b < s.len() ==> s[a].0 != s[b].0,
    ensures
        forall|j: int|
            0 <= j < s.len() && (#[trigger] s[j]).0 == id ==> spec_device_lookup(s, id) == Some(
                s[j].1,
            ),
        (forall|j: int| 0 <= j < s.len() ==> (#[trigger] s[j]).0 != id) ==> spec_device_lookup(
            s,
            id,
        ) is None,
    decreases s.len(),
{
    if s.len() > 0 {
        assert(forall|a: int, b: int|
            0 <= a < b < s.drop_last().len() ==> s.drop_last()[a].0 != s.drop_last()[b].0);
        lemma_device_lookup_find(s.drop_last(), id);
        assert forall|j: int|
            0 <= j < s.len() && (#[trigger] s[j]).0 == id implies spec_device_lookup(s, id)
            == Some(s[j].1) by {
            if j < s.len() - 1 {
                assert(s.drop_last()[j] == s[j]);
                assert(s.last().0 != s[j].0);
            }
        }
        if forall|j: int| 0 <= j < s.len() ==> (#[trigger] s[j]).0 != id {
            assert(s[s.len() - 1].0 != id);
        }
    }
}

/// Removing one entry forgets exactly its id.
proof fn lemma_device_lookup_remove(s: Seq<(u128, u64)>, j: int, id: u128)
    requires
        forall|a: int, b: int| 0 <= a < b < s.len() ==> s[a].0 != s[b].0,
        0 <= j < s.len(),
        s[j].0 == id,
    ensures
        spec_device_lookup(s.remove(j), id) is None,
        forall|other: u128|
            other != id ==> spec_device_lookup(s.remove(j), other) == spec_device_lookup(s, other),
{
    let removed = s.remove(j);
    assert forall|a: int, b: int| 0 <= a < b < removed.len() implies removed[a].0
        != removed[b].0 by {
        if a < j {
            assert(removed[a] == s[a]);
        } else {
            assert(removed[a] == s[a + 1]);
        }
        if b < j {
            assert(removed[b] == s[b]);
        } else {
            assert(removed[b] == s[b + 1]);
        }
    }
    lemma_device_lookup_find(s, id);
    lemma_device_lookup_find(removed, id);
    assert forall|k: int| 0 <= k < removed.len() implies (#[trigger] removed[k]).0 != id by {
        if k < j {
            assert(removed[k] == s[k]);
        } else {
            assert(removed[k] == s[k + 1]);
        }
    }
    assert forall|other: u128| other != id implies spec_device_lookup(removed, other)
        == spec_device_lookup(s, other) by {
        lemma_device_lookup_find(s, other);
        lemma_device_lookup_find(removed, other);
        if spec_device_registered(s, other) {
            let a = choose|a: int| 0 <= a < s.len() && (#[trigger] s[a]).0 == other;
            if a < j {
                assert(removed[a] == s[a]);
            } else if a > j {
                assert(removed[a - 1] == s[a]);
            }
        } else {
            assert forall|k: int| 0 <= k < removed.len() implies (#[trigger] removed[k]).0
                != other by {
                if k < j {
                    assert(removed[k] == s[k]);
                } else {
                    assert(removed[k] == s[k + 1]);
                }
            }
        }
    }
}

/// A run of distinct probed keys that are all registered cannot outnumber
/// the entries: the registry's collision probe terminates.
proof fn lemma_probe_bound(s: Seq<(u128, u64)>, uuid: u128, count: int)
    requires
        forall|a: int, b: int| 0 <= a < b < s.len() ==> s[a].0 != s[b].0,
        0 <= count < 0x100000000000000000000000000000000int,
        forall|d: int| 0 <= d < count ==> spec_device_registered(s, spec_key_wrap(uuid, d)),
    ensures
        count <= s.len(),
{
    broadcast use vstd::seq_lib::seq_to_set_is_finite;

    let probes = Seq::new(count as nat, |d: int| spec_key_wrap(uuid, d));
    assert forall|d1: int, d2: int| 0 <= d1 < d2 < count implies probes[d1] != probes[d2] by {
        let m = 0x100000000000000000000000000000000int;
        vstd::arithmetic::div_mod::lemma_fundamental_div_mod(uuid + d1, m);
        vstd::arithmetic::div_mod::lemma_fundamental_div_mod(uuid + d2, m);
        if (uuid + d1) % m == (uuid + d2) % m {
            let q1 = (uuid + d1) / m;
            let q2 = (uuid + d2) / m;
            assert(d2 - d1 == m * (q2 - q1)) by (nonlinear_arith)
                requires
                    uuid + d1 == m * q1 + (uuid + d1) % m,
                    uuid + d2 == m * q2 + (uuid + d2) % m,
                    (uuid + d1) % m == (uuid + d2) % m,
            ;
            assert(false) by (nonlinear_arith)
                requires
                    d2 - d1 == m * (q2 - q1),
                    0 < d2 - d1 < m,
            ;
        }
    }
    assert(probes.no_duplicates());
    let keys = Seq::new(s.len(), |i: int| s[i].0);
    assert(keys.no_duplicates());
    assert forall|x: u128| probes.to_set().contains(x) implies keys.to_set().contains(x) by {
        let d = choose|d: int| 0 <= d < probes.len() && probes[d] == x;
        let j = choose|j: int| 0 <= j < s.len() && (#[trigger] s[j]).0 == spec_key_wrap(uuid, d);
        assert(keys[j] == x);
        assert(keys.contains(x));
    }
    assert(probes.to_set().subset_of(keys.to_set()));
    probes.unique_seq_to_set();
    keys.lemma_cardinality_of_set();
    vstd::set_lib::lemma_len_subset(probes.to_set(), keys.to_set());
}

/// The registry of the kernel's devices: device ids to the embedding
/// kernel's handler tokens. Ids come from each device's UUID, bumped past
/// collisions.
pub struct DeviceTree {
    map: Vec<(u128, u64)>,
}

impl DeviceTree {
    pub closed spec fn spec_entries(self) -> Seq<(u128, u64)> {
        self.map@
    }

    pub open spec fn wf(self) -> bool {
        forall|a: int, b: int|
            0 <= a < b < self.spec_entries().len() ==> self.spec_entries()[a].0
                != self.spec_entries()[b].0
    }

    /// The device registered under `id`, at the spec level.
    pub open spec fn spec_device(self, id: u128) -> Option<u64> {
        spec_device_lookup(self.spec_entries(), id)
    }

    /// An empty tree; the embedding kernel registers its devices, starting
    /// with the device that represents the tree itself.
    pub fn new() -> (r: DeviceTree)
        ensures
            r.wf(),
            r.spec_entries().len() == 0,
    {
        DeviceTree { map: Vec::new() }
    }

    fn find(&self, id: u128) -> (r: Option<usize>)
        ensures
            match r {
                Some(j) => j < self.spec_entries().len() && self.spec_entries()[j as int].0 == id,
                None => forall|j: int|
                    0 <= j < self.spec_entries().len() ==> (#[trigger] self.spec_entries()[j]).0
                        != id,
            },
    {
        let mut j: usize = 0;
        while j < self.map.len()
            invariant
                0 <= j <= self.spec_entries().len(),
                forall|k: int| 0 <= k < j ==> (#[trigger] self.spec_entries()[k]).0 != id,
            decreases self.spec_entries().len() - j,
        {
            if self.map[j].0 == id {
                return Some(j);
            }
            j = j + 1;
        }
        None
    }

    /// Register a device under its UUID, bumping past ids already taken;
    /// the returned id was free, now maps to the device, and every other
    /// registration is untouched. The probe always lands: taken ids cannot
    /// outnumber the entries.
    pub fn register(&mut self, uuid: u128, device: u64) -> (r: u128)
        requires
            old(self).wf(),
        ensures
            final(self).wf(),
            !spec_device_registered(old(self).spec_entries(), r),
            final(self).spec_device(r) == Some(device),
            forall|other: u128|
                other != r ==> final(self).spec_device(other) == old(self).spec_device(other),
    {
        let entry_count = self.map.len();
        let mut current = uuid;
        let mut probes: usize = 0;
        loop
            invariant
                self == old(self),
                self.wf(),
                entry_count == self.spec_entries().len(),
                0 <= probes <= self.spec_entries().len(),
                current == spec_key_wrap(uuid, probes as int),
                forall|d: int|
                    0 <= d < probes ==> spec_device_registered(
                        self.spec_entries(),
                        spec_key_wrap(uuid, d),
                    ),
            ensures
                self == old(self),
                self.wf(),
                forall|j: int|
                    0 <= j < self.spec_entries().len() ==> (#[trigger] self.spec_entries()[j]).0
                        != current,
            decreases self.spec_entries().len() - probes,
        {
            match self.find(current) {
                None => {
                    break ;
                },
                Some(_) => {
                    proof {
                        if probes + 1 > self.spec_entries().len() {
                            assert forall|d: int|
                                0 <= d < probes + 1 implies spec_device_registered(
                                self.spec_entries(),
                                spec_key_wrap(uuid, d),
                            ) by {
                                if d == probes {
                                    assert(spec_key_wrap(uuid, d) == current);
                                }
                            }
                            lemma_probe_bound(self.spec_entries(), uuid, probes + 1);
                            assert(false);
                        }
                        assert(probes + 1 <= self.spec_entries().len());
                        lemma_key_wrap_step(uuid, probes as int);
                    }
                    probes = probes + 1;
                    current = if current == u128::MAX {
                        0
                    } else {
                        current + 1
                    };
                },
            }
        }
        let ghost pre = self.spec_entries();
        self.map.push((current, device));
        proof {
            assert(self.spec_entries().drop_last() =~= pre);
            assert forall|a: int, b: int|
                0 <= a < b < self.spec_entries().len() implies self.spec_entries()[a].0
                != self.spec_entries()[b].0 by {
                if b == self.spec_entries().len() - 1 {
                    assert(pre[a].0 != current);
                }
            }
            lemma_device_lookup_find(pre, current);
            assert forall|other: u128| other != current implies self.spec_device(other)
                == spec_device_lookup(pre, other) by {
                assert(spec_device_lookup(self.spec_entries(), other) == spec_device_lookup(
                    pre,
                    other,
                ));
            }
        }
        current
    }

    /// The device registered under `id`, if any.
    pub fn get(&self, id: u128) -> (r: Option<u64>)
        requires
            self.wf(),
        ensures
            r == self.spec_device(id),
    {
        proof {
            lemma_device_lookup_find(self.spec_entries(), id);
        }
        match self.find(id) {
            Some(j) => Some(self.map[j].1),
            None => None,
        }
    }

    /// Remove and return the device under `id`; every other registration is
    /// untouched.
    pub fn unregister(&mut self, id: u128) -> (r: Option<u64>)
        requires
            old(self).wf(),
        ensures
            final(self).wf(),
            r == old(self).spec_device(id),
            final(self).spec_device(id) is None,
            forall|other: u128|
                other != id ==> final(self).spec_device(other) == old(self).spec_device(other),
    {
        proof {
            lemma_device_lookup_find(self.spec_entries(), id);
        }
        match self.find(id) {
            Some(j) => {
                let ghost pre = self.spec_entries();
                let entry = self.map.remove(j);
                proof {
                    lemma_device_lookup_remove(pre, j as int, id);
                }
                Some(entry.1)
            },
            None => None,
        }
    }

    /// The registered ids, in registration order.
    pub fn keys(&self) -> (r: Vec<u128>)
        ensures
            r@.len() == self.spec_entries().len(),
            forall|i: int| 0 <= i < r@.len() ==> r@[i] == self.spec_entries()[i].0,
    {
        let mut v: Vec<u128> = Vec::new();
        let mut i: usize = 0;
        while i < self.map.len()
            invariant
                0 <= i <= self.spec_entries().len(),
                v@.len() == i,
                forall|k: int| 0 <= k < i ==> v@[k] == self.spec_entries()[k].0,
            decreases self.spec_entries().len() - i,
        {
            v.push(self.map[i].0);
            i = i + 1;
        }
        v
    }
}

/// One bump in the wrapping key space.
proof fn lemma_key_wrap_step(uuid: u128, d: int)
    requires
        d >= 0,
    ensures
        spec_key_wrap(uuid, d + 1) == if spec_key_wrap(uuid, d) == u128::MAX {
            0u128
        } else {
            (spec_key_wrap(uuid, d) + 1) as u128
        },
{
    let m = 0x100000000000000000000000000000000int;
    let a = uuid + d;
    vstd::arithmetic::div_mod::lemma_fundamental_div_mod(a, m);
    vstd::arithmetic::div_mod::lemma_fundamental_div_mod(a + 1, m);
    let q1 = a / m;
    let q2 = (a + 1) / m;
    if a % m == m - 1 {
        assert((a + 1) % m == 0) by (nonlinear_arith)
            requires
                a == m * q1 + a % m,
                a + 1 == m * q2 + (a + 1) % m,
                a % m == m - 1,
                0 <= (a + 1) % m < m,
        ;
    } else {
        assert((a + 1) % m == a % m + 1) by (nonlinear_arith)
            requires
                a == m * q1 + a % m,
                a + 1 == m * q2 + (a + 1) % m,
                0 <= a % m < m - 1,
                0 <= (a + 1) % m < m,
        ;
    }
}

/// What every system service must answer: a control call on one of its
/// devices, data passed by address.
pub trait SystemService {
    fn control(&mut self, id: u64, command: u64, data: usize) -> usize;
}

} // verus!
