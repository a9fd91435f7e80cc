use vstd::prelude::*;

use crate::model::{DeviceSettings, DeviceSettingsView};

verus! {

/// One registry entry as mathematical values: the MAC it is filed under and
/// its settings.
pub type EntryView = (Seq<char>, DeviceSettingsView);

/// The mapping that a list of entries describes: later entries win.
pub open spec fn map_of(entries: Seq<EntryView>) -> Map<Seq<char>, DeviceSettingsView>
    decreases entries.len(),
{
    if entries.len() == 0 {
        Map::empty()
    } else {
        map_of(entries.drop_last()).insert(entries.last().0, entries.last().1)
    }
}

/// No MAC is filed twice.
pub open spec fn keys_unique(entries: Seq<EntryView>) -> bool {
    forall|i: int, j: int|
        0 <= i < entries.len() && 0 <= j < entries.len() && i != j ==> entries[i].0 != entries[j].0
}

/// The registry that a list of stored records gives when each is filed under
/// its own MAC address, in order.
pub open spec fn records_map(records: Seq<DeviceSettingsView>) -> Map<Seq<char>, DeviceSettingsView> {
    map_of(records.map_values(|r: DeviceSettingsView| (r.mac_address, r)))
}

proof fn lemma_map_of_contains(entries: Seq<EntryView>, k: Seq<char>)
    ensures
        map_of(entries).contains_key(k) <==> exists|i: int|
            0 <= i < entries.len() && entries[i].0 == k,
    decreases entries.len(),
{
    if entries.len() > 0 {
        let prefix = entries.drop_last();
        lemma_map_of_contains(prefix, k);
        if exists|i: int| 0 <= i < prefix.len() && prefix[i].0 == k {
            let i = choose|i: int| 0 <= i < prefix.len() && prefix[i].0 == k;
            assert(entries[i].0 == k);
        }
        if exists|i: int| 0 <= i < entries.len() && entries[i].0 == k {
            let i = choose|i: int| 0 <= i < entries.len() && entries[i].0 == k;
            if i < entries.len() - 1 {
                assert(prefix[i].0 == k);
            }
        }
    }
}

proof fn lemma_map_of_value(entries: Seq<EntryView>, i: int)
    requires
        keys_unique(entries),
        0 <= i < entries.len(),
    ensures
        map_of(entries).contains_key(entries[i].0),
        map_of(entries)[entries[i].0] == entries[i].1,
    decreases entries.len(),
{
    lemma_map_of_contains(entries, entries[i].0);
    if i < entries.len() - 1 {
        let prefix = entries.drop_last();
        assert(prefix[i] == entries[i]);
        lemma_map_of_value(prefix, i);
    }
}

proof fn lemma_map_of_len(entries: Seq<EntryView>)
    requires
        keys_unique(entries),
    ensures
        map_of(entries).dom().finite(),
        map_of(entries).dom().len() == entries.len(),
    decreases entries.len(),
{
    if entries.len() > 0 {
        let prefix = entries.drop_last();
        assert(keys_unique(prefix)) by {
            assert forall|i: int, j: int|
                0 <= i < prefix.len() && 0 <= j < prefix.len() && i != j implies prefix[i].0
                != prefix[j].0 by {
                assert(prefix[i] == entries[i] && prefix[j] == entries[j]);
            }
        }
        lemma_map_of_len(prefix);
        lemma_map_of_contains(prefix, entries.last().0);
        if map_of(prefix).contains_key(entries.last().0) {
            let i = choose|i: int| 0 <= i < prefix.len() && prefix[i].0 == entries.last().0;
            assert(entries[i].0 == entries[entries.len() - 1].0);
        }
    }
}

proof fn lemma_map_of_update(entries: Seq<EntryView>, i: int, e: EntryView)
    requires
        keys_unique(entries),
        0 <= i < entries.len(),
        entries[i].0 == e.0,
    ensures
        keys_unique(entries.update(i, e)),
        map_of(entries.update(i, e)) == map_of(entries).insert(e.0, e.1),
{
    let updated = entries.update(i, e);
    assert(keys_unique(updated)) by {
        assert forall|a: int, b: int|
            0 <= a < updated.len() && 0 <= b < updated.len() && a != b implies updated[a].0
            != updated[b].0 by {
            assert(updated[a].0 == entries[a].0 && updated[b].0 == entries[b].0);
        }
    }
    let lhs = map_of(updated);
    let rhs = map_of(entries).insert(e.0, e.1);
    assert forall|k: Seq<char>| #[trigger] lhs.contains_key(k) <==> rhs.contains_key(k) by {
        lemma_map_of_contains(updated, k);
        lemma_map_of_contains(entries, k);
        if exists|j: int| 0 <= j < entries.len() && entries[j].0 == k {
            let j = choose|j: int| 0 <= j < entries.len() && entries[j].0 == k;
            assert(updated[j].0 == k);
        }
        if exists|j: int| 0 <= j < updated.len() && updated[j].0 == k {
            let j = choose|j: int| 0 <= j < updated.len() && updated[j].0 == k;
            assert(entries[j].0 == k);
        }
    }
    assert forall|k: Seq<char>| #[trigger] lhs.contains_key(k) implies lhs[k] == rhs[k] by {
        lemma_map_of_contains(updated, k);
        let j = choose|j: int| 0 <= j < updated.len() && updated[j].0 == k;
        lemma_map_of_value(updated, j);
        if j != i {
            lemma_map_of_value(entries, j);
        }
    }
    assert(lhs =~= rhs);
}

/// The device registry: settings filed by MAC address, and the path of the
/// file they are persisted to.
///
/// The entries are held in a vector whose keys are kept unique. vstd models
/// a `HashMap` only for key types that it knows to obey its key model, and
/// `String` is not among them, so a map keyed by MAC strings would leave
/// every lookup and insertion unproved; the vector gives the same behaviour
/// with a model that can be reasoned about.
pub struct StorageService {
    json_path: String,
    devices: Vec<(String, DeviceSettings)>,
}

impl StorageService {
    /// The entries, as mathematical values, in the order they are held.
    pub closed spec fn entries(&self) -> Seq<EntryView> {
        self.devices@.map_values(|e: (String, DeviceSettings)| (e.0@, e.1@))
    }

    /// No MAC is filed twice, and every entry is filed under the MAC
    /// address its settings name.
    pub closed spec fn wf(&self) -> bool {
        &&& keys_unique(self.entries())
        &&& forall|i: int|
            0 <= i < self.entries().len() ==> #[trigger] self.entries()[i].0
                == self.entries()[i].1.mac_address
    }

    /// The file the registry is persisted to.
    pub closed spec fn path(&self) -> Seq<char> {
        self.json_path@
    }

    /// The persisted form of the registry: its records, in the order held.
    pub closed spec fn records_view(&self) -> Seq<DeviceSettingsView> {
        self.entries().map_values(|e: EntryView| e.1)
    }

    /// Builds a registry from stored records, each filed under its own MAC
    /// address; where two records name one MAC, the later one wins.
    pub fn new(json_path: String, stored_devices: Vec<DeviceSettings>) -> (r: StorageService)
        ensures
            r.wf(),
            r@ == records_map(stored_devices@.map_values(|d: DeviceSettings| d@)),
            r.path() == json_path@,
    {
        let mut r = StorageService { json_path, devices: Vec::new() };
        assert(r.entries() =~= Seq::empty());
        let ghost views = stored_devices@.map_values(|d: DeviceSettings| d@);
        let ghost keyed = views.map_values(|v: DeviceSettingsView| (v.mac_address, v));
        let mut i: usize = 0;
        while i < stored_devices.len()
            invariant
                i <= stored_devices.len(),
                views == stored_devices@.map_values(|d: DeviceSettings| d@),
                keyed == views.map_values(|v: DeviceSettingsView| (v.mac_address, v)),
                r.wf(),
                r@ == map_of(keyed.take(i as int)),
                r.path() == json_path@,
            decreases stored_devices.len() - i,
        {
            let device = stored_devices[i].duplicate();
            let mac = device.mac_address.clone();
            r.persist_device(&mac, device);
            assert(keyed.take(i as int + 1).drop_last() =~= keyed.take(i as int));
            i = i + 1;
        }
        assert(keyed.take(i as int) =~= keyed);
        r
    }

    /// The settings filed under `mac_address`, if any.
    pub fn fetch_device_by_mac(&self, mac_address: &str) -> (r: Option<DeviceSettings>)
        requires
            self.wf(),
        ensures
            r.is_some() == self@.contains_key(mac_address@),
            r.is_some() ==> r.unwrap()@ == self@[mac_address@],
            r.is_some() ==> r.unwrap()@.mac_address == mac_address@,
    {
        let key = mac_address.to_owned();
        match self.find(&key) {
            Some(i) => Some(self.devices[i].1.duplicate()),
            None => None,
        }
    }

    /// The number of devices in the registry.
    pub fn count_devices(&self) -> (r: usize)
        requires
            self.wf(),
        ensures
            r == self@.dom().len(),
    {
        proof {
            lemma_map_of_len(self.entries());
        }
        self.devices.len()
    }

    /// Files `device` under `mac_address`, which it must name, replacing
    /// what was filed there. Writing the registry to its file is left to the
    /// caller, who takes the records from `records`.
    pub fn persist_device(&mut self, mac_address: &String, device: DeviceSettings)
        requires
            old(self).wf(),
            device@.mac_address == mac_address@,
        ensures
            final(self).wf(),
            final(self)@ == old(self)@.insert(mac_address@, device@),
            final(self).path() == old(self).path(),
            final(self)@.dom().len() == if old(self)@.contains_key(mac_address@) {
                old(self)@.dom().len()
            } else {
                old(self)@.dom().len() + 1
            },
    {
        proof {
            lemma_map_of_len(self.entries());
        }
        let ghost old_entries = self.entries();
        let key = mac_address.clone();
        match self.find(&key) {
            Some(i) => {
                self.devices.set(i, (key, device));
                proof {
                    assert(self.entries() =~= old_entries.update(i as int, (mac_address@, device@)));
                    lemma_map_of_update(old_entries, i as int, (mac_address@, device@));
                }
            },
            None => {
                self.devices.push((key, device));
                proof {
                    lemma_map_of_contains(old_entries, mac_address@);
                    assert(self.entries() =~= old_entries.push((mac_address@, device@)));
                    assert(self.entries().drop_last() =~= old_entries);
                    assert(keys_unique(self.entries())) by {
                        assert forall|a: int, b: int|
                            0 <= a < self.entries().len() && 0 <= b < self.entries().len() && a
                                != b implies self.entries()[a].0 != self.entries()[b].0 by {
                            if a < old_entries.len() && b < old_entries.len() {
                                assert(self.entries()[a] == old_entries[a]);
                                assert(self.entries()[b] == old_entries[b]);
                            } else if a < old_entries.len() {
                                assert(self.entries()[a] == old_entries[a]);
                            } else {
                                assert(self.entries()[b] == old_entries[b]);
                            }
                        }
                    }
                }
            },
        }
        proof {
            lemma_map_of_len(self.entries());
        }
    }

    /// The records to persist: one per registered device, each the settings
    /// filed under its own MAC address.
    pub fn records(&self) -> (r: Vec<DeviceSettings>)
        requires
            self.wf(),
        ensures
            r@.map_values(|d: DeviceSettings| d@) == self.records_view(),
            r@.len() == self@.dom().len(),
            forall|i: int|
                0 <= i < r@.len() ==> self@.contains_key(#[trigger] r@[i].mac_address@)
                    && self@[r@[i].mac_address@] == r@[i]@,
            forall|k: Seq<char>|
                self@.contains_key(k) ==> exists|i: int|
                    0 <= i < r@.len() && #[trigger] r@[i].mac_address@ == k,
            forall|i: int, j: int|
                0 <= i < r@.len() && 0 <= j < r@.len() && i != j ==> r@[i].mac_address@
                    != r@[j].mac_address@,
    {
        proof {
            lemma_map_of_len(self.entries());
        }
        let mut r: Vec<DeviceSettings> = Vec::new();
        let mut i: usize = 0;
        while i < self.devices.len()
            invariant
                i <= self.devices.len(),
                r@.len() == i,
                forall|j: int| 0 <= j < i ==> #[trigger] r@[j]@ == self.devices@[j].1@,
            decreases self.devices.len() - i,
        {
            r.push(self.devices[i].1.duplicate());
            i = i + 1;
        }
        assert(r@.map_values(|d: DeviceSettings| d@) =~= self.records_view());
        proof {
            assert forall|i: int| 0 <= i < r@.len() implies self@.contains_key(
                #[trigger] r@[i].mac_address@,
            ) && self@[r@[i].mac_address@] == r@[i]@ by {
                assert(r@[i]@ == self.entries()[i].1);
                assert(self.entries()[i].0 == self.entries()[i].1.mac_address);
                lemma_map_of_value(self.entries(), i);
            }
            assert forall|k: Seq<char>| self@.contains_key(k) implies exists|i: int|
                0 <= i < r@.len() && #[trigger] r@[i].mac_address@ == k by {
                lemma_map_of_contains(self.entries(), k);
                let i = choose|i: int| 0 <= i < self.entries().len() && self.entries()[i].0 == k;
                assert(self.entries()[i].0 == self.entries()[i].1.mac_address);
                assert(r@[i].mac_address@ == k);
            }
            assert forall|i: int, j: int|
                0 <= i < r@.len() && 0 <= j < r@.len() && i != j implies r@[i].mac_address@
                != r@[j].mac_address@ by {
                assert(self.entries()[i].0 == self.entries()[i].1.mac_address);
                assert(self.entries()[j].0 == self.entries()[j].1.mac_address);
            }
        }
        r
    }

    /// The path of the file the registry is persisted to.
    pub fn json_path(&self) -> (r: &String)
        ensures
            r@ == self.path(),
    {
        &self.json_path
    }

    /// The index of the entry filed under `key`, if any.
    fn find(&self, key: &String) -> (r: Option<usize>)
        requires
            self.wf(),
        ensures
            r.is_none() ==> !self@.contains_key(key@),
            r.is_some() ==> r.unwrap() < self.devices.len() && self.entries()[r.unwrap() as int].0
                == key@ && self@.contains_key(key@) && self@[key@] == self.entries()[
                r.unwrap() as int].1,
    {
        let mut i: usize = 0;
        while i < self.devices.len()
            invariant
                i <= self.devices.len(),
                self.wf(),
                forall|j: int| 0 <= j < i ==> #[trigger] self.entries()[j].0 != key@,
            decreases self.devices.len() - i,
        {
            if self.devices[i].0 == *key {
                proof {
                    lemma_map_of_value(self.entries(), i as int);
                }
                return Some(i);
            }
            i = i + 1;
        }
        proof {
            lemma_map_of_contains(self.entries(), key@);
        }
        None
    }
}

/// Writing out a registry and reading its records back gives the same
/// mapping from MAC to settings, whatever the order of the records.
pub proof fn lemma_records_round_trip(s: StorageService)
    requires
        s.wf(),
    ensures
        records_map(s.records_view()) == s@,
{
    let keyed = s.records_view().map_values(|r: DeviceSettingsView| (r.mac_address, r));
    assert forall|i: int| 0 <= i < keyed.len() implies keyed[i] == s.entries()[i] by {
        assert(s.entries()[i].0 == s.entries()[i].1.mac_address);
    }
    assert(keyed =~= s.entries());
}

/// Filing settings under a MAC that is not yet in the registry adds one
/// device; filing them under a known MAC keeps the count and replaces what
/// was filed there.
pub proof fn lemma_upsert_count(s: StorageService, mac: Seq<char>, device: DeviceSettingsView)
    requires
        s.wf(),
    ensures
        s@.insert(mac, device)[mac] == device,
        !s@.contains_key(mac) ==> s@.insert(mac, device).dom().len() == s@.dom().len() + 1,
        s@.contains_key(mac) ==> s@.insert(mac, device).dom().len() == s@.dom().len(),
{
    lemma_map_of_len(s.entries());
    if s@.contains_key(mac) {
        assert(s@.insert(mac, device).dom() =~= s@.dom());
    }
}

impl View for StorageService {
    type V = Map<Seq<char>, DeviceSettingsView>;

    closed spec fn view(&self) -> Map<Seq<char>, DeviceSettingsView> {
        map_of(self.entries())
    }
}

} // verus!
