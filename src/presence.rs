use vstd::prelude::*;

use crate::model::{locations_view, DeviceLocation, DeviceLocationView, DeviceSettingsView};
use crate::storage::StorageService;

verus! {

/// One shown device in a summary, as mathematical values.
pub struct PresenceDeviceView {
    pub name: Seq<char>,
    pub location: Seq<char>,
}

/// A shown device: its display alias and where it was seen.
#[derive(Clone, Debug)]
pub struct PresenceDevice {
    pub name: String,
    pub location: String,
}

impl View for PresenceDevice {
    type V = PresenceDeviceView;

    open spec fn view(&self) -> PresenceDeviceView {
        PresenceDeviceView { name: self.name@, location: self.location@ }
    }
}

/// One person's group in a summary, as mathematical values.
pub struct PresenceGroupView {
    pub name: Seq<char>,
    pub devices: Seq<PresenceDeviceView>,
}

/// The shown devices of one user alias.
#[derive(Clone, Debug)]
pub struct PresenceGroup {
    pub name: String,
    pub devices: Vec<PresenceDevice>,
}

impl View for PresenceGroup {
    type V = PresenceGroupView;

    open spec fn view(&self) -> PresenceGroupView {
        PresenceGroupView { name: self.name@, devices: self.devices@.map_values(|d: PresenceDevice| d@) }
    }
}

/// A presence summary as mathematical values.
pub struct PresenceSummaryView {
    pub people: Seq<PresenceGroupView>,
    pub people_count: int,
    pub device_count: int,
    pub unknown_devices_count: int,
}

/// Who is present: the groups of shown devices by user alias, and three
/// counters.
#[derive(Clone, Debug)]
pub struct PresenceSummary {
    pub people: Vec<PresenceGroup>,
    /// Number of groups, one per user alias with a shown device.
    pub people_count: usize,
    /// Number of discovered devices that are registered and not ignored.
    pub device_count: usize,
    /// Number of discovered devices that are not registered.
    pub unknown_devices_count: usize,
}

impl View for PresenceSummary {
    type V = PresenceSummaryView;

    open spec fn view(&self) -> PresenceSummaryView {
        PresenceSummaryView {
            people: groups_view(self.people@),
            people_count: self.people_count as int,
            device_count: self.device_count as int,
            unknown_devices_count: self.unknown_devices_count as int,
        }
    }
}

pub open spec fn groups_view(groups: Seq<PresenceGroup>) -> Seq<PresenceGroupView> {
    groups.map_values(|g: PresenceGroup| g@)
}

/// The visibility mode that hides a device entirely.
pub open spec fn ignore_mode() -> Seq<char> {
    seq!['i', 'g', 'n', 'o', 'r', 'e']
}

/// A registered device whose settings hide it entirely.
pub open spec fn is_ignored(s: DeviceSettingsView) -> bool {
    s.visibility == ignore_mode()
}

/// No two groups share a user alias.
pub open spec fn names_distinct(groups: Seq<PresenceGroupView>) -> bool {
    forall|i: int, j: int|
        0 <= i < groups.len() && 0 <= j < groups.len() && i != j ==> groups[i].name
            != groups[j].name
}

/// Adds a shown device to the group of its owner, opening that group at the
/// end if there is none yet.
pub open spec fn place_device(
    groups: Seq<PresenceGroupView>,
    owner: Seq<char>,
    d: PresenceDeviceView,
) -> Seq<PresenceGroupView> {
    if exists|i: int| 0 <= i < groups.len() && groups[i].name == owner {
        let i = choose|i: int| 0 <= i < groups.len() && groups[i].name == owner;
        groups.update(i, PresenceGroupView { name: owner, devices: groups[i].devices.push(d) })
    } else {
        groups.push(PresenceGroupView { name: owner, devices: seq![d] })
    }
}

/// The user alias a registered device is shown under.
pub open spec fn owner_of(reg: Map<Seq<char>, DeviceSettingsView>, d: DeviceLocationView) -> Seq<char> {
    reg[d.device_mac].user_alias
}

/// The entry a registered device is shown as: its display alias and where
/// it was seen.
pub open spec fn entry_of(reg: Map<Seq<char>, DeviceSettingsView>, d: DeviceLocationView) -> PresenceDeviceView {
    PresenceDeviceView { name: reg[d.device_mac].device_alias, location: d.location }
}

/// Groups, number of shown devices and number of unknown devices after
/// going through the discovered devices in order.
pub open spec fn tally(
    reg: Map<Seq<char>, DeviceSettingsView>,
    ds: Seq<DeviceLocationView>,
) -> (Seq<PresenceGroupView>, int, int)
    decreases ds.len(),
{
    if ds.len() == 0 {
        (Seq::empty(), 0, 0)
    } else {
        let prev = tally(reg, ds.drop_last());
        let d = ds.last();
        if !reg.contains_key(d.device_mac) {
            (prev.0, prev.1, prev.2 + 1)
        } else if is_ignored(reg[d.device_mac]) {
            prev
        } else {
            (place_device(prev.0, owner_of(reg, d), entry_of(reg, d)), prev.1 + 1, prev.2)
        }
    }
}

/// The presence summary of discovered devices against a registry.
pub open spec fn summarize(
    reg: Map<Seq<char>, DeviceSettingsView>,
    ds: Seq<DeviceLocationView>,
) -> PresenceSummaryView {
    let t = tally(reg, ds);
    PresenceSummaryView {
        people: t.0,
        people_count: t.0.len() as int,
        device_count: t.1,
        unknown_devices_count: t.2,
    }
}

proof fn lemma_place_device(groups: Seq<PresenceGroupView>, owner: Seq<char>, d: PresenceDeviceView)
    requires
        names_distinct(groups),
        forall|i: int| 0 <= i < groups.len() ==> #[trigger] groups[i].devices.len() > 0,
    ensures
        names_distinct(place_device(groups, owner, d)),
        forall|i: int|
            0 <= i < place_device(groups, owner, d).len() ==> #[trigger] place_device(
                groups,
                owner,
                d,
            )[i].devices.len() > 0,
{
}

proof fn lemma_tally_shape(reg: Map<Seq<char>, DeviceSettingsView>, ds: Seq<DeviceLocationView>)
    ensures
        names_distinct(tally(reg, ds).0),
        forall|i: int| 0 <= i < tally(reg, ds).0.len() ==> #[trigger] tally(reg, ds).0[i].devices.len() > 0,
        0 <= tally(reg, ds).1,
        0 <= tally(reg, ds).2,
        tally(reg, ds).1 + tally(reg, ds).2 <= ds.len(),
        tally(reg, ds).0.len() <= tally(reg, ds).1,
    decreases ds.len(),
{
    if ds.len() > 0 {
        let prev = tally(reg, ds.drop_last());
        lemma_tally_shape(reg, ds.drop_last());
        lemma_place_device(prev.0, owner_of(reg, ds.last()), entry_of(reg, ds.last()));
    }
}

/// A discovered device that the registry knows and does not hide.
pub open spec fn shown_pred(reg: Map<Seq<char>, DeviceSettingsView>) -> spec_fn(DeviceLocationView) -> bool {
    |d: DeviceLocationView| reg.contains_key(d.device_mac) && !is_ignored(reg[d.device_mac])
}

/// A discovered device that the registry does not know.
pub open spec fn unknown_pred(reg: Map<Seq<char>, DeviceSettingsView>) -> spec_fn(DeviceLocationView) -> bool {
    |d: DeviceLocationView| !reg.contains_key(d.device_mac)
}

/// A discovered device that is not hidden by an `ignore` setting.
pub open spec fn not_hidden_pred(reg: Map<Seq<char>, DeviceSettingsView>) -> spec_fn(DeviceLocationView) -> bool {
    |d: DeviceLocationView| !(reg.contains_key(d.device_mac) && is_ignored(reg[d.device_mac]))
}

proof fn lemma_tally_filters(reg: Map<Seq<char>, DeviceSettingsView>, ds: Seq<DeviceLocationView>)
    ensures
        tally(reg, ds).1 == ds.filter(shown_pred(reg)).len(),
        tally(reg, ds).2 == ds.filter(unknown_pred(reg)).len(),
        tally(reg, ds).1 + tally(reg, ds).2 == ds.filter(not_hidden_pred(reg)).len(),
        tally(reg, ds) == tally(reg, ds.filter(not_hidden_pred(reg))),
    decreases ds.len(),
{
    reveal(Seq::filter);
    if ds.len() > 0 {
        let p = ds.drop_last();
        lemma_tally_filters(reg, p);
        let kept = p.filter(not_hidden_pred(reg));
        if not_hidden_pred(reg)(ds.last()) {
            assert(kept.push(ds.last()).drop_last() =~= kept);
        }
    }
}

/// The counters of a summary are counts over the discovered devices: shown
/// devices are those registered and not ignored, unknown ones those not
/// registered, and together they are all devices but the ignored ones. The
/// number of people is the number of groups; no two groups share a user
/// alias and none is empty. Devices with an `ignore` setting leave no trace:
/// the summary is the one of the list without them.
pub proof fn lemma_summary_counts(reg: Map<Seq<char>, DeviceSettingsView>, ds: Seq<DeviceLocationView>)
    ensures
        summarize(reg, ds).device_count == ds.filter(shown_pred(reg)).len(),
        summarize(reg, ds).unknown_devices_count == ds.filter(unknown_pred(reg)).len(),
        summarize(reg, ds).device_count + summarize(reg, ds).unknown_devices_count == ds.filter(
            not_hidden_pred(reg),
        ).len(),
        summarize(reg, ds).people_count == summarize(reg, ds).people.len(),
        names_distinct(summarize(reg, ds).people),
        forall|i: int|
            0 <= i < summarize(reg, ds).people.len() ==> #[trigger] summarize(
                reg,
                ds,
            ).people[i].devices.len() > 0,
        summarize(reg, ds) == summarize(reg, ds.filter(not_hidden_pred(reg))),
{
    lemma_tally_filters(reg, ds);
    lemma_tally_shape(reg, ds);
}

/// Aggregating twice over the same registry and the same discovered devices
/// gives summaries that agree in every string and counter, hence serialise
/// to the same text.
pub proof fn lemma_aggregate_deterministic(
    reg: StorageService,
    devices: Seq<DeviceLocation>,
    first: PresenceSummary,
    second: PresenceSummary,
)
    requires
        first@ == summarize(reg@, locations_view(devices)),
        second@ == summarize(reg@, locations_view(devices)),
    ensures
        first@ == second@,
{
}

/// Some shown device among `ds` has owner `name` and is shown as `e`.
pub open spec fn comes_from_shown(
    reg: Map<Seq<char>, DeviceSettingsView>,
    ds: Seq<DeviceLocationView>,
    name: Seq<char>,
    e: PresenceDeviceView,
) -> bool {
    exists|i: int|
        0 <= i < ds.len() && shown_pred(reg)(#[trigger] ds[i]) && owner_of(reg, ds[i]) == name
            && entry_of(reg, ds[i]) == e
}

/// Some shown device among `ds` is owned by `name`.
pub open spec fn owns_shown_device(
    reg: Map<Seq<char>, DeviceSettingsView>,
    ds: Seq<DeviceLocationView>,
    name: Seq<char>,
) -> bool {
    exists|i: int| 0 <= i < ds.len() && shown_pred(reg)(#[trigger] ds[i]) && owner_of(reg, ds[i]) == name
}

/// Some group named `name` holds the entry `e`.
pub open spec fn placed_in_group(groups: Seq<PresenceGroupView>, name: Seq<char>, e: PresenceDeviceView) -> bool {
    exists|g: int| 0 <= g < groups.len() && groups[g].name == name && #[trigger] groups[g].devices.contains(e)
}

proof fn lemma_place_device_entries(groups: Seq<PresenceGroupView>, owner: Seq<char>, d: PresenceDeviceView)
    requires
        names_distinct(groups),
    ensures
        groups.len() <= place_device(groups, owner, d).len(),
        forall|g: int|
            0 <= g < groups.len() ==> (#[trigger] place_device(groups, owner, d)[g]).name == groups[g].name
                && groups[g].devices.len() <= place_device(groups, owner, d)[g].devices.len()
                && forall|k: int| 0 <= k < groups[g].devices.len() ==> place_device(groups, owner, d)[g].devices[k] == groups[g].devices[k],
        forall|g: int, k: int|
            0 <= g < place_device(groups, owner, d).len() && 0 <= k < place_device(groups, owner, d)[g].devices.len()
                ==> (g < groups.len() && k < groups[g].devices.len()) || (place_device(groups, owner, d)[g].name == owner
                && #[trigger] place_device(groups, owner, d)[g].devices[k] == d),
        placed_in_group(place_device(groups, owner, d), owner, d),
{
    let after = place_device(groups, owner, d);
    if exists|i: int| 0 <= i < groups.len() && groups[i].name == owner {
        let c = choose|i: int| 0 <= i < groups.len() && groups[i].name == owner;
        assert(after[c].devices[after[c].devices.len() - 1] == d);
        assert(after[c].devices.contains(d));
    } else {
        let c = groups.len() as int;
        assert(after[c].devices[0] == d);
        assert(after[c].devices.contains(d));
    }
}

proof fn lemma_tally_entries(reg: Map<Seq<char>, DeviceSettingsView>, ds: Seq<DeviceLocationView>)
    ensures
        forall|g: int, k: int|
            0 <= g < tally(reg, ds).0.len() && 0 <= k < tally(reg, ds).0[g].devices.len()
                ==> comes_from_shown(reg, ds, tally(reg, ds).0[g].name, #[trigger] tally(reg, ds).0[g].devices[k]),
        forall|i: int|
            0 <= i < ds.len() && shown_pred(reg)(#[trigger] ds[i]) ==> placed_in_group(
                tally(reg, ds).0,
                owner_of(reg, ds[i]),
                entry_of(reg, ds[i]),
            ),
    decreases ds.len(),
{
    if ds.len() > 0 {
        let p = ds.drop_last();
        let last = ds.last();
        let before = tally(reg, p).0;
        let after = tally(reg, ds).0;
        lemma_tally_entries(reg, p);
        lemma_tally_shape(reg, p);
        let placed = reg.contains_key(last.device_mac) && !is_ignored(reg[last.device_mac]);
        if placed {
            lemma_place_device_entries(before, owner_of(reg, last), entry_of(reg, last));
        }
        assert forall|g: int, k: int|
            0 <= g < after.len() && 0 <= k < after[g].devices.len() implies comes_from_shown(
            reg,
            ds,
            after[g].name,
            #[trigger] after[g].devices[k],
        ) by {
            if g < before.len() && k < before[g].devices.len() {
                assert(comes_from_shown(reg, p, before[g].name, before[g].devices[k]));
                let i = choose|i: int|
                    0 <= i < p.len() && shown_pred(reg)(#[trigger] p[i]) && owner_of(reg, p[i]) == before[g].name
                        && entry_of(reg, p[i]) == before[g].devices[k];
                assert(ds[i] == p[i]);
            } else {
                assert(ds[ds.len() - 1] == last);
            }
        }
        assert forall|i: int| 0 <= i < ds.len() && shown_pred(reg)(#[trigger] ds[i]) implies placed_in_group(
            after,
            owner_of(reg, ds[i]),
            entry_of(reg, ds[i]),
        ) by {
            if i < ds.len() - 1 {
                assert(p[i] == ds[i]);
                assert(placed_in_group(before, owner_of(reg, p[i]), entry_of(reg, p[i])));
                let g = choose|g: int|
                    0 <= g < before.len() && before[g].name == owner_of(reg, p[i]) && #[trigger] before[g].devices.contains(
                        entry_of(reg, p[i]),
                    );
                if placed {
                    let k = choose|k: int| 0 <= k < before[g].devices.len() && before[g].devices[k] == entry_of(reg, p[i]);
                    assert(after[g].devices[k] == entry_of(reg, p[i]));
                    assert(after[g].devices.contains(entry_of(reg, p[i])));
                } else {
                    assert(after[g].devices.contains(entry_of(reg, p[i])));
                }
            }
        }
    }
}

/// Where the groups of a summary come from: every entry of every group is
/// the display alias and location of a discovered device that is registered,
/// not ignored, and owned by the group's user alias; and every such device
/// stands in its owner's group. So an unregistered or ignored device yields
/// no entry, and a user whose discovered devices are all ignored has no
/// group.
pub proof fn lemma_summary_entries(reg: Map<Seq<char>, DeviceSettingsView>, ds: Seq<DeviceLocationView>)
    ensures
        forall|g: int, k: int|
            0 <= g < summarize(reg, ds).people.len() && 0 <= k < summarize(reg, ds).people[g].devices.len()
                ==> comes_from_shown(
                reg,
                ds,
                summarize(reg, ds).people[g].name,
                #[trigger] summarize(reg, ds).people[g].devices[k],
            ),
        forall|g: int|
            0 <= g < summarize(reg, ds).people.len() ==> owns_shown_device(
                reg,
                ds,
                #[trigger] summarize(reg, ds).people[g].name,
            ),
        forall|i: int|
            0 <= i < ds.len() && shown_pred(reg)(#[trigger] ds[i]) ==> placed_in_group(
                summarize(reg, ds).people,
                owner_of(reg, ds[i]),
                entry_of(reg, ds[i]),
            ),
{
    lemma_tally_entries(reg, ds);
    lemma_tally_shape(reg, ds);
    let people = summarize(reg, ds).people;
    assert forall|g: int| 0 <= g < people.len() implies owns_shown_device(reg, ds, #[trigger] people[g].name) by {
        assert(comes_from_shown(reg, ds, people[g].name, people[g].devices[0]));
        let i = choose|i: int|
            0 <= i < ds.len() && shown_pred(reg)(#[trigger] ds[i]) && owner_of(reg, ds[i]) == people[g].name
                && entry_of(reg, ds[i]) == people[g].devices[0];
        assert(owner_of(reg, ds[i]) == people[g].name);
    }
}

/// Adds `d` to the group named `owner`, or opens that group at the end.
fn add_to_group(groups: &mut Vec<PresenceGroup>, owner: String, d: PresenceDevice)
    requires
        names_distinct(groups_view(old(groups)@)),
    ensures
        groups_view(final(groups)@) == place_device(groups_view(old(groups)@), owner@, d@),
{
    let ghost gv = groups_view(groups@);
    let mut i: usize = 0;
    while i < groups.len()
        invariant
            i <= groups.len(),
            gv == groups_view(groups@),
            gv == groups_view(old(groups)@),
            names_distinct(gv),
            forall|j: int| 0 <= j < i ==> #[trigger] gv[j].name != owner@,
        decreases groups.len() - i,
    {
        if groups[i].name == owner {
            assert(gv[i as int].name == owner@);
            let mut g = groups.remove(i);
            g.devices.push(d);
            groups.insert(i, g);
            proof {
                let c = choose|c: int| 0 <= c < gv.len() && gv[c].name == owner@;
                assert(c == i);
                assert(g.devices@.map_values(|e: PresenceDevice| e@) =~= gv[c].devices.push(d@));
                assert(groups_view(groups@) =~= place_device(gv, owner@, d@));
            }
            return;
        }
        i = i + 1;
    }
    let mut devices: Vec<PresenceDevice> = Vec::new();
    devices.push(d);
    groups.push(PresenceGroup { name: owner, devices });
    proof {
        assert(devices@.map_values(|e: PresenceDevice| e@) =~= seq![d@]);
        assert(groups_view(groups@) =~= place_device(gv, owner@, d@));
    }
}

impl StorageService {
    /// Aggregates discovered devices against the registry: unregistered ones
    /// are counted as unknown, ignored ones are dropped, and the rest are
    /// grouped by user alias in order of first appearance.
    pub fn aggregate(&self, devices: &Vec<DeviceLocation>) -> (r: PresenceSummary)
        requires
            self.wf(),
        ensures
            r@ == summarize(self@, locations_view(devices@)),
    {
        let ghost dv = locations_view(devices@);
        let ignore = "ignore".to_owned();
        proof {
            reveal_strlit("ignore");
            assert(ignore@ =~= ignore_mode());
        }
        let mut people: Vec<PresenceGroup> = Vec::new();
        let mut shown: usize = 0;
        let mut unknown: usize = 0;
        let mut i: usize = 0;
        while i < devices.len()
            invariant
                self.wf(),
                i <= devices.len(),
                dv == locations_view(devices@),
                ignore@ == ignore_mode(),
                (groups_view(people@), shown as int, unknown as int) == tally(self@, dv.take(i as int)),
            decreases devices.len() - i,
        {
            proof {
                lemma_tally_shape(self@, dv.take(i as int));
                assert(dv.take(i as int + 1).drop_last() =~= dv.take(i as int));
            }
            let d = &devices[i];
            match self.fetch_device_by_mac(d.device_mac.as_str()) {
                None => {
                    unknown = unknown + 1;
                },
                Some(s) => {
                    if s.visibility != ignore {
                        let entry = PresenceDevice { name: s.device_alias, location: d.location.clone() };
                        add_to_group(&mut people, s.user_alias, entry);
                        shown = shown + 1;
                    }
                },
            }
            i = i + 1;
        }
        proof {
            assert(dv.take(i as int) =~= dv);
            lemma_tally_shape(self@, dv);
        }
        PresenceSummary {
            people_count: people.len(),
            people,
            device_count: shown,
            unknown_devices_count: unknown,
        }
    }
}

} // verus!
