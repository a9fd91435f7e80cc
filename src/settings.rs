use vstd::prelude::*;

use crate::coordinator::AppState;
use crate::model::{locations_view, DeviceLocation, DeviceLocationView, DeviceSettings, DeviceSettingsView};
use crate::presence::{
    entry_of, ignore_mode, lemma_summary_entries, owner_of, placed_in_group, shown_pred, summarize,
    PresenceDeviceView,
};
use crate::storage::StorageService;

verus! {

/// A settings submission as mathematical values.
pub struct SettingsFormView {
    pub user_alias: Seq<char>,
    pub device_alias: Seq<char>,
    pub visibility: Seq<char>,
}

/// What a user submits for the device they are calling from.
#[derive(Clone, Debug)]
pub struct SettingsForm {
    pub user_alias: String,
    pub device_alias: String,
    pub visibility: String,
}

impl View for SettingsForm {
    type V = SettingsFormView;

    open spec fn view(&self) -> SettingsFormView {
        SettingsFormView {
            user_alias: self.user_alias@,
            device_alias: self.device_alias@,
            visibility: self.visibility@,
        }
    }
}

/// One choice of visibility mode as mathematical values.
pub struct VisibilityOptionView {
    pub id: Seq<char>,
    pub value: Seq<char>,
    pub checked: bool,
    pub description: Seq<char>,
}

/// One choice of visibility mode offered on the settings form.
#[derive(Clone, Debug)]
pub struct VisibilityOption {
    pub id: String,
    pub value: String,
    pub checked: bool,
    pub description: String,
}

impl View for VisibilityOption {
    type V = VisibilityOptionView;

    open spec fn view(&self) -> VisibilityOptionView {
        VisibilityOptionView {
            id: self.id@,
            value: self.value@,
            checked: self.checked,
            description: self.description@,
        }
    }
}

/// The mode shown as chosen: the given one, or `all` where there is none.
pub open spec fn selected_mode(visibility: Option<Seq<char>>) -> Seq<char> {
    match visibility {
        Some(v) => v,
        None => "all"@,
    }
}

/// One option, checked when its value is the selected mode.
pub open spec fn option_view(id: Seq<char>, value: Seq<char>, description: Seq<char>, selected: Seq<char>) -> VisibilityOptionView {
    VisibilityOptionView { id, value, checked: value == selected, description }
}

/// The four visibility modes, in the order the form lists them.
pub open spec fn visibility_options_view(selected: Seq<char>) -> Seq<VisibilityOptionView> {
    seq![
        option_view("radioVisibilityAll"@, "all"@, "Alles anzeigen, d.h. Name/Alias und Gerätename"@, selected),
        option_view("radioVisibilityAlias"@, "user"@, "Mit Name/Alias anzeigen"@, selected),
        option_view("radioVisibilityAnonymous"@, "anon"@, "Als anonyme Person anzeigen"@, selected),
        option_view(
            "radioVisibilityNone"@,
            "ignore"@,
            "Gar nicht anzeigen. Die wirklich paranoide Option. Meistens ist der obere Punkt besser."@,
            selected,
        ),
    ]
}

fn make_option(id: &str, value: &str, description: &str, selected: &String) -> (r: VisibilityOption)
    ensures
        r@ == option_view(id@, value@, description@, selected@),
{
    let value = value.to_owned();
    let checked = value == *selected;
    VisibilityOption { id: id.to_owned(), value, checked, description: description.to_owned() }
}

/// The visibility options of the settings form, with the given mode (or
/// `all`, where none is given) checked.
pub fn get_visibility_options(visibility: Option<String>) -> (r: Vec<VisibilityOption>)
    ensures
        r@.map_values(|o: VisibilityOption| o@) == visibility_options_view(
            selected_mode(
                match visibility {
                    Some(v) => Some(v@),
                    None => None,
                },
            ),
        ),
{
    let selected = match visibility {
        Some(v) => v,
        None => "all".to_owned(),
    };
    let mut r: Vec<VisibilityOption> = Vec::new();
    r.push(make_option("radioVisibilityAll", "all", "Alles anzeigen, d.h. Name/Alias und Gerätename", &selected));
    r.push(make_option("radioVisibilityAlias", "user", "Mit Name/Alias anzeigen", &selected));
    r.push(make_option("radioVisibilityAnonymous", "anon", "Als anonyme Person anzeigen", &selected));
    r.push(
        make_option(
            "radioVisibilityNone",
            "ignore",
            "Gar nicht anzeigen. Die wirklich paranoide Option. Meistens ist der obere Punkt besser.",
            &selected,
        ),
    );
    assert(r@.map_values(|o: VisibilityOption| o@) =~= visibility_options_view(selected@));
    r
}

/// `i` is the first discovered device whose IPv4 address is `ip`.
pub open spec fn is_first_ip_match(ds: Seq<DeviceLocationView>, ip: Seq<char>, i: int) -> bool {
    &&& 0 <= i < ds.len()
    &&& ds[i].ipv4 == ip
    &&& forall|j: int| 0 <= j < i ==> #[trigger] ds[j].ipv4 != ip
}

/// The MAC of the first discovered device with IPv4 address `ip`, if any.
pub open spec fn mac_for_ip(ds: Seq<DeviceLocationView>, ip: Seq<char>) -> Option<Seq<char>> {
    if exists|i: int| is_first_ip_match(ds, ip, i) {
        Some(ds[choose|i: int| is_first_ip_match(ds, ip, i)].device_mac)
    } else {
        None
    }
}

/// Resolves a caller's address to the MAC of the first discovered device
/// whose IPv4 address equals it exactly.
pub fn get_mac_by_ip(network_devices: &Vec<DeviceLocation>, ip: String) -> (r: Option<String>)
    ensures
        match r {
            Some(m) => mac_for_ip(locations_view(network_devices@), ip@) == Some(m@),
            None => mac_for_ip(locations_view(network_devices@), ip@) == None::<Seq<char>>,
        },
        r.is_none() <==> forall|i: int|
            0 <= i < network_devices@.len() ==> #[trigger] network_devices@[i].ipv4@ != ip@,
{
    let ghost dv = locations_view(network_devices@);
    let mut i: usize = 0;
    while i < network_devices.len()
        invariant
            i <= network_devices.len(),
            dv == locations_view(network_devices@),
            forall|j: int| 0 <= j < i ==> #[trigger] network_devices@[j].ipv4@ != ip@,
        decreases network_devices.len() - i,
    {
        if network_devices[i].ipv4 == ip {
            proof {
                assert(is_first_ip_match(dv, ip@, i as int));
                let c = choose|c: int| is_first_ip_match(dv, ip@, c);
                if c < i {
                    assert(network_devices@[c]@ == dv[c]);
                } else if c > i {
                    assert(dv[i as int].ipv4 == ip@);
                }
            }
            return Some(network_devices[i].device_mac.clone());
        }
        i = i + 1;
    }
    proof {
        assert forall|c: int| !is_first_ip_match(dv, ip@, c) by {
            if 0 <= c < dv.len() {
                assert(network_devices@[c]@ == dv[c]);
            }
        }
    }
    None
}

/// The settings a submission leaves for the device `mac`: the submitted
/// aliases and visibility, and the time of the change.
pub open spec fn submitted_settings(mac: Seq<char>, form: SettingsFormView, now_millis: u128) -> DeviceSettingsView {
    DeviceSettingsView {
        user_alias: form.user_alias,
        device_alias: form.device_alias,
        mac_address: mac,
        visibility: form.visibility,
        last_changed: now_millis,
    }
}

/// Takes a settings submission from the caller at `ip`. Where a discovered
/// device has that address, its settings are updated in the registry, the
/// summary is marked stale, and its MAC is returned so that the registry can
/// be written out; otherwise nothing changes.
pub fn save_device_settings(
    storage: &mut StorageService,
    network_devices: &Vec<DeviceLocation>,
    ip: String,
    form: &SettingsForm,
    now_millis: u128,
    app_state: &mut AppState,
) -> (r: Option<String>)
    requires
        old(storage).wf(),
    ensures
        final(storage).wf(),
        final(storage).path() == old(storage).path(),
        final(app_state).shutting_down() == old(app_state).shutting_down(),
        match mac_for_ip(locations_view(network_devices@), ip@) {
            Some(mac) => {
                &&& r.is_some() && r.unwrap()@ == mac
                &&& final(storage)@ == old(storage)@.insert(mac, submitted_settings(mac, form@, now_millis))
                &&& final(app_state).dirty()
            },
            None => {
                &&& r.is_none()
                &&& final(storage)@ == old(storage)@
                &&& final(app_state).dirty() == old(app_state).dirty()
            },
        },
{
    match get_mac_by_ip(network_devices, ip) {
        None => None,
        Some(mac) => {
            let mac_address = mac.clone();
            let device = DeviceSettings {
                user_alias: form.user_alias.clone(),
                device_alias: form.device_alias.clone(),
                mac_address,
                visibility: form.visibility.clone(),
                last_changed: now_millis,
            };
            storage.persist_device(&mac, device);
            app_state.mark_dirty();
            Some(mac)
        },
    }
}

/// A submission from a caller whose address the discovered device `ds[i]`
/// is the first to have files the submitted settings under that device's
/// MAC. Unless the submitted visibility is `ignore`, the next summary over the
/// same devices then holds the submitted device alias, at that device's
/// location, in the group of the submitted user alias; and every discovered
/// device with that MAC is shown under the submitted aliases only.
pub proof fn lemma_submission_in_next_summary(
    reg: Map<Seq<char>, DeviceSettingsView>,
    ds: Seq<DeviceLocationView>,
    ip: Seq<char>,
    form: SettingsFormView,
    now_millis: u128,
    i: int,
)
    requires
        is_first_ip_match(ds, ip, i),
        form.visibility != ignore_mode(),
    ensures
        mac_for_ip(ds, ip) == Some(ds[i].device_mac),
        placed_in_group(
            summarize(reg.insert(ds[i].device_mac, submitted_settings(ds[i].device_mac, form, now_millis)), ds).people,
            form.user_alias,
            PresenceDeviceView { name: form.device_alias, location: ds[i].location },
        ),
        forall|j: int|
            0 <= j < ds.len() && #[trigger] ds[j].device_mac == ds[i].device_mac ==> {
                let after = reg.insert(ds[i].device_mac, submitted_settings(ds[i].device_mac, form, now_millis));
                &&& shown_pred(after)(ds[j])
                &&& owner_of(after, ds[j]) == form.user_alias
                &&& entry_of(after, ds[j]) == (PresenceDeviceView { name: form.device_alias, location: ds[j].location })
            },
{
    let c = choose|c: int| is_first_ip_match(ds, ip, c);
    if c < i {
        assert(ds[c].ipv4 != ip);
    } else if c > i {
        assert(ds[i].ipv4 != ip);
    }
    let after = reg.insert(ds[i].device_mac, submitted_settings(ds[i].device_mac, form, now_millis));
    lemma_summary_entries(after, ds);
    assert(shown_pred(after)(ds[i]));
}

} // verus!
