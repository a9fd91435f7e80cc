use vstd::prelude::*;

verus! {

/// What a device setting holds, as mathematical values.
pub struct DeviceSettingsView {
    pub user_alias: Seq<char>,
    pub device_alias: Seq<char>,
    pub mac_address: Seq<char>,
    pub visibility: Seq<char>,
    pub last_changed: u128,
}

/// The settings a user chose for one of their devices.
#[derive(Clone, Debug)]
pub struct DeviceSettings {
    pub user_alias: String,
    pub device_alias: String,
    pub mac_address: String,
    pub visibility: String,
    /// Milliseconds since the Unix epoch of the last change.
    pub last_changed: u128,
}

impl View for DeviceSettings {
    type V = DeviceSettingsView;

    open spec fn view(&self) -> DeviceSettingsView {
        DeviceSettingsView {
            user_alias: self.user_alias@,
            device_alias: self.device_alias@,
            mac_address: self.mac_address@,
            visibility: self.visibility@,
            last_changed: self.last_changed,
        }
    }
}

impl DeviceSettings {
    /// A field-by-field copy whose view is known to be the same.
    pub fn duplicate(&self) -> (r: DeviceSettings)
        ensures
            r@ == self@,
    {
        DeviceSettings {
            user_alias: self.user_alias.clone(),
            device_alias: self.device_alias.clone(),
            mac_address: self.mac_address.clone(),
            visibility: self.visibility.clone(),
            last_changed: self.last_changed,
        }
    }
}

/// What a discovered device holds, as mathematical values.
pub struct DeviceLocationView {
    pub ipv4: Seq<char>,
    pub ipv6: Seq<Seq<char>>,
    pub device_mac: Seq<char>,
    pub remote_ip: Seq<char>,
    pub remote_mac: Seq<char>,
    pub location: Seq<char>,
}

/// A device seen on the network by a sensor.
#[derive(Clone, Debug)]
pub struct DeviceLocation {
    pub ipv4: String,
    pub ipv6: Vec<String>,
    pub device_mac: String,
    pub remote_ip: String,
    pub remote_mac: String,
    /// Free-text label of where the observing sensor stands.
    pub location: String,
}

impl View for DeviceLocation {
    type V = DeviceLocationView;

    open spec fn view(&self) -> DeviceLocationView {
        DeviceLocationView {
            ipv4: self.ipv4@,
            ipv6: self.ipv6@.map_values(|s: String| s@),
            device_mac: self.device_mac@,
            remote_ip: self.remote_ip@,
            remote_mac: self.remote_mac@,
            location: self.location@,
        }
    }
}

/// The views of a list of discovered devices.
pub open spec fn locations_view(ds: Seq<DeviceLocation>) -> Seq<DeviceLocationView> {
    ds.map_values(|d: DeviceLocation| d@)
}

} // verus!
