use presence_tracker::{
    apply_discovery, get_mac_by_ip, get_visibility_options, save_device_settings, AppState,
    DeviceLocation, DeviceSettings, IngestAction, PublishAction, SettingsForm, StorageService,
};

fn settings(mac: &str, user: &str, device: &str, visibility: &str) -> DeviceSettings {
    DeviceSettings {
        user_alias: user.to_string(),
        device_alias: device.to_string(),
        mac_address: mac.to_string(),
        visibility: visibility.to_string(),
        last_changed: 0,
    }
}

fn seen(mac: &str, ipv4: &str, location: &str) -> DeviceLocation {
    DeviceLocation {
        ipv4: ipv4.to_string(),
        ipv6: vec!["fe80::1".to_string()],
        device_mac: mac.to_string(),
        remote_ip: "10.0.0.1".to_string(),
        remote_mac: "FF".to_string(),
        location: location.to_string(),
    }
}

fn registry(records: Vec<DeviceSettings>) -> StorageService {
    StorageService::new("device_data.json".to_string(), records)
}

#[test]
fn scenario_a_unknown_device() {
    let reg = registry(vec![]);
    let s = reg.aggregate(&vec![seen("AA", "10.0.0.2", "")]);
    assert_eq!(s.people_count, 0);
    assert_eq!(s.device_count, 0);
    assert_eq!(s.unknown_devices_count, 1);
    assert!(s.people.is_empty());
}

#[test]
fn scenario_b_one_registered_device() {
    let reg = registry(vec![settings("AA", "alice", "phone", "all")]);
    let s = reg.aggregate(&vec![seen("AA", "10.0.0.2", "kitchen")]);
    assert_eq!(s.people.len(), 1);
    assert_eq!(s.people[0].name, "alice");
    assert_eq!(s.people[0].devices.len(), 1);
    assert_eq!(s.people[0].devices[0].name, "phone");
    assert_eq!(s.people[0].devices[0].location, "kitchen");
    assert_eq!(s.people_count, 1);
    assert_eq!(s.device_count, 1);
    assert_eq!(s.unknown_devices_count, 0);
}

#[test]
fn scenario_c_two_devices_of_one_owner() {
    let reg = registry(vec![
        settings("AA", "alice", "phone", "all"),
        settings("BB", "alice", "laptop", "user"),
    ]);
    let s = reg.aggregate(&vec![seen("AA", "10.0.0.2", "kitchen"), seen("BB", "10.0.0.3", "office")]);
    assert_eq!(s.people.len(), 1);
    assert_eq!(s.people[0].name, "alice");
    assert_eq!(s.people[0].devices.len(), 2);
    assert_eq!(s.people[0].devices[0].name, "phone");
    assert_eq!(s.people[0].devices[1].name, "laptop");
    assert_eq!(s.people[0].devices[1].location, "office");
    assert_eq!(s.people_count, 1);
    assert_eq!(s.device_count, 2);
    assert_eq!(s.unknown_devices_count, 0);
}

#[test]
fn scenario_d_settings_submission() {
    let mut reg = registry(vec![]);
    let snapshot = vec![seen("AA", "10.0.0.2", "kitchen")];
    let mut state = AppState::new();
    let form = SettingsForm {
        user_alias: "alice".to_string(),
        device_alias: "phone".to_string(),
        visibility: "all".to_string(),
    };
    let r = save_device_settings(&mut reg, &snapshot, "10.0.0.2".to_string(), &form, 1234, &mut state);
    assert_eq!(r, Some("AA".to_string()));
    assert!(state.is_dirty());
    assert!(!state.is_shutting_down());
    let stored = reg.fetch_device_by_mac("AA").unwrap();
    assert_eq!(stored.user_alias, "alice");
    assert_eq!(stored.device_alias, "phone");
    assert_eq!(stored.mac_address, "AA");
    assert_eq!(stored.visibility, "all");
    assert_eq!(stored.last_changed, 1234);
    let s = reg.aggregate(&snapshot);
    assert_eq!(s.people[0].name, "alice");
    assert_eq!(s.people[0].devices[0].name, "phone");

    let form = SettingsForm {
        user_alias: "bob".to_string(),
        device_alias: "tablet".to_string(),
        visibility: "anon".to_string(),
    };
    let r = save_device_settings(&mut reg, &snapshot, "10.0.0.2".to_string(), &form, 99, &mut state);
    assert_eq!(r, Some("AA".to_string()));
    assert_eq!(reg.count_devices(), 1);
    let s = reg.aggregate(&snapshot);
    assert_eq!(s.people[0].name, "bob");
    assert_eq!(s.people[0].devices[0].name, "tablet");
}

#[test]
fn settings_submission_from_unknown_address_changes_nothing() {
    let mut reg = registry(vec![settings("AA", "alice", "phone", "all")]);
    let snapshot = vec![seen("AA", "10.0.0.2", "kitchen")];
    let mut state = AppState::new();
    let form = SettingsForm {
        user_alias: "eve".to_string(),
        device_alias: "x".to_string(),
        visibility: "all".to_string(),
    };
    let r = save_device_settings(&mut reg, &snapshot, "10.0.0.9".to_string(), &form, 5, &mut state);
    assert_eq!(r, None);
    assert!(!state.is_dirty());
    assert_eq!(reg.count_devices(), 1);
    assert_eq!(reg.fetch_device_by_mac("AA").unwrap().user_alias, "alice");
}

#[test]
fn scenario_e_shutdown_stops_loops() {
    let mut state = AppState::new();
    assert_eq!(state.ingest_action(), IngestAction::Receive);
    assert_eq!(state.publish_action(), PublishAction::Poll);
    state.mark_dirty();
    assert_eq!(state.publish_action(), PublishAction::Publish);
    state.request_shutdown();
    assert_eq!(state.ingest_action(), IngestAction::Stop);
    assert_eq!(state.publish_action(), PublishAction::Stop);
    state.begin_publish();
    state.mark_dirty();
    assert!(state.is_shutting_down());
    assert_eq!(state.ingest_action(), IngestAction::Stop);
    assert_eq!(state.publish_action(), PublishAction::Stop);
}

#[test]
fn ignored_device_counts_nowhere() {
    let reg = registry(vec![
        settings("AA", "alice", "phone", "ignore"),
        settings("BB", "bob", "laptop", "all"),
    ]);
    let s = reg.aggregate(&vec![
        seen("AA", "10.0.0.2", "kitchen"),
        seen("BB", "10.0.0.3", "office"),
        seen("CC", "10.0.0.4", "hall"),
    ]);
    assert_eq!(s.people.len(), 1);
    assert_eq!(s.people[0].name, "bob");
    assert_eq!(s.people_count, 1);
    assert_eq!(s.device_count, 1);
    assert_eq!(s.unknown_devices_count, 1);
}

#[test]
fn several_ignored_devices_of_one_owner() {
    let reg = registry(vec![
        settings("AA", "alice", "phone", "ignore"),
        settings("BB", "alice", "laptop", "ignore"),
        settings("CC", "bob", "watch", "anon"),
        settings("DD", "carol", "tv", "all"),
    ]);
    let s = reg.aggregate(&vec![
        seen("AA", "1", "a"),
        seen("BB", "2", "b"),
        seen("CC", "3", "c"),
        seen("DD", "4", "d"),
    ]);
    assert_eq!(s.people_count, 2);
    assert_eq!(s.device_count, 2);
    assert_eq!(s.unknown_devices_count, 0);
    assert_eq!(s.people[0].name, "bob");
    assert_eq!(s.people[1].name, "carol");
}

#[test]
fn empty_snapshot_gives_empty_summary() {
    let reg = registry(vec![settings("AA", "alice", "phone", "all")]);
    let s = reg.aggregate(&vec![]);
    assert!(s.people.is_empty());
    assert_eq!(s.people_count, 0);
    assert_eq!(s.device_count, 0);
    assert_eq!(s.unknown_devices_count, 0);
}

#[test]
fn aggregate_twice_gives_same_summary() {
    let reg = registry(vec![
        settings("AA", "alice", "phone", "all"),
        settings("BB", "bob", "laptop", "user"),
    ]);
    let snapshot = vec![seen("BB", "2", "office"), seen("AA", "1", "kitchen"), seen("ZZ", "3", "hall")];
    let a = reg.aggregate(&snapshot);
    let b = reg.aggregate(&snapshot);
    assert_eq!(format!("{:?}", a), format!("{:?}", b));
    assert_eq!(a.people[0].name, "bob");
    assert_eq!(a.people[1].name, "alice");
}

#[test]
fn records_round_trip() {
    let reg = registry(vec![
        settings("AA", "alice", "phone", "all"),
        settings("BB", "bob", "laptop", "anon"),
    ]);
    let back = registry(reg.records());
    assert_eq!(back.count_devices(), 2);
    for mac in ["AA", "BB"] {
        let x = reg.fetch_device_by_mac(mac).unwrap();
        let y = back.fetch_device_by_mac(mac).unwrap();
        assert_eq!(x.user_alias, y.user_alias);
        assert_eq!(x.device_alias, y.device_alias);
        assert_eq!(x.visibility, y.visibility);
        assert_eq!(x.last_changed, y.last_changed);
    }
}

#[test]
fn records_hold_one_entry_per_device() {
    let mut reg = registry(vec![
        settings("AA", "alice", "phone", "all"),
        settings("BB", "bob", "laptop", "anon"),
        settings("AA", "alice", "tablet", "user"),
    ]);
    reg.persist_device(&"CC".to_string(), settings("CC", "carol", "tv", "ignore"));
    let mut recs = reg.records();
    assert_eq!(recs.len(), 3);
    recs.sort_by(|a, b| a.mac_address.cmp(&b.mac_address));
    assert_eq!(recs[0].mac_address, "AA");
    assert_eq!(recs[0].device_alias, "tablet");
    assert_eq!(recs[1].mac_address, "BB");
    assert_eq!(recs[1].visibility, "anon");
    assert_eq!(recs[2].mac_address, "CC");
    assert_eq!(recs[2].user_alias, "carol");
}

#[test]
fn publish_clears_flag_when_summary_is_taken() {
    let mut state = AppState::new();
    state.mark_dirty();
    assert_eq!(state.publish_action(), PublishAction::Publish);
    state.begin_publish();
    assert_eq!(state.publish_action(), PublishAction::Poll);
    state.mark_dirty();
    assert_eq!(state.publish_action(), PublishAction::Publish);
}

#[test]
fn later_stored_record_wins() {
    let reg = registry(vec![settings("AA", "alice", "phone", "all"), settings("AA", "bob", "tablet", "all")]);
    assert_eq!(reg.count_devices(), 1);
    assert_eq!(reg.fetch_device_by_mac("AA").unwrap().user_alias, "bob");
    assert_eq!(reg.json_path(), "device_data.json");
}

#[test]
fn upsert_new_mac_adds_one() {
    let mut reg = registry(vec![settings("AA", "alice", "phone", "all")]);
    assert_eq!(reg.count_devices(), 1);
    reg.persist_device(&"BB".to_string(), settings("BB", "bob", "laptop", "all"));
    assert_eq!(reg.count_devices(), 2);
    assert_eq!(reg.fetch_device_by_mac("BB").unwrap().device_alias, "laptop");
}

#[test]
fn upsert_known_mac_replaces() {
    let mut reg = registry(vec![settings("AA", "alice", "phone", "all")]);
    reg.persist_device(&"AA".to_string(), settings("AA", "carol", "watch", "ignore"));
    assert_eq!(reg.count_devices(), 1);
    let d = reg.fetch_device_by_mac("AA").unwrap();
    assert_eq!(d.user_alias, "carol");
    assert_eq!(d.device_alias, "watch");
    assert_eq!(d.visibility, "ignore");
    assert_eq!(reg.records().len(), 1);
}

#[test]
fn fetch_unknown_mac_is_none() {
    let reg = registry(vec![settings("AA", "alice", "phone", "all")]);
    assert!(reg.fetch_device_by_mac("aa").is_none());
    assert!(reg.fetch_device_by_mac("").is_none());
}

#[test]
fn mac_by_ip_takes_first_exact_match() {
    let snapshot = vec![seen("AA", "10.0.0.2", "x"), seen("BB", "10.0.0.3", "y"), seen("CC", "10.0.0.3", "z")];
    assert_eq!(get_mac_by_ip(&snapshot, "10.0.0.3".to_string()), Some("BB".to_string()));
    assert_eq!(get_mac_by_ip(&snapshot, "10.0.0.2".to_string()), Some("AA".to_string()));
    assert_eq!(get_mac_by_ip(&snapshot, "10.0.0.30".to_string()), None);
    assert_eq!(get_mac_by_ip(&vec![], "10.0.0.2".to_string()), None);
}

#[test]
fn visibility_options_default_to_all() {
    let o = get_visibility_options(None);
    assert_eq!(o.len(), 4);
    let values: Vec<&str> = o.iter().map(|x| x.value.as_str()).collect();
    assert_eq!(values, vec!["all", "user", "anon", "ignore"]);
    assert_eq!(o[0].id, "radioVisibilityAll");
    assert_eq!(o[3].id, "radioVisibilityNone");
    assert_eq!(o[2].description, "Als anonyme Person anzeigen");
    let checked: Vec<bool> = o.iter().map(|x| x.checked).collect();
    assert_eq!(checked, vec![true, false, false, false]);
}

#[test]
fn visibility_options_check_given_mode() {
    let o = get_visibility_options(Some("ignore".to_string()));
    let checked: Vec<bool> = o.iter().map(|x| x.checked).collect();
    assert_eq!(checked, vec![false, false, false, true]);
    let o = get_visibility_options(Some("other".to_string()));
    assert!(o.iter().all(|x| !x.checked));
}

#[test]
fn discovery_replaces_snapshot() {
    let mut state = AppState::new();
    let mut snapshot = vec![seen("AA", "1", "a"), seen("BB", "2", "b")];
    apply_discovery(&mut state, &mut snapshot, None);
    assert_eq!(snapshot.len(), 2);
    assert!(!state.is_dirty());
    apply_discovery(&mut state, &mut snapshot, Some(vec![seen("CC", "3", "c")]));
    assert_eq!(snapshot.len(), 1);
    assert_eq!(snapshot[0].device_mac, "CC");
    assert!(state.is_dirty());
    state.begin_publish();
    assert!(!state.is_dirty());
    assert_eq!(state.publish_action(), PublishAction::Poll);
}
