use vpn_tray::tray::{entry_label, get_countries, get_groups, get_settings, is_checked, is_connected, is_toggleable, Refresh, VpnTray};
use vpn_tray::vpn::{status_details, Outcome};

fn pair(k: &str, v: &str) -> (String, String) {
    (k.to_string(), v.to_string())
}

fn strings(v: &[&str]) -> Vec<String> {
    v.iter().map(|s| s.to_string()).collect()
}

fn connected_status() -> Vec<(String, String)> {
    vec![pair("Status", "Connected"), pair("Country", "Germany"), pair("Server", "de1.example")]
}

fn disconnected_status() -> Vec<(String, String)> {
    vec![pair("Status", "Disconnected"), pair("Country", "France")]
}

fn tray(status: Vec<(String, String)>) -> VpnTray {
    VpnTray::new(
        Some(status),
        Some(strings(&["France", "Germany", "Spain"])),
        Some(strings(&["Standard VPN", "Double VPN", "Onion Over VPN"])),
        Some(vec![pair("Kill Switch", "enabled"), pair("Protocol", "UDP")]),
    )
}

#[test]
fn connectivity_needs_a_status_key_with_connected() {
    assert!(is_connected(&Some(connected_status())));
    assert!(is_connected(&Some(vec![pair("VPN Status", "Connected")])));
    assert!(!is_connected(&Some(vec![pair("Status", "connected")])));
    assert!(!is_connected(&Some(vec![pair("State", "Connected")])));
    assert!(!is_connected(&Some(disconnected_status())));
    assert!(!is_connected(&None));
}

#[test]
fn daemon_failure_is_disconnected() {
    let status = status_details(&Outcome::Exited { success: false, stdout: String::new() });
    assert!(!is_connected(&status));
}

#[test]
fn country_is_found_in_the_list() {
    let (index, name, list) = get_countries(&Some(connected_status()), Some(strings(&["France", "Germany"])));
    assert_eq!((index, name.as_str()), (1, "Germany"));
    assert_eq!(list, strings(&["France", "Germany"]));
}

#[test]
fn country_falls_back_to_default() {
    let fallback = (0, "Netherlands".to_string(), strings(&["Netherlands"]));
    assert_eq!(get_countries(&None, Some(strings(&["France"]))), fallback);
    assert_eq!(get_countries(&Some(connected_status()), None), fallback);
    assert_eq!(get_countries(&Some(connected_status()), Some(strings(&["France"]))), fallback);
    assert_eq!(get_countries(&Some(vec![pair("Status", "Disconnected")]), Some(strings(&["France"]))), fallback);
}

#[test]
fn failed_fetches_give_empty_lists() {
    assert_eq!(get_groups(None), Vec::<String>::new());
    assert_eq!(get_settings(None), vec![]);
    assert_eq!(get_groups(Some(strings(&["Standard VPN"]))), strings(&["Standard VPN"]));
}

#[test]
fn new_tray_selects_current_country() {
    let t = tray(connected_status());
    assert!(t.connected());
    assert!(t.use_country());
    assert_eq!(t.target_index(), 1);
    assert_eq!(t.connectivity_label(), "Disconnect");
    assert_eq!(t.icon_name(), "emblem-default");
    let d = tray(disconnected_status());
    assert_eq!(d.connectivity_label(), "Connect");
    assert_eq!(d.icon_name(), "face-monkey");
    assert_eq!(d.target_index(), 0);
    let unknown = VpnTray::new(Some(vec![pair("Status", "Disconnected")]), Some(strings(&["France"])), None, None);
    assert_eq!(unknown.countries(), &strings(&["Netherlands"]));
}

#[test]
fn poll_without_transition_only_replaces_status() {
    let mut t = tray(connected_status());
    let status = Some(vec![pair("Status", "Connected"), pair("Country", "Spain")]);
    assert!(!t.needs_refresh(&status));
    t.poll(status.clone(), None);
    assert_eq!(t.status_details(), &status.unwrap());
    assert_eq!(t.countries(), &strings(&["France", "Germany", "Spain"]));
    assert_eq!(t.target_index(), 1);
    assert_eq!(t.settings().len(), 2);
}

#[test]
fn poll_with_transition_refreshes_once() {
    let mut t = tray(disconnected_status());
    let status = Some(vec![pair("Status", "Connected"), pair("Country", "Spain")]);
    assert!(t.needs_refresh(&status));
    let refresh = Refresh {
        countries: Some(strings(&["Germany", "Spain"])),
        groups: Some(strings(&["Standard VPN"])),
        settings: Some(vec![pair("DNS", "disabled")]),
    };
    t.poll(status.clone(), Some(refresh));
    assert!(t.connected());
    assert_eq!(t.countries(), &strings(&["Germany", "Spain"]));
    assert_eq!(t.target_index(), 1);
    assert_eq!(t.groups(), &strings(&["Standard VPN"]));
    assert_eq!(t.settings(), &vec![pair("DNS", "disabled")]);
    assert!(!t.needs_refresh(&status));
}

#[test]
fn poll_that_could_not_run_keeps_last_state() {
    let mut t = tray(connected_status());
    assert!(!t.needs_refresh(&None));
    t.poll(None, None);
    assert!(t.connected());
    assert_eq!(t.status_details(), &connected_status());
    assert_eq!(t.countries().len(), 3);
    assert_eq!(t.target_index(), 1);
}

#[test]
fn poll_with_daemon_failure_disconnects() {
    let mut t = tray(connected_status());
    let status = status_details(&Outcome::Exited { success: false, stdout: String::new() });
    assert!(t.needs_refresh(&status));
    t.poll(status, None);
    assert!(!t.connected());
    assert_eq!(t.status_details(), &vec![pair("Status", "Disconnected"), pair("Country", "Netherlands")]);
}

#[test]
fn connecting_to_country_leaves_groups_unmarked() {
    let mut t = tray(disconnected_status());
    t.connect(1, false, true);
    assert!(!t.use_country());
    assert_eq!(t.selected(false), 1);
    let target = t.target(2, true);
    assert_eq!(target, "Spain".to_string());
    t.connect(2, true, true);
    assert!(t.use_country());
    assert_eq!(t.target_index(), 2);
    assert_eq!(t.selected(true), 2);
    assert!(t.selected(false) >= t.groups().len());
}

#[test]
fn failed_connect_changes_nothing() {
    let mut t = tray(disconnected_status());
    t.connect(1, false, false);
    assert!(t.use_country());
    assert!(!t.connected());
    assert_eq!(t.target_index(), 0);
}

#[test]
fn connectivity_command_follows_state() {
    let mut t = tray(connected_status());
    assert_eq!(t.connectivity_command(), strings(&["disconnect"]));
    t.change_connectivity_state(true);
    assert!(!t.connected());
    t.connect(2, false, false);
    assert_eq!(t.connectivity_command(), strings(&["connect", "Germany"]));
    t.connect(2, false, true);
    t.change_status(false);
    assert_eq!(t.connectivity_command(), strings(&["connect", "Onion_Over_VPN"]));
    t.change_connectivity_state(true);
    assert!(t.connected());
    assert_eq!(t.connectivity_label(), "Disconnect");
}

#[test]
fn toggling_enabled_setting_sends_off_and_shows_disabled() {
    let mut t = tray(connected_status());
    assert_eq!(t.settings_command(0), strings(&["set", "killswitch", "off"]));
    t.change_settings(0, true);
    assert_eq!(t.settings()[0], pair("Kill Switch", "disabled"));
    t.replace_settings(Some(vec![pair("Kill Switch", "enabled")]));
    assert_eq!(t.settings(), &vec![pair("Kill Switch", "enabled")]);
}

#[test]
fn toggling_other_value_keeps_it() {
    let mut t = tray(connected_status());
    t.change_settings(1, true);
    assert_eq!(t.settings()[1], pair("Protocol", "UDP"));
    t.change_settings(0, false);
    assert_eq!(t.settings()[0], pair("Kill Switch", "enabled"));
    t.change_settings(0, true);
    t.replace_settings(None);
    assert_eq!(t.settings(), &vec![pair("Kill Switch", "disabled"), pair("Protocol", "UDP")]);
}

#[test]
fn menu_entries() {
    assert_eq!(entry_label("Status", "Connected"), "Status: Connected");
    assert!(is_toggleable("enabled"));
    assert!(is_toggleable("disabled"));
    assert!(!is_toggleable("UDP"));
    assert!(is_checked("enabled"));
    assert!(!is_checked("disabled"));
}
