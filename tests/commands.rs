use vpn_tray::vpn::{
    connect, countries, disconnect, groups, set_settings, setting_command, settings, status_details,
    succeeded, Outcome, DEFAULT_COUNTRY,
};

fn exited(success: bool, stdout: &str) -> Outcome {
    Outcome::Exited { success, stdout: stdout.to_string() }
}

fn strings(v: &[&str]) -> Vec<String> {
    v.iter().map(|s| s.to_string()).collect()
}

#[test]
fn connect_slugs_the_target() {
    assert_eq!(connect("New York"), strings(&["connect", "New_York"]));
    assert_eq!(connect("Germany"), strings(&["connect", "Germany"]));
}

#[test]
fn disconnect_has_one_argument() {
    assert_eq!(disconnect(), strings(&["disconnect"]));
}

#[test]
fn success_needs_a_successful_exit() {
    assert!(succeeded(&exited(true, "")));
    assert!(!succeeded(&exited(false, "")));
    assert!(!succeeded(&Outcome::Failed));
}

#[test]
fn status_failure_gives_default_disconnected_status() {
    let r = status_details(&exited(false, "Status: Connected")).unwrap();
    assert_eq!(
        r,
        vec![
            ("Status".to_string(), "Disconnected".to_string()),
            ("Country".to_string(), DEFAULT_COUNTRY.to_string()),
        ]
    );
    assert_eq!(DEFAULT_COUNTRY, "Netherlands");
}

#[test]
fn status_success_parses_the_listing() {
    let r = status_details(&exited(true, "Status: Connected\nCountry: Germany")).unwrap();
    assert_eq!(
        r,
        vec![
            ("Status".to_string(), "Connected".to_string()),
            ("Country".to_string(), "Germany".to_string()),
        ]
    );
}

#[test]
fn queries_that_could_not_run_give_nothing() {
    assert_eq!(status_details(&Outcome::Failed), None);
    assert_eq!(countries(&Outcome::Failed), None);
    assert_eq!(groups(&Outcome::Failed), None);
    assert_eq!(settings(&Outcome::Failed), None);
}

#[test]
fn lists_are_parsed_whatever_the_exit() {
    assert_eq!(countries(&exited(false, "Spain, United_States")), Some(strings(&["Spain", "United States"])));
    assert_eq!(groups(&exited(true, "Obfuscated_Servers, Onion_Over_VPN")), Some(strings(&["Obfuscated Servers", "Onion Over VPN"])));
}

#[test]
fn settings_are_parsed() {
    let r = settings(&exited(true, "Kill Switch: disabled\nDNS: disabled")).unwrap();
    assert_eq!(
        r,
        vec![
            ("Kill Switch".to_string(), "disabled".to_string()),
            ("DNS".to_string(), "disabled".to_string()),
        ]
    );
}

#[test]
fn setting_enabled_sends_off() {
    assert_eq!(set_settings("Kill Switch", "enabled"), strings(&["set", "killswitch", "off"]));
    assert_eq!(set_settings("Kill Switch", "disabled"), strings(&["set", "killswitch", "on"]));
}

#[test]
fn setting_dns_sends_addresses() {
    assert_eq!(
        set_settings("DNS", "disabled"),
        strings(&["set", "dns", "103.86.96.100", "103.86.99.100"])
    );
}

#[test]
fn setting_lan_discovery_is_hyphenated() {
    assert_eq!(set_settings("LAN Discovery", "enabled"), strings(&["set", "lan-discovery", "off"]));
    assert_eq!(setting_command("lan discovery", "odd"), strings(&["set", "lan-discovery", "on"]));
}

#[test]
fn setting_command_takes_key_as_given() {
    assert_eq!(setting_command("Auto Connect", "enabled"), strings(&["set", "AutoConnect", "off"]));
    assert_eq!(setting_command("dns", "enabled"), strings(&["set", "dns", "103.86.96.100", "103.86.99.100"]));
}
