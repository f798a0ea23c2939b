use vpn_tray::parse::{parse_key_value, parse_list};

fn pair(k: &str, v: &str) -> (String, String) {
    (k.to_string(), v.to_string())
}

#[test]
fn key_value_reads_each_line() {
    let r = parse_key_value("Status: Connected\nCountry: Germany\n");
    assert_eq!(r, vec![pair("Status", "Connected"), pair("Country", "Germany")]);
}

#[test]
fn key_value_strips_leading_characters_and_trims() {
    let r = parse_key_value("\r-  Server IP :  1.2.3.4 \r\n--Uptime:5 minutes\r\n");
    assert_eq!(r, vec![pair("Server IP", "1.2.3.4"), pair("Uptime", "5 minutes")]);
}

#[test]
fn key_value_splits_on_first_colon_only() {
    let r = parse_key_value("Time: 12:30:01");
    assert_eq!(r, vec![pair("Time", "12:30:01")]);
}

#[test]
fn key_value_drops_lines_without_colon() {
    let r = parse_key_value("New feature available\nStatus: Disconnected\njust text");
    assert_eq!(r, vec![pair("Status", "Disconnected")]);
    assert_eq!(parse_key_value("no colon here"), vec![]);
}

#[test]
fn key_value_keeps_value_case() {
    let r = parse_key_value("Firewall: ENABLED");
    assert_eq!(r, vec![pair("Firewall", "ENABLED")]);
}

#[test]
fn key_value_of_empty_input_is_empty() {
    assert_eq!(parse_key_value(""), vec![]);
    assert_eq!(parse_key_value("\n\n"), vec![]);
}

#[test]
fn list_reads_underscores_as_spaces_and_trims() {
    let r = parse_list("France, New_York , Germany");
    assert_eq!(r, vec!["France".to_string(), "New York".to_string(), "Germany".to_string()]);
}

#[test]
fn list_strips_leading_characters() {
    let r = parse_list("\r-  \rAlbania, United_Kingdom\n");
    assert_eq!(r, vec!["Albania".to_string(), "United Kingdom".to_string()]);
}

#[test]
fn list_of_empty_input_is_empty() {
    assert_eq!(parse_list(""), Vec::<String>::new());
    assert_eq!(parse_list(" - \n"), Vec::<String>::new());
}

#[test]
fn list_keeps_empty_items_between_commas() {
    let r = parse_list("a,,b");
    assert_eq!(r, vec!["a".to_string(), "".to_string(), "b".to_string()]);
}

#[test]
fn line_without_colon_adds_nothing_wherever_inserted() {
    let plain = parse_key_value("Status: Connected\nCountry: Germany");
    assert_eq!(parse_key_value("Status: Connected\nA new version is out\nCountry: Germany"), plain);
    assert_eq!(parse_key_value("A new version is out\nStatus: Connected\nCountry: Germany"), plain);
    assert_eq!(parse_key_value("Status: Connected\nCountry: Germany\nA new version is out"), plain);
}

#[test]
fn well_formed_line_gives_its_entry_in_place() {
    let r = parse_key_value("Status: Connected\n - Server :  de1 \nUptime: 2 hours");
    assert_eq!(r, vec![pair("Status", "Connected"), pair("Server", "de1"), pair("Uptime", "2 hours")]);
}

#[test]
fn one_entry_per_line_with_colon() {
    let text = "a: 1\nplain\nb:2\n\nc :\n:d\nno";
    assert_eq!(parse_key_value(text).len(), 4);
    assert_eq!(parse_key_value(text)[3], pair("", "d"));
    assert_eq!(parse_key_value("one\ntwo\nthree").len(), 0);
}
