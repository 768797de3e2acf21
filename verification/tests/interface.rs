use wifi_menu::interface::{
    cycle, get_wifi_interfaces, is_known, pick_default_interface, position_of,
};

fn names(v: &[&str]) -> Vec<String> {
    v.iter().map(|s| s.to_string()).collect()
}

#[test]
fn wifi_adapters_are_listed_in_order() {
    let status = "lo:loopback:unmanaged\nwlan0:wifi:connected\neth0:ethernet:connected\nwlp3s0:wifi:disconnected\n:wifi:unavailable\nwifi\np2p:wifi-p2p:disconnected\nwlan9:wifi";
    assert_eq!(get_wifi_interfaces(status), names(&["wlan0", "wlp3s0", "wlan9"]));
}

#[test]
fn no_adapter_in_an_empty_listing() {
    assert!(get_wifi_interfaces("").is_empty());
    assert!(get_wifi_interfaces("eth0:ethernet:connected").is_empty());
}

#[test]
fn default_prefers_a_connected_adapter() {
    let known = names(&["wlan0", "wlan1"]);
    let status = "wlan0:wifi:disconnected\nwlan1:wifi:connected";
    assert_eq!(pick_default_interface(&known, Some(status)), Some("wlan1".to_string()));
}

#[test]
fn default_prefers_a_connecting_adapter_whatever_the_case() {
    let known = names(&["wlan0", "wlan1", "wlan2"]);
    let status = "eth0:ethernet:connected\nwlan0:wifi:unavailable\nwlan2:wifi:CONNECTING\nwlan1:wifi:connected";
    assert_eq!(pick_default_interface(&known, Some(status)), Some("wlan2".to_string()));
}

#[test]
fn default_state_must_match_whole() {
    let known = names(&["wlan0", "wlan1"]);
    let status = "wlan1:wifi:connected (externally)\nwlan1:wifi:disconnected";
    assert_eq!(pick_default_interface(&known, Some(status)), Some("wlan0".to_string()));
}

#[test]
fn default_is_the_first_adapter_otherwise() {
    let known = names(&["wlan0", "wlan1"]);
    let status = "wlan0:wifi:disconnected\nwlan1:wifi:unavailable\nwlan1:wifi";
    assert_eq!(pick_default_interface(&known, Some(status)), Some("wlan0".to_string()));
    assert_eq!(pick_default_interface(&known, Some("")), Some("wlan0".to_string()));
}

#[test]
fn no_default_without_adapters() {
    assert_eq!(pick_default_interface(&Vec::new(), Some("wlan0:wifi:connected")), None);
    assert_eq!(pick_default_interface(&Vec::new(), Some("")), None);
    assert_eq!(pick_default_interface(&Vec::new(), None), None);
}

#[test]
fn default_without_listing_is_the_first_adapter() {
    assert_eq!(pick_default_interface(&names(&["wlan0"]), None), Some("wlan0".to_string()));
    assert_eq!(
        pick_default_interface(&names(&["wlan1", "wlan0"]), None),
        Some("wlan1".to_string())
    );
}

#[test]
fn default_is_always_a_known_adapter() {
    let status = "wlan0:wifi:disconnected\n:wifi:connected";
    let known = get_wifi_interfaces(status);
    assert_eq!(known, names(&["wlan0"]));
    assert_eq!(pick_default_interface(&known, Some(status)), Some("wlan0".to_string()));

    let known = names(&["wlan0", "wlan1"]);
    let status = "wlan7:wifi:connected\nwlan1:wifi:connecting\nwlan0:wifi:connected";
    assert_eq!(pick_default_interface(&known, Some(status)), Some("wlan1".to_string()));
    let status = "wlan7:wifi:connected\n:wifi:connected";
    assert_eq!(pick_default_interface(&known, Some(status)), Some("wlan0".to_string()));
}

#[test]
fn known_adapters_are_told_apart() {
    let known = names(&["wlan0", "wlan1"]);
    assert!(is_known(&known, "wlan0"));
    assert!(is_known(&known, "wlan1"));
    assert!(!is_known(&known, "wlan"));
    assert!(!is_known(&known, ""));
    assert!(!is_known(&Vec::new(), "wlan0"));
}

#[test]
fn position_is_the_first_place_or_zero() {
    let known = names(&["a", "b", "c", "b"]);
    assert_eq!(position_of(&known, "a"), 0);
    assert_eq!(position_of(&known, "b"), 1);
    assert_eq!(position_of(&known, "c"), 2);
    assert_eq!(position_of(&known, "zz"), 0);
    assert_eq!(position_of(&Vec::new(), "a"), 0);
}

#[test]
fn cycle_goes_round_in_order() {
    let known = names(&["wlan0", "wlan1", "wlan2"]);
    assert_eq!(cycle(&known, "wlan0"), "wlan1");
    assert_eq!(cycle(&known, "wlan1"), "wlan2");
    assert_eq!(cycle(&known, "wlan2"), "wlan0");
}

#[test]
fn cycle_full_round_returns_to_start() {
    let known = names(&["a", "b", "c", "d", "e"]);
    for start in &known {
        let mut current = start.clone();
        for _ in 0..known.len() {
            current = cycle(&known, &current);
        }
        assert_eq!(&current, start);
    }
}

#[test]
fn cycle_from_an_unknown_adapter_starts_at_the_first() {
    let known = names(&["wlan0", "wlan1", "wlan2"]);
    assert_eq!(cycle(&known, "eth0"), "wlan1");
    assert_eq!(cycle(&names(&["only"]), "eth0"), "only");
}

#[test]
fn cycle_over_one_or_no_adapter_stays() {
    assert_eq!(cycle(&names(&["only"]), "only"), "only");
    assert_eq!(cycle(&Vec::new(), "wlan0"), "wlan0");
}
