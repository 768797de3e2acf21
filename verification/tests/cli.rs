use wifi_menu::cli::{
    action_report, command_result, connect_args, parse_cli_options, run_status, select_interface,
    CliOptions,
};

fn words(v: &[&str]) -> Vec<String> {
    v.iter().map(|s| s.to_string()).collect()
}

fn options() -> CliOptions {
    CliOptions { rescan: false, disconnect: false, status: false, help: false, interface: None }
}

#[test]
fn no_arguments_give_no_options() {
    assert_eq!(parse_cli_options(&Vec::new()), Ok(options()));
}

#[test]
fn each_action_flag_is_read() {
    assert_eq!(parse_cli_options(&words(&["--rescan"])), Ok(CliOptions { rescan: true, ..options() }));
    assert_eq!(
        parse_cli_options(&words(&["--disconnect"])),
        Ok(CliOptions { disconnect: true, ..options() })
    );
    assert_eq!(parse_cli_options(&words(&["--status"])), Ok(CliOptions { status: true, ..options() }));
    assert_eq!(
        parse_cli_options(&words(&["--rescan", "--rescan"])),
        Ok(CliOptions { rescan: true, ..options() })
    );
}

#[test]
fn interface_takes_the_next_argument() {
    assert_eq!(
        parse_cli_options(&words(&["--interface", "wlan1", "--status"])),
        Ok(CliOptions { status: true, interface: Some("wlan1".to_string()), ..options() })
    );
    assert_eq!(
        parse_cli_options(&words(&["--interface", "--status"])),
        Ok(CliOptions { interface: Some("--status".to_string()), ..options() })
    );
    assert_eq!(
        parse_cli_options(&words(&["--interface", "a", "--interface", "b"])),
        Ok(CliOptions { interface: Some("b".to_string()), ..options() })
    );
}

#[test]
fn interface_without_value_is_an_error() {
    assert_eq!(
        parse_cli_options(&words(&["--status", "--interface"])),
        Err("--interface requires a value".to_string())
    );
}

#[test]
fn unknown_argument_is_an_error() {
    assert_eq!(
        parse_cli_options(&words(&["--rescan", "--verbose"])),
        Err("Unknown argument: --verbose".to_string())
    );
    assert_eq!(parse_cli_options(&words(&[""])), Err("Unknown argument: ".to_string()));
    assert_eq!(parse_cli_options(&words(&["-H"])), Err("Unknown argument: -H".to_string()));
}

#[test]
fn two_actions_are_an_error() {
    for args in [
        words(&["--rescan", "--status"]),
        words(&["--disconnect", "--rescan"]),
        words(&["--status", "--interface", "w", "--disconnect"]),
        words(&["--rescan", "--disconnect", "--status"]),
    ] {
        assert_eq!(
            parse_cli_options(&args),
            Err("Use only one non-interactive action at a time".to_string())
        );
    }
}

#[test]
fn help_ends_the_reading() {
    assert_eq!(parse_cli_options(&words(&["--help"])), Ok(CliOptions { help: true, ..options() }));
    assert_eq!(parse_cli_options(&words(&["-h"])), Ok(CliOptions { help: true, ..options() }));
    assert_eq!(
        parse_cli_options(&words(&["--rescan", "--status", "-h", "--nonsense"])),
        Ok(CliOptions { rescan: true, status: true, help: true, ..options() })
    );
    assert_eq!(
        parse_cli_options(&words(&["--nonsense", "--help"])),
        Err("Unknown argument: --nonsense".to_string())
    );
}

#[test]
fn command_result_trims_and_picks_the_text() {
    assert_eq!(command_result(true, "  done \n", "warning"), Ok("done".to_string()));
    assert_eq!(command_result(true, "", ""), Ok(String::new()));
    assert_eq!(command_result(false, "out\n", " failed \n"), Err("failed".to_string()));
    assert_eq!(command_result(false, " out \n", " \n"), Err("out".to_string()));
    assert_eq!(command_result(false, "", ""), Err(String::new()));
}

#[test]
fn connect_args_for_a_secured_network() {
    assert_eq!(
        connect_args("Home", "AA:BB", "hunter2", "WPA2", "wlan0"),
        words(&[
            "dev", "wifi", "connect", "Home", "ifname", "wlan0", "bssid", "AA:BB", "name", "Home",
            "password", "hunter2",
        ])
    );
}

#[test]
fn connect_args_for_an_open_network_without_bssid() {
    assert_eq!(
        connect_args("Cafe", "", "ignored", "", "wlan1"),
        words(&["dev", "wifi", "connect", "Cafe", "ifname", "wlan1", "name", "Cafe"])
    );
    assert_eq!(
        connect_args("Cafe", "", "ignored", "--", "wlan1"),
        words(&["dev", "wifi", "connect", "Cafe", "ifname", "wlan1", "name", "Cafe"])
    );
}

#[test]
fn connect_args_password_follows_the_descriptor() {
    for security in ["WPA1 WPA2", "RSN", "WEP", "802.1X WPA3", "xRSNx"] {
        let args = connect_args("N", "", "pw", security, "w");
        assert_eq!(&args[args.len() - 2..], &words(&["password", "pw"])[..], "{}", security);
    }
    for security in ["", "wpa2", "802.1X", "OWE", "W PA", "WE P"] {
        let args = connect_args("N", "", "pw", security, "w");
        assert_eq!(args.last().unwrap(), "N", "{}", security);
        assert_eq!(args.len(), 8);
    }
    let args = connect_args("N", "B", "", "WPA2", "w");
    assert_eq!(args.len(), 12);
    assert_eq!(args[11], "");
}

#[test]
fn status_lists_every_wifi_adapter() {
    let listing = "lo:loopback:unmanaged:\nwlan0:wifi:connected:Home\neth0:ethernet:connected:Wired\nwlan1:wifi:disconnected:\nwlan2:wifi:x";
    assert_eq!(
        run_status(listing, None),
        "interface=wlan0 state=connected connection=Home\ninterface=wlan1 state=disconnected connection="
    );
}

#[test]
fn status_of_one_adapter() {
    let listing = "wlan0:wifi:connected:Home\nwlan1:wifi:disconnected:--";
    assert_eq!(
        run_status(listing, Some("wlan1")),
        "interface=wlan1 state=disconnected connection=--"
    );
    assert_eq!(
        run_status(listing, Some("wlan0")),
        "interface=wlan0 state=connected connection=Home"
    );
}

#[test]
fn status_without_adapter_says_unavailable() {
    assert_eq!(run_status("", None), "interface=none state=unavailable connection=--");
    assert_eq!(
        run_status("eth0:ethernet:connected:Wired", None),
        "interface=none state=unavailable connection=--"
    );
    assert_eq!(
        run_status("wlan0:wifi:connected:Home", Some("wlan9")),
        "interface=wlan9 state=unavailable connection=--"
    );
}

#[test]
fn status_keeps_backslashes_and_further_fields_apart() {
    assert_eq!(
        run_status("wlan0:wifi:connected:My\\:Net:more", None),
        "interface=wlan0 state=connected connection=My\\"
    );
}

#[test]
fn requested_interface_must_be_known() {
    let known = words(&["wlan0", "wlan1"]);
    assert_eq!(select_interface(Some("wlan1"), &known, None), Ok("wlan1".to_string()));
    assert_eq!(
        select_interface(Some("wlan9"), &known, Some("wlan0:wifi:connected")),
        Err("Interface 'wlan9' not found among Wi-Fi devices.".to_string())
    );
    assert_eq!(
        select_interface(Some("wlan0"), &Vec::new(), None),
        Err("Interface 'wlan0' not found among Wi-Fi devices.".to_string())
    );
}

#[test]
fn default_interface_is_chosen_when_none_is_requested() {
    let known = words(&["wlan0", "wlan1"]);
    assert_eq!(
        select_interface(None, &known, Some("wlan0:wifi:disconnected\nwlan1:wifi:connected")),
        Ok("wlan1".to_string())
    );
    assert_eq!(
        select_interface(None, &known, Some("wlan0:wifi:disconnected")),
        Ok("wlan0".to_string())
    );
    assert_eq!(
        select_interface(None, &Vec::new(), Some("")),
        Err("No Wi-Fi interface found.".to_string())
    );
    assert_eq!(select_interface(None, &known, None), Ok("wlan0".to_string()));
    assert_eq!(
        select_interface(None, &Vec::new(), None),
        Err("No Wi-Fi interface found.".to_string())
    );
    assert_eq!(
        select_interface(None, &known, Some("wlan9:wifi:connected\n:wifi:connected")),
        Ok("wlan0".to_string())
    );
}

#[test]
fn action_report_prefers_the_output() {
    assert_eq!(action_report("rescan", "", "wlan0"), "rescan=ok interface=wlan0");
    assert_eq!(action_report("disconnect", "", "wlan1"), "disconnect=ok interface=wlan1");
    assert_eq!(
        action_report("disconnect", "Device 'wlan1' successfully disconnected.", "wlan1"),
        "Device 'wlan1' successfully disconnected."
    );
}
