use wifi_menu::network::{get_networks, normalize, parse_line, Network};

fn net(ssid: &str, in_use: bool, signal: u8) -> Network {
    Network {
        ssid: ssid.to_string(),
        bssid: String::new(),
        security: String::new(),
        signal,
        in_use,
    }
}

fn summary(list: &Vec<Network>) -> Vec<(String, bool, u8)> {
    list.iter().map(|n| (n.ssid.clone(), n.in_use, n.signal)).collect()
}

#[test]
fn raw_line_with_escaped_colons_parses() {
    let n = parse_line("*:MyNet\\:Home:AA\\:BB\\:CC\\:DD\\:EE\\:FF:WPA2:77");
    assert_eq!(
        n,
        Some(Network {
            ssid: "MyNet:Home".to_string(),
            bssid: "AA:BB:CC:DD:EE:FF".to_string(),
            security: "WPA2".to_string(),
            signal: 77,
            in_use: true,
        })
    );
}

#[test]
fn escaped_colon_leaves_no_backslash() {
    let n = parse_line(":a\\:b:::1").unwrap();
    assert_eq!(n.ssid, "a:b");
    assert!(!n.ssid.contains('\\'));
    assert!(!n.in_use);
}

#[test]
fn line_with_fewer_than_five_fields_is_skipped() {
    assert_eq!(parse_line("*:Net:AA:WPA2"), None);
    assert_eq!(parse_line(""), None);
    assert_eq!(parse_line("a:b:c\\:d:e"), None);
    assert!(parse_line("::::").is_some());
}

#[test]
fn more_than_five_fields_are_read_by_the_first_five() {
    let n = parse_line(" :Net:B:WEP:12:extra:more").unwrap();
    assert_eq!(n.ssid, "Net");
    assert_eq!(n.bssid, "B");
    assert_eq!(n.security, "WEP");
    assert_eq!(n.signal, 12);
    assert!(!n.in_use);
}

#[test]
fn ssid_keeps_its_blanks() {
    let n = parse_line(":  My Net  : b :  : 5").unwrap();
    assert_eq!(n.ssid, "  My Net  ");
    assert_eq!(n.bssid, " b ");
    assert_eq!(n.security, "  ");
    assert_eq!(n.signal, 0);
}

#[test]
fn unparsable_signal_is_zero() {
    assert_eq!(parse_line(":N:::").unwrap().signal, 0);
    assert_eq!(parse_line(":N:::abc").unwrap().signal, 0);
    assert_eq!(parse_line(":N:::300").unwrap().signal, 0);
    assert_eq!(parse_line(":N:::-3").unwrap().signal, 0);
    assert_eq!(parse_line(":N:::100").unwrap().signal, 100);
    assert_eq!(parse_line(":N:::101").unwrap().signal, 0);
    assert_eq!(parse_line(":N:::150").unwrap().signal, 0);
    assert_eq!(parse_line(":N:::255").unwrap().signal, 0);
    assert_eq!(parse_line(":N:::0100").unwrap().signal, 100);
    assert_eq!(parse_line(":N:::+42").unwrap().signal, 42);
}

#[test]
fn in_use_marker_is_a_single_asterisk() {
    assert!(parse_line("*:N:::1").unwrap().in_use);
    assert!(!parse_line(" :N:::1").unwrap().in_use);
    assert!(!parse_line("**:N:::1").unwrap().in_use);
    assert!(!parse_line("* :N:::1").unwrap().in_use);
    assert!(!parse_line(":N:::1").unwrap().in_use);
}

#[test]
fn in_use_duplicate_wins_over_stronger_signal() {
    let records = vec![net("A", false, 50), net("A", true, 10), net("B", false, 90)];
    let out = normalize(&records);
    assert_eq!(
        summary(&out),
        vec![("A".to_string(), true, 10), ("B".to_string(), false, 90)]
    );
}

#[test]
fn first_seen_wins_among_duplicates_not_in_use() {
    let records = vec![net("A", false, 30), net("A", false, 80), net("B", false, 50)];
    let out = normalize(&records);
    assert_eq!(
        summary(&out),
        vec![("B".to_string(), false, 50), ("A".to_string(), false, 30)]
    );
}

#[test]
fn first_in_use_wins_among_duplicates_in_use() {
    let records = vec![net("A", true, 30), net("A", true, 80), net("A", false, 99)];
    let out = normalize(&records);
    assert_eq!(summary(&out), vec![("A".to_string(), true, 30)]);
}

#[test]
fn hidden_networks_are_discarded() {
    let records = vec![net("", true, 99), net("A", false, 1), net("", false, 50)];
    let out = normalize(&records);
    assert_eq!(summary(&out), vec![("A".to_string(), false, 1)]);
}

#[test]
fn equal_rank_keeps_scan_order() {
    let records = vec![
        net("c", false, 40),
        net("a", false, 40),
        net("b", false, 40),
        net("z", true, 40),
        net("y", true, 40),
    ];
    let out = normalize(&records);
    let names: Vec<String> = out.iter().map(|n| n.ssid.clone()).collect();
    assert_eq!(names, vec!["z", "y", "c", "a", "b"]);
}

#[test]
fn normalize_of_nothing_is_nothing() {
    assert!(normalize(&Vec::new()).is_empty());
    assert!(get_networks("").is_empty());
    assert!(get_networks("\n\n").is_empty());
    assert!(get_networks("no fields here").is_empty());
}

#[test]
fn normalized_list_names_each_ssid_once_and_is_ordered() {
    let mut records = Vec::new();
    let mut seed: u32 = 12345;
    for _ in 0..200 {
        seed = seed.wrapping_mul(1103515245).wrapping_add(12345);
        let name = format!("net{}", (seed >> 16) % 17);
        let in_use = (seed >> 8) % 5 == 0;
        let signal = ((seed >> 3) % 101) as u8;
        let ssid = if (seed >> 24) % 11 == 0 { String::new() } else { name };
        records.push(Network {
            ssid,
            bssid: format!("{:x}", seed),
            security: String::new(),
            signal,
            in_use,
        });
    }
    let out = normalize(&records);
    for i in 0..out.len() {
        assert!(!out[i].ssid.is_empty());
        for j in (i + 1)..out.len() {
            assert_ne!(out[i].ssid, out[j].ssid);
            assert!(out[i].in_use || !out[j].in_use);
            if out[i].in_use == out[j].in_use {
                assert!(out[i].signal >= out[j].signal);
            }
        }
    }
    for r in &records {
        if !r.ssid.is_empty() {
            assert!(out.iter().any(|n| n.ssid == r.ssid));
        }
    }
    for n in &out {
        let first_in_use = records.iter().find(|r| r.ssid == n.ssid && r.in_use);
        let first = records.iter().find(|r| r.ssid == n.ssid).unwrap();
        let want = first_in_use.unwrap_or(first);
        assert_eq!(n, want);
    }
}

#[test]
fn scan_text_is_read_line_by_line() {
    let raw = " :Cafe:11\\:22::40\n*:Home:AA\\:BB:WPA2:80\nbroken line\n :Home:CC\\:DD:WPA2:95\n :Lab:EE:WPA1 WPA2:70\r\n ::FF:WPA2:99\n :Cafe:33::60";
    let out = get_networks(raw);
    assert_eq!(
        out,
        vec![
            Network {
                ssid: "Home".to_string(),
                bssid: "AA:BB".to_string(),
                security: "WPA2".to_string(),
                signal: 80,
                in_use: true,
            },
            Network {
                ssid: "Lab".to_string(),
                bssid: "EE".to_string(),
                security: "WPA1 WPA2".to_string(),
                signal: 70,
                in_use: false,
            },
            Network {
                ssid: "Cafe".to_string(),
                bssid: "11:22".to_string(),
                security: String::new(),
                signal: 40,
                in_use: false,
            },
        ]
    );
}

#[test]
fn network_clone_is_equal() {
    let n = Network {
        ssid: "a".to_string(),
        bssid: "b".to_string(),
        security: "c".to_string(),
        signal: 3,
        in_use: true,
    };
    assert_eq!(n.clone(), n);
}

#[test]
fn no_scanned_signal_is_above_a_hundred() {
    let mut raw = String::new();
    for n in 0..300u32 {
        raw.push_str(&format!(" :net{}:::{}\n", n, n));
    }
    let out = get_networks(&raw);
    assert_eq!(out.len(), 300);
    for n in &out {
        assert!(n.signal <= 100);
        let spelled: u32 = n.ssid[3..].parse().unwrap();
        assert_eq!(u32::from(n.signal), if spelled <= 100 { spelled } else { 0 });
    }
    assert_eq!(out[0].ssid, "net100");
}
