use ratatui::layout::{Constraint, Direction, Layout};
use wifi_menu::layout::{
    centered_extents, centered_rect, fits, main_areas, middle, Extent, Rect,
};
use wifi_menu::network::Network;
use wifi_menu::render::{
    overlay, project, push_repeated, row, signal_band, status, ui, Overlay, Row, Status,
    StatusKind, MAX_SSID_DISPLAY_LEN,
};
use wifi_menu::session::{App, Event, Key};

const HELP: &str = " IF:wlan0 | i: Switch IF | r: Rescan | Enter: Connect | q: Quit ";
const LONG: &str = "An Extraordinarily Long Network Name";

fn net(ssid: &str, security: &str, signal: u8, in_use: bool) -> Network {
    Network {
        ssid: ssid.to_string(),
        bssid: String::new(),
        security: security.to_string(),
        signal,
        in_use,
    }
}

fn browsing(raw: &str) -> App {
    let mut app = App::new(vec!["wlan0".to_string()], "wlan0".to_string());
    app.step(Event::Scanned(Ok(raw.to_string())));
    app
}

fn area(x: u16, y: u16, width: u16, height: u16) -> Rect {
    Rect { x, y, width, height }
}

#[test]
fn signal_bands_have_their_bounds() {
    assert_eq!(signal_band(0), 0);
    assert_eq!(signal_band(20), 0);
    assert_eq!(signal_band(21), 1);
    assert_eq!(signal_band(40), 1);
    assert_eq!(signal_band(41), 2);
    assert_eq!(signal_band(60), 2);
    assert_eq!(signal_band(61), 3);
    assert_eq!(signal_band(80), 3);
    assert_eq!(signal_band(81), 4);
    assert_eq!(signal_band(100), 4);
    assert_eq!(signal_band(255), 4);
}

#[test]
fn short_name_is_padded_on_the_left() {
    let r = row(&net("Home", "WPA2", 77, true));
    assert_eq!(
        r,
        Row {
            active: true,
            band: 3,
            text: "                     Home  77%".to_string(),
            locked: true,
        }
    );
    assert_eq!(r.text, format!("{:>25} {:>3}%", "Home", 77));
    let r = row(&net("", "", 0, false));
    assert_eq!(r.text, format!("{:>25} {:>3}%", "", 0));
}

#[test]
fn name_of_full_width_is_kept() {
    let name = "abcdefghijklmnopqrstuvwxy";
    assert_eq!(name.chars().count(), MAX_SSID_DISPLAY_LEN);
    let r = row(&net(name, "", 5, false));
    assert_eq!(r.text, "abcdefghijklmnopqrstuvwxy   5%");
    assert!(!r.locked);
    assert!(!r.active);
    assert_eq!(r.band, 0);
}

#[test]
fn long_name_is_cut_with_dots() {
    let name = "abcdefghijklmnopqrstuvwxyz";
    let r = row(&net(name, "WEP", 100, false));
    assert_eq!(r.text, "abcdefghijklmnopqrstuv... 100%");
    assert_eq!(r.band, 4);
    let r = row(&net(LONG, "", 9, false));
    assert_eq!(r.text, "An Extraordinarily Lon...   9%");
}

#[test]
fn every_row_has_the_same_width() {
    for name in ["", "a", "Home", LONG, "\u{e9}\u{e9}\u{e9}", "\u{1F600} party \u{1F600} network \u{1F600} all night"] {
        for signal in [0u8, 9, 10, 99, 100, 255] {
            let r = row(&net(name, "", signal, false));
            assert_eq!(r.text.chars().count(), MAX_SSID_DISPLAY_LEN + 5, "name {:?}", name);
        }
    }
}

#[test]
fn repeated_characters_are_added() {
    let mut s = "ab".to_string();
    push_repeated(&mut s, '*', 3);
    assert_eq!(s, "ab***");
    push_repeated(&mut s, ' ', 0);
    assert_eq!(s, "ab***");
}

#[test]
fn status_of_each_mode() {
    let mut app = App::new(vec!["wlan0".to_string()], "wlan0".to_string());
    assert_eq!(status(&app), Status { kind: StatusKind::Help, text: HELP.to_string() });
    app.step(Event::Scanned(Ok("*:Home:AA:WPA2:80\n :Lab:CC:WPA2:40".to_string())));
    assert_eq!(status(&app), Status { kind: StatusKind::Help, text: HELP.to_string() });
    app.step(Event::Key(Key::Char('r')));
    assert_eq!(status(&app), Status { kind: StatusKind::Busy, text: "Scanning...".to_string() });
    app.step(Event::Scanned(Ok("*:Home:AA:WPA2:80\n :Lab:CC:WPA2:40".to_string())));
    app.step(Event::Key(Key::Enter));
    assert_eq!(
        status(&app),
        Status { kind: StatusKind::Help, text: " Select Action ".to_string() }
    );
    app.step(Event::Key(Key::Esc));
    app.step(Event::Key(Key::Down));
    app.step(Event::Key(Key::Enter));
    assert_eq!(
        status(&app),
        Status { kind: StatusKind::Busy, text: "Connecting to Lab...".to_string() }
    );
    app.step(Event::Connected(Err("no".to_string())));
    assert_eq!(
        status(&app),
        Status {
            kind: StatusKind::Help,
            text: " Enter Password | Tab: Show/Hide | Esc: Cancel ".to_string(),
        }
    );
    app.step(Event::Key(Key::Enter));
    app.step(Event::Connected(Err("bad".to_string())));
    assert_eq!(
        status(&app),
        Status { kind: StatusKind::Notice, text: "Error: bad (Press Any Key)".to_string() }
    );
}

#[test]
fn status_names_a_long_selected_ssid_in_full() {
    let raw = format!(" :{}:::50\n :Short:::40", LONG);
    let mut app = browsing(&raw);
    assert_eq!(app.selected(), Some(0));
    assert_eq!(
        status(&app).text,
        format!(
            " IF:wlan0 | Full SSID: {} | i: Switch IF | r: Rescan | Enter: Connect | q: Quit ",
            LONG
        )
    );
    app.step(Event::Key(Key::Down));
    assert_eq!(status(&app).text, HELP);
}

#[test]
fn no_overlay_while_browsing() {
    let app = browsing("*:Home:AA:WPA2:80");
    assert_eq!(overlay(&app), Overlay::Absent);
}

#[test]
fn password_overlay_masks_each_character() {
    let mut app = browsing(" :Lab:CC:WPA2:40");
    app.step(Event::Key(Key::Enter));
    app.step(Event::Connected(Err("no".to_string())));
    for c in "p\u{e4}ss".chars() {
        app.step(Event::Key(Key::Char(c)));
    }
    assert_eq!(
        overlay(&app),
        Overlay::Password {
            title: " Connect to Lab ".to_string(),
            body: "Password: ****\n\n(Tab to Show/Hide, Enter to Connect)".to_string(),
        }
    );
    app.step(Event::Key(Key::Tab));
    assert_eq!(
        overlay(&app),
        Overlay::Password {
            title: " Connect to Lab ".to_string(),
            body: "Password: p\u{e4}ss\n\n(Tab to Show/Hide, Enter to Connect)".to_string(),
        }
    );
}

#[test]
fn action_overlay_lists_the_three_actions() {
    let mut app = browsing("*:Home:AA:WPA2:80");
    app.step(Event::Key(Key::Enter));
    assert_eq!(
        overlay(&app),
        Overlay::Actions {
            title: " Home ".to_string(),
            items: vec!["Disconnect".to_string(), "Forget".to_string(), "Cancel".to_string()],
            selected: Some(0),
        }
    );
    app.step(Event::Key(Key::Up));
    match overlay(&app) {
        Overlay::Actions { selected, .. } => assert_eq!(selected, Some(2)),
        other => panic!("unexpected overlay {:?}", other),
    }
}

#[test]
fn frame_has_a_row_for_each_network() {
    let mut app = browsing("*:Home:AA:WPA2:80\n :Cafe:BB::60\n :Lab:CC:WPA2:40");
    app.step(Event::Key(Key::Down));
    let frame = project(&app);
    assert_eq!(frame.title, " Wi-Fi Networks (wlan0) ");
    assert_eq!(frame.selected, Some(1));
    assert_eq!(
        frame.rows,
        vec![
            Row {
                active: true,
                band: 3,
                text: format!("{:>25} {:>3}%", "Home", 80),
                locked: true,
            },
            Row {
                active: false,
                band: 2,
                text: format!("{:>25} {:>3}%", "Cafe", 60),
                locked: false,
            },
            Row {
                active: false,
                band: 1,
                text: format!("{:>25} {:>3}%", "Lab", 40),
                locked: true,
            },
        ]
    );
    assert_eq!(frame.status, Status { kind: StatusKind::Help, text: HELP.to_string() });
    assert_eq!(frame.overlay, Overlay::Absent);
}

#[test]
fn frame_is_the_same_for_the_same_state() {
    let app = browsing("*:Home:AA:WPA2:80\n :Cafe:BB::60");
    assert_eq!(project(&app), project(&app));
    assert_eq!(ui(&app, area(0, 0, 80, 24)), ui(&app, area(0, 0, 80, 24)));
}

#[test]
fn centered_extents_have_equal_margins() {
    assert_eq!(
        centered_extents(60),
        vec![Extent::Percentage(20), Extent::Percentage(60), Extent::Percentage(20)]
    );
    assert_eq!(
        centered_extents(25),
        vec![Extent::Percentage(37), Extent::Percentage(25), Extent::Percentage(37)]
    );
    assert_eq!(
        centered_extents(100),
        vec![Extent::Percentage(0), Extent::Percentage(100), Extent::Percentage(0)]
    );
    assert_eq!(
        centered_extents(0),
        vec![Extent::Percentage(50), Extent::Percentage(0), Extent::Percentage(50)]
    );
}

#[test]
fn middle_is_the_second_part() {
    let parts = vec![area(0, 0, 1, 1), area(1, 2, 3, 4), area(5, 5, 5, 5)];
    assert_eq!(middle(&parts), area(1, 2, 3, 4));
}

#[test]
fn main_areas_leave_one_row_for_the_status_line() {
    let (list, status_line) = main_areas(area(0, 0, 80, 24));
    assert_eq!(list, area(0, 0, 80, 23));
    assert_eq!(status_line, area(0, 23, 80, 1));
    let (list, status_line) = main_areas(area(3, 2, 40, 10));
    assert_eq!(list, area(3, 2, 40, 9));
    assert_eq!(status_line, area(3, 11, 40, 1));
}

#[test]
fn centered_rect_is_in_the_middle() {
    assert_eq!(centered_rect(60, 20, area(0, 0, 100, 50)), area(20, 20, 60, 10));
    assert_eq!(centered_rect(50, 50, area(0, 0, 200, 100)), area(50, 25, 100, 50));
    assert_eq!(centered_rect(100, 100, area(0, 0, 80, 24)), area(0, 0, 80, 24));
}

#[test]
fn ui_places_the_parts() {
    let mut app = browsing("*:Home:AA:WPA2:80");
    let whole = area(0, 0, 100, 50);
    let screen = ui(&app, whole);
    assert_eq!(screen.frame, project(&app));
    assert_eq!(screen.list_area, area(0, 0, 100, 49));
    assert_eq!(screen.status_area, area(0, 49, 100, 1));
    assert_eq!(screen.overlay_area, None);
    app.step(Event::Key(Key::Enter));
    let screen = ui(&app, whole);
    assert_eq!(screen.overlay_area, Some(centered_rect(40, 25, whole)));
    assert!(screen.overlay_area.unwrap().width > 0);
    app.step(Event::Key(Key::Esc));
    app.step(Event::Scanned(Ok(String::new())));
    let mut app = browsing(" :Lab:CC:WPA2:40");
    app.step(Event::Key(Key::Enter));
    app.step(Event::Connected(Err("no".to_string())));
    let screen = ui(&app, whole);
    assert_eq!(screen.overlay_area, Some(area(20, 20, 60, 10)));
}

fn lies_inside(outer: Rect, part: Rect) -> bool {
    outer.x <= part.x
        && outer.y <= part.y
        && u32::from(part.x) + u32::from(part.width) <= u32::from(outer.x) + u32::from(outer.width)
        && u32::from(part.y) + u32::from(part.height)
            <= u32::from(outer.y) + u32::from(outer.height)
}

#[test]
fn centered_rect_lies_inside_its_area() {
    let sizes = [0u16, 1, 2, 3, 7, 24, 80, 1000];
    let corners = [(0u16, 0u16), (3, 2), (65000, 65000), (65535, 65535)];
    let percents = [0u16, 20, 25, 60, 100];
    for &(x, y) in &corners {
        for &width in &sizes {
            for &height in &sizes {
                for &px in &percents {
                    for &py in &percents {
                        let outer = area(x, y, width, height);
                        let panel = centered_rect(px, py, outer);
                        assert!(
                            lies_inside(outer, panel),
                            "{:?} in {:?} at {} by {}",
                            panel,
                            outer,
                            px,
                            py
                        );
                    }
                }
            }
        }
    }
}

#[test]
fn main_areas_lie_inside_and_reach_across() {
    for &(x, y) in &[(0u16, 0u16), (3, 2), (65000, 65000), (65535, 65535)] {
        for width in [0u16, 1, 2, 10, 80, 500, 1000] {
            for height in [0u16, 1, 2, 3, 10, 24, 500, 1000] {
                let outer = area(x, y, width, height);
                let (list, status_line) = main_areas(outer);
                for part in [list, status_line] {
                    assert!(lies_inside(outer, part), "{:?} in {:?}", part, outer);
                    assert_eq!(part.x, outer.x);
                    assert_eq!(part.width, outer.width);
                }
            }
        }
    }
}

#[test]
fn ui_keeps_every_part_inside() {
    let mut app = browsing("*:Home:AA:WPA2:80");
    app.step(Event::Key(Key::Enter));
    for whole in [area(0, 0, 80, 24), area(0, 0, 1, 1), area(0, 0, 0, 0), area(5, 5, 30, 3)] {
        let screen = ui(&app, whole);
        assert!(lies_inside(whole, screen.list_area));
        assert!(lies_inside(whole, screen.status_area));
        assert!(lies_inside(whole, screen.overlay_area.unwrap()));
    }
}

fn ratatui_parts(direction: Direction, constraints: Vec<Constraint>, outer: Rect) -> Vec<Rect> {
    let whole = ratatui::layout::Rect {
        x: outer.x,
        y: outer.y,
        width: outer.width,
        height: outer.height,
    };
    Layout::new(direction, constraints)
        .split(whole)
        .iter()
        .map(|r| area(r.x, r.y, r.width, r.height))
        .collect()
}

fn ratatui_centered(percent_x: u16, percent_y: u16, outer: Rect) -> Rect {
    let margins = |p: u16| {
        vec![
            Constraint::Percentage((100 - p) / 2),
            Constraint::Percentage(p),
            Constraint::Percentage((100 - p) / 2),
        ]
    };
    let band = ratatui_parts(Direction::Vertical, margins(percent_y), outer)[1];
    ratatui_parts(Direction::Horizontal, margins(percent_x), band)[1]
}

fn is_share(percent: u16, size: u16, got: u16) -> bool {
    let whole = i64::from(percent) * i64::from(size);
    let cells = 100 * i64::from(got);
    whole - 100 <= cells && cells <= whole + 100
}

#[test]
fn fits_tells_whether_the_far_edges_are_coordinates() {
    assert!(fits(area(0, 0, 80, 24)));
    assert!(fits(area(65535, 65535, 0, 0)));
    assert!(fits(area(65000, 0, 535, 65535)));
    assert!(!fits(area(65000, 0, 536, 10)));
    assert!(!fits(area(0, 65535, 10, 1)));
}

#[test]
fn main_areas_are_the_last_row_and_the_rest() {
    for &(x, y) in &[(0u16, 0u16), (3, 2), (60000, 60000)] {
        for width in [0u16, 1, 2, 10, 80, 500] {
            for height in [0u16, 1, 2, 3, 10, 24, 500] {
                let outer = area(x, y, width, height);
                let (list, status_line) = main_areas(outer);
                let bar = height.min(1);
                assert_eq!(list, area(x, y, width, height - bar));
                assert_eq!(status_line, area(x, y + height - bar, width, bar));
            }
        }
    }
}

#[test]
fn main_areas_are_what_ratatui_gives() {
    for &(x, y) in &[(0u16, 0u16), (3, 2), (60000, 60000), (65000, 65000)] {
        for width in [0u16, 1, 2, 10, 80, 500, 1000] {
            for height in [0u16, 1, 2, 3, 10, 24, 500, 1000] {
                let outer = area(x, y, width, height);
                let given = ratatui_parts(
                    Direction::Vertical,
                    vec![Constraint::Min(0), Constraint::Length(1)],
                    outer,
                );
                assert_eq!(main_areas(outer), (given[0], given[1]), "in {:?}", outer);
            }
        }
    }
}

#[test]
fn centered_rect_takes_its_share_in_the_middle() {
    let sizes = [0u16, 1, 2, 3, 7, 24, 80, 1000];
    let percents = [0u16, 20, 25, 33, 60, 100];
    for &(x, y) in &[(0u16, 0u16), (3, 2), (60000, 60000)] {
        for &width in &sizes {
            for &height in &sizes {
                for &px in &percents {
                    for &py in &percents {
                        let outer = area(x, y, width, height);
                        let panel = centered_rect(px, py, outer);
                        assert!(is_share(px, width, panel.width), "{:?} in {:?}", panel, outer);
                        assert!(is_share(py, height, panel.height), "{:?} in {:?}", panel, outer);
                        assert!(is_share((100 - px) / 2, width, panel.x - x));
                        assert!(is_share((100 - py) / 2, height, panel.y - y));
                    }
                }
            }
        }
    }
}

#[test]
fn centered_rect_is_what_ratatui_gives() {
    let sizes = [0u16, 1, 2, 3, 7, 24, 80, 1000];
    let percents = [0u16, 20, 25, 33, 60, 100];
    for &(x, y) in &[(0u16, 0u16), (3, 2), (65000, 65000)] {
        for &width in &sizes {
            for &height in &sizes {
                for &px in &percents {
                    for &py in &percents {
                        let outer = area(x, y, width, height);
                        assert_eq!(
                            centered_rect(px, py, outer),
                            ratatui_centered(px, py, outer),
                            "{} by {} in {:?}",
                            px,
                            py,
                            outer
                        );
                    }
                }
            }
        }
    }
}

#[test]
fn ui_centres_each_panel_with_its_share() {
    let whole = area(0, 0, 200, 100);
    let mut app = browsing("*:Home:AA:WPA2:80\n :Lab:CC:WPA2:40");
    app.step(Event::Key(Key::Enter));
    let screen = ui(&app, whole);
    assert_eq!(screen.overlay_area, Some(area(60, 37, 80, 25)));
    assert_eq!(screen.list_area, area(0, 0, 200, 99));
    assert_eq!(screen.status_area, area(0, 99, 200, 1));
    app.step(Event::Key(Key::Esc));
    app.step(Event::Key(Key::Down));
    app.step(Event::Key(Key::Enter));
    app.step(Event::Connected(Err("no".to_string())));
    let screen = ui(&app, whole);
    assert_eq!(screen.overlay_area, Some(area(40, 40, 120, 20)));
}
