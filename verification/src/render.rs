//! What is on the screen, as a description: the lines of the list, the status
//! line and the panel over them. The description holds no glyph and no
//! colour: it names the signal band, the marks and the kind of the status
//! line, and whoever draws picks the signs for them.

use crate::layout::{
    centered_rect, centred, in_range, inside, list_part, main_areas, spans, status_part, Axis, Rect,
};
use crate::network::{views, Network, NetworkView};
use crate::session::{Action, App, AppMode, AppView, ModeView};
use crate::text::{chars_of, joined, joined3, push_three_wide, strings, text_between, three_wide};
use vstd::prelude::*;
use vstd::string::StringExecFns;

verus! {

/// The width of the column of names in the list, in characters.
pub const MAX_SSID_DISPLAY_LEN: usize = 25;

/// `n` times the character `c`.
pub open spec fn repeated(c: char, n: nat) -> Seq<char> {
    Seq::new(n, |i: int| c)
}

/// Adds `n` times the character `c` to `s`.
pub fn push_repeated(s: &mut String, c: char, n: usize)
    ensures
        final(s)@ == old(s)@ + repeated(c, n as nat),
{
    let mut i: usize = 0;
    while i < n
        invariant
            i <= n,
            s@ == old(s)@ + repeated(c, i as nat),
        decreases n - i,
    {
        s.push(c);
        i += 1;
    }
}

/// The name of a network as the list shows it, always
/// [`MAX_SSID_DISPLAY_LEN`] characters: a longer name is cut to three
/// characters less and ends with three dots, any other is padded on the left
/// with blanks.
pub open spec fn display_name(ssid: Seq<char>) -> Seq<char> {
    if ssid.len() > MAX_SSID_DISPLAY_LEN {
        ssid.take(MAX_SSID_DISPLAY_LEN - 3) + "..."@
    } else {
        repeated(' ', (MAX_SSID_DISPLAY_LEN - ssid.len()) as nat) + ssid
    }
}

/// The band of a signal, from 0 for the weakest to 4: up to 20, 40, 60 and 80
/// percent, and above.
pub open spec fn band_of(signal: u8) -> u8 {
    if signal <= 20 {
        0
    } else if signal <= 40 {
        1
    } else if signal <= 60 {
        2
    } else if signal <= 80 {
        3
    } else {
        4
    }
}

/// The band of a signal, as [`band_of`] says.
pub fn signal_band(signal: u8) -> (band: u8)
    ensures
        band == band_of(signal),
        band <= 4,
{
    if signal <= 20 {
        0
    } else if signal <= 40 {
        1
    } else if signal <= 60 {
        2
    } else if signal <= 80 {
        3
    } else {
        4
    }
}

/// One line of the list.
#[derive(Debug, PartialEq, Eq)]
pub struct Row {
    /// Whether the line bears the mark of the network in use.
    pub active: bool,
    /// The band of the signal, which picks its icon.
    pub band: u8,
    /// The name, a blank, and the signal in percent.
    pub text: String,
    /// Whether the line bears the lock of a secured network.
    pub locked: bool,
}

/// A [`Row`] as plain values.
#[verifier::ext_equal]
pub struct RowView {
    pub active: bool,
    pub band: u8,
    pub text: Seq<char>,
    pub locked: bool,
}

impl View for Row {
    type V = RowView;

    open spec fn view(&self) -> RowView {
        RowView { active: self.active, band: self.band, text: self.text@, locked: self.locked }
    }
}

/// The rows held by a vector of rows.
pub open spec fn row_views(v: Seq<Row>) -> Seq<RowView> {
    Seq::new(v.len(), |i: int| v[i]@)
}

/// The line of the list for the network `n`: the mark where it is in use, the
/// band of its signal, its [`display_name`], a blank, the signal three
/// characters wide and a percent sign, and the lock where its security
/// descriptor is not empty.
pub open spec fn row_of(n: NetworkView) -> RowView {
    RowView {
        active: n.in_use,
        band: band_of(n.signal),
        text: display_name(n.ssid) + seq![' '] + three_wide(n.signal) + seq!['%'],
        locked: n.security.len() > 0,
    }
}

/// The line of the list for `n`, as [`row_of`] says.
pub fn row(n: &Network) -> (r: Row)
    ensures
        r@ == row_of(n@),
{
    let name = chars_of(n.ssid.as_str());
    let mut text: String;
    if name.len() > MAX_SSID_DISPLAY_LEN {
        text = text_between(&name, 0, MAX_SSID_DISPLAY_LEN - 3);
        text.append("...");
    } else {
        text = String::new();
        push_repeated(&mut text, ' ', MAX_SSID_DISPLAY_LEN - name.len());
        text.append(n.ssid.as_str());
    }
    text.push(' ');
    push_three_wide(&mut text, n.signal);
    text.push('%');
    Row {
        active: n.in_use,
        band: signal_band(n.signal),
        text,
        locked: !n.security.as_str().is_empty(),
    }
}

/// What a status line is for, which picks its colours and its sign.
#[derive(Clone, Copy, Debug, PartialEq, Eq)]
pub enum StatusKind {
    /// Help for the keys.
    Help,
    /// An action is running.
    Busy,
    /// A message waits to be closed.
    Notice,
}

/// The line at the bottom of the screen.
#[derive(Debug, PartialEq, Eq)]
pub struct Status {
    pub kind: StatusKind,
    pub text: String,
}

/// A [`Status`] as plain values.
#[verifier::ext_equal]
pub struct StatusView {
    pub kind: StatusKind,
    pub text: Seq<char>,
}

impl View for Status {
    type V = StatusView;

    open spec fn view(&self) -> StatusView {
        StatusView { kind: self.kind, text: self.text@ }
    }
}

/// The help for browsing on the adapter `interface`.
pub open spec fn help_text(interface: Seq<char>) -> Seq<char> {
    " IF:"@ + interface + " | i: Switch IF | r: Rescan | Enter: Connect | q: Quit "@
}

/// The help for browsing on `interface` with the whole of the name `ssid` in
/// it.
pub open spec fn help_text_naming(interface: Seq<char>, ssid: Seq<char>) -> Seq<char> {
    " IF:"@ + interface + " | Full SSID: "@ + ssid
        + " | i: Switch IF | r: Rescan | Enter: Connect | q: Quit "@
}

/// The status line of a state. A running action shows its label, a message
/// its text and how to close it, the two panels their own help. Browsing
/// shows the help for its keys with the adapter in use, and with the whole
/// name of the selected network where the list had to cut it.
pub open spec fn status_of(s: AppView) -> StatusView {
    match s.mode {
        ModeView::Processing(label) => StatusView { kind: StatusKind::Busy, text: label },
        ModeView::Message(text) => StatusView {
            kind: StatusKind::Notice,
            text: text + " (Press Any Key)"@,
        },
        ModeView::PasswordInput => StatusView {
            kind: StatusKind::Help,
            text: " Enter Password | Tab: Show/Hide | Esc: Cancel "@,
        },
        ModeView::ActionMenu => StatusView { kind: StatusKind::Help, text: " Select Action "@ },
        ModeView::Browsing => StatusView {
            kind: StatusKind::Help,
            text: match s.selected {
                Some(i) => if s.networks[i as int].ssid.len() > MAX_SSID_DISPLAY_LEN {
                    help_text_naming(s.current_interface, s.networks[i as int].ssid)
                } else {
                    help_text(s.current_interface)
                },
                None => help_text(s.current_interface),
            },
        },
        ModeView::Scanning => StatusView {
            kind: StatusKind::Help,
            text: help_text(s.current_interface),
        },
    }
}

/// The help for browsing on the adapter `interface`, as [`help_text`] says.
fn help(interface: &str) -> (text: String)
    ensures
        text@ == help_text(interface@),
{
    joined3(" IF:", interface, " | i: Switch IF | r: Rescan | Enter: Connect | q: Quit ")
}

/// The status line of `app`, as [`status_of`] says.
pub fn status(app: &App) -> (line: Status)
    requires
        app.wf(),
    ensures
        line@ == status_of(app@),
{
    match app.mode() {
        AppMode::Processing(label) => Status { kind: StatusKind::Busy, text: label.clone() },
        AppMode::Message(text) => Status {
            kind: StatusKind::Notice,
            text: joined(text.as_str(), " (Press Any Key)"),
        },
        AppMode::PasswordInput => Status {
            kind: StatusKind::Help,
            text: " Enter Password | Tab: Show/Hide | Esc: Cancel ".to_owned(),
        },
        AppMode::ActionMenu => Status { kind: StatusKind::Help, text: " Select Action ".to_owned() },
        AppMode::Browsing => {
            let text = match app.selected() {
                Some(i) => {
                    let networks = app.networks();
                    let name = &networks[i].ssid;
                    if chars_of(name.as_str()).len() > MAX_SSID_DISPLAY_LEN {
                        let mut text = joined3(" IF:", app.current_interface(), " | Full SSID: ");
                        text.append(name.as_str());
                        text.append(" | i: Switch IF | r: Rescan | Enter: Connect | q: Quit ");
                        text
                    } else {
                        help(app.current_interface())
                    }
                },
                None => help(app.current_interface()),
            };
            Status { kind: StatusKind::Help, text }
        },
        AppMode::Scanning => Status {
            kind: StatusKind::Help,
            text: help(app.current_interface()),
        },
    }
}

/// The panel over the list.
#[derive(Debug, PartialEq, Eq)]
pub enum Overlay {
    /// No panel.
    Absent,
    /// The panel in which a password is typed.
    Password { title: String, body: String },
    /// The action menu.
    Actions { title: String, items: Vec<String>, selected: Option<usize> },
}

/// An [`Overlay`] as plain values.
#[verifier::ext_equal]
pub enum OverlayView {
    Absent,
    Password { title: Seq<char>, body: Seq<char> },
    Actions { title: Seq<char>, items: Seq<Seq<char>>, selected: Option<usize> },
}

impl View for Overlay {
    type V = OverlayView;

    open spec fn view(&self) -> OverlayView {
        match self {
            Overlay::Absent => OverlayView::Absent,
            Overlay::Password { title, body } => OverlayView::Password {
                title: title@,
                body: body@,
            },
            Overlay::Actions { title, items, selected } => OverlayView::Actions {
                title: title@,
                items: strings(items@),
                selected: *selected,
            },
        }
    }
}

/// The label of an entry of the action menu.
pub open spec fn label_of(action: Action) -> Seq<char> {
    match action {
        Action::Disconnect => "Disconnect"@,
        Action::Forget => "Forget"@,
        Action::Cancel => "Cancel"@,
    }
}

/// The labels of the action menu, from top to bottom.
pub open spec fn action_labels() -> Seq<Seq<char>> {
    seq![label_of(Action::Disconnect), label_of(Action::Forget), label_of(Action::Cancel)]
}

/// The password as the panel shows it: as typed where it is to be shown,
/// else one asterisk for each character.
pub open spec fn shown_password(s: AppView) -> Seq<char> {
    if s.show_password {
        s.input_buffer
    } else {
        repeated('*', s.input_buffer.len())
    }
}

/// The panel of a state. While a password is typed it names the target in
/// its title and shows the password and the keys; in the action menu it
/// names the target and lists the actions, with the selected one; in every
/// other mode there is none.
pub open spec fn overlay_of(s: AppView) -> OverlayView {
    match s.mode {
        ModeView::PasswordInput => OverlayView::Password {
            title: " Connect to "@ + s.target_ssid + " "@,
            body: "Password: "@ + shown_password(s) + "\n\n(Tab to Show/Hide, Enter to Connect)"@,
        },
        ModeView::ActionMenu => OverlayView::Actions {
            title: " "@ + s.target_ssid + " "@,
            items: action_labels(),
            selected: s.action_selected,
        },
        _ => OverlayView::Absent,
    }
}

/// The panel of `app`, as [`overlay_of`] says.
pub fn overlay(app: &App) -> (panel: Overlay)
    ensures
        panel@ == overlay_of(app@),
{
    match app.mode() {
        AppMode::PasswordInput => {
            let mut body = "Password: ".to_owned();
            if app.show_password() {
                body.append(app.input_buffer());
            } else {
                let typed = chars_of(app.input_buffer());
                push_repeated(&mut body, '*', typed.len());
            }
            body.append("\n\n(Tab to Show/Hide, Enter to Connect)");
            Overlay::Password { title: joined3(" Connect to ", app.target_ssid(), " "), body }
        },
        AppMode::ActionMenu => {
            let mut items: Vec<String> = Vec::new();
            items.push("Disconnect".to_owned());
            items.push("Forget".to_owned());
            items.push("Cancel".to_owned());
            Overlay::Actions {
                title: joined3(" ", app.target_ssid(), " "),
                items,
                selected: app.action_selected(),
            }
        },
        _ => Overlay::Absent,
    }
}

/// What is on the screen.
#[derive(Debug, PartialEq, Eq)]
pub struct Frame {
    /// The title of the list.
    pub title: String,
    /// The lines of the list, one for each network.
    pub rows: Vec<Row>,
    /// The place of the highlighted line.
    pub selected: Option<usize>,
    /// The line at the bottom.
    pub status: Status,
    /// The panel over the list.
    pub overlay: Overlay,
}

/// A [`Frame`] as plain values.
#[verifier::ext_equal]
pub struct FrameView {
    pub title: Seq<char>,
    pub rows: Seq<RowView>,
    pub selected: Option<usize>,
    pub status: StatusView,
    pub overlay: OverlayView,
}

impl View for Frame {
    type V = FrameView;

    open spec fn view(&self) -> FrameView {
        FrameView {
            title: self.title@,
            rows: row_views(self.rows@),
            selected: self.selected,
            status: self.status@,
            overlay: self.overlay@,
        }
    }
}

/// What is on the screen in the state `s`: the list under a title that names
/// the adapter in use, with one line for each network in the order of the
/// list and the selected one highlighted, the status line, and the panel.
pub open spec fn frame_of(s: AppView) -> FrameView {
    FrameView {
        title: " Wi-Fi Networks ("@ + s.current_interface + ") "@,
        rows: Seq::new(s.networks.len(), |i: int| row_of(s.networks[i])),
        selected: s.selected,
        status: status_of(s),
        overlay: overlay_of(s),
    }
}

/// Describes the screen for `app`, as [`frame_of`] says. The description is
/// a function of the state alone.
pub fn project(app: &App) -> (frame: Frame)
    requires
        app.wf(),
    ensures
        frame@ == frame_of(app@),
{
    let networks = app.networks();
    let mut rows: Vec<Row> = Vec::new();
    let mut i: usize = 0;
    while i < networks.len()
        invariant
            i <= networks@.len(),
            row_views(rows@) == Seq::new(i as nat, |k: int| row_of(views(networks@)[k])),
        decreases networks@.len() - i,
    {
        let r = row(&networks[i]);
        assert(row_views(rows@.push(r)) == row_views(rows@).push(r@));
        rows.push(r);
        i += 1;
    }
    Frame {
        title: joined3(" Wi-Fi Networks (", app.current_interface(), ") "),
        rows,
        selected: app.selected(),
        status: status(app),
        overlay: overlay(app),
    }
}

/// A frame and where its parts go.
#[derive(Debug, PartialEq, Eq)]
pub struct Screen {
    /// What is shown.
    pub frame: Frame,
    /// The area of the list.
    pub list_area: Rect,
    /// The area of the status line.
    pub status_area: Rect,
    /// The area of the panel, where there is one.
    pub overlay_area: Option<Rect>,
}

/// The share of the screen that a panel takes, in hundredths of its width
/// and of its height: 60 by 20 for the password, 40 by 25 for the action
/// menu.
pub open spec fn panel_share(panel: OverlayView) -> Option<(u16, u16)> {
    match panel {
        OverlayView::Absent => None,
        OverlayView::Password { .. } => Some((60, 20)),
        OverlayView::Actions { .. } => Some((40, 25)),
    }
}

/// Lays out the screen for `app` on `area`. The frame is the one that
/// [`frame_of`] gives. Every part lies inside `area`. The status line is the
/// last row of `area` and the list is all above it; a panel has an area,
/// centred in `area` and of the [`panel_share`] of it, and no panel has
/// none. The positions hold for an `area` that is [`in_range`]; in any other
/// they are what ratatui makes of these.
pub fn ui(app: &App, area: Rect) -> (screen: Screen)
    requires
        app.wf(),
    ensures
        screen.frame@ == frame_of(app@),
        spans(Axis::Vertical, area, screen.list_area),
        spans(Axis::Vertical, area, screen.status_area),
        inside(area, screen.list_area),
        inside(area, screen.status_area),
        in_range(area) ==> screen.list_area == list_part(area) && screen.status_area
            == status_part(area),
        match panel_share(overlay_of(app@)) {
            None => screen.overlay_area is None,
            Some(share) => screen.overlay_area matches Some(panel) && inside(area, panel) && (
            in_range(area) ==> centred(share.0, share.1, area, panel)),
        },
{
    let frame = project(app);
    let (list_area, status_area) = main_areas(area);
    let overlay_area = match frame.overlay {
        Overlay::Absent => None,
        Overlay::Password { .. } => Some(centered_rect(60, 20, area)),
        Overlay::Actions { .. } => Some(centered_rect(40, 25, area)),
    };
    Screen { frame, list_area, status_area, overlay_area }
}

} // verus!
