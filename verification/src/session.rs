//! The interactive session: one state, and one transition for each key press
//! and for each action that comes back.
//!
//! The session never acts by itself. A transition may hand out a
//! [`Command`]; whoever runs the session carries it out and hands back the
//! [`Event`] that tells how it went. While a command is out, key presses are
//! ignored, and an event that no command asked for changes nothing.

use crate::interface::{cycle, next_interface};
use crate::network::{
    get_networks, is_normalized, lemma_scan_result, scan_result, signals_in_range, views, Network,
    NetworkView,
};
use crate::text::{joined, joined3, strings, told};
use vstd::prelude::*;

verus! {

/// A key press, as far as the session tells keys apart.
#[derive(Clone, Copy, Debug, PartialEq, Eq)]
pub enum Key {
    Char(char),
    Enter,
    Esc,
    Tab,
    Backspace,
    Up,
    Down,
    Other,
}

/// An entry of the action menu.
#[derive(Clone, Copy, Debug, PartialEq, Eq)]
pub enum Action {
    Disconnect,
    Forget,
    Cancel,
}

/// The number of entries of the action menu.
pub const ACTION_COUNT: usize = 3;

/// What the session waits for.
#[derive(Clone, Copy, Debug, PartialEq, Eq)]
pub enum Pending {
    /// Nothing: the next key press counts.
    Idle,
    /// The networks of the active adapter.
    Listing,
    /// The outcome of a connect with saved credentials.
    SavedConnect,
    /// The outcome of a connect with the password that was typed.
    PasswordConnect,
    /// The end of a disconnect.
    Disconnecting,
    /// The end of a forget.
    Forgetting,
}

/// What the screen is for at the moment.
#[derive(Debug, PartialEq, Eq)]
pub enum AppMode {
    /// Before the first scan has come back.
    Scanning,
    /// Going through the list.
    Browsing,
    /// Typing a password.
    PasswordInput,
    /// Choosing from the action menu of the network in use.
    ActionMenu,
    /// Waiting for an action, with the label to show.
    Processing(String),
    /// Showing a message until a key is pressed.
    Message(String),
}

/// An [`AppMode`] as plain values.
#[verifier::ext_equal]
pub enum ModeView {
    Scanning,
    Browsing,
    PasswordInput,
    ActionMenu,
    Processing(Seq<char>),
    Message(Seq<char>),
}

impl View for AppMode {
    type V = ModeView;

    open spec fn view(&self) -> ModeView {
        match self {
            AppMode::Scanning => ModeView::Scanning,
            AppMode::Browsing => ModeView::Browsing,
            AppMode::PasswordInput => ModeView::PasswordInput,
            AppMode::ActionMenu => ModeView::ActionMenu,
            AppMode::Processing(label) => ModeView::Processing(label@),
            AppMode::Message(text) => ModeView::Message(text@),
        }
    }
}

/// What the session asks its runner to do.
#[derive(Debug, PartialEq, Eq)]
pub enum Command {
    /// End the session.
    Quit,
    /// List the networks of `interface`, after having it scan anew where
    /// `rescan` holds, and answer with [`Event::Scanned`].
    Scan { interface: String, rescan: bool },
    /// Connect, and answer with [`Event::Connected`].
    Connect { ssid: String, bssid: String, password: String, security: String, interface: String },
    /// Disconnect `interface`, and answer with [`Event::Done`].
    Disconnect { interface: String },
    /// Delete the saved connection `ssid`, and answer with [`Event::Done`].
    Forget { ssid: String },
}

/// A [`Command`] as plain values.
#[verifier::ext_equal]
pub enum CommandView {
    Quit,
    Scan { interface: Seq<char>, rescan: bool },
    Connect {
        ssid: Seq<char>,
        bssid: Seq<char>,
        password: Seq<char>,
        security: Seq<char>,
        interface: Seq<char>,
    },
    Disconnect { interface: Seq<char> },
    Forget { ssid: Seq<char> },
}

impl View for Command {
    type V = CommandView;

    open spec fn view(&self) -> CommandView {
        match self {
            Command::Quit => CommandView::Quit,
            Command::Scan { interface, rescan } => CommandView::Scan {
                interface: interface@,
                rescan: *rescan,
            },
            Command::Connect { ssid, bssid, password, security, interface } => CommandView::Connect {
                ssid: ssid@,
                bssid: bssid@,
                password: password@,
                security: security@,
                interface: interface@,
            },
            Command::Disconnect { interface } => CommandView::Disconnect { interface: interface@ },
            Command::Forget { ssid } => CommandView::Forget { ssid: ssid@ },
        }
    }
}

/// The command that a transition hands out, as plain values.
pub open spec fn issued(command: Option<Command>) -> Option<CommandView> {
    match command {
        Some(c) => Some(c@),
        None => None,
    }
}

/// What happens to the session.
#[derive(Debug, PartialEq, Eq)]
pub enum Event {
    /// A key was pressed.
    Key(Key),
    /// A scan came back: with the raw text of the listing, or with the
    /// message of its failure.
    Scanned(Result<String, String>),
    /// A connect came back, with its message.
    Connected(Result<String, String>),
    /// A disconnect or a forget came back; how it went does not count.
    Done,
}

/// An [`Event`] as plain values.
#[verifier::ext_equal]
pub enum EventView {
    Key(Key),
    Scanned(Result<Seq<char>, Seq<char>>),
    Connected(Result<Seq<char>, Seq<char>>),
    Done,
}

impl View for Event {
    type V = EventView;

    open spec fn view(&self) -> EventView {
        match self {
            Event::Key(k) => EventView::Key(*k),
            Event::Scanned(r) => EventView::Scanned(told(*r)),
            Event::Connected(r) => EventView::Connected(told(*r)),
            Event::Done => EventView::Done,
        }
    }
}

/// The state of a session.
#[derive(Debug)]
pub struct App {
    mode: AppMode,
    networks: Vec<Network>,
    selected: Option<usize>,
    input_buffer: String,
    show_password: bool,
    wifi_interfaces: Vec<String>,
    current_interface: String,
    action_selected: Option<usize>,
    target_ssid: String,
    target_bssid: String,
    target_security: String,
    pending: Pending,
}

/// The state of a session as plain values.
#[verifier::ext_equal]
pub struct AppView {
    /// What the screen is for.
    pub mode: ModeView,
    /// The networks of the last scan, normalised.
    pub networks: Seq<NetworkView>,
    /// The place of the selected network, if one is selected.
    pub selected: Option<usize>,
    /// The password typed so far.
    pub input_buffer: Seq<char>,
    /// Whether the password is shown as typed.
    pub show_password: bool,
    /// The known adapters.
    pub wifi_interfaces: Seq<Seq<char>>,
    /// The adapter in use.
    pub current_interface: Seq<char>,
    /// The place of the selected entry of the action menu.
    pub action_selected: Option<usize>,
    /// The network that the running connect or action is about, as it was
    /// when that began.
    pub target_ssid: Seq<char>,
    pub target_bssid: Seq<char>,
    pub target_security: Seq<char>,
    /// What the session waits for.
    pub pending: Pending,
}

/// Whether the session may wait for `pending` in the mode `mode`. Browsing
/// and typing wait for nothing; the start waits for the first listing; the
/// action menu waits for its action at most; a waiting screen waits for a
/// listing or a connect; a message waits for the listing that refreshes the
/// networks behind it at most.
pub open spec fn fits(mode: ModeView, pending: Pending) -> bool {
    match mode {
        ModeView::Scanning => pending == Pending::Listing,
        ModeView::Browsing => pending == Pending::Idle,
        ModeView::PasswordInput => pending == Pending::Idle,
        ModeView::ActionMenu => pending == Pending::Idle || pending == Pending::Disconnecting
            || pending == Pending::Forgetting,
        ModeView::Processing(_) => pending == Pending::Listing || pending == Pending::SavedConnect
            || pending == Pending::PasswordConnect,
        ModeView::Message(_) => pending == Pending::Idle || pending == Pending::Listing,
    }
}

/// Whether a state is well formed: the list is normalised and its signals
/// are percentages, what is selected is there, and the mode [`fits`] what
/// the session waits for.
pub open spec fn valid(s: AppView) -> bool {
    &&& is_normalized(s.networks)
    &&& signals_in_range(s.networks)
    &&& s.selected matches Some(i) ==> i < s.networks.len()
    &&& s.action_selected matches Some(i) ==> i < ACTION_COUNT
    &&& fits(s.mode, s.pending)
}

/// The state that a session starts in: nothing scanned yet, and waiting for
/// the first listing.
pub open spec fn initial(interfaces: Seq<Seq<char>>, current: Seq<char>) -> AppView {
    AppView {
        mode: ModeView::Scanning,
        networks: Seq::empty(),
        selected: None,
        input_buffer: Seq::empty(),
        show_password: false,
        wifi_interfaces: interfaces,
        current_interface: current,
        action_selected: None,
        target_ssid: Seq::empty(),
        target_bssid: Seq::empty(),
        target_security: Seq::empty(),
        pending: Pending::Listing,
    }
}

/// The place after `selected` in a list of `len` entries, going round: the
/// first after the last, the first where nothing is selected, none in an
/// empty list.
pub open spec fn next_index(selected: Option<usize>, len: nat) -> Option<usize> {
    if len == 0 {
        None
    } else {
        match selected {
            Some(i) => if i + 1 >= len {
                Some(0)
            } else {
                Some((i + 1) as usize)
            },
            None => Some(0),
        }
    }
}

/// The place before `selected` in a list of `len` entries, going round: the
/// last before the first, the first where nothing is selected, none in an
/// empty list.
pub open spec fn previous_index(selected: Option<usize>, len: nat) -> Option<usize> {
    if len == 0 {
        None
    } else {
        match selected {
            Some(i) => if i == 0 {
                Some((len - 1) as usize)
            } else {
                Some((i - 1) as usize)
            },
            None => Some(0),
        }
    }
}

/// What is selected in a list that has just been put in place: its first
/// entry, or nothing where it is empty.
pub open spec fn default_selection(len: nat) -> Option<usize> {
    if len == 0 {
        None
    } else {
        Some(0)
    }
}

/// The entry of the action menu at place `i`.
pub open spec fn action_at(i: usize) -> Action {
    if i == 0 {
        Action::Disconnect
    } else if i == 1 {
        Action::Forget
    } else {
        Action::Cancel
    }
}

/// The command that lists the networks of the adapter in use.
pub open spec fn listing(s: AppView, rescan: bool) -> CommandView {
    CommandView::Scan { interface: s.current_interface, rescan }
}

/// The state after a step to the next adapter: the adapter in use is the
/// next of the round and nothing is selected. Nothing changes where no
/// adapter is known.
pub open spec fn cycled_once(s: AppView) -> AppView {
    if s.wifi_interfaces.len() == 0 {
        s
    } else {
        AppView {
            current_interface: next_interface(s.wifi_interfaces, s.current_interface),
            selected: None,
            ..s
        }
    }
}

/// Confirm on the selected network. The network becomes the target; one in
/// use opens the action menu at its first entry, any other is connected to
/// with saved credentials. Nothing happens where nothing is selected.
pub open spec fn confirmed(s: AppView) -> (AppView, Option<CommandView>) {
    match s.selected {
        None => (s, None),
        Some(i) => {
            let n = s.networks[i as int];
            let t = AppView {
                target_ssid: n.ssid,
                target_bssid: n.bssid,
                target_security: n.security,
                ..s
            };
            if n.in_use {
                (AppView { mode: ModeView::ActionMenu, action_selected: Some(0), ..t }, None)
            } else {
                (
                    AppView {
                        mode: ModeView::Processing("Connecting to "@ + n.ssid + "..."@),
                        pending: Pending::SavedConnect,
                        ..t
                    },
                    Some(
                        CommandView::Connect {
                            ssid: n.ssid,
                            bssid: n.bssid,
                            password: Seq::empty(),
                            security: n.security,
                            interface: s.current_interface,
                        },
                    ),
                )
            }
        },
    }
}

/// A key press while browsing. `q` and Escape quit; Down and `j`, Up and `k`
/// move the selection, going round; `r` scans anew; `i` goes to the next
/// adapter and lists its networks; Enter confirms. Other keys do nothing.
pub open spec fn browsing(s: AppView, key: Key) -> (AppView, Option<CommandView>) {
    match key {
        Key::Char('q') | Key::Esc => (s, Some(CommandView::Quit)),
        Key::Down | Key::Char('j') => (
            AppView { selected: next_index(s.selected, s.networks.len()), ..s },
            None,
        ),
        Key::Up | Key::Char('k') => (
            AppView { selected: previous_index(s.selected, s.networks.len()), ..s },
            None,
        ),
        Key::Char('r') => (
            AppView {
                mode: ModeView::Processing("Scanning..."@),
                pending: Pending::Listing,
                ..s
            },
            Some(listing(s, true)),
        ),
        Key::Char('i') => {
            let t = cycled_once(s);
            (
                AppView {
                    mode: ModeView::Processing("Switching to "@ + t.current_interface + "..."@),
                    pending: Pending::Listing,
                    ..t
                },
                Some(listing(t, false)),
            )
        },
        Key::Enter => confirmed(s),
        _ => (s, None),
    }
}

/// A key press while a password is typed. Escape gives up and empties the
/// buffer; Tab shows or hides the password; Enter hands the buffer to a
/// connect to the target and empties it; Backspace takes the last character
/// away, if there is one; any character is added at the end. Other keys do
/// nothing.
pub open spec fn typing(s: AppView, key: Key) -> (AppView, Option<CommandView>) {
    match key {
        Key::Esc => (AppView { mode: ModeView::Browsing, input_buffer: Seq::empty(), ..s }, None),
        Key::Tab => (AppView { show_password: !s.show_password, ..s }, None),
        Key::Enter => (
            AppView {
                mode: ModeView::Processing("Verifying Password..."@),
                input_buffer: Seq::empty(),
                pending: Pending::PasswordConnect,
                ..s
            },
            Some(
                CommandView::Connect {
                    ssid: s.target_ssid,
                    bssid: s.target_bssid,
                    password: s.input_buffer,
                    security: s.target_security,
                    interface: s.current_interface,
                },
            ),
        ),
        Key::Backspace => (
            AppView {
                input_buffer: if s.input_buffer.len() == 0 {
                    s.input_buffer
                } else {
                    s.input_buffer.drop_last()
                },
                ..s
            },
            None,
        ),
        Key::Char(c) => (AppView { input_buffer: s.input_buffer.push(c), ..s }, None),
        _ => (s, None),
    }
}

/// A key press in the action menu. Escape closes the menu; Up and `k`, Down
/// and `j` move its selection, going round; Enter carries out the selected
/// entry, where closing the menu is all there is to cancelling. Other keys do
/// nothing.
pub open spec fn choosing(s: AppView, key: Key) -> (AppView, Option<CommandView>) {
    match key {
        Key::Esc => (AppView { mode: ModeView::Browsing, ..s }, None),
        Key::Up | Key::Char('k') => (
            AppView { action_selected: previous_index(s.action_selected, ACTION_COUNT as nat), ..s },
            None,
        ),
        Key::Down | Key::Char('j') => (
            AppView { action_selected: next_index(s.action_selected, ACTION_COUNT as nat), ..s },
            None,
        ),
        Key::Enter => match s.action_selected {
            None => (s, None),
            Some(i) => match action_at(i) {
                Action::Disconnect => (
                    AppView { pending: Pending::Disconnecting, ..s },
                    Some(CommandView::Disconnect { interface: s.current_interface }),
                ),
                Action::Forget => (
                    AppView { pending: Pending::Forgetting, ..s },
                    Some(CommandView::Forget { ssid: s.target_ssid }),
                ),
                Action::Cancel => (AppView { mode: ModeView::Browsing, ..s }, None),
            },
        },
        _ => (s, None),
    }
}

/// A key press. It is ignored while the session waits for something, before
/// the first scan and while an action runs; it closes a message; in the
/// other modes it goes to the mode.
pub open spec fn pressed(s: AppView, key: Key) -> (AppView, Option<CommandView>) {
    if s.pending != Pending::Idle {
        (s, None)
    } else {
        match s.mode {
            ModeView::Browsing => browsing(s, key),
            ModeView::PasswordInput => typing(s, key),
            ModeView::ActionMenu => choosing(s, key),
            ModeView::Message(_) => (AppView { mode: ModeView::Browsing, ..s }, None),
            ModeView::Scanning => (s, None),
            ModeView::Processing(_) => (s, None),
        }
    }
}

/// A scan that came back. Where the session waits for one, its normalised
/// list replaces the networks (an empty list where the scan failed), the
/// first network is selected, or none in an empty list, and a screen that
/// was waiting goes to browsing, while a message stays.
pub open spec fn scanned(s: AppView, result: Result<Seq<char>, Seq<char>>) -> (
    AppView,
    Option<CommandView>,
) {
    if s.pending != Pending::Listing {
        (s, None)
    } else {
        let networks = match result {
            Ok(raw) => scan_result(raw),
            Err(_) => Seq::empty(),
        };
        let mode = match s.mode {
            ModeView::Scanning => ModeView::Browsing,
            ModeView::Processing(_) => ModeView::Browsing,
            other => other,
        };
        (
            AppView {
                mode,
                networks,
                selected: default_selection(networks.len()),
                pending: Pending::Idle,
                ..s
            },
            None,
        )
    }
}

/// A connect that came back. A success is told in a message and the list is
/// asked for anew. A connect with saved credentials that failed asks for the
/// password where the target is secured, and tells the failure where it is
/// open. A connect with a password that failed shows the message it failed
/// with.
pub open spec fn connected(s: AppView, result: Result<Seq<char>, Seq<char>>) -> (
    AppView,
    Option<CommandView>,
) {
    if s.pending == Pending::SavedConnect {
        match result {
            Ok(_) => (
                AppView {
                    mode: ModeView::Message("Connected to "@ + s.target_ssid),
                    pending: Pending::Listing,
                    ..s
                },
                Some(listing(s, false)),
            ),
            Err(_) => if s.target_security.len() > 0 {
                (
                    AppView {
                        mode: ModeView::PasswordInput,
                        input_buffer: Seq::empty(),
                        show_password: false,
                        pending: Pending::Idle,
                        ..s
                    },
                    None,
                )
            } else {
                (
                    AppView {
                        mode: ModeView::Message("Failed to connect to "@ + s.target_ssid),
                        pending: Pending::Idle,
                        ..s
                    },
                    None,
                )
            },
        }
    } else if s.pending == Pending::PasswordConnect {
        match result {
            Ok(_) => (
                AppView { mode: ModeView::Message("Success!"@), pending: Pending::Listing, ..s },
                Some(listing(s, false)),
            ),
            Err(message) => (
                AppView {
                    mode: ModeView::Message("Error: "@ + message),
                    pending: Pending::Idle,
                    ..s
                },
                None,
            ),
        }
    } else {
        (s, None)
    }
}

/// A disconnect or a forget that came back: it is told in a message, however
/// it went, and the list is asked for anew.
pub open spec fn done(s: AppView) -> (AppView, Option<CommandView>) {
    if s.pending == Pending::Disconnecting {
        (
            AppView { mode: ModeView::Message("Disconnected"@), pending: Pending::Listing, ..s },
            Some(listing(s, false)),
        )
    } else if s.pending == Pending::Forgetting {
        (
            AppView {
                mode: ModeView::Message("Network Forgotten"@),
                pending: Pending::Listing,
                ..s
            },
            Some(listing(s, false)),
        )
    } else {
        (s, None)
    }
}

/// The transition: the state after `event`, and the command handed out.
pub open spec fn stepped(s: AppView, event: EventView) -> (AppView, Option<CommandView>) {
    match event {
        EventView::Key(key) => pressed(s, key),
        EventView::Scanned(result) => scanned(s, result),
        EventView::Connected(result) => connected(s, result),
        EventView::Done => done(s),
    }
}

/// Every transition leads from a well-formed state to a well-formed state:
/// the list stays normalised, the selections stay inside their lists, and
/// the mode stays one that fits what the session waits for.
pub proof fn lemma_stepped_valid(s: AppView, event: EventView)
    requires
        valid(s),
    ensures
        valid(stepped(s, event).0),
{
    match event {
        EventView::Scanned(result) => {
            match result {
                Ok(raw) => {
                    lemma_scan_result(raw);
                },
                Err(_) => {},
            }
        },
        _ => {},
    }
}

/// The selection goes round the list. Down from the last network leads to
/// the first, up from the first leads to the last, and in an empty list
/// neither changes anything.
pub proof fn lemma_selection_wraps(s: AppView, last: usize)
    requires
        valid(s),
        s.mode == ModeView::Browsing,
        s.networks.len() == 0 || last == s.networks.len() - 1,
    ensures
        s.networks.len() > 0 && s.selected == Some(last) ==> stepped(
            s,
            EventView::Key(Key::Down),
        ).0.selected == Some(0usize),
        s.networks.len() > 0 && s.selected == Some(0usize) ==> stepped(
            s,
            EventView::Key(Key::Up),
        ).0.selected == Some(last),
        s.networks.len() == 0 ==> stepped(s, EventView::Key(Key::Down)).0 == s && stepped(
            s,
            EventView::Key(Key::Up),
        ).0 == s,
{
}

/// Any key closes a message that waits for nothing: the session goes back
/// to browsing, the rest of the state stays, and no command is handed out.
pub proof fn lemma_message_dismissed(s: AppView, key: Key)
    requires
        valid(s),
        s.mode is Message,
        s.pending == Pending::Idle,
    ensures
        stepped(s, EventView::Key(key)) == (
            AppView { mode: ModeView::Browsing, ..s },
            None::<CommandView>,
        ),
{
}

/// Escape while a password is typed leads back to browsing and empties the
/// buffer, whatever was typed, and hands out no command.
pub proof fn lemma_escape_discards_password(s: AppView)
    requires
        valid(s),
        s.mode == ModeView::PasswordInput,
    ensures
        stepped(s, EventView::Key(Key::Esc)).0.mode == ModeView::Browsing,
        stepped(s, EventView::Key(Key::Esc)).0.input_buffer == Seq::<char>::empty(),
        stepped(s, EventView::Key(Key::Esc)).1 is None,
{
}

/// Confirm on an open network that is not in use hands out a connect
/// without a password, and where that connect fails the session tells so in
/// a message and does not ask for a password.
pub proof fn lemma_open_network_failure(s: AppView, at: usize, message: Seq<char>)
    requires
        valid(s),
        s.mode == ModeView::Browsing,
        s.selected == Some(at),
        !s.networks[at as int].in_use,
        s.networks[at as int].security.len() == 0,
    ensures
        stepped(s, EventView::Key(Key::Enter)).1 == Some(
            CommandView::Connect {
                ssid: s.networks[at as int].ssid,
                bssid: s.networks[at as int].bssid,
                password: Seq::empty(),
                security: s.networks[at as int].security,
                interface: s.current_interface,
            },
        ),
        stepped(
            stepped(s, EventView::Key(Key::Enter)).0,
            EventView::Connected(Err(message)),
        ).0.mode == ModeView::Message("Failed to connect to "@ + s.networks[at as int].ssid),
{
}

/// Actions never overlap. While the session waits for something, no key
/// press changes it or hands out a command; and a transition that hands out
/// a command other than to quit leaves the session waiting.
pub proof fn lemma_one_action_at_a_time(s: AppView, event: EventView)
    requires
        valid(s),
    ensures
        s.pending != Pending::Idle && event is Key ==> stepped(s, event) == (
            s,
            None::<CommandView>,
        ),
        stepped(s, event).1 is Some && stepped(s, event).1 != Some(CommandView::Quit) ==> stepped(
            s,
            event,
        ).0.pending != Pending::Idle,
{
}

/// The session ends from browsing only: the command to quit is handed out
/// for the keys `q` and Escape there, and for nothing else anywhere, and it
/// leaves the state as it is.
pub proof fn lemma_quit_from_browsing_only(s: AppView, event: EventView)
    requires
        valid(s),
    ensures
        stepped(s, event).1 == Some(CommandView::Quit) <==> s.mode == ModeView::Browsing && (event
            == EventView::Key(Key::Char('q')) || event == EventView::Key(Key::Esc)),
        stepped(s, event).1 == Some(CommandView::Quit) ==> stepped(s, event).0 == s,
{
}

/// No failure ends the session or leaves it waiting: after a scan or a
/// connect that failed, the session waits for nothing and hands out no
/// command.
pub proof fn lemma_failures_are_absorbed(s: AppView, message: Seq<char>)
    requires
        valid(s),
    ensures
        s.pending == Pending::Listing ==> stepped(s, EventView::Scanned(Err(message))).0.pending
            == Pending::Idle,
        s.pending == Pending::SavedConnect || s.pending == Pending::PasswordConnect ==> stepped(
            s,
            EventView::Connected(Err(message)),
        ).0.pending == Pending::Idle,
        stepped(s, EventView::Scanned(Err(message))).1 is None,
        stepped(s, EventView::Connected(Err(message))).1 is None,
{
}

impl View for App {
    type V = AppView;

    closed spec fn view(&self) -> AppView {
        AppView {
            mode: self.mode@,
            networks: views(self.networks@),
            selected: self.selected,
            input_buffer: self.input_buffer@,
            show_password: self.show_password,
            wifi_interfaces: strings(self.wifi_interfaces@),
            current_interface: self.current_interface@,
            action_selected: self.action_selected,
            target_ssid: self.target_ssid@,
            target_bssid: self.target_bssid@,
            target_security: self.target_security@,
            pending: self.pending,
        }
    }
}

/// The place after `selected`, as [`next_index`] says.
fn index_after(selected: Option<usize>, len: usize) -> (r: Option<usize>)
    requires
        selected matches Some(i) ==> i < len,
    ensures
        r == next_index(selected, len as nat),
        r matches Some(i) ==> i < len,
{
    if len == 0 {
        None
    } else {
        match selected {
            Some(i) => if i + 1 >= len {
                Some(0)
            } else {
                Some(i + 1)
            },
            None => Some(0),
        }
    }
}

/// The place before `selected`, as [`previous_index`] says.
fn index_before(selected: Option<usize>, len: usize) -> (r: Option<usize>)
    requires
        selected matches Some(i) ==> i < len,
    ensures
        r == previous_index(selected, len as nat),
        r matches Some(i) ==> i < len,
{
    if len == 0 {
        None
    } else {
        match selected {
            Some(i) => if i == 0 {
                Some(len - 1)
            } else {
                Some(i - 1)
            },
            None => Some(0),
        }
    }
}

impl App {
    /// Whether the session is well formed. Every session that [`App::new`]
    /// made is, and every transition keeps it so.
    pub open spec fn wf(&self) -> bool {
        valid(self@)
    }

    /// A session on the adapter `current_interface`, with the known adapters
    /// `wifi_interfaces`, before its first scan. [`App::startup`] gives the
    /// command for that scan.
    pub fn new(wifi_interfaces: Vec<String>, current_interface: String) -> (app: App)
        ensures
            app.wf(),
            app@ == initial(strings(wifi_interfaces@), current_interface@),
    {
        App {
            mode: AppMode::Scanning,
            networks: Vec::new(),
            selected: None,
            input_buffer: String::new(),
            show_password: false,
            wifi_interfaces,
            current_interface,
            action_selected: None,
            target_ssid: String::new(),
            target_bssid: String::new(),
            target_security: String::new(),
            pending: Pending::Listing,
        }
    }

    /// The command that lists the networks of the adapter in use.
    fn list(&self, rescan: bool) -> (command: Command)
        ensures
            command@ == listing(self@, rescan),
    {
        Command::Scan { interface: self.current_interface.clone(), rescan }
    }

    /// The command that a new session starts with: the first listing.
    pub fn startup(&self) -> (command: Command)
        ensures
            command@ == listing(self@, false),
    {
        self.list(false)
    }

    /// Moves the selection down by one, going round, as [`next_index`] says.
    /// From the last network it goes to the first; an empty list keeps
    /// nothing selected.
    pub fn next_network(&mut self)
        requires
            old(self).wf(),
        ensures
            final(self).wf(),
            final(self)@ == (AppView {
                selected: next_index(old(self)@.selected, old(self)@.networks.len()),
                ..old(self)@
            }),
    {
        self.selected = index_after(self.selected, self.networks.len());
    }

    /// Moves the selection up by one, going round, as [`previous_index`]
    /// says. From the first network it goes to the last; an empty list keeps
    /// nothing selected.
    pub fn previous_network(&mut self)
        requires
            old(self).wf(),
        ensures
            final(self).wf(),
            final(self)@ == (AppView {
                selected: previous_index(old(self)@.selected, old(self)@.networks.len()),
                ..old(self)@
            }),
    {
        self.selected = index_before(self.selected, self.networks.len());
    }

    /// Moves the selection of the action menu down by one, going round.
    pub fn next_action(&mut self)
        requires
            old(self).wf(),
        ensures
            final(self).wf(),
            final(self)@ == (AppView {
                action_selected: next_index(old(self)@.action_selected, ACTION_COUNT as nat),
                ..old(self)@
            }),
    {
        self.action_selected = index_after(self.action_selected, ACTION_COUNT);
    }

    /// Moves the selection of the action menu up by one, going round.
    pub fn previous_action(&mut self)
        requires
            old(self).wf(),
        ensures
            final(self).wf(),
            final(self)@ == (AppView {
                action_selected: previous_index(old(self)@.action_selected, ACTION_COUNT as nat),
                ..old(self)@
            }),
    {
        self.action_selected = index_before(self.action_selected, ACTION_COUNT);
    }

    /// Goes to the next adapter of the round and clears the selection, as
    /// [`cycled_once`] says.
    pub fn cycle_interface(&mut self)
        requires
            old(self).wf(),
        ensures
            final(self).wf(),
            final(self)@ == cycled_once(old(self)@),
    {
        if self.wifi_interfaces.len() == 0 {
            return;
        }
        self.current_interface = cycle(&self.wifi_interfaces, self.current_interface.as_str());
        self.selected = None;
    }

    /// Confirm on the selected network, as [`confirmed`] says.
    fn confirm(&mut self) -> (command: Option<Command>)
        requires
            old(self).wf(),
            old(self)@.mode == ModeView::Browsing,
        ensures
            final(self).wf(),
            final(self)@ == confirmed(old(self)@).0,
            issued(command) == confirmed(old(self)@).1,
    {
        let at = match self.selected {
            Some(i) => i,
            None => {
                return None;
            },
        };
        let n = self.networks[at].clone();
        self.target_ssid = n.ssid.clone();
        self.target_bssid = n.bssid.clone();
        self.target_security = n.security.clone();
        if n.in_use {
            self.mode = AppMode::ActionMenu;
            self.action_selected = Some(0);
            None
        } else {
            self.mode = AppMode::Processing(joined3("Connecting to ", n.ssid.as_str(), "..."));
            self.pending = Pending::SavedConnect;
            Some(
                Command::Connect {
                    ssid: n.ssid,
                    bssid: n.bssid,
                    password: String::new(),
                    security: n.security,
                    interface: self.current_interface.clone(),
                },
            )
        }
    }

    /// A key press while browsing, as [`browsing`] says.
    fn browse(&mut self, key: Key) -> (command: Option<Command>)
        requires
            old(self).wf(),
            old(self)@.mode == ModeView::Browsing,
        ensures
            final(self).wf(),
            final(self)@ == browsing(old(self)@, key).0,
            issued(command) == browsing(old(self)@, key).1,
    {
        match key {
            Key::Char('q') | Key::Esc => Some(Command::Quit),
            Key::Down | Key::Char('j') => {
                self.next_network();
                None
            },
            Key::Up | Key::Char('k') => {
                self.previous_network();
                None
            },
            Key::Char('r') => {
                let command = self.list(true);
                self.mode = AppMode::Processing("Scanning...".to_owned());
                self.pending = Pending::Listing;
                Some(command)
            },
            Key::Char('i') => {
                self.cycle_interface();
                let command = self.list(false);
                self.mode = AppMode::Processing(
                    joined3("Switching to ", self.current_interface.as_str(), "..."),
                );
                self.pending = Pending::Listing;
                Some(command)
            },
            Key::Enter => self.confirm(),
            _ => None,
        }
    }

    /// A key press while a password is typed, as [`typing`] says.
    fn type_key(&mut self, key: Key) -> (command: Option<Command>)
        requires
            old(self).wf(),
            old(self)@.mode == ModeView::PasswordInput,
        ensures
            final(self).wf(),
            final(self)@ == typing(old(self)@, key).0,
            issued(command) == typing(old(self)@, key).1,
    {
        match key {
            Key::Esc => {
                self.mode = AppMode::Browsing;
                self.input_buffer = String::new();
                None
            },
            Key::Tab => {
                self.show_password = !self.show_password;
                None
            },
            Key::Enter => {
                let command = Command::Connect {
                    ssid: self.target_ssid.clone(),
                    bssid: self.target_bssid.clone(),
                    password: self.input_buffer.clone(),
                    security: self.target_security.clone(),
                    interface: self.current_interface.clone(),
                };
                self.mode = AppMode::Processing("Verifying Password...".to_owned());
                self.input_buffer = String::new();
                self.pending = Pending::PasswordConnect;
                Some(command)
            },
            Key::Backspace => {
                let _ = self.input_buffer.pop();
                None
            },
            Key::Char(c) => {
                self.input_buffer.push(c);
                None
            },
            _ => None,
        }
    }

    /// A key press in the action menu, as [`choosing`] says.
    fn pick(&mut self, key: Key) -> (command: Option<Command>)
        requires
            old(self).wf(),
            old(self)@.mode == ModeView::ActionMenu,
            old(self)@.pending == Pending::Idle,
        ensures
            final(self).wf(),
            final(self)@ == choosing(old(self)@, key).0,
            issued(command) == choosing(old(self)@, key).1,
    {
        match key {
            Key::Esc => {
                self.mode = AppMode::Browsing;
                None
            },
            Key::Up | Key::Char('k') => {
                self.previous_action();
                None
            },
            Key::Down | Key::Char('j') => {
                self.next_action();
                None
            },
            Key::Enter => match self.action_selected {
                None => None,
                Some(0) => {
                    self.pending = Pending::Disconnecting;
                    Some(Command::Disconnect { interface: self.current_interface.clone() })
                },
                Some(1) => {
                    self.pending = Pending::Forgetting;
                    Some(Command::Forget { ssid: self.target_ssid.clone() })
                },
                Some(_) => {
                    self.mode = AppMode::Browsing;
                    None
                },
            },
            _ => None,
        }
    }

    /// A key press, as [`pressed`] says.
    fn press(&mut self, key: Key) -> (command: Option<Command>)
        requires
            old(self).wf(),
        ensures
            final(self).wf(),
            final(self)@ == pressed(old(self)@, key).0,
            issued(command) == pressed(old(self)@, key).1,
    {
        match self.pending {
            Pending::Idle => {},
            _ => {
                return None;
            },
        }
        match self.mode {
            AppMode::Browsing => self.browse(key),
            AppMode::PasswordInput => self.type_key(key),
            AppMode::ActionMenu => self.pick(key),
            AppMode::Message(_) => {
                self.mode = AppMode::Browsing;
                None
            },
            AppMode::Scanning => None,
            AppMode::Processing(_) => None,
        }
    }

    /// A scan that came back, as [`scanned`] says.
    fn take_scan(&mut self, result: Result<String, String>) -> (command: Option<Command>)
        requires
            old(self).wf(),
        ensures
            final(self).wf(),
            final(self)@ == scanned(old(self)@, told(result)).0,
            issued(command) == scanned(old(self)@, told(result)).1,
    {
        match self.pending {
            Pending::Listing => {},
            _ => {
                return None;
            },
        }
        let networks = match result {
            Ok(raw) => get_networks(raw.as_str()),
            Err(_) => Vec::new(),
        };
        self.selected = if networks.len() == 0 {
            None
        } else {
            Some(0)
        };
        self.networks = networks;
        let waiting = match self.mode {
            AppMode::Scanning => true,
            AppMode::Processing(_) => true,
            _ => false,
        };
        if waiting {
            self.mode = AppMode::Browsing;
        }
        self.pending = Pending::Idle;
        None
    }

    /// A connect that came back, as [`connected`] says.
    fn take_connect(&mut self, result: Result<String, String>) -> (command: Option<Command>)
        requires
            old(self).wf(),
        ensures
            final(self).wf(),
            final(self)@ == connected(old(self)@, told(result)).0,
            issued(command) == connected(old(self)@, told(result)).1,
    {
        match self.pending {
            Pending::SavedConnect => match result {
                Ok(_) => {
                    let command = self.list(false);
                    self.mode = AppMode::Message(joined("Connected to ", self.target_ssid.as_str()));
                    self.pending = Pending::Listing;
                    Some(command)
                },
                Err(_) => {
                    if self.target_security.as_str().is_empty() {
                        self.mode = AppMode::Message(
                            joined("Failed to connect to ", self.target_ssid.as_str()),
                        );
                    } else {
                        self.mode = AppMode::PasswordInput;
                        self.input_buffer = String::new();
                        self.show_password = false;
                    }
                    self.pending = Pending::Idle;
                    None
                },
            },
            Pending::PasswordConnect => match result {
                Ok(_) => {
                    let command = self.list(false);
                    self.mode = AppMode::Message("Success!".to_owned());
                    self.pending = Pending::Listing;
                    Some(command)
                },
                Err(message) => {
                    self.mode = AppMode::Message(joined("Error: ", message.as_str()));
                    self.pending = Pending::Idle;
                    None
                },
            },
            _ => None,
        }
    }

    /// A disconnect or a forget that came back, as [`done`] says.
    fn take_done(&mut self) -> (command: Option<Command>)
        requires
            old(self).wf(),
        ensures
            final(self).wf(),
            final(self)@ == done(old(self)@).0,
            issued(command) == done(old(self)@).1,
    {
        match self.pending {
            Pending::Disconnecting => {
                let command = self.list(false);
                self.mode = AppMode::Message("Disconnected".to_owned());
                self.pending = Pending::Listing;
                Some(command)
            },
            Pending::Forgetting => {
                let command = self.list(false);
                self.mode = AppMode::Message("Network Forgotten".to_owned());
                self.pending = Pending::Listing;
                Some(command)
            },
            _ => None,
        }
    }

    /// What the screen is for.
    pub fn mode(&self) -> (r: &AppMode)
        ensures
            r@ == self@.mode,
    {
        &self.mode
    }

    /// The networks of the last scan, normalised.
    pub fn networks(&self) -> (r: &Vec<Network>)
        ensures
            views(r@) == self@.networks,
    {
        &self.networks
    }

    /// The place of the selected network, if one is selected.
    pub fn selected(&self) -> (r: Option<usize>)
        ensures
            r == self@.selected,
    {
        self.selected
    }

    /// The password typed so far.
    pub fn input_buffer(&self) -> (r: &str)
        ensures
            r@ == self@.input_buffer,
    {
        self.input_buffer.as_str()
    }

    /// Whether the password is shown as typed.
    pub fn show_password(&self) -> (r: bool)
        ensures
            r == self@.show_password,
    {
        self.show_password
    }

    /// The known adapters.
    pub fn wifi_interfaces(&self) -> (r: &Vec<String>)
        ensures
            strings(r@) == self@.wifi_interfaces,
    {
        &self.wifi_interfaces
    }

    /// The adapter in use.
    pub fn current_interface(&self) -> (r: &str)
        ensures
            r@ == self@.current_interface,
    {
        self.current_interface.as_str()
    }

    /// The place of the selected entry of the action menu.
    pub fn action_selected(&self) -> (r: Option<usize>)
        ensures
            r == self@.action_selected,
    {
        self.action_selected
    }

    /// The name of the target network.
    pub fn target_ssid(&self) -> (r: &str)
        ensures
            r@ == self@.target_ssid,
    {
        self.target_ssid.as_str()
    }

    /// The hardware identifier of the target network.
    pub fn target_bssid(&self) -> (r: &str)
        ensures
            r@ == self@.target_bssid,
    {
        self.target_bssid.as_str()
    }

    /// The security descriptor of the target network.
    pub fn target_security(&self) -> (r: &str)
        ensures
            r@ == self@.target_security,
    {
        self.target_security.as_str()
    }

    /// What the session waits for.
    pub fn pending(&self) -> (r: Pending)
        ensures
            r == self@.pending,
    {
        self.pending
    }

    /// The transition for `event`, as [`stepped`] says: the session changes
    /// into the state after it, and the command that it hands out, if any,
    /// is returned.
    pub fn step(&mut self, event: Event) -> (command: Option<Command>)
        requires
            old(self).wf(),
        ensures
            final(self).wf(),
            final(self)@ == stepped(old(self)@, event@).0,
            issued(command) == stepped(old(self)@, event@).1,
    {
        match event {
            Event::Key(key) => self.press(key),
            Event::Scanned(result) => self.take_scan(result),
            Event::Connected(result) => self.take_connect(result),
            Event::Done => self.take_done(),
        }
    }
}

} // verus!
