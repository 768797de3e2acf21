//! What the program decides outside the interactive session: the options of
//! the command line, the adapter to work on, the arguments and the outcome of
//! the commands it runs, and the reports of the one-shot actions.

use crate::interface::{default_interface, is_known, pick_default_interface, shown};
use crate::text::{
    chars_of, contains, glued, has, joined, joined3, lemma_glued_push, lines, pieces, same, spells,
    split_lines,
    split_pieces, strings, texts, told, trim, trimmed,
};
use vstd::prelude::*;
use vstd::string::StringExecFns;

verus! {

/// The options of the command line.
#[derive(Debug, PartialEq, Eq)]
pub struct CliOptions {
    /// Rescan once and leave.
    pub rescan: bool,
    /// Disconnect and leave.
    pub disconnect: bool,
    /// Print the status and leave.
    pub status: bool,
    /// Print the usage and leave.
    pub help: bool,
    /// The adapter to work on.
    pub interface: Option<String>,
}

/// [`CliOptions`] as plain values.
#[verifier::ext_equal]
pub struct OptionsView {
    pub rescan: bool,
    pub disconnect: bool,
    pub status: bool,
    pub help: bool,
    pub interface: Option<Seq<char>>,
}

impl View for CliOptions {
    type V = OptionsView;

    open spec fn view(&self) -> OptionsView {
        OptionsView {
            rescan: self.rescan,
            disconnect: self.disconnect,
            status: self.status,
            help: self.help,
            interface: match self.interface {
                Some(name) => Some(name@),
                None => None,
            },
        }
    }
}

/// No option given.
pub open spec fn no_options() -> OptionsView {
    OptionsView { rescan: false, disconnect: false, status: false, help: false, interface: None }
}

/// The number of one-shot actions that `o` asks for.
pub open spec fn action_count(o: OptionsView) -> int {
    (if o.rescan {
        1int
    } else {
        0int
    }) + (if o.disconnect {
        1int
    } else {
        0int
    }) + (if o.status {
        1int
    } else {
        0int
    })
}

/// The options that the arguments from place `i` on add to `o`. Each of
/// `--rescan`, `--disconnect` and `--status` asks for its action, and
/// `--interface` takes the argument behind it as the adapter. `--help` or
/// `-h` ends the reading at once with the options so far and `help` set. Any
/// other argument, and `--interface` as the last one, is an error. At the end
/// more than one action is an error.
pub open spec fn options_from(args: Seq<Seq<char>>, i: int, o: OptionsView) -> Result<
    OptionsView,
    Seq<char>,
>
    decreases args.len() - i,
{
    if i < 0 || i >= args.len() {
        if action_count(o) > 1 {
            Err("Use only one non-interactive action at a time"@)
        } else {
            Ok(o)
        }
    } else if args[i] == "--rescan"@ {
        options_from(args, i + 1, OptionsView { rescan: true, ..o })
    } else if args[i] == "--disconnect"@ {
        options_from(args, i + 1, OptionsView { disconnect: true, ..o })
    } else if args[i] == "--status"@ {
        options_from(args, i + 1, OptionsView { status: true, ..o })
    } else if args[i] == "--interface"@ {
        if i + 1 < args.len() {
            options_from(args, i + 2, OptionsView { interface: Some(args[i + 1]), ..o })
        } else {
            Err("--interface requires a value"@)
        }
    } else if args[i] == "--help"@ || args[i] == "-h"@ {
        Ok(OptionsView { help: true, ..o })
    } else {
        Err("Unknown argument: "@ + args[i])
    }
}

/// The options that the arguments give, or the message of what is wrong with
/// them.
pub open spec fn options_of(args: Seq<Seq<char>>) -> Result<OptionsView, Seq<char>> {
    options_from(args, 0, no_options())
}

/// A result that holds options or a message, as plain values.
pub open spec fn read(r: Result<CliOptions, String>) -> Result<OptionsView, Seq<char>> {
    match r {
        Ok(o) => Ok(o@),
        Err(message) => Err(message@),
    }
}

/// Reads the arguments of the command line, without the name of the program,
/// as [`options_of`] says.
pub fn parse_cli_options(args: &Vec<String>) -> (r: Result<CliOptions, String>)
    ensures
        read(r) == options_of(strings(args@)),
{
    let ghost all = strings(args@);
    let mut opts = CliOptions {
        rescan: false,
        disconnect: false,
        status: false,
        help: false,
        interface: None,
    };
    let mut i: usize = 0;
    while i < args.len()
        invariant
            i <= args@.len(),
            all == strings(args@),
            options_of(all) == options_from(all, i as int, opts@),
        decreases args@.len() - i,
    {
        let arg = args[i].as_str();
        if same(arg, "--rescan") {
            opts.rescan = true;
            i += 1;
        } else if same(arg, "--disconnect") {
            opts.disconnect = true;
            i += 1;
        } else if same(arg, "--status") {
            opts.status = true;
            i += 1;
        } else if same(arg, "--interface") {
            if i + 1 < args.len() {
                opts.interface = Some(args[i + 1].clone());
                i += 2;
            } else {
                return Err("--interface requires a value".to_owned());
            }
        } else if same(arg, "--help") || same(arg, "-h") {
            opts.help = true;
            return Ok(opts);
        } else {
            return Err(joined("Unknown argument: ", arg));
        }
    }
    let mut count: u8 = 0;
    if opts.rescan {
        count += 1;
    }
    if opts.disconnect {
        count += 1;
    }
    if opts.status {
        count += 1;
    }
    if count > 1 {
        return Err("Use only one non-interactive action at a time".to_owned());
    }
    Ok(opts)
}

/// The outcome of a command that was run: what it printed, trimmed, where it
/// succeeded; else what it printed as errors, trimmed, or, where that is
/// empty, what it printed, trimmed.
pub open spec fn command_outcome(success: bool, stdout: Seq<char>, stderr: Seq<char>) -> Result<
    Seq<char>,
    Seq<char>,
> {
    if success {
        Ok(trimmed(stdout))
    } else if trimmed(stderr).len() > 0 {
        Err(trimmed(stderr))
    } else {
        Err(trimmed(stdout))
    }
}

/// The outcome of a command that was run, as [`command_outcome`] says.
pub fn command_result(success: bool, stdout: &str, stderr: &str) -> (r: Result<String, String>)
    ensures
        told(r) == command_outcome(success, stdout@, stderr@),
{
    let out = trim(stdout);
    if success {
        return Ok(out);
    }
    let err = trim(stderr);
    if err.as_str().is_empty() {
        Err(out)
    } else {
        Err(err)
    }
}

/// Whether a security descriptor asks for a password: it names WPA, RSN or
/// WEP.
pub open spec fn is_secured(security: Seq<char>) -> bool {
    has(security, "WPA"@) || has(security, "RSN"@) || has(security, "WEP"@)
}

/// The arguments of the connect command. The profile is named after the
/// SSID; the BSSID is given where it is known, and the password where the
/// network [`is_secured`].
pub open spec fn connect_arguments(
    ssid: Seq<char>,
    bssid: Seq<char>,
    password: Seq<char>,
    security: Seq<char>,
    interface: Seq<char>,
) -> Seq<Seq<char>> {
    seq!["dev"@, "wifi"@, "connect"@, ssid, "ifname"@, interface] + (if bssid.len() > 0 {
        seq!["bssid"@, bssid]
    } else {
        Seq::empty()
    }) + seq!["name"@, ssid] + (if is_secured(security) {
        seq!["password"@, password]
    } else {
        Seq::empty()
    })
}

/// Adds `word` to `args`.
fn push_word(args: &mut Vec<String>, word: &str)
    ensures
        strings(final(args)@) == strings(old(args)@).push(word@),
{
    let owned = word.to_owned();
    args.push(owned);
}

/// The arguments of the connect command, as [`connect_arguments`] says.
pub fn connect_args(ssid: &str, bssid: &str, password: &str, security: &str, interface: &str) -> (args:
    Vec<String>)
    ensures
        strings(args@) == connect_arguments(ssid@, bssid@, password@, security@, interface@),
{
    let mut args: Vec<String> = Vec::new();
    push_word(&mut args, "dev");
    push_word(&mut args, "wifi");
    push_word(&mut args, "connect");
    push_word(&mut args, ssid);
    push_word(&mut args, "ifname");
    push_word(&mut args, interface);
    if !bssid.is_empty() {
        push_word(&mut args, "bssid");
        push_word(&mut args, bssid);
    }
    push_word(&mut args, "name");
    push_word(&mut args, ssid);
    let descriptor = chars_of(security);
    let secured = contains(&descriptor, &chars_of("WPA")) || contains(&descriptor, &chars_of("RSN"))
        || contains(&descriptor, &chars_of("WEP"));
    if secured {
        push_word(&mut args, "password");
        push_word(&mut args, password);
    }
    args
}

/// The line of the status report for a line of the device listing: none for
/// a line of fewer than four fields, for a device that is not of the kind
/// `wifi`, and for another adapter than the one asked for.
pub open spec fn status_row(line: Seq<char>, interface: Option<Seq<char>>) -> Option<Seq<char>> {
    let p = pieces(line, ':', false);
    if p.len() < 4 || p[1] != "wifi"@ {
        None
    } else if interface is Some && p[0] != interface->0 {
        None
    } else {
        Some("interface="@ + p[0] + " state="@ + p[2] + " connection="@ + p[3])
    }
}

/// The lines of the status report, in the order of the device listing.
pub open spec fn status_rows(lines: Seq<Seq<char>>, interface: Option<Seq<char>>) -> Seq<Seq<char>>
    decreases lines.len(),
{
    if lines.len() == 0 {
        Seq::empty()
    } else {
        let before = status_rows(lines.drop_last(), interface);
        match status_row(lines.last(), interface) {
            Some(row) => before.push(row),
            None => before,
        }
    }
}

/// `rows` with a line feed between neighbours.
pub open spec fn stacked(rows: Seq<Seq<char>>) -> Seq<char> {
    glued(rows, '\n')
}

/// The status report: one line for each Wi-Fi adapter of the device listing
/// `output`, or for the one asked for, and a line that says so where there
/// is none.
pub open spec fn status_report(output: Seq<char>, interface: Option<Seq<char>>) -> Seq<char> {
    let rows = status_rows(lines(output), interface);
    if rows.len() == 0 {
        match interface {
            Some(name) => "interface="@ + name + " state=unavailable connection=--"@,
            None => "interface=none state=unavailable connection=--"@,
        }
    } else {
        stacked(rows)
    }
}

/// The status report for the device listing `output`, as [`status_report`]
/// says.
pub fn run_status(output: &str, interface: Option<&str>) -> (report: String)
    ensures
        report@ == status_report(output@, shown(interface)),
{
    let chars = chars_of(output);
    let rows = split_lines(&chars);
    let ghost all = texts(rows@);
    let ghost wanted = shown(interface);
    let mut report = String::new();
    let mut count: usize = 0;
    let mut i: usize = 0;
    while i < rows.len()
        invariant
            i <= rows@.len(),
            all == texts(rows@),
            wanted == shown(interface),
            count == status_rows(all.take(i as int), wanted).len(),
            count <= i,
            report@ == stacked(status_rows(all.take(i as int), wanted)),
        decreases rows@.len() - i,
    {
        let ghost sofar = status_rows(all.take(i as int), wanted);
        assert(all.take(i + 1).drop_last() == all.take(i as int));
        let parts = split_pieces(&rows[i], ':', false);
        let ghost p = texts(parts@);
        if parts.len() >= 4 {
            let kept = spells(&parts[1], "wifi") && match interface {
                Some(name) => spells(&parts[0], name),
                None => true,
            };
            if kept {
                let ghost row = "interface="@ + p[0] + " state="@ + p[2] + " connection="@ + p[3];
                proof {
                    lemma_glued_push(sofar, '\n', row);
                }
                if count > 0 {
                    report.push('\n');
                }
                report.append("interface=");
                push_chars(&mut report, &parts[0]);
                report.append(" state=");
                push_chars(&mut report, &parts[2]);
                report.append(" connection=");
                push_chars(&mut report, &parts[3]);
                count += 1;
            }
        }
        i += 1;
    }
    assert(all.take(i as int) == all);
    if count == 0 {
        match interface {
            Some(name) => joined3("interface=", name, " state=unavailable connection=--"),
            None => "interface=none state=unavailable connection=--".to_owned(),
        }
    } else {
        report
    }
}

/// Adds `chars` to `s`.
fn push_chars(s: &mut String, chars: &Vec<char>)
    ensures
        final(s)@ == old(s)@ + chars@,
{
    let mut i: usize = 0;
    while i < chars.len()
        invariant
            i <= chars@.len(),
            s@ == old(s)@ + chars@.take(i as int),
        decreases chars@.len() - i,
    {
        s.push(chars[i]);
        i += 1;
    }
}

/// The adapter to work on: the one asked for, which has to be among the
/// known ones, or the one that [`default_interface`] picks; else the message
/// of what is wrong.
pub open spec fn chosen_interface(
    requested: Option<Seq<char>>,
    interfaces: Seq<Seq<char>>,
    status: Option<Seq<char>>,
) -> Result<Seq<char>, Seq<char>> {
    match requested {
        Some(name) => if interfaces.contains(name) {
            Ok(name)
        } else {
            Err("Interface '"@ + name + "' not found among Wi-Fi devices."@)
        },
        None => match default_interface(interfaces, status) {
            Some(name) => Ok(name),
            None => Err("No Wi-Fi interface found."@),
        },
    }
}

/// Chooses the adapter to work on, as [`chosen_interface`] says. What is
/// chosen is one of `interfaces`.
pub fn select_interface(requested: Option<&str>, interfaces: &Vec<String>, status: Option<&str>) -> (r:
    Result<String, String>)
    ensures
        told(r) == chosen_interface(shown(requested), strings(interfaces@), shown(status)),
        r matches Ok(name) ==> strings(interfaces@).contains(name@),
{
    match requested {
        Some(name) => {
            if is_known(interfaces, name) {
                Ok(name.to_owned())
            } else {
                Err(joined3("Interface '", name, "' not found among Wi-Fi devices."))
            }
        },
        None => match pick_default_interface(interfaces, status) {
            Some(name) => Ok(name),
            None => Err("No Wi-Fi interface found.".to_owned()),
        },
    }
}

/// The report of a one-shot action on `interface`: what the command printed,
/// or, where it printed nothing, the name of the action, `=ok interface=` and
/// the adapter.
pub open spec fn action_report_of(action: Seq<char>, output: Seq<char>, interface: Seq<char>) -> Seq<
    char,
> {
    if output.len() > 0 {
        output
    } else {
        action + "=ok interface="@ + interface
    }
}

/// The report of a one-shot action, as [`action_report_of`] says.
pub fn action_report(action: &str, output: &str, interface: &str) -> (report: String)
    ensures
        report@ == action_report_of(action@, output@, interface@),
{
    if output.is_empty() {
        joined3(action, "=ok interface=", interface)
    } else {
        output.to_owned()
    }
}

} // verus!
