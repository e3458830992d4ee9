//! What the agent and the client write to register themselves with the
//! desktop: the `lunaris://` URL handler and the entries that start them at
//! login.

use crate::text::{chars_of, push_all, string_from_chars};
use vstd::prelude::*;

verus! {

/// The program being registered.
#[derive(Debug, Clone, Copy, PartialEq, Eq, Structural)]
pub enum LunarisApp {
    Agent,
    Client,
}

pub open spec fn app_title(app: LunarisApp) -> Seq<char> {
    match app {
        LunarisApp::Agent => "Lunaris Agent"@,
        LunarisApp::Client => "Lunaris Client"@,
    }
}

pub open spec fn app_icon(app: LunarisApp) -> Seq<char> {
    match app {
        LunarisApp::Agent => "lunaris-agent"@,
        LunarisApp::Client => "lunaris-client"@,
    }
}

pub open spec fn app_bundle_label(app: LunarisApp) -> Seq<char> {
    match app {
        LunarisApp::Agent => "com.lunaris.agent"@,
        LunarisApp::Client => "com.lunaris.client"@,
    }
}

/// The value under which Windows starts the program at login.
pub open spec fn run_value_name(app: LunarisApp) -> Seq<char> {
    match app {
        LunarisApp::Agent => "LunarisAgent"@,
        LunarisApp::Client => "LunarisClient"@,
    }
}

fn text_of(pieces: Vec<&str>) -> (res: String)
    ensures
        res@ == pieces@.fold_left(Seq::<char>::empty(), |acc: Seq<char>, p: &str| acc + p@),
{
    let mut v: Vec<char> = Vec::new();
    let mut i: usize = 0;
    while i < pieces.len()
        invariant
            i <= pieces@.len(),
            v@ == pieces@.take(i as int).fold_left(
                Seq::<char>::empty(),
                |acc: Seq<char>, p: &str| acc + p@,
            ),
        decreases pieces@.len() - i,
    {
        let c = chars_of(pieces[i]);
        push_all(&mut v, c.as_slice());
        proof {
            assert(pieces@.take(i + 1).drop_last() =~= pieces@.take(i as int));
        }
        i = i + 1;
    }
    assert(pieces@.take(pieces@.len() as int) =~= pieces@);
    string_from_chars(v.as_slice())
}

/// The XDG desktop entry that makes the client open `lunaris://` links.
pub open spec fn url_handler_entry_text(exe: Seq<char>) -> Seq<char> {
    "[Desktop Entry]\nType=Application\nName=Lunaris Client\nExec='"@ + exe
        + "' %u\nTerminal=false\nMimeType=x-scheme-handler/lunaris;\nCategories=Network;\n"@
}

/// The XDG desktop entry that makes the client at `exe` open `lunaris://`
/// links.
pub fn url_handler_entry(exe: &str) -> (res: String)
    ensures
        res@ == url_handler_entry_text(exe@),
{
    let pieces = vec![
        "[Desktop Entry]\nType=Application\nName=Lunaris Client\nExec='",
        exe,
        "' %u\nTerminal=false\nMimeType=x-scheme-handler/lunaris;\nCategories=Network;\n",
    ];
    let res = text_of(pieces);
    proof {
        reveal_with_fuel(Seq::fold_left, 4);
    }
    res
}

/// The command Windows runs for a `lunaris://` link: the quoted client
/// path and the quoted link.
pub open spec fn url_handler_command_text(exe: Seq<char>) -> Seq<char> {
    "\""@ + exe + "\" \"%1\""@
}

pub fn url_handler_command(exe: &str) -> (res: String)
    ensures
        res@ == url_handler_command_text(exe@),
{
    let res = text_of(vec!["\"", exe, "\" \"%1\""]);
    proof {
        reveal_with_fuel(Seq::fold_left, 4);
    }
    res
}

/// What starts the program at login on Windows: its quoted path and
/// `--minimized`.
pub open spec fn autostart_command_text(exe: Seq<char>) -> Seq<char> {
    "\""@ + exe + "\" --minimized"@
}

pub fn autostart_command(exe: &str) -> (res: String)
    ensures
        res@ == autostart_command_text(exe@),
{
    let res = text_of(vec!["\"", exe, "\" --minimized"]);
    proof {
        reveal_with_fuel(Seq::fold_left, 4);
    }
    res
}

fn title(app: LunarisApp) -> (res: &'static str)
    ensures
        res@ == app_title(app),
{
    match app {
        LunarisApp::Agent => "Lunaris Agent",
        LunarisApp::Client => "Lunaris Client",
    }
}

fn icon(app: LunarisApp) -> (res: &'static str)
    ensures
        res@ == app_icon(app),
{
    match app {
        LunarisApp::Agent => "lunaris-agent",
        LunarisApp::Client => "lunaris-client",
    }
}

fn bundle_label(app: LunarisApp) -> (res: &'static str)
    ensures
        res@ == app_bundle_label(app),
{
    match app {
        LunarisApp::Agent => "com.lunaris.agent",
        LunarisApp::Client => "com.lunaris.client",
    }
}

/// The name of the value that starts the program at login on Windows.
pub fn run_value(app: LunarisApp) -> (res: &'static str)
    ensures
        res@ == run_value_name(app),
{
    match app {
        LunarisApp::Agent => "LunarisAgent",
        LunarisApp::Client => "LunarisClient",
    }
}

/// The XDG autostart entry that starts the program minimized at login.
pub open spec fn autostart_entry_text(app: LunarisApp, exe: Seq<char>) -> Seq<char> {
    "[Desktop Entry]\nType=Application\nName="@ + app_title(app) + "\nExec=\""@ + exe
        + "\" --minimized\nIcon="@ + app_icon(app) + "\nX-GNOME-Autostart-enabled=true\n"@
}

pub fn autostart_entry(app: LunarisApp, exe: &str) -> (res: String)
    ensures
        res@ == autostart_entry_text(app, exe@),
{
    let res = text_of(
        vec![
            "[Desktop Entry]\nType=Application\nName=",
            title(app),
            "\nExec=\"",
            exe,
            "\" --minimized\nIcon=",
            icon(app),
            "\nX-GNOME-Autostart-enabled=true\n",
        ],
    );
    proof {
        reveal_with_fuel(Seq::fold_left, 8);
    }
    res
}

/// The launchd property list that starts the program minimized at login on
/// macOS.
pub open spec fn autostart_plist_text(app: LunarisApp, exe: Seq<char>) -> Seq<char> {
    "<?xml version=\"1.0\" encoding=\"UTF-8\"?>\n<!DOCTYPE plist PUBLIC \"-//Apple//DTD PLIST 1.0//EN\" \"http://www.apple.com/DTDs/PropertyList-1.0.dtd\">\n<plist version=\"1.0\">\n<dict>\n    <key>Label</key>\n    <string>"@
        + app_bundle_label(app)
        + "</string>\n    <key>ProgramArguments</key>\n    <array>\n        <string>"@ + exe
        + "</string>\n        <string>--minimized</string>\n    </array>\n    <key>RunAtLoad</key>\n    <true/>\n</dict>\n</plist>"@
}

pub fn autostart_plist(app: LunarisApp, exe: &str) -> (res: String)
    ensures
        res@ == autostart_plist_text(app, exe@),
{
    let res = text_of(
        vec![
            "<?xml version=\"1.0\" encoding=\"UTF-8\"?>\n<!DOCTYPE plist PUBLIC \"-//Apple//DTD PLIST 1.0//EN\" \"http://www.apple.com/DTDs/PropertyList-1.0.dtd\">\n<plist version=\"1.0\">\n<dict>\n    <key>Label</key>\n    <string>",
            bundle_label(app),
            "</string>\n    <key>ProgramArguments</key>\n    <array>\n        <string>",
            exe,
            "</string>\n        <string>--minimized</string>\n    </array>\n    <key>RunAtLoad</key>\n    <true/>\n</dict>\n</plist>",
        ],
    );
    proof {
        reveal_with_fuel(Seq::fold_left, 6);
    }
    res
}

} // verus!
