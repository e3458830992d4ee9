use lunaris::integration::{
    autostart_command, autostart_entry, autostart_plist, run_value, url_handler_command,
    url_handler_entry, LunarisApp,
};

#[test]
fn url_handler_files() {
    assert_eq!(
        url_handler_entry("/opt/lunaris/client"),
        "[Desktop Entry]\nType=Application\nName=Lunaris Client\nExec='/opt/lunaris/client' %u\nTerminal=false\nMimeType=x-scheme-handler/lunaris;\nCategories=Network;\n"
    );
    assert_eq!(
        url_handler_command("C:\\Lunaris\\client.exe"),
        "\"C:\\Lunaris\\client.exe\" \"%1\""
    );
}

#[test]
fn autostart_files() {
    assert_eq!(
        autostart_entry(LunarisApp::Agent, "/usr/bin/lunaris-agent"),
        "[Desktop Entry]\nType=Application\nName=Lunaris Agent\nExec=\"/usr/bin/lunaris-agent\" --minimized\nIcon=lunaris-agent\nX-GNOME-Autostart-enabled=true\n"
    );
    assert_eq!(
        autostart_entry(LunarisApp::Client, "/a b/c"),
        "[Desktop Entry]\nType=Application\nName=Lunaris Client\nExec=\"/a b/c\" --minimized\nIcon=lunaris-client\nX-GNOME-Autostart-enabled=true\n"
    );
    let expected = format!(
        r#"<?xml version="1.0" encoding="UTF-8"?>
<!DOCTYPE plist PUBLIC "-//Apple//DTD PLIST 1.0//EN" "http://www.apple.com/DTDs/PropertyList-1.0.dtd">
<plist version="1.0">
<dict>
    <key>Label</key>
    <string>com.lunaris.client</string>
    <key>ProgramArguments</key>
    <array>
        <string>{}</string>
        <string>--minimized</string>
    </array>
    <key>RunAtLoad</key>
    <true/>
</dict>
</plist>"#,
        "/Applications/Lunaris.app/Contents/MacOS/client"
    );
    assert_eq!(
        autostart_plist(LunarisApp::Client, "/Applications/Lunaris.app/Contents/MacOS/client"),
        expected
    );
    assert!(autostart_plist(LunarisApp::Agent, "x").contains("<string>com.lunaris.agent</string>"));
    assert_eq!(autostart_command("C:\\a.exe"), "\"C:\\a.exe\" --minimized");
    assert_eq!(run_value(LunarisApp::Agent), "LunarisAgent");
    assert_eq!(run_value(LunarisApp::Client), "LunarisClient");
}
